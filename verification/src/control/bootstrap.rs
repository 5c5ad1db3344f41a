//! Starting a daemon from a client that does not own one.
use vstd::prelude::*;
use vstd::string::*;

use crate::control;
use crate::text;

verus! {

/// The name of the binary that can host a daemon.
pub const HOST_BINARY_NAME: &'static str = "relay-core-cli";

/// How long to wait between two looks at a starting daemon, in milliseconds.
pub const POLL_INTERVAL_MS: u64 = 50;

/// Why no daemon could be started.
#[derive(Clone, Debug)]
pub enum BootstrapError {
    HostBinaryNotFound,
    Spawn(String),
    ExitedBeforeReady { pid: u32, log: String },
    Timeout { pid: u32, timeout_secs: u64, timeout_nanos: u32, log: String },
}

/// How a failed start reads.
pub open spec fn error_text(e: BootstrapError) -> Seq<char> {
    match e {
        BootstrapError::HostBinaryNotFound =>
            "cannot find the RelayCore CLI binary to start a daemon: looked next to this executable and on PATH (install @relay-core/cli and run `relay-core`)"@,
        BootstrapError::Spawn(m) => "failed to start the RelayCore daemon: "@ + m@,
        BootstrapError::ExitedBeforeReady { pid, log } => "the RelayCore daemon exited during startup (pid "@
            + text::decimal(pid as nat) + "); see "@ + log@,
        BootstrapError::Timeout { pid, timeout_secs, timeout_nanos: _, log } => "the RelayCore daemon (pid "@ + text::decimal(pid as nat)
            + ") did not become ready within "@ + text::decimal(timeout_secs as nat) + "s; see "@ + log@,
    }
}

impl BootstrapError {
    /// How the error reads.
    pub fn message(&self) -> (r: String)
        ensures
            r@ == error_text(*self),
            self matches BootstrapError::Spawn(m) ==> r@ == "failed to start the RelayCore daemon: "@ + m@,
            self matches BootstrapError::ExitedBeforeReady { pid, log } ==> r@
                == "the RelayCore daemon exited during startup (pid "@ + text::decimal(*pid as nat) + "); see "@ + log@,
            self matches BootstrapError::Timeout { pid, timeout_secs, timeout_nanos, log } ==> r@
                == "the RelayCore daemon (pid "@ + text::decimal(*pid as nat) + ") did not become ready within "@
                + text::decimal(*timeout_secs as nat) + "s; see "@ + log@,
    {
        match self {
            BootstrapError::HostBinaryNotFound => text::copy(
                "cannot find the RelayCore CLI binary to start a daemon: looked next to this executable and on PATH (install @relay-core/cli and run `relay-core`)",
            ),
            BootstrapError::Spawn(m) => text::concat2("failed to start the RelayCore daemon: ", m.as_str()),
            BootstrapError::ExitedBeforeReady { pid, log } => text::concat4(
                "the RelayCore daemon exited during startup (pid ",
                text::decimal_text(*pid as u64).as_str(),
                "); see ",
                log.as_str(),
            ),
            BootstrapError::Timeout { pid, timeout_secs, timeout_nanos: _, log } => {
                let mut r = text::concat4(
                    "the RelayCore daemon (pid ",
                    text::decimal_text(*pid as u64).as_str(),
                    ") did not become ready within ",
                    text::decimal_text(*timeout_secs).as_str(),
                );
                r.append("s; see ");
                r.append(log.as_str());
                r
            },
        }
    }
}

/// What to run to obtain a daemon.
#[derive(Clone, Debug)]
pub struct SpawnRequest {
    pub program: String,
    /// Arguments after the program name.
    pub args: Vec<String>,
    /// Where the output of the detached child goes. It is appended to, never truncated.
    pub log_file: String,
}

/// The file name of a program.
pub open spec fn file_name(name: Seq<char>, windows: bool) -> Seq<char> {
    if windows {
        name + ".exe"@
    } else {
        name
    }
}

/// The file name of a program, on Windows or elsewhere.
pub fn executable_name(name: &str, windows: bool) -> (r: String)
    ensures
        r@ == file_name(name@, windows),
        windows ==> r@ == name@ + ".exe"@,
        !windows ==> r@ == name@,
{
    if windows {
        text::concat2(name, ".exe")
    } else {
        text::copy(name)
    }
}

/// The places where the host binary may be.
pub open spec fn candidates(own_dir: Option<Seq<char>>, path: Seq<Seq<char>>, windows: bool) -> Seq<Seq<char>> {
    let name = file_name(HOST_BINARY_NAME@, windows);
    let on_path = path.map_values(|dir: Seq<char>| control::path_in(dir, name, windows));
    match own_dir {
        Some(dir) => seq![control::path_in(dir, name, windows)] + on_path,
        None => on_path,
    }
}

/// The places where the host binary may be, in the order in which they are tried: next to this
/// executable first, then along the search path.
pub fn host_binary_candidates(own_dir: Option<&str>, path: &Vec<String>, windows: bool) -> (r: Vec<String>)
    ensures
        text::texts(r@) == candidates(text::str_opt(own_dir), text::texts(path@), windows),
        own_dir is None ==> r@.len() == path@.len(),
        own_dir is Some ==> r@.len() == path@.len() + 1,
        own_dir matches Some(dir) ==> r@[0]@ == control::path_in(
            dir@,
            if windows {
                "relay-core-cli"@ + ".exe"@
            } else {
                "relay-core-cli"@
            },
            windows,
        ),
        forall|i: int|
            0 <= i < path@.len() ==> (#[trigger] r@[i + r@.len() - path@.len()])@ == control::path_in(
                path@[i]@,
                if windows {
                    "relay-core-cli"@ + ".exe"@
                } else {
                    "relay-core-cli"@
                },
                windows,
            ),
{
    let name = executable_name(HOST_BINARY_NAME, windows);
    let ghost expected = candidates(text::str_opt(own_dir), text::texts(path@), windows);
    let mut out: Vec<String> = Vec::new();
    match own_dir {
        Some(dir) => {
            out.push(control::join_path(dir, name.as_str(), windows));
        },
        None => {},
    }
    let ghost skip: int = out@.len() as int;
    let mut i: usize = 0;
    assert(text::texts(out@) =~= expected.subrange(0, skip));
    while i < path.len()
        invariant
            i <= path@.len(),
            name@ == file_name(HOST_BINARY_NAME@, windows),
            expected == candidates(text::str_opt(own_dir), text::texts(path@), windows),
            skip == (if own_dir is Some {
                1int
            } else {
                0int
            }),
            out@.len() == skip + i,
            text::texts(out@) == expected.subrange(0, skip + i),
        decreases path.len() - i,
    {
        let ghost before = text::texts(out@);
        out.push(control::join_path(path[i].as_str(), name.as_str(), windows));
        proof {
            assert(expected[skip + i] == control::path_in(text::texts(path@)[i as int], name@, windows));
            assert(text::texts(out@) =~= before.push(out@.last()@));
            assert(expected.subrange(0, skip + i + 1) =~= expected.subrange(0, skip + i).push(expected[skip + i]));
        }
        i = i + 1;
    }
    assert(expected.subrange(0, skip + i) =~= expected);
    proof {
        law_hosts_are_sought_beside_and_on_the_path(text::str_opt(own_dir), text::texts(path@), windows);
        assert forall|j: int| 0 <= j < out@.len() implies (#[trigger] out@[j])@ == expected[j] by {
            assert(text::texts(out@)[j] == expected[j]);
        }
        assert forall|j: int| 0 <= j < path@.len() implies expected[#[trigger] (j + skip)] == control::path_in(
            path@[j]@,
            file_name("relay-core-cli"@, windows),
            windows,
        ) by {
            assert(text::texts(path@)[j] == path@[j]@);
        }
    }
    out
}

/// A failure of the system while a daemon was started.
pub fn io_err(error: String) -> (r: BootstrapError)
    ensures
        r == BootstrapError::Spawn(error),
{
    BootstrapError::Spawn(error)
}

/// What a look at a starting daemon leads to.
#[derive(Clone, Debug)]
pub enum ReadyStep {
    /// The daemon answers.
    Attach,
    /// Look again after so many milliseconds.
    Wait(u64),
    Failed(BootstrapError),
}

/// What a look at a starting daemon leads to. A child that died is told at once, rather than after
/// the time is up.
pub fn poll_ready(
    expired: bool,
    running: bool,
    alive: bool,
    pid: u32,
    log_file: &str,
    timeout_secs: u64,
    timeout_nanos: u32,
) -> (r: ReadyStep)
    ensures
        if expired {
            r matches ReadyStep::Failed(
                BootstrapError::Timeout { pid: p, timeout_secs: secs, timeout_nanos: nanos, log },
            ) && p == pid && secs == timeout_secs && nanos == timeout_nanos && log@ == log_file@
        } else if running {
            r is Attach
        } else if !alive {
            r matches ReadyStep::Failed(BootstrapError::ExitedBeforeReady { pid: p, log }) && p == pid && log@
                == log_file@
        } else {
            r == ReadyStep::Wait(POLL_INTERVAL_MS)
        },
        r matches ReadyStep::Wait(ms) ==> ms == 50,
{
    if expired {
        return ReadyStep::Failed(BootstrapError::Timeout { pid, timeout_secs, timeout_nanos, log: text::copy(log_file) });
    }
    if running {
        return ReadyStep::Attach;
    }
    if !alive {
        return ReadyStep::Failed(BootstrapError::ExitedBeforeReady { pid, log: text::copy(log_file) });
    }
    ReadyStep::Wait(POLL_INTERVAL_MS)
}

/// The host binary is sought next to this executable first, then in each directory of the search
/// path in turn, under one name.
pub proof fn law_hosts_are_sought_beside_and_on_the_path(own_dir: Option<Seq<char>>, path: Seq<Seq<char>>, windows: bool)
    ensures
        ({
            let list = candidates(own_dir, path, windows);
            let name = if windows {
                "relay-core-cli"@ + ".exe"@
            } else {
                "relay-core-cli"@
            };
            let skip = list.len() - path.len();
            &&& own_dir is None ==> skip == 0
            &&& own_dir matches Some(dir) ==> skip == 1 && list[0] == control::path_in(dir, name, windows)
            &&& forall|i: int|
                0 <= i < path.len() ==> list[#[trigger] (i + skip)] == control::path_in(path[i], name, windows)
        }),
{
}

} // verus!
