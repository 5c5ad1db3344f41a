//! The daemon registry: how a client finds the one daemon that owns a data directory, and how that
//! daemon claims the directory.
use vstd::prelude::*;
use vstd::string::*;

use crate::control;
use crate::text;

verus! {

/// The version of the control protocol. A client refuses to drive a daemon that reports another.
pub const CONTROL_API_VERSION: &'static str = "1";

pub const MANIFEST_FILE_NAME: &'static str = "daemon.json";

pub const LOCK_FILE_NAME: &'static str = "daemon.lock";

/// Everything a client needs to reach the daemon that owns the engine.
#[derive(Clone, Debug, PartialEq, Eq)]
pub struct DaemonManifest {
    pub pid: u32,
    /// The control protocol the daemon speaks.
    pub api_version: String,
    /// The version of the engine, for diagnostics only.
    pub engine_version: String,
    /// The loopback port that serves the control API.
    pub api_port: u16,
    /// The loopback port of the running proxy, when one is running.
    pub proxy_port: Option<u16>,
    /// The loopback port that serves the MCP endpoint, when enabled.
    pub mcp_port: Option<u16>,
    /// Whether the daemon serves the Web UI on its control API port.
    pub serve_webui: bool,
    /// The bearer token the control API asks for.
    pub token: Option<String>,
    pub started_at_ms: u64,
    /// The data directory this daemon owns.
    pub data_dir: String,
}

/// The base URL of the control API on a port.
pub open spec fn base_url_at(port: u16) -> Seq<char> {
    "http://127.0.0.1:"@ + text::decimal(port as nat)
}

impl DaemonManifest {
    /// The base URL of the control API.
    pub fn control_base_url(&self) -> (r: String)
        ensures
            r@ == base_url_at(self.api_port),
            r@ == "http://127.0.0.1:"@ + text::decimal(self.api_port as nat),
    {
        text::concat2("http://127.0.0.1:", text::decimal_text(self.api_port as u64).as_str())
    }

    /// The URL to open in a browser, where this daemon serves a Web UI. The token stands in the
    /// fragment, which a browser never sends to a server.
    pub fn webui_url(&self) -> (r: Option<String>)
        ensures
            text::text_opt(r) == (if !self.serve_webui {
                None
            } else {
                Some(
                    base_url_at(self.api_port) + match self.token {
                        Some(token) => "/#token="@ + token@,
                        None => "/"@,
                    },
                )
            }),
            r is Some <==> self.serve_webui,
            r matches Some(u) ==> (self.token matches Some(token) ==> u@ == "http://127.0.0.1:"@ + text::decimal(
                self.api_port as nat,
            ) + ("/#token="@ + token@)),
            r matches Some(u) ==> (self.token is None ==> u@ == "http://127.0.0.1:"@ + text::decimal(
                self.api_port as nat,
            ) + "/"@),
    {
        if !self.serve_webui {
            return None;
        }
        let base = self.control_base_url();
        match &self.token {
            Some(token) => {
                let r = text::concat3(base.as_str(), "/#token=", token.as_str());
                assert(r@ =~= base_url_at(self.api_port) + ("/#token="@ + token@));
                Some(r)
            },
            None => Some(text::concat2(base.as_str(), "/")),
        }
    }
}

/// What looking for a daemon in a data directory finds. `Absent` and `Stale` both mean that one may
/// be started; `Incompatible` means that something runs and must not be driven.
#[derive(Clone, Debug, PartialEq, Eq)]
pub enum Discovery {
    Absent,
    Stale,
    Incompatible { found: String, expected: String },
    Running(DaemonManifest),
}

/// Where a data directory keeps its manifest, on Windows or elsewhere.
pub fn manifest_path(data_dir: &str, windows: bool) -> (r: String)
    ensures
        r@ == control::path_in(data_dir@, MANIFEST_FILE_NAME@, windows),
        r@ == control::path_in(data_dir@, "daemon.json"@, windows),
{
    control::join_path(data_dir, MANIFEST_FILE_NAME, windows)
}

/// Where a data directory keeps its lock, on Windows or elsewhere.
pub fn daemon_lock_path(data_dir: &str, windows: bool) -> (r: String)
    ensures
        r@ == control::path_in(data_dir@, LOCK_FILE_NAME@, windows),
        r@ == control::path_in(data_dir@, "daemon.lock"@, windows),
{
    control::join_path(data_dir, LOCK_FILE_NAME, windows)
}

/// Where a manifest is written before it takes its place, on Windows or elsewhere.
pub fn temporary_manifest_path(data_dir: &str, pid: u32, windows: bool) -> (r: String)
    ensures
        r@ == control::path_in(
            data_dir@,
            MANIFEST_FILE_NAME@ + "."@ + text::decimal(pid as nat) + ".tmp"@,
            windows,
        ),
        r@ == control::path_in(
            data_dir@,
            "daemon.json"@ + "."@ + text::decimal(pid as nat) + ".tmp"@,
            windows,
        ),
{
    let name = text::concat4(MANIFEST_FILE_NAME, ".", text::decimal_text(pid as u64).as_str(), ".tmp");
    control::join_path(data_dir, name.as_str(), windows)
}

/// What a data directory was found to hold.
#[derive(Clone, Debug)]
pub enum ManifestFile {
    Missing,
    /// A torn or edited manifest, which carries no authority.
    Unreadable,
    /// A manifest, and whether its process lives.
    Read { manifest: DaemonManifest, alive: bool },
}

/// Whether a manifest that was found is to be removed: one without a live process is.
pub open spec fn removes(file: ManifestFile) -> bool {
    match file {
        ManifestFile::Missing => false,
        ManifestFile::Unreadable => true,
        ManifestFile::Read { alive, .. } => !alive,
    }
}

/// What a manifest says of the daemon. Compatibility is judged after liveness: an incompatible
/// manifest of a live process is that process's only record of itself.
pub open spec fn found(file: ManifestFile, d: Discovery) -> bool {
    match file {
        ManifestFile::Missing => d is Absent,
        ManifestFile::Unreadable => d is Stale,
        ManifestFile::Read { manifest, alive } => if !alive {
            d is Stale
        } else if manifest.api_version@ != CONTROL_API_VERSION@ {
            d matches Discovery::Incompatible { found, expected } && found@ == manifest.api_version@ && expected@
                == CONTROL_API_VERSION@
        } else {
            d == Discovery::Running(manifest)
        },
    }
}

/// Find the daemon that owns a data directory from what the directory holds, and tell whether the
/// manifest is to be removed.
pub fn discover(file: ManifestFile) -> (r: (Discovery, bool))
    ensures
        found(file, r.0),
        r.1 == removes(file),
        file is Missing ==> r.0 is Absent && !r.1,
        file is Unreadable ==> r.0 is Stale && r.1,
        file matches ManifestFile::Read { manifest, alive } ==> {
            &&& !alive ==> r.0 is Stale && r.1
            &&& alive && manifest.api_version@ == "1"@ ==> r.0 == Discovery::Running(manifest) && !r.1
            &&& alive && manifest.api_version@ != "1"@ ==> !r.1 && (r.0 matches Discovery::Incompatible {
                found,
                expected,
            } && found@ == manifest.api_version@ && expected@ == "1"@)
        },
{
    match file {
        ManifestFile::Missing => (Discovery::Absent, false),
        ManifestFile::Unreadable => (Discovery::Stale, true),
        ManifestFile::Read { manifest, alive } => {
            if !alive {
                return (Discovery::Stale, true);
            }
            if !text::same_text(manifest.api_version.as_str(), CONTROL_API_VERSION) {
                return (
                    Discovery::Incompatible {
                        found: manifest.api_version,
                        expected: text::copy(CONTROL_API_VERSION),
                    },
                    false,
                );
            }
            (Discovery::Running(manifest), false)
        },
    }
}

/// A live daemon never loses its manifest, whatever protocol it speaks, and only a live daemon that
/// speaks this one is reported as running.
pub proof fn law_live_daemons_keep_their_manifest(manifest: DaemonManifest, alive: bool, d: Discovery)
    requires
        found(ManifestFile::Read { manifest, alive }, d),
    ensures
        alive ==> !removes(ManifestFile::Read { manifest, alive }) && d !is Absent && d !is Stale,
        d is Running <==> alive && manifest.api_version@ == CONTROL_API_VERSION@,
{
}

/// The process to send the empty signal to, where the number names one at all.
pub fn signal_target(pid: u32) -> (r: Option<i32>)
    ensures
        r == (if 0 < pid <= 0x7fff_ffff {
            Some(pid as i32)
        } else {
            None
        }),
{
    if pid == 0 || pid > 0x7fff_ffff {
        None
    } else {
        Some(pid as i32)
    }
}

/// The error number for a process of another user.
pub const EPERM: i32 = 1;

/// What asking for a process gave.
#[derive(Clone, Copy, Debug, PartialEq, Eq, Structural)]
pub enum ProcessProbe {
    /// Processes cannot be asked for here.
    Unsupported,
    /// The process took the empty signal.
    Taken,
    /// The empty signal was refused, with this error number where there is one.
    Refused(Option<i32>),
}

/// Whether a process lives. It took the empty signal, or is another user's; where processes cannot
/// be asked for, every one is taken for a live one.
pub open spec fn lives(pid: u32, probe: ProcessProbe) -> bool {
    match probe {
        ProcessProbe::Unsupported => true,
        ProcessProbe::Taken => 0 < pid <= 0x7fff_ffff,
        ProcessProbe::Refused(errno) => 0 < pid <= 0x7fff_ffff && errno == Some(EPERM),
    }
}

/// Whether a process lives, from what asking for it gave.
pub fn process_alive(pid: u32, probe: ProcessProbe) -> (r: bool)
    ensures
        r == lives(pid, probe),
        probe is Unsupported ==> r,
        probe is Taken ==> r == (0 < pid <= 0x7fff_ffff),
        probe matches ProcessProbe::Refused(errno) ==> r == (0 < pid <= 0x7fff_ffff && errno == Some(1i32)),
{
    match probe {
        ProcessProbe::Unsupported => true,
        ProcessProbe::Taken => signal_target(pid).is_some(),
        ProcessProbe::Refused(errno) => match errno {
            Some(e) => e == EPERM && signal_target(pid).is_some(),
            None => false,
        },
    }
}

/// Why a data directory could not be claimed.
#[derive(Clone, Debug, PartialEq, Eq)]
pub enum LockError {
    /// Another live process owns the data directory; 0 where its number is not known.
    AlreadyRunning { pid: u32 },
    Io(String),
}

/// How a failed claim reads.
pub open spec fn lock_error_text(e: LockError) -> Seq<char> {
    match e {
        LockError::AlreadyRunning { pid } => if pid == 0 {
            "another RelayCore daemon already owns this data directory"@
        } else {
            "another RelayCore daemon (pid "@ + text::decimal(pid as nat) + ") already owns this data directory"@
        },
        LockError::Io(m) => "daemon lock error: "@ + m@,
    }
}

impl LockError {
    /// How the error reads.
    pub fn message(&self) -> (r: String)
        ensures
            r@ == lock_error_text(*self),
            self matches LockError::AlreadyRunning { pid } ==> (*pid == 0 ==> r@
                == "another RelayCore daemon already owns this data directory"@) && (*pid != 0 ==> r@
                == "another RelayCore daemon (pid "@ + text::decimal(*pid as nat)
                + ") already owns this data directory"@),
            self matches LockError::Io(m) ==> r@ == "daemon lock error: "@ + m@,
    {
        match self {
            LockError::AlreadyRunning { pid } => if *pid == 0 {
                text::copy("another RelayCore daemon already owns this data directory")
            } else {
                text::concat3(
                    "another RelayCore daemon (pid ",
                    text::decimal_text(*pid as u64).as_str(),
                    ") already owns this data directory",
                )
            },
            LockError::Io(m) => text::concat2("daemon lock error: ", m.as_str()),
        }
    }
}

/// What trying to lock the lock file gave.
#[derive(Clone, Debug)]
pub enum LockAttempt {
    Locked,
    /// Another process holds the lock; this is what its file says, where it can be read.
    Held { content: Option<String> },
    Failed { path: String, error: String },
}

/// The process number in a lock file.
pub open spec fn pid_in(content: Seq<char>) -> Option<nat> {
    text::unsigned(text::trimmed(content), 0xffff_ffff)
}

/// The process number in a lock file.
pub fn read_lock_pid(content: &str) -> (r: Option<u32>)
    ensures
        match r {
            Some(pid) => pid_in(content@) == Some(pid as nat),
            None => pid_in(content@) is None,
        },
        r matches Some(pid) ==> text::unsigned(text::trimmed(content@), 0xffff_ffff) == Some(pid as nat),
        r is None ==> text::unsigned(text::trimmed(content@), 0xffff_ffff) is None,
{
    let trimmed = text::trim(content);
    match text::parse_unsigned(trimmed.as_str(), 0xffff_ffff) {
        Some(n) => Some(n as u32),
        None => None,
    }
}

/// What a daemon writes into its lock file.
pub fn lock_content(pid: u32) -> (r: String)
    ensures
        r@ == text::decimal(pid as nat),
{
    text::decimal_text(pid as u64)
}

/// The outcome of a claim: the lock decides, and the number in the file only helps the message.
pub open spec fn claimed(attempt: LockAttempt, r: Result<(), LockError>) -> bool {
    match attempt {
        LockAttempt::Locked => r is Ok,
        LockAttempt::Held { content } => r matches Err(LockError::AlreadyRunning { pid }) && pid as nat
            == match content {
            Some(s) => match pid_in(s@) {
                Some(n) => n,
                None => 0,
            },
            None => 0,
        },
        LockAttempt::Failed { path, error } => r matches Err(LockError::Io(m)) && m@ == "locking "@ + path@ + ": "@
            + error@,
    }
}

/// Judge a claim.
pub fn judge_lock(attempt: LockAttempt) -> (r: Result<(), LockError>)
    ensures
        claimed(attempt, r),
        r is Ok <==> attempt is Locked,
        attempt is Held ==> (r matches Err(LockError::AlreadyRunning { pid }) && (attempt->content is None ==> pid == 0)
            && (attempt->content matches Some(s) ==> (text::unsigned(text::trimmed(s@), 0xffff_ffff) matches Some(n)
            ==> pid == n))),
        attempt matches LockAttempt::Failed { path, error } ==> (r matches Err(LockError::Io(m)) && m@ == "locking "@
            + path@ + ": "@ + error@),
{
    match attempt {
        LockAttempt::Locked => Ok(()),
        LockAttempt::Held { content } => {
            let pid: u32 = match &content {
                Some(s) => match read_lock_pid(s.as_str()) {
                    Some(n) => n,
                    None => 0,
                },
                None => 0,
            };
            Err(LockError::AlreadyRunning { pid })
        },
        LockAttempt::Failed { path, error } => Err(
            LockError::Io(text::concat4("locking ", path.as_str(), ": ", error.as_str())),
        ),
    }
}

/// Whether a daemon that lets go removes its lock file: only where the file still names it.
pub fn removes_lock_file(content: &Option<String>, pid: u32) -> (r: bool)
    ensures
        r == match *content {
            Some(s) => pid_in(s@) == Some(pid as nat),
            None => false,
        },
{
    match content {
        Some(s) => match read_lock_pid(s.as_str()) {
            Some(n) => n == pid,
            None => false,
        },
        None => false,
    }
}

/// A lock file names the daemon that wrote it.
pub proof fn law_lock_files_name_their_writer(pid: u32)
    ensures
        pid_in(text::decimal(pid as nat)) == Some(pid as nat),
{
    text::lemma_decimal_reads_back(pid as nat, 0xffff_ffff);
}

/// Only the lock decides who owns a data directory: a daemon that has it owns the directory, whatever
/// its file says, and one that does not have it is told who does.
pub proof fn law_the_lock_decides(attempt: LockAttempt, r: Result<(), LockError>, pid: u32)
    requires
        claimed(attempt, r),
    ensures
        r is Ok <==> attempt is Locked,
        attempt matches LockAttempt::Held { content } ==> (content matches Some(s) ==> (s@ == text::decimal(pid as nat)
            ==> r == Err::<(), LockError>(LockError::AlreadyRunning { pid }))),
{
    text::lemma_decimal_reads_back(pid as nat, 0xffff_ffff);
}

} // verus!
