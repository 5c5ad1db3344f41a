//! Starting and stopping the proxy, and the daemon, over the API.
use vstd::prelude::*;
use vstd::string::*;

use crate::control::client::ApiVersionInfo;
use crate::control::manifest::CONTROL_API_VERSION;
use crate::headers;
use crate::text;

verus! {

/// Why the proxy could not be started or stopped.
#[derive(Clone, Copy, Debug, PartialEq, Eq, Structural)]
pub enum ProxyControlErrorCode {
    InvalidConfig,
    StartFailed,
    StartTimeout,
    StopFailed,
    StopTimeout,
}

/// The status that reports a failed start or stop. A failed start is a conflict: the request is
/// well-formed, but the machine is in a state that forbids it.
pub open spec fn status_of(code: ProxyControlErrorCode) -> u16 {
    match code {
        ProxyControlErrorCode::InvalidConfig => 400,
        ProxyControlErrorCode::StartFailed => 409,
        ProxyControlErrorCode::StartTimeout => 504,
        ProxyControlErrorCode::StopTimeout => 504,
        ProxyControlErrorCode::StopFailed => 500,
    }
}

/// The status that reports a failed start or stop.
pub fn status_for(code: ProxyControlErrorCode) -> (r: u16)
    ensures
        r == status_of(code),
        code is InvalidConfig ==> r == 400,
        code is StartFailed ==> r == 409,
        code is StartTimeout || code is StopTimeout ==> r == 504,
        code is StopFailed ==> r == 500,
{
    match code {
        ProxyControlErrorCode::InvalidConfig => 400,
        ProxyControlErrorCode::StartFailed => 409,
        ProxyControlErrorCode::StartTimeout => 504,
        ProxyControlErrorCode::StopTimeout => 504,
        ProxyControlErrorCode::StopFailed => 500,
    }
}

/// A failure with a stable code that a caller can branch on.
#[derive(Clone, Debug)]
pub struct CodedFailure {
    pub status: u16,
    pub code: String,
    pub message: String,
}

/// The failure of a host that owns no proxy lifecycle.
pub fn proxy_control_unavailable() -> (r: CodedFailure)
    ensures
        r.status == 503,
        r.code@ == "proxy_control_unavailable"@,
        r.message@ == "this host does not expose proxy lifecycle control"@,
{
    CodedFailure {
        status: 503,
        code: text::copy("proxy_control_unavailable"),
        message: text::copy("this host does not expose proxy lifecycle control"),
    }
}

/// The failure of a host that takes no shutdown requests.
pub fn shutdown_unavailable() -> (r: CodedFailure)
    ensures
        r.status == 503,
        r.code@ == "shutdown_unavailable"@,
        r.message@ == "this host does not accept shutdown requests"@,
{
    CodedFailure {
        status: 503,
        code: text::copy("shutdown_unavailable"),
        message: text::copy("this host does not accept shutdown requests"),
    }
}

/// What came of a start.
#[derive(Clone, Copy, Debug, PartialEq, Eq, Structural)]
pub enum ProxyStartOutcome {
    Started { port: u16 },
    AlreadyRunning { port: u16 },
}

/// The status that reports a start: created only where this call is what started the proxy.
pub fn start_status(outcome: ProxyStartOutcome) -> (r: u16)
    ensures
        r == match outcome {
            ProxyStartOutcome::Started { .. } => 201u16,
            ProxyStartOutcome::AlreadyRunning { .. } => 200u16,
        },
{
    match outcome {
        ProxyStartOutcome::Started { .. } => 201,
        ProxyStartOutcome::AlreadyRunning { .. } => 200,
    }
}

/// What came of a stop.
#[derive(Clone, Copy, Debug, PartialEq, Eq, Structural)]
pub enum ProxyStopOutcome {
    Stopped,
    AlreadyStopped,
}

/// How the outcome of a stop is written.
pub fn stop_text(outcome: ProxyStopOutcome) -> (r: &'static str)
    ensures
        r@ == match outcome {
            ProxyStopOutcome::Stopped => "stopped"@,
            ProxyStopOutcome::AlreadyStopped => "already_stopped"@,
        },
{
    match outcome {
        ProxyStopOutcome::Stopped => "stopped",
        ProxyStopOutcome::AlreadyStopped => "already_stopped",
    }
}

/// The header a client may describe itself with; it is recorded and never trusted.
pub const CLIENT_HEADER: &'static str = "x-relay-client";

/// What a client calls itself, from the text of its header.
pub open spec fn label_of(value: Option<Seq<char>>) -> Option<Seq<char>> {
    match value {
        Some(v) => if text::trimmed(v).len() > 0 {
            Some(text::trimmed(v))
        } else {
            None
        },
        None => None,
    }
}

/// What the client of a request calls itself.
pub fn requester_label(m: &hyper::HeaderMap) -> (r: Option<String>)
    ensures
        text::text_opt(r) == label_of(
            headers::value_text_opt(headers::first_value(headers::header_entries(*m), CLIENT_HEADER@)),
        ),
        headers::value_text_opt(headers::first_value(headers::header_entries(*m), "x-relay-client"@)) is None ==> r is None,
        headers::value_text_opt(
            headers::first_value(headers::header_entries(*m), "x-relay-client"@),
        ) matches Some(v) ==> (if text::trimmed(v).len() > 0 {
            r matches Some(label) && label@ == text::trimmed(v)
        } else {
            r is None
        }),
{
    proof {
        reveal_strlit("x-relay-client");
        assert(text::lower(CLIENT_HEADER@) =~= CLIENT_HEADER@);
    }
    match headers::get_text(m, CLIENT_HEADER) {
        Some(v) => {
            let trimmed = text::trim(v.as_str());
            if text::chars_of(trimmed.as_str()).len() > 0 {
                Some(trimmed)
            } else {
                None
            }
        },
        None => None,
    }
}

/// What the API can do.
pub open spec fn capabilities() -> Seq<Seq<char>> {
    seq!["flows"@, "rules"@, "intercepts"@, "mock"@, "metrics"@, "status"@, "events"@]
}

/// What a daemon says of its versions. Its own clients speak the protocol it reports.
pub fn version_info(engine_version: &str) -> (r: ApiVersionInfo)
    ensures
        r.engine_version@ == engine_version@,
        r.api_version@ == CONTROL_API_VERSION@,
        text::texts(r.capabilities@) == capabilities(),
        r.api_version@ == "1"@,
        text::texts(r.capabilities@) == seq![
            "flows"@,
            "rules"@,
            "intercepts"@,
            "mock"@,
            "metrics"@,
            "status"@,
            "events"@,
        ],
{
    let list: Vec<String> = vec![
        text::copy("flows"),
        text::copy("rules"),
        text::copy("intercepts"),
        text::copy("mock"),
        text::copy("metrics"),
        text::copy("status"),
        text::copy("events"),
    ];
    assert(text::texts(list@) =~= capabilities());
    ApiVersionInfo {
        engine_version: text::copy(engine_version),
        api_version: text::copy(CONTROL_API_VERSION),
        capabilities: list,
    }
}

/// A wrong configuration is the client's fault, a failed start a conflict, a timeout the gateway's
/// and a failed stop the server's.
pub proof fn law_failures_have_their_status(code: ProxyControlErrorCode)
    ensures
        400 <= status_of(code) < 500 <==> code is InvalidConfig || code is StartFailed,
        code is InvalidConfig ==> status_of(code) == 400,
        code is StartFailed ==> status_of(code) == 409,
        code is StartTimeout || code is StopTimeout ==> status_of(code) == 504,
        code is StopFailed ==> status_of(code) == 500,
{
}

} // verus!
