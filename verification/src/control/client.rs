//! The client half of the control plane: how the daemon is driven over its API.
use vstd::prelude::*;
use vstd::string::*;

use crate::control::manifest;
use crate::control::manifest::{DaemonManifest, Discovery, CONTROL_API_VERSION};
use crate::flow;
use crate::text;

verus! {

/// How long a control call may take, in milliseconds: long enough for a proxy start.
pub const DEFAULT_TIMEOUT_MS: u64 = 30000;

/// How long a health check may take, in milliseconds.
pub const HEALTH_TIMEOUT_MS: u64 = 800;

/// What a daemon says of its versions.
#[derive(Clone, Debug, PartialEq, Eq)]
pub struct ApiVersionInfo {
    pub engine_version: String,
    pub api_version: String,
    pub capabilities: Vec<String>,
}

/// Why a control call failed.
#[derive(Clone, Debug)]
pub enum ControlClientError {
    /// Nothing is listening: no daemon, or it died.
    Unreachable { url: String, detail: String },
    /// The daemon answered and refused, with a machine-readable reason.
    Rejected { status: u16, code: String, message: String },
    /// The daemon answered with something this client does not understand.
    Protocol(String),
}

/// How a failed control call reads.
pub open spec fn error_text(e: ControlClientError) -> Seq<char> {
    match e {
        ControlClientError::Unreachable { url, detail } => "no RelayCore daemon is answering at "@ + url@ + " ("@
            + detail@ + ")"@,
        ControlClientError::Rejected { code, message, .. } => code@ + ": "@ + message@,
        ControlClientError::Protocol(m) => "unexpected response from the daemon: "@ + m@,
    }
}

impl ControlClientError {
    /// A stable code that a caller can branch on.
    pub fn code(&self) -> (r: &str)
        ensures
            r@ == match *self {
                ControlClientError::Unreachable { .. } => "daemon_unreachable"@,
                ControlClientError::Rejected { code, .. } => code@,
                ControlClientError::Protocol(_) => "daemon_protocol_error"@,
            },
    {
        match self {
            ControlClientError::Unreachable { .. } => "daemon_unreachable",
            ControlClientError::Rejected { code, .. } => code.as_str(),
            ControlClientError::Protocol(_) => "daemon_protocol_error",
        }
    }

    /// How the error reads.
    pub fn message(&self) -> (r: String)
        ensures
            r@ == error_text(*self),
            self matches ControlClientError::Unreachable { url, detail } ==> r@
                == "no RelayCore daemon is answering at "@ + url@ + " ("@ + detail@ + ")"@,
            self matches ControlClientError::Rejected { status, code, message } ==> r@ == code@ + ": "@ + message@,
            self matches ControlClientError::Protocol(m) ==> r@ == "unexpected response from the daemon: "@ + m@,
    {
        match self {
            ControlClientError::Unreachable { url, detail } => {
                let mut r = text::concat4(
                    "no RelayCore daemon is answering at ",
                    url.as_str(),
                    " (",
                    detail.as_str(),
                );
                r.append(")");
                r
            },
            ControlClientError::Rejected { code, message, .. } => text::concat3(
                code.as_str(),
                ": ",
                message.as_str(),
            ),
            ControlClientError::Protocol(m) => text::concat2("unexpected response from the daemon: ", m.as_str()),
        }
    }
}

/// How a client reaches a daemon and what it says of itself.
#[derive(Clone, Debug)]
pub struct ControlClient {
    pub base_url: String,
    pub token: Option<String>,
    /// What to call this client in the daemon's audit trail.
    pub label: Option<String>,
}

/// A text without the slashes it ends with.
pub open spec fn without_slashes(s: Seq<char>) -> Seq<char>
    decreases s.len(),
{
    if s.len() > 0 && s.last() == '/' {
        without_slashes(s.drop_last())
    } else {
        s
    }
}

fn trim_slashes(s: &str) -> (r: String)
    ensures
        r@ == without_slashes(s@),
{
    let chars = text::chars_of(s);
    let mut n: usize = chars.len();
    assert(s@.subrange(0, n as int) =~= s@);
    while n > 0 && chars[n - 1] == '/'
        invariant
            n <= chars@.len(),
            chars@ == s@,
            without_slashes(s@.subrange(0, n as int)) == without_slashes(s@),
        decreases n,
    {
        assert(s@.subrange(0, n as int).drop_last() =~= s@.subrange(0, n - 1));
        n = n - 1;
    }
    text::string_of_range(chars.as_slice(), 0, n)
}

/// The fields a client sends with a call: its token, and what it calls itself.
pub open spec fn call_fields(token: Option<Seq<char>>, label: Option<Seq<char>>) -> Seq<(Seq<char>, Seq<char>)> {
    let first = match token {
        Some(t) => seq![("authorization"@, "Bearer "@ + t)],
        None => Seq::empty(),
    };
    match label {
        Some(l) => first.push(("x-relay-client"@, l)),
        None => first,
    }
}

impl ControlClient {
    /// A client for the API at a base URL.
    pub fn new(base_url: &str, token: Option<String>) -> (r: Self)
        ensures
            r.base_url@ == without_slashes(base_url@),
            r.token == token,
            r.label is None,
            r.base_url@.len() <= base_url@.len(),
            r.base_url@ == base_url@.subrange(0, r.base_url@.len() as int),
            r.base_url@.len() > 0 ==> r.base_url@.last() != '/',
            forall|i: int| r.base_url@.len() <= i < base_url@.len() ==> base_url@[i] == '/',
    {
        proof {
            law_only_slashes_at_the_end_are_cut(base_url@);
        }
        ControlClient { base_url: trim_slashes(base_url), token, label: None }
    }

    /// Describe this client to the daemon, for the audit trail. It is never used for authorization.
    pub fn identifying_as(self, label: String) -> (r: Self)
        ensures
            r == (ControlClient { label: Some(label), ..self }),
    {
        ControlClient { label: Some(label), base_url: self.base_url, token: self.token }
    }

    /// A client for the daemon a manifest describes.
    pub fn from_manifest(manifest: &DaemonManifest) -> (r: Self)
        ensures
            r.base_url@ == manifest::base_url_at(manifest.api_port),
            r.base_url@ == "http://127.0.0.1:"@ + text::decimal(manifest.api_port as nat),
            text::text_opt(r.token) == text::text_opt(manifest.token),
            r.label is None,
    {
        let base = manifest.control_base_url();
        proof {
            text::lemma_decimal_spells(manifest.api_port as nat);
            let digits = text::decimal(manifest.api_port as nat);
            assert(base@.last() == digits[digits.len() - 1]);
        }
        ControlClient::new(base.as_str(), text::copy_opt(&manifest.token))
    }

    /// Where the API is.
    pub fn base_url(&self) -> (r: &str)
        ensures
            r@ == self.base_url@,
    {
        self.base_url.as_str()
    }

    /// The bearer token this client presents, when the daemon requires one.
    pub fn token(&self) -> (r: Option<&str>)
        ensures
            text::str_opt(r) == text::text_opt(self.token),
    {
        match &self.token {
            Some(t) => Some(t.as_str()),
            None => None,
        }
    }

    /// The URL of a call.
    pub fn url(&self, path: &str) -> (r: String)
        ensures
            r@ == self.base_url@ + path@,
    {
        text::concat2(self.base_url.as_str(), path)
    }

    /// The fields to send with a call.
    pub fn authorize(&self) -> (r: Vec<(String, String)>)
        ensures
            flow::pairs(r@) == call_fields(text::text_opt(self.token), text::text_opt(self.label)),
            self.token matches Some(t) ==> r@.len() > 0 && r@[0].0@ == "authorization"@ && r@[0].1@ == "Bearer "@ + t@,
            self.label matches Some(l) ==> r@.len() > 0 && r@.last().0@ == "x-relay-client"@ && r@.last().1@ == l@,
            r@.len() == (if self.token is Some {
                1int
            } else {
                0int
            }) + (if self.label is Some {
                1int
            } else {
                0int
            }),
    {
        let mut out: Vec<(String, String)> = Vec::new();
        match &self.token {
            Some(t) => {
                out.push((text::copy("authorization"), text::concat2("Bearer ", t.as_str())));
            },
            None => {},
        }
        match &self.label {
            Some(l) => {
                out.push((text::copy("x-relay-client"), text::copy(l.as_str())));
            },
            None => {},
        }
        assert(flow::pairs(out@) =~= call_fields(text::text_opt(self.token), text::text_opt(self.label)));
        out
    }

    /// The failure of a call that got no answer.
    pub fn unreachable(&self, path: &str, detail: &str) -> (r: ControlClientError)
        ensures
            r matches ControlClientError::Unreachable { url, detail: d } && url@ == self.base_url@ + path@ && d@
                == detail@,
    {
        ControlClientError::Unreachable { url: self.url(path), detail: text::copy(detail) }
    }
}

/// The path that asks for the last lifecycle changes.
pub fn lifecycle_audit_path(limit: usize) -> (r: String)
    ensures
        r@ == "/api/v1/audit?kind=proxy_lifecycle_changed&limit="@ + text::decimal(limit as nat),
{
    text::concat2(
        "/api/v1/audit?kind=proxy_lifecycle_changed&limit=",
        text::decimal_text(limit as u64).as_str(),
    )
}

/// What a JSON failure body says: the text at `error.code`, the text at `error` and the text at
/// `error.message`.
#[derive(Clone, Debug)]
pub struct ErrorFields {
    pub code: Option<String>,
    pub error: Option<String>,
    pub message: Option<String>,
}

/// What the fields of a failure body hold.
#[verifier::ext_equal]
pub struct ErrorFieldsView {
    pub code: Option<Seq<char>>,
    pub error: Option<Seq<char>>,
    pub message: Option<Seq<char>>,
}

impl View for ErrorFields {
    type V = ErrorFieldsView;

    open spec fn view(&self) -> ErrorFieldsView {
        ErrorFieldsView {
            code: text::text_opt(self.code),
            error: text::text_opt(self.error),
            message: text::text_opt(self.message),
        }
    }
}

/// What optional fields hold.
pub open spec fn fields_opt(f: Option<ErrorFields>) -> Option<ErrorFieldsView> {
    match f {
        Some(x) => Some(x@),
        None => None,
    }
}

/// Whether `serde_json::from_str` reads a text as a JSON value.
pub uninterp spec fn json_value(body: Seq<char>) -> bool;

/// `serde_json::from_str` reads a text as a JSON value, or does not. Nothing but white space is none.
#[verifier::external_body]
pub(crate) fn is_json(body: &str) -> (r: bool)
    ensures
        r == json_value(body@),
        r ==> text::trimmed(body@).len() > 0,
{
    serde_json::from_str::<serde_json::Value>(body).is_ok()
}

/// The text that stands at a JSON pointer of the value a text spells, as `Value::pointer` finds it;
/// none where the text spells no value, nothing stands there, or what stands there is no text.
pub uninterp spec fn json_text_at(body: Seq<char>, pointer: Seq<char>) -> Option<Seq<char>>;

/// `serde_json::Value::pointer` and `as_str` on the value a text spells.
#[verifier::external_body]
pub(crate) fn json_text(body: &str, pointer: &str) -> (r: Option<String>)
    ensures
        text::text_opt(r) == json_text_at(body@, pointer@),
{
    let value: serde_json::Value = serde_json::from_str(body).ok()?;
    value.pointer(pointer).and_then(|v| v.as_str()).map(|s| s.to_string())
}

/// The fields of a failure body that is JSON.
pub open spec fn error_fields_of(body: Seq<char>) -> Option<ErrorFieldsView> {
    if json_value(body) {
        Some(
            ErrorFieldsView {
                code: json_text_at(body, "/error/code"@),
                error: json_text_at(body, "/error"@),
                message: json_text_at(body, "/error/message"@),
            },
        )
    } else {
        None
    }
}

fn read_error_fields(body: &str) -> (r: Option<ErrorFields>)
    ensures
        fields_opt(r) == error_fields_of(body@),
        r is Some ==> text::trimmed(body@).len() > 0,
{
    if !is_json(body) {
        return None;
    }
    Some(
        ErrorFields {
            code: json_text(body, "/error/code"),
            error: json_text(body, "/error"),
            message: json_text(body, "/error/message"),
        },
    )
}

/// The code and message of a failure body with such fields. A rejection is never reported without a
/// message: the body stands in for one.
pub open spec fn refusal(fields: Option<ErrorFieldsView>, body: Seq<char>) -> (Seq<char>, Seq<char>) {
    let trimmed = text::trimmed(body);
    match fields {
        Some(f) => (
            match f.code {
                Some(c) => c,
                None => match f.error {
                    Some(e) => e,
                    None => "request_failed"@,
                },
            },
            match f.message {
                Some(m) => if m.len() > 0 {
                    m
                } else {
                    trimmed
                },
                None => trimmed,
            },
        ),
        None => (
            "request_failed"@,
            if trimmed.len() == 0 {
                "the daemon refused the request without a message"@
            } else {
                trimmed
            },
        ),
    }
}

/// The code and message of a failure body with such fields.
pub fn refusal_from(fields: Option<ErrorFields>, body: &str) -> (r: (String, String))
    ensures
        (r.0@, r.1@) == refusal(fields_opt(fields), body@),
        fields matches Some(f) ==> {
            &&& f.code matches Some(c) ==> r.0@ == c@
            &&& f.code is None ==> (f.error matches Some(e) ==> r.0@ == e@)
            &&& f.code is None && f.error is None ==> r.0@ == "request_failed"@
            &&& f.message matches Some(m) ==> (m@.len() > 0 ==> r.1@ == m@)
            &&& f.message is None || f.message->0@.len() == 0 ==> r.1@ == text::trimmed(body@)
        },
        fields is None ==> r.0@ == "request_failed"@ && (text::trimmed(body@).len() > 0 ==> r.1@ == text::trimmed(body@))
            && (text::trimmed(body@).len() == 0 ==> r.1@ == "the daemon refused the request without a message"@),
{
    let trimmed = text::trim(body);
    match fields {
        Some(f) => {
            let code = match f.code {
                Some(c) => c,
                None => match f.error {
                    Some(e) => e,
                    None => text::copy("request_failed"),
                },
            };
            let message = match f.message {
                Some(m) => if text::chars_of(m.as_str()).len() > 0 {
                    m
                } else {
                    trimmed
                },
                None => trimmed,
            };
            (code, message)
        },
        None => {
            let message = if text::chars_of(trimmed.as_str()).len() == 0 {
                text::copy("the daemon refused the request without a message")
            } else {
                trimmed
            };
            (text::copy("request_failed"), message)
        },
    }
}

/// The code and message of a failure body. The message is never empty.
pub fn parse_error_body(body: &str) -> (r: (String, String))
    ensures
        (r.0@, r.1@) == refusal(error_fields_of(body@), body@),
        r.1@.len() > 0,
{
    proof {
        reveal_strlit("the daemon refused the request without a message");
    }
    refusal_from(read_error_fields(body), body)
}

/// Whether an answer is one of success; a refusal carries the daemon's code and message.
pub fn judge_answer(status: u16, body: &str) -> (r: Result<(), ControlClientError>)
    ensures
        200 <= status < 300 <==> r is Ok,
        r matches Err(e) ==> e matches ControlClientError::Rejected { status: s, code, message } && s == status && (
            code@,
            message@,
        ) == refusal(error_fields_of(body@), body@) && message@.len() > 0,
{
    if 200 <= status && status < 300 {
        return Ok(());
    }
    let (code, message) = parse_error_body(body);
    Err(ControlClientError::Rejected { status, code, message })
}

/// What is running in a data directory.
#[derive(Debug)]
pub enum DaemonStatus {
    /// Nothing to attach to.
    NotRunning,
    /// Something runs that speaks a different control protocol.
    Incompatible { found: String, expected: String },
    /// A live process owns the directory but did not answer; this is why.
    Unresponsive { manifest: DaemonManifest, reason: String },
    Running { manifest: DaemonManifest, client: ControlClient },
}

impl DaemonStatus {
    /// The manifest of the daemon that was found.
    pub fn manifest(&self) -> (r: Option<&DaemonManifest>)
        ensures
            match *self {
                DaemonStatus::Unresponsive { manifest, .. } => r == Some(&manifest),
                DaemonStatus::Running { manifest, .. } => r == Some(&manifest),
                _ => r is None,
            },
    {
        match self {
            DaemonStatus::Unresponsive { manifest, .. } => Some(manifest),
            DaemonStatus::Running { manifest, .. } => Some(manifest),
            _ => None,
        }
    }

    /// Whether there is a daemon to drive.
    pub fn is_running(&self) -> (r: bool)
        ensures
            r == (*self is Running),
    {
        match self {
            DaemonStatus::Running { .. } => true,
            _ => false,
        }
    }
}

/// What comes after looking for a daemon.
#[derive(Debug)]
pub enum ConnectStep {
    Known(DaemonStatus),
    /// Ask the daemon this manifest describes for its version.
    Confirm(DaemonManifest),
}

/// What a discovery leads to. A live process is no proof of a working daemon, so one that was found
/// is asked.
pub fn after_discovery(d: Discovery) -> (r: ConnectStep)
    ensures
        match d {
            Discovery::Absent | Discovery::Stale => r == ConnectStep::Known(DaemonStatus::NotRunning),
            Discovery::Incompatible { found, expected } => r == ConnectStep::Known(
                DaemonStatus::Incompatible { found, expected },
            ),
            Discovery::Running(manifest) => r == ConnectStep::Confirm(manifest),
        },
{
    match d {
        Discovery::Absent => ConnectStep::Known(DaemonStatus::NotRunning),
        Discovery::Stale => ConnectStep::Known(DaemonStatus::NotRunning),
        Discovery::Incompatible { found, expected } => ConnectStep::Known(
            DaemonStatus::Incompatible { found, expected },
        ),
        Discovery::Running(manifest) => ConnectStep::Confirm(manifest),
    }
}

/// What the answer of a daemon to the question for its version says of it. The daemon is trusted
/// over the file it left behind, and a process that died meanwhile is not running.
pub open spec fn confirmed(
    manifest: DaemonManifest,
    answer: Result<ApiVersionInfo, ControlClientError>,
    alive: bool,
    status: DaemonStatus,
) -> bool {
    match answer {
        Ok(info) => if info.api_version@ == CONTROL_API_VERSION@ {
            status matches DaemonStatus::Running { manifest: m, client } && m == manifest && client.base_url@
                == manifest::base_url_at(manifest.api_port) && text::text_opt(client.token) == text::text_opt(
                manifest.token,
            ) && client.label is None
        } else {
            status matches DaemonStatus::Incompatible { found, expected } && found@ == info.api_version@ && expected@
                == CONTROL_API_VERSION@
        },
        Err(e) => if !alive {
            status is NotRunning
        } else {
            status matches DaemonStatus::Unresponsive { manifest: m, reason } && m == manifest && reason@ == error_text(
                e,
            )
        },
    }
}

/// Judge the answer of a daemon to the question for its version, and tell whether its manifest is to
/// be removed. `alive` is whether its process still lives, where it did not answer.
pub fn after_version(
    manifest: DaemonManifest,
    answer: Result<ApiVersionInfo, ControlClientError>,
    alive: bool,
) -> (r: (DaemonStatus, bool))
    ensures
        confirmed(manifest, answer, alive, r.0),
        r.1 == match answer {
            Ok(info) => info.api_version@ != CONTROL_API_VERSION@,
            Err(_) => !alive,
        },
        r.0 is Running <==> answer is Ok && answer->Ok_0.api_version@ == "1"@,
        r.0 is Incompatible <==> answer is Ok && answer->Ok_0.api_version@ != "1"@,
        r.0 is NotRunning <==> answer is Err && !alive,
        r.0 is Unresponsive <==> answer is Err && alive,
{
    match answer {
        Ok(info) => {
            if text::same_text(info.api_version.as_str(), CONTROL_API_VERSION) {
                let client = ControlClient::from_manifest(&manifest);
                (DaemonStatus::Running { manifest, client }, false)
            } else {
                (
                    DaemonStatus::Incompatible {
                        found: info.api_version,
                        expected: text::copy(CONTROL_API_VERSION),
                    },
                    true,
                )
            }
        },
        Err(e) => {
            if !alive {
                (DaemonStatus::NotRunning, true)
            } else {
                let reason = e.message();
                (DaemonStatus::Unresponsive { manifest, reason }, false)
            }
        },
    }
}

/// Of a base URL only the slashes at its end are cut off, and all of them.
pub proof fn law_only_slashes_at_the_end_are_cut(s: Seq<char>)
    ensures
        without_slashes(s).len() <= s.len(),
        without_slashes(s) == s.subrange(0, without_slashes(s).len() as int),
        without_slashes(s).len() > 0 ==> without_slashes(s).last() != '/',
        forall|i: int| without_slashes(s).len() <= i < s.len() ==> s[i] == '/',
    decreases s.len(),
{
    if s.len() > 0 && s.last() == '/' {
        let shorter = s.drop_last();
        law_only_slashes_at_the_end_are_cut(shorter);
        assert(without_slashes(s) =~= s.subrange(0, without_slashes(s).len() as int));
        assert forall|i: int| without_slashes(s).len() <= i < s.len() implies s[i] == '/' by {
            if i < shorter.len() {
                assert(shorter[i] == '/');
            }
        }
    } else {
        assert(s.subrange(0, s.len() as int) =~= s);
    }
}

/// A refusal always comes with a message where the daemon's answer holds any text, and with the
/// daemon's own code and message where it names them.
pub proof fn law_refusals_carry_the_code_and_the_message(fields: Option<ErrorFieldsView>, body: Seq<char>)
    ensures
        fields matches Some(f) ==> (f.code matches Some(c) ==> refusal(fields, body).0 == c),
        fields matches Some(f) ==> (f.message matches Some(m) ==> (m.len() > 0 ==> refusal(fields, body).1 == m)),
        fields is None ==> refusal(fields, body).0 == "request_failed"@,
        fields is None || text::trimmed(body).len() > 0 ==> refusal(fields, body).1.len() > 0,
{
    reveal_strlit("the daemon refused the request without a message");
}

/// A daemon is driven only where it answers and speaks this protocol, and then with the port and the
/// token of its manifest.
pub proof fn law_only_answering_daemons_are_driven(
    manifest: DaemonManifest,
    answer: Result<ApiVersionInfo, ControlClientError>,
    alive: bool,
    status: DaemonStatus,
)
    requires
        confirmed(manifest, answer, alive, status),
    ensures
        status is Running <==> (answer is Ok && answer->Ok_0.api_version@ == "1"@),
        status matches DaemonStatus::Running { manifest: m, client } ==> m == manifest && client.base_url@
            == "http://127.0.0.1:"@ + text::decimal(manifest.api_port as nat) && text::text_opt(client.token)
            == text::text_opt(manifest.token),
        status is NotRunning <==> answer is Err && !alive,
{
}

} // verus!
