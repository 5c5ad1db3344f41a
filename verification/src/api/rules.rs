//! Rules, mocks, intercepts and scripts that are set over the API.
use vstd::prelude::*;
use vstd::string::*;

use crate::api::Failure;
use crate::text;
use crate::urls;

verus! {

/// Where an intercept holds a flow, when it does not say: at the request.
pub fn default_phase() -> (r: String)
    ensures
        r@ == "request"@,
{
    text::copy("request")
}

/// What a held flow does, when its resumption does not say: it goes on.
pub fn default_action() -> (r: String)
    ensures
        r@ == "continue"@,
{
    text::copy("continue")
}

/// What a mock answers with, when it does not say: JSON.
pub fn default_content_type() -> (r: String)
    ensures
        r@ == "application/json"@,
{
    text::copy("application/json")
}

/// A breakpoint that is to be set.
#[derive(Clone, Debug)]
pub struct SetInterceptRequest {
    pub url_pattern: String,
    pub phase: Option<String>,
}

/// Whether rules behind a matching one still run.
#[derive(Clone, Copy, Debug, PartialEq, Eq, Structural)]
pub enum RuleTermination {
    Continue,
    Stop,
}

/// A rule that holds flows.
#[derive(Clone, Debug)]
pub struct InterceptRuleConfig {
    pub rule_id: String,
    pub active: bool,
    pub url_pattern: String,
    pub method: Option<String>,
    pub phase: String,
    pub name: String,
    pub priority: i32,
    pub termination: RuleTermination,
}

/// Whether a rule sets the breakpoint that was asked for.
pub open spec fn sets_intercept(rule: InterceptRuleConfig, req: SetInterceptRequest, id: Seq<char>) -> bool {
    &&& rule.rule_id@ == id
    &&& rule.active
    &&& rule.url_pattern@ == req.url_pattern@
    &&& rule.method is None
    &&& rule.phase@ == match req.phase {
        Some(p) => p@,
        None => "request"@,
    }
    &&& rule.name@ == "api-intercept:"@ + req.url_pattern@
    &&& rule.priority == 100
    &&& rule.termination == RuleTermination::Stop
}

/// The rule for a breakpoint, under an identifier.
pub fn intercept_rule(req: &SetInterceptRequest, rule_id: String) -> (r: InterceptRuleConfig)
    ensures
        sets_intercept(r, *req, rule_id@),
        r.rule_id@ == rule_id@,
        r.active,
        r.url_pattern@ == req.url_pattern@,
        r.method is None,
        req.phase matches Some(p) ==> r.phase@ == p@,
        req.phase is None ==> r.phase@ == "request"@,
        r.name@ == "api-intercept:"@ + req.url_pattern@,
        r.priority == 100,
        r.termination is Stop,
{
    let phase = match &req.phase {
        Some(p) => text::copy(p.as_str()),
        None => default_phase(),
    };
    InterceptRuleConfig {
        rule_id,
        active: true,
        url_pattern: text::copy(req.url_pattern.as_str()),
        method: None,
        phase,
        name: text::concat2("api-intercept:", req.url_pattern.as_str()),
        priority: 100,
        termination: RuleTermination::Stop,
    }
}

/// The rule for a breakpoint, under a new identifier.
pub fn set_intercept(req: &SetInterceptRequest) -> (r: InterceptRuleConfig)
    ensures
        sets_intercept(r, *req, r.rule_id@),
        exists|id: u128| r.rule_id@ == #[trigger] urls::id_text(id),
        r.active,
        r.url_pattern@ == req.url_pattern@,
        r.method is None,
        req.phase matches Some(p) ==> r.phase@ == p@,
        req.phase is None ==> r.phase@ == "request"@,
        r.priority == 100,
        r.termination is Stop,
{
    let id: u128 = urls::new_id();
    let rule_id = urls::write_id(id);
    assert(rule_id@ == urls::id_text(id));
    intercept_rule(req, rule_id)
}

/// A mock that is to be set.
#[derive(Clone, Debug)]
pub struct MockRequest {
    pub url_pattern: String,
    pub status: u16,
    pub body: Option<String>,
    pub content_type: Option<String>,
}

/// A rule that answers in place of the upstream.
#[derive(Clone, Debug)]
pub struct MockResponseRuleConfig {
    pub rule_id: String,
    pub url_pattern: String,
    pub name: String,
    pub status: u16,
    pub content_type: String,
    pub body: String,
}

/// Whether a rule sets the mock that was asked for.
pub open spec fn sets_mock(rule: MockResponseRuleConfig, req: MockRequest) -> bool {
    &&& rule.url_pattern@ == req.url_pattern@
    &&& rule.name@ == "api-mock:"@ + req.url_pattern@
    &&& rule.status == req.status
    &&& rule.content_type@ == match req.content_type {
        Some(t) => t@,
        None => "application/json"@,
    }
    &&& rule.body@ == match req.body {
        Some(b) => b@,
        None => Seq::empty(),
    }
}

/// The rule for a mock, under an identifier.
pub fn mock_rule(req: MockRequest, rule_id: String) -> (r: MockResponseRuleConfig)
    ensures
        sets_mock(r, req),
        r.rule_id@ == rule_id@,
        r.url_pattern@ == req.url_pattern@,
        r.name@ == "api-mock:"@ + req.url_pattern@,
        r.status == req.status,
        req.content_type matches Some(t) ==> r.content_type@ == t@,
        req.content_type is None ==> r.content_type@ == "application/json"@,
        req.body matches Some(b) ==> r.body@ == b@,
        req.body is None ==> r.body@.len() == 0,
{
    let content_type = match req.content_type {
        Some(t) => t,
        None => default_content_type(),
    };
    let body = match req.body {
        Some(b) => b,
        None => String::new(),
    };
    let name = text::concat2("api-mock:", req.url_pattern.as_str());
    MockResponseRuleConfig { rule_id, url_pattern: req.url_pattern, name, status: req.status, content_type, body }
}

/// The rule for a mock, under a new identifier.
pub fn mock_url(req: MockRequest) -> (r: MockResponseRuleConfig)
    ensures
        sets_mock(r, req),
        exists|id: u128| r.rule_id@ == "api-mock-"@ + #[trigger] urls::id_text(id),
        r.url_pattern@ == req.url_pattern@,
        r.status == req.status,
        req.content_type matches Some(t) ==> r.content_type@ == t@,
        req.content_type is None ==> r.content_type@ == "application/json"@,
        req.body matches Some(b) ==> r.body@ == b@,
        req.body is None ==> r.body@.len() == 0,
{
    let id: u128 = urls::new_id();
    let rule_id = text::concat2("api-mock-", urls::write_id(id).as_str());
    assert(rule_id@ == "api-mock-"@ + urls::id_text(id));
    mock_rule(req, rule_id)
}

/// The status that answers the deletion of a rule: whether it was there, where that is known.
pub fn delete_status(deleted: Option<bool>) -> (r: u16)
    ensures
        r == match deleted {
            None => 500u16,
            Some(true) => 200u16,
            Some(false) => 404u16,
        },
{
    match deleted {
        None => 500,
        Some(d) => if d {
            200
        } else {
            404
        },
    }
}

/// Refuse a script that holds nothing.
pub fn check_script(script: &str) -> (r: Result<(), Failure>)
    ensures
        r is Ok <==> text::trimmed(script@).len() > 0,
        r matches Err(e) ==> e.status == 400 && e.message@ == "script body must not be empty"@,
{
    let trimmed = text::trim(script);
    if text::chars_of(trimmed.as_str()).len() == 0 {
        Err(Failure { status: 400, message: text::copy("script body must not be empty") })
    } else {
        Ok(())
    }
}

/// A breakpoint holds the flows it was asked to hold, where it was asked to, and no rule behind it
/// runs on them.
pub proof fn law_breakpoints_are_what_was_asked_for(rule: InterceptRuleConfig, req: SetInterceptRequest, id: Seq<char>)
    requires
        sets_intercept(rule, req, id),
    ensures
        rule.rule_id@ == id,
        rule.active,
        rule.url_pattern@ == req.url_pattern@,
        rule.method is None,
        req.phase matches Some(p) ==> rule.phase@ == p@,
        req.phase is None ==> rule.phase@ == "request"@,
        rule.termination is Stop,
        rule.priority == 100,
{
}

/// A mock answers what it was asked to answer.
pub proof fn law_mocks_are_what_was_asked_for(rule: MockResponseRuleConfig, req: MockRequest)
    requires
        sets_mock(rule, req),
    ensures
        rule.url_pattern@ == req.url_pattern@,
        rule.status == req.status,
        req.body matches Some(b) ==> rule.body@ == b@,
        req.body is None ==> rule.body@.len() == 0,
        req.content_type matches Some(t) ==> rule.content_type@ == t@,
        req.content_type is None ==> rule.content_type@ == "application/json"@,
{
}

} // verus!
