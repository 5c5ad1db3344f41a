//! Reading and changing the policy over the API.
use vstd::prelude::*;
use vstd::string::*;

use crate::api::Failure;
use crate::proxy::outbound::{UpstreamAuth, UpstreamProxyConfig};
use crate::text;

verus! {

/// What an upstream proxy is configured to be.
#[verifier::ext_equal]
pub struct UpstreamView {
    pub proxy_url: Seq<char>,
    pub bypass_hosts: Seq<Seq<char>>,
    pub auth: Option<(Seq<char>, Seq<char>)>,
}

/// What an upstream proxy is configured to be.
pub open spec fn upstream_view(u: UpstreamProxyConfig) -> UpstreamView {
    UpstreamView {
        proxy_url: u.proxy_url@,
        bypass_hosts: text::texts(u.bypass_hosts@),
        auth: match u.auth {
            Some(a) => Some((a.username@, a.password@)),
            None => None,
        },
    }
}

/// What an optional upstream proxy is configured to be.
pub open spec fn upstream_opt(u: Option<UpstreamProxyConfig>) -> Option<UpstreamView> {
    match u {
        Some(x) => Some(upstream_view(x)),
        None => None,
    }
}

fn same_hosts(a: &Vec<String>, b: &Vec<String>) -> (r: bool)
    ensures
        r == (text::texts(a@) == text::texts(b@)),
{
    if a.len() != b.len() {
        assert(text::texts(a@).len() != text::texts(b@).len());
        return false;
    }
    let mut i: usize = 0;
    while i < a.len()
        invariant
            i <= a@.len(),
            a@.len() == b@.len(),
            forall|j: int| 0 <= j < i ==> text::texts(a@)[j] == text::texts(b@)[j],
        decreases a.len() - i,
    {
        if !text::same_text(a[i].as_str(), b[i].as_str()) {
            assert(text::texts(a@)[i as int] != text::texts(b@)[i as int]);
            return false;
        }
        i = i + 1;
    }
    assert(text::texts(a@) =~= text::texts(b@));
    true
}

fn same_auth(a: &Option<UpstreamAuth>, b: &Option<UpstreamAuth>) -> (r: bool)
    ensures
        r == (match *a {
            Some(x) => Some((x.username@, x.password@)),
            None => None,
        } == match *b {
            Some(x) => Some((x.username@, x.password@)),
            None => None::<(Seq<char>, Seq<char>)>,
        }),
{
    match (a, b) {
        (Some(x), Some(y)) => text::same_text(x.username.as_str(), y.username.as_str()) && text::same_text(
            x.password.as_str(),
            y.password.as_str(),
        ),
        (None, None) => true,
        _ => false,
    }
}

fn same_upstream(a: &UpstreamProxyConfig, b: &UpstreamProxyConfig) -> (r: bool)
    ensures
        r == (upstream_view(*a) == upstream_view(*b)),
{
    let r = text::same_text(a.proxy_url.as_str(), b.proxy_url.as_str()) && same_hosts(&a.bypass_hosts, &b.bypass_hosts)
        && same_auth(&a.auth, &b.auth);
    proof {
        let x = upstream_view(*a);
        let y = upstream_view(*b);
        assert(x == y <==> x.proxy_url == y.proxy_url && x.bypass_hosts == y.bypass_hosts && x.auth == y.auth);
    }
    r
}

/// Whether a change of policy is refused: the upstream connector is built once at startup, so that
/// another upstream would silently have no effect.
pub open spec fn needs_restart(current: Option<UpstreamView>, patch: Option<UpstreamView>) -> bool {
    patch is Some && current != patch
}

/// Refuse a change of policy that would silently have no effect.
pub fn check_patch(current: &Option<UpstreamProxyConfig>, patch: &Option<UpstreamProxyConfig>) -> (r: Result<
    (),
    Failure,
>)
    ensures
        r is Err <==> needs_restart(upstream_opt(*current), upstream_opt(*patch)),
        patch is None ==> r is Ok,
        patch is Some && current is None ==> r is Err,
        r is Ok ==> (patch matches Some(p) ==> (current matches Some(c) && c.proxy_url@ == p.proxy_url@ && text::texts(
            c.bypass_hosts@,
        ) == text::texts(p.bypass_hosts@) && (c.auth is Some <==> p.auth is Some) && (c.auth matches Some(a)
            ==> a.username@ == p.auth->0.username@ && a.password@ == p.auth->0.password@))),
        r matches Err(e) ==> e.status == 409 && e.message@ == "upstream proxy config change requires proxy restart"@,
{
    let same = match (current, patch) {
        (_, None) => true,
        (Some(c), Some(p)) => same_upstream(c, p),
        (None, Some(_)) => false,
    };
    if same {
        Ok(())
    } else {
        Err(Failure { status: 409, message: text::copy("upstream proxy config change requires proxy restart") })
    }
}

/// Hide the password of an upstream proxy from whoever reads the policy.
pub fn mask_upstream(upstream: &mut UpstreamProxyConfig)
    ensures
        upstream_view(*final(upstream)) == (UpstreamView {
            auth: match old(upstream).auth {
                Some(a) => Some((a.username@, "***"@)),
                None => None,
            },
            ..upstream_view(*old(upstream))
        }),
        final(upstream).proxy_url@ == old(upstream).proxy_url@,
        text::texts(final(upstream).bypass_hosts@) == text::texts(old(upstream).bypass_hosts@),
        final(upstream).auth is Some <==> old(upstream).auth is Some,
        final(upstream).auth matches Some(a) ==> a.password@ == "***"@ && a.username@ == old(upstream).auth->0.username@,
{
    match &mut upstream.auth {
        Some(a) => {
            a.password = text::copy("***");
        },
        None => {},
    }
}

/// A policy may be changed as long as it leaves the upstream proxy alone: names none, or the one that
/// is configured.
pub proof fn law_the_upstream_proxy_cannot_be_changed(current: Option<UpstreamView>, patch: Option<UpstreamView>)
    ensures
        patch is None ==> !needs_restart(current, patch),
        patch == current ==> !needs_restart(current, patch),
        patch is Some && patch != current ==> needs_restart(current, patch),
{
}

} // verus!
