//! Searching the captured flows.
use vstd::prelude::*;

verus! {

/// The query of a search as it came.
#[derive(Clone, Debug)]
pub struct FlowQueryParams {
    pub host: Option<String>,
    pub path: Option<String>,
    pub path_contains: Option<String>,
    pub method: Option<String>,
    pub status_min: Option<u16>,
    pub status_max: Option<u16>,
    pub has_error: Option<bool>,
    pub is_websocket: Option<bool>,
    pub limit: Option<usize>,
    pub offset: Option<usize>,
}

/// How a flow is to be replayed.
#[derive(Clone, Copy, Debug)]
pub struct ReplayParams {
    /// Skip the verification of certificates.
    pub accept_invalid_certs: bool,
}

impl Default for ReplayParams {
    fn default() -> (r: Self)
        ensures
            !r.accept_invalid_certs,
    {
        ReplayParams { accept_invalid_certs: false }
    }
}

/// What is searched for.
#[derive(Clone, Debug)]
pub struct FlowQuery {
    pub host: Option<String>,
    pub path_contains: Option<String>,
    pub method: Option<String>,
    pub status_min: Option<u16>,
    pub status_max: Option<u16>,
    pub has_error: Option<bool>,
    pub is_websocket: Option<bool>,
    pub limit: Option<usize>,
    pub offset: Option<usize>,
}

/// How many flows a search gives: 50 unless it asks for another number, and between 1 and 200.
pub open spec fn page_size(limit: Option<usize>) -> usize {
    match limit {
        None => 50,
        Some(n) => if n < 1 {
            1
        } else if n > 200 {
            200
        } else {
            n
        },
    }
}

fn clamp_limit(limit: Option<usize>) -> (r: usize)
    ensures
        r == page_size(limit),
        1 <= r <= 200,
{
    match limit {
        None => 50,
        Some(n) => if n < 1 {
            1
        } else if n > 200 {
            200
        } else {
            n
        },
    }
}

/// The search that some parameters ask for, at an offset.
pub open spec fn query_of(p: FlowQueryParams, offset: Option<usize>) -> FlowQuery {
    FlowQuery {
        host: p.host,
        path_contains: match p.path_contains {
            Some(s) => Some(s),
            None => p.path,
        },
        method: p.method,
        status_min: p.status_min,
        status_max: p.status_max,
        has_error: p.has_error,
        is_websocket: p.is_websocket,
        limit: Some(page_size(p.limit)),
        offset,
    }
}

/// The search that some parameters ask for. Without an offset it starts at the first flow.
pub fn search_query(params: FlowQueryParams) -> (r: FlowQuery)
    ensures
        r == query_of(
            params,
            Some(
                match params.offset {
                    Some(n) => n,
                    None => 0,
                },
            ),
        ),
        r.host == params.host,
        r.method == params.method,
        params.path_contains is Some ==> r.path_contains == params.path_contains,
        params.path_contains is None ==> r.path_contains == params.path,
        r.status_min == params.status_min,
        r.status_max == params.status_max,
        r.has_error == params.has_error,
        r.is_websocket == params.is_websocket,
        params.offset is Some ==> r.offset == params.offset,
        params.offset is None ==> r.offset == Some(0usize),
        params.limit is None ==> r.limit == Some(50usize),
        params.limit matches Some(n) ==> (1 <= n <= 200 ==> r.limit == Some(n)),
        r.limit matches Some(n) && 1 <= n <= 200,
{
    let limit = clamp_limit(params.limit);
    let offset: usize = match params.offset {
        Some(n) => n,
        None => 0,
    };
    let path_contains = match params.path_contains {
        Some(s) => Some(s),
        None => params.path,
    };
    FlowQuery {
        host: params.host,
        path_contains,
        method: params.method,
        status_min: params.status_min,
        status_max: params.status_max,
        has_error: params.has_error,
        is_websocket: params.is_websocket,
        limit: Some(limit),
        offset: Some(offset),
    }
}

/// The search for an export: as for a search, but an offset that was not asked for is not sent.
pub fn export_query(params: FlowQueryParams) -> (r: FlowQuery)
    ensures
        r == query_of(params, params.offset),
        r.host == params.host,
        r.method == params.method,
        params.path_contains is Some ==> r.path_contains == params.path_contains,
        params.path_contains is None ==> r.path_contains == params.path,
        r.status_min == params.status_min,
        r.status_max == params.status_max,
        r.has_error == params.has_error,
        r.is_websocket == params.is_websocket,
        r.offset == params.offset,
        params.limit is None ==> r.limit == Some(50usize),
        params.limit matches Some(n) ==> (1 <= n <= 200 ==> r.limit == Some(n)),
        r.limit matches Some(n) && 1 <= n <= 200,
{
    let offset = params.offset;
    let mut q = search_query(params);
    q.offset = offset;
    q
}

/// How many audit events are given when none is asked for.
pub fn audit_limit(limit: Option<usize>) -> (r: usize)
    ensures
        r == match limit {
            Some(n) => n,
            None => 50usize,
        },
{
    match limit {
        Some(n) => n,
        None => 50,
    }
}

/// A search is made for what was asked for: each condition is the caller's, each bound bounds on its
/// own side, and a page holds between 1 and 200 flows, as many as were asked for where that is so.
pub proof fn law_searches_are_what_was_asked_for(p: FlowQueryParams, offset: Option<usize>)
    ensures
        ({
            let q = query_of(p, offset);
            &&& q.host == p.host
            &&& q.method == p.method
            &&& q.status_min == p.status_min
            &&& q.status_max == p.status_max
            &&& q.has_error == p.has_error
            &&& q.is_websocket == p.is_websocket
            &&& q.offset == offset
            &&& p.path_contains is Some ==> q.path_contains == p.path_contains
            &&& p.path_contains is None ==> q.path_contains == p.path
            &&& q.limit is Some
            &&& 1 <= q.limit->0 <= 200
            &&& p.limit matches Some(n) ==> (1 <= n <= 200 ==> q.limit == Some(n))
        }),
{
}

/// Asking for more never gives a smaller page.
pub proof fn law_larger_limits_give_no_smaller_pages(a: usize, b: usize)
    requires
        a <= b,
    ensures
        page_size(Some(a)) <= page_size(Some(b)),
        page_size(Some(a)) <= a || a < 1,
{
}

} // verus!
