//! The core of a local traffic proxy.
use vstd::prelude::*;

pub mod addr;
pub mod api;
pub mod capture;
pub mod control;
pub mod flow;
pub mod headers;
pub mod intercept;
pub mod metrics;
pub mod policy;
pub mod proxy;
pub mod table;
pub mod text;
pub mod urls;

verus! {

/// Nothing to set up.
pub fn init() {
}

} // verus!
