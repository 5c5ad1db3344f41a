//! The control API: what its routes decide and answer.
use vstd::prelude::*;

pub mod events;
pub mod flows;
pub mod policy;
pub mod proxy;
pub mod replay;
pub mod rules;
pub mod server;
pub mod webui;

verus! {

/// A failed request: the status and the message it is answered with.
#[derive(Clone, Debug)]
pub struct Failure {
    pub status: u16,
    pub message: String,
}

/// What a failure holds.
#[verifier::ext_equal]
pub struct FailureView {
    pub status: u16,
    pub message: Seq<char>,
}

impl View for Failure {
    type V = FailureView;

    open spec fn view(&self) -> FailureView {
        FailureView { status: self.status, message: self.message@ }
    }
}

} // verus!
