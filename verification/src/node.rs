//! Results and entry modes: the protocol every node speaks.

use vstd::prelude::*;

verus! {

/// Success/Failure ends an invocation; Running preserves it.
///
/// `A` is what an agent is *doing* while it runs: a node that occupies the
/// agent says with what, so something running is never silent about it.
#[derive(Clone, Copy, Debug, PartialEq, Eq)]
pub enum NodeResult<A> {
    Success,
    Failure,
    Running(A),
}

impl<A> NodeResult<A> {
    /// Fails for an error rather than a normal outcome; use `Failure`
    /// directly for those. The message names the error where it is raised and
    /// is dropped: it is not reported anywhere.
    pub fn error(message: &str) -> (r: Self)
        ensures
            r is Failure,
    {
        let _ = message;
        NodeResult::Failure
    }

    /// What the agent is doing, if this invocation is still running.
    pub fn act(self) -> (r: Option<A>)
        ensures
            r == act_of(self),
    {
        match self {
            NodeResult::Running(act) => Some(act),
            _ => None,
        }
    }

    /// Whether the invocation is still running.
    pub fn is_running(&self) -> (r: bool)
        ensures
            r == (*self is Running),
    {
        match self {
            NodeResult::Running(_) => true,
            _ => false,
        }
    }
}

/// The act a result carries: only a running result carries one.
pub open spec fn act_of<A>(result: NodeResult<A>) -> Option<A> {
    match result {
        NodeResult::Running(act) => Some(act),
        _ => None,
    }
}

/// Entry mode. Evaluate rechecks decisions without resetting state; Resume
/// follows the saved selection.
#[derive(Clone, Copy, Debug, PartialEq, Eq)]
pub enum EntryMode {
    Evaluate,
    Resume,
}

} // verus!
