//! The application side of a tree: what its leaves, predicates, scores,
//! random and weighted draws and actions do.
//!
//! A tree is data; the behaviour at its leaves belongs to the application.
//! Each leaf of a tree names one of the application's callbacks by number,
//! and the context the tree runs over answers for it. Predicates and scores
//! only read the context; leaves, draws and actions may change it, and those
//! changes are immediate: nothing is rolled back when a parent later rejects
//! the branch.

use vstd::prelude::*;

use crate::control::is_untried;
use crate::node::NodeResult;

verus! {

/// The context a tree runs over, and the callbacks its nodes name.
///
/// `A` is what a running invocation is doing. Each `spec fn` describes the
/// matching callback as a function of the context it is called on; an
/// implementation is expected to behave accordingly. Callbacks must not
/// panic.
pub trait BtContext<A>: Sized {
    /// Invocation state of an action between its start and its completion.
    type ActionState;

    /// Leaf `leaf` run on this context: the context after it, and its result.
    spec fn leaf_effect(self, leaf: usize) -> (Self, NodeResult<A>);

    /// Whether predicate `predicate` holds of this context.
    spec fn holds(self, predicate: usize) -> bool;

    /// The act reported by act function `act` for this context.
    spec fn act_of(self, act: usize) -> A;

    /// Act conversion `map` applied to `act`.
    spec fn mapped(map: usize, act: A) -> A;

    /// Scorer `scorer`'s score of child `index` in this context.
    spec fn score_of(self, scorer: usize, index: usize) -> i64;

    /// One draw from generator `rng`: the context after it, and the number.
    spec fn draw_effect(self, rng: usize) -> (Self, u32);

    /// One weighted draw from generator `rng` with weight function `weights`
    /// among the children below `count` not marked in `used`: the context
    /// after it, and the child drawn, or `None` when no child has a positive
    /// weight.
    spec fn weighted_draw_effect(self, rng: usize, weights: usize, used: u64, count: usize) -> (
        Self,
        Option<usize>,
    );

    /// Action `action` started on this context: the context after it, and
    /// its invocation state, or `None` when it cannot start.
    spec fn start_effect(self, action: usize) -> (Self, Option<Self::ActionState>);

    /// Whether action `action` in `state` is still in progress.
    spec fn in_progress(self, action: usize, state: Self::ActionState) -> bool;

    /// One tick of action `action`: context, state, and the act it reports.
    spec fn tick_effect(self, action: usize, state: Self::ActionState) -> (
        Self,
        Self::ActionState,
        A,
    );

    /// Completion of action `action`: context, state, and whether it succeeded.
    spec fn complete_effect(self, action: usize, state: Self::ActionState) -> (
        Self,
        Self::ActionState,
        bool,
    );

    /// Runs leaf `leaf`.
    fn leaf(&mut self, leaf: usize) -> (r: NodeResult<A>)
        ensures
            (*final(self), r) == old(self).leaf_effect(leaf),
    ;

    /// Asks predicate `predicate`.
    fn check(&self, predicate: usize) -> (r: bool)
        ensures
            r == self.holds(predicate),
    ;

    /// Asks act function `act` what the agent is doing.
    fn act(&self, act: usize) -> (r: A)
        ensures
            r == self.act_of(act),
    ;

    /// Converts `act` with conversion `map`.
    fn map_act(map: usize, act: A) -> (r: A)
        ensures
            r == Self::mapped(map, act),
    ;

    /// Scores child `index` with scorer `scorer`.
    fn score(&self, scorer: usize, index: usize) -> (r: i64)
        ensures
            r == self.score_of(scorer, index),
    ;

    /// Draws a number from generator `rng`.
    fn draw(&mut self, rng: usize) -> (r: u32)
        ensures
            (*final(self), r) == old(self).draw_effect(rng),
    ;

    /// Draws a child below `count` not marked in `used` with generator `rng`,
    /// each with probability in proportion to its weight under weight
    /// function `weights`; `None` when no such child has a positive weight.
    fn draw_weighted(&mut self, rng: usize, weights: usize, used: u64, count: usize) -> (r: Option<
        usize,
    >)
        ensures
            (*final(self), r) == old(self).weighted_draw_effect(rng, weights, used, count),
            r matches Some(i) ==> i < count && is_untried(used, i as nat),
    ;

    /// Starts action `action`.
    fn start(&mut self, action: usize) -> (r: Option<Self::ActionState>)
        ensures
            (*final(self), r) == old(self).start_effect(action),
    ;

    /// Asks whether action `action` is still in progress.
    fn is_in_progress(&self, action: usize, state: &Self::ActionState) -> (r: bool)
        ensures
            r == self.in_progress(action, *state),
    ;

    /// Ticks action `action` and reports what the agent is doing.
    fn tick(&mut self, action: usize, state: &mut Self::ActionState) -> (r: A)
        ensures
            (*final(self), *final(state), r) == old(self).tick_effect(action, *old(state)),
    ;

    /// Completes action `action`; returns whether it succeeded.
    fn complete(&mut self, action: usize, state: &mut Self::ActionState) -> (r: bool)
        ensures
            (*final(self), *final(state), r) == old(self).complete_effect(action, *old(state)),
    ;
}

} // verus!
