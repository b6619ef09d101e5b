//! What one update of a node does, as a function of the node, its invocation
//! state, the context, and the entry mode.
//!
//! [`tick`] is the meaning of every node kind; the executable runtime in
//! [`crate::runtime`] is proved to compute exactly this.

use vstd::prelude::*;

use crate::context::BtContext;
use crate::control::{
    ControlOp, Policy, PolicyState, best_child, failed_effect, lemma_best_from_untried,
    lemma_mark_count, lemma_nth_untried, lemma_untried_count_bound, nth_untried_from,
    succeeded_effect, begin_effect, uniform_effect, untried_count, left_count, is_untried,
    lemma_left_count_bound,
};
use crate::node::{EntryMode, NodeResult};
use crate::order::visit_effect;
use crate::tree::{ControlNode, ControlState, Node, NodeState, Outcome, RepeatWhileState, fresh_control_state};

verus! {

/// The result a terminal outcome stands for.
pub open spec fn outcome_result<A>(outcome: Outcome) -> NodeResult<A> {
    match outcome {
        Outcome::Success => NodeResult::Success,
        Outcome::Failure => NodeResult::Failure,
    }
}

/// `result` with its terminal outcomes mapped; `Running` passes through.
pub open spec fn remapped<A>(result: NodeResult<A>, success: Outcome, failure: Outcome) -> NodeResult<A> {
    match result {
        NodeResult::Running(act) => NodeResult::Running(act),
        NodeResult::Success => outcome_result(success),
        NodeResult::Failure => outcome_result(failure),
    }
}

/// A control's state, or the fresh one when `state` holds another kind.
pub open spec fn control_state_of<S>(state: NodeState<S>) -> ControlState<S> {
    match state {
        NodeState::Control(c) => c,
        _ => fresh_control_state(),
    }
}

/// A `repeat_while`'s state, or the fresh one when `state` holds another kind.
pub open spec fn repeat_while_state_of<S>(state: NodeState<S>) -> RepeatWhileState<S> {
    match state {
        NodeState::RepeatWhile(r) => r,
        _ => RepeatWhileState { child: Box::new(NodeState::Empty), ran: false },
    }
}

/// The running child of a control, if any.
pub open spec fn active_index<S>(state: ControlState<S>) -> Option<usize> {
    match state.children {
        Some((index, _)) => Some(index),
        None => None,
    }
}

/// The position whose child is running, as the policy sees it: for children
/// visited as written, the running child's index; for ordered children, the
/// position the order put it at.
pub open spec fn active_position<S>(node: ControlNode, state: ControlState<S>) -> Option<usize> {
    match node.order {
        None => active_index(state),
        Some(_) => match (state.children, state.ordered.at) {
            (Some(_), Some((position, _))) => Some(position),
            _ => None,
        },
    }
}

/// How far a control's loop can still go: it shrinks every time the policy
/// asks for another child after one ended.
pub open spec fn loop_measure(policy: Policy, op: ControlOp, state: PolicyState, count: nat) -> nat {
    match op {
        ControlOp::RunChild(index) => 1 + match policy {
            Policy::Sequence(_) => if index < count {
                (count - index) as nat
            } else {
                0
            },
            Policy::Selector(_) => if index < count {
                (count - index) as nat
            } else {
                0
            },
            Policy::Repeat(times) => if state.count < times.0 {
                (times.0 - state.count) as nat
            } else {
                0
            },
            Policy::Retry(attempts) => if state.count < attempts.0 {
                (attempts.0 - state.count) as nat
            } else {
                0
            },
            Policy::IfElse(_) => 0,
            _ => untried_count(state.tried, count),
        },
        _ => 0,
    }
}

/// Every answer a policy gives after a child ended brings its loop closer to
/// the end.
pub proof fn lemma_loop_measure<A, H: BtContext<A>>(
    policy: Policy,
    state: PolicyState,
    ctx: H,
    index: usize,
    count: usize,
    succeeded: bool,
)
    requires
        index < count,
    ensures
        ({
            let (next, _, op) = if succeeded {
                succeeded_effect(policy, state, ctx, index, count)
            } else {
                failed_effect(policy, state, ctx, index, count)
            };
            loop_measure(policy, op, next, count as nat) < loop_measure(
                policy,
                ControlOp::RunChild(index),
                state,
                count as nat,
            )
        }),
{
    match policy {
        Policy::Utility(utility) => {
            if !succeeded && count <= 64 {
                lemma_best_from_untried(utility, ctx, state.tried, count as nat, None, 0, None);
                match best_child(utility, ctx, state.tried, count as nat, None) {
                    Some(j) => {
                        lemma_mark_count(state.tried, j as nat, count as nat);
                    },
                    None => {},
                }
            }
        },
        Policy::RandomSelect(rng) => {
            if !succeeded {
                lemma_uniform_measure(rng.0, state.tried, ctx, count, ControlOp::Failure);
            }
        },
        Policy::ShuffleSeq(rng) => {
            if succeeded {
                lemma_uniform_measure(rng.0, state.tried, ctx, count, ControlOp::Success);
            }
        },
        Policy::WeightedSelect(weighted) => {
            if !succeeded && count <= 64 {
                let (_, child) = ctx.weighted_draw_effect(weighted.0, weighted.1, state.tried, count);
                if let Some(j) = child {
                    if j < count && is_untried(state.tried, j as nat) {
                        lemma_mark_count(state.tried, j as nat, count as nat);
                    }
                }
            }
        },
        _ => {},
    }
}

/// A uniform draw marks a child that was untried, or ends the loop.
pub proof fn lemma_uniform_measure<A, H: BtContext<A>>(
    rng: usize,
    tried: u64,
    ctx: H,
    count: usize,
    none: ControlOp,
)
    requires
        !(none is RunChild),
    ensures
        ({
            let (_, next, op) = uniform_effect(rng, tried, ctx, count, none);
            op is RunChild ==> op->RunChild_0 < count && untried_count(next, count as nat) + 1
                == untried_count(tried, count as nat)
        }),
{
    if count <= 64 {
        let left = left_count(tried, count as nat);
        if left > 0 {
            let (_, number) = ctx.draw_effect(rng);
            let nth = (number as nat) % left;
            lemma_untried_count_bound(tried, 0);
            lemma_left_count_bound(tried, count as nat);
            lemma_nth_untried(tried, count as nat, 0, nth);
            let j = nth_untried_from(tried, count as nat, 0, nth)->0;
            lemma_mark_count(tried, j, count as nat);
        }
    }
}

/// Child `index` run by a control whose saved child is `saved`: the saved
/// child afterwards, the context, and the child's result.
///
/// The saved child is updated in place with the control's mode; any other
/// child is a fresh candidate, entered with Evaluate. A terminal saved child
/// clears the selection; a running candidate replaces it; a terminal
/// candidate leaves it as it was.
pub open spec fn child_effect<A, H: BtContext<A>>(
    child: Node,
    index: usize,
    saved: Option<(usize, Box<NodeState<H::ActionState>>)>,
    ctx: H,
    mode: EntryMode,
) -> (Option<(usize, Box<NodeState<H::ActionState>>)>, H, NodeResult<A>)
    decreases child, 1nat,
{
    let resumed = match saved {
        Some((j, _)) => j == index,
        None => false,
    };
    if resumed {
        let state = match saved {
            Some((_, s)) => *s,
            None => NodeState::Empty,
        };
        let (after, c, r) = tick(child, state, ctx, mode);
        (if r is Running {
            Some((index, Box::new(after)))
        } else {
            None
        }, c, r)
    } else {
        let (after, c, r) = tick(child, NodeState::Empty, ctx, EntryMode::Evaluate);
        (if r is Running {
            Some((index, Box::new(after)))
        } else {
            saved
        }, c, r)
    }
}

/// Position `index` of a control run once: the control's state afterwards,
/// the context, and the result the policy sees.
///
/// Children visited as written: child `index` (see [`child_effect`]). Ordered
/// children: the child the order puts at that position (see
/// [`visit_effect`]); a position the order has no child for, or one visited
/// out of order, fails.
pub open spec fn position_run<A, H: BtContext<A>>(
    node: ControlNode,
    index: usize,
    state: ControlState<H::ActionState>,
    ctx: H,
    mode: EntryMode,
) -> (ControlState<H::ActionState>, H, NodeResult<A>)
    decreases node, 0nat,
{
    let count = node.children.len();
    match node.order {
        None => if index < count {
            let (saved, c, r) = child_effect(node.children@[index as int], index, state.children, ctx, mode);
            (ControlState { children: saved, inner: state.inner, ordered: state.ordered }, c, r)
        } else {
            (state, ctx, NodeResult::Failure)
        },
        Some(order) => {
            let (ordered, c0, chosen) = visit_effect(
                order,
                state.ordered,
                active_index(state),
                ctx,
                index,
                count,
                mode,
            );
            match chosen {
                Some(Some(j)) => if j < count {
                    let (saved, c, r) = child_effect(node.children@[j as int], j, state.children, c0, mode);
                    (ControlState { children: saved, inner: state.inner, ordered }, c, r)
                } else {
                    (ControlState { children: state.children, inner: state.inner, ordered }, c0, NodeResult::Failure)
                },
                _ => (ControlState { children: state.children, inner: state.inner, ordered }, c0, NodeResult::Failure),
            }
        },
    }
}

/// A control's loop from answer `op` on: run the child asked for, and ask the
/// policy again when it ends, until a child runs or the policy ends the control.
pub open spec fn control_loop<A, H: BtContext<A>>(
    node: ControlNode,
    op: ControlOp,
    state: ControlState<H::ActionState>,
    ctx: H,
    mode: EntryMode,
) -> (NodeState<H::ActionState>, H, NodeResult<A>)
    decreases node, loop_measure(node.policy, op, state.inner, node.children@.len()),
{
    match op {
        ControlOp::Success => (NodeState::Control(state), ctx, NodeResult::Success),
        ControlOp::Failure => (NodeState::Control(state), ctx, NodeResult::Failure),
        ControlOp::RunChild(index) => {
            let count = node.children.len();
            if index >= count {
                (NodeState::Control(state), ctx, NodeResult::Failure)
            } else {
                let (after, c, r) = position_run(node, index, state, ctx, mode);
                match r {
                    NodeResult::Running(act) => (NodeState::Control(after), c, NodeResult::Running(act)),
                    NodeResult::Success => {
                        let (inner, c2, next) = succeeded_effect(
                            node.policy,
                            state.inner,
                            c,
                            index,
                            count,
                        );
                        proof {
                            lemma_loop_measure(node.policy, state.inner, c, index, count, true);
                        }
                        control_loop(
                            node,
                            next,
                            ControlState { children: after.children, inner, ordered: after.ordered },
                            c2,
                            mode,
                        )
                    },
                    NodeResult::Failure => {
                        let (inner, c2, next) = failed_effect(
                            node.policy,
                            state.inner,
                            c,
                            index,
                            count,
                        );
                        proof {
                            lemma_loop_measure(node.policy, state.inner, c, index, count, false);
                        }
                        control_loop(
                            node,
                            next,
                            ControlState { children: after.children, inner, ordered: after.ordered },
                            c2,
                            mode,
                        )
                    },
                }
            }
        },
    }
}

/// One update of `node`: its state afterwards, the context afterwards, and
/// its result.
pub open spec fn tick<A, H: BtContext<A>>(
    node: Node,
    state: NodeState<H::ActionState>,
    ctx: H,
    mode: EntryMode,
) -> (NodeState<H::ActionState>, H, NodeResult<A>)
    decreases node, 0nat,
{
    match node {
        Node::Leaf(leaf) => {
            let (c, r) = ctx.leaf_effect(leaf.0);
            (NodeState::Empty, c, r)
        },
        Node::Check(check) => (NodeState::Empty, ctx, if ctx.holds(check.0) {
            NodeResult::Success
        } else {
            NodeResult::Failure
        }),
        Node::Guarded(guarded) => if ctx.holds(guarded.predicate) {
            tick(guarded.child, state, ctx, mode)
        } else {
            (state, ctx, NodeResult::Failure)
        },
        Node::Control(control) => {
            let saved = control_state_of(state);
            let active = active_position(control, saved);
            if mode is Resume && active is Some {
                control_loop(control, ControlOp::RunChild(active->0), saved, ctx, mode)
            } else {
                let (inner, c, op) = begin_effect(
                    control.policy,
                    saved.inner,
                    ctx,
                    active,
                    control.children.len(),
                );
                control_loop(
                    control,
                    op,
                    ControlState { children: saved.children, inner, ordered: saved.ordered },
                    c,
                    mode,
                )
            }
        },
        Node::Remap(remap) => {
            let (after, c, r) = tick(remap.child, state, ctx, mode);
            (after, c, remapped(r, remap.success, remap.failure))
        },
        Node::RepeatWhile(repeat) => {
            let saved = repeat_while_state_of(state);
            let reset = RepeatWhileState { child: Box::new(NodeState::Empty), ran: false };
            if !ctx.holds(repeat.condition) {
                (NodeState::RepeatWhile(saved), ctx, NodeResult::Success)
            } else {
                let (after, c, r) = tick(repeat.child, *saved.child, ctx, mode);
                if r is Running {
                    (
                        NodeState::RepeatWhile(RepeatWhileState { child: Box::new(after), ran: true }),
                        c,
                        r,
                    )
                } else if !c.holds(repeat.condition) {
                    (NodeState::RepeatWhile(reset), c, NodeResult::Success)
                } else if r is Success && saved.ran {
                    // The child succeeded after running: a fresh run, at once.
                    let (after2, c2, r2) = tick(repeat.child, NodeState::Empty, c, EntryMode::Evaluate);
                    if r2 is Running {
                        (
                            NodeState::RepeatWhile(
                                RepeatWhileState { child: Box::new(after2), ran: true },
                            ),
                            c2,
                            r2,
                        )
                    } else if !c2.holds(repeat.condition) {
                        (NodeState::RepeatWhile(reset), c2, NodeResult::Success)
                    } else {
                        (NodeState::RepeatWhile(reset), c2, NodeResult::Failure)
                    }
                } else {
                    (NodeState::RepeatWhile(reset), c, NodeResult::Failure)
                }
            }
        },
        Node::MapAct(map) => {
            let (after, c, r) = tick(map.child, state, ctx, mode);
            (after, c, match r {
                NodeResult::Running(act) => NodeResult::Running(H::mapped(map.map, act)),
                NodeResult::Success => NodeResult::Success,
                NodeResult::Failure => NodeResult::Failure,
            })
        },
        Node::ReevaluateWhen(reevaluate) => {
            let child_mode = if mode is Resume && ctx.holds(reevaluate.condition) {
                EntryMode::Evaluate
            } else {
                mode
            };
            tick(reevaluate.child, state, ctx, child_mode)
        },
        Node::ActionWhile(action) => if ctx.holds(action.condition) {
            (NodeState::Empty, ctx, NodeResult::Running(ctx.act_of(action.act)))
        } else {
            (NodeState::Empty, ctx, NodeResult::Success)
        },
        Node::Action(action) => {
            let (c, started) = match state {
                NodeState::Action(s) => (ctx, Some(s)),
                _ => ctx.start_effect(action.0),
            };
            match started {
                None => (NodeState::Empty, c, NodeResult::Failure),
                Some(s) => if c.in_progress(action.0, s) {
                    let (c2, s2, act) = c.tick_effect(action.0, s);
                    (NodeState::Action(s2), c2, NodeResult::Running(act))
                } else {
                    let (c2, _, succeeded) = c.complete_effect(action.0, s);
                    (NodeState::Empty, c2, if succeeded {
                        NodeResult::Success
                    } else {
                        NodeResult::Failure
                    })
                },
            }
        },
        Node::Named(named) => tick(named.node, state, ctx, mode),
    }
}

/// One update through a caller-owned slot: an empty slot enters with
/// Evaluate, and a terminal result clears it.
pub open spec fn slot_tick<A, H: BtContext<A>>(
    node: Node,
    slot: Option<NodeState<H::ActionState>>,
    ctx: H,
    mode: EntryMode,
) -> (Option<NodeState<H::ActionState>>, H, NodeResult<A>) {
    let (state, entry_mode) = match slot {
        Some(s) => (s, mode),
        None => (NodeState::Empty, EntryMode::Evaluate),
    };
    let (after, c, r) = tick(node, state, ctx, entry_mode);
    (if r is Running {
        Some(after)
    } else {
        None
    }, c, r)
}

} // verus!
