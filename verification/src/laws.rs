//! What holds of every tree, every state and every context.

use vstd::prelude::*;

use crate::arena::mind_at;
use crate::context::BtContext;
use crate::control::{
    ControlOp, Policy, PolicyState, Utility, best_child, best_from, bit, effective_score,
    is_untried, lemma_mark, lemma_nth_untried, lemma_untried_count_bound, nth_untried_from,
    takes_lead, uniform_effect, untried_count, WeightedSelect, weighted_effect, left_count, marked_count, lemma_left_count_bound,
    lemma_untried_above,
};
use crate::node::{EntryMode, NodeResult, act_of};
use crate::order::{
    Order, OrderedState, Shuffled, Weighted, lemma_pick_in_range, pick_effect, visit_effect,
};
use crate::semantics::{
    active_index, active_position, child_effect, control_loop, control_state_of, loop_measure,
    lemma_loop_measure, position_run, repeat_while_state_of, slot_tick, tick,
};
use crate::tree::{
    ActionNode, ActionWhile, ControlNode, ControlState, MapAct, Named, Node, NodeState, Outcome,
    ReevaluateWhen, Remap, RepeatWhile, fresh_control_state,
};

verus! {

// --- fresh invocations ---------------------------------------------------------

/// Ordered children whose policy may come back to position 0 within one
/// update are reordered there under Evaluate only, so only they see the mode
/// an update enters with.
pub open spec fn revisits_first(control: ControlNode) -> bool {
    control.order is Some && !(control.policy is Sequence || control.policy is Selector
        || control.policy is IfElse)
}

/// No control that [`revisits_first`] is entered in the mode of the update:
/// none at the root or under decorators that pass the mode on. Children of a
/// control are entered afresh with Evaluate, so they do not count.
pub open spec fn mode_blind(node: Node) -> bool
    decreases node,
{
    match node {
        Node::Control(control) => !revisits_first(control),
        Node::Guarded(guarded) => mode_blind(guarded.child),
        Node::Remap(remap) => mode_blind(remap.child),
        Node::RepeatWhile(repeat) => mode_blind(repeat.child),
        Node::MapAct(map) => mode_blind(map.child),
        Node::ReevaluateWhen(reevaluate) => mode_blind(reevaluate.child),
        Node::Named(named) => mode_blind(named.node),
        _ => true,
    }
}

/// A control loop that holds no running child runs every child it reaches as
/// a fresh candidate, so its mode makes no difference, as long as an ordered
/// pass is not asked for its first position again.
proof fn lemma_fresh_loop_ignores_mode<A, H: BtContext<A>>(
    control: ControlNode,
    op: ControlOp,
    inner: PolicyState,
    ordered: OrderedState,
    ctx: H,
)
    requires
        !revisits_first(control),
        control.order is Some && op == ControlOp::RunChild(0) ==> ordered.at is None,
    ensures
        control_loop(
            control,
            op,
            ControlState { children: None, inner, ordered },
            ctx,
            EntryMode::Resume,
        ) == control_loop(
            control,
            op,
            ControlState { children: None, inner, ordered },
            ctx,
            EntryMode::Evaluate,
        ),
    decreases loop_measure(control.policy, op, inner, control.children@.len()),
{
    if let ControlOp::RunChild(index) = op {
        let count = control.children.len();
        if index < count {
            let state = ControlState::<H::ActionState> { children: None, inner, ordered };
            let (after, c, r) = position_run::<A, H>(control, index, state, ctx, EntryMode::Resume);
            if let Some(order) = control.order {
                let (o1, c1, chosen1) = visit_effect(order, ordered, None, ctx, index, count, EntryMode::Resume);
                assert(visit_effect(order, ordered, None, ctx, index, count, EntryMode::Resume)
                    == visit_effect(order, ordered, None, ctx, index, count, EntryMode::Evaluate));
                if let Some(Some(j)) = chosen1 {
                    if j < count {
                        let child = control.children@[j as int];
                        assert(child_effect::<A, H>(child, j, None, c1, EntryMode::Resume) == child_effect::<
                            A,
                            H,
                        >(child, j, None, c1, EntryMode::Evaluate));
                    }
                }
            } else {
                let child = control.children@[index as int];
                assert(child_effect::<A, H>(child, index, None, ctx, EntryMode::Resume) == child_effect::<
                    A,
                    H,
                >(child, index, None, ctx, EntryMode::Evaluate));
            }
            assert(position_run::<A, H>(control, index, state, ctx, EntryMode::Resume)
                == position_run::<A, H>(control, index, state, ctx, EntryMode::Evaluate));
            if !(r is Running) {
                assert(after.children is None);
                if r is Success {
                    let (next_inner, c2, next) = crate::control::succeeded_effect(
                        control.policy,
                        inner,
                        c,
                        index,
                        count,
                    );
                    lemma_loop_measure(control.policy, inner, c, index, count, true);
                    lemma_fresh_loop_ignores_mode(control, next, next_inner, after.ordered, c2);
                } else {
                    let (next_inner, c2, next) = crate::control::failed_effect(
                        control.policy,
                        inner,
                        c,
                        index,
                        count,
                    );
                    lemma_loop_measure(control.policy, inner, c, index, count, false);
                    lemma_fresh_loop_ignores_mode(control, next, next_inner, after.ordered, c2);
                }
            }
        }
    }
}

/// A fresh invocation is the same under Resume and Evaluate, for a tree in
/// which no control that may revisit the first of its ordered children is
/// entered in the update's own mode (see [`mode_blind`]).
pub proof fn law_fresh_entry_ignores_mode<A, H: BtContext<A>>(node: Node, ctx: H)
    requires
        mode_blind(node),
    ensures
        tick(node, NodeState::Empty, ctx, EntryMode::Resume) == tick(
            node,
            NodeState::Empty,
            ctx,
            EntryMode::Evaluate,
        ),
    decreases node,
{
    match node {
        Node::Guarded(guarded) => {
            law_fresh_entry_ignores_mode::<A, H>(guarded.child, ctx);
        },
        Node::Control(control) => {
            let count = control.children.len();
            let fresh = fresh_control_state::<H::ActionState>();
            let (inner, c, op) = crate::control::begin_effect(
                control.policy,
                fresh.inner,
                ctx,
                None,
                count,
            );
            lemma_fresh_loop_ignores_mode::<A, H>(control, op, inner, fresh.ordered, c);
        },
        Node::Remap(remap) => {
            law_fresh_entry_ignores_mode::<A, H>(remap.child, ctx);
        },
        Node::RepeatWhile(repeat) => {
            law_fresh_entry_ignores_mode::<A, H>(repeat.child, ctx);
        },
        Node::MapAct(map) => {
            law_fresh_entry_ignores_mode::<A, H>(map.child, ctx);
        },
        Node::ReevaluateWhen(reevaluate) => {
            law_fresh_entry_ignores_mode::<A, H>(reevaluate.child, ctx);
        },
        Node::Named(named) => {
            law_fresh_entry_ignores_mode::<A, H>(named.node, ctx);
        },
        _ => {},
    }
}

/// An update through a slot keeps the invocation exactly while it runs: a
/// running result leaves state in the slot, a terminal one clears it, and
/// only a running result carries an act.
pub proof fn law_terminal_ends_invocation<A, H: BtContext<A>>(
    node: Node,
    slot: Option<NodeState<H::ActionState>>,
    ctx: H,
    mode: EntryMode,
)
    ensures
        ({
            let (after, _, r) = slot_tick(node, slot, ctx, mode);
            &&& (after is Some <==> r is Running)
            &&& (act_of(r) is Some <==> r is Running)
        }),
{
}

/// An empty slot enters with Evaluate, whatever mode the update asks for.
pub proof fn law_empty_slot_enters_with_evaluate<A, H: BtContext<A>>(node: Node, ctx: H)
    ensures
        slot_tick(node, None, ctx, EntryMode::Resume) == slot_tick(
            node,
            None,
            ctx,
            EntryMode::Evaluate,
        ),
        slot_tick(node, None, ctx, EntryMode::Resume).2 == tick(
            node,
            NodeState::Empty,
            ctx,
            EntryMode::Evaluate,
        ).2,
{
}

// --- controls -------------------------------------------------------------------

/// Resume follows the saved selection: a control holding a running child goes
/// straight back to it, without asking its policy.
pub proof fn law_resume_follows_saved_child<A, H: BtContext<A>>(
    control: ControlNode,
    state: NodeState<H::ActionState>,
    ctx: H,
)
    requires
        active_position(control, control_state_of(state)) is Some,
    ensures
        tick(Node::Control(control), state, ctx, EntryMode::Resume) == control_loop(
            control,
            ControlOp::RunChild(active_position(control, control_state_of(state))->0),
            control_state_of(state),
            ctx,
            EntryMode::Resume,
        ),
{
}

/// Evaluate does not reset state: a sequence, repeat, retry, random or
/// weighted selector, or shuffled sequence holding a running child continues from it under
/// either mode, with its counters and tried children as they were. A sequence
/// does not replay the children that already succeeded.
pub proof fn law_evaluate_keeps_the_running_child<A, H: BtContext<A>>(
    control: ControlNode,
    state: NodeState<H::ActionState>,
    ctx: H,
    mode: EntryMode,
)
    requires
        control.policy is Sequence || control.policy is Repeat || control.policy is Retry
            || control.policy is RandomSelect || control.policy is ShuffleSeq
            || control.policy is WeightedSelect,
        0 < control.children.len() <= 64,
        active_position(control, control_state_of(state)) is Some,
    ensures
        tick(Node::Control(control), state, ctx, mode) == control_loop(
            control,
            ControlOp::RunChild(active_position(control, control_state_of(state))->0),
            control_state_of(state),
            ctx,
            mode,
        ),
{
}

/// Resume passes down the tree: a control holding a running child resumes
/// that child with its saved state in Resume too, so a running branch deeper
/// down is kept as well. While the child runs, the control reports its act
/// and keeps its new state; once it ends, the control's policy is asked with
/// that outcome.
pub proof fn law_resume_passes_down<A, H: BtContext<A>>(
    control: ControlNode,
    state: NodeState<H::ActionState>,
    ctx: H,
)
    requires
        control.order is None,
        control_state_of(state).children matches Some((j, _)) && j < control.children.len(),
    ensures
        ({
            let saved = control_state_of(state);
            let j = (saved.children->0).0;
            let child_state = *(saved.children->0).1;
            let (after, c, r) = tick(control.children@[j as int], child_state, ctx, EntryMode::Resume);
            let result = tick(Node::Control(control), state, ctx, EntryMode::Resume);
            &&& r is Running ==> result == (
                NodeState::Control(
                    ControlState {
                        children: Some((j, Box::new(after))),
                        inner: saved.inner,
                        ordered: saved.ordered,
                    },
                ),
                c,
                r,
            )
            &&& r is Success ==> ({
                let (inner, c2, next) = crate::control::succeeded_effect(
                    control.policy,
                    saved.inner,
                    c,
                    j,
                    control.children.len(),
                );
                result == control_loop(
                    control,
                    next,
                    ControlState { children: None, inner, ordered: saved.ordered },
                    c2,
                    EntryMode::Resume,
                )
            })
            &&& r is Failure ==> ({
                let (inner, c2, next) = crate::control::failed_effect(
                    control.policy,
                    saved.inner,
                    c,
                    j,
                    control.children.len(),
                );
                result == control_loop(
                    control,
                    next,
                    ControlState { children: None, inner, ordered: saved.ordered },
                    c2,
                    EntryMode::Resume,
                )
            })
        }),
{
    let saved = control_state_of(state);
    let j = (saved.children->0).0;
    let count = control.children.len();
    assert(active_position(control, saved) == Some(j));
    assert(tick::<A, H>(Node::Control(control), state, ctx, EntryMode::Resume) == control_loop::<A, H>(
        control,
        ControlOp::RunChild(j),
        saved,
        ctx,
        EntryMode::Resume,
    ));
    let eff = child_effect::<A, H>(control.children@[j as int], j, saved.children, ctx, EntryMode::Resume);
    let run = position_run::<A, H>(control, j, saved, ctx, EntryMode::Resume);
    assert(run == (
        ControlState { children: eff.0, inner: saved.inner, ordered: saved.ordered },
        eff.1,
        eff.2,
    ));
    let (after, c, r) = tick::<A, H>(
        control.children@[j as int],
        *(saved.children->0).1,
        ctx,
        EntryMode::Resume,
    );
    assert(eff == (if r is Running {
        Some((j, Box::new(after)))
    } else {
        None::<(usize, Box<NodeState<H::ActionState>>)>
    }, c, r));
}

/// A sequence and a shuffled sequence fail on the first failure: when the
/// child run at a position fails, the control ends with Failure at once, its
/// policy state as it was.
pub proof fn law_sequences_fail_on_first_failure<A, H: BtContext<A>>(
    control: ControlNode,
    index: usize,
    state: ControlState<H::ActionState>,
    ctx: H,
    mode: EntryMode,
)
    requires
        control.policy is Sequence || control.policy is ShuffleSeq,
        index < control.children.len(),
    ensures
        ({
            let (after, c, r) = position_run::<A, H>(control, index, state, ctx, mode);
            r is Failure ==> control_loop(control, ControlOp::RunChild(index), state, ctx, mode) == (
                NodeState::Control(
                    ControlState { children: after.children, inner: state.inner, ordered: after.ordered },
                ),
                c,
                NodeResult::<A>::Failure,
            )
        }),
{
    let (after, c, r) = position_run::<A, H>(control, index, state, ctx, mode);
    if r is Failure {
        let (inner, c2, next) = crate::control::failed_effect(
            control.policy,
            state.inner,
            c,
            index,
            control.children.len(),
        );
        assert(inner == state.inner && c2 == c && next == ControlOp::Failure);
        let rest = ControlState { children: after.children, inner, ordered: after.ordered };
        assert(control_loop::<A, H>(control, ControlOp::RunChild(index), state, ctx, mode)
            == control_loop::<A, H>(control, next, rest, c2, mode));
    }
}

/// Evaluate makes a selector scan again from its first child.
pub proof fn law_selector_evaluate_scans_from_first<A, H: BtContext<A>>(
    control: ControlNode,
    state: NodeState<H::ActionState>,
    ctx: H,
)
    requires
        control.policy is Selector,
        control.children.len() > 0,
    ensures
        tick(Node::Control(control), state, ctx, EntryMode::Evaluate) == control_loop(
            control,
            ControlOp::RunChild(0),
            control_state_of(state),
            ctx,
            EntryMode::Evaluate,
        ),
{
}

/// Under Evaluate, a selector's first child that now runs preempts the child
/// that was running: it becomes the saved child, and the old one is dropped.
pub proof fn law_selector_preempts<A, H: BtContext<A>>(
    control: ControlNode,
    state: NodeState<H::ActionState>,
    ctx: H,
)
    requires
        control.policy is Selector,
        control.order is None,
        control.children.len() > 0,
        active_index(control_state_of(state)) matches Some(j) && j != 0,
        tick(control.children@[0], NodeState::Empty, ctx, EntryMode::Evaluate).2 is Running,
    ensures
        ({
            let (after, c, r) = tick(Node::Control(control), state, ctx, EntryMode::Evaluate);
            let (child_after, child_ctx, child_result) = tick(
                control.children@[0],
                NodeState::Empty,
                ctx,
                EntryMode::Evaluate,
            );
            &&& r == child_result
            &&& c == child_ctx
            &&& after == NodeState::Control(
                ControlState {
                    children: Some((0usize, Box::new(child_after))),
                    inner: control_state_of(state).inner,
                    ordered: control_state_of(state).ordered,
                },
            )
        }),
{
    let saved = control_state_of(state);
    let result = control_loop::<A, H>(control, ControlOp::RunChild(0), saved, ctx, EntryMode::Evaluate);
    assert(tick::<A, H>(Node::Control(control), state, ctx, EntryMode::Evaluate) == result);
    let (children, c, r) = child_effect::<A, H>(
        control.children@[0],
        0,
        saved.children,
        ctx,
        EntryMode::Evaluate,
    );
    assert(r is Running);
    let (after, c1, r1) = position_run::<A, H>(control, 0, saved, ctx, EntryMode::Evaluate);
    assert(after.children == children && c1 == c && r1 == r);
}

/// An empty sequence succeeds, and an empty selector fails, without touching
/// the context.
pub proof fn law_empty_controls<A, H: BtContext<A>>(control: ControlNode, ctx: H, mode: EntryMode)
    requires
        control.children.len() == 0,
    ensures
        control.policy is Sequence ==> ({
            let (_, c, r) = tick::<A, H>(Node::Control(control), NodeState::Empty, ctx, mode);
            c == ctx && r is Success
        }),
        control.policy is Selector ==> ({
            let (_, c, r) = tick::<A, H>(Node::Control(control), NodeState::Empty, ctx, mode);
            c == ctx && r is Failure
        }),
{
    let saved = control_state_of::<H::ActionState>(NodeState::Empty);
    let (inner, c, op) = crate::control::begin_effect(control.policy, saved.inner, ctx, None, 0);
    let result = control_loop::<A, H>(
        control,
        op,
        ControlState { children: None, inner, ordered: saved.ordered },
        c,
        mode,
    );
    assert(tick::<A, H>(Node::Control(control), NodeState::Empty, ctx, mode) == result);
}

/// `repeat(0, ..)` succeeds and `retry(0, ..)` fails, without running the
/// child.
pub proof fn law_zero_repeats<A, H: BtContext<A>>(control: ControlNode, ctx: H, mode: EntryMode)
    ensures
        control.policy matches Policy::Repeat(times) && times.0 == 0 ==> ({
            let (_, c, r) = tick::<A, H>(Node::Control(control), NodeState::Empty, ctx, mode);
            c == ctx && r is Success
        }),
        control.policy matches Policy::Retry(attempts) && attempts.0 == 0 ==> ({
            let (_, c, r) = tick::<A, H>(Node::Control(control), NodeState::Empty, ctx, mode);
            c == ctx && r is Failure
        }),
{
    let saved = control_state_of::<H::ActionState>(NodeState::Empty);
    let count = control.children.len();
    let (inner, c, op) = crate::control::begin_effect(control.policy, saved.inner, ctx, None, count);
    let result = control_loop::<A, H>(
        control,
        op,
        ControlState { children: None, inner, ordered: saved.ordered },
        c,
        mode,
    );
    assert(tick::<A, H>(Node::Control(control), NodeState::Empty, ctx, mode) == result);
}

// --- decorators -----------------------------------------------------------------

/// Inverting twice gives back the child's own result, state and context.
pub proof fn law_double_invert<A, H: BtContext<A>>(
    child: Node,
    state: NodeState<H::ActionState>,
    ctx: H,
    mode: EntryMode,
)
    ensures
        tick(
            Node::Remap(
                Box::new(
                    Remap {
                        child: Node::Remap(
                            Box::new(
                                Remap {
                                    child,
                                    success: Outcome::Failure,
                                    failure: Outcome::Success,
                                },
                            ),
                        ),
                        success: Outcome::Failure,
                        failure: Outcome::Success,
                    },
                ),
            ),
            state,
            ctx,
            mode,
        ) == tick(child, state, ctx, mode),
{
    let inner = Node::Remap(
        Box::new(Remap { child, success: Outcome::Failure, failure: Outcome::Success }),
    );
    let (s, c, r) = tick(child, state, ctx, mode);
    let (s1, c1, r1) = tick(inner, state, ctx, mode);
    assert(s1 == s && c1 == c);
    match r {
        NodeResult::Running(_) => {},
        NodeResult::Success => {
            assert(r1 is Failure);
        },
        NodeResult::Failure => {
            assert(r1 is Success);
        },
    }
}

/// Invert swaps Success and Failure; force_success and force_failure end the
/// same way whatever the child's outcome; Running and its act pass through.
pub proof fn law_remap_results<A, H: BtContext<A>>(
    remap: Remap,
    state: NodeState<H::ActionState>,
    ctx: H,
    mode: EntryMode,
)
    ensures
        ({
            let (s, c, r) = tick(remap.child, state, ctx, mode);
            let (s2, c2, r2) = tick(Node::Remap(Box::new(remap)), state, ctx, mode);
            &&& s2 == s && c2 == c
            &&& r is Running ==> r2 == r
            &&& r is Success ==> (r2 is Success <==> remap.success == Outcome::Success)
            &&& r is Failure ==> (r2 is Success <==> remap.failure == Outcome::Success)
            &&& !(r is Running) ==> !(r2 is Running)
        }),
{
}

/// A guard whose predicate does not hold fails without entering its child:
/// state and context stay as they were. When it holds, the guard is its child.
pub proof fn law_guard<A, H: BtContext<A>>(
    predicate: usize,
    child: Node,
    state: NodeState<H::ActionState>,
    ctx: H,
    mode: EntryMode,
)
    ensures
        !ctx.holds(predicate) ==> tick(
            Node::Guarded(Box::new(crate::tree::Guarded { predicate, child })),
            state,
            ctx,
            mode,
        ) == (state, ctx, NodeResult::<A>::Failure),
        ctx.holds(predicate) ==> tick(
            Node::Guarded(Box::new(crate::tree::Guarded { predicate, child })),
            state,
            ctx,
            mode,
        ) == tick(child, state, ctx, mode),
{
}

/// A converted act is the only change: the child's state, context and
/// terminal results pass through, and its act goes through the conversion.
pub proof fn law_map_act_converts_the_act_only<A, H: BtContext<A>>(
    map: usize,
    child: Node,
    state: NodeState<H::ActionState>,
    ctx: H,
    mode: EntryMode,
)
    ensures
        ({
            let (s, c, r) = tick(child, state, ctx, mode);
            let (s2, c2, r2) = tick(
                Node::MapAct(Box::new(MapAct { map, child })),
                state,
                ctx,
                mode,
            );
            &&& s2 == s && c2 == c
            &&& r2 == match r {
                NodeResult::Running(act) => NodeResult::Running(H::mapped(map, act)),
                NodeResult::Success => NodeResult::Success,
                NodeResult::Failure => NodeResult::Failure,
            }
        }),
{
}

/// A name is for debug views only: a named node runs exactly as the node
/// does.
pub proof fn law_names_do_not_run<A, H: BtContext<A>>(
    named: Named,
    state: NodeState<H::ActionState>,
    ctx: H,
    mode: EntryMode,
)
    ensures
        tick(Node::Named(Box::new(named)), state, ctx, mode) == tick(named.node, state, ctx, mode),
{
}

/// While its condition holds, `reevaluate_when` turns Resume into Evaluate
/// for its child; otherwise the child sees the update's own mode.
pub proof fn law_reevaluate_when<A, H: BtContext<A>>(
    condition: usize,
    child: Node,
    state: NodeState<H::ActionState>,
    ctx: H,
    mode: EntryMode,
)
    ensures
        tick(
            Node::ReevaluateWhen(Box::new(ReevaluateWhen { condition, child })),
            state,
            ctx,
            mode,
        ) == tick(
            child,
            state,
            ctx,
            if ctx.holds(condition) {
                EntryMode::Evaluate
            } else {
                mode
            },
        ),
{
}

/// `repeat_while` is a goal: when its condition does not hold it succeeds at
/// once, without running its child or touching the context. A child that
/// fails while the condition still holds fails it.
pub proof fn law_repeat_while_is_a_goal<A, H: BtContext<A>>(
    condition: usize,
    child: Node,
    state: NodeState<H::ActionState>,
    ctx: H,
    mode: EntryMode,
)
    ensures
        ({
            let node = Node::RepeatWhile(Box::new(RepeatWhile { condition, child }));
            let (_, c, r) = tick(node, state, ctx, mode);
            let (_, child_ctx, child_result) = tick(
                child,
                *repeat_while_state_of(state).child,
                ctx,
                mode,
            );
            &&& !ctx.holds(condition) ==> c == ctx && r is Success
            &&& ctx.holds(condition) && child_result is Failure && child_ctx.holds(condition) ==> c
                == child_ctx && r is Failure
        }),
{
}

/// An action runs its lifecycle: it fails when it cannot start; while in
/// progress it is ticked and reports the act of that tick, keeping its state;
/// once no longer in progress it completes and ends with Success exactly when
/// the completion reports success, and Failure otherwise.
pub proof fn law_action_lifecycle<A, H: BtContext<A>>(
    action: usize,
    state: NodeState<H::ActionState>,
    ctx: H,
    mode: EntryMode,
)
    ensures
        ({
            let (after, c, r) = tick(Node::Action(ActionNode(action)), state, ctx, mode);
            let (started_ctx, started) = match state {
                NodeState::Action(s) => (ctx, Some(s)),
                _ => ctx.start_effect(action),
            };
            &&& started is None ==> c == started_ctx && r is Failure && after == NodeState::<
                H::ActionState,
            >::Empty
            &&& started is Some && started_ctx.in_progress(action, started->0) ==> ({
                let (c2, s2, act) = started_ctx.tick_effect(action, started->0);
                c == c2 && r == NodeResult::Running(act) && after == NodeState::Action(s2)
            })
            &&& started is Some && !started_ctx.in_progress(action, started->0) ==> ({
                let (c2, _, succeeded) = started_ctx.complete_effect(action, started->0);
                &&& c == c2
                &&& after == NodeState::<H::ActionState>::Empty
                &&& (r is Success <==> succeeded)
                &&& (r is Failure <==> !succeeded)
            })
        }),
{
}

/// `repeat_while` asks its condition again whenever its child ends: when it
/// no longer holds, the node succeeds, whatever the child returned and whether
/// or not it ran before.
pub proof fn law_repeat_while_succeeds_once_the_condition_ends<A, H: BtContext<A>>(
    condition: usize,
    child: Node,
    state: NodeState<H::ActionState>,
    ctx: H,
    mode: EntryMode,
)
    ensures
        ({
            let node = Node::RepeatWhile(Box::new(RepeatWhile { condition, child }));
            let (_, c, r) = tick(node, state, ctx, mode);
            let (_, child_ctx, child_result) = tick(
                child,
                *repeat_while_state_of(state).child,
                ctx,
                mode,
            );
            ctx.holds(condition) && !(child_result is Running) && !child_ctx.holds(condition) ==> c
                == child_ctx && r is Success
        }),
{
}

/// `action_while` reports its act while its condition holds, and succeeds
/// once it does not; it never changes the context.
pub proof fn law_action_while<A, H: BtContext<A>>(
    condition: usize,
    act: usize,
    state: NodeState<H::ActionState>,
    ctx: H,
    mode: EntryMode,
)
    ensures
        ({
            let (_, c, r) = tick(
                Node::ActionWhile(ActionWhile { condition, act }),
                state,
                ctx,
                mode,
            );
            &&& c == ctx
            &&& r == if ctx.holds(condition) {
                NodeResult::Running(ctx.act_of(act))
            } else {
                NodeResult::Success
            }
        }),
{
}

// --- choices --------------------------------------------------------------------

/// What the best-so-far fold keeps among untried children below `from`: the
/// leader scores at least as much as each of them, and a child tied with it is
/// neither running nor, unless the leader is running, before it.
pub open spec fn leads<A, H: BtContext<A>>(
    utility: Utility,
    ctx: H,
    tried: u64,
    active: Option<usize>,
    from: nat,
    best: Option<(usize, int)>,
) -> bool {
    match best {
        None => forall|k: nat| k < from ==> !is_untried(tried, k),
        Some((j, score)) => {
            &&& j < from
            &&& is_untried(tried, j as nat)
            &&& score == effective_score(utility, ctx, j as nat, active)
            &&& forall|k: nat|
                #![trigger is_untried(tried, k)]
                k < from && is_untried(tried, k) ==> {
                    let other = effective_score(utility, ctx, k, active);
                    &&& other <= score
                    &&& (other == score && k != j ==> active != Some(k as usize) && (active == Some(j)
                        || j < k))
                }
        },
    }
}

proof fn lemma_best_from_leads<A, H: BtContext<A>>(
    utility: Utility,
    ctx: H,
    tried: u64,
    count: nat,
    active: Option<usize>,
    from: nat,
    best: Option<(usize, int)>,
)
    requires
        count <= 64,
        from <= count,
        leads(utility, ctx, tried, active, from, best),
    ensures
        leads(utility, ctx, tried, active, count, best_from(utility, ctx, tried, count, active, from, best)),
    decreases count - from,
{
    if from < count {
        if !is_untried(tried, from) {
            assert(leads(utility, ctx, tried, active, from + 1, best));
            lemma_best_from_leads(utility, ctx, tried, count, active, from + 1, best);
        } else {
            let score = effective_score(utility, ctx, from, active);
            let keeps = active == Some(from as usize);
            let next = if takes_lead(best, score, keeps) {
                Some((from as usize, score))
            } else {
                best
            };
            assert(leads(utility, ctx, tried, active, from + 1, next));
            lemma_best_from_leads(utility, ctx, tried, count, active, from + 1, next);
        }
    }
}

/// The utility policy runs the best untried child: none scores higher, and a
/// tie keeps the running child, and otherwise goes to the lower index. It
/// finds none only when every child was tried.
pub proof fn law_utility_picks_best<A, H: BtContext<A>>(
    utility: Utility,
    ctx: H,
    tried: u64,
    count: nat,
    active: Option<usize>,
)
    requires
        count <= 64,
    ensures
        match best_child(utility, ctx, tried, count, active) {
            Some(j) => {
                &&& j < count
                &&& is_untried(tried, j as nat)
                &&& forall|k: nat|
                    #![trigger is_untried(tried, k)]
                    k < count && is_untried(tried, k) ==> {
                        let best = effective_score(utility, ctx, j as nat, active);
                        let other = effective_score(utility, ctx, k, active);
                        &&& other <= best
                        &&& (other == best && k != j ==> active != Some(k as usize) && (active
                            == Some(j) || j < k))
                    }
            },
            None => forall|k: nat| k < count ==> !is_untried(tried, k),
        },
{
    lemma_best_from_leads(utility, ctx, tried, count, active, 0, None);
}

/// Inertia goes to the running child alone: the utility policy runs an
/// untried child whose raw score, plus the bonus when it is the running
/// child, is at least that of every other untried child; a tie goes to the
/// running child, and otherwise to the lower index. With no running child the
/// raw scores alone decide.
pub proof fn law_utility_bonus_only_for_the_running_child<A, H: BtContext<A>>(
    utility: Utility,
    ctx: H,
    tried: u64,
    count: nat,
    active: Option<usize>,
)
    requires
        count <= 64,
    ensures
        best_child(utility, ctx, tried, count, active) matches Some(j) ==> forall|k: nat|
            #![trigger is_untried(tried, k)]
            k < count && is_untried(tried, k) ==> ({
                let raw_j = ctx.score_of(utility.scorer(), j) as int;
                let raw_k = ctx.score_of(utility.scorer(), k as usize) as int;
                let bonus_j = if active == Some(j) && utility.bonus() is Some {
                    utility.bonus()->0 as int
                } else {
                    0
                };
                let bonus_k = if active == Some(k as usize) && utility.bonus() is Some {
                    utility.bonus()->0 as int
                } else {
                    0
                };
                &&& raw_k + bonus_k <= raw_j + bonus_j
                &&& (raw_k + bonus_k == raw_j + bonus_j && k != j ==> active != Some(k as usize) && (
                active == Some(j) || j < k))
                &&& active is None ==> raw_k <= raw_j
            }),
{
    law_utility_picks_best(utility, ctx, tried, count, active);
    match best_child(utility, ctx, tried, count, active) {
        Some(j) => {
            assert forall|k: nat| k < count && is_untried(tried, k) implies ({
                let raw_j = ctx.score_of(utility.scorer(), j) as int;
                let raw_k = ctx.score_of(utility.scorer(), k as usize) as int;
                let bonus_j = if active == Some(j) && utility.bonus() is Some {
                    utility.bonus()->0 as int
                } else {
                    0
                };
                let bonus_k = if active == Some(k as usize) && utility.bonus() is Some {
                    utility.bonus()->0 as int
                } else {
                    0
                };
                &&& raw_k + bonus_k <= raw_j + bonus_j
                &&& (raw_k + bonus_k == raw_j + bonus_j && k != j ==> active != Some(k as usize) && (
                active == Some(j) || j < k))
                &&& active is None ==> raw_k <= raw_j
            }) by {
                assert(is_untried(tried, k));
                assert((k as usize) as nat == k);
            }
        },
        None => {},
    }
}

/// A random draw runs a child that was not tried yet in this invocation, and
/// marks it tried, leaving the rest as they were: a child that failed is not
/// drawn again. It ends with `none` only when there are at least as many marks
/// as children, so, with no marks beyond the children, only when every child
/// was tried.
pub proof fn law_random_draw_is_untried<A, H: BtContext<A>>(
    rng: usize,
    tried: u64,
    ctx: H,
    count: usize,
    none: ControlOp,
)
    requires
        count <= 64,
        !(none is RunChild),
    ensures
        ({
            let (_, after, op) = uniform_effect(rng, tried, ctx, count, none);
            &&& op matches ControlOp::RunChild(j) ==> {
                &&& j < count
                &&& is_untried(tried, j as nat)
                &&& !is_untried(after, j as nat)
                &&& forall|k: nat| k != j ==> is_untried(after, k) == is_untried(tried, k)
            }
            &&& op == none ==> marked_count(tried) >= count
            &&& op == none && (forall|k: nat| count <= k < 64 ==> is_untried(tried, k))
                ==> untried_count(tried, count as nat) == 0
        }),
{
    let left = left_count(tried, count as nat);
    lemma_untried_count_bound(tried, 64);
    if (forall|k: nat| count <= k < 64 ==> is_untried(tried, k)) {
        lemma_untried_above(tried, count as nat, 64);
    }
    if left > 0 {
        let (_, number) = ctx.draw_effect(rng);
        let nth = (number as nat) % left;
        lemma_untried_count_bound(tried, 0);
        lemma_left_count_bound(tried, count as nat);
        lemma_nth_untried(tried, count as nat, 0, nth);
        let j = nth_untried_from(tried, count as nat, 0, nth)->0;
        assert(j < count);
        assert forall|k: nat| true implies is_untried(tried | bit(j), k) == (k != j && is_untried(
            tried,
            k,
        )) by {
            lemma_mark(tried, j, k);
        }
        let (_, after, op) = uniform_effect(rng, tried, ctx, count, none);
        assert(op == ControlOp::RunChild(j as usize));
        assert(after == tried | bit(j));
        assert((j as usize) as nat == j);
    }
}

/// A weighted draw runs a child that was not tried yet in this invocation and
/// marks it tried, leaving the rest as they were: a child that failed is not
/// drawn again. It fails when the context's draw gives no such child.
pub proof fn law_weighted_draw_is_untried<A, H: BtContext<A>>(
    weighted: WeightedSelect,
    tried: u64,
    ctx: H,
    count: usize,
)
    ensures
        ({
            let (_, after, op) = weighted_effect(weighted, tried, ctx, count);
            &&& op matches ControlOp::RunChild(j) ==> {
                &&& j < count
                &&& is_untried(tried, j as nat)
                &&& !is_untried(after, j as nat)
                &&& forall|k: nat| k != j ==> is_untried(after, k) == is_untried(tried, k)
            }
            &&& !(op is RunChild) ==> op is Failure && after == tried
        }),
{
    let (_, after, op) = weighted_effect(weighted, tried, ctx, count);
    if let ControlOp::RunChild(j) = op {
        assert forall|k: nat| k != j implies is_untried(after, k) == is_untried(tried, k) by {
            lemma_mark(tried, j as nat, k);
        }
        lemma_mark(tried, j as nat, j as nat);
    }
}

// --- ordered children ---------------------------------------------------------

/// Resume never reorders: an ordered control holding a running child goes
/// back to the position it was at, and that position keeps its child without
/// asking the order.
pub proof fn law_resume_never_reorders<A, H: BtContext<A>>(
    control: ControlNode,
    state: NodeState<H::ActionState>,
    ctx: H,
)
    requires
        control.order is Some,
        control_state_of(state).children is Some,
        control_state_of(state).ordered.at is Some,
    ensures
        ({
            let saved = control_state_of(state);
            let (position, child) = saved.ordered.at->0;
            &&& tick(Node::Control(control), state, ctx, EntryMode::Resume) == control_loop(
                control,
                ControlOp::RunChild(position),
                saved,
                ctx,
                EntryMode::Resume,
            )
            &&& visit_effect(
                control.order->0,
                saved.ordered,
                active_index(saved),
                ctx,
                position,
                control.children.len(),
                EntryMode::Resume,
            ) == (saved.ordered, ctx, Some(child))
        }),
{
}

/// Under Evaluate a selector over children ordered by score starts every
/// update from the best-scoring child, as a utility policy would pick it, so
/// a better child preempts the running one.
pub proof fn law_by_score_starts_from_the_best<A, H: BtContext<A>>(
    control: ControlNode,
    state: NodeState<H::ActionState>,
    ctx: H,
)
    requires
        control.policy is Selector,
        control.order matches Some(Order::ByScore(_)),
        0 < control.children.len() <= 64,
    ensures
        ({
            let saved = control_state_of(state);
            let order = control.order->0;
            let rating = order->ByScore_0.rating();
            let best = best_child(rating, ctx, 0, control.children.len() as nat, active_index(saved));
            &&& tick(Node::Control(control), state, ctx, EntryMode::Evaluate) == control_loop(
                control,
                ControlOp::RunChild(0),
                saved,
                ctx,
                EntryMode::Evaluate,
            )
            &&& visit_effect(
                order,
                saved.ordered,
                active_index(saved),
                ctx,
                0,
                control.children.len(),
                EntryMode::Evaluate,
            ) == (OrderedState { used: 0, at: Some((0usize, best)) }, ctx, Some(best))
        }),
{
    let saved = control_state_of(state);
    let order = control.order->0;
    let rating = order->ByScore_0.rating();
    let count = control.children.len();
    crate::control::lemma_best_from_untried(rating, ctx, 0, count as nat, active_index(saved), 0, None);
}

/// A random order keeps the running child first when a pass starts again,
/// without drawing: a random choice holds while it runs.
pub proof fn law_shuffled_keeps_the_running_child<A, H: BtContext<A>>(
    rng: usize,
    ctx: H,
    running: usize,
    count: usize,
)
    requires
        running < count <= 64,
    ensures
        pick_effect(Order::Shuffled(Shuffled(rng)), ctx, 0, Some(running), count) == (ctx, Some(
            running,
        )),
{
    crate::control::lemma_zero_untried(running as u64);
}

/// A weighted order keeps the running child first when a pass starts again,
/// without drawing: a weighted choice holds while it runs.
pub proof fn law_weighted_keeps_the_running_child<A, H: BtContext<A>>(
    weighted: Weighted,
    ctx: H,
    running: usize,
    count: usize,
)
    requires
        running < count <= 64,
    ensures
        pick_effect(Order::Weighted(weighted), ctx, 0, Some(running), count) == (ctx, Some(running)),
{
    crate::control::lemma_zero_untried(running as u64);
}

/// No child is offered at two positions of a pass: moving on to the next
/// position marks the child before it used, and the order then offers a child
/// that is in range and used at no earlier position.
pub proof fn law_no_child_twice_in_a_pass<A, H: BtContext<A>>(
    order: Order,
    ordered: OrderedState,
    running: Option<usize>,
    ctx: H,
    position: usize,
    count: usize,
    mode: EntryMode,
)
    requires
        position > 0,
        ordered.at matches Some((at, _)) && at + 1 == position,
    ensures
        ({
            let (after, _, chosen) = visit_effect(order, ordered, running, ctx, position, count, mode);
            let previous = (ordered.at->0).1;
            chosen matches Some(Some(j)) ==> {
                &&& j < count
                &&& is_untried(ordered.used, j as nat)
                &&& previous != Some(j)
                &&& after.at == Some((position, Some(j)))
            }
        }),
{
    let previous = (ordered.at->0).1;
    let used = match previous {
        Some(p) => if p < 64 {
            ordered.used | bit(p as nat)
        } else {
            ordered.used
        },
        None => ordered.used,
    };
    lemma_pick_in_range(order, ctx, used, running, count);
    let (_, next) = pick_effect(order, ctx, used, running, count);
    if let (Some(j), Some(p)) = (next, previous) {
        if p < 64 {
            lemma_mark(ordered.used, p as nat, j as nat);
        }
    }
}

// --- the arena ----------------------------------------------------------------

/// The arena's minds repeat every three: a population numbered in order is
/// evenly mixed.
pub proof fn law_minds_cycle(index: nat)
    ensures
        mind_at(index + 3) == mind_at(index),
{
}

} // verus!
