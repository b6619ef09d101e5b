//! Running trees: one update of a node, of a root over a caller-owned slot,
//! and of a root bound to its state.

use vstd::prelude::*;

use crate::context::BtContext;
use crate::control::ControlOp;
use crate::node::{EntryMode, NodeResult};
use crate::semantics::{
    child_effect, control_loop, lemma_loop_measure, loop_measure, position_run,
    slot_tick, tick,
};
use crate::inspect::{
    Describe, FNV_OFFSET_BASIS, Inspector, describe, fnv, inspect, inspected, path_bytes, path_id,
};
use crate::tree::{ControlNode, ControlState, Node, NodeState, Outcome, RepeatWhileState};

verus! {

impl Node {
    /// Runs this node once over `state`, its invocation state (`Empty` for a
    /// fresh invocation), and returns its state afterwards and its result.
    ///
    /// A fresh invocation is entered with Evaluate by whoever starts it; a
    /// node keeps its state while Running, and its caller drops it once it
    /// ends.
    pub fn update<A, H: BtContext<A>>(
        &self,
        state: NodeState<H::ActionState>,
        ctx: &mut H,
        mode: EntryMode,
    ) -> (r: (NodeState<H::ActionState>, NodeResult<A>))
        ensures
            (r.0, *final(ctx), r.1) == tick(*self, state, *old(ctx), mode),
        decreases *self, 0nat,
    {
        match self {
            Node::Leaf(leaf) => {
                let r = ctx.leaf(leaf.0);
                (NodeState::Empty, r)
            },
            Node::Check(check) => {
                if ctx.check(check.0) {
                    (NodeState::Empty, NodeResult::Success)
                } else {
                    (NodeState::Empty, NodeResult::Failure)
                }
            },
            Node::Guarded(guarded) => {
                if ctx.check(guarded.predicate) {
                    guarded.child.update(state, ctx, mode)
                } else {
                    (state, NodeResult::Failure)
                }
            },
            Node::Control(control) => update_control(control, state, ctx, mode),
            Node::Remap(remap) => {
                let (after, r) = remap.child.update(state, ctx, mode);
                let mapped = match r {
                    NodeResult::Running(act) => NodeResult::Running(act),
                    NodeResult::Success => outcome(remap.success),
                    NodeResult::Failure => outcome(remap.failure),
                };
                (after, mapped)
            },
            Node::RepeatWhile(repeat) => {
                let saved = match state {
                    NodeState::RepeatWhile(s) => s,
                    _ => RepeatWhileState { child: Box::new(NodeState::Empty), ran: false },
                };
                if !ctx.check(repeat.condition) {
                    return (NodeState::RepeatWhile(saved), NodeResult::Success);
                }
                let ran = saved.ran;
                let (after, r) = repeat.child.update(*saved.child, ctx, mode);
                if r.is_running() {
                    return (
                        NodeState::RepeatWhile(RepeatWhileState { child: Box::new(after), ran: true }),
                        r,
                    );
                }
                let reset = RepeatWhileState { child: Box::new(NodeState::Empty), ran: false };
                if !ctx.check(repeat.condition) {
                    return (NodeState::RepeatWhile(reset), NodeResult::Success);
                }
                let succeeded = match r {
                    NodeResult::Success => true,
                    _ => false,
                };
                if !(succeeded && ran) {
                    return (NodeState::RepeatWhile(reset), NodeResult::Failure);
                }
                // The child succeeded after running: a fresh run, in this update.
                let (after2, r2) = repeat.child.update(NodeState::Empty, ctx, EntryMode::Evaluate);
                if r2.is_running() {
                    return (
                        NodeState::RepeatWhile(RepeatWhileState { child: Box::new(after2), ran: true }),
                        r2,
                    );
                }
                if !ctx.check(repeat.condition) {
                    return (NodeState::RepeatWhile(reset), NodeResult::Success);
                }
                match r2 {
                    NodeResult::Success => (
                        NodeState::RepeatWhile(reset),
                        NodeResult::error("repeat_while: restarted child completed without running"),
                    ),
                    _ => (NodeState::RepeatWhile(reset), NodeResult::Failure),
                }
            },
            Node::MapAct(map) => {
                let (after, r) = map.child.update(state, ctx, mode);
                let mapped = match r {
                    NodeResult::Running(act) => NodeResult::Running(H::map_act(map.map, act)),
                    NodeResult::Success => NodeResult::Success,
                    NodeResult::Failure => NodeResult::Failure,
                };
                (after, mapped)
            },
            Node::ReevaluateWhen(reevaluate) => {
                let child_mode = match mode {
                    EntryMode::Resume => if ctx.check(reevaluate.condition) {
                        EntryMode::Evaluate
                    } else {
                        mode
                    },
                    EntryMode::Evaluate => mode,
                };
                reevaluate.child.update(state, ctx, child_mode)
            },
            Node::ActionWhile(action) => {
                if ctx.check(action.condition) {
                    let act = ctx.act(action.act);
                    (NodeState::Empty, NodeResult::Running(act))
                } else {
                    (NodeState::Empty, NodeResult::Success)
                }
            },
            Node::Action(action) => {
                let started = match state {
                    NodeState::Action(s) => Some(s),
                    _ => ctx.start(action.0),
                };
                match started {
                    None => (NodeState::Empty, NodeResult::Failure),
                    Some(mut s) => {
                        if ctx.is_in_progress(action.0, &s) {
                            let act = ctx.tick(action.0, &mut s);
                            (NodeState::Action(s), NodeResult::Running(act))
                        } else {
                            let succeeded = ctx.complete(action.0, &mut s);
                            if succeeded {
                                (NodeState::Empty, NodeResult::Success)
                            } else {
                                (NodeState::Empty, NodeResult::Failure)
                            }
                        }
                    },
                }
            },
            Node::Named(named) => named.node.update(state, ctx, mode),
        }
    }
}

fn outcome<A>(terminal: Outcome) -> (r: NodeResult<A>)
    ensures
        r == crate::semantics::outcome_result::<A>(terminal),
{
    match terminal {
        Outcome::Success => NodeResult::Success,
        Outcome::Failure => NodeResult::Failure,
    }
}

/// Runs child `index` of a control whose saved child is `saved`; see
/// [`child_effect`].
fn run_child<A, H: BtContext<A>>(
    child: &Node,
    index: usize,
    saved: Option<(usize, Box<NodeState<H::ActionState>>)>,
    ctx: &mut H,
    mode: EntryMode,
) -> (r: (Option<(usize, Box<NodeState<H::ActionState>>)>, NodeResult<A>))
    ensures
        (r.0, *final(ctx), r.1) == child_effect(*child, index, saved, *old(ctx), mode),
    decreases *child, 1nat,
{
    match saved {
        Some((saved_index, state)) => {
            if saved_index == index {
                let (after, r) = child.update(*state, ctx, mode);
                if r.is_running() {
                    (Some((index, Box::new(after))), r)
                } else {
                    (None, r)
                }
            } else {
                // Preserve the saved child until this candidate is selected.
                let (after, r) = child.update(NodeState::Empty, ctx, EntryMode::Evaluate);
                if r.is_running() {
                    (Some((index, Box::new(after))), r)
                } else {
                    (Some((saved_index, state)), r)
                }
            }
        },
        None => {
            let (after, r) = child.update(NodeState::Empty, ctx, EntryMode::Evaluate);
            if r.is_running() {
                (Some((index, Box::new(after))), r)
            } else {
                (None, r)
            }
        },
    }
}

/// Runs position `index` of a control; see [`position_run`].
fn run_position<A, H: BtContext<A>>(
    control: &ControlNode,
    index: usize,
    state: ControlState<H::ActionState>,
    ctx: &mut H,
    mode: EntryMode,
) -> (r: (ControlState<H::ActionState>, NodeResult<A>))
    ensures
        (r.0, *final(ctx), r.1) == position_run(*control, index, state, *old(ctx), mode),
    decreases *control, 0nat,
{
    let count = control.children.len();
    let ControlState { children, inner, ordered } = state;
    match &control.order {
        None => {
            if index < count {
                let (saved, r) = run_child(&control.children[index], index, children, ctx, mode);
                (ControlState { children: saved, inner, ordered }, r)
            } else {
                (ControlState { children, inner, ordered }, NodeResult::Failure)
            }
        },
        Some(order) => {
            let running = match &children {
                Some((j, _)) => Some(*j),
                None => None,
            };
            let (visited, chosen) = order.visit(ordered, running, ctx, index, count, mode);
            match chosen {
                Some(Some(j)) => {
                    if j < count {
                        let (saved, r) = run_child(&control.children[j], j, children, ctx, mode);
                        (ControlState { children: saved, inner, ordered: visited }, r)
                    } else {
                        (ControlState { children, inner, ordered: visited }, NodeResult::Failure)
                    }
                },
                Some(None) => (ControlState { children, inner, ordered: visited }, NodeResult::Failure),
                None => (
                    ControlState { children, inner, ordered: visited },
                    NodeResult::error("order_by visits positions in order"),
                ),
            }
        },
    }
}

/// One update of a control: the policy picks children until one runs or the
/// policy ends the control.
#[verifier::loop_isolation(false)]
fn update_control<A, H: BtContext<A>>(
    control: &ControlNode,
    state: NodeState<H::ActionState>,
    ctx: &mut H,
    mode: EntryMode,
) -> (r: (NodeState<H::ActionState>, NodeResult<A>))
    ensures
        (r.0, *final(ctx), r.1) == tick(Node::Control(*control), state, *old(ctx), mode),
    decreases *control, 1nat,
{
    let ghost outcome_of_update = tick(Node::Control(*control), state, *ctx, mode);
    let saved = match state {
        NodeState::Control(c) => c,
        _ => ControlState::fresh(),
    };
    let active = match &control.order {
        None => match &saved.children {
            Some((index, _)) => Some(*index),
            None => None,
        },
        Some(_) => match (&saved.children, saved.ordered.at) {
            (Some(_), Some((position, _))) => Some(position),
            _ => None,
        },
    };
    let count = control.children.len();
    let resume = match mode {
        EntryMode::Resume => true,
        EntryMode::Evaluate => false,
    };
    let mut op;
    let mut current;
    if resume && active.is_some() {
        op = ControlOp::RunChild(active.unwrap());
        current = saved;
    } else {
        let (inner, first) = control.policy.begin(saved.inner, ctx, active, count);
        op = first;
        current = ControlState { children: saved.children, inner, ordered: saved.ordered };
    }
    let ghost target = control_loop(*control, op, current, *ctx, mode);
    assert(target == outcome_of_update);
    loop
        invariant
            count == control.children.len(),
            target == outcome_of_update,
            control_loop(*control, op, current, *ctx, mode) == target,
        decreases loop_measure(control.policy, op, current.inner, count as nat),
    {
        match op {
            ControlOp::Success => {
                return (NodeState::Control(current), NodeResult::Success);
            },
            ControlOp::Failure => {
                return (NodeState::Control(current), NodeResult::Failure);
            },
            ControlOp::RunChild(index) => {
                if index >= count {
                    return (
                        NodeState::Control(current),
                        NodeResult::error("control policy returned an invalid child index"),
                    );
                }
                let inner = current.inner;
                let (after, r) = run_position(control, index, current, ctx, mode);
                match r {
                    NodeResult::Running(act) => {
                        return (NodeState::Control(after), NodeResult::Running(act));
                    },
                    NodeResult::Success => {
                        proof {
                            lemma_loop_measure(control.policy, inner, *ctx, index, count, true);
                        }
                        let (next_inner, next) = control.policy.child_succeeded(
                            inner,
                            ctx,
                            index,
                            count,
                        );
                        current = ControlState {
                            children: after.children,
                            inner: next_inner,
                            ordered: after.ordered,
                        };
                        op = next;
                    },
                    NodeResult::Failure => {
                        proof {
                            lemma_loop_measure(control.policy, inner, *ctx, index, count, false);
                        }
                        let (next_inner, next) = control.policy.child_failed(inner, ctx, index, count);
                        current = ControlState {
                            children: after.children,
                            inner: next_inner,
                            ordered: after.ordered,
                        };
                        op = next;
                    },
                }
            },
        }
    }
}

/// Runs a root over caller-owned invocation state.
///
/// An empty slot enters with Evaluate; a terminal result clears it. The
/// caller must pair each slot with one root.
pub fn update_slot<A, H: BtContext<A>>(
    node: &Node,
    slot: &mut Option<NodeState<H::ActionState>>,
    ctx: &mut H,
    mode: EntryMode,
) -> (r: NodeResult<A>)
    ensures
        (*final(slot), *final(ctx), r) == slot_tick(*node, *old(slot), *old(ctx), mode),
{
    let (state, entry_mode) = match slot.take() {
        Some(s) => (s, mode),
        None => (NodeState::Empty, EntryMode::Evaluate),
    };
    let (after, r) = node.update(state, ctx, entry_mode);
    if r.is_running() {
        *slot = Some(after);
    } else {
        *slot = None;
    }
    r
}

/// How a node is entered in one update: its [`EntryMode`].
///
/// A composing node calls each child through it: [`run`](Self::run) for the
/// child whose invocation it holds, [`run_candidate`](Self::run_candidate)
/// for a fresh one.
#[derive(Clone, Copy, Debug, PartialEq, Eq)]
pub struct Entry {
    mode: EntryMode,
}

impl Entry {
    pub closed spec fn entry_mode(self) -> EntryMode {
        self.mode
    }

    /// An entry in `mode`, for calling a node directly.
    pub fn new(mode: EntryMode) -> (r: Self)
        ensures
            r.entry_mode() == mode,
    {
        Entry { mode }
    }

    pub fn mode(self) -> (r: EntryMode)
        ensures
            r == self.entry_mode(),
    {
        self.mode
    }

    /// The same entry under another mode.
    pub fn with_mode(self, mode: EntryMode) -> (r: Self)
        ensures
            r.entry_mode() == mode,
    {
        Entry { mode }
    }

    /// The entry for a child whose invocation this node holds, `offset` nodes
    /// after it in preorder, with a subtree of `nodes`: the same mode.
    pub fn child(self, offset: usize, nodes: usize) -> (r: Self)
        ensures
            r == self,
            r.entry_mode() == self.entry_mode(),
    {
        let _ = (offset, nodes);
        Entry { mode: self.mode }
    }

    /// [`child`](Self::child) for a fresh invocation: mode Evaluate.
    pub fn candidate(self, offset: usize, nodes: usize) -> (r: Self)
        ensures
            r.entry_mode() == EntryMode::Evaluate,
    {
        let _ = (offset, nodes);
        Entry { mode: EntryMode::Evaluate }
    }

    /// Runs `child`, whose invocation the caller holds in `state`, in this
    /// entry's mode.
    pub fn run<A, H: BtContext<A>>(
        self,
        offset: usize,
        child: &Node,
        state: NodeState<H::ActionState>,
        ctx: &mut H,
    ) -> (r: (NodeState<H::ActionState>, NodeResult<A>))
        ensures
            (r.0, *final(ctx), r.1) == tick(*child, state, *old(ctx), self.entry_mode()),
    {
        let _ = offset;
        child.update(state, ctx, self.mode)
    }

    /// [`run`](Self::run) for a fresh invocation of `child`: mode Evaluate,
    /// from the fresh state.
    pub fn run_candidate<A, H: BtContext<A>>(self, offset: usize, child: &Node, ctx: &mut H) -> (r: (
        NodeState<H::ActionState>,
        NodeResult<A>,
    ))
        ensures
            (r.0, *final(ctx), r.1) == tick(*child, NodeState::Empty, *old(ctx), EntryMode::Evaluate),
    {
        let _ = offset;
        child.update(NodeState::Empty, ctx, EntryMode::Evaluate)
    }
}

/// Per-agent state bound to a borrowed root: the root's invocation state,
/// descendants included, or none when no invocation is running.
pub struct BtState<'root, S> {
    root_node: &'root Node,
    root_state: Option<NodeState<S>>,
}

impl<'root, S> BtState<'root, S> {
    /// The root this state is bound to.
    pub closed spec fn root(self) -> Node {
        *self.root_node
    }

    /// The root's invocation state, if an invocation is running.
    pub closed spec fn slot(self) -> Option<NodeState<S>> {
        self.root_state
    }

    /// State for `root_node`, with no invocation running.
    pub fn new(root_node: &'root Node) -> (r: Self)
        ensures
            r.root() == *root_node,
            r.slot() is None,
    {
        BtState { root_node, root_state: None }
    }

    /// Whether an invocation is running.
    pub fn is_running(&self) -> (r: bool)
        ensures
            r == self.slot() is Some,
    {
        self.root_state.is_some()
    }

    /// Drops state and descendants; keeps the root binding.
    pub fn reset(&mut self)
        ensures
            final(self).root() == old(self).root(),
            final(self).slot() is None,
    {
        self.root_state = None;
    }

    /// A text view of the running path, for logs and debugging.
    pub fn describe(&self) -> (r: Describe<'_, S>)
        ensures
            r.described() == (self.root(), self.slot(), false),
    {
        describe(self.root_node, self.root_state.as_ref())
    }

    /// A fingerprint of the running path, to log only when it changes.
    pub fn path_id(&self) -> (r: u64)
        ensures
            r == fnv(FNV_OFFSET_BASIS, path_bytes(self.root(), self.slot())),
    {
        path_id(self.root_node, self.root_state.as_ref())
    }

    /// Reports the tree and its invocation state to `inspector`.
    pub fn inspect<I: Inspector>(&self, inspector: &mut I)
        ensures
            final(inspector).model() == inspected::<S, I>(
                self.root(),
                self.slot(),
                old(inspector).model(),
                None,
                None,
            ),
    {
        inspect(self.root_node, self.root_state.as_ref(), inspector)
    }

    /// Runs the root once. Resume follows the saved selection; Evaluate
    /// revalidates from the root; a fresh invocation always enters as
    /// Evaluate. A terminal result ends the invocation.
    pub fn update<A, H: BtContext<A, ActionState = S>>(&mut self, ctx: &mut H, mode: EntryMode) -> (r:
        NodeResult<A>)
        ensures
            final(self).root() == old(self).root(),
            (final(self).slot(), *final(ctx), r) == slot_tick(
                old(self).root(),
                old(self).slot(),
                *old(ctx),
                mode,
            ),
    {
        update_slot(self.root_node, &mut self.root_state, ctx, mode)
    }
}

/// Whether two references name the same definition.
#[verifier::external_body]
fn same_definition(a: &Node, b: &Node) -> (r: bool)
    ensures
        r ==> *a == *b,
{
    core::ptr::eq(a, b)
}

/// Runs `root_node` once over `state`, as [`BtState::update`] does, and hands
/// back what the agent is doing.
///
/// A state bound to a different root definition is refused: the result is
/// Failure, and neither the state nor the context changes.
pub fn update<A, H: BtContext<A>>(
    root_node: &Node,
    state: &mut BtState<'_, H::ActionState>,
    ctx: &mut H,
    mode: EntryMode,
) -> (r: NodeResult<A>)
    ensures
        final(state).root() == old(state).root(),
        ({
            let (slot, c, result) = slot_tick(old(state).root(), old(state).slot(), *old(ctx), mode);
            (final(state).slot() == slot && *final(ctx) == c && r == result) || (r is Failure
                && final(state).slot() == old(state).slot() && *final(ctx) == *old(ctx))
        }),
        *root_node != old(state).root() ==> r is Failure && final(state).slot() == old(
            state,
        ).slot() && *final(ctx) == *old(ctx),
{
    if !same_definition(root_node, state.root_node) {
        return NodeResult::error("state belongs to a different root definition");
    }
    state.update(ctx, mode)
}

} // verus!
