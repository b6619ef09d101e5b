//! Tree definitions, their invocation state, and the constructors that build
//! them.
//!
//! A tree is an immutable definition. Everything an invocation remembers
//! between updates lives in a separate [`NodeState`], owned by the caller
//! (see [`crate::BtState`]), so one definition serves any number of agents.
//! The application's behaviour is named by number and answered by the
//! context (see [`crate::BtContext`]).

use vstd::prelude::*;

use crate::control::{
    IfElse, Policy, PolicyState, RandomSelect, Repeat, Retry, Selector, Sequence, ShuffleSeq,
    Utility, WeightedSelect,
};
use crate::order::{Order, Ordered, OrderedState, fresh_ordered_state};

verus! {

/// A leaf: runs the context's leaf callback of this number.
#[derive(Clone, Copy, Debug)]
pub struct Leaf(pub usize);

/// A predicate over the context: Success when it holds, Failure otherwise.
#[derive(Clone, Copy, Debug)]
pub struct Check(pub usize);

/// A child that runs only while a predicate holds.
#[derive(Debug)]
pub struct Guarded {
    pub predicate: usize,
    pub child: Node,
}

/// A policy with its children, visited as written or in the order an
/// [`Order`] decides (see [`crate::order`]).
#[derive(Debug)]
pub struct ControlNode {
    pub policy: Policy,
    pub children: Vec<Node>,
    pub order: Option<Order>,
}

/// A terminal result a child's result is mapped to.
#[derive(Clone, Copy, Debug, PartialEq, Eq)]
pub enum Outcome {
    Success,
    Failure,
}

/// A child whose terminal results are mapped; `Running` passes through.
#[derive(Debug)]
pub struct Remap {
    pub child: Node,
    pub success: Outcome,
    pub failure: Outcome,
}

/// A child restarted while a condition holds.
#[derive(Debug)]
pub struct RepeatWhile {
    pub condition: usize,
    pub child: Node,
}

/// A child whose act is converted.
#[derive(Debug)]
pub struct MapAct {
    pub map: usize,
    pub child: Node,
}

/// A child resumed as Evaluate while a condition holds.
#[derive(Debug)]
pub struct ReevaluateWhen {
    pub condition: usize,
    pub child: Node,
}

/// An act reported while a condition holds.
#[derive(Clone, Copy, Debug)]
pub struct ActionWhile {
    pub condition: usize,
    pub act: usize,
}

/// An action with a lifecycle: started, ticked while in progress, completed.
#[derive(Clone, Copy, Debug)]
pub struct ActionNode(pub usize);

/// A node with a name for debug views. It runs exactly as `node` does.
#[derive(Debug)]
pub struct Named {
    pub name: String,
    /// Whether the name is what the parent calls the node, rather than its own.
    pub label: bool,
    pub node: Node,
}

/// A tree definition.
#[derive(Debug)]
pub enum Node {
    Leaf(Leaf),
    Check(Check),
    Guarded(Box<Guarded>),
    Control(ControlNode),
    Remap(Box<Remap>),
    RepeatWhile(Box<RepeatWhile>),
    MapAct(Box<MapAct>),
    ReevaluateWhen(Box<ReevaluateWhen>),
    ActionWhile(ActionWhile),
    Action(ActionNode),
    Named(Box<Named>),
}

/// Policy state plus the one child state a control keeps: the child that is
/// running, and its index. A control over ordered children also keeps where
/// its pass through the order is.
#[derive(Debug)]
pub struct ControlState<S> {
    pub children: Option<(usize, Box<NodeState<S>>)>,
    pub inner: PolicyState,
    pub ordered: OrderedState,
}

/// Child state, and whether the child has returned `Running` since it started.
#[derive(Debug)]
pub struct RepeatWhileState<S> {
    pub child: Box<NodeState<S>>,
    pub ran: bool,
}

/// The invocation state of a node. `Empty` is the state a fresh invocation
/// starts from, for every kind of node; `S` is what an action keeps.
#[derive(Debug)]
pub enum NodeState<S> {
    Empty,
    Control(ControlState<S>),
    RepeatWhile(RepeatWhileState<S>),
    Action(S),
}

impl<S> ControlState<S> {
    /// The state of a control entered afresh.
    pub fn fresh() -> (r: Self)
        ensures
            r == fresh_control_state::<S>(),
    {
        ControlState { children: None, inner: PolicyState::fresh(), ordered: OrderedState::fresh() }
    }
}

pub open spec fn fresh_control_state<S>() -> ControlState<S> {
    ControlState {
        children: None,
        inner: PolicyState { count: 0, tried: 0 },
        ordered: fresh_ordered_state(),
    }
}

/// `node` is a control with this policy and these children, visited as
/// written.
pub open spec fn is_control(node: Node, policy: Policy, children: Seq<Node>) -> bool {
    node matches Node::Control(c) && c.policy == policy && c.children@ == children && c.order is None
}

/// `node` is a control with this policy over these children, visited in the
/// order `order` decides.
pub open spec fn is_ordered_control(node: Node, policy: Policy, order: Order, children: Seq<Node>) -> bool {
    node matches Node::Control(c) && c.policy == policy && c.children@ == children && c.order
        == Some(order)
}

/// A leaf running leaf callback `id`. Context effects are immediate and
/// survive failure.
pub fn leaf(id: usize) -> (r: Node)
    ensures
        r == Node::Leaf(Leaf(id)),
{
    Node::Leaf(Leaf(id))
}

/// Returns Success when predicate `predicate` holds, Failure otherwise.
pub fn check(predicate: usize) -> (r: Node)
    ensures
        r == Node::Check(Check(predicate)),
{
    Node::Check(Check(predicate))
}

/// Runs `child` while `predicate` holds; fails without entering it otherwise.
/// Checked on every update, Resume included, so it ends a running child the
/// moment its condition stops holding.
pub fn guard(predicate: usize, child: Node) -> (r: Node)
    ensures
        r == Node::Guarded(Box::new(Guarded { predicate, child })),
{
    Node::Guarded(Box::new(Guarded { predicate, child }))
}

/// Combines a policy and children.
pub fn control(policy: Policy, children: Vec<Node>) -> (r: Node)
    ensures
        is_control(r, policy, children@),
{
    Node::Control(ControlNode { policy, children, order: None })
}

/// Combines a policy and ordered children: the policy's position `k` is the
/// `k`-th child the order offers.
pub fn control_ordered(policy: Policy, children: Ordered) -> (r: Node)
    ensures
        is_ordered_control(r, policy, children.order, children.children@),
{
    Node::Control(ControlNode { policy, children: children.children, order: Some(children.order) })
}

/// A selector over ordered children: tries them in the order given until one
/// succeeds. With [`crate::order::by_score`] it is a utility selector.
pub fn select_ordered(children: Ordered) -> (r: Node)
    ensures
        is_ordered_control(r, Policy::Selector(Selector), children.order, children.children@),
{
    control_ordered(Policy::Selector(Selector), children)
}

/// A sequence over ordered children: runs them all in the order given.
pub fn seq_ordered(children: Ordered) -> (r: Node)
    ensures
        is_ordered_control(r, Policy::Sequence(Sequence), children.order, children.children@),
{
    control_ordered(Policy::Sequence(Sequence), children)
}

/// Runs a sequence. Empty sequences succeed.
pub fn seq(children: Vec<Node>) -> (r: Node)
    ensures
        is_control(r, Policy::Sequence(Sequence), children@),
{
    control(Policy::Sequence(Sequence), children)
}

/// Runs a selector. Empty selectors fail.
pub fn select(children: Vec<Node>) -> (r: Node)
    ensures
        is_control(r, Policy::Selector(Selector), children@),
{
    control(Policy::Selector(Selector), children)
}

/// Runs `child` until it has succeeded `times` times, then succeeds; fails on
/// the first failure. `times == 0` succeeds without running it.
pub fn repeat(times: usize, child: Node) -> (r: Node)
    ensures
        is_control(r, Policy::Repeat(Repeat(times)), seq![child]),
{
    let children = vec![child];
    assert(children@ =~= seq![child]);
    control(Policy::Repeat(Repeat(times)), children)
}

/// Runs `child` until it succeeds, at most `attempts` times, and fails when
/// every attempt failed. `attempts == 0` fails without running it.
pub fn retry(attempts: usize, child: Node) -> (r: Node)
    ensures
        is_control(r, Policy::Retry(Retry(attempts)), seq![child]),
{
    let children = vec![child];
    assert(children@ =~= seq![child]);
    control(Policy::Retry(Retry(attempts)), children)
}

/// Runs `then` when `condition` holds, `otherwise` when it does not, and
/// returns that child's result without fallback. Evaluate asks again and may
/// switch branch; Resume keeps the running branch.
pub fn if_else(condition: usize, then: Node, otherwise: Node) -> (r: Node)
    ensures
        is_control(r, Policy::IfElse(IfElse(condition)), seq![then, otherwise]),
{
    let children = vec![then, otherwise];
    control(Policy::IfElse(IfElse(condition)), children)
}

/// Runs the best-scoring child, scored by scorer `score`; see [`Utility`].
pub fn utility(score: usize, children: Vec<Node>) -> (r: Node)
    ensures
        is_control(r, Policy::Utility(Utility::new_spec(score)), children@),
{
    control(Policy::Utility(Utility::new(score)), children)
}

/// Runs a child drawn with generator `rng`; when it fails, one drawn from the
/// rest. See [`RandomSelect`].
pub fn random_select(rng: usize, children: Vec<Node>) -> (r: Node)
    ensures
        is_control(r, Policy::RandomSelect(RandomSelect(rng)), children@),
{
    control(Policy::RandomSelect(RandomSelect(rng)), children)
}

/// Runs every child once, in an order drawn with generator `rng`. See
/// [`ShuffleSeq`].
pub fn shuffle_seq(rng: usize, children: Vec<Node>) -> (r: Node)
    ensures
        is_control(r, Policy::ShuffleSeq(ShuffleSeq(rng)), children@),
{
    control(Policy::ShuffleSeq(ShuffleSeq(rng)), children)
}

/// Runs a child drawn by weight with generator `rng` and weight function
/// `weights`; when it fails, one drawn by weight from the rest. See
/// [`WeightedSelect`].
pub fn weighted_select(rng: usize, weights: usize, children: Vec<Node>) -> (r: Node)
    ensures
        is_control(r, Policy::WeightedSelect(WeightedSelect(rng, weights)), children@),
{
    control(Policy::WeightedSelect(WeightedSelect(rng, weights)), children)
}

/// Swaps Success and Failure; `Running` and its act pass through.
pub fn invert(child: Node) -> (r: Node)
    ensures
        r == Node::Remap(
            Box::new(Remap { child, success: Outcome::Failure, failure: Outcome::Success }),
        ),
{
    Node::Remap(Box::new(Remap { child, success: Outcome::Failure, failure: Outcome::Success }))
}

/// Succeeds whenever `child` ends; `Running` passes through.
pub fn force_success(child: Node) -> (r: Node)
    ensures
        r == Node::Remap(
            Box::new(Remap { child, success: Outcome::Success, failure: Outcome::Success }),
        ),
{
    Node::Remap(Box::new(Remap { child, success: Outcome::Success, failure: Outcome::Success }))
}

/// Fails whenever `child` ends; `Running` passes through.
pub fn force_failure(child: Node) -> (r: Node)
    ensures
        r == Node::Remap(
            Box::new(Remap { child, success: Outcome::Failure, failure: Outcome::Failure }),
        ),
{
    Node::Remap(Box::new(Remap { child, success: Outcome::Failure, failure: Outcome::Failure }))
}

/// Keeps the agent busy with `child` while `condition` holds; succeeds once it
/// does not. The child restarts when it succeeds after running; it fails the
/// node when it fails, or completes without running since it started.
pub fn repeat_while(condition: usize, child: Node) -> (r: Node)
    ensures
        r == Node::RepeatWhile(Box::new(RepeatWhile { condition, child })),
{
    Node::RepeatWhile(Box::new(RepeatWhile { condition, child }))
}

/// Runs `child`; its act passes through conversion `map`, and its results are
/// otherwise unchanged.
pub fn map_act(map: usize, child: Node) -> (r: Node)
    ensures
        r == Node::MapAct(Box::new(MapAct { map, child })),
{
    Node::MapAct(Box::new(MapAct { map, child }))
}

/// Passes `Resume` down to `child` as `Evaluate` on updates where `condition`
/// holds; otherwise passes the mode through.
pub fn reevaluate_when(condition: usize, child: Node) -> (r: Node)
    ensures
        r == Node::ReevaluateWhen(Box::new(ReevaluateWhen { condition, child })),
{
    Node::ReevaluateWhen(Box::new(ReevaluateWhen { condition, child }))
}

/// Reports act function `act`'s act while `condition` holds, then succeeds.
pub fn action_while(condition: usize, act: usize) -> (r: Node)
    ensures
        r == Node::ActionWhile(ActionWhile { condition, act }),
{
    Node::ActionWhile(ActionWhile { condition, act })
}

/// Runs action `id`: started on entry, ticked while in progress, then
/// completed.
pub fn action(id: usize) -> (r: Node)
    ensures
        r == Node::Action(ActionNode(id)),
{
    Node::Action(ActionNode(id))
}

/// Names `node` in debug views. It runs exactly as `node` does.
pub fn named(name: &str, node: Node) -> (r: Node)
    ensures
        r matches Node::Named(n) && n.name@ == name@ && !n.label && n.node == node,
{
    Node::Named(Box::new(Named { name: name.to_owned(), label: false, node }))
}

/// Marks `node` with what its parent calls it. It runs exactly as `node` does.
pub fn label(text: &str, node: Node) -> (r: Node)
    ensures
        r matches Node::Named(n) && n.name@ == text@ && n.label && n.node == node,
{
    Node::Named(Box::new(Named { name: text.to_owned(), label: true, node }))
}

impl Node {
    /// Names this node in debug views; the same as [`named`] with the name
    /// after the node.
    pub fn named(self, name: &str) -> (r: Node)
        ensures
            r matches Node::Named(n) && n.name@ == name@ && !n.label && n.node == self,
    {
        named(name, self)
    }
}

} // verus!
