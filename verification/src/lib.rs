//! Resumable behavior trees with inline invocation state.
//!
//! A tree is an immutable definition ([`Node`]); what an invocation remembers
//! between updates is a separate [`NodeState`], kept by a [`BtState`] or a
//! caller-owned slot. An update says whether the invocation ended, and if it
//! did not, what the agent is now doing ([`NodeResult::Running`]). The
//! application's leaves, predicates, scores, random and weighted draws and
//! actions are named by number and answered by the context the tree runs
//! over ([`BtContext`]).

pub mod arena;
pub mod context;
pub mod control;
pub mod inspect;
pub mod laws;
pub mod names;
pub mod node;
pub mod order;
pub mod runtime;
pub mod semantics;
pub mod tree;

pub use context::BtContext;
pub use inspect::{Describe, Inspector, NodeInfo, describe, path_id};
pub use control::{
    ControlOp, IfElse, Policy, PolicyState, RandomSelect, Repeat, Retry, Selector, Sequence,
    ShuffleSeq, Utility, WeightedSelect,
};
pub use node::{EntryMode, NodeResult};
pub use order::{
    ByScore, Order, Ordered, OrderedState, Shuffled, Weighted, by_score, order_by, shuffled, weighted,
};
pub use runtime::{BtState, update, update_slot};
pub use tree::{
    ActionNode, ActionWhile, Check, ControlNode, ControlState, Guarded, Leaf, MapAct, Named, Node,
    NodeState, Outcome, ReevaluateWhen, Remap, RepeatWhile, RepeatWhileState, action,
    action_while, check, control, control_ordered, force_failure, force_success, guard, if_else,
    invert, label, leaf, map_act, named, random_select, reevaluate_when, repeat, repeat_while,
    retry, select, select_ordered, seq_ordered, shuffle_seq, utility, weighted_select,
};
