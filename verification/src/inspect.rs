//! Debug views of a tree and its invocation state.
//!
//! Every node reports itself through [`inspect`]: what it is, its name,
//! whether it is on the running path, a few fields, and its children. An
//! [`Inspector`] receives that. Two are built in: [`path_id`] fingerprints the
//! running path, and [`Describe`] writes it as text. Nothing here runs during
//! an update.

use vstd::prelude::*;

use crate::control::Policy;
use crate::semantics::{control_state_of, repeat_while_state_of};
use crate::tree::{ControlNode, Node, NodeState, Outcome};

verus! {

/// One node, as reported: what it is, its name, what its parent calls it, and
/// whether it is on the running path.
#[derive(Clone, Copy, Debug)]
pub struct NodeInfo<'a> {
    /// What the node is: its constructor, such as `seq` or `leaf`.
    pub kind: &'a str,
    /// Given with [`crate::named`].
    pub name: Option<&'a str>,
    /// What the parent calls this child, given with [`crate::label`].
    pub label: Option<&'a str>,
    /// Holds invocation state: the node is on the running path.
    pub active: bool,
}

impl<'a> NodeInfo<'a> {
    pub fn new(kind: &'a str, active: bool) -> (r: Self)
        ensures
            r.kind == kind,
            r.name is None,
            r.label is None,
            r.active == active,
    {
        NodeInfo { kind, name: None, label: None, active }
    }

    pub fn name(self, name: Option<&'a str>) -> (r: Self)
        ensures
            r == (NodeInfo { name, ..self }),
    {
        NodeInfo { name, ..self }
    }
}

/// What a node is, by the constructor that builds it.
pub open spec fn kind_of(node: Node) -> Seq<char> {
    match node {
        Node::Leaf(_) => "leaf"@,
        Node::Check(_) => "check"@,
        Node::Guarded(_) => "guard"@,
        Node::Control(control) => policy_kind(control.policy),
        Node::Remap(remap) => remap_kind(remap.success, remap.failure),
        Node::RepeatWhile(_) => "repeat_while"@,
        Node::MapAct(_) => "map_act"@,
        Node::ReevaluateWhen(_) => "reevaluate_when"@,
        Node::ActionWhile(_) => "action_while"@,
        Node::Action(_) => "action"@,
        Node::Named(_) => "named"@,
    }
}

pub open spec fn policy_kind(policy: Policy) -> Seq<char> {
    match policy {
        Policy::Sequence(_) => "seq"@,
        Policy::Selector(_) => "select"@,
        Policy::Repeat(_) => "repeat"@,
        Policy::Retry(_) => "retry"@,
        Policy::IfElse(_) => "if_else"@,
        Policy::Utility(_) => "utility"@,
        Policy::RandomSelect(_) => "random_select"@,
        Policy::ShuffleSeq(_) => "shuffle_seq"@,
        Policy::WeightedSelect(_) => "weighted_select"@,
    }
}

pub open spec fn remap_kind(success: Outcome, failure: Outcome) -> Seq<char> {
    match (success, failure) {
        (Outcome::Failure, Outcome::Success) => "invert"@,
        (Outcome::Success, Outcome::Success) => "force_success"@,
        (Outcome::Failure, Outcome::Failure) => "force_failure"@,
        (Outcome::Success, Outcome::Failure) => "remap"@,
    }
}

fn policy_kind_text(policy: &Policy) -> (r: &'static str)
    ensures
        r@ == policy_kind(*policy),
{
    match policy {
        Policy::Sequence(_) => "seq",
        Policy::Selector(_) => "select",
        Policy::Repeat(_) => "repeat",
        Policy::Retry(_) => "retry",
        Policy::IfElse(_) => "if_else",
        Policy::Utility(_) => "utility",
        Policy::RandomSelect(_) => "random_select",
        Policy::ShuffleSeq(_) => "shuffle_seq",
        Policy::WeightedSelect(_) => "weighted_select",
    }
}

/// What `node` is, by the constructor that builds it.
pub fn kind(node: &Node) -> (r: &'static str)
    ensures
        r@ == kind_of(*node),
{
    match node {
        Node::Leaf(_) => "leaf",
        Node::Check(_) => "check",
        Node::Guarded(_) => "guard",
        Node::Control(control) => policy_kind_text(&control.policy),
        Node::Remap(remap) => match (remap.success, remap.failure) {
            (Outcome::Failure, Outcome::Success) => "invert",
            (Outcome::Success, Outcome::Success) => "force_success",
            (Outcome::Failure, Outcome::Failure) => "force_failure",
            (Outcome::Success, Outcome::Failure) => "remap",
        },
        Node::RepeatWhile(_) => "repeat_while",
        Node::MapAct(_) => "map_act",
        Node::ReevaluateWhen(_) => "reevaluate_when",
        Node::ActionWhile(_) => "action_while",
        Node::Action(_) => "action",
        Node::Named(_) => "named",
    }
}

/// The state a reference points to, if any.
pub open spec fn state_of<S>(state: Option<&NodeState<S>>) -> Option<NodeState<S>> {
    match state {
        Some(s) => Some(*s),
        None => None,
    }
}

/// The state of child `index` of a control in `state`: only the running child
/// has one.
pub open spec fn control_child_state<S>(state: Option<NodeState<S>>, index: nat) -> Option<NodeState<S>> {
    match state {
        Some(s) => match control_state_of(s).children {
            Some((saved, child)) => if saved == index {
                Some(*child)
            } else {
                None
            },
            None => None,
        },
        None => None,
    }
}

/// The state of a `repeat_while`'s child.
pub open spec fn repeat_child_state<S>(state: Option<NodeState<S>>) -> Option<NodeState<S>> {
    match state {
        Some(s) => Some(*repeat_while_state_of(s).child),
        None => None,
    }
}

// --- path fingerprint -------------------------------------------------------

/// FNV-1a's offset basis, where a fingerprint starts.
pub const FNV_OFFSET_BASIS: u64 = 0xcbf2_9ce4_8422_2325;

/// FNV-1a's prime.
pub const FNV_PRIME: u64 = 0x0100_0000_01b3;

/// What a node feeds into its path fingerprint: 2 when it is off the running
/// path; otherwise 1, its children's, and 3.
pub open spec fn path_bytes<S>(node: Node, state: Option<NodeState<S>>) -> Seq<u8>
    decreases node, 1nat,
{
    match node {
        Node::Named(named) => path_bytes(named.node, state),
        _ => if state is None {
            seq![2u8]
        } else {
            seq![1u8] + child_path_bytes(node, state) + seq![3u8]
        },
    }
}

/// What the children of `node` in `state` feed, in order.
pub open spec fn child_path_bytes<S>(node: Node, state: Option<NodeState<S>>) -> Seq<u8>
    decreases node, 0nat,
{
    match node {
        Node::Guarded(guarded) => path_bytes(guarded.child, state),
        Node::Control(control) => control_path_bytes(control, state, 0),
        Node::Remap(remap) => path_bytes(remap.child, state),
        Node::RepeatWhile(repeat) => path_bytes(repeat.child, repeat_child_state(state)),
        Node::MapAct(map) => path_bytes(map.child, state),
        Node::ReevaluateWhen(reevaluate) => path_bytes(reevaluate.child, state),
        _ => Seq::empty(),
    }
}

/// What children `from` on of a control feed.
pub open spec fn control_path_bytes<S>(control: ControlNode, state: Option<NodeState<S>>, from: nat) -> Seq<u8>
    decreases control, control.children@.len() - from,
{
    if from >= control.children@.len() {
        Seq::empty()
    } else {
        path_bytes(control.children@[from as int], control_child_state(state, from))
            + control_path_bytes(control, state, from + 1)
    }
}

/// One FNV-1a step.
pub open spec fn fnv_step(hash: u64, byte: u8) -> u64 {
    ((((hash ^ (byte as u64)) as nat) * (FNV_PRIME as nat)) % 0x1_0000_0000_0000_0000) as u64
}

/// FNV-1a over `bytes`, from `hash`.
pub open spec fn fnv(hash: u64, bytes: Seq<u8>) -> u64
    decreases bytes.len(),
{
    if bytes.len() == 0 {
        hash
    } else {
        fnv(fnv_step(hash, bytes[0]), bytes.drop_first())
    }
}

pub proof fn lemma_fnv_concat(hash: u64, a: Seq<u8>, b: Seq<u8>)
    ensures
        fnv(hash, a + b) == fnv(fnv(hash, a), b),
    decreases a.len(),
{
    if a.len() > 0 {
        assert((a + b).drop_first() =~= a.drop_first() + b);
        lemma_fnv_concat(fnv_step(hash, a[0]), a.drop_first(), b);
    } else {
        assert(a + b =~= b);
    }
}

fn feed(hash: u64, byte: u8) -> (r: u64)
    ensures
        r == fnv_step(hash, byte),
{
    (hash ^ (byte as u64)).wrapping_mul(FNV_PRIME)
}

/// The state of child `index` of a control in `state`.
fn child_state<S>(state: Option<&NodeState<S>>, index: usize) -> (r: Option<&NodeState<S>>)
    ensures
        state_of(r) == control_child_state(state_of(state), index as nat),
{
    match state {
        Some(NodeState::Control(c)) => match &c.children {
            Some((saved, child)) => if *saved == index {
                Some(&**child)
            } else {
                None
            },
            None => None,
        },
        _ => None,
    }
}

// --- text --------------------------------------------------------------------

/// Decimal digits of `n`.
pub open spec fn decimal(n: u64) -> Seq<char>
    decreases n,
{
    if n < 10 {
        seq![digit_char(n)]
    } else {
        decimal(n / 10) + seq![digit_char(n % 10)]
    }
}

pub open spec fn digit_char(d: u64) -> char {
    (48 + d) as char
}

fn write_decimal(n: u64, text: &mut String)
    ensures
        final(text)@ == old(text)@ + decimal(n),
    decreases n,
{
    if n >= 10 {
        write_decimal(n / 10, text);
    }
    let d = n % 10;
    let c = match d {
        0 => "0",
        1 => "1",
        2 => "2",
        3 => "3",
        4 => "4",
        5 => "5",
        6 => "6",
        7 => "7",
        8 => "8",
        _ => "9",
    };
    proof {
        reveal_strlit("0");
        reveal_strlit("1");
        reveal_strlit("2");
        reveal_strlit("3");
        reveal_strlit("4");
        reveal_strlit("5");
        reveal_strlit("6");
        reveal_strlit("7");
        reveal_strlit("8");
        reveal_strlit("9");
        assert(c@ =~= seq![digit_char(d)]);
    }
    text.append(c);
}

/// The fields a node reports: a `repeat` its count and progress, a `retry`
/// its attempts and failures, written ` {name: value, ...}`.
pub open spec fn fields_text<S>(node: Node, state: Option<NodeState<S>>) -> Seq<char> {
    match node {
        Node::Control(control) => match control.policy {
            Policy::Repeat(times) => " {times: "@ + decimal(times.0 as u64) + match state {
                Some(s) => ", done: "@ + decimal(control_state_of(s).inner.count as u64),
                None => Seq::empty(),
            } + "}"@,
            Policy::Retry(attempts) => " {attempts: "@ + decimal(attempts.0 as u64) + match state {
                Some(s) => ", failed: "@ + decimal(control_state_of(s).inner.count as u64),
                None => Seq::empty(),
            } + "}"@,
            _ => Seq::empty(),
        },
        _ => Seq::empty(),
    }
}

/// Where a node's line starts. On one line (`lines` false) nodes are
/// separated by ` > `. One per line, each is indented by `indent`, and when
/// `all` nodes are written each starts with `*` for a node on the running path
/// or `-` for one off it.
pub open spec fn prefix_text(active: bool, all: bool, lines: bool, indent: Seq<char>, first: bool) -> Seq<char> {
    if lines {
        (if first {
            Seq::empty()
        } else {
            "\n"@
        }) + indent + if all {
            if active {
                "* "@
            } else {
                "- "@
            }
        } else {
            Seq::empty()
        }
    } else {
        if first {
            Seq::empty()
        } else {
            " > "@
        }
    }
}

/// What the parent calls the node, as `label => `.
pub open spec fn label_text(label: Option<Seq<char>>) -> Seq<char> {
    match label {
        Some(l) => l + " => "@,
        None => Seq::empty(),
    }
}

/// `name (kind)`, or the kind alone for a node without a name.
pub open spec fn name_text(name: Option<Seq<char>>, kind: Seq<char>) -> Seq<char> {
    match name {
        Some(n) => n + " ("@ + kind + ")"@,
        None => kind,
    }
}

/// A node's line: where it goes, what its parent calls it, its name and
/// kind, and its fields.
#[verifier::opaque]
pub open spec fn line_text(
    kind: Seq<char>,
    name: Option<Seq<char>>,
    label: Option<Seq<char>>,
    active: bool,
    fields: Seq<char>,
    all: bool,
    lines: bool,
    indent: Seq<char>,
    first: bool,
) -> Seq<char> {
    prefix_text(active, all, lines, indent, first) + label_text(label) + name_text(name, kind) + fields
}

/// The text of `node` in `state` and its descendants, as the nodes are
/// entered in order. A node off the running path is written, with its
/// descendants, only when `all` nodes are. `name` and `label` come from
/// enclosing [`crate::named`] and [`crate::label`]; the outermost wins.
pub open spec fn node_text<S>(
    node: Node,
    state: Option<NodeState<S>>,
    all: bool,
    lines: bool,
    indent: Seq<char>,
    first: bool,
    name: Option<Seq<char>>,
    label: Option<Seq<char>>,
) -> Seq<char>
    decreases node, 1nat,
{
    match node {
        Node::Named(named) => node_text(
            named.node,
            state,
            all,
            lines,
            indent,
            first,
            if !named.label && name is None {
                Some(named.name@)
            } else {
                name
            },
            if named.label && label is None {
                Some(named.name@)
            } else {
                label
            },
        ),
        _ => if state is None && !all {
            Seq::empty()
        } else {
            line_text(
                kind_of(node),
                name,
                label,
                state is Some,
                fields_text(node, state),
                all,
                lines,
                indent,
                first,
            ) + children_text(node, state, all, lines, indent + "  "@)
        },
    }
}

/// The text of the children of `node` in `state`.
pub open spec fn children_text<S>(
    node: Node,
    state: Option<NodeState<S>>,
    all: bool,
    lines: bool,
    indent: Seq<char>,
) -> Seq<char>
    decreases node, 0nat,
{
    match node {
        Node::Guarded(guarded) => node_text(guarded.child, state, all, lines, indent, false, None, None),
        Node::Control(control) => control_text(control, state, all, lines, indent, 0),
        Node::Remap(remap) => node_text(remap.child, state, all, lines, indent, false, None, None),
        Node::RepeatWhile(repeat) => node_text(
            repeat.child,
            repeat_child_state(state),
            all,
            lines,
            indent,
            false,
            None,
            None,
        ),
        Node::MapAct(map) => node_text(map.child, state, all, lines, indent, false, None, None),
        Node::ReevaluateWhen(reevaluate) => node_text(
            reevaluate.child,
            state,
            all,
            lines,
            indent,
            false,
            None,
            None,
        ),
        _ => Seq::empty(),
    }
}

/// The text of children `from` on of a control.
pub open spec fn control_text<S>(
    control: ControlNode,
    state: Option<NodeState<S>>,
    all: bool,
    lines: bool,
    indent: Seq<char>,
    from: nat,
) -> Seq<char>
    decreases control, control.children@.len() - from,
{
    if from >= control.children@.len() {
        Seq::empty()
    } else {
        node_text(
            control.children@[from as int],
            control_child_state(state, from),
            all,
            lines,
            indent,
            false,
            None,
            None,
        ) + control_text(control, state, all, lines, indent, from + 1)
    }
}

fn write_prefix(active: bool, all: bool, lines: bool, indent: &String, first: bool, text: &mut String)
    ensures
        final(text)@ == old(text)@ + prefix_text(active, all, lines, indent@, first),
{
    let ghost start = text@;
    if lines {
        if !first {
            text.append("\n");
        }
        text.append(indent.as_str());
        if all {
            if active {
                text.append("* ");
            } else {
                text.append("- ");
            }
        }
        assert(text@ =~= start + prefix_text(active, all, lines, indent@, first));
    } else if !first {
        text.append(" > ");
    } else {
        assert(text@ =~= start + prefix_text(active, all, lines, indent@, first));
    }
}

fn write_label(label: Option<&str>, text: &mut String)
    ensures
        final(text)@ == old(text)@ + label_text(
            match label {
                Some(l) => Some(l@),
                None => None,
            },
        ),
{
    if let Some(l) = label {
        let ghost start = text@;
        text.append(l);
        text.append(" => ");
        assert(text@ =~= start + (l@ + " => "@));
    } else {
        assert(text@ =~= text@ + Seq::<char>::empty());
    }
}

fn write_name(name: Option<&str>, kind: &str, text: &mut String)
    ensures
        final(text)@ == old(text)@ + name_text(
            match name {
                Some(n) => Some(n@),
                None => None,
            },
            kind@,
        ),
{
    match name {
        Some(n) => {
            let ghost start = text@;
            text.append(n);
            text.append(" (");
            text.append(kind);
            text.append(")");
            assert(text@ =~= start + (n@ + " ("@ + kind@ + ")"@));
        },
        None => {
            text.append(kind);
        },
    }
}

/// The whole description: the nodes' text, or `not running` when the root is
/// not entered.
pub open spec fn description<S>(node: Node, state: Option<NodeState<S>>, all: bool, lines: bool) -> Seq<
    char,
> {
    if state is None && !all {
        "not running"@
    } else {
        node_text(node, state, all, lines, Seq::empty(), true, None, None)
    }
}

/// A text view of a tree and its invocation state.
///
/// [`to_string`](Self::to_string) writes the running path on one line, root
/// first: `select > attack (seq) > leaf`. [`to_string_alternate`](Self::to_string_alternate)
/// writes one node per line, indented by depth. Each node is `name (kind)`, or
/// its kind when it has no name; a label comes first, as `label => `, and
/// fields follow in braces. A tree that is not running writes `not running`.
pub struct Describe<'a, S> {
    node: &'a Node,
    state: Option<&'a NodeState<S>>,
    inactive: bool,
}

impl<'a, S> Describe<'a, S> {
    pub closed spec fn described(self) -> (Node, Option<NodeState<S>>, bool) {
        (*self.node, state_of(self.state), self.inactive)
    }

    /// Also writes nodes off the running path, in the alternate form. Each
    /// line then starts with `*` for a node on the path, or `-` for one off it.
    pub fn with_inactive(self) -> (r: Self)
        ensures
            r.described() == (self.described().0, self.described().1, true),
    {
        Describe { inactive: true, ..self }
    }

    /// The running path on one line.
    pub fn to_string(&self) -> (r: String)
        ensures
            r@ == description(self.described().0, self.described().1, false, false),
    {
        self.write(false, false)
    }

    /// One node per line, indented by depth.
    pub fn to_string_alternate(&self) -> (r: String)
        ensures
            r@ == description(
                self.described().0,
                self.described().1,
                self.described().2,
                true,
            ),
    {
        self.write(self.inactive, true)
    }

    fn write(&self, all: bool, lines: bool) -> (r: String)
        ensures
            r@ == description(self.described().0, self.described().1, all, lines),
    {
        let mut text = Text {
            text: String::new(),
            indent: String::new(),
            first: true,
            fields: false,
            all,
            lines,
        };
        let ghost start = text.model();
        inspect(self.node, self.state, &mut text);
        proof {
            lemma_text_node(*self.node, state_of(self.state), start, None, None);
        }
        text.close_fields();
        if text.first {
            return String::from_str("not running");
        }
        let ghost written = node_text(*self.node, state_of(self.state), all, lines, Seq::empty(), true, None, None);
        assert(Seq::<char>::empty() + written =~= written);
        text.text
    }
}

/// Describes `node` over `state`, for a driver holding state without a
/// [`crate::BtState`], such as the slot [`crate::update_slot`] takes.
pub fn describe<'a, S>(node: &'a Node, state: Option<&'a NodeState<S>>) -> (r: Describe<'a, S>)
    ensures
        r.described() == (*node, state_of(state), false),
{
    Describe { node, state, inactive: false }
}

// --- inspectors ------------------------------------------------------------------

/// The text of an optional name.
pub open spec fn opt_chars(text: Option<&str>) -> Option<Seq<char>> {
    match text {
        Some(t) => Some(t@),
        None => None,
    }
}

/// Receives a tree as nodes, fields and nesting.
///
/// Each node is one [`enter`](Self::enter), then its fields, then its
/// children, then one [`exit`](Self::exit), unless `enter` returns false,
/// which skips the rest. An inspector is described by a model: each `spec fn`
/// says what the matching method does to it, and an implementation is
/// expected to behave accordingly.
pub trait Inspector: Sized {
    /// What the inspector holds, as far as its methods are concerned.
    type Model;

    /// This inspector's model.
    spec fn model(&self) -> Self::Model;

    /// The model after the inspector is entered with a node of this kind,
    /// name, label and activity, and whether it takes the node's fields and
    /// children.
    spec fn entered(
        model: Self::Model,
        kind: Seq<char>,
        name: Option<Seq<char>>,
        label: Option<Seq<char>>,
        active: bool,
    ) -> (Self::Model, bool);

    /// The model after the inspector receives a value of the node last
    /// entered.
    spec fn with_field(model: Self::Model, name: Seq<char>, value: usize) -> Self::Model;

    /// The model after the node last entered ends.
    spec fn exited(model: Self::Model) -> Self::Model;

    /// Starts a node. Returns whether to receive its fields and children.
    fn enter(&mut self, node: NodeInfo<'_>) -> (r: bool)
        ensures
            (final(self).model(), r) == Self::entered(
                old(self).model(),
                node.kind@,
                opt_chars(node.name),
                opt_chars(node.label),
                node.active,
            ),
    ;

    /// A value of the node last entered: configuration, or invocation state.
    fn field(&mut self, name: &str, value: usize)
        ensures
            final(self).model() == Self::with_field(old(self).model(), name@, value),
    ;

    /// Ends the node last entered.
    fn exit(&mut self)
        ensures
            final(self).model() == Self::exited(old(self).model()),
    ;
}

/// What an inspector's model becomes when `node` in `state` and its
/// descendants report to it. `name` and `label` come from enclosing
/// [`crate::named`] and [`crate::label`]; the outermost wins. Every node
/// reports, off the running path too; only a node on it is active.
pub open spec fn inspected<S, I: Inspector>(
    node: Node,
    state: Option<NodeState<S>>,
    model: I::Model,
    name: Option<Seq<char>>,
    label: Option<Seq<char>>,
) -> I::Model
    decreases node, 1nat,
{
    match node {
        Node::Named(named) => inspected::<S, I>(
            named.node,
            state,
            model,
            if !named.label && name is None {
                Some(named.name@)
            } else {
                name
            },
            if named.label && label is None {
                Some(named.name@)
            } else {
                label
            },
        ),
        _ => {
            let (entered, takes) = I::entered(model, kind_of(node), name, label, state is Some);
            if takes {
                I::exited(
                    children_inspected::<S, I>(node, state, fields_inspected::<S, I>(node, state, entered)),
                )
            } else {
                entered
            }
        },
    }
}

/// The fields a node reports: a `repeat` its count and, while running, how
/// many times its child succeeded; a `retry` its attempts and, while running,
/// how many failed.
pub open spec fn fields_inspected<S, I: Inspector>(node: Node, state: Option<NodeState<S>>, model: I::Model) -> I::Model {
    match node {
        Node::Control(control) => match control.policy {
            Policy::Repeat(times) => {
                let configured = I::with_field(model, "times"@, times.0);
                match state {
                    Some(s) => I::with_field(configured, "done"@, control_state_of(s).inner.count),
                    None => configured,
                }
            },
            Policy::Retry(attempts) => {
                let configured = I::with_field(model, "attempts"@, attempts.0);
                match state {
                    Some(s) => I::with_field(configured, "failed"@, control_state_of(s).inner.count),
                    None => configured,
                }
            },
            _ => model,
        },
        _ => model,
    }
}

/// What the children of `node` in `state` report, in order.
pub open spec fn children_inspected<S, I: Inspector>(node: Node, state: Option<NodeState<S>>, model: I::Model) -> I::Model
    decreases node, 0nat,
{
    match node {
        Node::Guarded(guarded) => inspected::<S, I>(guarded.child, state, model, None, None),
        Node::Control(control) => control_inspected::<S, I>(control, state, model, 0),
        Node::Remap(remap) => inspected::<S, I>(remap.child, state, model, None, None),
        Node::RepeatWhile(repeat) => inspected::<S, I>(repeat.child, repeat_child_state(state), model, None, None),
        Node::MapAct(map) => inspected::<S, I>(map.child, state, model, None, None),
        Node::ReevaluateWhen(reevaluate) => inspected::<S, I>(reevaluate.child, state, model, None, None),
        _ => model,
    }
}

/// What children `from` on of a control report.
pub open spec fn control_inspected<S, I: Inspector>(
    control: ControlNode,
    state: Option<NodeState<S>>,
    model: I::Model,
    from: nat,
) -> I::Model
    decreases control, control.children@.len() - from,
{
    if from >= control.children@.len() {
        model
    } else {
        control_inspected::<S, I>(
            control,
            state,
            inspected::<S, I>(control.children@[from as int], control_child_state(state, from), model, None, None),
            from + 1,
        )
    }
}

fn report_fields<S, I: Inspector>(node: &Node, state: Option<&NodeState<S>>, inspector: &mut I)
    ensures
        final(inspector).model() == fields_inspected::<S, I>(*node, state_of(state), old(inspector).model()),
{
    if let Node::Control(control) = node {
        let (first, second, value) = match control.policy {
            Policy::Repeat(times) => ("times", "done", times.0),
            Policy::Retry(attempts) => ("attempts", "failed", attempts.0),
            _ => {
                return;
            },
        };
        proof {
            reveal_strlit("times");
            reveal_strlit("done");
            reveal_strlit("attempts");
            reveal_strlit("failed");
        }
        inspector.field(first, value);
        if let Some(s) = state {
            let count = match s {
                NodeState::Control(c) => c.inner.count,
                _ => 0,
            };
            inspector.field(second, count);
        }
    }
}

fn report_node<'a, S, I: Inspector>(
    node: &'a Node,
    state: Option<&NodeState<S>>,
    inspector: &mut I,
    name: Option<&'a str>,
    label: Option<&'a str>,
)
    ensures
        final(inspector).model() == inspected::<S, I>(
            *node,
            state_of(state),
            old(inspector).model(),
            opt_chars(name),
            opt_chars(label),
        ),
    decreases *node, 1nat,
{
    match node {
        Node::Named(named) => {
            let name = if !named.label && name.is_none() {
                Some(named.name.as_str())
            } else {
                name
            };
            let label = if named.label && label.is_none() {
                Some(named.name.as_str())
            } else {
                label
            };
            report_node(&named.node, state, inspector, name, label);
        },
        _ => {
            let info = NodeInfo { kind: kind(node), name, label, active: state.is_some() };
            if inspector.enter(info) {
                report_fields(node, state, inspector);
                report_children(node, state, inspector);
                inspector.exit();
            }
        },
    }
}

fn report_children<S, I: Inspector>(node: &Node, state: Option<&NodeState<S>>, inspector: &mut I)
    ensures
        final(inspector).model() == children_inspected::<S, I>(*node, state_of(state), old(inspector).model()),
    decreases *node, 0nat,
{
    match node {
        Node::Guarded(guarded) => report_node(&guarded.child, state, inspector, None, None),
        Node::Control(control) => report_control(control, state, inspector),
        Node::Remap(remap) => report_node(&remap.child, state, inspector, None, None),
        Node::RepeatWhile(repeat) => {
            let child = match state {
                Some(NodeState::RepeatWhile(s)) => Some(&*s.child),
                Some(_) => Some(&NodeState::Empty),
                None => None,
            };
            report_node(&repeat.child, child, inspector, None, None)
        },
        Node::MapAct(map) => report_node(&map.child, state, inspector, None, None),
        Node::ReevaluateWhen(reevaluate) => report_node(&reevaluate.child, state, inspector, None, None),
        _ => {},
    }
}

fn report_control<S, I: Inspector>(control: &ControlNode, state: Option<&NodeState<S>>, inspector: &mut I)
    ensures
        final(inspector).model() == control_inspected::<S, I>(*control, state_of(state), old(inspector).model(), 0),
    decreases *control, 0nat,
{
    let ghost target = control_inspected::<S, I>(*control, state_of(state), inspector.model(), 0);
    let mut index: usize = 0;
    while index < control.children.len()
        invariant
            index <= control.children@.len(),
            control_inspected::<S, I>(*control, state_of(state), inspector.model(), index as nat) == target,
        decreases control.children@.len() - index,
    {
        report_node(&control.children[index], child_state(state, index), inspector, None, None);
        index = index + 1;
    }
}

/// Reports `node` over `state` to `inspector`: each node entered in order,
/// its fields, its children, and its exit.
pub fn inspect<S, I: Inspector>(node: &Node, state: Option<&NodeState<S>>, inspector: &mut I)
    ensures
        final(inspector).model() == inspected::<S, I>(*node, state_of(state), old(inspector).model(), None, None),
{
    report_node(node, state, inspector, None, None)
}


// --- the path fingerprint as an inspector ------------------------------------------

/// Feeds FNV-1a with the path's structure as nodes report it: 1 for a node
/// on the running path, which it then enters, 2 for one off it, which it
/// skips, and 3 for each exit. Fields are left out.
struct PathHash {
    hash: u64,
}

impl Inspector for PathHash {
    type Model = u64;

    closed spec fn model(&self) -> u64 {
        self.hash
    }

    closed spec fn entered(
        model: u64,
        kind: Seq<char>,
        name: Option<Seq<char>>,
        label: Option<Seq<char>>,
        active: bool,
    ) -> (u64, bool) {
        (fnv_step(model, if active { 1u8 } else { 2u8 }), active)
    }

    closed spec fn with_field(model: u64, name: Seq<char>, value: usize) -> u64 {
        model
    }

    closed spec fn exited(model: u64) -> u64 {
        fnv_step(model, 3u8)
    }

    fn enter(&mut self, node: NodeInfo<'_>) -> (r: bool) {
        self.hash = feed(self.hash, if node.active { 1u8 } else { 2u8 });
        node.active
    }

    fn field(&mut self, name: &str, value: usize) {
    }

    fn exit(&mut self) {
        self.hash = feed(self.hash, 3u8);
    }
}

/// FNV-1a of a single byte is one step.
proof fn lemma_fnv_one(hash: u64, byte: u8)
    ensures
        fnv(hash, seq![byte]) == fnv_step(hash, byte),
{
    assert(seq![byte].drop_first() =~= Seq::<u8>::empty());
    assert(seq![byte][0] == byte);
    assert(fnv(fnv_step(hash, byte), Seq::<u8>::empty()) == fnv_step(hash, byte));
}

/// Reporting `node` in `state` to a path hash feeds it the node's path bytes.
proof fn lemma_hash_node<S>(
    node: Node,
    state: Option<NodeState<S>>,
    hash: u64,
    name: Option<Seq<char>>,
    label: Option<Seq<char>>,
)
    ensures
        inspected::<S, PathHash>(node, state, hash, name, label) == fnv(hash, path_bytes(node, state)),
    decreases node, 1nat,
{
    match node {
        Node::Named(named) => {
            lemma_hash_node(
                named.node,
                state,
                hash,
                if !named.label && name is None {
                    Some(named.name@)
                } else {
                    name
                },
                if named.label && label is None {
                    Some(named.name@)
                } else {
                    label
                },
            );
        },
        _ => {
            if state is None {
                lemma_fnv_one(hash, 2u8);
            } else {
                let entered = fnv_step(hash, 1u8);
                lemma_fnv_one(hash, 1u8);
                assert(fields_inspected::<S, PathHash>(node, state, entered) == entered);
                lemma_hash_children(node, state, entered);
                let inner = child_path_bytes(node, state);
                lemma_fnv_concat(hash, seq![1u8], inner);
                lemma_fnv_concat(hash, seq![1u8] + inner, seq![3u8]);
                lemma_fnv_one(fnv(entered, inner), 3u8);
            }
        },
    }
}

/// Reporting the children of `node` feeds their path bytes, in order.
proof fn lemma_hash_children<S>(node: Node, state: Option<NodeState<S>>, hash: u64)
    ensures
        children_inspected::<S, PathHash>(node, state, hash) == fnv(hash, child_path_bytes(node, state)),
    decreases node, 0nat,
{
    match node {
        Node::Guarded(guarded) => lemma_hash_node(guarded.child, state, hash, None, None),
        Node::Control(control) => lemma_hash_control(control, state, hash, 0),
        Node::Remap(remap) => lemma_hash_node(remap.child, state, hash, None, None),
        Node::RepeatWhile(repeat) => lemma_hash_node(
            repeat.child,
            repeat_child_state(state),
            hash,
            None,
            None,
        ),
        Node::MapAct(map) => lemma_hash_node(map.child, state, hash, None, None),
        Node::ReevaluateWhen(reevaluate) => lemma_hash_node(reevaluate.child, state, hash, None, None),
        _ => {},
    }
}

/// Reporting children `from` on of a control feeds their path bytes.
proof fn lemma_hash_control<S>(control: ControlNode, state: Option<NodeState<S>>, hash: u64, from: nat)
    ensures
        control_inspected::<S, PathHash>(control, state, hash, from) == fnv(
            hash,
            control_path_bytes(control, state, from),
        ),
    decreases control, control.children@.len() - from,
{
    if from < control.children@.len() {
        let child = control.children@[from as int];
        let child_state = control_child_state(state, from);
        lemma_hash_node(child, child_state, hash, None, None);
        let after = fnv(hash, path_bytes(child, child_state));
        lemma_hash_control(control, state, after, from + 1);
        lemma_fnv_concat(hash, path_bytes(child, child_state), control_path_bytes(control, state, from + 1));
    }
}

/// A fingerprint of the running path: equal while the same nodes run. Field
/// values are left out. For logging only on change: keep the last id, and
/// write [`describe`] when a new one differs. Compare ids of one tree only.
pub fn path_id<S>(node: &Node, state: Option<&NodeState<S>>) -> (r: u64)
    ensures
        r == fnv(FNV_OFFSET_BASIS, path_bytes(*node, state_of(state))),
{
    let mut hasher = PathHash { hash: FNV_OFFSET_BASIS };
    inspect(node, state, &mut hasher);
    proof {
        lemma_hash_node(*node, state_of(state), FNV_OFFSET_BASIS, None, None);
    }
    hasher.hash
}


// --- the description as an inspector -------------------------------------------

/// Writes nodes as text, as [`Describe`] shows them: each node entered starts
/// a line (or, on one line, follows ` > `), fields follow in braces, and a
/// node's children are indented one step further. Off the running path it
/// takes nodes only when `all` are written.
struct Text {
    text: String,
    indent: String,
    first: bool,
    fields: bool,
    all: bool,
    lines: bool,
}

/// A text inspector's model: the text so far, the current indentation,
/// whether no node is written yet, whether a field list is open, and the two
/// settings.
type TextModel = (Seq<char>, Seq<char>, bool, bool, bool, bool);

/// The text with an open field list closed.
spec fn closed_text(model: TextModel) -> Seq<char> {
    if model.3 {
        model.0 + "}"@
    } else {
        model.0
    }
}

impl Inspector for Text {
    type Model = TextModel;

    closed spec fn model(&self) -> TextModel {
        (self.text@, self.indent@, self.first, self.fields, self.all, self.lines)
    }

    closed spec fn entered(
        model: TextModel,
        kind: Seq<char>,
        name: Option<Seq<char>>,
        label: Option<Seq<char>>,
        active: bool,
    ) -> (TextModel, bool) {
        let (text, indent, first, fields, all, lines) = model;
        if !active && !all {
            (model, false)
        } else {
            (
                (
                    closed_text(model) + prefix_text(active, all, lines, indent, first) + label_text(label)
                        + name_text(name, kind),
                    indent + "  "@,
                    false,
                    false,
                    all,
                    lines,
                ),
                true,
            )
        }
    }

    closed spec fn with_field(model: TextModel, name: Seq<char>, value: usize) -> TextModel {
        let (text, indent, first, fields, all, lines) = model;
        (
            text + (if fields {
                ", "@
            } else {
                " {"@
            }) + name + ": "@ + decimal(value as u64),
            indent,
            first,
            true,
            all,
            lines,
        )
    }

    closed spec fn exited(model: TextModel) -> TextModel {
        let (text, indent, first, fields, all, lines) = model;
        (
            closed_text(model),
            if indent.len() >= 2 {
                indent.subrange(0, indent.len() - 2)
            } else {
                indent
            },
            first,
            false,
            all,
            lines,
        )
    }

    fn enter(&mut self, node: NodeInfo<'_>) -> (r: bool) {
        if !node.active && !self.all {
            return false;
        }
        self.close_fields();
        write_prefix(node.active, self.all, self.lines, &self.indent, self.first, &mut self.text);
        write_label(node.label, &mut self.text);
        write_name(node.name, node.kind, &mut self.text);
        self.indent.append("  ");
        self.first = false;
        true
    }

    fn field(&mut self, name: &str, value: usize) {
        if self.fields {
            self.text.append(", ");
        } else {
            self.text.append(" {");
        }
        self.text.append(name);
        self.text.append(": ");
        write_decimal(value as u64, &mut self.text);
        self.fields = true;
        proof {
            reveal_strlit(", ");
            reveal_strlit(" {");
            reveal_strlit(": ");
        }
    }

    fn exit(&mut self) {
        self.close_fields();
        let n = self.indent.as_str().unicode_len();
        if n >= 2 {
            self.indent = String::from_str(self.indent.as_str().substring_char(0, n - 2));
        }
    }
}

impl Text {
    /// Closes an open field list.
    fn close_fields(&mut self)
        ensures
            final(self).text@ == closed_text(old(self).model()),
            final(self).fields == false,
            final(self).indent@ == old(self).indent@,
            final(self).first == old(self).first,
            final(self).all == old(self).all,
            final(self).lines == old(self).lines,
    {
        if self.fields {
            self.text.append("}");
            self.fields = false;
            proof {
                reveal_strlit("}");
            }
        }
    }
}

/// The fields a node reports, written to a text inspector with no field list
/// open, give its fields' text.
proof fn lemma_text_fields<S>(node: Node, state: Option<NodeState<S>>, model: TextModel)
    requires
        !model.3,
    ensures
        ({
            let r = fields_inspected::<S, Text>(node, state, model);
            &&& closed_text(r) == closed_text(model) + fields_text(node, state)
            &&& r.1 == model.1 && r.2 == model.2 && r.4 == model.4 && r.5 == model.5
        }),
{
    reveal_strlit(" {");
    reveal_strlit(", ");
    reveal_strlit(": ");
    reveal_strlit("}");
    reveal_strlit("times");
    reveal_strlit("done");
    reveal_strlit("attempts");
    reveal_strlit("failed");
    reveal_strlit(" {times: ");
    reveal_strlit(", done: ");
    reveal_strlit(" {attempts: ");
    reveal_strlit(", failed: ");
    let text = model.0;
    if let Node::Control(control) = node {
        match control.policy {
            Policy::Repeat(times) => {
                let first = decimal(times.0 as u64);
                match state {
                    Some(st) => {
                        let second = decimal(control_state_of(st).inner.count as u64);
                        assert(closed_text(fields_inspected::<S, Text>(node, state, model)) =~= text + (
                        " {times: "@ + first + (", done: "@ + second) + "}"@));
                    },
                    None => {
                        assert(closed_text(fields_inspected::<S, Text>(node, state, model)) =~= text + (
                        " {times: "@ + first + Seq::<char>::empty() + "}"@));
                    },
                }
            },
            Policy::Retry(attempts) => {
                let first = decimal(attempts.0 as u64);
                match state {
                    Some(st) => {
                        let second = decimal(control_state_of(st).inner.count as u64);
                        assert(closed_text(fields_inspected::<S, Text>(node, state, model)) =~= text + (
                        " {attempts: "@ + first + (", failed: "@ + second) + "}"@));
                    },
                    None => {
                        assert(closed_text(fields_inspected::<S, Text>(node, state, model)) =~= text + (
                        " {attempts: "@ + first + Seq::<char>::empty() + "}"@));
                    },
                }
            },
            _ => {
                assert(text + Seq::<char>::empty() =~= text);
            },
        }
    } else {
        assert(text + Seq::<char>::empty() =~= text);
    }
}

/// Reporting `node` in `state` to a text inspector appends the node's text:
/// a node off the running path only when all are written, with its
/// descendants indented one step further.
proof fn lemma_text_node<S>(
    node: Node,
    state: Option<NodeState<S>>,
    model: TextModel,
    name: Option<Seq<char>>,
    label: Option<Seq<char>>,
)
    ensures
        ({
            let r = inspected::<S, Text>(node, state, model, name, label);
            &&& closed_text(r) == closed_text(model) + node_text(
                node,
                state,
                model.4,
                model.5,
                model.1,
                model.2,
                name,
                label,
            )
            &&& r.1 == model.1 && r.4 == model.4 && r.5 == model.5
            &&& r.2 == (model.2 && state is None && !model.4)
        }),
    decreases node, 2nat,
{
    match node {
        Node::Named(named) => {
            let inner_name = if !named.label && name is None {
                Some(named.name@)
            } else {
                name
            };
            let inner_label = if named.label && label is None {
                Some(named.name@)
            } else {
                label
            };
            lemma_text_node(named.node, state, model, inner_name, inner_label);
            assert(inspected::<S, Text>(node, state, model, name, label) == inspected::<S, Text>(
                named.node,
                state,
                model,
                inner_name,
                inner_label,
            ));
            assert(node_text(node, state, model.4, model.5, model.1, model.2, name, label) == node_text(
                named.node,
                state,
                model.4,
                model.5,
                model.1,
                model.2,
                inner_name,
                inner_label,
            ));
        },
        _ => {
            if state is None && !model.4 {
                assert(closed_text(model) + Seq::<char>::empty() =~= closed_text(model));
            } else {
                lemma_text_written(node, state, model, name, label);
            }
        },
    }
}

/// A node that is written: its line, its fields, then its children one step
/// further in.
#[verifier::spinoff_prover]
#[verifier::rlimit(40)]
proof fn lemma_text_written<S>(
    node: Node,
    state: Option<NodeState<S>>,
    model: TextModel,
    name: Option<Seq<char>>,
    label: Option<Seq<char>>,
)
    requires
        !(node is Named),
        !(state is None && !model.4),
    ensures
        ({
            let r = inspected::<S, Text>(node, state, model, name, label);
            &&& closed_text(r) == closed_text(model) + node_text(
                node,
                state,
                model.4,
                model.5,
                model.1,
                model.2,
                name,
                label,
            )
            &&& r.1 == model.1 && r.4 == model.4 && r.5 == model.5
            &&& !r.2
        }),
    decreases node, 1nat,
{
    let (text, indent, first, fields, all, lines) = model;
    let active = state is Some;
    let head = prefix_text(active, all, lines, indent, first) + label_text(label) + name_text(
        name,
        kind_of(node),
    );
    let m1 = Text::entered(model, kind_of(node), name, label, active).0;
    assert(m1 == (closed_text(model) + head, indent + "  "@, false, false, all, lines));
    lemma_text_fields(node, state, m1);
    let m2 = fields_inspected::<S, Text>(node, state, m1);
    lemma_text_children(node, state, m2);
    let m3 = children_inspected::<S, Text>(node, state, m2);
    let r = Text::exited(m3);
    assert(inspected::<S, Text>(node, state, model, name, label) == r);
    reveal_strlit("  ");
    assert((indent + "  "@).subrange(0, indent.len() as int) =~= indent);
    reveal(line_text);
    let fields_part = fields_text(node, state);
    let children_part = children_text(node, state, all, lines, indent + "  "@);
    assert(closed_text(r) =~= closed_text(model) + (head + fields_part + children_part));
    assert(node_text(node, state, all, lines, indent, first, name, label) =~= head + fields_part
        + children_part);
}

/// Reporting the children of a written node appends their text.
proof fn lemma_text_children<S>(node: Node, state: Option<NodeState<S>>, model: TextModel)
    requires
        !model.2,
    ensures
        ({
            let r = children_inspected::<S, Text>(node, state, model);
            &&& closed_text(r) == closed_text(model) + children_text(node, state, model.4, model.5, model.1)
            &&& r.1 == model.1 && !r.2 && r.4 == model.4 && r.5 == model.5
        }),
    decreases node, 0nat,
{
    match node {
        Node::Guarded(guarded) => lemma_text_node(guarded.child, state, model, None, None),
        Node::Control(control) => lemma_text_control(control, state, model, 0),
        Node::Remap(remap) => lemma_text_node(remap.child, state, model, None, None),
        Node::RepeatWhile(repeat) => lemma_text_node(repeat.child, repeat_child_state(state), model, None, None),
        Node::MapAct(map) => lemma_text_node(map.child, state, model, None, None),
        Node::ReevaluateWhen(reevaluate) => lemma_text_node(reevaluate.child, state, model, None, None),
        _ => {
            assert(closed_text(model) + Seq::<char>::empty() =~= closed_text(model));
        },
    }
}

/// Reporting children `from` on of a written control appends their text.
proof fn lemma_text_control<S>(control: ControlNode, state: Option<NodeState<S>>, model: TextModel, from: nat)
    requires
        !model.2,
    ensures
        ({
            let r = control_inspected::<S, Text>(control, state, model, from);
            &&& closed_text(r) == closed_text(model) + control_text(
                control,
                state,
                model.4,
                model.5,
                model.1,
                from,
            )
            &&& r.1 == model.1 && !r.2 && r.4 == model.4 && r.5 == model.5
        }),
    decreases control, control.children@.len() - from,
{
    if from < control.children@.len() {
        let child = control.children@[from as int];
        let child_state = control_child_state(state, from);
        lemma_text_node(child, child_state, model, None, None);
        let after = inspected::<S, Text>(child, child_state, model, None, None);
        lemma_text_control(control, state, after, from + 1);
        let head = node_text(child, child_state, model.4, model.5, model.1, false, None, None);
        let rest = control_text(control, state, model.4, model.5, model.1, from + 1);
        assert(closed_text(model) + head + rest =~= closed_text(model) + (head + rest));
    } else {
        assert(closed_text(model) + Seq::<char>::empty() =~= closed_text(model));
    }
}

} // verus!
