//! Text views, fingerprints and names of trees that run over a small world.

use flatbt::arena::Mind;
use flatbt::inspect::{FNV_OFFSET_BASIS, FNV_PRIME, Inspector, NodeInfo, describe, kind, path_id};
use flatbt::names::{fn_name, last_segment};
use flatbt::runtime::Entry;
use flatbt::tree::seq as sequence;
use flatbt::{
    BtContext, BtState, EntryMode, Node, NodeResult, NodeState, check, force_success, guard,
    invert, label, leaf, named, repeat, retry, select, update, update_slot,
};

/// Leaves: 0 fires, 1 reloads, 2 runs idle, 3 succeeds, 4 fails.
/// Predicates: 0 has ammo, 1 `n < 2`.
struct Ammo {
    ammo: u32,
    n: u32,
}

impl BtContext<&'static str> for Ammo {
    type ActionState = u32;

    fn leaf(&mut self, leaf: usize) -> NodeResult<&'static str> {
        match leaf {
            0 => NodeResult::Running("fire"),
            1 => NodeResult::Running("reload"),
            2 => NodeResult::Running("idle"),
            3 => NodeResult::Success,
            _ => NodeResult::Failure,
        }
    }
    fn check(&self, predicate: usize) -> bool {
        match predicate {
            0 => self.ammo > 0,
            _ => self.n < 2,
        }
    }
    fn act(&self, _: usize) -> &'static str {
        "idle"
    }
    fn map_act(_: usize, act: &'static str) -> &'static str {
        act
    }
    fn score(&self, _: usize, _: usize) -> i64 {
        0
    }
    fn draw(&mut self, _: usize) -> u32 {
        0
    }
    fn draw_weighted(&mut self, _: usize, _: usize, _: u64, _: usize) -> Option<usize> {
        None
    }
    fn start(&mut self, _: usize) -> Option<u32> {
        None
    }
    fn is_in_progress(&self, _: usize, _: &u32) -> bool {
        false
    }
    fn tick(&mut self, _: usize, _: &mut u32) -> &'static str {
        "idle"
    }
    fn complete(&mut self, _: usize, _: &mut u32) -> bool {
        true
    }

    fn leaf_effect(mut self, leaf: usize) -> (Self, NodeResult<&'static str>) {
        let r = self.leaf(leaf);
        (self, r)
    }
    fn holds(self, predicate: usize) -> bool {
        self.check(predicate)
    }
    fn act_of(self, act: usize) -> &'static str {
        self.act(act)
    }
    fn mapped(map: usize, act: &'static str) -> &'static str {
        Self::map_act(map, act)
    }
    fn score_of(self, scorer: usize, index: usize) -> i64 {
        self.score(scorer, index)
    }
    fn draw_effect(mut self, rng: usize) -> (Self, u32) {
        let r = self.draw(rng);
        (self, r)
    }
    fn weighted_draw_effect(mut self, rng: usize, weights: usize, used: u64, count: usize) -> (Self, Option<usize>) {
        let r = self.draw_weighted(rng, weights, used, count);
        (self, r)
    }
    fn start_effect(mut self, action: usize) -> (Self, Option<u32>) {
        let r = self.start(action);
        (self, r)
    }
    fn in_progress(self, action: usize, state: u32) -> bool {
        self.is_in_progress(action, &state)
    }
    fn tick_effect(mut self, action: usize, mut state: u32) -> (Self, u32, &'static str) {
        let act = self.tick(action, &mut state);
        (self, state, act)
    }
    fn complete_effect(mut self, action: usize, mut state: u32) -> (Self, u32, bool) {
        let ok = self.complete(action, &mut state);
        (self, state, ok)
    }
}

fn attack_or_reload() -> Node {
    select(vec![
        sequence(vec![check(0).named("has_ammo"), leaf(0)]).named("attack"),
        named("reload", leaf(1)),
    ])
}

#[test]
fn describe_writes_the_running_path_and_the_whole_tree() {
    let tree = attack_or_reload();
    let mut state = BtState::new(&tree);
    let mut world = Ammo { ammo: 3, n: 0 };
    let r = state.update(&mut world, EntryMode::Evaluate);
    assert_eq!(r, NodeResult::Running("fire"));
    assert_eq!(state.describe().to_string(), "select > attack (seq) > leaf");
    assert_eq!(
        state.describe().with_inactive().to_string_alternate(),
        "* select\n  * attack (seq)\n    - has_ammo (check)\n    * leaf\n  - reload (leaf)",
    );
    assert_eq!(state.describe().to_string_alternate(), "select\n  attack (seq)\n    leaf");
}

#[test]
fn describe_follows_the_other_branch_when_it_runs() {
    let tree = attack_or_reload();
    let mut state = BtState::new(&tree);
    let mut world = Ammo { ammo: 0, n: 0 };
    assert_eq!(update(&tree, &mut state, &mut world, EntryMode::Evaluate), NodeResult::Running("reload"));
    assert_eq!(state.describe().to_string(), "select > reload (leaf)");
}

#[test]
fn a_tree_that_is_not_running_says_so() {
    let tree = attack_or_reload();
    let state: BtState<'_, u32> = BtState::new(&tree);
    assert_eq!(state.describe().to_string(), "not running");
    assert_eq!(state.describe().to_string_alternate(), "not running");
    assert_eq!(
        state.describe().with_inactive().to_string_alternate(),
        "- select\n  - attack (seq)\n    - has_ammo (check)\n    - leaf\n  - reload (leaf)",
    );
}

#[test]
fn path_id_changes_only_when_the_running_path_does() {
    let tree = select(vec![guard(1, leaf(2)), leaf(2)]);
    let mut state = BtState::new(&tree);
    let mut world = Ammo { ammo: 0, n: 0 };
    let mut logged: Vec<String> = Vec::new();
    let mut last: Option<u64> = None;
    for _ in 0..4 {
        let _ = update(&tree, &mut state, &mut world, EntryMode::Evaluate);
        if last.replace(state.path_id()) != Some(state.path_id()) {
            logged.push(state.describe().to_string());
        }
        world.n += 1;
    }
    assert_eq!(logged, ["select > guard > leaf", "select > leaf"]);
}

#[test]
fn path_id_of_a_slot_matches_the_bound_state() {
    let tree = attack_or_reload();
    let mut state = BtState::new(&tree);
    let mut slot: Option<NodeState<u32>> = None;
    let mut world = Ammo { ammo: 3, n: 0 };
    let _ = state.update(&mut world, EntryMode::Evaluate);
    let _ = update_slot(&tree, &mut slot, &mut world, EntryMode::Evaluate);
    assert_eq!(path_id(&tree, slot.as_ref()), state.path_id());
    assert_eq!(describe(&tree, slot.as_ref()).to_string(), "select > attack (seq) > leaf");
    let idle = path_id::<u32>(&tree, None);
    assert_ne!(idle, state.path_id());
    assert_eq!(idle, BtState::<u32>::new(&tree).path_id());
}

#[test]
fn an_idle_leaf_hashes_one_byte_with_fnv_1a() {
    // A node off the running path feeds the single byte 2.
    let tree = leaf(3);
    let expected = (FNV_OFFSET_BASIS ^ 2).wrapping_mul(FNV_PRIME);
    assert_eq!(path_id::<u32>(&tree, None), expected);
    assert_eq!(FNV_OFFSET_BASIS, 0xcbf2_9ce4_8422_2325);
    assert_eq!(FNV_PRIME, 0x0100_0000_01b3);

    // A running leaf feeds 1 then 3.
    let mut slot: Option<NodeState<u32>> = None;
    let mut world = Ammo { ammo: 0, n: 0 };
    let running = leaf(2);
    let _ = update_slot(&running, &mut slot, &mut world, EntryMode::Evaluate);
    let expected = ((FNV_OFFSET_BASIS ^ 1).wrapping_mul(FNV_PRIME) ^ 3).wrapping_mul(FNV_PRIME);
    assert_eq!(path_id(&running, slot.as_ref()), expected);
}

#[test]
fn repeat_and_retry_report_their_counts() {
    let tree = repeat(3, sequence(vec![leaf(3), leaf(2)]));
    let mut state = BtState::new(&tree);
    let mut world = Ammo { ammo: 0, n: 0 };
    let _ = state.update(&mut world, EntryMode::Evaluate);
    assert_eq!(state.describe().to_string(), "repeat {times: 3, done: 0} > seq > leaf");

    let tree = retry(2, leaf(2));
    let state: BtState<'_, u32> = BtState::new(&tree);
    assert_eq!(
        state.describe().with_inactive().to_string_alternate(),
        "- retry {attempts: 2}\n  - leaf",
    );
}

#[test]
fn labels_come_first_and_the_outermost_name_wins() {
    let tree = label("low ammo", named("outer", named("inner", leaf(2))));
    let mut state = BtState::new(&tree);
    let mut world = Ammo { ammo: 0, n: 0 };
    let _ = state.update(&mut world, EntryMode::Evaluate);
    assert_eq!(state.describe().to_string(), "low ammo => outer (leaf)");
}

#[test]
fn kinds_name_the_constructor() {
    assert_eq!(kind(&leaf(0)), "leaf");
    assert_eq!(kind(&check(0)), "check");
    assert_eq!(kind(&attack_or_reload()), "select");
    assert_eq!(kind(&invert(leaf(0))), "invert");
    assert_eq!(kind(&force_success(leaf(0))), "force_success");
    assert_eq!(kind(&named("x", leaf(0))), "named");
    assert_eq!(kind(&flatbt::weighted_select(0, 0, vec![leaf(0)])), "weighted_select");
}

#[test]
fn node_info_starts_without_names() {
    let info = NodeInfo::new("seq", true);
    assert_eq!(info.kind, "seq");
    assert_eq!(info.name, None);
    assert_eq!(info.label, None);
    assert!(info.active);
    let named_info = info.name(Some("attack"));
    assert_eq!(named_info.name, Some("attack"));
    assert_eq!(named_info.kind, "seq");
}

#[test]
fn last_segment_drops_the_path_and_generic_arguments() {
    assert_eq!(last_segment("flatbt::nodes::action::ActionNode<game::Walk>"), "ActionNode");
    assert_eq!(last_segment("u32"), "u32");
    assert_eq!(last_segment("a::b::C<d::E<f::G>>"), "C");
}

#[test]
fn fn_name_names_function_items_only() {
    assert_eq!(fn_name("game::has_ammo"), Some("has_ammo"));
    assert_eq!(fn_name("fn(&u32) -> bool"), None);
    assert_eq!(fn_name("game::main::{{closure}}"), None);
    assert_eq!(fn_name("has_ammo"), Some("has_ammo"));
}

#[test]
fn minds_cycle_through_the_three_kinds() {
    assert_eq!(Mind::nth(0), Mind::Chaser);
    assert_eq!(Mind::nth(1), Mind::Sniper);
    assert_eq!(Mind::nth(2), Mind::Coward);
    assert_eq!(Mind::nth(3), Mind::Chaser);
    assert_eq!(Mind::nth(u32::MAX), Mind::Chaser);
}

#[test]
fn entries_keep_their_mode_for_held_children() {
    let entry = Entry::new(EntryMode::Resume);
    assert_eq!(entry.mode(), EntryMode::Resume);
    assert_eq!(entry.with_mode(EntryMode::Evaluate).mode(), EntryMode::Evaluate);
    assert_eq!(entry.child(1, 3).mode(), EntryMode::Resume);
    assert_eq!(entry.candidate(0, 3).mode(), EntryMode::Evaluate);
    let mut world = Ammo { ammo: 0, n: 0 };
    let (_, r) = entry.run_candidate(0, &leaf(3), &mut world);
    assert_eq!(r, NodeResult::Success);
    let (state, r) = entry.run(0, &leaf(2), NodeState::Empty, &mut world);
    assert_eq!(r, NodeResult::Running("idle"));
    assert!(matches!(state, NodeState::Empty));
}

/// Writes what it receives, one entry per call, and declines the node whose
/// kind is `skip`. Its model is empty: nothing here is verified.
struct Recorder {
    events: Vec<String>,
    skip: &'static str,
}

impl Inspector for Recorder {
    type Model = ();

    fn model(&self) {}
    fn entered(
        _: (),
        _: vstd::seq::Seq<char>,
        _: Option<vstd::seq::Seq<char>>,
        _: Option<vstd::seq::Seq<char>>,
        _: bool,
    ) -> ((), bool) {
        ((), true)
    }
    fn with_field(_: (), _: vstd::seq::Seq<char>, _: usize) {}
    fn exited(_: ()) {}

    fn enter(&mut self, node: NodeInfo<'_>) -> bool {
        let mut line = String::from(if node.active { "enter* " } else { "enter " });
        if let Some(label) = node.label {
            line.push_str(label);
            line.push_str(" => ");
        }
        line.push_str(node.kind);
        if let Some(name) = node.name {
            line.push_str(" ");
            line.push_str(name);
        }
        self.events.push(line);
        node.kind != self.skip
    }
    fn field(&mut self, name: &str, value: usize) {
        self.events.push(format!("{name} = {value}"));
    }
    fn exit(&mut self) {
        self.events.push(String::from("exit"));
    }
}

#[test]
fn an_inspector_receives_nodes_fields_and_nesting_in_order() {
    let tree = attack_or_reload();
    let mut state = BtState::new(&tree);
    let mut world = Ammo { ammo: 3, n: 0 };
    let _ = state.update(&mut world, EntryMode::Evaluate);
    let mut recorder = Recorder { events: Vec::new(), skip: "" };
    state.inspect(&mut recorder);
    assert_eq!(
        recorder.events,
        [
            "enter* select",
            "enter* seq attack",
            "enter check has_ammo",
            "exit",
            "enter* leaf",
            "exit",
            "exit",
            "enter leaf reload",
            "exit",
            "exit",
        ],
    );
}

#[test]
fn an_inspector_that_declines_a_node_skips_its_fields_and_children() {
    let tree = sequence(vec![repeat(2, label("again", leaf(3))), retry(4, leaf(4))]);
    let mut recorder = Recorder { events: Vec::new(), skip: "retry" };
    flatbt::inspect::inspect::<u32, Recorder>(&tree, None, &mut recorder);
    assert_eq!(
        recorder.events,
        [
            "enter seq",
            "enter repeat",
            "times = 2",
            "enter again => leaf",
            "exit",
            "exit",
            "enter retry",
            "exit",
        ],
    );
}

#[test]
fn names_do_not_change_what_a_tree_does() {
    let plain = select(vec![sequence(vec![check(0), leaf(0)]), leaf(1)]);
    let named_tree = attack_or_reload();
    for ammo in [0, 3] {
        let mut a = Ammo { ammo, n: 0 };
        let mut b = Ammo { ammo, n: 0 };
        let mut plain_state = BtState::new(&plain);
        let mut named_state = BtState::new(&named_tree);
        assert_eq!(
            plain_state.update(&mut a, EntryMode::Evaluate),
            named_state.update(&mut b, EntryMode::Evaluate),
        );
        assert_eq!(plain_state.path_id(), named_state.path_id());
    }
}
