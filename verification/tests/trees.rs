//! Trees run over a small world whose callbacks are plain functions.

use flatbt::control::{PolicyState, Repeat, Utility, run_uniform};
use flatbt::tree::seq as sequence;
use flatbt::{
    BtContext, BtState, ControlOp, ControlState, EntryMode, Node, NodeResult, NodeState, Order,
    OrderedState, Policy, action, action_while, by_score, check, control, control_ordered,
    force_failure, force_success, guard, if_else, invert, leaf, map_act, order_by, random_select,
    reevaluate_when, repeat, repeat_while, retry, select, select_ordered, seq_ordered,
    shuffle_seq, shuffled, update, update_slot, utility, weighted, weighted_select,
};

#[derive(Clone, Copy, Debug, PartialEq)]
enum Act {
    Fire,
    Reload,
    Idle,
    Wander,
    Eat,
    Sleep,
    Busy,
    Step(u32),
    Walk(u32),
}

struct Task {
    name: &'static str,
    steps: u32,
}

struct World {
    ammo: u32,
    pos: u32,
    n: u32,
    urgent: bool,
    hunger: i64,
    fatigue: i64,
    trace: Vec<&'static str>,
    leaves: Vec<fn(&mut World) -> NodeResult<Act>>,
    predicates: Vec<fn(&World) -> bool>,
    acts: Vec<fn(&World) -> Act>,
    scorers: Vec<fn(&World, usize) -> i64>,
    weights: Vec<fn(&World, usize) -> f32>,
    tasks: Vec<Task>,
}

impl World {
    fn new() -> World {
        World {
            ammo: 0,
            pos: 0,
            n: 0,
            urgent: false,
            hunger: 0,
            fatigue: 0,
            trace: Vec::new(),
            leaves: Vec::new(),
            predicates: Vec::new(),
            acts: Vec::new(),
            scorers: Vec::new(),
            weights: Vec::new(),
            tasks: Vec::new(),
        }
    }
}

impl BtContext<Act> for World {
    type ActionState = u32;

    fn leaf(&mut self, leaf: usize) -> NodeResult<Act> {
        let f = self.leaves[leaf];
        f(self)
    }
    fn check(&self, predicate: usize) -> bool {
        (self.predicates[predicate])(self)
    }
    fn act(&self, act: usize) -> Act {
        (self.acts[act])(self)
    }
    fn map_act(map: usize, act: Act) -> Act {
        match (map, act) {
            (_, Act::Step(n)) => Act::Walk(n),
            (_, other) => other,
        }
    }
    fn score(&self, scorer: usize, index: usize) -> i64 {
        (self.scorers[scorer])(self, index)
    }
    fn draw(&mut self, _: usize) -> u32 {
        self.n += 1;
        self.n
    }
    fn draw_weighted(&mut self, rng: usize, weights: usize, used: u64, count: usize) -> Option<usize> {
        // Weights that are not positive count as zero; one draw per call.
        let weight = self.weights[weights];
        let candidates: Vec<usize> =
            (0..count.min(64)).filter(|i| used & (1u64 << i) == 0).collect();
        let total: f32 = candidates.iter().map(|i| weight(self, *i).max(0.0)).sum();
        if total <= 0.0 || !total.is_finite() {
            return None;
        }
        let point = self.draw(rng) as f32 / (u32::MAX as f32 + 1.0) * total;
        let mut last = None;
        let mut sum = 0.0;
        for i in candidates {
            let w = weight(self, i).max(0.0);
            if w == 0.0 {
                continue;
            }
            sum += w;
            last = Some(i);
            if point < sum {
                break;
            }
        }
        last
    }
    fn start(&mut self, _: usize) -> Option<u32> {
        Some(0)
    }
    fn is_in_progress(&self, action: usize, elapsed: &u32) -> bool {
        *elapsed < self.tasks[action].steps
    }
    fn tick(&mut self, action: usize, elapsed: &mut u32) -> Act {
        *elapsed += 1;
        let name = self.tasks[action].name;
        self.trace.push(name);
        Act::Busy
    }
    fn complete(&mut self, _: usize, _: &mut u32) -> bool {
        true
    }

    fn leaf_effect(mut self, leaf: usize) -> (Self, NodeResult<Act>) {
        let r = self.leaf(leaf);
        (self, r)
    }
    fn holds(self, predicate: usize) -> bool {
        self.check(predicate)
    }
    fn act_of(self, act: usize) -> Act {
        self.act(act)
    }
    fn mapped(map: usize, act: Act) -> Act {
        Self::map_act(map, act)
    }
    fn score_of(self, scorer: usize, index: usize) -> i64 {
        self.score(scorer, index)
    }
    fn draw_effect(mut self, rng: usize) -> (Self, u32) {
        let r = self.draw(rng);
        (self, r)
    }
    fn weighted_draw_effect(mut self, rng: usize, weights: usize, used: u64, count: usize) -> (Self, Option<usize>) {
        let r = self.draw_weighted(rng, weights, used, count);
        (self, r)
    }
    fn start_effect(mut self, action: usize) -> (Self, Option<u32>) {
        let r = self.start(action);
        (self, r)
    }
    fn in_progress(self, action: usize, state: u32) -> bool {
        self.is_in_progress(action, &state)
    }
    fn tick_effect(mut self, action: usize, mut state: u32) -> (Self, u32, Act) {
        let act = self.tick(action, &mut state);
        (self, state, act)
    }
    fn complete_effect(mut self, action: usize, mut state: u32) -> (Self, u32, bool) {
        let ok = self.complete(action, &mut state);
        (self, state, ok)
    }
}

fn run(tree: &Node, world: &mut World, mode: EntryMode) -> NodeResult<Act> {
    let mut state = BtState::new(tree);
    update(tree, &mut state, world, mode)
}

// --- the crate's own examples ---------------------------------------------------

#[test]
fn a_sequence_checks_then_spends_a_round() {
    let mut world = World::new();
    world.ammo = 1;
    world.predicates = vec![|w| w.ammo > 0];
    world.leaves = vec![|w| {
        w.ammo -= 1;
        NodeResult::Success
    }];
    let tree = sequence(vec![check(0), leaf(0)]);
    assert_eq!(run(&tree, &mut world, EntryMode::Resume), NodeResult::Success);
    assert_eq!(world.ammo, 0);
}

#[test]
fn a_dry_agent_reports_reloading() {
    let mut world = World::new();
    world.predicates = vec![|w| w.ammo == 0];
    world.leaves = vec![|_| NodeResult::Running(Act::Reload)];
    let tree = sequence(vec![check(0), leaf(0)]);
    assert_eq!(run(&tree, &mut world, EntryMode::Evaluate).act(), Some(Act::Reload));
}

#[test]
fn a_slot_holds_state_while_running_and_clears_when_done() {
    let mut world = World::new();
    world.leaves = vec![|w| {
        w.n += 1;
        if w.n < 2 {
            NodeResult::Running(Act::Idle)
        } else {
            NodeResult::Success
        }
    }];
    let tree = leaf(0);
    let mut slot = None;
    assert!(update_slot(&tree, &mut slot, &mut world, EntryMode::Resume).is_running());
    assert!(slot.is_some());
    assert_eq!(update_slot(&tree, &mut slot, &mut world, EntryMode::Resume), NodeResult::Success);
    assert!(slot.is_none());
}

#[test]
fn a_guard_ends_its_running_child_when_it_stops_holding() {
    let mut world = World::new();
    world.ammo = 1;
    world.predicates = vec![|w| w.ammo > 0];
    world.leaves = vec![|_| NodeResult::Running(Act::Fire)];
    let tree = guard(0, leaf(0));
    let mut state = BtState::new(&tree);
    assert!(update(&tree, &mut state, &mut world, EntryMode::Resume).is_running());
    world.ammo = 0;
    assert_eq!(update(&tree, &mut state, &mut world, EntryMode::Resume), NodeResult::Failure);
    assert!(!state.is_running());
}

#[test]
fn a_check_before_a_running_leaf_is_asked_only_on_entry() {
    let mut world = World::new();
    world.ammo = 3;
    world.predicates = vec![|w| w.ammo > 0];
    world.leaves = vec![|_| NodeResult::Running(Act::Fire), |_| NodeResult::Running(Act::Reload)];
    let tree = select(vec![sequence(vec![check(0), leaf(0)]), leaf(1)]);
    let mut state = BtState::new(&tree);
    assert_eq!(update(&tree, &mut state, &mut world, EntryMode::Evaluate).act(), Some(Act::Fire));
    world.ammo = 0;
    // The sequence goes straight back to its running child.
    assert_eq!(update(&tree, &mut state, &mut world, EntryMode::Evaluate).act(), Some(Act::Fire));
    // A guard asks on every update.
    let guarded = select(vec![guard(0, leaf(0)), leaf(1)]);
    let mut state = BtState::new(&guarded);
    world.ammo = 3;
    assert_eq!(update(&guarded, &mut state, &mut world, EntryMode::Evaluate).act(), Some(Act::Fire));
    world.ammo = 0;
    assert_eq!(update(&guarded, &mut state, &mut world, EntryMode::Evaluate).act(), Some(Act::Reload));
}

#[test]
fn repeat_while_walks_until_it_arrives() {
    let mut world = World::new();
    world.predicates = vec![|w| w.pos < 2, |_| true];
    world.acts = vec![|w| Act::Step(w.pos + 1)];
    let tree = repeat_while(0, action_while(1, 0));
    let mut state = BtState::new(&tree);
    assert_eq!(update(&tree, &mut state, &mut world, EntryMode::Resume), NodeResult::Running(Act::Step(1)));
    world.pos = 2;
    assert_eq!(update(&tree, &mut state, &mut world, EntryMode::Resume), NodeResult::Success);
}

#[test]
fn repeat_while_fails_a_child_that_never_runs() {
    let mut world = World::new();
    world.predicates = vec![|_| true];
    world.leaves = vec![|_| NodeResult::Success, |_| NodeResult::Failure];
    assert_eq!(run(&repeat_while(0, leaf(0)), &mut world, EntryMode::Evaluate), NodeResult::Failure);
    assert_eq!(run(&repeat_while(0, leaf(1)), &mut world, EntryMode::Evaluate), NodeResult::Failure);
    // A condition that does not hold succeeds without running the child.
    world.predicates = vec![|_| false];
    world.leaves = vec![|w| {
        w.n += 1;
        NodeResult::Failure
    }];
    assert_eq!(run(&repeat_while(0, leaf(0)), &mut world, EntryMode::Evaluate), NodeResult::Success);
    assert_eq!(world.n, 0);
}

#[test]
fn repeat_while_restarts_a_child_that_succeeded_after_running() {
    let mut world = World::new();
    world.predicates = vec![|w| w.n < 10];
    // Runs once, succeeds on the next update, then runs again.
    world.leaves = vec![|w| {
        w.n += 1;
        if w.n % 2 == 1 {
            NodeResult::Running(Act::Busy)
        } else {
            NodeResult::Success
        }
    }];
    let tree = repeat_while(0, leaf(0));
    let mut state = BtState::new(&tree);
    assert!(update(&tree, &mut state, &mut world, EntryMode::Resume).is_running());
    assert!(update(&tree, &mut state, &mut world, EntryMode::Resume).is_running());
    assert_eq!(world.n, 3);
}

#[test]
fn map_act_converts_the_act_only() {
    let mut world = World::new();
    world.leaves = vec![|_| NodeResult::Running(Act::Step(3)), |_| NodeResult::Failure];
    assert_eq!(run(&map_act(0, leaf(0)), &mut world, EntryMode::Evaluate).act(), Some(Act::Walk(3)));
    assert_eq!(run(&map_act(0, leaf(1)), &mut world, EntryMode::Evaluate), NodeResult::Failure);
}

#[test]
fn if_else_runs_the_branch_its_condition_picks() {
    let mut world = World::new();
    world.predicates = vec![|w| w.ammo > 0];
    world.leaves = vec![|_| NodeResult::Running(Act::Fire), |_| NodeResult::Running(Act::Reload)];
    let tree = if_else(0, leaf(0), leaf(1));
    assert_eq!(run(&tree, &mut world, EntryMode::Evaluate).act(), Some(Act::Reload));
    world.ammo = 2;
    assert_eq!(run(&tree, &mut world, EntryMode::Evaluate).act(), Some(Act::Fire));
}

#[test]
fn if_else_keeps_its_running_branch_on_resume_and_may_switch_on_evaluate() {
    let mut world = World::new();
    world.predicates = vec![|w| w.ammo > 0];
    world.leaves = vec![|_| NodeResult::Running(Act::Fire), |_| NodeResult::Running(Act::Reload)];
    let tree = if_else(0, leaf(0), leaf(1));
    let mut state = BtState::new(&tree);
    world.ammo = 1;
    assert_eq!(update(&tree, &mut state, &mut world, EntryMode::Resume).act(), Some(Act::Fire));
    world.ammo = 0;
    assert_eq!(update(&tree, &mut state, &mut world, EntryMode::Resume).act(), Some(Act::Fire));
    assert_eq!(update(&tree, &mut state, &mut world, EntryMode::Evaluate).act(), Some(Act::Reload));
}

#[test]
fn utility_runs_the_best_scoring_child() {
    let mut world = World::new();
    world.hunger = 20;
    world.fatigue = 90;
    world.scorers = vec![|w, index| if index == 0 { w.hunger } else { w.fatigue }];
    world.leaves = vec![|_| NodeResult::Running(Act::Eat), |_| NodeResult::Running(Act::Sleep)];
    let tree = utility(0, vec![leaf(0), leaf(1)]);
    assert_eq!(run(&tree, &mut world, EntryMode::Evaluate), NodeResult::Running(Act::Sleep));
    world.hunger = 80;
    world.fatigue = 30;
    assert_eq!(run(&tree, &mut world, EntryMode::Evaluate), NodeResult::Running(Act::Eat));
}

#[test]
fn utility_falls_back_to_the_best_untried_child() {
    let mut world = World::new();
    world.scorers = vec![|_, index| [5, 9, 7][index]];
    world.leaves = vec![
        |_| NodeResult::Running(Act::Eat),
        |w| {
            w.trace.push("best");
            NodeResult::Failure
        },
        |w| {
            w.trace.push("next");
            NodeResult::Failure
        },
    ];
    let tree = utility(0, vec![leaf(0), leaf(1), leaf(2)]);
    assert_eq!(run(&tree, &mut world, EntryMode::Evaluate), NodeResult::Running(Act::Eat));
    assert_eq!(world.trace, ["best", "next"]);
}

#[test]
fn utility_ties_keep_the_running_child_and_otherwise_go_to_the_lower_index() {
    let mut world = World::new();
    world.scorers = vec![|_, _| 1];
    world.leaves = vec![|_| NodeResult::Running(Act::Eat), |_| NodeResult::Running(Act::Sleep)];
    let tree = utility(0, vec![leaf(0), leaf(1)]);
    assert_eq!(run(&tree, &mut world, EntryMode::Evaluate).act(), Some(Act::Eat));
    // With child 1 running, a tie keeps it.
    let mut state: Option<NodeState<u32>> = Some(NodeState::Control(ControlState {
        children: Some((1, Box::new(NodeState::Empty))),
        inner: PolicyState { count: 0, tried: 0 },
        ordered: OrderedState { used: 0, at: None },
    }));
    assert_eq!(update_slot(&tree, &mut state, &mut world, EntryMode::Evaluate).act(), Some(Act::Sleep));
}

#[test]
fn utility_inertia_holds_the_running_child_against_a_slightly_better_one() {
    let mut world = World::new();
    world.hunger = 50;
    world.fatigue = 55;
    world.scorers = vec![|w, index| if index == 0 { w.hunger } else { w.fatigue }];
    world.leaves = vec![|_| NodeResult::Running(Act::Eat), |_| NodeResult::Running(Act::Sleep)];
    let tree = control(Policy::Utility(Utility::new(0).inertia(10)), vec![leaf(0), leaf(1)]);
    let mut state = BtState::new(&tree);
    world.hunger = 60;
    assert_eq!(update(&tree, &mut state, &mut world, EntryMode::Evaluate).act(), Some(Act::Eat));
    world.hunger = 50;
    // 50 + 10 beats 55.
    assert_eq!(update(&tree, &mut state, &mut world, EntryMode::Evaluate).act(), Some(Act::Eat));
    world.fatigue = 61;
    assert_eq!(update(&tree, &mut state, &mut world, EntryMode::Evaluate).act(), Some(Act::Sleep));
}

#[test]
fn random_select_draws_from_the_context() {
    let mut world = World::new();
    world.leaves = vec![|_| NodeResult::Running(Act::Idle), |_| NodeResult::Running(Act::Wander)];
    let tree = random_select(0, vec![leaf(0), leaf(1)]);
    // The counter draws 1, so the second of two children.
    assert_eq!(run(&tree, &mut world, EntryMode::Evaluate).act(), Some(Act::Wander));
}

#[test]
fn random_select_tries_each_child_once() {
    let mut world = World::new();
    world.leaves = vec![
        |w| {
            w.trace.push("a");
            NodeResult::Failure
        },
        |w| {
            w.trace.push("b");
            NodeResult::Failure
        },
        |w| {
            w.trace.push("c");
            NodeResult::Failure
        },
    ];
    let tree = random_select(0, vec![leaf(0), leaf(1), leaf(2)]);
    assert_eq!(run(&tree, &mut world, EntryMode::Evaluate), NodeResult::Failure);
    let mut tried = world.trace.clone();
    tried.sort();
    assert_eq!(tried, ["a", "b", "c"]);
}

#[test]
fn shuffle_seq_runs_every_child_once() {
    let mut world = World::new();
    world.leaves = vec![
        |w| {
            w.trace.push("a");
            NodeResult::Success
        },
        |w| {
            w.trace.push("b");
            NodeResult::Success
        },
    ];
    let tree = shuffle_seq(0, vec![leaf(0), leaf(1)]);
    assert_eq!(run(&tree, &mut world, EntryMode::Evaluate), NodeResult::Success);
    let mut ran = world.trace.clone();
    ran.sort();
    assert_eq!(ran, ["a", "b"]);
    assert_eq!(run(&shuffle_seq(0, vec![]), &mut world, EntryMode::Evaluate), NodeResult::Success);
}

#[test]
fn action_while_reports_its_act_until_the_condition_ends() {
    let mut world = World::new();
    world.ammo = 2;
    world.predicates = vec![|w| w.ammo < 3];
    world.acts = vec![|_| Act::Reload];
    let tree = action_while(0, 0);
    let mut state = BtState::new(&tree);
    assert_eq!(update(&tree, &mut state, &mut world, EntryMode::Resume), NodeResult::Running(Act::Reload));
    world.ammo = 3;
    assert_eq!(update(&tree, &mut state, &mut world, EntryMode::Resume), NodeResult::Success);
}

// --- the crate's example programs -------------------------------------------------

#[test]
fn synchronous_trees_run_to_completion_in_one_update() {
    fn tree() -> Node {
        select(vec![
            sequence(vec![check(0), leaf(0), control(Policy::Repeat(Repeat(2)), vec![leaf(1)])]),
            sequence(vec![check(1), leaf(2)]),
            leaf(3),
        ])
    }
    fn world(visible: bool, ammo: u32, route: bool) -> World {
        let mut world = World::new();
        world.urgent = visible;
        world.ammo = ammo;
        world.pos = if route { 1 } else { 0 };
        world.predicates = vec![|w| w.urgent && w.ammo >= 2, |w| w.pos == 1];
        world.leaves = vec![
            |w| {
                w.trace.push("aim");
                NodeResult::Success
            },
            |w| {
                w.ammo -= 1;
                w.trace.push("fire");
                NodeResult::Success
            },
            |w| {
                w.trace.push("patrol");
                NodeResult::Success
            },
            |w| {
                w.trace.push("idle");
                NodeResult::Success
            },
        ];
        world
    }
    let tree = tree();
    for (mut agent, expected) in [
        (world(true, 2, true), vec!["aim", "fire", "fire"]),
        (world(false, 0, true), vec!["patrol"]),
        (world(false, 0, false), vec!["idle"]),
    ] {
        assert_eq!(run(&tree, &mut agent, EntryMode::Resume), NodeResult::Success);
        assert_eq!(agent.trace, expected);
    }
}

#[test]
fn a_wait_resumes_across_updates() {
    let mut world = World::new();
    world.tasks = vec![Task { name: "wait", steps: 3 }];
    world.leaves = vec![
        |w| {
            w.pos += 1;
            NodeResult::Success
        },
        |w| {
            w.ammo += 1;
            NodeResult::Success
        },
    ];
    let tree = sequence(vec![leaf(0), action(0), leaf(1)]);
    let mut state = BtState::new(&tree);
    for _ in 0..4 {
        let _ = update(&tree, &mut state, &mut world, EntryMode::Resume);
    }
    assert_eq!(world.pos, 1);
    assert_eq!(world.ammo, 1);
    assert!(!state.is_running());
}

#[test]
fn evaluate_lets_an_urgent_task_preempt_a_patrol() {
    let mut world = World::new();
    world.tasks = vec![Task { name: "wait", steps: 2 }, Task { name: "wait", steps: 3 }];
    world.predicates = vec![|w| w.urgent];
    world.leaves = vec![
        |w| {
            w.trace.push("start urgent task");
            NodeResult::Success
        },
        |w| {
            w.trace.push("finish urgent task");
            NodeResult::Success
        },
        |w| {
            w.trace.push("start patrol");
            NodeResult::Success
        },
        |w| {
            w.trace.push("finish patrol");
            NodeResult::Success
        },
    ];
    let tree = select(vec![
        sequence(vec![check(0), leaf(0), action(0), leaf(1)]),
        sequence(vec![leaf(2), action(1), leaf(3)]),
    ]);
    let mut state = BtState::new(&tree);
    for (urgent, mode) in [
        (false, EntryMode::Resume),
        (false, EntryMode::Evaluate),
        (true, EntryMode::Evaluate),
        (true, EntryMode::Resume),
        (true, EntryMode::Resume),
    ] {
        world.urgent = urgent;
        let _ = update(&tree, &mut state, &mut world, mode);
    }
    let events: Vec<&str> = world.trace.iter().copied().filter(|e| *e != "wait").collect();
    assert_eq!(events, ["start patrol", "start urgent task", "finish urgent task"]);
    assert!(!state.is_running());
}

#[test]
fn actions_start_tick_and_complete_within_updates() {
    let mut world = World::new();
    world.tasks = vec![Task { name: "move", steps: 2 }, Task { name: "fire", steps: 1 }];
    let root = sequence(vec![action(0), action(1)]);
    let mut state = BtState::new(&root);
    for frame in 1..=4 {
        let result = update(&root, &mut state, &mut world, EntryMode::Resume);
        if frame == 3 {
            // Move completes and Fire starts and ticks in this same update.
            assert_eq!(result, NodeResult::Running(Act::Busy));
            assert_eq!(world.trace, ["move", "move", "fire"]);
        }
        if frame == 4 {
            assert_eq!(result, NodeResult::Success);
        }
    }
    assert!(!state.is_running());
}

// --- controls and decorators -----------------------------------------------------

#[test]
fn empty_controls() {
    let mut world = World::new();
    assert_eq!(run(&sequence(vec![]), &mut world, EntryMode::Resume), NodeResult::Success);
    assert_eq!(run(&select(vec![]), &mut world, EntryMode::Resume), NodeResult::Failure);
}

#[test]
fn repeat_and_retry_count_in_one_update() {
    let mut world = World::new();
    world.leaves = vec![
        |w| {
            w.n += 1;
            NodeResult::Success
        },
        |w| {
            w.n += 1;
            NodeResult::Failure
        },
    ];
    assert_eq!(run(&repeat(3, leaf(0)), &mut world, EntryMode::Evaluate), NodeResult::Success);
    assert_eq!(world.n, 3);
    assert_eq!(run(&retry(4, leaf(1)), &mut world, EntryMode::Evaluate), NodeResult::Failure);
    assert_eq!(world.n, 7);
    assert_eq!(run(&repeat(2, leaf(1)), &mut world, EntryMode::Evaluate), NodeResult::Failure);
    assert_eq!(world.n, 8);
    assert_eq!(run(&retry(2, leaf(0)), &mut world, EntryMode::Evaluate), NodeResult::Success);
    assert_eq!(world.n, 9);
    assert_eq!(run(&repeat(0, leaf(1)), &mut world, EntryMode::Evaluate), NodeResult::Success);
    assert_eq!(run(&retry(0, leaf(0)), &mut world, EntryMode::Evaluate), NodeResult::Failure);
    assert_eq!(world.n, 9);
}

#[test]
fn remaps() {
    let mut world = World::new();
    world.leaves = vec![
        |_| NodeResult::Success,
        |_| NodeResult::Failure,
        |_| NodeResult::Running(Act::Idle),
    ];
    assert_eq!(run(&invert(leaf(0)), &mut world, EntryMode::Evaluate), NodeResult::Failure);
    assert_eq!(run(&invert(leaf(1)), &mut world, EntryMode::Evaluate), NodeResult::Success);
    assert_eq!(run(&invert(leaf(2)), &mut world, EntryMode::Evaluate), NodeResult::Running(Act::Idle));
    assert_eq!(run(&invert(invert(leaf(1))), &mut world, EntryMode::Evaluate), NodeResult::Failure);
    assert_eq!(run(&force_success(leaf(1)), &mut world, EntryMode::Evaluate), NodeResult::Success);
    assert_eq!(run(&force_failure(leaf(0)), &mut world, EntryMode::Evaluate), NodeResult::Failure);
}

#[test]
fn reevaluate_when_turns_resume_into_evaluate() {
    let mut world = World::new();
    world.predicates = vec![|w| w.urgent, |w| w.ammo > 0];
    world.leaves = vec![|_| NodeResult::Running(Act::Fire), |_| NodeResult::Running(Act::Reload)];
    let tree = reevaluate_when(0, if_else(1, leaf(0), leaf(1)));
    let mut state = BtState::new(&tree);
    world.ammo = 1;
    assert_eq!(update(&tree, &mut state, &mut world, EntryMode::Resume).act(), Some(Act::Fire));
    world.ammo = 0;
    assert_eq!(update(&tree, &mut state, &mut world, EntryMode::Resume).act(), Some(Act::Fire));
    world.urgent = true;
    assert_eq!(update(&tree, &mut state, &mut world, EntryMode::Resume).act(), Some(Act::Reload));
}

#[test]
fn a_state_bound_to_another_root_is_refused() {
    let mut world = World::new();
    world.leaves = vec![|w| {
        w.n += 1;
        NodeResult::Running(Act::Idle)
    }];
    let tree = leaf(0);
    let other = leaf(0);
    let mut state = BtState::new(&tree);
    assert_eq!(update(&other, &mut state, &mut world, EntryMode::Resume), NodeResult::Failure);
    assert_eq!(world.n, 0);
    assert!(!state.is_running());
    assert!(update(&tree, &mut state, &mut world, EntryMode::Resume).is_running());
    state.reset();
    assert!(!state.is_running());
}

#[test]
fn an_invalid_child_index_fails_the_control() {
    let mut world = World::new();
    world.predicates = vec![|_| false];
    world.leaves = vec![|_| NodeResult::Success];
    // One child only, and the condition asks for the second.
    let tree = control(Policy::IfElse(flatbt::IfElse(0)), vec![leaf(0)]);
    assert_eq!(run(&tree, &mut world, EntryMode::Evaluate), NodeResult::Failure);
}

#[test]
fn more_than_sixty_four_children_fail_the_choosing_policies() {
    let mut world = World::new();
    world.scorers = vec![|_, _| 1];
    world.leaves = vec![|_| NodeResult::Success];
    let many = || (0..65).map(|_| leaf(0)).collect::<Vec<Node>>();
    assert_eq!(run(&utility(0, many()), &mut world, EntryMode::Evaluate), NodeResult::Failure);
    assert_eq!(run(&random_select(0, many()), &mut world, EntryMode::Evaluate), NodeResult::Failure);
    assert_eq!(run(&shuffle_seq(0, many()), &mut world, EntryMode::Evaluate), NodeResult::Failure);
    let sixty_four = (0..64).map(|_| leaf(0)).collect::<Vec<Node>>();
    assert_eq!(run(&shuffle_seq(0, sixty_four), &mut world, EntryMode::Evaluate), NodeResult::Success);
}

#[test]
fn errors_fail() {
    assert_eq!(NodeResult::<Act>::error("broken"), NodeResult::Failure);
    assert_eq!(ControlOp::error("broken"), ControlOp::Failure);
}

// --- laws on concrete values ---------------------------------------------------------

#[test]
fn a_fresh_invocation_is_the_same_under_either_mode() {
    for mode in [EntryMode::Resume, EntryMode::Evaluate] {
        let mut world = World::new();
        world.urgent = true;
        world.predicates = vec![|w| w.urgent];
        world.tasks = vec![Task { name: "step", steps: 2 }];
        let tree = reevaluate_when(0, sequence(vec![action(0)]));
        let (_, result) = tree.update(NodeState::Empty, &mut world, mode);
        assert_eq!(result, NodeResult::Running(Act::Busy));
        assert_eq!(world.trace, ["step"]);
    }
}

#[test]
fn a_sequence_under_evaluate_does_not_replay_finished_children() {
    let mut world = World::new();
    world.tasks = vec![Task { name: "wait", steps: 2 }];
    world.leaves = vec![|w| {
        w.n += 1;
        NodeResult::Success
    }];
    let tree = sequence(vec![leaf(0), action(0)]);
    let mut state = BtState::new(&tree);
    assert!(update(&tree, &mut state, &mut world, EntryMode::Evaluate).is_running());
    assert!(update(&tree, &mut state, &mut world, EntryMode::Evaluate).is_running());
    assert_eq!(world.n, 1);
}

#[test]
fn policies_answer_as_documented() {
    let mut world = World::new();
    let fresh = PolicyState { count: 0, tried: 0 };
    let seq_policy = Policy::Sequence(flatbt::Sequence);
    assert_eq!(seq_policy.begin(fresh, &mut world, None, 0).1, ControlOp::Success);
    assert_eq!(seq_policy.begin(fresh, &mut world, Some(2), 3).1, ControlOp::RunChild(2));
    assert_eq!(seq_policy.child_succeeded(fresh, &mut world, 0, 2).1, ControlOp::RunChild(1));
    assert_eq!(seq_policy.child_succeeded(fresh, &mut world, 1, 2).1, ControlOp::Success);
    let select_policy = Policy::Selector(flatbt::Selector);
    assert_eq!(select_policy.begin(fresh, &mut world, Some(2), 3).1, ControlOp::RunChild(0));
    assert_eq!(select_policy.child_failed(fresh, &mut world, 0, 2).1, ControlOp::RunChild(1));
    assert_eq!(select_policy.child_failed(fresh, &mut world, 1, 2).1, ControlOp::Failure);
    let repeat_policy = Policy::Repeat(Repeat(2));
    let (state, op) = repeat_policy.child_succeeded(fresh, &mut world, 0, 1);
    assert_eq!((state.count, op), (1, ControlOp::RunChild(0)));
    let (state, op) = repeat_policy.child_succeeded(state, &mut world, 0, 1);
    assert_eq!((state.count, op), (2, ControlOp::Success));
}

// --- ordered children -------------------------------------------------------------

fn eat_or_sleep(order: Order) -> Node {
    select_ordered(order_by(order, vec![leaf(0), leaf(1)]))
}

#[test]
fn a_selector_over_children_ordered_by_score_runs_the_best() {
    let mut world = World::new();
    world.hunger = 2;
    world.fatigue = 9;
    world.scorers = vec![|w, index| [w.hunger, w.fatigue][index]];
    world.leaves = vec![|_| NodeResult::Running(Act::Eat), |_| NodeResult::Running(Act::Sleep)];
    let tree = eat_or_sleep(Order::ByScore(by_score(0)));
    let mut state = BtState::new(&tree);
    assert_eq!(update(&tree, &mut state, &mut world, EntryMode::Evaluate).act(), Some(Act::Sleep));
}

#[test]
fn per_child_scores_with_inertia_pick_the_retreat() {
    // Scores in tenths: threat 1, 10 - health 3 = 7, patrol 2; inertia 1.
    let mut world = World::new();
    world.scorers = vec![|_, index| [1, 7, 2][index]];
    world.leaves = vec![
        |_| NodeResult::Running(Act::Fire),
        |_| NodeResult::Running(Act::Wander),
        |_| NodeResult::Running(Act::Idle),
    ];
    let order = Order::ByScore(by_score(0).inertia(1));
    let tree = select_ordered(order_by(order, vec![leaf(0), leaf(1), leaf(2)]));
    let mut state = BtState::new(&tree);
    assert_eq!(update(&tree, &mut state, &mut world, EntryMode::Evaluate).act(), Some(Act::Wander));
}

#[test]
fn evaluate_reorders_by_score_and_resume_does_not() {
    let mut world = World::new();
    world.hunger = 5;
    world.fatigue = 3;
    world.scorers = vec![|w, index| [w.hunger, w.fatigue][index]];
    world.leaves = vec![|_| NodeResult::Running(Act::Eat), |_| NodeResult::Running(Act::Sleep)];
    let tree = eat_or_sleep(Order::ByScore(by_score(0)));
    let mut state = BtState::new(&tree);
    assert_eq!(update(&tree, &mut state, &mut world, EntryMode::Evaluate).act(), Some(Act::Eat));
    world.fatigue = 8;
    assert_eq!(update(&tree, &mut state, &mut world, EntryMode::Resume).act(), Some(Act::Eat));
    assert_eq!(update(&tree, &mut state, &mut world, EntryMode::Evaluate).act(), Some(Act::Sleep));
    // A tie keeps the running child.
    world.hunger = 8;
    assert_eq!(update(&tree, &mut state, &mut world, EntryMode::Evaluate).act(), Some(Act::Sleep));
}

#[test]
fn a_selector_over_ordered_children_falls_back_in_order() {
    let mut world = World::new();
    world.scorers = vec![|_, index| [5, 9, 7][index]];
    world.leaves = vec![
        |w| {
            w.trace.push("five");
            NodeResult::Running(Act::Eat)
        },
        |w| {
            w.trace.push("nine");
            NodeResult::Failure
        },
        |w| {
            w.trace.push("seven");
            NodeResult::Failure
        },
    ];
    let tree = select_ordered(order_by(Order::ByScore(by_score(0)), vec![leaf(0), leaf(1), leaf(2)]));
    assert_eq!(run(&tree, &mut world, EntryMode::Evaluate).act(), Some(Act::Eat));
    assert_eq!(world.trace, ["nine", "seven", "five"]);
}

#[test]
fn a_sequence_over_ordered_children_runs_them_all_in_that_order() {
    let mut world = World::new();
    world.scorers = vec![|_, index| [1, 3, 2][index]];
    world.leaves = vec![
        |w| {
            w.trace.push("one");
            NodeResult::Success
        },
        |w| {
            w.trace.push("three");
            NodeResult::Success
        },
        |w| {
            w.trace.push("two");
            NodeResult::Success
        },
    ];
    let tree = seq_ordered(order_by(Order::ByScore(by_score(0)), vec![leaf(0), leaf(1), leaf(2)]));
    assert_eq!(run(&tree, &mut world, EntryMode::Evaluate), NodeResult::Success);
    assert_eq!(world.trace, ["three", "two", "one"]);
}

#[test]
fn a_shuffled_sequence_runs_every_child_once() {
    let mut world = World::new();
    world.leaves = vec![
        |w| {
            w.trace.push("a");
            NodeResult::Success
        },
        |w| {
            w.trace.push("b");
            NodeResult::Success
        },
    ];
    let tree = seq_ordered(order_by(Order::Shuffled(shuffled(0)), vec![leaf(0), leaf(1)]));
    assert_eq!(run(&tree, &mut world, EntryMode::Evaluate), NodeResult::Success);
    // The counter draws 1 then 2: the second of two, then the only one left.
    assert_eq!(world.trace, ["b", "a"]);
    assert_eq!(world.n, 2);
}

#[test]
fn a_shuffled_selector_keeps_its_running_child_under_evaluate() {
    let mut world = World::new();
    world.leaves = vec![|_| NodeResult::Running(Act::Idle), |_| NodeResult::Running(Act::Wander)];
    let tree = eat_or_sleep(Order::Shuffled(shuffled(0)));
    let mut state = BtState::new(&tree);
    assert_eq!(update(&tree, &mut state, &mut world, EntryMode::Evaluate).act(), Some(Act::Wander));
    assert_eq!(update(&tree, &mut state, &mut world, EntryMode::Evaluate).act(), Some(Act::Wander));
    // The running child came first without a draw.
    assert_eq!(world.n, 1);
}

#[test]
fn an_ordered_pass_without_children_left_fails_its_positions() {
    let mut world = World::new();
    world.leaves = vec![|_| NodeResult::Failure, |_| NodeResult::Failure];
    let tree = eat_or_sleep(Order::Shuffled(shuffled(0)));
    assert_eq!(run(&tree, &mut world, EntryMode::Evaluate), NodeResult::Failure);
    let empty = select_ordered(order_by(Order::ByScore(by_score(0)), vec![]));
    assert_eq!(run(&empty, &mut world, EntryMode::Evaluate), NodeResult::Failure);
    let empty = seq_ordered(order_by(Order::ByScore(by_score(0)), vec![]));
    assert_eq!(run(&empty, &mut world, EntryMode::Evaluate), NodeResult::Success);
}

#[test]
fn a_policy_that_skips_positions_fails_them() {
    // if_else asks for position 1 first when its condition does not hold:
    // ordered children are visited only in order, so that position fails.
    let mut world = World::new();
    world.predicates = vec![|_| false];
    world.scorers = vec![|_, _| 0];
    world.leaves = vec![|_| NodeResult::Success, |_| NodeResult::Success];
    let tree = control_ordered(
        Policy::IfElse(flatbt::IfElse(0)),
        order_by(Order::ByScore(by_score(0)), vec![leaf(0), leaf(1)]),
    );
    assert_eq!(run(&tree, &mut world, EntryMode::Evaluate), NodeResult::Failure);
    world.predicates = vec![|_| true];
    assert_eq!(run(&tree, &mut world, EntryMode::Evaluate), NodeResult::Success);
}

#[test]
fn repeat_over_ordered_children_asks_the_order_again_under_evaluate() {
    let mut world = World::new();
    world.hunger = 5;
    world.fatigue = 3;
    world.scorers = vec![|w, index| [w.hunger, w.fatigue][index]];
    world.leaves = vec![
        |w| {
            w.trace.push("eat");
            w.hunger = 0;
            NodeResult::Success
        },
        |w| {
            w.trace.push("sleep");
            NodeResult::Success
        },
    ];
    let tree = control_ordered(
        Policy::Repeat(flatbt::Repeat(2)),
        order_by(Order::ByScore(by_score(0)), vec![leaf(0), leaf(1)]),
    );
    assert_eq!(run(&tree, &mut world, EntryMode::Evaluate), NodeResult::Success);
    assert_eq!(world.trace, ["eat", "sleep"]);

    // Entered directly under Resume, the second repetition keeps the child
    // the pass began with.
    world.trace.clear();
    world.hunger = 5;
    let (_, r) = tree.update(NodeState::Empty, &mut world, EntryMode::Resume);
    assert_eq!(r, NodeResult::Success);
    assert_eq!(world.trace, ["eat", "eat"]);
}

#[test]
fn draws_count_every_mark_against_the_children_left() {
    // Three children, one mark beyond them: two are left to draw from, so a
    // draw of 2 takes the first untried child.
    let mut world = World::new();
    world.n = 1;
    let (tried, op) = run_uniform(0, 1u64 << 5, &mut world, 3, ControlOp::Failure);
    assert_eq!(op, ControlOp::RunChild(0));
    assert_eq!(tried, (1u64 << 5) | 1);
    // As many marks as children: nothing is left, and nothing is drawn.
    let marks = (1u64 << 10) | (1u64 << 11) | (1u64 << 12);
    let (tried, op) = run_uniform(0, marks, &mut world, 3, ControlOp::Failure);
    assert_eq!(op, ControlOp::Failure);
    assert_eq!(tried, marks);
    assert_eq!(world.n, 2);
    // A shuffled order counts the same way.
    let pick = Order::Shuffled(shuffled(0)).pick(&mut world, 1u64 << 5, None, 3);
    // The counter draws 3: 3 % 2 = 1, the second untried child.
    assert_eq!(pick, Some(1));
}

// --- weighted choices --------------------------------------------------------------

#[test]
fn weighted_select_never_draws_a_child_without_weight() {
    let mut world = World::new();
    world.weights = vec![|_, index| if index == 0 { 0.0 } else { 1.0 }];
    world.leaves = vec![|_| NodeResult::Running(Act::Idle), |_| NodeResult::Running(Act::Wander)];
    let tree = weighted_select(0, 0, vec![leaf(0), leaf(1)]);
    let mut state = BtState::new(&tree);
    assert_eq!(update(&tree, &mut state, &mut world, EntryMode::Evaluate).act(), Some(Act::Wander));
    // The running child is kept under Evaluate, without another draw.
    assert_eq!(update(&tree, &mut state, &mut world, EntryMode::Evaluate).act(), Some(Act::Wander));
    assert_eq!(world.n, 1);
}

#[test]
fn weighted_select_falls_back_to_the_rest_and_fails_when_none_is_left() {
    let mut world = World::new();
    world.weights = vec![|_, index| [1.0, 1.0, 0.0][index]];
    world.leaves = vec![
        |w| {
            w.trace.push("a");
            NodeResult::Failure
        },
        |w| {
            w.trace.push("b");
            NodeResult::Failure
        },
        |w| {
            w.trace.push("c");
            NodeResult::Success
        },
    ];
    let tree = weighted_select(0, 0, vec![leaf(0), leaf(1), leaf(2)]);
    assert_eq!(run(&tree, &mut world, EntryMode::Evaluate), NodeResult::Failure);
    let mut tried = world.trace.clone();
    tried.sort();
    // The child without weight is never drawn, so its success never comes.
    assert_eq!(tried, ["a", "b"]);
    assert_eq!(world.n, 2);
}

#[test]
fn a_weighted_order_runs_every_weighted_child_and_keeps_its_running_child() {
    let mut world = World::new();
    world.weights = vec![|_, _| 1.0];
    world.leaves = vec![
        |w| {
            w.trace.push("a");
            NodeResult::Success
        },
        |w| {
            w.trace.push("b");
            NodeResult::Success
        },
    ];
    let tree = seq_ordered(order_by(Order::Weighted(weighted(0, 0)), vec![leaf(0), leaf(1)]));
    assert_eq!(run(&tree, &mut world, EntryMode::Evaluate), NodeResult::Success);
    let mut ran = world.trace.clone();
    ran.sort();
    assert_eq!(ran, ["a", "b"]);

    let mut world = World::new();
    world.weights = vec![|_, _| 1.0];
    world.leaves = vec![|_| NodeResult::Running(Act::Eat), |_| NodeResult::Running(Act::Sleep)];
    let tree = select_ordered(order_by(Order::Weighted(weighted(0, 0)), vec![leaf(0), leaf(1)]));
    let mut state = BtState::new(&tree);
    let first = update(&tree, &mut state, &mut world, EntryMode::Evaluate).act();
    assert!(first.is_some());
    assert_eq!(update(&tree, &mut state, &mut world, EntryMode::Evaluate).act(), first);
    assert_eq!(world.n, 1);
}
