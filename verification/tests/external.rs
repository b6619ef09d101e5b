//! An action whose work an outside system carries out between updates: the
//! tree starts a movement, watches it, and is updated again only when the
//! movement completes or a periodic evaluation is due.

use flatbt::tree::seq as sequence;
use flatbt::{BtContext, BtState, EntryMode, NodeResult, action, check, select, update};

struct Movement {
    request: u64,
    name: &'static str,
    remaining_frames: u32,
}

/// Actions: 0 moves urgently for 3 frames, 1 patrols for 12.
#[derive(Default)]
struct Agent {
    urgent: bool,
    movement: Option<Movement>,
    next_request: u64,
    log: Vec<String>,
}

impl Agent {
    fn start_movement(&mut self, name: &'static str, frames: u32) -> Option<u64> {
        let request = self.next_request;
        self.next_request = self.next_request.checked_add(1)?;
        self.movement = Some(Movement { request, name, remaining_frames: frames });
        Some(request)
    }

    /// Advances the movement without running the tree; the request that
    /// just finished, if one did.
    fn advance_movement(&mut self) -> Option<u64> {
        let movement = self.movement.as_mut()?;
        if movement.remaining_frames == 0 {
            return None;
        }
        movement.remaining_frames -= 1;
        if movement.remaining_frames == 0 { Some(movement.request) } else { None }
    }

    fn is_current(&self, request: u64) -> bool {
        self.movement.as_ref().is_some_and(|m| m.request == request)
    }
}

impl BtContext<()> for Agent {
    type ActionState = u64;

    fn leaf(&mut self, _: usize) -> NodeResult<()> {
        NodeResult::Failure
    }
    fn check(&self, _: usize) -> bool {
        self.urgent
    }
    fn act(&self, _: usize) {}
    fn map_act(_: usize, act: ()) {
        act
    }
    fn score(&self, _: usize, _: usize) -> i64 {
        0
    }
    fn draw(&mut self, _: usize) -> u32 {
        0
    }
    fn draw_weighted(&mut self, _: usize, _: usize, _: u64, _: usize) -> Option<usize> {
        None
    }
    fn start(&mut self, action: usize) -> Option<u64> {
        if action == 0 { self.start_movement("urgent", 3) } else { self.start_movement("patrol", 12) }
    }
    fn is_in_progress(&self, _: usize, request: &u64) -> bool {
        self.movement.as_ref().is_some_and(|m| m.request == *request && m.remaining_frames > 0)
    }
    fn tick(&mut self, _: usize, _: &mut u64) {}
    fn complete(&mut self, _: usize, request: &mut u64) -> bool {
        let finished =
            self.movement.as_ref().is_some_and(|m| m.request == *request && m.remaining_frames == 0);
        if self.is_current(*request) {
            self.movement = None;
        }
        finished
    }

    fn leaf_effect(mut self, leaf: usize) -> (Self, NodeResult<()>) {
        let r = self.leaf(leaf);
        (self, r)
    }
    fn holds(self, predicate: usize) -> bool {
        self.check(predicate)
    }
    fn act_of(self, act: usize) {
        self.act(act)
    }
    fn mapped(map: usize, act: ()) {
        Self::map_act(map, act)
    }
    fn score_of(self, scorer: usize, index: usize) -> i64 {
        self.score(scorer, index)
    }
    fn draw_effect(mut self, rng: usize) -> (Self, u32) {
        let r = self.draw(rng);
        (self, r)
    }
    fn weighted_draw_effect(mut self, rng: usize, weights: usize, used: u64, count: usize) -> (Self, Option<usize>) {
        let r = self.draw_weighted(rng, weights, used, count);
        (self, r)
    }
    fn start_effect(mut self, action: usize) -> (Self, Option<u64>) {
        let r = self.start(action);
        (self, r)
    }
    fn in_progress(self, action: usize, state: u64) -> bool {
        self.is_in_progress(action, &state)
    }
    fn tick_effect(mut self, action: usize, mut state: u64) -> (Self, u64, ()) {
        self.tick(action, &mut state);
        (self, state, ())
    }
    fn complete_effect(mut self, action: usize, mut state: u64) -> (Self, u64, bool) {
        let ok = self.complete(action, &mut state);
        (self, state, ok)
    }
}

#[test]
fn an_external_movement_is_updated_only_when_due() {
    let root = select(vec![sequence(vec![check(0), action(0)]), action(1)]);
    let mut state = BtState::new(&root);
    let mut agent = Agent::default();
    assert_eq!(update(&root, &mut state, &mut agent, EntryMode::Evaluate), NodeResult::Running(()));
    let mut bt_updates = 1;
    agent.log.push(String::from("frame 0: patrol"));

    for frame in 1..=10 {
        if frame == 2 {
            agent.urgent = true;
        }
        let completed = agent.advance_movement();
        if let Some(movement) = &agent.movement {
            let line = format!("frame {frame}: {} {}", movement.name, movement.remaining_frames);
            agent.log.push(line);
        }
        // Evaluate periodically; resume early when the current request completes.
        let mode = if frame % 4 == 0 {
            Some(EntryMode::Evaluate)
        } else if completed.is_some_and(|request| agent.is_current(request)) {
            Some(EntryMode::Resume)
        } else {
            None
        };
        if let Some(mode) = mode.filter(|_| state.is_running()) {
            let _ = update(&root, &mut state, &mut agent, mode);
            bt_updates += 1;
        }
    }
    // The start, the periodic preemption at frame 4, the completion at 7.
    assert_eq!(bt_updates, 3);
    assert!(!state.is_running());
    assert!(agent.movement.is_none());
    assert_eq!(agent.log[4], "frame 4: patrol 8");
    assert_eq!(agent.log[5], "frame 5: urgent 2");
}
