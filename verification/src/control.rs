//! Control policies: which child a control runs next.
//!
//! A policy is asked on entry ([`Policy::begin`]) and whenever the child it
//! ran ends ([`Policy::child_succeeded`], [`Policy::child_failed`]). It
//! answers with a [`ControlOp`]: run another child, or end the control.

use vstd::prelude::*;

use crate::context::BtContext;

verus! {

/// Next step requested by a policy.
#[derive(Clone, Copy, Debug, PartialEq, Eq)]
pub enum ControlOp {
    RunChild(usize),
    Success,
    Failure,
}

impl ControlOp {
    /// Ends the control with Failure for an error. The message names the
    /// error where it is raised and is dropped: it is not reported anywhere.
    pub fn error(message: &str) -> (r: Self)
        ensures
            r is Failure,
    {
        let _ = message;
        ControlOp::Failure
    }
}

/// Children tried in an invocation are one bit each in a `u64`.
pub const MAX_CHILDREN: usize = 64;

/// Per-invocation policy state: a counter (successes for [`Repeat`], failures
/// for [`Retry`]) and the children tried so far, one bit each.
#[derive(Clone, Copy, Debug, PartialEq, Eq)]
pub struct PolicyState {
    pub count: usize,
    pub tried: u64,
}

impl PolicyState {
    /// The state a fresh invocation starts from.
    pub fn fresh() -> (r: Self)
        ensures
            r == fresh_policy_state(),
    {
        PolicyState { count: 0, tried: 0 }
    }
}

pub open spec fn fresh_policy_state() -> PolicyState {
    PolicyState { count: 0, tried: 0 }
}

/// Runs children in order; fails on the first Failure. Evaluate preserves the
/// active child without replaying completed children. Empty succeeds.
#[derive(Clone, Copy, Debug)]
pub struct Sequence;

/// Tries children in order; stops on Success or Running. Evaluate scans from
/// child zero; Resume follows the saved child. Empty fails.
#[derive(Clone, Copy, Debug)]
pub struct Selector;

/// Runs one child until it has succeeded this many times, then succeeds;
/// fails on the first failure. Zero succeeds without running it.
#[derive(Clone, Copy, Debug)]
pub struct Repeat(pub usize);

/// Runs one child until it succeeds, at most this many times, and fails when
/// every attempt failed. Zero fails without running it.
#[derive(Clone, Copy, Debug)]
pub struct Retry(pub usize);

/// Runs child 0 when the predicate holds, child 1 when it does not, and
/// returns that child's result without fallback.
#[derive(Clone, Copy, Debug)]
pub struct IfElse(pub usize);

/// Runs the best-scoring child; on failure, the best one not yet tried.
///
/// The scorer rates each child, higher wins; a tie keeps the running child,
/// and otherwise goes to the lower index. `inertia` is added to the running
/// child's score when the policy rescores. At most 64 children.
#[derive(Clone, Copy, Debug)]
pub struct Utility {
    score: usize,
    inertia: Option<i64>,
}

/// Runs a child drawn at random; when it fails, one drawn from the rest.
/// A running child is kept under Evaluate and Resume. At most 64 children.
#[derive(Clone, Copy, Debug)]
pub struct RandomSelect(pub usize);

/// Runs every child once, in an order drawn at random; fails on the first
/// failure. A running child is kept. Empty succeeds. At most 64 children.
#[derive(Clone, Copy, Debug)]
pub struct ShuffleSeq(pub usize);

/// Runs a child drawn by weight with generator `.0` and weight function `.1`;
/// when it fails, one drawn by weight from the rest. A child whose weight is
/// not positive is never drawn. A running child is kept under Evaluate and
/// Resume. At most 64 children.
#[derive(Clone, Copy, Debug)]
pub struct WeightedSelect(pub usize, pub usize);

impl Utility {
    /// A utility policy scoring children with scorer `score`, no inertia.
    pub fn new(score: usize) -> (r: Self)
        ensures
            r == Self::new_spec(score),
            r.scorer() == score,
            r.bonus() == None::<i64>,
    {
        Utility { score, inertia: None }
    }

    /// Adds `bonus` to the running child's score when the policy rescores, so
    /// a challenger has to beat it by more than `bonus` to take over.
    pub fn inertia(self, bonus: i64) -> (r: Self)
        ensures
            r.scorer() == self.scorer(),
            r.bonus() == Some(bonus),
    {
        Utility { score: self.score, inertia: Some(bonus) }
    }

    pub closed spec fn new_spec(score: usize) -> Self {
        Utility { score, inertia: None }
    }

    pub closed spec fn scorer(self) -> usize {
        self.score
    }

    pub closed spec fn bonus(self) -> Option<i64> {
        self.inertia
    }
}

/// A control policy.
#[derive(Clone, Copy, Debug)]
pub enum Policy {
    Sequence(Sequence),
    Selector(Selector),
    Repeat(Repeat),
    Retry(Retry),
    IfElse(IfElse),
    Utility(Utility),
    RandomSelect(RandomSelect),
    ShuffleSeq(ShuffleSeq),
    WeightedSelect(WeightedSelect),
}

// --- tried children, one bit each --------------------------------------------

pub open spec fn bit(index: nat) -> u64 {
    1u64 << (index as u64)
}

/// Child `index` has not been tried: its bit is clear.
pub open spec fn is_untried(tried: u64, index: nat) -> bool {
    index < 64 && tried & bit(index) == 0
}

/// Untried children among the first `n`.
pub open spec fn untried_count(tried: u64, n: nat) -> nat
    decreases n,
{
    if n == 0 {
        0
    } else {
        untried_count(tried, (n - 1) as nat) + if is_untried(tried, (n - 1) as nat) {
            1nat
        } else {
            0nat
        }
    }
}

/// The `nth` untried child at or after `from`, below `count`.
pub open spec fn nth_untried_from(tried: u64, count: nat, from: nat, nth: nat) -> Option<nat>
    decreases count - from,
{
    if from >= count {
        None
    } else if is_untried(tried, from) {
        if nth == 0 {
            Some(from)
        } else {
            nth_untried_from(tried, count, from + 1, (nth - 1) as nat)
        }
    } else {
        nth_untried_from(tried, count, from + 1, nth)
    }
}

pub proof fn lemma_mark_bit(t: u64, j: u64, k: u64)
    requires
        j < 64,
        k < 64,
    ensures
        ((t | (1u64 << j)) & (1u64 << k) == 0) == (k != j && t & (1u64 << k) == 0),
{
    assert(((t | (1u64 << j)) & (1u64 << k) == 0) == (k != j && t & (1u64 << k) == 0))
        by (bit_vector)
        requires
            j < 64,
            k < 64,
    ;
}

pub proof fn lemma_zero_untried(k: u64)
    requires
        k < 64,
    ensures
        0u64 & (1u64 << k) == 0,
{
    assert(0u64 & (1u64 << k) == 0) by (bit_vector);
}

/// Marking child `j` leaves every other child as it was, and `j` tried.
pub proof fn lemma_mark(tried: u64, j: nat, k: nat)
    requires
        j < 64,
    ensures
        is_untried(tried | bit(j), k) == (k != j && is_untried(tried, k)),
{
    if k < 64 {
        lemma_mark_bit(tried, j as u64, k as u64);
    }
}

pub proof fn lemma_untried_count_bound(tried: u64, n: nat)
    ensures
        untried_count(tried, n) <= n,
    decreases n,
{
    if n > 0 {
        lemma_untried_count_bound(tried, (n - 1) as nat);
    }
}

/// Marking an untried child below `n` leaves one fewer untried.
pub proof fn lemma_mark_count(tried: u64, j: nat, n: nat)
    requires
        j < 64,
        j < n,
        is_untried(tried, j),
    ensures
        untried_count(tried | bit(j), n) + 1 == untried_count(tried, n),
    decreases n,
{
    lemma_mark(tried, j, (n - 1) as nat);
    if j < n - 1 {
        lemma_mark_count(tried, j, (n - 1) as nat);
    } else {
        lemma_mark_unchanged_below(tried, j, (n - 1) as nat);
    }
}

/// Marking child `j` changes no count of the children below it.
pub proof fn lemma_mark_unchanged_below(tried: u64, j: nat, n: nat)
    requires
        j < 64,
        n <= j,
    ensures
        untried_count(tried | bit(j), n) == untried_count(tried, n),
    decreases n,
{
    if n > 0 {
        lemma_mark(tried, j, (n - 1) as nat);
        lemma_mark_unchanged_below(tried, j, (n - 1) as nat);
    }
}

/// The `nth` untried child exists when fewer than the untried count are
/// skipped, and it is untried and in range.
pub proof fn lemma_nth_untried(tried: u64, count: nat, from: nat, nth: nat)
    requires
        from <= count,
        nth + untried_count(tried, from) < untried_count(tried, count),
    ensures
        nth_untried_from(tried, count, from, nth) is Some,
        nth_untried_from(tried, count, from, nth)->0 < count,
        from <= nth_untried_from(tried, count, from, nth)->0,
        is_untried(tried, nth_untried_from(tried, count, from, nth)->0),
    decreases count - from,
{
    lemma_untried_count_bound(tried, count);
    if from >= count {
        assert(false);
    } else if is_untried(tried, from) {
        if nth > 0 {
            lemma_nth_untried(tried, count, from + 1, (nth - 1) as nat);
        }
    } else {
        lemma_nth_untried(tried, count, from + 1, nth);
    }
}

/// Whether child `index` is untried.
pub fn untried(tried: u64, index: usize) -> (r: bool)
    requires
        index < 64,
    ensures
        r == is_untried(tried, index as nat),
{
    tried & (1u64 << (index as u64)) == 0
}

/// `tried` with child `index` marked.
pub fn mark(tried: u64, index: usize) -> (r: u64)
    requires
        index < 64,
    ensures
        r == tried | bit(index as nat),
{
    tried | (1u64 << (index as u64))
}

/// Untried children below `count`, which is at most 64.
pub fn count_untried(tried: u64, count: usize) -> (r: usize)
    requires
        count <= 64,
    ensures
        r == untried_count(tried, count as nat),
{
    let mut left: usize = 0;
    let mut index: usize = 0;
    while index < count
        invariant
            index <= count <= 64,
            left == untried_count(tried, index as nat),
            left <= index,
        decreases count - index,
    {
        if untried(tried, index) {
            left = left + 1;
        }
        index = index + 1;
    }
    left
}

/// The `nth` untried child below `count`, which is at most 64.
pub fn find_nth_untried(tried: u64, count: usize, nth: usize) -> (r: Option<usize>)
    requires
        count <= 64,
    ensures
        match r {
            Some(j) => nth_untried_from(tried, count as nat, 0, nth as nat) == Some(j as nat),
            None => nth_untried_from(tried, count as nat, 0, nth as nat) is None,
        },
{
    let mut index: usize = 0;
    let mut left: usize = nth;
    while index < count
        invariant
            index <= count <= 64,
            nth_untried_from(tried, count as nat, 0, nth as nat) == nth_untried_from(
                tried,
                count as nat,
                index as nat,
                left as nat,
            ),
        decreases count - index,
    {
        if untried(tried, index) {
            if left == 0 {
                return Some(index);
            }
            left = left - 1;
        }
        index = index + 1;
    }
    None
}

// --- uniform draws ----------------------------------------------------------

/// Children marked in `tried`, every one of its 64 bits counted, as
/// `u64::count_ones` counts them.
pub open spec fn marked_count(tried: u64) -> nat {
    (64 - untried_count(tried, 64)) as nat
}

/// Children left to draw from: the child count less every mark in `tried`.
/// None are left when there are at least as many marks as children.
pub open spec fn left_count(tried: u64, count: nat) -> nat {
    if marked_count(tried) <= count {
        (count - marked_count(tried)) as nat
    } else {
        0
    }
}

/// Among `m` children, at most `m - n` more are untried than among the first
/// `n`.
pub proof fn lemma_untried_count_gap(tried: u64, n: nat, m: nat)
    requires
        n <= m,
    ensures
        untried_count(tried, m) <= untried_count(tried, n) + (m - n),
    decreases m,
{
    if m > n {
        lemma_untried_count_gap(tried, n, (m - 1) as nat);
    }
}

/// When every child from `n` up to `m` is untried, each of them counts.
pub proof fn lemma_untried_above(tried: u64, n: nat, m: nat)
    requires
        n <= m,
        forall|k: nat| n <= k < m ==> is_untried(tried, k),
    ensures
        untried_count(tried, m) == untried_count(tried, n) + (m - n),
    decreases m,
{
    if m > n {
        lemma_untried_above(tried, n, (m - 1) as nat);
    }
}

/// The children left to draw from are never more than the untried ones.
pub proof fn lemma_left_count_bound(tried: u64, count: nat)
    requires
        count <= 64,
    ensures
        left_count(tried, count) <= untried_count(tried, count),
{
    lemma_untried_count_bound(tried, 64);
    lemma_untried_count_gap(tried, count, 64);
}

/// The children left to draw from, below `count`, which is at most 64; see
/// [`left_count`].
pub fn count_left(tried: u64, count: usize) -> (r: usize)
    requires
        count <= 64,
    ensures
        r == left_count(tried, count as nat),
{
    let zeros = count_untried(tried, 64);
    proof {
        lemma_untried_count_bound(tried, 64);
    }
    let marked = 64 - zeros;
    if marked <= count {
        count - marked
    } else {
        0
    }
}


/// An untried child drawn uniformly and marked, or `none` when no child is
/// left (see [`left_count`]); what [`RandomSelect`] and [`ShuffleSeq`] do. The
/// draw picks among the first [`left_count`] untried children.
pub open spec fn uniform_effect<A, H: BtContext<A>>(
    rng: usize,
    tried: u64,
    ctx: H,
    count: usize,
    none: ControlOp,
) -> (H, u64, ControlOp) {
    if count > 64 {
        (ctx, tried, ControlOp::Failure)
    } else {
        let left = left_count(tried, count as nat);
        if left == 0 {
            (ctx, tried, none)
        } else {
            let (drawn, number) = ctx.draw_effect(rng);
            match nth_untried_from(tried, count as nat, 0, (number as nat) % left) {
                Some(j) => (drawn, tried | bit(j), ControlOp::RunChild(j as usize)),
                None => (drawn, tried, ControlOp::Failure),
            }
        }
    }
}

/// Marks and runs an untried child drawn uniformly, or `none` when no child is
/// left to draw from. More than 64 children fail.
pub fn run_uniform<A, H: BtContext<A>>(
    rng: usize,
    tried: u64,
    ctx: &mut H,
    count: usize,
    none: ControlOp,
) -> (r: (u64, ControlOp))
    ensures
        (*final(ctx), r.0, r.1) == uniform_effect(rng, tried, *old(ctx), count, none),
{
    if count > MAX_CHILDREN {
        return (tried, ControlOp::error("random selection supports at most 64 children"));
    }
    let left = count_left(tried, count);
    if left == 0 {
        return (tried, none);
    }
    let number = ctx.draw(rng);
    let nth = (number as usize) % left;
    match find_nth_untried(tried, count, nth) {
        Some(index) => {
            proof {
                lemma_untried_count_bound(tried, 0);
                lemma_left_count_bound(tried, count as nat);
                lemma_nth_untried(tried, count as nat, 0, nth as nat);
            }
            (mark(tried, index), ControlOp::RunChild(index))
        },
        None => (tried, ControlOp::Failure),
    }
}

// --- weighted draws ---------------------------------------------------------

/// A child drawn by weight from those not marked in `tried`, marked and run,
/// or Failure when the draw gives none; what [`WeightedSelect`] does. A draw
/// outside the children or of a marked child counts as none. More than 64
/// children fail.
pub open spec fn weighted_effect<A, H: BtContext<A>>(
    weighted: WeightedSelect,
    tried: u64,
    ctx: H,
    count: usize,
) -> (H, u64, ControlOp) {
    if count > 64 {
        (ctx, tried, ControlOp::Failure)
    } else {
        let (drawn, child) = ctx.weighted_draw_effect(weighted.0, weighted.1, tried, count);
        match child {
            Some(j) => if j < count && is_untried(tried, j as nat) {
                (drawn, tried | bit(j as nat), ControlOp::RunChild(j))
            } else {
                (drawn, tried, ControlOp::Failure)
            },
            None => (drawn, tried, ControlOp::Failure),
        }
    }
}

impl WeightedSelect {
    /// Marks and runs a child drawn by weight, or fails when none is drawn.
    fn run_weighted<A, H: BtContext<A>>(&self, tried: u64, ctx: &mut H, count: usize) -> (r: (
        u64,
        ControlOp,
    ))
        ensures
            (*final(ctx), r.0, r.1) == weighted_effect(*self, tried, *old(ctx), count),
    {
        if count > MAX_CHILDREN {
            return (tried, ControlOp::error("weighted selection supports at most 64 children"));
        }
        match ctx.draw_weighted(self.0, self.1, tried, count) {
            Some(index) => (mark(tried, index), ControlOp::RunChild(index)),
            None => (tried, ControlOp::Failure),
        }
    }
}

// --- scores -----------------------------------------------------------------

/// Child `index`'s score as the policy compares it: inertia is added to the
/// running child's.
pub open spec fn effective_score<A, H: BtContext<A>>(
    utility: Utility,
    ctx: H,
    index: nat,
    active: Option<usize>,
) -> int {
    let base = ctx.score_of(utility.scorer(), index as usize) as int;
    if active == Some(index as usize) && utility.bonus() is Some {
        base + utility.bonus()->0 as int
    } else {
        base
    }
}

/// Whether child `index` scoring `score` takes the lead from `best`: a higher
/// score does, and a tie does when `index` is the running child.
pub open spec fn takes_lead(best: Option<(usize, int)>, score: int, keeps: bool) -> bool {
    match best {
        None => true,
        Some((_, leading)) => score > leading || (keeps && score == leading),
    }
}

/// The best untried child at or after `from`, given the best so far.
pub open spec fn best_from<A, H: BtContext<A>>(
    utility: Utility,
    ctx: H,
    tried: u64,
    count: nat,
    active: Option<usize>,
    from: nat,
    best: Option<(usize, int)>,
) -> Option<(usize, int)>
    decreases count - from,
{
    if from >= count {
        best
    } else if !is_untried(tried, from) {
        best_from(utility, ctx, tried, count, active, from + 1, best)
    } else {
        let score = effective_score(utility, ctx, from, active);
        let keeps = active == Some(from as usize);
        let next = if takes_lead(best, score, keeps) {
            Some((from as usize, score))
        } else {
            best
        };
        best_from(utility, ctx, tried, count, active, from + 1, next)
    }
}

/// The untried child with the highest score, if any.
pub open spec fn best_child<A, H: BtContext<A>>(
    utility: Utility,
    ctx: H,
    tried: u64,
    count: nat,
    active: Option<usize>,
) -> Option<usize> {
    match best_from(utility, ctx, tried, count, active, 0, None) {
        Some((index, _)) => Some(index),
        None => None,
    }
}

/// Marks and runs the best untried child, or fails when none is left.
pub open spec fn best_effect<A, H: BtContext<A>>(
    utility: Utility,
    ctx: H,
    tried: u64,
    count: usize,
    active: Option<usize>,
) -> (u64, ControlOp) {
    if count > 64 {
        (tried, ControlOp::Failure)
    } else {
        match best_child(utility, ctx, tried, count as nat, active) {
            Some(index) => (tried | bit(index as nat), ControlOp::RunChild(index)),
            None => (tried, ControlOp::Failure),
        }
    }
}

/// A child the best-so-far fold picked is always untried and in range.
pub proof fn lemma_best_from_untried<A, H: BtContext<A>>(
    utility: Utility,
    ctx: H,
    tried: u64,
    count: nat,
    active: Option<usize>,
    from: nat,
    best: Option<(usize, int)>,
)
    requires
        count <= 64,
        best matches Some((i, _)) ==> i < count && is_untried(tried, i as nat),
    ensures
        best_from(utility, ctx, tried, count, active, from, best) matches Some((i, _)) ==> i
            < count && is_untried(tried, i as nat),
    decreases count - from,
{
    if from < count {
        let score = effective_score(utility, ctx, from, active);
        let keeps = active == Some(from as usize);
        let next = if takes_lead(best, score, keeps) {
            Some((from as usize, score))
        } else {
            best
        };
        if is_untried(tried, from) {
            lemma_best_from_untried(utility, ctx, tried, count, active, from + 1, next);
        } else {
            lemma_best_from_untried(utility, ctx, tried, count, active, from + 1, best);
        }
    }
}

impl Utility {
    /// The untried child with the highest score, if any.
    pub(crate) fn best<A, H: BtContext<A>>(&self, ctx: &H, tried: u64, count: usize, active: Option<usize>) -> (r:
        Option<usize>)
        requires
            count <= 64,
        ensures
            r == best_child(*self, *ctx, tried, count as nat, active),
            r matches Some(i) ==> i < count && is_untried(tried, i as nat),
    {
        let mut best: Option<(usize, i128)> = None;
        let ghost mut best_ghost: Option<(usize, int)> = None;
        let mut index: usize = 0;
        while index < count
            invariant
                index <= count <= 64,
                best_child(*self, *ctx, tried, count as nat, active) == match best_from(
                    *self,
                    *ctx,
                    tried,
                    count as nat,
                    active,
                    index as nat,
                    best_ghost,
                ) {
                    Some((i, _)) => Some(i),
                    None => None::<usize>,
                },
                best_ghost matches Some((i, _)) ==> i < count && is_untried(tried, i as nat),
                match best {
                    Some((i, s)) => best_ghost == Some((i, s as int)),
                    None => best_ghost is None,
                },
            decreases count - index,
        {
            if untried(tried, index) {
                let base = ctx.score(self.score, index) as i128;
                let keeps = match active {
                    Some(a) => a == index,
                    None => false,
                };
                let score = match self.inertia {
                    Some(bonus) => if keeps {
                        base + bonus as i128
                    } else {
                        base
                    },
                    None => base,
                };
                let takes = match best {
                    None => true,
                    Some((_, leading)) => score > leading || (keeps && score == leading),
                };
                if takes {
                    best = Some((index, score));
                    proof {
                        best_ghost = Some((index, score as int));
                    }
                }
            }
            index = index + 1;
        }
        proof {
            lemma_best_from_untried(*self, *ctx, tried, count as nat, active, 0, None);
        }
        match best {
            Some((index, _)) => Some(index),
            None => None,
        }
    }

    /// Marks and runs the best untried child, or fails when none is left.
    fn run_best<A, H: BtContext<A>>(&self, tried: u64, ctx: &H, count: usize, active: Option<usize>) -> (r:
        (u64, ControlOp))
        ensures
            r == best_effect(*self, *ctx, tried, count, active),
    {
        if count > MAX_CHILDREN {
            return (tried, ControlOp::error("utility supports at most 64 children"));
        }
        match self.best(ctx, tried, count, active) {
            Some(index) => (mark(tried, index), ControlOp::RunChild(index)),
            None => (tried, ControlOp::Failure),
        }
    }
}

// --- the policies' decisions -------------------------------------------------

/// What a policy does on fresh entry or Evaluate: its state, the context, and
/// its answer. `active` is the running child, if any.
pub open spec fn begin_effect<A, H: BtContext<A>>(
    policy: Policy,
    state: PolicyState,
    ctx: H,
    active: Option<usize>,
    count: usize,
) -> (PolicyState, H, ControlOp) {
    match policy {
        Policy::Sequence(_) => (state, ctx, if count == 0 {
            ControlOp::Success
        } else {
            ControlOp::RunChild(
                match active {
                    Some(i) => i,
                    None => 0,
                },
            )
        }),
        Policy::Selector(_) => (state, ctx, if count == 0 {
            ControlOp::Failure
        } else {
            ControlOp::RunChild(0)
        }),
        Policy::Repeat(times) => match active {
            Some(i) => (state, ctx, ControlOp::RunChild(i)),
            None => if times.0 == 0 {
                (state, ctx, ControlOp::Success)
            } else {
                (PolicyState { count: 0, ..state }, ctx, ControlOp::RunChild(0))
            },
        },
        Policy::Retry(attempts) => match active {
            Some(i) => (state, ctx, ControlOp::RunChild(i)),
            None => if attempts.0 == 0 {
                (state, ctx, ControlOp::Failure)
            } else {
                (PolicyState { count: 0, ..state }, ctx, ControlOp::RunChild(0))
            },
        },
        Policy::IfElse(condition) => (state, ctx, ControlOp::RunChild(
            if ctx.holds(condition.0) {
                0
            } else {
                1
            },
        )),
        Policy::Utility(utility) => if count > 64 {
            (state, ctx, ControlOp::Failure)
        } else {
            let (tried, op) = best_effect(utility, ctx, 0, count, active);
            (PolicyState { tried, ..state }, ctx, op)
        },
        Policy::RandomSelect(rng) => if count > 64 {
            (state, ctx, ControlOp::Failure)
        } else {
            match active {
                Some(i) => (state, ctx, ControlOp::RunChild(i)),
                None => {
                    let (drawn, tried, op) = uniform_effect(rng.0, 0, ctx, count, ControlOp::Failure);
                    (PolicyState { tried, ..state }, drawn, op)
                },
            }
        },
        Policy::ShuffleSeq(rng) => if count > 64 {
            (state, ctx, ControlOp::Failure)
        } else {
            match active {
                Some(i) => (state, ctx, ControlOp::RunChild(i)),
                None => {
                    let (drawn, tried, op) = uniform_effect(rng.0, 0, ctx, count, ControlOp::Success);
                    (PolicyState { tried, ..state }, drawn, op)
                },
            }
        },
        Policy::WeightedSelect(weighted) => if count > 64 {
            (state, ctx, ControlOp::Failure)
        } else {
            match active {
                Some(i) => (state, ctx, ControlOp::RunChild(i)),
                None => {
                    let (drawn, tried, op) = weighted_effect(weighted, 0, ctx, count);
                    (PolicyState { tried, ..state }, drawn, op)
                },
            }
        },
    }
}

/// One more, without going past `usize::MAX`.
pub open spec fn bumped(count: usize) -> usize {
    if count < usize::MAX {
        (count + 1) as usize
    } else {
        count
    }
}

/// What a policy does after child `index` succeeded.
pub open spec fn succeeded_effect<A, H: BtContext<A>>(
    policy: Policy,
    state: PolicyState,
    ctx: H,
    index: usize,
    count: usize,
) -> (PolicyState, H, ControlOp) {
    match policy {
        Policy::Sequence(_) => (state, ctx, if index + 1 < count {
            ControlOp::RunChild((index + 1) as usize)
        } else {
            ControlOp::Success
        }),
        Policy::Repeat(times) => {
            let done = bumped(state.count);
            (PolicyState { count: done, ..state }, ctx, if done < times.0 {
                ControlOp::RunChild(0)
            } else {
                ControlOp::Success
            })
        },
        Policy::ShuffleSeq(rng) => {
            let (drawn, tried, op) = uniform_effect(rng.0, state.tried, ctx, count, ControlOp::Success);
            (PolicyState { tried, ..state }, drawn, op)
        },
        _ => (state, ctx, ControlOp::Success),
    }
}

/// What a policy does after child `index` failed.
pub open spec fn failed_effect<A, H: BtContext<A>>(
    policy: Policy,
    state: PolicyState,
    ctx: H,
    index: usize,
    count: usize,
) -> (PolicyState, H, ControlOp) {
    match policy {
        Policy::Selector(_) => (state, ctx, if index + 1 < count {
            ControlOp::RunChild((index + 1) as usize)
        } else {
            ControlOp::Failure
        }),
        Policy::Retry(attempts) => {
            let failed = bumped(state.count);
            (PolicyState { count: failed, ..state }, ctx, if failed < attempts.0 {
                ControlOp::RunChild(0)
            } else {
                ControlOp::Failure
            })
        },
        Policy::Utility(utility) => {
            let (tried, op) = best_effect(utility, ctx, state.tried, count, None);
            (PolicyState { tried, ..state }, ctx, op)
        },
        Policy::RandomSelect(rng) => {
            let (drawn, tried, op) = uniform_effect(rng.0, state.tried, ctx, count, ControlOp::Failure);
            (PolicyState { tried, ..state }, drawn, op)
        },
        Policy::WeightedSelect(weighted) => {
            let (drawn, tried, op) = weighted_effect(weighted, state.tried, ctx, count);
            (PolicyState { tried, ..state }, drawn, op)
        },
        _ => (state, ctx, ControlOp::Failure),
    }
}

// Every policy answers the same three calls: `begin` on fresh entry or
// Evaluate, then `child_succeeded` or `child_failed` each time the child it
// ran ends. Each policy's decisions are those of `begin_effect`,
// `succeeded_effect` and `failed_effect` for it.

impl Sequence {
    pub fn begin<A, H: BtContext<A>>(&self, state: PolicyState, ctx: &mut H, active: Option<usize>, count: usize) -> (r: (PolicyState, ControlOp))
        ensures
            (r.0, *final(ctx), r.1) == begin_effect(Policy::Sequence(*self), state, *old(ctx), active, count),
    {
        if count == 0 {
            (state, ControlOp::Success)
        } else {
            (state, ControlOp::RunChild(
                match active {
                    Some(i) => i,
                    None => 0,
                },
            ))
        }
    }

    pub fn child_succeeded<A, H: BtContext<A>>(&self, state: PolicyState, ctx: &mut H, index: usize, count: usize) -> (r: (PolicyState, ControlOp))
        ensures
            (r.0, *final(ctx), r.1) == succeeded_effect(Policy::Sequence(*self), state, *old(ctx), index, count),
    {
        if index < count && count - index > 1 {
            (state, ControlOp::RunChild(index + 1))
        } else {
            (state, ControlOp::Success)
        }
    }

    pub fn child_failed<A, H: BtContext<A>>(&self, state: PolicyState, ctx: &mut H, index: usize, count: usize) -> (r: (PolicyState, ControlOp))
        ensures
            (r.0, *final(ctx), r.1) == failed_effect(Policy::Sequence(*self), state, *old(ctx), index, count),
    {
        (state, ControlOp::Failure)
    }
}

impl Selector {
    pub fn begin<A, H: BtContext<A>>(&self, state: PolicyState, ctx: &mut H, active: Option<usize>, count: usize) -> (r: (PolicyState, ControlOp))
        ensures
            (r.0, *final(ctx), r.1) == begin_effect(Policy::Selector(*self), state, *old(ctx), active, count),
    {
        if count == 0 {
            (state, ControlOp::Failure)
        } else {
            (state, ControlOp::RunChild(0))
        }
    }

    pub fn child_succeeded<A, H: BtContext<A>>(&self, state: PolicyState, ctx: &mut H, index: usize, count: usize) -> (r: (PolicyState, ControlOp))
        ensures
            (r.0, *final(ctx), r.1) == succeeded_effect(Policy::Selector(*self), state, *old(ctx), index, count),
    {
        (state, ControlOp::Success)
    }

    pub fn child_failed<A, H: BtContext<A>>(&self, state: PolicyState, ctx: &mut H, index: usize, count: usize) -> (r: (PolicyState, ControlOp))
        ensures
            (r.0, *final(ctx), r.1) == failed_effect(Policy::Selector(*self), state, *old(ctx), index, count),
    {
        if index < count && count - index > 1 {
            (state, ControlOp::RunChild(index + 1))
        } else {
            (state, ControlOp::Failure)
        }
    }
}

impl Repeat {
    pub fn begin<A, H: BtContext<A>>(&self, state: PolicyState, ctx: &mut H, active: Option<usize>, count: usize) -> (r: (PolicyState, ControlOp))
        ensures
            (r.0, *final(ctx), r.1) == begin_effect(Policy::Repeat(*self), state, *old(ctx), active, count),
    {
        match active {
            Some(i) => (state, ControlOp::RunChild(i)),
            None => if self.0 == 0 {
                (state, ControlOp::Success)
            } else {
                (PolicyState { count: 0, ..state }, ControlOp::RunChild(0))
            },
        }
    }

    pub fn child_succeeded<A, H: BtContext<A>>(&self, state: PolicyState, ctx: &mut H, index: usize, count: usize) -> (r: (PolicyState, ControlOp))
        ensures
            (r.0, *final(ctx), r.1) == succeeded_effect(Policy::Repeat(*self), state, *old(ctx), index, count),
    {
        let done = if state.count < usize::MAX {
            state.count + 1
        } else {
            state.count
        };
        if done < self.0 {
            (PolicyState { count: done, ..state }, ControlOp::RunChild(0))
        } else {
            (PolicyState { count: done, ..state }, ControlOp::Success)
        }
    }

    pub fn child_failed<A, H: BtContext<A>>(&self, state: PolicyState, ctx: &mut H, index: usize, count: usize) -> (r: (PolicyState, ControlOp))
        ensures
            (r.0, *final(ctx), r.1) == failed_effect(Policy::Repeat(*self), state, *old(ctx), index, count),
    {
        (state, ControlOp::Failure)
    }
}

impl Retry {
    pub fn begin<A, H: BtContext<A>>(&self, state: PolicyState, ctx: &mut H, active: Option<usize>, count: usize) -> (r: (PolicyState, ControlOp))
        ensures
            (r.0, *final(ctx), r.1) == begin_effect(Policy::Retry(*self), state, *old(ctx), active, count),
    {
        match active {
            Some(i) => (state, ControlOp::RunChild(i)),
            None => if self.0 == 0 {
                (state, ControlOp::Failure)
            } else {
                (PolicyState { count: 0, ..state }, ControlOp::RunChild(0))
            },
        }
    }

    pub fn child_succeeded<A, H: BtContext<A>>(&self, state: PolicyState, ctx: &mut H, index: usize, count: usize) -> (r: (PolicyState, ControlOp))
        ensures
            (r.0, *final(ctx), r.1) == succeeded_effect(Policy::Retry(*self), state, *old(ctx), index, count),
    {
        (state, ControlOp::Success)
    }

    pub fn child_failed<A, H: BtContext<A>>(&self, state: PolicyState, ctx: &mut H, index: usize, count: usize) -> (r: (PolicyState, ControlOp))
        ensures
            (r.0, *final(ctx), r.1) == failed_effect(Policy::Retry(*self), state, *old(ctx), index, count),
    {
        let failed = if state.count < usize::MAX {
            state.count + 1
        } else {
            state.count
        };
        if failed < self.0 {
            (PolicyState { count: failed, ..state }, ControlOp::RunChild(0))
        } else {
            (PolicyState { count: failed, ..state }, ControlOp::Failure)
        }
    }
}

impl IfElse {
    pub fn begin<A, H: BtContext<A>>(&self, state: PolicyState, ctx: &mut H, active: Option<usize>, count: usize) -> (r: (PolicyState, ControlOp))
        ensures
            (r.0, *final(ctx), r.1) == begin_effect(Policy::IfElse(*self), state, *old(ctx), active, count),
    {
        if ctx.check(self.0) {
            (state, ControlOp::RunChild(0))
        } else {
            (state, ControlOp::RunChild(1))
        }
    }

    pub fn child_succeeded<A, H: BtContext<A>>(&self, state: PolicyState, ctx: &mut H, index: usize, count: usize) -> (r: (PolicyState, ControlOp))
        ensures
            (r.0, *final(ctx), r.1) == succeeded_effect(Policy::IfElse(*self), state, *old(ctx), index, count),
    {
        (state, ControlOp::Success)
    }

    pub fn child_failed<A, H: BtContext<A>>(&self, state: PolicyState, ctx: &mut H, index: usize, count: usize) -> (r: (PolicyState, ControlOp))
        ensures
            (r.0, *final(ctx), r.1) == failed_effect(Policy::IfElse(*self), state, *old(ctx), index, count),
    {
        (state, ControlOp::Failure)
    }
}

impl Utility {
    pub fn begin<A, H: BtContext<A>>(&self, state: PolicyState, ctx: &mut H, active: Option<usize>, count: usize) -> (r: (PolicyState, ControlOp))
        ensures
            (r.0, *final(ctx), r.1) == begin_effect(Policy::Utility(*self), state, *old(ctx), active, count),
    {
        if count > MAX_CHILDREN {
            return (state, ControlOp::error("utility supports at most 64 children"));
        }
        let (tried, op) = self.run_best(0, ctx, count, active);
        (PolicyState { tried, ..state }, op)
    }

    pub fn child_succeeded<A, H: BtContext<A>>(&self, state: PolicyState, ctx: &mut H, index: usize, count: usize) -> (r: (PolicyState, ControlOp))
        ensures
            (r.0, *final(ctx), r.1) == succeeded_effect(Policy::Utility(*self), state, *old(ctx), index, count),
    {
        (state, ControlOp::Success)
    }

    pub fn child_failed<A, H: BtContext<A>>(&self, state: PolicyState, ctx: &mut H, index: usize, count: usize) -> (r: (PolicyState, ControlOp))
        ensures
            (r.0, *final(ctx), r.1) == failed_effect(Policy::Utility(*self), state, *old(ctx), index, count),
    {
        let (tried, op) = self.run_best(state.tried, ctx, count, None);
        (PolicyState { tried, ..state }, op)
    }
}

impl RandomSelect {
    pub fn begin<A, H: BtContext<A>>(&self, state: PolicyState, ctx: &mut H, active: Option<usize>, count: usize) -> (r: (PolicyState, ControlOp))
        ensures
            (r.0, *final(ctx), r.1) == begin_effect(Policy::RandomSelect(*self), state, *old(ctx), active, count),
    {
        if count > MAX_CHILDREN {
            return (state, ControlOp::error("random selection supports at most 64 children"));
        }
        match active {
            Some(i) => (state, ControlOp::RunChild(i)),
            None => {
                let (tried, op) = run_uniform(self.0, 0, ctx, count, ControlOp::Failure);
                (PolicyState { tried, ..state }, op)
            },
        }
    }

    pub fn child_succeeded<A, H: BtContext<A>>(&self, state: PolicyState, ctx: &mut H, index: usize, count: usize) -> (r: (PolicyState, ControlOp))
        ensures
            (r.0, *final(ctx), r.1) == succeeded_effect(Policy::RandomSelect(*self), state, *old(ctx), index, count),
    {
        (state, ControlOp::Success)
    }

    pub fn child_failed<A, H: BtContext<A>>(&self, state: PolicyState, ctx: &mut H, index: usize, count: usize) -> (r: (PolicyState, ControlOp))
        ensures
            (r.0, *final(ctx), r.1) == failed_effect(Policy::RandomSelect(*self), state, *old(ctx), index, count),
    {
        let (tried, op) = run_uniform(self.0, state.tried, ctx, count, ControlOp::Failure);
        (PolicyState { tried, ..state }, op)
    }
}

impl ShuffleSeq {
    pub fn begin<A, H: BtContext<A>>(&self, state: PolicyState, ctx: &mut H, active: Option<usize>, count: usize) -> (r: (PolicyState, ControlOp))
        ensures
            (r.0, *final(ctx), r.1) == begin_effect(Policy::ShuffleSeq(*self), state, *old(ctx), active, count),
    {
        if count > MAX_CHILDREN {
            return (state, ControlOp::error("random selection supports at most 64 children"));
        }
        match active {
            Some(i) => (state, ControlOp::RunChild(i)),
            None => {
                let (tried, op) = run_uniform(self.0, 0, ctx, count, ControlOp::Success);
                (PolicyState { tried, ..state }, op)
            },
        }
    }

    pub fn child_succeeded<A, H: BtContext<A>>(&self, state: PolicyState, ctx: &mut H, index: usize, count: usize) -> (r: (PolicyState, ControlOp))
        ensures
            (r.0, *final(ctx), r.1) == succeeded_effect(Policy::ShuffleSeq(*self), state, *old(ctx), index, count),
    {
        let (tried, op) = run_uniform(self.0, state.tried, ctx, count, ControlOp::Success);
        (PolicyState { tried, ..state }, op)
    }

    pub fn child_failed<A, H: BtContext<A>>(&self, state: PolicyState, ctx: &mut H, index: usize, count: usize) -> (r: (PolicyState, ControlOp))
        ensures
            (r.0, *final(ctx), r.1) == failed_effect(Policy::ShuffleSeq(*self), state, *old(ctx), index, count),
    {
        (state, ControlOp::Failure)
    }
}

impl WeightedSelect {
    pub fn begin<A, H: BtContext<A>>(&self, state: PolicyState, ctx: &mut H, active: Option<usize>, count: usize) -> (r: (PolicyState, ControlOp))
        ensures
            (r.0, *final(ctx), r.1) == begin_effect(Policy::WeightedSelect(*self), state, *old(ctx), active, count),
    {
        if count > MAX_CHILDREN {
            return (state, ControlOp::error("weighted selection supports at most 64 children"));
        }
        match active {
            Some(i) => (state, ControlOp::RunChild(i)),
            None => {
                let (tried, op) = self.run_weighted(0, ctx, count);
                (PolicyState { tried, ..state }, op)
            },
        }
    }

    pub fn child_succeeded<A, H: BtContext<A>>(&self, state: PolicyState, ctx: &mut H, index: usize, count: usize) -> (r: (PolicyState, ControlOp))
        ensures
            (r.0, *final(ctx), r.1) == succeeded_effect(Policy::WeightedSelect(*self), state, *old(ctx), index, count),
    {
        (state, ControlOp::Success)
    }

    pub fn child_failed<A, H: BtContext<A>>(&self, state: PolicyState, ctx: &mut H, index: usize, count: usize) -> (r: (PolicyState, ControlOp))
        ensures
            (r.0, *final(ctx), r.1) == failed_effect(Policy::WeightedSelect(*self), state, *old(ctx), index, count),
    {
        let (tried, op) = self.run_weighted(state.tried, ctx, count);
        (PolicyState { tried, ..state }, op)
    }
}

impl Policy {
    /// Selects a child on fresh entry or Evaluate. Resume skips this call.
    pub fn begin<A, H: BtContext<A>>(&self, state: PolicyState, ctx: &mut H, active: Option<usize>, count: usize) -> (r: (PolicyState, ControlOp))
        ensures
            (r.0, *final(ctx), r.1) == begin_effect(*self, state, *old(ctx), active, count),
    {
        match self {
            Policy::Sequence(p) => p.begin(state, ctx, active, count),
            Policy::Selector(p) => p.begin(state, ctx, active, count),
            Policy::Repeat(p) => p.begin(state, ctx, active, count),
            Policy::Retry(p) => p.begin(state, ctx, active, count),
            Policy::IfElse(p) => p.begin(state, ctx, active, count),
            Policy::Utility(p) => p.begin(state, ctx, active, count),
            Policy::RandomSelect(p) => p.begin(state, ctx, active, count),
            Policy::ShuffleSeq(p) => p.begin(state, ctx, active, count),
            Policy::WeightedSelect(p) => p.begin(state, ctx, active, count),
        }
    }

    /// Called after the child `index` that ran succeeded.
    pub fn child_succeeded<A, H: BtContext<A>>(&self, state: PolicyState, ctx: &mut H, index: usize, count: usize) -> (r: (PolicyState, ControlOp))
        ensures
            (r.0, *final(ctx), r.1) == succeeded_effect(*self, state, *old(ctx), index, count),
    {
        match self {
            Policy::Sequence(p) => p.child_succeeded(state, ctx, index, count),
            Policy::Selector(p) => p.child_succeeded(state, ctx, index, count),
            Policy::Repeat(p) => p.child_succeeded(state, ctx, index, count),
            Policy::Retry(p) => p.child_succeeded(state, ctx, index, count),
            Policy::IfElse(p) => p.child_succeeded(state, ctx, index, count),
            Policy::Utility(p) => p.child_succeeded(state, ctx, index, count),
            Policy::RandomSelect(p) => p.child_succeeded(state, ctx, index, count),
            Policy::ShuffleSeq(p) => p.child_succeeded(state, ctx, index, count),
            Policy::WeightedSelect(p) => p.child_succeeded(state, ctx, index, count),
        }
    }

    /// Called after the child `index` that ran failed.
    pub fn child_failed<A, H: BtContext<A>>(&self, state: PolicyState, ctx: &mut H, index: usize, count: usize) -> (r: (PolicyState, ControlOp))
        ensures
            (r.0, *final(ctx), r.1) == failed_effect(*self, state, *old(ctx), index, count),
    {
        match self {
            Policy::Sequence(p) => p.child_failed(state, ctx, index, count),
            Policy::Selector(p) => p.child_failed(state, ctx, index, count),
            Policy::Repeat(p) => p.child_failed(state, ctx, index, count),
            Policy::Retry(p) => p.child_failed(state, ctx, index, count),
            Policy::IfElse(p) => p.child_failed(state, ctx, index, count),
            Policy::Utility(p) => p.child_failed(state, ctx, index, count),
            Policy::RandomSelect(p) => p.child_failed(state, ctx, index, count),
            Policy::ShuffleSeq(p) => p.child_failed(state, ctx, index, count),
            Policy::WeightedSelect(p) => p.child_failed(state, ctx, index, count),
        }
    }
}

} // verus!
