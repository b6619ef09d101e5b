//! Children visited in a computed order.
//!
//! [`order_by`] wraps children so that a control visits them in the order an
//! [`Order`] decides, rather than as written. The control keeps its own
//! meaning: a selector over ordered children tries them in that order until
//! one succeeds, a sequence runs them all in that order.
//!
//! Position `k` of the control is the `k`-th child the order offers. The order
//! is asked again from the start whenever the control goes back to position 0
//! under Evaluate; Resume never reorders. Only controls that visit positions
//! in order (0, the running one, or the next) are supported; any other
//! position fails. At most 64 children.

use vstd::prelude::*;

use crate::context::BtContext;
use crate::control::{
    MAX_CHILDREN, Utility, best_child, bit, count_left, find_nth_untried, is_untried, left_count,
    mark, nth_untried_from, untried,
};
use crate::node::EntryMode;
use crate::tree::Node;

verus! {

/// Children ordered by score, highest first: under a selector, a utility
/// selector. A tie keeps the running child, and otherwise goes to the lower
/// index.
#[derive(Clone, Copy, Debug)]
pub struct ByScore {
    rating: Utility,
}

/// Children in a uniformly random order, one draw from the context's random
/// source of this number per position. A running child stays first when a
/// pass restarts, so a random choice holds while it runs.
#[derive(Clone, Copy, Debug)]
pub struct Shuffled(pub usize);

/// Children in a random order drawn by weight, with the context's generator
/// `.0` and weight function `.1`, one weighted draw per position among the
/// children left; a child whose weight is not positive is left out. A running
/// child stays first when a pass restarts, as with [`Shuffled`].
#[derive(Clone, Copy, Debug)]
pub struct Weighted(pub usize, pub usize);

/// Decides which child comes next.
#[derive(Clone, Copy, Debug)]
pub enum Order {
    ByScore(ByScore),
    Shuffled(Shuffled),
    Weighted(Weighted),
}

/// What an ordered control remembers: the children used at earlier positions
/// of this pass, one bit each, and the position being visited with the child
/// the order put there, if any.
#[derive(Clone, Copy, Debug, PartialEq, Eq)]
pub struct OrderedState {
    pub used: u64,
    pub at: Option<(usize, Option<usize>)>,
}

/// Children visited in the order `order` decides; see [`order_by`].
#[derive(Debug)]
pub struct Ordered {
    pub order: Order,
    pub children: Vec<Node>,
}

impl OrderedState {
    /// The state of a pass not yet begun.
    pub fn fresh() -> (r: Self)
        ensures
            r == fresh_ordered_state(),
    {
        OrderedState { used: 0, at: None }
    }
}

pub open spec fn fresh_ordered_state() -> OrderedState {
    OrderedState { used: 0, at: None }
}

impl ByScore {
    /// How this order rates children: as a utility policy with the same
    /// scorer and inertia does.
    pub closed spec fn rating(self) -> Utility {
        self.rating
    }

    /// Adds `bonus` to the running child's score, so a challenger has to beat
    /// it by more than `bonus` to go first.
    pub fn inertia(self, bonus: i64) -> (r: Self)
        ensures
            r.rating().scorer() == self.rating().scorer(),
            r.rating().bonus() == Some(bonus),
    {
        ByScore { rating: self.rating.inertia(bonus) }
    }
}

/// Orders children by the context's scorer `score`, highest first, with no
/// inertia.
pub fn by_score(score: usize) -> (r: ByScore)
    ensures
        r.rating() == Utility::new_spec(score),
        r.rating().scorer() == score,
        r.rating().bonus() == None::<i64>,
{
    ByScore { rating: Utility::new(score) }
}

/// Orders children uniformly at random, one draw from random source `rng` per
/// position.
pub fn shuffled(rng: usize) -> (r: Shuffled)
    ensures
        r == Shuffled(rng),
{
    Shuffled(rng)
}

/// Orders children at random by weight: generator `rng`, weight function
/// `weights`, one draw per position.
pub fn weighted(rng: usize, weights: usize) -> (r: Weighted)
    ensures
        r == Weighted(rng, weights),
{
    Weighted(rng, weights)
}

/// Wraps `children` so that a control visits them in the order `order`
/// decides; at most 64 children.
pub fn order_by(order: Order, children: Vec<Node>) -> (r: Ordered)
    requires
        children@.len() <= 64,
    ensures
        r.order == order,
        r.children@ == children@,
{
    Ordered { order, children }
}

/// The child `order` offers next, given the children `used` at earlier
/// positions of this pass and the child still `running` from an earlier
/// update: the context afterwards, and the child, if one is left.
pub open spec fn offer_effect<A, H: BtContext<A>>(
    order: Order,
    ctx: H,
    used: u64,
    running: Option<usize>,
    count: usize,
) -> (H, Option<usize>) {
    match order {
        Order::ByScore(b) => (ctx, best_child(b.rating(), ctx, used, count as nat, running)),
        Order::Shuffled(s) => if used == 0 && running is Some {
            (ctx, running)
        } else {
            let left = left_count(used, count as nat);
            if left == 0 {
                (ctx, None)
            } else {
                let (drawn, number) = ctx.draw_effect(s.0);
                (drawn, match nth_untried_from(used, count as nat, 0, (number as nat) % left) {
                    Some(j) => Some(j as usize),
                    None => None,
                })
            }
        },
        Order::Weighted(w) => if used == 0 && running is Some {
            (ctx, running)
        } else {
            ctx.weighted_draw_effect(w.0, w.1, used, count)
        },
    }
}

/// The child the order offers, kept only when it is in range and not used in
/// this pass. More than 64 children leave nothing to offer.
pub open spec fn pick_effect<A, H: BtContext<A>>(
    order: Order,
    ctx: H,
    used: u64,
    running: Option<usize>,
    count: usize,
) -> (H, Option<usize>) {
    if count > 64 {
        (ctx, None)
    } else {
        let (c, offered) = offer_effect(order, ctx, used, running, count);
        (c, match offered {
            Some(j) => if j < count && is_untried(used, j as nat) {
                Some(j)
            } else {
                None
            },
            None => None,
        })
    }
}

/// Visiting `position` of an ordered control whose state is `ordered` and
/// whose child `running` ran before: the state afterwards, the context
/// afterwards, and the child the position stands for (`Some(None)` when the
/// order has none left), or `None` for a position visited out of order.
///
/// A new pass starts at position 0 on entry, and under Evaluate whenever the
/// control comes back to it; the same position again keeps its child; the
/// next position marks the child before it used and asks the order again.
pub open spec fn visit_effect<A, H: BtContext<A>>(
    order: Order,
    ordered: OrderedState,
    running: Option<usize>,
    ctx: H,
    position: usize,
    count: usize,
    mode: EntryMode,
) -> (OrderedState, H, Option<Option<usize>>) {
    if position == 0 && (ordered.at is None || mode is Evaluate) {
        let (c, child) = pick_effect(order, ctx, 0, running, count);
        (OrderedState { used: 0, at: Some((0, child)) }, c, Some(child))
    } else {
        match ordered.at {
            Some((at, child)) => if at == position {
                (ordered, ctx, Some(child))
            } else if at + 1 == position {
                let used = match child {
                    Some(j) => if j < 64 {
                        ordered.used | bit(j as nat)
                    } else {
                        ordered.used
                    },
                    None => ordered.used,
                };
                let (c, next) = pick_effect(order, ctx, used, running, count);
                (OrderedState { used, at: Some((position, next)) }, c, Some(next))
            } else {
                (ordered, ctx, None)
            },
            None => (ordered, ctx, None),
        }
    }
}

/// A child the order picks is in range and unused.
pub proof fn lemma_pick_in_range<A, H: BtContext<A>>(
    order: Order,
    ctx: H,
    used: u64,
    running: Option<usize>,
    count: usize,
)
    ensures
        pick_effect(order, ctx, used, running, count).1 matches Some(j) ==> j < count && j < 64
            && is_untried(used, j as nat),
{
}

impl Order {
    /// The child this order offers next; see [`offer_effect`].
    fn offer<A, H: BtContext<A>>(&self, ctx: &mut H, used: u64, running: Option<usize>, count: usize) -> (r:
        Option<usize>)
        requires
            count <= 64,
        ensures
            (*final(ctx), r) == offer_effect(*self, *old(ctx), used, running, count),
    {
        match self {
            Order::ByScore(b) => b.rating.best(&*ctx, used, count, running),
            Order::Shuffled(s) => {
                if used == 0 && running.is_some() {
                    return running;
                }
                let left = count_left(used, count);
                if left == 0 {
                    return None;
                }
                let number = ctx.draw(s.0);
                let nth = (number as usize) % left;
                find_nth_untried(used, count, nth)
            },
            Order::Weighted(w) => {
                if used == 0 && running.is_some() {
                    return running;
                }
                ctx.draw_weighted(w.0, w.1, used, count)
            },
        }
    }

    /// The child this order picks; see [`pick_effect`].
    pub fn pick<A, H: BtContext<A>>(&self, ctx: &mut H, used: u64, running: Option<usize>, count: usize) -> (r:
        Option<usize>)
        ensures
            (*final(ctx), r) == pick_effect(*self, *old(ctx), used, running, count),
    {
        if count > MAX_CHILDREN {
            return None;
        }
        match self.offer(ctx, used, running, count) {
            Some(j) => if j < count && untried(used, j) {
                Some(j)
            } else {
                None
            },
            None => None,
        }
    }

    /// Visits `position`; see [`visit_effect`].
    pub fn visit<A, H: BtContext<A>>(
        &self,
        ordered: OrderedState,
        running: Option<usize>,
        ctx: &mut H,
        position: usize,
        count: usize,
        mode: EntryMode,
    ) -> (r: (OrderedState, Option<Option<usize>>))
        ensures
            (r.0, *final(ctx), r.1) == visit_effect(
                *self,
                ordered,
                running,
                *old(ctx),
                position,
                count,
                mode,
            ),
    {
        let evaluate = match mode {
            EntryMode::Evaluate => true,
            EntryMode::Resume => false,
        };
        if position == 0 && (ordered.at.is_none() || evaluate) {
            let child = self.pick(ctx, 0, running, count);
            return (OrderedState { used: 0, at: Some((0, child)) }, Some(child));
        }
        match ordered.at {
            Some((at, child)) => {
                if at == position {
                    (ordered, Some(child))
                } else if at < position && position - at == 1 {
                    let used = match child {
                        Some(j) => if j < 64 {
                            mark(ordered.used, j)
                        } else {
                            ordered.used
                        },
                        None => ordered.used,
                    };
                    let next = self.pick(ctx, used, running, count);
                    (OrderedState { used, at: Some((position, next)) }, Some(next))
                } else {
                    (ordered, None)
                }
            },
            None => (ordered, None),
        }
    }
}

} // verus!
