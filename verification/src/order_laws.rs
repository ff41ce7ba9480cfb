//! What fills and transitions make of an order that is live at a venue, in numbers.

use crate::decimal::{
    adds_exactly, divides_exactly, multiplies_exactly, num_add, num_div, num_mul, num_sub,
    num_zero, subtracts_exactly, units, units_in_one, Num,
};
use crate::pipeline::{
    filled_with, moved_to, totals_after, venue_may_pass, Fill, LiveOrder, VenueState,
    VenueStateError,
};
use crate::time::Timestamp;
use vstd::prelude::*;

verus! {

/// The average price of what is filled; zero before the first fill.
pub open spec fn average_so_far(order: LiveOrder) -> Num {
    match order.avg_fill_price {
        Some(p) => p@,
        None => num_zero(),
    }
}

/// Whether a fill changes the average price of an order with nothing rounded: neither the
/// two notionals, nor their sum, nor the filled quantity, nor the quotient.
pub open spec fn averages_exactly(order: LiveOrder, fill: Fill) -> bool {
    let old_notional = num_mul(average_so_far(order), order.filled_qty@)->0;
    let new_notional = num_mul(fill.price@, fill.qty@)->0;
    let filled = num_add(order.filled_qty@, fill.qty@)->0;
    &&& multiplies_exactly(average_so_far(order), order.filled_qty@)
    &&& multiplies_exactly(fill.price@, fill.qty@)
    &&& adds_exactly(old_notional, new_notional)
    &&& adds_exactly(order.filled_qty@, fill.qty@)
    &&& filled.m > 0
    &&& divides_exactly(num_add(old_notional, new_notional)->0, filled)
}

/// What is paid in all is the average price times the filled quantity: a fill adds its price
/// times its quantity to it, and its quantity to what is filled.
pub proof fn law_average_is_weighted_by_quantity(
    before: LiveOrder,
    after: LiveOrder,
    fill: Fill,
    now: Timestamp,
    r: Result<(), VenueStateError>,
)
    requires
        totals_after(before, fill) is Some,
        filled_with(before, after, fill, totals_after(before, fill)->0, now, r),
        averages_exactly(before, fill),
    ensures
        after.avg_fill_price is Some,
        units(after.filled_qty@) == units(before.filled_qty@) + units(fill.qty@),
        units(average_so_far(after)) * units(after.filled_qty@) == units(average_so_far(before))
            * units(before.filled_qty@) + units(fill.price@) * units(fill.qty@),
{
    let old_notional = num_mul(average_so_far(before), before.filled_qty@)->0;
    let new_notional = num_mul(fill.price@, fill.qty@)->0;
    let sum = num_add(old_notional, new_notional)->0;
    let k = units_in_one();
    let (x, y, z) = (units(old_notional), units(new_notional), units(sum));
    assert(z * k == x * k + y * k) by (nonlinear_arith)
        requires
            z == x + y,
    ;
}

/// What a fill takes from the remaining quantity it adds to the filled one, and the order is
/// filled once nothing remains; a fill that the order's state does not allow is not listed.
pub proof fn law_fill_moves_quantity(
    before: LiveOrder,
    after: LiveOrder,
    fill: Fill,
    now: Timestamp,
    r: Result<(), VenueStateError>,
)
    requires
        totals_after(before, fill) is Some,
        filled_with(before, after, fill, totals_after(before, fill)->0, now, r),
    ensures
        adds_exactly(before.filled_qty@, fill.qty@) ==> units(after.filled_qty@) == units(
            before.filled_qty@,
        ) + units(fill.qty@),
        subtracts_exactly(before.remaining_qty@, fill.qty@) ==> units(after.remaining_qty@)
            == units(before.remaining_qty@) - units(fill.qty@),
        r is Ok ==> {
            &&& after.venue_state is Filled <==> after.remaining_qty@.m <= 0
            &&& after.venue_state is PartiallyFilled <==> after.remaining_qty@.m > 0
            &&& after.fills@.len() == before.fills@.len() + 1
            &&& after.fills@.last() == fill
            &&& after.fills@.drop_last() == before.fills@
            &&& after.last_updated == now
        },
        r is Err ==> after.venue_state == before.venue_state && after.fills@ == before.fills@,
        r is Ok <==> before.venue_state is Submitted || before.venue_state is Accepted
            || before.venue_state is PartiallyFilled,
        after.core == before.core,
{
    assert(before.fills@.push(fill).drop_last() =~= before.fills@);
}

/// A fill after which nothing is filled leaves the average as it is; and no fill changes what
/// the order is, or whose.
pub proof fn law_what_a_fill_leaves(
    before: LiveOrder,
    after: LiveOrder,
    fill: Fill,
    now: Timestamp,
    r: Result<(), VenueStateError>,
)
    requires
        totals_after(before, fill) is Some,
        filled_with(before, after, fill, totals_after(before, fill)->0, now, r),
    ensures
        after.filled_qty@.m <= 0 ==> average_so_far(after) == average_so_far(before)
            && after.avg_fill_price is Some == before.avg_fill_price is Some,
        after.client_order_id == before.client_order_id,
        after.venue_order_id == before.venue_order_id,
        after.submitted_at == before.submitted_at,
        r is Err ==> after.last_updated == before.last_updated,
        r matches Err(e) ==> (e matches VenueStateError::InvalidTransition { from, to } && from
            == before.venue_state && (to is Filled || to is PartiallyFilled)),
{
}

/// The totals after a fill are there wherever the notionals, the quantities and the average
/// stay in their range.
pub proof fn law_totals_are_owed(order: LiveOrder, fill: Fill)
    requires
        num_mul(average_so_far(order), order.filled_qty@) is Some,
        num_mul(fill.price@, fill.qty@) is Some,
        num_add(
            num_mul(average_so_far(order), order.filled_qty@)->0,
            num_mul(fill.price@, fill.qty@)->0,
        ) matches Some(notional) && (num_add(order.filled_qty@, fill.qty@) matches Some(filled) && (
        filled.m > 0 ==> num_div(notional, filled) is Some)),
        num_sub(order.remaining_qty@, fill.qty@) is Some,
    ensures
        totals_after(order, fill) is Some,
{
}

/// An order that is cancelled, rejected or expires moves to that state exactly where it may,
/// at that time, and is otherwise left alone; its quantities and fills stay.
pub proof fn law_move(
    before: LiveOrder,
    after: LiveOrder,
    to: VenueState,
    now: Timestamp,
    r: Result<(), VenueStateError>,
)
    requires
        moved_to(before, after, to, now, r),
    ensures
        r is Ok <==> venue_may_pass(before.venue_state, to),
        r is Ok ==> after.venue_state == to && after.last_updated == now,
        r is Err ==> after.venue_state == before.venue_state && after.last_updated
            == before.last_updated,
        after.core == before.core,
        after.filled_qty == before.filled_qty,
        after.remaining_qty == before.remaining_qty,
        after.avg_fill_price == before.avg_fill_price,
        after.fills@ == before.fills@,
        after.client_order_id == before.client_order_id,
        after.venue_order_id == before.venue_order_id,
        after.submitted_at == before.submitted_at,
        r matches Err(e) ==> e == (VenueStateError::InvalidTransition {
            from: before.venue_state,
            to,
        }),
{
}

/// What a list of fills is worth: price times quantity of each, together.
pub open spec fn worth(fills: Seq<Fill>) -> int
    decreases fills.len(),
{
    if fills.len() == 0 {
        0
    } else {
        worth(fills.drop_last()) + units(fills.last().price@) * units(fills.last().qty@)
    }
}

/// What a list of fills amounts to.
pub open spec fn amount(fills: Seq<Fill>) -> int
    decreases fills.len(),
{
    if fills.len() == 0 {
        0
    } else {
        amount(fills.drop_last()) + units(fills.last().qty@)
    }
}

/// Whether states of an order follow one another by fills, each taken in with nothing
/// rounded.
pub open spec fn filled_by(states: Seq<LiveOrder>, fills: Seq<Fill>, times: Seq<Timestamp>) -> bool {
    &&& states.len() == fills.len() + 1
    &&& times.len() == fills.len()
    &&& forall|i: int|
        0 <= i < fills.len() ==> {
            &&& averages_exactly(#[trigger] states[i], fills[i])
            &&& totals_after(states[i], fills[i]) is Some
            &&& exists|r: Result<(), VenueStateError>| #[trigger]
                filled_with(
                    states[i],
                    states[i + 1],
                    fills[i],
                    totals_after(states[i], fills[i])->0,
                    times[i],
                    r,
                )
        }
}

/// Over all its fills an order's average price times its filled quantity is the sum of price
/// times quantity of every fill, and its filled quantity is the sum of theirs.
pub proof fn law_average_over_all_fills(
    states: Seq<LiveOrder>,
    fills: Seq<Fill>,
    times: Seq<Timestamp>,
)
    requires
        filled_by(states, fills, times),
        units(states[0].filled_qty@) == 0,
    ensures
        units(states.last().filled_qty@) == amount(fills),
        units(average_so_far(states.last())) * units(states.last().filled_qty@) == worth(fills),
    decreases fills.len(),
{
    let n = fills.len() as int;
    if n == 0 {
        let (a, q) = (units(average_so_far(states[0])), units(states[0].filled_qty@));
        assert(a * q == 0) by (nonlinear_arith)
            requires
                q == 0,
        ;
    } else {
        let (s, f, t) = (states.drop_last(), fills.drop_last(), times.drop_last());
        assert(filled_by(s, f, t)) by {
            assert forall|i: int| 0 <= i < f.len() implies {
                &&& averages_exactly(#[trigger] s[i], f[i])
                &&& totals_after(s[i], f[i]) is Some
                &&& exists|r: Result<(), VenueStateError>| #[trigger]
                    filled_with(s[i], s[i + 1], f[i], totals_after(s[i], f[i])->0, t[i], r)
            } by {
                assert(s[i] == states[i] && s[i + 1] == states[i + 1]);
                assert(f[i] == fills[i] && t[i] == times[i]);
            }
        }
        law_average_over_all_fills(s, f, t);
        assert(s.last() == states[n - 1]);
        assert(averages_exactly(states[n - 1], fills[n - 1]));
        let r = choose|r: Result<(), VenueStateError>| #[trigger]
            filled_with(
                states[n - 1],
                states[n],
                fills[n - 1],
                totals_after(states[n - 1], fills[n - 1])->0,
                times[n - 1],
                r,
            );
        law_average_is_weighted_by_quantity(
            states[n - 1],
            states[n],
            fills[n - 1],
            times[n - 1],
            r,
        );
    }
}

/// What venue states can follow one another: an order is accepted or rejected only when it
/// has been submitted, expires only when it has been accepted, and can be filled or cancelled
/// while it is open.
pub proof fn law_venue_states_follow(from: VenueState, to: VenueState)
    ensures
        to is Submitted ==> !venue_may_pass(from, to),
        to is Accepted ==> (venue_may_pass(from, to) <==> from is Submitted),
        to is Rejected ==> (venue_may_pass(from, to) <==> from is Submitted),
        to is Expired ==> (venue_may_pass(from, to) <==> from is Accepted),
        to is Cancelled || to is Filled || to is PartiallyFilled ==> (venue_may_pass(from, to)
            <==> from is Submitted || from is Accepted || from is PartiallyFilled),
{
}

} // verus!
