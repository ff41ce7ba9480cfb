//! What prices, books and positions come to, in numbers.

use crate::decimal::{
    adds_exactly, divides_exactly, lemma_pow10_positive, lemma_units_of_signed, magnitude,
    multiplies_exactly, num, num_abs, num_add, num_div, num_le, num_lt, num_mul, num_rounded, num_sub,
    pow10, subtracts_exactly, units, units_in_one, Num, MAX_SCALE,
};
use crate::market_data::{book_fault, level_fault, midpoint, side_fault, BookFault, PriceLevel};
use crate::pnl::{marked_notional, spread_in_bps, unrealized};
use crate::portfolio::{
    position_at, position_key, with_position, AgentExposure, InstrumentExposure, PositionKey,
    TrackedPosition, VenueExposure,
};
use crate::risk::{
    agent_at, projected, venue_at, venue_notional, venue_positions, with_venue_notional,
};
use crate::smoke::resting_price;
use vstd::prelude::*;

verus! {

// ─── Prices ───

/// What a position has gained is the way from its entry price to the mark, times its
/// quantity: long positions gain when the mark rises, short ones when it falls.
pub proof fn law_unrealized_gain(qty: Num, entry: Num, mark: Num)
    requires
        subtracts_exactly(mark, entry),
        multiplies_exactly(num_sub(mark, entry)->0, qty),
    ensures
        unrealized(qty, entry, mark) matches Some(gain) && units(gain) * units_in_one() == (units(
            mark,
        ) - units(entry)) * units(qty),
{
}

/// Turning a position round turns its gain round, and marking it at its entry price gains
/// nothing.
pub proof fn law_gain_turns_with_the_position(qty: Num, other: Num, entry: Num, mark: Num)
    requires
        units(other) == -units(qty),
        subtracts_exactly(mark, entry),
        multiplies_exactly(num_sub(mark, entry)->0, qty),
        multiplies_exactly(num_sub(mark, entry)->0, other),
    ensures
        units(unrealized(other, entry, mark)->0) == -units(unrealized(qty, entry, mark)->0),
        units(mark) == units(entry) ==> units(unrealized(qty, entry, mark)->0) == 0,
{
    law_unrealized_gain(qty, entry, mark);
    law_unrealized_gain(other, entry, mark);
    lemma_pow10_positive(MAX_SCALE as nat);
    let (a, b) = (units(unrealized(qty, entry, mark)->0), units(unrealized(other, entry, mark)->0));
    let (d, q, o, k) = (units(mark) - units(entry), units(qty), units(other), units_in_one());
    assert(b == -a) by (nonlinear_arith)
        requires
            a * k == d * q,
            b * k == d * o,
            o == -q,
            k > 0,
    ;
    assert(d == 0 ==> a == 0) by (nonlinear_arith)
        requires
            a * k == d * q,
            k > 0,
    ;
}

/// What a position is worth is the size of its quantity times the mark, long or short.
pub proof fn law_notional_at_the_mark(qty: Num, mark: Num)
    requires
        multiplies_exactly(num_abs(qty), mark),
    ensures
        marked_notional(qty, mark) matches Some(n) && units(n) * units_in_one() == magnitude(
            units(qty),
        ) * units(mark),
{
    lemma_units_of_signed(qty);
}

/// The spread in basis points is ten thousand times what the ask is above the bid, by the
/// mid price.
pub proof fn law_spread_in_basis_points(bid: Num, ask: Num, mid: Num)
    requires
        subtracts_exactly(ask, bid),
        divides_exactly(num_sub(ask, bid)->0, mid),
        multiplies_exactly(num_div(num_sub(ask, bid)->0, mid)->0, num(10_000, 0)),
    ensures
        spread_in_bps(bid, ask, mid) matches Some(bps) && units(bps) * units(mid) == 10_000 * (
        units(ask) - units(bid)) * units_in_one(),
{
    lemma_pow10_positive(MAX_SCALE as nat);
    let q = units(num_div(num_sub(ask, bid)->0, mid)->0);
    let (bps, k, m, d) = (
        units(spread_in_bps(bid, ask, mid)->0),
        units_in_one(),
        units(mid),
        units(ask) - units(bid),
    );
    assert(units(num(10_000, 0)) == 10_000 * k);
    assert(bps == q * 10_000) by (nonlinear_arith)
        requires
            bps * k == q * (10_000 * k),
            k > 0,
    ;
    assert(bps * m == 10_000 * d * k) by (nonlinear_arith)
        requires
            bps == q * 10_000,
            q * m == d * k,
    ;
}

/// Twice the mid price is the bid and the ask together.
pub proof fn law_mid_price(bid: Num, ask: Num)
    requires
        adds_exactly(bid, ask),
        divides_exactly(num_add(bid, ask)->0, num(2, 0)),
    ensures
        midpoint(bid, ask) matches Some(mid) && 2 * units(mid) == units(bid) + units(ask),
{
    lemma_pow10_positive(MAX_SCALE as nat);
    let (mid, k, s) = (units(midpoint(bid, ask)->0), units_in_one(), units(bid) + units(ask));
    assert(units(num(2, 0)) == 2 * k);
    assert(2 * mid == s) by (nonlinear_arith)
        requires
            mid * (2 * k) == s * k,
            k > 0,
    ;
}

/// Rounding keeps the sign and moves a number by at most half of the last place that stays;
/// from the middle between two it goes to the even one. What has no more places stays.
pub proof fn law_rounding(a: Num, dp: nat)
    ensures
        a.s <= dp ==> num_rounded(a, dp) == a,
        a.s > dp ==> {
            let unit = pow10((a.s - dp) as nat) as int;
            let n = num_rounded(a, dp).m;
            &&& num_rounded(a, dp).s == dp
            &&& 2 * magnitude(n * unit - a.m) <= unit
            &&& 2 * magnitude(n * unit - a.m) == unit ==> n % 2 == 0
            &&& a.m >= 0 ==> n >= 0
            &&& a.m <= 0 ==> n <= 0
        },
{
    if a.s > dp {
        let unit = pow10((a.s - dp) as nat) as int;
        lemma_pow10_positive((a.s - dp) as nat);
        let size = magnitude(a.m);
        let (q, r) = (size / unit, size % unit);
        let n = num_rounded(a, dp).m;
        assert(size == q * unit + r && 0 <= r < unit && q >= 0) by (nonlinear_arith)
            requires
                q == size / unit,
                r == size % unit,
                unit > 0,
                size >= 0,
        ;
        let up = magnitude(n);
        assert(up == q || up == q + 1);
        assert(up * unit == q * unit || up * unit == q * unit + unit) by (nonlinear_arith)
            requires
                up == q || up == q + 1,
        ;
        assert(up == q ==> up * unit == q * unit);
        assert(up == q + 1 ==> up * unit == q * unit + unit) by (nonlinear_arith);
        assert(a.m < 0 ==> n * unit == -(up * unit)) by (nonlinear_arith)
            requires
                a.m < 0 ==> n == -up,
        ;
        assert(a.m >= 0 ==> n == up);
    }
}

/// A resting order is priced so that ten thousand times its price is the bid times what the
/// offset leaves of ten thousand, where nothing is rounded.
pub proof fn law_resting_price(bids: Seq<PriceLevel>, offset_bps: u32)
    requires
        bids.len() > 0,
        0 < offset_bps < 10_000,
        bids[0].price@.m > 0,
        divides_exactly(num(offset_bps as int, 0), num(10_000, 0)),
        ({
            let offset = num_div(num(offset_bps as int, 0), num(10_000, 0))->0;
            let rest = num_sub(num(1, 0), offset)->0;
            let scaled = num_mul(bids[0].price@, rest)->0;
            &&& offset.s <= MAX_SCALE
            &&& subtracts_exactly(num(1, 0), offset)
            &&& multiplies_exactly(bids[0].price@, rest)
            &&& bids[0].price@.s <= MAX_SCALE
            &&& units(num_rounded(scaled, bids[0].price@.s)) == units(scaled)
        }),
    ensures
        resting_price(bids, offset_bps) matches Some(Ok(price)) && 10_000 * units(price) == units(
            bids[0].price@,
        ) * (10_000 - offset_bps),
{
    let bid = bids[0].price@;
    let offset = num_div(num(offset_bps as int, 0), num(10_000, 0))->0;
    let rest = num_sub(num(1, 0), offset)->0;
    let scaled = num_mul(bid, rest)->0;
    let (k, f, b) = (units_in_one(), offset_bps as int, units(bid));
    lemma_pow10_positive(MAX_SCALE as nat);
    assert(units(num(f, 0)) == f * k);
    assert(units(num(10_000, 0)) == 10_000 * k);
    assert(units(num(1, 0)) == 1 * k);
    let (o, r, s) = (units(offset), units(rest), units(scaled));
    assert(10_000 * o == f * k) by (nonlinear_arith)
        requires
            o * (10_000 * k) == (f * k) * k,
            k > 0,
    ;
    assert(10_000 * r == (10_000 - f) * k) by (nonlinear_arith)
        requires
            r == 1 * k - o,
            10_000 * o == f * k,
    ;
    assert(10_000 * s == b * (10_000 - f)) by (nonlinear_arith)
        requires
            s * k == b * r,
            10_000 * r == (10_000 - f) * k,
            k > 0,
    ;
    assert(0 < o < k) by (nonlinear_arith)
        requires
            10_000 * o == f * k,
            0 < f < 10_000,
            k > 0,
    ;
    crate::decimal::lemma_units_sign(bid);
    crate::decimal::lemma_units_sign(offset);
    assert(0 < s < b) by (nonlinear_arith)
        requires
            10_000 * s == b * (10_000 - f),
            0 < f < 10_000,
            b > 0,
    ;
    let rounded = num_rounded(scaled, bid.s);
    crate::decimal::lemma_units_sign(rounded);
    crate::decimal::lemma_units_order(offset, num(1, 0));
    crate::decimal::lemma_units_order(num(1, 0), offset);
    crate::decimal::lemma_units_order(bid, rounded);
    assert(num_lt(crate::decimal::num_zero(), offset)) by {
        assert(0 * pow10(offset.s) == 0);
        assert(offset.m * pow10(0) > 0) by (nonlinear_arith)
            requires
                offset.m > 0,
                pow10(0) == 1,
        ;
    }
}

// ─── Books ───

/// Whether a book has the fault that is said of it, and where.
pub open spec fn has_fault(bids: Seq<PriceLevel>, asks: Seq<PriceLevel>, f: BookFault) -> bool {
    match f {
        BookFault::NonPositivePrice { side, level, price } => {
            ||| side == "bid"@ && 0 <= level < bids.len() && price == bids[level].price && price@.m
                <= 0
            ||| side == "ask"@ && 0 <= level < asks.len() && price == asks[level].price && price@.m
                <= 0
        },
        BookFault::NonPositiveQty { side, level, qty } => {
            ||| side == "bid"@ && 0 <= level < bids.len() && qty == bids[level].qty && qty@.m <= 0
            ||| side == "ask"@ && 0 <= level < asks.len() && qty == asks[level].qty && qty@.m <= 0
        },
        BookFault::BidsUnsorted { level, previous, current } => 0 < level < bids.len() && previous
            == bids[level - 1].price && current == bids[level].price && num_lt(previous@, current@),
        BookFault::AsksUnsorted { level, previous, current } => 0 < level < asks.len() && previous
            == asks[level - 1].price && current == asks[level].price && num_lt(current@, previous@),
        BookFault::CrossedBook { best_bid, best_ask } => bids.len() > 0 && asks.len() > 0
            && best_bid == bids[0].price && best_ask == asks[0].price && num_lt(best_ask@, best_bid@),
    }
}

/// Nothing is wrong with a book exactly where all prices and quantities are positive, no bid
/// is above the one before it, no ask below the one before it, and the best bid is not above
/// the best ask.
pub proof fn law_sound_book(bids: Seq<PriceLevel>, asks: Seq<PriceLevel>)
    ensures
        book_fault(bids, asks) is None <==> {
            &&& forall|i: int|
                0 <= i < bids.len() ==> (#[trigger] bids[i]).price@.m > 0 && bids[i].qty@.m > 0 && (
                i > 0 ==> num_le(bids[i].price@, bids[i - 1].price@))
            &&& forall|i: int|
                0 <= i < asks.len() ==> (#[trigger] asks[i]).price@.m > 0 && asks[i].qty@.m > 0 && (
                i > 0 ==> num_le(asks[i - 1].price@, asks[i].price@))
            &&& bids.len() > 0 && asks.len() > 0 ==> num_le(bids[0].price@, asks[0].price@)
        },
{
    lemma_sound_side(bids, "bid"@, true, 0);
    lemma_sound_side(asks, "ask"@, false, 0);
}

/// A side has no fault from a level on exactly where all levels from there on are positive and
/// in order.
proof fn lemma_sound_side(levels: Seq<PriceLevel>, side: Seq<char>, descending: bool, from: int)
    requires
        0 <= from <= levels.len(),
    ensures
        side_fault(levels, side, descending, from) is None <==> forall|i: int|
            from <= i < levels.len() ==> (#[trigger] levels[i]).price@.m > 0 && levels[i].qty@.m > 0
                && (i > 0 && descending ==> num_le(levels[i].price@, levels[i - 1].price@)) && (i
                > 0 && !descending ==> num_le(levels[i - 1].price@, levels[i].price@)),
    decreases levels.len() - from,
{
    if from < levels.len() {
        lemma_sound_side(levels, side, descending, from + 1);
        assert(levels[from].price == levels[from].price);
    }
}

/// What is said to be wrong with a book is wrong with it.
pub proof fn law_faults_are_true(bids: Seq<PriceLevel>, asks: Seq<PriceLevel>)
    ensures
        book_fault(bids, asks) matches Some(f) ==> has_fault(bids, asks, f),
{
    lemma_side_fault_is_true(bids, "bid"@, true, 0);
    lemma_side_fault_is_true(asks, "ask"@, false, 0);
}

/// The fault of a side is that of one of its levels.
proof fn lemma_side_fault_is_true(
    levels: Seq<PriceLevel>,
    side: Seq<char>,
    descending: bool,
    from: int,
)
    requires
        0 <= from,
    ensures
        side_fault(levels, side, descending, from) matches Some(f) ==> exists|i: int|
            0 <= i < levels.len() && #[trigger] level_fault(levels, i, side, descending) == Some(f),
    decreases levels.len() - from,
{
    if from < levels.len() {
        lemma_side_fault_is_true(levels, side, descending, from + 1);
    }
}

// ─── Exposures ───

/// The long and the short side of an exposure: half of gross with net added, and half of gross
/// with net taken off.
pub open spec fn long_and_short(net: Num, gross: Num) -> (Num, Num) {
    (
        num_div(num_add(gross, net)->0, num(2, 0))->0,
        num_div(num_sub(gross, net)->0, num(2, 0))->0,
    )
}

/// Whether a change of an exposure rounds nothing: neither its sides, nor what the change
/// takes off the one and adds to the other, nor the result.
pub open spec fn nets_exactly(net: Num, gross: Num, delta: Num) -> bool {
    let (long, short) = long_and_short(net, gross);
    let (met, other, size) = if delta.m >= 0 {
        (short, long, delta)
    } else {
        (long, short, num_abs(delta))
    };
    let taken = if num_lt(met, size) {
        met
    } else {
        size
    };
    let (rest, less) = (num_sub(size, taken)->0, num_sub(met, taken)->0);
    let more = num_add(other, rest)->0;
    let (long_after, short_after) = if delta.m >= 0 {
        (more, less)
    } else {
        (less, more)
    };
    &&& adds_exactly(gross, net) && subtracts_exactly(gross, net)
    &&& divides_exactly(num_add(gross, net)->0, num(2, 0))
    &&& divides_exactly(num_sub(gross, net)->0, num(2, 0))
    &&& met.s <= MAX_SCALE && size.s <= MAX_SCALE
    &&& subtracts_exactly(size, taken) && subtracts_exactly(met, taken)
    &&& adds_exactly(other, rest)
    &&& subtracts_exactly(long_after, short_after) && adds_exactly(long_after, short_after)
}

/// Net exposure moves by the change, with its sign. Gross exposure grows by its size, less
/// twice what the change offsets: a buy covers the short side first, a sell reduces the long
/// side first.
pub proof fn law_netting(net: Num, gross: Num, delta: Num)
    requires
        nets_exactly(net, gross, delta),
    ensures
        projected(net, gross, delta) matches Some((net_after, gross_after)) && {
            let (n, g, d) = (units(net), units(gross), units(delta));
            let twice_short = g - n;
            let twice_long = g + n;
            &&& units(net_after) == n + d
            &&& d >= 0 && 2 * d <= twice_short ==> units(gross_after) == g - d
            &&& d >= 0 && 2 * d > twice_short ==> units(gross_after) == g + d - twice_short
            &&& d < 0 && -2 * d <= twice_long ==> units(gross_after) == g + d
            &&& d < 0 && -2 * d > twice_long ==> units(gross_after) == g - d - twice_long
        },
{
    let (long, short) = long_and_short(net, gross);
    lemma_pow10_positive(MAX_SCALE as nat);
    let k = units_in_one();
    assert(units(num(2, 0)) == 2 * k);
    let (a, b) = (units(long), units(short));
    let (x, y) = (units(gross) + units(net), units(gross) - units(net));
    assert(2 * a == x) by (nonlinear_arith)
        requires
            a * (2 * k) == x * k,
            k > 0,
    ;
    assert(2 * b == y) by (nonlinear_arith)
        requires
            b * (2 * k) == y * k,
            k > 0,
    ;
    crate::decimal::lemma_units_sign(delta);
    lemma_units_of_signed(delta);
    let (met, size) = if delta.m >= 0 {
        (short, delta)
    } else {
        (long, num_abs(delta))
    };
    crate::decimal::lemma_units_order(met, size);
}

/// An agent's exposure is the first one that names it.
pub proof fn law_first_of_agent(s: Seq<AgentExposure>, id: Seq<char>, from: int)
    requires
        0 <= from <= s.len(),
    ensures
        match agent_at(s, id, from) {
            Some(i) => {
                &&& from <= i < s.len()
                &&& s[i].agent@ == id
                &&& forall|j: int| from <= j < i ==> (#[trigger] s[j]).agent@ != id
            },
            None => forall|j: int| from <= j < s.len() ==> (#[trigger] s[j]).agent@ != id,
        },
    decreases s.len() - from,
{
    if from < s.len() && s[from].agent@ != id {
        law_first_of_agent(s, id, from + 1);
    }
}

/// A venue's exposure is the first one that names it.
pub proof fn law_first_at_venue(s: Seq<VenueExposure>, id: Seq<char>, from: int)
    requires
        0 <= from <= s.len(),
    ensures
        match venue_at(s, id, from) {
            Some(i) => {
                &&& from <= i < s.len()
                &&& s[i].venue@ == id
                &&& forall|j: int| from <= j < i ==> (#[trigger] s[j]).venue@ != id
            },
            None => forall|j: int| from <= j < s.len() ==> (#[trigger] s[j]).venue@ != id,
        },
    decreases s.len() - from,
{
    if from < s.len() && s[from].venue@ != id {
        law_first_at_venue(s, id, from + 1);
    }
}

/// Whether an instrument is held at a venue.
pub open spec fn is_held_at(e: InstrumentExposure, venue: Seq<char>) -> bool {
    exists|i: int| 0 <= i < e.by_venue@.len() && (#[trigger] e.by_venue@[i]).venue@ == venue
}

/// The positions at a venue are the instruments that are held there.
pub proof fn law_positions_at_a_venue(s: Seq<InstrumentExposure>, venue: Seq<char>)
    ensures
        venue_positions(s, venue) == s.filter(|e: InstrumentExposure| is_held_at(e, venue)).len(),
    decreases s.len(),
{
    reveal(Seq::filter);
    if s.len() > 0 {
        law_positions_at_a_venue(s.drop_last(), venue);
        let held = s.last().by_venue@;
        law_first_at_venue(held, venue, 0);
        if venue_at(held, venue, 0) is Some {
            assert(held[venue_at(held, venue, 0)->0].venue@ == venue);
        }
    }
}

/// What exposures hold at a venue, by size, together.
pub open spec fn held_in_all(by_venue: Seq<VenueExposure>, venue: Seq<char>) -> int
    decreases by_venue.len(),
{
    if by_venue.len() == 0 {
        0
    } else {
        held_in_all(by_venue.drop_last(), venue) + (if by_venue.last().venue@ == venue {
            magnitude(units(by_venue.last().notional_usd@))
        } else {
            0
        })
    }
}

/// Whether what exposures hold at a venue is added to a total with nothing rounded.
pub open spec fn joins_exactly(
    total: Option<Num>,
    by_venue: Seq<VenueExposure>,
    venue: Seq<char>,
) -> bool
    decreases by_venue.len(),
{
    by_venue.len() > 0 ==> {
        let before = with_venue_notional(total, by_venue.drop_last(), venue);
        &&& joins_exactly(total, by_venue.drop_last(), venue)
        &&& by_venue.last().venue@ == venue ==> before is Some && adds_exactly(
            before->0,
            num_abs(by_venue.last().notional_usd@),
        )
    }
}

/// A total grows by what is held at the venue, long or short, and by nothing else.
pub proof fn law_total_at_a_venue(
    total: Option<Num>,
    by_venue: Seq<VenueExposure>,
    venue: Seq<char>,
)
    requires
        total is Some,
        joins_exactly(total, by_venue, venue),
    ensures
        with_venue_notional(total, by_venue, venue) matches Some(n) && units(n) == units(total->0)
            + held_in_all(by_venue, venue),
    decreases by_venue.len(),
{
    if by_venue.len() > 0 {
        law_total_at_a_venue(total, by_venue.drop_last(), venue);
        lemma_units_of_signed(by_venue.last().notional_usd@);
    }
}

/// The notional at a venue is what all instruments hold there: with one instrument more it
/// grows by what that one holds.
pub proof fn law_notional_at_a_venue(s: Seq<InstrumentExposure>, venue: Seq<char>)
    ensures
        s.len() == 0 ==> (venue_notional(s, venue) matches Some(n) && n.m == 0),
        s.len() > 0 && venue_notional(s.drop_last(), venue) is Some && joins_exactly(
            venue_notional(s.drop_last(), venue),
            s.last().by_venue@,
            venue,
        ) ==> (venue_notional(s, venue) matches Some(n) && units(n) == units(
            venue_notional(s.drop_last(), venue)->0,
        ) + held_in_all(s.last().by_venue@, venue)),
{
    if s.len() > 0 && venue_notional(s.drop_last(), venue) is Some && joins_exactly(
        venue_notional(s.drop_last(), venue),
        s.last().by_venue@,
        venue,
    ) {
        law_total_at_a_venue(
            venue_notional(s.drop_last(), venue),
            s.last().by_venue@,
            venue,
        );
    }
}

/// A position that is put in is found under its key, and the others stay where they are: it
/// takes the place of the one with its key, or goes to the end.
pub proof fn law_position_is_put_in(s: Seq<TrackedPosition>, p: TrackedPosition, i: int)
    requires
        0 <= i < s.len(),
    ensures
        position_key(s[i]) != position_key(p) ==> with_position(s, p)[i] == s[i],
        position_key(s[i]) == position_key(p) ==> with_position(s, p)[i] == p
            && with_position(s, p).len() == s.len(),
        (forall|j: int| 0 <= j < s.len() ==> position_key(#[trigger] s[j]) != position_key(p))
            ==> with_position(s, p).len() == s.len() + 1 && with_position(s, p).last() == p,
{
    assert(position_key(s[i]) == position_key(s[i]));
}

/// A position is found under its agent, venue and instrument together.
pub proof fn law_position_is_found(s: Seq<TrackedPosition>, key: PositionKey, from: int)
    requires
        0 <= from <= s.len(),
    ensures
        position_at(s, key, from) matches Some(p) ==> p.agent@ == key.agent && p.venue@ == key.venue
            && p.instrument@ == key.instrument,
        position_at(s, key, from) is None <==> forall|j: int|
            from <= j < s.len() ==> !((#[trigger] s[j]).agent@ == key.agent && s[j].venue@
                == key.venue && s[j].instrument@ == key.instrument),
    decreases s.len() - from,
{
    if from < s.len() {
        law_position_is_found(s, key, from + 1);
        assert(position_key(s[from]) == key <==> s[from].agent@ == key.agent && s[from].venue@
            == key.venue && s[from].instrument@ == key.instrument);
    }
}

} // verus!
