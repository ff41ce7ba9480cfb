//! What the exchange is told and what is read from it: every request says what was
//! submitted, and every record is read as what it reports.

use crate::bybit::{
    acknowledges, book_data_fault, book_topics, classified, control_meaning, execution_fault,
    expiry_millis, faulty_at, first_execution_fault, first_position_fault, gateway_fault,
    is_book_of, is_fill_of, is_open_order_of, is_position_of, open_market, order_fault,
    order_state_of, parsed_decimal, parsed_level, parsed_levels, query_text, real_executions, real_positions,
    recorded, same_but_books, session_step, side_of, signed_size, submission_fault, submit_decision,
    time_of_millis, translated, with_fill_markets, with_order_markets, BybitAdapter,
    BybitExecutionRecord, BybitOrderRecord, BybitOrderbookData, BybitPositionRecord,
    BybitWsControlEnvelope, OrderRequest, PrivateStreamControl, RestFault, StreamAction,
    StreamEvent, StreamSession, SubmitDecision,
};
use crate::decimal::{
    decimal_parsed, lemma_units_of_signed, num, num_eq, num_normalized, num_text, pow10, units,
    Decimal, Num,
};
use crate::gateway::{
    GatewayFault, OrderSubmission, VenueFill, VenueOpenOrder, VenueOrderAck, VenuePosition,
};
use crate::ids::{MarketId, VenueId};
use crate::market_data::OrderbookSnapshot;
use crate::signal::Side;
use crate::text::{int_text, lowered, occurs};
use crate::time::{Timestamp, MAX_UTC_MILLIS, MIN_UTC_MILLIS};
use vstd::prelude::*;

verus! {

// ─── What is told ───

/// Dropping trailing zeros keeps the value, and leaves none to drop.
pub proof fn law_normalized_keeps_the_value(a: Num)
    ensures
        num_eq(num_normalized(a), a),
        num_normalized(a).s == 0 || num_normalized(a).m % 10 != 0,
    decreases a.s,
{
    if a.m == 0 {
        assert(0 * pow10(a.s) == 0);
        assert(a.m * pow10(0) == 0) by (nonlinear_arith)
            requires
                a.m == 0,
        ;
    } else if a.s > 0 && a.m % 10 == 0 {
        let b = Num { m: a.m / 10, s: (a.s - 1) as nat };
        law_normalized_keeps_the_value(b);
        let n = num_normalized(b);
        let (p, q) = (pow10(b.s) as int, pow10(n.s) as int);
        assert(pow10(a.s) == 10 * p);
        let (nm, bm) = (n.m, b.m);
        assert(nm * (10 * p) == (10 * bm) * q) by (nonlinear_arith)
            requires
                nm * p == bm * q,
        ;
        assert(a.m == 10 * bm);
    }
}

/// Whether an optional text is that of an optional number, without trailing zeros.
pub open spec fn tells(text: Option<Seq<char>>, number: Option<Decimal>) -> bool {
    match number {
        Some(n) => text == Some(num_text(num_normalized(n@))),
        None => text is None,
    }
}

/// What a request says is what was submitted: the side reads back as the submission's, the
/// market, the quantity, the prices and the client's identifier are the submission's, and so
/// is whether it only reduces.
pub proof fn law_request_tells_the_submission(submission: OrderSubmission, request: OrderRequest)
    requires
        translated(submission) == Ok::<OrderRequest, GatewayFault>(request),
    ensures
        side_of(request.side) == Ok::<Side, GatewayFault>(submission.side),
        submission.side is Buy ==> request.side == "Buy"@,
        submission.side is Sell ==> request.side == "Sell"@,
        request.symbol == submission.market_id@,
        request.qty == num_text(num_normalized(submission.qty@)),
        tells(request.price, submission.price),
        tells(request.trigger_price, submission.trigger_price),
        request.order_link_id == submission.client_order_id@,
        request.reduce_only == submission.reduce_only,
        request.category == "linear"@,
        submission.order_type is Market || submission.order_type is StopMarket
            ==> request.order_type == "Market"@,
        submission.order_type is Limit || submission.order_type is StopLimit
            ==> request.order_type == "Limit"@,
        submission.post_only ==> request.time_in_force == "PostOnly"@,
        !submission.post_only && submission.time_in_force is GTC ==> request.time_in_force
            == "GTC"@,
        !submission.post_only && submission.time_in_force is IOC ==> request.time_in_force
            == "IOC"@,
        !submission.post_only && submission.time_in_force is FOK ==> request.time_in_force
            == "FOK"@,
{
    lemma_side_names_differ();
}

/// The requests of a buy and of a sell name different sides.
pub proof fn law_requests_tell_sides_apart(
    a: OrderSubmission,
    b: OrderSubmission,
    to: OrderRequest,
    and: OrderRequest,
)
    requires
        translated(a) == Ok::<OrderRequest, GatewayFault>(to),
        translated(b) == Ok::<OrderRequest, GatewayFault>(and),
    ensures
        to.side == and.side <==> a.side == b.side,
{
    lemma_side_names_differ();
}

/// There is a request for every submission but a trailing stop and, unless it is to be
/// posted only, one that is good until a date; those are not supported.
pub proof fn law_what_can_be_requested(submission: OrderSubmission)
    ensures
        translated(submission) is Err <==> submission.order_type is TrailingStop || (
        !submission.post_only && submission.time_in_force is GTD),
        translated(submission) matches Err(f) ==> f is Unsupported,
{
}

/// A submission is taken exactly where it is for the venue, of a supported kind, with a price
/// where the kind limits one and with a trigger price where the kind waits for one.
pub proof fn law_what_is_taken(venue: Seq<char>, submission: OrderSubmission)
    ensures
        submission_fault(venue, submission) is None <==> {
            &&& submission.venue_id@ == venue
            &&& !(submission.order_type is TrailingStop)
            &&& !(submission.time_in_force is GTD)
            &&& submission.order_type is Limit || submission.order_type is StopLimit
                ==> submission.price is Some
            &&& submission.order_type is StopMarket || submission.order_type is StopLimit
                ==> submission.trigger_price is Some
        },
        submission_fault(venue, submission) matches Some(f) ==> f is Validation
            || f is Unsupported,
        submission.venue_id@ == venue && submission.order_type is TrailingStop
            ==> submission_fault(venue, submission)->0 is Unsupported,
{
}

/// What becomes of a submission: one that is not taken is refused; one whose client
/// identifier is known is answered as before; a dry run is answered under a made-up name that
/// tells it; while the venue is not connected, or the private stream is in use and not ready,
/// it is refused; and only otherwise it is sent, as what it is.
pub proof fn law_what_becomes_of_a_submission(adapter: BybitAdapter, submission: OrderSubmission)
    ensures
        ({
            let decision = submit_decision(adapter, submission);
            let known = adapter.state.idempotency_cache@;
            let client = submission.client_order_id@;
            let taken = submission_fault(adapter.config.venue_id@, submission) is None;
            let reachable = adapter.connection_health.state is Connected && (
            adapter.config.enable_private_stream ==> adapter.private_stream_ready);
            &&& !taken ==> decision is Refuse
            &&& taken && known.contains_key(client) ==> decision == SubmitDecision::Repeat(
                known[client],
            )
            &&& taken && !known.contains_key(client) && submission.dry_run ==> decision
                == SubmitDecision::Pretend("bybit-dryrun-"@ + client)
            &&& taken && !known.contains_key(client) && !submission.dry_run && !reachable ==> (
            decision matches SubmitDecision::Refuse(f) && f is VenueNotConnected)
            &&& decision is Send <==> taken && !known.contains_key(client)
                && !submission.dry_run && reachable
            &&& decision matches SubmitDecision::Send(request) ==> translated(submission) == Ok::<
                OrderRequest,
                GatewayFault,
            >(request)
        }),
{
}

/// An acknowledgment is of the submission, under the identifier that the venue gave; once
/// recorded it is known by the client's identifier, and the market by the venue's. What was
/// known of other orders stays, and so does all else.
pub proof fn law_acknowledgment_is_recorded(
    before: BybitAdapter,
    after: BybitAdapter,
    submission: OrderSubmission,
    ack: VenueOrderAck,
    venue_order_id: Seq<char>,
    now: Timestamp,
    other: Seq<char>,
)
    requires
        acknowledges(ack, submission, venue_order_id, now),
        recorded(before, after, submission, ack),
    ensures
        ack.venue_order_id@ == venue_order_id,
        ack.client_order_id@ == submission.client_order_id@,
        ack.accepted_at == now,
        after.state.idempotency_cache@.contains_key(submission.client_order_id@),
        after.state.idempotency_cache@[submission.client_order_id@] == ack,
        after.state.venue_order_markets@.contains_key(venue_order_id),
        after.state.venue_order_markets@[venue_order_id]@ == submission.market_id@,
        other != submission.client_order_id@ ==> after.state.idempotency_cache@.contains_key(other)
            == before.state.idempotency_cache@.contains_key(other)
            && after.state.idempotency_cache@[other] == before.state.idempotency_cache@[other],
        other != venue_order_id ==> after.state.venue_order_markets@.contains_key(other)
            == before.state.venue_order_markets@.contains_key(other)
            && after.state.venue_order_markets@[other] == before.state.venue_order_markets@[other],
        after.config == before.config,
        after.capabilities == before.capabilities,
        after.connection_health == before.connection_health,
        after.private_stream_ready == before.private_stream_ready,
        after.state.latest_orderbooks == before.state.latest_orderbooks,
{
}

/// A book that is stored changes nothing but the books.
pub proof fn law_only_books_change(a: BybitAdapter, b: BybitAdapter)
    requires
        same_but_books(a, b),
    ensures
        a.config == b.config,
        a.capabilities == b.capabilities,
        a.connection_health == b.connection_health,
        a.private_stream_ready == b.private_stream_ready,
        a.state.idempotency_cache == b.state.idempotency_cache,
        a.state.venue_order_markets == b.state.venue_order_markets,
{
}

/// What the refusal of a submission says.
pub proof fn law_refused_submissions_say_why(venue: Seq<char>, submission: OrderSubmission)
    requires
        submission_fault(venue, submission) is Some,
    ensures
        ({
            let fault = submission_fault(venue, submission)->0;
            let here = submission.venue_id@ == venue;
            let supported = here && !(submission.order_type is TrailingStop);
            let dateless = supported && !(submission.time_in_force is GTD);
            let limited = submission.order_type is Limit || submission.order_type is StopLimit;
            &&& !here ==> fault == GatewayFault::Validation(
                "bybit adapter "@ + venue + " cannot accept order for venue "@
                    + submission.venue_id@,
            )
            &&& here && !supported ==> fault == GatewayFault::Unsupported(
                "bybit adapter does not support order type "@ + "trailing_stop"@,
            )
            &&& supported && !dateless ==> fault == GatewayFault::Unsupported(
                "bybit adapter does not support GTD orders"@,
            )
            &&& dateless && limited && submission.price is None ==> fault
                == GatewayFault::Validation("limit-style bybit orders require price"@)
            &&& dateless && !(limited && submission.price is None) ==> fault
                == GatewayFault::Validation("conditional bybit orders require trigger_price"@)
        }),
        translated(submission) matches Err(f) ==> f == (if submission.order_type is TrailingStop {
            GatewayFault::Unsupported(
                "bybit adapter does not support order type "@ + "trailing_stop"@,
            )
        } else {
            GatewayFault::Unsupported("bybit adapter does not support GTD orders"@)
        }),
{
}

/// What cannot be read is told with what it says.
pub proof fn law_unreadable_texts_are_told(text: Seq<char>, size: Num, millis: i64, why: Seq<char>)
    ensures
        side_of(text) matches Err(f) ==> f == GatewayFault::Validation(
            "unknown bybit side "@ + text,
        ),
        signed_size(text, size) matches Err(f) ==> f == GatewayFault::Validation(
            "unknown bybit position side "@ + text,
        ),
        time_of_millis(millis) matches Err(f) ==> f == GatewayFault::Validation(
            "invalid millisecond timestamp "@ + int_text(millis as int),
        ),
        decimal_parsed(text) == Err::<(int, nat), Seq<char>>(why) ==> parsed_decimal(text) == Err::<
            Num,
            GatewayFault,
        >(GatewayFault::Validation("invalid bybit decimal "@ + text + ": "@ + why)),
        decimal_parsed(text) matches Ok((m, s)) ==> parsed_decimal(text) == Ok::<
            Num,
            GatewayFault,
        >(num(m, s)),
        gateway_fault(RestFault::DuplicateClientOrderId) == (GatewayFault::VenueRejected {
            reason: "duplicate client order id rejected by bybit"@,
        }),
        gateway_fault(RestFault::OrderNotFound) == GatewayFault::OrderNotFound("bybit order"@),
{
}

// ─── What is read ───

/// The exchange's names for the sides are two.
proof fn lemma_side_names_differ()
    ensures
        "Buy"@ != "Sell"@,
        "Buy"@ != ""@,
        "Sell"@ != ""@,
{
    reveal_strlit("Buy");
    reveal_strlit("Sell");
    reveal_strlit("");
    assert("Buy"@.len() == 3);
    assert("Sell"@.len() == 4);
    assert(""@.len() == 0);
}

/// A side is read from its own name alone; any other text is refused.
pub proof fn law_side_is_read(text: Seq<char>)
    ensures
        side_of(text) == Ok::<Side, GatewayFault>(Side::Buy) <==> text == "Buy"@,
        side_of(text) == Ok::<Side, GatewayFault>(Side::Sell) <==> text == "Sell"@,
        side_of(text) matches Err(f) ==> f is Validation,
{
    lemma_side_names_differ();
}

/// A position is long as bought and short as sold: its units are those of its size, with the
/// other sign for a sell. Without a side there is none.
pub proof fn law_position_has_the_sign_of_its_side(side: Seq<char>, size: Num)
    ensures
        side == "Buy"@ ==> (signed_size(side, size) matches Ok(n) && units(n) == units(size)),
        side == "Sell"@ ==> (signed_size(side, size) matches Ok(n) && units(n) == -units(size)),
        side == ""@ ==> (signed_size(side, size) matches Ok(n) && n.m == 0),
        side != "Buy"@ && side != "Sell"@ && side != ""@ ==> (signed_size(
            side,
            size,
        ) matches Err(f) && f is Validation),
{
    lemma_side_names_differ();
    lemma_units_of_signed(size);
}

/// An order's state is told by the exchange's name for it; a name that is not known is taken
/// for one that is on its way.
pub proof fn law_order_state_is_read(status: Seq<char>)
    ensures
        order_state_of(status) is Accepted <==> status == "New"@ || status == "Untriggered"@,
        order_state_of(status) is PartiallyFilled <==> status == "PartiallyFilled"@,
        order_state_of(status) is Filled <==> status == "Filled"@,
        order_state_of(status) is Cancelled <==> status == "Cancelled"@ || status
            == "PartiallyFilledCanceled"@ || status == "Deactivated"@,
        order_state_of(status) is Rejected <==> status == "Rejected"@,
        order_state_of(status) is Submitted <==> status != "New"@ && status != "Untriggered"@
            && status != "PartiallyFilled"@ && status != "Filled"@ && status != "Cancelled"@
            && status != "PartiallyFilledCanceled"@ && status != "Deactivated"@ && status
            != "Rejected"@,
{
    reveal_strlit("New");
    reveal_strlit("Untriggered");
    reveal_strlit("PartiallyFilled");
    reveal_strlit("Filled");
    reveal_strlit("Cancelled");
    reveal_strlit("PartiallyFilledCanceled");
    reveal_strlit("Deactivated");
    reveal_strlit("Rejected");
    assert("New"@.len() == 3);
    assert("Untriggered"@.len() == 11 && "Untriggered"@[0] == 'U');
    assert("PartiallyFilled"@.len() == 15);
    assert("Filled"@.len() == 6);
    assert("Cancelled"@.len() == 9);
    assert("PartiallyFilledCanceled"@.len() == 23);
    assert("Deactivated"@.len() == 11 && "Deactivated"@[0] == 'D');
    assert("Rejected"@.len() == 8);
}

/// A count of milliseconds is a time exactly within the calendar's range, and it is a
/// thousand times a thousand nanoseconds for each of them.
pub proof fn law_millis_are_read(value: i64)
    ensures
        time_of_millis(value) is Ok <==> MIN_UTC_MILLIS <= value <= MAX_UTC_MILLIS,
        time_of_millis(value) matches Ok(t) ==> t == value * 1_000_000,
        time_of_millis(value) matches Err(f) ==> f is Validation,
{
}

/// A fill says what its execution reports: the side by its name, the quantity, the price, the
/// fee, the time, and whose order it is of.
pub proof fn law_fill_reports_its_execution(fill: VenueFill, e: BybitExecutionRecord)
    requires
        is_fill_of(fill, e),
    ensures
        e.side@ == "Buy"@ <==> fill.side is Buy,
        e.side@ == "Sell"@ <==> fill.side is Sell,
        fill.qty@ == e.exec_qty@,
        fill.price@ == e.exec_price@,
        fill.fee@ == e.exec_fee@,
        fill.is_maker == e.is_maker,
        fill.filled_at@ == e.exec_time * 1_000_000,
        fill.venue_order_id@ == e.order_id@,
        fill.client_order_id@ == e.order_link_id@,
        fill.instrument_id@ == e.symbol@,
{
    lemma_side_names_differ();
}

/// The executions that become fills are those with a quantity, in order.
pub proof fn law_fills_are_of_real_executions(records: Seq<BybitExecutionRecord>)
    ensures
        real_executions(records) == records.filter(|e: BybitExecutionRecord| e.exec_qty@.m != 0),
    decreases records.len(),
{
    reveal(Seq::filter);
    if records.len() > 0 {
        law_fills_are_of_real_executions(records.drop_last());
    }
}

/// The positions that are reported are those with a size, in order.
pub proof fn law_positions_are_real(records: Seq<BybitPositionRecord>)
    ensures
        real_positions(records) == records.filter(|r: BybitPositionRecord| r.size@.m != 0),
    decreases records.len(),
{
    reveal(Seq::filter);
    if records.len() > 0 {
        law_positions_are_real(records.drop_last());
    }
}

/// A position says what its record reports.
pub proof fn law_position_reports_its_record(p: VenuePosition, r: BybitPositionRecord)
    requires
        is_position_of(p, r),
    ensures
        p.instrument_id@ == r.symbol@,
        r.side@ == "Buy"@ ==> units(p.qty@) == units(r.size@),
        r.side@ == "Sell"@ ==> units(p.qty@) == -units(r.size@),
        p.avg_entry_price@ == r.avg_price@,
        p.unrealized_pnl@ == r.unrealised_pnl@,
        p.margin_used@ == r.position_value@,
{
    law_position_has_the_sign_of_its_side(r.side@, r.size@);
}

/// An open order says what its record reports: all of its quantity and what of it is filled,
/// its price, side and state.
pub proof fn law_open_order_reports_its_record(o: VenueOpenOrder, r: BybitOrderRecord)
    requires
        is_open_order_of(o, r),
    ensures
        o.venue_order_id@ == r.order_id@,
        o.client_order_id is Some <==> r.order_link_id is Some,
        o.client_order_id is Some ==> o.client_order_id->0@ == r.order_link_id->0@,
        o.instrument_id@ == r.symbol@,
        o.side is Buy <==> r.side@ == "Buy"@,
        o.side is Sell <==> r.side@ == "Sell"@,
        o.qty@ == r.qty@,
        o.filled_qty@ == r.cum_exec_qty@,
        o.price matches Some(price) && price@ == r.price@,
        o.state is Filled <==> r.order_status@ == "Filled"@,
        o.state is PartiallyFilled <==> r.order_status@ == "PartiallyFilled"@,
        o.created_at@ == r.created_time * 1_000_000,
{
    lemma_side_names_differ();
    law_order_state_is_read(r.order_status@);
}

/// The levels of a book are read in order, the price from the first text of each and the
/// quantity from the second; all are read exactly where each text is a number.
pub proof fn law_levels_are_read(texts: Seq<(String, String)>)
    ensures
        parsed_levels(texts) is Ok <==> forall|i: int|
            0 <= i < texts.len() ==> decimal_parsed((#[trigger] texts[i]).0@) is Ok
                && decimal_parsed(texts[i].1@) is Ok,
        parsed_levels(texts) matches Ok(levels) ==> {
            &&& levels.len() == texts.len()
            &&& forall|i: int|
                0 <= i < levels.len() ==> {
                    let (pm, ps) = decimal_parsed(texts[i].0@)->Ok_0;
                    let (qm, qs) = decimal_parsed(texts[i].1@)->Ok_0;
                    (#[trigger] levels[i]).price == num(pm, ps) && levels[i].qty == num(qm, qs)
                }
        },
    decreases texts.len(),
{
    if texts.len() > 0 {
        let rest = texts.drop_last();
        law_levels_are_read(rest);
        let n = texts.len() - 1;
        assert(forall|i: int| 0 <= i < n ==> rest[i] == texts[i]);
        assert(texts.last() == texts[n]);
        if parsed_levels(rest) is Ok {
            assert forall|i: int| 0 <= i < n implies decimal_parsed((#[trigger] texts[i]).0@) is Ok
                && decimal_parsed(texts[i].1@) is Ok by {
                assert(rest[i] == texts[i]);
            }
            if parsed_levels(texts) is Ok {
                let (before, levels) = (parsed_levels(rest)->Ok_0, parsed_levels(texts)->Ok_0);
                assert(levels == before.push(parsed_level(texts[n])->Ok_0));
                assert forall|i: int| 0 <= i < levels.len() implies ({
                    let (pm, ps) = decimal_parsed(texts[i].0@)->Ok_0;
                    let (qm, qs) = decimal_parsed(texts[i].1@)->Ok_0;
                    (#[trigger] levels[i]).price == num(pm, ps) && levels[i].qty == num(qm, qs)
                }) by {
                    if i < n {
                        assert(levels[i] == before[i]);
                        assert(rest[i] == texts[i]);
                    }
                }
            }
        } else {
            let i = choose|i: int|
                0 <= i < rest.len() && !(decimal_parsed((#[trigger] rest[i]).0@) is Ok
                    && decimal_parsed(rest[i].1@) is Ok);
            assert(texts[i] == rest[i]);
        }
    }
}

/// A stored book holds the bids of the message as bids and its asks as asks.
pub proof fn law_book_is_the_messages(
    book: OrderbookSnapshot,
    data: BybitOrderbookData,
    venue_id: VenueId,
    now: Timestamp,
    i: int,
)
    requires
        is_book_of(book, data, venue_id, now),
    ensures
        book.venue_id == venue_id,
        book.market_id@ == data.symbol@,
        book.instrument_id@ == data.symbol@,
        book.observed_at@ == data.ts * 1_000_000,
        book.received_at == now,
        book.bids@.len() == data.bids@.len(),
        book.asks@.len() == data.asks@.len(),
        0 <= i < book.bids@.len() ==> {
            let (pm, ps) = decimal_parsed(data.bids@[i].0@)->Ok_0;
            let (qm, qs) = decimal_parsed(data.bids@[i].1@)->Ok_0;
            book.bids@[i].price@ == num(pm, ps) && book.bids@[i].qty@ == num(qm, qs)
        },
        0 <= i < book.asks@.len() ==> {
            let (pm, ps) = decimal_parsed(data.asks@[i].0@)->Ok_0;
            let (qm, qs) = decimal_parsed(data.asks@[i].1@)->Ok_0;
            book.asks@[i].price@ == num(pm, ps) && book.asks@[i].qty@ == num(qm, qs)
        },
{
    law_levels_are_read(data.bids@);
    law_levels_are_read(data.asks@);
    let (bids, asks) = (parsed_levels(data.bids@)->Ok_0, parsed_levels(data.asks@)->Ok_0);
    assert(0 <= i < bids.len() ==> bids[i].price == book.bids@[i].price@ && bids[i].qty
        == book.bids@[i].qty@);
    assert(0 <= i < asks.len() ==> asks[i].price == book.asks@[i].price@ && asks[i].qty
        == book.asks@[i].qty@);
}

/// What the exchange's error codes mean.
pub proof fn law_error_codes(code: i32, message: Seq<char>)
    ensures
        classified(code, message) is DuplicateClientOrderId <==> code == 10014 || code == 110072
            || (code != 10001 && code != 110001 && code != 110003 && code != 10006 && occurs(
            lowered(message),
            "duplicate"@,
        )),
        classified(code, message) is OrderNotFound <==> code == 110001,
        classified(code, message) is Validation <==> code == 10001 || code == 110003,
        !(classified(code, message) is Transport),
{
}

/// A failed request stays what it is for the gateway; that the client identifier is taken
/// is a refusal by the venue.
pub proof fn law_request_faults_are_kept(f: RestFault)
    ensures
        gateway_fault(f) is VenueRejected <==> f is DuplicateClientOrderId || f is VenueRejected,
        gateway_fault(f) is OrderNotFound <==> f is OrderNotFound,
        gateway_fault(f) is Validation <==> f is Validation,
        gateway_fault(f) is Internal <==> f is Transport,
        f matches RestFault::Validation(why) ==> gateway_fault(f) == GatewayFault::Validation(why),
        f matches RestFault::VenueRejected(why) ==> gateway_fault(f)
            == (GatewayFault::VenueRejected { reason: why }),
        f matches RestFault::Transport(why) ==> gateway_fault(f) == GatewayFault::Internal(why),
{
}

/// A control message authenticates or subscribes exactly where it answers that request with
/// success; a refusal of either is an error, and all else is passed over.
pub proof fn law_control_messages(control: BybitWsControlEnvelope)
    ensures
        ({
            let meaning = control_meaning(control);
            let answers_auth = control.op is Some && control.op->0@ == "auth"@;
            let answers_subscribe = control.op is Some && control.op->0@ == "subscribe"@;
            &&& meaning == Ok::<PrivateStreamControl, GatewayFault>(
                PrivateStreamControl::Authenticated,
            ) <==> answers_auth && control.success == Some(true)
            &&& meaning == Ok::<PrivateStreamControl, GatewayFault>(
                PrivateStreamControl::Subscribed,
            ) <==> answers_subscribe && control.success == Some(true)
            &&& meaning is Err <==> (answers_auth || answers_subscribe) && control.success
                == Some(false)
            &&& meaning matches Err(f) ==> f is VenueRejected
        }),
{
    reveal_strlit("auth");
    reveal_strlit("subscribe");
    assert("auth"@.len() != "subscribe"@.len());
}

/// An execution and a reported order are read exactly where they name a side and their time
/// is in the calendar's range.
pub proof fn law_what_can_be_read(e: BybitExecutionRecord, o: BybitOrderRecord)
    ensures
        execution_fault(e) is None <==> (e.side@ == "Buy"@ || e.side@ == "Sell"@)
            && MIN_UTC_MILLIS <= e.exec_time <= MAX_UTC_MILLIS,
        order_fault(o) is None <==> (o.side@ == "Buy"@ || o.side@ == "Sell"@) && MIN_UTC_MILLIS
            <= o.created_time <= MAX_UTC_MILLIS,
{
    law_side_is_read(e.side@);
    law_side_is_read(o.side@);
}

/// Executions become fills exactly where each of them can be read; else the first that cannot
/// is what is wrong.
pub proof fn law_executions_are_read(records: Seq<BybitExecutionRecord>)
    ensures
        first_execution_fault(records) is None <==> forall|i: int|
            0 <= i < records.len() ==> execution_fault(#[trigger] records[i]) is None,
        forall|i: int|
            {
                &&& 0 <= i < records.len()
                &&& execution_fault(#[trigger] records[i]) is Some
                &&& forall|j: int| 0 <= j < i ==> execution_fault(#[trigger] records[j]) is None
            } ==> first_execution_fault(records) == execution_fault(records[i]),
    decreases records.len(),
{
    if records.len() > 0 {
        let (rest, n) = (records.drop_last(), records.len() - 1);
        law_executions_are_read(rest);
        assert(records.last() == records[n]);
        if first_execution_fault(rest) is None {
            assert forall|i: int| 0 <= i < n implies execution_fault(#[trigger] records[i])
                is None by {
                assert(execution_fault(rest[i]) is None);
            }
        } else {
            let i = choose|i: int|
                0 <= i < rest.len() && execution_fault(#[trigger] rest[i]) is Some;
            assert(execution_fault(records[i]) is Some);
        }
        assert forall|i: int|
            {
                &&& 0 <= i < records.len()
                &&& execution_fault(#[trigger] records[i]) is Some
                &&& forall|j: int| 0 <= j < i ==> execution_fault(#[trigger] records[j]) is None
            } implies first_execution_fault(records) == execution_fault(records[i]) by {
            if i < n {
                assert(rest[i] == records[i]);
                assert forall|j: int| 0 <= j < i implies execution_fault(#[trigger] rest[j])
                    is None by {
                    assert(rest[j] == records[j]);
                }
                assert(execution_fault(rest[i]) is Some);
            } else if first_execution_fault(rest) is Some {
                let j = choose|j: int|
                    0 <= j < rest.len() && execution_fault(#[trigger] rest[j]) is Some;
                assert(execution_fault(records[j]) is Some);
            }
        }
    }
}

/// Positions are read exactly where each of them has a side that is known, or none.
pub proof fn law_positions_are_read(records: Seq<BybitPositionRecord>)
    ensures
        first_position_fault(records) is None <==> forall|i: int|
            0 <= i < records.len() ==> (#[trigger] records[i]).side@ == "Buy"@ || records[i].side@
                == "Sell"@ || records[i].side@ == ""@,
    decreases records.len(),
{
    if records.len() > 0 {
        let (rest, n) = (records.drop_last(), records.len() - 1);
        law_positions_are_read(rest);
        law_position_has_the_sign_of_its_side(records[n].side@, records[n].size@);
        if first_position_fault(rest) is None {
            assert forall|i: int| 0 <= i < n implies (#[trigger] records[i]).side@ == "Buy"@
                || records[i].side@ == "Sell"@ || records[i].side@ == ""@ by {
                assert(rest[i] == records[i]);
            }
        } else {
            let i = choose|i: int|
                0 <= i < rest.len() && !((#[trigger] rest[i]).side@ == "Buy"@ || rest[i].side@
                    == "Sell"@ || rest[i].side@ == ""@);
            assert(records[i] == rest[i]);
        }
    }
}

/// The first order that cannot be read is the one before which all can; where all can, there
/// is none.
pub proof fn law_first_faulty_order(records: Seq<BybitOrderRecord>, from: int)
    requires
        0 <= from <= records.len(),
    ensures
        from <= faulty_at(records, from) <= records.len(),
        forall|j: int|
            from <= j < faulty_at(records, from) ==> order_fault(#[trigger] records[j]) is None,
        faulty_at(records, from) < records.len() ==> order_fault(
            records[faulty_at(records, from)],
        ) is Some,
    decreases records.len() - from,
{
    if from < records.len() && order_fault(records[from]) is None {
        law_first_faulty_order(records, from + 1);
    }
}

/// A book message is read exactly where all of its levels are numbers and its time is in the
/// calendar's range.
pub proof fn law_what_book_is_read(data: BybitOrderbookData)
    ensures
        book_data_fault(data) is None <==> {
            &&& parsed_levels(data.bids@) is Ok
            &&& parsed_levels(data.asks@) is Ok
            &&& MIN_UTC_MILLIS <= data.ts <= MAX_UTC_MILLIS
        },
{
}

/// The market of a venue order is that of the first open order with its identifier.
pub proof fn law_market_is_of_the_first_order(
    orders: Seq<VenueOpenOrder>,
    id: Seq<char>,
    from: int,
    i: int,
)
    requires
        0 <= from <= i < orders.len(),
        orders[i].venue_order_id@ == id,
        forall|j: int| from <= j < i ==> (#[trigger] orders[j]).venue_order_id@ != id,
    ensures
        open_market(orders, id, from) == Some(orders[i].instrument_id@),
    decreases i - from,
{
    if from < i {
        assert(orders[from].venue_order_id@ != id);
        law_market_is_of_the_first_order(orders, id, from + 1, i);
    }
}

/// A venue order that is not among the open ones has no market there.
pub proof fn law_market_of_no_order(orders: Seq<VenueOpenOrder>, id: Seq<char>, from: int)
    requires
        0 <= from <= orders.len(),
        forall|j: int| from <= j < orders.len() ==> (#[trigger] orders[j]).venue_order_id@ != id,
    ensures
        open_market(orders, id, from) is None,
    decreases orders.len() - from,
{
    if from < orders.len() {
        law_market_of_no_order(orders, id, from + 1);
    }
}

/// Reported orders make their markets known: each identifier has the market of the last
/// record that reports it, and the others keep theirs.
pub proof fn law_order_markets_are_known(
    markets: Map<Seq<char>, MarketId>,
    records: Seq<BybitOrderRecord>,
    id: Seq<char>,
)
    ensures
        ({
            let after = with_order_markets(markets, records);
            &&& (forall|i: int|
                0 <= i < records.len() ==> (#[trigger] records[i]).order_id@ != id) ==> {
                &&& after.contains_key(id) == markets.contains_key(id)
                &&& after[id] == markets[id]
            }
            &&& forall|i: int|
                {
                    &&& 0 <= i < records.len()
                    &&& (#[trigger] records[i]).order_id@ == id
                    &&& forall|j: int|
                        i < j < records.len() ==> (#[trigger] records[j]).order_id@ != id
                } ==> after.contains_key(id) && after[id]@ == records[i].symbol@
        }),
    decreases records.len(),
{
    if records.len() > 0 {
        let (rest, n) = (records.drop_last(), records.len() - 1);
        law_order_markets_are_known(markets, rest, id);
        assert(forall|i: int| 0 <= i < n ==> #[trigger] rest[i] == records[i]);
        if forall|i: int| 0 <= i < records.len() ==> (#[trigger] records[i]).order_id@ != id {
            assert(records[n].order_id@ != id);
        }
        assert forall|i: int|
            {
                &&& 0 <= i < records.len()
                &&& (#[trigger] records[i]).order_id@ == id
                &&& forall|j: int| i < j < records.len() ==> (#[trigger] records[j]).order_id@ != id
            } implies with_order_markets(markets, records).contains_key(id) && with_order_markets(
            markets,
            records,
        )[id]@ == records[i].symbol@ by {
            if i < n {
                assert(records[n].order_id@ != id);
                assert(rest[i].order_id@ == id);
                assert forall|j: int| i < j < rest.len() implies (#[trigger] rest[j]).order_id@
                    != id by {
                    assert(rest[j] == records[j]);
                }
            }
        }
    }
}

/// Executions make their markets known in the same way.
pub proof fn law_fill_markets_are_known(
    markets: Map<Seq<char>, MarketId>,
    records: Seq<BybitExecutionRecord>,
    id: Seq<char>,
)
    ensures
        ({
            let after = with_fill_markets(markets, records);
            &&& (forall|i: int|
                0 <= i < records.len() ==> (#[trigger] records[i]).order_id@ != id) ==> {
                &&& after.contains_key(id) == markets.contains_key(id)
                &&& after[id] == markets[id]
            }
            &&& forall|i: int|
                {
                    &&& 0 <= i < records.len()
                    &&& (#[trigger] records[i]).order_id@ == id
                    &&& forall|j: int|
                        i < j < records.len() ==> (#[trigger] records[j]).order_id@ != id
                } ==> after.contains_key(id) && after[id]@ == records[i].symbol@
        }),
    decreases records.len(),
{
    if records.len() > 0 {
        let (rest, n) = (records.drop_last(), records.len() - 1);
        law_fill_markets_are_known(markets, rest, id);
        assert(forall|i: int| 0 <= i < n ==> #[trigger] rest[i] == records[i]);
        if forall|i: int| 0 <= i < records.len() ==> (#[trigger] records[i]).order_id@ != id {
            assert(records[n].order_id@ != id);
        }
        assert forall|i: int|
            {
                &&& 0 <= i < records.len()
                &&& (#[trigger] records[i]).order_id@ == id
                &&& forall|j: int| i < j < records.len() ==> (#[trigger] records[j]).order_id@ != id
            } implies with_fill_markets(markets, records).contains_key(id) && with_fill_markets(
            markets,
            records,
        )[id]@ == records[i].symbol@ by {
            if i < n {
                assert(records[n].order_id@ != id);
                assert(rest[i].order_id@ == id);
                assert forall|j: int| i < j < rest.len() implies (#[trigger] rest[j]).order_id@
                    != id by {
                    assert(rest[j] == records[j]);
                }
            }
        }
    }
}

// ─── Texts ───

/// A query is its parameters in order, with an ampersand between any two parts of it, and
/// each of them a name, an equals sign and a value.
pub proof fn law_query_is_joined(a: Seq<(&str, String)>, b: Seq<(&str, String)>)
    requires
        a.len() > 0,
        b.len() > 0,
    ensures
        query_text(a + b) == query_text(a) + "&"@ + query_text(b),
        a.len() == 1 ==> query_text(a) == a[0].0@ + "="@ + a[0].1@,
    decreases b.len(),
{
    let all = a + b;
    assert(all.last() == b.last());
    let last = b.last().0@ + "="@ + b.last().1@;
    if b.len() == 1 {
        assert(all.drop_last() =~= a);
        assert(query_text(b) == last);
    } else {
        law_query_is_joined(a, b.drop_last());
        assert(all.drop_last() =~= a + b.drop_last());
        assert(query_text(all) =~= query_text(a) + "&"@ + query_text(b));
    }
}

/// There is one book topic for each market, in order, and it ends in the market's name.
pub proof fn law_book_topics(markets: Seq<MarketId>, i: int)
    requires
        0 <= i < markets.len(),
    ensures
        book_topics(markets).len() == markets.len(),
        book_topics(markets)[i] == "orderbook.1."@ + markets[i]@,
{
}

/// Credentials expire by the window after the current millisecond.
pub proof fn law_expiry(now: int, window: u64)
    ensures
        (expiry_millis(now, window) - window) * 1_000_000 <= now < (expiry_millis(now, window)
            - window + 1) * 1_000_000,
{
}

// ─── Streams ───

/// Whether an event ends a connection, whatever the session waits for.
pub open spec fn breaks_off(event: StreamEvent) -> bool {
    event is SendFailed || event is Closed || event is ReadFailed
}

/// A connection that breaks off is given up, in every phase but between connections: the
/// session rests as long as it was to rest, and the next rest is twice as long, up to half a
/// minute.
pub proof fn law_broken_connections_are_given_up(s: StreamSession, event: StreamEvent)
    requires
        !(s.phase is Resting),
        breaks_off(event),
        s.backoff <= 30,
    ensures
        session_step(s, event).0.phase is Resting,
        session_step(s, event).1 == StreamAction::Rest(s.backoff),
        2 * s.backoff <= 30 ==> session_step(s, event).0.backoff == 2 * s.backoff,
        2 * s.backoff > 30 ==> session_step(s, event).0.backoff == 30,
        session_step(s, event).0.kind == s.kind,
        session_step(s, event).0.ready == s.ready,
{
}

/// The way of a private stream: it connects, sends its credentials, subscribes once they are
/// confirmed, and is live, ready and patient again once the subscription is.
pub proof fn law_private_stream_way(s: StreamSession)
    requires
        s.kind is Private,
    ensures
        s.phase is Resting ==> session_step(s, StreamEvent::Rested).1 is Connect && session_step(
            s,
            StreamEvent::Rested,
        ).0.phase is Connecting,
        s.phase is Connecting ==> session_step(s, StreamEvent::Connected).1 is SendCredentials
            && session_step(s, StreamEvent::Connected).0.phase is Authenticating,
        s.phase is Authenticating ==> session_step(s, StreamEvent::Sent).1 is Receive
            && session_step(s, StreamEvent::Sent).0.phase is Handshaking,
        s.phase is Handshaking ==> session_step(
            s,
            StreamEvent::Text(PrivateStreamControl::Authenticated),
        ).1 is SendSubscription && session_step(
            s,
            StreamEvent::Text(PrivateStreamControl::Authenticated),
        ).0.phase is Subscribing,
        s.phase is Subscribing ==> session_step(s, StreamEvent::Sent).1 is Receive
            && session_step(s, StreamEvent::Sent).0.phase is Handshaking,
        s.phase is Handshaking ==> {
            let (live, action) = session_step(
                s,
                StreamEvent::Text(PrivateStreamControl::Subscribed),
            );
            live.phase is Live && live.ready && live.backoff == 1 && action is Receive
        },
{
}

/// The way of a public stream: it connects, subscribes, and is live once that is sent.
pub proof fn law_public_stream_way(s: StreamSession)
    requires
        s.kind is Public,
    ensures
        s.phase is Resting ==> session_step(s, StreamEvent::Rested).1 is Connect,
        s.phase is Connecting ==> session_step(s, StreamEvent::Connected).1 is SendSubscription
            && session_step(s, StreamEvent::Connected).0.phase is Subscribing,
        s.phase is Subscribing ==> {
            let (live, action) = session_step(s, StreamEvent::Sent);
            live.phase is Live && live.backoff == 1 && action is Receive
        },
{
}

/// A session that waits for messages answers every ping, and while it is live it pings when
/// a heartbeat is due; neither changes it.
pub proof fn law_pings_are_answered(s: StreamSession)
    requires
        s.phase is Live || s.phase is Handshaking,
    ensures
        session_step(s, StreamEvent::PingReceived) == (s, StreamAction::SendPong),
        s.phase is Live ==> session_step(s, StreamEvent::HeartbeatDue) == (
            s,
            StreamAction::SendPing,
        ),
        s.phase is Live ==> session_step(s, StreamEvent::OtherReceived) == (
            s,
            StreamAction::Receive,
        ),
{
}

/// A session becomes live only by a step that confirms it, and stays live until the
/// connection breaks off.
pub proof fn law_live_until_broken(s: StreamSession, event: StreamEvent)
    ensures
        session_step(s, event).0.kind == s.kind,
        s.phase is Live ==> (session_step(s, event).0.phase is Live <==> !breaks_off(event)),
        !(s.phase is Live) && session_step(s, event).0.phase is Live ==> {
            ||| s.kind is Public && s.phase is Subscribing && event is Sent
            ||| s.phase is Handshaking && event == StreamEvent::Text(
                PrivateStreamControl::Subscribed,
            )
        },
        s.phase is Handshaking && event is TextFailed ==> session_step(s, event).0.phase is Resting,
        s.phase is Connecting && !(event is Connected) ==> session_step(s, event).0.phase is Resting,
{
}

} // verus!
