//! What the parts around trading promise: health, connections, configuration, the command
//! line, signing, and what errors say.

use crate::bybit::{rest_fault_text, RestFault};
use crate::cli::{asked_from, cli_fault_text, CliFault};
use crate::engine::{engine_fault_text, EngineFault};
use crate::gateway::{
    gateway_fault_text, instrument_of, side_text, venues_of, GatewayFault, Listing, Market,
    OrderSubmission,
};
use crate::health::{overall_of, policy_of, SubsystemHealth, SubsystemId};
use crate::ids::{client_order_text, sequence_text, SequenceId};
use crate::pipeline::{
    order_is_at_venue, order_is_over, order_state_text, order_type_text, venue_is_over, OrderState,
    OrderType, VenueState,
};
use crate::reconciliation::{divergences, ReconciliationReport};
use crate::settings::{
    closing_brace, expanded_from, is_configured, mode_of, mode_word, settings_fault,
    BootstrapConfig, FileSettings, Overrides,
};
use crate::signal::Side;
use crate::signing::signed_text;
use crate::smoke::{is_smoke_order, yes_or_no};
use crate::text::{digits, int_text, padded, parsed_number};
use crate::time::whole_seconds;
use crate::venue::VenueConnectionHealth;
use vstd::prelude::*;

verus! {

// ─── Health ───

/// All is healthy exactly where every subsystem is; it is degraded where one is not and no
/// venue connection has failed.
pub proof fn law_overall_health(subsystems: Seq<(SubsystemId, SubsystemHealth)>)
    ensures
        overall_of(subsystems) is Healthy <==> forall|i: int|
            0 <= i < subsystems.len() ==> (#[trigger] subsystems[i]).1 is Healthy,
        overall_of(subsystems) is Degraded <==> (exists|i: int|
            0 <= i < subsystems.len() && !((#[trigger] subsystems[i]).1 is Healthy)) && (forall|
            i: int,
        |
            0 <= i < subsystems.len() && (#[trigger] subsystems[i]).0 is VenueConnection
                ==> !(subsystems[i].1 is Failed)),
{
    crate::health::law_only_venue_failure_halts(subsystems);
}

/// What the failure of a subsystem asks for: a lost venue stops trading, lost prices stop new
/// orders, a lost bus or journal is bridged, and the rest is noted.
pub proof fn law_failure_policies(id: SubsystemId)
    ensures
        policy_of(id) is HaltTrading <==> id is VenueConnection,
        policy_of(id) is PauseNewOrders <==> id is PriceFeed,
        policy_of(id) is BufferAndContinue <==> id is MessageBus || id is EventJournal,
        policy_of(id) is LogAndContinue <==> id is Dashboard || id is Reconciler,
{
}

/// A venue takes orders exactly while it is connected; it is degraded while its heartbeat is
/// late or stale or it reconnects, and neither before it is connected.
pub proof fn law_connection(health: VenueConnectionHealth)
    ensures
        health.submittable() <==> health.state is Connected,
        health.degraded() <==> !(health.state is Connected) && !(health.state is Connecting)
            && !(health.state is Disconnected),
{
}

/// A report counts every divergent position and order and a divergent balance once.
pub proof fn law_divergences_are_counted(report: ReconciliationReport)
    ensures
        divergences(report) == 0 <==> report.position_divergences@.len() == 0
            && report.order_divergences@.len() == 0 && report.balance_divergence is None,
        divergences(report) == report.position_divergences@.len() + report.order_divergences@.len()
            + (if report.balance_divergence is Some {
            1int
        } else {
            0int
        }),
{
}

// ─── Order states ───

/// An order is over once it is filled, cancelled, rejected or expired; it is at the venue from
/// its submission until then, and neither while it is pending.
pub proof fn law_order_states(s: OrderState, v: VenueState)
    ensures
        order_is_over(s) <==> !(s is Pending) && !(s is Submitted) && !(s is Accepted) && !(
        s is PartiallyFilled),
        order_is_at_venue(s) <==> !(s is Pending) && !order_is_over(s),
        venue_is_over(v) <==> !(v is Submitted) && !(v is Accepted) && !(v is PartiallyFilled),
{
}

/// Order states, order types and sides have texts of their own.
pub proof fn law_names_tell_apart(a: OrderState, b: OrderState, s: OrderType, t: OrderType)
    ensures
        order_state_text(a) == order_state_text(b) <==> a == b,
        order_type_text(s) == order_type_text(t) <==> s == t,
        side_text(Side::Buy) != side_text(Side::Sell),
{
    reveal_strlit("pending");
    reveal_strlit("submitted");
    reveal_strlit("accepted");
    reveal_strlit("partially_filled");
    reveal_strlit("filled");
    reveal_strlit("cancelled");
    reveal_strlit("rejected");
    reveal_strlit("expired");
    assert("pending"@.len() == 7 && "pending"@[0] == 'p');
    assert("submitted"@.len() == 9 && "submitted"@[0] == 's');
    assert("accepted"@.len() == 8 && "accepted"@[0] == 'a');
    assert("partially_filled"@.len() == 16);
    assert("filled"@.len() == 6);
    assert("cancelled"@.len() == 9 && "cancelled"@[0] == 'c');
    assert("rejected"@.len() == 8 && "rejected"@[0] == 'r');
    assert("expired"@.len() == 7 && "expired"@[0] == 'e');
    reveal_strlit("market");
    reveal_strlit("limit");
    reveal_strlit("stop_market");
    reveal_strlit("stop_limit");
    reveal_strlit("trailing_stop");
    assert("market"@.len() == 6);
    assert("limit"@.len() == 5);
    assert("stop_market"@.len() == 11);
    assert("stop_limit"@.len() == 10);
    assert("trailing_stop"@.len() == 13);
    reveal_strlit("Buy");
    reveal_strlit("Sell");
    assert("Buy"@.len() != "Sell"@.len());
}

// ─── Listings ───

/// The markets of an instrument are those that are listed for it, in order.
pub proof fn law_markets_of_an_instrument(listings: Seq<Listing>, id: Seq<char>)
    ensures
        venues_of(listings, id) == listings.filter(|l: Listing| l.instrument == id).map_values(
            |l: Listing| l.market,
        ),
    decreases listings.len(),
{
    reveal(Seq::filter);
    if listings.len() > 0 {
        law_markets_of_an_instrument(listings.drop_last(), id);
        let all = listings.filter(|l: Listing| l.instrument == id);
        assert(venues_of(listings, id) =~= all.map_values(|l: Listing| l.market));
    } else {
        assert(venues_of(listings, id) =~= listings.filter(
            |l: Listing| l.instrument == id,
        ).map_values(|l: Listing| l.market));
    }
}

/// The instrument of a market is that of its last listing.
pub proof fn law_instrument_of_a_market(listings: Seq<Listing>, market: Market, i: int)
    requires
        0 <= i < listings.len(),
        listings[i].market == market,
        forall|j: int| i < j < listings.len() ==> (#[trigger] listings[j]).market != market,
    ensures
        instrument_of(listings, market) == Some(listings[i].instrument),
    decreases listings.len(),
{
    let (rest, n) = (listings.drop_last(), listings.len() - 1);
    if i < n {
        assert(listings[n].market != market);
        assert(rest[i] == listings[i]);
        assert forall|j: int| i < j < rest.len() implies (#[trigger] rest[j]).market != market by {
            assert(rest[j] == listings[j]);
        }
        law_instrument_of_a_market(rest, market, i);
    }
}

/// A market that is not listed stands for no instrument.
pub proof fn law_unlisted_market(listings: Seq<Listing>, market: Market)
    requires
        forall|i: int| 0 <= i < listings.len() ==> (#[trigger] listings[i]).market != market,
    ensures
        instrument_of(listings, market) is None,
    decreases listings.len(),
{
    if listings.len() > 0 {
        let rest = listings.drop_last();
        assert(listings[listings.len() - 1].market != market);
        assert forall|i: int| 0 <= i < rest.len() implies (#[trigger] rest[i]).market != market by {
            assert(rest[i] == listings[i]);
        }
        law_unlisted_market(rest, market);
    }
}

// ─── Command line and configuration ───

/// Arguments are taken exactly where they are pairs of the flag and a path; the last path
/// counts, and without one the path that was there before.
pub proof fn law_arguments(args: Seq<String>, at: int, found: Seq<char>)
    requires
        0 <= at <= args.len(),
    ensures
        asked_from(args, at, found) is Ok <==> (args.len() - at) % 2 == 0 && forall|i: int|
            at <= i < args.len() && (i - at) % 2 == 0 ==> (#[trigger] args[i])@ == "--config"@,
        asked_from(args, at, found) matches Ok(path) ==> path == (if args.len() == at {
            found
        } else {
            args.last()@
        }),
        asked_from(args, at, found) matches Err(f) ==> f is MissingConfigValue || exists|i: int|
            at <= i < args.len() && f == CliFault::UnknownArgument((#[trigger] args[i])@)
                && args[i]@ != "--config"@,
    decreases args.len() - at,
{
    if at < args.len() && args[at]@ == "--config"@ && at + 1 < args.len() {
        law_arguments(args, at + 2, args[at + 1]@);
        if asked_from(args, at, found) is Ok {
            assert forall|i: int| at <= i < args.len() && (i - at) % 2 == 0 implies (
            #[trigger] args[i])@ == "--config"@ by {
                if i > at {
                    assert(i >= at + 2);
                    assert((i - (at + 2)) % 2 == 0);
                }
            }
        }
        if (args.len() - at) % 2 == 0 && forall|i: int|
            at <= i < args.len() && (i - at) % 2 == 0 ==> (#[trigger] args[i])@ == "--config"@ {
            assert forall|i: int| at + 2 <= i < args.len() && (i - (at + 2)) % 2 == 0 implies (
            #[trigger] args[i])@ == "--config"@ by {
                assert((i - at) % 2 == 0);
            }
        }
    } else if at < args.len() {
        assert((at - at) % 2 == 0);
        assert(args[at]@ == args[at]@);
    }
}

/// What the refusals of the command line say.
pub proof fn law_argument_refusals(arg: Seq<char>)
    ensures
        cli_fault_text(CliFault::UnknownArgument(arg)) == "unknown argument: "@ + arg,
        cli_fault_text(CliFault::MissingConfigValue) == "missing value for --config"@,
{
}

/// The words for yes and for no.
pub proof fn law_yes_and_no(s: Seq<char>)
    ensures
        yes_or_no(s) == Some(true) <==> s == "1"@ || s == "true"@ || s == "TRUE"@ || s == "yes"@
            || s == "YES"@,
        yes_or_no(s) == Some(false) <==> s == "0"@ || s == "false"@ || s == "FALSE"@ || s == "no"@
            || s == "NO"@,
{
    reveal_strlit("1");
    reveal_strlit("0");
    reveal_strlit("true");
    reveal_strlit("TRUE");
    reveal_strlit("yes");
    reveal_strlit("YES");
    reveal_strlit("false");
    reveal_strlit("FALSE");
    reveal_strlit("no");
    reveal_strlit("NO");
    assert("1"@.len() == 1 && "1"@[0] == '1');
    assert("0"@.len() == 1 && "0"@[0] == '0');
    assert("true"@.len() == 4 && "TRUE"@.len() == 4);
    assert("yes"@.len() == 3 && "YES"@.len() == 3);
    assert("false"@.len() == 5 && "FALSE"@.len() == 5);
    assert("no"@.len() == 2 && "NO"@.len() == 2);
}

/// The words for the modes.
pub proof fn law_modes(word: Seq<char>)
    ensures
        mode_of(word) is Some <==> word == "live"@ || word == "paper"@ || word == "backtest"@,
        word == "live"@ ==> mode_of(word)->0 is Live,
        word == "paper"@ ==> mode_of(word)->0 is Paper,
        word == "backtest"@ ==> mode_of(word)->0 is Backtest,
{
    reveal_strlit("live");
    reveal_strlit("paper");
    reveal_strlit("backtest");
    assert("live"@.len() == 4 && "paper"@.len() == 5 && "backtest"@.len() == 8);
}

/// What is configured: the environment counts before the file, `FEYNMAN_MODE` before
/// `ENGINE_MODE`; only the file's texts are expanded.
pub proof fn law_configuration(
    c: BootstrapConfig,
    file: FileSettings,
    overrides: Overrides,
    variables: Map<Seq<char>, String>,
)
    requires
        is_configured(c, file, overrides, variables),
        settings_fault(file, overrides, variables) is None,
    ensures
        overrides.feynman_mode matches Some(word) ==> c.engine.mode == mode_of(word@)
            && c.engine.mode is Some,
        overrides.feynman_mode is None ==> (overrides.engine_mode matches Some(word)
            ==> c.engine.mode == mode_of(word@) && c.engine.mode is Some),
        overrides.feynman_mode is None && overrides.engine_mode is None ==> (
        file.mode matches Some(word) ==> c.engine.mode == mode_of(
            expanded_from(word@, 0, variables),
        ) && c.engine.mode is Some),
        overrides.feynman_mode is None && overrides.engine_mode is None && file.mode is None
            ==> c.engine.mode is None,
        overrides.dry_run matches Some(raw) ==> yes_or_no(raw@) == Some(c.engine.dry_run),
        overrides.dry_run is None && file.dry_run is Some ==> c.engine.dry_run
            == file.dry_run->0,
        overrides.dry_run is None && file.dry_run is None ==> c.engine.dry_run,
        overrides.grpc_port matches Some(raw) ==> parsed_number(raw@, 65535) == Some(
            c.engine.grpc_port as nat,
        ),
        overrides.grpc_port is None ==> c.engine.grpc_port == file.grpc_port,
        overrides.redis_url matches Some(url) ==> c.redis.url@ == url@,
        overrides.redis_url is None ==> c.redis.url@ == expanded_from(
            file.redis_url@,
            0,
            variables,
        ),
{
}

/// Settings are refused exactly where a word for the mode, for the dry run or for the port
/// means nothing.
pub proof fn law_refused_settings(
    file: FileSettings,
    overrides: Overrides,
    variables: Map<Seq<char>, String>,
)
    ensures
        settings_fault(file, overrides, variables) is Some <==> {
            ||| (mode_word(file, overrides, variables) matches Some(word) && mode_of(word) is None)
            ||| (overrides.dry_run matches Some(raw) && yes_or_no(raw@) is None)
            ||| (overrides.grpc_port matches Some(raw) && parsed_number(raw@, 65535) is None)
        },
        mode_word(file, overrides, variables) matches Some(word) ==> mode_of(word) is None
            ==> settings_fault(file, overrides, variables) == Some(
            "engine mode must be one of live/paper/backtest, got "@ + word,
        ),
{
}

/// A reference to a variable that is set is replaced by its value, one to a variable that is
/// not set stays; what stands before and after is expanded on its own.
pub proof fn law_reference_is_replaced(
    plain: Seq<char>,
    name: Seq<char>,
    rest: Seq<char>,
    variables: Map<Seq<char>, String>,
)
    requires
        !plain.contains('$'),
        !name.contains('}'),
    ensures
        ({
            let reference = seq!['$', '{'] + name + seq!['}'];
            let all = plain + reference + rest;
            expanded_from(all, 0, variables) == plain + (if variables.contains_key(name) {
                variables[name]@
            } else {
                reference
            }) + expanded_from(rest, 0, variables)
        }),
{
    let reference = seq!['$', '{'] + name + seq!['}'];
    let all = plain + reference + rest;
    let n = plain.len() as int;
    lemma_plain_beginning(all, 0, n, variables);
    let end = n + 2 + name.len();
    assert(all[n] == '$' && all[n + 1] == '{' && all[end] == '}');
    assert forall|i: int| n + 2 <= i < end implies all[i] != '}' by {
        assert(all[i] == name[i - n - 2]);
        assert(name.contains(name[i - n - 2]));
    }
    lemma_closing_brace_at(all, n + 2, end);
    assert(all.subrange(n + 2, end) =~= name);
    assert(all.subrange(n, end + 1) =~= reference);
    assert(all.skip(end + 1) =~= rest);
    lemma_expanded_tail(all, end + 1, rest, 0, variables);
    assert(all.subrange(0, n) =~= plain);
    assert(expanded_from(all, 0, variables) =~= plain + (if variables.contains_key(name) {
        variables[name]@
    } else {
        reference
    }) + expanded_from(rest, 0, variables));
}

/// A beginning without a dollar sign is what it is.
proof fn lemma_plain_beginning(
    s: Seq<char>,
    at: int,
    to: int,
    variables: Map<Seq<char>, String>,
)
    requires
        0 <= at <= to <= s.len(),
        !s.subrange(0, to).contains('$'),
    ensures
        expanded_from(s, at, variables) == s.subrange(at, to) + expanded_from(s, to, variables),
    decreases to - at,
{
    if at < to {
        assert(s.subrange(0, to)[at] == s[at]);
        assert(s.subrange(0, to).contains(s[at]));
        lemma_plain_beginning(s, at + 1, to, variables);
        assert(s.subrange(at, to) =~= seq![s[at]] + s.subrange(at + 1, to));
        assert(seq![s[at]] + (s.subrange(at + 1, to) + expanded_from(s, to, variables))
            =~= s.subrange(at, to) + expanded_from(s, to, variables));
    } else {
        assert(s.subrange(at, to) + expanded_from(s, to, variables) =~= expanded_from(
            s,
            to,
            variables,
        ));
    }
}

/// The first closing brace is the one before which there is none.
proof fn lemma_closing_brace_at(s: Seq<char>, from: int, end: int)
    requires
        0 <= from <= end < s.len(),
        s[end] == '}',
        forall|i: int| from <= i < end ==> s[i] != '}',
    ensures
        closing_brace(s, from) == end,
    decreases end - from,
{
    if from < end {
        lemma_closing_brace_at(s, from + 1, end);
    }
}

/// A tail is expanded as a text of its own.
proof fn lemma_expanded_tail(
    s: Seq<char>,
    from: int,
    rest: Seq<char>,
    at: int,
    variables: Map<Seq<char>, String>,
)
    requires
        0 <= from <= s.len(),
        rest == s.skip(from),
        0 <= at <= rest.len(),
    ensures
        expanded_from(s, from + at, variables) == expanded_from(rest, at, variables),
    decreases rest.len() - at,
{
    if at < rest.len() {
        assert(rest[at] == s[from + at]);
        if at + 1 < rest.len() {
            assert(rest[at + 1] == s[from + at + 1]);
        }
        if at + 1 < rest.len() && rest[at] == '$' && rest[at + 1] == '{' {
            lemma_closing_brace_shifted(s, from, rest, at + 2);
            let end = closing_brace(rest, at + 2);
            if end < rest.len() {
                assert(rest.subrange(at + 2, end) =~= s.subrange(from + at + 2, from + end));
                assert(rest.subrange(at, end + 1) =~= s.subrange(from + at, from + end + 1));
                lemma_expanded_tail(s, from, rest, end + 1, variables);
            } else {
                lemma_expanded_tail(s, from, rest, at + 1, variables);
            }
        } else {
            lemma_expanded_tail(s, from, rest, at + 1, variables);
        }
    }
}

/// The first closing brace of a tail is that of the text.
proof fn lemma_closing_brace_shifted(s: Seq<char>, from: int, rest: Seq<char>, at: int)
    requires
        0 <= from <= s.len(),
        rest == s.skip(from),
        0 <= at <= rest.len(),
    ensures
        closing_brace(s, from + at) == from + closing_brace(rest, at),
        at <= closing_brace(rest, at) <= rest.len(),
    decreases rest.len() - at,
{
    if at < rest.len() {
        assert(rest[at] == s[from + at]);
        lemma_closing_brace_shifted(s, from, rest, at + 1);
    }
}

// ─── Signing ───

/// What is signed for a request is the timestamp, the key, the window in milliseconds and the
/// payload, one after the other: each stands where the one before it ends.
pub proof fn law_what_is_signed(
    timestamp: Seq<char>,
    key: Seq<char>,
    window: u64,
    payload: Seq<char>,
)
    ensures
        ({
            let all = signed_text(timestamp, key, window, payload);
            let w = digits(window as nat);
            let (a, b) = (timestamp.len() as int, timestamp.len() as int + key.len());
            &&& all.len() == timestamp.len() + key.len() + w.len() + payload.len()
            &&& all.subrange(0, a) == timestamp
            &&& all.subrange(a, b) == key
            &&& all.subrange(b, b + w.len()) == w
            &&& all.skip(b + w.len()) == payload
        }),
{
    let all = signed_text(timestamp, key, window, payload);
    let w = digits(window as nat);
    let (a, b) = (timestamp.len() as int, timestamp.len() as int + key.len());
    assert(all.subrange(0, a) =~= timestamp);
    assert(all.subrange(a, b) =~= key);
    assert(all.subrange(b, b + w.len()) =~= w);
    assert(all.skip(b + w.len()) =~= payload);
}

/// The whole seconds of a span, either way, are those that fit into it.
pub proof fn law_whole_seconds(nanos: int)
    ensures
        nanos >= 0 ==> whole_seconds(nanos) * 1_000_000_000 <= nanos < (whole_seconds(nanos) + 1)
            * 1_000_000_000,
        whole_seconds(-nanos) == -whole_seconds(nanos),
{
}

/// An order of the run buys what it is asked for at the exchange, for real; as a limit order
/// that stays, where it has a price, and at the market at once, where it has none.
pub proof fn law_orders_of_the_run(
    o: OrderSubmission,
    market: Seq<char>,
    qty: crate::decimal::Decimal,
    suffix: Seq<char>,
    price: Option<crate::decimal::Num>,
)
    requires
        is_smoke_order(o, market, qty, suffix, price),
    ensures
        o.side is Buy,
        o.qty == qty,
        o.market_id@ == market,
        o.venue_id@ == "bybit"@,
        !o.dry_run,
        !o.reduce_only,
        !o.post_only,
        price is Some <==> o.price is Some,
        price is Some ==> o.price->0@ == price->0 && o.order_type is Limit
            && o.time_in_force is GTC,
        price is None ==> o.order_type is Market && o.time_in_force is IOC,
        o.client_order_id@ == "smoke-"@ + suffix,
{
}

// ─── Texts ───

/// A client order identifier is the agent, the milliseconds, the sequence in at least six
/// digits and the restart epoch in at least two after an r, with dashes between them.
pub proof fn law_client_order_text(agent: Seq<char>, millis: int, seq: nat, epoch: nat)
    ensures
        client_order_text(agent, millis, seq, epoch) == agent + seq!['-'] + int_text(millis)
            + seq!['-'] + padded(seq, 6) + seq!['-', 'r'] + padded(epoch, 2),
{
    assert(client_order_text(agent, millis, seq, epoch) =~= agent + seq!['-'] + int_text(millis)
        + seq!['-'] + padded(seq, 6) + seq!['-', 'r'] + padded(epoch, 2));
}

/// What a failed request, an error of the gateway and one of the engine say: what kind of
/// failure it is, and then the reason or the name that it is about.
pub proof fn law_errors_say_why(why: Seq<char>, id: Seq<char>)
    ensures
        rest_fault_text(RestFault::Validation(why)) == "validation failed: "@ + why,
        rest_fault_text(RestFault::VenueRejected(why)) == "venue rejected request: "@ + why,
        rest_fault_text(RestFault::Transport(why)) == why,
        gateway_fault_text((GatewayFault::VenueRejected { reason: why }))
            == "venue rejected order: "@ + why,
        gateway_fault_text(GatewayFault::Validation(why)) == "validation failed: "@ + why,
        gateway_fault_text(GatewayFault::Unsupported(why)) == "venue does not support: "@ + why,
        gateway_fault_text(GatewayFault::OrderNotFound(id)) == "order not found: "@ + id,
        gateway_fault_text((GatewayFault::PriceUnavailable { instrument_id: id }))
            == "price unavailable for instrument "@ + id,
        gateway_fault_text((GatewayFault::AgentAllocationNotFound { agent_id: id }))
            == "agent allocation not found for "@ + id,
        gateway_fault_text((GatewayFault::RoutingUnavailable { instrument_id: id, reason: why }))
            == "no route available for instrument "@ + id + ": "@ + why,
        gateway_fault_text((GatewayFault::VenueNotConnected { venue_id: id, state: why }))
            == "venue "@ + id + " is not connected (state: "@ + why + ")"@,
        gateway_fault_text(GatewayFault::Internal(why)) == why,
        engine_fault_text((EngineFault::RiskRejected { reason: why })) == "risk check failed: "@
            + why,
        engine_fault_text((EngineFault::AgentPaused { agent_id: id, reason: why })) == "agent "@
            + id + " is paused: "@ + why,
        engine_fault_text((EngineFault::EngineHalted { reason: why })) == "engine is halted: "@
            + why,
        engine_fault_text(EngineFault::AgentNotFound(id)) == "agent not found: "@ + id,
        engine_fault_text(EngineFault::OrderNotFound(id)) == "order not found: "@ + id,
        engine_fault_text(EngineFault::InvalidTransition(why)) == "invalid state transition: "@
            + why,
        engine_fault_text(EngineFault::Journal(why)) == "journal error: "@ + why,
        engine_fault_text(EngineFault::Reconciliation(why)) == "reconciliation error: "@ + why,
{
}

/// The text of a sequence number ends in its digits.
pub proof fn law_sequence_text(id: SequenceId)
    ensures
        sequence_text(id) == "seq:"@ + digits(id.0 as nat),
{
}

} // verus!
