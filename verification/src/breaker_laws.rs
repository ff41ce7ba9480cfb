//! What the circuit breakers are for, in numbers: when each of them stops an operation, and
//! what the bank makes of it.

use crate::circuit_breaker::{
    bank_fits, bank_verdict, cb10_verdict, cb11_verdict, cb1_fits, cb1_verdict, cb2_fits,
    cb2_verdict, cb3_fresh, cb4_fits, cb4_fresh, cb5_fits, cb5_fresh, cb6_verdict, cb7_verdict,
    cb8_fits, cb8_verdict, cb9_verdict, latches_after, projected_exposure, reset_outcome,
    Cb10DryRunBypass, Cb11SequencerQueueDepth, Cb1MaxSingleOrderNotional,
    Cb2MaxInstrumentPosition, Cb3MaxFirmGrossNotional, Cb4FirmDailyLoss, Cb5FirmHourlyLoss,
    Cb6FirmOrdersPerMinute, Cb7AgentOrdersPerMinute, Cb8VenueErrorRate, Cb9VenueDisconnected,
    CircuitBreaker, CircuitBreakerContext, Latches, ResetReason, Verdict,
};
use crate::decimal::{num, num_div, num_le, num_lt, num_mul, num_neg, num_text, num_text_to, Num};
use crate::pipeline::{OrderCore, PipelineOrder, Validated};
use crate::portfolio::InstrumentExposure;
use crate::risk::{instrument_at, projected};
use crate::text::digits;
use crate::time::NANOS_PER_SECOND;
use vstd::prelude::*;

verus! {

/// Whether a verdict is a rejection by a breaker.
pub open spec fn rejects(v: Verdict, id: Seq<char>) -> bool {
    v matches Verdict::Reject { breaker, .. } && breaker == id
}

/// Whether a verdict is a halt by a breaker.
pub open spec fn halts(v: Verdict, id: Seq<char>) -> bool {
    v matches Verdict::HaltAll { breaker, .. } && breaker == id
}

/// CB-1 passes an order of either side exactly where it has no positive price, or its
/// quantity times its price is at most the single order cap; else it rejects it.
pub proof fn law_single_order_cap(
    ctx: CircuitBreakerContext<'_>,
    order: PipelineOrder<Validated>,
    core: OrderCore,
)
    requires
        ctx.order == Some(&order),
        order.order() == core,
    ensures
        core.price is None ==> cb1_verdict(ctx) is Pass,
        core.price matches Some(p) ==> p@.m <= 0 ==> cb1_verdict(ctx) is Pass,
        core.price matches Some(p) ==> p@.m > 0 ==> forall|notional: Num|
            num_mul(core.qty@, p@) == Some(notional) ==> {
                &&& cb1_verdict(ctx) is Pass <==> #[trigger] num_le(
                    notional,
                    ctx.config.max_single_order_notional@,
                )
                &&& cb1_verdict(ctx) is Pass || rejects(cb1_verdict(ctx), "CB-1"@)
            },
{
}

/// A new order whose quantity times price exceeds the single order cap never passes the bank,
/// whatever its side.
pub proof fn law_bank_keeps_the_single_order_cap(
    latches: Latches,
    ctx: CircuitBreakerContext<'_>,
    now: int,
    order: PipelineOrder<Validated>,
    core: OrderCore,
    notional: Num,
)
    requires
        ctx.operation_kind is NewOrder,
        ctx.order == Some(&order),
        order.order() == core,
        core.price matches Some(p) && p@.m > 0 && num_mul(core.qty@, p@) == Some(notional),
        num_lt(ctx.config.max_single_order_notional@, notional),
    ensures
        !(bank_verdict(latches, ctx, now) is Pass),
{
}

/// The first exposure in an instrument is the one before which there is none in it.
pub proof fn law_first_exposure(s: Seq<InstrumentExposure>, id: Seq<char>, from: int)
    requires
        0 <= from <= s.len(),
    ensures
        match instrument_at(s, id, from) {
            Some(i) => {
                &&& from <= i < s.len()
                &&& s[i].instrument@ == id
                &&& forall|j: int| from <= j < i ==> (#[trigger] s[j]).instrument@ != id
            },
            None => forall|j: int| from <= j < s.len() ==> (#[trigger] s[j]).instrument@ != id,
        },
    decreases s.len() - from,
{
    if from < s.len() && s[from].instrument@ != id {
        law_first_exposure(s, id, from + 1);
    }
}

/// CB-2 passes an order exactly where the instrument's gross notional after it is at most the
/// cap: what the firm holds in the instrument, with the order's notional added for a buy and
/// taken off for a sell.
pub proof fn law_instrument_cap(
    ctx: CircuitBreakerContext<'_>,
    order: PipelineOrder<Validated>,
    core: OrderCore,
    price: Num,
    notional: Num,
    net: Num,
    gross: Num,
    after: (Num, Num),
)
    requires
        ctx.order == Some(&order),
        order.order() == core,
        core.price matches Some(p) && p@ == price && price.m > 0,
        num_mul(core.qty@, price) == Some(notional),
        ({
            let held = ctx.firm_book.instruments@;
            let id = core.instrument_id@;
            ||| {
                &&& forall|j: int| 0 <= j < held.len() ==> (#[trigger] held[j]).instrument@ != id
                &&& net == num(0, 0)
                &&& gross == num(0, 0)
            }
            ||| exists|i: int|
                {
                    &&& 0 <= i < held.len()
                    &&& (#[trigger] held[i]).instrument@ == id
                    &&& forall|j: int| 0 <= j < i ==> (#[trigger] held[j]).instrument@ != id
                    &&& net == held[i].net_notional_usd@
                    &&& gross == held[i].gross_notional_usd@
                }
        }),
        projected(
            net,
            gross,
            if core.side is Buy {
                notional
            } else {
                num_neg(notional)
            },
        ) == Some(after),
    ensures
        ({
            let (_, gross_after) = after;
            &&& cb2_verdict(ctx) is Pass <==> num_le(
                gross_after,
                ctx.config.max_instrument_position_notional@,
            )
            &&& cb2_verdict(ctx) is Pass || rejects(cb2_verdict(ctx), "CB-2"@)
            &&& cb2_fits(ctx)
        }),
{
    law_first_exposure(ctx.firm_book.instruments@, core.instrument_id@, 0);
}

/// CB-3 passes exactly where the firm's gross notional is at most the cap.
pub proof fn law_firm_gross_cap(ctx: CircuitBreakerContext<'_>)
    ensures
        cb3_fresh(ctx) is Pass <==> num_le(
            ctx.firm_book.gross_notional@,
            ctx.config.max_firm_gross_notional@,
        ),
        cb3_fresh(ctx) is Pass || rejects(cb3_fresh(ctx), "CB-3"@),
{
}

/// CB-4 and CB-5 halt exactly where NAV is positive and the loss of the day, or of the hour,
/// is more than its part of NAV.
pub proof fn law_loss_caps(ctx: CircuitBreakerContext<'_>, daily: Num, hourly: Num)
    requires
        num_mul(ctx.config.max_daily_loss_pct@, ctx.firm_book.nav@) == Some(daily),
        num_mul(ctx.config.max_hourly_loss_pct@, ctx.firm_book.nav@) == Some(hourly),
    ensures
        cb4_fresh(ctx) is Pass <==> ctx.firm_book.nav@.m <= 0 || num_le(
            num_neg(daily),
            ctx.firm_book.daily_pnl@,
        ),
        cb4_fresh(ctx) is Pass || halts(cb4_fresh(ctx), "CB-4"@),
        cb5_fresh(ctx) is Pass <==> ctx.firm_book.nav@.m <= 0 || num_le(
            num_neg(hourly),
            ctx.firm_book.hourly_pnl@,
        ),
        cb5_fresh(ctx) is Pass || halts(cb5_fresh(ctx), "CB-5"@),
{
}

/// CB-6 passes exactly where the firm's orders of the last minute are at most the cap; CB-7
/// where those of the order's agent are, of which none may be on record; CB-11 where the
/// queue is at most as deep as its cap.
pub proof fn law_rate_caps(
    ctx: CircuitBreakerContext<'_>,
    order: PipelineOrder<Validated>,
    agent: Seq<char>,
)
    requires
        ctx.order == Some(&order),
        order.order().agent_id@ == agent,
    ensures
        cb6_verdict(ctx) is Pass <==> ctx.firm_orders_last_60s
            <= ctx.config.max_firm_orders_per_min,
        cb6_verdict(ctx) is Pass || rejects(cb6_verdict(ctx), "CB-6"@),
        ctx.agent_orders_last_60s@.contains_key(agent) ==> (cb7_verdict(ctx) is Pass
            <==> ctx.agent_orders_last_60s@[agent] <= ctx.config.max_agent_orders_per_min),
        !ctx.agent_orders_last_60s@.contains_key(agent) ==> cb7_verdict(ctx) is Pass,
        cb7_verdict(ctx) is Pass || rejects(cb7_verdict(ctx), "CB-7"@),
        cb11_verdict(ctx) is Pass <==> ctx.sequencer_queue_depth
            <= ctx.config.max_sequencer_queue_depth,
        cb11_verdict(ctx) is Pass || rejects(cb11_verdict(ctx), "CB-11"@),
{
}

/// CB-8 passes exactly where no requests to the order's venue are on record, or the errors
/// among them are at most the cap's part.
pub proof fn law_error_rate_cap(
    ctx: CircuitBreakerContext<'_>,
    order: PipelineOrder<Validated>,
    venue: Seq<char>,
)
    requires
        ctx.order == Some(&order),
        order.order().venue_id@ == venue,
    ensures
        !ctx.venue_error_stats@.contains_key(venue) ==> cb8_verdict(ctx) is Pass,
        ctx.venue_error_stats@.contains_key(venue) && ctx.venue_error_stats@[venue].total_last_5min
            == 0 ==> cb8_verdict(ctx) is Pass,
        forall|rate: Num|
            ctx.venue_error_stats@.contains_key(venue)
                && ctx.venue_error_stats@[venue].total_last_5min > 0 && num_div(
                num(ctx.venue_error_stats@[venue].errors_last_5min as int, 0),
                num(ctx.venue_error_stats@[venue].total_last_5min as int, 0),
            ) == Some(rate) ==> (cb8_verdict(ctx) is Pass <==> #[trigger] num_le(
                rate,
                ctx.config.max_venue_error_rate@,
            )),
        cb8_verdict(ctx) is Pass || rejects(cb8_verdict(ctx), "CB-8"@),
{
}

/// CB-9 passes an order exactly where its venue is on record as connected and has sent a
/// heartbeat that is neither ahead of the clock nor a second or more older than the limit.
pub proof fn law_venue_is_connected(
    ctx: CircuitBreakerContext<'_>,
    order: PipelineOrder<Validated>,
    venue: Seq<char>,
    now: int,
)
    requires
        ctx.order == Some(&order),
        order.order().venue_id@ == venue,
    ensures
        cb9_verdict(ctx, now) is Pass <==> {
            &&& ctx.venue_health@.contains_key(venue)
            &&& ctx.venue_health@[venue].state is Connected
            &&& ctx.venue_health@[venue].last_heartbeat_at matches Some(last) && last@ <= now && now
                - last@ < (ctx.config.max_venue_disconnect_secs + 1) * NANOS_PER_SECOND
        },
        cb9_verdict(ctx, now) is Pass || rejects(cb9_verdict(ctx, now), "CB-9"@),
{
}

/// CB-10 passes an order exactly where it is a dry run or the engine is live.
pub proof fn law_dry_run_or_live(ctx: CircuitBreakerContext<'_>, order: PipelineOrder<Validated>)
    requires
        ctx.order == Some(&order),
    ensures
        cb10_verdict(ctx) is Pass <==> order.order().dry_run || ctx.execution_mode is Live,
        cb10_verdict(ctx) is Pass || rejects(cb10_verdict(ctx), "CB-10"@),
{
}

/// Without an order, the breakers that look at one pass.
pub proof fn law_no_order_nothing_to_stop(ctx: CircuitBreakerContext<'_>, now: int)
    requires
        ctx.order is None,
    ensures
        cb1_verdict(ctx) is Pass,
        cb2_verdict(ctx) is Pass,
        cb7_verdict(ctx) is Pass,
        cb8_verdict(ctx) is Pass,
        cb9_verdict(ctx, now) is Pass,
        cb10_verdict(ctx) is Pass,
{
}

/// The bank reports the first breaker that stops a new order, in this order: a latched CB-4,
/// CB-5, CB-3, then CB-10, CB-4, CB-5, CB-3, CB-11, CB-1, CB-2, CB-6, CB-7, CB-8, CB-9.
pub proof fn law_bank_reports_the_first(latches: Latches, ctx: CircuitBreakerContext<'_>, now: int)
    requires
        ctx.operation_kind is NewOrder,
    ensures
        ({
            let v = bank_verdict(latches, ctx, now);
            let free = !latches.daily && !latches.hourly && !latches.gross;
            &&& latches.daily ==> halts(v, "CB-4"@)
            &&& !latches.daily && latches.hourly ==> halts(v, "CB-5"@)
            &&& !latches.daily && !latches.hourly && latches.gross ==> rejects(v, "CB-3"@)
            &&& free && !(cb10_verdict(ctx) is Pass) ==> v == cb10_verdict(ctx)
            &&& free && cb10_verdict(ctx) is Pass ==> {
                &&& !(cb4_fresh(ctx) is Pass) ==> v == cb4_fresh(ctx)
                &&& cb4_fresh(ctx) is Pass ==> {
                    &&& !(cb5_fresh(ctx) is Pass) ==> v == cb5_fresh(ctx)
                    &&& cb5_fresh(ctx) is Pass && !(cb3_fresh(ctx) is Pass) ==> v == cb3_fresh(ctx)
                    &&& cb5_fresh(ctx) is Pass && cb3_fresh(ctx) is Pass ==> {
                        &&& !(cb11_verdict(ctx) is Pass) ==> v == cb11_verdict(ctx)
                        &&& cb11_verdict(ctx) is Pass && !(cb1_verdict(ctx) is Pass) ==> v
                            == cb1_verdict(ctx)
                        &&& cb11_verdict(ctx) is Pass && cb1_verdict(ctx) is Pass ==> {
                            &&& !(cb2_verdict(ctx) is Pass) ==> v == cb2_verdict(ctx)
                            &&& cb2_verdict(ctx) is Pass && !(cb6_verdict(ctx) is Pass) ==> v
                                == cb6_verdict(ctx)
                            &&& cb2_verdict(ctx) is Pass && cb6_verdict(ctx) is Pass ==> {
                                &&& !(cb7_verdict(ctx) is Pass) ==> v == cb7_verdict(ctx)
                                &&& cb7_verdict(ctx) is Pass && !(cb8_verdict(ctx) is Pass) ==> v
                                    == cb8_verdict(ctx)
                                &&& cb7_verdict(ctx) is Pass && cb8_verdict(ctx) is Pass ==> v
                                    == cb9_verdict(ctx, now)
                            }
                        }
                    }
                }
            }
        }),
{
}

/// A reduce-only order passes exactly where CB-10, CB-11, CB-2, CB-6, CB-7, CB-8 and CB-9 let
/// it pass: neither the losses, nor the firm's gross notional, nor its own size stop it.
pub proof fn law_reduce_only_passes(latches: Latches, ctx: CircuitBreakerContext<'_>, now: int)
    requires
        ctx.operation_kind is ReduceOnly,
    ensures
        bank_verdict(latches, ctx, now) is Pass <==> {
            &&& cb10_verdict(ctx) is Pass
            &&& cb11_verdict(ctx) is Pass
            &&& cb2_verdict(ctx) is Pass
            &&& cb6_verdict(ctx) is Pass
            &&& cb7_verdict(ctx) is Pass
            &&& cb8_verdict(ctx) is Pass
            &&& cb9_verdict(ctx, now) is Pass
        },
{
}

/// What a check latches: of CB-4, CB-5 and CB-3 the one that stops a new order, and no more.
pub proof fn law_check_latches_what_stops(
    latches: Latches,
    ctx: CircuitBreakerContext<'_>,
    now: int,
)
    ensures
        ({
            let (v, after) = (bank_verdict(latches, ctx, now), latches_after(latches, ctx));
            let fresh = ctx.operation_kind is NewOrder && !latches.daily && !latches.hourly
                && !latches.gross;
            &&& !fresh ==> after == latches
            &&& fresh ==> {
                &&& after.daily <==> halts(v, "CB-4"@)
                &&& after.hourly <==> halts(v, "CB-5"@)
                &&& after.gross <==> rejects(v, "CB-3"@)
            }
        }),
{
    lemma_names_differ();
}

/// What a reset clears is the latch of the breaker that is named; nothing else can be reset,
/// and the daily loss halt only with approval.
pub proof fn law_reset_clears_the_named_latch(
    latches: Latches,
    breaker: Seq<char>,
    reason: ResetReason,
)
    ensures
        breaker == "CB-3"@ ==> (reset_outcome(latches, breaker, reason) matches Ok(after)
            && !after.gross && after.daily == latches.daily && after.hourly == latches.hourly),
        breaker == "CB-4"@ && reason is CioApproval ==> (reset_outcome(
            latches,
            breaker,
            reason,
        ) matches Ok(after) && !after.daily && after.gross == latches.gross && after.hourly
            == latches.hourly),
        breaker == "CB-4"@ && !(reason is CioApproval) ==> reset_outcome(latches, breaker, reason)
            is Err,
        breaker == "CB-5"@ ==> (reset_outcome(latches, breaker, reason) matches Ok(after)
            && !after.hourly && after.daily == latches.daily && after.gross == latches.gross),
        breaker != "CB-3"@ && breaker != "CB-4"@ && breaker != "CB-5"@ ==> reset_outcome(
            latches,
            breaker,
            reason,
        ) is Err,
{
    lemma_names_differ();
}

/// The order of a context, and its price, where it has a positive one.
pub open spec fn has_price(ctx: CircuitBreakerContext<'_>) -> bool {
    ctx.order matches Some(o) && (o.order().price matches Some(p) && p@.m > 0)
}

/// A breaker decides wherever its numbers stay in their range: CB-1 the order's notional, CB-2
/// what it makes of the instrument's exposure, CB-4 and CB-5 the loss caps and, where they are
/// exceeded, the percentage that is shown, CB-8 the error rate.
pub proof fn law_breakers_decide(ctx: CircuitBreakerContext<'_>)
    ensures
        ({
            let core = ctx.order->0.order();
            let price = core.price->0@;
            let (nav, config) = (ctx.firm_book.nav@, ctx.config);
            &&& !has_price(ctx) ==> cb1_fits(ctx) && cb2_fits(ctx)
            &&& has_price(ctx) ==> (cb1_fits(ctx) <==> num_mul(core.qty@, price) is Some)
            &&& has_price(ctx) ==> (cb2_fits(ctx) <==> projected_exposure(ctx, core, price) is Some)
            &&& cb4_fits(ctx) <==> (nav.m > 0 ==> num_mul(config.max_daily_loss_pct@, nav) is Some
                && (!(cb4_fresh(ctx) is Pass) ==> num_mul(
                config.max_daily_loss_pct@,
                num(100, 0),
            ) is Some))
            &&& cb5_fits(ctx) <==> (nav.m > 0 ==> num_mul(config.max_hourly_loss_pct@, nav) is Some
                && (!(cb5_fresh(ctx) is Pass) ==> num_mul(
                config.max_hourly_loss_pct@,
                num(100, 0),
            ) is Some))
            &&& ctx.order is None ==> cb8_fits(ctx)
            &&& ctx.order is Some ==> (cb8_fits(ctx) <==> (ctx.venue_error_stats@.contains_key(
                core.venue_id@,
            ) && ctx.venue_error_stats@[core.venue_id@].total_last_5min > 0 ==> num_div(
                num(ctx.venue_error_stats@[core.venue_id@].errors_last_5min as int, 0),
                num(ctx.venue_error_stats@[core.venue_id@].total_last_5min as int, 0),
            ) is Some))
        }),
{
}

/// The bank decides wherever each of its breakers does, on a cancel always, and on a new order
/// while one of them is latched.
pub proof fn law_bank_decides(latches: Latches, ctx: CircuitBreakerContext<'_>)
    ensures
        cb1_fits(ctx) && cb2_fits(ctx) && cb4_fits(ctx) && cb5_fits(ctx) && cb8_fits(ctx)
            ==> bank_fits(latches, ctx),
        ctx.operation_kind is Cancel ==> bank_fits(latches, ctx),
        ctx.operation_kind is NewOrder && (latches.daily || latches.hourly || latches.gross)
            ==> bank_fits(latches, ctx),
        ({
            let free = !latches.daily && !latches.hourly && !latches.gross;
            let last = cb2_fits(ctx) && (cb2_verdict(ctx) is Pass && cb6_verdict(ctx) is Pass
                && cb7_verdict(ctx) is Pass ==> cb8_fits(ctx));
            let early = cb10_verdict(ctx) is Pass;
            let lossless = cb4_fits(ctx) && cb4_fresh(ctx) is Pass && cb5_fits(ctx) && cb5_fresh(
                ctx,
            ) is Pass;
            &&& ctx.operation_kind is ReduceOnly ==> (bank_fits(latches, ctx) <==> (early
                && cb11_verdict(ctx) is Pass ==> last))
            &&& ctx.operation_kind is NewOrder && free && !early ==> bank_fits(latches, ctx)
            &&& ctx.operation_kind is NewOrder && free && early && bank_fits(latches, ctx)
                ==> cb4_fits(ctx) && (cb4_fresh(ctx) is Pass ==> cb5_fits(ctx))
            &&& ctx.operation_kind is NewOrder && free && early && lossless && cb3_fresh(
                ctx,
            ) is Pass && cb11_verdict(ctx) is Pass ==> (bank_fits(latches, ctx) <==> cb1_fits(ctx)
                && (cb1_verdict(ctx) is Pass ==> last))
        }),
{
}

/// A cancel passes, whatever is latched or exceeded.
pub proof fn law_cancels_pass(latches: Latches, ctx: CircuitBreakerContext<'_>, now: int)
    requires
        ctx.operation_kind is Cancel,
    ensures
        bank_verdict(latches, ctx, now) is Pass,
        latches_after(latches, ctx) == latches,
{
}

/// A breaker that has latched stops whatever it is asked, and one that has not goes by its
/// cap; only CB-3, CB-4 and CB-5 latch.
pub proof fn law_latched_breakers_stop(
    tripped: bool,
    ctx: CircuitBreakerContext<'_>,
    now: int,
)
    ensures
        ({
            let (cb3, cb4, cb5) = (
                Cb3MaxFirmGrossNotional { tripped },
                Cb4FirmDailyLoss { tripped },
                Cb5FirmHourlyLoss { tripped },
            );
            &&& cb3.latched() == tripped && cb4.latched() == tripped && cb5.latched() == tripped
            &&& tripped ==> {
                &&& rejects(cb3.verdict(ctx, now), "CB-3"@)
                &&& halts(cb4.verdict(ctx, now), "CB-4"@)
                &&& halts(cb5.verdict(ctx, now), "CB-5"@)
                &&& cb3.fits(ctx) && cb4.fits(ctx) && cb5.fits(ctx)
            }
            &&& !tripped ==> {
                &&& cb3.verdict(ctx, now) == cb3_fresh(ctx)
                &&& cb4.verdict(ctx, now) == cb4_fresh(ctx)
                &&& cb5.verdict(ctx, now) == cb5_fresh(ctx)
                &&& cb3.fits(ctx)
                &&& cb4.fits(ctx) <==> cb4_fits(ctx)
                &&& cb5.fits(ctx) <==> cb5_fits(ctx)
            }
        }),
{
}

/// The breakers without a latch decide as the bank asks them.
pub proof fn law_other_breakers(ctx: CircuitBreakerContext<'_>, now: int)
    ensures
        Cb1MaxSingleOrderNotional.verdict(ctx, now) == cb1_verdict(ctx),
        Cb2MaxInstrumentPosition.verdict(ctx, now) == cb2_verdict(ctx),
        Cb6FirmOrdersPerMinute.verdict(ctx, now) == cb6_verdict(ctx),
        Cb7AgentOrdersPerMinute.verdict(ctx, now) == cb7_verdict(ctx),
        Cb8VenueErrorRate.verdict(ctx, now) == cb8_verdict(ctx),
        Cb9VenueDisconnected.verdict(ctx, now) == cb9_verdict(ctx, now),
        Cb10DryRunBypass.verdict(ctx, now) == cb10_verdict(ctx),
        Cb11SequencerQueueDepth.verdict(ctx, now) == cb11_verdict(ctx),
        Cb1MaxSingleOrderNotional.fits(ctx) <==> cb1_fits(ctx),
        Cb2MaxInstrumentPosition.fits(ctx) <==> cb2_fits(ctx),
        Cb8VenueErrorRate.fits(ctx) <==> cb8_fits(ctx),
        Cb6FirmOrdersPerMinute.fits(ctx),
        Cb7AgentOrdersPerMinute.fits(ctx),
        Cb9VenueDisconnected.fits(ctx),
        Cb10DryRunBypass.fits(ctx),
        Cb11SequencerQueueDepth.fits(ctx),
{
}

/// What a breaker says when it stops something: the number and the cap that it exceeds.
pub proof fn law_breakers_say_why(ctx: CircuitBreakerContext<'_>, now: int)
    ensures
        ({
            let core = ctx.order->0.order();
            let notional = num_mul(core.qty@, core.price->0@)->0;
            let config = ctx.config;
            &&& !(cb1_verdict(ctx) is Pass) ==> cb1_verdict(ctx)->Reject_reason == "order notional "@
                + num_text(notional) + " exceeds max single order notional "@ + num_text(
                config.max_single_order_notional@,
            )
            &&& !(cb3_fresh(ctx) is Pass) ==> cb3_fresh(ctx)->Reject_reason == "firm gross notional "@
                + num_text(ctx.firm_book.gross_notional@) + " exceeds max "@ + num_text(
                config.max_firm_gross_notional@,
            )
            &&& !(cb6_verdict(ctx) is Pass) ==> cb6_verdict(ctx)->Reject_reason == "firm order rate "@
                + digits(ctx.firm_orders_last_60s as nat) + "/min exceeds max "@ + digits(
                config.max_firm_orders_per_min as nat,
            ) + "/min"@
            &&& !(cb7_verdict(ctx) is Pass) ==> cb7_verdict(ctx)->Reject_reason == "agent "@
                + core.agent_id@ + " order rate "@ + digits(
                ctx.agent_orders_last_60s@[core.agent_id@] as nat,
            ) + "/min exceeds max "@ + digits(config.max_agent_orders_per_min as nat) + "/min"@
            &&& !(cb10_verdict(ctx) is Pass) ==> cb10_verdict(ctx)->Reject_reason
                == "order has dry_run=false but engine is in "@ + (
            if ctx.execution_mode is Paper {
                "Paper"@
            } else {
                "Backtest"@
            }) + " mode — live submission blocked"@
            &&& !(cb4_fresh(ctx) is Pass) ==> cb4_fresh(ctx)->HaltAll_reason == "daily"@ + " P&L "@
                + num_text(ctx.firm_book.daily_pnl@) + " breached -"@ + num_text_to(
                num_mul(config.max_daily_loss_pct@, num(100, 0))->0,
                1,
            ) + "% NAV loss cap (limit: -"@ + num_text(
                num_mul(config.max_daily_loss_pct@, ctx.firm_book.nav@)->0,
            ) + ")"@
            &&& !(cb5_fresh(ctx) is Pass) ==> cb5_fresh(ctx)->HaltAll_reason == "hourly"@ + " P&L "@
                + num_text(ctx.firm_book.hourly_pnl@) + " breached -"@ + num_text_to(
                num_mul(config.max_hourly_loss_pct@, num(100, 0))->0,
                1,
            ) + "% NAV loss cap (limit: -"@ + num_text(
                num_mul(config.max_hourly_loss_pct@, ctx.firm_book.nav@)->0,
            ) + ")"@
            &&& !(cb8_verdict(ctx) is Pass) ==> cb8_verdict(ctx)->Reject_reason == "venue "@
                + core.venue_id@ + " error rate "@ + num_text_to(
                num_div(
                    num(ctx.venue_error_stats@[core.venue_id@].errors_last_5min as int, 0),
                    num(ctx.venue_error_stats@[core.venue_id@].total_last_5min as int, 0),
                )->0,
                2,
            ) + " exceeds max "@ + num_text(config.max_venue_error_rate@)
            &&& !(cb11_verdict(ctx) is Pass) ==> cb11_verdict(ctx)->Reject_reason
                == "sequencer queue depth "@ + digits(ctx.sequencer_queue_depth as nat)
                + " exceeds max "@ + digits(config.max_sequencer_queue_depth as nat)
        }),
{
}

/// The names of breakers differ.
proof fn lemma_names_differ()
    ensures
        "CB-3"@ != "CB-4"@,
        "CB-3"@ != "CB-5"@,
        "CB-4"@ != "CB-5"@,
        "CB-1"@ != "CB-3"@,
        "CB-2"@ != "CB-3"@,
        "CB-6"@ != "CB-3"@,
        "CB-7"@ != "CB-3"@,
        "CB-8"@ != "CB-3"@,
        "CB-9"@ != "CB-3"@,
        "CB-10"@ != "CB-3"@,
        "CB-11"@ != "CB-3"@,
{
    reveal_strlit("CB-1");
    reveal_strlit("CB-2");
    reveal_strlit("CB-3");
    reveal_strlit("CB-4");
    reveal_strlit("CB-5");
    reveal_strlit("CB-6");
    reveal_strlit("CB-7");
    reveal_strlit("CB-8");
    reveal_strlit("CB-9");
    reveal_strlit("CB-10");
    reveal_strlit("CB-11");
    assert("CB-3"@[3] != "CB-4"@[3]);
    assert("CB-3"@[3] != "CB-5"@[3]);
    assert("CB-4"@[3] != "CB-5"@[3]);
    assert("CB-1"@[3] != "CB-3"@[3]);
    assert("CB-2"@[3] != "CB-3"@[3]);
    assert("CB-6"@[3] != "CB-3"@[3]);
    assert("CB-7"@[3] != "CB-3"@[3]);
    assert("CB-8"@[3] != "CB-3"@[3]);
    assert("CB-9"@[3] != "CB-3"@[3]);
    assert("CB-10"@.len() != "CB-3"@.len());
    assert("CB-11"@.len() != "CB-3"@.len());
}

} // verus!
