use vstd::prelude::*;

use crate::circuit_breaker::{clamp_i64, CircuitBreaker, TripReason};
use crate::market::MarketPair;
use crate::position_tracker::{
    leg_gap, lemma_position_wf, lemma_round_keeps_balance, round_fits, round_recorded, FillRecord, PositionTracker, Side, MAX_CONTRACTS, MAX_PRICE_MICROS,
};
use crate::types::{FastExecutionRequest, PriceCents, Quote, MICROS_PER_CENT};

verus! {

/// Cents of notional per contract: a contract pays one dollar.
pub const CENTS_PER_CONTRACT: u16 = 100;

/// The venue that both legs trade on.
pub const VENUE: &'static str = "polymarket";

/// One leg as it came back from the order client.
pub struct LegFill {
    /// Contracts filled.
    pub filled: i64,
    /// What the filled contracts cost, in cents.
    pub cost_cents: i64,
    pub order_id: String,
    /// The leg failed outright (transport fault, rejection, timeout).
    pub errored: bool,
}

impl LegFill {
    /// A leg that failed: nothing filled, nothing spent, no order.
    pub fn failed() -> (r: Self)
        ensures
            r.filled == 0,
            r.cost_cents == 0,
            r.order_id@.len() == 0,
            r.errored,
    {
        LegFill { filled: 0, cost_cents: 0, order_id: String::new(), errored: true }
    }
}

/// A buy order for one leg.
#[derive(Clone, Copy, Debug, PartialEq, Eq, Structural)]
pub struct LegOrder {
    pub side: Side,
    pub price: PriceCents,
    pub contracts: i64,
}

/// The contracts that a size in cents of notional buys.
pub open spec fn contracts_of_size(size: u16) -> int {
    (size as int) / (CENTS_PER_CONTRACT as int)
}

/// The contracts that admission asks for: the larger leg of the request.
pub fn request_contracts(req: &FastExecutionRequest) -> (r: i64)
    ensures
        r == (if req.yes_size >= req.no_size { contracts_of_size(req.yes_size) } else { contracts_of_size(req.no_size) }),
{
    let size = if req.yes_size >= req.no_size { req.yes_size } else { req.no_size };
    (size / CENTS_PER_CONTRACT) as i64
}

/// The two buys of a request if a fresh quote still shows a profit: YES and
/// NO at the request's prices, each for the contracts of its size; `None`
/// when the fresh quote's profit per contract is not positive.
pub fn plan_orders(req: &FastExecutionRequest, fresh: Quote) -> (r: Option<(LegOrder, LegOrder)>)
    ensures
        (100 - fresh.0 - fresh.1 - req.arb_type.fee_spec() <= 0) ==> r is None,
        (100 - fresh.0 - fresh.1 - req.arb_type.fee_spec() > 0) ==> r == Some((
            LegOrder { side: Side::Yes, price: req.yes_price, contracts: contracts_of_size(req.yes_size) as i64 },
            LegOrder { side: Side::No, price: req.no_price, contracts: contracts_of_size(req.no_size) as i64 },
        )),
{
    let profit: i32 = 100i32 - fresh.0 as i32 - fresh.1 as i32 - req.estimated_fee_cents() as i32;
    if profit <= 0 {
        return None;
    }
    Some((
        LegOrder { side: Side::Yes, price: req.yes_price, contracts: (req.yes_size / CENTS_PER_CONTRACT) as i64 },
        LegOrder { side: Side::No, price: req.no_price, contracts: (req.no_size / CENTS_PER_CONTRACT) as i64 },
    ))
}

/// The fill that a dry run reports for an order: all of it at its price.
pub fn dry_run_fill(order: &LegOrder) -> (r: LegFill)
    requires
        0 <= order.contracts <= MAX_CONTRACTS,
    ensures
        r.filled == order.contracts,
        r.cost_cents == order.contracts * order.price,
        !r.errored,
{
    proof {
        assert(order.contracts * order.price <= MAX_CONTRACTS * 65535) by (nonlinear_arith)
            requires
                0 <= order.contracts <= MAX_CONTRACTS,
                order.price <= 65535,
        ;
    }
    LegFill { filled: order.contracts, cost_cents: order.contracts * order.price as i64, order_id: String::new(), errored: false }
}

/// A sale that flattens the excess of one leg.
#[derive(Clone, Copy, Debug, PartialEq, Eq, Structural)]
pub struct CloseOrder {
    pub side: Side,
    pub contracts: i64,
}

/// What a round came to once both legs have reported.
#[derive(Clone, Copy, Debug, PartialEq, Eq, Structural)]
pub struct RoundOutcome {
    /// Contracts filled on both legs.
    pub matched: i64,
    /// One dollar per matched contract less both legs' cost, in cents.
    pub profit_cents: i64,
    /// The excess leg to sell back, and how many contracts.
    pub close: Option<CloseOrder>,
    /// Some leg failed outright.
    pub any_error: bool,
}

pub open spec fn min_i(a: int, b: int) -> int {
    if a <= b { a } else { b }
}

/// The outcome of a round whose legs filled `yes` and `no`.
pub open spec fn reconcile_spec(yes: LegFill, no: LegFill) -> RoundOutcome {
    let m = min_i(yes.filled as int, no.filled as int);
    RoundOutcome {
        matched: m as i64,
        profit_cents: clamp_i64(m * 100 - yes.cost_cents - no.cost_cents),
        close: if yes.filled > no.filled {
            Some(CloseOrder { side: Side::Yes, contracts: (yes.filled - no.filled) as i64 })
        } else if no.filled > yes.filled {
            Some(CloseOrder { side: Side::No, contracts: (no.filled - yes.filled) as i64 })
        } else {
            None
        },
        any_error: yes.errored || no.errored,
    }
}

/// Reconciles the two legs: the matched contracts are the smaller fill, the
/// profit is a dollar each for them less what both legs cost, the larger leg's
/// excess is to be sold back, and a leg that failed outright counts as an error.
pub fn reconcile(yes: &LegFill, no: &LegFill) -> (r: RoundOutcome)
    requires
        0 <= yes.filled <= MAX_CONTRACTS,
        0 <= no.filled <= MAX_CONTRACTS,
    ensures
        r == reconcile_spec(*yes, *no),
{
    let m = if yes.filled <= no.filled { yes.filled } else { no.filled };
    let p: i128 = m as i128 * 100 - yes.cost_cents as i128 - no.cost_cents as i128;
    let profit_cents = if p > i64::MAX as i128 {
        i64::MAX
    } else if p < i64::MIN as i128 {
        i64::MIN
    } else {
        p as i64
    };
    let close = if yes.filled > no.filled {
        Some(CloseOrder { side: Side::Yes, contracts: yes.filled - no.filled })
    } else if no.filled > yes.filled {
        Some(CloseOrder { side: Side::No, contracts: no.filled - yes.filled })
    } else {
        None
    };
    RoundOutcome { matched: m, profit_cents, close, any_error: yes.errored || no.errored }
}

/// The unit price of a leg in micro-dollars: its cost over its fill,
/// rounded down; 0 for a leg that filled nothing.
pub open spec fn unit_price_spec(leg: LegFill) -> int {
    if leg.filled > 0 && leg.cost_cents >= 0 {
        (leg.cost_cents * MICROS_PER_CENT) / (leg.filled as int)
    } else {
        0
    }
}

/// The unit price of a leg for the ledger, in micro-dollars, at most a dollar.
pub fn unit_price(leg: &LegFill) -> (r: i64)
    requires
        0 <= leg.filled <= MAX_CONTRACTS,
    ensures
        r == (if unit_price_spec(*leg) > MAX_PRICE_MICROS { MAX_PRICE_MICROS as int } else { unit_price_spec(*leg) }),
{
    if leg.filled <= 0 || leg.cost_cents < 0 {
        return 0;
    }
    let micros: i128 = leg.cost_cents as i128 * MICROS_PER_CENT as i128;
    let q: i128 = micros / leg.filled as i128;
    if q > MAX_PRICE_MICROS as i128 {
        MAX_PRICE_MICROS
    } else {
        q as i64
    }
}

/// A leg's unit price as the ledger takes it: at most a dollar.
pub open spec fn ledger_price(leg: LegFill) -> int {
    if unit_price_spec(leg) > MAX_PRICE_MICROS { MAX_PRICE_MICROS as int } else { unit_price_spec(leg) }
}

/// The two ledger fills of a round: both legs of the pair's market at the
/// matched quantity, each at its own leg's unit price, without fees.
pub open spec fn round_fills(yf: FillRecord, nf: FillRecord, pair: &MarketPair, outcome: RoundOutcome, yes: LegFill, no: LegFill) -> bool {
    &&& yf.market_id@ == pair.pair_id@ && nf.market_id@ == pair.pair_id@
    &&& yf.description@ == pair.description@
    &&& yf.side == Side::Yes && nf.side == Side::No
    &&& yf.contracts == outcome.matched && nf.contracts == outcome.matched
    &&& yf.price == ledger_price(yes) && nf.price == ledger_price(no)
    &&& yf.fees == 0 && nf.fees == 0
}

/// The breaker after a round: with contracts matched, both legs' contracts
/// are added to the market's and the total position and the profit to the
/// day's result, and the error run is cleared; then a failed leg counts as
/// one failure at `now`.
pub open spec fn breaker_after_round(b: CircuitBreaker, f: CircuitBreaker, id: Seq<char>, outcome: RoundOutcome, now: u64) -> bool {
    let m = outcome.matched;
    let mid_errors: u32 = if m > 0 { 0 } else { b.consecutive_errors };
    let errors: u32 = if outcome.any_error { mid_errors.saturating_add(1) } else { mid_errors };
    let trips = outcome.any_error && b.config.enabled && errors >= b.config.max_consecutive_errors;
    &&& f.config == b.config
    &&& f.consecutive_errors == errors
    &&& (m > 0 ==> {
        &&& f.market_position(id) == clamp_i64(b.market_position(id) + clamp_i64(m + m))
        &&& f.total_position == clamp_i64(b.total_position + clamp_i64(m + m))
        &&& f.daily_pnl_cents == clamp_i64(b.daily_pnl_cents + outcome.profit_cents)
        &&& forall|other: Seq<char>| other != id ==> #[trigger] f.market_position(other) == b.market_position(other)
    })
    &&& (m <= 0 ==> {
        &&& f.positions@ == b.positions@
        &&& f.total_position == b.total_position
        &&& f.daily_pnl_cents == b.daily_pnl_cents
    })
    &&& (trips ==> {
        &&& f.halted
        &&& f.trip_reason == Some(TripReason::ConsecutiveErrors { count: errors, max: b.config.max_consecutive_errors })
        &&& f.halted_until == Some(now.saturating_add(b.config.cooldown_secs))
    })
    &&& (!trips ==> {
        &&& f.halted == b.halted
        &&& f.trip_reason == b.trip_reason
        &&& f.halted_until == b.halted_until
    })
}

/// Books a reconciled round: the breaker records the matched contracts on
/// both legs and the profit where any matched; the ledger records both legs
/// at the matched quantity and each leg's own unit price, as one batch,
/// where any leg filled; a leg that failed outright is an error for the
/// breaker. Returns whether the ledger took the round.
pub fn book_round(
    tracker: &mut PositionTracker,
    breaker: &mut CircuitBreaker,
    pair: &MarketPair,
    yes: &LegFill,
    no: &LegFill,
    outcome: &RoundOutcome,
    now: u64,
) -> (r: bool)
    requires
        old(tracker).wf(),
        old(breaker).wf(),
        0 <= yes.filled <= MAX_CONTRACTS,
        0 <= no.filled <= MAX_CONTRACTS,
        *outcome == reconcile_spec(*yes, *no),
    ensures
        final(tracker).wf(),
        final(breaker).wf(),
        breaker_after_round(*old(breaker), *final(breaker), pair.pair_id@, *outcome, now),
        forall|id: Seq<char>| id != pair.pair_id@ ==> #[trigger] final(tracker).position(id) == old(tracker).position(id),
        !(yes.filled > 0 || no.filled > 0) ==> !r && final(tracker).positions@ == old(tracker).positions@,
        !r ==> final(tracker).positions@ == old(tracker).positions@,
        (yes.filled > 0 || no.filled > 0) ==> exists|yf: FillRecord, nf: FillRecord| {
            &&& #[trigger] round_fills(yf, nf, pair, *outcome, *yes, *no)
            &&& r == round_fits(old(tracker).position(pair.pair_id@), old(tracker).positions@.len(), &yf, &nf)
            &&& r ==> round_recorded(old(tracker).position(pair.pair_id@), final(tracker).position(pair.pair_id@), &yf, &nf)
        },
        leg_gap(final(tracker).position(pair.pair_id@)) == leg_gap(old(tracker).position(pair.pair_id@)),
{
    if outcome.matched > 0 {
        breaker.record_success(pair.pair_id.as_str(), outcome.matched, outcome.matched, outcome.profit_cents);
    }
    let mut booked = false;
    if yes.filled > 0 || no.filled > 0 {
        let yes_fill = FillRecord::new(
            pair.pair_id.as_str(),
            pair.description.as_str(),
            VENUE,
            Side::Yes,
            outcome.matched,
            unit_price(yes),
            0,
            yes.order_id.as_str(),
        );
        let no_fill = FillRecord::new(
            pair.pair_id.as_str(),
            pair.description.as_str(),
            VENUE,
            Side::No,
            outcome.matched,
            unit_price(no),
            0,
            no.order_id.as_str(),
        );
        let ghost before = tracker.position(pair.pair_id@);
        booked = tracker.record_round(&yes_fill, &no_fill);
        proof {
            assert(round_fills(yes_fill, no_fill, pair, *outcome, *yes, *no));
            if booked {
                let start = match before {
                    Some(p) => p,
                    None => crate::position_tracker::fresh_for(&yes_fill),
                };
                assert(old(tracker).wf());
                if before is Some {
                    lemma_position_wf(old(tracker).positions@, pair.pair_id@);
                }
                lemma_round_keeps_balance(start, outcome.matched, yes_fill.price, no_fill.price, 0, 0);
            }
        }
    }
    let ghost mid = *breaker;
    if outcome.any_error {
        breaker.record_error(now);
        proof {
            assert(*breaker == mid.after_error(now));
            assert(breaker.positions@ == mid.positions@);
            assert forall|other: Seq<char>| #[trigger] breaker.market_position(other) == mid.market_position(other) by {}
        }
    }
    booked
}

} // verus!
