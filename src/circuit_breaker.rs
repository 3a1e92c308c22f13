use vstd::prelude::*;

use crate::text::str_eq;

verus! {

/// `v` clamped into the range of `i64`.
pub open spec fn clamp_i64(v: int) -> i64 {
    if v > i64::MAX {
        i64::MAX
    } else if v < i64::MIN {
        i64::MIN
    } else {
        v as i64
    }
}

/// Addition that stops at the ends of `i64`.
pub fn sat_add(a: i64, b: i64) -> (r: i64)
    ensures
        r == clamp_i64(a + b),
{
    let s: i128 = a as i128 + b as i128;
    if s > i64::MAX as i128 {
        i64::MAX
    } else if s < i64::MIN as i128 {
        i64::MIN
    } else {
        s as i64
    }
}

/// The limits of the breaker.
#[derive(Clone, Copy, Debug, PartialEq, Eq, Structural)]
pub struct CircuitBreakerConfig {
    /// Contracts that one market may hold.
    pub max_position_per_market: i64,
    /// Contracts that all markets together may hold.
    pub max_total_position: i64,
    /// The day's realized loss, in cents, at which admission stops.
    pub max_daily_loss_cents: i64,
    /// Failed orders in a row that halt trading.
    pub max_consecutive_errors: u32,
    /// Seconds that a halt lasts before admission re-arms.
    pub cooldown_secs: u64,
    /// When false the breaker admits everything and never halts.
    pub enabled: bool,
}

/// Why a trade was refused or trading halted.
#[derive(Debug)]
pub enum TripReason {
    MaxPositionPerMarket { market: String, position: i64, limit: i64 },
    MaxTotalPosition { position: i64, limit: i64 },
    MaxDailyLoss { loss_cents: i64, limit_cents: i64 },
    ConsecutiveErrors { count: u32, max: u32 },
}

impl Clone for TripReason {
    fn clone(&self) -> (r: Self)
        ensures
            r == *self,
    {
        match self {
            TripReason::MaxPositionPerMarket { market, position, limit } => TripReason::MaxPositionPerMarket {
                market: market.clone(),
                position: *position,
                limit: *limit,
            },
            TripReason::MaxTotalPosition { position, limit } => TripReason::MaxTotalPosition {
                position: *position,
                limit: *limit,
            },
            TripReason::MaxDailyLoss { loss_cents, limit_cents } => TripReason::MaxDailyLoss {
                loss_cents: *loss_cents,
                limit_cents: *limit_cents,
            },
            TripReason::ConsecutiveErrors { count, max } => TripReason::ConsecutiveErrors {
                count: *count,
                max: *max,
            },
        }
    }
}

/// The contracts that one market holds.
pub struct MarketPosition {
    pub pair_id: String,
    pub contracts: i64,
}

/// The position that `s` records for `id`: the last entry for it, else 0.
pub open spec fn position_in(s: Seq<MarketPosition>, id: Seq<char>) -> i64
    decreases s.len(),
{
    if s.len() == 0 {
        0
    } else if s.last().pair_id@ == id {
        s.last().contracts
    } else {
        position_in(s.drop_last(), id)
    }
}

/// No market appears twice.
pub open spec fn keys_unique(s: Seq<MarketPosition>) -> bool {
    forall|i: int, j: int| 0 <= i < s.len() && 0 <= j < s.len() && i != j ==> (#[trigger] s[i]).pair_id@ != (#[trigger] s[j]).pair_id@
}

proof fn lemma_position_absent(s: Seq<MarketPosition>, id: Seq<char>)
    requires
        forall|i: int| 0 <= i < s.len() ==> (#[trigger] s[i]).pair_id@ != id,
    ensures
        position_in(s, id) == 0,
    decreases s.len(),
{
    if s.len() > 0 {
        lemma_position_absent(s.drop_last(), id);
    }
}

proof fn lemma_position_at(s: Seq<MarketPosition>, k: int, id: Seq<char>)
    requires
        keys_unique(s),
        0 <= k < s.len(),
        s[k].pair_id@ == id,
    ensures
        position_in(s, id) == s[k].contracts,
    decreases s.len(),
{
    if k < s.len() - 1 {
        assert(s[s.len() - 1].pair_id@ != id);
        assert(keys_unique(s.drop_last()));
        lemma_position_at(s.drop_last(), k, id);
    }
}

proof fn lemma_position_update(s: Seq<MarketPosition>, k: int, e: MarketPosition, id: Seq<char>)
    requires
        0 <= k < s.len(),
        e.pair_id@ == s[k].pair_id@,
        s[k].pair_id@ != id,
    ensures
        position_in(s.update(k, e), id) == position_in(s, id),
    decreases s.len(),
{
    if k < s.len() - 1 {
        assert(s.update(k, e).drop_last() =~= s.drop_last().update(k, e));
        lemma_position_update(s.drop_last(), k, e, id);
    } else {
        assert(s.update(k, e).drop_last() =~= s.drop_last());
    }
}

proof fn lemma_position_push(s: Seq<MarketPosition>, e: MarketPosition, id: Seq<char>)
    requires
        e.pair_id@ != id,
    ensures
        position_in(s.push(e), id) == position_in(s, id),
{
    assert(s.push(e).drop_last() =~= s);
}

/// A snapshot of the breaker.
pub struct BreakerStatus {
    pub enabled: bool,
    pub halted: bool,
    pub trip_reason: Option<TripReason>,
    pub consecutive_errors: u32,
    pub total_position: i64,
    pub daily_pnl_cents: i64,
}

/// The pre-trade admission gate.
pub struct CircuitBreaker {
    pub config: CircuitBreakerConfig,
    pub positions: Vec<MarketPosition>,
    pub total_position: i64,
    pub daily_pnl_cents: i64,
    pub consecutive_errors: u32,
    pub halted: bool,
    pub trip_reason: Option<TripReason>,
    pub halted_until: Option<u64>,
}

impl CircuitBreaker {
    /// One entry per market; a halt carries its reason and its end, and only
    /// an enabled breaker halts.
    pub open spec fn wf(&self) -> bool {
        &&& keys_unique(self.positions@)
        &&& self.halted <==> self.trip_reason is Some
        &&& self.halted <==> self.halted_until is Some
        &&& self.halted ==> self.config.enabled
    }

    /// The position that the breaker holds for market `id`.
    pub open spec fn market_position(&self, id: Seq<char>) -> i64 {
        position_in(self.positions@, id)
    }

    /// A breaker with no positions, no losses, no errors and no halt.
    pub fn new(config: CircuitBreakerConfig) -> (r: Self)
        ensures
            r.wf(),
            r.config == config,
            r.positions@.len() == 0,
            r.total_position == 0,
            r.daily_pnl_cents == 0,
            r.consecutive_errors == 0,
            !r.halted,
    {
        CircuitBreaker {
            config,
            positions: Vec::new(),
            total_position: 0,
            daily_pnl_cents: 0,
            consecutive_errors: 0,
            halted: false,
            trip_reason: None,
            halted_until: None,
        }
    }

    /// Whether trading is allowed: a disabled breaker always allows, an
    /// enabled one unless it is halted.
    pub fn is_trading_allowed(&self) -> (r: bool)
        ensures
            r == (!self.config.enabled || !self.halted),
    {
        !self.config.enabled || !self.halted
    }

    /// The position held for market `pair_id`.
    pub fn position_of(&self, pair_id: &str) -> (r: i64)
        requires
            self.wf(),
        ensures
            r == self.market_position(pair_id@),
    {
        match self.find(pair_id) {
            Some(k) => {
                proof {
                    lemma_position_at(self.positions@, k as int, pair_id@);
                }
                self.positions[k].contracts
            },
            None => {
                proof {
                    lemma_position_absent(self.positions@, pair_id@);
                }
                0
            },
        }
    }

    fn find(&self, pair_id: &str) -> (r: Option<usize>)
        ensures
            r matches Some(k) ==> k < self.positions@.len() && self.positions@[k as int].pair_id@ == pair_id@,
            r is None ==> forall|i: int| 0 <= i < self.positions@.len() ==> (#[trigger] self.positions@[i]).pair_id@ != pair_id@,
    {
        let mut i: usize = 0;
        while i < self.positions.len()
            invariant
                0 <= i <= self.positions@.len(),
                forall|j: int| 0 <= j < i ==> (#[trigger] self.positions@[j]).pair_id@ != pair_id@,
            decreases self.positions@.len() - i,
        {
            if str_eq(self.positions[i].pair_id.as_str(), pair_id) {
                return Some(i);
            }
            i = i + 1;
        }
        None
    }

    fn trip(&mut self, reason: TripReason, now: u64)
        requires
            old(self).wf(),
            old(self).config.enabled,
        ensures
            final(self).wf(),
            final(self).halted,
            final(self).trip_reason == Some(reason),
            final(self).halted_until == Some(now.saturating_add(old(self).config.cooldown_secs)),
            final(self).config == old(self).config,
            final(self).positions == old(self).positions,
            final(self).total_position == old(self).total_position,
            final(self).daily_pnl_cents == old(self).daily_pnl_cents,
            final(self).consecutive_errors == old(self).consecutive_errors,
    {
        self.halted = true;
        self.trip_reason = Some(reason);
        self.halted_until = Some(now.saturating_add(self.config.cooldown_secs));
    }

    /// Pre-trade admission of `contracts` more on market `pair_id` at `now`.
    /// A disabled breaker admits. Else, in order: a halt whose cooldown runs
    /// refuses with its reason (one whose cooldown is over is lifted); the
    /// market's cap, then the total cap, refuse a trade that would pass them;
    /// a day's loss at its limit refuses and halts; the rest is admitted.
    pub fn can_execute(&mut self, pair_id: &str, contracts: i64, now: u64) -> (r: Result<(), TripReason>)
        requires
            old(self).wf(),
        ensures
            final(self).wf(),
            final(self).config == old(self).config,
            final(self).positions@ == old(self).positions@,
            final(self).total_position == old(self).total_position,
            final(self).daily_pnl_cents == old(self).daily_pnl_cents,
            final(self).consecutive_errors == old(self).consecutive_errors,
            !old(self).config.enabled ==> r is Ok && !final(self).halted,
            old(self).cooling_at(now) ==> r == Err::<(), TripReason>(old(self).trip_reason.unwrap())
                && final(self).halted && final(self).trip_reason == old(self).trip_reason
                && final(self).halted_until == old(self).halted_until,
            old(self).config.enabled && !old(self).cooling_at(now) ==> admission_spec(
                r,
                final(self).halted,
                pair_id@,
                contracts,
                old(self).market_position(pair_id@),
                old(self).total_position,
                old(self).daily_pnl_cents,
                old(self).config,
            ),
    {
        if !self.config.enabled {
            return Ok(());
        }
        if self.halted {
            if now < self.halted_until.unwrap() {
                return Err(self.trip_reason.as_ref().unwrap().clone());
            }
            self.halted = false;
            self.trip_reason = None;
            self.halted_until = None;
        }
        let pos = self.position_of(pair_id);
        if pos as i128 + contracts as i128 > self.config.max_position_per_market as i128 {
            return Err(TripReason::MaxPositionPerMarket {
                market: pair_id.to_owned(),
                position: pos,
                limit: self.config.max_position_per_market,
            });
        }
        if self.total_position as i128 + contracts as i128 > self.config.max_total_position as i128 {
            return Err(TripReason::MaxTotalPosition {
                position: self.total_position,
                limit: self.config.max_total_position,
            });
        }
        if -(self.daily_pnl_cents as i128) >= self.config.max_daily_loss_cents as i128 {
            let loss = if self.daily_pnl_cents == i64::MIN { i64::MAX } else { -self.daily_pnl_cents };
            let reason = TripReason::MaxDailyLoss { loss_cents: loss, limit_cents: self.config.max_daily_loss_cents };
            let copy = reason.clone();
            self.trip(reason, now);
            return Err(copy);
        }
        Ok(())
    }

    /// Whether at `now` an enabled breaker is halted and its cooldown still runs.
    pub open spec fn cooling_at(&self, now: u64) -> bool {
        self.config.enabled && self.halted && (self.halted_until matches Some(u) && now < u)
    }

    /// Post-trade accounting: adds both legs to the market's and the total
    /// position, adds the realized result to the day's, clears the error run.
    /// Sums stop at the ends of `i64`.
    pub fn record_success(&mut self, pair_id: &str, yes_contracts: i64, no_contracts: i64, pnl_cents: i64)
        requires
            old(self).wf(),
        ensures
            final(self).wf(),
            final(self).config == old(self).config,
            final(self).market_position(pair_id@) == clamp_i64(
                old(self).market_position(pair_id@) + clamp_i64(yes_contracts + no_contracts),
            ),
            forall|id: Seq<char>| id != pair_id@ ==> #[trigger] final(self).market_position(id) == old(self).market_position(id),
            final(self).total_position == clamp_i64(old(self).total_position + clamp_i64(yes_contracts + no_contracts)),
            final(self).daily_pnl_cents == clamp_i64(old(self).daily_pnl_cents + pnl_cents),
            final(self).consecutive_errors == 0,
            final(self).halted == old(self).halted,
            final(self).trip_reason == old(self).trip_reason,
            final(self).halted_until == old(self).halted_until,
    {
        let added = sat_add(yes_contracts, no_contracts);
        match self.find(pair_id) {
            Some(k) => {
                let ghost before = self.positions@;
                let c = sat_add(self.positions[k].contracts, added);
                let e = MarketPosition { pair_id: self.positions[k].pair_id.clone(), contracts: c };
                self.positions.set(k, e);
                proof {
                    lemma_position_at(before, k as int, pair_id@);
                    assert(keys_unique(self.positions@));
                    lemma_position_at(self.positions@, k as int, pair_id@);
                    assert forall|id: Seq<char>| id != pair_id@ implies #[trigger] position_in(self.positions@, id) == position_in(before, id) by {
                        lemma_position_update(before, k as int, self.positions@[k as int], id);
                    }
                }
            },
            None => {
                let ghost before = self.positions@;
                proof {
                    lemma_position_absent(before, pair_id@);
                }
                self.positions.push(MarketPosition { pair_id: pair_id.to_owned(), contracts: added });
                proof {
                    assert(keys_unique(self.positions@));
                    lemma_position_at(self.positions@, before.len() as int, pair_id@);
                    assert forall|id: Seq<char>| id != pair_id@ implies #[trigger] position_in(self.positions@, id) == position_in(before, id) by {
                        lemma_position_push(before, self.positions@[before.len() as int], id);
                    }
                }
            },
        }
        self.total_position = sat_add(self.total_position, added);
        self.daily_pnl_cents = sat_add(self.daily_pnl_cents, pnl_cents);
        self.consecutive_errors = 0;
    }

    /// The breaker after one failed order at `now`.
    pub open spec fn after_error(self, now: u64) -> CircuitBreaker {
        let errors = self.consecutive_errors.saturating_add(1);
        if self.config.enabled && errors >= self.config.max_consecutive_errors {
            CircuitBreaker {
                consecutive_errors: errors,
                halted: true,
                trip_reason: Some(TripReason::ConsecutiveErrors { count: errors, max: self.config.max_consecutive_errors }),
                halted_until: Some(now.saturating_add(self.config.cooldown_secs)),
                ..self
            }
        } else {
            CircuitBreaker { consecutive_errors: errors, ..self }
        }
    }

    /// A failed order: lengthens the error run, and an enabled breaker halts
    /// at `now` once the run reaches the limit.
    pub fn record_error(&mut self, now: u64)
        requires
            old(self).wf(),
        ensures
            final(self).wf(),
            *final(self) == old(self).after_error(now),
    {
        self.consecutive_errors = self.consecutive_errors.saturating_add(1);
        if self.config.enabled && self.consecutive_errors >= self.config.max_consecutive_errors {
            let reason = TripReason::ConsecutiveErrors {
                count: self.consecutive_errors,
                max: self.config.max_consecutive_errors,
            };
            self.trip(reason, now);
        }
    }

    /// Clears the halt and the error run; positions and the day's result stay.
    pub fn reset(&mut self)
        requires
            old(self).wf(),
        ensures
            final(self).wf(),
            final(self).config == old(self).config,
            final(self).positions@ == old(self).positions@,
            final(self).total_position == old(self).total_position,
            final(self).daily_pnl_cents == old(self).daily_pnl_cents,
            final(self).consecutive_errors == 0,
            !final(self).halted,
            final(self).trip_reason is None,
            final(self).halted_until is None,
    {
        self.halted = false;
        self.trip_reason = None;
        self.halted_until = None;
        self.consecutive_errors = 0;
    }

    /// Starts a new trading day: the day's realized result goes back to 0.
    pub fn reset_daily(&mut self)
        requires
            old(self).wf(),
        ensures
            final(self).wf(),
            final(self).daily_pnl_cents == 0,
            final(self).config == old(self).config,
            final(self).positions@ == old(self).positions@,
            final(self).total_position == old(self).total_position,
            final(self).consecutive_errors == old(self).consecutive_errors,
            final(self).halted == old(self).halted,
            final(self).trip_reason == old(self).trip_reason,
            final(self).halted_until == old(self).halted_until,
    {
        self.daily_pnl_cents = 0;
    }

    /// A snapshot of the breaker's state.
    pub fn status(&self) -> (r: BreakerStatus)
        ensures
            r.enabled == self.config.enabled,
            r.halted == self.halted,
            r.trip_reason == self.trip_reason,
            r.consecutive_errors == self.consecutive_errors,
            r.total_position == self.total_position,
            r.daily_pnl_cents == self.daily_pnl_cents,
    {
        let trip_reason = match &self.trip_reason {
            Some(t) => Some(t.clone()),
            None => None,
        };
        BreakerStatus {
            enabled: self.config.enabled,
            halted: self.halted,
            trip_reason,
            consecutive_errors: self.consecutive_errors,
            total_position: self.total_position,
            daily_pnl_cents: self.daily_pnl_cents,
        }
    }
}

/// The breaker after `n` failed orders in a row, all at `now`.
pub open spec fn errors_after(b: CircuitBreaker, n: nat, now: u64) -> CircuitBreaker
    decreases n,
{
    if n == 0 {
        b
    } else {
        errors_after(b, (n - 1) as nat, now).after_error(now)
    }
}

proof fn lemma_errors_count(b: CircuitBreaker, n: nat, now: u64)
    ensures
        errors_after(b, n, now).config == b.config,
        errors_after(b, n, now).consecutive_errors >= (if n > u32::MAX { u32::MAX as nat } else { n }),
        b.halted ==> errors_after(b, n, now).halted,
    decreases n,
{
    if n > 0 {
        lemma_errors_count(b, (n - 1) as nat, now);
    }
}

/// An enabled breaker whose error limit is at least one is halted once as
/// many orders as the limit have failed in a row, and stays halted through
/// every further failure: only `reset` (or the end of the cooldown, at
/// admission) lets trading resume.
pub proof fn lemma_error_run_halts(b: CircuitBreaker, extra: nat, now: u64)
    requires
        b.config.enabled,
        b.config.max_consecutive_errors >= 1,
    ensures
        errors_after(b, b.config.max_consecutive_errors as nat, now).halted,
        errors_after(b, b.config.max_consecutive_errors as nat + extra, now).halted,
{
    let m = b.config.max_consecutive_errors as nat;
    lemma_errors_count(b, (m - 1) as nat, now);
    lemma_errors_count(b, m, now);
    let before = errors_after(b, (m - 1) as nat, now);
    assert(before.consecutive_errors.saturating_add(1) >= m);
    assert(errors_after(b, m, now) == before.after_error(now));
    lemma_errors_stay_halted(errors_after(b, m, now), extra, now);
    lemma_errors_split(b, m, extra, now);
}

proof fn lemma_errors_stay_halted(b: CircuitBreaker, n: nat, now: u64)
    requires
        b.halted,
    ensures
        errors_after(b, n, now).halted,
{
    lemma_errors_count(b, n, now);
}

proof fn lemma_errors_split(b: CircuitBreaker, m: nat, k: nat, now: u64)
    ensures
        errors_after(b, m + k, now) == errors_after(errors_after(b, m, now), k, now),
    decreases k,
{
    if k > 0 {
        lemma_errors_split(b, m, (k - 1) as nat, now);
        assert(errors_after(b, m + k, now) == errors_after(b, (m + k - 1) as nat, now).after_error(now));
    }
}

/// A disabled breaker never halts: no failure halts it and admission
/// refuses nothing (see `can_execute`).
pub proof fn lemma_disabled_never_halts(b: CircuitBreaker, n: nat, now: u64)
    requires
        b.wf(),
        !b.config.enabled,
    ensures
        !errors_after(b, n, now).halted,
        errors_after(b, n, now).config == b.config,
    decreases n,
{
    if n > 0 {
        lemma_disabled_never_halts(b, (n - 1) as nat, now);
    }
}

/// The outcome of admission once no running halt decides it: the market
/// cap, the total cap, then the day's loss (which also halts), else admitted.
pub open spec fn admission_spec(
    r: Result<(), TripReason>,
    halted_after: bool,
    id: Seq<char>,
    contracts: i64,
    pos: i64,
    total: i64,
    pnl: i64,
    config: CircuitBreakerConfig,
) -> bool {
    if pos + contracts > config.max_position_per_market {
        &&& r matches Err(TripReason::MaxPositionPerMarket { market, position, limit })
        &&& market@ == id
        &&& position == pos
        &&& limit == config.max_position_per_market
        &&& !halted_after
    } else if total + contracts > config.max_total_position {
        &&& r == Err::<(), TripReason>(TripReason::MaxTotalPosition { position: total, limit: config.max_total_position })
        &&& !halted_after
    } else if -pnl >= config.max_daily_loss_cents {
        &&& r == Err::<(), TripReason>(TripReason::MaxDailyLoss { loss_cents: clamp_i64(-pnl), limit_cents: config.max_daily_loss_cents })
        &&& halted_after
    } else {
        &&& r is Ok
        &&& !halted_after
    }
}

} // verus!
