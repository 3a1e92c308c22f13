use vstd::prelude::*;

use crate::circuit_breaker::{clamp_i64, sat_add};
use crate::discovery::current_unix_secs;
use crate::text::str_eq;

verus! {

/// Micro-dollars in one dollar: what one matched contract pays.
pub const MICROS_PER_DOLLAR: i64 = 1_000_000;

/// The most contracts that one leg may hold, either way.
pub const MAX_CONTRACTS: i64 = 1_000_000_000_000;

/// The highest unit price of a fill, in micro-dollars: one dollar.
pub const MAX_PRICE_MICROS: i64 = 1_000_000;

/// The largest cost basis or fee total, either way, in micro-dollars.
pub const MAX_COST_MICROS: i64 = 1_000_000_000_000_000_000;

/// The most positions that one ledger holds.
pub const MAX_POSITIONS: usize = 1_000_000;

/// `a / b` rounded down, for a positive `b`.
pub fn floor_div(a: i64, b: i64) -> (r: i64)
    requires
        b > 0,
    ensures
        r == a / b,
{
    if a >= 0 {
        let q: u64 = a as u64 / b as u64;
        proof {
            vstd::arithmetic::div_mod::lemma_fundamental_div_mod(a as int, b as int);
            vstd::arithmetic::div_mod::lemma_fundamental_div_mod(a as u64 as int, b as u64 as int);
            assert(q as int == (a as int) / (b as int));
        }
        q as i64
    } else {
        let na: u64 = (-(a as i128)) as u64;
        let q: u64 = (na + (b as u64) - 1) / (b as u64);
        proof {
            let bb = b as int;
            vstd::arithmetic::div_mod::lemma_fundamental_div_mod(na + bb - 1, bb);
            let nq = (na + bb - 1) / bb;
            let rem = (na + bb - 1) % bb;
            assert(q as int == nq);
            assert(nq <= na) by (nonlinear_arith)
                requires
                    na + bb - 1 == bb * nq + rem,
                    0 <= rem < bb,
                    bb >= 1,
                    na >= 1,
            ;
        }
        let r: i64 = -(q as i128) as i64;
        proof {
            let bb = b as int;
            let nq = (na + bb - 1) / bb;
            vstd::arithmetic::div_mod::lemma_fundamental_div_mod(na + bb - 1, bb);
            let rem = (na + bb - 1) % bb;
            assert(na + bb - 1 == bb * nq + rem);
            assert(bb * (-nq) == -(bb * nq)) by (nonlinear_arith);
            assert(a == bb * (-nq) + (bb - 1 - rem));
            assert(0 <= rem < bb);
            vstd::arithmetic::div_mod::lemma_fundamental_div_mod_converse(a as int, bb, -nq, bb - 1 - rem);
        }
        r
    }
}

/// One side of a position.
#[derive(Clone, Copy, Debug, PartialEq, Eq, Structural)]
pub struct PositionLeg {
    pub contracts: i64,
    /// The sum of contracts times unit price, in micro-dollars.
    pub cost_basis: i64,
    /// The cost per contract, rounded down, in micro-dollars.
    pub avg_price: i64,
}

impl PositionLeg {
    /// Within bounds; the average is the basis over the contracts while any
    /// are held, and basis and average are 0 once none are.
    pub open spec fn wf(&self) -> bool {
        &&& -MAX_CONTRACTS <= self.contracts <= MAX_CONTRACTS
        &&& -MAX_COST_MICROS <= self.cost_basis <= MAX_COST_MICROS
        &&& self.contracts > 0 ==> self.avg_price == (self.cost_basis as int) / (self.contracts as int)
        &&& self.contracts <= 0 ==> self.cost_basis == 0 && self.avg_price == 0
    }

    /// Whether a fill of `contracts` at `price` micro-dollars is in bounds.
    pub open spec fn fill_fits(&self, contracts: i64, price: i64) -> bool {
        &&& -MAX_CONTRACTS <= contracts <= MAX_CONTRACTS
        &&& 0 <= price <= MAX_PRICE_MICROS
        &&& -MAX_CONTRACTS <= self.contracts + contracts <= MAX_CONTRACTS
        &&& -MAX_COST_MICROS <= self.cost_basis + contracts * price <= MAX_COST_MICROS
    }

    /// The leg after a fill that fits.
    pub open spec fn after_fill(&self, contracts: i64, price: i64) -> PositionLeg {
        let c = (self.contracts + contracts) as i64;
        let cost = (self.cost_basis + contracts * price) as i64;
        if c > 0 {
            PositionLeg { contracts: c, cost_basis: cost, avg_price: ((cost as int) / (c as int)) as i64 }
        } else {
            PositionLeg { contracts: c, cost_basis: 0, avg_price: 0 }
        }
    }

    /// An empty leg.
    pub fn new() -> (r: Self)
        ensures
            r.wf(),
            r.contracts == 0,
            r.cost_basis == 0,
            r.avg_price == 0,
    {
        PositionLeg { contracts: 0, cost_basis: 0, avg_price: 0 }
    }

    /// Applies a fill of `contracts` (negative for a sale) at `price`
    /// micro-dollars each: contracts and basis add up, the average follows,
    /// and basis and average go to 0 once no contracts are held. A fill out
    /// of bounds leaves the leg as it is and returns false.
    pub fn add(&mut self, contracts: i64, price: i64) -> (r: bool)
        requires
            old(self).wf(),
        ensures
            final(self).wf(),
            r == old(self).fill_fits(contracts, price),
            r ==> *final(self) == old(self).after_fill(contracts, price),
            !r ==> *final(self) == *old(self),
    {
        if contracts < -MAX_CONTRACTS || contracts > MAX_CONTRACTS || price < 0 || price > MAX_PRICE_MICROS {
            return false;
        }
        let c = self.contracts + contracts;
        if c < -MAX_CONTRACTS || c > MAX_CONTRACTS {
            return false;
        }
        proof {
            assert(-MAX_CONTRACTS * MAX_PRICE_MICROS <= contracts * price <= MAX_CONTRACTS * MAX_PRICE_MICROS) by (nonlinear_arith)
                requires
                    -MAX_CONTRACTS <= contracts <= MAX_CONTRACTS,
                    0 <= price <= MAX_PRICE_MICROS,
            ;
        }
        let cost = self.cost_basis + contracts * price;
        if cost < -MAX_COST_MICROS || cost > MAX_COST_MICROS {
            return false;
        }
        self.contracts = c;
        if c > 0 {
            self.cost_basis = cost;
            self.avg_price = floor_div(cost, c);
        } else {
            self.cost_basis = 0;
            self.avg_price = 0;
        }
        true
    }
}

/// While a leg holds contracts, its average price times its contracts comes
/// within one contract's worth below its cost basis: the average is the
/// basis over the contracts, rounded down to the micro-dollar.
pub proof fn lemma_avg_price_exact(leg: PositionLeg)
    requires
        leg.wf(),
        leg.contracts > 0,
    ensures
        leg.avg_price * leg.contracts <= leg.cost_basis < leg.avg_price * leg.contracts + leg.contracts,
{
    vstd::arithmetic::div_mod::lemma_fundamental_div_mod(leg.cost_basis as int, leg.contracts as int);
    assert(leg.avg_price * leg.contracts == leg.contracts * leg.avg_price) by (nonlinear_arith);
}

/// The side of a binary market that a fill is on.
#[derive(Clone, Copy, Debug, PartialEq, Eq, Structural)]
pub enum Side {
    Yes,
    No,
}

/// Whether a position still waits for its market's outcome.
#[derive(Clone, Copy, Debug, PartialEq, Eq, Structural)]
pub enum PositionStatus {
    Open,
    Resolved,
}

impl PositionStatus {
    /// The lower-case name of the status.
    pub fn as_str(&self) -> &'static str {
        match self {
            PositionStatus::Open => "open",
            PositionStatus::Resolved => "resolved",
        }
    }
}

/// One leg of a trade as the ledger records it.
pub struct FillRecord {
    pub market_id: String,
    pub description: String,
    pub venue: String,
    pub side: Side,
    /// Positive for a buy, negative for a sale or a close.
    pub contracts: i64,
    /// Unit price in micro-dollars.
    pub price: i64,
    /// Fees in micro-dollars.
    pub fees: i64,
    pub order_id: String,
    pub timestamp_secs: u64,
}

impl FillRecord {
    /// A fill stamped with the current time.
    pub fn new(
        market_id: &str,
        description: &str,
        venue: &str,
        side: Side,
        contracts: i64,
        price: i64,
        fees: i64,
        order_id: &str,
    ) -> (r: Self)
        ensures
            r.market_id@ == market_id@,
            r.description@ == description@,
            r.venue@ == venue@,
            r.side == side,
            r.contracts == contracts,
            r.price == price,
            r.fees == fees,
            r.order_id@ == order_id@,
    {
        FillRecord {
            market_id: market_id.to_owned(),
            description: description.to_owned(),
            venue: venue.to_owned(),
            side,
            contracts,
            price,
            fees,
            order_id: order_id.to_owned(),
            timestamp_secs: current_unix_secs(),
        }
    }
}

/// The position held in one market: both legs, fees, status and, once
/// resolved, the realized result.
pub struct ArbPosition {
    pub pair_id: String,
    pub description: String,
    pub poly_yes: PositionLeg,
    pub poly_no: PositionLeg,
    /// Fees in micro-dollars.
    pub total_fees: i64,
    pub status: PositionStatus,
    /// Realized result in micro-dollars, set on resolution.
    pub realized_pnl: Option<i64>,
}

pub open spec fn min_spec(a: int, b: int) -> int {
    if a <= b { a } else { b }
}

pub open spec fn abs_spec(a: int) -> int {
    if a >= 0 { a } else { -a }
}

impl Clone for ArbPosition {
    fn clone(&self) -> (r: Self)
        ensures
            r == *self,
    {
        ArbPosition {
            pair_id: self.pair_id.clone(),
            description: self.description.clone(),
            poly_yes: self.poly_yes,
            poly_no: self.poly_no,
            total_fees: self.total_fees,
            status: self.status,
            realized_pnl: self.realized_pnl,
        }
    }
}

impl ArbPosition {
    pub open spec fn wf(&self) -> bool {
        &&& self.poly_yes.wf()
        &&& self.poly_no.wf()
        &&& -MAX_COST_MICROS <= self.total_fees <= MAX_COST_MICROS
        &&& (self.status == PositionStatus::Resolved <==> self.realized_pnl is Some)
    }

    pub open spec fn matched_spec(&self) -> int {
        min_spec(self.poly_yes.contracts as int, self.poly_no.contracts as int)
    }

    pub open spec fn total_cost_spec(&self) -> int {
        self.poly_yes.cost_basis + self.poly_no.cost_basis + self.total_fees
    }

    /// One dollar per matched contract, less what the matched contracts cost
    /// at each leg's average price, less fees.
    pub open spec fn guaranteed_profit_spec(&self) -> int {
        let m = self.matched_spec();
        m * MICROS_PER_DOLLAR - m * self.poly_yes.avg_price - m * self.poly_no.avg_price - self.total_fees
    }

    /// An open position with empty legs.
    pub fn new(pair_id: &str, description: &str) -> (r: Self)
        ensures
            r.wf(),
            r.pair_id@ == pair_id@,
            r.description@ == description@,
            r.poly_yes == (PositionLeg { contracts: 0, cost_basis: 0, avg_price: 0 }),
            r.poly_no == (PositionLeg { contracts: 0, cost_basis: 0, avg_price: 0 }),
            r.total_fees == 0,
            r.status == PositionStatus::Open,
            (r.realized_pnl is None),
    {
        ArbPosition {
            pair_id: pair_id.to_owned(),
            description: description.to_owned(),
            poly_yes: PositionLeg::new(),
            poly_no: PositionLeg::new(),
            total_fees: 0,
            status: PositionStatus::Open,
            realized_pnl: None,
        }
    }

    /// Contracts held on both sides: the smaller leg.
    pub fn matched_contracts(&self) -> (r: i64)
        ensures
            r == min_spec(self.poly_yes.contracts as int, self.poly_no.contracts as int),
    {
        if self.poly_yes.contracts <= self.poly_no.contracts {
            self.poly_yes.contracts
        } else {
            self.poly_no.contracts
        }
    }

    /// Contracts on one side without a hedge: the legs' difference.
    pub fn unmatched_exposure(&self) -> (r: i64)
        requires
            self.wf(),
        ensures
            r == abs_spec(self.poly_yes.contracts - self.poly_no.contracts),
    {
        let d = self.poly_yes.contracts - self.poly_no.contracts;
        if d >= 0 {
            d
        } else {
            -d
        }
    }

    /// Both legs' cost basis plus fees, in micro-dollars.
    pub fn total_cost(&self) -> (r: i64)
        requires
            self.wf(),
        ensures
            r == self.total_cost_spec(),
    {
        self.poly_yes.cost_basis + self.poly_no.cost_basis + self.total_fees
    }

    /// The profit that the matched contracts lock in, in micro-dollars.
    pub fn guaranteed_profit(&self) -> (r: i128)
        requires
            self.wf(),
        ensures
            r == self.guaranteed_profit_spec(),
    {
        let m = self.matched_contracts() as i128;
        proof {
            assert(-MAX_CONTRACTS * MICROS_PER_DOLLAR <= m * MICROS_PER_DOLLAR <= MAX_CONTRACTS * MICROS_PER_DOLLAR) by (nonlinear_arith)
                requires
                    -MAX_CONTRACTS <= m <= MAX_CONTRACTS,
            ;
            lemma_leg_avg_bound(self.poly_yes);
            lemma_leg_avg_bound(self.poly_no);
            assert(-MAX_CONTRACTS * MAX_COST_MICROS <= m * self.poly_yes.avg_price <= MAX_CONTRACTS * MAX_COST_MICROS) by (nonlinear_arith)
                requires
                    -MAX_CONTRACTS <= m <= MAX_CONTRACTS,
                    -MAX_COST_MICROS <= self.poly_yes.avg_price <= MAX_COST_MICROS,
            ;
            assert(-MAX_CONTRACTS * MAX_COST_MICROS <= m * self.poly_no.avg_price <= MAX_CONTRACTS * MAX_COST_MICROS) by (nonlinear_arith)
                requires
                    -MAX_CONTRACTS <= m <= MAX_CONTRACTS,
                    -MAX_COST_MICROS <= self.poly_no.avg_price <= MAX_COST_MICROS,
            ;
        }
        let a = m * (MICROS_PER_DOLLAR as i128);
        let b = m * (self.poly_yes.avg_price as i128);
        let c = m * (self.poly_no.avg_price as i128);
        a - b - c - self.total_fees as i128
    }

    /// The realized result of resolving now: one dollar per contract held
    /// on the winning side, less the total cost. On a balanced position that
    /// is one dollar per matched contract, whichever side won; an unmatched
    /// excess pays only if its side won.
    pub open spec fn realized_spec(&self, yes_won: bool) -> int {
        let won = if yes_won { self.poly_yes.contracts } else { self.poly_no.contracts };
        won * MICROS_PER_DOLLAR - self.total_cost_spec()
    }

    /// Resolves an open position: its realized result is what the winning
    /// side pays less the total cost. A resolved one stays as it is.
    pub fn resolve(&mut self, yes_won: bool)
        requires
            old(self).wf(),
        ensures
            final(self).wf(),
            final(self).pair_id == old(self).pair_id,
            final(self).description == old(self).description,
            final(self).poly_yes == old(self).poly_yes,
            final(self).poly_no == old(self).poly_no,
            final(self).total_fees == old(self).total_fees,
            final(self).status == PositionStatus::Resolved,
            old(self).status == PositionStatus::Open ==> final(self).realized_pnl == Some(old(self).realized_spec(yes_won) as i64),
            old(self).status == PositionStatus::Resolved ==> final(self).realized_pnl == old(self).realized_pnl,
    {
        if self.status == PositionStatus::Resolved {
            return;
        }
        let won = if yes_won { self.poly_yes.contracts } else { self.poly_no.contracts };
        let pnl = won * MICROS_PER_DOLLAR - self.total_cost();
        self.realized_pnl = Some(pnl);
        self.status = PositionStatus::Resolved;
    }

    /// Whether a fill on `side` fits the leg's bounds and the fee bound.
    pub open spec fn fill_fits(&self, side: Side, contracts: i64, price: i64, fees: i64) -> bool {
        &&& match side {
            Side::Yes => self.poly_yes.fill_fits(contracts, price),
            Side::No => self.poly_no.fill_fits(contracts, price),
        }
        &&& -MAX_COST_MICROS <= fees <= MAX_COST_MICROS
        &&& -MAX_COST_MICROS <= self.total_fees + fees <= MAX_COST_MICROS
    }

    /// The position after a fill that fits.
    pub open spec fn after_fill(self, side: Side, contracts: i64, price: i64, fees: i64) -> ArbPosition {
        match side {
            Side::Yes => ArbPosition {
                poly_yes: self.poly_yes.after_fill(contracts, price),
                total_fees: (self.total_fees + fees) as i64,
                ..self
            },
            Side::No => ArbPosition {
                poly_no: self.poly_no.after_fill(contracts, price),
                total_fees: (self.total_fees + fees) as i64,
                ..self
            },
        }
    }

    /// Applies a fill to the leg of its side and adds its fees; a fill out
    /// of bounds leaves the position as it is and returns false.
    pub fn add_fill(&mut self, side: Side, contracts: i64, price: i64, fees: i64) -> (r: bool)
        requires
            old(self).wf(),
        ensures
            final(self).wf(),
            r == old(self).fill_fits(side, contracts, price, fees),
            r ==> *final(self) == old(self).after_fill(side, contracts, price, fees),
            !r ==> *final(self) == *old(self),
    {
        if fees < -MAX_COST_MICROS || fees > MAX_COST_MICROS {
            return false;
        }
        let f = self.total_fees + fees;
        if f < -MAX_COST_MICROS || f > MAX_COST_MICROS {
            return false;
        }
        let ok = match side {
            Side::Yes => self.poly_yes.add(contracts, price),
            Side::No => self.poly_no.add(contracts, price),
        };
        if ok {
            self.total_fees = f;
        }
        ok
    }
}

/// A balanced position resolves to the same result whichever side wins:
/// one dollar per matched contract less the total cost.
pub proof fn lemma_balanced_resolution(p: ArbPosition)
    requires
        p.poly_yes.contracts == p.poly_no.contracts,
    ensures
        p.realized_spec(true) == p.realized_spec(false),
        p.realized_spec(true) == p.matched_spec() * MICROS_PER_DOLLAR - p.total_cost_spec(),
{
}

proof fn lemma_leg_avg_bound(leg: PositionLeg)
    requires
        leg.wf(),
    ensures
        -MAX_COST_MICROS <= leg.avg_price <= MAX_COST_MICROS,
{
    if leg.contracts > 0 {
        vstd::arithmetic::div_mod::lemma_fundamental_div_mod(leg.cost_basis as int, leg.contracts as int);
        let q = leg.avg_price as int;
        let c = leg.contracts as int;
        let rem = (leg.cost_basis as int) % c;
        assert(leg.cost_basis == c * q + rem);
        assert(-MAX_COST_MICROS <= q <= MAX_COST_MICROS) by (nonlinear_arith)
            requires
                leg.cost_basis == c * q + rem,
                0 <= rem < c,
                c >= 1,
                -MAX_COST_MICROS <= leg.cost_basis <= MAX_COST_MICROS,
        ;
    }
}

/// The position that `s` holds for `id`: the last one for it.
pub open spec fn find_position(s: Seq<ArbPosition>, id: Seq<char>) -> Option<ArbPosition>
    decreases s.len(),
{
    if s.len() == 0 {
        None
    } else if s.last().pair_id@ == id {
        Some(s.last())
    } else {
        find_position(s.drop_last(), id)
    }
}

/// No market appears twice.
pub open spec fn ids_unique(s: Seq<ArbPosition>) -> bool {
    forall|i: int, j: int| 0 <= i < s.len() && 0 <= j < s.len() && i != j ==> (#[trigger] s[i]).pair_id@ != (#[trigger] s[j]).pair_id@
}

proof fn lemma_find_absent(s: Seq<ArbPosition>, id: Seq<char>)
    requires
        forall|i: int| 0 <= i < s.len() ==> (#[trigger] s[i]).pair_id@ != id,
    ensures
        find_position(s, id) is None,
    decreases s.len(),
{
    if s.len() > 0 {
        lemma_find_absent(s.drop_last(), id);
    }
}

pub(crate) proof fn lemma_position_wf(s: Seq<ArbPosition>, id: Seq<char>)
    requires
        forall|i: int| 0 <= i < s.len() ==> (#[trigger] s[i]).wf(),
    ensures
        find_position(s, id) matches Some(p) ==> p.wf(),
    decreases s.len(),
{
    if s.len() > 0 {
        assert(s.last() == s[s.len() - 1]);
        assert forall|i: int| 0 <= i < s.drop_last().len() implies (#[trigger] s.drop_last()[i]).wf() by {
            assert(s.drop_last()[i] == s[i]);
        }
        lemma_position_wf(s.drop_last(), id);
    }
}

proof fn lemma_find_at(s: Seq<ArbPosition>, k: int, id: Seq<char>)
    requires
        ids_unique(s),
        0 <= k < s.len(),
        s[k].pair_id@ == id,
    ensures
        find_position(s, id) == Some(s[k]),
    decreases s.len(),
{
    if k < s.len() - 1 {
        assert(s[s.len() - 1].pair_id@ != id);
        assert(ids_unique(s.drop_last()));
        lemma_find_at(s.drop_last(), k, id);
    }
}

proof fn lemma_find_update(s: Seq<ArbPosition>, k: int, e: ArbPosition, id: Seq<char>)
    requires
        0 <= k < s.len(),
        e.pair_id@ == s[k].pair_id@,
        s[k].pair_id@ != id,
    ensures
        find_position(s.update(k, e), id) == find_position(s, id),
    decreases s.len(),
{
    if k < s.len() - 1 {
        assert(s.update(k, e).drop_last() =~= s.drop_last().update(k, e));
        lemma_find_update(s.drop_last(), k, e, id);
    } else {
        assert(s.update(k, e).drop_last() =~= s.drop_last());
    }
}

/// The empty open position that a first fill of a market starts from.
pub open spec fn fresh_for(fill: &FillRecord) -> ArbPosition {
    ArbPosition {
        pair_id: fill.market_id,
        description: fill.description,
        poly_yes: PositionLeg { contracts: 0, cost_basis: 0, avg_price: 0 },
        poly_no: PositionLeg { contracts: 0, cost_basis: 0, avg_price: 0 },
        total_fees: 0,
        status: PositionStatus::Open,
        realized_pnl: None,
    }
}

/// `q` is the position that the first fill `fill` of a market opens.
pub open spec fn opened_by(q: Option<ArbPosition>, fill: &FillRecord) -> bool {
    let after = fresh_for(fill).after_fill(fill.side, fill.contracts, fill.price, fill.fees);
    match q {
        Some(q) => {
            &&& q.pair_id@ == fill.market_id@
            &&& q.description@ == fill.description@
            &&& q.poly_yes == after.poly_yes
            &&& q.poly_no == after.poly_no
            &&& q.total_fees == fill.fees
            &&& q.status == PositionStatus::Open
            &&& q.realized_pnl is None
        },
        None => false,
    }
}

/// `q` is what a round of `yes_fill` then `no_fill` makes of the position
/// `before` (a fresh one where there was none).
pub open spec fn round_applied(before: Option<ArbPosition>, q: ArbPosition, yes_fill: &FillRecord, no_fill: &FillRecord) -> bool {
    let start = match before {
        Some(p) => p,
        None => fresh_for(yes_fill),
    };
    let after = start.after_fill(Side::Yes, yes_fill.contracts, yes_fill.price, yes_fill.fees).after_fill(
        Side::No,
        no_fill.contracts,
        no_fill.price,
        no_fill.fees,
    );
    &&& start.fill_fits(Side::Yes, yes_fill.contracts, yes_fill.price, yes_fill.fees)
    &&& start.after_fill(Side::Yes, yes_fill.contracts, yes_fill.price, yes_fill.fees).fill_fits(
        Side::No,
        no_fill.contracts,
        no_fill.price,
        no_fill.fees,
    )
    &&& q.pair_id@ == start.pair_id@
    &&& q.poly_yes == after.poly_yes
    &&& q.poly_no == after.poly_no
    &&& q.total_fees == after.total_fees
    &&& q.status == start.status
}

/// The position that a round starts from: the market's own, or a fresh one.
pub open spec fn round_start(before: Option<ArbPosition>, yes_fill: &FillRecord) -> ArbPosition {
    match before {
        Some(p) => p,
        None => fresh_for(yes_fill),
    }
}

/// Whether a round fits: room for its position, and both fills in bounds.
pub open spec fn round_fits(before: Option<ArbPosition>, count: nat, yes_fill: &FillRecord, no_fill: &FillRecord) -> bool {
    let start = round_start(before, yes_fill);
    &&& (before is Some || count < MAX_POSITIONS)
    &&& start.fill_fits(Side::Yes, yes_fill.contracts, yes_fill.price, yes_fill.fees)
    &&& start.after_fill(Side::Yes, yes_fill.contracts, yes_fill.price, yes_fill.fees).fill_fits(
        Side::No,
        no_fill.contracts,
        no_fill.price,
        no_fill.fees,
    )
}

/// A round was recorded: the position exists and holds what the round made of it.
pub open spec fn round_recorded(before: Option<ArbPosition>, after: Option<ArbPosition>, yes_fill: &FillRecord, no_fill: &FillRecord) -> bool {
    match after {
        Some(q) => round_applied(before, q, yes_fill, no_fill),
        None => false,
    }
}

/// A round that adds the same number of contracts to both legs keeps the
/// difference of the legs: a balanced position stays balanced.
pub proof fn lemma_round_keeps_balance(p: ArbPosition, contracts: i64, yes_price: i64, no_price: i64, yes_fees: i64, no_fees: i64)
    requires
        p.wf(),
        p.fill_fits(Side::Yes, contracts, yes_price, yes_fees),
        p.after_fill(Side::Yes, contracts, yes_price, yes_fees).fill_fits(Side::No, contracts, no_price, no_fees),
    ensures
        ({
            let q = p.after_fill(Side::Yes, contracts, yes_price, yes_fees).after_fill(Side::No, contracts, no_price, no_fees);
            q.poly_yes.contracts - q.poly_no.contracts == p.poly_yes.contracts - p.poly_no.contracts
        }),
{
}

/// How many more YES than NO contracts a position holds (0 for none).
pub open spec fn leg_gap(q: Option<ArbPosition>) -> int {
    match q {
        Some(p) => p.poly_yes.contracts - p.poly_no.contracts,
        None => 0,
    }
}

pub open spec fn is_open(q: Option<ArbPosition>) -> bool {
    match q {
        Some(p) => p.status == PositionStatus::Open,
        None => false,
    }
}

/// Totals over the open positions.
pub struct PositionSummary {
    pub open_positions: usize,
    /// Contracts on both legs, summed.
    pub total_contracts: i128,
    /// Total cost, summed, in micro-dollars.
    pub total_cost_basis: i128,
    pub total_unmatched_exposure: i128,
    /// Guaranteed profit, summed, in micro-dollars.
    pub total_guaranteed_profit: i128,
    pub daily_realized_pnl: i64,
    pub all_time_pnl: i64,
}

/// The quantities that a summary adds up over open positions.
#[derive(Clone, Copy, Debug, PartialEq, Eq, Structural)]
pub enum SummaryMetric {
    Count,
    Contracts,
    Cost,
    Exposure,
    Profit,
}

/// What one position adds to a summary's metric `k`.
pub open spec fn metric_of(p: ArbPosition, k: SummaryMetric) -> int {
    match k {
        SummaryMetric::Count => 1,
        SummaryMetric::Contracts => p.poly_yes.contracts + p.poly_no.contracts,
        SummaryMetric::Cost => p.total_cost_spec(),
        SummaryMetric::Exposure => abs_spec(p.poly_yes.contracts - p.poly_no.contracts),
        SummaryMetric::Profit => p.guaranteed_profit_spec(),
    }
}

/// The bound on what one well-formed position adds to metric `k`.
pub open spec fn metric_bound(k: SummaryMetric) -> int {
    match k {
        SummaryMetric::Count => 1,
        SummaryMetric::Contracts => 2 * MAX_CONTRACTS,
        SummaryMetric::Cost => 3 * MAX_COST_MICROS,
        SummaryMetric::Exposure => 2 * MAX_CONTRACTS,
        SummaryMetric::Profit => profit_bound(),
    }
}

/// The sum of metric `k` over the open positions of `s`.
pub open spec fn open_sum(s: Seq<ArbPosition>, k: SummaryMetric) -> int
    decreases s.len(),
{
    if s.len() == 0 {
        0
    } else {
        open_sum(s.drop_last(), k) + if s.last().status == PositionStatus::Open { metric_of(s.last(), k) } else { 0 }
    }
}

/// The bound on the guaranteed profit of one position.
pub open spec fn profit_bound() -> int {
    4 * MAX_CONTRACTS * MAX_COST_MICROS
}

proof fn lemma_profit_bound(p: ArbPosition)
    requires
        p.wf(),
    ensures
        -profit_bound() <= p.guaranteed_profit_spec() <= profit_bound(),
{
    lemma_leg_avg_bound(p.poly_yes);
    lemma_leg_avg_bound(p.poly_no);
    let m = p.matched_spec();
    assert(-MAX_CONTRACTS <= m <= MAX_CONTRACTS);
    assert(-MAX_CONTRACTS * MAX_COST_MICROS <= m * p.poly_yes.avg_price <= MAX_CONTRACTS * MAX_COST_MICROS) by (nonlinear_arith)
        requires
            -MAX_CONTRACTS <= m <= MAX_CONTRACTS,
            -MAX_COST_MICROS <= p.poly_yes.avg_price <= MAX_COST_MICROS,
    ;
    assert(-MAX_CONTRACTS * MAX_COST_MICROS <= m * p.poly_no.avg_price <= MAX_CONTRACTS * MAX_COST_MICROS) by (nonlinear_arith)
        requires
            -MAX_CONTRACTS <= m <= MAX_CONTRACTS,
            -MAX_COST_MICROS <= p.poly_no.avg_price <= MAX_COST_MICROS,
    ;
    assert(-MAX_CONTRACTS * MICROS_PER_DOLLAR <= m * MICROS_PER_DOLLAR <= MAX_CONTRACTS * MICROS_PER_DOLLAR) by (nonlinear_arith)
        requires
            -MAX_CONTRACTS <= m <= MAX_CONTRACTS,
    ;
}

proof fn lemma_metric_bound(p: ArbPosition, k: SummaryMetric)
    requires
        p.wf(),
    ensures
        -metric_bound(k) <= metric_of(p, k) <= metric_bound(k),
{
    lemma_profit_bound(p);
}

proof fn lemma_open_sum_bound(s: Seq<ArbPosition>, k: SummaryMetric)
    requires
        forall|i: int| 0 <= i < s.len() ==> (#[trigger] s[i]).wf(),
    ensures
        -(s.len() * metric_bound(k)) <= open_sum(s, k) <= s.len() * metric_bound(k),
    decreases s.len(),
{
    if s.len() > 0 {
        let b = metric_bound(k);
        assert forall|i: int| 0 <= i < s.drop_last().len() implies (#[trigger] s.drop_last()[i]).wf() by {
            assert(s.drop_last()[i] == s[i]);
        }
        lemma_open_sum_bound(s.drop_last(), k);
        lemma_metric_bound(s[s.len() - 1], k);
        assert((s.len() - 1) * b + b == s.len() * b) by (nonlinear_arith);
    }
}

proof fn lemma_open_sum_fits(s: Seq<ArbPosition>, k: SummaryMetric)
    requires
        s.len() <= MAX_POSITIONS,
        forall|i: int| 0 <= i < s.len() ==> (#[trigger] s[i]).wf(),
    ensures
        -(MAX_POSITIONS * metric_bound(k)) <= open_sum(s, k) <= MAX_POSITIONS * metric_bound(k),
{
    lemma_open_sum_bound(s, k);
    let b = metric_bound(k);
    assert(b >= 0);
    assert(s.len() * b <= MAX_POSITIONS * b) by (nonlinear_arith)
        requires
            s.len() <= MAX_POSITIONS,
            b >= 0,
    ;
}

/// The ledger: one position per market, and the realized results of the
/// day and of all time, in micro-dollars.
pub struct PositionTracker {
    pub positions: Vec<ArbPosition>,
    pub daily_realized_pnl: i64,
    pub all_time_pnl: i64,
}

impl PositionTracker {
    pub open spec fn wf(&self) -> bool {
        &&& self.positions@.len() <= MAX_POSITIONS
        &&& ids_unique(self.positions@)
        &&& forall|i: int| 0 <= i < self.positions@.len() ==> (#[trigger] self.positions@[i]).wf()
    }

    /// The position of market `id`.
    pub open spec fn position(&self, id: Seq<char>) -> Option<ArbPosition> {
        find_position(self.positions@, id)
    }

    /// An empty ledger.
    pub fn new() -> (r: Self)
        ensures
            r.wf(),
            r.positions@.len() == 0,
            r.daily_realized_pnl == 0,
            r.all_time_pnl == 0,
    {
        PositionTracker { positions: Vec::new(), daily_realized_pnl: 0, all_time_pnl: 0 }
    }

    fn find(&self, pair_id: &str) -> (r: Option<usize>)
        ensures
            r matches Some(k) ==> k < self.positions@.len() && self.positions@[k as int].pair_id@ == pair_id@,
            r is None ==> forall|i: int| 0 <= i < self.positions@.len() ==> (#[trigger] self.positions@[i]).pair_id@ != pair_id@,
    {
        let mut i: usize = 0;
        while i < self.positions.len()
            invariant
                0 <= i <= self.positions@.len(),
                forall|j: int| 0 <= j < i ==> (#[trigger] self.positions@[j]).pair_id@ != pair_id@,
            decreases self.positions@.len() - i,
        {
            if str_eq(self.positions[i].pair_id.as_str(), pair_id) {
                return Some(i);
            }
            i = i + 1;
        }
        None
    }

    /// The position of market `pair_id`, if the ledger has one.
    pub fn get(&self, pair_id: &str) -> (r: Option<&ArbPosition>)
        requires
            self.wf(),
        ensures
            r matches Some(p) ==> self.position(pair_id@) == Some(*p),
            r is None ==> self.position(pair_id@) is None,
    {
        match self.find(pair_id) {
            Some(k) => {
                proof {
                    lemma_find_at(self.positions@, k as int, pair_id@);
                }
                Some(&self.positions[k])
            },
            None => {
                proof {
                    lemma_find_absent(self.positions@, pair_id@);
                }
                None
            },
        }
    }

    /// Records a fill on the position of its market, opening one (with the
    /// fill's description) if there is none. Returns false, with the ledger
    /// unchanged, when the fill does not fit the position's bounds or a new
    /// position would pass the ledger's size.
    pub fn record_fill(&mut self, fill: &FillRecord) -> (r: bool)
        requires
            old(self).wf(),
        ensures
            final(self).wf(),
            final(self).daily_realized_pnl == old(self).daily_realized_pnl,
            final(self).all_time_pnl == old(self).all_time_pnl,
            forall|id: Seq<char>| id != fill.market_id@ ==> #[trigger] final(self).position(id) == old(self).position(id),
            old(self).position(fill.market_id@) matches Some(p) ==> {
                &&& r == p.fill_fits(fill.side, fill.contracts, fill.price, fill.fees)
                &&& r ==> final(self).position(fill.market_id@) == Some(p.after_fill(fill.side, fill.contracts, fill.price, fill.fees))
            },
            old(self).position(fill.market_id@) is None ==> {
                &&& r == (old(self).positions@.len() < MAX_POSITIONS && fresh_for(fill).fill_fits(fill.side, fill.contracts, fill.price, fill.fees))
                &&& r ==> opened_by(final(self).position(fill.market_id@), fill)
            },
            !r ==> final(self).positions@ == old(self).positions@,
    {
        let ghost before = self.positions@;
        let ghost id = fill.market_id@;
        match self.find(fill.market_id.as_str()) {
            Some(k) => {
                proof {
                    lemma_find_at(before, k as int, id);
                }
                let mut p = self.positions[k].clone();
                let ok = p.add_fill(fill.side, fill.contracts, fill.price, fill.fees);
                if ok {
                    self.positions.set(k, p);
                    proof {
                        assert(ids_unique(self.positions@));
                        lemma_find_at(self.positions@, k as int, id);
                        assert forall|other: Seq<char>| other != id implies #[trigger] find_position(self.positions@, other) == find_position(before, other) by {
                            lemma_find_update(before, k as int, self.positions@[k as int], other);
                        }
                    }
                }
                ok
            },
            None => {
                proof {
                    lemma_find_absent(before, id);
                }
                if self.positions.len() >= MAX_POSITIONS {
                    return false;
                }
                let mut p = ArbPosition::new(fill.market_id.as_str(), fill.description.as_str());
                let ok = p.add_fill(fill.side, fill.contracts, fill.price, fill.fees);
                if ok {
                    self.positions.push(p);
                    proof {
                        assert(ids_unique(self.positions@));
                        assert(self.positions@.drop_last() =~= before);
                        assert forall|other: Seq<char>| other != id implies #[trigger] find_position(self.positions@, other) == find_position(before, other) by {
                        }
                    }
                }
                ok
            },
        }
    }

    /// Records the two legs of one round as one batch: both fills go to the
    /// position of their market, or neither does (false, ledger unchanged).
    pub fn record_round(&mut self, yes_fill: &FillRecord, no_fill: &FillRecord) -> (r: bool)
        requires
            old(self).wf(),
            yes_fill.market_id@ == no_fill.market_id@,
            yes_fill.side == Side::Yes,
            no_fill.side == Side::No,
        ensures
            final(self).wf(),
            final(self).daily_realized_pnl == old(self).daily_realized_pnl,
            final(self).all_time_pnl == old(self).all_time_pnl,
            forall|id: Seq<char>| id != yes_fill.market_id@ ==> #[trigger] final(self).position(id) == old(self).position(id),
            r == round_fits(old(self).position(yes_fill.market_id@), old(self).positions@.len(), yes_fill, no_fill),
            !r ==> final(self).positions@ == old(self).positions@,
            r ==> round_recorded(old(self).position(yes_fill.market_id@), final(self).position(yes_fill.market_id@), yes_fill, no_fill),
    {
        let ghost before = self.positions@;
        let ghost id = yes_fill.market_id@;
        let found = self.find(yes_fill.market_id.as_str());
        let mut p = match found {
            Some(k) => self.positions[k].clone(),
            None => ArbPosition::new(yes_fill.market_id.as_str(), yes_fill.description.as_str()),
        };
        proof {
            match found {
                Some(k) => lemma_find_at(before, k as int, id),
                None => lemma_find_absent(before, id),
            }
        }
        if found.is_none() && self.positions.len() >= MAX_POSITIONS {
            return false;
        }
        if !p.add_fill(Side::Yes, yes_fill.contracts, yes_fill.price, yes_fill.fees) {
            return false;
        }
        if !p.add_fill(Side::No, no_fill.contracts, no_fill.price, no_fill.fees) {
            return false;
        }
        match found {
            Some(k) => {
                proof {
                    lemma_find_at(before, k as int, id);
                }
                self.positions.set(k, p);
                proof {
                    assert(ids_unique(self.positions@));
                    lemma_find_at(self.positions@, k as int, id);
                    assert forall|other: Seq<char>| other != id implies #[trigger] find_position(self.positions@, other) == find_position(before, other) by {
                        lemma_find_update(before, k as int, self.positions@[k as int], other);
                    }
                }
            },
            None => {
                proof {
                    lemma_find_absent(before, id);
                }
                self.positions.push(p);
                proof {
                    assert(ids_unique(self.positions@));
                    assert(self.positions@.drop_last() =~= before);
                }
            },
        }
        true
    }

    /// Resolves the open position of market `pair_id` and adds its realized
    /// result to the day's and to all time's (sums stop at the ends of
    /// `i64`). Returns false, with nothing changed, where there is no open
    /// position for it.
    pub fn resolve(&mut self, pair_id: &str, yes_won: bool) -> (r: bool)
        requires
            old(self).wf(),
        ensures
            final(self).wf(),
            r == is_open(old(self).position(pair_id@)),
            forall|id: Seq<char>| id != pair_id@ ==> #[trigger] final(self).position(id) == old(self).position(id),
            r ==> {
                let p = old(self).position(pair_id@).unwrap();
                let v = p.realized_spec(yes_won);
                &&& final(self).position(pair_id@) matches Some(q)
                &&& q.status == PositionStatus::Resolved
                &&& q.realized_pnl == Some(v as i64)
                &&& q.poly_yes == p.poly_yes && q.poly_no == p.poly_no && q.total_fees == p.total_fees
                &&& final(self).daily_realized_pnl == clamp_i64(old(self).daily_realized_pnl + v)
                &&& final(self).all_time_pnl == clamp_i64(old(self).all_time_pnl + v)
            },
            !r ==> final(self).positions@ == old(self).positions@
                && final(self).daily_realized_pnl == old(self).daily_realized_pnl
                && final(self).all_time_pnl == old(self).all_time_pnl,
    {
        let ghost before = self.positions@;
        let ghost id = pair_id@;
        match self.find(pair_id) {
            Some(k) => {
                proof {
                    lemma_find_at(before, k as int, id);
                }
                if self.positions[k].status != PositionStatus::Open {
                    return false;
                }
                let mut p = self.positions[k].clone();
                p.resolve(yes_won);
                let v = match p.realized_pnl {
                    Some(v) => v,
                    None => 0,
                };
                self.positions.set(k, p);
                proof {
                    assert(ids_unique(self.positions@));
                    lemma_find_at(self.positions@, k as int, id);
                    assert forall|other: Seq<char>| other != id implies #[trigger] find_position(self.positions@, other) == find_position(before, other) by {
                        lemma_find_update(before, k as int, self.positions@[k as int], other);
                    }
                }
                self.daily_realized_pnl = sat_add(self.daily_realized_pnl, v);
                self.all_time_pnl = sat_add(self.all_time_pnl, v);
                true
            },
            None => {
                proof {
                    lemma_find_absent(before, id);
                }
                false
            },
        }
    }

    /// Starts a new day: the day's realized result goes back to 0, all time's stays.
    pub fn reset_daily(&mut self)
        requires
            old(self).wf(),
        ensures
            final(self).wf(),
            final(self).positions@ == old(self).positions@,
            final(self).daily_realized_pnl == 0,
            final(self).all_time_pnl == old(self).all_time_pnl,
    {
        self.daily_realized_pnl = 0;
    }

    /// Totals over the open positions.
    pub fn summary(&self) -> (r: PositionSummary)
        requires
            self.wf(),
        ensures
            r.open_positions == open_sum(self.positions@, SummaryMetric::Count),
            r.total_contracts == open_sum(self.positions@, SummaryMetric::Contracts),
            r.total_cost_basis == open_sum(self.positions@, SummaryMetric::Cost),
            r.total_unmatched_exposure == open_sum(self.positions@, SummaryMetric::Exposure),
            r.total_guaranteed_profit == open_sum(self.positions@, SummaryMetric::Profit),
            r.daily_realized_pnl == self.daily_realized_pnl,
            r.all_time_pnl == self.all_time_pnl,
    {
        let ghost s = self.positions@;
        let mut open: usize = 0;
        let mut contracts: i128 = 0;
        let mut cost: i128 = 0;
        let mut exposure: i128 = 0;
        let mut profit: i128 = 0;
        let mut i: usize = 0;
        while i < self.positions.len()
            invariant
                s == self.positions@,
                self.wf(),
                0 <= i <= s.len(),
                open == open_sum(s.subrange(0, i as int), SummaryMetric::Count),
                contracts == open_sum(s.subrange(0, i as int), SummaryMetric::Contracts),
                cost == open_sum(s.subrange(0, i as int), SummaryMetric::Cost),
                exposure == open_sum(s.subrange(0, i as int), SummaryMetric::Exposure),
                profit == open_sum(s.subrange(0, i as int), SummaryMetric::Profit),
            decreases s.len() - i,
        {
            let ghost pre = s.subrange(0, i as int);
            let ghost next = s.subrange(0, i + 1);
            proof {
                assert(next.drop_last() =~= pre);
                assert(next.last() == s[i as int]);
                assert forall|j: int| 0 <= j < pre.len() implies (#[trigger] pre[j]).wf() by {
                    assert(pre[j] == s[j]);
                }
                lemma_open_sum_fits(pre, SummaryMetric::Count);
                lemma_open_sum_fits(pre, SummaryMetric::Contracts);
                lemma_open_sum_fits(pre, SummaryMetric::Cost);
                lemma_open_sum_fits(pre, SummaryMetric::Exposure);
                lemma_open_sum_fits(pre, SummaryMetric::Profit);
                lemma_profit_bound(s[i as int]);
            }
            let p = &self.positions[i];
            if p.status == PositionStatus::Open {
                open = open + 1;
                contracts = contracts + p.poly_yes.contracts as i128 + p.poly_no.contracts as i128;
                cost = cost + p.total_cost() as i128;
                exposure = exposure + p.unmatched_exposure() as i128;
                profit = profit + p.guaranteed_profit();
            }
            i = i + 1;
        }
        proof {
            assert(s.subrange(0, s.len() as int) =~= s);
        }
        PositionSummary {
            open_positions: open,
            total_contracts: contracts,
            total_cost_basis: cost,
            total_unmatched_exposure: exposure,
            total_guaranteed_profit: profit,
            daily_realized_pnl: self.daily_realized_pnl,
            all_time_pnl: self.all_time_pnl,
        }
    }
}

} // verus!
