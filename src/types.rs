use vstd::prelude::*;

pub use crate::price_text::parse_price;

verus! {

/// A price in cents, `1..=99` when quoted.
pub type PriceCents = u16;

/// A size in cents of notional.
pub type SizeCents = u16;

/// The price of a side that has no quote yet.
pub const NO_PRICE: PriceCents = 0;

/// The mask bit of an arb whose two sides are both bought on Polymarket.
pub const POLY_ONLY_BIT: u8 = 4;

/// Micro-dollars per cent.
pub const MICROS_PER_CENT: u64 = 10_000;

/// One top-of-book snapshot: yes price, no price, yes size, no size.
pub type Quote = (PriceCents, PriceCents, SizeCents, SizeCents);

/// The single word that carries a whole quote.
pub open spec fn pack_spec(q: Quote) -> u64 {
    ((q.0 as u64) << 48u64) | ((q.1 as u64) << 32u64) | ((q.2 as u64) << 16u64) | (q.3 as u64)
}

/// The quote that a word carries.
pub open spec fn unpack_spec(w: u64) -> Quote {
    (
        (w >> 48u64) as u16,
        ((w >> 32u64) & 0xffffu64) as u16,
        ((w >> 16u64) & 0xffffu64) as u16,
        (w & 0xffffu64) as u16,
    )
}

/// Packs a quote into one word.
pub fn pack_prices(yes: PriceCents, no: PriceCents, yes_size: SizeCents, no_size: SizeCents) -> (r: u64)
    ensures
        r == pack_spec((yes, no, yes_size, no_size)),
{
    ((yes as u64) << 48u64) | ((no as u64) << 32u64) | ((yes_size as u64) << 16u64) | (no_size as u64)
}

/// Reads the quote out of one word.
pub fn unpack_prices(w: u64) -> (r: Quote)
    ensures
        r == unpack_spec(w),
{
    (
        (w >> 48u64) as u16,
        ((w >> 32u64) & 0xffffu64) as u16,
        ((w >> 16u64) & 0xffffu64) as u16,
        (w & 0xffffu64) as u16,
    )
}

/// A quote stored as one word reads back whole: every field of the snapshot
/// comes from the same store, so no read can mix two stores.
pub proof fn lemma_snapshot_whole(q: Quote)
    ensures
        unpack_spec(pack_spec(q)) == q,
{
    let (a, b, c, d) = q;
    let (a, b, c, d) = (a as u64, b as u64, c as u64, d as u64);
    assert(a < 0x10000 && b < 0x10000 && c < 0x10000 && d < 0x10000);
    assert(a < 0x10000u64 && b < 0x10000u64 && c < 0x10000u64 && d < 0x10000u64 ==> {
        let w = (a << 48u64) | (b << 32u64) | (c << 16u64) | d;
        &&& (w >> 48u64) == a
        &&& ((w >> 32u64) & 0xffffu64) == b
        &&& ((w >> 16u64) & 0xffffu64) == c
        &&& (w & 0xffffu64) == d
    }) by (bit_vector);
}

/// The kinds of arb that the detector knows.
#[derive(Clone, Copy, Debug, PartialEq, Eq, Structural)]
pub enum ArbType {
    /// Buy YES and NO, both on Polymarket.
    PolyOnly,
}

impl ArbType {
    pub open spec fn fee_spec(&self) -> u16 {
        match self {
            ArbType::PolyOnly => 0,
        }
    }

    pub open spec fn bit_spec(&self) -> u8 {
        match self {
            ArbType::PolyOnly => POLY_ONLY_BIT,
        }
    }

    /// The fee estimate in cents for one contract of this kind.
    pub fn estimated_fee_cents(&self) -> (r: u16)
        ensures
            r == self.fee_spec(),
    {
        match self {
            ArbType::PolyOnly => 0,
        }
    }

    /// The bit of the detection mask that stands for this kind.
    pub fn bit(&self) -> (r: u8)
        ensures
            r == self.bit_spec(),
    {
        match self {
            ArbType::PolyOnly => POLY_ONLY_BIT,
        }
    }
}

/// The detection mask of one quote against a threshold in cents.
pub open spec fn arb_mask_spec(yes: PriceCents, no: PriceCents, threshold: PriceCents) -> u8 {
    if yes != NO_PRICE && no != NO_PRICE && yes + no + ArbType::PolyOnly.fee_spec() < threshold {
        POLY_ONLY_BIT
    } else {
        0
    }
}

/// Classifies a quote: the PolyOnly bit is set iff both prices are present
/// and their sum plus the estimated fee is strictly below `threshold`.
pub fn arb_mask(yes: PriceCents, no: PriceCents, threshold: PriceCents) -> (r: u8)
    ensures
        r == arb_mask_spec(yes, no, threshold),
        (r & POLY_ONLY_BIT != 0) <==> (yes != NO_PRICE && no != NO_PRICE && yes + no
            + ArbType::PolyOnly.fee_spec() < threshold),
{
    let mut mask: u8 = 0;
    if yes != NO_PRICE && no != NO_PRICE {
        let cost: u32 = yes as u32 + no as u32 + ArbType::PolyOnly.estimated_fee_cents() as u32;
        if cost < threshold as u32 {
            mask = mask | POLY_ONLY_BIT;
        }
    }
    assert((0u8 | 4u8) == 4u8 && (4u8 & 4u8) != 0u8 && (0u8 & 4u8) == 0u8) by (bit_vector);
    mask
}

/// One decision of the detector, handed to the execution coordinator.
#[derive(Clone, Copy, Debug, PartialEq, Eq, Structural)]
pub struct FastExecutionRequest {
    pub market_id: u16,
    pub yes_price: PriceCents,
    pub no_price: PriceCents,
    pub yes_size: SizeCents,
    pub no_size: SizeCents,
    pub arb_type: ArbType,
    pub detected_ns: u64,
}

impl FastExecutionRequest {
    pub open spec fn profit_spec(&self) -> int {
        100 - self.yes_price - self.no_price - self.arb_type.fee_spec()
    }

    /// The fee estimate in cents of this request's kind.
    pub fn estimated_fee_cents(&self) -> (r: u16)
        ensures
            r == self.arb_type.fee_spec(),
    {
        self.arb_type.estimated_fee_cents()
    }

    /// Profit per contract in cents: the dollar payout less both prices and the fee.
    pub fn profit_cents(&self) -> (r: i32)
        ensures
            r == self.profit_spec(),
    {
        100i32 - self.yes_price as i32 - self.no_price as i32 - self.estimated_fee_cents() as i32
    }
}

/// A price in cents as micro-dollars.
pub fn cents_to_price(cents: PriceCents) -> (r: u64)
    ensures
        r == cents * MICROS_PER_CENT,
{
    cents as u64 * MICROS_PER_CENT
}

/// The spec of [`price_to_cents`]: to the nearest cent, halves rounded up.
pub open spec fn price_to_cents_spec(micros: u64) -> int {
    (micros + MICROS_PER_CENT / 2) / (MICROS_PER_CENT as int)
}

/// A price in micro-dollars to the nearest cent (halves up); `None` when
/// that does not fit in a price.
pub fn price_to_cents(micros: u64) -> (r: Option<PriceCents>)
    ensures
        r matches Some(c) ==> c == price_to_cents_spec(micros),
        r is None <==> price_to_cents_spec(micros) > u16::MAX,
{
    let c: u64 = micros / MICROS_PER_CENT + (if micros % MICROS_PER_CENT >= MICROS_PER_CENT / 2 { 1u64 } else { 0u64 });
    proof {
        let m = micros as int;
        let k = MICROS_PER_CENT as int;
        assert(m == k * (m / k) + m % k) by (nonlinear_arith) requires k > 0;
        assert((m + k / 2) / k == m / k + (if m % k >= k / 2 { 1int } else { 0int })) by {
            let q = m / k;
            let rr = m % k;
            assert(0 <= rr < k);
            if rr >= k / 2 {
                assert(m + k / 2 == k * (q + 1) + (rr - k / 2));
                vstd::arithmetic::div_mod::lemma_fundamental_div_mod_converse(m + k / 2, k, q + 1, rr - k / 2);
            } else {
                assert(m + k / 2 == k * q + (rr + k / 2));
                vstd::arithmetic::div_mod::lemma_fundamental_div_mod_converse(m + k / 2, k, q, rr + k / 2);
            }
        }
    }
    if c > u16::MAX as u64 {
        None
    } else {
        Some(c as u16)
    }
}

/// Converting a price in cents to micro-dollars and back gives the price again.
pub proof fn lemma_price_round_trip(cents: PriceCents)
    ensures
        price_to_cents_spec((cents * MICROS_PER_CENT) as u64) == cents,
{
    let m = cents * MICROS_PER_CENT;
    assert(m + 5000 == 10000 * cents + 5000);
    vstd::arithmetic::div_mod::lemma_fundamental_div_mod_converse(m + 5000, 10000, cents as int, 5000);
}

/// The detector is strict: prices that sum (with the fee) exactly to the
/// threshold are no arb.
pub proof fn lemma_detector_strict(yes: PriceCents, no: PriceCents, threshold: PriceCents)
    requires
        yes + no + ArbType::PolyOnly.fee_spec() == threshold,
    ensures
        arb_mask_spec(yes, no, threshold) == 0,
{
}

/// A side without a quote never shows an arb.
pub proof fn lemma_detector_absent(yes: PriceCents, no: PriceCents, threshold: PriceCents)
    requires
        yes == NO_PRICE || no == NO_PRICE,
    ensures
        arb_mask_spec(yes, no, threshold) == 0,
{
}

} // verus!
