use vstd::prelude::*;
use vstd::string::StringSliceAdditionalSpecFns;

use std::collections::HashMap;
use std::sync::atomic::AtomicU64;
use std::sync::atomic::Ordering;

use crate::position_tracker::Side;
use crate::types::{
    arb_mask, arb_mask_spec, pack_prices, unpack_prices, unpack_spec, ArbType, FastExecutionRequest, PriceCents,
    Quote, SizeCents, NO_PRICE,
};

verus! {

broadcast use vstd::std_specs::hash::group_hash_axioms;

/// How many markets one price table can hold.
pub const MAX_MARKETS: usize = 4096;

/// The multiplier of the Fx hash.
pub const FX_SEED: u64 = 0x517cc1b727220a95;

/// The kinds of binary market that discovery produces.
#[derive(Clone, Copy, Debug, PartialEq, Eq, Structural)]
pub enum MarketType {
    Moneyline,
    Spread,
    Total,
    Btts,
}

impl MarketType {
    /// The lower-case name of the kind.
    pub fn as_str(&self) -> &'static str {
        match self {
            MarketType::Moneyline => "moneyline",
            MarketType::Spread => "spread",
            MarketType::Total => "total",
            MarketType::Btts => "btts",
        }
    }
}

/// The identity of one binary contract on the venue; immutable once made.
#[derive(Debug)]
pub struct MarketPair {
    pub pair_id: String,
    pub league: String,
    pub market_type: MarketType,
    pub description: String,
    pub poly_slug: String,
    pub poly_yes_token: String,
    pub poly_no_token: String,
    /// The line of a spread or total, in hundredths of a point.
    pub line_value: Option<i64>,
    pub team_suffix: Option<String>,
}

impl Clone for MarketPair {
    fn clone(&self) -> (r: Self)
        ensures
            r == *self,
    {
        let team_suffix = match &self.team_suffix {
            Some(t) => Some(t.clone()),
            None => None,
        };
        MarketPair {
            pair_id: self.pair_id.clone(),
            league: self.league.clone(),
            market_type: self.market_type,
            description: self.description.clone(),
            poly_slug: self.poly_slug.clone(),
            poly_yes_token: self.poly_yes_token.clone(),
            poly_no_token: self.poly_no_token.clone(),
            line_value: self.line_value,
            team_suffix,
        }
    }
}

/// One step of the Fx hash: rotate by five, mix in the byte, multiply.
pub open spec fn fx_step(h: u64, c: u8) -> u64 {
    (((h << 5u64) | (h >> 59u64)) ^ (c as u64)).wrapping_mul(FX_SEED)
}

/// The Fx hash of a byte string.
pub open spec fn fx_hash(s: Seq<u8>) -> u64
    decreases s.len(),
{
    if s.len() == 0 {
        0
    } else {
        fx_step(fx_hash(s.drop_last()), s.last())
    }
}

/// The index key of a token: the Fx hash of its UTF-8 bytes.
pub open spec fn token_hash(t: Seq<char>) -> u64 {
    fx_hash(vstd::utf8::encode_utf8(t))
}

/// The Fx hash of a text's UTF-8 bytes, which keys the token indices.
pub fn fxhash_str(s: &str) -> (r: u64)
    ensures
        r == token_hash(s@),
{
    let b = s.as_bytes();
    let mut h: u64 = 0;
    let mut i: usize = 0;
    while i < b.len()
        invariant
            0 <= i <= b@.len(),
            h == fx_hash(b@.subrange(0, i as int)),
            b@ == s.spec_bytes(),
        decreases b@.len() - i,
    {
        proof {
            assert(b@.subrange(0, i + 1).drop_last() =~= b@.subrange(0, i as int));
        }
        h = (((h << 5u64) | (h >> 59u64)) ^ (b[i] as u64)).wrapping_mul(FX_SEED);
        i = i + 1;
    }
    proof {
        assert(b@.subrange(0, b@.len() as int) =~= b@);
    }
    h
}

/// The live top of book of one market: the whole quote in one atomic word,
/// so that a reader always sees the quote of a single store.
pub struct AtomicMarketState {
    pub bits: AtomicU64,
}

impl AtomicMarketState {
    /// A row with no quote on either side.
    pub fn new() -> (r: Self) {
        AtomicMarketState { bits: AtomicU64::new(0) }
    }

    /// Replaces the whole quote with one store.
    pub fn store(&self, yes: PriceCents, no: PriceCents, yes_size: SizeCents, no_size: SizeCents) {
        self.bits.store(pack_prices(yes, no, yes_size, no_size), Ordering::Relaxed);
    }

    /// Reads the whole quote with one load: the snapshot is what one word holds.
    pub fn load(&self) -> (r: Quote)
        ensures
            exists|w: u64| r == unpack_spec(w),
    {
        let w = self.bits.load(Ordering::Relaxed);
        unpack_prices(w)
    }
}

/// One market of the price table: its index, its pair and its live quote.
pub struct AtomicMarket {
    pub market_id: u16,
    pub pair: Option<MarketPair>,
    pub poly: AtomicMarketState,
}

impl AtomicMarket {
    /// The detection mask of the current quote against `threshold` cents.
    pub fn check_arbs(&self, threshold: PriceCents) -> (r: u8)
        ensures
            exists|w: u64| r == arb_mask_spec(unpack_spec(w).0, unpack_spec(w).1, threshold),
    {
        let q = self.poly.load();
        arb_mask(q.0, q.1, threshold)
    }
}

/// The price table: one row per market pair and two indices from the hash
/// of a side's token to the market's index.
pub struct GlobalState {
    pub markets: Vec<AtomicMarket>,
    pub poly_yes_to_id: HashMap<u64, u16>,
    pub poly_no_to_id: HashMap<u64, u16>,
}

impl GlobalState {
    /// Rows sit at their own index, each with its pair, and the indices point at rows.
    pub open spec fn wf(&self) -> bool {
        &&& self.markets@.len() <= MAX_MARKETS
        &&& (forall|i: int| 0 <= i < self.markets@.len() ==> (#[trigger] self.markets@[i]).market_id == i && self.markets@[i].pair is Some)
        &&& (forall|h: u64| #[trigger] self.poly_yes_to_id@.contains_key(h) ==> self.poly_yes_to_id@[h] < self.markets@.len())
        &&& (forall|h: u64| #[trigger] self.poly_no_to_id@.contains_key(h) ==> self.poly_no_to_id@[h] < self.markets@.len())
    }

    /// An empty table.
    pub fn new() -> (r: Self)
        ensures
            r.wf(),
            r.markets@.len() == 0,
            r.poly_yes_to_id@ == Map::<u64, u16>::empty(),
            r.poly_no_to_id@ == Map::<u64, u16>::empty(),
    {
        GlobalState { markets: Vec::new(), poly_yes_to_id: HashMap::new(), poly_no_to_id: HashMap::new() }
    }

    /// The number of markets in the table.
    pub fn market_count(&self) -> (r: usize)
        ensures
            r == self.markets@.len(),
    {
        self.markets.len()
    }

    /// Adds a row for `pair` with no quote and indexes both of its tokens;
    /// `None`, with the table unchanged, once the table is full.
    pub fn add_pair(&mut self, pair: MarketPair) -> (r: Option<u16>)
        requires
            old(self).wf(),
        ensures
            final(self).wf(),
            old(self).markets@.len() >= MAX_MARKETS ==> r is None && final(self).markets@ == old(self).markets@
                && final(self).poly_yes_to_id@ == old(self).poly_yes_to_id@
                && final(self).poly_no_to_id@ == old(self).poly_no_to_id@,
            old(self).markets@.len() < MAX_MARKETS ==> {
                let id = old(self).markets@.len() as u16;
                &&& r == Some(id)
                &&& final(self).markets@.len() == old(self).markets@.len() + 1
                &&& forall|i: int| 0 <= i < old(self).markets@.len() ==> #[trigger] final(self).markets@[i] == old(self).markets@[i]
                &&& final(self).markets@[id as int].pair == Some(pair)
                &&& final(self).poly_yes_to_id@ == old(self).poly_yes_to_id@.insert(token_hash(pair.poly_yes_token@), id)
                &&& final(self).poly_no_to_id@ == old(self).poly_no_to_id@.insert(token_hash(pair.poly_no_token@), id)
            },
    {
        let n = self.markets.len();
        if n >= MAX_MARKETS {
            return None;
        }
        let id = n as u16;
        assert(id as int == n as int);
        let yes_hash = fxhash_str(pair.poly_yes_token.as_str());
        let no_hash = fxhash_str(pair.poly_no_token.as_str());
        let ghost p = pair;
        self.markets.push(AtomicMarket { market_id: id, pair: Some(pair), poly: AtomicMarketState::new() });
        self.poly_yes_to_id.insert(yes_hash, id);
        self.poly_no_to_id.insert(no_hash, id);
        proof {
            assert(self.markets@[id as int].pair == Some(p));
            assert(vstd::std_specs::hash::obeys_key_model::<u64>());
            assert(self.poly_yes_to_id@ == old(self).poly_yes_to_id@.insert(yes_hash, id));
            assert(self.poly_no_to_id@ == old(self).poly_no_to_id@.insert(no_hash, id));
            assert(self.markets@.len() == n + 1);
            assert forall|h: u64| #[trigger] self.poly_yes_to_id@.contains_key(h) implies self.poly_yes_to_id@[h] < self.markets@.len() by {
                if h != yes_hash {
                    assert(old(self).poly_yes_to_id@.contains_key(h));
                }
            }
            assert forall|h: u64| #[trigger] self.poly_no_to_id@.contains_key(h) implies self.poly_no_to_id@[h] < self.markets@.len() by {
                if h != no_hash {
                    assert(old(self).poly_no_to_id@.contains_key(h));
                }
            }
            assert forall|i: int| 0 <= i < self.markets@.len() implies {
                &&& #[trigger] self.markets@[i].market_id == i
                &&& self.markets@[i].pair is Some
            } by {
                if i < n {
                    assert(self.markets@[i] == old(self).markets@[i]);
                } else {
                    assert(i == n);
                    assert(self.markets@[n as int].market_id == id);
                }
            }
        }
        Some(id)
    }

    /// The row with index `id`, if there is one.
    pub fn get_by_id(&self, id: u16) -> (r: Option<&AtomicMarket>)
        ensures
            r is Some <==> (id as int) < self.markets@.len(),
            r matches Some(m) ==> *m == self.markets@[id as int],
    {
        if (id as usize) < self.markets.len() {
            Some(&self.markets[id as usize])
        } else {
            None
        }
    }

    /// The market whose YES token hashes to `h`.
    pub fn id_by_poly_yes_hash(&self, h: u64) -> (r: Option<u16>)
        ensures
            r == (if self.poly_yes_to_id@.contains_key(h) { Some(self.poly_yes_to_id@[h]) } else { None::<u16> }),
    {
        match self.poly_yes_to_id.get(&h) {
            Some(id) => Some(*id),
            None => None,
        }
    }

    /// The market whose NO token hashes to `h`.
    pub fn id_by_poly_no_hash(&self, h: u64) -> (r: Option<u16>)
        ensures
            r == (if self.poly_no_to_id@.contains_key(h) { Some(self.poly_no_to_id@[h]) } else { None::<u16> }),
    {
        match self.poly_no_to_id.get(&h) {
            Some(id) => Some(*id),
            None => None,
        }
    }
}

/// The quote after a feed event replaced one side's price and size.
pub open spec fn with_side_spec(q: Quote, side: Side, price: PriceCents, size: SizeCents) -> Quote {
    match side {
        Side::Yes => (price, q.1, size, q.3),
        Side::No => (q.0, price, q.2, size),
    }
}

/// Replaces one side of a quote, keeping the other side's price and size.
pub fn with_side(q: Quote, side: Side, price: PriceCents, size: SizeCents) -> (r: Quote)
    ensures
        r == with_side_spec(q, side, price, size),
{
    match side {
        Side::Yes => (price, q.1, size, q.3),
        Side::No => (q.0, price, q.2, size),
    }
}

/// The request that a snapshot of market `id` gives: one exactly when the
/// snapshot shows an arb against `threshold`, carrying the snapshot.
pub open spec fn request_spec(id: u16, snap: Quote, threshold: PriceCents, detected_ns: u64) -> Option<FastExecutionRequest> {
    if arb_mask_spec(snap.0, snap.1, threshold) != 0 {
        Some(
            FastExecutionRequest {
                market_id: id,
                yes_price: snap.0,
                no_price: snap.1,
                yes_size: snap.2,
                no_size: snap.3,
                arb_type: ArbType::PolyOnly,
                detected_ns,
            },
        )
    } else {
        None
    }
}

/// Classifies a snapshot of market `id` and builds its request if it shows an arb.
pub fn request_from(id: u16, snap: Quote, threshold: PriceCents, detected_ns: u64) -> (r: Option<FastExecutionRequest>)
    ensures
        r == request_spec(id, snap, threshold, detected_ns),
{
    if arb_mask(snap.0, snap.1, threshold) == 0 {
        return None;
    }
    Some(FastExecutionRequest {
        market_id: id,
        yes_price: snap.0,
        no_price: snap.1,
        yes_size: snap.2,
        no_size: snap.3,
        arb_type: ArbType::PolyOnly,
        detected_ns,
    })
}

/// The market that a token hash names on `side`, if any.
pub open spec fn market_for(state: &GlobalState, token_hash: u64, side: Side) -> Option<u16> {
    let index = if side == Side::Yes { state.poly_yes_to_id@ } else { state.poly_no_to_id@ };
    if index.contains_key(token_hash) { Some(index[token_hash]) } else { None }
}

impl GlobalState {
    /// Handles one feed event for the token whose hash is `token_hash`, on
    /// `side`: stores the row's quote with that side's new price and size
    /// (the other side's kept), then classifies a snapshot of the row against
    /// `threshold` and returns the request it gives. `None` when no market
    /// has that token.
    pub fn on_price_event(
        &self,
        token_hash: u64,
        side: Side,
        price: PriceCents,
        size: SizeCents,
        threshold: PriceCents,
        detected_ns: u64,
    ) -> (r: Option<FastExecutionRequest>)
        requires
            self.wf(),
        ensures
            market_for(self, token_hash, side) is None ==> r is None,
            market_for(self, token_hash, side) matches Some(id) ==> exists|w: u64| r == request_spec(id, unpack_spec(w), threshold, detected_ns),
    {
        let id = match side {
            Side::Yes => self.id_by_poly_yes_hash(token_hash),
            Side::No => self.id_by_poly_no_hash(token_hash),
        };
        let id = match id {
            Some(id) => id,
            None => return None,
        };
        let market = &self.markets[id as usize];
        let q = market.poly.load();
        let nq = with_side(q, side, price, size);
        market.poly.store(nq.0, nq.1, nq.2, nq.3);
        let snap = market.poly.load();
        request_from(id, snap, threshold, detected_ns)
    }
}

/// The cheapest fully quoted market among `quotes` (index = market id):
/// its combined price and index, the first on ties; `None` where no market
/// has both prices.
pub fn best_candidate(quotes: &Vec<Quote>) -> (r: Option<(u32, usize)>)
    ensures
        r is None ==> forall|i: int| 0 <= i < quotes@.len() ==> #[trigger] quotes@[i].0 == NO_PRICE || quotes@[i].1 == NO_PRICE,
        r matches Some(b) ==> {
            &&& b.1 < quotes@.len()
            &&& quotes@[b.1 as int].0 != NO_PRICE && quotes@[b.1 as int].1 != NO_PRICE
            &&& b.0 == quotes@[b.1 as int].0 + quotes@[b.1 as int].1
            &&& forall|i: int| 0 <= i < quotes@.len() && #[trigger] quotes@[i].0 != NO_PRICE && quotes@[i].1 != NO_PRICE
                ==> b.0 <= quotes@[i].0 + quotes@[i].1
            &&& forall|i: int| 0 <= i < b.1 && #[trigger] quotes@[i].0 != NO_PRICE && quotes@[i].1 != NO_PRICE
                ==> b.0 < quotes@[i].0 + quotes@[i].1
        },
{
    let mut best: Option<(u32, usize)> = None;
    let mut i: usize = 0;
    while i < quotes.len()
        invariant
            0 <= i <= quotes@.len(),
            best is None ==> forall|j: int| 0 <= j < i ==> #[trigger] quotes@[j].0 == NO_PRICE || quotes@[j].1 == NO_PRICE,
            best matches Some(b) ==> {
                &&& b.1 < i
                &&& quotes@[b.1 as int].0 != NO_PRICE && quotes@[b.1 as int].1 != NO_PRICE
                &&& b.0 == quotes@[b.1 as int].0 + quotes@[b.1 as int].1
                &&& forall|j: int| 0 <= j < i && #[trigger] quotes@[j].0 != NO_PRICE && quotes@[j].1 != NO_PRICE
                    ==> b.0 <= quotes@[j].0 + quotes@[j].1
                &&& forall|j: int| 0 <= j < b.1 && #[trigger] quotes@[j].0 != NO_PRICE && quotes@[j].1 != NO_PRICE
                    ==> b.0 < quotes@[j].0 + quotes@[j].1
            },
        decreases quotes@.len() - i,
    {
        let q = quotes[i];
        if q.0 != NO_PRICE && q.1 != NO_PRICE {
            let cost: u32 = q.0 as u32 + q.1 as u32;
            let better = match best {
                None => true,
                Some(b) => cost < b.0,
            };
            if better {
                best = Some((cost, i));
            }
        }
        i = i + 1;
    }
    best
}

} // verus!
