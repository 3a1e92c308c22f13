use vstd::prelude::*;

use crate::config::{get_league_config, get_league_configs, LeagueConfig};
use crate::market::{MarketPair, MarketType};
use crate::text::{chars_of, join2, str_eq, string_of, trim, trim_chars};

verus! {

/// Age in seconds after which a discovery cache is stale (two hours).
pub const CACHE_TTL_SECS: u64 = 7200;

/// Relies on `std::time::SystemTime::now` and `duration_since(UNIX_EPOCH)`:
/// the wall clock in whole seconds since the epoch, 0 if it reads earlier.
/// Nothing is promised of the value: it is the time.
#[verifier::external_body]
pub fn current_unix_secs() -> (r: u64) {
    std::time::SystemTime::now()
        .duration_since(std::time::UNIX_EPOCH)
        .unwrap_or_default()
        .as_secs()
}

/// Whether some pair of `pairs` carries the slug `slug`.
pub open spec fn has_slug_in(pairs: Seq<MarketPair>, slug: Seq<char>) -> bool {
    exists|i: int| 0 <= i < pairs.len() && (#[trigger] pairs[i]).poly_slug@ == slug
}

/// The cached pairs, then each found pair whose slug is not yet among them,
/// in the order found.
pub open spec fn merge_spec(acc: Seq<MarketPair>, found: Seq<MarketPair>) -> Seq<MarketPair>
    decreases found.len(),
{
    if found.len() == 0 {
        acc
    } else {
        let next = if has_slug_in(acc, found[0].poly_slug@) {
            acc
        } else {
            acc.push(found[0])
        };
        merge_spec(next, found.drop_first())
    }
}

/// A discovery cache as it is persisted: when it was written, the pairs, and
/// the slugs of those pairs, for incremental refreshes.
pub struct DiscoveryCache {
    pub timestamp_secs: u64,
    pub pairs: Vec<MarketPair>,
    pub known_poly_slugs: Vec<String>,
}

impl DiscoveryCache {
    /// The slugs of a cache are those of its pairs, in order.
    pub open spec fn wf(&self) -> bool {
        &&& self.known_poly_slugs@.len() == self.pairs@.len()
        &&& forall|i: int| 0 <= i < self.pairs@.len() ==> (#[trigger] self.known_poly_slugs@[i])@ == self.pairs@[i].poly_slug@
    }

    /// A cache of `pairs` written at `now`.
    pub fn new_at(pairs: Vec<MarketPair>, now: u64) -> (r: Self)
        ensures
            r.wf(),
            r.timestamp_secs == now,
            r.pairs@ == pairs@,
    {
        let mut known_poly_slugs: Vec<String> = Vec::new();
        let mut i: usize = 0;
        while i < pairs.len()
            invariant
                0 <= i <= pairs@.len(),
                known_poly_slugs@.len() == i,
                forall|j: int| 0 <= j < i ==> (#[trigger] known_poly_slugs@[j])@ == pairs@[j].poly_slug@,
            decreases pairs@.len() - i,
        {
            known_poly_slugs.push(pairs[i].poly_slug.clone());
            i = i + 1;
        }
        DiscoveryCache { timestamp_secs: now, pairs, known_poly_slugs }
    }

    /// A cache of `pairs` written now.
    pub fn new(pairs: Vec<MarketPair>) -> (r: Self)
        ensures
            r.wf(),
            r.pairs@ == pairs@,
    {
        let now = current_unix_secs();
        Self::new_at(pairs, now)
    }

    /// Seconds from the cache's writing to `now`; 0 for a clock that reads earlier.
    pub open spec fn age_spec(&self, now: u64) -> u64 {
        if now >= self.timestamp_secs { (now - self.timestamp_secs) as u64 } else { 0 }
    }

    /// Whether the cache is older than the TTL at `now`.
    pub open spec fn expired_spec(&self, now: u64) -> bool {
        now >= self.timestamp_secs && now - self.timestamp_secs > CACHE_TTL_SECS
    }

    /// Seconds from the cache's writing to `now`; 0 for a clock that reads earlier.
    pub fn age_secs_at(&self, now: u64) -> (r: u64)
        ensures
            r == (if now >= self.timestamp_secs { now - self.timestamp_secs } else { 0 }),
    {
        now.saturating_sub(self.timestamp_secs)
    }

    /// Whether the cache is older than the TTL at `now`.
    pub fn is_expired_at(&self, now: u64) -> (r: bool)
        ensures
            r == (now >= self.timestamp_secs && now - self.timestamp_secs > CACHE_TTL_SECS),
    {
        self.age_secs_at(now) > CACHE_TTL_SECS
    }

    /// The cache's age now.
    pub fn age_secs(&self) -> (r: u64)
        ensures
            exists|now: u64| r == #[trigger] self.age_spec(now),
    {
        let now = current_unix_secs();
        let r = self.age_secs_at(now);
        assert(r == self.age_spec(now));
        r
    }

    /// Whether the cache is stale now.
    pub fn is_expired(&self) -> (r: bool)
        ensures
            exists|now: u64| r == #[trigger] self.expired_spec(now),
    {
        let now = current_unix_secs();
        let r = self.is_expired_at(now);
        assert(r == self.expired_spec(now));
        r
    }

    /// Whether the cache knows the slug `slug`.
    pub fn has_slug(&self, slug: &str) -> (r: bool)
        ensures
            r == exists|i: int| 0 <= i < self.known_poly_slugs@.len() && (#[trigger] self.known_poly_slugs@[i])@ == slug@,
    {
        let mut i: usize = 0;
        while i < self.known_poly_slugs.len()
            invariant
                0 <= i <= self.known_poly_slugs@.len(),
                forall|j: int| 0 <= j < i ==> (#[trigger] self.known_poly_slugs@[j])@ != slug@,
            decreases self.known_poly_slugs@.len() - i,
        {
            if str_eq(self.known_poly_slugs[i].as_str(), slug) {
                return true;
            }
            i = i + 1;
        }
        false
    }
}

/// What one discovery run found.
pub struct DiscoveryResult {
    pub pairs: Vec<MarketPair>,
    pub kalshi_events_found: usize,
    pub poly_matches: usize,
    pub poly_misses: usize,
    pub errors: Vec<String>,
}

impl DiscoveryResult {
    /// A result with nothing found.
    pub fn empty() -> (r: Self)
        ensures
            r.pairs@.len() == 0,
            r.kalshi_events_found == 0,
            r.poly_matches == 0,
            r.poly_misses == 0,
            r.errors@.len() == 0,
    {
        DiscoveryResult { pairs: Vec::new(), kalshi_events_found: 0, poly_matches: 0, poly_misses: 0, errors: Vec::new() }
    }

    /// The result of a fresh cache: its pairs, all counted as matches.
    pub fn from_cache(cache: DiscoveryCache) -> (r: Self)
        ensures
            r.pairs@ == cache.pairs@,
            r.kalshi_events_found == 0,
            r.poly_matches == cache.pairs@.len(),
            r.poly_misses == 0,
            r.errors@.len() == 0,
    {
        let n = cache.pairs.len();
        DiscoveryResult { pairs: cache.pairs, kalshi_events_found: 0, poly_matches: n, poly_misses: 0, errors: Vec::new() }
    }

    /// The result of an incremental run: the merged pairs, the new ones counted.
    pub fn incremental(pairs: Vec<MarketPair>, new_count: usize) -> (r: Self)
        ensures
            r.pairs@ == pairs@,
            r.kalshi_events_found == new_count,
            r.poly_matches == new_count,
            r.poly_misses == 0,
            r.errors@.len() == 0,
    {
        DiscoveryResult { pairs, kalshi_events_found: new_count, poly_matches: new_count, poly_misses: 0, errors: Vec::new() }
    }

    /// Closes a full run: the events found are the pairs found.
    pub fn finish_full(&mut self)
        ensures
            final(self).kalshi_events_found == final(self).pairs@.len(),
            final(self).pairs@ == old(self).pairs@,
            final(self).errors@ == old(self).errors@,
            final(self).poly_matches == old(self).poly_matches,
            final(self).poly_misses == old(self).poly_misses,
    {
        self.kalshi_events_found = self.pairs.len();
    }
}

/// How a discovery run proceeds.
#[derive(Clone, Copy, Debug, PartialEq, Eq, Structural)]
pub enum DiscoveryPlan {
    /// The cache is fresh: its pairs are the result.
    UseCache,
    /// The cache is stale: look up what it lacks and add it.
    Incremental,
    /// No cache, or a refresh was forced: discover everything and rewrite the cache.
    Full,
}

/// The market discovery client: decides from the cache how to discover.
pub struct DiscoveryClient {
    pub cache_ttl_secs: u64,
}

impl DiscoveryClient {
    /// A client whose caches live for the default TTL.
    pub fn new() -> (r: Self)
        ensures
            r.cache_ttl_secs == CACHE_TTL_SECS,
    {
        DiscoveryClient { cache_ttl_secs: CACHE_TTL_SECS }
    }

    /// The plan for a run at `now`: forced or without a cache, full; with a
    /// cache older than the TTL, incremental; else the cache as it is.
    pub fn plan(&self, cache_timestamp: Option<u64>, now: u64, force: bool) -> (r: DiscoveryPlan)
        ensures
            force || cache_timestamp is None ==> r == DiscoveryPlan::Full,
            forall|t: u64| !force && cache_timestamp == Some(t) ==> r == (if now >= t && now - t > self.cache_ttl_secs {
                DiscoveryPlan::Incremental
            } else {
                DiscoveryPlan::UseCache
            }),
    {
        if force {
            return DiscoveryPlan::Full;
        }
        match cache_timestamp {
            None => DiscoveryPlan::Full,
            Some(t) => {
                if now.saturating_sub(t) > self.cache_ttl_secs {
                    DiscoveryPlan::Incremental
                } else {
                    DiscoveryPlan::UseCache
                }
            },
        }
    }

    /// The leagues that a run visits: all of them for an empty selection,
    /// else those that the selection names, in its order, unknown names skipped.
    pub fn select_leagues(&self, leagues: &[&str]) -> (r: Vec<LeagueConfig>)
        ensures
            leagues@.len() == 0 ==> r@.len() == crate::config::league_table().len()
                && forall|i: int| 0 <= i < r@.len() ==> #[trigger] r@[i].view() == crate::config::league_table()[i],
            leagues@.len() > 0 ==> r@.map_values(|c: LeagueConfig| c.view()) == select_spec(leagues@, leagues@.len() as int),
    {
        if leagues.len() == 0 {
            return get_league_configs();
        }
        let mut r: Vec<LeagueConfig> = Vec::new();
        let mut i: usize = 0;
        while i < leagues.len()
            invariant
                0 <= i <= leagues@.len(),
                r@.map_values(|c: LeagueConfig| c.view()) == select_spec(leagues@, i as int),
            decreases leagues@.len() - i,
        {
            let found = get_league_config(leagues[i]);
            proof {
                assert(leagues@.subrange(0, i + 1).drop_last() =~= leagues@.subrange(0, i as int));
            }
            match found {
                Some(c) => {
                    proof {
                        assert(r@.push(c).map_values(|c: LeagueConfig| c.view()) =~= r@.map_values(|c: LeagueConfig| c.view()).push(c.view()));
                    }
                    r.push(c);
                },
                None => {},
            }
            i = i + 1;
        }
        r
    }

    /// The cached pairs with the newly found ones that they lack, and how
    /// many were added.
    pub fn merge_found(&self, cached: Vec<MarketPair>, found: &Vec<MarketPair>) -> (r: (Vec<MarketPair>, usize))
        ensures
            r.0@ == merge_spec(cached@, found@),
            r.1 == r.0@.len() - cached@.len(),
    {
        merge_pairs(cached, found)
    }
}

/// `pairs` followed by each pair of `found` whose slug is not yet among
/// them, and how many were added.
pub fn merge_pairs(cached: Vec<MarketPair>, found: &Vec<MarketPair>) -> (r: (Vec<MarketPair>, usize))
    ensures
        r.0@ == merge_spec(cached@, found@),
        r.1 == r.0@.len() - cached@.len(),
{
    let ghost start = cached@;
    let base = cached.len();
    let mut all = cached;
    let mut i: usize = 0;
    proof {
        assert(found@.subrange(0, found@.len() as int) =~= found@);
        lemma_merge_grows(start, found@);
    }
    while i < found.len()
        invariant
            0 <= i <= found@.len(),
            merge_spec(start, found@) == merge_spec(all@, found@.subrange(i as int, found@.len() as int)),
            start.len() <= all@.len(),
            all@.len() <= start.len() + i,
        decreases found@.len() - i,
    {
        let ghost rest = found@.subrange(i as int, found@.len() as int);
        proof {
            assert(rest.drop_first() =~= found@.subrange(i + 1, found@.len() as int));
            assert(rest[0] == found@[i as int]);
        }
        let mut seen = false;
        let mut j: usize = 0;
        while j < all.len()
            invariant
                0 <= j <= all@.len(),
                0 <= i < found@.len(),
                merge_spec(start, found@) == merge_spec(all@, found@.subrange(i as int, found@.len() as int)),
                start.len() <= all@.len(),
                all@.len() <= start.len() + i,
                !seen ==> forall|k: int| 0 <= k < j ==> (#[trigger] all@[k]).poly_slug@ != found@[i as int].poly_slug@,
                seen ==> has_slug_in(all@, found@[i as int].poly_slug@),
            decreases all@.len() - j,
        {
            if !seen && all[j].poly_slug == found[i].poly_slug {
                seen = true;
            }
            j = j + 1;
        }
        if !seen {
            let p = found[i].clone();
            proof {
                assert(!has_slug_in(all@, found@[i as int].poly_slug@));
            }
            all.push(p);
        }
        i = i + 1;
    }
    proof {
        assert(found@.subrange(found@.len() as int, found@.len() as int).len() == 0);
    }
    let n = all.len() - base;
    (all, n)
}

/// The configurations that the first `n` names of `names` select.
pub open spec fn select_spec(names: Seq<&str>, n: int) -> Seq<(Seq<char>, Seq<char>)>
    decreases n,
{
    if n <= 0 {
        Seq::empty()
    } else {
        let prev = select_spec(names, n - 1);
        match crate::config::find_league_from(crate::config::league_table(), names[n - 1]@, 0) {
            Some(c) => prev.push(c),
            None => prev,
        }
    }
}

proof fn lemma_merge_grows(acc: Seq<MarketPair>, found: Seq<MarketPair>)
    ensures
        acc.len() <= merge_spec(acc, found).len() <= acc.len() + found.len(),
    decreases found.len(),
{
    if found.len() > 0 {
        let next = if has_slug_in(acc, found[0].poly_slug@) { acc } else { acc.push(found[0]) };
        lemma_merge_grows(next, found.drop_first());
    }
}

/// Adds a piece to a slug list unless it is empty once trimmed.
pub open spec fn push_piece(done: Seq<Seq<char>>, piece: Seq<char>) -> Seq<Seq<char>> {
    if trim(piece).len() > 0 {
        done.push(trim(piece))
    } else {
        done
    }
}

/// The finished slugs and the piece in progress after reading `s`.
pub open spec fn scan_slugs(s: Seq<char>) -> (Seq<Seq<char>>, Seq<char>)
    decreases s.len(),
{
    if s.len() == 0 {
        (Seq::empty(), Seq::empty())
    } else {
        let (done, cur) = scan_slugs(s.drop_last());
        if s.last() == ',' {
            (push_piece(done, cur), Seq::empty())
        } else {
            (done, cur.push(s.last()))
        }
    }
}

/// The slugs of a comma-separated list: each piece trimmed, empty ones dropped.
pub open spec fn slug_list_spec(s: Seq<char>) -> Seq<Seq<char>> {
    let (done, cur) = scan_slugs(s);
    push_piece(done, cur)
}

/// Splits a comma-separated slug list, trims each slug and drops empty ones.
pub fn parse_slug_list(text: &str) -> (r: Vec<String>)
    ensures
        r@.map_values(|x: String| x@) == slug_list_spec(text@),
{
    let cs = chars_of(text);
    let mut done: Vec<String> = Vec::new();
    let mut cur: Vec<char> = Vec::new();
    let mut i: usize = 0;
    while i < cs.len()
        invariant
            0 <= i <= cs@.len(),
            cs@ == text@,
            (done@.map_values(|x: String| x@), cur@) == scan_slugs(cs@.subrange(0, i as int)),
        decreases cs@.len() - i,
    {
        proof {
            assert(cs@.subrange(0, i + 1).drop_last() =~= cs@.subrange(0, i as int));
        }
        let c = cs[i];
        if c == ',' {
            let t = trim_chars(cur.as_slice());
            if t.len() > 0 {
                let piece = string_of(t.as_slice());
                proof {
                    assert(done@.push(piece).map_values(|x: String| x@) =~= done@.map_values(|x: String| x@).push(piece@));
                }
                done.push(piece);
            }
            cur = Vec::new();
        } else {
            cur.push(c);
        }
        i = i + 1;
    }
    proof {
        assert(cs@.subrange(0, cs@.len() as int) =~= cs@);
    }
    let t = trim_chars(cur.as_slice());
    if t.len() > 0 {
        let piece = string_of(t.as_slice());
        proof {
            assert(done@.push(piece).map_values(|x: String| x@) =~= done@.map_values(|x: String| x@).push(piece@));
        }
        done.push(piece);
    }
    done
}

/// The characters of `s` before its first `d` (all of `s` if it has none).
pub open spec fn take_until(s: Seq<char>, d: char) -> Seq<char>
    decreases s.len(),
{
    if s.len() == 0 || s[0] == d {
        Seq::empty()
    } else {
        seq![s[0]] + take_until(s.drop_first(), d)
    }
}

/// The league of a slug: the part before its first `-`.
pub fn league_of_slug(slug: &str) -> (r: String)
    ensures
        r@ == take_until(slug@, '-'),
{
    let cs = chars_of(slug);
    let mut i: usize = 0;
    proof {
        assert(cs@.subrange(0, cs@.len() as int) =~= cs@);
        assert(cs@.subrange(0, 0) + take_until(cs@.subrange(0, cs@.len() as int), '-') =~= take_until(cs@, '-'));
    }
    while i < cs.len() && cs[i] != '-'
        invariant
            0 <= i <= cs@.len(),
            cs@ == slug@,
            take_until(cs@, '-') == cs@.subrange(0, i as int) + take_until(cs@.subrange(i as int, cs@.len() as int), '-'),
        decreases cs@.len() - i,
    {
        proof {
            let rest = cs@.subrange(i as int, cs@.len() as int);
            assert(rest.drop_first() =~= cs@.subrange(i + 1, cs@.len() as int));
            assert(cs@.subrange(0, i as int) + (seq![rest[0]] + take_until(rest.drop_first(), '-')) =~= cs@.subrange(0, i + 1) + take_until(rest.drop_first(), '-'));
        }
        i = i + 1;
    }
    proof {
        let rest = cs@.subrange(i as int, cs@.len() as int);
        assert(take_until(rest, '-') =~= Seq::<char>::empty());
        assert(cs@.subrange(0, i as int) + Seq::<char>::empty() =~= cs@.subrange(0, i as int));
    }
    string_of(&cs.as_slice()[0..i])
}

/// What the market lookup of one slug returned.
pub enum LookupOutcome {
    /// The market exists: its two tokens and its description.
    Found { yes_token: String, no_token: String, description: String },
    /// No market has that slug.
    Missing,
    /// The lookup failed with this message.
    Failed { message: String },
}

/// The pair id of a Polymarket slug.
pub open spec fn pair_id_of(slug: Seq<char>) -> Seq<char> {
    "poly-"@ + slug
}

/// The moneyline pair of a market found under `slug`, in league `league`.
pub fn make_pair(slug: &str, league: String, yes_token: String, no_token: String, description: String) -> (r: MarketPair)
    ensures
        r.pair_id@ == pair_id_of(slug@),
        r.league == league,
        r.market_type == MarketType::Moneyline,
        r.description == description,
        r.poly_slug@ == slug@,
        r.poly_yes_token == yes_token,
        r.poly_no_token == no_token,
        r.line_value is None,
        r.team_suffix is None,
{
    MarketPair {
        pair_id: join2("poly-", slug),
        league,
        market_type: MarketType::Moneyline,
        description,
        poly_slug: slug.to_owned(),
        poly_yes_token: yes_token,
        poly_no_token: no_token,
        line_value: None,
        team_suffix: None,
    }
}

impl DiscoveryResult {
    /// Books the lookup of one slug: a found market becomes a moneyline pair
    /// in the slug's league and counts as a match, a missing one counts as a
    /// miss, a failure adds its message to the errors. Counts stop at the
    /// largest `usize`.
    pub fn record_lookup(&mut self, slug: &str, outcome: LookupOutcome)
        ensures
            final(self).kalshi_events_found == old(self).kalshi_events_found,
            old(self).poly_matches == old(self).pairs@.len() ==> final(self).poly_matches == final(self).pairs@.len(),
            match outcome {
                LookupOutcome::Found { yes_token, no_token, description } => {
                    &&& final(self).pairs@.len() == old(self).pairs@.len() + 1
                    &&& final(self).pairs@.drop_last() == old(self).pairs@
                    &&& final(self).pairs@.last().pair_id@ == pair_id_of(slug@)
                    &&& final(self).pairs@.last().league@ == take_until(slug@, '-')
                    &&& final(self).pairs@.last().poly_slug@ == slug@
                    &&& final(self).pairs@.last().poly_yes_token == yes_token
                    &&& final(self).pairs@.last().poly_no_token == no_token
                    &&& final(self).pairs@.last().description == description
                    &&& final(self).pairs@.last().market_type == MarketType::Moneyline
                    &&& final(self).pairs@.last().line_value is None
                    &&& final(self).pairs@.last().team_suffix is None
                    &&& final(self).poly_matches == old(self).poly_matches.saturating_add(1)
                    &&& final(self).poly_misses == old(self).poly_misses
                    &&& final(self).errors@ == old(self).errors@
                },
                LookupOutcome::Missing => {
                    &&& final(self).pairs@ == old(self).pairs@
                    &&& final(self).poly_matches == old(self).poly_matches
                    &&& final(self).poly_misses == old(self).poly_misses.saturating_add(1)
                    &&& final(self).errors@ == old(self).errors@
                },
                LookupOutcome::Failed { message } => {
                    &&& final(self).pairs@ == old(self).pairs@
                    &&& final(self).poly_matches == old(self).poly_matches
                    &&& final(self).poly_misses == old(self).poly_misses
                    &&& final(self).errors@.len() == old(self).errors@.len() + 1
                    &&& final(self).errors@.drop_last() == old(self).errors@
                    &&& final(self).errors@.last()@ == "Failed to lookup "@ + slug@ + ": "@ + message@
                },
            },
    {
        match outcome {
            LookupOutcome::Found { yes_token, no_token, description } => {
                let league = league_of_slug(slug);
                let pair = make_pair(slug, league, yes_token, no_token, description);
                self.pairs.push(pair);
                proof {
                    assert(self.pairs@.drop_last() =~= old(self).pairs@);
                }
                let _count = self.pairs.len();
                self.poly_matches = self.poly_matches.saturating_add(1);
            },
            LookupOutcome::Missing => {
                self.poly_misses = self.poly_misses.saturating_add(1);
            },
            LookupOutcome::Failed { message } => {
                let head = join2("Failed to lookup ", slug);
                let head = join2(head.as_str(), ": ");
                let line = join2(head.as_str(), message.as_str());
                self.errors.push(line);
                proof {
                    assert(self.errors@.drop_last() =~= old(self).errors@);
                }
            },
        }
    }

    /// Adds one league's result to a full run's: its pairs whose slugs are
    /// not there yet (counted as matches), its misses, and its errors after
    /// those already there. Counts stop at the largest `usize`.
    pub fn absorb(&mut self, part: DiscoveryResult)
        ensures
            final(self).pairs@ == merge_spec(old(self).pairs@, part.pairs@),
            final(self).errors@ == old(self).errors@ + part.errors@,
            final(self).poly_matches == old(self).poly_matches.saturating_add(
                (final(self).pairs@.len() - old(self).pairs@.len()) as usize,
            ),
            final(self).poly_misses == old(self).poly_misses.saturating_add(part.poly_misses),
            final(self).kalshi_events_found == old(self).kalshi_events_found,
            old(self).poly_matches == old(self).pairs@.len() ==> final(self).poly_matches == final(self).pairs@.len(),
    {
        let mut mine: Vec<MarketPair> = Vec::new();
        std::mem::swap(&mut mine, &mut self.pairs);
        assert(mine@ == old(self).pairs@);
        let (all, added) = merge_pairs(mine, &part.pairs);
        self.pairs = all;
        let total = self.pairs.len();
        assert(added == total - old(self).pairs@.len());
        let mut errors = part.errors;
        self.errors.append(&mut errors);
        self.poly_matches = self.poly_matches.saturating_add(added);
        self.poly_misses = self.poly_misses.saturating_add(part.poly_misses);
    }
}

/// The slugs of `slugs` that `known` lacks, in order.
pub open spec fn unknown_slugs(slugs: Seq<Seq<char>>, known: Seq<Seq<char>>) -> Seq<Seq<char>>
    decreases slugs.len(),
{
    if slugs.len() == 0 {
        Seq::empty()
    } else {
        let prev = unknown_slugs(slugs.drop_last(), known);
        if known.contains(slugs.last()) {
            prev
        } else {
            prev.push(slugs.last())
        }
    }
}

/// The slugs that a run looks up: all of them without a cache, else those
/// that the cache does not know.
pub fn slugs_to_look_up(slugs: &Vec<String>, cache: Option<&DiscoveryCache>) -> (r: Vec<String>)
    ensures
        cache is None ==> r@.map_values(|x: String| x@) == slugs@.map_values(|x: String| x@),
        cache matches Some(c) ==> r@.map_values(|x: String| x@) == unknown_slugs(
            slugs@.map_values(|x: String| x@),
            c.known_poly_slugs@.map_values(|x: String| x@),
        ),
{
    let mut r: Vec<String> = Vec::new();
    let mut i: usize = 0;
    while i < slugs.len()
        invariant
            0 <= i <= slugs@.len(),
            cache is None ==> r@.map_values(|x: String| x@) == slugs@.subrange(0, i as int).map_values(|x: String| x@),
            cache matches Some(c) ==> r@.map_values(|x: String| x@) == unknown_slugs(
                slugs@.subrange(0, i as int).map_values(|x: String| x@),
                c.known_poly_slugs@.map_values(|x: String| x@),
            ),
        decreases slugs@.len() - i,
    {
        let ghost pre = slugs@.subrange(0, i as int).map_values(|x: String| x@);
        let ghost next = slugs@.subrange(0, i + 1).map_values(|x: String| x@);
        proof {
            assert(next.drop_last() =~= pre);
            assert(next.last() == slugs@[i as int]@);
        }
        let skip = match cache {
            Some(c) => c.has_slug(slugs[i].as_str()),
            None => false,
        };
        proof {
            if let Some(c) = cache {
                let known = c.known_poly_slugs@.map_values(|x: String| x@);
                if skip {
                    let k = choose|k: int| 0 <= k < c.known_poly_slugs@.len() && (#[trigger] c.known_poly_slugs@[k])@ == slugs@[i as int]@;
                    assert(known[k] == next.last());
                } else {
                    assert forall|k: int| 0 <= k < known.len() implies known[k] != next.last() by {
                        assert(known[k] == c.known_poly_slugs@[k]@);
                    }
                }
            }
        }
        if !skip {
            let s = slugs[i].clone();
            proof {
                assert(r@.push(s).map_values(|x: String| x@) =~= r@.map_values(|x: String| x@).push(s@));
            }
            r.push(s);
        }
        i = i + 1;
    }
    proof {
        assert(slugs@.subrange(0, slugs@.len() as int) =~= slugs@);
    }
    r
}

impl DiscoveryResult {
    /// Books the lookups of `slugs`, the i-th with the i-th outcome. Each
    /// slug counts once: as a match with its pair, as a miss, or as an error.
    pub fn book_lookups(&mut self, slugs: &Vec<String>, outcomes: Vec<LookupOutcome>)
        requires
            slugs@.len() == outcomes@.len(),
            old(self).poly_matches + slugs@.len() <= usize::MAX,
            old(self).poly_misses + slugs@.len() <= usize::MAX,
        ensures
            final(self).kalshi_events_found == old(self).kalshi_events_found,
            final(self).pairs@.len() - old(self).pairs@.len() == final(self).poly_matches - old(self).poly_matches,
            (final(self).poly_matches - old(self).poly_matches) + (final(self).poly_misses - old(self).poly_misses)
                + (final(self).errors@.len() - old(self).errors@.len()) == slugs@.len(),
            old(self).pairs@ == final(self).pairs@.subrange(0, old(self).pairs@.len() as int),
    {
        let mut outcomes = outcomes;
        let mut i: usize = 0;
        while i < slugs.len()
            invariant
                0 <= i <= slugs@.len(),
                outcomes@.len() == slugs@.len() - i,
                self.kalshi_events_found == old(self).kalshi_events_found,
                self.poly_matches >= old(self).poly_matches,
                self.poly_misses >= old(self).poly_misses,
                self.pairs@.len() >= old(self).pairs@.len(),
                self.errors@.len() >= old(self).errors@.len(),
                self.pairs@.len() - old(self).pairs@.len() == self.poly_matches - old(self).poly_matches,
                (self.poly_matches - old(self).poly_matches) + (self.poly_misses - old(self).poly_misses)
                    + (self.errors@.len() - old(self).errors@.len()) == i,
                old(self).poly_matches + slugs@.len() <= usize::MAX,
                old(self).poly_misses + slugs@.len() <= usize::MAX,
                old(self).pairs@ == self.pairs@.subrange(0, old(self).pairs@.len() as int),
            decreases slugs@.len() - i,
        {
            let outcome = outcomes.remove(0);
            let ghost before = self.pairs@;
            self.record_lookup(slugs[i].as_str(), outcome);
            proof {
                if self.pairs@.len() > before.len() {
                    assert(self.pairs@.drop_last() == before);
                    assert(old(self).pairs@ =~= self.pairs@.subrange(0, old(self).pairs@.len() as int));
                }
            }
            i = i + 1;
        }
    }
}

} // verus!
