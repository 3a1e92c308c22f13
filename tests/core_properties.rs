use arb_bot::circuit_breaker::{CircuitBreaker, CircuitBreakerConfig, TripReason};
use arb_bot::config::{get_league_config, get_league_configs, ARB_THRESHOLD_CENTS};
use arb_bot::discovery::{
    parse_slug_list, league_of_slug, slugs_to_look_up, DiscoveryCache, DiscoveryClient, DiscoveryPlan, DiscoveryResult, LookupOutcome,
    CACHE_TTL_SECS,
};
use arb_bot::execution::{dry_run_fill, plan_orders, reconcile, request_contracts, unit_price, CloseOrder, LegFill};
use arb_bot::market::{best_candidate, fxhash_str, request_from, with_side, AtomicMarketState, GlobalState, MarketPair, MarketType};
use arb_bot::position_tracker::{PositionLeg, PositionTracker, FillRecord, Side};
use arb_bot::price_text::parse_price as parse_price_text;
use arb_bot::text::{str_eq, trim_chars};
use arb_bot::types::{arb_mask, cents_to_price, pack_prices, parse_price, price_to_cents, unpack_prices, ArbType, FastExecutionRequest};

fn pair(slug: &str) -> MarketPair {
    MarketPair {
        pair_id: format!("poly-{}", slug),
        league: "epl".into(),
        market_type: MarketType::Moneyline,
        description: format!("Market {}", slug),
        poly_slug: slug.into(),
        poly_yes_token: format!("{}-yes", slug),
        poly_no_token: format!("{}-no", slug),
        line_value: None,
        team_suffix: None,
    }
}

fn config(max_errors: u32) -> CircuitBreakerConfig {
    CircuitBreakerConfig {
        max_position_per_market: 50,
        max_total_position: 200,
        max_daily_loss_cents: 1000,
        max_consecutive_errors: max_errors,
        cooldown_secs: 60,
        enabled: true,
    }
}

#[test]
fn quote_word_reads_back_whole() {
    let w = pack_prices(48, 50, 1000, 700);
    assert_eq!(w, (48u64 << 48) | (50u64 << 32) | (1000u64 << 16) | 700);
    assert_eq!(unpack_prices(w), (48, 50, 1000, 700));
    let row = AtomicMarketState::new();
    assert_eq!(row.load(), (0, 0, 0, 0));
    row.store(65535, 1, 2, 65535);
    assert_eq!(row.load(), (65535, 1, 2, 65535));
    row.store(65535, 1, 2, 65535);
    assert_eq!(row.load(), (65535, 1, 2, 65535));
}

#[test]
fn detector_mask_is_exact() {
    assert_eq!(arb_mask(48, 50, 100), 4);
    assert_eq!(arb_mask(50, 50, 100), 0);
    assert_eq!(arb_mask(49, 50, 100), 4);
    assert_eq!(arb_mask(0, 50, 100), 0);
    assert_eq!(arb_mask(50, 0, 100), 0);
    assert_eq!(arb_mask(1, 1, 3), 4);
    assert_eq!(arb_mask(1, 1, 2), 0);
    assert_eq!(ARB_THRESHOLD_CENTS, 100);
    assert_eq!(ArbType::PolyOnly.bit(), 4);
}

#[test]
fn price_conversion_is_exact() {
    assert_eq!(cents_to_price(45), 450_000);
    assert_eq!(price_to_cents(455_000), Some(46));
    assert_eq!(price_to_cents(454_999), Some(45));
    assert_eq!(price_to_cents(0), Some(0));
    assert_eq!(price_to_cents(u64::MAX), None);
    for cents in 1u16..=99 {
        assert_eq!(price_to_cents(cents_to_price(cents)), Some(cents));
    }
}

#[test]
fn price_text_edge_cases() {
    assert_eq!(parse_price("1"), 100);
    assert_eq!(parse_price("1.5"), 150);
    assert_eq!(parse_price("0.125"), 13);
    assert_eq!(parse_price("0.124"), 12);
    assert_eq!(parse_price(""), 0);
    assert_eq!(parse_price("."), 0);
    assert_eq!(parse_price("0."), 0);
    assert_eq!(parse_price(".5"), 0);
    assert_eq!(parse_price("0.5x"), 0);
    assert_eq!(parse_price("655.35"), 65535);
    assert_eq!(parse_price("655.36"), 0);
    assert_eq!(parse_price("99999999999999"), 0);
    assert_eq!(parse_price_text("0.45"), 45);
}

#[test]
fn execution_request_fee_and_profit() {
    let req = FastExecutionRequest {
        market_id: 3,
        yes_price: 48,
        no_price: 50,
        yes_size: 1000,
        no_size: 700,
        arb_type: ArbType::PolyOnly,
        detected_ns: 7,
    };
    assert_eq!(req.profit_cents(), 2);
    assert_eq!(request_contracts(&req), 10);
    let orders = plan_orders(&req, (48, 50, 1000, 700)).expect("still profitable");
    assert_eq!(orders.0.side, Side::Yes);
    assert_eq!(orders.0.price, 48);
    assert_eq!(orders.0.contracts, 10);
    assert_eq!(orders.1.side, Side::No);
    assert_eq!(orders.1.price, 50);
    assert_eq!(orders.1.contracts, 7);
    assert!(plan_orders(&req, (50, 50, 1000, 1000)).is_none());
}

#[test]
fn scenario_full_fill_profit() {
    let (state, id) = {
        let mut s = GlobalState::new();
        let id = s.add_pair(pair("epl-che-avl")).unwrap();
        (s, id)
    };
    let m = state.get_by_id(id).unwrap();
    m.poly.store(48, 50, 1000, 1000);
    assert_eq!(m.check_arbs(100) & 4, 4);
    let yes = dry_run_fill(&arb_bot::execution::LegOrder { side: Side::Yes, price: 48, contracts: 10 });
    let no = dry_run_fill(&arb_bot::execution::LegOrder { side: Side::No, price: 50, contracts: 10 });
    let out = reconcile(&yes, &no);
    assert_eq!(out.matched, 10);
    assert_eq!(out.profit_cents, 20);
    assert_eq!(out.close, None);
    assert!(!out.any_error);
}

#[test]
fn scenario_no_arb_no_request() {
    let mut s = GlobalState::new();
    s.add_pair(pair("epl-a-b")).unwrap();
    let h = fxhash_str("epl-a-b-yes");
    assert!(s.on_price_event(h, Side::Yes, 50, 1000, 100, 1).is_none());
    let hn = fxhash_str("epl-a-b-no");
    assert!(s.on_price_event(hn, Side::No, 50, 1000, 100, 2).is_none());
    assert_eq!(s.get_by_id(0).unwrap().poly.load(), (50, 50, 1000, 1000));
    let req = s.on_price_event(hn, Side::No, 45, 900, 100, 3).expect("arb");
    assert_eq!((req.market_id, req.yes_price, req.no_price, req.yes_size, req.no_size, req.detected_ns), (0, 50, 45, 1000, 900, 3));
    assert!(s.on_price_event(12345, Side::Yes, 10, 10, 100, 4).is_none());
}

#[test]
fn scenario_partial_fill_closes_excess() {
    let out = reconcile(&LegFill { filled: 10, cost_cents: 450, order_id: "y".into(), errored: false }, &LegFill { filled: 7, cost_cents: 350, order_id: "n".into(), errored: false });
    assert_eq!(out.matched, 7);
    assert_eq!(out.close, Some(CloseOrder { side: Side::Yes, contracts: 3 }));
    let out = reconcile(&LegFill::failed(), &LegFill { filled: 10, cost_cents: 500, order_id: "n".into(), errored: false });
    assert_eq!(out.matched, 0);
    assert_eq!(out.close, Some(CloseOrder { side: Side::No, contracts: 10 }));
    assert!(out.any_error);
}

#[test]
fn unit_price_of_legs() {
    assert_eq!(unit_price(&LegFill { filled: 7, cost_cents: 315, order_id: String::new(), errored: false }), 450_000);
    assert_eq!(unit_price(&LegFill { filled: 3, cost_cents: 100, order_id: String::new(), errored: false }), 333_333);
    assert_eq!(unit_price(&LegFill::failed()), 0);
}

#[test]
fn scenario_per_market_cap() {
    let mut cb = CircuitBreaker::new(config(3));
    cb.record_success("m", 45, 0, 0);
    match cb.can_execute("m", 10, 0) {
        Err(TripReason::MaxPositionPerMarket { market, position, limit }) => {
            assert_eq!(market, "m");
            assert_eq!(position, 45);
            assert_eq!(limit, 50);
        }
        _ => panic!("expected the per-market cap"),
    }
    assert!(cb.can_execute("m", 5, 0).is_ok());
    assert_eq!(cb.position_of("m"), 45);
    assert_eq!(cb.position_of("other"), 0);
}

#[test]
fn scenario_errors_halt_until_reset() {
    let mut cb = CircuitBreaker::new(config(3));
    cb.record_error(100);
    cb.record_error(100);
    cb.record_error(100);
    assert!(!cb.is_trading_allowed());
    assert!(matches!(cb.status().trip_reason, Some(TripReason::ConsecutiveErrors { count: 3, max: 3 })));
    cb.record_success("m", 1, 1, 0);
    assert!(!cb.is_trading_allowed());
    assert!(matches!(cb.can_execute("m", 1, 120), Err(TripReason::ConsecutiveErrors { .. })));
    cb.reset();
    assert!(cb.is_trading_allowed());
    assert!(cb.can_execute("m", 1, 120).is_ok());
}

#[test]
fn halt_lifts_after_cooldown_at_admission() {
    let mut cb = CircuitBreaker::new(config(1));
    cb.record_error(100);
    assert!(cb.can_execute("m", 1, 159).is_err());
    assert!(cb.can_execute("m", 1, 160).is_ok());
    assert!(cb.is_trading_allowed());
}

#[test]
fn scenario_daily_loss_trips() {
    let mut cb = CircuitBreaker::new(config(3));
    cb.record_success("a", 1, 1, -300);
    cb.record_success("b", 1, 1, -400);
    assert!(cb.can_execute("c", 1, 0).is_ok());
    cb.record_success("c", 1, 1, -500);
    match cb.can_execute("d", 1, 0) {
        Err(TripReason::MaxDailyLoss { loss_cents, limit_cents }) => {
            assert_eq!(loss_cents, 1200);
            assert_eq!(limit_cents, 1000);
        }
        _ => panic!("expected the daily loss limit"),
    }
    assert!(!cb.is_trading_allowed());
    cb.reset_daily();
    assert_eq!(cb.daily_pnl_cents, 0);
}

#[test]
fn disabled_breaker_never_halts() {
    let mut c = config(1);
    c.enabled = false;
    let mut cb = CircuitBreaker::new(c);
    cb.record_success("m", 1000, 1000, -100_000);
    for _ in 0..10 {
        cb.record_error(0);
    }
    assert!(cb.is_trading_allowed());
    assert!(cb.can_execute("m", 1_000_000, 0).is_ok());
    assert!(!cb.status().halted);
}

#[test]
fn leg_basis_resets_when_flat() {
    let mut leg = PositionLeg::new();
    assert!(leg.add(3, 333_333));
    assert_eq!(leg.cost_basis, 999_999);
    assert_eq!(leg.avg_price, 333_333);
    assert!(leg.add(-5, 400_000));
    assert_eq!((leg.contracts, leg.cost_basis, leg.avg_price), (-2, 0, 0));
    assert!(!leg.add(1, 2_000_000));
    assert_eq!(leg.contracts, -2);
}

#[test]
fn ledger_resolve_adds_to_pnl() {
    let mut t = PositionTracker::new();
    t.record_fill(&FillRecord::new("m", "d", "polymarket", Side::Yes, 10, 450_000, 0, "a"));
    t.record_fill(&FillRecord::new("m", "d", "polymarket", Side::No, 10, 500_000, 10_000, "b"));
    assert!(t.resolve("m", false));
    assert!(!t.resolve("m", false));
    assert!(!t.resolve("x", true));
    assert_eq!(t.daily_realized_pnl, 490_000);
    assert_eq!(t.all_time_pnl, 490_000);
    assert_eq!(t.summary().open_positions, 0);
    assert_eq!(t.get("m").unwrap().status.as_str(), "resolved");
}

#[test]
fn league_lookup_by_code_or_prefix() {
    assert_eq!(get_league_configs().len(), 14);
    let c = get_league_config("bun").expect("by prefix");
    assert_eq!(c.league_code, "bundesliga");
    let c = get_league_config("ligue1").expect("by code");
    assert_eq!(c.poly_prefix, "fl1");
    assert!(get_league_config("xyz").is_none());
    let client = DiscoveryClient::new();
    assert_eq!(client.select_leagues(&[]).len(), 14);
    let picked = client.select_leagues(&["nba", "nope", "cfb"]);
    assert_eq!(picked.len(), 2);
    assert_eq!(picked[1].league_code, "ncaaf");
}

#[test]
fn discovery_plan_follows_cache_age() {
    let client = DiscoveryClient::new();
    assert_eq!(client.plan(None, 10_000, false), DiscoveryPlan::Full);
    assert_eq!(client.plan(Some(10_000), 10_000, true), DiscoveryPlan::Full);
    assert_eq!(client.plan(Some(1_000), 1_000 + CACHE_TTL_SECS, false), DiscoveryPlan::UseCache);
    assert_eq!(client.plan(Some(1_000), 1_001 + CACHE_TTL_SECS, false), DiscoveryPlan::Incremental);
    assert_eq!(client.plan(Some(5_000), 1_000, false), DiscoveryPlan::UseCache);
}

#[test]
fn cache_knows_its_slugs() {
    let cache = DiscoveryCache::new_at(vec![pair("epl-a"), pair("epl-b")], 500);
    assert_eq!(cache.known_poly_slugs, vec!["epl-a".to_string(), "epl-b".to_string()]);
    assert!(cache.has_slug("epl-b"));
    assert!(!cache.has_slug("epl-c"));
    assert_eq!(cache.age_secs_at(600), 100);
    assert_eq!(cache.age_secs_at(100), 0);
    assert!(!cache.is_expired_at(500 + CACHE_TTL_SECS));
    assert!(cache.is_expired_at(501 + CACHE_TTL_SECS));
    let result = DiscoveryResult::from_cache(cache);
    assert_eq!(result.poly_matches, 2);
}

#[test]
fn incremental_merge_keeps_cached_and_adds_new() {
    let client = DiscoveryClient::new();
    let found = vec![pair("b"), pair("c"), pair("c"), pair("d")];
    let (all, n) = client.merge_found(vec![pair("a"), pair("b")], &found);
    let slugs: Vec<&str> = all.iter().map(|p| p.poly_slug.as_str()).collect();
    assert_eq!(slugs, vec!["a", "b", "c", "d"]);
    assert_eq!(n, 2);
}

#[test]
fn slug_list_is_split_and_trimmed() {
    assert_eq!(parse_slug_list(" epl-che-avl-2025-12-08 ,, epl-mci-liv ,\t"), vec!["epl-che-avl-2025-12-08".to_string(), "epl-mci-liv".to_string()]);
    assert!(parse_slug_list("").is_empty());
    assert_eq!(parse_slug_list("x"), vec!["x".to_string()]);
    assert_eq!(league_of_slug("epl-che-avl"), "epl");
    assert_eq!(league_of_slug("nodash"), "nodash");
    assert_eq!(league_of_slug("-lead"), "");
    assert_eq!(trim_chars(&[' ', 'a', ' ', 'b', '\u{3000}']), vec!['a', ' ', 'b']);
    assert!(str_eq("abc", "abc"));
    assert!(!str_eq("abc", "abd"));
}

#[test]
fn lookup_outcomes_are_booked() {
    let mut r = DiscoveryResult::empty();
    r.record_lookup("epl-che-avl", LookupOutcome::Found { yes_token: "Y".into(), no_token: "N".into(), description: "Chelsea vs Villa".into() });
    r.record_lookup("epl-x", LookupOutcome::Missing);
    r.record_lookup("epl-y", LookupOutcome::Failed { message: "timeout".into() });
    assert_eq!(r.pairs.len(), 1);
    assert_eq!(r.pairs[0].pair_id, "poly-epl-che-avl");
    assert_eq!(r.pairs[0].league, "epl");
    assert_eq!(r.pairs[0].poly_slug, "epl-che-avl");
    assert_eq!(r.poly_matches, 1);
    assert_eq!(r.poly_misses, 1);
    assert_eq!(r.errors, vec!["Failed to lookup epl-y: timeout".to_string()]);
    r.finish_full();
    assert_eq!(r.kalshi_events_found, 1);
}

#[test]
fn token_hash_is_fx() {
    assert_eq!(fxhash_str(""), 0);
    assert_eq!(fxhash_str("a"), 97u64.wrapping_mul(0x517cc1b727220a95));
    assert_ne!(fxhash_str("arb_yes_token"), fxhash_str("arb_no_token"));
}

#[test]
fn heartbeat_picks_cheapest_quoted_market() {
    let quotes = vec![(0, 50, 0, 0), (49, 50, 1, 1), (45, 50, 1, 1), (40, 55, 1, 1), (30, 0, 1, 1)];
    assert_eq!(best_candidate(&quotes), Some((95, 2)));
    assert_eq!(best_candidate(&vec![(0, 0, 0, 0)]), None);
}

#[test]
fn table_refuses_past_its_size() {
    let mut s = GlobalState::new();
    for i in 0..arb_bot::market::MAX_MARKETS {
        assert_eq!(s.add_pair(pair(&format!("s{}", i))), Some(i as u16));
    }
    assert_eq!(s.add_pair(pair("one-more")), None);
    assert_eq!(s.market_count(), arb_bot::market::MAX_MARKETS);
}

#[test]
fn leagues_merge_without_repeating_slugs() {
    let mut total = DiscoveryResult::empty();
    let mut first = DiscoveryResult::empty();
    first.record_lookup("epl-a", LookupOutcome::Found { yes_token: "y".into(), no_token: "n".into(), description: "A".into() });
    let mut second = DiscoveryResult::empty();
    second.record_lookup("epl-a", LookupOutcome::Found { yes_token: "y".into(), no_token: "n".into(), description: "A".into() });
    second.record_lookup("epl-b", LookupOutcome::Missing);
    total.absorb(first);
    total.absorb(second);
    assert_eq!(total.pairs.len(), 1);
    assert_eq!(total.poly_matches, 1);
    assert_eq!(total.poly_misses, 1);
    total.finish_full();
    assert_eq!(total.kalshi_events_found, 1);
}

#[test]
fn lookups_are_counted_once_each() {
    let cache = DiscoveryCache::new_at(vec![pair("epl-known")], 0);
    let slugs = parse_slug_list("epl-known, epl-new , epl-gone,epl-bad");
    let todo = slugs_to_look_up(&slugs, Some(&cache));
    assert_eq!(todo, vec!["epl-new".to_string(), "epl-gone".to_string(), "epl-bad".to_string()]);
    assert_eq!(slugs_to_look_up(&slugs, None).len(), 4);
    let mut r = DiscoveryResult::empty();
    r.book_lookups(
        &todo,
        vec![
            LookupOutcome::Found { yes_token: "y1".into(), no_token: "n1".into(), description: "New".into() },
            LookupOutcome::Missing,
            LookupOutcome::Failed { message: "boom".into() },
        ],
    );
    assert_eq!((r.pairs.len(), r.poly_matches, r.poly_misses, r.errors.len()), (1, 1, 1, 1));
    assert!(r.pairs[0].line_value.is_none());
    assert!(r.pairs[0].team_suffix.is_none());
    assert_eq!(r.errors[0], "Failed to lookup epl-bad: boom");
}

#[test]
fn resolution_pays_the_winning_side() {
    let mut t = PositionTracker::new();
    t.record_fill(&FillRecord::new("m", "d", "polymarket", Side::Yes, 10, 450_000, 0, "a"));
    t.record_fill(&FillRecord::new("m", "d", "polymarket", Side::No, 7, 500_000, 0, "b"));
    assert!(t.resolve("m", false));
    assert_eq!(t.get("m").unwrap().realized_pnl, Some(7_000_000 - 8_000_000));
    let mut u = PositionTracker::new();
    u.record_fill(&FillRecord::new("m", "d", "polymarket", Side::Yes, 10, 450_000, 0, "a"));
    u.record_fill(&FillRecord::new("m", "d", "polymarket", Side::No, 7, 500_000, 0, "b"));
    assert!(u.resolve("m", true));
    assert_eq!(u.get("m").unwrap().realized_pnl, Some(10_000_000 - 8_000_000));
}

#[test]
fn feed_event_pieces_are_exact() {
    assert_eq!(with_side((40, 50, 7, 8), Side::Yes, 41, 9), (41, 50, 9, 8));
    assert_eq!(with_side((40, 50, 7, 8), Side::No, 49, 1), (40, 49, 7, 1));
    let req = request_from(5, (45, 50, 300, 400), 100, 11).expect("arb");
    assert_eq!((req.market_id, req.yes_price, req.no_price, req.yes_size, req.no_size, req.detected_ns), (5, 45, 50, 300, 400, 11));
    assert!(request_from(5, (50, 50, 300, 400), 100, 11).is_none());
    assert!(request_from(5, (0, 50, 300, 400), 100, 11).is_none());
}

#[test]
fn round_booking_refuses_nothing_in_bounds() {
    let mut t = PositionTracker::new();
    let mut cb = CircuitBreaker::new(config(3));
    let p = pair("epl-x");
    let yes = LegFill { filled: 10, cost_cents: 450, order_id: "y".into(), errored: false };
    let no = LegFill { filled: 7, cost_cents: 350, order_id: "n".into(), errored: true };
    let out = reconcile(&yes, &no);
    assert!(arb_bot::execution::book_round(&mut t, &mut cb, &p, &yes, &no, &out, 5));
    let pos = t.get("poly-epl-x").unwrap();
    assert_eq!((pos.poly_yes.contracts, pos.poly_no.contracts), (7, 7));
    assert_eq!((pos.poly_yes.avg_price, pos.poly_no.avg_price), (450_000, 500_000));
    assert_eq!(cb.consecutive_errors, 1);
    assert_eq!(cb.total_position, 14);
    assert_eq!(cb.daily_pnl_cents, -100);
    let none = LegFill::failed();
    let out = reconcile(&none, &LegFill::failed());
    assert!(!arb_bot::execution::book_round(&mut t, &mut cb, &p, &none, &LegFill::failed(), &out, 5));
    assert_eq!(cb.consecutive_errors, 2);
}
