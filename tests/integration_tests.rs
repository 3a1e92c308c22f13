use arb_bot::circuit_breaker::{CircuitBreaker, CircuitBreakerConfig, TripReason};
use arb_bot::execution::{book_round, reconcile, LegFill};
use arb_bot::market::{fxhash_str, GlobalState, MarketPair, MarketType};
use arb_bot::position_tracker::{ArbPosition, FillRecord, PositionStatus, PositionTracker, Side};
use arb_bot::types::{cents_to_price, parse_price, price_to_cents, ArbType, FastExecutionRequest, PriceCents, NO_PRICE};

fn fill(market: &str, side: Side, contracts: i64, price_micros: i64, order: &str) -> FillRecord {
    FillRecord::new(market, "Test Market", "polymarket", side, contracts, price_micros, 0, order)
}

fn test_config() -> CircuitBreakerConfig {
    CircuitBreakerConfig {
        max_position_per_market: 50,
        max_total_position: 200,
        max_daily_loss_cents: 2500,
        max_consecutive_errors: 3,
        cooldown_secs: 60,
        enabled: true,
    }
}

fn setup_market(poly_yes: PriceCents, poly_no: PriceCents) -> (GlobalState, u16) {
    let mut state = GlobalState::new();
    let pair = MarketPair {
        pair_id: "arb-test-market".into(),
        league: "epl".into(),
        market_type: MarketType::Moneyline,
        description: "Test Market".into(),
        poly_slug: "arb-test".into(),
        poly_yes_token: "arb_yes_token".into(),
        poly_no_token: "arb_no_token".into(),
        line_value: None,
        team_suffix: Some("CFC".into()),
    };
    let market_id = state.add_pair(pair).unwrap();
    let market = state.get_by_id(market_id).unwrap();
    market.poly.store(poly_yes, poly_no, 1000, 1000);
    (state, market_id)
}

fn request(yes: PriceCents, no: PriceCents) -> FastExecutionRequest {
    FastExecutionRequest {
        market_id: 0,
        yes_price: yes,
        no_price: no,
        yes_size: 1000,
        no_size: 1000,
        arb_type: ArbType::PolyOnly,
        detected_ns: 0,
    }
}

#[test]
fn test_record_fills_updates_position() {
    let mut tracker = PositionTracker::new();
    assert!(tracker.record_fill(&fill("TEST-MARKET", Side::Yes, 10, 450_000, "order123")));
    assert!(tracker.record_fill(&fill("TEST-MARKET", Side::No, 10, 500_000, "order456")));
    let summary = tracker.summary();
    assert_eq!(summary.open_positions, 1);
    assert!(summary.total_contracts > 0);
    assert!(summary.total_cost_basis > 9_000_000);
    assert_eq!(summary.total_cost_basis, 9_500_000);
}

#[test]
fn test_matched_arb_guaranteed_profit() {
    let mut pos = ArbPosition::new("TEST-MARKET", "Test");
    assert!(pos.poly_yes.add(10, 450_000));
    assert!(pos.poly_no.add(10, 500_000));
    pos.total_fees = 0;
    assert_eq!(pos.total_cost(), 9_500_000);
    assert_eq!(pos.matched_contracts(), 10);
    assert!(pos.guaranteed_profit() > 0);
    assert_eq!(pos.guaranteed_profit(), 500_000);
}

#[test]
fn test_partial_fill_creates_exposure() {
    let mut pos = ArbPosition::new("TEST-MARKET", "Test");
    pos.poly_yes.add(10, 450_000);
    pos.poly_no.add(7, 500_000);
    assert_eq!(pos.matched_contracts(), 7);
    assert_eq!(pos.unmatched_exposure(), 3);
}

#[test]
fn test_position_resolution() {
    let mut pos = ArbPosition::new("TEST-MARKET", "Test");
    pos.poly_yes.add(10, 450_000);
    pos.poly_no.add(10, 500_000);
    pos.total_fees = 0;
    pos.resolve(true);
    assert_eq!(pos.status.as_str(), "resolved");
    let pnl = pos.realized_pnl.expect("Should have realized P&L");
    assert_eq!(pnl, 500_000);
}

#[test]
fn test_daily_pnl_persistence() {
    let mut tracker = PositionTracker::new();
    tracker.all_time_pnl = 100_000_000;
    tracker.daily_realized_pnl = 10_000_000;
    tracker.reset_daily();
    assert_eq!(tracker.daily_realized_pnl, 0);
    assert_eq!(tracker.all_time_pnl, 100_000_000);
}

#[test]
fn test_allows_trades_within_limits() {
    let mut cb = CircuitBreaker::new(test_config());
    assert!(cb.can_execute("market1", 10, 1000).is_ok());
    cb.record_success("market1", 10, 10, 50);
    assert!(cb.can_execute("market1", 10, 1000).is_ok());
}

#[test]
fn test_blocks_per_market_limit() {
    let mut cb = CircuitBreaker::new(test_config());
    cb.record_success("market1", 45, 45, 100);
    let result = cb.can_execute("market1", 10, 1000);
    assert!(matches!(result, Err(TripReason::MaxPositionPerMarket { .. })));
}

#[test]
fn test_blocks_total_position_limit() {
    let mut cb = CircuitBreaker::new(test_config());
    cb.record_success("market1", 50, 50, 100);
    cb.record_success("market2", 50, 50, 100);
    cb.record_success("market3", 50, 50, 100);
    cb.record_success("market4", 45, 45, 100);
    let result = cb.can_execute("market5", 10, 1000);
    assert!(matches!(result, Err(TripReason::MaxTotalPosition { .. })));
}

#[test]
fn test_consecutive_errors_trip() {
    let mut cb = CircuitBreaker::new(test_config());
    cb.record_error(1000);
    assert!(cb.is_trading_allowed());
    cb.record_error(1000);
    assert!(cb.is_trading_allowed());
    cb.record_error(1000);
    assert!(!cb.is_trading_allowed());
    let status = cb.status();
    assert!(status.halted);
    assert!(matches!(status.trip_reason, Some(TripReason::ConsecutiveErrors { .. })));
}

#[test]
fn test_success_resets_errors() {
    let mut cb = CircuitBreaker::new(test_config());
    cb.record_error(1000);
    cb.record_error(1000);
    cb.record_success("market1", 10, 10, 50);
    let status = cb.status();
    assert_eq!(status.consecutive_errors, 0);
    cb.record_error(1000);
    cb.record_error(1000);
    assert!(cb.is_trading_allowed());
}

#[test]
fn test_manual_reset() {
    let mut cb = CircuitBreaker::new(test_config());
    cb.record_error(1000);
    cb.record_error(1000);
    cb.record_error(1000);
    assert!(!cb.is_trading_allowed());
    cb.reset();
    assert!(cb.is_trading_allowed());
    let status = cb.status();
    assert!(!status.halted);
    assert!(status.trip_reason.is_none());
}

#[test]
fn test_disabled_allows_all() {
    let mut config = test_config();
    config.enabled = false;
    let mut cb = CircuitBreaker::new(config);
    assert!(cb.can_execute("market1", 1000, 1000).is_ok());
    cb.record_error(1000);
    cb.record_error(1000);
    cb.record_error(1000);
    cb.record_error(1000);
    assert!(cb.is_trading_allowed());
}

#[test]
fn test_circuit_breaker_halts_on_losses() {
    let config = CircuitBreakerConfig {
        max_position_per_market: 100,
        max_total_position: 500,
        max_daily_loss_cents: 1000,
        max_consecutive_errors: 5,
        cooldown_secs: 60,
        enabled: true,
    };
    let mut cb = CircuitBreaker::new(config);
    cb.record_success("market1", 10, 10, -300);
    cb.record_success("market2", 10, 10, -400);
    assert!(cb.can_execute("market3", 10, 1000).is_ok());
    cb.record_success("market3", 10, 10, -500);
    let result = cb.can_execute("market4", 10, 1000);
    assert!(matches!(result, Err(TripReason::MaxDailyLoss { .. })));
}

#[test]
fn test_partial_fill_exposure_tracking() {
    let mut tracker = PositionTracker::new();
    tracker.record_fill(&fill("TEST-MARKET", Side::Yes, 10, 450_000, "order1"));
    tracker.record_fill(&fill("TEST-MARKET", Side::No, 7, 500_000, "order2"));
    let summary = tracker.summary();
    assert!(summary.total_unmatched_exposure > 0);
    let position = tracker.get("TEST-MARKET").expect("Should have position");
    assert_eq!(position.matched_contracts(), 7);
    assert_eq!(position.unmatched_exposure(), 3);
}

#[test]
fn test_fill_price_slippage() {
    let mut tracker = PositionTracker::new();
    tracker.record_fill(&fill("TEST-MARKET", Side::Yes, 10, 470_000, "order1"));
    let pos = tracker.get("TEST-MARKET").expect("Should have position");
    assert_eq!(pos.poly_yes.avg_price, 470_000);
    assert_eq!(pos.poly_yes.cost_basis, 4_700_000);
}

#[test]
fn test_multiple_fills_weighted_average() {
    let mut pos = ArbPosition::new("TEST", "Test");
    pos.poly_yes.add(5, 450_000);
    pos.poly_yes.add(5, 470_000);
    assert_eq!(pos.poly_yes.avg_price, 460_000);
    assert_eq!(pos.poly_yes.cost_basis, 4_600_000);
    assert_eq!(pos.poly_yes.contracts, 10);
}

#[test]
fn test_polymarket_no_fees() {
    let mut tracker = PositionTracker::new();
    tracker.record_fill(&fill("TEST-MARKET", Side::No, 10, 500_000, "order1"));
    let pos = tracker.get("TEST-MARKET").expect("Should have position");
    assert_eq!(pos.total_fees, 0);
}

#[test]
fn test_detects_poly_only_arb() {
    let (state, market_id) = setup_market(48, 50);
    let market = state.get_by_id(market_id).unwrap();
    assert!(market.check_arbs(100) & 4 != 0);
}

#[test]
fn test_rejects_marginal_arb() {
    let (state, market_id) = setup_market(50, 50);
    let market = state.get_by_id(market_id).unwrap();
    assert!(market.check_arbs(100) & 4 == 0);
}

#[test]
fn test_no_arbs_in_efficient_market() {
    let (state, market_id) = setup_market(52, 52);
    let market = state.get_by_id(market_id).unwrap();
    assert_eq!(market.check_arbs(100), 0);
}

#[test]
fn test_handles_missing_prices() {
    let (state, market_id) = setup_market(50, NO_PRICE);
    let market = state.get_by_id(market_id).unwrap();
    assert_eq!(market.check_arbs(100), 0);
}

#[test]
fn test_execution_request_profit_calculation() {
    assert_eq!(request(45, 50).profit_cents(), 5);
}

#[test]
fn test_execution_request_negative_profit() {
    assert!(request(52, 52).profit_cents() < 0);
}

#[test]
fn test_lookup_by_poly_hashes() {
    let (state, market_id) = setup_market(50, 50);
    let poly_yes_hash = fxhash_str("arb_yes_token");
    let poly_no_hash = fxhash_str("arb_no_token");
    assert_eq!(state.id_by_poly_yes_hash(poly_yes_hash), Some(market_id));
    assert_eq!(state.id_by_poly_no_hash(poly_no_hash), Some(market_id));
}

#[test]
fn test_multiple_markets() {
    let mut state = GlobalState::new();
    for i in 0..5 {
        let pair = MarketPair {
            pair_id: format!("market-{}", i),
            league: "epl".into(),
            market_type: MarketType::Moneyline,
            description: format!("Market {}", i),
            poly_slug: format!("test-{}", i),
            poly_yes_token: format!("yes_{}", i),
            poly_no_token: format!("no_{}", i),
            line_value: None,
            team_suffix: None,
        };
        let id = state.add_pair(pair).unwrap();
        assert_eq!(id, i as u16);
    }
    assert_eq!(state.market_count(), 5);
    for i in 0..5 {
        assert!(state.get_by_id(i as u16).is_some());
    }
}

#[test]
fn test_price_conversion_roundtrip() {
    for cents in [1u16, 10, 25, 50, 75, 90, 99] {
        let price = cents_to_price(cents);
        let back = price_to_cents(price);
        assert_eq!(back, Some(cents), "Roundtrip failed for {}", cents);
    }
}

#[test]
fn test_parse_price_accuracy() {
    assert_eq!(parse_price("0.50"), 50);
    assert_eq!(parse_price("0.01"), 1);
    assert_eq!(parse_price("0.99"), 99);
    assert_eq!(parse_price("0.5"), 50);
    assert_eq!(parse_price("invalid"), 0);
}

#[test]
fn test_complete_arb_flow() {
    let (state, market_id) = setup_market(45, 50);
    let market = state.get_by_id(market_id).unwrap();
    let arb_mask = market.check_arbs(100);
    assert!(arb_mask & 4 != 0);
    let (p_yes, p_no, p_yes_sz, p_no_sz) = market.poly.load();
    let req = FastExecutionRequest {
        market_id,
        yes_price: p_yes,
        no_price: p_no,
        yes_size: p_yes_sz,
        no_size: p_no_sz,
        arb_type: ArbType::PolyOnly,
        detected_ns: 0,
    };
    assert_eq!(req.yes_price, 45);
    assert_eq!(req.no_price, 50);
    assert!(req.profit_cents() > 0);
    let pair = market.pair.as_ref().expect("Should have pair");
    assert!(!pair.poly_yes_token.is_empty());
    assert!(!pair.poly_no_token.is_empty());
}

#[test]
fn test_execution_profit_threshold() {
    assert!(request(50, 50).profit_cents() <= 0);
}

#[test]
fn test_circuit_breaker_integration() {
    let mut cb = CircuitBreaker::new(test_config());
    cb.record_success("market1", 45, 45, 100);
    let result = cb.can_execute("market1", 10, 1000);
    assert!(matches!(result, Err(TripReason::MaxPositionPerMarket { .. })));
}

#[test]
fn test_position_tracker_integration() {
    let mut tracker = PositionTracker::new();
    tracker.record_fill(&fill("test-market-1", Side::Yes, 10, 450_000, "test_order_123"));
    tracker.record_fill(&fill("test-market-1", Side::No, 10, 500_000, "test_order_456"));
    let summary = tracker.summary();
    assert_eq!(summary.open_positions, 1);
    assert!(summary.total_guaranteed_profit > 0);
}

#[test]
fn test_poly_yes_fills_more_than_no_creates_exposure() {
    let mut tracker = PositionTracker::new();
    tracker.record_fill(&fill("TEST-MARKET", Side::No, 7, 500_000, "poly_no_order_1"));
    tracker.record_fill(&fill("TEST-MARKET", Side::Yes, 10, 450_000, "poly_yes_order_1"));
    let pos = tracker.get("TEST-MARKET").expect("Should have position");
    assert_eq!(pos.poly_yes.contracts, 10);
    assert_eq!(pos.poly_no.contracts, 7);
}

#[test]
fn test_poly_no_fills_more_than_yes_creates_exposure() {
    let mut tracker = PositionTracker::new();
    tracker.record_fill(&fill("TEST-MARKET", Side::No, 10, 500_000, "poly_no_order_1"));
    tracker.record_fill(&fill("TEST-MARKET", Side::Yes, 6, 450_000, "poly_yes_order_1"));
    let pos = tracker.get("TEST-MARKET").expect("Should have position");
    assert_eq!(pos.poly_no.contracts, 10);
    assert_eq!(pos.poly_yes.contracts, 6);
}

#[test]
fn test_auto_close_poly_yes_excess_balances_position() {
    let mut tracker = PositionTracker::new();
    tracker.record_fill(&fill("TEST-MARKET", Side::No, 7, 500_000, "poly_no_order_1"));
    tracker.record_fill(&fill("TEST-MARKET", Side::Yes, 10, 450_000, "poly_yes_order_1"));
    tracker.record_fill(&fill("TEST-MARKET", Side::Yes, -3, 430_000, "poly_close_order"));
    let pos = tracker.get("TEST-MARKET").expect("Should have position");
    assert_eq!(pos.poly_yes.contracts, 7);
    assert_eq!(pos.poly_no.contracts, 7);
}

#[test]
fn test_auto_close_poly_no_excess_balances_position() {
    let mut tracker = PositionTracker::new();
    tracker.record_fill(&fill("TEST-MARKET", Side::No, 10, 500_000, "poly_no_order_1"));
    tracker.record_fill(&fill("TEST-MARKET", Side::Yes, 6, 450_000, "poly_yes_order_1"));
    tracker.record_fill(&fill("TEST-MARKET", Side::No, -4, 480_000, "poly_close_order"));
    let pos = tracker.get("TEST-MARKET").expect("Should have position");
    assert_eq!(pos.poly_no.contracts, 6);
    assert_eq!(pos.poly_yes.contracts, 6);
}

#[test]
fn test_complete_one_side_failure_full_exposure() {
    let mut tracker = PositionTracker::new();
    tracker.record_fill(&fill("TEST-MARKET", Side::Yes, 10, 450_000, "poly_yes_order_1"));
    let pos = tracker.get("TEST-MARKET").expect("Should have position");
    assert_eq!(pos.poly_yes.contracts, 10);
    assert_eq!(pos.poly_no.contracts, 0);
}

#[test]
fn test_auto_close_after_complete_failure() {
    let mut tracker = PositionTracker::new();
    tracker.record_fill(&fill("TEST-MARKET", Side::Yes, 10, 450_000, "poly_yes_order_1"));
    tracker.record_fill(&fill("TEST-MARKET", Side::Yes, -10, 400_000, "poly_close_order"));
    let pos = tracker.get("TEST-MARKET").expect("Should have position");
    assert_eq!(pos.poly_yes.contracts, 0);
    assert_eq!(pos.poly_yes.cost_basis, 0);
}

#[test]
fn test_profit_with_partial_fill_and_auto_close() {
    let mut tracker = PositionTracker::new();
    tracker.record_fill(&fill("TEST-MARKET", Side::No, 8, 500_000, "poly_no_order_1"));
    tracker.record_fill(&fill("TEST-MARKET", Side::Yes, 10, 450_000, "poly_yes_order_1"));
    tracker.record_fill(&fill("TEST-MARKET", Side::Yes, -2, 430_000, "poly_close_order"));
    let pos = tracker.get("TEST-MARKET").expect("Should have position");
    assert_eq!(pos.poly_no.contracts, 8);
    assert_eq!(pos.poly_yes.contracts, 8);
    assert_eq!(pos.poly_yes.cost_basis, 3_640_000);
}

fn process_pair() -> MarketPair {
    MarketPair {
        pair_id: "process-fast-test".into(),
        league: "epl".into(),
        market_type: MarketType::Moneyline,
        description: "Process Fast Test Market".into(),
        poly_slug: "process-fast-test".into(),
        poly_yes_token: "pf_yes_token".into(),
        poly_no_token: "pf_no_token".into(),
        line_value: None,
        team_suffix: None,
    }
}

fn process_breaker() -> CircuitBreaker {
    CircuitBreaker::new(CircuitBreakerConfig {
        max_position_per_market: 100,
        max_total_position: 500,
        max_daily_loss_cents: 5000,
        max_consecutive_errors: 5,
        cooldown_secs: 60,
        enabled: true,
    })
}

fn leg(filled: i64, cost_cents: i64, order_id: &str) -> LegFill {
    LegFill { filled, cost_cents, order_id: order_id.to_string(), errored: false }
}

fn run_round(tracker: &mut PositionTracker, cb: &mut CircuitBreaker, yes: LegFill, no: LegFill) -> (i64, i64) {
    let pair = process_pair();
    let outcome = reconcile(&yes, &no);
    book_round(tracker, cb, &pair, &yes, &no, &outcome, 1000);
    (outcome.matched, outcome.profit_cents)
}

#[test]
fn test_process_records_fills_with_order_ids() {
    let mut tracker = PositionTracker::new();
    let mut cb = process_breaker();
    let (matched, profit) = run_round(&mut tracker, &mut cb, leg(10, 450, "poly_yes_order_abc123"), leg(10, 500, "poly_no_order_xyz789"));
    assert_eq!(matched, 10);
    assert_eq!(profit, 50);
    let summary = tracker.summary();
    assert_eq!(summary.open_positions, 1);
    assert!(summary.total_contracts > 0);
    let pos = tracker.get("process-fast-test").expect("Should have position");
    assert!(pos.poly_no.contracts > 0);
    assert!(pos.poly_yes.contracts > 0);
}

#[test]
fn test_process_poly_only_sides() {
    let mut tracker = PositionTracker::new();
    let mut cb = process_breaker();
    run_round(&mut tracker, &mut cb, leg(10, 450, "p_yes_order_1"), leg(10, 500, "p_no_order_1"));
    let pos = tracker.get("process-fast-test").expect("Should have position");
    assert_eq!(pos.poly_yes.contracts, 10);
    assert_eq!(pos.poly_no.contracts, 10);
}

#[test]
fn test_process_updates_circuit_breaker() {
    let mut tracker = PositionTracker::new();
    let mut cb = process_breaker();
    run_round(&mut tracker, &mut cb, leg(10, 450, "p_order_3"), leg(10, 500, "p_order_3"));
    let status = cb.status();
    assert_eq!(status.consecutive_errors, 0);
    assert!(status.total_position > 0);
}

#[test]
fn test_process_partial_yes_fill() {
    let mut tracker = PositionTracker::new();
    let mut cb = process_breaker();
    let (matched, _profit) = run_round(&mut tracker, &mut cb, leg(7, 315, "p_partial_yes"), leg(10, 500, "p_full_no"));
    assert_eq!(matched, 7);
    let pos = tracker.get("process-fast-test").expect("Should have position");
    assert_eq!(pos.poly_yes.contracts, 7);
    assert_eq!(pos.poly_no.contracts, 7);
}

#[test]
fn test_process_partial_no_fill() {
    let mut tracker = PositionTracker::new();
    let mut cb = process_breaker();
    let (matched, _profit) = run_round(&mut tracker, &mut cb, leg(10, 450, "p_full_yes"), leg(6, 300, "p_partial_no"));
    assert_eq!(matched, 6);
}

#[test]
fn test_process_zero_yes_fill() {
    let mut tracker = PositionTracker::new();
    let mut cb = process_breaker();
    let (matched, _profit) = run_round(&mut tracker, &mut cb, leg(0, 0, ""), leg(10, 500, "p_only_no"));
    assert_eq!(matched, 0);
}

#[test]
fn test_process_zero_no_fill() {
    let mut tracker = PositionTracker::new();
    let mut cb = process_breaker();
    let (matched, _profit) = run_round(&mut tracker, &mut cb, leg(10, 450, "p_only_yes"), leg(0, 0, ""));
    assert_eq!(matched, 0);
}

#[test]
fn test_process_profit_calculation_full_fill() {
    let mut tracker = PositionTracker::new();
    let mut cb = process_breaker();
    let (matched, profit) = run_round(&mut tracker, &mut cb, leg(10, 450, "p_profit_yes"), leg(10, 500, "p_profit_no"));
    assert_eq!(matched, 10);
    assert_eq!(profit, 50);
}

#[test]
fn test_process_profit_calculation_partial_fill() {
    let mut tracker = PositionTracker::new();
    let mut cb = process_breaker();
    let (matched, profit) = run_round(&mut tracker, &mut cb, leg(7, 315, "p_partial_profit_yes"), leg(10, 500, "p_partial_profit_no"));
    assert_eq!(matched, 7);
    assert_eq!(profit, -115);
}

#[test]
fn test_process_multiple_executions_accumulate() {
    let mut tracker = PositionTracker::new();
    let mut cb = process_breaker();
    run_round(&mut tracker, &mut cb, leg(10, 450, "exec1_yes"), leg(10, 500, "exec1_no"));
    run_round(&mut tracker, &mut cb, leg(5, 225, "exec2_yes"), leg(5, 250, "exec2_no"));
    let pos = tracker.get("process-fast-test").expect("Should have position");
    assert_eq!(pos.poly_yes.contracts, 15);
    assert_eq!(pos.poly_no.contracts, 15);
}

#[test]
fn test_circuit_breaker_accumulates_position() {
    let mut tracker = PositionTracker::new();
    let mut cb = process_breaker();
    for _ in 0..5 {
        run_round(&mut tracker, &mut cb, leg(10, 450, "yes_order"), leg(10, 500, "no_order"));
    }
    assert_eq!(cb.status().total_position, 100);
}

#[test]
fn test_process_poly_only_arb() {
    let mut tracker = PositionTracker::new();
    let mut cb = process_breaker();
    let req = request(48, 50);
    assert_eq!(req.estimated_fee_cents(), 0);
    assert_eq!(req.profit_cents(), 2);
    let (matched, profit) = run_round(&mut tracker, &mut cb, leg(10, 480, "poly_yes"), leg(10, 500, "poly_no"));
    assert_eq!(matched, 10);
    assert_eq!(profit, 20);
}

#[test]
fn test_poly_only_zero_fees() {
    for yes_price in [10u16, 25, 50, 75, 90] {
        for no_price in [10u16, 25, 50, 75, 90] {
            let req = request(yes_price, no_price);
            assert_eq!(req.estimated_fee_cents(), 0);
            assert_eq!(req.profit_cents(), 100 - yes_price as i32 - no_price as i32);
        }
    }
}
