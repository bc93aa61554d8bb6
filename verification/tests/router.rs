use metis_router::quote::VenueQuoteData;
use metis_router::routing::{MetisRouter, Recommendation};
use metis_router::types::{
    DexPlatform, Edge, QuoteRequest, Route, RouteRequest, RouterError, SplitRoute, Token,
    ValidationError,
};
use metis_router::SCALE;

fn token(symbol: &str, address: &str) -> Token {
    Token { symbol: symbol.to_string(), address: address.to_string(), decimals: 9 }
}

fn edge(from: &Token, to: &Token, rate: u64, weight: i64, liquidity: u64, max_trade: u64, min_trade: u64) -> Edge {
    Edge {
        from_token: from.clone(),
        to_token: to.clone(),
        dex_platform: DexPlatform {
            name: "venue1".to_string(),
            address: "venue1-addr".to_string(),
            fee_rate: 2_500_000_000,
        },
        exchange_rate: rate,
        liquidity,
        max_trade_size: max_trade,
        min_trade_size: min_trade,
        weight,
    }
}

fn request(input: &str, output: &str, amount: u64) -> RouteRequest {
    RouteRequest {
        input_token: input.to_string(),
        output_token: output.to_string(),
        input_amount: amount,
        slippage_tolerance: 5_000_000_000,
        max_iterations: 5,
        enable_split_routes: false,
        max_splits: None,
    }
}

const RATE_HALF: u64 = 500_000_000_000;
const WEIGHT_HALF: i64 = 693_147_180_560;

fn seeded_router() -> MetisRouter {
    let mut router = MetisRouter::new();
    let a = token("AAA", "addr-a");
    let b = token("BBB", "addr-b");
    router.add_token(a.clone());
    router.add_token(b.clone());
    router.add_edge(edge(&a, &b, RATE_HALF, WEIGHT_HALF, 1_000_000 * SCALE, 500_000 * SCALE, SCALE));
    router
}

#[test]
fn same_token_is_rejected_before_any_search() {
    let router = seeded_router();
    // Source equals target: validation must reject this before the
    // engine runs, even though the symbol exists in the graph.
    let req = request("AAA", "AAA", 100 * SCALE);
    assert_eq!(
        router.find_optimal_route(req).unwrap_err(),
        RouterError::Validation(ValidationError::IdenticalTokens)
    );
}

#[test]
fn each_validation_rule_has_its_error() {
    let router = seeded_router();

    let mut req = request("AAA", "BBB", 0);
    assert_eq!(
        router.find_optimal_route(req.clone()).unwrap_err(),
        RouterError::Validation(ValidationError::NonPositiveAmount)
    );

    req = request("AAA", "BBB", 100 * SCALE);
    req.slippage_tolerance = 0;
    assert_eq!(
        router.find_optimal_route(req.clone()).unwrap_err(),
        RouterError::Validation(ValidationError::SlippageOutOfRange)
    );
    req.slippage_tolerance = SCALE;
    assert_eq!(
        router.find_optimal_route(req.clone()).unwrap_err(),
        RouterError::Validation(ValidationError::SlippageOutOfRange)
    );

    req = request("AAA", "BBB", 100 * SCALE);
    req.max_iterations = 0;
    assert_eq!(
        router.find_optimal_route(req).unwrap_err(),
        RouterError::Validation(ValidationError::ZeroMaxIterations)
    );
}

#[test]
fn end_to_end_single_route() {
    let router = seeded_router();
    let req = request("AAA", "BBB", 100 * SCALE);
    let response = router.find_optimal_route(req.clone()).unwrap();

    assert_eq!(response.request.input_token, "AAA");
    assert_eq!(response.request.input_amount, 100 * SCALE);
    assert!(response.iterations_used <= req.max_iterations);
    // One improving round plus the fixed-point round.
    assert_eq!(response.iterations_used, 2);
    assert!(response.split_route.is_none());
    let route = response.route.expect("route expected");
    assert_eq!(route.total_input_amount, 100 * SCALE);
    assert_eq!(route.total_output_amount, 50 * SCALE);
    assert_eq!(route.effective_rate, RATE_HALF);
}

#[test]
fn split_fallback_when_the_full_amount_cannot_route() {
    let mut router = MetisRouter::new();
    let a = token("AAA", "addr-a");
    let b = token("BBB", "addr-b");
    router.add_token(a.clone());
    router.add_token(b.clone());
    // A pool of 4,000 units: routing the full 1,000 units would push the
    // impact of the 500-unit output over the 5% cap, but the 60/30/10
    // splits stay under it.
    router.add_edge(edge(&a, &b, RATE_HALF, WEIGHT_HALF, 4_000 * SCALE, 1_000 * SCALE, SCALE));

    let mut req = request("AAA", "BBB", 1_000 * SCALE);
    req.enable_split_routes = true;
    req.max_splits = Some(3);
    let response = router.find_optimal_route(req).unwrap();

    assert!(response.route.is_none());
    let plan = response.split_route.expect("split plan expected");
    assert_eq!(plan.routes.len(), 3);
    assert_eq!(plan.total_input_amount, 1_000 * SCALE);
    assert_eq!(plan.total_output_amount, 500 * SCALE);
}

#[test]
fn no_route_response_carries_neither_result() {
    let mut router = MetisRouter::new();
    router.add_token(token("AAA", "addr-a"));
    router.add_token(token("BBB", "addr-b"));
    let response = router.find_optimal_route(request("AAA", "BBB", 100 * SCALE)).unwrap();
    assert!(response.route.is_none());
    assert!(response.split_route.is_none());
}

fn bare_route(effective_rate: u64, gas_estimate: u64) -> Route {
    Route {
        segments: Vec::new(),
        total_input_amount: SCALE,
        total_output_amount: SCALE,
        effective_rate,
        price_impact: 0,
        gas_estimate,
        split_ratio: None,
    }
}

#[test]
fn route_comparison_is_gas_adjusted() {
    let router = MetisRouter::new();
    let split = SplitRoute {
        routes: Vec::new(),
        total_input_amount: SCALE,
        total_output_amount: SCALE,
        effective_rate: 990_000_000_000,
        price_impact: 0,
        gas_estimate: 10,
    };
    // Higher rate wins when gas is equal.
    assert!(router.compare_routes(&bare_route(995_000_000_000, 10), &split));
    // An equal gas-adjusted rate is not strictly better.
    assert!(!router.compare_routes(&bare_route(990_000_000_000, 10), &split));
    // A rate advantage eaten by gas loses.
    assert!(!router.compare_routes(&bare_route(990_000_000_005, 20), &split));
}

#[test]
fn route_analysis_scores_and_hints() {
    let router = seeded_router();
    let route = router
        .find_optimal_route(request("AAA", "BBB", 10_000 * SCALE))
        .unwrap()
        .route
        .expect("route expected");
    let analysis = router.analyze_route(&route);

    assert_eq!(analysis.total_hops, 1);
    // One hop: the average impact is the route impact.
    assert_eq!(analysis.avg_price_impact, route.price_impact);
    assert_eq!(analysis.avg_price_impact, 5_000_000_000);
    // Fee: 0.0025 of the 10,000-unit input is 25 units.
    assert_eq!(analysis.total_fees, 25_000_000_000_000);
    // The tenfold fee term dominates the score, which floors at zero.
    assert_eq!(analysis.efficiency_score, 0);
    // Low impact and a single hop, but fees above the ten-unit bar.
    assert_eq!(analysis.recommendations, vec![Recommendation::HighFees]);
}

#[test]
fn route_analysis_flags_high_impact() {
    let router = MetisRouter::new();
    let mut route = bare_route(SCALE, 0);
    route.segments.push(metis_router::types::PathSegment {
        from_token: token("AAA", "addr-a"),
        to_token: token("BBB", "addr-b"),
        dex_platform: DexPlatform {
            name: "venue1".to_string(),
            address: "venue1-addr".to_string(),
            fee_rate: 0,
        },
        input_amount: SCALE,
        output_amount: SCALE / 2,
        exchange_rate: RATE_HALF,
        price_impact: 30_000_000_000,
    });
    route.price_impact = 30_000_000_000;
    let analysis = router.analyze_route(&route);
    // Impact of 0.03 exceeds the 2% bar; fees are zero; one hop.
    assert_eq!(analysis.recommendations, vec![Recommendation::ConsiderSplitting]);
    assert_eq!(analysis.total_fees, 0);
    // Score: 1 - 0.03 - 0.1 = 0.87.
    assert_eq!(analysis.efficiency_score, 870_000_000_000);
}

#[test]
fn empty_route_analysis_is_all_zero() {
    let router = MetisRouter::new();
    let analysis = router.analyze_route(&bare_route(SCALE, 0));
    assert_eq!(analysis.total_hops, 0);
    assert_eq!(analysis.avg_price_impact, 0);
    assert_eq!(analysis.total_fees, 0);
    assert_eq!(analysis.efficiency_score, 0);
    assert!(analysis.recommendations.is_empty());
}

#[test]
fn routing_stats_report_graph_size() {
    let router = seeded_router();
    let stats = router.get_routing_stats();
    assert_eq!(stats.total_nodes, 2);
    assert_eq!(stats.total_edges, 1);
    assert_eq!(stats.cache_hit_rate, 850_000_000_000);
    assert_eq!(stats.avg_execution_time_ms, 45);
    assert_eq!(stats.success_rate, 920_000_000_000);
}

#[test]
fn router_serves_quotes_through_the_cache() {
    let mut router = seeded_router();
    let request = QuoteRequest {
        input_token: "AAA".to_string(),
        output_token: "BBB".to_string(),
        amount: 1_000 * SCALE,
        dex_platform: "venue1".to_string(),
    };
    let data = VenueQuoteData {
        exchange_rate: 1_000_000_000,
        liquidity: 1_000_000 * SCALE,
        fee_rate: 2_500_000_000,
    };
    let first = router.get_quote(&request, &data, 0);
    assert_eq!(first.output_amount, 999_500_000_000);
    // A hit within the lifetime ignores the moved market.
    let moved = VenueQuoteData { exchange_rate: 5_000_000_000, ..data };
    let second = router.get_quote(&request, &moved, 1_000);
    assert_eq!(second, first);
}

#[test]
fn market_data_update_reports_success() {
    let mut router = seeded_router();
    assert!(router.update_market_data().is_ok());
}
