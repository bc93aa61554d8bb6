use metis_router::types::{
    ResponseError, Route, RouteRequest, RouteResponse, SplitRoute, ValidationError,
};
use metis_router::utils::{CacheUtils, MathUtils, PerformanceUtils, ValidationUtils};
use metis_router::SCALE;

fn good_request() -> RouteRequest {
    RouteRequest {
        input_token: "AAA".to_string(),
        output_token: "BBB".to_string(),
        input_amount: 100 * SCALE,
        slippage_tolerance: 5_000_000_000,
        max_iterations: 5,
        enable_split_routes: true,
        max_splits: Some(3),
    }
}

fn good_route() -> Route {
    Route {
        segments: vec![metis_router::types::PathSegment {
            from_token: metis_router::types::Token {
                symbol: "AAA".to_string(),
                address: "addr-a".to_string(),
                decimals: 9,
            },
            to_token: metis_router::types::Token {
                symbol: "BBB".to_string(),
                address: "addr-b".to_string(),
                decimals: 9,
            },
            dex_platform: metis_router::types::DexPlatform {
                name: "venue1".to_string(),
                address: "venue1-addr".to_string(),
                fee_rate: 0,
            },
            input_amount: SCALE,
            output_amount: SCALE / 2,
            exchange_rate: SCALE / 2,
            price_impact: 0,
        }],
        total_input_amount: SCALE,
        total_output_amount: SCALE / 2,
        effective_rate: SCALE / 2,
        price_impact: 0,
        gas_estimate: 5,
        split_ratio: None,
    }
}

fn response_with(route: Option<Route>, split_route: Option<SplitRoute>) -> RouteResponse {
    RouteResponse {
        request: good_request(),
        route,
        split_route,
        execution_time_ms: 1,
        iterations_used: 2,
    }
}

fn good_split() -> SplitRoute {
    SplitRoute {
        routes: vec![good_route()],
        total_input_amount: SCALE,
        total_output_amount: SCALE / 2,
        effective_rate: SCALE / 2,
        price_impact: 0,
        gas_estimate: 5,
    }
}

#[test]
fn request_validation_accepts_a_sound_request() {
    assert!(ValidationUtils::validate_route_request(&good_request()).is_ok());
}

#[test]
fn request_validation_rejects_each_violation() {
    let mut req = good_request();
    req.input_amount = 0;
    assert_eq!(
        ValidationUtils::validate_route_request(&req),
        Err(ValidationError::NonPositiveAmount)
    );

    req = good_request();
    req.slippage_tolerance = 0;
    assert_eq!(
        ValidationUtils::validate_route_request(&req),
        Err(ValidationError::SlippageOutOfRange)
    );
    req.slippage_tolerance = SCALE;
    assert_eq!(
        ValidationUtils::validate_route_request(&req),
        Err(ValidationError::SlippageOutOfRange)
    );

    req = good_request();
    req.max_iterations = 0;
    assert_eq!(
        ValidationUtils::validate_route_request(&req),
        Err(ValidationError::ZeroMaxIterations)
    );

    req = good_request();
    req.output_token = "AAA".to_string();
    assert_eq!(
        ValidationUtils::validate_route_request(&req),
        Err(ValidationError::IdenticalTokens)
    );
}

#[test]
fn response_validation_accepts_sound_responses() {
    assert!(ValidationUtils::validate_route_response(&response_with(Some(good_route()), None)).is_ok());
    assert!(ValidationUtils::validate_route_response(&response_with(None, Some(good_split()))).is_ok());
}

#[test]
fn response_validation_rejects_each_violation() {
    assert_eq!(
        ValidationUtils::validate_route_response(&response_with(None, None)),
        Err(ResponseError::MissingRoute)
    );

    let mut route = good_route();
    route.segments.clear();
    assert_eq!(
        ValidationUtils::validate_route_response(&response_with(Some(route), None)),
        Err(ResponseError::EmptyRouteSegments)
    );

    let mut route = good_route();
    route.total_input_amount = 0;
    assert_eq!(
        ValidationUtils::validate_route_response(&response_with(Some(route), None)),
        Err(ResponseError::NonPositiveRouteInput)
    );

    let mut route = good_route();
    route.total_output_amount = 0;
    assert_eq!(
        ValidationUtils::validate_route_response(&response_with(Some(route), None)),
        Err(ResponseError::NonPositiveRouteOutput)
    );

    let mut split = good_split();
    split.routes.clear();
    assert_eq!(
        ValidationUtils::validate_route_response(&response_with(None, Some(split))),
        Err(ResponseError::EmptySplitRoutes)
    );

    let mut split = good_split();
    split.total_input_amount = 0;
    assert_eq!(
        ValidationUtils::validate_route_response(&response_with(None, Some(split))),
        Err(ResponseError::NonPositiveSplitInput)
    );

    let mut split = good_split();
    split.total_output_amount = 0;
    assert_eq!(
        ValidationUtils::validate_route_response(&response_with(None, Some(split))),
        Err(ResponseError::NonPositiveSplitOutput)
    );
}

#[test]
fn effective_rate_deducts_fee_and_impact() {
    // 1.0 * (1 - 0.0025) * (1 - 0.0005) = 0.99700125 exactly.
    assert_eq!(
        MathUtils::calculate_effective_rate(SCALE, 2_500_000_000, 500_000_000),
        997_001_250_000
    );
}

#[test]
fn amm_price_impact_constant_product() {
    // Trading one unit into a one-unit reserve: 1 / (1 + 1) = 0.5.
    assert_eq!(MathUtils::calculate_amm_price_impact(SCALE, SCALE, 42), SCALE / 2);
    // A tiny trade against a deep reserve has negligible impact.
    assert_eq!(
        MathUtils::calculate_amm_price_impact(SCALE, 999_999 * SCALE, 42),
        1_000_000
    );
}

#[test]
fn slippage_bounds_window() {
    // 1.0 with a 0.005 tolerance: [0.995, 1.005].
    let (min, max) = MathUtils::calculate_slippage_bounds(SCALE, 5_000_000_000);
    assert_eq!(min, 995_000_000_000);
    assert_eq!(max, 1_005_000_000_000);
    // A tolerance of one floors the lower bound at zero.
    let (min1, max1) = MathUtils::calculate_slippage_bounds(SCALE, SCALE);
    assert_eq!(min1, 0);
    assert_eq!(max1, 2 * SCALE);
}

#[test]
fn gas_cost_scales_with_interactions() {
    // Two interactions of base gas 0.000001 at gas price 0.000005.
    assert_eq!(MathUtils::calculate_gas_cost(2, 5_000_000, 1_000_000), 10);
    assert_eq!(MathUtils::calculate_gas_cost(0, 5_000_000, 1_000_000), 0);
}

#[test]
fn average_time_is_the_floored_mean() {
    assert_eq!(PerformanceUtils::calculate_average_time(&vec![]), 0);
    assert_eq!(PerformanceUtils::calculate_average_time(&vec![100, 200, 301]), 200);
    assert_eq!(PerformanceUtils::calculate_average_time(&vec![7]), 7);
    assert_eq!(
        PerformanceUtils::calculate_average_time(&vec![u64::MAX, u64::MAX]),
        u64::MAX
    );
}

#[test]
fn cache_expiry_counts_whole_seconds() {
    // 31 whole seconds elapsed against a 30-second lifetime: expired.
    assert!(CacheUtils::is_cache_expired(0, 31_000, 30));
    // 30.999 seconds is still 30 whole seconds: not expired.
    assert!(!CacheUtils::is_cache_expired(0, 30_999, 30));
    // A clock that moved backwards reads as no time elapsed.
    assert!(!CacheUtils::is_cache_expired(10_000, 5_000, 0));
}

#[test]
fn cache_keys_carry_the_request_fields() {
    let req = good_request();
    let key = CacheUtils::generate_route_cache_key(&req);
    assert_eq!(key.input_token, "AAA");
    assert_eq!(key.output_token, "BBB");
    assert_eq!(key.input_amount, 100 * SCALE);
    assert_eq!(key.slippage_tolerance, 5_000_000_000);
    assert!(key.enable_split_routes);

    let qreq = metis_router::types::QuoteRequest {
        input_token: "AAA".to_string(),
        output_token: "BBB".to_string(),
        amount: 7,
        dex_platform: "venue1".to_string(),
    };
    let qkey = CacheUtils::generate_quote_cache_key(&qreq);
    assert_eq!(qkey.dex_platform, "venue1");
    assert_eq!(qkey.input_token, "AAA");
    assert_eq!(qkey.output_token, "BBB");
    assert_eq!(qkey.amount, 7);
}
