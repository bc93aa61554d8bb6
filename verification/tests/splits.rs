use metis_router::graph::RoutingGraph;
use metis_router::types::{Edge, DexPlatform, RouteRequest, RouterConfig, Token};
use metis_router::utils::MathUtils;
use metis_router::SCALE;

fn token(symbol: &str, address: &str) -> Token {
    Token { symbol: symbol.to_string(), address: address.to_string(), decimals: 9 }
}

fn edge(from: &Token, to: &Token, rate: u64, weight: i64, liquidity: u64, max_trade: u64, min_trade: u64) -> Edge {
    Edge {
        from_token: from.clone(),
        to_token: to.clone(),
        dex_platform: DexPlatform {
            name: "venue1".to_string(),
            address: "venue1-addr".to_string(),
            fee_rate: 2_500_000_000,
        },
        exchange_rate: rate,
        liquidity,
        max_trade_size: max_trade,
        min_trade_size: min_trade,
        weight,
    }
}

fn split_request(amount: u64, max_splits: Option<usize>) -> RouteRequest {
    RouteRequest {
        input_token: "AAA".to_string(),
        output_token: "BBB".to_string(),
        input_amount: amount,
        slippage_tolerance: 5_000_000_000,
        max_iterations: 5,
        enable_split_routes: true,
        max_splits,
    }
}

const RATE_HALF: u64 = 500_000_000_000;
const WEIGHT_HALF: i64 = 693_147_180_560;

fn deep_graph() -> RoutingGraph {
    let mut graph = RoutingGraph::new(RouterConfig::default());
    let a = token("AAA", "addr-a");
    let b = token("BBB", "addr-b");
    graph.add_token(a.clone());
    graph.add_token(b.clone());
    graph.add_edge(edge(&a, &b, RATE_HALF, WEIGHT_HALF, 1_000_000 * SCALE, 500_000 * SCALE, SCALE));
    graph
}

#[test]
fn split_plan_aggregates_are_the_sums() {
    let graph = deep_graph();
    let req = split_request(1_000 * SCALE, Some(3));
    let plan = graph.find_split_routes(&req).unwrap().expect("plan expected");

    // 60% / 30% / 10% of 1,000 units, each routed independently.
    assert_eq!(plan.routes.len(), 3);
    assert_eq!(plan.routes[0].total_input_amount, 600 * SCALE);
    assert_eq!(plan.routes[1].total_input_amount, 300 * SCALE);
    assert_eq!(plan.routes[2].total_input_amount, 100 * SCALE);

    let input_sum: u64 = plan.routes.iter().map(|r| r.total_input_amount).sum();
    let output_sum: u64 = plan.routes.iter().map(|r| r.total_output_amount).sum();
    let impact_sum: u64 = plan.routes.iter().map(|r| r.price_impact).sum();
    let gas_sum: u64 = plan.routes.iter().map(|r| r.gas_estimate).sum();
    assert_eq!(plan.total_input_amount, input_sum);
    assert_eq!(plan.total_output_amount, output_sum);
    assert_eq!(plan.price_impact, impact_sum);
    assert_eq!(plan.gas_estimate, gas_sum);

    assert_eq!(plan.total_input_amount, 1_000 * SCALE);
    assert_eq!(plan.total_output_amount, 500 * SCALE);
    // Effective rate is total output over total input.
    assert_eq!(plan.effective_rate, RATE_HALF);
}

#[test]
fn split_search_respects_the_enable_flag() {
    let graph = deep_graph();
    let mut req = split_request(1_000 * SCALE, Some(3));
    req.enable_split_routes = false;
    assert!(graph.find_split_routes(&req).unwrap().is_none());
}

#[test]
fn split_below_minimum_size_yields_no_plan() {
    let graph = deep_graph();
    // 60% of 10 units is 6 units, below the 10-unit minimum split.
    let req = split_request(10 * SCALE, Some(3));
    assert!(graph.find_split_routes(&req).unwrap().is_none());
}

#[test]
fn zero_splits_yield_no_plan() {
    let graph = deep_graph();
    let req = split_request(1_000 * SCALE, Some(0));
    assert!(graph.find_split_routes(&req).unwrap().is_none());
}

fn shallow_pool_config(split_liquidity_depletion: bool) -> RouterConfig {
    RouterConfig {
        // No impact cap here, so only liquidity limits the splits.
        max_price_impact: SCALE,
        split_liquidity_depletion,
        ..RouterConfig::default()
    }
}

fn shallow_pool_graph(split_liquidity_depletion: bool) -> RoutingGraph {
    let mut graph = RoutingGraph::new(shallow_pool_config(split_liquidity_depletion));
    let a = token("AAA", "addr-a");
    let b = token("BBB", "addr-b");
    graph.add_token(a.clone());
    graph.add_token(b.clone());
    // 1,000 units of liquidity with 300 reserved as trade-size headroom.
    graph.add_edge(edge(&a, &b, RATE_HALF, WEIGHT_HALF, 1_000 * SCALE, 300 * SCALE, SCALE));
    graph
}

#[test]
fn independent_splits_all_see_full_liquidity() {
    let graph = shallow_pool_graph(false);
    let req = split_request(1_000 * SCALE, Some(3));
    let plan = graph.find_split_routes(&req).unwrap().expect("plan expected");
    // Every sub-search sees the original pool, so all three splits route.
    assert_eq!(plan.routes.len(), 3);
    assert_eq!(plan.total_input_amount, 1_000 * SCALE);
    assert_eq!(plan.total_output_amount, 500 * SCALE);
}

#[test]
fn depleting_splits_consume_earlier_liquidity() {
    let graph = shallow_pool_graph(true);
    let req = split_request(1_000 * SCALE, Some(3));
    let plan = graph.find_split_routes(&req).unwrap().expect("plan expected");
    // The 600-unit split drains the pool to 400 units; the 300-unit split
    // is then capped to the 100 units of remaining headroom, and the last
    // split finds no capacity at all.
    assert_eq!(plan.routes.len(), 2);
    assert_eq!(plan.routes[0].total_output_amount, 300 * SCALE);
    assert_eq!(plan.routes[1].total_output_amount, 100 * SCALE);
    assert_eq!(plan.total_input_amount, 900 * SCALE);
    assert_eq!(plan.total_output_amount, 400 * SCALE);
}

#[test]
fn split_plan_never_exceeds_the_requested_amount() {
    // A pool of 2,500 units: the 600-unit first split's 300-unit output
    // breaches the 5% impact cap and fails, the smaller splits pass. With
    // a large split budget, the consumed total still stays within the
    // requested 1,000 units and the route count within the budget.
    let mut graph = RoutingGraph::new(RouterConfig::default());
    let a = token("AAA", "addr-a");
    let b = token("BBB", "addr-b");
    graph.add_token(a.clone());
    graph.add_token(b.clone());
    graph.add_edge(edge(&a, &b, RATE_HALF, WEIGHT_HALF, 2_500 * SCALE, 1_000 * SCALE, SCALE));

    let req = split_request(1_000 * SCALE, Some(12));
    let plan = graph.find_split_routes(&req).unwrap().expect("plan expected");
    assert!(plan.routes.len() <= 12);
    assert!(plan.total_input_amount <= 1_000 * SCALE);
    // One 300-unit split and seven 100-unit splits consume it all.
    assert_eq!(plan.routes.len(), 8);
    assert_eq!(plan.routes[0].total_input_amount, 300 * SCALE);
    assert_eq!(plan.total_input_amount, 1_000 * SCALE);
    assert_eq!(plan.total_output_amount, 500 * SCALE);
}

#[test]
fn identical_searches_return_identical_results() {
    // The search result is a function of the graph and the request: the
    // contracts pin it to one specified value, so two identical calls
    // must agree in every field.
    let graph = deep_graph();
    let req = split_request(1_000 * SCALE, Some(3));
    let first = graph.find_split_routes(&req).unwrap().expect("plan expected");
    let second = graph.find_split_routes(&req).unwrap().expect("plan expected");
    assert_eq!(format!("{:?}", first), format!("{:?}", second));

    let single_req = RouteRequest { enable_split_routes: false, ..req };
    let r1 = graph.find_optimal_route(&single_req).unwrap();
    let r2 = graph.find_optimal_route(&single_req).unwrap();
    assert_eq!(format!("{:?}", r1), format!("{:?}", r2));
}

#[test]
fn split_ratio_tables() {
    assert_eq!(MathUtils::calculate_split_ratios(1), vec![SCALE]);
    assert_eq!(
        MathUtils::calculate_split_ratios(2),
        vec![600_000_000_000, 400_000_000_000]
    );
    assert_eq!(
        MathUtils::calculate_split_ratios(3),
        vec![500_000_000_000, 300_000_000_000, 200_000_000_000]
    );
    assert_eq!(
        MathUtils::calculate_split_ratios(4),
        vec![400_000_000_000, 250_000_000_000, 200_000_000_000, 150_000_000_000]
    );
}

#[test]
fn geometric_split_ratios_normalize() {
    let ratios = MathUtils::calculate_split_ratios(5);
    assert_eq!(ratios.len(), 5);
    // Raw schedule: 0.4 decayed by 0.7 each step, then normalized.
    let raws: [u128; 5] = [
        400_000_000_000,
        280_000_000_000,
        196_000_000_000,
        137_200_000_000,
        96_040_000_000,
    ];
    let total: u128 = raws.iter().sum();
    for (i, raw) in raws.iter().enumerate() {
        let expected = (raw * (SCALE as u128) / total) as u64;
        assert_eq!(ratios[i], expected);
    }
    // The schedule decreases and the floored shares sum to at most one.
    for i in 1..ratios.len() {
        assert!(ratios[i] < ratios[i - 1]);
    }
    let sum: u64 = ratios.iter().sum();
    assert!(sum <= SCALE);
    assert!(sum >= SCALE - 5);
}
