use metis_router::graph::RoutingGraph;
use metis_router::types::{
    Edge, IterationState, RouteRequest, RouterConfig, RouterError, Token,
};
use metis_router::SCALE;

fn token(symbol: &str, address: &str) -> Token {
    Token {
        symbol: symbol.to_string(),
        address: address.to_string(),
        decimals: 9,
    }
}

fn edge(from: &Token, to: &Token, venue: &str, rate: u64, weight: i64, liquidity: u64, max_trade: u64, min_trade: u64) -> Edge {
    Edge {
        from_token: from.clone(),
        to_token: to.clone(),
        dex_platform: metis_router::types::DexPlatform {
            name: venue.to_string(),
            address: format!("{venue}-addr"),
            fee_rate: 2_500_000_000,
        },
        exchange_rate: rate,
        liquidity,
        max_trade_size: max_trade,
        min_trade_size: min_trade,
        weight,
    }
}

fn request(input: &str, output: &str, amount: u64) -> RouteRequest {
    RouteRequest {
        input_token: input.to_string(),
        output_token: output.to_string(),
        input_amount: amount,
        slippage_tolerance: 5_000_000_000,
        max_iterations: 5,
        enable_split_routes: false,
        max_splits: None,
    }
}

// Rate 0.5, weight -ln(0.5) in fixed point.
const RATE_HALF: u64 = 500_000_000_000;
const WEIGHT_HALF: i64 = 693_147_180_560;

#[test]
fn single_hop_route_economics() {
    let mut graph = RoutingGraph::new(RouterConfig::default());
    let a = token("AAA", "addr-a");
    let b = token("BBB", "addr-b");
    graph.add_token(a.clone());
    graph.add_token(b.clone());
    graph.add_edge(edge(&a, &b, "venue1", RATE_HALF, WEIGHT_HALF, 1_000_000 * SCALE, 500_000 * SCALE, SCALE));

    let req = request("AAA", "BBB", 100 * SCALE);
    let route = graph.find_optimal_route(&req).unwrap().expect("route expected");

    assert_eq!(route.segments.len(), 1);
    assert_eq!(route.total_input_amount, 100 * SCALE);
    assert_eq!(route.total_output_amount, 50 * SCALE);
    // Effective rate is exactly total output over total input.
    assert_eq!(route.effective_rate, RATE_HALF);
    assert_eq!(route.segments[0].input_amount, 100 * SCALE);
    assert_eq!(route.segments[0].output_amount, 50 * SCALE);
    assert_eq!(route.segments[0].exchange_rate, RATE_HALF);
    // Segment impact: (100 / 1,000,000) * 0.5 = 0.00005.
    assert_eq!(route.segments[0].price_impact, 50_000_000);
    assert_eq!(route.price_impact, 50_000_000);
    // Gas: one hop of base gas 0.000001 at gas price 0.000005.
    assert_eq!(route.gas_estimate, 5);
    assert_eq!(route.split_ratio, None);
    assert_eq!(route.segments[0].dex_platform.name, "venue1");
}

#[test]
fn two_hop_route_conserves_amounts() {
    let mut graph = RoutingGraph::new(RouterConfig::default());
    let a = token("AAA", "addr-a");
    let b = token("BBB", "addr-b");
    let c = token("CCC", "addr-c");
    graph.add_token(a.clone());
    graph.add_token(b.clone());
    graph.add_token(c.clone());
    graph.add_edge(edge(&a, &b, "venue1", RATE_HALF, WEIGHT_HALF, 1_000_000 * SCALE, 500_000 * SCALE, SCALE));
    graph.add_edge(edge(&b, &c, "venue2", RATE_HALF, WEIGHT_HALF, 1_000_000 * SCALE, 500_000 * SCALE, SCALE));

    let req = request("AAA", "CCC", 100 * SCALE);
    let route = graph.find_optimal_route(&req).unwrap().expect("route expected");

    assert_eq!(route.segments.len(), 2);
    // Hop-to-hop conservation: the first hop's output is the second
    // hop's input.
    assert_eq!(route.segments[0].output_amount, route.segments[1].input_amount);
    assert_eq!(route.segments[0].output_amount, 50 * SCALE);
    assert_eq!(route.total_output_amount, 25 * SCALE);
    assert_eq!(route.effective_rate, 250_000_000_000);
    assert_eq!(route.segments[0].to_token.address, route.segments[1].from_token.address);
    // Two hops of gas.
    assert_eq!(route.gas_estimate, 10);
}

#[test]
fn unreachable_target_is_no_route_not_error() {
    let mut graph = RoutingGraph::new(RouterConfig::default());
    let a = token("AAA", "addr-a");
    let b = token("BBB", "addr-b");
    graph.add_token(a.clone());
    graph.add_token(b.clone());
    // No edges at all: the target exists but cannot be reached.
    let req = request("AAA", "BBB", 100 * SCALE);
    let result = graph.find_optimal_route(&req).unwrap();
    assert!(result.is_none());
}

#[test]
fn unknown_symbol_is_an_error() {
    let mut graph = RoutingGraph::new(RouterConfig::default());
    graph.add_token(token("AAA", "addr-a"));
    let req = request("AAA", "ZZZ", 100 * SCALE);
    assert_eq!(graph.find_optimal_route(&req).unwrap_err(), RouterError::TokenNotFound);
    let req2 = request("ZZZ", "AAA", 100 * SCALE);
    assert_eq!(graph.find_optimal_route(&req2).unwrap_err(), RouterError::TokenNotFound);
}

#[test]
fn capacity_beats_nominal_rate() {
    // Two parallel edges A -> B. The better-rate venue is so shallow that
    // the trade's impact breaches the cap, so the engine must deliver
    // through the deeper, worse-rate venue.
    let mut graph = RoutingGraph::new(RouterConfig::default());
    let a = token("AAA", "addr-a");
    let b = token("BBB", "addr-b");
    graph.add_token(a.clone());
    graph.add_token(b.clone());
    // Rate 0.002, weight -ln(0.002) ~ 6.2146; one unit of liquidity.
    graph.add_edge(edge(&a, &b, "shallow", 2_000_000_000, 6_214_608_098_422, SCALE, SCALE / 2, 1_000_000));
    // Rate 0.001, weight -ln(0.001) ~ 6.9078; a million units of liquidity.
    graph.add_edge(edge(&a, &b, "deep", 1_000_000_000, 6_907_755_278_982, 1_000_000 * SCALE, 500_000 * SCALE, 10_000_000_000));

    let req = request("AAA", "BBB", 100 * SCALE);
    let route = graph.find_optimal_route(&req).unwrap().expect("route expected");

    assert_eq!(route.segments.len(), 1);
    // 100 units at the deep venue's rate of 0.001 — not the 0.2 units the
    // rejected better-rate venue would nominally have delivered.
    assert_eq!(route.total_output_amount, SCALE / 10);
    assert_eq!(route.effective_rate, 1_000_000_000);
}

#[test]
fn accepted_relaxation_improves_destination() {
    let mut graph = RoutingGraph::new(RouterConfig::default());
    let a = token("AAA", "addr-a");
    let b = token("BBB", "addr-b");
    graph.add_token(a.clone());
    graph.add_token(b.clone());
    let e = edge(&a, &b, "venue1", RATE_HALF, WEIGHT_HALF, 1_000_000 * SCALE, 500_000 * SCALE, SCALE);
    graph.add_edge(e.clone());

    let mut nodes = graph.initialize_nodes();
    assert_eq!(nodes.len(), 2);
    assert!(nodes[0].distance.is_none());
    // Seed the source by hand.
    nodes[0].distance = Some(0);
    nodes[0].best_amount = 100 * SCALE;
    let mut state = IterationState { nodes, improved: false, iteration: 0, best_route: None };

    graph.relax_edge(&mut state, &e);

    // Accepted: destination reached, strictly positive amount within the
    // liquidity ceiling, round marked improved.
    assert!(state.improved);
    assert_eq!(state.nodes[1].distance, Some(WEIGHT_HALF));
    assert_eq!(state.nodes[1].best_amount, 50 * SCALE);
    assert!(state.nodes[1].best_amount <= e.liquidity);
    assert_eq!(state.nodes[1].predecessor.as_deref(), Some("addr-a"));

    // A second relaxation of the same edge no longer improves anything.
    state.improved = false;
    graph.relax_edge(&mut state, &e);
    assert!(!state.improved);
    assert_eq!(state.nodes[1].best_amount, 50 * SCALE);
}

#[test]
fn rejected_relaxation_leaves_state_unchanged() {
    let mut graph = RoutingGraph::new(RouterConfig::default());
    let a = token("AAA", "addr-a");
    let b = token("BBB", "addr-b");
    graph.add_token(a.clone());
    graph.add_token(b.clone());
    // The candidate amount (50) falls below the edge's minimum trade
    // size (60), so the relaxation must be rejected.
    let e = edge(&a, &b, "venue1", RATE_HALF, WEIGHT_HALF, 1_000_000 * SCALE, 500_000 * SCALE, 60 * SCALE);
    graph.add_edge(e.clone());

    let mut nodes = graph.initialize_nodes();
    nodes[0].distance = Some(0);
    nodes[0].best_amount = 100 * SCALE;
    let mut state = IterationState { nodes, improved: false, iteration: 0, best_route: None };

    graph.relax_edge(&mut state, &e);

    assert!(!state.improved);
    assert!(state.nodes[1].distance.is_none());
    assert_eq!(state.nodes[1].best_amount, 0);
}

#[test]
fn add_token_replaces_a_token_at_the_same_address() {
    let mut graph = RoutingGraph::new(RouterConfig::default());
    graph.add_token(token("AAA", "addr-a"));
    graph.add_token(token("AAZ", "addr-a"));
    graph.add_token(token("BBB", "addr-b"));
    assert_eq!(graph.tokens.len(), 2);
    assert_eq!(graph.tokens[0].symbol, "AAZ");
    assert_eq!(graph.tokens[1].symbol, "BBB");
}

#[test]
fn edge_order_decides_how_many_rounds_a_chain_needs() {
    // Edges are relaxed in insertion order within a round. With the chain
    // inserted downstream-first, one round cannot propagate across both
    // hops; with it inserted upstream-first, one round suffices.
    let a = token("AAA", "addr-a");
    let b = token("BBB", "addr-b");
    let c = token("CCC", "addr-c");
    let ab = edge(&a, &b, "venue1", RATE_HALF, WEIGHT_HALF, 1_000_000 * SCALE, 500_000 * SCALE, SCALE);
    let bc = edge(&b, &c, "venue2", RATE_HALF, WEIGHT_HALF, 1_000_000 * SCALE, 500_000 * SCALE, SCALE);

    let mut req = request("AAA", "CCC", 100 * SCALE);
    req.max_iterations = 1;

    let mut downstream_first = RoutingGraph::new(RouterConfig::default());
    downstream_first.add_token(a.clone());
    downstream_first.add_token(b.clone());
    downstream_first.add_token(c.clone());
    downstream_first.add_edge(bc.clone());
    downstream_first.add_edge(ab.clone());
    assert!(downstream_first.find_optimal_route(&req).unwrap().is_none());

    let mut upstream_first = RoutingGraph::new(RouterConfig::default());
    upstream_first.add_token(a.clone());
    upstream_first.add_token(b.clone());
    upstream_first.add_token(c.clone());
    upstream_first.add_edge(ab);
    upstream_first.add_edge(bc);
    let route = upstream_first.find_optimal_route(&req).unwrap().expect("route expected");
    assert_eq!(route.total_output_amount, 25 * SCALE);
}

#[test]
fn iterations_stay_within_budget() {
    let mut graph = RoutingGraph::new(RouterConfig::default());
    let a = token("AAA", "addr-a");
    let b = token("BBB", "addr-b");
    graph.add_token(a.clone());
    graph.add_token(b.clone());
    graph.add_edge(edge(&a, &b, "venue1", RATE_HALF, WEIGHT_HALF, 1_000_000 * SCALE, 500_000 * SCALE, SCALE));

    let req = request("AAA", "BBB", 100 * SCALE);
    let (route, iterations) = graph.search_route(&req).unwrap();
    assert!(route.is_some());
    // One improving round plus the fixed-point round.
    assert_eq!(iterations, 2);
    assert!(iterations <= req.max_iterations);
}
