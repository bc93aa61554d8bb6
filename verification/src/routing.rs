//! The router orchestrator: validates a request, runs the single-route
//! search, falls back to the split search, compares the two outcomes, and
//! returns a structured response.

use vstd::prelude::*;

use crate::fixed::{fp_mul_spec, sat_sum, SCALE};
use crate::graph::{
    extracted_route_ok, node_index, route_economics_ok, search_nodes_spec, source_address,
    spec_engine_finds, spec_has_symbol, symbol_index, wf_route, RoutingGraph, MIN_SPLIT_AMOUNT,
    SPLIT_RATIO_FIRST,
};
use crate::quote::{
    cache_lookup_spec, compute_quote_spec, expiry_spec, quote_key_view, CacheEntry, CacheKeyView,
    QuoteConfig, QuoteService, VenueQuoteData,
};
use crate::types::{
    Edge, QuoteRequest, QuoteResponse, Route, RouteRequest, RouteResponse, RouterConfig,
    RouterError, SplitRoute, Token, ValidationError,
};

verus! {

/// Price impact above which splitting the trade is recommended: 2%.
pub const IMPACT_SPLIT_THRESHOLD: u64 = 20_000_000_000;

/// Total fees above which cheaper venues are recommended: ten whole units.
pub const HIGH_FEE_THRESHOLD: u64 = 10_000_000_000_000;

/// Efficiency penalty per hop: 0.1, fixed-point.
pub const HOP_PENALTY: u64 = 100_000_000_000;

/// Placeholder cache hit rate in the routing statistics: 0.85 fixed-point.
pub const STATS_CACHE_HIT_RATE: u64 = 850_000_000_000;

/// Placeholder average execution time in the routing statistics.
pub const STATS_AVG_EXECUTION_MS: u64 = 45;

/// Placeholder success rate in the routing statistics: 0.92 fixed-point.
pub const STATS_SUCCESS_RATE: u64 = 920_000_000_000;

/// The validation outcome of a route request: the first violated rule, in
/// the order the checks run, or nothing when the request is acceptable.
pub open spec fn validation_result(request: RouteRequest) -> Option<ValidationError> {
    if request.input_amount == 0 {
        Some(ValidationError::NonPositiveAmount)
    } else if request.slippage_tolerance == 0 || request.slippage_tolerance >= SCALE {
        Some(ValidationError::SlippageOutOfRange)
    } else if request.max_iterations == 0 {
        Some(ValidationError::ZeroMaxIterations)
    } else if request.input_token@ == request.output_token@ {
        Some(ValidationError::IdenticalTokens)
    } else {
        None
    }
}

/// Efficiency score of a route: one, minus the route's price impact, minus
/// ten times its fees, minus a tenth per hop; floored at zero.
pub open spec fn efficiency_score_spec(price_impact: int, total_fees: int, hops: int) -> int {
    let s = SCALE as int - price_impact - 10 * total_fees - hops * (HOP_PENALTY as int);
    if s < 0 {
        0
    } else {
        s
    }
}

/// A tuning hint derived from a route's shape.
#[derive(Debug, Clone, Copy, PartialEq, Eq, Structural)]
pub enum Recommendation {
    /// The price impact is high; splitting the trade would reduce it.
    ConsiderSplitting,
    /// The route has many hops; a more direct pair may exist.
    TooManyHops,
    /// The fees are high; a cheaper venue may exist.
    HighFees,
}

/// The hints a route earns, in a fixed order.
pub open spec fn recommendations_spec(
    price_impact: u64,
    total_fees: u64,
    hops: int,
) -> Seq<Recommendation> {
    (if price_impact > IMPACT_SPLIT_THRESHOLD {
        seq![Recommendation::ConsiderSplitting]
    } else {
        Seq::<Recommendation>::empty()
    }) + (if hops > 2 {
        seq![Recommendation::TooManyHops]
    } else {
        Seq::<Recommendation>::empty()
    }) + (if total_fees > HIGH_FEE_THRESHOLD {
        seq![Recommendation::HighFees]
    } else {
        Seq::<Recommendation>::empty()
    })
}

/// Performance analysis of one route.
#[derive(Debug, Clone)]
pub struct RouteAnalysis {
    /// Number of hops in the route.
    pub total_hops: usize,
    /// Average price impact per hop, fixed-point.
    pub avg_price_impact: u64,
    /// Sum of the venue fees over all hops, fixed-point.
    pub total_fees: u64,
    /// Efficiency score between zero and one, fixed-point; higher is
    /// better.
    pub efficiency_score: u64,
    /// Tuning hints derived from the route's shape.
    pub recommendations: Vec<Recommendation>,
}

/// Routing statistics and performance counters.
#[derive(Debug, Clone, Copy, PartialEq, Eq, Structural)]
pub struct RoutingStats {
    /// Tokens in the routing graph.
    pub total_nodes: usize,
    /// Edges in the routing graph.
    pub total_edges: usize,
    /// Fraction of lookups served from the cache, fixed-point; a
    /// placeholder until measured.
    pub cache_hit_rate: u64,
    /// Average search time in milliseconds; a placeholder until measured.
    pub avg_execution_time_ms: u64,
    /// Fraction of searches that found a route, fixed-point; a placeholder
    /// until measured.
    pub success_rate: u64,
}

/// Relies on std::time::SystemTime::now: the wall-clock time as
/// milliseconds since the epoch. Nothing is assumed of the value.
#[verifier::external_body]
fn now_millis() -> u64 {
    match std::time::SystemTime::now().duration_since(std::time::UNIX_EPOCH) {
        Ok(d) => d.as_millis() as u64,
        Err(_) => 0,
    }
}

/// The orchestrating router: a routing graph, a quote service, and the
/// shared configuration.
pub struct MetisRouter {
    /// The graph searches run over.
    graph: RoutingGraph,
    /// The quote service for live venue prices.
    quote_service: QuoteService,
    /// Router configuration.
    config: RouterConfig,
}

impl MetisRouter {
    /// The router's graph.
    pub closed spec fn spec_graph(&self) -> RoutingGraph {
        self.graph
    }

    /// The router's configuration.
    pub closed spec fn spec_config(&self) -> RouterConfig {
        self.config
    }

    /// The quote cache's current entries.
    pub closed spec fn quote_model(&self) -> Map<CacheKeyView, CacheEntry> {
        self.quote_service.model()
    }

    /// The quote service's configuration.
    pub closed spec fn quote_config(&self) -> QuoteConfig {
        self.quote_service.spec_config()
    }

    /// The quote cache stays well formed.
    pub closed spec fn wf(&self) -> bool {
        self.quote_service.wf()
    }

    /// A router over an empty graph, under default configuration.
    pub fn new() -> (r: MetisRouter)
        ensures
            r.spec_graph().tokens@.len() == 0,
            r.spec_graph().edges@.len() == 0,
            r.spec_graph().config == RouterConfig::default_spec(),
            r.spec_config() == RouterConfig::default_spec(),
            r.quote_model().dom() =~= Set::<CacheKeyView>::empty(),
            r.quote_config() == QuoteConfig::default_spec(),
            r.wf(),
    {
        let config = RouterConfig::default();
        let graph = RoutingGraph::new(config);
        let quote_service = QuoteService::new();
        MetisRouter { graph, quote_service, config }
    }

    /// Add a token to the routing graph; a token already at the same
    /// address is replaced.
    pub fn add_token(&mut self, token: Token)
        ensures
            final(self).spec_config() == old(self).spec_config(),
            final(self).quote_model() == old(self).quote_model(),
            final(self).wf() == old(self).wf(),
            final(self).spec_graph().edges == old(self).spec_graph().edges,
            final(self).spec_graph().config == old(self).spec_graph().config,
            ({
                let tokens0 = old(self).spec_graph().tokens@;
                if exists|i: int| crate::graph::is_first_address_at(tokens0, token.address@, i) {
                    final(self).spec_graph().tokens@ =~= tokens0.update(
                        choose|i: int| crate::graph::is_first_address_at(tokens0, token.address@, i),
                        token,
                    )
                } else {
                    final(self).spec_graph().tokens@ =~= tokens0.push(token)
                }
            }),
    {
        self.graph.add_token(token);
    }

    /// Append an edge to the routing graph.
    pub fn add_edge(&mut self, edge: Edge)
        ensures
            final(self).spec_config() == old(self).spec_config(),
            final(self).quote_model() == old(self).quote_model(),
            final(self).wf() == old(self).wf(),
            final(self).spec_graph().tokens == old(self).spec_graph().tokens,
            final(self).spec_graph().config == old(self).spec_graph().config,
            final(self).spec_graph().edges@ == old(self).spec_graph().edges@.push(edge),
    {
        self.graph.add_edge(edge);
    }

    /// Check a request against the validation rules, in order: a positive
    /// amount, a slippage tolerance strictly inside (0, 1), a nonzero
    /// iteration budget, and distinct input and output tokens.
    pub fn validate_request(&self, request: &RouteRequest) -> (r: Result<(), RouterError>)
        ensures
            r == (match validation_result(*request) {
                Some(e) => Err::<(), RouterError>(RouterError::Validation(e)),
                None => Ok::<(), RouterError>(()),
            }),
    {
        if request.input_amount == 0 {
            return Err(RouterError::Validation(ValidationError::NonPositiveAmount));
        }
        if request.slippage_tolerance == 0 || request.slippage_tolerance >= SCALE {
            return Err(RouterError::Validation(ValidationError::SlippageOutOfRange));
        }
        if request.max_iterations == 0 {
            return Err(RouterError::Validation(ValidationError::ZeroMaxIterations));
        }
        if request.input_token == request.output_token {
            return Err(RouterError::Validation(ValidationError::IdenticalTokens));
        }
        Ok(())
    }

    /// Whether the single route beats the split plan on gas-adjusted
    /// effective rate; stated over a sum on each side so that no
    /// subtraction can underflow.
    pub fn compare_routes(&self, single_route: &Route, split_route: &SplitRoute) -> (r: bool)
        ensures
            r == (single_route.effective_rate + split_route.gas_estimate
                > split_route.effective_rate + single_route.gas_estimate),
    {
        let single = (single_route.effective_rate as u128) + (split_route.gas_estimate as u128);
        let split = (split_route.effective_rate as u128) + (single_route.gas_estimate as u128);
        single > split
    }

    /// The single entry point: validate the request, search a single
    /// route, fall back to the split search when permitted, and return
    /// whichever result stands — never both. A validation failure and an
    /// unknown symbol are the only errors; finding nothing is a legitimate
    /// empty response.
    pub fn find_optimal_route(&self, request: RouteRequest) -> (r: Result<
        RouteResponse,
        RouterError,
    >)
        ensures
            ({
                let tokens = self.spec_graph().tokens@;
                match validation_result(request) {
                    Some(e) => r == Err::<RouteResponse, RouterError>(RouterError::Validation(e)),
                    None => {
                        &&& (r is Err <==> !(spec_has_symbol(tokens, request.input_token@)
                            && spec_has_symbol(tokens, request.output_token@)))
                        &&& (r is Err ==> r == Err::<RouteResponse, RouterError>(
                            RouterError::TokenNotFound,
                        ))
                        &&& (r matches Ok(resp) ==> {
                            let edges = self.spec_graph().edges@;
                            let config = self.spec_graph().config;
                            let fin = search_nodes_spec(tokens, edges, config, request);
                            &&& resp.request == request
                            &&& resp.iterations_used as int == fin.1
                            &&& resp.iterations_used <= request.max_iterations
                            &&& !(resp.route is Some && resp.split_route is Some)
                            &&& (resp.route is Some <==> spec_engine_finds(
                                tokens,
                                edges,
                                config,
                                request,
                            ))
                            &&& (resp.route matches Some(route) ==> extracted_route_ok(
                                route,
                                fin.0,
                                edges,
                                config,
                                request,
                                node_index(
                                    fin.0,
                                    tokens[symbol_index(tokens, request.output_token@)].address@,
                                ),
                            ) && wf_route(route, edges, config) && route.total_input_amount
                                == request.input_amount && route.segments@[0].from_token.address@
                                == source_address(tokens, request))
                            &&& (resp.split_route is Some ==> request.enable_split_routes
                                && !spec_engine_finds(tokens, edges, config, request))
                            &&& ((request.enable_split_routes && !spec_engine_finds(
                                tokens,
                                edges,
                                config,
                                request,
                            ) && (match request.max_splits {
                                Some(m) => m > 0,
                                None => true,
                            }) && crate::fixed::fp_mul_spec(
                                request.input_amount as int,
                                SPLIT_RATIO_FIRST as int,
                            ) >= MIN_SPLIT_AMOUNT as int && spec_engine_finds(
                                tokens,
                                edges,
                                config,
                                RouteRequest {
                                    input_amount: crate::fixed::fp_mul_spec(
                                        request.input_amount as int,
                                        SPLIT_RATIO_FIRST as int,
                                    ) as u64,
                                    ..request
                                },
                            )) ==> resp.split_route is Some)
                            &&& (resp.split_route matches Some(plan) ==> request.enable_split_routes
                                && plan.routes@.len() >= 1 && plan.total_input_amount == sat_sum(
                                plan.routes@.map_values(|rt: Route| rt.total_input_amount),
                            ) && plan.total_output_amount == sat_sum(
                                plan.routes@.map_values(|rt: Route| rt.total_output_amount),
                            ) && plan.effective_rate == crate::fixed::fp_div_spec(
                                plan.total_output_amount as int,
                                plan.total_input_amount as int,
                            ) && plan.total_input_amount <= request.input_amount
                                && plan.routes@.len() as int <= (match request.max_splits {
                                Some(m) => m as int,
                                None => 3int,
                            }) && (forall|i: int|
                                0 <= i < plan.routes@.len() ==> route_economics_ok(
                                    #[trigger] plan.routes@[i],
                                    self.spec_graph().config,
                                )) && (!self.spec_graph().config.split_liquidity_depletion
                                ==> forall|i: int|
                                    0 <= i < plan.routes@.len() ==> wf_route(
                                        #[trigger] plan.routes@[i],
                                        self.spec_graph().edges@,
                                        self.spec_graph().config,
                                    )))
                        })
                    },
                }
            }),
    {
        let start_time = now_millis();
        match self.validate_request(&request) {
            Ok(()) => {},
            Err(e) => {
                return Err(e);
            },
        }
        let mut response = RouteResponse {
            request: request.duplicate(),
            route: None,
            split_route: None,
            execution_time_ms: 0,
            iterations_used: 0,
        };
        match self.graph.search_route(&request) {
            Ok((route_opt, iters)) => {
                response.iterations_used = iters;
                response.route = route_opt;
            },
            Err(e) => {
                return Err(e);
            },
        }
        if request.enable_split_routes && response.route.is_none() {
            match self.graph.find_split_routes(&request) {
                Ok(Some(plan)) => {
                    response.split_route = Some(plan);
                },
                Ok(None) => {},
                Err(e) => {
                    proof {
                        assert(false);
                    }
                    return Err(e);
                },
            }
        }
        // Kept from the design: when both a single route and a split plan
        // are present, prefer the higher gas-adjusted rate. In this flow
        // the split search only runs when no single route was found, so at
        // most one side is ever present.
        if response.route.is_some() && response.split_route.is_some() {
            let single_better = match (&response.route, &response.split_route) {
                (Some(single_route), Some(split_route)) => self.compare_routes(
                    single_route,
                    split_route,
                ),
                _ => false,
            };
            if single_better {
                response.split_route = None;
            } else {
                response.route = None;
            }
        }
        response.execution_time_ms = now_millis().saturating_sub(start_time);
        Ok(response)
    }

    /// Serve a live quote through the quote service; the graph and the
    /// configuration are untouched.
    pub fn get_quote(
        &mut self,
        request: &QuoteRequest,
        source: &VenueQuoteData,
        now_ms: u64,
    ) -> (r: QuoteResponse)
        requires
            old(self).wf(),
        ensures
            final(self).wf(),
            final(self).spec_graph() == old(self).spec_graph(),
            final(self).spec_config() == old(self).spec_config(),
            final(self).quote_config() == old(self).quote_config(),
            ({
                let k = quote_key_view(*request);
                let entries = old(self).quote_model();
                if old(self).quote_config().enable_cache {
                    match cache_lookup_spec(entries, k, now_ms) {
                        Some(q) => r == q && final(self).quote_model() == entries,
                        None => r == compute_quote_spec(request.amount, *source)
                            && final(self).quote_model() == entries.insert(
                            k,
                            CacheEntry {
                                quote: r,
                                expires_at_ms: expiry_spec(
                                    now_ms,
                                    old(self).quote_config().cache_ttl_seconds,
                                ) as u64,
                            },
                        ),
                    }
                } else {
                    r == compute_quote_spec(request.amount, *source) && final(self).quote_model()
                        == entries
                }
            }),
    {
        self.quote_service.get_quote(request, source, now_ms)
    }

    /// Refresh the graph with new market data. The market-data feed is an
    /// external collaborator; within this crate the refresh changes
    /// nothing and reports success.
    pub fn update_market_data(&mut self) -> (r: Result<(), RouterError>)
        ensures
            r == Ok::<(), RouterError>(()),
            *final(self) == *old(self),
    {
        Ok(())
    }

    /// Analyze a route: hop count, average impact, total fees, an
    /// efficiency score, and tuning hints.
    #[verifier::loop_isolation(false)]
    pub fn analyze_route(&self, route: &Route) -> (r: RouteAnalysis)
        ensures
            r.total_hops == route.segments@.len(),
            route.segments@.len() == 0 ==> r.avg_price_impact == 0 && r.total_fees == 0
                && r.efficiency_score == 0 && r.recommendations@ =~= Seq::<Recommendation>::empty(),
            route.segments@.len() > 0 ==> {
                &&& r.avg_price_impact == route.price_impact as int / route.segments@.len() as int
                &&& r.total_fees == sat_sum(
                    route.segments@.map_values(
                        |s: crate::types::PathSegment|
                            fp_mul_spec(
                                s.input_amount as int,
                                s.dex_platform.fee_rate as int,
                            ) as u64,
                    ),
                )
                &&& r.efficiency_score == efficiency_score_spec(
                    route.price_impact as int,
                    r.total_fees as int,
                    route.segments@.len() as int,
                )
                &&& r.recommendations@ == recommendations_spec(
                    route.price_impact,
                    r.total_fees,
                    route.segments@.len() as int,
                )
            },
    {
        let total_hops = route.segments.len();
        if total_hops == 0 {
            return RouteAnalysis {
                total_hops: 0,
                avg_price_impact: 0,
                total_fees: 0,
                efficiency_score: 0,
                recommendations: Vec::new(),
            };
        }
        let avg_price_impact = route.price_impact / (total_hops as u64);
        let mut total_fees: u64 = 0;
        let mut i: usize = 0;
        while i < total_hops
            invariant
                i <= total_hops,
                total_fees == sat_sum(
                    route.segments@.take(i as int).map_values(
                        |s: crate::types::PathSegment|
                            fp_mul_spec(
                                s.input_amount as int,
                                s.dex_platform.fee_rate as int,
                            ) as u64,
                    ),
                ),
            decreases total_hops - i,
        {
            proof {
                let f = |s: crate::types::PathSegment|
                    fp_mul_spec(s.input_amount as int, s.dex_platform.fee_rate as int) as u64;
                let m1 = route.segments@.take(i as int + 1).map_values(f);
                let m0 = route.segments@.take(i as int).map_values(f);
                assert(m1.drop_last() =~= m0);
                assert(m1.last() == f(route.segments@[i as int]));
            }
            let fee = crate::fixed::fp_mul(
                route.segments[i].input_amount,
                route.segments[i].dex_platform.fee_rate,
            );
            total_fees = total_fees.saturating_add(fee);
            i += 1;
        }
        proof {
            assert(route.segments@.take(total_hops as int) =~= route.segments@);
        }
        let efficiency_score = compute_efficiency_score(
            route.price_impact,
            total_fees,
            total_hops,
        );
        let mut recommendations: Vec<Recommendation> = Vec::new();
        if route.price_impact > IMPACT_SPLIT_THRESHOLD {
            recommendations.push(Recommendation::ConsiderSplitting);
        }
        if total_hops > 2 {
            recommendations.push(Recommendation::TooManyHops);
        }
        if total_fees > HIGH_FEE_THRESHOLD {
            recommendations.push(Recommendation::HighFees);
        }
        proof {
            assert(recommendations@ =~= recommendations_spec(
                route.price_impact,
                total_fees,
                total_hops as int,
            ));
        }
        RouteAnalysis {
            total_hops,
            avg_price_impact,
            total_fees,
            efficiency_score,
            recommendations,
        }
    }

    /// Report graph size and the placeholder performance counters.
    pub fn get_routing_stats(&self) -> (r: RoutingStats)
        ensures
            r.total_nodes == self.spec_graph().tokens@.len(),
            r.total_edges == self.spec_graph().edges@.len(),
            r.cache_hit_rate == STATS_CACHE_HIT_RATE,
            r.avg_execution_time_ms == STATS_AVG_EXECUTION_MS,
            r.success_rate == STATS_SUCCESS_RATE,
    {
        RoutingStats {
            total_nodes: self.graph.tokens.len(),
            total_edges: self.graph.edges.len(),
            cache_hit_rate: STATS_CACHE_HIT_RATE,
            avg_execution_time_ms: STATS_AVG_EXECUTION_MS,
            success_rate: STATS_SUCCESS_RATE,
        }
    }
}

impl Default for MetisRouter {
    /// Same as [`MetisRouter::new`].
    fn default() -> (r: MetisRouter)
        ensures
            r.spec_graph().tokens@.len() == 0,
            r.spec_graph().edges@.len() == 0,
            r.spec_config() == RouterConfig::default_spec(),
            r.wf(),
    {
        MetisRouter::new()
    }
}

/// The efficiency score, computed in wide signed arithmetic and floored
/// at zero.
fn compute_efficiency_score(price_impact: u64, total_fees: u64, hops: usize) -> (r: u64)
    ensures
        r == efficiency_score_spec(price_impact as int, total_fees as int, hops as int),
{
    proof {
        assert((hops as int) * (HOP_PENALTY as int) <= (u64::MAX as int) * (HOP_PENALTY as int))
            by (nonlinear_arith)
            requires
                0 <= hops as int <= u64::MAX as int,
        ;
    }
    let s: i128 = (SCALE as i128) - (price_impact as i128) - 10 * (total_fees as i128) - (
    hops as i128) * (HOP_PENALTY as i128);
    if s < 0 {
        0
    } else {
        s as u64
    }
}

} // verus!
