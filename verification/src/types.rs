//! Data model: assets, venues, edges, routes, requests, responses,
//! configuration and error taxonomy.
//!
//! Monetary fields are fixed-point `u64` values scaled by [`crate::SCALE`];
//! an edge's `weight` is the fixed-point value of the negative logarithm of
//! its exchange rate, precomputed by whoever populates the graph.

use vstd::prelude::*;

verus! {

/// A tradable token in the routing graph.
#[derive(Debug, Clone, PartialEq, Eq, Hash)]
pub struct Token {
    /// Ticker symbol, e.g. "USDC" or "SOL".
    pub symbol: String,
    /// On-chain address; the unique key of the token inside a graph.
    pub address: String,
    /// Decimal precision of the token, e.g. 6 for USDC.
    pub decimals: u8,
}

impl Token {
    /// Field-for-field copy with a known result, unlike the derived `Clone`.
    pub fn duplicate(&self) -> (r: Token)
        ensures
            r == *self,
    {
        Token { symbol: self.symbol.clone(), address: self.address.clone(), decimals: self.decimals }
    }
}

/// An exchange venue offering one or more asset-pair edges.
#[derive(Debug, Clone)]
pub struct DexPlatform {
    /// Venue name, e.g. "Raydium".
    pub name: String,
    /// On-chain address of the venue.
    pub address: String,
    /// Fraction of the trade taken as fee, fixed-point.
    pub fee_rate: u64,
}

impl DexPlatform {
    /// Field-for-field copy with a known result, unlike the derived `Clone`.
    pub fn duplicate(&self) -> (r: DexPlatform)
        ensures
            r == *self,
    {
        DexPlatform { name: self.name.clone(), address: self.address.clone(), fee_rate: self.fee_rate }
    }
}

/// A directed, venue-specific trading pair with liquidity constraints.
#[derive(Debug, Clone)]
pub struct Edge {
    /// Input token of the pair.
    pub from_token: Token,
    /// Output token of the pair.
    pub to_token: Token,
    /// Venue offering the pair.
    pub dex_platform: DexPlatform,
    /// Output units per input unit, fixed-point.
    pub exchange_rate: u64,
    /// Total liquidity available on the pair, fixed-point.
    pub liquidity: u64,
    /// Largest single trade the pair supports, fixed-point.
    pub max_trade_size: u64,
    /// Smallest viable trade on the pair, fixed-point.
    pub min_trade_size: u64,
    /// Relaxation weight: the negative logarithm of `exchange_rate`,
    /// fixed-point, precomputed by the graph builder.
    pub weight: i64,
}

impl Edge {
    /// Field-for-field copy with a known result, unlike the derived `Clone`.
    pub fn duplicate(&self) -> (r: Edge)
        ensures
            r == *self,
    {
        Edge {
            from_token: self.from_token.duplicate(),
            to_token: self.to_token.duplicate(),
            dex_platform: self.dex_platform.duplicate(),
            exchange_rate: self.exchange_rate,
            liquidity: self.liquidity,
            max_trade_size: self.max_trade_size,
            min_trade_size: self.min_trade_size,
            weight: self.weight,
        }
    }
}

/// One hop of a reconstructed route.
#[derive(Debug, Clone)]
pub struct PathSegment {
    /// Input token of the hop.
    pub from_token: Token,
    /// Output token of the hop.
    pub to_token: Token,
    /// Venue executing the hop.
    pub dex_platform: DexPlatform,
    /// Amount entering the hop, fixed-point.
    pub input_amount: u64,
    /// Amount leaving the hop, fixed-point.
    pub output_amount: u64,
    /// Realized rate of the hop: output over input, fixed-point.
    pub exchange_rate: u64,
    /// Price impact incurred by the hop, fixed-point.
    pub price_impact: u64,
}

/// A complete route from input token to output token.
#[derive(Debug, Clone)]
pub struct Route {
    /// Hops of the route, in execution order.
    pub segments: Vec<PathSegment>,
    /// Total amount entering the route, fixed-point.
    pub total_input_amount: u64,
    /// Total amount delivered by the route, fixed-point.
    pub total_output_amount: u64,
    /// Total output over total input, fixed-point.
    pub effective_rate: u64,
    /// Sum of the segments' price impacts, fixed-point.
    pub price_impact: u64,
    /// Estimated gas cost of executing the route, fixed-point.
    pub gas_estimate: u64,
    /// Share of a split plan this route carries, if it is part of one.
    pub split_ratio: Option<u64>,
}

/// A plan of several independently routed partial trades.
#[derive(Debug, Clone)]
pub struct SplitRoute {
    /// Constituent routes, in the order they were found.
    pub routes: Vec<Route>,
    /// Sum of the constituent routes' inputs, fixed-point.
    pub total_input_amount: u64,
    /// Sum of the constituent routes' outputs, fixed-point.
    pub total_output_amount: u64,
    /// Total output over total input, fixed-point.
    pub effective_rate: u64,
    /// Sum of the constituent routes' price impacts, fixed-point.
    pub price_impact: u64,
    /// Sum of the constituent routes' gas estimates, fixed-point.
    pub gas_estimate: u64,
}

/// Parameters of a route search.
#[derive(Debug, Clone)]
pub struct RouteRequest {
    /// Symbol of the token paid in.
    pub input_token: String,
    /// Symbol of the token to receive.
    pub output_token: String,
    /// Amount paid in, fixed-point; must be positive.
    pub input_amount: u64,
    /// Slippage tolerance, fixed-point, strictly between 0 and 1.
    pub slippage_tolerance: u64,
    /// Upper bound on relaxation rounds; must be positive.
    pub max_iterations: usize,
    /// Whether a split plan may be searched for.
    pub enable_split_routes: bool,
    /// Upper bound on the number of splits, if given.
    pub max_splits: Option<usize>,
}

impl RouteRequest {
    /// Field-for-field copy with a known result, unlike the derived `Clone`.
    pub fn duplicate(&self) -> (r: RouteRequest)
        ensures
            r == *self,
    {
        RouteRequest {
            input_token: self.input_token.clone(),
            output_token: self.output_token.clone(),
            input_amount: self.input_amount,
            slippage_tolerance: self.slippage_tolerance,
            max_iterations: self.max_iterations,
            enable_split_routes: self.enable_split_routes,
            max_splits: self.max_splits,
        }
    }
}

/// Outcome of a route search.
#[derive(Debug, Clone)]
pub struct RouteResponse {
    /// The request this response answers.
    pub request: RouteRequest,
    /// Best single route, if one was found and chosen.
    pub route: Option<Route>,
    /// Split plan, if one was searched for, found and chosen.
    pub split_route: Option<SplitRoute>,
    /// Wall-clock duration of the search in milliseconds.
    pub execution_time_ms: u64,
    /// Relaxation rounds actually run.
    pub iterations_used: usize,
}

/// Per-search state of one graph node.
#[derive(Debug, Clone)]
pub struct GraphNode {
    /// The token this node stands for.
    pub token: Token,
    /// Best cumulative weight reached so far; `None` means unreached.
    pub distance: Option<i64>,
    /// Address of the node this one was best reached from.
    pub predecessor: Option<String>,
    /// Best deliverable amount at the current distance, fixed-point.
    pub best_amount: u64,
    /// Liquidity consumed to reach this node, fixed-point.
    pub liquidity_used: u64,
}

/// State of the relaxation loop, rebuilt for every search.
#[derive(Debug, Clone)]
pub struct IterationState {
    /// One entry per graph token, in the graph's token order.
    pub nodes: Vec<GraphNode>,
    /// Whether the current round improved any node.
    pub improved: bool,
    /// Rounds completed so far.
    pub iteration: usize,
    /// Best route found so far, if any.
    pub best_route: Option<Route>,
}

/// A request for a live venue price.
#[derive(Debug, Clone)]
pub struct QuoteRequest {
    /// Symbol of the token paid in.
    pub input_token: String,
    /// Symbol of the token to receive.
    pub output_token: String,
    /// Trade size, fixed-point.
    pub amount: u64,
    /// Name of the venue asked for the quote.
    pub dex_platform: String,
}

/// A venue's answer to a quote request.
#[derive(Debug, Clone, Copy, PartialEq, Eq, Structural)]
pub struct QuoteResponse {
    /// Amount paid in, fixed-point.
    pub input_amount: u64,
    /// Amount received after price impact, fixed-point.
    pub output_amount: u64,
    /// Quoted exchange rate, fixed-point.
    pub exchange_rate: u64,
    /// Price impact of the trade, fixed-point.
    pub price_impact: u64,
    /// Liquidity available on the venue, fixed-point.
    pub liquidity_available: u64,
    /// Fee charged by the venue, fixed-point.
    pub fee_amount: u64,
}

/// Router-wide configuration.
#[derive(Debug, Clone, Copy, PartialEq, Eq, Structural)]
pub struct RouterConfig {
    /// Upper bound on relaxation rounds.
    pub max_iterations: usize,
    /// Edges with less liquidity than this are ignored by the graph builder.
    pub min_liquidity_threshold: u64,
    /// Largest tolerated per-hop price impact, fixed-point.
    pub max_price_impact: u64,
    /// Gas price each trade pays, fixed-point.
    pub gas_price: u64,
    /// Whether quote caching is enabled.
    pub enable_caching: bool,
    /// Lifetime of a cache entry in seconds.
    pub cache_ttl_seconds: u64,
    /// Whether each split of a plan sees the liquidity consumed by the
    /// splits found before it. Off by default: every sub-search then sees
    /// the full original liquidity.
    pub split_liquidity_depletion: bool,
}

impl Default for RouterConfig {
    /// Defaults: five rounds, a 100-unit liquidity floor, 5% impact cap,
    /// a gas price of 0.000005, caching on with a 30-second lifetime.
    fn default() -> (r: RouterConfig)
        ensures
            r == RouterConfig::default_spec(),
    {
        RouterConfig {
            max_iterations: 5,
            min_liquidity_threshold: 100_000_000_000_000,
            max_price_impact: 50_000_000_000,
            gas_price: 5_000_000,
            enable_caching: true,
            cache_ttl_seconds: 30,
            split_liquidity_depletion: false,
        }
    }
}

impl RouterConfig {
    /// The configuration `Default::default` returns.
    pub open spec fn default_spec() -> RouterConfig {
        RouterConfig {
            max_iterations: 5,
            min_liquidity_threshold: 100_000_000_000_000,
            max_price_impact: 50_000_000_000,
            gas_price: 5_000_000,
            enable_caching: true,
            cache_ttl_seconds: 30,
            split_liquidity_depletion: false,
        }
    }
}

/// Why a route request was rejected before any search ran.
#[derive(Debug, Clone, Copy, PartialEq, Eq, Structural)]
pub enum ValidationError {
    /// The input amount was zero.
    NonPositiveAmount,
    /// The slippage tolerance was not strictly between 0 and 1.
    SlippageOutOfRange,
    /// The iteration budget was zero.
    ZeroMaxIterations,
    /// Input and output token were the same.
    IdenticalTokens,
}

/// Why a search failed. "No route found" is not an error: it is reported
/// as an empty result.
#[derive(Debug, Clone, Copy, PartialEq, Eq, Structural)]
pub enum RouterError {
    /// A requested token symbol is not in the graph.
    TokenNotFound,
    /// Path reconstruction referred to an edge the graph does not hold.
    EdgeNotFound,
    /// The request failed validation.
    Validation(ValidationError),
}

/// Why a route response failed validation.
#[derive(Debug, Clone, Copy, PartialEq, Eq, Structural)]
pub enum ResponseError {
    /// Neither a single route nor a split plan is present.
    MissingRoute,
    /// The single route has no segments.
    EmptyRouteSegments,
    /// The single route's total input is zero.
    NonPositiveRouteInput,
    /// The single route's total output is zero.
    NonPositiveRouteOutput,
    /// The split plan has no routes.
    EmptySplitRoutes,
    /// The split plan's total input is zero.
    NonPositiveSplitInput,
    /// The split plan's total output is zero.
    NonPositiveSplitOutput,
}

} // verus!
