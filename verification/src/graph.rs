//! The routing graph and the constrained shortest-path engine.
//!
//! The graph holds tokens and venue-specific edges; a search runs a
//! liquidity-aware label-correcting relaxation (a Bellman-Ford variant over
//! the precomputed `-ln(rate)` edge weights), reconstructs the best path to
//! the target, and derives the route's economics. A search never mutates the
//! graph: all per-search state lives in an [`IterationState`].

use vstd::pervasive::VecAdditionalExecFns;
use vstd::prelude::*;

use crate::fixed::{
    fp_div, fp_div_spec, fp_mul, fp_mul_spec, price_impact_amount, price_impact_spec, sat_sum,
};
use crate::types::{
    Edge, GraphNode, IterationState, PathSegment, Route, RouteRequest, RouterConfig, RouterError,
    SplitRoute, Token,
};

verus! {

/// Base gas consumed by one venue interaction, fixed-point.
pub const BASE_GAS_PER_DEX: u64 = 1_000_000;

/// Fraction of the requested amount given to the first split of a plan.
pub const SPLIT_RATIO_FIRST: u64 = 600_000_000_000;

/// Fraction of the requested amount given to the second split of a plan.
pub const SPLIT_RATIO_SECOND: u64 = 300_000_000_000;

/// Fraction of the requested amount given to each further split of a plan.
pub const SPLIT_RATIO_REST: u64 = 100_000_000_000;

/// Smallest viable split size: ten whole units, fixed-point.
pub const MIN_SPLIT_AMOUNT: u64 = 10_000_000_000_000;

/// Whether some token of `tokens` carries the symbol `sym`.
pub open spec fn spec_has_symbol(tokens: Seq<Token>, sym: Seq<char>) -> bool {
    exists|i: int| 0 <= i < tokens.len() && tokens[i].symbol@ == sym
}

/// `i` is the position of the first token carrying symbol `sym`.
pub open spec fn is_first_symbol_at(tokens: Seq<Token>, sym: Seq<char>, i: int) -> bool {
    &&& 0 <= i < tokens.len()
    &&& tokens[i].symbol@ == sym
    &&& forall|j: int| 0 <= j < i ==> tokens[j].symbol@ != sym
}

/// Position of the first token carrying symbol `sym`, or `-1`.
pub open spec fn symbol_index(tokens: Seq<Token>, sym: Seq<char>) -> int {
    if exists|i: int| is_first_symbol_at(tokens, sym, i) {
        choose|i: int| is_first_symbol_at(tokens, sym, i)
    } else {
        -1
    }
}

/// A first position is unique, so it is what `symbol_index` returns.
pub proof fn lemma_symbol_index_is(tokens: Seq<Token>, sym: Seq<char>, i: int)
    requires
        is_first_symbol_at(tokens, sym, i),
    ensures
        symbol_index(tokens, sym) == i,
{
    let c = choose|k: int| is_first_symbol_at(tokens, sym, k);
    assert(is_first_symbol_at(tokens, sym, c));
    if c < i {
        assert(tokens[c].symbol@ != sym);
    } else if i < c {
        assert(tokens[i].symbol@ != sym);
    }
}

/// `i` is the position of the first token carrying address `addr`.
pub open spec fn is_first_address_at(tokens: Seq<Token>, addr: Seq<char>, i: int) -> bool {
    &&& 0 <= i < tokens.len()
    &&& tokens[i].address@ == addr
    &&& forall|j: int| 0 <= j < i ==> tokens[j].address@ != addr
}

/// Position of the first token carrying address `addr`, or `-1`.
pub open spec fn address_index(tokens: Seq<Token>, addr: Seq<char>) -> int {
    if exists|i: int| is_first_address_at(tokens, addr, i) {
        choose|i: int| is_first_address_at(tokens, addr, i)
    } else {
        -1
    }
}

/// A first position is unique, so it is what `address_index` returns.
pub proof fn lemma_address_index_is(tokens: Seq<Token>, addr: Seq<char>, i: int)
    requires
        is_first_address_at(tokens, addr, i),
    ensures
        address_index(tokens, addr) == i,
{
    let c = choose|k: int| is_first_address_at(tokens, addr, k);
    assert(is_first_address_at(tokens, addr, c));
    if c < i {
        assert(tokens[c].address@ != addr);
    } else if i < c {
        assert(tokens[i].address@ != addr);
    }
}

/// `k` is the position of the first edge joining `from` to `to`.
pub open spec fn is_first_edge_at(edges: Seq<Edge>, from: Seq<char>, to: Seq<char>, k: int) -> bool {
    &&& 0 <= k < edges.len()
    &&& edges[k].from_token.address@ == from
    &&& edges[k].to_token.address@ == to
    &&& forall|j: int|
        0 <= j < k ==> !((#[trigger] edges[j]).from_token.address@ == from
            && edges[j].to_token.address@ == to)
}

/// Position of the first edge joining `from` to `to`, or `-1`.
pub open spec fn edge_index(edges: Seq<Edge>, from: Seq<char>, to: Seq<char>) -> int {
    if exists|k: int| is_first_edge_at(edges, from, to, k) {
        choose|k: int| is_first_edge_at(edges, from, to, k)
    } else {
        -1
    }
}

/// A first position is unique, so it is what `edge_index` returns.
pub proof fn lemma_edge_index_is(edges: Seq<Edge>, from: Seq<char>, to: Seq<char>, k: int)
    requires
        is_first_edge_at(edges, from, to, k),
    ensures
        edge_index(edges, from, to) == k,
{
    let c = choose|j: int| is_first_edge_at(edges, from, to, j);
    assert(is_first_edge_at(edges, from, to, c));
    if c < k {
        assert(!(edges[c].from_token.address@ == from && edges[c].to_token.address@ == to));
    } else if k < c {
        assert(!(edges[k].from_token.address@ == from && edges[k].to_token.address@ == to));
    }
}

/// `i` is the position of the first node whose token carries address `addr`.
pub open spec fn is_first_node_at(nodes: Seq<GraphNode>, addr: Seq<char>, i: int) -> bool {
    &&& 0 <= i < nodes.len()
    &&& nodes[i].token.address@ == addr
    &&& forall|j: int| 0 <= j < i ==> nodes[j].token.address@ != addr
}

/// Position of the first node whose token carries address `addr`, or `-1`.
pub open spec fn node_index(nodes: Seq<GraphNode>, addr: Seq<char>) -> int {
    if exists|i: int| is_first_node_at(nodes, addr, i) {
        choose|i: int| is_first_node_at(nodes, addr, i)
    } else {
        -1
    }
}

/// A first position is unique, so it is what `node_index` returns.
pub proof fn lemma_node_index_is(nodes: Seq<GraphNode>, addr: Seq<char>, i: int)
    requires
        is_first_node_at(nodes, addr, i),
    ensures
        node_index(nodes, addr) == i,
{
    let c = choose|k: int| is_first_node_at(nodes, addr, k);
    assert(is_first_node_at(nodes, addr, c));
    if c < i {
        assert(nodes[c].token.address@ != addr);
    } else if i < c {
        assert(nodes[i].token.address@ != addr);
    }
}

/// Liquidity an edge can actually serve after reserving headroom for its own
/// maximum trade size.
pub open spec fn available_liquidity_spec(edge: Edge) -> int {
    edge.liquidity - (
        if edge.max_trade_size <= edge.liquidity {
            edge.max_trade_size as int
        } else {
            edge.liquidity as int
        }
    )
}

/// Amount a relaxation across `edge` would deliver when leaving `from`:
/// the rate-converted amount, capped by the edge's available liquidity.
pub open spec fn candidate_amount_spec(from: GraphNode, edge: Edge) -> int {
    let potential = fp_mul_spec(from.best_amount as int, edge.exchange_rate as int);
    let available = available_liquidity_spec(edge);
    if potential <= available {
        potential
    } else {
        available
    }
}

/// Gas estimate for a route of `hops` venue interactions: a base cost per
/// interaction, scaled by the configured gas price.
pub open spec fn gas_cost_spec(hops: int, config: RouterConfig) -> int {
    fp_mul_spec(crate::fixed::sat64(BASE_GAS_PER_DEX as int * hops), config.gas_price as int)
}

/// The graph of tokens and venue edges a search runs over.
pub struct RoutingGraph {
    /// Tokens of the graph; addresses are kept unique by `add_token`.
    pub tokens: Vec<Token>,
    /// Edges of the graph, in insertion order; several edges may connect the
    /// same token pair through different venues.
    pub edges: Vec<Edge>,
    /// Configuration the engine searches under.
    pub config: RouterConfig,
}

impl RoutingGraph {
    /// An empty graph under the given configuration.
    pub fn new(config: RouterConfig) -> (r: RoutingGraph)
        ensures
            r.tokens@.len() == 0,
            r.edges@.len() == 0,
            r.config == config,
    {
        RoutingGraph { tokens: Vec::new(), edges: Vec::new(), config }
    }

    /// Position of the first token carrying the given address, if any.
    pub fn find_token_index(&self, address: &String) -> (r: Option<usize>)
        ensures
            match r {
                Some(i) => is_first_address_at(self.tokens@, address@, i as int),
                None => forall|j: int|
                    0 <= j < self.tokens@.len() ==> self.tokens@[j].address@ != address@,
            },
    {
        let n = self.tokens.len();
        let mut i: usize = 0;
        while i < n
            invariant
                n == self.tokens@.len(),
                i <= n,
                forall|j: int| 0 <= j < i ==> self.tokens@[j].address@ != address@,
            decreases n - i,
        {
            if self.tokens[i].address == *address {
                return Some(i);
            }
            i += 1;
        }
        None
    }

    /// Add a token; a token already at the same address is replaced, so
    /// addresses stay unique.
    pub fn add_token(&mut self, token: Token)
        ensures
            final(self).edges == old(self).edges,
            final(self).config == old(self).config,
            ({
                let tokens0 = old(self).tokens@;
                if exists|i: int| is_first_address_at(tokens0, token.address@, i) {
                    final(self).tokens@ =~= tokens0.update(
                        choose|i: int| is_first_address_at(tokens0, token.address@, i),
                        token,
                    )
                } else {
                    final(self).tokens@ =~= tokens0.push(token)
                }
            }),
    {
        let found = self.find_token_index(&token.address);
        match found {
            Some(i) => {
                proof {
                    lemma_token_first_address_unique(self.tokens@, token.address@, i as int);
                }
                self.tokens.set(i, token);
            },
            None => {
                self.tokens.push(token);
            },
        }
    }

    /// Append an edge; edges are never removed or reordered.
    pub fn add_edge(&mut self, edge: Edge)
        ensures
            final(self).tokens == old(self).tokens,
            final(self).config == old(self).config,
            final(self).edges@ == old(self).edges@.push(edge),
    {
        self.edges.push(edge);
    }

    /// Address of the first token carrying the given symbol; an error when
    /// the symbol is unknown.
    pub fn get_token_address(&self, symbol: &String) -> (r: Result<String, RouterError>)
        ensures
            r is Ok <==> spec_has_symbol(self.tokens@, symbol@),
            r is Err ==> r == Err::<String, RouterError>(RouterError::TokenNotFound),
            r is Ok ==> r->Ok_0@ == self.tokens@[symbol_index(self.tokens@, symbol@)].address@
                && is_first_symbol_at(self.tokens@, symbol@, symbol_index(self.tokens@, symbol@)),
    {
        let n = self.tokens.len();
        let mut i: usize = 0;
        while i < n
            invariant
                n == self.tokens@.len(),
                i <= n,
                forall|j: int| 0 <= j < i ==> self.tokens@[j].symbol@ != symbol@,
            decreases n - i,
        {
            if self.tokens[i].symbol == *symbol {
                proof {
                    lemma_symbol_index_is(self.tokens@, symbol@, i as int);
                }
                return Ok(self.tokens[i].address.clone());
            }
            i += 1;
        }
        Err(RouterError::TokenNotFound)
    }

    /// The first token carrying the given symbol; an error when the symbol
    /// is unknown.
    pub fn get_token_by_symbol(&self, symbol: &String) -> (r: Result<&Token, RouterError>)
        ensures
            r is Ok <==> spec_has_symbol(self.tokens@, symbol@),
            r is Err ==> r == Err::<&Token, RouterError>(RouterError::TokenNotFound),
            r is Ok ==> *r->Ok_0 == self.tokens@[symbol_index(self.tokens@, symbol@)],
    {
        let n = self.tokens.len();
        let mut i: usize = 0;
        while i < n
            invariant
                n == self.tokens@.len(),
                i <= n,
                forall|j: int| 0 <= j < i ==> self.tokens@[j].symbol@ != symbol@,
            decreases n - i,
        {
            if self.tokens[i].symbol == *symbol {
                proof {
                    lemma_symbol_index_is(self.tokens@, symbol@, i as int);
                }
                return Ok(&self.tokens[i]);
            }
            i += 1;
        }
        Err(RouterError::TokenNotFound)
    }

    /// The first edge leading from one address to another; an error when no
    /// such edge exists.
    pub fn find_edge(&self, from_address: &String, to_address: &String) -> (r: Result<
        &Edge,
        RouterError,
    >)
        ensures
            r is Ok <==> exists|k: int|
                0 <= k < self.edges@.len() && self.edges@[k].from_token.address@ == from_address@
                    && self.edges@[k].to_token.address@ == to_address@,
            r is Err ==> r == Err::<&Edge, RouterError>(RouterError::EdgeNotFound),
            r is Ok ==> is_first_edge_at(
                self.edges@,
                from_address@,
                to_address@,
                edge_index(self.edges@, from_address@, to_address@),
            ) && *r->Ok_0 == self.edges@[edge_index(self.edges@, from_address@, to_address@)],
    {
        let n = self.edges.len();
        let mut i: usize = 0;
        while i < n
            invariant
                n == self.edges@.len(),
                i <= n,
                forall|j: int|
                    0 <= j < i ==> !((#[trigger] self.edges@[j]).from_token.address@
                        == from_address@ && self.edges@[j].to_token.address@ == to_address@),
            decreases n - i,
        {
            if self.edges[i].from_token.address == *from_address && self.edges[i].to_token.address
                == *to_address {
                proof {
                    lemma_edge_index_is(self.edges@, from_address@, to_address@, i as int);
                }
                return Ok(&self.edges[i]);
            }
            i += 1;
        }
        Err(RouterError::EdgeNotFound)
    }

    /// Fresh per-search node states: one unreached node per graph token.
    pub fn initialize_nodes(&self) -> (r: Vec<GraphNode>)
        ensures
            r@.len() == self.tokens@.len(),
            forall|i: int|
                0 <= i < r@.len() ==> #[trigger] r@[i] == (GraphNode {
                    token: self.tokens@[i],
                    distance: None,
                    predecessor: None,
                    best_amount: 0,
                    liquidity_used: 0,
                }),
    {
        let n = self.tokens.len();
        let mut nodes: Vec<GraphNode> = Vec::new();
        let mut i: usize = 0;
        while i < n
            invariant
                n == self.tokens@.len(),
                i <= n,
                nodes@.len() == i,
                forall|j: int|
                    0 <= j < i ==> #[trigger] nodes@[j] == (GraphNode {
                        token: self.tokens@[j],
                        distance: None,
                        predecessor: None,
                        best_amount: 0,
                        liquidity_used: 0,
                    }),
            decreases n - i,
        {
            nodes.push(
                GraphNode {
                    token: self.tokens[i].duplicate(),
                    distance: None,
                    predecessor: None,
                    best_amount: 0,
                    liquidity_used: 0,
                },
            );
            i += 1;
        }
        nodes
    }

    /// Price impact of trading `trade_amount` across `edge`, under the
    /// linear impact model.
    pub fn calculate_price_impact(&self, edge: &Edge, trade_amount: u64) -> (r: u64)
        ensures
            r == price_impact_spec(trade_amount as int, edge.liquidity as int),
    {
        price_impact_amount(trade_amount, edge.liquidity)
    }

    /// Gas estimate for executing the given segments: a base cost per venue
    /// interaction, scaled by the configured gas price.
    pub fn estimate_gas_cost(&self, segments: &Vec<PathSegment>) -> (r: u64)
        ensures
            r == gas_cost_spec(segments@.len() as int, self.config),
    {
        let hops = segments.len() as u64;
        let total_gas: u64;
        if hops == 0 {
            total_gas = 0;
        } else if BASE_GAS_PER_DEX <= u64::MAX / hops {
            proof {
                assert(BASE_GAS_PER_DEX as int * hops as int <= u64::MAX as int)
                    by (nonlinear_arith)
                    requires
                        hops > 0,
                        BASE_GAS_PER_DEX as int <= (u64::MAX as int) / (hops as int),
                ;
            }
            total_gas = BASE_GAS_PER_DEX * hops;
        } else {
            total_gas = u64::MAX;
        }
        proof {
            lemma_base_gas_total(segments@.len() as int, total_gas as int);
        }
        fp_mul(total_gas, self.config.gas_price)
    }
}

/// Position of the first node for `address`, if any, with the relation to
/// `node_index` established.
pub fn find_node_index(nodes: &Vec<GraphNode>, address: &String) -> (r: Option<usize>)
    ensures
        match r {
            Some(i) => is_first_node_at(nodes@, address@, i as int) && node_index(
                nodes@,
                address@,
            ) == i,
            None => node_index(nodes@, address@) == -1 && forall|j: int|
                0 <= j < nodes@.len() ==> nodes@[j].token.address@ != address@,
        },
{
    let n = nodes.len();
    let mut i: usize = 0;
    while i < n
        invariant
            n == nodes@.len(),
            i <= n,
            forall|j: int| 0 <= j < i ==> nodes@[j].token.address@ != address@,
        decreases n - i,
    {
        if nodes[i].token.address == *address {
            proof {
                lemma_node_index_is(nodes@, address@, i as int);
            }
            return Some(i);
        }
        i += 1;
    }
    proof {
        lemma_node_index_none(nodes@, address@);
    }
    None
}

/// A sequence without the address has no first position for it.
pub proof fn lemma_node_index_none(nodes: Seq<GraphNode>, addr: Seq<char>)
    requires
        forall|j: int| 0 <= j < nodes.len() ==> nodes[j].token.address@ != addr,
    ensures
        node_index(nodes, addr) == -1,
{
    if exists|i: int| is_first_node_at(nodes, addr, i) {
        let i = choose|i: int| is_first_node_at(nodes, addr, i);
        assert(nodes[i].token.address@ == addr);
        assert(false);
    }
}

/// `node_index` only looks at the nodes' token addresses.
pub proof fn lemma_node_index_same_tokens(a: Seq<GraphNode>, b: Seq<GraphNode>, addr: Seq<char>)
    requires
        a.len() == b.len(),
        forall|j: int| 0 <= j < a.len() ==> a[j].token.address@ == b[j].token.address@,
    ensures
        node_index(a, addr) == node_index(b, addr),
{
    if exists|i: int| is_first_node_at(a, addr, i) {
        let i = choose|i: int| is_first_node_at(a, addr, i);
        assert(is_first_node_at(b, addr, i));
        lemma_node_index_is(a, addr, i);
        lemma_node_index_is(b, addr, i);
    } else if exists|i: int| is_first_node_at(b, addr, i) {
        let i = choose|i: int| is_first_node_at(b, addr, i);
        assert(is_first_node_at(a, addr, i));
        assert(false);
    }
}

/// Whether relaxing `edge` over the given node states is accepted: the
/// source node is reached, the candidate distance does not overflow and
/// strictly improves the destination, and the candidate amount is positive,
/// at least the edge's minimum trade size, and within the impact cap.
pub open spec fn relax_applies(nodes: Seq<GraphNode>, edge: Edge, config: RouterConfig) -> bool {
    let fi = node_index(nodes, edge.from_token.address@);
    let ti = node_index(nodes, edge.to_token.address@);
    &&& fi >= 0
    &&& ti >= 0
    &&& nodes[fi].distance is Some
    &&& i64::MIN <= nodes[fi].distance->Some_0 + edge.weight <= i64::MAX
    &&& (nodes[ti].distance is Some ==> nodes[fi].distance->Some_0 + edge.weight
        < nodes[ti].distance->Some_0)
    &&& candidate_amount_spec(nodes[fi], edge) > 0
    &&& candidate_amount_spec(nodes[fi], edge) >= edge.min_trade_size
    &&& price_impact_spec(candidate_amount_spec(nodes[fi], edge), edge.liquidity as int)
        <= config.max_price_impact
}

/// The destination node's state after an accepted relaxation of `edge`.
pub open spec fn relaxed_node(nodes: Seq<GraphNode>, edge: Edge) -> GraphNode {
    let fi = node_index(nodes, edge.from_token.address@);
    let ti = node_index(nodes, edge.to_token.address@);
    GraphNode {
        token: nodes[ti].token,
        distance: Some((nodes[fi].distance->Some_0 + edge.weight) as i64),
        predecessor: Some(edge.from_token.address),
        best_amount: candidate_amount_spec(nodes[fi], edge) as u64,
        liquidity_used: candidate_amount_spec(nodes[fi], edge) as u64,
    }
}

/// The node states after one relaxation attempt of `edge`: updated on
/// acceptance, unchanged otherwise.
pub open spec fn relax_step(nodes: Seq<GraphNode>, edge: Edge, config: RouterConfig) -> Seq<
    GraphNode,
> {
    if relax_applies(nodes, edge, config) {
        nodes.update(node_index(nodes, edge.to_token.address@), relaxed_node(nodes, edge))
    } else {
        nodes
    }
}

/// Node states and improvement flag after attempting the first `k` edges
/// of a round, in order.
pub open spec fn round_prefix(
    nodes: Seq<GraphNode>,
    improved: bool,
    edges: Seq<Edge>,
    k: int,
    config: RouterConfig,
) -> (Seq<GraphNode>, bool)
    decreases k,
{
    if k <= 0 {
        (nodes, improved)
    } else {
        let prev = round_prefix(nodes, improved, edges, k - 1, config);
        (
            relax_step(prev.0, edges[k - 1], config),
            prev.1 || relax_applies(prev.0, edges[k - 1], config),
        )
    }
}

/// One full relaxation round over every edge, in edge-list order, starting
/// unimproved.
pub open spec fn relax_round(nodes: Seq<GraphNode>, edges: Seq<Edge>, config: RouterConfig) -> (
    Seq<GraphNode>,
    bool,
) {
    round_prefix(nodes, false, edges, edges.len() as int, config)
}

/// Run up to `rounds_left` relaxation rounds, stopping after the first
/// round that improves nothing: the final node states and the number of
/// rounds run.
pub open spec fn run_rounds(
    nodes: Seq<GraphNode>,
    edges: Seq<Edge>,
    rounds_left: int,
    config: RouterConfig,
) -> (Seq<GraphNode>, int)
    decreases rounds_left,
{
    if rounds_left <= 0 {
        (nodes, 0)
    } else {
        let r = relax_round(nodes, edges, config);
        if !r.1 {
            (r.0, 1)
        } else {
            let rest = run_rounds(r.0, edges, rounds_left - 1, config);
            (rest.0, 1 + rest.1)
        }
    }
}

/// The freshly seeded node states of a search: every token unreached,
/// except the first token at the source address, which starts at distance
/// zero with the requested amount.
pub open spec fn initial_search_nodes(
    tokens: Seq<Token>,
    src_addr: Seq<char>,
    amount: u64,
) -> Seq<GraphNode> {
    Seq::new(
        tokens.len(),
        |i: int|
            GraphNode {
                token: tokens[i],
                distance: if i == address_index(tokens, src_addr) {
                    Some(0 as i64)
                } else {
                    None
                },
                predecessor: None,
                best_amount: if i == address_index(tokens, src_addr) {
                    amount
                } else {
                    0
                },
                liquidity_used: 0,
            },
    )
}

/// The node states and round count the specified search produces: seed the
/// source, then run relaxation rounds up to the request's budget.
pub open spec fn search_nodes_spec(
    tokens: Seq<Token>,
    edges: Seq<Edge>,
    config: RouterConfig,
    request: RouteRequest,
) -> (Seq<GraphNode>, int) {
    run_rounds(
        initial_search_nodes(
            tokens,
            tokens[symbol_index(tokens, request.input_token@)].address@,
            request.input_amount,
        ),
        edges,
        request.max_iterations as int,
        config,
    )
}

/// Node position reached after `k` predecessor steps back from `idx`;
/// `-1` once a step has no predecessor node to go to.
pub open spec fn chain_idx(nodes: Seq<GraphNode>, idx: int, k: int) -> int
    decreases k,
{
    if k <= 0 {
        idx
    } else {
        let p = chain_idx(nodes, idx, k - 1);
        if p < 0 || p >= nodes.len() {
            -1
        } else if nodes[p].predecessor is None {
            -1
        } else {
            node_index(nodes, nodes[p].predecessor->Some_0@)
        }
    }
}

/// The walk from `idx` reaches a predecessor-less node after exactly `k`
/// steps.
pub open spec fn chain_ends_at(nodes: Seq<GraphNode>, idx: int, k: int) -> bool {
    let p = chain_idx(nodes, idx, k);
    &&& 0 <= p < nodes.len()
    &&& nodes[p].predecessor is None
}

/// Length of the predecessor chain from `idx`: the number of steps to its
/// predecessor-less end, or `-1` when no end lies within `fuel` steps.
pub open spec fn chain_len(nodes: Seq<GraphNode>, idx: int, fuel: int) -> int {
    if exists|k: int| 0 <= k <= fuel && chain_ends_at(nodes, idx, k) {
        choose|k: int| 0 <= k <= fuel && chain_ends_at(nodes, idx, k)
    } else {
        -1
    }
}

/// Once the walk dies it stays dead.
pub proof fn lemma_chain_dead(nodes: Seq<GraphNode>, idx: int, a: int, b: int)
    requires
        0 <= a <= b,
        chain_idx(nodes, idx, a) == -1,
    ensures
        chain_idx(nodes, idx, b) == -1,
    decreases b - a,
{
    if a < b {
        lemma_chain_dead(nodes, idx, a, b - 1);
    }
}

/// The walk ends at exactly one step count, so that count is what
/// `chain_len` returns.
pub proof fn lemma_chain_len_is(nodes: Seq<GraphNode>, idx: int, fuel: int, k: int)
    requires
        0 <= k <= fuel,
        chain_ends_at(nodes, idx, k),
    ensures
        chain_len(nodes, idx, fuel) == k,
{
    let c = choose|j: int| 0 <= j <= fuel && chain_ends_at(nodes, idx, j);
    assert(0 <= c <= fuel && chain_ends_at(nodes, idx, c));
    if c != k {
        let lo = if c < k {
            c
        } else {
            k
        };
        let hi = if c < k {
            k
        } else {
            c
        };
        assert(chain_idx(nodes, idx, lo + 1) == -1);
        lemma_chain_dead(nodes, idx, lo + 1, hi);
        assert(!chain_ends_at(nodes, idx, hi));
        assert(false);
    }
}

/// The hop the reconstruction builds `b` backward steps from the target:
/// amounts from the node snapshot, tokens, venue and impact from the first
/// edge joining the pair.
pub open spec fn spec_segment_at(
    nodes: Seq<GraphNode>,
    edges: Seq<Edge>,
    ti: int,
    b: int,
) -> PathSegment {
    let cur = chain_idx(nodes, ti, b);
    let pre = chain_idx(nodes, ti, b + 1);
    let e = edges[edge_index(edges, nodes[pre].token.address@, nodes[cur].token.address@)];
    PathSegment {
        from_token: e.from_token,
        to_token: e.to_token,
        dex_platform: e.dex_platform,
        input_amount: nodes[pre].best_amount,
        output_amount: nodes[cur].best_amount,
        exchange_rate: fp_div_spec(
            nodes[cur].best_amount as int,
            nodes[pre].best_amount as int,
        ) as u64,
        price_impact: price_impact_spec(
            nodes[pre].best_amount as int,
            e.liquidity as int,
        ) as u64,
    }
}

/// Whether the specified search delivers a route: the target is reached
/// and its predecessor chain runs back to the source within the node
/// count.
pub open spec fn spec_engine_finds(
    tokens: Seq<Token>,
    edges: Seq<Edge>,
    config: RouterConfig,
    request: RouteRequest,
) -> bool {
    let fin = search_nodes_spec(tokens, edges, config, request);
    let ti = node_index(fin.0, tokens[symbol_index(tokens, request.output_token@)].address@);
    &&& ti >= 0
    &&& fin.0[ti].distance is Some
    &&& chain_len(fin.0, ti, fin.0.len() as int) >= 1
}

/// What a successful extraction returns, pinned hop by hop: segment `j`
/// is the hop `chain length - 1 - j` backward steps from the target, so
/// the whole route value is a function of the node snapshot and the edge
/// list.
pub open spec fn extracted_route_ok(
    route: Route,
    nodes: Seq<GraphNode>,
    edges: Seq<Edge>,
    config: RouterConfig,
    request: RouteRequest,
    ti: int,
) -> bool {
    let hops = chain_len(nodes, ti, nodes.len() as int);
    &&& wf_route(route, edges, config)
    &&& route.total_input_amount == request.input_amount
    &&& route.split_ratio is None
    &&& route.segments@.len() == hops
    &&& route.total_output_amount == nodes[ti].best_amount
    &&& forall|j: int|
        0 <= j < route.segments@.len() ==> #[trigger] route.segments@[j] == spec_segment_at(
            nodes,
            edges,
            ti,
            hops - 1 - j,
        )
}

/// Per-node search invariant: a node with a predecessor is reached with a
/// positive amount through an edge the graph holds, from a node that is
/// itself reached; a reached node without a predecessor is the source —
/// it sits at the source address and carries the requested amount.
pub open spec fn node_ok(
    nodes: Seq<GraphNode>,
    edges: Seq<Edge>,
    amount: int,
    src_addr: Seq<char>,
    i: int,
) -> bool {
    let n = nodes[i];
    &&& (n.predecessor is Some ==> {
        let pa = n.predecessor->Some_0@;
        &&& n.distance is Some
        &&& n.best_amount > 0
        &&& exists|k: int|
            0 <= k < edges.len() && (#[trigger] edges[k]).from_token.address@ == pa
                && edges[k].to_token.address@ == n.token.address@
        &&& node_index(nodes, pa) >= 0
        &&& nodes[node_index(nodes, pa)].distance is Some
    })
    &&& (n.distance is Some && n.predecessor is None ==> n.best_amount == amount
        && n.token.address@ == src_addr)
}

/// The search invariant, over every node.
pub open spec fn nodes_ok(
    nodes: Seq<GraphNode>,
    edges: Seq<Edge>,
    amount: int,
    src_addr: Seq<char>,
) -> bool {
    forall|i: int| 0 <= i < nodes.len() ==> #[trigger] node_ok(nodes, edges, amount, src_addr, i)
}

/// Address of the first token carrying the requested input symbol: the
/// node every search starts from.
pub open spec fn source_address(tokens: Seq<Token>, request: RouteRequest) -> Seq<char> {
    tokens[symbol_index(tokens, request.input_token@)].address@
}

/// An accepted relaxation of an edge the graph holds preserves the search
/// invariant.
pub proof fn lemma_relax_preserves_nodes_ok(
    nodes: Seq<GraphNode>,
    edges: Seq<Edge>,
    amount: int,
    src_addr: Seq<char>,
    edge: Edge,
    config: RouterConfig,
)
    requires
        nodes_ok(nodes, edges, amount, src_addr),
        relax_applies(nodes, edge, config),
        exists|k: int| 0 <= k < edges.len() && edges[k] == edge,
    ensures
        nodes_ok(
            nodes.update(node_index(nodes, edge.to_token.address@), relaxed_node(nodes, edge)),
            edges,
            amount,
            src_addr,
        ),
{
    let fi = node_index(nodes, edge.from_token.address@);
    let ti = node_index(nodes, edge.to_token.address@);
    let updated = nodes.update(ti, relaxed_node(nodes, edge));
    assert(is_first_node_at(nodes, edge.to_token.address@, ti)) by {
        assert(exists|i: int| is_first_node_at(nodes, edge.to_token.address@, i));
    }
    assert(is_first_node_at(nodes, edge.from_token.address@, fi)) by {
        assert(exists|i: int| is_first_node_at(nodes, edge.from_token.address@, i));
    }
    assert(forall|j: int|
        0 <= j < nodes.len() ==> updated[j].token.address@ == nodes[j].token.address@);
    assert forall|i: int| 0 <= i < updated.len() implies node_ok(
        updated,
        edges,
        amount,
        src_addr,
        i,
    ) by {
        assert(node_ok(nodes, edges, amount, src_addr, i));
        if i == ti {
            let n = updated[i];
            let pa = edge.from_token.address@;
            lemma_node_index_same_tokens(updated, nodes, pa);
            let k = choose|k: int| 0 <= k < edges.len() && edges[k] == edge;
            assert(edges[k].from_token.address@ == pa && edges[k].to_token.address@
                == n.token.address@);
            if fi == ti {
                assert(updated[fi].distance is Some);
            } else {
                assert(updated[fi].distance is Some);
            }
        } else {
            let n = updated[i];
            if n.predecessor is Some {
                let pa = n.predecessor->Some_0@;
                lemma_node_index_same_tokens(updated, nodes, pa);
                let pi = node_index(nodes, pa);
                if pi == ti {
                    assert(updated[pi].distance is Some);
                } else {
                    assert(updated[pi].distance is Some);
                }
            }
        }
    }
}

impl RoutingGraph {
    /// One relaxation attempt across `edge`. When the relaxation is
    /// accepted, the destination node's distance strictly decreases, its
    /// deliverable amount becomes positive and stays within the edge's
    /// liquidity ceiling, and the round is marked improved; otherwise
    /// nothing changes.
    pub fn relax_edge(&self, state: &mut IterationState, edge: &Edge)
        ensures
            final(state).iteration == old(state).iteration,
            final(state).best_route == old(state).best_route,
            final(state).nodes@.len() == old(state).nodes@.len(),
            relax_applies(old(state).nodes@, *edge, self.config) ==> {
                let nodes0 = old(state).nodes@;
                let ti = node_index(nodes0, edge.to_token.address@);
                &&& final(state).nodes@ == nodes0.update(ti, relaxed_node(nodes0, *edge))
                &&& final(state).improved == true
                &&& final(state).nodes@[ti].distance is Some
                &&& (nodes0[ti].distance is Some ==> final(state).nodes@[ti].distance->Some_0
                    < nodes0[ti].distance->Some_0)
                &&& final(state).nodes@[ti].best_amount > 0
                &&& final(state).nodes@[ti].best_amount <= edge.liquidity
            },
            !relax_applies(old(state).nodes@, *edge, self.config) ==> {
                &&& final(state).nodes@ == old(state).nodes@
                &&& final(state).improved == old(state).improved
            },
    {
        let fi = match find_node_index(&state.nodes, &edge.from_token.address) {
            Some(i) => i,
            None => {
                return ;
            },
        };
        let fd: i64;
        let fbest: u64;
        match state.nodes[fi].distance {
            Some(d) => {
                fd = d;
                fbest = state.nodes[fi].best_amount;
            },
            None => {
                return ;
            },
        }
        let new_distance = match fd.checked_add(edge.weight) {
            Some(d) => d,
            None => {
                return ;
            },
        };
        let potential = fp_mul(fbest, edge.exchange_rate);
        let headroom = if edge.max_trade_size <= edge.liquidity {
            edge.max_trade_size
        } else {
            edge.liquidity
        };
        let available = edge.liquidity - headroom;
        let constrained = if potential <= available {
            potential
        } else {
            available
        };
        let ti = match find_node_index(&state.nodes, &edge.to_token.address) {
            Some(i) => i,
            None => {
                return ;
            },
        };
        let better = match state.nodes[ti].distance {
            None => true,
            Some(td) => new_distance < td,
        };
        if better && constrained > 0 {
            if constrained >= edge.min_trade_size && self.calculate_price_impact(edge, constrained)
                <= self.config.max_price_impact {
                let tok = state.nodes[ti].token.duplicate();
                let updated = GraphNode {
                    token: tok,
                    distance: Some(new_distance),
                    predecessor: Some(edge.from_token.address.clone()),
                    best_amount: constrained,
                    liquidity_used: constrained,
                };
                proof {
                    assert(updated == relaxed_node(old(state).nodes@, *edge));
                }
                state.nodes.set(ti, updated);
                state.improved = true;
            }
        }
    }
}

/// Per-hop amount soundness: positive amounts, with the realized rate
/// being output over input.
pub open spec fn segment_amounts_ok(seg: PathSegment) -> bool {
    &&& seg.input_amount > 0
    &&& seg.output_amount > 0
    &&& seg.exchange_rate == fp_div_spec(seg.output_amount as int, seg.input_amount as int)
}

/// The hop's tokens, venue and impact come from an edge the graph holds.
pub open spec fn segment_from_graph(seg: PathSegment, edges: Seq<Edge>) -> bool {
    exists|k: int|
        0 <= k < edges.len() && (#[trigger] edges[k]).from_token == seg.from_token
            && edges[k].to_token == seg.to_token && edges[k].dex_platform == seg.dex_platform
            && seg.price_impact == price_impact_spec(
            seg.input_amount as int,
            edges[k].liquidity as int,
        )
}

/// One reconstructed hop is sound: positive amounts, the realized rate is
/// output over input, and the hop's tokens, venue and impact come from an
/// edge the graph holds.
pub open spec fn segment_ok(seg: PathSegment, edges: Seq<Edge>) -> bool {
    &&& segment_amounts_ok(seg)
    &&& segment_from_graph(seg, edges)
}

/// Hop-to-hop amount conservation: each hop's output is the next hop's
/// input.
pub open spec fn route_conserves(segs: Seq<PathSegment>) -> bool {
    forall|i: int|
        0 <= i && i + 1 < segs.len() ==> (#[trigger] segs[i]).output_amount == segs[i
            + 1].input_amount
}

/// Hop-to-hop token linkage: each hop ends at the token the next hop
/// starts from.
pub open spec fn route_links(segs: Seq<PathSegment>) -> bool {
    forall|i: int|
        0 <= i && i + 1 < segs.len() ==> (#[trigger] segs[i]).to_token.address@ == segs[i
            + 1].from_token.address@
}

/// A route's graph-independent soundness: non-empty, amount-conserving
/// and linked, with aggregate economics derived from the segments — the
/// effective rate is total output over total input, the price impact is
/// the saturating sum of the hops' impacts, and the gas estimate follows
/// the per-hop model.
pub open spec fn route_economics_ok(route: Route, config: RouterConfig) -> bool {
    &&& route.segments@.len() >= 1
    &&& route.total_input_amount > 0
    &&& route.total_output_amount > 0
    &&& route_conserves(route.segments@)
    &&& route_links(route.segments@)
    &&& route.segments@[0].input_amount == route.total_input_amount
    &&& route.total_output_amount == route.segments@[route.segments@.len() - 1].output_amount
    &&& route.effective_rate == fp_div_spec(
        route.total_output_amount as int,
        route.total_input_amount as int,
    )
    &&& route.price_impact == sat_sum(
        route.segments@.map_values(|s: PathSegment| s.price_impact),
    )
    &&& route.gas_estimate == gas_cost_spec(route.segments@.len() as int, config)
    &&& forall|i: int|
        0 <= i < route.segments@.len() ==> segment_amounts_ok(#[trigger] route.segments@[i])
}

/// A sound reconstructed route: economically sound, and every hop comes
/// from an edge the graph holds.
pub open spec fn wf_route(route: Route, edges: Seq<Edge>, config: RouterConfig) -> bool {
    &&& route_economics_ok(route, config)
    &&& forall|i: int|
        0 <= i < route.segments@.len() ==> segment_from_graph(#[trigger] route.segments@[i], edges)
}

impl RoutingGraph {
    /// Reconstruct the best route to the requested output token from a
    /// relaxed node-state snapshot, walking predecessor links backwards.
    /// Hop amounts come from the snapshot; each hop's venue is taken from
    /// the first edge joining its pair, so with parallel venue edges the
    /// label may name a sibling of the edge the relaxation used.
    /// An unreached target — or a predecessor chain longer than the node
    /// count, which only a relaxation anomaly can produce — yields the
    /// legitimate "no route" result, never an error; the only error is an
    /// unknown output symbol.
    #[verifier::loop_isolation(false)]
    #[verifier::rlimit(100)]
    #[verifier::spinoff_prover]
    pub fn extract_route(&self, state: &IterationState, request: &RouteRequest) -> (r: Result<
        Option<Route>,
        RouterError,
    >)
        requires
            request.input_amount > 0,
            spec_has_symbol(self.tokens@, request.input_token@),
            nodes_ok(
                state.nodes@,
                self.edges@,
                request.input_amount as int,
                source_address(self.tokens@, *request),
            ),
        ensures
            r is Err <==> !spec_has_symbol(self.tokens@, request.output_token@),
            r is Err ==> r == Err::<Option<Route>, RouterError>(RouterError::TokenNotFound),
            r matches Ok(route_opt) ==> ({
                let ti = node_index(
                    state.nodes@,
                    self.tokens@[symbol_index(self.tokens@, request.output_token@)].address@,
                );
                &&& (route_opt is Some <==> ti >= 0 && state.nodes@[ti].distance is Some
                    && chain_len(state.nodes@, ti, state.nodes@.len() as int) >= 1)
                &&& (route_opt matches Some(route) ==> extracted_route_ok(
                    route,
                    state.nodes@,
                    self.edges@,
                    self.config,
                    *request,
                    ti,
                ) && route.segments@[0].from_token.address@ == source_address(
                    self.tokens@,
                    *request,
                ) && route.segments@[route.segments@.len() - 1].to_token.address@
                    == self.tokens@[symbol_index(self.tokens@, request.output_token@)].address@)
            }),
    {
        let output_addr = match self.get_token_address(&request.output_token) {
            Ok(a) => a,
            Err(e) => {
                return Err(e);
            },
        };
        let oi = match find_node_index(&state.nodes, &output_addr) {
            Some(i) => i,
            None => {
                return Ok(None);
            },
        };
        match state.nodes[oi].distance {
            None => {
                return Ok(None);
            },
            Some(_) => {},
        }
        let ghost out_addr: Seq<char> = output_addr@;
        let ghost target_best: u64 = state.nodes@[oi as int].best_amount;
        let mut segments: Vec<PathSegment> = Vec::new();
        let mut current_addr: String = output_addr;
        let mut current_idx: usize = oi;
        let mut current_amount: u64 = state.nodes[oi].best_amount;
        let mut steps: usize = 0;
        let limit = state.nodes.len();
        while state.nodes[current_idx].predecessor.is_some()
            invariant
                limit == state.nodes@.len(),
                steps == segments@.len(),
                steps <= limit,
                current_idx < state.nodes@.len(),
                is_first_node_at(state.nodes@, current_addr@, current_idx as int),
                current_amount == state.nodes@[current_idx as int].best_amount,
                state.nodes@[current_idx as int].distance is Some,
                nodes_ok(
                    state.nodes@,
                    self.edges@,
                    request.input_amount as int,
                    source_address(self.tokens@, *request),
                ),
                segments@.len() == 0 ==> current_addr@ == out_addr && current_amount
                    == target_best,
                segments@.len() > 0 ==> segments@[segments@.len() - 1].from_token.address@
                    == current_addr@ && segments@[segments@.len() - 1].input_amount
                    == current_amount,
                segments@.len() > 0 ==> segments@[0].output_amount == target_best
                    && segments@[0].to_token.address@ == out_addr,
                forall|j: int|
                    0 <= j < segments@.len() ==> segment_ok(
                        #[trigger] segments@[j],
                        self.edges@,
                    ),
                forall|j: int|
                    0 <= j && j + 1 < segments@.len() ==> (#[trigger] segments@[j]).input_amount
                        == segments@[j + 1].output_amount && segments@[j].from_token.address@
                        == segments@[j + 1].to_token.address@,
                current_idx as int == chain_idx(state.nodes@, oi as int, steps as int),
                forall|s: int|
                    0 <= s < steps ==> #[trigger] chain_idx(state.nodes@, oi as int, s) >= 0
                        && state.nodes@[chain_idx(state.nodes@, oi as int, s)].predecessor
                        is Some,
                forall|j: int|
                    0 <= j < segments@.len() ==> #[trigger] segments@[j] == spec_segment_at(
                        state.nodes@,
                        self.edges@,
                        oi as int,
                        j,
                    ),
            decreases limit - steps,
        {
            proof {
                assert(node_ok(
                    state.nodes@,
                    self.edges@,
                    request.input_amount as int,
                    source_address(self.tokens@, *request),
                    current_idx as int,
                ));
            }
            let pred_opt = &state.nodes[current_idx].predecessor;
            match pred_opt {
                None => {
                    proof {
                        assert(false);
                    }
                    return Ok(None);
                },
                Some(pa) => {
                    if steps >= limit {
                        proof {
                            let nodes = state.nodes@;
                            let fuel = nodes.len() as int;
                            assert forall|k: int|
                                0 <= k <= fuel implies !chain_ends_at(
                                nodes,
                                oi as int,
                                k,
                            ) by {
                                if k < fuel {
                                    assert(chain_idx(nodes, oi as int, k) >= 0);
                                } else {
                                    assert(chain_idx(nodes, oi as int, k) == current_idx as int);
                                }
                            }
                            assert(!(exists|k: int|
                                0 <= k <= fuel && chain_ends_at(nodes, oi as int, k))) by {
                                if exists|k: int|
                                    0 <= k <= fuel && chain_ends_at(nodes, oi as int, k) {
                                    let k = choose|k: int|
                                        0 <= k <= fuel && chain_ends_at(nodes, oi as int, k);
                                    assert(!chain_ends_at(nodes, oi as int, k));
                                }
                            }
                        }
                        return Ok(None);
                    }
                    let pi = match find_node_index(&state.nodes, pa) {
                        Some(i) => i,
                        None => {
                            proof {
                                assert(false);
                            }
                            return Ok(None);
                        },
                    };
                    let edge = match self.find_edge(pa, &current_addr) {
                        Ok(e) => e,
                        Err(_) => {
                            proof {
                                assert(false);
                            }
                            return Err(RouterError::EdgeNotFound);
                        },
                    };
                    proof {
                        assert(node_ok(
                            state.nodes@,
                            self.edges@,
                            request.input_amount as int,
                            source_address(self.tokens@, *request),
                            pi as int,
                        ));
                    }
                    let pred_best = state.nodes[pi].best_amount;
                    let seg = PathSegment {
                        from_token: edge.from_token.duplicate(),
                        to_token: edge.to_token.duplicate(),
                        dex_platform: edge.dex_platform.duplicate(),
                        input_amount: pred_best,
                        output_amount: current_amount,
                        exchange_rate: fp_div(current_amount, pred_best),
                        price_impact: self.calculate_price_impact(edge, pred_best),
                    };
                    proof {
                        let b = steps as int;
                        assert(chain_idx(state.nodes@, oi as int, b) == current_idx as int);
                        assert(chain_idx(state.nodes@, oi as int, b + 1) == pi as int);
                        assert(state.nodes@[pi as int].token.address@ == pa@);
                        assert(state.nodes@[current_idx as int].token.address@ == current_addr@);
                        assert(seg == spec_segment_at(state.nodes@, self.edges@, oi as int, b));
                    }
                    segments.push(seg);
                    current_addr = pa.clone();
                    current_idx = pi;
                    current_amount = pred_best;
                    steps += 1;
                },
            }
        }
        proof {
            assert(node_ok(
                state.nodes@,
                self.edges@,
                request.input_amount as int,
                source_address(self.tokens@, *request),
                current_idx as int,
            ));
        }
        proof {
            assert(chain_ends_at(state.nodes@, oi as int, steps as int));
            lemma_chain_len_is(
                state.nodes@,
                oi as int,
                state.nodes@.len() as int,
                steps as int,
            );
        }
        if segments.len() == 0 {
            return Ok(None);
        }
        // The walk listed the hops target-first; restore execution order.
        let ghost segs0 = segments@;
        let mut ordered: Vec<PathSegment> = Vec::new();
        while segments.len() > 0
            invariant
                ordered@.len() + segments@.len() == segs0.len(),
                segments@ == segs0.take(segments@.len() as int),
                forall|j: int|
                    0 <= j < ordered@.len() ==> #[trigger] ordered@[j] == segs0[segs0.len() - 1
                        - j],
            decreases segments@.len(),
        {
            let seg = match segments.pop() {
                Some(s) => s,
                None => {
                    proof {
                        assert(false);
                    }
                    return Ok(None);
                },
            };
            ordered.push(seg);
        }
        let hops = ordered.len();
        let total_input = request.input_amount;
        let total_output = ordered[hops - 1].output_amount;
        let effective_rate = fp_div(total_output, total_input);
        let mut total_impact: u64 = 0;
        let mut i: usize = 0;
        while i < hops
            invariant
                hops == ordered@.len(),
                i <= hops,
                total_impact == sat_sum(
                    ordered@.take(i as int).map_values(|s: PathSegment| s.price_impact),
                ),
            decreases hops - i,
        {
            proof {
                let m1 = ordered@.take(i as int + 1).map_values(|s: PathSegment| s.price_impact);
                let m0 = ordered@.take(i as int).map_values(|s: PathSegment| s.price_impact);
                assert(m1.drop_last() =~= m0);
                assert(m1.last() == ordered@[i as int].price_impact);
            }
            total_impact = total_impact.saturating_add(ordered[i].price_impact);
            i += 1;
        }
        proof {
            assert(ordered@.take(hops as int) =~= ordered@);
            assert forall|j: int|
                0 <= j < ordered@.len() implies #[trigger] ordered@[j] == spec_segment_at(
                state.nodes@,
                self.edges@,
                oi as int,
                hops as int - 1 - j,
            ) by {
                assert(ordered@[j] == segs0[hops as int - 1 - j]);
            }
        }
        let gas_estimate = self.estimate_gas_cost(&ordered);
        let route = Route {
            segments: ordered,
            total_input_amount: total_input,
            total_output_amount: total_output,
            effective_rate,
            price_impact: total_impact,
            gas_estimate,
            split_ratio: None,
        };
        Ok(Some(route))
    }

    /// Run the full constrained relaxation for `request` and reconstruct
    /// the best route, also reporting how many rounds were run. An error is
    /// returned exactly when one of the requested symbols is not in the
    /// graph; an unreachable target is the legitimate `None` result.
    #[verifier::loop_isolation(false)]
    pub fn search_route(&self, request: &RouteRequest) -> (r: Result<
        (Option<Route>, usize),
        RouterError,
    >)
        requires
            request.input_amount > 0,
        ensures
            r is Err <==> !(spec_has_symbol(self.tokens@, request.input_token@)
                && spec_has_symbol(self.tokens@, request.output_token@)),
            r is Err ==> r == Err::<(Option<Route>, usize), RouterError>(
                RouterError::TokenNotFound,
            ),
            r matches Ok(p) ==> p.1 <= request.max_iterations,
            r matches Ok(p) ==> ({
                let fin = search_nodes_spec(self.tokens@, self.edges@, self.config, *request);
                let ti = node_index(
                    fin.0,
                    self.tokens@[symbol_index(self.tokens@, request.output_token@)].address@,
                );
                &&& p.1 as int == fin.1
                &&& (p.0 is Some <==> spec_engine_finds(
                    self.tokens@,
                    self.edges@,
                    self.config,
                    *request,
                ))
                &&& (p.0 matches Some(route) ==> extracted_route_ok(
                    route,
                    fin.0,
                    self.edges@,
                    self.config,
                    *request,
                    ti,
                ) && route.segments@[0].from_token.address@ == source_address(
                    self.tokens@,
                    *request,
                ))
            }),
            r matches Ok(p) ==> (p.0 matches Some(route) ==> wf_route(
                route,
                self.edges@,
                self.config,
            ) && route.total_input_amount == request.input_amount && route.split_ratio is None),
    {
        let mut nodes = self.initialize_nodes();
        let start_addr = match self.get_token_address(&request.input_token) {
            Ok(a) => a,
            Err(e) => {
                return Err(e);
            },
        };
        let ghost nodes0 = nodes@;
        match find_node_index(&nodes, &start_addr) {
            Some(si) => {
                let tok = nodes[si].token.duplicate();
                nodes.set(
                    si,
                    GraphNode {
                        token: tok,
                        distance: Some(0),
                        predecessor: None,
                        best_amount: request.input_amount,
                        liquidity_used: 0,
                    },
                );
                proof {
                    let tokens = self.tokens@;
                    let src = source_address(tokens, *request);
                    assert(start_addr@ == src);
                    assert(is_first_address_at(tokens, src, si as int)) by {
                        assert(is_first_node_at(nodes0, src, si as int));
                        assert(nodes0[si as int].token == tokens[si as int]);
                        assert forall|j: int| 0 <= j < si as int implies tokens[j].address@
                            != src by {
                            assert(nodes0[j].token.address@ != src);
                            assert(nodes0[j].token == tokens[j]);
                        }
                    }
                    lemma_address_index_is(tokens, src, si as int);
                    assert(nodes@ =~= initial_search_nodes(tokens, src, request.input_amount));
                }
            },
            None => {
                proof {
                    let k = symbol_index(self.tokens@, request.input_token@);
                    assert(nodes@[k] == (GraphNode {
                        token: self.tokens@[k],
                        distance: None,
                        predecessor: None,
                        best_amount: 0,
                        liquidity_used: 0,
                    }));
                    assert(nodes@[k].token.address@ == start_addr@);
                    assert(false);
                }
                return Err(RouterError::TokenNotFound);
            },
        }
        let ghost fin = search_nodes_spec(self.tokens@, self.edges@, self.config, *request);
        let mut state = IterationState { nodes, improved: true, iteration: 0, best_route: None };
        while state.improved && state.iteration < request.max_iterations
            invariant
                state.nodes@.len() == self.tokens@.len(),
                state.iteration <= request.max_iterations,
                nodes_ok(
                    state.nodes@,
                    self.edges@,
                    request.input_amount as int,
                    source_address(self.tokens@, *request),
                ),
                state.improved ==> run_rounds(
                    state.nodes@,
                    self.edges@,
                    request.max_iterations as int - state.iteration as int,
                    self.config,
                ) == (fin.0, fin.1 - state.iteration as int),
                !state.improved ==> state.nodes@ == fin.0 && state.iteration as int == fin.1,
            decreases request.max_iterations - state.iteration,
        {
            let ghost nodes_entry = state.nodes@;
            let ghost it_entry = state.iteration;
            state.improved = false;
            state.iteration = state.iteration + 1;
            let ghost round = state.iteration;
            let ne = self.edges.len();
            let mut e: usize = 0;
            while e < ne
                invariant
                    e <= ne,
                    state.nodes@.len() == self.tokens@.len(),
                    state.iteration == round,
                    nodes_ok(
                        state.nodes@,
                        self.edges@,
                        request.input_amount as int,
                        source_address(self.tokens@, *request),
                    ),
                    (state.nodes@, state.improved) == round_prefix(
                        nodes_entry,
                        false,
                        self.edges@,
                        e as int,
                        self.config,
                    ),
                decreases ne - e,
            {
                let ghost pre = state.nodes@;
                let ghost imp_pre = state.improved;
                let edge = &self.edges[e];
                self.relax_edge(&mut state, edge);
                proof {
                    if relax_applies(pre, self.edges@[e as int], self.config) {
                        lemma_relax_preserves_nodes_ok(
                            pre,
                            self.edges@,
                            request.input_amount as int,
                            source_address(self.tokens@, *request),
                            self.edges@[e as int],
                            self.config,
                        );
                    }
                    assert(round_prefix(nodes_entry, false, self.edges@, e as int + 1, self.config)
                        == (
                    relax_step(pre, self.edges@[e as int], self.config),
                    imp_pre || relax_applies(pre, self.edges@[e as int], self.config),
                    ));
                }
                e += 1;
            }
            proof {
                let budget = request.max_iterations as int - it_entry as int;
                let r = relax_round(nodes_entry, self.edges@, self.config);
                assert((state.nodes@, state.improved) == r);
                if !state.improved {
                    assert(run_rounds(nodes_entry, self.edges@, budget, self.config) == (
                    r.0,
                    1int,
                    ));
                } else {
                    let rest = run_rounds(r.0, self.edges@, budget - 1, self.config);
                    assert(run_rounds(nodes_entry, self.edges@, budget, self.config) == (
                    rest.0,
                    1 + rest.1,
                    ));
                }
            }
        }
        proof {
            if state.improved {
                assert(state.iteration == request.max_iterations);
                assert(run_rounds(state.nodes@, self.edges@, 0, self.config) == (
                state.nodes@,
                0int,
                ));
            }
            assert(state.nodes@ == fin.0);
            assert(state.iteration as int == fin.1);
        }
        let route = match self.extract_route(&state, request) {
            Ok(r) => r,
            Err(e) => {
                return Err(e);
            },
        };
        Ok((route, state.iteration))
    }

    /// Find the best single route for `request`. An error is returned
    /// exactly when one of the requested symbols is not in the graph; an
    /// unreachable target is the legitimate `None` result.
    pub fn find_optimal_route(&self, request: &RouteRequest) -> (r: Result<
        Option<Route>,
        RouterError,
    >)
        requires
            request.input_amount > 0,
        ensures
            r is Err <==> !(spec_has_symbol(self.tokens@, request.input_token@)
                && spec_has_symbol(self.tokens@, request.output_token@)),
            r is Err ==> r == Err::<Option<Route>, RouterError>(RouterError::TokenNotFound),
            r matches Ok(route_opt) ==> (route_opt is Some <==> spec_engine_finds(
                self.tokens@,
                self.edges@,
                self.config,
                *request,
            )),
            r matches Ok(route_opt) ==> (route_opt matches Some(route) ==> ({
                let fin = search_nodes_spec(self.tokens@, self.edges@, self.config, *request);
                extracted_route_ok(
                    route,
                    fin.0,
                    self.edges@,
                    self.config,
                    *request,
                    node_index(
                        fin.0,
                        self.tokens@[symbol_index(self.tokens@, request.output_token@)].address@,
                    ),
                ) && route.segments@[0].from_token.address@ == source_address(
                    self.tokens@,
                    *request,
                )
            })),
            r matches Ok(route_opt) ==> (route_opt matches Some(route) ==> wf_route(
                route,
                self.edges@,
                self.config,
            ) && route.total_input_amount == request.input_amount && route.split_ratio is None),
    {
        match self.search_route(request) {
            Ok((route, _)) => Ok(route),
            Err(e) => Err(e),
        }
    }
}

/// Fraction of the requested amount tried for split number `idx`: a fixed
/// decreasing schedule of 60%, 30%, then 10% for every further split.
pub open spec fn split_ratio_spec(idx: int) -> int {
    if idx == 0 {
        SPLIT_RATIO_FIRST as int
    } else if idx == 1 {
        SPLIT_RATIO_SECOND as int
    } else {
        SPLIT_RATIO_REST as int
    }
}

impl RoutingGraph {
    /// Search a multi-path plan: route shrinking fractions of the request
    /// independently and aggregate whatever succeeded. The plan's input and
    /// output are the saturating sums of its routes' inputs and outputs,
    /// its rate is total output over total input, and each member route is
    /// a sound single route of at least the minimum split size. Splits do
    /// not see each other's liquidity consumption: every sub-search starts
    /// from a fresh node-state snapshot.
    #[verifier::loop_isolation(false)]
    #[verifier::rlimit(60)]
    pub fn find_split_routes(&self, request: &RouteRequest) -> (r: Result<
        Option<SplitRoute>,
        RouterError,
    >)
        requires
            request.input_amount > 0,
        ensures
            !request.enable_split_routes ==> r == Ok::<Option<SplitRoute>, RouterError>(None),
            r is Err <==> request.enable_split_routes && (match request.max_splits {
                Some(m) => m > 0,
                None => true,
            }) && fp_mul_spec(request.input_amount as int, SPLIT_RATIO_FIRST as int)
                >= MIN_SPLIT_AMOUNT as int && !(spec_has_symbol(
                self.tokens@,
                request.input_token@,
            ) && spec_has_symbol(self.tokens@, request.output_token@)),
            r is Err ==> r == Err::<Option<SplitRoute>, RouterError>(RouterError::TokenNotFound),
            r matches Ok(opt) ==> (opt matches Some(plan) ==> {
                &&& plan.routes@.len() >= 1
                &&& plan.total_input_amount == sat_sum(
                    plan.routes@.map_values(|rt: Route| rt.total_input_amount),
                )
                &&& plan.total_output_amount == sat_sum(
                    plan.routes@.map_values(|rt: Route| rt.total_output_amount),
                )
                &&& plan.total_input_amount > 0
                &&& plan.effective_rate == fp_div_spec(
                    plan.total_output_amount as int,
                    plan.total_input_amount as int,
                )
                &&& plan.price_impact == sat_sum(
                    plan.routes@.map_values(|rt: Route| rt.price_impact),
                )
                &&& plan.gas_estimate == sat_sum(
                    plan.routes@.map_values(|rt: Route| rt.gas_estimate),
                )
                &&& plan.total_input_amount <= request.input_amount
                &&& plan.routes@.len() as int <= (match request.max_splits {
                    Some(m) => m as int,
                    None => 3int,
                })
                &&& forall|i: int|
                    0 <= i < plan.routes@.len() ==> route_economics_ok(
                        #[trigger] plan.routes@[i],
                        self.config,
                    ) && plan.routes@[i].total_input_amount >= MIN_SPLIT_AMOUNT
                        && plan.routes@[i].total_input_amount as int <= fp_mul_spec(
                        request.input_amount as int,
                        SPLIT_RATIO_FIRST as int,
                    )
                &&& !self.config.split_liquidity_depletion ==> forall|i: int|
                    0 <= i < plan.routes@.len() ==> wf_route(
                        #[trigger] plan.routes@[i],
                        self.edges@,
                        self.config,
                    )
            }),
            (request.enable_split_routes && (match request.max_splits {
                Some(m) => m > 0,
                None => true,
            }) && fp_mul_spec(request.input_amount as int, SPLIT_RATIO_FIRST as int)
                >= MIN_SPLIT_AMOUNT as int && spec_has_symbol(
                self.tokens@,
                request.input_token@,
            ) && spec_has_symbol(self.tokens@, request.output_token@) && spec_engine_finds(
                self.tokens@,
                self.edges@,
                self.config,
                RouteRequest {
                    input_amount: fp_mul_spec(
                        request.input_amount as int,
                        SPLIT_RATIO_FIRST as int,
                    ) as u64,
                    ..*request
                },
            )) ==> (r matches Ok(opt) ==> opt matches Some(plan)
                && plan.routes@[0].total_input_amount as int == fp_mul_spec(
                request.input_amount as int,
                SPLIT_RATIO_FIRST as int,
            )),
    {
        if !request.enable_split_routes {
            return Ok(None);
        }
        let deplete = self.config.split_liquidity_depletion;
        // In cumulative-depletion mode each sub-search runs over a scratch
        // copy of the graph whose edges lose the liquidity earlier splits
        // consumed; otherwise every sub-search sees the original graph.
        let mut working = RoutingGraph {
            tokens: duplicate_tokens(&self.tokens),
            edges: duplicate_edges(&self.edges),
            config: self.config,
        };
        let ghost first_request = RouteRequest {
            input_amount: fp_mul_spec(
                request.input_amount as int,
                SPLIT_RATIO_FIRST as int,
            ) as u64,
            ..*request
        };
        let ghost first_ok = (match request.max_splits {
            Some(m) => m > 0,
            None => true,
        }) && fp_mul_spec(request.input_amount as int, SPLIT_RATIO_FIRST as int)
            >= MIN_SPLIT_AMOUNT as int && spec_has_symbol(self.tokens@, request.input_token@)
            && spec_has_symbol(self.tokens@, request.output_token@) && spec_engine_finds(
            self.tokens@,
            self.edges@,
            self.config,
            first_request,
        );
        let mut split_routes: Vec<Route> = Vec::new();
        let mut remaining_amount = request.input_amount;
        let max_splits = match request.max_splits {
            Some(m) => m,
            None => 3,
        };
        let mut halted = false;
        let mut split_idx: usize = 0;
        while split_idx < max_splits && !halted && remaining_amount > 0
            invariant
                split_idx <= max_splits,
                split_idx == 0 ==> !halted && remaining_amount == request.input_amount,
                split_idx > 0 && !halted ==> fp_mul_spec(
                    request.input_amount as int,
                    SPLIT_RATIO_FIRST as int,
                ) >= MIN_SPLIT_AMOUNT as int,
                split_idx > 0 && fp_mul_spec(request.input_amount as int, SPLIT_RATIO_FIRST as int)
                    >= MIN_SPLIT_AMOUNT as int ==> spec_has_symbol(
                    self.tokens@,
                    request.input_token@,
                ) && spec_has_symbol(self.tokens@, request.output_token@),
                split_routes@.len() > 0 ==> split_idx > 0,
                split_routes@.len() <= split_idx,
                remaining_amount <= request.input_amount,
                sat_sum(split_routes@.map_values(|rt: Route| rt.total_input_amount))
                    == request.input_amount - remaining_amount,
                first_ok && split_idx > 0 ==> split_routes@.len() > 0
                    && split_routes@[0].total_input_amount as int == fp_mul_spec(
                    request.input_amount as int,
                    SPLIT_RATIO_FIRST as int,
                ),
                forall|i: int|
                    0 <= i < split_routes@.len() ==> (#[trigger] split_routes@[i]).total_input_amount as int
                        <= fp_mul_spec(request.input_amount as int, SPLIT_RATIO_FIRST as int),
                split_idx == 0 ==> working.edges@ == self.edges@,
                working.tokens@ == self.tokens@,
                working.config == self.config,
                forall|i: int|
                    0 <= i < split_routes@.len() ==> route_economics_ok(
                        #[trigger] split_routes@[i],
                        self.config,
                    ) && split_routes@[i].total_input_amount >= MIN_SPLIT_AMOUNT,
                !deplete ==> forall|i: int|
                    0 <= i < split_routes@.len() ==> wf_route(
                        #[trigger] split_routes@[i],
                        self.edges@,
                        self.config,
                    ),
            decreases max_splits - split_idx,
        {
            let split_ratio: u64 = if split_idx == 0 {
                SPLIT_RATIO_FIRST
            } else if split_idx == 1 {
                SPLIT_RATIO_SECOND
            } else {
                SPLIT_RATIO_REST
            };
            let scheduled = fp_mul(request.input_amount, split_ratio);
            // Spec: constituent inputs sum to at most the requested amount,
            // so a sub-trade never exceeds what is still unconsumed.
            let split_amount = if scheduled <= remaining_amount {
                scheduled
            } else {
                remaining_amount
            };
            if split_amount < MIN_SPLIT_AMOUNT {
                proof {
                    if split_idx == 0 && first_ok {
                        crate::fixed::lemma_fp_mul_le_one(
                            request.input_amount,
                            SPLIT_RATIO_FIRST,
                        );
                        assert(false);
                    }
                }
                halted = true;
            } else {
                let mut split_request = request.duplicate();
                split_request.input_amount = split_amount;
                let search_result = if deplete {
                    working.find_optimal_route(&split_request)
                } else {
                    self.find_optimal_route(&split_request)
                };
                match search_result {
                    Ok(Some(route)) => {
                        if deplete {
                            let hops = route.segments.len();
                            let mut seg_idx: usize = 0;
                            while seg_idx < hops
                                invariant
                                    hops == route.segments@.len(),
                                    seg_idx <= hops,
                                    working.tokens@ == self.tokens@,
                                    working.config == self.config,
                                decreases hops - seg_idx,
                            {
                                working.consume_edge_liquidity(
                                    &route.segments[seg_idx].from_token.address,
                                    &route.segments[seg_idx].to_token.address,
                                    route.segments[seg_idx].input_amount,
                                );
                                seg_idx += 1;
                            }
                        }
                        proof {
                            let f = |rt: Route| rt.total_input_amount;
                            assert(split_routes@.push(route).map_values(f).drop_last()
                                =~= split_routes@.map_values(f));
                            assert(split_routes@.push(route).map_values(f).last()
                                == route.total_input_amount);
                            crate::fixed::lemma_fp_mul_mono(
                                request.input_amount,
                                split_ratio,
                                SPLIT_RATIO_FIRST,
                            );
                        }
                        split_routes.push(route);
                        remaining_amount = remaining_amount - split_amount;
                    },
                    Ok(None) => {
                        proof {
                            if split_idx == 0 && first_ok {
                                crate::fixed::lemma_fp_mul_le_one(
                                    request.input_amount,
                                    SPLIT_RATIO_FIRST,
                                );
                                assert(split_request == first_request);
                                assert(false);
                            }
                        }
                    },
                    Err(e) => {
                        proof {
                            if split_idx > 0 {
                                assert(false);
                            }
                        }
                        return Err(e);
                    },
                }
            }
            split_idx += 1;
        }
        if split_routes.len() == 0 {
            proof {
                if first_ok {
                    assert(split_idx > 0);
                    assert(false);
                }
            }
            return Ok(None);
        }
        let ghost consumed = request.input_amount - remaining_amount;
        let n = split_routes.len();
        let mut total_input: u64 = 0;
        let mut total_output: u64 = 0;
        let mut total_impact: u64 = 0;
        let mut total_gas: u64 = 0;
        let mut i: usize = 0;
        while i < n
            invariant
                i <= n,
                total_input == sat_sum(
                    split_routes@.take(i as int).map_values(|rt: Route| rt.total_input_amount),
                ),
                total_output == sat_sum(
                    split_routes@.take(i as int).map_values(|rt: Route| rt.total_output_amount),
                ),
                total_impact == sat_sum(
                    split_routes@.take(i as int).map_values(|rt: Route| rt.price_impact),
                ),
                total_gas == sat_sum(
                    split_routes@.take(i as int).map_values(|rt: Route| rt.gas_estimate),
                ),
                i > 0 ==> total_input > 0,
            decreases n - i,
        {
            proof {
                let pre = split_routes@.take(i as int);
                let post = split_routes@.take(i as int + 1);
                assert(post.map_values(|rt: Route| rt.total_input_amount).drop_last() =~= pre.map_values(
                    |rt: Route| rt.total_input_amount,
                ));
                assert(post.map_values(|rt: Route| rt.total_output_amount).drop_last() =~= pre.map_values(
                    |rt: Route| rt.total_output_amount,
                ));
                assert(post.map_values(|rt: Route| rt.price_impact).drop_last() =~= pre.map_values(
                    |rt: Route| rt.price_impact,
                ));
                assert(post.map_values(|rt: Route| rt.gas_estimate).drop_last() =~= pre.map_values(
                    |rt: Route| rt.gas_estimate,
                ));
            }
            total_input = total_input.saturating_add(split_routes[i].total_input_amount);
            total_output = total_output.saturating_add(split_routes[i].total_output_amount);
            total_impact = total_impact.saturating_add(split_routes[i].price_impact);
            total_gas = total_gas.saturating_add(split_routes[i].gas_estimate);
            i += 1;
        }
        proof {
            assert(split_routes@.take(n as int) =~= split_routes@);
            assert(total_input <= request.input_amount);
        }
        let effective_rate = fp_div(total_output, total_input);
        Ok(
            Some(
                SplitRoute {
                    routes: split_routes,
                    total_input_amount: total_input,
                    total_output_amount: total_output,
                    effective_rate,
                    price_impact: total_impact,
                    gas_estimate: total_gas,
                },
            ),
        )
    }
}

impl RoutingGraph {
    /// Consume liquidity on the first edge joining the given addresses;
    /// the split search's cumulative-depletion mode charges each found
    /// hop against its pair this way.
    #[verifier::loop_isolation(false)]
    fn consume_edge_liquidity(&mut self, from_address: &String, to_address: &String, amount: u64)
        ensures
            final(self).tokens == old(self).tokens,
            final(self).config == old(self).config,
            final(self).edges@.len() == old(self).edges@.len(),
    {
        let n = self.edges.len();
        let mut k: usize = 0;
        while k < n
            invariant
                k <= n,
                self.tokens == old(self).tokens,
                self.config == old(self).config,
                self.edges@.len() == n,
            decreases n - k,
        {
            if self.edges[k].from_token.address == *from_address && self.edges[k].to_token.address
                == *to_address {
                let mut updated = self.edges[k].duplicate();
                updated.liquidity = updated.liquidity.saturating_sub(amount);
                self.edges.set(k, updated);
                return ;
            }
            k += 1;
        }
    }
}

/// Field-for-field copies of a token list, with a known result.
#[verifier::loop_isolation(false)]
fn duplicate_tokens(tokens: &Vec<Token>) -> (r: Vec<Token>)
    ensures
        r@ == tokens@,
{
    let n = tokens.len();
    let mut out: Vec<Token> = Vec::new();
    let mut i: usize = 0;
    while i < n
        invariant
            i <= n,
            out@.len() == i,
            forall|j: int| 0 <= j < i ==> out@[j] == tokens@[j],
        decreases n - i,
    {
        out.push(tokens[i].duplicate());
        i += 1;
    }
    proof {
        assert(out@ =~= tokens@);
    }
    out
}

/// Field-for-field copies of an edge list, with a known result.
#[verifier::loop_isolation(false)]
fn duplicate_edges(edges: &Vec<Edge>) -> (r: Vec<Edge>)
    ensures
        r@ == edges@,
{
    let n = edges.len();
    let mut out: Vec<Edge> = Vec::new();
    let mut i: usize = 0;
    while i < n
        invariant
            i <= n,
            out@.len() == i,
            forall|j: int| 0 <= j < i ==> out@[j] == edges@[j],
        decreases n - i,
    {
        out.push(edges[i].duplicate());
        i += 1;
    }
    proof {
        assert(out@ =~= edges@);
    }
    out
}

/// The first position of an address is unique: replacing the token there
/// is the same update whichever witness `choose` picks.
proof fn lemma_token_first_address_unique(tokens: Seq<Token>, addr: Seq<char>, i: int)
    requires
        is_first_address_at(tokens, addr, i),
    ensures
        forall|j: int| is_first_address_at(tokens, addr, j) ==> j == i,
{
    assert forall|j: int| is_first_address_at(tokens, addr, j) implies j == i by {
        if j < i {
            assert(tokens[j].address@ != addr);
        } else if i < j {
            assert(tokens[i].address@ != addr);
        }
    }
}

/// The saturating product of the per-hop base gas and the hop count.
proof fn lemma_base_gas_total(hops: int, total: int)
    requires
        hops >= 0,
        total == (
            if hops == 0 {
                0
            } else if BASE_GAS_PER_DEX as int <= (u64::MAX as int) / hops {
                BASE_GAS_PER_DEX as int * hops
            } else {
                u64::MAX as int
            }
        ),
    ensures
        total == crate::fixed::sat64(BASE_GAS_PER_DEX as int * hops),
{
    if hops > 0 {
        if BASE_GAS_PER_DEX as int <= (u64::MAX as int) / hops {
            assert(BASE_GAS_PER_DEX as int * hops <= u64::MAX as int) by (nonlinear_arith)
                requires
                    hops > 0,
                    BASE_GAS_PER_DEX as int <= (u64::MAX as int) / hops,
            ;
        } else {
            assert(BASE_GAS_PER_DEX as int * hops > u64::MAX as int) by (nonlinear_arith)
                requires
                    hops > 0,
                    BASE_GAS_PER_DEX as int > (u64::MAX as int) / hops,
            ;
        }
    }
}

} // verus!
