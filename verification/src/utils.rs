//! Utility collections: route mathematics, request/response validation,
//! performance averages, and cache key handling.

use vstd::prelude::*;

use crate::fixed::{
    fp_mul, fp_mul_spec, fp_complement, fp_complement_spec, sat64, SCALE,
};
use crate::quote::{quote_key_view, CacheKeyView, QuoteKey};
use crate::routing::validation_result;
use crate::types::{
    QuoteRequest, ResponseError, RouteRequest, RouteResponse, ValidationError,
};

verus! {

/// Base ratio of the geometric split schedule: 0.4, fixed-point.
pub const SPLIT_BASE_RATIO: u64 = 400_000_000_000;

/// Decay of the geometric split schedule: 0.7, fixed-point.
pub const SPLIT_DECAY: u64 = 700_000_000_000;

/// The decay factor applied to split number `i` of a geometric schedule:
/// `0.7` raised to the `i`th power, in fixed-point steps.
pub open spec fn decay_factor(i: int) -> int
    decreases i,
{
    if i <= 0 {
        SCALE as int
    } else {
        fp_mul_spec(decay_factor(i - 1), SPLIT_DECAY as int)
    }
}

/// The unnormalized ratio of split number `i`: the base ratio decayed `i`
/// times.
pub open spec fn raw_split_ratio(i: int) -> int {
    fp_mul_spec(SPLIT_BASE_RATIO as int, decay_factor(i))
}

/// Sum of the first `n` unnormalized ratios.
pub open spec fn raw_ratio_sum(n: int) -> int
    decreases n,
{
    if n <= 0 {
        0
    } else {
        raw_ratio_sum(n - 1) + raw_split_ratio(n - 1)
    }
}

/// The normalized ratio of split `i` among `n`: its raw ratio's share of
/// the raw total, floored.
pub open spec fn normalized_split_ratio(i: int, n: int) -> int {
    (raw_split_ratio(i) * (SCALE as int)) / raw_ratio_sum(n)
}

/// Decay factors stay between zero and one.
pub proof fn lemma_decay_factor_bounds(i: int)
    ensures
        0 <= decay_factor(i) <= SCALE as int,
    decreases
        (if i >= 0 {
            i
        } else {
            0
        }),
{
    if i > 0 {
        lemma_decay_factor_bounds(i - 1);
        let f = decay_factor(i - 1);
        assert(0 <= f * (SPLIT_DECAY as int) <= (SCALE as int) * (SPLIT_DECAY as int))
            by (nonlinear_arith)
            requires
                0 <= f <= SCALE as int,
        ;
    }
}

/// Unnormalized ratios stay between zero and the base ratio.
pub proof fn lemma_raw_split_ratio_bounds(i: int)
    ensures
        0 <= raw_split_ratio(i) <= SPLIT_BASE_RATIO as int,
{
    lemma_decay_factor_bounds(i);
    let f = decay_factor(i);
    assert(0 <= (SPLIT_BASE_RATIO as int) * f <= (SPLIT_BASE_RATIO as int) * (SCALE as int))
        by (nonlinear_arith)
        requires
            0 <= f <= SCALE as int,
    ;
}

/// The raw total over at least one split is at least the first raw ratio,
/// which is the full base ratio.
pub proof fn lemma_raw_ratio_sum_pos(n: int)
    requires
        n >= 1,
    ensures
        raw_ratio_sum(n) >= SPLIT_BASE_RATIO as int,
    decreases n,
{
    assert(decay_factor(0) == SCALE as int);
    assert((SPLIT_BASE_RATIO as int) * (SCALE as int) / (SCALE as int) == SPLIT_BASE_RATIO as int)
        by (nonlinear_arith);
    assert(raw_split_ratio(0) == SPLIT_BASE_RATIO as int);
    if n == 1 {
        assert(raw_ratio_sum(0) == 0);
        assert(raw_ratio_sum(1) == raw_ratio_sum(0) + raw_split_ratio(0));
    } else {
        lemma_raw_ratio_sum_pos(n - 1);
        lemma_raw_split_ratio_bounds(n - 1);
        assert(raw_ratio_sum(n) == raw_ratio_sum(n - 1) + raw_split_ratio(n - 1));
    }
}

/// Every raw ratio is at most the raw total it contributes to.
pub proof fn lemma_raw_le_sum(i: int, n: int)
    requires
        0 <= i < n,
    ensures
        raw_split_ratio(i) <= raw_ratio_sum(n),
    decreases n,
{
    if n == i + 1 {
        lemma_raw_sum_nonneg(i);
    } else {
        lemma_raw_le_sum(i, n - 1);
        lemma_raw_split_ratio_bounds(n - 1);
    }
}

/// Raw totals are never negative.
pub proof fn lemma_raw_sum_nonneg(n: int)
    ensures
        raw_ratio_sum(n) >= 0,
    decreases
        (if n >= 0 {
            n
        } else {
            0
        }),
{
    if n > 0 {
        lemma_raw_sum_nonneg(n - 1);
        lemma_raw_split_ratio_bounds(n - 1);
    }
}

/// Route mathematics.
pub struct MathUtils;

impl MathUtils {
    /// The rate a trade actually realizes once the venue's fee and the
    /// price impact are both deducted.
    pub fn calculate_effective_rate(base_rate: u64, fee_rate: u64, price_impact: u64) -> (r: u64)
        ensures
            r == fp_mul_spec(
                fp_mul_spec(base_rate as int, fp_complement_spec(fee_rate as int)),
                fp_complement_spec(price_impact as int),
            ),
    {
        let after_fee = fp_mul(base_rate, fp_complement(fee_rate));
        fp_mul(after_fee, fp_complement(price_impact))
    }

    /// The split ratio schedule for a plan of `num_splits` parts: fixed
    /// decreasing tables up to four splits, and a normalized geometric
    /// decay beyond that. At least one split must be asked for: a schedule
    /// of zero parts has no normalization.
    #[verifier::loop_isolation(false)]
    #[verifier::rlimit(60)]
    pub fn calculate_split_ratios(num_splits: usize) -> (r: Vec<u64>)
        requires
            num_splits >= 1,
        ensures
            num_splits == 1 ==> r@ =~= seq![SCALE],
            num_splits == 2 ==> r@ =~= seq![600_000_000_000u64, 400_000_000_000u64],
            num_splits == 3 ==> r@ =~= seq![
                500_000_000_000u64,
                300_000_000_000u64,
                200_000_000_000u64,
            ],
            num_splits == 4 ==> r@ =~= seq![
                400_000_000_000u64,
                250_000_000_000u64,
                200_000_000_000u64,
                150_000_000_000u64,
            ],
            num_splits >= 5 ==> r@.len() == num_splits && forall|i: int|
                0 <= i < r@.len() ==> r@[i] == normalized_split_ratio(i, num_splits as int),
    {
        if num_splits == 1 {
            let mut v: Vec<u64> = Vec::new();
            v.push(SCALE);
            return v;
        }
        if num_splits == 2 {
            let mut v: Vec<u64> = Vec::new();
            v.push(600_000_000_000);
            v.push(400_000_000_000);
            return v;
        }
        if num_splits == 3 {
            let mut v: Vec<u64> = Vec::new();
            v.push(500_000_000_000);
            v.push(300_000_000_000);
            v.push(200_000_000_000);
            return v;
        }
        if num_splits == 4 {
            let mut v: Vec<u64> = Vec::new();
            v.push(400_000_000_000);
            v.push(250_000_000_000);
            v.push(200_000_000_000);
            v.push(150_000_000_000);
            return v;
        }
        // Geometric schedule: decay the base ratio, then normalize by the
        // raw total.
        let mut raws: Vec<u64> = Vec::new();
        let mut factor: u64 = SCALE;
        let mut i: usize = 0;
        while i < num_splits
            invariant
                i <= num_splits,
                raws@.len() == i,
                factor == decay_factor(i as int),
                forall|j: int| 0 <= j < i ==> raws@[j] == raw_split_ratio(j),
            decreases num_splits - i,
        {
            proof {
                lemma_decay_factor_bounds(i as int);
                lemma_raw_split_ratio_bounds(i as int);
            }
            raws.push(fp_mul(SPLIT_BASE_RATIO, factor));
            factor = fp_mul(factor, SPLIT_DECAY);
            i += 1;
        }
        let mut total: u128 = 0;
        let mut j: usize = 0;
        while j < num_splits
            invariant
                j <= num_splits,
                raws@.len() == num_splits,
                forall|t: int| 0 <= t < num_splits ==> raws@[t] == raw_split_ratio(t),
                total == raw_ratio_sum(j as int),
                total <= (j as int) * (SPLIT_BASE_RATIO as int),
            decreases num_splits - j,
        {
            proof {
                lemma_raw_split_ratio_bounds(j as int);
            }
            total = total + (raws[j] as u128);
            j += 1;
        }
        proof {
            lemma_raw_ratio_sum_pos(num_splits as int);
        }
        let mut out: Vec<u64> = Vec::new();
        let mut k: usize = 0;
        while k < num_splits
            invariant
                k <= num_splits,
                out@.len() == k,
                raws@.len() == num_splits,
                forall|t: int| 0 <= t < num_splits ==> raws@[t] == raw_split_ratio(t),
                total == raw_ratio_sum(num_splits as int),
                total >= SPLIT_BASE_RATIO,
                forall|t: int| 0 <= t < k ==> out@[t] == normalized_split_ratio(
                    t,
                    num_splits as int,
                ),
            decreases num_splits - k,
        {
            proof {
                lemma_raw_split_ratio_bounds(k as int);
                lemma_raw_le_sum(k as int, num_splits as int);
                let rk = raw_split_ratio(k as int);
                let tot = raw_ratio_sum(num_splits as int);
                assert(rk * (SCALE as int) <= tot * (SCALE as int)) by (nonlinear_arith)
                    requires
                        0 <= rk <= tot,
                ;
                assert((tot * (SCALE as int)) / tot == SCALE as int) by (nonlinear_arith)
                    requires
                        tot > 0,
                ;
                assert((rk * (SCALE as int)) / tot <= (tot * (SCALE as int)) / tot)
                    by (nonlinear_arith)
                    requires
                        tot > 0,
                        rk * (SCALE as int) <= tot * (SCALE as int),
                ;
            }
            let share = ((raws[k] as u128) * (SCALE as u128)) / total;
            out.push(share as u64);
            k += 1;
        }
        out
    }

    /// Price impact under the constant-product market-maker model: the
    /// trade's share of the input reserve after the trade joins it. The
    /// output reserve cancels out of the impact fraction.
    pub fn calculate_amm_price_impact(
        input_amount: u64,
        reserve_in: u64,
        _reserve_out: u64,
    ) -> (r: u64)
        requires
            reserve_in as int + input_amount as int > 0,
        ensures
            r == sat64(
                (input_amount as int * (SCALE as int)) / (reserve_in as int + input_amount as int),
            ),
    {
        proof {
            assert((input_amount as int) * (SCALE as int) <= (u64::MAX as int) * (SCALE as int))
                by (nonlinear_arith)
                requires
                    input_amount <= u64::MAX,
            ;
        }
        let q: u128 = (input_amount as u128) * (SCALE as u128) / ((reserve_in as u128)
            + (input_amount as u128));
        if q > u64::MAX as u128 {
            u64::MAX
        } else {
            q as u64
        }
    }

    /// The acceptable output window under a slippage tolerance: the
    /// expected amount scaled down by the tolerance, and up by it — the
    /// upper bound `e * (1 + s)` is computed as `e + e * s`, which is the
    /// same value exactly. The lower bound floors at zero for tolerances
    /// of one or more.
    pub fn calculate_slippage_bounds(expected_amount: u64, slippage_tolerance: u64) -> (r: (
        u64,
        u64,
    ))
        ensures
            r.0 == fp_mul_spec(expected_amount as int, fp_complement_spec(
                slippage_tolerance as int,
            )),
            r.1 == sat64(
                expected_amount as int + fp_mul_spec(
                    expected_amount as int,
                    slippage_tolerance as int,
                ),
            ),
    {
        let min_amount = fp_mul(expected_amount, fp_complement(slippage_tolerance));
        let max_amount = expected_amount.saturating_add(
            fp_mul(expected_amount, slippage_tolerance),
        );
        (min_amount, max_amount)
    }

    /// Gas cost of a route: the per-interaction base gas times the number
    /// of venue interactions, scaled by the gas price.
    pub fn calculate_gas_cost(
        num_dex_interactions: usize,
        gas_price: u64,
        base_gas_per_dex: u64,
    ) -> (r: u64)
        ensures
            r == fp_mul_spec(
                sat64(base_gas_per_dex as int * num_dex_interactions as int),
                gas_price as int,
            ),
    {
        let n = num_dex_interactions as u64;
        let total_gas: u64;
        if n == 0 {
            total_gas = 0;
        } else if base_gas_per_dex <= u64::MAX / n {
            proof {
                assert(base_gas_per_dex as int * n as int <= u64::MAX as int)
                    by (nonlinear_arith)
                    requires
                        n > 0,
                        base_gas_per_dex as int <= (u64::MAX as int) / (n as int),
                ;
            }
            total_gas = base_gas_per_dex * n;
        } else {
            proof {
                assert(base_gas_per_dex as int * n as int > u64::MAX as int) by (nonlinear_arith)
                    requires
                        n > 0,
                        base_gas_per_dex as int > (u64::MAX as int) / (n as int),
                ;
            }
            total_gas = u64::MAX;
        }
        fp_mul(total_gas, gas_price)
    }
}

/// The validation outcome of a route response: the first violated rule,
/// in the order the checks run, or nothing when the response is sound.
pub open spec fn response_validation_result(response: RouteResponse) -> Option<ResponseError> {
    if response.route is None && response.split_route is None {
        Some(ResponseError::MissingRoute)
    } else if response.route matches Some(route) && route.segments@.len() == 0 {
        Some(ResponseError::EmptyRouteSegments)
    } else if response.route matches Some(route) && route.total_input_amount == 0 {
        Some(ResponseError::NonPositiveRouteInput)
    } else if response.route matches Some(route) && route.total_output_amount == 0 {
        Some(ResponseError::NonPositiveRouteOutput)
    } else if response.split_route matches Some(plan) && plan.routes@.len() == 0 {
        Some(ResponseError::EmptySplitRoutes)
    } else if response.split_route matches Some(plan) && plan.total_input_amount == 0 {
        Some(ResponseError::NonPositiveSplitInput)
    } else if response.split_route matches Some(plan) && plan.total_output_amount == 0 {
        Some(ResponseError::NonPositiveSplitOutput)
    } else {
        None
    }
}

/// Request and response validation.
pub struct ValidationUtils;

impl ValidationUtils {
    /// Check a route request against the validation rules, in order: a
    /// positive amount, a slippage tolerance strictly inside (0, 1), a
    /// nonzero iteration budget, and distinct input and output tokens.
    pub fn validate_route_request(request: &RouteRequest) -> (r: Result<(), ValidationError>)
        ensures
            r == (match validation_result(*request) {
                Some(e) => Err::<(), ValidationError>(e),
                None => Ok::<(), ValidationError>(()),
            }),
    {
        if request.input_amount == 0 {
            return Err(ValidationError::NonPositiveAmount);
        }
        if request.slippage_tolerance == 0 || request.slippage_tolerance >= SCALE {
            return Err(ValidationError::SlippageOutOfRange);
        }
        if request.max_iterations == 0 {
            return Err(ValidationError::ZeroMaxIterations);
        }
        if request.input_token == request.output_token {
            return Err(ValidationError::IdenticalTokens);
        }
        Ok(())
    }

    /// Check a route response: some result must be present, and whichever
    /// is present must have content and positive amounts.
    pub fn validate_route_response(response: &RouteResponse) -> (r: Result<(), ResponseError>)
        ensures
            r == (match response_validation_result(*response) {
                Some(e) => Err::<(), ResponseError>(e),
                None => Ok::<(), ResponseError>(()),
            }),
    {
        if response.route.is_none() && response.split_route.is_none() {
            return Err(ResponseError::MissingRoute);
        }
        match &response.route {
            Some(route) => {
                if route.segments.len() == 0 {
                    return Err(ResponseError::EmptyRouteSegments);
                }
                if route.total_input_amount == 0 {
                    return Err(ResponseError::NonPositiveRouteInput);
                }
                if route.total_output_amount == 0 {
                    return Err(ResponseError::NonPositiveRouteOutput);
                }
            },
            None => {},
        }
        match &response.split_route {
            Some(plan) => {
                if plan.routes.len() == 0 {
                    return Err(ResponseError::EmptySplitRoutes);
                }
                if plan.total_input_amount == 0 {
                    return Err(ResponseError::NonPositiveSplitInput);
                }
                if plan.total_output_amount == 0 {
                    return Err(ResponseError::NonPositiveSplitOutput);
                }
            },
            None => {},
        }
        Ok(())
    }
}

/// Plain sum of a sequence of durations in nanoseconds.
pub open spec fn nanos_sum(s: Seq<u64>) -> int
    decreases s.len(),
{
    if s.len() == 0 {
        0
    } else {
        nanos_sum(s.drop_last()) + s.last()
    }
}

/// Performance measurement helpers.
pub struct PerformanceUtils;

impl PerformanceUtils {
    /// The mean of a list of durations in nanoseconds, floored; zero for
    /// an empty list.
    #[verifier::loop_isolation(false)]
    pub fn calculate_average_time(times: &Vec<u64>) -> (r: u64)
        ensures
            times@.len() == 0 ==> r == 0,
            times@.len() > 0 ==> r == nanos_sum(times@) / (times@.len() as int),
    {
        let n = times.len();
        if n == 0 {
            return 0;
        }
        let mut total: u128 = 0;
        let mut i: usize = 0;
        while i < n
            invariant
                i <= n,
                total == nanos_sum(times@.take(i as int)),
                total <= (i as int) * (u64::MAX as int),
            decreases n - i,
        {
            proof {
                assert(times@.take(i as int + 1).drop_last() =~= times@.take(i as int));
                assert((i as int + 1) * (u64::MAX as int) <= (u64::MAX as int) * (u64::MAX as int))
                    by (nonlinear_arith)
                    requires
                        0 <= i as int + 1 <= u64::MAX as int,
                ;
            }
            total = total + (times[i] as u128);
            i += 1;
        }
        proof {
            assert(times@.take(n as int) =~= times@);
            assert(total as int / (n as int) <= u64::MAX as int) by (nonlinear_arith)
                requires
                    n as int > 0,
                    0 <= total as int <= (n as int) * (u64::MAX as int),
            ;
        }
        (total / (n as u128)) as u64
    }
}

/// Exec-level key of a route-response cache.
#[derive(Debug, Clone, PartialEq, Eq, Hash)]
pub struct RouteKey {
    /// Symbol of the token paid in.
    pub input_token: String,
    /// Symbol of the token to receive.
    pub output_token: String,
    /// Amount paid in, fixed-point.
    pub input_amount: u64,
    /// Slippage tolerance, fixed-point.
    pub slippage_tolerance: u64,
    /// Whether split routing was requested.
    pub enable_split_routes: bool,
}

impl View for RouteKey {
    type V = (Seq<char>, Seq<char>, u64, u64, bool);

    open spec fn view(&self) -> (Seq<char>, Seq<char>, u64, u64, bool) {
        (
            self.input_token@,
            self.output_token@,
            self.input_amount,
            self.slippage_tolerance,
            self.enable_split_routes,
        )
    }
}

/// Cache key handling.
pub struct CacheUtils;

impl CacheUtils {
    /// The cache key identifying a route request: the token pair, the
    /// amount, the tolerance, and the split flag.
    pub fn generate_route_cache_key(request: &RouteRequest) -> (k: RouteKey)
        ensures
            k@ == (
                request.input_token@,
                request.output_token@,
                request.input_amount,
                request.slippage_tolerance,
                request.enable_split_routes,
            ),
    {
        RouteKey {
            input_token: request.input_token.clone(),
            output_token: request.output_token.clone(),
            input_amount: request.input_amount,
            slippage_tolerance: request.slippage_tolerance,
            enable_split_routes: request.enable_split_routes,
        }
    }

    /// The cache key identifying a quote request: the venue, the token
    /// pair and the amount.
    pub fn generate_quote_cache_key(request: &QuoteRequest) -> (k: QuoteKey)
        ensures
            k@ == quote_key_view(*request),
    {
        QuoteKey {
            dex_platform: request.dex_platform.clone(),
            input_token: request.input_token.clone(),
            output_token: request.output_token.clone(),
            amount: request.amount,
        }
    }

    /// Whether an entry created at `created_at_ms` has outlived
    /// `ttl_seconds` by time `now_ms`: strictly more whole seconds have
    /// elapsed than the lifetime allows.
    pub fn is_cache_expired(created_at_ms: u64, now_ms: u64, ttl_seconds: u64) -> (r: bool)
        ensures
            r == ((
            if now_ms >= created_at_ms {
                now_ms - created_at_ms
            } else {
                0
            }) / 1000 > ttl_seconds),
    {
        let elapsed_ms = now_ms.saturating_sub(created_at_ms);
        elapsed_ms / 1000 > ttl_seconds
    }
}

} // verus!
