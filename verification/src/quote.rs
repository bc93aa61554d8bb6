//! The quote service: price computation for a venue and a time-bounded,
//! concurrency-safe memoization cache in front of it.
//!
//! The cache is a `dashmap::DashMap` keyed by the exact (venue, input
//! token, output token, amount) tuple. Its contents are modelled by the
//! uninterpreted [`cache_entries`] map, and every operation the service
//! performs on it goes through a trusted wrapper whose contract states what
//! dashmap's source shows. Time enters every operation as an explicit
//! millisecond timestamp, so expiry logic is fully checked.
//!
//! The verified API threads the cache through `&mut self`, so within this
//! crate accesses are serialized by ownership; dashmap's internal sharding
//! still makes the container safe for callers that share a service across
//! tasks behind their own synchronization.

use vstd::prelude::*;

use crate::fixed::{fp_mul, fp_mul_spec, fp_complement, fp_complement_spec, price_impact_amount,
    price_impact_spec};
use crate::types::QuoteRequest;
use crate::types::QuoteResponse;

verus! {

/// Spec-level cache key: the views of venue name, input token, output
/// token, and the trade amount.
pub type CacheKeyView = (Seq<char>, Seq<char>, Seq<char>, u64);

/// Exec-level cache key: one quote cache entry per exact combination of
/// venue, token pair and amount.
#[derive(Debug, Clone, PartialEq, Eq, Hash)]
pub struct QuoteKey {
    /// Venue the quote was asked from.
    pub dex_platform: String,
    /// Symbol of the token paid in.
    pub input_token: String,
    /// Symbol of the token to receive.
    pub output_token: String,
    /// Trade size, fixed-point.
    pub amount: u64,
}

impl View for QuoteKey {
    type V = CacheKeyView;

    open spec fn view(&self) -> CacheKeyView {
        (self.dex_platform@, self.input_token@, self.output_token@, self.amount)
    }
}

/// A cached quote with its expiry instant in milliseconds.
#[derive(Debug, Clone, Copy, PartialEq, Eq, Structural)]
pub struct CacheEntry {
    /// The memoized quote.
    pub quote: QuoteResponse,
    /// First millisecond at which the entry no longer serves hits.
    pub expires_at_ms: u64,
}

/// What the external quote source reports for one venue: its current rate,
/// available liquidity, and fee fraction, all fixed-point.
#[derive(Debug, Clone, Copy, PartialEq, Eq, Structural)]
pub struct VenueQuoteData {
    /// Output units per input unit.
    pub exchange_rate: u64,
    /// Liquidity available on the venue.
    pub liquidity: u64,
    /// Fraction of the trade taken as fee.
    pub fee_rate: u64,
}

/// Quote service configuration.
#[derive(Debug, Clone, Copy, PartialEq, Eq, Structural)]
pub struct QuoteConfig {
    /// Lifetime of a cache entry in seconds.
    pub cache_ttl_seconds: u64,
    /// Retry budget for the external source; the computation here never
    /// retries, callers driving a real source may.
    pub max_retries: u32,
    /// Timeout for the external source in seconds; enforced by callers.
    pub timeout_seconds: u64,
    /// Whether memoization is enabled at all.
    pub enable_cache: bool,
}

impl QuoteConfig {
    /// The configuration `Default::default` returns.
    pub open spec fn default_spec() -> QuoteConfig {
        QuoteConfig { cache_ttl_seconds: 30, max_retries: 3, timeout_seconds: 10, enable_cache: true }
    }
}

impl Default for QuoteConfig {
    /// Defaults: 30-second entries, three retries, ten-second timeout,
    /// caching on.
    fn default() -> (r: QuoteConfig)
        ensures
            r == QuoteConfig::default_spec(),
    {
        QuoteConfig { cache_ttl_seconds: 30, max_retries: 3, timeout_seconds: 10, enable_cache: true }
    }
}

#[verifier::external_type_specification]
#[verifier::external_body]
#[verifier::reject_recursive_types(K)]
#[verifier::reject_recursive_types(V)]
#[verifier::reject_recursive_types(S)]
pub struct ExDashMap<K, V, S>(dashmap::DashMap<K, V, S>);

/// The concrete cache container: a concurrent map from keys to entries.
pub type CacheMap = dashmap::DashMap<QuoteKey, CacheEntry>;

/// The entries a cache map holds, as a map from key views to entries.
/// Every operation of [`QuoteCache`] states its effect over this model.
pub uninterp spec fn cache_entries(m: CacheMap) -> Map<CacheKeyView, CacheEntry>;

/// The memoization cache: a concurrent map whose abstract contents are the
/// [`cache_entries`] of the underlying container.
pub struct QuoteCache {
    /// The underlying concurrent container.
    pub map: CacheMap,
}

impl View for QuoteCache {
    type V = Map<CacheKeyView, CacheEntry>;

    closed spec fn view(&self) -> Map<CacheKeyView, CacheEntry> {
        cache_entries(self.map)
    }
}

impl QuoteCache {
    /// Relies on dashmap::DashMap::new: creates a map with no entries.
    #[verifier::external_body]
    pub fn new() -> (r: QuoteCache)
        ensures
            r@ =~= Map::empty(),
    {
        QuoteCache { map: dashmap::DashMap::new() }
    }

    /// Relies on dashmap::DashMap::get: returns the value stored under an
    /// equal key, if one is present.
    #[verifier::external_body]
    pub fn get(&self, key: &QuoteKey) -> (r: Option<CacheEntry>)
        ensures
            r == (if cache_entries(self.map).dom().contains(key@) {
                Some(cache_entries(self.map)[key@])
            } else {
                None
            }),
    {
        self.map.get(key).map(|e| *e.value())
    }

    /// Relies on dashmap::DashMap::insert: maps the key to the value,
    /// replacing the value an equal key held before.
    #[verifier::external_body]
    pub fn insert(&mut self, key: QuoteKey, value: CacheEntry)
        ensures
            cache_entries(final(self).map) == cache_entries(old(self).map).insert(key@, value),
    {
        self.map.insert(key, value);
    }

    /// Relies on dashmap::DashMap::remove: removes the entry an equal key
    /// holds, if any.
    #[verifier::external_body]
    pub fn remove(&mut self, key: &QuoteKey)
        ensures
            cache_entries(final(self).map) == cache_entries(old(self).map).remove(key@),
    {
        self.map.remove(key);
    }

    /// Relies on dashmap::DashMap::len: the number of entries held.
    #[verifier::external_body]
    pub fn len(&self) -> (n: usize)
        ensures
            n == cache_entries(self.map).dom().len(),
    {
        self.map.len()
    }

    /// Relies on dashmap::DashMap::iter: yields every entry exactly once,
    /// in no promised order.
    #[verifier::external_body]
    pub fn entries(&self) -> (v: Vec<(QuoteKey, CacheEntry)>)
        ensures
            v@.len() == cache_entries(self.map).dom().len(),
            forall|i: int|
                0 <= i < v@.len() ==> cache_entries(self.map).contains_pair(
                    (#[trigger] v@[i]).0@,
                    v@[i].1,
                ),
            forall|i: int, j: int| 0 <= i < j < v@.len() ==> v@[i].0@ != v@[j].0@,
            forall|k: CacheKeyView|
                #[trigger] cache_entries(self.map).dom().contains(k) ==> exists|i: int|
                    0 <= i < v@.len() && (#[trigger] v@[i]).0@ == k,
    {
        self.map.iter().map(|e| (e.key().clone(), *e.value())).collect()
    }
}

/// Spec-level cache key of a quote request.
pub open spec fn quote_key_view(request: QuoteRequest) -> CacheKeyView {
    (request.dex_platform@, request.input_token@, request.output_token@, request.amount)
}

/// What a cache lookup at `now_ms` yields: the stored quote while the
/// entry is present and unexpired, and nothing otherwise.
pub open spec fn cache_lookup_spec(
    entries: Map<CacheKeyView, CacheEntry>,
    k: CacheKeyView,
    now_ms: u64,
) -> Option<QuoteResponse> {
    if entries.dom().contains(k) && entries[k].expires_at_ms > now_ms {
        Some(entries[k].quote)
    } else {
        None
    }
}

/// The answers and the cache state that serving the first `k` venues of a
/// fan-out through the cache produces, one [`QuoteService::get_quote`]
/// step per venue: a hit returns the stored quote and leaves the cache
/// alone; a miss computes the venue's quote fresh and stores it until
/// `now_ms` plus the configured lifetime.
pub open spec fn multi_quote_fold(
    entries: Map<CacheKeyView, CacheEntry>,
    config: QuoteConfig,
    input_token: Seq<char>,
    output_token: Seq<char>,
    amount: u64,
    venues: Seq<(String, VenueQuoteData)>,
    k: int,
    now_ms: u64,
) -> (Seq<QuoteResponse>, Map<CacheKeyView, CacheEntry>)
    decreases k,
{
    if k <= 0 {
        (Seq::empty(), entries)
    } else {
        let prev = multi_quote_fold(
            entries,
            config,
            input_token,
            output_token,
            amount,
            venues,
            k - 1,
            now_ms,
        );
        let key = (venues[k - 1].0@, input_token, output_token, amount);
        if config.enable_cache {
            match cache_lookup_spec(prev.1, key, now_ms) {
                Some(q) => (prev.0.push(q), prev.1),
                None => {
                    let q = compute_quote_spec(amount, venues[k - 1].1);
                    (
                        prev.0.push(q),
                        prev.1.insert(
                            key,
                            CacheEntry {
                                quote: q,
                                expires_at_ms: expiry_spec(
                                    now_ms,
                                    config.cache_ttl_seconds,
                                ) as u64,
                            },
                        ),
                    )
                },
            }
        } else {
            (prev.0.push(compute_quote_spec(amount, venues[k - 1].1)), prev.1)
        }
    }
}

/// The quote a venue reporting `source` gives for `amount`: the
/// rate-converted base output reduced by the linear price impact, with the
/// venue's fee computed on the input.
pub open spec fn compute_quote_spec(amount: u64, source: VenueQuoteData) -> QuoteResponse {
    let base_output = fp_mul_spec(amount as int, source.exchange_rate as int);
    let impact = price_impact_spec(amount as int, source.liquidity as int);
    QuoteResponse {
        input_amount: amount,
        output_amount: fp_mul_spec(base_output, fp_complement_spec(impact)) as u64,
        exchange_rate: source.exchange_rate,
        price_impact: impact as u64,
        liquidity_available: source.liquidity,
        fee_amount: fp_mul_spec(amount as int, source.fee_rate as int) as u64,
    }
}

/// Expiry instant of an entry stored at `now_ms` under a lifetime of
/// `ttl_seconds`, saturating at the end of representable time.
pub open spec fn expiry_spec(now_ms: u64, ttl_seconds: u64) -> int {
    crate::fixed::sat64(now_ms + crate::fixed::sat64(ttl_seconds as int * 1000))
}

/// Compute the quote a venue reporting `source` gives for `amount`.
pub fn compute_quote(amount: u64, source: &VenueQuoteData) -> (r: QuoteResponse)
    ensures
        r == compute_quote_spec(amount, *source),
{
    let base_output = fp_mul(amount, source.exchange_rate);
    let impact = price_impact_amount(amount, source.liquidity);
    let output_amount = fp_mul(base_output, fp_complement(impact));
    let fee_amount = fp_mul(amount, source.fee_rate);
    QuoteResponse {
        input_amount: amount,
        output_amount,
        exchange_rate: source.exchange_rate,
        price_impact: impact,
        liquidity_available: source.liquidity,
        fee_amount,
    }
}

/// The memoization law of the cache: a quote stored under a key is
/// returned unchanged by every lookup before its expiry — a second fetch
/// within the lifetime sees the identical output amount, rate and fee —
/// and a lookup at or past the expiry misses, which triggers a fresh
/// fetch.
pub proof fn lemma_cache_memoization(
    entries: Map<CacheKeyView, CacheEntry>,
    k: CacheKeyView,
    quote: QuoteResponse,
    expires_at_ms: u64,
    now_ms: u64,
)
    ensures
        now_ms < expires_at_ms ==> cache_lookup_spec(
            entries.insert(k, CacheEntry { quote, expires_at_ms }),
            k,
            now_ms,
        ) == Some(quote),
        now_ms >= expires_at_ms ==> cache_lookup_spec(
            entries.insert(k, CacheEntry { quote, expires_at_ms }),
            k,
            now_ms,
        ) is None,
{
}

/// Live-quote service: computes venue quotes and memoizes them in a
/// concurrent map for a configured lifetime.
pub struct QuoteService {
    /// The memoization cache.
    cache: QuoteCache,
    /// Service configuration.
    config: QuoteConfig,
}

impl QuoteService {
    /// The entries the cache currently holds, as a map over key views.
    pub closed spec fn model(&self) -> Map<CacheKeyView, CacheEntry> {
        self.cache@
    }

    /// The configuration the service runs under.
    pub closed spec fn spec_config(&self) -> QuoteConfig {
        self.config
    }

    /// The cache's key set stays finite through every operation.
    pub closed spec fn wf(&self) -> bool {
        self.model().dom().finite()
    }

    /// A fresh service under the default configuration.
    pub fn new() -> (r: QuoteService)
        ensures
            r.model() == Map::<CacheKeyView, CacheEntry>::empty(),
            r.spec_config() == QuoteConfig::default_spec(),
            r.wf(),
    {
        QuoteService::with_config(QuoteConfig::default())
    }

    /// A fresh service under the given configuration.
    pub fn with_config(config: QuoteConfig) -> (r: QuoteService)
        ensures
            r.model() == Map::<CacheKeyView, CacheEntry>::empty(),
            r.spec_config() == config,
            r.wf(),
    {
        QuoteService { cache: QuoteCache::new(), config }
    }

    /// The exec-level cache key of a quote request.
    pub fn generate_cache_key(&self, request: &QuoteRequest) -> (k: QuoteKey)
        ensures
            k@ == quote_key_view(*request),
    {
        QuoteKey {
            dex_platform: request.dex_platform.clone(),
            input_token: request.input_token.clone(),
            output_token: request.output_token.clone(),
            amount: request.amount,
        }
    }

    /// Price impact of a trade of `trade_amount` against `liquidity`,
    /// under the linear impact model.
    pub fn calculate_price_impact(&self, trade_amount: u64, liquidity: u64) -> (r: u64)
        ensures
            r == price_impact_spec(trade_amount as int, liquidity as int),
    {
        price_impact_amount(trade_amount, liquidity)
    }

    /// Serve a quote at time `now_ms`, with `source` standing for what the
    /// external quote source currently reports for the requested venue.
    /// With caching enabled, an unexpired entry under the same key is
    /// returned unchanged and the cache is untouched; a miss or an expired
    /// entry is answered by a fresh computation that is stored until
    /// `now_ms` plus the configured lifetime. With caching disabled the
    /// quote is always computed fresh and the cache is never touched.
    pub fn get_quote(
        &mut self,
        request: &QuoteRequest,
        source: &VenueQuoteData,
        now_ms: u64,
    ) -> (r: QuoteResponse)
        requires
            old(self).wf(),
        ensures
            final(self).wf(),
            final(self).spec_config() == old(self).spec_config(),
            ({
                let k = quote_key_view(*request);
                let entries = old(self).model();
                if old(self).spec_config().enable_cache {
                    match cache_lookup_spec(entries, k, now_ms) {
                        Some(q) => r == q && final(self).model() == entries,
                        None => r == compute_quote_spec(request.amount, *source)
                            && final(self).model() == entries.insert(
                            k,
                            CacheEntry {
                                quote: r,
                                expires_at_ms: expiry_spec(
                                    now_ms,
                                    old(self).spec_config().cache_ttl_seconds,
                                ) as u64,
                            },
                        ),
                    }
                } else {
                    r == compute_quote_spec(request.amount, *source) && final(self).model()
                        == entries
                }
            }),
    {
        let cache_key = self.generate_cache_key(request);
        let ghost entries0 = self.model();
        if self.config.enable_cache {
            match self.cache.get(&cache_key) {
                Some(cached) => {
                    if cached.expires_at_ms > now_ms {
                        return cached.quote;
                    } else {
                        self.cache.remove(&cache_key);
                    }
                },
                None => {},
            }
        }
        let quote = compute_quote(request.amount, source);
        if self.config.enable_cache {
            let ttl = self.config.cache_ttl_seconds;
            let ttl_ms: u64;
            if ttl <= u64::MAX / 1000 {
                proof {
                    assert(ttl as int * 1000 <= u64::MAX as int) by (nonlinear_arith)
                        requires
                            ttl as int <= (u64::MAX as int) / 1000,
                    ;
                }
                ttl_ms = ttl * 1000;
            } else {
                proof {
                    assert(ttl as int * 1000 > u64::MAX as int) by (nonlinear_arith)
                        requires
                            ttl as int > (u64::MAX as int) / 1000,
                    ;
                }
                ttl_ms = u64::MAX;
            }
            let expires_at_ms = now_ms.saturating_add(ttl_ms);
            let entry = CacheEntry { quote, expires_at_ms };
            self.cache.insert(cache_key, entry);
            proof {
                let k = quote_key_view(*request);
                assert(self.model() =~= entries0.insert(
                    k,
                    CacheEntry { quote, expires_at_ms: expiry_spec(now_ms, ttl) as u64 },
                ));
            }
        }
        quote
    }

    /// Ask every listed venue for a quote on the same pair and amount, in
    /// order, and return one answer per venue under the venue's name. In
    /// this model no lookup fails, so no venue is dropped. The answers and
    /// the cache afterwards are exactly what serving the venues one by one
    /// through the cache produces — see [`multi_quote_fold`] — so repeated
    /// venue names see the entries earlier venues stored.
    #[verifier::loop_isolation(false)]
    #[verifier::rlimit(60)]
    pub fn get_multi_dex_quotes(
        &mut self,
        input_token: &String,
        output_token: &String,
        amount: u64,
        dex_platforms: &Vec<(String, VenueQuoteData)>,
        now_ms: u64,
    ) -> (r: Vec<(String, QuoteResponse)>)
        requires
            old(self).wf(),
        ensures
            final(self).wf(),
            final(self).spec_config() == old(self).spec_config(),
            r@.len() == dex_platforms@.len(),
            forall|i: int|
                0 <= i < r@.len() ==> (#[trigger] r@[i]).0@ == dex_platforms@[i].0@,
            ({
                let fold = multi_quote_fold(
                    old(self).model(),
                    old(self).spec_config(),
                    input_token@,
                    output_token@,
                    amount,
                    dex_platforms@,
                    dex_platforms@.len() as int,
                    now_ms,
                );
                &&& r@.map_values(|p: (String, QuoteResponse)| p.1) == fold.0
                &&& final(self).model() == fold.1
            }),
    {
        let ghost entries0 = self.model();
        let n = dex_platforms.len();
        let mut quotes: Vec<(String, QuoteResponse)> = Vec::new();
        let mut i: usize = 0;
        while i < n
            invariant
                i <= n,
                quotes@.len() == i,
                self.wf(),
                self.spec_config() == old(self).spec_config(),
                forall|j: int|
                    0 <= j < i ==> (#[trigger] quotes@[j]).0@ == dex_platforms@[j].0@,
                (quotes@.map_values(|p: (String, QuoteResponse)| p.1), self.model())
                    == multi_quote_fold(
                    entries0,
                    old(self).spec_config(),
                    input_token@,
                    output_token@,
                    amount,
                    dex_platforms@,
                    i as int,
                    now_ms,
                ),
            decreases n - i,
        {
            let name = dex_platforms[i].0.clone();
            let data = dex_platforms[i].1;
            let request = QuoteRequest {
                input_token: input_token.clone(),
                output_token: output_token.clone(),
                amount,
                dex_platform: name.clone(),
            };
            let ghost pre_model = self.model();
            let ghost pre_values = quotes@.map_values(|p: (String, QuoteResponse)| p.1);
            let quote = self.get_quote(&request, &data, now_ms);
            proof {
                let f = |p: (String, QuoteResponse)| p.1;
                assert(quote_key_view(request) == (
                dex_platforms@[i as int].0@,
                input_token@,
                output_token@,
                amount,
                ));
                assert(quotes@.push((name, quote)).map_values(f) =~= pre_values.push(quote));
            }
            quotes.push((name, quote));
            i += 1;
        }
        quotes
    }

    /// Sweep the cache: remove exactly the entries whose expiry is at or
    /// before `now_ms`, leaving every unexpired entry untouched.
    #[verifier::loop_isolation(false)]
    pub fn cleanup_cache(&mut self, now_ms: u64)
        requires
            old(self).wf(),
        ensures
            final(self).wf(),
            final(self).spec_config() == old(self).spec_config(),
            forall|k: CacheKeyView|
                #[trigger] final(self).model().dom().contains(k) <==> old(
                    self,
                ).model().dom().contains(k) && old(self).model()[k].expires_at_ms > now_ms,
            forall|k: CacheKeyView|
                #[trigger] final(self).model().dom().contains(k) ==> final(self).model()[k]
                    == old(self).model()[k],
    {
        let ghost entries0 = self.model();
        let snapshot = self.cache.entries();
        let n = snapshot.len();
        let mut i: usize = 0;
        while i < n
            invariant
                i <= n,
                self.wf(),
                self.spec_config() == old(self).spec_config(),
                forall|k: CacheKeyView|
                    #[trigger] self.model().dom().contains(k) ==> entries0.dom().contains(k)
                        && self.model()[k] == entries0[k],
                forall|k: CacheKeyView|
                    entries0.dom().contains(k) && entries0[k].expires_at_ms > now_ms
                        ==> #[trigger] self.model().dom().contains(k),
                forall|j: int|
                    0 <= j < i && (#[trigger] snapshot@[j]).1.expires_at_ms <= now_ms
                        ==> !self.model().dom().contains(snapshot@[j].0@),
            decreases n - i,
        {
            let expired = snapshot[i].1.expires_at_ms <= now_ms;
            if expired {
                self.cache.remove(&snapshot[i].0);
            }
            i += 1;
        }
        proof {
            assert forall|k: CacheKeyView| #[trigger]
                self.model().dom().contains(k) implies entries0.dom().contains(k)
                && entries0[k].expires_at_ms > now_ms by {
                if entries0[k].expires_at_ms <= now_ms {
                    let j = choose|j: int| 0 <= j < snapshot@.len() && (#[trigger] snapshot@[j]).0@
                        == k;
                    assert(entries0.contains_pair(snapshot@[j].0@, snapshot@[j].1));
                }
            }
        }
    }

    /// Report the cache's size: how many entries it holds, how many of
    /// them are past expiry at `now_ms`, and how many are still valid. The
    /// hit rate is a fixed placeholder until real usage is measured.
    #[verifier::loop_isolation(false)]
    #[verifier::rlimit(60)]
    pub fn get_cache_stats(&self, now_ms: u64) -> (r: CacheStats)
        requires
            self.wf(),
        ensures
            r.total_entries == self.model().dom().len(),
            r.expired_entries == expired_key_set(self.model(), now_ms).len(),
            r.valid_entries == r.total_entries - r.expired_entries,
            r.cache_hit_rate == CACHE_HIT_RATE_PLACEHOLDER,
    {
        let snapshot = self.cache.entries();
        let total_entries = self.cache.len();
        let n = snapshot.len();
        let mut expired_entries: usize = 0;
        let mut i: usize = 0;
        proof {
            assert(seen_expired_set(snapshot@, 0, now_ms) =~= Set::<CacheKeyView>::empty());
        }
        while i < n
            invariant
                i <= n,
                expired_entries <= i,
                seen_expired_set(snapshot@, i as int, now_ms).finite(),
                expired_entries == seen_expired_set(snapshot@, i as int, now_ms).len(),
            decreases n - i,
        {
            proof {
                let pre = seen_expired_set(snapshot@, i as int, now_ms);
                let post = seen_expired_set(snapshot@, i as int + 1, now_ms);
                if snapshot@[i as int].1.expires_at_ms <= now_ms {
                    assert(post =~= pre.insert(snapshot@[i as int].0@));
                    assert(!pre.contains(snapshot@[i as int].0@));
                } else {
                    assert(post =~= pre);
                }
            }
            if snapshot[i].1.expires_at_ms <= now_ms {
                expired_entries = expired_entries + 1;
            }
            i += 1;
        }
        proof {
            assert forall|k: CacheKeyView| #[trigger]
                seen_expired_set(snapshot@, n as int, now_ms).contains(k) implies expired_key_set(
                self.model(),
                now_ms,
            ).contains(k) by {
                let j = choose|j: int|
                    0 <= j < n && (#[trigger] snapshot@[j]).0@ == k && snapshot@[j].1.expires_at_ms
                        <= now_ms;
                assert(self.model().contains_pair(snapshot@[j].0@, snapshot@[j].1));
            }
            assert forall|k: CacheKeyView| #[trigger]
                expired_key_set(self.model(), now_ms).contains(k) implies seen_expired_set(
                snapshot@,
                n as int,
                now_ms,
            ).contains(k) by {
                let j = choose|j: int| 0 <= j < snapshot@.len() && (#[trigger] snapshot@[j]).0@
                    == k;
                assert(self.model().contains_pair(snapshot@[j].0@, snapshot@[j].1));
            }
            assert(seen_expired_set(snapshot@, n as int, now_ms) =~= expired_key_set(
                self.model(),
                now_ms,
            ));
            vstd::set_lib::lemma_len_subset(
                expired_key_set(self.model(), now_ms),
                self.model().dom(),
            );
        }
        let valid_entries = total_entries - expired_entries;
        CacheStats {
            total_entries,
            expired_entries,
            valid_entries,
            cache_hit_rate: CACHE_HIT_RATE_PLACEHOLDER,
        }
    }
}

impl Default for QuoteService {
    /// Same as [`QuoteService::new`].
    fn default() -> (r: QuoteService)
        ensures
            r.model() == Map::<CacheKeyView, CacheEntry>::empty(),
            r.spec_config() == QuoteConfig::default_spec(),
            r.wf(),
    {
        QuoteService::new()
    }
}

/// Placeholder cache hit rate reported by the stats: 0.85 fixed-point,
/// standing in until real usage is measured.
pub const CACHE_HIT_RATE_PLACEHOLDER: u64 = 850_000_000_000;

/// The keys of the entries past expiry at `now_ms`.
pub open spec fn expired_key_set(
    entries: Map<CacheKeyView, CacheEntry>,
    now_ms: u64,
) -> Set<CacheKeyView> {
    entries.dom().filter(|k: CacheKeyView| entries[k].expires_at_ms <= now_ms)
}

/// The distinct keys among the first `i` snapshot entries whose expiry is
/// at or before `now_ms`.
pub open spec fn seen_expired_set(
    snapshot: Seq<(QuoteKey, CacheEntry)>,
    i: int,
    now_ms: u64,
) -> Set<CacheKeyView> {
    Set::new(
        |k: CacheKeyView|
            exists|j: int|
                0 <= j < i && (#[trigger] snapshot[j]).0@ == k && snapshot[j].1.expires_at_ms
                    <= now_ms,
    )
}

/// Cache size statistics.
#[derive(Debug, Clone, Copy, PartialEq, Eq, Structural)]
pub struct CacheStats {
    /// Entries currently held, expired ones included.
    pub total_entries: usize,
    /// Entries past expiry and pending removal.
    pub expired_entries: usize,
    /// Entries still serving hits.
    pub valid_entries: usize,
    /// Fraction of lookups served from the cache, fixed-point; a
    /// placeholder until measured.
    pub cache_hit_rate: u64,
}

} // verus!
