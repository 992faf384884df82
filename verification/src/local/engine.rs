//! The sizes with which a model is loaded and its contexts are made.

use crate::config::LocalEngineConfig;
use crate::text::{ascii_lowercase, same, to_ascii_lowercase, trim, trimmed};
use vstd::prelude::*;

verus! {

/// The size of an automatic context where nothing else is known.
pub const AUTO_N_CTX_FALLBACK: u32 = 4096;

/// The smallest context that is worth having.
pub const FIT_N_CTX_MIN: u32 = 2048;

/// Free memory is divided by this before a context is sized: what is left over serves the
/// engine's other buffers.
pub const AUTO_KV_MEMORY_FRACTION: u64 = 2;

/// The context size to advertise before a model is loaded: the configured one, the
/// fallback for an automatic one. It is never 0.
pub fn registration_n_ctx(cfg: &LocalEngineConfig) -> (r: u32)
    ensures
        r == if cfg.n_ctx > 0 {
            cfg.n_ctx
        } else {
            AUTO_N_CTX_FALLBACK
        },
        r > 0,
{
    if cfg.n_ctx > 0 {
        cfg.n_ctx
    } else {
        AUTO_N_CTX_FALLBACK
    }
}

/// How the entries of a cache are stored.
#[derive(Debug, Clone, Copy, PartialEq, Eq, Structural)]
pub enum KvCacheType {
    F32,
    F16,
    Q8_0,
    Q5_1,
    Q5_0,
    Q4_1,
    Q4_0,
    /// A type that is not known here.
    Other,
}

/// The bytes of a block of 32 elements.
pub open spec fn block_bytes(t: KvCacheType) -> int {
    match t {
        KvCacheType::F32 => 128,
        KvCacheType::F16 => 64,
        KvCacheType::Q8_0 => 34,
        KvCacheType::Q5_1 => 24,
        KvCacheType::Q5_0 => 22,
        KvCacheType::Q4_1 => 20,
        KvCacheType::Q4_0 => 18,
        KvCacheType::Other => 128,
    }
}

/// The bytes of a block of 32 elements. A type that is not known counts as the widest, so
/// that memory is never promised twice.
pub fn kv_block_bytes(t: KvCacheType) -> (r: u64)
    ensures
        r == block_bytes(t),
        18 <= r <= 128,
{
    match t {
        KvCacheType::F32 => 128,
        KvCacheType::F16 => 64,
        KvCacheType::Q8_0 => 34,
        KvCacheType::Q5_1 => 24,
        KvCacheType::Q5_0 => 22,
        KvCacheType::Q4_1 => 20,
        KvCacheType::Q4_0 => 18,
        KvCacheType::Other => 128,
    }
}

/// The numbers of a model that its cache depends on.
#[derive(Debug, Clone, Copy, PartialEq, Eq, Structural)]
pub struct KvGeometry {
    pub n_layer: u32,
    pub n_embd: u32,
    pub n_head: u32,
    /// The heads that keep keys and values, 0 where that is not known.
    pub n_head_kv: u32,
}

/// The heads that are counted: all of them where it is not known which keep anything.
pub open spec fn counted_heads(g: KvGeometry) -> int {
    if g.n_head_kv == 0 {
        g.n_head as int
    } else {
        g.n_head_kv as int
    }
}

/// The elements that the cache keeps of each kind for one token.
pub open spec fn kv_elements(g: KvGeometry) -> int {
    g.n_layer as int * (g.n_embd as int / g.n_head as int) * counted_heads(g)
}

/// The cache of a token can be counted in 64 bits.
pub open spec fn countable(g: KvGeometry, k: KvCacheType, v: KvCacheType) -> bool {
    g.n_head > 0 && g.n_layer > 0 ==> kv_elements(g) * (block_bytes(k) + block_bytes(v))
        <= u64::MAX
}

/// Whether the cache of a model can be counted in 64 bits.
pub fn is_countable(g: KvGeometry, k: KvCacheType, v: KvCacheType) -> (r: bool)
    ensures
        r == countable(g, k, v),
{
    if g.n_head == 0 || g.n_layer == 0 {
        return true;
    }
    let heads: u32 = if g.n_head_kv == 0 {
        g.n_head
    } else {
        g.n_head_kv
    };
    let head_dim: u32 = g.n_embd / g.n_head;
    proof {
        assert(g.n_layer * head_dim <= 0xffff_ffff * 0xffff_ffff) by (nonlinear_arith)
            requires
                g.n_layer <= 0xffff_ffff,
                head_dim <= 0xffff_ffff,
        ;
        assert((g.n_layer * head_dim) * heads <= (0xffff_ffff * 0xffff_ffff) * 0xffff_ffff)
            by (nonlinear_arith)
            requires
                0 <= g.n_layer * head_dim <= 0xffff_ffff * 0xffff_ffff,
                heads <= 0xffff_ffff,
        ;
    }
    let elements: u128 = (g.n_layer as u128 * head_dim as u128) * heads as u128;
    let bytes: u128 = (kv_block_bytes(k) + kv_block_bytes(v)) as u128;
    proof {
        assert(0 <= elements * bytes <= (0xffff_ffff * 0xffff_ffff) * 0xffff_ffff * 256)
            by (nonlinear_arith)
            requires
                0 <= elements <= (0xffff_ffff * 0xffff_ffff) * 0xffff_ffff,
                0 <= bytes <= 256,
        ;
    }
    elements * bytes <= u64::MAX as u128
}

/// The bytes of the cache for one token; `None` for a model without layers or heads.
pub open spec fn token_bytes(g: KvGeometry, k: KvCacheType, v: KvCacheType) -> Option<int> {
    if g.n_head == 0 || g.n_layer == 0 {
        None
    } else {
        Some(kv_elements(g) * (block_bytes(k) + block_bytes(v)) / 32)
    }
}

/// The bytes of the cache for one token.
pub fn kv_bytes_per_token(g: KvGeometry, k: KvCacheType, v: KvCacheType) -> (r: Option<u64>)
    requires
        countable(g, k, v),
    ensures
        (match r {
            Some(n) => Some(n as int),
            None => None,
        }) == token_bytes(g, k, v),
{
    if g.n_head == 0 || g.n_layer == 0 {
        return None;
    }
    let heads: u64 = if g.n_head_kv == 0 {
        g.n_head as u64
    } else {
        g.n_head_kv as u64
    };
    let head_dim: u64 = (g.n_embd / g.n_head) as u64;
    let layers: u64 = g.n_layer as u64;
    let ghost dim = g.n_embd as int / g.n_head as int;
    proof {
        assert(head_dim == dim);
        assert(0 <= layers * dim <= 0xffff_ffff * 0xffff_ffff) by (nonlinear_arith)
            requires
                0 <= layers <= 0xffff_ffff,
                0 <= dim <= 0xffff_ffff,
        ;
    }
    let per_head: u64 = layers * head_dim;
    proof {
        assert(0 <= per_head * heads) by (nonlinear_arith)
            requires
                0 <= per_head,
                0 <= heads,
        ;
        assert(kv_elements(g) == per_head * heads);
    }
    let bytes: u64 = kv_block_bytes(k) + kv_block_bytes(v);
    proof {
        let n = per_head * heads;
        assert(n <= n * bytes) by (nonlinear_arith)
            requires
                0 <= n,
                1 <= bytes,
        ;
    }
    let elements: u64 = per_head * heads;
    proof {
        assert(0 <= elements * bytes) by (nonlinear_arith)
            requires
                0 <= elements,
                0 <= bytes,
        ;
    }
    Some(elements * bytes / 32)
}

/// The largest context that fits: half of the memory, less the weights, in tokens, down to
/// a multiple of 256. `None` where there is no basis for an estimate, or where it is too
/// small to be worth having.
pub open spec fn estimate(
    g: KvGeometry,
    k: KvCacheType,
    v: KvCacheType,
    usable_memory: int,
    model_bytes: int,
) -> Option<int> {
    let budget = usable_memory / AUTO_KV_MEMORY_FRACTION as int - model_bytes;
    match token_bytes(g, k, v) {
        Some(per_token) => if budget <= 0 || per_token <= 0 {
            None
        } else {
            let tokens = budget / per_token / 256 * 256;
            if tokens < FIT_N_CTX_MIN {
                None
            } else if tokens > u32::MAX {
                Some(u32::MAX as int)
            } else {
                Some(tokens)
            }
        },
        None => None,
    }
}

/// The largest context that fits in memory, `None` where none can be estimated.
pub fn estimate_n_ctx(
    g: KvGeometry,
    k: KvCacheType,
    v: KvCacheType,
    usable_memory: u64,
    model_bytes: u64,
) -> (r: Option<u32>)
    requires
        model_bytes <= usable_memory / AUTO_KV_MEMORY_FRACTION ==> countable(g, k, v),
    ensures
        (match r {
            Some(n) => Some(n as int),
            None => None,
        }) == estimate(g, k, v, usable_memory as int, model_bytes as int),
        r matches Some(n) ==> n >= FIT_N_CTX_MIN,
{
    let half: u64 = usable_memory / AUTO_KV_MEMORY_FRACTION;
    if half < model_bytes {
        return None;
    }
    let budget: u64 = half - model_bytes;
    let per_token: u64 = match kv_bytes_per_token(g, k, v) {
        Some(n) => n,
        None => return None,
    };
    if budget == 0 || per_token == 0 {
        return None;
    }
    let tokens: u64 = budget / per_token;
    let whole: u64 = (tokens / 256) * 256;
    if whole < FIT_N_CTX_MIN as u64 {
        return None;
    }
    if whole > 0xffff_ffff {
        return Some(0xffff_ffff);
    }
    Some(whole as u32)
}

/// More memory never means a smaller context; an estimate is a multiple of 256, is never
/// under the floor, and its cache takes no more than half of the memory less the weights.
pub proof fn estimates_grow_with_memory(
    g: KvGeometry,
    k: KvCacheType,
    v: KvCacheType,
    less: int,
    more: int,
    model_bytes: int,
)
    requires
        0 <= less <= more,
        0 <= model_bytes,
        estimate(g, k, v, less, model_bytes) is Some,
    ensures
        estimate(g, k, v, more, model_bytes) is Some,
        estimate(g, k, v, less, model_bytes)->0 <= estimate(g, k, v, more, model_bytes)->0,
        estimate(g, k, v, less, model_bytes)->0 >= FIT_N_CTX_MIN,
        estimate(g, k, v, less, model_bytes)->0 % 256 == 0 || estimate(
            g,
            k,
            v,
            less,
            model_bytes,
        )->0 == u32::MAX,
        estimate(g, k, v, less, model_bytes)->0 * token_bytes(g, k, v)->0 <= less / 2 - model_bytes,
{
    let per = token_bytes(g, k, v)->0;
    let b1 = less / AUTO_KV_MEMORY_FRACTION as int - model_bytes;
    let b2 = more / AUTO_KV_MEMORY_FRACTION as int - model_bytes;
    assert(b1 <= b2);
    assert(b1 / per <= b2 / per) by (nonlinear_arith)
        requires
            0 < b1 <= b2,
            per > 0,
    ;
    let t1 = b1 / per / 256 * 256;
    assert(t1 <= b1 / per);
    assert((b1 / per) * per <= b1) by (nonlinear_arith)
        requires
            0 < b1,
            per > 0,
    ;
    let e = estimate(g, k, v, less, model_bytes)->0;
    assert(e * per <= (b1 / per) * per) by (nonlinear_arith)
        requires
            e <= b1 / per,
            per > 0,
    ;
}

/// An estimate fits: with the weights it takes no more than half of the memory. And it is the
/// largest that does, in steps of 256 tokens, unless it is the largest there is.
pub proof fn estimates_are_the_largest_that_fit(
    g: KvGeometry,
    k: KvCacheType,
    v: KvCacheType,
    usable_memory: int,
    model_bytes: int,
)
    requires
        0 <= usable_memory,
        0 <= model_bytes,
        estimate(g, k, v, usable_memory, model_bytes) is Some,
    ensures
        ({
            let n = estimate(g, k, v, usable_memory, model_bytes)->0;
            let p = token_bytes(g, k, v)->0;
            &&& token_bytes(g, k, v) is Some
            &&& FIT_N_CTX_MIN <= n <= u32::MAX
            &&& model_bytes + n * p <= usable_memory / 2
            &&& n < u32::MAX ==> n % 256 == 0 && model_bytes + (n + 256) * p > usable_memory / 2
        }),
{
    let p = token_bytes(g, k, v)->0;
    let n = estimate(g, k, v, usable_memory, model_bytes)->0;
    let b = usable_memory / AUTO_KV_MEMORY_FRACTION as int - model_bytes;
    estimates_grow_with_memory(g, k, v, usable_memory, usable_memory, model_bytes);
    let q = b / p;
    assert((q + 1) * p > b) by (nonlinear_arith)
        requires
            q == b / p,
            b > 0,
            p > 0,
    ;
    if n < u32::MAX {
        assert(n + 256 >= q + 1);
        assert((n + 256) * p >= (q + 1) * p) by (nonlinear_arith)
            requires
                n + 256 >= q + 1,
                p > 0,
        ;
    }
}

/// There is no estimate exactly where there is no basis for one: the weights alone take half
/// of the memory, the cost of a token is not known or nothing, or what fits is under the
/// floor.
pub proof fn no_estimate_without_a_basis(
    g: KvGeometry,
    k: KvCacheType,
    v: KvCacheType,
    usable_memory: int,
    model_bytes: int,
)
    requires
        0 <= usable_memory,
        0 <= model_bytes,
    ensures
        estimate(g, k, v, usable_memory, model_bytes) is None <==> {
            ||| usable_memory / 2 < model_bytes
            ||| token_bytes(g, k, v) is None
            ||| token_bytes(g, k, v)->0 == 0
            ||| (usable_memory / 2 - model_bytes) / token_bytes(g, k, v)->0 < FIT_N_CTX_MIN
        },
{
    cost_laws(g, k, v);
    if token_bytes(g, k, v) is Some && token_bytes(g, k, v)->0 > 0 && model_bytes <= usable_memory
        / 2 {
        let p = token_bytes(g, k, v)->0;
        let b = usable_memory / 2 - model_bytes;
        if b == 0 {
            assert(b / p == 0) by (nonlinear_arith)
                requires
                    b == 0,
                    p > 0,
            ;
        }
    }
}

/// The cost of a token is known where there are heads and layers, it is never negative, keys
/// and values count alike, and heads that are not known cost as much as all of them.
pub proof fn cost_laws(g: KvGeometry, k: KvCacheType, v: KvCacheType)
    ensures
        token_bytes(g, k, v) is None <==> g.n_head == 0 || g.n_layer == 0,
        token_bytes(g, k, v) is Some ==> token_bytes(g, k, v)->0 >= 0,
        token_bytes(g, k, v) == token_bytes(g, v, k),
        g.n_head_kv == 0 ==> token_bytes(g, k, v) == token_bytes(
            KvGeometry { n_head_kv: g.n_head, ..g },
            k,
            v,
        ),
{
    if g.n_head > 0 && g.n_layer > 0 {
        let dim = g.n_embd as int / g.n_head as int;
        let h = counted_heads(g);
        let n = g.n_layer as int * dim;
        let w = block_bytes(k) + block_bytes(v);
        assert(n >= 0) by (nonlinear_arith)
            requires
                n == g.n_layer as int * dim,
                dim >= 0,
        ;
        let e = n * h;
        assert(e >= 0) by (nonlinear_arith)
            requires
                e == n * h,
                n >= 0,
                h >= 0,
        ;
        assert(e * w >= 0) by (nonlinear_arith)
            requires
                e >= 0,
                w >= 0,
        ;
        assert(kv_elements(g) == e);
    }
}

/// How an embedding model makes one vector of the states of its tokens.
#[derive(Debug, Clone, Copy, PartialEq, Eq, Structural)]
pub enum EmbedPooling {
    Last,
    Mean,
    Cls,
}

impl EmbedPooling {
    /// The way that a name denotes; a name that is not known is `Last`.
    pub open spec fn named(name: Seq<char>) -> EmbedPooling {
        if name == "mean"@ {
            EmbedPooling::Mean
        } else if name == "cls"@ {
            EmbedPooling::Cls
        } else {
            EmbedPooling::Last
        }
    }

    /// Reads a name, whatever its case and the white space around it. A name that is not
    /// known is `Last`.
    pub fn parse(s: &str) -> (r: EmbedPooling)
        ensures
            r == EmbedPooling::named(ascii_lowercase(trimmed(s@))),
    {
        let t = trim(s);
        let n = to_ascii_lowercase(t.as_str());
        if same(n.as_str(), "mean") {
            EmbedPooling::Mean
        } else if same(n.as_str(), "cls") {
            EmbedPooling::Cls
        } else {
            EmbedPooling::Last
        }
    }
}

/// The cache type that a name denotes; a name that is not known is `F16`.
pub open spec fn cache_type_named(name: Seq<char>) -> KvCacheType {
    if name == "f32"@ {
        KvCacheType::F32
    } else if name == "q8_0"@ {
        KvCacheType::Q8_0
    } else if name == "q4_0"@ {
        KvCacheType::Q4_0
    } else if name == "q4_1"@ {
        KvCacheType::Q4_1
    } else if name == "q5_0"@ {
        KvCacheType::Q5_0
    } else if name == "q5_1"@ {
        KvCacheType::Q5_1
    } else {
        KvCacheType::F16
    }
}

/// Reads the name of a cache type, whatever its case and the white space around it. A name
/// that is not known is `F16`, which every backend takes.
pub fn parse_kv_cache_type(s: &str) -> (r: KvCacheType)
    ensures
        r == cache_type_named(ascii_lowercase(trimmed(s@))),
{
    let t = trim(s);
    let n = to_ascii_lowercase(t.as_str());
    if same(n.as_str(), "f32") {
        KvCacheType::F32
    } else if same(n.as_str(), "q8_0") {
        KvCacheType::Q8_0
    } else if same(n.as_str(), "q4_0") {
        KvCacheType::Q4_0
    } else if same(n.as_str(), "q4_1") {
        KvCacheType::Q4_1
    } else if same(n.as_str(), "q5_0") {
        KvCacheType::Q5_0
    } else if same(n.as_str(), "q5_1") {
        KvCacheType::Q5_1
    } else {
        KvCacheType::F16
    }
}

/// Whether the engine is asked to choose the layers: only on a device, and only where none
/// are configured.
pub fn should_fit(on_cpu: bool, configured_n_gpu_layers: i32) -> (r: bool)
    ensures
        r == (!on_cpu && configured_n_gpu_layers < 0),
{
    !on_cpu && configured_n_gpu_layers < 0
}

/// The layers to set before a load.
pub open spec fn layers_v(on_cpu: bool, configured_n_gpu_layers: i32) -> Option<u32> {
    if on_cpu {
        Some(0u32)
    } else if configured_n_gpu_layers >= 0 {
        Some(configured_n_gpu_layers as u32)
    } else {
        None
    }
}

/// The threads to use.
pub open spec fn threads_v(configured: i32, phone_cores: Option<u32>) -> Option<i32> {
    if configured > 0 {
        Some(configured)
    } else {
        match phone_cores {
            Some(n) => Some(
                if n < 4 {
                    n as i32
                } else {
                    4i32
                },
            ),
            None => None,
        }
    }
}

/// A context size, no more than the model was trained on.
pub open spec fn at_most(n: int, n_ctx_train: u32) -> int {
    if n <= n_ctx_train {
        n
    } else {
        n_ctx_train as int
    }
}

/// The size of a loaded model's generation contexts before it is limited to what the model was
/// trained on.
pub open spec fn wanted_n_ctx(cfg: LocalEngineConfig, m: LoadedModel) -> int {
    let k = cache_type_named(ascii_lowercase(trimmed(cfg.cache_type_k@)));
    let v = cache_type_named(ascii_lowercase(trimmed(cfg.cache_type_v@)));
    let e = estimate(m.geometry, k, v, m.usable_memory as int, m.model_bytes as int);
    if cfg.n_ctx > 0 {
        cfg.n_ctx as int
    } else if m.fitted_n_ctx is Some && m.fitted_n_ctx->0 > 0 {
        m.fitted_n_ctx->0 as int
    } else if e is Some {
        e->0
    } else {
        AUTO_N_CTX_FALLBACK as int
    }
}

/// The layers to set before a load: none on the processor, the configured number on a
/// device, and nothing where the engine is asked to choose.
pub fn layers_to_set(on_cpu: bool, configured_n_gpu_layers: i32) -> (r: Option<u32>)
    ensures
        r == layers_v(on_cpu, configured_n_gpu_layers),
        r is None <==> !on_cpu && configured_n_gpu_layers < 0,
{
    if on_cpu {
        Some(0)
    } else if configured_n_gpu_layers >= 0 {
        Some(configured_n_gpu_layers as u32)
    } else {
        None
    }
}

/// The context size that the engine chose: 0 means that it has no opinion.
pub fn fitted_size(fitted: Option<u32>) -> (r: Option<u32>)
    ensures
        r == (match fitted {
            Some(n) => if n > 0 {
                Some(n)
            } else {
                None
            },
            None => None,
        }),
{
    match fitted {
        Some(n) => if n > 0 {
            Some(n)
        } else {
            None
        },
        None => None,
    }
}

/// The context size before it is limited to what the model was trained on.
pub open spec fn requested(configured: u32, fitted: Option<u32>, estimated: Option<u32>) -> u32 {
    if configured > 0 {
        configured
    } else if fitted is Some && fitted->0 > 0 {
        fitted->0
    } else if estimated is Some {
        estimated->0
    } else {
        AUTO_N_CTX_FALLBACK
    }
}

/// The context size: what is configured; for an automatic one what the engine measured,
/// else what was estimated, else the fallback. Never more than the model was trained on.
pub fn resolve_n_ctx(
    configured: u32,
    fitted: Option<u32>,
    estimated: Option<u32>,
    n_ctx_train: u32,
) -> (r: u32)
    ensures
        r == at_most(requested(configured, fitted, estimated) as int, n_ctx_train),
{
    let n: u32 = if configured > 0 {
        configured
    } else {
        match fitted_size(fitted) {
            Some(f) => f,
            None => match estimated {
                Some(e) => e,
                None => AUTO_N_CTX_FALLBACK,
            },
        }
    };
    if n <= n_ctx_train {
        n
    } else {
        n_ctx_train
    }
}

/// An automatic context is never the 0 that asks for it, unless the model was trained on
/// nothing.
pub proof fn automatic_is_never_zero(fitted: Option<u32>, estimated: Option<u32>)
    requires
        estimated matches Some(n) ==> n >= FIT_N_CTX_MIN,
    ensures
        requested(0, fitted, estimated) > 0,
{
}

/// What is known of a loaded model.
pub struct LoadedModel {
    pub geometry: KvGeometry,
    pub usable_memory: u64,
    pub model_bytes: u64,
    pub n_ctx_train: u32,
    pub fitted_n_ctx: Option<u32>,
}

/// The cache of a model has to be counted: its context is automatic, and there is memory left
/// beside the weights.
pub open spec fn estimated(cfg: LocalEngineConfig, m: LoadedModel) -> bool {
    cfg.n_ctx == 0 && m.model_bytes <= m.usable_memory / AUTO_KV_MEMORY_FRACTION
}

/// Whether the cache of a model has to be counted.
pub fn is_estimated(cfg: &LocalEngineConfig, m: &LoadedModel) -> (r: bool)
    ensures
        r == estimated(*cfg, *m),
{
    cfg.n_ctx == 0 && m.model_bytes <= m.usable_memory / AUTO_KV_MEMORY_FRACTION
}

/// The size of a loaded model's generation contexts. An estimate is made only for an
/// automatic size.
pub fn effective_n_ctx(cfg: &LocalEngineConfig, m: &LoadedModel) -> (r: u32)
    requires
        estimated(*cfg, *m) ==> countable(
            m.geometry,
            cache_type_named(ascii_lowercase(trimmed(cfg.cache_type_k@))),
            cache_type_named(ascii_lowercase(trimmed(cfg.cache_type_v@))),
        ),
    ensures
        r == at_most(wanted_n_ctx(*cfg, *m), m.n_ctx_train),
{
    let estimated = if cfg.n_ctx == 0 {
        estimate_n_ctx(
            m.geometry,
            parse_kv_cache_type(cfg.cache_type_k.as_str()),
            parse_kv_cache_type(cfg.cache_type_v.as_str()),
            m.usable_memory,
            m.model_bytes,
        )
    } else {
        None
    };
    resolve_n_ctx(cfg.n_ctx, m.fitted_n_ctx, estimated, m.n_ctx_train)
}

/// The size of a loaded model's embedding contexts.
pub fn embedding_n_ctx(cfg: &LocalEngineConfig, n_ctx_train: u32) -> (r: u32)
    ensures
        r == at_most(cfg.embed_n_ctx as int, n_ctx_train),
{
    if cfg.embed_n_ctx <= n_ctx_train {
        cfg.embed_n_ctx
    } else {
        n_ctx_train
    }
}

/// The threads to use: the configured number; on a phone, whose cores are given, at most
/// four of them; else the engine's own choice.
pub fn resolve_n_threads(configured: i32, phone_cores: Option<u32>) -> (r: Option<i32>)
    ensures
        r == threads_v(configured, phone_cores),
{
    if configured > 0 {
        Some(configured)
    } else {
        match phone_cores {
            Some(n) => if n < 4 {
                Some(n as i32)
            } else {
                Some(4)
            },
            None => None,
        }
    }
}

/// The bytes of a block of each type; one that is not known counts as the widest.
pub proof fn blocks_have_their_sizes()
    ensures
        block_bytes(KvCacheType::F32) == 128,
        block_bytes(KvCacheType::F16) == 64,
        block_bytes(KvCacheType::Q8_0) == 34,
        block_bytes(KvCacheType::Q5_1) == 24,
        block_bytes(KvCacheType::Q5_0) == 22,
        block_bytes(KvCacheType::Q4_1) == 20,
        block_bytes(KvCacheType::Q4_0) == 18,
        block_bytes(KvCacheType::Other) == 128,
{
}

/// A token costs, in each layer and for each head that is kept, the keys and the values of the
/// head's share of the embedding.
pub proof fn a_token_costs_its_keys_and_values(g: KvGeometry, k: KvCacheType, v: KvCacheType, dim: int)
    requires
        g.n_head > 0,
        g.n_layer > 0,
        g.n_head_kv > 0,
        0 <= dim,
        g.n_embd == dim * g.n_head,
    ensures
        token_bytes(g, k, v) == Some(
            g.n_layer * dim * g.n_head_kv * (block_bytes(k) + block_bytes(v)) / 32,
        ),
{
    assert(g.n_embd as int / g.n_head as int == dim) by (nonlinear_arith)
        requires
            g.n_head > 0,
            g.n_embd as int == dim * g.n_head as int,
    ;
}

/// Each type is read from its name, and any other name is the type that every backend takes.
pub proof fn types_have_their_names(name: Seq<char>)
    ensures
        cache_type_named("f32"@) == KvCacheType::F32,
        cache_type_named("f16"@) == KvCacheType::F16,
        cache_type_named("q8_0"@) == KvCacheType::Q8_0,
        cache_type_named("q4_0"@) == KvCacheType::Q4_0,
        cache_type_named("q4_1"@) == KvCacheType::Q4_1,
        cache_type_named("q5_0"@) == KvCacheType::Q5_0,
        cache_type_named("q5_1"@) == KvCacheType::Q5_1,
        name != "f32"@ && name != "q8_0"@ && name != "q4_0"@ && name != "q4_1"@ && name != "q5_0"@
            && name != "q5_1"@ ==> cache_type_named(name) == KvCacheType::F16,
        EmbedPooling::named("mean"@) == EmbedPooling::Mean,
        EmbedPooling::named("cls"@) == EmbedPooling::Cls,
        name != "mean"@ && name != "cls"@ ==> EmbedPooling::named(name) == EmbedPooling::Last,
{
    reveal_strlit("f32");
    reveal_strlit("f16");
    reveal_strlit("q8_0");
    reveal_strlit("q4_0");
    reveal_strlit("q4_1");
    reveal_strlit("q5_0");
    reveal_strlit("q5_1");
    reveal_strlit("mean");
    reveal_strlit("cls");
    assert("f32"@.len() == 3 && "f16"@.len() == 3 && "f32"@[1] == '3' && "f16"@[1] == '1');
    assert("q8_0"@[1] == '8' && "q4_0"@[1] == '4' && "q4_1"@[1] == '4' && "q5_0"@[1] == '5'
        && "q5_1"@[1] == '5' && "q4_0"@[3] == '0' && "q4_1"@[3] == '1' && "q5_0"@[3] == '0'
        && "q5_1"@[3] == '1');
    assert("mean"@.len() == 4 && "cls"@.len() == 3);
}

/// The size of a context is the configured one; an automatic one is what the engine measured,
/// else what was estimated, else the fallback.
pub proof fn the_surest_size_counts(configured: u32, fitted: u32, estimate_made: u32)
    requires
        fitted > 0,
    ensures
        configured > 0 ==> requested(configured, Some(fitted), Some(estimate_made)) == configured,
        configured > 0 ==> requested(configured, None, None) == configured,
        requested(0, Some(fitted), Some(estimate_made)) == fitted,
        requested(0, Some(0), Some(estimate_made)) == estimate_made,
        requested(0, None, Some(estimate_made)) == estimate_made,
        requested(0, None, None) == 4096,
{
}

/// A cache has to be counted just where the size is automatic and the weights leave memory.
pub proof fn automatic_sizes_are_estimated(cfg: LocalEngineConfig, m: LoadedModel)
    ensures
        estimated(cfg, m) <==> cfg.n_ctx == 0 && m.model_bytes <= m.usable_memory / 2,
        countable(m.geometry, KvCacheType::F16, KvCacheType::F16) <==> m.geometry.n_head == 0
            || m.geometry.n_layer == 0 || kv_elements(m.geometry) * 128 <= 0xffff_ffff_ffff_ffff,
{
}

/// The smallest context that an estimate gives is of 2048 tokens.
pub proof fn small_estimates_are_not_made(
    g: KvGeometry,
    k: KvCacheType,
    v: KvCacheType,
    usable_memory: int,
    model_bytes: int,
)
    ensures
        estimate(g, k, v, usable_memory, model_bytes) matches Some(n) ==> 2048 <= n <= 0xffff_ffff,
{
}

/// On the processor no layers are offloaded, on a device those that are configured, and where
/// none are the engine chooses. The threads are those that are configured; on a phone there are
/// at most four, and else the engine chooses. No context is larger than the model was trained on.
pub proof fn layers_threads_and_contexts(n: i32, cores: u32, size: int, n_ctx_train: u32)
    ensures
        layers_v(true, n) == Some(0u32),
        n >= 0 ==> layers_v(false, n) == Some(n as u32),
        n < 0 ==> layers_v(false, n) is None,
        n > 0 ==> threads_v(n, Some(cores)) == Some(n) && threads_v(n, None) == Some(n),
        n <= 0 && cores < 4 ==> threads_v(n, Some(cores)) == Some(cores as i32),
        n <= 0 && cores >= 4 ==> threads_v(n, Some(cores)) == Some(4i32),
        n <= 0 ==> threads_v(n, None) is None,
        at_most(size, n_ctx_train) <= n_ctx_train,
        size <= n_ctx_train ==> at_most(size, n_ctx_train) == size,
        size > n_ctx_train ==> at_most(size, n_ctx_train) == n_ctx_train,
{
}

/// A loaded model's contexts are of the configured size; of the measured one where that is
/// automatic; else of the estimated one, with the cache as it is configured; and else of the
/// fallback.
pub proof fn loaded_models_have_their_context(cfg: LocalEngineConfig, m: LoadedModel, k: KvCacheType, v: KvCacheType)
    requires
        k == cache_type_named(ascii_lowercase(trimmed(cfg.cache_type_k@))),
        v == cache_type_named(ascii_lowercase(trimmed(cfg.cache_type_v@))),
    ensures
        cfg.n_ctx > 0 ==> wanted_n_ctx(cfg, m) == cfg.n_ctx,
        cfg.n_ctx == 0 ==> (m.fitted_n_ctx matches Some(n) ==> (n > 0 ==> wanted_n_ctx(cfg, m) == n)),
        cfg.n_ctx == 0 && m.fitted_n_ctx is None ==> wanted_n_ctx(cfg, m) == (match estimate(
            m.geometry,
            k,
            v,
            m.usable_memory as int,
            m.model_bytes as int,
        ) {
            Some(n) => n,
            None => 4096,
        }),
{
}

} // verus!
