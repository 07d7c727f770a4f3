//! Compressed KV-cache bookkeeping: per-layer storage of compressed keys and
//! values, token counts and memory accounting.
//!
//! The compression itself (sign sketches of keys, polar codes of values) is
//! produced elsewhere; this module stores the compressed records and
//! accounts for them.

use vstd::prelude::*;
use crate::ops::F32Bits;

verus! {

/// Configuration for KV cache compression.
#[derive(Clone, Copy, Debug)]
pub struct KvCompressConfig {
    /// Head dimension (e.g., 128 for most models).
    pub head_dim: usize,
    /// Number of KV heads.
    pub kv_heads: usize,
    /// Number of layers.
    pub num_layers: usize,
    /// Whether to enable compression (can be toggled at runtime).
    pub enabled: bool,
}

/// A compressed key: packed sign bits and the key's norm.
pub struct QjlKey {
    pub signs: Vec<u8>,
    pub norm: F32Bits,
}

/// A compressed value: packed codebook indices and the radius.
pub struct CompressedKV {
    pub indices: Vec<u8>,
    pub radius: u16,
}

/// Per-layer compressed KV cache.
pub struct CompressedKvCache {
    /// Compressed keys per token.
    pub keys: Vec<QjlKey>,
    /// Compressed values per token.
    pub values: Vec<CompressedKV>,
}

/// Runtime KV compressor: one per model.
pub struct KvCompressor {
    pub config: KvCompressConfig,
    caches: Vec<CompressedKvCache>,
}

/// Stored bytes of a run of compressed keys: sign bytes plus four bytes of
/// norm each.
pub open spec fn keys_bytes(keys: Seq<QjlKey>) -> nat
    decreases keys.len(),
{
    if keys.len() == 0 {
        0
    } else {
        keys_bytes(keys.drop_last()) + keys.last().signs@.len() + 4
    }
}

/// Stored bytes of a run of compressed values: index bytes plus two bytes
/// of radius each.
pub open spec fn values_bytes(values: Seq<CompressedKV>) -> nat
    decreases values.len(),
{
    if values.len() == 0 {
        0
    } else {
        values_bytes(values.drop_last()) + values.last().indices@.len() + 2
    }
}

/// Stored bytes of the caches of a run of layers.
pub open spec fn caches_bytes(caches: Seq<CompressedKvCache>) -> nat
    decreases caches.len(),
{
    if caches.len() == 0 {
        0
    } else {
        caches_bytes(caches.drop_last()) + keys_bytes(caches.last().keys@) + values_bytes(
            caches.last().values@,
        )
    }
}

/// Cached tokens (keys) over a run of layers.
pub open spec fn caches_tokens(caches: Seq<CompressedKvCache>) -> nat
    decreases caches.len(),
{
    if caches.len() == 0 {
        0
    } else {
        caches_tokens(caches.drop_last()) + caches.last().keys@.len()
    }
}

proof fn lemma_bytes_prefix_keys(keys: Seq<QjlKey>, i: int)
    requires
        0 <= i <= keys.len(),
    ensures
        keys_bytes(keys.take(i)) <= keys_bytes(keys),
    decreases keys.len() - i,
{
    if i < keys.len() {
        lemma_bytes_prefix_keys(keys, i + 1);
        assert(keys.take(i + 1).drop_last() =~= keys.take(i));
    } else {
        assert(keys.take(i) =~= keys);
    }
}

proof fn lemma_bytes_prefix_values(values: Seq<CompressedKV>, i: int)
    requires
        0 <= i <= values.len(),
    ensures
        values_bytes(values.take(i)) <= values_bytes(values),
    decreases values.len() - i,
{
    if i < values.len() {
        lemma_bytes_prefix_values(values, i + 1);
        assert(values.take(i + 1).drop_last() =~= values.take(i));
    } else {
        assert(values.take(i) =~= values);
    }
}

proof fn lemma_bytes_prefix_caches(caches: Seq<CompressedKvCache>, i: int)
    requires
        0 <= i <= caches.len(),
    ensures
        caches_bytes(caches.take(i)) <= caches_bytes(caches),
        caches_tokens(caches.take(i)) <= caches_tokens(caches),
    decreases caches.len() - i,
{
    if i < caches.len() {
        lemma_bytes_prefix_caches(caches, i + 1);
        assert(caches.take(i + 1).drop_last() =~= caches.take(i));
    } else {
        assert(caches.take(i) =~= caches);
    }
}

/// Cached tokens (keys) in the first `n` layers, layer by layer.
pub open spec fn tokens_in_first(caches: Seq<CompressedKvCache>, n: int) -> nat
    decreases n,
{
    if n <= 0 {
        0
    } else {
        tokens_in_first(caches, n - 1) + caches[n - 1].keys@.len()
    }
}

proof fn lemma_tokens_in_first(caches: Seq<CompressedKvCache>)
    ensures
        caches_tokens(caches) == tokens_in_first(caches, caches.len() as int),
    decreases caches.len(),
{
    if caches.len() > 0 {
        let d = caches.drop_last();
        lemma_tokens_in_first(d);
        assert forall|k: int| 0 <= k <= d.len() implies tokens_in_first(d, k) == tokens_in_first(caches, k) by {
            lemma_tokens_prefix_agree(d, caches, k);
        }
    }
}

proof fn lemma_tokens_prefix_agree(a: Seq<CompressedKvCache>, b: Seq<CompressedKvCache>, k: int)
    requires
        0 <= k <= a.len(),
        k <= b.len(),
        forall|l: int| 0 <= l < k ==> a[l] == b[l],
    ensures
        tokens_in_first(a, k) == tokens_in_first(b, k),
    decreases k,
{
    if k > 0 {
        lemma_tokens_prefix_agree(a, b, k - 1);
    }
}

/// No token cached in any of the layers.
pub open spec fn all_empty(caches: Seq<CompressedKvCache>) -> bool {
    forall|l: int| 0 <= l < caches.len() ==> (#[trigger] caches[l]).keys@.len() == 0 && caches[l].values@.len() == 0
}

/// Empty layers hold no tokens and cost no bytes.
proof fn lemma_empty_caches(caches: Seq<CompressedKvCache>)
    requires
        all_empty(caches),
    ensures
        caches_bytes(caches) == 0,
        caches_tokens(caches) == 0,
    decreases caches.len(),
{
    if caches.len() > 0 {
        assert(all_empty(caches.drop_last())) by {
            assert forall|l: int| 0 <= l < caches.len() - 1 implies (#[trigger] caches.drop_last()[l]).keys@.len() == 0
                && caches.drop_last()[l].values@.len() == 0 by {
                assert(caches.drop_last()[l] == caches[l]);
            }
        }
        lemma_empty_caches(caches.drop_last());
        let last = caches.last();
        assert(caches[caches.len() - 1] == last);
        assert(last.keys@ =~= Seq::<QjlKey>::empty());
        assert(last.values@ =~= Seq::<CompressedKV>::empty());
    }
}

impl KvCompressor {
    /// The compressor holds one cache per configured layer.
    pub open spec fn wf(&self) -> bool {
        self.layers().len() == self.configured().num_layers
    }

    /// After `reset`, every configured layer is empty and the cache holds
    /// no token and costs no byte, compressed or not.
    pub proof fn lemma_reset_is_empty(&self)
        requires
            self.wf(),
            all_empty(self.layers()),
        ensures
            forall|l: int| 0 <= l < self.configured().num_layers ==> (#[trigger] self.layers()[l]).keys@.len() == 0,
            caches_bytes(self.layers()) == 0,
            caches_tokens(self.layers()) == 0,
            caches_tokens(self.layers()) * self.configured().head_dim * 4 == 0,
    {
        lemma_empty_caches(self.layers());
    }

    /// The uncompressed size counts the tokens of every configured layer:
    /// it is four bytes per element of `head_dim` for each token cached at
    /// layers `0 .. num_layers` (what `seq_len` reports for each).
    pub proof fn lemma_uncompressed_counts_layers(&self)
        requires
            self.wf(),
        ensures
            caches_tokens(self.layers()) == tokens_in_first(self.layers(), self.configured().num_layers as int),
    {
        lemma_tokens_in_first(self.layers());
    }

    /// The per-layer caches.
    pub closed spec fn layers(&self) -> Seq<CompressedKvCache> {
        self.caches@
    }

    /// The configuration.
    pub closed spec fn configured(&self) -> KvCompressConfig {
        self.config
    }

    /// A compressor with one empty cache per layer.
    pub fn new(config: KvCompressConfig) -> (r: Self)
        ensures
            r.wf(),
            r.configured() == config,
            r.layers().len() == config.num_layers,
            forall|l: int| 0 <= l < config.num_layers ==> (#[trigger] r.layers()[l]).keys@.len() == 0
                && r.layers()[l].values@.len() == 0,
    {
        let mut caches: Vec<CompressedKvCache> = Vec::new();
        let mut i: usize = 0;
        while i < config.num_layers
            invariant
                i <= config.num_layers,
                caches@.len() == i,
                forall|l: int| 0 <= l < i ==> (#[trigger] caches@[l]).keys@.len() == 0 && caches@[l].values@.len() == 0,
            decreases config.num_layers - i,
        {
            caches.push(CompressedKvCache { keys: Vec::new(), values: Vec::new() });
            i = i + 1;
        }
        KvCompressor { config, caches }
    }

    /// Store a compressed key at `layer`.
    pub fn store_key(&mut self, layer: usize, k: QjlKey)
        requires
            layer < old(self).layers().len(),
        ensures
            final(self).configured() == old(self).configured(),
            final(self).layers().len() == old(self).layers().len(),
            final(self).layers()[layer as int].keys@ == old(self).layers()[layer as int].keys@.push(k),
            final(self).layers()[layer as int].values == old(self).layers()[layer as int].values,
            forall|l: int| 0 <= l < old(self).layers().len() && l != layer ==> #[trigger] final(self).layers()[l]
                == old(self).layers()[l],
    {
        let mut caches: Vec<CompressedKvCache> = Vec::new();
        std::mem::swap(&mut caches, &mut self.caches);
        let mut c = caches.remove(layer);
        c.keys.push(k);
        caches.insert(layer, c);
        self.caches = caches;
        proof {
            assert forall|l: int| 0 <= l < old(self).layers().len() && l != layer implies #[trigger] self.layers()[l]
                == old(self).layers()[l] by {}
        }
    }

    /// Store a compressed value at `layer`.
    pub fn store_value(&mut self, layer: usize, v: CompressedKV)
        requires
            layer < old(self).layers().len(),
        ensures
            final(self).configured() == old(self).configured(),
            final(self).layers().len() == old(self).layers().len(),
            final(self).layers()[layer as int].values@ == old(self).layers()[layer as int].values@.push(v),
            final(self).layers()[layer as int].keys == old(self).layers()[layer as int].keys,
            forall|l: int| 0 <= l < old(self).layers().len() && l != layer ==> #[trigger] final(self).layers()[l]
                == old(self).layers()[l],
    {
        let mut caches: Vec<CompressedKvCache> = Vec::new();
        std::mem::swap(&mut caches, &mut self.caches);
        let mut c = caches.remove(layer);
        c.values.push(v);
        caches.insert(layer, c);
        self.caches = caches;
    }

    /// Number of cached tokens at a layer.
    pub fn seq_len(&self, layer: usize) -> (r: usize)
        requires
            layer < self.layers().len(),
        ensures
            r == self.layers()[layer as int].keys@.len(),
    {
        self.caches[layer].keys.len()
    }

    /// Reset the cache (new generation): every layer empty, layers kept.
    pub fn reset(&mut self)
        ensures
            final(self).configured() == old(self).configured(),
            final(self).layers().len() == old(self).layers().len(),
            forall|l: int| 0 <= l < final(self).layers().len() ==> (#[trigger] final(self).layers()[l]).keys@.len()
                == 0 && final(self).layers()[l].values@.len() == 0,
            all_empty(final(self).layers()),
            old(self).wf() ==> final(self).wf(),
    {
        let n = self.caches.len();
        let mut fresh: Vec<CompressedKvCache> = Vec::new();
        let mut i: usize = 0;
        while i < n
            invariant
                i <= n,
                fresh@.len() == i,
                forall|l: int| 0 <= l < i ==> (#[trigger] fresh@[l]).keys@.len() == 0 && fresh@[l].values@.len() == 0,
            decreases n - i,
        {
            fresh.push(CompressedKvCache { keys: Vec::new(), values: Vec::new() });
            i = i + 1;
        }
        self.caches = fresh;
    }

    /// Memory usage in bytes of the compressed cache.
    pub fn memory_bytes(&self) -> (r: usize)
        requires
            caches_bytes(self.layers()) <= usize::MAX,
        ensures
            r == caches_bytes(self.layers()),
    {
        let mut total: usize = 0;
        let mut l: usize = 0;
        while l < self.caches.len()
            invariant
                l <= self.caches@.len(),
                caches_bytes(self.caches@) <= usize::MAX,
                total == caches_bytes(self.caches@.take(l as int)),
            decreases self.caches@.len() - l,
        {
            let cache = &self.caches[l];
            proof {
                assert(self.caches@.take(l + 1).drop_last() =~= self.caches@.take(l as int));
                lemma_bytes_prefix_caches(self.caches@, l + 1);
            }
            let mut k: usize = 0;
            let ghost base = total;
            while k < cache.keys.len()
                invariant
                    k <= cache.keys@.len(),
                    base + keys_bytes(cache.keys@) + values_bytes(cache.values@) <= usize::MAX,
                    total == base + keys_bytes(cache.keys@.take(k as int)),
                decreases cache.keys@.len() - k,
            {
                proof {
                    assert(cache.keys@.take(k + 1).drop_last() =~= cache.keys@.take(k as int));
                    lemma_bytes_prefix_keys(cache.keys@, k + 1);
                }
                total = total + cache.keys[k].signs.len() + 4;
                k = k + 1;
            }
            proof {
                assert(cache.keys@.take(k as int) =~= cache.keys@);
            }
            let ghost mid = total;
            let mut j: usize = 0;
            while j < cache.values.len()
                invariant
                    j <= cache.values@.len(),
                    mid + values_bytes(cache.values@) <= usize::MAX,
                    total == mid + values_bytes(cache.values@.take(j as int)),
                decreases cache.values@.len() - j,
            {
                proof {
                    assert(cache.values@.take(j + 1).drop_last() =~= cache.values@.take(j as int));
                    lemma_bytes_prefix_values(cache.values@, j + 1);
                }
                total = total + cache.values[j].indices.len() + 2;
                j = j + 1;
            }
            proof {
                assert(cache.values@.take(j as int) =~= cache.values@);
            }
            l = l + 1;
        }
        proof {
            assert(self.caches@.take(l as int) =~= self.caches@);
        }
        total
    }

    /// What the same cache would cost uncompressed in f16: keys and values,
    /// two bytes per element.
    pub fn uncompressed_bytes(&self) -> (r: usize)
        requires
            caches_tokens(self.layers()) <= usize::MAX,
            caches_tokens(self.layers()) * self.configured().head_dim * 4 <= usize::MAX,
        ensures
            r == caches_tokens(self.layers()) * self.configured().head_dim * 4,
    {
        let mut tokens: usize = 0;
        let mut l: usize = 0;
        while l < self.caches.len()
            invariant
                l <= self.caches@.len(),
                caches_tokens(self.caches@) <= usize::MAX,
                tokens == caches_tokens(self.caches@.take(l as int)),
            decreases self.caches@.len() - l,
        {
            proof {
                assert(self.caches@.take(l + 1).drop_last() =~= self.caches@.take(l as int));
                lemma_bytes_prefix_caches(self.caches@, l + 1);
            }
            tokens = tokens + self.caches[l].keys.len();
            l = l + 1;
        }
        proof {
            assert(self.caches@.take(l as int) =~= self.caches@);
        }
        tokens * self.config.head_dim * 2 * 2
    }
}

} // verus!
