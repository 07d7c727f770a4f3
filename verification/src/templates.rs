//! Architecture templates: graph IR for common model architectures, from
//! a configuration (template + config = concrete graph).

use vstd::prelude::*;
use crate::dtype::DType;
use crate::graph::{AttrValue, Attrs, Dim, Graph, Node, Residency, TensorMeta};
use crate::namemap::NameMap;
use crate::ops::{same_op, F32Bits, InterpolateMode, Op};
use crate::text::{append_decimal, append_str, owned, spec_decimal};

verus! {

/// Activation function of the feed-forward block.
#[derive(Clone, Copy, Debug, PartialEq, Eq, Structural)]
pub enum Activation {
    Silu,
    Gelu,
    GeGlu,
}

/// Configuration for transformer models.
#[derive(Clone, Copy, Debug)]
pub struct TransformerConfig {
    pub hidden_size: usize,
    pub num_heads: usize,
    pub kv_num_heads: usize,
    pub head_dim: usize,
    pub num_layers: usize,
    pub intermediate_size: usize,
    pub vocab_size: usize,
    /// Norm epsilon (IEEE-754 bits).
    pub eps: F32Bits,
    /// RoPE base (IEEE-754 bits).
    pub rope_theta: F32Bits,
    pub max_seq_len: usize,
    pub activation: Activation,
}

impl Default for TransformerConfig {
    /// LLaMA-7B-like defaults: 4096 hidden, 32 heads (8 KV heads) of 128,
    /// 32 layers, 11008 intermediate, 32000 vocabulary, eps 1e-5, RoPE base
    /// 10000, 4096 positions, SiLU.
    fn default() -> (r: Self)
        ensures
            r.hidden_size == 4096 && r.num_heads == 32 && r.kv_num_heads == 8 && r.head_dim == 128,
            r.num_layers == 32 && r.intermediate_size == 11008 && r.vocab_size == 32000,
            r.eps == F32Bits(0x3727c5ac) && r.rope_theta == F32Bits(0x461c4000),
            r.max_seq_len == 4096 && r.activation == Activation::Silu,
    {
        TransformerConfig {
            hidden_size: 4096,
            num_heads: 32,
            kv_num_heads: 8,
            head_dim: 128,
            num_layers: 32,
            intermediate_size: 11008,
            vocab_size: 32000,
            eps: F32Bits(0x3727c5ac),
            rope_theta: F32Bits(0x461c4000),
            max_seq_len: 4096,
            activation: Activation::Silu,
        }
    }
}

// ---- Names and attributes ----

/// `head`, the decimal `i`, then `tail`.
pub open spec fn indexed_name(head: Seq<char>, i: nat, tail: Seq<char>) -> Seq<char> {
    head + spec_decimal(i) + tail
}

/// Build `head`, the decimal `i`, then `tail`.
pub fn indexed(head: &str, i: usize, tail: &str) -> (r: String)
    ensures
        r@ == indexed_name(head@, i as nat, tail@),
{
    let mut s = owned(head);
    append_decimal(&mut s, i);
    append_str(&mut s, tail);
    s
}

/// The character views of a list of names.
pub open spec fn names(v: Seq<String>) -> Seq<Seq<char>> {
    v.map_values(|s: String| s@)
}

/// One and two pairs give the expected maps.
proof fn lemma_int_attrs_small(k1: Seq<char>, v1: i64, k2: Seq<char>, v2: i64)
    ensures
        int_attrs(seq![(k1, v1)]) == Map::<Seq<char>, AttrValue>::empty().insert(k1, AttrValue::Int(v1)),
        int_attrs(seq![(k1, v1), (k2, v2)]) == Map::<Seq<char>, AttrValue>::empty().insert(k1, AttrValue::Int(v1)).insert(k2, AttrValue::Int(v2)),
{
    let e = Seq::<(Seq<char>, i64)>::empty();
    assert(int_attrs(e) == Map::<Seq<char>, AttrValue>::empty());
    assert(seq![(k1, v1)].drop_last() =~= e);
    assert(int_attrs(seq![(k1, v1)]) =~= Map::<Seq<char>, AttrValue>::empty().insert(k1, AttrValue::Int(v1)));
    assert(seq![(k1, v1), (k2, v2)].drop_last() =~= seq![(k1, v1)]);
}

/// Integer attributes from (key, value) pairs, a later pair replacing an
/// earlier one with the same key.
pub open spec fn int_attrs(pairs: Seq<(Seq<char>, i64)>) -> Map<Seq<char>, AttrValue>
    decreases pairs.len(),
{
    if pairs.len() == 0 {
        Map::empty()
    } else {
        int_attrs(pairs.drop_last()).insert(pairs.last().0, AttrValue::Int(pairs.last().1))
    }
}

/// The pairs with their keys as character sequences.
pub open spec fn pair_views(pairs: Seq<(&str, i64)>) -> Seq<(Seq<char>, i64)> {
    pairs.map_values(|p: (&str, i64)| (p.0@, p.1))
}

/// Build an attribute map from `(key, integer)` pairs.
pub fn make_attrs(pairs: &[(&str, i64)]) -> (m: Attrs)
    ensures
        m@ == int_attrs(pair_views(pairs@)),
{
    let mut m: Attrs = NameMap::new();
    let mut i: usize = 0;
    while i < pairs.len()
        invariant
            i <= pairs@.len(),
            m@ == int_attrs(pair_views(pairs@).take(i as int)),
        decreases pairs@.len() - i,
    {
        let (k, v) = pairs[i];
        m.insert(owned(k), AttrValue::Int(v));
        proof {
            assert(pair_views(pairs@).take(i + 1).drop_last() =~= pair_views(pairs@).take(i as int));
        }
        i = i + 1;
    }
    proof {
        assert(pair_views(pairs@).take(i as int) =~= pair_views(pairs@));
    }
    m
}

/// `n` is node `id` with the given op, input names and output names.
pub open spec fn node_is(n: Node, id: int, op: Op, ins: Seq<Seq<char>>, outs: Seq<Seq<char>>) -> bool {
    &&& n.id == id
    &&& n.op == op
    &&& names(n.inputs@) == ins
    &&& names(n.outputs@) == outs
    &&& n.backend_hint is None
}

/// A node with no backend hint.
fn mk_node(id: usize, op: Op, inputs: Vec<String>, outputs: Vec<String>, attrs: Attrs) -> (n: Node)
    ensures
        node_is(n, id as int, op, names(inputs@), names(outputs@)),
        n.attrs == attrs,
{
    Node { id, op, inputs, outputs, attrs, backend_hint: None }
}

/// Two names as a list.
fn two(a: String, b: String) -> (v: Vec<String>)
    ensures
        names(v@) == seq![a@, b@],
{
    let v = vec![a, b];
    proof {
        assert(names(v@) =~= seq![a@, b@]);
    }
    v
}

/// One name as a list.
fn one(a: String) -> (v: Vec<String>)
    ensures
        names(v@) == seq![a@],
{
    let v = vec![a];
    proof {
        assert(names(v@) =~= seq![a@]);
    }
    v
}

/// Append the nodes of `layer` to the graph.
fn append_nodes(g: &mut Graph, layer: Vec<Node>)
    ensures
        final(g).nodes@ == old(g).nodes@ + layer@,
        final(g).tensors == old(g).tensors,
        final(g).weights == old(g).weights,
{
    let mut layer = layer;
    g.nodes.append(&mut layer);
}

// ---- Decoder for the executor ----

/// `layer_<i><tail>`.
pub open spec fn lname(i: nat, tail: Seq<char>) -> Seq<char> {
    indexed_name("layer_"@, i, tail)
}

/// `model.layers.<i><tail>` (HuggingFace weight names).
pub open spec fn hfname(i: nat, tail: Seq<char>) -> Seq<char> {
    indexed_name("model.layers."@, i, tail)
}

/// Nodes per decoder layer: 17, or 16 with the fused GeGLU.
pub open spec fn exec_layer_len(act: Activation) -> nat {
    if act == Activation::GeGlu {
        16
    } else {
        17
    }
}

/// The hidden state entering layer `i`.
pub open spec fn layer_input(i: nat) -> Seq<char> {
    if i == 0 {
        "embed_out"@
    } else {
        lname((i - 1) as nat, ".residual2"@)
    }
}

/// The nodes `nodes[base..]` are decoder layer `i` for the executor:
/// RMS norm, separate Q/K/V projections, RoPE on Q and K, the KV cache on
/// K, attention (V named by the `v_tensor` attribute), output projection,
/// residual, RMS norm, gate and up projections, the activation gate, down
/// projection and residual; HuggingFace weight names; size attributes.
pub open spec fn exec_layer_is(nodes: Seq<Node>, base: int, i: nat, c: TransformerConfig) -> bool {
    let hidden = c.hidden_size as i64;
    let inter = c.intermediate_size as i64;
    let q_dim = (c.num_heads * c.head_dim) as i64;
    let kv_dim = (c.kv_num_heads * c.head_dim) as i64;
    let rope = Op::Rope { head_dim: c.head_dim as u32, base: c.rope_theta };
    let last = base + exec_layer_len(c.activation);
    &&& node_is(nodes[base], base, Op::RmsNorm { eps: c.eps }, seq![layer_input(i), hfname(i, ".input_layernorm.weight"@)], seq![lname(i, ".attn_norm_out"@)])
    &&& nodes[base].attrs@ == int_attrs(seq![("hidden"@, hidden), ("positions"@, 1i64)])
    &&& node_is(nodes[base + 1], base + 1, Op::Matmul, seq![lname(i, ".attn_norm_out"@), hfname(i, ".self_attn.q_proj.weight"@)], seq![lname(i, ".q_out"@)])
    &&& nodes[base + 1].attrs@ == int_attrs(seq![("n"@, q_dim), ("k"@, hidden)])
    &&& node_is(nodes[base + 2], base + 2, Op::Matmul, seq![lname(i, ".attn_norm_out"@), hfname(i, ".self_attn.k_proj.weight"@)], seq![lname(i, ".k_out"@)])
    &&& nodes[base + 2].attrs@ == int_attrs(seq![("n"@, kv_dim), ("k"@, hidden)])
    &&& node_is(nodes[base + 3], base + 3, Op::Matmul, seq![lname(i, ".attn_norm_out"@), hfname(i, ".self_attn.v_proj.weight"@)], seq![lname(i, ".v_out"@)])
    &&& nodes[base + 3].attrs@ == int_attrs(seq![("n"@, kv_dim), ("k"@, hidden)])
    &&& node_is(nodes[base + 4], base + 4, rope, seq![lname(i, ".q_out"@)], seq![lname(i, ".q_roped"@)])
    &&& nodes[base + 4].attrs@ == int_attrs(seq![("total_elements"@, q_dim), ("n"@, q_dim)])
    &&& node_is(nodes[base + 5], base + 5, rope, seq![lname(i, ".k_out"@)], seq![lname(i, ".k_roped"@)])
    &&& nodes[base + 5].attrs@ == int_attrs(seq![("total_elements"@, kv_dim), ("n"@, kv_dim)])
    &&& node_is(nodes[base + 6], base + 6, Op::KvCache, seq![lname(i, ".k_roped"@)], seq![lname(i, ".kv_cached"@)])
    &&& nodes[base + 6].attrs@ == Map::<Seq<char>, AttrValue>::empty()
    &&& node_is(nodes[base + 7], base + 7, Op::Sdpa { num_heads: c.num_heads as u32, kv_heads: c.kv_num_heads as u32, head_dim: c.head_dim as u32, causal: true }, seq![lname(i, ".q_roped"@), lname(i, ".kv_cached"@)], seq![lname(i, ".attn_out"@)])
    &&& nodes[base + 7].attrs@.dom() == set!["hidden"@, "v_tensor"@]
    &&& nodes[base + 7].attrs@["hidden"@] == AttrValue::Int(hidden)
    &&& (nodes[base + 7].attrs@["v_tensor"@] matches AttrValue::String(v) && v@ == lname(i, ".v_out"@))
    &&& node_is(nodes[base + 8], base + 8, Op::Matmul, seq![lname(i, ".attn_out"@), hfname(i, ".self_attn.o_proj.weight"@)], seq![lname(i, ".o_proj_out"@)])
    &&& nodes[base + 8].attrs@ == int_attrs(seq![("n"@, hidden), ("k"@, q_dim)])
    &&& node_is(nodes[base + 9], base + 9, Op::Add, seq![layer_input(i), lname(i, ".o_proj_out"@)], seq![lname(i, ".residual1"@)])
    &&& nodes[base + 9].attrs@ == int_attrs(seq![("n"@, hidden)])
    &&& node_is(nodes[base + 10], base + 10, Op::RmsNorm { eps: c.eps }, seq![lname(i, ".residual1"@), hfname(i, ".post_attention_layernorm.weight"@)], seq![lname(i, ".ffn_norm_out"@)])
    &&& nodes[base + 10].attrs@ == int_attrs(seq![("hidden"@, hidden), ("positions"@, 1i64)])
    &&& node_is(nodes[base + 11], base + 11, Op::Matmul, seq![lname(i, ".ffn_norm_out"@), hfname(i, ".mlp.gate_proj.weight"@)], seq![lname(i, ".gate_out"@)])
    &&& nodes[base + 11].attrs@ == int_attrs(seq![("n"@, inter), ("k"@, hidden)])
    &&& node_is(nodes[base + 12], base + 12, Op::Matmul, seq![lname(i, ".ffn_norm_out"@), hfname(i, ".mlp.up_proj.weight"@)], seq![lname(i, ".up_out"@)])
    &&& nodes[base + 12].attrs@ == int_attrs(seq![("n"@, inter), ("k"@, hidden)])
    &&& (c.activation == Activation::Silu ==> {
        &&& node_is(nodes[base + 13], base + 13, Op::Silu, seq![lname(i, ".gate_out"@)], seq![lname(i, ".silu_out"@)])
        &&& nodes[base + 13].attrs@ == int_attrs(seq![("n"@, inter)])
        &&& node_is(nodes[base + 14], base + 14, Op::Mul, seq![lname(i, ".silu_out"@), lname(i, ".up_out"@)], seq![lname(i, ".act_out"@)])
        &&& nodes[base + 14].attrs@ == int_attrs(seq![("n"@, inter)])
    })
    &&& (c.activation == Activation::Gelu ==> {
        &&& node_is(nodes[base + 13], base + 13, Op::Gelu { approximate: false }, seq![lname(i, ".gate_out"@)], seq![lname(i, ".gelu_out"@)])
        &&& nodes[base + 13].attrs@ == int_attrs(seq![("n"@, inter)])
        &&& node_is(nodes[base + 14], base + 14, Op::Mul, seq![lname(i, ".gelu_out"@), lname(i, ".up_out"@)], seq![lname(i, ".act_out"@)])
        &&& nodes[base + 14].attrs@ == int_attrs(seq![("n"@, inter)])
    })
    &&& (c.activation == Activation::GeGlu ==> {
        &&& node_is(nodes[base + 13], base + 13, Op::GeGlu, seq![lname(i, ".gate_out"@), lname(i, ".up_out"@)], seq![lname(i, ".act_out"@)])
        &&& nodes[base + 13].attrs@ == int_attrs(seq![("n"@, inter)])
    })
    &&& node_is(nodes[last - 2], last - 2, Op::Matmul, seq![lname(i, ".act_out"@), hfname(i, ".mlp.down_proj.weight"@)], seq![lname(i, ".down_out"@)])
    &&& nodes[last - 2].attrs@ == int_attrs(seq![("n"@, hidden), ("k"@, inter)])
    &&& node_is(nodes[last - 1], last - 1, Op::Add, seq![lname(i, ".residual1"@), lname(i, ".down_out"@)], seq![lname(i, ".residual2"@)])
    &&& nodes[last - 1].attrs@ == int_attrs(seq![("n"@, hidden)])
}

/// A layer description only reads its own nodes.
proof fn lemma_exec_layer_prefix(a: Seq<Node>, b: Seq<Node>, base: int, i: nat, c: TransformerConfig)
    requires
        0 <= base,
        base + exec_layer_len(c.activation) <= a.len(),
        a.len() <= b.len(),
        forall|j: int| 0 <= j < a.len() ==> #[trigger] b[j] == a[j],
        exec_layer_is(a, base, i, c),
    ensures
        exec_layer_is(b, base, i, c),
{
    let last = base + exec_layer_len(c.activation);
    assert(b[base] == a[base]);
    assert(b[base + 1] == a[base + 1]);
    assert(b[base + 2] == a[base + 2]);
    assert(b[base + 3] == a[base + 3]);
    assert(b[base + 4] == a[base + 4]);
    assert(b[base + 5] == a[base + 5]);
    assert(b[base + 6] == a[base + 6]);
    assert(b[base + 7] == a[base + 7]);
    assert(b[base + 8] == a[base + 8]);
    assert(b[base + 9] == a[base + 9]);
    assert(b[base + 10] == a[base + 10]);
    assert(b[base + 11] == a[base + 11]);
    assert(b[base + 12] == a[base + 12]);
    assert(b[base + 13] == a[base + 13]);
    assert(b[last - 2] == a[last - 2]);
    assert(b[last - 1] == a[last - 1]);
    if c.activation != Activation::GeGlu {
        assert(b[base + 14] == a[base + 14]);
    }
}

/// Attributes with one integer.
fn attrs1(k: &str, v: i64) -> (m: Attrs)
    ensures
        m@ == int_attrs(seq![(k@, v)]),
{
    let pairs = [(k, v)];
    let m = make_attrs(&pairs);
    proof {
        assert(pair_views(pairs@) =~= seq![(k@, v)]);
    }
    m
}

/// Attributes with two integers.
fn attrs2(k1: &str, v1: i64, k2: &str, v2: i64) -> (m: Attrs)
    ensures
        m@ == int_attrs(seq![(k1@, v1), (k2@, v2)]),
{
    let pairs = [(k1, v1), (k2, v2)];
    let m = make_attrs(&pairs);
    proof {
        assert(pair_views(pairs@) =~= seq![(k1@, v1), (k2@, v2)]);
    }
    m
}

/// The sizes a decoder template needs fit in `usize`.
pub open spec fn sizes_fit(c: TransformerConfig) -> bool {
    &&& c.num_heads * c.head_dim <= usize::MAX
    &&& c.kv_num_heads * c.head_dim <= usize::MAX
    &&& 3 + c.num_layers * 17 <= usize::MAX
}

/// Append decoder layer `i` (for the executor) to the graph.
fn push_exec_layer(g: &mut Graph, c: &TransformerConfig, i: usize)
    requires
        sizes_fit(*c),
        old(g).nodes@.len() + 17 <= usize::MAX,
    ensures
        final(g).nodes@.len() == old(g).nodes@.len() + exec_layer_len(c.activation),
        forall|j: int| 0 <= j < old(g).nodes@.len() ==> #[trigger] final(g).nodes@[j] == old(g).nodes@[j],
        exec_layer_is(final(g).nodes@, old(g).nodes@.len() as int, i as nat, *c),
        final(g).weights == old(g).weights,
        final(g).tensors@ == old(g).tensors@.insert(lname(i as nat, ".kv_cached"@), TensorMeta {
            shape: final(g).tensors@[lname(i as nat, ".kv_cached"@)].shape,
            dtype: DType::F32,
            residency: Residency::Cached,
        }),
{
    let base = g.nodes.len();
    let hidden = c.hidden_size as i64;
    let inter = c.intermediate_size as i64;
    let q_dim = (c.num_heads * c.head_dim) as i64;
    let kv_dim_u = c.kv_num_heads * c.head_dim;
    let kv_dim = kv_dim_u as i64;
    let prev: String = if i == 0 {
        owned("embed_out")
    } else {
        indexed("layer_", i - 1, ".residual2")
    };
    let mut layer: Vec<Node> = Vec::new();
    layer.push(mk_node(base, Op::RmsNorm { eps: c.eps },
        two(owned(prev.as_str()), indexed("model.layers.", i, ".input_layernorm.weight")),
        one(indexed("layer_", i, ".attn_norm_out")), attrs2("hidden", hidden, "positions", 1)));
    layer.push(mk_node(base + 1, Op::Matmul,
        two(indexed("layer_", i, ".attn_norm_out"), indexed("model.layers.", i, ".self_attn.q_proj.weight")),
        one(indexed("layer_", i, ".q_out")), attrs2("n", q_dim, "k", hidden)));
    layer.push(mk_node(base + 2, Op::Matmul,
        two(indexed("layer_", i, ".attn_norm_out"), indexed("model.layers.", i, ".self_attn.k_proj.weight")),
        one(indexed("layer_", i, ".k_out")), attrs2("n", kv_dim, "k", hidden)));
    layer.push(mk_node(base + 3, Op::Matmul,
        two(indexed("layer_", i, ".attn_norm_out"), indexed("model.layers.", i, ".self_attn.v_proj.weight")),
        one(indexed("layer_", i, ".v_out")), attrs2("n", kv_dim, "k", hidden)));
    layer.push(mk_node(base + 4, Op::Rope { head_dim: c.head_dim as u32, base: c.rope_theta },
        one(indexed("layer_", i, ".q_out")),
        one(indexed("layer_", i, ".q_roped")), attrs2("total_elements", q_dim, "n", q_dim)));
    layer.push(mk_node(base + 5, Op::Rope { head_dim: c.head_dim as u32, base: c.rope_theta },
        one(indexed("layer_", i, ".k_out")),
        one(indexed("layer_", i, ".k_roped")), attrs2("total_elements", kv_dim, "n", kv_dim)));
    layer.push(mk_node(base + 6, Op::KvCache,
        one(indexed("layer_", i, ".k_roped")),
        one(indexed("layer_", i, ".kv_cached")), NameMap::new()));
    let mut sdpa_attrs = attrs1("hidden", hidden);
    sdpa_attrs.insert(owned("v_tensor"), AttrValue::String(indexed("layer_", i, ".v_out")));
    proof {
        lemma_int_attrs_small("hidden"@, hidden, "hidden"@, hidden);
        reveal_strlit("hidden");
        reveal_strlit("v_tensor");
        assert("hidden"@.len() != "v_tensor"@.len());
        assert("hidden"@ != "v_tensor"@);
        assert(sdpa_attrs@.dom() =~= set!["hidden"@, "v_tensor"@]);
        assert(sdpa_attrs@["hidden"@] == AttrValue::Int(hidden));
    }
    layer.push(mk_node(base + 7, Op::Sdpa {
            num_heads: c.num_heads as u32,
            kv_heads: c.kv_num_heads as u32,
            head_dim: c.head_dim as u32,
            causal: true,
        },
        two(indexed("layer_", i, ".q_roped"), indexed("layer_", i, ".kv_cached")),
        one(indexed("layer_", i, ".attn_out")), sdpa_attrs));
    layer.push(mk_node(base + 8, Op::Matmul,
        two(indexed("layer_", i, ".attn_out"), indexed("model.layers.", i, ".self_attn.o_proj.weight")),
        one(indexed("layer_", i, ".o_proj_out")), attrs2("n", hidden, "k", q_dim)));
    layer.push(mk_node(base + 9, Op::Add,
        two(prev, indexed("layer_", i, ".o_proj_out")),
        one(indexed("layer_", i, ".residual1")), attrs1("n", hidden)));
    layer.push(mk_node(base + 10, Op::RmsNorm { eps: c.eps },
        two(indexed("layer_", i, ".residual1"), indexed("model.layers.", i, ".post_attention_layernorm.weight")),
        one(indexed("layer_", i, ".ffn_norm_out")), attrs2("hidden", hidden, "positions", 1)));
    layer.push(mk_node(base + 11, Op::Matmul,
        two(indexed("layer_", i, ".ffn_norm_out"), indexed("model.layers.", i, ".mlp.gate_proj.weight")),
        one(indexed("layer_", i, ".gate_out")), attrs2("n", inter, "k", hidden)));
    layer.push(mk_node(base + 12, Op::Matmul,
        two(indexed("layer_", i, ".ffn_norm_out"), indexed("model.layers.", i, ".mlp.up_proj.weight")),
        one(indexed("layer_", i, ".up_out")), attrs2("n", inter, "k", hidden)));
    let mut next: usize = base + 13;
    match c.activation {
        Activation::Silu => {
            layer.push(mk_node(base + 13, Op::Silu,
                one(indexed("layer_", i, ".gate_out")),
                one(indexed("layer_", i, ".silu_out")), attrs1("n", inter)));
            layer.push(mk_node(base + 14, Op::Mul,
                two(indexed("layer_", i, ".silu_out"), indexed("layer_", i, ".up_out")),
                one(indexed("layer_", i, ".act_out")), attrs1("n", inter)));
            next = base + 15;
        },
        Activation::Gelu => {
            layer.push(mk_node(base + 13, Op::Gelu { approximate: false },
                one(indexed("layer_", i, ".gate_out")),
                one(indexed("layer_", i, ".gelu_out")), attrs1("n", inter)));
            layer.push(mk_node(base + 14, Op::Mul,
                two(indexed("layer_", i, ".gelu_out"), indexed("layer_", i, ".up_out")),
                one(indexed("layer_", i, ".act_out")), attrs1("n", inter)));
            next = base + 15;
        },
        Activation::GeGlu => {
            layer.push(mk_node(base + 13, Op::GeGlu,
                two(indexed("layer_", i, ".gate_out"), indexed("layer_", i, ".up_out")),
                one(indexed("layer_", i, ".act_out")), attrs1("n", inter)));
            next = base + 14;
        },
    }
    layer.push(mk_node(next, Op::Matmul,
        two(indexed("layer_", i, ".act_out"), indexed("model.layers.", i, ".mlp.down_proj.weight")),
        one(indexed("layer_", i, ".down_out")), attrs2("n", hidden, "k", inter)));
    layer.push(mk_node(next + 1, Op::Add,
        two(indexed("layer_", i, ".residual1"), indexed("layer_", i, ".down_out")),
        one(indexed("layer_", i, ".residual2")), attrs1("n", hidden)));
    let ghost pre = g.nodes@;
    append_nodes(g, layer);
    let dims = vec![Dim::Dynamic(owned("total_seq")), Dim::Fixed(kv_dim_u)];
    g.add_tensor(indexed("layer_", i, ".kv_cached"), TensorMeta { shape: dims, dtype: DType::F32, residency: Residency::Cached });
}

/// Where decoder layer `i` starts (after the embedding node).
pub open spec fn exec_layer_base(i: int, act: Activation) -> int {
    1 + i * exec_layer_len(act)
}

proof fn lemma_exec_layer_base(i: int, n: int, act: Activation)
    requires
        0 <= i < n,
    ensures
        exec_layer_base(i + 1, act) == exec_layer_base(i, act) + exec_layer_len(act),
        exec_layer_base(i + 1, act) <= exec_layer_base(n, act),
        exec_layer_base(i, act) + 17 <= 1 + n * 17,
{
    let l = exec_layer_len(act) as int;
    assert((i + 1) * l == i * l + l) by (nonlinear_arith);
    assert((i + 1) * l <= n * l) by (nonlinear_arith)
        requires
            i + 1 <= n,
            l >= 0,
    ;
    assert(i * l <= i * 17) by (nonlinear_arith)
        requires
            0 <= i,
            0 <= l <= 17,
    ;
}

/// Build a transformer decoder graph for the graph executor: HuggingFace
/// weight names (`model.layers.{i}.self_attn.q_proj.weight`), separate Q,
/// K and V projections, RoPE applied to Q and K, and size attributes on
/// every node. The graph is the token embedding, the layers, the final RMS
/// norm and the LM head producing `logits`.
pub fn transformer_decoder_for_exec(config: &TransformerConfig) -> (g: Graph)
    requires
        sizes_fit(*config),
    ensures
        g.nodes@.len() == 3 + config.num_layers * exec_layer_len(config.activation),
        node_is(g.nodes@[0], 0, Op::TokenEmbed, seq!["input_ids"@], seq!["embed_out"@]),
        g.nodes@[0].attrs@ == int_attrs(seq![("hidden"@, config.hidden_size as i64)]),
        forall|i: int| 0 <= i < config.num_layers ==> exec_layer_is(
            g.nodes@,
            #[trigger] exec_layer_base(i, config.activation),
            i as nat,
            *config,
        ),
        node_is(g.nodes@[g.nodes@.len() - 2], g.nodes@.len() - 2, Op::RmsNorm { eps: config.eps }, seq![layer_input(config.num_layers as nat), "model.norm.weight"@], seq!["final_norm_out"@]),
        g.nodes@[g.nodes@.len() - 2].attrs@ == int_attrs(seq![("hidden"@, config.hidden_size as i64), ("positions"@, 1i64)]),
        node_is(g.nodes@[g.nodes@.len() - 1], g.nodes@.len() - 1, Op::Matmul, seq!["final_norm_out"@, "lm_head.weight"@], seq!["logits"@]),
        g.nodes@[g.nodes@.len() - 1].attrs@ == int_attrs(seq![("n"@, config.vocab_size as i64), ("k"@, config.hidden_size as i64)]),
        g.tensors@.contains_key("input_ids"@),
        g.tensors@.contains_key("embed_out"@),
        forall|i: int| 0 <= i < config.num_layers ==> g.tensors@.contains_key(#[trigger] lname(i as nat, ".kv_cached"@)),
        g.tensors@.contains_key("logits"@) && g.tensors@["logits"@].dtype == DType::F32
            && g.tensors@["logits"@].residency == Residency::Streamed,
        g.weights@ == Map::<Seq<char>, crate::graph::WeightData>::empty(),
{
    let mut g = Graph::new();
    let hidden = config.hidden_size as i64;
    g.nodes.push(mk_node(0, Op::TokenEmbed, one(owned("input_ids")), one(owned("embed_out")), attrs1("hidden", hidden)));
    g.add_tensor(owned("input_ids"), TensorMeta {
        shape: vec![Dim::Dynamic(owned("seq_len"))],
        dtype: DType::U8,
        residency: Residency::Streamed,
    });
    g.add_tensor(owned("embed_out"), TensorMeta {
        shape: vec![Dim::Dynamic(owned("seq_len")), Dim::Fixed(config.hidden_size)],
        dtype: DType::F32,
        residency: Residency::Streamed,
    });
    let ghost act = config.activation;
    let mut i: usize = 0;
    while i < config.num_layers
        invariant
            sizes_fit(*config),
            act == config.activation,
            i <= config.num_layers,
            g.nodes@.len() == exec_layer_base(i as int, act),
            node_is(g.nodes@[0], 0, Op::TokenEmbed, seq!["input_ids"@], seq!["embed_out"@]),
            g.nodes@[0].attrs@ == int_attrs(seq![("hidden"@, hidden)]),
            forall|i2: int| 0 <= i2 < i ==> exec_layer_is(g.nodes@, #[trigger] exec_layer_base(i2, act), i2 as nat, *config),
            g.tensors@.contains_key("input_ids"@),
            g.tensors@.contains_key("embed_out"@),
            forall|i2: int| 0 <= i2 < i ==> g.tensors@.contains_key(#[trigger] lname(i2 as nat, ".kv_cached"@)),
            g.weights@ == Map::<Seq<char>, crate::graph::WeightData>::empty(),
        decreases config.num_layers - i,
    {
        proof {
            lemma_exec_layer_base(i as int, config.num_layers as int, act);
        }
        let ghost before = g.nodes@;
        let ghost t0 = g.tensors@;
        push_exec_layer(&mut g, config, i);
        proof {
            assert forall|i2: int| 0 <= i2 < i + 1 implies exec_layer_is(g.nodes@, #[trigger] exec_layer_base(i2, act), i2 as nat, *config) by {
                if i2 < i {
                    lemma_exec_layer_base(i2, i as int, act);
                    lemma_exec_layer_prefix(before, g.nodes@, exec_layer_base(i2, act), i2 as nat, *config);
                }
            }
            assert(g.nodes@[0] == before[0]);
            assert forall|i2: int| 0 <= i2 < i + 1 implies g.tensors@.contains_key(#[trigger] lname(i2 as nat, ".kv_cached"@)) by {
                if i2 < i {
                    assert(t0.contains_key(lname(i2 as nat, ".kv_cached"@)));
                }
            }
        }
        i = i + 1;
    }
    let n = g.nodes.len();
    let prev: String = if config.num_layers == 0 {
        owned("embed_out")
    } else {
        indexed("layer_", config.num_layers - 1, ".residual2")
    };
    proof {
        assert(exec_layer_base(config.num_layers as int, act) == 1 + config.num_layers * exec_layer_len(act));
        assert(config.num_layers * exec_layer_len(act) <= config.num_layers * 17) by (nonlinear_arith)
            requires
                exec_layer_len(act) <= 17,
        ;
    }
    let ghost before = g.nodes@;
    g.nodes.push(mk_node(n, Op::RmsNorm { eps: config.eps }, two(prev, owned("model.norm.weight")),
        one(owned("final_norm_out")), attrs2("hidden", hidden, "positions", 1)));
    g.nodes.push(mk_node(n + 1, Op::Matmul, two(owned("final_norm_out"), owned("lm_head.weight")),
        one(owned("logits")), attrs2("n", config.vocab_size as i64, "k", hidden)));
    proof {
        assert forall|i2: int| 0 <= i2 < config.num_layers implies exec_layer_is(g.nodes@, #[trigger] exec_layer_base(i2, act), i2 as nat, *config) by {
            lemma_exec_layer_base(i2, config.num_layers as int, act);
            lemma_exec_layer_prefix(before, g.nodes@, exec_layer_base(i2, act), i2 as nat, *config);
        }
        assert(g.nodes@[0] == before[0]);
    }
    g.add_tensor(owned("logits"), TensorMeta {
        shape: vec![Dim::Dynamic(owned("seq_len")), Dim::Fixed(config.vocab_size)],
        dtype: DType::F32,
        residency: Residency::Streamed,
    });
    g
}

// ---- Decoder (merged QKV) ----

/// Nodes per layer of the merged-QKV decoder: 14, or 13 with GeGLU.
pub open spec fn dec_layer_len(act: Activation) -> nat {
    if act == Activation::GeGlu {
        13
    } else {
        14
    }
}

/// The nodes `nodes[base..]` are layer `i` of the merged-QKV decoder: RMS
/// norm, merged QKV projection, RoPE, KV cache, attention, output
/// projection, residual, RMS norm, gate and up projections, activation
/// gate, down projection, residual; weights named `layer_<i>.*`; no
/// attributes.
pub open spec fn dec_layer_is(nodes: Seq<Node>, base: int, i: nat, c: TransformerConfig) -> bool {
    let last = base + dec_layer_len(c.activation);
    &&& node_is(nodes[base], base, Op::RmsNorm { eps: c.eps }, seq![layer_input(i), lname(i, ".attn_norm.weight"@)], seq![lname(i, ".attn_norm_out"@)])
    &&& node_is(nodes[base + 1], base + 1, Op::Matmul, seq![lname(i, ".attn_norm_out"@), lname(i, ".qkv.weight"@)], seq![lname(i, ".qkv_out"@)])
    &&& node_is(nodes[base + 2], base + 2, Op::Rope { head_dim: c.head_dim as u32, base: c.rope_theta }, seq![lname(i, ".qkv_out"@)], seq![lname(i, ".rope_out"@)])
    &&& node_is(nodes[base + 3], base + 3, Op::KvCache, seq![lname(i, ".rope_out"@)], seq![lname(i, ".kv_cached"@)])
    &&& node_is(nodes[base + 4], base + 4, Op::Sdpa { num_heads: c.num_heads as u32, kv_heads: c.kv_num_heads as u32, head_dim: c.head_dim as u32, causal: true }, seq![lname(i, ".rope_out"@), lname(i, ".kv_cached"@)], seq![lname(i, ".attn_out"@)])
    &&& node_is(nodes[base + 5], base + 5, Op::Matmul, seq![lname(i, ".attn_out"@), lname(i, ".o_proj.weight"@)], seq![lname(i, ".o_proj_out"@)])
    &&& node_is(nodes[base + 6], base + 6, Op::Add, seq![layer_input(i), lname(i, ".o_proj_out"@)], seq![lname(i, ".residual1"@)])
    &&& node_is(nodes[base + 7], base + 7, Op::RmsNorm { eps: c.eps }, seq![lname(i, ".residual1"@), lname(i, ".ffn_norm.weight"@)], seq![lname(i, ".ffn_norm_out"@)])
    &&& node_is(nodes[base + 8], base + 8, Op::Matmul, seq![lname(i, ".ffn_norm_out"@), lname(i, ".gate_proj.weight"@)], seq![lname(i, ".gate_out"@)])
    &&& node_is(nodes[base + 9], base + 9, Op::Matmul, seq![lname(i, ".ffn_norm_out"@), lname(i, ".up_proj.weight"@)], seq![lname(i, ".up_out"@)])
    &&& (c.activation == Activation::Silu ==> {
        &&& node_is(nodes[base + 10], base + 10, Op::Silu, seq![lname(i, ".gate_out"@)], seq![lname(i, ".silu_out"@)])
        &&& node_is(nodes[base + 11], base + 11, Op::Mul, seq![lname(i, ".silu_out"@), lname(i, ".up_out"@)], seq![lname(i, ".act_out"@)])
    })
    &&& (c.activation == Activation::Gelu ==> {
        &&& node_is(nodes[base + 10], base + 10, Op::Gelu { approximate: false }, seq![lname(i, ".gate_out"@)], seq![lname(i, ".gelu_out"@)])
        &&& node_is(nodes[base + 11], base + 11, Op::Mul, seq![lname(i, ".gelu_out"@), lname(i, ".up_out"@)], seq![lname(i, ".act_out"@)])
    })
    &&& (c.activation == Activation::GeGlu ==> node_is(nodes[base + 10], base + 10, Op::GeGlu, seq![lname(i, ".gate_out"@), lname(i, ".up_out"@)], seq![lname(i, ".act_out"@)]))
    &&& node_is(nodes[last - 2], last - 2, Op::Matmul, seq![lname(i, ".act_out"@), lname(i, ".down_proj.weight"@)], seq![lname(i, ".down_out"@)])
    &&& node_is(nodes[last - 1], last - 1, Op::Add, seq![lname(i, ".residual1"@), lname(i, ".down_out"@)], seq![lname(i, ".residual2"@)])
}

proof fn lemma_dec_layer_prefix(a: Seq<Node>, b: Seq<Node>, base: int, i: nat, c: TransformerConfig)
    requires
        0 <= base,
        base + dec_layer_len(c.activation) <= a.len(),
        a.len() <= b.len(),
        forall|j: int| 0 <= j < a.len() ==> #[trigger] b[j] == a[j],
        dec_layer_is(a, base, i, c),
    ensures
        dec_layer_is(b, base, i, c),
{
    let last = base + dec_layer_len(c.activation);
    assert(b[base] == a[base]);
    assert(b[base + 1] == a[base + 1]);
    assert(b[base + 2] == a[base + 2]);
    assert(b[base + 3] == a[base + 3]);
    assert(b[base + 4] == a[base + 4]);
    assert(b[base + 5] == a[base + 5]);
    assert(b[base + 6] == a[base + 6]);
    assert(b[base + 7] == a[base + 7]);
    assert(b[base + 8] == a[base + 8]);
    assert(b[base + 9] == a[base + 9]);
    assert(b[base + 10] == a[base + 10]);
    assert(b[last - 2] == a[last - 2]);
    assert(b[last - 1] == a[last - 1]);
    if c.activation != Activation::GeGlu {
        assert(b[base + 11] == a[base + 11]);
    }
}

/// Append layer `i` of the merged-QKV decoder to the graph.
fn push_decoder_layer(g: &mut Graph, c: &TransformerConfig, i: usize)
    requires
        sizes_fit(*c),
        old(g).nodes@.len() + 17 <= usize::MAX,
    ensures
        final(g).nodes@.len() == old(g).nodes@.len() + dec_layer_len(c.activation),
        forall|j: int| 0 <= j < old(g).nodes@.len() ==> #[trigger] final(g).nodes@[j] == old(g).nodes@[j],
        dec_layer_is(final(g).nodes@, old(g).nodes@.len() as int, i as nat, *c),
        forall|j: int| old(g).nodes@.len() <= j < final(g).nodes@.len() ==> (#[trigger] final(g).nodes@[j]).attrs@
            == Map::<Seq<char>, AttrValue>::empty(),
        final(g).weights == old(g).weights,
        final(g).tensors@ == old(g).tensors@.insert(lname(i as nat, ".kv_cached"@), TensorMeta {
            shape: final(g).tensors@[lname(i as nat, ".kv_cached"@)].shape,
            dtype: DType::F16,
            residency: Residency::Cached,
        }),
{
    let base = g.nodes.len();
    let prev: String = if i == 0 {
        owned("embed_out")
    } else {
        indexed("layer_", i - 1, ".residual2")
    };
    let mut layer: Vec<Node> = Vec::new();
    layer.push(mk_node(base, Op::RmsNorm { eps: c.eps },
        two(owned(prev.as_str()), indexed("layer_", i, ".attn_norm.weight")),
        one(indexed("layer_", i, ".attn_norm_out")), NameMap::new()));
    layer.push(mk_node(base + 1, Op::Matmul,
        two(indexed("layer_", i, ".attn_norm_out"), indexed("layer_", i, ".qkv.weight")),
        one(indexed("layer_", i, ".qkv_out")), NameMap::new()));
    layer.push(mk_node(base + 2, Op::Rope { head_dim: c.head_dim as u32, base: c.rope_theta },
        one(indexed("layer_", i, ".qkv_out")),
        one(indexed("layer_", i, ".rope_out")), NameMap::new()));
    layer.push(mk_node(base + 3, Op::KvCache,
        one(indexed("layer_", i, ".rope_out")),
        one(indexed("layer_", i, ".kv_cached")), NameMap::new()));
    layer.push(mk_node(base + 4, Op::Sdpa {
            num_heads: c.num_heads as u32,
            kv_heads: c.kv_num_heads as u32,
            head_dim: c.head_dim as u32,
            causal: true,
        },
        two(indexed("layer_", i, ".rope_out"), indexed("layer_", i, ".kv_cached")),
        one(indexed("layer_", i, ".attn_out")), NameMap::new()));
    layer.push(mk_node(base + 5, Op::Matmul,
        two(indexed("layer_", i, ".attn_out"), indexed("layer_", i, ".o_proj.weight")),
        one(indexed("layer_", i, ".o_proj_out")), NameMap::new()));
    layer.push(mk_node(base + 6, Op::Add,
        two(prev, indexed("layer_", i, ".o_proj_out")),
        one(indexed("layer_", i, ".residual1")), NameMap::new()));
    layer.push(mk_node(base + 7, Op::RmsNorm { eps: c.eps },
        two(indexed("layer_", i, ".residual1"), indexed("layer_", i, ".ffn_norm.weight")),
        one(indexed("layer_", i, ".ffn_norm_out")), NameMap::new()));
    layer.push(mk_node(base + 8, Op::Matmul,
        two(indexed("layer_", i, ".ffn_norm_out"), indexed("layer_", i, ".gate_proj.weight")),
        one(indexed("layer_", i, ".gate_out")), NameMap::new()));
    layer.push(mk_node(base + 9, Op::Matmul,
        two(indexed("layer_", i, ".ffn_norm_out"), indexed("layer_", i, ".up_proj.weight")),
        one(indexed("layer_", i, ".up_out")), NameMap::new()));
    let mut next: usize = base + 10;
    match c.activation {
        Activation::Silu => {
            layer.push(mk_node(base + 10, Op::Silu,
                one(indexed("layer_", i, ".gate_out")),
                one(indexed("layer_", i, ".silu_out")), NameMap::new()));
            layer.push(mk_node(base + 11, Op::Mul,
                two(indexed("layer_", i, ".silu_out"), indexed("layer_", i, ".up_out")),
                one(indexed("layer_", i, ".act_out")), NameMap::new()));
            next = base + 12;
        },
        Activation::Gelu => {
            layer.push(mk_node(base + 10, Op::Gelu { approximate: false },
                one(indexed("layer_", i, ".gate_out")),
                one(indexed("layer_", i, ".gelu_out")), NameMap::new()));
            layer.push(mk_node(base + 11, Op::Mul,
                two(indexed("layer_", i, ".gelu_out"), indexed("layer_", i, ".up_out")),
                one(indexed("layer_", i, ".act_out")), NameMap::new()));
            next = base + 12;
        },
        Activation::GeGlu => {
            layer.push(mk_node(base + 10, Op::GeGlu,
                two(indexed("layer_", i, ".gate_out"), indexed("layer_", i, ".up_out")),
                one(indexed("layer_", i, ".act_out")), NameMap::new()));
            next = base + 11;
        },
    }
    layer.push(mk_node(next, Op::Matmul,
        two(indexed("layer_", i, ".act_out"), indexed("layer_", i, ".down_proj.weight")),
        one(indexed("layer_", i, ".down_out")), NameMap::new()));
    layer.push(mk_node(next + 1, Op::Add,
        two(indexed("layer_", i, ".residual1"), indexed("layer_", i, ".down_out")),
        one(indexed("layer_", i, ".residual2")), NameMap::new()));
    let ghost lv = layer@;
    proof {
        assert forall|k: int| 0 <= k < lv.len() implies (#[trigger] lv[k]).attrs@ == Map::<Seq<char>, AttrValue>::empty() by {}
    }
    append_nodes(g, layer);
    proof {
        assert forall|j: int| base <= j < g.nodes@.len() implies (#[trigger] g.nodes@[j]).attrs@
            == Map::<Seq<char>, AttrValue>::empty() by {
            assert(g.nodes@[j] == lv[j - base]);
        }
    }
    let dims = vec![Dim::Dynamic(owned("total_seq")), Dim::Fixed(c.kv_num_heads * c.head_dim)];
    g.add_tensor(indexed("layer_", i, ".kv_cached"), TensorMeta { shape: dims, dtype: DType::F16, residency: Residency::Cached });
}

/// Where layer `i` of the merged-QKV decoder starts.
pub open spec fn dec_layer_base(i: int, act: Activation) -> int {
    1 + i * dec_layer_len(act)
}

proof fn lemma_dec_layer_base(i: int, n: int, act: Activation)
    requires
        0 <= i < n,
    ensures
        dec_layer_base(i + 1, act) == dec_layer_base(i, act) + dec_layer_len(act),
        dec_layer_base(i + 1, act) <= dec_layer_base(n, act),
        dec_layer_base(i, act) + 17 <= 1 + n * 17,
{
    let l = dec_layer_len(act) as int;
    assert((i + 1) * l == i * l + l) by (nonlinear_arith);
    assert((i + 1) * l <= n * l) by (nonlinear_arith)
        requires
            i + 1 <= n,
            l >= 0,
    ;
    assert(i * l <= i * 17) by (nonlinear_arith)
        requires
            0 <= i,
            0 <= l <= 17,
    ;
}

/// Build a transformer decoder graph (LLaMA, Mistral, Qwen, ...): per layer
/// RMS norm, attention (merged QKV projection, RoPE, SDPA, KV cache, output
/// projection), RMS norm and the gated MLP, with residual connections;
/// then the final norm and the LM head producing `logits`.
pub fn transformer_decoder(config: &TransformerConfig) -> (g: Graph)
    requires
        sizes_fit(*config),
    ensures
        g.nodes@.len() == 3 + config.num_layers * dec_layer_len(config.activation),
        node_is(g.nodes@[0], 0, Op::TokenEmbed, seq!["input_ids"@], seq!["embed_out"@]),
        forall|i: int| 0 <= i < config.num_layers ==> dec_layer_is(
            g.nodes@,
            #[trigger] dec_layer_base(i, config.activation),
            i as nat,
            *config,
        ),
        node_is(g.nodes@[g.nodes@.len() - 2], g.nodes@.len() - 2, Op::RmsNorm { eps: config.eps }, seq![layer_input(config.num_layers as nat), "model.norm.weight"@], seq!["final_norm_out"@]),
        node_is(g.nodes@[g.nodes@.len() - 1], g.nodes@.len() - 1, Op::Matmul, seq!["final_norm_out"@, "lm_head.weight"@], seq!["logits"@]),
        forall|j: int| 0 <= j < g.nodes@.len() ==> (#[trigger] g.nodes@[j]).attrs@ == Map::<Seq<char>, AttrValue>::empty(),
        g.tensors@.contains_key("input_ids"@),
        g.tensors@.contains_key("embed_out"@),
        forall|i: int| 0 <= i < config.num_layers ==> g.tensors@.contains_key(#[trigger] lname(i as nat, ".kv_cached"@)),
        g.tensors@.contains_key("logits"@),
        g.weights@ == Map::<Seq<char>, crate::graph::WeightData>::empty(),
{
    let mut g = Graph::new();
    g.nodes.push(mk_node(0, Op::TokenEmbed, one(owned("input_ids")), one(owned("embed_out")), NameMap::new()));
    g.add_tensor(owned("input_ids"), TensorMeta {
        shape: vec![Dim::Dynamic(owned("seq_len"))],
        dtype: DType::U8,
        residency: Residency::Streamed,
    });
    g.add_tensor(owned("embed_out"), TensorMeta {
        shape: vec![Dim::Dynamic(owned("seq_len")), Dim::Fixed(config.hidden_size)],
        dtype: DType::F16,
        residency: Residency::Streamed,
    });
    let ghost act = config.activation;
    let mut i: usize = 0;
    while i < config.num_layers
        invariant
            sizes_fit(*config),
            act == config.activation,
            i <= config.num_layers,
            g.nodes@.len() == dec_layer_base(i as int, act),
            node_is(g.nodes@[0], 0, Op::TokenEmbed, seq!["input_ids"@], seq!["embed_out"@]),
            forall|i2: int| 0 <= i2 < i ==> dec_layer_is(g.nodes@, #[trigger] dec_layer_base(i2, act), i2 as nat, *config),
            forall|j: int| 0 <= j < g.nodes@.len() ==> (#[trigger] g.nodes@[j]).attrs@ == Map::<Seq<char>, AttrValue>::empty(),
            g.tensors@.contains_key("input_ids"@),
            g.tensors@.contains_key("embed_out"@),
            forall|i2: int| 0 <= i2 < i ==> g.tensors@.contains_key(#[trigger] lname(i2 as nat, ".kv_cached"@)),
            g.weights@ == Map::<Seq<char>, crate::graph::WeightData>::empty(),
        decreases config.num_layers - i,
    {
        proof {
            lemma_dec_layer_base(i as int, config.num_layers as int, act);
        }
        let ghost before = g.nodes@;
        let ghost t0 = g.tensors@;
        push_decoder_layer(&mut g, config, i);
        proof {
            assert forall|i2: int| 0 <= i2 < i + 1 implies dec_layer_is(g.nodes@, #[trigger] dec_layer_base(i2, act), i2 as nat, *config) by {
                if i2 < i {
                    lemma_dec_layer_base(i2, i as int, act);
                    lemma_dec_layer_prefix(before, g.nodes@, dec_layer_base(i2, act), i2 as nat, *config);
                }
            }
            assert(g.nodes@[0] == before[0]);
            assert forall|i2: int| 0 <= i2 < i + 1 implies g.tensors@.contains_key(#[trigger] lname(i2 as nat, ".kv_cached"@)) by {
                if i2 < i {
                    assert(t0.contains_key(lname(i2 as nat, ".kv_cached"@)));
                }
            }
            let base = before.len() as int;
            assert forall|j: int| 0 <= j < g.nodes@.len() implies (#[trigger] g.nodes@[j]).attrs@ == Map::<Seq<char>, AttrValue>::empty() by {
                if j < base {
                    assert(g.nodes@[j] == before[j]);
                }
            }
        }
        i = i + 1;
    }
    let n = g.nodes.len();
    let prev: String = if config.num_layers == 0 {
        owned("embed_out")
    } else {
        indexed("layer_", config.num_layers - 1, ".residual2")
    };
    proof {
        assert(config.num_layers * dec_layer_len(act) <= config.num_layers * 17) by (nonlinear_arith)
            requires
                dec_layer_len(act) <= 17,
        ;
    }
    let ghost before = g.nodes@;
    g.nodes.push(mk_node(n, Op::RmsNorm { eps: config.eps }, two(prev, owned("model.norm.weight")),
        one(owned("final_norm_out")), NameMap::new()));
    g.nodes.push(mk_node(n + 1, Op::Matmul, two(owned("final_norm_out"), owned("lm_head.weight")),
        one(owned("logits")), NameMap::new()));
    proof {
        assert forall|i2: int| 0 <= i2 < config.num_layers implies dec_layer_is(g.nodes@, #[trigger] dec_layer_base(i2, act), i2 as nat, *config) by {
            lemma_dec_layer_base(i2, config.num_layers as int, act);
            lemma_dec_layer_prefix(before, g.nodes@, dec_layer_base(i2, act), i2 as nat, *config);
        }
        assert(g.nodes@[0] == before[0]);
        assert forall|j: int| 0 <= j < g.nodes@.len() implies (#[trigger] g.nodes@[j]).attrs@ == Map::<Seq<char>, AttrValue>::empty() by {
            if j < before.len() {
                assert(g.nodes@[j] == before[j]);
            }
        }
    }
    g.add_tensor(owned("logits"), TensorMeta {
        shape: vec![Dim::Dynamic(owned("seq_len")), Dim::Fixed(config.vocab_size)],
        dtype: DType::F32,
        residency: Residency::Streamed,
    });
    g
}

// ---- Node emission for the encoder templates ----

/// Every node's id is its position.
pub open spec fn ids_ok(nodes: Seq<Node>) -> bool {
    forall|j: int| 0 <= j < nodes.len() ==> (#[trigger] nodes[j]).id == j
}

/// No attention node is causal.
pub open spec fn bidirectional(nodes: Seq<Node>) -> bool {
    forall|j: int| 0 <= j < nodes.len() ==> !((#[trigger] nodes[j]).op matches Op::Sdpa { causal, .. } && causal)
}

/// Every node in `nodes[lo..hi]` satisfies `p`.
pub open spec fn all_in(nodes: Seq<Node>, lo: int, hi: int, p: spec_fn(Node) -> bool) -> bool {
    forall|j: int| lo <= j < hi ==> p(#[trigger] nodes[j])
}

/// Nodes from `lo` on have their position as id.
pub open spec fn ids_from(nodes: Seq<Node>, lo: int) -> bool {
    forall|j: int| lo <= j < nodes.len() ==> (#[trigger] nodes[j]).id == j
}

/// Append a node numbered by its position.
fn emit(g: &mut Graph, op: Op, inputs: Vec<String>, outputs: Vec<String>, attrs: Attrs)
    requires
        old(g).nodes@.len() < usize::MAX,
    ensures
        ids_ok(old(g).nodes@) ==> ids_ok(final(g).nodes@),
        old(g).nodes@.len() >= 2 && ids_from(old(g).nodes@, 2) ==> ids_from(final(g).nodes@, 2),
        forall|lo: int, hi: int, p: spec_fn(Node) -> bool|
            0 <= lo <= hi <= old(g).nodes@.len() && #[trigger] all_in(old(g).nodes@, lo, hi, p) ==> all_in(final(g).nodes@, lo, hi, p),
        forall|lo: int, p: spec_fn(Node) -> bool|
            0 <= lo <= old(g).nodes@.len() && #[trigger] all_in(old(g).nodes@, lo, old(g).nodes@.len() as int, p) && p(final(g).nodes@.last())
                ==> all_in(final(g).nodes@, lo, final(g).nodes@.len() as int, p),
        final(g).nodes@.len() == old(g).nodes@.len() + 1,
        final(g).nodes@.drop_last() == old(g).nodes@,
        node_is(final(g).nodes@.last(), old(g).nodes@.len() as int, op, names(inputs@), names(outputs@)),
        final(g).nodes@.last().attrs == attrs,
        final(g).tensors == old(g).tensors,
        final(g).weights == old(g).weights,
        bidirectional(old(g).nodes@) && !(op matches Op::Sdpa { causal, .. } && causal) ==> bidirectional(final(g).nodes@),
{
    let id = g.nodes.len();
    let ghost op_v = op;
    g.nodes.push(Node { id, op, inputs, outputs, attrs, backend_hint: None });
    proof {
        assert(g.nodes@.drop_last() =~= old(g).nodes@);
        if ids_ok(old(g).nodes@) {
            assert forall|j: int| 0 <= j < g.nodes@.len() implies (#[trigger] g.nodes@[j]).id == j by {
                if j < id {
                    assert(g.nodes@[j] == old(g).nodes@[j]);
                }
            }
        }
        if id >= 2 && ids_from(old(g).nodes@, 2) {
            assert forall|j: int| 2 <= j < g.nodes@.len() implies (#[trigger] g.nodes@[j]).id == j by {
                if j < id {
                    assert(g.nodes@[j] == old(g).nodes@[j]);
                }
            }
        }
        assert forall|lo: int, hi: int, p: spec_fn(Node) -> bool|
            0 <= lo <= hi <= old(g).nodes@.len() && #[trigger] all_in(old(g).nodes@, lo, hi, p) implies all_in(g.nodes@, lo, hi, p) by {
            assert forall|j: int| lo <= j < hi implies p(#[trigger] g.nodes@[j]) by {
                assert(g.nodes@[j] == old(g).nodes@[j]);
            }
        }
        assert forall|lo: int, p: spec_fn(Node) -> bool|
            0 <= lo <= old(g).nodes@.len() && #[trigger] all_in(old(g).nodes@, lo, old(g).nodes@.len() as int, p) && p(g.nodes@.last())
            implies all_in(g.nodes@, lo, g.nodes@.len() as int, p) by {
            assert forall|j: int| lo <= j < g.nodes@.len() implies p(#[trigger] g.nodes@[j]) by {
                if j < id {
                    assert(g.nodes@[j] == old(g).nodes@[j]);
                }
            }
        }
        if bidirectional(old(g).nodes@) && !(op_v matches Op::Sdpa { causal, .. } && causal) {
            assert forall|j: int| 0 <= j < g.nodes@.len() implies !((#[trigger] g.nodes@[j]).op matches Op::Sdpa { causal, .. } && causal) by {
                if j < id {
                    assert(g.nodes@[j] == old(g).nodes@[j]);
                }
            }
        }
    }
}

/// Three names as a list.
fn three(a: String, b: String, c: String) -> (v: Vec<String>)
    ensures
        names(v@) == seq![a@, b@, c@],
{
    let v = vec![a, b, c];
    proof {
        assert(names(v@) =~= seq![a@, b@, c@]);
    }
    v
}

/// Four names as a list.
fn four(a: String, b: String, c: String, d: String) -> (v: Vec<String>)
    ensures
        names(v@) == seq![a@, b@, c@, d@],
{
    let v = vec![a, b, c, d];
    proof {
        assert(names(v@) =~= seq![a@, b@, c@, d@]);
    }
    v
}

/// `head` followed by `tail`.
fn cat(head: &str, tail: &str) -> (r: String)
    ensures
        r@ == head@ + tail@,
{
    let mut s = owned(head);
    append_str(&mut s, tail);
    s
}

/// `wp`, `head`, the decimal `i`, then `tail`.
fn wname(wp: &str, head: &str, i: usize, tail: &str) -> (r: String)
    ensures
        r@ == wp@ + indexed_name(head@, i as nat, tail@),
{
    let mut s = owned(wp);
    append_str(&mut s, head);
    append_decimal(&mut s, i);
    append_str(&mut s, tail);
    proof {
        assert(s@ =~= wp@ + indexed_name(head@, i as nat, tail@));
    }
    s
}

// ---- BERT ----

/// Configuration for BERT-style encoders.
pub struct BertConfig {
    pub hidden_size: usize,
    pub num_heads: usize,
    pub head_dim: usize,
    pub num_layers: usize,
    pub intermediate_size: usize,
    pub vocab_size: usize,
    pub max_position_embeddings: usize,
    pub type_vocab_size: usize,
    /// Norm epsilon (IEEE-754 bits).
    pub eps: F32Bits,
    /// Weight name prefix (e.g., "roberta", "deberta", "" for plain BERT).
    pub weight_prefix: String,
    /// Number of classification labels (0 = no classifier head).
    pub num_labels: usize,
}

impl Default for BertConfig {
    /// BERT-base: 768 hidden, 12 heads of 64, 12 layers, 3072 intermediate,
    /// 30522 vocabulary, 512 positions, 2 token types, eps 1e-12, no
    /// prefix, no classifier.
    fn default() -> (r: Self)
        ensures
            r.hidden_size == 768 && r.num_heads == 12 && r.head_dim == 64 && r.num_layers == 12,
            r.intermediate_size == 3072 && r.vocab_size == 30522 && r.max_position_embeddings == 512,
            r.type_vocab_size == 2 && r.eps == F32Bits(0x2b8cbccc) && r.weight_prefix@.len() == 0 && r.num_labels
                == 0,
    {
        BertConfig {
            hidden_size: 768,
            num_heads: 12,
            head_dim: 64,
            num_layers: 12,
            intermediate_size: 3072,
            vocab_size: 30522,
            max_position_embeddings: 512,
            type_vocab_size: 2,
            eps: F32Bits(0x2b8cbccc),
            weight_prefix: String::new(),
            num_labels: 0,
        }
    }
}

/// The nodes `nodes[base..base + 18]` are BERT layer `i` with weight
/// prefix `wp`: biased query, key and value projections of the layer input,
/// bidirectional attention (V named by `v_tensor`), biased output dense,
/// residual, LayerNorm, biased intermediate dense, GELU, biased output
/// dense, residual, LayerNorm; with their size attributes.
pub open spec fn bert_layer_is(nodes: Seq<Node>, base: int, i: nat, c: BertConfig, wp: Seq<char>) -> bool {
    let hidden = c.hidden_size as i64;
    let inter = c.intermediate_size as i64;
    let prev = bert_hidden(i);
    &&& node_is(nodes[base], base, Op::Matmul, seq![prev, wp + indexed_name("encoder.layer."@, i, ".attention.self.query.weight"@)], seq![indexed_name("layer_"@, i, ".q_out"@)])
    &&& nodes[base].attrs@ == int_attrs(seq![("n"@, hidden), ("k"@, hidden)])
    &&& node_is(nodes[base + 1], base + 1, Op::Add, seq![indexed_name("layer_"@, i, ".q_out"@), wp + indexed_name("encoder.layer."@, i, ".attention.self.query.bias"@)], seq![indexed_name("layer_"@, i, ".q_biased"@)])
    &&& nodes[base + 1].attrs@ == int_attrs(seq![("n"@, hidden)])
    &&& node_is(nodes[base + 2], base + 2, Op::Matmul, seq![prev, wp + indexed_name("encoder.layer."@, i, ".attention.self.key.weight"@)], seq![indexed_name("layer_"@, i, ".k_out"@)])
    &&& nodes[base + 2].attrs@ == int_attrs(seq![("n"@, hidden), ("k"@, hidden)])
    &&& node_is(nodes[base + 3], base + 3, Op::Add, seq![indexed_name("layer_"@, i, ".k_out"@), wp + indexed_name("encoder.layer."@, i, ".attention.self.key.bias"@)], seq![indexed_name("layer_"@, i, ".k_biased"@)])
    &&& nodes[base + 3].attrs@ == int_attrs(seq![("n"@, hidden)])
    &&& node_is(nodes[base + 4], base + 4, Op::Matmul, seq![prev, wp + indexed_name("encoder.layer."@, i, ".attention.self.value.weight"@)], seq![indexed_name("layer_"@, i, ".v_out"@)])
    &&& nodes[base + 4].attrs@ == int_attrs(seq![("n"@, hidden), ("k"@, hidden)])
    &&& node_is(nodes[base + 5], base + 5, Op::Add, seq![indexed_name("layer_"@, i, ".v_out"@), wp + indexed_name("encoder.layer."@, i, ".attention.self.value.bias"@)], seq![indexed_name("layer_"@, i, ".v_biased"@)])
    &&& nodes[base + 5].attrs@ == int_attrs(seq![("n"@, hidden)])
    &&& node_is(nodes[base + 6], base + 6, Op::Sdpa { num_heads: c.num_heads as u32, kv_heads: c.num_heads as u32, head_dim: c.head_dim as u32, causal: false }, seq![indexed_name("layer_"@, i, ".q_biased"@), indexed_name("layer_"@, i, ".k_biased"@)], seq![indexed_name("layer_"@, i, ".attn_out"@)])
    &&& nodes[base + 6].attrs@.dom() == set!["hidden"@, "v_tensor"@]
    &&& nodes[base + 6].attrs@["hidden"@] == AttrValue::Int(hidden)
    &&& (nodes[base + 6].attrs@["v_tensor"@] matches AttrValue::String(v) && v@ == indexed_name("layer_"@, i, ".v_biased"@))
    &&& node_is(nodes[base + 7], base + 7, Op::Matmul, seq![indexed_name("layer_"@, i, ".attn_out"@), wp + indexed_name("encoder.layer."@, i, ".attention.output.dense.weight"@)], seq![indexed_name("layer_"@, i, ".attn_dense"@)])
    &&& nodes[base + 7].attrs@ == int_attrs(seq![("n"@, hidden), ("k"@, hidden)])
    &&& node_is(nodes[base + 8], base + 8, Op::Add, seq![indexed_name("layer_"@, i, ".attn_dense"@), wp + indexed_name("encoder.layer."@, i, ".attention.output.dense.bias"@)], seq![indexed_name("layer_"@, i, ".attn_dense_biased"@)])
    &&& nodes[base + 8].attrs@ == int_attrs(seq![("n"@, hidden)])
    &&& node_is(nodes[base + 9], base + 9, Op::Add, seq![prev, indexed_name("layer_"@, i, ".attn_dense_biased"@)], seq![indexed_name("layer_"@, i, ".residual1"@)])
    &&& nodes[base + 9].attrs@ == int_attrs(seq![("n"@, hidden)])
    &&& node_is(nodes[base + 10], base + 10, Op::LayerNorm { eps: c.eps }, seq![indexed_name("layer_"@, i, ".residual1"@), wp + indexed_name("encoder.layer."@, i, ".attention.output.LayerNorm.weight"@), wp + indexed_name("encoder.layer."@, i, ".attention.output.LayerNorm.bias"@)], seq![indexed_name("layer_"@, i, ".attn_ln"@)])
    &&& nodes[base + 10].attrs@ == int_attrs(seq![("hidden"@, hidden)])
    &&& node_is(nodes[base + 11], base + 11, Op::Matmul, seq![indexed_name("layer_"@, i, ".attn_ln"@), wp + indexed_name("encoder.layer."@, i, ".intermediate.dense.weight"@)], seq![indexed_name("layer_"@, i, ".inter_out"@)])
    &&& nodes[base + 11].attrs@ == int_attrs(seq![("n"@, inter), ("k"@, hidden)])
    &&& node_is(nodes[base + 12], base + 12, Op::Add, seq![indexed_name("layer_"@, i, ".inter_out"@), wp + indexed_name("encoder.layer."@, i, ".intermediate.dense.bias"@)], seq![indexed_name("layer_"@, i, ".inter_biased"@)])
    &&& nodes[base + 12].attrs@ == int_attrs(seq![("n"@, inter)])
    &&& node_is(nodes[base + 13], base + 13, Op::Gelu { approximate: false }, seq![indexed_name("layer_"@, i, ".inter_biased"@)], seq![indexed_name("layer_"@, i, ".inter_act"@)])
    &&& nodes[base + 13].attrs@ == int_attrs(seq![("n"@, inter)])
    &&& node_is(nodes[base + 14], base + 14, Op::Matmul, seq![indexed_name("layer_"@, i, ".inter_act"@), wp + indexed_name("encoder.layer."@, i, ".output.dense.weight"@)], seq![indexed_name("layer_"@, i, ".output_dense"@)])
    &&& nodes[base + 14].attrs@ == int_attrs(seq![("n"@, hidden), ("k"@, inter)])
    &&& node_is(nodes[base + 15], base + 15, Op::Add, seq![indexed_name("layer_"@, i, ".output_dense"@), wp + indexed_name("encoder.layer."@, i, ".output.dense.bias"@)], seq![indexed_name("layer_"@, i, ".output_biased"@)])
    &&& nodes[base + 15].attrs@ == int_attrs(seq![("n"@, hidden)])
    &&& node_is(nodes[base + 16], base + 16, Op::Add, seq![indexed_name("layer_"@, i, ".attn_ln"@), indexed_name("layer_"@, i, ".output_biased"@)], seq![indexed_name("layer_"@, i, ".residual2"@)])
    &&& nodes[base + 16].attrs@ == int_attrs(seq![("n"@, hidden)])
    &&& node_is(nodes[base + 17], base + 17, Op::LayerNorm { eps: c.eps }, seq![indexed_name("layer_"@, i, ".residual2"@), wp + indexed_name("encoder.layer."@, i, ".output.LayerNorm.weight"@), wp + indexed_name("encoder.layer."@, i, ".output.LayerNorm.bias"@)], seq![indexed_name("layer_"@, i, ".output_ln"@)])
    &&& nodes[base + 17].attrs@ == int_attrs(seq![("hidden"@, hidden)])
}

/// A `bert` layer description only reads its own nodes.
proof fn lemma_bert_layer_prefix(a: Seq<Node>, b: Seq<Node>, base: int, i: nat, c: BertConfig, wp: Seq<char>)
    requires
        0 <= base,
        base + 18 <= a.len(),
        a.len() <= b.len(),
        forall|j: int| 0 <= j < a.len() ==> #[trigger] b[j] == a[j],
        bert_layer_is(a, base, i, c, wp),
    ensures
        bert_layer_is(b, base, i, c, wp),
{
    assert forall|k: int| 0 <= k < 18 implies #[trigger] b[base + k] == a[base + k] by {}
}

/// The nodes of a `bert` layer keep their positions as ids and attend in both directions.
proof fn lemma_bert_layer_props(nodes: Seq<Node>, base: int, i: nat, c: BertConfig, wp: Seq<char>)
    requires
        0 <= base,
        base + 18 <= nodes.len(),
        bert_layer_is(nodes, base, i, c, wp),
    ensures
        forall|j: int| base <= j < base + 18 ==> (#[trigger] nodes[j]).id == j && (not_causal())(nodes[j]),
{
    assert forall|j: int| base <= j < base + 18 implies (#[trigger] nodes[j]).id == j && (not_causal())(nodes[j]) by {
        let k = j - base;
        assert(0 <= k < 18);
        assert(nodes[base + k] == nodes[j]);
    }
}

/// Append BERT layer `i`, reading `prev`, with weight prefix `wp`.
fn push_bert_layer(g: &mut Graph, c: &BertConfig, i: usize, prev: &str, wp: &str)
    requires
        old(g).nodes@.len() + 18 <= usize::MAX,
        prev@ == bert_hidden(i as nat),
    ensures
        final(g).nodes@.len() == old(g).nodes@.len() + 18,
        forall|j: int| 0 <= j < old(g).nodes@.len() ==> #[trigger] final(g).nodes@[j] == old(g).nodes@[j],
        bert_layer_is(final(g).nodes@, old(g).nodes@.len() as int, i as nat, *c, wp@),
        final(g).weights == old(g).weights,
        final(g).tensors == old(g).tensors,
{
    let base = g.nodes.len();
    let hidden = c.hidden_size as i64;
    let inter = c.intermediate_size as i64;
    let mut layer: Vec<Node> = Vec::new();
    layer.push(mk_node(base, Op::Matmul, two(owned(prev), wname(wp, "encoder.layer.", i, ".attention.self.query.weight")), one(indexed("layer_", i, ".q_out")), attrs2("n", hidden, "k", hidden)));
    layer.push(mk_node(base + 1, Op::Add, two(indexed("layer_", i, ".q_out"), wname(wp, "encoder.layer.", i, ".attention.self.query.bias")), one(indexed("layer_", i, ".q_biased")), attrs1("n", hidden)));
    layer.push(mk_node(base + 2, Op::Matmul, two(owned(prev), wname(wp, "encoder.layer.", i, ".attention.self.key.weight")), one(indexed("layer_", i, ".k_out")), attrs2("n", hidden, "k", hidden)));
    layer.push(mk_node(base + 3, Op::Add, two(indexed("layer_", i, ".k_out"), wname(wp, "encoder.layer.", i, ".attention.self.key.bias")), one(indexed("layer_", i, ".k_biased")), attrs1("n", hidden)));
    layer.push(mk_node(base + 4, Op::Matmul, two(owned(prev), wname(wp, "encoder.layer.", i, ".attention.self.value.weight")), one(indexed("layer_", i, ".v_out")), attrs2("n", hidden, "k", hidden)));
    layer.push(mk_node(base + 5, Op::Add, two(indexed("layer_", i, ".v_out"), wname(wp, "encoder.layer.", i, ".attention.self.value.bias")), one(indexed("layer_", i, ".v_biased")), attrs1("n", hidden)));
    let mut sdpa_attrs = attrs1("hidden", hidden);
    sdpa_attrs.insert(owned("v_tensor"), AttrValue::String(indexed("layer_", i, ".v_biased")));
    proof {
        lemma_int_attrs_small("hidden"@, hidden, "n"@, 0i64);
        reveal_strlit("hidden");
        reveal_strlit("v_tensor");
        assert("hidden"@.len() != "v_tensor"@.len());
        assert(sdpa_attrs@.dom() =~= set!["hidden"@, "v_tensor"@]);
    }
    layer.push(mk_node(base + 6, Op::Sdpa { num_heads: c.num_heads as u32, kv_heads: c.num_heads as u32, head_dim: c.head_dim as u32, causal: false }, two(indexed("layer_", i, ".q_biased"), indexed("layer_", i, ".k_biased")), one(indexed("layer_", i, ".attn_out")), sdpa_attrs));
    layer.push(mk_node(base + 7, Op::Matmul, two(indexed("layer_", i, ".attn_out"), wname(wp, "encoder.layer.", i, ".attention.output.dense.weight")), one(indexed("layer_", i, ".attn_dense")), attrs2("n", hidden, "k", hidden)));
    layer.push(mk_node(base + 8, Op::Add, two(indexed("layer_", i, ".attn_dense"), wname(wp, "encoder.layer.", i, ".attention.output.dense.bias")), one(indexed("layer_", i, ".attn_dense_biased")), attrs1("n", hidden)));
    layer.push(mk_node(base + 9, Op::Add, two(owned(prev), indexed("layer_", i, ".attn_dense_biased")), one(indexed("layer_", i, ".residual1")), attrs1("n", hidden)));
    layer.push(mk_node(base + 10, Op::LayerNorm { eps: c.eps }, three(indexed("layer_", i, ".residual1"), wname(wp, "encoder.layer.", i, ".attention.output.LayerNorm.weight"), wname(wp, "encoder.layer.", i, ".attention.output.LayerNorm.bias")), one(indexed("layer_", i, ".attn_ln")), attrs1("hidden", hidden)));
    layer.push(mk_node(base + 11, Op::Matmul, two(indexed("layer_", i, ".attn_ln"), wname(wp, "encoder.layer.", i, ".intermediate.dense.weight")), one(indexed("layer_", i, ".inter_out")), attrs2("n", inter, "k", hidden)));
    layer.push(mk_node(base + 12, Op::Add, two(indexed("layer_", i, ".inter_out"), wname(wp, "encoder.layer.", i, ".intermediate.dense.bias")), one(indexed("layer_", i, ".inter_biased")), attrs1("n", inter)));
    layer.push(mk_node(base + 13, Op::Gelu { approximate: false }, one(indexed("layer_", i, ".inter_biased")), one(indexed("layer_", i, ".inter_act")), attrs1("n", inter)));
    layer.push(mk_node(base + 14, Op::Matmul, two(indexed("layer_", i, ".inter_act"), wname(wp, "encoder.layer.", i, ".output.dense.weight")), one(indexed("layer_", i, ".output_dense")), attrs2("n", hidden, "k", inter)));
    layer.push(mk_node(base + 15, Op::Add, two(indexed("layer_", i, ".output_dense"), wname(wp, "encoder.layer.", i, ".output.dense.bias")), one(indexed("layer_", i, ".output_biased")), attrs1("n", hidden)));
    layer.push(mk_node(base + 16, Op::Add, two(indexed("layer_", i, ".attn_ln"), indexed("layer_", i, ".output_biased")), one(indexed("layer_", i, ".residual2")), attrs1("n", hidden)));
    layer.push(mk_node(base + 17, Op::LayerNorm { eps: c.eps }, three(indexed("layer_", i, ".residual2"), wname(wp, "encoder.layer.", i, ".output.LayerNorm.weight"), wname(wp, "encoder.layer.", i, ".output.LayerNorm.bias")), one(indexed("layer_", i, ".output_ln")), attrs1("hidden", hidden)));
    append_nodes(g, layer);
}


/// The BERT hidden state after `n` layers.
pub open spec fn bert_hidden(n: nat) -> Seq<char> {
    if n == 0 {
        "embed_norm"@
    } else {
        indexed_name("layer_"@, (n - 1) as nat, ".output_ln"@)
    }
}

/// The weight-name prefix of a BERT config: empty, or the prefix and a dot.
pub open spec fn bert_wp(c: BertConfig) -> Seq<char> {
    if c.weight_prefix@.len() == 0 {
        ""@
    } else {
        c.weight_prefix@ + "."@
    }
}

/// A token embedding node's attributes: its width and its table's name.
pub open spec fn embed_attrs_are(n: Node, hidden: i64, table: Seq<char>) -> bool {
    &&& n.attrs@.dom() == set!["hidden"@, "embed_weight"@]
    &&& n.attrs@["hidden"@] == AttrValue::Int(hidden)
    &&& (n.attrs@["embed_weight"@] matches AttrValue::String(w) && w@ == table)
}

/// The BERT embedding stem, by node id (nodes 0 to 5): word, position and
/// token-type embeddings, their two sums and the LayerNorm.
pub open spec fn bert_stem(c: BertConfig, wp: Seq<char>) -> spec_fn(Node) -> bool {
    let hidden = c.hidden_size as i64;
    |n: Node| {
        &&& n.id == 0 ==> node_is(n, 0, Op::TokenEmbed, seq!["input_ids"@], seq!["word_embed"@])
            && embed_attrs_are(n, hidden, wp + "embeddings.word_embeddings.weight"@)
        &&& n.id == 1 ==> node_is(n, 1, Op::PosEmbed, seq!["position_ids"@], seq!["pos_embed"@])
            && n.attrs@ == int_attrs(seq![("hidden"@, hidden)])
        &&& n.id == 2 ==> node_is(n, 2, Op::TokenEmbed, seq!["token_type_ids"@], seq!["type_embed"@])
            && embed_attrs_are(n, hidden, wp + "embeddings.token_type_embeddings.weight"@)
        &&& n.id == 3 ==> node_is(n, 3, Op::Add, seq!["word_embed"@, "pos_embed"@], seq!["embed_sum1"@])
            && n.attrs@ == int_attrs(seq![("n"@, hidden)])
        &&& n.id == 4 ==> node_is(n, 4, Op::Add, seq!["embed_sum1"@, "type_embed"@], seq!["embed_sum2"@])
            && n.attrs@ == int_attrs(seq![("n"@, hidden)])
        &&& n.id == 5 ==> node_is(n, 5, Op::LayerNorm { eps: c.eps },
            seq!["embed_sum2"@, wp + "embeddings.LayerNorm.weight"@, wp + "embeddings.LayerNorm.bias"@], seq!["embed_norm"@])
            && n.attrs@ == int_attrs(seq![("hidden"@, hidden)])
    }
}

/// The BERT head, by node id (from `6 + 18 * num_layers`): the pooler
/// (dense, bias, tanh) and, with labels, the classifier (dense, bias, tanh,
/// output projection, bias producing `logits`).
pub open spec fn bert_head(c: BertConfig, wp: Seq<char>) -> spec_fn(Node) -> bool {
    let hidden = c.hidden_size as i64;
    let labels = c.num_labels as i64;
    let at = 6 + 18 * c.num_layers;
    |n: Node| {
        &&& n.id == at ==> node_is(n, at, Op::Matmul, seq![bert_hidden(c.num_layers as nat), wp + "pooler.dense.weight"@], seq!["pooler_dense"@])
            && n.attrs@ == int_attrs(seq![("n"@, hidden), ("k"@, hidden)])
        &&& n.id == at + 1 ==> node_is(n, at + 1, Op::Add, seq!["pooler_dense"@, wp + "pooler.dense.bias"@], seq!["pooler_biased"@])
            && n.attrs@ == int_attrs(seq![("n"@, hidden)])
        &&& n.id == at + 2 ==> node_is(n, at + 2, Op::Tanh, seq!["pooler_biased"@], seq!["pooler_output"@])
            && n.attrs@ == int_attrs(seq![("n"@, hidden)])
        &&& n.id == at + 3 ==> node_is(n, at + 3, Op::Matmul, seq!["pooler_output"@, "classifier.dense.weight"@], seq!["cls_dense"@])
            && n.attrs@ == int_attrs(seq![("n"@, hidden), ("k"@, hidden)])
        &&& n.id == at + 4 ==> node_is(n, at + 4, Op::Add, seq!["cls_dense"@, "classifier.dense.bias"@], seq!["cls_dense_biased"@])
            && n.attrs@ == int_attrs(seq![("n"@, hidden)])
        &&& n.id == at + 5 ==> node_is(n, at + 5, Op::Tanh, seq!["cls_dense_biased"@], seq!["cls_tanh"@])
            && n.attrs@ == int_attrs(seq![("n"@, hidden)])
        &&& n.id == at + 6 ==> node_is(n, at + 6, Op::Matmul, seq!["cls_tanh"@, "classifier.out_proj.weight"@], seq!["cls_out"@])
            && n.attrs@ == int_attrs(seq![("n"@, labels), ("k"@, hidden)])
        &&& n.id == at + 7 ==> node_is(n, at + 7, Op::Add, seq!["cls_out"@, "classifier.out_proj.bias"@], seq!["logits"@])
            && n.attrs@ == int_attrs(seq![("n"@, labels)])
    }
}

/// BERT layer `l` of a graph, at its place after the 6 stem nodes.
pub open spec fn bert_block(nodes: Seq<Node>, l: int, c: BertConfig) -> bool {
    bert_layer_is(nodes, 6 + 18 * l, l as nat, c, bert_wp(c))
}

/// BERT layers `0..n` stay as they are when nodes are appended.
proof fn lemma_bert_blocks_prefix(a: Seq<Node>, b: Seq<Node>, n: nat, c: BertConfig)
    requires
        6 + 18 * n <= a.len() <= b.len(),
        forall|j: int| 0 <= j < a.len() ==> #[trigger] b[j] == a[j],
        forall|l: int| 0 <= l < n ==> #[trigger] bert_block(a, l, c),
    ensures
        forall|l: int| 0 <= l < n ==> #[trigger] bert_block(b, l, c),
{
    assert forall|l: int| 0 <= l < n implies #[trigger] bert_block(b, l, c) by {
        assert(bert_block(a, l, c));
        lemma_bert_layer_prefix(a, b, 6 + 18 * l, l as nat, c, bert_wp(c));
    }
}

/// Nodes equal at every index below `n`: all nodes of `a` whose id is
/// below `n` are those of `s`.
proof fn lemma_same_prefix(a: Seq<Node>, s: Seq<Node>, n: int)
    requires
        0 <= n <= s.len(),
        n <= a.len(),
        ids_ok(a),
        all_in(a, 0, n, same_as(s)),
    ensures
        forall|j: int| 0 <= j < n ==> #[trigger] a[j] == s[j],
{
    assert forall|j: int| 0 <= j < n implies #[trigger] a[j] == s[j] by {
        assert((same_as(s))(a[j]));
    }
}

/// Build a BERT encoder graph with safetensors weight names: word +
/// position + token-type embeddings and LayerNorm; per layer biased Q/K/V
/// projections, bidirectional attention, output projection, residual and
/// LayerNorm, GELU MLP, residual and LayerNorm; the pooler (dense + tanh)
/// producing `pooler_output`; with `num_labels > 0` a classifier head
/// producing `logits`.
pub fn bert_encoder(config: &BertConfig) -> (g: Graph)
    requires
        14 + 18 * config.num_layers <= usize::MAX,
    ensures
        g.nodes@.len() == 9 + 18 * config.num_layers + if config.num_labels > 0 {
            5int
        } else {
            0int
        },
        ids_ok(g.nodes@),
        bidirectional(g.nodes@),
        all_in(g.nodes@, 0, 6, bert_stem(*config, bert_wp(*config))),
        forall|l: int| 0 <= l < config.num_layers ==> #[trigger] bert_block(g.nodes@, l, *config),
        all_in(g.nodes@, 6 + 18 * config.num_layers, g.nodes@.len() as int, bert_head(*config, bert_wp(*config))),
        names(g.nodes@[6 + 18 * config.num_layers + 2].outputs@) == seq!["pooler_output"@],
        config.num_labels > 0 ==> names(g.nodes@[g.nodes@.len() - 1].outputs@) == seq!["logits"@],
        g.tensors@.contains_key("input_ids"@),
        g.tensors@.contains_key("encoder_output"@),
        g.tensors@.contains_key("pooler_output"@),
        config.num_labels > 0 ==> g.tensors@.contains_key("logits"@),
{
    let mut g = Graph::new();
    let hidden = config.hidden_size as i64;
    let wp: String = if config.weight_prefix.as_str().unicode_len() == 0 {
        proof {
            reveal_strlit("");
        }
        owned("")
    } else {
        cat(config.weight_prefix.as_str(), ".")
    };
    let wp = wp.as_str();
    let ghost wps = bert_wp(*config);
    proof {
        reveal_strlit("");
        assert(wp@ == wps);
        lemma_int_attrs_small("hidden"@, hidden, "n"@, 0i64);
        reveal_strlit("hidden");
        reveal_strlit("embed_weight");
        assert("hidden"@.len() != "embed_weight"@.len());
    }
    let mut word_attrs = attrs1("hidden", hidden);
    word_attrs.insert(owned("embed_weight"), AttrValue::String(cat(wp, "embeddings.word_embeddings.weight")));
    proof {
        assert(word_attrs@.dom() =~= set!["hidden"@, "embed_weight"@]);
    }
    emit(&mut g, Op::TokenEmbed, one(owned("input_ids")), one(owned("word_embed")), word_attrs);
    proof {
        assert(all_in(g.nodes@, 0, 1, bert_stem(*config, wps)));
    }
    g.add_tensor(owned("input_ids"), TensorMeta {
        shape: vec![Dim::Dynamic(owned("seq_len"))],
        dtype: DType::U8,
        residency: Residency::Streamed,
    });
    emit(&mut g, Op::PosEmbed, one(owned("position_ids")), one(owned("pos_embed")), attrs1("hidden", hidden));
    proof {
        assert(all_in(g.nodes@, 1, 2, bert_stem(*config, wps)));
    }
    let mut type_attrs = attrs1("hidden", hidden);
    type_attrs.insert(owned("embed_weight"), AttrValue::String(cat(wp, "embeddings.token_type_embeddings.weight")));
    proof {
        assert(type_attrs@.dom() =~= set!["hidden"@, "embed_weight"@]);
    }
    emit(&mut g, Op::TokenEmbed, one(owned("token_type_ids")), one(owned("type_embed")), type_attrs);
    proof {
        assert(all_in(g.nodes@, 2, 3, bert_stem(*config, wps)));
    }
    emit(&mut g, Op::Add, two(owned("word_embed"), owned("pos_embed")), one(owned("embed_sum1")), attrs1("n", hidden));
    proof {
        assert(all_in(g.nodes@, 3, 4, bert_stem(*config, wps)));
    }
    emit(&mut g, Op::Add, two(owned("embed_sum1"), owned("type_embed")), one(owned("embed_sum2")), attrs1("n", hidden));
    proof {
        assert(all_in(g.nodes@, 4, 5, bert_stem(*config, wps)));
    }
    emit(&mut g, Op::LayerNorm { eps: config.eps },
        three(owned("embed_sum2"), cat(wp, "embeddings.LayerNorm.weight"), cat(wp, "embeddings.LayerNorm.bias")),
        one(owned("embed_norm")), attrs1("hidden", hidden));
    proof {
        assert(all_in(g.nodes@, 5, 6, bert_stem(*config, wps)));
        assert(all_in(g.nodes@, 0, 6, bert_stem(*config, wps))) by {
            assert forall|j: int| 0 <= j < 6 implies (bert_stem(*config, wps))(#[trigger] g.nodes@[j]) by {
                if j == 0 {
                    assert(all_in(g.nodes@, 0, 1, bert_stem(*config, wps)));
                } else if j == 1 {
                    assert(all_in(g.nodes@, 1, 2, bert_stem(*config, wps)));
                } else if j == 2 {
                    assert(all_in(g.nodes@, 2, 3, bert_stem(*config, wps)));
                } else if j == 3 {
                    assert(all_in(g.nodes@, 3, 4, bert_stem(*config, wps)));
                } else if j == 4 {
                    assert(all_in(g.nodes@, 4, 5, bert_stem(*config, wps)));
                }
            }
        }
    }
    let mut prev = owned("embed_norm");
    let mut i: usize = 0;
    while i < config.num_layers
        invariant
            14 + 18 * config.num_layers <= usize::MAX,
            i <= config.num_layers,
            g.nodes@.len() == 6 + 18 * i,
            ids_ok(g.nodes@),
            bidirectional(g.nodes@),
            g.tensors@.contains_key("input_ids"@),
            prev@ == bert_hidden(i as nat),
            wp@ == wps,
            wps == bert_wp(*config),
            all_in(g.nodes@, 0, 6, bert_stem(*config, wps)),
            forall|l: int| 0 <= l < i ==> #[trigger] bert_block(g.nodes@, l, *config),
        decreases config.num_layers - i,
    {
        let ghost before = g.nodes@;
        push_bert_layer(&mut g, config, i, prev.as_str(), wp);
        proof {
            lemma_bert_blocks_prefix(before, g.nodes@, i as nat, *config);
            lemma_bert_layer_props(g.nodes@, before.len() as int, i as nat, *config, wps);
            assert(bert_block(g.nodes@, i as int, *config));
            assert forall|j: int| 0 <= j < g.nodes@.len() implies (#[trigger] g.nodes@[j]).id == j by {
                if j < before.len() {
                    assert(g.nodes@[j] == before[j]);
                }
            }
            assert forall|j: int| 0 <= j < g.nodes@.len() implies !((#[trigger] g.nodes@[j]).op matches Op::Sdpa { causal, .. } && causal) by {
                if j < before.len() {
                    assert(g.nodes@[j] == before[j]);
                } else {
                    assert((not_causal())(g.nodes@[j]));
                }
            }
            assert(all_in(g.nodes@, 0, 6, bert_stem(*config, wps))) by {
                assert forall|j: int| 0 <= j < 6 implies (bert_stem(*config, wps))(#[trigger] g.nodes@[j]) by {
                    assert(g.nodes@[j] == before[j]);
                }
            }
        }
        prev = indexed("layer_", i, ".output_ln");
        i = i + 1;
    }
    let ghost body = g.nodes@;
    let ghost at = body.len() as int;
    proof {
        assert(all_in(g.nodes@, 0, at, same_as(body)));
    }
    emit(&mut g, Op::Matmul, two(prev, cat(wp, "pooler.dense.weight")), one(owned("pooler_dense")), attrs2("n", hidden, "k", hidden));
    proof {
        assert(all_in(g.nodes@, at, at + 1, bert_head(*config, wps)));
    }
    emit(&mut g, Op::Add, two(owned("pooler_dense"), cat(wp, "pooler.dense.bias")), one(owned("pooler_biased")), attrs1("n", hidden));
    proof {
        assert(all_in(g.nodes@, at + 1, at + 2, bert_head(*config, wps)));
    }
    emit(&mut g, Op::Tanh, one(owned("pooler_biased")), one(owned("pooler_output")), attrs1("n", hidden));
    proof {
        assert(all_in(g.nodes@, at + 2, at + 3, bert_head(*config, wps)));
    }
    let ghost pooler_at = g.nodes@.len() - 1;
    let ghost pooler_node = g.nodes@.last();
    g.add_tensor(owned("encoder_output"), TensorMeta {
        shape: vec![Dim::Dynamic(owned("seq_len")), Dim::Fixed(config.hidden_size)],
        dtype: DType::F32,
        residency: Residency::Streamed,
    });
    if config.num_labels > 0 {
        let labels = config.num_labels as i64;
        emit(&mut g, Op::Matmul, two(owned("pooler_output"), owned("classifier.dense.weight")), one(owned("cls_dense")), attrs2("n", hidden, "k", hidden));
        proof {
            assert(all_in(g.nodes@, at + 3, at + 4, bert_head(*config, wps)));
        }
        emit(&mut g, Op::Add, two(owned("cls_dense"), owned("classifier.dense.bias")), one(owned("cls_dense_biased")), attrs1("n", hidden));
        proof {
            assert(all_in(g.nodes@, at + 4, at + 5, bert_head(*config, wps)));
        }
        emit(&mut g, Op::Tanh, one(owned("cls_dense_biased")), one(owned("cls_tanh")), attrs1("n", hidden));
        proof {
            assert(all_in(g.nodes@, at + 5, at + 6, bert_head(*config, wps)));
        }
        emit(&mut g, Op::Matmul, two(owned("cls_tanh"), owned("classifier.out_proj.weight")), one(owned("cls_out")), attrs2("n", labels, "k", hidden));
        proof {
            assert(all_in(g.nodes@, at + 6, at + 7, bert_head(*config, wps)));
        }
        emit(&mut g, Op::Add, two(owned("cls_out"), owned("classifier.out_proj.bias")), one(owned("logits")), attrs1("n", labels));
        proof {
            assert(all_in(g.nodes@, at + 7, at + 8, bert_head(*config, wps)));
        }
        g.add_tensor(owned("logits"), TensorMeta {
            shape: vec![Dim::Fixed(config.num_labels)],
            dtype: DType::F32,
            residency: Residency::Streamed,
        });
        proof {
            assert(g.nodes@[pooler_at] == pooler_node);
        }
    }
    g.add_tensor(owned("pooler_output"), TensorMeta {
        shape: vec![Dim::Fixed(config.hidden_size)],
        dtype: DType::F32,
        residency: Residency::Streamed,
    });
    proof {
        assert(all_in(g.nodes@, at, g.nodes@.len() as int, bert_head(*config, wps))) by {
            assert forall|j: int| at <= j < g.nodes@.len() implies (bert_head(*config, wps))(#[trigger] g.nodes@[j]) by {
                if j == at {
                    assert(all_in(g.nodes@, at, at + 1, bert_head(*config, wps)));
                } else if j == at + 1 {
                    assert(all_in(g.nodes@, at + 1, at + 2, bert_head(*config, wps)));
                } else if j == at + 2 {
                    assert(all_in(g.nodes@, at + 2, at + 3, bert_head(*config, wps)));
                } else if j == at + 3 {
                    assert(all_in(g.nodes@, at + 3, at + 4, bert_head(*config, wps)));
                } else if j == at + 4 {
                    assert(all_in(g.nodes@, at + 4, at + 5, bert_head(*config, wps)));
                } else if j == at + 5 {
                    assert(all_in(g.nodes@, at + 5, at + 6, bert_head(*config, wps)));
                } else if j == at + 6 {
                    assert(all_in(g.nodes@, at + 6, at + 7, bert_head(*config, wps)));
                } else {
                    assert(all_in(g.nodes@, at + 7, at + 8, bert_head(*config, wps)));
                }
            }
        }
        lemma_same_prefix(g.nodes@, body, at);
        lemma_bert_blocks_prefix(body, g.nodes@, config.num_layers as nat, *config);
    }
    g
}


// ---- Whisper ----

/// Configuration for Whisper models.
#[derive(Clone, Copy, Debug)]
pub struct WhisperConfig {
    pub n_audio_state: usize,
    pub n_audio_head: usize,
    pub n_audio_layer: usize,
    pub n_audio_ctx: usize,
    pub n_text_state: usize,
    pub n_text_head: usize,
    pub n_text_layer: usize,
    pub n_text_ctx: usize,
    pub n_vocab: usize,
    pub n_mels: usize,
    /// Norm epsilon (IEEE-754 bits).
    pub eps: F32Bits,
}

impl Default for WhisperConfig {
    /// Whisper-small-like: 768 states and 12 heads and 12 layers on both
    /// sides, 1500 audio positions, 448 text positions, 51865 tokens, 80
    /// mel bins, eps 1e-5.
    fn default() -> (r: Self)
        ensures
            r.n_audio_state == 768 && r.n_audio_head == 12 && r.n_audio_layer == 12 && r.n_audio_ctx == 1500,
            r.n_text_state == 768 && r.n_text_head == 12 && r.n_text_layer == 12 && r.n_text_ctx == 448,
            r.n_vocab == 51865 && r.n_mels == 80 && r.eps == F32Bits(0x3727c5ac),
    {
        WhisperConfig {
            n_audio_state: 768,
            n_audio_head: 12,
            n_audio_layer: 12,
            n_audio_ctx: 1500,
            n_text_state: 768,
            n_text_head: 12,
            n_text_layer: 12,
            n_text_ctx: 448,
            n_vocab: 51865,
            n_mels: 80,
            eps: F32Bits(0x3727c5ac),
        }
    }
}

/// A node whose attention, if it has one, is not causal.
pub open spec fn not_causal() -> spec_fn(Node) -> bool {
    |n: Node| !(n.op matches Op::Sdpa { causal, .. } && causal)
}

/// A node whose self-attention, if it has one, is causal.
pub open spec fn causal_only() -> spec_fn(Node) -> bool {
    |n: Node| (n.op matches Op::Sdpa { causal, .. } ==> causal)
}

/// A node that, if it is a cross-attention, attends to `src` (its second
/// input).
pub open spec fn cross_reads(src: Seq<char>) -> spec_fn(Node) -> bool {
    |n: Node| (n.op is SdpaCross ==> names(n.inputs@).len() == 2 && names(n.inputs@)[1] == src)
}

/// Node `id` with the given op, inputs and outputs.
pub open spec fn is_node(id: int, op: Op, ins: Seq<Seq<char>>, outs: Seq<Seq<char>>) -> spec_fn(Node) -> bool {
    |n: Node| node_is(n, id, op, ins, outs)
}

/// The encoder hidden state after `a` blocks.
pub open spec fn enc_hidden(a: nat) -> Seq<char> {
    if a == 0 {
        "enc.pos_add"@
    } else {
        indexed_name("enc.block_"@, (a - 1) as nat, ".residual2"@)
    }
}

/// The decoder hidden state after `t` blocks.
pub open spec fn dec_hidden(t: nat) -> Seq<char> {
    if t == 0 {
        "dec.pos_add"@
    } else {
        indexed_name("dec.block_"@, (t - 1) as nat, ".residual3"@)
    }
}

/// The sizes the Whisper template computes fit in `usize`, and both
/// sides have at least one head.
pub open spec fn whisper_fits(c: WhisperConfig) -> bool {
    &&& c.n_audio_head > 0
    &&& c.n_text_head > 0
    &&& c.n_audio_ctx * 2 <= usize::MAX
    &&& c.n_audio_state * (c.n_audio_ctx * 2) <= usize::MAX
    &&& c.n_audio_state * c.n_audio_ctx <= usize::MAX
    &&& c.n_audio_state * 4 <= usize::MAX
    &&& c.n_text_state * 4 <= usize::MAX
    &&& 10 + 17 * c.n_audio_layer + 25 * c.n_text_layer <= usize::MAX
}

/// The first node: the first convolution over the mel spectrogram.
pub open spec fn whisper_conv1() -> spec_fn(Node) -> bool {
    is_node(0, Op::Conv1d { kernel: 3, stride: 1, padding: 1, groups: 1 },
        seq!["audio_input"@, "encoder.conv1.weight"@, "encoder.conv1.bias"@], seq!["enc.conv1_out"@])
}

/// Where the encoder's final LayerNorm stands.
pub open spec fn whisper_enc_out_at(c: WhisperConfig) -> int {
    5 + 17 * c.n_audio_layer
}

/// The encoder's final LayerNorm, producing `enc.output`.
pub open spec fn whisper_enc_out(c: WhisperConfig) -> spec_fn(Node) -> bool {
    |n: Node| node_is(n, whisper_enc_out_at(c), Op::LayerNorm { eps: c.eps },
        seq![enc_hidden(c.n_audio_layer as nat), "encoder.ln_post.weight"@, "encoder.ln_post.bias"@], seq!["enc.output"@])
        && n.attrs@ == int_attrs(seq![("hidden"@, c.n_audio_state as i64), ("positions"@, c.n_audio_ctx as i64)])
}


/// `enc.block_<i><tail>`.
pub open spec fn wenc(i: nat, tail: Seq<char>) -> Seq<char> {
    indexed_name("enc.block_"@, i, tail)
}

/// `encoder.blocks.<i><tail>` (GGML weight names).
pub open spec fn wencw(i: nat, tail: Seq<char>) -> Seq<char> {
    indexed_name("encoder.blocks."@, i, tail)
}

/// The nodes `nodes[base..base + 17]` are encoder block `i`: LayerNorm,
/// biased query, unbiased key, biased value, bidirectional attention (V
/// named by the `v_tensor` attribute), biased output projection, residual,
/// LayerNorm, biased `mlp.0`, GELU, biased `mlp.2`, residual; with their
/// size attributes.
pub open spec fn whisper_enc_layer_is(nodes: Seq<Node>, base: int, i: nat, c: WhisperConfig) -> bool {
    let audio = c.n_audio_state as i64;
    let a_pos = c.n_audio_ctx as i64;
    let a_mlp = (c.n_audio_state * 4) as i64;
    let prev = enc_hidden(i);
    &&& node_is(nodes[base], base, Op::LayerNorm { eps: c.eps }, seq![prev, wencw(i, ".attn_ln.weight"@), wencw(i, ".attn_ln.bias"@)], seq![wenc(i, ".attn_ln_out"@)])
    &&& nodes[base].attrs@ == int_attrs(seq![("hidden"@, audio), ("positions"@, a_pos)])
    &&& node_is(nodes[base + 1], base + 1, Op::Matmul, seq![wenc(i, ".attn_ln_out"@), wencw(i, ".attn.query.weight"@)], seq![wenc(i, ".q_out"@)])
    &&& nodes[base + 1].attrs@ == int_attrs(seq![("n"@, audio), ("k"@, audio)])
    &&& node_is(nodes[base + 2], base + 2, Op::Add, seq![wenc(i, ".q_out"@), wencw(i, ".attn.query.bias"@)], seq![wenc(i, ".q_biased"@)])
    &&& nodes[base + 2].attrs@ == int_attrs(seq![("n"@, audio)])
    &&& node_is(nodes[base + 3], base + 3, Op::Matmul, seq![wenc(i, ".attn_ln_out"@), wencw(i, ".attn.key.weight"@)], seq![wenc(i, ".k_out"@)])
    &&& nodes[base + 3].attrs@ == int_attrs(seq![("n"@, audio), ("k"@, audio)])
    &&& node_is(nodes[base + 4], base + 4, Op::Matmul, seq![wenc(i, ".attn_ln_out"@), wencw(i, ".attn.value.weight"@)], seq![wenc(i, ".v_out"@)])
    &&& nodes[base + 4].attrs@ == int_attrs(seq![("n"@, audio), ("k"@, audio)])
    &&& node_is(nodes[base + 5], base + 5, Op::Add, seq![wenc(i, ".v_out"@), wencw(i, ".attn.value.bias"@)], seq![wenc(i, ".v_biased"@)])
    &&& nodes[base + 5].attrs@ == int_attrs(seq![("n"@, audio)])
    &&& node_is(nodes[base + 6], base + 6, Op::Sdpa {
        num_heads: c.n_audio_head as u32,
        kv_heads: c.n_audio_head as u32,
        head_dim: (c.n_audio_state / c.n_audio_head) as u32,
        causal: false,
    }, seq![wenc(i, ".q_biased"@), wenc(i, ".k_out"@)], seq![wenc(i, ".attn_out"@)])
    &&& nodes[base + 6].attrs@.dom() == set!["hidden"@, "positions"@, "v_tensor"@]
    &&& nodes[base + 6].attrs@["hidden"@] == AttrValue::Int(audio)
    &&& nodes[base + 6].attrs@["positions"@] == AttrValue::Int(a_pos)
    &&& (nodes[base + 6].attrs@["v_tensor"@] matches AttrValue::String(v) && v@ == wenc(i, ".v_biased"@))
    &&& node_is(nodes[base + 7], base + 7, Op::Matmul, seq![wenc(i, ".attn_out"@), wencw(i, ".attn.out.weight"@)], seq![wenc(i, ".o_out"@)])
    &&& nodes[base + 7].attrs@ == int_attrs(seq![("n"@, audio), ("k"@, audio)])
    &&& node_is(nodes[base + 8], base + 8, Op::Add, seq![wenc(i, ".o_out"@), wencw(i, ".attn.out.bias"@)], seq![wenc(i, ".o_biased"@)])
    &&& nodes[base + 8].attrs@ == int_attrs(seq![("n"@, audio)])
    &&& node_is(nodes[base + 9], base + 9, Op::Add, seq![prev, wenc(i, ".o_biased"@)], seq![wenc(i, ".residual1"@)])
    &&& nodes[base + 9].attrs@ == int_attrs(seq![("n"@, audio)])
    &&& node_is(nodes[base + 10], base + 10, Op::LayerNorm { eps: c.eps }, seq![wenc(i, ".residual1"@), wencw(i, ".mlp_ln.weight"@), wencw(i, ".mlp_ln.bias"@)], seq![wenc(i, ".mlp_ln_out"@)])
    &&& nodes[base + 10].attrs@ == int_attrs(seq![("hidden"@, audio), ("positions"@, a_pos)])
    &&& node_is(nodes[base + 11], base + 11, Op::Matmul, seq![wenc(i, ".mlp_ln_out"@), wencw(i, ".mlp.0.weight"@)], seq![wenc(i, ".mlp_up"@)])
    &&& nodes[base + 11].attrs@ == int_attrs(seq![("n"@, a_mlp), ("k"@, audio)])
    &&& node_is(nodes[base + 12], base + 12, Op::Add, seq![wenc(i, ".mlp_up"@), wencw(i, ".mlp.0.bias"@)], seq![wenc(i, ".mlp_up_biased"@)])
    &&& nodes[base + 12].attrs@ == int_attrs(seq![("n"@, a_mlp)])
    &&& node_is(nodes[base + 13], base + 13, Op::Gelu { approximate: false }, seq![wenc(i, ".mlp_up_biased"@)], seq![wenc(i, ".mlp_act"@)])
    &&& nodes[base + 13].attrs@ == int_attrs(seq![("n"@, a_mlp)])
    &&& node_is(nodes[base + 14], base + 14, Op::Matmul, seq![wenc(i, ".mlp_act"@), wencw(i, ".mlp.2.weight"@)], seq![wenc(i, ".mlp_down"@)])
    &&& nodes[base + 14].attrs@ == int_attrs(seq![("n"@, audio), ("k"@, a_mlp)])
    &&& node_is(nodes[base + 15], base + 15, Op::Add, seq![wenc(i, ".mlp_down"@), wencw(i, ".mlp.2.bias"@)], seq![wenc(i, ".mlp_down_biased"@)])
    &&& nodes[base + 15].attrs@ == int_attrs(seq![("n"@, audio)])
    &&& node_is(nodes[base + 16], base + 16, Op::Add, seq![wenc(i, ".residual1"@), wenc(i, ".mlp_down_biased"@)], seq![wenc(i, ".residual2"@)])
    &&& nodes[base + 16].attrs@ == int_attrs(seq![("n"@, audio)])
}

/// An encoder block description only reads its own nodes.
proof fn lemma_wenc_layer_prefix(a: Seq<Node>, b: Seq<Node>, base: int, i: nat, c: WhisperConfig)
    requires
        0 <= base,
        base + 17 <= a.len(),
        a.len() <= b.len(),
        forall|j: int| 0 <= j < a.len() ==> #[trigger] b[j] == a[j],
        whisper_enc_layer_is(a, base, i, c),
    ensures
        whisper_enc_layer_is(b, base, i, c),
{
    assert forall|k: int| 0 <= k < 17 implies #[trigger] b[base + k] == a[base + k] by {}
}

/// The nodes of an encoder block keep their positions as ids, are not
/// causal and hold no cross-attention.
proof fn lemma_wenc_layer_props(nodes: Seq<Node>, base: int, i: nat, c: WhisperConfig)
    requires
        0 <= base,
        base + 17 <= nodes.len(),
        whisper_enc_layer_is(nodes, base, i, c),
    ensures
        forall|j: int| base <= j < base + 17 ==> (#[trigger] nodes[j]).id == j && (not_causal())(nodes[j]) && (cross_reads("enc.output"@))(nodes[j]),
{
    assert forall|j: int| base <= j < base + 17 implies (#[trigger] nodes[j]).id == j && (not_causal())(nodes[j]) && (cross_reads("enc.output"@))(nodes[j]) by {
        let k = j - base;
        assert(0 <= k < 17);
        assert(nodes[base + k] == nodes[j]);
    }
}

/// Encoder block `l` of a Whisper graph, at its place after the 5 stem nodes.
pub open spec fn whisper_enc_block(nodes: Seq<Node>, l: int, c: WhisperConfig) -> bool {
    whisper_enc_layer_is(nodes, 5 + 17 * l, l as nat, c)
}

/// A node equal to the node of `s` at the node's own id.
pub open spec fn same_as(s: Seq<Node>) -> spec_fn(Node) -> bool {
    |n: Node| 0 <= n.id < s.len() && n == s[n.id as int]
}

/// Encoder blocks `0..n` stay as they are when nodes are appended.
proof fn lemma_wenc_blocks_prefix(a: Seq<Node>, b: Seq<Node>, n: nat, c: WhisperConfig)
    requires
        5 + 17 * n <= a.len() <= b.len(),
        forall|j: int| 0 <= j < a.len() ==> #[trigger] b[j] == a[j],
        forall|l: int| 0 <= l < n ==> #[trigger] whisper_enc_block(a, l, c),
    ensures
        forall|l: int| 0 <= l < n ==> #[trigger] whisper_enc_block(b, l, c),
{
    assert forall|l: int| 0 <= l < n implies #[trigger] whisper_enc_block(b, l, c) by {
        assert(whisper_enc_block(a, l, c));
        lemma_wenc_layer_prefix(a, b, 5 + 17 * l, l as nat, c);
    }
}

/// Append encoder block `i`.
fn push_whisper_enc_layer(g: &mut Graph, c: &WhisperConfig, i: usize)
    requires
        whisper_fits(*c),
        old(g).nodes@.len() + 17 <= usize::MAX,
    ensures
        final(g).nodes@.len() == old(g).nodes@.len() + 17,
        forall|j: int| 0 <= j < old(g).nodes@.len() ==> #[trigger] final(g).nodes@[j] == old(g).nodes@[j],
        whisper_enc_layer_is(final(g).nodes@, old(g).nodes@.len() as int, i as nat, *c),
        final(g).weights == old(g).weights,
        final(g).tensors == old(g).tensors,
{
    let base = g.nodes.len();
    let audio = c.n_audio_state as i64;
    let a_pos = c.n_audio_ctx as i64;
    let a_mlp = (c.n_audio_state * 4) as i64;
    let a_head_dim = c.n_audio_state / c.n_audio_head;
    let prev: String = if i == 0 {
        owned("enc.pos_add")
    } else {
        indexed("enc.block_", i - 1, ".residual2")
    };
    let mut layer: Vec<Node> = Vec::new();
    layer.push(mk_node(base, Op::LayerNorm { eps: c.eps },
        three(owned(prev.as_str()), indexed("encoder.blocks.", i, ".attn_ln.weight"), indexed("encoder.blocks.", i, ".attn_ln.bias")),
        one(indexed("enc.block_", i, ".attn_ln_out")), attrs2("hidden", audio, "positions", a_pos)));
    layer.push(mk_node(base + 1, Op::Matmul, two(indexed("enc.block_", i, ".attn_ln_out"), indexed("encoder.blocks.", i, ".attn.query.weight")),
        one(indexed("enc.block_", i, ".q_out")), attrs2("n", audio, "k", audio)));
    layer.push(mk_node(base + 2, Op::Add, two(indexed("enc.block_", i, ".q_out"), indexed("encoder.blocks.", i, ".attn.query.bias")),
        one(indexed("enc.block_", i, ".q_biased")), attrs1("n", audio)));
    layer.push(mk_node(base + 3, Op::Matmul, two(indexed("enc.block_", i, ".attn_ln_out"), indexed("encoder.blocks.", i, ".attn.key.weight")),
        one(indexed("enc.block_", i, ".k_out")), attrs2("n", audio, "k", audio)));
    layer.push(mk_node(base + 4, Op::Matmul, two(indexed("enc.block_", i, ".attn_ln_out"), indexed("encoder.blocks.", i, ".attn.value.weight")),
        one(indexed("enc.block_", i, ".v_out")), attrs2("n", audio, "k", audio)));
    layer.push(mk_node(base + 5, Op::Add, two(indexed("enc.block_", i, ".v_out"), indexed("encoder.blocks.", i, ".attn.value.bias")),
        one(indexed("enc.block_", i, ".v_biased")), attrs1("n", audio)));
    let mut sdpa_attrs = attrs2("hidden", audio, "positions", a_pos);
    sdpa_attrs.insert(owned("v_tensor"), AttrValue::String(indexed("enc.block_", i, ".v_biased")));
    proof {
        lemma_int_attrs_small("hidden"@, audio, "positions"@, a_pos);
        reveal_strlit("hidden");
        reveal_strlit("positions");
        reveal_strlit("v_tensor");
        assert("hidden"@.len() != "v_tensor"@.len());
        assert("positions"@.len() != "v_tensor"@.len());
        assert("hidden"@.len() != "positions"@.len());
        assert(sdpa_attrs@.dom() =~= set!["hidden"@, "positions"@, "v_tensor"@]);
    }
    layer.push(mk_node(base + 6, Op::Sdpa {
            num_heads: c.n_audio_head as u32,
            kv_heads: c.n_audio_head as u32,
            head_dim: a_head_dim as u32,
            causal: false,
        },
        two(indexed("enc.block_", i, ".q_biased"), indexed("enc.block_", i, ".k_out")),
        one(indexed("enc.block_", i, ".attn_out")), sdpa_attrs));
    layer.push(mk_node(base + 7, Op::Matmul, two(indexed("enc.block_", i, ".attn_out"), indexed("encoder.blocks.", i, ".attn.out.weight")),
        one(indexed("enc.block_", i, ".o_out")), attrs2("n", audio, "k", audio)));
    layer.push(mk_node(base + 8, Op::Add, two(indexed("enc.block_", i, ".o_out"), indexed("encoder.blocks.", i, ".attn.out.bias")),
        one(indexed("enc.block_", i, ".o_biased")), attrs1("n", audio)));
    layer.push(mk_node(base + 9, Op::Add, two(prev, indexed("enc.block_", i, ".o_biased")),
        one(indexed("enc.block_", i, ".residual1")), attrs1("n", audio)));
    layer.push(mk_node(base + 10, Op::LayerNorm { eps: c.eps },
        three(indexed("enc.block_", i, ".residual1"), indexed("encoder.blocks.", i, ".mlp_ln.weight"), indexed("encoder.blocks.", i, ".mlp_ln.bias")),
        one(indexed("enc.block_", i, ".mlp_ln_out")), attrs2("hidden", audio, "positions", a_pos)));
    layer.push(mk_node(base + 11, Op::Matmul, two(indexed("enc.block_", i, ".mlp_ln_out"), indexed("encoder.blocks.", i, ".mlp.0.weight")),
        one(indexed("enc.block_", i, ".mlp_up")), attrs2("n", a_mlp, "k", audio)));
    layer.push(mk_node(base + 12, Op::Add, two(indexed("enc.block_", i, ".mlp_up"), indexed("encoder.blocks.", i, ".mlp.0.bias")),
        one(indexed("enc.block_", i, ".mlp_up_biased")), attrs1("n", a_mlp)));
    layer.push(mk_node(base + 13, Op::Gelu { approximate: false }, one(indexed("enc.block_", i, ".mlp_up_biased")),
        one(indexed("enc.block_", i, ".mlp_act")), attrs1("n", a_mlp)));
    layer.push(mk_node(base + 14, Op::Matmul, two(indexed("enc.block_", i, ".mlp_act"), indexed("encoder.blocks.", i, ".mlp.2.weight")),
        one(indexed("enc.block_", i, ".mlp_down")), attrs2("n", audio, "k", a_mlp)));
    layer.push(mk_node(base + 15, Op::Add, two(indexed("enc.block_", i, ".mlp_down"), indexed("encoder.blocks.", i, ".mlp.2.bias")),
        one(indexed("enc.block_", i, ".mlp_down_biased")), attrs1("n", audio)));
    layer.push(mk_node(base + 16, Op::Add, two(indexed("enc.block_", i, ".residual1"), indexed("enc.block_", i, ".mlp_down_biased")),
        one(indexed("enc.block_", i, ".residual2")), attrs1("n", audio)));
    append_nodes(g, layer);
}

/// Integer attributes with one more pair appended.
proof fn lemma_int_attrs_push(pairs: Seq<(Seq<char>, i64)>, k: Seq<char>, v: i64)
    ensures
        int_attrs(pairs.push((k, v))) == int_attrs(pairs).insert(k, AttrValue::Int(v)),
{
    assert(pairs.push((k, v)).drop_last() =~= pairs);
}

/// The Whisper encoder stem, by node id (nodes 0 to 4): convolution 1
/// (stride 1), GELU, convolution 2 (stride 2), GELU, and the positional
/// embedding added; with their size attributes.
pub open spec fn whisper_enc_stem(c: WhisperConfig) -> spec_fn(Node) -> bool {
    let audio = c.n_audio_state as i64;
    let in_len = (c.n_audio_ctx * 2) as i64;
    let frames = (c.n_audio_state * c.n_audio_ctx) as i64;
    |n: Node| {
        &&& n.id == 0 ==> node_is(n, 0, Op::Conv1d { kernel: 3, stride: 1, padding: 1, groups: 1 },
            seq!["audio_input"@, "encoder.conv1.weight"@, "encoder.conv1.bias"@], seq!["enc.conv1_out"@])
            && n.attrs@ == int_attrs(seq![("in_channels"@, c.n_mels as i64), ("out_channels"@, audio), ("in_length"@, in_len)])
        &&& n.id == 1 ==> node_is(n, 1, Op::Gelu { approximate: false }, seq!["enc.conv1_out"@], seq!["enc.conv1_act"@])
            && n.attrs@ == int_attrs(seq![("n"@, (c.n_audio_state * (c.n_audio_ctx * 2)) as i64)])
        &&& n.id == 2 ==> node_is(n, 2, Op::Conv1d { kernel: 3, stride: 2, padding: 1, groups: 1 },
            seq!["enc.conv1_act"@, "encoder.conv2.weight"@, "encoder.conv2.bias"@], seq!["enc.conv2_out"@])
            && n.attrs@ == int_attrs(seq![("in_channels"@, audio), ("out_channels"@, audio), ("in_length"@, in_len)])
        &&& n.id == 3 ==> node_is(n, 3, Op::Gelu { approximate: false }, seq!["enc.conv2_out"@], seq!["enc.conv2_act"@])
            && n.attrs@ == int_attrs(seq![("n"@, frames)])
        &&& n.id == 4 ==> node_is(n, 4, Op::Add, seq!["enc.conv2_act"@, "encoder.positional_embedding"@], seq!["enc.pos_add"@])
            && n.attrs@ == int_attrs(seq![("n"@, frames)])
    }
}

/// The Whisper decoder stem, by node id (the two nodes after the
/// encoder): token embedding (with the `embed_weight` attribute naming the
/// token embedding) and the positional embedding added.
pub open spec fn whisper_dec_stem(c: WhisperConfig) -> spec_fn(Node) -> bool {
    let at = whisper_enc_out_at(c) + 1;
    let text = c.n_text_state as i64;
    |n: Node| {
        &&& n.id == at ==> node_is(n, at, Op::TokenEmbed, seq!["decoder_input_ids"@], seq!["dec.token_embed"@])
            && n.attrs@.dom() == set!["hidden"@, "embed_weight"@] && n.attrs@["hidden"@] == AttrValue::Int(text)
            && (n.attrs@["embed_weight"@] matches AttrValue::String(w) && w@ == "decoder.token_embedding.weight"@)
        &&& n.id == at + 1 ==> node_is(n, at + 1, Op::Add, seq!["dec.token_embed"@, "decoder.positional_embedding"@], seq!["dec.pos_add"@])
            && n.attrs@ == int_attrs(seq![("n"@, text)])
    }
}

/// `dec.block_<i><tail>`.
pub open spec fn wdec(i: nat, tail: Seq<char>) -> Seq<char> {
    indexed_name("dec.block_"@, i, tail)
}

/// `decoder.blocks.<i><tail>` (GGML weight names).
pub open spec fn wdecw(i: nat, tail: Seq<char>) -> Seq<char> {
    indexed_name("decoder.blocks."@, i, tail)
}

/// The nodes `nodes[base..base + 25]` are decoder block `i`: LayerNorm,
/// biased query, unbiased key, biased value, the KV cache on the key,
/// causal self-attention over the cache (V named by the `v_tensor`
/// attribute), biased output projection, residual; LayerNorm, biased
/// cross query, cross-attention over `enc.output`, biased cross output
/// projection, residual; LayerNorm, biased `mlp.0`, GELU, biased `mlp.2`,
/// residual; with their size attributes.
pub open spec fn whisper_dec_layer_is(nodes: Seq<Node>, base: int, i: nat, c: WhisperConfig) -> bool {
    let text = c.n_text_state as i64;
    let t_mlp = (c.n_text_state * 4) as i64;
    let prev = dec_hidden(i);
    &&& node_is(nodes[base], base, Op::LayerNorm { eps: c.eps }, seq![prev, wdecw(i, ".attn_ln.weight"@), wdecw(i, ".attn_ln.bias"@)], seq![wdec(i, ".attn_ln_out"@)])
    &&& nodes[base].attrs@ == int_attrs(seq![("hidden"@, text), ("positions"@, 1i64)])
    &&& node_is(nodes[base + 1], base + 1, Op::Matmul, seq![wdec(i, ".attn_ln_out"@), wdecw(i, ".attn.query.weight"@)], seq![wdec(i, ".q_out"@)])
    &&& nodes[base + 1].attrs@ == int_attrs(seq![("n"@, text), ("k"@, text)])
    &&& node_is(nodes[base + 2], base + 2, Op::Add, seq![wdec(i, ".q_out"@), wdecw(i, ".attn.query.bias"@)], seq![wdec(i, ".q_biased"@)])
    &&& nodes[base + 2].attrs@ == int_attrs(seq![("n"@, text)])
    &&& node_is(nodes[base + 3], base + 3, Op::Matmul, seq![wdec(i, ".attn_ln_out"@), wdecw(i, ".attn.key.weight"@)], seq![wdec(i, ".k_out"@)])
    &&& nodes[base + 3].attrs@ == int_attrs(seq![("n"@, text), ("k"@, text)])
    &&& node_is(nodes[base + 4], base + 4, Op::Matmul, seq![wdec(i, ".attn_ln_out"@), wdecw(i, ".attn.value.weight"@)], seq![wdec(i, ".v_out"@)])
    &&& nodes[base + 4].attrs@ == int_attrs(seq![("n"@, text), ("k"@, text)])
    &&& node_is(nodes[base + 5], base + 5, Op::Add, seq![wdec(i, ".v_out"@), wdecw(i, ".attn.value.bias"@)], seq![wdec(i, ".v_biased"@)])
    &&& nodes[base + 5].attrs@ == int_attrs(seq![("n"@, text)])
    &&& node_is(nodes[base + 6], base + 6, Op::KvCache, seq![wdec(i, ".k_out"@)], seq![wdec(i, ".kv_cached"@)])
    &&& nodes[base + 6].attrs@ == Map::<Seq<char>, AttrValue>::empty()
    &&& node_is(nodes[base + 7], base + 7, Op::Sdpa {
        num_heads: c.n_text_head as u32,
        kv_heads: c.n_text_head as u32,
        head_dim: (c.n_text_state / c.n_text_head) as u32,
        causal: true,
    }, seq![wdec(i, ".q_biased"@), wdec(i, ".kv_cached"@)], seq![wdec(i, ".self_attn_out"@)])
    &&& nodes[base + 7].attrs@.dom() == set!["hidden"@, "v_tensor"@]
    &&& nodes[base + 7].attrs@["hidden"@] == AttrValue::Int(text)
    &&& (nodes[base + 7].attrs@["v_tensor"@] matches AttrValue::String(v) && v@ == wdec(i, ".v_biased"@))
    &&& node_is(nodes[base + 8], base + 8, Op::Matmul, seq![wdec(i, ".self_attn_out"@), wdecw(i, ".attn.out.weight"@)], seq![wdec(i, ".o_out"@)])
    &&& nodes[base + 8].attrs@ == int_attrs(seq![("n"@, text), ("k"@, text)])
    &&& node_is(nodes[base + 9], base + 9, Op::Add, seq![wdec(i, ".o_out"@), wdecw(i, ".attn.out.bias"@)], seq![wdec(i, ".o_biased"@)])
    &&& nodes[base + 9].attrs@ == int_attrs(seq![("n"@, text)])
    &&& node_is(nodes[base + 10], base + 10, Op::Add, seq![prev, wdec(i, ".o_biased"@)], seq![wdec(i, ".residual1"@)])
    &&& nodes[base + 10].attrs@ == int_attrs(seq![("n"@, text)])
    &&& node_is(nodes[base + 11], base + 11, Op::LayerNorm { eps: c.eps }, seq![wdec(i, ".residual1"@), wdecw(i, ".cross_attn_ln.weight"@), wdecw(i, ".cross_attn_ln.bias"@)], seq![wdec(i, ".cross_attn_ln_out"@)])
    &&& nodes[base + 11].attrs@ == int_attrs(seq![("hidden"@, text), ("positions"@, 1i64)])
    &&& node_is(nodes[base + 12], base + 12, Op::Matmul, seq![wdec(i, ".cross_attn_ln_out"@), wdecw(i, ".cross_attn.query.weight"@)], seq![wdec(i, ".cross_q"@)])
    &&& nodes[base + 12].attrs@ == int_attrs(seq![("n"@, text), ("k"@, text)])
    &&& node_is(nodes[base + 13], base + 13, Op::Add, seq![wdec(i, ".cross_q"@), wdecw(i, ".cross_attn.query.bias"@)], seq![wdec(i, ".cross_q_biased"@)])
    &&& nodes[base + 13].attrs@ == int_attrs(seq![("n"@, text)])
    &&& node_is(nodes[base + 14], base + 14, Op::SdpaCross {
        num_heads: c.n_text_head as u32,
        head_dim: (c.n_text_state / c.n_text_head) as u32,
    }, seq![wdec(i, ".cross_q_biased"@), "enc.output"@], seq![wdec(i, ".cross_attn_out"@)])
    &&& nodes[base + 14].attrs@ == int_attrs(seq![("hidden"@, text)])
    &&& node_is(nodes[base + 15], base + 15, Op::Matmul, seq![wdec(i, ".cross_attn_out"@), wdecw(i, ".cross_attn.out.weight"@)], seq![wdec(i, ".cross_o"@)])
    &&& nodes[base + 15].attrs@ == int_attrs(seq![("n"@, text), ("k"@, text)])
    &&& node_is(nodes[base + 16], base + 16, Op::Add, seq![wdec(i, ".cross_o"@), wdecw(i, ".cross_attn.out.bias"@)], seq![wdec(i, ".cross_o_biased"@)])
    &&& nodes[base + 16].attrs@ == int_attrs(seq![("n"@, text)])
    &&& node_is(nodes[base + 17], base + 17, Op::Add, seq![wdec(i, ".residual1"@), wdec(i, ".cross_o_biased"@)], seq![wdec(i, ".residual2"@)])
    &&& nodes[base + 17].attrs@ == int_attrs(seq![("n"@, text)])
    &&& node_is(nodes[base + 18], base + 18, Op::LayerNorm { eps: c.eps }, seq![wdec(i, ".residual2"@), wdecw(i, ".mlp_ln.weight"@), wdecw(i, ".mlp_ln.bias"@)], seq![wdec(i, ".mlp_ln_out"@)])
    &&& nodes[base + 18].attrs@ == int_attrs(seq![("hidden"@, text), ("positions"@, 1i64)])
    &&& node_is(nodes[base + 19], base + 19, Op::Matmul, seq![wdec(i, ".mlp_ln_out"@), wdecw(i, ".mlp.0.weight"@)], seq![wdec(i, ".mlp_up"@)])
    &&& nodes[base + 19].attrs@ == int_attrs(seq![("n"@, t_mlp), ("k"@, text)])
    &&& node_is(nodes[base + 20], base + 20, Op::Add, seq![wdec(i, ".mlp_up"@), wdecw(i, ".mlp.0.bias"@)], seq![wdec(i, ".mlp_up_biased"@)])
    &&& nodes[base + 20].attrs@ == int_attrs(seq![("n"@, t_mlp)])
    &&& node_is(nodes[base + 21], base + 21, Op::Gelu { approximate: false }, seq![wdec(i, ".mlp_up_biased"@)], seq![wdec(i, ".mlp_act"@)])
    &&& nodes[base + 21].attrs@ == int_attrs(seq![("n"@, t_mlp)])
    &&& node_is(nodes[base + 22], base + 22, Op::Matmul, seq![wdec(i, ".mlp_act"@), wdecw(i, ".mlp.2.weight"@)], seq![wdec(i, ".mlp_down"@)])
    &&& nodes[base + 22].attrs@ == int_attrs(seq![("n"@, text), ("k"@, t_mlp)])
    &&& node_is(nodes[base + 23], base + 23, Op::Add, seq![wdec(i, ".mlp_down"@), wdecw(i, ".mlp.2.bias"@)], seq![wdec(i, ".mlp_down_biased"@)])
    &&& nodes[base + 23].attrs@ == int_attrs(seq![("n"@, text)])
    &&& node_is(nodes[base + 24], base + 24, Op::Add, seq![wdec(i, ".residual2"@), wdec(i, ".mlp_down_biased"@)], seq![wdec(i, ".residual3"@)])
    &&& nodes[base + 24].attrs@ == int_attrs(seq![("n"@, text)])
}

/// The KV cache tensor of a Whisper decoder block: `[total_seq, n_text_state]`,
/// F32, cached.
pub open spec fn whisper_kv_meta(m: TensorMeta, c: WhisperConfig) -> bool {
    &&& m.shape@.len() == 2
    &&& (m.shape@[0] matches Dim::Dynamic(s) && s@ == "total_seq"@)
    &&& m.shape@[1] == Dim::Fixed(c.n_text_state)
    &&& m.dtype == DType::F32
    &&& m.residency == Residency::Cached
}

/// Decoder block `l` of a Whisper graph, at its place after the encoder
/// and the 2 decoder stem nodes.
pub open spec fn whisper_dec_block(nodes: Seq<Node>, l: int, c: WhisperConfig) -> bool {
    whisper_dec_layer_is(nodes, 8 + 17 * c.n_audio_layer + 25 * l, l as nat, c)
}

/// A decoder block description only reads its own nodes.
proof fn lemma_wdec_layer_prefix(a: Seq<Node>, b: Seq<Node>, base: int, i: nat, c: WhisperConfig)
    requires
        0 <= base,
        base + 25 <= a.len(),
        a.len() <= b.len(),
        forall|j: int| 0 <= j < a.len() ==> #[trigger] b[j] == a[j],
        whisper_dec_layer_is(a, base, i, c),
    ensures
        whisper_dec_layer_is(b, base, i, c),
{
    assert forall|k: int| 0 <= k < 25 implies #[trigger] b[base + k] == a[base + k] by {}
}

/// Decoder blocks `0..n` stay as they are when nodes are appended.
proof fn lemma_wdec_blocks_prefix(a: Seq<Node>, b: Seq<Node>, n: nat, c: WhisperConfig)
    requires
        8 + 17 * c.n_audio_layer + 25 * n <= a.len() <= b.len(),
        forall|j: int| 0 <= j < a.len() ==> #[trigger] b[j] == a[j],
        forall|l: int| 0 <= l < n ==> #[trigger] whisper_dec_block(a, l, c),
    ensures
        forall|l: int| 0 <= l < n ==> #[trigger] whisper_dec_block(b, l, c),
{
    assert forall|l: int| 0 <= l < n implies #[trigger] whisper_dec_block(b, l, c) by {
        assert(whisper_dec_block(a, l, c));
        lemma_wdec_layer_prefix(a, b, 8 + 17 * c.n_audio_layer + 25 * l, l as nat, c);
    }
}

/// The nodes of a decoder block keep their positions as ids, attend
/// causally and cross-attend to `enc.output`.
proof fn lemma_wdec_layer_props(nodes: Seq<Node>, base: int, i: nat, c: WhisperConfig)
    requires
        0 <= base,
        base + 25 <= nodes.len(),
        whisper_dec_layer_is(nodes, base, i, c),
    ensures
        forall|j: int| base <= j < base + 25 ==> (#[trigger] nodes[j]).id == j && (causal_only())(nodes[j]) && (cross_reads("enc.output"@))(nodes[j]),
{
    assert forall|j: int| base <= j < base + 25 implies (#[trigger] nodes[j]).id == j && (causal_only())(nodes[j]) && (cross_reads("enc.output"@))(nodes[j]) by {
        let k = j - base;
        assert(0 <= k < 25);
        assert(nodes[base + k] == nodes[j]);
    }
}

/// Append decoder block `i` and register its KV cache tensor.
fn push_whisper_dec_layer(g: &mut Graph, c: &WhisperConfig, i: usize)
    requires
        whisper_fits(*c),
        old(g).nodes@.len() + 25 <= usize::MAX,
    ensures
        final(g).nodes@.len() == old(g).nodes@.len() + 25,
        forall|j: int| 0 <= j < old(g).nodes@.len() ==> #[trigger] final(g).nodes@[j] == old(g).nodes@[j],
        whisper_dec_layer_is(final(g).nodes@, old(g).nodes@.len() as int, i as nat, *c),
        final(g).weights == old(g).weights,
        final(g).tensors@ == old(g).tensors@.insert(wdec(i as nat, ".kv_cached"@), final(g).tensors@[wdec(i as nat, ".kv_cached"@)]),
        whisper_kv_meta(final(g).tensors@[wdec(i as nat, ".kv_cached"@)], *c),
{
    let base = g.nodes.len();
    let text = c.n_text_state as i64;
    let t_mlp = (c.n_text_state * 4) as i64;
    let t_head_dim = c.n_text_state / c.n_text_head;
    let prev: String = if i == 0 {
        owned("dec.pos_add")
    } else {
        indexed("dec.block_", i - 1, ".residual3")
    };
    let mut layer: Vec<Node> = Vec::new();
    layer.push(mk_node(base, Op::LayerNorm { eps: c.eps },
        three(owned(prev.as_str()), indexed("decoder.blocks.", i, ".attn_ln.weight"), indexed("decoder.blocks.", i, ".attn_ln.bias")),
        one(indexed("dec.block_", i, ".attn_ln_out")), attrs2("hidden", text, "positions", 1)));
    layer.push(mk_node(base + 1, Op::Matmul, two(indexed("dec.block_", i, ".attn_ln_out"), indexed("decoder.blocks.", i, ".attn.query.weight")),
        one(indexed("dec.block_", i, ".q_out")), attrs2("n", text, "k", text)));
    layer.push(mk_node(base + 2, Op::Add, two(indexed("dec.block_", i, ".q_out"), indexed("decoder.blocks.", i, ".attn.query.bias")),
        one(indexed("dec.block_", i, ".q_biased")), attrs1("n", text)));
    layer.push(mk_node(base + 3, Op::Matmul, two(indexed("dec.block_", i, ".attn_ln_out"), indexed("decoder.blocks.", i, ".attn.key.weight")),
        one(indexed("dec.block_", i, ".k_out")), attrs2("n", text, "k", text)));
    layer.push(mk_node(base + 4, Op::Matmul, two(indexed("dec.block_", i, ".attn_ln_out"), indexed("decoder.blocks.", i, ".attn.value.weight")),
        one(indexed("dec.block_", i, ".v_out")), attrs2("n", text, "k", text)));
    layer.push(mk_node(base + 5, Op::Add, two(indexed("dec.block_", i, ".v_out"), indexed("decoder.blocks.", i, ".attn.value.bias")),
        one(indexed("dec.block_", i, ".v_biased")), attrs1("n", text)));
    layer.push(mk_node(base + 6, Op::KvCache, one(indexed("dec.block_", i, ".k_out")), one(indexed("dec.block_", i, ".kv_cached")),
        NameMap::new()));
    let mut sdpa_attrs = attrs1("hidden", text);
    sdpa_attrs.insert(owned("v_tensor"), AttrValue::String(indexed("dec.block_", i, ".v_biased")));
    proof {
        lemma_int_attrs_small("hidden"@, text, "positions"@, 1i64);
        reveal_strlit("hidden");
        reveal_strlit("v_tensor");
        assert("hidden"@.len() != "v_tensor"@.len());
        assert(sdpa_attrs@.dom() =~= set!["hidden"@, "v_tensor"@]);
    }
    layer.push(mk_node(base + 7, Op::Sdpa {
            num_heads: c.n_text_head as u32,
            kv_heads: c.n_text_head as u32,
            head_dim: t_head_dim as u32,
            causal: true,
        },
        two(indexed("dec.block_", i, ".q_biased"), indexed("dec.block_", i, ".kv_cached")),
        one(indexed("dec.block_", i, ".self_attn_out")), sdpa_attrs));
    layer.push(mk_node(base + 8, Op::Matmul, two(indexed("dec.block_", i, ".self_attn_out"), indexed("decoder.blocks.", i, ".attn.out.weight")),
        one(indexed("dec.block_", i, ".o_out")), attrs2("n", text, "k", text)));
    layer.push(mk_node(base + 9, Op::Add, two(indexed("dec.block_", i, ".o_out"), indexed("decoder.blocks.", i, ".attn.out.bias")),
        one(indexed("dec.block_", i, ".o_biased")), attrs1("n", text)));
    layer.push(mk_node(base + 10, Op::Add, two(prev, indexed("dec.block_", i, ".o_biased")),
        one(indexed("dec.block_", i, ".residual1")), attrs1("n", text)));
    layer.push(mk_node(base + 11, Op::LayerNorm { eps: c.eps },
        three(indexed("dec.block_", i, ".residual1"), indexed("decoder.blocks.", i, ".cross_attn_ln.weight"),
            indexed("decoder.blocks.", i, ".cross_attn_ln.bias")),
        one(indexed("dec.block_", i, ".cross_attn_ln_out")), attrs2("hidden", text, "positions", 1)));
    layer.push(mk_node(base + 12, Op::Matmul, two(indexed("dec.block_", i, ".cross_attn_ln_out"), indexed("decoder.blocks.", i, ".cross_attn.query.weight")),
        one(indexed("dec.block_", i, ".cross_q")), attrs2("n", text, "k", text)));
    layer.push(mk_node(base + 13, Op::Add, two(indexed("dec.block_", i, ".cross_q"), indexed("decoder.blocks.", i, ".cross_attn.query.bias")),
        one(indexed("dec.block_", i, ".cross_q_biased")), attrs1("n", text)));
    layer.push(mk_node(base + 14, Op::SdpaCross { num_heads: c.n_text_head as u32, head_dim: t_head_dim as u32 },
        two(indexed("dec.block_", i, ".cross_q_biased"), owned("enc.output")),
        one(indexed("dec.block_", i, ".cross_attn_out")), attrs1("hidden", text)));
    layer.push(mk_node(base + 15, Op::Matmul, two(indexed("dec.block_", i, ".cross_attn_out"), indexed("decoder.blocks.", i, ".cross_attn.out.weight")),
        one(indexed("dec.block_", i, ".cross_o")), attrs2("n", text, "k", text)));
    layer.push(mk_node(base + 16, Op::Add, two(indexed("dec.block_", i, ".cross_o"), indexed("decoder.blocks.", i, ".cross_attn.out.bias")),
        one(indexed("dec.block_", i, ".cross_o_biased")), attrs1("n", text)));
    layer.push(mk_node(base + 17, Op::Add, two(indexed("dec.block_", i, ".residual1"), indexed("dec.block_", i, ".cross_o_biased")),
        one(indexed("dec.block_", i, ".residual2")), attrs1("n", text)));
    layer.push(mk_node(base + 18, Op::LayerNorm { eps: c.eps },
        three(indexed("dec.block_", i, ".residual2"), indexed("decoder.blocks.", i, ".mlp_ln.weight"), indexed("decoder.blocks.", i, ".mlp_ln.bias")),
        one(indexed("dec.block_", i, ".mlp_ln_out")), attrs2("hidden", text, "positions", 1)));
    layer.push(mk_node(base + 19, Op::Matmul, two(indexed("dec.block_", i, ".mlp_ln_out"), indexed("decoder.blocks.", i, ".mlp.0.weight")),
        one(indexed("dec.block_", i, ".mlp_up")), attrs2("n", t_mlp, "k", text)));
    layer.push(mk_node(base + 20, Op::Add, two(indexed("dec.block_", i, ".mlp_up"), indexed("decoder.blocks.", i, ".mlp.0.bias")),
        one(indexed("dec.block_", i, ".mlp_up_biased")), attrs1("n", t_mlp)));
    layer.push(mk_node(base + 21, Op::Gelu { approximate: false }, one(indexed("dec.block_", i, ".mlp_up_biased")),
        one(indexed("dec.block_", i, ".mlp_act")), attrs1("n", t_mlp)));
    layer.push(mk_node(base + 22, Op::Matmul, two(indexed("dec.block_", i, ".mlp_act"), indexed("decoder.blocks.", i, ".mlp.2.weight")),
        one(indexed("dec.block_", i, ".mlp_down")), attrs2("n", text, "k", t_mlp)));
    layer.push(mk_node(base + 23, Op::Add, two(indexed("dec.block_", i, ".mlp_down"), indexed("decoder.blocks.", i, ".mlp.2.bias")),
        one(indexed("dec.block_", i, ".mlp_down_biased")), attrs1("n", text)));
    layer.push(mk_node(base + 24, Op::Add, two(indexed("dec.block_", i, ".residual2"), indexed("dec.block_", i, ".mlp_down_biased")),
        one(indexed("dec.block_", i, ".residual3")), attrs1("n", text)));
    append_nodes(g, layer);
    let kv_name = indexed("dec.block_", i, ".kv_cached");
    let ghost kv_key = kv_name@;
    g.add_tensor(kv_name, TensorMeta {
        shape: vec![Dim::Dynamic(owned("total_seq")), Dim::Fixed(c.n_text_state)],
        dtype: DType::F32,
        residency: Residency::Cached,
    });
    proof {
        assert(g.tensors@[kv_key].shape@.len() == 2);
    }
}

/// Build a Whisper encoder-decoder graph with GGML weight names.
///
/// Encoder: two convolutions (the second with stride 2) each followed by
/// GELU, the positional embedding, then per block: LayerNorm, biased Q
/// and V and unbiased K projections, bidirectional attention, biased
/// output projection, residual, LayerNorm, biased MLP (`mlp.0`, GELU,
/// `mlp.2`), residual; finally `ln_post` producing `enc.output`.
///
/// Decoder: token plus positional embedding, then per block: LayerNorm,
/// Q/K/V projections, the KV cache on K, causal self-attention, output
/// projection and residual; LayerNorm, biased query projection,
/// cross-attention over `enc.output`, output projection and residual;
/// LayerNorm, MLP and residual; finally a LayerNorm and the LM head tied
/// to the token embedding, producing `logits`.
#[verifier::rlimit(80)]
pub fn whisper_encoder_decoder(config: &WhisperConfig) -> (g: Graph)
    requires
        whisper_fits(*config),
    ensures
        g.nodes@.len() == 10 + 17 * config.n_audio_layer + 25 * config.n_text_layer,
        ids_ok(g.nodes@),
        all_in(g.nodes@, 0, 1, whisper_conv1()),
        all_in(g.nodes@, whisper_enc_out_at(*config), whisper_enc_out_at(*config) + 1, whisper_enc_out(*config)),
        all_in(g.nodes@, 0, whisper_enc_out_at(*config) + 1, not_causal()),
        all_in(g.nodes@, whisper_enc_out_at(*config) + 1, g.nodes@.len() as int, causal_only()),
        all_in(g.nodes@, 0, g.nodes@.len() as int, cross_reads("enc.output"@)),
        node_is(g.nodes@[g.nodes@.len() - 2], g.nodes@.len() - 2, Op::LayerNorm { eps: config.eps },
            seq![dec_hidden(config.n_text_layer as nat), "decoder.ln.weight"@, "decoder.ln.bias"@], seq!["dec.norm_out"@]),
        g.nodes@[g.nodes@.len() - 2].attrs@ == int_attrs(seq![("hidden"@, config.n_text_state as i64), ("positions"@, 1i64)]),
        node_is(g.nodes@[g.nodes@.len() - 1], g.nodes@.len() - 1, Op::Matmul,
            seq!["dec.norm_out"@, "decoder.token_embedding.weight"@], seq!["logits"@]),
        g.nodes@[g.nodes@.len() - 1].attrs@ == int_attrs(seq![("n"@, config.n_vocab as i64), ("k"@, config.n_text_state as i64)]),
        g.tensors@.contains_key("audio_input"@),
        g.tensors@.contains_key("decoder_input_ids"@),
        g.tensors@.contains_key("logits"@),
        forall|i: int| 0 <= i < config.n_text_layer ==> g.tensors@.contains_key(#[trigger] indexed_name("dec.block_"@, i as nat, ".kv_cached"@)),
        forall|l: int| 0 <= l < config.n_audio_layer ==> #[trigger] whisper_enc_block(g.nodes@, l, *config),
        forall|l: int| 0 <= l < config.n_text_layer ==> #[trigger] whisper_dec_block(g.nodes@, l, *config),
        all_in(g.nodes@, 0, 5, whisper_enc_stem(*config)),
        all_in(g.nodes@, whisper_enc_out_at(*config) + 1, whisper_enc_out_at(*config) + 3, whisper_dec_stem(*config)),
{
    let mut g = Graph::new();
    let a_state = config.n_audio_state;
    let t_state = config.n_text_state;
    let audio = a_state as i64;
    let text = t_state as i64;
    let audio_input_len = config.n_audio_ctx * 2;
    let a_pos = config.n_audio_ctx as i64;
    let eps = config.eps;

    // Encoder stem.
    let mut conv1_attrs = attrs2("in_channels", config.n_mels as i64, "out_channels", audio);
    conv1_attrs.insert(owned("in_length"), AttrValue::Int(audio_input_len as i64));
    proof {
        lemma_int_attrs_push(seq![("in_channels"@, config.n_mels as i64), ("out_channels"@, audio)], "in_length"@, audio_input_len as i64);
        assert(seq![("in_channels"@, config.n_mels as i64), ("out_channels"@, audio)].push(("in_length"@, audio_input_len as i64))
            =~= seq![("in_channels"@, config.n_mels as i64), ("out_channels"@, audio), ("in_length"@, audio_input_len as i64)]);
    }
    emit(&mut g, Op::Conv1d { kernel: 3, stride: 1, padding: 1, groups: 1 },
        three(owned("audio_input"), owned("encoder.conv1.weight"), owned("encoder.conv1.bias")),
        one(owned("enc.conv1_out")), conv1_attrs);
    proof {
        assert(all_in(g.nodes@, 0, 1, whisper_enc_stem(*config)));
    }
    g.add_tensor(owned("audio_input"), TensorMeta {
        shape: vec![Dim::Fixed(config.n_mels), Dim::Dynamic(owned("audio_len"))],
        dtype: DType::F32,
        residency: Residency::Streamed,
    });
    emit(&mut g, Op::Gelu { approximate: false }, one(owned("enc.conv1_out")), one(owned("enc.conv1_act")),
        attrs1("n", (a_state * audio_input_len) as i64));
    proof {
        assert(all_in(g.nodes@, 1, 2, whisper_enc_stem(*config)));
    }
    let mut conv2_attrs = attrs2("in_channels", audio, "out_channels", audio);
    conv2_attrs.insert(owned("in_length"), AttrValue::Int(audio_input_len as i64));
    proof {
        lemma_int_attrs_push(seq![("in_channels"@, audio), ("out_channels"@, audio)], "in_length"@, audio_input_len as i64);
        assert(seq![("in_channels"@, audio), ("out_channels"@, audio)].push(("in_length"@, audio_input_len as i64))
            =~= seq![("in_channels"@, audio), ("out_channels"@, audio), ("in_length"@, audio_input_len as i64)]);
    }
    emit(&mut g, Op::Conv1d { kernel: 3, stride: 2, padding: 1, groups: 1 },
        three(owned("enc.conv1_act"), owned("encoder.conv2.weight"), owned("encoder.conv2.bias")),
        one(owned("enc.conv2_out")), conv2_attrs);
    proof {
        assert(all_in(g.nodes@, 2, 3, whisper_enc_stem(*config)));
    }
    emit(&mut g, Op::Gelu { approximate: false }, one(owned("enc.conv2_out")), one(owned("enc.conv2_act")),
        attrs1("n", (a_state * config.n_audio_ctx) as i64));
    proof {
        assert(all_in(g.nodes@, 3, 4, whisper_enc_stem(*config)));
    }
    emit(&mut g, Op::Add, two(owned("enc.conv2_act"), owned("encoder.positional_embedding")), one(owned("enc.pos_add")),
        attrs1("n", (a_state * config.n_audio_ctx) as i64));
    proof {
        assert(all_in(g.nodes@, 4, 5, whisper_enc_stem(*config)));
        assert(all_in(g.nodes@, 0, 5, whisper_enc_stem(*config))) by {
            assert forall|j: int| 0 <= j < 5 implies (whisper_enc_stem(*config))(#[trigger] g.nodes@[j]) by {
                if j == 0 {
                    assert(all_in(g.nodes@, 0, 1, whisper_enc_stem(*config)));
                } else if j == 1 {
                    assert(all_in(g.nodes@, 1, 2, whisper_enc_stem(*config)));
                } else if j == 2 {
                    assert(all_in(g.nodes@, 2, 3, whisper_enc_stem(*config)));
                } else if j == 3 {
                    assert(all_in(g.nodes@, 3, 4, whisper_enc_stem(*config)));
                }
            }
        }
        assert(all_in(g.nodes@, 0, 1, whisper_conv1()));
        assert(all_in(g.nodes@, 0, 5, not_causal()));
        assert(all_in(g.nodes@, 0, 5, cross_reads("enc.output"@)));
    }

    let mut prev = owned("enc.pos_add");
    let mut i: usize = 0;
    while i < config.n_audio_layer
        invariant
            whisper_fits(*config),
            eps == config.eps,
            i <= config.n_audio_layer,
            g.nodes@.len() == 5 + 17 * i,
            prev@ == enc_hidden(i as nat),
            ids_ok(g.nodes@),
            all_in(g.nodes@, 0, 1, whisper_conv1()),
            all_in(g.nodes@, 0, g.nodes@.len() as int, not_causal()),
            all_in(g.nodes@, 0, g.nodes@.len() as int, cross_reads("enc.output"@)),
            g.tensors@.contains_key("audio_input"@),
            forall|l: int| 0 <= l < i ==> #[trigger] whisper_enc_block(g.nodes@, l, *config),
            all_in(g.nodes@, 0, 5, whisper_enc_stem(*config)),
        decreases config.n_audio_layer - i,
    {
        let ghost before = g.nodes@;
        push_whisper_enc_layer(&mut g, config, i);
        proof {
            lemma_wenc_blocks_prefix(before, g.nodes@, i as nat, *config);
            lemma_wenc_layer_props(g.nodes@, before.len() as int, i as nat, *config);
            assert(whisper_enc_block(g.nodes@, i as int, *config));
            assert forall|j: int| 0 <= j < g.nodes@.len() implies (#[trigger] g.nodes@[j]).id == j by {
                if j < before.len() {
                    assert(g.nodes@[j] == before[j]);
                }
            }
            assert(all_in(g.nodes@, 0, g.nodes@.len() as int, not_causal())) by {
                assert forall|j: int| 0 <= j < g.nodes@.len() implies (not_causal())(#[trigger] g.nodes@[j]) by {
                    if j < before.len() {
                        assert(g.nodes@[j] == before[j]);
                    }
                }
            }
            assert(all_in(g.nodes@, 0, g.nodes@.len() as int, cross_reads("enc.output"@))) by {
                assert forall|j: int| 0 <= j < g.nodes@.len() implies (cross_reads("enc.output"@))(#[trigger] g.nodes@[j]) by {
                    if j < before.len() {
                        assert(g.nodes@[j] == before[j]);
                    }
                }
            }
            assert(all_in(g.nodes@, 0, 1, whisper_conv1())) by {
                assert(g.nodes@[0] == before[0]);
            }
            assert(all_in(g.nodes@, 0, 5, whisper_enc_stem(*config))) by {
                assert forall|j: int| 0 <= j < 5 implies (whisper_enc_stem(*config))(#[trigger] g.nodes@[j]) by {
                    assert(g.nodes@[j] == before[j]);
                }
            }
        }
        prev = indexed("enc.block_", i, ".residual2");
        i = i + 1;
    }
    emit(&mut g, Op::LayerNorm { eps },
        three(prev, owned("encoder.ln_post.weight"), owned("encoder.ln_post.bias")),
        one(owned("enc.output")), attrs2("hidden", audio, "positions", a_pos));
    let ghost enc_end = g.nodes@.len() as int;
    let ghost enc_nodes = g.nodes@;
    proof {
        assert(all_in(g.nodes@, enc_end - 1, enc_end, whisper_enc_out(*config)));
        assert(all_in(g.nodes@, 0, enc_end, same_as(enc_nodes)));
        assert forall|l: int| 0 <= l < config.n_audio_layer implies #[trigger] whisper_enc_block(enc_nodes, l, *config) by {
            assert(whisper_enc_block(g.nodes@.drop_last(), l, *config));
            lemma_wenc_blocks_prefix(g.nodes@.drop_last(), enc_nodes, config.n_audio_layer as nat, *config);
        }
    }

    // Decoder stem.
    let mut embed_attrs = attrs1("hidden", text);
    embed_attrs.insert(owned("embed_weight"), AttrValue::String(owned("decoder.token_embedding.weight")));
    proof {
        lemma_int_attrs_small("hidden"@, text, "n"@, 0i64);
        reveal_strlit("hidden");
        reveal_strlit("embed_weight");
        assert("hidden"@.len() != "embed_weight"@.len());
        assert(embed_attrs@.dom() =~= set!["hidden"@, "embed_weight"@]);
    }
    emit(&mut g, Op::TokenEmbed, one(owned("decoder_input_ids")), one(owned("dec.token_embed")), embed_attrs);
    proof {
        assert(all_in(g.nodes@, enc_end, enc_end + 1, whisper_dec_stem(*config)));
    }
    g.add_tensor(owned("decoder_input_ids"), TensorMeta {
        shape: vec![Dim::Dynamic(owned("dec_seq"))],
        dtype: DType::U8,
        residency: Residency::Streamed,
    });
    emit(&mut g, Op::Add, two(owned("dec.token_embed"), owned("decoder.positional_embedding")), one(owned("dec.pos_add")),
        attrs1("n", text));
    proof {
        assert(all_in(g.nodes@, enc_end, enc_end + 2, causal_only()));
        assert(all_in(g.nodes@, enc_end + 1, enc_end + 2, whisper_dec_stem(*config)));
        assert(all_in(g.nodes@, enc_end, enc_end + 2, whisper_dec_stem(*config))) by {
            assert forall|j: int| enc_end <= j < enc_end + 2 implies (whisper_dec_stem(*config))(#[trigger] g.nodes@[j]) by {
                if j == enc_end {
                    assert(all_in(g.nodes@, enc_end, enc_end + 1, whisper_dec_stem(*config)));
                }
            }
        }
    }

    let mut prev = owned("dec.pos_add");
    let mut i: usize = 0;
    while i < config.n_text_layer
        invariant
            whisper_fits(*config),
            eps == config.eps,
            enc_end == 6 + 17 * config.n_audio_layer,
            enc_nodes.len() == enc_end,
            all_in(g.nodes@, 0, enc_end, same_as(enc_nodes)),
            forall|l: int| 0 <= l < config.n_audio_layer ==> #[trigger] whisper_enc_block(enc_nodes, l, *config),
            i <= config.n_text_layer,
            g.nodes@.len() == enc_end + 2 + 25 * i,
            prev@ == dec_hidden(i as nat),
            ids_ok(g.nodes@),
            all_in(g.nodes@, 0, 1, whisper_conv1()),
            all_in(g.nodes@, enc_end - 1, enc_end, whisper_enc_out(*config)),
            all_in(g.nodes@, 0, enc_end, not_causal()),
            all_in(g.nodes@, enc_end, g.nodes@.len() as int, causal_only()),
            all_in(g.nodes@, 0, g.nodes@.len() as int, cross_reads("enc.output"@)),
            g.tensors@.contains_key("audio_input"@),
            g.tensors@.contains_key("decoder_input_ids"@),
            forall|i2: int| 0 <= i2 < i ==> g.tensors@.contains_key(#[trigger] indexed_name("dec.block_"@, i2 as nat, ".kv_cached"@)),
            forall|l: int| 0 <= l < i ==> #[trigger] whisper_dec_block(g.nodes@, l, *config),
            all_in(g.nodes@, 0, 5, whisper_enc_stem(*config)),
            all_in(g.nodes@, enc_end, enc_end + 2, whisper_dec_stem(*config)),
        decreases config.n_text_layer - i,
    {
        let ghost before = g.nodes@;
        let ghost tbefore = g.tensors@;
        push_whisper_dec_layer(&mut g, config, i);
        proof {
            lemma_wdec_blocks_prefix(before, g.nodes@, i as nat, *config);
            lemma_wdec_layer_props(g.nodes@, before.len() as int, i as nat, *config);
            assert(whisper_dec_block(g.nodes@, i as int, *config));
            assert forall|j: int| 0 <= j < g.nodes@.len() implies (#[trigger] g.nodes@[j]).id == j by {
                if j < before.len() {
                    assert(g.nodes@[j] == before[j]);
                }
            }
            assert(all_in(g.nodes@, 0, enc_end, same_as(enc_nodes))) by {
                assert forall|j: int| 0 <= j < enc_end implies (same_as(enc_nodes))(#[trigger] g.nodes@[j]) by {
                    assert(g.nodes@[j] == before[j]);
                }
            }
            assert(all_in(g.nodes@, 0, enc_end, not_causal())) by {
                assert forall|j: int| 0 <= j < enc_end implies (not_causal())(#[trigger] g.nodes@[j]) by {
                    assert(g.nodes@[j] == before[j]);
                }
            }
            assert(all_in(g.nodes@, enc_end - 1, enc_end, whisper_enc_out(*config))) by {
                assert(g.nodes@[enc_end - 1] == before[enc_end - 1]);
            }
            assert(all_in(g.nodes@, 0, 1, whisper_conv1())) by {
                assert(g.nodes@[0] == before[0]);
            }
            assert(all_in(g.nodes@, 0, 5, whisper_enc_stem(*config))) by {
                assert forall|j: int| 0 <= j < 5 implies (whisper_enc_stem(*config))(#[trigger] g.nodes@[j]) by {
                    assert(g.nodes@[j] == before[j]);
                }
            }
            assert(all_in(g.nodes@, enc_end, enc_end + 2, whisper_dec_stem(*config))) by {
                assert forall|j: int| enc_end <= j < enc_end + 2 implies (whisper_dec_stem(*config))(#[trigger] g.nodes@[j]) by {
                    assert(g.nodes@[j] == before[j]);
                }
            }
            assert(all_in(g.nodes@, enc_end, g.nodes@.len() as int, causal_only())) by {
                assert forall|j: int| enc_end <= j < g.nodes@.len() implies (causal_only())(#[trigger] g.nodes@[j]) by {
                    if j < before.len() {
                        assert(g.nodes@[j] == before[j]);
                    }
                }
            }
            assert(all_in(g.nodes@, 0, g.nodes@.len() as int, cross_reads("enc.output"@))) by {
                assert forall|j: int| 0 <= j < g.nodes@.len() implies (cross_reads("enc.output"@))(#[trigger] g.nodes@[j]) by {
                    if j < before.len() {
                        assert(g.nodes@[j] == before[j]);
                    }
                }
            }
            assert(tbefore.contains_key("audio_input"@));
            assert(tbefore.contains_key("decoder_input_ids"@));
            assert forall|i2: int| 0 <= i2 < i + 1 implies g.tensors@.contains_key(#[trigger] indexed_name("dec.block_"@, i2 as nat, ".kv_cached"@)) by {
                if i2 < i {
                    assert(tbefore.contains_key(indexed_name("dec.block_"@, i2 as nat, ".kv_cached"@)));
                }
            }
        }
        prev = indexed("dec.block_", i, ".residual3");
        i = i + 1;
    }
    let ghost dec_nodes = g.nodes@;
    emit(&mut g, Op::LayerNorm { eps }, three(prev, owned("decoder.ln.weight"), owned("decoder.ln.bias")),
        one(owned("dec.norm_out")), attrs2("hidden", text, "positions", 1));
    let ghost norm_node = g.nodes@.last();
    emit(&mut g, Op::Matmul, two(owned("dec.norm_out"), owned("decoder.token_embedding.weight")), one(owned("logits")),
        attrs2("n", config.n_vocab as i64, "k", text));
    proof {
        assert(g.nodes@[g.nodes@.len() - 2] == norm_node);
    }
    g.add_tensor(owned("logits"), TensorMeta {
        shape: vec![Dim::Dynamic(owned("dec_seq")), Dim::Fixed(config.n_vocab)],
        dtype: DType::F32,
        residency: Residency::Streamed,
    });
    proof {
        assert forall|j: int| 0 <= j < enc_end implies #[trigger] g.nodes@[j] == enc_nodes[j] by {
            assert((same_as(enc_nodes))(g.nodes@[j]));
        }
        lemma_wenc_blocks_prefix(enc_nodes, g.nodes@, config.n_audio_layer as nat, *config);
        assert forall|j: int| 0 <= j < dec_nodes.len() implies #[trigger] g.nodes@[j] == dec_nodes[j] by {
            assert(g.nodes@.drop_last()[j] == g.nodes@[j]);
            assert(g.nodes@.drop_last().drop_last()[j] == g.nodes@.drop_last()[j]);
        }
        lemma_wdec_blocks_prefix(dec_nodes, g.nodes@, config.n_text_layer as nat, *config);
    }
    g
}


// ---- ModernBERT ----

/// The nodes `nodes[base..base + 13]` are ModernBERT layer `i`: LayerNorm,
/// unbiased q, k and v projections, bidirectional attention (V named by
/// `v_tensor`), output projection `Wo`, residual, LayerNorm, gate and up
/// projections, GeGLU, down projection, residual; with their size
/// attributes.
pub open spec fn modernbert_layer_is(nodes: Seq<Node>, base: int, i: nat, c: BertConfig) -> bool {
    let hidden = c.hidden_size as i64;
    let inter = c.intermediate_size as i64;
    let prev = modernbert_hidden(i);
    &&& node_is(nodes[base], base, Op::LayerNorm { eps: c.eps }, seq![prev, indexed_name("model.layers."@, i, ".attn_norm.weight"@), indexed_name("model.layers."@, i, ".attn_norm.bias"@)], seq![indexed_name("layer_"@, i, ".attn_norm_out"@)])
    &&& nodes[base].attrs@ == int_attrs(seq![("hidden"@, hidden)])
    &&& node_is(nodes[base + 1], base + 1, Op::Matmul, seq![indexed_name("layer_"@, i, ".attn_norm_out"@), indexed_name("model.layers."@, i, ".attn.q.weight"@)], seq![indexed_name("layer_"@, i, ".q_out"@)])
    &&& nodes[base + 1].attrs@ == int_attrs(seq![("n"@, hidden), ("k"@, hidden)])
    &&& node_is(nodes[base + 2], base + 2, Op::Matmul, seq![indexed_name("layer_"@, i, ".attn_norm_out"@), indexed_name("model.layers."@, i, ".attn.k.weight"@)], seq![indexed_name("layer_"@, i, ".k_out"@)])
    &&& nodes[base + 2].attrs@ == int_attrs(seq![("n"@, hidden), ("k"@, hidden)])
    &&& node_is(nodes[base + 3], base + 3, Op::Matmul, seq![indexed_name("layer_"@, i, ".attn_norm_out"@), indexed_name("model.layers."@, i, ".attn.v.weight"@)], seq![indexed_name("layer_"@, i, ".v_out"@)])
    &&& nodes[base + 3].attrs@ == int_attrs(seq![("n"@, hidden), ("k"@, hidden)])
    &&& node_is(nodes[base + 4], base + 4, Op::Sdpa { num_heads: c.num_heads as u32, kv_heads: c.num_heads as u32, head_dim: c.head_dim as u32, causal: false }, seq![indexed_name("layer_"@, i, ".q_out"@), indexed_name("layer_"@, i, ".k_out"@)], seq![indexed_name("layer_"@, i, ".attn_out"@)])
    &&& nodes[base + 4].attrs@.dom() == set!["hidden"@, "v_tensor"@]
    &&& nodes[base + 4].attrs@["hidden"@] == AttrValue::Int(hidden)
    &&& (nodes[base + 4].attrs@["v_tensor"@] matches AttrValue::String(v) && v@ == indexed_name("layer_"@, i, ".v_out"@))
    &&& node_is(nodes[base + 5], base + 5, Op::Matmul, seq![indexed_name("layer_"@, i, ".attn_out"@), indexed_name("model.layers."@, i, ".attn.Wo.weight"@)], seq![indexed_name("layer_"@, i, ".o_out"@)])
    &&& nodes[base + 5].attrs@ == int_attrs(seq![("n"@, hidden), ("k"@, hidden)])
    &&& node_is(nodes[base + 6], base + 6, Op::Add, seq![prev, indexed_name("layer_"@, i, ".o_out"@)], seq![indexed_name("layer_"@, i, ".residual1"@)])
    &&& nodes[base + 6].attrs@ == int_attrs(seq![("n"@, hidden)])
    &&& node_is(nodes[base + 7], base + 7, Op::LayerNorm { eps: c.eps }, seq![indexed_name("layer_"@, i, ".residual1"@), indexed_name("model.layers."@, i, ".mlp_norm.weight"@), indexed_name("model.layers."@, i, ".mlp_norm.bias"@)], seq![indexed_name("layer_"@, i, ".mlp_norm_out"@)])
    &&& nodes[base + 7].attrs@ == int_attrs(seq![("hidden"@, hidden)])
    &&& node_is(nodes[base + 8], base + 8, Op::Matmul, seq![indexed_name("layer_"@, i, ".mlp_norm_out"@), indexed_name("model.layers."@, i, ".mlp.Wi_gate.weight"@)], seq![indexed_name("layer_"@, i, ".gate_out"@)])
    &&& nodes[base + 8].attrs@ == int_attrs(seq![("n"@, inter), ("k"@, hidden)])
    &&& node_is(nodes[base + 9], base + 9, Op::Matmul, seq![indexed_name("layer_"@, i, ".mlp_norm_out"@), indexed_name("model.layers."@, i, ".mlp.Wi_up.weight"@)], seq![indexed_name("layer_"@, i, ".up_out"@)])
    &&& nodes[base + 9].attrs@ == int_attrs(seq![("n"@, inter), ("k"@, hidden)])
    &&& node_is(nodes[base + 10], base + 10, Op::GeGlu, seq![indexed_name("layer_"@, i, ".gate_out"@), indexed_name("layer_"@, i, ".up_out"@)], seq![indexed_name("layer_"@, i, ".geglu_out"@)])
    &&& nodes[base + 10].attrs@ == int_attrs(seq![("n"@, inter)])
    &&& node_is(nodes[base + 11], base + 11, Op::Matmul, seq![indexed_name("layer_"@, i, ".geglu_out"@), indexed_name("model.layers."@, i, ".mlp.Wo.weight"@)], seq![indexed_name("layer_"@, i, ".down_out"@)])
    &&& nodes[base + 11].attrs@ == int_attrs(seq![("n"@, hidden), ("k"@, inter)])
    &&& node_is(nodes[base + 12], base + 12, Op::Add, seq![indexed_name("layer_"@, i, ".residual1"@), indexed_name("layer_"@, i, ".down_out"@)], seq![indexed_name("layer_"@, i, ".residual2"@)])
    &&& nodes[base + 12].attrs@ == int_attrs(seq![("n"@, hidden)])
}

/// A `modernbert` layer description only reads its own nodes.
proof fn lemma_modernbert_layer_prefix(a: Seq<Node>, b: Seq<Node>, base: int, i: nat, c: BertConfig)
    requires
        0 <= base,
        base + 13 <= a.len(),
        a.len() <= b.len(),
        forall|j: int| 0 <= j < a.len() ==> #[trigger] b[j] == a[j],
        modernbert_layer_is(a, base, i, c),
    ensures
        modernbert_layer_is(b, base, i, c),
{
    assert forall|k: int| 0 <= k < 13 implies #[trigger] b[base + k] == a[base + k] by {}
}

/// The nodes of a `modernbert` layer keep their positions as ids and attend in both directions.
proof fn lemma_modernbert_layer_props(nodes: Seq<Node>, base: int, i: nat, c: BertConfig)
    requires
        0 <= base,
        base + 13 <= nodes.len(),
        modernbert_layer_is(nodes, base, i, c),
    ensures
        forall|j: int| base <= j < base + 13 ==> (#[trigger] nodes[j]).id == j && (not_causal())(nodes[j]),
{
    assert forall|j: int| base <= j < base + 13 implies (#[trigger] nodes[j]).id == j && (not_causal())(nodes[j]) by {
        let k = j - base;
        assert(0 <= k < 13);
        assert(nodes[base + k] == nodes[j]);
    }
}

/// Append ModernBERT layer `i`, reading `prev`.
fn push_modernbert_layer(g: &mut Graph, c: &BertConfig, i: usize, prev: &str)
    requires
        old(g).nodes@.len() + 13 <= usize::MAX,
        prev@ == modernbert_hidden(i as nat),
    ensures
        final(g).nodes@.len() == old(g).nodes@.len() + 13,
        forall|j: int| 0 <= j < old(g).nodes@.len() ==> #[trigger] final(g).nodes@[j] == old(g).nodes@[j],
        modernbert_layer_is(final(g).nodes@, old(g).nodes@.len() as int, i as nat, *c),
        final(g).weights == old(g).weights,
        final(g).tensors == old(g).tensors,
{
    let base = g.nodes.len();
    let hidden = c.hidden_size as i64;
    let inter = c.intermediate_size as i64;
    let mut layer: Vec<Node> = Vec::new();
    layer.push(mk_node(base, Op::LayerNorm { eps: c.eps }, three(owned(prev), indexed("model.layers.", i, ".attn_norm.weight"), indexed("model.layers.", i, ".attn_norm.bias")), one(indexed("layer_", i, ".attn_norm_out")), attrs1("hidden", hidden)));
    layer.push(mk_node(base + 1, Op::Matmul, two(indexed("layer_", i, ".attn_norm_out"), indexed("model.layers.", i, ".attn.q.weight")), one(indexed("layer_", i, ".q_out")), attrs2("n", hidden, "k", hidden)));
    layer.push(mk_node(base + 2, Op::Matmul, two(indexed("layer_", i, ".attn_norm_out"), indexed("model.layers.", i, ".attn.k.weight")), one(indexed("layer_", i, ".k_out")), attrs2("n", hidden, "k", hidden)));
    layer.push(mk_node(base + 3, Op::Matmul, two(indexed("layer_", i, ".attn_norm_out"), indexed("model.layers.", i, ".attn.v.weight")), one(indexed("layer_", i, ".v_out")), attrs2("n", hidden, "k", hidden)));
    let mut sdpa_attrs = attrs1("hidden", hidden);
    sdpa_attrs.insert(owned("v_tensor"), AttrValue::String(indexed("layer_", i, ".v_out")));
    proof {
        lemma_int_attrs_small("hidden"@, hidden, "n"@, 0i64);
        reveal_strlit("hidden");
        reveal_strlit("v_tensor");
        assert("hidden"@.len() != "v_tensor"@.len());
        assert(sdpa_attrs@.dom() =~= set!["hidden"@, "v_tensor"@]);
    }
    layer.push(mk_node(base + 4, Op::Sdpa { num_heads: c.num_heads as u32, kv_heads: c.num_heads as u32, head_dim: c.head_dim as u32, causal: false }, two(indexed("layer_", i, ".q_out"), indexed("layer_", i, ".k_out")), one(indexed("layer_", i, ".attn_out")), sdpa_attrs));
    layer.push(mk_node(base + 5, Op::Matmul, two(indexed("layer_", i, ".attn_out"), indexed("model.layers.", i, ".attn.Wo.weight")), one(indexed("layer_", i, ".o_out")), attrs2("n", hidden, "k", hidden)));
    layer.push(mk_node(base + 6, Op::Add, two(owned(prev), indexed("layer_", i, ".o_out")), one(indexed("layer_", i, ".residual1")), attrs1("n", hidden)));
    layer.push(mk_node(base + 7, Op::LayerNorm { eps: c.eps }, three(indexed("layer_", i, ".residual1"), indexed("model.layers.", i, ".mlp_norm.weight"), indexed("model.layers.", i, ".mlp_norm.bias")), one(indexed("layer_", i, ".mlp_norm_out")), attrs1("hidden", hidden)));
    layer.push(mk_node(base + 8, Op::Matmul, two(indexed("layer_", i, ".mlp_norm_out"), indexed("model.layers.", i, ".mlp.Wi_gate.weight")), one(indexed("layer_", i, ".gate_out")), attrs2("n", inter, "k", hidden)));
    layer.push(mk_node(base + 9, Op::Matmul, two(indexed("layer_", i, ".mlp_norm_out"), indexed("model.layers.", i, ".mlp.Wi_up.weight")), one(indexed("layer_", i, ".up_out")), attrs2("n", inter, "k", hidden)));
    layer.push(mk_node(base + 10, Op::GeGlu, two(indexed("layer_", i, ".gate_out"), indexed("layer_", i, ".up_out")), one(indexed("layer_", i, ".geglu_out")), attrs1("n", inter)));
    layer.push(mk_node(base + 11, Op::Matmul, two(indexed("layer_", i, ".geglu_out"), indexed("model.layers.", i, ".mlp.Wo.weight")), one(indexed("layer_", i, ".down_out")), attrs2("n", hidden, "k", inter)));
    layer.push(mk_node(base + 12, Op::Add, two(indexed("layer_", i, ".residual1"), indexed("layer_", i, ".down_out")), one(indexed("layer_", i, ".residual2")), attrs1("n", hidden)));
    append_nodes(g, layer);
}


/// ModernBERT layer `l` of a graph, at its place after the 2 stem nodes.
pub open spec fn modernbert_block(nodes: Seq<Node>, l: int, c: BertConfig) -> bool {
    modernbert_layer_is(nodes, 2 + 13 * l, l as nat, c)
}

/// ModernBERT layers `0..n` stay as they are when nodes are appended.
proof fn lemma_modernbert_blocks_prefix(a: Seq<Node>, b: Seq<Node>, n: nat, c: BertConfig)
    requires
        2 + 13 * n <= a.len() <= b.len(),
        forall|j: int| 0 <= j < a.len() ==> #[trigger] b[j] == a[j],
        forall|l: int| 0 <= l < n ==> #[trigger] modernbert_block(a, l, c),
    ensures
        forall|l: int| 0 <= l < n ==> #[trigger] modernbert_block(b, l, c),
{
    assert forall|l: int| 0 <= l < n implies #[trigger] modernbert_block(b, l, c) by {
        assert(modernbert_block(a, l, c));
        lemma_modernbert_layer_prefix(a, b, 2 + 13 * l, l as nat, c);
    }
}

/// The ModernBERT stem, by node id (nodes 0 and 1): token embedding and
/// LayerNorm.
pub open spec fn modernbert_stem(c: BertConfig) -> spec_fn(Node) -> bool {
    let hidden = c.hidden_size as i64;
    |n: Node| {
        &&& n.id == 0 ==> node_is(n, 0, Op::TokenEmbed, seq!["input_ids"@], seq!["word_embed"@])
            && embed_attrs_are(n, hidden, "model.embeddings.tok_embeddings.weight"@)
        &&& n.id == 1 ==> node_is(n, 1, Op::LayerNorm { eps: c.eps },
            seq!["word_embed"@, "model.embeddings.norm.weight"@, "model.embeddings.norm.bias"@], seq!["embed_norm"@])
            && n.attrs@ == int_attrs(seq![("hidden"@, hidden)])
    }
}

/// Build a ModernBERT encoder graph: token embedding (ALiBi positions are
/// implicit) and LayerNorm; per layer LayerNorm, unbiased Q/K/V
/// projections (the fused `Wqkv` split by the caller), bidirectional
/// attention, output projection `Wo` and residual, LayerNorm, gate and up
/// projections (`Wi` split), GeGLU, down projection and residual; finally
/// a passthrough reshape producing `final_output`.
pub fn modernbert_encoder(config: &BertConfig) -> (g: Graph)
    requires
        3 + 13 * config.num_layers <= usize::MAX,
    ensures
        g.nodes@.len() == 3 + 13 * config.num_layers,
        ids_ok(g.nodes@),
        bidirectional(g.nodes@),
        node_is(g.nodes@[0], 0, Op::TokenEmbed, seq!["input_ids"@], seq!["word_embed"@]),
        all_in(g.nodes@, 0, 2, modernbert_stem(*config)),
        forall|l: int| 0 <= l < config.num_layers ==> #[trigger] modernbert_block(g.nodes@, l, *config),
        (g.nodes@[g.nodes@.len() - 1].op matches Op::Reshape { shape } && shape@.len() == 0),
        names(g.nodes@[g.nodes@.len() - 1].inputs@) == seq![modernbert_hidden(config.num_layers as nat)],
        names(g.nodes@[g.nodes@.len() - 1].outputs@) == seq!["final_output"@],
        g.nodes@[g.nodes@.len() - 1].attrs@ == Map::<Seq<char>, AttrValue>::empty(),
        g.nodes@[g.nodes@.len() - 1].backend_hint is None,
        g.tensors@.contains_key("input_ids"@),
        g.tensors@.contains_key("encoder_output"@),
{
    let mut g = Graph::new();
    let hidden = config.hidden_size as i64;
    let eps = config.eps;
    let mut embed_attrs = attrs1("hidden", hidden);
    embed_attrs.insert(owned("embed_weight"), AttrValue::String(owned("model.embeddings.tok_embeddings.weight")));
    proof {
        lemma_int_attrs_small("hidden"@, hidden, "n"@, 0i64);
        reveal_strlit("hidden");
        reveal_strlit("embed_weight");
        assert("hidden"@.len() != "embed_weight"@.len());
        assert(embed_attrs@.dom() =~= set!["hidden"@, "embed_weight"@]);
    }
    emit(&mut g, Op::TokenEmbed, one(owned("input_ids")), one(owned("word_embed")), embed_attrs);
    proof {
        assert(all_in(g.nodes@, 0, 1, modernbert_stem(*config)));
    }
    g.add_tensor(owned("input_ids"), TensorMeta {
        shape: vec![Dim::Dynamic(owned("seq_len"))],
        dtype: DType::U8,
        residency: Residency::Streamed,
    });
    emit(&mut g, Op::LayerNorm { eps },
        three(owned("word_embed"), owned("model.embeddings.norm.weight"), owned("model.embeddings.norm.bias")),
        one(owned("embed_norm")), attrs1("hidden", hidden));
    proof {
        assert(all_in(g.nodes@, 0, 1, is_node(0, Op::TokenEmbed, seq!["input_ids"@], seq!["word_embed"@])));
        assert(all_in(g.nodes@, 1, 2, modernbert_stem(*config)));
        assert(all_in(g.nodes@, 0, 2, modernbert_stem(*config))) by {
            assert forall|j: int| 0 <= j < 2 implies (modernbert_stem(*config))(#[trigger] g.nodes@[j]) by {
                if j == 0 {
                    assert(all_in(g.nodes@, 0, 1, modernbert_stem(*config)));
                }
            }
        }
    }
    let mut prev = owned("embed_norm");
    let mut i: usize = 0;
    while i < config.num_layers
        invariant
            3 + 13 * config.num_layers <= usize::MAX,
            eps == config.eps,
            i <= config.num_layers,
            g.nodes@.len() == 2 + 13 * i,
            prev@ == modernbert_hidden(i as nat),
            ids_ok(g.nodes@),
            bidirectional(g.nodes@),
            all_in(g.nodes@, 0, 1, is_node(0, Op::TokenEmbed, seq!["input_ids"@], seq!["word_embed"@])),
            all_in(g.nodes@, 0, 2, modernbert_stem(*config)),
            forall|l: int| 0 <= l < i ==> #[trigger] modernbert_block(g.nodes@, l, *config),
            g.tensors@.contains_key("input_ids"@),
        decreases config.num_layers - i,
    {
        let ghost before = g.nodes@;
        push_modernbert_layer(&mut g, config, i, prev.as_str());
        proof {
            lemma_modernbert_blocks_prefix(before, g.nodes@, i as nat, *config);
            lemma_modernbert_layer_props(g.nodes@, before.len() as int, i as nat, *config);
            assert(modernbert_block(g.nodes@, i as int, *config));
            assert forall|j: int| 0 <= j < g.nodes@.len() implies (#[trigger] g.nodes@[j]).id == j by {
                if j < before.len() {
                    assert(g.nodes@[j] == before[j]);
                }
            }
            assert forall|j: int| 0 <= j < g.nodes@.len() implies !((#[trigger] g.nodes@[j]).op matches Op::Sdpa { causal, .. } && causal) by {
                if j < before.len() {
                    assert(g.nodes@[j] == before[j]);
                } else {
                    assert((not_causal())(g.nodes@[j]));
                }
            }
            assert(all_in(g.nodes@, 0, 2, modernbert_stem(*config))) by {
                assert forall|j: int| 0 <= j < 2 implies (modernbert_stem(*config))(#[trigger] g.nodes@[j]) by {
                    assert(g.nodes@[j] == before[j]);
                }
            }
            assert(all_in(g.nodes@, 0, 1, is_node(0, Op::TokenEmbed, seq!["input_ids"@], seq!["word_embed"@]))) by {
                assert(g.nodes@[0] == before[0]);
            }
        }
        prev = indexed("layer_", i, ".residual2");
        i = i + 1;
    }
    g.add_tensor(owned("encoder_output"), TensorMeta {
        shape: vec![Dim::Dynamic(owned("seq_len")), Dim::Fixed(config.hidden_size)],
        dtype: DType::F32,
        residency: Residency::Streamed,
    });
    let ghost body = g.nodes@;
    emit(&mut g, Op::Reshape { shape: Vec::new() }, one(prev), one(owned("final_output")), NameMap::new());
    proof {
        assert(g.nodes@[0] == g.nodes@.drop_last()[0]);
        assert forall|j: int| 0 <= j < body.len() implies #[trigger] g.nodes@[j] == body[j] by {
            assert(g.nodes@.drop_last()[j] == g.nodes@[j]);
        }
        lemma_modernbert_blocks_prefix(body, g.nodes@, config.num_layers as nat, *config);
    }
    g
}

/// The ModernBERT hidden state after `n` layers.
pub open spec fn modernbert_hidden(n: nat) -> Seq<char> {
    if n == 0 {
        "embed_norm"@
    } else {
        lname((n - 1) as nat, ".residual2"@)
    }
}

// ---- Mixture of experts ----

/// Configuration for Mixture of Experts decoders.
#[derive(Clone, Copy, Debug)]
pub struct MoeDecoderConfig {
    pub hidden_size: usize,
    pub num_heads: usize,
    pub kv_num_heads: usize,
    pub head_dim: usize,
    pub num_layers: usize,
    pub intermediate_size: usize,
    pub vocab_size: usize,
    /// Norm epsilon (IEEE-754 bits).
    pub eps: F32Bits,
    /// RoPE base (IEEE-754 bits).
    pub rope_theta: F32Bits,
    pub max_seq_len: usize,
    /// Number of expert MLPs.
    pub num_experts: usize,
    /// Number of experts activated per token.
    pub top_k: usize,
    pub activation: Activation,
}

impl Default for MoeDecoderConfig {
    /// Mixtral-8x7B-like: 4096 hidden, 32 heads (8 KV heads) of 128, 32
    /// layers, 14336 intermediate, 32000 vocabulary, eps 1e-5, RoPE base
    /// 10000, 32768 positions, 8 experts with 2 active, SiLU.
    fn default() -> (r: Self)
        ensures
            r.hidden_size == 4096 && r.num_heads == 32 && r.kv_num_heads == 8 && r.head_dim == 128,
            r.num_layers == 32 && r.intermediate_size == 14336 && r.vocab_size == 32000,
            r.eps == F32Bits(0x3727c5ac) && r.rope_theta == F32Bits(0x461c4000),
            r.max_seq_len == 32768 && r.num_experts == 8 && r.top_k == 2 && r.activation == Activation::Silu,
    {
        MoeDecoderConfig {
            hidden_size: 4096,
            num_heads: 32,
            kv_num_heads: 8,
            head_dim: 128,
            num_layers: 32,
            intermediate_size: 14336,
            vocab_size: 32000,
            eps: F32Bits(0x3727c5ac),
            rope_theta: F32Bits(0x461c4000),
            max_seq_len: 32768,
            num_experts: 8,
            top_k: 2,
            activation: Activation::Silu,
        }
    }
}

/// Nodes per expert: gate and up projections, the activation (two nodes,
/// or one fused GeGLU), down projection and router scaling.
pub open spec fn expert_len(act: Activation) -> nat {
    if act == Activation::GeGlu {
        5
    } else {
        6
    }
}

/// Nodes per MoE layer: ten for attention, norm and router, each expert,
/// and one addition per expert (the running sum and the residual).
pub open spec fn moe_layer_len(c: MoeDecoderConfig) -> nat {
    (10 + c.num_experts * (expert_len(c.activation) + 1)) as nat
}

/// A node with no attributes.
pub open spec fn bare() -> spec_fn(Node) -> bool {
    |n: Node| n.attrs@ == Map::<Seq<char>, AttrValue>::empty()
}

/// The MoE template's node count fits in `usize`, and a model with layers
/// has experts.
pub open spec fn moe_fits(c: MoeDecoderConfig) -> bool {
    &&& 3 + c.num_layers * moe_layer_len(c) <= usize::MAX
    &&& (c.num_layers > 0 ==> c.num_experts > 0)
}

proof fn lemma_moe_counts(i: int, n: int, e: int, ne: int, len: int, xl: int)
    requires
        0 <= i < n,
        0 <= e <= ne,
        xl >= 0,
        len == 10 + ne * (xl + 1),
        3 + n * len <= usize::MAX,
    ensures
        len == 10 + ne * xl + ne,
        (i + 1) * len == i * len + len,
        1 + (i + 1) * len + 2 <= 3 + n * len,
        e * xl <= ne * xl,
        e < ne ==> (e + 1) * xl == e * xl + xl,
{
    assert(ne * (xl + 1) == ne * xl + ne) by (nonlinear_arith);
    assert((i + 1) * len == i * len + len) by (nonlinear_arith);
    assert((i + 1) * len <= n * len) by (nonlinear_arith)
        requires
            i + 1 <= n,
            len >= 0,
    ;
    assert(e * xl <= ne * xl) by (nonlinear_arith)
        requires
            e <= ne,
            xl >= 0,
    ;
    assert((e + 1) * xl == e * xl + xl) by (nonlinear_arith);
}

/// The nodes `nodes[base..base + 10]` open MoE layer `i`: RMS norm, fused
/// QKV projection, RoPE, KV cache, causal attention, output projection,
/// residual, RMS norm, router projection and softmax; none has attributes.
pub open spec fn moe_attn_layer_is(nodes: Seq<Node>, base: int, i: nat, c: MoeDecoderConfig) -> bool {
    let prev = moe_hidden(i);
    &&& node_is(nodes[base], base, Op::RmsNorm { eps: c.eps }, seq![prev, indexed_name("layer_"@, i, ".attn_norm.weight"@)], seq![indexed_name("layer_"@, i, ".attn_norm_out"@)])
    &&& nodes[base].attrs@ == Map::<Seq<char>, AttrValue>::empty()
    &&& node_is(nodes[base + 1], base + 1, Op::Matmul, seq![indexed_name("layer_"@, i, ".attn_norm_out"@), indexed_name("layer_"@, i, ".qkv.weight"@)], seq![indexed_name("layer_"@, i, ".qkv_out"@)])
    &&& nodes[base + 1].attrs@ == Map::<Seq<char>, AttrValue>::empty()
    &&& node_is(nodes[base + 2], base + 2, Op::Rope { head_dim: c.head_dim as u32, base: c.rope_theta }, seq![indexed_name("layer_"@, i, ".qkv_out"@)], seq![indexed_name("layer_"@, i, ".rope_out"@)])
    &&& nodes[base + 2].attrs@ == Map::<Seq<char>, AttrValue>::empty()
    &&& node_is(nodes[base + 3], base + 3, Op::KvCache, seq![indexed_name("layer_"@, i, ".rope_out"@)], seq![indexed_name("layer_"@, i, ".kv_cached"@)])
    &&& nodes[base + 3].attrs@ == Map::<Seq<char>, AttrValue>::empty()
    &&& node_is(nodes[base + 4], base + 4, Op::Sdpa { num_heads: c.num_heads as u32, kv_heads: c.kv_num_heads as u32, head_dim: c.head_dim as u32, causal: true }, seq![indexed_name("layer_"@, i, ".rope_out"@), indexed_name("layer_"@, i, ".kv_cached"@)], seq![indexed_name("layer_"@, i, ".attn_out"@)])
    &&& nodes[base + 4].attrs@ == Map::<Seq<char>, AttrValue>::empty()
    &&& node_is(nodes[base + 5], base + 5, Op::Matmul, seq![indexed_name("layer_"@, i, ".attn_out"@), indexed_name("layer_"@, i, ".o_proj.weight"@)], seq![indexed_name("layer_"@, i, ".o_proj_out"@)])
    &&& nodes[base + 5].attrs@ == Map::<Seq<char>, AttrValue>::empty()
    &&& node_is(nodes[base + 6], base + 6, Op::Add, seq![prev, indexed_name("layer_"@, i, ".o_proj_out"@)], seq![indexed_name("layer_"@, i, ".residual1"@)])
    &&& nodes[base + 6].attrs@ == Map::<Seq<char>, AttrValue>::empty()
    &&& node_is(nodes[base + 7], base + 7, Op::RmsNorm { eps: c.eps }, seq![indexed_name("layer_"@, i, ".residual1"@), indexed_name("layer_"@, i, ".ffn_norm.weight"@)], seq![indexed_name("layer_"@, i, ".ffn_norm_out"@)])
    &&& nodes[base + 7].attrs@ == Map::<Seq<char>, AttrValue>::empty()
    &&& node_is(nodes[base + 8], base + 8, Op::Matmul, seq![indexed_name("layer_"@, i, ".ffn_norm_out"@), indexed_name("layer_"@, i, ".router.weight"@)], seq![indexed_name("layer_"@, i, ".router_logits"@)])
    &&& nodes[base + 8].attrs@ == Map::<Seq<char>, AttrValue>::empty()
    &&& node_is(nodes[base + 9], base + 9, Op::Softmax { dim: -1i32 }, seq![indexed_name("layer_"@, i, ".router_logits"@)], seq![indexed_name("layer_"@, i, ".router_weights"@)])
    &&& nodes[base + 9].attrs@ == Map::<Seq<char>, AttrValue>::empty()
}

/// A `moe_attn` layer description only reads its own nodes.
proof fn lemma_moe_attn_layer_prefix(a: Seq<Node>, b: Seq<Node>, base: int, i: nat, c: MoeDecoderConfig)
    requires
        0 <= base,
        base + 10 <= a.len(),
        a.len() <= b.len(),
        forall|j: int| 0 <= j < a.len() ==> #[trigger] b[j] == a[j],
        moe_attn_layer_is(a, base, i, c),
    ensures
        moe_attn_layer_is(b, base, i, c),
{
    assert forall|k: int| 0 <= k < 10 implies #[trigger] b[base + k] == a[base + k] by {}
}

/// The nodes of a `moe_attn` layer keep their positions as ids, attend causally and carry no attributes.
proof fn lemma_moe_attn_layer_props(nodes: Seq<Node>, base: int, i: nat, c: MoeDecoderConfig)
    requires
        0 <= base,
        base + 10 <= nodes.len(),
        moe_attn_layer_is(nodes, base, i, c),
    ensures
        forall|j: int| base <= j < base + 10 ==> (#[trigger] nodes[j]).id == j && (causal_only())(nodes[j]) && (bare())(nodes[j]),
{
    assert forall|j: int| base <= j < base + 10 implies (#[trigger] nodes[j]).id == j && (causal_only())(nodes[j]) && (bare())(nodes[j]) by {
        let k = j - base;
        assert(0 <= k < 10);
        assert(nodes[base + k] == nodes[j]);
    }
}

/// Append the attention, norm and router nodes of MoE layer `i`, reading `prev`.
fn push_moe_attn_layer(g: &mut Graph, c: &MoeDecoderConfig, i: usize, prev: &str)
    requires
        old(g).nodes@.len() + 10 <= usize::MAX,
        prev@ == moe_hidden(i as nat),
    ensures
        final(g).nodes@.len() == old(g).nodes@.len() + 10,
        forall|j: int| 0 <= j < old(g).nodes@.len() ==> #[trigger] final(g).nodes@[j] == old(g).nodes@[j],
        moe_attn_layer_is(final(g).nodes@, old(g).nodes@.len() as int, i as nat, *c),
        final(g).weights == old(g).weights,
        final(g).tensors == old(g).tensors,
{
    let base = g.nodes.len();
    let mut layer: Vec<Node> = Vec::new();
    layer.push(mk_node(base, Op::RmsNorm { eps: c.eps }, two(owned(prev), indexed("layer_", i, ".attn_norm.weight")), one(indexed("layer_", i, ".attn_norm_out")), NameMap::new()));
    layer.push(mk_node(base + 1, Op::Matmul, two(indexed("layer_", i, ".attn_norm_out"), indexed("layer_", i, ".qkv.weight")), one(indexed("layer_", i, ".qkv_out")), NameMap::new()));
    layer.push(mk_node(base + 2, Op::Rope { head_dim: c.head_dim as u32, base: c.rope_theta }, one(indexed("layer_", i, ".qkv_out")), one(indexed("layer_", i, ".rope_out")), NameMap::new()));
    layer.push(mk_node(base + 3, Op::KvCache, one(indexed("layer_", i, ".rope_out")), one(indexed("layer_", i, ".kv_cached")), NameMap::new()));
    layer.push(mk_node(base + 4, Op::Sdpa { num_heads: c.num_heads as u32, kv_heads: c.kv_num_heads as u32, head_dim: c.head_dim as u32, causal: true }, two(indexed("layer_", i, ".rope_out"), indexed("layer_", i, ".kv_cached")), one(indexed("layer_", i, ".attn_out")), NameMap::new()));
    layer.push(mk_node(base + 5, Op::Matmul, two(indexed("layer_", i, ".attn_out"), indexed("layer_", i, ".o_proj.weight")), one(indexed("layer_", i, ".o_proj_out")), NameMap::new()));
    layer.push(mk_node(base + 6, Op::Add, two(owned(prev), indexed("layer_", i, ".o_proj_out")), one(indexed("layer_", i, ".residual1")), NameMap::new()));
    layer.push(mk_node(base + 7, Op::RmsNorm { eps: c.eps }, two(indexed("layer_", i, ".residual1"), indexed("layer_", i, ".ffn_norm.weight")), one(indexed("layer_", i, ".ffn_norm_out")), NameMap::new()));
    layer.push(mk_node(base + 8, Op::Matmul, two(indexed("layer_", i, ".ffn_norm_out"), indexed("layer_", i, ".router.weight")), one(indexed("layer_", i, ".router_logits")), NameMap::new()));
    layer.push(mk_node(base + 9, Op::Softmax { dim: -1 }, one(indexed("layer_", i, ".router_logits")), one(indexed("layer_", i, ".router_weights")), NameMap::new()));
    append_nodes(g, layer);
}


/// The MoE hidden state after `n` layers.
pub open spec fn moe_hidden(n: nat) -> Seq<char> {
    if n == 0 {
        "embed_out"@
    } else {
        indexed_name("layer_"@, (n - 1) as nat, ".residual2"@)
    }
}

/// `layer_<i>.expert_<e><tail>`.
pub open spec fn xname(i: nat, e: nat, tail: Seq<char>) -> Seq<char> {
    indexed_name("layer_"@, i, ".expert_"@) + indexed_name(""@, e, tail)
}

/// A node with the given op, inputs and outputs and no attributes.
pub open spec fn bare_node_is(n: Node, id: int, op: Op, ins: Seq<Seq<char>>, outs: Seq<Seq<char>>) -> bool {
    node_is(n, id, op, ins, outs) && n.attrs@ == Map::<Seq<char>, AttrValue>::empty()
}

/// The nodes from `base` are expert `e` of MoE layer `i`: gate and up
/// projections of the layer's normed input; SiLU or GELU of `gate_out`
/// times `up_out`, or one GeGLU node; the down projection; the product
/// with the router weights. No node has attributes.
pub open spec fn moe_expert_is(nodes: Seq<Node>, base: int, i: nat, e: nat, act: Activation) -> bool {
    let ffn = indexed_name("layer_"@, i, ".ffn_norm_out"@);
    let d = base + expert_len(act) - 2;
    &&& bare_node_is(nodes[base], base, Op::Matmul, seq![ffn, xname(i, e, ".gate_proj.weight"@)], seq![xname(i, e, ".gate_out"@)])
    &&& bare_node_is(nodes[base + 1], base + 1, Op::Matmul, seq![ffn, xname(i, e, ".up_proj.weight"@)], seq![xname(i, e, ".up_out"@)])
    &&& match act {
        Activation::Silu => {
            &&& bare_node_is(nodes[base + 2], base + 2, Op::Silu, seq![xname(i, e, ".gate_out"@)], seq![xname(i, e, ".silu_out"@)])
            &&& bare_node_is(nodes[base + 3], base + 3, Op::Mul, seq![xname(i, e, ".silu_out"@), xname(i, e, ".up_out"@)], seq![xname(i, e, ".act_out"@)])
        },
        Activation::Gelu => {
            &&& bare_node_is(nodes[base + 2], base + 2, Op::Gelu { approximate: false }, seq![xname(i, e, ".gate_out"@)], seq![xname(i, e, ".gelu_out"@)])
            &&& bare_node_is(nodes[base + 3], base + 3, Op::Mul, seq![xname(i, e, ".gelu_out"@), xname(i, e, ".up_out"@)], seq![xname(i, e, ".act_out"@)])
        },
        Activation::GeGlu => {
            bare_node_is(nodes[base + 2], base + 2, Op::GeGlu, seq![xname(i, e, ".gate_out"@), xname(i, e, ".up_out"@)], seq![xname(i, e, ".act_out"@)])
        },
    }
    &&& bare_node_is(nodes[d], d, Op::Matmul, seq![xname(i, e, ".act_out"@), xname(i, e, ".down_proj.weight"@)], seq![xname(i, e, ".down_out"@)])
    &&& bare_node_is(nodes[d + 1], d + 1, Op::Mul, seq![xname(i, e, ".down_out"@), indexed_name("layer_"@, i, ".router_weights"@)], seq![xname(i, e, ".scaled"@)])
}

/// An expert description only reads its own nodes.
proof fn lemma_moe_expert_prefix(a: Seq<Node>, b: Seq<Node>, base: int, i: nat, e: nat, act: Activation)
    requires
        0 <= base,
        base + expert_len(act) <= a.len(),
        a.len() <= b.len(),
        forall|j: int| 0 <= j < a.len() ==> #[trigger] b[j] == a[j],
        moe_expert_is(a, base, i, e, act),
    ensures
        moe_expert_is(b, base, i, e, act),
{
    assert forall|k: int| 0 <= k < expert_len(act) implies #[trigger] b[base + k] == a[base + k] by {}
}

/// The nodes of an expert keep their positions as ids, hold no attention
/// and carry no attributes.
proof fn lemma_moe_expert_props(nodes: Seq<Node>, base: int, i: nat, e: nat, act: Activation)
    requires
        0 <= base,
        base + expert_len(act) <= nodes.len(),
        moe_expert_is(nodes, base, i, e, act),
    ensures
        forall|j: int| base <= j < base + expert_len(act) ==> (#[trigger] nodes[j]).id == j && (causal_only())(nodes[j]) && (bare())(nodes[j]),
{
    assert forall|j: int| base <= j < base + expert_len(act) implies (#[trigger] nodes[j]).id == j && (causal_only())(nodes[j]) && (bare())(nodes[j]) by {
        let k = j - base;
        assert(nodes[base + k] == nodes[j]);
    }
}

/// Append expert `e` of MoE layer `i`; `ep` is the layer's expert prefix.
fn push_moe_expert(g: &mut Graph, act: Activation, i: usize, e: usize, ep: &str)
    requires
        old(g).nodes@.len() + 6 <= usize::MAX,
        ep@ == indexed_name("layer_"@, i as nat, ".expert_"@),
    ensures
        final(g).nodes@.len() == old(g).nodes@.len() + expert_len(act),
        forall|j: int| 0 <= j < old(g).nodes@.len() ==> #[trigger] final(g).nodes@[j] == old(g).nodes@[j],
        moe_expert_is(final(g).nodes@, old(g).nodes@.len() as int, i as nat, e as nat, act),
        final(g).weights == old(g).weights,
        final(g).tensors == old(g).tensors,
{
    let base = g.nodes.len();
    let mut layer: Vec<Node> = Vec::new();
    layer.push(mk_node(base, Op::Matmul, two(indexed("layer_", i, ".ffn_norm_out"), wname(ep, "", e, ".gate_proj.weight")),
        one(wname(ep, "", e, ".gate_out")), NameMap::new()));
    layer.push(mk_node(base + 1, Op::Matmul, two(indexed("layer_", i, ".ffn_norm_out"), wname(ep, "", e, ".up_proj.weight")),
        one(wname(ep, "", e, ".up_out")), NameMap::new()));
    let d: usize = match act {
        Activation::Silu => {
            layer.push(mk_node(base + 2, Op::Silu, one(wname(ep, "", e, ".gate_out")), one(wname(ep, "", e, ".silu_out")), NameMap::new()));
            layer.push(mk_node(base + 3, Op::Mul, two(wname(ep, "", e, ".silu_out"), wname(ep, "", e, ".up_out")),
                one(wname(ep, "", e, ".act_out")), NameMap::new()));
            base + 4
        },
        Activation::Gelu => {
            layer.push(mk_node(base + 2, Op::Gelu { approximate: false }, one(wname(ep, "", e, ".gate_out")),
                one(wname(ep, "", e, ".gelu_out")), NameMap::new()));
            layer.push(mk_node(base + 3, Op::Mul, two(wname(ep, "", e, ".gelu_out"), wname(ep, "", e, ".up_out")),
                one(wname(ep, "", e, ".act_out")), NameMap::new()));
            base + 4
        },
        Activation::GeGlu => {
            layer.push(mk_node(base + 2, Op::GeGlu, two(wname(ep, "", e, ".gate_out"), wname(ep, "", e, ".up_out")),
                one(wname(ep, "", e, ".act_out")), NameMap::new()));
            base + 3
        },
    };
    layer.push(mk_node(d, Op::Matmul, two(wname(ep, "", e, ".act_out"), wname(ep, "", e, ".down_proj.weight")),
        one(wname(ep, "", e, ".down_out")), NameMap::new()));
    layer.push(mk_node(d + 1, Op::Mul, two(wname(ep, "", e, ".down_out"), indexed("layer_", i, ".router_weights")),
        one(wname(ep, "", e, ".scaled")), NameMap::new()));
    append_nodes(g, layer);
}

/// The running sum of the first `e + 1` scaled expert outputs of layer `i`.
pub open spec fn moe_acc(i: nat, e: nat) -> Seq<char> {
    if e == 0 {
        xname(i, 0, ".scaled"@)
    } else {
        indexed_name("layer_"@, i, ".expert_sum_"@) + indexed_name(""@, e, ""@)
    }
}

/// Expert `e` of MoE layer `i`, at its place in a layer starting at `base`.
pub open spec fn moe_expert_at(nodes: Seq<Node>, base: int, i: nat, e: int, c: MoeDecoderConfig) -> bool {
    moe_expert_is(nodes, base + 10 + e * expert_len(c.activation), i, e as nat, c.activation)
}

/// Sum step `e` (from 1) of MoE layer `i` starting at `base`: the running
/// sum plus expert `e`'s scaled output.
pub open spec fn moe_sum_at(nodes: Seq<Node>, base: int, i: nat, e: int, c: MoeDecoderConfig) -> bool {
    let p = base + 10 + c.num_experts * expert_len(c.activation) + e - 1;
    bare_node_is(nodes[p], p, Op::Add, seq![moe_acc(i, (e - 1) as nat), xname(i, e as nat, ".scaled"@)], seq![moe_acc(i, e as nat)])
}

/// The nodes from `base` are MoE layer `i`: attention, norm and router,
/// each expert in turn, the running sum of their outputs, and the residual.
pub open spec fn moe_layer_is(nodes: Seq<Node>, base: int, i: nat, c: MoeDecoderConfig) -> bool {
    let last = base + moe_layer_len(c) - 1;
    &&& moe_attn_layer_is(nodes, base, i, c)
    &&& forall|e: int| 0 <= e < c.num_experts ==> #[trigger] moe_expert_at(nodes, base, i, e, c)
    &&& forall|e: int| 1 <= e < c.num_experts ==> #[trigger] moe_sum_at(nodes, base, i, e, c)
    &&& bare_node_is(nodes[last], last, Op::Add,
        seq![indexed_name("layer_"@, i, ".residual1"@), moe_acc(i, (c.num_experts - 1) as nat)],
        seq![indexed_name("layer_"@, i, ".residual2"@)])
}

/// MoE layer `l` of a graph, at its place after the embedding node.
pub open spec fn moe_block(nodes: Seq<Node>, l: int, c: MoeDecoderConfig) -> bool {
    moe_layer_is(nodes, 1 + l * moe_layer_len(c), l as nat, c)
}

/// A MoE layer description only reads its own nodes.
proof fn lemma_moe_layer_prefix(a: Seq<Node>, b: Seq<Node>, base: int, i: nat, c: MoeDecoderConfig)
    requires
        0 <= base,
        base + moe_layer_len(c) <= a.len(),
        a.len() <= b.len(),
        forall|j: int| 0 <= j < a.len() ==> #[trigger] b[j] == a[j],
        moe_layer_is(a, base, i, c),
    ensures
        moe_layer_is(b, base, i, c),
{
    let xl = expert_len(c.activation) as int;
    let ne = c.num_experts as int;
    lemma_moe_attn_layer_prefix(a, b, base, i, c);
    assert(moe_layer_len(c) == 10 + ne * xl + ne) by (nonlinear_arith)
        requires
            moe_layer_len(c) == 10 + ne * (xl + 1),
    ;
    lemma_moe_experts_prefix(a, b, base, i, c, ne);
    if ne >= 1 {
        lemma_moe_sums_prefix(a, b, base, i, c, ne);
    }
    let last = base + moe_layer_len(c) - 1;
    assert(b[last] == a[last]);
}

/// MoE layers `0..n` stay as they are when nodes are appended.
proof fn lemma_moe_blocks_prefix(a: Seq<Node>, b: Seq<Node>, n: nat, c: MoeDecoderConfig)
    requires
        1 + n * moe_layer_len(c) <= a.len() <= b.len(),
        forall|j: int| 0 <= j < a.len() ==> #[trigger] b[j] == a[j],
        forall|l: int| 0 <= l < n ==> #[trigger] moe_block(a, l, c),
    ensures
        forall|l: int| 0 <= l < n ==> #[trigger] moe_block(b, l, c),
{
    let ll = moe_layer_len(c) as int;
    assert forall|l: int| 0 <= l < n implies #[trigger] moe_block(b, l, c) by {
        assert(moe_block(a, l, c));
        assert(l * ll + ll <= n * ll) by (nonlinear_arith)
            requires
                0 <= l < n,
                ll >= 0,
        ;
        assert(l * ll >= 0) by (nonlinear_arith)
            requires
                0 <= l,
                ll >= 0,
        ;
        lemma_moe_layer_prefix(a, b, 1 + l * ll, l as nat, c);
    }
}

/// Experts `0..upto` of a MoE layer stay as they are when nodes are appended.
proof fn lemma_moe_experts_prefix(a: Seq<Node>, b: Seq<Node>, base: int, i: nat, c: MoeDecoderConfig, upto: int)
    requires
        0 <= base,
        0 <= upto,
        base + 10 + upto * expert_len(c.activation) <= a.len() <= b.len(),
        forall|j: int| 0 <= j < a.len() ==> #[trigger] b[j] == a[j],
        forall|e: int| 0 <= e < upto ==> #[trigger] moe_expert_at(a, base, i, e, c),
    ensures
        forall|e: int| 0 <= e < upto ==> #[trigger] moe_expert_at(b, base, i, e, c),
{
    let xl = expert_len(c.activation) as int;
    assert forall|e: int| 0 <= e < upto implies #[trigger] moe_expert_at(b, base, i, e, c) by {
        assert(moe_expert_at(a, base, i, e, c));
        assert(e * xl + xl <= upto * xl) by (nonlinear_arith)
            requires
                0 <= e < upto,
                xl >= 0,
        ;
        assert(e * xl >= 0) by (nonlinear_arith)
            requires
                0 <= e,
                xl >= 0,
        ;
        lemma_moe_expert_prefix(a, b, base + 10 + e * xl, i, e as nat, c.activation);
    }
}

/// Sum steps `1..upto` of a MoE layer stay as they are when nodes are appended.
proof fn lemma_moe_sums_prefix(a: Seq<Node>, b: Seq<Node>, base: int, i: nat, c: MoeDecoderConfig, upto: int)
    requires
        0 <= base,
        1 <= upto,
        base + 10 + c.num_experts * expert_len(c.activation) + upto - 1 <= a.len() <= b.len(),
        forall|j: int| 0 <= j < a.len() ==> #[trigger] b[j] == a[j],
        forall|e: int| 1 <= e < upto ==> #[trigger] moe_sum_at(a, base, i, e, c),
    ensures
        forall|e: int| 1 <= e < upto ==> #[trigger] moe_sum_at(b, base, i, e, c),
{
    let xl = expert_len(c.activation) as int;
    let ne = c.num_experts as int;
    assert(ne * xl >= 0) by (nonlinear_arith)
        requires
            0 <= ne,
            xl >= 0,
    ;
    assert forall|e: int| 1 <= e < upto implies #[trigger] moe_sum_at(b, base, i, e, c) by {
        assert(moe_sum_at(a, base, i, e, c));
        let p = base + 10 + ne * xl + e - 1;
        assert(b[p] == a[p]);
    }
}

/// Nodes appended after a MoE layer's nodes keep what the template states
/// of every node: ids, causal attention, no attributes, the embedding node
/// and the earlier nodes.
proof fn lemma_moe_extend(a: Seq<Node>, b: Seq<Node>, s: Seq<Node>, m: int)
    requires
        1 <= a.len() <= b.len(),
        forall|j: int| 0 <= j < a.len() ==> #[trigger] b[j] == a[j],
        forall|j: int| a.len() <= j < b.len() ==> (#[trigger] b[j]).id == j && (causal_only())(b[j]) && (bare())(b[j]),
        ids_ok(a),
        all_in(a, 0, a.len() as int, causal_only()),
        all_in(a, 0, a.len() as int, bare()),
        all_in(a, 0, 1, is_node(0, Op::TokenEmbed, seq!["input_ids"@], seq!["embed_out"@])),
        0 <= m <= a.len(),
        all_in(a, 0, m, same_as(s)),
    ensures
        ids_ok(b),
        all_in(b, 0, b.len() as int, causal_only()),
        all_in(b, 0, b.len() as int, bare()),
        all_in(b, 0, 1, is_node(0, Op::TokenEmbed, seq!["input_ids"@], seq!["embed_out"@])),
        all_in(b, 0, m, same_as(s)),
{
    assert forall|j: int| 0 <= j < b.len() implies (#[trigger] b[j]).id == j && (causal_only())(b[j]) && (bare())(b[j]) by {
        if j < a.len() {
            assert(b[j] == a[j]);
        }
    }
    assert(b[0] == a[0]);
    assert forall|j: int| 0 <= j < m implies (same_as(s))(#[trigger] b[j]) by {
        assert(b[j] == a[j]);
    }
}

/// Build a Mixture of Experts decoder graph (Mixtral, DeepSeek-MoE, ...).
/// Per layer: RMS norm, fused QKV projection, RoPE, the KV cache, causal
/// attention, output projection and residual; RMS norm, the router (a
/// linear gate and softmax); for every expert gate and up projections,
/// the activation gate, down projection and scaling by the router
/// weights; the pairwise sum of the expert outputs and the residual.
/// The graph starts with the token embedding and ends with the final RMS
/// norm and the LM head producing `logits`.
#[verifier::rlimit(40)]
pub fn moe_decoder(config: &MoeDecoderConfig) -> (g: Graph)
    requires
        moe_fits(*config),
    ensures
        g.nodes@.len() == 3 + config.num_layers * moe_layer_len(*config),
        ids_ok(g.nodes@),
        all_in(g.nodes@, 0, g.nodes@.len() as int, causal_only()),
        all_in(g.nodes@, 0, g.nodes@.len() as int, bare()),
        all_in(g.nodes@, 0, 1, is_node(0, Op::TokenEmbed, seq!["input_ids"@], seq!["embed_out"@])),
        forall|l: int| 0 <= l < config.num_layers ==> #[trigger] moe_block(g.nodes@, l, *config),
        node_is(g.nodes@[g.nodes@.len() - 2], g.nodes@.len() - 2, Op::RmsNorm { eps: config.eps },
            seq![moe_hidden(config.num_layers as nat), "model.norm.weight"@], seq!["final_norm_out"@]),
        node_is(g.nodes@[g.nodes@.len() - 1], g.nodes@.len() - 1, Op::Matmul, seq!["final_norm_out"@, "lm_head.weight"@], seq!["logits"@]),
        g.tensors@.contains_key("input_ids"@),
        g.tensors@.contains_key("embed_out"@),
        g.tensors@.contains_key("logits"@),
{
    let mut g = Graph::new();
    let eps = config.eps;
    let ghost layer_len = moe_layer_len(*config) as int;
    let ghost xl = expert_len(config.activation) as int;
    emit(&mut g, Op::TokenEmbed, one(owned("input_ids")), one(owned("embed_out")), NameMap::new());
    g.add_tensor(owned("input_ids"), TensorMeta {
        shape: vec![Dim::Dynamic(owned("seq_len"))],
        dtype: DType::U8,
        residency: Residency::Streamed,
    });
    g.add_tensor(owned("embed_out"), TensorMeta {
        shape: vec![Dim::Dynamic(owned("seq_len")), Dim::Fixed(config.hidden_size)],
        dtype: DType::F16,
        residency: Residency::Streamed,
    });
    proof {
        assert(all_in(g.nodes@, 0, 1, is_node(0, Op::TokenEmbed, seq!["input_ids"@], seq!["embed_out"@])));
        assert(all_in(g.nodes@, 0, 1, causal_only()));
        assert(all_in(g.nodes@, 0, 1, bare()));
    }
    let mut prev = owned("embed_out");
    let mut i: usize = 0;
    while i < config.num_layers
        invariant
            moe_fits(*config),
            eps == config.eps,
            layer_len == moe_layer_len(*config),
            xl == expert_len(config.activation),
            i <= config.num_layers,
            g.nodes@.len() == 1 + i * layer_len,
            prev@ == moe_hidden(i as nat),
            ids_ok(g.nodes@),
            all_in(g.nodes@, 0, g.nodes@.len() as int, causal_only()),
            all_in(g.nodes@, 0, g.nodes@.len() as int, bare()),
            all_in(g.nodes@, 0, 1, is_node(0, Op::TokenEmbed, seq!["input_ids"@], seq!["embed_out"@])),
            forall|l: int| 0 <= l < i ==> #[trigger] moe_block(g.nodes@, l, *config),
            g.tensors@.contains_key("input_ids"@),
            g.tensors@.contains_key("embed_out"@),
        decreases config.num_layers - i,
    {
        proof {
            lemma_moe_counts(i as int, config.num_layers as int, 0, config.num_experts as int, layer_len, xl);
        }
        let ghost base = g.nodes@.len() as int;
        let ghost start = g.nodes@;
        proof {
            assert(all_in(g.nodes@, 0, base, same_as(start)));
        }
        push_moe_attn_layer(&mut g, config, i, prev.as_str());
        proof {
            lemma_moe_attn_layer_props(g.nodes@, base, i as nat, *config);
            lemma_moe_extend(start, g.nodes@, start, base);
        }
        let ep = indexed("layer_", i, ".expert_");
        let mut expert_outputs: Vec<String> = Vec::new();
        let mut e: usize = 0;
        while e < config.num_experts
            invariant
                moe_fits(*config),
                layer_len == moe_layer_len(*config),
                xl == expert_len(config.activation),
                i < config.num_layers,
                base == 1 + i * layer_len,
                base + layer_len + 2 <= 3 + config.num_layers * layer_len,
                e <= config.num_experts,
                expert_outputs@.len() == e,
                forall|k: int| 0 <= k < e ==> (#[trigger] expert_outputs@[k])@ == xname(i as nat, k as nat, ".scaled"@),
                g.nodes@.len() == base + 10 + e * xl,
                layer_len == 10 + config.num_experts * xl + config.num_experts,
                ep@ == indexed_name("layer_"@, i as nat, ".expert_"@),
                start.len() == base,
                ids_ok(g.nodes@),
                all_in(g.nodes@, 0, g.nodes@.len() as int, causal_only()),
                all_in(g.nodes@, 0, g.nodes@.len() as int, bare()),
                all_in(g.nodes@, 0, 1, is_node(0, Op::TokenEmbed, seq!["input_ids"@], seq!["embed_out"@])),
                all_in(g.nodes@, 0, base, same_as(start)),
                moe_attn_layer_is(g.nodes@, base, i as nat, *config),
                forall|e2: int| 0 <= e2 < e ==> #[trigger] moe_expert_at(g.nodes@, base, i as nat, e2, *config),
                g.tensors@.contains_key("input_ids"@),
                g.tensors@.contains_key("embed_out"@),
            decreases config.num_experts - e,
        {
            proof {
                lemma_moe_counts(i as int, config.num_layers as int, e as int, config.num_experts as int, layer_len, xl);
            }
            let ghost before = g.nodes@;
            push_moe_expert(&mut g, config.activation, i, e, ep.as_str());
            proof {
                lemma_moe_expert_props(g.nodes@, before.len() as int, i as nat, e as nat, config.activation);
                lemma_moe_extend(before, g.nodes@, start, base);
                lemma_moe_attn_layer_prefix(before, g.nodes@, base, i as nat, *config);
                lemma_moe_experts_prefix(before, g.nodes@, base, i as nat, *config, e as int);
                assert(moe_expert_at(g.nodes@, base, i as nat, e as int, *config));
            }
            expert_outputs.push(wname(ep.as_str(), "", e, ".scaled"));
            e = e + 1;
        }
        let sum_prefix = indexed("layer_", i, ".expert_sum_");
        let mut accum = owned(expert_outputs[0].as_str());
        let mut e: usize = 1;
        while e < config.num_experts
            invariant
                moe_fits(*config),
                layer_len == moe_layer_len(*config),
                xl == expert_len(config.activation),
                i < config.num_layers,
                base == 1 + i * layer_len,
                base + layer_len + 2 <= 3 + config.num_layers * layer_len,
                1 <= e <= config.num_experts,
                expert_outputs@.len() == config.num_experts,
                forall|k: int| 0 <= k < config.num_experts ==> (#[trigger] expert_outputs@[k])@ == xname(i as nat, k as nat, ".scaled"@),
                accum@ == moe_acc(i as nat, (e - 1) as nat),
                sum_prefix@ == indexed_name("layer_"@, i as nat, ".expert_sum_"@),
                g.nodes@.len() == base + 10 + config.num_experts * xl + e - 1,
                layer_len == 10 + config.num_experts * xl + config.num_experts,
                start.len() == base,
                ids_ok(g.nodes@),
                all_in(g.nodes@, 0, g.nodes@.len() as int, causal_only()),
                all_in(g.nodes@, 0, g.nodes@.len() as int, bare()),
                all_in(g.nodes@, 0, 1, is_node(0, Op::TokenEmbed, seq!["input_ids"@], seq!["embed_out"@])),
                all_in(g.nodes@, 0, base, same_as(start)),
                moe_attn_layer_is(g.nodes@, base, i as nat, *config),
                forall|e2: int| 0 <= e2 < config.num_experts ==> #[trigger] moe_expert_at(g.nodes@, base, i as nat, e2, *config),
                forall|e2: int| 1 <= e2 < e ==> #[trigger] moe_sum_at(g.nodes@, base, i as nat, e2, *config),
                g.tensors@.contains_key("input_ids"@),
                g.tensors@.contains_key("embed_out"@),
            decreases config.num_experts - e,
        {
            let ghost before = g.nodes@;
            emit(&mut g, Op::Add, two(accum, owned(expert_outputs[e].as_str())),
                one(wname(sum_prefix.as_str(), "", e, "")), NameMap::new());
            proof {
                assert forall|j: int| 0 <= j < before.len() implies #[trigger] g.nodes@[j] == before[j] by {
                    assert(g.nodes@.drop_last()[j] == g.nodes@[j]);
                }
                lemma_moe_attn_layer_prefix(before, g.nodes@, base, i as nat, *config);
                lemma_moe_experts_prefix(before, g.nodes@, base, i as nat, *config, config.num_experts as int);
                lemma_moe_sums_prefix(before, g.nodes@, base, i as nat, *config, e as int);
                assert(moe_sum_at(g.nodes@, base, i as nat, e as int, *config));
            }
            accum = wname(sum_prefix.as_str(), "", e, "");
            e = e + 1;
        }
        let ghost before = g.nodes@;
        emit(&mut g, Op::Add, two(indexed("layer_", i, ".residual1"), accum), one(indexed("layer_", i, ".residual2")), NameMap::new());
        proof {
            assert forall|j: int| 0 <= j < before.len() implies #[trigger] g.nodes@[j] == before[j] by {
                assert(g.nodes@.drop_last()[j] == g.nodes@[j]);
            }
            lemma_moe_attn_layer_prefix(before, g.nodes@, base, i as nat, *config);
            lemma_moe_experts_prefix(before, g.nodes@, base, i as nat, *config, config.num_experts as int);
            lemma_moe_sums_prefix(before, g.nodes@, base, i as nat, *config, config.num_experts as int);
            assert(moe_layer_is(g.nodes@, base, i as nat, *config));
            assert(moe_block(g.nodes@, i as int, *config));
            lemma_same_prefix(g.nodes@, start, base);
            lemma_moe_blocks_prefix(start, g.nodes@, i as nat, *config);
        }
        prev = indexed("layer_", i, ".residual2");
        i = i + 1;
    }
    let ghost body = g.nodes@;
    emit(&mut g, Op::RmsNorm { eps }, two(prev, owned("model.norm.weight")), one(owned("final_norm_out")), NameMap::new());
    let ghost norm_node = g.nodes@.last();
    emit(&mut g, Op::Matmul, two(owned("final_norm_out"), owned("lm_head.weight")), one(owned("logits")), NameMap::new());
    g.add_tensor(owned("logits"), TensorMeta {
        shape: vec![Dim::Dynamic(owned("seq_len")), Dim::Fixed(config.vocab_size)],
        dtype: DType::F32,
        residency: Residency::Streamed,
    });
    proof {
        assert(g.nodes@[g.nodes@.len() - 2] == norm_node);
        assert forall|j: int| 0 <= j < body.len() implies #[trigger] g.nodes@[j] == body[j] by {
            assert(g.nodes@.drop_last()[j] == g.nodes@[j]);
            assert(g.nodes@.drop_last().drop_last()[j] == g.nodes@.drop_last()[j]);
        }
        lemma_moe_blocks_prefix(body, g.nodes@, config.num_layers as nat, *config);
    }
    g
}


// ---- Transformer encoder and encoder-decoder ----

/// The encoder hidden state after `n` layers.
pub open spec fn encoder_hidden(n: nat) -> Seq<char> {
    if n == 0 {
        "embed_out"@
    } else {
        lname((n - 1) as nat, ".residual2"@)
    }
}

/// The position-embedding node of the encoder: it reads `position_ids`
/// through the table named by its `embed_weight` attribute and, pushed
/// directly rather than through `add_node`, carries id 0.
pub open spec fn pos_embed_node() -> spec_fn(Node) -> bool {
    |n: Node| {
        &&& node_is(n, 0, Op::PosEmbed, seq!["position_ids"@], seq!["pos_embed"@])
        &&& n.attrs@.dom() == set!["embed_weight"@]
        &&& (n.attrs@["embed_weight"@] matches AttrValue::String(w) && w@ == "embeddings.position_embeddings.weight"@)
    }
}

/// A node that is not a cross-attention.
pub open spec fn no_cross() -> spec_fn(Node) -> bool {
    |n: Node| !(n.op is SdpaCross)
}

/// The nodes `nodes[base..base + 10]` are transformer-encoder layer `i`:
/// LayerNorm, fused QKV projection, bidirectional attention, output
/// projection, residual, LayerNorm, up projection, GELU, down projection,
/// residual; none has attributes.
pub open spec fn tenc_layer_is(nodes: Seq<Node>, base: int, i: nat, c: TransformerConfig) -> bool {
    let prev = encoder_hidden(i);
    &&& node_is(nodes[base], base, Op::LayerNorm { eps: c.eps }, seq![prev, indexed_name("layer_"@, i, ".attn_norm.weight"@), indexed_name("layer_"@, i, ".attn_norm.bias"@)], seq![indexed_name("layer_"@, i, ".attn_norm_out"@)])
    &&& nodes[base].attrs@ == Map::<Seq<char>, AttrValue>::empty()
    &&& node_is(nodes[base + 1], base + 1, Op::Matmul, seq![indexed_name("layer_"@, i, ".attn_norm_out"@), indexed_name("layer_"@, i, ".qkv.weight"@)], seq![indexed_name("layer_"@, i, ".qkv_out"@)])
    &&& nodes[base + 1].attrs@ == Map::<Seq<char>, AttrValue>::empty()
    &&& node_is(nodes[base + 2], base + 2, Op::Sdpa { num_heads: c.num_heads as u32, kv_heads: c.num_heads as u32, head_dim: c.head_dim as u32, causal: false }, seq![indexed_name("layer_"@, i, ".qkv_out"@)], seq![indexed_name("layer_"@, i, ".attn_out"@)])
    &&& nodes[base + 2].attrs@ == Map::<Seq<char>, AttrValue>::empty()
    &&& node_is(nodes[base + 3], base + 3, Op::Matmul, seq![indexed_name("layer_"@, i, ".attn_out"@), indexed_name("layer_"@, i, ".o_proj.weight"@)], seq![indexed_name("layer_"@, i, ".o_proj_out"@)])
    &&& nodes[base + 3].attrs@ == Map::<Seq<char>, AttrValue>::empty()
    &&& node_is(nodes[base + 4], base + 4, Op::Add, seq![prev, indexed_name("layer_"@, i, ".o_proj_out"@)], seq![indexed_name("layer_"@, i, ".residual1"@)])
    &&& nodes[base + 4].attrs@ == Map::<Seq<char>, AttrValue>::empty()
    &&& node_is(nodes[base + 5], base + 5, Op::LayerNorm { eps: c.eps }, seq![indexed_name("layer_"@, i, ".residual1"@), indexed_name("layer_"@, i, ".ffn_norm.weight"@), indexed_name("layer_"@, i, ".ffn_norm.bias"@)], seq![indexed_name("layer_"@, i, ".ffn_norm_out"@)])
    &&& nodes[base + 5].attrs@ == Map::<Seq<char>, AttrValue>::empty()
    &&& node_is(nodes[base + 6], base + 6, Op::Matmul, seq![indexed_name("layer_"@, i, ".ffn_norm_out"@), indexed_name("layer_"@, i, ".up_proj.weight"@)], seq![indexed_name("layer_"@, i, ".up_out"@)])
    &&& nodes[base + 6].attrs@ == Map::<Seq<char>, AttrValue>::empty()
    &&& node_is(nodes[base + 7], base + 7, Op::Gelu { approximate: false }, seq![indexed_name("layer_"@, i, ".up_out"@)], seq![indexed_name("layer_"@, i, ".act_out"@)])
    &&& nodes[base + 7].attrs@ == Map::<Seq<char>, AttrValue>::empty()
    &&& node_is(nodes[base + 8], base + 8, Op::Matmul, seq![indexed_name("layer_"@, i, ".act_out"@), indexed_name("layer_"@, i, ".down_proj.weight"@)], seq![indexed_name("layer_"@, i, ".down_out"@)])
    &&& nodes[base + 8].attrs@ == Map::<Seq<char>, AttrValue>::empty()
    &&& node_is(nodes[base + 9], base + 9, Op::Add, seq![indexed_name("layer_"@, i, ".residual1"@), indexed_name("layer_"@, i, ".down_out"@)], seq![indexed_name("layer_"@, i, ".residual2"@)])
    &&& nodes[base + 9].attrs@ == Map::<Seq<char>, AttrValue>::empty()
}

/// A `tenc` layer description only reads its own nodes.
proof fn lemma_tenc_layer_prefix(a: Seq<Node>, b: Seq<Node>, base: int, i: nat, c: TransformerConfig)
    requires
        0 <= base,
        base + 10 <= a.len(),
        a.len() <= b.len(),
        forall|j: int| 0 <= j < a.len() ==> #[trigger] b[j] == a[j],
        tenc_layer_is(a, base, i, c),
    ensures
        tenc_layer_is(b, base, i, c),
{
    assert forall|k: int| 0 <= k < 10 implies #[trigger] b[base + k] == a[base + k] by {}
}

/// The nodes of a `tenc` layer keep their positions as ids, attend in both directions, hold no cross-attention and carry no attributes.
proof fn lemma_tenc_layer_props(nodes: Seq<Node>, base: int, i: nat, c: TransformerConfig)
    requires
        0 <= base,
        base + 10 <= nodes.len(),
        tenc_layer_is(nodes, base, i, c),
    ensures
        forall|j: int| base <= j < base + 10 ==> (#[trigger] nodes[j]).id == j && (not_causal())(nodes[j]) && (no_cross())(nodes[j]) && (bare())(nodes[j]),
{
    assert forall|j: int| base <= j < base + 10 implies (#[trigger] nodes[j]).id == j && (not_causal())(nodes[j]) && (no_cross())(nodes[j]) && (bare())(nodes[j]) by {
        let k = j - base;
        assert(0 <= k < 10);
        assert(nodes[base + k] == nodes[j]);
    }
}

/// Append transformer-encoder layer `i`, reading `prev`.
fn push_tenc_layer(g: &mut Graph, c: &TransformerConfig, i: usize, prev: &str)
    requires
        old(g).nodes@.len() + 10 <= usize::MAX,
        prev@ == encoder_hidden(i as nat),
    ensures
        final(g).nodes@.len() == old(g).nodes@.len() + 10,
        forall|j: int| 0 <= j < old(g).nodes@.len() ==> #[trigger] final(g).nodes@[j] == old(g).nodes@[j],
        tenc_layer_is(final(g).nodes@, old(g).nodes@.len() as int, i as nat, *c),
        final(g).weights == old(g).weights,
        final(g).tensors == old(g).tensors,
{
    let base = g.nodes.len();
    let mut layer: Vec<Node> = Vec::new();
    layer.push(mk_node(base, Op::LayerNorm { eps: c.eps }, three(owned(prev), indexed("layer_", i, ".attn_norm.weight"), indexed("layer_", i, ".attn_norm.bias")), one(indexed("layer_", i, ".attn_norm_out")), NameMap::new()));
    layer.push(mk_node(base + 1, Op::Matmul, two(indexed("layer_", i, ".attn_norm_out"), indexed("layer_", i, ".qkv.weight")), one(indexed("layer_", i, ".qkv_out")), NameMap::new()));
    layer.push(mk_node(base + 2, Op::Sdpa { num_heads: c.num_heads as u32, kv_heads: c.num_heads as u32, head_dim: c.head_dim as u32, causal: false }, one(indexed("layer_", i, ".qkv_out")), one(indexed("layer_", i, ".attn_out")), NameMap::new()));
    layer.push(mk_node(base + 3, Op::Matmul, two(indexed("layer_", i, ".attn_out"), indexed("layer_", i, ".o_proj.weight")), one(indexed("layer_", i, ".o_proj_out")), NameMap::new()));
    layer.push(mk_node(base + 4, Op::Add, two(owned(prev), indexed("layer_", i, ".o_proj_out")), one(indexed("layer_", i, ".residual1")), NameMap::new()));
    layer.push(mk_node(base + 5, Op::LayerNorm { eps: c.eps }, three(indexed("layer_", i, ".residual1"), indexed("layer_", i, ".ffn_norm.weight"), indexed("layer_", i, ".ffn_norm.bias")), one(indexed("layer_", i, ".ffn_norm_out")), NameMap::new()));
    layer.push(mk_node(base + 6, Op::Matmul, two(indexed("layer_", i, ".ffn_norm_out"), indexed("layer_", i, ".up_proj.weight")), one(indexed("layer_", i, ".up_out")), NameMap::new()));
    layer.push(mk_node(base + 7, Op::Gelu { approximate: false }, one(indexed("layer_", i, ".up_out")), one(indexed("layer_", i, ".act_out")), NameMap::new()));
    layer.push(mk_node(base + 8, Op::Matmul, two(indexed("layer_", i, ".act_out"), indexed("layer_", i, ".down_proj.weight")), one(indexed("layer_", i, ".down_out")), NameMap::new()));
    layer.push(mk_node(base + 9, Op::Add, two(indexed("layer_", i, ".residual1"), indexed("layer_", i, ".down_out")), one(indexed("layer_", i, ".residual2")), NameMap::new()));
    append_nodes(g, layer);
}


/// Transformer-encoder layer `l` of a graph, after the 3 embedding nodes.
pub open spec fn tenc_block(nodes: Seq<Node>, l: int, c: TransformerConfig) -> bool {
    tenc_layer_is(nodes, 3 + 10 * l, l as nat, c)
}

/// Transformer-encoder layers `0..n` stay as they are when nodes are appended.
proof fn lemma_tenc_blocks_prefix(a: Seq<Node>, b: Seq<Node>, n: nat, c: TransformerConfig)
    requires
        3 + 10 * n <= a.len() <= b.len(),
        forall|j: int| 0 <= j < a.len() ==> #[trigger] b[j] == a[j],
        forall|l: int| 0 <= l < n ==> #[trigger] tenc_block(a, l, c),
    ensures
        forall|l: int| 0 <= l < n ==> #[trigger] tenc_block(b, l, c),
{
    assert forall|l: int| 0 <= l < n implies #[trigger] tenc_block(b, l, c) by {
        assert(tenc_block(a, l, c));
        lemma_tenc_layer_prefix(a, b, 3 + 10 * l, l as nat, c);
    }
}

/// Build a transformer encoder graph (BERT, CLIP text, Whisper encoder):
/// token plus position embedding; per layer LayerNorm, fused QKV
/// projection, bidirectional attention without KV cache, output
/// projection and residual, LayerNorm, up projection, GELU, down
/// projection and residual; a final LayerNorm producing `encoder_output`.
pub fn transformer_encoder(config: &TransformerConfig) -> (g: Graph)
    requires
        4 + 10 * config.num_layers <= usize::MAX,
    ensures
        g.nodes@.len() == 4 + 10 * config.num_layers,
        all_in(g.nodes@, 0, 1, is_node(0, Op::TokenEmbed, seq!["input_ids"@], seq!["token_embed"@])),
        all_in(g.nodes@, 1, 2, pos_embed_node()),
        ids_from(g.nodes@, 2),
        bidirectional(g.nodes@),
        all_in(g.nodes@, 2, 3, is_node(2, Op::Add, seq!["token_embed"@, "pos_embed"@], seq!["embed_out"@])),
        node_is(g.nodes@[g.nodes@.len() - 1], g.nodes@.len() - 1, Op::LayerNorm { eps: config.eps },
            seq![encoder_hidden(config.num_layers as nat), "model.norm.weight"@, "model.norm.bias"@], seq!["encoder_output"@]),
        g.tensors@.contains_key("embed_out"@),
        all_in(g.nodes@, 0, g.nodes@.len() as int, no_cross()),
        forall|l: int| 0 <= l < config.num_layers ==> #[trigger] tenc_block(g.nodes@, l, *config),
        g.nodes@[g.nodes@.len() - 1].attrs@ == Map::<Seq<char>, AttrValue>::empty(),
{
    let mut g = Graph::new();
    let eps = config.eps;
    emit(&mut g, Op::TokenEmbed, one(owned("input_ids")), one(owned("token_embed")), NameMap::new());
    let mut pos_attrs: Attrs = NameMap::new();
    pos_attrs.insert(owned("embed_weight"), AttrValue::String(owned("embeddings.position_embeddings.weight")));
    g.nodes.push(Node {
        id: 0,
        op: Op::PosEmbed,
        inputs: one(owned("position_ids")),
        outputs: one(owned("pos_embed")),
        attrs: pos_attrs,
        backend_hint: None,
    });
    emit(&mut g, Op::Add, two(owned("token_embed"), owned("pos_embed")), one(owned("embed_out")), NameMap::new());
    g.add_tensor(owned("embed_out"), TensorMeta {
        shape: vec![Dim::Dynamic(owned("seq_len")), Dim::Fixed(config.hidden_size)],
        dtype: DType::F16,
        residency: Residency::Streamed,
    });
    proof {
        assert(g.nodes@.len() == 3);
        assert(g.nodes@[0] == g.nodes@.drop_last()[0]);
        assert(g.nodes@[1] == g.nodes@.drop_last()[1]);
        assert(pos_attrs@.dom() =~= set!["embed_weight"@]);
        assert(all_in(g.nodes@, 0, 1, is_node(0, Op::TokenEmbed, seq!["input_ids"@], seq!["token_embed"@])));
        assert(all_in(g.nodes@, 1, 2, pos_embed_node()));
        assert(all_in(g.nodes@, 2, 3, is_node(2, Op::Add, seq!["token_embed"@, "pos_embed"@], seq!["embed_out"@])));
        assert(ids_from(g.nodes@, 2));
        assert(bidirectional(g.nodes@));
        assert(all_in(g.nodes@, 0, 3, no_cross()));
    }
    let mut prev = owned("embed_out");
    let mut i: usize = 0;
    while i < config.num_layers
        invariant
            4 + 10 * config.num_layers <= usize::MAX,
            eps == config.eps,
            i <= config.num_layers,
            g.nodes@.len() == 3 + 10 * i,
            prev@ == encoder_hidden(i as nat),
            ids_from(g.nodes@, 2),
            bidirectional(g.nodes@),
            all_in(g.nodes@, 0, 1, is_node(0, Op::TokenEmbed, seq!["input_ids"@], seq!["token_embed"@])),
            all_in(g.nodes@, 1, 2, pos_embed_node()),
            all_in(g.nodes@, 2, 3, is_node(2, Op::Add, seq!["token_embed"@, "pos_embed"@], seq!["embed_out"@])),
            g.tensors@.contains_key("embed_out"@),
            all_in(g.nodes@, 0, g.nodes@.len() as int, no_cross()),
            forall|l: int| 0 <= l < i ==> #[trigger] tenc_block(g.nodes@, l, *config),
        decreases config.num_layers - i,
    {
        let ghost before = g.nodes@;
        push_tenc_layer(&mut g, config, i, prev.as_str());
        proof {
            lemma_tenc_blocks_prefix(before, g.nodes@, i as nat, *config);
            lemma_tenc_layer_props(g.nodes@, before.len() as int, i as nat, *config);
            assert(tenc_block(g.nodes@, i as int, *config));
            assert forall|j: int| 2 <= j < g.nodes@.len() implies (#[trigger] g.nodes@[j]).id == j by {
                if j < before.len() {
                    assert(g.nodes@[j] == before[j]);
                }
            }
            assert forall|j: int| 0 <= j < g.nodes@.len() implies !((#[trigger] g.nodes@[j]).op matches Op::Sdpa { causal, .. } && causal) by {
                if j < before.len() {
                    assert(g.nodes@[j] == before[j]);
                } else {
                    assert((not_causal())(g.nodes@[j]));
                }
            }
            assert forall|j: int| 0 <= j < g.nodes@.len() implies (no_cross())(#[trigger] g.nodes@[j]) by {
                if j < before.len() {
                    assert(g.nodes@[j] == before[j]);
                }
            }
            assert(g.nodes@[0] == before[0]);
            assert(g.nodes@[1] == before[1]);
            assert(g.nodes@[2] == before[2]);
        }
        prev = indexed("layer_", i, ".residual2");
        i = i + 1;
    }
    let ghost body = g.nodes@;
    emit(&mut g, Op::LayerNorm { eps }, three(prev, owned("model.norm.weight"), owned("model.norm.bias")),
        one(owned("encoder_output")), NameMap::new());
    proof {
        assert forall|j: int| 0 <= j < body.len() implies #[trigger] g.nodes@[j] == body[j] by {
            assert(g.nodes@.drop_last()[j] == g.nodes@[j]);
        }
        lemma_tenc_blocks_prefix(body, g.nodes@, config.num_layers as nat, *config);
    }
    g
}

/// `s` with the `enc.` prefix.
pub open spec fn enc_name(s: Seq<char>) -> Seq<char> {
    "enc."@ + s
}

/// The decoder hidden state after `n` layers of the encoder-decoder.
pub open spec fn encdec_hidden(n: nat) -> Seq<char> {
    if n == 0 {
        "dec.embed_out"@
    } else {
        indexed_name("dec.layer_"@, (n - 1) as nat, ".residual3"@)
    }
}

/// The nodes of a transformer-encoder graph, as `transformer_encoder`
/// builds them.
pub open spec fn tenc_graph_is(enc: Seq<Node>, c: TransformerConfig) -> bool {
    &&& enc.len() == 4 + 10 * c.num_layers
    &&& all_in(enc, 0, 1, is_node(0, Op::TokenEmbed, seq!["input_ids"@], seq!["token_embed"@]))
    &&& all_in(enc, 1, 2, pos_embed_node())
    &&& all_in(enc, 2, 3, is_node(2, Op::Add, seq!["token_embed"@, "pos_embed"@], seq!["embed_out"@]))
    &&& forall|l: int| 0 <= l < c.num_layers ==> #[trigger] tenc_block(enc, l, c)
    &&& node_is(enc[enc.len() - 1], enc.len() - 1, Op::LayerNorm { eps: c.eps },
        seq![encoder_hidden(c.num_layers as nat), "model.norm.weight"@, "model.norm.bias"@], seq!["encoder_output"@])
}

/// Node `n` at `id` copies `src` under the `enc.` prefix: the same op, the
/// names prefixed, no attributes and no backend hint.
pub open spec fn enc_copy_node(n: Node, src: Node, id: int) -> bool {
    &&& enc_copy_of(n, src, id)
    &&& same_op(n.op, src.op)
    &&& n.attrs@ == Map::<Seq<char>, AttrValue>::empty()
    &&& n.backend_hint is None
}

/// A copy of `src` under the `enc.` prefix: same position as id, and the
/// input and output names prefixed.
pub open spec fn enc_copy_of(n: Node, src: Node, id: int) -> bool {
    &&& n.id == id
    &&& names(n.inputs@) == names(src.inputs@).map_values(|s: Seq<char>| enc_name(s))
    &&& names(n.outputs@) == names(src.outputs@).map_values(|s: Seq<char>| enc_name(s))
}

/// The names with the `enc.` prefix.
fn prefixed(v: &Vec<String>) -> (r: Vec<String>)
    ensures
        names(r@) == names(v@).map_values(|s: Seq<char>| enc_name(s)),
{
    let mut r: Vec<String> = Vec::new();
    let mut k: usize = 0;
    while k < v.len()
        invariant
            k <= v@.len(),
            names(r@) == names(v@.take(k as int)).map_values(|s: Seq<char>| enc_name(s)),
        decreases v@.len() - k,
    {
        let ghost r0 = r@;
        r.push(cat("enc.", v[k].as_str()));
        proof {
            assert(r@ == r0.push(r@.last()));
            assert(names(r@) =~= names(r0).push(enc_name(v@[k as int]@)));
            assert(v@.take(k + 1) =~= v@.take(k as int).push(v@[k as int]));
            assert(names(v@.take(k + 1)) =~= names(v@.take(k as int)).push(v@[k as int]@));
        }
        k = k + 1;
        proof {
            assert(names(r@) =~= names(v@.take(k as int)).map_values(|s: Seq<char>| enc_name(s)));
        }
    }
    proof {
        assert(v@.take(k as int) =~= v@);
    }
    r
}

/// Every name starts with `enc.`.
pub open spec fn all_enc(ns: Seq<Seq<char>>) -> bool {
    forall|k: int| 0 <= k < ns.len() ==> (#[trigger] ns[k]).subrange(0, 4) == "enc."@
}

/// A node whose input and output names all start with `enc.`.
pub open spec fn enc_named() -> spec_fn(Node) -> bool {
    |n: Node| all_enc(names(n.inputs@)) && all_enc(names(n.outputs@))
}

proof fn lemma_all_enc(ns: Seq<Seq<char>>)
    ensures
        all_enc(ns.map_values(|s: Seq<char>| enc_name(s))),
{
    reveal_strlit("enc.");
    let m = ns.map_values(|s: Seq<char>| enc_name(s));
    assert forall|k: int| 0 <= k < m.len() implies (#[trigger] m[k]).subrange(0, 4) == "enc."@ by {
        assert(m[k] == "enc."@ + ns[k]);
        assert(m[k].subrange(0, 4) =~= "enc."@);
    }
}

/// The nodes `nodes[base..base + 18]` are decoder layer `i` of the
/// encoder-decoder: RMS norm, fused QKV projection, KV cache, causal
/// self-attention, output projection, residual; RMS norm, cross query,
/// cross-attention over `enc.encoder_output`, output projection, residual;
/// RMS norm, gate and up projections, SiLU, product, down projection,
/// residual; none has attributes.
pub open spec fn encdec_layer_is(nodes: Seq<Node>, base: int, i: nat, c: TransformerConfig) -> bool {
    let prev = encdec_hidden(i);
    &&& node_is(nodes[base], base, Op::RmsNorm { eps: c.eps }, seq![prev, indexed_name("dec.layer_"@, i, ".attn_norm.weight"@)], seq![indexed_name("dec.layer_"@, i, ".attn_norm_out"@)])
    &&& nodes[base].attrs@ == Map::<Seq<char>, AttrValue>::empty()
    &&& node_is(nodes[base + 1], base + 1, Op::Matmul, seq![indexed_name("dec.layer_"@, i, ".attn_norm_out"@), indexed_name("dec.layer_"@, i, ".qkv.weight"@)], seq![indexed_name("dec.layer_"@, i, ".qkv_out"@)])
    &&& nodes[base + 1].attrs@ == Map::<Seq<char>, AttrValue>::empty()
    &&& node_is(nodes[base + 2], base + 2, Op::KvCache, seq![indexed_name("dec.layer_"@, i, ".qkv_out"@)], seq![indexed_name("dec.layer_"@, i, ".kv_cached"@)])
    &&& nodes[base + 2].attrs@ == Map::<Seq<char>, AttrValue>::empty()
    &&& node_is(nodes[base + 3], base + 3, Op::Sdpa { num_heads: c.num_heads as u32, kv_heads: c.kv_num_heads as u32, head_dim: c.head_dim as u32, causal: true }, seq![indexed_name("dec.layer_"@, i, ".qkv_out"@), indexed_name("dec.layer_"@, i, ".kv_cached"@)], seq![indexed_name("dec.layer_"@, i, ".self_attn_out"@)])
    &&& nodes[base + 3].attrs@ == Map::<Seq<char>, AttrValue>::empty()
    &&& node_is(nodes[base + 4], base + 4, Op::Matmul, seq![indexed_name("dec.layer_"@, i, ".self_attn_out"@), indexed_name("dec.layer_"@, i, ".self_o_proj.weight"@)], seq![indexed_name("dec.layer_"@, i, ".self_attn_proj"@)])
    &&& nodes[base + 4].attrs@ == Map::<Seq<char>, AttrValue>::empty()
    &&& node_is(nodes[base + 5], base + 5, Op::Add, seq![prev, indexed_name("dec.layer_"@, i, ".self_attn_proj"@)], seq![indexed_name("dec.layer_"@, i, ".residual1"@)])
    &&& nodes[base + 5].attrs@ == Map::<Seq<char>, AttrValue>::empty()
    &&& node_is(nodes[base + 6], base + 6, Op::RmsNorm { eps: c.eps }, seq![indexed_name("dec.layer_"@, i, ".residual1"@), indexed_name("dec.layer_"@, i, ".cross_norm.weight"@)], seq![indexed_name("dec.layer_"@, i, ".cross_norm_out"@)])
    &&& nodes[base + 6].attrs@ == Map::<Seq<char>, AttrValue>::empty()
    &&& node_is(nodes[base + 7], base + 7, Op::Matmul, seq![indexed_name("dec.layer_"@, i, ".cross_norm_out"@), indexed_name("dec.layer_"@, i, ".cross_q.weight"@)], seq![indexed_name("dec.layer_"@, i, ".cross_q"@)])
    &&& nodes[base + 7].attrs@ == Map::<Seq<char>, AttrValue>::empty()
    &&& node_is(nodes[base + 8], base + 8, Op::SdpaCross { num_heads: c.num_heads as u32, head_dim: c.head_dim as u32 }, seq![indexed_name("dec.layer_"@, i, ".cross_q"@), "enc.encoder_output"@], seq![indexed_name("dec.layer_"@, i, ".cross_attn_out"@)])
    &&& nodes[base + 8].attrs@ == Map::<Seq<char>, AttrValue>::empty()
    &&& node_is(nodes[base + 9], base + 9, Op::Matmul, seq![indexed_name("dec.layer_"@, i, ".cross_attn_out"@), indexed_name("dec.layer_"@, i, ".cross_o_proj.weight"@)], seq![indexed_name("dec.layer_"@, i, ".cross_proj"@)])
    &&& nodes[base + 9].attrs@ == Map::<Seq<char>, AttrValue>::empty()
    &&& node_is(nodes[base + 10], base + 10, Op::Add, seq![indexed_name("dec.layer_"@, i, ".residual1"@), indexed_name("dec.layer_"@, i, ".cross_proj"@)], seq![indexed_name("dec.layer_"@, i, ".residual2"@)])
    &&& nodes[base + 10].attrs@ == Map::<Seq<char>, AttrValue>::empty()
    &&& node_is(nodes[base + 11], base + 11, Op::RmsNorm { eps: c.eps }, seq![indexed_name("dec.layer_"@, i, ".residual2"@), indexed_name("dec.layer_"@, i, ".ffn_norm.weight"@)], seq![indexed_name("dec.layer_"@, i, ".ffn_norm_out"@)])
    &&& nodes[base + 11].attrs@ == Map::<Seq<char>, AttrValue>::empty()
    &&& node_is(nodes[base + 12], base + 12, Op::Matmul, seq![indexed_name("dec.layer_"@, i, ".ffn_norm_out"@), indexed_name("dec.layer_"@, i, ".gate_proj.weight"@)], seq![indexed_name("dec.layer_"@, i, ".gate_out"@)])
    &&& nodes[base + 12].attrs@ == Map::<Seq<char>, AttrValue>::empty()
    &&& node_is(nodes[base + 13], base + 13, Op::Matmul, seq![indexed_name("dec.layer_"@, i, ".ffn_norm_out"@), indexed_name("dec.layer_"@, i, ".up_proj.weight"@)], seq![indexed_name("dec.layer_"@, i, ".up_out"@)])
    &&& nodes[base + 13].attrs@ == Map::<Seq<char>, AttrValue>::empty()
    &&& node_is(nodes[base + 14], base + 14, Op::Silu, seq![indexed_name("dec.layer_"@, i, ".gate_out"@)], seq![indexed_name("dec.layer_"@, i, ".silu_out"@)])
    &&& nodes[base + 14].attrs@ == Map::<Seq<char>, AttrValue>::empty()
    &&& node_is(nodes[base + 15], base + 15, Op::Mul, seq![indexed_name("dec.layer_"@, i, ".silu_out"@), indexed_name("dec.layer_"@, i, ".up_out"@)], seq![indexed_name("dec.layer_"@, i, ".act_out"@)])
    &&& nodes[base + 15].attrs@ == Map::<Seq<char>, AttrValue>::empty()
    &&& node_is(nodes[base + 16], base + 16, Op::Matmul, seq![indexed_name("dec.layer_"@, i, ".act_out"@), indexed_name("dec.layer_"@, i, ".down_proj.weight"@)], seq![indexed_name("dec.layer_"@, i, ".down_out"@)])
    &&& nodes[base + 16].attrs@ == Map::<Seq<char>, AttrValue>::empty()
    &&& node_is(nodes[base + 17], base + 17, Op::Add, seq![indexed_name("dec.layer_"@, i, ".residual2"@), indexed_name("dec.layer_"@, i, ".down_out"@)], seq![indexed_name("dec.layer_"@, i, ".residual3"@)])
    &&& nodes[base + 17].attrs@ == Map::<Seq<char>, AttrValue>::empty()
}

/// A `encdec` layer description only reads its own nodes.
proof fn lemma_encdec_layer_prefix(a: Seq<Node>, b: Seq<Node>, base: int, i: nat, c: TransformerConfig)
    requires
        0 <= base,
        base + 18 <= a.len(),
        a.len() <= b.len(),
        forall|j: int| 0 <= j < a.len() ==> #[trigger] b[j] == a[j],
        encdec_layer_is(a, base, i, c),
    ensures
        encdec_layer_is(b, base, i, c),
{
    assert forall|k: int| 0 <= k < 18 implies #[trigger] b[base + k] == a[base + k] by {}
}

/// The nodes of a `encdec` layer keep their positions as ids, attend causally, cross-attend to `enc.encoder_output` and carry no attributes.
proof fn lemma_encdec_layer_props(nodes: Seq<Node>, base: int, i: nat, c: TransformerConfig)
    requires
        0 <= base,
        base + 18 <= nodes.len(),
        encdec_layer_is(nodes, base, i, c),
    ensures
        forall|j: int| base <= j < base + 18 ==> (#[trigger] nodes[j]).id == j && (causal_only())(nodes[j]) && (cross_reads("enc.encoder_output"@))(nodes[j]) && (bare())(nodes[j]),
{
    assert forall|j: int| base <= j < base + 18 implies (#[trigger] nodes[j]).id == j && (causal_only())(nodes[j]) && (cross_reads("enc.encoder_output"@))(nodes[j]) && (bare())(nodes[j]) by {
        let k = j - base;
        assert(0 <= k < 18);
        assert(nodes[base + k] == nodes[j]);
    }
}

/// Append decoder layer `i` of the encoder-decoder, reading `prev`.
fn push_encdec_layer(g: &mut Graph, c: &TransformerConfig, i: usize, prev: &str)
    requires
        old(g).nodes@.len() + 18 <= usize::MAX,
        prev@ == encdec_hidden(i as nat),
    ensures
        final(g).nodes@.len() == old(g).nodes@.len() + 18,
        forall|j: int| 0 <= j < old(g).nodes@.len() ==> #[trigger] final(g).nodes@[j] == old(g).nodes@[j],
        encdec_layer_is(final(g).nodes@, old(g).nodes@.len() as int, i as nat, *c),
        final(g).weights == old(g).weights,
        final(g).tensors == old(g).tensors,
{
    let base = g.nodes.len();
    let mut layer: Vec<Node> = Vec::new();
    layer.push(mk_node(base, Op::RmsNorm { eps: c.eps }, two(owned(prev), indexed("dec.layer_", i, ".attn_norm.weight")), one(indexed("dec.layer_", i, ".attn_norm_out")), NameMap::new()));
    layer.push(mk_node(base + 1, Op::Matmul, two(indexed("dec.layer_", i, ".attn_norm_out"), indexed("dec.layer_", i, ".qkv.weight")), one(indexed("dec.layer_", i, ".qkv_out")), NameMap::new()));
    layer.push(mk_node(base + 2, Op::KvCache, one(indexed("dec.layer_", i, ".qkv_out")), one(indexed("dec.layer_", i, ".kv_cached")), NameMap::new()));
    layer.push(mk_node(base + 3, Op::Sdpa { num_heads: c.num_heads as u32, kv_heads: c.kv_num_heads as u32, head_dim: c.head_dim as u32, causal: true }, two(indexed("dec.layer_", i, ".qkv_out"), indexed("dec.layer_", i, ".kv_cached")), one(indexed("dec.layer_", i, ".self_attn_out")), NameMap::new()));
    layer.push(mk_node(base + 4, Op::Matmul, two(indexed("dec.layer_", i, ".self_attn_out"), indexed("dec.layer_", i, ".self_o_proj.weight")), one(indexed("dec.layer_", i, ".self_attn_proj")), NameMap::new()));
    layer.push(mk_node(base + 5, Op::Add, two(owned(prev), indexed("dec.layer_", i, ".self_attn_proj")), one(indexed("dec.layer_", i, ".residual1")), NameMap::new()));
    layer.push(mk_node(base + 6, Op::RmsNorm { eps: c.eps }, two(indexed("dec.layer_", i, ".residual1"), indexed("dec.layer_", i, ".cross_norm.weight")), one(indexed("dec.layer_", i, ".cross_norm_out")), NameMap::new()));
    layer.push(mk_node(base + 7, Op::Matmul, two(indexed("dec.layer_", i, ".cross_norm_out"), indexed("dec.layer_", i, ".cross_q.weight")), one(indexed("dec.layer_", i, ".cross_q")), NameMap::new()));
    layer.push(mk_node(base + 8, Op::SdpaCross { num_heads: c.num_heads as u32, head_dim: c.head_dim as u32 }, two(indexed("dec.layer_", i, ".cross_q"), owned("enc.encoder_output")), one(indexed("dec.layer_", i, ".cross_attn_out")), NameMap::new()));
    layer.push(mk_node(base + 9, Op::Matmul, two(indexed("dec.layer_", i, ".cross_attn_out"), indexed("dec.layer_", i, ".cross_o_proj.weight")), one(indexed("dec.layer_", i, ".cross_proj")), NameMap::new()));
    layer.push(mk_node(base + 10, Op::Add, two(indexed("dec.layer_", i, ".residual1"), indexed("dec.layer_", i, ".cross_proj")), one(indexed("dec.layer_", i, ".residual2")), NameMap::new()));
    layer.push(mk_node(base + 11, Op::RmsNorm { eps: c.eps }, two(indexed("dec.layer_", i, ".residual2"), indexed("dec.layer_", i, ".ffn_norm.weight")), one(indexed("dec.layer_", i, ".ffn_norm_out")), NameMap::new()));
    layer.push(mk_node(base + 12, Op::Matmul, two(indexed("dec.layer_", i, ".ffn_norm_out"), indexed("dec.layer_", i, ".gate_proj.weight")), one(indexed("dec.layer_", i, ".gate_out")), NameMap::new()));
    layer.push(mk_node(base + 13, Op::Matmul, two(indexed("dec.layer_", i, ".ffn_norm_out"), indexed("dec.layer_", i, ".up_proj.weight")), one(indexed("dec.layer_", i, ".up_out")), NameMap::new()));
    layer.push(mk_node(base + 14, Op::Silu, one(indexed("dec.layer_", i, ".gate_out")), one(indexed("dec.layer_", i, ".silu_out")), NameMap::new()));
    layer.push(mk_node(base + 15, Op::Mul, two(indexed("dec.layer_", i, ".silu_out"), indexed("dec.layer_", i, ".up_out")), one(indexed("dec.layer_", i, ".act_out")), NameMap::new()));
    layer.push(mk_node(base + 16, Op::Matmul, two(indexed("dec.layer_", i, ".act_out"), indexed("dec.layer_", i, ".down_proj.weight")), one(indexed("dec.layer_", i, ".down_out")), NameMap::new()));
    layer.push(mk_node(base + 17, Op::Add, two(indexed("dec.layer_", i, ".residual2"), indexed("dec.layer_", i, ".down_out")), one(indexed("dec.layer_", i, ".residual3")), NameMap::new()));
    append_nodes(g, layer);
}


/// Decoder layer `l` of an encoder-decoder graph, after the encoder copy
/// (`4 + 10 * enc.num_layers` nodes) and the decoder's embedding node.
pub open spec fn encdec_block(nodes: Seq<Node>, l: int, enc: TransformerConfig, dec: TransformerConfig) -> bool {
    encdec_layer_is(nodes, 5 + 10 * enc.num_layers + 18 * l, l as nat, dec)
}

/// Decoder layers `0..n` stay as they are when nodes are appended.
proof fn lemma_encdec_blocks_prefix(a: Seq<Node>, b: Seq<Node>, n: nat, enc: TransformerConfig, dec: TransformerConfig)
    requires
        5 + 10 * enc.num_layers + 18 * n <= a.len() <= b.len(),
        forall|j: int| 0 <= j < a.len() ==> #[trigger] b[j] == a[j],
        forall|l: int| 0 <= l < n ==> #[trigger] encdec_block(a, l, enc, dec),
    ensures
        forall|l: int| 0 <= l < n ==> #[trigger] encdec_block(b, l, enc, dec),
{
    assert forall|l: int| 0 <= l < n implies #[trigger] encdec_block(b, l, enc, dec) by {
        assert(encdec_block(a, l, enc, dec));
        lemma_encdec_layer_prefix(a, b, 5 + 10 * enc.num_layers + 18 * l, l as nat, dec);
    }
}

/// Build an encoder-decoder graph (Whisper, T5): the nodes of
/// `transformer_encoder(enc_config)` with every tensor name under the
/// `enc.` prefix (renumbered by position), then a decoder with token
/// embedding and per layer: RMS norm, fused QKV projection, the KV cache,
/// causal self-attention, output projection and residual; RMS norm, query
/// projection, cross-attention over `enc.encoder_output`, output
/// projection and residual; RMS norm, gate and up projections, SiLU,
/// gating, down projection and residual; finally an RMS norm and the LM
/// head producing `logits`.
#[verifier::rlimit(60)]
pub fn encoder_decoder(enc_config: &TransformerConfig, dec_config: &TransformerConfig) -> (g: Graph)
    requires
        7 + 10 * enc_config.num_layers + 18 * dec_config.num_layers <= usize::MAX,
    ensures
        g.nodes@.len() == 7 + 10 * enc_config.num_layers + 18 * dec_config.num_layers,
        ids_ok(g.nodes@),
        all_in(g.nodes@, 0, 4 + 10 * enc_config.num_layers, enc_named()),
        all_in(g.nodes@, 0, 4 + 10 * enc_config.num_layers, not_causal()),
        all_in(g.nodes@, 4 + 10 * enc_config.num_layers, g.nodes@.len() as int, causal_only()),
        all_in(g.nodes@, 0, g.nodes@.len() as int, cross_reads("enc.encoder_output"@)),
        all_in(g.nodes@, 4 + 10 * enc_config.num_layers, 5 + 10 * enc_config.num_layers,
            is_node(4 + 10 * enc_config.num_layers, Op::TokenEmbed, seq!["dec.input_ids"@], seq!["dec.embed_out"@])),
        node_is(g.nodes@[g.nodes@.len() - 2], g.nodes@.len() - 2, Op::RmsNorm { eps: dec_config.eps },
            seq![encdec_hidden(dec_config.num_layers as nat), "dec.model.norm.weight"@], seq!["dec.final_norm_out"@]),
        node_is(g.nodes@[g.nodes@.len() - 1], g.nodes@.len() - 1, Op::Matmul, seq!["dec.final_norm_out"@, "dec.lm_head.weight"@],
            seq!["logits"@]),
        forall|l: int| 0 <= l < dec_config.num_layers ==> #[trigger] encdec_block(g.nodes@, l, *enc_config, *dec_config),
        exists|enc: Seq<Node>| #[trigger] tenc_graph_is(enc, *enc_config)
            && forall|j: int| 0 <= j < enc.len() ==> enc_copy_node(#[trigger] g.nodes@[j], enc[j], j),
{
    let mut g = Graph::new();
    let enc = transformer_encoder(enc_config);
    let enc_len = enc.nodes.len();
    let mut j: usize = 0;
    while j < enc_len
        invariant
            enc_len == enc.nodes@.len(),
            enc_len == 4 + 10 * enc_config.num_layers,
            7 + 10 * enc_config.num_layers + 18 * dec_config.num_layers <= usize::MAX,
            bidirectional(enc.nodes@),
            all_in(enc.nodes@, 0, enc_len as int, no_cross()),
            j <= enc_len,
            g.nodes@.len() == j,
            ids_ok(g.nodes@),
            all_in(g.nodes@, 0, j as int, not_causal()),
            all_in(g.nodes@, 0, j as int, cross_reads("enc.encoder_output"@)),
            all_in(g.nodes@, 0, j as int, enc_named()),
            forall|j2: int| 0 <= j2 < j ==> enc_copy_node(#[trigger] g.nodes@[j2], enc.nodes@[j2], j2),
        decreases enc_len - j,
    {
        let ghost before = g.nodes@;
        let node = &enc.nodes[j];
        let ins = prefixed(&node.inputs);
        let outs = prefixed(&node.outputs);
        let op = node.op.clone();
        proof {
            lemma_all_enc(names(node.inputs@));
            lemma_all_enc(names(node.outputs@));
            assert(no_cross()(enc.nodes@[j as int]));
        }
        emit(&mut g, op, ins, outs, NameMap::new());
        proof {
            assert forall|j2: int| 0 <= j2 < j + 1 implies enc_copy_node(#[trigger] g.nodes@[j2], enc.nodes@[j2], j2) by {
                if j2 < j {
                    assert(g.nodes@.drop_last()[j2] == g.nodes@[j2]);
                    assert(g.nodes@[j2] == before[j2]);
                }
            }
        }
        j = j + 1;
    }
    let ghost copied = g.nodes@;
    let mut t: usize = 0;
    while t < enc.tensors.len()
        invariant
            g.nodes@ == copied,
        decreases enc.tensors@.len() - t,
    {
        let (name, meta) = enc.tensors.entry(t);
        g.add_tensor(cat("enc.", name.as_str()), meta.clone());
        t = t + 1;
    }
    let eps = dec_config.eps;
    emit(&mut g, Op::TokenEmbed, one(owned("dec.input_ids")), one(owned("dec.embed_out")), NameMap::new());
    let ghost enc_end = enc_len as int;
    proof {
        assert(all_in(g.nodes@, enc_end, enc_end + 1, causal_only()));
        assert(all_in(g.nodes@, enc_end, enc_end + 1,
            is_node(enc_end, Op::TokenEmbed, seq!["dec.input_ids"@], seq!["dec.embed_out"@])));
    }
    let mut prev = owned("dec.embed_out");
    let mut i: usize = 0;
    while i < dec_config.num_layers
        invariant
            7 + 10 * enc_config.num_layers + 18 * dec_config.num_layers <= usize::MAX,
            eps == dec_config.eps,
            enc_end == 4 + 10 * enc_config.num_layers,
            i <= dec_config.num_layers,
            g.nodes@.len() == enc_end + 1 + 18 * i,
            prev@ == encdec_hidden(i as nat),
            ids_ok(g.nodes@),
            all_in(g.nodes@, 0, enc_end, enc_named()),
            all_in(g.nodes@, 0, enc_end, not_causal()),
            all_in(g.nodes@, enc_end, g.nodes@.len() as int, causal_only()),
            all_in(g.nodes@, 0, g.nodes@.len() as int, cross_reads("enc.encoder_output"@)),
            all_in(g.nodes@, enc_end, enc_end + 1,
                is_node(enc_end, Op::TokenEmbed, seq!["dec.input_ids"@], seq!["dec.embed_out"@])),
            forall|l: int| 0 <= l < i ==> #[trigger] encdec_block(g.nodes@, l, *enc_config, *dec_config),
            copied.len() == enc_end,
            forall|j2: int| 0 <= j2 < enc_end ==> #[trigger] g.nodes@[j2] == copied[j2],
        decreases dec_config.num_layers - i,
    {
        let ghost before = g.nodes@;
        push_encdec_layer(&mut g, dec_config, i, prev.as_str());
        proof {
            lemma_encdec_blocks_prefix(before, g.nodes@, i as nat, *enc_config, *dec_config);
            lemma_encdec_layer_props(g.nodes@, before.len() as int, i as nat, *dec_config);
            assert(encdec_block(g.nodes@, i as int, *enc_config, *dec_config));
            assert forall|j: int| 0 <= j < g.nodes@.len() implies (#[trigger] g.nodes@[j]).id == j by {
                if j < before.len() {
                    assert(g.nodes@[j] == before[j]);
                }
            }
            assert forall|j: int| 0 <= j < enc_end implies (enc_named())(#[trigger] g.nodes@[j]) && (not_causal())(g.nodes@[j]) by {
                assert(g.nodes@[j] == before[j]);
            }
            assert(all_in(g.nodes@, enc_end, g.nodes@.len() as int, causal_only())) by {
                assert forall|j: int| enc_end <= j < g.nodes@.len() implies (causal_only())(#[trigger] g.nodes@[j]) by {
                    if j < before.len() {
                        assert(g.nodes@[j] == before[j]);
                    }
                }
            }
            assert(all_in(g.nodes@, 0, g.nodes@.len() as int, cross_reads("enc.encoder_output"@))) by {
                assert forall|j: int| 0 <= j < g.nodes@.len() implies (cross_reads("enc.encoder_output"@))(#[trigger] g.nodes@[j]) by {
                    if j < before.len() {
                        assert(g.nodes@[j] == before[j]);
                    }
                }
            }
            assert(g.nodes@[enc_end] == before[enc_end]);
            assert forall|j2: int| 0 <= j2 < enc_end implies #[trigger] g.nodes@[j2] == copied[j2] by {
                assert(g.nodes@[j2] == before[j2]);
            }
        }
        prev = indexed("dec.layer_", i, ".residual3");
        i = i + 1;
    }
    let ghost body = g.nodes@;
    emit(&mut g, Op::RmsNorm { eps }, two(prev, owned("dec.model.norm.weight")), one(owned("dec.final_norm_out")), NameMap::new());
    let ghost norm_node = g.nodes@.last();
    emit(&mut g, Op::Matmul, two(owned("dec.final_norm_out"), owned("dec.lm_head.weight")), one(owned("logits")), NameMap::new());
    proof {
        assert(g.nodes@[g.nodes@.len() - 2] == norm_node);
        assert forall|j: int| 0 <= j < body.len() implies #[trigger] g.nodes@[j] == body[j] by {
            assert(g.nodes@.drop_last()[j] == g.nodes@[j]);
            assert(g.nodes@.drop_last().drop_last()[j] == g.nodes@.drop_last()[j]);
        }
        lemma_encdec_blocks_prefix(body, g.nodes@, dec_config.num_layers as nat, *enc_config, *dec_config);
        let e = enc.nodes@;
        assert(tenc_graph_is(e, *enc_config));
        assert forall|j: int| 0 <= j < e.len() implies enc_copy_node(#[trigger] g.nodes@[j], e[j], j) by {
            assert(g.nodes@[j] == body[j]);
            assert(body[j] == copied[j]);
        }
    }
    g
}


// ---- Diffusion transformer ----

/// Configuration for DiT-family models (Flux, SD3, Wan2.2).
#[derive(Clone, Copy, Debug)]
pub struct DiTConfig {
    pub hidden_size: usize,
    pub num_heads: usize,
    pub head_dim: usize,
    pub num_layers: usize,
    pub intermediate_size: usize,
    pub patch_size: usize,
    pub in_channels: usize,
    /// Norm epsilon (IEEE-754 bits).
    pub eps: F32Bits,
    pub time_embed_dim: usize,
}

impl Default for DiTConfig {
    /// DiT-XL/2: 1152 hidden, 16 heads of 72, 28 layers, 4608
    /// intermediate, patch size 2, 4 latent channels, eps 1e-6, 256-wide
    /// timestep embedding.
    fn default() -> (r: Self)
        ensures
            r.hidden_size == 1152 && r.num_heads == 16 && r.head_dim == 72 && r.num_layers == 28,
            r.intermediate_size == 4608 && r.patch_size == 2 && r.in_channels == 4,
            r.eps == F32Bits(0x358637bd) && r.time_embed_dim == 256,
    {
        DiTConfig {
            hidden_size: 1152,
            num_heads: 16,
            head_dim: 72,
            num_layers: 28,
            intermediate_size: 4608,
            patch_size: 2,
            in_channels: 4,
            eps: F32Bits(0x358637bd),
            time_embed_dim: 256,
        }
    }
}

/// The DiT hidden state after `n` layers.
pub open spec fn dit_hidden(n: nat) -> Seq<char> {
    if n == 0 {
        "patch_embed_out"@
    } else {
        indexed_name("dit_layer_"@, (n - 1) as nat, ".residual2"@)
    }
}

/// A node that, if it is an adaptive LayerNorm, is conditioned on the
/// projected timestep embedding (its second input).
pub open spec fn time_conditioned() -> spec_fn(Node) -> bool {
    |n: Node| (n.op is AdaLN ==> names(n.inputs@).len() == 4 && names(n.inputs@)[1] == "time_proj"@)
}

/// The nodes `nodes[base..base + 10]` are DiT layer `i`: adaptive
/// LayerNorm on `time_proj`, fused QKV projection, bidirectional attention,
/// output projection, residual, adaptive LayerNorm, up projection, GELU
/// (tanh form), down projection, residual; none has attributes.
pub open spec fn dit_layer_is(nodes: Seq<Node>, base: int, i: nat, c: DiTConfig) -> bool {
    let prev = dit_hidden(i);
    &&& node_is(nodes[base], base, Op::AdaLN, seq![prev, "time_proj"@, indexed_name("dit_layer_"@, i, ".adaln1.weight"@), indexed_name("dit_layer_"@, i, ".adaln1.bias"@)], seq![indexed_name("dit_layer_"@, i, ".adaln1_out"@)])
    &&& nodes[base].attrs@ == Map::<Seq<char>, AttrValue>::empty()
    &&& node_is(nodes[base + 1], base + 1, Op::Matmul, seq![indexed_name("dit_layer_"@, i, ".adaln1_out"@), indexed_name("dit_layer_"@, i, ".qkv.weight"@)], seq![indexed_name("dit_layer_"@, i, ".qkv_out"@)])
    &&& nodes[base + 1].attrs@ == Map::<Seq<char>, AttrValue>::empty()
    &&& node_is(nodes[base + 2], base + 2, Op::Sdpa { num_heads: c.num_heads as u32, kv_heads: c.num_heads as u32, head_dim: c.head_dim as u32, causal: false }, seq![indexed_name("dit_layer_"@, i, ".qkv_out"@)], seq![indexed_name("dit_layer_"@, i, ".attn_out"@)])
    &&& nodes[base + 2].attrs@ == Map::<Seq<char>, AttrValue>::empty()
    &&& node_is(nodes[base + 3], base + 3, Op::Matmul, seq![indexed_name("dit_layer_"@, i, ".attn_out"@), indexed_name("dit_layer_"@, i, ".o_proj.weight"@)], seq![indexed_name("dit_layer_"@, i, ".o_proj_out"@)])
    &&& nodes[base + 3].attrs@ == Map::<Seq<char>, AttrValue>::empty()
    &&& node_is(nodes[base + 4], base + 4, Op::Add, seq![prev, indexed_name("dit_layer_"@, i, ".o_proj_out"@)], seq![indexed_name("dit_layer_"@, i, ".residual1"@)])
    &&& nodes[base + 4].attrs@ == Map::<Seq<char>, AttrValue>::empty()
    &&& node_is(nodes[base + 5], base + 5, Op::AdaLN, seq![indexed_name("dit_layer_"@, i, ".residual1"@), "time_proj"@, indexed_name("dit_layer_"@, i, ".adaln2.weight"@), indexed_name("dit_layer_"@, i, ".adaln2.bias"@)], seq![indexed_name("dit_layer_"@, i, ".adaln2_out"@)])
    &&& nodes[base + 5].attrs@ == Map::<Seq<char>, AttrValue>::empty()
    &&& node_is(nodes[base + 6], base + 6, Op::Matmul, seq![indexed_name("dit_layer_"@, i, ".adaln2_out"@), indexed_name("dit_layer_"@, i, ".up_proj.weight"@)], seq![indexed_name("dit_layer_"@, i, ".up_out"@)])
    &&& nodes[base + 6].attrs@ == Map::<Seq<char>, AttrValue>::empty()
    &&& node_is(nodes[base + 7], base + 7, Op::Gelu { approximate: true }, seq![indexed_name("dit_layer_"@, i, ".up_out"@)], seq![indexed_name("dit_layer_"@, i, ".act_out"@)])
    &&& nodes[base + 7].attrs@ == Map::<Seq<char>, AttrValue>::empty()
    &&& node_is(nodes[base + 8], base + 8, Op::Matmul, seq![indexed_name("dit_layer_"@, i, ".act_out"@), indexed_name("dit_layer_"@, i, ".down_proj.weight"@)], seq![indexed_name("dit_layer_"@, i, ".down_out"@)])
    &&& nodes[base + 8].attrs@ == Map::<Seq<char>, AttrValue>::empty()
    &&& node_is(nodes[base + 9], base + 9, Op::Add, seq![indexed_name("dit_layer_"@, i, ".residual1"@), indexed_name("dit_layer_"@, i, ".down_out"@)], seq![indexed_name("dit_layer_"@, i, ".residual2"@)])
    &&& nodes[base + 9].attrs@ == Map::<Seq<char>, AttrValue>::empty()
}

/// A `dit` layer description only reads its own nodes.
proof fn lemma_dit_layer_prefix(a: Seq<Node>, b: Seq<Node>, base: int, i: nat, c: DiTConfig)
    requires
        0 <= base,
        base + 10 <= a.len(),
        a.len() <= b.len(),
        forall|j: int| 0 <= j < a.len() ==> #[trigger] b[j] == a[j],
        dit_layer_is(a, base, i, c),
    ensures
        dit_layer_is(b, base, i, c),
{
    assert forall|k: int| 0 <= k < 10 implies #[trigger] b[base + k] == a[base + k] by {}
}

/// The nodes of a `dit` layer keep their positions as ids, attend in both directions, take the time conditioning where they normalize and carry no attributes.
proof fn lemma_dit_layer_props(nodes: Seq<Node>, base: int, i: nat, c: DiTConfig)
    requires
        0 <= base,
        base + 10 <= nodes.len(),
        dit_layer_is(nodes, base, i, c),
    ensures
        forall|j: int| base <= j < base + 10 ==> (#[trigger] nodes[j]).id == j && (not_causal())(nodes[j]) && (time_conditioned())(nodes[j]) && (bare())(nodes[j]),
{
    assert forall|j: int| base <= j < base + 10 implies (#[trigger] nodes[j]).id == j && (not_causal())(nodes[j]) && (time_conditioned())(nodes[j]) && (bare())(nodes[j]) by {
        let k = j - base;
        assert(0 <= k < 10);
        assert(nodes[base + k] == nodes[j]);
    }
}

/// Append DiT layer `i`, reading `prev`.
fn push_dit_layer(g: &mut Graph, c: &DiTConfig, i: usize, prev: &str)
    requires
        old(g).nodes@.len() + 10 <= usize::MAX,
        prev@ == dit_hidden(i as nat),
    ensures
        final(g).nodes@.len() == old(g).nodes@.len() + 10,
        forall|j: int| 0 <= j < old(g).nodes@.len() ==> #[trigger] final(g).nodes@[j] == old(g).nodes@[j],
        dit_layer_is(final(g).nodes@, old(g).nodes@.len() as int, i as nat, *c),
        final(g).weights == old(g).weights,
        final(g).tensors == old(g).tensors,
{
    let base = g.nodes.len();
    let mut layer: Vec<Node> = Vec::new();
    layer.push(mk_node(base, Op::AdaLN, four(owned(prev), owned("time_proj"), indexed("dit_layer_", i, ".adaln1.weight"), indexed("dit_layer_", i, ".adaln1.bias")), one(indexed("dit_layer_", i, ".adaln1_out")), NameMap::new()));
    layer.push(mk_node(base + 1, Op::Matmul, two(indexed("dit_layer_", i, ".adaln1_out"), indexed("dit_layer_", i, ".qkv.weight")), one(indexed("dit_layer_", i, ".qkv_out")), NameMap::new()));
    layer.push(mk_node(base + 2, Op::Sdpa { num_heads: c.num_heads as u32, kv_heads: c.num_heads as u32, head_dim: c.head_dim as u32, causal: false }, one(indexed("dit_layer_", i, ".qkv_out")), one(indexed("dit_layer_", i, ".attn_out")), NameMap::new()));
    layer.push(mk_node(base + 3, Op::Matmul, two(indexed("dit_layer_", i, ".attn_out"), indexed("dit_layer_", i, ".o_proj.weight")), one(indexed("dit_layer_", i, ".o_proj_out")), NameMap::new()));
    layer.push(mk_node(base + 4, Op::Add, two(owned(prev), indexed("dit_layer_", i, ".o_proj_out")), one(indexed("dit_layer_", i, ".residual1")), NameMap::new()));
    layer.push(mk_node(base + 5, Op::AdaLN, four(indexed("dit_layer_", i, ".residual1"), owned("time_proj"), indexed("dit_layer_", i, ".adaln2.weight"), indexed("dit_layer_", i, ".adaln2.bias")), one(indexed("dit_layer_", i, ".adaln2_out")), NameMap::new()));
    layer.push(mk_node(base + 6, Op::Matmul, two(indexed("dit_layer_", i, ".adaln2_out"), indexed("dit_layer_", i, ".up_proj.weight")), one(indexed("dit_layer_", i, ".up_out")), NameMap::new()));
    layer.push(mk_node(base + 7, Op::Gelu { approximate: true }, one(indexed("dit_layer_", i, ".up_out")), one(indexed("dit_layer_", i, ".act_out")), NameMap::new()));
    layer.push(mk_node(base + 8, Op::Matmul, two(indexed("dit_layer_", i, ".act_out"), indexed("dit_layer_", i, ".down_proj.weight")), one(indexed("dit_layer_", i, ".down_out")), NameMap::new()));
    layer.push(mk_node(base + 9, Op::Add, two(indexed("dit_layer_", i, ".residual1"), indexed("dit_layer_", i, ".down_out")), one(indexed("dit_layer_", i, ".residual2")), NameMap::new()));
    append_nodes(g, layer);
}


/// DiT layer `l` of a graph, after the 3 stem nodes.
pub open spec fn dit_block(nodes: Seq<Node>, l: int, c: DiTConfig) -> bool {
    dit_layer_is(nodes, 3 + 10 * l, l as nat, c)
}

/// DiT layers `0..n` stay as they are when nodes are appended.
proof fn lemma_dit_blocks_prefix(a: Seq<Node>, b: Seq<Node>, n: nat, c: DiTConfig)
    requires
        3 + 10 * n <= a.len() <= b.len(),
        forall|j: int| 0 <= j < a.len() ==> #[trigger] b[j] == a[j],
        forall|l: int| 0 <= l < n ==> #[trigger] dit_block(a, l, c),
    ensures
        forall|l: int| 0 <= l < n ==> #[trigger] dit_block(b, l, c),
{
    assert forall|l: int| 0 <= l < n implies #[trigger] dit_block(b, l, c) by {
        assert(dit_block(a, l, c));
        lemma_dit_layer_prefix(a, b, 3 + 10 * l, l as nat, c);
    }
}

/// The DiT stem, by node id (nodes 0 to 2): patch embedding, sinusoidal
/// time embedding and its projection.
pub open spec fn dit_stem(c: DiTConfig) -> spec_fn(Node) -> bool {
    |n: Node| {
        &&& n.id == 0 ==> node_is(n, 0, Op::PatchEmbed { patch_size: c.patch_size as u32 }, seq!["latent_input"@], seq!["patch_embed_out"@])
        &&& n.id == 1 ==> node_is(n, 1, Op::SinusoidalEmbed { dim: c.time_embed_dim as u32 }, seq!["timestep"@], seq!["time_embed"@])
        &&& n.id == 2 ==> node_is(n, 2, Op::Matmul, seq!["time_embed"@, "time_embed.proj.weight"@], seq!["time_proj"@])
    }
}

/// Build a DiT (diffusion transformer) graph: patch embedding of
/// `latent_input`, sinusoidal timestep embedding and its projection; per
/// layer adaptive LayerNorm (conditioned on the timestep), fused QKV
/// projection, bidirectional attention, output projection and residual,
/// adaptive LayerNorm, up projection, tanh-approximated GELU, down
/// projection and residual; finally adaptive LayerNorm, projection and
/// unpatchify producing `noise_pred`.
pub fn diffusion_dit(config: &DiTConfig) -> (g: Graph)
    requires
        6 + 10 * config.num_layers <= usize::MAX,
    ensures
        g.nodes@.len() == 6 + 10 * config.num_layers,
        ids_ok(g.nodes@),
        bidirectional(g.nodes@),
        all_in(g.nodes@, 0, g.nodes@.len() as int, time_conditioned()),
        all_in(g.nodes@, 0, g.nodes@.len() as int, bare()),
        all_in(g.nodes@, 0, 1, is_node(0, Op::PatchEmbed { patch_size: config.patch_size as u32 }, seq!["latent_input"@],
            seq!["patch_embed_out"@])),
        node_is(g.nodes@[g.nodes@.len() - 1], g.nodes@.len() - 1, Op::Unpatchify, seq!["final_proj_out"@], seq!["noise_pred"@]),
        all_in(g.nodes@, 0, 3, dit_stem(*config)),
        forall|l: int| 0 <= l < config.num_layers ==> #[trigger] dit_block(g.nodes@, l, *config),
        node_is(g.nodes@[g.nodes@.len() - 3], g.nodes@.len() - 3, Op::AdaLN,
            seq![dit_hidden(config.num_layers as nat), "time_proj"@, "final_adaln.weight"@, "final_adaln.bias"@], seq!["final_adaln_out"@]),
        node_is(g.nodes@[g.nodes@.len() - 2], g.nodes@.len() - 2, Op::Matmul, seq!["final_adaln_out"@, "final_proj.weight"@],
            seq!["final_proj_out"@]),
        g.tensors@.contains_key("latent_input"@),
        g.tensors@.contains_key("patch_embed_out"@),
        g.tensors@.contains_key("noise_pred"@),
{
    let mut g = Graph::new();
    emit(&mut g, Op::PatchEmbed { patch_size: config.patch_size as u32 }, one(owned("latent_input")), one(owned("patch_embed_out")),
        NameMap::new());
    g.add_tensor(owned("latent_input"), TensorMeta {
        shape: vec![Dim::Fixed(config.in_channels), Dim::Dynamic(owned("height")), Dim::Dynamic(owned("width"))],
        dtype: DType::F16,
        residency: Residency::Streamed,
    });
    g.add_tensor(owned("patch_embed_out"), TensorMeta {
        shape: vec![Dim::Dynamic(owned("num_patches")), Dim::Fixed(config.hidden_size)],
        dtype: DType::F16,
        residency: Residency::Streamed,
    });
    emit(&mut g, Op::SinusoidalEmbed { dim: config.time_embed_dim as u32 }, one(owned("timestep")), one(owned("time_embed")),
        NameMap::new());
    emit(&mut g, Op::Matmul, two(owned("time_embed"), owned("time_embed.proj.weight")), one(owned("time_proj")), NameMap::new());
    proof {
        assert(all_in(g.nodes@, 0, 1, is_node(0, Op::PatchEmbed { patch_size: config.patch_size as u32 }, seq!["latent_input"@],
            seq!["patch_embed_out"@])));
        assert(g.nodes@[0] == g.nodes@.drop_last().drop_last()[0]);
        assert(g.nodes@[1] == g.nodes@.drop_last()[1]);
        assert(all_in(g.nodes@, 0, 3, dit_stem(*config)));
        assert(all_in(g.nodes@, 0, 3, time_conditioned()));
        assert(all_in(g.nodes@, 0, 3, bare()));
    }
    let mut prev = owned("patch_embed_out");
    let mut i: usize = 0;
    while i < config.num_layers
        invariant
            6 + 10 * config.num_layers <= usize::MAX,
            i <= config.num_layers,
            g.nodes@.len() == 3 + 10 * i,
            prev@ == dit_hidden(i as nat),
            ids_ok(g.nodes@),
            bidirectional(g.nodes@),
            all_in(g.nodes@, 0, g.nodes@.len() as int, time_conditioned()),
            all_in(g.nodes@, 0, g.nodes@.len() as int, bare()),
            all_in(g.nodes@, 0, 1, is_node(0, Op::PatchEmbed { patch_size: config.patch_size as u32 }, seq!["latent_input"@],
                seq!["patch_embed_out"@])),
            g.tensors@.contains_key("latent_input"@),
            g.tensors@.contains_key("patch_embed_out"@),
            all_in(g.nodes@, 0, 3, dit_stem(*config)),
            forall|l: int| 0 <= l < i ==> #[trigger] dit_block(g.nodes@, l, *config),
        decreases config.num_layers - i,
    {
        let ghost before = g.nodes@;
        push_dit_layer(&mut g, config, i, prev.as_str());
        proof {
            lemma_dit_blocks_prefix(before, g.nodes@, i as nat, *config);
            lemma_dit_layer_props(g.nodes@, before.len() as int, i as nat, *config);
            assert(dit_block(g.nodes@, i as int, *config));
            assert forall|j: int| 0 <= j < g.nodes@.len() implies (#[trigger] g.nodes@[j]).id == j
                && !(g.nodes@[j].op matches Op::Sdpa { causal, .. } && causal) by {
                if j < before.len() {
                    assert(g.nodes@[j] == before[j]);
                } else {
                    assert((not_causal())(g.nodes@[j]));
                }
            }
            assert forall|j: int| 0 <= j < g.nodes@.len() implies (time_conditioned())(#[trigger] g.nodes@[j]) && (bare())(g.nodes@[j]) by {
                if j < before.len() {
                    assert(g.nodes@[j] == before[j]);
                }
            }
            assert(g.nodes@[0] == before[0]);
            assert(g.nodes@[1] == before[1]);
            assert(g.nodes@[2] == before[2]);
        }
        prev = indexed("dit_layer_", i, ".residual2");
        i = i + 1;
    }
    let ghost body = g.nodes@;
    let fin = four(prev, owned("time_proj"), owned("final_adaln.weight"), owned("final_adaln.bias"));
    emit(&mut g, Op::AdaLN, fin, one(owned("final_adaln_out")), NameMap::new());
    let ghost ada_node = g.nodes@.last();
    emit(&mut g, Op::Matmul, two(owned("final_adaln_out"), owned("final_proj.weight")), one(owned("final_proj_out")), NameMap::new());
    let ghost proj_node = g.nodes@.last();
    emit(&mut g, Op::Unpatchify, one(owned("final_proj_out")), one(owned("noise_pred")), NameMap::new());
    proof {
        assert(g.nodes@[g.nodes@.len() - 2] == proj_node);
        assert(g.nodes@.drop_last()[g.nodes@.len() - 3] == ada_node);
        assert(g.nodes@[g.nodes@.len() - 3] == ada_node);
        assert forall|j: int| 0 <= j < body.len() implies #[trigger] g.nodes@[j] == body[j] by {
            assert(g.nodes@.drop_last()[j] == g.nodes@[j]);
            assert(g.nodes@.drop_last().drop_last()[j] == g.nodes@.drop_last()[j]);
            assert(g.nodes@.drop_last().drop_last().drop_last()[j] == g.nodes@.drop_last().drop_last()[j]);
        }
        lemma_dit_blocks_prefix(body, g.nodes@, config.num_layers as nat, *config);
    }
    g.add_tensor(owned("noise_pred"), TensorMeta {
        shape: vec![Dim::Fixed(config.in_channels), Dim::Dynamic(owned("height")), Dim::Dynamic(owned("width"))],
        dtype: DType::F16,
        residency: Residency::Streamed,
    });
    g
}


// ---- CNN detector ----

/// Configuration for CNN detection models (YOLO family).
pub struct CnnDetectorConfig {
    /// Backbone channel progression (e.g. [64, 128, 256, 512, 1024]).
    pub backbone_channels: Vec<usize>,
    /// Number of convolution blocks per stage.
    pub blocks_per_stage: Vec<usize>,
    /// FPN output channels.
    pub fpn_channels: usize,
    /// Number of detection classes.
    pub num_classes: usize,
    /// Number of anchor boxes per position.
    pub num_anchors: usize,
    /// Input image channels (3 for RGB).
    pub in_channels: usize,
    /// BatchNorm epsilon (IEEE-754 bits).
    pub eps: F32Bits,
}

impl Default for CnnDetectorConfig {
    /// YOLOv3-like: stages of 64, 128, 256, 512 and 1024 channels with
    /// 1, 2, 8, 8 and 4 blocks, 256 FPN channels, 80 classes, 3 anchors,
    /// RGB input, eps 1e-5.
    fn default() -> (r: Self)
        ensures
            r.backbone_channels@ == seq![64usize, 128, 256, 512, 1024],
            r.blocks_per_stage@ == seq![1usize, 2, 8, 8, 4],
            r.fpn_channels == 256 && r.num_classes == 80 && r.num_anchors == 3 && r.in_channels == 3,
            r.eps == F32Bits(0x3727c5ac),
    {
        CnnDetectorConfig {
            backbone_channels: vec![64, 128, 256, 512, 1024],
            blocks_per_stage: vec![1, 2, 8, 8, 4],
            fpn_channels: 256,
            num_classes: 80,
            num_anchors: 3,
            in_channels: 3,
            eps: F32Bits(0x3727c5ac),
        }
    }
}

/// Blocks in backbone stage `s`: the configured count, or one past the
/// end of `blocks_per_stage`.
pub open spec fn stage_blocks(bps: Seq<usize>, s: int) -> nat {
    if s < bps.len() {
        bps[s] as nat
    } else {
        1
    }
}

/// Blocks in the first `n` stages.
pub open spec fn blocks_before(bps: Seq<usize>, n: int) -> nat
    decreases n,
{
    if n <= 0 {
        0
    } else {
        blocks_before(bps, n - 1) + stage_blocks(bps, n - 1)
    }
}

proof fn lemma_blocks_monotone(bps: Seq<usize>, a: int, b: int)
    requires
        0 <= a <= b,
    ensures
        blocks_before(bps, a) <= blocks_before(bps, b),
    decreases b - a,
{
    if a < b {
        lemma_blocks_monotone(bps, a, b - 1);
    }
}

/// Pyramid levels: the last three backbone stages (fewer if there are
/// fewer stages).
pub open spec fn fpn_levels(stages: nat) -> nat {
    if stages < 3 {
        stages
    } else {
        3
    }
}

/// Nodes of the CNN detector: three per backbone block, and per pyramid
/// level a lateral convolution and a head, plus upsample, merge and
/// smoothing for all levels but the coarsest.
pub open spec fn cnn_node_count(c: &CnnDetectorConfig) -> nat {
    let k = fpn_levels(c.backbone_channels@.len());
    (3 * blocks_before(c.blocks_per_stage@, c.backbone_channels@.len() as int) + 5 * k - 3) as nat
}

/// The feature map the detection head at `scale` reads: the smoothed
/// merge for all but the coarsest level, whose lateral output is used
/// directly.
pub open spec fn fpn_level_name(scale: nat, k: nat) -> Seq<char> {
    if scale + 1 < k {
        indexed_name("fpn.smooth_"@, scale, ""@)
    } else {
        indexed_name("fpn.lateral_"@, scale, ""@)
    }
}

/// The sizes the detector template computes fit in `usize`, and the
/// backbone has a stage.
pub open spec fn cnn_fits(c: &CnnDetectorConfig) -> bool {
    &&& c.backbone_channels@.len() >= 1
    &&& 3 * blocks_before(c.blocks_per_stage@, c.backbone_channels@.len() as int) + 15 <= usize::MAX
    &&& 5 + c.num_classes <= usize::MAX
    &&& c.num_anchors * (5 + c.num_classes) <= usize::MAX
}

/// The head for `scale`: a 1x1 convolution over the pyramid level.
pub open spec fn head_node(n: Node, id: int, scale: nat, k: nat) -> bool {
    node_is(n, id, Op::Conv2d { kernel: (1, 1), stride: (1, 1), padding: (0, 0), groups: 1 },
        seq![fpn_level_name(scale, k), indexed_name("head.scale_"@, scale, ".conv.weight"@),
            indexed_name("head.scale_"@, scale, ".conv.bias"@)],
        seq![indexed_name("head.scale_"@, scale, ".conv_out"@)])
}

/// `backbone.stage_<s>.block_<b><tail>`.
pub open spec fn bname(s: nat, b: nat, tail: Seq<char>) -> Seq<char> {
    indexed_name("backbone.stage_"@, s, ".block_"@) + indexed_name(""@, b, tail)
}

/// The feature map after backbone stages `0..=s`: the last block's
/// activation of the last stage that has blocks, or the image.
pub open spec fn cnn_out(bps: Seq<usize>, s: int) -> Seq<char>
    decreases s + 1,
{
    if s < 0 {
        "image"@
    } else if stage_blocks(bps, s) == 0 {
        cnn_out(bps, s - 1)
    } else {
        bname(s as nat, (stage_blocks(bps, s) - 1) as nat, ".act_out"@)
    }
}

/// What block `b` of stage `s` reads: the previous block's activation, or
/// for a stage's first block the output of the stages before.
pub open spec fn cnn_block_input(bps: Seq<usize>, s: int, b: int) -> Seq<char> {
    if b == 0 {
        cnn_out(bps, s - 1)
    } else {
        bname(s as nat, (b - 1) as nat, ".act_out"@)
    }
}

/// The nodes from `base` are block `b` of backbone stage `s`: a 3x3
/// convolution (stride 2 for the first block of every stage after the
/// first), BatchNorm with its running statistics (momentum 0.1) and a
/// LeakyReLU of slope 0.1; none has attributes.
pub open spec fn cnn_block_is(nodes: Seq<Node>, base: int, bps: Seq<usize>, s: int, b: int, eps: F32Bits) -> bool {
    let st: u32 = if b == 0 && s > 0 { 2 } else { 1 };
    let tenth = F32Bits(0x3dcccccd);
    let sn = s as nat;
    let bn = b as nat;
    &&& bare_node_is(nodes[base], base, Op::Conv2d { kernel: (3, 3), stride: (st, st), padding: (1, 1), groups: 1 },
        seq![cnn_block_input(bps, s, b), bname(sn, bn, ".conv.weight"@), bname(sn, bn, ".conv.bias"@)], seq![bname(sn, bn, ".conv_out"@)])
    &&& bare_node_is(nodes[base + 1], base + 1, Op::BatchNorm { eps, momentum: tenth },
        seq![bname(sn, bn, ".conv_out"@), bname(sn, bn, ".bn.running_mean"@), bname(sn, bn, ".bn.running_var"@),
            bname(sn, bn, ".bn.weight"@), bname(sn, bn, ".bn.bias"@)], seq![bname(sn, bn, ".bn_out"@)])
    &&& bare_node_is(nodes[base + 2], base + 2, Op::LeakyRelu { slope: tenth }, seq![bname(sn, bn, ".bn_out"@)], seq![bname(sn, bn, ".act_out"@)])
}

/// Block `b` of stage `s` of a CNN detector, at its place in the backbone.
pub open spec fn cnn_block_at(nodes: Seq<Node>, bps: Seq<usize>, s: int, b: int, eps: F32Bits) -> bool {
    cnn_block_is(nodes, 3 * (blocks_before(bps, s) + b), bps, s, b, eps)
}

/// Blocks `(s2, b2)` before block `b` of stage `s` (in build order).
pub open spec fn cnn_block_done(bps: Seq<usize>, s: int, b: int, s2: int, b2: int) -> bool {
    (0 <= s2 < s && 0 <= b2 < stage_blocks(bps, s2)) || (s2 == s && 0 <= b2 < b)
}

/// Backbone blocks already built stay as they are when nodes are appended.
proof fn lemma_cnn_blocks_prefix(a: Seq<Node>, c: Seq<Node>, bps: Seq<usize>, s: int, b: int, eps: F32Bits)
    requires
        0 <= s,
        0 <= b,
        3 * (blocks_before(bps, s) + b) <= a.len() <= c.len(),
        forall|j: int| 0 <= j < a.len() ==> #[trigger] c[j] == a[j],
        forall|s2: int, b2: int| cnn_block_done(bps, s, b, s2, b2) ==> #[trigger] cnn_block_at(a, bps, s2, b2, eps),
    ensures
        forall|s2: int, b2: int| cnn_block_done(bps, s, b, s2, b2) ==> #[trigger] cnn_block_at(c, bps, s2, b2, eps),
{
    assert forall|s2: int, b2: int| cnn_block_done(bps, s, b, s2, b2) implies #[trigger] cnn_block_at(c, bps, s2, b2, eps) by {
        assert(cnn_block_at(a, bps, s2, b2, eps));
        if s2 < s {
            lemma_blocks_monotone(bps, s2 + 1, s);
        }
        let base = 3 * (blocks_before(bps, s2) + b2);
        assert(c[base] == a[base]);
        assert(c[base + 1] == a[base + 1]);
        assert(c[base + 2] == a[base + 2]);
    }
}

/// The FPN lateral convolution of level `l`, reading stage `start + l`.
pub open spec fn cnn_lateral_is(n: Node, id: int, bps: Seq<usize>, start: int, l: int) -> bool {
    bare_node_is(n, id, Op::Conv2d { kernel: (1, 1), stride: (1, 1), padding: (0, 0), groups: 1 },
        seq![cnn_out(bps, start + l), indexed_name("fpn.lateral_"@, l as nat, ".weight"@), indexed_name("fpn.lateral_"@, l as nat, ".bias"@)],
        seq![indexed_name("fpn.lateral_"@, l as nat, ""@)])
}

/// The top-down step for level `j` from `base`: nearest-neighbour upsampling
/// (by 2) of the level above, the sum with level `j`'s lateral, and a 3x3
/// smoothing convolution.
pub open spec fn cnn_merge_is(nodes: Seq<Node>, base: int, j: nat, k: nat) -> bool {
    &&& bare_node_is(nodes[base], base, Op::Interpolate { mode: InterpolateMode::Nearest, scale: F32Bits(0x40000000) },
        seq![fpn_level_name(j + 1, k)], seq![indexed_name("fpn.upsample_"@, j, ""@)])
    &&& bare_node_is(nodes[base + 1], base + 1, Op::Add, seq![indexed_name("fpn.lateral_"@, j, ""@), indexed_name("fpn.upsample_"@, j, ""@)],
        seq![indexed_name("fpn.merge_"@, j, ""@)])
    &&& bare_node_is(nodes[base + 2], base + 2, Op::Conv2d { kernel: (3, 3), stride: (1, 1), padding: (1, 1), groups: 1 },
        seq![indexed_name("fpn.merge_"@, j, ""@), indexed_name("fpn.smooth_"@, j, ".weight"@), indexed_name("fpn.smooth_"@, j, ".bias"@)],
        seq![indexed_name("fpn.smooth_"@, j, ""@)])
}

/// The top-down step for level `j` of a pyramid of `k` levels whose
/// laterals start at `lat`.
pub open spec fn cnn_merge_at(nodes: Seq<Node>, lat: int, j: int, k: int) -> bool {
    cnn_merge_is(nodes, lat + k + 3 * (k - 2 - j), j as nat, k as nat)
}

/// Laterals `0..n` of a pyramid whose laterals start at `lat`.
pub open spec fn cnn_laterals(nodes: Seq<Node>, lat: int, bps: Seq<usize>, start: int, n: int) -> bool {
    forall|l: int| 0 <= l < n ==> cnn_lateral_is(#[trigger] nodes[lat + l], lat + l, bps, start, l)
}

/// Top-down steps for the levels `from..k - 1`.
pub open spec fn cnn_merges(nodes: Seq<Node>, lat: int, from: int, k: int) -> bool {
    forall|j: int| from <= j < k - 1 ==> #[trigger] cnn_merge_at(nodes, lat, j, k)
}

/// The backbone, laterals and top-down steps built so far stay as they are
/// when nodes are appended.
proof fn lemma_cnn_neck_prefix(a: Seq<Node>, c: Seq<Node>, bps: Seq<usize>, n: int, eps: F32Bits, lat: int, start: int, nl: int, from: int, k: int)
    requires
        0 <= n,
        lat == 3 * blocks_before(bps, n),
        0 <= nl <= k,
        lat + nl <= a.len() <= c.len(),
        k < 1 || from >= k - 1 || lat + k + 3 * (k - 1 - from) <= a.len(),
        0 <= from,
        forall|j: int| 0 <= j < a.len() ==> #[trigger] c[j] == a[j],
        forall|s2: int, b2: int| cnn_block_done(bps, n, 0, s2, b2) ==> #[trigger] cnn_block_at(a, bps, s2, b2, eps),
        cnn_laterals(a, lat, bps, start, nl),
        cnn_merges(a, lat, from, k),
    ensures
        forall|s2: int, b2: int| cnn_block_done(bps, n, 0, s2, b2) ==> #[trigger] cnn_block_at(c, bps, s2, b2, eps),
        cnn_laterals(c, lat, bps, start, nl),
        cnn_merges(c, lat, from, k),
{
    lemma_cnn_blocks_prefix(a, c, bps, n, 0, eps);
    assert forall|l: int| 0 <= l < nl implies cnn_lateral_is(#[trigger] c[lat + l], lat + l, bps, start, l) by {
        assert(c[lat + l] == a[lat + l]);
    }
    assert forall|j: int| from <= j < k - 1 implies #[trigger] cnn_merge_at(c, lat, j, k) by {
        assert(cnn_merge_at(a, lat, j, k));
        let p = lat + k + 3 * (k - 2 - j);
        assert(c[p] == a[p]);
        assert(c[p + 1] == a[p + 1]);
        assert(c[p + 2] == a[p + 2]);
    }
}

/// Build a CNN detector graph (YOLO family): a convolutional backbone of
/// stages (each block convolution, BatchNorm and LeakyReLU, the first
/// block of every stage after the first with stride 2), an FPN neck over
/// the last three stages (1x1 lateral convolutions, then top-down
/// nearest-neighbour upsampling, addition and 3x3 smoothing), and a 1x1
/// detection head per level with `num_anchors * (5 + num_classes)`
/// output channels.
#[verifier::rlimit(40)]
pub fn cnn_detector(config: &CnnDetectorConfig) -> (g: Graph)
    requires
        cnn_fits(config),
    ensures
        g.nodes@.len() == cnn_node_count(config),
        ids_ok(g.nodes@),
        all_in(g.nodes@, 0, g.nodes@.len() as int, bare()),
        forall|s2: int, b2: int|
            cnn_block_done(config.blocks_per_stage@, config.backbone_channels@.len() as int, 0, s2, b2) ==> #[trigger] cnn_block_at(
                g.nodes@,
                config.blocks_per_stage@,
                s2,
                b2,
                config.eps,
            ),
        cnn_laterals(
            g.nodes@,
            (3 * blocks_before(config.blocks_per_stage@, config.backbone_channels@.len() as int)) as int,
            config.blocks_per_stage@,
            config.backbone_channels@.len() - fpn_levels(config.backbone_channels@.len()),
            fpn_levels(config.backbone_channels@.len()) as int,
        ),
        cnn_merges(
            g.nodes@,
            (3 * blocks_before(config.blocks_per_stage@, config.backbone_channels@.len() as int)) as int,
            0,
            fpn_levels(config.backbone_channels@.len()) as int,
        ),
        forall|s: int| 0 <= s < fpn_levels(config.backbone_channels@.len()) ==> head_node(
            #[trigger] g.nodes@[g.nodes@.len() - fpn_levels(config.backbone_channels@.len()) + s],
            g.nodes@.len() - fpn_levels(config.backbone_channels@.len()) + s,
            s as nat,
            fpn_levels(config.backbone_channels@.len()),
        ),
        g.tensors@.contains_key("image"@),
        forall|s: int| 0 <= s < fpn_levels(config.backbone_channels@.len()) ==> g.tensors@.contains_key(
            #[trigger] indexed_name("head.scale_"@, s as nat, ".conv_out"@)),
{
    let mut g = Graph::new();
    g.add_tensor(owned("image"), TensorMeta {
        shape: vec![Dim::Fixed(config.in_channels), Dim::Dynamic(owned("height")), Dim::Dynamic(owned("width"))],
        dtype: DType::F16,
        residency: Residency::Streamed,
    });
    let n_stages = config.backbone_channels.len();
    let ghost bps = config.blocks_per_stage@;
    let ghost total = blocks_before(bps, n_stages as int);
    let ghost eps = config.eps;
    let tenth = F32Bits(0x3dcccccd);
    let mut prev = owned("image");
    let mut stage_outputs: Vec<String> = Vec::new();
    let mut s: usize = 0;
    while s < n_stages
        invariant
            cnn_fits(config),
            n_stages == config.backbone_channels@.len(),
            bps == config.blocks_per_stage@,
            eps == config.eps,
            total == blocks_before(bps, n_stages as int),
            tenth == F32Bits(0x3dcccccd),
            s <= n_stages,
            stage_outputs@.len() == s,
            forall|i: int| 0 <= i < s ==> (#[trigger] stage_outputs@[i])@ == cnn_out(bps, i),
            prev@ == cnn_out(bps, s - 1),
            g.nodes@.len() == 3 * blocks_before(bps, s as int),
            ids_ok(g.nodes@),
            all_in(g.nodes@, 0, g.nodes@.len() as int, bare()),
            forall|s2: int, b2: int| cnn_block_done(bps, s as int, 0, s2, b2) ==> #[trigger] cnn_block_at(g.nodes@, bps, s2, b2, eps),
            g.tensors@.contains_key("image"@),
        decreases n_stages - s,
    {
        let stride: u32 = if s == 0 { 1 } else { 2 };
        let blocks = if s < config.blocks_per_stage.len() { config.blocks_per_stage[s] } else { 1 };
        let bp = indexed("backbone.stage_", s, ".block_");
        proof {
            lemma_blocks_monotone(bps, s + 1, n_stages as int);
        }
        let mut b: usize = 0;
        while b < blocks
            invariant
                cnn_fits(config),
                blocks == stage_blocks(bps, s as int),
                3 * blocks_before(bps, s + 1) <= 3 * total,
                total == blocks_before(bps, n_stages as int),
                n_stages == config.backbone_channels@.len(),
                bps == config.blocks_per_stage@,
                eps == config.eps,
                tenth == F32Bits(0x3dcccccd),
                stride == (if s == 0 { 1u32 } else { 2u32 }),
                bp@ == indexed_name("backbone.stage_"@, s as nat, ".block_"@),
                s < n_stages,
                b <= blocks,
                stage_outputs@.len() == s,
                forall|i: int| 0 <= i < s ==> (#[trigger] stage_outputs@[i])@ == cnn_out(bps, i),
                prev@ == cnn_block_input(bps, s as int, b as int),
                g.nodes@.len() == 3 * (blocks_before(bps, s as int) + b),
                ids_ok(g.nodes@),
                all_in(g.nodes@, 0, g.nodes@.len() as int, bare()),
                forall|s2: int, b2: int| cnn_block_done(bps, s as int, b as int, s2, b2) ==> #[trigger] cnn_block_at(g.nodes@, bps, s2, b2, eps),
                g.tensors@.contains_key("image"@),
            decreases blocks - b,
        {
            let block_stride: u32 = if b == 0 { stride } else { 1 };
            let bp = bp.as_str();
            let ghost before = g.nodes@;
            emit(&mut g, Op::Conv2d { kernel: (3, 3), stride: (block_stride, block_stride), padding: (1, 1), groups: 1 },
                three(prev, wname(bp, "", b, ".conv.weight"), wname(bp, "", b, ".conv.bias")),
                one(wname(bp, "", b, ".conv_out")), NameMap::new());
            let ghost n0 = g.nodes@.last();
            let x0 = wname(bp, "", b, ".conv_out");
            let x1 = wname(bp, "", b, ".bn.running_mean");
            let x2 = wname(bp, "", b, ".bn.running_var");
            let x3 = wname(bp, "", b, ".bn.weight");
            let x4 = wname(bp, "", b, ".bn.bias");
            let ghost vs = seq![x0@, x1@, x2@, x3@, x4@];
            let mut bn_in = three(x0, x1, x2);
            let ghost b0 = bn_in@;
            bn_in.push(x3);
            bn_in.push(x4);
            proof {
                assert(names(b0) == seq![vs[0], vs[1], vs[2]]);
                assert(names(b0).len() == 3);
                assert(b0.len() == 3);
                assert(names(b0)[0] == b0[0]@);
                assert(names(b0)[1] == b0[1]@);
                assert(names(b0)[2] == b0[2]@);
                assert(bn_in@ == b0.push(bn_in@[3]).push(bn_in@[4]));
                assert(bn_in@[3]@ == vs[3]);
                assert(bn_in@[4]@ == vs[4]);
                assert(names(bn_in@) =~= vs);
            }
            emit(&mut g, Op::BatchNorm { eps: config.eps, momentum: tenth }, bn_in, one(wname(bp, "", b, ".bn_out")), NameMap::new());
            let ghost n1 = g.nodes@.last();
            emit(&mut g, Op::LeakyRelu { slope: tenth }, one(wname(bp, "", b, ".bn_out")), one(wname(bp, "", b, ".act_out")),
                NameMap::new());
            proof {
                let l0 = before.len() as int;
                assert(g.nodes@.drop_last()[l0 + 1] == n1);
                assert(g.nodes@[l0 + 1] == n1);
                assert(g.nodes@.drop_last().drop_last()[l0] == n0);
                assert(g.nodes@.drop_last()[l0] == n0);
                assert(g.nodes@[l0] == n0);
                assert forall|j: int| 0 <= j < before.len() implies #[trigger] g.nodes@[j] == before[j] by {
                    assert(g.nodes@.drop_last()[j] == g.nodes@[j]);
                    assert(g.nodes@.drop_last().drop_last()[j] == g.nodes@.drop_last()[j]);
                    assert(g.nodes@.drop_last().drop_last().drop_last()[j] == g.nodes@.drop_last().drop_last()[j]);
                }
                lemma_cnn_blocks_prefix(before, g.nodes@, bps, s as int, b as int, eps);
                assert(cnn_block_at(g.nodes@, bps, s as int, b as int, eps));
                assert forall|s2: int, b2: int| cnn_block_done(bps, s as int, b + 1, s2, b2) implies #[trigger] cnn_block_at(
                    g.nodes@,
                    bps,
                    s2,
                    b2,
                    eps,
                ) by {
                    if !(s2 == s && b2 == b) {
                        assert(cnn_block_done(bps, s as int, b as int, s2, b2));
                    }
                }
            }
            prev = wname(bp, "", b, ".act_out");
            b = b + 1;
        }
        proof {
            assert forall|s2: int, b2: int| cnn_block_done(bps, s + 1, 0, s2, b2) implies #[trigger] cnn_block_at(
                g.nodes@,
                bps,
                s2,
                b2,
                eps,
            ) by {
                assert(cnn_block_done(bps, s as int, b as int, s2, b2));
            }
        }
        stage_outputs.push(owned(prev.as_str()));
        s = s + 1;
    }
    let k: usize = if n_stages < 3 { n_stages } else { 3 };
    let start = n_stages - k;
    let ghost base = g.nodes@.len() as int;
    let mut l: usize = 0;
    while l < k
        invariant
            cnn_fits(config),
            k == fpn_levels(n_stages as nat),
            n_stages == config.backbone_channels@.len(),
            bps == config.blocks_per_stage@,
            eps == config.eps,
            1 <= k <= 3,
            start + k == n_stages,
            stage_outputs@.len() == n_stages,
            forall|i: int| 0 <= i < n_stages ==> (#[trigger] stage_outputs@[i])@ == cnn_out(bps, i),
            base == 3 * total,
            total == blocks_before(bps, n_stages as int),
            3 * total + 15 <= usize::MAX,
            l <= k,
            g.nodes@.len() == base + l,
            ids_ok(g.nodes@),
            all_in(g.nodes@, 0, g.nodes@.len() as int, bare()),
            forall|s2: int, b2: int| cnn_block_done(bps, n_stages as int, 0, s2, b2) ==> #[trigger] cnn_block_at(g.nodes@, bps, s2, b2, eps),
            cnn_laterals(g.nodes@, base, bps, start as int, l as int),
            g.tensors@.contains_key("image"@),
        decreases k - l,
    {
        let ghost before = g.nodes@;
        emit(&mut g, Op::Conv2d { kernel: (1, 1), stride: (1, 1), padding: (0, 0), groups: 1 },
            three(owned(stage_outputs[start + l].as_str()), indexed("fpn.lateral_", l, ".weight"), indexed("fpn.lateral_", l, ".bias")),
            one(indexed("fpn.lateral_", l, "")), NameMap::new());
        proof {
            assert forall|j: int| 0 <= j < before.len() implies #[trigger] g.nodes@[j] == before[j] by {
                assert(g.nodes@.drop_last()[j] == g.nodes@[j]);
            }
            lemma_cnn_neck_prefix(before, g.nodes@, bps, n_stages as int, eps, base, start as int, l as int, k as int, k as int);
            assert(cnn_lateral_is(g.nodes@[base + l], base + l, bps, start as int, l as int));
        }
        l = l + 1;
    }
    let mut prev_fpn = indexed("fpn.lateral_", k - 1, "");
    let mut i: usize = k - 1;
    while i > 0
        invariant
            cnn_fits(config),
            k == fpn_levels(n_stages as nat),
            n_stages == config.backbone_channels@.len(),
            bps == config.blocks_per_stage@,
            eps == config.eps,
            1 <= k <= 3,
            start + k == n_stages,
            base == 3 * total,
            total == blocks_before(bps, n_stages as int),
            3 * total + 15 <= usize::MAX,
            i < k,
            prev_fpn@ == fpn_level_name(i as nat, k as nat),
            g.nodes@.len() == base + k + 3 * (k - 1 - i),
            ids_ok(g.nodes@),
            all_in(g.nodes@, 0, g.nodes@.len() as int, bare()),
            forall|s2: int, b2: int| cnn_block_done(bps, n_stages as int, 0, s2, b2) ==> #[trigger] cnn_block_at(g.nodes@, bps, s2, b2, eps),
            cnn_laterals(g.nodes@, base, bps, start as int, k as int),
            cnn_merges(g.nodes@, base, i as int, k as int),
            g.tensors@.contains_key("image"@),
        decreases i,
    {
        let j = i - 1;
        let ghost before = g.nodes@;
        emit(&mut g, Op::Interpolate { mode: InterpolateMode::Nearest, scale: F32Bits(0x40000000) }, one(prev_fpn),
            one(indexed("fpn.upsample_", j, "")), NameMap::new());
        let ghost n0 = g.nodes@.last();
        emit(&mut g, Op::Add, two(indexed("fpn.lateral_", j, ""), indexed("fpn.upsample_", j, "")), one(indexed("fpn.merge_", j, "")),
            NameMap::new());
        let ghost n1 = g.nodes@.last();
        emit(&mut g, Op::Conv2d { kernel: (3, 3), stride: (1, 1), padding: (1, 1), groups: 1 },
            three(indexed("fpn.merge_", j, ""), indexed("fpn.smooth_", j, ".weight"), indexed("fpn.smooth_", j, ".bias")),
            one(indexed("fpn.smooth_", j, "")), NameMap::new());
        proof {
            let l0 = before.len() as int;
            assert(g.nodes@.drop_last()[l0 + 1] == n1);
            assert(g.nodes@[l0 + 1] == n1);
            assert(g.nodes@.drop_last().drop_last()[l0] == n0);
            assert(g.nodes@.drop_last()[l0] == n0);
            assert(g.nodes@[l0] == n0);
            assert forall|j2: int| 0 <= j2 < before.len() implies #[trigger] g.nodes@[j2] == before[j2] by {
                assert(g.nodes@.drop_last()[j2] == g.nodes@[j2]);
                assert(g.nodes@.drop_last().drop_last()[j2] == g.nodes@.drop_last()[j2]);
                assert(g.nodes@.drop_last().drop_last().drop_last()[j2] == g.nodes@.drop_last().drop_last()[j2]);
            }
            lemma_cnn_neck_prefix(before, g.nodes@, bps, n_stages as int, eps, base, start as int, k as int, i as int, k as int);
            assert(cnn_merge_at(g.nodes@, base, j as int, k as int));
            assert forall|j2: int| j <= j2 < k - 1 implies #[trigger] cnn_merge_at(g.nodes@, base, j2, k as int) by {
                if j2 > j {
                    assert(cnn_merge_at(g.nodes@, base, j2, k as int));
                }
            }
        }
        prev_fpn = indexed("fpn.smooth_", j, "");
        i = j;
    }
    let per_anchor = 4 + 1 + config.num_classes;
    let head_base = g.nodes.len();
    let mut h: usize = 0;
    while h < k
        invariant
            cnn_fits(config),
            per_anchor == 5 + config.num_classes,
            k == fpn_levels(n_stages as nat),
            n_stages == config.backbone_channels@.len(),
            1 <= k <= 3,
            start + k == n_stages,
            head_base == base + k + 3 * (k - 1),
            base == 3 * total,
            total == blocks_before(bps, n_stages as int),
            bps == config.blocks_per_stage@,
            eps == config.eps,
            3 * total + 15 <= usize::MAX,
            h <= k,
            g.nodes@.len() == head_base + h,
            ids_ok(g.nodes@),
            all_in(g.nodes@, 0, g.nodes@.len() as int, bare()),
            forall|s2: int, b2: int| cnn_block_done(bps, n_stages as int, 0, s2, b2) ==> #[trigger] cnn_block_at(g.nodes@, bps, s2, b2, eps),
            cnn_laterals(g.nodes@, base, bps, start as int, k as int),
            cnn_merges(g.nodes@, base, 0, k as int),
            forall|s2: int| 0 <= s2 < h ==> head_node(#[trigger] g.nodes@[head_base + s2], head_base + s2, s2 as nat, k as nat),
            g.tensors@.contains_key("image"@),
            forall|s2: int| 0 <= s2 < h ==> g.tensors@.contains_key(#[trigger] indexed_name("head.scale_"@, s2 as nat, ".conv_out"@)),
        decreases k - h,
    {
        let level = if h + 1 < k { indexed("fpn.smooth_", h, "") } else { indexed("fpn.lateral_", h, "") };
        let ghost before = g.nodes@;
        emit(&mut g, Op::Conv2d { kernel: (1, 1), stride: (1, 1), padding: (0, 0), groups: 1 },
            three(level, indexed("head.scale_", h, ".conv.weight"), indexed("head.scale_", h, ".conv.bias")),
            one(indexed("head.scale_", h, ".conv_out")), NameMap::new());
        g.add_tensor(indexed("head.scale_", h, ".conv_out"), TensorMeta {
            shape: vec![
                Dim::Fixed(config.num_anchors * per_anchor),
                Dim::Dynamic(indexed("h_", h, "")),
                Dim::Dynamic(indexed("w_", h, "")),
            ],
            dtype: DType::F32,
            residency: Residency::Streamed,
        });
        proof {
            assert forall|s2: int| 0 <= s2 < h + 1 implies head_node(#[trigger] g.nodes@[head_base + s2], head_base + s2, s2 as nat,
                k as nat) by {
                if s2 < h {
                    assert(g.nodes@[head_base + s2] == before[head_base + s2]);
                }
            }
            assert forall|j2: int| 0 <= j2 < before.len() implies #[trigger] g.nodes@[j2] == before[j2] by {
                assert(g.nodes@.drop_last()[j2] == g.nodes@[j2]);
            }
            lemma_cnn_neck_prefix(before, g.nodes@, bps, n_stages as int, eps, base, start as int, k as int, 0, k as int);
        }
        h = h + 1;
    }
    g
}

} // verus!
