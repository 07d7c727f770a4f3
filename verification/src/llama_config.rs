//! LlamaStyle configuration: the `[architecture]` section of a model's
//! `config.toml`, validated, with the per-layer attention parameters of
//! the LlamaStyle+ (Gemma 3/4) extensions.
//!
//! The TOML text is read into a [`ConfigDoc`] (the keys this reader looks
//! at, with their scalar values); the floating-point fields arrive already
//! resolved as IEEE-754 bits in [`ConfigFloats`].

use vstd::prelude::*;
use crate::namemap::NameMap;
use crate::ops::F32Bits;
use crate::text::{chars_start_with, owned, str_eq, to_chars};

verus! {

/// Per-layer attention kind. LlamaStyle has all `Sliding`; LlamaStyle+
/// (Gemma 3/4) interleaves `Sliding` and `Full`.
#[derive(Clone, Copy, Debug, PartialEq, Eq, Structural)]
pub enum LayerKind {
    Sliding,
    Full,
}

/// Activation function of the FFN gate.
#[derive(Clone, Copy, Debug, PartialEq, Eq, Structural)]
pub enum HiddenActivation {
    Silu,
    GeluTanh,
    GeluErf,
}

/// A scalar of the configuration file.
#[derive(Clone, Debug)]
pub enum TomlScalar {
    Int(i64),
    /// A float, by its IEEE-754 (`f64`) bits.
    Float(u64),
    Bool(bool),
    Str(String),
    /// A date, a nested array or a table.
    Other,
}

/// The value under a key of the configuration file.
#[derive(Clone, Debug)]
pub enum TomlItem {
    Scalar(TomlScalar),
    Array(Vec<TomlScalar>),
    Table,
}

/// The parts of `config.toml` the reader looks at.
pub struct ConfigDoc {
    /// The top-level keys.
    pub root: NameMap<TomlItem>,
    /// The keys of `[architecture]`: `None` when the key is absent, empty
    /// when it is present but not a table.
    pub architecture: Option<NameMap<TomlItem>>,
    /// The keys of `[tokenizer]` (empty when absent or not a table).
    pub tokenizer: NameMap<TomlItem>,
}

/// The floating-point fields, resolved from the file (IEEE-754 bits):
/// `rope_theta` (default 10000), `rms_norm_eps` (default 1e-6, an
/// inverse such as 1000000 taken as its reciprocal), and the optional
/// Gemma fields (`final_logit_softcapping` only when positive).
#[derive(Clone, Copy, Debug)]
pub struct ConfigFloats {
    pub rope_theta: F32Bits,
    pub rms_norm_eps: F32Bits,
    pub final_logit_softcapping: Option<F32Bits>,
    pub rope_theta_full: Option<F32Bits>,
    pub partial_rotary_factor_full: Option<F32Bits>,
}

/// The name and shape of a tensor of the model.
pub struct NamedShape {
    pub name: String,
    pub shape: Vec<usize>,
}

/// An architecture field the configuration must have.
#[derive(Clone, Copy, Debug, PartialEq, Eq, Structural)]
pub enum RequiredField {
    HiddenSize,
    NumAttentionHeads,
    NumHiddenLayers,
    IntermediateSize,
    VocabSize,
}

/// Why a configuration is refused.
#[derive(Clone, Copy, Debug, PartialEq, Eq, Structural)]
pub enum ConfigError {
    /// No `[architecture]` section.
    MissingArchitecture,
    /// A required field is absent or not an integer.
    Missing(RequiredField),
    /// `head_dim` must be positive and even.
    BadHeadDim(usize),
    /// `num_attention_heads` must be positive.
    NoHeads,
    /// Grouped-query attention needs the heads divisible by the KV heads.
    BadGqa { heads: usize, kv_heads: usize },
    /// `num_hidden_layers` must be positive.
    NoLayers,
    /// `vocab_size` must be positive.
    NoVocab,
    /// `rope_theta` must be positive.
    BadRopeTheta(F32Bits),
    /// `rms_norm_eps` must lie in (0, 1).
    BadEps(F32Bits),
    /// `layer_types` must have one entry per layer.
    LayerTypesLen { got: usize, want: usize },
}

/// A validated LlamaStyle configuration.
pub struct LlamaConfig {
    pub model_type: String,
    pub hidden_size: usize,
    pub num_attention_heads: usize,
    pub num_key_value_heads: usize,
    pub num_hidden_layers: usize,
    pub intermediate_size: usize,
    pub vocab_size: usize,
    pub max_position_embeddings: usize,
    /// RoPE base (IEEE-754 bits).
    pub rope_theta: F32Bits,
    /// RMS norm epsilon (IEEE-754 bits).
    pub rms_norm_eps: F32Bits,
    pub tie_word_embeddings: bool,
    pub head_dim: usize,
    /// Detected from tensor presence.
    pub has_qk_norm: bool,
    pub has_attn_bias: bool,
    pub eos_token_ids: Vec<u32>,
    /// One entry per layer.
    pub layer_types: Vec<LayerKind>,
    /// Window size for `Sliding` layers.
    pub sliding_window: Option<usize>,
    pub hidden_activation: HiddenActivation,
    /// Logit softcapping after the LM head (IEEE-754 bits).
    pub final_logit_softcapping: Option<F32Bits>,
    /// K and V projections share weights.
    pub attention_k_eq_v: bool,
    /// Head dimension of `Full` layers (`None`: the regular one).
    pub global_head_dim: Option<usize>,
    /// KV heads of `Full` layers (`None`: the regular count).
    pub num_global_key_value_heads: Option<usize>,
    /// RoPE base of `Full` layers (IEEE-754 bits; `None`: the regular one).
    pub rope_theta_full: Option<F32Bits>,
    /// Rotated fraction of the head of `Full` layers (IEEE-754 bits).
    pub partial_rotary_factor_full: Option<F32Bits>,
    /// Divisor for attention scaling (Gemma: 256 by default).
    pub query_pre_attn_scalar: Option<usize>,
}

// ---- Reading keys ----

/// The integer under `k`, if it is one.
pub open spec fn int_at(t: Map<Seq<char>, TomlItem>, k: Seq<char>) -> Option<i64> {
    if t.contains_key(k) {
        match t[k] {
            TomlItem::Scalar(TomlScalar::Int(i)) => Some(i),
            _ => None,
        }
    } else {
        None
    }
}

/// The integer under `k` as a `usize` (two's-complement conversion).
pub open spec fn usize_at(t: Map<Seq<char>, TomlItem>, k: Seq<char>) -> Option<usize> {
    match int_at(t, k) {
        Some(i) => Some(i as usize),
        None => None,
    }
}

/// The boolean under `k`, if it is one.
pub open spec fn bool_at(t: Map<Seq<char>, TomlItem>, k: Seq<char>) -> Option<bool> {
    if t.contains_key(k) {
        match t[k] {
            TomlItem::Scalar(TomlScalar::Bool(b)) => Some(b),
            _ => None,
        }
    } else {
        None
    }
}

/// The string under `k`, if it is one.
pub open spec fn str_at(t: Map<Seq<char>, TomlItem>, k: Seq<char>) -> Option<Seq<char>> {
    if t.contains_key(k) {
        match t[k] {
            TomlItem::Scalar(TomlScalar::Str(s)) => Some(s@),
            _ => None,
        }
    } else {
        None
    }
}

/// The array under `k`, if it is one.
pub open spec fn array_at(t: Map<Seq<char>, TomlItem>, k: Seq<char>) -> Option<Seq<TomlScalar>> {
    if t.contains_key(k) {
        match t[k] {
            TomlItem::Array(a) => Some(a@),
            _ => None,
        }
    } else {
        None
    }
}

fn get_int(t: &NameMap<TomlItem>, k: &str) -> (r: Option<i64>)
    ensures
        r == int_at(t@, k@),
{
    match t.get(k) {
        Some(TomlItem::Scalar(TomlScalar::Int(i))) => Some(*i),
        _ => None,
    }
}

fn get_usize(t: &NameMap<TomlItem>, k: &str) -> (r: Option<usize>)
    ensures
        r == usize_at(t@, k@),
{
    match get_int(t, k) {
        Some(i) => Some(i as usize),
        None => None,
    }
}

fn get_bool(t: &NameMap<TomlItem>, k: &str) -> (r: Option<bool>)
    ensures
        r == bool_at(t@, k@),
{
    match t.get(k) {
        Some(TomlItem::Scalar(TomlScalar::Bool(b))) => Some(*b),
        _ => None,
    }
}

fn get_str<'a>(t: &'a NameMap<TomlItem>, k: &str) -> (r: Option<&'a String>)
    ensures
        match r {
            Some(s) => str_at(t@, k@) == Some(s@),
            None => str_at(t@, k@) is None,
        },
{
    match t.get(k) {
        Some(TomlItem::Scalar(TomlScalar::Str(s))) => Some(s),
        _ => None,
    }
}

fn get_array<'a>(t: &'a NameMap<TomlItem>, k: &str) -> (r: Option<&'a Vec<TomlScalar>>)
    ensures
        match r {
            Some(a) => array_at(t@, k@) == Some(a@),
            None => array_at(t@, k@) is None,
        },
{
    match t.get(k) {
        Some(TomlItem::Array(a)) => Some(a),
        _ => None,
    }
}

// ---- Floating-point checks on IEEE-754 bits ----

/// `x <= 0.0` for the `f32` with bits `b`: a zero of either sign or a
/// negative number down to minus infinity (never NaN).
pub open spec fn f32_le_zero(b: u32) -> bool {
    b == 0 || (0x8000_0000 <= b && b <= 0xff80_0000)
}

/// `0.0 < x && x < 1.0` for the `f32` with bits `b`: positive finite
/// values order as their bits, and 1.0 has the bits `0x3f80_0000`.
pub open spec fn f32_in_unit_open(b: u32) -> bool {
    0 < b && b < 0x3f80_0000
}


// ---- The configuration as a function of the file ----

/// The position of the first tensor named `name` at or after `i`.
pub open spec fn find_from(ts: Seq<NamedShape>, name: Seq<char>, i: int) -> Option<int>
    decreases ts.len() - i,
{
    if i < 0 || i >= ts.len() {
        None
    } else if ts[i].name@ == name {
        Some(i)
    } else {
        find_from(ts, name, i + 1)
    }
}

/// The first tensor with the given name.
fn find_tensor(ts: &[NamedShape], name: &str) -> (r: Option<usize>)
    ensures
        match r {
            Some(i) => find_from(ts@, name@, 0) == Some(i as int) && i < ts@.len(),
            None => find_from(ts@, name@, 0) is None,
        },
{
    let mut i: usize = 0;
    while i < ts.len()
        invariant
            i <= ts@.len(),
            find_from(ts@, name@, 0) == find_from(ts@, name@, i as int),
        decreases ts@.len() - i,
    {
        if str_eq(ts[i].name.as_str(), name) {
            return Some(i);
        }
        i = i + 1;
    }
    None
}

/// The query projection of the first layer, whose rows give the head
/// dimension when the file does not.
pub open spec fn q_proj_name() -> Seq<char> {
    "model.layers.0.self_attn.q_proj.weight"@
}

/// The `[architecture]` keys.
pub open spec fn arch_of(doc: ConfigDoc) -> Map<Seq<char>, TomlItem> {
    doc.architecture->Some_0@
}

/// `model_type`, or `unknown`.
pub open spec fn spec_model_type(doc: ConfigDoc) -> Seq<char> {
    match str_at(doc.root@, "model_type"@) {
        Some(s) => s,
        None => "unknown"@,
    }
}

/// Whether the model type starts with `gemma`.
pub open spec fn is_gemma_family(t: Seq<char>) -> bool {
    5 <= t.len() && t.take(5) == "gemma"@
}

/// The head dimension: `head_dim` from the file, else the rows of the
/// first layer's query projection over the heads, else the hidden size
/// over the heads.
pub open spec fn spec_head_dim(a: Map<Seq<char>, TomlItem>, ts: Seq<NamedShape>, hidden: usize, heads: usize) -> usize {
    match usize_at(a, "head_dim"@) {
        Some(h) => h,
        None => match find_from(ts, q_proj_name(), 0) {
            Some(i) => (ts[i].shape@[0] / heads) as usize,
            None => (hidden / heads) as usize,
        },
    }
}

/// The integer entries of an array, as `u32` (two's-complement
/// truncation), in order.
pub open spec fn u32_entries(a: Seq<TomlScalar>) -> Seq<u32>
    decreases a.len(),
{
    if a.len() == 0 {
        Seq::empty()
    } else {
        let rest = u32_entries(a.drop_last());
        match a.last() {
            TomlScalar::Int(i) => rest.push(i as u32),
            _ => rest,
        }
    }
}

/// The kind of a layer named in `layer_types`.
pub open spec fn kind_of(s: Seq<char>) -> LayerKind {
    if s == "full_attention"@ || s == "full"@ {
        LayerKind::Full
    } else {
        LayerKind::Sliding
    }
}

/// The kinds named by the string entries of an array, in order.
pub open spec fn layer_kinds(a: Seq<TomlScalar>) -> Seq<LayerKind>
    decreases a.len(),
{
    if a.len() == 0 {
        Seq::empty()
    } else {
        let rest = layer_kinds(a.drop_last());
        match a.last() {
            TomlScalar::Str(s) => rest.push(kind_of(s@)),
            _ => rest,
        }
    }
}

/// `layer_types` from the file, or all `Sliding`.
pub open spec fn spec_layer_types(a: Map<Seq<char>, TomlItem>, layers: usize) -> Seq<LayerKind> {
    match array_at(a, "layer_types"@) {
        Some(arr) => layer_kinds(arr),
        None => Seq::new(layers as nat, |i: int| LayerKind::Sliding),
    }
}

/// The activation named by `hidden_activation`.
pub open spec fn activation_of(s: Seq<char>) -> HiddenActivation {
    if s == "gelu_pytorch_tanh"@ || s == "gelu_tanh"@ {
        HiddenActivation::GeluTanh
    } else if s == "gelu"@ || s == "gelu_erf"@ {
        HiddenActivation::GeluErf
    } else {
        HiddenActivation::Silu
    }
}

/// The error a configuration is refused with, checked in this order: the
/// `[architecture]` section, the required fields, the heads where no
/// `head_dim` is given (it is worked out by dividing by them), the head
/// dimension, the heads, grouped-query attention, the layers, the vocabulary, the RoPE
/// base, the norm epsilon and the length of `layer_types`.
pub open spec fn parse_error(doc: ConfigDoc, f: ConfigFloats, ts: Seq<NamedShape>) -> Option<ConfigError> {
    if doc.architecture is None {
        Some(ConfigError::MissingArchitecture)
    } else {
        let a = arch_of(doc);
        if usize_at(a, "hidden_size"@) is None {
            Some(ConfigError::Missing(RequiredField::HiddenSize))
        } else if usize_at(a, "num_attention_heads"@) is None {
            Some(ConfigError::Missing(RequiredField::NumAttentionHeads))
        } else if usize_at(a, "num_hidden_layers"@) is None {
            Some(ConfigError::Missing(RequiredField::NumHiddenLayers))
        } else if usize_at(a, "intermediate_size"@) is None {
            Some(ConfigError::Missing(RequiredField::IntermediateSize))
        } else if usize_at(a, "vocab_size"@) is None {
            Some(ConfigError::Missing(RequiredField::VocabSize))
        } else {
            let hidden = usize_at(a, "hidden_size"@)->Some_0;
            let heads = usize_at(a, "num_attention_heads"@)->Some_0;
            let kv = match usize_at(a, "num_key_value_heads"@) {
                Some(k) => k,
                None => heads,
            };
            let layers = usize_at(a, "num_hidden_layers"@)->Some_0;
            let vocab = usize_at(a, "vocab_size"@)->Some_0;
            let head_dim = spec_head_dim(a, ts, hidden, heads);
            if usize_at(a, "head_dim"@) is None && heads == 0 {
                Some(ConfigError::NoHeads)
            } else if head_dim == 0 || head_dim % 2 != 0 {
                Some(ConfigError::BadHeadDim(head_dim))
            } else if heads == 0 {
                Some(ConfigError::NoHeads)
            } else if kv == 0 || heads % kv != 0 {
                Some(ConfigError::BadGqa { heads, kv_heads: kv })
            } else if layers == 0 {
                Some(ConfigError::NoLayers)
            } else if vocab == 0 {
                Some(ConfigError::NoVocab)
            } else if f32_le_zero(f.rope_theta.0) {
                Some(ConfigError::BadRopeTheta(f.rope_theta))
            } else if !f32_in_unit_open(f.rms_norm_eps.0) {
                Some(ConfigError::BadEps(f.rms_norm_eps))
            } else if spec_layer_types(a, layers).len() != layers {
                Some(ConfigError::LayerTypesLen { got: spec_layer_types(a, layers).len() as usize, want: layers })
            } else {
                None
            }
        }
    }
}

/// The head dimension can be worked out without reading a shapeless
/// tensor: where the file gives the required fields and attention heads
/// but no `head_dim`, the first layer's query projection, if present, has
/// a shape.
pub open spec fn head_dim_defined(doc: ConfigDoc, ts: Seq<NamedShape>) -> bool {
    let a = arch_of(doc);
    doc.architecture is Some && usize_at(a, "hidden_size"@) is Some && usize_at(a, "num_attention_heads"@) is Some
        && usize_at(a, "num_hidden_layers"@) is Some && usize_at(a, "intermediate_size"@) is Some
        && usize_at(a, "vocab_size"@) is Some && usize_at(a, "head_dim"@) is None && usize_at(
        a,
        "num_attention_heads"@,
    )->Some_0 != 0 ==> (find_from(ts, q_proj_name(), 0) matches Some(i) ==> ts[i].shape@.len() >= 1)
}

/// The fields of an accepted configuration, read from the file, the
/// resolved floats and the tensors.
pub open spec fn config_matches(c: LlamaConfig, doc: ConfigDoc, f: ConfigFloats, ts: Seq<NamedShape>) -> bool {
    let a = arch_of(doc);
    let hidden = usize_at(a, "hidden_size"@)->Some_0;
    let heads = usize_at(a, "num_attention_heads"@)->Some_0;
    &&& c.model_type@ == spec_model_type(doc)
    &&& c.hidden_size == hidden
    &&& c.num_attention_heads == heads
    &&& c.num_key_value_heads == match usize_at(a, "num_key_value_heads"@) {
        Some(k) => k,
        None => heads,
    }
    &&& c.num_hidden_layers == usize_at(a, "num_hidden_layers"@)->Some_0
    &&& c.intermediate_size == usize_at(a, "intermediate_size"@)->Some_0
    &&& c.vocab_size == usize_at(a, "vocab_size"@)->Some_0
    &&& c.max_position_embeddings == match usize_at(a, "max_position_embeddings"@) {
        Some(m) => m,
        None => 2048,
    }
    &&& c.rope_theta == f.rope_theta
    &&& c.rms_norm_eps == f.rms_norm_eps
    &&& c.tie_word_embeddings == match bool_at(a, "tie_word_embeddings"@) {
        Some(b) => b,
        None => match bool_at(doc.root@, "tie_word_embeddings"@) {
            Some(b) => b,
            None => true,
        },
    }
    &&& c.head_dim == spec_head_dim(a, ts, hidden, heads)
    &&& c.has_qk_norm == find_from(ts, "model.layers.0.self_attn.q_norm.weight"@, 0) is Some
    &&& c.has_attn_bias == find_from(ts, "model.layers.0.self_attn.q_proj.bias"@, 0) is Some
    &&& c.eos_token_ids@ == match array_at(doc.tokenizer@, "eos_token_ids"@) {
        Some(arr) => u32_entries(arr),
        None => Seq::empty(),
    }
    &&& c.layer_types@ == spec_layer_types(a, c.num_hidden_layers)
    &&& c.sliding_window == usize_at(a, "sliding_window"@)
    &&& c.hidden_activation == match str_at(a, "hidden_activation"@) {
        Some(s) => activation_of(s),
        None => HiddenActivation::Silu,
    }
    &&& c.final_logit_softcapping == f.final_logit_softcapping
    &&& c.attention_k_eq_v == match bool_at(a, "attention_k_eq_v"@) {
        Some(b) => b,
        None => false,
    }
    &&& c.global_head_dim == usize_at(a, "global_head_dim"@)
    &&& c.num_global_key_value_heads == usize_at(a, "num_global_key_value_heads"@)
    &&& c.rope_theta_full == f.rope_theta_full
    &&& c.partial_rotary_factor_full == f.partial_rotary_factor_full
    &&& c.query_pre_attn_scalar == match usize_at(a, "query_pre_attn_scalar"@) {
        Some(q) => Some(q),
        None => if is_gemma_family(spec_model_type(doc)) {
            Some(256usize)
        } else {
            None
        },
    }
}

/// An accepted configuration has the head counts the file gives, and
/// without `num_key_value_heads` as many key/value heads as attention
/// heads (plain multi-head attention); its heads are a positive multiple
/// of its key/value heads, its head dimension positive and even, and its
/// layers and vocabulary non-empty.
pub proof fn lemma_accepted_heads(c: LlamaConfig, doc: ConfigDoc, f: ConfigFloats, ts: Seq<NamedShape>)
    requires
        parse_error(doc, f, ts) is None,
        config_matches(c, doc, f, ts),
    ensures
        doc.architecture is Some,
        usize_at(arch_of(doc), "num_attention_heads"@) == Some(c.num_attention_heads),
        usize_at(arch_of(doc), "num_key_value_heads"@) is None ==> c.num_key_value_heads == c.num_attention_heads,
        usize_at(arch_of(doc), "num_key_value_heads"@) matches Some(k) ==> c.num_key_value_heads == k,
        c.num_attention_heads > 0,
        c.num_key_value_heads > 0,
        c.num_attention_heads % c.num_key_value_heads == 0,
        c.head_dim > 0,
        c.head_dim % 2 == 0,
        c.num_hidden_layers > 0,
        c.vocab_size > 0,
{
}


// ---- Reading the configuration ----

/// The integer entries of an array as `u32`.
fn u32_entries_of(a: &Vec<TomlScalar>) -> (r: Vec<u32>)
    ensures
        r@ == u32_entries(a@),
{
    let mut r: Vec<u32> = Vec::new();
    let mut i: usize = 0;
    while i < a.len()
        invariant
            i <= a@.len(),
            r@ == u32_entries(a@.take(i as int)),
        decreases a@.len() - i,
    {
        proof {
            assert(a@.take(i + 1).drop_last() =~= a@.take(i as int));
        }
        match &a[i] {
            TomlScalar::Int(v) => {
                r.push(*v as u32);
            },
            _ => {},
        }
        i = i + 1;
    }
    proof {
        assert(a@.take(i as int) =~= a@);
    }
    r
}

/// The kind named by a string.
fn kind_named(s: &str) -> (k: LayerKind)
    ensures
        k == kind_of(s@),
{
    if str_eq(s, "full_attention") || str_eq(s, "full") {
        LayerKind::Full
    } else {
        LayerKind::Sliding
    }
}

/// The kinds named by the string entries of an array.
fn kinds_of(a: &Vec<TomlScalar>) -> (r: Vec<LayerKind>)
    ensures
        r@ == layer_kinds(a@),
{
    let mut r: Vec<LayerKind> = Vec::new();
    let mut i: usize = 0;
    while i < a.len()
        invariant
            i <= a@.len(),
            r@ == layer_kinds(a@.take(i as int)),
        decreases a@.len() - i,
    {
        proof {
            assert(a@.take(i + 1).drop_last() =~= a@.take(i as int));
        }
        match &a[i] {
            TomlScalar::Str(s) => {
                r.push(kind_named(s.as_str()));
            },
            _ => {},
        }
        i = i + 1;
    }
    proof {
        assert(a@.take(i as int) =~= a@);
    }
    r
}

/// `n` sliding layers.
fn all_sliding(n: usize) -> (r: Vec<LayerKind>)
    ensures
        r@ == Seq::new(n as nat, |i: int| LayerKind::Sliding),
{
    let mut r: Vec<LayerKind> = Vec::new();
    let mut i: usize = 0;
    while i < n
        invariant
            i <= n,
            r@ == Seq::new(i as nat, |j: int| LayerKind::Sliding),
        decreases n - i,
    {
        r.push(LayerKind::Sliding);
        i = i + 1;
        proof {
            assert(r@ =~= Seq::new(i as nat, |j: int| LayerKind::Sliding));
        }
    }
    r
}

/// The activation named by a string.
fn activation_named(s: &str) -> (a: HiddenActivation)
    ensures
        a == activation_of(s@),
{
    if str_eq(s, "gelu_pytorch_tanh") || str_eq(s, "gelu_tanh") {
        HiddenActivation::GeluTanh
    } else if str_eq(s, "gelu") || str_eq(s, "gelu_erf") {
        HiddenActivation::GeluErf
    } else {
        HiddenActivation::Silu
    }
}

/// Whether a model type starts with `gemma`.
fn gemma_family(t: &str) -> (r: bool)
    ensures
        r == is_gemma_family(t@),
{
    let cs = to_chars(t);
    let p = to_chars("gemma");
    proof {
        reveal_strlit("gemma");
    }
    chars_start_with(&cs, &p)
}

impl LlamaConfig {
    /// Read and validate a configuration: `model_type` (default
    /// `unknown`); the required integers `hidden_size`,
    /// `num_attention_heads`, `num_hidden_layers`, `intermediate_size` and
    /// `vocab_size` of `[architecture]`, with `num_key_value_heads`
    /// defaulting to the heads and `max_position_embeddings` to 2048;
    /// `tie_word_embeddings` from `[architecture]`, else the top level,
    /// else true; the head dimension (see [`spec_head_dim`]); checks that
    /// the head dimension is positive and even, the heads positive and a
    /// multiple of the KV heads, the layers and vocabulary positive, the
    /// RoPE base positive and the epsilon in (0, 1); the QK-norm and
    /// attention-bias variants from the tensor names; the EOS ids of
    /// `[tokenizer]`; and the LlamaStyle+ fields, `layer_types` needing
    /// one entry per layer and Gemma models defaulting
    /// `query_pre_attn_scalar` to 256.
    pub fn parse(doc: &ConfigDoc, floats: &ConfigFloats, tensors: &[NamedShape]) -> (r: Result<LlamaConfig, ConfigError>)
        requires
            head_dim_defined(*doc, tensors@),
        ensures
            match r {
                Ok(c) => parse_error(*doc, *floats, tensors@) is None && config_matches(c, *doc, *floats, tensors@),
                Err(e) => parse_error(*doc, *floats, tensors@) == Some(e),
            },
    {
        let model_type = match get_str(&doc.root, "model_type") {
            Some(s) => owned(s.as_str()),
            None => owned("unknown"),
        };
        let arch = match &doc.architecture {
            Some(a) => a,
            None => {
                return Err(ConfigError::MissingArchitecture);
            },
        };
        let hidden_size = match get_usize(arch, "hidden_size") {
            Some(v) => v,
            None => {
                return Err(ConfigError::Missing(RequiredField::HiddenSize));
            },
        };
        let num_attention_heads = match get_usize(arch, "num_attention_heads") {
            Some(v) => v,
            None => {
                return Err(ConfigError::Missing(RequiredField::NumAttentionHeads));
            },
        };
        let num_key_value_heads = match get_usize(arch, "num_key_value_heads") {
            Some(v) => v,
            None => num_attention_heads,
        };
        let num_hidden_layers = match get_usize(arch, "num_hidden_layers") {
            Some(v) => v,
            None => {
                return Err(ConfigError::Missing(RequiredField::NumHiddenLayers));
            },
        };
        let intermediate_size = match get_usize(arch, "intermediate_size") {
            Some(v) => v,
            None => {
                return Err(ConfigError::Missing(RequiredField::IntermediateSize));
            },
        };
        let vocab_size = match get_usize(arch, "vocab_size") {
            Some(v) => v,
            None => {
                return Err(ConfigError::Missing(RequiredField::VocabSize));
            },
        };
        let max_position_embeddings = match get_usize(arch, "max_position_embeddings") {
            Some(v) => v,
            None => 2048,
        };
        let tie_word_embeddings = match get_bool(arch, "tie_word_embeddings") {
            Some(b) => b,
            None => match get_bool(&doc.root, "tie_word_embeddings") {
                Some(b) => b,
                None => true,
            },
        };
        let head_dim = match get_usize(arch, "head_dim") {
            Some(h) => h,
            None => {
                if num_attention_heads == 0 {
                    return Err(ConfigError::NoHeads);
                }
                match find_tensor(tensors, "model.layers.0.self_attn.q_proj.weight") {
                    Some(i) => tensors[i].shape[0] / num_attention_heads,
                    None => hidden_size / num_attention_heads,
                }
            },
        };
        if head_dim == 0 || head_dim % 2 != 0 {
            return Err(ConfigError::BadHeadDim(head_dim));
        }
        if num_attention_heads == 0 {
            return Err(ConfigError::NoHeads);
        }
        if num_key_value_heads == 0 || num_attention_heads % num_key_value_heads != 0 {
            return Err(ConfigError::BadGqa { heads: num_attention_heads, kv_heads: num_key_value_heads });
        }
        if num_hidden_layers == 0 {
            return Err(ConfigError::NoLayers);
        }
        if vocab_size == 0 {
            return Err(ConfigError::NoVocab);
        }
        let theta = floats.rope_theta.0;
        if theta == 0 || (0x8000_0000 <= theta && theta <= 0xff80_0000) {
            return Err(ConfigError::BadRopeTheta(floats.rope_theta));
        }
        let eps = floats.rms_norm_eps.0;
        if !(0 < eps && eps < 0x3f80_0000) {
            return Err(ConfigError::BadEps(floats.rms_norm_eps));
        }
        let has_qk_norm = find_tensor(tensors, "model.layers.0.self_attn.q_norm.weight").is_some();
        let has_attn_bias = find_tensor(tensors, "model.layers.0.self_attn.q_proj.bias").is_some();
        let eos_token_ids = match get_array(&doc.tokenizer, "eos_token_ids") {
            Some(a) => u32_entries_of(a),
            None => Vec::new(),
        };
        let layer_types = match get_array(arch, "layer_types") {
            Some(a) => kinds_of(a),
            None => all_sliding(num_hidden_layers),
        };
        if layer_types.len() != num_hidden_layers {
            return Err(ConfigError::LayerTypesLen { got: layer_types.len(), want: num_hidden_layers });
        }
        let sliding_window = get_usize(arch, "sliding_window");
        let hidden_activation = match get_str(arch, "hidden_activation") {
            Some(s) => activation_named(s.as_str()),
            None => HiddenActivation::Silu,
        };
        let attention_k_eq_v = match get_bool(arch, "attention_k_eq_v") {
            Some(b) => b,
            None => false,
        };
        let global_head_dim = get_usize(arch, "global_head_dim");
        let num_global_key_value_heads = get_usize(arch, "num_global_key_value_heads");
        let query_pre_attn_scalar = match get_usize(arch, "query_pre_attn_scalar") {
            Some(q) => Some(q),
            None => if gemma_family(model_type.as_str()) {
                Some(256)
            } else {
                None
            },
        };
        Ok(LlamaConfig {
            model_type,
            hidden_size,
            num_attention_heads,
            num_key_value_heads,
            num_hidden_layers,
            intermediate_size,
            vocab_size,
            max_position_embeddings,
            rope_theta: floats.rope_theta,
            rms_norm_eps: floats.rms_norm_eps,
            tie_word_embeddings,
            head_dim,
            has_qk_norm,
            has_attn_bias,
            eos_token_ids,
            layer_types,
            sliding_window,
            hidden_activation,
            final_logit_softcapping: floats.final_logit_softcapping,
            attention_k_eq_v,
            global_head_dim,
            num_global_key_value_heads,
            rope_theta_full: floats.rope_theta_full,
            partial_rotary_factor_full: floats.partial_rotary_factor_full,
            query_pre_attn_scalar,
        })
    }
}


impl LlamaConfig {
    /// The kind of `layer`, if it has one.
    pub open spec fn kind_at(&self, layer: int) -> Option<LayerKind> {
        if 0 <= layer < self.layer_types@.len() {
            Some(self.layer_types@[layer])
        } else {
            None
        }
    }

    fn layer_kind(&self, layer: usize) -> (r: Option<LayerKind>)
        ensures
            r == self.kind_at(layer as int),
    {
        if layer < self.layer_types.len() {
            Some(self.layer_types[layer])
        } else {
            None
        }
    }

    /// Head dimension of `layer`: `global_head_dim` (if set) for `Full`
    /// layers, else `head_dim`.
    pub fn layer_head_dim(&self, layer: usize) -> (r: usize)
        ensures
            r == match self.kind_at(layer as int) {
                Some(LayerKind::Full) => match self.global_head_dim {
                    Some(g) => g,
                    None => self.head_dim,
                },
                _ => self.head_dim,
            },
    {
        match self.layer_kind(layer) {
            Some(LayerKind::Full) => match self.global_head_dim {
                Some(g) => g,
                None => self.head_dim,
            },
            _ => self.head_dim,
        }
    }

    /// KV heads of `layer`: `num_global_key_value_heads` (if set) for
    /// `Full` layers, else `num_key_value_heads`.
    pub fn layer_kv_heads(&self, layer: usize) -> (r: usize)
        ensures
            r == match self.kind_at(layer as int) {
                Some(LayerKind::Full) => match self.num_global_key_value_heads {
                    Some(g) => g,
                    None => self.num_key_value_heads,
                },
                _ => self.num_key_value_heads,
            },
    {
        match self.layer_kind(layer) {
            Some(LayerKind::Full) => match self.num_global_key_value_heads {
                Some(g) => g,
                None => self.num_key_value_heads,
            },
            _ => self.num_key_value_heads,
        }
    }

    /// The sliding-window size of `layer`: the window for `Sliding`
    /// layers, `None` (full attention) otherwise.
    pub fn layer_window(&self, layer: usize) -> (r: Option<usize>)
        ensures
            r == match self.kind_at(layer as int) {
                Some(LayerKind::Sliding) => self.sliding_window,
                _ => None,
            },
    {
        match self.layer_kind(layer) {
            Some(LayerKind::Sliding) => self.sliding_window,
            _ => None,
        }
    }

    /// RoPE base of `layer` (IEEE-754 bits): `rope_theta_full` (if set)
    /// for `Full` layers, else `rope_theta`.
    pub fn layer_rope_theta(&self, layer: usize) -> (r: F32Bits)
        ensures
            r == match self.kind_at(layer as int) {
                Some(LayerKind::Full) => match self.rope_theta_full {
                    Some(t) => t,
                    None => self.rope_theta,
                },
                _ => self.rope_theta,
            },
    {
        match self.layer_kind(layer) {
            Some(LayerKind::Full) => match self.rope_theta_full {
                Some(t) => t,
                None => self.rope_theta,
            },
            _ => self.rope_theta,
        }
    }
}


/// A configuration that `parse` accepts satisfies every check it makes:
/// a positive even head dimension, positive heads that the KV heads
/// divide, positive layers and vocabulary, a positive RoPE base, an
/// epsilon in (0, 1), and a kind for every layer.
pub proof fn lemma_accepted_config_is_valid(c: LlamaConfig, doc: ConfigDoc, f: ConfigFloats, ts: Seq<NamedShape>)
    requires
        parse_error(doc, f, ts) is None,
        config_matches(c, doc, f, ts),
    ensures
        c.head_dim > 0 && c.head_dim % 2 == 0,
        c.num_attention_heads > 0,
        c.num_key_value_heads > 0 && c.num_attention_heads % c.num_key_value_heads == 0,
        c.num_hidden_layers > 0,
        c.vocab_size > 0,
        !f32_le_zero(c.rope_theta.0),
        f32_in_unit_open(c.rms_norm_eps.0),
        c.layer_types@.len() == c.num_hidden_layers,
        forall|layer: int| 0 <= layer < c.num_hidden_layers ==> #[trigger] c.kind_at(layer) is Some,
{
}

} // verus!
