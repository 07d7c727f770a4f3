//! Conversion to GGUF: quantization targets, their storage sizes, the
//! metadata written for a model configuration and conversion statistics.

use vstd::prelude::*;
use crate::ops::F32Bits;
use crate::text::{append_str, concat_str, owned, str_eq};

verus! {

/// Elements per quantization block.
pub const Q_BLOCK_SIZE: usize = 32;
/// Bytes per Q4_0 block: an f16 scale and 32 nibbles.
pub const Q4_0_BLOCK_BYTES: usize = 18;
/// Bytes per Q8_0 block: an f16 scale and 32 bytes.
pub const Q8_0_BLOCK_BYTES: usize = 34;

/// Quantization target.
#[allow(non_camel_case_types)]
#[derive(Clone, Copy, Debug, PartialEq, Eq, Structural)]
pub enum QuantType {
    Q4_0,
    Q8_0,
    F16,
}

impl QuantType {
    /// The GGML tensor type id of the target.
    pub open spec fn spec_ggml_type(self) -> u32 {
        match self {
            QuantType::Q4_0 => 2,
            QuantType::Q8_0 => 8,
            QuantType::F16 => 1,
        }
    }

    /// Bytes taken by `n` elements: whole 32-element blocks for the block
    /// formats, two bytes each for f16.
    pub open spec fn spec_bytes_for(self, n: nat) -> nat {
        match self {
            QuantType::Q4_0 => ((n + 31) / 32) * 18,
            QuantType::Q8_0 => ((n + 31) / 32) * 34,
            QuantType::F16 => n * 2,
        }
    }

    /// GGML tensor type id (Q4_0 = 2, Q8_0 = 8, F16 = 1).
    pub fn ggml_type(&self) -> (r: u32)
        ensures
            r == self.spec_ggml_type(),
    {
        match self {
            QuantType::Q4_0 => 2,
            QuantType::Q8_0 => 8,
            QuantType::F16 => 1,
        }
    }

    /// Bytes needed for `n` elements.
    pub fn bytes_for(&self, n: usize) -> (r: usize)
        requires
            n + 32 <= usize::MAX,
            self.spec_bytes_for(n as nat) <= usize::MAX,
        ensures
            r == self.spec_bytes_for(n as nat),
    {
        match self {
            QuantType::Q4_0 => {
                let blocks = (n + Q_BLOCK_SIZE - 1) / Q_BLOCK_SIZE;
                blocks * Q4_0_BLOCK_BYTES
            },
            QuantType::Q8_0 => {
                let blocks = (n + Q_BLOCK_SIZE - 1) / Q_BLOCK_SIZE;
                blocks * Q8_0_BLOCK_BYTES
            },
            QuantType::F16 => n * 2,
        }
    }
}

/// Conversion statistics.
#[derive(Clone, Copy, Debug)]
pub struct ConvertStats {
    pub n_tensors: usize,
    pub quantized_q4: usize,
    pub quantized_q8: usize,
    pub kept_f32: usize,
    pub kept_f16: usize,
    pub input_bytes: u64,
    pub output_bytes: u64,
}

/// How the converter stores a tensor.
#[derive(Clone, Copy, Debug, PartialEq, Eq, Structural)]
pub enum TensorPlan {
    /// Kept as F32 (small tensors, and 1-D ones when asked).
    KeepF32,
    /// Stored in the target type.
    Convert(QuantType),
}

/// The product of the dimensions.
pub open spec fn shape_elements(s: Seq<u64>) -> nat
    decreases s.len(),
{
    if s.len() == 0 {
        1
    } else {
        shape_elements(s.drop_last()) * (s.last() as nat)
    }
}

/// Every running product of the dimensions fits in `u64`.
pub open spec fn shape_fits(s: Seq<u64>) -> bool {
    forall|t: int| 0 <= t <= s.len() ==> #[trigger] shape_elements(s.take(t)) <= u64::MAX
}

/// The plan for a tensor: F32 for tensors of fewer than 32 elements and,
/// with `skip_1d`, for tensors of at most one dimension; else the target.
pub open spec fn spec_plan(shape: Seq<u64>, skip_1d: bool, quant: QuantType) -> TensorPlan {
    if (shape.len() <= 1 && skip_1d) || shape_elements(shape) < 32 {
        TensorPlan::KeepF32
    } else {
        TensorPlan::Convert(quant)
    }
}

/// The plan keeps a tensor in F32 exactly when it has fewer than 32
/// elements, or when 1-D tensors are skipped and it has at most one
/// dimension, whatever its element count; every other tensor is stored in
/// the target type, and no tensor in any other type.
pub proof fn lemma_plan_rules(shape: Seq<u64>, skip_1d: bool, quant: QuantType)
    ensures
        skip_1d && shape.len() <= 1 ==> spec_plan(shape, skip_1d, quant) == TensorPlan::KeepF32,
        shape_elements(shape) < 32 ==> spec_plan(shape, skip_1d, quant) == TensorPlan::KeepF32,
        shape.len() >= 2 && shape_elements(shape) >= 32 ==> spec_plan(shape, skip_1d, quant) == TensorPlan::Convert(
            quant,
        ),
        !skip_1d && shape_elements(shape) >= 32 ==> spec_plan(shape, skip_1d, quant) == TensorPlan::Convert(quant),
        spec_plan(shape, skip_1d, quant) == TensorPlan::KeepF32 || spec_plan(shape, skip_1d, quant)
            == TensorPlan::Convert(quant),
{
}

/// Decide how to store a tensor of the given shape.
pub fn plan_tensor(shape: &Vec<u64>, skip_1d: bool, quant: QuantType) -> (r: TensorPlan)
    requires
        shape_fits(shape@),
    ensures
        r == spec_plan(shape@, skip_1d, quant),
{
    let mut n: u64 = 1;
    let mut i: usize = 0;
    while i < shape.len()
        invariant
            shape_fits(shape@),
            i <= shape@.len(),
            n == shape_elements(shape@.take(i as int)),
        decreases shape@.len() - i,
    {
        proof {
            assert(shape@.take(i + 1).drop_last() =~= shape@.take(i as int));
            assert(shape_elements(shape@.take(i + 1)) <= u64::MAX);
        }
        n = n * shape[i];
        i = i + 1;
    }
    proof {
        assert(shape@.take(i as int) =~= shape@);
    }
    if (shape.len() <= 1 && skip_1d) || n < 32 {
        TensorPlan::KeepF32
    } else {
        TensorPlan::Convert(quant)
    }
}

impl ConvertStats {
    /// Count one converted tensor: its plan, and its bytes before and
    /// after.
    pub fn record(&mut self, plan: TensorPlan, input_bytes: u64, output_bytes: u64)
        requires
            old(self).kept_f32 < usize::MAX,
            old(self).quantized_q4 < usize::MAX,
            old(self).quantized_q8 < usize::MAX,
            old(self).kept_f16 < usize::MAX,
            old(self).input_bytes + input_bytes <= u64::MAX,
            old(self).output_bytes + output_bytes <= u64::MAX,
        ensures
            final(self).n_tensors == old(self).n_tensors,
            final(self).kept_f32 == old(self).kept_f32 + if plan == TensorPlan::KeepF32 { 1int } else { 0int },
            final(self).quantized_q4 == old(self).quantized_q4 + if plan == TensorPlan::Convert(QuantType::Q4_0) {
                1int
            } else {
                0int
            },
            final(self).quantized_q8 == old(self).quantized_q8 + if plan == TensorPlan::Convert(QuantType::Q8_0) {
                1int
            } else {
                0int
            },
            final(self).kept_f16 == old(self).kept_f16 + if plan == TensorPlan::Convert(QuantType::F16) {
                1int
            } else {
                0int
            },
            final(self).input_bytes == old(self).input_bytes + input_bytes,
            final(self).output_bytes == old(self).output_bytes + output_bytes,
    {
        match plan {
            TensorPlan::KeepF32 => self.kept_f32 = self.kept_f32 + 1,
            TensorPlan::Convert(QuantType::Q4_0) => self.quantized_q4 = self.quantized_q4 + 1,
            TensorPlan::Convert(QuantType::Q8_0) => self.quantized_q8 = self.quantized_q8 + 1,
            TensorPlan::Convert(QuantType::F16) => self.kept_f16 = self.kept_f16 + 1,
        }
        self.input_bytes = self.input_bytes + input_bytes;
        self.output_bytes = self.output_bytes + output_bytes;
    }
}

/// A GGUF metadata value written by the converter.
#[derive(Debug)]
pub enum MetaValue {
    String(String),
    U32(u32),
    U64(u64),
    I32(i32),
    F32(F32Bits),
}

/// The fields of a HuggingFace `config.json` that the converter reads.
pub struct HfConfig {
    pub model_type: Option<String>,
    pub name_or_path: Option<String>,
    pub vocab_size: Option<u64>,
    pub hidden_size: Option<u64>,
    pub num_hidden_layers: Option<u64>,
    pub num_attention_heads: Option<u64>,
    pub num_key_value_heads: Option<u64>,
    pub intermediate_size: Option<u64>,
    pub max_position_embeddings: Option<u64>,
    /// `rms_norm_eps`, narrowed to single precision.
    pub rms_norm_eps: Option<F32Bits>,
    /// `rope_theta`, narrowed to single precision.
    pub rope_theta: Option<F32Bits>,
}

/// The GGUF architecture name of a HuggingFace model type.
pub open spec fn spec_gguf_arch(t: Seq<char>) -> Seq<char> {
    if t == "qwen2"@ || t == "qwen3"@ || t == "qwen2_vl"@ {
        "qwen2"@
    } else if t == "llama"@ || t == "mistral"@ || t == "deepseek_v2"@ || t == "deepseek_v3"@ {
        "llama"@
    } else if t == "phi3"@ {
        "phi3"@
    } else if t == "gemma"@ || t == "gemma2"@ {
        "gemma"@
    } else if t == "gpt2"@ {
        "gpt2"@
    } else if t == "starcoder2"@ {
        "starcoder2"@
    } else {
        t
    }
}

/// Map a HuggingFace model type to its GGUF architecture name.
pub fn gguf_arch(t: &str) -> (r: String)
    ensures
        r@ == spec_gguf_arch(t@),
{
    let name: &str = if str_eq(t, "qwen2") || str_eq(t, "qwen3") || str_eq(t, "qwen2_vl") {
        "qwen2"
    } else if str_eq(t, "llama") || str_eq(t, "mistral") || str_eq(t, "deepseek_v2") || str_eq(t, "deepseek_v3") {
        "llama"
    } else if str_eq(t, "phi3") {
        "phi3"
    } else if str_eq(t, "gemma") || str_eq(t, "gemma2") {
        "gemma"
    } else if str_eq(t, "gpt2") {
        "gpt2"
    } else if str_eq(t, "starcoder2") {
        "starcoder2"
    } else {
        t
    };
    owned(name)
}

/// A metadata entry as the converter describes it: key text and value.
pub enum MetaSpec {
    Text(Seq<char>),
    Count(u64),
    Real(F32Bits),
}

/// `v` holds what `m` describes.
pub open spec fn meta_matches(v: MetaValue, m: MetaSpec) -> bool {
    match m {
        MetaSpec::Text(t) => v matches MetaValue::String(s) && s@ == t,
        MetaSpec::Count(n) => v == MetaValue::U64(n),
        MetaSpec::Real(f) => v == MetaValue::F32(f),
    }
}

/// Append `(prefix + suffix, v)` to `s` when `v` is present.
pub open spec fn push_count(s: Seq<(Seq<char>, MetaSpec)>, prefix: Seq<char>, suffix: Seq<char>, v: Option<u64>) -> Seq<(Seq<char>, MetaSpec)> {
    match v {
        Some(n) => s.push((prefix + suffix, MetaSpec::Count(n))),
        None => s,
    }
}

/// Append `(prefix + suffix, v)` to `s` when `v` is present.
pub open spec fn push_real(s: Seq<(Seq<char>, MetaSpec)>, prefix: Seq<char>, suffix: Seq<char>, v: Option<F32Bits>) -> Seq<(Seq<char>, MetaSpec)> {
    match v {
        Some(f) => s.push((prefix + suffix, MetaSpec::Real(f))),
        None => s,
    }
}

/// The metadata written for a configuration, in order: the architecture
/// (model type mapped to its GGUF name, "llama" when absent), the model
/// name when present, then each present size or constant under
/// "<arch>.<key>".
pub open spec fn spec_metadata(c: HfConfig) -> Seq<(Seq<char>, MetaSpec)> {
    let arch = spec_gguf_arch(
        match c.model_type {
            Some(t) => t@,
            None => "llama"@,
        },
    );
    let p = arch + "."@;
    let s0 = seq![("general.architecture"@, MetaSpec::Text(arch))];
    let s1 = match c.name_or_path {
        Some(n) => s0.push(("general.name"@, MetaSpec::Text(n@))),
        None => s0,
    };
    let s2 = push_count(s1, p, "vocab_size"@, c.vocab_size);
    let s3 = push_count(s2, p, "embedding_length"@, c.hidden_size);
    let s4 = push_count(s3, p, "block_count"@, c.num_hidden_layers);
    let s5 = push_count(s4, p, "attention.head_count"@, c.num_attention_heads);
    let s6 = push_count(s5, p, "attention.head_count_kv"@, c.num_key_value_heads);
    let s7 = push_count(s6, p, "feed_forward_length"@, c.intermediate_size);
    let s8 = push_count(s7, p, "context_length"@, c.max_position_embeddings);
    let s9 = push_real(s8, p, "attention.layer_norm_rms_epsilon"@, c.rms_norm_eps);
    push_real(s9, p, "rope.freq_base"@, c.rope_theta)
}

/// `kv` holds the entries `expected` describes, in order.
pub open spec fn metadata_matches(kv: Seq<(String, MetaValue)>, expected: Seq<(Seq<char>, MetaSpec)>) -> bool {
    &&& kv.len() == expected.len()
    &&& forall|i: int| 0 <= i < kv.len() ==> (#[trigger] kv[i]).0@ == expected[i].0 && meta_matches(kv[i].1, expected[i].1)
}

fn push_count_exec(kv: &mut Vec<(String, MetaValue)>, prefix: &str, suffix: &str, v: Option<u64>)
    ensures
        final(kv)@.len() == (match v {
            Some(_) => old(kv)@.len() + 1,
            None => old(kv)@.len(),
        }),
        forall|i: int| 0 <= i < old(kv)@.len() ==> #[trigger] final(kv)@[i] == old(kv)@[i],
        v matches Some(n) ==> final(kv)@.last().0@ == prefix@ + suffix@ && final(kv)@.last().1 == MetaValue::U64(n),
{
    match v {
        Some(n) => {
            kv.push((concat_str(prefix, suffix), MetaValue::U64(n)));
        },
        None => {},
    }
}

fn push_real_exec(kv: &mut Vec<(String, MetaValue)>, prefix: &str, suffix: &str, v: Option<F32Bits>)
    ensures
        final(kv)@.len() == (match v {
            Some(_) => old(kv)@.len() + 1,
            None => old(kv)@.len(),
        }),
        forall|i: int| 0 <= i < old(kv)@.len() ==> #[trigger] final(kv)@[i] == old(kv)@[i],
        v matches Some(f) ==> final(kv)@.last().0@ == prefix@ + suffix@ && final(kv)@.last().1 == MetaValue::F32(f),
{
    match v {
        Some(f) => {
            kv.push((concat_str(prefix, suffix), MetaValue::F32(f)));
        },
        None => {},
    }
}

proof fn lemma_push_count(kv: Seq<(String, MetaValue)>, kv2: Seq<(String, MetaValue)>, e: Seq<(Seq<char>, MetaSpec)>, p: Seq<char>, suffix: Seq<char>, v: Option<u64>)
    requires
        metadata_matches(kv, e),
        kv2.len() == (match v {
            Some(_) => kv.len() + 1,
            None => kv.len(),
        }),
        forall|i: int| 0 <= i < kv.len() ==> #[trigger] kv2[i] == kv[i],
        v matches Some(n) ==> kv2.last().0@ == p + suffix && kv2.last().1 == MetaValue::U64(n),
    ensures
        metadata_matches(kv2, push_count(e, p, suffix, v)),
{
    let e2 = push_count(e, p, suffix, v);
    assert forall|i: int| 0 <= i < kv2.len() implies (#[trigger] kv2[i]).0@ == e2[i].0 && meta_matches(kv2[i].1, e2[i].1) by {
        if i < kv.len() {
            assert(kv2[i] == kv[i]);
        }
    }
}

proof fn lemma_push_real(kv: Seq<(String, MetaValue)>, kv2: Seq<(String, MetaValue)>, e: Seq<(Seq<char>, MetaSpec)>, p: Seq<char>, suffix: Seq<char>, v: Option<F32Bits>)
    requires
        metadata_matches(kv, e),
        kv2.len() == (match v {
            Some(_) => kv.len() + 1,
            None => kv.len(),
        }),
        forall|i: int| 0 <= i < kv.len() ==> #[trigger] kv2[i] == kv[i],
        v matches Some(f) ==> kv2.last().0@ == p + suffix && kv2.last().1 == MetaValue::F32(f),
    ensures
        metadata_matches(kv2, push_real(e, p, suffix, v)),
{
    let e2 = push_real(e, p, suffix, v);
    assert forall|i: int| 0 <= i < kv2.len() implies (#[trigger] kv2[i]).0@ == e2[i].0 && meta_matches(kv2[i].1, e2[i].1) by {
        if i < kv.len() {
            assert(kv2[i] == kv[i]);
        }
    }
}

/// GGUF metadata for a model configuration.
pub fn build_metadata(config: &HfConfig) -> (kv: Vec<(String, MetaValue)>)
    ensures
        metadata_matches(kv@, spec_metadata(*config)),
{
    let t: &str = match &config.model_type {
        Some(t) => t.as_str(),
        None => "llama",
    };
    let arch = gguf_arch(t);
    let mut kv: Vec<(String, MetaValue)> = Vec::new();
    let ghost arch_v = arch@;
    kv.push((owned("general.architecture"), MetaValue::String(owned(arch.as_str()))));
    let ghost e0 = seq![("general.architecture"@, MetaSpec::Text(arch_v))];
    proof {
        assert(metadata_matches(kv@, e0));
    }
    let ghost e1 = match &config.name_or_path {
        Some(n) => e0.push(("general.name"@, MetaSpec::Text(n@))),
        None => e0,
    };
    match &config.name_or_path {
        Some(n) => {
            let ghost kv0 = kv@;
            kv.push((owned("general.name"), MetaValue::String(owned(n.as_str()))));
            proof {
                assert forall|i: int| 0 <= i < kv@.len() implies (#[trigger] kv@[i]).0@ == e1[i].0 && meta_matches(kv@[i].1, e1[i].1) by {
                    if i < kv0.len() {
                        assert(kv@[i] == kv0[i]);
                    }
                }
            }
        },
        None => {},
    }
    let mut prefix = owned(arch.as_str());
    append_str(&mut prefix, ".");
    let ghost p = prefix@;
    let p_str = prefix.as_str();
    let ghost k1 = kv@;
    push_count_exec(&mut kv, p_str, "vocab_size", config.vocab_size);
    proof { lemma_push_count(k1, kv@, e1, p, "vocab_size"@, config.vocab_size); }
    let ghost e2 = push_count(e1, p, "vocab_size"@, config.vocab_size);
    let ghost k2 = kv@;
    push_count_exec(&mut kv, p_str, "embedding_length", config.hidden_size);
    proof { lemma_push_count(k2, kv@, e2, p, "embedding_length"@, config.hidden_size); }
    let ghost e3 = push_count(e2, p, "embedding_length"@, config.hidden_size);
    let ghost k3 = kv@;
    push_count_exec(&mut kv, p_str, "block_count", config.num_hidden_layers);
    proof { lemma_push_count(k3, kv@, e3, p, "block_count"@, config.num_hidden_layers); }
    let ghost e4 = push_count(e3, p, "block_count"@, config.num_hidden_layers);
    let ghost k4 = kv@;
    push_count_exec(&mut kv, p_str, "attention.head_count", config.num_attention_heads);
    proof { lemma_push_count(k4, kv@, e4, p, "attention.head_count"@, config.num_attention_heads); }
    let ghost e5 = push_count(e4, p, "attention.head_count"@, config.num_attention_heads);
    let ghost k5 = kv@;
    push_count_exec(&mut kv, p_str, "attention.head_count_kv", config.num_key_value_heads);
    proof { lemma_push_count(k5, kv@, e5, p, "attention.head_count_kv"@, config.num_key_value_heads); }
    let ghost e6 = push_count(e5, p, "attention.head_count_kv"@, config.num_key_value_heads);
    let ghost k6 = kv@;
    push_count_exec(&mut kv, p_str, "feed_forward_length", config.intermediate_size);
    proof { lemma_push_count(k6, kv@, e6, p, "feed_forward_length"@, config.intermediate_size); }
    let ghost e7 = push_count(e6, p, "feed_forward_length"@, config.intermediate_size);
    let ghost k7 = kv@;
    push_count_exec(&mut kv, p_str, "context_length", config.max_position_embeddings);
    proof { lemma_push_count(k7, kv@, e7, p, "context_length"@, config.max_position_embeddings); }
    let ghost e8 = push_count(e7, p, "context_length"@, config.max_position_embeddings);
    let ghost k8 = kv@;
    push_real_exec(&mut kv, p_str, "attention.layer_norm_rms_epsilon", config.rms_norm_eps);
    proof { lemma_push_real(k8, kv@, e8, p, "attention.layer_norm_rms_epsilon"@, config.rms_norm_eps); }
    let ghost e9 = push_real(e8, p, "attention.layer_norm_rms_epsilon"@, config.rms_norm_eps);
    let ghost k9 = kv@;
    push_real_exec(&mut kv, p_str, "rope.freq_base", config.rope_theta);
    proof { lemma_push_real(k9, kv@, e9, p, "rope.freq_base"@, config.rope_theta); }
    kv
}

} // verus!
