//! Executor-side helpers: weight quantization formats, node attribute
//! reading, and the choices made before a node is dispatched.

use vstd::prelude::*;
use crate::graph::{AttrValue, Node};
use crate::text::{owned, str_eq};

verus! {

/// Quantization format for GPU weight buffers.
#[derive(Clone, Copy, Debug, PartialEq, Eq, Structural)]
pub enum GpuQuantFormat {
    F32,
    F16,
    Q4,
    Q8,
    Ternary,
}

/// Quantization format understood by the kernel dispatch layer.
#[derive(Clone, Copy, Debug, PartialEq, Eq, Structural)]
pub enum QuantFormat {
    F32,
    F16,
    Q4,
    Q8,
    Ternary,
}

/// Convert a weight buffer format to the dispatch format of the same name.
pub fn gpu_quant_to_dispatch(q: GpuQuantFormat) -> (r: QuantFormat)
    ensures
        r == match q {
            GpuQuantFormat::F32 => QuantFormat::F32,
            GpuQuantFormat::F16 => QuantFormat::F16,
            GpuQuantFormat::Q4 => QuantFormat::Q4,
            GpuQuantFormat::Q8 => QuantFormat::Q8,
            GpuQuantFormat::Ternary => QuantFormat::Ternary,
        },
{
    match q {
        GpuQuantFormat::F32 => QuantFormat::F32,
        GpuQuantFormat::F16 => QuantFormat::F16,
        GpuQuantFormat::Q4 => QuantFormat::Q4,
        GpuQuantFormat::Q8 => QuantFormat::Q8,
        GpuQuantFormat::Ternary => QuantFormat::Ternary,
    }
}

/// The single-precision value with bit pattern `bits` converted to `u32` as
/// Rust's `as` does: truncation toward zero, saturating at 0 and
/// `u32::MAX`, NaN giving 0.
pub open spec fn f32_bits_as_u32(bits: u32) -> u32 {
    let sign = bits >> 31u32;
    let exp = (bits >> 23u32) & 0xffu32;
    let man = bits & 0x7fffffu32;
    if exp == 0xff && man != 0 {
        0
    } else if sign == 1 {
        0
    } else if exp < 127 {
        0
    } else if exp >= 159 {
        u32::MAX
    } else if exp <= 150 {
        (man | 0x800000u32) >> ((150 - exp) as u32)
    } else {
        (man | 0x800000u32) << ((exp - 150) as u32)
    }
}

/// Convert an `f32` bit pattern to `u32` like `as` does.
pub fn f32_bits_to_u32(bits: u32) -> (r: u32)
    ensures
        r == f32_bits_as_u32(bits),
{
    let sign = bits >> 31u32;
    let exp = (bits >> 23u32) & 0xffu32;
    let man = bits & 0x7fffffu32;
    assert(exp <= 0xff) by (bit_vector)
        requires
            exp == (bits >> 23u32) & 0xffu32,
    ;
    if exp == 0xff && man != 0 {
        0
    } else if sign == 1 {
        0
    } else if exp < 127 {
        0
    } else if exp >= 159 {
        u32::MAX
    } else if exp <= 150 {
        (man | 0x800000u32) >> (150 - exp)
    } else {
        (man | 0x800000u32) << (exp - 150)
    }
}

/// The `u32` reading of an attribute value: integers converted as by `as`,
/// floats as `f32_bits_as_u32`, other kinds none.
pub open spec fn attr_as_u32(v: AttrValue) -> Option<u32> {
    match v {
        AttrValue::Int(i) => Some(i as u32),
        AttrValue::Float(f) => Some(f32_bits_as_u32(f.0)),
        _ => None,
    }
}

/// Get a u32 attribute from a node.
pub fn attr_u32(node: &Node, key: &str) -> (r: Option<u32>)
    ensures
        node.attrs@.contains_key(key@) ==> r == attr_as_u32(node.attrs@[key@]),
        !node.attrs@.contains_key(key@) ==> r is None,
{
    match node.attrs.get(key) {
        Some(v) => match v {
            AttrValue::Int(i) => Some(*i as u32),
            AttrValue::Float(f) => Some(f32_bits_to_u32(f.0)),
            _ => None,
        },
        None => None,
    }
}

/// `k` is one of `names`.
pub open spec fn has_name(names: Seq<String>, k: Seq<char>) -> bool {
    exists|i: int| 0 <= i < names.len() && (#[trigger] names[i])@ == k
}

/// Whether `k` is one of `names`.
pub fn name_listed(names: &Vec<String>, k: &str) -> (r: bool)
    ensures
        r == has_name(names@, k@),
{
    let mut i: usize = 0;
    while i < names.len()
        invariant
            i <= names@.len(),
            forall|j: int| 0 <= j < i ==> (#[trigger] names@[j])@ != k@,
        decreases names@.len() - i,
    {
        if str_eq(names[i].as_str(), k) {
            return true;
        }
        i = i + 1;
    }
    false
}

/// Every input of the node is at hand, as a computed buffer or as a
/// weight.
pub open spec fn spec_inputs_available(inputs: Seq<String>, buffers: Seq<String>, weights: Seq<String>) -> bool {
    forall|i: int| 0 <= i < inputs.len() ==> has_name(buffers, (#[trigger] inputs[i])@) || has_name(weights, inputs[i]@)
}

/// Whether a node can be dispatched: each of its inputs is a computed
/// buffer or a weight. A node with an input missing (a decoder node when
/// only the encoder of a graph runs) is skipped.
pub fn inputs_available(node: &Node, buffers: &Vec<String>, weights: &Vec<String>) -> (r: bool)
    ensures
        r == spec_inputs_available(node.inputs@, buffers@, weights@),
{
    let mut i: usize = 0;
    while i < node.inputs.len()
        invariant
            i <= node.inputs@.len(),
            forall|j: int| 0 <= j < i ==> has_name(buffers@, (#[trigger] node.inputs@[j])@) || has_name(weights@, node.inputs@[j]@),
        decreases node.inputs@.len() - i,
    {
        let id = node.inputs[i].as_str();
        if !name_listed(buffers, id) && !name_listed(weights, id) {
            return false;
        }
        i = i + 1;
    }
    true
}

/// The embedding table of a single-input token embedding: the weight named
/// by the `embed_weight` attribute when there is one, else the first of the
/// usual names that is a weight.
pub open spec fn spec_embed_table(attrs: Map<Seq<char>, AttrValue>, weights: Seq<String>) -> Option<Seq<char>> {
    let named = if attrs.contains_key("embed_weight"@) {
        match attrs["embed_weight"@] {
            AttrValue::String(s) => if has_name(weights, s@) {
                Some(s@)
            } else {
                None
            },
            _ => None,
        }
    } else {
        None
    };
    if named is Some {
        named
    } else if has_name(weights, "model.embed_tokens.weight"@) {
        Some("model.embed_tokens.weight"@)
    } else if has_name(weights, "decoder.token_embedding.weight"@) {
        Some("decoder.token_embedding.weight"@)
    } else if has_name(weights, "embeddings.word_embeddings.weight"@) {
        Some("embeddings.word_embeddings.weight"@)
    } else if has_name(weights, "transformer.wte.weight"@) {
        Some("transformer.wte.weight"@)
    } else if has_name(weights, "embed_tokens.weight"@) {
        Some("embed_tokens.weight"@)
    } else if has_name(weights, "wte.weight"@) {
        Some("wte.weight"@)
    } else {
        None
    }
}

/// The weight that serves as the embedding table of a token-embedding
/// node with a single input (see `spec_embed_table`).
pub fn embed_table_name(node: &Node, weights: &Vec<String>) -> (r: Option<String>)
    ensures
        match r {
            Some(t) => spec_embed_table(node.attrs@, weights@) == Some(t@),
            None => spec_embed_table(node.attrs@, weights@) is None,
        },
{
    match node.attrs.get("embed_weight") {
        Some(AttrValue::String(s)) => {
            if name_listed(weights, s.as_str()) {
                return Some(owned(s.as_str()));
            }
        },
        _ => {},
    }
    if name_listed(weights, "model.embed_tokens.weight") {
        Some(owned("model.embed_tokens.weight"))
    } else if name_listed(weights, "decoder.token_embedding.weight") {
        Some(owned("decoder.token_embedding.weight"))
    } else if name_listed(weights, "embeddings.word_embeddings.weight") {
        Some(owned("embeddings.word_embeddings.weight"))
    } else if name_listed(weights, "transformer.wte.weight") {
        Some(owned("transformer.wte.weight"))
    } else if name_listed(weights, "embed_tokens.weight") {
        Some(owned("embed_tokens.weight"))
    } else if name_listed(weights, "wte.weight") {
        Some(owned("wte.weight"))
    } else {
        None
    }
}

} // verus!
