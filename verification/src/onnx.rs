//! ONNX graph vocabulary: element types, operator mapping, attribute lookup
//! and packed-weight helpers.

use vstd::prelude::*;
use crate::dtype::DType;
use crate::ops::{F32Bits, Op};
use crate::text::str_eq;

verus! {

/// An attribute of an ONNX node, with the fields the mapping reads.
pub struct OnnxAttribute {
    pub name: String,
    /// Float value (IEEE-754 bits).
    pub f: F32Bits,
    /// Integer value.
    pub i: i64,
    /// Integer list value.
    pub ints: Vec<i64>,
}

/// An ONNX node: its operator type and attributes.
pub struct OnnxNode {
    pub op_type: String,
    pub attribute: Vec<OnnxAttribute>,
}

/// ONNX data type code to element type (unknown codes read as F32).
pub open spec fn spec_onnx_dtype(data_type: i32) -> DType {
    if data_type == 1 {
        DType::F32
    } else if data_type == 10 {
        DType::F16
    } else if data_type == 16 {
        DType::BF16
    } else if data_type == 2 || data_type == 3 {
        DType::Q8
    } else {
        DType::F32
    }
}

/// Convert an ONNX data type code to an element type.
pub fn onnx_dtype_to_ir(data_type: i32) -> (r: DType)
    ensures
        r == spec_onnx_dtype(data_type),
{
    match data_type {
        1 => DType::F32,
        10 => DType::F16,
        16 => DType::BF16,
        2 => DType::Q8,
        3 => DType::Q8,
        _ => DType::F32,
    }
}

/// Attribute `k` is the first one named `name`.
pub open spec fn is_first_attr(attrs: Seq<OnnxAttribute>, name: Seq<char>, k: int) -> bool {
    &&& 0 <= k < attrs.len()
    &&& attrs[k].name@ == name
    &&& forall|j: int| 0 <= j < k ==> (#[trigger] attrs[j]).name@ != name
}

/// Index of the first attribute named `name`.
pub open spec fn first_attr(attrs: Seq<OnnxAttribute>, name: Seq<char>) -> Option<int> {
    if exists|k: int| is_first_attr(attrs, name, k) {
        Some(choose|k: int| is_first_attr(attrs, name, k))
    } else {
        None
    }
}

proof fn lemma_first_attr(attrs: Seq<OnnxAttribute>, name: Seq<char>, k: int)
    requires
        is_first_attr(attrs, name, k),
    ensures
        first_attr(attrs, name) == Some(k),
{
    let c = choose|k: int| is_first_attr(attrs, name, k);
    if c < k {
        assert(attrs[c].name@ != name);
    } else if c > k {
        assert(attrs[k].name@ != name);
    }
}

/// Position of the first attribute named `name`.
fn find_attr(node: &OnnxNode, name: &str) -> (r: Option<usize>)
    ensures
        match r {
            Some(k) => k < node.attribute@.len() && first_attr(node.attribute@, name@) == Some(k as int),
            None => first_attr(node.attribute@, name@) is None,
        },
{
    let mut k: usize = 0;
    while k < node.attribute.len()
        invariant
            k <= node.attribute@.len(),
            forall|j: int| 0 <= j < k ==> (#[trigger] node.attribute@[j]).name@ != name@,
        decreases node.attribute@.len() - k,
    {
        if str_eq(node.attribute[k].name.as_str(), name) {
            proof {
                lemma_first_attr(node.attribute@, name@, k as int);
            }
            return Some(k);
        }
        k = k + 1;
    }
    None
}

/// Float attribute of an ONNX node (first attribute with that name).
pub fn get_attr_f(node: &OnnxNode, name: &str) -> (r: Option<F32Bits>)
    ensures
        r == (match first_attr(node.attribute@, name@) {
            Some(k) => Some(node.attribute@[k].f),
            None => None,
        }),
{
    match find_attr(node, name) {
        Some(k) => Some(node.attribute[k].f),
        None => None,
    }
}

/// Integer attribute of an ONNX node (first attribute with that name).
pub fn get_attr_i(node: &OnnxNode, name: &str) -> (r: Option<i64>)
    ensures
        r == (match first_attr(node.attribute@, name@) {
            Some(k) => Some(node.attribute@[k].i),
            None => None,
        }),
{
    match find_attr(node, name) {
        Some(k) => Some(node.attribute[k].i),
        None => None,
    }
}

/// Integer-list attribute of an ONNX node (first attribute with that name).
pub fn get_attr_ints(node: &OnnxNode, name: &str) -> (r: Option<Vec<i64>>)
    ensures
        match first_attr(node.attribute@, name@) {
            Some(k) => r matches Some(v) && v@ == node.attribute@[k].ints@,
            None => r is None,
        },
{
    match find_attr(node, name) {
        Some(k) => {
            let src = &node.attribute[k].ints;
            let mut v: Vec<i64> = Vec::new();
            let mut i: usize = 0;
            while i < src.len()
                invariant
                    i <= src@.len(),
                    v@ == src@.take(i as int),
                decreases src@.len() - i,
            {
                v.push(src[i]);
                i = i + 1;
                proof {
                    assert(v@ =~= src@.take(i as int));
                }
            }
            proof {
                assert(src@.take(i as int) =~= src@);
            }
            Some(v)
        },
        None => None,
    }
}

/// The operator an ONNX op type maps to, for the kinds that carry no
/// attributes. Unknown op types fall back to `Add`.
pub open spec fn spec_plain_onnx_op(t: Seq<char>) -> Op {
    if t == "MatMul"@ || t == "MatMulNBits"@ {
        Op::Matmul
    } else if t == "Add"@ {
        Op::Add
    } else if t == "Mul"@ {
        Op::Mul
    } else if t == "Sub"@ {
        Op::Sub
    } else if t == "Div"@ {
        Op::Div
    } else if t == "Relu"@ {
        Op::Relu
    } else if t == "Sigmoid"@ {
        Op::Sigmoid
    } else if t == "Softmax"@ {
        Op::Softmax { dim: -1i32 }
    } else if t == "Tanh"@ {
        Op::Tanh
    } else if t == "Gelu"@ || t == "FastGelu"@ {
        Op::Gelu { approximate: false }
    } else if t == "Silu"@ {
        Op::Silu
    } else if t == "RotaryEmbedding"@ {
        Op::Rope { head_dim: 0, base: F32Bits(0x461c4000) }
    } else if t == "Gather"@ {
        Op::TokenEmbed
    } else if t == "DequantizeLinear"@ {
        Op::Dequantize
    } else if t == "ArgMax"@ {
        Op::Argmax
    } else {
        Op::Add
    }
}

/// The attribute `name` of `node`, if present, as found by `first_attr`.
pub open spec fn attr_i(node: OnnxNode, name: Seq<char>) -> Option<i64> {
    match first_attr(node.attribute@, name) {
        Some(k) => Some(node.attribute@[k].i),
        None => None,
    }
}

/// The float attribute `name` of `node`, if present.
pub open spec fn attr_f(node: OnnxNode, name: Seq<char>) -> Option<F32Bits> {
    match first_attr(node.attribute@, name) {
        Some(k) => Some(node.attribute@[k].f),
        None => None,
    }
}

/// `num_heads`, default 1, as `u32`.
pub open spec fn onnx_heads(node: OnnxNode) -> u32 {
    match attr_i(node, "num_heads"@) {
        Some(h) => h as u32,
        None => 1u32,
    }
}

/// The op of a node whose kind carries no list: layer norms with their
/// `epsilon` (defaults 1e-5 and 1e-6); attention with `num_heads` (default
/// 1) and `kv_num_heads` (default `num_heads`), causal, head size left for
/// the weights to tell; `Concat` with its `axis` (cast to `usize`, default
/// 0); the rest by name.
pub open spec fn spec_onnx_op(node: OnnxNode) -> Op {
    let t = node.op_type@;
    if t == "LayerNormalization"@ {
        Op::LayerNorm {
            eps: match attr_f(node, "epsilon"@) {
                Some(e) => e,
                None => F32Bits(0x3727c5ac),
            },
        }
    } else if t == "SimplifiedLayerNormalization"@ || t == "RmsNormalization"@ {
        Op::RmsNorm {
            eps: match attr_f(node, "epsilon"@) {
                Some(e) => e,
                None => F32Bits(0x358637bd),
            },
        }
    } else if t == "GroupQueryAttention"@ || t == "MultiHeadAttention"@ {
        Op::Sdpa {
            num_heads: onnx_heads(node),
            kv_heads: match attr_i(node, "kv_num_heads"@) {
                Some(h) => h as u32,
                None => onnx_heads(node),
            },
            head_dim: 0,
            causal: true,
        }
    } else if t == "Concat"@ {
        Op::Concat {
            axis: match attr_i(node, "axis"@) {
                Some(a) => a as usize,
                None => 0usize,
            },
        }
    } else {
        spec_plain_onnx_op(t)
    }
}

/// `r` is the op of `node`: `Reshape` gives an empty shape, `Transpose` its
/// `perm` attribute (each entry cast to `usize`, empty when absent), the
/// others `spec_onnx_op`.
pub open spec fn onnx_op_is(node: OnnxNode, r: Op) -> bool {
    if node.op_type@ == "Reshape"@ {
        r matches Op::Reshape { shape } && shape@.len() == 0
    } else if node.op_type@ == "Transpose"@ {
        r matches Op::Transpose { perm } && match first_attr(node.attribute@, "perm"@) {
            Some(k) => perm@ == node.attribute@[k].ints@.map_values(|v: i64| v as usize),
            None => perm@.len() == 0,
        }
    } else {
        r == spec_onnx_op(node)
    }
}

/// Convert an ONNX node to a graph op (unknown op types fall back to `Add`).
pub fn onnx_op_to_ir(node: &OnnxNode) -> (r: Op)
    ensures
        onnx_op_is(*node, r),
{
    let t = node.op_type.as_str();
    if str_eq(t, "Reshape") {
        Op::Reshape { shape: Vec::new() }
    } else if str_eq(t, "Transpose") {
        let ints = match get_attr_ints(node, "perm") {
            Some(v) => v,
            None => Vec::new(),
        };
        let mut perm: Vec<usize> = Vec::new();
        let mut i: usize = 0;
        while i < ints.len()
            invariant
                i <= ints@.len(),
                perm@ == ints@.take(i as int).map_values(|v: i64| v as usize),
            decreases ints@.len() - i,
        {
            perm.push(ints[i] as usize);
            i = i + 1;
            proof {
                assert(perm@ =~= ints@.take(i as int).map_values(|v: i64| v as usize));
            }
        }
        proof {
            assert(ints@.take(i as int) =~= ints@);
        }
        Op::Transpose { perm }
    } else if str_eq(t, "LayerNormalization") {
        let eps = match get_attr_f(node, "epsilon") {
            Some(e) => e,
            None => F32Bits(0x3727c5ac),
        };
        Op::LayerNorm { eps }
    } else if str_eq(t, "SimplifiedLayerNormalization") || str_eq(t, "RmsNormalization") {
        let eps = match get_attr_f(node, "epsilon") {
            Some(e) => e,
            None => F32Bits(0x358637bd),
        };
        Op::RmsNorm { eps }
    } else if str_eq(t, "GroupQueryAttention") || str_eq(t, "MultiHeadAttention") {
        let num_heads: u32 = match get_attr_i(node, "num_heads") {
            Some(h) => h as u32,
            None => 1u32,
        };
        let kv_heads: u32 = match get_attr_i(node, "kv_num_heads") {
            Some(h) => h as u32,
            None => num_heads,
        };
        Op::Sdpa { num_heads, kv_heads, head_dim: 0, causal: true }
    } else if str_eq(t, "Concat") {
        let axis: usize = match get_attr_i(node, "axis") {
            Some(a) => a as usize,
            None => 0usize,
        };
        Op::Concat { axis }
    } else if str_eq(t, "MatMul") || str_eq(t, "MatMulNBits") {
        Op::Matmul
    } else if str_eq(t, "Add") {
        Op::Add
    } else if str_eq(t, "Mul") {
        Op::Mul
    } else if str_eq(t, "Sub") {
        Op::Sub
    } else if str_eq(t, "Div") {
        Op::Div
    } else if str_eq(t, "Relu") {
        Op::Relu
    } else if str_eq(t, "Sigmoid") {
        Op::Sigmoid
    } else if str_eq(t, "Softmax") {
        Op::Softmax { dim: -1 }
    } else if str_eq(t, "Tanh") {
        Op::Tanh
    } else if str_eq(t, "Gelu") || str_eq(t, "FastGelu") {
        Op::Gelu { approximate: false }
    } else if str_eq(t, "Silu") {
        Op::Silu
    } else if str_eq(t, "RotaryEmbedding") {
        Op::Rope { head_dim: 0, base: F32Bits(0x461c4000) }
    } else if str_eq(t, "Gather") {
        Op::TokenEmbed
    } else if str_eq(t, "DequantizeLinear") {
        Op::Dequantize
    } else if str_eq(t, "ArgMax") {
        Op::Argmax
    } else {
        Op::Add
    }
}

/// The byte at `k`, or 0 past the end.
pub open spec fn byte_or_zero(b: Seq<u8>, k: int) -> u32 {
    if 0 <= k < b.len() {
        b[k] as u32
    } else {
        0
    }
}

/// The little-endian word made of the (up to) four bytes at `4 * i`.
pub open spec fn packed_word(b: Seq<u8>, i: int) -> u32 {
    byte_or_zero(b, 4 * i) | (byte_or_zero(b, 4 * i + 1) << 8u32) | (byte_or_zero(b, 4 * i + 2) << 16u32) | (
    byte_or_zero(b, 4 * i + 3) << 24u32)
}

fn byte_at(b: &[u8], k: usize) -> (r: u32)
    ensures
        r == byte_or_zero(b@, k as int),
{
    if k < b.len() {
        b[k] as u32
    } else {
        0
    }
}

/// Pack raw bytes into little-endian `u32` words, four bytes per word; a
/// short last chunk fills the low bytes.
pub fn pack_bytes_to_u32(raw: &[u8]) -> (r: Vec<u32>)
    requires
        raw@.len() <= isize::MAX,
    ensures
        r@.len() == (raw@.len() + 3) / 4,
        forall|i: int| 0 <= i < r@.len() ==> #[trigger] r@[i] == packed_word(raw@, i),
{
    let n = raw.len() / 4 + if raw.len() % 4 == 0 {
        0
    } else {
        1
    };
    let mut r: Vec<u32> = Vec::new();
    let mut i: usize = 0;
    while i < n
        invariant
            n == (raw@.len() + 3) / 4,
            raw@.len() <= isize::MAX,
            i <= n,
            r@.len() == i,
            forall|j: int| 0 <= j < i ==> #[trigger] r@[j] == packed_word(raw@, j),
        decreases n - i,
    {
        assert(4 * i < raw@.len()) by (nonlinear_arith)
            requires
                n == (raw@.len() + 3) / 4,
                i < n,
        ;
        let p = 4 * i;
        let w = byte_at(raw, p) | (byte_at(raw, p + 1) << 8u32) | (byte_at(raw, p + 2) << 16u32) | (byte_at(
            raw,
            p + 3,
        ) << 24u32);
        r.push(w);
        i = i + 1;
    }
    r
}

} // verus!
