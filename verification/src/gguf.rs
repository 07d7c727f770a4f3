//! GGUF container parsing: metadata values, the tensor directory and the
//! tensor data that follows it.
//!
//! Layout (all integers little-endian):
//! magic "GGUF", version (u32), tensor count and metadata count (u64 from
//! version 3 on, u32 before), the metadata key/value pairs, one directory
//! entry per tensor, padding to a 32-byte boundary, then the tensor data.

use vstd::prelude::*;
use vstd::bytes::{
    spec_u16_from_le_bytes, spec_u32_from_le_bytes, spec_u64_from_le_bytes, u16_from_le_bytes,
    u32_from_le_bytes, u64_from_le_bytes,
};
use vstd::slice::{slice_subrange, slice_to_vec};
use vstd::utf8::{decode_utf8, valid_utf8};
use crate::dtype::DType;
use crate::graph::{fixed_dims, Graph, Residency, TensorMeta, WeightData};
use crate::namemap::NameMap;
use crate::ops::F32Bits;

verus! {

/// The IEEE-754 double-precision bit pattern of a metadata value.
#[derive(Clone, Copy, Debug, PartialEq, Eq, Structural)]
pub struct F64Bits(pub u64);

/// A GGUF metadata value.
#[derive(Debug)]
pub enum GgufValue {
    U8(u8),
    I8(i8),
    U16(u16),
    I16(i16),
    U32(u32),
    I32(i32),
    F32(F32Bits),
    U64(u64),
    I64(i64),
    F64(F64Bits),
    Bool(bool),
    Str(String),
    Array(Vec<GgufValue>),
}

/// Why GGUF bytes could not be read.
#[derive(Clone, Copy, Debug, PartialEq, Eq, Structural)]
pub enum GgufError {
    /// Fewer than 24 bytes.
    TooSmall,
    /// The first four bytes are not "GGUF".
    BadMagic(u8, u8, u8, u8),
    /// The data ends inside a field.
    Truncated,
    /// A string is not valid UTF-8.
    InvalidUtf8,
    /// A metadata value has an unknown type tag.
    UnknownValueType(u32),
    /// An array has an unknown element type tag.
    UnknownArrayType(u32),
}

impl GgufValue {
    /// The value as a `u32`, for any integer variant (converted as by `as`).
    pub open spec fn spec_as_u32(&self) -> Option<u32> {
        match *self {
            GgufValue::U8(v) => Some(v as u32),
            GgufValue::I8(v) => Some(v as u32),
            GgufValue::U16(v) => Some(v as u32),
            GgufValue::I16(v) => Some(v as u32),
            GgufValue::U32(v) => Some(v),
            GgufValue::I32(v) => Some(v as u32),
            GgufValue::U64(v) => Some(v as u32),
            GgufValue::I64(v) => Some(v as u32),
            _ => None,
        }
    }

    /// The value as a `u64`, for any integer variant (converted as by `as`).
    pub open spec fn spec_as_u64(&self) -> Option<u64> {
        match *self {
            GgufValue::U8(v) => Some(v as u64),
            GgufValue::I8(v) => Some(v as u64),
            GgufValue::U16(v) => Some(v as u64),
            GgufValue::I16(v) => Some(v as u64),
            GgufValue::U32(v) => Some(v as u64),
            GgufValue::I32(v) => Some(v as u64),
            GgufValue::U64(v) => Some(v),
            GgufValue::I64(v) => Some(v as u64),
            _ => None,
        }
    }

    /// Extract as u32 (from any integer type).
    pub fn as_u32(&self) -> (r: Option<u32>)
        ensures
            r == self.spec_as_u32(),
    {
        match self {
            GgufValue::U8(v) => Some(*v as u32),
            GgufValue::I8(v) => Some(*v as u32),
            GgufValue::U16(v) => Some(*v as u32),
            GgufValue::I16(v) => Some(*v as u32),
            GgufValue::U32(v) => Some(*v),
            GgufValue::I32(v) => Some(*v as u32),
            GgufValue::U64(v) => Some(*v as u32),
            GgufValue::I64(v) => Some(*v as u32),
            _ => None,
        }
    }

    /// Extract as u64 (from any integer type).
    pub fn as_u64(&self) -> (r: Option<u64>)
        ensures
            r == self.spec_as_u64(),
    {
        match self {
            GgufValue::U8(v) => Some(*v as u64),
            GgufValue::I8(v) => Some(*v as u64),
            GgufValue::U16(v) => Some(*v as u64),
            GgufValue::I16(v) => Some(*v as u64),
            GgufValue::U32(v) => Some(*v as u64),
            GgufValue::I32(v) => Some(*v as u64),
            GgufValue::U64(v) => Some(*v),
            GgufValue::I64(v) => Some(*v as u64),
            _ => None,
        }
    }

    /// Extract as string.
    pub fn as_str(&self) -> (r: Option<&str>)
        ensures
            match *self {
                GgufValue::Str(s) => r matches Some(t) && t@ == s@,
                _ => r is None,
            },
    {
        match self {
            GgufValue::Str(s) => Some(s.as_str()),
            _ => None,
        }
    }
}

// ---- Tensor type tables ----

/// The element type of a GGUF tensor type id (unknown ids read as F32).
pub open spec fn spec_gguf_dtype(type_id: u32) -> DType {
    if type_id == 0 {
        DType::F32
    } else if type_id == 1 {
        DType::F16
    } else if type_id == 2 {
        DType::Q4
    } else if type_id == 3 {
        DType::Q4_1
    } else if type_id == 8 {
        DType::Q8
    } else if type_id == 10 {
        DType::Q3_K
    } else if type_id == 11 {
        DType::Q2_K
    } else if type_id == 12 {
        DType::Q4_K
    } else if type_id == 13 {
        DType::Q5_K
    } else if type_id == 14 {
        DType::Q6_K
    } else {
        DType::F32
    }
}

/// Elements per block of a GGUF tensor type (1 for unknown ids).
pub open spec fn spec_gguf_block_size(type_id: u32) -> nat {
    if type_id == 2 || type_id == 3 || type_id == 8 {
        32
    } else if 10 <= type_id <= 14 {
        256
    } else {
        1
    }
}

/// Bytes per block of a GGUF tensor type (4 for unknown ids).
pub open spec fn spec_gguf_block_bytes(type_id: u32) -> nat {
    if type_id == 1 {
        2
    } else if type_id == 2 {
        18
    } else if type_id == 3 {
        20
    } else if type_id == 8 {
        34
    } else if type_id == 10 {
        110
    } else if type_id == 11 {
        84
    } else if type_id == 12 {
        144
    } else if type_id == 13 {
        176
    } else if type_id == 14 {
        210
    } else {
        4
    }
}

/// The GGML tensor type ids map to the element type of the same
/// quantization format: 0 F32, 1 F16, 2 Q4_0, 3 Q4_1, 8 Q8_0, 10 Q3_K,
/// 11 Q2_K, 12 Q4_K, 13 Q5_K, 14 Q6_K; any other id reads as F32. Distinct
/// known ids give distinct types, and for every known id but Q4_1 (whose
/// block also carries a minimum) the type's bits per element are the
/// block's bits per element rounded down.
pub proof fn lemma_gguf_dtype_table(type_id: u32)
    ensures
        spec_gguf_dtype(0) == DType::F32,
        spec_gguf_dtype(1) == DType::F16,
        spec_gguf_dtype(2) == DType::Q4,
        spec_gguf_dtype(3) == DType::Q4_1,
        spec_gguf_dtype(8) == DType::Q8,
        spec_gguf_dtype(10) == DType::Q3_K,
        spec_gguf_dtype(11) == DType::Q2_K,
        spec_gguf_dtype(12) == DType::Q4_K,
        spec_gguf_dtype(13) == DType::Q5_K,
        spec_gguf_dtype(14) == DType::Q6_K,
        !(type_id <= 3 || type_id == 8 || 10 <= type_id <= 14) ==> spec_gguf_dtype(type_id) == DType::F32,
        forall|a: u32, b: u32|
            (a <= 3 || a == 8 || 10 <= a <= 14) && (b <= 3 || b == 8 || 10 <= b <= 14) && a != b
                ==> #[trigger] spec_gguf_dtype(a) != #[trigger] spec_gguf_dtype(b),
        forall|t: u32|
            (t <= 2 || t == 8 || 10 <= t <= 14) ==> (#[trigger] spec_gguf_dtype(t)).spec_bits() == (
            spec_gguf_block_bytes(t) * 8) / spec_gguf_block_size(t),
        10 <= type_id <= 14 ==> spec_gguf_dtype(type_id).spec_is_k_quant() && spec_gguf_block_size(type_id) == 256,
{
    assert forall|t: u32|
        (t <= 2 || t == 8 || 10 <= t <= 14) implies (#[trigger] spec_gguf_dtype(t)).spec_bits() == (
        spec_gguf_block_bytes(t) * 8) / spec_gguf_block_size(t) by {
        if t == 0 {
        } else if t == 1 {
        } else if t == 2 {
            assert(18nat * 8 / 32 == 4);
        } else if t == 8 {
            assert(34nat * 8 / 32 == 8);
        } else if t == 10 {
            assert(110nat * 8 / 256 == 3);
        } else if t == 11 {
            assert(84nat * 8 / 256 == 2);
        } else if t == 12 {
            assert(144nat * 8 / 256 == 4);
        } else if t == 13 {
            assert(176nat * 8 / 256 == 5);
        } else {
            assert(210nat * 8 / 256 == 6);
        }
    }
}

/// GGUF tensor type id to element type.
pub fn gguf_type_to_dtype(type_id: u32) -> (r: DType)
    ensures
        r == spec_gguf_dtype(type_id),
{
    match type_id {
        0 => DType::F32,
        1 => DType::F16,
        2 => DType::Q4,
        3 => DType::Q4_1,
        8 => DType::Q8,
        10 => DType::Q3_K,
        11 => DType::Q2_K,
        12 => DType::Q4_K,
        13 => DType::Q5_K,
        14 => DType::Q6_K,
        _ => DType::F32,
    }
}

/// Size of one block for quantized types.
pub fn gguf_type_block_size(type_id: u32) -> (r: usize)
    ensures
        r == spec_gguf_block_size(type_id),
{
    match type_id {
        0 => 1,
        1 => 1,
        2 => 32,
        3 => 32,
        8 => 32,
        10 => 256,
        11 => 256,
        12 => 256,
        13 => 256,
        14 => 256,
        _ => 1,
    }
}

/// Bytes per block for quantized types.
pub fn gguf_type_bytes_per_block(type_id: u32) -> (r: usize)
    ensures
        r == spec_gguf_block_bytes(type_id),
{
    match type_id {
        0 => 4,
        1 => 2,
        2 => 18,
        3 => 20,
        8 => 34,
        10 => 110,
        11 => 84,
        12 => 144,
        13 => 176,
        14 => 210,
        _ => 4,
    }
}

// ---- Reading fields ----

/// The little-endian `u16` at `p`.
pub open spec fn u16_at(b: Seq<u8>, p: int) -> u16 {
    spec_u16_from_le_bytes(b.subrange(p, p + 2))
}

/// The little-endian `u32` at `p`.
pub open spec fn u32_at(b: Seq<u8>, p: int) -> u32 {
    spec_u32_from_le_bytes(b.subrange(p, p + 4))
}

/// The little-endian `u64` at `p`.
pub open spec fn u64_at(b: Seq<u8>, p: int) -> u64 {
    spec_u64_from_le_bytes(b.subrange(p, p + 8))
}

/// The outcome of reading a fixed-width field of `w` bytes at `*old(pos)`.
pub open spec fn read_ok(len: int, old_pos: int, new_pos: int, w: int) -> bool {
    old_pos + w <= len && new_pos == old_pos + w
}

fn read_u8(data: &[u8], pos: &mut usize) -> (r: Result<u8, GgufError>)
    requires
        *old(pos) <= data@.len(),
    ensures
        *final(pos) <= data@.len(),
        match r {
            Ok(v) => read_ok(data@.len() as int, *old(pos) as int, *final(pos) as int, 1) && v == data@[*old(pos) as int],
            Err(e) => *old(pos) + 1 > data@.len() && e == GgufError::Truncated,
        },
{
    if data.len() - *pos < 1 {
        return Err(GgufError::Truncated);
    }
    let v = data[*pos];
    *pos = *pos + 1;
    Ok(v)
}

fn read_u16(data: &[u8], pos: &mut usize) -> (r: Result<u16, GgufError>)
    requires
        *old(pos) <= data@.len(),
    ensures
        *final(pos) <= data@.len(),
        match r {
            Ok(v) => read_ok(data@.len() as int, *old(pos) as int, *final(pos) as int, 2) && v == u16_at(data@, *old(pos) as int),
            Err(e) => *old(pos) + 2 > data@.len() && e == GgufError::Truncated,
        },
{
    if data.len() - *pos < 2 {
        return Err(GgufError::Truncated);
    }
    let v = u16_from_le_bytes(slice_subrange(data, *pos, *pos + 2));
    *pos = *pos + 2;
    Ok(v)
}

fn read_u32(data: &[u8], pos: &mut usize) -> (r: Result<u32, GgufError>)
    requires
        *old(pos) <= data@.len(),
    ensures
        *final(pos) <= data@.len(),
        match r {
            Ok(v) => read_ok(data@.len() as int, *old(pos) as int, *final(pos) as int, 4) && v == u32_at(data@, *old(pos) as int),
            Err(e) => *old(pos) + 4 > data@.len() && e == GgufError::Truncated,
        },
{
    if data.len() - *pos < 4 {
        return Err(GgufError::Truncated);
    }
    let v = u32_from_le_bytes(slice_subrange(data, *pos, *pos + 4));
    *pos = *pos + 4;
    Ok(v)
}

fn read_u64(data: &[u8], pos: &mut usize) -> (r: Result<u64, GgufError>)
    requires
        *old(pos) <= data@.len(),
    ensures
        *final(pos) <= data@.len(),
        match r {
            Ok(v) => read_ok(data@.len() as int, *old(pos) as int, *final(pos) as int, 8) && v == u64_at(data@, *old(pos) as int),
            Err(e) => *old(pos) + 8 > data@.len() && e == GgufError::Truncated,
        },
{
    if data.len() - *pos < 8 {
        return Err(GgufError::Truncated);
    }
    let v = u64_from_le_bytes(slice_subrange(data, *pos, *pos + 8));
    *pos = *pos + 8;
    Ok(v)
}

/// `String::from_utf8`: the string the bytes encode, or `None` when they
/// are not valid UTF-8.
#[verifier::external_body]
pub(crate) fn string_from_utf8(bytes: Vec<u8>) -> (r: Option<String>)
    ensures
        r is Some <==> valid_utf8(bytes@),
        r matches Some(s) ==> s@ == decode_utf8(bytes@),
{
    String::from_utf8(bytes).ok()
}

// ---- Metadata values ----

/// Where the GGUF string at `p` (a `u64` byte length, then that many UTF-8
/// bytes) ends, when it is well formed.
pub open spec fn str_end(b: Seq<u8>, p: int) -> Option<int> {
    if p + 8 <= b.len() && p + 8 + u64_at(b, p) <= b.len() && valid_utf8(
        b.subrange(p + 8, p + 8 + u64_at(b, p)),
    ) {
        Some(p + 8 + u64_at(b, p))
    } else {
        None
    }
}

/// The text of the GGUF string at `p`.
pub open spec fn str_text(b: Seq<u8>, p: int) -> Seq<char> {
    decode_utf8(b.subrange(p + 8, p + 8 + u64_at(b, p)))
}

/// Byte width of the fixed-width value types; `None` for strings (8),
/// arrays (9) and unknown tags.
pub open spec fn scalar_width(t: u32) -> Option<int> {
    if t == 0 || t == 1 || t == 7 {
        Some(1)
    } else if t == 2 || t == 3 {
        Some(2)
    } else if 4 <= t <= 6 {
        Some(4)
    } else if 10 <= t <= 12 {
        Some(8)
    } else {
        None
    }
}

/// Where a value of non-array type `t` starting at `p` ends, if well formed.
pub open spec fn typed_end(b: Seq<u8>, p: int, t: u32) -> Option<int> {
    if t == 8 {
        str_end(b, p)
    } else {
        match scalar_width(t) {
            Some(w) => if p + w <= b.len() {
                Some(p + w)
            } else {
                None
            },
            None => None,
        }
    }
}

/// Where `count` consecutive values of type `t` starting at `p` end.
pub open spec fn items_end(b: Seq<u8>, p: int, t: u32, count: nat) -> Option<int>
    decreases count,
{
    if count == 0 {
        Some(p)
    } else {
        match items_end(b, p, t, (count - 1) as nat) {
            Some(q) => typed_end(b, q, t),
            None => None,
        }
    }
}

/// Where the tagged metadata value at `p` ends, if well formed: a `u32`
/// type tag, then the value; an array (tag 9) holds its element type
/// (`u32`), its length (`u64`) and the elements.
pub open spec fn value_end(b: Seq<u8>, p: int) -> Option<int> {
    if p + 4 > b.len() {
        None
    } else if u32_at(b, p) == 9 {
        if p + 16 > b.len() {
            None
        } else {
            items_end(b, p + 16, u32_at(b, p + 4), u64_at(b, p + 8) as nat)
        }
    } else {
        typed_end(b, p + 4, u32_at(b, p))
    }
}

/// The fixed-width value of type `t` stored at `p`.
pub open spec fn scalar_value(b: Seq<u8>, p: int, t: u32) -> GgufValue {
    if t == 0 {
        GgufValue::U8(b[p])
    } else if t == 1 {
        GgufValue::I8(b[p] as i8)
    } else if t == 2 {
        GgufValue::U16(u16_at(b, p))
    } else if t == 3 {
        GgufValue::I16(u16_at(b, p) as i16)
    } else if t == 4 {
        GgufValue::U32(u32_at(b, p))
    } else if t == 5 {
        GgufValue::I32(u32_at(b, p) as i32)
    } else if t == 6 {
        GgufValue::F32(F32Bits(u32_at(b, p)))
    } else if t == 7 {
        GgufValue::Bool(b[p] != 0)
    } else if t == 10 {
        GgufValue::U64(u64_at(b, p))
    } else if t == 11 {
        GgufValue::I64(u64_at(b, p) as i64)
    } else {
        GgufValue::F64(F64Bits(u64_at(b, p)))
    }
}

/// `v` is the value of non-array type `t` stored at `p`.
pub open spec fn typed_value_is(b: Seq<u8>, p: int, t: u32, v: GgufValue) -> bool {
    if t == 8 {
        v matches GgufValue::Str(s) && s@ == str_text(b, p)
    } else {
        v == scalar_value(b, p, t)
    }
}

/// `items` are the consecutive values of type `t` stored from `p` on.
pub open spec fn items_are(b: Seq<u8>, p: int, t: u32, items: Seq<GgufValue>) -> bool
    decreases items.len(),
{
    items.len() == 0 || (items_are(b, p, t, items.drop_last()) && match items_end(
        b,
        p,
        t,
        (items.len() - 1) as nat,
    ) {
        Some(q) => typed_value_is(b, q, t, items.last()),
        None => false,
    })
}

/// `v` is the tagged metadata value stored at `p`.
pub open spec fn value_is(b: Seq<u8>, p: int, v: GgufValue) -> bool {
    if u32_at(b, p) == 9 {
        v matches GgufValue::Array(items) && items@.len() == u64_at(b, p + 8) && items_are(
            b,
            p + 16,
            u32_at(b, p + 4),
            items@,
        )
    } else {
        typed_value_is(b, p + 4, u32_at(b, p), v)
    }
}

proof fn lemma_items_end_prefix(b: Seq<u8>, p: int, t: u32, k: nat, count: nat)
    requires
        k <= count,
        items_end(b, p, t, count) is Some,
    ensures
        items_end(b, p, t, k) is Some,
    decreases count,
{
    if k < count {
        lemma_items_end_prefix(b, p, t, k, (count - 1) as nat);
    }
}

/// Read a GGUF string at `*pos` (a little-endian `u64` byte length, then
/// that many UTF-8 bytes), moving `*pos` past it.
pub fn read_gguf_string(data: &[u8], pos: &mut usize) -> (r: Result<String, GgufError>)
    requires
        *old(pos) <= data@.len(),
    ensures
        *final(pos) <= data@.len(),
        match r {
            Ok(s) => str_end(data@, *old(pos) as int) == Some(*final(pos) as int) && s@ == str_text(
                data@,
                *old(pos) as int,
            ),
            Err(e) => str_end(data@, *old(pos) as int) is None && (e == GgufError::Truncated
                || e == GgufError::InvalidUtf8),
        },
{
    let len = read_u64(data, pos)?;
    if len > (data.len() - *pos) as u64 {
        return Err(GgufError::Truncated);
    }
    let n = len as usize;
    let bytes = slice_to_vec(slice_subrange(data, *pos, *pos + n));
    match string_from_utf8(bytes) {
        Some(s) => {
            *pos = *pos + n;
            Ok(s)
        },
        None => Err(GgufError::InvalidUtf8),
    }
}

fn read_gguf_value_typed(data: &[u8], pos: &mut usize, value_type: u32) -> (r: Result<GgufValue, GgufError>)
    requires
        *old(pos) <= data@.len(),
    ensures
        *final(pos) <= data@.len(),
        match r {
            Ok(v) => typed_end(data@, *old(pos) as int, value_type) == Some(*final(pos) as int)
                && typed_value_is(data@, *old(pos) as int, value_type, v),
            Err(e) => typed_end(data@, *old(pos) as int, value_type) is None && match e {
                GgufError::UnknownArrayType(t) => t == value_type && value_type != 8 && scalar_width(
                    value_type,
                ) is None,
                GgufError::Truncated => value_type == 8 || scalar_width(value_type) is Some,
                GgufError::InvalidUtf8 => value_type == 8,
                _ => false,
            },
        },
{
    let ghost p0 = *pos as int;
    match value_type {
        0 => Ok(GgufValue::U8(read_u8(data, pos)?)),
        1 => {
            let v = read_u8(data, pos)?;
            Ok(GgufValue::I8(v as i8))
        },
        2 => Ok(GgufValue::U16(read_u16(data, pos)?)),
        3 => {
            let v = read_u16(data, pos)?;
            Ok(GgufValue::I16(v as i16))
        },
        4 => Ok(GgufValue::U32(read_u32(data, pos)?)),
        5 => {
            let v = read_u32(data, pos)?;
            Ok(GgufValue::I32(v as i32))
        },
        6 => {
            let v = read_u32(data, pos)?;
            Ok(GgufValue::F32(F32Bits(v)))
        },
        7 => {
            let v = read_u8(data, pos)?;
            Ok(GgufValue::Bool(v != 0))
        },
        8 => Ok(GgufValue::Str(read_gguf_string(data, pos)?)),
        10 => Ok(GgufValue::U64(read_u64(data, pos)?)),
        11 => {
            let v = read_u64(data, pos)?;
            Ok(GgufValue::I64(v as i64))
        },
        12 => {
            let v = read_u64(data, pos)?;
            Ok(GgufValue::F64(F64Bits(v)))
        },
        _ => Err(GgufError::UnknownArrayType(value_type)),
    }
}

/// Read one tagged metadata value at `*pos`, advancing past it.
pub fn read_gguf_value(data: &[u8], pos: &mut usize) -> (r: Result<GgufValue, GgufError>)
    requires
        *old(pos) <= data@.len(),
    ensures
        *final(pos) <= data@.len(),
        match r {
            Ok(v) => value_end(data@, *old(pos) as int) == Some(*final(pos) as int) && value_is(
                data@,
                *old(pos) as int,
                v,
            ),
            Err(e) => value_end(data@, *old(pos) as int) is None && match e {
                GgufError::UnknownValueType(t) => *old(pos) + 4 <= data@.len() && t == u32_at(
                    data@,
                    *old(pos) as int,
                ) && t != 8 && t != 9 && scalar_width(t) is None,
                GgufError::UnknownArrayType(t) => *old(pos) + 16 <= data@.len() && u32_at(
                    data@,
                    *old(pos) as int,
                ) == 9 && t == u32_at(data@, *old(pos) + 4) && t != 8 && scalar_width(t) is None,
                GgufError::Truncated => true,
                GgufError::InvalidUtf8 => true,
                _ => false,
            },
        },
{
    let ghost p0 = *pos as int;
    let value_type = read_u32(data, pos)?;
    if value_type == 9 {
        let arr_type = read_u32(data, pos)?;
        let arr_len = read_u64(data, pos)?;
        let ghost start = *pos as int;
        let mut values: Vec<GgufValue> = Vec::new();
        let mut i: u64 = 0;
        while i < arr_len
            invariant
                *pos <= data@.len(),
                p0 == *old(pos) as int,
                p0 + 16 == start,
                start <= data@.len(),
                u32_at(data@, p0) == 9,
                arr_type == u32_at(data@, p0 + 4),
                arr_len == u64_at(data@, p0 + 8),
                i <= arr_len,
                values@.len() == i,
                items_end(data@, start, arr_type, i as nat) == Some(*pos as int),
                items_are(data@, start, arr_type, values@),
            decreases arr_len - i,
        {
            let ghost q = *pos as int;
            let r = read_gguf_value_typed(data, pos, arr_type);
            match r {
                Ok(v) => {
                    let ghost old_values = values@;
                    values.push(v);
                    proof {
                        assert(values@.drop_last() =~= old_values);
                    }
                },
                Err(e) => {
                    proof {
                        assert(typed_end(data@, q, arr_type) is None);
                        assert(items_end(data@, start, arr_type, (i + 1) as nat) is None);
                        if items_end(data@, start, arr_type, arr_len as nat) is Some {
                            lemma_items_end_prefix(data@, start, arr_type, (i + 1) as nat, arr_len as nat);
                        }
                    }
                    return Err(e);
                },
            }
            i = i + 1;
        }
        Ok(GgufValue::Array(values))
    } else {
        match read_gguf_value_typed(data, pos, value_type) {
            Ok(v) => Ok(v),
            Err(e) => {
                if e == GgufError::UnknownArrayType(value_type) {
                    Err(GgufError::UnknownValueType(value_type))
                } else {
                    Err(e)
                }
            },
        }
    }
}

// ---- Metadata table ----

/// Where `count` key/value pairs (a string key, then a tagged value)
/// starting at `p` end.
pub open spec fn pairs_end(b: Seq<u8>, p: int, count: nat) -> Option<int>
    decreases count,
{
    if count == 0 {
        Some(p)
    } else {
        match pairs_end(b, p, (count - 1) as nat) {
            Some(q) => match str_end(b, q) {
                Some(r) => value_end(b, r),
                None => None,
            },
            None => None,
        }
    }
}

/// The key of pair `i` of the table at `p`.
pub open spec fn pair_key(b: Seq<u8>, p: int, i: nat) -> Seq<char> {
    str_text(b, pairs_end(b, p, i)->0)
}

/// Where the value of pair `i` of the table at `p` starts.
pub open spec fn pair_value_pos(b: Seq<u8>, p: int, i: nat) -> int {
    str_end(b, pairs_end(b, p, i)->0)->0
}

/// `m` holds the first `count` pairs of the table at `p`, a later pair
/// replacing an earlier one with the same key.
pub open spec fn metadata_is(b: Seq<u8>, p: int, count: nat, m: Map<Seq<char>, GgufValue>) -> bool {
    &&& forall|k: Seq<char>| #[trigger] m.contains_key(k) <==> exists|i: nat| i < count && pair_key(b, p, i) == k
    &&& forall|k: Seq<char>|
        #[trigger] m.contains_key(k) ==> exists|i: nat|
            i < count && pair_key(b, p, i) == k && value_is(b, pair_value_pos(b, p, i), m[k]) && forall|j: nat|
                i < j < count ==> pair_key(b, p, j) != k
}

proof fn lemma_pairs_end_prefix(b: Seq<u8>, p: int, k: nat, count: nat)
    requires
        k <= count,
        pairs_end(b, p, count) is Some,
    ensures
        pairs_end(b, p, k) is Some,
    decreases count,
{
    if k < count {
        lemma_pairs_end_prefix(b, p, k, (count - 1) as nat);
    }
}

/// Read `count` metadata pairs at `*pos`.
fn read_metadata(data: &[u8], pos: &mut usize, count: u64) -> (r: Result<NameMap<GgufValue>, GgufError>)
    requires
        *old(pos) <= data@.len(),
    ensures
        *final(pos) <= data@.len(),
        match r {
            Ok(m) => pairs_end(data@, *old(pos) as int, count as nat) == Some(*final(pos) as int)
                && metadata_is(data@, *old(pos) as int, count as nat, m@),
            Err(_) => pairs_end(data@, *old(pos) as int, count as nat) is None,
        },
{
    let ghost p0 = *pos as int;
    let mut m: NameMap<GgufValue> = NameMap::new();
    let mut i: u64 = 0;
    while i < count
        invariant
            *pos <= data@.len(),
            p0 == *old(pos) as int,
            i <= count,
            pairs_end(data@, p0, i as nat) == Some(*pos as int),
            metadata_is(data@, p0, i as nat, m@),
        decreases count - i,
    {
        let ghost q = *pos as int;
        let key = match read_gguf_string(data, pos) {
            Ok(k) => k,
            Err(e) => {
                proof {
                    if pairs_end(data@, p0, count as nat) is Some {
                        lemma_pairs_end_prefix(data@, p0, (i + 1) as nat, count as nat);
                    }
                }
                return Err(e);
            },
        };
        let ghost vpos = *pos as int;
        let value = match read_gguf_value(data, pos) {
            Ok(v) => v,
            Err(e) => {
                proof {
                    if pairs_end(data@, p0, count as nat) is Some {
                        lemma_pairs_end_prefix(data@, p0, (i + 1) as nat, count as nat);
                    }
                }
                return Err(e);
            },
        };
        let ghost m0 = m@;
        let ghost key_text = key@;
        let ghost v0 = value;
        m.insert(key, value);
        proof {
            let n = (i + 1) as nat;
            assert(pair_key(data@, p0, i as nat) == key_text);
            assert(pair_value_pos(data@, p0, i as nat) == vpos);
            assert forall|k: Seq<char>| #[trigger] m@.contains_key(k) <==> exists|j: nat|
                j < n && pair_key(data@, p0, j) == k by {
                if m@.contains_key(k) && k != key_text {
                    let j = choose|j: nat| j < i && pair_key(data@, p0, j) == k;
                    assert(j < n);
                }
                if exists|j: nat| j < n && pair_key(data@, p0, j) == k {
                    let j = choose|j: nat| j < n && pair_key(data@, p0, j) == k;
                    if j < i {
                        assert(m0.contains_key(k));
                    }
                }
            }
            assert forall|k: Seq<char>| #[trigger] m@.contains_key(k) implies exists|j: nat|
                j < n && pair_key(data@, p0, j) == k && value_is(data@, pair_value_pos(data@, p0, j), m@[k])
                    && forall|l: nat| j < l < n ==> pair_key(data@, p0, l) != k by {
                if k == key_text {
                    assert(m@[k] == v0);
                    assert(value_is(data@, pair_value_pos(data@, p0, i as nat), m@[k]));
                } else {
                    assert(m0.contains_key(k));
                    let j = choose|j: nat| j < i && pair_key(data@, p0, j) == k && value_is(
                        data@,
                        pair_value_pos(data@, p0, j),
                        m0[k],
                    ) && forall|l: nat| j < l < i ==> pair_key(data@, p0, l) != k;
                    assert(m@[k] == m0[k]);
                    assert forall|l: nat| j < l < n implies pair_key(data@, p0, l) != k by {
                        if l == i {
                            assert(pair_key(data@, p0, l) == key_text);
                        }
                    }
                }
            }
        }
        i = i + 1;
    }
    Ok(m)
}

// ---- Tensor directory ----

/// One tensor directory entry: name, dimensions, GGUF type id and the
/// offset of its data from the start of the data section.
pub struct GgufTensorInfo {
    pub name: String,
    pub dims: Vec<u64>,
    pub type_id: u32,
    pub offset: u64,
}

/// Where the directory entry at `p` ends (name, `u32` dimension count, one
/// `u64` per dimension, `u32` type id, `u64` offset), if well formed.
pub open spec fn info_end(b: Seq<u8>, p: int) -> Option<int> {
    match str_end(b, p) {
        Some(q) => if q + 4 <= b.len() && q + 4 + 8 * u32_at(b, q) + 12 <= b.len() {
            Some(q + 4 + 8 * u32_at(b, q) + 12)
        } else {
            None
        },
        None => None,
    }
}

/// `info` is the directory entry stored at `p`.
pub open spec fn info_is(b: Seq<u8>, p: int, info: GgufTensorInfo) -> bool {
    let q = str_end(b, p)->0;
    let r = q + 4 + 8 * u32_at(b, q);
    &&& info.name@ == str_text(b, p)
    &&& info.dims@.len() == u32_at(b, q)
    &&& forall|i: int| 0 <= i < info.dims@.len() ==> #[trigger] info.dims@[i] == u64_at(b, q + 4 + 8 * i)
    &&& info.type_id == u32_at(b, r)
    &&& info.offset == u64_at(b, r + 4)
}

/// Where `count` directory entries starting at `p` end.
pub open spec fn infos_end(b: Seq<u8>, p: int, count: nat) -> Option<int>
    decreases count,
{
    if count == 0 {
        Some(p)
    } else {
        match infos_end(b, p, (count - 1) as nat) {
            Some(q) => info_end(b, q),
            None => None,
        }
    }
}

proof fn lemma_infos_end_prefix(b: Seq<u8>, p: int, k: nat, count: nat)
    requires
        k <= count,
        infos_end(b, p, count) is Some,
    ensures
        infos_end(b, p, k) is Some,
    decreases count,
{
    if k < count {
        lemma_infos_end_prefix(b, p, k, (count - 1) as nat);
    }
}

fn read_tensor_info(data: &[u8], pos: &mut usize) -> (r: Result<GgufTensorInfo, GgufError>)
    requires
        *old(pos) <= data@.len(),
    ensures
        *final(pos) <= data@.len(),
        match r {
            Ok(info) => info_end(data@, *old(pos) as int) == Some(*final(pos) as int) && info_is(
                data@,
                *old(pos) as int,
                info,
            ),
            Err(_) => info_end(data@, *old(pos) as int) is None,
        },
{
    let ghost p0 = *pos as int;
    let name = read_gguf_string(data, pos)?;
    let ghost q = *pos as int;
    let n_dims = read_u32(data, pos)?;
    let mut dims: Vec<u64> = Vec::new();
    let mut k: u32 = 0;
    while k < n_dims
        invariant
            *pos <= data@.len(),
            p0 == *old(pos) as int,
            str_end(data@, p0) == Some(q),
            name@ == str_text(data@, p0),
            q + 4 <= data@.len(),
            n_dims == u32_at(data@, q),
            k <= n_dims,
            *pos == q + 4 + 8 * k,
            dims@.len() == k,
            forall|i: int| 0 <= i < k ==> #[trigger] dims@[i] == u64_at(data@, q + 4 + 8 * i),
        decreases n_dims - k,
    {
        let d = read_u64(data, pos)?;
        dims.push(d);
        k = k + 1;
    }
    let type_id = read_u32(data, pos)?;
    let offset = read_u64(data, pos)?;
    Ok(GgufTensorInfo { name, dims, type_id, offset })
}

/// Read `count` directory entries at `*pos`.
fn read_tensor_infos(data: &[u8], pos: &mut usize, count: u64) -> (r: Result<Vec<GgufTensorInfo>, GgufError>)
    requires
        *old(pos) <= data@.len(),
    ensures
        *final(pos) <= data@.len(),
        match r {
            Ok(infos) => infos_end(data@, *old(pos) as int, count as nat) == Some(*final(pos) as int)
                && infos@.len() == count && forall|j: int|
                0 <= j < infos@.len() ==> info_is(
                    data@,
                    infos_end(data@, *old(pos) as int, j as nat)->0,
                    #[trigger] infos@[j],
                ),
            Err(_) => infos_end(data@, *old(pos) as int, count as nat) is None,
        },
{
    let ghost p0 = *pos as int;
    let mut infos: Vec<GgufTensorInfo> = Vec::new();
    let mut i: u64 = 0;
    while i < count
        invariant
            *pos <= data@.len(),
            p0 == *old(pos) as int,
            i <= count,
            infos@.len() == i,
            infos_end(data@, p0, i as nat) == Some(*pos as int),
            forall|j: int|
                0 <= j < infos@.len() ==> info_is(data@, infos_end(data@, p0, j as nat)->0, #[trigger] infos@[j]),
        decreases count - i,
    {
        match read_tensor_info(data, pos) {
            Ok(info) => {
                infos.push(info);
            },
            Err(e) => {
                proof {
                    if infos_end(data@, p0, count as nat) is Some {
                        lemma_infos_end_prefix(data@, p0, (i + 1) as nat, count as nat);
                    }
                }
                return Err(e);
            },
        }
        i = i + 1;
    }
    Ok(infos)
}

// ---- Tensor data ----

/// The product of the dimensions (each read as `usize`), multiplying left
/// to right, or `None` when a partial product exceeds `usize::MAX`.
pub open spec fn checked_product(d: Seq<u64>) -> Option<int>
    decreases d.len(),
{
    if d.len() == 0 {
        Some(1)
    } else {
        match checked_product(d.drop_last()) {
            Some(x) => if x * (d.last() as usize) <= usize::MAX {
                Some(x * (d.last() as usize))
            } else {
                None
            },
            None => None,
        }
    }
}

/// The byte range `(start, end)` of a tensor's data when the data section
/// starts at `ds` in a file of `len` bytes: the element count rounded up to
/// whole blocks, times the bytes per block. `None` when a size does not fit
/// in `usize` or the range runs past the end of the file.
pub open spec fn tensor_span(len: int, ds: int, info: GgufTensorInfo) -> Option<(int, int)> {
    match checked_product(info.dims@) {
        Some(ne) => {
            let bs = spec_gguf_block_size(info.type_id) as int;
            let bpb = spec_gguf_block_bytes(info.type_id) as int;
            let nb = (ne + bs - 1) / bs;
            let start = ds + (info.offset as usize);
            if ne + bs - 1 > usize::MAX || nb * bpb > usize::MAX || start > usize::MAX || start + nb * bpb
                > usize::MAX || start + nb * bpb > len {
                None
            } else {
                Some((start, start + nb * bpb))
            }
        },
        None => None,
    }
}

/// The dimensions read as `usize`.
pub open spec fn usize_dims(d: Seq<u64>) -> Seq<usize> {
    d.map_values(|x: u64| x as usize)
}

/// `w` and `meta` are the weight and the metadata loaded for `info`.
pub open spec fn loaded_entry(b: Seq<u8>, ds: int, info: GgufTensorInfo, w: WeightData, meta: TensorMeta) -> bool {
    let span = tensor_span(b.len() as int, ds, info)->0;
    &&& w.data@ == b.subrange(span.0, span.1)
    &&& w.shape@ == usize_dims(info.dims@)
    &&& w.dtype == spec_gguf_dtype(info.type_id)
    &&& meta.shape@ == fixed_dims(usize_dims(info.dims@))
    &&& meta.dtype == spec_gguf_dtype(info.type_id)
    &&& meta.residency == Residency::Resident
}

/// Entry `j` of `infos` has its data inside the file.
pub open spec fn in_file(b: Seq<u8>, ds: int, infos: Seq<GgufTensorInfo>, j: int) -> bool {
    tensor_span(b.len() as int, ds, infos[j]) is Some
}

/// No entry of `infos` after `j` named `k` has its data inside the file.
pub open spec fn last_in_file(b: Seq<u8>, ds: int, infos: Seq<GgufTensorInfo>, j: int, k: Seq<char>) -> bool {
    forall|l: int| j < l < infos.len() && infos[l].name@ == k ==> !in_file(b, ds, infos, l)
}

/// Entry `j` of `infos` is the last one named `k` with data inside the
/// file, and `w` and `meta` were loaded from it.
pub open spec fn entry_for(
    b: Seq<u8>,
    ds: int,
    infos: Seq<GgufTensorInfo>,
    j: int,
    k: Seq<char>,
    w: WeightData,
    meta: TensorMeta,
) -> bool {
    &&& 0 <= j < infos.len()
    &&& infos[j].name@ == k
    &&& in_file(b, ds, infos, j)
    &&& loaded_entry(b, ds, infos[j], w, meta)
    &&& last_in_file(b, ds, infos, j, k)
}

/// `weights` and `tensors` hold, for each name, the last entry of `infos`
/// with that name whose data lies inside the file; entries outside the
/// file are skipped.
pub open spec fn loaded(
    b: Seq<u8>,
    ds: int,
    infos: Seq<GgufTensorInfo>,
    weights: Map<Seq<char>, WeightData>,
    tensors: Map<Seq<char>, TensorMeta>,
) -> bool {
    &&& forall|k: Seq<char>| #[trigger] weights.contains_key(k) <==> tensors.contains_key(k)
    &&& forall|k: Seq<char>|
        #[trigger] weights.contains_key(k) <==> exists|j: int|
            0 <= j < infos.len() && infos[j].name@ == k && in_file(b, ds, infos, j)
    &&& forall|k: Seq<char>|
        #[trigger] weights.contains_key(k) ==> exists|j: int| #[trigger] entry_for(b, ds, infos, j, k, weights[k], tensors[k])
}

proof fn lemma_checked_product_nonneg(d: Seq<u64>)
    ensures
        checked_product(d) matches Some(x) ==> x >= 0,
    decreases d.len(),
{
    if d.len() > 0 {
        lemma_checked_product_nonneg(d.drop_last());
        if let Some(x) = checked_product(d.drop_last()) {
            let y = d.last() as usize;
            assert(x * y >= 0) by (nonlinear_arith)
                requires
                    x >= 0,
                    y >= 0,
            ;
        }
    }
}

/// A tensor's byte range is an ordered range inside the file.
proof fn lemma_span_ordered(len: int, ds: int, info: GgufTensorInfo)
    requires
        ds >= 0,
    ensures
        tensor_span(len, ds, info) matches Some(span) ==> 0 <= span.0 <= span.1 <= len,
{
    lemma_checked_product_nonneg(info.dims@);
    if let Some(ne) = checked_product(info.dims@) {
        let bs = spec_gguf_block_size(info.type_id) as int;
        let bpb = spec_gguf_block_bytes(info.type_id) as int;
        assert(bs >= 1);
        let nb = (ne + bs - 1) / bs;
        assert(nb >= 0) by (nonlinear_arith)
            requires
                ne >= 0,
                bs >= 1,
                nb == (ne + bs - 1) / bs,
        ;
        assert(nb * bpb >= 0) by (nonlinear_arith)
            requires
                nb >= 0,
                bpb >= 0,
        ;
    }
}

/// Byte range of a tensor's data, as `tensor_span` describes.
fn tensor_span_exec(len: usize, ds: usize, info: &GgufTensorInfo) -> (r: Option<(usize, usize)>)
    ensures
        match tensor_span(len as int, ds as int, *info) {
            Some(span) => r == Some((span.0 as usize, span.1 as usize)),
            None => r is None,
        },
{
    let mut ne: usize = 1;
    let mut i: usize = 0;
    while i < info.dims.len()
        invariant
            i <= info.dims@.len(),
            checked_product(info.dims@.take(i as int)) == Some(ne as int),
        decreases info.dims@.len() - i,
    {
        proof {
            assert(info.dims@.take(i + 1).drop_last() =~= info.dims@.take(i as int));
        }
        match ne.checked_mul(info.dims[i] as usize) {
            Some(x) => {
                ne = x;
            },
            None => {
                proof {
                    lemma_checked_product_none(info.dims@, (i + 1) as int);
                }
                return None;
            },
        }
        i = i + 1;
    }
    proof {
        assert(info.dims@.take(i as int) =~= info.dims@);
    }
    let bs = gguf_type_block_size(info.type_id);
    let bpb = gguf_type_bytes_per_block(info.type_id);
    let padded = match ne.checked_add(bs - 1) {
        Some(x) => x,
        None => {
            return None;
        },
    };
    let nb = padded / bs;
    let bytes = match nb.checked_mul(bpb) {
        Some(x) => x,
        None => {
            return None;
        },
    };
    let start = match ds.checked_add(info.offset as usize) {
        Some(x) => x,
        None => {
            return None;
        },
    };
    let end = match start.checked_add(bytes) {
        Some(x) => x,
        None => {
            return None;
        },
    };
    if end > len {
        return None;
    }
    Some((start, end))
}

/// A failed partial product makes the whole product fail.
proof fn lemma_checked_product_none(d: Seq<u64>, k: int)
    requires
        0 <= k <= d.len(),
        checked_product(d.take(k)) is None,
    ensures
        checked_product(d) is None,
    decreases d.len() - k,
{
    if k < d.len() {
        assert(d.take(k + 1).drop_last() =~= d.take(k));
        lemma_checked_product_none(d, k + 1);
    } else {
        assert(d.take(k) =~= d);
    }
}

/// The dimensions as `usize`.
fn dims_to_usize(d: &Vec<u64>) -> (r: Vec<usize>)
    ensures
        r@ == usize_dims(d@),
{
    let mut r: Vec<usize> = Vec::new();
    let mut i: usize = 0;
    while i < d.len()
        invariant
            i <= d@.len(),
            r@ == usize_dims(d@.take(i as int)),
        decreases d@.len() - i,
    {
        r.push(d[i] as usize);
        i = i + 1;
        proof {
            assert(r@ =~= usize_dims(d@.take(i as int)));
        }
    }
    proof {
        assert(d@.take(i as int) =~= d@);
    }
    r
}

/// Load the data of each directory entry into a graph of weights.
fn load_tensors(data: &[u8], ds: usize, infos: Vec<GgufTensorInfo>) -> (g: Graph)
    ensures
        g.nodes@.len() == 0,
        loaded(data@, ds as int, infos@, g.weights@, g.tensors@),
{
    let ghost all = infos@;
    assert(all.len() == infos.len());
    let mut g = Graph::new();
    let mut idx: usize = 0;
    for info in it: infos.into_iter()
        invariant
            it.seq() == all,
            all.len() <= usize::MAX,
            idx == it.index(),
            g.nodes@.len() == 0,
            loaded(data@, ds as int, all.take(idx as int), g.weights@, g.tensors@),
    {
        let ghost pre = all.take(idx as int);
        let ghost post = all.take(idx + 1);
        let ghost w0 = g.weights@;
        let ghost t0 = g.tensors@;
        proof {
            assert(post =~= pre.push(info));
        }
        proof {
            lemma_span_ordered(data@.len() as int, ds as int, info);
        }
        match tensor_span_exec(data.len(), ds, &info) {
            Some((a, e)) => {
                let dtype = gguf_type_to_dtype(info.type_id);
                let raw = slice_to_vec(slice_subrange(data, a, e));
                let meta = TensorMeta::weight(dims_to_usize(&info.dims), dtype);
                let w = WeightData { data: raw, shape: dims_to_usize(&info.dims), dtype };
                let ghost k0 = info.name@;
                let ghost wv = w;
                let ghost mv = meta;
                g.add_tensor(info.name.clone(), meta);
                g.add_weight(info.name, w);
                proof {
                    assert(in_file(data@, ds as int, post, idx as int));
                    assert(loaded_entry(data@, ds as int, post[idx as int], wv, mv));
                    assert forall|k: Seq<char>| #[trigger] g.weights@.contains_key(k) <==> exists|j: int|
                        0 <= j < post.len() && post[j].name@ == k && in_file(data@, ds as int, post, j) by {
                        if k == k0 {
                            assert(post[idx as int].name@ == k);
                            assert(in_file(data@, ds as int, post, idx as int));
                        }
                        if g.weights@.contains_key(k) && k != k0 {
                            assert(w0.contains_key(k));
                            let j = choose|j: int|
                                0 <= j < pre.len() && pre[j].name@ == k && in_file(data@, ds as int, pre, j);
                            assert(post[j] == pre[j]);
                            assert(post[j].name@ == k && in_file(data@, ds as int, post, j));
                        }
                        if exists|j: int| 0 <= j < post.len() && post[j].name@ == k && in_file(data@, ds as int, post, j) {
                            let j = choose|j: int|
                                0 <= j < post.len() && post[j].name@ == k && in_file(data@, ds as int, post, j);
                            if j < pre.len() {
                                assert(post[j] == pre[j]);
                                assert(pre[j].name@ == k && in_file(data@, ds as int, pre, j));
                                assert(w0.contains_key(k));
                            }
                        }
                    }
                    assert forall|k: Seq<char>| #[trigger] g.weights@.contains_key(k) implies exists|j: int|
                        #[trigger] entry_for(data@, ds as int, post, j, k, g.weights@[k], g.tensors@[k]) by {
                        if k == k0 {
                            assert(g.weights@[k] == wv);
                            assert(g.tensors@[k] == mv);
                            assert(post[idx as int].name@ == k);
                            assert(loaded_entry(data@, ds as int, post[idx as int], g.weights@[k], g.tensors@[k]));
                            assert(last_in_file(data@, ds as int, post, idx as int, k));
                            assert(entry_for(data@, ds as int, post, idx as int, k, g.weights@[k], g.tensors@[k]));
                        } else {
                            assert(w0.contains_key(k));
                            let j = choose|j: int| #[trigger] entry_for(data@, ds as int, pre, j, k, w0[k], t0[k]);
                            assert(post[j] == pre[j]);
                            assert(g.weights@[k] == w0[k]);
                            assert(g.tensors@[k] == t0[k]);
                            assert(loaded_entry(data@, ds as int, post[j], g.weights@[k], g.tensors@[k]));
                            assert forall|l: int| j < l < post.len() && post[l].name@ == k implies !in_file(data@, ds as int, post, l) by {
                                if l < pre.len() {
                                    assert(post[l] == pre[l]);
                                    assert(pre[l].name@ == k);
                                    assert(!in_file(data@, ds as int, pre, l));
                                } else {
                                    assert(post[l].name@ == k0);
                                }
                            }
                            assert(entry_for(data@, ds as int, post, j, k, g.weights@[k], g.tensors@[k]));
                        }
                    }
                }
            },
            None => {
                proof {
                    assert(!in_file(data@, ds as int, post, idx as int));
                    assert forall|k: Seq<char>| #[trigger] g.weights@.contains_key(k) <==> exists|j: int|
                        0 <= j < post.len() && post[j].name@ == k && in_file(data@, ds as int, post, j) by {
                        if g.weights@.contains_key(k) {
                            let j = choose|j: int|
                                0 <= j < pre.len() && pre[j].name@ == k && in_file(data@, ds as int, pre, j);
                            assert(post[j] == pre[j]);
                            assert(post[j].name@ == k && in_file(data@, ds as int, post, j));
                        }
                        if exists|j: int| 0 <= j < post.len() && post[j].name@ == k && in_file(data@, ds as int, post, j) {
                            let j = choose|j: int|
                                0 <= j < post.len() && post[j].name@ == k && in_file(data@, ds as int, post, j);
                            assert(post[j] == pre[j]);
                            assert(pre[j].name@ == k && in_file(data@, ds as int, pre, j));
                        }
                    }
                    assert forall|k: Seq<char>| #[trigger] g.weights@.contains_key(k) implies exists|j: int|
                        #[trigger] entry_for(data@, ds as int, post, j, k, g.weights@[k], g.tensors@[k]) by {
                        assert(w0.contains_key(k));
                        let j = choose|j: int| #[trigger] entry_for(data@, ds as int, pre, j, k, w0[k], t0[k]);
                        assert(post[j] == pre[j]);
                        assert(loaded_entry(data@, ds as int, post[j], g.weights@[k], g.tensors@[k]));
                        assert forall|l: int| j < l < post.len() && post[l].name@ == k implies !in_file(data@, ds as int, post, l) by {
                            if l < pre.len() {
                                assert(post[l] == pre[l]);
                                assert(pre[l].name@ == k);
                                assert(!in_file(data@, ds as int, pre, l));
                            }
                        }
                        assert(entry_for(data@, ds as int, post, j, k, g.weights@[k], g.tensors@[k]));
                    }
                }
            },
        }
        idx = idx + 1;
    }
    proof {
        assert(all.take(idx as int) =~= all);
    }
    g
}

// ---- Whole file ----

/// The file starts with the magic bytes "GGUF".
pub open spec fn has_magic(b: Seq<u8>) -> bool {
    b[0] == 71 && b[1] == 71 && b[2] == 85 && b[3] == 70
}

/// Tensor count, metadata pair count and where the metadata starts: `u64`
/// counts from version 3 on, `u32` counts before.
pub open spec fn header_counts(b: Seq<u8>) -> (u64, u64, int) {
    if u32_at(b, 4) >= 3 {
        (u64_at(b, 8), u64_at(b, 16), 24)
    } else {
        (u32_at(b, 8) as u64, u32_at(b, 12) as u64, 16)
    }
}

/// Where the tensor directory starts, if the metadata is well formed.
pub open spec fn directory_start(b: Seq<u8>) -> Option<int> {
    pairs_end(b, header_counts(b).2, header_counts(b).1 as nat)
}

/// Where the header ends, if the metadata and the directory are well formed.
pub open spec fn header_end(b: Seq<u8>) -> Option<int> {
    match directory_start(b) {
        Some(d) => infos_end(b, d, header_counts(b).0 as nat),
        None => None,
    }
}

/// `h` rounded up to a multiple of 32.
pub open spec fn align32(h: int) -> int {
    (h + 31) / 32 * 32
}

/// The directory entries stored from `d` on are `infos`, and `g` and `m`
/// hold what was loaded from them and from the metadata.
pub open spec fn gguf_contents(b: Seq<u8>, infos: Seq<GgufTensorInfo>, g: Graph, m: Map<Seq<char>, GgufValue>) -> bool {
    let d = directory_start(b)->0;
    &&& metadata_is(b, header_counts(b).2, header_counts(b).1 as nat, m)
    &&& g.nodes@.len() == 0
    &&& infos.len() == header_counts(b).0
    &&& forall|j: int| 0 <= j < infos.len() ==> info_is(b, infos_end(b, d, j as nat)->0, #[trigger] infos[j])
    &&& loaded(b, align32(header_end(b)->0), infos, g.weights@, g.tensors@)
}

/// `g` and `m` are what a GGUF file `b` holds: the metadata, and the data of
/// the tensors of its directory that lie inside the file.
pub open spec fn gguf_parsed(b: Seq<u8>, g: Graph, m: Map<Seq<char>, GgufValue>) -> bool {
    exists|infos: Seq<GgufTensorInfo>| #[trigger] gguf_contents(b, infos, g, m)
}

/// Parse a whole GGUF file: its metadata, and a graph holding the data of
/// every tensor whose bytes lie inside the file (others are skipped). The
/// data section starts at the end of the header rounded up to 32 bytes.
pub fn parse_gguf(data: &[u8]) -> (r: Result<(Graph, NameMap<GgufValue>), GgufError>)
    requires
        data@.len() <= isize::MAX,
    ensures
        data@.len() < 24 ==> (r matches Err(e) && e == GgufError::TooSmall),
        data@.len() >= 24 && !has_magic(data@) ==> (r matches Err(e) && e == GgufError::BadMagic(
            data@[0],
            data@[1],
            data@[2],
            data@[3],
        )),
        r is Ok <==> data@.len() >= 24 && has_magic(data@) && header_end(data@) is Some,
        r matches Ok((g, m)) ==> gguf_parsed(data@, g, m@),
{
    if data.len() < 24 {
        return Err(GgufError::TooSmall);
    }
    if !(data[0] == 71 && data[1] == 71 && data[2] == 85 && data[3] == 70) {
        return Err(GgufError::BadMagic(data[0], data[1], data[2], data[3]));
    }
    let mut pos: usize = 4;
    let version = read_u32(data, &mut pos)?;
    let tensor_count = if version >= 3 {
        read_u64(data, &mut pos)?
    } else {
        let c = read_u32(data, &mut pos)?;
        c as u64
    };
    let metadata_count = if version >= 3 {
        read_u64(data, &mut pos)?
    } else {
        let c = read_u32(data, &mut pos)?;
        c as u64
    };
    let ghost meta_start = pos as int;
    let metadata = read_metadata(data, &mut pos, metadata_count)?;
    let ghost dir = pos as int;
    let infos = match read_tensor_infos(data, &mut pos, tensor_count) {
        Ok(i) => i,
        Err(e) => {
            return Err(e);
        },
    };
    let ghost infos_v = infos@;
    let data_start = (pos + 31) / 32 * 32;
    let g = load_tensors(data, data_start, infos);
    proof {
        assert(directory_start(data@) == Some(dir));
        assert(header_end(data@) == Some(pos as int));
        assert(metadata_is(data@, header_counts(data@).2, header_counts(data@).1 as nat, metadata@));
        assert(infos_v.len() == header_counts(data@).0);
        assert(loaded(data@, align32(header_end(data@)->0), infos_v, g.weights@, g.tensors@));
        assert(gguf_contents(data@, infos_v, g, metadata@));
        assert(gguf_parsed(data@, g, metadata@));
    }
    Ok((g, metadata))
}

} // verus!
