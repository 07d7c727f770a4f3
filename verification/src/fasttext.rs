//! Raw `.bin` weight files: a fasttext embedding matrix (`[magic]`, vocab
//! size, hidden size as `i32`, then `vocab * hidden` f32 values), or else a
//! headerless dump of f32 values.

use vstd::prelude::*;
use vstd::slice::{slice_subrange, slice_to_vec};
use crate::dtype::DType;
use crate::ggml::u32_le;
use crate::gguf::u32_at;
use crate::graph::{fixed_dims, Graph, Residency, TensorMeta, WeightData};
use crate::text::owned;

verus! {

/// The magic of fasttext v2 files ("FT2\0").
pub const FASTTEXT_MAGIC: u32 = 0x46543200;

/// Why a `.bin` file is refused.
#[derive(Clone, Copy, Debug, PartialEq, Eq, Structural)]
pub enum BinError {
    /// Fewer than 12 bytes.
    TooSmall,
    /// A v2 file (with the magic) of fewer than 16 bytes.
    TooSmallV2,
    /// Not an embedding matrix, and not a whole number of f32 values.
    NotF32Aligned,
    /// The embedding matrix runs past the end of the file.
    OutOfBounds { need: usize, offset: usize, len: usize },
}

/// The `i32` at `p`, widened to `usize` with its sign: a negative value
/// lands at the top of the `usize` range.
pub open spec fn i32_usize_at(b: Seq<u8>, p: int) -> usize {
    signed_word_usize(u32_at(b, p))
}

/// A 32-bit word read as `i32` and widened to `usize` with its sign.
pub open spec fn signed_word_usize(w: u32) -> usize {
    if w < 0x8000_0000 {
        w as usize
    } else {
        (usize::MAX - (0xFFFF_FFFFu32 - w)) as usize
    }
}

/// The word `w` read as `i32` and widened to `usize` with its sign.
fn widen_signed(w: u32) -> (r: usize)
    ensures
        r == signed_word_usize(w),
{
    if w < 0x8000_0000 {
        w as usize
    } else {
        usize::MAX - (0xFFFF_FFFFu32 - w) as usize
    }
}

/// The file is a v2 fasttext file: it opens with the magic.
pub open spec fn has_magic(b: Seq<u8>) -> bool {
    u32_at(b, 0) == FASTTEXT_MAGIC
}

/// A headerless file is a v1 fasttext matrix: sizes in range and the data
/// present.
pub open spec fn v1_matrix(b: Seq<u8>) -> bool {
    let v = i32_usize_at(b, 0);
    let h = i32_usize_at(b, 4);
    &&& 0 < v < 10_000_000
    &&& 0 < h < 100_000
    &&& v * h * 4 > 0
    &&& b.len() - 8 >= v * h * 4
}

/// The bytes of a `[v, h]` f32 matrix, saturated at `usize::MAX`.
pub open spec fn matrix_bytes(v: usize, h: usize) -> usize {
    if v * h * 4 <= usize::MAX {
        (v * h * 4) as usize
    } else {
        usize::MAX
    }
}

/// The one weight of a loaded file.
pub open spec fn single_weight(g: Graph, name: Seq<char>, shape: Seq<usize>, data: Seq<u8>) -> bool {
    &&& g.nodes@.len() == 0
    &&& g.weights@.dom() == set![name]
    &&& g.tensors@.dom() == set![name]
    &&& g.weights@[name].data@ == data
    &&& g.weights@[name].shape@ == shape
    &&& g.weights@[name].dtype == DType::F32
    &&& g.tensors@[name].shape@ == fixed_dims(shape)
    &&& g.tensors@[name].dtype == DType::F32
    &&& g.tensors@[name].residency == Residency::Resident
}

/// The matrix `[v, h]` at `off`, if it fits.
pub open spec fn matrix_result(b: Seq<u8>, v: usize, h: usize, off: int, r: Result<Graph, BinError>) -> bool {
    if off + v * h * 4 > b.len() {
        r == Err::<Graph, BinError>(BinError::OutOfBounds { need: matrix_bytes(v, h), offset: off as usize, len: b.len() as usize })
    } else {
        r matches Ok(g) && single_weight(g, "embeddings.weight"@, seq![v, h], b.subrange(off, off + v * h * 4))
    }
}

/// The bytes of a `[v, h]` f32 matrix, saturated at `usize::MAX`.
fn matrix_size(v: usize, h: usize) -> (r: usize)
    ensures
        r == matrix_bytes(v, h),
{
    match v.checked_mul(h) {
        Some(vh) => match vh.checked_mul(4) {
            Some(b) => b,
            None => {
                proof {
                    assert(v * h * 4 > usize::MAX);
                }
                usize::MAX
            },
        },
        None => {
            proof {
                assert(v * h * 4 > usize::MAX) by (nonlinear_arith)
                    requires
                        v * h > usize::MAX,
                ;
            }
            usize::MAX
        },
    }
}

/// The graph of one weight.
fn one_weight(name: &str, shape: Vec<usize>, data: Vec<u8>) -> (g: Graph)
    ensures
        single_weight(g, name@, shape@, data@),
{
    let mut g = Graph::new();
    let meta = TensorMeta::weight(crate::safetensors::clone_dims(&shape), DType::F32);
    g.add_tensor(owned(name), meta);
    g.add_weight(owned(name), WeightData { data, shape, dtype: DType::F32 });
    proof {
        assert(g.weights@.dom() =~= set![name@]);
        assert(g.tensors@.dom() =~= set![name@]);
    }
    g
}

/// Load a `.bin` file: with the fasttext magic, the `[vocab, hidden]`
/// matrix after a 12-byte header; else a v1 header of plausible sizes
/// (vocab below 10 million, hidden below 100 000) whose data is present,
/// giving the matrix after 8 bytes; else the whole file as one flat f32
/// tensor `weight`.
pub fn bin_graph(data: &[u8]) -> (r: Result<Graph, BinError>)
    ensures
        data@.len() < 12 ==> r == Err::<Graph, BinError>(BinError::TooSmall),
        data@.len() >= 12 && has_magic(data@) && data@.len() < 16 ==> r == Err::<Graph, BinError>(BinError::TooSmallV2),
        data@.len() >= 16 && has_magic(data@) ==> matrix_result(data@, i32_usize_at(data@, 4), i32_usize_at(data@, 8), 12, r),
        data@.len() >= 12 && !has_magic(data@) && v1_matrix(data@) ==> matrix_result(
            data@,
            i32_usize_at(data@, 0),
            i32_usize_at(data@, 4),
            8,
            r,
        ),
        data@.len() >= 12 && !has_magic(data@) && !v1_matrix(data@) ==> if data@.len() % 4 != 0 {
            r == Err::<Graph, BinError>(BinError::NotF32Aligned)
        } else {
            r matches Ok(g) && single_weight(g, "weight"@, seq![(data@.len() / 4) as usize], data@)
        },
{
    let n = data.len();
    if n < 12 {
        return Err(BinError::TooSmall);
    }
    let first = u32_le(data, 0);
    let (vocab, hidden, offset): (usize, usize, usize) = if first == FASTTEXT_MAGIC {
        if n < 16 {
            return Err(BinError::TooSmallV2);
        }
        (widen_signed(u32_le(data, 4)), widen_signed(u32_le(data, 8)), 12)
    } else {
        let v = widen_signed(u32_le(data, 0));
        let h = widen_signed(u32_le(data, 4));
        let expected = matrix_size(v, h);
        let remaining = n - 8;
        if v > 0 && v < 10_000_000 && h > 0 && h < 100_000 && expected > 0 && remaining >= expected {
            (v, h, 8)
        } else {
            if n % 4 != 0 {
                return Err(BinError::NotF32Aligned);
            }
            let all = slice_to_vec(data);
            let shape = vec![n / 4];
            proof {
                assert(shape@ =~= seq![(data@.len() / 4) as usize]);
            }
            return Ok(one_weight("weight", shape, all));
        }
    };
    let bytes = matrix_size(vocab, hidden);
    if bytes > n - offset {
        return Err(BinError::OutOfBounds { need: bytes, offset, len: n });
    }
    let end = offset + bytes;
    let raw = slice_to_vec(slice_subrange(data, offset, end));
    let shape = vec![vocab, hidden];
    proof {
        assert(shape@ =~= seq![vocab, hidden]);
    }
    Ok(one_weight("embeddings.weight", shape, raw))
}

} // verus!
