//! Safetensors files: an 8-byte little-endian header size, a UTF-8 JSON
//! header describing each tensor (`dtype`, `shape`, `data_offsets`
//! relative to the end of the header), then the raw tensor data.

use vstd::prelude::*;
use vstd::bytes::u64_from_le_bytes;
use vstd::slice::{slice_subrange, slice_to_vec};
use vstd::utf8::{decode_utf8, valid_utf8};
use crate::dtype::DType;
use crate::gguf::{string_from_utf8, u64_at};
use crate::graph::{fixed_dims, Graph, Residency, TensorMeta, WeightData};
use crate::text::str_eq;

verus! {

/// Why a safetensors file is refused before its header is read.
#[derive(Clone, Copy, Debug, PartialEq, Eq, Structural)]
pub enum SafetensorsError {
    /// Fewer than 8 bytes.
    TooSmall,
    /// The header does not fit in the file.
    HeaderTooLarge { header_size: usize, file_size: usize },
    /// The header is not UTF-8.
    HeaderNotUtf8,
}

/// A tensor descriptor of the JSON header, keyed by its name.
pub struct SafetensorsEntry {
    pub name: String,
    /// The dtype string (`F32`, `F16`, `BF16`, `I8`, `U8`, ...).
    pub dtype: String,
    pub shape: Vec<usize>,
    /// `data_offsets[0]`, relative to the end of the header.
    pub start: u64,
    /// `data_offsets[1]`, relative to the end of the header.
    pub end: u64,
}

/// The header size field (the first 8 bytes, little-endian), as `usize`.
pub open spec fn header_size(b: Seq<u8>) -> usize {
    u64_at(b, 0) as usize
}

/// The header can be located without overflow: its end, 8 plus its size,
/// fits in `usize`.
pub open spec fn header_end_fits(b: Seq<u8>) -> bool {
    b.len() >= 8 ==> 8 + header_size(b) <= usize::MAX
}

/// Locate and decode the JSON header. Returns the header text and the
/// offset where the tensor data starts (8 plus the header size).
pub fn safetensors_header(data: &[u8]) -> (r: Result<(String, usize), SafetensorsError>)
    requires
        header_end_fits(data@),
    ensures
        data@.len() < 8 ==> r == Err::<(String, usize), SafetensorsError>(SafetensorsError::TooSmall),
        data@.len() >= 8 && 8 + header_size(data@) > data@.len() ==> r == Err::<(String, usize), SafetensorsError>(
            SafetensorsError::HeaderTooLarge { header_size: header_size(data@), file_size: data@.len() as usize },
        ),
        data@.len() >= 8 && 8 + header_size(data@) <= data@.len() ==> {
            let h = data@.subrange(8, 8 + header_size(data@));
            &&& !valid_utf8(h) ==> r == Err::<(String, usize), SafetensorsError>(SafetensorsError::HeaderNotUtf8)
            &&& valid_utf8(h) ==> (r matches Ok((s, ds)) && s@ == decode_utf8(h) && ds == 8 + header_size(data@))
        },
{
    if data.len() < 8 {
        return Err(SafetensorsError::TooSmall);
    }
    let size = u64_from_le_bytes(slice_subrange(data, 0, 8)) as usize;
    if 8 + size > data.len() {
        return Err(SafetensorsError::HeaderTooLarge { header_size: size, file_size: data.len() });
    }
    let bytes = slice_to_vec(slice_subrange(data, 8, 8 + size));
    match string_from_utf8(bytes) {
        Some(s) => Ok((s, 8 + size)),
        None => Err(SafetensorsError::HeaderNotUtf8),
    }
}

/// The element type of a dtype string (unknown ones read as `F32`).
pub open spec fn spec_st_dtype(s: Seq<char>) -> DType {
    if s == "F32"@ {
        DType::F32
    } else if s == "F16"@ {
        DType::F16
    } else if s == "BF16"@ {
        DType::BF16
    } else if s == "I8"@ {
        DType::I8
    } else if s == "U8"@ {
        DType::U8
    } else {
        DType::F32
    }
}

/// The element type of a dtype string (unknown ones read as `F32`).
pub fn safetensors_dtype(s: &str) -> (d: DType)
    ensures
        d == spec_st_dtype(s@),
{
    if str_eq(s, "F32") {
        DType::F32
    } else if str_eq(s, "F16") {
        DType::F16
    } else if str_eq(s, "BF16") {
        DType::BF16
    } else if str_eq(s, "I8") {
        DType::I8
    } else if str_eq(s, "U8") {
        DType::U8
    } else {
        DType::F32
    }
}

/// A loaded tensor: its bytes, shape and type.
pub struct WeightView {
    pub data: Seq<u8>,
    pub shape: Seq<usize>,
    pub dtype: DType,
}

/// The key of the header's metadata object, which is not a tensor.
pub open spec fn metadata_key() -> Seq<char> {
    "__metadata__"@
}

/// Where the data of `e` lies, when it ends inside the file.
pub open spec fn st_range(len: int, ds: int, e: SafetensorsEntry) -> Option<(int, int)> {
    let a = ds + (e.start as usize);
    let b = ds + (e.end as usize);
    if b > len {
        None
    } else {
        Some((a, b))
    }
}

/// The tensors loaded from the entries, later entries replacing earlier
/// ones with the same name; the metadata key and entries ending past the
/// file are skipped.
pub open spec fn st_loaded(data: Seq<u8>, ds: int, es: Seq<SafetensorsEntry>) -> Map<Seq<char>, WeightView>
    decreases es.len(),
{
    if es.len() == 0 {
        Map::empty()
    } else {
        let rest = st_loaded(data, ds, es.drop_last());
        let e = es.last();
        if e.name@ == metadata_key() {
            rest
        } else {
            match st_range(data.len() as int, ds, e) {
                Some((a, b)) => rest.insert(
                    e.name@,
                    WeightView { data: data.subrange(a, b), shape: e.shape@, dtype: spec_st_dtype(e.dtype@) },
                ),
                None => rest,
            }
        }
    }
}

/// The byte offsets of every entry fit in `usize`, and an entry ending
/// inside the file does not start after its end.
pub open spec fn entries_fit(len: int, ds: int, es: Seq<SafetensorsEntry>) -> bool {
    forall|j: int| 0 <= j < es.len() ==> {
        &&& ds + ((#[trigger] es[j]).start as usize) <= usize::MAX
        &&& ds + (es[j].end as usize) <= usize::MAX
        &&& ds + (es[j].end as usize) <= len ==> (es[j].start as usize) <= (es[j].end as usize)
    }
}

/// `w` and `meta` hold the tensor `v`.
pub open spec fn holds(w: WeightData, meta: TensorMeta, v: WeightView) -> bool {
    &&& w.data@ == v.data
    &&& w.shape@ == v.shape
    &&& w.dtype == v.dtype
    &&& meta.shape@ == fixed_dims(v.shape)
    &&& meta.dtype == v.dtype
    &&& meta.residency == Residency::Resident
}

/// Build the graph of weights described by the header entries, the
/// tensor data starting at `ds`: each tensor (but the metadata key) whose
/// data ends inside the file is registered with `Resident` metadata and
/// its bytes; one ending past the file is skipped.
pub fn safetensors_graph(data: &[u8], ds: usize, entries: Vec<SafetensorsEntry>) -> (g: Graph)
    requires
        ds <= data@.len(),
        entries_fit(data@.len() as int, ds as int, entries@),
    ensures
        g.nodes@.len() == 0,
        g.weights@.dom() == st_loaded(data@, ds as int, entries@).dom(),
        g.tensors@.dom() == st_loaded(data@, ds as int, entries@).dom(),
        forall|k: Seq<char>| #[trigger] g.weights@.contains_key(k) ==> holds(
            g.weights@[k],
            g.tensors@[k],
            st_loaded(data@, ds as int, entries@)[k],
        ),
{
    let ghost all = entries@;
    assert(all.len() == entries.len());
    let mut g = Graph::new();
    let mut idx: usize = 0;
    proof {
        assert(all.take(0) =~= Seq::<SafetensorsEntry>::empty());
    }
    for e in it: entries.into_iter()
        invariant
            it.seq() == all,
            all.len() <= usize::MAX,
            idx == it.index(),
            ds <= data@.len(),
            entries_fit(data@.len() as int, ds as int, all),
            g.nodes@.len() == 0,
            g.weights@.dom() == st_loaded(data@, ds as int, all.take(idx as int)).dom(),
            g.tensors@.dom() == st_loaded(data@, ds as int, all.take(idx as int)).dom(),
            forall|k: Seq<char>| #[trigger] g.weights@.contains_key(k) ==> holds(
                g.weights@[k],
                g.tensors@[k],
                st_loaded(data@, ds as int, all.take(idx as int))[k],
            ),
    {
        proof {
            assert(all.take(idx + 1).drop_last() =~= all.take(idx as int));
            assert(all.take(idx + 1).last() == all[idx as int]);
            assert(e == all[idx as int]);
        }
        if !str_eq(e.name.as_str(), "__metadata__") {
            let start = ds + e.start as usize;
            let end = ds + e.end as usize;
            if end <= data.len() {
                let dtype = safetensors_dtype(e.dtype.as_str());
                let raw = slice_to_vec(slice_subrange(data, start, end));
                let shape_w = clone_dims(&e.shape);
                let ghost v = WeightView { data: raw@, shape: e.shape@, dtype };
                let ghost name = e.name@;
                let meta = TensorMeta::weight(e.shape, dtype);
                let w = WeightData { data: raw, shape: shape_w, dtype };
                proof {
                    assert(holds(w, meta, v));
                }
                g.add_tensor(crate::text::owned(e.name.as_str()), meta);
                g.add_weight(e.name, w);
                proof {
                    assert(g.weights@.dom() =~= st_loaded(data@, ds as int, all.take(idx + 1)).dom());
                    assert(g.tensors@.dom() =~= st_loaded(data@, ds as int, all.take(idx + 1)).dom());
                }
            }
        }
        idx = idx + 1;
    }
    proof {
        assert(all.take(idx as int) =~= all);
    }
    g
}

/// A copy of the dimensions.
pub(crate) fn clone_dims(v: &Vec<usize>) -> (r: Vec<usize>)
    ensures
        r@ == v@,
{
    let r = v.clone();
    proof {
        assert(r@ =~= v@);
    }
    r
}

} // verus!
