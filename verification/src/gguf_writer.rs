//! GGUF image writer: the bytes of a version-3 GGUF file holding the given
//! metadata and tensors.

use vstd::prelude::*;
use vstd::bytes::{spec_u32_to_le_bytes, spec_u64_to_le_bytes, u32_to_le_bytes, u64_to_le_bytes};
use vstd::utf8::encode_utf8;
use crate::quantize::MetaValue;

verus! {

/// A tensor to write: name, dimensions, GGML type id and raw data.
pub struct TensorEntry {
    pub name: String,
    pub shape: Vec<u64>,
    pub ggml_type: u32,
    pub data: Vec<u8>,
}

/// Little-endian bytes of a `u32`.
pub open spec fn le32(x: u32) -> Seq<u8> {
    spec_u32_to_le_bytes(x)
}

/// Little-endian bytes of a `u64`.
pub open spec fn le64(x: u64) -> Seq<u8> {
    spec_u64_to_le_bytes(x)
}

/// A GGUF string: its UTF-8 byte length as `u64`, then the bytes.
pub open spec fn enc_string(s: Seq<char>) -> Seq<u8> {
    le64(encode_utf8(s).len() as u64) + encode_utf8(s)
}

/// A tagged metadata value.
pub open spec fn enc_value(v: MetaValue) -> Seq<u8> {
    match v {
        MetaValue::String(s) => le32(8) + enc_string(s@),
        MetaValue::U32(x) => le32(4) + le32(x),
        MetaValue::U64(x) => le32(10) + le64(x),
        MetaValue::I32(x) => le32(5) + le32(x as u32),
        MetaValue::F32(f) => le32(6) + le32(f.0),
    }
}

/// The key/value pairs.
pub open spec fn enc_metas(m: Seq<(String, MetaValue)>) -> Seq<u8>
    decreases m.len(),
{
    if m.len() == 0 {
        seq![]
    } else {
        enc_metas(m.drop_last()) + enc_string(m.last().0@) + enc_value(m.last().1)
    }
}

/// The dimensions, one `u64` each.
pub open spec fn enc_dims(d: Seq<u64>) -> Seq<u8>
    decreases d.len(),
{
    if d.len() == 0 {
        seq![]
    } else {
        enc_dims(d.drop_last()) + le64(d.last())
    }
}

/// `n` rounded up to a multiple of 32.
pub open spec fn aligned(n: int) -> int {
    (n + 31) / 32 * 32
}

/// Where the data of tensor `k` starts within the data section: the data
/// of the tensors before it, each padded to 32 bytes.
pub open spec fn data_offset(ts: Seq<TensorEntry>, k: int) -> int
    decreases k,
{
    if k <= 0 {
        0
    } else {
        data_offset(ts, k - 1) + aligned(ts[k - 1].data@.len() as int)
    }
}

/// The directory entry of a tensor whose data starts at `off`.
pub open spec fn enc_info(t: TensorEntry, off: int) -> Seq<u8> {
    enc_string(t.name@) + le32(t.shape@.len() as u32) + enc_dims(t.shape@) + le32(t.ggml_type) + le64(off as u64)
}

/// The directory entries of the first `k` tensors.
pub open spec fn enc_infos(ts: Seq<TensorEntry>, k: int) -> Seq<u8>
    decreases k,
{
    if k <= 0 {
        seq![]
    } else {
        enc_infos(ts, k - 1) + enc_info(ts[k - 1], data_offset(ts, k - 1))
    }
}

/// `n` zero bytes.
pub open spec fn zeros(n: int) -> Seq<u8> {
    Seq::new(n as nat, |i: int| 0u8)
}

/// The data of the first `k` tensors, each padded to 32 bytes.
pub open spec fn enc_data(ts: Seq<TensorEntry>, k: int) -> Seq<u8>
    decreases k,
{
    if k <= 0 {
        seq![]
    } else {
        enc_data(ts, k - 1) + ts[k - 1].data@ + zeros(aligned(ts[k - 1].data@.len() as int) - ts[k - 1].data@.len())
    }
}

/// The header: magic "GGUF" (bytes 71, 71, 85, 70), version 3, the counts, the metadata and the
/// tensor directory.
pub open spec fn gguf_header(m: Seq<(String, MetaValue)>, ts: Seq<TensorEntry>) -> Seq<u8> {
    seq![71u8, 71u8, 85u8, 70u8] + le32(3) + le64(ts.len() as u64) + le64(m.len() as u64) + enc_metas(m) + enc_infos(ts, ts.len() as int)
}

/// The whole file: the header padded to 32 bytes, then the data section.
pub open spec fn gguf_image(m: Seq<(String, MetaValue)>, ts: Seq<TensorEntry>) -> Seq<u8> {
    let h = gguf_header(m, ts);
    h + zeros(aligned(h.len() as int) - h.len()) + enc_data(ts, ts.len() as int)
}

/// Append `src` to `out`.
pub(crate) fn append_bytes(out: &mut Vec<u8>, src: &[u8])
    ensures
        final(out)@ == old(out)@ + src@,
{
    let ghost o = out@;
    out.extend_from_slice(src);
    proof {
        assert forall|i: int| 0 <= i < out@.len() implies #[trigger] out@[i] == (o + src@)[i] by {
            if i >= o.len() {
                assert(cloned::<u8>(src@[i - o.len()], out@[i]));
            }
        }
        assert(out@ =~= o + src@);
    }
}

fn append_u32(out: &mut Vec<u8>, x: u32)
    ensures
        final(out)@ == old(out)@ + le32(x),
{
    let b = u32_to_le_bytes(x);
    append_bytes(out, b.as_slice());
}

fn append_u64(out: &mut Vec<u8>, x: u64)
    ensures
        final(out)@ == old(out)@ + le64(x),
{
    let b = u64_to_le_bytes(x);
    append_bytes(out, b.as_slice());
}

/// Append a GGUF string: its byte length as a little-endian `u64`, then
/// its UTF-8 bytes.
pub fn write_gguf_string(out: &mut Vec<u8>, s: &str)
    ensures
        final(out)@ == old(out)@ + enc_string(s@),
{
    let b = s.as_bytes();
    append_u64(out, b.len() as u64);
    append_bytes(out, b);
    proof {
        assert(final(out)@ =~= old(out)@ + enc_string(s@));
    }
}

/// Append zeros up to the next multiple of 32 of the length.
fn pad_to_32(out: &mut Vec<u8>)
    requires
        old(out)@.len() + 32 <= usize::MAX,
    ensures
        final(out)@ == old(out)@ + zeros(aligned(old(out)@.len() as int) - old(out)@.len()),
{
    let ghost o = out@;
    let target = (out.len() + 31) / 32 * 32;
    while out.len() < target
        invariant
            target == aligned(o.len() as int),
            o.len() <= out@.len() <= target,
            out@ == o + zeros(out@.len() - o.len()),
        decreases target - out@.len(),
    {
        out.push(0u8);
        proof {
            assert(out@ =~= o + zeros(out@.len() - o.len()));
        }
    }
}

fn append_value(out: &mut Vec<u8>, v: &MetaValue)
    ensures
        final(out)@ == old(out)@ + enc_value(*v),
{
    let ghost o = out@;
    match v {
        MetaValue::String(s) => {
            append_u32(out, 8);
            write_gguf_string(out, s.as_str());
        },
        MetaValue::U32(x) => {
            append_u32(out, 4);
            append_u32(out, *x);
        },
        MetaValue::U64(x) => {
            append_u32(out, 10);
            append_u64(out, *x);
        },
        MetaValue::I32(x) => {
            append_u32(out, 5);
            append_u32(out, *x as u32);
        },
        MetaValue::F32(f) => {
            append_u32(out, 6);
            append_u32(out, f.0);
        },
    }
    proof {
        assert(out@ =~= o + enc_value(*v));
    }
}

/// Append `n` zeros.
fn append_zeros(out: &mut Vec<u8>, n: usize)
    ensures
        final(out)@ == old(out)@ + zeros(n as int),
{
    let ghost o = out@;
    let mut i: usize = 0;
    while i < n
        invariant
            i <= n,
            out@ == o + zeros(i as int),
        decreases n - i,
    {
        out.push(0u8);
        i = i + 1;
        proof {
            assert(out@ =~= o + zeros(i as int));
        }
    }
}

/// Append the directory entry of `t`, whose data starts at `offset`.
fn append_info(out: &mut Vec<u8>, t: &TensorEntry, offset: u64)
    ensures
        final(out)@ == old(out)@ + enc_info(*t, offset as int),
{
    let ghost o = out@;
    write_gguf_string(out, t.name.as_str());
    append_u32(out, t.shape.len() as u32);
    let ghost before_dims = out@;
    let mut d: usize = 0;
    while d < t.shape.len()
        invariant
            d <= t.shape@.len(),
            out@ == before_dims + enc_dims(t.shape@.take(d as int)),
        decreases t.shape@.len() - d,
    {
        proof {
            assert(t.shape@.take(d + 1).drop_last() =~= t.shape@.take(d as int));
        }
        append_u64(out, t.shape[d]);
        d = d + 1;
    }
    proof {
        assert(t.shape@.take(d as int) =~= t.shape@);
    }
    append_u32(out, t.ggml_type);
    append_u64(out, offset);
    proof {
        assert(out@ =~= o + enc_info(*t, offset as int));
    }
}

/// The bytes of a GGUF v3 file with the given metadata and tensors: the
/// header, padding to 32 bytes, then each tensor's data padded to 32
/// bytes; each directory entry records where its tensor's data starts.
pub fn encode_gguf(metadata: &Vec<(String, MetaValue)>, tensors: &Vec<TensorEntry>) -> (r: Vec<u8>)
    requires
        gguf_image(metadata@, tensors@).len() + 64 <= usize::MAX,
        data_offset(tensors@, tensors@.len() as int) <= u64::MAX,
    ensures
        r@ == gguf_image(metadata@, tensors@),
{
    let mut out: Vec<u8> = Vec::new();
    let magic: [u8; 4] = [71, 71, 85, 70];
    append_bytes(&mut out, &magic);
    proof {
        assert(out@ =~= seq![71u8, 71u8, 85u8, 70u8]);
    }
    append_u32(&mut out, 3);
    append_u64(&mut out, tensors.len() as u64);
    append_u64(&mut out, metadata.len() as u64);
    let ghost start = out@;
    let mut i: usize = 0;
    while i < metadata.len()
        invariant
            i <= metadata@.len(),
            out@ == start + enc_metas(metadata@.take(i as int)),
        decreases metadata@.len() - i,
    {
        proof {
            assert(metadata@.take(i + 1).drop_last() =~= metadata@.take(i as int));
        }
        write_gguf_string(&mut out, metadata[i].0.as_str());
        append_value(&mut out, &metadata[i].1);
        i = i + 1;
        proof {
            assert(out@ =~= start + enc_metas(metadata@.take(i as int)));
        }
    }
    proof {
        assert(metadata@.take(i as int) =~= metadata@);
    }
    let ghost mid = out@;
    let mut offset: u64 = 0;
    let mut k: usize = 0;
    while k < tensors.len()
        invariant
            k <= tensors@.len(),
            data_offset(tensors@, tensors@.len() as int) <= u64::MAX,
            offset == data_offset(tensors@, k as int),
            out@ == mid + enc_infos(tensors@, k as int),
            gguf_image(metadata@, tensors@).len() + 64 <= usize::MAX,
        decreases tensors@.len() - k,
    {
        let t = &tensors[k];
        append_info(&mut out, t, offset);
        proof {
            assert(out@ =~= mid + enc_infos(tensors@, k + 1));
            lemma_data_offset_mono(tensors@, k + 1, tensors@.len() as int);
        }
        let len = t.data.len() as u64;
        offset = offset + (len + 31) / 32 * 32;
        k = k + 1;
    }
    proof {
        assert(out@ == gguf_header(metadata@, tensors@));
    }
    pad_to_32(&mut out);
    let ghost head = out@;
    let mut k: usize = 0;
    while k < tensors.len()
        invariant
            k <= tensors@.len(),
            out@ == head + enc_data(tensors@, k as int),
            gguf_image(metadata@, tensors@).len() + 64 <= usize::MAX,
            head.len() + enc_data(tensors@, tensors@.len() as int).len() == gguf_image(metadata@, tensors@).len(),
        decreases tensors@.len() - k,
    {
        proof {
            lemma_enc_data_len_mono(tensors@, k + 1, tensors@.len() as int);
        }
        let t = &tensors[k];
        append_bytes(&mut out, t.data.as_slice());
        let len = t.data.len();
        append_zeros(&mut out, (len + 31) / 32 * 32 - len);
        k = k + 1;
        proof {
            assert(out@ =~= head + enc_data(tensors@, k as int));
        }
    }
    out
}

proof fn lemma_data_offset_mono(ts: Seq<TensorEntry>, k: int, n: int)
    requires
        0 <= k <= n,
    ensures
        data_offset(ts, k) <= data_offset(ts, n),
    decreases n - k,
{
    if k < n {
        lemma_data_offset_mono(ts, k, n - 1);
        assert(aligned(ts[n - 1].data@.len() as int) >= 0);
    }
}

proof fn lemma_enc_data_len_mono(ts: Seq<TensorEntry>, k: int, n: int)
    requires
        0 <= k <= n,
    ensures
        enc_data(ts, k).len() <= enc_data(ts, n).len(),
    decreases n - k,
{
    if k < n {
        lemma_enc_data_len_mono(ts, k, n - 1);
    }
}

} // verus!
