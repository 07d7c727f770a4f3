//! What the GGUF writer writes, the GGUF parser reads back: metadata
//! values, directory entries and tensor data.

use vstd::prelude::*;
use vstd::bytes::{lemma_auto_spec_u32_to_from_le_bytes, lemma_auto_spec_u64_to_from_le_bytes};
use vstd::utf8::{encode_utf8, encode_utf8_decode_utf8, encode_utf8_valid_utf8};
use crate::gguf::{
    align32, checked_product, directory_start, entry_for, gguf_contents, gguf_parsed, has_magic, header_counts,
    header_end, in_file, info_end, info_is, infos_end, last_in_file, loaded, loaded_entry, metadata_is, pair_key,
    pair_value_pos, pairs_end, spec_gguf_block_bytes, spec_gguf_block_size, spec_gguf_dtype, str_end, str_text,
    tensor_span, u32_at, u64_at, usize_dims, value_end, value_is, GgufTensorInfo, GgufValue,
};
use crate::gguf_writer::{
    aligned, data_offset, enc_data, enc_dims, enc_info, enc_infos, enc_metas, enc_string, enc_value, gguf_header,
    gguf_image, le32, le64, zeros, TensorEntry,
};
use crate::ops::F32Bits;
use crate::quantize::MetaValue;

verus! {

/// `x` sits in `b` at position `p`.
pub open spec fn at(b: Seq<u8>, p: int, x: Seq<u8>) -> bool {
    0 <= p && p + x.len() <= b.len() && b.subrange(p, p + x.len()) == x
}

proof fn lemma_at_split(b: Seq<u8>, p: int, x: Seq<u8>, y: Seq<u8>)
    requires
        at(b, p, x + y),
    ensures
        at(b, p, x),
        at(b, p + x.len(), y),
{
    assert(b.subrange(p, p + x.len()) =~= (x + y).subrange(0, x.len() as int));
    assert((x + y).subrange(0, x.len() as int) =~= x);
    assert(b.subrange(p + x.len(), p + x.len() + y.len()) =~= (x + y).subrange(x.len() as int, (x + y).len() as int));
    assert((x + y).subrange(x.len() as int, (x + y).len() as int) =~= y);
}

proof fn lemma_u32_at(b: Seq<u8>, p: int, x: u32)
    requires
        at(b, p, le32(x)),
    ensures
        u32_at(b, p) == x,
        p + 4 <= b.len(),
{
    lemma_auto_spec_u32_to_from_le_bytes();
}

proof fn lemma_u64_at(b: Seq<u8>, p: int, x: u64)
    requires
        at(b, p, le64(x)),
    ensures
        u64_at(b, p) == x,
        p + 8 <= b.len(),
{
    lemma_auto_spec_u64_to_from_le_bytes();
}

/// A written string reads back: it ends where its bytes end and holds the
/// same characters.
proof fn lemma_read_string(b: Seq<u8>, p: int, s: Seq<char>)
    requires
        at(b, p, enc_string(s)),
        encode_utf8(s).len() <= u64::MAX,
    ensures
        str_end(b, p) == Some(p + enc_string(s).len()),
        str_text(b, p) == s,
{
    lemma_auto_spec_u64_to_from_le_bytes();
    let e = encode_utf8(s);
    lemma_at_split(b, p, le64(e.len() as u64), e);
    lemma_u64_at(b, p, e.len() as u64);
    encode_utf8_valid_utf8(s);
    encode_utf8_decode_utf8(s);
    assert(b.subrange(p + 8, p + 8 + u64_at(b, p)) == e);
}

/// A GGUF string as written (its byte length as `u64`, then its UTF-8
/// bytes) reads back as the same text, and the reader stops right after
/// it, `8 + len` bytes on.
pub proof fn lemma_gguf_string_roundtrip(s: Seq<char>)
    requires
        encode_utf8(s).len() <= u64::MAX,
    ensures
        enc_string(s).len() == 8 + encode_utf8(s).len(),
        str_end(enc_string(s), 0) == Some(enc_string(s).len() as int),
        str_text(enc_string(s), 0) == s,
{
    lemma_auto_spec_u64_to_from_le_bytes();
    let b = enc_string(s);
    assert(b.subrange(0, b.len() as int) =~= b);
    lemma_read_string(b, 0, s);
}

/// `v` (read by the parser) holds what `w` (written) held.
pub open spec fn value_matches(v: GgufValue, w: MetaValue) -> bool {
    match w {
        MetaValue::String(s) => v matches GgufValue::Str(t) && t@ == s@,
        MetaValue::U32(x) => v == GgufValue::U32(x),
        MetaValue::U64(x) => v == GgufValue::U64(x),
        MetaValue::I32(x) => v == GgufValue::I32(x),
        MetaValue::F32(f) => v == GgufValue::F32(f),
    }
}

/// The byte lengths of the strings of a written value fit a `u64`.
pub open spec fn value_fits(w: MetaValue) -> bool {
    match w {
        MetaValue::String(s) => encode_utf8(s@).len() <= u64::MAX,
        _ => true,
    }
}

/// A written value reads back.
proof fn lemma_read_value(b: Seq<u8>, p: int, w: MetaValue, v: GgufValue)
    requires
        at(b, p, enc_value(w)),
        value_fits(w),
    ensures
        value_end(b, p) == Some(p + enc_value(w).len()),
        value_is(b, p, v) ==> value_matches(v, w),
{
    lemma_auto_spec_u32_to_from_le_bytes();
    lemma_auto_spec_u64_to_from_le_bytes();
    match w {
        MetaValue::String(s) => {
            lemma_at_split(b, p, le32(8), enc_string(s@));
            lemma_u32_at(b, p, 8);
            lemma_read_string(b, p + 4, s@);
        },
        MetaValue::U32(x) => {
            lemma_at_split(b, p, le32(4), le32(x));
            lemma_u32_at(b, p, 4);
            lemma_u32_at(b, p + 4, x);
        },
        MetaValue::U64(x) => {
            lemma_at_split(b, p, le32(10), le64(x));
            lemma_u32_at(b, p, 10);
            lemma_u64_at(b, p + 4, x);
        },
        MetaValue::I32(x) => {
            lemma_at_split(b, p, le32(5), le32(x as u32));
            lemma_u32_at(b, p, 5);
            lemma_u32_at(b, p + 4, x as u32);
            assert((x as u32) as i32 == x) by (bit_vector);
        },
        MetaValue::F32(f) => {
            lemma_at_split(b, p, le32(6), le32(f.0));
            lemma_u32_at(b, p, 6);
            lemma_u32_at(b, p + 4, f.0);
        },
    }
}

/// The strings of written metadata fit `u64` lengths.
pub open spec fn metas_fit(m: Seq<(String, MetaValue)>) -> bool {
    forall|i: int| 0 <= i < m.len() ==> encode_utf8((#[trigger] m[i]).0@).len() <= u64::MAX && value_fits(m[i].1)
}

proof fn lemma_enc_metas_prefix(m: Seq<(String, MetaValue)>, k: int)
    requires
        0 <= k < m.len(),
    ensures
        enc_metas(m.take(k + 1)) == enc_metas(m.take(k)) + enc_string(m[k].0@) + enc_value(m[k].1),
{
    assert(m.take(k + 1).drop_last() =~= m.take(k));
}

/// `enc_metas(m.take(k))` starts `enc_metas(m)`.
proof fn lemma_metas_at(b: Seq<u8>, p: int, m: Seq<(String, MetaValue)>, k: int)
    requires
        at(b, p, enc_metas(m)),
        0 <= k <= m.len(),
    ensures
        at(b, p, enc_metas(m.take(k))),
    decreases m.len() - k,
{
    if k < m.len() {
        lemma_metas_at(b, p, m, k + 1);
        lemma_enc_metas_prefix(m, k);
        assert(enc_metas(m.take(k)) + enc_string(m[k].0@) + enc_value(m[k].1) =~= enc_metas(m.take(k)) + (enc_string(m[k].0@) + enc_value(m[k].1)));
        lemma_at_split(b, p, enc_metas(m.take(k)), enc_string(m[k].0@) + enc_value(m[k].1));
    } else {
        assert(m.take(k) =~= m);
    }
}

/// Pair `k` reads back when the pairs before it did.
proof fn lemma_read_pair(b: Seq<u8>, p: int, m: Seq<(String, MetaValue)>, k: int)
    requires
        at(b, p, enc_metas(m)),
        metas_fit(m),
        0 <= k < m.len(),
        pairs_end(b, p, k as nat) == Some(p + enc_metas(m.take(k)).len()),
    ensures
        pairs_end(b, p, (k + 1) as nat) == Some(p + enc_metas(m.take(k + 1)).len()),
        pair_key(b, p, k as nat) == m[k].0@,
        pair_value_pos(b, p, k as nat) == p + enc_metas(m.take(k)).len() + enc_string(m[k].0@).len(),
{
    let q = p + enc_metas(m.take(k)).len();
    lemma_metas_at(b, p, m, k + 1);
    lemma_enc_metas_prefix(m, k);
    let key = enc_string(m[k].0@);
    let val = enc_value(m[k].1);
    lemma_at_split(b, p, enc_metas(m.take(k)) + key, val);
    lemma_at_split(b, p, enc_metas(m.take(k)), key);
    assert(encode_utf8(m[k].0@).len() <= u64::MAX && value_fits(m[k].1));
    lemma_read_string(b, q, m[k].0@);
    lemma_read_value(b, q + key.len(), m[k].1, GgufValue::U8(0));
    assert(str_end(b, q) == Some(q + key.len()));
    assert(value_end(b, q + key.len()) == Some(q + key.len() + val.len()));
}

#[verifier::spinoff_prover]
#[verifier::rlimit(30)]
/// Written pairs read back one after another: pair `k` starts where the
/// first `k` written pairs end, with the key and value written.
proof fn lemma_read_pairs(b: Seq<u8>, p: int, m: Seq<(String, MetaValue)>, k: int)
    requires
        at(b, p, enc_metas(m)),
        metas_fit(m),
        0 <= k <= m.len(),
    ensures
        pairs_end(b, p, k as nat) == Some(p + enc_metas(m.take(k)).len()),
        forall|i: int| 0 <= i < k ==> pair_key(b, p, i as nat) == (#[trigger] m[i]).0@,
    decreases k,
{
    if k == 0 {
        assert(m.take(0) =~= Seq::<(String, MetaValue)>::empty());
    } else {
        lemma_read_pairs(b, p, m, k - 1);
        lemma_read_pair(b, p, m, k - 1);
    }
}

/// Pair `i` is the last pair with its key.
pub open spec fn last_key(m: Seq<(String, MetaValue)>, i: int) -> bool {
    forall|j: int| i < j < m.len() ==> (#[trigger] m[j]).0@ != m[i].0@
}

#[verifier::rlimit(50)]
/// Parsing the metadata table written from `m` gives a map holding, for
/// each key, the value of the last pair with that key.
proof fn lemma_metadata_roundtrip(b: Seq<u8>, p: int, m: Seq<(String, MetaValue)>, md: Map<Seq<char>, GgufValue>)
    requires
        at(b, p, enc_metas(m)),
        metas_fit(m),
        metadata_is(b, p, m.len(), md),
    ensures
        pairs_end(b, p, m.len()) == Some(p + enc_metas(m).len()),
        forall|k: Seq<char>| md.contains_key(k) <==> exists|i: int| 0 <= i < m.len() && (#[trigger] m[i]).0@ == k,
        forall|i: int| 0 <= i < m.len() && last_key(m, i) ==> md.contains_key((#[trigger] m[i]).0@) && value_matches(md[m[i].0@], m[i].1),
{
    lemma_read_pairs(b, p, m, m.len() as int);
    assert(m.take(m.len() as int) =~= m);
    assert forall|k: Seq<char>| md.contains_key(k) <==> exists|i: int| 0 <= i < m.len() && (#[trigger] m[i]).0@ == k by {
        if md.contains_key(k) {
            let i = choose|i: nat| i < m.len() && pair_key(b, p, i) == k;
            assert(m[i as int].0@ == k);
        }
        if exists|i: int| 0 <= i < m.len() && (#[trigger] m[i]).0@ == k {
            let i = choose|i: int| 0 <= i < m.len() && (#[trigger] m[i]).0@ == k;
            assert(pair_key(b, p, i as nat) == k);
        }
    }
    assert forall|i: int| 0 <= i < m.len() && last_key(m, i) implies md.contains_key((#[trigger] m[i]).0@) && value_matches(md[m[i].0@], m[i].1) by {
        let k = m[i].0@;
        assert(pair_key(b, p, i as nat) == k);
        assert(md.contains_key(k));
        let i2 = choose|i2: nat|
            i2 < m.len() && pair_key(b, p, i2) == k && value_is(b, pair_value_pos(b, p, i2), md[k]) && forall|j: nat|
                i2 < j < m.len() ==> pair_key(b, p, j) != k;
        if (i2 as int) < i {
            assert(pair_key(b, p, i as nat) != k);
        }
        if (i2 as int) > i {
            assert(m[i2 as int].0@ == k);
        }
        assert(i2 == i);
        let q = p + enc_metas(m.take(i)).len();
        lemma_read_pairs(b, p, m, i);
        lemma_read_pair(b, p, m, i);
        lemma_metas_at(b, p, m, i + 1);
        lemma_enc_metas_prefix(m, i);
        lemma_at_split(b, p, enc_metas(m.take(i)) + enc_string(k), enc_value(m[i].1));
        lemma_read_value(b, q + enc_string(k).len(), m[i].1, md[k]);
    }
}

proof fn lemma_enc_dims_len(d: Seq<u64>)
    ensures
        enc_dims(d).len() == 8 * d.len(),
    decreases d.len(),
{
    lemma_auto_spec_u64_to_from_le_bytes();
    if d.len() > 0 {
        lemma_enc_dims_len(d.drop_last());
    }
}

/// Written dimensions read back one `u64` each.
proof fn lemma_read_dims(b: Seq<u8>, s: int, d: Seq<u64>)
    requires
        at(b, s, enc_dims(d)),
    ensures
        forall|i: int| 0 <= i < d.len() ==> u64_at(b, s + 8 * i) == #[trigger] d[i],
    decreases d.len(),
{
    if d.len() > 0 {
        let init = d.drop_last();
        lemma_enc_dims_len(init);
        lemma_at_split(b, s, enc_dims(init), le64(d.last()));
        lemma_read_dims(b, s, init);
        lemma_u64_at(b, s + 8 * init.len(), d.last());
        assert forall|i: int| 0 <= i < d.len() implies u64_at(b, s + 8 * i) == #[trigger] d[i] by {
            if i < init.len() {
                assert(init[i] == d[i]);
            }
        }
    }
}

/// The written tensor fits the directory's field widths.
pub open spec fn entry_fits(t: TensorEntry) -> bool {
    encode_utf8(t.name@).len() <= u64::MAX && t.shape@.len() <= u32::MAX
}

/// A written directory entry ends where its bytes end.
proof fn lemma_info_end(b: Seq<u8>, q: int, t: TensorEntry, off: int)
    requires
        at(b, q, enc_info(t, off)),
        entry_fits(t),
    ensures
        info_end(b, q) == Some(q + enc_info(t, off).len()),
        str_end(b, q) == Some(q + enc_string(t.name@).len()),
        str_text(b, q) == t.name@,
        u32_at(b, q + enc_string(t.name@).len()) == t.shape@.len(),
        forall|i: int| 0 <= i < t.shape@.len() ==> u64_at(b, q + enc_string(t.name@).len() + 4 + 8 * i) == #[trigger] t.shape@[i],
        u32_at(b, q + enc_string(t.name@).len() + 4 + 8 * t.shape@.len()) == t.ggml_type,
        u64_at(b, q + enc_string(t.name@).len() + 4 + 8 * t.shape@.len() + 4) == off as u64,
{
    let name = enc_string(t.name@);
    let nd = le32(t.shape@.len() as u32);
    let dims = enc_dims(t.shape@);
    let ty = le32(t.ggml_type);
    let of = le64(off as u64);
    lemma_auto_spec_u32_to_from_le_bytes();
    lemma_auto_spec_u64_to_from_le_bytes();
    assert(nd.len() == 4 && ty.len() == 4 && of.len() == 8);
    assert(enc_info(t, off) == name + nd + dims + ty + of);
    lemma_at_split(b, q, name + nd + dims + ty, of);
    lemma_at_split(b, q, name + nd + dims, ty);
    lemma_at_split(b, q, name + nd, dims);
    lemma_at_split(b, q, name, nd);
    lemma_read_string(b, q, t.name@);
    let r = q + name.len();
    lemma_u32_at(b, r, t.shape@.len() as u32);
    lemma_enc_dims_len(t.shape@);
    lemma_read_dims(b, r + 4, t.shape@);
    lemma_u32_at(b, r + 4 + dims.len(), t.ggml_type);
    lemma_u64_at(b, r + 4 + dims.len() + 4, off as u64);
}

/// A written directory entry reads back with the written name, dimensions,
/// type and offset.
proof fn lemma_info_fields(b: Seq<u8>, q: int, t: TensorEntry, off: int, x: GgufTensorInfo)
    requires
        at(b, q, enc_info(t, off)),
        entry_fits(t),
        info_is(b, q, x),
    ensures
        x.name@ == t.name@,
        x.dims@ == t.shape@,
        x.type_id == t.ggml_type,
        x.offset == off as u64,
{
    lemma_info_end(b, q, t, off);
    let r = q + enc_string(t.name@).len();
    assert(str_end(b, q)->0 == r);
    assert(x.dims@ =~= t.shape@);
}

proof fn lemma_infos_at(b: Seq<u8>, d: int, ts: Seq<TensorEntry>, k: int, n: int)
    requires
        at(b, d, enc_infos(ts, n)),
        0 <= k <= n,
    ensures
        at(b, d, enc_infos(ts, k)),
    decreases n - k,
{
    if k < n {
        lemma_at_split(b, d, enc_infos(ts, n - 1), enc_info(ts[n - 1], data_offset(ts, n - 1)));
        lemma_infos_at(b, d, ts, k, n - 1);
    }
}

/// Written directory entries read back one after another.
proof fn lemma_read_infos(b: Seq<u8>, d: int, ts: Seq<TensorEntry>, k: int)
    requires
        at(b, d, enc_infos(ts, ts.len() as int)),
        forall|j: int| 0 <= j < ts.len() ==> entry_fits(#[trigger] ts[j]),
        0 <= k <= ts.len(),
    ensures
        infos_end(b, d, k as nat) == Some(d + enc_infos(ts, k).len()),
    decreases k,
{
    if k > 0 {
        lemma_read_infos(b, d, ts, k - 1);
        lemma_infos_at(b, d, ts, k, ts.len() as int);
        let off = data_offset(ts, k - 1);
        lemma_at_split(b, d, enc_infos(ts, k - 1), enc_info(ts[k - 1], off));
        assert(entry_fits(ts[k - 1]));
        lemma_info_end(b, d + enc_infos(ts, k - 1).len(), ts[k - 1], off);
    }
}

/// The bytes the loader takes for a tensor of this shape and type, when the
/// size computations fit in `usize`.
pub open spec fn stored_bytes(shape: Seq<u64>, type_id: u32) -> Option<int> {
    match checked_product(shape) {
        Some(ne) => {
            let bs = spec_gguf_block_size(type_id) as int;
            let bpb = spec_gguf_block_bytes(type_id) as int;
            let nb = (ne + bs - 1) / bs;
            if ne + bs - 1 > usize::MAX || nb * bpb > usize::MAX {
                None
            } else {
                Some(nb * bpb)
            }
        },
        None => None,
    }
}

/// Every written tensor fits the directory fields and holds exactly the
/// bytes its shape and type call for.
pub open spec fn tensors_fit(ts: Seq<TensorEntry>) -> bool {
    forall|j: int| 0 <= j < ts.len() ==> entry_fits(#[trigger] ts[j]) && stored_bytes(ts[j].shape@, ts[j].ggml_type)
        == Some(ts[j].data@.len() as int)
}

/// What the writer needs and what a loadable image needs (an image that
/// fits in memory is at most `isize::MAX` bytes long).
pub open spec fn writable(m: Seq<(String, MetaValue)>, ts: Seq<TensorEntry>) -> bool {
    &&& m.len() <= usize::MAX
    &&& ts.len() <= usize::MAX
    &&& metas_fit(m)
    &&& tensors_fit(ts)
    &&& gguf_image(m, ts).len() + 64 <= isize::MAX
    &&& data_offset(ts, ts.len() as int) <= u64::MAX
}

/// Tensor `j` is the last one with its name.
pub open spec fn last_name(ts: Seq<TensorEntry>, j: int) -> bool {
    forall|l: int| j < l < ts.len() ==> (#[trigger] ts[l]).name@ != ts[j].name@
}

proof fn lemma_enc_data_len(ts: Seq<TensorEntry>, k: int)
    requires
        0 <= k <= ts.len(),
    ensures
        enc_data(ts, k).len() == data_offset(ts, k),
    decreases k,
{
    if k > 0 {
        lemma_enc_data_len(ts, k - 1);
        let n = ts[k - 1].data@.len() as int;
        assert(aligned(n) >= n) by (nonlinear_arith)
            requires
                n >= 0,
        ;
    }
}

proof fn lemma_data_at(b: Seq<u8>, s: int, ts: Seq<TensorEntry>, k: int, n: int)
    requires
        at(b, s, enc_data(ts, n)),
        0 <= k < n <= ts.len(),
    ensures
        at(b, s + data_offset(ts, k), ts[k].data@),
    decreases n - k,
{
    let pad = zeros(aligned(ts[n - 1].data@.len() as int) - ts[n - 1].data@.len());
    lemma_at_split(b, s, enc_data(ts, n - 1) + ts[n - 1].data@, pad);
    lemma_at_split(b, s, enc_data(ts, n - 1), ts[n - 1].data@);
    if k < n - 1 {
        lemma_data_at(b, s, ts, k, n - 1);
    } else {
        lemma_enc_data_len(ts, k);
    }
}

proof fn lemma_offset_bound(ts: Seq<TensorEntry>, k: int)
    requires
        0 <= k < ts.len(),
    ensures
        data_offset(ts, k) + ts[k].data@.len() <= data_offset(ts, ts.len() as int),
        0 <= data_offset(ts, k),
    decreases ts.len() - k,
{
    lemma_enc_data_len(ts, k);
    lemma_enc_data_len(ts, k + 1);
    lemma_enc_data_len(ts, ts.len() as int);
    lemma_enc_data_prefix_len(ts, k + 1, ts.len() as int);
}

proof fn lemma_enc_data_prefix_len(ts: Seq<TensorEntry>, k: int, n: int)
    requires
        0 <= k <= n <= ts.len(),
    ensures
        enc_data(ts, k).len() <= enc_data(ts, n).len(),
    decreases n - k,
{
    if k < n {
        lemma_enc_data_prefix_len(ts, k, n - 1);
    }
}

proof fn lemma_le_lens(x: u32, y: u64)
    ensures
        le32(x).len() == 4,
        le64(y).len() == 8,
{
    lemma_auto_spec_u32_to_from_le_bytes();
    lemma_auto_spec_u64_to_from_le_bytes();
}

/// Where the parts of a written image sit.
proof fn lemma_image_parts(m: Seq<(String, MetaValue)>, ts: Seq<TensorEntry>)
    ensures
        ({
            let b = gguf_image(m, ts);
            let h = gguf_header(m, ts).len() as int;
            let pre = seq![71u8, 71u8, 85u8, 70u8] + le32(3) + le64(ts.len() as u64) + le64(m.len() as u64);
            &&& pre.len() == 24
            &&& h == 24 + enc_metas(m).len() + enc_infos(ts, ts.len() as int).len()
            &&& aligned(h) >= h
            &&& at(b, 0, pre)
            &&& at(b, 24, enc_metas(m))
            &&& at(b, 24 + enc_metas(m).len() as int, enc_infos(ts, ts.len() as int))
            &&& at(b, aligned(h), enc_data(ts, ts.len() as int))
        }),
{
    let b = gguf_image(m, ts);
    let hd = gguf_header(m, ts);
    let h = hd.len() as int;
    let magic = seq![71u8, 71u8, 85u8, 70u8];
    lemma_le_lens(3, ts.len() as u64);
    lemma_le_lens(3, m.len() as u64);
    let pre = magic + le32(3) + le64(ts.len() as u64) + le64(m.len() as u64);
    let metas = enc_metas(m);
    let infos = enc_infos(ts, ts.len() as int);
    let pad = zeros(aligned(h) - h);
    let data = enc_data(ts, ts.len() as int);
    assert(aligned(h) >= h) by (nonlinear_arith)
        requires
            h >= 0,
    ;
    assert(b == hd + pad + data);
    assert(hd == pre + metas + infos);
    assert(b.subrange(0, b.len() as int) =~= b);
    lemma_at_split(b, 0, hd + pad, data);
    lemma_at_split(b, 0, hd, pad);
    lemma_at_split(b, 0, pre + metas, infos);
    lemma_at_split(b, 0, pre, metas);
}

/// The header of a written image: magic, version 3, the counts.
proof fn lemma_image_header(m: Seq<(String, MetaValue)>, ts: Seq<TensorEntry>)
    ensures
        gguf_image(m, ts).len() >= 24,
        has_magic(gguf_image(m, ts)),
        header_counts(gguf_image(m, ts)) == (ts.len() as u64, m.len() as u64, 24int),
{
    lemma_image_parts(m, ts);
    let b = gguf_image(m, ts);
    let magic = seq![71u8, 71u8, 85u8, 70u8];
    lemma_le_lens(3, ts.len() as u64);
    lemma_le_lens(3, m.len() as u64);
    let pre = magic + le32(3) + le64(ts.len() as u64) + le64(m.len() as u64);
    lemma_at_split(b, 0, magic + le32(3) + le64(ts.len() as u64), le64(m.len() as u64));
    lemma_at_split(b, 0, magic + le32(3), le64(ts.len() as u64));
    lemma_at_split(b, 0, magic, le32(3));
    lemma_u32_at(b, 4, 3);
    lemma_u64_at(b, 8, ts.len() as u64);
    lemma_u64_at(b, 16, m.len() as u64);
    assert(b.subrange(0, 4) == magic);
    assert(b[0] == b.subrange(0, 4)[0]);
    assert(b[1] == b.subrange(0, 4)[1]);
    assert(b[2] == b.subrange(0, 4)[2]);
    assert(b[3] == b.subrange(0, 4)[3]);
}

/// The layout facts of a written image: magic, counts, where the
/// directory, the header and the data of each tensor are.
proof fn lemma_image_layout(m: Seq<(String, MetaValue)>, ts: Seq<TensorEntry>)
    requires
        writable(m, ts),
    ensures
        ({
            let b = gguf_image(m, ts);
            let h = gguf_header(m, ts).len() as int;
            &&& b.len() >= 24
            &&& has_magic(b)
            &&& header_counts(b) == (ts.len() as u64, m.len() as u64, 24int)
            &&& at(b, 24, enc_metas(m))
            &&& directory_start(b) == Some(24 + enc_metas(m).len() as int)
            &&& at(b, 24 + enc_metas(m).len() as int, enc_infos(ts, ts.len() as int))
            &&& header_end(b) == Some(h)
            &&& align32(h) == aligned(h)
            &&& at(b, aligned(h), enc_data(ts, ts.len() as int))
        }),
{
    let b = gguf_image(m, ts);
    lemma_image_parts(m, ts);
    lemma_image_header(m, ts);
    lemma_read_pairs(b, 24, m, m.len() as int);
    assert(m.take(m.len() as int) =~= m);
    assert(pairs_end(b, 24, m.len()) == Some(24 + enc_metas(m).len() as int));
    assert(header_counts(b).1 as nat == m.len());
    assert(directory_start(b) == Some(24 + enc_metas(m).len() as int));
    lemma_read_infos(b, 24 + enc_metas(m).len() as int, ts, ts.len() as int);
    assert(header_counts(b).0 as nat == ts.len());
}

/// A file written by `encode_gguf` is a well-formed GGUF file: it is long
/// enough, starts with the magic bytes and its header parses, so
/// `parse_gguf` accepts it.
pub proof fn lemma_gguf_written_parses(m: Seq<(String, MetaValue)>, ts: Seq<TensorEntry>)
    requires
        writable(m, ts),
    ensures
        gguf_image(m, ts).len() >= 24,
        has_magic(gguf_image(m, ts)),
        header_end(gguf_image(m, ts)) is Some,
{
    lemma_image_layout(m, ts);
}

/// Reading a file written by `encode_gguf` gives back what was written: the
/// metadata keys, with the value of the last pair for each key, and a graph
/// holding, for each tensor name, the data, dimensions and element type of
/// the last tensor with that name.
pub proof fn lemma_gguf_roundtrip(
    m: Seq<(String, MetaValue)>,
    ts: Seq<TensorEntry>,
    g: crate::graph::Graph,
    md: Map<Seq<char>, GgufValue>,
)
    requires
        writable(m, ts),
        gguf_parsed(gguf_image(m, ts), g, md),
    ensures
        forall|k: Seq<char>| md.contains_key(k) <==> exists|i: int| 0 <= i < m.len() && (#[trigger] m[i]).0@ == k,
        forall|i: int|
            0 <= i < m.len() && last_key(m, i) ==> md.contains_key((#[trigger] m[i]).0@) && value_matches(
                md[m[i].0@],
                m[i].1,
            ),
        forall|k: Seq<char>| g.weights@.contains_key(k) <==> exists|j: int| 0 <= j < ts.len() && (#[trigger] ts[j]).name@ == k,
        forall|j: int|
            0 <= j < ts.len() && last_name(ts, j) ==> {
                &&& g.weights@.contains_key((#[trigger] ts[j]).name@)
                &&& g.weights@[ts[j].name@].data@ == ts[j].data@
                &&& g.weights@[ts[j].name@].shape@ == usize_dims(ts[j].shape@)
                &&& g.weights@[ts[j].name@].dtype == spec_gguf_dtype(ts[j].ggml_type)
            },
        g.nodes@.len() == 0,
{
    let b = gguf_image(m, ts);
    lemma_image_layout(m, ts);
    let infos = choose|infos: Seq<GgufTensorInfo>| #[trigger] gguf_contents(b, infos, g, md);
    assert(gguf_contents(b, infos, g, md));
    lemma_metadata_roundtrip(b, 24, m, md);
    let d: int = 24 + enc_metas(m).len() as int;
    let h = gguf_header(m, ts).len() as int;
    let ds = aligned(h);
    assert forall|j: int| 0 <= j < ts.len() implies #[trigger] infos[j].name@ == ts[j].name@
        && infos[j].dims@ == ts[j].shape@ && infos[j].type_id == ts[j].ggml_type
        && tensor_span(b.len() as int, ds, infos[j]) == Some((ds + data_offset(ts, j), ds + data_offset(ts, j) + ts[j].data@.len()))
        by {
        lemma_read_infos(b, d, ts, j);
        lemma_infos_at(b, d, ts, j + 1, ts.len() as int);
        lemma_at_split(b, d, enc_infos(ts, j), enc_info(ts[j], data_offset(ts, j)));
        assert(entry_fits(ts[j]));
        assert(info_is(b, infos_end(b, d, j as nat)->0, infos[j]));
        lemma_info_fields(b, d + enc_infos(ts, j).len() as int, ts[j], data_offset(ts, j), infos[j]);
        lemma_offset_bound(ts, j);
        lemma_enc_data_len(ts, ts.len() as int);
        assert(stored_bytes(ts[j].shape@, ts[j].ggml_type) == Some(ts[j].data@.len() as int));
        assert(infos[j].offset as usize == data_offset(ts, j));
    }
    assert forall|j: int| 0 <= j < ts.len() implies in_file(b, ds, infos, j) by {
        assert(infos[j].name@ == ts[j].name@);
    }
    assert forall|k: Seq<char>| g.weights@.contains_key(k) <==> exists|j: int| 0 <= j < ts.len() && (#[trigger] ts[j]).name@ == k by {
        if g.weights@.contains_key(k) {
            let j = choose|j: int| 0 <= j < infos.len() && infos[j].name@ == k && in_file(b, ds, infos, j);
            assert(infos[j].name@ == ts[j].name@);
        }
        if exists|j: int| 0 <= j < ts.len() && (#[trigger] ts[j]).name@ == k {
            let j = choose|j: int| 0 <= j < ts.len() && (#[trigger] ts[j]).name@ == k;
            assert(infos[j].name@ == ts[j].name@);
            assert(in_file(b, ds, infos, j));
        }
    }
    assert forall|j: int| 0 <= j < ts.len() && last_name(ts, j) implies {
        &&& g.weights@.contains_key((#[trigger] ts[j]).name@)
        &&& g.weights@[ts[j].name@].data@ == ts[j].data@
        &&& g.weights@[ts[j].name@].shape@ == usize_dims(ts[j].shape@)
        &&& g.weights@[ts[j].name@].dtype == spec_gguf_dtype(ts[j].ggml_type)
    } by {
        let k = ts[j].name@;
        assert(infos[j].name@ == k);
        assert(in_file(b, ds, infos, j));
        assert(g.weights@.contains_key(k));
        let j2 = choose|j2: int| #[trigger] entry_for(b, ds, infos, j2, k, g.weights@[k], g.tensors@[k]);
        assert(infos[j2].name@ == ts[j2].name@);
        if j2 < j {
            assert(in_file(b, ds, infos, j));
            assert(last_in_file(b, ds, infos, j2, k));
        }
        if j2 > j {
            assert(ts[j2].name@ != k);
        }
        assert(j2 == j);
        lemma_data_at(b, ds, ts, j, ts.len() as int);
    }
}

} // verus!
