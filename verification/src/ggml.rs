//! GGML files of whisper models:
//! a `u32` magic, eleven `u32` hyperparameters, the mel filterbank
//! (`n_mel`, `n_fft`, then `n_mel * n_fft` little-endian floats), the
//! tokenizer vocabulary (a count, then length-prefixed words), and tensors
//! (`n_dims`, name length, type, the dimensions, the name, then the data,
//! unaligned) up to the last 12 bytes of the file.

use vstd::prelude::*;
use vstd::bytes::{u16_from_le_bytes, u32_from_le_bytes};
use vstd::slice::{slice_subrange, slice_to_vec};
use vstd::utf8::{decode_utf8, valid_utf8};
use crate::dtype::DType;
use crate::gguf::u32_at;
use crate::graph::{fixed_dims, Graph, Residency, TensorMeta, WeightData};
use crate::memplan::dims_product;
use crate::ops::F32Bits;
use crate::safetensors::clone_dims;

verus! {

/// The magic number that opens a GGML file.
pub const GGML_MAGIC: u32 = 0x67676d6c;

/// Longest vocabulary word accepted, in bytes.
pub const MAX_WORD_LEN: u32 = 0x100000;

/// Whisper model hyperparameters.
#[derive(Clone, Copy, Debug, PartialEq, Eq, Structural)]
pub struct WhisperHparams {
    pub n_vocab: u32,
    pub n_audio_ctx: u32,
    pub n_audio_state: u32,
    pub n_audio_head: u32,
    pub n_audio_layer: u32,
    pub n_text_ctx: u32,
    pub n_text_state: u32,
    pub n_text_head: u32,
    pub n_text_layer: u32,
    pub n_mels: u32,
    pub ftype: u32,
}

/// The mel filterbank stored in the file.
pub struct MelFilters {
    /// Number of mel bins (typically 80).
    pub n_mel: usize,
    /// Number of FFT bins (typically 201).
    pub n_fft: usize,
    /// Filter coefficients, `n_mel * n_fft`, row-major.
    pub data: Vec<F32Bits>,
}

/// Everything a GGML whisper file holds.
pub struct GgmlWhisperData {
    pub graph: Graph,
    pub hparams: WhisperHparams,
    pub mel_filters: MelFilters,
    pub vocab: Vec<String>,
}

/// Why a GGML file is refused.
#[derive(Clone, Copy, Debug, PartialEq, Eq, Structural)]
pub enum GgmlError {
    /// A field, a word, a tensor's dimensions or its name runs past the end.
    Truncated,
    /// The first four bytes are not the GGML magic.
    BadMagic(u32),
    /// A vocabulary word is longer than `MAX_WORD_LEN` bytes.
    WordTooLong(usize),
}

/// What `String::from_utf8_lossy` makes of the bytes: their text, with each
/// invalid sequence replaced by U+FFFD.
pub uninterp spec fn utf8_lossy(b: Seq<u8>) -> Seq<char>;

/// `String::from_utf8_lossy(bytes).to_string()`. Its text is `utf8_lossy`
/// of the bytes; for valid UTF-8 that is the decoded text.
#[verifier::external_body]
pub(crate) fn string_from_utf8_lossy(bytes: &[u8]) -> (r: String)
    ensures
        r@ == utf8_lossy(bytes@),
        valid_utf8(bytes@) ==> r@ == decode_utf8(bytes@),
{
    String::from_utf8_lossy(bytes).to_string()
}

/// The little-endian `u16` at `p`.
pub(crate) fn u16_le(data: &[u8], p: usize) -> (r: u16)
    requires
        p + 2 <= data@.len(),
    ensures
        r == crate::gguf::u16_at(data@, p as int),
{
    let n = data.len();
    u16_from_le_bytes(slice_subrange(data, p, p + 2))
}

/// The little-endian `u32` at `p`.
pub(crate) fn u32_le(data: &[u8], p: usize) -> (r: u32)
    requires
        p + 4 <= data@.len(),
    ensures
        r == u32_at(data@, p as int),
{
    let n = data.len();
    u32_from_le_bytes(slice_subrange(data, p, p + 4))
}

// ---- Header ----

/// The hyperparameters stored after the magic.
pub open spec fn hparams_at(b: Seq<u8>) -> WhisperHparams {
    WhisperHparams {
        n_vocab: u32_at(b, 4),
        n_audio_ctx: u32_at(b, 8),
        n_audio_state: u32_at(b, 12),
        n_audio_head: u32_at(b, 16),
        n_audio_layer: u32_at(b, 20),
        n_text_ctx: u32_at(b, 24),
        n_text_state: u32_at(b, 28),
        n_text_head: u32_at(b, 32),
        n_text_layer: u32_at(b, 36),
        n_mels: u32_at(b, 40),
        ftype: u32_at(b, 44),
    }
}

/// The number of mel filter coefficients.
pub open spec fn mel_count(b: Seq<u8>) -> nat {
    (u32_at(b, 48) as nat) * (u32_at(b, 52) as nat)
}

/// Where the mel coefficients end and the vocabulary count starts.
pub open spec fn mel_end(b: Seq<u8>) -> int {
    56 + 4 * (mel_count(b) as int)
}

/// Where the vocabulary count is, or why the file is refused before it.
pub open spec fn vocab_start(b: Seq<u8>) -> Result<int, GgmlError> {
    if b.len() < 4 {
        Err(GgmlError::Truncated)
    } else if u32_at(b, 0) != GGML_MAGIC {
        Err(GgmlError::BadMagic(u32_at(b, 0)))
    } else if b.len() < 56 || mel_end(b) + 4 > b.len() {
        Err(GgmlError::Truncated)
    } else {
        Ok(mel_end(b))
    }
}

/// `m` holds the filterbank stored in `b`.
pub open spec fn mel_is(m: MelFilters, b: Seq<u8>) -> bool {
    &&& m.n_mel == u32_at(b, 48) as usize
    &&& m.n_fft == u32_at(b, 52) as usize
    &&& m.data@.len() == mel_count(b)
    &&& forall|i: int| 0 <= i < m.data@.len() ==> (#[trigger] m.data@[i]).0 == u32_at(b, 56 + 4 * i)
}

// ---- Vocabulary ----

/// Put `ws` in front of the words of a successful read.
pub open spec fn prepend(ws: Seq<Seq<char>>, r: Result<(Seq<Seq<char>>, int), GgmlError>) -> Result<
    (Seq<Seq<char>>, int),
    GgmlError,
> {
    match r {
        Ok((xs, e)) => Ok((ws + xs, e)),
        Err(x) => Err(x),
    }
}

/// The `count` length-prefixed words starting at `p` and where they end,
/// or why they cannot be read.
pub open spec fn vocab_from(b: Seq<u8>, p: int, count: nat) -> Result<(Seq<Seq<char>>, int), GgmlError>
    decreases count,
{
    if count == 0 {
        Ok((Seq::empty(), p))
    } else if p + 4 > b.len() {
        Err(GgmlError::Truncated)
    } else if u32_at(b, p) > MAX_WORD_LEN {
        Err(GgmlError::WordTooLong(u32_at(b, p) as usize))
    } else if p + 4 + u32_at(b, p) > b.len() {
        Err(GgmlError::Truncated)
    } else {
        prepend(
            seq![utf8_lossy(b.subrange(p + 4, p + 4 + u32_at(b, p)))],
            vocab_from(b, p + 4 + u32_at(b, p), (count - 1) as nat),
        )
    }
}

/// The vocabulary of the file and where the tensors start, or why the file
/// is refused before them.
pub open spec fn ggml_words(b: Seq<u8>) -> Result<(Seq<Seq<char>>, int), GgmlError> {
    match vocab_start(b) {
        Ok(vs) => vocab_from(b, vs + 4, u32_at(b, vs) as nat),
        Err(e) => Err(e),
    }
}

/// The texts of the strings.
pub open spec fn texts(v: Seq<String>) -> Seq<Seq<char>> {
    v.map_values(|s: String| s@)
}

proof fn lemma_prepend_push(ws: Seq<Seq<char>>, w: Seq<char>, x: Result<(Seq<Seq<char>>, int), GgmlError>)
    ensures
        prepend(ws, prepend(seq![w], x)) == prepend(ws.push(w), x),
{
    match x {
        Ok((xs, e)) => {
            assert(ws + (seq![w] + xs) =~= ws.push(w) + xs);
        },
        Err(_) => {},
    }
}

// ---- Tensors ----

/// A tensor read from the file: name, dimensions, GGML type and data.
pub type GgmlTensor = (Seq<char>, Seq<usize>, u32, Seq<u8>);

/// The element type of a GGML type id (unknown ids read as `F32`).
pub open spec fn spec_ggml_dtype(t: u32) -> DType {
    match t {
        0 => DType::F32,
        1 => DType::F16,
        2 => DType::Q4,
        3 => DType::Q4_1,
        8 => DType::Q8,
        _ => DType::F32,
    }
}

/// The element type of a GGML type id (unknown ids read as `F32`).
pub fn ggml_type_to_dtype(t: u32) -> (r: DType)
    ensures
        r == spec_ggml_dtype(t),
{
    match t {
        0 => DType::F32,
        1 => DType::F16,
        2 => DType::Q4,
        3 => DType::Q4_1,
        8 => DType::Q8,
        _ => DType::F32,
    }
}

/// The number of data bytes of `n` elements of GGML type `t`; quantized
/// types store whole blocks of 32 elements.
pub open spec fn ggml_data_bytes(t: u32, n: nat) -> nat {
    match t {
        0 => n * 4,
        1 => n * 2,
        2 => (n / 32) * 18,
        3 => (n / 32) * 20,
        8 => (n / 32) * 34,
        _ => n * 4,
    }
}

/// The dimension count of the tensor header at `p`.
pub open spec fn t_ndims(b: Seq<u8>, p: int) -> u32 {
    u32_at(b, p)
}

/// The name length of the tensor header at `p`.
pub open spec fn t_name_len(b: Seq<u8>, p: int) -> u32 {
    u32_at(b, p + 4)
}

/// The GGML type of the tensor header at `p`.
pub open spec fn t_type(b: Seq<u8>, p: int) -> u32 {
    u32_at(b, p + 8)
}

/// Where the name of the tensor at `p` starts.
pub open spec fn t_name_start(b: Seq<u8>, p: int) -> int {
    p + 12 + 4 * t_ndims(b, p)
}

/// Where the data of the tensor at `p` starts.
pub open spec fn t_data_start(b: Seq<u8>, p: int) -> int {
    t_name_start(b, p) + t_name_len(b, p)
}

/// The dimensions of the tensor at `p`.
pub open spec fn t_dims(b: Seq<u8>, p: int) -> Seq<usize> {
    Seq::new(t_ndims(b, p) as nat, |i: int| u32_at(b, p + 12 + 4 * i) as usize)
}

/// The data size of the tensor at `p`.
pub open spec fn t_size(b: Seq<u8>, p: int) -> nat {
    ggml_data_bytes(t_type(b, p), dims_product(t_dims(b, p)))
}

/// The tensor stored at `p`.
pub open spec fn tensor_at(b: Seq<u8>, p: int) -> GgmlTensor {
    let ds = t_data_start(b, p);
    (utf8_lossy(b.subrange(t_name_start(b, p), ds)), t_dims(b, p), t_type(b, p), b.subrange(ds, ds + t_size(b, p)))
}

/// The tensor header at `p` ends the scan: more than 4 dimensions or a
/// name of 256 bytes or more.
pub open spec fn header_stops(b: Seq<u8>, p: int) -> bool {
    t_ndims(b, p) > 4 || t_name_len(b, p) >= 256
}

/// The tensors from `p` on, and whether the scan ended without a
/// truncated dimension list or name. The scan ends at the last 12 bytes,
/// at a header that ends it, or at data that runs past the end of the file.
pub open spec fn tensor_scan(b: Seq<u8>, p: int) -> (Seq<GgmlTensor>, bool)
    decreases b.len() - p,
{
    if !(p + 12 < b.len()) || header_stops(b, p) {
        (Seq::empty(), true)
    } else if t_data_start(b, p) > b.len() {
        (Seq::empty(), false)
    } else if t_data_start(b, p) + t_size(b, p) > b.len() {
        (Seq::empty(), true)
    } else {
        let rest = tensor_scan(b, t_data_start(b, p) + t_size(b, p));
        (seq![tensor_at(b, p)] + rest.0, rest.1)
    }
}

/// The last index of a tensor named `k`.
pub open spec fn last_named(ts: Seq<GgmlTensor>, k: Seq<char>) -> Option<int>
    decreases ts.len(),
{
    if ts.len() == 0 {
        None
    } else if ts.last().0 == k {
        Some(ts.len() - 1)
    } else {
        last_named(ts.drop_last(), k)
    }
}

proof fn lemma_last_named(ts: Seq<GgmlTensor>, k: Seq<char>)
    ensures
        last_named(ts, k) matches Some(j) ==> 0 <= j < ts.len() && ts[j].0 == k,
    decreases ts.len(),
{
    if ts.len() > 0 && ts.last().0 != k {
        lemma_last_named(ts.drop_last(), k);
    }
}

/// `w` was loaded from tensor `t`.
pub open spec fn weight_from(w: WeightData, t: GgmlTensor) -> bool {
    w.data@ == t.3 && w.shape@ == t.1 && w.dtype == spec_ggml_dtype(t.2)
}

/// `m` describes tensor `t`.
pub open spec fn meta_from(m: TensorMeta, t: GgmlTensor) -> bool {
    m.shape@ == fixed_dims(t.1) && m.dtype == spec_ggml_dtype(t.2) && m.residency == Residency::Resident
}

/// `g` has no nodes and holds, for each name, the last tensor of `ts` with
/// that name, as a weight and as tensor metadata.
pub open spec fn graph_holds(g: Graph, ts: Seq<GgmlTensor>) -> bool {
    &&& g.nodes@.len() == 0
    &&& forall|k: Seq<char>| #[trigger] g.weights@.contains_key(k) <==> last_named(ts, k) is Some
    &&& forall|k: Seq<char>| #[trigger] g.tensors@.contains_key(k) <==> last_named(ts, k) is Some
    &&& forall|k: Seq<char>| #[trigger] last_named(ts, k) is Some ==> {
        let j = last_named(ts, k)->0;
        weight_from(g.weights@[k], ts[j]) && meta_from(g.tensors@[k], ts[j])
    }
}


// ---- Reading ----

/// The `count` coefficients starting at byte 56.
fn read_mel(data: &[u8], count: usize) -> (r: Vec<F32Bits>)
    requires
        56 + 4 * count <= data@.len(),
    ensures
        r@.len() == count,
        forall|i: int| 0 <= i < count ==> (#[trigger] r@[i]).0 == u32_at(data@, 56 + 4 * i),
{
    let mut v: Vec<F32Bits> = Vec::new();
    let mut i: usize = 0;
    let n = data.len();
    while i < count
        invariant
            56 + 4 * count <= data@.len(),
            n == data@.len(),
            i <= count,
            v@.len() == i,
            forall|j: int| 0 <= j < i ==> (#[trigger] v@[j]).0 == u32_at(data@, 56 + 4 * j),
        decreases count - i,
    {
        v.push(F32Bits(u32_le(data, 56 + 4 * i)));
        i = i + 1;
    }
    v
}

/// The `count` words starting at `start`, and where they end.
fn read_vocab(data: &[u8], start: usize, count: u32) -> (r: Result<(Vec<String>, usize), GgmlError>)
    requires
        start <= data@.len(),
    ensures
        match vocab_from(data@, start as int, count as nat) {
            Ok((ws, e)) => r matches Ok((v, e2)) && texts(v@) == ws && e2 == e,
            Err(x) => r == Err::<(Vec<String>, usize), GgmlError>(x),
        },
        r matches Ok((_, e)) ==> e <= data@.len(),
{
    let mut words: Vec<String> = Vec::new();
    let mut pos: usize = start;
    let mut i: u32 = 0;
    while i < count
        invariant
            start <= pos <= data@.len(),
            i <= count,
            vocab_from(data@, start as int, count as nat) == prepend(
                texts(words@),
                vocab_from(data@, pos as int, (count - i) as nat),
            ),
        decreases count - i,
    {
        if data.len() - pos < 4 {
            return Err(GgmlError::Truncated);
        }
        let wl = u32_le(data, pos);
        if wl > MAX_WORD_LEN {
            return Err(GgmlError::WordTooLong(wl as usize));
        }
        if data.len() - pos - 4 < wl as usize {
            return Err(GgmlError::Truncated);
        }
        let s = string_from_utf8_lossy(slice_subrange(data, pos + 4, pos + 4 + wl as usize));
        let ghost old_words = texts(words@);
        let ghost next = pos + 4 + wl;
        words.push(s);
        proof {
            assert(texts(words@) =~= old_words.push(s@));
            lemma_prepend_push(old_words, s@, vocab_from(data@, next, (count - i - 1) as nat));
        }
        pos = pos + 4 + wl as usize;
        i = i + 1;
    }
    proof {
        assert(texts(words@) + Seq::<Seq<char>>::empty() =~= texts(words@));
    }
    Ok((words, pos))
}


/// A bound on the product of `i` dimensions of at most `u32::MAX` each.
spec fn dims_cap(i: int) -> int {
    if i <= 0 {
        1
    } else if i == 1 {
        0xffff_ffff
    } else if i == 2 {
        0xffff_fffe_0000_0001
    } else if i == 3 {
        0xffff_fffd_0000_0002_ffff_ffff
    } else {
        0xffff_fffc_0000_0005_ffff_fffc_0000_0001
    }
}

/// The dimensions of the tensor at `pos` and their product.
fn read_dims(data: &[u8], pos: usize, nd: usize) -> (r: (Vec<usize>, u128))
    requires
        nd <= 4,
        nd == t_ndims(data@, pos as int),
        pos + 12 + 4 * nd <= data@.len(),
    ensures
        r.0@ == t_dims(data@, pos as int),
        r.1 == dims_product(r.0@),
{
    let mut dims: Vec<usize> = Vec::new();
    let mut acc: u128 = 1;
    let mut i: usize = 0;
    let n = data.len();
    while i < nd
        invariant
            n == data@.len(),
            i <= nd <= 4,
            pos + 12 + 4 * nd <= data@.len(),
            dims@.len() == i,
            forall|j: int| 0 <= j < i ==> #[trigger] dims@[j] == u32_at(data@, pos + 12 + 4 * j) as usize,
            acc == dims_product(dims@),
            acc <= dims_cap(i as int),
        decreases nd - i,
    {
        let d = u32_le(data, pos + 12 + 4 * i);
        proof {
            let c = dims_cap(i as int);
            assert(acc * d <= c * 0xffff_ffff) by (nonlinear_arith)
                requires
                    0 <= acc <= c,
                    0 <= d <= 0xffff_ffff,
            ;
            assert(c * 0xffff_ffff == dims_cap(i + 1));
        }
        let ghost before = dims@;
        acc = acc * (d as u128);
        dims.push(d as usize);
        proof {
            assert(dims@.drop_last() =~= before);
        }
        i = i + 1;
    }
    proof {
        assert(dims@ =~= t_dims(data@, pos as int));
    }
    (dims, acc)
}


/// Bytes per block of a GGML type (unknown ids count as `f32`).
pub fn ggml_type_element_size(t: u32) -> (r: usize)
    ensures
        r == ggml_data_bytes(t, ggml_type_block_size_spec(t)),
{
    match t {
        0 => 4,
        1 => 2,
        2 => 18,
        3 => 20,
        8 => 34,
        _ => 4,
    }
}

/// Elements per block of a GGML type: 32 for the quantized ones, else 1.
pub open spec fn ggml_type_block_size_spec(t: u32) -> nat {
    if t == 2 || t == 3 || t == 8 {
        32
    } else {
        1
    }
}

/// Elements per block of a GGML type: 32 for the quantized ones, else 1.
pub fn ggml_type_block_size(t: u32) -> (r: usize)
    ensures
        r == ggml_type_block_size_spec(t),
{
    match t {
        0 | 1 => 1,
        2 | 3 | 8 => 32,
        _ => 1,
    }
}

/// The data size of `n` elements of GGML type `t`, or `None` when it does
/// not fit in `u128`.
fn data_bytes(t: u32, n: u128) -> (r: Option<u128>)
    ensures
        r matches Some(z) ==> z == ggml_data_bytes(t, n as nat),
        r is None ==> ggml_data_bytes(t, n as nat) > u128::MAX,
{
    match t {
        0 => n.checked_mul(4),
        1 => n.checked_mul(2),
        2 => (n / 32).checked_mul(18),
        3 => (n / 32).checked_mul(20),
        8 => (n / 32).checked_mul(34),
        _ => n.checked_mul(4),
    }
}

/// The tensors from `start` on, loaded into a graph.
fn read_tensors(data: &[u8], start: usize) -> (r: Result<Graph, GgmlError>)
    requires
        start <= data@.len(),
    ensures
        tensor_scan(data@, start as int).1 ==> (r matches Ok(g) && graph_holds(g, tensor_scan(data@, start as int).0)),
        !tensor_scan(data@, start as int).1 ==> r == Err::<Graph, GgmlError>(GgmlError::Truncated),
{
    let mut g = Graph::new();
    let ghost mut done: Seq<GgmlTensor> = Seq::empty();
    let mut pos: usize = start;
    let n = data.len();
    proof {
        assert(done + tensor_scan(data@, pos as int).0 =~= tensor_scan(data@, pos as int).0);
        assert forall|k: Seq<char>| #[trigger] g.weights@.contains_key(k) <==> last_named(done, k) is Some by {}
        assert forall|k: Seq<char>| #[trigger] g.tensors@.contains_key(k) <==> last_named(done, k) is Some by {}
    }
    while n - pos > 12
        invariant
            n == data@.len(),
            start <= pos <= n,
            tensor_scan(data@, start as int).0 == done + tensor_scan(data@, pos as int).0,
            tensor_scan(data@, start as int).1 == tensor_scan(data@, pos as int).1,
            graph_holds(g, done),
        ensures
            tensor_scan(data@, start as int).0 == done,
            tensor_scan(data@, start as int).1,
            graph_holds(g, done),
        decreases n - pos,
    {
        let nd = u32_le(data, pos);
        let nl = u32_le(data, pos + 4);
        if nd > 4 || nl >= 256 {
            proof {
                assert(done + Seq::<GgmlTensor>::empty() =~= done);
            }
            break;
        }
        let tt = u32_le(data, pos + 8);
        let ndu = nd as usize;
        if n - pos - 12 < 4 * ndu {
            return Err(GgmlError::Truncated);
        }
        let ns = pos + 12 + 4 * ndu;
        if n - ns < nl as usize {
            return Err(GgmlError::Truncated);
        }
        let ds = ns + nl as usize;
        let (dims, count) = read_dims(data, pos, ndu);
        let end: Option<u128> = match data_bytes(tt, count) {
            Some(z) => z.checked_add(ds as u128),
            None => None,
        };
        let e: u128 = match end {
            Some(e) => e,
            None => {
                proof {
                    assert(done + Seq::<GgmlTensor>::empty() =~= done);
                }
                break;
            },
        };
        if e > n as u128 {
            proof {
                assert(done + Seq::<GgmlTensor>::empty() =~= done);
            }
            break;
        }
        let de = e as usize;
        let name = string_from_utf8_lossy(slice_subrange(data, ns, ds));
        let raw = slice_to_vec(slice_subrange(data, ds, de));
        let dtype = ggml_type_to_dtype(tt);
        let ghost t: GgmlTensor = (name@, dims@, tt, raw@);
        let ghost next = de as int;
        proof {
            assert(t == tensor_at(data@, pos as int));
            assert(next == t_data_start(data@, pos as int) + t_size(data@, pos as int));
        }
        let meta = TensorMeta::weight(clone_dims(&dims), dtype);
        let w = WeightData { data: raw, shape: dims, dtype };
        let ghost w0 = g.weights@;
        let ghost t0 = g.tensors@;
        let ghost wv = w;
        let ghost mv = meta;
        g.add_tensor(name.clone(), meta);
        g.add_weight(name, w);
        proof {
            let post = done.push(t);
            assert(post.drop_last() =~= done);
            assert(weight_from(wv, t));
            assert(meta_from(mv, t));
            assert forall|k: Seq<char>| #[trigger] g.weights@.contains_key(k) <==> last_named(post, k) is Some by {}
            assert forall|k: Seq<char>| #[trigger] g.tensors@.contains_key(k) <==> last_named(post, k) is Some by {}
            assert forall|k: Seq<char>| #[trigger] last_named(post, k) is Some implies {
                let j = last_named(post, k)->0;
                weight_from(g.weights@[k], post[j]) && meta_from(g.tensors@[k], post[j])
            } by {
                if k != t.0 {
                    lemma_last_named(done, k);
                    let j = last_named(done, k)->0;
                    assert(post[j] == done[j]);
                }
            }
            assert(done + tensor_scan(data@, pos as int).0 =~= post + tensor_scan(data@, next).0);
            done = post;
        }
        pos = de;
    }
    proof {
        if !(n - pos > 12) {
            assert(done + Seq::<GgmlTensor>::empty() =~= done);
        }
    }
    Ok(g)
}


/// Parse a GGML whisper file: hyperparameters, mel filterbank, vocabulary
/// and tensors. Tensors are read while more than 12 bytes remain; a header
/// with more than 4 dimensions or a name of 256 bytes or more, or data
/// running past the end of the file, ends them without an error.
pub fn parse_ggml(data: &[u8]) -> (r: Result<GgmlWhisperData, GgmlError>)
    ensures
        match ggml_words(data@) {
            Err(e) => r == Err::<GgmlWhisperData, GgmlError>(e),
            Ok((words, ts)) => {
                let scan = tensor_scan(data@, ts);
                &&& !scan.1 ==> r == Err::<GgmlWhisperData, GgmlError>(GgmlError::Truncated)
                &&& scan.1 ==> (r matches Ok(d) && {
                    &&& d.hparams == hparams_at(data@)
                    &&& mel_is(d.mel_filters, data@)
                    &&& texts(d.vocab@) == words
                    &&& graph_holds(d.graph, scan.0)
                })
            },
        },
{
    let n = data.len();
    if n < 4 {
        return Err(GgmlError::Truncated);
    }
    let magic = u32_le(data, 0);
    if magic != GGML_MAGIC {
        return Err(GgmlError::BadMagic(magic));
    }
    if n < 56 {
        return Err(GgmlError::Truncated);
    }
    let hparams = WhisperHparams {
        n_vocab: u32_le(data, 4),
        n_audio_ctx: u32_le(data, 8),
        n_audio_state: u32_le(data, 12),
        n_audio_head: u32_le(data, 16),
        n_audio_layer: u32_le(data, 20),
        n_text_ctx: u32_le(data, 24),
        n_text_state: u32_le(data, 28),
        n_text_head: u32_le(data, 32),
        n_text_layer: u32_le(data, 36),
        n_mels: u32_le(data, 40),
        ftype: u32_le(data, 44),
    };
    let n_mel = u32_le(data, 48);
    let n_fft = u32_le(data, 52);
    proof {
        assert((n_mel as nat) * (n_fft as nat) <= 0xffff_fffe_0000_0001) by (nonlinear_arith)
            requires
                n_mel <= 0xffff_ffff,
                n_fft <= 0xffff_ffff,
        ;
    }
    let count: u64 = (n_mel as u64) * (n_fft as u64);
    let avail: u64 = (n - 56) as u64;
    if count >= avail / 4 {
        return Err(GgmlError::Truncated);
    }
    let cu = count as usize;
    let mel = read_mel(data, cu);
    let vs = 56 + 4 * cu;
    let n_words = u32_le(data, vs);
    let (vocab, ts) = match read_vocab(data, vs + 4, n_words) {
        Ok(v) => v,
        Err(e) => return Err(e),
    };
    let graph = match read_tensors(data, ts) {
        Ok(g) => g,
        Err(e) => return Err(e),
    };
    Ok(GgmlWhisperData {
        graph,
        hparams,
        mel_filters: MelFilters { n_mel: n_mel as usize, n_fft: n_fft as usize, data: mel },
        vocab,
    })
}

} // verus!
