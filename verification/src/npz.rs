//! NumPy archives: an NPZ file is a ZIP archive of `.npy` arrays. Each
//! `.npy` entry holds the magic `\x93NUMPY`, a version, a header length
//! (`u16` for version 1, `u32` from version 2 on), a Python dict literal
//! such as `{'descr': '<f4', 'fortran_order': False, 'shape': (4, 4), }`,
//! and the raw data.

use vstd::prelude::*;
use vstd::slice::{slice_subrange, slice_to_vec};
use vstd::utf8::{decode_utf8, valid_utf8};
use crate::dtype::DType;
use crate::graph::{fixed_dims, graph_loads, last_loaded, lemma_last_loaded, Graph, LoadedTensor, Residency, TensorMeta, WeightData};
use crate::safetensors::clone_dims;
use crate::gguf::{string_from_utf8, u16_at, u32_at};
use crate::text::{chars_slice, find_char, is_first_index, lemma_first_index_unique, spec_find_char, str_eq, string_of, to_chars};
use crate::vocab::{digit_in, digits_value, is_digit, is_ws, lemma_digits_none, trim, trim_start, trimmed};

verus! {

// ---- Text helpers ----

/// The first position at or after `i` where `p` occurs in `s`.
pub open spec fn find_sub_from(s: Seq<char>, p: Seq<char>, i: int) -> Option<int>
    decreases s.len() + 1 - i,
{
    if i < 0 || i + p.len() > s.len() {
        None
    } else if s.subrange(i, i + p.len()) == p {
        Some(i)
    } else {
        find_sub_from(s, p, i + 1)
    }
}

/// The first position where `p` occurs in `s` (`str::find`).
pub open spec fn find_sub(s: Seq<char>, p: Seq<char>) -> Option<int> {
    find_sub_from(s, p, 0)
}

/// `s` starts with `p`.
pub open spec fn starts_with(s: Seq<char>, p: Seq<char>) -> bool {
    p.len() <= s.len() && s.take(p.len() as int) == p
}

/// Whether `p` occurs in `s` at `i`.
pub(crate) fn occurs_at(s: &Vec<char>, p: &Vec<char>, i: usize) -> (r: bool)
    requires
        i + p@.len() <= s@.len(),
    ensures
        r == (s@.subrange(i as int, i + p@.len()) == p@),
{
    let mut j: usize = 0;
    let n = s.len();
    while j < p.len()
        invariant
            n == s@.len(),
            j <= p@.len(),
            i + p@.len() <= s@.len(),
            s@.subrange(i as int, i + j) == p@.take(j as int),
        decreases p@.len() - j,
    {
        if s[i + j] != p[j] {
            proof {
                assert(s@.subrange(i as int, i + p@.len())[j as int] == s@[i + j]);
            }
            return false;
        }
        proof {
            assert(s@.subrange(i as int, i + j + 1) =~= s@.subrange(i as int, i + j).push(s@[i + j]));
            assert(p@.take(j + 1) =~= p@.take(j as int).push(p@[j as int]));
        }
        j = j + 1;
    }
    proof {
        assert(p@.take(j as int) =~= p@);
    }
    true
}

/// The first position where `p` occurs in `s`.
pub(crate) fn find_chars(s: &Vec<char>, p: &Vec<char>) -> (r: Option<usize>)
    ensures
        r matches Some(i) ==> find_sub(s@, p@) == Some(i as int),
        r is None ==> find_sub(s@, p@) is None,
{
    if p.len() > s.len() {
        return None;
    }
    let last = s.len() - p.len();
    let mut i: usize = 0;
    while i <= last
        invariant
            last == s@.len() - p@.len(),
            find_sub(s@, p@) == find_sub_from(s@, p@, i as int),
        decreases last + 1 - i,
    {
        if occurs_at(s, p, i) {
            return Some(i);
        }
        if i == last {
            proof {
                assert(find_sub_from(s@, p@, i + 1) is None);
            }
            return None;
        }
        i = i + 1;
    }
    None
}

/// `s` without leading whitespace.
fn trimmed_start(s: &Vec<char>) -> (r: Vec<char>)
    ensures
        r@ == trim_start(s@),
{
    let n = s.len();
    let mut lo: usize = 0;
    proof {
        assert(s@.subrange(0, n as int) =~= s@);
    }
    while lo < n && is_space(s[lo])
        invariant
            n == s@.len(),
            lo <= n,
            trim_start(s@) == trim_start(s@.subrange(lo as int, n as int)),
        decreases n - lo,
    {
        proof {
            assert(s@.subrange(lo as int, n as int).drop_first() =~= s@.subrange(lo + 1, n as int));
        }
        lo = lo + 1;
    }
    chars_slice(s, lo, n)
}

/// Whether `c` is Unicode whitespace.
fn is_space(c: char) -> (r: bool)
    ensures
        r == is_ws(c),
{
    let u = c as u32;
    (0x09 <= u && u <= 0x0d) || u == 0x20 || u == 0x85 || u == 0xa0 || u == 0x1680 || (0x2000 <= u && u <= 0x200a)
        || u == 0x2028 || u == 0x2029 || u == 0x202f || u == 0x205f || u == 0x3000
}

/// `{` or `}`.
pub open spec fn is_brace(c: char) -> bool {
    c == '{' || c == '}'
}

/// `s` without leading braces.
pub open spec fn strip_lead_braces(s: Seq<char>) -> Seq<char>
    decreases s.len(),
{
    if s.len() > 0 && is_brace(s[0]) {
        strip_lead_braces(s.drop_first())
    } else {
        s
    }
}

/// `s` without trailing braces.
pub open spec fn strip_trail_braces(s: Seq<char>) -> Seq<char>
    decreases s.len(),
{
    if s.len() > 0 && is_brace(s.last()) {
        strip_trail_braces(s.drop_last())
    } else {
        s
    }
}

/// `s.trim_matches(|c| c == '{' || c == '}')`.
pub open spec fn strip_braces(s: Seq<char>) -> Seq<char> {
    strip_trail_braces(strip_lead_braces(s))
}

/// `s` without leading and trailing braces.
fn stripped_braces(s: &Vec<char>) -> (r: Vec<char>)
    ensures
        r@ == strip_braces(s@),
{
    let n = s.len();
    let mut lo: usize = 0;
    proof {
        assert(s@.subrange(0, n as int) =~= s@);
    }
    while lo < n && (s[lo] == '{' || s[lo] == '}')
        invariant
            n == s@.len(),
            lo <= n,
            strip_lead_braces(s@) == strip_lead_braces(s@.subrange(lo as int, n as int)),
        decreases n - lo,
    {
        proof {
            assert(s@.subrange(lo as int, n as int).drop_first() =~= s@.subrange(lo + 1, n as int));
        }
        lo = lo + 1;
    }
    let ghost t = s@.subrange(lo as int, n as int);
    let mut hi: usize = n;
    while hi > lo && (s[hi - 1] == '{' || s[hi - 1] == '}')
        invariant
            n == s@.len(),
            lo <= hi <= n,
            t == s@.subrange(lo as int, n as int),
            strip_trail_braces(t) == strip_trail_braces(s@.subrange(lo as int, hi as int)),
        decreases hi,
    {
        proof {
            assert(s@.subrange(lo as int, hi as int).drop_last() =~= s@.subrange(lo as int, hi - 1));
        }
        hi = hi - 1;
    }
    chars_slice(s, lo, hi)
}

// ---- Numbers ----

/// `usize::from_str`: an optional `+`, then at least one decimal digit,
/// the value fitting in `usize`.
pub open spec fn parse_usize(s: Seq<char>) -> Option<usize> {
    let d = if s.len() > 0 && s[0] == '+' {
        s.drop_first()
    } else {
        s
    };
    if d.len() == 0 {
        None
    } else {
        match digits_value(d, 10) {
            Some(v) => if v <= usize::MAX {
                Some(v as usize)
            } else {
                None
            },
            None => None,
        }
    }
}

/// Once a prefix of decimal digits exceeds `usize::MAX`, so does the whole,
/// unless a later character is not a digit.
proof fn lemma_digits_exceed(s: Seq<char>, k: int)
    requires
        0 <= k <= s.len(),
        digits_value(s.take(k), 10) is Some,
        digits_value(s.take(k), 10)->Some_0 > usize::MAX,
    ensures
        digits_value(s, 10) is None || digits_value(s, 10)->Some_0 > usize::MAX,
    decreases s.len() - k,
{
    if k < s.len() {
        assert(s.take(k + 1).drop_last() =~= s.take(k));
        let v = digits_value(s.take(k), 10)->Some_0;
        if let Some(d) = digit_in(s[k], 10) {
            assert(v * 10 + d >= v) by (nonlinear_arith);
            lemma_digits_exceed(s, k + 1);
        } else {
            lemma_digits_none(s, 10, k + 1);
        }
    } else {
        assert(s.take(k) =~= s);
    }
}

/// Parse a decimal `usize`.
#[verifier::spinoff_prover]
#[verifier::rlimit(30)]
pub(crate) fn parse_usize_chars(s: &Vec<char>) -> (r: Option<usize>)
    ensures
        r == parse_usize(s@),
{
    let start: usize = if s.len() > 0 && s[0] == '+' { 1 } else { 0 };
    let ghost d = if s@.len() > 0 && s@[0] == '+' { s@.drop_first() } else { s@ };
    proof {
        assert(d =~= s@.subrange(start as int, s@.len() as int));
    }
    if start >= s.len() {
        return None;
    }
    let mut v: usize = 0;
    let mut i: usize = start;
    proof {
        assert(d.take(0) =~= Seq::<char>::empty());
    }
    while i < s.len()
        invariant
            start <= i <= s@.len(),
            d == s@.subrange(start as int, s@.len() as int),
            d == (if s@.len() > 0 && s@[0] == '+' {
                s@.drop_first()
            } else {
                s@
            }),
            digits_value(d.take(i - start), 10) == Some(v as nat),
        decreases s@.len() - i,
    {
        let c = s[i];
        proof {
            assert(d.take(i - start + 1).drop_last() =~= d.take(i - start));
            assert(d.take(i - start + 1).last() == c);
        }
        if !('0' <= c && c <= '9') {
            proof {
                assert(digit_in(c, 10) is None);
                lemma_digits_none(d, 10, i - start + 1);
            }
            return None;
        }
        let dv: usize = (c as u32 - '0' as u32) as usize;
        proof {
            assert(digit_in(c, 10) == Some(dv as nat));
        }
        let q: usize = (usize::MAX - dv) / 10;
        if v > q {
            proof {
                assert(v * 10 + dv > usize::MAX) by (nonlinear_arith)
                    requires
                        v as int >= q as int + 1,
                        q as int == (usize::MAX - dv as int) / 10,
                        dv < 10,
                ;
                lemma_digits_exceed(d, i - start + 1);
            }
            return None;
        }
        proof {
            assert(v * 10 + dv <= usize::MAX) by (nonlinear_arith)
                requires
                    v as int <= q as int,
                    q as int == (usize::MAX - dv as int) / 10,
                    dv < 10,
            ;
        }
        v = v * 10 + dv;
        i = i + 1;
    }
    proof {
        assert(d.take(i - start) =~= d);
    }
    Some(v)
}


// ---- Header dict ----

/// Why an `.npy` entry is refused.
#[derive(Clone, Copy, Debug, PartialEq, Eq, Structural)]
pub enum NpyError {
    /// Fewer than 10 bytes.
    TooSmall,
    /// The first six bytes are not `\x93NUMPY`.
    BadMagic,
    /// Version 2 or later with fewer than 12 bytes.
    V2HeaderTooShort,
    /// Major version 0.
    UnsupportedVersion { major: u8, minor: u8 },
    /// The header runs past the end of the entry.
    HeaderBeyondData { header_end: u64, data_len: usize },
    /// The header is not UTF-8.
    HeaderNotUtf8,
    /// No `'descr'` string in the header.
    MissingDescr,
    /// No `'shape'` tuple in the header.
    MissingShape,
}

/// What follows `pat` in `t`, without leading whitespace.
pub open spec fn after_key(t: Seq<char>, pat: Seq<char>) -> Option<Seq<char>> {
    match find_sub(t, pat) {
        Some(i) => Some(trim_start(t.subrange(i + pat.len(), t.len() as int))),
        None => None,
    }
}

/// The single-quoted string after `pat`.
pub open spec fn quoted_value(t: Seq<char>, pat: Seq<char>) -> Option<Seq<char>> {
    match after_key(t, pat) {
        Some(r) => if r.len() > 0 && r[0] == '\'' {
            match spec_find_char(r.drop_first(), '\'') {
                Some(e) => Some(r.drop_first().take(e)),
                None => None,
            }
        } else {
            None
        },
        None => None,
    }
}

/// The `True` or `False` after `pat`.
pub open spec fn bool_value(t: Seq<char>, pat: Seq<char>) -> Option<bool> {
    match after_key(t, pat) {
        Some(r) => if starts_with(r, "True"@) {
            Some(true)
        } else if starts_with(r, "False"@) {
            Some(false)
        } else {
            None
        },
        None => None,
    }
}

/// One comma-separated piece of a shape tuple: nothing when blank, else
/// its number; `None` when it is not a number.
pub open spec fn piece_dim(p: Seq<char>) -> Option<Option<usize>> {
    let t = trim(p);
    if t.len() == 0 {
        Some(None)
    } else {
        match parse_usize(t) {
            Some(v) => Some(Some(v)),
            None => None,
        }
    }
}

/// A piece followed by the dimensions of the rest.
pub open spec fn join_dim(a: Option<Option<usize>>, rest: Option<Seq<usize>>) -> Option<Seq<usize>> {
    match (a, rest) {
        (Some(None), Some(r)) => Some(r),
        (Some(Some(v)), Some(r)) => Some(seq![v] + r),
        _ => None,
    }
}

/// The dimensions of a comma-separated list, blank pieces skipped; `None`
/// when a piece is not a number.
pub open spec fn dims_list(s: Seq<char>) -> Option<Seq<usize>>
    decreases s.len(),
{
    match spec_find_char(s, ',') {
        Some(i) => if 0 <= i < s.len() {
            join_dim(piece_dim(s.take(i)), dims_list(s.subrange(i + 1, s.len() as int)))
        } else {
            None
        },
        None => join_dim(piece_dim(s), Some(Seq::empty())),
    }
}

/// The tuple after `'shape':`.
pub open spec fn shape_value(t: Seq<char>) -> Option<Seq<usize>> {
    match after_key(t, "'shape':"@) {
        Some(r) => if r.len() > 0 && r[0] == '(' {
            match spec_find_char(r, ')') {
                Some(e) => if 1 <= e {
                    dims_list(r.subrange(1, e))
                } else {
                    None
                },
                None => None,
            }
        } else {
            None
        },
        None => None,
    }
}

/// The element type of a NumPy `descr` (`f8` loads as `F32`; unknown
/// descriptors read as `F32`).
pub open spec fn descr_dtype(d: Seq<char>) -> DType {
    if d == "<f2"@ || d == "=f2"@ || d == "f2"@ || d == ">f2"@ {
        DType::F16
    } else if d == "<i1"@ || d == "=i1"@ || d == "i1"@ || d == "|i1"@ {
        DType::I8
    } else if d == "<u1"@ || d == "=u1"@ || d == "u1"@ || d == "|u1"@ {
        DType::U8
    } else {
        DType::F32
    }
}

/// The NumPy descriptors read as the element type they name: the int8
/// descriptors (`<i1`, `=i1`, `i1`, `|i1`) as I8, the uint8 ones as U8,
/// the float16 ones (either byte order) as F16, and the float32 and
/// float64 ones (float64 loading as F32) as F32.
pub proof fn lemma_descr_table()
    ensures
        descr_dtype("<i1"@) == DType::I8,
        descr_dtype("=i1"@) == DType::I8,
        descr_dtype("i1"@) == DType::I8,
        descr_dtype("|i1"@) == DType::I8,
        descr_dtype("<u1"@) == DType::U8,
        descr_dtype("=u1"@) == DType::U8,
        descr_dtype("u1"@) == DType::U8,
        descr_dtype("|u1"@) == DType::U8,
        descr_dtype("<f2"@) == DType::F16,
        descr_dtype("=f2"@) == DType::F16,
        descr_dtype("f2"@) == DType::F16,
        descr_dtype(">f2"@) == DType::F16,
        descr_dtype("<f4"@) == DType::F32,
        descr_dtype("=f4"@) == DType::F32,
        descr_dtype("f4"@) == DType::F32,
        descr_dtype(">f4"@) == DType::F32,
        descr_dtype("<f8"@) == DType::F32,
        descr_dtype("=f8"@) == DType::F32,
        descr_dtype("f8"@) == DType::F32,
        forall|d: Seq<char>|
            #![trigger descr_dtype(d)]
            descr_dtype(d) == DType::I8 ==> d.len() >= 2 && d[d.len() - 2] == 'i' && d[d.len() - 1] == '1',
        forall|d: Seq<char>|
            #![trigger descr_dtype(d)]
            descr_dtype(d) == DType::U8 ==> d.len() >= 2 && d[d.len() - 2] == 'u' && d[d.len() - 1] == '1',
        forall|d: Seq<char>|
            #![trigger descr_dtype(d)]
            descr_dtype(d) == DType::F16 ==> d.len() >= 2 && d[d.len() - 2] == 'f' && d[d.len() - 1] == '2',
{
    reveal_strlit("<f4");
    reveal_strlit("=f4");
    reveal_strlit("f4");
    reveal_strlit("<f2");
    reveal_strlit("=f2");
    reveal_strlit("f2");
    reveal_strlit("<f8");
    reveal_strlit("=f8");
    reveal_strlit("f8");
    reveal_strlit("<i1");
    reveal_strlit("=i1");
    reveal_strlit("i1");
    reveal_strlit("|i1");
    reveal_strlit("<u1");
    reveal_strlit("=u1");
    reveal_strlit("u1");
    reveal_strlit("|u1");
    reveal_strlit(">f4");
    reveal_strlit(">f2");
    assert("<f4"@[0] == '<' && "<f4"@[1] == 'f' && "<f4"@[2] == '4' && "<f4"@.len() == 3);
    assert("=f4"@[0] == '=' && "=f4"@[1] == 'f' && "=f4"@[2] == '4' && "=f4"@.len() == 3);
    assert("f4"@[0] == 'f' && "f4"@[1] == '4' && "f4"@.len() == 2);
    assert("<f2"@[0] == '<' && "<f2"@[1] == 'f' && "<f2"@[2] == '2' && "<f2"@.len() == 3);
    assert("=f2"@[0] == '=' && "=f2"@[1] == 'f' && "=f2"@[2] == '2' && "=f2"@.len() == 3);
    assert("f2"@[0] == 'f' && "f2"@[1] == '2' && "f2"@.len() == 2);
    assert("<f8"@[0] == '<' && "<f8"@[1] == 'f' && "<f8"@[2] == '8' && "<f8"@.len() == 3);
    assert("=f8"@[0] == '=' && "=f8"@[1] == 'f' && "=f8"@[2] == '8' && "=f8"@.len() == 3);
    assert("f8"@[0] == 'f' && "f8"@[1] == '8' && "f8"@.len() == 2);
    assert("<i1"@[0] == '<' && "<i1"@[1] == 'i' && "<i1"@[2] == '1' && "<i1"@.len() == 3);
    assert("=i1"@[0] == '=' && "=i1"@[1] == 'i' && "=i1"@[2] == '1' && "=i1"@.len() == 3);
    assert("i1"@[0] == 'i' && "i1"@[1] == '1' && "i1"@.len() == 2);
    assert("|i1"@[0] == '|' && "|i1"@[1] == 'i' && "|i1"@[2] == '1' && "|i1"@.len() == 3);
    assert("<u1"@[0] == '<' && "<u1"@[1] == 'u' && "<u1"@[2] == '1' && "<u1"@.len() == 3);
    assert("=u1"@[0] == '=' && "=u1"@[1] == 'u' && "=u1"@[2] == '1' && "=u1"@.len() == 3);
    assert("u1"@[0] == 'u' && "u1"@[1] == '1' && "u1"@.len() == 2);
    assert("|u1"@[0] == '|' && "|u1"@[1] == 'u' && "|u1"@[2] == '1' && "|u1"@.len() == 3);
    assert(">f4"@[0] == '>' && ">f4"@[1] == 'f' && ">f4"@[2] == '4' && ">f4"@.len() == 3);
    assert(">f2"@[0] == '>' && ">f2"@[1] == 'f' && ">f2"@[2] == '2' && ">f2"@.len() == 3);
}

/// Shape, element type and Fortran order of an `.npy` header.
pub open spec fn npy_header(h: Seq<char>) -> Result<(Seq<usize>, DType, bool), NpyError> {
    let t = strip_braces(trim(h));
    match quoted_value(t, "'descr':"@) {
        None => Err(NpyError::MissingDescr),
        Some(d) => match shape_value(t) {
            None => Err(NpyError::MissingShape),
            Some(sh) => Ok(
                (
                    sh,
                    descr_dtype(d),
                    match bool_value(t, "'fortran_order':"@) {
                        Some(b) => b,
                        None => false,
                    },
                ),
            ),
        },
    }
}

/// What follows `pat` in `t`, without leading whitespace.
fn after_key_exec(t: &Vec<char>, pat: &str) -> (r: Option<Vec<char>>)
    ensures
        r matches Some(v) ==> after_key(t@, pat@) == Some(v@),
        r is None ==> after_key(t@, pat@) is None,
{
    let p = to_chars(pat);
    let n = t.len();
    match find_chars(t, &p) {
        Some(i) => {
            proof {
                lemma_find_sub_bounds(t@, p@, 0);
            }
            let rest = chars_slice(t, i + p.len(), t.len());
            Some(trimmed_start(&rest))
        },
        None => None,
    }
}

proof fn lemma_find_sub_bounds(s: Seq<char>, p: Seq<char>, i: int)
    ensures
        find_sub_from(s, p, i) matches Some(j) ==> i <= j && j + p.len() <= s.len(),
    decreases s.len() + 1 - i,
{
    if !(i < 0 || i + p.len() > s.len()) && s.subrange(i, i + p.len()) != p {
        lemma_find_sub_bounds(s, p, i + 1);
    }
}

/// A match found by `find_sub` lies inside the text.
pub(crate) proof fn lemma_find_sub_bounds_pub(s: Seq<char>, p: Seq<char>)
    ensures
        find_sub(s, p) matches Some(j) ==> 0 <= j && j + p.len() <= s.len(),
{
    lemma_find_sub_bounds(s, p, 0);
}

/// The single-quoted string after `pat`.
fn extract_string_value(t: &Vec<char>, pat: &str) -> (r: Option<Vec<char>>)
    ensures
        r matches Some(v) ==> quoted_value(t@, pat@) == Some(v@),
        r is None ==> quoted_value(t@, pat@) is None,
{
    match after_key_exec(t, pat) {
        Some(r) => {
            if r.len() > 0 && r[0] == '\'' {
                let inner = chars_slice(&r, 1, r.len());
                proof {
                    assert(inner@ =~= r@.drop_first());
                }
                match find_char(&inner, '\'') {
                    Some(e) => {
                        let v = chars_slice(&inner, 0, e);
                        proof {
                            assert(v@ =~= inner@.take(e as int));
                        }
                        Some(v)
                    },
                    None => None,
                }
            } else {
                None
            }
        },
        None => None,
    }
}

/// The `True` or `False` after `pat`.
fn extract_bool_value(t: &Vec<char>, pat: &str) -> (r: Option<bool>)
    ensures
        r == bool_value(t@, pat@),
{
    match after_key_exec(t, pat) {
        Some(r) => {
            let yes = to_chars("True");
            let no = to_chars("False");
            if crate::text::chars_start_with(&r, &yes) {
                Some(true)
            } else if crate::text::chars_start_with(&r, &no) {
                Some(false)
            } else {
                None
            }
        },
        None => None,
    }
}

/// Prepend the values found so far to a successful rest.
pub open spec fn join_all(o: Seq<usize>, x: Option<Seq<usize>>) -> Option<Seq<usize>> {
    match x {
        Some(r) => Some(o + r),
        None => None,
    }
}

proof fn lemma_join_push(o: Seq<usize>, v: usize, x: Option<Seq<usize>>)
    ensures
        join_all(o, join_dim(Some(Some(v)), x)) == join_all(o.push(v), x),
{
    if let Some(r) = x {
        assert(o + (seq![v] + r) =~= o.push(v) + r);
    }
}

/// The value of one piece of a shape tuple.
fn piece_dim_exec(p: &Vec<char>) -> (r: Option<Option<usize>>)
    ensures
        r == piece_dim(p@),
{
    let t = trimmed(p);
    if t.len() == 0 {
        Some(None)
    } else {
        match parse_usize_chars(&t) {
            Some(v) => Some(Some(v)),
            None => None,
        }
    }
}

/// The dimensions of a comma-separated list.
fn dims_list_exec(s: &Vec<char>) -> (r: Option<Vec<usize>>)
    ensures
        r matches Some(v) ==> dims_list(s@) == Some(v@),
        r is None ==> dims_list(s@) is None,
{
    let mut rest = chars_slice(s, 0, s.len());
    let mut out: Vec<usize> = Vec::new();
    proof {
        assert(rest@ =~= s@);
        assert(out@ + Seq::<usize>::empty() =~= Seq::<usize>::empty());
        if let Some(r) = dims_list(s@) {
            assert(out@ + r =~= r);
        }
    }
    loop
        invariant
            dims_list(s@) == join_all(out@, dims_list(rest@)),
        decreases rest@.len(),
    {
        let rl = rest.len();
        match find_char(&rest, ',') {
            Some(i) => {
                let piece = chars_slice(&rest, 0, i);
                let next = chars_slice(&rest, i + 1, rest.len());
                proof {
                    assert(piece@ =~= rest@.take(i as int));
                }
                match piece_dim_exec(&piece) {
                    Some(Some(v)) => {
                        proof {
                            lemma_join_push(out@, v, dims_list(next@));
                        }
                        out.push(v);
                    },
                    Some(None) => {},
                    None => {
                        return None;
                    },
                }
                rest = next;
            },
            None => {
                match piece_dim_exec(&rest) {
                    Some(Some(v)) => {
                        proof {
                            lemma_join_push(out@, v, Some(Seq::<usize>::empty()));
                            assert(out@.push(v) + Seq::<usize>::empty() =~= out@.push(v));
                        }
                        out.push(v);
                    },
                    Some(None) => {
                        proof {
                            assert(out@ + Seq::<usize>::empty() =~= out@);
                        }
                    },
                    None => {
                        return None;
                    },
                }
                return Some(out);
            },
        }
    }
}

/// The tuple after `'shape':`.
fn extract_shape(t: &Vec<char>) -> (r: Option<Vec<usize>>)
    ensures
        r matches Some(v) ==> shape_value(t@) == Some(v@),
        r is None ==> shape_value(t@) is None,
{
    match after_key_exec(t, "'shape':") {
        Some(r) => {
            if r.len() > 0 && r[0] == '(' {
                match find_char(&r, ')') {
                    Some(e) => {
                        if e < 1 {
                            return None;
                        }
                        let inner = chars_slice(&r, 1, e);
                        dims_list_exec(&inner)
                    },
                    None => None,
                }
            } else {
                None
            }
        },
        None => None,
    }
}

/// The element type of a NumPy `descr`.
fn npy_descr_to_dtype(d: &Vec<char>) -> (r: DType)
    ensures
        r == descr_dtype(d@),
{
    let s = string_of(d);
    let s = s.as_str();
    if str_eq(s, "<f2") || str_eq(s, "=f2") || str_eq(s, "f2") || str_eq(s, ">f2") {
        DType::F16
    } else if str_eq(s, "<i1") || str_eq(s, "=i1") || str_eq(s, "i1") || str_eq(s, "|i1") {
        DType::I8
    } else if str_eq(s, "<u1") || str_eq(s, "=u1") || str_eq(s, "u1") || str_eq(s, "|u1") {
        DType::U8
    } else {
        DType::F32
    }
}

/// Shape, element type and Fortran order of an `.npy` header.
pub fn parse_npy_header(header: &str) -> (r: Result<(Vec<usize>, DType, bool), NpyError>)
    ensures
        match npy_header(header@) {
            Ok((sh, dt, fo)) => r matches Ok((v, d, f)) && v@ == sh && d == dt && f == fo,
            Err(e) => r == Err::<(Vec<usize>, DType, bool), NpyError>(e),
        },
{
    let h = to_chars(header);
    let t0 = trimmed(&h);
    let t = stripped_braces(&t0);
    let descr = match extract_string_value(&t, "'descr':") {
        Some(d) => d,
        None => return Err(NpyError::MissingDescr),
    };
    let fortran = match extract_bool_value(&t, "'fortran_order':") {
        Some(b) => b,
        None => false,
    };
    let shape = match extract_shape(&t) {
        Some(v) => v,
        None => return Err(NpyError::MissingShape),
    };
    Ok((shape, npy_descr_to_dtype(&descr), fortran))
}


// ---- .npy entries ----

/// The first six bytes are `\x93NUMPY`.
pub open spec fn npy_magic(b: Seq<u8>) -> bool {
    b[0] == 0x93 && b[1] == 0x4e && b[2] == 0x55 && b[3] == 0x4d && b[4] == 0x50 && b[5] == 0x59
}

/// The header of `hl` bytes starting at `hs`, if it fits.
pub open spec fn header_fits(b: Seq<u8>, hs: int, hl: int) -> Result<(int, int), NpyError> {
    if hs + hl > b.len() {
        Err(NpyError::HeaderBeyondData { header_end: (hs + hl) as u64, data_len: b.len() as usize })
    } else {
        Ok((hs, hs + hl))
    }
}

/// Where the header of an `.npy` entry lies, or why it is refused first.
pub open spec fn npy_header_span(b: Seq<u8>) -> Result<(int, int), NpyError> {
    if b.len() < 10 {
        Err(NpyError::TooSmall)
    } else if !npy_magic(b) {
        Err(NpyError::BadMagic)
    } else if b[6] == 1 {
        header_fits(b, 10, u16_at(b, 8) as int)
    } else if b[6] >= 2 {
        if b.len() < 12 {
            Err(NpyError::V2HeaderTooShort)
        } else {
            header_fits(b, 12, u32_at(b, 8) as int)
        }
    } else {
        Err(NpyError::UnsupportedVersion { major: b[6], minor: b[7] })
    }
}

/// Shape, element type and data of an `.npy` entry.
pub open spec fn npy_parse(b: Seq<u8>) -> Result<(Seq<usize>, DType, Seq<u8>), NpyError> {
    match npy_header_span(b) {
        Err(e) => Err(e),
        Ok((hs, he)) => {
            let h = b.subrange(hs, he);
            if !valid_utf8(h) {
                Err(NpyError::HeaderNotUtf8)
            } else {
                match npy_header(decode_utf8(h)) {
                    Err(e) => Err(e),
                    Ok((sh, dt, _)) => Ok((sh, dt, b.subrange(he, b.len() as int))),
                }
            }
        },
    }
}

/// Parse an `.npy` entry into its shape, element type and raw data (the
/// bytes after the header).
pub fn parse_npy(data: &[u8]) -> (r: Result<(Vec<usize>, DType, Vec<u8>), NpyError>)
    ensures
        match npy_parse(data@) {
            Ok((sh, dt, raw)) => r matches Ok((v, d, w)) && v@ == sh && d == dt && w@ == raw,
            Err(e) => r == Err::<(Vec<usize>, DType, Vec<u8>), NpyError>(e),
        },
{
    let n = data.len();
    if n < 10 {
        return Err(NpyError::TooSmall);
    }
    if !(data[0] == 0x93 && data[1] == 0x4e && data[2] == 0x55 && data[3] == 0x4d && data[4] == 0x50 && data[5]
        == 0x59) {
        return Err(NpyError::BadMagic);
    }
    let major = data[6];
    let minor = data[7];
    let (hs, hl): (usize, u64) = if major == 1 {
        (10, crate::ggml::u16_le(data, 8) as u64)
    } else if major >= 2 {
        if n < 12 {
            return Err(NpyError::V2HeaderTooShort);
        }
        (12, crate::ggml::u32_le(data, 8) as u64)
    } else {
        return Err(NpyError::UnsupportedVersion { major, minor });
    };
    let he: u64 = hs as u64 + hl;
    if he > n as u64 {
        return Err(NpyError::HeaderBeyondData { header_end: he, data_len: n });
    }
    let he = he as usize;
    let hb = slice_to_vec(slice_subrange(data, hs, he));
    let text = match string_from_utf8(hb) {
        Some(t) => t,
        None => return Err(NpyError::HeaderNotUtf8),
    };
    let (shape, dtype, _fortran) = match parse_npy_header(text.as_str()) {
        Ok(x) => x,
        Err(e) => return Err(e),
    };
    let raw = slice_to_vec(slice_subrange(data, he, n));
    Ok((shape, dtype, raw))
}


// ---- ZIP entries ----

/// A ZIP entry: name and contents (inflated for DEFLATE entries).
pub type ZipEntry = (Seq<char>, Seq<u8>);

/// The signature of a ZIP local file header.
pub const LOCAL_HEADER_SIG: u32 = 0x04034b50;

/// Where the name of the local header at `p` ends.
pub open spec fn lh_name_end(b: Seq<u8>, p: int) -> int {
    p + 30 + u16_at(b, p + 26)
}

/// Where the data of the local header at `p` starts.
pub open spec fn lh_data_start(b: Seq<u8>, p: int) -> int {
    lh_name_end(b, p) + u16_at(b, p + 28)
}

/// Where the data of the local header at `p` ends.
pub open spec fn lh_data_end(b: Seq<u8>, p: int) -> int {
    lh_data_start(b, p) + u32_at(b, p + 18)
}

/// What `miniz_oxide::inflate::decompress_to_vec` makes of raw DEFLATE
/// data: the inflated bytes, or `None` when the data is not a complete,
/// valid DEFLATE stream.
pub uninterp spec fn inflated(data: Seq<u8>) -> Option<Seq<u8>>;

/// `miniz_oxide::inflate::decompress_to_vec`: inflate raw DEFLATE data (no
/// zlib header). Its result is named by `inflated`; nothing else of it is
/// claimed.
#[verifier::external_body]
fn inflate(data: &[u8]) -> (r: Option<Vec<u8>>)
    ensures
        match r {
            Some(v) => inflated(data@) == Some(v@),
            None => inflated(data@) is None,
        },
{
    miniz_oxide::inflate::decompress_to_vec(data).ok()
}

/// The entry held by the data `raw` of the local header at `p`: the stored
/// bytes for method 0 (STORE), the inflated bytes for method 8 (DEFLATE);
/// none for other methods or DEFLATE data that does not inflate.
pub open spec fn entry_content(b: Seq<u8>, p: int, raw: Seq<u8>) -> Option<Seq<u8>> {
    if u16_at(b, p + 8) == 0 {
        Some(raw)
    } else if u16_at(b, p + 8) == 8 {
        inflated(raw)
    } else {
        None
    }
}

/// The entries from the local header at `p` on, in file order: STORE
/// entries with their bytes, DEFLATE entries with their inflated bytes.
/// The walk ends at a missing signature, or a header, name or data running
/// past the end; entries of other methods, and DEFLATE data that does not
/// inflate, are skipped.
pub open spec fn zip_walk(b: Seq<u8>, p: int) -> Seq<ZipEntry>
    decreases b.len() - p,
{
    if p < 0 || p + 4 > b.len() || u32_at(b, p) != LOCAL_HEADER_SIG || p + 30 > b.len() || lh_name_end(b, p)
        > b.len() || lh_data_end(b, p) > b.len() {
        Seq::empty()
    } else {
        match entry_content(b, p, b.subrange(lh_data_start(b, p), lh_data_end(b, p))) {
            Some(c) => seq![(crate::ggml::utf8_lossy(b.subrange(p + 30, lh_name_end(b, p))), c)]
                + zip_walk(b, lh_data_end(b, p)),
            None => zip_walk(b, lh_data_end(b, p)),
        }
    }
}

/// The names and bytes of the entries.
pub open spec fn entry_views(v: Seq<(String, Vec<u8>)>) -> Seq<ZipEntry> {
    v.map_values(|e: (String, Vec<u8>)| (e.0@, e.1@))
}

/// The entries of a ZIP archive (STORE and DEFLATE), walking the local
/// headers from the start.
fn parse_zip_entries(data: &[u8]) -> (r: Vec<(String, Vec<u8>)>)
    ensures
        entry_views(r@) == zip_walk(data@, 0),
{
    let mut entries: Vec<(String, Vec<u8>)> = Vec::new();
    let mut pos: usize = 0;
    let n = data.len();
    proof {
        assert(entry_views(entries@) + zip_walk(data@, 0) =~= zip_walk(data@, 0));
    }
    while pos <= n && n - pos >= 4
        invariant
            n == data@.len(),
            pos <= n,
            zip_walk(data@, 0) == entry_views(entries@) + zip_walk(data@, pos as int),
        ensures
            zip_walk(data@, 0) == entry_views(entries@) + zip_walk(data@, pos as int),
            zip_walk(data@, pos as int) == Seq::<ZipEntry>::empty(),
        decreases n - pos,
    {
        let sig = crate::ggml::u32_le(data, pos);
        if sig != LOCAL_HEADER_SIG || n - pos < 30 {
            break;
        }
        let compression = crate::ggml::u16_le(data, pos + 8);
        let cs = crate::ggml::u32_le(data, pos + 18) as usize;
        let nl = crate::ggml::u16_le(data, pos + 26) as usize;
        let el = crate::ggml::u16_le(data, pos + 28) as usize;
        let ns = pos + 30;
        if n - ns < nl {
            break;
        }
        let ne = ns + nl;
        if n - ne < el {
            break;
        }
        let ds = ne + el;
        if n - ds < cs {
            break;
        }
        let de = ds + cs;
        let ghost before = entry_views(entries@);
        let raw = slice_subrange(data, ds, de);
        let content: Option<Vec<u8>> = if compression == 0 {
            Some(slice_to_vec(raw))
        } else if compression == 8 {
            inflate(raw)
        } else {
            None
        };
        proof {
            assert(raw@ == data@.subrange(lh_data_start(data@, pos as int), lh_data_end(data@, pos as int)));
        }
        match content {
            Some(bytes) => {
                let name = crate::ggml::string_from_utf8_lossy(slice_subrange(data, ns, ne));
                entries.push((name, bytes));
                proof {
                    assert(entry_views(entries@) =~= before.push((name@, bytes@)));
                    assert(before + zip_walk(data@, pos as int) =~= before.push((name@, bytes@)) + zip_walk(data@, de as int));
                }
            },
            None => {},
        }
        pos = de;
    }
    proof {
        assert(entry_views(entries@) + Seq::<ZipEntry>::empty() =~= entry_views(entries@));
    }
    entries
}

// ---- Archives ----

/// The tensor name of an entry: the name without a `.npy` suffix.
pub open spec fn tensor_name(name: Seq<char>) -> Seq<char> {
    if name.len() >= 4 && name.subrange(name.len() - 4, name.len() as int) == ".npy"@ {
        name.take(name.len() - 4)
    } else {
        name
    }
}

/// The tensors of the entries that parse as `.npy`, in order; the others
/// are skipped.
pub open spec fn npz_loaded(es: Seq<ZipEntry>) -> Seq<LoadedTensor>
    decreases es.len(),
{
    if es.len() == 0 {
        Seq::empty()
    } else {
        let prev = npz_loaded(es.drop_last());
        match npy_parse(es.last().1) {
            Ok((sh, dt, raw)) => prev.push((tensor_name(es.last().0), sh, dt, raw)),
            Err(_) => prev,
        }
    }
}

/// The tensor name of an entry name.
fn tensor_name_exec(name: &String) -> (r: String)
    ensures
        r@ == tensor_name(name@),
{
    let cs = to_chars(name.as_str());
    let n = cs.len();
    if n >= 4 {
        let tail = chars_slice(&cs, n - 4, n);
        let suffix = to_chars(".npy");
        if crate::text::chars_eq(&tail, &suffix) {
            let head = chars_slice(&cs, 0, n - 4);
            proof {
                assert(head@ =~= name@.take(n - 4));
            }
            return string_of(&head);
        }
    }
    string_of(&cs)
}

/// The tensors of an NPZ archive: each entry (stored, or inflated from
/// DEFLATE) that parses as `.npy`,
/// named without its `.npy` suffix. Entries that do not parse are skipped.
pub fn npz_graph(data: &[u8]) -> (g: Graph)
    ensures
        graph_loads(g, npz_loaded(zip_walk(data@, 0))),
{
    let entries = parse_zip_entries(data);
    let ghost es = entry_views(entries@);
    let mut g = Graph::new();
    let mut i: usize = 0;
    proof {
        assert(es.take(0) =~= Seq::<ZipEntry>::empty());
        assert forall|k: Seq<char>| #[trigger] g.weights@.contains_key(k) <==> last_loaded(npz_loaded(es.take(0)), k) is Some by {}
        assert forall|k: Seq<char>| #[trigger] g.tensors@.contains_key(k) <==> last_loaded(npz_loaded(es.take(0)), k) is Some by {}
    }
    while i < entries.len()
        invariant
            es == entry_views(entries@),
            i <= entries@.len(),
            graph_loads(g, npz_loaded(es.take(i as int))),
        decreases entries@.len() - i,
    {
        let ghost pre = npz_loaded(es.take(i as int));
        proof {
            assert(es.take(i + 1).drop_last() =~= es.take(i as int));
            assert(es.take(i + 1).last() == es[i as int]);
        }
        match parse_npy(entries[i].1.as_slice()) {
            Ok((shape, dtype, raw)) => {
                let name = tensor_name_exec(&entries[i].0);
                let ghost t: LoadedTensor = (name@, shape@, dtype, raw@);
                let meta = TensorMeta::weight(clone_dims(&shape), dtype);
                let w = WeightData { data: raw, shape, dtype };
                let ghost wv = w;
                let ghost mv = meta;
                g.add_tensor(name.clone(), meta);
                g.add_weight(name, w);
                proof {
                    let post = pre.push(t);
                    assert(npz_loaded(es.take(i + 1)) == post);
                    assert(post.drop_last() =~= pre);
                    assert forall|k: Seq<char>| #[trigger] g.weights@.contains_key(k) <==> last_loaded(post, k) is Some by {}
                    assert forall|k: Seq<char>| #[trigger] g.tensors@.contains_key(k) <==> last_loaded(post, k) is Some by {}
                    assert forall|k: Seq<char>| #[trigger] last_loaded(post, k) is Some implies {
                        let u = post[last_loaded(post, k)->0];
                        &&& g.weights@[k].data@ == u.3
                        &&& g.weights@[k].shape@ == u.1
                        &&& g.weights@[k].dtype == u.2
                        &&& g.tensors@[k].shape@ == fixed_dims(u.1)
                        &&& g.tensors@[k].dtype == u.2
                        &&& g.tensors@[k].residency == Residency::Resident
                    } by {
                        if k != t.0 {
                            lemma_last_loaded(pre, k);
                            let j = last_loaded(pre, k)->0;
                            assert(post[j] == pre[j]);
                        }
                    }
                }
            },
            Err(_) => {
                proof {
                    assert(npz_loaded(es.take(i + 1)) == pre);
                }
            },
        }
        i = i + 1;
    }
    proof {
        assert(es.take(i as int) =~= es);
    }
    g
}

} // verus!
