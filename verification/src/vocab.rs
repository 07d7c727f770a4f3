//! The vocabulary section of a `.model` file: a TOML-like text with a
//! `[tokens]` table (`id = "token"`) and a `[merges]` table
//! (`n = ["a", "b"]`).

use vstd::prelude::*;
use crate::text::{chars_eq, chars_slice, find_char, spec_find_char, string_of, to_chars};

verus! {

// ---- Characters ----

/// The Unicode `White_Space` characters (`char::is_whitespace`).
pub open spec fn is_ws(c: char) -> bool {
    let u = c as u32;
    (0x09 <= u && u <= 0x0d) || u == 0x20 || u == 0x85 || u == 0xa0 || u == 0x1680 || (0x2000 <= u && u <= 0x200a)
        || u == 0x2028 || u == 0x2029 || u == 0x202f || u == 0x205f || u == 0x3000
}

/// Whether `c` is Unicode whitespace.
fn ws(c: char) -> (r: bool)
    ensures
        r == is_ws(c),
{
    let u = c as u32;
    (0x09 <= u && u <= 0x0d) || u == 0x20 || u == 0x85 || u == 0xa0 || u == 0x1680 || (0x2000 <= u && u <= 0x200a)
        || u == 0x2028 || u == 0x2029 || u == 0x202f || u == 0x205f || u == 0x3000
}

/// `s` without leading whitespace.
pub open spec fn trim_start(s: Seq<char>) -> Seq<char>
    decreases s.len(),
{
    if s.len() > 0 && is_ws(s[0]) {
        trim_start(s.drop_first())
    } else {
        s
    }
}

/// `s` without trailing whitespace.
pub open spec fn trim_end(s: Seq<char>) -> Seq<char>
    decreases s.len(),
{
    if s.len() > 0 && is_ws(s.last()) {
        trim_end(s.drop_last())
    } else {
        s
    }
}

/// `s` without leading and trailing whitespace (`str::trim`).
pub open spec fn trim(s: Seq<char>) -> Seq<char> {
    trim_end(trim_start(s))
}

/// `s` trimmed.
pub(crate) fn trimmed(s: &Vec<char>) -> (r: Vec<char>)
    ensures
        r@ == trim(s@),
{
    let n = s.len();
    let mut lo: usize = 0;
    proof {
        assert(s@.subrange(0, n as int) =~= s@);
    }
    while lo < n && ws(s[lo])
        invariant
            n == s@.len(),
            lo <= n,
            trim_start(s@) == trim_start(s@.subrange(lo as int, n as int)),
        decreases n - lo,
    {
        proof {
            assert(s@.subrange(lo as int, n as int).drop_first() =~= s@.subrange(lo + 1, n as int));
        }
        lo = lo + 1;
    }
    let ghost t = s@.subrange(lo as int, n as int);
    proof {
        assert(trim_start(s@) == t);
    }
    let mut hi: usize = n;
    while hi > lo && ws(s[hi - 1])
        invariant
            n == s@.len(),
            lo <= hi <= n,
            t == s@.subrange(lo as int, n as int),
            trim_end(t) == trim_end(s@.subrange(lo as int, hi as int)),
        decreases hi,
    {
        proof {
            assert(s@.subrange(lo as int, hi as int).drop_last() =~= s@.subrange(lo as int, hi - 1));
        }
        hi = hi - 1;
    }
    chars_slice(s, lo, hi)
}

// ---- Numbers ----

/// Whether `c` is an ASCII decimal digit.
pub open spec fn is_digit(c: char) -> bool {
    '0' <= c && c <= '9'
}

/// The value of a hexadecimal digit, if `c` is one.
pub open spec fn hex_value(c: char) -> Option<nat> {
    if '0' <= c && c <= '9' {
        Some((c as u32 - '0' as u32) as nat)
    } else if 'a' <= c && c <= 'f' {
        Some((c as u32 - 'a' as u32 + 10) as nat)
    } else if 'A' <= c && c <= 'F' {
        Some((c as u32 - 'A' as u32 + 10) as nat)
    } else {
        None
    }
}

/// The value of a digit in `radix` (10 or 16), if `c` is one.
pub open spec fn digit_in(c: char, radix: nat) -> Option<nat> {
    if radix == 10 {
        if is_digit(c) {
            Some((c as u32 - '0' as u32) as nat)
        } else {
            None
        }
    } else {
        hex_value(c)
    }
}

/// The value of the digits of `s` in `radix`, if all are digits.
pub open spec fn digits_value(s: Seq<char>, radix: nat) -> Option<nat>
    decreases s.len(),
{
    if s.len() == 0 {
        Some(0)
    } else {
        match (digits_value(s.drop_last(), radix), digit_in(s.last(), radix)) {
            (Some(v), Some(d)) => Some(v * radix + d),
            _ => None,
        }
    }
}

/// `u32::from_str_radix(s, radix)`: an optional `+`, then at least one
/// digit, the value fitting in `u32`.
pub open spec fn parse_u32_radix(s: Seq<char>, radix: nat) -> Option<u32> {
    let d = if s.len() > 0 && s[0] == '+' {
        s.drop_first()
    } else {
        s
    };
    if d.len() == 0 {
        None
    } else {
        match digits_value(d, radix) {
            Some(v) => if v <= u32::MAX {
                Some(v as u32)
            } else {
                None
            },
            None => None,
        }
    }
}

/// Parse an unsigned 32-bit number in base 10 or 16.
#[verifier::spinoff_prover]
#[verifier::rlimit(30)]
fn parse_u32_chars(s: &Vec<char>, radix: u32) -> (r: Option<u32>)
    requires
        radix == 10 || radix == 16,
    ensures
        r == parse_u32_radix(s@, radix as nat),
{
    let start: usize = if s.len() > 0 && s[0] == '+' { 1 } else { 0 };
    let ghost d = if s@.len() > 0 && s@[0] == '+' { s@.drop_first() } else { s@ };
    proof {
        assert(d =~= s@.subrange(start as int, s@.len() as int));
    }
    if start >= s.len() {
        return None;
    }
    let mut v: u32 = 0;
    let mut i: usize = start;
    while i < s.len()
        invariant
            radix == 10 || radix == 16,
            start <= i <= s@.len(),
            d == s@.subrange(start as int, s@.len() as int),
            d == (if s@.len() > 0 && s@[0] == '+' {
                s@.drop_first()
            } else {
                s@
            }),
            digits_value(d.take(i - start), radix as nat) == Some(v as nat),
        decreases s@.len() - i,
    {
        let c = s[i];
        let dv: u32 = if '0' <= c && c <= '9' {
            c as u32 - '0' as u32
        } else if radix == 16 && 'a' <= c && c <= 'f' {
            c as u32 - 'a' as u32 + 10
        } else if radix == 16 && 'A' <= c && c <= 'F' {
            c as u32 - 'A' as u32 + 10
        } else {
            proof {
                assert(d.take(i - start + 1).drop_last() =~= d.take(i - start));
                assert(d.take(i - start + 1).last() == c);
                assert(digit_in(c, radix as nat) is None);
                assert(digits_value(d.take(i - start + 1), radix as nat) is None);
                lemma_digits_none(d, radix as nat, i - start + 1);
                assert(digits_value(d, radix as nat) is None);
                assert(d.len() > 0);
            }
            return None;
        };
        proof {
            assert(d.take(i - start + 1).drop_last() =~= d.take(i - start));
            assert(d.take(i - start + 1).last() == c);
            assert(digit_in(c, radix as nat) == Some(dv as nat));
            assert(digits_value(d.take(i - start + 1), radix as nat) == Some((v * radix + dv) as nat));
        }
        let q: u32 = (0xffff_ffffu32 - dv) / radix;
        if v > q {
            proof {
                assert(v * radix + dv > 4294967295) by (nonlinear_arith)
                    requires
                        v as int >= q as int + 1,
                        q as int == (4294967295 - dv as int) / (radix as int),
                        radix >= 10,
                        dv < radix,
                ;
                lemma_digits_grow(d, radix as nat, i - start + 1);
                assert(d.len() > 0);
            }
            return None;
        }
        proof {
            assert(v * radix + dv <= 4294967295) by (nonlinear_arith)
                requires
                    v as int <= q as int,
                    q as int == (4294967295 - dv as int) / (radix as int),
                    radix >= 10,
                    dv < radix,
            ;
        }
        v = v * radix + dv;
        i = i + 1;
    }
    proof {
        assert(d.take(i - start) =~= d);
    }
    Some(v)
}

/// A prefix that is not all digits keeps the whole from being digits.
pub(crate) proof fn lemma_digits_none(s: Seq<char>, radix: nat, k: int)
    requires
        0 <= k <= s.len(),
        digits_value(s.take(k), radix) is None,
    ensures
        digits_value(s, radix) is None,
    decreases s.len() - k,
{
    if k < s.len() {
        assert(s.take(k + 1).drop_last() =~= s.take(k));
        lemma_digits_none(s, radix, k + 1);
    } else {
        assert(s.take(k) =~= s);
    }
}

/// The value of a longer digit string is at least that of its prefix.
proof fn lemma_digits_grow(s: Seq<char>, radix: nat, k: int)
    requires
        0 <= k <= s.len(),
        radix >= 1,
        digits_value(s.take(k), radix) is Some,
        digits_value(s.take(k), radix)->Some_0 > u32::MAX,
    ensures
        digits_value(s, radix) is None || digits_value(s, radix)->Some_0 > u32::MAX,
    decreases s.len() - k,
{
    if k < s.len() {
        assert(s.take(k + 1).drop_last() =~= s.take(k));
        let v = digits_value(s.take(k), radix)->Some_0;
        if let Some(d) = digit_in(s[k], radix) {
            assert(v * radix + d >= v) by (nonlinear_arith)
                requires
                    radix >= 1,
            ;
            lemma_digits_grow(s, radix, k + 1);
        } else {
            lemma_digits_none(s, radix, k + 1);
        }
    } else {
        assert(s.take(k) =~= s);
    }
}


// ---- Strings ----

/// A Unicode scalar value: not a surrogate and at most `0x10FFFF`.
pub open spec fn valid_scalar(u: u32) -> bool {
    u < 0xd800 || (0xe000 <= u && u <= 0x10ffff)
}

/// `char::from_u32`: the character with code `u`, or `None` for a
/// surrogate or a value past `0x10FFFF`.
#[verifier::external_body]
fn char_from_u32(u: u32) -> (r: Option<char>)
    ensures
        valid_scalar(u) ==> r == Some(u as char),
        !valid_scalar(u) ==> r is None,
{
    char::from_u32(u)
}

/// The character a `\u{..}` escape with hexadecimal `hex` stands for:
/// none when `hex` is not a number or not a scalar value.
pub open spec fn decode_code(hex: Seq<char>) -> Seq<char> {
    match parse_u32_radix(hex, 16) {
        Some(u) => if valid_scalar(u) {
            seq![u as char]
        } else {
            seq![]
        },
        None => seq![],
    }
}

/// The character an escape `\c` stands for (`n`, `t`, `r`; any other
/// character stands for itself).
pub open spec fn escaped(c: char) -> char {
    if c == 'n' {
        '\n'
    } else if c == 't' {
        '\t'
    } else if c == 'r' {
        '\r'
    } else {
        c
    }
}

/// `p` before the text, if there is one.
pub open spec fn prepend(p: Seq<char>, o: Option<Seq<char>>) -> Option<Seq<char>> {
    match o {
        Some(r) => Some(p + r),
        None => None,
    }
}

/// The position of the first `}` at or after `j`, or the end.
pub open spec fn close_brace(s: Seq<char>, j: int) -> int
    decreases s.len() - j,
{
    if j >= s.len() {
        s.len() as int
    } else if s[j] == '}' {
        j
    } else {
        close_brace(s, j + 1)
    }
}

pub proof fn lemma_close_brace(s: Seq<char>, j: int)
    requires
        0 <= j,
    ensures
        j <= close_brace(s, j) || close_brace(s, j) == s.len(),
        close_brace(s, j) <= s.len() || j > s.len(),
        j <= s.len() ==> j <= close_brace(s, j) <= s.len(),
    decreases s.len() - j,
{
    if j < s.len() && s[j] != '}' {
        lemma_close_brace(s, j + 1);
    }
}

/// The text `s[i..]` with its escapes resolved, or `None` when it ends in
/// a lone backslash. `\u{hex}` stands for the character with that code
/// (nothing when invalid; an unclosed brace takes the rest of the text),
/// and `\u` without a brace for nothing.
pub open spec fn unescape_from(s: Seq<char>, i: int) -> Option<Seq<char>>
    decreases s.len() - i,
{
    if i < 0 || i >= s.len() {
        Some(seq![])
    } else if s[i] != '\\' {
        prepend(seq![s[i]], unescape_from(s, i + 1))
    } else if i + 1 >= s.len() {
        None
    } else if s[i + 1] == 'u' {
        if i + 2 < s.len() && s[i + 2] == '{' {
            let end = close_brace(s, i + 3);
            proof {
                lemma_close_brace(s, i + 3);
            }
            if end >= s.len() {
                Some(decode_code(s.subrange(i + 3, end)))
            } else {
                prepend(decode_code(s.subrange(i + 3, end)), unescape_from(s, end + 1))
            }
        } else {
            unescape_from(s, i + 2)
        }
    } else {
        prepend(seq![escaped(s[i + 1])], unescape_from(s, i + 2))
    }
}

/// Resolve the escapes of `s`.
fn unescape(s: &Vec<char>) -> (r: Option<Vec<char>>)
    ensures
        match r {
            Some(v) => unescape_from(s@, 0) == Some(v@),
            None => unescape_from(s@, 0) is None,
        },
{
    let n = s.len();
    let mut out: Vec<char> = Vec::new();
    let mut i: usize = 0;
    while i < n
        invariant
            n == s@.len(),
            i <= n,
            unescape_from(s@, 0) == prepend(out@, unescape_from(s@, i as int)),
        decreases n - i,
    {
        let c = s[i];
        if c != '\\' {
            proof {
                assert(out@ + (seq![c] + unescape_from(s@, i + 1)->Some_0) =~= out@.push(c) + unescape_from(s@, i + 1)->Some_0);
            }
            out.push(c);
            i = i + 1;
        } else if i + 1 >= n {
            return None;
        } else if s[i + 1] == 'u' {
            if i + 2 < n && s[i + 2] == '{' {
                let mut end: usize = i + 3;
                while end < n && s[end] != '}'
                    invariant
                        n == s@.len(),
                        i + 3 <= end <= n,
                        close_brace(s@, i + 3) == close_brace(s@, end as int),
                    decreases n - end,
                {
                    end = end + 1;
                }
                proof {
                    lemma_close_brace(s@, i + 3);
                }
                let hex = chars_slice(s, i + 3, end);
                let ghost before = out@;
                match parse_u32_chars(&hex, 16) {
                    Some(u) => match char_from_u32(u) {
                        Some(ch) => {
                            out.push(ch);
                        },
                        None => {},
                    },
                    None => {},
                }
                proof {
                    assert(out@ == before + decode_code(s@.subrange(i + 3, end as int)));
                    if end < n && unescape_from(s@, end + 1) is Some {
                        assert(before + (decode_code(s@.subrange(i + 3, end as int)) + unescape_from(s@, end + 1)->Some_0)
                            =~= out@ + unescape_from(s@, end + 1)->Some_0);
                    }
                }
                if end < n {
                    i = end + 1;
                } else {
                    proof {
                        assert(before + decode_code(s@.subrange(i + 3, end as int)) + Seq::<char>::empty() =~= out@);
                    }
                    i = n;
                }
            } else {
                i = i + 2;
            }
        } else {
            let e = if s[i + 1] == 'n' {
                '\n'
            } else if s[i + 1] == 't' {
                '\t'
            } else if s[i + 1] == 'r' {
                '\r'
            } else {
                s[i + 1]
            };
            proof {
                if unescape_from(s@, i + 2) is Some {
                    assert(out@ + (seq![e] + unescape_from(s@, i + 2)->Some_0) =~= out@.push(e) + unescape_from(s@, i + 2)->Some_0);
                }
            }
            out.push(e);
            i = i + 2;
        }
    }
    proof {
        assert(out@ + Seq::<char>::empty() =~= out@);
    }
    Some(out)
}


/// A quoted TOML string: `"..."` with escapes, or `'...'` literally.
pub open spec fn toml_string(s: Seq<char>) -> Option<Seq<char>> {
    let t = trim(s);
    if t.len() >= 2 && t[0] == '"' && t.last() == '"' {
        unescape_from(t.subrange(1, t.len() - 1), 0)
    } else if t.len() >= 2 && t[0] == '\'' && t.last() == '\'' {
        Some(t.subrange(1, t.len() - 1))
    } else {
        None
    }
}

/// Read a quoted TOML string.
fn parse_toml_string(s: &Vec<char>) -> (r: Option<Vec<char>>)
    ensures
        match r {
            Some(v) => toml_string(s@) == Some(v@),
            None => toml_string(s@) is None,
        },
{
    let t = trimmed(s);
    let n = t.len();
    if n >= 2 && t[0] == '"' && t[n - 1] == '"' {
        let inner = chars_slice(&t, 1, n - 1);
        unescape(&inner)
    } else if n >= 2 && t[0] == '\'' && t[n - 1] == '\'' {
        Some(chars_slice(&t, 1, n - 1))
    } else {
        None
    }
}

/// A merge pair `["a", "b"]`: the two strings around the first comma.
pub open spec fn merge_pair(s: Seq<char>) -> Option<(Seq<char>, Seq<char>)> {
    let t = trim(s);
    if t.len() >= 1 && t[0] == '[' && t.drop_first().len() >= 1 && t.drop_first().last() == ']' {
        let v = trim(t.drop_first().drop_last());
        match spec_find_char(v, ',') {
            Some(c) => match (toml_string(trim(v.take(c))), toml_string(trim(v.skip(c + 1)))) {
                (Some(a), Some(b)) => Some((a, b)),
                _ => None,
            },
            None => None,
        }
    } else {
        None
    }
}

/// Read a merge pair.
fn parse_merge_pair(s: &Vec<char>) -> (r: Option<(Vec<char>, Vec<char>)>)
    ensures
        match r {
            Some((a, b)) => merge_pair(s@) == Some((a@, b@)),
            None => merge_pair(s@) is None,
        },
{
    let t = trimmed(s);
    let n = t.len();
    if !(n >= 2 && t[0] == '[' && t[n - 1] == ']') {
        proof {
            if t@.len() >= 1 && t@[0] == '[' && t@.drop_first().len() >= 1 {
                assert(t@.drop_first().last() == t@[n - 1]);
            }
        }
        return None;
    }
    proof {
        assert(t@.drop_first().drop_last() =~= t@.subrange(1, n - 1));
    }
    let inner = chars_slice(&t, 1, n - 1);
    let v = trimmed(&inner);
    match find_char(&v, ',') {
        Some(c) => {
            let left = trimmed(&chars_slice(&v, 0, c));
            let right = trimmed(&chars_slice(&v, c + 1, v.len()));
            proof {
                assert(v@.take(c as int) =~= v@.subrange(0, c as int));
                assert(v@.skip(c + 1) =~= v@.subrange(c + 1, v@.len() as int));
            }
            match parse_toml_string(&left) {
                Some(a) => match parse_toml_string(&right) {
                    Some(b) => Some((a, b)),
                    None => None,
                },
                None => None,
            }
        },
        None => None,
    }
}


// ---- The vocabulary ----

/// The pieces of `s` between newlines, in order (the last may be empty).
/// Each line is trimmed before use, so a `\r` before the newline and a
/// final empty piece make no difference.
pub open spec fn split_lines(s: Seq<char>) -> Seq<Seq<char>>
    decreases s.len(),
{
    if s.len() == 0 {
        seq![seq![]]
    } else {
        let r = split_lines(s.drop_last());
        if s.last() == '\n' {
            r.push(seq![])
        } else {
            r.update(r.len() - 1, r.last().push(s.last()))
        }
    }
}

pub(crate) proof fn lemma_split_lines_nonempty(s: Seq<char>)
    ensures
        split_lines(s).len() >= 1,
    decreases s.len(),
{
    if s.len() > 0 {
        lemma_split_lines_nonempty(s.drop_last());
    }
}

/// The table the reader is in.
#[derive(Clone, Copy, Debug, PartialEq, Eq, Structural)]
pub enum Section {
    Outside,
    Tokens,
    Merges,
}

/// What has been read: the current table, the tokens and the merges.
pub struct VocabRead {
    pub section: Section,
    pub tokens: Seq<(u32, Seq<char>)>,
    pub merges: Seq<(Seq<char>, Seq<char>)>,
}

/// The text before and after the first `=`.
pub open spec fn split_eq(t: Seq<char>) -> Option<(Seq<char>, Seq<char>)> {
    match spec_find_char(t, '=') {
        Some(c) => Some((t.take(c), t.skip(c + 1))),
        None => None,
    }
}

/// Read one line: blank lines and `#` comments are skipped; `[tokens]`
/// and `[merges]` switch tables; in `[tokens]`, `id = "token"` adds a
/// token when the id is a number and the value a quoted string; in
/// `[merges]`, `n = ["a", "b"]` adds a merge; anything else is skipped.
pub open spec fn vocab_step(st: VocabRead, line: Seq<char>) -> VocabRead {
    let t = trim(line);
    if t.len() == 0 || t[0] == '#' {
        st
    } else if t == "[tokens]"@ {
        VocabRead { section: Section::Tokens, tokens: st.tokens, merges: st.merges }
    } else if t == "[merges]"@ {
        VocabRead { section: Section::Merges, tokens: st.tokens, merges: st.merges }
    } else if st.section == Section::Tokens {
        match split_eq(t) {
            Some((a, rest)) => match (parse_u32_radix(trim(a), 10), toml_string(trim(rest))) {
                (Some(id), Some(v)) => VocabRead { section: st.section, tokens: st.tokens.push((id, v)), merges: st.merges },
                _ => st,
            },
            None => st,
        }
    } else if st.section == Section::Merges {
        match split_eq(t) {
            Some((_, rest)) => match merge_pair(trim(rest)) {
                Some(p) => VocabRead { section: st.section, tokens: st.tokens, merges: st.merges.push(p) },
                None => st,
            },
            None => st,
        }
    } else {
        st
    }
}

/// Read the lines in order, starting outside any table.
pub open spec fn vocab_fold(lines: Seq<Seq<char>>) -> VocabRead
    decreases lines.len(),
{
    if lines.len() == 0 {
        VocabRead { section: Section::Outside, tokens: seq![], merges: seq![] }
    } else {
        vocab_step(vocab_fold(lines.drop_last()), lines.last())
    }
}

/// The tokens as (id, characters).
pub open spec fn token_views(v: Seq<(u32, String)>) -> Seq<(u32, Seq<char>)> {
    v.map_values(|p: (u32, String)| (p.0, p.1@))
}

/// The merges as character pairs.
pub open spec fn merge_views(v: Seq<(String, String)>) -> Seq<(Seq<char>, Seq<char>)> {
    v.map_values(|p: (String, String)| (p.0@, p.1@))
}

/// Read one line into the state.
fn read_line(
    section: &mut Section,
    tokens: &mut Vec<(u32, String)>,
    merges: &mut Vec<(String, String)>,
    line: &Vec<char>,
)
    ensures
        ({
            let st = VocabRead { section: *old(section), tokens: token_views(old(tokens)@), merges: merge_views(old(merges)@) };
            let nx = vocab_step(st, line@);
            &&& *final(section) == nx.section
            &&& token_views(final(tokens)@) == nx.tokens
            &&& merge_views(final(merges)@) == nx.merges
        }),
{
    let t = trimmed(line);
    let tok = to_chars("[tokens]");
    let mer = to_chars("[merges]");
    if t.len() == 0 || t[0] == '#' {
        return;
    }
    if chars_eq(&t, &tok) {
        *section = Section::Tokens;
        return;
    }
    if chars_eq(&t, &mer) {
        *section = Section::Merges;
        return;
    }
    match *section {
        Section::Tokens => {
            match find_char(&t, '=') {
                Some(c) => {
                    let a = trimmed(&chars_slice(&t, 0, c));
                    let rest = trimmed(&chars_slice(&t, c + 1, t.len()));
                    proof {
                        assert(t@.take(c as int) =~= t@.subrange(0, c as int));
                        assert(t@.skip(c + 1) =~= t@.subrange(c + 1, t@.len() as int));
                    }
                    match parse_u32_chars(&a, 10) {
                        Some(id) => match parse_toml_string(&rest) {
                            Some(v) => {
                                let ghost before = tokens@;
                                tokens.push((id, string_of(&v)));
                                proof {
                                    assert(token_views(tokens@) =~= token_views(before).push((id, v@)));
                                }
                            },
                            None => {},
                        },
                        None => {},
                    }
                },
                None => {},
            }
        },
        Section::Merges => {
            match find_char(&t, '=') {
                Some(c) => {
                    let rest = trimmed(&chars_slice(&t, c + 1, t.len()));
                    proof {
                        assert(t@.skip(c + 1) =~= t@.subrange(c + 1, t@.len() as int));
                    }
                    match parse_merge_pair(&rest) {
                        Some((a, b)) => {
                            let ghost before = merges@;
                            merges.push((string_of(&a), string_of(&b)));
                            proof {
                                assert(merge_views(merges@) =~= merge_views(before).push((a@, b@)));
                            }
                        },
                        None => {},
                    }
                },
                None => {},
            }
        },
        Section::Outside => {},
    }
}

/// Parse the `[tokens]` and `[merges]` tables of a vocabulary text:
/// the (id, token) pairs and the merge pairs, in file order (see
/// [`vocab_step`]).
pub fn parse_vocab(vocab_toml: &str) -> (r: (Vec<(u32, String)>, Vec<(String, String)>))
    ensures
        token_views(r.0@) == vocab_fold(split_lines(vocab_toml@)).tokens,
        merge_views(r.1@) == vocab_fold(split_lines(vocab_toml@)).merges,
{
    let chars = to_chars(vocab_toml);
    let n = chars.len();
    let mut section = Section::Outside;
    let mut tokens: Vec<(u32, String)> = Vec::new();
    let mut merges: Vec<(String, String)> = Vec::new();
    let mut ls: usize = 0;
    let mut i: usize = 0;
    proof {
        assert(chars@.take(0) =~= Seq::<char>::empty());
        assert(split_lines(chars@.take(0)).drop_last() =~= Seq::<Seq<char>>::empty());
        assert(token_views(tokens@) =~= Seq::<(u32, Seq<char>)>::empty());
        assert(merge_views(merges@) =~= Seq::<(Seq<char>, Seq<char>)>::empty());
    }
    while i < n
        invariant
            n == chars@.len(),
            chars@ == vocab_toml@,
            ls <= i <= n,
            ({
                let st = vocab_fold(split_lines(chars@.take(i as int)).drop_last());
                &&& section == st.section
                &&& token_views(tokens@) == st.tokens
                &&& merge_views(merges@) == st.merges
            }),
            split_lines(chars@.take(i as int)).last() == chars@.subrange(ls as int, i as int),
        decreases n - i,
    {
        let ghost pre = chars@.take(i as int);
        let ghost post = chars@.take(i + 1);
        proof {
            assert(post.drop_last() =~= pre);
            assert(post.last() == chars@[i as int]);
            lemma_split_lines_nonempty(pre);
        }
        if chars[i] == '\n' {
            let line = chars_slice(&chars, ls, i);
            proof {
                let sp = split_lines(pre);
                assert(split_lines(post) == sp.push(seq![]));
                assert(split_lines(post).drop_last() =~= sp);
                assert(sp =~= sp.drop_last().push(sp.last()));
                assert(vocab_fold(sp) == vocab_step(vocab_fold(sp.drop_last()), sp.last()));
            }
            read_line(&mut section, &mut tokens, &mut merges, &line);
            ls = i + 1;
            proof {
                assert(chars@.subrange(ls as int, i + 1) =~= Seq::<char>::empty());
            }
        } else {
            proof {
                let sp = split_lines(pre);
                assert(split_lines(post).drop_last() =~= sp.drop_last());
                assert(chars@.subrange(ls as int, i + 1) =~= chars@.subrange(ls as int, i as int).push(chars@[i as int]));
            }
        }
        i = i + 1;
    }
    let line = chars_slice(&chars, ls, n);
    proof {
        assert(chars@.take(n as int) =~= chars@);
        let sp = split_lines(chars@);
        lemma_split_lines_nonempty(chars@);
        assert(sp =~= sp.drop_last().push(sp.last()));
        assert(vocab_fold(sp) == vocab_step(vocab_fold(sp.drop_last()), sp.last()));
    }
    read_line(&mut section, &mut tokens, &mut merges, &line);
    (tokens, merges)
}

} // verus!
