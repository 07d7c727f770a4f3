//! Reading single numbers out of text without a full parser: a `key = n`
//! line of a TOML header, a `"key": n` field of a JSON reply.

use vstd::prelude::*;
use crate::npz::{find_chars, find_sub, starts_with};
use crate::text::{chars_slice, to_chars};
use crate::vocab::{digit_in, digits_value, is_digit, is_ws, lemma_digits_none, split_lines, trim, trim_start, trimmed};

verus! {

// ---- Digits ----

/// Once a prefix of decimal digits exceeds `bound`, so does the whole,
/// unless a later character is not a digit.
proof fn lemma_digits_over(s: Seq<char>, k: int, bound: nat)
    requires
        0 <= k <= s.len(),
        digits_value(s.take(k), 10) is Some,
        digits_value(s.take(k), 10)->Some_0 > bound,
    ensures
        digits_value(s, 10) is None || digits_value(s, 10)->Some_0 > bound,
    decreases s.len() - k,
{
    if k < s.len() {
        assert(s.take(k + 1).drop_last() =~= s.take(k));
        let v = digits_value(s.take(k), 10)->Some_0;
        if let Some(d) = digit_in(s[k], 10) {
            assert(v * 10 + d >= v) by (nonlinear_arith);
            lemma_digits_over(s, k + 1, bound);
        } else {
            lemma_digits_none(s, 10, k + 1);
        }
    } else {
        assert(s.take(k) =~= s);
    }
}

/// The value of the decimal digits `s[from..to]` when all are digits and it
/// fits in `u64`.
#[verifier::spinoff_prover]
#[verifier::rlimit(30)]
fn digits_u64(s: &Vec<char>, from: usize, to: usize) -> (r: Option<u64>)
    requires
        from <= to <= s@.len(),
    ensures
        ({
            let d = s@.subrange(from as int, to as int);
            match digits_value(d, 10) {
                Some(v) => if v <= u64::MAX {
                    r == Some(v as u64)
                } else {
                    r is None
                },
                None => r is None,
            }
        }),
{
    let ghost d = s@.subrange(from as int, to as int);
    let mut v: u64 = 0;
    let mut i: usize = from;
    proof {
        assert(d.take(0) =~= Seq::<char>::empty());
    }
    while i < to
        invariant
            from <= i <= to <= s@.len(),
            d == s@.subrange(from as int, to as int),
            digits_value(d.take(i - from), 10) == Some(v as nat),
        decreases to - i,
    {
        let c = s[i];
        proof {
            assert(d.take(i - from + 1).drop_last() =~= d.take(i - from));
            assert(d.take(i - from + 1).last() == c);
        }
        if !('0' <= c && c <= '9') {
            proof {
                lemma_digits_none(d, 10, i - from + 1);
            }
            return None;
        }
        let dv: u64 = (c as u32 - '0' as u32) as u64;
        let q: u64 = (u64::MAX - dv) / 10;
        if v > q {
            proof {
                assert(v * 10 + dv > u64::MAX) by (nonlinear_arith)
                    requires
                        v as int >= q as int + 1,
                        q as int == (u64::MAX - dv as int) / 10,
                        dv < 10,
                ;
                lemma_digits_over(d, i - from + 1, u64::MAX as nat);
            }
            return None;
        }
        proof {
            assert(v * 10 + dv <= u64::MAX) by (nonlinear_arith)
                requires
                    v as int <= q as int,
                    q as int == (u64::MAX - dv as int) / 10,
                    dv < 10,
            ;
        }
        v = v * 10 + dv;
        i = i + 1;
    }
    proof {
        assert(d.take(i - from) =~= d);
    }
    Some(v)
}

/// `i64::from_str`: an optional `+` or `-`, then at least one decimal
/// digit, the value within `i64`.
pub open spec fn parse_i64(s: Seq<char>) -> Option<i64> {
    let neg = s.len() > 0 && s[0] == '-';
    let d = if s.len() > 0 && (s[0] == '+' || s[0] == '-') {
        s.drop_first()
    } else {
        s
    };
    if d.len() == 0 {
        None
    } else {
        match digits_value(d, 10) {
            Some(v) => if neg && v <= 0x8000_0000_0000_0000 {
                Some((-v) as i64)
            } else if !neg && v <= i64::MAX {
                Some(v as i64)
            } else {
                None
            },
            None => None,
        }
    }
}

/// Parse a decimal `i64`.
fn parse_i64_chars(s: &Vec<char>) -> (r: Option<i64>)
    ensures
        r == parse_i64(s@),
{
    let n = s.len();
    let signed = n > 0 && (s[0] == '+' || s[0] == '-');
    let neg = n > 0 && s[0] == '-';
    let start: usize = if signed { 1 } else { 0 };
    proof {
        let d = if s@.len() > 0 && (s@[0] == '+' || s@[0] == '-') { s@.drop_first() } else { s@ };
        assert(d =~= s@.subrange(start as int, n as int));
    }
    if start >= n {
        return None;
    }
    match digits_u64(s, start, n) {
        Some(v) => {
            if neg {
                if v <= 0x8000_0000_0000_0000 {
                    if v == 0x8000_0000_0000_0000 {
                        Some(i64::MIN)
                    } else {
                        Some(-(v as i64))
                    }
                } else {
                    None
                }
            } else if v <= 0x7fff_ffff_ffff_ffff {
                Some(v as i64)
            } else {
                None
            }
        },
        None => None,
    }
}

// ---- `key = n` lines ----

/// `s` without leading and trailing double quotes.
pub open spec fn strip_quotes(s: Seq<char>) -> Seq<char> {
    strip_trail_quotes(strip_lead_quotes(s))
}

/// `s` without leading double quotes.
pub open spec fn strip_lead_quotes(s: Seq<char>) -> Seq<char>
    decreases s.len(),
{
    if s.len() > 0 && s[0] == '"' {
        strip_lead_quotes(s.drop_first())
    } else {
        s
    }
}

/// `s` without trailing double quotes.
pub open spec fn strip_trail_quotes(s: Seq<char>) -> Seq<char>
    decreases s.len(),
{
    if s.len() > 0 && s.last() == '"' {
        strip_trail_quotes(s.drop_last())
    } else {
        s
    }
}

/// The number of a line `key = n` (whitespace around the parts, the number
/// possibly in double quotes).
pub open spec fn line_int(line: Seq<char>, key: Seq<char>) -> Option<i64> {
    let t = trim(line);
    if starts_with(t, key) {
        let rest = trim_start(t.subrange(key.len() as int, t.len() as int));
        if rest.len() > 0 && rest[0] == '=' {
            parse_i64(strip_quotes(trim(rest.drop_first())))
        } else {
            None
        }
    } else {
        None
    }
}

/// The number of the first of the lines that gives `key` one.
pub open spec fn first_int(lines: Seq<Seq<char>>, key: Seq<char>) -> Option<i64>
    decreases lines.len(),
{
    if lines.len() == 0 {
        None
    } else {
        match first_int(lines.drop_last(), key) {
            Some(v) => Some(v),
            None => line_int(lines.last(), key),
        }
    }
}

/// `s` without leading and trailing double quotes.
fn stripped_quotes(s: &Vec<char>) -> (r: Vec<char>)
    ensures
        r@ == strip_quotes(s@),
{
    let n = s.len();
    let mut lo: usize = 0;
    proof {
        assert(s@.subrange(0, n as int) =~= s@);
    }
    while lo < n && s[lo] == '"'
        invariant
            n == s@.len(),
            lo <= n,
            strip_lead_quotes(s@) == strip_lead_quotes(s@.subrange(lo as int, n as int)),
        decreases n - lo,
    {
        proof {
            assert(s@.subrange(lo as int, n as int).drop_first() =~= s@.subrange(lo + 1, n as int));
        }
        lo = lo + 1;
    }
    let ghost t = s@.subrange(lo as int, n as int);
    let mut hi: usize = n;
    while hi > lo && s[hi - 1] == '"'
        invariant
            n == s@.len(),
            lo <= hi <= n,
            t == s@.subrange(lo as int, n as int),
            strip_trail_quotes(t) == strip_trail_quotes(s@.subrange(lo as int, hi as int)),
        decreases hi,
    {
        proof {
            assert(s@.subrange(lo as int, hi as int).drop_last() =~= s@.subrange(lo as int, hi - 1));
        }
        hi = hi - 1;
    }
    chars_slice(s, lo, hi)
}

/// `s` without leading whitespace.
fn trimmed_front(s: &Vec<char>) -> (r: Vec<char>)
    ensures
        r@ == trim_start(s@),
{
    let n = s.len();
    let mut lo: usize = 0;
    proof {
        assert(s@.subrange(0, n as int) =~= s@);
    }
    while lo < n && is_space(s[lo])
        invariant
            n == s@.len(),
            lo <= n,
            trim_start(s@) == trim_start(s@.subrange(lo as int, n as int)),
        decreases n - lo,
    {
        proof {
            assert(s@.subrange(lo as int, n as int).drop_first() =~= s@.subrange(lo + 1, n as int));
        }
        lo = lo + 1;
    }
    chars_slice(s, lo, n)
}

/// Whether `c` is Unicode whitespace.
fn is_space(c: char) -> (r: bool)
    ensures
        r == is_ws(c),
{
    let u = c as u32;
    (0x09 <= u && u <= 0x0d) || u == 0x20 || u == 0x85 || u == 0xa0 || u == 0x1680 || (0x2000 <= u && u <= 0x200a)
        || u == 0x2028 || u == 0x2029 || u == 0x202f || u == 0x205f || u == 0x3000
}

/// The number of one line for `key`.
fn line_int_exec(line: &Vec<char>, key: &Vec<char>) -> (r: Option<i64>)
    ensures
        r == line_int(line@, key@),
{
    let t = trimmed(line);
    if !crate::text::chars_start_with(&t, key) {
        return None;
    }
    let after = chars_slice(&t, key.len(), t.len());
    let rest = trimmed_front(&after);
    if rest.len() == 0 || rest[0] != '=' {
        return None;
    }
    let v = chars_slice(&rest, 1, rest.len());
    proof {
        assert(v@ =~= rest@.drop_first());
    }
    let v = trimmed(&v);
    let v = stripped_quotes(&v);
    parse_i64_chars(&v)
}

/// The number of the first line `key = n` of the text.
pub fn find_int(text: &str, key: &str) -> (r: Option<i64>)
    ensures
        r == first_int(split_lines(text@), key@),
{
    let chars = to_chars(text);
    let k = to_chars(key);
    let n = chars.len();
    let mut found: Option<i64> = None;
    let mut ls: usize = 0;
    let mut i: usize = 0;
    proof {
        assert(chars@.take(0) =~= Seq::<char>::empty());
        assert(split_lines(chars@.take(0)).drop_last() =~= Seq::<Seq<char>>::empty());
    }
    while i < n
        invariant
            n == chars@.len(),
            chars@ == text@,
            k@ == key@,
            ls <= i <= n,
            found == first_int(split_lines(chars@.take(i as int)).drop_last(), key@),
            split_lines(chars@.take(i as int)).last() == chars@.subrange(ls as int, i as int),
        decreases n - i,
    {
        let ghost pre = chars@.take(i as int);
        let ghost post = chars@.take(i + 1);
        proof {
            assert(post.drop_last() =~= pre);
            assert(post.last() == chars@[i as int]);
            crate::vocab::lemma_split_lines_nonempty(pre);
        }
        if chars[i] == '\n' {
            let line = chars_slice(&chars, ls, i);
            proof {
                let sp = split_lines(pre);
                assert(split_lines(post) == sp.push(seq![]));
                assert(split_lines(post).drop_last() =~= sp);
                assert(sp =~= sp.drop_last().push(sp.last()));
            }
            if found.is_none() {
                found = line_int_exec(&line, &k);
            }
            ls = i + 1;
            proof {
                assert(chars@.subrange(ls as int, i + 1) =~= Seq::<char>::empty());
            }
        } else {
            proof {
                let sp = split_lines(pre);
                assert(split_lines(post).drop_last() =~= sp.drop_last());
                assert(chars@.subrange(ls as int, i + 1) =~= chars@.subrange(ls as int, i as int).push(chars@[i as int]));
            }
        }
        i = i + 1;
    }
    let line = chars_slice(&chars, ls, n);
    proof {
        assert(chars@.take(n as int) =~= chars@);
        let sp = split_lines(chars@);
        crate::vocab::lemma_split_lines_nonempty(chars@);
        assert(sp =~= sp.drop_last().push(sp.last()));
    }
    if found.is_none() {
        found = line_int_exec(&line, &k);
    }
    found
}

/// The layer count (`num_hidden_layers`) and context length
/// (`max_position_embeddings`, else `context_length`) of a text header,
/// 0 when absent; the numbers are cast as `as` casts them.
pub fn header_meta(text: &str) -> (r: (usize, u64))
    ensures
        r.0 == (match first_int(split_lines(text@), "num_hidden_layers"@) {
            Some(v) => v,
            None => 0,
        }) as usize,
        r.1 == (match first_int(split_lines(text@), "max_position_embeddings"@) {
            Some(v) => v,
            None => match first_int(split_lines(text@), "context_length"@) {
                Some(c) => c,
                None => 0,
            },
        }) as u64,
{
    let layers: i64 = match find_int(text, "num_hidden_layers") {
        Some(v) => v,
        None => 0,
    };
    let ctx: i64 = match find_int(text, "max_position_embeddings") {
        Some(v) => v,
        None => match find_int(text, "context_length") {
            Some(c) => c,
            None => 0,
        },
    };
    (layers as usize, ctx as u64)
}

// ---- `"key": n` fields ----

/// The leading decimal digits of `s`.
pub open spec fn leading_digits(s: Seq<char>) -> Seq<char>
    decreases s.len(),
{
    if s.len() > 0 && is_digit(s[0]) {
        seq![s[0]] + leading_digits(s.drop_first())
    } else {
        Seq::empty()
    }
}

/// The unsigned number after `"key":` (whitespace skipped), or 0 when the
/// key is absent, no digit follows, or the number exceeds `u64`.
pub open spec fn json_u64(json: Seq<char>, key: Seq<char>) -> u64 {
    let pat = "\""@ + key + "\":"@;
    match find_sub(json, pat) {
        Some(p) => {
            let digits = leading_digits(trim_start(json.subrange(p + pat.len(), json.len() as int)));
            if digits.len() == 0 {
                0
            } else {
                match digits_value(digits, 10) {
                    Some(v) => if v <= u64::MAX {
                        v as u64
                    } else {
                        0
                    },
                    None => 0,
                }
            }
        },
        None => 0,
    }
}

proof fn lemma_leading_digits(s: Seq<char>, i: int)
    requires
        0 <= i <= s.len(),
        forall|j: int| 0 <= j < i ==> is_digit(#[trigger] s[j]),
        i == s.len() || !is_digit(s[i]),
    ensures
        leading_digits(s) == s.take(i),
    decreases i,
{
    if i > 0 {
        lemma_leading_digits(s.drop_first(), i - 1);
        assert(seq![s[0]] + s.drop_first().take(i - 1) =~= s.take(i));
    } else {
        assert(s.take(0) =~= Seq::<char>::empty());
    }
}

/// The unsigned number after `"key":` in a JSON text, 0 when there is none.
pub fn extract_json_u64(json: &str, key: &str) -> (r: u64)
    ensures
        r == json_u64(json@, key@),
{
    let mut pat = crate::text::owned("\"");
    crate::text::append_str(&mut pat, key);
    crate::text::append_str(&mut pat, "\":");
    let j = to_chars(json);
    let p = to_chars(pat.as_str());
    let n = j.len();
    match find_chars(&j, &p) {
        Some(pos) => {
            proof {
                crate::npz::lemma_find_sub_bounds_pub(j@, p@);
            }
            let after = chars_slice(&j, pos + p.len(), n);
            let rest = trimmed_front(&after);
            let m = rest.len();
            let mut i: usize = 0;
            while i < m && '0' <= rest[i] && rest[i] <= '9'
                invariant
                    m == rest@.len(),
                    i <= m,
                    forall|t: int| 0 <= t < i ==> is_digit(#[trigger] rest@[t]),
                decreases m - i,
            {
                i = i + 1;
            }
            proof {
                lemma_leading_digits(rest@, i as int);
            }
            if i == 0 {
                return 0;
            }
            match digits_u64(&rest, 0, i) {
                Some(v) => {
                    proof {
                        assert(rest@.subrange(0, i as int) =~= rest@.take(i as int));
                    }
                    v
                },
                None => {
                    proof {
                        assert(rest@.subrange(0, i as int) =~= rest@.take(i as int));
                    }
                    0
                },
            }
        },
        None => 0,
    }
}


// ---- Byte-level BPE text ----

/// The text of a GPT-2 byte-level BPE token: `Ġ` (U+0120) is a space and
/// `Ċ` (U+010A) a newline; other characters stand for themselves.
pub open spec fn bpe_char(c: char) -> char {
    if c == '\u{0120}' {
        ' '
    } else if c == '\u{010a}' {
        '\n'
    } else {
        c
    }
}

/// Decode a GPT-2 byte-level BPE token.
pub fn decode_bpe_token(token: &str) -> (r: String)
    ensures
        r@ == token@.map_values(|c: char| bpe_char(c)),
{
    let cs = to_chars(token);
    let mut out: Vec<char> = Vec::new();
    let mut i: usize = 0;
    while i < cs.len()
        invariant
            i <= cs@.len(),
            out@ == cs@.take(i as int).map_values(|c: char| bpe_char(c)),
        decreases cs@.len() - i,
    {
        let c = cs[i];
        let d = if c == '\u{0120}' {
            ' '
        } else if c == '\u{010a}' {
            '\n'
        } else {
            c
        };
        out.push(d);
        proof {
            assert(out@ =~= cs@.take(i + 1).map_values(|c: char| bpe_char(c)));
        }
        i = i + 1;
    }
    proof {
        assert(cs@.take(i as int) =~= cs@);
    }
    crate::text::string_of(&out)
}

} // verus!
