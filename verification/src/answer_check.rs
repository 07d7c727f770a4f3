//! Classifying the answer a model gives to "What is 2+2?": clean, doubtful
//! or broken (empty, leaking chat-template fragments, or repeating itself).

use vstd::prelude::*;
use crate::npz::{find_chars, find_sub};
use crate::text::{chars_slice, to_chars};
use crate::vocab::trim;

verus! {

/// What `str::to_lowercase` makes of a text (Unicode lowercase mapping).
pub uninterp spec fn lowercase(s: Seq<char>) -> Seq<char>;

/// `str::to_lowercase`: the text in lowercase; its characters are named by
/// `lowercase`.
#[verifier::external_body]
fn to_lowercase(s: &str) -> (r: String)
    ensures
        r@ == lowercase(s@),
{
    s.to_lowercase()
}

/// Non-overlapping occurrences of `p` in `s` from `i` on, left to right.
pub open spec fn count_from(s: Seq<char>, p: Seq<char>, i: int) -> nat
    decreases s.len() + 1 - i,
{
    if p.len() == 0 || i < 0 || i + p.len() > s.len() {
        0
    } else if s.subrange(i, i + p.len()) == p {
        1 + count_from(s, p, i + p.len())
    } else {
        count_from(s, p, i + 1)
    }
}

/// Non-overlapping occurrences of a non-empty `p` in `s` (`str::matches`).
pub open spec fn count_matches(s: Seq<char>, p: Seq<char>) -> nat {
    count_from(s, p, 0)
}

/// UTF-8 width of a character.
pub open spec fn char_width(c: char) -> nat {
    if (c as u32) < 0x80 {
        1
    } else if (c as u32) < 0x800 {
        2
    } else if (c as u32) < 0x10000 {
        3
    } else {
        4
    }
}

/// UTF-8 length of a text.
pub open spec fn utf8_len(s: Seq<char>) -> nat
    decreases s.len(),
{
    if s.len() == 0 {
        0
    } else {
        utf8_len(s.drop_last()) + char_width(s.last())
    }
}

/// The part of an already lowered answer after a closing `</think>`,
/// trimmed.
pub open spec fn lowered_body(t: Seq<char>) -> Seq<char> {
    trim(
        match find_sub(t, "</think>"@) {
            Some(p) => t.subrange(p + "</think>"@.len(), t.len() as int),
            None => t,
        },
    )
}

/// The answer after a closing `</think>`, trimmed, of the trimmed and
/// lowered text.
pub open spec fn answer_body(text: Seq<char>) -> Seq<char> {
    lowered_body(lowercase(trim(text)))
}

/// Occurrences of chat-template fragments.
pub open spec fn fragment_count(body: Seq<char>) -> nat {
    count_matches(body, "|im_"@) + count_matches(body, "|im "@) + count_matches(body, "|endof"@) + count_matches(
        body,
        "|user"@,
    ) + count_matches(body, "|assistant"@) + count_matches(body, "|fim"@)
}

/// Longer than 20 bytes, with its first 20 characters occurring more than
/// twice.
pub open spec fn repetitive(body: Seq<char>) -> bool {
    utf8_len(body) > 20 && count_matches(body, first20(body)) > 2
}

/// The first 20 characters (all of them when there are fewer).
pub open spec fn first20(s: Seq<char>) -> Seq<char> {
    if s.len() >= 20 {
        s.take(20)
    } else {
        s
    }
}

/// The answer has a `4` or `four`.
pub open spec fn has_four(body: Seq<char>) -> bool {
    body.contains('4') || find_sub(body, "four"@) is Some
}

/// How good the answer is: 0 when broken, 1 when doubtful, 2 when clean.
pub open spec fn grade(text: Seq<char>) -> nat {
    grade_of_lowered(lowercase(trim(text)))
}

/// The grade of a trimmed, lowered answer.
pub open spec fn grade_of_lowered(low: Seq<char>) -> nat {
    let body = lowered_body(low);
    if body.len() == 0 {
        0
    } else if fragment_count(body) >= 3 || repetitive(body) {
        0
    } else if has_four(body) && fragment_count(body) == 0 {
        2
    } else if has_four(body) {
        1
    } else {
        0
    }
}

/// The red cross, yellow question mark and green tick of the grades.
pub open spec fn grade_mark(v: nat) -> Seq<char> {
    if v == 2 {
        "\x1b[32m✓\x1b[0m"@
    } else if v == 1 {
        "\x1b[33m?\x1b[0m"@
    } else {
        "\x1b[31m✗\x1b[0m"@
    }
}

/// Non-overlapping occurrences of `p` in `s`.
fn count_occurrences(s: &Vec<char>, p: &Vec<char>) -> (r: usize)
    ensures
        r == count_matches(s@, p@),
        r <= s@.len(),
{
    let n = s.len();
    let m = p.len();
    if m == 0 {
        return 0;
    }
    let mut count: usize = 0;
    let mut i: usize = 0;
    while i <= n && m <= n - i
        invariant
            n == s@.len(),
            m == p@.len(),
            m > 0,
            count + count_from(s@, p@, i as int) == count_matches(s@, p@),
            count <= i,
            i <= n,
        decreases n + 1 - i,
    {
        if crate::npz::occurs_at(s, p, i) {
            count = count + 1;
            i = i + m;
        } else {
            i = i + 1;
        }
    }
    proof {
        assert(count_from(s@, p@, i as int) == 0);
    }
    count
}

/// UTF-8 length of a text.
fn utf8_length(s: &Vec<char>) -> (r: u128)
    ensures
        r == utf8_len(s@),
{
    let mut w: u128 = 0;
    let mut i: usize = 0;
    let n = s.len();
    proof {
        assert(s@.take(0) =~= Seq::<char>::empty());
    }
    while i < n
        invariant
            n == s@.len(),
            i <= n,
            w == utf8_len(s@.take(i as int)),
            w <= 4 * i,
        decreases n - i,
    {
        let u = s[i] as u32;
        let d: u128 = if u < 0x80 {
            1
        } else if u < 0x800 {
            2
        } else if u < 0x10000 {
            3
        } else {
            4
        };
        proof {
            assert(s@.take(i + 1).drop_last() =~= s@.take(i as int));
        }
        w = w + d;
        i = i + 1;
    }
    proof {
        assert(s@.take(i as int) =~= s@);
    }
    w
}

/// Classify generation quality for the "What is 2+2?" prompt: a green tick
/// for a clean `4`, a yellow question mark for a `4` among template
/// fragments, a red cross for an empty, broken or repetitive answer.
pub fn validate_math_answer(text: &str) -> (r: &'static str)
    ensures
        r@ == grade_mark(grade(text@)),
{
    let t0 = crate::vocab::trimmed(&to_chars(text));
    let low = to_lowercase(crate::text::string_of(&t0).as_str());
    grade_lowered(low.as_str())
}

/// Classify an answer that is already trimmed and lowercased (the grading
/// step of `validate_math_answer`).
pub fn grade_lowered(low: &str) -> (r: &'static str)
    ensures
        r@ == grade_mark(grade_of_lowered(low@)),
{
    let t = to_chars(low);
    let think = to_chars("</think>");
    let n = t.len();
    let after = match find_chars(&t, &think) {
        Some(p) => {
            proof {
                crate::npz::lemma_find_sub_bounds_pub(t@, think@);
            }
            chars_slice(&t, p + think.len(), n)
        },
        None => {
            let a = chars_slice(&t, 0, n);
            proof {
                assert(a@ =~= t@);
            }
            a
        },
    };
    let body = crate::vocab::trimmed(&after);
    let ghost b = body@;
    proof {
        assert(b == lowered_body(low@));
    }
    let frags: u128 = count_occurrences(&body, &to_chars("|im_")) as u128 + count_occurrences(&body, &to_chars("|im "))
        as u128 + count_occurrences(&body, &to_chars("|endof")) as u128 + count_occurrences(&body, &to_chars("|user"))
        as u128 + count_occurrences(&body, &to_chars("|assistant")) as u128 + count_occurrences(
        &body,
        &to_chars("|fim"),
    ) as u128;
    let four = crate::text::find_char(&body, '4').is_some() || find_chars(&body, &to_chars("four")).is_some();
    proof {
        assert(four == has_four(b)) by {
            if b.contains('4') {
                let k = choose|k: int| 0 <= k < b.len() && b[k] == '4';
                assert(b[k] == '4');
            }
        }
    }
    let rep = if utf8_length(&body) > 20 {
        let m = body.len();
        let f = if m >= 20 {
            chars_slice(&body, 0, 20)
        } else {
            chars_slice(&body, 0, m)
        };
        proof {
            assert(f@ =~= first20(b));
        }
        count_occurrences(&body, &f) > 2
    } else {
        false
    };
    if body.len() == 0 {
        "\x1b[31m✗\x1b[0m"
    } else if frags >= 3 || rep {
        "\x1b[31m✗\x1b[0m"
    } else if four && frags == 0 {
        "\x1b[32m✓\x1b[0m"
    } else if four {
        "\x1b[33m?\x1b[0m"
    } else {
        "\x1b[31m✗\x1b[0m"
    }
}

} // verus!
