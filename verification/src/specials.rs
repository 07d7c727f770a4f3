//! Special tokens a vocabulary may lack, and the chat format its special
//! tokens point to.

use vstd::prelude::*;
use crate::text::{owned, str_eq};
use crate::vocab::token_views;

verus! {

/// The token has id `id` or text `name`.
pub open spec fn token_is(t: (u32, Seq<char>), id: u32, name: Seq<char>) -> bool {
    t.0 == id || t.1 == name
}

/// The vocabulary has a token with id `id` or text `name`.
pub open spec fn has_token(ts: Seq<(u32, Seq<char>)>, id: u32, name: Seq<char>) -> bool {
    exists|i: int| 0 <= i < ts.len() && #[trigger] token_is(ts[i], id, name)
}

/// Add the token unless its id or its text is already there.
pub open spec fn add_special(ts: Seq<(u32, Seq<char>)>, id: u32, name: Seq<char>) -> Seq<(u32, Seq<char>)> {
    if has_token(ts, id, name) {
        ts
    } else {
        ts.push((id, name))
    }
}

/// The vocabulary with the specials that the configuration names but the
/// table lacks: the EOS token at the first EOS id, the pad token at the
/// second, and, when the EOS token is `<|im_end|>` (ChatML), `<|im_start|>`
/// and `<|endoftext|>` at the one and two ids below it.
pub open spec fn with_specials(
    ts: Seq<(u32, Seq<char>)>,
    eos_name: Option<Seq<char>>,
    pad_name: Option<Seq<char>>,
    eos_ids: Seq<u32>,
) -> Seq<(u32, Seq<char>)> {
    let a = match eos_name {
        Some(n) => if eos_ids.len() >= 1 {
            add_special(ts, eos_ids[0], n)
        } else {
            ts
        },
        None => ts,
    };
    let b = match pad_name {
        Some(n) => if eos_ids.len() >= 2 {
            add_special(a, eos_ids[1], n)
        } else {
            a
        },
        None => a,
    };
    if eos_name == Some("<|im_end|>"@) && eos_ids.len() >= 1 {
        let c = if eos_ids[0] >= 1 {
            add_special(b, (eos_ids[0] - 1) as u32, "<|im_start|>"@)
        } else {
            b
        };
        if eos_ids[0] >= 2 {
            add_special(c, (eos_ids[0] - 2) as u32, "<|endoftext|>"@)
        } else {
            c
        }
    } else {
        b
    }
}

/// Add one special unless its id or its text is already there.
fn add_token(tokens: &mut Vec<(u32, String)>, id: u32, name: &str)
    ensures
        token_views(final(tokens)@) == add_special(token_views(old(tokens)@), id, name@),
{
    let ghost tv = token_views(tokens@);
    let mut i: usize = 0;
    while i < tokens.len()
        invariant
            i <= tokens@.len(),
            tv == token_views(tokens@),
            forall|j: int| 0 <= j < i ==> tv[j].0 != id && tv[j].1 != name@,
        decreases tokens@.len() - i,
    {
        if tokens[i].0 == id || str_eq(tokens[i].1.as_str(), name) {
            proof {
                assert(tv[i as int] == (tokens@[i as int].0, tokens@[i as int].1@));
                assert(token_is(tv[i as int], id, name@));
                assert(has_token(tv, id, name@));
            }
            return;
        }
        proof {
            assert(tv[i as int] == (tokens@[i as int].0, tokens@[i as int].1@));
        }
        i = i + 1;
    }
    let s = owned(name);
    tokens.push((id, s));
    proof {
        assert(token_views(tokens@) =~= tv.push((id, name@)));
    }
}

/// Add the specials the configuration names but the vocabulary lacks (see
/// [`with_specials`]).
pub fn inject_missing_specials(
    tokens: &mut Vec<(u32, String)>,
    eos_name: Option<&str>,
    pad_name: Option<&str>,
    eos_ids: &Vec<u32>,
)
    ensures
        token_views(final(tokens)@) == with_specials(
            token_views(old(tokens)@),
            match eos_name {
                Some(n) => Some(n@),
                None => None,
            },
            match pad_name {
                Some(n) => Some(n@),
                None => None,
            },
            eos_ids@,
        ),
{
    if let Some(n) = eos_name {
        if eos_ids.len() >= 1 {
            add_token(tokens, eos_ids[0], n);
        }
    }
    if let Some(n) = pad_name {
        if eos_ids.len() >= 2 {
            add_token(tokens, eos_ids[1], n);
        }
    }
    let chatml = match eos_name {
        Some(n) => str_eq(n, "<|im_end|>"),
        None => false,
    };
    if chatml && eos_ids.len() >= 1 {
        let eos = eos_ids[0];
        if eos >= 1 {
            add_token(tokens, eos - 1, "<|im_start|>");
        }
        if eos >= 2 {
            add_token(tokens, eos - 2, "<|endoftext|>");
        }
    }
}

/// The vocabulary has a token with text `s`.
pub open spec fn has_text(ts: Seq<(u32, Seq<char>)>, s: Seq<char>) -> bool {
    exists|i: int| 0 <= i < ts.len() && #[trigger] ts[i].1 == s
}

/// The chat format the special tokens point to: ChatML (`<|im_end|>`),
/// Llama 3 (`<|eot_id|>`), Gemma 4 (`<|turn>` and `<turn|>`), Gemma
/// (`<start_of_turn>`), else ChatML for Qwen 2 and 3 models.
pub open spec fn spec_chat_format(ts: Seq<(u32, Seq<char>)>, model_type: Seq<char>) -> Option<Seq<char>> {
    if has_text(ts, "<|im_end|>"@) {
        Some("chatml"@)
    } else if has_text(ts, "<|eot_id|>"@) {
        Some("llama-3"@)
    } else if has_text(ts, "<|turn>"@) && has_text(ts, "<turn|>"@) {
        Some("gemma4"@)
    } else if has_text(ts, "<start_of_turn>"@) {
        Some("gemma"@)
    } else if model_type == "qwen2"@ || model_type == "qwen3"@ {
        Some("chatml"@)
    } else {
        None
    }
}

/// Whether a token has text `s`.
fn has_text_exec(tokens: &Vec<(u32, String)>, s: &str) -> (r: bool)
    ensures
        r == has_text(token_views(tokens@), s@),
{
    let ghost tv = token_views(tokens@);
    let mut i: usize = 0;
    while i < tokens.len()
        invariant
            i <= tokens@.len(),
            tv == token_views(tokens@),
            forall|j: int| 0 <= j < i ==> tv[j].1 != s@,
        decreases tokens@.len() - i,
    {
        proof {
            assert(tv[i as int] == (tokens@[i as int].0, tokens@[i as int].1@));
        }
        if str_eq(tokens[i].1.as_str(), s) {
            proof {
                assert(tv[i as int].1 == s@);
            }
            return true;
        }
        i = i + 1;
    }
    false
}

/// The chat format the special tokens of the vocabulary point to.
pub fn detect_chat_format(tokens: &Vec<(u32, String)>, model_type: &str) -> (r: Option<String>)
    ensures
        match spec_chat_format(token_views(tokens@), model_type@) {
            Some(f) => r matches Some(s) && s@ == f,
            None => r is None,
        },
{
    if has_text_exec(tokens, "<|im_end|>") {
        return Some(owned("chatml"));
    }
    if has_text_exec(tokens, "<|eot_id|>") {
        return Some(owned("llama-3"));
    }
    if has_text_exec(tokens, "<|turn>") && has_text_exec(tokens, "<turn|>") {
        return Some(owned("gemma4"));
    }
    if has_text_exec(tokens, "<start_of_turn>") {
        return Some(owned("gemma"));
    }
    if str_eq(model_type, "qwen2") || str_eq(model_type, "qwen3") {
        Some(owned("chatml"))
    } else {
        None
    }
}

} // verus!
