//! The `config.toml` that an import writes from a Hugging Face
//! `config.json`: the integer fields with their defaults, the head size,
//! a rough parameter count, the tokenizer's EOS token and the source.

use vstd::prelude::*;
use crate::npz::{occurs_at, parse_usize, parse_usize_chars};
use crate::text::{append_decimal, append_decimal_u64, append_str, chars_eq, chars_slice, find_char, owned, spec_decimal, spec_find_char, to_chars};

verus! {

/// The fields of `config.json` the import reads (from `text_config` when
/// the file has one, else from the top level), each `None` when absent or
/// not of the expected kind. The two floats arrive as text, already
/// spelled as they are to be written.
pub struct HfConfigFields {
    pub model_type: Option<String>,
    pub hidden_size: Option<u64>,
    pub num_attention_heads: Option<u64>,
    pub num_key_value_heads: Option<u64>,
    pub num_hidden_layers: Option<u64>,
    pub intermediate_size: Option<u64>,
    pub vocab_size: Option<u64>,
    pub head_dim: Option<u64>,
    pub max_position_embeddings: Option<u64>,
    /// `tie_word_embeddings` of the text config.
    pub tie_word_embeddings: Option<bool>,
    /// `tie_word_embeddings` of the top level.
    pub top_tie_word_embeddings: Option<bool>,
    /// The optional fields of Gemma-style models, each written only when
    /// present (the floats spelled as they are to be written).
    pub hidden_activation: Option<String>,
    pub final_logit_softcapping: Option<String>,
    pub attention_k_eq_v: Option<bool>,
    pub sliding_window: Option<u64>,
    pub global_head_dim: Option<u64>,
    pub num_global_key_value_heads: Option<u64>,
    pub layer_types: Vec<String>,
    pub rope_theta_full: Option<String>,
    pub partial_rotary_factor_full: Option<String>,
}

/// What the import learns from `config.json`: the text of `config.toml`
/// and the values it reports.
pub struct ImportConfig {
    pub text: String,
    pub model_type: String,
    pub num_layers: u64,
    pub hidden_size: u64,
}

/// An optional integer with its default.
pub open spec fn or_u64(o: Option<u64>, d: u64) -> u64 {
    match o {
        Some(x) => x,
        None => d,
    }
}

/// The model type, `unknown` when absent.
pub open spec fn model_type_of(f: HfConfigFields) -> Seq<char> {
    match f.model_type {
        Some(s) => s@,
        None => "unknown"@,
    }
}

/// The head size: `head_dim`, else hidden size over heads (at least one).
pub open spec fn head_dim_of(f: HfConfigFields) -> u64 {
    match f.head_dim {
        Some(h) => h,
        None => {
            let heads = or_u64(f.num_attention_heads, 0);
            (or_u64(f.hidden_size, 0) / if heads == 0 { 1 } else { heads }) as u64
        },
    }
}

/// `key = "value"` and a newline when present.
pub open spec fn quoted_line(key: Seq<char>, o: Option<String>) -> Seq<char> {
    match o {
        Some(v) => key + " = \""@ + v@ + "\"\n"@,
        None => Seq::empty(),
    }
}

/// `key = value` and a newline when present.
pub open spec fn text_line(key: Seq<char>, o: Option<String>) -> Seq<char> {
    match o {
        Some(v) => key + " = "@ + v@ + "\n"@,
        None => Seq::empty(),
    }
}

/// `key = true|false` and a newline when present.
pub open spec fn bool_line(key: Seq<char>, o: Option<bool>) -> Seq<char> {
    match o {
        Some(b) => key + " = "@ + bool_text(b) + "\n"@,
        None => Seq::empty(),
    }
}

/// `key = n` and a newline when present.
pub open spec fn u64_line(key: Seq<char>, o: Option<u64>) -> Seq<char> {
    match o {
        Some(n) => key + " = "@ + spec_decimal(n as nat) + "\n"@,
        None => Seq::empty(),
    }
}

/// The names quoted and separated by `, `.
pub open spec fn quoted_list(names: Seq<String>) -> Seq<char>
    decreases names.len(),
{
    if names.len() == 0 {
        Seq::empty()
    } else if names.len() == 1 {
        "\""@ + names[0]@ + "\""@
    } else {
        quoted_list(names.drop_last()) + ", \""@ + names.last()@ + "\""@
    }
}

/// The optional Gemma-style lines, in their order.
pub open spec fn plus_block(f: HfConfigFields) -> Seq<char> {
    quoted_line("hidden_activation"@, f.hidden_activation)
        + text_line("final_logit_softcapping"@, f.final_logit_softcapping)
        + bool_line("attention_k_eq_v"@, f.attention_k_eq_v)
        + u64_line("sliding_window"@, f.sliding_window)
        + u64_line("global_head_dim"@, f.global_head_dim)
        + u64_line("num_global_key_value_heads"@, f.num_global_key_value_heads)
        + (if f.layer_types@.len() == 0 {
            Seq::empty()
        } else {
            "layer_types = ["@ + quoted_list(f.layer_types@) + "]\n"@
        })
        + text_line("rope_theta_full"@, f.rope_theta_full)
        + text_line("partial_rotary_factor_full"@, f.partial_rotary_factor_full)
}

/// Whether the embeddings are tied: the text config's flag, else the top
/// level's, else `true`.
pub open spec fn tie_of(f: HfConfigFields) -> bool {
    match f.tie_word_embeddings {
        Some(b) => b,
        None => match f.top_tie_word_embeddings {
            Some(b) => b,
            None => true,
        },
    }
}

/// `true` or `false`.
pub open spec fn bool_text(b: bool) -> Seq<char> {
    if b {
        "true"@
    } else {
        "false"@
    }
}

/// The config can be written: the parameter count (hidden size times
/// layers times 12) fits a `u64`.
pub open spec fn config_writable(f: HfConfigFields) -> bool {
    or_u64(f.hidden_size, 0) * or_u64(f.num_hidden_layers, 0) * 12 <= u64::MAX
}

/// The text of `config.toml`.
pub open spec fn config_toml_spec(f: HfConfigFields, eos: Seq<char>, source: Seq<char>, rope_theta: Seq<char>, rms_norm_eps: Seq<char>) -> Seq<char> {
    let mt = model_type_of(f);
    let hs = or_u64(f.hidden_size, 0);
    let heads = or_u64(f.num_attention_heads, 0);
    let kv = or_u64(f.num_key_value_heads, heads);
    let layers = or_u64(f.num_hidden_layers, 0);
    let inter = or_u64(f.intermediate_size, 0);
    let vocab = or_u64(f.vocab_size, 0);
    let hd = head_dim_of(f);
    let max_pos = or_u64(f.max_position_embeddings, 8192);
    let params = hs * layers * 12;
    let tie = tie_of(f);
    "model_type = \""@
        + mt
        + "\"\nparameters = "@
        + spec_decimal(params as nat)
        + "\n\n[architecture]\nhidden_size = "@
        + spec_decimal(hs as nat)
        + "\nnum_attention_heads = "@
        + spec_decimal(heads as nat)
        + "\nnum_key_value_heads = "@
        + spec_decimal(kv as nat)
        + "\nhead_dim = "@
        + spec_decimal(hd as nat)
        + "\nnum_hidden_layers = "@
        + spec_decimal(layers as nat)
        + "\nintermediate_size = "@
        + spec_decimal(inter as nat)
        + "\nvocab_size = "@
        + spec_decimal(vocab as nat)
        + "\nmax_position_embeddings = "@
        + spec_decimal(max_pos as nat)
        + "\nrope_theta = "@
        + rope_theta
        + "\nrms_norm_eps = "@
        + rms_norm_eps
        + "\ntie_word_embeddings = "@
        + bool_text(tie)
        + "\n"@
        + plus_block(f)
        + "\n[tokenizer]\ntype = \"bpe\"\neos_token = \""@
        + eos
        + "\"\n\n[sampling]\ntemperature = 700\ntop_p = 900\nscale = 1000\n\n[lineage]\nsource = \""@
        + source
        + "\"\n"@
}

/// Append `key = "value"` and a newline when present.
fn append_quoted_line(s: &mut String, key: &str, o: &Option<String>)
    ensures
        final(s)@ == old(s)@ + quoted_line(key@, *o),
{
    match o {
        Some(v) => {
            append_str(s, key);
            append_str(s, " = \"");
            append_str(s, v.as_str());
            append_str(s, "\"\n");
        },
        None => {
            assert(old(s)@ + Seq::<char>::empty() =~= old(s)@);
        },
    }
}

/// Append `key = value` and a newline when present.
fn append_text_line(s: &mut String, key: &str, o: &Option<String>)
    ensures
        final(s)@ == old(s)@ + text_line(key@, *o),
{
    match o {
        Some(v) => {
            append_str(s, key);
            append_str(s, " = ");
            append_str(s, v.as_str());
            append_str(s, "\n");
        },
        None => {
            assert(old(s)@ + Seq::<char>::empty() =~= old(s)@);
        },
    }
}

/// Append `key = true|false` and a newline when present.
fn append_bool_line(s: &mut String, key: &str, o: Option<bool>)
    ensures
        final(s)@ == old(s)@ + bool_line(key@, o),
{
    match o {
        Some(b) => {
            append_str(s, key);
            append_str(s, " = ");
            append_str(s, if b { "true" } else { "false" });
            append_str(s, "\n");
        },
        None => {
            assert(old(s)@ + Seq::<char>::empty() =~= old(s)@);
        },
    }
}

/// Append `key = n` and a newline when present.
fn append_u64_line(s: &mut String, key: &str, o: Option<u64>)
    ensures
        final(s)@ == old(s)@ + u64_line(key@, o),
{
    match o {
        Some(n) => {
            append_str(s, key);
            append_str(s, " = ");
            append_decimal_u64(s, n);
            append_str(s, "\n");
        },
        None => {
            assert(old(s)@ + Seq::<char>::empty() =~= old(s)@);
        },
    }
}

/// Append the quoted names separated by `, `.
fn append_quoted_list(s: &mut String, names: &Vec<String>)
    ensures
        final(s)@ == old(s)@ + quoted_list(names@),
{
    let ghost s0 = s@;
    let mut i: usize = 0;
    assert(names@.take(0) =~= Seq::<String>::empty());
    assert(s@ =~= s0 + quoted_list(names@.take(0)));
    while i < names.len()
        invariant
            i <= names@.len(),
            s@ == s0 + quoted_list(names@.take(i as int)),
        decreases names@.len() - i,
    {
        if i > 0 {
            append_str(s, ", \"");
        } else {
            append_str(s, "\"");
        }
        append_str(s, names[i].as_str());
        append_str(s, "\"");
        proof {
            let t = names@.take(i + 1);
            assert(t.drop_last() =~= names@.take(i as int));
            assert(t.last() == names@[i as int]);
            if i == 0 {
                assert(t.len() == 1);
                assert(t[0] == names@[0]);
                assert(quoted_list(names@.take(0)) =~= Seq::<char>::empty());
            }
            assert(s@ =~= s0 + quoted_list(t));
        }
        i = i + 1;
    }
    assert(names@.take(i as int) =~= names@);
}

/// Append the optional Gemma-style lines.
fn append_plus_block(s: &mut String, f: &HfConfigFields)
    ensures
        final(s)@ == old(s)@ + plus_block(*f),
{
    let ghost s0 = s@;
    append_quoted_line(s, "hidden_activation", &f.hidden_activation);
    append_text_line(s, "final_logit_softcapping", &f.final_logit_softcapping);
    append_bool_line(s, "attention_k_eq_v", f.attention_k_eq_v);
    append_u64_line(s, "sliding_window", f.sliding_window);
    append_u64_line(s, "global_head_dim", f.global_head_dim);
    append_u64_line(s, "num_global_key_value_heads", f.num_global_key_value_heads);
    let ghost s1 = s@;
    if f.layer_types.len() > 0 {
        append_str(s, "layer_types = [");
        append_quoted_list(s, &f.layer_types);
        append_str(s, "]\n");
    } else {
        assert(s1 + Seq::<char>::empty() =~= s1);
    }
    append_text_line(s, "rope_theta_full", &f.rope_theta_full);
    append_text_line(s, "partial_rotary_factor_full", &f.partial_rotary_factor_full);
    proof {
        assert(s@ =~= s0 + plus_block(*f));
    }
}

/// Build `config.toml` for an imported model: its integer fields with
/// their defaults (0, the head count for KV heads, 8192 positions), the
/// head size (`head_dim`, else hidden size over heads, at least one), a
/// parameter count of hidden size times layers times 12, the float fields
/// as given, tied embeddings unless told otherwise, the optional
/// Gemma-style lines, the EOS token and the source.
pub fn config_toml_text(f: &HfConfigFields, eos: &str, source: &str, rope_theta: &str, rms_norm_eps: &str) -> (r: ImportConfig)
    requires
        config_writable(*f),
    ensures
        r.text@ == config_toml_spec(*f, eos@, source@, rope_theta@, rms_norm_eps@),
        r.model_type@ == model_type_of(*f),
        r.num_layers == or_u64(f.num_hidden_layers, 0),
        r.hidden_size == or_u64(f.hidden_size, 0),
{
    let mt: String = match &f.model_type {
        Some(s) => owned(s.as_str()),
        None => owned("unknown"),
    };
    let hs = match f.hidden_size { Some(x) => x, None => 0 };
    let heads = match f.num_attention_heads { Some(x) => x, None => 0 };
    let kv = match f.num_key_value_heads { Some(x) => x, None => heads };
    let layers = match f.num_hidden_layers { Some(x) => x, None => 0 };
    let inter = match f.intermediate_size { Some(x) => x, None => 0 };
    let vocab = match f.vocab_size { Some(x) => x, None => 0 };
    let hd = match f.head_dim {
        Some(h) => h,
        None => hs / if heads == 0 { 1 } else { heads },
    };
    let max_pos = match f.max_position_embeddings { Some(x) => x, None => 8192 };
    let tie = match f.tie_word_embeddings {
        Some(b) => b,
        None => match f.top_tie_word_embeddings {
            Some(b) => b,
            None => true,
        },
    };
    proof {
        assert(hs * layers <= u64::MAX) by (nonlinear_arith)
            requires
                hs * layers * 12 <= u64::MAX,
        ;
    }
    let params = hs * layers * 12;
    let mut s = String::new();
    append_str(&mut s, "model_type = \"");
    append_str(&mut s, mt.as_str());
    append_str(&mut s, "\"\nparameters = ");
    append_decimal_u64(&mut s, params);
    append_str(&mut s, "\n\n[architecture]\nhidden_size = ");
    append_decimal_u64(&mut s, hs);
    append_str(&mut s, "\nnum_attention_heads = ");
    append_decimal_u64(&mut s, heads);
    append_str(&mut s, "\nnum_key_value_heads = ");
    append_decimal_u64(&mut s, kv);
    append_str(&mut s, "\nhead_dim = ");
    append_decimal_u64(&mut s, hd);
    append_str(&mut s, "\nnum_hidden_layers = ");
    append_decimal_u64(&mut s, layers);
    append_str(&mut s, "\nintermediate_size = ");
    append_decimal_u64(&mut s, inter);
    append_str(&mut s, "\nvocab_size = ");
    append_decimal_u64(&mut s, vocab);
    append_str(&mut s, "\nmax_position_embeddings = ");
    append_decimal_u64(&mut s, max_pos);
    append_str(&mut s, "\nrope_theta = ");
    append_str(&mut s, rope_theta);
    append_str(&mut s, "\nrms_norm_eps = ");
    append_str(&mut s, rms_norm_eps);
    append_str(&mut s, "\ntie_word_embeddings = ");
    append_str(&mut s, if tie { "true" } else { "false" });
    append_str(&mut s, "\n");
    append_plus_block(&mut s, f);
    append_str(&mut s, "\n[tokenizer]\ntype = \"bpe\"\neos_token = \"");
    append_str(&mut s, eos);
    append_str(&mut s, "\"\n\n[sampling]\ntemperature = 700\ntop_p = 900\nscale = 1000\n\n[lineage]\nsource = \"");
    append_str(&mut s, source);
    append_str(&mut s, "\"\n");
    ImportConfig { text: s, model_type: mt, num_layers: layers, hidden_size: hs }
}

// ---- Shared key and value projections ----

/// The layers whose keys are their values: with `attention_k_eq_v` set,
/// the layers typed `full_attention`; else none.
pub open spec fn kv_equal(k_eq_v: Option<bool>, layer_types: Seq<String>, l: int) -> bool {
    k_eq_v == Some(true) && 0 <= l < layer_types.len() && layer_types[l]@ == "full_attention"@
}

/// The layer of a key projection: `name` is `model.layers.`, a layer number
/// (read as `usize::from_str` reads the text up to the next dot), then
/// `.self_attn.k_proj.weight`.
pub open spec fn k_proj_layer(name: Seq<char>) -> Option<usize> {
    let pre = "model.layers."@;
    if name.len() >= pre.len() && name.take(pre.len() as int) == pre {
        let rest = name.skip(pre.len() as int);
        match spec_find_char(rest, '.') {
            Some(d) => if rest.skip(d + 1) == "self_attn.k_proj.weight"@ {
                parse_usize(rest.take(d))
            } else {
                None
            },
            None => None,
        }
    } else {
        None
    }
}

/// `model.layers.<l>.self_attn.v_proj.weight`.
pub open spec fn v_proj_name(l: usize) -> Seq<char> {
    "model.layers."@ + spec_decimal(l as nat) + ".self_attn.v_proj.weight"@
}

/// The value projection to write after the key projection `name`: for a
/// layer whose keys are its values, when the source has no value
/// projection of that layer.
pub open spec fn kv_duplicate(name: Seq<char>, k_eq_v: Option<bool>, layer_types: Seq<String>, existing: Seq<String>) -> Option<Seq<char>> {
    match k_proj_layer(name) {
        Some(l) => if kv_equal(k_eq_v, layer_types, l as int) && !(exists|i: int| 0 <= i < existing.len() && (#[trigger] existing[i])@ == v_proj_name(l)) {
            Some(v_proj_name(l))
        } else {
            None
        },
        None => None,
    }
}

/// The layer number of a key projection's name (see `k_proj_layer`).
fn k_proj_layer_of(name: &str) -> (r: Option<usize>)
    ensures
        r == k_proj_layer(name@),
{
    let n = to_chars(name);
    let pre = to_chars("model.layers.");
    if n.len() < pre.len() {
        return None;
    }
    if !occurs_at(&n, &pre, 0) {
        proof {
            assert(n@.subrange(0, pre@.len() as int) =~= n@.take(pre@.len() as int));
        }
        return None;
    }
    proof {
        assert(n@.subrange(0, pre@.len() as int) =~= n@.take(pre@.len() as int));
    }
    let rest = chars_slice(&n, pre.len(), n.len());
    proof {
        assert(rest@ =~= n@.skip(pre@.len() as int));
    }
    match find_char(&rest, '.') {
        Some(d) => {
            let tail = chars_slice(&rest, d + 1, rest.len());
            let want = to_chars("self_attn.k_proj.weight");
            proof {
                assert(tail@ =~= rest@.skip(d + 1));
            }
            if chars_eq(&tail, &want) {
                let digits = chars_slice(&rest, 0, d);
                proof {
                    assert(digits@ =~= rest@.take(d as int));
                }
                parse_usize_chars(&digits)
            } else {
                None
            }
        },
        None => None,
    }
}

/// Whether layer `l` has its keys as its values.
fn kv_equal_at(k_eq_v: Option<bool>, layer_types: &Vec<String>, l: usize) -> (r: bool)
    ensures
        r == kv_equal(k_eq_v, layer_types@, l as int),
{
    match k_eq_v {
        Some(true) => l < layer_types.len() && crate::text::str_eq(layer_types[l].as_str(), "full_attention"),
        _ => false,
    }
}

/// The value projection to write after the key projection `hf_name`
/// (see `kv_duplicate`); `existing` holds the names of the source.
pub fn kv_duplicate_name(hf_name: &str, k_eq_v: Option<bool>, layer_types: &Vec<String>, existing: &Vec<String>) -> (r: Option<String>)
    ensures
        match r {
            Some(v) => kv_duplicate(hf_name@, k_eq_v, layer_types@, existing@) == Some(v@),
            None => kv_duplicate(hf_name@, k_eq_v, layer_types@, existing@) is None,
        },
{
    match k_proj_layer_of(hf_name) {
        Some(l) => {
            if !kv_equal_at(k_eq_v, layer_types, l) {
                return None;
            }
            let mut v = owned("model.layers.");
            append_decimal(&mut v, l);
            append_str(&mut v, ".self_attn.v_proj.weight");
            let mut i: usize = 0;
            while i < existing.len()
                invariant
                    i <= existing@.len(),
                    v@ == v_proj_name(l),
                    k_proj_layer(hf_name@) == Some(l),
                    kv_equal(k_eq_v, layer_types@, l as int),
                    forall|j: int| 0 <= j < i ==> (#[trigger] existing@[j])@ != v_proj_name(l),
                decreases existing@.len() - i,
            {
                if crate::text::str_eq(existing[i].as_str(), v.as_str()) {
                    proof {
                        assert((existing@[i as int])@ == v_proj_name(l));
                    }
                    return None;
                }
                i = i + 1;
            }
            Some(v)
        },
        None => None,
    }
}

} // verus!
