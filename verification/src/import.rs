//! Tensor-name mapping from GGUF to HuggingFace conventions.

use vstd::prelude::*;
use crate::dtype::DType;
use crate::ggml::texts;
use crate::gguf_writer::append_bytes;
use crate::hf_config::{kv_duplicate, kv_duplicate_name};
use crate::text::{is_first_index, lemma_first_index_unique, append_decimal, append_str, spec_decimal, to_chars, chars_eq, string_of, find_char, chars_start_with, chars_slice, chars_concat, spec_find_char};

verus! {

/// The HuggingFace name of a per-layer GGUF tensor suffix; other suffixes
/// are kept as they are.
pub open spec fn hf_suffix(s: Seq<char>) -> Seq<char> {
    if s == "attn_norm.weight"@ {
        "input_layernorm.weight"@
    } else
    if s == "attn_q.weight"@ {
        "self_attn.q_proj.weight"@
    } else
    if s == "attn_k.weight"@ {
        "self_attn.k_proj.weight"@
    } else
    if s == "attn_v.weight"@ {
        "self_attn.v_proj.weight"@
    } else
    if s == "attn_output.weight"@ {
        "self_attn.o_proj.weight"@
    } else
    if s == "attn_q.bias"@ {
        "self_attn.q_proj.bias"@
    } else
    if s == "attn_k.bias"@ {
        "self_attn.k_proj.bias"@
    } else
    if s == "attn_v.bias"@ {
        "self_attn.v_proj.bias"@
    } else
    if s == "attn_q_norm.weight"@ {
        "self_attn.q_norm.weight"@
    } else
    if s == "attn_k_norm.weight"@ {
        "self_attn.k_norm.weight"@
    } else
    if s == "ffn_norm.weight"@ {
        "post_attention_layernorm.weight"@
    } else
    if s == "ffn_gate.weight"@ {
        "mlp.gate_proj.weight"@
    } else
    if s == "ffn_up.weight"@ {
        "mlp.up_proj.weight"@
    } else
    if s == "ffn_down.weight"@ {
        "mlp.down_proj.weight"@
    } else {
        s
    }
}

/// The per-layer GGUF suffixes that take a HuggingFace name, in order.
pub open spec fn gguf_layer_suffixes() -> Seq<Seq<char>> {
    seq!["attn_norm.weight"@, "attn_q.weight"@, "attn_k.weight"@, "attn_v.weight"@, "attn_output.weight"@, "attn_q.bias"@, "attn_k.bias"@, "attn_v.bias"@, "attn_q_norm.weight"@, "attn_k_norm.weight"@, "ffn_norm.weight"@, "ffn_gate.weight"@, "ffn_up.weight"@, "ffn_down.weight"@]
}

/// Each per-layer GGUF suffix takes the HuggingFace name of the same
/// weight (`ffn_down.weight` is `mlp.down_proj.weight`, `ffn_up.weight`
/// `mlp.up_proj.weight`, and so on); distinct suffixes take distinct names,
/// so no two tensors of a layer are renamed alike; any other suffix is
/// kept as it is.
pub proof fn lemma_hf_suffix_table(s: Seq<char>)
    ensures
        hf_suffix("attn_norm.weight"@) == "input_layernorm.weight"@,
        hf_suffix("attn_q.weight"@) == "self_attn.q_proj.weight"@,
        hf_suffix("attn_k.weight"@) == "self_attn.k_proj.weight"@,
        hf_suffix("attn_v.weight"@) == "self_attn.v_proj.weight"@,
        hf_suffix("attn_output.weight"@) == "self_attn.o_proj.weight"@,
        hf_suffix("attn_q.bias"@) == "self_attn.q_proj.bias"@,
        hf_suffix("attn_k.bias"@) == "self_attn.k_proj.bias"@,
        hf_suffix("attn_v.bias"@) == "self_attn.v_proj.bias"@,
        hf_suffix("attn_q_norm.weight"@) == "self_attn.q_norm.weight"@,
        hf_suffix("attn_k_norm.weight"@) == "self_attn.k_norm.weight"@,
        hf_suffix("ffn_norm.weight"@) == "post_attention_layernorm.weight"@,
        hf_suffix("ffn_gate.weight"@) == "mlp.gate_proj.weight"@,
        hf_suffix("ffn_up.weight"@) == "mlp.up_proj.weight"@,
        hf_suffix("ffn_down.weight"@) == "mlp.down_proj.weight"@,
        forall|i: int, j: int|
            0 <= i < j < gguf_layer_suffixes().len() ==> hf_suffix(#[trigger] gguf_layer_suffixes()[i]) != hf_suffix(
                #[trigger] gguf_layer_suffixes()[j],
            ),
        !gguf_layer_suffixes().contains(s) ==> hf_suffix(s) == s,
{
    reveal_strlit("attn_norm.weight");
    reveal_strlit("attn_q.weight");
    reveal_strlit("attn_k.weight");
    reveal_strlit("attn_v.weight");
    reveal_strlit("attn_output.weight");
    reveal_strlit("attn_q.bias");
    reveal_strlit("attn_k.bias");
    reveal_strlit("attn_v.bias");
    reveal_strlit("attn_q_norm.weight");
    reveal_strlit("attn_k_norm.weight");
    reveal_strlit("ffn_norm.weight");
    reveal_strlit("ffn_gate.weight");
    reveal_strlit("ffn_up.weight");
    reveal_strlit("ffn_down.weight");
    reveal_strlit("input_layernorm.weight");
    reveal_strlit("self_attn.q_proj.weight");
    reveal_strlit("self_attn.k_proj.weight");
    reveal_strlit("self_attn.v_proj.weight");
    reveal_strlit("self_attn.o_proj.weight");
    reveal_strlit("self_attn.q_proj.bias");
    reveal_strlit("self_attn.k_proj.bias");
    reveal_strlit("self_attn.v_proj.bias");
    reveal_strlit("self_attn.q_norm.weight");
    reveal_strlit("self_attn.k_norm.weight");
    reveal_strlit("post_attention_layernorm.weight");
    reveal_strlit("mlp.gate_proj.weight");
    reveal_strlit("mlp.up_proj.weight");
    reveal_strlit("mlp.down_proj.weight");
    assert("attn_norm.weight"@[0] == 'a' && "attn_norm.weight"@[1] == 't' && "attn_norm.weight"@[2] == 't' && "attn_norm.weight"@[3] == 'n' && "attn_norm.weight"@[4] == '_' && "attn_norm.weight"@[5] == 'n' && "attn_norm.weight"@[6] == 'o' && "attn_norm.weight"@[7] == 'r' && "attn_norm.weight"@[8] == 'm' && "attn_norm.weight"@[9] == '.' && "attn_norm.weight"@[10] == 'w' && "attn_norm.weight"@[11] == 'e' && "attn_norm.weight"@[12] == 'i' && "attn_norm.weight"@[13] == 'g' && "attn_norm.weight"@[14] == 'h' && "attn_norm.weight"@[15] == 't' && "attn_norm.weight"@.len() == 16);
    assert("attn_q.weight"@[0] == 'a' && "attn_q.weight"@[1] == 't' && "attn_q.weight"@[2] == 't' && "attn_q.weight"@[3] == 'n' && "attn_q.weight"@[4] == '_' && "attn_q.weight"@[5] == 'q' && "attn_q.weight"@[6] == '.' && "attn_q.weight"@[7] == 'w' && "attn_q.weight"@[8] == 'e' && "attn_q.weight"@[9] == 'i' && "attn_q.weight"@[10] == 'g' && "attn_q.weight"@[11] == 'h' && "attn_q.weight"@[12] == 't' && "attn_q.weight"@.len() == 13);
    assert("attn_k.weight"@[0] == 'a' && "attn_k.weight"@[1] == 't' && "attn_k.weight"@[2] == 't' && "attn_k.weight"@[3] == 'n' && "attn_k.weight"@[4] == '_' && "attn_k.weight"@[5] == 'k' && "attn_k.weight"@[6] == '.' && "attn_k.weight"@[7] == 'w' && "attn_k.weight"@[8] == 'e' && "attn_k.weight"@[9] == 'i' && "attn_k.weight"@[10] == 'g' && "attn_k.weight"@[11] == 'h' && "attn_k.weight"@[12] == 't' && "attn_k.weight"@.len() == 13);
    assert("attn_v.weight"@[0] == 'a' && "attn_v.weight"@[1] == 't' && "attn_v.weight"@[2] == 't' && "attn_v.weight"@[3] == 'n' && "attn_v.weight"@[4] == '_' && "attn_v.weight"@[5] == 'v' && "attn_v.weight"@[6] == '.' && "attn_v.weight"@[7] == 'w' && "attn_v.weight"@[8] == 'e' && "attn_v.weight"@[9] == 'i' && "attn_v.weight"@[10] == 'g' && "attn_v.weight"@[11] == 'h' && "attn_v.weight"@[12] == 't' && "attn_v.weight"@.len() == 13);
    assert("attn_output.weight"@[0] == 'a' && "attn_output.weight"@[1] == 't' && "attn_output.weight"@[2] == 't' && "attn_output.weight"@[3] == 'n' && "attn_output.weight"@[4] == '_' && "attn_output.weight"@[5] == 'o' && "attn_output.weight"@[6] == 'u' && "attn_output.weight"@[7] == 't' && "attn_output.weight"@[8] == 'p' && "attn_output.weight"@[9] == 'u' && "attn_output.weight"@[10] == 't' && "attn_output.weight"@[11] == '.' && "attn_output.weight"@[12] == 'w' && "attn_output.weight"@[13] == 'e' && "attn_output.weight"@[14] == 'i' && "attn_output.weight"@[15] == 'g' && "attn_output.weight"@[16] == 'h' && "attn_output.weight"@[17] == 't' && "attn_output.weight"@.len() == 18);
    assert("attn_q.bias"@[0] == 'a' && "attn_q.bias"@[1] == 't' && "attn_q.bias"@[2] == 't' && "attn_q.bias"@[3] == 'n' && "attn_q.bias"@[4] == '_' && "attn_q.bias"@[5] == 'q' && "attn_q.bias"@[6] == '.' && "attn_q.bias"@[7] == 'b' && "attn_q.bias"@[8] == 'i' && "attn_q.bias"@[9] == 'a' && "attn_q.bias"@[10] == 's' && "attn_q.bias"@.len() == 11);
    assert("attn_k.bias"@[0] == 'a' && "attn_k.bias"@[1] == 't' && "attn_k.bias"@[2] == 't' && "attn_k.bias"@[3] == 'n' && "attn_k.bias"@[4] == '_' && "attn_k.bias"@[5] == 'k' && "attn_k.bias"@[6] == '.' && "attn_k.bias"@[7] == 'b' && "attn_k.bias"@[8] == 'i' && "attn_k.bias"@[9] == 'a' && "attn_k.bias"@[10] == 's' && "attn_k.bias"@.len() == 11);
    assert("attn_v.bias"@[0] == 'a' && "attn_v.bias"@[1] == 't' && "attn_v.bias"@[2] == 't' && "attn_v.bias"@[3] == 'n' && "attn_v.bias"@[4] == '_' && "attn_v.bias"@[5] == 'v' && "attn_v.bias"@[6] == '.' && "attn_v.bias"@[7] == 'b' && "attn_v.bias"@[8] == 'i' && "attn_v.bias"@[9] == 'a' && "attn_v.bias"@[10] == 's' && "attn_v.bias"@.len() == 11);
    assert("attn_q_norm.weight"@[0] == 'a' && "attn_q_norm.weight"@[1] == 't' && "attn_q_norm.weight"@[2] == 't' && "attn_q_norm.weight"@[3] == 'n' && "attn_q_norm.weight"@[4] == '_' && "attn_q_norm.weight"@[5] == 'q' && "attn_q_norm.weight"@[6] == '_' && "attn_q_norm.weight"@[7] == 'n' && "attn_q_norm.weight"@[8] == 'o' && "attn_q_norm.weight"@[9] == 'r' && "attn_q_norm.weight"@[10] == 'm' && "attn_q_norm.weight"@[11] == '.' && "attn_q_norm.weight"@[12] == 'w' && "attn_q_norm.weight"@[13] == 'e' && "attn_q_norm.weight"@[14] == 'i' && "attn_q_norm.weight"@[15] == 'g' && "attn_q_norm.weight"@[16] == 'h' && "attn_q_norm.weight"@[17] == 't' && "attn_q_norm.weight"@.len() == 18);
    assert("attn_k_norm.weight"@[0] == 'a' && "attn_k_norm.weight"@[1] == 't' && "attn_k_norm.weight"@[2] == 't' && "attn_k_norm.weight"@[3] == 'n' && "attn_k_norm.weight"@[4] == '_' && "attn_k_norm.weight"@[5] == 'k' && "attn_k_norm.weight"@[6] == '_' && "attn_k_norm.weight"@[7] == 'n' && "attn_k_norm.weight"@[8] == 'o' && "attn_k_norm.weight"@[9] == 'r' && "attn_k_norm.weight"@[10] == 'm' && "attn_k_norm.weight"@[11] == '.' && "attn_k_norm.weight"@[12] == 'w' && "attn_k_norm.weight"@[13] == 'e' && "attn_k_norm.weight"@[14] == 'i' && "attn_k_norm.weight"@[15] == 'g' && "attn_k_norm.weight"@[16] == 'h' && "attn_k_norm.weight"@[17] == 't' && "attn_k_norm.weight"@.len() == 18);
    assert("ffn_norm.weight"@[0] == 'f' && "ffn_norm.weight"@[1] == 'f' && "ffn_norm.weight"@[2] == 'n' && "ffn_norm.weight"@[3] == '_' && "ffn_norm.weight"@[4] == 'n' && "ffn_norm.weight"@[5] == 'o' && "ffn_norm.weight"@[6] == 'r' && "ffn_norm.weight"@[7] == 'm' && "ffn_norm.weight"@[8] == '.' && "ffn_norm.weight"@[9] == 'w' && "ffn_norm.weight"@[10] == 'e' && "ffn_norm.weight"@[11] == 'i' && "ffn_norm.weight"@[12] == 'g' && "ffn_norm.weight"@[13] == 'h' && "ffn_norm.weight"@[14] == 't' && "ffn_norm.weight"@.len() == 15);
    assert("ffn_gate.weight"@[0] == 'f' && "ffn_gate.weight"@[1] == 'f' && "ffn_gate.weight"@[2] == 'n' && "ffn_gate.weight"@[3] == '_' && "ffn_gate.weight"@[4] == 'g' && "ffn_gate.weight"@[5] == 'a' && "ffn_gate.weight"@[6] == 't' && "ffn_gate.weight"@[7] == 'e' && "ffn_gate.weight"@[8] == '.' && "ffn_gate.weight"@[9] == 'w' && "ffn_gate.weight"@[10] == 'e' && "ffn_gate.weight"@[11] == 'i' && "ffn_gate.weight"@[12] == 'g' && "ffn_gate.weight"@[13] == 'h' && "ffn_gate.weight"@[14] == 't' && "ffn_gate.weight"@.len() == 15);
    assert("ffn_up.weight"@[0] == 'f' && "ffn_up.weight"@[1] == 'f' && "ffn_up.weight"@[2] == 'n' && "ffn_up.weight"@[3] == '_' && "ffn_up.weight"@[4] == 'u' && "ffn_up.weight"@[5] == 'p' && "ffn_up.weight"@[6] == '.' && "ffn_up.weight"@[7] == 'w' && "ffn_up.weight"@[8] == 'e' && "ffn_up.weight"@[9] == 'i' && "ffn_up.weight"@[10] == 'g' && "ffn_up.weight"@[11] == 'h' && "ffn_up.weight"@[12] == 't' && "ffn_up.weight"@.len() == 13);
    assert("ffn_down.weight"@[0] == 'f' && "ffn_down.weight"@[1] == 'f' && "ffn_down.weight"@[2] == 'n' && "ffn_down.weight"@[3] == '_' && "ffn_down.weight"@[4] == 'd' && "ffn_down.weight"@[5] == 'o' && "ffn_down.weight"@[6] == 'w' && "ffn_down.weight"@[7] == 'n' && "ffn_down.weight"@[8] == '.' && "ffn_down.weight"@[9] == 'w' && "ffn_down.weight"@[10] == 'e' && "ffn_down.weight"@[11] == 'i' && "ffn_down.weight"@[12] == 'g' && "ffn_down.weight"@[13] == 'h' && "ffn_down.weight"@[14] == 't' && "ffn_down.weight"@.len() == 15);
    assert("input_layernorm.weight"@[0] == 'i' && "input_layernorm.weight"@[1] == 'n' && "input_layernorm.weight"@[2] == 'p' && "input_layernorm.weight"@[3] == 'u' && "input_layernorm.weight"@[4] == 't' && "input_layernorm.weight"@[5] == '_' && "input_layernorm.weight"@[6] == 'l' && "input_layernorm.weight"@[7] == 'a' && "input_layernorm.weight"@[8] == 'y' && "input_layernorm.weight"@[9] == 'e' && "input_layernorm.weight"@[10] == 'r' && "input_layernorm.weight"@[11] == 'n' && "input_layernorm.weight"@[12] == 'o' && "input_layernorm.weight"@[13] == 'r' && "input_layernorm.weight"@[14] == 'm' && "input_layernorm.weight"@[15] == '.' && "input_layernorm.weight"@[16] == 'w' && "input_layernorm.weight"@[17] == 'e' && "input_layernorm.weight"@[18] == 'i' && "input_layernorm.weight"@[19] == 'g' && "input_layernorm.weight"@[20] == 'h' && "input_layernorm.weight"@[21] == 't' && "input_layernorm.weight"@.len() == 22);
    assert("self_attn.q_proj.weight"@[0] == 's' && "self_attn.q_proj.weight"@[1] == 'e' && "self_attn.q_proj.weight"@[2] == 'l' && "self_attn.q_proj.weight"@[3] == 'f' && "self_attn.q_proj.weight"@[4] == '_' && "self_attn.q_proj.weight"@[5] == 'a' && "self_attn.q_proj.weight"@[6] == 't' && "self_attn.q_proj.weight"@[7] == 't' && "self_attn.q_proj.weight"@[8] == 'n' && "self_attn.q_proj.weight"@[9] == '.' && "self_attn.q_proj.weight"@[10] == 'q' && "self_attn.q_proj.weight"@[11] == '_' && "self_attn.q_proj.weight"@[12] == 'p' && "self_attn.q_proj.weight"@[13] == 'r' && "self_attn.q_proj.weight"@[14] == 'o' && "self_attn.q_proj.weight"@[15] == 'j' && "self_attn.q_proj.weight"@[16] == '.' && "self_attn.q_proj.weight"@[17] == 'w' && "self_attn.q_proj.weight"@[18] == 'e' && "self_attn.q_proj.weight"@[19] == 'i' && "self_attn.q_proj.weight"@[20] == 'g' && "self_attn.q_proj.weight"@[21] == 'h' && "self_attn.q_proj.weight"@[22] == 't' && "self_attn.q_proj.weight"@.len() == 23);
    assert("self_attn.k_proj.weight"@[0] == 's' && "self_attn.k_proj.weight"@[1] == 'e' && "self_attn.k_proj.weight"@[2] == 'l' && "self_attn.k_proj.weight"@[3] == 'f' && "self_attn.k_proj.weight"@[4] == '_' && "self_attn.k_proj.weight"@[5] == 'a' && "self_attn.k_proj.weight"@[6] == 't' && "self_attn.k_proj.weight"@[7] == 't' && "self_attn.k_proj.weight"@[8] == 'n' && "self_attn.k_proj.weight"@[9] == '.' && "self_attn.k_proj.weight"@[10] == 'k' && "self_attn.k_proj.weight"@[11] == '_' && "self_attn.k_proj.weight"@[12] == 'p' && "self_attn.k_proj.weight"@[13] == 'r' && "self_attn.k_proj.weight"@[14] == 'o' && "self_attn.k_proj.weight"@[15] == 'j' && "self_attn.k_proj.weight"@[16] == '.' && "self_attn.k_proj.weight"@[17] == 'w' && "self_attn.k_proj.weight"@[18] == 'e' && "self_attn.k_proj.weight"@[19] == 'i' && "self_attn.k_proj.weight"@[20] == 'g' && "self_attn.k_proj.weight"@[21] == 'h' && "self_attn.k_proj.weight"@[22] == 't' && "self_attn.k_proj.weight"@.len() == 23);
    assert("self_attn.v_proj.weight"@[0] == 's' && "self_attn.v_proj.weight"@[1] == 'e' && "self_attn.v_proj.weight"@[2] == 'l' && "self_attn.v_proj.weight"@[3] == 'f' && "self_attn.v_proj.weight"@[4] == '_' && "self_attn.v_proj.weight"@[5] == 'a' && "self_attn.v_proj.weight"@[6] == 't' && "self_attn.v_proj.weight"@[7] == 't' && "self_attn.v_proj.weight"@[8] == 'n' && "self_attn.v_proj.weight"@[9] == '.' && "self_attn.v_proj.weight"@[10] == 'v' && "self_attn.v_proj.weight"@[11] == '_' && "self_attn.v_proj.weight"@[12] == 'p' && "self_attn.v_proj.weight"@[13] == 'r' && "self_attn.v_proj.weight"@[14] == 'o' && "self_attn.v_proj.weight"@[15] == 'j' && "self_attn.v_proj.weight"@[16] == '.' && "self_attn.v_proj.weight"@[17] == 'w' && "self_attn.v_proj.weight"@[18] == 'e' && "self_attn.v_proj.weight"@[19] == 'i' && "self_attn.v_proj.weight"@[20] == 'g' && "self_attn.v_proj.weight"@[21] == 'h' && "self_attn.v_proj.weight"@[22] == 't' && "self_attn.v_proj.weight"@.len() == 23);
    assert("self_attn.o_proj.weight"@[0] == 's' && "self_attn.o_proj.weight"@[1] == 'e' && "self_attn.o_proj.weight"@[2] == 'l' && "self_attn.o_proj.weight"@[3] == 'f' && "self_attn.o_proj.weight"@[4] == '_' && "self_attn.o_proj.weight"@[5] == 'a' && "self_attn.o_proj.weight"@[6] == 't' && "self_attn.o_proj.weight"@[7] == 't' && "self_attn.o_proj.weight"@[8] == 'n' && "self_attn.o_proj.weight"@[9] == '.' && "self_attn.o_proj.weight"@[10] == 'o' && "self_attn.o_proj.weight"@[11] == '_' && "self_attn.o_proj.weight"@[12] == 'p' && "self_attn.o_proj.weight"@[13] == 'r' && "self_attn.o_proj.weight"@[14] == 'o' && "self_attn.o_proj.weight"@[15] == 'j' && "self_attn.o_proj.weight"@[16] == '.' && "self_attn.o_proj.weight"@[17] == 'w' && "self_attn.o_proj.weight"@[18] == 'e' && "self_attn.o_proj.weight"@[19] == 'i' && "self_attn.o_proj.weight"@[20] == 'g' && "self_attn.o_proj.weight"@[21] == 'h' && "self_attn.o_proj.weight"@[22] == 't' && "self_attn.o_proj.weight"@.len() == 23);
    assert("self_attn.q_proj.bias"@[0] == 's' && "self_attn.q_proj.bias"@[1] == 'e' && "self_attn.q_proj.bias"@[2] == 'l' && "self_attn.q_proj.bias"@[3] == 'f' && "self_attn.q_proj.bias"@[4] == '_' && "self_attn.q_proj.bias"@[5] == 'a' && "self_attn.q_proj.bias"@[6] == 't' && "self_attn.q_proj.bias"@[7] == 't' && "self_attn.q_proj.bias"@[8] == 'n' && "self_attn.q_proj.bias"@[9] == '.' && "self_attn.q_proj.bias"@[10] == 'q' && "self_attn.q_proj.bias"@[11] == '_' && "self_attn.q_proj.bias"@[12] == 'p' && "self_attn.q_proj.bias"@[13] == 'r' && "self_attn.q_proj.bias"@[14] == 'o' && "self_attn.q_proj.bias"@[15] == 'j' && "self_attn.q_proj.bias"@[16] == '.' && "self_attn.q_proj.bias"@[17] == 'b' && "self_attn.q_proj.bias"@[18] == 'i' && "self_attn.q_proj.bias"@[19] == 'a' && "self_attn.q_proj.bias"@[20] == 's' && "self_attn.q_proj.bias"@.len() == 21);
    assert("self_attn.k_proj.bias"@[0] == 's' && "self_attn.k_proj.bias"@[1] == 'e' && "self_attn.k_proj.bias"@[2] == 'l' && "self_attn.k_proj.bias"@[3] == 'f' && "self_attn.k_proj.bias"@[4] == '_' && "self_attn.k_proj.bias"@[5] == 'a' && "self_attn.k_proj.bias"@[6] == 't' && "self_attn.k_proj.bias"@[7] == 't' && "self_attn.k_proj.bias"@[8] == 'n' && "self_attn.k_proj.bias"@[9] == '.' && "self_attn.k_proj.bias"@[10] == 'k' && "self_attn.k_proj.bias"@[11] == '_' && "self_attn.k_proj.bias"@[12] == 'p' && "self_attn.k_proj.bias"@[13] == 'r' && "self_attn.k_proj.bias"@[14] == 'o' && "self_attn.k_proj.bias"@[15] == 'j' && "self_attn.k_proj.bias"@[16] == '.' && "self_attn.k_proj.bias"@[17] == 'b' && "self_attn.k_proj.bias"@[18] == 'i' && "self_attn.k_proj.bias"@[19] == 'a' && "self_attn.k_proj.bias"@[20] == 's' && "self_attn.k_proj.bias"@.len() == 21);
    assert("self_attn.v_proj.bias"@[0] == 's' && "self_attn.v_proj.bias"@[1] == 'e' && "self_attn.v_proj.bias"@[2] == 'l' && "self_attn.v_proj.bias"@[3] == 'f' && "self_attn.v_proj.bias"@[4] == '_' && "self_attn.v_proj.bias"@[5] == 'a' && "self_attn.v_proj.bias"@[6] == 't' && "self_attn.v_proj.bias"@[7] == 't' && "self_attn.v_proj.bias"@[8] == 'n' && "self_attn.v_proj.bias"@[9] == '.' && "self_attn.v_proj.bias"@[10] == 'v' && "self_attn.v_proj.bias"@[11] == '_' && "self_attn.v_proj.bias"@[12] == 'p' && "self_attn.v_proj.bias"@[13] == 'r' && "self_attn.v_proj.bias"@[14] == 'o' && "self_attn.v_proj.bias"@[15] == 'j' && "self_attn.v_proj.bias"@[16] == '.' && "self_attn.v_proj.bias"@[17] == 'b' && "self_attn.v_proj.bias"@[18] == 'i' && "self_attn.v_proj.bias"@[19] == 'a' && "self_attn.v_proj.bias"@[20] == 's' && "self_attn.v_proj.bias"@.len() == 21);
    assert("self_attn.q_norm.weight"@[0] == 's' && "self_attn.q_norm.weight"@[1] == 'e' && "self_attn.q_norm.weight"@[2] == 'l' && "self_attn.q_norm.weight"@[3] == 'f' && "self_attn.q_norm.weight"@[4] == '_' && "self_attn.q_norm.weight"@[5] == 'a' && "self_attn.q_norm.weight"@[6] == 't' && "self_attn.q_norm.weight"@[7] == 't' && "self_attn.q_norm.weight"@[8] == 'n' && "self_attn.q_norm.weight"@[9] == '.' && "self_attn.q_norm.weight"@[10] == 'q' && "self_attn.q_norm.weight"@[11] == '_' && "self_attn.q_norm.weight"@[12] == 'n' && "self_attn.q_norm.weight"@[13] == 'o' && "self_attn.q_norm.weight"@[14] == 'r' && "self_attn.q_norm.weight"@[15] == 'm' && "self_attn.q_norm.weight"@[16] == '.' && "self_attn.q_norm.weight"@[17] == 'w' && "self_attn.q_norm.weight"@[18] == 'e' && "self_attn.q_norm.weight"@[19] == 'i' && "self_attn.q_norm.weight"@[20] == 'g' && "self_attn.q_norm.weight"@[21] == 'h' && "self_attn.q_norm.weight"@[22] == 't' && "self_attn.q_norm.weight"@.len() == 23);
    assert("self_attn.k_norm.weight"@[0] == 's' && "self_attn.k_norm.weight"@[1] == 'e' && "self_attn.k_norm.weight"@[2] == 'l' && "self_attn.k_norm.weight"@[3] == 'f' && "self_attn.k_norm.weight"@[4] == '_' && "self_attn.k_norm.weight"@[5] == 'a' && "self_attn.k_norm.weight"@[6] == 't' && "self_attn.k_norm.weight"@[7] == 't' && "self_attn.k_norm.weight"@[8] == 'n' && "self_attn.k_norm.weight"@[9] == '.' && "self_attn.k_norm.weight"@[10] == 'k' && "self_attn.k_norm.weight"@[11] == '_' && "self_attn.k_norm.weight"@[12] == 'n' && "self_attn.k_norm.weight"@[13] == 'o' && "self_attn.k_norm.weight"@[14] == 'r' && "self_attn.k_norm.weight"@[15] == 'm' && "self_attn.k_norm.weight"@[16] == '.' && "self_attn.k_norm.weight"@[17] == 'w' && "self_attn.k_norm.weight"@[18] == 'e' && "self_attn.k_norm.weight"@[19] == 'i' && "self_attn.k_norm.weight"@[20] == 'g' && "self_attn.k_norm.weight"@[21] == 'h' && "self_attn.k_norm.weight"@[22] == 't' && "self_attn.k_norm.weight"@.len() == 23);
    assert("post_attention_layernorm.weight"@[0] == 'p' && "post_attention_layernorm.weight"@[1] == 'o' && "post_attention_layernorm.weight"@[2] == 's' && "post_attention_layernorm.weight"@[3] == 't' && "post_attention_layernorm.weight"@[4] == '_' && "post_attention_layernorm.weight"@[5] == 'a' && "post_attention_layernorm.weight"@[6] == 't' && "post_attention_layernorm.weight"@[7] == 't' && "post_attention_layernorm.weight"@[8] == 'e' && "post_attention_layernorm.weight"@[9] == 'n' && "post_attention_layernorm.weight"@[10] == 't' && "post_attention_layernorm.weight"@[11] == 'i' && "post_attention_layernorm.weight"@[12] == 'o' && "post_attention_layernorm.weight"@[13] == 'n' && "post_attention_layernorm.weight"@[14] == '_' && "post_attention_layernorm.weight"@[15] == 'l' && "post_attention_layernorm.weight"@[16] == 'a' && "post_attention_layernorm.weight"@[17] == 'y' && "post_attention_layernorm.weight"@[18] == 'e' && "post_attention_layernorm.weight"@[19] == 'r' && "post_attention_layernorm.weight"@[20] == 'n' && "post_attention_layernorm.weight"@[21] == 'o' && "post_attention_layernorm.weight"@[22] == 'r' && "post_attention_layernorm.weight"@[23] == 'm' && "post_attention_layernorm.weight"@[24] == '.' && "post_attention_layernorm.weight"@[25] == 'w' && "post_attention_layernorm.weight"@[26] == 'e' && "post_attention_layernorm.weight"@[27] == 'i' && "post_attention_layernorm.weight"@[28] == 'g' && "post_attention_layernorm.weight"@[29] == 'h' && "post_attention_layernorm.weight"@[30] == 't' && "post_attention_layernorm.weight"@.len() == 31);
    assert("mlp.gate_proj.weight"@[0] == 'm' && "mlp.gate_proj.weight"@[1] == 'l' && "mlp.gate_proj.weight"@[2] == 'p' && "mlp.gate_proj.weight"@[3] == '.' && "mlp.gate_proj.weight"@[4] == 'g' && "mlp.gate_proj.weight"@[5] == 'a' && "mlp.gate_proj.weight"@[6] == 't' && "mlp.gate_proj.weight"@[7] == 'e' && "mlp.gate_proj.weight"@[8] == '_' && "mlp.gate_proj.weight"@[9] == 'p' && "mlp.gate_proj.weight"@[10] == 'r' && "mlp.gate_proj.weight"@[11] == 'o' && "mlp.gate_proj.weight"@[12] == 'j' && "mlp.gate_proj.weight"@[13] == '.' && "mlp.gate_proj.weight"@[14] == 'w' && "mlp.gate_proj.weight"@[15] == 'e' && "mlp.gate_proj.weight"@[16] == 'i' && "mlp.gate_proj.weight"@[17] == 'g' && "mlp.gate_proj.weight"@[18] == 'h' && "mlp.gate_proj.weight"@[19] == 't' && "mlp.gate_proj.weight"@.len() == 20);
    assert("mlp.up_proj.weight"@[0] == 'm' && "mlp.up_proj.weight"@[1] == 'l' && "mlp.up_proj.weight"@[2] == 'p' && "mlp.up_proj.weight"@[3] == '.' && "mlp.up_proj.weight"@[4] == 'u' && "mlp.up_proj.weight"@[5] == 'p' && "mlp.up_proj.weight"@[6] == '_' && "mlp.up_proj.weight"@[7] == 'p' && "mlp.up_proj.weight"@[8] == 'r' && "mlp.up_proj.weight"@[9] == 'o' && "mlp.up_proj.weight"@[10] == 'j' && "mlp.up_proj.weight"@[11] == '.' && "mlp.up_proj.weight"@[12] == 'w' && "mlp.up_proj.weight"@[13] == 'e' && "mlp.up_proj.weight"@[14] == 'i' && "mlp.up_proj.weight"@[15] == 'g' && "mlp.up_proj.weight"@[16] == 'h' && "mlp.up_proj.weight"@[17] == 't' && "mlp.up_proj.weight"@.len() == 18);
    assert("mlp.down_proj.weight"@[0] == 'm' && "mlp.down_proj.weight"@[1] == 'l' && "mlp.down_proj.weight"@[2] == 'p' && "mlp.down_proj.weight"@[3] == '.' && "mlp.down_proj.weight"@[4] == 'd' && "mlp.down_proj.weight"@[5] == 'o' && "mlp.down_proj.weight"@[6] == 'w' && "mlp.down_proj.weight"@[7] == 'n' && "mlp.down_proj.weight"@[8] == '_' && "mlp.down_proj.weight"@[9] == 'p' && "mlp.down_proj.weight"@[10] == 'r' && "mlp.down_proj.weight"@[11] == 'o' && "mlp.down_proj.weight"@[12] == 'j' && "mlp.down_proj.weight"@[13] == '.' && "mlp.down_proj.weight"@[14] == 'w' && "mlp.down_proj.weight"@[15] == 'e' && "mlp.down_proj.weight"@[16] == 'i' && "mlp.down_proj.weight"@[17] == 'g' && "mlp.down_proj.weight"@[18] == 'h' && "mlp.down_proj.weight"@[19] == 't' && "mlp.down_proj.weight"@.len() == 20);
    let g = gguf_layer_suffixes();
    assert forall|i: int, j: int| 0 <= i < j < g.len() implies hf_suffix(#[trigger] g[i]) != hf_suffix(#[trigger] g[j]) by {
    }
    if !g.contains(s) {
        assert forall|i: int| 0 <= i < g.len() implies g[i] != s by {
            if g[i] == s {
                assert(g.contains(s));
            }
        }
    }
}

/// The HuggingFace canonical name of a GGUF tensor name.
pub open spec fn spec_gguf_to_hf(name: Seq<char>) -> Seq<char> {
    if name == "token_embd.weight"@ {
        "model.embed_tokens.weight"@
    } else if name == "output_norm.weight"@ {
        "model.norm.weight"@
    } else if name == "output.weight"@ {
        "lm_head.weight"@
    } else if name.len() >= 4 && name.take(4) == "blk."@ && spec_find_char(name.skip(4), '.') is Some {
        let rest = name.skip(4);
        let dot = spec_find_char(rest, '.')->0;
        "model.layers."@ + rest.take(dot) + "."@ + hf_suffix(rest.skip(dot + 1))
    } else {
        name
    }
}

/// A per-layer GGUF name `blk.<layer>.<suffix>` (the layer written
/// without a dot) becomes `model.layers.<layer>.` followed by the
/// HuggingFace name of the suffix: the layer is kept and only the suffix is
/// renamed, so `blk.0.ffn_down.weight` is `model.layers.0.mlp.down_proj.weight`.
pub proof fn lemma_gguf_layer_name(layer: Seq<char>, suffix: Seq<char>)
    requires
        !layer.contains('.'),
    ensures
        spec_gguf_to_hf("blk."@ + layer + "."@ + suffix) == "model.layers."@ + layer + "."@ + hf_suffix(suffix),
{
    reveal_strlit("blk.");
    reveal_strlit(".");
    reveal_strlit("token_embd.weight");
    reveal_strlit("output_norm.weight");
    reveal_strlit("output.weight");
    let name = "blk."@ + layer + "."@ + suffix;
    assert(name[0] == 'b');
    assert("token_embd.weight"@[0] == 't');
    assert("output_norm.weight"@[0] == 'o');
    assert("output.weight"@[0] == 'o');
    assert(name.take(4) =~= "blk."@);
    let rest = name.skip(4);
    assert(rest =~= layer + "."@ + suffix);
    let k = layer.len() as int;
    assert forall|j: int| 0 <= j < k implies rest[j] != '.' by {
        assert(rest[j] == layer[j]);
        if layer[j] == '.' {
            assert(layer.contains('.'));
        }
    }
    assert(is_first_index(rest, '.', k));
    assert(spec_find_char(rest, '.') is Some);
    let dot = spec_find_char(rest, '.')->0;
    assert(is_first_index(rest, '.', dot));
    lemma_first_index_unique(rest, '.', dot, k);
    assert(rest.take(dot) =~= layer);
    assert(rest.skip(dot + 1) =~= suffix);
}

fn hf_suffix_exec(s: &Vec<char>) -> (r: Vec<char>)
    ensures
        r@ == hf_suffix(s@),
{
    if chars_eq(s, &to_chars("attn_norm.weight")) {
        to_chars("input_layernorm.weight")
    } else
    if chars_eq(s, &to_chars("attn_q.weight")) {
        to_chars("self_attn.q_proj.weight")
    } else
    if chars_eq(s, &to_chars("attn_k.weight")) {
        to_chars("self_attn.k_proj.weight")
    } else
    if chars_eq(s, &to_chars("attn_v.weight")) {
        to_chars("self_attn.v_proj.weight")
    } else
    if chars_eq(s, &to_chars("attn_output.weight")) {
        to_chars("self_attn.o_proj.weight")
    } else
    if chars_eq(s, &to_chars("attn_q.bias")) {
        to_chars("self_attn.q_proj.bias")
    } else
    if chars_eq(s, &to_chars("attn_k.bias")) {
        to_chars("self_attn.k_proj.bias")
    } else
    if chars_eq(s, &to_chars("attn_v.bias")) {
        to_chars("self_attn.v_proj.bias")
    } else
    if chars_eq(s, &to_chars("attn_q_norm.weight")) {
        to_chars("self_attn.q_norm.weight")
    } else
    if chars_eq(s, &to_chars("attn_k_norm.weight")) {
        to_chars("self_attn.k_norm.weight")
    } else
    if chars_eq(s, &to_chars("ffn_norm.weight")) {
        to_chars("post_attention_layernorm.weight")
    } else
    if chars_eq(s, &to_chars("ffn_gate.weight")) {
        to_chars("mlp.gate_proj.weight")
    } else
    if chars_eq(s, &to_chars("ffn_up.weight")) {
        to_chars("mlp.up_proj.weight")
    } else
    if chars_eq(s, &to_chars("ffn_down.weight")) {
        to_chars("mlp.down_proj.weight")
    } else {
        chars_slice(s, 0, s.len())
    }
}

/// Map a GGUF tensor name to its HuggingFace canonical equivalent, e.g.
/// `blk.5.attn_q.weight` to `model.layers.5.self_attn.q_proj.weight`.
pub fn gguf_to_hf(name: &str) -> (r: String)
    ensures
        r@ == spec_gguf_to_hf(name@),
{
    let n = to_chars(name);
    if chars_eq(&n, &to_chars("token_embd.weight")) {
        return string_of(&to_chars("model.embed_tokens.weight"));
    }
    if chars_eq(&n, &to_chars("output_norm.weight")) {
        return string_of(&to_chars("model.norm.weight"));
    }
    if chars_eq(&n, &to_chars("output.weight")) {
        return string_of(&to_chars("lm_head.weight"));
    }
    let prefix = to_chars("blk.");
    proof {
        reveal_strlit("blk.");
    }
    if chars_start_with(&n, &prefix) {
        let rest = chars_slice(&n, 4, n.len());
        proof {
            assert(rest@ =~= name@.skip(4));
        }
        if let Some(dot) = find_char(&rest, '.') {
            let layer = chars_slice(&rest, 0, dot);
            let suffix = chars_slice(&rest, dot + 1, rest.len());
            let mapped = hf_suffix_exec(&suffix);
            let a = chars_concat(&to_chars("model.layers."), &layer);
            let b = chars_concat(&a, &to_chars("."));
            let out = chars_concat(&b, &mapped);
            proof {
                assert(layer@ =~= rest@.take(dot as int));
                assert(suffix@ =~= rest@.skip(dot + 1));
            }
            return string_of(&out);
        }
    }
    string_of(&n)
}


/// How a tensor's data changes on import.
#[derive(Clone, Copy, Debug, PartialEq, Eq, Structural)]
pub enum ImportConversion {
    /// The bytes are kept as they are.
    Keep,
    /// BF16 is widened to f32, then narrowed to f16.
    Bf16ToF16,
    /// Legacy Q4_0 and Q4_1 are dequantized and requantized to Q4_K.
    ToQ4K,
}

/// The `.model` encoding of a tensor of element type `d`, and the
/// conversion its data needs: obsolete formats are normalized to the
/// canonical set (q4k, q6k, q5k, q3k, q2k, q8, u16, u32, ternary).
pub open spec fn spec_import_encoding(d: DType) -> (Seq<char>, ImportConversion) {
    match d {
        DType::F32 => ("u32"@, ImportConversion::Keep),
        DType::F16 => ("u16"@, ImportConversion::Keep),
        DType::BF16 => ("u16"@, ImportConversion::Bf16ToF16),
        DType::Q4 | DType::Q4_1 => ("q4k"@, ImportConversion::ToQ4K),
        DType::Q8 => ("q8"@, ImportConversion::Keep),
        DType::Ternary | DType::U8 => ("ternary"@, ImportConversion::Keep),
        DType::Q4_K => ("q4k"@, ImportConversion::Keep),
        DType::Q6_K => ("q6k"@, ImportConversion::Keep),
        DType::Q2_K => ("q2k"@, ImportConversion::Keep),
        DType::Q3_K => ("q3k"@, ImportConversion::Keep),
        DType::Q5_K => ("q5k"@, ImportConversion::Keep),
        _ => ("u32"@, ImportConversion::Keep),
    }
}

/// The `.model` encoding of a tensor and the conversion its data needs.
pub fn import_encoding(d: DType) -> (r: (&'static str, ImportConversion))
    ensures
        (r.0@, r.1) == spec_import_encoding(d),
{
    match d {
        DType::F32 => ("u32", ImportConversion::Keep),
        DType::F16 => ("u16", ImportConversion::Keep),
        DType::BF16 => ("u16", ImportConversion::Bf16ToF16),
        DType::Q4 | DType::Q4_1 => ("q4k", ImportConversion::ToQ4K),
        DType::Q8 => ("q8", ImportConversion::Keep),
        DType::Ternary | DType::U8 => ("ternary", ImportConversion::Keep),
        DType::Q4_K => ("q4k", ImportConversion::Keep),
        DType::Q6_K => ("q6k", ImportConversion::Keep),
        DType::Q2_K => ("q2k", ImportConversion::Keep),
        DType::Q3_K => ("q3k", ImportConversion::Keep),
        DType::Q5_K => ("q5k", ImportConversion::Keep),
        _ => ("u32", ImportConversion::Keep),
    }
}

/// The dimensions in decimal, separated by `, `.
pub open spec fn shape_text(shape: Seq<usize>) -> Seq<char>
    decreases shape.len(),
{
    if shape.len() == 0 {
        Seq::empty()
    } else if shape.len() == 1 {
        spec_decimal(shape[0] as nat)
    } else {
        shape_text(shape.drop_last()) + ", "@ + spec_decimal(shape.last() as nat)
    }
}

/// The `tensors.toml` entry of one tensor.
pub open spec fn spec_tensor_entry(name: Seq<char>, shape: Seq<usize>, encoding: Seq<char>, offset: nat, size: nat) -> Seq<
    char,
> {
    "[\""@ + name + "\"]\nshape    = ["@ + shape_text(shape) + "]\nencoding = \""@ + encoding + "\"\noffset   = "@
        + spec_decimal(offset) + "\nsize     = "@ + spec_decimal(size) + "\n"@
}

/// The `tensors.toml` entry of one tensor: its name, shape, encoding, and
/// the offset and size of its data in the weight blob.
pub fn tensor_entry(name: &str, shape: &Vec<usize>, encoding: &str, offset: usize, size: usize) -> (r: String)
    ensures
        r@ == spec_tensor_entry(name@, shape@, encoding@, offset as nat, size as nat),
{
    let mut s = String::new();
    append_str(&mut s, "[\"");
    append_str(&mut s, name);
    append_str(&mut s, "\"]\nshape    = [");
    let ghost head = s@;
    let mut i: usize = 0;
    proof {
        assert(shape@.take(0) =~= Seq::<usize>::empty());
        assert(s@ =~= head + shape_text(shape@.take(0)));
    }
    while i < shape.len()
        invariant
            i <= shape@.len(),
            s@ == head + shape_text(shape@.take(i as int)),
        decreases shape@.len() - i,
    {
        let ghost before = s@;
        if i > 0 {
            append_str(&mut s, ", ");
        }
        append_decimal(&mut s, shape[i]);
        proof {
            assert(shape@.take(i + 1).drop_last() =~= shape@.take(i as int));
            assert(shape@.take(i + 1).last() == shape@[i as int]);
            if i == 0 {
                assert(shape@.take(1)[0] == shape@[0]);
            }
            assert(s@ =~= head + shape_text(shape@.take(i + 1)));
        }
        i = i + 1;
    }
    proof {
        assert(shape@.take(i as int) =~= shape@);
    }
    append_str(&mut s, "]\nencoding = \"");
    append_str(&mut s, encoding);
    append_str(&mut s, "\"\noffset   = ");
    append_decimal(&mut s, offset);
    append_str(&mut s, "\nsize     = ");
    append_decimal(&mut s, size);
    append_str(&mut s, "\n");
    proof {
        assert(s@ =~= spec_tensor_entry(name@, shape@, encoding@, offset as nat, size as nat));
    }
    s
}

/// A source tensor ready to be packed: its GGUF name, shape and source
/// element type (which picks the encoding, see `import_encoding`), and its
/// data already converted to that encoding.
pub struct PackItem {
    pub name: String,
    pub shape: Vec<usize>,
    pub dtype: DType,
    pub data: Vec<u8>,
}

/// The `tensors.toml` entries and the weight blob of the first `n` items,
/// packed in order: each under its HuggingFace name at the current end of
/// the blob, followed, where `kv_duplicate` names a value projection, by
/// that projection with the same bytes.
pub open spec fn packed(
    items: Seq<PackItem>,
    k_eq_v: Option<bool>,
    layer_types: Seq<String>,
    existing: Seq<String>,
    n: int,
) -> (Seq<Seq<char>>, Seq<u8>)
    decreases n,
{
    if n <= 0 {
        (Seq::empty(), Seq::empty())
    } else {
        let prev = packed(items, k_eq_v, layer_types, existing, n - 1);
        let it = items[n - 1];
        let hf = spec_gguf_to_hf(it.name@);
        let enc = spec_import_encoding(it.dtype).0;
        let size = it.data@.len();
        let lines = prev.0.push(spec_tensor_entry(hf, it.shape@, enc, prev.1.len(), size));
        let blob = prev.1 + it.data@;
        match kv_duplicate(hf, k_eq_v, layer_types, existing) {
            Some(v) => (lines.push(spec_tensor_entry(v, it.shape@, enc, blob.len(), size)), blob + it.data@),
            None => (lines, blob),
        }
    }
}

/// Pack the tensors of an import, in the order given: the `tensors.toml`
/// entries (name, shape, encoding, offset and size in the blob) and the
/// weight blob itself. `existing` holds the HuggingFace names of all
/// source tensors, so that a value projection the source already has is
/// not written twice.
pub fn pack_tensors(items: &Vec<PackItem>, k_eq_v: Option<bool>, layer_types: &Vec<String>, existing: &Vec<String>) -> (r: (
    Vec<String>,
    Vec<u8>,
))
    requires
        packed(items@, k_eq_v, layer_types@, existing@, items@.len() as int).1.len() <= usize::MAX,
    ensures
        texts(r.0@) == packed(items@, k_eq_v, layer_types@, existing@, items@.len() as int).0,
        r.1@ == packed(items@, k_eq_v, layer_types@, existing@, items@.len() as int).1,
{
    let mut lines: Vec<String> = Vec::new();
    let mut blob: Vec<u8> = Vec::new();
    let mut i: usize = 0;
    while i < items.len()
        invariant
            i <= items@.len(),
            texts(lines@) == packed(items@, k_eq_v, layer_types@, existing@, i as int).0,
            blob@ == packed(items@, k_eq_v, layer_types@, existing@, i as int).1,
            packed(items@, k_eq_v, layer_types@, existing@, items@.len() as int).1.len() <= usize::MAX,
        decreases items@.len() - i,
    {
        proof {
            lemma_packed_grows(items@, k_eq_v, layer_types@, existing@, i + 1, items@.len() as int);
        }
        let it = &items[i];
        let hf = gguf_to_hf(it.name.as_str());
        let (enc, _) = import_encoding(it.dtype);
        let size = it.data.len();
        let ghost before = lines@;
        lines.push(tensor_entry(hf.as_str(), &it.shape, enc, blob.len(), size));
        proof {
            assert(texts(lines@) =~= texts(before).push(lines@.last()@));
        }
        append_bytes(&mut blob, it.data.as_slice());
        match kv_duplicate_name(hf.as_str(), k_eq_v, layer_types, existing) {
            Some(v) => {
                let ghost mid = lines@;
                lines.push(tensor_entry(v.as_str(), &it.shape, enc, blob.len(), size));
                proof {
                    assert(texts(lines@) =~= texts(mid).push(lines@.last()@));
                }
                append_bytes(&mut blob, it.data.as_slice());
            },
            None => {},
        }
        i = i + 1;
    }
    (lines, blob)
}

/// The blob only grows as items are packed.
proof fn lemma_packed_grows(
    items: Seq<PackItem>,
    k_eq_v: Option<bool>,
    layer_types: Seq<String>,
    existing: Seq<String>,
    a: int,
    b: int,
)
    requires
        0 <= a <= b,
    ensures
        packed(items, k_eq_v, layer_types, existing, a).1.len() <= packed(items, k_eq_v, layer_types, existing, b).1.len(),
    decreases b - a,
{
    if a < b {
        lemma_packed_grows(items, k_eq_v, layer_types, existing, a, b - 1);
    }
}

} // verus!
