//! Family profile: the per-variant quirks of a LlamaStyle model collapsed
//! into one struct, populated once from the model type.

use vstd::prelude::*;
use crate::text::{to_chars, chars_eq};

verus! {

/// How Q·K^T is scaled before softmax.
#[derive(Clone, Copy, Debug, PartialEq, Eq, Structural)]
pub enum AttnScale {
    /// Standard transformer: 1 / sqrt(head_dim).
    PerHeadDim,
    /// Fixed divisor independent of head_dim (Gemma 1/2/3).
    FixedDivisor(usize),
    /// No extra scaling: Q and K are pre-normalised (Gemma 4).
    Unity,
}

/// Per-family deviations from the LlamaStyle baseline.
#[derive(Clone, Copy, Debug)]
pub struct FamilyProfile {
    /// RMSNorm applies `(1 + w) * x / rms` instead of `w * x / rms`.
    pub rmsnorm_plus_one: bool,
    /// Multiply looked-up input embeddings by sqrt(hidden_size).
    pub scaled_embeddings: bool,
    /// Apply a weightless RMSNorm to V per head before the KV cache write.
    pub v_norm_per_head: bool,
    /// How attention scores are scaled before softmax.
    pub attn_scale: AttnScale,
}

pub open spec fn is_gemma4(t: Seq<char>) -> bool {
    t == "gemma4"@ || t == "gemma4_text"@
}

pub open spec fn is_gemma_1_to_3(t: Seq<char>) -> bool {
    t == "gemma"@ || t == "gemma2"@ || t == "gemma3"@ || t == "gemma3_text"@
}

/// The profile for a model type.
pub open spec fn spec_profile(t: Seq<char>, query_pre_attn_scalar: Option<usize>) -> FamilyProfile {
    if is_gemma4(t) {
        FamilyProfile {
            rmsnorm_plus_one: false,
            scaled_embeddings: true,
            v_norm_per_head: true,
            attn_scale: AttnScale::Unity,
        }
    } else if is_gemma_1_to_3(t) {
        FamilyProfile {
            rmsnorm_plus_one: true,
            scaled_embeddings: true,
            v_norm_per_head: false,
            attn_scale: AttnScale::FixedDivisor(
                match query_pre_attn_scalar {
                    Some(q) => q,
                    None => 256,
                },
            ),
        }
    } else {
        FamilyProfile {
            rmsnorm_plus_one: false,
            scaled_embeddings: false,
            v_norm_per_head: false,
            attn_scale: AttnScale::PerHeadDim,
        }
    }
}

impl FamilyProfile {
    /// Derive the profile from the model type. `query_pre_attn_scalar` is
    /// only consulted for the fixed-divisor families (Gemma 1/2/3), where it
    /// defaults to 256.
    pub fn for_model_type(model_type: &str, query_pre_attn_scalar: Option<usize>) -> (r: Self)
        ensures
            r == spec_profile(model_type@, query_pre_attn_scalar),
    {
        let t = to_chars(model_type);
        if chars_eq(&t, &to_chars("gemma4")) || chars_eq(&t, &to_chars("gemma4_text")) {
            Self {
                rmsnorm_plus_one: false,
                scaled_embeddings: true,
                v_norm_per_head: true,
                attn_scale: AttnScale::Unity,
            }
        } else if chars_eq(&t, &to_chars("gemma")) || chars_eq(&t, &to_chars("gemma2"))
            || chars_eq(&t, &to_chars("gemma3")) || chars_eq(&t, &to_chars("gemma3_text")) {
            let divisor = match query_pre_attn_scalar {
                Some(q) => q,
                None => 256,
            };
            Self {
                rmsnorm_plus_one: true,
                scaled_embeddings: true,
                v_norm_per_head: false,
                attn_scale: AttnScale::FixedDivisor(divisor),
            }
        } else {
            Self {
                rmsnorm_plus_one: false,
                scaled_embeddings: false,
                v_norm_per_head: false,
                attn_scale: AttnScale::PerHeadDim,
            }
        }
    }
}

/// Every Gemma family scales embeddings, and only Gemma 4 normalises V and
/// leaves attention unscaled.
pub proof fn lemma_gemma_profiles(t: Seq<char>, q: Option<usize>)
    ensures
        (is_gemma4(t) || is_gemma_1_to_3(t)) ==> spec_profile(t, q).scaled_embeddings,
        spec_profile(t, q).v_norm_per_head <==> is_gemma4(t),
        spec_profile(t, q).attn_scale == AttnScale::Unity <==> is_gemma4(t),
{
    reveal_strlit("gemma4");
    reveal_strlit("gemma4_text");
    reveal_strlit("gemma");
    reveal_strlit("gemma2");
    reveal_strlit("gemma3");
    reveal_strlit("gemma3_text");
}

} // verus!
