//! How the next token is picked from the logits.

use vstd::prelude::*;

verus! {

/// Sampling method.
#[derive(Clone, Copy, Debug, PartialEq, Eq, Structural)]
pub enum SampleKind {
    /// The highest logit.
    Greedy,
    /// From the smallest set of top tokens whose probability reaches `top_p`.
    TopP,
    /// From the `top_k` highest logits.
    TopK,
}

} // verus!
