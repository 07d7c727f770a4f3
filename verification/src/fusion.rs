//! Fusion analysis: which nodes start a pattern that a fused kernel can
//! run (norm feeding a matmul, add feeding a norm, gated activations).

use vstd::prelude::*;
use crate::graph::{Graph, Node};
use crate::ops::Op;
use crate::text::str_eq;
pub use crate::fusion_pass::{fuse_norm_matmul, fuse_skip_norm, fuse_swiglu, optimize};

verus! {

/// Fusion annotation on a node.
#[derive(Clone, Copy, Debug, PartialEq, Eq, Structural)]
pub enum FusionHint {
    /// RmsNorm feeds exactly one Matmul.
    NormMatmul,
    /// Add feeds exactly one RmsNorm.
    SkipNorm,
    /// Gate + up + SiLU + mul (SwiGLU).
    SwiGLU,
}

/// Node `n` reads `name`.
pub open spec fn consumes(n: Node, name: Seq<char>) -> bool {
    exists|k: int| 0 <= k < n.inputs@.len() && (#[trigger] n.inputs@[k])@ == name
}

/// Number of nodes reading `name`.
pub open spec fn consumer_count(nodes: Seq<Node>, name: Seq<char>) -> nat
    decreases nodes.len(),
{
    if nodes.len() == 0 {
        0
    } else {
        consumer_count(nodes.drop_last(), name) + if consumes(nodes.last(), name) {
            1nat
        } else {
            0nat
        }
    }
}

/// The last node reading `name`.
pub open spec fn last_consumer(nodes: Seq<Node>, name: Seq<char>) -> Option<int>
    decreases nodes.len(),
{
    if nodes.len() == 0 {
        None
    } else if consumes(nodes.last(), name) {
        Some(nodes.len() - 1)
    } else {
        last_consumer(nodes.drop_last(), name)
    }
}

/// `name` is read by exactly one node, and that node's op satisfies `is`.
pub open spec fn sole_consumer_op(nodes: Seq<Node>, name: Seq<char>, is_matmul: bool) -> bool {
    consumer_count(nodes, name) == 1 && match last_consumer(nodes, name) {
        Some(j) => if is_matmul {
            nodes[j].op is Matmul
        } else {
            nodes[j].op is RmsNorm
        },
        None => false,
    }
}

/// The hint for node `i`: a norm whose first output is read by exactly one
/// node, a matmul; an add whose first output is read by exactly one node, a
/// norm; any gated SiLU.
pub open spec fn hint_for(nodes: Seq<Node>, i: int) -> Option<FusionHint> {
    let n = nodes[i];
    if n.op is RmsNorm {
        if n.outputs@.len() > 0 && sole_consumer_op(nodes, n.outputs@[0]@, true) {
            Some(FusionHint::NormMatmul)
        } else {
            None
        }
    } else if n.op is Add {
        if n.outputs@.len() > 0 && sole_consumer_op(nodes, n.outputs@[0]@, false) {
            Some(FusionHint::SkipNorm)
        } else {
            None
        }
    } else if n.op is SwiGlu || n.op is FusedSwiGlu {
        Some(FusionHint::SwiGLU)
    } else {
        None
    }
}

/// The hints of the first `k` nodes, in node order.
pub open spec fn spec_fusions(nodes: Seq<Node>, k: int) -> Seq<(usize, FusionHint)>
    decreases k,
{
    if k <= 0 {
        seq![]
    } else {
        match hint_for(nodes, k - 1) {
            Some(h) => spec_fusions(nodes, k - 1).push(((k - 1) as usize, h)),
            None => spec_fusions(nodes, k - 1),
        }
    }
}

/// Whether node `n` reads `name`.
fn reads(n: &Node, name: &str) -> (r: bool)
    ensures
        r == consumes(*n, name@),
{
    let mut k: usize = 0;
    while k < n.inputs.len()
        invariant
            k <= n.inputs@.len(),
            forall|j: int| 0 <= j < k ==> (#[trigger] n.inputs@[j])@ != name@,
        decreases n.inputs@.len() - k,
    {
        if str_eq(n.inputs[k].as_str(), name) {
            return true;
        }
        k = k + 1;
    }
    false
}

/// How many nodes read `name`, and the last of them.
fn consumers_of(nodes: &Vec<Node>, name: &str) -> (r: (usize, Option<usize>))
    ensures
        r.0 == consumer_count(nodes@, name@),
        r.1 matches Some(j) ==> j < nodes@.len(),
        match r.1 {
            Some(j) => last_consumer(nodes@, name@) == Some(j as int),
            None => last_consumer(nodes@, name@) is None,
        },
{
    let mut count: usize = 0;
    let mut last: Option<usize> = None;
    let mut i: usize = 0;
    while i < nodes.len()
        invariant
            i <= nodes@.len(),
            count <= i,
            count == consumer_count(nodes@.take(i as int), name@),
            last matches Some(j) ==> j < i,
            match last {
                Some(j) => last_consumer(nodes@.take(i as int), name@) == Some(j as int),
                None => last_consumer(nodes@.take(i as int), name@) is None,
            },
        decreases nodes@.len() - i,
    {
        proof {
            assert(nodes@.take(i + 1).drop_last() =~= nodes@.take(i as int));
        }
        if reads(&nodes[i], name) {
            count = count + 1;
            last = Some(i);
        }
        i = i + 1;
    }
    proof {
        assert(nodes@.take(i as int) =~= nodes@);
    }
    (count, last)
}

/// Run fusion analysis on a graph: the index and hint of every node
/// that starts a fusible pattern, in node order.
pub fn detect_fusions(graph: &Graph) -> (r: Vec<(usize, FusionHint)>)
    ensures
        r@ == spec_fusions(graph.nodes@, graph.nodes@.len() as int),
{
    let nodes = &graph.nodes;
    let mut hints: Vec<(usize, FusionHint)> = Vec::new();
    let mut i: usize = 0;
    while i < nodes.len()
        invariant
            i <= nodes@.len(),
            hints@ == spec_fusions(nodes@, i as int),
        decreases nodes@.len() - i,
    {
        let node = &nodes[i];
        let hint: Option<FusionHint> = match &node.op {
            Op::RmsNorm { .. } => {
                if node.outputs.len() > 0 {
                    let (count, last) = consumers_of(nodes, node.outputs[0].as_str());
                    match last {
                        Some(j) => if count == 1 && matches!(nodes[j].op, Op::Matmul) {
                            Some(FusionHint::NormMatmul)
                        } else {
                            None
                        },
                        None => None,
                    }
                } else {
                    None
                }
            },
            Op::Add => {
                if node.outputs.len() > 0 {
                    let (count, last) = consumers_of(nodes, node.outputs[0].as_str());
                    match last {
                        Some(j) => if count == 1 && matches!(nodes[j].op, Op::RmsNorm { .. }) {
                            Some(FusionHint::SkipNorm)
                        } else {
                            None
                        },
                        None => None,
                    }
                } else {
                    None
                }
            },
            Op::SwiGlu => Some(FusionHint::SwiGLU),
            Op::FusedSwiGlu => Some(FusionHint::SwiGLU),
            _ => None,
        };
        proof {
            assert(hint == hint_for(nodes@, i as int));
        }
        match hint {
            Some(h) => {
                hints.push((i, h));
            },
            None => {},
        }
        i = i + 1;
    }
    hints
}

} // verus!
