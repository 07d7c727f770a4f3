//! Fusion passes: graph rewrites that merge a node with its sole consumer
//! into one fused node (RMS norm + matmul, add + RMS norm, SiLU + mul).
//!
//! A pass scans the nodes in order. A node that starts the pattern, has a
//! first output, and whose first other-id reader of that output completes
//! the pattern, while nothing else reads the output, becomes the fused
//! node: its own inputs followed by the consumer's other inputs, and the
//! consumer's outputs. The consumer is marked absorbed (and skipped when
//! the scan reaches it). When anything was fused, the nodes whose id is an
//! absorbed index are dropped and the rest renumbered by position.

use vstd::prelude::*;
use crate::graph::{AttrValue, BackendHint, Graph, Node};
use crate::ops::{F32Bits, Op};
use crate::templates::names;
use crate::text::{owned, str_eq};
use crate::liveness::{elim_result, kept_indices, liveness};
use crate::toposort::sort_result;

verus! {

/// Which pattern a pass fuses.
#[derive(Clone, Copy, Debug, PartialEq, Eq, Structural)]
pub enum FusionKind {
    /// RmsNorm whose output feeds a Matmul.
    NormMatmul,
    /// Add whose output feeds an RmsNorm.
    SkipNorm,
    /// SiLU whose output feeds a Mul.
    SwiGlu,
}

/// A node as the passes see it: names as character sequences.
pub struct NodeView {
    pub id: usize,
    pub op: Op,
    pub inputs: Seq<Seq<char>>,
    pub outputs: Seq<Seq<char>>,
    pub attrs: Map<Seq<char>, AttrValue>,
    pub hint: Option<BackendHint>,
}

/// The view of a node.
pub open spec fn view_of(n: Node) -> NodeView {
    NodeView {
        id: n.id,
        op: n.op,
        inputs: names(n.inputs@),
        outputs: names(n.outputs@),
        attrs: n.attrs@,
        hint: n.backend_hint,
    }
}

/// The views of a list of nodes.
pub open spec fn views(ns: Seq<Node>) -> Seq<NodeView> {
    ns.map_values(|n: Node| view_of(n))
}

/// The op that starts the pattern.
pub open spec fn head_ok(k: FusionKind, op: Op) -> bool {
    match k {
        FusionKind::NormMatmul => op is RmsNorm,
        FusionKind::SkipNorm => op is Add,
        FusionKind::SwiGlu => op is Silu,
    }
}

/// A node the scan takes as the consumer of `name` for the head `h`:
/// another id that reads `name` (for SwiGLU, a Mul).
pub open spec fn candidate(k: FusionKind, v: NodeView, h: NodeView, name: Seq<char>) -> bool {
    &&& v.id != h.id
    &&& (k == FusionKind::SwiGlu ==> v.op is Mul)
    &&& v.inputs.contains(name)
}

/// The first candidate at or after `from`.
pub open spec fn first_candidate(vs: Seq<NodeView>, k: FusionKind, h: NodeView, name: Seq<char>, from: int) -> Option<int>
    decreases vs.len() - from,
{
    if from < 0 || from >= vs.len() {
        None
    } else if candidate(k, vs[from], h, name) {
        Some(from)
    } else {
        first_candidate(vs, k, h, name, from + 1)
    }
}

/// Number of nodes reading `name`.
pub open spec fn readers(vs: Seq<NodeView>, name: Seq<char>) -> nat
    decreases vs.len(),
{
    if vs.len() == 0 {
        0
    } else {
        readers(vs.drop_last(), name) + if vs.last().inputs.contains(name) {
            1nat
        } else {
            0nat
        }
    }
}

/// The op the consumer must have.
pub open spec fn consumer_ok(k: FusionKind, op: Op) -> bool {
    match k {
        FusionKind::NormMatmul => op is Matmul,
        FusionKind::SkipNorm => op is RmsNorm,
        FusionKind::SwiGlu => true,
    }
}

/// The fused op: the norm's epsilon for norm + matmul, the norm's for
/// add + norm.
pub open spec fn fused_op(k: FusionKind, head: Op, cons: Op) -> Op {
    match k {
        FusionKind::NormMatmul => Op::FusedNormMatmul { eps: head->RmsNorm_eps },
        FusionKind::SkipNorm => Op::FusedSkipNorm { eps: cons->RmsNorm_eps },
        FusionKind::SwiGlu => Op::FusedSwiGlu,
    }
}

/// The consumer node `i` fuses with, if it starts the pattern.
pub open spec fn fuse_target(vs: Seq<NodeView>, i: int, k: FusionKind) -> Option<int> {
    let h = vs[i];
    if head_ok(k, h.op) && h.outputs.len() > 0 {
        match first_candidate(vs, k, h, h.outputs[0], 0) {
            Some(c) => if consumer_ok(k, vs[c].op) && readers(vs, h.outputs[0]) == 1 {
                Some(c)
            } else {
                None
            },
            None => None,
        }
    } else {
        None
    }
}

/// The names of `s` other than `x`, in order.
pub open spec fn without(s: Seq<Seq<char>>, x: Seq<char>) -> Seq<Seq<char>>
    decreases s.len(),
{
    if s.len() == 0 {
        s
    } else if s.last() == x {
        without(s.drop_last(), x)
    } else {
        without(s.drop_last(), x).push(s.last())
    }
}

/// Node `i` fused with node `c`.
pub open spec fn fused_node(vs: Seq<NodeView>, i: int, c: int, k: FusionKind) -> NodeView {
    let h = vs[i];
    NodeView {
        id: h.id,
        op: fused_op(k, h.op, vs[c].op),
        inputs: h.inputs + without(vs[c].inputs, h.outputs[0]),
        outputs: vs[c].outputs,
        attrs: h.attrs,
        hint: h.hint,
    }
}

/// The scan from node `i` on, given the nodes, the absorbed indices and
/// the fusions so far: the nodes, absorbed indices and fusions at the end.
pub open spec fn scan(vs: Seq<NodeView>, skip: Set<int>, fused: nat, i: int, k: FusionKind) -> (Seq<NodeView>, Set<int>, nat)
    decreases vs.len() - i,
{
    if i < 0 || i >= vs.len() {
        (vs, skip, fused)
    } else if skip.contains(i) {
        scan(vs, skip, fused, i + 1, k)
    } else {
        match fuse_target(vs, i, k) {
            Some(c) => scan(vs.update(i, fused_node(vs, i, c, k)), skip.insert(c), fused + 1, i + 1, k),
            None => scan(vs, skip, fused, i + 1, k),
        }
    }
}

/// The nodes whose id is not absorbed, in order.
pub open spec fn kept(vs: Seq<NodeView>, skip: Set<int>) -> Seq<NodeView>
    decreases vs.len(),
{
    if vs.len() == 0 {
        vs
    } else if skip.contains(vs.last().id as int) {
        kept(vs.drop_last(), skip)
    } else {
        kept(vs.drop_last(), skip).push(vs.last())
    }
}

/// `v` with id `id`.
pub open spec fn with_id(v: NodeView, id: int) -> NodeView {
    NodeView { id: id as usize, op: v.op, inputs: v.inputs, outputs: v.outputs, attrs: v.attrs, hint: v.hint }
}

/// The nodes numbered by position.
pub open spec fn renumbered(vs: Seq<NodeView>) -> Seq<NodeView> {
    Seq::new(vs.len(), |j: int| with_id(vs[j], j))
}

/// The result of a pass over `vs`: the nodes and the number of fusions.
pub open spec fn fusion_result(vs: Seq<NodeView>, k: FusionKind) -> (Seq<NodeView>, nat) {
    let (out, skip, fused) = scan(vs, Set::empty(), 0, 0, k);
    if fused > 0 {
        (renumbered(kept(out, skip)), fused)
    } else {
        (out, fused)
    }
}


// ---- Scanning ----

/// Whether `n` reads `name`.
fn reads(n: &Node, name: &str) -> (r: bool)
    ensures
        r == view_of(*n).inputs.contains(name@),
{
    let ghost ins = names(n.inputs@);
    let mut k: usize = 0;
    while k < n.inputs.len()
        invariant
            ins == names(n.inputs@),
            k <= n.inputs@.len(),
            forall|j: int| 0 <= j < k ==> (#[trigger] ins[j]) != name@,
        decreases n.inputs@.len() - k,
    {
        if str_eq(n.inputs[k].as_str(), name) {
            proof {
                assert(ins[k as int] == name@);
            }
            return true;
        }
        k = k + 1;
    }
    proof {
        if ins.contains(name@) {
            let j = choose|j: int| 0 <= j < ins.len() && ins[j] == name@;
            assert(ins[j] != name@);
        }
    }
    false
}

/// The first candidate consumer of `name` for the head `i`.
fn first_candidate_of(nodes: &Vec<Node>, k: FusionKind, i: usize, name: &str) -> (r: Option<usize>)
    requires
        i < nodes@.len(),
    ensures
        match r {
            Some(c) => c < nodes@.len() && first_candidate(views(nodes@), k, views(nodes@)[i as int], name@, 0) == Some(
                c as int,
            ),
            None => first_candidate(views(nodes@), k, views(nodes@)[i as int], name@, 0) is None,
        },
{
    let ghost vs = views(nodes@);
    let mut j: usize = 0;
    while j < nodes.len()
        invariant
            vs == views(nodes@),
            i < nodes@.len(),
            j <= nodes@.len(),
            first_candidate(vs, k, vs[i as int], name@, 0) == first_candidate(vs, k, vs[i as int], name@, j as int),
        decreases nodes@.len() - j,
    {
        let is_mul = match nodes[j].op {
            Op::Mul => true,
            _ => false,
        };
        if nodes[j].id != nodes[i].id && (k != FusionKind::SwiGlu || is_mul) && reads(&nodes[j], name) {
            return Some(j);
        }
        j = j + 1;
    }
    None
}

/// How many nodes read `name`.
fn readers_of(nodes: &Vec<Node>, name: &str) -> (r: usize)
    ensures
        r == readers(views(nodes@), name@),
{
    let ghost vs = views(nodes@);
    let mut count: usize = 0;
    let mut j: usize = 0;
    while j < nodes.len()
        invariant
            vs == views(nodes@),
            j <= nodes@.len(),
            count <= j,
            count == readers(vs.take(j as int), name@),
        decreases nodes@.len() - j,
    {
        proof {
            assert(vs.take(j + 1).drop_last() =~= vs.take(j as int));
        }
        if reads(&nodes[j], name) {
            count = count + 1;
        }
        j = j + 1;
    }
    proof {
        assert(vs.take(j as int) =~= vs);
    }
    count
}

/// The consumer node `i` fuses with, if it starts the pattern.
fn fuse_target_of(nodes: &Vec<Node>, i: usize, k: FusionKind) -> (r: Option<usize>)
    requires
        i < nodes@.len(),
    ensures
        match r {
            Some(c) => c < nodes@.len() && fuse_target(views(nodes@), i as int, k) == Some(c as int),
            None => fuse_target(views(nodes@), i as int, k) is None,
        },
{
    let head = match (k, &nodes[i].op) {
        (FusionKind::NormMatmul, Op::RmsNorm { .. }) => true,
        (FusionKind::SkipNorm, Op::Add) => true,
        (FusionKind::SwiGlu, Op::Silu) => true,
        _ => false,
    };
    if !head || nodes[i].outputs.len() == 0 {
        return None;
    }
    let out = nodes[i].outputs[0].as_str();
    match first_candidate_of(nodes, k, i, out) {
        Some(c) => {
            let ok = match (k, &nodes[c].op) {
                (FusionKind::NormMatmul, Op::Matmul) => true,
                (FusionKind::SkipNorm, Op::RmsNorm { .. }) => true,
                (FusionKind::SwiGlu, _) => true,
                _ => false,
            };
            if ok && readers_of(nodes, out) == 1 {
                Some(c)
            } else {
                None
            }
        },
        None => None,
    }
}

/// Copies of the names.
fn clone_names(v: &Vec<String>) -> (r: Vec<String>)
    ensures
        names(r@) == names(v@),
{
    let mut r: Vec<String> = Vec::new();
    let mut j: usize = 0;
    while j < v.len()
        invariant
            j <= v@.len(),
            names(r@) == names(v@.take(j as int)),
        decreases v@.len() - j,
    {
        let ghost r0 = r@;
        r.push(owned(v[j].as_str()));
        proof {
            assert(r@ == r0.push(r@.last()));
            assert(names(r@) =~= names(r0).push(v@[j as int]@));
            assert(v@.take(j + 1) =~= v@.take(j as int).push(v@[j as int]));
            assert(names(v@.take(j + 1)) =~= names(v@.take(j as int)).push(v@[j as int]@));
        }
        j = j + 1;
    }
    proof {
        assert(v@.take(j as int) =~= v@);
    }
    r
}

/// `head` followed by the names of `v` other than `x`.
fn append_without(head: Vec<String>, v: &Vec<String>, x: &str) -> (r: Vec<String>)
    ensures
        names(r@) == names(head@) + without(names(v@), x@),
{
    let mut r = head;
    let ghost h = names(r@);
    let mut j: usize = 0;
    while j < v.len()
        invariant
            j <= v@.len(),
            names(r@) == h + without(names(v@.take(j as int)), x@),
        decreases v@.len() - j,
    {
        let ghost before = r@;
        proof {
            assert(names(v@.take(j + 1)).drop_last() =~= names(v@.take(j as int)));
            assert(names(v@.take(j + 1)).last() == v@[j as int]@);
        }
        if !str_eq(v[j].as_str(), x) {
            r.push(owned(v[j].as_str()));
            proof {
                assert(names(r@) =~= names(before).push(v@[j as int]@));
            }
        }
        j = j + 1;
    }
    proof {
        assert(v@.take(j as int) =~= v@);
    }
    r
}


// ---- The passes ----

/// The absorbed indices.
pub open spec fn absorbed_set(a: Seq<bool>) -> Set<int> {
    Set::new(|j: int| 0 <= j < a.len() && a[j])
}

proof fn lemma_kept_push(vs: Seq<NodeView>, skip: Set<int>, j: int)
    requires
        0 <= j < vs.len(),
    ensures
        kept(vs.take(j + 1), skip) == if skip.contains(vs[j].id as int) {
            kept(vs.take(j), skip)
        } else {
            kept(vs.take(j), skip).push(vs[j])
        },
{
    assert(vs.take(j + 1).drop_last() =~= vs.take(j));
    assert(vs.take(j + 1).last() == vs[j]);
}

/// Run one fusion pass over the graph (see the module documentation);
/// returns the number of fusions.
pub fn fuse_pass(graph: &mut Graph, k: FusionKind) -> (r: usize)
    ensures
        views(final(graph).nodes@) == fusion_result(views(old(graph).nodes@), k).0,
        r == fusion_result(views(old(graph).nodes@), k).1,
        final(graph).tensors == old(graph).tensors,
        final(graph).weights == old(graph).weights,
{
    let ghost vs0 = views(graph.nodes@);
    let n = graph.nodes.len();
    let mut absorbed: Vec<bool> = Vec::new();
    let mut j: usize = 0;
    while j < n
        invariant
            j <= n,
            absorbed@.len() == j,
            forall|x: int| 0 <= x < j ==> !(#[trigger] absorbed@[x]),
        decreases n - j,
    {
        absorbed.push(false);
        j = j + 1;
    }
    proof {
        assert(absorbed_set(absorbed@) =~= Set::<int>::empty());
    }
    let mut fused: usize = 0;
    let mut i: usize = 0;
    while i < n
        invariant
            graph.nodes@.len() == n,
            absorbed@.len() == n,
            i <= n,
            fused <= i,
            graph.tensors == old(graph).tensors,
            graph.weights == old(graph).weights,
            scan(vs0, Set::empty(), 0, 0, k) == scan(views(graph.nodes@), absorbed_set(absorbed@), fused as nat, i as int, k),
        decreases n - i,
    {
        let ghost vs = views(graph.nodes@);
        let ghost sk = absorbed_set(absorbed@);
        if absorbed[i] {
            proof {
                assert(sk.contains(i as int));
            }
        } else {
            proof {
                assert(!sk.contains(i as int));
            }
            match fuse_target_of(&graph.nodes, i, k) {
                Some(c) => {
                    let out = owned(graph.nodes[i].outputs[0].as_str());
                    let head_inputs = clone_names(&graph.nodes[i].inputs);
                    let merged = append_without(head_inputs, &graph.nodes[c].inputs, out.as_str());
                    let outs = clone_names(&graph.nodes[c].outputs);
                    let op = match k {
                        FusionKind::NormMatmul => match graph.nodes[i].op {
                            Op::RmsNorm { eps } => Op::FusedNormMatmul { eps },
                            _ => {
                                proof {
                                    assert(false);
                                }
                                Op::FusedNormMatmul { eps: F32Bits(0) }
                            },
                        },
                        FusionKind::SkipNorm => match graph.nodes[c].op {
                            Op::RmsNorm { eps } => Op::FusedSkipNorm { eps },
                            _ => {
                                proof {
                                    assert(false);
                                }
                                Op::FusedSkipNorm { eps: F32Bits(0) }
                            },
                        },
                        FusionKind::SwiGlu => Op::FusedSwiGlu,
                    };
                    proof {
                        assert(op == fused_op(k, vs[i as int].op, vs[c as int].op));
                    }
                    let ghost before = graph.nodes@;
                    let mut node = graph.nodes.remove(i);
                    node.op = op;
                    node.inputs = merged;
                    node.outputs = outs;
                    graph.nodes.insert(i, node);
                    absorbed.set(c, true);
                    fused = fused + 1;
                    proof {
                        assert(graph.nodes@ =~= before.update(i as int, graph.nodes@[i as int]));
                        assert(view_of(graph.nodes@[i as int]) == fused_node(vs, i as int, c as int, k));
                        assert(views(graph.nodes@) =~= vs.update(i as int, fused_node(vs, i as int, c as int, k)));
                        assert(absorbed_set(absorbed@) =~= sk.insert(c as int));
                    }
                },
                None => {},
            }
        }
        i = i + 1;
    }
    let ghost fin = scan(vs0, Set::empty(), 0, 0, k);
    proof {
        assert(fin == (views(graph.nodes@), absorbed_set(absorbed@), fused as nat));
    }
    if fused > 0 {
        let ghost out = views(graph.nodes@);
        let ghost sk = absorbed_set(absorbed@);
        let mut old_nodes: Vec<Node> = Vec::new();
        std::mem::swap(&mut old_nodes, &mut graph.nodes);
        let ghost src = old_nodes@;
        let mut idx: usize = 0;
        proof {
            assert(out.take(0) =~= Seq::<NodeView>::empty());
            assert(views(graph.nodes@) =~= renumbered(kept(out.take(0), sk)));
        }
        for nd in it: old_nodes.into_iter()
            invariant
                it.seq() == src,
                out == views(src),
                src.len() == n,
                absorbed@.len() == n,
                sk == absorbed_set(absorbed@),
                idx == it.index(),
                views(graph.nodes@) == renumbered(kept(out.take(idx as int), sk)),
                graph.tensors == old(graph).tensors,
                graph.weights == old(graph).weights,
        {
            proof {
                lemma_kept_push(out, sk, idx as int);
            }
            let drop = nd.id < n && absorbed[nd.id];
            proof {
                assert(drop == sk.contains(out[idx as int].id as int));
            }
            if !drop {
                let ghost before = graph.nodes@;
                let ghost kk = kept(out.take(idx as int), sk);
                let ghost v0 = view_of(nd);
                let pos = graph.nodes.len();
                let mut nd = nd;
                nd.id = pos;
                proof {
                    assert(v0 == out[idx as int]);
                    assert(view_of(nd) == with_id(v0, pos as int));
                    assert(views(before).len() == before.len());
                    assert(renumbered(kk).len() == kk.len());
                    assert(pos == kk.len());
                    assert(renumbered(kk.push(v0)) =~= renumbered(kk).push(with_id(v0, kk.len() as int)));
                }
                graph.nodes.push(nd);
                proof {
                    assert(views(graph.nodes@) =~= views(before).push(with_id(v0, pos as int)));
                    assert(views(graph.nodes@) =~= renumbered(kept(out.take(idx + 1), sk)));
                }
            }
            idx = idx + 1;
        }
        proof {
            assert(out.take(n as int) =~= out);
        }
    }
    fused
}

/// Fuse RmsNorm + Matmul pairs into FusedNormMatmul nodes; returns the
/// number of fusions.
pub fn fuse_norm_matmul(graph: &mut Graph) -> (r: usize)
    ensures
        views(final(graph).nodes@) == fusion_result(views(old(graph).nodes@), FusionKind::NormMatmul).0,
        r == fusion_result(views(old(graph).nodes@), FusionKind::NormMatmul).1,
        final(graph).tensors == old(graph).tensors,
        final(graph).weights == old(graph).weights,
{
    fuse_pass(graph, FusionKind::NormMatmul)
}

/// Fuse Add + RmsNorm pairs into FusedSkipNorm nodes; returns the number
/// of fusions.
pub fn fuse_skip_norm(graph: &mut Graph) -> (r: usize)
    ensures
        views(final(graph).nodes@) == fusion_result(views(old(graph).nodes@), FusionKind::SkipNorm).0,
        r == fusion_result(views(old(graph).nodes@), FusionKind::SkipNorm).1,
        final(graph).tensors == old(graph).tensors,
        final(graph).weights == old(graph).weights,
{
    fuse_pass(graph, FusionKind::SkipNorm)
}

/// Fuse each SiLU whose output only a Mul reads into a FusedSwiGlu node;
/// returns the number of fusions.
pub fn fuse_swiglu(graph: &mut Graph) -> (r: usize)
    ensures
        views(final(graph).nodes@) == fusion_result(views(old(graph).nodes@), FusionKind::SwiGlu).0,
        r == fusion_result(views(old(graph).nodes@), FusionKind::SwiGlu).1,
        final(graph).tensors == old(graph).tensors,
        final(graph).weights == old(graph).weights,
{
    fuse_pass(graph, FusionKind::SwiGlu)
}

proof fn lemma_scan_len(vs: Seq<NodeView>, skip: Set<int>, fused: nat, i: int, k: FusionKind)
    requires
        0 <= i <= vs.len(),
    ensures
        scan(vs, skip, fused, i, k).0.len() == vs.len(),
        scan(vs, skip, fused, i, k).2 <= fused + (vs.len() - i),
    decreases vs.len() - i,
{
    if i < vs.len() {
        if skip.contains(i) {
            lemma_scan_len(vs, skip, fused, i + 1, k);
        } else {
            match fuse_target(vs, i, k) {
                Some(c) => lemma_scan_len(vs.update(i, fused_node(vs, i, c, k)), skip.insert(c), fused + 1, i + 1, k),
                None => lemma_scan_len(vs, skip, fused, i + 1, k),
            }
        }
    }
}

proof fn lemma_kept_len(vs: Seq<NodeView>, skip: Set<int>)
    ensures
        kept(vs, skip).len() <= vs.len(),
    decreases vs.len(),
{
    if vs.len() > 0 {
        lemma_kept_len(vs.drop_last(), skip);
    }
}

/// A fusion pass never adds nodes, and fuses at most once per node.
pub proof fn lemma_fusion_shrinks(vs: Seq<NodeView>, k: FusionKind)
    ensures
        fusion_result(vs, k).0.len() <= vs.len(),
        fusion_result(vs, k).1 <= vs.len(),
{
    lemma_scan_len(vs, Set::empty(), 0, 0, k);
    let (out, skip, fused) = scan(vs, Set::empty(), 0, 0, k);
    lemma_kept_len(out, skip);
}

/// Number of nodes that dead-node elimination drops from `nodes`.
pub open spec fn dead_count(nodes: Seq<Node>) -> int {
    nodes.len() - kept_indices(liveness(nodes), nodes.len() as int).len()
}

/// The three fusion passes in order (norm + matmul, skip + norm, SwiGLU)
/// over `vs`: the nodes after the last pass and the fusions of all three.
pub open spec fn fusion_chain(vs: Seq<NodeView>) -> (Seq<NodeView>, nat) {
    let p1 = fusion_result(vs, FusionKind::NormMatmul);
    let p2 = fusion_result(p1.0, FusionKind::SkipNorm);
    let p3 = fusion_result(p2.0, FusionKind::SwiGlu);
    (p3.0, p1.1 + p2.1 + p3.1)
}

/// The nodes that the fusion passes of `optimize` start from: `nodes`
/// sorted, then cleared of dead nodes.
pub open spec fn pruned(nodes: Seq<Node>) -> Seq<Node> {
    elim_result(sort_result(nodes))
}

/// What `optimize` counts on `nodes`: the dead nodes of the sorted nodes
/// plus the fusions over what is left.
pub open spec fn optimize_count(nodes: Seq<Node>) -> int {
    dead_count(sort_result(nodes)) + fusion_chain(views(pruned(nodes))).1
}

/// Run the optimization passes in order: topological sort, dead-node
/// elimination, the three fusion passes (norm + matmul, skip + norm,
/// SwiGLU), and a topological sort again. Returns the number of dead
/// nodes removed plus the number of fusions; the graph never grows.
pub fn optimize(graph: &mut Graph) -> (total: usize)
    requires
        old(graph).nodes@.len() <= usize::MAX / 4,
    ensures
        final(graph).tensors == old(graph).tensors,
        final(graph).weights == old(graph).weights,
        final(graph).nodes@.len() <= old(graph).nodes@.len(),
        total == optimize_count(old(graph).nodes@),
        exists|fused: Seq<Node>|
            #[trigger] views(fused) == fusion_chain(views(pruned(old(graph).nodes@))).0
                && final(graph).nodes@ == sort_result(fused),
{
    let ghost n0 = graph.nodes@.len();
    let ghost s0 = graph.nodes@;
    graph.topological_sort();
    let dead = graph.eliminate_dead_nodes();
    let ghost n1 = graph.nodes@.len();
    proof {
        lemma_fusion_shrinks(views(graph.nodes@), FusionKind::NormMatmul);
    }
    let f1 = fuse_norm_matmul(graph);
    let ghost n2 = graph.nodes@.len();
    proof {
        assert(views(graph.nodes@).len() == graph.nodes@.len());
        lemma_fusion_shrinks(views(graph.nodes@), FusionKind::SkipNorm);
    }
    let f2 = fuse_skip_norm(graph);
    proof {
        assert(views(graph.nodes@).len() == graph.nodes@.len());
        lemma_fusion_shrinks(views(graph.nodes@), FusionKind::SwiGlu);
    }
    let f3 = fuse_swiglu(graph);
    proof {
        assert(views(graph.nodes@).len() == graph.nodes@.len());
    }
    let ghost fused = graph.nodes@;
    graph.topological_sort();
    proof {
        assert(views(fused) == fusion_chain(views(pruned(s0))).0);
    }
    dead + f1 + f2 + f3
}

} // verus!
