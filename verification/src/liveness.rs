//! Dead-node elimination: nodes whose outputs nobody reads are dropped.

use vstd::prelude::*;
use crate::graph::{Graph, Node};
use crate::text::str_eq;
use crate::toposort::{moved_node, node_produces, produces, renumbered_node};

verus! {

/// Some node marked alive in `alive` lists `name` among its inputs.
pub open spec fn consumed_by_alive(nodes: Seq<Node>, alive: Seq<bool>, name: Seq<char>) -> bool {
    exists|j: int, k: int|
        0 <= j < nodes.len() && alive[j] && 0 <= k < nodes[j].inputs@.len() && (#[trigger] nodes[j].inputs@[k])@
            == name
}

/// `name` is an output of the graph: the graph's last node produces it
/// (a graph ends with the node that yields its result).
pub open spec fn graph_output(nodes: Seq<Node>, name: Seq<char>) -> bool {
    nodes.len() > 0 && produces(nodes.last(), name)
}

/// Node `i` can go under `alive`: it has outputs, holds no state, and none
/// of its outputs is read by an alive node or is an output of the graph.
pub open spec fn removable(nodes: Seq<Node>, alive: Seq<bool>, i: int) -> bool {
    &&& nodes[i].outputs@.len() > 0
    &&& !nodes[i].op.spec_is_stateful()
    &&& forall|k: int|
        0 <= k < nodes[i].outputs@.len() ==> !consumed_by_alive(nodes, alive, (#[trigger] nodes[i].outputs@[k])@)
            && !graph_output(nodes, nodes[i].outputs@[k]@)
}

/// Which nodes survive once nodes `i..` have been decided, last to first:
/// a node is dropped when it is removable given the decisions after it.
pub open spec fn liveness_from(nodes: Seq<Node>, i: int) -> Seq<bool>
    decreases nodes.len() - i,
{
    if i >= nodes.len() {
        Seq::new(nodes.len(), |j: int| true)
    } else {
        let a = liveness_from(nodes, i + 1);
        if removable(nodes, a, i) {
            a.update(i, false)
        } else {
            a
        }
    }
}

/// Which nodes survive dead-node elimination.
pub open spec fn liveness(nodes: Seq<Node>) -> Seq<bool> {
    liveness_from(nodes, 0)
}

/// Indices below `upto` marked `true`, in increasing order.
pub open spec fn kept_indices(mask: Seq<bool>, upto: int) -> Seq<int>
    decreases upto,
{
    if upto <= 0 {
        seq![]
    } else if mask[upto - 1] {
        kept_indices(mask, upto - 1).push(upto - 1)
    } else {
        kept_indices(mask, upto - 1)
    }
}

proof fn lemma_liveness_len(nodes: Seq<Node>, i: int)
    requires
        0 <= i <= nodes.len(),
    ensures
        liveness_from(nodes, i).len() == nodes.len(),
        forall|j: int| 0 <= j < i ==> #[trigger] liveness_from(nodes, i)[j],
    decreases nodes.len() - i,
{
    if i < nodes.len() {
        lemma_liveness_len(nodes, i + 1);
    }
}

proof fn lemma_kept_bounds(mask: Seq<bool>, upto: int)
    requires
        0 <= upto <= mask.len(),
    ensures
        kept_indices(mask, upto).len() <= upto,
        forall|k: int|
            0 <= k < kept_indices(mask, upto).len() ==> 0 <= #[trigger] kept_indices(mask, upto)[k] < upto
                && mask[kept_indices(mask, upto)[k]],
    decreases upto,
{
    if upto > 0 {
        lemma_kept_bounds(mask, upto - 1);
    }
}

/// Dead-node elimination never drops a stateful node (a KV cache) or a
/// node without outputs (a side effect).
pub proof fn lemma_keeps_stateful_and_sinks(nodes: Seq<Node>, i: int)
    requires
        0 <= i < nodes.len(),
        nodes[i].op.spec_is_stateful() || nodes[i].outputs@.len() == 0,
    ensures
        liveness(nodes)[i],
{
    lemma_keeps_from(nodes, i, 0);
}

proof fn lemma_keeps_from(nodes: Seq<Node>, i: int, from: int)
    requires
        0 <= i < nodes.len(),
        0 <= from <= nodes.len(),
        nodes[i].op.spec_is_stateful() || nodes[i].outputs@.len() == 0,
    ensures
        liveness_from(nodes, from)[i],
    decreases nodes.len() - from,
{
    lemma_liveness_len(nodes, from);
    if from < nodes.len() {
        lemma_keeps_from(nodes, i, from + 1);
        lemma_liveness_len(nodes, from + 1);
    }
}

/// Dead-node elimination keeps the graph's last node: its outputs are the
/// graph's outputs.
pub proof fn lemma_keeps_graph_outputs(nodes: Seq<Node>)
    requires
        nodes.len() > 0,
    ensures
        liveness(nodes)[nodes.len() - 1],
{
    let i = nodes.len() - 1;
    lemma_liveness_len(nodes, i + 1);
    if nodes[i].outputs@.len() > 0 {
        assert(produces(nodes.last(), nodes[i].outputs@[0]@));
        assert(!removable(nodes, liveness_from(nodes, i + 1), i));
    }
    lemma_keeps_from_after(nodes, i, 0);
}

/// A node kept once the nodes from `from + 1` on are decided stays kept.
proof fn lemma_keeps_from_after(nodes: Seq<Node>, i: int, from: int)
    requires
        0 <= from <= i < nodes.len(),
        liveness_from(nodes, i)[i],
    ensures
        liveness_from(nodes, from)[i],
    decreases i - from,
{
    if from < i {
        lemma_keeps_from_after(nodes, i, from + 1);
        lemma_liveness_len(nodes, from + 1);
    }
}

/// Whether a node marked alive reads `name`.
fn consumed_exec(nodes: &Vec<Node>, alive: &Vec<bool>, name: &str) -> (r: bool)
    requires
        alive@.len() == nodes@.len(),
    ensures
        r == consumed_by_alive(nodes@, alive@, name@),
{
    let mut j: usize = 0;
    while j < nodes.len()
        invariant
            j <= nodes@.len(),
            alive@.len() == nodes@.len(),
            forall|j2: int, k: int|
                0 <= j2 < j && alive@[j2] && 0 <= k < nodes@[j2].inputs@.len() ==> (#[trigger] nodes@[j2].inputs@[k])@
                    != name@,
        decreases nodes@.len() - j,
    {
        if alive[j] {
            let ins = &nodes[j].inputs;
            let mut k: usize = 0;
            while k < ins.len()
                invariant
                    j < nodes@.len(),
                    alive@.len() == nodes@.len(),
                    alive@[j as int],
                    *ins == nodes@[j as int].inputs,
                    k <= ins@.len(),
                    forall|k2: int| 0 <= k2 < k ==> (#[trigger] ins@[k2])@ != name@,
                decreases ins@.len() - k,
            {
                if str_eq(ins[k].as_str(), name) {
                    proof {
                        assert(alive@[j as int]);
                        assert(nodes@[j as int].inputs@[k as int]@ == name@);
                        assert(consumed_by_alive(nodes@, alive@, name@));
                    }
                    return true;
                }
                k = k + 1;
            }
        }
        j = j + 1;
    }
    false
}

/// Whether node `i` can be dropped under `alive`.
fn removable_exec(nodes: &Vec<Node>, alive: &Vec<bool>, i: usize) -> (r: bool)
    requires
        alive@.len() == nodes@.len(),
        i < nodes@.len(),
    ensures
        r == removable(nodes@, alive@, i as int),
{
    let node = &nodes[i];
    if node.outputs.len() == 0 || node.op.is_stateful() {
        return false;
    }
    let mut k: usize = 0;
    while k < node.outputs.len()
        invariant
            i < nodes@.len(),
            *node == nodes@[i as int],
            alive@.len() == nodes@.len(),
            k <= node.outputs@.len(),
            forall|k2: int| 0 <= k2 < k ==> !consumed_by_alive(nodes@, alive@, (#[trigger] node.outputs@[k2])@)
                && !graph_output(nodes@, node.outputs@[k2]@),
        decreases node.outputs@.len() - k,
    {
        if consumed_exec(nodes, alive, node.outputs[k].as_str()) {
            return false;
        }
        if node_produces(&nodes[nodes.len() - 1], node.outputs[k].as_str()) {
            return false;
        }
        k = k + 1;
    }
    true
}

/// The nodes after dead-node elimination: the kept nodes in order,
/// renumbered by position, or the nodes unchanged when none is dropped.
pub open spec fn elim_result(nodes: Seq<Node>) -> Seq<Node> {
    let kept = kept_indices(liveness(nodes), nodes.len() as int);
    if kept.len() == nodes.len() {
        nodes
    } else {
        Seq::new(kept.len(), |k: int| renumbered_node(nodes[kept[k]], k))
    }
}

impl Graph {
    /// Remove nodes whose outputs no remaining node reads, deciding from the
    /// last node to the first so that removals cascade backwards. Nodes
    /// without outputs and stateful nodes always stay. When anything was
    /// removed, the survivors keep their order and are renumbered by
    /// position. Returns the number of removed nodes.
    pub fn eliminate_dead_nodes(&mut self) -> (removed: usize)
        ensures
            final(self).tensors == old(self).tensors,
            final(self).weights == old(self).weights,
            removed == old(self).nodes@.len() - kept_indices(
                liveness(old(self).nodes@),
                old(self).nodes@.len() as int,
            ).len(),
            removed == 0 ==> final(self).nodes@ == old(self).nodes@,
            removed > 0 ==> {
                let kept = kept_indices(liveness(old(self).nodes@), old(self).nodes@.len() as int);
                &&& final(self).nodes@.len() == kept.len()
                &&& forall|k: int|
                    0 <= k < kept.len() ==> moved_node(#[trigger] final(self).nodes@[k], old(self).nodes@[kept[k]], k)
            },
            final(self).nodes@ == elim_result(old(self).nodes@),
    {
        let n = self.nodes.len();
        let ghost nodes = self.nodes@;
        let mut alive: Vec<bool> = Vec::new();
        let mut j: usize = 0;
        while j < n
            invariant
                n == nodes.len(),
                j <= n,
                alive@.len() == j,
                forall|x: int| 0 <= x < j ==> #[trigger] alive@[x],
            decreases n - j,
        {
            alive.push(true);
            j = j + 1;
        }
        proof {
            assert(alive@ =~= liveness_from(nodes, n as int));
        }
        let mut i: usize = n;
        while i > 0
            invariant
                n == nodes.len(),
                self.nodes@ == nodes,
                i <= n,
                alive@ == liveness_from(nodes, i as int),
            decreases i,
        {
            proof {
                lemma_liveness_len(nodes, i as int);
            }
            if removable_exec(&self.nodes, &alive, i - 1) {
                alive.set(i - 1, false);
            }
            i = i - 1;
        }
        proof {
            lemma_liveness_len(nodes, 0);
        }
        let ghost mask = alive@;
        let mut removed: usize = 0;
        let mut c: usize = 0;
        while c < n
            invariant
                n == nodes.len(),
                alive@ == mask,
                mask.len() == n,
                c <= n,
                removed == c - kept_indices(mask, c as int).len(),
            decreases n - c,
        {
            proof {
                lemma_kept_bounds(mask, c as int);
            }
            if !alive[c] {
                removed = removed + 1;
            }
            c = c + 1;
        }
        if removed == 0 {
            return 0;
        }
        let ghost kept = kept_indices(mask, n as int);
        let mut old_nodes: Vec<Node> = Vec::new();
        std::mem::swap(&mut old_nodes, &mut self.nodes);
        let mut idx: usize = 0;
        for nd in it: old_nodes.into_iter()
            invariant
                n == nodes.len(),
                it.seq() == nodes,
                alive@ == mask,
                mask.len() == n,
                idx == it.index(),
                self.nodes@.len() == kept_indices(mask, idx as int).len(),
                forall|k: int|
                    0 <= k < self.nodes@.len() ==> moved_node(
                        #[trigger] self.nodes@[k],
                        nodes[kept_indices(mask, idx as int)[k]],
                        k,
                    ),
                self.tensors == old(self).tensors,
                self.weights == old(self).weights,
        {
            proof {
                lemma_kept_bounds(mask, idx as int);
            }
            if alive[idx] {
                let k = self.nodes.len();
                let mut nd = nd;
                nd.id = k;
                self.nodes.push(nd);
            }
            idx = idx + 1;
        }
        proof {
            assert(self.nodes@ =~= elim_result(nodes)) by {
                assert forall|k: int| 0 <= k < self.nodes@.len() implies #[trigger] self.nodes@[k] == renumbered_node(
                    nodes[kept[k]],
                    k,
                ) by {
                    assert(moved_node(self.nodes@[k], nodes[kept[k]], k));
                }
            }
        }
        removed
    }
}

} // verus!
