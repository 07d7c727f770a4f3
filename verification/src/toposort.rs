//! Dependency order of graph nodes: producers, predecessor lists and the
//! topological sort.

use vstd::prelude::*;
use vstd::set_lib::{lemma_int_range, lemma_len_subset, lemma_subset_equality, set_int_range};
use crate::graph::{Graph, Node};
use crate::text::str_eq;

verus! {

/// Node `n` lists `name` among its outputs.
pub open spec fn produces(n: Node, name: Seq<char>) -> bool {
    exists|k: int| 0 <= k < n.outputs@.len() && (#[trigger] n.outputs@[k])@ == name
}

/// The last node producing `name` (a later producer shadows earlier ones).
pub open spec fn spec_producer(nodes: Seq<Node>, name: Seq<char>) -> Option<int>
    decreases nodes.len(),
{
    if nodes.len() == 0 {
        None
    } else if produces(nodes.last(), name) {
        Some(nodes.len() - 1)
    } else {
        spec_producer(nodes.drop_last(), name)
    }
}

/// Predecessors of node `v` contributed by the inputs `ins`: the producer of
/// each input, in input order, skipping inputs with no producer and inputs
/// that `v` produces itself. Repeated inputs give repeated entries.
pub open spec fn preds_of_inputs(nodes: Seq<Node>, v: int, ins: Seq<String>) -> Seq<int>
    decreases ins.len(),
{
    if ins.len() == 0 {
        seq![]
    } else {
        let rest = preds_of_inputs(nodes, v, ins.drop_last());
        match spec_producer(nodes, ins.last()@) {
            Some(p) => if p != v {
                rest.push(p)
            } else {
                rest
            },
            None => rest,
        }
    }
}

/// The predecessors of node `v`: the nodes it depends on.
pub open spec fn spec_preds(nodes: Seq<Node>, v: int) -> Seq<int> {
    preds_of_inputs(nodes, v, nodes[v].inputs@)
}

pub proof fn lemma_producer_bounds(nodes: Seq<Node>, name: Seq<char>)
    ensures
        spec_producer(nodes, name) matches Some(p) ==> 0 <= p < nodes.len() && produces(nodes[p], name),
        spec_producer(nodes, name) matches Some(p) ==> forall|q: int| p < q < nodes.len() ==> !produces(#[trigger] nodes[q], name),
        spec_producer(nodes, name) is None ==> forall|q: int| 0 <= q < nodes.len() ==> !produces(#[trigger] nodes[q], name),
    decreases nodes.len(),
{
    if nodes.len() > 0 {
        lemma_producer_bounds(nodes.drop_last(), name);
        assert forall|q: int| 0 <= q < nodes.len() - 1 implies nodes.drop_last()[q] == #[trigger] nodes[q] by {}
    }
}

pub proof fn lemma_preds_bounds(nodes: Seq<Node>, v: int, ins: Seq<String>)
    ensures
        forall|k: int| 0 <= k < preds_of_inputs(nodes, v, ins).len() ==> 0 <= #[trigger] preds_of_inputs(nodes, v, ins)[k] < nodes.len()
            && preds_of_inputs(nodes, v, ins)[k] != v,
    decreases ins.len(),
{
    if ins.len() > 0 {
        lemma_preds_bounds(nodes, v, ins.drop_last());
        lemma_producer_bounds(nodes, ins.last()@);
        let rest = preds_of_inputs(nodes, v, ins.drop_last());
        let all = preds_of_inputs(nodes, v, ins);
        assert forall|k: int| 0 <= k < all.len() implies 0 <= #[trigger] all[k] < nodes.len() && all[k] != v by {
            if k < rest.len() {
                assert(all[k] == rest[k]);
            }
        }
    }
}

/// Whether node `n` produces the tensor named `name`.
pub(crate) fn node_produces(n: &Node, name: &str) -> (r: bool)
    ensures
        r == produces(*n, name@),
{
    let mut k: usize = 0;
    while k < n.outputs.len()
        invariant
            k <= n.outputs@.len(),
            forall|j: int| 0 <= j < k ==> (#[trigger] n.outputs@[j])@ != name@,
        decreases n.outputs@.len() - k,
    {
        if str_eq(n.outputs[k].as_str(), name) {
            return true;
        }
        k = k + 1;
    }
    false
}

/// The last node producing `name`.
pub fn producer_of(nodes: &Vec<Node>, name: &str) -> (r: Option<usize>)
    ensures
        r matches Some(p) ==> spec_producer(nodes@, name@) == Some(p as int),
        r is None ==> spec_producer(nodes@, name@) is None,
{
    let mut i: usize = nodes.len();
    assert(nodes@.take(i as int) =~= nodes@);
    while i > 0
        invariant
            i <= nodes@.len(),
            spec_producer(nodes@, name@) == spec_producer(nodes@.take(i as int), name@),
        decreases i,
    {
        proof {
            assert(nodes@.take(i as int).drop_last() =~= nodes@.take(i - 1));
            assert(nodes@.take(i as int).last() == nodes@[i - 1]);
        }
        if node_produces(&nodes[i - 1], name) {
            return Some(i - 1);
        }
        i = i - 1;
    }
    None
}

/// The predecessor list of node `v`.
fn preds_exec(nodes: &Vec<Node>, v: usize) -> (r: Vec<usize>)
    requires
        v < nodes@.len(),
    ensures
        r@.len() == spec_preds(nodes@, v as int).len(),
        forall|k: int| 0 <= k < r@.len() ==> r@[k] as int == #[trigger] spec_preds(nodes@, v as int)[k],
{
    let ins = &nodes[v].inputs;
    let mut r: Vec<usize> = Vec::new();
    let mut k: usize = 0;
    while k < ins.len()
        invariant
            v < nodes@.len(),
            *ins == nodes@[v as int].inputs,
            k <= ins@.len(),
            r@.len() == preds_of_inputs(nodes@, v as int, ins@.take(k as int)).len(),
            forall|j: int| 0 <= j < r@.len() ==> r@[j] as int == #[trigger] preds_of_inputs(nodes@, v as int, ins@.take(k as int))[j],
        decreases ins@.len() - k,
    {
        proof {
            assert(ins@.take(k + 1).drop_last() =~= ins@.take(k as int));
            assert(ins@.take(k + 1).last() == ins@[k as int]);
        }
        let p = producer_of(nodes, ins[k].as_str());
        match p {
            Some(p) => {
                if p != v {
                    r.push(p);
                }
            },
            None => {},
        }
        k = k + 1;
    }
    proof {
        assert(ins@.take(k as int) =~= ins@);
    }
    r
}


/// A sequence of node indices read as integers.
pub open spec fn ints(s: Seq<usize>) -> Seq<int> {
    s.map_values(|x: usize| x as int)
}

/// `perm` lists every index below `n` exactly once.
pub open spec fn is_permutation(perm: Seq<int>, n: int) -> bool {
    &&& perm.len() == n
    &&& forall|a: int| 0 <= a < perm.len() ==> 0 <= #[trigger] perm[a] < n
    &&& perm.no_duplicates()
    &&& forall|v: int| 0 <= v < n ==> #[trigger] perm.contains(v)
}

/// Node `p` appears among the first `a` entries of `perm`.
pub open spec fn placed_before(perm: Seq<int>, a: int, p: int) -> bool {
    exists|b: int| 0 <= b < a && #[trigger] perm[b] == p
}

/// In `perm`, every node comes after all of the nodes it depends on.
pub open spec fn respects_dependencies(nodes: Seq<Node>, perm: Seq<int>) -> bool {
    forall|a: int, k: int|
        #![trigger spec_preds(nodes, perm[a])[k]]
        0 <= a < perm.len() && 0 <= k < spec_preds(nodes, perm[a]).len() ==> placed_before(
            perm,
            a,
            spec_preds(nodes, perm[a])[k],
        )
}

/// `perm` is an order of all nodes in which dependencies come first.
pub open spec fn is_topological_order(nodes: Seq<Node>, perm: Seq<int>) -> bool {
    is_permutation(perm, nodes.len() as int) && respects_dependencies(nodes, perm)
}

/// `s` is a nonempty set of nodes, each depending on some node of `s`:
/// no order can put all of them after their dependencies.
pub open spec fn is_cycle_witness(nodes: Seq<Node>, s: Set<int>) -> bool {
    &&& exists|v: int| #[trigger] s.contains(v)
    &&& forall|v: int| #[trigger] s.contains(v) ==> 0 <= v < nodes.len()
    &&& forall|v: int|
        #[trigger] s.contains(v) ==> exists|k: int|
            0 <= k < spec_preds(nodes, v).len() && s.contains(#[trigger] spec_preds(nodes, v)[k])
}

/// The dependency graph of `nodes` has a cycle.
pub open spec fn has_cycle(nodes: Seq<Node>) -> bool {
    exists|s: Set<int>| is_cycle_witness(nodes, s)
}

/// The node at `new` is the node at `old` with its id set to `id`.
pub open spec fn moved_node(new: Node, old: Node, id: int) -> bool {
    &&& new.id == id
    &&& new.op == old.op
    &&& new.inputs == old.inputs
    &&& new.outputs == old.outputs
    &&& new.attrs == old.attrs
    &&& new.backend_hint == old.backend_hint
}

/// `n` with its id set to `id`.
pub open spec fn renumbered_node(n: Node, id: int) -> Node {
    Node {
        id: id as usize,
        op: n.op,
        inputs: n.inputs,
        outputs: n.outputs,
        attrs: n.attrs,
        backend_hint: n.backend_hint,
    }
}

/// The nodes below `v` that depend on nothing, in index order: the
/// initial queue of Kahn's algorithm.
pub open spec fn sources_below(nodes: Seq<Node>, v: int) -> Seq<int>
    decreases v,
{
    if v <= 0 {
        seq![]
    } else {
        let r = sources_below(nodes, v - 1);
        if spec_preds(nodes, v - 1).len() == 0 {
            r.push(v - 1)
        } else {
            r
        }
    }
}

/// Node `w` depends on `u` and, once `u` is taken (`done` holds every node
/// taken so far, `u` included), on nothing left.
pub open spec fn becomes_ready(nodes: Seq<Node>, done: Set<int>, u: int, w: int) -> bool {
    count_eq(spec_preds(nodes, w), u) > 0 && count_outside(spec_preds(nodes, w), done) == 0
}

/// The nodes below `w` that become ready when `u` is taken, in index order.
pub open spec fn ready_below(nodes: Seq<Node>, done: Set<int>, u: int, w: int) -> Seq<int>
    decreases w,
{
    if w <= 0 {
        seq![]
    } else {
        let r = ready_below(nodes, done, u, w - 1);
        if becomes_ready(nodes, done, u, w - 1) {
            r.push(w - 1)
        } else {
            r
        }
    }
}

/// Kahn's algorithm from queue `q` with the first `head` entries taken, for
/// at most `fuel` more steps: each step takes the next queued node and
/// appends the nodes it makes ready. The result is the final queue.
pub open spec fn kahn_run(nodes: Seq<Node>, q: Seq<int>, head: int, fuel: nat) -> Seq<int>
    decreases fuel,
{
    if fuel == 0 || head < 0 || head >= q.len() {
        q
    } else {
        kahn_run(
            nodes,
            q + ready_below(nodes, prefix_set(q, head + 1), q[head], nodes.len() as int),
            head + 1,
            (fuel - 1) as nat,
        )
    }
}

/// The order in which Kahn's algorithm (ready nodes queued in index order)
/// takes the nodes.
pub open spec fn kahn_order(nodes: Seq<Node>) -> Seq<int> {
    kahn_run(nodes, sources_below(nodes, nodes.len() as int), 0, (nodes.len() + 1) as nat)
}

/// The nodes after a topological sort: in Kahn order and renumbered by
/// position, or unchanged when the dependencies form a cycle.
pub open spec fn sort_result(nodes: Seq<Node>) -> Seq<Node> {
    if has_cycle(nodes) {
        nodes
    } else {
        Seq::new(nodes.len(), |k: int| renumbered_node(nodes[kahn_order(nodes)[k]], k))
    }
}

/// Number of entries of `s` that are not in `done`.
pub open spec fn count_outside(s: Seq<int>, done: Set<int>) -> nat
    decreases s.len(),
{
    if s.len() == 0 {
        0
    } else {
        count_outside(s.drop_last(), done) + if done.contains(s.last()) {
            0nat
        } else {
            1nat
        }
    }
}

/// Number of entries of `s` equal to `u`.
pub open spec fn count_eq(s: Seq<int>, u: int) -> nat
    decreases s.len(),
{
    if s.len() == 0 {
        0
    } else {
        count_eq(s.drop_last(), u) + if s.last() == u {
            1nat
        } else {
            0nat
        }
    }
}

/// The set of the first `h` entries of `q`.
pub open spec fn prefix_set(q: Seq<int>, h: int) -> Set<int> {
    Set::new(|x: int| q.take(h).contains(x))
}

proof fn lemma_count_outside_empty(s: Seq<int>)
    ensures
        count_outside(s, Set::empty()) == s.len(),
    decreases s.len(),
{
    if s.len() > 0 {
        lemma_count_outside_empty(s.drop_last());
    }
}

proof fn lemma_count_insert(s: Seq<int>, d: Set<int>, u: int)
    requires
        !d.contains(u),
    ensures
        count_outside(s, d.insert(u)) + count_eq(s, u) == count_outside(s, d),
    decreases s.len(),
{
    if s.len() > 0 {
        lemma_count_insert(s.drop_last(), d, u);
    }
}

proof fn lemma_count_outside_zero(s: Seq<int>, d: Set<int>)
    ensures
        count_outside(s, d) == 0 <==> forall|k: int| 0 <= k < s.len() ==> d.contains(#[trigger] s[k]),
    decreases s.len(),
{
    if s.len() > 0 {
        lemma_count_outside_zero(s.drop_last(), d);
        if count_outside(s, d) == 0 {
            assert forall|k: int| 0 <= k < s.len() implies d.contains(#[trigger] s[k]) by {
                if k < s.len() - 1 {
                    assert(s.drop_last()[k] == s[k]);
                }
            }
        } else if forall|k: int| 0 <= k < s.len() ==> d.contains(#[trigger] s[k]) {
            assert forall|k: int| 0 <= k < s.drop_last().len() implies d.contains(#[trigger] s.drop_last()[k]) by {
                assert(s.drop_last()[k] == s[k]);
            }
            assert(d.contains(s[s.len() - 1]));
        }
    }
}

/// A duplicate-free sequence drawn from a finite set is no longer than the
/// set, and covers the set when it is as long.
proof fn lemma_distinct_within(s: Seq<int>, r: Set<int>)
    requires
        r.finite(),
        s.no_duplicates(),
        forall|a: int| 0 <= a < s.len() ==> r.contains(#[trigger] s[a]),
    ensures
        s.len() <= r.len(),
        s.len() == r.len() ==> forall|x: int| #[trigger] r.contains(x) ==> s.contains(x),
{
    s.unique_seq_to_set();
    assert(s.to_set().subset_of(r));
    lemma_len_subset(s.to_set(), r);
    if s.len() == r.len() {
        lemma_subset_equality(s.to_set(), r);
        assert forall|x: int| #[trigger] r.contains(x) implies s.contains(x) by {
            assert(s.to_set().contains(x));
        }
    }
}

/// A duplicate-free sequence of indices below `n` has at most `n` entries
/// and, with exactly `n`, contains every index below `n`.
proof fn lemma_distinct_indices(s: Seq<int>, n: int)
    requires
        0 <= n,
        s.no_duplicates(),
        forall|a: int| 0 <= a < s.len() ==> 0 <= #[trigger] s[a] < n,
    ensures
        s.len() <= n,
        s.len() == n ==> forall|v: int| 0 <= v < n ==> #[trigger] s.contains(v),
        s.len() < n ==> exists|v: int| 0 <= v < n && !s.contains(v),
{
    lemma_int_range(0, n);
    let r = set_int_range(0, n);
    lemma_distinct_within(s, r);
    if s.len() < n {
        if forall|v: int| 0 <= v < n ==> s.contains(v) {
            s.unique_seq_to_set();
            assert(r.subset_of(s.to_set()));
            lemma_len_subset(r, s.to_set());
        }
    } else if s.len() == n {
        assert forall|v: int| 0 <= v < n implies #[trigger] s.contains(v) by {
            assert(r.contains(v));
        }
    }
}

/// A duplicate-free sequence of indices below `n` that misses `v < n` has
/// fewer than `n` entries.
proof fn lemma_distinct_missing(s: Seq<int>, n: int, v: int)
    requires
        0 <= v < n,
        s.no_duplicates(),
        !s.contains(v),
        forall|a: int| 0 <= a < s.len() ==> 0 <= #[trigger] s[a] < n,
    ensures
        s.len() < n,
{
    lemma_distinct_indices(s, n);
}

/// Under a topological order, no node of a cycle witness sits among the
/// first `m` positions.
proof fn lemma_witness_not_in_prefix(nodes: Seq<Node>, perm: Seq<int>, s: Set<int>, m: int)
    requires
        is_topological_order(nodes, perm),
        is_cycle_witness(nodes, s),
        0 <= m <= perm.len(),
    ensures
        forall|b: int| 0 <= b < m ==> !s.contains(#[trigger] perm[b]),
    decreases m,
{
    if m > 0 {
        lemma_witness_not_in_prefix(nodes, perm, s, m - 1);
        if s.contains(perm[m - 1]) {
            let v = perm[m - 1];
            let k = choose|k: int| 0 <= k < spec_preds(nodes, v).len() && s.contains(#[trigger] spec_preds(nodes, v)[k]);
            let b = choose|b: int| 0 <= b < m - 1 && #[trigger] perm[b] == spec_preds(nodes, perm[m - 1])[k];
            assert(s.contains(perm[b]));
        }
    }
}

/// A graph that has a topological order has no cycle.
pub proof fn lemma_order_excludes_cycle(nodes: Seq<Node>, perm: Seq<int>, s: Set<int>)
    requires
        is_topological_order(nodes, perm),
    ensures
        !is_cycle_witness(nodes, s),
{
    if is_cycle_witness(nodes, s) {
        lemma_witness_not_in_prefix(nodes, perm, s, perm.len() as int);
        let v = choose|v: int| #[trigger] s.contains(v);
        assert(perm.contains(v));
        let b = choose|b: int| 0 <= b < perm.len() && perm[b] == v;
        assert(!s.contains(perm[b]));
    }
}

/// A graph has a topological order exactly when it has no cycle: an order
/// rules every cycle out.
pub proof fn lemma_acyclic_iff_ordered(nodes: Seq<Node>, perm: Seq<int>)
    requires
        is_topological_order(nodes, perm),
    ensures
        !has_cycle(nodes),
{
    if has_cycle(nodes) {
        let s = choose|s: Set<int>| is_cycle_witness(nodes, s);
        lemma_order_excludes_cycle(nodes, perm, s);
    }
}

/// Number of entries of `s` equal to `u`.
fn count_occurrences(s: &Vec<usize>, u: usize) -> (c: usize)
    ensures
        c == count_eq(ints(s@), u as int),
{
    let mut c: usize = 0;
    let mut k: usize = 0;
    while k < s.len()
        invariant
            k <= s@.len(),
            c == count_eq(ints(s@.take(k as int)), u as int),
            c <= k,
        decreases s@.len() - k,
    {
        proof {
            assert(ints(s@.take(k + 1)).drop_last() =~= ints(s@.take(k as int)));
        }
        if s[k] == u {
            c = c + 1;
        }
        k = k + 1;
    }
    proof {
        assert(s@.take(k as int) =~= s@);
    }
    c
}

/// Predecessor lists of all nodes.
fn all_preds(nodes: &Vec<Node>) -> (r: Vec<Vec<usize>>)
    ensures
        r@.len() == nodes@.len(),
        forall|v: int| 0 <= v < nodes@.len() ==> ints(#[trigger] r@[v]@) == spec_preds(nodes@, v),
{
    let mut r: Vec<Vec<usize>> = Vec::new();
    let mut v: usize = 0;
    while v < nodes.len()
        invariant
            v <= nodes@.len(),
            r@.len() == v,
            forall|w: int| 0 <= w < v ==> ints(#[trigger] r@[w]@) == spec_preds(nodes@, w),
        decreases nodes@.len() - v,
    {
        let p = preds_exec(nodes, v);
        proof {
            assert(ints(p@) =~= spec_preds(nodes@, v as int));
        }
        r.push(p);
        v = v + 1;
    }
    r
}

proof fn lemma_respects_push(nodes: Seq<Node>, q: Seq<int>, w: int, h: int)
    requires
        respects_dependencies(nodes, q),
        0 <= h <= q.len(),
        forall|k: int| 0 <= k < spec_preds(nodes, w).len() ==> prefix_set(q, h).contains(#[trigger] spec_preds(nodes, w)[k]),
    ensures
        respects_dependencies(nodes, q.push(w)),
{
    let q2 = q.push(w);
    assert forall|a: int, k: int|
        #![trigger spec_preds(nodes, q2[a])[k]]
        0 <= a < q2.len() && 0 <= k < spec_preds(nodes, q2[a]).len() implies placed_before(
            q2,
            a,
            spec_preds(nodes, q2[a])[k],
        ) by {
        if a < q.len() {
            assert(q2[a] == q[a]);
            assert(0 <= k < spec_preds(nodes, q[a]).len());
            let t = spec_preds(nodes, q[a])[k];
            assert(placed_before(q, a, t));
            let b = choose|b: int| 0 <= b < a && #[trigger] q[b] == t;
            assert(q2[b] == q[b]);
        } else {
            assert(q2[a] == w);
            assert(prefix_set(q, h).contains(spec_preds(nodes, w)[k]));
            let b = choose|b: int| 0 <= b < q.take(h).len() && q.take(h)[b] == spec_preds(nodes, w)[k];
            assert(q2[b] == q[b]);
        }
    }
}

impl Graph {
    /// Reorder the nodes so that each node comes after the nodes producing
    /// its inputs (Kahn's algorithm, ready nodes taken in index order), then
    /// renumber them by position. When the dependencies form a cycle the
    /// nodes stay as they were and the result is `false`.
    pub fn topological_sort(&mut self) -> (ok: bool)
        ensures
            final(self).tensors == old(self).tensors,
            final(self).weights == old(self).weights,
            ok ==> final(self).nodes@.len() == old(self).nodes@.len() && exists|perm: Seq<int>|
                #[trigger] is_topological_order(old(self).nodes@, perm) && forall|k: int|
                    0 <= k < perm.len() ==> moved_node(#[trigger] final(self).nodes@[k], old(self).nodes@[perm[k]], k),
            !ok ==> final(self).nodes@ == old(self).nodes@ && has_cycle(old(self).nodes@),
            ok == !has_cycle(old(self).nodes@),
            final(self).nodes@ == sort_result(old(self).nodes@),
    {
        let n = self.nodes.len();
        let preds = all_preds(&self.nodes);
        let ghost nodes = self.nodes@;
        let mut in_deg: Vec<usize> = Vec::new();
        let mut queue: Vec<usize> = Vec::new();
        let mut v: usize = 0;
        while v < n
            invariant
                n == nodes.len(),
                preds@.len() == n,
                forall|w: int| 0 <= w < n ==> ints(#[trigger] preds@[w]@) == spec_preds(nodes, w),
                v <= n,
                in_deg@.len() == v,
                forall|w: int| 0 <= w < v ==> #[trigger] in_deg@[w] == count_outside(spec_preds(nodes, w), Set::empty()),
                forall|a: int| 0 <= a < queue@.len() ==> #[trigger] queue@[a] < v,
                ints(queue@).no_duplicates(),
                forall|w: int| 0 <= w < v ==> (#[trigger] ints(queue@).contains(w) <==> in_deg@[w] == 0),
                forall|a: int| 0 <= a < queue@.len() ==> spec_preds(nodes, #[trigger] queue@[a] as int).len() == 0,
                ints(queue@) == sources_below(nodes, v as int),
            decreases n - v,
        {
            let d = preds[v].len();
            proof {
                lemma_count_outside_empty(spec_preds(nodes, v as int));
                assert(ints(preds@[v as int]@).len() == d);
            }
            in_deg.push(d);
            if d == 0 {
                let ghost q0 = queue@;
                queue.push(v);
                proof {
                    assert(ints(queue@) =~= ints(q0).push(v as int));
                    assert forall|w: int| 0 <= w <= v implies (#[trigger] ints(queue@).contains(w) <==> in_deg@[w] == 0) by {
                        if w < v && ints(queue@).contains(w) {
                            let a = choose|a: int| 0 <= a < ints(queue@).len() && ints(queue@)[a] == w;
                            assert(ints(q0)[a] == w);
                        }
                        if w < v && ints(q0).contains(w) {
                            let a = choose|a: int| 0 <= a < ints(q0).len() && ints(q0)[a] == w;
                            assert(ints(queue@)[a] == w);
                        }
                        if w == v {
                            assert(ints(queue@)[ints(queue@).len() - 1] == w);
                        }
                    }
                }
            } else {
                proof {
                    assert forall|w: int| 0 <= w <= v implies (#[trigger] ints(queue@).contains(w) <==> in_deg@[w] == 0) by {
                        if w == v && ints(queue@).contains(w) {
                            let a = choose|a: int| 0 <= a < ints(queue@).len() && ints(queue@)[a] == w;
                            assert(queue@[a] < v);
                        }
                    }
                }
            }
            v = v + 1;
        }
        proof {
            assert(prefix_set(ints(queue@), 0) =~= Set::<int>::empty());
            assert forall|a: int, k: int|
                #![trigger spec_preds(nodes, ints(queue@)[a])[k]]
                0 <= a < ints(queue@).len() && 0 <= k < spec_preds(nodes, ints(queue@)[a]).len() implies placed_before(
                    ints(queue@),
                    a,
                    spec_preds(nodes, ints(queue@)[a])[k],
                ) by {
                assert(spec_preds(nodes, queue@[a] as int).len() == 0);
            }
        }
        proof {
            lemma_distinct_indices(ints(queue@), n as int);
        }
        let mut head: usize = 0;
        while head < queue.len()
            invariant
                n == nodes.len(),
                preds@.len() == n,
                forall|w: int| 0 <= w < n ==> ints(#[trigger] preds@[w]@) == spec_preds(nodes, w),
                in_deg@.len() == n,
                head <= queue@.len() <= n,
                forall|a: int| 0 <= a < queue@.len() ==> #[trigger] queue@[a] < n,
                ints(queue@).no_duplicates(),
                forall|w: int| 0 <= w < n ==> #[trigger] in_deg@[w] == count_outside(
                    spec_preds(nodes, w), prefix_set(ints(queue@), head as int)),
                forall|w: int| 0 <= w < n ==> (#[trigger] ints(queue@).contains(w) <==> in_deg@[w] == 0),
                respects_dependencies(nodes, ints(queue@)),
                kahn_order(nodes) == kahn_run(nodes, ints(queue@), head as int, (n + 1 - head) as nat),
            decreases n - head,
        {
            let u = queue[head];
            let ghost d_old = prefix_set(ints(queue@), head as int);
            proof {
                if d_old.contains(u as int) {
                    let b = choose|b: int| 0 <= b < ints(queue@).take(head as int).len()
                        && ints(queue@).take(head as int)[b] == u as int;
                    assert(ints(queue@)[b] == ints(queue@)[head as int]);
                }
                let q = ints(queue@);
                let t0 = q.take(head as int);
                let t1 = q.take(head + 1);
                assert(prefix_set(q, head + 1) =~= d_old.insert(u as int)) by {
                    assert forall|x: int| #[trigger] prefix_set(q, head + 1).contains(x)
                        implies d_old.insert(u as int).contains(x) by {
                        let b = choose|b: int| 0 <= b < t1.len() && #[trigger] t1[b] == x;
                        if b < head {
                            assert(t0[b] == x);
                        }
                    }
                    assert forall|x: int| #[trigger] d_old.insert(u as int).contains(x)
                        implies prefix_set(q, head + 1).contains(x) by {
                        if x == u as int {
                            assert(t1[head as int] == x);
                        } else {
                            let b = choose|b: int| 0 <= b < t0.len() && #[trigger] t0[b] == x;
                            assert(t1[b] == x);
                        }
                    }
                }
            }
            let ghost q_start = ints(queue@);
            head = head + 1;
            let ghost d_new = d_old.insert(u as int);
            proof {
                assert(ints(queue@) =~= q_start + ready_below(nodes, d_new, u as int, 0));
                assert(prefix_set(q_start, head as int) == d_new);
            }
            let mut w: usize = 0;
            while w < n
                invariant
                    n == nodes.len(),
                    preds@.len() == n,
                    forall|x: int| 0 <= x < n ==> ints(#[trigger] preds@[x]@) == spec_preds(nodes, x),
                    in_deg@.len() == n,
                    0 < head <= queue@.len() <= n,
                    w <= n,
                    u < n,
                    !d_old.contains(u as int),
                    d_new == d_old.insert(u as int),
                    prefix_set(ints(queue@), head as int) == d_new,
                    forall|a: int| 0 <= a < queue@.len() ==> #[trigger] queue@[a] < n,
                    ints(queue@).no_duplicates(),
                    forall|x: int| 0 <= x < w ==> #[trigger] in_deg@[x] == count_outside(spec_preds(nodes, x), d_new),
                    forall|x: int| w <= x < n ==> #[trigger] in_deg@[x] == count_outside(spec_preds(nodes, x), d_old),
                    forall|x: int| 0 <= x < n ==> (#[trigger] ints(queue@).contains(x) <==> in_deg@[x] == 0),
                    respects_dependencies(nodes, ints(queue@)),
                    ints(queue@) == q_start + ready_below(nodes, d_new, u as int, w as int),
                    q_start[head - 1] == u as int,
                    q_start.len() >= head,
                    prefix_set(q_start, head as int) == d_new,
                    kahn_order(nodes) == kahn_run(nodes, q_start, head - 1, (n + 2 - head) as nat),
                decreases n - w,
            {
                let ghost qb = ints(queue@);
                let c = count_occurrences(&preds[w], u);
                proof {
                    lemma_count_insert(spec_preds(nodes, w as int), d_old, u as int);
                }
                if c > 0 {
                    let nd = in_deg[w] - c;
                    in_deg.set(w, nd);
                    if nd == 0 {
                        let ghost q0 = queue@;
                        proof {
                            lemma_count_outside_zero(spec_preds(nodes, w as int), d_new);
                            lemma_distinct_missing(ints(q0), n as int, w as int);
                            lemma_respects_push(nodes, ints(q0), w as int, head as int);
                        }
                        queue.push(w);
                        proof {
                            assert(ints(queue@) =~= ints(q0).push(w as int));
                            assert(!ints(q0).contains(w as int));
                            assert forall|i: int, j: int| 0 <= i < ints(queue@).len() && 0 <= j < ints(queue@).len()
                                && i != j implies #[trigger] ints(queue@)[i] != #[trigger] ints(queue@)[j] by {
                                if i == ints(q0).len() {
                                    assert(ints(q0)[j] == ints(queue@)[j]);
                                } else if j == ints(q0).len() {
                                    assert(ints(q0)[i] == ints(queue@)[i]);
                                } else {
                                    assert(ints(q0)[i] == ints(queue@)[i]);
                                    assert(ints(q0)[j] == ints(queue@)[j]);
                                }
                            }
                            assert(prefix_set(ints(queue@), head as int) =~= prefix_set(ints(q0), head as int)) by {
                                assert(ints(queue@).take(head as int) =~= ints(q0).take(head as int));
                            }
                            assert forall|x: int| 0 <= x < n implies (#[trigger] ints(queue@).contains(x)
                                <==> in_deg@[x] == 0) by {
                                if ints(queue@).contains(x) && x != w {
                                    let a = choose|a: int| 0 <= a < ints(queue@).len() && ints(queue@)[a] == x;
                                    assert(ints(q0)[a] == x);
                                }
                                if ints(q0).contains(x) {
                                    let a = choose|a: int| 0 <= a < ints(q0).len() && ints(q0)[a] == x;
                                    assert(ints(queue@)[a] == x);
                                }
                                if x == w {
                                    assert(ints(queue@)[ints(queue@).len() - 1] == x);
                                }
                            }
                        }
                    }
                }
                proof {
                    if becomes_ready(nodes, d_new, u as int, w as int) {
                        assert(ints(queue@) =~= qb.push(w as int));
                    } else {
                        assert(ints(queue@) == qb);
                    }
                    assert(ints(queue@) =~= q_start + ready_below(nodes, d_new, u as int, w + 1));
                }
                w = w + 1;
            }
            proof {
                assert(kahn_run(nodes, q_start, head - 1, (n + 2 - head) as nat) == kahn_run(
                    nodes,
                    q_start + ready_below(nodes, prefix_set(q_start, head as int), u as int, n as int),
                    head as int,
                    (n + 1 - head) as nat,
                ));
            }
        }
        let ghost perm = ints(queue@);
        proof {
            assert(perm.take(head as int) =~= perm);
            lemma_distinct_indices(perm, n as int);
        }
        if queue.len() < n {
            proof {
                let s = Set::new(|x: int| 0 <= x < n && !perm.contains(x));
                assert forall|x: int| #[trigger] s.contains(x) implies exists|k: int|
                    0 <= k < spec_preds(nodes, x).len() && s.contains(#[trigger] spec_preds(nodes, x)[k]) by {
                    let p = spec_preds(nodes, x);
                    lemma_count_outside_zero(p, prefix_set(perm, head as int));
                    let k = choose|k: int| 0 <= k < p.len() && !prefix_set(perm, head as int).contains(#[trigger] p[k]);
                    lemma_preds_bounds(nodes, x, nodes[x].inputs@);
                    assert(0 <= p[k] < n);
                    assert(s.contains(p[k]));
                }
                let v0 = choose|v: int| 0 <= v < n && !perm.contains(v);
                assert(s.contains(v0));
                assert(is_cycle_witness(nodes, s));
            }
            return false;
        }
        proof {
            assert(is_topological_order(nodes, perm));
            lemma_acyclic_iff_ordered(nodes, perm);
        }
        let mut old_nodes: Vec<Node> = Vec::new();
        std::mem::swap(&mut old_nodes, &mut self.nodes);
        let mut slots: Vec<Option<Node>> = Vec::new();
        while old_nodes.len() > 0
            invariant
                n == nodes.len(),
                old_nodes@.len() + slots@.len() == n,
                old_nodes@ == nodes.take(old_nodes@.len() as int),
                forall|i: int| 0 <= i < slots@.len() ==> #[trigger] slots@[i] == Some(nodes[n - 1 - i]),
            decreases old_nodes@.len(),
        {
            let ghost o0 = old_nodes@;
            let nd = old_nodes.pop().unwrap();
            proof {
                assert(old_nodes@ =~= nodes.take(old_nodes@.len() as int));
            }
            slots.push(Some(nd));
        }
        let mut k: usize = 0;
        while k < n
            invariant
                n == nodes.len(),
                perm == ints(queue@),
                is_topological_order(nodes, perm),
                queue@.len() == n,
                slots@.len() == n,
                self.nodes@.len() == k,
                k <= n,
                self.tensors == old(self).tensors,
                self.weights == old(self).weights,
                forall|i: int| 0 <= i < n ==> (#[trigger] slots@[i] matches Some(x) ==> x == nodes[n - 1 - i]),
                forall|j: int| k <= j < n ==> #[trigger] slots@[n - 1 - perm[j]] is Some,
                forall|j: int| 0 <= j < k ==> moved_node(#[trigger] self.nodes@[j], nodes[perm[j]], j),
            decreases n - k,
        {
            let idx = queue[k];
            proof {
                assert(perm[k as int] == idx as int);
            }
            let pos = n - 1 - idx;
            let slot = slots.remove(pos);
            slots.insert(pos, None);
            proof {
                assert forall|j: int| k + 1 <= j < n implies #[trigger] slots@[n - 1 - perm[j]] is Some by {
                    assert(perm[j] != perm[k as int]);
                }
            }
            match slot {
                Some(nd) => {
                    let mut nd = nd;
                    nd.id = k;
                    self.nodes.push(nd);
                },
                None => {
                    proof {
                        assert(false);
                    }
                },
            }
            k = k + 1;
        }
        proof {
            assert(kahn_order(nodes) == perm);
            assert(self.nodes@ =~= sort_result(nodes)) by {
                assert forall|j: int| 0 <= j < n implies #[trigger] self.nodes@[j] == renumbered_node(
                    nodes[kahn_order(nodes)[j]],
                    j,
                ) by {
                    assert(moved_node(self.nodes@[j], nodes[perm[j]], j));
                }
            }
        }
        true
    }
}

} // verus!
