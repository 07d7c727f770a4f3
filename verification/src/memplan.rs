//! Memory planning: buffer lifetimes of the fixed-shape intermediate
//! tensors and the peak memory of a graph run in node order.

use vstd::prelude::*;
use crate::graph::{spec_fixed_shape, BufferLifetime, Graph, MemoryPlan, Node, TensorMeta, WeightData};
use crate::namemap::{distinct_names, entries_map, lemma_entries_map_dom, lemma_entries_map_index, NameMap};
use crate::templates::names;
use crate::text::owned;

verus! {

/// The last node before `upto` that produces `name`, or -1.
pub open spec fn last_producer(nodes: Seq<Node>, name: Seq<char>, upto: int) -> int
    decreases upto,
{
    if upto <= 0 {
        -1
    } else if names(nodes[upto - 1].outputs@).contains(name) {
        upto - 1
    } else {
        last_producer(nodes, name, upto - 1)
    }
}

/// The last node before `upto` that consumes `name`, or -1.
pub open spec fn last_consumer(nodes: Seq<Node>, name: Seq<char>, upto: int) -> int
    decreases upto,
{
    if upto <= 0 {
        -1
    } else if names(nodes[upto - 1].inputs@).contains(name) {
        upto - 1
    } else {
        last_consumer(nodes, name, upto - 1)
    }
}

/// The product of the dimensions.
pub open spec fn dims_product(s: Seq<usize>) -> nat
    decreases s.len(),
{
    if s.len() == 0 {
        1
    } else {
        dims_product(s.drop_last()) * (s.last() as nat)
    }
}

/// Every running product of the dimensions fits in `usize`.
pub open spec fn products_fit(s: Seq<usize>) -> bool {
    forall|t: int| 0 <= t <= s.len() ==> #[trigger] dims_product(s.take(t)) <= usize::MAX
}

/// A tensor gets a buffer when its shape is fixed and a node produces it.
pub open spec fn has_buffer(nodes: Seq<Node>, name: Seq<char>, meta: TensorMeta) -> bool {
    spec_fixed_shape(meta.shape@) is Some && last_producer(nodes, name, nodes.len() as int) >= 0
}

/// Bytes of a fixed-shape tensor: elements times element size.
pub open spec fn buffer_size(meta: TensorMeta) -> nat {
    dims_product(spec_fixed_shape(meta.shape@)->Some_0) * meta.dtype.spec_element_size()
}

/// The lifetime of a buffer: produced by its last producer, alive up to
/// its last consumer (or its production, whichever is later).
pub open spec fn lifetime_of(nodes: Seq<Node>, name: Seq<char>, meta: TensorMeta) -> BufferLifetime {
    let p = last_producer(nodes, name, nodes.len() as int);
    let c = last_consumer(nodes, name, nodes.len() as int);
    BufferLifetime {
        produced_at: p as usize,
        consumed_at: (if c > p {
            c
        } else {
            p
        }) as usize,
        size_bytes: buffer_size(meta) as usize,
    }
}

/// A buffer is alive at node `i` when `produced_at <= i <= consumed_at`.
pub open spec fn alive(l: BufferLifetime, i: int) -> bool {
    l.produced_at <= i <= l.consumed_at
}

/// Bytes of the buffers of `entries` alive at node `i`.
pub open spec fn alive_bytes(nodes: Seq<Node>, entries: Seq<(String, TensorMeta)>, i: int) -> nat
    decreases entries.len(),
{
    if entries.len() == 0 {
        0
    } else {
        let name = entries.last().0@;
        let meta = entries.last().1;
        alive_bytes(nodes, entries.drop_last(), i) + if has_buffer(nodes, name, meta) && alive(
            lifetime_of(nodes, name, meta),
            i,
        ) {
            buffer_size(meta)
        } else {
            0
        }
    }
}

/// The most bytes alive at any node before `upto` (0 for no node).
pub open spec fn peak_alive(nodes: Seq<Node>, entries: Seq<(String, TensorMeta)>, upto: int) -> nat
    decreases upto,
{
    if upto <= 0 {
        0
    } else {
        let before = peak_alive(nodes, entries, upto - 1);
        let here = alive_bytes(nodes, entries, upto - 1);
        if here > before {
            here
        } else {
            before
        }
    }
}

/// Bytes of the resident weights.
pub open spec fn weight_bytes(ws: Seq<(String, WeightData)>) -> nat
    decreases ws.len(),
{
    if ws.len() == 0 {
        0
    } else {
        weight_bytes(ws.drop_last()) + ws.last().1.data@.len()
    }
}

/// The lifetimes of the buffers of `entries`.
pub open spec fn lifetimes_of(nodes: Seq<Node>, entries: Seq<(String, TensorMeta)>) -> Map<Seq<char>, BufferLifetime>
    decreases entries.len(),
{
    if entries.len() == 0 {
        Map::empty()
    } else {
        let rest = lifetimes_of(nodes, entries.drop_last());
        let name = entries.last().0@;
        let meta = entries.last().1;
        if has_buffer(nodes, name, meta) {
            rest.insert(name, lifetime_of(nodes, name, meta))
        } else {
            rest
        }
    }
}

/// The sizes the planner adds up fit in `usize`: the size of every
/// buffer (with its running products), the bytes alive at every node,
/// and the peak plus the weights.
pub open spec fn plan_fits(g: Graph) -> bool {
    let t = g.tensors.entry_seq();
    let n = g.nodes@.len() as int;
    &&& forall|k: int| 0 <= k < t.len() && has_buffer(g.nodes@, t[k].0@, t[k].1) ==> {
        &&& products_fit(spec_fixed_shape((#[trigger] t[k]).1.shape@)->Some_0)
        &&& buffer_size(t[k].1) <= usize::MAX
    }
    &&& forall|i: int| 0 <= i < n ==> #[trigger] alive_bytes(g.nodes@, t, i) <= usize::MAX
    &&& peak_alive(g.nodes@, t, n) + weight_bytes(g.weights.entry_seq()) <= usize::MAX
}


// ---- Lemmas ----

proof fn lemma_last_bounds(nodes: Seq<Node>, name: Seq<char>, upto: int)
    requires
        0 <= upto,
    ensures
        -1 <= last_producer(nodes, name, upto) < upto,
        -1 <= last_consumer(nodes, name, upto) < upto,
    decreases upto,
{
    if upto > 0 {
        lemma_last_bounds(nodes, name, upto - 1);
    }
}

proof fn lemma_take_push_contains(v: Seq<Seq<char>>, j: int, x: Seq<char>)
    requires
        0 <= j < v.len(),
    ensures
        v.take(j + 1).contains(x) <==> (v.take(j).contains(x) || v[j] == x),
{
    assert(v.take(j + 1) =~= v.take(j).push(v[j]));
    if v.take(j + 1).contains(x) {
        let a = choose|a: int| 0 <= a < v.take(j + 1).len() && #[trigger] v.take(j + 1)[a] == x;
        if a < j {
            assert(v.take(j)[a] == x);
        }
    }
    if v.take(j).contains(x) {
        let a = choose|a: int| 0 <= a < v.take(j).len() && #[trigger] v.take(j)[a] == x;
        assert(v.take(j + 1)[a] == x);
    }
    if v[j] == x {
        assert(v.take(j + 1)[j] == x);
    }
}

proof fn lemma_alive_prefix(nodes: Seq<Node>, s: Seq<(String, TensorMeta)>, k: int, i: int)
    requires
        0 <= k <= s.len(),
    ensures
        alive_bytes(nodes, s.take(k), i) <= alive_bytes(nodes, s, i),
        k < s.len() ==> s.take(k + 1).drop_last() == s.take(k),
    decreases s.len(),
{
    if k < s.len() {
        assert(s.take(k + 1).drop_last() =~= s.take(k));
        assert(s.take(k) =~= s.drop_last().take(k));
        lemma_alive_prefix(nodes, s.drop_last(), k, i);
    } else {
        assert(s.take(k) =~= s);
    }
}

proof fn lemma_weight_prefix(s: Seq<(String, WeightData)>, k: int)
    requires
        0 <= k <= s.len(),
    ensures
        weight_bytes(s.take(k)) <= weight_bytes(s),
        k < s.len() ==> s.take(k + 1).drop_last() == s.take(k),
    decreases s.len(),
{
    if k < s.len() {
        assert(s.take(k + 1).drop_last() =~= s.take(k));
        assert(s.take(k) =~= s.drop_last().take(k));
        lemma_weight_prefix(s.drop_last(), k);
    } else {
        assert(s.take(k) =~= s);
    }
}

proof fn lemma_lifetimes_of(nodes: Seq<Node>, s: Seq<(String, TensorMeta)>, name: Seq<char>)
    requires
        distinct_names(s),
    ensures
        lifetimes_of(nodes, s).contains_key(name) <==> (entries_map(s).contains_key(name) && has_buffer(
            nodes,
            name,
            entries_map(s)[name],
        )),
        lifetimes_of(nodes, s).contains_key(name) ==> lifetimes_of(nodes, s)[name] == lifetime_of(
            nodes,
            name,
            entries_map(s)[name],
        ),
    decreases s.len(),
{
    if s.len() > 0 {
        let t = s.drop_last();
        assert(distinct_names(t)) by {
            assert forall|a: int, b: int| 0 <= a < b < t.len() implies (#[trigger] t[a]).0@ != (#[trigger] t[b]).0@ by {
                assert(t[a] == s[a]);
                assert(t[b] == s[b]);
            }
        }
        lemma_lifetimes_of(nodes, t, name);
        if name == s.last().0@ {
            lemma_entries_map_dom(t, name);
            if entries_map(t).contains_key(name) {
                let a = choose|a: int| 0 <= a < t.len() && (#[trigger] t[a]).0@ == name;
                assert(s[a].0@ == s[s.len() - 1].0@);
            }
        }
    }
}

proof fn lemma_dims_step(d: Seq<usize>, j: int)
    requires
        0 <= j < d.len(),
    ensures
        dims_product(d.take(j + 1)) == dims_product(d.take(j)) * (d[j] as nat),
{
    assert(d.take(j + 1).drop_last() =~= d.take(j));
}


proof fn lemma_alive_covers_entry(nodes: Seq<Node>, s: Seq<(String, TensorMeta)>, i: int, k: int)
    requires
        0 <= k < s.len(),
        has_buffer(nodes, s[k].0@, s[k].1),
        alive(lifetime_of(nodes, s[k].0@, s[k].1), i),
    ensures
        alive_bytes(nodes, s, i) >= buffer_size(s[k].1),
    decreases s.len(),
{
    if k < s.len() - 1 {
        assert(s.drop_last()[k] == s[k]);
        lemma_alive_covers_entry(nodes, s.drop_last(), i, k);
    }
}

proof fn lemma_peak_covers(nodes: Seq<Node>, s: Seq<(String, TensorMeta)>, upto: int, i: int)
    requires
        0 <= i < upto,
    ensures
        peak_alive(nodes, s, upto) >= alive_bytes(nodes, s, i),
    decreases upto,
{
    if i < upto - 1 {
        lemma_peak_covers(nodes, s, upto - 1, i);
    }
}

// ---- Planning ----

/// The product of the dimensions.
pub(crate) fn product_of(d: &Vec<usize>) -> (r: usize)
    requires
        products_fit(d@),
    ensures
        r == dims_product(d@),
{
    let mut r: usize = 1;
    let mut j: usize = 0;
    proof {
        assert(d@.take(0) =~= Seq::<usize>::empty());
    }
    while j < d.len()
        invariant
            products_fit(d@),
            j <= d@.len(),
            r == dims_product(d@.take(j as int)),
        decreases d@.len() - j,
    {
        proof {
            lemma_dims_step(d@, j as int);
            assert(dims_product(d@.take(j + 1)) <= usize::MAX);
        }
        r = r * d[j];
        j = j + 1;
    }
    proof {
        assert(d@.take(j as int) =~= d@);
    }
    r
}

/// The production index of a name after the first `upto` nodes, if any.
pub open spec fn produced_by(nodes: Seq<Node>, name: Seq<char>, upto: int) -> Option<usize> {
    let p = last_producer(nodes, name, upto);
    if p >= 0 {
        Some(p as usize)
    } else {
        None
    }
}

/// The last use of a buffer produced at `p`, after the first `upto` nodes.
pub open spec fn consumed_by(nodes: Seq<Node>, name: Seq<char>, p: int, upto: int) -> int {
    let c = last_consumer(nodes, name, upto);
    if c > p {
        c
    } else {
        p
    }
}

impl Graph {
    /// Production index, per tensor entry, of the last producing node.
    fn producers(&self) -> (r: Vec<Option<usize>>)
        ensures
            r@.len() == self.tensors.entry_seq().len(),
            forall|k: int| 0 <= k < r@.len() ==> #[trigger] r@[k] == produced_by(
                self.nodes@,
                self.tensors.entry_seq()[k].0@,
                self.nodes@.len() as int,
            ),
    {
        let ghost t = self.tensors.entry_seq();
        let ghost nodes = self.nodes@;
        let t_len = self.tensors.len();
        let mut r: Vec<Option<usize>> = Vec::new();
        let mut k: usize = 0;
        while k < t_len
            invariant
                t_len == t.len(),
                k <= t_len,
                r@.len() == k,
                forall|k2: int| 0 <= k2 < k ==> #[trigger] r@[k2] is None,
            decreases t_len - k,
        {
            r.push(None);
            k = k + 1;
        }
        let mut i: usize = 0;
        while i < self.nodes.len()
            invariant
                t == self.tensors.entry_seq(),
                distinct_names(t),
                nodes == self.nodes@,
                i <= nodes.len(),
                r@.len() == t.len(),
                forall|k2: int| 0 <= k2 < r@.len() ==> #[trigger] r@[k2] == produced_by(nodes, t[k2].0@, i as int),
            decreases nodes.len() - i,
        {
            let outs = &self.nodes[i].outputs;
            let ghost ons = names(outs@);
            let mut j: usize = 0;
            while j < outs.len()
                invariant
                    t == self.tensors.entry_seq(),
                    distinct_names(t),
                    nodes == self.nodes@,
                    i < nodes.len(),
                    outs@ == nodes[i as int].outputs@,
                    ons == names(outs@),
                    j <= outs@.len(),
                    r@.len() == t.len(),
                    forall|k2: int| 0 <= k2 < r@.len() ==> #[trigger] r@[k2] == if ons.take(j as int).contains(t[k2].0@) {
                        Some(i)
                    } else {
                        produced_by(nodes, t[k2].0@, i as int)
                    },
                decreases outs@.len() - j,
            {
                let found = self.tensors.index_of(outs[j].as_str());
                let ghost before = r@;
                match found {
                    Some(k0) => {
                        r.set(k0, Some(i));
                    },
                    None => {},
                }
                proof {
                    assert forall|k2: int| 0 <= k2 < r@.len() implies #[trigger] r@[k2] == if ons.take(j + 1).contains(t[k2].0@) {
                        Some(i)
                    } else {
                        produced_by(nodes, t[k2].0@, i as int)
                    } by {
                        lemma_take_push_contains(ons, j as int, t[k2].0@);
                        assert(ons[j as int] == outs@[j as int]@);
                        match found {
                            Some(k0) => {
                                if k2 != k0 {
                                    assert(r@[k2] == before[k2]);
                                    assert(t[k2].0@ != t[k0 as int].0@);
                                }
                            },
                            None => {
                                assert(r@[k2] == before[k2]);
                                assert(t[k2].0@ != ons[j as int]);
                            },
                        }
                    }
                }
                j = j + 1;
            }
            proof {
                assert(ons.take(j as int) =~= ons);
                assert forall|k2: int| 0 <= k2 < r@.len() implies #[trigger] r@[k2] == produced_by(nodes, t[k2].0@, i + 1) by {
                    lemma_last_bounds(nodes, t[k2].0@, i as int);
                }
            }
            i = i + 1;
        }
        r
    }
}


impl Graph {
    /// Last use, per tensor entry with a producer, of its buffer.
    fn consumers(&self, produced: &Vec<Option<usize>>) -> (r: Vec<usize>)
        requires
            produced@.len() == self.tensors.entry_seq().len(),
            forall|k: int| 0 <= k < produced@.len() ==> #[trigger] produced@[k] == produced_by(
                self.nodes@,
                self.tensors.entry_seq()[k].0@,
                self.nodes@.len() as int,
            ),
        ensures
            r@.len() == produced@.len(),
            forall|k: int| 0 <= k < r@.len() && (#[trigger] produced@[k]) is Some ==> r@[k] == consumed_by(
                self.nodes@,
                self.tensors.entry_seq()[k].0@,
                produced@[k]->Some_0 as int,
                self.nodes@.len() as int,
            ),
    {
        let ghost t = self.tensors.entry_seq();
        let ghost nodes = self.nodes@;
        let t_len = self.tensors.len();
        let mut r: Vec<usize> = Vec::new();
        let mut k: usize = 0;
        while k < t_len
            invariant
                t_len == t.len(),
                produced@.len() == t.len(),
                k <= t_len,
                r@.len() == k,
                forall|k2: int| 0 <= k2 < k && (#[trigger] produced@[k2]) is Some ==> r@[k2] == produced@[k2]->Some_0,
            decreases t_len - k,
        {
            match produced[k] {
                Some(p) => r.push(p),
                None => r.push(0),
            }
            k = k + 1;
        }
        proof {
            assert forall|k2: int| 0 <= k2 < r@.len() && (#[trigger] produced@[k2]) is Some implies r@[k2] == consumed_by(
                nodes, t[k2].0@, produced@[k2]->Some_0 as int, 0) by {
            }
        }
        let mut i: usize = 0;
        while i < self.nodes.len()
            invariant
                t == self.tensors.entry_seq(),
                distinct_names(t),
                nodes == self.nodes@,
                i <= nodes.len(),
                produced@.len() == t.len(),
                forall|k2: int| 0 <= k2 < produced@.len() ==> #[trigger] produced@[k2] == produced_by(nodes, t[k2].0@, nodes.len() as int),
                r@.len() == t.len(),
                forall|k2: int| 0 <= k2 < r@.len() && (#[trigger] produced@[k2]) is Some ==> r@[k2] == consumed_by(
                    nodes, t[k2].0@, produced@[k2]->Some_0 as int, i as int),
            decreases nodes.len() - i,
        {
            let ins = &self.nodes[i].inputs;
            let ghost ns = names(ins@);
            let mut j: usize = 0;
            while j < ins.len()
                invariant
                    t == self.tensors.entry_seq(),
                    distinct_names(t),
                    nodes == self.nodes@,
                    i < nodes.len(),
                    ins@ == nodes[i as int].inputs@,
                    ns == names(ins@),
                    j <= ins@.len(),
                    produced@.len() == t.len(),
                    forall|k2: int| 0 <= k2 < produced@.len() ==> #[trigger] produced@[k2] == produced_by(nodes, t[k2].0@, nodes.len() as int),
                    r@.len() == t.len(),
                    forall|k2: int| 0 <= k2 < r@.len() && (#[trigger] produced@[k2]) is Some ==> r@[k2] == if ns.take(j as int).contains(t[k2].0@) {
                        consumed_by(nodes, t[k2].0@, produced@[k2]->Some_0 as int, i + 1)
                    } else {
                        consumed_by(nodes, t[k2].0@, produced@[k2]->Some_0 as int, i as int)
                    },
                decreases ins@.len() - j,
            {
                let found = self.tensors.index_of(ins[j].as_str());
                let ghost before = r@;
                match found {
                    Some(k0) => {
                        match produced[k0] {
                            Some(_) => {
                                if i > r[k0] {
                                    r.set(k0, i);
                                }
                            },
                            None => {},
                        }
                    },
                    None => {},
                }
                proof {
                    assert forall|k2: int| 0 <= k2 < r@.len() && (#[trigger] produced@[k2]) is Some implies r@[k2] == if ns.take(j + 1).contains(t[k2].0@) {
                        consumed_by(nodes, t[k2].0@, produced@[k2]->Some_0 as int, i + 1)
                    } else {
                        consumed_by(nodes, t[k2].0@, produced@[k2]->Some_0 as int, i as int)
                    } by {
                        let name = t[k2].0@;
                        let p = produced@[k2]->Some_0 as int;
                        lemma_take_push_contains(ns, j as int, name);
                        lemma_last_bounds(nodes, name, i as int);
                        lemma_last_bounds(nodes, name, nodes.len() as int);
                        assert(ns[j as int] == ins@[j as int]@);
                        assert(names(nodes[i as int].inputs@) == ns);
                        if ns.take(j + 1).contains(name) {
                            assert(ns.contains(name)) by {
                                let a = choose|a: int| 0 <= a < ns.take(j + 1).len() && #[trigger] ns.take(j + 1)[a] == name;
                                assert(ns[a] == name);
                            }
                        }
                        match found {
                            Some(k0) => {
                                if k2 != k0 {
                                    assert(r@[k2] == before[k2]);
                                    assert(t[k2].0@ != t[k0 as int].0@);
                                }
                            },
                            None => {
                                assert(r@[k2] == before[k2]);
                                assert(t[k2].0@ != ns[j as int]);
                            },
                        }
                    }
                }
                j = j + 1;
            }
            proof {
                assert(ns.take(j as int) =~= ns);
            }
            i = i + 1;
        }
        r
    }
}


impl Graph {
    /// Plan the memory of running the nodes in order: a buffer for every
    /// fixed-shape tensor some node produces, alive from its last producer
    /// to its last consumer, and the peak of the bytes alive at any node
    /// plus the resident weights.
    pub fn memory_plan(&self) -> (plan: MemoryPlan)
        requires
            plan_fits(*self),
        ensures
            forall|name: Seq<char>| #[trigger] plan.lifetimes@.contains_key(name) <==> (self.tensors@.contains_key(name)
                && has_buffer(self.nodes@, name, self.tensors@[name])),
            forall|name: Seq<char>| #[trigger] plan.lifetimes@.contains_key(name) ==> plan.lifetimes@[name] == lifetime_of(
                self.nodes@,
                name,
                self.tensors@[name],
            ),
            plan.peak_bytes == peak_alive(self.nodes@, self.tensors.entry_seq(), self.nodes@.len() as int) + weight_bytes(
                self.weights.entry_seq(),
            ),
            forall|name: Seq<char>| #[trigger] plan.lifetimes@.contains_key(name) ==> {
                &&& plan.lifetimes@[name].produced_at <= plan.lifetimes@[name].consumed_at < self.nodes@.len()
                &&& plan.lifetimes@[name].size_bytes <= plan.peak_bytes
            },
    {
        let ghost t = self.tensors.entry_seq();
        let ghost nodes = self.nodes@;
        let ghost n = nodes.len() as int;
        let n_exec = self.nodes.len();
        let t_len = self.tensors.len();
        let produced = self.producers();
        let consumed = self.consumers(&produced);

        // Buffer sizes, per tensor entry.
        let mut sizes: Vec<Option<usize>> = Vec::new();
        let mut k: usize = 0;
        while k < t_len
            invariant
                t == self.tensors.entry_seq(),
                nodes == self.nodes@,
                n == nodes.len(),
                n == n_exec,
                t_len == t.len(),
                plan_fits(*self),
                produced@.len() == t.len(),
                forall|k2: int| 0 <= k2 < produced@.len() ==> #[trigger] produced@[k2] == produced_by(nodes, t[k2].0@, n),
                k <= t_len,
                sizes@.len() == k,
                forall|k2: int| 0 <= k2 < k ==> #[trigger] sizes@[k2] == if has_buffer(nodes, t[k2].0@, t[k2].1) {
                    Some(buffer_size(t[k2].1) as usize)
                } else {
                    None
                },
            decreases t_len - k,
        {
            let (_, meta) = self.tensors.entry(k);
            let ghost k_i = k as int;
            let size: Option<usize> = match produced[k] {
                Some(_) => match meta.fixed_shape() {
                    Some(d) => {
                        proof {
                            assert(has_buffer(nodes, t[k_i].0@, t[k_i].1));
                            assert(products_fit(spec_fixed_shape(t[k_i].1.shape@)->Some_0));
                        }
                        let count = product_of(&d);
                        proof {
                            assert(buffer_size(t[k_i].1) <= usize::MAX);
                            assert(count * meta.dtype.spec_element_size() == buffer_size(t[k_i].1));
                        }
                        Some(count * meta.dtype.element_size())
                    },
                    None => None,
                },
                None => None,
            };
            sizes.push(size);
            k = k + 1;
        }

        // Lifetimes of the buffers.
        let mut lifetimes: NameMap<BufferLifetime> = NameMap::new();
        let mut k: usize = 0;
        proof {
            assert(t.take(0) =~= Seq::<(String, TensorMeta)>::empty());
        }
        while k < t_len
            invariant
                t == self.tensors.entry_seq(),
                nodes == self.nodes@,
                n == nodes.len(),
                n == n_exec,
                t_len == t.len(),
                produced@.len() == t.len(),
                forall|k2: int| 0 <= k2 < produced@.len() ==> #[trigger] produced@[k2] == produced_by(nodes, t[k2].0@, n),
                consumed@.len() == t.len(),
                forall|k2: int| 0 <= k2 < consumed@.len() && (#[trigger] produced@[k2]) is Some ==> consumed@[k2] == consumed_by(
                    nodes, t[k2].0@, produced@[k2]->Some_0 as int, n),
                sizes@.len() == t.len(),
                forall|k2: int| 0 <= k2 < t.len() ==> #[trigger] sizes@[k2] == if has_buffer(nodes, t[k2].0@, t[k2].1) {
                    Some(buffer_size(t[k2].1) as usize)
                } else {
                    None
                },
                k <= t_len,
                plan_fits(*self),
                lifetimes@ == lifetimes_of(nodes, t.take(k as int)),
            decreases t_len - k,
        {
            let ghost k_i = k as int;
            proof {
                assert(t.take(k_i + 1).drop_last() =~= t.take(k_i));
                assert(t.take(k_i + 1).last() == t[k_i]);
            }
            match sizes[k] {
                Some(sz) => {
                    let (name, _) = self.tensors.entry(k);
                    let p = match produced[k] {
                        Some(p) => p,
                        None => 0,
                    };
                    proof {
                        lemma_last_bounds(nodes, t[k_i].0@, n);
                        assert(has_buffer(nodes, t[k_i].0@, t[k_i].1));
                        assert(produced@[k_i] is Some);
                        assert(p == last_producer(nodes, t[k_i].0@, n));
                        assert(consumed@[k_i] == consumed_by(nodes, t[k_i].0@, p as int, n));
                        assert(sz == buffer_size(t[k_i].1));
                        assert(lifetime_of(nodes, t[k_i].0@, t[k_i].1) == BufferLifetime {
                            produced_at: p,
                            consumed_at: consumed@[k_i],
                            size_bytes: sz,
                        });
                    }
                    lifetimes.insert(owned(name.as_str()), BufferLifetime { produced_at: p, consumed_at: consumed[k], size_bytes: sz });
                },
                None => {},
            }
            k = k + 1;
        }
        proof {
            assert(t.take(t_len as int) =~= t);
            assert forall|name: Seq<char>| #[trigger] lifetimes@.contains_key(name) <==> (self.tensors@.contains_key(name)
                && has_buffer(nodes, name, self.tensors@[name])) by {
                lemma_lifetimes_of(nodes, t, name);
            }
            assert forall|name: Seq<char>| #[trigger] lifetimes@.contains_key(name) implies lifetimes@[name] == lifetime_of(
                nodes, name, self.tensors@[name]) by {
                lemma_lifetimes_of(nodes, t, name);
            }
        }

        // Peak of the bytes alive at each node.
        let mut peak: usize = 0;
        let mut i: usize = 0;
        while i < self.nodes.len()
            invariant
                t == self.tensors.entry_seq(),
                nodes == self.nodes@,
                n == nodes.len(),
                n == n_exec,
                t_len == t.len(),
                plan_fits(*self),
                produced@.len() == t.len(),
                forall|k2: int| 0 <= k2 < produced@.len() ==> #[trigger] produced@[k2] == produced_by(nodes, t[k2].0@, n),
                consumed@.len() == t.len(),
                forall|k2: int| 0 <= k2 < consumed@.len() && (#[trigger] produced@[k2]) is Some ==> consumed@[k2] == consumed_by(
                    nodes, t[k2].0@, produced@[k2]->Some_0 as int, n),
                sizes@.len() == t.len(),
                forall|k2: int| 0 <= k2 < t.len() ==> #[trigger] sizes@[k2] == if has_buffer(nodes, t[k2].0@, t[k2].1) {
                    Some(buffer_size(t[k2].1) as usize)
                } else {
                    None
                },
                i <= n,
                peak == peak_alive(nodes, t, i as int),
            decreases n - i,
        {
            let mut alive_now: usize = 0;
            let mut k: usize = 0;
            proof {
                assert(t.take(0) =~= Seq::<(String, TensorMeta)>::empty());
            }
            while k < t_len
                invariant
                    t == self.tensors.entry_seq(),
                    nodes == self.nodes@,
                    n == nodes.len(),
                    n == n_exec,
                n == n_exec,
                    t_len == t.len(),
                    plan_fits(*self),
                    i < n,
                    produced@.len() == t.len(),
                    forall|k2: int| 0 <= k2 < produced@.len() ==> #[trigger] produced@[k2] == produced_by(nodes, t[k2].0@, n),
                    consumed@.len() == t.len(),
                    forall|k2: int| 0 <= k2 < consumed@.len() && (#[trigger] produced@[k2]) is Some ==> consumed@[k2] == consumed_by(
                        nodes, t[k2].0@, produced@[k2]->Some_0 as int, n),
                    sizes@.len() == t.len(),
                    forall|k2: int| 0 <= k2 < t.len() ==> #[trigger] sizes@[k2] == if has_buffer(nodes, t[k2].0@, t[k2].1) {
                        Some(buffer_size(t[k2].1) as usize)
                    } else {
                        None
                    },
                    k <= t_len,
                    alive_now == alive_bytes(nodes, t.take(k as int), i as int),
                decreases t_len - k,
            {
                let ghost k_i = k as int;
                proof {
                    lemma_alive_prefix(nodes, t, k_i + 1, i as int);
                    lemma_alive_prefix(nodes, t, k_i, i as int);
                    assert(t.take(k_i + 1).last() == t[k_i]);
                    assert(alive_bytes(nodes, t, i as int) <= usize::MAX);
                }
                match sizes[k] {
                    Some(sz) => {
                        let p = match produced[k] {
                            Some(p) => p,
                            None => 0,
                        };
                        proof {
                            lemma_last_bounds(nodes, t[k_i].0@, n);
                            assert(produced@[k_i] is Some);
                        }
                        if p <= i && i <= consumed[k] {
                            alive_now = alive_now + sz;
                        }
                    },
                    None => {},
                }
                k = k + 1;
            }
            proof {
                assert(t.take(t_len as int) =~= t);
            }
            if alive_now > peak {
                peak = alive_now;
            }
            i = i + 1;
        }

        // Resident weights.
        let ghost w = self.weights.entry_seq();
        let w_len = self.weights.len();
        let mut wsum: usize = 0;
        let mut k: usize = 0;
        proof {
            assert(w.take(0) =~= Seq::<(String, WeightData)>::empty());
        }
        while k < w_len
            invariant
                w == self.weights.entry_seq(),
                w_len == w.len(),
                plan_fits(*self),
                t == self.tensors.entry_seq(),
                nodes == self.nodes@,
                n == nodes.len(),
                n == n_exec,
                peak == peak_alive(nodes, t, n),
                k <= w_len,
                wsum == weight_bytes(w.take(k as int)),
            decreases w_len - k,
        {
            proof {
                lemma_weight_prefix(w, k as int + 1);
                lemma_weight_prefix(w, k as int);
                assert(w.take(k as int + 1).last() == w[k as int]);
            }
            let (_, wd) = self.weights.entry(k);
            wsum = wsum + wd.data.len();
            k = k + 1;
        }
        proof {
            assert(w.take(w_len as int) =~= w);
            assert forall|name: Seq<char>| #[trigger] lifetimes@.contains_key(name) implies {
                &&& lifetimes@[name].produced_at <= lifetimes@[name].consumed_at < n
                &&& lifetimes@[name].size_bytes <= peak + wsum
            } by {
                lemma_lifetimes_of(nodes, t, name);
                lemma_entries_map_dom(t, name);
                let k = choose|k: int| 0 <= k < t.len() && (#[trigger] t[k]).0@ == name;
                lemma_entries_map_index(t, k);
                lemma_last_bounds(nodes, name, n);
                let l = lifetime_of(nodes, name, t[k].1);
                assert(alive(l, l.produced_at as int));
                lemma_alive_covers_entry(nodes, t, l.produced_at as int, k);
                lemma_peak_covers(nodes, t, n, l.produced_at as int);
            }
        }
        MemoryPlan { lifetimes, peak_bytes: peak + wsum }
    }
}

} // verus!
