//! A text summary of a graph: node and weight counts, how often each op
//! occurs (most frequent first), and the stateful nodes.

use vstd::prelude::*;
use crate::ggml::texts;
use crate::graph::{Graph, Node};
use crate::text::{append_decimal, append_str, owned, spec_decimal, str_eq};

verus! {

/// The op names of the nodes, in order.
pub open spec fn op_names(nodes: Seq<Node>) -> Seq<Seq<char>> {
    nodes.map_values(|n: Node| n.op.spec_name())
}

/// The first position of `k` among the names of `t`.
pub open spec fn tally_index(t: Seq<(Seq<char>, nat)>, k: Seq<char>) -> Option<int>
    decreases t.len(),
{
    if t.len() == 0 {
        None
    } else {
        match tally_index(t.drop_last(), k) {
            Some(i) => Some(i),
            None => if t.last().0 == k {
                Some(t.len() - 1)
            } else {
                None
            },
        }
    }
}

/// Each distinct name with the number of times it occurs, in order of
/// first occurrence.
pub open spec fn tally(names: Seq<Seq<char>>) -> Seq<(Seq<char>, nat)>
    decreases names.len(),
{
    if names.len() == 0 {
        Seq::empty()
    } else {
        let t = tally(names.drop_last());
        let k = names.last();
        match tally_index(t, k) {
            Some(i) => t.update(i, (k, t[i].1 + 1)),
            None => t.push((k, 1)),
        }
    }
}

/// The entries of `t` with count `c`, in order.
pub open spec fn with_count(t: Seq<(Seq<char>, nat)>, c: nat) -> Seq<(Seq<char>, nat)>
    decreases t.len(),
{
    if t.len() == 0 {
        Seq::empty()
    } else if t.last().1 == c {
        with_count(t.drop_last(), c).push(t.last())
    } else {
        with_count(t.drop_last(), c)
    }
}

/// The entries of `t` with counts `c` down to 1: most frequent first, ties
/// in the order of `t`.
pub open spec fn by_count(t: Seq<(Seq<char>, nat)>, c: nat) -> Seq<(Seq<char>, nat)>
    decreases c,
{
    if c == 0 {
        Seq::empty()
    } else {
        with_count(t, c) + by_count(t, (c - 1) as nat)
    }
}

/// The op counts of a graph of `n` nodes: most frequent first, ties in
/// order of first occurrence.
pub open spec fn op_counts_spec(nodes: Seq<Node>) -> Seq<(Seq<char>, nat)> {
    by_count(tally(op_names(nodes)), nodes.len())
}

/// The number of stateful nodes.
pub open spec fn stateful_count(nodes: Seq<Node>) -> nat
    decreases nodes.len(),
{
    if nodes.len() == 0 {
        0
    } else {
        stateful_count(nodes.drop_last()) + if nodes.last().op.spec_is_stateful() {
            1nat
        } else {
            0nat
        }
    }
}

/// One line per op: `  name: count`.
pub open spec fn count_lines(t: Seq<(Seq<char>, nat)>) -> Seq<char>
    decreases t.len(),
{
    if t.len() == 0 {
        Seq::empty()
    } else {
        count_lines(t.drop_last()) + "  "@ + t.last().0 + ": "@ + spec_decimal(t.last().1) + "\n"@
    }
}

/// The summary text.
pub open spec fn summary_text(g: Graph) -> Seq<char> {
    "Graph: "@ + spec_decimal(g.nodes@.len()) + " nodes, "@ + spec_decimal(g.weights@.len()) + " weights\n"@
        + count_lines(op_counts_spec(g.nodes@)) + (if stateful_count(g.nodes@) > 0 {
        "  Stateful ops: "@ + spec_decimal(stateful_count(g.nodes@)) + " (KV cache nodes)\n"@
    } else {
        Seq::empty()
    })
}

/// The names and counts.
pub open spec fn tally_view(v: Seq<(&'static str, usize)>) -> Seq<(Seq<char>, nat)> {
    v.map_values(|e: (&'static str, usize)| (e.0@, e.1 as nat))
}

proof fn lemma_tally_bounds(names: Seq<Seq<char>>)
    ensures
        forall|i: int| 0 <= i < tally(names).len() ==> 1 <= #[trigger] tally(names)[i].1 <= names.len(),
        tally(names).len() <= names.len(),
    decreases names.len(),
{
    if names.len() > 0 {
        lemma_tally_bounds(names.drop_last());
        let t = tally(names.drop_last());
        lemma_tally_index(t, names.last());
    }
}

proof fn lemma_tally_index(t: Seq<(Seq<char>, nat)>, k: Seq<char>)
    ensures
        tally_index(t, k) matches Some(i) ==> 0 <= i < t.len() && t[i].0 == k,
        tally_index(t, k) is None ==> forall|i: int| 0 <= i < t.len() ==> (#[trigger] t[i]).0 != k,
    decreases t.len(),
{
    if t.len() > 0 {
        lemma_tally_index(t.drop_last(), k);
        assert forall|i: int| 0 <= i < t.len() - 1 implies #[trigger] t[i] == t.drop_last()[i] by {}
    }
}

impl Graph {
    /// Each op name of the nodes with its number of occurrences.
    fn op_tally(&self) -> (r: Vec<(&'static str, usize)>)
        ensures
            tally_view(r@) == tally(op_names(self.nodes@)),
    {
        let ghost names = op_names(self.nodes@);
        let mut t: Vec<(&'static str, usize)> = Vec::new();
        let mut i: usize = 0;
        let n = self.nodes.len();
        proof {
            assert(names.take(0) =~= Seq::<Seq<char>>::empty());
            assert(tally_view(t@) =~= Seq::<(Seq<char>, nat)>::empty());
        }
        while i < n
            invariant
                n == self.nodes@.len(),
                names == op_names(self.nodes@),
                i <= n,
                tally_view(t@) == tally(names.take(i as int)),
            decreases n - i,
        {
            let name = self.nodes[i].op.name();
            let ghost pre = names.take(i as int);
            let ghost tv = tally_view(t@);
            proof {
                assert(names.take(i + 1).drop_last() =~= pre);
                assert(names.take(i + 1).last() == name@);
                lemma_tally_bounds(pre);
                lemma_tally_index(tv, name@);
            }
            let mut j: usize = 0;
            let mut hit: Option<usize> = None;
            while j < t.len()
                invariant_except_break
                    hit is None,
                invariant
                    j <= t@.len(),
                    tv == tally_view(t@),
                    forall|l: int| 0 <= l < j ==> (#[trigger] t@[l]).0@ != name@,
                ensures
                    hit matches Some(h) ==> h < t@.len() && t@[h as int].0@ == name@ && forall|l: int|
                        0 <= l < h ==> (#[trigger] t@[l]).0@ != name@,
                    hit is None ==> forall|l: int| 0 <= l < t@.len() ==> (#[trigger] t@[l]).0@ != name@,
                decreases t@.len() - j,
            {
                if str_eq(t[j].0, name) {
                    hit = Some(j);
                    break;
                }
                j = j + 1;
            }
            match hit {
                Some(h) => {
                    proof {
                        assert forall|l: int| 0 <= l < h implies (#[trigger] tv[l]).0 != name@ by {
                            assert(tv[l] == (t@[l].0@, t@[l].1 as nat));
                        }
                        assert(tally_index(tv, name@) == Some(h as int)) by {
                            lemma_first_hit(tv, name@, h as int);
                        }
                        assert(tv[h as int].1 <= i);
                    }
                    let c = t[h].1;
                    t.set(h, (name, c + 1));
                },
                None => {
                    proof {
                        assert forall|l: int| 0 <= l < tv.len() implies (#[trigger] tv[l]).0 != name@ by {
                            assert(tv[l] == (t@[l].0@, t@[l].1 as nat));
                        }
                        lemma_no_hit(tv, name@);
                    }
                    t.push((name, 1));
                },
            }
            proof {
                assert(tally_view(t@) =~= tally(names.take(i + 1)));
            }
            i = i + 1;
        }
        proof {
            assert(names.take(n as int) =~= names);
        }
        t
    }

    /// Each op name of the nodes with its number of occurrences, most
    /// frequent first; ties keep the order in which the ops first occur.
    pub fn op_counts(&self) -> (r: Vec<(&'static str, usize)>)
        ensures
            tally_view(r@) == op_counts_spec(self.nodes@),
    {
        let t = self.op_tally();
        let ghost tv = tally_view(t@);
        let n = self.nodes.len();
        let mut out: Vec<(&'static str, usize)> = Vec::new();
        let mut c: usize = n;
        proof {
            assert(tally_view(out@) + by_count(tv, c as nat) =~= by_count(tv, c as nat));
        }
        while c > 0
            invariant
                tv == tally_view(t@),
                n == self.nodes@.len(),
                c <= n,
                by_count(tv, n as nat) == tally_view(out@) + by_count(tv, c as nat),
            decreases c,
        {
            let ghost base = tally_view(out@);
            let mut j: usize = 0;
            proof {
                assert(tv.take(0) =~= Seq::<(Seq<char>, nat)>::empty());
                assert(base + with_count(tv.take(0), c as nat) =~= base);
            }
            while j < t.len()
                invariant
                    tv == tally_view(t@),
                    j <= t@.len(),
                    tally_view(out@) == base + with_count(tv.take(j as int), c as nat),
                decreases t@.len() - j,
            {
                proof {
                    assert(tv.take(j + 1).drop_last() =~= tv.take(j as int));
                    assert(tv.take(j + 1).last() == tv[j as int]);
                }
                if t[j].1 == c {
                    let ghost before = out@;
                    out.push(t[j]);
                    proof {
                        assert(tv[j as int] == (t@[j as int].0@, t@[j as int].1 as nat));
                        assert(tally_view(out@) =~= tally_view(before).push(tv[j as int]));
                        assert(with_count(tv.take(j + 1), c as nat) == with_count(tv.take(j as int), c as nat).push(
                            tv[j as int],
                        ));
                        assert(tally_view(out@) =~= base + with_count(tv.take(j + 1), c as nat));
                    }
                } else {
                    proof {
                        assert(tv[j as int] == (t@[j as int].0@, t@[j as int].1 as nat));
                    }
                }
                j = j + 1;
            }
            proof {
                assert(tv.take(j as int) =~= tv);
                assert(by_count(tv, c as nat) == with_count(tv, c as nat) + by_count(tv, (c - 1) as nat));
                assert(tally_view(out@) + by_count(tv, (c - 1) as nat) =~= base + by_count(tv, c as nat));
            }
            c = c - 1;
        }
        proof {
            assert(tally_view(out@) + Seq::<(Seq<char>, nat)>::empty() =~= tally_view(out@));
        }
        out
    }

    /// A text summary: node and weight counts, each op with its count
    /// (most frequent first), and the number of stateful nodes when there
    /// are any.
    pub fn summary(&self) -> (r: String)
        ensures
            r@ == summary_text(*self),
    {
        let counts = self.op_counts();
        let ghost cv = tally_view(counts@);
        let mut s = owned("Graph: ");
        append_decimal(&mut s, self.nodes.len());
        append_str(&mut s, " nodes, ");
        append_decimal(&mut s, self.weights.len());
        append_str(&mut s, " weights\n");
        let ghost head = s@;
        let mut i: usize = 0;
        proof {
            assert(cv.take(0) =~= Seq::<(Seq<char>, nat)>::empty());
            assert(s@ =~= head + count_lines(cv.take(0)));
        }
        while i < counts.len()
            invariant
                cv == tally_view(counts@),
                i <= counts@.len(),
                s@ == head + count_lines(cv.take(i as int)),
            decreases counts@.len() - i,
        {
            let (op, c) = counts[i];
            append_str(&mut s, "  ");
            append_str(&mut s, op);
            append_str(&mut s, ": ");
            append_decimal(&mut s, c);
            append_str(&mut s, "\n");
            proof {
                assert(cv.take(i + 1).drop_last() =~= cv.take(i as int));
                assert(cv.take(i + 1).last() == cv[i as int]);
                assert(s@ =~= head + count_lines(cv.take(i + 1)));
            }
            i = i + 1;
        }
        proof {
            assert(cv.take(i as int) =~= cv);
        }
        let ghost body = s@;
        let k = self.stateful_count_exec();
        if k > 0 {
            append_str(&mut s, "  Stateful ops: ");
            append_decimal(&mut s, k);
            append_str(&mut s, " (KV cache nodes)\n");
            proof {
                assert(s@ =~= summary_text(*self));
            }
        } else {
            proof {
                assert(s@ =~= summary_text(*self));
            }
        }
        s
    }

    /// The number of stateful nodes.
    fn stateful_count_exec(&self) -> (r: usize)
        ensures
            r == stateful_count(self.nodes@),
    {
        let n = self.nodes.len();
        let mut k: usize = 0;
        let mut i: usize = 0;
        proof {
            assert(self.nodes@.take(0) =~= Seq::<Node>::empty());
        }
        while i < n
            invariant
                n == self.nodes@.len(),
                i <= n,
                k == stateful_count(self.nodes@.take(i as int)),
                k <= i,
            decreases n - i,
        {
            proof {
                assert(self.nodes@.take(i + 1).drop_last() =~= self.nodes@.take(i as int));
            }
            if self.nodes[i].op.is_stateful() {
                k = k + 1;
            }
            i = i + 1;
        }
        proof {
            assert(self.nodes@.take(n as int) =~= self.nodes@);
        }
        k
    }
}


proof fn lemma_with_count_counts(t: Seq<(Seq<char>, nat)>, c: nat)
    ensures
        forall|i: int| 0 <= i < with_count(t, c).len() ==> #[trigger] with_count(t, c)[i].1 == c,
    decreases t.len(),
{
    if t.len() > 0 {
        lemma_with_count_counts(t.drop_last(), c);
        let prev = with_count(t.drop_last(), c);
        if t.last().1 == c {
            assert forall|i: int| 0 <= i < with_count(t, c).len() implies #[trigger] with_count(t, c)[i].1 == c by {
                if i < prev.len() {
                    assert(with_count(t, c)[i] == prev[i]);
                }
            }
        }
    }
}

proof fn lemma_by_count_sorted(t: Seq<(Seq<char>, nat)>, c: nat)
    ensures
        forall|i: int| 0 <= i < by_count(t, c).len() ==> 1 <= #[trigger] by_count(t, c)[i].1 <= c,
        forall|i: int, j: int| 0 <= i < j < by_count(t, c).len() ==> #[trigger] by_count(t, c)[i].1 >= #[trigger] by_count(
            t,
            c,
        )[j].1,
    decreases c,
{
    if c > 0 {
        let w = with_count(t, c);
        let rest = by_count(t, (c - 1) as nat);
        lemma_with_count_counts(t, c);
        lemma_by_count_sorted(t, (c - 1) as nat);
        let r = by_count(t, c);
        assert(r == w + rest);
        assert forall|i: int| 0 <= i < r.len() implies 1 <= #[trigger] r[i].1 <= c by {
            if i < w.len() {
                assert(r[i] == w[i]);
            } else {
                assert(r[i] == rest[i - w.len()]);
            }
        }
        assert forall|i: int, j: int| 0 <= i < j < r.len() implies #[trigger] r[i].1 >= #[trigger] r[j].1 by {
            if j < w.len() {
                assert(r[i] == w[i]);
                assert(r[j] == w[j]);
            } else if i < w.len() {
                assert(r[i] == w[i]);
                assert(r[j] == rest[j - w.len()]);
            } else {
                assert(r[i] == rest[i - w.len()]);
                assert(r[j] == rest[j - w.len()]);
            }
        }
    }
}

/// The op counts of a summary come most frequent first, and each op
/// occurs at least once.
pub proof fn lemma_op_counts_sorted(nodes: Seq<Node>)
    ensures
        forall|i: int| 0 <= i < op_counts_spec(nodes).len() ==> #[trigger] op_counts_spec(nodes)[i].1 >= 1,
        forall|i: int, j: int|
            0 <= i < j < op_counts_spec(nodes).len() ==> #[trigger] op_counts_spec(nodes)[i].1
                >= #[trigger] op_counts_spec(nodes)[j].1,
{
    lemma_by_count_sorted(tally(op_names(nodes)), nodes.len());
}


/// How often `k` occurs among the names.
pub open spec fn occurrences(names: Seq<Seq<char>>, k: Seq<char>) -> nat
    decreases names.len(),
{
    if names.len() == 0 {
        0
    } else {
        occurrences(names.drop_last(), k) + if names.last() == k {
            1nat
        } else {
            0nat
        }
    }
}

/// The names of the tally are distinct.
pub open spec fn distinct_tally(t: Seq<(Seq<char>, nat)>) -> bool {
    forall|i: int, j: int| 0 <= i < j < t.len() ==> (#[trigger] t[i]).0 != (#[trigger] t[j]).0
}

proof fn lemma_tally_exact(names: Seq<Seq<char>>)
    ensures
        distinct_tally(tally(names)),
        forall|i: int| 0 <= i < tally(names).len() ==> #[trigger] tally(names)[i].1 == occurrences(names, tally(names)[i].0),
        forall|k: Seq<char>| #[trigger] tally_index(tally(names), k) is None ==> occurrences(names, k) == 0,
    decreases names.len(),
{
    if names.len() > 0 {
        let prev = names.drop_last();
        let k = names.last();
        let t = tally(prev);
        lemma_tally_exact(prev);
        lemma_tally_index(t, k);
        let t2 = tally(names);
        match tally_index(t, k) {
            Some(h) => {
                assert(t2 == t.update(h, (k, t[h].1 + 1)));
                assert forall|i: int| 0 <= i < t2.len() implies #[trigger] t2[i].1 == occurrences(names, t2[i].0) by {
                    if i != h {
                        assert(t2[i] == t[i]);
                        assert(t[i].0 != t[h].0);
                    }
                }
                assert forall|k2: Seq<char>| #[trigger] tally_index(t2, k2) is None implies occurrences(names, k2) == 0 by {
                    lemma_tally_index(t2, k2);
                    lemma_tally_index(t, k2);
                    assert(t2[h].0 == k);
                    if let Some(g) = tally_index(t, k2) {
                        assert(t2[g].0 == t[g].0);
                    }
                }
                assert forall|i: int, j: int| 0 <= i < j < t2.len() implies (#[trigger] t2[i]).0 != (#[trigger] t2[j]).0 by {
                    assert(t2[i].0 == t[i].0);
                    assert(t2[j].0 == t[j].0);
                }
            },
            None => {
                assert(t2 == t.push((k, 1)));
                assert forall|i: int| 0 <= i < t2.len() implies #[trigger] t2[i].1 == occurrences(names, t2[i].0) by {
                    if i < t.len() {
                        assert(t2[i] == t[i]);
                    }
                }
                assert forall|k2: Seq<char>| #[trigger] tally_index(t2, k2) is None implies occurrences(names, k2) == 0 by {
                    lemma_tally_index(t2, k2);
                    lemma_tally_index(t, k2);
                    assert(t2[t.len() as int].0 == k);
                    if let Some(g) = tally_index(t, k2) {
                        assert(t2[g] == t[g]);
                    }
                }
                assert forall|i: int, j: int| 0 <= i < j < t2.len() implies (#[trigger] t2[i]).0 != (#[trigger] t2[j]).0 by {
                    assert(t2[i] == t[i]);
                    if j < t.len() {
                        assert(t2[j] == t[j]);
                    }
                }
            },
        }
    }
}

proof fn lemma_with_count_from(t: Seq<(Seq<char>, nat)>, c: nat)
    ensures
        forall|i: int| 0 <= i < with_count(t, c).len() ==> exists|j: int| 0 <= j < t.len() && t[j] == #[trigger] with_count(t, c)[i],
    decreases t.len(),
{
    if t.len() > 0 {
        lemma_with_count_from(t.drop_last(), c);
        let prev = with_count(t.drop_last(), c);
        let w = with_count(t, c);
        assert forall|i: int| 0 <= i < w.len() implies exists|j: int| 0 <= j < t.len() && t[j] == #[trigger] w[i] by {
            if i < prev.len() {
                assert(w[i] == prev[i]);
                let j = choose|j: int| 0 <= j < t.drop_last().len() && t.drop_last()[j] == prev[i];
                assert(t[j] == t.drop_last()[j]);
            } else {
                assert(w[i] == t.last());
                assert(t[t.len() - 1] == t.last());
            }
        }
    }
}

proof fn lemma_by_count_from(t: Seq<(Seq<char>, nat)>, c: nat)
    ensures
        forall|i: int| 0 <= i < by_count(t, c).len() ==> exists|j: int| 0 <= j < t.len() && t[j] == #[trigger] by_count(t, c)[i],
    decreases c,
{
    if c > 0 {
        lemma_with_count_from(t, c);
        lemma_by_count_from(t, (c - 1) as nat);
        let w = with_count(t, c);
        let rest = by_count(t, (c - 1) as nat);
        let r = by_count(t, c);
        assert forall|i: int| 0 <= i < r.len() implies exists|j: int| 0 <= j < t.len() && t[j] == #[trigger] r[i] by {
            if i < w.len() {
                assert(r[i] == w[i]);
            } else {
                assert(r[i] == rest[i - w.len()]);
            }
        }
    }
}

/// Each op count of a summary is the number of nodes with that op.
pub proof fn lemma_op_counts_exact(nodes: Seq<Node>)
    ensures
        forall|i: int|
            0 <= i < op_counts_spec(nodes).len() ==> #[trigger] op_counts_spec(nodes)[i].1 == occurrences(
                op_names(nodes),
                op_counts_spec(nodes)[i].0,
            ),
{
    let t = tally(op_names(nodes));
    lemma_tally_exact(op_names(nodes));
    lemma_by_count_from(t, nodes.len());
    let r = op_counts_spec(nodes);
    assert forall|i: int| 0 <= i < r.len() implies #[trigger] r[i].1 == occurrences(op_names(nodes), r[i].0) by {
        let j = choose|j: int| 0 <= j < t.len() && t[j] == r[i];
        assert(t[j].1 == occurrences(op_names(nodes), t[j].0));
    }
}


proof fn lemma_occurs(names: Seq<Seq<char>>, m: int)
    requires
        0 <= m < names.len(),
    ensures
        occurrences(names, names[m]) >= 1,
    decreases names.len(),
{
    if m < names.len() - 1 {
        lemma_occurs(names.drop_last(), m);
        assert(names.drop_last()[m] == names[m]);
    }
}

proof fn lemma_with_count_has(t: Seq<(Seq<char>, nat)>, j: int)
    requires
        0 <= j < t.len(),
    ensures
        exists|i: int| 0 <= i < with_count(t, t[j].1).len() && #[trigger] with_count(t, t[j].1)[i] == t[j],
    decreases t.len(),
{
    let c = t[j].1;
    if j < t.len() - 1 {
        lemma_with_count_has(t.drop_last(), j);
        assert(t.drop_last()[j] == t[j]);
        let prev = with_count(t.drop_last(), c);
        let i = choose|i: int| 0 <= i < prev.len() && #[trigger] prev[i] == t[j];
        assert(with_count(t, c)[i] == prev[i]);
    } else {
        let prev = with_count(t.drop_last(), c);
        assert(with_count(t, c)[prev.len() as int] == t[j]);
    }
}

proof fn lemma_by_count_has(t: Seq<(Seq<char>, nat)>, j: int, c: nat)
    requires
        0 <= j < t.len(),
        1 <= t[j].1 <= c,
    ensures
        exists|i: int| 0 <= i < by_count(t, c).len() && #[trigger] by_count(t, c)[i] == t[j],
    decreases c,
{
    let w = with_count(t, c);
    let rest = by_count(t, (c - 1) as nat);
    assert(by_count(t, c) == w + rest);
    if t[j].1 == c {
        lemma_with_count_has(t, j);
        let i = choose|i: int| 0 <= i < w.len() && #[trigger] w[i] == t[j];
        assert(by_count(t, c)[i] == w[i]);
    } else {
        lemma_by_count_has(t, j, (c - 1) as nat);
        let i = choose|i: int| 0 <= i < rest.len() && #[trigger] rest[i] == t[j];
        assert(by_count(t, c)[w.len() + i] == rest[i]);
    }
}

/// Every op of the graph appears in the op counts of its summary.
pub proof fn lemma_op_counts_cover(nodes: Seq<Node>, m: int)
    requires
        0 <= m < nodes.len(),
    ensures
        exists|i: int| 0 <= i < op_counts_spec(nodes).len() && (#[trigger] op_counts_spec(nodes)[i]).0 == nodes[m].op.spec_name(),
{
    let names = op_names(nodes);
    let t = tally(names);
    let k = names[m];
    lemma_tally_exact(names);
    lemma_tally_bounds(names);
    lemma_occurs(names, m);
    lemma_tally_index(t, k);
    let h = tally_index(t, k)->0;
    lemma_by_count_has(t, h, nodes.len());
    let i = choose|i: int| 0 <= i < by_count(t, nodes.len()).len() && #[trigger] by_count(t, nodes.len())[i] == t[h];
    assert(op_counts_spec(nodes)[i].0 == k);
}

proof fn lemma_first_hit(t: Seq<(Seq<char>, nat)>, k: Seq<char>, h: int)
    requires
        0 <= h < t.len(),
        t[h].0 == k,
        forall|l: int| 0 <= l < h ==> (#[trigger] t[l]).0 != k,
    ensures
        tally_index(t, k) == Some(h),
    decreases t.len(),
{
    if h < t.len() - 1 {
        lemma_first_hit(t.drop_last(), k, h);
    } else {
        lemma_no_hit(t.drop_last(), k);
    }
}

proof fn lemma_no_hit(t: Seq<(Seq<char>, nat)>, k: Seq<char>)
    requires
        forall|l: int| 0 <= l < t.len() ==> (#[trigger] t[l]).0 != k,
    ensures
        tally_index(t, k) is None,
    decreases t.len(),
{
    if t.len() > 0 {
        assert forall|l: int| 0 <= l < t.len() - 1 implies (#[trigger] t.drop_last()[l]).0 != k by {
            assert(t.drop_last()[l] == t[l]);
        }
        lemma_no_hit(t.drop_last(), k);
    }
}

/// The names and counts of owned entries.
pub open spec fn owned_tally_view(v: Seq<(String, usize)>) -> Seq<(Seq<char>, nat)> {
    v.map_values(|e: (String, usize)| (e.0@, e.1 as nat))
}

/// Each distinct name with its number of occurrences, in order of first
/// occurrence.
fn tally_names(names: &Vec<String>) -> (r: Vec<(String, usize)>)
    ensures
        owned_tally_view(r@) == tally(texts(names@)),
{
    let ghost all = texts(names@);
    let mut t: Vec<(String, usize)> = Vec::new();
    let mut i: usize = 0;
    let n = names.len();
    proof {
        assert(all.take(0) =~= Seq::<Seq<char>>::empty());
        assert(owned_tally_view(t@) =~= Seq::<(Seq<char>, nat)>::empty());
    }
    while i < n
        invariant
            n == names@.len(),
            all == texts(names@),
            i <= n,
            owned_tally_view(t@) == tally(all.take(i as int)),
        decreases n - i,
    {
        let name = names[i].as_str();
        let ghost pre = all.take(i as int);
        let ghost tv = owned_tally_view(t@);
        proof {
            assert(all.take(i + 1).drop_last() =~= pre);
            assert(all.take(i + 1).last() == name@);
            lemma_tally_bounds(pre);
            lemma_tally_index(tv, name@);
        }
        let mut j: usize = 0;
        let mut hit: Option<usize> = None;
        while j < t.len()
            invariant_except_break
                hit is None,
            invariant
                j <= t@.len(),
                tv == owned_tally_view(t@),
                forall|l: int| 0 <= l < j ==> (#[trigger] t@[l]).0@ != name@,
            ensures
                hit matches Some(h) ==> h < t@.len() && t@[h as int].0@ == name@ && forall|l: int|
                    0 <= l < h ==> (#[trigger] t@[l]).0@ != name@,
                hit is None ==> forall|l: int| 0 <= l < t@.len() ==> (#[trigger] t@[l]).0@ != name@,
            decreases t@.len() - j,
        {
            if str_eq(t[j].0.as_str(), name) {
                hit = Some(j);
                break;
            }
            j = j + 1;
        }
        match hit {
            Some(h) => {
                proof {
                    assert forall|l: int| 0 <= l < h implies (#[trigger] tv[l]).0 != name@ by {
                        assert(tv[l] == (t@[l].0@, t@[l].1 as nat));
                    }
                    assert(tally_index(tv, name@) == Some(h as int)) by {
                        lemma_first_hit(tv, name@, h as int);
                    }
                    assert(tv[h as int].1 <= i);
                }
                let c = t[h].1;
                let k = t[h].0.clone();
                t.set(h, (k, c + 1));
            },
            None => {
                proof {
                    assert forall|l: int| 0 <= l < tv.len() implies (#[trigger] tv[l]).0 != name@ by {
                        assert(tv[l] == (t@[l].0@, t@[l].1 as nat));
                    }
                    lemma_no_hit(tv, name@);
                }
                t.push((owned(name), 1));
            },
        }
        proof {
            assert(owned_tally_view(t@) =~= tally(all.take(i + 1)));
        }
        i = i + 1;
    }
    proof {
        assert(all.take(n as int) =~= all);
    }
    t
}

/// Each distinct name of `names` with its number of occurrences, most
/// frequent first; ties keep the order in which the names first occur.
/// (The operator counts of a model file summary.)
pub fn name_counts(names: &Vec<String>) -> (r: Vec<(String, usize)>)
    ensures
        owned_tally_view(r@) == by_count(tally(texts(names@)), names@.len()),
{
    let t = tally_names(names);
    let ghost tv = owned_tally_view(t@);
    let n = names.len();
    let mut out: Vec<(String, usize)> = Vec::new();
    let mut c: usize = n;
    proof {
        assert(owned_tally_view(out@) + by_count(tv, c as nat) =~= by_count(tv, c as nat));
    }
    while c > 0
        invariant
            tv == owned_tally_view(t@),
            n == names@.len(),
            c <= n,
            by_count(tv, n as nat) == owned_tally_view(out@) + by_count(tv, c as nat),
        decreases c,
    {
        let ghost base = owned_tally_view(out@);
        let mut j: usize = 0;
        proof {
            assert(tv.take(0) =~= Seq::<(Seq<char>, nat)>::empty());
            assert(base + with_count(tv.take(0), c as nat) =~= base);
        }
        while j < t.len()
            invariant
                tv == owned_tally_view(t@),
                j <= t@.len(),
                owned_tally_view(out@) == base + with_count(tv.take(j as int), c as nat),
            decreases t@.len() - j,
        {
            proof {
                assert(tv.take(j + 1).drop_last() =~= tv.take(j as int));
                assert(tv.take(j + 1).last() == tv[j as int]);
                assert(tv[j as int] == (t@[j as int].0@, t@[j as int].1 as nat));
            }
            if t[j].1 == c {
                let ghost before = out@;
                let k = t[j].0.clone();
                out.push((k, c));
                proof {
                    assert(owned_tally_view(out@) =~= owned_tally_view(before).push(tv[j as int]));
                    assert(with_count(tv.take(j + 1), c as nat) == with_count(tv.take(j as int), c as nat).push(
                        tv[j as int],
                    ));
                    assert(owned_tally_view(out@) =~= base + with_count(tv.take(j + 1), c as nat));
                }
            }
            j = j + 1;
        }
        proof {
            assert(tv.take(j as int) =~= tv);
            assert(by_count(tv, c as nat) == with_count(tv, c as nat) + by_count(tv, (c - 1) as nat));
            assert(owned_tally_view(out@) + by_count(tv, (c - 1) as nat) =~= base + by_count(tv, c as nat));
        }
        c = c - 1;
    }
    proof {
        assert(owned_tally_view(out@) + Seq::<(Seq<char>, nat)>::empty() =~= owned_tally_view(out@));
    }
    out
}

/// The name counts come most frequent first, and each is the number of
/// times its name occurs.
pub proof fn lemma_name_counts(names: Seq<Seq<char>>)
    ensures
        forall|i: int, j: int|
            0 <= i < j < by_count(tally(names), names.len()).len() ==> #[trigger] by_count(tally(names), names.len())[i].1
                >= #[trigger] by_count(tally(names), names.len())[j].1,
        forall|i: int|
            0 <= i < by_count(tally(names), names.len()).len() ==> #[trigger] by_count(tally(names), names.len())[i].1
                == occurrences(names, by_count(tally(names), names.len())[i].0),
{
    let t = tally(names);
    lemma_by_count_sorted(t, names.len());
    lemma_tally_exact(names);
    lemma_by_count_from(t, names.len());
    let r = by_count(t, names.len());
    assert forall|i: int| 0 <= i < r.len() implies #[trigger] r[i].1 == occurrences(names, r[i].0) by {
        let j = choose|j: int| 0 <= j < t.len() && t[j] == r[i];
        assert(t[j].1 == occurrences(names, t[j].0));
    }
}

} // verus!
