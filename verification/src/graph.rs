//! Core graph IR types: a typed DAG of operations over named tensors.

use vstd::prelude::*;
use crate::dtype::DType;
use crate::namemap::NameMap;
use crate::ops::{F32Bits, Op};

verus! {

/// Tensor identifier (weight name or intermediate tensor name).
pub type TensorId = String;

/// Attribute value: a typed parameter of an op.
#[derive(Clone, Debug)]
pub enum AttrValue {
    Int(i64),
    Float(F32Bits),
    String(String),
    Ints(Vec<i64>),
    Floats(Vec<F32Bits>),
    Bool(bool),
}

/// Attribute storage for node parameters.
pub type Attrs = NameMap<AttrValue>;

/// Backend hint: prefer a specific backend for this node.
#[derive(Clone, Copy, Debug, PartialEq, Eq, Structural)]
pub enum BackendHint {
    Metal,
    Ane,
    Cuda,
    Wgpu,
    Cpu,
}

/// Shape dimension: fixed, or dynamic (resolved at inference time).
#[derive(Clone, Debug, PartialEq)]
pub enum Dim {
    /// Fixed size known at graph construction time.
    Fixed(usize),
    /// Dynamic dimension resolved at inference time (e.g. "seq_len").
    Dynamic(String),
}

/// Tensor residency: how the tensor lives in memory.
#[derive(Clone, Copy, Debug, PartialEq, Eq, Structural)]
pub enum Residency {
    /// Always in memory (weights, small constants).
    Resident,
    /// Cached across inference calls (KV cache).
    Cached,
    /// Computed and consumed; the buffer is reusable.
    Streamed,
}

/// Buffer lifetime for memory planning.
#[derive(Clone, Copy, Debug)]
pub struct BufferLifetime {
    /// Node index where the buffer is first produced.
    pub produced_at: usize,
    /// Node index where the buffer is last consumed.
    pub consumed_at: usize,
    /// Size in bytes.
    pub size_bytes: usize,
}

/// Memory plan: buffer lifetimes and peak memory.
pub struct MemoryPlan {
    /// Per-tensor buffer lifetime.
    pub lifetimes: NameMap<BufferLifetime>,
    /// Peak memory usage in bytes.
    pub peak_bytes: usize,
}

/// A single computation node.
pub struct Node {
    pub id: usize,
    pub op: Op,
    pub inputs: Vec<TensorId>,
    pub outputs: Vec<TensorId>,
    pub attrs: Attrs,
    pub backend_hint: Option<BackendHint>,
}

/// Tensor metadata (shape, type and residency; no data).
#[derive(Clone, Debug)]
pub struct TensorMeta {
    pub shape: Vec<Dim>,
    pub dtype: DType,
    pub residency: Residency,
}

/// Raw weight data with metadata.
pub struct WeightData {
    pub data: Vec<u8>,
    pub shape: Vec<usize>,
    pub dtype: DType,
}

/// Graph IR: a directed acyclic graph of operations.
pub struct Graph {
    pub nodes: Vec<Node>,
    pub tensors: NameMap<TensorMeta>,
    pub weights: NameMap<WeightData>,
}

/// The shape made of the given fixed dimensions.
pub open spec fn fixed_dims(shape: Seq<usize>) -> Seq<Dim> {
    shape.map_values(|n: usize| Dim::Fixed(n))
}

/// The dimensions of a shape when all are fixed.
pub open spec fn spec_fixed_shape(shape: Seq<Dim>) -> Option<Seq<usize>> {
    if forall|i: int| 0 <= i < shape.len() ==> (#[trigger] shape[i]) is Fixed {
        Some(shape.map_values(|d: Dim| d->Fixed_0))
    } else {
        None
    }
}

fn dims_of(shape: Vec<usize>) -> (r: Vec<Dim>)
    ensures
        r@ == fixed_dims(shape@),
{
    let mut r: Vec<Dim> = Vec::new();
    let mut i: usize = 0;
    while i < shape.len()
        invariant
            i <= shape@.len(),
            r@ == fixed_dims(shape@.take(i as int)),
        decreases shape@.len() - i,
    {
        r.push(Dim::Fixed(shape[i]));
        i = i + 1;
        proof {
            assert(r@ =~= fixed_dims(shape@.take(i as int)));
        }
    }
    assert(shape@.take(i as int) =~= shape@);
    r
}

impl TensorMeta {
    /// Metadata with a fixed shape and `Streamed` residency.
    pub fn fixed(shape: Vec<usize>, dtype: DType) -> (r: Self)
        ensures
            r.shape@ == fixed_dims(shape@),
            r.dtype == dtype,
            r.residency == Residency::Streamed,
    {
        Self { shape: dims_of(shape), dtype, residency: Residency::Streamed }
    }

    /// Metadata for a weight (`Resident` residency).
    pub fn weight(shape: Vec<usize>, dtype: DType) -> (r: Self)
        ensures
            r.shape@ == fixed_dims(shape@),
            r.dtype == dtype,
            r.residency == Residency::Resident,
    {
        Self { shape: dims_of(shape), dtype, residency: Residency::Resident }
    }

    /// The fixed dimensions, or `None` when any dimension is dynamic.
    pub fn fixed_shape(&self) -> (r: Option<Vec<usize>>)
        ensures
            match r {
                Some(v) => spec_fixed_shape(self.shape@) == Some(v@),
                None => spec_fixed_shape(self.shape@) is None,
            },
    {
        let mut out: Vec<usize> = Vec::new();
        let mut i: usize = 0;
        while i < self.shape.len()
            invariant
                i <= self.shape@.len(),
                forall|j: int| 0 <= j < i ==> (#[trigger] self.shape@[j]) is Fixed,
                out@ == self.shape@.take(i as int).map_values(|d: Dim| d->Fixed_0),
            decreases self.shape@.len() - i,
        {
            match &self.shape[i] {
                Dim::Fixed(n) => {
                    out.push(*n);
                },
                Dim::Dynamic(_) => {
                    return None;
                },
            }
            i = i + 1;
            proof {
                assert(out@ =~= self.shape@.take(i as int).map_values(|d: Dim| d->Fixed_0));
            }
        }
        assert(self.shape@.take(i as int) =~= self.shape@);
        Some(out)
    }
}

/// The node appended by `add_node`/`add_node_with_attrs`.
pub open spec fn node_fields(n: Node, id: usize, op: Op, inputs: Seq<String>, outputs: Seq<String>) -> bool {
    n.id == id && n.op == op && n.inputs@ == inputs && n.outputs@ == outputs
}

impl Graph {
    /// An empty graph.
    pub fn new() -> (g: Self)
        ensures
            g.nodes@.len() == 0,
            g.tensors@ == Map::<Seq<char>, TensorMeta>::empty(),
            g.weights@ == Map::<Seq<char>, WeightData>::empty(),
    {
        Self { nodes: Vec::new(), tensors: NameMap::new(), weights: NameMap::new() }
    }

    /// Append a node without attributes; returns its id (its index).
    pub fn add_node(&mut self, op: Op, inputs: Vec<TensorId>, outputs: Vec<TensorId>) -> (id: usize)
        requires
            old(self).nodes@.len() < usize::MAX,
        ensures
            id == old(self).nodes@.len(),
            final(self).nodes@.len() == old(self).nodes@.len() + 1,
            final(self).nodes@.take(id as int) == old(self).nodes@,
            node_fields(final(self).nodes@[id as int], id, op, inputs@, outputs@),
            final(self).nodes@[id as int].attrs@ == Map::<Seq<char>, AttrValue>::empty(),
            final(self).nodes@[id as int].backend_hint is None,
            final(self).tensors == old(self).tensors,
            final(self).weights == old(self).weights,
    {
        let id = self.nodes.len();
        self.nodes.push(Node { id, op, inputs, outputs, attrs: NameMap::new(), backend_hint: None });
        proof {
            assert(self.nodes@.take(id as int) =~= old(self).nodes@);
        }
        id
    }

    /// Append a node with attributes and an optional backend hint; returns
    /// its id (its index).
    pub fn add_node_with_attrs(
        &mut self,
        op: Op,
        inputs: Vec<TensorId>,
        outputs: Vec<TensorId>,
        attrs: Attrs,
        backend_hint: Option<BackendHint>,
    ) -> (id: usize)
        requires
            old(self).nodes@.len() < usize::MAX,
        ensures
            id == old(self).nodes@.len(),
            final(self).nodes@.len() == old(self).nodes@.len() + 1,
            final(self).nodes@.take(id as int) == old(self).nodes@,
            node_fields(final(self).nodes@[id as int], id, op, inputs@, outputs@),
            final(self).nodes@[id as int].attrs == attrs,
            final(self).nodes@[id as int].backend_hint == backend_hint,
            final(self).tensors == old(self).tensors,
            final(self).weights == old(self).weights,
    {
        let id = self.nodes.len();
        self.nodes.push(Node { id, op, inputs, outputs, attrs, backend_hint });
        proof {
            assert(self.nodes@.take(id as int) =~= old(self).nodes@);
        }
        id
    }

    /// Register tensor metadata.
    pub fn add_tensor(&mut self, name: TensorId, meta: TensorMeta)
        ensures
            final(self).tensors@ == old(self).tensors@.insert(name@, meta),
            final(self).nodes == old(self).nodes,
            final(self).weights == old(self).weights,
    {
        self.tensors.insert(name, meta);
    }

    /// Add weight data.
    pub fn add_weight(&mut self, name: String, data: WeightData)
        ensures
            final(self).weights@ == old(self).weights@.insert(name@, data),
            final(self).nodes == old(self).nodes,
            final(self).tensors == old(self).tensors,
    {
        self.weights.insert(name, data);
    }

    /// A weight by name.
    pub fn get_weight(&self, name: &str) -> (r: Option<&WeightData>)
        ensures
            match r {
                Some(w) => self.weights@.contains_key(name@) && self.weights@[name@] == *w,
                None => !self.weights@.contains_key(name@),
            },
    {
        self.weights.get(name)
    }

    /// Number of nodes.
    pub fn len(&self) -> (r: usize)
        ensures
            r == self.nodes@.len(),
    {
        self.nodes.len()
    }

    /// Whether the graph has no nodes.
    pub fn is_empty(&self) -> (r: bool)
        ensures
            r == (self.nodes@.len() == 0),
    {
        self.nodes.len() == 0
    }

    /// Indices, in increasing order, of all stateful nodes (KV cache).
    pub fn stateful_ops(&self) -> (r: Vec<usize>)
        ensures
            forall|k: int| 0 <= k < r@.len() ==> (#[trigger] r@[k]) < self.nodes@.len()
                && self.nodes@[r@[k] as int].op.spec_is_stateful(),
            forall|k: int, l: int| 0 <= k < l < r@.len() ==> r@[k] < r@[l],
            forall|i: int| 0 <= i < self.nodes@.len() && (#[trigger] self.nodes@[i]).op.spec_is_stateful()
                ==> r@.contains(i as usize),
    {
        let mut r: Vec<usize> = Vec::new();
        let mut i: usize = 0;
        while i < self.nodes.len()
            invariant
                i <= self.nodes@.len(),
                forall|k: int| 0 <= k < r@.len() ==> (#[trigger] r@[k]) < i
                    && self.nodes@[r@[k] as int].op.spec_is_stateful(),
                forall|k: int, l: int| 0 <= k < l < r@.len() ==> r@[k] < r@[l],
                forall|j: int| 0 <= j < i && (#[trigger] self.nodes@[j]).op.spec_is_stateful()
                    ==> r@.contains(j as usize),
            decreases self.nodes@.len() - i,
        {
            if self.nodes[i].op.is_stateful() {
                let ghost old_r = r@;
                r.push(i);
                proof {
                    assert forall|j: int| 0 <= j < i + 1 && (#[trigger] self.nodes@[j]).op.spec_is_stateful()
                        implies r@.contains(j as usize) by {
                        if j < i {
                            let k = choose|k: int| 0 <= k < old_r.len() && old_r[k] == j as usize;
                            assert(r@[k] == j as usize);
                        } else {
                            assert(r@[r@.len() - 1] == i);
                        }
                    }
                }
            }
            i = i + 1;
        }
        r
    }
}


/// A loaded tensor: name, shape, element type and data.
pub type LoadedTensor = (Seq<char>, Seq<usize>, DType, Seq<u8>);

/// The last index of a tensor named `k`.
pub open spec fn last_loaded(ts: Seq<LoadedTensor>, k: Seq<char>) -> Option<int>
    decreases ts.len(),
{
    if ts.len() == 0 {
        None
    } else if ts.last().0 == k {
        Some(ts.len() - 1)
    } else {
        last_loaded(ts.drop_last(), k)
    }
}

pub proof fn lemma_last_loaded(ts: Seq<LoadedTensor>, k: Seq<char>)
    ensures
        last_loaded(ts, k) matches Some(j) ==> 0 <= j < ts.len() && ts[j].0 == k,
    decreases ts.len(),
{
    if ts.len() > 0 && ts.last().0 != k {
        lemma_last_loaded(ts.drop_last(), k);
    }
}

/// `g` has no nodes and holds, for each name, the last tensor of `ts` with
/// that name, as a weight and as tensor metadata.
pub open spec fn graph_loads(g: Graph, ts: Seq<LoadedTensor>) -> bool {
    &&& g.nodes@.len() == 0
    &&& forall|k: Seq<char>| #[trigger] g.weights@.contains_key(k) <==> last_loaded(ts, k) is Some
    &&& forall|k: Seq<char>| #[trigger] g.tensors@.contains_key(k) <==> last_loaded(ts, k) is Some
    &&& forall|k: Seq<char>| #[trigger] last_loaded(ts, k) is Some ==> {
        let t = ts[last_loaded(ts, k)->0];
        &&& g.weights@[k].data@ == t.3
        &&& g.weights@[k].shape@ == t.1
        &&& g.weights@[k].dtype == t.2
        &&& g.tensors@[k].shape@ == fixed_dims(t.1)
        &&& g.tensors@[k].dtype == t.2
        &&& g.tensors@[k].residency == Residency::Resident
    }
}

} // verus!
