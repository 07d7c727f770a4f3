use cyb_model::dtype::DType;
use cyb_model::graph::{Dim, Graph, Node, Residency, TensorMeta, WeightData};
use cyb_model::graph_summary::name_counts;
use cyb_model::namemap::NameMap;
use cyb_model::ops::Op;

fn node(id: usize, op: Op, inputs: &[&str], outputs: &[&str]) -> Node {
    Node {
        id,
        op,
        inputs: inputs.iter().map(|s| s.to_string()).collect(),
        outputs: outputs.iter().map(|s| s.to_string()).collect(),
        attrs: NameMap::new(),
        backend_hint: None,
    }
}

fn outputs_of(g: &Graph) -> Vec<String> {
    g.nodes.iter().map(|n| n.outputs[0].clone()).collect()
}

#[test]
fn topological_sort_orders_reversed_chain() {
    let mut g = Graph::new();
    g.nodes.push(node(0, Op::Mul, &["b", "w"], &["c"]));
    g.nodes.push(node(1, Op::Add, &["a"], &["b"]));
    g.nodes.push(node(2, Op::Relu, &["x"], &["a"]));
    assert!(g.topological_sort());
    assert_eq!(outputs_of(&g), vec!["a", "b", "c"]);
    for (i, n) in g.nodes.iter().enumerate() {
        assert_eq!(n.id, i);
    }
}

#[test]
fn topological_sort_takes_ready_nodes_in_index_order() {
    let mut g = Graph::new();
    g.nodes.push(node(0, Op::Add, &["p", "q"], &["r"]));
    g.nodes.push(node(1, Op::Relu, &["x"], &["q"]));
    g.nodes.push(node(2, Op::Relu, &["x"], &["p"]));
    assert!(g.topological_sort());
    assert_eq!(outputs_of(&g), vec!["q", "p", "r"]);
}

#[test]
fn topological_sort_rejects_cycle_and_keeps_nodes() {
    let mut g = Graph::new();
    g.nodes.push(node(7, Op::Add, &["b"], &["a"]));
    g.nodes.push(node(9, Op::Mul, &["a"], &["b"]));
    assert!(!g.topological_sort());
    assert_eq!(outputs_of(&g), vec!["a", "b"]);
    assert_eq!(g.nodes[0].id, 7);
    assert_eq!(g.nodes[1].id, 9);
}

#[test]
fn topological_sort_ignores_self_reads() {
    let mut g = Graph::new();
    g.nodes.push(node(0, Op::Add, &["acc", "x"], &["acc"]));
    assert!(g.topological_sort());
    assert_eq!(g.len(), 1);
}

#[test]
fn topological_sort_of_empty_graph_succeeds() {
    let mut g = Graph::new();
    assert!(g.topological_sort());
    assert!(g.is_empty());
}

#[test]
fn dead_nodes_cascade_backwards() {
    let mut g = Graph::new();
    g.nodes.push(node(0, Op::Add, &["x"], &["a"]));
    g.nodes.push(node(1, Op::Mul, &["a"], &["b"]));
    g.nodes.push(node(2, Op::KvCache, &["x"], &["kv"]));
    let removed = g.eliminate_dead_nodes();
    assert_eq!(removed, 2);
    assert_eq!(g.len(), 1);
    assert!(matches!(g.nodes[0].op, Op::KvCache));
    assert_eq!(g.nodes[0].id, 0);
}

#[test]
fn graph_output_node_is_kept() {
    let mut g = Graph::new();
    g.add_node(Op::Add, vec!["a".to_string(), "b".to_string()], vec!["out".to_string()]);
    assert_eq!(g.eliminate_dead_nodes(), 0);
    assert_eq!(g.len(), 1);
}

#[test]
fn live_nodes_stay_untouched() {
    let mut g = Graph::new();
    g.nodes.push(node(5, Op::Add, &["x"], &["a"]));
    g.nodes.push(node(6, Op::Mul, &["a"], &[]));
    assert_eq!(g.eliminate_dead_nodes(), 0);
    assert_eq!(g.nodes[0].id, 5);
    assert_eq!(g.nodes[1].id, 6);
}

#[test]
fn stateful_ops_lists_kv_caches() {
    let mut g = Graph::new();
    g.add_node(Op::Add, vec!["x".to_string()], vec!["a".to_string()]);
    g.add_node(Op::KvCache, vec!["a".to_string()], vec!["kv".to_string()]);
    assert_eq!(g.stateful_ops(), vec![1]);
}

#[test]
fn memory_plan_lifetimes_and_peak() {
    let mut g = Graph::new();
    // x -> a -> b; c reads a and b
    g.nodes.push(node(0, Op::Relu, &["x"], &["a"]));
    g.nodes.push(node(1, Op::Relu, &["a"], &["b"]));
    g.nodes.push(node(2, Op::Add, &["a", "b"], &["c"]));
    g.nodes.push(node(3, Op::Relu, &["c"], &["d"]));
    g.add_tensor("a".to_string(), TensorMeta::fixed(vec![2, 3], DType::F32));
    g.add_tensor("b".to_string(), TensorMeta::fixed(vec![4], DType::F16));
    g.add_tensor("c".to_string(), TensorMeta::fixed(vec![10], DType::U8));
    g.add_tensor(
        "d".to_string(),
        TensorMeta { shape: vec![Dim::Dynamic("n".to_string())], dtype: DType::F32, residency: Residency::Streamed },
    );
    g.add_tensor("x".to_string(), TensorMeta::fixed(vec![100], DType::F32));
    g.add_weight("w".to_string(), WeightData { data: vec![0u8; 7], shape: vec![7], dtype: DType::U8 });
    let plan = g.memory_plan();
    assert_eq!(plan.lifetimes.len(), 3);
    let a = plan.lifetimes.get("a").unwrap();
    assert_eq!((a.produced_at, a.consumed_at, a.size_bytes), (0, 2, 24));
    let b = plan.lifetimes.get("b").unwrap();
    assert_eq!((b.produced_at, b.consumed_at, b.size_bytes), (1, 2, 8));
    let c = plan.lifetimes.get("c").unwrap();
    assert_eq!((c.produced_at, c.consumed_at, c.size_bytes), (2, 3, 10));
    assert!(plan.lifetimes.get("d").is_none());
    assert!(plan.lifetimes.get("x").is_none());
    // node 2: a + b + c alive = 42 bytes, plus 7 bytes of weights.
    assert_eq!(plan.peak_bytes, 42 + 7);
}

#[test]
fn memory_plan_of_empty_graph_is_the_weights() {
    let mut g = Graph::new();
    g.add_weight("w".to_string(), WeightData { data: vec![1u8; 5], shape: vec![5], dtype: DType::U8 });
    let plan = g.memory_plan();
    assert_eq!(plan.lifetimes.len(), 0);
    assert_eq!(plan.peak_bytes, 5);
}

#[test]
fn summary_counts_ops_most_frequent_first() {
    let mut g = Graph::new();
    g.add_node(Op::Add, vec!["x".to_string()], vec!["a".to_string()]);
    g.add_node(Op::Matmul, vec!["a".to_string()], vec!["b".to_string()]);
    g.add_node(Op::Matmul, vec!["b".to_string()], vec!["c".to_string()]);
    g.add_node(Op::KvCache, vec!["c".to_string()], vec!["kv".to_string()]);
    assert_eq!(g.op_counts(), vec![("Matmul", 2), ("Add", 1), ("KvCache", 1)]);
    assert_eq!(
        g.summary(),
        "Graph: 4 nodes, 0 weights\n  Matmul: 2\n  Add: 1\n  KvCache: 1\n  Stateful ops: 1 (KV cache nodes)\n"
    );
    assert_eq!(Graph::new().summary(), "Graph: 0 nodes, 0 weights\n");
}

#[test]
fn operator_names_counted_most_frequent_first() {
    let ops: Vec<String> = ["Conv", "Relu", "Conv", "Gemm", "Relu", "Conv"].iter().map(|s| s.to_string()).collect();
    assert_eq!(
        name_counts(&ops),
        vec![("Conv".to_string(), 3), ("Relu".to_string(), 2), ("Gemm".to_string(), 1)]
    );
    assert!(name_counts(&Vec::new()).is_empty());
}
