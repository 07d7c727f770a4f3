use cyb_model::fusion::{fuse_norm_matmul, fuse_skip_norm, fuse_swiglu, optimize};
use cyb_model::graph::{Graph, Node};
use cyb_model::namemap::NameMap;
use cyb_model::ops::{F32Bits, Op};

fn node(id: usize, op: Op, inputs: &[&str], outputs: &[&str]) -> Node {
    Node {
        id,
        op,
        inputs: inputs.iter().map(|s| s.to_string()).collect(),
        outputs: outputs.iter().map(|s| s.to_string()).collect(),
        attrs: NameMap::new(),
        backend_hint: None,
    }
}

fn eps() -> F32Bits {
    F32Bits(1e-5f32.to_bits())
}

#[test]
fn norm_then_matmul_fuses() {
    let mut g = Graph::new();
    g.nodes.push(node(0, Op::RmsNorm { eps: eps() }, &["x", "norm.w"], &["h"]));
    g.nodes.push(node(1, Op::Matmul, &["h", "proj.w"], &["y"]));
    g.nodes.push(node(2, Op::Relu, &["y"], &["z"]));
    assert_eq!(fuse_norm_matmul(&mut g), 1);
    assert_eq!(g.len(), 2);
    assert!(matches!(g.nodes[0].op, Op::FusedNormMatmul { eps: e } if e == eps()));
    assert_eq!(g.nodes[0].inputs, vec!["x".to_string(), "norm.w".to_string(), "proj.w".to_string()]);
    assert_eq!(g.nodes[0].outputs, vec!["y".to_string()]);
    assert_eq!(g.nodes[1].id, 1);
    assert!(matches!(g.nodes[1].op, Op::Relu));
}

#[test]
fn norm_with_two_readers_is_left_alone() {
    let mut g = Graph::new();
    g.nodes.push(node(0, Op::RmsNorm { eps: eps() }, &["x", "norm.w"], &["h"]));
    g.nodes.push(node(1, Op::Matmul, &["h", "q.w"], &["q"]));
    g.nodes.push(node(2, Op::Matmul, &["h", "k.w"], &["k"]));
    assert_eq!(fuse_norm_matmul(&mut g), 0);
    assert_eq!(g.len(), 3);
    assert!(matches!(g.nodes[0].op, Op::RmsNorm { .. }));
}

#[test]
fn add_then_norm_fuses_with_the_norm_epsilon() {
    let mut g = Graph::new();
    let e2 = F32Bits(1e-6f32.to_bits());
    g.nodes.push(node(0, Op::Add, &["a", "b"], &["s"]));
    g.nodes.push(node(1, Op::RmsNorm { eps: e2 }, &["s", "n.w"], &["o"]));
    assert_eq!(fuse_skip_norm(&mut g), 1);
    assert_eq!(g.len(), 1);
    assert!(matches!(g.nodes[0].op, Op::FusedSkipNorm { eps: e } if e == e2));
    assert_eq!(g.nodes[0].inputs, vec!["a".to_string(), "b".to_string(), "n.w".to_string()]);
    assert_eq!(g.nodes[0].outputs, vec!["o".to_string()]);
}

#[test]
fn silu_then_mul_fuses() {
    let mut g = Graph::new();
    g.nodes.push(node(0, Op::Matmul, &["x", "gate.w"], &["gate"]));
    g.nodes.push(node(1, Op::Matmul, &["x", "up.w"], &["up"]));
    g.nodes.push(node(2, Op::Silu, &["gate"], &["act"]));
    g.nodes.push(node(3, Op::Mul, &["act", "up"], &["out"]));
    assert_eq!(fuse_swiglu(&mut g), 1);
    assert_eq!(g.len(), 3);
    assert!(matches!(g.nodes[2].op, Op::FusedSwiGlu));
    assert_eq!(g.nodes[2].inputs, vec!["gate".to_string(), "up".to_string()]);
    assert_eq!(g.nodes[2].outputs, vec!["out".to_string()]);
    for (j, n) in g.nodes.iter().enumerate() {
        assert_eq!(n.id, j);
    }
}

#[test]
fn optimize_sorts_prunes_and_fuses() {
    let mut g = Graph::new();
    g.nodes.push(node(0, Op::KvCache, &["y"], &["kv"]));
    g.nodes.push(node(1, Op::Matmul, &["h", "proj.w"], &["y"]));
    g.nodes.push(node(2, Op::RmsNorm { eps: eps() }, &["x", "norm.w"], &["h"]));
    g.nodes.push(node(3, Op::Relu, &["x"], &["unused"]));
    let total = optimize(&mut g);
    // The unread Relu is dead; the norm and matmul fuse; the cache stays.
    assert_eq!(total, 2);
    assert_eq!(g.len(), 2);
    assert!(matches!(g.nodes[0].op, Op::FusedNormMatmul { .. }));
    assert_eq!(g.nodes[0].outputs, vec!["y".to_string()]);
    assert!(matches!(g.nodes[1].op, Op::KvCache));
}

#[test]
fn optimize_drops_unread_results() {
    let mut g = Graph::new();
    g.nodes.push(node(0, Op::Relu, &["h"], &["unused"]));
    g.nodes.push(node(1, Op::Matmul, &["h", "proj.w"], &["logits"]));
    g.nodes.push(node(2, Op::RmsNorm { eps: eps() }, &["x", "norm.w"], &["h"]));
    // Sorted: norm, relu, matmul. The matmul ends the graph, so `logits`
    // is the graph's output and stays; nobody reads `unused`, so the relu
    // goes, and then the norm and matmul fuse.
    assert_eq!(optimize(&mut g), 2);
    assert_eq!(g.len(), 1);
    assert!(matches!(g.nodes[0].op, Op::FusedNormMatmul { .. }));
    assert_eq!(g.nodes[0].outputs, vec!["logits".to_string()]);
}
