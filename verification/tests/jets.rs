use std::hash::{Hash, Hasher};
use cyb_model::atoms::{Atom, CmpOp, ReduceOp, SlidePattern};
use cyb_model::jets::{formula_hash, JetRegistry};
use cyb_model::ops::Op;

#[test]
fn test_registry_not_empty() {
    let reg = JetRegistry::new();
    assert!(reg.len() > 30, "Expected 30+ jets, got {}", reg.len());
}

#[test]
fn test_formula_hash_deterministic() {
    let atoms = vec![Atom::Mul, Atom::Add];
    let h1 = formula_hash(&atoms);
    let h2 = formula_hash(&atoms);
    assert_eq!(h1, h2, "Same atoms must produce same hash");
}

#[test]
fn test_different_atoms_different_hash() {
    let h1 = formula_hash(&[Atom::Mul, Atom::Add]);
    let h2 = formula_hash(&[Atom::Add, Atom::Mul]);
    assert_ne!(h1, h2, "Different atom order must produce different hash");
}

#[test]
fn test_lookup_matmul() {
    let reg = JetRegistry::new();
    let jet = reg.lookup_op(&Op::Matmul);
    assert!(jet.is_some(), "Matmul should have a jet");
    assert_eq!(jet.unwrap().name, "matmul");
}

#[test]
fn test_lookup_relu() {
    let reg = JetRegistry::new();
    let jet = reg.lookup_op(&Op::Relu);
    assert!(jet.is_some(), "Relu should have a jet");
    assert_eq!(jet.unwrap().name, "relu");
}

#[test]
fn test_layout_ops_have_no_jet() {
    let reg = JetRegistry::new();
    let jet = reg.lookup_op(&Op::Reshape { shape: vec![1, -1] });
    assert!(jet.is_none(), "Reshape is layout-only, no jet");
}

#[test]
fn test_list_sorted() {
    let reg = JetRegistry::new();
    let list = reg.list();
    for i in 1..list.len() {
        assert!(list[i - 1].0 <= list[i].0, "List should be sorted by name");
    }
}

#[test]
fn formula_hash_matches_derived_hash_stream() {
    let atoms = [
        Atom::Slide(SlidePattern::Window2D { kernel: (3, 3), stride: (1, 1) }),
        Atom::Cmp(CmpOp::LessThan),
        Atom::Reduce(ReduceOp::Mean),
        Atom::Exp,
    ];
    let mut h = std::collections::hash_map::DefaultHasher::new();
    for a in &atoms {
        a.hash(&mut h);
    }
    assert_eq!(formula_hash(&atoms), h.finish());
}

#[test]
fn registry_keeps_last_of_equal_compositions() {
    // "transpose", "relative_pos_embedding" and "token_embed" all decompose
    // to [Read]; the last registration wins.
    let reg = JetRegistry::new();
    let jet = reg.lookup(formula_hash(&[Atom::Read])).unwrap();
    assert_eq!(jet.name, "token_embed");
    let names: Vec<&str> = reg.list().iter().map(|p| p.0).collect();
    assert!(!names.contains(&"transpose"));
    assert_eq!(names.len(), reg.len());
    assert!(!reg.is_empty());
}

#[test]
fn kv_compress_ops_have_no_jet() {
    let reg = JetRegistry::new();
    assert!(reg.lookup_op(&Op::KvCompress { head_dim: 128, bits: 3 }).is_none());
}
