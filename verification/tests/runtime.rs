use std::sync::Arc;

use cyb_model::dtype::DType;
use cyb_model::manifest::runtime_manifest;
use cyb_model::sampling::SampleKind;
use cyb_model::weights::QuantWeight;

#[test]
fn quant_weight_dims() {
    let w = QuantWeight { shape: vec![4, 6], dtype: DType::Q4_K, bytes: Arc::new(vec![0u8; 12]) };
    assert_eq!(w.numel(), 24);
    assert_eq!(w.n(), 4);
    assert_eq!(w.k(), 6);
    let v = QuantWeight { shape: vec![], dtype: DType::F32, bytes: Arc::new(vec![]) };
    assert_eq!(v.numel(), 1);
}

#[test]
fn runtime_manifest_lists_targets() {
    let m = runtime_manifest();
    assert_eq!(m.len(), 4);
    assert_eq!(m[0].name, "qwen3-0.6b-abl");
    assert_eq!(m[0].role, "router");
    assert_eq!(m[3].family, "LlamaStyle+");
    assert!(m.iter().all(|e| !e.notes.is_empty()));
}

#[test]
fn sample_kinds_differ() {
    assert_ne!(SampleKind::Greedy, SampleKind::TopP);
    assert_eq!(SampleKind::TopK, SampleKind::TopK);
}
