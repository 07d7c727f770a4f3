use cyb_model::manifest::Quant;
use cyb_model::model_status::{file_kind, is_junk, FileKind, ModelStatus};

#[test]
fn file_kinds() {
    assert_eq!(file_kind("model-00001.safetensors", "safetensors"), FileKind::Safetensors);
    assert_eq!(file_kind("model.safetensors.index.json", "json"), FileKind::Other);
    assert_eq!(file_kind("x.index.safetensors", "safetensors"), FileKind::Other);
    assert_eq!(file_kind("ggml-base.bin", "bin"), FileKind::Ggml);
    assert_eq!(file_kind("pytorch_model.bin", "bin"), FileKind::Other);
    assert_eq!(file_kind("model.pth", "pth"), FileKind::Pytorch);
    assert_eq!(file_kind("model.onnx", "onnx"), FileKind::Onnx);
}

#[test]
fn junk_files_and_dirs() {
    let comps = vec!["home".to_string(), ".cache".to_string(), "x".to_string()];
    assert!(is_junk(&comps, "weights.bin"));
    let clean = vec!["home".to_string(), "llm".to_string()];
    assert!(is_junk(&clean, "README.md"));
    assert!(!is_junk(&clean, "config.json"));
}

#[test]
fn missing_model_has_one_issue() {
    let s = ModelStatus::missing(Quant::Q4);
    assert_eq!(s.issues(None), vec!["MISSING".to_string()]);
    assert!(!s.is_ok(None));
}

#[test]
fn issues_in_order() {
    let mut s = ModelStatus::found(Quant::Q4);
    s.add_file(10, "model.safetensors", "safetensors", false);
    s.add_file(20, "model.gguf", "gguf", false);
    s.add_file(3_000_000, "readme.md", "md", true);
    s.missing_shards = Some("missing shard: b.safetensors".to_string());
    assert_eq!(s.size_bytes, 3_000_030);
    assert_eq!(s.junk_bytes, 3_000_000);
    assert_eq!(
        s.issues(Some("BLOATED (2.5x)".to_string())),
        vec![
            "INCOMPLETE: missing shard: b.safetensors".to_string(),
            "DUPES: safetensors+gguf".to_string(),
            "BLOATED (2.5x)".to_string(),
            "JUNK: 3M".to_string(),
        ]
    );
}

#[test]
fn native_models_may_keep_several_formats() {
    let mut s = ModelStatus::found(Quant::Native);
    s.add_file(10, "a.onnx", "onnx", false);
    s.add_file(10, "b.pt", "pt", false);
    assert!(s.issues(None).is_empty());
    assert!(s.is_ok(None));
}
