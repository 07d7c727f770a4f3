use cyb_model::format::{detect_format_from, format_of_magic, ModelFormat};
use cyb_model::fusion::{detect_fusions, FusionHint};
use cyb_model::graph::{Graph, Node};
use cyb_model::kvcache::{CompressedKV, KvCompressConfig, KvCompressor, QjlKey};
use cyb_model::manifest::{Format, Quant, Tier};
use cyb_model::namemap::NameMap;
use cyb_model::onnx::{onnx_dtype_to_ir, onnx_op_to_ir, pack_bytes_to_u32, OnnxAttribute, OnnxNode};
use cyb_model::ops::{F32Bits, Op};
use cyb_model::dtype::DType;
use cyb_model::quantize::{build_metadata, HfConfig, MetaValue, QuantType};

fn node(op: Op, inputs: &[&str], outputs: &[&str]) -> Node {
    Node {
        id: 0,
        op,
        inputs: inputs.iter().map(|s| s.to_string()).collect(),
        outputs: outputs.iter().map(|s| s.to_string()).collect(),
        attrs: NameMap::new(),
        backend_hint: None,
    }
}

#[test]
fn formats_by_extension_then_magic() {
    assert_eq!(detect_format_from("gguf", b""), Some(ModelFormat::Gguf));
    assert_eq!(detect_format_from("safetensors", b"GGUF"), Some(ModelFormat::Safetensors));
    assert_eq!(detect_format_from("bin", b"GGUF\x03\x00\x00\x00"), Some(ModelFormat::Gguf));
    assert_eq!(format_of_magic(b"CYB\x01rest"), Some(ModelFormat::Cyb));
    assert_eq!(format_of_magic(&[0x08, 1, 2, 3]), Some(ModelFormat::Onnx));
    assert_eq!(format_of_magic(&[0x0a, 1, 2]), None);
    assert_eq!(format_of_magic(b"PK\x03\x04"), None);
}

#[test]
fn manifest_names() {
    assert_eq!(Quant::Native.as_str(), "native");
    assert_eq!(Format::Safetensors.as_str(), "safetensors");
    assert_eq!(Tier::Media.as_str(), "media");
}

#[test]
fn fusion_hints_need_a_sole_consumer() {
    let eps = F32Bits(1e-5f32.to_bits());
    let mut g = Graph::new();
    g.nodes.push(node(Op::RmsNorm { eps }, &["x", "w"], &["n1"]));
    g.nodes.push(node(Op::Matmul, &["n1", "wq"], &["q"]));
    g.nodes.push(node(Op::Add, &["q", "x"], &["r"]));
    g.nodes.push(node(Op::RmsNorm { eps }, &["r", "w2"], &["n2"]));
    g.nodes.push(node(Op::Matmul, &["n2", "wa"], &["a"]));
    g.nodes.push(node(Op::Matmul, &["n2", "wb"], &["b"]));
    g.nodes.push(node(Op::SwiGlu, &["a", "b"], &["s"]));
    let hints = detect_fusions(&g);
    assert_eq!(hints, vec![(0, FusionHint::NormMatmul), (2, FusionHint::SkipNorm), (6, FusionHint::SwiGLU)]);
}

#[test]
fn kv_compressor_counts_and_bytes() {
    let config = KvCompressConfig { head_dim: 128, kv_heads: 8, num_layers: 2, enabled: true };
    let mut c = KvCompressor::new(config);
    for _ in 0..10 {
        for layer in 0..2 {
            c.store_key(layer, QjlKey { signs: vec![0u8; 16], norm: F32Bits(0) });
            c.store_value(layer, CompressedKV { indices: vec![0u8; 48], radius: 0 });
        }
    }
    assert_eq!(c.seq_len(0), 10);
    assert_eq!(c.seq_len(1), 10);
    assert_eq!(c.memory_bytes(), 20 * (16 + 4) + 20 * (48 + 2));
    assert_eq!(c.uncompressed_bytes(), 20 * 128 * 4);
    c.reset();
    assert_eq!(c.seq_len(0), 0);
    assert_eq!(c.memory_bytes(), 0);
}

#[test]
fn onnx_mapping() {
    assert_eq!(onnx_dtype_to_ir(16), DType::BF16);
    assert_eq!(onnx_dtype_to_ir(99), DType::F32);
    let gqa = OnnxNode {
        op_type: "GroupQueryAttention".to_string(),
        attribute: vec![OnnxAttribute { name: "num_heads".to_string(), f: F32Bits(0), i: 16, ints: vec![] }],
    };
    assert!(matches!(onnx_op_to_ir(&gqa), Op::Sdpa { num_heads: 16, kv_heads: 16, head_dim: 0, causal: true }));
    let tr = OnnxNode {
        op_type: "Transpose".to_string(),
        attribute: vec![OnnxAttribute { name: "perm".to_string(), f: F32Bits(0), i: 0, ints: vec![1, 0, 2] }],
    };
    match onnx_op_to_ir(&tr) {
        Op::Transpose { perm } => assert_eq!(perm, vec![1, 0, 2]),
        _ => panic!("expected transpose"),
    }
    let ln = OnnxNode { op_type: "LayerNormalization".to_string(), attribute: vec![] };
    assert!(matches!(onnx_op_to_ir(&ln), Op::LayerNorm { eps } if eps == F32Bits(1e-5f32.to_bits())));
    let unknown = OnnxNode { op_type: "Foo".to_string(), attribute: vec![] };
    assert!(matches!(onnx_op_to_ir(&unknown), Op::Add));
}

#[test]
fn packs_little_endian_words() {
    assert_eq!(pack_bytes_to_u32(&[1, 2, 3, 4, 5]), vec![0x04030201, 0x05]);
    assert_eq!(pack_bytes_to_u32(&[]), Vec::<u32>::new());
}

#[test]
fn quant_sizes() {
    assert_eq!(QuantType::Q4_0.ggml_type(), 2);
    assert_eq!(QuantType::Q4_0.bytes_for(33), 36);
    assert_eq!(QuantType::Q8_0.bytes_for(32), 34);
    assert_eq!(QuantType::F16.bytes_for(7), 14);
}

#[test]
fn metadata_for_qwen_config() {
    let c = HfConfig {
        model_type: Some("qwen3".to_string()),
        name_or_path: None,
        vocab_size: Some(151936),
        hidden_size: Some(1024),
        num_hidden_layers: None,
        num_attention_heads: None,
        num_key_value_heads: None,
        intermediate_size: None,
        max_position_embeddings: None,
        rms_norm_eps: Some(F32Bits(1e-6f32.to_bits())),
        rope_theta: None,
    };
    let kv = build_metadata(&c);
    assert_eq!(kv.len(), 4);
    assert_eq!(kv[0].0, "general.architecture");
    assert!(matches!(&kv[0].1, MetaValue::String(s) if s == "qwen2"));
    assert_eq!(kv[1].0, "qwen2.vocab_size");
    assert!(matches!(kv[1].1, MetaValue::U64(151936)));
    assert_eq!(kv[2].0, "qwen2.embedding_length");
    assert_eq!(kv[3].0, "qwen2.attention.layer_norm_rms_epsilon");
}
