use cyb_model::llama_config::{
    ConfigDoc, ConfigError, ConfigFloats, HiddenActivation, LayerKind, LlamaConfig, NamedShape, RequiredField, TomlItem,
    TomlScalar,
};
use cyb_model::namemap::NameMap;
use cyb_model::ops::F32Bits;

fn int_item(v: i64) -> TomlItem {
    TomlItem::Scalar(TomlScalar::Int(v))
}

fn text(s: &str) -> TomlItem {
    TomlItem::Scalar(TomlScalar::Str(s.to_string()))
}

fn floats() -> ConfigFloats {
    ConfigFloats {
        rope_theta: F32Bits(10000.0f32.to_bits()),
        rms_norm_eps: F32Bits(1e-6f32.to_bits()),
        final_logit_softcapping: None,
        rope_theta_full: None,
        partial_rotary_factor_full: None,
    }
}

fn qwen_doc() -> ConfigDoc {
    let mut root = NameMap::new();
    root.insert("model_type".to_string(), text("qwen3"));
    let mut arch = NameMap::new();
    arch.insert("hidden_size".to_string(), int_item(1024));
    arch.insert("num_attention_heads".to_string(), int_item(16));
    arch.insert("num_key_value_heads".to_string(), int_item(8));
    arch.insert("num_hidden_layers".to_string(), int_item(28));
    arch.insert("intermediate_size".to_string(), int_item(3072));
    arch.insert("vocab_size".to_string(), int_item(151936));
    arch.insert("head_dim".to_string(), int_item(128));
    arch.insert("tie_word_embeddings".to_string(), TomlItem::Scalar(TomlScalar::Bool(false)));
    let mut tok = NameMap::new();
    tok.insert(
        "eos_token_ids".to_string(),
        TomlItem::Array(vec![TomlScalar::Int(151645), TomlScalar::Str("x".to_string()), TomlScalar::Int(151643)]),
    );
    ConfigDoc { root, architecture: Some(arch), tokenizer: tok }
}

fn shapes(names: &[(&str, Vec<usize>)]) -> Vec<NamedShape> {
    names.iter().map(|(n, s)| NamedShape { name: n.to_string(), shape: s.clone() }).collect()
}

#[test]
fn qwen_config_reads_fields_and_variants() {
    let ts = shapes(&[("model.layers.0.self_attn.q_norm.weight", vec![128])]);
    let c = LlamaConfig::parse(&qwen_doc(), &floats(), &ts).expect("valid");
    assert_eq!(c.model_type, "qwen3");
    assert_eq!(c.head_dim, 128);
    assert_eq!(c.num_key_value_heads, 8);
    assert_eq!(c.max_position_embeddings, 2048);
    assert!(!c.tie_word_embeddings);
    assert!(c.has_qk_norm);
    assert!(!c.has_attn_bias);
    assert_eq!(c.eos_token_ids, vec![151645, 151643]);
    assert_eq!(c.layer_types.len(), 28);
    assert!(c.layer_types.iter().all(|k| *k == LayerKind::Sliding));
    assert_eq!(c.hidden_activation, HiddenActivation::Silu);
    assert_eq!(c.query_pre_attn_scalar, None);
    assert_eq!(c.layer_window(0), None);
}

#[test]
fn head_dim_from_query_projection_or_hidden_size() {
    let mut doc = qwen_doc();
    let mut arch = doc.architecture.take().unwrap();
    arch.remove("head_dim");
    doc.architecture = Some(arch);
    let ts = shapes(&[("model.layers.0.self_attn.q_proj.weight", vec![2048, 1024])]);
    let c = LlamaConfig::parse(&doc, &floats(), &ts).expect("valid");
    assert_eq!(c.head_dim, 128);
    let c = LlamaConfig::parse(&doc, &floats(), &[]).expect("valid");
    assert_eq!(c.head_dim, 64);
}

#[test]
fn gemma_layers_and_defaults() {
    let mut root = NameMap::new();
    root.insert("model_type".to_string(), text("gemma3_text"));
    root.insert("tie_word_embeddings".to_string(), TomlItem::Scalar(TomlScalar::Bool(true)));
    let mut arch = NameMap::new();
    for (k, v) in [
        ("hidden_size", 640),
        ("num_attention_heads", 4),
        ("num_key_value_heads", 1),
        ("num_hidden_layers", 3),
        ("intermediate_size", 2048),
        ("vocab_size", 262144),
        ("head_dim", 256),
        ("sliding_window", 512),
        ("global_head_dim", 512),
    ] {
        arch.insert(k.to_string(), int_item(v));
    }
    arch.insert(
        "layer_types".to_string(),
        TomlItem::Array(vec![
            TomlScalar::Str("sliding_attention".to_string()),
            TomlScalar::Str("sliding_attention".to_string()),
            TomlScalar::Str("full_attention".to_string()),
        ]),
    );
    arch.insert("hidden_activation".to_string(), text("gelu_pytorch_tanh"));
    let doc = ConfigDoc { root, architecture: Some(arch), tokenizer: NameMap::new() };
    let mut f = floats();
    f.rope_theta_full = Some(F32Bits(1e6f32.to_bits()));
    let c = LlamaConfig::parse(&doc, &f, &[]).expect("valid");
    assert!(c.tie_word_embeddings);
    assert_eq!(c.query_pre_attn_scalar, Some(256));
    assert_eq!(c.hidden_activation, HiddenActivation::GeluTanh);
    assert_eq!(c.layer_types, vec![LayerKind::Sliding, LayerKind::Sliding, LayerKind::Full]);
    assert_eq!(c.layer_head_dim(0), 256);
    assert_eq!(c.layer_head_dim(2), 512);
    assert_eq!(c.layer_kv_heads(2), 1);
    assert_eq!(c.layer_window(1), Some(512));
    assert_eq!(c.layer_window(2), None);
    assert_eq!(c.layer_rope_theta(2), F32Bits(1e6f32.to_bits()));
    assert_eq!(c.layer_rope_theta(0), F32Bits(10000.0f32.to_bits()));
    assert_eq!(c.layer_head_dim(7), 256);
}

#[test]
fn refusals_in_order() {
    let mut doc = qwen_doc();
    doc.architecture = None;
    assert!(matches!(LlamaConfig::parse(&doc, &floats(), &[]), Err(ConfigError::MissingArchitecture)));

    let mut doc = qwen_doc();
    let mut arch = doc.architecture.take().unwrap();
    arch.insert("vocab_size".to_string(), text("many"));
    doc.architecture = Some(arch);
    assert!(matches!(
        LlamaConfig::parse(&doc, &floats(), &[]),
        Err(ConfigError::Missing(RequiredField::VocabSize))
    ));

    let mut doc = qwen_doc();
    let mut arch = doc.architecture.take().unwrap();
    arch.insert("head_dim".to_string(), int_item(63));
    doc.architecture = Some(arch);
    assert!(matches!(LlamaConfig::parse(&doc, &floats(), &[]), Err(ConfigError::BadHeadDim(63))));

    let mut doc = qwen_doc();
    let mut arch = doc.architecture.take().unwrap();
    arch.insert("num_key_value_heads".to_string(), int_item(3));
    doc.architecture = Some(arch);
    assert!(matches!(
        LlamaConfig::parse(&doc, &floats(), &[]),
        Err(ConfigError::BadGqa { heads: 16, kv_heads: 3 })
    ));

    let mut f = floats();
    f.rope_theta = F32Bits((-1.0f32).to_bits());
    assert!(matches!(LlamaConfig::parse(&qwen_doc(), &f, &[]), Err(ConfigError::BadRopeTheta(_))));
    let mut f = floats();
    f.rms_norm_eps = F32Bits(1.0f32.to_bits());
    assert!(matches!(LlamaConfig::parse(&qwen_doc(), &f, &[]), Err(ConfigError::BadEps(_))));
    let mut f = floats();
    f.rms_norm_eps = F32Bits(f32::NAN.to_bits());
    assert!(matches!(LlamaConfig::parse(&qwen_doc(), &f, &[]), Err(ConfigError::BadEps(_))));

    let mut doc = qwen_doc();
    let mut arch = doc.architecture.take().unwrap();
    arch.insert("layer_types".to_string(), TomlItem::Array(vec![TomlScalar::Str("full".to_string())]));
    doc.architecture = Some(arch);
    assert!(matches!(
        LlamaConfig::parse(&doc, &floats(), &[]),
        Err(ConfigError::LayerTypesLen { got: 1, want: 28 })
    ));
}

#[test]
fn zero_heads_without_head_dim_is_refused() {
    let mut doc = qwen_doc();
    let mut arch = doc.architecture.take().unwrap();
    arch.remove("head_dim");
    arch.insert("num_attention_heads".to_string(), int_item(0));
    doc.architecture = Some(arch);
    assert!(matches!(LlamaConfig::parse(&doc, &floats(), &[]), Err(ConfigError::NoHeads)));
}
