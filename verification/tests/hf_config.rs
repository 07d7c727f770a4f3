use cyb_model::hf_config::{config_toml_text, kv_duplicate_name, HfConfigFields};

fn fields() -> HfConfigFields {
    HfConfigFields {
        model_type: Some("llama".to_string()),
        hidden_size: Some(4096),
        num_attention_heads: Some(32),
        num_key_value_heads: None,
        num_hidden_layers: Some(2),
        intermediate_size: Some(11008),
        vocab_size: Some(32000),
        head_dim: None,
        max_position_embeddings: None,
        tie_word_embeddings: None,
        top_tie_word_embeddings: Some(false),
        hidden_activation: None,
        final_logit_softcapping: None,
        attention_k_eq_v: None,
        sliding_window: None,
        global_head_dim: None,
        num_global_key_value_heads: None,
        layer_types: Vec::new(),
        rope_theta_full: None,
        partial_rotary_factor_full: None,
    }
}

#[test]
fn config_toml_fills_defaults_and_derives_sizes() {
    let out = config_toml_text(&fields(), "</s>", "hf/llama", "10000", "0.00001");
    assert_eq!(out.model_type, "llama");
    assert_eq!(out.num_layers, 2);
    assert_eq!(out.hidden_size, 4096);
    let t = out.text;
    assert!(t.starts_with("model_type = \"llama\"\nparameters = 98304\n"));
    assert!(t.contains("\nnum_key_value_heads = 32\n"));
    assert!(t.contains("\nhead_dim = 128\n"));
    assert!(t.contains("\nmax_position_embeddings = 8192\n"));
    assert!(t.contains("\nrope_theta = 10000\nrms_norm_eps = 0.00001\n"));
    assert!(t.contains("\ntie_word_embeddings = false\n\n[tokenizer]\n"));
    assert!(t.contains("eos_token = \"</s>\""));
    assert!(t.ends_with("source = \"hf/llama\"\n"));
}

#[test]
fn config_toml_without_model_type_is_unknown() {
    let mut f = fields();
    f.model_type = None;
    f.head_dim = Some(64);
    f.top_tie_word_embeddings = None;
    let out = config_toml_text(&f, "", "", "1", "1");
    assert_eq!(out.model_type, "unknown");
    assert!(out.text.contains("\nhead_dim = 64\n"));
    assert!(out.text.contains("\ntie_word_embeddings = true\n"));
}

#[test]
fn gemma_style_lines_follow_the_architecture() {
    let mut f = fields();
    f.hidden_activation = Some("gelu_pytorch_tanh".to_string());
    f.final_logit_softcapping = Some("30".to_string());
    f.attention_k_eq_v = Some(true);
    f.sliding_window = Some(1024);
    f.layer_types = vec!["sliding_attention".to_string(), "full_attention".to_string()];
    f.rope_theta_full = Some("1000000".to_string());
    let out = config_toml_text(&f, "", "", "10000", "0.000001");
    assert!(out.text.contains(
        "tie_word_embeddings = false\nhidden_activation = \"gelu_pytorch_tanh\"\nfinal_logit_softcapping = 30\nattention_k_eq_v = true\nsliding_window = 1024\nlayer_types = [\"sliding_attention\", \"full_attention\"]\nrope_theta_full = 1000000\n\n[tokenizer]\n"
    ));
}

#[test]
fn shared_key_value_layers_get_a_value_projection() {
    let types = vec!["sliding_attention".to_string(), "full_attention".to_string()];
    let existing = vec!["model.layers.1.self_attn.k_proj.weight".to_string()];
    assert_eq!(
        kv_duplicate_name("model.layers.1.self_attn.k_proj.weight", Some(true), &types, &existing),
        Some("model.layers.1.self_attn.v_proj.weight".to_string())
    );
    // A sliding layer, a flag not set, or a value projection already there: nothing.
    assert_eq!(kv_duplicate_name("model.layers.0.self_attn.k_proj.weight", Some(true), &types, &existing), None);
    assert_eq!(kv_duplicate_name("model.layers.1.self_attn.k_proj.weight", None, &types, &existing), None);
    let with_v = vec!["model.layers.1.self_attn.v_proj.weight".to_string()];
    assert_eq!(kv_duplicate_name("model.layers.1.self_attn.k_proj.weight", Some(true), &types, &with_v), None);
    assert_eq!(kv_duplicate_name("model.layers.1.self_attn.q_proj.weight", Some(true), &types, &existing), None);
}
