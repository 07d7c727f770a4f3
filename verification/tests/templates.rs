use cyb_model::executor::attr_u32;
use cyb_model::ops::{F32Bits, Op};
use cyb_model::templates::{
    bert_encoder, encoder_decoder, modernbert_encoder, moe_decoder, transformer_decoder, transformer_decoder_for_exec,
    transformer_encoder, diffusion_dit, cnn_detector, CnnDetectorConfig, DiTConfig,
    whisper_encoder_decoder, Activation, BertConfig, MoeDecoderConfig, TransformerConfig, WhisperConfig,
};

fn small_config(layers: usize, activation: Activation) -> TransformerConfig {
    TransformerConfig {
        hidden_size: 256,
        num_heads: 4,
        kv_num_heads: 2,
        head_dim: 64,
        num_layers: layers,
        intermediate_size: 512,
        vocab_size: 1000,
        eps: F32Bits(1e-5f32.to_bits()),
        rope_theta: F32Bits(10000.0f32.to_bits()),
        max_seq_len: 128,
        activation,
    }
}

#[test]
fn test_transformer_decoder_for_exec_generates_graph() {
    let config = small_config(2, Activation::Silu);
    let g = transformer_decoder_for_exec(&config);
    assert!(g.len() > 0, "Graph should have nodes");

    let all_inputs: Vec<&str> = g.nodes.iter().flat_map(|n| n.inputs.iter().map(|s| s.as_str())).collect();
    assert!(all_inputs.contains(&"model.layers.0.self_attn.q_proj.weight"), "Should have HF-style Q weight name");
    assert!(all_inputs.contains(&"model.layers.0.self_attn.k_proj.weight"), "Should have HF-style K weight name");
    assert!(all_inputs.contains(&"model.layers.0.self_attn.v_proj.weight"), "Should have HF-style V weight name");
    assert!(all_inputs.contains(&"model.layers.0.self_attn.o_proj.weight"), "Should have HF-style O weight name");
    assert!(all_inputs.contains(&"model.layers.0.mlp.gate_proj.weight"), "Should have HF-style gate weight name");
    assert!(all_inputs.contains(&"model.layers.0.mlp.up_proj.weight"), "Should have HF-style up weight name");
    assert!(all_inputs.contains(&"model.layers.0.mlp.down_proj.weight"), "Should have HF-style down weight name");
    assert!(all_inputs.contains(&"model.layers.0.input_layernorm.weight"), "Should have HF-style input norm weight name");
    assert!(all_inputs.contains(&"model.layers.0.post_attention_layernorm.weight"), "Should have HF-style post norm weight name");
    assert!(all_inputs.contains(&"model.norm.weight"), "Should have final norm weight name");
    assert!(all_inputs.contains(&"lm_head.weight"), "Should have lm_head weight name");

    let all_outputs: Vec<&str> = g.nodes.iter().flat_map(|n| n.outputs.iter().map(|s| s.as_str())).collect();
    assert!(all_outputs.contains(&"logits"), "Should produce logits");
}

#[test]
fn test_exec_graph_has_attrs() {
    let mut config = small_config(1, Activation::Silu);
    config.hidden_size = 128;
    config.num_heads = 2;
    config.intermediate_size = 256;
    config.vocab_size = 100;
    config.max_seq_len = 64;
    let g = transformer_decoder_for_exec(&config);

    let matmul_node = g.nodes.iter().find(|n| matches!(n.op, Op::Matmul)).unwrap();
    assert!(matmul_node.attrs.contains_key("n"), "Matmul should have 'n' attr");
    assert!(matmul_node.attrs.contains_key("k"), "Matmul should have 'k' attr");

    let norm_node = g.nodes.iter().find(|n| matches!(n.op, Op::RmsNorm { .. })).unwrap();
    assert!(norm_node.attrs.contains_key("hidden"), "RmsNorm should have 'hidden' attr");

    let sdpa_node = g.nodes.iter().find(|n| matches!(n.op, Op::Sdpa { .. })).unwrap();
    assert!(sdpa_node.attrs.contains_key("v_tensor"), "Sdpa should have 'v_tensor' attr");
}

#[test]
fn test_exec_graph_topological_sort() {
    let config = TransformerConfig::default();
    let mut g = transformer_decoder_for_exec(&config);
    let sorted = g.topological_sort();
    assert!(sorted, "Graph should be sortable (no cycles)");
}

#[test]
fn test_original_transformer_decoder_unchanged() {
    let config = small_config(2, Activation::Silu);
    let g = transformer_decoder(&config);
    assert!(g.len() > 0, "Original template should still work");
}

#[test]
fn exec_decoder_node_counts_and_sizes() {
    for (act, per_layer) in [(Activation::Silu, 17), (Activation::Gelu, 17), (Activation::GeGlu, 16)] {
        let g = transformer_decoder_for_exec(&small_config(3, act));
        assert_eq!(g.len(), 3 + 3 * per_layer);
        for (i, n) in g.nodes.iter().enumerate() {
            assert_eq!(n.id, i);
        }
    }
    let g = transformer_decoder_for_exec(&small_config(1, Activation::Silu));
    let q = &g.nodes[2];
    assert_eq!(q.inputs[1], "model.layers.0.self_attn.q_proj.weight");
    assert_eq!(attr_u32(q, "n"), Some(256));
    assert_eq!(attr_u32(q, "k"), Some(256));
    let k = &g.nodes[3];
    assert_eq!(attr_u32(k, "n"), Some(128));
    assert_eq!(g.nodes[g.len() - 1].outputs, vec!["logits".to_string()]);
    assert_eq!(g.nodes[g.len() - 2].inputs[0], "layer_0.residual2");
}

#[test]
fn decoder_layers_are_chained_by_name() {
    let g = transformer_decoder(&small_config(12, Activation::GeGlu));
    assert_eq!(g.len(), 3 + 12 * 13);
    let first_of_layer_11 = &g.nodes[1 + 11 * 13];
    assert_eq!(first_of_layer_11.inputs[0], "layer_10.residual2");
    assert_eq!(first_of_layer_11.inputs[1], "layer_11.attn_norm.weight");
    assert!(g.tensors.contains_key("layer_11.kv_cached"));
    let mut g = g;
    assert!(g.topological_sort());
}

#[test]
fn test_bert_encoder_template() {
    let config = BertConfig {
        hidden_size: 256,
        num_heads: 4,
        head_dim: 64,
        num_layers: 2,
        intermediate_size: 512,
        vocab_size: 1000,
        max_position_embeddings: 128,
        type_vocab_size: 2,
        eps: F32Bits(1e-12f32.to_bits()),
        weight_prefix: String::new(),
        num_labels: 0,
    };

    let g = bert_encoder(&config);
    assert!(g.len() > 0, "BERT template should have nodes");

    let all_inputs: Vec<&str> = g.nodes.iter().flat_map(|n| n.inputs.iter().map(|s| s.as_str())).collect();
    assert!(all_inputs.contains(&"embeddings.LayerNorm.weight"), "Should have embedding LN");
    assert!(all_inputs.contains(&"encoder.layer.0.attention.self.query.weight"), "Should have BERT Q weight");
    assert!(all_inputs.contains(&"encoder.layer.0.attention.self.key.weight"), "Should have BERT K weight");
    assert!(all_inputs.contains(&"encoder.layer.0.attention.self.value.weight"), "Should have BERT V weight");
    assert!(all_inputs.contains(&"encoder.layer.0.attention.output.dense.weight"), "Should have BERT attn output");
    assert!(all_inputs.contains(&"encoder.layer.0.attention.output.LayerNorm.weight"), "Should have BERT attn LN");
    assert!(all_inputs.contains(&"encoder.layer.0.intermediate.dense.weight"), "Should have BERT intermediate");
    assert!(all_inputs.contains(&"encoder.layer.0.output.dense.weight"), "Should have BERT output dense");
    assert!(all_inputs.contains(&"encoder.layer.0.output.LayerNorm.weight"), "Should have BERT output LN");
    assert!(all_inputs.contains(&"pooler.dense.weight"), "Should have pooler");

    let all_outputs: Vec<&str> = g.nodes.iter().flat_map(|n| n.outputs.iter().map(|s| s.as_str())).collect();
    assert!(all_outputs.contains(&"pooler_output"), "Should produce pooler_output");

    for node in &g.nodes {
        if let Op::Sdpa { causal, .. } = &node.op {
            assert!(!causal, "BERT attention should be non-causal (bidirectional)");
        }
    }
}

#[test]
fn test_whisper_encoder_decoder_template() {
    let config = WhisperConfig {
        n_audio_state: 256,
        n_audio_head: 4,
        n_audio_layer: 2,
        n_audio_ctx: 100,
        n_text_state: 256,
        n_text_head: 4,
        n_text_layer: 2,
        n_text_ctx: 50,
        n_vocab: 1000,
        n_mels: 80,
        eps: F32Bits(1e-5f32.to_bits()),
    };

    let g = whisper_encoder_decoder(&config);
    assert!(g.len() > 0, "Whisper template should have nodes");

    let all_inputs: Vec<&str> = g.nodes.iter().flat_map(|n| n.inputs.iter().map(|s| s.as_str())).collect();
    assert!(all_inputs.contains(&"encoder.conv1.weight"), "Should have encoder conv1 weight");
    assert!(all_inputs.contains(&"encoder.conv1.bias"), "Should have encoder conv1 bias");
    assert!(all_inputs.contains(&"encoder.blocks.0.attn_ln.weight"), "Should have encoder block attn_ln");
    assert!(all_inputs.contains(&"encoder.blocks.0.attn.query.weight"), "Should have encoder Q weight");
    assert!(all_inputs.contains(&"encoder.blocks.0.attn.key.weight"), "Should have encoder K weight");
    assert!(all_inputs.contains(&"encoder.blocks.0.mlp.0.weight"), "Should have encoder MLP up weight");
    assert!(all_inputs.contains(&"encoder.blocks.0.mlp.2.weight"), "Should have encoder MLP down weight");
    assert!(all_inputs.contains(&"encoder.ln_post.weight"), "Should have encoder ln_post");
    assert!(all_inputs.contains(&"decoder.blocks.0.attn.query.weight"), "Should have decoder Q weight");
    assert!(all_inputs.contains(&"decoder.blocks.0.cross_attn.query.weight"), "Should have decoder cross-attn Q");
    assert!(all_inputs.contains(&"decoder.ln.weight"), "Should have decoder final LN");
    assert!(all_inputs.contains(&"decoder.token_embedding.weight"), "Should have decoder token embedding");

    let all_outputs: Vec<&str> = g.nodes.iter().flat_map(|n| n.outputs.iter().map(|s| s.as_str())).collect();
    assert!(all_outputs.contains(&"logits"), "Should produce logits");
    assert!(all_outputs.contains(&"enc.output"), "Should produce encoder output");
}

#[test]
fn whisper_node_count_and_attention_modes() {
    let mut config = WhisperConfig::default();
    config.n_audio_layer = 3;
    config.n_text_layer = 2;
    let g = whisper_encoder_decoder(&config);
    assert_eq!(g.len(), 10 + 17 * 3 + 25 * 2);
    let enc_end = 6 + 17 * 3;
    for (j, n) in g.nodes.iter().enumerate() {
        assert_eq!(n.id, j);
        if let Op::Sdpa { causal, .. } = n.op {
            assert_eq!(causal, j >= enc_end);
        }
        if let Op::SdpaCross { .. } = n.op {
            assert_eq!(n.inputs[1], "enc.output");
        }
    }
    assert_eq!(g.nodes[enc_end - 1].outputs, vec!["enc.output".to_string()]);
    assert_eq!(g.nodes.last().unwrap().outputs, vec!["logits".to_string()]);
}

#[test]
fn whisper_blocks_sit_at_their_places() {
    let mut config = WhisperConfig::default();
    config.n_audio_layer = 2;
    config.n_text_layer = 2;
    let g = whisper_encoder_decoder(&config);
    // Encoder block 1 starts after the 5 stem nodes and one 17-node block.
    let e1 = 5 + 17;
    assert_eq!(g.nodes[e1].inputs[0], "enc.block_0.residual2");
    assert_eq!(g.nodes[e1 + 16].outputs, vec!["enc.block_1.residual2".to_string()]);
    // Decoder block 1: its KV cache node is the seventh of the block.
    let d1 = 8 + 17 * 2 + 25;
    assert_eq!(g.nodes[d1].inputs[0], "dec.block_0.residual3");
    assert!(matches!(g.nodes[d1 + 6].op, Op::KvCache));
    assert_eq!(g.nodes[d1 + 6].outputs, vec!["dec.block_1.kv_cached".to_string()]);
    assert_eq!(g.nodes[d1 + 14].inputs[1], "enc.output");
    assert_eq!(g.nodes[d1 + 24].outputs, vec!["dec.block_1.residual3".to_string()]);
    // The stems.
    assert_eq!(g.nodes[4].outputs, vec!["enc.pos_add".to_string()]);
    assert!(matches!(g.nodes[6 + 17 * 2].op, Op::TokenEmbed));
    assert_eq!(g.nodes[7 + 17 * 2].outputs, vec!["dec.pos_add".to_string()]);
}

#[test]
fn modernbert_has_layers_and_final_output() {
    let mut config = BertConfig::default();
    config.num_layers = 2;
    let g = modernbert_encoder(&config);
    assert_eq!(g.len(), 3 + 13 * 2);
    let all_inputs: Vec<&str> = g.nodes.iter().flat_map(|n| n.inputs.iter().map(|s| s.as_str())).collect();
    assert!(all_inputs.contains(&"model.layers.1.attn.q.weight"));
    assert!(all_inputs.contains(&"model.layers.0.mlp.Wi_gate.weight"));
    assert!(all_inputs.contains(&"model.embeddings.norm.weight"));
    let last = g.nodes.last().unwrap();
    assert_eq!(last.inputs, vec!["layer_1.residual2".to_string()]);
    assert_eq!(last.outputs, vec!["final_output".to_string()]);
    for n in &g.nodes {
        if let Op::Sdpa { causal, .. } = n.op {
            assert!(!causal);
        }
    }
}

#[test]
fn moe_counts_experts_and_sums() {
    let mut config = MoeDecoderConfig::default();
    config.num_layers = 2;
    config.num_experts = 3;
    let g = moe_decoder(&config);
    // 10 nodes of attention and routing, 6 per expert, 2 sums and the residual.
    assert_eq!(g.len(), 3 + 2 * (10 + 3 * 7));
    let all_outputs: Vec<&str> = g.nodes.iter().flat_map(|n| n.outputs.iter().map(|s| s.as_str())).collect();
    assert!(all_outputs.contains(&"layer_1.expert_2.scaled"));
    assert!(all_outputs.contains(&"layer_0.expert_sum_2"));
    assert!(!all_outputs.contains(&"layer_0.expert_sum_3"));
    assert_eq!(g.nodes.last().unwrap().outputs, vec!["logits".to_string()]);
    config.activation = Activation::GeGlu;
    let g = moe_decoder(&config);
    assert_eq!(g.len(), 3 + 2 * (10 + 3 * 6));
    for (j, n) in g.nodes.iter().enumerate() {
        assert_eq!(n.id, j);
        assert_eq!(n.attrs.len(), 0);
    }
}

#[test]
fn encoder_position_node_and_final_norm() {
    let config = small_config(2, Activation::Gelu);
    let g = transformer_encoder(&config);
    assert_eq!(g.len(), 4 + 10 * 2);
    assert!(matches!(g.nodes[1].op, Op::PosEmbed));
    assert_eq!(g.nodes[1].id, 0);
    for (j, n) in g.nodes.iter().enumerate().skip(2) {
        assert_eq!(n.id, j);
    }
    let last = g.nodes.last().unwrap();
    assert_eq!(last.inputs[0], "layer_1.residual2");
    assert_eq!(last.outputs, vec!["encoder_output".to_string()]);
}

#[test]
fn encoder_decoder_prefixes_encoder_and_attends_to_it() {
    let enc = small_config(1, Activation::Gelu);
    let dec = small_config(2, Activation::Silu);
    let g = encoder_decoder(&enc, &dec);
    let enc_len = 4 + 10;
    assert_eq!(g.len(), enc_len + 3 + 18 * 2);
    for (j, n) in g.nodes.iter().enumerate() {
        assert_eq!(n.id, j);
        if j < enc_len {
            assert!(n.outputs.iter().all(|s| s.starts_with("enc.")));
            assert!(n.inputs.iter().all(|s| s.starts_with("enc.")));
        }
        if let Op::SdpaCross { .. } = n.op {
            assert_eq!(n.inputs[1], "enc.encoder_output");
        }
        if let Op::Sdpa { causal, .. } = n.op {
            assert_eq!(causal, j >= enc_len);
        }
    }
    assert!(g.tensors.contains_key("enc.embed_out"));
    assert_eq!(g.nodes.last().unwrap().outputs, vec!["logits".to_string()]);
}

#[test]
fn dit_layers_are_time_conditioned() {
    let mut config = DiTConfig::default();
    config.num_layers = 3;
    let g = diffusion_dit(&config);
    assert_eq!(g.len(), 6 + 10 * 3);
    for n in &g.nodes {
        if let Op::AdaLN = n.op {
            assert_eq!(n.inputs.len(), 4);
            assert_eq!(n.inputs[1], "time_proj");
        }
    }
    assert_eq!(g.nodes.last().unwrap().outputs, vec!["noise_pred".to_string()]);
    assert!(g.tensors.contains_key("noise_pred"));
}

#[test]
fn cnn_detector_default_counts_and_heads() {
    let config = CnnDetectorConfig::default();
    let g = cnn_detector(&config);
    // 23 blocks of 3 nodes, 3 laterals, 2 x (upsample, merge, smooth), 3 heads.
    assert_eq!(g.len(), 3 * 23 + 3 + 6 + 3);
    let n = g.len();
    assert_eq!(g.nodes[n - 3].inputs[0], "fpn.smooth_0");
    assert_eq!(g.nodes[n - 2].inputs[0], "fpn.smooth_1");
    assert_eq!(g.nodes[n - 1].inputs[0], "fpn.lateral_2");
    assert_eq!(g.nodes[n - 1].outputs[0], "head.scale_2.conv_out");
    assert!(g.tensors.contains_key("head.scale_0.conv_out"));
    assert_eq!(g.nodes[0].inputs[0], "image");
}

#[test]
fn cnn_detector_single_stage() {
    let mut config = CnnDetectorConfig::default();
    config.backbone_channels = vec![32];
    config.blocks_per_stage = vec![];
    let g = cnn_detector(&config);
    assert_eq!(g.len(), 3 + 1 + 1);
    assert_eq!(g.nodes[3].inputs[0], "backbone.stage_0.block_0.act_out");
    assert_eq!(g.nodes[4].inputs[0], "fpn.lateral_0");
}

#[test]
fn bert_layers_read_their_own_weights() {
    let mut config = BertConfig::default();
    config.num_layers = 2;
    let g = bert_encoder(&config);
    let l1 = 6 + 18;
    assert_eq!(g.nodes[l1].inputs, vec!["layer_0.output_ln".to_string(), "encoder.layer.1.attention.self.query.weight".to_string()]);
    assert_eq!(g.nodes[l1 + 2].inputs[1], "encoder.layer.1.attention.self.key.weight");
    assert_eq!(g.nodes[l1 + 4].inputs[1], "encoder.layer.1.attention.self.value.weight");
    assert_eq!(g.nodes[l1 + 6].inputs, vec!["layer_1.q_biased".to_string(), "layer_1.k_biased".to_string()]);
    assert_eq!(g.nodes[l1 + 17].outputs, vec!["layer_1.output_ln".to_string()]);
    assert_eq!(g.nodes[5].inputs[1], "embeddings.LayerNorm.weight");
    assert_eq!(g.nodes[6 + 36].inputs, vec!["layer_1.output_ln".to_string(), "pooler.dense.weight".to_string()]);
}

#[test]
fn modernbert_layers_read_their_own_weights() {
    let mut config = BertConfig::default();
    config.num_layers = 2;
    let g = modernbert_encoder(&config);
    let l1 = 2 + 13;
    assert_eq!(g.nodes[l1].inputs[0], "layer_0.residual2");
    assert_eq!(g.nodes[l1 + 1].inputs[1], "model.layers.1.attn.q.weight");
    assert_eq!(g.nodes[l1 + 2].inputs[1], "model.layers.1.attn.k.weight");
    assert_eq!(g.nodes[l1 + 8].inputs[1], "model.layers.1.mlp.Wi_gate.weight");
    assert_eq!(g.nodes[l1 + 9].inputs[1], "model.layers.1.mlp.Wi_up.weight");
}

#[test]
fn moe_experts_read_their_own_weights() {
    let mut config = MoeDecoderConfig::default();
    config.num_layers = 1;
    config.num_experts = 2;
    let g = moe_decoder(&config);
    // Expert 1 of layer 0 starts after the embedding, 10 layer nodes and expert 0.
    let x1 = 1 + 10 + 6;
    assert_eq!(g.nodes[x1].inputs, vec!["layer_0.ffn_norm_out".to_string(), "layer_0.expert_1.gate_proj.weight".to_string()]);
    assert_eq!(g.nodes[x1 + 1].inputs[1], "layer_0.expert_1.up_proj.weight");
    assert_eq!(g.nodes[x1 + 5].outputs, vec!["layer_0.expert_1.scaled".to_string()]);
    assert_eq!(g.nodes[x1 + 6].inputs, vec!["layer_0.expert_0.scaled".to_string(), "layer_0.expert_1.scaled".to_string()]);
    assert_eq!(g.nodes[x1 + 6].outputs, vec!["layer_0.expert_sum_1".to_string()]);
}

#[test]
fn cnn_backbone_and_pyramid_wiring() {
    let config = CnnDetectorConfig::default();
    let g = cnn_detector(&config);
    // Stage 1 starts after stage 0's single block (3 nodes).
    assert_eq!(g.nodes[3].inputs, vec![
        "backbone.stage_0.block_0.act_out".to_string(),
        "backbone.stage_1.block_0.conv.weight".to_string(),
        "backbone.stage_1.block_0.conv.bias".to_string(),
    ]);
    assert!(matches!(g.nodes[3].op, Op::Conv2d { stride: (2, 2), .. }));
    assert_eq!(g.nodes[4].inputs[1], "backbone.stage_1.block_0.bn.running_mean");
    assert_eq!(g.nodes[6].inputs[0], "backbone.stage_1.block_0.act_out");
    // 23 blocks, then three laterals over stages 2..4.
    let lat = 3 * 23;
    assert_eq!(g.nodes[lat].inputs[0], "backbone.stage_2.block_7.act_out");
    assert_eq!(g.nodes[lat + 2].inputs[0], "backbone.stage_4.block_3.act_out");
    // The first top-down step upsamples the coarsest lateral into level 1.
    assert_eq!(g.nodes[lat + 3].inputs, vec!["fpn.lateral_2".to_string()]);
    assert_eq!(g.nodes[lat + 3].outputs, vec!["fpn.upsample_1".to_string()]);
    assert_eq!(g.nodes[lat + 6].inputs, vec!["fpn.smooth_1".to_string()]);
    assert_eq!(g.nodes[lat + 8].outputs, vec!["fpn.smooth_0".to_string()]);
}
