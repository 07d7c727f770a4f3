use cyb_model::executor::{attr_u32, embed_table_name, f32_bits_to_u32, gpu_quant_to_dispatch, inputs_available, GpuQuantFormat, QuantFormat};
use cyb_model::graph::{AttrValue, Attrs, Node};
use cyb_model::ops::{F32Bits, Op};

#[test]
fn test_gpu_quant_to_dispatch() {
    assert_eq!(gpu_quant_to_dispatch(GpuQuantFormat::Q4) as u8, QuantFormat::Q4 as u8);
    assert_eq!(gpu_quant_to_dispatch(GpuQuantFormat::F32) as u8, QuantFormat::F32 as u8);
}

#[test]
fn test_attr_u32_extraction() {
    let mut attrs: Attrs = Attrs::new();
    attrs.insert("hidden".to_string(), AttrValue::Int(4096));
    attrs.insert("eps".to_string(), AttrValue::Float(F32Bits(1e-5f32.to_bits())));

    let node = Node {
        id: 0,
        op: Op::Add,
        inputs: vec![],
        outputs: vec![],
        attrs,
        backend_hint: None,
    };

    assert_eq!(attr_u32(&node, "hidden"), Some(4096));
    assert_eq!(attr_u32(&node, "missing"), None);
    assert_eq!(attr_u32(&node, "eps"), Some(0));
}

#[test]
fn float_bits_convert_like_as() {
    for x in [0.0f32, 0.5, 1.0, 3.7, 4096.0, 16777217.0, 3e9, 4294967295.0, 5e9, -1.0, -0.0, 1e-40] {
        assert_eq!(f32_bits_to_u32(x.to_bits()), x as u32, "{x}");
    }
    assert_eq!(f32_bits_to_u32(f32::NAN.to_bits()), 0);
    assert_eq!(f32_bits_to_u32(f32::INFINITY.to_bits()), u32::MAX);
    assert_eq!(f32_bits_to_u32(f32::NEG_INFINITY.to_bits()), 0);
}

#[test]
fn attr_kinds_without_integer_reading() {
    let mut attrs: Attrs = Attrs::new();
    attrs.insert("name".to_string(), AttrValue::String("v".to_string()));
    attrs.insert("neg".to_string(), AttrValue::Int(-1));
    let node = Node { id: 0, op: Op::Add, inputs: vec![], outputs: vec![], attrs, backend_hint: None };
    assert_eq!(attr_u32(&node, "name"), None);
    assert_eq!(attr_u32(&node, "neg"), Some(u32::MAX));
}

fn embed_node(inputs: Vec<String>, attrs: Attrs) -> Node {
    Node { id: 3, op: Op::TokenEmbed, inputs, outputs: vec!["h".to_string()], attrs, backend_hint: None }
}

#[test]
fn node_with_missing_input_is_not_ready() {
    let node = embed_node(vec!["input_ids".to_string(), "enc_out".to_string()], Attrs::new());
    let weights = vec!["enc_out".to_string()];
    assert!(inputs_available(&node, &vec!["input_ids".to_string()], &weights));
    assert!(!inputs_available(&node, &vec![], &weights));
    assert!(inputs_available(&embed_node(vec![], Attrs::new()), &vec![], &vec![]));
}

#[test]
fn embedding_table_falls_back_through_known_names() {
    let weights = vec!["wte.weight".to_string(), "transformer.wte.weight".to_string()];
    let node = embed_node(vec!["input_ids".to_string()], Attrs::new());
    assert_eq!(embed_table_name(&node, &weights), Some("transformer.wte.weight".to_string()));
    let mut attrs = Attrs::new();
    attrs.insert("embed_weight".to_string(), AttrValue::String("wte.weight".to_string()));
    assert_eq!(embed_table_name(&embed_node(vec![], attrs), &weights), Some("wte.weight".to_string()));
    let mut attrs = Attrs::new();
    attrs.insert("embed_weight".to_string(), AttrValue::String("absent".to_string()));
    assert_eq!(embed_table_name(&embed_node(vec![], attrs), &weights), Some("transformer.wte.weight".to_string()));
    assert_eq!(embed_table_name(&node, &vec![]), None);
}
