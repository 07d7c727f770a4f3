use cyb_model::dtype::DType;
use cyb_model::import::{import_encoding, pack_tensors, tensor_entry, ImportConversion, PackItem};
use cyb_model::model_file::model_file_text;

#[test]
fn model_file_layout() {
    let t = model_file_text("m", "# m\n", "a = 1", "", "rs", "t", "v\n", "", 42);
    let expected = "[cyb]\ntypes = [\"model\"]\nname = \"m\"\n\n\
[[files]]\nname = \"card\"\nformat = \"md\"\n\n\
[[files]]\nname = \"config\"\nformat = \"toml\"\n\n\
[[files]]\nname = \"program\"\nformat = \"rs\"\n\n\
[[files]]\nname = \"tensors\"\nformat = \"toml\"\n\n\
[[files]]\nname = \"vocab\"\nformat = \"toml\"\n\n\
[[files]]\nname = \"eval\"\nformat = \"toml\"\n\n\
[[files]]\nname = \"weights\"\nformat = \"tensors\"\nsize = 42\n\
~~~card\n# m\n\
~~~config\na = 1\n\
~~~program\n\n\
~~~tensors\nt\n\
~~~vocab\nv\n\
~~~eval\n\n\
~~~weights\n";
    assert_eq!(t, expected);
}

#[test]
fn import_encodings_normalize_obsolete_formats() {
    assert_eq!(import_encoding(DType::F32), ("u32", ImportConversion::Keep));
    assert_eq!(import_encoding(DType::BF16), ("u16", ImportConversion::Bf16ToF16));
    assert_eq!(import_encoding(DType::Q4), ("q4k", ImportConversion::ToQ4K));
    assert_eq!(import_encoding(DType::Q4_1), ("q4k", ImportConversion::ToQ4K));
    assert_eq!(import_encoding(DType::Q4_K), ("q4k", ImportConversion::Keep));
    assert_eq!(import_encoding(DType::U8), ("ternary", ImportConversion::Keep));
    assert_eq!(import_encoding(DType::Q6_K), ("q6k", ImportConversion::Keep));
    assert_eq!(import_encoding(DType::I8), ("u32", ImportConversion::Keep));
}

#[test]
fn tensors_toml_entry() {
    let e = tensor_entry("model.norm.weight", &vec![4096, 11008], "q4k", 128, 2048);
    assert_eq!(
        e,
        "[\"model.norm.weight\"]\nshape    = [4096, 11008]\nencoding = \"q4k\"\noffset   = 128\nsize     = 2048\n"
    );
    let e = tensor_entry("x", &vec![], "u32", 0, 0);
    assert_eq!(e, "[\"x\"]\nshape    = []\nencoding = \"u32\"\noffset   = 0\nsize     = 0\n");
}

#[test]
fn packing_places_tensors_end_to_end_and_copies_keys_as_values() {
    let items = vec![
        PackItem { name: "blk.0.attn_k.weight".to_string(), shape: vec![2], dtype: DType::F32, data: vec![1, 2, 3, 4, 5, 6, 7, 8] },
        PackItem { name: "blk.0.attn_q.weight".to_string(), shape: vec![1], dtype: DType::F32, data: vec![9, 9, 9, 9] },
    ];
    let existing = vec![
        "model.layers.0.self_attn.k_proj.weight".to_string(),
        "model.layers.0.self_attn.q_proj.weight".to_string(),
    ];
    let types = vec!["full_attention".to_string()];
    let (lines, blob) = pack_tensors(&items, Some(true), &types, &existing);
    assert_eq!(
        lines,
        vec![
            "[\"model.layers.0.self_attn.k_proj.weight\"]\nshape    = [2]\nencoding = \"u32\"\noffset   = 0\nsize     = 8\n".to_string(),
            "[\"model.layers.0.self_attn.v_proj.weight\"]\nshape    = [2]\nencoding = \"u32\"\noffset   = 8\nsize     = 8\n".to_string(),
            "[\"model.layers.0.self_attn.q_proj.weight\"]\nshape    = [1]\nencoding = \"u32\"\noffset   = 16\nsize     = 4\n".to_string(),
        ]
    );
    assert_eq!(blob, vec![1, 2, 3, 4, 5, 6, 7, 8, 1, 2, 3, 4, 5, 6, 7, 8, 9, 9, 9, 9]);
    let (lines, blob) = pack_tensors(&items, None, &types, &existing);
    assert_eq!(lines.len(), 2);
    assert_eq!(blob.len(), 12);
}
