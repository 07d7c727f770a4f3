use cyb_model::dtype::DType;
use cyb_model::gguf::{parse_gguf, read_gguf_string, read_gguf_value, GgufError, GgufValue};
use cyb_model::gguf_writer::{encode_gguf, write_gguf_string, TensorEntry};
use cyb_model::ops::F32Bits;
use cyb_model::quantize::MetaValue;

fn put_str(b: &mut Vec<u8>, s: &str) {
    b.extend_from_slice(&(s.len() as u64).to_le_bytes());
    b.extend_from_slice(s.as_bytes());
}

/// A version-3 file with two metadata pairs and the given tensors
/// (name, dims, type id, offset), followed by `data`.
fn sample(tensors: &[(&str, Vec<u64>, u32, u64)], data: &[u8]) -> Vec<u8> {
    let mut b = Vec::new();
    b.extend_from_slice(b"GGUF");
    b.extend_from_slice(&3u32.to_le_bytes());
    b.extend_from_slice(&(tensors.len() as u64).to_le_bytes());
    b.extend_from_slice(&2u64.to_le_bytes());
    put_str(&mut b, "general.architecture");
    b.extend_from_slice(&8u32.to_le_bytes());
    put_str(&mut b, "llama");
    put_str(&mut b, "llama.block_count");
    b.extend_from_slice(&4u32.to_le_bytes());
    b.extend_from_slice(&22u32.to_le_bytes());
    for (name, dims, ty, off) in tensors {
        put_str(&mut b, name);
        b.extend_from_slice(&(dims.len() as u32).to_le_bytes());
        for d in dims {
            b.extend_from_slice(&d.to_le_bytes());
        }
        b.extend_from_slice(&ty.to_le_bytes());
        b.extend_from_slice(&off.to_le_bytes());
    }
    while b.len() % 32 != 0 {
        b.push(0);
    }
    b.extend_from_slice(data);
    b
}

#[test]
fn parses_metadata_and_tensor_data() {
    let data: Vec<u8> = (0u8..24).collect();
    let bytes = sample(&[("w", vec![2, 2], 0, 0), ("h", vec![4], 1, 16)], &data);
    let (g, meta) = parse_gguf(&bytes).expect("valid file");
    assert_eq!(meta.get("general.architecture").and_then(|v| v.as_str()), Some("llama"));
    assert_eq!(meta.get("llama.block_count").and_then(|v| v.as_u32()), Some(22));
    assert_eq!(meta.len(), 2);
    assert_eq!(g.len(), 0);
    let w = g.get_weight("w").expect("w loaded");
    assert_eq!(w.data, data[0..16].to_vec());
    assert_eq!(w.shape, vec![2, 2]);
    assert_eq!(w.dtype, DType::F32);
    let h = g.get_weight("h").expect("h loaded");
    assert_eq!(h.data, data[16..24].to_vec());
    assert_eq!(h.dtype, DType::F16);
    assert!(g.tensors.contains_key("h"));
}

#[test]
fn skips_tensors_past_the_end() {
    let bytes = sample(&[("big", vec![100], 0, 0), ("q", vec![32], 2, 0)], &[7u8; 18]);
    let (g, _) = parse_gguf(&bytes).expect("valid header");
    assert!(g.get_weight("big").is_none());
    let q = g.get_weight("q").expect("one Q4_0 block fits");
    assert_eq!(q.data.len(), 18);
    assert_eq!(q.dtype, DType::Q4);
}

#[test]
fn rejects_short_and_foreign_files() {
    assert!(matches!(parse_gguf(&[0u8; 10]), Err(GgufError::TooSmall)));
    let mut bytes = sample(&[], &[]);
    bytes[0] = b'X';
    assert!(matches!(parse_gguf(&bytes), Err(GgufError::BadMagic(b'X', b'G', b'U', b'F'))));
}

#[test]
fn rejects_truncated_header() {
    let bytes = sample(&[("w", vec![4], 0, 0)], &[0u8; 16]);
    let cut = &bytes[..40];
    assert!(matches!(parse_gguf(cut), Err(GgufError::Truncated)));
}

#[test]
fn reads_arrays_and_signed_values() {
    let mut b = Vec::new();
    b.extend_from_slice(&9u32.to_le_bytes());
    b.extend_from_slice(&5u32.to_le_bytes());
    b.extend_from_slice(&2u64.to_le_bytes());
    b.extend_from_slice(&(-3i32).to_le_bytes());
    b.extend_from_slice(&7i32.to_le_bytes());
    let mut pos = 0usize;
    let v = read_gguf_value(&b, &mut pos).expect("array");
    assert_eq!(pos, b.len());
    match v {
        GgufValue::Array(items) => {
            assert_eq!(items.len(), 2);
            assert!(matches!(items[0], GgufValue::I32(-3)));
            assert_eq!(items[0].as_u64(), Some((-3i32) as u64));
            assert_eq!(items[1].as_u32(), Some(7));
        }
        _ => panic!("expected an array"),
    }
}

#[test]
fn reports_unknown_value_types() {
    let mut b = Vec::new();
    b.extend_from_slice(&42u32.to_le_bytes());
    b.extend_from_slice(&[0u8; 8]);
    let mut pos = 0usize;
    assert!(matches!(read_gguf_value(&b, &mut pos), Err(GgufError::UnknownValueType(42))));
    let mut b = Vec::new();
    b.extend_from_slice(&9u32.to_le_bytes());
    b.extend_from_slice(&13u32.to_le_bytes());
    b.extend_from_slice(&1u64.to_le_bytes());
    b.extend_from_slice(&[0u8; 8]);
    let mut pos = 0usize;
    assert!(matches!(read_gguf_value(&b, &mut pos), Err(GgufError::UnknownArrayType(13))));
}

#[test]
fn rejects_invalid_utf8_strings() {
    let mut b = Vec::new();
    b.extend_from_slice(&8u32.to_le_bytes());
    b.extend_from_slice(&2u64.to_le_bytes());
    b.extend_from_slice(&[0xff, 0xfe]);
    let mut pos = 0usize;
    assert!(matches!(read_gguf_value(&b, &mut pos), Err(GgufError::InvalidUtf8)));
}

#[test]
fn written_files_read_back() {
    let metadata = vec![
        ("general.architecture".to_string(), MetaValue::String("llama".to_string())),
        ("llama.block_count".to_string(), MetaValue::U64(2)),
        ("llama.rope.freq_base".to_string(), MetaValue::F32(F32Bits(10000.0f32.to_bits()))),
        ("llama.block_count".to_string(), MetaValue::U64(3)),
        ("x.i32".to_string(), MetaValue::I32(-7)),
    ];
    let tensors = vec![
        TensorEntry { name: "a".to_string(), shape: vec![2, 3], ggml_type: 0, data: (0u8..24).collect() },
        TensorEntry { name: "q".to_string(), shape: vec![64], ggml_type: 2, data: vec![9u8; 36] },
    ];
    let bytes = encode_gguf(&metadata, &tensors);
    assert_eq!(bytes.len() % 32, 0);
    let (g, meta) = parse_gguf(&bytes).expect("written file parses");
    assert_eq!(meta.len(), 4);
    assert_eq!(meta.get("general.architecture").and_then(|v| v.as_str()), Some("llama"));
    assert!(matches!(meta.get("llama.block_count"), Some(GgufValue::U64(3))));
    assert!(matches!(meta.get("x.i32"), Some(GgufValue::I32(-7))));
    let a = g.get_weight("a").expect("a");
    assert_eq!(a.data, (0u8..24).collect::<Vec<u8>>());
    assert_eq!(a.shape, vec![2, 3]);
    let q = g.get_weight("q").expect("q");
    assert_eq!(q.data, vec![9u8; 36]);
    assert_eq!(q.dtype, DType::Q4);
}

#[test]
fn written_string_reads_back() {
    let mut w = Vec::new();
    write_gguf_string(&mut w, "h\u{e9}llo");
    assert_eq!(w.len(), 8 + 6);
    let mut pos = 0usize;
    assert_eq!(read_gguf_string(&w, &mut pos).ok(), Some("h\u{e9}llo".to_string()));
    assert_eq!(pos, w.len());
    let mut short = 0usize;
    assert!(matches!(read_gguf_string(&w[..10], &mut short), Err(GgufError::Truncated)));
}
