use cyb_model::dtype::DType;
use cyb_model::safetensors::{safetensors_dtype, safetensors_graph, safetensors_header, SafetensorsEntry, SafetensorsError};

fn file(header: &[u8], data: &[u8]) -> Vec<u8> {
    let mut b = Vec::new();
    b.extend_from_slice(&(header.len() as u64).to_le_bytes());
    b.extend_from_slice(header);
    b.extend_from_slice(data);
    b
}

fn entry(name: &str, dtype: &str, shape: Vec<usize>, start: u64, end: u64) -> SafetensorsEntry {
    SafetensorsEntry { name: name.to_string(), dtype: dtype.to_string(), shape, start, end }
}

#[test]
fn header_is_located_and_decoded() {
    let b = file(br#"{"a":{}}"#, &[1, 2, 3]);
    let (text, ds) = safetensors_header(&b).expect("header");
    assert_eq!(text, r#"{"a":{}}"#);
    assert_eq!(ds, 16);
}

#[test]
fn header_errors() {
    assert_eq!(safetensors_header(&[1, 2, 3]).unwrap_err(), SafetensorsError::TooSmall);
    let mut b = 100u64.to_le_bytes().to_vec();
    b.extend_from_slice(b"{}");
    assert_eq!(
        safetensors_header(&b).unwrap_err(),
        SafetensorsError::HeaderTooLarge { header_size: 100, file_size: 10 }
    );
    let b = file(&[0xff, 0xfe], &[]);
    assert_eq!(safetensors_header(&b).unwrap_err(), SafetensorsError::HeaderNotUtf8);
}

#[test]
fn tensors_are_sliced_and_out_of_bounds_skipped() {
    let data: Vec<u8> = (0u8..12).collect();
    let b = file(b"{}", &data);
    let ds = 10;
    let entries = vec![
        entry("__metadata__", "F32", vec![], 0, 0),
        entry("w", "F16", vec![2, 2], 0, 8),
        entry("b", "U8", vec![4], 8, 12),
        entry("far", "F32", vec![4], 8, 40),
    ];
    let g = safetensors_graph(&b, ds, entries);
    assert_eq!(g.weights.len(), 2);
    let w = g.get_weight("w").unwrap();
    assert_eq!(w.data, (0u8..8).collect::<Vec<u8>>());
    assert_eq!(w.shape, vec![2, 2]);
    assert_eq!(w.dtype, DType::F16);
    assert_eq!(g.get_weight("b").unwrap().data, vec![8, 9, 10, 11]);
    assert!(g.get_weight("far").is_none());
    assert!(g.get_weight("__metadata__").is_none());
    assert!(g.tensors.contains_key("w"));
    assert_eq!(g.len(), 0);
}

#[test]
fn dtype_strings() {
    assert_eq!(safetensors_dtype("BF16"), DType::BF16);
    assert_eq!(safetensors_dtype("I8"), DType::I8);
    assert_eq!(safetensors_dtype("F64"), DType::F32);
}
