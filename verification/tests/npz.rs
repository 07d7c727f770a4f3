use cyb_model::dtype::DType;
use cyb_model::npz::{npz_graph, parse_npy, parse_npy_header, NpyError};

fn npy_v1(header: &str, data: &[u8]) -> Vec<u8> {
    let mut v = vec![0x93, b'N', b'U', b'M', b'P', b'Y', 1, 0];
    v.extend_from_slice(&(header.len() as u16).to_le_bytes());
    v.extend_from_slice(header.as_bytes());
    v.extend_from_slice(data);
    v
}

fn zip_entry(name: &str, compression: u16, data: &[u8]) -> Vec<u8> {
    let mut v = Vec::new();
    v.extend_from_slice(&0x04034b50u32.to_le_bytes());
    v.extend_from_slice(&[20, 0, 0, 0]);
    v.extend_from_slice(&compression.to_le_bytes());
    v.extend_from_slice(&[0u8; 8]);
    v.extend_from_slice(&(data.len() as u32).to_le_bytes());
    v.extend_from_slice(&(data.len() as u32).to_le_bytes());
    v.extend_from_slice(&(name.len() as u16).to_le_bytes());
    v.extend_from_slice(&0u16.to_le_bytes());
    v.extend_from_slice(name.as_bytes());
    v.extend_from_slice(data);
    v
}

#[test]
fn npy_header_fields() {
    let (shape, dtype, fortran) =
        parse_npy_header("{'descr': '<f4', 'fortran_order': False, 'shape': (4096, 4096), }\n").unwrap();
    assert_eq!(shape, vec![4096, 4096]);
    assert_eq!(dtype, DType::F32);
    assert!(!fortran);
    let (shape, dtype, fortran) = parse_npy_header("{'descr': '|u1', 'fortran_order': True, 'shape': (7,), }").unwrap();
    assert_eq!(shape, vec![7]);
    assert_eq!(dtype, DType::U8);
    assert!(fortran);
    let (shape, dtype, _) = parse_npy_header("{'descr': '<f2', 'shape': (), }").unwrap();
    assert!(shape.is_empty());
    assert_eq!(dtype, DType::F16);
}

#[test]
fn npy_header_unknown_descr_reads_f32() {
    let (_, dtype, _) = parse_npy_header("{'descr': '<c8', 'shape': (2,), }").unwrap();
    assert_eq!(dtype, DType::F32);
    let (_, dtype, _) = parse_npy_header("{'descr': '<f8', 'shape': (2,), }").unwrap();
    assert_eq!(dtype, DType::F32);
}

#[test]
fn npy_header_missing_fields() {
    assert_eq!(parse_npy_header("{'shape': (2,), }").err(), Some(NpyError::MissingDescr));
    assert_eq!(parse_npy_header("{'descr': '<f4', }").err(), Some(NpyError::MissingShape));
    assert_eq!(parse_npy_header("{'descr': '<f4', 'shape': (2, x), }").err(), Some(NpyError::MissingShape));
}

#[test]
fn npy_parses_data_after_header() {
    let v = npy_v1("{'descr': '<i1', 'fortran_order': False, 'shape': (3,), }", &[1, 2, 3]);
    let (shape, dtype, raw) = parse_npy(&v).unwrap();
    assert_eq!(shape, vec![3]);
    assert_eq!(dtype, DType::I8);
    assert_eq!(raw, vec![1, 2, 3]);
}

#[test]
fn npy_errors() {
    assert_eq!(parse_npy(&[0u8; 5]).err(), Some(NpyError::TooSmall));
    let mut bad = npy_v1("{}", &[]);
    bad[1] = b'X';
    assert_eq!(parse_npy(&bad).err(), Some(NpyError::BadMagic));
    let mut v0 = npy_v1("{}", &[]);
    v0[6] = 0;
    v0[7] = 9;
    assert_eq!(parse_npy(&v0).err(), Some(NpyError::UnsupportedVersion { major: 0, minor: 9 }));
    let mut long = npy_v1("{}", &[]);
    long[8] = 200;
    assert_eq!(parse_npy(&long).err(), Some(NpyError::HeaderBeyondData { header_end: 210, data_len: 12 }));
    let v2 = vec![0x93, b'N', b'U', b'M', b'P', b'Y', 2, 0, 0, 0];
    assert_eq!(parse_npy(&v2).err(), Some(NpyError::V2HeaderTooShort));
    let mut not_utf8 = npy_v1("ab", &[]);
    not_utf8[10] = 0xff;
    assert_eq!(parse_npy(&not_utf8).err(), Some(NpyError::HeaderNotUtf8));
}

#[test]
fn npz_loads_stored_npy_entries() {
    let a = npy_v1("{'descr': '<f4', 'fortran_order': False, 'shape': (2,), }", &[0u8; 8]);
    let b = npy_v1("{'descr': '<f2', 'fortran_order': False, 'shape': (1, 2), }", &[1u8; 4]);
    let mut zip = zip_entry("a.npy", 0, &a);
    zip.extend(zip_entry("layer.b.npy", 0, &b));
    zip.extend(zip_entry("skipped.npy", 12, &a));
    zip.extend(zip_entry("junk", 0, b"not an array"));
    zip.extend_from_slice(&[0x50, 0x4b, 0x01, 0x02]);
    let g = npz_graph(&zip);
    assert_eq!(g.weights.len(), 2);
    let wa = g.get_weight("a").unwrap();
    assert_eq!(wa.shape, vec![2]);
    assert_eq!(wa.dtype, DType::F32);
    assert_eq!(wa.data, vec![0u8; 8]);
    let wb = g.get_weight("layer.b").unwrap();
    assert_eq!(wb.shape, vec![1, 2]);
    assert_eq!(wb.dtype, DType::F16);
    assert!(g.get_weight("skipped").is_none());
    assert!(g.tensors.contains_key("layer.b"));
}

#[test]
fn npz_inflates_deflate_entries() {
    let a = npy_v1("{'descr': '<f4', 'fortran_order': False, 'shape': (3,), }", &[7u8; 12]);
    let packed = miniz_oxide::deflate::compress_to_vec(&a, 6);
    let mut zip = zip_entry("first.npy", 0, &a);
    zip.extend(zip_entry("packed.npy", 8, &packed));
    zip.extend(zip_entry("broken.npy", 8, &[0xff, 0xff, 0xff]));
    zip.extend_from_slice(&[0x50, 0x4b, 0x01, 0x02]);
    let g = npz_graph(&zip);
    assert_eq!(g.weights.len(), 2);
    let w = g.get_weight("packed").unwrap();
    assert_eq!(w.shape, vec![3]);
    assert_eq!(w.data, vec![7u8; 12]);
    assert!(g.get_weight("first").is_some());
    assert!(g.get_weight("broken").is_none());
}
