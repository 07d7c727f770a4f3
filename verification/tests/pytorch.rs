use cyb_model::dtype::DType;
use cyb_model::pytorch::{pytorch_graph, zip_directory_overruns, PytorchError, ZipReader};

fn u16le(v: &mut Vec<u8>, x: u16) {
    v.extend_from_slice(&x.to_le_bytes());
}

fn u32le(v: &mut Vec<u8>, x: u32) {
    v.extend_from_slice(&x.to_le_bytes());
}

/// A stored ZIP archive with the given entries, its end record followed by
/// a one-byte comment.
fn archive(entries: &[(&str, &[u8])]) -> Vec<u8> {
    let mut v = Vec::new();
    let mut offsets = Vec::new();
    for (name, data) in entries {
        offsets.push(v.len() as u32);
        u32le(&mut v, 0x04034b50);
        v.extend_from_slice(&[0u8; 14]);
        u32le(&mut v, data.len() as u32);
        u32le(&mut v, data.len() as u32);
        u16le(&mut v, name.len() as u16);
        u16le(&mut v, 0);
        v.extend_from_slice(name.as_bytes());
        v.extend_from_slice(data);
    }
    let cd = v.len() as u32;
    for ((name, data), off) in entries.iter().zip(offsets) {
        u32le(&mut v, 0x02014b50);
        v.extend_from_slice(&[0u8; 16]);
        u32le(&mut v, data.len() as u32);
        u32le(&mut v, data.len() as u32);
        u16le(&mut v, name.len() as u16);
        u16le(&mut v, 0);
        u16le(&mut v, 0);
        v.extend_from_slice(&[0u8; 8]);
        u32le(&mut v, off);
        v.extend_from_slice(name.as_bytes());
    }
    u32le(&mut v, 0x06054b50);
    v.extend_from_slice(&[0u8; 12]);
    u32le(&mut v, cd);
    u16le(&mut v, 1);
    v.push(b'#');
    v
}

#[test]
fn zip_reader_finds_entries() {
    let z = archive(&[("archive/data.pkl", b"pickle"), ("archive/data/0", &[1u8; 8])]);
    assert!(!zip_directory_overruns(&z));
    let zip = ZipReader::new(z).ok().unwrap();
    assert_eq!(zip.get("data.pkl"), Some(&b"pickle"[..]));
    assert_eq!(zip.get("archive/data/0"), Some(&[1u8; 8][..]));
    assert_eq!(zip.get("missing"), None);
    assert_eq!(zip.list(), vec!["archive/data.pkl".to_string(), "archive/data/0".to_string()]);
}

#[test]
fn pytorch_loads_blobs_as_flat_f32() {
    let z = archive(&[("archive/data.pkl", b"pickle"), ("archive/data/0", &[2u8; 12]), ("archive/data/", b"")]);
    let zip = ZipReader::new(z).ok().unwrap();
    let g = pytorch_graph(&zip).unwrap();
    assert_eq!(g.weights.len(), 1);
    let w = g.get_weight("data/0").unwrap();
    assert_eq!(w.shape, vec![3]);
    assert_eq!(w.dtype, DType::F32);
    assert_eq!(w.data, vec![2u8; 12]);
}

#[test]
fn pytorch_needs_data_pkl() {
    let z = archive(&[("archive/data/0", &[2u8; 4])]);
    let zip = ZipReader::new(z).ok().unwrap();
    assert_eq!(pytorch_graph(&zip).err(), Some(PytorchError::NoDataPkl));
}

#[test]
fn zip_without_end_record_is_refused() {
    assert_eq!(ZipReader::new(vec![0u8; 64]).err(), Some(PytorchError::NoEndOfDirectory));
}

#[test]
fn zip_name_past_the_end_is_detected() {
    let mut z = archive(&[("archive/data.pkl", b"pickle")]);
    let n = z.len();
    // The single directory header starts after the local entry (30 + 16 + 6 bytes).
    let cd = 52;
    z[cd + 28] = 0xff;
    z[cd + 29] = 0xff;
    assert!(n < cd + 46 + 0xffff);
    assert!(zip_directory_overruns(&z));
}

#[test]
fn empty_archive_with_record_at_the_end_opens() {
    let mut z = vec![0x50u8, 0x4b, 0x05, 0x06];
    z.extend_from_slice(&[0u8; 18]);
    assert!(!zip_directory_overruns(&z));
    let zip = ZipReader::new(z).ok().unwrap();
    assert!(zip.list().is_empty());
}

#[test]
fn repeated_directory_name_is_listed_once() {
    let z = archive(&[("a", b"x"), ("b", b""), ("a", b"yz")]);
    let zip = ZipReader::new(z).ok().unwrap();
    assert_eq!(zip.list(), vec!["a".to_string(), "b".to_string()]);
    assert_eq!(zip.get("a"), Some(&b"yz"[..]));
}
