use cyb_model::fasttext::{bin_graph, BinError, FASTTEXT_MAGIC};

fn le(v: &mut Vec<u8>, x: u32) {
    v.extend_from_slice(&x.to_le_bytes());
}

#[test]
fn fasttext_v2_matrix() {
    let mut v = Vec::new();
    le(&mut v, FASTTEXT_MAGIC);
    le(&mut v, 2);
    le(&mut v, 3);
    v.extend_from_slice(&[5u8; 24]);
    let g = bin_graph(&v).unwrap();
    let w = g.get_weight("embeddings.weight").unwrap();
    assert_eq!(w.shape, vec![2, 3]);
    assert_eq!(w.data, vec![5u8; 24]);
    assert_eq!(g.weights.len(), 1);
}

#[test]
fn fasttext_v1_matrix() {
    let mut v = Vec::new();
    le(&mut v, 1);
    le(&mut v, 2);
    v.extend_from_slice(&[7u8; 8]);
    let g = bin_graph(&v).unwrap();
    assert_eq!(g.get_weight("embeddings.weight").unwrap().shape, vec![1, 2]);
}

#[test]
fn raw_dump_is_one_flat_tensor() {
    let mut v = Vec::new();
    le(&mut v, 0);
    le(&mut v, 0);
    le(&mut v, 9);
    let g = bin_graph(&v).unwrap();
    let w = g.get_weight("weight").unwrap();
    assert_eq!(w.shape, vec![3]);
    assert_eq!(w.data.len(), 12);
}

#[test]
fn bin_errors() {
    assert_eq!(bin_graph(&[0u8; 8]).err(), Some(BinError::TooSmall));
    let mut v = Vec::new();
    le(&mut v, FASTTEXT_MAGIC);
    le(&mut v, 1);
    le(&mut v, 1);
    assert_eq!(bin_graph(&v).err(), Some(BinError::TooSmallV2));
    le(&mut v, 0);
    le(&mut v, 0);
    let mut big = Vec::new();
    le(&mut big, FASTTEXT_MAGIC);
    le(&mut big, 2);
    le(&mut big, 2);
    le(&mut big, 0);
    assert_eq!(bin_graph(&big).err(), Some(BinError::OutOfBounds { need: 16, offset: 12, len: 16 }));
    assert_eq!(bin_graph(&[0u8; 13]).err(), Some(BinError::NotF32Aligned));
}

#[test]
fn negative_first_word_falls_back_to_raw_f32() {
    let mut v = Vec::new();
    v.extend_from_slice(&(-1.5f32).to_le_bytes());
    v.extend_from_slice(&(2.0f32).to_le_bytes());
    v.extend_from_slice(&(3.0f32).to_le_bytes());
    let g = bin_graph(&v).unwrap();
    assert_eq!(g.weights.get("weight").unwrap().shape, vec![3]);
    assert_eq!(g.weights.get("weight").unwrap().data, v);
}
