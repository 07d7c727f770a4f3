use cyb_model::dtype::DType;
use cyb_model::ggml::{ggml_type_block_size, ggml_type_element_size, ggml_type_to_dtype, parse_ggml, GgmlError, GGML_MAGIC};

fn push_u32(v: &mut Vec<u8>, x: u32) {
    v.extend_from_slice(&x.to_le_bytes());
}

/// Magic, hyperparameters 1..=11, a 2x2 filterbank, the given words.
fn header(words: &[&[u8]]) -> Vec<u8> {
    let mut v = Vec::new();
    push_u32(&mut v, GGML_MAGIC);
    for i in 1..=11u32 {
        push_u32(&mut v, i);
    }
    push_u32(&mut v, 2);
    push_u32(&mut v, 2);
    for f in [0.5f32, 1.0, 1.5, 2.0] {
        v.extend_from_slice(&f.to_le_bytes());
    }
    push_u32(&mut v, words.len() as u32);
    for w in words {
        push_u32(&mut v, w.len() as u32);
        v.extend_from_slice(w);
    }
    v
}

fn push_tensor(v: &mut Vec<u8>, name: &str, dims: &[u32], ttype: u32, data: &[u8]) {
    push_u32(v, dims.len() as u32);
    push_u32(v, name.len() as u32);
    push_u32(v, ttype);
    for d in dims {
        push_u32(v, *d);
    }
    v.extend_from_slice(name.as_bytes());
    v.extend_from_slice(data);
}

#[test]
fn ggml_parses_header_vocab_and_tensors() {
    let mut v = header(&[b"hello", b" world"]);
    push_tensor(&mut v, "enc.w", &[2, 3], 0, &[7u8; 24]);
    push_tensor(&mut v, "enc.h", &[4], 1, &[9u8; 8]);
    v.extend_from_slice(&[0u8; 12]);
    let d = parse_ggml(&v).unwrap();
    assert_eq!(d.hparams.n_vocab, 1);
    assert_eq!(d.hparams.n_audio_state, 3);
    assert_eq!(d.hparams.ftype, 11);
    assert_eq!(d.mel_filters.n_mel, 2);
    assert_eq!(d.mel_filters.n_fft, 2);
    let mel: Vec<f32> = d.mel_filters.data.iter().map(|b| f32::from_bits(b.0)).collect();
    assert_eq!(mel, vec![0.5, 1.0, 1.5, 2.0]);
    assert_eq!(d.vocab, vec!["hello".to_string(), " world".to_string()]);
    assert_eq!(d.graph.weights.len(), 2);
    let w = d.graph.get_weight("enc.w").unwrap();
    assert_eq!(w.shape, vec![2, 3]);
    assert_eq!(w.dtype, DType::F32);
    assert_eq!(w.data.len(), 24);
    let h = d.graph.get_weight("enc.h").unwrap();
    assert_eq!(h.dtype, DType::F16);
    assert_eq!(h.data, vec![9u8; 8]);
    assert!(d.graph.tensors.contains_key("enc.h"));
}

#[test]
fn ggml_quantized_sizes_whole_blocks() {
    let mut v = header(&[]);
    // 64 elements of Q4_0: two blocks of 18 bytes.
    push_tensor(&mut v, "q", &[64], 2, &[1u8; 36]);
    v.extend_from_slice(&[0u8; 13]);
    let d = parse_ggml(&v).unwrap();
    let q = d.graph.get_weight("q").unwrap();
    assert_eq!(q.data.len(), 36);
    assert_eq!(q.dtype, DType::Q4);
}

#[test]
fn ggml_rejects_bad_magic() {
    let mut v = header(&[]);
    v[0] = 0;
    assert!(matches!(parse_ggml(&v), Err(GgmlError::BadMagic(_))));
}

#[test]
fn ggml_rejects_short_file() {
    assert_eq!(parse_ggml(&[1, 2]).err(), Some(GgmlError::Truncated));
    let v = header(&[]);
    assert_eq!(parse_ggml(&v[..40]).err(), Some(GgmlError::Truncated));
}

#[test]
fn ggml_rejects_overlong_word() {
    let mut v = header(&[]);
    let n = v.len();
    v[n - 4..].copy_from_slice(&1u32.to_le_bytes());
    push_u32(&mut v, 0x100001);
    assert_eq!(parse_ggml(&v).err(), Some(GgmlError::WordTooLong(0x100001)));
}

#[test]
fn ggml_truncated_tensor_name_is_an_error() {
    let mut v = header(&[]);
    push_u32(&mut v, 1);
    push_u32(&mut v, 200);
    push_u32(&mut v, 0);
    push_u32(&mut v, 4);
    v.extend_from_slice(b"short");
    assert_eq!(parse_ggml(&v).err(), Some(GgmlError::Truncated));
}

#[test]
fn ggml_out_of_bounds_data_ends_the_tensors() {
    let mut v = header(&[]);
    push_tensor(&mut v, "a", &[2], 0, &[0u8; 8]);
    push_tensor(&mut v, "b", &[100], 0, &[0u8; 16]);
    let d = parse_ggml(&v).unwrap();
    assert_eq!(d.graph.weights.len(), 1);
    assert!(d.graph.get_weight("a").is_some());
    assert!(d.graph.get_weight("b").is_none());
}

#[test]
fn ggml_type_tables() {
    assert_eq!(ggml_type_to_dtype(3), DType::Q4_1);
    assert_eq!(ggml_type_to_dtype(8), DType::Q8);
    assert_eq!(ggml_type_to_dtype(77), DType::F32);
    assert_eq!(ggml_type_element_size(8), 34);
    assert_eq!(ggml_type_block_size(8), 32);
    assert_eq!(ggml_type_block_size(1), 1);
}
