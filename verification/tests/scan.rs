use cyb_model::scan::{decode_bpe_token, extract_json_u64, find_int, header_meta};

#[test]
fn find_int_reads_key_lines() {
    let text = "[architecture]\nhidden_size = 896\nnum_hidden_layers = 24\r\nmax_position_embeddings = \"32768\"\n";
    assert_eq!(find_int(text, "num_hidden_layers"), Some(24));
    assert_eq!(find_int(text, "max_position_embeddings"), Some(32768));
    assert_eq!(find_int(text, "vocab_size"), None);
    assert_eq!(find_int("  offset = -12  ", "offset"), Some(-12));
    assert_eq!(find_int("x = abc\nx = 7", "x"), Some(7));
    assert_eq!(find_int("x : 7", "x"), None);
    assert_eq!(find_int("x = 99999999999999999999", "x"), None);
    assert_eq!(find_int("x = -9223372036854775808", "x"), Some(i64::MIN));
}

#[test]
fn header_meta_falls_back_to_context_length() {
    assert_eq!(header_meta("num_hidden_layers = 28\ncontext_length = 4096\n"), (28, 4096));
    assert_eq!(header_meta("nothing here"), (0, 0));
    assert_eq!(header_meta("num_hidden_layers = 2\nmax_position_embeddings = 10\ncontext_length = 4\n"), (2, 10));
}

#[test]
fn json_u64_fields() {
    let reply = r#"{"model":"m","eval_count": 64,"eval_duration":1500000000}"#;
    assert_eq!(extract_json_u64(reply, "eval_count"), 64);
    assert_eq!(extract_json_u64(reply, "eval_duration"), 1_500_000_000);
    assert_eq!(extract_json_u64(reply, "missing"), 0);
    assert_eq!(extract_json_u64(r#"{"a":"x"}"#, "a"), 0);
    assert_eq!(extract_json_u64(r#"{"a":99999999999999999999}"#, "a"), 0);
}

#[test]
fn bpe_tokens_decode_space_and_newline() {
    assert_eq!(decode_bpe_token("\u{0120}hello"), " hello");
    assert_eq!(decode_bpe_token("a\u{010a}b"), "a\nb");
    assert_eq!(decode_bpe_token("plain"), "plain");
}
