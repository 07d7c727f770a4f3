use cyb_model::specials::{detect_chat_format, inject_missing_specials};

fn toks(v: &[(u32, &str)]) -> Vec<(u32, String)> {
    v.iter().map(|(i, s)| (*i, s.to_string())).collect()
}

#[test]
fn chatml_specials_are_reconstructed() {
    let mut t = toks(&[(0, "a"), (1, "b")]);
    inject_missing_specials(&mut t, Some("<|im_end|>"), Some("<|endoftext|>"), &vec![151645, 151643]);
    assert_eq!(
        t,
        toks(&[(0, "a"), (1, "b"), (151645, "<|im_end|>"), (151643, "<|endoftext|>"), (151644, "<|im_start|>")])
    );
}

#[test]
fn present_specials_are_kept() {
    let mut t = toks(&[(7, "<|im_end|>"), (6, "x")]);
    inject_missing_specials(&mut t, Some("<|im_end|>"), None, &vec![7]);
    assert_eq!(t, toks(&[(7, "<|im_end|>"), (6, "x"), (5, "<|endoftext|>")]));
    let mut u = toks(&[(1, "a")]);
    inject_missing_specials(&mut u, Some("</s>"), Some("<pad>"), &vec![]);
    assert_eq!(u, toks(&[(1, "a")]));
}

#[test]
fn chat_formats_from_specials() {
    assert_eq!(detect_chat_format(&toks(&[(1, "<|im_end|>")]), "llama"), Some("chatml".to_string()));
    assert_eq!(detect_chat_format(&toks(&[(1, "<|eot_id|>")]), ""), Some("llama-3".to_string()));
    assert_eq!(detect_chat_format(&toks(&[(1, "<|turn>"), (2, "<turn|>")]), ""), Some("gemma4".to_string()));
    assert_eq!(detect_chat_format(&toks(&[(1, "<|turn>")]), ""), None);
    assert_eq!(detect_chat_format(&toks(&[(1, "<start_of_turn>")]), ""), Some("gemma".to_string()));
    assert_eq!(detect_chat_format(&toks(&[]), "qwen3"), Some("chatml".to_string()));
}
