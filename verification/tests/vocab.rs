use cyb_model::vocab::parse_vocab;

#[test]
fn tokens_and_merges_in_order() {
    let text = "# vocabulary\n[tokens]\n0 = \"<unk>\"\n1 = \"<s>\"\n 2 = 'raw\\n' \r\n3 = \"a\\tb\\\"c\"\n\n[merges]\n0 = [\"a\", \"b\"]\n1 = [ \"ab\" , 'c' ]\n";
    let (tokens, merges) = parse_vocab(text);
    assert_eq!(
        tokens,
        vec![
            (0, "<unk>".to_string()),
            (1, "<s>".to_string()),
            (2, "raw\\n".to_string()),
            (3, "a\tb\"c".to_string()),
        ]
    );
    assert_eq!(merges, vec![("a".to_string(), "b".to_string()), ("ab".to_string(), "c".to_string())]);
}

#[test]
fn unicode_escapes() {
    let text = "[tokens]\n5 = \"\\u{41}\\u{1F600}\"\n6 = \"x\\u{D800}y\"\n7 = \"\\u{zz}q\"\n8 = \"\\uq\"\n9 = \"open\\u{42\"\n";
    let (tokens, _) = parse_vocab(text);
    assert_eq!(
        tokens,
        vec![
            (5, "A\u{1F600}".to_string()),
            (6, "xy".to_string()),
            (7, "q".to_string()),
            (8, "q".to_string()),
            (9, "openB".to_string()),
        ]
    );
}

#[test]
fn malformed_lines_are_skipped() {
    let text = "0 = \"outside\"\n[tokens]\nx = \"bad id\"\n-1 = \"neg\"\n+4 = \"plus\"\n4294967296 = \"big\"\n10 = unquoted\n11 = \"trailing\\\"\n12\n[merges]\n0 = [\"a\"]\n1 = \"a\", \"b\"\n2 = [\"a\", \"b\"]\n";
    let (tokens, merges) = parse_vocab(text);
    assert_eq!(tokens, vec![(4, "plus".to_string())]);
    assert_eq!(merges, vec![("a".to_string(), "b".to_string())]);
}
