use herdr_native::digest::{digest_text, session_journal, session_record};
use herdr_native::json::{
    from_value, parse_json, parse_string_list, print_json, to_value, Json,
};
use herdr_native::text::{
    byte_len, contains_control, decimal_text, is_control, is_whitespace, lower_hex_text, safe_text,
    terminal_text, text_before, text_eq, trim,
};

#[test]
fn untrusted_output_cannot_emit_terminal_controls() {
    assert_eq!(safe_text("hi\x1b[31m\x07\nthere"), "hi[31m\nthere");
}

#[test]
fn the_classes_of_characters_are_those_of_std() {
    for c in '\0'..=char::MAX {
        assert_eq!(is_control(c), c.is_control(), "{c:?}");
        assert_eq!(is_whitespace(c), c.is_whitespace(), "{c:?}");
    }
}

#[test]
fn safe_text_is_left_as_it_is() {
    for text in ["", "plain", "a\tb\nc", "é ❯ \u{1f600}"] {
        assert_eq!(safe_text(text), text);
    }
    let once = safe_text("a\r\x1b\u{9b}b\x7f");
    assert_eq!(once, "ab");
    assert_eq!(safe_text(&once), once);
}

#[test]
fn terminal_text_ends_lines_whole() {
    assert_eq!(terminal_text("a\nb\r\nc\r"), "a\r\nb\r\nc");
    assert_eq!(terminal_text("\n\n"), "\r\n\r\n");
}

#[test]
fn texts_are_compared_measured_and_trimmed_as_std_does() {
    let texts = ["", " ", "a", " a b\u{3000}", "é", "\u{85}x\u{a0}", "ab", "\u{1f600}"];
    for a in texts {
        assert_eq!(byte_len(a), a.len());
        assert_eq!(trim(a), a.trim());
        assert_eq!(contains_control(a), a.chars().any(char::is_control));
        for b in texts {
            assert_eq!(text_eq(a, b), a == b);
            assert_eq!(text_before(a, b), a < b);
        }
    }
}

#[test]
fn numbers_and_bytes_are_written_as_std_writes_them() {
    for n in [0, 9, 10, 42, 1000, u64::MAX] {
        assert_eq!(decimal_text(n), n.to_string());
    }
    assert_eq!(lower_hex_text(&[0, 1, 0x9f, 0xab, 0xff]), "00019fabff");
}

#[test]
fn digests_are_sha256_in_lower_case() {
    assert_eq!(
        digest_text("abc"),
        "ba7816bf8f01cfea414140de5dae2223b00361a396177a9cb410ff61f20015ad"
    );
    assert_eq!(
        session_record(""),
        "e3b0c44298fc1c149afbf4c8996fb92427ae41e4649b934ca495991b7852b855.launch.json"
    );
    assert_eq!(
        session_journal("abc"),
        "ba7816bf8f01cfea414140de5dae2223b00361a396177a9cb410ff61f20015ad.json"
    );
}

#[test]
fn documents_are_read_and_printed() {
    let text = "{\"a\":[1,-2,true,null,\"x\\n\"],\"b\":{\"c\":\"d\"}}";
    let json = parse_json(text.as_bytes()).unwrap();
    assert_eq!(print_json(&json), text);
    assert_eq!(json.copy_at("b").text_at("c"), Some("d"));
    assert_eq!(json.get("missing"), None);
    assert_eq!(json.copy_at("missing"), Json::Null);
    assert!(json.has("a") && !json.has("c"));
    assert_eq!(
        json.copy_at("a"),
        Json::List(vec![
            Json::of_u64(1),
            Json::of_i64(-2),
            Json::Bool(true),
            Json::Null,
            Json::of_text("x\n"),
        ])
    );
    assert_eq!(json.clone(), json);
}

#[test]
fn documents_and_values_are_the_same() {
    let text = "{\"a\":[1,{\"b\":[]}],\"c\":0.5}";
    let value: serde_json::Value = serde_json::from_str(text).unwrap();
    let json = from_value(value.clone());
    assert_eq!(to_value(&json), value);
    assert_eq!(json.copy_at("c").unsigned(), None);
}

#[test]
fn of_two_fields_with_one_name_the_later_counts() {
    let json = Json::Table(vec![
        ("a".to_string(), Json::of_u64(1)),
        ("a".to_string(), Json::of_text("later")),
    ]);
    assert_eq!(json.text_at("a"), Some("later"));
    assert_eq!(print_json(&json), "{\"a\":\"later\"}");
    let json = Json::Table(vec![
        ("a".to_string(), Json::Bool(false)),
        ("b".to_string(), Json::Null),
        ("a".to_string(), Json::Bool(true)),
        ("c".to_string(), Json::of_u64(3)),
    ]);
    assert_eq!(print_json(&json), "{\"a\":true,\"b\":null,\"c\":3}");
}

#[test]
fn the_end_of_a_broken_document_is_told_from_other_failures() {
    let short = parse_json(b"{\"a\":").unwrap_err();
    assert!(short.eof);
    let wrong = parse_json(b"{a}").unwrap_err();
    assert!(!wrong.eof);
    assert!(wrong.text.contains("key must be a string"));
}

#[test]
fn whole_numbers_are_read_as_such() {
    for (text, n) in [("1", Some(1)), ("18446744073709551615", Some(u64::MAX)), ("-1", None), ("1.0", None), ("\"1\"", None)] {
        assert_eq!(parse_json(text.as_bytes()).unwrap().unsigned(), n);
    }
}

#[test]
fn lists_of_texts_are_told_from_other_texts() {
    assert_eq!(
        parse_string_list("[\"a\", \"m\"]"),
        Some(vec!["a".to_string(), "m".to_string()])
    );
    assert_eq!(parse_string_list("[]"), Some(Vec::new()));
    assert_eq!(parse_string_list("[\"a\",1]"), None);
    assert_eq!(parse_string_list("m"), None);
}
