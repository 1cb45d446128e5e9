use csswitch::json::{parse_json, Json, JsonNumber};
use csswitch::paths::{file_stem, join_path};
use csswitch::text::bytes::{byte_count, can_cut, head_bytes, tail_bytes};
use csswitch::text::encode::{lowered_ascii, raised_ascii, utf16_text};
use csswitch::text::number::{hex_text, number_text, padded_text, read_port, read_unsigned, signed_text};
use csswitch::text::order::sort_texts;
use csswitch::text::search::{cut_around, includes, replaced, stripped};
use csswitch::text::split::{joined_tail, split_filled_lines, split_lines, split_words};
use csswitch::text::table::Table;
use csswitch::text::trim::{blank, trimmed};

#[test]
fn texts_behave_like_those_of_std() {
    for s in ["", " ", "a", " a b ", "\u{3000}宽\u{3000}", "a\r\nb\n\nc", "\n", "a\n", "x\u{85}y"] {
        assert_eq!(trimmed(s), s.trim());
        assert_eq!(blank(s), s.trim().is_empty());
        assert_eq!(split_lines(s), s.lines().collect::<Vec<_>>());
        assert_eq!(split_words(s), s.split_whitespace().collect::<Vec<_>>());
        assert_eq!(byte_count(s), s.len());
        assert_eq!(lowered_ascii(s), s.to_ascii_lowercase());
        assert_eq!(raised_ascii(s), s.to_ascii_uppercase());
    }
    assert_eq!(split_filled_lines(" a \n\n b"), vec!["a", "b"]);
    assert_eq!(joined_tail("a\nb\nc\n", 2), "b\nc");
}

#[test]
fn searching_behaves_like_that_of_std() {
    assert!(includes("abc", "bc") && !includes("abc", "cb") && includes("", ""));
    assert_eq!(replaced("aaaa", "aa", "b"), "aaaa".replace("aa", "b"));
    assert_eq!(replaced("x.y.z", ".", "--"), "x--y--z");
    assert_eq!(stripped("v1:x", "v1:").as_deref(), Some("x"));
    assert_eq!(cut_around("a://b://c", "://"), Some(("a".to_string(), "b://c".to_string())));
    assert_eq!(cut_around("abc", "://"), None);
}

#[test]
fn numbers_are_written_and_read() {
    assert_eq!(number_text(0), "0");
    assert_eq!(number_text(u64::MAX), u64::MAX.to_string());
    assert_eq!(signed_text(i64::MIN), i64::MIN.to_string());
    assert_eq!(padded_text(7, 2), "07");
    assert_eq!(read_unsigned("+12", 100), Some(12));
    assert_eq!(read_unsigned("101", 100), None);
    assert_eq!(read_unsigned("", 100), None);
    assert_eq!(read_port("65535"), Some(65535));
    assert_eq!(read_port("65536"), None);
    assert_eq!(hex_text(&vec![0, 255, 16]), "00ff10");
}

#[test]
fn bytes_are_cut_at_characters() {
    assert!(can_cut("日本", 3) && !can_cut("日本", 2));
    assert_eq!(head_bytes("日本", 3), "日");
    assert_eq!(tail_bytes("日本", 3), "本");
    assert_eq!(utf16_text(&vec![0x65e5, 0xd83d, 0xde00, 0xd800]), "日😀\u{fffd}");
}

#[test]
fn sorting_and_tables() {
    assert_eq!(
        sort_texts(vec!["b".to_string(), "a".to_string(), "ab".to_string()]),
        vec!["a", "ab", "b"]
    );
    let mut t = Table::new();
    t.insert("a", 1);
    t.insert("b", 2);
    t.insert("a", 3);
    assert_eq!(t.get("a"), Some(&3));
    assert_eq!(t.remove("a"), Some(3));
    assert!(t.get("a").is_none());
    assert!(!t.is_empty());
}

#[test]
fn paths_are_joined() {
    assert_eq!(join_path("/a", "b"), "/a/b");
    assert_eq!(join_path("/a/", "b"), "/a/b");
    assert_eq!(file_stem("abc.json"), "abc");
}

#[test]
fn json_is_read() {
    let j = parse_json(r#"{"a":[1,-2,"x",null,true],"b":{"c":1.5}}"#).unwrap();
    assert_eq!(j.get_texts("a"), vec!["x"]);
    match j.get("a") {
        Some(Json::List(v)) => {
            assert!(matches!(v[1], Json::Number(JsonNumber::Negative(-2))));
            assert!(matches!(v[3], Json::Null));
        }
        _ => panic!("a list"),
    }
    assert!(matches!(j.get("b").unwrap().get("c"), Some(Json::Number(JsonNumber::Other(_)))));
    assert!(parse_json("{").is_err());
}
