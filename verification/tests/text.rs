//! Text and JSON.

use capability_router::json::{array_json, integer_json, text_json, texts_json, Members};
use capability_router::text::{
    contains, decimal, ends_with, is_before, lossy_text, lower, number_setting, parse_number, safe_slice,
    same_text, starts_with, trim,
};
use capability_router::wire::{json_from_bytes, json_to_text};
use capability_router::Json;

fn doc(text: &str) -> Json {
    json_from_bytes(text.as_bytes()).unwrap()
}

#[test]
fn affixes_are_found() {
    assert!(starts_with("image/png", "image/"));
    assert!(!starts_with("ima", "image/"));
    assert!(ends_with("a.tar.gz", ".tar.gz"));
    assert!(!ends_with("gz", ".gz"));
    assert!(starts_with("x", "") && ends_with("", ""));
    assert!(contains("abc", "bc") && contains("abc", "") && !contains("abc", "cb"));
    assert!(!contains("", "a") && contains("", ""));
    assert!(same_text("é", "é") && !same_text("a", "ab"));
}

#[test]
fn white_space_is_trimmed_at_the_ends() {
    assert_eq!(trim(" \t\u{a0}\u{3000}a b\u{2028}\n"), "a b");
    assert_eq!(trim(" \n "), "");
    assert_eq!(trim("\u{200b}x"), "\u{200b}x");
}

#[test]
fn letters_become_small() {
    assert_eq!(lower("A.TAR.Gz[Z"), "a.tar.gz[z");
    assert_eq!(lower("ÉCRAN.PNG"), "écran.png");
}

#[test]
fn numbers_are_written_and_read() {
    assert_eq!(decimal(0), "0");
    assert_eq!(decimal(1203), "1203");
    assert_eq!(decimal(u64::MAX), "18446744073709551615");
    assert_eq!(parse_number("+7", 10), Some(7));
    assert_eq!(parse_number("007", 10), Some(7));
    assert_eq!(parse_number("65535", 65535), Some(65535));
    assert_eq!(parse_number("65536", 65535), None);
    assert_eq!(parse_number("18446744073709551615", u64::MAX), Some(u64::MAX));
    assert_eq!(parse_number("18446744073709551616", u64::MAX), None);
    for bad in ["", "+", "-1", " 1", "1 ", "1a", "++1"] {
        assert_eq!(parse_number(bad, 10), None, "{bad}");
    }
    assert_eq!(number_setting(Some("9001"), 65535, 8090), 9001);
    assert_eq!(number_setting(Some("70000"), 65535, 8090), 8090);
    assert_eq!(number_setting(None, 65535, 8090), 8090);
}

#[test]
fn slices_end_between_characters() {
    assert_eq!(safe_slice("hello", 10), "hello");
    assert_eq!(safe_slice("hello", 5), "hello");
    assert_eq!(safe_slice("hello", 3), "hel");
    assert_eq!(safe_slice("héllo", 2), "h");
    assert_eq!(safe_slice("héllo", 3), "hé");
    assert_eq!(safe_slice("€", 2), "");
    assert_eq!(safe_slice("", 0), "");
}

#[test]
fn broken_bytes_become_replacement_characters() {
    assert_eq!(lossy_text("größe".as_bytes()), "größe");
    assert_eq!(lossy_text(&[b'a', 0xff]), "a\u{fffd}");
}

#[test]
fn documents_are_read_and_written() {
    let d = doc(r#" {"b": [1, -2, 1.5, true, null], "a": "x\ny", "b2": {}} "#);
    assert_eq!(json_to_text(&d), r#"{"a":"x\ny","b":[1,-2,1.5,true,null],"b2":{}}"#);
    assert_eq!(json_to_text(&d.duplicate()), json_to_text(&d));
    assert_eq!(d.str_field("a"), Some("x\ny"));
    assert_eq!(d.array_field("b").unwrap()[0].as_u64(), Some(1));
    assert_eq!(d.array_field("b").unwrap()[1].as_u64(), None);
    assert_eq!(d.array_field("b").unwrap()[2].as_u64(), None);
    assert_eq!(d.array_field("b").unwrap()[3].as_bool(), Some(true));
    assert!(d.has("b2") && !d.has("c") && d.get("c").is_none());
    assert!(d.has_text("a") && !d.has_text("b"));
    assert!(d.has_items("b") && !d.has_items("a"));
    assert!(json_from_bytes(b"{\"a\": }").is_err());
    assert!(json_from_bytes(&[0xff]).is_err());
}

#[test]
fn of_two_members_with_one_name_the_later_counts() {
    assert_eq!(doc(r#"{"a": 1, "a": 2}"#).get("a").unwrap().as_u64(), Some(2));
    let built = Members::new().with_text("a", "1").with("a", integer_json(-3)).object();
    assert_eq!(json_to_text(&built), r#"{"a":-3}"#);
    assert_eq!(built.member_names(), vec!["a"]);
}

#[test]
fn arrays_are_built() {
    assert_eq!(json_to_text(&array_json(vec![text_json("x"), Json::Null])), r#"["x",null]"#);
    assert_eq!(json_to_text(&texts_json(&["a", "b"])), r#"["a","b"]"#);
}

#[test]
fn a_nested_document_reads_back_up_to_the_limit() {
    let nested = |n: usize| format!("{}{}", "[".repeat(n), "]".repeat(n));
    assert_eq!(json_to_text(&doc(&nested(127))), nested(127));
    assert!(json_from_bytes(nested(128).as_bytes()).is_err());
}

#[test]
fn names_stand_in_order() {
    assert!(is_before("", "a") && is_before("a", "ab") && is_before("Z", "a"));
    assert!(!is_before("a", "a") && !is_before("b", "ab") && !is_before("a", ""));
    assert_eq!(doc(r#"{"b": 1, "é": 2, "a": 3, "B": 4}"#).member_names(), vec!["B", "a", "b", "é"]);
    let built = Members::new().with_text("z", "").with_text("a", "").with_text("z", "").object();
    assert_eq!(built.member_names(), vec!["a", "z"]);
    assert_eq!(Json::Null.member_names(), Vec::<String>::new());
}

#[test]
fn a_text_is_written_without_line_breaks() {
    assert_eq!(json_to_text(&doc("[\n \"a\\nb\\r\"\r\n]")), r#"["a\nb\r"]"#);
}

#[test]
fn a_name_that_is_read_in_its_own_way_is_not_read_back() {
    let token = "$serde_json::private::RawValue";
    let written = json_to_text(&Members::new().with_text(token, "1").object());
    assert_eq!(written, format!("{{\"{token}\":\"1\"}}"));
    assert_eq!(doc(&written).as_u64(), Some(1));
}
