use codex_meter::json::Json;
use codex_meter::text::{parse_integer, trim};

fn text(value: &str) -> Json {
    Json::Text(value.to_owned())
}

#[test]
fn texts_are_written_as_serde_writes_them() {
    let mut all = String::new();
    for n in 0..0x300_u32 {
        all.push(char::from_u32(n).unwrap());
    }
    all.push('\u{2028}');
    all.push('\u{1f600}');
    let written = text(&all).to_text();
    assert_eq!(written, serde_json::Value::String(all.clone()).to_string());
    assert_eq!(
        serde_json::from_str::<serde_json::Value>(&written).unwrap(),
        serde_json::Value::String(all)
    );
}

#[test]
fn control_characters_are_escaped() {
    assert_eq!(
        text("a\"b\\c\n\t\r\u{8}\u{c}\u{0}\u{1f}\u{7f}é").to_text(),
        "\"a\\\"b\\\\c\\n\\t\\r\\b\\f\\u0000\\u001f\u{7f}é\""
    );
}

#[test]
fn nested_values_are_written_without_spaces() {
    let value = Json::Object(vec![
        (
            "a".to_owned(),
            Json::Array(vec![Json::Null, Json::Bool(true), Json::Bool(false)]),
        ),
        ("b".to_owned(), Json::Object(Vec::new())),
        ("c".to_owned(), text("d")),
    ]);
    assert_eq!(
        value.to_text(),
        "{\"a\":[null,true,false],\"b\":{},\"c\":\"d\"}"
    );
}

#[test]
fn members_are_found_by_their_first_key() {
    let value = Json::Object(vec![
        ("second".to_owned(), text("2")),
        ("third".to_owned(), Json::Null),
    ]);
    assert_eq!(
        value.find(&["first", "second"]).unwrap().as_text().as_deref(),
        Some("2")
    );
    assert!(value.get("first").is_none());
    assert_eq!(value.text_member("third"), None);
    assert!(Json::Null.get("second").is_none());
}

#[test]
fn every_white_space_is_trimmed() {
    for n in 0..=0x10_ffff_u32 {
        if let Some(c) = char::from_u32(n) {
            let padded = format!("{c}x{c}");
            if c.is_whitespace() {
                assert_eq!(trim(&padded), "x", "{n:x}");
            } else if n < 0x400 || (0x1600..0x3100).contains(&n) {
                assert_eq!(trim(&padded), padded, "{n:x}");
            }
        }
    }
    assert_eq!(trim("\u{3000}\u{a0} a b \u{2029}\t"), "a b");
    assert_eq!(trim(" \n"), "");
}

#[test]
fn integers_are_read_as_the_standard_library_reads_them() {
    for text in [
        "",
        "+",
        "-",
        "0",
        "-0",
        "+7",
        "007",
        "9223372036854775807",
        "9223372036854775808",
        "-9223372036854775808",
        "-9223372036854775809",
        "1_000",
        " 1",
        "١",
    ] {
        assert_eq!(parse_integer(text), text.parse::<i64>().ok(), "{text}");
    }
}
