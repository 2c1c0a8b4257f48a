use ptywright_repl::adopt::{adopt_started_adapter, attach_live, attach_one, attached_text};
use ptywright_repl::ctx::ReplCtx;
use ptywright_repl::duration::Duration;
use ptywright_repl::json::Json;
use ptywright_repl::lines::{cut_once, drop_line_end, split_lines};
use ptywright_repl::lower::lowered_text;
use ptywright_repl::sort::sort_texts;
use ptywright_repl::text::{
    byte_count, comes_before, cut_after, cut_before, decimal_int_text, decimal_text,
    is_character_end, is_white_space, split_text, split_words, starts_with, trimmed, trimmed_end,
    trimmed_start,
};

fn json(text: &str) -> Json {
    Json::parse(text).expect("valid JSON")
}

#[test]
fn white_space_is_what_unicode_says() {
    for n in 0..=0x10FFFFu32 {
        if let Some(c) = char::from_u32(n) {
            assert_eq!(is_white_space(c), c.is_whitespace(), "{n:#x}");
        }
    }
}

#[test]
fn trimming_and_splitting_agree_with_the_standard_library() {
    for s in ["", "  a b ", "\u{3000}x\u{85}", "a,b,,c", ",", "one\ntwo\r\n\nthree", "\n", "a\r"] {
        assert_eq!(trimmed(s), s.trim());
        assert_eq!(trimmed_start(s), s.trim_start());
        assert_eq!(trimmed_end(s), s.trim_end());
        assert_eq!(split_text(s, ','), s.split(',').collect::<Vec<_>>());
        assert_eq!(split_words(s), s.split_whitespace().collect::<Vec<_>>());
        assert_eq!(split_lines(s), s.lines().collect::<Vec<_>>());
        assert_eq!(drop_line_end(s), s.trim_end_matches(['\n', '\r']));
        assert_eq!(byte_count(s), s.len());
    }
    assert_eq!(cut_once("a:b:c", ':'), Some(("a".into(), "b:c".into())));
    assert_eq!(cut_once("abc", ':'), None);
}

#[test]
fn texts_are_ordered_as_strings_are() {
    for (a, b) in [("a", "b"), ("a", "a"), ("a", "ab"), ("é", "z"), ("", "x"), ("😀", "\u{FFFD}")] {
        assert_eq!(comes_before(a, b), a < b, "{a} {b}");
        assert_eq!(comes_before(b, a), b < a, "{b} {a}");
        assert_eq!(starts_with(b, a), b.starts_with(a));
    }
    let list = vec!["b".to_string(), "é".into(), "a".into(), "b".into()];
    let mut sorted = list.clone();
    sorted.sort();
    assert_eq!(sort_texts(list), sorted);
}

#[test]
fn numbers_are_written_in_decimal() {
    assert_eq!(decimal_text(0), "0");
    assert_eq!(decimal_text(u128::MAX), u128::MAX.to_string());
    assert_eq!(decimal_int_text(i64::MIN), i64::MIN.to_string());
    assert_eq!(decimal_int_text(-7), "-7");
}

#[test]
fn texts_are_cut_at_bytes() {
    assert_eq!(cut_before("aéb", 3), "aé");
    assert_eq!(cut_after("aéb", 3), "b");
    assert!(is_character_end("aéb", 1));
    assert!(!is_character_end("aéb", 2));
    assert!(!is_character_end("aéb", 9));
    assert_eq!(lowered_text("Content-LENGTH"), "content-length");
}

#[test]
fn durations_are_told() {
    assert_eq!(Duration::from_millis(1500).debug_text(), "1.5s");
    assert_eq!(Duration::from_secs(2).as_millis(), 2000);
    assert_eq!(Duration::from_secs(u64::MAX).millis_saturating(), u64::MAX);
    assert_eq!(Duration::from_secs(u64::MAX).millis_u64(), None);
}

#[test]
fn json_is_read_and_written() {
    let value = json(r#" {"b":[1,-2,2.5,true,null],"a":"xé\n"} "#);
    assert_eq!(value.encode(), r#"{"a":"xé\n","b":[1,-2,2.5,true,null]}"#);
    assert_eq!(Json::from_value(value.to_value()), value);
    assert_eq!(json(&value.encode()), value);
    assert!(Json::parse("{").is_err());
    assert!(Json::parse("1 2").is_err());
    assert_eq!(json("18446744073709551615").as_u64(), Some(u64::MAX));
    assert_eq!(json("18446744073709551615").as_i64(), None);
    assert_eq!(json("-1").as_u64(), None);
    assert_eq!(json("1.0").as_i64(), None);
    assert_eq!(json(r#"{"a":{"b":3}}"#).get_inner_u64("a", "b"), Some(3));
    assert_eq!(json(r#"{"a":1,"a":2}"#), json(r#"{"a":2}"#));
}

#[test]
fn started_adapters_are_taken_in() {
    let mut ctx = ReplCtx::new();
    adopt_started_adapter(&mut ctx, "asked", &json(r#"{"adapter":"e1","plugin":"given"}"#));
    assert_eq!(ctx.adapter("e1").expect("tab").plugin, "given");
    assert_eq!(ctx.focus.as_deref(), Some("e1"));
    adopt_started_adapter(&mut ctx, "asked", &json(r#"{"adapter":"e2"}"#));
    assert_eq!(ctx.adapter("e2").expect("tab").plugin, "asked");
    attach_one(&mut ctx, "e3", &json(r#"{"plugin":"p"}"#));
    assert_eq!(ctx.focus.as_deref(), Some("e3"));
    let ids = attach_live(&mut ctx, &json(r#"{"adapters":[{"adapter":"e4","plugin":"q"}]}"#));
    assert_eq!(ids, vec!["e4"]);
    assert!(ctx.adapter("e4").is_some());
    assert!(attached_text(&ids).contains("e4"));
}
