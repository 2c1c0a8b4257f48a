use ptywright_repl::duration::Duration;

use ptywright_repl::json::Json;
use ptywright_repl::notes::{
    closed, format_bytes, send_intent, send_key, send_text, spawned, transcript, transcript_of,
    turn_complete, wait_match, wait_stable, Note,
};

fn json(text: &str) -> Json {
    Json::parse(text).expect("valid JSON")
}

#[test]
fn note_with_badge_appends_in_order() {
    let n = Note::line("turn completed in 412ms").with_badge("turn complete");
    assert_eq!(n.primary, "turn completed in 412ms");
    assert_eq!(n.badges, vec!["turn complete".to_string()]);
}

#[test]
fn note_render_includes_glyph_and_primary_text() {
    let rendered = Note::line("wrote 5 bytes").render();
    assert!(rendered.contains("↳"));
    assert!(rendered.contains("wrote 5 bytes"));
}

#[test]
fn spawned_lists_adapter_plugin_and_dims_when_present() {
    let resp = json(r#"{ "adapter": "e1", "plugin": "agent-shell", "state": { "size": { "cols": 80, "rows": 24 }, "metadata": { "alternate_screen": false } } }"#);
    let note = spawned(&resp);
    assert!(note.primary.contains("e1"));
    assert!(note.primary.contains("agent-shell"));
    assert!(note.primary.contains("80×24"));
    assert!(!note.primary.contains("alt-screen"));
}

#[test]
fn spawned_includes_alt_screen_flag_when_state_reports_it() {
    let resp = json(r#"{ "adapter": "e1", "plugin": "p", "state": { "size": { "cols": 200, "rows": 60 }, "metadata": { "alternate_screen": true } } }"#);
    assert!(spawned(&resp).primary.contains("alt-screen"));
}

#[test]
fn spawned_degrades_gracefully_when_state_missing() {
    let resp = json(r#"{ "adapter": "e1", "plugin": "p" }"#);
    let note = spawned(&resp);
    assert!(note.primary.contains("e1"));
    assert!(note.primary.contains("p"));
    assert!(!note.primary.contains('×'));
}

#[test]
fn spawned_names_the_process_and_the_state() {
    let note = spawned(&json(r#"{ "adapter": "e1", "plugin": "p", "pid": 48211 }"#));
    assert_eq!(note.primary, "spawned · e1 · p · pid 48211");
    assert!(note.badges.is_empty());
    let note = spawned(&json(
        r#"{ "pid": 7, "state": { "state": "ready", "size": { "cols": 80, "rows": 24 } } }"#,
    ));
    assert_eq!(note.primary, "spawned · pid 7 · state: ready · 80×24");
    let note = spawned(&json(r#"{ "pid": -1, "state": { "state": "" } }"#));
    assert_eq!(note.primary, "spawned");
}

#[test]
fn send_text_reports_byte_count_and_state() {
    let resp = json(r#"{ "state": { "state": "thinking", "sequence": 5 } }"#);
    let note = send_text("hello", &resp);
    assert!(note.primary.contains("wrote 5 bytes"));
    assert!(note.primary.contains("state: thinking"));
}

#[test]
fn send_text_omits_state_when_response_is_silent() {
    let note = send_text("hi", &json(r#"{}"#));
    assert_eq!(note.primary, "wrote 2 bytes");
}

#[test]
fn send_key_reports_key_name() {
    let note = send_key("Enter", &json(r#"{"state": {"state": "ready"}}"#));
    assert!(note.primary.contains("sent key Enter"));
    assert!(note.primary.contains("state: ready"));
}

#[test]
fn wait_match_includes_elapsed_and_row() {
    let resp = json(r#"{ "state": { "sequence": 14 }, "matched": { "row": 19 } }"#);
    let note = wait_match(Duration::from_millis(412), &resp);
    assert!(note.primary.contains("matched after 412ms"));
    assert!(note.primary.contains("row 19"));
    assert!(note.primary.contains("seq 14"));
}

#[test]
fn wait_stable_includes_elapsed_and_sequence() {
    let resp = json(r#"{ "state": { "sequence": 14 } }"#);
    let note = wait_stable(Duration::from_millis(412), &resp);
    assert!(note.primary.contains("stable after 412ms"));
    assert!(note.primary.contains("seq 14"));
}

#[test]
fn turn_complete_always_emits_the_badge() {
    let note = turn_complete(Duration::from_millis(800), &json(r#"{}"#));
    assert_eq!(note.badges, vec!["turn complete".to_string()]);
    assert!(note.primary.contains("turn completed in 800ms"));
}

#[test]
fn transcript_reports_bytes_and_redacted_count() {
    let resp = json(r#"{ "transcript": [{ "text": "hello" }], "redacted": 2 }"#);
    let note = transcript(&resp);
    assert!(note.primary.contains("redacted 2 patterns"));
}

#[test]
fn transcript_singular_pattern_drops_the_s() {
    let resp = json(r#"{ "transcript": [], "redacted": 1 }"#);
    let note = transcript(&resp);
    assert!(note.primary.contains("redacted 1 pattern"));
    assert!(!note.primary.contains("patterns"));
}

#[test]
fn format_bytes_picks_units_by_magnitude() {
    assert_eq!(format_bytes(512), "512 B");
    assert_eq!(format_bytes(2048), "2.0 KiB");
    assert_eq!(format_bytes(5 * 1024 * 1024), "5.0 MiB");
}

#[test]
fn format_bytes_rounds_like_a_float() {
    for bytes in [
        0usize, 1, 1023, 1024, 1025, 1075, 1076, 1126, 1127, 1536, 10_000, 1_048_575, 1_048_576,
        1_101_004, 1_101_005, 123_456_789, 1 << 40, (1 << 53) + 1,
    ] {
        let expected = if bytes < 1024 {
            format!("{bytes} B")
        } else if bytes < 1024 * 1024 {
            format!("{:.1} KiB", bytes as f64 / 1024.0)
        } else {
            format!("{:.1} MiB", bytes as f64 / (1024.0 * 1024.0))
        };
        assert_eq!(format_bytes(bytes), expected, "{bytes}");
    }
}

#[test]
fn notes_are_painted() {
    let note = Note::line("done").with_badge("turn complete");
    assert_eq!(
        note.render(),
        "  \u{1b}[90m↳\u{1b}[0m \u{1b}[2mdone\u{1b}[0m \u{1b}[7;38;5;214m turn complete \u{1b}[0m"
    );
    let line = note.to_line();
    assert_eq!(line[1].text, "↳");
    assert_eq!(line[3].text, "done");
}

#[test]
fn short_notes_are_exact() {
    assert_eq!(closed("e1").primary, "closed · e1");
    assert_eq!(send_intent("approve", &json("{}")).primary, "intent approve");
    assert_eq!(transcript_of(2048, None).primary, "transcript · 2.0 KiB");
    assert_eq!(
        transcript_of(5, Some(2)).primary,
        "transcript · 5 B · redacted 2 patterns"
    );
}
