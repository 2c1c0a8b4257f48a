use ptywright_repl::highlighter::{is_scannable, scan, style_for, Kind, ReplHighlighter};

fn whitelist(names: &[&str]) -> Vec<String> {
    names.iter().map(|n| n.to_string()).collect()
}

fn kinds(line: &str, names: &[&str]) -> Vec<(Kind, String)> {
    assert!(is_scannable(line));
    scan(line, &whitelist(names))
}

#[test]
fn highlights_method_chain_and_string_arg() {
    let out = kinds(r#"session.spawn("agent-shell")"#, &["session", "spawn"]);
    assert!(
        out.iter().any(|(k, s)| *k == Kind::Method && s == "session"),
        "expected `session` highlighted as Method"
    );
    assert!(
        out.iter().any(|(k, s)| *k == Kind::Method && s == "spawn"),
        "expected `spawn` highlighted as Method"
    );
    assert!(
        out.iter().any(|(k, s)| *k == Kind::String && s == "\"agent-shell\""),
        "expected the plugin name as a String token"
    );
}

#[test]
fn highlights_lua_keywords() {
    let out = kinds("local x = 1", &[]);
    assert!(out.iter().any(|(k, s)| *k == Kind::Keyword && s == "local"));
    let out = kinds("for i = 1, 5 do end", &[]);
    assert!(out.iter().any(|(k, s)| *k == Kind::Keyword && s == "for"));
    assert!(out.iter().any(|(k, s)| *k == Kind::Keyword && s == "do"));
    assert!(out.iter().any(|(k, s)| *k == Kind::Keyword && s == "end"));
}

#[test]
fn highlights_true_false_nil_as_keywords() {
    let out = kinds("transcript.snapshot({redact = false})", &["transcript", "snapshot"]);
    assert!(out.iter().any(|(k, s)| *k == Kind::Keyword && s == "false"));
    let out = kinds("local x = nil", &[]);
    assert!(out.iter().any(|(k, s)| *k == Kind::Keyword && s == "nil"));
}

#[test]
fn highlights_string_with_escape() {
    let out = kinds(r#"send.text("hi\nthere")"#, &["send", "text"]);
    assert!(
        out.iter().any(|(k, s)| *k == Kind::String && s.starts_with('"') && s.ends_with('"')),
        "expected the escaped string to be one token"
    );
}

#[test]
fn highlights_single_quoted_string() {
    let out = kinds(r#"send.text('hi')"#, &["send", "text"]);
    assert!(
        out.iter().any(|(k, s)| *k == Kind::String && s == "'hi'"),
        "expected single-quoted string token"
    );
}

#[test]
fn highlights_meta_prefix_only_at_start() {
    let out = kinds(":focus e2", &[]);
    assert!(out.iter().any(|(k, s)| *k == Kind::Meta && s == ":focus"));
    let inside = kinds(r#"send.text(":fake")"#, &["send", "text"]);
    assert!(
        !inside.iter().any(|(k, _)| *k == Kind::Meta),
        "string-internal colon must not be Meta"
    );
}

#[test]
fn unknown_identifier_falls_through_to_other() {
    let out = kinds("flarbnaut(1)", &["session", "spawn"]);
    assert!(out.iter().any(|(k, s)| *k == Kind::Other && s == "flarbnaut"));
}

#[test]
fn negative_integer_keeps_number_kind() {
    let out = kinds("send.intent(\"x\", { count = -5 })", &["send", "intent"]);
    assert!(out.iter().any(|(k, s)| *k == Kind::Number && s == "-5"));
}

#[test]
fn lua_line_comment_does_not_panic() {
    let out = kinds("session.list() -- list adapters", &["session", "list"]);
    assert!(out.iter().any(|(k, s)| *k == Kind::Other && s.starts_with("-- ")));
}

#[test]
fn long_bracket_string_does_not_panic() {
    let out = kinds(r#"local s = [[hello]]"#, &[]);
    assert!(out.iter().any(|(k, s)| *k == Kind::String && s == "[[hello]]"));
}

#[test]
fn leading_whitespace_does_not_disable_meta_prefix() {
    let out = kinds("   :tabs", &[]);
    assert!(out.iter().any(|(k, s)| *k == Kind::Meta && s == ":tabs"));
}

#[test]
fn highlighter_handle_returns_styled_text_in_kind_order() {
    let h = ReplHighlighter::new(whitelist(&["session", "spawn"]));
    let styled = h.highlight(r#"session.spawn("x")"#);
    assert!(styled.len() >= 6, "expected ≥6 styled spans, got {}", styled.len());
}

#[test]
fn style_for_assigns_distinct_styles_per_kind() {
    assert_ne!(style_for(Kind::Method), style_for(Kind::Other));
    assert_ne!(style_for(Kind::String), style_for(Kind::Number));
    assert_ne!(style_for(Kind::Meta), style_for(Kind::Keyword));
    assert_ne!(style_for(Kind::Punctuation), style_for(Kind::Other));
}

#[test]
fn pieces_put_together_are_the_line() {
    for line in [
        "",
        "   :focus e2",
        "local s = [[a\nb]] -- end",
        r#"send.text("unterminated"#,
        "x = 'it\\'s' .. -3.5e2",
        ":: [ [[open",
    ] {
        let joined: String = kinds(line, &["send"]).into_iter().map(|(_, s)| s).collect();
        assert_eq!(joined, line);
    }
}
