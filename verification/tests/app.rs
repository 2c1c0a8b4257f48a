use ptywright_repl::app::{
    apply_suggestion, byte_offset, suggestion_fits, truncate, App, Key, KeyCode, KeyKind, KeyStep,
    LogEntry, MAX_LOG_ENTRIES,
};
use ptywright_repl::command::dispatch::CmdOutcome;
use ptywright_repl::command::{Cmd, MetaCmd};
use ptywright_repl::completer::{Place, Suggestion};
use ptywright_repl::ctx::ReplCtx;
use ptywright_repl::dispatcher::UiEvent;
use ptywright_repl::error::Error;
use ptywright_repl::history::ReplHistory;
use ptywright_repl::input::{EditKey, CONTROL, SHIFT};
use ptywright_repl::json::Json;
use ptywright_repl::notes::Note;
use ptywright_repl::render::input_cursor_column;
use ptywright_repl::screen::{CursorState, ScreenSnapshot, TerminalSize};
use tui_input::Input;

fn make_app() -> App {
    App::new(ReplCtx::new(), ReplHistory::open(""), "socket:/tmp/test".into())
}

fn press(code: KeyCode, modifiers: u8) -> Key {
    Key { code, modifiers, kind: KeyKind::Press }
}

fn typed(c: char) -> Key {
    press(KeyCode::Edit(EditKey::Char(c)), 0)
}

fn picture(sequence: u64) -> ScreenSnapshot {
    ScreenSnapshot {
        size: TerminalSize { rows: 1, cols: 1, pixel_width: 0, pixel_height: 0 },
        cursor: CursorState { row: 0, col: 0, visible: true },
        sequence,
        plain_text: String::new(),
        cells: Vec::new(),
        alternate_screen: false,
        application_cursor: false,
        application_keypad: false,
        title: None,
    }
}

/// Offers the calls that begin with the text before the cursor.
fn offer_calls(app: &mut App, direction: i32) {
    let (buffer, at) = app.completion_request();
    let calls = [
        "session.spawn(\"",
        "session.resume(\"",
        "session.list()",
        "session.live()",
        "send.text(\"",
        "session.close(\"",
    ];
    let suggestions: Vec<Suggestion> = calls
        .iter()
        .filter(|call| call.starts_with(&buffer[..at]))
        .map(|call| Suggestion {
            value: call.to_string(),
            description: None,
            place: Place { start: 0, end: at },
        })
        .collect();
    for suggestion in &suggestions {
        assert!(suggestion_fits(&buffer, suggestion));
    }
    app.offer(direction, suggestions);
}

fn advance(app: &mut App, direction: i32) {
    if let KeyStep::Complete(direction) = app.advance_completion(direction) {
        offer_calls(app, direction);
    }
}

#[test]
fn truncate_respects_max_codepoints() {
    assert_eq!(truncate("hello".to_string(), 10), "hello");
    let result = truncate("é".repeat(10), 5);
    assert_eq!(result.chars().count(), 6);
    assert!(result.ends_with('…'));
}

#[test]
fn byte_offset_handles_multibyte() {
    let s = "héllo";
    assert_eq!(byte_offset(s, 0), 0);
    assert_eq!(byte_offset(s, 1), 1);
    assert_eq!(byte_offset(s, 2), 3);
    assert_eq!(byte_offset(s, 5), s.len());
}

#[test]
fn apply_suggestion_replaces_span() {
    let mut input = Input::default().with_value(":focus e".to_string()).with_cursor(8);
    let suggestion = Suggestion {
        value: "e1".into(),
        description: None,
        place: Place { start: 7, end: 8 },
    };
    apply_suggestion(&mut input, ":focus e", &suggestion);
    assert_eq!(input.value(), ":focus e1");
    assert_eq!(input.cursor(), 9);
}

#[test]
fn apply_suggestion_keeps_the_rest_of_the_line() {
    let mut input = Input::default();
    let suggestion = Suggestion {
        value: "é".into(),
        description: None,
        place: Place { start: 2, end: 3 },
    };
    assert!(suggestion_fits("àbc", &suggestion));
    apply_suggestion(&mut input, "àbc", &suggestion);
    assert_eq!(input.value(), "àéc");
    assert_eq!(input.cursor(), 2);
    assert!(!suggestion_fits("à", &Suggestion {
        value: String::new(),
        description: None,
        place: Place { start: 1, end: 9 },
    }));
}

#[test]
fn app_starts_with_banner_lines() {
    let app = make_app();
    assert!(matches!(app.log.front(), Some(LogEntry::Banner(_))));
    assert!(app.log.len() >= 2);
    assert_eq!(app.transport_label(), "socket:/tmp/test");
    assert!(app.ctx().adapters.is_empty());
}

#[test]
fn tab_with_unique_match_inserts_completion() {
    let mut app = make_app();
    app.input = Input::default().with_value("ses".to_string()).with_cursor(3);
    advance(&mut app, 1);
    let first = app.input.value().to_string();
    advance(&mut app, 1);
    let second = app.input.value().to_string();
    assert!(first.starts_with("session."));
    assert!(second.starts_with("session."));
    assert_ne!(first, second);
}

#[test]
fn cycling_completion_replaces_against_the_original_buffer() {
    let mut app = make_app();
    app.input = Input::default().with_value("ses".to_string()).with_cursor(3);
    let mut seen: Vec<String> = Vec::new();
    for _ in 0..6 {
        advance(&mut app, 1);
        seen.push(app.input.value().to_string());
    }
    for value in &seen {
        assert!(value.starts_with("session."), "got: {value}");
        assert!(
            !value.split_once("(").map_or(false, |(_, after)| after.contains("session.")),
            "buffer corruption: {value}"
        );
    }
}

#[test]
fn completions_go_round_both_ways() {
    let mut app = make_app();
    app.input = Input::default().with_value("ses".to_string());
    advance(&mut app, -1);
    let last = app.input.value().to_string();
    advance(&mut app, 1);
    let first = app.input.value().to_string();
    advance(&mut app, -1);
    assert_eq!(app.input.value(), last);
    advance(&mut app, 1);
    assert_eq!(app.input.value(), first);
}

#[test]
fn a_single_completion_is_taken_and_none_changes_nothing() {
    let mut app = make_app();
    app.input = Input::default().with_value("x".to_string());
    app.offer(1, Vec::new());
    assert_eq!(app.input.value(), "x");
    app.offer(1, vec![Suggestion {
        value: "xyz".into(),
        description: None,
        place: Place { start: 0, end: 1 },
    }]);
    assert_eq!(app.input.value(), "xyz");
    assert!(app.completions.is_none());
}

#[test]
fn esc_clears_completion_state() {
    let mut app = make_app();
    app.input = Input::default().with_value("ses".to_string()).with_cursor(3);
    advance(&mut app, 1);
    assert!(app.completions.is_some());
    app.handle_key(press(KeyCode::Esc, 0));
    assert!(app.completions.is_none());
}

#[test]
fn ctrl_c_clears_input_first_then_quits() {
    let mut app = make_app();
    app.input = Input::default().with_value("session.spawn".to_string());
    let key = press(KeyCode::Edit(EditKey::Char('c')), CONTROL);
    app.handle_key(key);
    assert_eq!(app.input.value(), "");
    assert!(!app.should_quit());
    app.handle_key(key);
    assert!(app.should_quit());
}

#[test]
fn up_arrow_walks_history_back() {
    let mut app = make_app();
    let _ = app.history.push("alpha");
    let _ = app.history.push("beta");
    app.handle_key(press(KeyCode::Up, 0));
    assert_eq!(app.input.value(), "beta");
    app.handle_key(press(KeyCode::Up, 0));
    assert_eq!(app.input.value(), "alpha");
    app.handle_key(press(KeyCode::Down, 0));
    assert_eq!(app.input.value(), "beta");
}

#[test]
fn history_steps_beyond_the_ends_reach_the_oldest() {
    let mut app = make_app();
    app.handle_key(press(KeyCode::Up, 0));
    assert_eq!(app.input.value(), "");
    let _ = app.history.push("alpha");
    let _ = app.history.push("beta");
    app.handle_key(press(KeyCode::Down, 0));
    assert_eq!(app.input.value(), "alpha");
    app.handle_key(press(KeyCode::Up, 0));
    assert_eq!(app.input.value(), "alpha");
}

#[test]
fn keys_edit_the_line() {
    let mut app = make_app();
    for c in "abd".chars() {
        app.handle_key(typed(c));
    }
    app.handle_key(press(KeyCode::Edit(EditKey::Left), 0));
    app.handle_key(typed('c'));
    assert_eq!(app.input.value(), "abcd");
    assert_eq!(app.input.cursor(), 3);
    app.handle_key(press(KeyCode::Edit(EditKey::Char('E')), SHIFT));
    assert_eq!(app.input.value(), "abcEd");
    app.handle_key(press(KeyCode::Edit(EditKey::Backspace), 0));
    app.handle_key(press(KeyCode::Edit(EditKey::Delete), 0));
    assert_eq!(app.input.value(), "abc");
    app.handle_key(press(KeyCode::Edit(EditKey::Home), 0));
    assert_eq!(app.input.cursor(), 0);
    app.handle_key(press(KeyCode::Edit(EditKey::Right), 0));
    assert_eq!(app.input.cursor(), 1);
    app.handle_key(press(KeyCode::Edit(EditKey::End), 0));
    assert_eq!(app.input.cursor(), 3);
    app.handle_key(press(KeyCode::Edit(EditKey::Other), 0));
    assert_eq!(app.input.value(), "abc");
    let mut released = typed('z');
    released.kind = KeyKind::Release;
    app.handle_key(released);
    assert_eq!(app.input.value(), "abc");
    app.handle_key(press(KeyCode::Edit(EditKey::Char('u')), CONTROL));
    assert_eq!(app.input.value(), "");
    app.handle_key(press(KeyCode::Edit(EditKey::Char('y')), CONTROL));
    assert_eq!(app.input.value(), "abc");
}

#[test]
fn control_keys_act_on_the_client() {
    let mut app = make_app();
    app.handle_key(press(KeyCode::Edit(EditKey::Char('l')), CONTROL));
    assert!(app.log.is_empty());
    app.handle_key(typed('x'));
    app.handle_key(press(KeyCode::Edit(EditKey::Char('d')), CONTROL));
    assert!(!app.should_quit());
    app.handle_key(press(KeyCode::Edit(EditKey::Backspace), 0));
    app.handle_key(press(KeyCode::Edit(EditKey::Char('d')), CONTROL));
    assert!(app.should_quit());
}

#[test]
fn pasted_text_goes_in_at_the_cursor() {
    let mut app = make_app();
    app.input = Input::default().with_value("ad".to_string()).with_cursor(1);
    app.handle_paste("bç");
    assert_eq!(app.input.value(), "abçd");
    assert_eq!(app.input.cursor(), 3);
}

#[test]
fn entered_lines_are_logged_and_parsed() {
    let mut app = make_app();
    app.input = Input::default().with_value("  :tabs ".to_string());
    let step = app.handle_key(press(KeyCode::Enter, 0));
    assert!(matches!(step, KeyStep::Run { cmd: Cmd::Meta(MetaCmd::Tabs), recorded: true }));
    assert_eq!(app.input.value(), "");
    assert!(matches!(app.log.back(), Some(LogEntry::Input(line)) if line == ":tabs"));
    app.input = Input::default().with_value(":teleport".to_string());
    let step = app.handle_key(press(KeyCode::Enter, 0));
    assert!(matches!(step, KeyStep::Refused { recorded: true }));
    assert!(matches!(app.log.back(), Some(LogEntry::Error(text)) if text.contains("teleport")));
    app.input = Input::default().with_value("   ".to_string());
    assert!(matches!(app.handle_key(press(KeyCode::Enter, 0)), KeyStep::Stay));
    assert_eq!(app.input.value(), "   ");
}

#[test]
fn outcomes_reach_the_log() {
    let mut app = make_app();
    app.apply_outcome(Ok(CmdOutcome::Line("l".into())), None);
    assert!(matches!(app.log.back(), Some(LogEntry::Line(t)) if t == "l"));
    app.apply_outcome(Ok(CmdOutcome::ShowHelp("h".into())), None);
    assert!(matches!(app.log.back(), Some(LogEntry::Help(t)) if t == "h"));
    app.apply_outcome(Ok(CmdOutcome::Json(Json::text(&"z".repeat(400)))), None);
    assert!(matches!(app.log.back(), Some(LogEntry::Json(t)) if t.chars().count() == 281));
    app.apply_outcome(Err(Error::rpc("bad")), None);
    assert!(matches!(app.log.back(), Some(LogEntry::Error(t)) if t == "bad"));
    app.apply_outcome(
        Ok(CmdOutcome::Screen { adapter: "e1".into(), snapshot: picture(4) }),
        None,
    );
    assert!(matches!(
        app.log.back(),
        Some(LogEntry::Line(t)) if t == "snapshot · e1 (rendered in the live pane)"
    ));
    app.ctx.upsert_adapter("e1", "p");
    app.ctx.set_focus("e1");
    assert_eq!(app.focused_snapshot().map(|(id, s)| (id.clone(), s.sequence)), Some(("e1".into(), 4)));
    let value = Json::object()
        .with("adapter", Json::text("e1"))
        .with("session", Json::text("s1"))
        .with("snapshot", Json::object());
    app.apply_outcome(Ok(CmdOutcome::Note { note: Note::line("n"), value }), Some(picture(9)));
    assert_eq!(app.focused_snapshot().map(|(_, s)| s.sequence), Some(9));
    let focus = app.focus_info();
    assert_eq!(focus.adapter.as_deref(), Some("e1"));
    assert_eq!(focus.session.as_deref(), Some("s1"));
    app.apply_outcome(Ok(CmdOutcome::Quit), None);
    assert!(app.should_quit());
}

#[test]
fn events_and_hints_are_taken_in() {
    let mut app = make_app();
    assert!(app.focused_snapshot().is_none());
    app.apply_ui_event(UiEvent::Notice("n".into()));
    assert!(matches!(app.log.back(), Some(LogEntry::Notice(t)) if t == "n"));
    app.apply_ui_event(UiEvent::Snapshot { adapter: "e1".into(), snapshot: picture(3) });
    app.ctx.focus = Some("e1".into());
    assert_eq!(app.focused_snapshot().map(|(_, s)| s.sequence), Some(3));
    assert_eq!(app.focus_info().session, None);
    let before = app.log.len();
    app.set_live_hint(None);
    assert_eq!(app.log.len(), before);
    app.set_live_hint(Some("live".into()));
    assert!(matches!(app.log.back(), Some(LogEntry::Hint(t)) if t == "live"));
}

#[test]
fn the_log_keeps_the_newest_entries() {
    let mut app = make_app();
    for n in 0..MAX_LOG_ENTRIES + 10 {
        app.push_log(LogEntry::Line(format!("{n}")));
    }
    assert_eq!(app.log.len(), MAX_LOG_ENTRIES);
    assert!(matches!(app.log.front(), Some(LogEntry::Line(t)) if t == "10"));
}

#[test]
fn cursor_stands_behind_wide_characters() {
    let mut app = make_app();
    assert_eq!(input_cursor_column(&app, 1, 20), Some(1));
    app.handle_key(typed('a'));
    app.handle_key(typed('日'));
    assert_eq!(app.input.cursor(), 2);
    assert_eq!(input_cursor_column(&app, 1, 20), Some(4));
    assert_eq!(input_cursor_column(&app, 1, 3), Some(3));
}

#[test]
fn what_was_cut_out_outlives_the_line() {
    let mut app = make_app();
    let enter = || press(KeyCode::Enter, 0);
    let cut = || press(KeyCode::Edit(EditKey::Char('u')), CONTROL);
    let put = || press(KeyCode::Edit(EditKey::Char('y')), CONTROL);
    app.handle_paste("abc");
    app.handle_key(cut());
    app.set_live_hint(Some("hint".into()));
    app.apply_ui_event(UiEvent::Notice("notice".into()));
    app.apply_outcome(Ok(CmdOutcome::Line("line".into())), None);
    app.handle_paste(":help");
    app.handle_key(enter());
    assert_eq!(app.input.value(), "");
    app.handle_key(put());
    assert_eq!(app.input.value(), "abc");
    app.handle_key(press(KeyCode::Edit(EditKey::Char('c')), CONTROL));
    assert_eq!(app.input.value(), "");
    app.handle_key(put());
    assert_eq!(app.input.value(), "abc");
    app.handle_key(press(KeyCode::Up, 0));
    assert_eq!(app.input.value(), ":help");
    app.handle_key(put());
    assert_eq!(app.input.value(), ":help");
}
