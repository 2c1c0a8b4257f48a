use ptywright_repl::adopt::extract_live_ids;
use ptywright_repl::error::Error;
use ptywright_repl::json::Json;
use ptywright_repl::lua::eval::{EvalResult, RenderedValue};
use ptywright_repl::meta::{help_text, MetaOutcome};
use ptywright_repl::paint::{Ink, Shade, Span};
use ptywright_repl::prompt::{
    banner_lines, eval_output, meta_output, prompt_left, prompt_right, BANNER_HINT,
};
use ptywright_repl::screen::{
    CursorState, ScreenCell, ScreenCellStyle, ScreenSnapshot, TerminalSize,
};
use ptywright_repl::tips::long_guide;
use ptywright_repl::transport::Notification;
use ptywright_repl::tui::{
    center, cell_style_to_ansi, compact_notification_params, cut_off_text, effective_render_width,
    error_result, extract_plugin_names, format_live_hint, format_notification, format_trimmed_note,
    help_lines, json_result, line_result, parse_cell_color, print_screen, read_entered,
    row_content_width, tips_lines, visible_range, write_line, Entered, Line,
};

fn json(text: &str) -> Json {
    Json::parse(text).expect("valid JSON")
}

fn text_of(lines: &[Line]) -> Vec<String> {
    lines
        .iter()
        .map(|line| line.iter().map(|span| span.text.as_str()).collect())
        .collect()
}

#[test]
fn live_hint_is_none_when_no_adapters() {
    assert!(format_live_hint(&json(r#"{ "adapters": [] }"#)).is_none());
    assert!(format_live_hint(&json(r#"{}"#)).is_none());
}

#[test]
fn live_hint_lists_running_adapter_ids() {
    let value = json(r#"{ "adapters": [ { "adapter": "e1", "plugin": "agent-shell", "finished": false, "session": "s1", "sequence": 7 }, { "adapter": "e2", "plugin": "agent-shell", "finished": false, "session": "s2", "sequence": 2 } ] }"#);
    let hint = format_live_hint(&value).expect("hint present");
    assert!(hint.contains("e1"));
    assert!(hint.contains("e2"));
    assert!(hint.contains(":attach"));
}

#[test]
fn live_ids_drops_malformed_or_finished_entries() {
    let value = json(r#"{ "adapters": [ { "adapter": "e1", "finished": false }, { "adapter": "e2", "finished": true }, { "adapter": "", "finished": false }, { "plugin": "agent-shell", "finished": false }, "not-an-object", { "adapter": "e3", "finished": false } ] }"#);
    let ids = extract_live_ids(&value);
    assert_eq!(ids, vec!["e1".to_string(), "e3".to_string()]);
}

#[test]
fn live_hint_skips_finished_adapters() {
    let value = json(r#"{ "adapters": [ { "adapter": "e3", "plugin": "agent-shell", "finished": true, "session": "s3", "sequence": 99 } ] }"#);
    assert!(format_live_hint(&value).is_none());
}

#[test]
fn notification_line_includes_session_and_sequence() {
    let notif = Notification {
        method: "session.changed".to_string(),
        params: json(r#"{ "session": "s4", "sequence": 42 }"#),
    };
    let line = format_notification(&notif).expect("session.changed should print");
    assert!(line.contains("session.changed"));
    assert!(line.contains("s4"));
    assert!(line.contains("seq=42"));
}

#[test]
fn notification_line_falls_back_for_unknown_method() {
    let notif = Notification {
        method: "future.event".to_string(),
        params: json(r#"{ "anything": "goes" }"#),
    };
    let line = format_notification(&notif).expect("unknown method should still print");
    assert!(line.contains("future.event"));
}

#[test]
fn session_output_notification_is_dropped() {
    let notif = Notification {
        method: "session.output".to_string(),
        params: json(r#"{ "session": "s1", "sequence": 7, "output": "\u001b[?25h\u001b[?2004h"}"#),
    };
    assert!(
        format_notification(&notif).is_none(),
        "session.output must be dropped from the [notif] printer path",
    );
}

#[test]
fn compact_notification_params_drops_noisy_keys() {
    let value = json(r#"{ "session": "s9", "output": "raw vt bytes here", "sequence": 3 }"#);
    let summary = compact_notification_params(&value);
    assert!(!summary.contains("output"), "output key should be dropped");
    assert!(summary.contains("session"), "session key should remain");
    assert!(summary.contains("sequence"), "sequence should remain");
}

#[test]
fn trimmed_note_renders_directionally() {
    assert_eq!(format_trimmed_note(0, 0), "");
    assert_eq!(format_trimmed_note(5, 0), " · 5 blank row(s) hidden above");
    assert_eq!(
        format_trimmed_note(0, 42),
        " · 42 blank row(s) hidden below"
    );
    assert_eq!(
        format_trimmed_note(5, 42),
        " · 5 above / 42 below blank row(s) hidden",
    );
}

fn rows_with_content(total: usize, content: &[usize]) -> Vec<Vec<ScreenCell>> {
    (0..total)
        .map(|r| {
            if content.contains(&r) {
                vec![ScreenCell {
                    row: r as u16,
                    col: 0,
                    text: "x".to_string(),
                    wide: false,
                    wide_continuation: false,
                    style: ScreenCellStyle {
                        foreground: "default".to_string(),
                        background: "default".to_string(),
                        bold: false,
                        dim: false,
                        italic: false,
                        underline: false,
                        inverse: false,
                    },
                }]
            } else {
                Vec::new()
            }
        })
        .collect()
}

fn row_refs<'a>(
    owned: &'a [Vec<ScreenCell>],
) -> Vec<Vec<&'a ScreenCell>> {
    owned.iter().map(|r| r.iter().collect()).collect()
}

#[test]
fn visible_range_trims_leading_and_trailing_blanks() {
    let owned = rows_with_content(60, &[6, 7, 12]);
    let rows = row_refs(&owned);
    let range = visible_range(&rows, 10);
    assert_eq!(range.start, 6);
    assert_eq!(range.end, 13);
    assert_eq!(range.trimmed_top, 6);
    assert_eq!(range.trimmed_bottom, 47);
}

#[test]
fn visible_range_honours_cursor_above_content() {
    let owned = rows_with_content(20, &[8, 9]);
    let rows = row_refs(&owned);
    let range = visible_range(&rows, 3);
    assert_eq!(range.start, 3, "cursor above content must extend the top");
    assert_eq!(range.end, 10);
}

#[test]
fn visible_range_honours_cursor_below_content() {
    let owned = rows_with_content(20, &[2, 3]);
    let rows = row_refs(&owned);
    let range = visible_range(&rows, 15);
    assert_eq!(range.start, 2);
    assert_eq!(range.end, 16, "cursor below content must extend the bottom");
}

#[test]
fn effective_render_width_clamps_to_smallest_constraint() {
    assert_eq!(effective_render_width(180, 100, 200), 98);
    assert_eq!(effective_render_width(60, 200, 200), 60);
    assert_eq!(effective_render_width(300, 200, 80), 80);
    assert_eq!(effective_render_width(0, 200, 200), 40);
    assert_eq!(effective_render_width(80, 0, 200), 80);
    assert_eq!(effective_render_width(0, 200, 20), 20);
    assert_eq!(effective_render_width(100, 200, 20), 20);
}

#[test]
fn row_content_width_returns_glyph_aware_right_edge() {
    let style = ScreenCellStyle {
        foreground: "default".into(),
        background: "default".into(),
        bold: false,
        dim: false,
        italic: false,
        underline: false,
        inverse: false,
    };
    let cells: Vec<ScreenCell> = vec![
        ScreenCell {
            row: 0,
            col: 0,
            text: "h".into(),
            wide: false,
            wide_continuation: false,
            style: style.clone(),
        },
        ScreenCell {
            row: 0,
            col: 1,
            text: "i".into(),
            wide: false,
            wide_continuation: false,
            style: style.clone(),
        },
        ScreenCell {
            row: 0,
            col: 2,
            text: " ".into(),
            wide: false,
            wide_continuation: false,
            style,
        },
    ];
    let refs: Vec<&ScreenCell> = cells.iter().collect();
    assert_eq!(row_content_width(&refs), 2);
}

#[test]
fn row_content_width_counts_wide_cell_as_two_columns() {
    let style = ScreenCellStyle {
        foreground: "default".into(),
        background: "default".into(),
        bold: false,
        dim: false,
        italic: false,
        underline: false,
        inverse: false,
    };
    let cells: Vec<ScreenCell> = vec![ScreenCell {
        row: 0,
        col: 4,
        text: "漢".into(),
        wide: true,
        wide_continuation: false,
        style,
    }];
    let refs: Vec<&ScreenCell> = cells.iter().collect();
    assert_eq!(row_content_width(&refs), 6);
}

#[test]
fn row_content_width_returns_zero_for_blank_row() {
    let refs: Vec<&ScreenCell> = Vec::new();
    assert_eq!(row_content_width(&refs), 0);
}

#[test]
fn visible_range_handles_empty_screen() {
    let owned: Vec<Vec<ScreenCell>> = (0..10).map(|_| Vec::new()).collect();
    let rows = row_refs(&owned);
    let range = visible_range(&rows, 4);
    assert_eq!(range.start, 4);
    assert_eq!(range.end, 5);
    assert_eq!(range.trimmed_top, 4);
    assert_eq!(range.trimmed_bottom, 5);
}

fn plain_style() -> ScreenCellStyle {
    ScreenCellStyle {
        foreground: "default".into(),
        background: "default".into(),
        bold: false,
        dim: false,
        italic: false,
        underline: false,
        inverse: false,
    }
}

/// A picture with some lines of text, cut off at its width.
fn snapshot_from(rows: u16, cols: u16, lines: &[&str]) -> ScreenSnapshot {
    let mut cells = Vec::new();
    for (row, line) in lines.iter().enumerate() {
        for (col, c) in line.chars().take(cols as usize).enumerate() {
            cells.push(ScreenCell {
                row: row as u16,
                col: col as u16,
                text: c.to_string(),
                wide: false,
                wide_continuation: false,
                style: plain_style(),
            });
        }
    }
    ScreenSnapshot {
        size: TerminalSize { rows, cols, pixel_width: 0, pixel_height: 0 },
        cursor: CursorState { row: 0, col: 0, visible: true },
        sequence: 1,
        plain_text: String::new(),
        cells,
        alternate_screen: false,
        application_cursor: false,
        application_keypad: false,
        title: None,
    }
}

#[test]
fn print_screen_renders_without_panicking() {
    let empty = print_screen("e1", &snapshot_from(10, 40, &[]), 80);
    assert!(empty.len() >= 4);
    let some = text_of(&print_screen("e1", &snapshot_from(10, 40, &["hello", "world"]), 80));
    assert!(some[1].contains("e1"));
    assert!(some[2].contains("hello"));
    assert!(some[3].contains("world"));
    let wide = "x".repeat(200);
    let cut = text_of(&print_screen("e1", &snapshot_from(10, 40, &[&wide]), 80));
    assert!(cut[2].contains(&"x".repeat(40)));
    assert!(!cut[2].contains(&"x".repeat(41)));
    let mut styled = snapshot_from(8, 30, &["bold-red plain"]);
    for cell in styled.cells.iter_mut().take(8) {
        cell.style.bold = true;
        cell.style.foreground = "idx:1".into();
    }
    let lines = print_screen("e1", &styled, 80);
    let painted = write_line(&lines[2]);
    assert!(painted.contains("\x1b[1;38;5;1mbold-red\x1b[0m"), "{painted:?}");
}

#[test]
fn cut_rows_do_not_wrap() {
    let wide = "x".repeat(100);
    let snapshot = snapshot_from(4, 100, &[&wide, "short"]);
    for cols in [42, 60, 101] {
        let shown = text_of(&print_screen("e1", &snapshot, cols));
        assert_eq!(shown[2], format!("  {}…", "x".repeat(cols - 3)));
        assert_eq!(shown[2].chars().count(), cols);
        assert_eq!(shown[3], "  short");
    }
    let shown = text_of(&print_screen("e1", &snapshot, 102));
    assert_eq!(shown[2], format!("  {wide}"));
}

#[test]
fn rows_wider_than_the_picture_lose_no_column() {
    let mut snapshot = snapshot_from(4, 100, &[&"x".repeat(100)]);
    snapshot.size.cols = 50;
    for cols in [0, 53, 200] {
        let shown = text_of(&print_screen("e1", &snapshot, cols));
        assert_eq!(shown[2], format!("  {}…", "x".repeat(50)));
    }
    let shown = text_of(&print_screen("e1", &snapshot, 52));
    assert_eq!(shown[2], format!("  {}…", "x".repeat(49)));
    let shown = text_of(&print_screen("e1", &snapshot, 20));
    assert_eq!(shown[2], format!("  {}…", "x".repeat(40)));
}

#[test]
fn print_helpers_render_without_panicking() {
    assert!(help_lines(help_text()).len() > 3);
    assert!(tips_lines(long_guide()).len() > 3);
    assert_eq!(
        write_line(&error_result("something went wrong")),
        "  \x1b[1;31m✗\x1b[0m \x1b[31msomething went wrong\x1b[0m"
    );
    assert_eq!(text_of(&line_result("single line")), vec!["  ↳ single line"]);
    assert_eq!(
        text_of(&line_result("first line\nsecond line\n\nfourth line")),
        vec!["  ↳ first line", "    second line", "    fourth line"]
    );
    let value = json(r#"{ "ok": true, "n": 7 }"#);
    assert_eq!(text_of(&[json_result(&value)]), vec![r#"  ↳ {"n":7,"ok":true}"#]);
    let big = Json::object().with("blob", Json::text(&"z".repeat(400)));
    let shown = text_of(&[json_result(&big)]).remove(0);
    assert_eq!(shown.chars().count(), 4 + 240 + 1);
    assert!(shown.ends_with('…'));
}

#[test]
fn plugin_names_are_taken_from_the_list() {
    let value = json(r#"{"plugins":[{"name":"a"},{"nick":"b"},{"name":3},{"name":"c"}]}"#);
    assert_eq!(extract_plugin_names(&value), Some(vec!["a".to_string(), "c".to_string()]));
    assert_eq!(extract_plugin_names(&json("{}")), None);
    assert_eq!(extract_plugin_names(&json(r#"{"plugins":1}"#)), None);
}

#[test]
fn notification_lines_are_exact() {
    let notice = |method: &str, params: &str| {
        format_notification(&Notification { method: method.into(), params: json(params) })
    };
    assert_eq!(
        notice("session.exited", r#"{"session":"s1"}"#).unwrap(),
        "\x1b[2m[notif]\x1b[0m \x1b[2msession.exited  s1\x1b[0m"
    );
    assert_eq!(
        notice("plugin.event", r#"{"data":"x","k":1}"#).unwrap(),
        "\x1b[2m[notif]\x1b[0m \x1b[2mplugin.event ? {\"k\":1}\x1b[0m"
    );
}

#[test]
fn cell_colours_are_read() {
    assert_eq!(parse_cell_color("default"), None);
    assert_eq!(parse_cell_color("idx:9"), Some(Shade::Fixed(9)));
    assert_eq!(parse_cell_color("idx:256"), None);
    assert_eq!(parse_cell_color("rgb:255:128:0"), Some(Shade::Rgb(255, 128, 0)));
    assert_eq!(parse_cell_color("rgb:1:2"), None);
    assert_eq!(parse_cell_color("rgb:1:2:x"), None);
    assert_eq!(parse_cell_color("garbage"), None);
    let style = ScreenCellStyle { inverse: true, underline: true, ..plain_style() };
    let ink = cell_style_to_ansi(&style);
    assert!(ink.reverse && ink.underline && !ink.bold);
}

#[test]
fn inks_are_painted_as_the_terminal_wants_them() {
    let span = |ink: Ink| write_line(&vec![Span::new("x", ink)]);
    assert_eq!(span(Ink::plain()), "x");
    let style = ScreenCellStyle {
        foreground: "rgb:1:2:3".into(),
        background: "idx:200".into(),
        bold: true,
        dim: true,
        italic: true,
        underline: true,
        inverse: true,
    };
    assert_eq!(
        span(cell_style_to_ansi(&style)),
        "\x1b[1;2;3;4;7;48;5;200;38;2;1;2;3mx\x1b[0m"
    );
    for (shade, code) in [
        (Shade::Black, 30),
        (Shade::Red, 31),
        (Shade::Green, 32),
        (Shade::Yellow, 33),
        (Shade::Purple, 35),
        (Shade::Magenta, 35),
        (Shade::Cyan, 36),
        (Shade::DarkGray, 90),
        (Shade::LightCyan, 96),
    ] {
        assert_eq!(span(Ink::colour(shade)), format!("\x1b[{code}mx\x1b[0m"));
        let mut behind = Ink::plain();
        behind.background = Some(shade);
        assert_eq!(span(behind), format!("\x1b[{}mx\x1b[0m", code + 10));
    }
}

#[test]
fn entered_lines_are_told_apart() {
    assert!(matches!(read_entered("  "), Entered::Nothing));
    assert!(matches!(read_entered(" :tabs "), Entered::Meta(rest) if rest == "tabs"));
    assert!(matches!(read_entered(" 1 + 2 "), Entered::Lua(code) if code == "1 + 2"));
}

#[test]
fn centring_puts_the_odd_one_at_the_right() {
    assert_eq!(center("ab", 7, '─'), "──ab───");
    assert_eq!(center("abc", 2, '─'), "abc");
    assert_eq!(cut_off_text("abc", 3), "abc");
    assert_eq!(cut_off_text("abcd", 3), "abc…");
}

#[test]
fn banner_names_transport_tip_and_hint() {
    let lines = text_of(&banner_lines("socket:/s", "try it", Some("2 live".into())));
    assert_eq!(
        lines,
        vec!["ptywright repl  socket:/s", "tip · try it", BANNER_HINT, "2 live", ""]
    );
    assert_eq!(banner_lines("x", "y", None).len(), 4);
    assert_eq!(prompt_left(), "\x1b[1;32mpty> \x1b[0m");
    assert_eq!(prompt_right("socket:/s"), "\x1b[2msocket:/s\x1b[0m");
}

#[test]
fn outcomes_are_printed() {
    assert!(meta_output(Ok(MetaOutcome::Quit), 80).is_none());
    let lines = meta_output(Ok(MetaOutcome::Line("(no adapters)".into())), 80).unwrap();
    assert_eq!(text_of(&lines), vec!["  ↳ (no adapters)"]);
    let lines = meta_output(Err(Error::rpc("broken")), 80).unwrap();
    assert_eq!(text_of(&lines), vec!["  ✗ broken"]);
    let found = EvalResult {
        values: vec![RenderedValue::Text("3".into()), RenderedValue::Text("x".into())],
    };
    assert_eq!(text_of(&eval_output(Ok(found), 80)), vec!["  ↳ 3", "  ↳ x"]);
    assert_eq!(text_of(&eval_output(Err(Error::Lua("oops".into())), 80)), vec!["  ✗ oops"]);
}
