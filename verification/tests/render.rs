use std::collections::VecDeque;

use ptywright_repl::app::{CompletionState, LogEntry};
use ptywright_repl::completer::{Place, Suggestion};
use ptywright_repl::ctx::ReplCtx;
use ptywright_repl::highlighter::ReplHighlighter;
use ptywright_repl::notes::Note;
use ptywright_repl::paint::{Ink, Shade};
use ptywright_repl::render::{
    cell_style, cursor_column, log_entry_lines, log_scroll, parse_color, popup_fits,
    render_completion_popup, render_input, render_log, render_snapshot_hint, render_tab_strip,
    snapshot_fits, snapshot_height, snapshot_title, snapshot_to_lines, Area, INPUT_HINT,
};
use ptywright_repl::screen::{
    CursorState, ScreenCell, ScreenCellStyle, ScreenSnapshot, TerminalSize,
};
use ptywright_repl::tui::Line;

fn text_of(line: &Line) -> String {
    line.iter().map(|span| span.text.as_str()).collect()
}

fn cell(row: u16, col: u16, text: &str) -> ScreenCell {
    ScreenCell {
        row,
        col,
        text: text.to_string(),
        wide: false,
        wide_continuation: false,
        style: ScreenCellStyle {
            foreground: "default".to_string(),
            background: "default".to_string(),
            bold: false,
            dim: false,
            italic: false,
            underline: false,
            inverse: false,
        },
    }
}

fn picture(rows: u16, cols: u16, cells: Vec<ScreenCell>) -> ScreenSnapshot {
    ScreenSnapshot {
        size: TerminalSize { rows, cols, pixel_width: 0, pixel_height: 0 },
        cursor: CursorState { row: 0, col: 0, visible: true },
        sequence: 7,
        plain_text: String::new(),
        cells,
        alternate_screen: false,
        application_cursor: false,
        application_keypad: false,
        title: None,
    }
}

#[test]
fn snapshot_height_floors_at_minimum() {
    assert!(snapshot_height(40) >= 8);
    assert!(snapshot_height(20) >= 8);
    let h = snapshot_height(15);
    assert!(h <= 15 - 7);
}

#[test]
fn snapshot_height_scales_with_terminal() {
    let small = snapshot_height(30);
    let large = snapshot_height(80);
    assert!(large > small);
}

#[test]
fn snapshot_height_is_exact() {
    assert_eq!(snapshot_height(0), 0);
    assert_eq!(snapshot_height(10), 3);
    assert_eq!(snapshot_height(40), 18);
    assert_eq!(snapshot_height(u16::MAX), 36040);
}

#[test]
fn parse_color_handles_default_indexed_and_rgb() {
    assert_eq!(parse_color("default"), None);
    assert_eq!(parse_color("idx:9"), Some(Shade::Fixed(9)));
    assert_eq!(parse_color("rgb:255:128:0"), Some(Shade::Rgb(255, 128, 0)));
    assert_eq!(parse_color("garbage"), None);
}

#[test]
fn cell_styles_carry_over() {
    let mut style = cell(0, 0, "x").style;
    style.bold = true;
    style.inverse = true;
    style.background = "idx:3".into();
    let ink = cell_style(&style);
    assert!(ink.bold && ink.reverse);
    assert_eq!(ink.background, Some(Shade::Fixed(3)));
    assert_eq!(ink.foreground, None);
}

#[test]
fn tab_strip_fills_the_width() {
    let mut ctx = ReplCtx::new();
    let line = render_tab_strip(&ctx, "socket:/s", 100);
    let text = text_of(&line);
    assert!(text.starts_with(" ptywright · no live sessions — try session.spawn("));
    assert!(text.ends_with(" socket:/s "));
    assert_eq!(text.chars().count(), 100);
    ctx.upsert_adapter("e1", "p");
    ctx.upsert_adapter("e2", "q");
    ctx.set_state_label("e2", Some("busy".into()));
    ctx.set_focus("e2");
    let line = render_tab_strip(&ctx, "socket:/s", 10);
    assert_eq!(text_of(&line), " ptywright   e1 · p  │  e2 · q · busy   socket:/s ");
    assert_eq!(line[4].ink.background, Some(Shade::Cyan));
    assert_eq!(line[2].ink, Ink::dimmed());
}

#[test]
fn picture_rows_are_padded() {
    let mut wide = cell(0, 4, "漢");
    wide.wide = true;
    let mut rest = cell(0, 5, "");
    rest.wide_continuation = true;
    let cells = vec![cell(0, 2, "b"), cell(0, 0, ""), rest, wide, cell(9, 0, "out")];
    let snapshot = picture(2, 8, cells);
    assert!(snapshot_fits(&snapshot));
    let lines = snapshot_to_lines(&snapshot, 20);
    assert_eq!(lines.len(), 2);
    assert_eq!(text_of(&lines[0]), "  b 漢   ");
    assert_eq!(text_of(&lines[1]), "        ");
    let narrow = snapshot_to_lines(&snapshot, 6);
    assert_eq!(text_of(&narrow[0]), "  b 漢 ");
    assert!(!snapshot_fits(&picture(1, 1, vec![cell(0, u16::MAX, "x")])));
    assert!(snapshot_fits(&picture(1, 1, vec![cell(1, u16::MAX, "x")])));
}

#[test]
fn picture_title_names_the_adapter() {
    let snapshot = picture(24, 80, Vec::new());
    let id = "e1".to_string();
    assert_eq!(
        text_of(&snapshot_title(Some((&id, &snapshot)))),
        " snapshot · e1 · 80×24 · seq 7 "
    );
    assert_eq!(text_of(&snapshot_title(None)), " snapshot · (no focus) ");
    let mut ctx = ReplCtx::new();
    assert!(text_of(&render_snapshot_hint(&ctx)).contains("spawn an adapter"));
    ctx.upsert_adapter("e1", "p");
    assert!(text_of(&render_snapshot_hint(&ctx)).contains(":focus <adapter>"));
}

#[test]
fn log_entries_become_lines() {
    let highlighter = ReplHighlighter::new(vec!["session".into()]);
    let shown = |entry: LogEntry| -> Vec<String> {
        log_entry_lines(&entry, &highlighter).iter().map(text_of).collect()
    };
    assert_eq!(shown(LogEntry::Input("session.list()".into())), vec!["pty> session.list()"]);
    assert_eq!(shown(LogEntry::Note(Note::line("done"))), vec!["  ↳ done"]);
    assert_eq!(shown(LogEntry::Line("l".into())), vec!["  ↳ l"]);
    assert_eq!(shown(LogEntry::Json("{}".into())), vec!["  ↳ {}"]);
    assert_eq!(shown(LogEntry::Error("e".into())), vec!["  ✗ e"]);
    assert_eq!(shown(LogEntry::Notice("n".into())), vec!["[notif] n"]);
    assert_eq!(shown(LogEntry::Help("a:\n\nb\n".into())), vec!["a:", "", "b"]);
    assert_eq!(shown(LogEntry::Banner("b".into())), vec!["b"]);
    assert_eq!(shown(LogEntry::Hint("h".into())), vec!["h"]);
    let help = log_entry_lines(&LogEntry::Help("a:\n\nb".into()), &highlighter);
    assert_eq!(help[0][0].ink, Ink::colour(Shade::Yellow));
    assert_eq!(help[1][0].ink, Ink::plain());
    assert_eq!(help[2][0].ink, Ink::dimmed());
    let mut log = VecDeque::new();
    log.push_back(LogEntry::Banner("one".into()));
    log.push_back(LogEntry::Help("two\nthree".into()));
    let lines: Vec<String> = render_log(&log, &highlighter).iter().map(text_of).collect();
    assert_eq!(lines, vec!["one", "two", "three"]);
    assert_eq!(log_scroll(30, 10), 20);
    assert_eq!(log_scroll(5, 10), 0);
}

#[test]
fn input_shows_a_hint_when_empty() {
    let highlighter = ReplHighlighter::new(Vec::new());
    assert_eq!(text_of(&render_input("", &highlighter)), INPUT_HINT);
    assert_eq!(text_of(&render_input("x = 1", &highlighter)), "x = 1");
    assert_eq!(cursor_column(true, true, 0, 1, 10), None);
    assert_eq!(cursor_column(true, false, 0, 1, 10), Some(1));
    assert_eq!(cursor_column(false, true, 3, 1, 10), Some(4));
    assert_eq!(cursor_column(false, true, 30, 1, 10), Some(10));
}

#[test]
fn popup_stands_above_the_input() {
    let suggestions: Vec<Suggestion> = (0..10)
        .map(|n| Suggestion {
            value: format!("item{n}"),
            description: if n == 9 { Some("the last".into()) } else { None },
            place: Place { start: 0, end: 0 },
        })
        .collect();
    let state = CompletionState {
        suggestions,
        index: 9,
        original_buffer: String::new(),
        original_cursor: 0,
    };
    let input = Area { x: 2, y: 20, width: 60, height: 3 };
    assert!(popup_fits(&state, input));
    let popup = render_completion_popup(&state, input);
    assert_eq!(popup.area, Area { x: 2, y: 11, width: 20, height: 10 });
    assert_eq!(popup.lines.len(), 8);
    assert_eq!(text_of(&popup.lines[0]), "item2");
    assert_eq!(text_of(&popup.lines[7]), "item9  the last");
    assert_eq!(popup.lines[7][0].ink.background, Some(Shade::Cyan));
    assert_eq!(popup.lines[0][0].ink, Ink::plain());
    let narrow = render_completion_popup(&state, Area { x: 0, y: 3, width: 10, height: 3 });
    assert_eq!(narrow.area.width, 10);
    assert_eq!(narrow.area.y, 0);
}
