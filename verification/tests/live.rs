use crossterm::cursor::MoveTo;
use crossterm::terminal::{Clear, ClearType, EnterAlternateScreen, LeaveAlternateScreen};
use crossterm::Command;
use nu_ansi_term::Style;
use ptywright_repl::ctx::{AdapterTab, ReplCtx};
use ptywright_repl::dispatcher::{
    fetch_snapshot, handle_notification, render_notice, take_focus, FocusInfo, NoticeStep, UiEvent,
};
use ptywright_repl::json::Json;
use ptywright_repl::live::{
    format_tab_strip, handle_change_notification, paint_divider, paint_header,
    paint_snapshot_region, paint_top_region, render_snapshot_into_region, visible_width,
    AltScreenGuard, LiveLayout, PaintOp, MIN_LIVE_ROWS, MIN_TERM_COLS_FOR_LIVE,
    MIN_TERM_ROWS_FOR_LIVE,
};
use ptywright_repl::screen::{
    CursorState, ScreenCell, ScreenCellStyle, ScreenSnapshot, TerminalSize,
};
use ptywright_repl::snapshot::{
    pump_action, purge_exited, refresh_focused, PumpAction, PumpEvent, SnapshotStore,
};
use ptywright_repl::transport::Notification;

fn json(text: &str) -> Json {
    Json::parse(text).expect("valid JSON")
}

fn cell(row: u16, col: u16, text: &str) -> ScreenCell {
    ScreenCell {
        row,
        col,
        text: text.to_string(),
        wide: false,
        wide_continuation: false,
        style: ScreenCellStyle {
            foreground: "default".to_string(),
            background: "default".to_string(),
            bold: false,
            dim: false,
            italic: false,
            underline: false,
            inverse: false,
        },
    }
}

fn fixture_snapshot(rows: u16, cols: u16) -> ScreenSnapshot {
    let mut cells = Vec::new();
    for r in 0..rows {
        for c in 0..cols {
            cells.push(cell(r, c, "x"));
        }
    }
    ScreenSnapshot {
        size: TerminalSize { rows, cols, pixel_width: 0, pixel_height: 0 },
        cursor: CursorState { row: 0, col: 0, visible: true },
        sequence: 1,
        plain_text: String::new(),
        cells,
        alternate_screen: false,
        application_cursor: false,
        application_keypad: false,
        title: None,
    }
}

fn write(out: &mut String, command: impl Command) {
    command.write_ansi(out).expect("escape sequence");
}

fn written(ops: &[PaintOp]) -> String {
    let mut out = String::new();
    for op in ops {
        match op {
            PaintOp::EnterAlternateScreen => write(&mut out, EnterAlternateScreen),
            PaintOp::LeaveAlternateScreen => write(&mut out, LeaveAlternateScreen),
            PaintOp::ClearAll => write(&mut out, Clear(ClearType::All)),
            PaintOp::ClearLine => write(&mut out, Clear(ClearType::CurrentLine)),
            PaintOp::MoveTo { col, row } => write(&mut out, MoveTo(*col, *row)),
            PaintOp::Print(text) => out.push_str(text),
        }
    }
    out
}

#[test]
fn layout_disables_on_tiny_terminals() {
    let layout = LiveLayout::compute(80, 10);
    assert!(!layout.enabled, "10-row terminal must not host live pane");
    assert_eq!(layout.log_top, 0);
}

#[test]
fn layout_disables_on_narrow_terminals() {
    let layout = LiveLayout::compute(30, 40);
    assert!(!layout.enabled, "30-col terminal must not host live pane");
}

#[test]
fn layout_enables_on_standard_terminal() {
    let layout = LiveLayout::compute(120, 40);
    assert!(layout.enabled);
    assert_eq!(layout.header_row, 0);
    assert_eq!(layout.live_top, 1);
    assert_eq!(layout.divider_row, layout.live_bottom + 1);
    assert_eq!(layout.log_top, layout.divider_row + 1);
    assert!(layout.live_rows() >= MIN_LIVE_ROWS);
    assert!(layout.rows - layout.log_top >= 2, "log region too small");
}

#[test]
fn layout_lives_within_terminal_bounds() {
    for rows in [MIN_TERM_ROWS_FOR_LIVE, 24, 40, 60, 200] {
        for cols in [MIN_TERM_COLS_FOR_LIVE, 80, 120, 200] {
            let layout = LiveLayout::compute(cols, rows);
            assert!(
                layout.log_top < layout.rows,
                "log_top {} >= rows {} for {cols}×{rows}",
                layout.log_top,
                layout.rows,
            );
            assert!(
                layout.live_bottom < layout.rows,
                "live_bottom {} >= rows {} for {cols}×{rows}",
                layout.live_bottom,
                layout.rows,
            );
        }
    }
}

#[test]
fn layout_rows_are_exact() {
    let layout = LiveLayout::compute(120, 40);
    assert_eq!(layout.live_rows(), 22);
    assert_eq!(layout.live_bottom, 22);
    assert_eq!(layout.log_top, 24);
    assert_eq!(LiveLayout::compute(40, 20).live_rows(), 10);
    assert_eq!(LiveLayout::compute(40, 1095).live_rows(), 655);
    assert_eq!(LiveLayout::compute(40, 1096).live_rows(), 655);
    assert_eq!(LiveLayout::compute(40, u16::MAX).live_rows(), 39319);
    assert!(!LiveLayout::compute(39, u16::MAX).enabled);
}

#[test]
fn scroll_region_1based_matches_log_top() {
    let layout = LiveLayout::compute(120, 40);
    let (top, bottom) = layout.scroll_region_1based().expect("region present");
    assert_eq!(top, layout.log_top + 1, "DECSTBM top must follow log_top");
    assert_eq!(bottom, layout.rows, "DECSTBM bottom must hit terminal floor");
}

#[test]
fn scroll_region_absent_when_layout_disabled() {
    assert!(LiveLayout::compute(80, 10).scroll_region_1based().is_none());
}

#[test]
fn tab_strip_lists_every_tab_and_marks_focused() {
    let tabs = vec![
        AdapterTab { id: "e1".into(), plugin: "agent-shell".into(), state_label: None },
        AdapterTab { id: "e2".into(), plugin: "zsh".into(), state_label: None },
    ];
    let strip = format_tab_strip(&tabs, Some("e1"));
    assert!(strip.contains("e1 · agent-shell"), "missing focused label: {strip}");
    assert!(strip.contains("e2 · zsh"), "missing unfocused label: {strip}");
    assert!(strip.starts_with("\x1b[1;32me1"));
}

#[test]
fn tab_strip_renders_spawn_hint_when_empty() {
    let strip = format_tab_strip(&Vec::new(), None);
    assert!(strip.contains("session.spawn"));
}

#[test]
fn snapshot_render_emits_one_paint_per_row() {
    let snap = fixture_snapshot(3, 4);
    let layout = LiveLayout::compute(120, 40);
    let ops = render_snapshot_into_region(&snap, &layout);
    let s = written(&ops);
    let move_to_count = s.matches("\x1b[").count();
    assert!(
        move_to_count >= snap.size.rows as usize,
        "MoveTo count {move_to_count} < snapshot rows {}",
        snap.size.rows
    );
    assert!(s.contains("x"));
    let moves = ops.iter().filter(|op| matches!(op, PaintOp::MoveTo { .. })).count();
    assert_eq!(moves, layout.live_rows() as usize);
    assert_eq!(ops[2], PaintOp::Print("xxxx".into()));
}

#[test]
fn pane_shows_no_more_than_its_columns() {
    let snap = fixture_snapshot(1, 100);
    let layout = LiveLayout::compute(40, 24);
    let ops = render_snapshot_into_region(&snap, &layout);
    assert_eq!(ops[2], PaintOp::Print("x".repeat(40)));
}

#[test]
fn paint_top_region_wraps_in_save_restore_cursor() {
    let layout = LiveLayout::compute(120, 40);
    let tabs: Vec<AdapterTab> = Vec::new();
    let mut buf = String::new();
    buf.push_str("\x1b7");
    buf.push_str(&written(&paint_header(&layout, &tabs, None)));
    buf.push_str(&written(&paint_snapshot_region(&layout, None)));
    buf.push_str(&written(&paint_divider(&layout)));
    buf.push_str("\x1b8");
    assert!(buf.starts_with("\x1b7"), "save-cursor escape must lead");
    assert!(buf.ends_with("\x1b8"), "restore-cursor escape must trail");
    let whole = written(&paint_top_region(&layout, &tabs, None, None));
    assert_eq!(whole, format!("\x1b[25;40r{buf}"));
    assert!(paint_top_region(&LiveLayout::compute(80, 10), &tabs, None, None).is_empty());
}

#[test]
fn header_shows_the_state_at_the_right() {
    let layout = LiveLayout::compute(80, 24);
    let tabs = vec![AdapterTab {
        id: "e1".into(),
        plugin: "zsh".into(),
        state_label: Some("busy".into()),
    }];
    let ops = paint_header(&layout, &tabs, Some("e1"));
    assert_eq!(ops.last(), Some(&PaintOp::Print("\x1b[2mbusy\x1b[0m".into())));
    let width: usize = ops
        .iter()
        .map(|op| match op {
            PaintOp::Print(text) => visible_width(text),
            _ => 0,
        })
        .sum();
    assert_eq!(width, 80);
}

#[test]
fn visible_width_strips_csi_escapes() {
    let s = format!("{}", Style::new().dimmed().paint("Hello"));
    assert_eq!(visible_width(&s), 5);
}

#[test]
fn visible_width_of_odd_sequences() {
    assert_eq!(visible_width("é│x"), 3);
    assert_eq!(visible_width("\x1b7ab"), 2);
    assert_eq!(visible_width("\x1b"), 0);
    assert_eq!(visible_width("a\x1b[12;3"), 1);
    assert_eq!(visible_width("\x1bé"), 1);
    assert_eq!(visible_width("\x1b│"), 2);
}

#[test]
fn alternate_screen_is_left_once() {
    let layout = LiveLayout::compute(120, 40);
    let (mut guard, ops) = AltScreenGuard::enter(&layout);
    assert_eq!(
        ops,
        vec![
            PaintOp::EnterAlternateScreen,
            PaintOp::ClearAll,
            PaintOp::MoveTo { col: 0, row: 0 },
            PaintOp::Print("\x1b[25;40r".into()),
            PaintOp::MoveTo { col: 0, row: 24 },
        ]
    );
    assert_eq!(
        guard.restore(),
        vec![PaintOp::Print("\x1b[r".into()), PaintOp::LeaveAlternateScreen]
    );
    assert!(guard.restore().is_empty());
    let (mut plain, ops) = AltScreenGuard::enter(&LiveLayout::compute(80, 10));
    assert_eq!(ops.len(), 3);
    assert_eq!(plain.restore(), vec![PaintOp::LeaveAlternateScreen]);
}

fn changed(method: &str) -> Notification {
    Notification { method: method.to_string(), params: json(r#"{ "session": "s1" }"#) }
}

#[test]
fn handle_change_returns_false_without_focus() {
    let ctx = ReplCtx::new();
    assert!(!handle_change_notification(&changed("session.changed"), &ctx, None));
}

#[test]
fn handle_change_pushes_refresh_when_focused() {
    let mut ctx = ReplCtx::new();
    ctx.upsert_adapter("e1", "agent-shell");
    ctx.focus = Some("e1".into());
    assert!(handle_change_notification(&changed("session.changed"), &ctx, None));
}

#[test]
fn handle_change_ignores_unrelated_methods() {
    let mut ctx = ReplCtx::new();
    ctx.upsert_adapter("e1", "agent-shell");
    ctx.focus = Some("e1".into());
    assert!(!handle_change_notification(&changed("session.exited"), &ctx, None));
}

#[test]
fn handle_change_needs_a_session_and_a_known_tab() {
    let mut ctx = ReplCtx::new();
    ctx.focus = Some("e1".into());
    assert!(!handle_change_notification(&changed("session.changed"), &ctx, None));
    ctx.upsert_adapter("e1", "agent-shell");
    let nameless =
        Notification { method: "session.changed".into(), params: json(r#"{"session":7}"#) };
    assert!(!handle_change_notification(&nameless, &ctx, None));
}

#[test]
fn handle_change_compares_the_session_where_it_is_known() {
    let mut ctx = ReplCtx::new();
    ctx.upsert_adapter("e1", "agent-shell");
    ctx.focus = Some("e1".into());
    let notification = changed("session.changed");
    assert!(handle_change_notification(&notification, &ctx, Some("s1")));
    assert!(!handle_change_notification(&notification, &ctx, Some("s2")));
}

// ---- the store and the pump ---------------------------------------------

#[test]
fn store_round_trips_set_get_forget() {
    let mut store = SnapshotStore::new();
    assert!(store.get("e1").is_none());
    let dummy = ScreenSnapshot {
        size: TerminalSize { rows: 1, cols: 1, pixel_width: 0, pixel_height: 0 },
        cursor: CursorState { row: 0, col: 0, visible: false },
        sequence: 7,
        plain_text: "x".into(),
        cells: Vec::new(),
        alternate_screen: false,
        application_cursor: false,
        application_keypad: false,
        title: None,
    };
    store.set("e1", dummy.clone());
    assert_eq!(store.get("e1").map(|s| s.sequence), Some(7));
    store.forget("e1");
    assert!(store.get("e1").is_none());
}

#[test]
fn pump_refreshes_focused_adapter_snapshot() {
    let mut ctx = ReplCtx::new();
    assert!(refresh_focused(&ctx).is_none());
    ctx.upsert_adapter("e1", "agent-shell");
    ctx.focus = Some("e1".into());
    assert_eq!(pump_action(&PumpEvent::Idle), PumpAction::Refresh);
    assert_eq!(pump_action(&PumpEvent::Closed), PumpAction::Stop);
    assert_eq!(pump_action(&PumpEvent::Notified(changed("session.changed"))), PumpAction::Refresh);
    assert_eq!(pump_action(&PumpEvent::Notified(changed("session.output"))), PumpAction::Wait);
    assert_eq!(
        pump_action(&PumpEvent::Notified(changed("session.exited"))),
        PumpAction::RefreshAndPurge
    );
    let (id, request) = refresh_focused(&ctx).expect("request");
    assert_eq!(id, "e1");
    assert_eq!(request.method, "adapter.snapshot");
    assert_eq!(request.params, json(r#"{"adapter":"e1","redact":false}"#));
    let mut store = SnapshotStore::default();
    store.set(&id, fixture_snapshot(1, 1));
    assert!(store.get("e1").is_some());
}

#[test]
fn an_exit_forgets_the_pictures_of_all_tabs() {
    let mut ctx = ReplCtx::new();
    ctx.upsert_adapter("e1", "x");
    ctx.upsert_adapter("e2", "x");
    let mut store = SnapshotStore::new();
    for id in ["e1", "e2", "other"] {
        store.set(id, fixture_snapshot(1, 1));
    }
    purge_exited(&json("{}"), &ctx, &mut store);
    assert!(store.get("e1").is_some());
    purge_exited(&json(r#"{"session":"s1"}"#), &ctx, &mut store);
    assert!(store.get("e1").is_none());
    assert!(store.get("e2").is_none());
    assert!(store.get("other").is_some());
}

// ---- notifications ------------------------------------------------------

#[test]
fn render_notice_formats_session_exited() {
    let n = Notification {
        method: "session.exited".into(),
        params: json(r#"{ "session": "s1", "sequence": 9 }"#),
    };
    assert_eq!(render_notice(&n), "session.exited  s1 seq=9");
    let bare = Notification { method: "session.exited".into(), params: json("{}") };
    assert_eq!(render_notice(&bare), "session.exited  ?");
}

#[test]
fn render_notice_falls_back_to_method_and_params() {
    let n = Notification {
        method: "future.event".into(),
        params: json(r#"{ "anything": "goes" }"#),
    };
    let rendered = render_notice(&n);
    assert!(rendered.starts_with("future.event"));
    assert!(rendered.contains("anything"));
    assert_eq!(rendered, r#"future.event {"anything":"goes"}"#);
}

#[test]
fn focus_info_default_is_empty() {
    let info = FocusInfo::default();
    assert!(info.adapter.is_none());
    assert!(info.session.is_none());
}

#[test]
fn notifications_of_the_focused_session_fetch() {
    let focus = FocusInfo { adapter: Some("e1".into()), session: Some("s1".into()) };
    assert!(matches!(
        handle_notification(&focus, &changed("session.changed")),
        NoticeStep::Fetch(id) if id == "e1"
    ));
    assert!(matches!(
        handle_notification(&focus, &changed("session.output")),
        NoticeStep::Nothing
    ));
    let other = FocusInfo { adapter: Some("e1".into()), session: Some("s2".into()) };
    assert!(matches!(
        handle_notification(&other, &changed("session.changed")),
        NoticeStep::Nothing
    ));
    assert!(matches!(
        handle_notification(&other, &changed("session.exited")),
        NoticeStep::Tell(UiEvent::Notice(text)) if text == "session.exited  s1"
    ));
    let request = fetch_snapshot("e1");
    assert_eq!(request.params, json(r#"{"adapter":"e1","redact":true}"#));
}

#[test]
fn taking_a_focus_tells_a_change_of_adapter() {
    let mut focus = FocusInfo::default();
    let first = FocusInfo { adapter: Some("e1".into()), session: None };
    assert!(take_focus(&mut focus, first));
    let again = FocusInfo { adapter: Some("e1".into()), session: Some("s1".into()) };
    assert!(!take_focus(&mut focus, again));
    assert_eq!(focus.session.as_deref(), Some("s1"));
    assert!(take_focus(&mut focus, FocusInfo::default()));
}
