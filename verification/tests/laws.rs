use mlua::Lua;
use ptywright_repl::command::dispatch::{dispatch, Step};
use ptywright_repl::command::arg::{Arg, DslCall};
use ptywright_repl::command::{parse, parse_id_list, Cmd};
use ptywright_repl::completer::{AdapterCache, PluginCache};
use ptywright_repl::ctx::ReplCtx;
use ptywright_repl::duration::Duration;
use ptywright_repl::history::ReplHistory;
use ptywright_repl::json::Json;
use ptywright_repl::live::{AltScreenGuard, LiveLayout, PaintOp};
use ptywright_repl::lua::bindings::{begin, Binding, LuaStep};
use ptywright_repl::lua::eval::{validate, validate_parsed, Parsing, Validation};
use ptywright_repl::screen::{ScreenCell, ScreenCellStyle};
use ptywright_repl::tips::rotating_tip_for;
use ptywright_repl::transport::Pending;
use ptywright_repl::tui::row_content_width;

fn focused() -> ReplCtx {
    let mut ctx = ReplCtx::new();
    ctx.upsert_adapter("e1", "agent-shell");
    ctx.set_focus("e1");
    ctx
}

fn cell(col: u16, text: &str, wide: bool) -> ScreenCell {
    ScreenCell {
        row: 0,
        col,
        text: text.to_string(),
        wide,
        wide_continuation: false,
        style: ScreenCellStyle {
            foreground: "default".into(),
            background: "default".into(),
            bold: false,
            dim: false,
            italic: false,
            underline: false,
            inverse: false,
        },
    }
}

#[test]
fn no_tip_comes_twice_in_a_row() {
    for seed in 0..40 {
        assert_ne!(rotating_tip_for(seed), rotating_tip_for(seed + 1), "{seed}");
    }
}

#[test]
fn commands_keep_to_adapter_methods() {
    for line in [
        "plugins()",
        r#"session.spawn("agent-shell")"#,
        r#"session.close("e1")"#,
        "session.live()",
        r#"send.key("enter")"#,
        r#"cancel_wait("w1")"#,
        "inspect()",
    ] {
        let cmd = parse(line).expect("a command");
        match dispatch(cmd, &mut focused()) {
            Step::Call { request, .. } => {
                assert!(request.method.starts_with("adapter."), "{}", request.method);
            }
            other => panic!("unexpected step for {line}: {other:?}"),
        }
    }
    match dispatch(parse(r#"plugins.describe("x")"#).expect("a command"), &mut focused()) {
        Step::Call { request, .. } => assert_eq!(request.method, "plugin.describe"),
        other => panic!("unexpected step: {other:?}"),
    }
}

#[test]
fn pictures_come_as_they_are() {
    match dispatch(parse("view()").expect("a command"), &mut focused()) {
        Step::Call { request, .. } => {
            assert_eq!(request.method, "adapter.snapshot");
            assert_eq!(request.params.get_bool("redact"), Some(false));
        }
        other => panic!("unexpected step: {other:?}"),
    }
    for binding in [Binding::View, Binding::ScreenSnapshot] {
        match begin(binding, &Vec::new(), &focused()).expect("a step") {
            LuaStep::Call { request, .. } => {
                assert_eq!(request.method, "adapter.snapshot");
                assert_eq!(request.params.get_bool("redact"), Some(false));
                assert_eq!(request.params.get("adapter"), Some(&Json::text("e1")));
            }
            other => panic!("unexpected step: {other:?}"),
        }
    }
}

#[test]
fn only_beginnings_ask_for_more() {
    let lua = Lua::new();
    assert_eq!(validate(&lua, "  :rpc x {"), Validation::Complete);
    assert_eq!(validate(&lua, "for i = 1, 3 do"), Validation::Incomplete);
    assert_eq!(validate(&lua, "for i = 1, 3 do end"), Validation::Complete);
    assert_eq!(validate(&lua, "1 +"), Validation::Incomplete);
    assert_eq!(validate(&lua, "local = 1"), Validation::Complete);
    assert_eq!(
        validate_parsed("x", Parsing::Wrong, Parsing::Unfinished),
        Validation::Incomplete
    );
    assert_eq!(
        validate_parsed(":x", Parsing::Unfinished, Parsing::Unfinished),
        Validation::Complete
    );
}

#[test]
fn answers_go_to_the_call_that_waits() {
    let mut pending: Pending<&str> = Pending::new();
    let first = pending.begin("first");
    let second = pending.begin("second");
    assert_ne!(first, second);
    assert_eq!(pending.take(second), Some("second"));
    assert_eq!(pending.take(second), None);
    assert_eq!(pending.take(first), Some("first"));
}

#[test]
fn typing_begins_below_the_divider() {
    let layout = LiveLayout::compute(120, 40);
    let (_, ops) = AltScreenGuard::enter(&layout);
    assert_eq!(ops.last(), Some(&PaintOp::MoveTo { col: 0, row: layout.log_top }));
    assert!(ops.contains(&PaintOp::Print(format!("\x1b[{};40r", layout.log_top + 1))));
    assert!(layout.divider_row < layout.log_top);
}

#[test]
fn rows_are_as_wide_as_their_last_glyph() {
    let cells = [cell(0, "a", false), cell(3, "日", true), cell(7, " ", false)];
    let row: Vec<&ScreenCell> = cells.iter().collect();
    assert_eq!(row_content_width(&row), 5);
    let blank = [cell(4, "", false)];
    assert_eq!(row_content_width(&blank.iter().collect()), 0);
}

#[test]
fn last_upsert_or_removal_decides() {
    let mut ctx = ReplCtx::new();
    ctx.upsert_adapter("e1", "one");
    ctx.upsert_adapter("e2", "two");
    ctx.upsert_adapter("e1", "three");
    ctx.set_state_label("e1", Some("busy".into()));
    assert_eq!(ctx.adapter("e1").expect("e1").plugin, "three");
    assert!(ctx.remove_adapter("e1"));
    ctx.set_focus("e1");
    assert!(ctx.adapter("e1").is_none());
    assert_eq!(ctx.adapter("e2").expect("e2").plugin, "two");
    ctx.upsert_adapter("e1", "four");
    let tab = ctx.adapter("e1").expect("e1");
    assert_eq!((tab.id.as_str(), tab.plugin.as_str()), ("e1", "four"));
}

#[test]
fn entered_lines_survive_a_reopening() {
    let mut history = ReplHistory::open("");
    for line in ["alpha", "beta\r\n", "beta", "", "a\rb", "\n"] {
        history.push(line);
    }
    assert_eq!(*history.entries(), vec!["alpha", "beta", "a\rb"]);
    let reopened = ReplHistory::open(&history.file_text());
    assert_eq!(reopened.entries(), history.entries());
    assert_eq!(reopened.capacity, history.capacity);
}

#[test]
fn caches_forget_what_they_held() {
    let mut plugins = PluginCache::new();
    plugins.set(vec!["a".into(), "b".into()]);
    plugins.set(vec!["c".into()]);
    assert_eq!(plugins.snapshot(), vec!["c"]);
    let mut adapters = AdapterCache::new();
    adapters.set(vec!["e1".into()]);
    adapters.set(Vec::new());
    assert!(adapters.snapshot().is_empty());
}

#[test]
fn twelve_seeds_show_twelve_lines() {
    let tips: Vec<&str> = (100..112).map(rotating_tip_for).collect();
    for (i, tip) in tips.iter().enumerate() {
        assert!(!tip.is_empty() && !tip.contains('\n') && tip.chars().count() <= 120);
        assert!(!tips[..i].contains(tip));
    }
}

#[test]
fn white_space_round_a_line_is_dropped() {
    assert_eq!(parse(" \t:quit \n"), parse(":quit"));
    assert_eq!(parse("\u{3000}f(1) "), parse("f(1)"));
    assert!(matches!(parse(" :quit"), Ok(Cmd::Meta(_))));
    assert!(matches!(parse(" f(1)"), Ok(Cmd::Dsl(_))));
    assert!(parse(" \u{a0}\n").is_err());
}

fn argument_of(text: &str) -> Arg {
    match parse(&format!("f({text})")) {
        Ok(Cmd::Dsl(DslCall { path, mut positional, kwargs })) => {
            assert_eq!(path, vec!["f"]);
            assert_eq!(positional.len(), 1);
            assert!(kwargs.is_empty());
            positional.remove(0)
        }
        other => panic!("expected a call, got {other:?}"),
    }
}

#[test]
fn shown_arguments_are_arguments_again() {
    let values = [
        Arg::Int(0),
        Arg::Int(-17),
        Arg::Int(i64::MAX),
        Arg::Int(i64::MIN),
        Arg::Bool(true),
        Arg::Bool(false),
        Arg::Null,
        Arg::Duration(Duration::from_millis(1500)),
        Arg::Duration(Duration::from_millis(u64::MAX)),
        Arg::String("plain \"quoted\" \\ \n\t\r\0 é".into()),
    ];
    for value in values {
        assert_eq!(argument_of(&value.shown()), value);
    }
    assert_eq!(argument_of(r#"r"a\d+""#), Arg::Regex(r"a\d+".into()));
}

#[test]
fn id_lists_come_back_from_commas() {
    let ids = parse_id_list(" e1 , ,e 2,,\te3\n,");
    assert_eq!(ids, vec!["e1", "e 2", "e3"]);
    assert_eq!(parse_id_list(&ids.join(",")), ids);
    assert!(parse_id_list(" , ").is_empty());
    assert!(parse_id_list("").is_empty());
}
