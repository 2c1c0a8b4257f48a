use mlua::Lua;
use ptywright_repl::completer::{
    current_token, AdapterCache, PluginCache, ReplCompleter, Suggestion,
};
use ptywright_repl::ctx::ReplCtx;
use ptywright_repl::lua::eval::repl_globals;

/// The names that the client gives to Lua, without what stands behind them.
const GLOBALS: &str = r#"
local function f() end
local function called(fields) return setmetatable(fields, { __call = f }) end
plugins = called { describe = f }
session = { spawn = f, resume = f, list = f, live = f, attach = f, close = f }
send = { text = f, key = f, intent = f }
wait = called { matches = f, screen_stable = f }
screen = { snapshot = f }
transcript = { snapshot = f }
view, state, inspect, turn, cancel_wait = f, f, f, f, f
matches, screen_stable, re, ms, s = f, f, f, f, f
"#;

struct Fixture {
    lua: Lua,
    ctx: ReplCtx,
    plugins: PluginCache,
    adapters: AdapterCache,
    globals: Vec<String>,
}

impl Fixture {
    fn new(tabs: &[(&str, &str)], plugins: &[&str], ids: &[&str]) -> Self {
        let lua = Lua::new();
        lua.load(GLOBALS).exec().expect("globals");
        let mut ctx = ReplCtx::new();
        for (id, plugin) in tabs {
            ctx.upsert_adapter(id, plugin);
        }
        let mut names = PluginCache::new();
        names.set(plugins.iter().map(|n| n.to_string()).collect());
        let mut adapters = AdapterCache::new();
        adapters.set(ids.iter().map(|n| n.to_string()).collect());
        Fixture { lua, ctx, plugins: names, adapters, globals: repl_globals() }
    }

    fn complete(&self, line: &str, pos: usize) -> Vec<Suggestion> {
        let completer = ReplCompleter {
            ctx: &self.ctx,
            plugins: &self.plugins,
            adapters: &self.adapters,
            repl_globals: &self.globals,
        };
        completer.complete(&self.lua, line, pos)
    }
}

#[test]
fn empty_buffer_surfaces_top_level_repl_globals() {
    let completer = Fixture::new(&[], &[], &[]);
    let suggestions = completer.complete("", 0);
    let values: Vec<&str> = suggestions.iter().map(|s| s.value.as_str()).collect();
    for expected in [
        "plugins()",
        "view()",
        "state()",
        "inspect()",
        "session",
        "send",
        "wait",
        "matches",
        "screen_stable",
        "cancel_wait",
        "re",
        "ms",
        "s",
        "turn",
        "transcript",
        "screen",
    ] {
        assert!(
            values.contains(&expected),
            "expected `{expected}` in top-level completions, got {values:?}"
        );
    }
    for unwanted in ["string", "math", "table", "io", "os", "_G", "_VERSION"] {
        assert!(
            !values.contains(&unwanted),
            "stdlib `{unwanted}` leaked into top-level completions",
        );
    }
}

#[test]
fn top_level_prefix_filters_to_session() {
    let completer = Fixture::new(&[], &[], &[]);
    let suggestions = completer.complete("ses", 3);
    let values: Vec<&str> = suggestions.iter().map(|s| s.value.as_str()).collect();
    assert_eq!(values, vec!["session"]);
}

#[test]
fn session_dot_surfaces_member_methods() {
    let completer = Fixture::new(&[], &[], &[]);
    let suggestions = completer.complete("session.", "session.".len());
    let values: Vec<&str> = suggestions.iter().map(|s| s.value.as_str()).collect();
    for method in ["spawn", "resume", "list()", "live()", "attach", "close"] {
        assert!(
            values.contains(&method),
            "expected `{method}`, got {values:?}"
        );
    }
}

#[test]
fn session_dot_sp_prefix_filters_to_spawn() {
    let completer = Fixture::new(&[], &[], &[]);
    let line = "session.sp";
    let suggestions = completer.complete(line, line.len());
    let values: Vec<&str> = suggestions.iter().map(|s| s.value.as_str()).collect();
    assert_eq!(values, vec!["spawn"]);
}

#[test]
fn wait_dot_surfaces_matches_and_screen_stable() {
    let completer = Fixture::new(&[], &[], &[]);
    let suggestions = completer.complete("wait.", "wait.".len());
    let values: Vec<&str> = suggestions.iter().map(|s| s.value.as_str()).collect();
    assert!(values.contains(&"matches"), "got {values:?}");
    assert!(values.contains(&"screen_stable"), "got {values:?}");
}

#[test]
fn meta_prefix_surfaces_meta_table() {
    let completer = Fixture::new(&[], &[], &[]);
    let suggestions = completer.complete(":", 1);
    let values: Vec<&str> = suggestions.iter().map(|s| s.value.as_str()).collect();
    for expected in [":help", ":quit", ":tabs", ":focus", ":notifications on"] {
        assert!(
            values.contains(&expected),
            "expected `{expected}` in meta completions, got {values:?}"
        );
    }
}

#[test]
fn focus_completes_known_adapter_ids() {
    let completer = Fixture::new(&[("e1", "agent-shell"), ("e2", "agent-shell")], &[], &[]);
    let suggestions = completer.complete(":focus ", 7);
    let values: Vec<&str> = suggestions.iter().map(|s| s.value.as_str()).collect();
    assert!(values.contains(&"e1"));
    assert!(values.contains(&"e2"));
}

#[test]
fn spawn_completes_cached_plugin_names() {
    let completer = Fixture::new(&[], &["agent-shell", "future-plugin"], &[]);
    let line = r#"session.spawn(""#;
    let suggestions = completer.complete(line, line.len());
    let values: Vec<&str> = suggestions.iter().map(|s| s.value.as_str()).collect();
    assert!(values.contains(&"agent-shell"));
    assert!(values.contains(&"future-plugin"));
}

#[test]
fn spawn_completion_respects_partial_prefix() {
    let completer = Fixture::new(&[], &["agent-shell", "rspec"], &[]);
    let line = r#"session.spawn("age"#;
    let suggestions = completer.complete(line, line.len());
    let values: Vec<&str> = suggestions.iter().map(|s| s.value.as_str()).collect();
    assert_eq!(values, vec!["agent-shell"]);
}

#[test]
fn attach_completer_suggests_all_and_known_ids() {
    let completer = Fixture::new(&[("e7", "agent-shell")], &[], &[]);
    let line = ":attach ";
    let suggestions = completer.complete(line, line.len());
    let values: Vec<&str> = suggestions.iter().map(|s| s.value.as_str()).collect();
    assert!(values.contains(&"all"), "expected `all`, got {values:?}");
    assert!(values.contains(&"e7"), "expected `e7`, got {values:?}");
}

#[test]
fn attach_completer_surfaces_server_only_ids() {
    let completer = Fixture::new(&[], &[], &["e9", "e10"]);
    let line = ":attach e";
    let suggestions = completer.complete(line, line.len());
    let values: Vec<&str> = suggestions.iter().map(|s| s.value.as_str()).collect();
    assert!(values.contains(&"e9"), "expected `e9`, got {values:?}");
    assert!(values.contains(&"e10"), "expected `e10`, got {values:?}");
}

#[test]
fn attach_completer_dedupes_local_and_server_overlap() {
    let completer = Fixture::new(&[("e1", "agent-shell")], &[], &["e1", "e2"]);
    let suggestions = completer.complete(":attach e", ":attach e".len());
    let count_e1 = suggestions.iter().filter(|s| s.value == "e1").count();
    assert_eq!(count_e1, 1, "expected one `e1` suggestion, got {count_e1}");
}

#[test]
fn current_token_stops_at_whitespace_and_paren() {
    assert_eq!(current_token("session.s"), "session.s");
    assert_eq!(current_token("foo(bar"), "bar");
    assert_eq!(current_token("foo( "), "");
}

#[test]
fn send_key_completer_lists_submission_keys_first() {
    let completer = Fixture::new(&[], &[], &[]);
    let line = r#"send.key(""#;
    let suggestions = completer.complete(line, line.len());
    let values: Vec<&str> = suggestions.iter().map(|s| s.value.as_str()).collect();
    let pos = |needle: &str| {
        values
            .iter()
            .position(|v| *v == needle)
            .unwrap_or(usize::MAX)
    };
    let enter = pos("enter");
    let escape = pos("escape");
    let shift_tab = pos("shift-tab");
    let f1 = pos("f1");
    let yes = pos("y");
    assert!(enter < shift_tab, "expected enter before shift-tab");
    assert!(escape < shift_tab, "expected escape before shift-tab");
    assert!(shift_tab < f1, "expected shift-tab before f1");
    assert!(f1 < yes, "expected f1 before text-fallthrough y");
}

#[test]
fn top_level_suggestions_carry_descriptions() {
    let completer = Fixture::new(&[], &[], &[]);
    let suggestions = completer.complete("sess", 4);
    let session = suggestions
        .iter()
        .find(|s| s.value == "session")
        .expect("expected session suggestion");
    let desc = session
        .description
        .as_deref()
        .expect("session suggestion should carry a description");
    assert!(
        desc.contains("spawn") || desc.contains("adapter"),
        "expected meaningful description, got: {desc}"
    );
}

#[test]
fn member_suggestions_carry_descriptions() {
    let completer = Fixture::new(&[], &[], &[]);
    let suggestions = completer.complete("session.", "session.".len());
    let spawn = suggestions
        .iter()
        .find(|s| s.value == "spawn")
        .expect("expected spawn suggestion");
    let desc = spawn
        .description
        .as_deref()
        .expect("session.spawn should carry a description");
    assert!(
        desc.contains("plugin") || desc.contains("spawn"),
        "expected meaningful description, got: {desc}"
    );
}

#[test]
fn send_key_completer_filters_by_partial_prefix() {
    let completer = Fixture::new(&[], &[], &[]);
    let line = r#"send.key("shi"#;
    let suggestions = completer.complete(line, line.len());
    let values: Vec<&str> = suggestions.iter().map(|s| s.value.as_str()).collect();
    assert_eq!(values, vec!["shift-tab"]);
}

#[test]
fn spawn_brace_form_completes_plugin_names() {
    let completer = Fixture::new(&[], &["agent-shell", "future-plugin"], &[]);
    let line = r#"session.spawn{"age"#;
    let suggestions = completer.complete(line, line.len());
    let values: Vec<&str> = suggestions.iter().map(|s| s.value.as_str()).collect();
    assert_eq!(values, vec!["agent-shell"]);
    let span = suggestions[0].place;
    assert_eq!(span.start, line.len() - 3);
    assert_eq!(span.end, line.len());
}

#[test]
fn spawn_brace_form_with_internal_whitespace_completes() {
    let completer = Fixture::new(&[], &["agent-shell"], &[]);
    let line = r#"session.spawn{ "age"#;
    let suggestions = completer.complete(line, line.len());
    let values: Vec<&str> = suggestions.iter().map(|s| s.value.as_str()).collect();
    assert_eq!(values, vec!["agent-shell"]);
}

#[test]
fn spawn_empty_paren_inserts_quoted_plugin_name() {
    let completer = Fixture::new(&[], &["agent-shell"], &[]);
    let line = "session.spawn(";
    let suggestions = completer.complete(line, line.len());
    let values: Vec<&str> = suggestions.iter().map(|s| s.value.as_str()).collect();
    assert_eq!(values, vec![r#""agent-shell""#]);
    let span = suggestions[0].place;
    assert_eq!(span.start, line.len());
    assert_eq!(span.end, line.len());
}

#[test]
fn spawn_empty_brace_inserts_quoted_plugin_name() {
    let completer = Fixture::new(&[], &["agent-shell"], &[]);
    let line = "session.spawn{";
    let suggestions = completer.complete(line, line.len());
    let values: Vec<&str> = suggestions.iter().map(|s| s.value.as_str()).collect();
    assert_eq!(values, vec![r#""agent-shell""#]);
}

#[test]
fn spawn_brace_with_internal_ws_and_no_quote_inserts_quoted_name() {
    let completer = Fixture::new(&[], &["agent-shell"], &[]);
    let line = "session.spawn{ ";
    let suggestions = completer.complete(line, line.len());
    let values: Vec<&str> = suggestions.iter().map(|s| s.value.as_str()).collect();
    assert_eq!(values, vec![r#""agent-shell""#]);
}

#[test]
fn plugins_describe_string_sugar_with_space_completes() {
    let completer = Fixture::new(&[], &["agent-shell"], &[]);
    let line = r#"plugins.describe "age"#;
    let suggestions = completer.complete(line, line.len());
    let values: Vec<&str> = suggestions.iter().map(|s| s.value.as_str()).collect();
    assert_eq!(values, vec!["agent-shell"]);
}

#[test]
fn plugins_describe_string_sugar_no_space_completes() {
    let completer = Fixture::new(&[], &["agent-shell"], &[]);
    let line = r#"plugins.describe"age"#;
    let suggestions = completer.complete(line, line.len());
    let values: Vec<&str> = suggestions.iter().map(|s| s.value.as_str()).collect();
    assert_eq!(values, vec!["agent-shell"]);
}

#[test]
fn send_key_brace_form_completes() {
    let completer = Fixture::new(&[], &[], &[]);
    let line = r#"send.key{"shi"#;
    let suggestions = completer.complete(line, line.len());
    let values: Vec<&str> = suggestions.iter().map(|s| s.value.as_str()).collect();
    assert_eq!(values, vec!["shift-tab"]);
}

#[test]
fn session_attach_completes_adapter_ids_and_all() {
    let completer = Fixture::new(&[("e1", "agent-shell")], &[], &["e2"]);
    let line = r#"session.attach(""#;
    let suggestions = completer.complete(line, line.len());
    let values: Vec<&str> = suggestions.iter().map(|s| s.value.as_str()).collect();
    assert!(values.contains(&"all"), "expected `all`, got {values:?}");
    assert!(values.contains(&"e1"), "expected `e1`, got {values:?}");
    assert!(values.contains(&"e2"), "expected `e2`, got {values:?}");
}

#[test]
fn session_close_completes_local_adapter_ids() {
    let completer = Fixture::new(&[("alpha", "agent-shell")], &[], &[]);
    let line = r#"session.close(""#;
    let suggestions = completer.complete(line, line.len());
    let values: Vec<&str> = suggestions.iter().map(|s| s.value.as_str()).collect();
    assert_eq!(values, vec!["alpha"]);
}

#[test]
fn kwarg_first_arg_does_not_steal_string_completion() {
    let completer = Fixture::new(&[], &["agent-shell"], &[]);
    let line = "session.spawn{ rows";
    let suggestions = completer.complete(line, line.len());
    let values: Vec<&str> = suggestions.iter().map(|s| s.value.as_str()).collect();
    assert!(
        !values.contains(&r#""agent-shell""#),
        "kwarg position must not surface quoted plugin names; got {values:?}"
    );
    assert!(
        !values.iter().any(|v| *v == "agent-shell"),
        "kwarg position must not surface bare plugin names; got {values:?}"
    );
}

#[test]
fn closed_string_arg_does_not_re_trigger_completion() {
    let completer = Fixture::new(&[], &["agent-shell"], &[]);
    let line = r#"session.spawn("agent-shell", "#;
    let suggestions = completer.complete(line, line.len());
    let values: Vec<&str> = suggestions.iter().map(|s| s.value.as_str()).collect();
    assert!(
        !values.contains(&"agent-shell"),
        "post-string position must not re-trigger plugin completion; got {values:?}"
    );
}

#[test]
fn nullary_top_level_globals_complete_with_parens() {
    let completer = Fixture::new(&[], &[], &[]);
    for (line, expected) in [
        ("vi", r#"view()"#),
        ("sta", r#"state()"#),
        ("insp", r#"inspect()"#),
        ("plu", r#"plugins()"#),
    ] {
        let suggestions = completer.complete(line, line.len());
        let values: Vec<&str> = suggestions.iter().map(|s| s.value.as_str()).collect();
        assert!(
            values.iter().any(|v| *v == expected),
            "expected `{expected}` from `{line}`, got {values:?}",
        );
    }
}

#[test]
fn nullary_members_complete_with_parens() {
    let completer = Fixture::new(&[], &[], &[]);
    let line = "session.lis";
    let suggestions = completer.complete(line, line.len());
    let values: Vec<&str> = suggestions.iter().map(|s| s.value.as_str()).collect();
    assert!(
        values.iter().any(|v| *v == "list()"),
        "expected `list()`, got {values:?}",
    );
    let line = "screen.";
    let suggestions = completer.complete(line, line.len());
    let values: Vec<&str> = suggestions.iter().map(|s| s.value.as_str()).collect();
    assert!(
        values.iter().any(|v| *v == "snapshot()"),
        "expected `snapshot()`, got {values:?}",
    );
}

#[test]
fn non_nullary_completions_stay_bare() {
    let completer = Fixture::new(&[], &[], &[]);
    let suggestions = completer.complete("session.sp", "session.sp".len());
    let values: Vec<&str> = suggestions.iter().map(|s| s.value.as_str()).collect();
    assert!(
        values.iter().any(|v| *v == "spawn"),
        "expected bare `spawn`, got {values:?}",
    );
    assert!(
        !values.iter().any(|v| *v == "spawn()"),
        "non-nullary callables must not auto-`()`; got {values:?}",
    );
}

#[test]
fn transcript_snapshot_stays_bare_to_keep_opts_form_easy() {
    let completer = Fixture::new(&[], &[], &[]);
    let suggestions = completer.complete("transcript.", "transcript.".len());
    let values: Vec<&str> = suggestions.iter().map(|s| s.value.as_str()).collect();
    assert!(
        values.iter().any(|v| *v == "snapshot"),
        "expected bare `snapshot`, got {values:?}",
    );
    assert!(
        !values.iter().any(|v| *v == "snapshot()"),
        "transcript.snapshot takes opts; must not auto-`()`; got {values:?}",
    );
}

#[test]
fn identifier_tail_does_not_match_call_name() {
    let completer = Fixture::new(&[], &["agent-shell"], &[]);
    let line = "xsession.spawn(";
    let suggestions = completer.complete(line, line.len());
    let values: Vec<&str> = suggestions.iter().map(|s| s.value.as_str()).collect();
    assert!(
        !values.contains(&r#""agent-shell""#),
        "identifier suffix match must be rejected; got {values:?}"
    );
}

#[test]
fn caches_hold_what_was_set_last() {
    let mut plugins = PluginCache::new();
    assert!(plugins.snapshot().is_empty());
    plugins.set(vec!["a".into()]);
    plugins.set(vec!["b".into(), "c".into()]);
    assert_eq!(plugins.snapshot(), vec!["b", "c"]);
}

#[test]
fn the_cursor_may_stand_inside_the_line() {
    let completer = Fixture::new(&[], &[], &[]);
    let suggestions = completer.complete("ses + é", 3);
    let values: Vec<&str> = suggestions.iter().map(|s| s.value.as_str()).collect();
    assert_eq!(values, vec!["session"]);
    assert_eq!((suggestions[0].place.start, suggestions[0].place.end), (0, 3));
    let suggestions = completer.complete("é ses", 100);
    assert_eq!((suggestions[0].place.start, suggestions[0].place.end), (3, 6));
}

#[test]
fn members_of_no_table_are_none() {
    let completer = Fixture::new(&[], &[], &[]);
    assert!(completer.complete("nothing.", 8).is_empty());
    assert!(completer.complete("view.", 5).is_empty());
}
