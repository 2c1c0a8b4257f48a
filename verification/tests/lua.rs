use std::sync::{Arc, Mutex};

use mlua::{FromLua, Lua, LuaSerdeExt, MultiValue, Table, Value};
use ptywright_repl::command::dispatch::Request;
use ptywright_repl::ctx::ReplCtx;
use ptywright_repl::error::Error;
use ptywright_repl::json::Json;
use ptywright_repl::lua::bindings::{
    begin, conclude, describe_plugin, resolve_matcher, seconds_in_millis, Binding, LuaReply,
    LuaStep,
};
use ptywright_repl::lua::eval::{
    choose_chunk, format_lua_error, render_one, repl_globals, validate, Chunk, EvalResult,
    RenderedValue, Rendering, Validation,
};
use ptywright_repl::lua::options::{
    build_adapter_start_params, flag_option, integer_option, resolve_prior_alias, text_option,
};
use ptywright_repl::lua::{
    filter_string_keys, read_call, LuaKey, LuaKind, LuaTable, LuaValue,
};
use ptywright_repl::screen::{CursorState, ScreenSnapshot, TerminalSize};

fn json(text: &str) -> Json {
    Json::parse(text).expect("valid JSON")
}

fn at<'a>(value: &'a Json, name: &str) -> &'a Json {
    value.get(name).expect("field")
}

// ---- values -------------------------------------------------------------

fn read<T: FromLua>(lua: &Lua, value: &Value) -> Result<T, String> {
    T::from_lua(value.clone(), lua).map_err(|e| e.to_string())
}

fn as_json(lua: &Lua, value: Value) -> Result<Json, String> {
    lua.from_value::<serde_json::Value>(value).map(Json::from_value).map_err(|e| e.to_string())
}

fn capture(lua: &Lua, value: &Value, depth: u32) -> LuaValue {
    let kind = match value {
        Value::Nil => LuaKind::Nil,
        Value::Boolean(b) => LuaKind::Boolean(*b),
        Value::Integer(n) => LuaKind::Integer(*n),
        Value::Number(x) => LuaKind::Number { whole: *x as i64, written: x.to_string() },
        Value::String(_) => LuaKind::String,
        Value::Table(_) => LuaKind::Table,
        Value::Function(_) => LuaKind::Function,
        _ => LuaKind::Other,
    };
    let table = match value {
        Value::Table(table) if depth > 0 => Ok(capture_table(lua, table, depth - 1)),
        other => Err(format!("not a table: {other:?}")),
    };
    LuaValue {
        kind,
        shown: format!("{value:?}"),
        text: read(lua, value),
        integer: read(lua, value),
        flag: read(lua, value),
        texts: read(lua, value),
        json: as_json(lua, value.clone()),
        table,
    }
}

fn capture_table(lua: &Lua, table: &Table, depth: u32) -> LuaTable {
    let items = (1..=table.raw_len())
        .map(|i| capture(lua, &table.raw_get::<Value>(i).expect("item"), depth))
        .collect();
    let named = lua.create_table().expect("table");
    let mut pairs = Vec::new();
    for pair in table.pairs::<Value, Value>() {
        let (key, value) = pair.expect("pair");
        let name = match &key {
            Value::String(_) => LuaKey::Text(read(lua, &key)),
            Value::Integer(n) => LuaKey::Integer(*n),
            _ => LuaKey::Other(read(lua, &key)),
        };
        if let Value::String(text) = key {
            named.set(text, value.clone()).expect("set");
        }
        pairs.push((name, capture(lua, &value, depth)));
    }
    LuaTable {
        items,
        pairs,
        json: as_json(lua, Value::Table(table.clone())),
        named_json: as_json(lua, Value::Table(named)),
        no_text: read::<String>(lua, &Value::Nil).unwrap_err(),
        no_integer: read::<i64>(lua, &Value::Nil).unwrap_err(),
    }
}

fn evaluated(lua: &Lua, code: &str) -> LuaValue {
    let value: Value = lua.load(code).eval().expect("value");
    capture(lua, &value, 4)
}

fn table_of(code: &str) -> LuaTable {
    evaluated(&Lua::new(), code).table.expect("table")
}

fn options(table: &LuaTable) -> Vec<(&LuaKey, &LuaValue)> {
    table.pairs.iter().map(|(k, v)| (k, v)).collect()
}

// ---- a client with its own server ---------------------------------------

#[derive(Default)]
struct Server {
    started: u32,
    live: Vec<String>,
    calls: Vec<Request>,
}

impl Server {
    fn answer(&mut self, request: &Request) -> Result<Json, Error> {
        let named = request.params.get_str("adapter").cloned().unwrap_or_default();
        match request.method.as_str() {
            "adapter.list" => Ok(json(r#"{"plugins":[{"name":"agent-shell"}]}"#)),
            "plugin.describe" => Ok(json(
                r#"{"plugin":"agent-shell","intents":["send_prompt"],"waits":["wait_turn_matcher"]}"#,
            )),
            "adapter.start" | "adapter.resume" => {
                self.started += 1;
                let id = format!("e{}", self.started);
                self.live.push(id.clone());
                Ok(json(&format!(r#"{{"adapter":"{id}","session":"s1","plugin":"agent-shell"}}"#)))
            }
            "adapter.close" => {
                self.live.retain(|id| *id != named);
                Ok(json(r#"{"closed":true}"#))
            }
            "adapter.live" => Ok(json(r#"{"adapters":[]}"#)),
            "adapter.wait" | "adapter.turn" => {
                Err(Error::rpc("JSON-RPC error -32001: matcher timed out"))
            }
            "adapter.snapshot" => Ok(json(r#"{"sequence":1}"#)),
            _ => Ok(json(r#"{"ok":true}"#)),
        }
    }
}

struct Repl {
    lua: Lua,
    ctx: Arc<Mutex<ReplCtx>>,
    server: Arc<Mutex<Server>>,
}

fn raised(error: Error) -> mlua::Error {
    mlua::Error::RuntimeError(error.message().clone())
}

fn picture() -> ScreenSnapshot {
    ScreenSnapshot {
        size: TerminalSize { rows: 1, cols: 1, pixel_width: 0, pixel_height: 0 },
        cursor: CursorState { row: 0, col: 0, visible: true },
        sequence: 1,
        plain_text: String::new(),
        cells: Vec::new(),
        alternate_screen: false,
        application_cursor: false,
        application_keypad: false,
        title: None,
    }
}

fn give(lua: &Lua, reply: LuaReply) -> mlua::Result<Value> {
    match reply {
        LuaReply::Json(value) | LuaReply::Plain(value) => lua.to_value(&value.to_value()),
        LuaReply::Screen { adapter, value } => {
            let table = lua.to_value(&value.to_value())?;
            if let Value::Table(table) = &table {
                let marks = lua.create_table()?;
                marks.set("__pty_type", "screen")?;
                marks.set("__pty_adapter", adapter)?;
                table.set_metatable(Some(marks));
            }
            Ok(table)
        }
    }
}

impl Repl {
    fn function(&self, binding: Binding) -> mlua::Function {
        let (ctx, server) = (Arc::clone(&self.ctx), Arc::clone(&self.server));
        self.lua
            .create_function(move |lua, args: MultiValue| {
                let args: Vec<LuaValue> = args.iter().map(|v| capture(lua, v, 4)).collect();
                let mut ctx = ctx.lock().expect("ctx");
                match begin(binding, &args, &ctx).map_err(raised)? {
                    LuaStep::Reply(reply) => give(lua, reply),
                    LuaStep::Call { request, pending } => {
                        let mut server = server.lock().expect("server");
                        let reply = server.answer(&request);
                        server.calls.push(request);
                        give(lua, conclude(pending, reply, &mut ctx).map_err(raised)?)
                    }
                }
            })
            .expect("function")
    }

    fn table(&self, name: &str, members: Vec<(&str, Binding)>, call: Option<Binding>) {
        let table = self.lua.create_table().expect("table");
        for (member, binding) in members {
            table.set(member, self.function(binding)).expect("set");
        }
        if let Some(binding) = call {
            let marks = self.lua.create_table().expect("table");
            marks.set("__call", self.function(binding)).expect("set");
            table.set_metatable(Some(marks));
        }
        self.lua.globals().set(name, table).expect("set");
    }

    fn eval(&self, line: &str) -> Result<EvalResult, Error> {
        let failed = |e: mlua::Error| Error::Lua(e.to_string());
        match choose_chunk(&self.lua, line) {
            Chunk::Statement(text) => {
                self.lua.load(text).set_name("=stdin").exec().map_err(failed)?;
                Ok(EvalResult::default())
            }
            Chunk::Expression(text) => {
                let values: MultiValue =
                    self.lua.load(text).set_name("=stdin").call(()).map_err(failed)?;
                let mut out = EvalResult::default();
                for value in values {
                    let marks = match &value {
                        Value::Table(table) => table.metatable(),
                        _ => None,
                    };
                    let mark = |name: &str| {
                        marks.as_ref().and_then(|m| m.get::<Option<String>>(name).ok().flatten())
                    };
                    let found = capture(&self.lua, &value, 4);
                    out.values.push(match render_one(&found, mark("__pty_type").as_ref())? {
                        Rendering::Text(text) => RenderedValue::Text(text),
                        Rendering::Screen => RenderedValue::Screen {
                            adapter: mark("__pty_adapter").expect("adapter"),
                            snapshot: picture(),
                        },
                        Rendering::Pretty => RenderedValue::Text(
                            found.json.map(|j| j.encode()).unwrap_or(found.shown),
                        ),
                    });
                }
                Ok(out)
            }
        }
    }
}

fn spawn_test_repl() -> Repl {
    let repl = Repl {
        lua: Lua::new(),
        ctx: Arc::new(Mutex::new(ReplCtx::new())),
        server: Arc::new(Mutex::new(Server::default())),
    };
    repl.table("plugins", vec![], Some(Binding::Plugins));
    repl.table(
        "session",
        vec![
            ("spawn", Binding::SessionSpawn),
            ("resume", Binding::SessionResume),
            ("list", Binding::SessionList),
            ("live", Binding::SessionLive),
            ("attach", Binding::SessionAttach),
            ("close", Binding::SessionClose),
        ],
        None,
    );
    repl.table(
        "send",
        vec![
            ("text", Binding::SendText),
            ("key", Binding::SendKey),
            ("intent", Binding::SendIntent),
        ],
        None,
    );
    repl.table(
        "wait",
        vec![("matches", Binding::WaitMatches), ("screen_stable", Binding::WaitScreenStable)],
        Some(Binding::Wait),
    );
    repl.table("transcript", vec![("snapshot", Binding::TranscriptSnapshot)], None);
    repl.table("screen", vec![("snapshot", Binding::ScreenSnapshot)], None);
    let globals = repl.lua.globals();
    for (name, binding) in [
        ("state", Binding::State),
        ("turn", Binding::Turn),
        ("matches", Binding::Matches),
        ("screen_stable", Binding::ScreenStable),
        ("cancel_wait", Binding::CancelWait),
        ("view", Binding::View),
        ("inspect", Binding::Inspect),
    ] {
        globals.set(name, repl.function(binding)).expect("set");
    }
    let server = Arc::clone(&repl.server);
    let describe = repl
        .lua
        .create_function(move |lua, name: String| {
            let value = server
                .lock()
                .expect("server")
                .answer(&describe_plugin(&name))
                .map_err(raised)?;
            lua.to_value(&value.to_value())
        })
        .expect("function");
    globals.get::<Table>("plugins").expect("plugins").set("describe", describe).expect("set");
    let same = repl.lua.create_function(|_, value: Value| Ok(value)).expect("function");
    globals.set("re", same.clone()).expect("set");
    globals.set("ms", same).expect("set");
    let seconds =
        repl.lua.create_function(|_, n: i64| Ok(seconds_in_millis(n))).expect("function");
    globals.set("s", seconds).expect("set");
    repl
}

fn text_of(result: &EvalResult) -> String {
    let RenderedValue::Text(text) = &result.values[0] else {
        panic!("expected text result, got: {:?}", &result.values[0]);
    };
    text.clone()
}

// ---- evaluation ---------------------------------------------------------

#[test]
fn eval_returns_expression_value() {
    let repl = spawn_test_repl();
    let result = repl.eval("1 + 2").expect("eval 1+2");
    assert_eq!(result.values.len(), 1);
    assert_eq!(text_of(&result), "3");
}

#[test]
fn eval_runs_statement() {
    let repl = spawn_test_repl();
    let result = repl.eval("local x = 1 + 1").expect("statement");
    assert!(result.values.is_empty());
}

#[test]
fn eval_preserves_globals_across_lines() {
    let repl = spawn_test_repl();
    repl.eval("answer = 42").expect("assign global");
    let result = repl.eval("answer").expect("read global");
    assert_eq!(result.values.len(), 1);
    assert_eq!(text_of(&result), "42");
}

#[test]
fn eval_strings_render_unquoted() {
    let repl = spawn_test_repl();
    let result = repl.eval("'hello'").expect("eval string");
    assert_eq!(text_of(&result), "hello");
}

#[test]
fn simple_values_are_shown_as_they_are() {
    let repl = spawn_test_repl();
    assert_eq!(text_of(&repl.eval("nil").unwrap()), "nil");
    assert_eq!(text_of(&repl.eval("true").unwrap()), "true");
    assert_eq!(text_of(&repl.eval("1.5").unwrap()), "1.5");
    assert_eq!(repl.eval("1, 2, 3").unwrap().values.len(), 3);
}

#[test]
fn resolve_prior_alias_picks_canonical_key_first() {
    let opts = table_of(r#"{ prior_adapter = "e1", prior = "e2" }"#);
    let resolved = resolve_prior_alias(&options(&opts)).expect("resolve");
    assert_eq!(resolved.as_deref(), Some("e1"));
}

#[test]
fn resolve_prior_alias_falls_through_to_alias_when_canonical_absent() {
    let opts = table_of(r#"{ prior = "e1" }"#);
    let resolved = resolve_prior_alias(&options(&opts)).expect("resolve");
    assert_eq!(resolved.as_deref(), Some("e1"));
}

#[test]
fn resolve_prior_alias_returns_none_when_neither_key_present() {
    let opts = table_of("{}");
    let resolved = resolve_prior_alias(&options(&opts)).expect("resolve");
    assert!(resolved.is_none());
}

#[test]
fn resolve_prior_alias_propagates_type_error_on_canonical_key() {
    let opts = table_of(r#"{ prior_adapter = {}, prior = "e1" }"#);
    assert!(
        resolve_prior_alias(&options(&opts)).is_err(),
        "non-stringy type on canonical key must error, not fall through",
    );
}

#[test]
fn options_read_as_their_types() {
    let opts = table_of(r#"{ name = "x", n = 3, on = false }"#);
    let opts = options(&opts);
    assert_eq!(text_option(&opts, "name").unwrap().as_deref(), Some("x"));
    assert_eq!(integer_option(&opts, "n").unwrap(), Some(3));
    assert_eq!(flag_option(&opts, "on").unwrap(), Some(false));
    assert_eq!(text_option(&opts, "none").unwrap(), None);
    assert!(integer_option(&opts, "name").is_err());
}

#[test]
fn bare_function_value_renders_with_call_hint() {
    let repl = spawn_test_repl();
    let text = text_of(&repl.eval("view").expect("eval bare view"));
    assert!(
        text.contains("<function>") && text.contains("()"),
        "expected friendly hint, got: {text}",
    );
    assert!(!text.contains("<function 1>"), "raw inspect output leaked through: {text}");
}

#[test]
fn eval_returns_error_for_unknown_identifier_call() {
    let repl = spawn_test_repl();
    let err = repl.eval("not_a_real_global()").unwrap_err();
    let msg = format_lua_error(&err);
    assert!(
        msg.contains("nil") || msg.contains("not_a_real_global"),
        "expected nil-call error mentioning the missing global, got: {msg}",
    );
    assert!(!msg.starts_with("runtime error: "));
}

#[test]
fn plugins_describe_round_trips_through_plugin_describe_rpc() {
    let repl = spawn_test_repl();
    let text =
        text_of(&repl.eval(r#"plugins.describe("agent-shell")"#).expect("plugins.describe"));
    assert!(text.contains("agent-shell"), "plugin name should be present: {text}");
    assert!(text.contains("send_prompt"), "send_prompt intent missing: {text}");
    assert!(text.contains("wait_turn_matcher"), "wait_turn_matcher missing: {text}");
    let request = describe_plugin("agent-shell");
    assert_eq!(request.method, "plugin.describe");
    assert_eq!(request.params, json(r#"{"plugin":"agent-shell"}"#));
}

#[test]
fn plugins_call_dispatches_to_adapter_list() {
    let repl = spawn_test_repl();
    let result = repl.eval("plugins()").expect("plugins() must succeed");
    assert_eq!(result.values.len(), 1);
    let text = text_of(&result);
    assert!(text.contains("agent-shell"), "expected agent-shell in: {text}");
}

// ---- reading a call -----------------------------------------------------

/// The arguments of a call of `f` in some code.
fn arguments(code: &str) -> Vec<LuaValue> {
    let lua = Lua::new();
    let seen: Arc<Mutex<Vec<LuaValue>>> = Arc::default();
    let kept = Arc::clone(&seen);
    let f = lua
        .create_function(move |lua, args: MultiValue| {
            *kept.lock().expect("seen") = args.iter().map(|v| capture(lua, v, 4)).collect();
            Ok(())
        })
        .expect("function");
    lua.globals().set("f", f).expect("set");
    lua.load(code).exec().expect("call");
    let args = std::mem::take(&mut *seen.lock().expect("seen"));
    args
}

#[test]
fn read_call_combined_form_splits_positional_and_kwargs() {
    let args = arguments(r#"f{ "x", k = 1 }"#);
    let (positional, opts) = read_call(&args);
    assert_eq!(positional.len(), 1);
    assert_eq!(integer_option(&opts.pairs, "k").unwrap(), Some(1));
}

#[test]
fn read_call_explicit_opts_table_form() {
    let args = arguments(r#"f("x", { k = 1 })"#);
    let (positional, opts) = read_call(&args);
    assert_eq!(positional.len(), 1);
    assert_eq!(integer_option(&opts.pairs, "k").unwrap(), Some(1));
}

#[test]
fn read_call_no_opts_yields_empty_table() {
    let args = arguments(r#"f("x", "y")"#);
    let (positional, opts) = read_call(&args);
    assert_eq!(positional.len(), 2);
    assert!(opts.pairs.is_empty(), "no kwargs should yield an empty opts table");
}

#[test]
fn read_call_brace_form_with_only_array_part_is_split() {
    let args = arguments(r#"f{ "x" }"#);
    let (positional, opts) = read_call(&args);
    assert_eq!(positional.len(), 1, "array part must become positional[0]");
    assert_eq!(positional[0].text.as_deref(), Ok("x"));
    assert!(opts.pairs.is_empty(), "no string keys → opts is empty");
}

#[test]
fn read_call_brace_form_with_empty_table_yields_empty_positional() {
    let args = arguments("f{}");
    let (positional, opts) = read_call(&args);
    assert_eq!(positional.len(), 0, "empty brace-form must yield no positional");
    assert!(opts.pairs.is_empty(), "empty brace-form must yield no opts");
}

#[test]
fn string_keys_are_told_from_the_rest() {
    let table = table_of(r#"{ "x", k = 1, [true] = 2 }"#);
    let kept = filter_string_keys(&table);
    assert_eq!(kept.len(), 1);
    assert_eq!(kept[0].0.read_text().as_deref(), Ok("k"));
}

#[test]
fn repl_globals_records_installed_names() {
    let globals = repl_globals();
    assert!(globals.contains(&"plugins".to_string()));
    assert!(globals.contains(&"session".to_string()));
    assert!(globals.contains(&"state".to_string()));
    assert!(!globals.contains(&"string".to_string()));
    assert!(!globals.contains(&"math".to_string()));
}

// ---- sessions -----------------------------------------------------------

#[test]
fn session_list_returns_empty_table_with_no_adapters() {
    let repl = spawn_test_repl();
    let result = repl.eval("session.list()").expect("session.list()");
    assert_eq!(result.values.len(), 1);
    assert_eq!(text_of(&repl.eval("#session.list()").unwrap()), "0");
}

#[test]
fn session_live_round_trips_through_rpc() {
    let repl = spawn_test_repl();
    let text = text_of(&repl.eval("session.live()").expect("session.live()"));
    assert!(text.contains("adapters"), "got: {text}");
}

#[test]
fn state_without_focus_returns_friendly_error() {
    let repl = spawn_test_repl();
    let err = repl.eval("state()").unwrap_err();
    let message = err.message();
    assert!(
        message.contains("no focused adapter"),
        "expected friendly focus error, got: {message}"
    );
}

#[test]
fn session_spawn_rejects_unknown_kwarg() {
    let repl = spawn_test_repl();
    let err = repl.eval(r#"session.spawn("agent-shell", { colss = 80 })"#).unwrap_err();
    let message = err.message();
    assert!(
        message.contains("unknown session option"),
        "expected unknown-option error, got: {message}"
    );
}

#[test]
fn session_spawn_close_cycle_updates_ctx() {
    let repl = spawn_test_repl();
    let result = repl
        .eval(r#"session.spawn("agent-shell", { program = "/bin/sh" })"#)
        .expect("session.spawn");
    let text = text_of(&result);
    assert!(text.contains("adapter"), "expected adapter id in: {text}");
    {
        let ctx = repl.ctx.lock().expect("ctx mutex");
        assert_eq!(ctx.adapters.len(), 1);
        assert!(ctx.focus.is_some());
    }
    repl.eval("state()").expect("state() with focus");
    repl.eval("session.close()").expect("session.close()");
    let ctx = repl.ctx.lock().expect("ctx mutex");
    assert!(ctx.adapters.is_empty(), "close should drop the tab");
    assert!(ctx.focus.is_none(), "close should clear focus");
}

#[test]
fn session_spawn_accepts_lua_sugar_combined_form() {
    let repl = spawn_test_repl();
    repl.eval(r#"session.spawn{ "agent-shell", program = "/bin/sh" }"#)
        .expect("session.spawn sugar form");
    assert_eq!(repl.ctx.lock().expect("ctx mutex").adapters.len(), 1);
}

#[test]
fn session_spawn_passes_args_and_env_through() {
    let repl = spawn_test_repl();
    repl.eval(
        r#"session.spawn("agent-shell", {
            program = "/bin/sh",
            args = { "-lc", "printf ok" },
            env = { NO_COLOR = "1" },
            rows = 24,
            cols = 80
        })"#,
    )
    .expect("session.spawn with args+env");
    let server = repl.server.lock().expect("server");
    let request = server.calls.last().expect("request");
    assert_eq!(request.method, "adapter.start");
    assert_eq!(
        request.params,
        json(
            r#"{"plugin":"agent-shell","program":"/bin/sh","args":["-lc","printf ok"],
                "env":{"NO_COLOR":"1"},"rows":24,"cols":80}"#
        )
    );
}

#[test]
fn start_params_reject_what_they_do_not_know() {
    let bad = table_of("{ colss = 80 }");
    assert!(build_adapter_start_params("p", &options(&bad)).is_err());
    let good = table_of(r#"{ cwd = "/tmp", pixel_width = 9 }"#);
    assert_eq!(
        build_adapter_start_params("p", &options(&good)).unwrap(),
        json(r#"{"plugin":"p","cwd":"/tmp","pixel_width":9}"#)
    );
}

// ---- sending ------------------------------------------------------------

fn focused_repl() -> Repl {
    let repl = spawn_test_repl();
    repl.eval(r#"session.spawn("agent-shell", { program = "/bin/sh" })"#).expect("spawn");
    repl
}

fn needs_focus(line: &str) {
    let repl = spawn_test_repl();
    let err = repl.eval(line).unwrap_err();
    assert!(
        err.message().contains("no focused adapter"),
        "expected focus-required error, got: {err:?}"
    );
}

#[test]
fn send_text_without_focus_errors_friendly() {
    needs_focus(r#"send.text("hello")"#);
}

#[test]
fn send_intent_kwargs_convert_to_json_params() {
    needs_focus(r#"send.intent("foo", { a = 1, b = "two", c = true })"#);
    let repl = focused_repl();
    repl.eval(r#"send.intent("foo", { a = 1, b = "two", c = true })"#).expect("send.intent");
    let server = repl.server.lock().expect("server");
    let request = server.calls.last().expect("request");
    assert_eq!(*at(&request.params, "adapter"), Json::text("e1"));
    assert_eq!(*at(&request.params, "params"), json(r#"{"a":1,"b":"two","c":true}"#));
}

#[test]
fn resolve_matcher_accepts_regex_tagged_table() {
    let value = evaluated(&Lua::new(), r#"{ __pty_matcher = "regex", pattern = "^x" }"#);
    let (intent, params) = resolve_matcher(&value).expect("regex matcher");
    assert_eq!(intent, "wait_turn_matcher");
    assert_eq!(*at(&params, "pattern"), Json::text("^x"));
}

#[test]
fn resolve_matcher_accepts_stable_tagged_table() {
    let value = evaluated(&Lua::new(), r#"{ __pty_matcher = "stable", stable_ms = 250 }"#);
    let (intent, params) = resolve_matcher(&value).expect("stable matcher");
    assert_eq!(intent, "wait_turn_matcher");
    assert_eq!(at(&params, "stable_ms").as_i64(), Some(250));
}

#[test]
fn resolve_matcher_auto_promotes_bare_string() {
    let value = evaluated(&Lua::new(), r#""^❯""#);
    let (intent, params) = resolve_matcher(&value).expect("string matcher");
    assert_eq!(intent, "wait_turn_matcher");
    assert_eq!(*at(&params, "pattern"), Json::text("^❯"));
}

#[test]
fn resolve_matcher_rejects_plain_table() {
    let value = evaluated(&Lua::new(), "{ not_a_matcher = true }");
    let err = resolve_matcher(&value).unwrap_err();
    assert!(err.message().contains("plain table"), "expected plain-table error, got: {err:?}");
}

#[test]
fn turn_rejects_negative_timeout() {
    let repl = spawn_test_repl();
    let err = repl.eval(r#"turn("send_prompt", { prompt = "hi", timeout = -1 })"#).unwrap_err();
    assert!(
        err.message().contains("non-negative"),
        "expected negative-timeout error, got: {err:?}"
    );
}

// ---- waiting ------------------------------------------------------------

#[test]
fn matches_returns_regex_tagged_table() {
    let repl = spawn_test_repl();
    let result = repl.eval(r#"matches("^x").__pty_matcher"#).expect("matches tag");
    assert_eq!(text_of(&result), "regex");
    let result = repl.eval(r#"matches("^x").pattern"#).expect("pattern");
    assert_eq!(text_of(&result), "^x");
}

#[test]
fn screen_stable_returns_stable_tagged_table() {
    let repl = spawn_test_repl();
    let result = repl.eval("screen_stable(250).__pty_matcher").expect("stable tag");
    assert_eq!(text_of(&result), "stable");
    let result = repl.eval("screen_stable(250).stable_ms").expect("stable_ms");
    assert_eq!(text_of(&result), "250");
}

#[test]
fn re_helper_is_identity() {
    let repl = spawn_test_repl();
    let result = repl.eval(r#"re("^anything$")"#).expect("re identity");
    assert_eq!(text_of(&result), "^anything$");
}

#[test]
fn ms_helper_is_identity() {
    let repl = spawn_test_repl();
    let result = repl.eval("ms(250)").expect("ms identity");
    assert_eq!(text_of(&result), "250");
}

#[test]
fn s_helper_converts_seconds_to_milliseconds() {
    let repl = spawn_test_repl();
    let result = repl.eval("s(2)").expect("s converts");
    assert_eq!(text_of(&result), "2000");
    assert_eq!(seconds_in_millis(i64::MAX), i64::MAX);
    assert_eq!(seconds_in_millis(i64::MIN), i64::MIN);
}

#[test]
fn wait_requires_focus() {
    needs_focus(r#"wait(matches("^x"))"#);
}

#[test]
fn wait_call_form_uses_metatable_call() {
    needs_focus(r#"wait(matches("^x"), { timeout = ms(100) })"#);
}

#[test]
fn wait_shorthand_methods_dispatch_to_wait_turn_matcher() {
    needs_focus(r#"wait.matches("^x")"#);
    needs_focus("wait.screen_stable(250)");
}

#[test]
fn cancel_wait_dispatches_to_adapter_cancel_wait() {
    let repl = spawn_test_repl();
    let _ = repl.eval(r#"cancel_wait("nonexistent")"#);
    let server = repl.server.lock().expect("server");
    let request = server.calls.last().expect("request");
    assert_eq!(request.method, "adapter.cancel_wait");
    assert_eq!(request.params, json(r#"{"wait_id":"nonexistent"}"#));
}

#[test]
fn negative_wait_timeout_is_rejected() {
    let repl = spawn_test_repl();
    let err = repl.eval(r#"wait.matches("^x", { timeout = -1 })"#).unwrap_err();
    assert!(
        err.message().contains("non-negative"),
        "expected negative-timeout rejection, got: {err:?}"
    );
}

#[test]
fn wait_matches_full_loop_times_out_against_unmatched_pattern() {
    let repl = focused_repl();
    let error = repl.eval(r#"wait.matches("never-matches", { timeout = 200 })"#).unwrap_err();
    let message = error.message();
    assert!(
        message.contains("-32001") || message.contains("matcher"),
        "expected matcher timeout from adapter.wait, got `{message}`"
    );
    let server = repl.server.lock().expect("server");
    let request = server.calls.last().expect("request");
    assert_eq!(request.method, "adapter.wait");
    assert_eq!(at(&request.params, "timeout_ms").as_i64(), Some(200));
}

// ---- transcript and screen ----------------------------------------------

#[test]
fn transcript_snapshot_requires_focus() {
    needs_focus("transcript.snapshot()");
}

#[test]
fn screen_snapshot_requires_focus() {
    needs_focus("screen.snapshot()");
    needs_focus("view()");
}

#[test]
fn inspect_requires_focus() {
    needs_focus("inspect()");
}

#[test]
fn screen_snapshot_returns_screen_tagged_value() {
    let repl = focused_repl();
    let result = repl.eval("screen.snapshot()").expect("screen.snapshot");
    assert_eq!(result.values.len(), 1);
    match &result.values[0] {
        RenderedValue::Screen { adapter, .. } => {
            assert!(!adapter.is_empty(), "expected non-empty adapter id");
        }
        other => panic!("expected RenderedValue::Screen, got: {other:?}"),
    }
}

#[test]
fn view_alias_returns_screen_tagged_value() {
    let repl = focused_repl();
    let result = repl.eval("view()").expect("view()");
    assert!(
        matches!(&result.values[0], RenderedValue::Screen { .. }),
        "view() should be tagged as a screen value",
    );
}

#[test]
fn screen_metatable_marker_does_not_leak_into_pairs() {
    let repl = focused_repl();
    repl.eval(
        r#"function _leaks(t) for k in pairs(t) do if k == "__pty_type" or k == "__pty_adapter" then return true end end return false end"#,
    )
    .expect("define _leaks helper");
    let result = repl.eval("_leaks(screen.snapshot())").expect("iterate snapshot keys");
    assert_eq!(text_of(&result), "false", "metatable markers must not appear in pairs()");
    let result =
        repl.eval(r#"getmetatable(screen.snapshot()).__pty_type"#).expect("read metatable tag");
    assert_eq!(text_of(&result), "screen");
}

#[test]
fn transcript_snapshot_round_trips_through_rpc() {
    let repl = focused_repl();
    let result = repl.eval("transcript.snapshot()").expect("transcript.snapshot");
    assert_eq!(result.values.len(), 1);
    repl.eval("transcript.snapshot({ redact = false })")
        .expect("transcript.snapshot with redact=false");
    let server = repl.server.lock().expect("server");
    let n = server.calls.len();
    assert_eq!(at(&server.calls[n - 2].params, "redact").as_bool(), Some(true));
    assert_eq!(at(&server.calls[n - 1].params, "redact").as_bool(), Some(false));
}

// ---- validation ---------------------------------------------------------

#[test]
fn validator_marks_simple_expression_as_complete() {
    let lua = Lua::new();
    assert_eq!(validate(&lua, "1 + 2"), Validation::Complete);
    assert_eq!(validate(&lua, "session.list()"), Validation::Complete);
}

#[test]
fn validator_marks_unclosed_for_block_as_incomplete() {
    let lua = Lua::new();
    assert_eq!(
        validate(&lua, "for i = 1, 3 do\n  session.spawn(\"agent-shell\")"),
        Validation::Incomplete,
        "unclosed for-block should be Incomplete"
    );
}

#[test]
fn validator_marks_closed_block_as_complete() {
    let lua = Lua::new();
    assert_eq!(
        validate(&lua, "for i = 1, 3 do\n  session.spawn(\"x\")\nend"),
        Validation::Complete
    );
}

#[test]
fn validator_marks_unclosed_table_as_incomplete() {
    assert_eq!(validate(&Lua::new(), "{ a = 1,"), Validation::Incomplete);
}

#[test]
fn validator_marks_meta_command_as_complete() {
    assert_eq!(validate(&Lua::new(), ":focus e1"), Validation::Complete);
}

#[test]
fn validator_marks_permanent_syntax_error_as_complete() {
    assert_eq!(validate(&Lua::new(), "let me try ++ this"), Validation::Complete);
}

#[test]
fn repl_globals_includes_transcript_screen_inspect() {
    let globals = repl_globals();
    for name in ["transcript", "screen", "view", "inspect"] {
        assert!(
            globals.contains(&name.to_string()),
            "expected `{name}` in REPL globals whitelist",
        );
    }
}

#[test]
fn repl_globals_includes_wait_matcher_helpers() {
    let globals = repl_globals();
    for name in ["wait", "matches", "screen_stable", "cancel_wait", "re", "ms", "s"] {
        assert!(
            globals.contains(&name.to_string()),
            "expected `{name}` in REPL globals whitelist",
        );
    }
}

#[test]
fn turn_with_matcher_table_round_trips_through_adapter_turn() {
    let repl = focused_repl();
    let error = repl
        .eval(
            r#"turn("send_prompt", {
                prompt = "probe\n",
                wait = { __pty_matcher = "regex", pattern = "never-matches" },
                timeout = 250,
            })"#,
        )
        .unwrap_err();
    let message = error.message();
    assert!(
        message.contains("-32001") || message.contains("matcher"),
        "expected matcher timeout from adapter.turn, got `{message}`"
    );
    let server = repl.server.lock().expect("server");
    let request = server.calls.last().expect("request");
    assert_eq!(request.method, "adapter.turn");
    let send = at(&request.params, "send");
    assert_eq!(*at(send, "params"), json(r#"{"prompt":"probe\n"}"#));
    let wait = at(&request.params, "wait");
    assert_eq!(at(wait, "timeout_ms").as_i64(), Some(250));
}

#[test]
fn turn_wait_intent_goes_before_that_of_the_matcher() {
    let repl = focused_repl();
    repl.eval(
        r#"turn("send_prompt", {
            prompt = "probe\n",
            wait = { __pty_matcher = "regex", pattern = "x" },
            wait_intent = "until_idle",
        })"#,
    )
    .unwrap_err();
    let server = repl.server.lock().expect("server");
    let request = server.calls.last().expect("request");
    assert_eq!(request.method, "adapter.turn");
    assert_eq!(*at(at(&request.params, "wait"), "intent"), json(r#""until_idle""#));
    assert_eq!(*at(at(&request.params, "send"), "params"), json(r#"{"prompt":"probe\n"}"#));
}
