use ptywright_repl::duration::Duration;

use ptywright_repl::command::arg::{arg_to_json, kwargs_to_json, Arg, DslCall};
use ptywright_repl::command::dispatch::{
    dispatch, finish_screen, is_oversized, resume, send_key_payload, send_text_payload, turn_command,
    turn_send_json, CmdOutcome, Request, Step,
};
use ptywright_repl::command::request::{
    bool_kwarg, duration_kwarg, expect_one_duration, expect_one_regex, expect_one_string,
    insert_adapter_start_kwargs, matcher_to_params, prior_adapter_kwarg, string_kwarg,
    string_list_kwarg, string_map_kwarg, u16_kwarg,
};
use ptywright_repl::command::{parse, AttachSpec, Cmd, MetaCmd, NotificationsRequest};
use ptywright_repl::ctx::ReplCtx;
use ptywright_repl::error::Error;
use ptywright_repl::fields::Fields;
use ptywright_repl::json::Json;
use ptywright_repl::screen::{CursorState, ScreenSnapshot, TerminalSize};

fn json(text: &str) -> Json {
    Json::parse(text).expect("valid JSON")
}

fn at<'a>(value: &'a Json, name: &str) -> &'a Json {
    value.get(name).expect("field")
}

fn picture() -> ScreenSnapshot {
    ScreenSnapshot {
        size: TerminalSize { rows: 24, cols: 80, pixel_width: 0, pixel_height: 0 },
        cursor: CursorState { row: 0, col: 0, visible: true },
        sequence: 1,
        plain_text: String::new(),
        cells: Vec::new(),
        alternate_screen: false,
        application_cursor: false,
        application_keypad: false,
        title: None,
    }
}

/// A server that knows one plugin and starts adapters on request.
struct Server {
    started: u32,
    live: Vec<String>,
    calls: Vec<Request>,
}

impl Server {
    fn start(&mut self) -> Json {
        self.started += 1;
        let id = format!("e{}", self.started);
        self.live.push(id.clone());
        json(&format!(
            r#"{{"adapter":"{id}","session":"s{}","plugin":"agent-shell"}}"#,
            self.started
        ))
    }

    fn stop(&mut self, id: &str) {
        self.live.retain(|other| other != id);
    }

    fn answer(&mut self, request: &Request) -> Result<Json, Error> {
        let named = request.params.get_str("adapter").cloned().unwrap_or_default();
        match request.method.as_str() {
            "adapter.list" => Ok(json(r#"{"plugins":[{"name":"agent-shell"}]}"#)),
            "adapter.start" => Ok(self.start()),
            "adapter.resume" => {
                let prior = request.params.get_str("prior_adapter").cloned().unwrap_or_default();
                self.stop(&prior);
                Ok(self.start())
            }
            "adapter.close" => {
                self.stop(&named);
                Ok(json(r#"{"closed":true}"#))
            }
            "adapter.live" => {
                let entries: Vec<String> = self
                    .live
                    .iter()
                    .map(|id| {
                        format!(r#"{{"adapter":"{id}","plugin":"agent-shell","finished":false}}"#)
                    })
                    .collect();
                Ok(json(&format!(r#"{{"adapters":[{}]}}"#, entries.join(","))))
            }
            "adapter.cancel_wait" => Ok(json(r#"{"cancelled":false}"#)),
            "plugin.describe" => {
                let plugin = request.params.get_str("plugin").expect("plugin");
                Ok(json(&format!(
                    r#"{{"plugin":"{plugin}","intents":[{{"name":"send_prompt"}}]}}"#
                )))
            }
            _ if self.live.contains(&named) => Ok(json(r#"{"plugin":"agent-shell"}"#)),
            _ => Err(Error::rpc(&format!("unknown adapter `{named}`"))),
        }
    }
}

fn in_process_client() -> (Server, ReplCtx) {
    (Server { started: 0, live: Vec::new(), calls: Vec::new() }, ReplCtx::new())
}

fn run(cmd: Cmd, server: &mut Server, ctx: &mut ReplCtx) -> Result<CmdOutcome, Error> {
    if let Cmd::Dsl(call) = &cmd {
        assert!(!is_oversized(call, ctx));
    }
    let mut step = dispatch(cmd, ctx);
    loop {
        step = match step {
            Step::Done { outcome, .. } => return outcome,
            Step::Call { request, pending } => {
                let reply = server.answer(&request);
                server.calls.push(request);
                resume(pending, reply, Duration::from_millis(5), ctx)
            }
            Step::Decode { adapter, .. } => return finish_screen(adapter, Ok(picture())),
        };
    }
}

fn fields(entries: Vec<(&str, Arg)>) -> Fields<Arg> {
    let mut out = Fields::new();
    for (name, value) in entries {
        out.insert(name.to_string(), value);
    }
    out
}

fn call(path: &str, positional: Vec<Arg>) -> DslCall {
    DslCall {
        path: path.split('.').map(str::to_string).collect(),
        positional,
        kwargs: Fields::new(),
    }
}

fn call_kw(path: &str, kwargs: Vec<(&str, Arg)>) -> DslCall {
    DslCall {
        path: path.split('.').map(str::to_string).collect(),
        positional: Vec::new(),
        kwargs: fields(kwargs),
    }
}

fn shown(arg: Arg) -> String {
    arg.shown()
}

#[test]
fn parse_bare_call() {
    let cmd = parse("plugins()").unwrap();
    let Cmd::Dsl(call) = cmd else { panic!() };
    assert_eq!(call.path, vec!["plugins"]);
    assert!(call.positional.is_empty());
    assert!(call.kwargs.is_empty());
}

#[test]
fn parse_dotted_path() {
    let cmd = parse("session.spawn(\"agent-shell\")").unwrap();
    let Cmd::Dsl(call) = cmd else { panic!() };
    assert_eq!(call.path, vec!["session", "spawn"]);
    assert_eq!(call.positional, vec![Arg::String("agent-shell".into())]);
}

#[test]
fn parse_string_with_escapes() {
    let cmd = parse(r#"send.text("hello\n\"world\"")"#).unwrap();
    let Cmd::Dsl(call) = cmd else { panic!() };
    assert_eq!(
        call.positional,
        vec![Arg::String("hello\n\"world\"".into())]
    );
}

#[test]
fn parse_regex_literal() {
    let cmd = parse(r#"wait.matches(r"^Approve\? \(y/n\)")"#).unwrap();
    let Cmd::Dsl(call) = cmd else { panic!() };
    assert_eq!(
        call.positional,
        vec![Arg::Regex("^Approve\\? \\(y/n\\)".into())]
    );
}

#[test]
fn parse_duration_units() {
    for (input, expected) in [
        ("wait.screen_stable(250ms)", Duration::from_millis(250)),
        ("wait.screen_stable(2s)", Duration::from_secs(2)),
    ] {
        let cmd = parse(input).unwrap();
        let Cmd::Dsl(call) = cmd else {
            panic!("{input}")
        };
        assert_eq!(call.positional, vec![Arg::Duration(expected)]);
    }
}

#[test]
fn parse_integer_argument() {
    let cmd = parse("session.spawn(\"x\", rows=24, cols=80)").unwrap();
    let Cmd::Dsl(call) = cmd else { panic!() };
    assert_eq!(call.kwargs.get("rows"), Some(&Arg::Int(24)));
    assert_eq!(call.kwargs.get("cols"), Some(&Arg::Int(80)));
}

#[test]
fn parse_lists_and_objects_for_start_params() {
    let cmd = parse(
        r#"session.spawn("agent-shell", args=["--model", "haiku"], env={NO_COLOR:"1", "X_FLAG"="yes"})"#,
    )
    .unwrap();
    let Cmd::Dsl(call) = cmd else { panic!() };
    assert_eq!(
        call.kwargs.get("args"),
        Some(&Arg::List(vec![
            Arg::String("--model".into()),
            Arg::String("haiku".into())
        ]))
    );

    let expected_env = fields(vec![
        ("NO_COLOR", Arg::String("1".into())),
        ("X_FLAG", Arg::String("yes".into())),
    ]);
    assert_eq!(call.kwargs.get("env"), Some(&Arg::Object(expected_env)));
}

#[test]
fn parse_booleans_and_null() {
    let cmd = parse("transcript.snapshot(redact=false)").unwrap();
    let Cmd::Dsl(call) = cmd else { panic!() };
    assert_eq!(call.kwargs.get("redact"), Some(&Arg::Bool(false)));

    let cmd = parse("send.intent(\"x\", foo=true, bar=null)").unwrap();
    let Cmd::Dsl(call) = cmd else { panic!() };
    assert_eq!(call.kwargs.get("foo"), Some(&Arg::Bool(true)));
    assert_eq!(call.kwargs.get("bar"), Some(&Arg::Null));
}

#[test]
fn parse_nested_call() {
    let cmd = parse(r#"wait(matches(r"^Total cost:"))"#).unwrap();
    let Cmd::Dsl(call) = cmd else { panic!() };
    assert_eq!(call.path, vec!["wait"]);
    match &call.positional[0] {
        Arg::Call(inner) => {
            assert_eq!(inner.path, vec!["matches"]);
            assert_eq!(inner.positional, vec![Arg::Regex("^Total cost:".into())]);
        }
        other => panic!("expected nested call, got {other:?}"),
    }
}

#[test]
fn parse_meta_help() {
    assert_eq!(parse(":help").unwrap(), Cmd::Meta(MetaCmd::Help));
}

#[test]
fn parse_meta_quit_aliases() {
    for alias in [":quit", ":q", ":exit"] {
        assert_eq!(parse(alias).unwrap(), Cmd::Meta(MetaCmd::Quit));
    }
}

#[test]
fn parse_meta_tabs() {
    assert_eq!(parse(":tabs").unwrap(), Cmd::Meta(MetaCmd::Tabs));
}

#[test]
fn parse_meta_focus() {
    assert_eq!(
        parse(":focus e2").unwrap(),
        Cmd::Meta(MetaCmd::Focus("e2".into()))
    );
}

#[test]
fn parse_meta_focus_requires_argument() {
    let error = parse(":focus").unwrap_err();
    assert!(error.message().contains(":focus"), "{error:?}");
}

#[test]
fn parse_meta_notifications_on_off() {
    assert_eq!(
        parse(":notifications on").unwrap(),
        Cmd::Meta(MetaCmd::Notifications(NotificationsRequest::simple(true)))
    );
    assert_eq!(
        parse(":notifications off").unwrap(),
        Cmd::Meta(MetaCmd::Notifications(NotificationsRequest::simple(false)))
    );
}

#[test]
fn parse_meta_notifications_rejects_garbage() {
    let error = parse(":notifications maybe").unwrap_err();
    assert!(error.message().contains("on|off"), "{error:?}");
}

#[test]
fn parse_meta_notifications_accepts_filter_kwargs() {
    let parsed = parse(":notifications on adapters=e1,e2 sessions=s1").unwrap();
    let Cmd::Meta(MetaCmd::Notifications(request)) = parsed else {
        panic!("expected MetaCmd::Notifications, got {parsed:?}");
    };
    assert!(request.enabled);
    assert_eq!(request.adapters, vec!["e1".to_string(), "e2".to_string()]);
    assert_eq!(request.sessions, vec!["s1".to_string()]);
}

#[test]
fn parse_meta_notifications_rejects_filter_when_disabled() {
    let error = parse(":notifications off adapters=e1").unwrap_err();
    assert!(
        error.message().contains("off does not take filter args"),
        "{error:?}"
    );
}

#[test]
fn parse_meta_notifications_rejects_unknown_filter_token() {
    let error = parse(":notifications on widgets=foo").unwrap_err();
    assert!(error.message().contains("widgets=foo"), "{error:?}");
}

#[test]
fn parse_meta_notifications_accepts_comma_space_separated_lists() {
    let parsed = parse(":notifications on adapters=e1, e2 sessions=s1, s2").unwrap();
    let Cmd::Meta(MetaCmd::Notifications(request)) = parsed else {
        panic!("expected MetaCmd::Notifications, got {parsed:?}");
    };
    assert!(request.enabled);
    assert_eq!(request.adapters, vec!["e1".to_string(), "e2".to_string()]);
    assert_eq!(request.sessions, vec!["s1".to_string(), "s2".to_string()]);
}

#[test]
fn parse_meta_live() {
    assert_eq!(parse(":live").unwrap(), Cmd::Meta(MetaCmd::Live));
}

#[test]
fn parse_meta_attach_specific_id() {
    let cmd = parse(":attach e1").unwrap();
    assert_eq!(
        cmd,
        Cmd::Meta(MetaCmd::Attach(AttachSpec::One("e1".into())))
    );
}

#[test]
fn parse_meta_attach_all() {
    let cmd = parse(":attach all").unwrap();
    assert_eq!(cmd, Cmd::Meta(MetaCmd::Attach(AttachSpec::All)));
}

#[test]
fn parse_meta_attach_requires_argument() {
    let error = parse(":attach").unwrap_err();
    assert!(error.message().contains(":attach"), "{error:?}");
}

#[test]
fn parse_meta_rpc_with_json_params() {
    let cmd = parse(r#":rpc adapter.send {"adapter":"e1","intent":"approve"}"#).unwrap();
    let Cmd::Meta(MetaCmd::Rpc { method, params }) = cmd else {
        panic!()
    };
    assert_eq!(method, "adapter.send");
    assert_eq!(*at(&params, "adapter"), Json::text("e1"));
    assert_eq!(*at(&params, "intent"), Json::text("approve"));
}

#[test]
fn parse_meta_rpc_defaults_to_empty_params() {
    let cmd = parse(":rpc adapter.list").unwrap();
    let Cmd::Meta(MetaCmd::Rpc { method, params }) = cmd else {
        panic!()
    };
    assert_eq!(method, "adapter.list");
    assert!(matches!(params, Json::Obj(_)));
}

#[test]
fn parse_unknown_meta() {
    let error = parse(":teleport").unwrap_err();
    assert!(error.message().contains("teleport"), "{error:?}");
}

#[test]
fn parse_empty_input_errors() {
    assert!(parse("").is_err());
    assert!(parse("   ").is_err());
}

#[test]
fn parse_unterminated_string_errors() {
    let error = parse(r#"send.text("hello"#).unwrap_err();
    assert!(error.message().contains("unterminated"), "{error:?}");
}

#[test]
fn parse_unterminated_paren_errors() {
    let error = parse(r#"send.text("hi""#).unwrap_err();
    assert!(error.message().to_lowercase().contains("expected"));
}

#[test]
fn parse_unknown_duration_unit_errors() {
    let error = parse(r#"wait.screen_stable(5min)"#).unwrap_err();
    assert!(error.message().contains("duration unit"), "{error:?}");
}

#[test]
fn parse_trailing_garbage_errors() {
    let error = parse("plugins() extra").unwrap_err();
    assert!(error.message().contains("trailing"), "{error:?}");
}


#[test]
fn dispatch_plugins_returns_builtin_list() {
    let (mut server, mut ctx) = in_process_client();
    let outcome = run(parse("plugins()").unwrap(), &mut server, &mut ctx)
    .expect("dispatch plugins");
    match outcome {
        CmdOutcome::Json(value) => {
            assert!(at(&value, "plugins").as_array().is_some());
        }
        other => panic!("expected json outcome, got {other:?}"),
    }
}

#[test]
fn dispatch_session_spawn_focuses_returned_adapter() {
    let (mut server, mut ctx) = in_process_client();
    let cmd = parse(r#"session.spawn("agent-shell", program="/bin/sh")"#).expect("parse spawn");
    let outcome =
        run(cmd, &mut server, &mut ctx).expect("spawn dispatch");
    let CmdOutcome::Note { value, .. } = outcome else {
        panic!("expected note outcome from spawn, got {outcome:?}")
    };
    let adapter = at(&value, "adapter").as_str().expect("adapter id").as_str();
    assert_eq!(ctx.focus.as_deref(), Some(adapter));
    assert!(ctx.adapter(adapter).is_some());

    let _ = run(parse("session.close()").unwrap(), &mut server, &mut ctx);
    assert!(ctx.adapters.is_empty());
    assert!(ctx.focus.is_none());
}

#[test]
fn dispatch_session_resume_replaces_prior_adapter_and_focuses_new_one() {
    let (mut server, mut ctx) = in_process_client();
    let first = run(parse(r#"session.spawn("agent-shell", program="/bin/sh", args=["-c", "sleep 5"])"#)
            .unwrap(), &mut server, &mut ctx)
    .expect("spawn prior");
    let CmdOutcome::Note {
        value: first_value, ..
    } = first
    else {
        panic!("expected note outcome from spawn, got {first:?}")
    };
    let prior = at(&first_value, "adapter")
        .as_str()
        .expect("prior adapter")
        .to_string();

    let resumed = run(parse(&format!(
            r#"session.resume("agent-shell", program="/bin/sh", args=["-c", "sleep 5"], prior_adapter="{prior}")"#
        ))
        .unwrap(), &mut server, &mut ctx)
    .expect("resume");
    let CmdOutcome::Note {
        value: resumed_value,
        ..
    } = resumed
    else {
        panic!("expected note outcome from resume, got {resumed:?}")
    };
    let replacement = at(&resumed_value, "adapter")
        .as_str()
        .expect("replacement adapter")
        .as_str();
    assert_ne!(prior, replacement);
    assert_eq!(ctx.focus.as_deref(), Some(replacement));
    assert!(ctx.adapter(&prior).is_none(), "prior tab must be removed");
    assert!(
        ctx.adapter(replacement).is_some(),
        "replacement tab missing"
    );

    let _ = run(parse("session.close()").unwrap(), &mut server, &mut ctx);
}

#[test]
fn dispatch_session_resume_accepts_prior_alias() {
    let (mut server, mut ctx) = in_process_client();
    let first = run(parse(r#"session.spawn("agent-shell", program="/bin/sh", args=["-c", "sleep 5"])"#)
            .unwrap(), &mut server, &mut ctx)
    .expect("spawn prior");
    let CmdOutcome::Note {
        value: first_value, ..
    } = first
    else {
        panic!("expected note outcome from spawn, got {first:?}")
    };
    let prior = at(&first_value, "adapter")
        .as_str()
        .expect("prior adapter")
        .to_string();

    let resumed = run(parse(&format!(
            r#"session.resume("agent-shell", program="/bin/sh", args=["-c", "sleep 5"], prior="{prior}")"#
        ))
        .unwrap(), &mut server, &mut ctx)
    .expect("resume with prior alias");
    let CmdOutcome::Note {
        value: resumed_value,
        ..
    } = resumed
    else {
        panic!("expected note outcome from resume, got {resumed:?}")
    };
    let replacement = at(&resumed_value, "adapter")
        .as_str()
        .expect("replacement adapter")
        .as_str();
    assert_ne!(prior, replacement);
    assert!(ctx.adapter(&prior).is_none(), "prior tab must be removed");
    assert_eq!(ctx.focus.as_deref(), Some(replacement));

    let _ = run(parse("session.close()").unwrap(), &mut server, &mut ctx);
}

#[test]
fn dispatch_meta_tabs_renders_focus_marker() {
    let (mut server, mut ctx) = in_process_client();
    ctx.upsert_adapter("e1", "agent-shell");
    ctx.upsert_adapter("e2", "agent-shell");
    ctx.focus = Some("e2".into());
    let outcome = run(parse(":tabs").unwrap(), &mut server, &mut ctx)
    .unwrap();
    let CmdOutcome::Line(line) = outcome else {
        panic!()
    };
    assert!(line.contains("*e2"), "expected `*e2`, got `{line}`");
}

#[test]
fn dispatch_quit_returns_quit_outcome() {
    let (mut server, mut ctx) = in_process_client();
    let outcome = run(parse(":quit").unwrap(), &mut server, &mut ctx)
    .unwrap();
    assert!(matches!(outcome, CmdOutcome::Quit));
}

#[test]
fn dispatch_rpc_passthrough_invokes_server() {
    let (mut server, mut ctx) = in_process_client();
    let outcome = run(parse(":rpc adapter.list").unwrap(), &mut server, &mut ctx)
    .unwrap();
    let CmdOutcome::Json(value) = outcome else {
        panic!()
    };
    assert!(at(&value, "plugins").as_array().is_some());
}

#[test]
fn send_text_payload_uses_prompt_wire_field() {
    let (intent, params) = send_text_payload("hello");
    assert_eq!(intent, "send_prompt");
    assert_eq!(params, json(r#"{ "prompt": "hello" }"#));
    assert!(params.get("text").is_none(), "must not use legacy `text`");
}

#[test]
fn send_key_payload_uses_key_wire_field() {
    let (intent, params) = send_key_payload("enter");
    assert_eq!(intent, "key");
    assert_eq!(params, json(r#"{ "key": "enter" }"#));
}

#[test]
fn dispatch_session_live_returns_server_list() {
    let (mut server, mut ctx) = in_process_client();
    let outcome = run(parse("session.live()").unwrap(), &mut server, &mut ctx)
    .expect("session.live dispatch");
    match outcome {
        CmdOutcome::Json(value) => assert!(at(&value, "adapters").as_array().is_some()),
        other => panic!("expected json outcome, got {other:?}"),
    }
}

#[test]
fn dispatch_session_attach_all_pulls_running_adapters() {
    let (mut server, mut ctx_seed) = in_process_client();
    let _ = run(parse(r#"session.spawn("agent-shell", program="/bin/sh")"#).unwrap(), &mut server, &mut ctx_seed)
    .expect("seed spawn");

    let mut fresh = ReplCtx::new();
    let outcome = run(parse(":attach all").unwrap(), &mut server, &mut fresh)
    .expect("attach all");
    let CmdOutcome::Line(line) = outcome else {
        panic!("expected Line outcome from :attach all")
    };
    assert!(line.contains("attached"), "{line}");
    assert!(!fresh.adapters.is_empty(), "no adapters were attached");
    assert!(fresh.focus.is_some(), "focus was not set");

    let id = fresh.adapters[0].id.clone();
    let _ = run(parse(&format!("session.close(\"{id}\")")).unwrap(), &mut server, &mut fresh);
}

#[test]
fn dispatch_session_attach_specific_id_returns_screen() {
    let (mut server, mut ctx_seed) = in_process_client();
    let spawn = run(parse(r#"session.spawn("agent-shell", program="/bin/sh")"#).unwrap(), &mut server, &mut ctx_seed)
    .expect("seed spawn");
    let CmdOutcome::Note { value, .. } = spawn else {
        panic!("expected note outcome from spawn, got {spawn:?}")
    };
    let id = at(&value, "adapter").as_str().expect("adapter id").to_string();

    let mut fresh = ReplCtx::new();
    let outcome = run(parse(&format!(":attach {id}")).unwrap(), &mut server, &mut fresh)
    .expect("attach single");
    let CmdOutcome::Screen { adapter, .. } = outcome else {
        panic!("expected Screen outcome from :attach <id>")
    };
    assert_eq!(adapter, id);
    assert_eq!(fresh.focus.as_deref(), Some(id.as_str()));
    assert!(fresh.adapter(&id).is_some());

    let _ = run(parse("session.close()").unwrap(), &mut server, &mut fresh);
}

#[test]
fn dispatch_session_attach_rejects_unknown_id() {
    let (mut server, mut ctx) = in_process_client();
    let error = run(parse(":attach nope").unwrap(), &mut server, &mut ctx)
    .unwrap_err();
    let text = error.message();
    assert!(
        text.to_lowercase().contains("adapter") || text.contains("nope"),
        "expected unknown-adapter error, got: {text}"
    );
}

#[test]
fn dispatch_state_without_focus_returns_helpful_error() {
    let (mut server, mut ctx) = in_process_client();
    let error = run(parse("state()").unwrap(), &mut server, &mut ctx)
    .unwrap_err();
    assert!(error.message().contains("no focused adapter"), "{error:?}");
}



#[test]
fn arg_display_formats_every_variant() {
    assert_eq!(shown(Arg::String("a".into())), r#""a""#);
    assert_eq!(shown(Arg::Regex("a".into())), r#"r"a""#);
    assert_eq!(
        shown(Arg::Duration(Duration::from_millis(250))),
        "250ms"
    );
    assert_eq!(shown(Arg::Int(42)), "42");
    assert_eq!(shown(Arg::Bool(true)), "true");
    assert_eq!(shown(Arg::Null), "null");
    assert_eq!(shown(Arg::List(vec![Arg::Int(1)])), "[1 item(s)]");
    assert_eq!(
        shown(
            Arg::Object(fields(vec![("a", Arg::Int(1))]))
        ),
        "{1 key(s)}"
    );
    assert_eq!(
        shown(Arg::Call(call("matches", vec![]))),
        "matches(...)"
    );
}

#[test]
fn matcher_to_params_handles_bare_regex_and_duration() {
    let (intent, params) = matcher_to_params(&Arg::Regex("foo".into())).unwrap();
    assert_eq!(intent, "wait_turn_matcher");
    assert_eq!(*at(&params, "pattern"), Json::text("foo"));

    let (intent, params) =
        matcher_to_params(&Arg::Duration(Duration::from_millis(500))).unwrap();
    assert_eq!(intent, "wait_turn_matcher");
    assert_eq!(at(&params, "stable_ms").as_i64(), Some(500));
}

#[test]
fn matcher_to_params_recognises_nested_matches_and_screen_stable() {
    let inner = call("matches", vec![Arg::Regex("ready".into())]);
    let (intent, params) = matcher_to_params(&Arg::Call(inner)).unwrap();
    assert_eq!(intent, "wait_turn_matcher");
    assert_eq!(*at(&params, "pattern"), Json::text("ready"));

    let inner = call(
        "screen_stable",
        vec![Arg::Duration(Duration::from_millis(250))],
    );
    let (intent, params) = matcher_to_params(&Arg::Call(inner)).unwrap();
    assert_eq!(intent, "wait_turn_matcher");
    assert_eq!(at(&params, "stable_ms").as_i64(), Some(250));
}

#[test]
fn matcher_to_params_rejects_unknown_call_and_wrong_arg_types() {
    let unknown = call("teleport", vec![Arg::Regex("x".into())]);
    let error = matcher_to_params(&Arg::Call(unknown)).unwrap_err();
    assert!(error.message().contains("teleport"), "{error:?}");

    let error = matcher_to_params(&Arg::String("hi".into())).unwrap_err();
    assert!(error.message().contains("matcher"), "{error:?}");
}

#[test]
fn expect_one_string_reports_missing_and_wrong_type() {
    let empty = call("send.text", vec![]);
    let error = expect_one_string(&empty, "send.text").unwrap_err();
    assert!(error.message().contains("send.text"), "{error:?}");

    let wrong = call("send.text", vec![Arg::Int(7)]);
    let error = expect_one_string(&wrong, "send.text").unwrap_err();
    assert!(error.message().contains("string"), "{error:?}");
}

#[test]
fn expect_one_regex_accepts_string_or_regex_and_rejects_others() {
    let regex = call("wait.matches", vec![Arg::Regex("foo".into())]);
    assert_eq!(expect_one_regex(&regex, "wait.matches").unwrap(), "foo");

    let string = call("wait.matches", vec![Arg::String("foo".into())]);
    assert_eq!(expect_one_regex(&string, "wait.matches").unwrap(), "foo");

    let bool_arg = call("wait.matches", vec![Arg::Bool(true)]);
    let error = expect_one_regex(&bool_arg, "wait.matches").unwrap_err();
    assert!(error.message().contains("regex/string"), "{error:?}");

    let empty = call("wait.matches", vec![]);
    let error = expect_one_regex(&empty, "wait.matches").unwrap_err();
    assert!(error.message().contains("regex"), "{error:?}");
}

#[test]
fn expect_one_duration_only_accepts_durations() {
    let dur = call(
        "wait.screen_stable",
        vec![Arg::Duration(Duration::from_millis(100))],
    );
    assert_eq!(
        expect_one_duration(&dur, "wait.screen_stable").unwrap(),
        Duration::from_millis(100)
    );

    let str_arg = call("wait.screen_stable", vec![Arg::String("100".into())]);
    let error = expect_one_duration(&str_arg, "wait.screen_stable").unwrap_err();
    assert!(error.message().contains("duration"), "{error:?}");

    let empty = call("wait.screen_stable", vec![]);
    let error = expect_one_duration(&empty, "wait.screen_stable").unwrap_err();
    assert!(error.message().contains("duration"), "{error:?}");
}

#[test]
fn kwarg_helpers_return_typed_values_or_none() {
    let c = call_kw(
        "session.spawn",
        vec![
            ("program", Arg::String("/bin/sh".into())),
            ("rows", Arg::Int(24)),
            ("verbose", Arg::Bool(true)),
        ],
    );
    assert_eq!(string_kwarg(&c, "program").as_deref(), Some("/bin/sh"));
    assert_eq!(bool_kwarg(&c, "verbose"), Some(true));

    assert!(string_kwarg(&c, "rows").is_none());
    assert!(bool_kwarg(&c, "rows").is_none());

    assert!(string_kwarg(&c, "missing").is_none());
}

#[test]
fn duration_kwarg_distinguishes_missing_present_and_wrong_type() {
    let none = call_kw("wait", vec![]);
    assert_eq!(duration_kwarg(&none, "timeout").unwrap(), None);

    let dur = call_kw(
        "wait",
        vec![("timeout", Arg::Duration(Duration::from_secs(2)))],
    );
    assert_eq!(
        duration_kwarg(&dur, "timeout").unwrap(),
        Some(Duration::from_secs(2))
    );

    let wrong = call_kw("wait", vec![("timeout", Arg::Int(2000))]);
    let error = duration_kwarg(&wrong, "timeout").unwrap_err();
    assert!(error.message().contains("duration"), "{error:?}");
}

#[test]
fn prior_adapter_kwarg_accepts_long_and_short_alias() {
    let long = call_kw(
        "session.resume",
        vec![("prior_adapter", Arg::String("e1".into()))],
    );
    assert_eq!(prior_adapter_kwarg(&long).unwrap().as_deref(), Some("e1"));

    let short = call_kw("session.resume", vec![("prior", Arg::String("e2".into()))]);
    assert_eq!(prior_adapter_kwarg(&short).unwrap().as_deref(), Some("e2"));

    let both = call_kw(
        "session.resume",
        vec![
            ("prior_adapter", Arg::String("e1".into())),
            ("prior", Arg::String("e2".into())),
        ],
    );
    assert_eq!(
        prior_adapter_kwarg(&both).unwrap().as_deref(),
        Some("e1"),
        "prior_adapter should win when both spellings are present"
    );

    let wrong_long = call_kw("session.resume", vec![("prior_adapter", Arg::Int(1))]);
    let error = prior_adapter_kwarg(&wrong_long).unwrap_err();
    assert!(error.message().contains("prior_adapter="), "{error:?}");

    let wrong_short = call_kw("session.resume", vec![("prior", Arg::Bool(true))]);
    let error = prior_adapter_kwarg(&wrong_short).unwrap_err();
    assert!(error.message().contains("prior="), "{error:?}");
}

#[test]
fn adapter_start_kwargs_forward_full_rpc_start_shape() {
    let call = call_kw(
        "session.spawn",
        vec![
            ("program", Arg::String("/bin/sh".into())),
            (
                "args",
                Arg::List(vec![Arg::String("-lc".into()), Arg::String("cat".into())]),
            ),
            ("cwd", Arg::String("/tmp".into())),
            (
                "env",
                Arg::Object(
                    fields(vec![("NO_COLOR", Arg::String("1".into()))]),
                ),
            ),
            ("rows", Arg::Int(60)),
            ("cols", Arg::Int(200)),
            ("pixel_width", Arg::Int(1200)),
            ("pixel_height", Arg::Int(800)),
        ],
    );
    let params = insert_adapter_start_kwargs(Json::object(), &call).unwrap();
    assert_eq!(*at(&params, "program"), Json::text("/bin/sh"));
    assert_eq!(*at(&params, "args"), json(r#"["-lc", "cat"]"#));
    assert_eq!(*at(&params, "cwd"), Json::text("/tmp"));
    assert_eq!(*at(&params, "env"), json(r#"{ "NO_COLOR": "1" }"#));
    assert_eq!(at(&params, "rows").as_i64(), Some(60));
    assert_eq!(at(&params, "cols").as_i64(), Some(200));
    assert_eq!(at(&params, "pixel_width").as_i64(), Some(1200));
    assert_eq!(at(&params, "pixel_height").as_i64(), Some(800));
}

#[test]
fn adapter_start_kwargs_reject_wrong_list_map_and_u16_types() {
    let upper_bound = call_kw("session.spawn", vec![("rows", Arg::Int(65_535))]);
    let params = insert_adapter_start_kwargs(Json::object(), &upper_bound).unwrap();
    assert_eq!(at(&params, "rows").as_i64(), Some(65_535));

    let bad_args = call_kw("session.spawn", vec![("args", Arg::String("-lc".into()))]);
    let error = insert_adapter_start_kwargs(Json::object(), &bad_args).unwrap_err();
    assert!(error.message().contains("string list"), "{error:?}");

    let bad_env = call_kw(
        "session.spawn",
        vec![(
            "env",
            Arg::Object(
                fields(vec![("NO_COLOR", Arg::Bool(true))]),
            ),
        )],
    );
    let error = insert_adapter_start_kwargs(Json::object(), &bad_env).unwrap_err();
    assert!(error.message().contains("string values"), "{error:?}");

    let bad_rows = call_kw("session.spawn", vec![("rows", Arg::Int(-1))]);
    let error = insert_adapter_start_kwargs(Json::object(), &bad_rows).unwrap_err();
    assert!(error.message().contains("0..65535"), "{error:?}");

    let too_large_rows = call_kw("session.spawn", vec![("rows", Arg::Int(65_536))]);
    let error = insert_adapter_start_kwargs(Json::object(), &too_large_rows).unwrap_err();
    assert!(error.message().contains("0..65535"), "{error:?}");
}

#[test]
fn arg_to_json_and_kwargs_to_json_roundtrip_every_variant() {
    let kwargs = fields(vec![
        ("s", Arg::String("hi".into())),
        ("re", Arg::Regex("^x$".into())),
        ("d", Arg::Duration(Duration::from_millis(750))),
        ("i", Arg::Int(-3)),
        ("b", Arg::Bool(false)),
        ("n", Arg::Null),
        ("list", Arg::List(vec![Arg::String("a".into()), Arg::Int(2)])),
        ("obj", Arg::Object(fields(vec![("k", Arg::String("v".into()))]))),
    ]);
    let value = kwargs_to_json(&kwargs);
    assert_eq!(*at(&value, "s"), Json::text("hi"));
    assert_eq!(*at(&value, "re"), Json::text("^x$"));
    assert_eq!(at(&value, "d").as_i64(), Some(750));
    assert_eq!(at(&value, "i").as_i64(), Some(-3));
    assert_eq!(at(&value, "b").as_bool(), Some(false));
    assert!(matches!(at(&value, "n"), Json::Null));
    assert_eq!(*at(&value, "list"), json(r#"["a", 2]"#));
    assert_eq!(*at(&value, "obj"), json(r#"{ "k": "v" }"#));

    let nested = Arg::Call(call("foo.bar", vec![Arg::Int(1)]));
    let value = arg_to_json(&nested);
    assert_eq!(value, json(r#""foo.bar(...)""#));
}

#[test]
fn parse_session_attach_with_string_and_default() {
    let cmd = parse(r#"session.attach("e7")"#).unwrap();
    let Cmd::Dsl(call) = cmd else { panic!() };
    assert_eq!(call.path, vec!["session", "attach"]);
    assert_eq!(call.positional, vec![Arg::String("e7".into())]);

    let cmd = parse("session.attach()").unwrap();
    let Cmd::Dsl(call) = cmd else { panic!() };
    assert!(call.positional.is_empty());
}

#[test]
fn parse_raw_string_preserves_backslashes() {
    let cmd = parse(r#"wait(matches(r"a\n\t"))"#).unwrap();
    let Cmd::Dsl(call) = cmd else { panic!() };
    let Arg::Call(inner) = &call.positional[0] else {
        panic!()
    };
    assert_eq!(inner.positional, vec![Arg::Regex(r"a\n\t".into())]);
}

#[test]
fn parse_negative_integer_kwarg() {
    let cmd = parse("send.intent(\"x\", count=-5)").unwrap();
    let Cmd::Dsl(call) = cmd else { panic!() };
    assert_eq!(call.kwargs.get("count"), Some(&Arg::Int(-5)));
}

#[test]
fn dispatch_unknown_command_returns_help_hint() {
    let (mut server, mut ctx) = in_process_client();
    let error = run(parse("session.fly()").unwrap(), &mut server, &mut ctx)
    .unwrap_err();
    let text = error.message();
    assert!(text.contains("session.fly"), "{text}");
    assert!(text.contains(":help"), "{text}");
}

#[test]
fn dispatch_session_attach_with_non_string_arg_errors() {
    let (mut server, mut ctx) = in_process_client();
    let error = run(parse("session.attach(42)").unwrap(), &mut server, &mut ctx)
    .unwrap_err();
    assert!(error.message().contains("session.attach"), "{error:?}");
}

#[test]
fn dispatch_meta_focus_unknown_id_errors() {
    let (mut server, mut ctx) = in_process_client();
    ctx.upsert_adapter("e1", "agent-shell");
    let error = run(parse(":focus e9").unwrap(), &mut server, &mut ctx)
    .unwrap_err();
    assert!(error.message().contains("e9"), "{error:?}");
}

#[test]
fn dispatch_meta_focus_sets_ctx_focus() {
    let (mut server, mut ctx) = in_process_client();
    ctx.upsert_adapter("e1", "agent-shell");
    ctx.upsert_adapter("e2", "agent-shell");
    let outcome = run(parse(":focus e2").unwrap(), &mut server, &mut ctx)
    .unwrap();
    let CmdOutcome::Line(line) = outcome else {
        panic!()
    };
    assert!(line.contains("e2"), "{line}");
    assert_eq!(ctx.focus.as_deref(), Some("e2"));
}

#[test]
fn dispatch_session_list_renders_empty_and_populated() {
    let (mut server, mut ctx) = in_process_client();
    let outcome = run(parse("session.list()").unwrap(), &mut server, &mut ctx)
    .unwrap();
    let CmdOutcome::Line(line) = outcome else {
        panic!()
    };
    assert!(line.contains("no adapters"), "{line}");

    ctx.upsert_adapter("e1", "agent-shell");
    let outcome = run(parse("session.list()").unwrap(), &mut server, &mut ctx)
    .unwrap();
    let CmdOutcome::Line(line) = outcome else {
        panic!()
    };
    assert!(line.contains("e1"), "{line}");
    assert!(line.contains("agent-shell"), "{line}");
}

#[test]
fn dispatch_meta_tabs_empty_renders_placeholder() {
    let (mut server, mut ctx) = in_process_client();
    let outcome = run(parse(":tabs").unwrap(), &mut server, &mut ctx)
    .unwrap();
    let CmdOutcome::Line(line) = outcome else {
        panic!()
    };
    assert!(line.contains("no adapters"), "{line}");
}

#[test]
fn parse_string_handles_every_named_escape() {
    let cmd = parse(r#"send.text("\t\r\\\"\0")"#).unwrap();
    let Cmd::Dsl(call) = cmd else { panic!() };
    assert_eq!(call.positional, vec![Arg::String("\t\r\\\"\0".into())]);
}

#[test]
fn parse_unknown_string_escape_errors() {
    let error = parse(r#"send.text("hi\q there")"#).unwrap_err();
    assert!(error.message().contains("\\q"), "{error:?}");
}

#[test]
fn parse_unterminated_raw_string_errors() {
    let error = parse(r#"wait(matches(r"^x"#).unwrap_err();
    assert!(
        error.message().to_lowercase().contains("unterminated"),
        "{error:?}"
    );
}

#[test]
fn parse_unexpected_character_errors() {
    let error = parse("session.spawn(@)").unwrap_err();
    assert!(error.message().contains('@'), "{error:?}");
}

#[test]
fn parse_meta_rpc_invalid_json_errors() {
    let error = parse(r#":rpc adapter.send {not-json}"#).unwrap_err();
    assert!(error.message().to_lowercase().contains("json"), "{error:?}");
}

#[test]
fn parse_dotted_path_missing_identifier_errors() {
    let error = parse("foo.()").unwrap_err();
    assert!(
        error.message().to_lowercase().contains("identifier")
            || error.message().contains("RParen"),
        "{error:?}"
    );
}

#[test]
fn parse_arg_list_with_missing_close_paren_errors() {
    let error = parse("session.spawn(\"x\"").unwrap_err();
    assert!(!error.message().is_empty());
}

#[test]
fn dispatch_help_returns_help_outcome() {
    let (mut server, mut ctx) = in_process_client();
    let outcome = run(parse(":help").unwrap(), &mut server, &mut ctx)
    .unwrap();
    let CmdOutcome::ShowHelp(text) = outcome else {
        panic!("expected ShowHelp, got {outcome:?}")
    };
    assert!(text.contains("plugins()"), "help missing top-line cmds");
    assert!(text.contains("send.key"), "help missing send.key entry");
    assert!(
        text.contains("resume and close prior id"),
        "help missing session.resume description"
    );
    assert!(text.contains("alias: prior"), "help missing prior alias");
    assert!(text.contains("plugins.describe"), "help missing describe");
    assert!(text.contains("turn(\"intent\""), "help missing turn() form");
    assert!(
        text.contains(":notifications on|off [adapters="),
        "help missing notifications filter syntax"
    );
}

#[test]
fn dispatch_cancel_wait_calls_adapter_cancel_wait() {
    let (mut server, mut ctx) = in_process_client();
    let outcome = run(parse(r#"cancel_wait("never-was-registered")"#).unwrap(), &mut server, &mut ctx)
    .expect("cancel_wait dispatch");
    let CmdOutcome::Json(value) = outcome else {
        panic!("expected json outcome, got {outcome:?}")
    };
    assert_eq!(at(&value, "cancelled").as_bool(), Some(false));
}

#[test]
fn dispatch_plugins_describe_routes_to_plugin_describe() {
    let (mut server, mut ctx) = in_process_client();
    let outcome = run(parse(r#"plugins.describe("agent-shell")"#).unwrap(), &mut server, &mut ctx)
    .expect("plugins.describe dispatch");
    let CmdOutcome::Json(value) = outcome else {
        panic!("expected json outcome, got {outcome:?}")
    };
    assert_eq!(*at(&value, "plugin"), Json::text("agent-shell"));
    let intents = at(&value, "intents")
        .as_array()
        .expect("intents must be an array");
    let names: Vec<&str> = intents
        .iter()
        .filter_map(|entry| entry.get_str("name").map(String::as_str))
        .collect();
    assert!(
        names.contains(&"send_prompt"),
        "intents missing send_prompt: {names:?}"
    );
}

#[test]
fn turn_command_builds_send_and_wait_blocks() {
    let call = match parse(r#"turn("send_prompt", prompt="hi", timeout=5s)"#).unwrap() {
        Cmd::Dsl(call) => call,
        other => panic!("expected DSL call, got {other:?}"),
    };
    let intent = expect_one_string(&call, "turn").unwrap();
    assert_eq!(intent, "send_prompt");
    let send_params = turn_send_json(&call.kwargs);
    assert_eq!(send_params, json(r#"{ "prompt": "hi" }"#));
    assert_eq!(
        duration_kwarg(&call, "timeout").unwrap(),
        Some(Duration::from_secs(5))
    );
}

#[test]
fn turn_command_resolves_wait_matcher_shortcut() {
    let call = match parse(r#"turn("send_prompt", wait=matches(r"completed"))"#).unwrap() {
        Cmd::Dsl(call) => call,
        other => panic!("expected DSL call, got {other:?}"),
    };
    let wait_arg = call.kwargs.get("wait").expect("wait kwarg");
    let (intent, params) = matcher_to_params(wait_arg).unwrap();
    assert_eq!(intent, "wait_turn_matcher");
    assert_eq!(params, json(r#"{ "pattern": "completed" }"#));
}

// ---- request shapes -----------------------------------------------------

fn focused(id: &str) -> ReplCtx {
    let mut ctx = ReplCtx::new();
    ctx.upsert_adapter(id, "agent-shell");
    ctx.set_focus(id);
    ctx
}

fn first_request(line: &str, ctx: &mut ReplCtx) -> Request {
    match dispatch(parse(line).unwrap(), ctx) {
        Step::Call { request, .. } => request,
        other => panic!("expected a call, got {other:?}"),
    }
}

fn first_error(line: &str, ctx: &mut ReplCtx) -> String {
    match dispatch(parse(line).unwrap(), ctx) {
        Step::Done { outcome: Err(error), .. } => error.message().clone(),
        other => panic!("expected an error, got {other:?}"),
    }
}

#[test]
fn turn_request_keeps_wait_keywords_apart() {
    let mut ctx = focused("e1");
    let request = first_request(
        r#"turn("send_prompt", prompt="hi", wait=matches(r"done"), timeout=5s)"#,
        &mut ctx,
    );
    assert_eq!(request.method, "adapter.turn");
    assert_eq!(*at(&request.params, "adapter"), Json::text("e1"));
    let send = at(&request.params, "send");
    assert_eq!(*at(send, "intent"), Json::text("send_prompt"));
    assert_eq!(*at(send, "params"), json(r#"{"prompt":"hi"}"#));
    let wait = at(&request.params, "wait");
    assert_eq!(at(wait, "timeout_ms").as_i64(), Some(5000));
}

#[test]
fn named_wait_intent_goes_before_the_default() {
    let mut ctx = focused("e1");
    let line = r#"turn("send_prompt", wait=matches(r"x"), wait_intent="other")"#;
    let request = first_request(line, &mut ctx);
    let wanted = json(r#"{"intent":"other","params":{"pattern":"x"}}"#);
    assert_eq!(*at(&request.params, "wait"), wanted);
    let request = first_request(r#"turn("send_prompt", wait=matches(r"x"))"#, &mut ctx);
    let wanted = json(r#"{"intent":"wait_turn_matcher","params":{"pattern":"x"}}"#);
    assert_eq!(*at(&request.params, "wait"), wanted);
    let request = first_request(r#"turn("send_prompt", wait_intent="other")"#, &mut ctx);
    assert_eq!(*at(&request.params, "wait"), json(r#"{"intent":"other"}"#));
    let line = r#"turn("send_prompt", wait=matches(r"x"), wait_intent=3)"#;
    assert_eq!(first_error(line, &mut ctx), "wait_intent= expected a string, got 3");
}

#[test]
fn requests_name_the_focused_adapter() {
    for line in [
        "state()",
        r#"send.text("hi")"#,
        r#"send.key("enter")"#,
        r#"send.intent("approve")"#,
        r#"wait.matches(r"x")"#,
        "wait.screen_stable(250ms)",
        "screen.snapshot()",
        "screen.view()",
        "view()",
        "transcript.snapshot()",
        "inspect()",
    ] {
        let mut ctx = focused("e7");
        let request = first_request(line, &mut ctx);
        assert_eq!(*at(&request.params, "adapter"), Json::text("e7"), "{line}");
        let mut empty = ReplCtx::new();
        assert!(first_error(line, &mut empty).contains("no focused adapter"), "{line}");
    }
}

#[test]
fn wait_requests_carry_pattern_and_stability() {
    let mut ctx = focused("e1");
    let request = first_request(r#"wait(matches(r"ok"), timeout=2s)"#, &mut ctx);
    assert_eq!(request.method, "adapter.wait");
    assert_eq!(*at(at(&request.params, "params"), "pattern"), Json::text("ok"));
    assert_eq!(at(&request.params, "timeout_ms").as_i64(), Some(2000));
    let request = first_request("wait.screen_stable(250ms)", &mut ctx);
    assert_eq!(at(at(&request.params, "params"), "stable_ms").as_i64(), Some(250));
}

#[test]
fn spawn_request_keeps_the_size() {
    let mut ctx = ReplCtx::new();
    let request =
        first_request(r#"session.spawn("agent-shell", rows=24, cols=80)"#, &mut ctx);
    assert_eq!(request.method, "adapter.start");
    assert_eq!(*at(&request.params, "plugin"), Json::text("agent-shell"));
    assert_eq!(at(&request.params, "rows").as_i64(), Some(24));
    assert_eq!(at(&request.params, "cols").as_i64(), Some(80));
}

#[test]
fn kwarg_readers_name_what_is_wrong() {
    let c = call_kw(
        "session.spawn",
        vec![
            ("rows", Arg::String("x".into())),
            ("args", Arg::List(vec![Arg::Int(1)])),
            ("env", Arg::Int(3)),
        ],
    );
    assert!(u16_kwarg(&c, "rows").unwrap_err().message().contains("rows"));
    assert!(string_list_kwarg(&c, "args").unwrap_err().message().contains("args"));
    assert!(string_map_kwarg(&c, "env").unwrap_err().message().contains("env"));
    assert_eq!(u16_kwarg(&c, "cols").unwrap(), None);
    assert_eq!(string_list_kwarg(&c, "none").unwrap(), None);
    assert_eq!(string_map_kwarg(&c, "none").unwrap(), None);
}

#[test]
fn numbers_must_fit() {
    assert!(parse("send.intent(\"x\", n=9223372036854775807)").is_ok());
    assert!(parse("send.intent(\"x\", n=9223372036854775808)").is_err());
    assert!(parse("wait.screen_stable(18446744073709551616ms)").is_err());
}

#[test]
fn turn_needs_a_focus_and_an_intent() {
    let mut ctx = ReplCtx::new();
    assert!(first_error(r#"turn("send_prompt")"#, &mut ctx).contains("no focused adapter"));
    let mut ctx = focused("e1");
    assert!(first_error("turn()", &mut ctx).contains("turn"));
    let bad = parse(r#"turn("send_prompt", wait=5)"#).unwrap();
    let Cmd::Dsl(bad) = bad else { panic!() };
    assert!(matches!(turn_command(&bad, &ctx), Step::Done { outcome: Err(_), .. }));
}
