use ptywright_repl::adopt::format_tabs;
use ptywright_repl::command::parse_id_list;
use ptywright_repl::ctx::{AdapterTab, ReplCtx};
use ptywright_repl::error::Error;
use ptywright_repl::json::Json;
use ptywright_repl::meta::{dispatch, finish_screen, resume, MetaOutcome, MetaStep};

fn json(text: &str) -> Json {
    Json::parse(text).expect("valid JSON")
}

/// Runs a command that needs no server.
fn local(input: &str, ctx: &mut ReplCtx) -> Result<MetaOutcome, Error> {
    match dispatch(input, ctx)? {
        MetaStep::Done { outcome, .. } => Ok(outcome),
        other => panic!("no server is needed for `{input}`: {other:?}"),
    }
}

#[test]
fn format_tabs_marks_focused_adapter() {
    let mut ctx = ReplCtx::new();
    ctx.adapters.push(AdapterTab {
        id: "e1".into(),
        plugin: "agent-shell".into(),
        state_label: None,
    });
    ctx.adapters.push(AdapterTab {
        id: "e2".into(),
        plugin: "agent-shell".into(),
        state_label: None,
    });
    ctx.focus = Some("e2".into());
    let line = format_tabs(&ctx);
    assert!(line.contains("e1:agent-shell"));
    assert!(line.contains("*e2:agent-shell"));
}

#[test]
fn format_tabs_says_no_adapters_when_empty() {
    let ctx = ReplCtx::new();
    assert_eq!(format_tabs(&ctx), "(no adapters)");
}

#[test]
fn parse_id_list_strips_whitespace_and_empty_tokens() {
    assert_eq!(parse_id_list("e1, e2,e3"), vec!["e1", "e2", "e3"]);
    assert_eq!(parse_id_list("e1"), vec!["e1"]);
    assert_eq!(parse_id_list(""), Vec::<String>::new());
    assert_eq!(parse_id_list(", ,"), Vec::<String>::new());
}

#[test]
fn tips_dispatch_returns_show_tips_with_guide_body() {
    let mut ctx = ReplCtx::new();
    let outcome = local("tips", &mut ctx).expect(":tips should dispatch without error");
    match outcome {
        MetaOutcome::ShowTips(body) => {
            assert!(body.contains("plugins()"), "guide body missing core idiom");
            assert!(body.contains(":help"));
        }
        other => panic!("expected ShowTips, got {other:?}"),
    }
}

#[test]
fn help_quit_and_tabs_dispatch_locally() {
    let mut ctx = ReplCtx::new();
    assert!(matches!(local("help", &mut ctx).unwrap(), MetaOutcome::ShowHelp(_)));
    for quit in ["quit", "q", "exit"] {
        assert!(matches!(local(quit, &mut ctx).unwrap(), MetaOutcome::Quit));
    }
    let MetaOutcome::Line(text) = local("tabs", &mut ctx).unwrap() else {
        panic!("expected Line from :tabs");
    };
    assert_eq!(text, "(no adapters)");
}

#[test]
fn focus_switches_and_rejects_unknown_or_missing_ids() {
    let mut ctx = ReplCtx::new();
    ctx.upsert_adapter("e1", "agent-shell");
    let MetaOutcome::Line(text) = local("focus e1", &mut ctx).unwrap() else {
        panic!("expected Line from :focus");
    };
    assert!(text.contains("e1"));
    assert_eq!(ctx.focus.as_deref(), Some("e1"));
    assert!(local("focus", &mut ctx).is_err());
    assert!(local("focus nope", &mut ctx).is_err());
}

#[test]
fn meta_arg_validation_errors_before_any_rpc_call() {
    let mut ctx = ReplCtx::new();
    let err = local("bogus", &mut ctx).unwrap_err();
    assert!(err.message().contains("bogus"));
    assert!(local("attach", &mut ctx).is_err());
    assert!(local("notifications maybe", &mut ctx).is_err());
    assert!(local("notifications off adapters=e1", &mut ctx).is_err());
    assert!(local("notifications on bogus=e1", &mut ctx).is_err());
    assert!(local("rpc", &mut ctx).is_err());
    assert!(local("rpc server.capabilities {bad", &mut ctx).is_err());
}

#[test]
fn notifications_switch_the_heartbeat() {
    let mut ctx = ReplCtx::new();
    let MetaStep::Call { request, pending } =
        dispatch("notifications on adapters=e1", &mut ctx).unwrap()
    else {
        panic!("expected a call");
    };
    assert_eq!(request.method, "server.set_notifications");
    assert_eq!(request.params.get_bool("enabled"), Some(true));
    let MetaStep::Done { heartbeat, .. } = resume(pending, Ok(json("{}")), &mut ctx).unwrap()
    else {
        panic!("expected an outcome");
    };
    assert_eq!(heartbeat, Some(true));
}

#[test]
fn attach_takes_the_live_adapters_in() {
    let mut ctx = ReplCtx::new();
    let MetaStep::Call { request, pending } = dispatch("attach all", &mut ctx).unwrap() else {
        panic!("expected a call");
    };
    assert_eq!(request.method, "adapter.live");
    let reply = json(
        r#"{"adapters":[{"adapter":"e1","plugin":"p"},{"adapter":"e2","plugin":"q","finished":true}]}"#,
    );
    let MetaStep::Done { outcome: MetaOutcome::Line(line), .. } =
        resume(pending, Ok(reply), &mut ctx).unwrap()
    else {
        panic!("expected a line");
    };
    assert!(line.contains("e1"));
    assert!(ctx.adapter("e1").is_some());
    assert!(ctx.adapter("e2").is_none());
    assert_eq!(ctx.focus.as_deref(), Some("e1"));
}

#[test]
fn rpc_passes_the_answer_through() {
    let mut ctx = ReplCtx::new();
    let MetaStep::Call { request, pending } =
        dispatch(r#"rpc adapter.send {"adapter":"e1"}"#, &mut ctx).unwrap()
    else {
        panic!("expected a call");
    };
    assert_eq!(request.method, "adapter.send");
    assert_eq!(request.params, json(r#"{"adapter":"e1"}"#));
    let reply = json(r#"{"done":1}"#);
    let MetaStep::Done { outcome: MetaOutcome::Json(value), .. } =
        resume(pending, Ok(reply), &mut ctx).unwrap()
    else {
        panic!("expected JSON");
    };
    assert_eq!(value, json(r#"{"done":1}"#));
}

#[test]
fn a_picture_that_cannot_be_read_is_an_error() {
    assert!(finish_screen("e1".into(), Err("bad".into())).is_err());
}
