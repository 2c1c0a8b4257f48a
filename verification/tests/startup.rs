use ptywright_repl::error::Error;
use ptywright_repl::json::Json;
use ptywright_repl::startup::{
    beat, heartbeat_request, opening_request, read_signal, Beat, LoopStep, Opening, Signal,
    Startup,
};

fn json(text: &str) -> Json {
    Json::parse(text).expect("valid JSON")
}

#[test]
fn opening_asks_for_plugins_news_and_live_adapters() {
    let mut start = Startup::new();
    let mut opening = Opening::Plugins;
    let mut methods = Vec::new();
    let mut beating = Vec::new();
    while let Some(request) = opening_request(opening) {
        let reply = match request.method.as_str() {
            "adapter.list" => json(r#"{"plugins":[{"name":"agent-shell"},{"version":1}]}"#),
            "server.set_notifications" => {
                assert_eq!(request.params.get_bool("enabled"), Some(true));
                json("{}")
            }
            _ => json(
                r#"{"adapters":[{"adapter":"e1","finished":false},{"adapter":"e2","finished":true}]}"#,
            ),
        };
        methods.push(request.method);
        let (next, heartbeat) = start.answer(opening, Ok(reply));
        beating.push(heartbeat);
        opening = next;
    }
    assert_eq!(methods, ["adapter.list", "server.set_notifications", "adapter.live"]);
    assert_eq!(beating, [false, true, false]);
    assert_eq!(start.plugins.snapshot(), ["agent-shell"]);
    assert_eq!(start.adapters.snapshot(), ["e1"]);
    assert_eq!(
        start.hint.as_deref(),
        Some(
            "1 live adapter(s) on the server: e1 — `:attach all` to load them, or `:attach <id>`"
        )
    );
}

#[test]
fn failed_replies_tell_nothing() {
    let mut start = Startup::new();
    let (next, heartbeat) = start.answer(Opening::Plugins, Err(Error::rpc("gone")));
    assert_eq!((next, heartbeat), (Opening::Subscribe, false));
    let (next, heartbeat) = start.answer(next, Err(Error::rpc("gone")));
    assert_eq!((next, heartbeat), (Opening::Live, true));
    let (next, _) = start.answer(next, Err(Error::rpc("gone")));
    assert_eq!(next, Opening::Done);
    assert!(opening_request(next).is_none());
    assert!(start.plugins.snapshot().is_empty());
    assert!(start.adapters.snapshot().is_empty());
    assert_eq!(start.hint, None);
}

#[test]
fn heartbeat_rests_while_it_is_off() {
    assert_eq!(beat(true, true), Beat::Stop);
    assert_eq!(beat(true, false), Beat::Stop);
    assert_eq!(beat(false, false), Beat::Rest);
    assert_eq!(beat(false, true), Beat::Ask);
    assert_eq!(heartbeat_request().method, "server.capabilities");
}

#[test]
fn signals_lead_to_steps() {
    assert!(matches!(read_signal(Signal::Line("  \n".into())), LoopStep::Again));
    assert!(matches!(read_signal(Signal::Other), LoopStep::Again));
    match read_signal(Signal::Line(" :tabs ".into())) {
        LoopStep::Meta(rest) => assert_eq!(rest, "tabs"),
        other => panic!("unexpected step: {other:?}"),
    }
    match read_signal(Signal::Line(" plugins() ".into())) {
        LoopStep::Lua(code) => assert_eq!(code, "plugins()"),
        other => panic!("unexpected step: {other:?}"),
    }
    match read_signal(Signal::Cancelled) {
        LoopStep::Say(line) => assert_eq!(line[0].text, "(input cancelled)"),
        other => panic!("unexpected step: {other:?}"),
    }
    match read_signal(Signal::Ended) {
        LoopStep::Leave(line) => assert_eq!(line[0].text, "bye."),
        other => panic!("unexpected step: {other:?}"),
    }
    match read_signal(Signal::Failed("no tty".into())) {
        LoopStep::Fail(error) => assert_eq!(error, Error::rpc("reedline error: no tty")),
        other => panic!("unexpected step: {other:?}"),
    }
}
