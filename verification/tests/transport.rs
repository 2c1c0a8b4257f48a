use ptywright_repl::duration::Duration;

use ptywright_repl::args::Framing;
use ptywright_repl::error::Error;
use ptywright_repl::json::Json;
use ptywright_repl::transport::{
    call_frame, call_payload, dispatch_payload, finish_call, frame, parse_error, CallEnd,
    HeaderStep, Incoming, LspHeaders, Notification, Pending, RpcError,
};

fn json(text: &str) -> Json {
    Json::parse(text).expect("valid JSON")
}

/// A client whose server answers at once.
struct Client {
    framing: Framing,
    pending: Pending<String>,
    notices: Vec<Notification>,
}

/// The payload of a frame as a server reads it.
fn payload_of(framing: Framing, sent: &str) -> String {
    match framing {
        Framing::Ndjson => sent.strip_suffix('\n').expect("line").to_string(),
        Framing::Lsp => {
            let mut headers = LspHeaders::new();
            let mut rest = sent;
            loop {
                let end = rest.find('\n').expect("header line") + 1;
                let (line, tail) = rest.split_at(end);
                rest = tail;
                match headers.read(Some(line)).expect("header") {
                    HeaderStep::More => continue,
                    HeaderStep::Body(n) => {
                        assert_eq!(n, rest.len());
                        return rest.to_string();
                    }
                    HeaderStep::Closed => panic!("closed"),
                }
            }
        }
    }
}

fn answer(payload: &str) -> String {
    let call = json(payload);
    let id = call.get("id").and_then(|id| id.as_i64()).expect("id");
    match call.get_str("method").expect("method").as_str() {
        "server.capabilities" => format!(
            r#"{{"jsonrpc":"2.0","id":{id},"result":{{"name":"ptywright","methods":["a"]}}}}"#
        ),
        _ => format!(
            r#"{{"jsonrpc":"2.0","id":{id},"error":{{"code":-32601,"message":"method not found"}}}}"#
        ),
    }
}

impl Client {
    fn new(framing: Framing) -> Self {
        Client { framing, pending: Pending::new(), notices: Vec::new() }
    }

    fn call(&mut self, method: &str, params: Json, timeout: Duration) -> Result<Json, Error> {
        let id = self.pending.begin(method.to_string());
        let sent = call_frame(self.framing, id, method, params);
        let reply = frame(self.framing, &answer(&payload_of(self.framing, &sent)));
        let end = match dispatch_payload(&payload_of(self.framing, &reply))? {
            Incoming::Reply { id, outcome } => match self.pending.take(id) {
                Some(_) => CallEnd::Answer(outcome),
                None => CallEnd::Silence,
            },
            Incoming::Notice(n) => {
                self.notices.push(n);
                CallEnd::Silence
            }
            Incoming::Nothing => CallEnd::Silence,
        };
        finish_call(method, &timeout, end)
    }
}

#[test]
fn call_returns_server_response() {
    let mut client = Client::new(Framing::Ndjson);
    let result = client
        .call("server.capabilities", json("{}"), Duration::from_secs(5))
        .expect("server.capabilities");
    assert_eq!(result.get_str("name").map(String::as_str), Some("ptywright"));
    assert!(result.get_array("methods").is_some());
}

#[test]
fn call_surfaces_server_errors_as_rpc_error() {
    let mut client = Client::new(Framing::Ndjson);
    let outcome = client.call("not.a.real.method", json("{}"), Duration::from_secs(5));
    let error = outcome.expect_err("unknown method must error");
    let text = error.message();
    assert!(
        text.contains("-32601") || text.to_lowercase().contains("method"),
        "expected method-not-found error, got: {text}",
    );
}

#[test]
fn lsp_framing_round_trips() {
    let mut client = Client::new(Framing::Lsp);
    let result = client
        .call("server.capabilities", json("{}"), Duration::from_secs(5))
        .expect("server.capabilities over lsp");
    assert_eq!(result.get_str("name").map(String::as_str), Some("ptywright"));
}

#[test]
fn call_times_out_when_server_is_silent() {
    let outcome = finish_call("server.capabilities", &Duration::from_millis(250), CallEnd::Silence);
    let error = outcome.expect_err("expected error when transport is closed");
    assert_eq!(
        error.message(),
        "rpc call `server.capabilities` did not complete within 250ms"
    );
}

#[test]
fn notifications_subscribers_receive_session_changed() {
    let payload =
        r#"{"jsonrpc":"2.0","method":"session.changed","params":{"session":"s1","sequence":3}}"#;
    let Ok(Incoming::Notice(notification)) = dispatch_payload(payload) else {
        panic!("expected a notification");
    };
    assert_eq!(notification.method, "session.changed");
    assert_eq!(notification.params.get_str("session").map(String::as_str), Some("s1"));
}

#[test]
fn frames_are_exact() {
    assert_eq!(frame(Framing::Ndjson, "{}"), "{}\n");
    assert_eq!(frame(Framing::Lsp, "é"), "Content-Length: 2\r\n\r\né");
    let payload = call_payload(7, "adapter.list", json(r#"{"a":1}"#));
    assert_eq!(
        payload,
        json(r#"{"jsonrpc":"2.0","id":7,"method":"adapter.list","params":{"a":1}}"#)
    );
    let line = call_frame(Framing::Ndjson, 7, "x", json(r#"{"a":"b\nc"}"#));
    assert_eq!(line.matches('\n').count(), 1);
}

#[test]
fn header_lines_are_read() {
    let mut headers = LspHeaders::new();
    assert_eq!(headers.read(None).unwrap(), HeaderStep::Closed);
    assert_eq!(headers.read(Some("Content-Type: x\r\n")).unwrap(), HeaderStep::More);
    assert_eq!(
        headers.read(None).unwrap_err().message(),
        "unexpected EOF in LSP headers"
    );
    assert_eq!(
        headers.read(Some("\r\n")).unwrap_err().message(),
        "LSP frame missing Content-Length header"
    );
    assert_eq!(headers.read(Some("CONTENT-LENGTH:  12 \r\n")).unwrap(), HeaderStep::More);
    assert_eq!(headers.read(Some("\r\n")).unwrap(), HeaderStep::Body(12));
    let mut bad = LspHeaders::new();
    assert_eq!(
        bad.read(Some("Content-Length: x\r\n")).unwrap_err().message(),
        "invalid Content-Length: invalid digit found in string"
    );
}

#[test]
fn late_answers_find_nobody() {
    let mut pending: Pending<&str> = Pending::new();
    let first = pending.begin("a");
    let second = pending.begin("b");
    assert_ne!(first, second);
    assert_eq!(pending.take(first), Some("a"));
    assert_eq!(pending.take(first), None);
    assert_eq!(pending.drain(), vec![(second, "b")]);
    assert_eq!(pending.take(second), None);
}

#[test]
fn errors_go_before_results_in_an_answer() {
    let payload = r#"{"id":4,"result":1,"error":{"code":-1,"message":"no","data":[2]}}"#;
    let Ok(Incoming::Reply { id, outcome }) = dispatch_payload(payload) else {
        panic!("expected an answer");
    };
    assert_eq!(id, 4);
    let error = outcome.unwrap_err();
    assert_eq!(error, RpcError { code: -1, message: "no".into(), data: Some(json("[2]")) });
    assert_eq!(parse_error(&json("{}")).code, -32603);
    assert!(RpcError::closed().text().len() > 0);
}

#[test]
fn odd_payloads_are_told_apart() {
    assert!(matches!(dispatch_payload("   "), Ok(Incoming::Nothing)));
    assert!(dispatch_payload("{bad").is_err());
}
