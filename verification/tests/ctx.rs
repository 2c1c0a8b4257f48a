use ptywright_repl::duration::Duration;

use ptywright_repl::args::{Framing, Transport};
use ptywright_repl::auto_serve::{
    detach_notice, detaches, framing_cli_arg, not_ready_error, ready_notice, running_notice,
    serve_args, starting_notice, wait_step, WaitStep,
};
use ptywright_repl::ctx::{HistoryEntry, OutcomeKind, ReplCtx};
use ptywright_repl::fields::Fields;
use ptywright_repl::history::{read_lines, ReplHistory, DEFAULT_CAPACITY};
use ptywright_repl::socket::{connect_error, ConnectFailure};
use ptywright_repl::spawn::{child_command, spawn_error};
use ptywright_repl::tips::{long_guide, rotating_tip_for, rotating_tips, TIP_COUNT};

#[test]
fn upsert_adds_then_updates() {
    let mut ctx = ReplCtx::new();
    ctx.upsert_adapter("e1", "agent-shell");
    assert_eq!(ctx.adapters.len(), 1);
    ctx.upsert_adapter("e1", "agent-shell");
    assert_eq!(ctx.adapters.len(), 1);
    ctx.upsert_adapter("e2", "agent-shell");
    assert_eq!(ctx.adapters.len(), 2);
}

#[test]
fn remove_falls_back_focus_to_last_remaining() {
    let mut ctx = ReplCtx::new();
    ctx.upsert_adapter("e1", "x");
    ctx.upsert_adapter("e2", "x");
    ctx.focus = Some("e2".into());
    assert!(ctx.remove_adapter("e2"));
    assert_eq!(ctx.focus.as_deref(), Some("e1"));
    assert!(ctx.remove_adapter("e1"));
    assert!(ctx.focus.is_none());
}

#[test]
fn record_trims_to_max_history() {
    let mut ctx = ReplCtx::new();
    ctx.max_history = 3;
    for n in 0..5 {
        ctx.record(HistoryEntry {
            input: format!("cmd-{n}"),
            kind: OutcomeKind::Okay,
            detail: None,
        });
    }
    assert_eq!(ctx.history.len(), 3);
    assert_eq!(ctx.history.front().unwrap().input, "cmd-2");
    assert_eq!(ctx.history.back().unwrap().input, "cmd-4");
}

#[test]
fn state_label_setter_is_noop_for_unknown_adapter() {
    let mut ctx = ReplCtx::new();
    ctx.set_state_label("nope", Some("busy".into()));
    assert!(ctx.adapters.is_empty());
}

#[test]
fn state_label_is_set_for_a_known_adapter() {
    let mut ctx = ReplCtx::new();
    ctx.upsert_adapter("e1", "x");
    ctx.set_state_label("e1", Some("busy".into()));
    assert_eq!(ctx.adapter("e1").unwrap().state_label.as_deref(), Some("busy"));
    ctx.upsert_adapter("e1", "y");
    assert_eq!(ctx.adapter("e1").unwrap().plugin, "y");
    ctx.adapter_mut("e1").unwrap().state_label = None;
    assert_eq!(ctx.adapter("e1").unwrap().state_label, None);
    assert!(ctx.adapter("e2").is_none());
    assert!(ctx.adapter_mut("e2").is_none());
    assert!(!ctx.remove_adapter("e2"));
}

#[test]
fn removing_another_adapter_keeps_the_focus() {
    let mut ctx = ReplCtx::new();
    ctx.upsert_adapter("e1", "x");
    ctx.upsert_adapter("e2", "x");
    ctx.set_focus("e1");
    assert!(ctx.remove_adapter("e2"));
    assert_eq!(ctx.focus.as_deref(), Some("e1"));
}

// ---- starting and connecting --------------------------------------------

#[test]
fn framing_cli_arg_round_trips_both_wire_formats() {
    assert_eq!(framing_cli_arg(Framing::Ndjson), "ndjson");
    assert_eq!(framing_cli_arg(Framing::Lsp), "lsp");
}

#[test]
fn server_arguments_name_socket_and_framing() {
    assert_eq!(
        serve_args("/tmp/p.sock", Framing::Lsp),
        vec!["serve", "--socket", "/tmp/p.sock", "--framing", "lsp"]
    );
}

#[test]
fn notices_name_pid_and_socket() {
    assert_eq!(
        starting_notice("/s"),
        "ptywright: no server at /s — starting one in the background…"
    );
    assert_eq!(ready_notice(7, "/s"), "ptywright: server ready · pid 7 · socket /s");
    assert_eq!(
        running_notice(7, "/s"),
        "ptywright: auto-started server still running · pid 7 · socket /s"
    );
    assert_eq!(
        detach_notice(7, "/s"),
        "ptywright: detaching · server still listening on /s · pid 7"
    );
    assert_eq!(
        not_ready_error("/s", &Duration::from_millis(1500)).message(),
        "auto-server: socket /s did not start accepting connections within 1.5s"
    );
}

#[test]
fn only_a_detach_answer_detaches() {
    assert!(detaches(Some("d\n")));
    assert!(detaches(Some("  DETACH  ")));
    assert!(!detaches(Some("")));
    assert!(!detaches(Some("s")));
    assert!(!detaches(None));
}

#[test]
fn transports_are_labelled() {
    assert_eq!(Transport::Socket("/a".into()).label(), "socket:/a");
    assert_eq!(Transport::DefaultSocket("/a".into()).label(), "socket:/a");
    assert_eq!(Transport::Stdio(vec!["ptywright".into(), "serve".into()]).label(), "stdio:ptywright");
    assert_eq!(Transport::Stdio(Vec::new()).label(), "stdio:");
    assert!(Transport::DefaultSocket("/a".into()).needs_server(false));
    assert!(!Transport::DefaultSocket("/a".into()).needs_server(true));
    assert!(!Transport::Socket("/a".into()).needs_server(false));
}

#[test]
fn child_commands_are_split() {
    let (program, args) =
        child_command(&vec!["ptywright".into(), "serve".into(), "--stdio".into()]).unwrap();
    assert_eq!(program, "ptywright");
    assert_eq!(args, vec!["serve", "--stdio"]);
    assert!(child_command(&Vec::new()).is_err());
    assert_eq!(spawn_error("x", "gone").message(), "spawn `x`: gone");
}

#[test]
fn connection_failures_name_the_socket() {
    let path = "/tmp/p.sock";
    assert!(connect_error(path, &ConnectFailure::NotFound)
        .message()
        .starts_with("no ptywright server is listening at /tmp/p.sock."));
    assert!(connect_error(path, &ConnectFailure::ConnectionRefused)
        .message()
        .starts_with("socket /tmp/p.sock exists but is not accepting connections"));
    assert_eq!(
        connect_error(path, &ConnectFailure::PermissionDenied).message(),
        "permission denied connecting to /tmp/p.sock. Was the server started by a different user?"
    );
    assert_eq!(
        connect_error(path, &ConnectFailure::Other("odd".into())).message(),
        "connect to ptywright serve socket /tmp/p.sock: odd"
    );
}

// ---- history ------------------------------------------------------------

#[test]
fn open_creates_parent_directory_and_file() {
    let history = ReplHistory::open("");
    assert!(history.is_empty());
    assert_eq!(history.capacity, DEFAULT_CAPACITY);
}

#[test]
fn push_persists_and_dedupes_consecutive_entries() {
    let mut history = ReplHistory::open("");
    assert!(history.push("alpha"));
    assert!(!history.push("alpha"));
    assert!(history.push("beta"));
    assert_eq!(history.len(), 2);
    let reopened = ReplHistory::open(&history.file_text());
    assert_eq!(
        reopened.entries().iter().map(String::as_str).collect::<Vec<_>>(),
        vec!["alpha", "beta"]
    );
}

#[test]
fn nth_back_walks_newest_first() {
    let mut history = ReplHistory::open("");
    history.push("one");
    history.push("two");
    history.push("three");
    assert_eq!(history.nth_back(0).map(String::as_str), Some("three"));
    assert_eq!(history.nth_back(1).map(String::as_str), Some("two"));
    assert_eq!(history.nth_back(2).map(String::as_str), Some("one"));
    assert_eq!(history.nth_back(3), None);
}

#[test]
fn push_trims_to_capacity() {
    let mut history = ReplHistory::open("");
    history.capacity = 3;
    for n in 0..5 {
        history.push(&format!("cmd-{n}"));
    }
    assert_eq!(history.len(), 3);
    assert_eq!(history.nth_back(0).map(String::as_str), Some("cmd-4"));
    assert_eq!(history.nth_back(2).map(String::as_str), Some("cmd-2"));
}

#[test]
fn line_ends_do_not_reach_the_history() {
    let mut history = ReplHistory::open("old\r\n\nnew\n");
    assert_eq!(history.entries(), &vec!["old".to_string(), "new".to_string()]);
    assert!(!history.push("\r\n"));
    assert!(!history.push("new\n"));
    assert!(history.push("next\r\n"));
    assert_eq!(history.file_text(), "old\nnew\nnext\n");
    assert_eq!(read_lines("a\n\nb"), vec!["a", "b"]);
}

// ---- tips ---------------------------------------------------------------

#[test]
fn rotating_set_is_non_empty_and_one_line_each() {
    let tips = rotating_tips();
    assert!(!tips.is_empty());
    assert_eq!(tips.len() as u64, TIP_COUNT as u64);
    for tip in tips {
        assert!(!tip.contains('\n'), "rotating tip must fit on one line, got: {tip}");
        assert!(
            tip.chars().count() <= 120,
            "rotating tip too long ({} chars): {tip}",
            tip.chars().count(),
        );
    }
}

#[test]
fn rotating_tip_for_is_deterministic_per_seed() {
    let a = rotating_tip_for(7);
    let b = rotating_tip_for(7);
    assert_eq!(a, b, "same seed must give same tip");
}

#[test]
fn rotating_tip_for_cycles_through_set() {
    let tips = rotating_tips();
    let mut seen: std::collections::HashSet<&'static str> = Default::default();
    for seed in 0..(tips.len() as u64) {
        seen.insert(rotating_tip_for(seed));
    }
    assert_eq!(seen.len(), tips.len(), "every tip must be reachable");
    assert_eq!(rotating_tip_for(u64::MAX), tips[(u64::MAX % tips.len() as u64) as usize]);
}

#[test]
fn long_guide_mentions_each_load_bearing_idiom() {
    let g = long_guide();
    for needle in [
        "plugins()",
        "session.spawn",
        "send.text",
        "wait(matches",
        "turn{",
        "view()",
        "transcript.snapshot",
        ":tabs",
        ":focus",
        ":rpc",
        ":help",
    ] {
        assert!(g.contains(needle), "guide should mention `{needle}`: {g}");
    }
}

// ---- named entries ------------------------------------------------------

#[test]
fn fields_keep_their_names_in_order() {
    let mut fields: Fields<u8> = Fields::new();
    assert!(fields.is_empty());
    fields.insert("b".into(), 2);
    fields.insert("a".into(), 1);
    fields.insert("b".into(), 3);
    assert_eq!(fields.len(), 2);
    assert_eq!(fields.name_at(0), "a");
    assert_eq!(fields.value_at(1), &3);
    fields.remove("a");
    fields.remove("nope");
    assert_eq!(fields.get("a"), None);
    assert_eq!(fields.get("b"), Some(&3));
}

#[test]
fn servers_are_waited_for_until_their_time_is_up() {
    let timeout = Duration::from_millis(200);
    let step = |millis, connected| wait_step(&Duration::from_millis(millis), &timeout, connected);
    assert_eq!(step(0, false), WaitStep::Again(Duration::from_millis(50)));
    assert_eq!(step(199, false), WaitStep::Again(Duration::from_millis(50)));
    assert_eq!(step(200, false), WaitStep::GaveUp);
    assert_eq!(step(10_000, false), WaitStep::GaveUp);
    assert_eq!(step(0, true), WaitStep::Ready);
    let nearly = Duration::new(0, 199_999_999);
    assert!(nearly.is_before(&timeout) && !timeout.is_before(&timeout));
    assert_eq!(wait_step(&nearly, &timeout, false), WaitStep::Again(Duration::from_millis(50)));
    assert!(Duration::new(1, 0).is_before(&Duration::from_secs(2)));
    assert!(!Duration::new(2, 0).is_before(&Duration::new(1, 5)));
}
