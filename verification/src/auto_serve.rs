//! A server that the client starts by itself.

use crate::args::Framing;
use crate::duration::{duration_debug, Duration};
use crate::error::{Error, ErrorModel};
use crate::lower::{lowered, lowered_text};
use crate::text::{decimal, decimal_text, same, texts, trim, trimmed};
use vstd::prelude::*;

verus! {

broadcast use vstd::string::group_string_axioms;

/// How a framing is named on the command line.
pub open spec fn framing_name(framing: Framing) -> Seq<char> {
    match framing {
        Framing::Ndjson => "ndjson"@,
        Framing::Lsp => "lsp"@,
    }
}

/// How a framing is named on the command line.
pub fn framing_cli_arg(framing: Framing) -> (r: &'static str)
    ensures
        r@ == framing_name(framing),
{
    match framing {
        Framing::Ndjson => "ndjson",
        Framing::Lsp => "lsp",
    }
}

/// The arguments with which the server is started: it speaks as the client
/// does.
pub fn serve_args(path: &str, framing: Framing) -> (r: Vec<String>)
    ensures
        texts(r@) == seq!["serve"@, "--socket"@, path@, "--framing"@, framing_name(framing)],
{
    let r: Vec<String> = vec![
        "serve".to_owned(),
        "--socket".to_owned(),
        path.to_owned(),
        "--framing".to_owned(),
        framing_cli_arg(framing).to_owned(),
    ];
    assert(texts(r@) =~= seq![
        "serve"@,
        "--socket"@,
        path@,
        "--framing"@,
        framing_name(framing),
    ]);
    r
}

/// How many seconds a server may take until it listens.
pub const SERVER_READY_SECS: u64 = 5;

/// How many milliseconds pass between two looks at a server that starts.
pub const WAIT_STEP_MILLIS: u64 = 50;

/// What comes next while a server starts.
#[derive(Debug, Clone, Copy, PartialEq, Eq)]
pub enum WaitStep {
    /// It listens.
    Ready,
    /// It is looked at again after a while.
    Again(Duration),
    /// It has taken too long.
    GaveUp,
}

/// What comes next once a server that starts has been looked at. `waited` is
/// how long it had taken before the look, and `connected` says that it took a
/// connection.
pub fn wait_step(waited: &Duration, timeout: &Duration, connected: bool) -> (r: WaitStep)
    ensures
        match r {
            WaitStep::Ready => connected,
            WaitStep::Again(pause) => !connected && waited.before(*timeout) && pause.millis()
                == WAIT_STEP_MILLIS && pause.subsecond_nanos() == WAIT_STEP_MILLIS * 1_000_000,
            WaitStep::GaveUp => !connected && !waited.before(*timeout),
        },
{
    if connected {
        WaitStep::Ready
    } else if waited.is_before(timeout) {
        WaitStep::Again(Duration::from_millis(WAIT_STEP_MILLIS))
    } else {
        WaitStep::GaveUp
    }
}

/// What is said before the server is started.
pub fn starting_notice(path: &str) -> (r: String)
    ensures
        r@ == "ptywright: no server at "@ + path@ + " — starting one in the background…"@,
{
    let mut text: String = "ptywright: no server at ".to_owned();
    text.push_str(path);
    text.push_str(" — starting one in the background…");
    text
}

/// What is said when the server listens.
pub fn ready_notice(pid: u32, path: &str) -> (r: String)
    ensures
        r@ == "ptywright: server ready · pid "@ + decimal(pid as nat) + " · socket "@ + path@,
{
    let mut text: String = "ptywright: server ready · pid ".to_owned();
    text.push_str(decimal_text(pid as u128).as_str());
    text.push_str(" · socket ");
    text.push_str(path);
    text
}

/// What is said of a server that does not listen in time.
pub fn not_ready_error(path: &str, timeout: &Duration) -> (r: Error)
    ensures
        r@ == ErrorModel::Rpc(
            "auto-server: socket "@ + path@ + " did not start accepting connections within "@
                + duration_debug(timeout.whole_seconds() as u64, timeout.subsecond_nanos() as u32),
        ),
{
    let mut text: String = "auto-server: socket ".to_owned();
    text.push_str(path);
    text.push_str(" did not start accepting connections within ");
    text.push_str(timeout.debug_text().as_str());
    Error::Rpc(text)
}

/// What is said of a server that still runs when the client ends.
pub fn running_notice(pid: u32, path: &str) -> (r: String)
    ensures
        r@ == "ptywright: auto-started server still running · pid "@ + decimal(pid as nat)
            + " · socket "@ + path@,
{
    let mut text: String = "ptywright: auto-started server still running · pid ".to_owned();
    text.push_str(decimal_text(pid as u128).as_str());
    text.push_str(" · socket ");
    text.push_str(path);
    text
}

/// What is said of a server that is left running.
pub fn detach_notice(pid: u32, path: &str) -> (r: String)
    ensures
        r@ == "ptywright: detaching · server still listening on "@ + path@ + " · pid "@ + decimal(
            pid as nat,
        ),
{
    let mut text: String = "ptywright: detaching · server still listening on ".to_owned();
    text.push_str(path);
    text.push_str(" · pid ");
    text.push_str(decimal_text(pid as u128).as_str());
    text
}

/// The answers that leave the server running.
pub open spec fn detaching(answer: Seq<char>) -> bool {
    let word = lowered(trim(answer));
    word == "n"@ || word == "no"@ || word == "d"@ || word == "detach"@ || word == "leave"@
}

/// Whether the server is left running. It is shut down unless the operator
/// was asked and answered so; `None` stands for no answer.
pub fn detaches(answer: Option<&str>) -> (r: bool)
    ensures
        r == (match answer {
            Some(line) => detaching(line@),
            None => false,
        }),
{
    match answer {
        Some(line) => {
            let word: String = lowered_text(trimmed(line).as_str());
            let w: &str = word.as_str();
            same(w, "n") || same(w, "no") || same(w, "d") || same(w, "detach") || same(w, "leave")
        },
        None => false,
    }
}

} // verus!
