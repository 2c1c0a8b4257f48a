//! What there is to complete.

use crate::text::{same, texts};
use vstd::prelude::*;

verus! {

broadcast use vstd::string::group_string_axioms;

/// What the rows of a table say.
pub open spec fn row_texts(rows: Seq<(&'static str, &'static str)>) -> Seq<(Seq<char>, Seq<char>)> {
    rows.map_values(|r: (&'static str, &'static str)| (r.0@, r.1@))
}

/// The keys that can be sent, the most used first, each with a hint.
pub open spec fn key_names() -> Seq<(Seq<char>, Seq<char>)> {
    seq![
        ("enter"@, "↩ submit"@),
        ("escape"@, "⎋ cancel"@),
        ("tab"@, "↹"@),
        ("shift-tab"@, "⇧↹ back-tab"@),
        ("backspace"@, "⌫"@),
        ("delete"@, "⌦"@),
        ("space"@, "␣"@),
        ("up"@, "↑"@),
        ("down"@, "↓"@),
        ("left"@, "←"@),
        ("right"@, "→"@),
        ("home"@, "⤒ line / page start"@),
        ("end"@, "⤓ line / page end"@),
        ("page-up"@, "PgUp"@),
        ("page-down"@, "PgDn"@),
        ("insert"@, "Ins"@),
        ("ctrl-c"@, "interrupt"@),
        ("ctrl-d"@, "EOF"@),
        ("ctrl-l"@, "clear / refresh"@),
        ("ctrl-r"@, "reverse search"@),
        ("ctrl-u"@, "kill to line start"@),
        ("ctrl-w"@, "kill previous word"@),
        ("ctrl-a"@, "line start"@),
        ("ctrl-e"@, "line end"@),
        ("ctrl-k"@, "kill to line end"@),
        ("ctrl-y"@, "yank"@),
        ("ctrl-z"@, "suspend"@),
        ("ctrl-b"@, "back one char"@),
        ("ctrl-f"@, "forward one char"@),
        ("ctrl-g"@, "bell / cancel"@),
        ("ctrl-n"@, "next line / history forward"@),
        ("ctrl-o"@, "newline-and-yank"@),
        ("ctrl-p"@, "previous line / history back"@),
        ("ctrl-q"@, "quoted-insert / XON"@),
        ("ctrl-s"@, "forward search / XOFF"@),
        ("ctrl-t"@, "transpose chars"@),
        ("ctrl-v"@, "verbatim-insert"@),
        ("ctrl-x"@, "chord prefix"@),
        ("f1"@, ""@),
        ("f2"@, ""@),
        ("f3"@, ""@),
        ("f4"@, ""@),
        ("f5"@, ""@),
        ("f6"@, ""@),
        ("f7"@, ""@),
        ("f8"@, ""@),
        ("f9"@, ""@),
        ("f10"@, ""@),
        ("f11"@, ""@),
        ("f12"@, ""@),
        ("y"@, "yes (sent as text)"@),
        ("n"@, "no (sent as text)"@),
        ("1"@, "first numeric option (sent as text)"@),
        ("2"@, "second numeric option (sent as text)"@),
    ]
}

/// The keys that can be sent, the most used first, each with a hint.
pub(crate) fn key_rows() -> (r: Vec<(&'static str, &'static str)>)
    ensures
        row_texts(r@) == key_names(),
{
    let r: Vec<(&'static str, &'static str)> = vec![
        ("enter", "↩ submit"),
        ("escape", "⎋ cancel"),
        ("tab", "↹"),
        ("shift-tab", "⇧↹ back-tab"),
        ("backspace", "⌫"),
        ("delete", "⌦"),
        ("space", "␣"),
        ("up", "↑"),
        ("down", "↓"),
        ("left", "←"),
        ("right", "→"),
        ("home", "⤒ line / page start"),
        ("end", "⤓ line / page end"),
        ("page-up", "PgUp"),
        ("page-down", "PgDn"),
        ("insert", "Ins"),
        ("ctrl-c", "interrupt"),
        ("ctrl-d", "EOF"),
        ("ctrl-l", "clear / refresh"),
        ("ctrl-r", "reverse search"),
        ("ctrl-u", "kill to line start"),
        ("ctrl-w", "kill previous word"),
        ("ctrl-a", "line start"),
        ("ctrl-e", "line end"),
        ("ctrl-k", "kill to line end"),
        ("ctrl-y", "yank"),
        ("ctrl-z", "suspend"),
        ("ctrl-b", "back one char"),
        ("ctrl-f", "forward one char"),
        ("ctrl-g", "bell / cancel"),
        ("ctrl-n", "next line / history forward"),
        ("ctrl-o", "newline-and-yank"),
        ("ctrl-p", "previous line / history back"),
        ("ctrl-q", "quoted-insert / XON"),
        ("ctrl-s", "forward search / XOFF"),
        ("ctrl-t", "transpose chars"),
        ("ctrl-v", "verbatim-insert"),
        ("ctrl-x", "chord prefix"),
        ("f1", ""),
        ("f2", ""),
        ("f3", ""),
        ("f4", ""),
        ("f5", ""),
        ("f6", ""),
        ("f7", ""),
        ("f8", ""),
        ("f9", ""),
        ("f10", ""),
        ("f11", ""),
        ("f12", ""),
        ("y", "yes (sent as text)"),
        ("n", "no (sent as text)"),
        ("1", "first numeric option (sent as text)"),
        ("2", "second numeric option (sent as text)"),
    ];
    assert(row_texts(r@) =~= key_names());
    r
}

/// What the functions of the client do, by their names.
pub open spec fn descriptions() -> Seq<(Seq<char>, Seq<char>)> {
    seq![
        ("plugins"@, "list / describe built-in plugins"@),
        ("plugins.describe"@, "describe a plugin's intents / matchers / states"@),
        ("session"@, "spawn / list / attach / close adapters"@),
        ("session.spawn"@, "spawn an adapter for a plugin"@),
        ("session.resume"@, "resume + close prior adapter"@),
        ("session.list"@, "list local adapter tabs (this REPL)"@),
        ("session.live"@, "list adapters live on the server"@),
        ("session.attach"@, "adopt a server-side adapter (or `all`)"@),
        ("session.close"@, "close the focused (or named) adapter"@),
        ("send"@, "drive the focused adapter (text / key / intent)"@),
        ("send.text"@, "send a prompt (intent=send_prompt)"@),
        ("send.key"@, "send a single named key (enter, shift-tab, …)"@),
        ("send.intent"@, "invoke an arbitrary plugin intent by name"@),
        ("wait"@, "wait for a matcher · also wait.matches / wait.screen_stable"@),
        ("wait.matches"@, "shorthand: wait for a regex match"@),
        ("wait.screen_stable"@, "shorthand: wait for screen stability (ms)"@),
        ("matches"@, "regex matcher constructor (tagged table)"@),
        ("screen_stable"@, "screen-stability matcher constructor (tagged table)"@),
        ("cancel_wait"@, "break a still-in-flight wait by wait_id"@),
        ("turn"@, "atomic adapter.turn (send + wait_turn_matcher)"@),
        ("state"@, "re-classify the focused adapter"@),
        ("transcript"@, "transcript queries · .snapshot()"@),
        ("transcript.snapshot"@, "dump the focused adapter's transcript"@),
        ("screen"@, "screen queries · .snapshot()"@),
        ("screen.snapshot"@, "render the focused PTY inline (styled)"@),
        ("view"@, "alias for screen.snapshot()"@),
        ("inspect"@, "diagnostic adapter.inspect dump"@),
        ("re"@, "identity helper · re('…') documents regex intent"@),
        ("ms"@, "identity helper · ms(N) documents milliseconds"@),
        ("s"@, "seconds → milliseconds · s(2) = 2000"@),
    ]
}

/// What the functions of the client do, by their names.
pub(crate) fn description_rows() -> (r: Vec<(&'static str, &'static str)>)
    ensures
        row_texts(r@) == descriptions(),
{
    let r: Vec<(&'static str, &'static str)> = vec![
        ("plugins", "list / describe built-in plugins"),
        ("plugins.describe", "describe a plugin's intents / matchers / states"),
        ("session", "spawn / list / attach / close adapters"),
        ("session.spawn", "spawn an adapter for a plugin"),
        ("session.resume", "resume + close prior adapter"),
        ("session.list", "list local adapter tabs (this REPL)"),
        ("session.live", "list adapters live on the server"),
        ("session.attach", "adopt a server-side adapter (or `all`)"),
        ("session.close", "close the focused (or named) adapter"),
        ("send", "drive the focused adapter (text / key / intent)"),
        ("send.text", "send a prompt (intent=send_prompt)"),
        ("send.key", "send a single named key (enter, shift-tab, …)"),
        ("send.intent", "invoke an arbitrary plugin intent by name"),
        ("wait", "wait for a matcher · also wait.matches / wait.screen_stable"),
        ("wait.matches", "shorthand: wait for a regex match"),
        ("wait.screen_stable", "shorthand: wait for screen stability (ms)"),
        ("matches", "regex matcher constructor (tagged table)"),
        ("screen_stable", "screen-stability matcher constructor (tagged table)"),
        ("cancel_wait", "break a still-in-flight wait by wait_id"),
        ("turn", "atomic adapter.turn (send + wait_turn_matcher)"),
        ("state", "re-classify the focused adapter"),
        ("transcript", "transcript queries · .snapshot()"),
        ("transcript.snapshot", "dump the focused adapter's transcript"),
        ("screen", "screen queries · .snapshot()"),
        ("screen.snapshot", "render the focused PTY inline (styled)"),
        ("view", "alias for screen.snapshot()"),
        ("inspect", "diagnostic adapter.inspect dump"),
        ("re", "identity helper · re('…') documents regex intent"),
        ("ms", "identity helper · ms(N) documents milliseconds"),
        ("s", "seconds → milliseconds · s(2) = 2000"),
    ];
    assert(row_texts(r@) =~= descriptions());
    r
}

/// The meta commands.
pub open spec fn meta_commands() -> Seq<(Seq<char>, Seq<char>)> {
    seq![
        (":tabs"@, "list adapters"@),
        (":focus"@, "switch focus to an adapter id"@),
        (":live"@, "list adapters live on the server"@),
        (":attach"@, "attach a server adapter (id or `all`)"@),
        (":notifications on"@, "subscribe to session.* notifications"@),
        (":notifications on adapters="@, "subscribe; filter to named adapters"@),
        (":notifications on sessions="@, "subscribe; filter to named sessions"@),
        (":notifications off"@, "unsubscribe"@),
        (":rpc "@, "raw JSON-RPC escape hatch"@),
        (":tips"@, "guided tour of the most useful idioms"@),
        (":help"@, "show help"@),
        (":quit"@, "exit the REPL"@),
    ]
}

/// The meta commands.
pub(crate) fn meta_rows() -> (r: Vec<(&'static str, &'static str)>)
    ensures
        row_texts(r@) == meta_commands(),
{
    let r: Vec<(&'static str, &'static str)> = vec![
        (":tabs", "list adapters"),
        (":focus", "switch focus to an adapter id"),
        (":live", "list adapters live on the server"),
        (":attach", "attach a server adapter (id or `all`)"),
        (":notifications on", "subscribe to session.* notifications"),
        (":notifications on adapters=", "subscribe; filter to named adapters"),
        (":notifications on sessions=", "subscribe; filter to named sessions"),
        (":notifications off", "unsubscribe"),
        (":rpc ", "raw JSON-RPC escape hatch"),
        (":tips", "guided tour of the most useful idioms"),
        (":help", "show help"),
        (":quit", "exit the REPL"),
    ];
    assert(row_texts(r@) =~= meta_commands());
    r
}

/// The functions that are always called without arguments.
pub open spec fn nullary_names() -> Seq<Seq<char>> {
    seq![
        "view"@,
        "state"@,
        "inspect"@,
        "plugins"@,
        "session.list"@,
        "session.live"@,
        "screen.snapshot"@,
    ]
}

/// Whether a function is always called without arguments.
pub fn is_nullary(name: &str) -> (r: bool)
    ensures
        r == nullary_names().contains(name@),
{
    let list: Vec<String> = vec![
        "view".to_owned(),
        "state".to_owned(),
        "inspect".to_owned(),
        "plugins".to_owned(),
        "session.list".to_owned(),
        "session.live".to_owned(),
        "screen.snapshot".to_owned(),
    ];
    assert(texts(list@) =~= nullary_names());
    crate::text::listed(&list, name)
}

/// What stands in the first row of a name, from the `i`-th row on.
pub open spec fn row_of(rows: Seq<(Seq<char>, Seq<char>)>, name: Seq<char>, i: int) -> Option<
    Seq<char>,
>
    decreases rows.len() - i,
{
    if i < 0 || i >= rows.len() {
        None
    } else if rows[i].0 == name {
        Some(rows[i].1)
    } else {
        row_of(rows, name, i + 1)
    }
}

/// What a function does.
pub open spec fn description(name: Seq<char>) -> Option<Seq<char>> {
    row_of(descriptions(), name, 0)
}

/// What a function does.
pub fn description_for(name: &str) -> (r: Option<String>)
    ensures
        crate::ctx::opt_text(r) == description(name@),
{
    let rows: Vec<(&'static str, &'static str)> = description_rows();
    let ghost all = row_texts(rows@);
    let mut i: usize = 0;
    while i < rows.len()
        invariant
            i <= rows@.len(),
            all == row_texts(rows@),
            all == descriptions(),
            description(name@) == row_of(all, name@, i as int),
        decreases rows@.len() - i,
    {
        let row: (&'static str, &'static str) = rows[i];
        assert(all[i as int] == (row.0@, row.1@));
        if same(row.0, name) {
            return Some(row.1.to_owned());
        }
        i += 1;
    }
    None
}

} // verus!
