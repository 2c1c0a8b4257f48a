//! What calls ask of the server, field by field.

use crate::command::arg::{ArgModel, CallModel};
use crate::command::dispatch::{dsl_step, send_only, PendingModel, RequestModel, StepModel};
use crate::ctx::CtxModel;
use crate::duration::Duration;
use crate::fields::{increasing, lookup, lookup_push};
use crate::json::{group_json_fields, no_fields, JsonModel};
use crate::text::join;
use vstd::prelude::*;

verus! {

broadcast use group_json_fields;

/// Whether an object has no fields but those named.
pub open spec fn only_fields(j: JsonModel, names: Seq<Seq<char>>) -> bool {
    j is Obj && forall|name: Seq<char>|
        !names.contains(name) ==> (#[trigger] j.field(name)) is None
}

/// Whether a call names a function and gives a string first.
pub open spec fn calls_with(call: CallModel, path: Seq<char>, first: Seq<char>) -> bool {
    &&& join(call.path, "."@) == path
    &&& call.positional.len() > 0
    &&& call.positional[0] == ArgModel::String(first)
}

/// No two paths of calls are alike.
pub(crate) proof fn paths_differ()
    ensures
        "turn"@.len() == 4,
        "turn"@[0] == 't',
        "wait"@.len() == 4,
        "wait"@[0] == 'w',
        "view"@.len() == 4,
        "view"@[0] == 'v',
        "state"@.len() == 5,
        "plugins"@.len() == 7,
        "plugins"@[0] == 'p',
        "inspect"@.len() == 7,
        "inspect"@[0] == 'i',
        "matches"@.len() == 7,
        "matches"@[0] == 'm',
        "send.key"@.len() == 8,
        "send.text"@.len() == 9,
        "send.intent"@.len() == 11,
        "send.intent"@[1] == 'e',
        "cancel_wait"@.len() == 11,
        "cancel_wait"@[1] == 'a',
        "screen.view"@.len() == 11,
        "screen.view"@[1] == 'c',
        "session.live"@.len() == 12,
        "session.live"@[10] == 'v',
        "session.list"@.len() == 12,
        "session.list"@[10] == 's',
        "wait.matches"@.len() == 12,
        "wait.matches"@[10] == 'e',
        "session.spawn"@.len() == 13,
        "session.spawn"@[8] == 's',
        "session.close"@.len() == 13,
        "session.close"@[8] == 'c',
        "screen_stable"@.len() == 13,
        "screen_stable"@[8] == 't',
        "session.resume"@.len() == 14,
        "session.resume"@[8] == 'r',
        "session.attach"@.len() == 14,
        "session.attach"@[8] == 'a',
        "screen.snapshot"@.len() == 15,
        "plugins.describe"@.len() == 16,
        "wait.screen_stable"@.len() == 18,
        "transcript.snapshot"@.len() == 19,
{
    reveal_strlit("turn");
    reveal_strlit("wait");
    reveal_strlit("view");
    reveal_strlit("state");
    reveal_strlit("plugins");
    reveal_strlit("inspect");
    reveal_strlit("matches");
    reveal_strlit("send.key");
    reveal_strlit("send.text");
    reveal_strlit("send.intent");
    reveal_strlit("cancel_wait");
    reveal_strlit("screen.view");
    reveal_strlit("session.live");
    reveal_strlit("session.list");
    reveal_strlit("wait.matches");
    reveal_strlit("session.spawn");
    reveal_strlit("session.close");
    reveal_strlit("screen_stable");
    reveal_strlit("session.resume");
    reveal_strlit("session.attach");
    reveal_strlit("screen.snapshot");
    reveal_strlit("plugins.describe");
    reveal_strlit("wait.screen_stable");
    reveal_strlit("transcript.snapshot");
}

/// No two names in requests are alike.
pub(crate) proof fn names_differ()
    ensures
        "key"@.len() == 3,
        "key"@[0] == 'k',
        "cwd"@.len() == 3,
        "cwd"@[0] == 'c',
        "env"@.len() == 3,
        "env"@[0] == 'e',
        "send"@.len() == 4,
        "send"@[0] == 's',
        "wait"@.len() == 4,
        "wait"@[0] == 'w',
        "args"@.len() == 4,
        "args"@[0] == 'a',
        "rows"@.len() == 4,
        "rows"@[0] == 'r',
        "cols"@.len() == 4,
        "cols"@[0] == 'c',
        "prior"@.len() == 5,
        "intent"@.len() == 6,
        "intent"@[1] == 'n',
        "params"@.len() == 6,
        "params"@[1] == 'a',
        "redact"@.len() == 6,
        "redact"@[1] == 'e',
        "plugin"@.len() == 6,
        "plugin"@[1] == 'l',
        "prompt"@.len() == 6,
        "prompt"@[1] == 'r',
        "adapter"@.len() == 7,
        "adapter"@[2] == 'a',
        "wait_id"@.len() == 7,
        "wait_id"@[2] == 'i',
        "pattern"@.len() == 7,
        "pattern"@[2] == 't',
        "program"@.len() == 7,
        "program"@[2] == 'o',
        "timeout"@.len() == 7,
        "timeout"@[2] == 'm',
        "stable_ms"@.len() == 9,
        "timeout_ms"@.len() == 10,
        "pixel_width"@.len() == 11,
        "pixel_width"@[0] == 'p',
        "wait_intent"@.len() == 11,
        "wait_intent"@[0] == 'w',
        "pixel_height"@.len() == 12,
        "prior_adapter"@.len() == 13,
{
    reveal_strlit("key");
    reveal_strlit("cwd");
    reveal_strlit("env");
    reveal_strlit("send");
    reveal_strlit("wait");
    reveal_strlit("args");
    reveal_strlit("rows");
    reveal_strlit("cols");
    reveal_strlit("prior");
    reveal_strlit("intent");
    reveal_strlit("params");
    reveal_strlit("redact");
    reveal_strlit("plugin");
    reveal_strlit("prompt");
    reveal_strlit("adapter");
    reveal_strlit("wait_id");
    reveal_strlit("pattern");
    reveal_strlit("program");
    reveal_strlit("timeout");
    reveal_strlit("stable_ms");
    reveal_strlit("timeout_ms");
    reveal_strlit("pixel_width");
    reveal_strlit("wait_intent");
    reveal_strlit("pixel_height");
    reveal_strlit("prior_adapter");
}

// ---- laws ---------------------------------------------------------------

/// `send.text` sends its text as a prompt to the focused adapter, and nothing
/// else.
pub proof fn texts_are_sent_as_prompts(
    call: CallModel,
    ctx: CtxModel,
    id: Seq<char>,
    text: Seq<char>,
)
    requires
        calls_with(call, "send.text"@, text),
        ctx.focus == Some(id),
    ensures
        match dsl_step(call, ctx) {
            StepModel::Call { request, pending } => {
                &&& request.method == "adapter.send"@
                &&& request.params.field("adapter"@) == Some(JsonModel::Str(id))
                &&& request.params.field("intent"@) == Some(JsonModel::Str("send_prompt"@))
                &&& request.params.field("params"@) == Some(
                    JsonModel::Obj(seq![("prompt"@, JsonModel::Str(text))]),
                )
                &&& only_fields(request.params, seq!["adapter"@, "intent"@, "params"@])
                &&& pending == PendingModel::SentText(text)
            },
            _ => false,
        },
{
    paths_differ();
    names_differ();
    assert(seq!["adapter"@, "intent"@, "params"@][0] == "adapter"@);
    assert(seq!["adapter"@, "intent"@, "params"@][1] == "intent"@);
    assert(seq!["adapter"@, "intent"@, "params"@][2] == "params"@);
}

/// `send.key` sends its text as the name of a key to the focused adapter.
pub proof fn keys_are_sent_as_keys(call: CallModel, ctx: CtxModel, id: Seq<char>, key: Seq<char>)
    requires
        calls_with(call, "send.key"@, key),
        ctx.focus == Some(id),
    ensures
        match dsl_step(call, ctx) {
            StepModel::Call { request, pending } => {
                &&& request.method == "adapter.send"@
                &&& request.params.field("adapter"@) == Some(JsonModel::Str(id))
                &&& request.params.field("intent"@) == Some(JsonModel::Str("key"@))
                &&& request.params.field("params"@) == Some(JsonModel::Obj(seq![("key"@, JsonModel::Str(key))]))
                &&& only_fields(request.params, seq!["adapter"@, "intent"@, "params"@])
                &&& pending == PendingModel::SentKey(key)
            },
            _ => false,
        },
{
    paths_differ();
    names_differ();
    assert(seq!["adapter"@, "intent"@, "params"@][0] == "adapter"@);
    assert(seq!["adapter"@, "intent"@, "params"@][1] == "intent"@);
    assert(seq!["adapter"@, "intent"@, "params"@][2] == "params"@);
}

/// `send.intent` sends the intent that it names to the focused adapter, with every
/// keyword argument as a parameter.
pub proof fn intents_are_sent_with_their_keywords(call: CallModel, ctx: CtxModel, id: Seq<char>, intent: Seq<char>, name: Seq<char>)
    requires
        calls_with(call, "send.intent"@, intent),
        ctx.focus == Some(id),
    ensures
        match dsl_step(call, ctx) {
            StepModel::Call { request, pending } => {
                &&& request.method == "adapter.send"@
                &&& request.params.field("adapter"@) == Some(JsonModel::Str(id))
                &&& request.params.field("intent"@) == Some(JsonModel::Str(intent))
                &&& request.params.inner_field("params"@, name) == match lookup(
                    call.kwargs,
                    name,
                ) {
                    Some(arg) => Some(arg.to_json()),
                    None => None,
                }
                &&& only_fields(request.params, seq!["adapter"@, "intent"@, "params"@])
                &&& pending == PendingModel::SentIntent(intent)
            },
            _ => false,
        },
{
    paths_differ();
    names_differ();
    assert(seq!["adapter"@, "intent"@, "params"@][0] == "adapter"@);
    assert(seq!["adapter"@, "intent"@, "params"@][1] == "intent"@);
    assert(seq!["adapter"@, "intent"@, "params"@][2] == "params"@);
    entries_are_found(call.kwargs, name);
}

/// `plugins` asks for all plugins.
pub proof fn plugins_are_listed(call: CallModel, ctx: CtxModel)
    requires
        join(call.path, "."@) == "plugins"@,
    ensures
        match dsl_step(call, ctx) {
            StepModel::Call { request, pending } => {
                &&& request.method == "adapter.list"@
                &&& request.params == JsonModel::Obj(Seq::empty())
                &&& pending == PendingModel::Json
            },
            _ => false,
        },
{
    paths_differ();
    names_differ();

}

/// `session.live` asks for all adapters that live.
pub proof fn live_adapters_are_listed(call: CallModel, ctx: CtxModel)
    requires
        join(call.path, "."@) == "session.live"@,
    ensures
        match dsl_step(call, ctx) {
            StepModel::Call { request, pending } => {
                &&& request.method == "adapter.live"@
                &&& request.params == JsonModel::Obj(Seq::empty())
                &&& pending == PendingModel::Json
            },
            _ => false,
        },
{
    paths_differ();
    names_differ();

}

/// `plugins.describe` asks for the plugin that it names.
pub proof fn plugins_are_described(call: CallModel, ctx: CtxModel, name: Seq<char>)
    requires
        calls_with(call, "plugins.describe"@, name),
    ensures
        match dsl_step(call, ctx) {
            StepModel::Call { request, pending } => {
                &&& request.method == "plugin.describe"@
                &&& request.params.field("plugin"@) == Some(JsonModel::Str(name))
                &&& only_fields(request.params, seq!["plugin"@])
                &&& pending == PendingModel::Json
            },
            _ => false,
        },
{
    paths_differ();
    names_differ();
    assert(seq!["plugin"@][0] == "plugin"@);
}

/// `cancel_wait` names the wait to break.
pub proof fn waits_are_cancelled_by_their_id(call: CallModel, ctx: CtxModel, name: Seq<char>)
    requires
        calls_with(call, "cancel_wait"@, name),
    ensures
        match dsl_step(call, ctx) {
            StepModel::Call { request, pending } => {
                &&& request.method == "adapter.cancel_wait"@
                &&& request.params.field("wait_id"@) == Some(JsonModel::Str(name))
                &&& only_fields(request.params, seq!["wait_id"@])
                &&& pending == PendingModel::Json
            },
            _ => false,
        },
{
    paths_differ();
    names_differ();
    assert(seq!["wait_id"@][0] == "wait_id"@);
}

/// `state` asks for the state of the focused adapter.
pub proof fn the_state_is_asked_for(call: CallModel, ctx: CtxModel, id: Seq<char>)
    requires
        join(call.path, "."@) == "state"@,
        ctx.focus == Some(id),
    ensures
        match dsl_step(call, ctx) {
            StepModel::Call { request, pending } => {
                &&& request.method == "adapter.state"@
                &&& request.params.field("adapter"@) == Some(JsonModel::Str(id))
                &&& only_fields(request.params, seq!["adapter"@])
                &&& pending == PendingModel::Json
            },
            _ => false,
        },
{
    paths_differ();
    names_differ();
    assert(seq!["adapter"@][0] == "adapter"@);
}

/// `inspect` asks for all that is known of the focused adapter.
pub proof fn inspection_is_asked_for(call: CallModel, ctx: CtxModel, id: Seq<char>)
    requires
        join(call.path, "."@) == "inspect"@,
        ctx.focus == Some(id),
    ensures
        match dsl_step(call, ctx) {
            StepModel::Call { request, pending } => {
                &&& request.method == "adapter.inspect"@
                &&& request.params.field("adapter"@) == Some(JsonModel::Str(id))
                &&& only_fields(request.params, seq!["adapter"@])
                &&& pending == PendingModel::Json
            },
            _ => false,
        },
{
    paths_differ();
    names_differ();
    assert(seq!["adapter"@][0] == "adapter"@);
}

/// `transcript.snapshot` asks for the transcript of the focused adapter, redacted
/// unless `redact=false` is given.
pub proof fn transcripts_are_redacted_unless_told(call: CallModel, ctx: CtxModel, id: Seq<char>)
    requires
        join(call.path, "."@) == "transcript.snapshot"@,
        ctx.focus == Some(id),
    ensures
        match dsl_step(call, ctx) {
            StepModel::Call { request, pending } => {
                &&& request.method == "adapter.transcript"@
                &&& request.params.field("adapter"@) == Some(JsonModel::Str(id))
                &&& request.params.field("redact"@) == Some(JsonModel::Bool(lookup(call.kwargs, "redact"@) != Some(ArgModel::Bool(false))))
                &&& only_fields(request.params, seq!["adapter"@, "redact"@])
                &&& pending == PendingModel::Transcript
            },
            _ => false,
        },
{
    paths_differ();
    names_differ();
    assert(seq!["adapter"@, "redact"@][0] == "adapter"@);
    assert(seq!["adapter"@, "redact"@][1] == "redact"@);
}

/// `screen.snapshot` and its other names ask for the picture of the focused adapter
/// as it is.
pub proof fn pictures_are_asked_for(call: CallModel, ctx: CtxModel, id: Seq<char>)
    requires
        join(call.path, "."@) == "screen.snapshot"@ || join(call.path, "."@) == "screen.view"@
            || join(call.path, "."@) == "view"@,
        ctx.focus == Some(id),
    ensures
        match dsl_step(call, ctx) {
            StepModel::Call { request, pending } => {
                &&& request.method == "adapter.snapshot"@
                &&& request.params.field("adapter"@) == Some(JsonModel::Str(id))
                &&& request.params.field("redact"@) == Some(JsonModel::Bool(false))
                &&& only_fields(request.params, seq!["adapter"@, "redact"@])
                &&& pending == PendingModel::Screen(id)
            },
            _ => false,
        },
{
    paths_differ();
    names_differ();
    assert(seq!["adapter"@, "redact"@][0] == "adapter"@);
    assert(seq!["adapter"@, "redact"@][1] == "redact"@);
}

/// `session.attach` with an id asks for the state of that adapter.
pub proof fn attaching_one_asks_for_its_state(call: CallModel, ctx: CtxModel, id: Seq<char>)
    requires
        calls_with(call, "session.attach"@, id),
        id != "all"@,
    ensures
        match dsl_step(call, ctx) {
            StepModel::Call { request, pending } => {
                &&& request.method == "adapter.state"@
                &&& request.params.field("adapter"@) == Some(JsonModel::Str(id))
                &&& only_fields(request.params, seq!["adapter"@])
                &&& pending == PendingModel::AttachOne(id)
            },
            _ => false,
        },
{
    paths_differ();
    names_differ();
    assert(seq!["adapter"@][0] == "adapter"@);
}

/// `session.attach` with `"all"` or with nothing asks for all adapters that live.
pub proof fn attaching_all_asks_for_the_live_ones(call: CallModel, ctx: CtxModel)
    requires
        join(call.path, "."@) == "session.attach"@,
        call.positional.len() == 0 || call.positional[0] == ArgModel::String("all"@),
    ensures
        match dsl_step(call, ctx) {
            StepModel::Call { request, pending } => {
                &&& request.method == "adapter.live"@
                &&& request.params == JsonModel::Obj(Seq::empty())
                &&& pending == PendingModel::AttachAll
            },
            _ => false,
        },
{
    paths_differ();
    names_differ();

}

/// `session.close` closes the adapter that it names, and the focused one if it names
/// none.
pub proof fn the_named_adapter_is_closed(call: CallModel, ctx: CtxModel, id: Seq<char>)
    requires
        join(call.path, "."@) == "session.close"@,
        if call.positional.len() > 0 {
            call.positional[0] == ArgModel::String(id)
        } else {
            ctx.focus == Some(id)
        },
    ensures
        match dsl_step(call, ctx) {
            StepModel::Call { request, pending } => {
                &&& request.method == "adapter.close"@
                &&& request.params.field("adapter"@) == Some(JsonModel::Str(id))
                &&& only_fields(request.params, seq!["adapter"@])
                &&& pending == PendingModel::Closed(id)
            },
            _ => false,
        },
{
    paths_differ();
    names_differ();
    assert(seq!["adapter"@][0] == "adapter"@);
}

/// Whether an argument asks to wait for a pattern.
pub open spec fn awaits_pattern(arg: ArgModel, pattern: Seq<char>) -> bool {
    ||| arg == ArgModel::Regex(pattern)
    ||| arg matches ArgModel::Call(call) && join(call.path, "."@) == "matches"@
        && call.positional.len() > 0 && (call.positional[0] == ArgModel::Regex(pattern)
        || call.positional[0] == ArgModel::String(pattern))
}

/// Whether an argument asks to wait until the screen is still for so long.
pub open spec fn awaits_stillness(arg: ArgModel, time: Duration) -> bool {
    ||| arg == ArgModel::Duration(time)
    ||| arg matches ArgModel::Call(call) && join(call.path, "."@) == "screen_stable"@
        && call.positional.len() > 0 && call.positional[0] == ArgModel::Duration(time)
}

/// Whether an object is what a matcher puts on the wire: the one field that
/// tells what is waited for.
pub open spec fn says_what_is_awaited(arg: ArgModel, params: JsonModel) -> bool {
    &&& forall|pattern: Seq<char>| #[trigger]
        awaits_pattern(arg, pattern) ==> params == JsonModel::Obj(
            seq![("pattern"@, JsonModel::Str(pattern))],
        )
    &&& forall|time: Duration| #[trigger]
        awaits_stillness(arg, time) && time.millis() <= u64::MAX ==> only_fields(
            params,
            seq!["stable_ms"@],
        ) && params.unsigned_field("stable_ms"@) == Some(time.millis() as u64)
}

/// Whether an argument asks to wait for something.
pub open spec fn awaits(arg: ArgModel) -> bool {
    (exists|pattern: Seq<char>| awaits_pattern(arg, pattern)) || (exists|time: Duration|
        awaits_stillness(arg, time))
}

/// Whether a length of time can stand in a request: its milliseconds take 64
/// bits.
pub open spec fn fits_the_wire(time: Duration) -> bool {
    time.millis() <= u64::MAX
}

proof fn entries_are_found(entries: Seq<(Seq<char>, ArgModel)>, name: Seq<char>)
    ensures
        lookup(crate::command::arg::entries_to_json(entries), name) == match lookup(
            entries,
            name,
        ) {
            Some(arg) => Some(arg.to_json()),
            None => None,
        },
    decreases entries.len(),
{
    if entries.len() > 0 {
        let init = entries.drop_last();
        entries_are_found(init, name);
        assert(entries =~= init.push(entries.last()));
        lookup_push(init, entries.last(), name);
        lookup_push(
            crate::command::arg::entries_to_json(init),
            (entries.last().0, entries.last().1.to_json()),
            name,
        );
    }
}

proof fn sent_entries_are_found(entries: Seq<(Seq<char>, JsonModel)>, name: Seq<char>)
    ensures
        lookup(send_only(entries), name) == if name == "wait"@ || name == "wait_intent"@ || name
            == "timeout"@ {
            None
        } else {
            lookup(entries, name)
        },
    decreases entries.len(),
{
    if entries.len() > 0 {
        let init = entries.drop_last();
        sent_entries_are_found(init, name);
        assert(entries =~= init.push(entries.last()));
        lookup_push(init, entries.last(), name);
        lookup_push(send_only(init), entries.last(), name);
    }
}

/// `turn` asks for one turn of the focused adapter. It sends the intent that it
/// names, with every keyword argument that is not about waiting. It waits with the
/// timeout that is given, whatever else is given; for what `wait` asks for; and by
/// the intent that `wait_intent` names, or else by that of matchers where there is a
/// matcher. Where nothing is said about waiting, nothing is asked.
pub proof fn turns_send_and_wait(call: CallModel, ctx: CtxModel, id: Seq<char>, intent: Seq<char>, name: Seq<char>)
    requires
        calls_with(call, "turn"@, intent),
        ctx.focus == Some(id),
        lookup(call.kwargs, "wait"@) matches Some(arg) ==> awaits(arg),
        lookup(call.kwargs, "wait_intent"@) matches Some(arg) ==> arg is String,
        lookup(call.kwargs, "timeout"@) matches Some(arg) ==> (arg matches ArgModel::Duration(
            time,
        ) && fits_the_wire(time)),
    ensures
        match dsl_step(call, ctx) {
            StepModel::Call { request, pending } => {
                let params = request.params;
                let wait = lookup(call.kwargs, "wait"@);
                let by = lookup(call.kwargs, "wait_intent"@);
                let timeout = lookup(call.kwargs, "timeout"@);
                &&& request.method == "adapter.turn"@
                &&& pending == PendingModel::Turned
                &&& params.field("adapter"@) == Some(JsonModel::Str(id))
                &&& params.inner_field("send"@, "intent"@) == Some(JsonModel::Str(intent))
                &&& only_fields(params, seq!["adapter"@, "send"@, "wait"@])
                &&& params.field("send"@) matches Some(send) && only_fields(
                    send,
                    seq!["intent"@, "params"@],
                )
                &&& params.inner_field("send"@, "params"@) matches Some(sent) && sent is Obj
                    && sent.field(name) == if name == "wait"@ || name == "wait_intent"@ || name
                    == "timeout"@ {
                    None
                } else {
                    match lookup(call.kwargs, name) {
                        Some(arg) => Some(arg.to_json()),
                        None => None,
                    }
                }
                &&& match timeout {
                    Some(ArgModel::Duration(time)) => params.inner_unsigned(
                        "wait"@,
                        "timeout_ms"@,
                    ) == Some(time.millis() as u64),
                    _ => params.inner_field("wait"@, "timeout_ms"@) is None,
                }
                &&& match wait {
                    Some(arg) => params.inner_field("wait"@, "params"@) matches Some(awaited)
                        && says_what_is_awaited(arg, awaited),
                    None => params.inner_field("wait"@, "params"@) is None,
                }
                &&& params.inner_text("wait"@, "intent"@) == match by {
                    Some(ArgModel::String(named)) => Some(named),
                    _ => if wait is Some {
                        Some("wait_turn_matcher"@)
                    } else {
                        None
                    },
                }
                &&& match params.field("wait"@) {
                    Some(how) => (wait is Some || by is Some || timeout is Some) && only_fields(
                        how,
                        seq!["intent"@, "params"@, "timeout_ms"@],
                    ),
                    None => wait is None && by is None && timeout is None,
                }
            },
            _ => false,
        },
{
    paths_differ();
    names_differ();

    entries_are_found(call.kwargs, name);
    sent_entries_are_found(crate::command::arg::entries_to_json(call.kwargs), name);
    bound_objects_are_not_bare();
    if let Some(arg) = lookup(call.kwargs, "wait"@) {
        matchers_say_what_is_awaited(arg);
    }
}

/// A turn is refused, and nothing is asked, where its timeout is no length of
/// time or one that the wire cannot hold, where its `wait` asks for nothing,
/// and where its `wait_intent` is no string.
pub proof fn bad_turns_are_refused(call: CallModel, ctx: CtxModel)
    requires
        join(call.path, "."@) == "turn"@,
        ({
            ||| lookup(call.kwargs, "timeout"@) matches Some(arg) && !(arg matches
                ArgModel::Duration(time) && fits_the_wire(time))
            ||| lookup(call.kwargs, "wait"@) matches Some(arg) && !awaits(arg)
            ||| lookup(call.kwargs, "wait_intent"@) matches Some(arg) && !(arg is String)
            ||| call.positional.len() == 0
            ||| !(call.positional[0] is String)
        }),
    ensures
        dsl_step(call, ctx) matches StepModel::Done { outcome: Err(_), heartbeat: None },
{
    paths_differ();
    if let Some(arg) = lookup(call.kwargs, "wait"@) {
        if !awaits(arg) {
            others_are_no_matchers(arg);
        }
    }
}

pub(crate) proof fn bound_objects_are_not_bare()
    ensures
        forall|j: JsonModel, name: Seq<char>, value: JsonModel|
            j is Obj ==> (#[trigger] j.with(name, value)) != no_fields(),
{
    assert forall|j: JsonModel, name: Seq<char>, value: JsonModel| j is Obj implies (
    #[trigger] j.with(name, value)) != no_fields() by {
        assert(j.with(name, value).field(name) == Some(value));
        assert(no_fields().field(name) is None);
    }
}

proof fn matchers_say_what_is_awaited(arg: ArgModel)
    requires
        awaits(arg),
    ensures
        crate::command::request::matcher_of(arg) matches Ok(m) && says_what_is_awaited(
            arg,
            m.params(),
        ),
{
    paths_differ();
    names_differ();
    assert(seq!["stable_ms"@][0] == "stable_ms"@);
    if let ArgModel::Call(call) = arg {
        assert(call.positional.len() > 0);
    }
    let m = crate::command::request::matcher_of(arg)->Ok_0;
    assert forall|time: Duration| #[trigger]
        awaits_stillness(arg, time) && time.millis() <= u64::MAX implies only_fields(
        m.params(),
        seq!["stable_ms"@],
    ) && m.params().unsigned_field("stable_ms"@) == Some(time.millis() as u64) by {}
}

proof fn others_are_no_matchers(arg: ArgModel)
    requires
        !awaits(arg),
    ensures
        crate::command::request::matcher_of(arg) is Err,
{
    match arg {
        ArgModel::Regex(p) => {
            assert(awaits_pattern(arg, p));
        },
        ArgModel::Duration(d) => {
            assert(awaits_stillness(arg, d));
        },
        ArgModel::Call(call) => {
            if call.positional.len() > 0 {
                match call.positional[0] {
                    ArgModel::Regex(p) => {
                        assert(!awaits_pattern(arg, p));
                    },
                    ArgModel::String(p) => {
                        assert(!awaits_pattern(arg, p));
                    },
                    ArgModel::Duration(d) => {
                        assert(!awaits_stillness(arg, d));
                    },
                    _ => {},
                }
            }
        },
        _ => {},
    }
}

/// `wait` waits on the focused adapter for what its argument asks for, with the
/// timeout and the id that are given.
pub proof fn waits_name_what_they_wait_for(call: CallModel, ctx: CtxModel, id: Seq<char>)
    requires
        join(call.path, "."@) == "wait"@,
        call.positional.len() > 0,
        awaits(call.positional[0]),
        ctx.focus == Some(id),
        lookup(call.kwargs, "timeout"@) matches Some(arg) ==> arg is Duration,
    ensures
        match dsl_step(call, ctx) {
            StepModel::Call { request, pending } => {
                &&& wait_is_told(call, id, request)
                &&& request.params.field("params"@) matches Some(awaited) && says_what_is_awaited(
                    call.positional[0],
                    awaited,
                )
                &&& request.params.field("wait_id"@) == match lookup(call.kwargs, "wait_id"@) {
                    Some(ArgModel::String(named)) => Some(JsonModel::Str(named)),
                    _ => None,
                }
                &&& pending matches PendingModel::Waited { pattern } && pattern == (exists|
                    p: Seq<char>,
                | awaits_pattern(call.positional[0], p))
            },
            _ => false,
        },
{
    paths_differ();
    names_differ();
    matchers_say_what_is_awaited(call.positional[0]);
    assert(seq!["adapter"@, "intent"@, "params"@, "timeout_ms"@, "wait_id"@][0] == "adapter"@);
    assert(seq!["adapter"@, "intent"@, "params"@, "timeout_ms"@, "wait_id"@][1] == "intent"@);
    assert(seq!["adapter"@, "intent"@, "params"@, "timeout_ms"@, "wait_id"@][2] == "params"@);
    assert(seq!["adapter"@, "intent"@, "params"@, "timeout_ms"@, "wait_id"@][3] == "timeout_ms"@);
    assert(seq!["adapter"@, "intent"@, "params"@, "timeout_ms"@, "wait_id"@][4] == "wait_id"@);
    let arg = call.positional[0];
    match crate::command::request::matcher_of(arg) {
        Ok(crate::command::request::MatcherModel::Pattern(p)) => {
            assert(awaits_pattern(arg, p));
        },
        _ => {},
    }
}

/// Whether a request waits on an adapter by the intent of matchers, with the
/// timeout of a call. A timeout beyond 64 bits is the greatest one.
pub open spec fn wait_is_told(call: CallModel, id: Seq<char>, request: RequestModel) -> bool {
    let params = request.params;
    &&& request.method == "adapter.wait"@
    &&& params.field("adapter"@) == Some(JsonModel::Str(id))
    &&& params.field("intent"@) == Some(JsonModel::Str("wait_turn_matcher"@))
    &&& match lookup(call.kwargs, "timeout"@) {
        Some(ArgModel::Duration(time)) => params.unsigned_field("timeout_ms"@) == Some(
            if time.millis() <= u64::MAX {
                time.millis() as u64
            } else {
                u64::MAX
            },
        ),
        _ => params.field("timeout_ms"@) is None,
    }
    &&& only_fields(
        params,
        seq!["adapter"@, "intent"@, "params"@, "timeout_ms"@, "wait_id"@],
    )
}

/// `wait.matches` waits on the focused adapter for its pattern.
pub proof fn pattern_waits_name_their_pattern(
    call: CallModel,
    ctx: CtxModel,
    id: Seq<char>,
    pattern: Seq<char>,
)
    requires
        join(call.path, "."@) == "wait.matches"@,
        call.positional.len() > 0,
        call.positional[0] == ArgModel::String(pattern) || call.positional[0] == ArgModel::Regex(
            pattern,
        ),
        ctx.focus == Some(id),
        lookup(call.kwargs, "timeout"@) matches Some(arg) ==> arg is Duration,
    ensures
        match dsl_step(call, ctx) {
            StepModel::Call { request, pending } => {
                &&& wait_is_told(call, id, request)
                &&& request.params.field("params"@) == Some(
                    JsonModel::Obj(seq![("pattern"@, JsonModel::Str(pattern))]),
                )
                &&& request.params.field("wait_id"@) is None
                &&& pending == (PendingModel::Waited { pattern: true })
            },
            _ => false,
        },
{
    paths_differ();
    names_differ();
    assert(seq!["adapter"@, "intent"@, "params"@, "timeout_ms"@, "wait_id"@][0] == "adapter"@);
    assert(seq!["adapter"@, "intent"@, "params"@, "timeout_ms"@, "wait_id"@][1] == "intent"@);
    assert(seq!["adapter"@, "intent"@, "params"@, "timeout_ms"@, "wait_id"@][2] == "params"@);
    assert(seq!["adapter"@, "intent"@, "params"@, "timeout_ms"@, "wait_id"@][3] == "timeout_ms"@);
    assert(seq!["adapter"@, "intent"@, "params"@, "timeout_ms"@, "wait_id"@][4] == "wait_id"@);
}

/// `wait.screen_stable` waits on the focused adapter until its screen is still
/// for so long.
pub proof fn stillness_waits_name_their_time(
    call: CallModel,
    ctx: CtxModel,
    id: Seq<char>,
    time: Duration,
)
    requires
        join(call.path, "."@) == "wait.screen_stable"@,
        call.positional.len() > 0,
        call.positional[0] == ArgModel::Duration(time),
        fits_the_wire(time),
        ctx.focus == Some(id),
        lookup(call.kwargs, "timeout"@) matches Some(arg) ==> arg is Duration,
    ensures
        match dsl_step(call, ctx) {
            StepModel::Call { request, pending } => {
                &&& wait_is_told(call, id, request)
                &&& request.params.inner_unsigned("params"@, "stable_ms"@) == Some(
                    time.millis() as u64,
                )
                &&& request.params.field("params"@) matches Some(awaited) && only_fields(
                    awaited,
                    seq!["stable_ms"@],
                )
                &&& request.params.field("wait_id"@) is None
                &&& pending == (PendingModel::Waited { pattern: false })
            },
            _ => false,
        },
{
    paths_differ();
    names_differ();
    assert(seq!["adapter"@, "intent"@, "params"@, "timeout_ms"@, "wait_id"@][0] == "adapter"@);
    assert(seq!["adapter"@, "intent"@, "params"@, "timeout_ms"@, "wait_id"@][1] == "intent"@);
    assert(seq!["adapter"@, "intent"@, "params"@, "timeout_ms"@, "wait_id"@][2] == "params"@);
    assert(seq!["adapter"@, "intent"@, "params"@, "timeout_ms"@, "wait_id"@][3] == "timeout_ms"@);
    assert(seq!["adapter"@, "intent"@, "params"@, "timeout_ms"@, "wait_id"@][4] == "wait_id"@);
    assert(seq!["stable_ms"@][0] == "stable_ms"@);
}

/// Whether a size is a number of 16 bits, where it is given.
pub open spec fn size_is_good(call: CallModel, name: Seq<char>) -> bool {
    lookup(call.kwargs, name) matches Some(arg) ==> (arg matches ArgModel::Int(n) && 0 <= n
        <= 65535)
}

/// Whether the options of a call that starts an adapter are of their kinds:
/// sizes are numbers of 16 bits, arguments strings, and the environment an
/// object of strings.
pub open spec fn start_options_are_good(call: CallModel) -> bool {
    &&& size_is_good(call, "rows"@)
    &&& size_is_good(call, "cols"@)
    &&& size_is_good(call, "pixel_width"@)
    &&& size_is_good(call, "pixel_height"@)
    &&& lookup(call.kwargs, "args"@) matches Some(arg) ==> (arg matches ArgModel::List(items)
        && forall|i: int| 0 <= i < items.len() ==> (#[trigger] items[i]) is String)
    &&& lookup(call.kwargs, "env"@) matches Some(arg) ==> (arg matches ArgModel::Object(entries)
        && increasing(entries) && forall|i: int|
        0 <= i < entries.len() ==> (#[trigger] entries[i]).1 is String)
}

/// Whether an option that is a text stands in a request just where it is given.
pub open spec fn text_is_told(call: CallModel, params: JsonModel, name: Seq<char>) -> bool {
    params.field(name) == match lookup(call.kwargs, name) {
        Some(ArgModel::String(text)) => Some(JsonModel::Str(text)),
        _ => None,
    }
}

/// Whether a size stands in a request just where it is given.
pub open spec fn size_is_told(call: CallModel, params: JsonModel, name: Seq<char>) -> bool {
    match lookup(call.kwargs, name) {
        Some(ArgModel::Int(n)) => params.unsigned_field(name) == Some(n as u64),
        _ => params.field(name) is None,
    }
}

/// Whether a request says how to start an adapter as a call does: each option at
/// its own name, and none that was not given.
pub open spec fn start_is_told(call: CallModel, plugin: Seq<char>, params: JsonModel) -> bool {
    &&& params.field("plugin"@) == Some(JsonModel::Str(plugin))
    &&& text_is_told(call, params, "program"@)
    &&& text_is_told(call, params, "cwd"@)
    &&& size_is_told(call, params, "rows"@)
    &&& size_is_told(call, params, "cols"@)
    &&& size_is_told(call, params, "pixel_width"@)
    &&& size_is_told(call, params, "pixel_height"@)
    &&& match lookup(call.kwargs, "args"@) {
        Some(ArgModel::List(items)) => params.items_field("args"@) matches Some(told)
            && told.len() == items.len() && forall|i: int|
            0 <= i < items.len() ==> #[trigger] told[i] == JsonModel::Str(items[i]->String_0),
        _ => params.field("args"@) is None,
    }
    &&& match lookup(call.kwargs, "env"@) {
        Some(ArgModel::Object(entries)) => params.field("env"@) matches Some(told) && told is Obj
            && forall|name: Seq<char>| #[trigger]
            told.field(name) == match lookup(entries, name) {
                Some(value) => Some(JsonModel::Str(value->String_0)),
                None => None,
            },
        _ => params.field("env"@) is None,
    }
}

proof fn strings_are_read(items: Seq<ArgModel>, i: int, sofar: Seq<Seq<char>>)
    requires
        0 <= i <= items.len(),
        forall|k: int| 0 <= k < items.len() ==> (#[trigger] items[k]) is String,
    ensures
        crate::command::request::strings_from(items, i, sofar) == Ok::<Seq<Seq<char>>, ArgModel>(
            sofar + Seq::new((items.len() - i) as nat, |k: int| items[i + k]->String_0),
        ),
    decreases items.len() - i,
{
    let rest = Seq::new((items.len() - i) as nat, |k: int| items[i + k]->String_0);
    if i < items.len() {
        let text = items[i]->String_0;
        strings_are_read(items, i + 1, sofar.push(text));
        let later = Seq::new((items.len() - i - 1) as nat, |k: int| items[i + 1 + k]->String_0);
        assert(sofar.push(text) + later =~= sofar + rest);
    } else {
        assert(sofar + rest =~= sofar);
    }
}

proof fn string_entries_are_read(
    entries: Seq<(Seq<char>, ArgModel)>,
    i: int,
    sofar: Seq<(Seq<char>, Seq<char>)>,
)
    requires
        0 <= i <= entries.len(),
        forall|k: int| 0 <= k < entries.len() ==> (#[trigger] entries[k]).1 is String,
    ensures
        crate::command::request::string_entries_from(entries, i, sofar) == Ok::<
            Seq<(Seq<char>, Seq<char>)>,
            (Seq<char>, ArgModel),
        >(
            sofar + Seq::new(
                (entries.len() - i) as nat,
                |k: int| (entries[i + k].0, entries[i + k].1->String_0),
            ),
        ),
    decreases entries.len() - i,
{
    let rest = Seq::new(
        (entries.len() - i) as nat,
        |k: int| (entries[i + k].0, entries[i + k].1->String_0),
    );
    if i < entries.len() {
        let pair = (entries[i].0, entries[i].1->String_0);
        string_entries_are_read(entries, i + 1, sofar.push(pair));
        let later = Seq::new(
            (entries.len() - i - 1) as nat,
            |k: int| (entries[i + 1 + k].0, entries[i + 1 + k].1->String_0),
        );
        assert(sofar.push(pair) + later =~= sofar + rest);
    } else {
        assert(sofar + rest =~= sofar);
    }
}

proof fn records_hold_their_texts(
    entries: Seq<(Seq<char>, ArgModel)>,
    pairs: Seq<(Seq<char>, Seq<char>)>,
    name: Seq<char>,
)
    requires
        increasing(entries),
        pairs.len() == entries.len(),
        forall|k: int|
            0 <= k < entries.len() ==> #[trigger] pairs[k] == (
                entries[k].0,
                entries[k].1->String_0,
            ),
    ensures
        crate::command::request::text_record(pairs) is Obj,
        crate::command::request::text_record(pairs).field(name) == match lookup(entries, name) {
            Some(value) => Some(JsonModel::Str(value->String_0)),
            None => None,
        },
    decreases entries.len(),
{
    if entries.len() > 0 {
        let init = entries.drop_last();
        let n = entries.len() - 1;
        assert forall|k: int| 0 <= k < init.len() implies #[trigger] pairs.drop_last()[k] == (
            init[k].0,
            init[k].1->String_0,
        ) by {
            assert(pairs[k] == (entries[k].0, entries[k].1->String_0));
        }
        assert forall|a: int, b: int|
            #![trigger init[a], init[b]]
            0 <= a < b < init.len() implies crate::text::text_lt(init[a].0, init[b].0) by {
            assert(crate::text::text_lt(entries[a].0, entries[b].0));
        }
        records_hold_their_texts(init, pairs.drop_last(), name);
        assert(entries =~= init.push(entries.last()));
        lookup_push(init, entries.last(), name);
        assert(pairs[n] == (entries[n].0, entries[n].1->String_0));
        if name == entries.last().0 {
            if lookup(init, name) is Some {
                crate::fields::lookup_finds(init, name);
                let k = choose|k: int|
                    0 <= k < init.len() && #[trigger] init[k] == (
                        name,
                        lookup(init, name)->Some_0,
                    );
                assert(crate::text::text_lt(entries[k].0, entries[n].0));
                crate::text::text_lt_total(name, name);
            }
        }
    }
}

proof fn starts_are_told(call: CallModel, plugin: Seq<char>)
    requires
        start_options_are_good(call),
    ensures
        crate::command::dispatch::start_params(plugin, call) matches Ok(params) && params is Obj
            && start_is_told(call, plugin, params) && only_fields(
            params,
            seq![
                "plugin"@,
                "program"@,
                "args"@,
                "cwd"@,
                "env"@,
                "rows"@,
                "cols"@,
                "pixel_width"@,
                "pixel_height"@,
            ],
        ),
{
    names_differ();
    assert(seq!["plugin"@, "program"@, "args"@, "cwd"@, "env"@, "rows"@, "cols"@, "pixel_width"@, "pixel_height"@][0] == "plugin"@);
    assert(seq!["plugin"@, "program"@, "args"@, "cwd"@, "env"@, "rows"@, "cols"@, "pixel_width"@, "pixel_height"@][1] == "program"@);
    assert(seq!["plugin"@, "program"@, "args"@, "cwd"@, "env"@, "rows"@, "cols"@, "pixel_width"@, "pixel_height"@][2] == "args"@);
    assert(seq!["plugin"@, "program"@, "args"@, "cwd"@, "env"@, "rows"@, "cols"@, "pixel_width"@, "pixel_height"@][3] == "cwd"@);
    assert(seq!["plugin"@, "program"@, "args"@, "cwd"@, "env"@, "rows"@, "cols"@, "pixel_width"@, "pixel_height"@][4] == "env"@);
    assert(seq!["plugin"@, "program"@, "args"@, "cwd"@, "env"@, "rows"@, "cols"@, "pixel_width"@, "pixel_height"@][5] == "rows"@);
    assert(seq!["plugin"@, "program"@, "args"@, "cwd"@, "env"@, "rows"@, "cols"@, "pixel_width"@, "pixel_height"@][6] == "cols"@);
    assert(seq!["plugin"@, "program"@, "args"@, "cwd"@, "env"@, "rows"@, "cols"@, "pixel_width"@, "pixel_height"@][7] == "pixel_width"@);
    assert(seq!["plugin"@, "program"@, "args"@, "cwd"@, "env"@, "rows"@, "cols"@, "pixel_width"@, "pixel_height"@][8] == "pixel_height"@);
    if let Some(ArgModel::List(items)) = lookup(call.kwargs, "args"@) {
        strings_are_read(items, 0, Seq::empty());
    }
    if let Some(ArgModel::Object(entries)) = lookup(call.kwargs, "env"@) {
        string_entries_are_read(entries, 0, Seq::empty());
        let pairs = Seq::<(Seq<char>, Seq<char>)>::empty() + Seq::new(
            entries.len(),
            |k: int| (entries[0 + k].0, entries[0 + k].1->String_0),
        );
        let told = crate::command::request::text_record(pairs);
        records_hold_their_texts(entries, pairs, Seq::empty());
        assert forall|name: Seq<char>| #[trigger]
            told.field(name) == match lookup(entries, name) {
                Some(value) => Some(JsonModel::Str(value->String_0)),
                None => None,
            } by {
            records_hold_their_texts(entries, pairs, name);
        }
    }
}

/// `session.spawn` asks for an adapter of the plugin that it names, started with
/// the options that are given.
pub proof fn spawning_tells_the_options(call: CallModel, ctx: CtxModel, plugin: Seq<char>)
    requires
        calls_with(call, "session.spawn"@, plugin),
        start_options_are_good(call),
    ensures
        match dsl_step(call, ctx) {
            StepModel::Call { request, pending } => {
                &&& request.method == "adapter.start"@
                &&& start_is_told(call, plugin, request.params)
                &&& request.params.field("prior_adapter"@) is None
                &&& pending == (PendingModel::Started { plugin, prior: None })
            },
            _ => false,
        },
{
    paths_differ();
    names_differ();
    starts_are_told(call, plugin);
}

/// `session.resume` asks for an adapter of the plugin that it names, started with
/// the options that are given, in place of the adapter that it names, by the long
/// name or else by the short one.
pub proof fn resuming_tells_the_options(call: CallModel, ctx: CtxModel, plugin: Seq<char>)
    requires
        calls_with(call, "session.resume"@, plugin),
        start_options_are_good(call),
        lookup(call.kwargs, "prior_adapter"@) matches Some(arg) ==> arg is String,
        lookup(call.kwargs, "prior_adapter"@) is None ==> (lookup(
            call.kwargs,
            "prior"@,
        ) matches Some(arg) ==> arg is String),
    ensures
        match dsl_step(call, ctx) {
            StepModel::Call { request, pending } => {
                let prior = match lookup(call.kwargs, "prior_adapter"@) {
                    Some(arg) => Some(arg->String_0),
                    None => match lookup(call.kwargs, "prior"@) {
                        Some(arg) => Some(arg->String_0),
                        None => None,
                    },
                };
                &&& request.method == "adapter.resume"@
                &&& start_is_told(call, plugin, request.params)
                &&& request.params.text_field("prior_adapter"@) == prior
                &&& prior is None ==> request.params.field("prior_adapter"@) is None
                &&& pending == (PendingModel::Started { plugin, prior })
            },
            _ => false,
        },
{
    paths_differ();
    names_differ();
    starts_are_told(call, plugin);
}

/// What an argument is on the wire: a text is a text, a number a number, a length
/// of time its milliseconds, and what holds others holds them in their places.
pub proof fn arguments_keep_their_kinds(arg: ArgModel, i: int, name: Seq<char>)
    ensures
        match arg {
            ArgModel::String(text) => arg.to_json() == JsonModel::Str(text),
            ArgModel::Regex(text) => arg.to_json() == JsonModel::Str(text),
            ArgModel::Int(n) => arg.to_json().as_signed() == Some(n),
            ArgModel::Duration(time) => time.millis() <= u64::MAX ==> arg.to_json().as_unsigned()
                == Some(time.millis() as u64),
            ArgModel::Bool(flag) => arg.to_json() == JsonModel::Bool(flag),
            ArgModel::Null => arg.to_json() is Null,
            ArgModel::List(items) => arg.to_json() matches JsonModel::Arr(told) && told.len()
                == items.len() && (0 <= i < items.len() ==> told[i] == items[i].to_json()),
            ArgModel::Object(entries) => arg.to_json() is Obj && arg.to_json().field(name)
                == match lookup(entries, name) {
                Some(value) => Some(value.to_json()),
                None => None,
            },
            ArgModel::Call(_) => arg.to_json() is Str,
        },
{
    match arg {
        ArgModel::List(items) => {
            crate::command::arg::args_to_json_at(items);
        },
        ArgModel::Object(entries) => {
            entries_are_found(entries, name);
        },
        _ => {},
    }
}

} // verus!
