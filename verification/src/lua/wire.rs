//! What Lua calls ask of the server, field by field.

use crate::command::arg::{ArgModel, CallModel};
use crate::command::dispatch::{dsl_step, StepModel};
use crate::command::wire::{names_differ, only_fields, paths_differ};
use crate::ctx::CtxModel;
use crate::error::ErrorModel;
use crate::json::{group_json_fields, JsonModel};
use crate::lua::bindings::{
    first_step, turn_send, Binding, LuaPendingModel, LuaReplyModel, LuaStepModel,
};
use crate::lua::options::{at_name, at_name_from, start_params, unknown_from};
use crate::lua::{call_shape, has_text_key, json_reading, LuaKey, LuaKind, LuaValue, Pairs};
use crate::text::join;
use vstd::prelude::*;

verus! {

broadcast use group_json_fields;

/// Whether a value is a string.
pub open spec fn is_text(v: LuaValue, text: Seq<char>) -> bool {
    v.kind is String && (v.text matches Ok(s) && s@ == text)
}

/// Whether the first argument of a call is a string.
pub open spec fn starts_with(args: Seq<LuaValue>, text: Seq<char>) -> bool {
    call_shape(args).positional.len() > 0 && is_text(call_shape(args).positional[0], text)
}

/// Whether nothing stands at a name, or nil.
pub open spec fn is_left_out(pairs: Pairs, name: Seq<char>) -> bool {
    at_name(pairs, name) matches Some(v) ==> v.kind is Nil
}

/// Whether an option is a text, where it is given.
pub open spec fn text_option(pairs: Pairs, name: Seq<char>, text: Option<Seq<char>>) -> bool {
    match text {
        Some(text) => at_name(pairs, name) matches Some(v) && !(v.kind is Nil) && (v.text matches Ok(
            s,
        ) && s@ == text),
        None => is_left_out(pairs, name),
    }
}

/// Whether an option is a whole number, where it is given.
pub open spec fn integer_option(pairs: Pairs, name: Seq<char>, n: Option<i64>) -> bool {
    match n {
        Some(n) => at_name(pairs, name) matches Some(v) && !(v.kind is Nil) && v.integer == Ok::<
            i64,
            String,
        >(n),
        None => is_left_out(pairs, name),
    }
}

// ---- laws ---------------------------------------------------------------

/// Arguments that are no tables stand by their position, and there are no
/// options. A last table with names holds the options, and what stands before it
/// stands by its position. A lone table holds both.
pub proof fn arguments_are_told_from_options(args: Seq<LuaValue>, name: Seq<char>)
    ensures
        (forall|i: int| 0 <= i < args.len() ==> (#[trigger] args[i]).table is Err) ==> call_shape(
            args,
        ).positional == args && call_shape(args).options.pairs.len() == 0,
        args.len() > 1 && (args.last().table matches Ok(table) && has_text_key(table.pairs@))
            ==> call_shape(args).positional == args.drop_last() && call_shape(args).options.pairs
            == args.last().table->Ok_0.pairs@,
        args.len() == 1 && (args[0].table is Ok) ==> call_shape(args).positional
            == args[0].table->Ok_0.items@ && at_name(call_shape(args).options.pairs, name)
            == at_name(args[0].table->Ok_0.pairs@, name),
{
    if args.len() > 0 {
        assert(args.last() == args[args.len() - 1]);
    }
    if args.len() == 1 && args[0].table is Ok {
        named_pairs_keep_names(args[0].table->Ok_0.pairs@, name);
    }
}

proof fn found_behind_the_others(pairs: Pairs, p: (LuaKey, LuaValue), name: Seq<char>, i: int)
    requires
        0 <= i <= pairs.len(),
    ensures
        at_name_from(pairs.push(p), name, i) == match at_name_from(pairs, name, i) {
            Some(v) => Some(v),
            None => if p.0.names(name) {
                Some(p.1)
            } else {
                None
            },
        },
    decreases pairs.len() - i,
{
    if i < pairs.len() {
        found_behind_the_others(pairs, p, name, i + 1);
    } else {
        assert(at_name_from(pairs.push(p), name, i + 1) is None);
    }
}

proof fn named_pairs_keep_names(pairs: Pairs, name: Seq<char>)
    ensures
        at_name(crate::lua::named_pairs(pairs), name) == at_name(pairs, name),
    decreases pairs.len(),
{
    reveal(Seq::filter);
    if pairs.len() > 0 {
        let init = pairs.drop_last();
        let last = pairs.last();
        named_pairs_keep_names(init, name);
        assert(pairs =~= init.push(last));
        found_behind_the_others(init, last, name, 0);
        found_behind_the_others(crate::lua::named_pairs(init), last, name, 0);
    }
}

/// What stands at a name is the value of the first pair whose key it is.
pub proof fn options_are_found_by_their_name(pairs: Pairs, name: Seq<char>)
    ensures
        match at_name(pairs, name) {
            Some(v) => exists|i: int|
                0 <= i < pairs.len() && (#[trigger] pairs[i]).0.names(name) && pairs[i].1 == v
                    && forall|j: int| 0 <= j < i ==> !(#[trigger] pairs[j]).0.names(name),
            None => forall|i: int| 0 <= i < pairs.len() ==> !(#[trigger] pairs[i]).0.names(name),
        },
{
    found_from(pairs, name, 0);
}

proof fn found_from(pairs: Pairs, name: Seq<char>, from: int)
    requires
        0 <= from <= pairs.len(),
    ensures
        match at_name_from(pairs, name, from) {
            Some(v) => exists|i: int|
                from <= i < pairs.len() && (#[trigger] pairs[i]).0.names(name) && pairs[i].1 == v
                    && forall|j: int| from <= j < i ==> !(#[trigger] pairs[j]).0.names(name),
            None => forall|i: int|
                from <= i < pairs.len() ==> !(#[trigger] pairs[i]).0.names(name),
        },
    decreases pairs.len() - from,
{
    if from < pairs.len() {
        if pairs[from].0.names(name) {
            assert(pairs[from].1 == at_name_from(pairs, name, from)->Some_0);
        } else {
            found_from(pairs, name, from + 1);
            if let Some(v) = at_name_from(pairs, name, from + 1) {
                let i = choose|i: int|
                    from + 1 <= i < pairs.len() && (#[trigger] pairs[i]).0.names(name)
                        && pairs[i].1 == v && forall|j: int|
                        from + 1 <= j < i ==> !(#[trigger] pairs[j]).0.names(name);
                assert(forall|j: int| from <= j < i ==> !(#[trigger] pairs[j]).0.names(name));
            }
        }
    }
}

/// `send.text` sends its text as a prompt to the focused adapter, and nothing else.
pub proof fn texts_are_sent_as_prompts(args: Seq<LuaValue>, ctx: CtxModel, id: Seq<char>, text: Seq<char>)
    requires
        starts_with(args, text),
        ctx.focus == Some(id),
    ensures
        match first_step(Binding::SendText, args, ctx) {
            Ok(LuaStepModel::Call { request, pending }) => {
                &&& request.method == "adapter.send"@
                &&& request.params.field("adapter"@) == Some(JsonModel::Str(id))
                &&& request.params.field("intent"@) == Some(JsonModel::Str("send_prompt"@))
                &&& request.params.field("params"@) == Some(JsonModel::Obj(seq![("prompt"@, JsonModel::Str(text))]))
                &&& only_fields(request.params, seq!["adapter"@, "intent"@, "params"@])
                &&& pending == LuaPendingModel::Json
            },
            _ => false,
        },
{
    paths_differ();
    names_differ();
    assert(seq!["adapter"@, "intent"@, "params"@][0] == "adapter"@);
    assert(seq!["adapter"@, "intent"@, "params"@][1] == "intent"@);
    assert(seq!["adapter"@, "intent"@, "params"@][2] == "params"@);
}

/// `send.key` sends its text as the name of a key to the focused adapter.
pub proof fn keys_are_sent_as_keys(args: Seq<LuaValue>, ctx: CtxModel, id: Seq<char>, key: Seq<char>)
    requires
        starts_with(args, key),
        ctx.focus == Some(id),
    ensures
        match first_step(Binding::SendKey, args, ctx) {
            Ok(LuaStepModel::Call { request, pending }) => {
                &&& request.method == "adapter.send"@
                &&& request.params.field("adapter"@) == Some(JsonModel::Str(id))
                &&& request.params.field("intent"@) == Some(JsonModel::Str("key"@))
                &&& request.params.field("params"@) == Some(JsonModel::Obj(seq![("key"@, JsonModel::Str(key))]))
                &&& only_fields(request.params, seq!["adapter"@, "intent"@, "params"@])
                &&& pending == LuaPendingModel::Json
            },
            _ => false,
        },
{
    paths_differ();
    names_differ();
    assert(seq!["adapter"@, "intent"@, "params"@][0] == "adapter"@);
    assert(seq!["adapter"@, "intent"@, "params"@][1] == "intent"@);
    assert(seq!["adapter"@, "intent"@, "params"@][2] == "params"@);
}

/// `send.intent` sends the intent that it names to the focused adapter, with its
/// options as they are.
pub proof fn intents_are_sent_with_their_options(args: Seq<LuaValue>, ctx: CtxModel, id: Seq<char>, intent: Seq<char>, options: JsonModel)
    requires
        starts_with(args, intent),
        call_shape(args).options.json == Ok::<JsonModel, Seq<char>>(options),
        ctx.focus == Some(id),
    ensures
        match first_step(Binding::SendIntent, args, ctx) {
            Ok(LuaStepModel::Call { request, pending }) => {
                &&& request.method == "adapter.send"@
                &&& request.params.field("adapter"@) == Some(JsonModel::Str(id))
                &&& request.params.field("intent"@) == Some(JsonModel::Str(intent))
                &&& request.params.field("params"@) == Some(options)
                &&& only_fields(request.params, seq!["adapter"@, "intent"@, "params"@])
                &&& pending == LuaPendingModel::Json
            },
            _ => false,
        },
{
    paths_differ();
    names_differ();
    assert(seq!["adapter"@, "intent"@, "params"@][0] == "adapter"@);
    assert(seq!["adapter"@, "intent"@, "params"@][1] == "intent"@);
    assert(seq!["adapter"@, "intent"@, "params"@][2] == "params"@);
}

/// `plugins` asks for all plugins, and `session.live` for all adapters that live.
pub proof fn lists_are_asked_for(args: Seq<LuaValue>, ctx: CtxModel)
    ensures
        match first_step(Binding::Plugins, args, ctx) {
            Ok(LuaStepModel::Call { request, pending }) => {
                &&& request.method == "adapter.list"@
                &&& request.params == JsonModel::Obj(Seq::empty())
                &&& pending == LuaPendingModel::Json
            },
            _ => false,
        },
        match first_step(Binding::SessionLive, args, ctx) {
            Ok(LuaStepModel::Call { request, pending }) => {
                &&& request.method == "adapter.live"@
                &&& request.params == JsonModel::Obj(Seq::empty())
                &&& pending == LuaPendingModel::Json
            },
            _ => false,
        },
{
    paths_differ();
    names_differ();
}

/// `cancel_wait` names the wait to break.
pub proof fn waits_are_cancelled_by_their_id(args: Seq<LuaValue>, ctx: CtxModel, name: Seq<char>)
    requires
        starts_with(args, name),
    ensures
        match first_step(Binding::CancelWait, args, ctx) {
            Ok(LuaStepModel::Call { request, pending }) => {
                &&& request.method == "adapter.cancel_wait"@
                &&& request.params.field("wait_id"@) == Some(JsonModel::Str(name))
                &&& only_fields(request.params, seq!["wait_id"@])
                &&& pending == LuaPendingModel::Json
            },
            _ => false,
        },
{
    paths_differ();
    names_differ();
    assert(seq!["wait_id"@][0] == "wait_id"@);
}

/// `state`, `inspect` and the pictures are asked of the focused adapter; pictures as
/// they are.
pub proof fn the_focused_adapter_is_asked(args: Seq<LuaValue>, ctx: CtxModel, id: Seq<char>)
    requires
        ctx.focus == Some(id),
    ensures
        match first_step(Binding::State, args, ctx) {
            Ok(LuaStepModel::Call { request, pending }) => {
                &&& request.method == "adapter.state"@
                &&& request.params.field("adapter"@) == Some(JsonModel::Str(id))
                &&& only_fields(request.params, seq!["adapter"@])
                &&& pending == LuaPendingModel::Json
            },
            _ => false,
        },
        match first_step(Binding::Inspect, args, ctx) {
            Ok(LuaStepModel::Call { request, pending }) => {
                &&& request.method == "adapter.inspect"@
                &&& request.params.field("adapter"@) == Some(JsonModel::Str(id))
                &&& only_fields(request.params, seq!["adapter"@])
                &&& pending == LuaPendingModel::Json
            },
            _ => false,
        },
        match first_step(Binding::ScreenSnapshot, args, ctx) {
            Ok(LuaStepModel::Call { request, pending }) => {
                &&& request.method == "adapter.snapshot"@
                &&& request.params.field("adapter"@) == Some(JsonModel::Str(id))
                &&& request.params.field("redact"@) == Some(JsonModel::Bool(false))
                &&& only_fields(request.params, seq!["adapter"@, "redact"@])
                &&& pending == LuaPendingModel::Screen(id)
            },
            _ => false,
        },
        match first_step(Binding::View, args, ctx) {
            Ok(LuaStepModel::Call { request, pending }) => {
                &&& request.method == "adapter.snapshot"@
                &&& request.params.field("adapter"@) == Some(JsonModel::Str(id))
                &&& request.params.field("redact"@) == Some(JsonModel::Bool(false))
                &&& only_fields(request.params, seq!["adapter"@, "redact"@])
                &&& pending == LuaPendingModel::Screen(id)
            },
            _ => false,
        },
{
    paths_differ();
    names_differ();
    assert(seq!["adapter"@][0] == "adapter"@);
    assert(seq!["adapter"@, "redact"@][0] == "adapter"@);
    assert(seq!["adapter"@, "redact"@][1] == "redact"@);
}

/// `transcript.snapshot` asks for the transcript of the focused adapter, redacted
/// unless its option says otherwise.
pub proof fn transcripts_are_redacted_unless_told(args: Seq<LuaValue>, ctx: CtxModel, id: Seq<char>)
    requires
        ctx.focus == Some(id),
        !is_left_out(call_shape(args).options.pairs, "redact"@) ==> at_name(
            call_shape(args).options.pairs,
            "redact"@,
        )->Some_0.flag is Ok,
    ensures
        match first_step(Binding::TranscriptSnapshot, args, ctx) {
            Ok(LuaStepModel::Call { request, pending }) => {
                &&& request.method == "adapter.transcript"@
                &&& request.params.field("adapter"@) == Some(JsonModel::Str(id))
                &&& request.params.field("redact"@) == Some(JsonModel::Bool(
                        is_left_out(call_shape(args).options.pairs, "redact"@) || at_name(
                            call_shape(args).options.pairs,
                            "redact"@,
                        )->Some_0.flag->Ok_0,
                    ))
                &&& only_fields(request.params, seq!["adapter"@, "redact"@])
                &&& pending == LuaPendingModel::Json
            },
            _ => false,
        },
{
    paths_differ();
    names_differ();
    assert(seq!["adapter"@, "redact"@][0] == "adapter"@);
    assert(seq!["adapter"@, "redact"@][1] == "redact"@);
}

/// `session.attach` with an id asks for the state of that adapter.
pub proof fn attaching_one_asks_for_its_state(args: Seq<LuaValue>, ctx: CtxModel, id: Seq<char>)
    requires
        starts_with(args, id),
        id != "all"@,
    ensures
        match first_step(Binding::SessionAttach, args, ctx) {
            Ok(LuaStepModel::Call { request, pending }) => {
                &&& request.method == "adapter.state"@
                &&& request.params.field("adapter"@) == Some(JsonModel::Str(id))
                &&& only_fields(request.params, seq!["adapter"@])
                &&& pending == LuaPendingModel::AttachOne(id)
            },
            _ => false,
        },
{
    paths_differ();
    names_differ();
    assert(seq!["adapter"@][0] == "adapter"@);
}

/// `session.attach` with `"all"` or with nothing asks for all adapters that live.
pub proof fn attaching_all_asks_for_the_live_ones(args: Seq<LuaValue>, ctx: CtxModel)
    requires
        call_shape(args).positional.len() == 0 || starts_with(args, "all"@),
    ensures
        match first_step(Binding::SessionAttach, args, ctx) {
            Ok(LuaStepModel::Call { request, pending }) => {
                &&& request.method == "adapter.live"@
                &&& request.params == JsonModel::Obj(Seq::empty())
                &&& pending == LuaPendingModel::AttachAll
            },
            _ => false,
        },
{
    paths_differ();
    names_differ();
}

/// `session.close` closes the adapter that it names, and the focused one if it names
/// none.
pub proof fn the_named_adapter_is_closed(args: Seq<LuaValue>, ctx: CtxModel, id: Seq<char>)
    requires
        starts_with(args, id) || (call_shape(args).positional.len() == 0 && ctx.focus == Some(id)),
    ensures
        match first_step(Binding::SessionClose, args, ctx) {
            Ok(LuaStepModel::Call { request, pending }) => {
                &&& request.method == "adapter.close"@
                &&& request.params.field("adapter"@) == Some(JsonModel::Str(id))
                &&& only_fields(request.params, seq!["adapter"@])
                &&& pending == LuaPendingModel::Closed(id)
            },
            _ => false,
        },
{
    paths_differ();
    names_differ();
    assert(seq!["adapter"@][0] == "adapter"@);
}

/// Lua calls and commands that say the same ask the server for the same.
pub proof fn lua_asks_as_commands_do(
    args: Seq<LuaValue>,
    call: CallModel,
    ctx: CtxModel,
    text: Seq<char>,
)
    requires
        starts_with(args, text),
        call.positional.len() > 0,
        call.positional[0] == ArgModel::String(text),
    ensures
        join(call.path, "."@) == "send.text"@ ==> same_request(
            first_step(Binding::SendText, args, ctx),
            dsl_step(call, ctx),
        ),
        join(call.path, "."@) == "send.key"@ ==> same_request(
            first_step(Binding::SendKey, args, ctx),
            dsl_step(call, ctx),
        ),
        join(call.path, "."@) == "session.attach"@ ==> same_request(
            first_step(Binding::SessionAttach, args, ctx),
            dsl_step(call, ctx),
        ),
        join(call.path, "."@) == "session.close"@ ==> same_request(
            first_step(Binding::SessionClose, args, ctx),
            dsl_step(call, ctx),
        ),
        join(call.path, "."@) == "cancel_wait"@ ==> same_request(
            first_step(Binding::CancelWait, args, ctx),
            dsl_step(call, ctx),
        ),
        join(call.path, "."@) == "state"@ ==> same_request(
            first_step(Binding::State, args, ctx),
            dsl_step(call, ctx),
        ),
        join(call.path, "."@) == "inspect"@ ==> same_request(
            first_step(Binding::Inspect, args, ctx),
            dsl_step(call, ctx),
        ),
        join(call.path, "."@) == "view"@ ==> same_request(
            first_step(Binding::View, args, ctx),
            dsl_step(call, ctx),
        ),
        join(call.path, "."@) == "plugins"@ ==> same_request(
            first_step(Binding::Plugins, args, ctx),
            dsl_step(call, ctx),
        ),
{
    paths_differ();
}

/// Whether a Lua call and a command ask the server for the same, or are refused
/// for the same reason.
pub open spec fn same_request(lua: Result<LuaStepModel, ErrorModel>, command: StepModel) -> bool {
    match (lua, command) {
        (Ok(LuaStepModel::Call { request: a, .. }), StepModel::Call { request: b, .. }) => a == b,
        (Err(a), StepModel::Done { outcome: Err(b), .. }) => a == b,
        _ => false,
    }
}

/// Whether a value asks to wait for a pattern: a bare text, or the table that
/// `matches` makes.
pub open spec fn awaits_pattern(v: LuaValue, pattern: Seq<char>) -> bool {
    match v.table {
        Ok(table) => text_option(table.pairs@, "__pty_matcher"@, Some("regex"@)) && (at_name(
            table.pairs@,
            "pattern"@,
        ) matches Some(p) && (p.text matches Ok(s) && s@ == pattern)),
        Err(_) => is_text(v, pattern),
    }
}

/// Whether a value asks to wait until the screen is still for so many
/// milliseconds.
pub open spec fn awaits_stillness(v: LuaValue, millis: i64) -> bool {
    v.table matches Ok(table) && text_option(table.pairs@, "__pty_matcher"@, Some("stable"@)) && (
    at_name(table.pairs@, "stable_ms"@) matches Some(p) && p.integer == Ok::<i64, String>(millis))
}

/// Whether an object is what a matcher puts on the wire.
pub open spec fn says_what_is_awaited(v: LuaValue, params: JsonModel) -> bool {
    &&& forall|pattern: Seq<char>| #[trigger]
        awaits_pattern(v, pattern) ==> params == JsonModel::Obj(
            seq![("pattern"@, JsonModel::Str(pattern))],
        )
    &&& forall|millis: i64| #[trigger]
        awaits_stillness(v, millis) ==> only_fields(params, seq!["stable_ms"@]) && (params.field(
            "stable_ms"@,
        ) matches Some(told) && told.as_signed() == Some(millis))
}

/// Whether a value asks to wait for something.
pub open spec fn awaits(v: LuaValue) -> bool {
    (exists|pattern: Seq<char>| awaits_pattern(v, pattern)) || (exists|millis: i64|
        awaits_stillness(v, millis))
}

proof fn matchers_say_what_is_awaited(v: LuaValue)
    requires
        awaits(v),
    ensures
        crate::lua::bindings::matcher_params(v) matches Ok(params) && says_what_is_awaited(
            v,
            params,
        ),
{
    names_differ();
    tags_differ();
    assert(seq!["stable_ms"@][0] == "stable_ms"@);
    let params = crate::lua::bindings::matcher_params(v)->Ok_0;
    assert forall|millis: i64| #[trigger] awaits_stillness(v, millis) implies only_fields(
        params,
        seq!["stable_ms"@],
    ) && (params.field("stable_ms"@) matches Some(told) && told.as_signed() == Some(millis)) by {}
}

/// The tags of matchers are not alike.
proof fn tags_differ()
    ensures
        "regex"@ != "stable"@,
{
    reveal_strlit("regex");
    reveal_strlit("stable");
    assert("regex"@.len() == 5);
    assert("stable"@.len() == 6);
}

/// Whether all that a turn sends can be read.
pub open spec fn can_be_sent(pairs: Pairs) -> bool {
    forall|i: int|
        0 <= i < pairs.len() ==> (#[trigger] pairs[i]).0.read() is Ok && pairs[i].1.json is Ok
}

proof fn turns_send_their_options(pairs: Pairs, n: int, name: Seq<char>)
    requires
        can_be_sent(pairs),
        0 <= n <= pairs.len(),
    ensures
        turn_send(pairs, n) matches Ok(sent) && sent is Obj && match sent.field(name) {
            Some(value) => name != "wait"@ && name != "wait_intent"@ && name != "timeout"@
                && exists|i: int|
                0 <= i < n && (#[trigger] pairs[i]).0.read() == Ok::<Seq<char>, Seq<char>>(name)
                    && json_reading(pairs[i].1.json) == Ok::<JsonModel, Seq<char>>(value)
                    && forall|j: int|
                    i < j < n ==> (#[trigger] pairs[j]).0.read() != Ok::<Seq<char>, Seq<char>>(
                        name,
                    ),
            None => name == "wait"@ || name == "wait_intent"@ || name == "timeout"@ || forall|
                i: int,
            |
                0 <= i < n ==> (#[trigger] pairs[i]).0.read() != Ok::<Seq<char>, Seq<char>>(name),
        },
    decreases n,
{
    if n > 0 {
        turns_send_their_options(pairs, n - 1, name);
        assert(pairs[n - 1].0.read() is Ok);
        let before = turn_send(pairs, n - 1)->Ok_0;
        let sent = turn_send(pairs, n)->Ok_0;
        if pairs[n - 1].0.read() != Ok::<Seq<char>, Seq<char>>(name) {
            if let Some(value) = sent.field(name) {
                let i = choose|i: int|
                    0 <= i < n - 1 && (#[trigger] pairs[i]).0.read() == Ok::<
                        Seq<char>,
                        Seq<char>,
                    >(name) && json_reading(pairs[i].1.json) == Ok::<JsonModel, Seq<char>>(value)
                        && forall|j: int|
                        i < j < n - 1 ==> (#[trigger] pairs[j]).0.read() != Ok::<
                            Seq<char>,
                            Seq<char>,
                        >(name);
                assert(forall|j: int|
                    i < j < n ==> (#[trigger] pairs[j]).0.read() != Ok::<Seq<char>, Seq<char>>(
                        name,
                    ));
            }
        }
    }
}

/// `turn` asks for one turn of the focused adapter. It sends the intent that it
/// names, with every option that is not about waiting. It waits with the timeout
/// that is given, whatever else is given; for what `wait` asks for; and by the intent
/// that `wait_intent` names, or else by that of matchers where there is a matcher.
/// Where nothing is said about waiting, nothing is asked.
pub proof fn turns_send_and_wait(
    args: Seq<LuaValue>,
    ctx: CtxModel,
    id: Seq<char>,
    intent: Seq<char>,
    timeout: Option<i64>,
    by: Option<Seq<char>>,
    name: Seq<char>,
)
    requires
        starts_with(args, intent),
        ctx.focus == Some(id),
        can_be_sent(call_shape(args).options.pairs),
        integer_option(call_shape(args).options.pairs, "timeout"@, timeout),
        timeout matches Some(millis) ==> millis >= 0,
        text_option(call_shape(args).options.pairs, "wait_intent"@, by),
        !is_left_out(call_shape(args).options.pairs, "wait"@) ==> awaits(
            at_name(call_shape(args).options.pairs, "wait"@)->Some_0,
        ),
    ensures
        match first_step(Binding::Turn, args, ctx) {
            Ok(LuaStepModel::Call { request, pending }) => {
                let params = request.params;
                let pairs = call_shape(args).options.pairs;
                let waits = !is_left_out(pairs, "wait"@);
                &&& request.method == "adapter.turn"@
                &&& pending == LuaPendingModel::Json
                &&& params.field("adapter"@) == Some(JsonModel::Str(id))
                &&& params.inner_field("send"@, "intent"@) == Some(JsonModel::Str(intent))
                &&& only_fields(params, seq!["adapter"@, "send"@, "wait"@])
                &&& params.field("send"@) matches Some(send) && only_fields(
                    send,
                    seq!["intent"@, "params"@],
                )
                &&& params.inner_field("send"@, "params"@) matches Some(sent) && match sent.field(
                    name,
                ) {
                    Some(value) => name != "wait"@ && name != "wait_intent"@ && name != "timeout"@
                        && exists|i: int|
                        0 <= i < pairs.len() && (#[trigger] pairs[i]).0.read() == Ok::<
                            Seq<char>,
                            Seq<char>,
                        >(name) && json_reading(pairs[i].1.json) == Ok::<JsonModel, Seq<char>>(
                            value,
                        ),
                    None => name == "wait"@ || name == "wait_intent"@ || name == "timeout"@
                        || forall|i: int|
                        0 <= i < pairs.len() ==> (#[trigger] pairs[i]).0.read() != Ok::<
                            Seq<char>,
                            Seq<char>,
                        >(name),
                }
                &&& match timeout {
                    Some(millis) => params.inner_unsigned("wait"@, "timeout_ms"@) == Some(
                        millis as u64,
                    ),
                    None => params.inner_field("wait"@, "timeout_ms"@) is None,
                }
                &&& if waits {
                    params.inner_field("wait"@, "params"@) matches Some(awaited)
                        && says_what_is_awaited(at_name(pairs, "wait"@)->Some_0, awaited)
                } else {
                    params.inner_field("wait"@, "params"@) is None
                }
                &&& params.inner_text("wait"@, "intent"@) == match by {
                    Some(named) => Some(named),
                    None => if waits {
                        Some("wait_turn_matcher"@)
                    } else {
                        None
                    },
                }
                &&& match params.field("wait"@) {
                    Some(how) => (waits || by is Some || timeout is Some) && only_fields(
                        how,
                        seq!["intent"@, "params"@, "timeout_ms"@],
                    ),
                    None => !waits && by is None && timeout is None,
                }
            },
            _ => false,
        },
{
    paths_differ();
    names_differ();
    let pairs = call_shape(args).options.pairs;
    turns_send_their_options(pairs, pairs.len() as int, name);
    crate::command::wire::bound_objects_are_not_bare();
    if !is_left_out(pairs, "wait"@) {
        matchers_say_what_is_awaited(at_name(pairs, "wait"@)->Some_0);
    }
    assert(seq!["intent"@, "params"@, "timeout_ms"@][0] == "intent"@);
    assert(seq!["intent"@, "params"@, "timeout_ms"@][1] == "params"@);
    assert(seq!["intent"@, "params"@, "timeout_ms"@][2] == "timeout_ms"@);
    assert(seq!["intent"@, "params"@][0] == "intent"@);
    assert(seq!["intent"@, "params"@][1] == "params"@);
    assert(seq!["adapter"@, "send"@, "wait"@][0] == "adapter"@);
    assert(seq!["adapter"@, "send"@, "wait"@][1] == "send"@);
    assert(seq!["adapter"@, "send"@, "wait"@][2] == "wait"@);
}

/// Whether a request waits on an adapter by the intent of matchers, with a timeout
/// and an id where they are given.
pub open spec fn wait_is_told(
    request: crate::command::dispatch::RequestModel,
    id: Seq<char>,
    timeout: Option<i64>,
    wait_id: Option<Seq<char>>,
) -> bool {
    let params = request.params;
    &&& request.method == "adapter.wait"@
    &&& params.field("adapter"@) == Some(JsonModel::Str(id))
    &&& params.field("intent"@) == Some(JsonModel::Str("wait_turn_matcher"@))
    &&& match timeout {
        Some(millis) => params.unsigned_field("timeout_ms"@) == Some(millis as u64),
        None => params.field("timeout_ms"@) is None,
    }
    &&& params.field("wait_id"@) == match wait_id {
        Some(named) => Some(JsonModel::Str(named)),
        None => None,
    }
    &&& only_fields(
        params,
        seq!["adapter"@, "intent"@, "params"@, "timeout_ms"@, "wait_id"@],
    )
}

/// `wait.matches` waits on the focused adapter for its pattern.
pub proof fn pattern_waits_name_their_pattern(
    args: Seq<LuaValue>,
    ctx: CtxModel,
    id: Seq<char>,
    timeout: Option<i64>,
    wait_id: Option<Seq<char>>,
    pattern: Seq<char>,
)
    requires
        starts_with(args, pattern),
        ctx.focus == Some(id),
        integer_option(call_shape(args).options.pairs, "timeout"@, timeout),
        timeout matches Some(millis) ==> millis >= 0,
        text_option(call_shape(args).options.pairs, "wait_id"@, wait_id),
    ensures
        match first_step(Binding::WaitMatches, args, ctx) {
            Ok(LuaStepModel::Call { request, pending }) => {
                &&& wait_is_told(request, id, timeout, wait_id)
                &&& request.params.field("params"@) == Some(
                    JsonModel::Obj(seq![("pattern"@, JsonModel::Str(pattern))]),
                )
                &&& pending == LuaPendingModel::Json
            },
            _ => false,
        },
{
    paths_differ();
    names_differ();
    assert(seq!["adapter"@, "intent"@, "params"@, "timeout_ms"@, "wait_id"@][0] == "adapter"@);
    assert(seq!["adapter"@, "intent"@, "params"@, "timeout_ms"@, "wait_id"@][1] == "intent"@);
    assert(seq!["adapter"@, "intent"@, "params"@, "timeout_ms"@, "wait_id"@][2] == "params"@);
    assert(seq!["adapter"@, "intent"@, "params"@, "timeout_ms"@, "wait_id"@][3] == "timeout_ms"@);
    assert(seq!["adapter"@, "intent"@, "params"@, "timeout_ms"@, "wait_id"@][4] == "wait_id"@);
}

/// `wait.screen_stable` waits on the focused adapter until its screen is still for so
/// long.
pub proof fn stillness_waits_name_their_time(
    args: Seq<LuaValue>,
    ctx: CtxModel,
    id: Seq<char>,
    timeout: Option<i64>,
    wait_id: Option<Seq<char>>,
    millis: i64,
)
    requires
        call_shape(args).positional.len() > 0,
        match call_shape(args).positional[0].kind {
            LuaKind::Integer(n) => n == millis,
            LuaKind::Number { whole, .. } => whole == millis,
            _ => false,
        },
        ctx.focus == Some(id),
        integer_option(call_shape(args).options.pairs, "timeout"@, timeout),
        timeout matches Some(millis) ==> millis >= 0,
        text_option(call_shape(args).options.pairs, "wait_id"@, wait_id),
    ensures
        match first_step(Binding::WaitScreenStable, args, ctx) {
            Ok(LuaStepModel::Call { request, pending }) => {
                &&& wait_is_told(request, id, timeout, wait_id)
                &&& request.params.field("params"@) matches Some(awaited) && only_fields(
                    awaited,
                    seq!["stable_ms"@],
                ) && (awaited.field("stable_ms"@) matches Some(told) && told.as_signed() == Some(
                    millis,
                ))
                &&& pending == LuaPendingModel::Json
            },
            _ => false,
        },
{
    paths_differ();
    names_differ();
    assert(seq!["adapter"@, "intent"@, "params"@, "timeout_ms"@, "wait_id"@][0] == "adapter"@);
    assert(seq!["adapter"@, "intent"@, "params"@, "timeout_ms"@, "wait_id"@][1] == "intent"@);
    assert(seq!["adapter"@, "intent"@, "params"@, "timeout_ms"@, "wait_id"@][2] == "params"@);
    assert(seq!["adapter"@, "intent"@, "params"@, "timeout_ms"@, "wait_id"@][3] == "timeout_ms"@);
    assert(seq!["adapter"@, "intent"@, "params"@, "timeout_ms"@, "wait_id"@][4] == "wait_id"@);
    assert(seq!["stable_ms"@][0] == "stable_ms"@);
}

/// `wait`, called as a table, waits on the focused adapter for what its matcher asks
/// for.
pub proof fn waits_name_what_they_wait_for(
    args: Seq<LuaValue>,
    ctx: CtxModel,
    id: Seq<char>,
    timeout: Option<i64>,
    wait_id: Option<Seq<char>>,
)
    requires
        args.len() == 2 || args.len() == 3 && args[2].table is Ok,
        awaits(args[1]),
        ctx.focus == Some(id),
        integer_option(wait_options(args), "timeout"@, timeout),
        timeout matches Some(millis) ==> millis >= 0,
        text_option(wait_options(args), "wait_id"@, wait_id),
    ensures
        match first_step(Binding::Wait, args, ctx) {
            Ok(LuaStepModel::Call { request, pending }) => {
                &&& wait_is_told(request, id, timeout, wait_id)
                &&& request.params.field("params"@) matches Some(awaited) && says_what_is_awaited(
                    args[1],
                    awaited,
                )
                &&& pending == LuaPendingModel::Json
            },
            _ => false,
        },
{
    paths_differ();
    names_differ();
    assert(seq!["adapter"@, "intent"@, "params"@, "timeout_ms"@, "wait_id"@][0] == "adapter"@);
    assert(seq!["adapter"@, "intent"@, "params"@, "timeout_ms"@, "wait_id"@][1] == "intent"@);
    assert(seq!["adapter"@, "intent"@, "params"@, "timeout_ms"@, "wait_id"@][2] == "params"@);
    assert(seq!["adapter"@, "intent"@, "params"@, "timeout_ms"@, "wait_id"@][3] == "timeout_ms"@);
    assert(seq!["adapter"@, "intent"@, "params"@, "timeout_ms"@, "wait_id"@][4] == "wait_id"@);
    matchers_say_what_is_awaited(args[1]);
}

/// The options of `wait`, called as a table.
pub open spec fn wait_options(args: Seq<LuaValue>) -> Pairs {
    if args.len() > 2 {
        args[2].table->Ok_0.pairs@
    } else {
        Seq::empty()
    }
}

/// A matcher that `matches` or `screen_stable` makes says what to wait for, in the
/// fields by which `wait` knows it.
pub proof fn matchers_are_made_as_they_are_read(
    args: Seq<LuaValue>,
    ctx: CtxModel,
    pattern: Seq<char>,
    millis: i64,
)
    ensures
        starts_with(args, pattern) ==> (first_step(Binding::Matches, args, ctx) matches Ok(
            LuaStepModel::Reply(LuaReplyModel::Plain(made)),
        ) && made.text_field("__pty_matcher"@) == Some("regex"@) && made.text_field("pattern"@)
            == Some(pattern)),
        call_shape(args).positional.len() > 0 && call_shape(args).positional[0].kind
            == LuaKind::Integer(millis) ==> (first_step(Binding::ScreenStable, args, ctx) matches Ok(
            LuaStepModel::Reply(LuaReplyModel::Plain(made)),
        ) && made.text_field("__pty_matcher"@) == Some("stable"@) && (made.field(
            "stable_ms"@,
        ) matches Some(told) && told.as_signed() == Some(millis))),
{
    names_differ();
    reveal_strlit("__pty_matcher");
}

/// A negative timeout is refused, in turns and in waits.
pub proof fn negative_timeouts_are_refused(args: Seq<LuaValue>, ctx: CtxModel, millis: i64)
    requires
        millis < 0,
        integer_option(call_shape(args).options.pairs, "timeout"@, Some(millis)),
    ensures
        first_step(Binding::Turn, args, ctx) is Err,
        first_step(Binding::WaitMatches, args, ctx) is Err,
        first_step(Binding::WaitScreenStable, args, ctx) is Err,
{
}

/// Whether an option that is a size is a number of 16 bits, where it is given.
pub open spec fn size_is_good(pairs: Pairs, name: Seq<char>) -> bool {
    !is_left_out(pairs, name) ==> (at_name(pairs, name)->Some_0.integer matches Ok(n) && 0 <= n
        <= 65535)
}

/// Whether an option that is a text can be read, where it is given.
pub open spec fn text_is_good(pairs: Pairs, name: Seq<char>) -> bool {
    !is_left_out(pairs, name) ==> at_name(pairs, name)->Some_0.text is Ok
}

/// Whether the options of a call that starts an adapter are of their kinds, and
/// all of them known.
pub open spec fn start_options_are_good(pairs: Pairs) -> bool {
    &&& text_is_good(pairs, "program"@)
    &&& text_is_good(pairs, "cwd"@)
    &&& size_is_good(pairs, "rows"@)
    &&& size_is_good(pairs, "cols"@)
    &&& size_is_good(pairs, "pixel_width"@)
    &&& size_is_good(pairs, "pixel_height"@)
    &&& at_name(pairs, "args"@) matches Some(v) ==> v.texts is Ok
    &&& at_name(pairs, "env"@) matches Some(v) ==> (v.table matches Ok(table) && forall|i: int|
        0 <= i < table.pairs@.len() ==> (#[trigger] table.pairs@[i]).0.read() is Ok
            && table.pairs@[i].1.text is Ok)
    &&& unknown_from(pairs, 0) is None
}

/// Whether an option that is a text stands in a request just where it is given.
pub open spec fn text_is_told(pairs: Pairs, params: JsonModel, name: Seq<char>) -> bool {
    params.field(name) == if is_left_out(pairs, name) {
        None
    } else {
        Some(JsonModel::Str(at_name(pairs, name)->Some_0.text->Ok_0@))
    }
}

/// Whether a size stands in a request just where it is given.
pub open spec fn size_is_told(pairs: Pairs, params: JsonModel, name: Seq<char>) -> bool {
    if is_left_out(pairs, name) {
        params.field(name) is None
    } else {
        params.unsigned_field(name) == Some(at_name(pairs, name)->Some_0.integer->Ok_0 as u64)
    }
}

/// Whether an object holds the first pairs of a table: each name with the text
/// that comes last for it.
pub open spec fn environment_is_told(pairs: Pairs, n: int, told: JsonModel) -> bool {
    forall|i: int|
        0 <= i < n && (forall|j: int|
            i < j < n ==> (#[trigger] pairs[j]).0.read() != pairs[i].0.read()) ==> told.field(
            (#[trigger] pairs[i]).0.read()->Ok_0,
        ) == Some(JsonModel::Str(pairs[i].1.text->Ok_0@))
}

/// Whether a request says how to start an adapter as the options do: each at its
/// own name, and none that was not given.
pub open spec fn start_is_told(pairs: Pairs, plugin: Seq<char>, params: JsonModel) -> bool {
    &&& params.field("plugin"@) == Some(JsonModel::Str(plugin))
    &&& text_is_told(pairs, params, "program"@)
    &&& text_is_told(pairs, params, "cwd"@)
    &&& size_is_told(pairs, params, "rows"@)
    &&& size_is_told(pairs, params, "cols"@)
    &&& size_is_told(pairs, params, "pixel_width"@)
    &&& size_is_told(pairs, params, "pixel_height"@)
    &&& match at_name(pairs, "args"@) {
        Some(v) => params.items_field("args"@) matches Some(told) && told.len()
            == v.texts->Ok_0@.len() && forall|i: int|
            0 <= i < told.len() ==> #[trigger] told[i] == JsonModel::Str(v.texts->Ok_0@[i]@),
        None => params.field("args"@) is None,
    }
    &&& match at_name(pairs, "env"@) {
        Some(v) => params.field("env"@) matches Some(told) && told is Obj && environment_is_told(
            v.table->Ok_0.pairs@,
            v.table->Ok_0.pairs@.len() as int,
            told,
        ),
        None => params.field("env"@) is None,
    }
}

proof fn environments_are_read(pairs: Pairs, n: int)
    requires
        0 <= n <= pairs.len(),
        forall|i: int|
            0 <= i < pairs.len() ==> (#[trigger] pairs[i]).0.read() is Ok && pairs[i].1.text is Ok,
    ensures
        crate::lua::options::env_of(pairs, n) matches Ok(told) && told is Obj
            && environment_is_told(pairs, n, told),
    decreases n,
{
    if n > 0 {
        environments_are_read(pairs, n - 1);
        assert(pairs[n - 1].0.read() is Ok);
        let before = crate::lua::options::env_of(pairs, n - 1)->Ok_0;
        let told = crate::lua::options::env_of(pairs, n)->Ok_0;
        assert forall|i: int|
            0 <= i < n && (forall|j: int|
                i < j < n ==> (#[trigger] pairs[j]).0.read() != pairs[i].0.read()) implies told.field(
            (#[trigger] pairs[i]).0.read()->Ok_0,
        ) == Some(JsonModel::Str(pairs[i].1.text->Ok_0@)) by {
            if i < n - 1 {
                assert(pairs[n - 1].0.read() != pairs[i].0.read());
                assert(forall|j: int|
                    i < j < n - 1 ==> (#[trigger] pairs[j]).0.read() != pairs[i].0.read());
                assert(before.field(pairs[i].0.read()->Ok_0) == Some(
                    JsonModel::Str(pairs[i].1.text->Ok_0@),
                ));
            }
        }
    }
}

proof fn starts_are_told(pairs: Pairs, plugin: Seq<char>)
    requires
        start_options_are_good(pairs),
    ensures
        start_params(plugin, pairs) matches Ok(params) && params is Obj && start_is_told(
            pairs,
            plugin,
            params,
        ) && params.field("prior_adapter"@) is None,
{
    names_differ();
    if let Some(v) = at_name(pairs, "env"@) {
        let own = v.table->Ok_0.pairs@;
        environments_are_read(own, own.len() as int);
    }
}

/// `session.spawn` asks for an adapter of the plugin that it names, started with
/// the options that are given.
pub proof fn spawning_tells_the_options(args: Seq<LuaValue>, ctx: CtxModel, plugin: Seq<char>)
    requires
        starts_with(args, plugin),
        start_options_are_good(call_shape(args).options.pairs),
    ensures
        match first_step(Binding::SessionSpawn, args, ctx) {
            Ok(LuaStepModel::Call { request, pending }) => {
                &&& request.method == "adapter.start"@
                &&& start_is_told(call_shape(args).options.pairs, plugin, request.params)
                &&& request.params.field("prior_adapter"@) is None
                &&& pending == (LuaPendingModel::Started { plugin, prior: None })
            },
            _ => false,
        },
{
    starts_are_told(call_shape(args).options.pairs, plugin);
}

/// `session.resume` asks for an adapter of the plugin that it names, started with
/// the options that are given, in place of the adapter that it names, by the long
/// name or else by the short one.
pub proof fn resuming_tells_the_options(
    args: Seq<LuaValue>,
    ctx: CtxModel,
    plugin: Seq<char>,
    long: Option<Seq<char>>,
    short: Option<Seq<char>>,
)
    requires
        starts_with(args, plugin),
        start_options_are_good(call_shape(args).options.pairs),
        text_option(call_shape(args).options.pairs, "prior_adapter"@, long),
        text_option(call_shape(args).options.pairs, "prior"@, short),
    ensures
        match first_step(Binding::SessionResume, args, ctx) {
            Ok(LuaStepModel::Call { request, pending }) => {
                let prior = if long is Some {
                    long
                } else {
                    short
                };
                &&& request.method == "adapter.resume"@
                &&& start_is_told(call_shape(args).options.pairs, plugin, request.params)
                &&& request.params.text_field("prior_adapter"@) == prior
                &&& prior is None ==> request.params.field("prior_adapter"@) is None
                &&& pending == (LuaPendingModel::Started { plugin, prior })
            },
            _ => false,
        },
{
    names_differ();
    starts_are_told(call_shape(args).options.pairs, plugin);
}

/// `session.list` tells of every tab, in order: its id, its plugin, its state, and
/// whether it has the focus.
pub proof fn tabs_are_listed(args: Seq<LuaValue>, ctx: CtxModel, i: int)
    requires
        0 <= i < ctx.tabs.len(),
    ensures
        match first_step(Binding::SessionList, args, ctx) {
            Ok(LuaStepModel::Reply(LuaReplyModel::Plain(JsonModel::Arr(records)))) => {
                let record = records[i];
                let tab = ctx.tabs[i];
                &&& records.len() == ctx.tabs.len()
                &&& record.text_field("id"@) == Some(tab.id)
                &&& record.text_field("plugin"@) == Some(tab.plugin)
                &&& record.text_field("state"@) == tab.state_label
                &&& record.flag_field("focused"@) == if ctx.focus == Some(tab.id) {
                    Some(true)
                } else {
                    None
                }
            },
            _ => false,
        },
{
    reveal_strlit("id");
    reveal_strlit("plugin");
    reveal_strlit("state");
    reveal_strlit("focused");
}

/// The options of a start.
pub open spec fn is_start_option(name: Seq<char>) -> bool {
    ||| name == "program"@ || name == "cwd"@ || name == "args"@ || name == "env"@
    ||| name == "rows"@ || name == "cols"@ || name == "pixel_width"@ || name == "pixel_height"@
    ||| name == "prior_adapter"@ || name == "prior"@
}

proof fn unknown_names_are_found(pairs: Pairs, i: int, k: int, name: Seq<char>)
    requires
        0 <= i <= k < pairs.len(),
        pairs[k].0.names(name),
        !is_start_option(name),
    ensures
        unknown_from(pairs, i) is Some,
    decreases k - i,
{
    let known = crate::lua::options::known_options();
    if i == k {
        if known.contains(name) {
            let n = known.index_of(name);
            assert(known[n] == name);
            assert(known.len() == 10);
            assert(known[0] == "program"@ && known[1] == "cwd"@ && known[2] == "args"@ && known[3]
                == "env"@ && known[4] == "rows"@ && known[5] == "cols"@);
            assert(known[6] == "pixel_width"@ && known[7] == "pixel_height"@ && known[8]
                == "prior_adapter"@ && known[9] == "prior"@);
        }
    } else {
        unknown_names_are_found(pairs, i + 1, k, name);
    }
}

/// A start with an option that there is none of is refused, and nothing is asked.
pub proof fn unknown_options_are_refused(
    args: Seq<LuaValue>,
    ctx: CtxModel,
    k: int,
    name: Seq<char>,
)
    requires
        0 <= k < call_shape(args).options.pairs.len(),
        call_shape(args).options.pairs[k].0.names(name),
        !is_start_option(name),
    ensures
        first_step(Binding::SessionSpawn, args, ctx) is Err,
        first_step(Binding::SessionResume, args, ctx) is Err,
{
    unknown_names_are_found(call_shape(args).options.pairs, 0, k, name);
}

/// A function that takes a text first is refused without one, and nothing is asked.
pub proof fn texts_are_required(binding: Binding, args: Seq<LuaValue>, ctx: CtxModel)
    requires
        binding is SendText || binding is SendKey || binding is SendIntent || binding is Turn
            || binding is SessionSpawn || binding is SessionResume || binding is CancelWait,
        ({
            let given = call_shape(args).positional;
            given.len() == 0 || !(given[0].kind is String)
        }),
    ensures
        first_step(binding, args, ctx) is Err,
{
}

} // verus!
