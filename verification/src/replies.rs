//! What the server's replies come to: in the list of tabs, on the wire and
//! before the operator, whichever way the question was asked.

use crate::adopt::{
    attach_all_focuses_the_last_live_adapter, attached_adapters_are_shown, lives, is_passed_over,
    removals_are_found, started_adapters_are_shown,
};
use crate::command::dispatch::{
    next_step, screen_outcome, OutcomeModel, PendingModel, StepModel,
};
use crate::command::wire::only_fields;
use crate::ctx::{without, CtxModel, TabModel};
use crate::duration::Duration;
use crate::error::ErrorModel;
use crate::json::{group_json_fields, JsonModel};
use crate::lua::bindings::{reply_step, LuaPendingModel, LuaReplyModel};
use crate::meta::{MetaOutcomeModel, MetaPendingModel, MetaStepModel};
use crate::screen::ScreenSnapshot;
use crate::text::{decimal, join};
use vstd::utf8::encode_utf8;
use vstd::prelude::*;

verus! {

broadcast use group_json_fields;

/// A failed call ends what was asked with that failure, and changes nothing.
pub proof fn failures_change_nothing(
    pending: PendingModel,
    meta: MetaPendingModel,
    lua: LuaPendingModel,
    e: ErrorModel,
    elapsed: Duration,
    ctx: CtxModel,
)
    ensures
        next_step(pending, Err(e), elapsed, ctx) == (
            StepModel::Done { outcome: Err(e), heartbeat: None },
            ctx,
        ),
        crate::meta::next_step(meta, Err(e), ctx) == (
            Err::<MetaStepModel, ErrorModel>(e),
            ctx,
        ),
        reply_step(lua, Err(e), ctx) == (Err::<LuaReplyModel, ErrorModel>(e), ctx),
{
}

/// Whether a command is done, and hands the server's answer on as it came.
pub open spec fn hands_on(step: StepModel, value: JsonModel) -> bool {
    step matches StepModel::Done { outcome: Ok(outcome), .. } && match outcome {
        OutcomeModel::Json(v) => v == value,
        OutcomeModel::Note { value: v, .. } => v == value,
        _ => false,
    }
}

/// The server's answer is handed on as it came, in an outcome of its own or below a
/// summary; only a picture is still to be decoded, and an attached adapter still to
/// be looked at. The heartbeat changes where a subscription was asked for, and
/// nowhere else, and as was asked.
pub proof fn answers_are_handed_on(
    pending: PendingModel,
    value: JsonModel,
    elapsed: Duration,
    ctx: CtxModel,
)
    ensures
        ({
            let step = next_step(pending, Ok(value), elapsed, ctx).0;
            &&& pending is Json || pending is Subscribed ==> (step matches StepModel::Done {
                outcome: Ok(OutcomeModel::Json(_)),
                ..
            })
            &&& !(pending is Screen || pending is AttachOne || pending is AttachAll) ==> hands_on(
                step,
                value,
            )
            &&& step matches StepModel::Done { heartbeat, .. } ==> heartbeat == match pending {
                PendingModel::Subscribed(on) => Some(on),
                _ => None,
            }
            &&& pending matches PendingModel::Screen(id) ==> step == (StepModel::Decode {
                value,
                adapter: id,
            })
        }),
{
}

/// The same of a meta command.
pub proof fn answers_to_meta_commands_are_handed_on(
    pending: MetaPendingModel,
    value: JsonModel,
    ctx: CtxModel,
)
    ensures
        ({
            let step = crate::meta::next_step(pending, Ok(value), ctx).0;
            match pending {
                MetaPendingModel::Json => step == Ok::<MetaStepModel, ErrorModel>(
                    MetaStepModel::Done { outcome: MetaOutcomeModel::Json(value), heartbeat: None },
                ),
                MetaPendingModel::Subscribed(on) => step == Ok::<MetaStepModel, ErrorModel>(
                    MetaStepModel::Done {
                        outcome: MetaOutcomeModel::Json(value),
                        heartbeat: Some(on),
                    },
                ),
                MetaPendingModel::Screen(id) => step == Ok::<MetaStepModel, ErrorModel>(
                    MetaStepModel::Decode { value, adapter: id },
                ),
                _ => true,
            }
        }),
{
}

/// A function of Lua gives the server's answer back as it came, but for a picture,
/// which carries the adapter that it is of, and for a list of live adapters.
pub proof fn answers_to_functions_are_handed_on(
    pending: LuaPendingModel,
    value: JsonModel,
    ctx: CtxModel,
)
    ensures
        ({
            let result = reply_step(pending, Ok(value), ctx).0;
            match pending {
                LuaPendingModel::Screen(id) => result == Ok::<LuaReplyModel, ErrorModel>(
                    LuaReplyModel::Screen { adapter: id, value },
                ),
                LuaPendingModel::AttachAll => result is Ok,
                _ => result == Ok::<LuaReplyModel, ErrorModel>(LuaReplyModel::Json(value)),
            }
        }),
{
}

/// A decoded picture is shown as that of the adapter it was asked of; one that cannot
/// be decoded is an error that ends with the decoder's words.
pub proof fn pictures_are_shown_as_their_adapters(
    adapter: Seq<char>,
    snapshot: ScreenSnapshot,
    message: Seq<char>,
)
    ensures
        screen_outcome(adapter, Ok(snapshot)) == Ok::<OutcomeModel, ErrorModel>(
            OutcomeModel::Screen { adapter, snapshot },
        ),
        screen_outcome(adapter, Err(message)) matches Err(ErrorModel::Rpc(m))
            && crate::adopt::ends(m, message),
{
    let m = "decode adapter.snapshot: "@ + message;
    assert(m.skip(m.len() - message.len()) =~= message);
}

/// Replies to anything but a start, an attachment or a close leave the client's
/// state alone.
pub proof fn most_replies_change_no_state(
    pending: PendingModel,
    meta: MetaPendingModel,
    lua: LuaPendingModel,
    reply: Result<JsonModel, ErrorModel>,
    elapsed: Duration,
    ctx: CtxModel,
)
    ensures
        !(pending is Started || pending is AttachOne || pending is AttachAll || pending is Closed)
            ==> next_step(pending, reply, elapsed, ctx).1 == ctx,
        !(meta is AttachOne || meta is AttachAll) ==> crate::meta::next_step(meta, reply, ctx).1
            == ctx,
        lua is Json || lua is Screen ==> reply_step(lua, reply, ctx).1 == ctx,
        next_step(pending, reply, elapsed, ctx).1.history == ctx.history,
        crate::meta::next_step(meta, reply, ctx).1.history == ctx.history,
        reply_step(lua, reply, ctx).1.history == ctx.history,
{
    if reply is Ok {
        attaching_keeps_the_history(
            ctx,
            crate::adopt::live_entries(reply->Ok_0),
        );
    }
}

proof fn attaching_keeps_the_history(ctx: CtxModel, entries: Seq<JsonModel>)
    ensures
        crate::adopt::with_live_tabs(ctx, entries).history == ctx.history,
    decreases entries.len(),
{
    if entries.len() > 0 {
        attaching_keeps_the_history(ctx, entries.drop_last());
    }
}

/// Where everything was attached, by a command, by `:attach all` or by a function of
/// Lua, the focus is on the last live entry of the server's list. A command and
/// `:attach all` say so; the function gives the ids, with that one last.
pub proof fn attaching_everything_focuses_the_last(
    value: JsonModel,
    elapsed: Duration,
    ctx: CtxModel,
    entries: Seq<JsonModel>,
    k: int,
    id: Seq<char>,
)
    requires
        value.field("adapters"@) == Some(JsonModel::Arr(entries)),
        0 <= k < entries.len(),
        lives(entries[k], id),
        forall|j: int| k < j < entries.len() ==> is_passed_over(#[trigger] entries[j]),
    ensures
        ({
            let (by_call, after_call) = next_step(PendingModel::AttachAll, Ok(value), elapsed, ctx);
            let (by_meta, after_meta) = crate::meta::next_step(
                MetaPendingModel::AttachAll,
                Ok(value),
                ctx,
            );
            let (by_lua, after_lua) = reply_step(LuaPendingModel::AttachAll, Ok(value), ctx);
            &&& after_call.focus == Some(id)
            &&& after_meta == after_call
            &&& after_lua == after_call
            &&& by_call matches StepModel::Done { outcome: Ok(OutcomeModel::Line(line)), .. }
                && crate::adopt::ends(line, " (focus → "@ + id + ")"@)
            &&& by_meta matches Ok(
                MetaStepModel::Done { outcome: MetaOutcomeModel::Line(line), heartbeat },
            ) && heartbeat is None && crate::adopt::ends(line, " (focus → "@ + id + ")"@)
            &&& by_lua matches Ok(LuaReplyModel::Json(given)) && (given.field(
                "attached"@,
            ) matches Some(JsonModel::Arr(ids)) && ids.len() > 0 && ids.last() == JsonModel::Str(
                id,
            ))
        }),
{
    attach_all_focuses_the_last_live_adapter(ctx, value, entries, k, id);
    last_lives(entries, k, id);
}

proof fn last_lives(entries: Seq<JsonModel>, k: int, id: Seq<char>)
    requires
        0 <= k < entries.len(),
        lives(entries[k], id),
        forall|j: int| k < j < entries.len() ==> is_passed_over(#[trigger] entries[j]),
    ensures
        crate::adopt::live_ids(entries).len() > 0,
        crate::adopt::live_ids(entries).last() == id,
    decreases entries.len(),
{
    let last = entries.last();
    if k < entries.len() - 1 {
        assert(is_passed_over(entries[entries.len() - 1]));
        if crate::adopt::live_id(last) is Some {
            assert(lives(last, crate::adopt::live_id(last)->0));
        }
        let init = entries.drop_last();
        assert(init[k] == entries[k]);
        assert forall|j: int| k < j < init.len() implies is_passed_over(#[trigger] init[j]) by {
            assert(init[j] == entries[j]);
        }
        last_lives(init, k, id);
    }
}

/// A started or resumed adapter is shown alike, whether a command or a function of
/// Lua asked for it: it has the focus and a tab of its plugin, and the one that it
/// replaces is gone.
pub proof fn started_adapters_have_the_focus(
    plugin: Seq<char>,
    prior: Option<Seq<char>>,
    value: JsonModel,
    elapsed: Duration,
    ctx: CtxModel,
    id: Seq<char>,
    other: Seq<char>,
)
    requires
        value.field("adapter"@) == Some(JsonModel::Str(id)),
        other != id,
    ensures
        ({
            let after = next_step(
                PendingModel::Started { plugin, prior },
                Ok(value),
                elapsed,
                ctx,
            ).1;
            &&& reply_step(LuaPendingModel::Started { plugin, prior }, Ok(value), ctx).1 == after
            &&& after.focus == Some(id)
            &&& after.plugin_of(id) == match value.field("plugin"@) {
                Some(JsonModel::Str(named)) => Some(named),
                _ => Some(plugin),
            }
            &&& after.plugin_of(other) == if prior == Some(other) {
                None
            } else {
                ctx.plugin_of(other)
            }
        }),
{
    started_adapters_are_shown(ctx, plugin, prior, value, other);
}

/// An attached adapter is shown alike on every way of asking: it has the focus and a
/// tab of its plugin. A command and `:attach` then ask for its picture, unredacted,
/// to show it as that adapter's.
pub proof fn attached_adapters_have_the_focus(
    id: Seq<char>,
    value: JsonModel,
    elapsed: Duration,
    ctx: CtxModel,
    other: Seq<char>,
)
    requires
        other != id,
    ensures
        ({
            let (step, after) = next_step(PendingModel::AttachOne(id), Ok(value), elapsed, ctx);
            let (by_meta, after_meta) = crate::meta::next_step(
                MetaPendingModel::AttachOne(id),
                Ok(value),
                ctx,
            );
            &&& after_meta == after
            &&& reply_step(LuaPendingModel::AttachOne(id), Ok(value), ctx).1 == after
            &&& after.focus == Some(id)
            &&& after.plugin_of(id) == match value.field("plugin"@) {
                Some(JsonModel::Str(plugin)) => Some(plugin),
                _ => Some("?"@),
            }
            &&& after.plugin_of(other) == ctx.plugin_of(other)
            &&& step matches StepModel::Call { request, pending } && {
                &&& pending == PendingModel::Screen(id)
                &&& request.method == "adapter.snapshot"@
                &&& request.params.field("adapter"@) == Some(JsonModel::Str(id))
                &&& request.params.field("redact"@) == Some(JsonModel::Bool(false))
                &&& only_fields(request.params, seq!["adapter"@, "redact"@])
                &&& by_meta == Ok::<MetaStepModel, ErrorModel>(
                    MetaStepModel::Call { request, pending: MetaPendingModel::Screen(id) },
                )
            }
        }),
{
    attached_adapters_are_shown(ctx, id, value, other);
    crate::command::dispatch::names_beside_the_adapter();
    let params = crate::command::dispatch::redact_params(id, false);
    assert(seq!["adapter"@, "redact"@][0] == "adapter"@);
    assert(seq!["adapter"@, "redact"@][1] == "redact"@);
    assert forall|name: Seq<char>| !seq!["adapter"@, "redact"@].contains(name) implies (
    #[trigger] params.field(name)) is None by {
        assert(name != "adapter"@ && name != "redact"@);
    }
}

proof fn last_left(tabs: Seq<TabModel>, id: Seq<char>, k: int)
    requires
        -1 <= k < tabs.len(),
        k >= 0 ==> tabs[k].id != id,
        forall|j: int| k < j < tabs.len() ==> (#[trigger] tabs[j]).id == id,
    ensures
        k < 0 ==> without(tabs, id).len() == 0,
        k >= 0 ==> without(tabs, id).len() > 0 && without(tabs, id).last() == tabs[k],
    decreases tabs.len(),
{
    if k < tabs.len() - 1 {
        let init = tabs.drop_last();
        assert(tabs[tabs.len() - 1].id == id);
        assert forall|j: int| k < j < init.len() implies (#[trigger] init[j]).id == id by {
            assert(init[j] == tabs[j]);
        }
        last_left(init, id, k);
        if k >= 0 {
            assert(init[k] == tabs[k]);
        }
    }
}

/// A closed adapter has no tab any more and every other keeps its own. Where it had
/// the focus, the last of the tabs that are left has it, or nothing where none is;
/// any other focus stays. Commands and functions of Lua do alike, and the operator
/// is told which adapter it was. `k` is the last tab of another adapter, or -1.
pub proof fn closed_adapters_are_gone(
    id: Seq<char>,
    value: JsonModel,
    elapsed: Duration,
    ctx: CtxModel,
    other: Seq<char>,
    k: int,
)
    requires
        other != id,
        -1 <= k < ctx.tabs.len(),
        k >= 0 ==> ctx.tabs[k].id != id,
        forall|j: int| k < j < ctx.tabs.len() ==> (#[trigger] ctx.tabs[j]).id == id,
    ensures
        ({
            let (step, after) = next_step(PendingModel::Closed(id), Ok(value), elapsed, ctx);
            &&& reply_step(LuaPendingModel::Closed(id), Ok(value), ctx).1 == after
            &&& after.plugin_of(id) is None
            &&& after.plugin_of(other) == ctx.plugin_of(other)
            &&& ctx.focus != Some(id) ==> after.focus == ctx.focus
            &&& ctx.focus == Some(id) && k >= 0 ==> after.focus == Some(ctx.tabs[k].id)
            &&& ctx.focus == Some(id) && k < 0 ==> after.focus is None
            &&& step matches StepModel::Done { outcome: Ok(OutcomeModel::Note { note, .. }), .. }
                && note.primary == "closed · "@ + id && note.badges.len() == 0
        }),
{
    removals_are_found(ctx, id, id);
    removals_are_found(ctx, id, other);
    last_left(ctx.tabs, id, k);
}

/// What a summary adds where the server names a state.
pub open spec fn state_told(value: JsonModel, told: Seq<char>) -> bool {
    match value.inner_field("state"@, "state"@) {
        Some(JsonModel::Str(name)) => if name.len() > 0 {
            told == " · state: "@ + name
        } else {
            told.len() == 0
        },
        _ => told.len() == 0,
    }
}

/// What was sent is told: a text by the number of its bytes, a key and an intent by
/// their names, each with the state that the server names.
pub proof fn what_was_sent_is_told(
    text: Seq<char>,
    value: JsonModel,
    elapsed: Duration,
    ctx: CtxModel,
)
    ensures
        exists|told: Seq<char>| #[trigger]
            state_told(value, told) && ({
                let by_text = next_step(PendingModel::SentText(text), Ok(value), elapsed, ctx).0;
                let by_key = next_step(PendingModel::SentKey(text), Ok(value), elapsed, ctx).0;
                let by_intent = next_step(
                    PendingModel::SentIntent(text),
                    Ok(value),
                    elapsed,
                    ctx,
                ).0;
                &&& says(by_text, "wrote "@ + decimal(encode_utf8(text).len()) + " bytes"@ + told)
                &&& says(by_key, "sent key "@ + text + told)
                &&& says(by_intent, "intent "@ + text + told)
            }),
{
    let told = crate::notes::state_suffix(value);
    assert(state_told(value, told));
}

/// Whether a command is done with a summary of one line and no badge.
pub open spec fn says(step: StepModel, line: Seq<char>) -> bool {
    step matches StepModel::Done { outcome: Ok(OutcomeModel::Note { note, .. }), .. }
        && note.primary == line && note.badges.len() == 0
}

/// A number that the server may give, behind its name.
pub open spec fn number_told(
    value: JsonModel,
    outer: Seq<char>,
    inner: Seq<char>,
    label: Seq<char>,
    told: Seq<char>,
) -> bool {
    match value.inner_unsigned(outer, inner) {
        Some(n) => told == label + decimal(n as nat),
        None => told.len() == 0,
    }
}

/// How long a wait or a turn took is told in milliseconds, with the row that matched
/// and the sequence number of the screen, as far as the server gives them. Only a
/// turn has a badge.
pub proof fn how_long_it_took_is_told(value: JsonModel, elapsed: Duration, ctx: CtxModel)
    ensures
        exists|row: Seq<char>, seq: Seq<char>|
            #![trigger
                number_told(value, "matched"@, "row"@, " · row "@, row),
                number_told(value, "state"@, "sequence"@, " · seq "@, seq)
            ]
            {
                &&& number_told(value, "matched"@, "row"@, " · row "@, row)
                &&& number_told(value, "state"@, "sequence"@, " · seq "@, seq)
                &&& says(
                    next_step(PendingModel::Waited { pattern: true }, Ok(value), elapsed, ctx).0,
                    "matched after "@ + decimal(elapsed.millis() as nat) + "ms"@ + row + seq,
                )
                &&& says(
                    next_step(PendingModel::Waited { pattern: false }, Ok(value), elapsed, ctx).0,
                    "stable after "@ + decimal(elapsed.millis() as nat) + "ms"@ + seq,
                )
                &&& next_step(PendingModel::Turned, Ok(value), elapsed, ctx).0 matches StepModel::Done {
                    outcome: Ok(OutcomeModel::Note { note, .. }),
                    ..
                } && note.primary == "turn completed in "@ + decimal(elapsed.millis() as nat)
                    + "ms"@ + row && note.badges == seq!["turn complete"@]
            },
{
    let row = crate::notes::numbered(" · row "@, value.inner_unsigned("matched"@, "row"@));
    let seq = crate::notes::numbered(" · seq "@, value.inner_unsigned("state"@, "sequence"@));
    assert(number_told(value, "matched"@, "row"@, " · row "@, row));
    assert(number_told(value, "state"@, "sequence"@, " · seq "@, seq));
}

/// Whether a part of a summary is told between dots.
pub open spec fn is_told(line: Seq<char>, part: Seq<char>) -> bool {
    exists|parts: Seq<Seq<char>>, i: int|
        0 <= i < parts.len() && #[trigger] parts[i] == part && line == "spawned · "@
            + #[trigger] join(parts, " · "@)
}

/// A started adapter is told of by its id, its plugin, its process, its state, its
/// size as columns by rows and whether it uses the alternate screen, each as far as
/// the server says it, the id first.
pub proof fn started_adapters_are_told_of(
    plugin: Seq<char>,
    prior: Option<Seq<char>>,
    value: JsonModel,
    elapsed: Duration,
    ctx: CtxModel,
)
    ensures
        next_step(
            PendingModel::Started { plugin, prior },
            Ok(value),
            elapsed,
            ctx,
        ).0 matches StepModel::Done { outcome: Ok(OutcomeModel::Note { note, .. }), .. } && {
            let state = value.field("state"@);
            &&& note.badges.len() == 0
            &&& value.field("adapter"@) matches Some(JsonModel::Str(id)) ==> is_told(
                note.primary,
                id,
            ) && crate::text::begins(note.primary, "spawned · "@ + id)
            &&& value.field("plugin"@) matches Some(JsonModel::Str(p)) ==> is_told(note.primary, p)
            &&& value.unsigned_field("pid"@) matches Some(pid) ==> is_told(
                note.primary,
                "pid "@ + decimal(pid as nat),
            )
            &&& value.inner_field("state"@, "state"@) matches Some(JsonModel::Str(name))
                ==> (name.len() > 0 ==> is_told(note.primary, "state: "@ + name))
            &&& state matches Some(s) ==> (s.inner_unsigned("size"@, "cols"@) matches Some(cols)
                ==> (s.inner_unsigned("size"@, "rows"@) matches Some(rows) ==> is_told(
                note.primary,
                decimal(cols as nat) + "×"@ + decimal(rows as nat),
            )))
            &&& value.inner_field("state"@, "metadata"@) matches Some(m) ==> (m.field(
                "alternate_screen"@,
            ) == Some(JsonModel::Bool(true)) ==> is_told(note.primary, "alt-screen"@))
        },
{
    let parts = crate::notes::spawned_parts(value);
    let line = crate::notes::spawned_note(value).primary;
    assert forall|i: int| 0 <= i < parts.len() implies is_told(line, #[trigger] parts[i]) by {
        assert(line == "spawned · "@ + join(parts, " · "@));
    }
    let a: int = if value.text_field("adapter"@) is Some {
        1
    } else {
        0
    };
    let b: int = if value.text_field("plugin"@) is Some {
        a + 1
    } else {
        a
    };
    let c: int = if value.unsigned_field("pid"@) is Some {
        b + 1
    } else {
        b
    };
    let named = match value.inner_text("state"@, "state"@) {
        Some(name) => name.len() > 0,
        None => false,
    };
    let d: int = if named {
        c + 1
    } else {
        c
    };
    let e: int = if crate::notes::dims_text(value.field("state"@)) is Some {
        d + 1
    } else {
        d
    };
    if a > 0 {
        let id = value.text_field("adapter"@)->0;
        assert(parts[0] == id);
        joins_begin(parts, " · "@);
        let rest = choose|rest: Seq<char>| join(parts, " · "@) == parts[0] + rest;
        assert(line =~= "spawned · "@ + id + rest);
        assert(line.take(("spawned · "@ + id).len() as int) =~= "spawned · "@ + id);
    }
    if b > a {
        assert(parts[a] == value.text_field("plugin"@)->0);
    }
    if c > b {
        assert(parts[b] == "pid "@ + decimal(value.unsigned_field("pid"@)->0 as nat));
    }
    if d > c {
        assert(parts[c] == "state: "@ + value.inner_text("state"@, "state"@)->0);
    }
    if e > d {
        assert(parts[d] == crate::notes::dims_text(value.field("state"@))->0);
    }
    if parts.len() > e {
        assert(parts[e] == "alt-screen"@);
    }
}

proof fn joins_begin(parts: Seq<Seq<char>>, sep: Seq<char>)
    requires
        parts.len() > 0,
    ensures
        exists|rest: Seq<char>| join(parts, sep) == parts[0] + rest,
    decreases parts.len(),
{
    if parts.len() == 1 {
        assert(join(parts, sep) =~= parts[0] + Seq::<char>::empty());
    } else {
        joins_begin(parts.drop_last(), sep);
        let rest = choose|rest: Seq<char>| join(parts.drop_last(), sep) == parts.drop_last()[0]
            + rest;
        assert(join(parts, sep) =~= parts[0] + (rest + sep + parts.last()));
    }
}

}
