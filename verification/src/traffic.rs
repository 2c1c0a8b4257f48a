//! What the client asks of the server without being told to, and what it does
//! about what the server tells it.

use crate::adopt::{live_id, live_ids, lives};
use crate::command::dispatch::names_beside_the_adapter;
use crate::command::wire::only_fields;
use crate::ctx::{CtxModel, TabModel};
use crate::dispatcher::{notice_step, notice_text, FocusModel, NoticeStepModel, UiEventModel};
use crate::error::ErrorModel;
use crate::fields::{increasing, lookup, taken_out_increasing};
use crate::json::{group_json_fields, JsonModel};
use crate::screen::ScreenSnapshot;
use crate::snapshot::{
    action_for, forgotten, no_tab_keeps_a_stale_picture, pictures_are_kept, purged, refresh_call,
    PumpEventModel,
};
use crate::startup::{
    following, loop_step, opening_call, LoopStepModel, Opening, Signal, StartupModel,
};
use crate::text::{decimal, trim};
use crate::transport::NotificationModel;
use crate::tui::names_of;
use vstd::prelude::*;

verus! {

broadcast use group_json_fields;

/// At the start the client asks which plugins there are, then to be told of what
/// happens, then which adapters live, and then nothing more.
pub proof fn the_opening_asks_three_things()
    ensures
        ({
            let first = Opening::Plugins;
            let second = following(first);
            let third = following(second);
            &&& opening_call(first) matches Some(call) && call.method == "adapter.list"@
                && only_fields(call.params, Seq::empty())
            &&& opening_call(second) matches Some(call) && call.method
                == "server.set_notifications"@ && call.params.field("enabled"@) == Some(
                JsonModel::Bool(true),
            ) && only_fields(call.params, seq!["enabled"@])
            &&& opening_call(third) matches Some(call) && call.method == "adapter.live"@
                && only_fields(call.params, Seq::empty())
            &&& opening_call(following(third)) is None
        }),
{
    assert(seq!["enabled"@][0] == "enabled"@);
}

/// The plugins that the server names are known from then on, in its order, and no
/// others.
pub proof fn plugins_are_known(
    start: StartupModel,
    value: JsonModel,
    plugins: Seq<JsonModel>,
    k: int,
    name: Seq<char>,
)
    requires
        value.field("plugins"@) == Some(JsonModel::Arr(plugins)),
        forall|j: int|
            0 <= j < plugins.len() ==> (#[trigger] plugins[j]).text_field("name"@) is Some,
        0 <= k < plugins.len(),
        plugins[k].field("name"@) == Some(JsonModel::Str(name)),
    ensures
        ({
            let after = start.told(Opening::Plugins, Ok(value));
            &&& after.plugins.len() == plugins.len()
            &&& after.plugins[k] == name
            &&& after.adapters == start.adapters && after.hint == start.hint
        }),
{
    names_are_in_order(plugins, k);
}

proof fn names_are_in_order(plugins: Seq<JsonModel>, k: int)
    requires
        forall|j: int|
            0 <= j < plugins.len() ==> (#[trigger] plugins[j]).text_field("name"@) is Some,
        0 <= k < plugins.len(),
    ensures
        names_of(plugins).len() == plugins.len(),
        names_of(plugins)[k] == plugins[k].text_field("name"@)->0,
    decreases plugins.len(),
{
    let init = plugins.drop_last();
    assert forall|j: int| 0 <= j < init.len() implies (#[trigger] init[j]).text_field(
        "name"@,
    ) is Some by {
        assert(init[j] == plugins[j]);
    }
    assert(plugins[plugins.len() - 1].text_field("name"@) is Some);
    if k < init.len() {
        names_are_in_order(init, k);
        assert(init[k] == plugins[k]);
    } else if init.len() > 0 {
        names_are_in_order(init, 0);
    } else {
        assert(names_of(init).len() == 0);
    }
}

/// The live adapters are known from then on: each live entry of the server's list, and
/// nothing else. A failure tells nothing, and neither does the answer to the
/// subscription.
pub proof fn live_adapters_are_known(
    start: StartupModel,
    value: JsonModel,
    entries: Seq<JsonModel>,
    id: Seq<char>,
)
    requires
        value.field("adapters"@) == Some(JsonModel::Arr(entries)),
    ensures
        start.told(Opening::Live, Ok(value)).adapters.contains(id) == (exists|k: int|
            0 <= k < entries.len() && lives(#[trigger] entries[k], id)),
        start.told(Opening::Live, Ok(value)).plugins == start.plugins,
{
    ids_are_those_that_live(entries, id);
}

proof fn ids_are_those_that_live(entries: Seq<JsonModel>, id: Seq<char>)
    ensures
        live_ids(entries).contains(id) == (exists|k: int|
            0 <= k < entries.len() && lives(#[trigger] entries[k], id)),
    decreases entries.len(),
{
    if entries.len() == 0 {
        assert(!live_ids(entries).contains(id));
    } else {
        let init = entries.drop_last();
        let last = entries.last();
        ids_are_those_that_live(init, id);
        let before = live_ids(init);
        assert((live_id(last) == Some(id)) == lives(last, id));
        if let Some(named) = live_id(last) {
            let after = before.push(named);
            assert(after[before.len() as int] == named);
            if before.contains(id) {
                let i = before.index_of(id);
                assert(after[i] == id);
            }
            if after.contains(id) {
                let i = after.index_of(id);
                assert(i == before.len() || before[i] == id);
            }
        }
        if lives(last, id) {
            assert(lives(entries[entries.len() - 1], id));
        }
        if exists|k: int| 0 <= k < init.len() && lives(#[trigger] init[k], id) {
            let k = choose|k: int| 0 <= k < init.len() && lives(#[trigger] init[k], id);
            assert(lives(entries[k], id));
        }
        if exists|k: int| 0 <= k < entries.len() && lives(#[trigger] entries[k], id) {
            let k = choose|k: int| 0 <= k < entries.len() && lives(#[trigger] entries[k], id);
            if k < init.len() {
                assert(lives(init[k], id));
            }
        }
    }
}

/// A reply that failed tells nothing, and neither does the one to the subscription.
pub proof fn failures_tell_nothing(
    start: StartupModel,
    opening: Opening,
    reply: Result<JsonModel, ErrorModel>,
)
    requires
        reply is Err || opening is Subscribe || opening is Done,
    ensures
        start.told(opening, reply) == start,
{
}

/// A change of the focused session fetches the focused adapter's picture; that of
/// another one, or without a focus, does nothing; output is not told; all else is told
/// in a line that begins with its method.
pub proof fn notices_are_acted_on(
    focus: FocusModel,
    notification: NotificationModel,
    session: Seq<char>,
    adapter: Seq<char>,
)
    requires
        notification.params.field("session"@) == Some(JsonModel::Str(session)),
    ensures
        notification.method == "session.output"@ ==> notice_step(focus, notification) is Nothing,
        notification.method == "session.changed"@ && focus.adapter == Some(adapter)
            && focus.session == Some(session) ==> notice_step(focus, notification)
            == NoticeStepModel::Fetch(adapter),
        notification.method == "session.changed"@ && (focus.adapter is None || focus.session
            != Some(session)) ==> notice_step(focus, notification) is Nothing,
        notification.method != "session.output"@ && notification.method != "session.changed"@ ==> (
        notice_step(focus, notification) matches NoticeStepModel::Tell(UiEventModel::Notice(text))
            && crate::text::begins(text, notification.method)),
        notification.method == "session.exited"@ ==> notice_text(notification)
            == "session.exited  "@ + session + match notification.params.unsigned_field(
            "sequence"@,
        ) {
            Some(n) => " seq="@ + decimal(n as nat),
            None => Seq::empty(),
        },
{
    reveal_strlit("session.output");
    reveal_strlit("session.changed");
    reveal_strlit("session.exited");
    reveal_strlit("session.exited  ");
    assert("session.output"@.len() == 14);
    assert("session.changed"@.len() == 15);
    let text = notice_text(notification);
    assert("session.exited  "@.take(14) =~= "session.exited"@);
    assert(text.take(notification.method.len() as int) =~= notification.method);
    assert("session.exited  "@ + session + Seq::<char>::empty() =~= "session.exited  "@ + session);
}

/// The focused adapter's picture is asked for, unredacted, and kept as that adapter's;
/// without a focus nothing is asked.
pub proof fn the_focused_picture_is_fetched(ctx: CtxModel)
    ensures
        ctx.focus is None ==> refresh_call(ctx) is None,
        ctx.focus matches Some(id) ==> (refresh_call(ctx) matches Some((whose, call)) && whose
            == id && call.method == "adapter.snapshot"@ && call.params.field("adapter"@) == Some(
            JsonModel::Str(id),
        ) && call.params.field("redact"@) == Some(JsonModel::Bool(false)) && only_fields(
            call.params,
            seq!["adapter"@, "redact"@],
        )),
{
    names_beside_the_adapter();
    let names = seq!["adapter"@, "redact"@];
    assert(names[0] == "adapter"@ && names[1] == "redact"@);
    if let Some(id) = ctx.focus {
        let params = crate::command::dispatch::redact_params(id, false);
        assert forall|name: Seq<char>| !names.contains(name) implies (#[trigger] params.field(
            name,
        )) is None by {
            assert(name != "adapter"@ && name != "redact"@);
        }
    }
}

/// The picture is asked for again when a session changed or exited and when nothing
/// has come for a while; the end of the connection ends the watching, and anything else
/// is waited over. Only an exit forgets pictures.
pub proof fn changes_are_watched(notification: NotificationModel)
    ensures
        action_for(PumpEventModel::Notified(notification)) is Refresh <==> notification.method
            == "session.changed"@,
        action_for(PumpEventModel::Notified(notification)) is RefreshAndPurge
            <==> notification.method == "session.exited"@,
        !(action_for(PumpEventModel::Notified(notification)) is Stop),
        action_for(PumpEventModel::Idle) is Refresh,
        action_for(PumpEventModel::Closed) is Stop,
{
    reveal_strlit("session.changed");
    reveal_strlit("session.exited");
    assert("session.changed"@.len() == 15);
    assert("session.exited"@.len() == 14);
}

proof fn other_pictures_stay(
    pictures: Seq<(Seq<char>, ScreenSnapshot)>,
    tabs: Seq<TabModel>,
    other: Seq<char>,
)
    requires
        increasing(pictures),
        forall|i: int| 0 <= i < tabs.len() ==> (#[trigger] tabs[i]).id != other,
    ensures
        increasing(forgotten(pictures, tabs)),
        lookup(forgotten(pictures, tabs), other) == lookup(pictures, other),
    decreases tabs.len(),
{
    if tabs.len() > 0 {
        let init = tabs.drop_last();
        assert forall|i: int| 0 <= i < init.len() implies (#[trigger] init[i]).id != other by {
            assert(init[i] == tabs[i]);
        }
        other_pictures_stay(pictures, init, other);
        let before = forgotten(pictures, init);
        assert(tabs[tabs.len() - 1].id != other);
        taken_out_increasing(before, tabs.last().id);
        if pictures.len() > 0 {
            pictures_are_kept(before, tabs.last().id, pictures[0].1, other);
        } else {
            lookup_none(pictures, init);
            assert(before.len() == 0);
        }
    }
}

proof fn lookup_none(pictures: Seq<(Seq<char>, ScreenSnapshot)>, tabs: Seq<TabModel>)
    requires
        pictures.len() == 0,
    ensures
        forgotten(pictures, tabs).len() == 0,
    decreases tabs.len(),
{
    if tabs.len() > 0 {
        lookup_none(pictures, tabs.drop_last());
    }
}

/// When a named session exits, the pictures of all tabs are forgotten and every other
/// one stays; an exit that names none forgets nothing.
pub proof fn exits_forget_the_pictures(
    pictures: Seq<(Seq<char>, ScreenSnapshot)>,
    params: JsonModel,
    ctx: CtxModel,
    id: Seq<char>,
)
    requires
        increasing(pictures),
    ensures
        params.field("session"@) is None ==> purged(pictures, params, ctx) == pictures,
        params.field("session"@) matches Some(JsonModel::Str(_)) ==> ({
            let known = exists|i: int|
                0 <= i < ctx.tabs.len() && (#[trigger] ctx.tabs[i]).id == id;
            &&& known ==> lookup(purged(pictures, params, ctx), id) is None
            &&& !known ==> lookup(purged(pictures, params, ctx), id) == lookup(pictures, id)
        }),
{
    if exists|i: int| 0 <= i < ctx.tabs.len() && (#[trigger] ctx.tabs[i]).id == id {
        let i = choose|i: int| 0 <= i < ctx.tabs.len() && (#[trigger] ctx.tabs[i]).id == id;
        no_tab_keeps_a_stale_picture(pictures, ctx.tabs, i);
    } else {
        other_pictures_stay(pictures, ctx.tabs, id);
    }
}

/// A line is run as it was entered, without the white space round it: behind a colon as
/// a meta command, otherwise as Lua. A blank one is passed over.
pub proof fn lines_are_run(line: String)
    ensures
        match loop_step(Signal::Line(line)) {
            LoopStepModel::Again => trim(line@).len() == 0,
            LoopStepModel::Meta(rest) => trim(line@) == seq![':'] + rest,
            LoopStepModel::Lua(text) => text == trim(line@) && text.len() > 0 && text[0] != ':',
            _ => false,
        },
{
    let text = trim(line@);
    if text.len() > 0 && text[0] == ':' {
        assert(text =~= seq![':'] + text.drop_first());
    }
}

}
