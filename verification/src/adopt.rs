//! Taking adapters of the server into the client's tabs.

use crate::ctx::{AdapterTab, CtxModel, ReplCtx, TabModel};
use crate::json::{models, Json, JsonModel};
use crate::text::{decimal, decimal_text, join, joined, same, texts, texts_push};
use vstd::prelude::*;

verus! {

broadcast use vstd::string::group_string_axioms;

// ---- one adapter --------------------------------------------------------

/// The state after an adapter was started: if the reply names it, it has a
/// tab and the focus. The reply's plugin name goes before the requested one.
pub open spec fn adopted(ctx: CtxModel, requested: Seq<char>, reply: JsonModel) -> CtxModel {
    match reply.text_field("adapter"@) {
        Some(id) => {
            let plugin = match reply.text_field("plugin"@) {
                Some(p) => p,
                None => requested,
            };
            ctx.upsert(id, plugin).with_focus(id)
        },
        None => ctx,
    }
}

/// Takes a started adapter into the tabs.
pub fn adopt_started_adapter(ctx: &mut ReplCtx, requested_plugin: &str, result: &Json)
    ensures
        final(ctx)@ == adopted(old(ctx)@, requested_plugin@, result@),
{
    if let Some(id) = result.get_str("adapter") {
        match result.get_str("plugin") {
            Some(plugin) => {
                ctx.upsert_adapter(id.as_str(), plugin.as_str());
            },
            None => {
                ctx.upsert_adapter(id.as_str(), requested_plugin);
            },
        }
        ctx.set_focus(id.as_str());
    }
}

/// The state after an adapter was resumed: the adapter it replaces is gone.
pub open spec fn resumed(
    ctx: CtxModel,
    requested: Seq<char>,
    prior: Option<Seq<char>>,
    reply: JsonModel,
) -> CtxModel {
    let before = match prior {
        Some(id) => ctx.remove(id),
        None => ctx,
    };
    adopted(before, requested, reply)
}

/// The plugin that a reply names, or a question mark.
pub open spec fn plugin_or_unknown(reply: JsonModel) -> Seq<char> {
    match reply.text_field("plugin"@) {
        Some(p) => p,
        None => "?"@,
    }
}

fn plugin_text(reply: &Json) -> (r: String)
    ensures
        r@ == plugin_or_unknown(reply@),
{
    match reply.get_str("plugin") {
        Some(p) => p.clone(),
        None => "?".to_owned(),
    }
}

/// The state after attaching one adapter, given what the server says of it.
pub open spec fn attached_one(ctx: CtxModel, id: Seq<char>, reply: JsonModel) -> CtxModel {
    let shown = ctx.upsert(id, plugin_or_unknown(reply));
    let named = match reply.inner_text("state"@, "state"@) {
        Some(label) => shown.label(id, Some(label)),
        None => shown,
    };
    named.with_focus(id)
}

/// Attaches one adapter.
pub fn attach_one(ctx: &mut ReplCtx, id: &str, reply: &Json)
    ensures
        final(ctx)@ == attached_one(old(ctx)@, id@, reply@),
{
    ctx.upsert_adapter(id, plugin_text(reply).as_str());
    if let Some(label) = reply.get_inner_str("state", "state") {
        ctx.set_state_label(id, Some(label.clone()));
    }
    ctx.set_focus(id);
}

// ---- all live adapters --------------------------------------------------

/// The id of a live entry: one that is not finished and has an id.
pub open spec fn live_id(entry: JsonModel) -> Option<Seq<char>> {
    if entry.flag_field("finished"@) == Some(true) {
        None
    } else {
        match entry.text_field("adapter"@) {
            Some(id) => if id.len() > 0 {
                Some(id)
            } else {
                None
            },
            None => None,
        }
    }
}

/// The entries that `adapter.live` reports.
pub open spec fn live_entries(reply: JsonModel) -> Seq<JsonModel> {
    match reply.items_field("adapters"@) {
        Some(items) => items,
        None => Seq::empty(),
    }
}

/// The ids of the live entries, in order.
pub open spec fn live_ids(entries: Seq<JsonModel>) -> Seq<Seq<char>>
    decreases entries.len(),
{
    if entries.len() == 0 {
        Seq::empty()
    } else {
        let before = live_ids(entries.drop_last());
        match live_id(entries.last()) {
            Some(id) => before.push(id),
            None => before,
        }
    }
}

/// The state with a tab for every live entry.
pub open spec fn with_live_tabs(ctx: CtxModel, entries: Seq<JsonModel>) -> CtxModel
    decreases entries.len(),
{
    if entries.len() == 0 {
        ctx
    } else {
        let before = with_live_tabs(ctx, entries.drop_last());
        match live_id(entries.last()) {
            Some(id) => before.upsert(id, plugin_or_unknown(entries.last())),
            None => before,
        }
    }
}

/// The state after attaching every live adapter: the last one has the focus.
pub open spec fn attached_all(ctx: CtxModel, reply: JsonModel) -> CtxModel {
    let entries = live_entries(reply);
    let ids = live_ids(entries);
    let shown = with_live_tabs(ctx, entries);
    if ids.len() > 0 {
        shown.with_focus(ids.last())
    } else {
        shown
    }
}

fn entry_id(entry: &Json) -> (r: Option<String>)
    ensures
        match r {
            Some(id) => live_id(entry@) == Some(id@),
            None => live_id(entry@) is None,
        },
{
    let finished: bool = match entry.get_bool("finished") {
        Some(b) => b,
        None => false,
    };
    if finished {
        return None;
    }
    match entry.get_str("adapter") {
        Some(id) => if id.as_str().is_empty() {
            None
        } else {
            Some(id.clone())
        },
        None => None,
    }
}

/// The ids of the adapters that `adapter.live` reports as running.
pub fn extract_live_ids(value: &Json) -> (r: Vec<String>)
    ensures
        texts(r@) == live_ids(live_entries(value@)),
{
    let mut out: Vec<String> = Vec::new();
    assert(texts(out@) == Seq::<Seq<char>>::empty());
    let entries: &Vec<Json> = match value.get_array("adapters") {
        Some(entries) => entries,
        None => {
            return out;
        },
    };
    let ghost all = models(entries@);
    let mut i: usize = 0;
    assert(all.take(0) == Seq::<JsonModel>::empty());
    while i < entries.len()
        invariant
            i <= entries@.len(),
            all == models(entries@),
            texts(out@) == live_ids(all.take(i as int)),
        decreases entries@.len() - i,
    {
        proof {
            assert(all.take(i + 1).drop_last() == all.take(i as int));
            assert(all.take(i + 1).last() == entries@[i as int]@);
        }
        if let Some(id) = entry_id(&entries[i]) {
            proof {
                texts_push(out@, id);
            }
            out.push(id);
        }
        i += 1;
    }
    assert(all.take(i as int) == all);
    out
}

/// Attaches every adapter that `adapter.live` reports as running, and returns
/// their ids.
pub fn attach_live(ctx: &mut ReplCtx, live: &Json) -> (r: Vec<String>)
    ensures
        final(ctx)@ == attached_all(old(ctx)@, live@),
        texts(r@) == live_ids(live_entries(live@)),
{
    let mut attached: Vec<String> = Vec::new();
    assert(texts(attached@) == Seq::<Seq<char>>::empty());
    if let Some(entries) = live.get_array("adapters") {
        let ghost all = models(entries@);
        let mut i: usize = 0;
        assert(all.take(0) == Seq::<JsonModel>::empty());
        while i < entries.len()
            invariant
                i <= entries@.len(),
                all == models(entries@),
                texts(attached@) == live_ids(all.take(i as int)),
                ctx@ == with_live_tabs(old(ctx)@, all.take(i as int)),
            decreases entries@.len() - i,
        {
            proof {
                assert(all.take(i + 1).drop_last() == all.take(i as int));
                assert(all.take(i + 1).last() == entries@[i as int]@);
            }
            if let Some(id) = entry_id(&entries[i]) {
                proof {
                    texts_push(attached@, id);
                }
                ctx.upsert_adapter(id.as_str(), plugin_text(&entries[i]).as_str());
                attached.push(id);
            }
            i += 1;
        }
        assert(all.take(i as int) == all);
    }
    if attached.len() > 0 {
        let last: usize = attached.len() - 1;
        assert(texts(attached@).last() == attached@[last as int]@);
        ctx.set_focus(attached[last].as_str());
    }
    attached
}

/// What the client says after attaching.
pub open spec fn attached_line(ids: Seq<Seq<char>>) -> Seq<char> {
    if ids.len() == 0 {
        "(no live adapters on the server)"@
    } else {
        "attached "@ + decimal(ids.len()) + " adapter(s): "@ + join(ids, ", "@) + " (focus → "@
            + ids.last() + ")"@
    }
}

/// What the client says after attaching.
pub fn attached_text(attached: &Vec<String>) -> (r: String)
    ensures
        r@ == attached_line(texts(attached@)),
{
    if attached.len() == 0 {
        return "(no live adapters on the server)".to_owned();
    }
    let last: usize = attached.len() - 1;
    let mut out: String = "attached ".to_owned();
    out.push_str(decimal_text(attached.len() as u128).as_str());
    out.push_str(" adapter(s): ");
    out.push_str(joined(attached, ", ").as_str());
    out.push_str(" (focus → ");
    out.push_str(attached[last].as_str());
    out.push_str(")");
    assert(texts(attached@).last() == attached@[last as int]@);
    out
}

// ---- the tab list -------------------------------------------------------

/// How a tab is listed: the focused one has a star.
pub open spec fn tab_entry(tab: TabModel, focus: Option<Seq<char>>) -> Seq<char> {
    (if focus == Some(tab.id) {
        "*"@
    } else {
        ""@
    }) + tab.id + ":"@ + tab.plugin
}

/// All tabs, in order.
pub open spec fn tabs_line(ctx: CtxModel) -> Seq<char> {
    if ctx.tabs.len() == 0 {
        "(no adapters)"@
    } else {
        join(ctx.tabs.map_values(|t: TabModel| tab_entry(t, ctx.focus)), "  "@)
    }
}

/// All tabs, in order.
pub fn format_tabs(ctx: &ReplCtx) -> (r: String)
    ensures
        r@ == tabs_line(ctx@),
{
    if ctx.adapters.len() == 0 {
        return "(no adapters)".to_owned();
    }
    let mut parts: Vec<String> = Vec::new();
    let ghost all = ctx@.tabs.map_values(|t: TabModel| tab_entry(t, ctx@.focus));
    let mut i: usize = 0;
    assert(texts(parts@) == all.take(0));
    while i < ctx.adapters.len()
        invariant
            i <= ctx.adapters@.len(),
            all == ctx@.tabs.map_values(|t: TabModel| tab_entry(t, ctx@.focus)),
            texts(parts@) == all.take(i as int),
        decreases ctx.adapters@.len() - i,
    {
        let tab: &AdapterTab = &ctx.adapters[i];
        let focused: bool = match &ctx.focus {
            Some(id) => same(id.as_str(), tab.id.as_str()),
            None => false,
        };
        let mut part: String = if focused {
            "*".to_owned()
        } else {
            "".to_owned()
        };
        part.push_str(tab.id.as_str());
        part.push_str(":");
        part.push_str(tab.plugin.as_str());
        proof {
            assert(ctx@.tabs[i as int] == tab@);
            assert(all[i as int] == part@);
            texts_push(parts@, part);
            assert(all.take(i + 1) == all.take(i as int).push(all[i as int]));
        }
        parts.push(part);
        i += 1;
    }
    assert(all.take(i as int) == all);
    joined(&parts, "  ")
}

// ---- laws ---------------------------------------------------------------

proof fn with_live_tabs_keeps(ctx: CtxModel, entries: Seq<JsonModel>)
    requires
        ctx.distinct(),
    ensures
        with_live_tabs(ctx, entries).distinct(),
        forall|i: int|
            0 <= i < live_ids(entries).len() ==> with_live_tabs(ctx, entries).knows(
                #[trigger] live_ids(entries)[i],
            ),
        ctx.focus_known() ==> with_live_tabs(ctx, entries).focus_known(),
        with_live_tabs(ctx, entries).focus == ctx.focus,
    decreases entries.len(),
{
    if entries.len() > 0 {
        let init = entries.drop_last();
        with_live_tabs_keeps(ctx, init);
        let before = with_live_tabs(ctx, init);
        if let Some(id) = live_id(entries.last()) {
            crate::ctx::upsert_keeps_ids(before, id, plugin_or_unknown(entries.last()));
            let after = with_live_tabs(ctx, entries);
            assert forall|i: int| 0 <= i < live_ids(entries).len() implies after.knows(
                #[trigger] live_ids(entries)[i],
            ) by {
                if i < live_ids(init).len() {
                    assert(live_ids(entries)[i] == live_ids(init)[i]);
                    assert(before.knows(live_ids(init)[i]));
                }
            }
        }
    }
}

/// After attaching everything, every reported adapter has a tab, no two tabs
/// share an id, and the focus is on a tab.
pub proof fn attach_all_knows_every_live_adapter(ctx: CtxModel, reply: JsonModel)
    requires
        ctx.distinct(),
        ctx.focus_known(),
    ensures
        attached_all(ctx, reply).distinct(),
        attached_all(ctx, reply).focus_known(),
        forall|i: int|
            0 <= i < live_ids(live_entries(reply)).len() ==> attached_all(ctx, reply).knows(
                #[trigger] live_ids(live_entries(reply))[i],
            ),
{
    let entries = live_entries(reply);
    with_live_tabs_keeps(ctx, entries);
    let ids = live_ids(entries);
    if ids.len() > 0 {
        assert(ids[ids.len() - 1] == ids.last());
    }
}

/// A started adapter that the reply names has a tab and the focus; ids stay
/// distinct, and the focus stays on a tab.
pub proof fn adopt_focuses_the_adapter(ctx: CtxModel, requested: Seq<char>, reply: JsonModel)
    requires
        ctx.distinct(),
        ctx.focus_known(),
    ensures
        adopted(ctx, requested, reply).distinct(),
        adopted(ctx, requested, reply).focus_known(),
        reply.text_field("adapter"@) matches Some(id) ==> adopted(ctx, requested, reply).focus
            == Some(id) && adopted(ctx, requested, reply).knows(id),
{
    if let Some(id) = reply.text_field("adapter"@) {
        let plugin = match reply.text_field("plugin"@) {
            Some(p) => p,
            None => requested,
        };
        crate::ctx::upsert_keeps_ids(ctx, id, plugin);
    }
}

/// A resumed adapter replaces its prior one: the prior id is gone unless the
/// reply names it again.
pub proof fn resume_drops_the_prior_adapter(
    ctx: CtxModel,
    requested: Seq<char>,
    prior: Seq<char>,
    reply: JsonModel,
)
    requires
        ctx.distinct(),
        ctx.focus_known(),
    ensures
        resumed(ctx, requested, Some(prior), reply).distinct(),
        resumed(ctx, requested, Some(prior), reply).focus_known(),
        reply.text_field("adapter"@) != Some(prior) ==> !resumed(
            ctx,
            requested,
            Some(prior),
            reply,
        ).knows(prior),
{
    crate::ctx::remove_keeps_ids(ctx, prior);
    let before = ctx.remove(prior);
    adopt_focuses_the_adapter(before, requested, reply);
    if let Some(id) = reply.text_field("adapter"@) {
        let plugin = match reply.text_field("plugin"@) {
            Some(p) => p,
            None => requested,
        };
        crate::ctx::upsert_keeps_ids(before, id, plugin);
        assert(!before.knows(prior));
    }
}

/// Whether an entry of the server's list is live, with an id: it is not said to be
/// finished, and its id is a text that is not empty.
pub open spec fn lives(entry: JsonModel, id: Seq<char>) -> bool {
    &&& entry.field("finished"@) != Some(JsonModel::Bool(true))
    &&& entry.field("adapter"@) == Some(JsonModel::Str(id))
    &&& id.len() > 0
}

/// Whether an entry of the server's list is passed over.
pub open spec fn is_passed_over(entry: JsonModel) -> bool {
    forall|id: Seq<char>| !#[trigger] lives(entry, id)
}

proof fn the_last_live_entry_comes_last(entries: Seq<JsonModel>, k: int, id: Seq<char>)
    requires
        0 <= k < entries.len(),
        lives(entries[k], id),
        forall|j: int| k < j < entries.len() ==> is_passed_over(#[trigger] entries[j]),
    ensures
        live_ids(entries).len() > 0,
        live_ids(entries).last() == id,
    decreases entries.len(),
{
    let last = entries.last();
    if k < entries.len() - 1 {
        assert(is_passed_over(entries[entries.len() - 1]));
        if let Some(other) = live_id(last) {
            assert(lives(last, other));
        }
        the_last_live_entry_comes_last(entries.drop_last(), k, id);
    }
}

proof fn nothing_lives(entries: Seq<JsonModel>, ctx: CtxModel)
    requires
        forall|j: int| 0 <= j < entries.len() ==> is_passed_over(#[trigger] entries[j]),
    ensures
        live_ids(entries).len() == 0,
        with_live_tabs(ctx, entries) == ctx,
    decreases entries.len(),
{
    if entries.len() > 0 {
        assert(is_passed_over(entries[entries.len() - 1]));
        if let Some(other) = live_id(entries.last()) {
            assert(lives(entries.last(), other));
        }
        nothing_lives(entries.drop_last(), ctx);
    }
}

proof fn live_entries_keep_the_focus(ctx: CtxModel, entries: Seq<JsonModel>)
    ensures
        with_live_tabs(ctx, entries).focus == ctx.focus,
        with_live_tabs(ctx, entries).history == ctx.history,
        with_live_tabs(ctx, entries).max_history == ctx.max_history,
    decreases entries.len(),
{
    if entries.len() > 0 {
        live_entries_keep_the_focus(ctx, entries.drop_last());
    }
}

/// What a text ends with.
pub open spec fn ends(s: Seq<char>, end: Seq<char>) -> bool {
    s.len() >= end.len() && s.skip(s.len() - end.len()) == end
}

/// After everything was attached the focus is on the last live entry of the
/// server's list, and that is the adapter that the operator is told of. Where
/// nothing lives, nothing changes, and the operator is told so.
pub proof fn attach_all_focuses_the_last_live_adapter(
    ctx: CtxModel,
    reply: JsonModel,
    entries: Seq<JsonModel>,
    k: int,
    id: Seq<char>,
)
    requires
        reply.field("adapters"@) == Some(JsonModel::Arr(entries)),
        forall|j: int| k < j < entries.len() ==> is_passed_over(#[trigger] entries[j]),
        0 <= k < entries.len() && lives(entries[k], id) || k == -1,
    ensures
        k >= 0 ==> attached_all(ctx, reply).focus == Some(id),
        k >= 0 ==> ends(
            attached_line(live_ids(live_entries(reply))),
            " (focus → "@ + id + ")"@,
        ),
        k < 0 ==> attached_all(ctx, reply) == ctx,
        k < 0 ==> attached_line(live_ids(live_entries(reply))) == "(no live adapters on the server)"@,
        attached_all(ctx, reply).history == ctx.history,
{
    assert(live_entries(reply) == entries);
    live_entries_keep_the_focus(ctx, entries);
    if k >= 0 {
        the_last_live_entry_comes_last(entries, k, id);
        let ids = live_ids(entries);
        let tail = " (focus → "@ + id + ")"@;
        let line = attached_line(ids);
        let head = "attached "@ + decimal(ids.len()) + " adapter(s): "@ + join(ids, ", "@);
        assert(line =~= head + tail);
        assert(line.skip(line.len() - tail.len()) =~= tail);
    } else {
        nothing_lives(entries, ctx);
    }
}

/// After everything was attached, each live entry of the server's list has a tab of
/// its own plugin, or that of a later entry with its id; every other tab is as it
/// was.
pub proof fn attach_all_shows_the_plugins(
    ctx: CtxModel,
    reply: JsonModel,
    entries: Seq<JsonModel>,
    k: int,
    id: Seq<char>,
)
    requires
        reply.field("adapters"@) == Some(JsonModel::Arr(entries)),
        forall|j: int| k < j < entries.len() ==> !lives(#[trigger] entries[j], id),
        0 <= k < entries.len() && lives(entries[k], id) || k == -1,
    ensures
        attached_all(ctx, reply).plugin_of(id) == if k >= 0 {
            match entries[k].field("plugin"@) {
                Some(JsonModel::Str(plugin)) => Some(plugin),
                _ => Some("?"@),
            }
        } else {
            ctx.plugin_of(id)
        },
{
    assert(live_entries(reply) == entries);
    live_tabs_show_the_plugins(ctx, entries, k, id);
}

proof fn live_tabs_show_the_plugins(
    ctx: CtxModel,
    entries: Seq<JsonModel>,
    k: int,
    id: Seq<char>,
)
    requires
        forall|j: int| k < j < entries.len() ==> !lives(#[trigger] entries[j], id),
        0 <= k < entries.len() && lives(entries[k], id) || k == -1,
    ensures
        with_live_tabs(ctx, entries).plugin_of(id) == if k >= 0 {
            match entries[k].field("plugin"@) {
                Some(JsonModel::Str(plugin)) => Some(plugin),
                _ => Some("?"@),
            }
        } else {
            ctx.plugin_of(id)
        },
    decreases entries.len(),
{
    if entries.len() > 0 {
        let n = entries.len() - 1;
        let last = entries.last();
        let init = entries.drop_last();
        let before = with_live_tabs(ctx, init);
        if let Some(other) = live_id(last) {
            assert(lives(last, other));
            upserts_are_found(before, other, plugin_or_unknown(last), id);
            if k < n {
                assert(!lives(entries[n], id));
            }
        }
        if k < n {
            assert forall|j: int| k < j < init.len() implies !lives(#[trigger] init[j], id) by {
                assert(!lives(entries[j], id));
            }
            live_tabs_show_the_plugins(ctx, init, k, id);
        } else {
            assert(lives(entries[n], id));
        }
    }
}

proof fn upserts_are_found(ctx: CtxModel, named: Seq<char>, plugin: Seq<char>, id: Seq<char>)
    ensures
        ctx.upsert(named, plugin).plugin_of(id) == if named == id {
            Some(plugin)
        } else {
            ctx.plugin_of(id)
        },
{
    let change = crate::ctx::TabChange::Upsert { id: named, plugin };
    crate::ctx::last_change_decides(ctx, seq![change], id);
    assert(seq![change].drop_last() =~= Seq::<crate::ctx::TabChange>::empty());
    assert(ctx.after(Seq::<crate::ctx::TabChange>::empty()) == ctx);
    assert(ctx.after(seq![change]) == ctx.upsert(named, plugin));
    assert(crate::ctx::last_word(
        Seq::<crate::ctx::TabChange>::empty(),
        id,
        ctx.plugin_of(id),
    ) == ctx.plugin_of(id));
}

/// A started adapter has the focus, and a tab of the plugin that the reply names,
/// or else of the one that was asked for; every other tab keeps its plugin, but for
/// the adapter that it replaces, which is gone. A reply without an id changes
/// nothing more.
pub proof fn started_adapters_are_shown(
    ctx: CtxModel,
    requested: Seq<char>,
    prior: Option<Seq<char>>,
    reply: JsonModel,
    other: Seq<char>,
)
    ensures
        ({
            let after = resumed(ctx, requested, prior, reply);
            match reply.field("adapter"@) {
                Some(JsonModel::Str(id)) => {
                    &&& after.focus == Some(id)
                    &&& after.plugin_of(id) == match reply.field("plugin"@) {
                        Some(JsonModel::Str(plugin)) => Some(plugin),
                        _ => Some(requested),
                    }
                    &&& other != id ==> after.plugin_of(other) == if prior == Some(other) {
                        None
                    } else {
                        ctx.plugin_of(other)
                    }
                },
                _ => {
                    &&& prior is None ==> after == ctx
                    &&& after.plugin_of(other) == if prior == Some(other) {
                        None
                    } else {
                        ctx.plugin_of(other)
                    }
                },
            }
        }),
{
    let before = match prior {
        Some(id) => ctx.remove(id),
        None => ctx,
    };
    if let Some(gone) = prior {
        removals_are_found(ctx, gone, other);
    }
    if let Some(JsonModel::Str(id)) = reply.field("adapter"@) {
        let plugin = match reply.text_field("plugin"@) {
            Some(p) => p,
            None => requested,
        };
        upserts_are_found(before, id, plugin, id);
        upserts_are_found(before, id, plugin, other);
    }
}

pub(crate) proof fn removals_are_found(ctx: CtxModel, gone: Seq<char>, id: Seq<char>)
    ensures
        ctx.remove(gone).plugin_of(id) == if gone == id {
            None
        } else {
            ctx.plugin_of(id)
        },
{
    let change = crate::ctx::TabChange::Remove { id: gone };
    crate::ctx::last_change_decides(ctx, seq![change], id);
    assert(seq![change].drop_last() =~= Seq::<crate::ctx::TabChange>::empty());
    assert(ctx.after(Seq::<crate::ctx::TabChange>::empty()) == ctx);
    assert(ctx.after(seq![change]) == ctx.remove(gone));
    assert(crate::ctx::last_word(
        Seq::<crate::ctx::TabChange>::empty(),
        id,
        ctx.plugin_of(id),
    ) == ctx.plugin_of(id));
}

/// An adapter that is attached by its id has the focus, a tab of the plugin that the
/// reply names, and the state that it names as its label; every other tab keeps its
/// plugin.
pub proof fn attached_adapters_are_shown(
    ctx: CtxModel,
    id: Seq<char>,
    reply: JsonModel,
    other: Seq<char>,
)
    ensures
        ({
            let after = attached_one(ctx, id, reply);
            &&& after.focus == Some(id)
            &&& after.plugin_of(id) == match reply.field("plugin"@) {
                Some(JsonModel::Str(plugin)) => Some(plugin),
                _ => Some("?"@),
            }
            &&& other != id ==> after.plugin_of(other) == ctx.plugin_of(other)
            &&& reply.inner_field("state"@, "state"@) matches Some(JsonModel::Str(label)) ==> (
            crate::ctx::tab_index(after.tabs, id) matches Some(i) && after.tabs[i].state_label
                == Some(label))
        }),
{
    let plugin = plugin_or_unknown(reply);
    let shown = ctx.upsert(id, plugin);
    upserts_are_found(ctx, id, plugin, id);
    upserts_are_found(ctx, id, plugin, other);
    if let Some(label) = reply.inner_text("state"@, "state"@) {
        let change = crate::ctx::TabChange::Label { id, label: Some(label) };
        crate::ctx::last_change_decides(shown, seq![change], id);
        crate::ctx::last_change_decides(shown, seq![change], other);
        assert(seq![change].drop_last() =~= Seq::<crate::ctx::TabChange>::empty());
        assert(shown.after(Seq::<crate::ctx::TabChange>::empty()) == shown);
        assert(shown.after(seq![change]) == shown.label(id, Some(label)));
        assert(crate::ctx::last_word(
            Seq::<crate::ctx::TabChange>::empty(),
            id,
            shown.plugin_of(id),
        ) == shown.plugin_of(id));
        assert(crate::ctx::last_word(
            Seq::<crate::ctx::TabChange>::empty(),
            other,
            shown.plugin_of(other),
        ) == shown.plugin_of(other));
        labels_are_found(shown, id, Some(label));
    }
}

proof fn labels_are_found(ctx: CtxModel, id: Seq<char>, label: Option<Seq<char>>)
    requires
        ctx.knows(id),
    ensures
        crate::ctx::tab_index(ctx.label(id, label).tabs, id) matches Some(i) && ctx.label(
            id,
            label,
        ).tabs[i].state_label == label,
{
    let tabs = ctx.tabs;
    crate::ctx::tab_index_bounds(tabs, id);
    let i = crate::ctx::tab_index(tabs, id)->Some_0;
    let after = ctx.label(id, label).tabs;
    assert forall|j: int| 0 <= j < i implies after[j].id != id by {
        assert(tabs[j].id != id);
    }
    crate::ctx::tab_index_at(after, id, i);
}

/// The list of tabs is empty just where there are none, and otherwise shows every
/// tab once, in order, with a star before the focused one and no other.
pub proof fn tabs_are_listed_in_order(ctx: CtxModel, i: int)
    requires
        0 <= i < ctx.tabs.len(),
    ensures
        exists|parts: Seq<Seq<char>>| #[trigger]
            join(parts, "  "@) == tabs_line(ctx) && parts.len() == ctx.tabs.len() && parts[i] == (
            if ctx.focus == Some(ctx.tabs[i].id) {
                "*"@
            } else {
                Seq::empty()
            }) + ctx.tabs[i].id + ":"@ + ctx.tabs[i].plugin,
{
    reveal_strlit("");
    assert(""@ =~= Seq::<char>::empty());
    let parts = ctx.tabs.map_values(|t: TabModel| tab_entry(t, ctx.focus));
    assert(join(parts, "  "@) == tabs_line(ctx));
}

} // verus!
