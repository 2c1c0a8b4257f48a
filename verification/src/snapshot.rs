//! The pictures that the pane shows, and when a new one is asked for.

use crate::command::dispatch::{redact_json, redact_params, Request, RequestModel};
use crate::ctx::{CtxModel, ReplCtx, TabModel};
use crate::fields::{lookup, put, put_then_lookup, taken_out, taken_out_then_lookup, Fields};
use crate::json::{Json, JsonModel};
use crate::screen::ScreenSnapshot;
use crate::text::same;
use crate::transport::{Notification, NotificationModel};
use vstd::prelude::*;

verus! {

broadcast use vstd::string::group_string_axioms;

/// How long an idle pump waits before it asks for a picture anyway, in
/// milliseconds.
pub const IDLE_POLL_MILLIS: u64 = 500;

/// How long a picture is waited for, in seconds.
pub const SNAPSHOT_TIMEOUT_SECS: u64 = 2;

/// The last picture of each adapter.
pub struct SnapshotStore {
    pub pictures: Fields<ScreenSnapshot>,
}

impl View for SnapshotStore {
    type V = Seq<(Seq<char>, ScreenSnapshot)>;

    open spec fn view(&self) -> Seq<(Seq<char>, ScreenSnapshot)> {
        self.pictures@
    }
}

impl Default for SnapshotStore {
    fn default() -> (r: Self)
        ensures
            r@ == Seq::<(Seq<char>, ScreenSnapshot)>::empty(),
    {
        SnapshotStore { pictures: Fields::new() }
    }
}

impl SnapshotStore {
    pub fn new() -> (r: Self)
        ensures
            r@ == Seq::<(Seq<char>, ScreenSnapshot)>::empty(),
    {
        SnapshotStore { pictures: Fields::new() }
    }

    /// The last picture of an adapter.
    pub fn get(&self, adapter: &str) -> (r: Option<&ScreenSnapshot>)
        ensures
            match r {
                Some(snapshot) => lookup(self@, adapter@) == Some(*snapshot),
                None => lookup(self@, adapter@) is None,
            },
    {
        self.pictures.get(adapter)
    }

    pub fn set(&mut self, adapter: &str, snapshot: ScreenSnapshot)
        ensures
            final(self)@ == put(old(self)@, adapter@, snapshot),
    {
        self.pictures.insert(adapter.to_owned(), snapshot);
    }

    pub fn forget(&mut self, adapter: &str)
        ensures
            final(self)@ == taken_out(old(self)@, adapter@),
    {
        self.pictures.remove(adapter);
    }
}

// ---- the pump -----------------------------------------------------------

/// What wakes the pump.
pub enum PumpEvent {
    Notified(Notification),
    Idle,
    Closed,
}

pub enum PumpEventModel {
    Notified(NotificationModel),
    Idle,
    Closed,
}

impl View for PumpEvent {
    type V = PumpEventModel;

    open spec fn view(&self) -> PumpEventModel {
        match self {
            PumpEvent::Notified(n) => PumpEventModel::Notified(n@),
            PumpEvent::Idle => PumpEventModel::Idle,
            PumpEvent::Closed => PumpEventModel::Closed,
        }
    }
}

/// What the pump does next.
#[derive(Debug, Clone, Copy, PartialEq, Eq)]
pub enum PumpAction {
    /// Wait on.
    Wait,
    /// Ask for the picture of the focused adapter.
    Refresh,
    /// Ask for it, and then forget what an exited session leaves behind.
    RefreshAndPurge,
    Stop,
}

pub open spec fn action_for(event: PumpEventModel) -> PumpAction {
    match event {
        PumpEventModel::Notified(n) => if n.method == "session.changed"@ {
            PumpAction::Refresh
        } else if n.method == "session.exited"@ {
            PumpAction::RefreshAndPurge
        } else {
            PumpAction::Wait
        },
        PumpEventModel::Idle => PumpAction::Refresh,
        PumpEventModel::Closed => PumpAction::Stop,
    }
}

/// What the pump does next.
pub fn pump_action(event: &PumpEvent) -> (r: PumpAction)
    ensures
        r == action_for(event@),
{
    match event {
        PumpEvent::Notified(n) => if same(n.method.as_str(), "session.changed") {
            PumpAction::Refresh
        } else if same(n.method.as_str(), "session.exited") {
            PumpAction::RefreshAndPurge
        } else {
            PumpAction::Wait
        },
        PumpEvent::Idle => PumpAction::Refresh,
        PumpEvent::Closed => PumpAction::Stop,
    }
}

/// The call that fetches the picture of an adapter as it is.
pub open spec fn refresh_call(ctx: CtxModel) -> Option<(Seq<char>, RequestModel)> {
    match ctx.focus {
        Some(id) => Some(
            (
                id,
                RequestModel { method: "adapter.snapshot"@, params: redact_params(id, false) },
            ),
        ),
        None => None,
    }
}

/// The call that fetches the picture of the focused adapter, with the id
/// under which the picture is kept.
pub fn refresh_focused(ctx: &ReplCtx) -> (r: Option<(String, Request)>)
    ensures
        refresh_call(ctx@) == (match r {
            Some((id, request)) => Some((id@, request@)),
            None => None,
        }),
{
    match &ctx.focus {
        Some(id) => {
            let params: Json = redact_json(id.as_str(), false);
            Some((id.clone(), Request { method: "adapter.snapshot".to_owned(), params }))
        },
        None => None,
    }
}

/// The pictures without those of some tabs.
pub open spec fn forgotten(
    pictures: Seq<(Seq<char>, ScreenSnapshot)>,
    tabs: Seq<TabModel>,
) -> Seq<(Seq<char>, ScreenSnapshot)>
    decreases tabs.len(),
{
    if tabs.len() == 0 {
        pictures
    } else {
        taken_out(forgotten(pictures, tabs.drop_last()), tabs.last().id)
    }
}

/// The pictures once a session has exited: those of all tabs are forgotten,
/// if the session is named at all.
pub open spec fn purged(
    pictures: Seq<(Seq<char>, ScreenSnapshot)>,
    params: JsonModel,
    ctx: CtxModel,
) -> Seq<(Seq<char>, ScreenSnapshot)> {
    if params.text_field("session"@) is Some {
        forgotten(pictures, ctx.tabs)
    } else {
        pictures
    }
}

/// Forgets what an exited session leaves behind.
pub fn purge_exited(params: &Json, ctx: &ReplCtx, store: &mut SnapshotStore)
    ensures
        final(store)@ == purged(old(store)@, params@, ctx@),
{
    if params.get_str("session").is_none() {
        return;
    }
    let ghost before = store@;
    let ghost tabs = ctx@.tabs;
    let mut i: usize = 0;
    assert(tabs.take(0) =~= Seq::<TabModel>::empty());
    while i < ctx.adapters.len()
        invariant
            i <= ctx.adapters@.len(),
            tabs == ctx@.tabs,
            store@ == forgotten(before, tabs.take(i as int)),
        decreases ctx.adapters@.len() - i,
    {
        proof {
            assert(tabs[i as int] == ctx.adapters@[i as int]@);
            assert(tabs.take(i + 1).drop_last() =~= tabs.take(i as int));
            assert(tabs.take(i + 1).last() == tabs[i as int]);
        }
        store.forget(ctx.adapters[i].id.as_str());
        i += 1;
    }
    assert(tabs.take(i as int) =~= tabs);
}

// ---- laws ---------------------------------------------------------------

/// What is kept for an adapter is what is found, until it is forgotten, and
/// no other adapter is touched.
pub proof fn pictures_are_kept(
    pictures: Seq<(Seq<char>, ScreenSnapshot)>,
    adapter: Seq<char>,
    snapshot: ScreenSnapshot,
    other: Seq<char>,
)
    requires
        crate::fields::increasing(pictures),
    ensures
        lookup(put(pictures, adapter, snapshot), adapter) == Some(snapshot),
        lookup(taken_out(put(pictures, adapter, snapshot), adapter), adapter) is None,
        other != adapter ==> lookup(put(pictures, adapter, snapshot), other) == lookup(
            pictures,
            other,
        ),
        other != adapter ==> lookup(taken_out(pictures, adapter), other) == lookup(
            pictures,
            other,
        ),
{
    put_then_lookup(pictures, adapter, snapshot, adapter);
    put_then_lookup(pictures, adapter, snapshot, other);
    crate::fields::put_increasing(pictures, adapter, snapshot);
    taken_out_then_lookup(put(pictures, adapter, snapshot), adapter, adapter);
    taken_out_then_lookup(pictures, adapter, other);
}

/// No tab has a picture left once a session has exited.
pub proof fn no_tab_keeps_a_stale_picture(
    pictures: Seq<(Seq<char>, ScreenSnapshot)>,
    tabs: Seq<TabModel>,
    i: int,
)
    requires
        crate::fields::increasing(pictures),
        0 <= i < tabs.len(),
    ensures
        lookup(forgotten(pictures, tabs), tabs[i].id) is None,
{
    forgotten_tabs(pictures, tabs, i);
}

proof fn forgotten_tabs(
    pictures: Seq<(Seq<char>, ScreenSnapshot)>,
    tabs: Seq<TabModel>,
    i: int,
)
    requires
        crate::fields::increasing(pictures),
    ensures
        crate::fields::increasing(forgotten(pictures, tabs)),
        0 <= i < tabs.len() ==> lookup(forgotten(pictures, tabs), tabs[i].id) is None,
    decreases tabs.len(),
{
    if tabs.len() > 0 {
        let init = tabs.drop_last();
        let held = forgotten(pictures, init);
        forgotten_tabs(pictures, init, i);
        crate::fields::taken_out_increasing(held, tabs.last().id);
        if 0 <= i < tabs.len() {
            taken_out_then_lookup(held, tabs.last().id, tabs[i].id);
            if i < init.len() {
                assert(init[i] == tabs[i]);
            }
        }
    }
}

} // verus!
