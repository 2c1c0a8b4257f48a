//! What the client knows: its adapters, which of them has the focus, and
//! the recent commands.

pub mod order;

use crate::text::same;
use std::collections::VecDeque;
use vstd::prelude::*;

verus! {

broadcast use vstd::string::group_string_axioms;

/// One adapter that the client watches.
#[derive(Debug, PartialEq, Eq)]
pub struct AdapterTab {
    pub id: String,
    pub plugin: String,
    pub state_label: Option<String>,
}

/// What kind of result a command gave.
#[derive(Debug, Clone, Copy, PartialEq, Eq)]
pub enum OutcomeKind {
    Okay,
    Json,
    Note,
    Error,
}

/// One line of the command history.
#[derive(Debug, PartialEq, Eq)]
pub struct HistoryEntry {
    pub input: String,
    pub kind: OutcomeKind,
    pub detail: Option<String>,
}

/// The client's state.
#[derive(Debug)]
pub struct ReplCtx {
    pub focus: Option<String>,
    pub adapters: Vec<AdapterTab>,
    pub history: VecDeque<HistoryEntry>,
    /// How many history entries are kept; older ones are dropped.
    pub max_history: usize,
}

// ---- what the state says ------------------------------------------------

pub struct TabModel {
    pub id: Seq<char>,
    pub plugin: Seq<char>,
    pub state_label: Option<Seq<char>>,
}

pub struct CtxModel {
    pub focus: Option<Seq<char>>,
    pub tabs: Seq<TabModel>,
    pub history: Seq<HistoryEntry>,
    pub max_history: int,
}

/// What an optional string says.
pub open spec fn opt_text(o: Option<String>) -> Option<Seq<char>> {
    match o {
        Some(s) => Some(s@),
        None => None,
    }
}

impl View for AdapterTab {
    type V = TabModel;

    open spec fn view(&self) -> TabModel {
        TabModel { id: self.id@, plugin: self.plugin@, state_label: opt_text(self.state_label) }
    }
}

/// What a list of tabs says.
pub open spec fn tab_models(tabs: Seq<AdapterTab>) -> Seq<TabModel> {
    tabs.map_values(|t: AdapterTab| t@)
}

impl View for ReplCtx {
    type V = CtxModel;

    open spec fn view(&self) -> CtxModel {
        CtxModel {
            focus: opt_text(self.focus),
            tabs: tab_models(self.adapters@),
            history: self.history@,
            max_history: self.max_history as int,
        }
    }
}

/// Position of the first tab with an id.
pub open spec fn tab_index(tabs: Seq<TabModel>, id: Seq<char>) -> Option<int>
    decreases tabs.len(),
{
    if tabs.len() == 0 {
        None
    } else if tabs[0].id == id {
        Some(0)
    } else {
        match tab_index(tabs.drop_first(), id) {
            Some(i) => Some(i + 1),
            None => None,
        }
    }
}

/// The tabs with `id` shown as of `plugin`: the tab of that id is changed, or
/// a fresh one comes last.
pub open spec fn upserted(tabs: Seq<TabModel>, id: Seq<char>, plugin: Seq<char>) -> Seq<TabModel> {
    match tab_index(tabs, id) {
        Some(i) => tabs.update(i, TabModel { plugin, ..tabs[i] }),
        None => tabs.push(TabModel { id, plugin, state_label: None }),
    }
}

/// The tabs with another label on the tab of `id`, if there is one.
pub open spec fn labelled(
    tabs: Seq<TabModel>,
    id: Seq<char>,
    label: Option<Seq<char>>,
) -> Seq<TabModel> {
    match tab_index(tabs, id) {
        Some(i) => tabs.update(i, TabModel { state_label: label, ..tabs[i] }),
        None => tabs,
    }
}

/// The tabs without those of an id.
pub open spec fn without(tabs: Seq<TabModel>, id: Seq<char>) -> Seq<TabModel>
    decreases tabs.len(),
{
    if tabs.len() == 0 {
        Seq::empty()
    } else {
        let before = without(tabs.drop_last(), id);
        if tabs.last().id == id {
            before
        } else {
            before.push(tabs.last())
        }
    }
}

impl CtxModel {
    pub open spec fn with_focus(self, id: Seq<char>) -> CtxModel {
        CtxModel { focus: Some(id), ..self }
    }

    pub open spec fn upsert(self, id: Seq<char>, plugin: Seq<char>) -> CtxModel {
        CtxModel { tabs: upserted(self.tabs, id, plugin), ..self }
    }

    pub open spec fn label(self, id: Seq<char>, label: Option<Seq<char>>) -> CtxModel {
        CtxModel { tabs: labelled(self.tabs, id, label), ..self }
    }

    /// Without the adapter; a focus that it had goes to the last tab left.
    pub open spec fn remove(self, id: Seq<char>) -> CtxModel {
        let tabs = without(self.tabs, id);
        CtxModel {
            tabs,
            focus: if self.focus == Some(id) {
                if tabs.len() > 0 {
                    Some(tabs.last().id)
                } else {
                    None
                }
            } else {
                self.focus
            },
            ..self
        }
    }

    pub open spec fn knows(self, id: Seq<char>) -> bool {
        tab_index(self.tabs, id) is Some
    }

    /// No two tabs share an id.
    pub open spec fn distinct(self) -> bool {
        forall|i: int, j: int|
            #![trigger self.tabs[i], self.tabs[j]]
            0 <= i < j < self.tabs.len() ==> self.tabs[i].id != self.tabs[j].id
    }

    /// The focus, if any, is on a tab.
    pub open spec fn focus_known(self) -> bool {
        self.focus matches Some(id) ==> self.knows(id)
    }
}

pub proof fn tab_index_bounds(tabs: Seq<TabModel>, id: Seq<char>)
    ensures
        tab_index(tabs, id) matches Some(i) ==> 0 <= i < tabs.len() && tabs[i].id == id && forall|
            j: int,
        | 0 <= j < i ==> (#[trigger] tabs[j]).id != id,
        tab_index(tabs, id) is None ==> forall|j: int|
            0 <= j < tabs.len() ==> (#[trigger] tabs[j]).id != id,
    decreases tabs.len(),
{
    if tabs.len() > 0 && tabs[0].id != id {
        let rest = tabs.drop_first();
        tab_index_bounds(rest, id);
        match tab_index(tabs, id) {
            Some(i) => {
                assert forall|j: int| 0 <= j < i implies (#[trigger] tabs[j]).id != id by {
                    if j > 0 {
                        assert(rest[j - 1] == tabs[j]);
                    }
                }
            },
            None => {
                assert forall|j: int| 0 <= j < tabs.len() implies (#[trigger] tabs[j]).id
                    != id by {
                    if j > 0 {
                        assert(rest[j - 1] == tabs[j]);
                    }
                }
            },
        }
    }
}

pub proof fn tab_index_at(tabs: Seq<TabModel>, id: Seq<char>, i: int)
    requires
        0 <= i < tabs.len(),
        tabs[i].id == id,
        forall|j: int| 0 <= j < i ==> (#[trigger] tabs[j]).id != id,
    ensures
        tab_index(tabs, id) == Some(i),
    decreases i,
{
    if i > 0 {
        let rest = tabs.drop_first();
        assert forall|j: int| 0 <= j < i - 1 implies (#[trigger] rest[j]).id != id by {
            assert(rest[j] == tabs[j + 1]);
        }
        tab_index_at(rest, id, i - 1);
    }
}

proof fn tab_index_none(tabs: Seq<TabModel>, id: Seq<char>)
    requires
        forall|j: int| 0 <= j < tabs.len() ==> (#[trigger] tabs[j]).id != id,
    ensures
        tab_index(tabs, id) is None,
{
    tab_index_bounds(tabs, id);
}

// ---- the operations -----------------------------------------------------

impl Default for ReplCtx {
    fn default() -> (r: Self)
        ensures
            r@ == (CtxModel {
                focus: None,
                tabs: Seq::empty(),
                history: Seq::empty(),
                max_history: 200,
            }),
    {
        let r = ReplCtx {
            focus: None,
            adapters: Vec::new(),
            history: VecDeque::new(),
            max_history: 200,
        };
        assert(r@.tabs == Seq::<TabModel>::empty());
        r
    }
}

impl ReplCtx {
    pub fn new() -> (r: Self)
        ensures
            r@ == (CtxModel {
                focus: None,
                tabs: Seq::empty(),
                history: Seq::empty(),
                max_history: 200,
            }),
    {
        ReplCtx::default()
    }

    fn position(&self, id: &str) -> (r: Option<usize>)
        ensures
            match r {
                Some(i) => i < self.adapters@.len() && tab_index(self@.tabs, id@) == Some(
                    i as int,
                ),
                None => tab_index(self@.tabs, id@) is None,
            },
    {
        let mut i: usize = 0;
        while i < self.adapters.len()
            invariant
                i <= self.adapters@.len(),
                forall|j: int| 0 <= j < i ==> (#[trigger] self@.tabs[j]).id != id@,
            decreases self.adapters@.len() - i,
        {
            assert(self@.tabs[i as int].id == self.adapters@[i as int].id@);
            if same(self.adapters[i].id.as_str(), id) {
                proof {
                    tab_index_at(self@.tabs, id@, i as int);
                }
                return Some(i);
            }
            i += 1;
        }
        proof {
            tab_index_none(self@.tabs, id@);
        }
        None
    }

    /// The adapter with an id.
    pub fn adapter(&self, id: &str) -> (r: Option<&AdapterTab>)
        ensures
            match r {
                Some(tab) => tab_index(self@.tabs, id@) matches Some(i) && tab@ == self@.tabs[i],
                None => !self@.knows(id@),
            },
    {
        match self.position(id) {
            Some(i) => Some(&self.adapters[i]),
            None => None,
        }
    }

    /// The adapter with an id, to be changed.
    pub fn adapter_mut(&mut self, id: &str) -> (r: Option<&mut AdapterTab>)
        ensures
            match r {
                Some(tab) => tab_index(old(self)@.tabs, id@) matches Some(i) && tab@
                    == old(self)@.tabs[i] && final(self)@ == (CtxModel {
                    tabs: old(self)@.tabs.update(i, final(tab)@),
                    ..old(self)@
                }),
                None => !old(self)@.knows(id@) && final(self)@ == old(self)@,
            },
    {
        match self.position(id) {
            Some(i) => {
                proof {
                    assert forall|t: AdapterTab| tab_models(
                        #[trigger] self.adapters@.update(i as int, t),
                    ) == self@.tabs.update(i as int, t@) by {
                        assert(tab_models(self.adapters@.update(i as int, t))
                            =~= self@.tabs.update(i as int, t@));
                    }
                }
                Some(&mut self.adapters[i])
            },
            None => None,
        }
    }

    /// Shows `id` as an adapter of `plugin`; a fresh id comes last.
    pub fn upsert_adapter(&mut self, id: &str, plugin: &str)
        ensures
            final(self)@ == old(self)@.upsert(id@, plugin@),
    {
        let ghost before = self@;
        match self.position(id) {
            Some(i) => {
                self.adapters[i].plugin = plugin.to_owned();
                assert(self@.tabs == upserted(before.tabs, id@, plugin@));
            },
            None => {
                let tab = AdapterTab {
                    id: id.to_owned(),
                    plugin: plugin.to_owned(),
                    state_label: None,
                };
                self.adapters.push(tab);
                assert(self@.tabs == upserted(before.tabs, id@, plugin@));
            },
        }
    }

    /// Drops an adapter, and moves a focus that it had to the last tab left.
    /// Says whether anything was dropped.
    pub fn remove_adapter(&mut self, id: &str) -> (r: bool)
        ensures
            final(self)@ == old(self)@.remove(id@),
            r == old(self)@.knows(id@),
    {
        let ghost before = self@;
        let mut kept: Vec<AdapterTab> = Vec::new();
        let mut old_tabs: Vec<AdapterTab> = Vec::new();
        std::mem::swap(&mut old_tabs, &mut self.adapters);
        let ghost all = old_tabs@;
        let mut removed: bool = false;
        assert(tab_models(kept@) == without(before.tabs.take(0), id@));
        while old_tabs.len() > 0
            invariant
                before.tabs == tab_models(all),
                old_tabs@.len() <= all.len(),
                old_tabs@ == all.skip(all.len() - old_tabs@.len()),
                tab_models(kept@) == without(before.tabs.take(all.len() - old_tabs@.len()), id@),
                !removed ==> forall|j: int|
                    0 <= j < all.len() - old_tabs@.len() ==> (#[trigger] before.tabs[j]).id
                        != id@,
                removed ==> exists|j: int|
                    0 <= j < all.len() - old_tabs@.len() && (#[trigger] before.tabs[j]).id == id@,
            decreases old_tabs@.len(),
        {
            let ghost i = all.len() - old_tabs@.len();
            let tab: AdapterTab = old_tabs.remove(0);
            proof {
                assert(tab == all[i]);
                assert(before.tabs[i] == tab@);
                assert(before.tabs.take(i + 1).drop_last() == before.tabs.take(i));
                assert(before.tabs.take(i + 1).last() == tab@);
                assert(tab_models(kept@.push(tab)) == tab_models(kept@).push(tab@));
            }
            if same(tab.id.as_str(), id) {
                removed = true;
            } else {
                kept.push(tab);
            }
        }
        proof {
            assert(before.tabs.take(all.len() as int) == before.tabs);
            tab_index_bounds(before.tabs, id@);
        }
        self.adapters = kept;
        let focused: bool = match &self.focus {
            Some(f) => same(f.as_str(), id),
            None => false,
        };
        if focused {
            if self.adapters.len() > 0 {
                let last: usize = self.adapters.len() - 1;
                assert(self@.tabs.last() == self.adapters@[last as int]@);
                self.focus = Some(self.adapters[last].id.clone());
            } else {
                self.focus = None;
            }
        }
        removed
    }

    /// Changes the label of an adapter, if it is known.
    pub fn set_state_label(&mut self, id: &str, label: Option<String>)
        ensures
            final(self)@ == old(self)@.label(id@, opt_text(label)),
    {
        let ghost before = self@;
        match self.position(id) {
            Some(i) => {
                self.adapters[i].state_label = label;
                assert(self@.tabs == labelled(before.tabs, id@, opt_text(label)));
            },
            None => {},
        }
    }

    /// Moves the focus.
    pub fn set_focus(&mut self, id: &str)
        ensures
            final(self)@ == old(self)@.with_focus(id@),
    {
        self.focus = Some(id.to_owned());
    }

    /// Appends a history entry and drops the oldest ones beyond the limit.
    pub fn record(&mut self, entry: HistoryEntry)
        ensures
            ({
                let all = old(self)@.history.push(entry);
                let limit = old(self)@.max_history;
                final(self)@ == (CtxModel {
                    history: if all.len() > limit {
                        all.skip(all.len() - limit)
                    } else {
                        all
                    },
                    ..old(self)@
                })
            }),
    {
        let ghost all = self.history@.push(entry);
        self.history.push_back(entry);
        assert(all.skip(0) == all);
        while self.history.len() > self.max_history
            invariant
                self.history@.len() <= all.len(),
                self.history@ == all.skip(all.len() - self.history@.len()),
                self.max_history == old(self).max_history,
                self.adapters == old(self).adapters,
                self.focus == old(self).focus,
                all.len() > self.max_history ==> self.history@.len() >= self.max_history,
                all.len() <= self.max_history ==> self.history@.len() == all.len(),
            decreases self.history@.len(),
        {
            let ghost before = self.history@;
            let _ = self.history.pop_front();
            assert(self.history@ == all.skip(all.len() - self.history@.len()));
        }
    }
}

// ---- laws ---------------------------------------------------------------

proof fn without_holds(tabs: Seq<TabModel>, id: Seq<char>)
    ensures
        forall|i: int|
            0 <= i < without(tabs, id).len() ==> (#[trigger] without(tabs, id)[i]).id != id,
        forall|i: int|
            0 <= i < without(tabs, id).len() ==> exists|j: int|
                0 <= j < tabs.len() && tabs[j] == #[trigger] without(tabs, id)[i],
        forall|j: int|
            #![trigger tabs[j]]
            0 <= j < tabs.len() && tabs[j].id != id ==> exists|i: int|
                0 <= i < without(tabs, id).len() && #[trigger] without(tabs, id)[i] == tabs[j],
    decreases tabs.len(),
{
    if tabs.len() > 0 {
        let init = tabs.drop_last();
        let before = without(init, id);
        let after = without(tabs, id);
        without_holds(init, id);
        assert forall|i: int| 0 <= i < after.len() implies exists|j: int|
            0 <= j < tabs.len() && tabs[j] == #[trigger] after[i] by {
            if i < before.len() {
                assert(after[i] == before[i]);
                let j = choose|j: int| 0 <= j < init.len() && init[j] == #[trigger] before[i];
                assert(tabs[j] == after[i]);
            } else {
                assert(tabs[tabs.len() - 1] == after[i]);
            }
        }
        assert forall|j: int| #![trigger tabs[j]]
            0 <= j < tabs.len() && tabs[j].id != id implies exists|i: int|
            0 <= i < after.len() && #[trigger] after[i] == tabs[j] by {
            if j < init.len() {
                assert(init[j] == tabs[j]);
                let i = choose|i: int| 0 <= i < before.len() && #[trigger] before[i] == init[j];
                assert(after[i] == tabs[j]);
            } else {
                assert(after[after.len() - 1] == tabs[j]);
            }
        }
    }
}

proof fn without_distinct(tabs: Seq<TabModel>, id: Seq<char>)
    requires
        forall|i: int, j: int|
            #![trigger tabs[i], tabs[j]]
            0 <= i < j < tabs.len() ==> tabs[i].id != tabs[j].id,
    ensures
        forall|i: int, j: int|
            #![trigger without(tabs, id)[i], without(tabs, id)[j]]
            0 <= i < j < without(tabs, id).len() ==> without(tabs, id)[i].id != without(
                tabs,
                id,
            )[j].id,
    decreases tabs.len(),
{
    if tabs.len() > 0 {
        let init = tabs.drop_last();
        let before = without(init, id);
        let after = without(tabs, id);
        assert forall|i: int, j: int| #![trigger init[i], init[j]]
            0 <= i < j < init.len() implies init[i].id != init[j].id by {
            assert(init[i] == tabs[i] && init[j] == tabs[j]);
        }
        without_distinct(init, id);
        without_holds(init, id);
        assert forall|i: int, j: int| #![trigger after[i], after[j]]
            0 <= i < j < after.len() implies after[i].id != after[j].id by {
            if j < before.len() {
                assert(after[i] == before[i] && after[j] == before[j]);
            } else {
                assert(after[i] == before[i]);
                let k = choose|k: int| 0 <= k < init.len() && init[k] == #[trigger] before[i];
                assert(tabs[k] == after[i] && tabs[tabs.len() - 1] == after[j]);
            }
        }
    }
}

/// Showing an adapter keeps ids distinct, keeps every known id known, and
/// makes its own id known.
pub proof fn upsert_keeps_ids(ctx: CtxModel, id: Seq<char>, plugin: Seq<char>)
    requires
        ctx.distinct(),
    ensures
        ctx.upsert(id, plugin).distinct(),
        ctx.upsert(id, plugin).knows(id),
        forall|other: Seq<char>|
            #![trigger ctx.knows(other)]
            #![trigger ctx.upsert(id, plugin).knows(other)]
            other != id ==> ctx.upsert(id, plugin).knows(other) == ctx.knows(other),
        ctx.focus_known() ==> ctx.upsert(id, plugin).focus_known(),
{
    let tabs = ctx.tabs;
    let after = ctx.upsert(id, plugin).tabs;
    tab_index_bounds(tabs, id);
    tab_index_bounds(after, id);
    assert forall|i: int, j: int| #![trigger after[i], after[j]]
        0 <= i < j < after.len() implies after[i].id != after[j].id by {
        if j < tabs.len() {
            assert(after[i].id == tabs[i].id && after[j].id == tabs[j].id);
        } else {
            assert(after[i].id == tabs[i].id);
        }
    }
    assert(ctx.upsert(id, plugin).knows(id)) by {
        match tab_index(tabs, id) {
            Some(i) => {
                assert(after[i].id == id);
            },
            None => {
                assert(after[tabs.len() as int].id == id);
            },
        }
    }
    assert forall|other: Seq<char>| other != id implies ctx.upsert(id, plugin).knows(other)
        == ctx.knows(other) by {
        tab_index_bounds(tabs, other);
        tab_index_bounds(after, other);
        if ctx.knows(other) {
            let i = tab_index(tabs, other)->0;
            assert(after[i].id == other);
        }
        if ctx.upsert(id, plugin).knows(other) {
            let i = tab_index(after, other)->0;
            assert(i < tabs.len());
            assert(tabs[i].id == other);
        }
    }
}

/// Showing an adapter twice is showing it once.
pub proof fn upsert_is_idempotent(ctx: CtxModel, id: Seq<char>, plugin: Seq<char>)
    ensures
        ctx.upsert(id, plugin).upsert(id, plugin) == ctx.upsert(id, plugin),
{
    let after = ctx.upsert(id, plugin).tabs;
    tab_index_bounds(ctx.tabs, id);
    let i = match tab_index(ctx.tabs, id) {
        Some(i) => i,
        None => ctx.tabs.len() as int,
    };
    assert forall|j: int| 0 <= j < i implies (#[trigger] after[j]).id != id by {
        assert(after[j] == ctx.tabs[j]);
    }
    tab_index_at(after, id, i);
    assert(upserted(after, id, plugin) == after);
}

/// Dropping an adapter makes exactly its id unknown, keeps ids distinct, and
/// leaves the focus on a tab that is there.
pub proof fn remove_keeps_ids(ctx: CtxModel, id: Seq<char>)
    requires
        ctx.distinct(),
    ensures
        ctx.remove(id).distinct(),
        !ctx.remove(id).knows(id),
        forall|other: Seq<char>|
            #![trigger ctx.knows(other)]
            #![trigger ctx.remove(id).knows(other)]
            other != id ==> ctx.remove(id).knows(other) == ctx.knows(other),
        ctx.focus_known() ==> ctx.remove(id).focus_known(),
        ctx.remove(id).focus != Some(id),
{
    let tabs = ctx.tabs;
    let after = ctx.remove(id).tabs;
    without_holds(tabs, id);
    without_distinct(tabs, id);
    tab_index_bounds(after, id);
    assert(!ctx.remove(id).knows(id));
    assert forall|other: Seq<char>| other != id implies ctx.remove(id).knows(other)
        == ctx.knows(other) by {
        tab_index_bounds(tabs, other);
        tab_index_bounds(after, other);
        if ctx.knows(other) {
            let j = tab_index(tabs, other)->0;
            assert(tabs[j].id == other);
            let i = choose|i: int| 0 <= i < after.len() && #[trigger] after[i] == tabs[j];
            assert(after[i].id == other);
        }
        if ctx.remove(id).knows(other) {
            let i = tab_index(after, other)->0;
            let j = choose|j: int| 0 <= j < tabs.len() && tabs[j] == #[trigger] after[i];
            assert(tabs[j].id == other);
        }
    }
    if ctx.focus == Some(id) && after.len() > 0 {
        let last = after.last().id;
        tab_index_bounds(after, last);
        assert(after[after.len() - 1].id == last);
    }
}

/// One change to what the client knows of its adapters.
pub enum TabChange {
    Upsert { id: Seq<char>, plugin: Seq<char> },
    Remove { id: Seq<char> },
    Label { id: Seq<char>, label: Option<Seq<char>> },
    Focus { id: Seq<char> },
}

impl CtxModel {
    /// The state after one change.
    pub open spec fn changed(self, change: TabChange) -> CtxModel {
        match change {
            TabChange::Upsert { id, plugin } => self.upsert(id, plugin),
            TabChange::Remove { id } => self.remove(id),
            TabChange::Label { id, label } => self.label(id, label),
            TabChange::Focus { id } => self.with_focus(id),
        }
    }

    /// The state after changes, the first one first.
    pub open spec fn after(self, changes: Seq<TabChange>) -> CtxModel
        decreases changes.len(),
    {
        if changes.len() == 0 {
            self
        } else {
            self.after(changes.drop_last()).changed(changes.last())
        }
    }

    /// The plugin of the adapter with an id, if it is known.
    pub open spec fn plugin_of(self, id: Seq<char>) -> Option<Seq<char>> {
        match tab_index(self.tabs, id) {
            Some(i) => Some(self.tabs[i].plugin),
            None => None,
        }
    }
}

/// What the last upsert or removal of an id among changes leaves of it: its
/// plugin, or nothing. `before` is what was there before the changes.
pub open spec fn last_word(
    changes: Seq<TabChange>,
    id: Seq<char>,
    before: Option<Seq<char>>,
) -> Option<Seq<char>>
    decreases changes.len(),
{
    if changes.len() == 0 {
        before
    } else {
        match changes.last() {
            TabChange::Upsert { id: named, plugin } if named == id => Some(plugin),
            TabChange::Remove { id: named } if named == id => None,
            _ => last_word(changes.drop_last(), id, before),
        }
    }
}

proof fn tab_index_of_push(tabs: Seq<TabModel>, tab: TabModel, id: Seq<char>)
    ensures
        tab_index(tabs.push(tab), id) == match tab_index(tabs, id) {
            Some(i) => Some(i),
            None => if tab.id == id {
                Some(tabs.len() as int)
            } else {
                None
            },
        },
{
    tab_index_bounds(tabs, id);
    tab_index_bounds(tabs.push(tab), id);
    match tab_index(tabs, id) {
        Some(i) => {
            assert forall|j: int| 0 <= j < i implies tabs.push(tab)[j].id != id by {
                assert(tabs[j].id != id);
            }
            tab_index_at(tabs.push(tab), id, i);
        },
        None => {
            assert forall|j: int| 0 <= j < tabs.len() implies tabs.push(tab)[j].id != id by {
                assert(tabs[j].id != id);
            }
            if tab.id == id {
                tab_index_at(tabs.push(tab), id, tabs.len() as int);
            } else {
                tab_index_none(tabs.push(tab), id);
            }
        },
    }
}

/// Changing a tab without its id moves no tab.
proof fn tab_index_of_update(tabs: Seq<TabModel>, at: int, tab: TabModel, id: Seq<char>)
    requires
        0 <= at < tabs.len(),
        tab.id == tabs[at].id,
    ensures
        tab_index(tabs.update(at, tab), id) == tab_index(tabs, id),
{
    let next = tabs.update(at, tab);
    tab_index_bounds(tabs, id);
    match tab_index(tabs, id) {
        Some(i) => {
            assert forall|j: int| 0 <= j < i implies next[j].id != id by {
                assert(tabs[j].id != id);
            }
            tab_index_at(next, id, i);
        },
        None => {
            assert forall|j: int| 0 <= j < next.len() implies next[j].id != id by {
                assert(tabs[j].id != id);
            }
            tab_index_none(next, id);
        },
    }
}

proof fn without_keeps_others(tabs: Seq<TabModel>, gone: Seq<char>, id: Seq<char>)
    requires
        gone != id,
    ensures
        match (tab_index(tabs, id), tab_index(without(tabs, gone), id)) {
            (Some(i), Some(j)) => tabs[i] == without(tabs, gone)[j],
            (None, None) => true,
            _ => false,
        },
    decreases tabs.len(),
{
    if tabs.len() > 0 {
        let init = tabs.drop_last();
        without_keeps_others(init, gone, id);
        assert(init.push(tabs.last()) =~= tabs);
        tab_index_of_push(init, tabs.last(), id);
        tab_index_bounds(init, id);
        tab_index_bounds(without(init, gone), id);
        if tabs.last().id != gone {
            tab_index_of_push(without(init, gone), tabs.last(), id);
        }
    }
}

/// Of the calls that name an adapter the last upsert or removal decides: after
/// an upsert the adapter is known under its id with that plugin, after a
/// removal it is not known, and labels and the focus change neither.
pub proof fn last_change_decides(ctx: CtxModel, changes: Seq<TabChange>, id: Seq<char>)
    ensures
        ctx.after(changes).plugin_of(id) == last_word(changes, id, ctx.plugin_of(id)),
        ctx.after(changes).knows(id) <==> last_word(changes, id, ctx.plugin_of(id)) is Some,
    decreases changes.len(),
{
    if changes.len() > 0 {
        let before = ctx.after(changes.drop_last());
        last_change_decides(ctx, changes.drop_last(), id);
        let tabs = before.tabs;
        tab_index_bounds(tabs, id);
        match changes.last() {
            TabChange::Upsert { id: named, plugin } => {
                tab_index_bounds(tabs, named);
                match tab_index(tabs, named) {
                    Some(i) => {
                        tab_index_of_update(tabs, i, TabModel { plugin, ..tabs[i] }, id);
                    },
                    None => {
                        tab_index_of_push(tabs, TabModel { id: named, plugin, state_label: None }, id);
                    },
                }
            },
            TabChange::Remove { id: named } => {
                if named == id {
                    without_holds(tabs, id);
                    let rest = without(tabs, id);
                    tab_index_bounds(rest, id);
                } else {
                    without_keeps_others(tabs, named, id);
                }
            },
            TabChange::Label { id: named, label } => {
                tab_index_bounds(tabs, named);
                match tab_index(tabs, named) {
                    Some(i) => {
                        tab_index_of_update(tabs, i, TabModel { state_label: label, ..tabs[i] }, id);
                    },
                    None => {},
                }
            },
            TabChange::Focus { id: _ } => {},
        }
    }
}

} // verus!
