//! In which order the tabs stand.

use crate::ctx::{labelled, tab_index_at, tab_index_bounds, upserted, without, CtxModel, TabModel};
use vstd::prelude::*;

verus! {

/// A fresh adapter comes last, without a state; one that is known keeps its place and
/// its state, and only its plugin changes. All other tabs stay as they are.
pub proof fn fresh_tabs_come_last(tabs: Seq<TabModel>, id: Seq<char>, plugin: Seq<char>, i: int)
    requires
        -1 <= i < tabs.len(),
        i >= 0 ==> tabs[i].id == id,
        forall|j: int| 0 <= j < (if i >= 0 { i } else { tabs.len() as int }) ==> (
        #[trigger] tabs[j]).id != id,
    ensures
        i < 0 ==> upserted(tabs, id, plugin) == tabs.push(
            TabModel { id, plugin, state_label: None },
        ),
        i >= 0 ==> upserted(tabs, id, plugin) == tabs.update(
            i,
            TabModel { id, plugin, state_label: tabs[i].state_label },
        ),
{
    tab_index_bounds(tabs, id);
    if i >= 0 {
        tab_index_at(tabs, id, i);
    }
}

/// A state is told of its own tab, the others stay as they are, and that of an unknown
/// adapter is told of none.
pub proof fn labels_go_to_their_tab(
    tabs: Seq<TabModel>,
    id: Seq<char>,
    label: Option<Seq<char>>,
    i: int,
)
    requires
        -1 <= i < tabs.len(),
        i >= 0 ==> tabs[i].id == id,
        forall|j: int| 0 <= j < (if i >= 0 { i } else { tabs.len() as int }) ==> (
        #[trigger] tabs[j]).id != id,
    ensures
        i < 0 ==> labelled(tabs, id, label) == tabs,
        i >= 0 ==> labelled(tabs, id, label) == tabs.update(
            i,
            TabModel { id, plugin: tabs[i].plugin, state_label: label },
        ),
{
    tab_index_bounds(tabs, id);
    if i >= 0 {
        tab_index_at(tabs, id, i);
    }
}

/// The tabs that stay keep their order.
pub proof fn tabs_that_stay_keep_their_order(tabs: Seq<TabModel>, id: Seq<char>)
    ensures
        without(tabs, id) == tabs.filter(|t: TabModel| t.id != id),
    decreases tabs.len(),
{
    let p = |t: TabModel| t.id != id;
    reveal(Seq::filter);
    if tabs.len() == 0 {
        assert(tabs.filter(p) =~= Seq::<TabModel>::empty());
    } else {
        tabs_that_stay_keep_their_order(tabs.drop_last(), id);
        assert(p(tabs.last()) == (tabs.last().id != id));
        assert(tabs.filter(p) =~= without(tabs, id));
    }
}

/// Moving the focus moves nothing else.
pub proof fn the_focus_moves_alone(ctx: CtxModel, id: Seq<char>)
    ensures
        ctx.with_focus(id).focus == Some(id),
        ctx.with_focus(id).tabs == ctx.tabs,
        ctx.with_focus(id).history == ctx.history,
        ctx.upsert(id, id).focus == ctx.focus,
        ctx.upsert(id, id).history == ctx.history,
        ctx.remove(id).history == ctx.history,
{
}

}
