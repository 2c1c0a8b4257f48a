//! Where the parts above the prompt stand, and what they say.

use crate::ctx::{tab_index_at, CtxModel, TabModel};
use crate::json::JsonModel;
use crate::live::{
    dim_italic, divider_ops, empty_rows, enter_ops, header_ops, layout_of, pane_ops,
    restore_ops, row_ops, rows_ops, tab_label, top_ops, wants_refresh,
    width_from, AltScreenGuard, LiveLayout, OpModel, FOCUS_HINT,
};
use crate::paint::{bold_colour, dimmed, painted, Shade};
use crate::screen::ScreenSnapshot;
use crate::text::{decimal, join};
use crate::transport::NotificationModel;
use vstd::prelude::*;

verus! {

/// There is a pane from 40 columns and 20 rows on. The tabs stand in the first row, the
/// pane right below them, a rule right below the pane, and what is typed right below
/// the rule. The pane has three fifths of the rows but for three.
pub proof fn parts_stand_below_each_other(cols: u16, rows: u16)
    ensures
        ({
            let layout = layout_of(cols, rows);
            &&& layout.cols == cols && layout.rows == rows
            &&& layout.enabled == (cols >= 40 && rows >= 20)
            &&& layout.header_row == 0
            &&& layout.enabled ==> layout.live_top == 1 && layout.divider_row
                == layout.live_bottom + 1 && layout.log_top == layout.divider_row + 1
            &&& layout.enabled ==> 5 * layout.height() <= 3 * (rows - 3) < 5 * (layout.height()
                + 1)
        }),
{
    crate::live::layouts_fit_the_terminal(cols, rows);
}

/// The status at the right of the header: the state of the focused tab, its plugin
/// where it has none, and that there is no focus where no tab has it. `i` is the
/// first tab with the focused id, or -1.
pub proof fn the_header_ends_with_the_status(
    layout: LiveLayout,
    tabs: Seq<TabModel>,
    focused: Option<Seq<char>>,
    i: int,
)
    requires
        -1 <= i < tabs.len(),
        i >= 0 ==> focused == Some(tabs[i].id),
        i >= 0 ==> forall|j: int| 0 <= j < i ==> (#[trigger] tabs[j]).id != tabs[i].id,
        i < 0 ==> forall|j: int| 0 <= j < tabs.len() ==> focused != Some((#[trigger] tabs[j]).id),
    ensures
        ({
            let ops = header_ops(layout, tabs, focused);
            &&& ops.len() > 2
            &&& ops[0] == OpModel::MoveTo { col: 0, row: layout.header_row as int }
            &&& ops[1] == OpModel::ClearLine
            &&& ops.last() == OpModel::Print(
                painted(
                    dimmed(),
                    if i < 0 {
                        "no focus"@
                    } else {
                        match tabs[i].state_label {
                            Some(label) => label,
                            None => tabs[i].plugin,
                        }
                    },
                ),
            )
        }),
{
    if i >= 0 {
        tab_index_at(tabs, tabs[i].id, i);
    } else if let Some(id) = focused {
        crate::ctx::tab_index_bounds(tabs, id);
    }
}

/// The columns that printed text takes.
pub open spec fn columns(ops: Seq<OpModel>) -> int
    decreases ops.len(),
{
    if ops.len() == 0 {
        0
    } else {
        columns(ops.drop_last()) + match ops.last() {
            OpModel::Print(text) => width_from(text, 0),
            _ => 0,
        }
    }
}

/// The tabs stand in the header in order, each with its id and its plugin, the focused
/// one in bold green and every other dim.
pub proof fn the_header_shows_every_tab(
    layout: LiveLayout,
    tabs: Seq<TabModel>,
    focused: Option<Seq<char>>,
    i: int,
)
    requires
        0 <= i < tabs.len(),
    ensures
        exists|parts: Seq<Seq<char>>, head: Seq<char>|
            #![trigger head + join(parts, painted(dimmed(), " │ "@))]
            {
                &&& header_ops(layout, tabs, focused)[2] == OpModel::Print(
                    head + join(parts, painted(dimmed(), " │ "@)),
                )
                &&& parts.len() == tabs.len() + 1
                &&& parts[i] == painted(
                    if focused == Some(tabs[i].id) {
                        bold_colour(Shade::Green)
                    } else {
                        dimmed()
                    },
                    tabs[i].id + " · "@ + tabs[i].plugin,
                )
            },
{
    let parts = tabs.map_values(|t: TabModel| tab_label(t, focused)).push(painted(dimmed(), "+"@));
    let head = painted(dimmed(), "ptywright"@) + painted(dimmed(), " · "@);
    assert(parts[i] == tab_label(tabs[i], focused));
    assert(header_ops(layout, tabs, focused)[2] == OpModel::Print(
        head + join(parts, painted(dimmed(), " │ "@)),
    ));
}

proof fn blanks_take_columns(s: Seq<char>, i: int)
    requires
        0 <= i <= s.len(),
        forall|j: int| 0 <= j < s.len() ==> s[j] == ' ',
    ensures
        width_from(s, i) == s.len() - i,
    decreases s.len() - i,
{
    if i < s.len() {
        blanks_take_columns(s, i + 1);
    }
}

/// The header fills the row: where the tabs and the status leave room, the status ends
/// in the last column.
pub proof fn the_header_fills_its_row(
    layout: LiveLayout,
    tabs: Seq<TabModel>,
    focused: Option<Seq<char>>,
)
    ensures
        ({
            let ops = header_ops(layout, tabs, focused);
            let needed = columns(ops.take(3)) + 1 + columns(ops.skip(5));
            &&& needed <= layout.cols ==> columns(ops) == layout.cols
            &&& needed > layout.cols ==> columns(ops) == needed
        }),
{
    reveal_with_fuel(columns, 8);
    reveal_strlit(" ");
    let ops = header_ops(layout, tabs, focused);
    let left = ops[2]->Print_0;
    let blank = ops[3]->Print_0;
    let right = ops[5]->Print_0;
    blanks_take_columns(blank, 0);
    blanks_take_columns(" "@, 0);
    assert(ops.take(3) =~= seq![ops[0], ops[1], ops[2]]);
    assert(ops.skip(5) =~= seq![ops[5]]);
    let o5 = ops.drop_last();
    let o4 = o5.drop_last();
    let o3 = o4.drop_last();
    let o2 = o3.drop_last();
    let o1 = o2.drop_last();
    assert(columns(o1.drop_last()) == 0);
    assert(columns(o1) == 0);
    assert(columns(o2) == 0);
    assert(columns(o3) == width_from(left, 0));
    assert(columns(o4) == width_from(left, 0) + blank.len());
    assert(columns(o5) == width_from(left, 0) + blank.len() + 1);
    assert(columns(ops) == width_from(left, 0) + blank.len() + 1 + width_from(right, 0));
    let t2 = ops.take(3).drop_last();
    let t1 = t2.drop_last();
    assert(columns(t1.drop_last()) == 0);
    assert(columns(t1) == 0);
    assert(columns(t2) == 0);
    assert(columns(ops.take(3)) == width_from(left, 0));
    assert(columns(ops.skip(5).drop_last()) == 0);
    assert(columns(ops.skip(5)) == width_from(right, 0));
}

/// Whether a row is emptied.
pub open spec fn empties(ops: Seq<OpModel>, row: int) -> bool {
    exists|i: int|
        0 <= i < ops.len() - 1 && #[trigger] ops[i] == (OpModel::MoveTo { col: 0, row }) && ops[i
            + 1] == OpModel::ClearLine
}

/// Whether nothing is done outside some rows.
pub open spec fn stays_within(ops: Seq<OpModel>, top: int, bottom: int) -> bool {
    forall|i: int|
        0 <= i < ops.len() ==> ((#[trigger] ops[i]) matches OpModel::MoveTo { row, .. } ==> top
            <= row < bottom)
}

proof fn emptied_rows_stay_empty(before: Seq<OpModel>, ops: Seq<OpModel>, after: Seq<OpModel>, row: int)
    requires
        empties(ops, row),
    ensures
        empties(before + ops + after, row),
{
    let i = choose|i: int|
        0 <= i < ops.len() - 1 && #[trigger] ops[i] == (OpModel::MoveTo { col: 0, row }) && ops[i
            + 1] == OpModel::ClearLine;
    let all = before + ops + after;
    let k = before.len() + i;
    assert(all[k] == ops[i]);
    assert(all[k + 1] == ops[i + 1]);
}

proof fn drawn_rows(snapshot: ScreenSnapshot, layout: LiveLayout, n: int, r: int)
    requires
        0 <= r < n,
    ensures
        empties(rows_ops(snapshot, layout, n), layout.live_top + r),
    decreases n,
{
    let last = row_ops(snapshot, layout, n - 1);
    let before = rows_ops(snapshot, layout, n - 1);
    let none = Seq::<OpModel>::empty();
    if r == n - 1 {
        assert(last[0] == OpModel::MoveTo { col: 0, row: layout.live_top + r });
        assert(last[1] == OpModel::ClearLine);
        assert(empties(last, layout.live_top + r));
        emptied_rows_stay_empty(before, last, none, layout.live_top + r);
        assert(before + last + none =~= rows_ops(snapshot, layout, n));
    } else {
        drawn_rows(snapshot, layout, n - 1, r);
        emptied_rows_stay_empty(none, before, last, layout.live_top + r);
        assert(none + before + last =~= rows_ops(snapshot, layout, n));
    }
}

proof fn drawn_rows_stay(snapshot: ScreenSnapshot, layout: LiveLayout, n: int)
    requires
        0 <= n,
    ensures
        stays_within(rows_ops(snapshot, layout, n), layout.live_top as int, layout.live_top + n),
    decreases n,
{
    if n > 0 {
        drawn_rows_stay(snapshot, layout, n - 1);
        let before = rows_ops(snapshot, layout, n - 1);
        let last = row_ops(snapshot, layout, n - 1);
        let all = rows_ops(snapshot, layout, n);
        assert forall|i: int| 0 <= i < all.len() implies ((#[trigger] all[i]) matches OpModel::MoveTo {
            row,
            ..
        } ==> layout.live_top <= row < layout.live_top + n) by {
            if i < before.len() {
                assert(all[i] == before[i]);
            } else {
                assert(all[i] == last[i - before.len()]);
            }
        }
    }
}

proof fn hinted_rows(layout: LiveLayout, n: int, r: int)
    requires
        0 <= r < n,
    ensures
        empties(empty_rows(layout, n), layout.live_top + r),
    decreases n,
{
    let last = crate::live::fresh_row(layout.live_top + n - 1);
    let before = empty_rows(layout, n - 1);
    let none = Seq::<OpModel>::empty();
    if r == n - 1 {
        assert(last[0] == OpModel::MoveTo { col: 0, row: layout.live_top + r });
        assert(empties(last, layout.live_top + r));
        emptied_rows_stay_empty(before, last, none, layout.live_top + r);
        assert(before + last + none =~= empty_rows(layout, n));
    } else {
        hinted_rows(layout, n - 1, r);
        emptied_rows_stay_empty(none, before, last, layout.live_top + r);
        assert(none + before + last =~= empty_rows(layout, n));
    }
}

proof fn hinted_rows_stay(layout: LiveLayout, n: int)
    requires
        0 <= n,
    ensures
        stays_within(empty_rows(layout, n), layout.live_top as int, layout.live_top + n),
    decreases n,
{
    if n > 0 {
        hinted_rows_stay(layout, n - 1);
        let before = empty_rows(layout, n - 1);
        let last = crate::live::fresh_row(layout.live_top + n - 1);
        let all = empty_rows(layout, n);
        assert forall|i: int| 0 <= i < all.len() implies ((#[trigger] all[i]) matches OpModel::MoveTo {
            row,
            ..
        } ==> layout.live_top <= row < layout.live_top + n) by {
            if i < before.len() {
                assert(all[i] == before[i]);
            } else {
                assert(all[i] == last[i - before.len()]);
            }
        }
    }
}

/// Painting empties every row above what is typed before it draws there, and touches
/// no row of what is typed.
pub proof fn painting_stays_above_the_prompt(
    cols: u16,
    rows: u16,
    tabs: Seq<TabModel>,
    focused: Option<Seq<char>>,
    snapshot: Option<&ScreenSnapshot>,
    row: int,
)
    requires
        layout_of(cols, rows).enabled,
        0 <= row < layout_of(cols, rows).log_top,
    ensures
        ({
            let layout = layout_of(cols, rows);
            let ops = top_ops(layout, tabs, focused, snapshot);
            &&& empties(ops, row)
            &&& stays_within(ops, 0, layout.log_top as int)
        }),
{
    parts_stand_below_each_other(cols, rows);
    crate::live::layouts_fit_the_terminal(cols, rows);
    let layout = layout_of(cols, rows);
    let n = layout.height();
    let first = seq![
        OpModel::Print(
            crate::live::scroll_sequence(layout.log_top + 1, layout.rows as int),
        ),
        OpModel::Print("\x1b7"@),
    ];
    let header = header_ops(layout, tabs, focused);
    let pane = pane_ops(layout, snapshot);
    let rule = divider_ops(layout);
    let last = seq![OpModel::Print("\x1b8"@)];
    let ops = top_ops(layout, tabs, focused, snapshot);
    assert(ops =~= first + header + pane + rule + last);
    assert(header[0] == OpModel::MoveTo { col: 0, row: 0 });
    assert(header[1] == OpModel::ClearLine);
    assert(rule[0] == OpModel::MoveTo { col: 0, row: layout.divider_row as int });
    assert(rule[1] == OpModel::ClearLine);
    match snapshot {
        Some(s) => {
            drawn_rows_stay(*s, layout, n);
        },
        None => {
            hinted_rows_stay(layout, n);
        },
    }
    assert(stays_within(pane, layout.live_top as int, layout.live_top + n));
    if row == 0 {
        assert(empties(header, 0));
        emptied_rows_stay_empty(first, header, pane + rule + last, row);
        assert(first + header + (pane + rule + last) =~= ops);
    } else if row == layout.divider_row {
        assert(empties(rule, row));
        emptied_rows_stay_empty(first + header + pane, rule, last, row);
        assert((first + header + pane) + rule + last =~= ops);
    } else {
        match snapshot {
            Some(s) => {
                drawn_rows(*s, layout, n, row - 1);
                assert(empties(pane, row));
            },
            None => {
                hinted_rows(layout, n, row - 1);
                let shown = empty_rows(layout, n);
                let none = Seq::<OpModel>::empty();
                emptied_rows_stay_empty(none, shown, pane.skip(shown.len() as int), row);
                assert(none + shown + pane.skip(shown.len() as int) =~= pane);
            },
        }
        emptied_rows_stay_empty(first + header, pane, rule + last, row);
        assert((first + header) + pane + (rule + last) =~= ops);
    }
    assert forall|i: int| 0 <= i < ops.len() implies ((#[trigger] ops[i]) matches OpModel::MoveTo {
        row: at,
        ..
    } ==> 0 <= at < layout.log_top) by {
        let a = first.len() as int;
        let b = a + header.len();
        let c = b + pane.len();
        if i < a {
            assert(ops[i] == first[i]);
        } else if i < b {
            assert(ops[i] == header[i - a]);
        } else if i < c {
            assert(ops[i] == pane[i - b]);
        } else if i < c + rule.len() {
            assert(ops[i] == rule[i - c]);
        } else {
            assert(ops[i] == last[i - c - rule.len()]);
        }
    }
}

/// Without a picture the pane is empty but for a hint, which stands in the middle row,
/// with as many columns at its left as at its right, or one fewer.
pub proof fn the_hint_stands_in_the_middle(layout: LiveLayout)
    requires
        layout.enabled,
        layout.sound(),
    ensures
        ({
            let ops = pane_ops(layout, None);
            let width = width_from(painted(dim_italic(), FOCUS_HINT@), 0);
            &&& ops.len() >= 2
            &&& ops.last() == OpModel::Print(painted(dim_italic(), FOCUS_HINT@))
            &&& ops[ops.len() - 2] matches OpModel::MoveTo { col, row } && {
                &&& row == layout.live_top + layout.height() / 2
                &&& layout.live_top <= row <= layout.live_bottom
                &&& width <= layout.cols ==> 0 <= layout.cols - width - 2 * col <= 1
                &&& width > layout.cols ==> col == 0
            }
        }),
{
}

/// The rule below the pane fills its row.
pub proof fn the_rule_fills_its_row(layout: LiveLayout)
    ensures
        ({
            let ops = divider_ops(layout);
            &&& ops.len() == 3
            &&& ops[0] == OpModel::MoveTo { col: 0, row: layout.divider_row as int }
            &&& ops[1] == OpModel::ClearLine
            &&& exists|rule: Seq<char>|
                ops[2] == OpModel::Print(#[trigger] painted(dimmed(), rule)) && rule.len()
                    == layout.cols && forall|i: int| 0 <= i < rule.len() ==> rule[i] == '─'
        }),
{
    let rule = crate::tui::repeated('─', layout.cols as nat);
    assert(divider_ops(layout)[2] == OpModel::Print(painted(dimmed(), rule)));
}

/// The alternate screen is entered first and left last, and a scroll region that was
/// set is reset before that.
pub proof fn the_alternate_screen_is_left_again(layout: LiveLayout, guard: AltScreenGuard)
    ensures
        enter_ops(layout)[0] == OpModel::EnterAlternateScreen,
        enter_ops(layout)[1] == OpModel::ClearAll,
        guard.active ==> restore_ops(guard).last() == OpModel::LeaveAlternateScreen,
        guard.active && guard.scroll_region_set ==> restore_ops(guard)[0] == OpModel::Print(
            "\x1b[r"@,
        ),
        !guard.active ==> restore_ops(guard).len() == 0,
{
}

/// The pane is drawn again where a session changed that is, as far as is known, that of
/// a focused adapter with a tab, and for nothing else.
pub proof fn the_pane_follows_the_focused_session(
    notification: NotificationModel,
    ctx: CtxModel,
    session: Option<Seq<char>>,
    changed: Seq<char>,
)
    requires
        notification.params.field("session"@) == Some(JsonModel::Str(changed)),
    ensures
        wants_refresh(notification, ctx, session) == (notification.method == "session.changed"@ && (
        session is None || session == Some(changed)) && (exists|i: int|
            0 <= i < ctx.tabs.len() && ctx.focus == Some((#[trigger] ctx.tabs[i]).id))),
{
    if let Some(id) = ctx.focus {
        crate::ctx::tab_index_bounds(ctx.tabs, id);
    }
}

/// Only what is typed scrolls: the rows from the first one below the rule to the last,
/// counted from one, whenever the top is painted and when the screen is entered.
pub proof fn only_what_is_typed_scrolls(
    layout: LiveLayout,
    tabs: Seq<TabModel>,
    focused: Option<Seq<char>>,
    snapshot: Option<&ScreenSnapshot>,
)
    requires
        layout.enabled,
    ensures
        ({
            let region = OpModel::Print(
                "\x1b["@ + decimal((layout.log_top + 1) as nat) + ";"@ + decimal(
                    layout.rows as nat,
                ) + "r"@,
            );
            &&& top_ops(layout, tabs, focused, snapshot)[0] == region
            &&& enter_ops(layout).contains(region)
        }),
{
    let region = OpModel::Print(
        crate::live::scroll_sequence(layout.log_top + 1, layout.rows as int),
    );
    assert(enter_ops(layout)[3] == region);
}

}
