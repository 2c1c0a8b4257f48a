//! What pictures of terminals show: every row its own cells, each in its place
//! and its style.

use crate::live::{pane_ops, pane_pieces, prints, row_ops, rows_ops, LiveLayout, OpModel};
use crate::paint::{dimmed, painted, plain, Ink, Shade, SpanModel};
use crate::render::{picture_lines, row_pieces, text_columns};
use crate::screen::{ScreenCell, ScreenCellStyle, ScreenSnapshot};
use crate::text::decimal;
use crate::tui::{
    cell_ink, cell_inserted, cell_pieces, cell_shade, cell_text, cell_width, content_width,
    drawn_width, grid, least, piece, preview_lines, preview_row, range_of, render_width,
    repeated, row_cells, runs, widest,
};
use vstd::prelude::*;

verus! {

/// Whether these are the cells of a row of a picture, from left to right: all of
/// them, and of those in one column the first goes first.
pub open spec fn is_row_of(row: Seq<ScreenCell>, snapshot: ScreenSnapshot, r: int) -> bool {
    &&& forall|a: int, b: int|
        0 <= a < b < row.len() ==> (#[trigger] row[a]).col <= (#[trigger] row[b]).col
    &&& forall|col: int| #[trigger]
        in_column(row, col) == snapshot.cells@.filter(
            |cell: ScreenCell| cell.row == r && cell.col == col,
        )
}

/// The cells of a row that stand in a column.
pub open spec fn in_column(row: Seq<ScreenCell>, col: int) -> Seq<ScreenCell> {
    row.filter(|cell: ScreenCell| cell.col == col)
}

/// The characters of pieces, each with its style.
pub open spec fn inked(line: Seq<SpanModel>) -> Seq<(char, Ink)>
    decreases line.len(),
{
    if line.len() == 0 {
        Seq::empty()
    } else {
        inked(line.drop_last()) + with_ink(line.last().text, line.last().ink)
    }
}

/// The characters of a text, all in one style.
pub open spec fn with_ink(text: Seq<char>, ink: Ink) -> Seq<(char, Ink)> {
    text.map_values(|c: char| (c, ink))
}

/// The characters that a cell shows, in its style. An empty cell shows a blank.
pub open spec fn glyphs(cell: ScreenCell) -> Seq<(char, Ink)> {
    if cell.text@.len() == 0 {
        seq![(' ', cell_ink(cell.style))]
    } else {
        with_ink(cell.text@, cell_ink(cell.style))
    }
}

/// The characters that cells show, one cell after the other.
pub open spec fn all_glyphs(cells: Seq<ScreenCell>) -> Seq<(char, Ink)>
    decreases cells.len(),
{
    if cells.len() == 0 {
        Seq::empty()
    } else {
        glyphs(cells[0]) + all_glyphs(cells.drop_first())
    }
}

/// The cells of a row that are drawn in a pane: no second halves of wide
/// characters, none from beyond the picture, and no more than there are columns.
pub open spec fn drawn_cells(row: Seq<ScreenCell>, cols: int, own_cols: int) -> Seq<ScreenCell> {
    let inside = row.filter(
        |cell: ScreenCell| !cell.wide_continuation && cell.col < own_cols,
    );
    inside.take(least(cols, inside.len() as int))
}

/// What prints pieces.
pub open spec fn printed(line: Seq<SpanModel>) -> Seq<OpModel> {
    Seq::new(line.len(), |i: int| OpModel::Print(painted(line[i].ink, line[i].text)))
}

/// Whether one row is drawn somewhere among other work: the cursor goes to its
/// start, the row is cleared, pieces are printed, and then the cursor goes
/// elsewhere or all is done.
pub open spec fn draws_row(
    ops: Seq<OpModel>,
    before: Seq<OpModel>,
    at: int,
    line: Seq<SpanModel>,
    after: Seq<OpModel>,
) -> bool {
    &&& ops == before + seq![OpModel::MoveTo { col: 0, row: at }, OpModel::ClearLine] + printed(
        line,
    ) + after
    &&& after.len() > 0 ==> after[0] is MoveTo
}

/// Whether one row of a pane is drawn: it shows a row of a picture, from left to
/// right, each cell in its style, as far as there are columns; or nothing, where
/// the picture has no such row.
pub open spec fn shows_row(
    ops: Seq<OpModel>,
    snapshot: ScreenSnapshot,
    layout: LiveLayout,
    r: int,
    before: Seq<OpModel>,
    line: Seq<SpanModel>,
    after: Seq<OpModel>,
    row: Seq<ScreenCell>,
) -> bool {
    &&& draws_row(ops, before, layout.live_top + r, line, after)
    &&& if r < snapshot.size.rows {
        is_row_of(row, snapshot, r) && inked(line) == all_glyphs(
            drawn_cells(row, layout.cols as int, snapshot.size.cols as int),
        )
    } else {
        line.len() == 0
    }
}

// ---- laws ---------------------------------------------------------------

/// The grid of a picture has its rows in order, and each row has its cells from
/// left to right.
pub proof fn rows_hold_their_cells(snapshot: ScreenSnapshot, r: int)
    requires
        0 <= r < snapshot.size.rows,
    ensures
        grid(snapshot).len() == snapshot.size.rows,
        is_row_of(grid(snapshot)[r], snapshot, r),
{
    let row = row_cells(snapshot.cells@, r);
    assert(grid(snapshot)[r] == row);
    cells_stand_in_order(snapshot.cells@, r);
    assert forall|col: int| #[trigger]
        in_column(row, col) == snapshot.cells@.filter(
            |cell: ScreenCell| cell.row == r && cell.col == col,
        ) by {
        cells_stand_in_columns(snapshot.cells@, r, col);
    }
}

proof fn inserted_cells_stand_in_order(row: Seq<ScreenCell>, cell: ScreenCell)
    requires
        forall|a: int, b: int|
            0 <= a < b < row.len() ==> (#[trigger] row[a]).col <= (#[trigger] row[b]).col,
    ensures
        ({
            let after = cell_inserted(row, cell);
            &&& after.len() == row.len() + 1
            &&& forall|a: int, b: int|
                0 <= a < b < after.len() ==> (#[trigger] after[a]).col <= (
                #[trigger] after[b]).col
            &&& forall|a: int|
                0 <= a < after.len() ==> (#[trigger] after[a]).col <= cell.col || (row.len() > 0
                    && after[a].col <= row.last().col)
        }),
    decreases row.len(),
{
    let after = cell_inserted(row, cell);
    if row.len() > 0 && cell.col < row.last().col {
        let init = row.drop_last();
        assert forall|a: int, b: int| 0 <= a < b < init.len() implies (#[trigger] init[a]).col <= (
        #[trigger] init[b]).col by {
            assert(row[a].col <= row[b].col);
        }
        inserted_cells_stand_in_order(init, cell);
        let inner = cell_inserted(init, cell);
        if init.len() > 0 {
            assert(row[init.len() - 1].col <= row[row.len() - 1].col);
        }
        assert forall|a: int| 0 <= a < inner.len() implies (#[trigger] inner[a]).col
            <= row.last().col by {}
        assert forall|a: int, b: int| 0 <= a < b < after.len() implies (
        #[trigger] after[a]).col <= (#[trigger] after[b]).col by {
            if b < inner.len() {
                assert(inner[a].col <= inner[b].col);
            } else {
                assert(inner[a].col <= row.last().col);
            }
        }
        assert forall|a: int| 0 <= a < after.len() implies (#[trigger] after[a]).col <= cell.col
            || (row.len() > 0 && after[a].col <= row.last().col) by {
            if a < inner.len() {
                assert(inner[a].col <= row.last().col);
            }
        }
    } else {
        assert forall|a: int, b: int| 0 <= a < b < after.len() implies (
        #[trigger] after[a]).col <= (#[trigger] after[b]).col by {
            if b < row.len() {
                assert(row[a].col <= row[b].col);
            } else if a < row.len() - 1 {
                assert(row[a].col <= row[row.len() - 1].col);
            }
        }
        assert forall|a: int| 0 <= a < after.len() implies (#[trigger] after[a]).col <= cell.col
            || (row.len() > 0 && after[a].col <= row.last().col) by {
            if a < row.len() - 1 {
                assert(row[a].col <= row[row.len() - 1].col);
            }
        }
    }
}

proof fn cells_stand_in_order(cells: Seq<ScreenCell>, r: int)
    ensures
        forall|a: int, b: int|
            0 <= a < b < row_cells(cells, r).len() ==> (#[trigger] row_cells(cells, r)[a]).col <= (
            #[trigger] row_cells(cells, r)[b]).col,
    decreases cells.len(),
{
    if cells.len() > 0 {
        cells_stand_in_order(cells.drop_last(), r);
        inserted_cells_stand_in_order(row_cells(cells.drop_last(), r), cells.last());
    }
}

proof fn inserted_cells_stand_in_columns(row: Seq<ScreenCell>, cell: ScreenCell, col: int)
    ensures
        in_column(cell_inserted(row, cell), col) == if cell.col == col {
            in_column(row, col).push(cell)
        } else {
            in_column(row, col)
        },
    decreases row.len(),
{
    reveal(Seq::filter);
    let p = |c: ScreenCell| c.col == col;
    if row.len() > 0 && cell.col < row.last().col {
        let init = row.drop_last();
        inserted_cells_stand_in_columns(init, cell, col);
        let inner = cell_inserted(init, cell);
        assert(inner.push(row.last()).drop_last() =~= inner);
        assert(inner.push(row.last()).last() == row.last());
    } else {
        assert(row.push(cell).drop_last() =~= row);
    }
}

proof fn cells_stand_in_columns(cells: Seq<ScreenCell>, r: int, col: int)
    ensures
        in_column(row_cells(cells, r), col) == cells.filter(
            |cell: ScreenCell| cell.row == r && cell.col == col,
        ),
    decreases cells.len(),
{
    reveal(Seq::filter);
    if cells.len() > 0 {
        cells_stand_in_columns(cells.drop_last(), r, col);
        if cells.last().row == r {
            inserted_cells_stand_in_columns(
                row_cells(cells.drop_last(), r),
                cells.last(),
                col,
            );
        }
    }
}

proof fn inked_concat(a: Seq<SpanModel>, b: Seq<SpanModel>)
    ensures
        inked(a + b) == inked(a) + inked(b),
    decreases b.len(),
{
    if b.len() == 0 {
        assert(a + b =~= a);
        assert(inked(a) + inked(b) =~= inked(a));
    } else {
        inked_concat(a, b.drop_last());
        assert((a + b).drop_last() =~= a + b.drop_last());
        assert(inked(a + b) =~= inked(a) + inked(b));
    }
}

proof fn inked_one(p: SpanModel)
    ensures
        inked(seq![p]) == with_ink(p.text, p.ink),
{
    assert(seq![p].drop_last() =~= Seq::<SpanModel>::empty());
    assert(inked(Seq::<SpanModel>::empty()) =~= Seq::<(char, Ink)>::empty());
    assert(inked(seq![p]) =~= with_ink(p.text, p.ink));
}

/// Putting pieces of one style together changes no character and no style.
pub proof fn runs_keep_the_ink(pieces: Seq<SpanModel>)
    ensures
        inked(runs(pieces)) == inked(pieces),
    decreases pieces.len(),
{
    if pieces.len() > 0 {
        runs_keep_the_ink(pieces.drop_last());
        let before = runs(pieces.drop_last());
        let last = pieces.last();
        if before.len() > 0 && before.last().ink == last.ink {
            let merged = before.drop_last().push(piece(before.last().text + last.text, last.ink));
            assert(merged.drop_last() =~= before.drop_last());
            assert(inked(merged) =~= inked(pieces));
        } else {
            assert(before.push(last).drop_last() =~= before);
        }
    }
}

proof fn glyphs_of_a_piece(cell: ScreenCell)
    ensures
        inked(seq![piece(cell_text(cell), cell_ink(cell.style))]) == glyphs(cell),
{
    reveal_strlit(" ");
    inked_one(piece(cell_text(cell), cell_ink(cell.style)));
    assert(with_ink(cell_text(cell), cell_ink(cell.style)) =~= glyphs(cell));
}

proof fn pane_pieces_are_drawn_cells(
    row: Seq<ScreenCell>,
    i: int,
    drawn: int,
    cols: int,
    own_cols: int,
)
    requires
        0 <= i <= row.len(),
        0 <= drawn <= cols,
    ensures
        inked(pane_pieces(row, i, drawn, cols, own_cols)) == all_glyphs(
            drawn_cells(row.skip(i), cols - drawn, own_cols),
        ),
    decreases row.len() - i,
{
    reveal(Seq::filter);
    let p = |cell: ScreenCell| !cell.wide_continuation && cell.col < own_cols;
    let inside = row.skip(i).filter(p);
    if i >= row.len() {
        assert(row.skip(i) =~= Seq::<ScreenCell>::empty());
        assert(inside =~= Seq::<ScreenCell>::empty());
        assert(drawn_cells(row.skip(i), cols - drawn, own_cols) =~= Seq::<ScreenCell>::empty());
    } else {
        let later = row.skip(i + 1).filter(p);
        assert(row.skip(i) =~= seq![row[i]] + row.skip(i + 1));
        Seq::filter_distributes_over_add(seq![row[i]], row.skip(i + 1), p);
        assert(seq![row[i]].drop_last() =~= Seq::<ScreenCell>::empty());
        if p(row[i]) {
            assert(seq![row[i]].filter(p) =~= seq![row[i]]);
            if drawn < cols {
                pane_pieces_are_drawn_cells(row, i + 1, drawn + 1, cols, own_cols);
                let rest = drawn_cells(row.skip(i + 1), cols - drawn - 1, own_cols);
                let all = drawn_cells(row.skip(i), cols - drawn, own_cols);
                assert(all =~= seq![row[i]] + rest);
                assert(all.drop_first() =~= rest);
                let first = seq![piece(cell_text(row[i]), cell_ink(row[i].style))];
                inked_concat(first, pane_pieces(row, i + 1, drawn + 1, cols, own_cols));
                glyphs_of_a_piece(row[i]);
            } else {
                assert(drawn_cells(row.skip(i), 0, own_cols) =~= Seq::<ScreenCell>::empty());
            }
        } else {
            assert(Seq::<ScreenCell>::empty().filter(p) =~= Seq::<ScreenCell>::empty());
            assert(seq![row[i]].filter(p) =~= Seq::<ScreenCell>::empty());
            assert(inside =~= later);
            if drawn < cols || row[i].wide_continuation {
                pane_pieces_are_drawn_cells(row, i + 1, drawn, cols, own_cols);
            } else {
                assert(drawn_cells(row.skip(i), 0, own_cols) =~= Seq::<ScreenCell>::empty());
            }
        }
    }
}

proof fn prints_are_printed(line: Seq<SpanModel>)
    ensures
        prints(line) == printed(line),
{
    assert(prints(line) =~= printed(line));
}

#[verifier::rlimit(40)]
proof fn rows_are_drawn_one_below_the_other(
    snapshot: ScreenSnapshot,
    layout: LiveLayout,
    n: int,
    r: int,
)
    requires
        0 <= r < n,
    ensures
        ({
            let ops = rows_ops(snapshot, layout, n);
            exists|before: Seq<OpModel>, after: Seq<OpModel>|
                ops == #[trigger] (before + row_ops(snapshot, layout, r) + after) && (after.len()
                    > 0 ==> after[0] is MoveTo)
        }),
    decreases n,
{
    let ops = rows_ops(snapshot, layout, n);
    let init = rows_ops(snapshot, layout, n - 1);
    let own = row_ops(snapshot, layout, r);
    if r == n - 1 {
        let none = Seq::<OpModel>::empty();
        assert(ops =~= init + own + none);
        assert(ops == init + own + none);
    } else {
        rows_are_drawn_one_below_the_other(snapshot, layout, n - 1, r);
        let (before, after) = choose|before: Seq<OpModel>, after: Seq<OpModel>|
            init == #[trigger] (before + own + after) && (after.len() > 0 ==> after[0] is MoveTo);
        let last = row_ops(snapshot, layout, n - 1);
        let more = after + last;
        assert(last.len() >= 2 && last[0] is MoveTo);
        assert(ops =~= before + own + more);
        assert(ops == before + own + more);
        assert(more[0] is MoveTo);
    }
}

/// The pane shows the rows of the picture from its first one on, each at its own
/// row of the terminal and nowhere else: what is printed between going there and
/// going on are the cells of that row of the picture, from left to right, each in
/// its style, as far as there are columns. Rows that the picture does not have
/// stay empty.
pub proof fn the_pane_shows_each_row_in_its_place(
    snapshot: ScreenSnapshot,
    layout: LiveLayout,
    r: int,
)
    requires
        0 <= r < layout.height(),
    ensures
        exists|
            before: Seq<OpModel>,
            line: Seq<SpanModel>,
            after: Seq<OpModel>,
            row: Seq<ScreenCell>,
        |
            #[trigger] shows_row(
                rows_ops(snapshot, layout, layout.height()),
                snapshot,
                layout,
                r,
                before,
                line,
                after,
                row,
            ),
        pane_ops(layout, Some(&snapshot)) == rows_ops(snapshot, layout, layout.height()),
{
    let n = layout.height();
    let ops = rows_ops(snapshot, layout, n);
    rows_are_drawn_one_below_the_other(snapshot, layout, n, r);
    let own = row_ops(snapshot, layout, r);
    let (before, after) = choose|before: Seq<OpModel>, after: Seq<OpModel>|
        ops == #[trigger] (before + own + after) && (after.len() > 0 ==> after[0] is MoveTo);
    let start = seq![
        OpModel::MoveTo { col: 0, row: layout.live_top + r },
        OpModel::ClearLine,
    ];
    if r < snapshot.size.rows {
        let row = grid(snapshot)[r];
        let cols = layout.cols as int;
        let own_cols = snapshot.size.cols as int;
        let pieces = pane_pieces(row, 0, 0, cols, own_cols);
        let line = runs(pieces);
        rows_hold_their_cells(snapshot, r);
        runs_keep_the_ink(pieces);
        pane_pieces_are_drawn_cells(row, 0, 0, cols, own_cols);
        assert(row.skip(0) =~= row);
        prints_are_printed(line);
        assert(own =~= start + printed(line));
        assert(ops =~= before + start + printed(line) + after);
        assert(draws_row(ops, before, layout.live_top + r, line, after));
        assert(shows_row(ops, snapshot, layout, r, before, line, after, row));
    } else {
        let line = Seq::<SpanModel>::empty();
        assert(own =~= start + printed(line));
        assert(ops =~= before + start + printed(line) + after);
        assert(draws_row(ops, before, layout.live_top + r, line, after));
        let row = Seq::<ScreenCell>::empty();
        assert(shows_row(ops, snapshot, layout, r, before, line, after, row));
    }
}

proof fn prints_move_nowhere(line: Seq<SpanModel>)
    ensures
        prints(line).filter(|op: OpModel| op is MoveTo) == Seq::<OpModel>::empty(),
    decreases line.len(),
{
    reveal(Seq::filter);
    let p = |op: OpModel| op is MoveTo;
    if line.len() > 0 {
        prints_move_nowhere(line.drop_last());
        assert(prints(line).drop_last() =~= prints(line.drop_last()));
    } else {
        assert(prints(line) =~= Seq::<OpModel>::empty());
    }
}

proof fn rows_move_once(snapshot: ScreenSnapshot, layout: LiveLayout, r: int)
    ensures
        row_ops(snapshot, layout, r).filter(|op: OpModel| op is MoveTo) == seq![
            OpModel::MoveTo { col: 0, row: layout.live_top + r },
        ],
{
    reveal_with_fuel(Seq::filter, 4);
    let p = |op: OpModel| op is MoveTo;
    let move_to = OpModel::MoveTo { col: 0, row: layout.live_top + r };
    let start = seq![move_to, OpModel::ClearLine];
    assert(start.drop_last() =~= seq![move_to]);
    assert(seq![move_to].drop_last() =~= Seq::<OpModel>::empty());
    assert(Seq::<OpModel>::empty().filter(p) =~= Seq::<OpModel>::empty());
    assert(seq![move_to].filter(p) =~= seq![move_to]);
    assert(start.filter(p) =~= seq![move_to]);
    if r < snapshot.size.rows {
        let line = runs(
            pane_pieces(
                grid(snapshot)[r],
                0,
                0,
                layout.cols as int,
                snapshot.size.cols as int,
            ),
        );
        prints_move_nowhere(line);
        Seq::filter_distributes_over_add(start, prints(line), p);
        assert(row_ops(snapshot, layout, r) =~= start + prints(line));
        assert(seq![move_to] + Seq::<OpModel>::empty() =~= seq![move_to]);
    } else {
        assert(row_ops(snapshot, layout, r) =~= start);
    }
}

/// Drawing the pane goes to each of its rows once, from the top to the bottom.
pub proof fn the_pane_is_drawn_from_top_to_bottom(
    snapshot: ScreenSnapshot,
    layout: LiveLayout,
    n: int,
)
    requires
        0 <= n,
    ensures
        rows_ops(snapshot, layout, n).filter(|op: OpModel| op is MoveTo) == Seq::new(
            n as nat,
            |i: int| OpModel::MoveTo { col: 0, row: layout.live_top + i },
        ),
    decreases n,
{
    reveal(Seq::filter);
    let p = |op: OpModel| op is MoveTo;
    let moves = Seq::new(
        n as nat,
        |i: int| OpModel::MoveTo { col: 0, row: layout.live_top + i },
    );
    if n > 0 {
        the_pane_is_drawn_from_top_to_bottom(snapshot, layout, n - 1);
        rows_move_once(snapshot, layout, n - 1);
        Seq::filter_distributes_over_add(
            rows_ops(snapshot, layout, n - 1),
            row_ops(snapshot, layout, n - 1),
            p,
        );
        assert(rows_ops(snapshot, layout, n).filter(p) =~= moves);
    } else {
        assert(rows_ops(snapshot, layout, n) =~= Seq::<OpModel>::empty());
        assert(rows_ops(snapshot, layout, n).filter(p) =~= moves);
    }
}

// ---- pictures among what was printed ------------------------------------

/// The cells of a row that are no second halves of wide characters.
pub open spec fn whole_cells(row: Seq<ScreenCell>) -> Seq<ScreenCell> {
    row.filter(|cell: ScreenCell| !cell.wide_continuation)
}

/// Whether these many cells are all that stand before a column: each of them ends
/// there at the latest, and the next one does not.
pub open spec fn fit_before(cells: Seq<ScreenCell>, n: int, width: int) -> bool {
    &&& 0 <= n <= cells.len()
    &&& forall|i: int|
        0 <= i < n ==> (#[trigger] cells[i]).col + (if cells[i].wide {
            2int
        } else {
            1
        }) <= width
    &&& n < cells.len() ==> cells[n].col + (if cells[n].wide {
        2int
    } else {
        1
    }) > width
}

proof fn cell_pieces_fit(row: Seq<ScreenCell>, i: int, width: int) -> (n: int)
    requires
        0 <= i <= row.len(),
    ensures
        fit_before(whole_cells(row.skip(i)), n, width),
        inked(cell_pieces(row, i, width)) == all_glyphs(whole_cells(row.skip(i)).take(n)),
    decreases row.len() - i,
{
    reveal(Seq::filter);
    let p = |cell: ScreenCell| !cell.wide_continuation;
    let whole = whole_cells(row.skip(i));
    if i >= row.len() {
        assert(row.skip(i) =~= Seq::<ScreenCell>::empty());
        assert(whole =~= Seq::<ScreenCell>::empty());
        assert(whole.take(0) =~= Seq::<ScreenCell>::empty());
        0
    } else {
        let later = whole_cells(row.skip(i + 1));
        assert(row.skip(i) =~= seq![row[i]] + row.skip(i + 1));
        Seq::filter_distributes_over_add(seq![row[i]], row.skip(i + 1), p);
        assert(seq![row[i]].drop_last() =~= Seq::<ScreenCell>::empty());
        assert(Seq::<ScreenCell>::empty().filter(p) =~= Seq::<ScreenCell>::empty());
        if row[i].wide_continuation {
            assert(seq![row[i]].filter(p) =~= Seq::<ScreenCell>::empty());
            assert(whole =~= later);
            cell_pieces_fit(row, i + 1, width)
        } else {
            assert(seq![row[i]].filter(p) =~= seq![row[i]]);
            assert(whole =~= seq![row[i]] + later);
            assert(whole[0] == row[i]);
            if row[i].col + cell_width(row[i]) > width {
                assert(whole.take(0) =~= Seq::<ScreenCell>::empty());
                0
            } else {
                let n = cell_pieces_fit(row, i + 1, width);
                let all = whole.take(n + 1);
                assert(all.drop_first() =~= later.take(n));
                assert forall|k: int| 0 <= k < n + 1 implies (#[trigger] whole[k]).col + (
                if whole[k].wide {
                    2int
                } else {
                    1
                }) <= width by {
                    if k > 0 {
                        assert(whole[k] == later[k - 1]);
                    }
                }
                if n + 1 < whole.len() {
                    assert(whole[n + 1] == later[n]);
                }
                let first = seq![piece(cell_text(row[i]), cell_ink(row[i].style))];
                inked_concat(first, cell_pieces(row, i + 1, width));
                glyphs_of_a_piece(row[i]);
                n + 1
            }
        }
    }
}

/// Whether a line of a printed picture shows a row of it: behind the indent come
/// the cells of that row, from left to right, each in its style, as many as end
/// before some column.
pub open spec fn line_shows_row(
    line: Seq<SpanModel>,
    snapshot: ScreenSnapshot,
    r: int,
    row: Seq<ScreenCell>,
    n: int,
    width: int,
    cut: bool,
) -> bool {
    &&& is_row_of(row, snapshot, r)
    &&& fit_before(whole_cells(row), n, width)
    &&& inked(line) == with_ink(seq![' ', ' '], plain()) + all_glyphs(whole_cells(row).take(n)) + (
    if cut {
        seq![('…', dimmed())]
    } else {
        Seq::empty()
    })
}

/// A picture that is printed has a blank line and a title above its rows, and a
/// line and a blank one below them. Its rows come in order, from the first to the
/// last that is shown; each shows its own cells, up to its last cell that shows
/// something, or up to the width of the picture, and then has a mark behind them.
pub proof fn printed_pictures_show_each_row(
    adapter: Seq<char>,
    snapshot: ScreenSnapshot,
    term_cols: int,
    k: int,
)
    requires
        snapshot.cursor.row < snapshot.size.rows,
        ({
            let range = range_of(grid(snapshot), snapshot.cursor.row as int);
            0 <= k < range.end - range.start
        }),
    ensures
        ({
            let rows = grid(snapshot);
            let range = range_of(rows, snapshot.cursor.row as int);
            let lines = preview_lines(adapter, snapshot, term_cols);
            let width = render_width(
                widest(rows.subrange(range.start as int, range.end as int)),
                term_cols,
                snapshot.size.cols as int,
            );
            let row = rows[range.start + k];
            &&& lines.len() == range.end - range.start + 4
            &&& exists|line: Seq<SpanModel>, r: int, own: Seq<ScreenCell>, n: int, upto: int, cut: bool|
                {
                    &&& #[trigger] line_shows_row(line, snapshot, r, own, n, upto, cut)
                    &&& line == lines[2 + k]
                    &&& r == range.start + k
                    &&& own == row
                    &&& upto == if content_width(row) <= width {
                        content_width(row)
                    } else if width > 0 && width == term_cols - 2 {
                        width - 1
                    } else {
                        width
                    }
                    &&& cut == (content_width(row) > width)
                }
        }),
{
    let rows = grid(snapshot);
    let range = range_of(rows, snapshot.cursor.row as int);
    crate::tui::cursor_row_is_shown(rows, snapshot.cursor.row as int);
    let shown = rows.subrange(range.start as int, range.end as int);
    let width = render_width(widest(shown), term_cols, snapshot.size.cols as int);
    let r = range.start + k;
    let row = rows[r];
    rows_hold_their_cells(snapshot, r);
    assert(shown[k] == row);
    let lines = preview_lines(adapter, snapshot, term_cols);
    let line = preview_row(row, width, term_cols);
    assert(lines[2 + k] == line);
    let content = content_width(row);
    let drawn = drawn_width(content, width, term_cols);
    let pieces = cell_pieces(row, 0, drawn);
    let n = cell_pieces_fit(row, 0, drawn);
    assert(row.skip(0) =~= row);
    runs_keep_the_ink(pieces);
    let indent = seq![piece("  "@, plain())];
    let base = indent + runs(pieces);
    inked_concat(indent, runs(pieces));
    inked_one(piece("  "@, plain()));
    reveal_strlit("  ");
    assert("  "@ =~= seq![' ', ' ']);
    let mark = piece("…"@, dimmed());
    let cells = all_glyphs(whole_cells(row).take(n));
    let start = with_ink(seq![' ', ' '], plain());
    if content > width {
        reveal_strlit("…");
        assert(line =~= base + seq![mark]);
        inked_concat(base, seq![mark]);
        inked_one(mark);
        assert(with_ink("…"@, dimmed()) =~= seq![('…', dimmed())]);
        assert(inked(line) =~= start + cells + seq![('…', dimmed())]);
    } else {
        assert(inked(line) =~= start + cells + Seq::<(char, Ink)>::empty());
    }
    assert(line_shows_row(line, snapshot, r, row, n, drawn, content > width));
}

// ---- pictures on the full screen ----------------------------------------

/// Whether the cells that are drawn of a row stand apart: each begins behind the
/// characters of those before it, of which there are not too many.
pub open spec fn stand_apart(row: Seq<ScreenCell>) -> bool {
    &&& forall|a: int|
        0 <= a < row.len() ==> (#[trigger] row[a]).text@.len() < 65536
    &&& forall|a: int, b: int|
        0 <= a < b < row.len() && !(#[trigger] row[a]).wide_continuation && !(
        #[trigger] row[b]).wide_continuation ==> row[a].col + glyphs(row[a]).len() <= row[b].col
}

/// Whether a cell stands at its own column in a line of characters.
pub open spec fn stands_at(line: Seq<(char, Ink)>, at: int, cell: ScreenCell) -> bool {
    &&& 0 <= at
    &&& at + glyphs(cell).len() <= line.len()
    &&& line.subrange(at, at + glyphs(cell).len()) == glyphs(cell)
}

proof fn inked_blanks(n: nat)
    ensures
        inked(seq![piece(repeated(' ', n), plain())]) == Seq::new(n, |i: int| (' ', plain())),
{
    inked_one(piece(repeated(' ', n), plain()));
    assert(with_ink(repeated(' ', n), plain()) =~= Seq::new(n, |i: int| (' ', plain())));
}

/// What is drawn from a cell on: blanks up to its column, the cell, and what follows.
proof fn row_pieces_begin(row: Seq<ScreenCell>, i: int, col: int, cols: int, max_cols: int)
    requires
        0 <= i < row.len(),
        0 <= col <= row[i].col,
        !row[i].wide_continuation,
    ensures
        ({
            let cell = row[i];
            let next = cell.col + text_columns(cell);
            let blanks = Seq::new((cell.col - col) as nat, |k: int| (' ', plain()));
            inked(row_pieces(row, i, col, cols, max_cols)) == blanks + glyphs(cell) + inked(
                row_pieces(row, i + 1, next, cols, max_cols),
            )
        }),
{
    let cell = row[i];
    let next = cell.col + text_columns(cell);
    let rest = row_pieces(row, i + 1, next, cols, max_cols);
    let gap_len = cell.col - col;
    let gap = if cell.col > col {
        seq![piece(repeated(' ', gap_len as nat), plain())]
    } else {
        Seq::empty()
    };
    let one = seq![piece(cell_text(cell), cell_ink(cell.style))];
    let blanks = Seq::new(gap_len as nat, |k: int| (' ', plain()));
    if cell.col > col {
        inked_blanks(gap_len as nat);
    } else {
        assert(inked(gap) =~= blanks);
    }
    assert(gap.push(one[0]) =~= gap + one);
    inked_concat(gap, one);
    inked_concat(gap + one, rest);
    glyphs_of_a_piece(cell);
    assert(row_pieces(row, i, col, cols, max_cols) =~= gap + one + rest);
}

#[verifier::rlimit(40)]
#[verifier::spinoff_prover]
proof fn row_pieces_stand_at_their_columns(
    row: Seq<ScreenCell>,
    i: int,
    col: int,
    cols: int,
    max_cols: int,
)
    requires
        0 <= i <= row.len(),
        0 <= col,
        stand_apart(row),
        forall|b: int|
            i <= b < row.len() && !(#[trigger] row[b]).wide_continuation ==> col <= row[b].col,
    ensures
        ({
            let line = inked(row_pieces(row, i, col, cols, max_cols));
            &&& forall|k: int|
                i <= k < row.len() && !(#[trigger] row[k]).wide_continuation ==> stands_at(
                    line,
                    row[k].col - col,
                    row[k],
                )
            &&& forall|c: int|
                0 <= c < line.len() && (forall|k: int|
                    i <= k < row.len() && !(#[trigger] row[k]).wide_continuation ==> !(row[k].col
                        - col <= c < row[k].col - col + glyphs(row[k]).len()))
                    ==> #[trigger] line[c] == (' ', plain())
            &&& line.len() >= least(cols, max_cols) - col
        }),
    decreases row.len() - i,
{
    let pieces = row_pieces(row, i, col, cols, max_cols);
    let line = inked(pieces);
    if i >= row.len() {
        let room = least(cols, max_cols) - col;
        if room > 0 {
            inked_blanks(room as nat);
        }
    } else if row[i].wide_continuation {
        row_pieces_stand_at_their_columns(row, i + 1, col, cols, max_cols);
        let same = inked(row_pieces(row, i + 1, col, cols, max_cols));
        assert forall|c: int|
            0 <= c < line.len() && (forall|k: int|
                i <= k < row.len() && !(#[trigger] row[k]).wide_continuation ==> !(row[k].col - col
                    <= c < row[k].col - col + glyphs(row[k]).len())) implies #[trigger] line[c] == (
            ' ',
            plain(),
        ) by {
            assert(forall|k: int|
                i + 1 <= k < row.len() && !(#[trigger] row[k]).wide_continuation ==> !(row[k].col
                    - col <= c < row[k].col - col + glyphs(row[k]).len()));
            assert(same[c] == (' ', plain()));
        }
    } else {
        let cell = row[i];
        let size = glyphs(cell).len() as int;
        let next = cell.col + text_columns(cell);
        assert(cell.text@.len() < 65536);
        assert(text_columns(cell) == size);
        assert forall|b: int|
            i + 1 <= b < row.len() && !(#[trigger] row[b]).wide_continuation implies next
            <= row[b].col by {
            assert(row[i].col + glyphs(row[i]).len() <= row[b].col);
        }
        row_pieces_stand_at_their_columns(row, i + 1, next, cols, max_cols);
        let rest = inked(row_pieces(row, i + 1, next, cols, max_cols));
        let gap_len = cell.col - col;
        let blanks = Seq::new(gap_len as nat, |k: int| (' ', plain()));
        row_pieces_begin(row, i, col, cols, max_cols);
        let start = gap_len + size;
        assert forall|k: int|
            i <= k < row.len() && !(#[trigger] row[k]).wide_continuation implies stands_at(
            line,
            row[k].col - col,
            row[k],
        ) by {
            if k == i {
                assert(line.subrange(gap_len, gap_len + size) =~= glyphs(cell));
            } else {
                let at = row[k].col - next;
                let n = glyphs(row[k]).len() as int;
                assert(stands_at(rest, at, row[k]));
                assert(row[k].col - col == start + at);
                assert(line.subrange(start + at, start + at + n) =~= rest.subrange(at, at + n));
            }
        }
        assert forall|c: int|
            0 <= c < line.len() && (forall|k: int|
                i <= k < row.len() && !(#[trigger] row[k]).wide_continuation ==> !(row[k].col - col
                    <= c < row[k].col - col + glyphs(row[k]).len())) implies #[trigger] line[c] == (
            ' ',
            plain(),
        ) by {
            if c >= start {
                assert(!(row[i].col - col <= c < row[i].col - col + glyphs(row[i]).len()));
                assert forall|k: int|
                    i + 1 <= k < row.len() && !(#[trigger] row[k]).wide_continuation implies !(
                row[k].col - next <= c - start < row[k].col - next + glyphs(row[k]).len()) by {
                    assert(!(row[k].col - col <= c < row[k].col - col + glyphs(row[k]).len()));
                }
                assert(rest[c - start] == (' ', plain()));
            } else if c >= gap_len {
                assert(!(row[i].col - col <= c < row[i].col - col + glyphs(row[i]).len()));
            }
        }
    }
}

/// On the full screen a picture has a line for each of its rows, in order. Each cell
/// of a row that is drawn stands in its line at its own column, in its style, where
/// the cells stand apart; all else is blank, and a line is as wide as the picture or
/// as its place, whichever is less.
pub proof fn full_screen_pictures_show_each_cell_in_its_place(
    snapshot: ScreenSnapshot,
    max_cols: int,
    r: int,
)
    requires
        0 <= r < snapshot.size.rows,
        stand_apart(grid(snapshot)[r]),
    ensures
        ({
            let lines = picture_lines(snapshot, max_cols);
            let row = grid(snapshot)[r];
            let line = inked(lines[r]);
            &&& lines.len() == snapshot.size.rows
            &&& is_row_of(row, snapshot, r)
            &&& forall|k: int|
                0 <= k < row.len() && !(#[trigger] row[k]).wide_continuation ==> stands_at(
                    line,
                    row[k].col as int,
                    row[k],
                )
            &&& forall|c: int|
                0 <= c < line.len() && (forall|k: int|
                    0 <= k < row.len() && !(#[trigger] row[k]).wide_continuation ==> !(row[k].col
                        <= c < row[k].col + glyphs(row[k]).len())) ==> #[trigger] line[c] == (
                    ' ',
                    plain(),
                )
            &&& line.len() >= least(snapshot.size.cols as int, max_cols)
        }),
{
    let row = grid(snapshot)[r];
    rows_hold_their_cells(snapshot, r);
    row_pieces_stand_at_their_columns(row, 0, 0, snapshot.size.cols as int, max_cols);
    let lines = picture_lines(snapshot, max_cols);
    let line = inked(lines[r]);
    assert(lines[r] == row_pieces(row, 0, 0, snapshot.size.cols as int, max_cols));
    assert forall|k: int|
        0 <= k < row.len() && !(#[trigger] row[k]).wide_continuation implies stands_at(
        line,
        row[k].col as int,
        row[k],
    ) by {
        assert(stands_at(line, row[k].col - 0, row[k]));
    }
    assert forall|c: int|
        0 <= c < line.len() && (forall|k: int|
            0 <= k < row.len() && !(#[trigger] row[k]).wide_continuation ==> !(row[k].col <= c
                < row[k].col + glyphs(row[k]).len())) implies #[trigger] line[c] == (
        ' ',
        plain(),
    ) by {
        assert(forall|k: int|
            0 <= k < row.len() && !(#[trigger] row[k]).wide_continuation ==> !(row[k].col - 0 <= c
                < row[k].col - 0 + glyphs(row[k]).len()));
    }
}

// ---- styles -------------------------------------------------------------

/// A cell is drawn as its style says: bold where it is bold, and so on; in the
/// palette's colour that it names by its number, in the colour of three parts that
/// it names, or in none for the default.
pub proof fn cells_keep_their_style(style: ScreenCellStyle, n: u8, r: u8, g: u8, b: u8)
    ensures
        ({
            let ink = cell_ink(style);
            &&& ink.bold == style.bold
            &&& ink.dim == style.dim
            &&& ink.italic == style.italic
            &&& ink.underline == style.underline
            &&& ink.reverse == style.inverse
            &&& style.foreground@ == "default"@ ==> ink.foreground is None
            &&& style.background@ == "default"@ ==> ink.background is None
            &&& style.foreground@ == indexed(n) ==> ink.foreground == Some(Shade::Fixed(n))
            &&& style.background@ == indexed(n) ==> ink.background == Some(Shade::Fixed(n))
            &&& style.foreground@ == of_parts(r, g, b) ==> ink.foreground == Some(
                Shade::Rgb(r, g, b),
            )
            &&& style.background@ == of_parts(r, g, b) ==> ink.background == Some(
                Shade::Rgb(r, g, b),
            )
        }),
{
    indexed_colours_are_read(n);
    coloured_parts_are_read(r, g, b);
}

/// The name of a colour of the palette.
pub open spec fn indexed(n: u8) -> Seq<char> {
    "idx:"@ + decimal(n as nat)
}

/// The name of a colour of three parts.
pub open spec fn of_parts(r: u8, g: u8, b: u8) -> Seq<char> {
    "rgb:"@ + decimal(r as nat) + ":"@ + decimal(g as nat) + ":"@ + decimal(b as nat)
}

proof fn indexed_colours_are_read(n: u8)
    ensures
        cell_shade(indexed(n)) == Some(Shade::Fixed(n)),
{
    reveal_strlit("default");
    reveal_strlit("idx:");
    let name = indexed(n);
    crate::text::decimals_are_read_back(n as nat);
    assert(name[0] == 'i');
    assert("default"@[0] == 'd');
    assert(name.take(4) =~= "idx:"@);
    assert(name.skip(4) =~= decimal(n as nat));
}

#[verifier::rlimit(40)]
proof fn coloured_parts_are_read(r: u8, g: u8, b: u8)
    ensures
        cell_shade(of_parts(r, g, b)) == Some(Shade::Rgb(r, g, b)),
{
    reveal_strlit("default");
    reveal_strlit("idx:");
    reveal_strlit("rgb:");
    reveal_strlit(":");
    let name = of_parts(r, g, b);
    let parts = seq![decimal(r as nat), decimal(g as nat), decimal(b as nat)];
    crate::text::decimals_are_read_back(r as nat);
    crate::text::decimals_are_read_back(g as nat);
    crate::text::decimals_are_read_back(b as nat);
    assert(name[0] == 'r');
    assert("default"@[0] == 'd');
    assert(name.take(4)[0] == 'r');
    assert("idx:"@[0] == 'i');
    assert(name.take(4) =~= "rgb:"@);
    let rest = name.skip(4);
    assert forall|i: int| 0 <= i < parts.len() implies !(#[trigger] parts[i]).contains(':') by {
        assert(crate::text::all_digits(parts[i]));
    }
    crate::text::joined_parts_are_split(parts, ':');
    let joined = crate::text::join(parts, seq![':']);
    assert(parts.drop_last() =~= seq![decimal(r as nat), decimal(g as nat)]);
    assert(parts.drop_last().drop_last() =~= seq![decimal(r as nat)]);
    assert(crate::text::join(parts.drop_last().drop_last(), seq![':']) == decimal(r as nat));
    assert(crate::text::join(parts.drop_last(), seq![':']) == decimal(r as nat) + seq![':']
        + decimal(g as nat));
    assert(rest =~= joined);
}

} // verus!
