//! What the full-screen client draws.

pub mod parts;

use crate::app::{log_models, App, CompletionModel, CompletionState, LogEntry, LogModel};
use crate::completer::{Suggestion, SuggestionModel};
use crate::ctx::{AdapterTab, CtxModel, ReplCtx, TabModel};
use crate::highlighter::{pieces, scannable, styled, ReplHighlighter};
use crate::input::columns_before;
use crate::lines::{lines, split_lines};
use crate::live::opt_str;
use crate::paint::{
    bold_colour, colour, dimmed, plain, span_models, span_models_push, Ink, Shade, Span, SpanModel,
};
use crate::screen::{ScreenCell, ScreenCellStyle, ScreenSnapshot};
use crate::text::{chars_of, decimal, decimal_text, same, texts};
use crate::tui::{
    cell_ink, cell_shade, cell_style_to_ansi, cell_text, cells_of, collect_rows, greatest, grid,
    least, line_models, line_models_push, no_pieces, one_piece, parse_cell_color, piece,
    push_repeated, repeated, rows_of, Line,
};
use std::collections::VecDeque;
use vstd::prelude::*;

verus! {

broadcast use vstd::string::group_string_axioms;

/// Adds a piece to a line.
fn push_piece(line: &mut Line, text: &str, ink: Ink)
    ensures
        span_models(final(line)@) == span_models(old(line)@).push(piece(text@, ink)),
{
    let span: Span = Span::new(text, ink);
    proof {
        span_models_push(line@, span);
    }
    line.push(span);
}

/// Adds blanks to a line.
fn push_blanks(line: &mut Line, n: usize)
    ensures
        span_models(final(line)@) == span_models(old(line)@).push(
            piece(repeated(' ', n as nat), plain()),
        ),
{
    let mut blanks: String = String::new();
    push_repeated(&mut blanks, ' ', n);
    assert(blanks@ =~= repeated(' ', n as nat));
    push_piece(line, blanks.as_str(), Ink::plain());
}

/// Bold black on a colour.
pub open spec fn marked(shade: Shade) -> Ink {
    Ink { background: Some(shade), ..bold_colour(Shade::Black) }
}

fn marked_ink(shade: Shade) -> (r: Ink)
    ensures
        r == marked(shade),
{
    let mut ink: Ink = Ink::bold_colour(Shade::Black);
    ink.background = Some(shade);
    ink
}

// ---- heights ------------------------------------------------------------

/// How many rows the picture gets: 55 percent of what is left without the
/// tabs, the input and three rows of the log, but no fewer than 8 where
/// there is room for them.
pub open spec fn picture_rows(total: int) -> int {
    let left = if total < 7 {
        0
    } else {
        total - 7
    };
    least(greatest(left * 55 / 100, 8), left)
}

/// How many rows the picture gets.
pub fn snapshot_height(total: u16) -> (r: u16)
    ensures
        r == picture_rows(total as int),
{
    let left: u16 = if total < 7 {
        0
    } else {
        total - 7
    };
    let share: u16 = (left as u32 * 55 / 100) as u16;
    let wanted: u16 = if share < 8 {
        8
    } else {
        share
    };
    if wanted < left {
        wanted
    } else {
        left
    }
}

// ---- the tabs -----------------------------------------------------------

/// What a tab says.
pub open spec fn tab_body(tab: TabModel) -> Seq<char> {
    let head = " "@ + tab.id + " · "@ + tab.plugin;
    match tab.state_label {
        Some(label) => head + " · "@ + label + " "@,
        None => head + " "@,
    }
}

/// The tabs, with rules between them.
pub open spec fn tab_pieces(tabs: Seq<TabModel>, focused: Option<Seq<char>>) -> Seq<SpanModel>
    decreases tabs.len(),
{
    if tabs.len() == 0 {
        Seq::empty()
    } else {
        let tab = tabs.last();
        let before = tab_pieces(tabs.drop_last(), focused);
        let ruled = if tabs.len() > 1 {
            before.push(piece(" │ "@, dimmed()))
        } else {
            before
        };
        ruled.push(
            piece(
                tab_body(tab),
                if focused == Some(tab.id) {
                    marked(Shade::Cyan)
                } else {
                    dimmed()
                },
            ),
        )
    }
}

/// The left side of the strip.
pub open spec fn strip_left(ctx: CtxModel) -> Seq<SpanModel> {
    let body = if ctx.tabs.len() == 0 {
        seq![
            piece(" ptywright · no live sessions — try "@, dimmed()),
            piece("session.spawn(\"agent-shell\")"@, bold_colour(Shade::Cyan)),
        ]
    } else {
        seq![piece(" ptywright "@, marked(Shade::Green)), piece(" "@, plain())] + tab_pieces(
            ctx.tabs,
            ctx.focus,
        )
    };
    body.push(piece(" "@, plain()))
}

/// How many characters the pieces of a line have.
pub open spec fn line_len(line: Seq<SpanModel>) -> int
    decreases line.len(),
{
    if line.len() == 0 {
        0
    } else {
        line_len(line.drop_last()) + line.last().text.len()
    }
}

/// The strip of tabs: the tabs at the left, the transport at the right.
pub open spec fn strip_line(ctx: CtxModel, label: Seq<char>, width: int) -> Seq<SpanModel> {
    let left = strip_left(ctx);
    let right = " "@ + label + " "@;
    let room = width - line_len(left) - right.len();
    let padded = if room > 0 {
        left.push(piece(repeated(' ', room as nat), plain()))
    } else {
        left
    };
    padded.push(piece(right, dimmed()))
}

fn push_tabs(line: &mut Line, tabs: &Vec<AdapterTab>, focused: Option<&str>)
    ensures
        span_models(final(line)@) == span_models(old(line)@) + tab_pieces(
            crate::ctx::tab_models(tabs@),
            opt_str(focused),
        ),
{
    let ghost before = span_models(line@);
    let ghost all = crate::ctx::tab_models(tabs@);
    let ghost focus = opt_str(focused);
    let mut i: usize = 0;
    assert(all.take(0) =~= Seq::<TabModel>::empty());
    assert(before + tab_pieces(all.take(0), focus) =~= before);
    while i < tabs.len()
        invariant
            i <= tabs@.len(),
            all == crate::ctx::tab_models(tabs@),
            focus == opt_str(focused),
            span_models(line@) == before + tab_pieces(all.take(i as int), focus),
        decreases tabs@.len() - i,
    {
        let tab: &AdapterTab = &tabs[i];
        proof {
            assert(all[i as int] == tab@);
            assert(all.take(i + 1).drop_last() =~= all.take(i as int));
            assert(all.take(i + 1).last() == tab@);
        }
        if i > 0 {
            push_piece(line, " │ ", Ink::dimmed());
        }
        let mut body: String = " ".to_owned();
        body.push_str(tab.id.as_str());
        body.push_str(" · ");
        body.push_str(tab.plugin.as_str());
        if let Some(label) = &tab.state_label {
            body.push_str(" · ");
            body.push_str(label.as_str());
        }
        body.push_str(" ");
        let here: bool = match focused {
            Some(id) => same(id, tab.id.as_str()),
            None => false,
        };
        let ink: Ink = if here {
            marked_ink(Shade::Cyan)
        } else {
            Ink::dimmed()
        };
        push_piece(line, body.as_str(), ink);
        assert(span_models(line@) =~= before + tab_pieces(all.take(i + 1), focus));
        i += 1;
    }
    assert(all.take(i as int) =~= all);
}

/// How much room a line leaves.
fn room_beside(line: &Line, width: usize) -> (r: usize)
    ensures
        r == greatest(width - line_len(span_models(line@)), 0),
{
    let ghost all = span_models(line@);
    let mut room: usize = width;
    let mut i: usize = 0;
    assert(all.take(0) =~= Seq::<SpanModel>::empty());
    while i < line.len()
        invariant
            i <= line@.len(),
            all == span_models(line@),
            room == greatest(width - line_len(all.take(i as int)), 0),
        decreases line@.len() - i,
    {
        let n: usize = chars_of(line[i].text.as_str()).len();
        proof {
            assert(all[i as int] == line@[i as int]@);
            assert(all.take(i + 1).drop_last() =~= all.take(i as int));
            assert(all.take(i + 1).last() == all[i as int]);
        }
        if n < room {
            room -= n;
        } else {
            room = 0;
        }
        i += 1;
    }
    assert(all.take(i as int) =~= all);
    room
}

/// The strip of tabs.
pub fn render_tab_strip(ctx: &ReplCtx, label: &str, width: u16) -> (r: Line)
    ensures
        span_models(r@) == strip_line(ctx@, label@, width as int),
{
    let mut line: Line = no_pieces();
    if ctx.adapters.len() == 0 {
        push_piece(&mut line, " ptywright · no live sessions — try ", Ink::dimmed());
        push_piece(
            &mut line,
            "session.spawn(\"agent-shell\")",
            Ink::bold_colour(Shade::Cyan),
        );
    } else {
        push_piece(&mut line, " ptywright ", marked_ink(Shade::Green));
        push_piece(&mut line, " ", Ink::plain());
        let focused: Option<&str> = match &ctx.focus {
            Some(id) => Some(id.as_str()),
            None => None,
        };
        push_tabs(&mut line, &ctx.adapters, focused);
    }
    push_piece(&mut line, " ", Ink::plain());
    assert(span_models(line@) =~= strip_left(ctx@));
    let mut right: String = " ".to_owned();
    right.push_str(label);
    right.push_str(" ");
    let room: usize = room_beside(&line, width as usize);
    let n: usize = chars_of(right.as_str()).len();
    if n < room {
        push_blanks(&mut line, room - n);
    }
    push_piece(&mut line, right.as_str(), Ink::dimmed());
    line
}

// ---- the picture --------------------------------------------------------

/// The title of the picture.
pub open spec fn title_line(focused: Option<(Seq<char>, ScreenSnapshot)>) -> Seq<SpanModel> {
    match focused {
        Some((id, snapshot)) => seq![
            piece(" snapshot "@, dimmed()),
            piece("· "@ + id + " · "@, bold_colour(Shade::Cyan)),
            piece(
                decimal(snapshot.size.cols as nat) + "×"@ + decimal(snapshot.size.rows as nat),
                dimmed(),
            ),
            piece(" · seq "@ + decimal(snapshot.sequence as nat) + " "@, dimmed()),
        ],
        None => seq![piece(" snapshot · (no focus) "@, dimmed())],
    }
}

/// What a picture in focus is.
pub open spec fn focused_model(focused: Option<(&String, &ScreenSnapshot)>) -> Option<
    (Seq<char>, ScreenSnapshot),
> {
    match focused {
        Some((id, snapshot)) => Some((id@, *snapshot)),
        None => None,
    }
}

/// The title of the picture.
pub fn snapshot_title(focused: Option<(&String, &ScreenSnapshot)>) -> (r: Line)
    ensures
        span_models(r@) == title_line(focused_model(focused)),
{
    let mut line: Line = no_pieces();
    match focused {
        Some((id, snapshot)) => {
            push_piece(&mut line, " snapshot ", Ink::dimmed());
            let mut name: String = "· ".to_owned();
            name.push_str(id.as_str());
            name.push_str(" · ");
            push_piece(&mut line, name.as_str(), Ink::bold_colour(Shade::Cyan));
            let mut size: String = decimal_text(snapshot.size.cols as u128);
            size.push_str("×");
            size.push_str(decimal_text(snapshot.size.rows as u128).as_str());
            push_piece(&mut line, size.as_str(), Ink::dimmed());
            let mut sequence: String = " · seq ".to_owned();
            sequence.push_str(decimal_text(snapshot.sequence as u128).as_str());
            sequence.push_str(" ");
            push_piece(&mut line, sequence.as_str(), Ink::dimmed());
        },
        None => {
            push_piece(&mut line, " snapshot · (no focus) ", Ink::dimmed());
        },
    }
    assert(span_models(line@) =~= title_line(focused_model(focused)));
    line
}

/// What is shown where no picture is, without any adapters.
pub const SPAWN_HINT: &'static str =
    "session.spawn(\"agent-shell\")  · spawn an adapter to start a session";

/// What is shown where no picture is, with adapters.
pub const FOCUS_HINT: &'static str = ":focus <adapter>  · pick an adapter to render in this pane";

/// What is shown where no picture is.
pub fn render_snapshot_hint(ctx: &ReplCtx) -> (r: Line)
    ensures
        span_models(r@) == seq![
            piece("  "@, plain()),
            piece(
                if ctx@.tabs.len() == 0 {
                    SPAWN_HINT@
                } else {
                    FOCUS_HINT@
                },
                dimmed(),
            ),
        ],
{
    let mut line: Line = no_pieces();
    push_piece(&mut line, "  ", Ink::plain());
    let hint: &str = if ctx.adapters.len() == 0 {
        SPAWN_HINT
    } else {
        FOCUS_HINT
    };
    push_piece(&mut line, hint, Ink::dimmed());
    line
}

/// How many columns a cell's text takes, in 16 bits.
pub open spec fn text_columns(cell: ScreenCell) -> int {
    greatest(cell.text@.len() as int, 1) % 65536
}

/// Whether the cells that are drawn of a picture end within 16 bits.
pub open spec fn columns_fit(snapshot: ScreenSnapshot) -> bool {
    forall|i: int|
        0 <= i < snapshot.cells@.len() && (#[trigger] snapshot.cells@[i]).row < snapshot.size.rows
            ==> cell_fits(snapshot.cells@[i])
}

/// Whether a cell ends within 16 bits, if it is drawn.
pub open spec fn cell_fits(cell: ScreenCell) -> bool {
    cell.wide_continuation || cell.col + text_columns(cell) <= u16::MAX
}

/// The pieces of a row from the `i`-th cell on, where `col` columns are
/// taken: blanks fill gaps, and the rest of the row.
pub open spec fn row_pieces(
    row: Seq<ScreenCell>,
    i: int,
    col: int,
    cols: int,
    max_cols: int,
) -> Seq<SpanModel>
    decreases row.len() - i,
{
    if i < 0 || i >= row.len() {
        let room = least(cols, max_cols) - col;
        if room > 0 {
            seq![piece(repeated(' ', room as nat), plain())]
        } else {
            Seq::empty()
        }
    } else if row[i].wide_continuation {
        row_pieces(row, i + 1, col, cols, max_cols)
    } else {
        let cell = row[i];
        let gap = if cell.col > col {
            seq![piece(repeated(' ', (cell.col - col) as nat), plain())]
        } else {
            Seq::empty()
        };
        gap.push(piece(cell_text(cell), cell_ink(cell.style))) + row_pieces(
            row,
            i + 1,
            cell.col + text_columns(cell),
            cols,
            max_cols,
        )
    }
}

/// The picture as lines.
pub open spec fn picture_lines(snapshot: ScreenSnapshot, max_cols: int) -> Seq<Seq<SpanModel>> {
    grid(snapshot).map_values(
        |row: Seq<ScreenCell>| row_pieces(row, 0, 0, snapshot.size.cols as int, max_cols),
    )
}

fn picture_row(row: &Vec<&ScreenCell>, cols: u16, max_cols: u16) -> (r: Line)
    requires
        forall|i: int| 0 <= i < row@.len() ==> cell_fits(*#[trigger] row@[i]),
    ensures
        span_models(r@) == row_pieces(cells_of(row@), 0, 0, cols as int, max_cols as int),
{
    let ghost all = cells_of(row@);
    let ghost whole = row_pieces(all, 0, 0, cols as int, max_cols as int);
    let mut line: Line = no_pieces();
    let mut col: u16 = 0;
    let mut i: usize = 0;
    assert(span_models(line@) + whole =~= whole);
    while i < row.len()
        invariant
            i <= row@.len(),
            all == cells_of(row@),
            forall|i: int| 0 <= i < row@.len() ==> cell_fits(*#[trigger] row@[i]),
            span_models(line@) + row_pieces(
                all,
                i as int,
                col as int,
                cols as int,
                max_cols as int,
            ) == whole,
        decreases row@.len() - i,
    {
        let cell: &ScreenCell = row[i];
        assert(all[i as int] == *cell);
        if !cell.wide_continuation {
            let ghost held = span_models(line@);
            if cell.col > col {
                push_blanks(&mut line, (cell.col - col) as usize);
            }
            let text: &str = if cell.text.as_str().is_empty() {
                " "
            } else {
                cell.text.as_str()
            };
            push_piece(&mut line, text, cell_style_to_ansi(&cell.style));
            let n: usize = chars_of(cell.text.as_str()).len();
            let count: usize = if n > 1 {
                n
            } else {
                1
            };
            let end: u16 = cell.col + (count % 65536) as u16;
            proof {
                let rest = row_pieces(all, i + 1, end as int, cols as int, max_cols as int);
                let gap = if cell.col > col {
                    seq![piece(repeated(' ', (cell.col - col) as nat), plain())]
                } else {
                    Seq::empty()
                };
                let here = gap.push(piece(cell_text(*cell), cell_ink(cell.style)));
                assert(cell_fits(*row@[i as int]));
                assert(span_models(line@) =~= held + here);
                assert(held + here + rest =~= held + (here + rest));
            }
            col = end;
        }
        i += 1;
    }
    let ghost held = span_models(line@);
    let edge: u16 = if cols < max_cols {
        cols
    } else {
        max_cols
    };
    if col < edge {
        push_blanks(&mut line, (edge - col) as usize);
        assert(span_models(line@) =~= held + seq![
            piece(repeated(' ', (edge - col) as nat), plain()),
        ]);
    } else {
        assert(held + Seq::<SpanModel>::empty() =~= held);
    }
    line
}

/// Every cell of a row of the picture is one of its cells.
proof fn rows_are_made_of_cells(cells: Seq<ScreenCell>, row: int, i: int)
    requires
        0 <= i < crate::tui::row_cells(cells, row).len(),
    ensures
        cells.contains(crate::tui::row_cells(cells, row)[i]),
        crate::tui::row_cells(cells, row)[i].row == row,
    decreases cells.len(),
{
    if cells.len() > 0 {
        let init = cells.drop_last();
        let cell = cells.last();
        let inner = crate::tui::row_cells(init, row);
        let all = crate::tui::row_cells(cells, row);
        assert(cells[cells.len() - 1] == cell);
        if cell.row == row {
            inserted_cells(inner, cell, i);
            if all[i] != cell {
                let k = choose|k: int| 0 <= k < inner.len() && inner[k] == all[i];
                rows_are_made_of_cells(init, row, k);
                let j = choose|j: int| 0 <= j < init.len() && init[j] == inner[k];
                assert(cells[j] == all[i]);
            }
        } else {
            rows_are_made_of_cells(init, row, i);
            let j = choose|j: int| 0 <= j < init.len() && init[j] == inner[i];
            assert(cells[j] == all[i]);
        }
    }
}

proof fn inserted_cells(row: Seq<ScreenCell>, cell: ScreenCell, i: int)
    requires
        0 <= i < crate::tui::cell_inserted(row, cell).len(),
    ensures
        crate::tui::cell_inserted(row, cell)[i] == cell || exists|k: int|
            0 <= k < row.len() && row[k] == crate::tui::cell_inserted(row, cell)[i],
    decreases row.len(),
{
    let all = crate::tui::cell_inserted(row, cell);
    if row.len() > 0 && row.last().col > cell.col {
        let init = row.drop_last();
        let inner = crate::tui::cell_inserted(init, cell);
        if i < inner.len() {
            inserted_cells(init, cell, i);
            if inner[i] != cell {
                let k = choose|k: int| 0 <= k < init.len() && init[k] == inner[i];
                assert(row[k] == all[i]);
            }
        } else {
            assert(row[row.len() - 1] == all[i]);
        }
    } else if i < row.len() {
        assert(row[i] == all[i]);
    }
}

/// The picture as lines.
pub fn snapshot_to_lines(snapshot: &ScreenSnapshot, max_cols: u16) -> (r: Vec<Line>)
    requires
        columns_fit(*snapshot),
    ensures
        line_models(r@) == picture_lines(*snapshot, max_cols as int),
{
    let rows: Vec<Vec<&ScreenCell>> = collect_rows(snapshot);
    let cols: u16 = snapshot.size.cols;
    let ghost all = grid(*snapshot);
    let ghost wanted = picture_lines(*snapshot, max_cols as int);
    let mut out: Vec<Line> = Vec::new();
    let mut r: usize = 0;
    assert(line_models(out@) =~= wanted.take(0));
    while r < rows.len()
        invariant
            r <= rows@.len(),
            rows_of(rows@) == all,
            all == grid(*snapshot),
            columns_fit(*snapshot),
            cols == snapshot.size.cols,
            rows@.len() == snapshot.size.rows,
            wanted == picture_lines(*snapshot, max_cols as int),
            line_models(out@) == wanted.take(r as int),
        decreases rows@.len() - r,
    {
        proof {
            let row = rows@[r as int]@;
            assert(all[r as int] == cells_of(row));
            assert forall|i: int| 0 <= i < row.len() implies cell_fits(*#[trigger] row[i]) by {
                assert(cells_of(row)[i] == *row[i]);
                rows_are_made_of_cells(snapshot.cells@, r as int, i);
                let j = choose|j: int|
                    0 <= j < snapshot.cells@.len() && snapshot.cells@[j] == *row[i];
                assert(snapshot.cells@[j].row < snapshot.size.rows);
            }
        }
        let line: Line = picture_row(&rows[r], cols, max_cols);
        proof {
            line_models_push(out@, line);
            assert(wanted[r as int] == span_models(line@));
            assert(wanted.take(r + 1) =~= wanted.take(r as int).push(span_models(line@)));
        }
        out.push(line);
        r += 1;
    }
    assert(wanted.take(r as int) =~= wanted);
    out
}

/// Whether the cells that are drawn of a picture end within 16 bits.
pub fn snapshot_fits(snapshot: &ScreenSnapshot) -> (r: bool)
    ensures
        r == columns_fit(*snapshot),
{
    let mut i: usize = 0;
    while i < snapshot.cells.len()
        invariant
            i <= snapshot.cells@.len(),
            forall|j: int|
                0 <= j < i && (#[trigger] snapshot.cells@[j]).row < snapshot.size.rows ==> cell_fits(
                    snapshot.cells@[j],
                ),
        decreases snapshot.cells@.len() - i,
    {
        let cell: &ScreenCell = &snapshot.cells[i];
        let n: usize = chars_of(cell.text.as_str()).len();
        let count: usize = if n > 1 {
            n
        } else {
            1
        };
        let drawn: bool = cell.row < snapshot.size.rows && !cell.wide_continuation;
        if drawn && cell.col as u32 + (count % 65536) as u32 > u16::MAX as u32 {
            assert(!cell_fits(snapshot.cells@[i as int]));
            return false;
        }
        i += 1;
    }
    true
}

/// The style of a cell.
pub fn cell_style(style: &ScreenCellStyle) -> (r: Ink)
    ensures
        r == cell_ink(*style),
{
    cell_style_to_ansi(style)
}

/// The colour that a text names.
pub fn parse_color(value: &str) -> (r: Option<Shade>)
    ensures
        r == cell_shade(value@),
{
    parse_cell_color(value)
}

// ---- the log ------------------------------------------------------------

/// A mark with a text behind it.
pub open spec fn marked_line(mark: Seq<char>, mark_ink: Ink, text: Seq<char>, ink: Ink) -> Seq<
    SpanModel,
> {
    seq![
        piece("  "@, plain()),
        piece(mark, mark_ink),
        piece(" "@, plain()),
        piece(text, ink),
    ]
}

/// The style of a line of help.
pub open spec fn help_ink(line: Seq<char>) -> Ink {
    if line.len() == 0 {
        plain()
    } else if line.last() == ':' {
        colour(Shade::Yellow)
    } else {
        dimmed()
    }
}

/// An entry of the log as lines.
pub open spec fn entry_lines(entry: LogModel, globals: Seq<Seq<char>>) -> Seq<Seq<SpanModel>> {
    match entry {
        LogModel::Input(text) => seq![
            seq![piece("pty> "@, bold_colour(Shade::Green))] + styled(pieces(text, globals)),
        ],
        LogModel::Note(note) => seq![note.line_spans()],
        LogModel::Line(text) => seq![
            marked_line("↳"@, colour(Shade::DarkGray), text, dimmed()),
        ],
        LogModel::Json(text) => seq![marked_line("↳"@, colour(Shade::Cyan), text, dimmed())],
        LogModel::Error(text) => seq![
            marked_line("✗"@, bold_colour(Shade::Red), text, colour(Shade::Red)),
        ],
        LogModel::Notice(text) => seq![
            seq![piece("[notif] "@, dimmed()), piece(text, dimmed())],
        ],
        LogModel::Help(text) => lines(text).map_values(
            |l: Seq<char>| seq![piece(l, help_ink(l))],
        ),
        LogModel::Banner(text) => seq![seq![piece(text, bold_colour(Shade::Cyan))]],
        LogModel::Hint(text) => seq![seq![piece(text, colour(Shade::Yellow))]],
    }
}

/// The log as lines.
pub open spec fn all_lines(log: Seq<LogModel>, globals: Seq<Seq<char>>) -> Seq<Seq<SpanModel>>
    decreases log.len(),
{
    if log.len() == 0 {
        Seq::empty()
    } else {
        all_lines(log.drop_last(), globals) + entry_lines(log.last(), globals)
    }
}

/// Whether an entry can be coloured.
pub open spec fn colourable(entry: LogModel) -> bool {
    entry matches LogModel::Input(text) ==> scannable(text)
}

fn marked_pieces(mark: &str, mark_ink: Ink, text: &str, ink: Ink) -> (r: Line)
    ensures
        span_models(r@) == marked_line(mark@, mark_ink, text@, ink),
{
    let mut line: Line = no_pieces();
    push_piece(&mut line, "  ", Ink::plain());
    push_piece(&mut line, mark, mark_ink);
    push_piece(&mut line, " ", Ink::plain());
    push_piece(&mut line, text, ink);
    assert(span_models(line@) =~= marked_line(mark@, mark_ink, text@, ink));
    line
}

fn help_pieces(text: &str) -> (r: Vec<Line>)
    ensures
        line_models(r@) == lines(text@).map_values(|l: Seq<char>| seq![piece(l, help_ink(l))]),
{
    let found: Vec<String> = split_lines(text);
    let ghost all = texts(found@);
    let ghost wanted = all.map_values(|l: Seq<char>| seq![piece(l, help_ink(l))]);
    let mut out: Vec<Line> = Vec::new();
    let mut i: usize = 0;
    assert(line_models(out@) =~= wanted.take(0));
    while i < found.len()
        invariant
            i <= found@.len(),
            all == texts(found@),
            wanted == all.map_values(|l: Seq<char>| seq![piece(l, help_ink(l))]),
            line_models(out@) == wanted.take(i as int),
        decreases found@.len() - i,
    {
        let chars: Vec<char> = chars_of(found[i].as_str());
        let ink: Ink = if chars.len() == 0 {
            Ink::plain()
        } else if chars[chars.len() - 1] == ':' {
            Ink::colour(Shade::Yellow)
        } else {
            Ink::dimmed()
        };
        let line: Line = one_piece(found[i].as_str(), ink);
        proof {
            line_models_push(out@, line);
            assert(all[i as int] == found@[i as int]@);
            assert(wanted[i as int] =~= span_models(line@));
            assert(wanted.take(i + 1) =~= wanted.take(i as int).push(span_models(line@)));
        }
        out.push(line);
        i += 1;
    }
    assert(wanted.take(i as int) =~= wanted);
    out
}

/// An entry of the log as lines.
pub fn log_entry_lines(entry: &LogEntry, highlighter: &ReplHighlighter) -> (r: Vec<Line>)
    requires
        colourable(entry@),
    ensures
        line_models(r@) == entry_lines(entry@, highlighter.names()),
{
    let line: Line = match entry {
        LogEntry::Input(text) => {
            let mut line: Line = one_piece("pty> ", Ink::bold_colour(Shade::Green));
            let ghost head = line@;
            let mut coloured: Vec<Span> = highlighter.highlight(text.as_str());
            let ghost tail = coloured@;
            line.append(&mut coloured);
            assert(span_models(line@) =~= span_models(head) + span_models(tail));
            line
        },
        LogEntry::Note(note) => note.to_line(),
        LogEntry::Line(text) => marked_pieces(
            "↳",
            Ink::colour(Shade::DarkGray),
            text.as_str(),
            Ink::dimmed(),
        ),
        LogEntry::Json(text) => marked_pieces(
            "↳",
            Ink::colour(Shade::Cyan),
            text.as_str(),
            Ink::dimmed(),
        ),
        LogEntry::Error(text) => marked_pieces(
            "✗",
            Ink::bold_colour(Shade::Red),
            text.as_str(),
            Ink::colour(Shade::Red),
        ),
        LogEntry::Notice(text) => {
            let mut line: Line = one_piece("[notif] ", Ink::dimmed());
            push_piece(&mut line, text.as_str(), Ink::dimmed());
            assert(span_models(line@) =~= seq![
                piece("[notif] "@, dimmed()),
                piece(text@, dimmed()),
            ]);
            line
        },
        LogEntry::Help(text) => {
            return help_pieces(text.as_str());
        },
        LogEntry::Banner(text) => one_piece(text.as_str(), Ink::bold_colour(Shade::Cyan)),
        LogEntry::Hint(text) => one_piece(text.as_str(), Ink::colour(Shade::Yellow)),
    };
    let ghost only = span_models(line@);
    let mut out: Vec<Line> = Vec::new();
    out.push(line);
    assert(line_models(out@) =~= seq![only]);
    out
}

/// The log as lines.
pub fn render_log(log: &VecDeque<LogEntry>, highlighter: &ReplHighlighter) -> (r: Vec<Line>)
    requires
        forall|i: int| 0 <= i < log@.len() ==> colourable((#[trigger] log@[i])@),
    ensures
        line_models(r@) == all_lines(log_models(log@), highlighter.names()),
{
    let ghost all = log_models(log@);
    let ghost names = highlighter.names();
    let mut out: Vec<Line> = Vec::new();
    let mut i: usize = 0;
    assert(all.take(0) =~= Seq::<LogModel>::empty());
    assert(line_models(out@) =~= all_lines(all.take(0), names));
    while i < log.len()
        invariant
            i <= log@.len(),
            all == log_models(log@),
            names == highlighter.names(),
            forall|i: int| 0 <= i < log@.len() ==> colourable((#[trigger] log@[i])@),
            line_models(out@) == all_lines(all.take(i as int), names),
        decreases log@.len() - i,
    {
        proof {
            assert(all[i as int] == log@[i as int]@);
            assert(all.take(i + 1).drop_last() =~= all.take(i as int));
            assert(all.take(i + 1).last() == all[i as int]);
            assert(colourable(log@[i as int]@));
        }
        let mut found: Vec<Line> = log_entry_lines(&log[i], highlighter);
        let ghost held = out@;
        let ghost more = found@;
        out.append(&mut found);
        assert(line_models(out@) =~= line_models(held) + line_models(more));
        i += 1;
    }
    assert(all.take(i as int) =~= all);
    out
}

/// How far the log is scrolled so that its end is seen, in 16 bits.
pub fn log_scroll(lines: usize, height: u16) -> (r: u16)
    ensures
        r == greatest(lines - height, 0) % 65536,
        lines <= height ==> r == 0,
        height < lines < 65536 ==> r + height == lines,
{
    let visible: usize = height as usize;
    if lines > visible {
        ((lines - visible) % 65536) as u16
    } else {
        0
    }
}

// ---- the input ----------------------------------------------------------

/// What is shown in place of an empty line.
pub const INPUT_HINT: &'static str = "type :help or session.spawn(\"agent-shell\")";

/// The line that is being typed, or a hint in its place.
pub fn render_input(value: &str, highlighter: &ReplHighlighter) -> (r: Line)
    requires
        scannable(value@),
    ensures
        span_models(r@) == (if value@.len() == 0 {
            seq![piece(INPUT_HINT@, dimmed())]
        } else {
            styled(pieces(value@, highlighter.names()))
        }),
{
    if value.is_empty() {
        return one_piece(INPUT_HINT, Ink::dimmed());
    }
    highlighter.highlight(value)
}

/// The column of the cursor, if it is shown: it is hidden while completions
/// are on offer for an empty line.
pub fn cursor_column(
    empty: bool,
    completing: bool,
    visual: usize,
    inner_x: u16,
    inner_width: u16,
) -> (r: Option<u16>)
    requires
        inner_x + least(visual as int % 65536, greatest(inner_width - 1, 0)) <= u16::MAX,
    ensures
        match r {
            Some(x) => !(empty && completing) && x == inner_x + least(
                visual as int % 65536,
                greatest(inner_width - 1, 0),
            ),
            None => empty && completing,
        },
        r matches Some(x) ==> inner_x <= x && (inner_width > 0 ==> x < inner_x + inner_width) && (
        visual < inner_width ==> x == inner_x + visual),
{
    if empty && completing {
        return None;
    }
    let at: u16 = (visual % 65536) as u16;
    let last: u16 = if inner_width > 0 {
        inner_width - 1
    } else {
        0
    };
    Some(inner_x + if at < last {
        at
    } else {
        last
    })
}

/// Where the cursor of the typed line stands, in a box that ends within the
/// terminal.
pub fn input_cursor_column(app: &App, inner_x: u16, inner_width: u16) -> (r: Option<u16>)
    requires
        inner_x + inner_width <= u16::MAX,
    ensures
        match r {
            Some(x) => !(app@.text.len() == 0 && app@.completions is Some) && x == inner_x + least(
                columns_before(app@.text, app@.cursor) as int % 65536,
                greatest(inner_width - 1, 0),
            ),
            None => app@.text.len() == 0 && app@.completions is Some,
        },
{
    cursor_column(
        app.input.value().is_empty(),
        app.completions.is_some(),
        app.input.visual_cursor(),
        inner_x,
        inner_width,
    )
}

// ---- completions --------------------------------------------------------

/// A part of the terminal.
#[derive(Debug, Clone, Copy, PartialEq, Eq)]
pub struct Area {
    pub x: u16,
    pub y: u16,
    pub width: u16,
    pub height: u16,
}

/// How many completions are shown at a time.
pub const MAX_POPUP_ROWS: u16 = 8;

/// How many columns a suggestion takes.
pub open spec fn suggestion_width(suggestion: SuggestionModel) -> int {
    match suggestion.description {
        Some(text) => suggestion.value.len() + text.len() as int + 3,
        None => suggestion.value.len() as int,
    }
}

/// How many columns the widest of the suggestions takes.
pub open spec fn widest_suggestion(suggestions: Seq<SuggestionModel>) -> int
    decreases suggestions.len(),
{
    if suggestions.len() == 0 {
        0
    } else {
        greatest(widest_suggestion(suggestions.drop_last()), suggestion_width(suggestions.last()))
    }
}

/// How many columns there are for the suggestions.
pub open spec fn popup_room(suggestions: Seq<SuggestionModel>, input: Area) -> int {
    least(
        if suggestions.len() == 0 {
            20
        } else {
            widest_suggestion(suggestions)
        },
        greatest(input.width - 2, 0),
    )
}

/// How many rows there are for the suggestions.
pub open spec fn popup_rows(suggestions: Seq<SuggestionModel>) -> int {
    least(suggestions.len() as int % 65536, MAX_POPUP_ROWS as int)
}

/// Where the completions are shown: above the input, in a frame.
pub open spec fn popup_area(suggestions: Seq<SuggestionModel>, input: Area) -> Area {
    let rows = popup_rows(suggestions);
    Area {
        x: input.x,
        y: greatest(input.y - (rows + 1), 0) as u16,
        width: least(popup_room(suggestions, input) + 4, input.width as int) as u16,
        height: (rows + 2) as u16,
    }
}

/// The first suggestion that is shown.
pub open spec fn popup_start(state: CompletionModel) -> int {
    greatest(state.index - greatest(popup_rows(state.suggestions) - 1, 0), 0)
}

/// A suggestion as a line.
pub open spec fn suggestion_line(suggestion: SuggestionModel, current: bool) -> Seq<SpanModel> {
    let head = seq![
        piece(
            suggestion.value,
            if current {
                marked(Shade::Cyan)
            } else {
                plain()
            },
        ),
    ];
    match suggestion.description {
        Some(text) => if text.len() > 0 {
            head.push(piece("  "@, plain())).push(piece(text, dimmed()))
        } else {
            head
        },
        None => head,
    }
}

/// How many suggestions are shown.
pub open spec fn popup_shown(state: CompletionModel) -> int {
    greatest(
        least(popup_rows(state.suggestions), state.suggestions.len() - popup_start(state)),
        0,
    )
}

/// The suggestions that are shown, as lines.
pub open spec fn popup_lines(state: CompletionModel) -> Seq<Seq<SpanModel>> {
    let start = popup_start(state);
    Seq::new(
        popup_shown(state) as nat,
        |i: int| suggestion_line(state.suggestions[start + i], start + i == state.index),
    )
}

/// The completions on offer, and where they are shown.
#[derive(Debug)]
pub struct Popup {
    pub area: Area,
    pub lines: Vec<Line>,
}

fn capped_width(suggestion: &Suggestion, cap: usize) -> (r: usize)
    ensures
        r == least(suggestion_width(suggestion@), cap as int),
{
    let value: usize = chars_of(suggestion.value.as_str()).len();
    if value >= cap {
        return cap;
    }
    match &suggestion.description {
        Some(text) => {
            let more: usize = chars_of(text.as_str()).len();
            let room: usize = cap - value;
            if more >= room || room - more <= 3 {
                cap
            } else {
                value + more + 3
            }
        },
        None => value,
    }
}

fn capped_room(suggestions: &Vec<Suggestion>, cap: usize) -> (r: usize)
    ensures
        r == least(
            if suggestions@.len() == 0 {
                20
            } else {
                widest_suggestion(crate::completer::suggestion_models(suggestions@))
            },
            cap as int,
        ),
{
    if suggestions.len() == 0 {
        return if cap > 20 {
            20
        } else {
            cap
        };
    }
    let ghost all = crate::completer::suggestion_models(suggestions@);
    let mut widest: usize = 0;
    let mut i: usize = 0;
    assert(all.take(0) =~= Seq::<SuggestionModel>::empty());
    while i < suggestions.len()
        invariant
            i <= suggestions@.len(),
            all == crate::completer::suggestion_models(suggestions@),
            widest == least(widest_suggestion(all.take(i as int)), cap as int),
        decreases suggestions@.len() - i,
    {
        let width: usize = capped_width(&suggestions[i], cap);
        proof {
            assert(all[i as int] == suggestions@[i as int]@);
            assert(all.take(i + 1).drop_last() =~= all.take(i as int));
            assert(all.take(i + 1).last() == all[i as int]);
        }
        if width > widest {
            widest = width;
        }
        i += 1;
    }
    assert(all.take(i as int) =~= all);
    widest
}

fn suggestion_pieces(suggestion: &Suggestion, current: bool) -> (r: Line)
    ensures
        span_models(r@) == suggestion_line(suggestion@, current),
{
    let ink: Ink = if current {
        marked_ink(Shade::Cyan)
    } else {
        Ink::plain()
    };
    let mut line: Line = one_piece(suggestion.value.as_str(), ink);
    assert(span_models(line@) =~= seq![piece(suggestion.value@, ink)]);
    if let Some(text) = &suggestion.description {
        if !text.as_str().is_empty() {
            push_piece(&mut line, "  ", Ink::plain());
            push_piece(&mut line, text.as_str(), Ink::dimmed());
        }
    }
    line
}

/// Whether the frame of the completions can be worked out in 16 bits.
pub fn popup_fits(state: &CompletionState, input: Area) -> (r: bool)
    ensures
        r == (popup_room(state@.suggestions, input) + 4 <= u16::MAX),
{
    let cap: u16 = if input.width > 2 {
        input.width - 2
    } else {
        0
    };
    capped_room(&state.suggestions, cap as usize) + 4 <= u16::MAX as usize
}

/// The completions on offer, and where they are shown.
pub fn render_completion_popup(state: &CompletionState, input: Area) -> (r: Popup)
    requires
        popup_room(state@.suggestions, input) + 4 <= u16::MAX,
    ensures
        r.area == popup_area(state@.suggestions, input),
        line_models(r.lines@) == popup_lines(state@),
{
    let n: usize = state.suggestions.len();
    let counted: u16 = (n % 65536) as u16;
    let rows: u16 = if counted < MAX_POPUP_ROWS {
        counted
    } else {
        MAX_POPUP_ROWS
    };
    let cap: u16 = if input.width > 2 {
        input.width - 2
    } else {
        0
    };
    let width: u16 = capped_room(&state.suggestions, cap as usize) as u16 + 4;
    let area: Area = Area {
        x: input.x,
        y: if input.y > rows + 1 {
            input.y - (rows + 1)
        } else {
            0
        },
        width: if width < input.width {
            width
        } else {
            input.width
        },
        height: rows + 2,
    };
    let back: usize = if rows > 0 {
        rows as usize - 1
    } else {
        0
    };
    let start: usize = if state.index > back {
        state.index - back
    } else {
        0
    };
    let shown: usize = if start >= n {
        0
    } else if n - start < rows as usize {
        n - start
    } else {
        rows as usize
    };
    let ghost wanted = popup_lines(state@);
    let mut lines: Vec<Line> = Vec::new();
    let mut i: usize = 0;
    assert(line_models(lines@) =~= wanted.take(0));
    while i < shown
        invariant
            i <= shown,
            shown == popup_shown(state@),
            start == popup_start(state@),
            start + shown <= state.suggestions@.len() || shown == 0,
            wanted == popup_lines(state@),
            line_models(lines@) == wanted.take(i as int),
        decreases shown - i,
    {
        let at: usize = start + i;
        let line: Line = suggestion_pieces(&state.suggestions[at], at == state.index);
        proof {
            assert(state@.suggestions[at as int] == state.suggestions@[at as int]@);
            line_models_push(lines@, line);
            assert(wanted[i as int] == span_models(line@));
            assert(wanted.take(i + 1) =~= wanted.take(i as int).push(span_models(line@)));
        }
        lines.push(line);
        i += 1;
    }
    assert(wanted.take(i as int) =~= wanted);
    Popup { area, lines }
}

// ---- laws ---------------------------------------------------------------

/// The picture never takes the rows of the tabs, the input and the least log,
/// and it has at least eight rows where there is room for them.
pub proof fn picture_leaves_room(total: int)
    requires
        0 <= total,
    ensures
        0 <= picture_rows(total) <= greatest(total - 7, 0),
        total >= 15 ==> picture_rows(total) >= 8,
{
}

/// A taller terminal has no smaller picture.
pub proof fn picture_grows_with_the_terminal(total: int, larger: int)
    requires
        0 <= total <= larger,
    ensures
        picture_rows(total) <= picture_rows(larger),
{
}

/// The chosen suggestion is always among those that are shown.
pub proof fn the_chosen_suggestion_is_shown(state: CompletionModel)
    requires
        0 <= state.index < state.suggestions.len() < 65536,
    ensures
        popup_start(state) <= state.index < popup_start(state) + popup_shown(state)
            <= state.suggestions.len(),
        popup_shown(state) <= MAX_POPUP_ROWS,
{
}

/// The log shows its newest entry last: what an entry adds stands behind all
/// that was there.
pub proof fn newest_lines_come_last(log: Seq<LogModel>, entry: LogModel, globals: Seq<Seq<char>>)
    ensures
        all_lines(log.push(entry), globals) == all_lines(log, globals) + entry_lines(
            entry,
            globals,
        ),
{
    assert(log.push(entry).drop_last() =~= log);
}

} // verus!
