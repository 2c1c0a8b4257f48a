//! The pane above the prompt that shows the focused terminal.

pub mod parts;

use crate::ctx::{AdapterTab, CtxModel, ReplCtx, TabModel};
use crate::paint::{
    bold_colour, code_if, dimmed, paint, painted, plain, span_models, Ink, Shade, SpanModel,
};
use crate::screen::{ScreenCell, ScreenSnapshot};
use crate::text::{
    ascii_letter, byte_count, byte_len, byte_len_concat, chars_of, decimal, decimal_text,
    is_ascii_letter, join, joined, same, texts, texts_push,
};
use crate::transport::{Notification, NotificationModel};
use crate::tui::{
    cell_ink, cell_style_to_ansi, cell_text, cells_of, collect_rows, grid, least, no_pieces, piece,
    push_repeated, push_run, repeated, rows_of, runs, Line,
};
use vstd::prelude::*;

verus! {

broadcast use vstd::string::group_string_axioms;

/// The least height of a terminal for which there is a pane.
pub const MIN_TERM_ROWS_FOR_LIVE: u16 = 20;

/// The least width of a terminal for which there is a pane.
pub const MIN_TERM_COLS_FOR_LIVE: u16 = 40;

/// The share of the rows that the pane gets, in percent.
pub const LIVE_PERCENT: u16 = 60;

/// The least height of the pane.
pub const MIN_LIVE_ROWS: u16 = 8;

// ---- layout -------------------------------------------------------------

/// Where things stand in the terminal, by rows from 0 on.
#[derive(Debug, Clone, Copy, PartialEq, Eq)]
pub struct LiveLayout {
    pub cols: u16,
    pub rows: u16,
    /// The row of the tabs.
    pub header_row: u16,
    /// The first row of the pane.
    pub live_top: u16,
    /// The last row of the pane.
    pub live_bottom: u16,
    /// The row of the line below the pane.
    pub divider_row: u16,
    /// The first row of what is typed and printed.
    pub log_top: u16,
    /// Whether there is a pane.
    pub enabled: bool,
}

/// Whether a terminal is too small for a pane.
pub open spec fn too_small(cols: u16, rows: u16) -> bool {
    rows < MIN_TERM_ROWS_FOR_LIVE || cols < MIN_TERM_COLS_FOR_LIVE
}

/// How many rows the pane gets: its share of what is left without three rows,
/// but no fewer than its least height, and two rows are left in any case.
pub open spec fn pane_rows(rows: int) -> int {
    let budget = rows - 3;
    let share = budget * LIVE_PERCENT / 100;
    let wanted = if share < MIN_LIVE_ROWS {
        MIN_LIVE_ROWS as int
    } else {
        share
    };
    least(wanted, budget - 2)
}

/// The layout for a size of terminal.
pub open spec fn layout_of(cols: u16, rows: u16) -> LiveLayout {
    if too_small(cols, rows) {
        LiveLayout {
            cols,
            rows,
            header_row: 0,
            live_top: 0,
            live_bottom: 0,
            divider_row: 0,
            log_top: 0,
            enabled: false,
        }
    } else {
        let n = pane_rows(rows as int);
        LiveLayout {
            cols,
            rows,
            header_row: 0,
            live_top: 1,
            live_bottom: n as u16,
            divider_row: (n + 1) as u16,
            log_top: (n + 2) as u16,
            enabled: true,
        }
    }
}

impl LiveLayout {
    /// Whether the parts stand one below the other inside the terminal.
    pub open spec fn sound(self) -> bool {
        self.enabled ==> self.header_row < self.live_top <= self.live_bottom < self.divider_row
            < self.log_top < self.rows
    }

    /// The height of the pane.
    pub open spec fn height(self) -> int {
        if self.enabled {
            self.live_bottom - self.live_top + 1
        } else {
            0
        }
    }

    /// The layout for a size of terminal.
    pub fn compute(cols: u16, rows: u16) -> (r: Self)
        ensures
            r == layout_of(cols, rows),
            r.sound(),
    {
        if rows < MIN_TERM_ROWS_FOR_LIVE || cols < MIN_TERM_COLS_FOR_LIVE {
            return LiveLayout {
                cols,
                rows,
                header_row: 0,
                live_top: 0,
                live_bottom: 0,
                divider_row: 0,
                log_top: 0,
                enabled: false,
            };
        }
        let budget: u16 = rows - 3;
        let percent: u32 = LIVE_PERCENT as u32;
        assert(budget * percent <= 65535 * 60) by (nonlinear_arith)
            requires
                budget <= 65535,
                percent == 60,
        ;
        let share: u32 = (budget as u32 * percent) / 100;
        let mut live_rows: u16 = share as u16;
        if live_rows < MIN_LIVE_ROWS {
            live_rows = MIN_LIVE_ROWS;
        }
        if live_rows > budget - 2 {
            live_rows = budget - 2;
        }
        let live_top: u16 = 1;
        let live_bottom: u16 = live_top + live_rows - 1;
        let divider_row: u16 = live_bottom + 1;
        let log_top: u16 = divider_row + 1;
        LiveLayout {
            cols,
            rows,
            header_row: 0,
            live_top,
            live_bottom,
            divider_row,
            log_top,
            enabled: true,
        }
    }

    /// The height of the pane.
    pub fn live_rows(self) -> (r: u16)
        requires
            self.sound(),
        ensures
            r == self.height(),
    {
        if self.enabled {
            self.live_bottom - self.live_top + 1
        } else {
            0
        }
    }

    /// The rows that scroll, counted from 1 on.
    pub fn scroll_region_1based(self) -> (r: Option<(u16, u16)>)
        requires
            self.sound(),
        ensures
            match r {
                Some((top, bottom)) => self.enabled && top == self.log_top + 1 && bottom
                    == self.rows,
                None => !self.enabled,
            },
    {
        if !self.enabled {
            return None;
        }
        Some((self.log_top + 1, self.rows))
    }
}

// ---- painting -----------------------------------------------------------

/// Something to do to the terminal.
#[derive(Debug, PartialEq, Eq)]
pub enum PaintOp {
    EnterAlternateScreen,
    LeaveAlternateScreen,
    ClearAll,
    ClearLine,
    MoveTo { col: u16, row: u16 },
    Print(String),
}

pub enum OpModel {
    EnterAlternateScreen,
    LeaveAlternateScreen,
    ClearAll,
    ClearLine,
    MoveTo { col: int, row: int },
    Print(Seq<char>),
}

impl View for PaintOp {
    type V = OpModel;

    open spec fn view(&self) -> OpModel {
        match self {
            PaintOp::EnterAlternateScreen => OpModel::EnterAlternateScreen,
            PaintOp::LeaveAlternateScreen => OpModel::LeaveAlternateScreen,
            PaintOp::ClearAll => OpModel::ClearAll,
            PaintOp::ClearLine => OpModel::ClearLine,
            PaintOp::MoveTo { col, row } => OpModel::MoveTo { col: *col as int, row: *row as int },
            PaintOp::Print(s) => OpModel::Print(s@),
        }
    }
}

pub open spec fn op_models(ops: Seq<PaintOp>) -> Seq<OpModel> {
    ops.map_values(|op: PaintOp| op@)
}

/// The sequence that confines scrolling to some rows.
pub open spec fn scroll_sequence(top: int, bottom: int) -> Seq<char> {
    "\x1b["@ + decimal(top as nat) + ";"@ + decimal(bottom as nat) + "r"@
}

fn scroll_text(top: u16, bottom: u16) -> (r: String)
    ensures
        r@ == scroll_sequence(top as int, bottom as int),
{
    let mut text: String = "\x1b[".to_owned();
    text.push_str(decimal_text(top as u128).as_str());
    text.push_str(";");
    text.push_str(decimal_text(bottom as u128).as_str());
    text.push_str("r");
    text
}

/// Whether the alternate screen is on, and whether scrolling is confined.
#[derive(Debug, Clone, Copy, PartialEq, Eq)]
pub struct AltScreenGuard {
    pub active: bool,
    pub scroll_region_set: bool,
}

/// What switches the alternate screen on.
pub open spec fn enter_ops(layout: LiveLayout) -> Seq<OpModel> {
    let entered = seq![
        OpModel::EnterAlternateScreen,
        OpModel::ClearAll,
        OpModel::MoveTo { col: 0, row: 0 },
    ];
    if layout.enabled {
        entered + seq![
            OpModel::Print(scroll_sequence(layout.log_top + 1, layout.rows as int)),
            OpModel::MoveTo { col: 0, row: layout.log_top as int },
        ]
    } else {
        entered
    }
}

/// What switches the alternate screen off again.
pub open spec fn restore_ops(guard: AltScreenGuard) -> Seq<OpModel> {
    if !guard.active {
        Seq::empty()
    } else if guard.scroll_region_set {
        seq![OpModel::Print("\x1b[r"@), OpModel::LeaveAlternateScreen]
    } else {
        seq![OpModel::LeaveAlternateScreen]
    }
}

impl AltScreenGuard {
    /// Switches the alternate screen on.
    pub fn enter(layout: &LiveLayout) -> (r: (AltScreenGuard, Vec<PaintOp>))
        requires
            layout.sound(),
        ensures
            r.0 == (AltScreenGuard { active: true, scroll_region_set: layout.enabled }),
            op_models(r.1@) == enter_ops(*layout),
    {
        let mut ops: Vec<PaintOp> = vec![
            PaintOp::EnterAlternateScreen,
            PaintOp::ClearAll,
            PaintOp::MoveTo { col: 0, row: 0 },
        ];
        let mut scroll_region_set: bool = false;
        if let Some((top, bottom)) = layout.scroll_region_1based() {
            ops.push(PaintOp::Print(scroll_text(top, bottom)));
            scroll_region_set = true;
        }
        if layout.enabled {
            ops.push(PaintOp::MoveTo { col: 0, row: layout.log_top });
        }
        assert(op_models(ops@) =~= enter_ops(*layout));
        (AltScreenGuard { active: true, scroll_region_set }, ops)
    }

    /// Switches the alternate screen off again, once.
    pub fn restore(&mut self) -> (r: Vec<PaintOp>)
        ensures
            op_models(r@) == restore_ops(*old(self)),
            !final(self).active,
            final(self).scroll_region_set == old(self).scroll_region_set,
    {
        let mut ops: Vec<PaintOp> = Vec::new();
        if self.active {
            if self.scroll_region_set {
                ops.push(PaintOp::Print("\x1b[r".to_owned()));
            }
            ops.push(PaintOp::LeaveAlternateScreen);
            self.active = false;
        }
        assert(op_models(ops@) =~= restore_ops(*old(self)));
        ops
    }
}

// ---- widths -------------------------------------------------------------

/// Where an escape sequence ends whose codes go on at `i`: behind a letter.
pub open spec fn sequence_end(s: Seq<char>, i: int) -> int
    decreases s.len() - i,
{
    if i < 0 || i >= s.len() {
        i
    } else if ascii_letter(s[i]) {
        i + 1
    } else {
        sequence_end(s, i + 1)
    }
}

/// How many bytes a character takes.
pub open spec fn char_bytes(c: char) -> int {
    byte_len(seq![c])
}

/// How many columns a text takes from `i` on, as far as its escape sequences
/// are known. A lone escape swallows one byte of the next character, and each
/// byte that is left of it counts.
pub open spec fn width_from(s: Seq<char>, i: int) -> int
    decreases s.len() - i,
    via width_decreases
{
    if i < 0 || i >= s.len() {
        0
    } else if s[i] == '\x1b' {
        if i + 1 >= s.len() {
            0
        } else if s[i + 1] == '[' {
            width_from(s, sequence_end(s, i + 2))
        } else {
            char_bytes(s[i + 1]) - 1 + width_from(s, i + 2)
        }
    } else {
        1 + width_from(s, i + 1)
    }
}

proof fn sequence_end_bounds(s: Seq<char>, i: int)
    requires
        0 <= i <= s.len(),
    ensures
        i <= sequence_end(s, i) <= s.len(),
    decreases s.len() - i,
{
    if i < s.len() && !ascii_letter(s[i]) {
        sequence_end_bounds(s, i + 1);
    }
}

#[via_fn]
proof fn width_decreases(s: Seq<char>, i: int) {
    if 0 <= i && i + 1 < s.len() {
        sequence_end_bounds(s, i + 2);
    }
}

/// Every character takes between one and four bytes.
proof fn char_bytes_bounds(c: char)
    ensures
        1 <= char_bytes(c) <= 4,
{
    let one = seq![c];
    assert(one.drop_first() =~= Seq::<char>::empty());
    assert(vstd::utf8::encode_utf8(one.drop_first()) =~= Seq::<u8>::empty());
    assert(vstd::utf8::encode_utf8(one) =~= vstd::utf8::encode_scalar(c as u32));
}

/// What is left of a text from a place on takes the bytes of its first
/// character and of the rest.
proof fn byte_len_step(s: Seq<char>, i: int)
    requires
        0 <= i < s.len(),
    ensures
        byte_len(s.skip(i)) == char_bytes(s[i]) + byte_len(s.skip(i + 1)),
{
    byte_len_concat(seq![s[i]], s.skip(i + 1));
    assert(s.skip(i) =~= seq![s[i]] + s.skip(i + 1));
}

proof fn byte_len_shrinks(s: Seq<char>, i: int, j: int)
    requires
        0 <= i <= j <= s.len(),
    ensures
        byte_len(s.skip(j)) <= byte_len(s.skip(i)),
    decreases j - i,
{
    if i < j {
        byte_len_step(s, i);
        char_bytes_bounds(s[i]);
        byte_len_shrinks(s, i + 1, j);
    }
}

/// How many bytes a character takes.
fn count_bytes(c: char) -> (r: usize)
    ensures
        r == char_bytes(c),
{
    let mut text: String = String::new();
    text.push(c);
    assert(text@ =~= seq![c]);
    byte_count(text.as_str())
}

/// How many columns a text takes, as far as its escape sequences are known.
pub fn visible_width(s: &str) -> (r: usize)
    ensures
        r == width_from(s@, 0),
        r <= byte_len(s@),
{
    let chars: Vec<char> = chars_of(s);
    let n: usize = chars.len();
    let room: usize = byte_count(s);
    let mut visible: usize = 0;
    let mut i: usize = 0;
    assert(chars@.skip(0) =~= chars@);
    while i < n
        invariant
            i <= n == chars@.len(),
            chars@ == s@,
            room == byte_len(s@),
            visible + byte_len(chars@.skip(i as int)) <= room,
            visible + width_from(s@, i as int) == width_from(s@, 0),
        decreases n - i,
    {
        proof {
            byte_len_step(chars@, i as int);
            char_bytes_bounds(chars@[i as int]);
        }
        if chars[i] == '\x1b' {
            if n - i < 2 {
                return visible;
            }
            proof {
                byte_len_step(chars@, i + 1);
                char_bytes_bounds(chars@[i + 1]);
            }
            if chars[i + 1] == '[' {
                let mut j: usize = i + 2;
                while j < n && !is_ascii_letter(chars[j])
                    invariant
                        i + 2 <= j <= n == chars@.len(),
                        sequence_end(chars@, i + 2) == sequence_end(chars@, j as int),
                    decreases n - j,
                {
                    j += 1;
                }
                let end: usize = if j < n {
                    j + 1
                } else {
                    j
                };
                proof {
                    byte_len_shrinks(chars@, i + 2, end as int);
                }
                i = end;
            } else {
                visible += count_bytes(chars[i + 1]) - 1;
                i += 2;
            }
        } else {
            visible += 1;
            i += 1;
        }
    }
    visible
}

// ---- the header ---------------------------------------------------------

/// What is shown without tabs.
pub const SPAWN_HINT: &'static str = "no live sessions — try session.spawn(\"agent-shell\")";

/// Dim and italic.
pub open spec fn dim_italic() -> Ink {
    Ink { italic: true, ..dimmed() }
}

fn dim_italic_ink() -> (r: Ink)
    ensures
        r == dim_italic(),
{
    let mut ink: Ink = Ink::dimmed();
    ink.italic = true;
    ink
}

/// A tab in the strip.
pub open spec fn tab_label(tab: TabModel, focused: Option<Seq<char>>) -> Seq<char> {
    painted(
        if focused == Some(tab.id) {
            bold_colour(Shade::Green)
        } else {
            dimmed()
        },
        tab.id + " · "@ + tab.plugin,
    )
}

/// The strip of tabs.
pub open spec fn tab_strip(tabs: Seq<TabModel>, focused: Option<Seq<char>>) -> Seq<char> {
    if tabs.len() == 0 {
        painted(dim_italic(), SPAWN_HINT@)
    } else {
        join(
            tabs.map_values(|t: TabModel| tab_label(t, focused)).push(painted(dimmed(), "+"@)),
            painted(dimmed(), " │ "@),
        )
    }
}

/// What an optional text says.
pub open spec fn opt_str(s: Option<&str>) -> Option<Seq<char>> {
    match s {
        Some(t) => Some(t@),
        None => None,
    }
}

/// The strip of tabs.
pub fn format_tab_strip(tabs: &Vec<AdapterTab>, focused: Option<&str>) -> (r: String)
    ensures
        r@ == tab_strip(crate::ctx::tab_models(tabs@), opt_str(focused)),
{
    if tabs.len() == 0 {
        return paint(dim_italic_ink(), SPAWN_HINT);
    }
    let ghost models = crate::ctx::tab_models(tabs@);
    let ghost labels = models.map_values(|t: TabModel| tab_label(t, opt_str(focused)));
    let mut parts: Vec<String> = Vec::new();
    let mut i: usize = 0;
    assert(texts(parts@) =~= labels.take(0));
    while i < tabs.len()
        invariant
            i <= tabs@.len(),
            models == crate::ctx::tab_models(tabs@),
            labels == models.map_values(|t: TabModel| tab_label(t, opt_str(focused))),
            texts(parts@) == labels.take(i as int),
        decreases tabs@.len() - i,
    {
        let tab: &AdapterTab = &tabs[i];
        let mut label: String = tab.id.clone();
        label.push_str(" · ");
        label.push_str(tab.plugin.as_str());
        let here: bool = match focused {
            Some(id) => same(id, tab.id.as_str()),
            None => false,
        };
        let ink: Ink = if here {
            Ink::bold_colour(Shade::Green)
        } else {
            Ink::dimmed()
        };
        let part: String = paint(ink, label.as_str());
        proof {
            assert(models[i as int] == tab@);
            assert(labels[i as int] == part@);
            assert(labels.take(i + 1) =~= labels.take(i as int).push(part@));
            texts_push(parts@, part);
        }
        parts.push(part);
        i += 1;
    }
    assert(labels.take(i as int) =~= labels);
    let plus: String = paint(Ink::dimmed(), "+");
    proof {
        texts_push(parts@, plus);
    }
    parts.push(plus);
    joined(&parts, paint(Ink::dimmed(), " │ ").as_str())
}

/// What stands at the right of the header: the state of the focused tab, or
/// else its plugin.
pub open spec fn status_of(tabs: Seq<TabModel>, focused: Option<Seq<char>>) -> Seq<char> {
    match focused {
        None => "no focus"@,
        Some(id) => match crate::ctx::tab_index(tabs, id) {
            None => "no focus"@,
            Some(i) => match tabs[i].state_label {
                Some(label) => label,
                None => tabs[i].plugin,
            },
        },
    }
}

/// The header: the tabs at the left, the status at the right.
pub open spec fn header_ops(
    layout: LiveLayout,
    tabs: Seq<TabModel>,
    focused: Option<Seq<char>>,
) -> Seq<OpModel> {
    let left = painted(dimmed(), "ptywright"@) + painted(dimmed(), " · "@) + tab_strip(
        tabs,
        focused,
    );
    let right = painted(dimmed(), status_of(tabs, focused));
    let used = width_from(left, 0) + width_from(right, 0) + 1;
    let padding = if used < layout.cols {
        layout.cols - used
    } else {
        0
    };
    seq![
        OpModel::MoveTo { col: 0, row: layout.header_row as int },
        OpModel::ClearLine,
        OpModel::Print(left),
        OpModel::Print(repeated(' ', padding as nat)),
        OpModel::Print(" "@),
        OpModel::Print(right),
    ]
}

fn status_text(tabs: &Vec<AdapterTab>, focused: Option<&str>) -> (r: String)
    ensures
        r@ == status_of(crate::ctx::tab_models(tabs@), opt_str(focused)),
{
    let id: &str = match focused {
        Some(id) => id,
        None => {
            return "no focus".to_owned();
        },
    };
    let ghost models = crate::ctx::tab_models(tabs@);
    let mut i: usize = 0;
    while i < tabs.len()
        invariant
            i <= tabs@.len(),
            opt_str(focused) == Some(id@),
            models == crate::ctx::tab_models(tabs@),
            forall|j: int| 0 <= j < i ==> (#[trigger] models[j]).id != id@,
        decreases tabs@.len() - i,
    {
        assert(models[i as int] == tabs@[i as int]@);
        if same(tabs[i].id.as_str(), id) {
            proof {
                crate::ctx::tab_index_at(models, id@, i as int);
            }
            return match &tabs[i].state_label {
                Some(label) => label.clone(),
                None => tabs[i].plugin.clone(),
            };
        }
        i += 1;
    }
    proof {
        crate::ctx::tab_index_bounds(models, id@);
    }
    "no focus".to_owned()
}

/// The header.
pub fn paint_header(layout: &LiveLayout, tabs: &Vec<AdapterTab>, focused: Option<&str>) -> (r: Vec<
    PaintOp,
>)
    ensures
        op_models(r@) == header_ops(*layout, crate::ctx::tab_models(tabs@), opt_str(focused)),
{
    let mut left: String = paint(Ink::dimmed(), "ptywright");
    left.push_str(paint(Ink::dimmed(), " · ").as_str());
    left.push_str(format_tab_strip(tabs, focused).as_str());
    let right: String = paint(Ink::dimmed(), status_text(tabs, focused).as_str());
    let left_width: usize = visible_width(left.as_str());
    let right_width: usize = visible_width(right.as_str());
    let cols: usize = layout.cols as usize;
    let padding: usize = if left_width < cols && right_width < cols - left_width && cols
        - left_width - right_width > 1 {
        cols - left_width - right_width - 1
    } else {
        0
    };
    let mut spaces: String = String::new();
    push_repeated(&mut spaces, ' ', padding);
    proof {
        width_is_not_negative(left@, 0);
        width_is_not_negative(right@, 0);
        assert(spaces@ =~= repeated(' ', padding as nat));
    }
    let ops: Vec<PaintOp> = vec![
        PaintOp::MoveTo { col: 0, row: layout.header_row },
        PaintOp::ClearLine,
        PaintOp::Print(left),
        PaintOp::Print(spaces),
        PaintOp::Print(" ".to_owned()),
        PaintOp::Print(right),
    ];
    assert(op_models(ops@) =~= header_ops(
        *layout,
        crate::ctx::tab_models(tabs@),
        opt_str(focused),
    ));
    ops
}

proof fn width_is_not_negative(s: Seq<char>, i: int)
    ensures
        width_from(s, i) >= 0,
    decreases s.len() - i,
{
    if 0 <= i < s.len() {
        if s[i] == '\x1b' {
            if i + 1 < s.len() {
                char_bytes_bounds(s[i + 1]);
                sequence_end_bounds(s, i + 2);
                if s[i + 1] == '[' {
                    width_is_not_negative(s, sequence_end(s, i + 2));
                } else {
                    width_is_not_negative(s, i + 2);
                }
            }
        } else {
            width_is_not_negative(s, i + 1);
        }
    }
}

// ---- the pane -----------------------------------------------------------

/// What is shown without a focused terminal.
pub const FOCUS_HINT: &'static str =
    "no focused session · use session.spawn(\"...\") then :focus <id>";

/// The pieces of a row from the `i`-th cell on, of which `drawn` stand before
/// it: no more than there are columns, and none from beyond the picture's own
/// width.
pub open spec fn pane_pieces(
    row: Seq<ScreenCell>,
    i: int,
    drawn: int,
    cols: int,
    own_cols: int,
) -> Seq<SpanModel>
    decreases row.len() - i,
{
    if i < 0 || i >= row.len() {
        Seq::empty()
    } else if row[i].wide_continuation {
        pane_pieces(row, i + 1, drawn, cols, own_cols)
    } else if drawn >= cols {
        Seq::empty()
    } else if row[i].col >= own_cols {
        pane_pieces(row, i + 1, drawn, cols, own_cols)
    } else {
        seq![piece(cell_text(row[i]), cell_ink(row[i].style))] + pane_pieces(
            row,
            i + 1,
            drawn + 1,
            cols,
            own_cols,
        )
    }
}

/// Pieces as they are printed.
pub open spec fn prints(pieces: Seq<SpanModel>) -> Seq<OpModel> {
    pieces.map_values(|p: SpanModel| OpModel::Print(painted(p.ink, p.text)))
}

/// A row of the pane that starts out empty.
pub open spec fn fresh_row(row: int) -> Seq<OpModel> {
    seq![OpModel::MoveTo { col: 0, row }, OpModel::ClearLine]
}

/// What is done for the `r`-th row of the pane.
pub open spec fn row_ops(snapshot: ScreenSnapshot, layout: LiveLayout, r: int) -> Seq<OpModel> {
    if r < snapshot.size.rows {
        fresh_row(layout.live_top + r) + prints(
            runs(
                pane_pieces(
                    grid(snapshot)[r],
                    0,
                    0,
                    layout.cols as int,
                    snapshot.size.cols as int,
                ),
            ),
        )
    } else {
        fresh_row(layout.live_top + r)
    }
}

/// What is done for the first `n` rows of the pane.
pub open spec fn rows_ops(snapshot: ScreenSnapshot, layout: LiveLayout, n: int) -> Seq<OpModel>
    decreases n,
{
    if n <= 0 {
        Seq::empty()
    } else {
        rows_ops(snapshot, layout, n - 1) + row_ops(snapshot, layout, n - 1)
    }
}

/// The first `n` rows of the pane, empty.
pub open spec fn empty_rows(layout: LiveLayout, n: int) -> Seq<OpModel>
    decreases n,
{
    if n <= 0 {
        Seq::empty()
    } else {
        empty_rows(layout, n - 1) + fresh_row(layout.live_top + n - 1)
    }
}

/// What is done for the pane: the picture, or else a hint in its middle.
pub open spec fn pane_ops(layout: LiveLayout, snapshot: Option<&ScreenSnapshot>) -> Seq<OpModel> {
    let n = layout.height();
    if n == 0 {
        Seq::empty()
    } else {
        match snapshot {
            Some(snapshot) => rows_ops(*snapshot, layout, n),
            None => {
                let hint = painted(dim_italic(), FOCUS_HINT@);
                let room = layout.cols - width_from(hint, 0);
                empty_rows(layout, n) + seq![
                    OpModel::MoveTo {
                        col: if room > 0 {
                            room / 2
                        } else {
                            0
                        },
                        row: layout.live_top + n / 2,
                    },
                    OpModel::Print(hint),
                ]
            },
        }
    }
}

fn push_fresh_row(ops: &mut Vec<PaintOp>, row: u16)
    ensures
        op_models(final(ops)@) == op_models(old(ops)@) + fresh_row(row as int),
{
    let ghost before = ops@;
    ops.push(PaintOp::MoveTo { col: 0, row });
    ops.push(PaintOp::ClearLine);
    assert(op_models(ops@) =~= op_models(before) + fresh_row(row as int));
}

fn pane_runs(row: &Vec<&ScreenCell>, cols: usize, own_cols: usize) -> (r: Line)
    ensures
        span_models(r@) == runs(
            pane_pieces(cells_of(row@), 0, 0, cols as int, own_cols as int),
        ),
{
    let ghost all = cells_of(row@);
    let ghost whole = pane_pieces(all, 0, 0, cols as int, own_cols as int);
    let ghost mut pieces: Seq<SpanModel> = Seq::empty();
    let mut out: Line = no_pieces();
    let mut drawn: usize = 0;
    let mut i: usize = 0;
    assert(pieces + whole =~= whole);
    while i < row.len()
        invariant
            i <= row@.len(),
            drawn <= i,
            all == cells_of(row@),
            span_models(out@) == runs(pieces),
            pieces + pane_pieces(all, i as int, drawn as int, cols as int, own_cols as int)
                == whole,
            whole == pane_pieces(all, 0, 0, cols as int, own_cols as int),
        decreases row@.len() - i,
    {
        let cell: &ScreenCell = row[i];
        assert(all[i as int] == *cell);
        if !cell.wide_continuation {
            if drawn >= cols {
                assert(pieces + Seq::<SpanModel>::empty() =~= pieces);
                return out;
            }
            if (cell.col as usize) < own_cols {
                let text: &str = if cell.text.as_str().is_empty() {
                    " "
                } else {
                    cell.text.as_str()
                };
                let ink: Ink = cell_style_to_ansi(&cell.style);
                push_run(&mut out, text, ink, Ghost(pieces));
                proof {
                    let rest = pane_pieces(
                        all,
                        i + 1,
                        drawn + 1,
                        cols as int,
                        own_cols as int,
                    );
                    assert(pieces.push(piece(text@, ink)) + rest =~= pieces + (seq![
                        piece(text@, ink),
                    ] + rest));
                    pieces = pieces.push(piece(text@, ink));
                }
                drawn += 1;
            }
        }
        i += 1;
    }
    assert(pieces + Seq::<SpanModel>::empty() =~= pieces);
    out
}

fn push_prints(ops: &mut Vec<PaintOp>, line: &Line)
    ensures
        op_models(final(ops)@) == op_models(old(ops)@) + prints(span_models(line@)),
{
    let ghost before = op_models(ops@);
    let ghost all = prints(span_models(line@));
    let mut i: usize = 0;
    assert(before + all.take(0) =~= before);
    while i < line.len()
        invariant
            i <= line@.len(),
            all == prints(span_models(line@)),
            op_models(ops@) == before + all.take(i as int),
        decreases line@.len() - i,
    {
        let text: String = paint(line[i].ink, line[i].text.as_str());
        let ghost held = ops@;
        let op: PaintOp = PaintOp::Print(text);
        proof {
            assert(span_models(line@)[i as int] == line@[i as int]@);
            assert(all[i as int] == op@);
            assert(all.take(i + 1) =~= all.take(i as int).push(op@));
        }
        ops.push(op);
        assert(op_models(ops@) =~= op_models(held).push(op@));
        assert(op_models(ops@) =~= before + all.take(i + 1));
        i += 1;
    }
    assert(all.take(i as int) =~= all);
}

/// The picture of a terminal in the pane.
pub fn render_snapshot_into_region(snapshot: &ScreenSnapshot, layout: &LiveLayout) -> (r: Vec<
    PaintOp,
>)
    requires
        layout.sound(),
    ensures
        op_models(r@) == rows_ops(*snapshot, *layout, layout.height()),
{
    let n: u16 = layout.live_rows();
    let rows: Vec<Vec<&ScreenCell>> = collect_rows(snapshot);
    let ghost all = rows_of(rows@);
    let mut ops: Vec<PaintOp> = Vec::new();
    let mut r: u16 = 0;
    assert(op_models(ops@) =~= rows_ops(*snapshot, *layout, 0));
    while r < n
        invariant
            r <= n == layout.height(),
            layout.sound(),
            all == rows_of(rows@),
            all == grid(*snapshot),
            rows@.len() == snapshot.size.rows,
            op_models(ops@) == rows_ops(*snapshot, *layout, r as int),
        decreases n - r,
    {
        let ghost before = op_models(ops@);
        push_fresh_row(&mut ops, layout.live_top + r);
        if r < snapshot.size.rows {
            let line: Line = pane_runs(
                &rows[r as usize],
                layout.cols as usize,
                snapshot.size.cols as usize,
            );
            assert(all[r as int] == cells_of(rows@[r as int]@));
            push_prints(&mut ops, &line);
        }
        assert(op_models(ops@) =~= before + row_ops(*snapshot, *layout, r as int));
        r += 1;
    }
    ops
}

/// The pane: the picture, or else a hint in its middle.
pub fn paint_snapshot_region(layout: &LiveLayout, snapshot: Option<&ScreenSnapshot>) -> (r: Vec<
    PaintOp,
>)
    requires
        layout.sound(),
    ensures
        op_models(r@) == pane_ops(*layout, snapshot),
{
    let n: u16 = layout.live_rows();
    if n == 0 {
        let none: Vec<PaintOp> = Vec::new();
        assert(op_models(none@) =~= Seq::<OpModel>::empty());
        return none;
    }
    match snapshot {
        Some(snapshot) => render_snapshot_into_region(snapshot, layout),
        None => {
            let mut ops: Vec<PaintOp> = Vec::new();
            let mut r: u16 = 0;
            assert(op_models(ops@) =~= empty_rows(*layout, 0));
            while r < n
                invariant
                    r <= n == layout.height(),
                    layout.sound(),
                    op_models(ops@) == empty_rows(*layout, r as int),
                decreases n - r,
            {
                push_fresh_row(&mut ops, layout.live_top + r);
                r += 1;
            }
            let hint: String = paint(dim_italic_ink(), FOCUS_HINT);
            let width: usize = visible_width(hint.as_str());
            let col: u16 = if width < layout.cols as usize {
                (layout.cols - width as u16) / 2
            } else {
                0
            };
            let ghost before = ops@;
            let ghost words = hint@;
            proof {
                width_is_not_negative(words, 0);
            }
            ops.push(PaintOp::MoveTo { col, row: layout.live_top + n / 2 });
            ops.push(PaintOp::Print(hint));
            assert(op_models(ops@) =~= op_models(before) + seq![
                OpModel::MoveTo { col: col as int, row: layout.live_top + n as int / 2 },
                OpModel::Print(words),
            ]);
            ops
        },
    }
}

/// The line below the pane.
pub open spec fn divider_ops(layout: LiveLayout) -> Seq<OpModel> {
    seq![
        OpModel::MoveTo { col: 0, row: layout.divider_row as int },
        OpModel::ClearLine,
        OpModel::Print(painted(dimmed(), repeated('─', layout.cols as nat))),
    ]
}

/// The line below the pane.
pub fn paint_divider(layout: &LiveLayout) -> (r: Vec<PaintOp>)
    ensures
        op_models(r@) == divider_ops(*layout),
{
    let mut rule: String = String::new();
    push_repeated(&mut rule, '─', layout.cols as usize);
    assert(rule@ =~= repeated('─', layout.cols as nat));
    let ops: Vec<PaintOp> = vec![
        PaintOp::MoveTo { col: 0, row: layout.divider_row },
        PaintOp::ClearLine,
        PaintOp::Print(paint(Ink::dimmed(), rule.as_str())),
    ];
    assert(op_models(ops@) =~= divider_ops(*layout));
    ops
}

/// All that is above what is typed. The cursor is put back where it was.
pub open spec fn top_ops(
    layout: LiveLayout,
    tabs: Seq<TabModel>,
    focused: Option<Seq<char>>,
    snapshot: Option<&ScreenSnapshot>,
) -> Seq<OpModel> {
    if !layout.enabled {
        Seq::empty()
    } else {
        seq![
            OpModel::Print(scroll_sequence(layout.log_top + 1, layout.rows as int)),
            OpModel::Print("\x1b7"@),
        ] + header_ops(layout, tabs, focused) + pane_ops(layout, snapshot) + divider_ops(layout)
            + seq![OpModel::Print("\x1b8"@)]
    }
}

/// All that is above what is typed.
pub fn paint_top_region(
    layout: &LiveLayout,
    tabs: &Vec<AdapterTab>,
    focused: Option<&str>,
    snapshot: Option<&ScreenSnapshot>,
) -> (r: Vec<PaintOp>)
    requires
        layout.sound(),
    ensures
        op_models(r@) == top_ops(
            *layout,
            crate::ctx::tab_models(tabs@),
            opt_str(focused),
            snapshot,
        ),
{
    let mut ops: Vec<PaintOp> = Vec::new();
    if let Some((top, bottom)) = layout.scroll_region_1based() {
        ops.push(PaintOp::Print(scroll_text(top, bottom)));
        ops.push(PaintOp::Print("\x1b7".to_owned()));
        let ghost a = ops@;
        let mut header: Vec<PaintOp> = paint_header(layout, tabs, focused);
        let mut pane: Vec<PaintOp> = paint_snapshot_region(layout, snapshot);
        let mut divider: Vec<PaintOp> = paint_divider(layout);
        let ghost b = header@;
        let ghost c = pane@;
        let ghost d = divider@;
        ops.append(&mut header);
        ops.append(&mut pane);
        ops.append(&mut divider);
        ops.push(PaintOp::Print("\x1b8".to_owned()));
        assert(op_models(ops@) =~= op_models(a) + op_models(b) + op_models(c) + op_models(d)
            + seq![OpModel::Print("\x1b8"@)]);
        assert(op_models(a) =~= seq![
            OpModel::Print(scroll_sequence(layout.log_top + 1, layout.rows as int)),
            OpModel::Print("\x1b7"@),
        ]);
    } else {
        assert(op_models(ops@) =~= Seq::<OpModel>::empty());
    }
    ops
}

// ---- refreshing ---------------------------------------------------------

/// Whether a notification is a reason to draw the pane again: a session
/// changed, there is a focused tab, and the session is its own, as far as
/// that is known.
pub open spec fn wants_refresh(
    notification: NotificationModel,
    ctx: CtxModel,
    session: Option<Seq<char>>,
) -> bool {
    notification.method == "session.changed"@ && (ctx.focus matches Some(id) && ctx.knows(id)) && (
    notification.params.text_field("session"@) matches Some(changed) && (session matches Some(
        own,
    ) ==> changed == own))
}

/// Whether a notification is a reason to draw the pane again.
///
/// `session` is the session of the focused adapter, where it is known.
pub fn handle_change_notification(
    notification: &Notification,
    ctx: &ReplCtx,
    session: Option<&str>,
) -> (r: bool)
    ensures
        r == wants_refresh(notification@, ctx@, opt_str(session)),
{
    if !same(notification.method.as_str(), "session.changed") {
        return false;
    }
    match &ctx.focus {
        None => false,
        Some(id) => ctx.adapter(id.as_str()).is_some() && match (
            notification.params.get_str("session"),
            session,
        ) {
            (Some(changed), Some(own)) => same(changed.as_str(), own),
            (Some(_), None) => true,
            (None, _) => false,
        },
    }
}

// ---- laws ---------------------------------------------------------------

/// Every part of a layout stands inside the terminal, the pane has its share
/// of the rows, which is at least its least height, and at least two rows are
/// left for what is typed.
pub proof fn layouts_fit_the_terminal(cols: u16, rows: u16)
    ensures
        ({
            let layout = layout_of(cols, rows);
            &&& layout.sound()
            &&& layout.enabled == !too_small(cols, rows)
            &&& rows > 0 ==> layout.log_top < rows && layout.live_bottom < rows
            &&& layout.enabled ==> layout.height() == (rows - 3) * LIVE_PERCENT / 100
                && layout.height() >= MIN_LIVE_ROWS && rows - layout.log_top >= 2
        }),
{
}

/// The alternate screen is switched off once, however often that is asked
/// for.
pub proof fn restoring_twice_does_nothing_more(guard: AltScreenGuard)
    ensures
        restore_ops(AltScreenGuard { active: false, ..guard }) == Seq::<OpModel>::empty(),
{
}

/// Painting above what is typed begins by saving the cursor, behind the
/// scroll region, and ends by putting it back.
pub proof fn the_cursor_is_put_back(
    layout: LiveLayout,
    tabs: Seq<TabModel>,
    focused: Option<Seq<char>>,
    snapshot: Option<&ScreenSnapshot>,
)
    requires
        layout.enabled,
    ensures
        ({
            let ops = top_ops(layout, tabs, focused, snapshot);
            &&& ops.len() > 2
            &&& ops[1] == OpModel::Print("\x1b7"@)
            &&& ops.last() == OpModel::Print("\x1b8"@)
        }),
{
}

/// Painted text takes as many columns as it has characters, if none of them
/// is an escape.
pub proof fn paint_takes_no_columns(ink: Ink, text: Seq<char>)
    requires
        !text.contains('\x1b'),
    ensures
        width_from(painted(ink, text), 0) == text.len(),
{
    let s = painted(ink, text);
    reveal_strlit("\x1b[");
    reveal_strlit("m");
    reveal_strlit("\x1b[0m");
    if ink == plain() {
        text_width(s, 0, s.len() as int);
    } else {
        let codes = join(crate::paint::ink_codes(ink), ";"@);
        codes_have_no_letters(ink);
        let a = 2 + codes.len() as int;
        assert(s[0] == '\x1b' && s[1] == '[');
        assert forall|j: int| 2 <= j < a implies !ascii_letter(#[trigger] s[j]) by {
            assert(s[j] == codes[j - 2]);
        }
        assert(s[a] == 'm');
        sequence_end_is(s, 2, a);
        let b = a + 1 + text.len() as int;
        assert forall|j: int| a + 1 <= j < b implies #[trigger] s[j] != '\x1b' by {
            assert(s[j] == text[j - a - 1]);
            assert(text.contains(text[j - a - 1]));
        }
        text_width(s, a + 1, b);
        assert(s.len() == b + 4);
        assert(s[b] == '\x1b' && s[b + 1] == '[' && s[b + 2] == '0' && s[b + 3] == 'm');
        sequence_end_is(s, b + 2, b + 3);
        assert(width_from(s, b + 4) == 0);
        assert(width_from(s, b) == 0);
    }
}

proof fn sequence_end_is(s: Seq<char>, i: int, e: int)
    requires
        0 <= i <= e < s.len(),
        forall|j: int| i <= j < e ==> !ascii_letter(#[trigger] s[j]),
        ascii_letter(s[e]),
    ensures
        sequence_end(s, i) == e + 1,
    decreases e - i,
{
    if i < e {
        assert(!ascii_letter(s[i]));
        sequence_end_is(s, i + 1, e);
    }
}

proof fn text_width(s: Seq<char>, i: int, e: int)
    requires
        0 <= i <= e <= s.len(),
        forall|j: int| i <= j < e ==> #[trigger] s[j] != '\x1b',
    ensures
        width_from(s, i) == e - i + width_from(s, e),
    decreases e - i,
{
    if i < e {
        assert(s[i] != '\x1b');
        text_width(s, i + 1, e);
    }
}

/// A text without letters.
spec fn letterless(s: Seq<char>) -> bool {
    forall|i: int| 0 <= i < s.len() ==> !ascii_letter(#[trigger] s[i])
}

proof fn decimal_letterless(n: nat)
    ensures
        letterless(decimal(n)),
    decreases n,
{
    if n >= 10 {
        decimal_letterless(n / 10);
        let s = decimal(n);
        assert forall|i: int| 0 <= i < s.len() implies !ascii_letter(#[trigger] s[i]) by {
            if i < s.len() - 1 {
                assert(!ascii_letter(decimal(n / 10)[i]));
            }
        }
    }
}

proof fn concat_letterless(a: Seq<char>, b: Seq<char>)
    requires
        letterless(a),
        letterless(b),
    ensures
        letterless(a + b),
{
    let s = a + b;
    assert forall|i: int| 0 <= i < s.len() implies !ascii_letter(#[trigger] s[i]) by {
        if i < a.len() {
            assert(!ascii_letter(a[i]));
        } else {
            assert(!ascii_letter(b[i - a.len()]));
        }
    }
}

proof fn join_letterless(parts: Seq<Seq<char>>)
    requires
        all_letterless(parts),
    ensures
        letterless(join(parts, ";"@)),
    decreases parts.len(),
{
    reveal_strlit(";");
    assert(letterless(";"@));
    if parts.len() > 1 {
        let init = parts.drop_last();
        assert forall|i: int| 0 <= i < init.len() implies letterless(#[trigger] init[i]) by {
            assert(letterless(parts[i]));
        }
        join_letterless(init);
        assert(letterless(parts[parts.len() - 1]));
        concat_letterless(join(init, ";"@), ";"@);
        concat_letterless(join(init, ";"@) + ";"@, parts.last());
    } else if parts.len() == 1 {
        assert(letterless(parts[0]));
    }
}

proof fn shade_letterless(shade: Shade)
    ensures
        letterless(crate::paint::foreground_code(shade)),
        letterless(crate::paint::background_code(shade)),
{
    reveal_strlit("30");
    reveal_strlit("31");
    reveal_strlit("32");
    reveal_strlit("33");
    reveal_strlit("35");
    reveal_strlit("36");
    reveal_strlit("90");
    reveal_strlit("96");
    reveal_strlit("40");
    reveal_strlit("41");
    reveal_strlit("42");
    reveal_strlit("43");
    reveal_strlit("45");
    reveal_strlit("46");
    reveal_strlit("100");
    reveal_strlit("106");
    reveal_strlit("38;5;");
    reveal_strlit("48;5;");
    reveal_strlit("38;2;");
    reveal_strlit("48;2;");
    reveal_strlit(";");
    match shade {
        Shade::Fixed(n) => {
            decimal_letterless(n as nat);
            concat_letterless("38;5;"@, decimal(n as nat));
            concat_letterless("48;5;"@, decimal(n as nat));
        },
        Shade::Rgb(r, g, b) => {
            decimal_letterless(r as nat);
            decimal_letterless(g as nat);
            decimal_letterless(b as nat);
            let a = "38;2;"@ + decimal(r as nat);
            let c = "48;2;"@ + decimal(r as nat);
            concat_letterless("38;2;"@, decimal(r as nat));
            concat_letterless("48;2;"@, decimal(r as nat));
            concat_letterless(a, ";"@);
            concat_letterless(c, ";"@);
            concat_letterless(a + ";"@, decimal(g as nat));
            concat_letterless(c + ";"@, decimal(g as nat));
            concat_letterless(a + ";"@ + decimal(g as nat), ";"@);
            concat_letterless(c + ";"@ + decimal(g as nat), ";"@);
            concat_letterless(a + ";"@ + decimal(g as nat) + ";"@, decimal(b as nat));
            concat_letterless(c + ";"@ + decimal(g as nat) + ";"@, decimal(b as nat));
        },
        _ => {},
    }
}

/// Texts without letters.
spec fn all_letterless(parts: Seq<Seq<char>>) -> bool {
    forall|i: int| 0 <= i < parts.len() ==> letterless(#[trigger] parts[i])
}

proof fn concat_all_letterless(a: Seq<Seq<char>>, b: Seq<Seq<char>>)
    requires
        all_letterless(a),
        all_letterless(b),
    ensures
        all_letterless(a + b),
{
    let parts = a + b;
    assert forall|i: int| 0 <= i < parts.len() implies letterless(#[trigger] parts[i]) by {
        if i < a.len() {
            assert(letterless(a[i]));
        } else {
            assert(letterless(b[i - a.len()]));
        }
    }
}

proof fn codes_have_no_letters(ink: Ink)
    ensures
        letterless(join(crate::paint::ink_codes(ink), ";"@)),
{
    reveal_strlit("1");
    reveal_strlit("2");
    reveal_strlit("3");
    reveal_strlit("4");
    reveal_strlit("7");
    let bold = code_if(ink.bold, "1"@);
    let dim = code_if(ink.dim, "2"@);
    let italic = code_if(ink.italic, "3"@);
    let underline = code_if(ink.underline, "4"@);
    let reverse = code_if(ink.reverse, "7"@);
    let background: Seq<Seq<char>> = match ink.background {
        Some(shade) => seq![crate::paint::background_code(shade)],
        None => Seq::empty(),
    };
    let foreground: Seq<Seq<char>> = match ink.foreground {
        Some(shade) => seq![crate::paint::foreground_code(shade)],
        None => Seq::empty(),
    };
    if ink.background is Some {
        shade_letterless(ink.background->Some_0);
    }
    if ink.foreground is Some {
        shade_letterless(ink.foreground->Some_0);
    }
    concat_all_letterless(bold, dim);
    concat_all_letterless(bold + dim, italic);
    concat_all_letterless(bold + dim + italic, underline);
    concat_all_letterless(bold + dim + italic + underline, reverse);
    concat_all_letterless(bold + dim + italic + underline + reverse, background);
    concat_all_letterless(bold + dim + italic + underline + reverse + background, foreground);
    join_letterless(crate::paint::ink_codes(ink));
}

/// What is typed begins inside the rows that scroll, below all that is
/// painted.
pub proof fn typing_begins_where_it_scrolls(layout: LiveLayout)
    requires
        layout.enabled,
        layout.sound(),
    ensures
        enter_ops(layout).contains(
            OpModel::Print(scroll_sequence(layout.log_top + 1, layout.rows as int)),
        ),
        enter_ops(layout).last() == (OpModel::MoveTo { col: 0, row: layout.log_top as int }),
        layout.divider_row < layout.log_top < layout.rows,
{
    let ops = enter_ops(layout);
    assert(ops[3] == OpModel::Print(scroll_sequence(layout.log_top + 1, layout.rows as int)));
}

} // verus!
