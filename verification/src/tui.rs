//! What is printed.

use crate::adopt::{extract_live_ids, live_entries, live_ids};
use crate::json::{json_encoded, models, Json, JsonModel};
use crate::lines::{lines, split_lines};
use crate::paint::{
    bold_colour, colour, dimmed, paint, painted, plain, span_models, span_models_push, Ink, Shade,
    Span, SpanModel,
};
use crate::screen::{ScreenCell, ScreenCellStyle, ScreenSnapshot};
use crate::text::{
    chars_of, decimal, decimal_text, join, joined, parse_u64, same, slice_text, split, split_text,
    strip_prefix, texts, texts_push, trim, trimmed, unsigned_value,
};
use crate::transport::{Notification, NotificationModel};
use vstd::prelude::*;

verus! {

broadcast use vstd::string::group_string_axioms;

// ---- lines --------------------------------------------------------------

/// A line of pieces.
pub type Line = Vec<Span>;

/// What the pieces of each line say.
pub open spec fn line_models(lines: Seq<Line>) -> Seq<Seq<SpanModel>> {
    lines.map_values(|l: Line| span_models(l@))
}

/// A piece.
pub open spec fn piece(text: Seq<char>, ink: Ink) -> SpanModel {
    SpanModel { text, ink }
}

/// The pieces as they are written, one after the other.
pub open spec fn line_written(line: Seq<SpanModel>) -> Seq<char>
    decreases line.len(),
{
    if line.len() == 0 {
        Seq::empty()
    } else {
        line_written(line.drop_last()) + painted(line.last().ink, line.last().text)
    }
}

/// The pieces as they are written, one after the other.
pub fn write_line(line: &Line) -> (r: String)
    ensures
        r@ == line_written(span_models(line@)),
{
    let ghost all = span_models(line@);
    let mut out: String = String::new();
    let mut i: usize = 0;
    assert(out@ =~= line_written(all.take(0)));
    while i < line.len()
        invariant
            i <= line@.len(),
            all == span_models(line@),
            out@ == line_written(all.take(i as int)),
        decreases line@.len() - i,
    {
        out.push_str(paint(line[i].ink, line[i].text.as_str()).as_str());
        proof {
            assert(all.take(i + 1).drop_last() =~= all.take(i as int));
            assert(all.take(i + 1).last() == line@[i as int]@);
        }
        i += 1;
    }
    assert(all.take(i as int) =~= all);
    out
}

pub(crate) fn no_pieces() -> (r: Line)
    ensures
        span_models(r@) == Seq::<SpanModel>::empty(),
{
    let r: Line = Vec::new();
    assert(span_models(r@) =~= Seq::<SpanModel>::empty());
    r
}

pub(crate) fn one_piece(text: &str, ink: Ink) -> (r: Line)
    ensures
        span_models(r@) == seq![piece(text@, ink)],
{
    let r: Line = vec![Span::new(text, ink)];
    assert(span_models(r@) =~= seq![piece(text@, ink)]);
    r
}

fn two_pieces(a: &str, a_ink: Ink, b: &str, b_ink: Ink) -> (r: Line)
    ensures
        span_models(r@) == seq![piece(a@, a_ink), piece(b@, b_ink)],
{
    let r: Line = vec![Span::new(a, a_ink), Span::new(b, b_ink)];
    assert(span_models(r@) =~= seq![piece(a@, a_ink), piece(b@, b_ink)]);
    r
}

pub(crate) proof fn line_models_push(lines: Seq<Line>, line: Line)
    ensures
        line_models(lines.push(line)) == line_models(lines).push(span_models(line@)),
{
    assert(line_models(lines.push(line)) =~= line_models(lines).push(span_models(line@)));
}

// ---- results ------------------------------------------------------------

/// The lines for a text, from its `i`-th line on: the first is marked, and
/// empty ones behind it are left out.
pub open spec fn result_from(parts: Seq<Seq<char>>, i: int) -> Seq<Seq<SpanModel>>
    decreases parts.len() - i,
{
    if i < 0 || i >= parts.len() {
        Seq::empty()
    } else if i == 0 {
        seq![seq![piece("  "@, plain()), piece("↳ "@ + parts[0], dimmed())]] + result_from(
            parts,
            1,
        )
    } else if parts[i].len() > 0 {
        seq![seq![piece("    "@, plain()), piece(parts[i], dimmed())]] + result_from(parts, i + 1)
    } else {
        result_from(parts, i + 1)
    }
}

/// The lines for a text that a command came to.
pub fn line_result(text: &str) -> (r: Vec<Line>)
    ensures
        line_models(r@) == result_from(split(text@, '\n'), 0),
{
    let parts: Vec<String> = split_text(text, '\n');
    let ghost all = texts(parts@);
    let mut out: Vec<Line> = Vec::new();
    let mut i: usize = 0;
    assert(line_models(out@) + result_from(all, 0) =~= result_from(all, 0));
    while i < parts.len()
        invariant
            i <= parts@.len(),
            all == texts(parts@),
            line_models(out@) + result_from(all, i as int) == result_from(all, 0),
        decreases parts@.len() - i,
    {
        let part: &str = parts[i].as_str();
        assert(all[i as int] == part@);
        let ghost before = out@;
        if i == 0 {
            let mut marked: String = "↳ ".to_owned();
            marked.push_str(part);
            let line: Line = two_pieces("  ", Ink::plain(), marked.as_str(), Ink::dimmed());
            proof {
                line_models_push(before, line);
            }
            out.push(line);
        } else if !part.is_empty() {
            let line: Line = two_pieces("    ", Ink::plain(), part, Ink::dimmed());
            proof {
                line_models_push(before, line);
            }
            out.push(line);
        }
        assert(line_models(out@) + result_from(all, i + 1) =~= line_models(before) + result_from(
            all,
            i as int,
        ));
        i += 1;
    }
    assert(line_models(out@) + result_from(all, i as int) =~= line_models(out@));
    out
}

/// How many characters of JSON are shown.
pub const JSON_LIMIT: usize = 240;

/// A text, cut off after `max` characters.
pub open spec fn cut_off(text: Seq<char>, max: int) -> Seq<char> {
    if text.len() > max {
        text.take(max) + "…"@
    } else {
        text
    }
}

/// A text, cut off after `max` characters.
pub fn cut_off_text(text: &str, max: usize) -> (r: String)
    ensures
        r@ == cut_off(text@, max as int),
{
    let chars: Vec<char> = chars_of(text);
    if chars.len() > max {
        let mut out: String = slice_text(&chars, 0, max);
        assert(chars@.subrange(0, max as int) =~= text@.take(max as int));
        out.push_str("…");
        out
    } else {
        text.to_owned()
    }
}

/// The line for an answer of the server.
pub open spec fn json_line(value: JsonModel) -> Seq<SpanModel> {
    seq![
        piece("  "@, plain()),
        piece("↳"@, colour(Shade::Cyan)),
        piece(" "@, plain()),
        piece(cut_off(json_encoded(value), JSON_LIMIT as int), dimmed()),
    ]
}

/// The line for an answer of the server.
pub fn json_result(value: &Json) -> (r: Line)
    ensures
        span_models(r@) == json_line(value@),
{
    let text: String = cut_off_text(value.encode().as_str(), JSON_LIMIT);
    let r: Line = vec![
        Span::new("  ", Ink::plain()),
        Span::new("↳", Ink::colour(Shade::Cyan)),
        Span::new(" ", Ink::plain()),
        Span::new(text.as_str(), Ink::dimmed()),
    ];
    assert(span_models(r@) =~= json_line(value@));
    r
}

/// The line for an error.
pub open spec fn error_line(message: Seq<char>) -> Seq<SpanModel> {
    seq![
        piece("  "@, plain()),
        piece("✗"@, bold_colour(Shade::Red)),
        piece(" "@, plain()),
        piece(message, colour(Shade::Red)),
    ]
}

/// The line for an error.
pub fn error_result(message: &str) -> (r: Line)
    ensures
        span_models(r@) == error_line(message@),
{
    let r: Line = vec![
        Span::new("  ", Ink::plain()),
        Span::new("✗", Ink::bold_colour(Shade::Red)),
        Span::new(" ", Ink::plain()),
        Span::new(message, Ink::colour(Shade::Red)),
    ];
    assert(span_models(r@) =~= error_line(message@));
    r
}

/// A line of a help text: headings stand out.
pub open spec fn section_line(line: Seq<char>) -> Seq<SpanModel> {
    if line.len() == 0 {
        Seq::empty()
    } else if line.last() == ':' {
        seq![piece(line, colour(Shade::Yellow))]
    } else {
        seq![piece(line, dimmed())]
    }
}

/// The lines of a help text.
pub open spec fn section_lines(title: Seq<char>, text: Seq<char>) -> Seq<Seq<SpanModel>> {
    seq![Seq::empty(), seq![piece(title, bold_colour(Shade::Yellow))]] + lines(text).map_values(
        |l: Seq<char>| section_line(l),
    ) + seq![Seq::empty()]
}

fn section_piece(line: &str) -> (r: Line)
    ensures
        span_models(r@) == section_line(line@),
{
    let chars: Vec<char> = chars_of(line);
    let n: usize = chars.len();
    if n == 0 {
        no_pieces()
    } else if chars[n - 1] == ':' {
        one_piece(line, Ink::colour(Shade::Yellow))
    } else {
        one_piece(line, Ink::dimmed())
    }
}

/// The lines of a help text.
pub fn section(title: &str, text: &str) -> (r: Vec<Line>)
    ensures
        line_models(r@) == section_lines(title@, text@),
{
    let found: Vec<String> = split_lines(text);
    let ghost all = texts(found@);
    let ghost head = seq![Seq::empty(), seq![piece(title@, bold_colour(Shade::Yellow))]];
    let mut out: Vec<Line> = Vec::new();
    out.push(no_pieces());
    out.push(one_piece(title, Ink::bold_colour(Shade::Yellow)));
    let mut i: usize = 0;
    assert(line_models(out@) =~= head + all.take(0).map_values(|l: Seq<char>| section_line(l)));
    while i < found.len()
        invariant
            i <= found@.len(),
            all == texts(found@),
            line_models(out@) == head + all.take(i as int).map_values(
                |l: Seq<char>| section_line(l),
            ),
        decreases found@.len() - i,
    {
        let line: Line = section_piece(found[i].as_str());
        proof {
            line_models_push(out@, line);
            assert(all[i as int] == found@[i as int]@);
            assert(all.take(i + 1).map_values(|l: Seq<char>| section_line(l)) =~= all.take(
                i as int,
            ).map_values(|l: Seq<char>| section_line(l)).push(span_models(line@)));
        }
        out.push(line);
        assert(line_models(out@) =~= head + all.take(i + 1).map_values(
            |l: Seq<char>| section_line(l),
        ));
        i += 1;
    }
    let last: Line = no_pieces();
    proof {
        line_models_push(out@, last);
        assert(all.take(i as int) =~= all);
    }
    out.push(last);
    assert(line_models(out@) =~= section_lines(title@, text@));
    out
}

/// The lines that `:help` prints.
pub fn help_lines(text: &str) -> (r: Vec<Line>)
    ensures
        line_models(r@) == section_lines("ptywright repl · help"@, text@),
{
    section("ptywright repl · help", text)
}

/// The lines that `:tips` prints.
pub fn tips_lines(text: &str) -> (r: Vec<Line>)
    ensures
        line_models(r@) == section_lines("ptywright repl · tips"@, text@),
{
    section("ptywright repl · tips", text)
}

// ---- what the server tells ----------------------------------------------

/// The names of the plugins.
pub open spec fn names_of(plugins: Seq<JsonModel>) -> Seq<Seq<char>>
    decreases plugins.len(),
{
    if plugins.len() == 0 {
        Seq::empty()
    } else {
        let before = names_of(plugins.drop_last());
        match plugins.last().text_field("name"@) {
            Some(name) => before.push(name),
            None => before,
        }
    }
}

/// The names of the plugins that an answer lists.
pub fn extract_plugin_names(value: &Json) -> (r: Option<Vec<String>>)
    ensures
        match r {
            Some(names) => value@.items_field("plugins"@) is Some && texts(names@) == names_of(
                value@.items_field("plugins"@)->Some_0,
            ),
            None => value@.items_field("plugins"@) is None,
        },
{
    let plugins: &Vec<Json> = match value.get_array("plugins") {
        Some(plugins) => plugins,
        None => {
            return None;
        },
    };
    let ghost all = models(plugins@);
    let mut out: Vec<String> = Vec::new();
    let mut i: usize = 0;
    assert(texts(out@) =~= names_of(all.take(0)));
    while i < plugins.len()
        invariant
            i <= plugins@.len(),
            all == models(plugins@),
            texts(out@) == names_of(all.take(i as int)),
        decreases plugins@.len() - i,
    {
        proof {
            assert(all.take(i + 1).drop_last() =~= all.take(i as int));
            assert(all.take(i + 1).last() == plugins@[i as int]@);
        }
        if let Some(name) = plugins[i].get_str("name") {
            let name: String = name.clone();
            proof {
                texts_push(out@, name);
            }
            out.push(name);
        }
        i += 1;
    }
    assert(all.take(i as int) =~= all);
    Some(out)
}

/// What is said of the live adapters at the start.
pub open spec fn live_hint(value: JsonModel) -> Option<Seq<char>> {
    let ids = live_ids(live_entries(value));
    if ids.len() == 0 {
        None
    } else {
        Some(
            decimal(ids.len()) + " live adapter(s) on the server: "@ + join(ids, ", "@)
                + " — `:attach all` to load them, or `:attach <id>`"@,
        )
    }
}

/// What is said of the live adapters at the start.
pub fn format_live_hint(value: &Json) -> (r: Option<String>)
    ensures
        crate::ctx::opt_text(r) == live_hint(value@),
{
    let ids: Vec<String> = extract_live_ids(value);
    assert(ids@.len() == texts(ids@).len());
    if ids.len() == 0 {
        return None;
    }
    let mut text: String = decimal_text(ids.len() as u128);
    text.push_str(" live adapter(s) on the server: ");
    text.push_str(joined(&ids, ", ").as_str());
    text.push_str(" — `:attach all` to load them, or `:attach <id>`");
    Some(text)
}

/// The fields that are not worth a line.
pub open spec fn noisy(name: Seq<char>) -> bool {
    name == "output"@ || name == "text"@ || name == "data"@
}

/// The fields without the noisy ones.
pub open spec fn quiet(entries: Seq<(Seq<char>, JsonModel)>) -> JsonModel
    decreases entries.len(),
{
    if entries.len() == 0 {
        crate::json::no_fields()
    } else {
        let before = quiet(entries.drop_last());
        if noisy(entries.last().0) {
            before
        } else {
            before.with(entries.last().0, entries.last().1)
        }
    }
}

/// The parameters of a notification in short.
pub open spec fn compact(params: JsonModel) -> Seq<char> {
    match params {
        JsonModel::Obj(entries) => if quiet(entries) == crate::json::no_fields() {
            Seq::empty()
        } else {
            json_encoded(quiet(entries))
        },
        _ => Seq::empty(),
    }
}

/// The parameters of a notification in short.
pub fn compact_notification_params(params: &Json) -> (r: String)
    ensures
        r@ == compact(params@),
{
    broadcast use crate::json::json_view;

    let mut out: Json = Json::object();
    if let Json::Obj(fields) = params {
        let ghost all = crate::json::entry_models(fields@);
        let n: usize = fields.len();
        let mut i: usize = 0;
        assert(out@ == quiet(all.take(0)));
        while i < n
            invariant
                i <= n == fields@.len(),
                all == crate::json::entry_models(fields@),
                out@ == quiet(all.take(i as int)),
            decreases n - i,
        {
            let name: &String = fields.name_at(i);
            proof {
                assert(all.take(i + 1).drop_last() =~= all.take(i as int));
                assert(all.take(i + 1).last() == (fields@[i as int].0, fields@[i as int].1@));
            }
            let skip: bool = same(name.as_str(), "output") || same(name.as_str(), "text") || same(
                name.as_str(),
                "data",
            );
            if !skip {
                out = out.with(name.as_str(), fields.value_at(i).clone());
            }
            i += 1;
        }
        assert(all.take(i as int) =~= all);
        if out.is_bare() {
            return String::new();
        }
        return out.encode();
    }
    String::new()
}

/// What a notification says, if it is worth a line.
pub open spec fn notice_body(notification: NotificationModel) -> Option<Seq<char>> {
    let params = notification.params;
    let session = match params.text_field("session"@) {
        Some(s) => s,
        None => "?"@,
    };
    let sequence = params.unsigned_field("sequence"@);
    if notification.method == "session.output"@ {
        None
    } else if notification.method == "session.changed"@ {
        Some(
            match sequence {
                Some(seq) => "session.changed "@ + session + " seq="@ + decimal(seq as nat),
                None => "session.changed "@ + session,
            },
        )
    } else if notification.method == "session.exited"@ {
        Some(
            match sequence {
                Some(seq) => "session.exited  "@ + session + " seq="@ + decimal(seq as nat),
                None => "session.exited  "@ + session,
            },
        )
    } else {
        Some(notification.method + " "@ + session + " "@ + compact(params))
    }
}

/// The line for a notification, if it is worth one. What terminals print is
/// not.
pub open spec fn notice_line(notification: NotificationModel) -> Option<Seq<char>> {
    match notice_body(notification) {
        Some(body) => Some(painted(dimmed(), "[notif]"@) + " "@ + painted(dimmed(), body)),
        None => None,
    }
}

/// The line for a notification, if it is worth one.
pub fn format_notification(notification: &Notification) -> (r: Option<String>)
    ensures
        crate::ctx::opt_text(r) == notice_line(notification@),
{
    let session: String = match notification.params.get_str("session") {
        Some(s) => s.clone(),
        None => "?".to_owned(),
    };
    let sequence: Option<u64> = notification.params.get_u64("sequence");
    let method: &str = notification.method.as_str();
    if same(method, "session.output") {
        return None;
    }
    let changed: bool = same(method, "session.changed");
    let exited: bool = same(method, "session.exited");
    let body: String = if changed || exited {
        let mut text: String = if changed {
            "session.changed ".to_owned()
        } else {
            "session.exited  ".to_owned()
        };
        text.push_str(session.as_str());
        if let Some(seq) = sequence {
            text.push_str(" seq=");
            text.push_str(decimal_text(seq as u128).as_str());
        }
        text
    } else {
        let mut text: String = method.to_owned();
        text.push_str(" ");
        text.push_str(session.as_str());
        text.push_str(" ");
        text.push_str(compact_notification_params(&notification.params).as_str());
        text
    };
    let mut line: String = paint(Ink::dimmed(), "[notif]");
    line.push_str(" ");
    line.push_str(paint(Ink::dimmed(), body.as_str()).as_str());
    Some(line)
}

// ---- cells --------------------------------------------------------------

/// The number of a text, if it fits a byte.
pub open spec fn byte_value(s: Seq<char>) -> Option<u8> {
    match unsigned_value(s) {
        Some(n) if n <= u8::MAX => Some(n as u8),
        _ => None,
    }
}

/// What follows a prefix.
pub open spec fn behind(s: Seq<char>, prefix: Seq<char>) -> Option<Seq<char>> {
    if crate::text::begins(s, prefix) {
        Some(s.skip(prefix.len() as int))
    } else {
        None
    }
}

/// The colour that a cell names: one of the palette, or its three parts.
pub open spec fn cell_shade(value: Seq<char>) -> Option<Shade> {
    if value == "default"@ {
        None
    } else {
        match behind(value, "idx:"@) {
            Some(index) if byte_value(index) is Some => Some(
                Shade::Fixed(byte_value(index)->Some_0),
            ),
            _ => match behind(value, "rgb:"@) {
                Some(rgb) => {
                    let parts = split(rgb, ':');
                    if parts.len() == 3 {
                        match (byte_value(parts[0]), byte_value(parts[1]), byte_value(parts[2])) {
                            (Some(r), Some(g), Some(b)) => Some(Shade::Rgb(r, g, b)),
                            _ => None,
                        }
                    } else {
                        None
                    }
                },
                None => None,
            },
        }
    }
}

/// How a cell is drawn.
pub open spec fn cell_ink(style: ScreenCellStyle) -> Ink {
    Ink {
        foreground: cell_shade(style.foreground@),
        background: cell_shade(style.background@),
        bold: style.bold,
        dim: style.dim,
        italic: style.italic,
        underline: style.underline,
        reverse: style.inverse,
    }
}

fn parse_byte(s: &str) -> (r: Option<u8>)
    ensures
        r == byte_value(s@),
{
    match parse_u64(s) {
        Ok(n) => if n <= u8::MAX as u64 {
            Some(n as u8)
        } else {
            None
        },
        Err(_) => None,
    }
}

/// The colour that a cell names.
pub fn parse_cell_color(value: &str) -> (r: Option<Shade>)
    ensures
        r == cell_shade(value@),
{
    if same(value, "default") {
        return None;
    }
    if let Some(index) = strip_prefix(value, "idx:") {
        if let Some(n) = parse_byte(index.as_str()) {
            return Some(Shade::Fixed(n));
        }
    }
    if let Some(rgb) = strip_prefix(value, "rgb:") {
        let parts: Vec<String> = split_text(rgb.as_str(), ':');
        let ghost all = texts(parts@);
        assert(all.len() == parts@.len());
        if parts.len() == 3 {
            assert(all[0] == parts@[0]@ && all[1] == parts@[1]@ && all[2] == parts@[2]@);
            if let (Some(r), Some(g), Some(b)) = (
                parse_byte(parts[0].as_str()),
                parse_byte(parts[1].as_str()),
                parse_byte(parts[2].as_str()),
            ) {
                return Some(Shade::Rgb(r, g, b));
            }
        }
    }
    None
}

/// How a cell is drawn.
pub fn cell_style_to_ansi(style: &ScreenCellStyle) -> (r: Ink)
    ensures
        r == cell_ink(*style),
{
    Ink {
        foreground: parse_cell_color(style.foreground.as_str()),
        background: parse_cell_color(style.background.as_str()),
        bold: style.bold,
        dim: style.dim,
        italic: style.italic,
        underline: style.underline,
        reverse: style.inverse,
    }
}

/// Whether a cell shows nothing.
pub open spec fn blank_cell(cell: ScreenCell) -> bool {
    trim(cell.text@).len() == 0
}

fn is_blank_cell(cell: &ScreenCell) -> (r: bool)
    ensures
        r == blank_cell(*cell),
{
    trimmed(cell.text.as_str()).as_str().is_empty()
}

/// How many columns a cell takes.
pub open spec fn cell_width(cell: ScreenCell) -> int {
    if cell.wide {
        2
    } else {
        1
    }
}

// ---- rows ---------------------------------------------------------------

/// A row with one more cell, which stands behind all that it is not left of.
pub open spec fn cell_inserted(row: Seq<ScreenCell>, cell: ScreenCell) -> Seq<ScreenCell>
    decreases row.len(),
{
    if row.len() > 0 && cell.col < row.last().col {
        cell_inserted(row.drop_last(), cell).push(row.last())
    } else {
        row.push(cell)
    }
}

/// The cells of a row, from left to right; of those in one column, the first
/// goes first.
pub open spec fn row_cells(cells: Seq<ScreenCell>, row: int) -> Seq<ScreenCell>
    decreases cells.len(),
{
    if cells.len() == 0 {
        Seq::empty()
    } else {
        let before = row_cells(cells.drop_last(), row);
        if cells.last().row == row {
            cell_inserted(before, cells.last())
        } else {
            before
        }
    }
}

/// The cells of all rows.
pub open spec fn grid(snapshot: ScreenSnapshot) -> Seq<Seq<ScreenCell>> {
    Seq::new(snapshot.size.rows as nat, |r: int| row_cells(snapshot.cells@, r))
}

/// The cells that are borrowed.
pub open spec fn cells_of(row: Seq<&ScreenCell>) -> Seq<ScreenCell> {
    row.map_values(|c: &ScreenCell| *c)
}

/// The cells of rows that are borrowed.
pub open spec fn rows_of(rows: Seq<Vec<&ScreenCell>>) -> Seq<Seq<ScreenCell>> {
    rows.map_values(|r: Vec<&ScreenCell>| cells_of(r@))
}

proof fn cell_inserted_at(row: Seq<ScreenCell>, cell: ScreenCell, at: int)
    requires
        0 <= at <= row.len(),
        forall|i: int| at <= i < row.len() ==> cell.col < (#[trigger] row[i]).col,
        at > 0 ==> !(cell.col < row[at - 1].col),
    ensures
        cell_inserted(row, cell) == row.insert(at, cell),
    decreases row.len(),
{
    if at < row.len() {
        cell_inserted_at(row.drop_last(), cell, at);
        assert(row.insert(at, cell) =~= row.drop_last().insert(at, cell).push(row.last()));
    } else {
        assert(row.insert(at, cell) =~= row.push(cell));
    }
}

/// The cells of a row, from left to right.
pub fn collect_row<'a>(cells: &'a Vec<ScreenCell>, row: u16) -> (r: Vec<&'a ScreenCell>)
    ensures
        cells_of(r@) == row_cells(cells@, row as int),
{
    let mut out: Vec<&'a ScreenCell> = Vec::new();
    let mut i: usize = 0;
    assert(cells_of(out@) =~= row_cells(cells@.take(0), row as int));
    while i < cells.len()
        invariant
            i <= cells@.len(),
            cells_of(out@) == row_cells(cells@.take(i as int), row as int),
        decreases cells@.len() - i,
    {
        let cell: &'a ScreenCell = &cells[i];
        proof {
            assert(cells@.take(i + 1).drop_last() =~= cells@.take(i as int));
            assert(cells@.take(i + 1).last() == *cell);
        }
        if cell.row == row {
            let mut at: usize = out.len();
            while at > 0 && cell.col < out[at - 1].col
                invariant
                    at <= out@.len(),
                    forall|j: int| at <= j < out@.len() ==> cell.col < (#[trigger] out@[j]).col,
                decreases at,
            {
                at -= 1;
            }
            let ghost before = out@;
            proof {
                assert forall|j: int| at <= j < cells_of(before).len() implies cell.col < (
                #[trigger] cells_of(before)[j]).col by {
                    assert(cells_of(before)[j] == *before[j]);
                }
                cell_inserted_at(cells_of(before), *cell, at as int);
            }
            out.insert(at, cell);
            assert(cells_of(out@) =~= cells_of(before).insert(at as int, *cell));
        }
        i += 1;
    }
    assert(cells@.take(i as int) =~= cells@);
    out
}

/// The cells of all rows.
pub fn collect_rows<'a>(snapshot: &'a ScreenSnapshot) -> (r: Vec<Vec<&'a ScreenCell>>)
    ensures
        rows_of(r@) == grid(*snapshot),
        r@.len() == snapshot.size.rows,
{
    let mut out: Vec<Vec<&'a ScreenCell>> = Vec::new();
    let mut row: u16 = 0;
    while row < snapshot.size.rows
        invariant
            row <= snapshot.size.rows,
            out@.len() == row,
            forall|j: int|
                0 <= j < row ==> cells_of((#[trigger] out@[j])@) == row_cells(
                    snapshot.cells@,
                    j,
                ),
        decreases snapshot.size.rows - row,
    {
        out.push(collect_row(&snapshot.cells, row));
        row += 1;
    }
    assert(rows_of(out@) =~= grid(*snapshot));
    out
}

/// Whether a row shows nothing.
pub open spec fn blank_row(row: Seq<ScreenCell>) -> bool {
    forall|i: int| 0 <= i < row.len() ==> blank_cell(#[trigger] row[i])
}

fn is_blank_row(row: &Vec<&ScreenCell>) -> (r: bool)
    ensures
        r == blank_row(cells_of(row@)),
{
    let ghost all = cells_of(row@);
    let mut i: usize = 0;
    while i < row.len()
        invariant
            i <= row@.len(),
            all == cells_of(row@),
            forall|j: int| 0 <= j < i ==> blank_cell(#[trigger] all[j]),
        decreases row@.len() - i,
    {
        assert(all[i as int] == *row@[i as int]);
        if !is_blank_cell(row[i]) {
            return false;
        }
        i += 1;
    }
    true
}

/// The first row, from the `i`-th on, that shows something.
pub open spec fn first_shown(rows: Seq<Seq<ScreenCell>>, i: int) -> Option<int>
    decreases rows.len() - i,
{
    if i < 0 || i >= rows.len() {
        None
    } else if !blank_row(rows[i]) {
        Some(i)
    } else {
        first_shown(rows, i + 1)
    }
}

/// The last of the first `n` rows that shows something.
pub open spec fn last_shown(rows: Seq<Seq<ScreenCell>>, n: int) -> Option<int>
    decreases n,
{
    if n <= 0 {
        None
    } else if !blank_row(rows[n - 1]) {
        Some(n - 1)
    } else {
        last_shown(rows, n - 1)
    }
}

/// The rows that are shown, and how many blank ones are left out above and
/// below them.
#[derive(Debug, Clone, Copy, PartialEq, Eq, Structural)]
pub struct VisibleRange {
    pub start: usize,
    pub end: usize,
    pub trimmed_top: usize,
    pub trimmed_bottom: usize,
}

pub open spec fn least(a: int, b: int) -> int {
    if a < b {
        a
    } else {
        b
    }
}

pub open spec fn greatest(a: int, b: int) -> int {
    if a > b {
        a
    } else {
        b
    }
}

/// The first and the last row that are shown: all that show something, and
/// the one with the cursor.
pub open spec fn shown_bounds(rows: Seq<Seq<ScreenCell>>, cursor: int) -> (int, int) {
    let cursor = least(cursor, rows.len() - 1);
    match (first_shown(rows, 0), last_shown(rows, rows.len() as int)) {
        (Some(first), Some(last)) => (least(first, cursor), greatest(last, cursor)),
        _ => (cursor, cursor),
    }
}

/// The rows that are shown.
pub open spec fn range_of(rows: Seq<Seq<ScreenCell>>, cursor: int) -> VisibleRange {
    if rows.len() == 0 {
        VisibleRange { start: 0, end: 0, trimmed_top: 0, trimmed_bottom: 0 }
    } else {
        let (start, last) = shown_bounds(rows, cursor);
        VisibleRange {
            start: start as usize,
            end: (last + 1) as usize,
            trimmed_top: start as usize,
            trimmed_bottom: (rows.len() - (last + 1)) as usize,
        }
    }
}

proof fn shown_rows_exist(rows: Seq<Seq<ScreenCell>>, i: int)
    requires
        0 <= i <= rows.len(),
    ensures
        first_shown(rows, i) matches Some(k) ==> i <= k < rows.len() && !blank_row(rows[k]),
        first_shown(rows, i) matches Some(k) ==> forall|j: int|
            i <= j < k ==> blank_row(#[trigger] rows[j]),
        first_shown(rows, i) is None ==> forall|j: int|
            i <= j < rows.len() ==> blank_row(#[trigger] rows[j]),
    decreases rows.len() - i,
{
    if i < rows.len() && blank_row(rows[i]) {
        shown_rows_exist(rows, i + 1);
    }
}

proof fn last_row_exists(rows: Seq<Seq<ScreenCell>>, n: int)
    requires
        0 <= n <= rows.len(),
    ensures
        last_shown(rows, n) matches Some(k) ==> 0 <= k < n && !blank_row(rows[k]),
        last_shown(rows, n) matches Some(k) ==> forall|j: int|
            k < j < n ==> blank_row(#[trigger] rows[j]),
        last_shown(rows, n) is None ==> forall|j: int|
            0 <= j < n ==> blank_row(#[trigger] rows[j]),
    decreases n,
{
    if n > 0 && blank_row(rows[n - 1]) {
        last_row_exists(rows, n - 1);
    }
}

/// The rows that are shown.
pub fn visible_range(rows: &Vec<Vec<&ScreenCell>>, cursor_row: usize) -> (r: VisibleRange)
    ensures
        r == range_of(rows_of(rows@), cursor_row as int),
        r.start <= r.end <= rows@.len(),
{
    let total: usize = rows.len();
    if total == 0 {
        return VisibleRange { start: 0, end: 0, trimmed_top: 0, trimmed_bottom: 0 };
    }
    let ghost all = rows_of(rows@);
    proof {
        shown_rows_exist(all, 0);
        last_row_exists(all, total as int);
    }
    let cursor: usize = if cursor_row < total - 1 {
        cursor_row
    } else {
        total - 1
    };
    let mut first: usize = 0;
    while first < total && is_blank_row(&rows[first])
        invariant
            first <= total == rows@.len(),
            all == rows_of(rows@),
            first_shown(all, 0) == first_shown(all, first as int),
        decreases total - first,
    {
        assert(all[first as int] == cells_of(rows@[first as int]@));
        first += 1;
    }
    if first == total {
        assert(first_shown(all, 0) is None);
        return VisibleRange {
            start: cursor,
            end: cursor + 1,
            trimmed_top: cursor,
            trimmed_bottom: total - (cursor + 1),
        };
    }
    assert(all[first as int] == cells_of(rows@[first as int]@));
    assert(first_shown(all, 0) == Some(first as int));
    let mut n: usize = total;
    while is_blank_row(&rows[n - 1])
        invariant
            first < n <= total == rows@.len(),
            all == rows_of(rows@),
            !blank_row(all[first as int]),
            last_shown(all, total as int) == last_shown(all, n as int),
        decreases n,
    {
        assert(all[n - 1] == cells_of(rows@[n - 1]@));
        n -= 1;
    }
    assert(all[n - 1] == cells_of(rows@[n - 1]@));
    let last: usize = n - 1;
    let start: usize = if first < cursor {
        first
    } else {
        cursor
    };
    let end_inclusive: usize = if last > cursor {
        last
    } else {
        cursor
    };
    VisibleRange {
        start,
        end: end_inclusive + 1,
        trimmed_top: start,
        trimmed_bottom: total - (end_inclusive + 1),
    }
}

/// How many columns the first `n` cells of a row take: up to the last one
/// that shows something.
pub open spec fn width_of(row: Seq<ScreenCell>, n: int) -> int
    decreases n,
{
    if n <= 0 {
        0
    } else {
        let cell = row[n - 1];
        if !cell.wide_continuation && !blank_cell(cell) {
            cell.col + cell_width(cell)
        } else {
            width_of(row, n - 1)
        }
    }
}

/// How many columns a row takes.
pub open spec fn content_width(row: Seq<ScreenCell>) -> int {
    width_of(row, row.len() as int)
}

/// How many columns a row takes.
pub fn row_content_width(row: &Vec<&ScreenCell>) -> (r: usize)
    ensures
        r == content_width(cells_of(row@)),
        r <= 65537,
{
    let ghost all = cells_of(row@);
    let mut n: usize = row.len();
    while n > 0
        invariant
            n <= row@.len(),
            all == cells_of(row@),
            content_width(all) == width_of(all, n as int),
        decreases n,
    {
        let cell: &ScreenCell = row[n - 1];
        assert(all[n - 1] == *cell);
        if !cell.wide_continuation && !is_blank_cell(cell) {
            let width: usize = if cell.wide {
                2
            } else {
                1
            };
            return cell.col as usize + width;
        }
        n -= 1;
    }
    0
}

/// How wide a picture is printed: as wide as what it shows, but not wider
/// than the operator's terminal behind its indent or than the pictured one,
/// and not narrower than 40 columns if the pictured one has them. A terminal
/// of width 0 sets no bound.
pub open spec fn render_width(content: int, term_cols: int, pty_cols: int) -> int {
    let room = if term_cols > 2 {
        term_cols - 2
    } else {
        0
    };
    let fitted = if room > 0 {
        least(content, room)
    } else {
        content
    };
    greatest(least(fitted, pty_cols), least(40, pty_cols))
}

/// How wide a picture is printed.
pub fn effective_render_width(content_width: usize, term_cols: usize, pty_cols: usize) -> (r: usize)
    ensures
        r == render_width(content_width as int, term_cols as int, pty_cols as int),
{
    let room: usize = if term_cols > 2 {
        term_cols - 2
    } else {
        0
    };
    let mut width: usize = content_width;
    if room > 0 && room < width {
        width = room;
    }
    if pty_cols < width {
        width = pty_cols;
    }
    let floor: usize = if 40 < pty_cols {
        40
    } else {
        pty_cols
    };
    if width > floor {
        width
    } else {
        floor
    }
}

/// What is said of the rows that are left out.
pub open spec fn trimmed_note(top: nat, bottom: nat) -> Seq<char> {
    if top == 0 && bottom == 0 {
        Seq::empty()
    } else if bottom == 0 {
        " · "@ + decimal(top) + " blank row(s) hidden above"@
    } else if top == 0 {
        " · "@ + decimal(bottom) + " blank row(s) hidden below"@
    } else {
        " · "@ + decimal(top) + " above / "@ + decimal(bottom) + " below blank row(s) hidden"@
    }
}

/// What is said of the rows that are left out.
pub fn format_trimmed_note(top: usize, bottom: usize) -> (r: String)
    ensures
        r@ == trimmed_note(top as nat, bottom as nat),
{
    if top == 0 && bottom == 0 {
        return String::new();
    }
    let mut text: String = " · ".to_owned();
    if bottom == 0 {
        text.push_str(decimal_text(top as u128).as_str());
        text.push_str(" blank row(s) hidden above");
    } else if top == 0 {
        text.push_str(decimal_text(bottom as u128).as_str());
        text.push_str(" blank row(s) hidden below");
    } else {
        text.push_str(decimal_text(top as u128).as_str());
        text.push_str(" above / ");
        text.push_str(decimal_text(bottom as u128).as_str());
        text.push_str(" below blank row(s) hidden");
    }
    text
}

// ---- a picture of a terminal --------------------------------------------

/// A character `n` times.
pub open spec fn repeated(c: char, n: nat) -> Seq<char> {
    Seq::new(n, |i: int| c)
}

/// A text in the middle of a row of `width` characters.
pub open spec fn centered(text: Seq<char>, width: int, fill: char) -> Seq<char> {
    if text.len() >= width {
        text
    } else {
        let room = (width - text.len()) as nat;
        repeated(fill, room / 2) + text + repeated(fill, (room - room / 2) as nat)
    }
}

pub(crate) fn push_repeated(out: &mut String, c: char, n: usize)
    ensures
        final(out)@ == old(out)@ + repeated(c, n as nat),
{
    let ghost before = out@;
    let mut i: usize = 0;
    assert(before + repeated(c, 0) =~= before);
    while i < n
        invariant
            i <= n,
            out@ == before + repeated(c, i as nat),
        decreases n - i,
    {
        out.push(c);
        assert(before + repeated(c, (i + 1) as nat) =~= (before + repeated(c, i as nat)).push(c));
        i += 1;
    }
}

/// A text in the middle of a row of `width` characters.
pub fn center(text: &str, width: usize, fill: char) -> (r: String)
    ensures
        r@ == centered(text@, width as int, fill),
{
    let chars: Vec<char> = chars_of(text);
    if chars.len() >= width {
        return text.to_owned();
    }
    let room: usize = width - chars.len();
    let left: usize = room / 2;
    let mut out: String = String::new();
    push_repeated(&mut out, fill, left);
    assert(out@ =~= repeated(fill, left as nat));
    out.push_str(text);
    push_repeated(&mut out, fill, room - left);
    out
}

/// The title of a picture.
pub open spec fn preview_title(adapter: Seq<char>, snapshot: ScreenSnapshot) -> Seq<char> {
    " preview · "@ + adapter + " · "@ + decimal(snapshot.size.cols as nat) + "×"@ + decimal(
        snapshot.size.rows as nat,
    ) + " · seq "@ + decimal(snapshot.sequence as nat) + " "@
}

/// The line above a picture.
pub open spec fn preview_header(adapter: Seq<char>, snapshot: ScreenSnapshot, width: int) -> Seq<
    char,
> {
    "─"@ + centered(
        preview_title(adapter, snapshot),
        if width > 2 {
            width - 2
        } else {
            0
        },
        '─',
    ) + "─"@
}

/// The line below a picture.
pub open spec fn preview_footer(snapshot: ScreenSnapshot, range: VisibleRange) -> Seq<char> {
    "─ end · cursor "@ + decimal(snapshot.cursor.row as nat) + ":"@ + decimal(
        snapshot.cursor.col as nat,
    ) + (if snapshot.alternate_screen {
        " · alt-screen"@
    } else {
        ""@
    }) + trimmed_note(range.trimmed_top as nat, range.trimmed_bottom as nat) + " ─"@
}

/// What a cell shows: at least a space.
pub open spec fn cell_text(cell: ScreenCell) -> Seq<char> {
    if cell.text@.len() == 0 {
        " "@
    } else {
        cell.text@
    }
}

/// The pieces of a row from the `i`-th cell on, up to the first that does not
/// fit any more. The second halves of wide characters are passed over.
pub open spec fn cell_pieces(row: Seq<ScreenCell>, i: int, width: int) -> Seq<SpanModel>
    decreases row.len() - i,
{
    if i < 0 || i >= row.len() {
        Seq::empty()
    } else if row[i].wide_continuation {
        cell_pieces(row, i + 1, width)
    } else if row[i].col + cell_width(row[i]) > width {
        Seq::empty()
    } else {
        seq![piece(cell_text(row[i]), cell_ink(row[i].style))] + cell_pieces(row, i + 1, width)
    }
}

/// The pieces, with those of one style put together.
pub open spec fn runs(pieces: Seq<SpanModel>) -> Seq<SpanModel>
    decreases pieces.len(),
{
    if pieces.len() == 0 {
        Seq::empty()
    } else {
        let before = runs(pieces.drop_last());
        let last = pieces.last();
        if before.len() > 0 && before.last().ink == last.ink {
            before.drop_last().push(piece(before.last().text + last.text, last.ink))
        } else {
            before.push(last)
        }
    }
}

/// How many columns of a row are drawn: all of them, or as many as the picture
/// is wide where it is cut off. Where that would fill the operator's terminal,
/// the mark takes the last of them.
pub open spec fn drawn_width(content: int, width: int, term_cols: int) -> int {
    if content <= width {
        content
    } else if width > 0 && width == term_cols - 2 {
        width - 1
    } else {
        width
    }
}

/// A row of a picture: indented, and with a mark if it was cut off.
pub open spec fn preview_row(row: Seq<ScreenCell>, width: int, term_cols: int) -> Seq<SpanModel> {
    let content = content_width(row);
    let drawn = seq![piece("  "@, plain())] + runs(
        cell_pieces(row, 0, drawn_width(content, width, term_cols)),
    );
    if content > width {
        drawn.push(piece("…"@, dimmed()))
    } else {
        drawn
    }
}

/// The widest of the rows.
pub open spec fn widest(rows: Seq<Seq<ScreenCell>>) -> int
    decreases rows.len(),
{
    if rows.len() == 0 {
        0
    } else {
        greatest(widest(rows.drop_last()), content_width(rows.last()))
    }
}

/// The lines of a picture of a terminal.
pub open spec fn preview_lines(adapter: Seq<char>, snapshot: ScreenSnapshot, term_cols: int) -> Seq<
    Seq<SpanModel>,
> {
    let rows = grid(snapshot);
    let range = range_of(rows, snapshot.cursor.row as int);
    let shown = rows.subrange(range.start as int, range.end as int);
    let width = render_width(widest(shown), term_cols, snapshot.size.cols as int);
    seq![
        Seq::empty(),
        seq![piece("  "@, plain()), piece(preview_header(adapter, snapshot, width), dimmed())],
    ] + shown.map_values(|row: Seq<ScreenCell>| preview_row(row, width, term_cols)) + seq![
        seq![piece("  "@, plain()), piece(preview_footer(snapshot, range), dimmed())],
        Seq::empty(),
    ]
}

fn header_text(adapter: &str, snapshot: &ScreenSnapshot, width: usize) -> (r: String)
    ensures
        r@ == preview_header(adapter@, *snapshot, width as int),
{
    let mut title: String = " preview · ".to_owned();
    title.push_str(adapter);
    title.push_str(" · ");
    title.push_str(decimal_text(snapshot.size.cols as u128).as_str());
    title.push_str("×");
    title.push_str(decimal_text(snapshot.size.rows as u128).as_str());
    title.push_str(" · seq ");
    title.push_str(decimal_text(snapshot.sequence as u128).as_str());
    title.push_str(" ");
    let inner: usize = if width > 2 {
        width - 2
    } else {
        0
    };
    let mut header: String = "─".to_owned();
    header.push_str(center(title.as_str(), inner, '─').as_str());
    header.push_str("─");
    header
}

fn footer_text(snapshot: &ScreenSnapshot, range: VisibleRange) -> (r: String)
    ensures
        r@ == preview_footer(*snapshot, range),
{
    let mut footer: String = "─ end · cursor ".to_owned();
    footer.push_str(decimal_text(snapshot.cursor.row as u128).as_str());
    footer.push_str(":");
    footer.push_str(decimal_text(snapshot.cursor.col as u128).as_str());
    if snapshot.alternate_screen {
        footer.push_str(" · alt-screen");
    } else {
        footer.push_str("");
    }
    footer.push_str(format_trimmed_note(range.trimmed_top, range.trimmed_bottom).as_str());
    footer.push_str(" ─");
    footer
}

/// A piece more, put together with the last one if it has the same style.
pub(crate) fn push_run(out: &mut Line, text: &str, ink: Ink, Ghost(pieces): Ghost<Seq<SpanModel>>)
    requires
        span_models(old(out)@) == runs(pieces),
    ensures
        span_models(final(out)@) == runs(pieces.push(piece(text@, ink))),
{
    let ghost before = out@;
    proof {
        assert(pieces.push(piece(text@, ink)).drop_last() =~= pieces);
    }
    let n: usize = out.len();
    if n > 0 && out[n - 1].ink.same(ink) {
        let mut joined_text: String = out[n - 1].text.clone();
        joined_text.push_str(text);
        let merged: Span = Span { text: joined_text, ink };
        out.set(n - 1, merged);
        assert(span_models(out@) =~= span_models(before).drop_last().push(merged@));
        assert(span_models(before).last() == before[n - 1]@);
    } else {
        let made: Span = Span::new(text, ink);
        proof {
            span_models_push(before, made);
            if n > 0 {
                assert(span_models(before).last() == before[n - 1]@);
            }
        }
        out.push(made);
    }
}

/// The pieces of a row, those of one style put together.
fn row_runs(row: &Vec<&ScreenCell>, width: usize) -> (r: Line)
    ensures
        span_models(r@) == runs(cell_pieces(cells_of(row@), 0, width as int)),
{
    let ghost all = cells_of(row@);
    let ghost mut pieces: Seq<SpanModel> = Seq::empty();
    let mut out: Line = no_pieces();
    let mut i: usize = 0;
    assert(pieces + cell_pieces(all, 0, width as int) =~= cell_pieces(all, 0, width as int));
    while i < row.len()
        invariant
            i <= row@.len(),
            all == cells_of(row@),
            span_models(out@) == runs(pieces),
            pieces + cell_pieces(all, i as int, width as int) == cell_pieces(
                all,
                0,
                width as int,
            ),
        decreases row@.len() - i,
    {
        let cell: &ScreenCell = row[i];
        assert(all[i as int] == *cell);
        if !cell.wide_continuation {
            let glyph: usize = if cell.wide {
                2
            } else {
                1
            };
            if cell.col as usize + glyph > width {
                assert(pieces + Seq::<SpanModel>::empty() =~= pieces);
                return out;
            }
            let text: &str = if cell.text.as_str().is_empty() {
                " "
            } else {
                cell.text.as_str()
            };
            let ink: Ink = cell_style_to_ansi(&cell.style);
            push_run(&mut out, text, ink, Ghost(pieces));
            proof {
                let rest = cell_pieces(all, i + 1, width as int);
                assert(pieces.push(piece(text@, ink)) + rest =~= pieces + (seq![
                    piece(text@, ink),
                ] + rest));
                pieces = pieces.push(piece(text@, ink));
            }
        }
        i += 1;
    }
    assert(pieces + Seq::<SpanModel>::empty() =~= pieces);
    out
}

fn row_line(row: &Vec<&ScreenCell>, width: usize, term_cols: usize) -> (r: Line)
    ensures
        span_models(r@) == preview_row(cells_of(row@), width as int, term_cols as int),
{
    let content: usize = row_content_width(row);
    let drawn: usize = if content <= width {
        content
    } else if width > 0 && term_cols >= 2 && width == term_cols - 2 {
        width - 1
    } else {
        width
    };
    let mut out: Line = one_piece("  ", Ink::plain());
    let mut pieces: Line = row_runs(row, drawn);
    let ghost a = out@;
    let ghost b = pieces@;
    out.append(&mut pieces);
    assert(span_models(out@) =~= span_models(a) + span_models(b));
    if content > width {
        let mark: Span = Span::new("…", Ink::dimmed());
        proof {
            span_models_push(out@, mark);
        }
        out.push(mark);
    }
    out
}

fn widest_row(rows: &Vec<Vec<&ScreenCell>>, start: usize, end: usize) -> (r: usize)
    requires
        start <= end <= rows@.len(),
    ensures
        r == widest(rows_of(rows@).subrange(start as int, end as int)),
        r <= 65537,
{
    let ghost all = rows_of(rows@);
    let mut width: usize = 0;
    let mut i: usize = start;
    while i < end
        invariant
            start <= i <= end <= rows@.len(),
            all == rows_of(rows@),
            width == widest(all.subrange(start as int, i as int)),
            width <= 65537,
        decreases end - i,
    {
        let content: usize = row_content_width(&rows[i]);
        proof {
            let more = all.subrange(start as int, i + 1);
            assert(more.drop_last() =~= all.subrange(start as int, i as int));
            assert(more.last() == cells_of(rows@[i as int]@));
        }
        if content > width {
            width = content;
        }
        i += 1;
    }
    width
}

/// The lines of a picture of a terminal. A terminal width of 0 says that it
/// is not known.
pub fn print_screen(adapter: &str, snapshot: &ScreenSnapshot, term_cols: usize) -> (r: Vec<Line>)
    ensures
        line_models(r@) == preview_lines(adapter@, *snapshot, term_cols as int),
{
    let rows: Vec<Vec<&ScreenCell>> = collect_rows(snapshot);
    let ghost all = rows_of(rows@);
    let range: VisibleRange = visible_range(&rows, snapshot.cursor.row as usize);
    let content: usize = widest_row(&rows, range.start, range.end);
    let width: usize = effective_render_width(content, term_cols, snapshot.size.cols as usize);
    let ghost shown = all.subrange(range.start as int, range.end as int);
    let ghost drawn = shown.map_values(
        |row: Seq<ScreenCell>| preview_row(row, width as int, term_cols as int),
    );
    let ghost head = seq![
        Seq::empty(),
        seq![
            piece("  "@, plain()),
            piece(preview_header(adapter@, *snapshot, width as int), dimmed()),
        ],
    ];
    let header: String = header_text(adapter, snapshot, width);
    let mut out: Vec<Line> = Vec::new();
    out.push(no_pieces());
    out.push(two_pieces("  ", Ink::plain(), header.as_str(), Ink::dimmed()));
    let mut i: usize = range.start;
    assert(line_models(out@) =~= head + drawn.take(0));
    while i < range.end
        invariant
            range.start <= i <= range.end <= rows@.len(),
            all == rows_of(rows@),
            shown == all.subrange(range.start as int, range.end as int),
            drawn == shown.map_values(
                |row: Seq<ScreenCell>| preview_row(row, width as int, term_cols as int),
            ),
            line_models(out@) == head + drawn.take(i - range.start),
        decreases range.end - i,
    {
        let line: Line = row_line(&rows[i], width, term_cols);
        proof {
            let k = i - range.start;
            line_models_push(out@, line);
            assert(shown[k] == cells_of(rows@[i as int]@));
            assert(drawn[k] == span_models(line@));
            assert(drawn.take(k + 1) =~= drawn.take(k).push(drawn[k]));
        }
        out.push(line);
        assert(line_models(out@) =~= head + drawn.take(i + 1 - range.start));
        i += 1;
    }
    assert(drawn.take(i - range.start) =~= drawn);
    let footer: String = footer_text(snapshot, range);
    let last: Line = two_pieces("  ", Ink::plain(), footer.as_str(), Ink::dimmed());
    let end: Line = no_pieces();
    proof {
        line_models_push(out@, last);
        line_models_push(out@.push(last), end);
    }
    out.push(last);
    out.push(end);
    assert(line_models(out@) =~= preview_lines(adapter@, *snapshot, term_cols as int));
    out
}

// ---- input --------------------------------------------------------------

/// What a line that was entered is.
#[derive(Debug, PartialEq, Eq)]
pub enum Entered {
    /// Nothing.
    Nothing,
    /// A meta command, without its colon.
    Meta(String),
    /// A line of Lua.
    Lua(String),
}

/// What a line that was entered is.
pub fn read_entered(line: &str) -> (r: Entered)
    ensures
        ({
            let text = trim(line@);
            match r {
                Entered::Nothing => text.len() == 0,
                Entered::Meta(rest) => text.len() > 0 && text[0] == ':' && rest@
                    == text.drop_first(),
                Entered::Lua(code) => text.len() > 0 && text[0] != ':' && code@ == text,
            }
        }),
{
    let text: String = trimmed(line);
    let chars: Vec<char> = chars_of(text.as_str());
    let n: usize = chars.len();
    if n == 0 {
        return Entered::Nothing;
    }
    if chars[0] == ':' {
        assert(chars@.subrange(1, n as int) =~= text@.drop_first());
        return Entered::Meta(slice_text(&chars, 1, n));
    }
    Entered::Lua(text)
}

// ---- laws ---------------------------------------------------------------

/// The row of the cursor is always shown, where there are rows.
pub proof fn cursor_row_is_shown(rows: Seq<Seq<ScreenCell>>, cursor: int)
    requires
        0 <= cursor < rows.len() <= usize::MAX,
    ensures
        range_of(rows, cursor).start <= cursor < range_of(rows, cursor).end <= rows.len(),
{
    shown_rows_exist(rows, 0);
    last_row_exists(rows, rows.len() as int);
}

/// Only blank rows are left out, and each row is shown or counted.
pub proof fn only_blank_rows_are_left_out(rows: Seq<Seq<ScreenCell>>, cursor: int, k: int)
    requires
        0 <= cursor,
        0 <= k < rows.len() <= usize::MAX,
        k < range_of(rows, cursor).start || range_of(rows, cursor).end <= k,
    ensures
        blank_row(rows[k]),
        range_of(rows, cursor).trimmed_top + (range_of(rows, cursor).end - range_of(
            rows,
            cursor,
        ).start) + range_of(rows, cursor).trimmed_bottom == rows.len(),
{
    shown_rows_exist(rows, 0);
    last_row_exists(rows, rows.len() as int);
    let first = first_shown(rows, 0);
    let last = last_shown(rows, rows.len() as int);
    if first is Some {
        assert(blank_row(rows[k]) || first->Some_0 <= k <= last->Some_0) by {
            if k < first->Some_0 {
                assert(blank_row(rows[k]));
            }
            if k > last->Some_0 {
                assert(blank_row(rows[k]));
            }
        }
    }
}

/// A picture is never printed wider than the pictured terminal, nor, if that
/// has at least 40 columns, narrower than 40.
pub proof fn render_width_is_bounded(content: int, term_cols: int, pty_cols: int)
    requires
        0 <= content,
        0 <= term_cols,
        0 <= pty_cols,
    ensures
        render_width(content, term_cols, pty_cols) <= pty_cols,
        pty_cols >= 40 ==> render_width(content, term_cols, pty_cols) >= 40,
        term_cols >= 42 ==> render_width(content, term_cols, pty_cols) <= term_cols - 2,
{
}

/// What terminals print is never told as a notification.
pub proof fn output_is_not_told(notification: NotificationModel)
    ensures
        notice_line(notification) is None <==> notification.method == "session.output"@,
{
}

/// A noisy field never comes out.
pub proof fn noisy_fields_are_dropped(entries: Seq<(Seq<char>, JsonModel)>, name: Seq<char>)
    requires
        noisy(name),
    ensures
        quiet(entries) is Obj,
        quiet(entries).field(name) is None,
    decreases entries.len(),
{
    if entries.len() > 0 {
        noisy_fields_are_dropped(entries.drop_last(), name);
        if !noisy(entries.last().0) {
            crate::json::with_keeps(
                quiet(entries.drop_last()),
                entries.last().0,
                entries.last().1,
                name,
            );
        }
    }
}

/// No two pieces beside each other have the same style.
pub proof fn runs_are_maximal(pieces: Seq<SpanModel>, i: int)
    requires
        0 <= i < runs(pieces).len() - 1,
    ensures
        runs(pieces)[i].ink != runs(pieces)[i + 1].ink,
    decreases pieces.len(),
{
    if pieces.len() > 0 {
        let before = runs(pieces.drop_last());
        if i + 1 < before.len() {
            runs_are_maximal(pieces.drop_last(), i);
        }
    }
}

/// A row is as wide as it takes to hold all that it shows, and no wider: no
/// cell that shows something reaches beyond its width, and one reaches up to
/// it.
pub proof fn row_width_is_the_least(row: Seq<ScreenCell>, n: int, i: int)
    requires
        0 <= i < n <= row.len(),
        forall|a: int, b: int| 0 <= a < b < row.len() ==> (#[trigger] row[a]).col < (
        #[trigger] row[b]).col,
        !row[i].wide_continuation && !blank_cell(row[i]),
    ensures
        row[i].col + cell_width(row[i]) <= width_of(row, n),
        exists|k: int|
            0 <= k < n && !(#[trigger] row[k]).wide_continuation && !blank_cell(row[k])
                && width_of(row, n) == row[k].col + cell_width(row[k]),
    decreases n,
{
    let last = row[n - 1];
    if last.wide_continuation || blank_cell(last) {
        row_width_is_the_least(row, n - 1, i);
        let k = choose|k: int|
            0 <= k < n - 1 && !(#[trigger] row[k]).wide_continuation && !blank_cell(row[k])
                && width_of(row, n - 1) == row[k].col + cell_width(row[k]);
        assert(!row[k].wide_continuation);
    } else {
        assert(!row[n - 1].wide_continuation);
        if i < n - 1 {
            assert(row[i].col < row[n - 1].col);
        }
    }
}

/// The cells of a row do not stand on each other: each that is drawn begins
/// behind the columns of those before it.
pub open spec fn cells_apart(row: Seq<ScreenCell>) -> bool {
    forall|a: int, b: int|
        0 <= a < b < row.len() && !(#[trigger] row[a]).wide_continuation && !(
        #[trigger] row[b]).wide_continuation ==> row[a].col + cell_width(row[a]) <= row[b].col
}

/// How many columns the cells of a row take that are drawn from the `i`-th
/// on.
pub open spec fn cell_columns(row: Seq<ScreenCell>, i: int, width: int) -> int
    decreases row.len() - i,
{
    if i < 0 || i >= row.len() {
        0
    } else if row[i].wide_continuation {
        cell_columns(row, i + 1, width)
    } else if row[i].col + cell_width(row[i]) > width {
        0
    } else {
        cell_width(row[i]) + cell_columns(row, i + 1, width)
    }
}

/// How many columns a row of a picture takes, with its indent and its mark.
pub open spec fn row_columns(row: Seq<ScreenCell>, width: int, term_cols: int) -> int {
    let content = content_width(row);
    2 + cell_columns(row, 0, drawn_width(content, width, term_cols)) + (if content > width {
        1int
    } else {
        0
    })
}

proof fn cells_stay_inside(row: Seq<ScreenCell>, i: int, width: int, from: int)
    requires
        cells_apart(row),
        0 <= i <= row.len(),
        forall|b: int|
            i <= b < row.len() && !(#[trigger] row[b]).wide_continuation ==> from <= row[b].col,
    ensures
        cell_columns(row, i, width) <= greatest(width - from, 0),
    decreases row.len() - i,
{
    if i < row.len() {
        if row[i].wide_continuation {
            cells_stay_inside(row, i + 1, width, from);
        } else if row[i].col + cell_width(row[i]) <= width {
            cells_stay_inside(row, i + 1, width, row[i].col + cell_width(row[i]));
        }
    }
}

/// No row of a picture wraps: on a terminal of at least 42 columns it takes
/// no more columns than there are, its indent and its mark included. It has
/// the mark just where it was cut off, and shows as many columns before it as
/// the picture is wide, unless there is no room for the mark behind them.
pub proof fn rows_do_not_wrap(row: Seq<ScreenCell>, content: int, term_cols: int, pty_cols: int)
    requires
        cells_apart(row),
        0 <= content,
        42 <= term_cols,
        0 <= pty_cols,
    ensures
        ({
            let width = render_width(content, term_cols, pty_cols);
            let shown = least(width, term_cols - 3);
            &&& row_columns(row, width, term_cols) <= term_cols
            &&& content_width(row) > width ==> preview_row(row, width, term_cols) == (seq![
                piece("  "@, plain()),
            ] + runs(cell_pieces(row, 0, shown))).push(piece("…"@, dimmed()))
            &&& content_width(row) <= width ==> preview_row(row, width, term_cols) == seq![
                piece("  "@, plain()),
            ] + runs(cell_pieces(row, 0, content_width(row)))
        }),
{
    let width = render_width(content, term_cols, pty_cols);
    cells_stay_inside(row, 0, drawn_width(content_width(row), width, term_cols), 0);
}

/// How many characters a line has.
pub open spec fn line_chars(line: Seq<SpanModel>) -> int
    decreases line.len(),
{
    if line.len() == 0 {
        0
    } else {
        line_chars(line.drop_last()) + line.last().text.len()
    }
}

proof fn line_chars_concat(a: Seq<SpanModel>, b: Seq<SpanModel>)
    ensures
        line_chars(a + b) == line_chars(a) + line_chars(b),
    decreases b.len(),
{
    if b.len() == 0 {
        assert(a + b =~= a);
    } else {
        line_chars_concat(a, b.drop_last());
        assert((a + b).drop_last() =~= a + b.drop_last());
    }
}

proof fn runs_keep_characters(pieces: Seq<SpanModel>)
    ensures
        line_chars(runs(pieces)) == line_chars(pieces),
    decreases pieces.len(),
{
    if pieces.len() > 0 {
        runs_keep_characters(pieces.drop_last());
        let before = runs(pieces.drop_last());
        let last = pieces.last();
        if before.len() > 0 && before.last().ink == last.ink {
            let merged = before.drop_last().push(piece(before.last().text + last.text, last.ink));
            assert(merged.drop_last() =~= before.drop_last());
        } else {
            assert(before.push(last).drop_last() =~= before);
        }
    }
}

proof fn narrow_cells_have_one_character(row: Seq<ScreenCell>, i: int, width: int)
    requires
        0 <= i <= row.len(),
        forall|k: int| 0 <= k < row.len() ==> !(#[trigger] row[k]).wide && row[k].text@.len() <= 1,
    ensures
        line_chars(cell_pieces(row, i, width)) == cell_columns(row, i, width),
    decreases row.len() - i,
{
    reveal_strlit(" ");
    if i < row.len() {
        narrow_cells_have_one_character(row, i + 1, width);
        if !row[i].wide_continuation && row[i].col + cell_width(row[i]) <= width {
            let first = seq![piece(cell_text(row[i]), cell_ink(row[i].style))];
            line_chars_concat(first, cell_pieces(row, i + 1, width));
            assert(first.drop_last() =~= Seq::<SpanModel>::empty());
            assert(line_chars(Seq::<SpanModel>::empty()) == 0);
            assert(line_chars(first) == 1);
        }
    }
}

/// A row of narrow cells, each of one character at most, takes as many
/// columns as the line that is printed for it has characters.
pub proof fn narrow_rows_take_their_characters(row: Seq<ScreenCell>, width: int, term_cols: int)
    requires
        forall|k: int| 0 <= k < row.len() ==> !(#[trigger] row[k]).wide && row[k].text@.len() <= 1,
    ensures
        line_chars(preview_row(row, width, term_cols)) == row_columns(row, width, term_cols),
{
    reveal_strlit("  ");
    reveal_strlit("…");
    let content = content_width(row);
    let pieces = cell_pieces(row, 0, drawn_width(content, width, term_cols));
    let indent = seq![piece("  "@, plain())];
    narrow_cells_have_one_character(row, 0, drawn_width(content, width, term_cols));
    runs_keep_characters(pieces);
    line_chars_concat(indent, runs(pieces));
    assert(indent.drop_last() =~= Seq::<SpanModel>::empty());
    assert(line_chars(Seq::<SpanModel>::empty()) == 0);
    assert(line_chars(indent) == 2);
    let drawn = indent + runs(pieces);
    assert(drawn.push(piece("…"@, dimmed())).drop_last() =~= drawn);
}

} // verus!
