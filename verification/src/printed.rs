//! What the operator reads on the terminal.

use crate::adopt::{attached_line, live_entries, live_ids};
use crate::args::{Framing, Transport};
use crate::auto_serve::{detaching, framing_name};
use crate::error::ErrorModel;
use crate::fields::{increasing, lookup, lookup_at, lookup_push};
use crate::json::{group_json_fields, json_encoded, JsonModel};
use crate::lines::lines;
use crate::lower::lowered;
use crate::lua::eval::RenderedValue;
use crate::meta::MetaOutcomeModel;
use crate::notes::{badge_spans, NoteModel};
use crate::paint::{colour, painted, plain, Shade, SpanModel};
use crate::prompt::{banner, meta_printed, value_printed, values_printed};
use crate::render::parts::reads;
use crate::screen::{ScreenCell, ScreenSnapshot};
use crate::socket::{connect_text, ConnectFailure};
use crate::text::{begins, decimal, join, split, trim};
use crate::transport::NotificationModel;
use crate::tui::{
    blank_row, error_line, first_shown, json_line, last_shown, line_written, live_hint, notice_body,
    preview_footer, preview_header, preview_title, quiet, range_of, render_width, repeated, result_from,
    section_lines, trimmed_note, VisibleRange,
};
use vstd::prelude::*;

verus! {

broadcast use group_json_fields;

/// Whether a text stands somewhere in another.
pub open spec fn holds(s: Seq<char>, part: Seq<char>) -> bool {
    exists|before: Seq<char>, after: Seq<char>| s == #[trigger] (before + part + after)
}

/// Whether a line says something.
pub open spec fn says_something() -> spec_fn(Seq<char>) -> bool {
    |part: Seq<char>| part.len() > 0
}

/// What the lines for a text say behind their indents.
pub open spec fn behind_indents(shown: Seq<Seq<SpanModel>>) -> Seq<Seq<char>> {
    shown.map_values(|line: Seq<SpanModel>| line[1].text)
}

proof fn later_lines_are_shown(parts: Seq<Seq<char>>, i: int)
    requires
        1 <= i <= parts.len(),
    ensures
        behind_indents(result_from(parts, i)) == parts.skip(i).filter(says_something()),
    decreases parts.len() - i,
{
    let p = says_something();
    if i == parts.len() {
        assert(parts.skip(i) =~= Seq::<Seq<char>>::empty());
        reveal(Seq::filter);
        assert(parts.skip(i).filter(p) =~= Seq::<Seq<char>>::empty());
        assert(behind_indents(result_from(parts, i)) =~= Seq::<Seq<char>>::empty());
    } else {
        later_lines_are_shown(parts, i + 1);
        let one = seq![parts[i]];
        assert(parts.skip(i) =~= one + parts.skip(i + 1));
        Seq::filter_distributes_over_add(one, parts.skip(i + 1), p);
        reveal(Seq::filter);
        assert(one.drop_last() =~= Seq::<Seq<char>>::empty());
        assert(one.drop_last().filter(p) =~= Seq::<Seq<char>>::empty());
        if parts[i].len() > 0 {
            assert(p(one.last()));
            assert(one.filter(p) =~= one);
            let shown = result_from(parts, i);
            assert(shown.skip(1) =~= result_from(parts, i + 1));
            assert(behind_indents(shown) =~= one + behind_indents(result_from(parts, i + 1)));
        } else {
            assert(!p(one.last()));
            assert(one.filter(p) =~= Seq::<Seq<char>>::empty());
            assert(one.filter(p) + parts.skip(i + 1).filter(p) =~= parts.skip(i + 1).filter(p));
        }
    }
}

/// A text is shown line by line, in order: its first line behind an arrow, and of the
/// others those that say something.
pub proof fn texts_are_shown_line_by_line(text: Seq<char>)
    ensures
        ({
            let parts = split(text, '\n');
            behind_indents(result_from(parts, 0)) == seq!["↳ "@ + parts[0]] + parts.skip(1).filter(
                says_something(),
            )
        }),
{
    let parts = split(text, '\n');
    crate::lines::split_has_parts(text, '\n');
    later_lines_are_shown(parts, 1);
    let shown = result_from(parts, 0);
    assert(shown.skip(1) =~= result_from(parts, 1));
    assert(behind_indents(shown) =~= seq!["↳ "@ + parts[0]] + behind_indents(
        result_from(parts, 1),
    ));
}

/// An answer of the server is shown whole where it has no more than 240 characters;
/// otherwise its first 240 are shown, and a mark behind them.
pub proof fn answers_are_shown(value: JsonModel)
    ensures
        ({
            let text = json_encoded(value);
            let shown = json_line(value).last().text;
            &&& text.len() <= 240 ==> shown == text
            &&& text.len() > 240 ==> shown.take(240) == text.take(240) && shown.skip(240) == "…"@
                && shown.len() == 241
        }),
{
    reveal_strlit("…");
    let text = json_encoded(value);
    let shown = json_line(value).last().text;
    if text.len() > 240 {
        assert(shown.take(240) =~= text.take(240));
        assert(shown.skip(240) =~= "…"@);
    }
}

/// An error is shown by its message, in red, behind a cross.
pub proof fn errors_are_shown(message: Seq<char>)
    ensures
        error_line(message).last().text == message,
        error_line(message).last().ink == colour(Shade::Red),
        error_line(message)[1].text == "✗"@,
        reads(error_line(message)) == "  ✗ "@ + message,
{
    reveal_strlit("  ");
    reveal_strlit("✗");
    reveal_strlit(" ");
    reveal_strlit("  ✗ ");
    assert("  ✗ "@ =~= "  "@ + "✗"@ + " "@);
    let line = error_line(message);
    let l1 = line.drop_first();
    let l2 = l1.drop_first();
    let l3 = l2.drop_first();
    assert(reads(l3.drop_first()) =~= Seq::<char>::empty());
    assert(reads(l3) =~= message);
    assert(reads(l2) =~= " "@ + message);
    assert(reads(l1) =~= "✗"@ + (" "@ + message));
    assert(reads(line) =~= "  ✗ "@ + message);
}

/// A help text is shown whole, line by line, below its title.
pub proof fn help_texts_are_shown(title: Seq<char>, text: Seq<char>, i: int)
    requires
        0 <= i < lines(text).len(),
    ensures
        ({
            let shown = section_lines(title, text);
            &&& shown.len() == lines(text).len() + 3
            &&& reads(shown[1]) == title
            &&& reads(shown[i + 2]) == lines(text)[i]
        }),
{
    let shown = section_lines(title, text);
    assert(reads(shown[1].drop_first()) =~= Seq::<char>::empty());
    assert(reads(shown[1]) =~= title);
    let line = shown[i + 2];
    if lines(text)[i].len() > 0 {
        assert(reads(line.drop_first()) =~= Seq::<char>::empty());
        assert(reads(line) =~= lines(text)[i]);
    } else {
        assert(reads(line) =~= lines(text)[i]);
    }
}

proof fn badges_are_in_order(badges: Seq<Seq<char>>, k: int)
    requires
        0 <= k < badges.len(),
    ensures
        badge_spans(badges).len() == 2 * badges.len(),
        badge_spans(badges)[2 * k + 1].text == " "@ + badges[k] + " "@,
    decreases badges.len(),
{
    let init = badges.drop_last();
    if k < init.len() {
        badges_are_in_order(init, k);
        assert(init[k] == badges[k]);
    } else if init.len() > 0 {
        badges_are_in_order(init, 0);
    } else {
        assert(badge_spans(init).len() == 0);
    }
}

/// A summary is shown behind an arrow, with its badges behind it, in order.
pub proof fn summaries_are_shown(note: NoteModel, k: int)
    ensures
        note.line_spans()[1].text == "↳"@,
        note.line_spans()[3].text == note.primary,
        note.badges.len() == 0 ==> note.line_spans().len() == 4,
        0 <= k < note.badges.len() ==> note.line_spans().len() == 4 + 2 * note.badges.len()
            && note.line_spans()[2 * k + 5].text == " "@ + note.badges[k] + " "@,
        holds(note.rendered(), note.primary),
{
    if 0 <= k < note.badges.len() {
        badges_are_in_order(note.badges, k);
    }
    if note.badges.len() == 0 {
        assert(badge_spans(note.badges).len() == 0);
    }
    let ink = crate::paint::dimmed();
    let codes = "\x1b["@ + crate::text::join(crate::paint::ink_codes(ink), ";"@) + "m"@;
    let before = "  "@ + crate::paint::painted(colour(Shade::DarkGray), "↳"@) + " "@ + codes;
    let after = "\x1b[0m"@ + crate::notes::badges_text(note.badges);
    assert(note.rendered() =~= before + note.primary + after);
}

/// The fields of a notification that are worth a line are kept as they are.
pub proof fn quiet_fields_are_kept(entries: Seq<(Seq<char>, JsonModel)>, name: Seq<char>)
    requires
        increasing(entries),
        !(name == "output"@ || name == "text"@ || name == "data"@),
    ensures
        quiet(entries) is Obj,
        quiet(entries).field(name) == lookup(entries, name),
    decreases entries.len(),
{
    if entries.len() > 0 {
        let init = entries.drop_last();
        assert forall|i: int, j: int|
            #![trigger init[i], init[j]]
            0 <= i < j < init.len() implies crate::text::text_lt(init[i].0, init[j].0) by {
            assert(init[i] == entries[i] && init[j] == entries[j]);
        }
        quiet_fields_are_kept(init, name);
        assert(init.push(entries.last()) =~= entries);
        lookup_push(init, entries.last(), name);
        lookup_at(entries, entries.len() - 1);
    }
}

/// A notification is told by its method and the session that it names, with the sequence
/// number of a change or an exit where there is one. What terminals print is not told.
pub proof fn notices_name_their_session(notification: NotificationModel, session: Seq<char>)
    requires
        notification.params.field("session"@) == Some(JsonModel::Str(session)),
    ensures
        notification.method == "session.output"@ ==> notice_body(notification) is None,
        notification.method != "session.output"@ ==> (notice_body(notification) matches Some(body)
            && begins(body, notification.method) && holds(body, session)),
        notification.params.unsigned_field("sequence"@) matches Some(n) ==> (notification.method
            == "session.changed"@ ==> notice_body(notification) == Some(
            "session.changed "@ + session + " seq="@ + decimal(n as nat),
        )) && (notification.method == "session.exited"@ ==> notice_body(notification) == Some(
            "session.exited  "@ + session + " seq="@ + decimal(n as nat),
        )),
{
    reveal_strlit("session.output");
    reveal_strlit("session.changed");
    reveal_strlit("session.changed ");
    reveal_strlit("session.exited");
    reveal_strlit("session.exited  ");
    assert("session.output"@.len() == 14 && "session.exited"@.len() == 14);
    assert("session.output"@[8] == 'o' && "session.exited"@[8] == 'e');
    assert("session.changed"@.len() == 15);
    assert("session.exited  "@.take(14) =~= "session.exited"@);
    assert("session.changed "@.take(15) =~= "session.changed"@);
    if let Some(body) = notice_body(notification) {
        assert(body.take(notification.method.len() as int) =~= notification.method);
        let head = if notification.method == "session.changed"@ {
            "session.changed "@
        } else if notification.method == "session.exited"@ {
            "session.exited  "@
        } else {
            notification.method + " "@
        };
        let tail = body.skip(head.len() + session.len() as int);
        assert(body =~= head + session + tail);
    }
}

/// What is printed at the start names the way to the server and the tip, and ends with
/// the hint where there is one.
pub proof fn the_banner_greets(label: Seq<char>, tip: Seq<char>, hint: Option<Seq<char>>)
    ensures
        ({
            let shown = banner(label, tip, hint);
            &&& shown[0].last().text == label
            &&& shown[1].last().text == tip
            &&& hint matches Some(text) ==> shown.len() == 5 && shown[3].last().text == text
            &&& hint is None ==> shown.len() == 4
        }),
{
}

/// A meta command that ends the client prints nothing; any other prints what it came
/// to: an error by its message, a line line by line, a help text and the guide whole
/// below their titles, an answer as JSON.
pub proof fn outcomes_are_printed(
    outcome: Result<MetaOutcomeModel, ErrorModel>,
    term_cols: int,
    i: int,
)
    ensures
        match outcome {
            Err(e) => meta_printed(outcome, term_cols) matches Some(shown) && shown.len() == 1
                && reads(shown[0]) == "  ✗ "@ + e.message(),
            Ok(MetaOutcomeModel::Quit) => meta_printed(outcome, term_cols) is None,
            Ok(MetaOutcomeModel::Line(text)) => meta_printed(outcome, term_cols) matches Some(shown)
                && behind_indents(shown) == seq!["↳ "@ + split(text, '\n')[0]] + split(
                text,
                '\n',
            ).skip(1).filter(says_something()),
            Ok(MetaOutcomeModel::ShowHelp(text)) | Ok(MetaOutcomeModel::ShowTips(text)) => meta_printed(
                outcome,
                term_cols,
            ) matches Some(shown) && shown.len() == lines(text).len() + 3 && (0 <= i < lines(
                text,
            ).len() ==> reads(shown[i + 2]) == lines(text)[i]),
            Ok(MetaOutcomeModel::Json(value)) => meta_printed(outcome, term_cols) matches Some(shown)
                && shown.len() == 1 && (json_encoded(value).len() <= 240 ==> shown[0].last().text
                == json_encoded(value)),
            Ok(MetaOutcomeModel::Screen { .. }) => meta_printed(outcome, term_cols) is Some,
        },
{
    match outcome {
        Err(e) => {
            errors_are_shown(e.message());
        },
        Ok(MetaOutcomeModel::Line(text)) => {
            texts_are_shown_line_by_line(text);
        },
        Ok(MetaOutcomeModel::ShowHelp(text)) => {
            if 0 <= i < lines(text).len() {
                help_texts_are_shown("ptywright repl · help"@, text, i);
            }
        },
        Ok(MetaOutcomeModel::ShowTips(text)) => {
            if 0 <= i < lines(text).len() {
                help_texts_are_shown("ptywright repl · tips"@, text, i);
            }
        },
        Ok(MetaOutcomeModel::Json(value)) => {
            answers_are_shown(value);
        },
        _ => {},
    }
}

/// The values that Lua gave are printed one after the other, in order.
pub proof fn values_are_printed_in_order(
    a: Seq<RenderedValue>,
    b: Seq<RenderedValue>,
    term_cols: int,
)
    ensures
        values_printed(a + b, term_cols) == values_printed(a, term_cols) + values_printed(
            b,
            term_cols,
        ),
    decreases b.len(),
{
    if b.len() == 0 {
        assert(a + b =~= a);
        assert(values_printed(b, term_cols).len() == 0);
        assert(values_printed(a, term_cols) + values_printed(b, term_cols) =~= values_printed(
            a,
            term_cols,
        ));
    } else {
        values_are_printed_in_order(a, b.drop_last(), term_cols);
        assert((a + b).drop_last() =~= a + b.drop_last());
        assert((a + b).last() == b.last());
        assert(values_printed(a + b, term_cols) =~= values_printed(a, term_cols) + values_printed(
            b,
            term_cols,
        ));
    }
}

/// A value that is text is printed line by line.
pub proof fn texts_of_lua_are_printed(text: String, term_cols: int)
    ensures
        behind_indents(value_printed(RenderedValue::Text(text), term_cols)) == seq![
            "↳ "@ + split(text@, '\n')[0],
        ] + split(text@, '\n').skip(1).filter(says_something()),
{
    texts_are_shown_line_by_line(text@);
}

/// The rows of a picture that are shown begin and end with one that shows something, or
/// with the one of the cursor.
pub proof fn shown_rows_begin_and_end_with_something(rows: Seq<Seq<ScreenCell>>, cursor: int)
    requires
        0 <= cursor < rows.len() <= usize::MAX,
    ensures
        ({
            let range = range_of(rows, cursor);
            &&& range.start == cursor || !blank_row(rows[range.start as int])
            &&& range.end - 1 == cursor || !blank_row(rows[range.end - 1])
            &&& range.trimmed_top == range.start
            &&& range.trimmed_bottom == rows.len() - range.end
        }),
{
    firsts_show_something(rows, 0);
    lasts_show_something(rows, rows.len() as int);
}

proof fn firsts_show_something(rows: Seq<Seq<ScreenCell>>, i: int)
    requires
        0 <= i,
    ensures
        first_shown(rows, i) matches Some(k) ==> i <= k < rows.len() && !blank_row(rows[k]),
    decreases rows.len() - i,
{
    if i < rows.len() && blank_row(rows[i]) {
        firsts_show_something(rows, i + 1);
    }
}

proof fn lasts_show_something(rows: Seq<Seq<ScreenCell>>, n: int)
    requires
        n <= rows.len(),
    ensures
        last_shown(rows, n) matches Some(k) ==> 0 <= k < n && !blank_row(rows[k]),
    decreases n,
{
    if n > 0 && blank_row(rows[n - 1]) {
        lasts_show_something(rows, n - 1);
    }
}

/// A picture is printed as wide as what it shows, where that is at least 40 columns and
/// fits both terminals.
pub proof fn pictures_are_as_wide_as_what_they_show(content: int, term_cols: int, pty_cols: int)
    requires
        40 <= content <= pty_cols,
        content + 2 <= term_cols,
    ensures
        render_width(content, term_cols, pty_cols) == content,
        term_cols >= 42 ==> render_width(term_cols, term_cols, pty_cols) == if term_cols - 2
            <= pty_cols {
            term_cols - 2
        } else {
            pty_cols
        },
{
}

/// The operator is told which server the client speaks to: by the path of its socket,
/// whether it was named or is the usual one, or by the command that is run.
pub proof fn the_way_to_the_server_is_named(transport: Transport)
    ensures
        match transport {
            Transport::Socket(path) => transport.shown() == "socket:"@ + path@,
            Transport::DefaultSocket(path) => transport.shown() == "socket:"@ + path@,
            Transport::Stdio(command) => begins(transport.shown(), "stdio:"@) && (command@.len() > 0
                ==> holds(transport.shown(), command@[0]@)),
        },
{
    if let Transport::Stdio(command) = transport {
        let shown = transport.shown();
        assert(shown.take("stdio:"@.len() as int) =~= "stdio:"@);
        if command@.len() > 0 {
            assert(shown =~= "stdio:"@ + command@[0]@ + Seq::<char>::empty());
        }
    }
}

/// A connection that failed is told of with the path of the socket, and with the words of
/// the system where those are all that is known.
pub proof fn failed_connections_name_the_socket(path: Seq<char>, failure: ConnectFailure)
    ensures
        holds(connect_text(path, failure), path),
        failure matches ConnectFailure::Other(error) ==> crate::adopt::ends(
            connect_text(path, failure),
            error@,
        ),
{
    let text = connect_text(path, failure);
    let head = match failure {
        ConnectFailure::NotFound => "no ptywright server is listening at "@,
        ConnectFailure::ConnectionRefused => "socket "@,
        ConnectFailure::PermissionDenied => "permission denied connecting to "@,
        ConnectFailure::Other(_) => "connect to ptywright serve socket "@,
    };
    let tail = text.skip(head.len() + path.len() as int);
    assert(text =~= head + path + tail);
    if let ConnectFailure::Other(error) = failure {
        assert(text.skip(text.len() - error@.len()) =~= error@);
    }
}

/// A picture is titled with its adapter, its size as columns by rows and its sequence
/// number, between two rules; where the picture is wide enough, as far from one end as
/// from the other, or one nearer to the first.
pub proof fn pictures_are_titled(adapter: Seq<char>, snapshot: ScreenSnapshot, width: int)
    ensures
        ({
            let title = " preview · "@ + adapter + " · "@ + decimal(snapshot.size.cols as nat)
                + "×"@ + decimal(snapshot.size.rows as nat) + " · seq "@ + decimal(
                snapshot.sequence as nat,
            ) + " "@;
            let header = preview_header(adapter, snapshot, width);
            &&& holds(header, title)
            &&& title.len() + 2 <= width ==> header.len() == width
            &&& title.len() + 2 <= width ==> exists|left: Seq<char>, right: Seq<char>|
                header == #[trigger] (left + title + right) && 0 <= right.len() - left.len() <= 1
        }),
{
    reveal_strlit("─");
    let title = preview_title(adapter, snapshot);
    let header = preview_header(adapter, snapshot, width);
    let inner = if width > 2 {
        width - 2
    } else {
        0
    };
    if title.len() >= inner {
        assert(header =~= "─"@ + title + "─"@);
        assert(header == ("─"@) + title + ("─"@));
    } else {
        let room = (inner - title.len()) as nat;
        let left = "─"@ + repeated('─', room / 2);
        let right = repeated('─', (room - room / 2) as nat) + "─"@;
        assert(header =~= left + title + right);
    }
}

/// Below a picture stands where its cursor is, row and column, that it is the alternate
/// screen where it is, and how many blank rows are hidden.
pub proof fn pictures_end_with_their_cursor(snapshot: ScreenSnapshot, range: VisibleRange)
    ensures
        ({
            let footer = preview_footer(snapshot, range);
            let place = "─ end · cursor "@ + decimal(snapshot.cursor.row as nat) + ":"@ + decimal(
                snapshot.cursor.col as nat,
            );
            let shown = if snapshot.alternate_screen {
                place + " · alt-screen"@
            } else {
                place
            };
            let top = range.trimmed_top as nat;
            let bottom = range.trimmed_bottom as nat;
            &&& begins(footer, shown)
            &&& top == 0 && bottom == 0 ==> footer == shown + " ─"@
            &&& top > 0 && bottom == 0 ==> footer == shown + " · "@ + decimal(top)
                + " blank row(s) hidden above ─"@
            &&& top == 0 && bottom > 0 ==> footer == shown + " · "@ + decimal(bottom)
                + " blank row(s) hidden below ─"@
            &&& top > 0 && bottom > 0 ==> holds(footer, decimal(top) + " above / "@ + decimal(bottom)
                + " below"@)
        }),
{
    hidden_rows_are_worded();
    let footer = preview_footer(snapshot, range);
    let place = "─ end · cursor "@ + decimal(snapshot.cursor.row as nat) + ":"@ + decimal(
        snapshot.cursor.col as nat,
    );
    let shown = if snapshot.alternate_screen {
        place + " · alt-screen"@
    } else {
        place
    };
    let top = range.trimmed_top as nat;
    let bottom = range.trimmed_bottom as nat;
    assert(place + ""@ =~= place);
    let noted = shown + trimmed_note(top, bottom) + " ─"@;
    assert(footer == noted);
    assert(noted.take(shown.len() as int) =~= shown);
    hidden_rows_are_told(shown, top, bottom);
}

proof fn hidden_rows_are_worded()
    ensures
        ""@.len() == 0,
        " blank row(s) hidden above"@ + " ─"@ == " blank row(s) hidden above ─"@,
        " blank row(s) hidden below"@ + " ─"@ == " blank row(s) hidden below ─"@,
        " below blank row(s) hidden"@.len() >= 6,
        " below blank row(s) hidden"@.take(6) == " below"@,
{
    reveal_strlit("");
    reveal_strlit(" ─");
    reveal_strlit(" blank row(s) hidden above");
    reveal_strlit(" blank row(s) hidden above ─");
    reveal_strlit(" blank row(s) hidden below");
    reveal_strlit(" blank row(s) hidden below ─");
    reveal_strlit(" below");
    reveal_strlit(" below blank row(s) hidden");
    assert(" blank row(s) hidden above"@ + " ─"@ =~= " blank row(s) hidden above ─"@);
    assert(" blank row(s) hidden below"@ + " ─"@ =~= " blank row(s) hidden below ─"@);
    assert(" below blank row(s) hidden"@.take(6) =~= " below"@);
}

proof fn hidden_rows_are_told(shown: Seq<char>, top: nat, bottom: nat)
    ensures
        ({
            let noted = shown + trimmed_note(top, bottom) + " ─"@;
            &&& top == 0 && bottom == 0 ==> noted == shown + " ─"@
            &&& top > 0 && bottom == 0 ==> noted == shown + " · "@ + decimal(top)
                + " blank row(s) hidden above ─"@
            &&& top == 0 && bottom > 0 ==> noted == shown + " · "@ + decimal(bottom)
                + " blank row(s) hidden below ─"@
            &&& top > 0 && bottom > 0 ==> holds(noted, decimal(top) + " above / "@ + decimal(bottom)
                + " below"@)
        }),
{
    hidden_rows_are_worded();
    let noted = shown + trimmed_note(top, bottom) + " ─"@;
    if top == 0 && bottom == 0 {
        assert(noted =~= shown + " ─"@);
    } else if bottom == 0 {
        let words = " blank row(s) hidden above"@;
        assert(noted =~= shown + " · "@ + decimal(top) + (words + " ─"@));
    } else if top == 0 {
        let words = " blank row(s) hidden below"@;
        assert(noted =~= shown + " · "@ + decimal(bottom) + (words + " ─"@));
    } else {
        let words = " below blank row(s) hidden"@;
        let both = decimal(top) + " above / "@ + decimal(bottom);
        assert(words =~= words.take(6) + words.skip(6));
        assert(noted =~= (shown + " · "@) + (both + words.take(6)) + (words.skip(6) + " ─"@));
    }
}

/// The answer to whether the server should go on is taken by its word, whatever the
/// white space round it and the case of its letters.
pub proof fn answers_are_taken_by_their_word(answer: Seq<char>)
    ensures
        detaching(answer) == detaching(trim(answer)),
        detaching(answer) == ({
            let word = lowered(trim(answer));
            word == "n"@ || word == "no"@ || word == "d"@ || word == "detach"@ || word == "leave"@
        }),
{
    crate::text::trim_is_idempotent(answer);
}

/// A line without styles is written as its pieces read; each styled piece is written
/// between its codes, in order.
pub proof fn lines_are_written_in_order(line: Seq<SpanModel>)
    ensures
        (forall|i: int| 0 <= i < line.len() ==> (#[trigger] line[i]).ink == plain()) ==> line_written(
            line,
        ) == reads(line),
        line.len() > 0 ==> line_written(line) == painted(line[0].ink, line[0].text) + line_written(
            line.drop_first(),
        ),
    decreases line.len(),
{
    if line.len() == 1 {
        assert(line_written(line.drop_last()) =~= Seq::<char>::empty());
        assert(line_written(line.drop_first()) =~= Seq::<char>::empty());
        assert(reads(line.drop_first()) =~= Seq::<char>::empty());
        assert(line_written(line) =~= painted(line[0].ink, line[0].text));
        assert(reads(line) =~= line[0].text);
    } else if line.len() > 1 {
        let init = line.drop_last();
        let tail = line.drop_first();
        lines_are_written_in_order(init);
        lines_are_written_in_order(tail);
        assert(init.drop_first() =~= tail.drop_last());
        assert(line_written(tail) == line_written(tail.drop_last()) + painted(
            tail.last().ink,
            tail.last().text,
        ));
        assert(line_written(line) =~= painted(line[0].ink, line[0].text) + line_written(tail));
        if forall|i: int| 0 <= i < line.len() ==> (#[trigger] line[i]).ink == plain() {
            assert forall|i: int| 0 <= i < tail.len() implies (#[trigger] tail[i]).ink == plain() by {
                assert(tail[i] == line[i + 1]);
            }
            assert(line[0].ink == plain());
        }
    }
}

/// The server is told which framing to speak by a name of its own.
pub proof fn framings_are_named()
    ensures
        framing_name(Framing::Ndjson) == "ndjson"@,
        framing_name(Framing::Lsp) == "lsp"@,
{
}

/// What is said after attaching names how many adapters there were and each of them, in
/// order; so does the hint at the start.
pub proof fn live_adapters_are_counted(value: JsonModel)
    ensures
        ({
            let ids = live_ids(live_entries(value));
            let line = attached_line(ids);
            &&& ids.len() > 0 ==> begins(
                line,
                "attached "@ + decimal(ids.len()) + " adapter(s): "@ + join(ids, ", "@),
            )
            &&& ids.len() > 0 ==> (live_hint(value) matches Some(hint) && begins(
                hint,
                decimal(ids.len()) + " live adapter(s) on the server: "@ + join(ids, ", "@),
            ))
            &&& ids.len() == 0 ==> live_hint(value) is None
        }),
{
    let ids = live_ids(live_entries(value));
    if ids.len() > 0 {
        let line = attached_line(ids);
        let head = "attached "@ + decimal(ids.len()) + " adapter(s): "@ + join(ids, ", "@);
        assert(line.take(head.len() as int) =~= head);
        let hint = live_hint(value)->Some_0;
        let lead = decimal(ids.len()) + " live adapter(s) on the server: "@ + join(ids, ", "@);
        assert(hint.take(lead.len() as int) =~= lead);
    }
}

/// Any other notification is told with its fields, but for the noisy ones, as JSON.
pub proof fn other_notices_tell_their_fields(
    notification: NotificationModel,
    entries: Seq<(Seq<char>, JsonModel)>,
    session: Seq<char>,
)
    requires
        notification.params == JsonModel::Obj(entries),
        notification.params.field("session"@) == Some(JsonModel::Str(session)),
        increasing(entries),
        notification.method != "session.output"@,
        notification.method != "session.changed"@,
        notification.method != "session.exited"@,
    ensures
        notice_body(notification) == Some(
            notification.method + " "@ + session + " "@ + json_encoded(quiet(entries)),
        ),
{
    reveal_strlit("session");
    reveal_strlit("output");
    reveal_strlit("text");
    reveal_strlit("data");
    assert("session"@.len() == 7 && "output"@.len() == 6 && "text"@.len() == 4 && "data"@.len()
        == 4);
    quiet_fields_are_kept(entries, "session"@);
    assert(notification.params.field("session"@) == lookup(entries, "session"@));
    assert(crate::json::no_fields().field("session"@) is None);
}

/// The screen client tells any other notification by its method and its parameters.
pub proof fn other_notices_are_told_whole(notification: NotificationModel)
    requires
        notification.method != "session.exited"@,
    ensures
        crate::dispatcher::notice_text(notification) == notification.method + " "@ + json_encoded(
            notification.params,
        ),
{
}

}
