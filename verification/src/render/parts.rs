//! What the full-screen client shows, and where.

use crate::app::{CompletionModel, LogModel};
use crate::completer::SuggestionModel;
use crate::ctx::{CtxModel, TabModel};
use crate::highlighter::{pieces, pieces_make_up_the_line, styled, written, Kind};
use crate::lines::lines;
use crate::paint::{colour, dimmed, Shade, SpanModel};
use crate::render::{
    entry_lines, line_len, marked, picture_rows, popup_area, popup_lines, popup_start, strip_line,
    suggestion_width, tab_pieces, the_chosen_suggestion_is_shown, title_line, widest_suggestion,
    Area,
};
use crate::screen::ScreenSnapshot;
use crate::text::decimal;
use vstd::prelude::*;

verus! {

/// The texts of the pieces of a line, one after the other.
pub open spec fn reads(line: Seq<SpanModel>) -> Seq<char>
    decreases line.len(),
{
    if line.len() == 0 {
        Seq::empty()
    } else {
        line[0].text + reads(line.drop_first())
    }
}

proof fn tabs_stand_between_rules(tabs: Seq<TabModel>, focused: Option<Seq<char>>, i: int)
    requires
        0 <= i < tabs.len(),
    ensures
        tab_pieces(tabs, focused).len() == 2 * tabs.len() - 1,
        tab_pieces(tabs, focused)[2 * i] == (SpanModel {
            text: match tabs[i].state_label {
                Some(label) => " "@ + tabs[i].id + " · "@ + tabs[i].plugin + " · "@ + label
                    + " "@,
                None => " "@ + tabs[i].id + " · "@ + tabs[i].plugin + " "@,
            },
            ink: if focused == Some(tabs[i].id) {
                marked(Shade::Cyan)
            } else {
                dimmed()
            },
        }),
    decreases tabs.len(),
{
    if tabs.len() > 1 {
        let init = tabs.drop_last();
        if i < init.len() {
            tabs_stand_between_rules(init, focused, i);
            assert(init[i] == tabs[i]);
        } else {
            tabs_stand_between_rules(init, focused, 0);
        }
    } else {
        assert(tab_pieces(tabs.drop_last(), focused).len() == 0);
    }
}

/// The strip shows every tab, in order, by its id, its plugin and, where it has one, its
/// state, and marks the focused one and no other. The transport stands at its end.
pub proof fn the_strip_shows_every_tab(ctx: CtxModel, label: Seq<char>, width: int, i: int)
    requires
        0 <= i < ctx.tabs.len(),
    ensures
        ({
            let line = strip_line(ctx, label, width);
            let tab = ctx.tabs[i];
            &&& line.len() > 2 * i + 3
            &&& line[2 * i + 2].text == match tab.state_label {
                Some(state) => " "@ + tab.id + " · "@ + tab.plugin + " · "@ + state + " "@,
                None => " "@ + tab.id + " · "@ + tab.plugin + " "@,
            }
            &&& line[2 * i + 2].ink == if ctx.focus == Some(tab.id) {
                marked(Shade::Cyan)
            } else {
                dimmed()
            }
            &&& line.last().text == " "@ + label + " "@
        }),
{
    tabs_stand_between_rules(ctx.tabs, ctx.focus, i);
}

/// The strip ends at the right edge, where there is room.
pub proof fn the_strip_fills_its_row(ctx: CtxModel, label: Seq<char>, width: int)
    ensures
        ({
            let line = strip_line(ctx, label, width);
            let needed = line_len(crate::render::strip_left(ctx)) + label.len() + 2;
            &&& needed <= width ==> line_len(line) == width
            &&& needed > width ==> line_len(line) == needed
        }),
{
    reveal_strlit(" ");
    let left = crate::render::strip_left(ctx);
    let right = " "@ + label + " "@;
    let line = strip_line(ctx, label, width);
    let padded = line.drop_last();
    assert(line == padded.push(line.last()));
    assert(line.last().text.len() == right.len());
    let room = width - line_len(left) - right.len();
    if room > 0 {
        let blank = crate::tui::piece(
            crate::tui::repeated(' ', room as nat),
            crate::paint::plain(),
        );
        assert(padded =~= left.push(blank));
        assert(padded.drop_last() =~= left);
        assert(line_len(padded) == line_len(left) + room);
    } else {
        assert(padded =~= left);
    }
    assert(line_len(line) == line_len(padded) + right.len());
}

/// The title names the focused adapter, the size of its picture as columns by rows, and
/// its sequence number.
pub proof fn the_title_names_the_picture(id: Seq<char>, snapshot: ScreenSnapshot)
    ensures
        reads(title_line(Some((id, snapshot)))) == " snapshot · "@ + id + " · "@ + decimal(
            snapshot.size.cols as nat,
        ) + "×"@ + decimal(snapshot.size.rows as nat) + " · seq "@ + decimal(
            snapshot.sequence as nat,
        ) + " "@,
        reads(title_line(None)) == " snapshot · (no focus) "@,
{
    reveal_with_fuel(reads, 5);
    reveal_strlit(" snapshot ");
    reveal_strlit("· ");
    reveal_strlit(" snapshot · ");
    let line = title_line(Some((id, snapshot)));
    assert(" snapshot "@ + "· "@ =~= " snapshot · "@);
    let l1 = line.drop_first();
    let l2 = l1.drop_first();
    let l3 = l2.drop_first();
    assert(l3.drop_first().len() == 0);
    assert(reads(l3) =~= l3[0].text);
    assert(reads(l2) =~= l2[0].text + l3[0].text);
    assert(reads(line) =~= (" snapshot "@ + "· "@) + id + " · "@ + decimal(
        snapshot.size.cols as nat,
    ) + "×"@ + decimal(snapshot.size.rows as nat) + " · seq "@ + decimal(
        snapshot.sequence as nat,
    ) + " "@);
    let none = title_line(None);
    assert(none.drop_first().len() == 0);
    assert(reads(none) =~= none[0].text);
}

proof fn styles_keep_the_text(parts: Seq<(Kind, Seq<char>)>)
    ensures
        reads(styled(parts)) == written(parts),
    decreases parts.len(),
{
    if parts.len() > 0 {
        styles_keep_the_text(parts.drop_first());
        assert(styled(parts).drop_first() =~= styled(parts.drop_first()));
    }
}

/// What was entered stands in the log behind the prompt, character by character; an
/// error stands in red behind a cross; a line, an answer and a notice stand behind their
/// marks as they are; a help text has a line for each of its lines.
pub proof fn log_entries_show_their_text(text: Seq<char>, globals: Seq<Seq<char>>, i: int)
    ensures
        ({
            let input = entry_lines(LogModel::Input(text), globals);
            let line = entry_lines(LogModel::Line(text), globals);
            let json = entry_lines(LogModel::Json(text), globals);
            let error = entry_lines(LogModel::Error(text), globals);
            let notice = entry_lines(LogModel::Notice(text), globals);
            let help = entry_lines(LogModel::Help(text), globals);
            &&& input.len() == 1 && reads(input[0]) == "pty> "@ + text
            &&& line.len() == 1 && reads(line[0]) == "  ↳ "@ + text
            &&& json.len() == 1 && reads(json[0]) == "  ↳ "@ + text
            &&& error.len() == 1 && reads(error[0]) == "  ✗ "@ + text
            &&& error[0].last().ink == colour(Shade::Red)
            &&& notice.len() == 1 && reads(notice[0]) == "[notif] "@ + text
            &&& help.len() == lines(text).len()
            &&& 0 <= i < lines(text).len() ==> reads(help[i]) == lines(text)[i]
        }),
{
    reveal_strlit("  ");
    reveal_strlit("↳");
    reveal_strlit("✗");
    reveal_strlit(" ");
    reveal_strlit("  ↳ ");
    reveal_strlit("  ✗ ");
    assert("  ↳ "@ =~= "  "@ + "↳"@ + " "@);
    assert("  ✗ "@ =~= "  "@ + "✗"@ + " "@);
    let parts = pieces(text, globals);
    pieces_make_up_the_line(text, globals);
    styles_keep_the_text(parts);
    let input = entry_lines(LogModel::Input(text), globals)[0];
    assert(input.drop_first() =~= styled(parts));
    marks_stand_before(entry_lines(LogModel::Line(text), globals)[0]);
    marks_stand_before(entry_lines(LogModel::Json(text), globals)[0]);
    marks_stand_before(entry_lines(LogModel::Error(text), globals)[0]);
    let notice = entry_lines(LogModel::Notice(text), globals)[0];
    assert(reads(notice.drop_first().drop_first()) =~= Seq::<char>::empty());
    assert(reads(notice.drop_first()) =~= text);
    assert("  "@ + ("↳"@ + (" "@ + text)) =~= "  ↳ "@ + text);
    assert("  "@ + ("✗"@ + (" "@ + text)) =~= "  ✗ "@ + text);
    let help = entry_lines(LogModel::Help(text), globals);
    if 0 <= i < lines(text).len() {
        assert(reads(help[i].drop_first()) =~= Seq::<char>::empty());
        assert(reads(help[i]) =~= help[i][0].text);
    }
}

proof fn marks_stand_before(line: Seq<SpanModel>)
    requires
        line.len() == 4,
    ensures
        reads(line) == line[0].text + (line[1].text + (line[2].text + line[3].text)),
{
    let l1 = line.drop_first();
    let l2 = l1.drop_first();
    let l3 = l2.drop_first();
    assert(reads(l3.drop_first()) =~= Seq::<char>::empty());
    assert(reads(l3) =~= line[3].text);
    assert(reads(l2) == line[2].text + line[3].text);
    assert(reads(l1) == line[1].text + (line[2].text + line[3].text));
}

/// The completions are shown in order, no more than eight, each with its description,
/// and the chosen one, which is always among them, is the only one that is marked.
pub proof fn completions_are_shown_in_order(state: CompletionModel, i: int)
    requires
        0 <= state.index < state.suggestions.len() < 65536,
        0 <= i < popup_lines(state).len(),
    ensures
        ({
            let lines = popup_lines(state);
            let start = popup_start(state);
            let suggestion = state.suggestions[start + i];
            &&& lines.len() == if state.suggestions.len() < 8 {
                state.suggestions.len()
            } else {
                8
            }
            &&& 0 <= start + i < state.suggestions.len()
            &&& start <= state.index < start + lines.len()
            &&& lines[i][0].text == suggestion.value
            &&& (lines[i][0].ink == marked(Shade::Cyan)) == (start + i == state.index)
            &&& suggestion.description matches Some(text) ==> (text.len() > 0
                ==> lines[i].last().text == text)
            &&& suggestion.description is None ==> lines[i].len() == 1
        }),
{
    the_chosen_suggestion_is_shown(state);
}

proof fn widest_is_the_widest(suggestions: Seq<SuggestionModel>, i: int)
    requires
        0 <= i < suggestions.len(),
    ensures
        suggestion_width(suggestions[i]) <= widest_suggestion(suggestions),
    decreases suggestions.len(),
{
    if i < suggestions.len() - 1 {
        widest_is_the_widest(suggestions.drop_last(), i);
        assert(suggestions.drop_last()[i] == suggestions[i]);
    }
}

/// The completions stand in a frame whose lower edge is on the upper one of the input, as
/// far as there are rows above it; the frame has a row for each completion that is
/// shown and two more, is no wider than the input, and holds each completion whole
/// where the input is wide enough.
pub proof fn completions_stand_above_the_input(
    suggestions: Seq<SuggestionModel>,
    input: Area,
    i: int,
)
    requires
        0 <= i < suggestions.len() < 65536,
    ensures
        ({
            let area = popup_area(suggestions, input);
            let rows: int = if suggestions.len() < 8 {
                suggestions.len() as int
            } else {
                8
            };
            &&& area.x == input.x
            &&& area.height == rows + 2
            &&& input.y >= rows + 1 ==> area.y + area.height == input.y + 1
            &&& input.y < rows + 1 ==> area.y == 0
            &&& area.width <= input.width
            &&& suggestion_width(suggestions[i]) + 4 <= input.width ==> area.width
                >= suggestion_width(suggestions[i]) + 4
        }),
{
    widest_is_the_widest(suggestions, i);
}

/// The picture has 55 hundredths of the rows but for seven, where that is at least eight,
/// and eight rows where there are as many.
pub proof fn the_picture_has_its_share(total: int)
    requires
        7 <= total,
    ensures
        ({
            let rows = picture_rows(total);
            let left = total - 7;
            &&& left >= 15 ==> 100 * rows <= 55 * left < 100 * (rows + 1)
            &&& 8 <= left < 15 ==> rows == 8
            &&& left < 8 ==> rows == left
        }),
{
}

}
