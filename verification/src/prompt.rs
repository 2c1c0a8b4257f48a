//! The prompt, the banner above it, and what is printed for what was entered.

use crate::ctx::opt_text;
use crate::error::{Error, ErrorModel};
use crate::lua::eval::{EvalResult, RenderedValue};
use crate::meta::{MetaOutcome, MetaOutcomeModel};
use crate::paint::{bold_colour, colour, dimmed, paint, painted, plain, Ink, Shade, SpanModel};
use crate::text::split;
use crate::tui::{
    error_line, error_result, help_lines, json_line, json_result, line_models, line_result,
    no_pieces, one_piece, piece, preview_lines, print_screen, result_from, section_lines,
    tips_lines, Line,
};
use vstd::prelude::*;

verus! {

broadcast use vstd::string::group_string_axioms;

/// What is always said at the start.
pub const BANNER_HINT: &'static str =
    "Type :tips for a tour · :help for the command reference · :quit to exit";

/// What is printed when a line is given up.
pub const CANCELLED: &'static str = "(input cancelled)";

/// What is printed at the end.
pub const FAREWELL: &'static str = "bye.";

/// What stands before the further lines of a chunk.
pub const MULTILINE_INDICATOR: &'static str = "  … ";

/// What stands before a line that is looked for in the history.
pub const HISTORY_INDICATOR: &'static str = "(history) ";

/// The prompt.
pub fn prompt_left() -> (r: String)
    ensures
        r@ == painted(bold_colour(Shade::Green), "pty> "@),
{
    paint(Ink::bold_colour(Shade::Green), "pty> ")
}

/// What stands at the right of the prompt.
pub fn prompt_right(transport_label: &str) -> (r: String)
    ensures
        r@ == painted(dimmed(), transport_label@),
{
    paint(Ink::dimmed(), transport_label)
}

/// Italic in the default colour.
pub open spec fn slanted() -> Ink {
    Ink { italic: true, ..plain() }
}

/// What is printed at the start.
pub open spec fn banner(label: Seq<char>, tip: Seq<char>, hint: Option<Seq<char>>) -> Seq<
    Seq<SpanModel>,
> {
    let head = seq![
        seq![
            piece("ptywright repl"@, bold_colour(Shade::Cyan)),
            piece("  "@, plain()),
            piece(label, dimmed()),
        ],
        seq![
            piece("tip ·"@, colour(Shade::Yellow)),
            piece(" "@, plain()),
            piece(tip, slanted()),
        ],
        seq![piece(BANNER_HINT@, dimmed())],
    ];
    let hinted = match hint {
        Some(text) => head.push(seq![piece(text, colour(Shade::Yellow))]),
        None => head,
    };
    hinted.push(Seq::empty())
}

fn joined_lines(a: Line, b: Line, c: Line) -> (r: Line)
    ensures
        crate::paint::span_models(r@) == crate::paint::span_models(a@)
            + crate::paint::span_models(b@) + crate::paint::span_models(c@),
{
    let mut r: Line = a;
    let mut b: Line = b;
    let mut c: Line = c;
    let ghost x = r@;
    let ghost y = b@;
    let ghost z = c@;
    r.append(&mut b);
    r.append(&mut c);
    assert(crate::paint::span_models(r@) =~= crate::paint::span_models(x)
        + crate::paint::span_models(y) + crate::paint::span_models(z));
    r
}

/// What is printed at the start.
pub fn banner_lines(transport_label: &str, tip: &str, hint: Option<String>) -> (r: Vec<Line>)
    ensures
        line_models(r@) == banner(transport_label@, tip@, opt_text(hint)),
{
    let mut slant: Ink = Ink::plain();
    slant.italic = true;
    let title: Line = joined_lines(
        one_piece("ptywright repl", Ink::bold_colour(Shade::Cyan)),
        one_piece("  ", Ink::plain()),
        one_piece(transport_label, Ink::dimmed()),
    );
    let advice: Line = joined_lines(
        one_piece("tip ·", Ink::colour(Shade::Yellow)),
        one_piece(" ", Ink::plain()),
        one_piece(tip, slant),
    );
    let ghost wanted = banner(transport_label@, tip@, opt_text(hint));
    assert(crate::paint::span_models(title@) =~= wanted[0]);
    assert(crate::paint::span_models(advice@) =~= wanted[1]);
    let mut out: Vec<Line> = Vec::new();
    out.push(title);
    out.push(advice);
    out.push(one_piece(BANNER_HINT, Ink::dimmed()));
    if let Some(text) = hint {
        out.push(one_piece(text.as_str(), Ink::colour(Shade::Yellow)));
    }
    out.push(no_pieces());
    assert(line_models(out@) =~= wanted);
    out
}

// ---- what is printed for an outcome -------------------------------------

/// What is printed for a meta command, or that the client ends.
pub open spec fn meta_printed(
    outcome: Result<MetaOutcomeModel, ErrorModel>,
    term_cols: int,
) -> Option<Seq<Seq<SpanModel>>> {
    match outcome {
        Ok(MetaOutcomeModel::Quit) => None,
        Ok(MetaOutcomeModel::ShowHelp(text)) => Some(
            section_lines("ptywright repl · help"@, text),
        ),
        Ok(MetaOutcomeModel::ShowTips(text)) => Some(
            section_lines("ptywright repl · tips"@, text),
        ),
        Ok(MetaOutcomeModel::Line(text)) => Some(result_from(split(text, '\n'), 0)),
        Ok(MetaOutcomeModel::Json(value)) => Some(seq![json_line(value)]),
        Ok(MetaOutcomeModel::Screen { adapter, snapshot }) => Some(
            preview_lines(adapter, snapshot, term_cols),
        ),
        Err(e) => Some(seq![error_line(e.message())]),
    }
}

/// What a meta command came to.
pub open spec fn outcome_model(r: Result<MetaOutcome, Error>) -> Result<
    MetaOutcomeModel,
    ErrorModel,
> {
    match r {
        Ok(outcome) => Ok(outcome@),
        Err(e) => Err(e@),
    }
}

fn only_line(line: Line) -> (r: Vec<Line>)
    ensures
        line_models(r@) == seq![crate::paint::span_models(line@)],
{
    let ghost model = crate::paint::span_models(line@);
    let mut out: Vec<Line> = Vec::new();
    out.push(line);
    assert(line_models(out@) =~= seq![model]);
    out
}

/// What is printed for a meta command, or that the client ends.
pub fn meta_output(outcome: Result<MetaOutcome, Error>, term_cols: usize) -> (r: Option<Vec<Line>>)
    ensures
        meta_printed(outcome_model(outcome), term_cols as int) == (match r {
            Some(lines) => Some(line_models(lines@)),
            None => None,
        }),
{
    match outcome {
        Ok(MetaOutcome::Quit) => None,
        Ok(MetaOutcome::ShowHelp(text)) => Some(help_lines(text.as_str())),
        Ok(MetaOutcome::ShowTips(text)) => Some(tips_lines(text.as_str())),
        Ok(MetaOutcome::Line(text)) => Some(line_result(text.as_str())),
        Ok(MetaOutcome::Json(value)) => Some(only_line(json_result(&value))),
        Ok(MetaOutcome::Screen { adapter, snapshot }) => Some(
            print_screen(adapter.as_str(), &snapshot, term_cols),
        ),
        Err(error) => Some(only_line(error_result(error.message().as_str()))),
    }
}

/// What is printed for a value that Lua gave.
pub open spec fn value_printed(value: RenderedValue, term_cols: int) -> Seq<Seq<SpanModel>> {
    match value {
        RenderedValue::Text(text) => result_from(split(text@, '\n'), 0),
        RenderedValue::Screen { adapter, snapshot } => preview_lines(
            adapter@,
            snapshot,
            term_cols,
        ),
    }
}

/// What is printed for the values that Lua gave, one after the other.
pub open spec fn values_printed(values: Seq<RenderedValue>, term_cols: int) -> Seq<Seq<SpanModel>>
    decreases values.len(),
{
    if values.len() == 0 {
        Seq::empty()
    } else {
        values_printed(values.drop_last(), term_cols) + value_printed(values.last(), term_cols)
    }
}

/// What is printed for a line of Lua.
pub fn eval_output(result: Result<EvalResult, Error>, term_cols: usize) -> (r: Vec<Line>)
    ensures
        line_models(r@) == (match result {
            Ok(found) => values_printed(found.values@, term_cols as int),
            Err(e) => seq![error_line(e@.message())],
        }),
{
    let found: EvalResult = match result {
        Ok(found) => found,
        Err(error) => {
            return only_line(error_result(error.message().as_str()));
        },
    };
    let ghost all = found.values@;
    let mut out: Vec<Line> = Vec::new();
    let mut i: usize = 0;
    assert(all.take(0) =~= Seq::<RenderedValue>::empty());
    assert(line_models(out@) =~= Seq::<Seq<SpanModel>>::empty());
    while i < found.values.len()
        invariant
            i <= found.values@.len(),
            all == found.values@,
            line_models(out@) == values_printed(all.take(i as int), term_cols as int),
        decreases found.values@.len() - i,
    {
        let mut more: Vec<Line> = match &found.values[i] {
            RenderedValue::Text(text) => line_result(text.as_str()),
            RenderedValue::Screen { adapter, snapshot } => print_screen(
                adapter.as_str(),
                snapshot,
                term_cols,
            ),
        };
        proof {
            assert(all.take(i + 1).drop_last() =~= all.take(i as int));
            assert(all.take(i + 1).last() == all[i as int]);
        }
        let ghost held = out@;
        let ghost added = more@;
        out.append(&mut more);
        assert(line_models(out@) =~= line_models(held) + line_models(added));
        i += 1;
    }
    assert(all.take(i as int) =~= all);
    out
}

} // verus!
