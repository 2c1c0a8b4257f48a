//! What keys, answers and events do to the screen client, seen from outside.

use crate::app::{
    logged, offset_of, replaced, AppModel, Key, KeyCode, KeyStepModel, LogModel, TypedModel,
    MAX_LOG_ENTRIES,
};
use crate::command::command_of;
use crate::command::dispatch::OutcomeModel;
use crate::completer::{typed_before, SuggestionModel};
use crate::dispatcher::UiEventModel;
use crate::error::ErrorModel;
use crate::fields::{lookup, put_then_lookup};
use crate::input::{typed_into, EditKey, CONTROL};
use crate::json::{json_encoded, JsonModel};
use crate::lines::without_line_end;
use crate::notes::NoteModel;
use crate::screen::ScreenSnapshot;
use crate::text::{
    after_byte, before_byte, begins, byte_len, characters_end_where_they_are_cut, trim,
    trim_is_idempotent,
};
use vstd::prelude::*;

verus! {

/// Whether an entry is the newest of a log, with the log from before below it, as
/// far as the log goes back.
pub open spec fn is_newest(before: Seq<LogModel>, after: Seq<LogModel>, entry: LogModel) -> bool {
    &&& after.len() > 0 && after.last() == entry
    &&& before.len() < MAX_LOG_ENTRIES ==> after.len() == before.len() + 1
    &&& forall|i: int|
        0 <= i < after.len() - 1 ==> #[trigger] after[i] == before[before.len() - (after.len() - 1)
            + i]
}

proof fn logged_entries_are_newest(before: Seq<LogModel>, entry: LogModel)
    requires
        before.len() <= MAX_LOG_ENTRIES,
    ensures
        is_newest(before, logged(before, entry), entry),
{
    let after = logged(before, entry);
    assert(after.last() == entry);
    assert forall|i: int| 0 <= i < after.len() - 1 implies #[trigger] after[i] == before[
    before.len() - (after.len() - 1) + i] by {}
}

/// A key that is let go does nothing at all.
pub proof fn releases_do_nothing(app: AppModel, key: Key, typed: TypedModel)
    requires
        key.kind is Release,
    ensures
        app.after_key(key, typed) == (app, KeyStepModel::Stay),
{
}

/// Enter runs the line that stands there, without the white space round it, leaves an
/// empty line behind, and logs and remembers what was entered. A line that is no
/// command is answered with the reason below it.
pub proof fn enter_runs_the_line(app: AppModel, key: Key, typed: TypedModel)
    requires
        key.code == KeyCode::Enter,
        !(key.kind is Release),
        trim(app.text).len() > 0,
        app.log.len() <= MAX_LOG_ENTRIES,
        app.history.capacity > 0,
    ensures
        ({
            let (after, step) = app.after_key(key, typed);
            let line = trim(app.text);
            &&& after.text.len() == 0 && after.cursor == 0
            &&& after.completions is None && after.history_pos is None
                && after.history_stash is None
            &&& after.ctx == app.ctx && after.should_quit == app.should_quit
            &&& after.history.entries.len() > 0 && after.history.entries.last() == line
            &&& match command_of(app.text) {
                Ok(cmd) => {
                    &&& step matches KeyStepModel::Run { cmd: run, recorded } && run == cmd
                        && recorded == !(app.history.entries.len() > 0
                        && app.history.entries.last() == line)
                    &&& is_newest(app.log, after.log, LogModel::Input(line))
                },
                Err(m) => {
                    &&& step is Refused
                    &&& exists|between: Seq<LogModel>|
                        is_newest(app.log, between, LogModel::Input(line)) && #[trigger] is_newest(
                            between,
                            after.log,
                            LogModel::Error(m),
                        )
                },
            }
        }),
{
    let line = trim(app.text);
    trim_is_idempotent(app.text);
    assert(without_line_end(line) == line);
    let between = logged(app.log, LogModel::Input(line));
    logged_entries_are_newest(app.log, LogModel::Input(line));
    if let Err(m) = command_of(app.text) {
        logged_entries_are_newest(between, LogModel::Error(m));
        assert(is_newest(app.log, between, LogModel::Input(line)));
        assert(is_newest(between, app.after_key(key, typed).0.log, LogModel::Error(m)));
    }
}

/// Going up from a line that is being typed shows the newest line of the history,
/// with the cursor behind it, and keeps the typed one; going on shows the one before
/// it, and at the oldest stays there.
pub proof fn up_goes_back_in_the_history(app: AppModel, key: Key, typed: TypedModel)
    requires
        key.code == KeyCode::Up,
        !(key.kind is Release),
        app.history.entries.len() > 0,
        app.history.entries.len() <= usize::MAX,
        app.sound(),
    ensures
        ({
            let (after, step) = app.after_key(key, typed);
            let n = app.history.entries.len() as int;
            &&& step is Stay
            &&& after.history == app.history && after.log == app.log && after.ctx == app.ctx
            &&& after.cursor == after.text.len()
            &&& app.history_pos is None ==> after.text == app.history.entries[n - 1]
            &&& app.history_pos is None ==> after.history_stash == Some(app.text)
            &&& app.history_pos is None ==> after.history_pos == Some(0usize)
            &&& app.history_pos matches Some(p) ==> after.text == app.history.entries[if p + 1
                < n {
                n - 2 - p
            } else {
                0
            }]
            &&& app.history_pos is Some ==> after.history_stash == app.history_stash
        }),
{
}

/// Going down shows the line after the one that is shown.
pub proof fn down_comes_back(app: AppModel, key: Key, typed: TypedModel)
    requires
        key.code == KeyCode::Down,
        !(key.kind is Release),
        app.history.entries.len() <= usize::MAX,
        app.sound(),
        app.history_pos matches Some(p) && p > 0,
    ensures
        ({
            let (after, step) = app.after_key(key, typed);
            let n = app.history.entries.len() as int;
            let p = app.history_pos->Some_0 as int;
            &&& step is Stay
            &&& after.text == app.history.entries[n - p]
            &&& after.cursor == after.text.len()
            &&& after.history_pos matches Some(q) && q == p - 1
            &&& after.history_stash == app.history_stash
        }),
{
}

/// Without a history, neither key changes anything.
pub proof fn an_empty_history_leads_nowhere(app: AppModel, key: Key, typed: TypedModel)
    requires
        key.code == KeyCode::Up || key.code == KeyCode::Down,
        app.history.entries.len() == 0,
    ensures
        app.after_key(key, typed) == (app, KeyStepModel::Stay),
{
}

/// Whether a line is another with a suggestion in its place, and the cursor behind
/// what was put in.
pub open spec fn holds_suggestion(
    text: Seq<char>,
    cursor: nat,
    from: Seq<char>,
    suggestion: SuggestionModel,
) -> bool {
    let n = byte_len(from);
    let start = if suggestion.start <= n {
        suggestion.start
    } else {
        n
    };
    let end = if suggestion.end <= n {
        suggestion.end
    } else {
        n
    };
    let before = before_byte(from, start);
    let put_in = before + suggestion.value;
    text == put_in + after_byte(from, end) && cursor == put_in.len()
}

/// Tab asks for completions where there are none yet, to go forward, and Shift-Tab to
/// go backward; nothing changes until they are there.
pub proof fn tab_asks_for_completions(app: AppModel, key: Key, typed: TypedModel)
    requires
        !(key.kind is Release),
        app.completions is None,
    ensures
        key.code == KeyCode::Tab ==> app.after_key(key, typed) == (app, KeyStepModel::Complete(1)),
        key.code == KeyCode::BackTab ==> app.after_key(key, typed) == (
            app,
            KeyStepModel::Complete(-1),
        ),
{
}

/// What is offered is put in: the first of the suggestions on Tab, the last on
/// Shift-Tab. A single one is done with; of several, all stay to go through. Where
/// there are none, nothing changes.
pub proof fn offers_are_put_in(
    app: AppModel,
    direction: int,
    suggestions: Seq<SuggestionModel>,
)
    requires
        direction == 1 || direction == -1,
    ensures
        ({
            let after = app.offered(direction, suggestions);
            let n = suggestions.len() as int;
            let chosen: int = if direction == 1 {
                0
            } else {
                n - 1
            };
            &&& n == 0 ==> after == app
            &&& n > 0 ==> holds_suggestion(after.text, after.cursor, app.text, suggestions[chosen])
            &&& n == 1 ==> after.completions is None
            &&& n > 1 ==> (after.completions matches Some(state) && state.suggestions
                == suggestions && state.index == chosen && state.original_buffer == app.text
                && state.original_cursor == app.cursor)
            &&& after.log == app.log && after.ctx == app.ctx && after.history == app.history
        }),
{
}

/// Tab goes on to the next suggestion, Shift-Tab back to the one before, and behind
/// either end comes the other one.
pub proof fn tab_goes_through_the_offers(app: AppModel, key: Key, typed: TypedModel)
    requires
        key.code == KeyCode::Tab || key.code == KeyCode::BackTab,
        !(key.kind is Release),
        app.sound(),
        app.completions matches Some(state) && state.suggestions.len() > 0,
    ensures
        ({
            let (after, step) = app.after_key(key, typed);
            let state = app.completions->Some_0;
            let n = state.suggestions.len() as int;
            let chosen: int = if key.code == KeyCode::Tab {
                if state.index == n - 1 {
                    0
                } else {
                    state.index + 1
                }
            } else if state.index == 0 {
                n - 1
            } else {
                state.index - 1
            };
            &&& step is Stay
            &&& after.completions matches Some(now) && now.index == chosen && now.suggestions
                == state.suggestions && now.original_buffer == state.original_buffer
            &&& holds_suggestion(
                after.text,
                after.cursor,
                state.original_buffer,
                state.suggestions[chosen],
            )
        }),
{
    let state = app.completions->Some_0;
    let n = state.suggestions.len() as int;
    let i = state.index;
    assert((n - 1 + 1) % n == 0) by (nonlinear_arith)
        requires
            n > 0,
    ;
    assert((0 - 1) % n == n - 1) by (nonlinear_arith)
        requires
            n > 0,
    ;
    if 0 <= i + 1 < n {
        assert((i + 1) % n == i + 1) by (nonlinear_arith)
            requires
                0 <= i + 1 < n,
        ;
    }
    if 0 <= i - 1 < n {
        assert((i - 1) % n == i - 1) by (nonlinear_arith)
            requires
                0 <= i - 1 < n,
        ;
    }
}

/// Any other key edits the line: what the editor makes of it stands there, with its
/// cursor, and where that is a change, completions are closed and the history is left
/// behind.
pub proof fn other_keys_edit_the_line(app: AppModel, key: Key, k: EditKey, typed: TypedModel)
    requires
        key.code == KeyCode::Edit(k),
        !(key.kind is Release),
        key.modifiers != CONTROL || !(k == EditKey::Char('c') || k == EditKey::Char('d') || k
            == EditKey::Char('l')),
    ensures
        ({
            let (after, step) = app.after_key(key, typed);
            &&& step is Stay
            &&& typed.changed ==> after.text == typed.text && after.cursor == typed.cursor
                && after.completions is None && after.history_pos is None
            &&& !typed.changed ==> after.text == app.text && after.cursor == app.cursor
                && after.completions == app.completions && after.history_pos == app.history_pos
            &&& after.cut == typed.cut && after.cutting == typed.cutting
            &&& after.log == app.log && after.ctx == app.ctx && after.history == app.history
                && after.should_quit == app.should_quit
        }),
{
}

/// Control-D ends the client on an empty line, and only there; Control-L clears the
/// log and leaves all else as it is.
pub proof fn control_keys(app: AppModel, key: Key, typed: TypedModel)
    requires
        !(key.kind is Release),
        key.modifiers == CONTROL,
    ensures
        key.code == KeyCode::Edit(EditKey::Char('d')) && !app.should_quit ==> app.after_key(
            key,
            typed,
        ).0.should_quit == (app.text.len() == 0),
        key.code == KeyCode::Edit(EditKey::Char('l')) ==> ({
            let after = app.after_key(key, typed).0;
            after.log.len() == 0 && after.text == app.text && after.cursor == app.cursor
                && after.history == app.history && after.ctx == app.ctx && after.snapshots
                == app.snapshots && after.completions == app.completions && after.should_quit
                == app.should_quit
        }),
{
}

/// What a command came to is logged as what it is: an error by its message, a line, a
/// summary, a help text; only an answer that is shown as JSON may be cut short. A
/// picture is kept as its adapter's, with no other touched. `:quit` ends the client
/// and logs nothing.
pub proof fn outcomes_are_logged(
    app: AppModel,
    outcome: Result<OutcomeModel, ErrorModel>,
    decoded: Option<ScreenSnapshot>,
    other: Seq<char>,
)
    requires
        app.log.len() <= MAX_LOG_ENTRIES,
    ensures
        ({
            let after = app.finished(outcome, decoded);
            &&& after.text == app.text && after.cursor == app.cursor && after.history
                == app.history && after.ctx == app.ctx
            &&& match outcome {
                Err(e) => is_newest(app.log, after.log, LogModel::Error(e.message())),
                Ok(OutcomeModel::Line(line)) => is_newest(app.log, after.log, LogModel::Line(line)),
                Ok(OutcomeModel::ShowHelp(text)) => is_newest(
                    app.log,
                    after.log,
                    LogModel::Help(text),
                ),
                Ok(OutcomeModel::Note { note, .. }) => is_newest(
                    app.log,
                    after.log,
                    LogModel::Note(note),
                ),
                Ok(OutcomeModel::Json(value)) => after.log.last() matches LogModel::Json(text)
                    && is_newest(app.log, after.log, LogModel::Json(text)) && (json_encoded(
                    value,
                ).len() <= 280 ==> text == json_encoded(value)) && (json_encoded(value).len() > 280
                    ==> text.take(280) == json_encoded(value).take(280)),
                Ok(OutcomeModel::Quit) => after.log == app.log,
                Ok(OutcomeModel::Screen { adapter, snapshot }) => {
                    &&& lookup(after.snapshots, adapter) == Some(snapshot)
                    &&& other != adapter ==> lookup(after.snapshots, other) == lookup(
                        app.snapshots,
                        other,
                    )
                    &&& after.log.last() matches LogModel::Line(line) && begins(
                        line,
                        "snapshot · "@ + adapter,
                    ) && is_newest(app.log, after.log, LogModel::Line(line))
                },
            }
            &&& after.should_quit == (app.should_quit || (outcome matches Ok(OutcomeModel::Quit)))
        }),
{
    if let Ok(OutcomeModel::Screen { adapter, snapshot }) = outcome {
        put_then_lookup(app.snapshots, adapter, snapshot, adapter);
        put_then_lookup(app.snapshots, adapter, snapshot, other);
        let head = "snapshot · "@ + adapter;
        let line = head + " (rendered in the live pane)"@;
        assert(line.take(head.len() as int) =~= head);
    }
    if let Ok(OutcomeModel::Json(value)) = outcome {
        let text = json_encoded(value);
        if text.len() > 280 {
            assert((text.take(280) + "…"@).take(280) =~= text.take(280));
        }
    }
    let entry = app.finished(outcome, decoded).log.last();
    if !(outcome matches Ok(OutcomeModel::Quit)) {
        logged_entries_are_newest(app.log, entry);
    }
}

/// The answer below a summary tells of the adapter's session and its picture: each is
/// kept as that adapter's, and nothing is learned of another one.
pub proof fn sessions_and_pictures_are_learned(
    app: AppModel,
    note: NoteModel,
    value: JsonModel,
    decoded: Option<ScreenSnapshot>,
    adapter: Seq<char>,
    other: Seq<char>,
)
    requires
        value.field("adapter"@) == Some(JsonModel::Str(adapter)),
        other != adapter,
    ensures
        ({
            let after = app.finished(Ok(OutcomeModel::Note { note, value }), decoded);
            &&& lookup(after.sessions, adapter) == match value.field("session"@) {
                Some(JsonModel::Str(session)) => Some(session),
                _ => lookup(app.sessions, adapter),
            }
            &&& lookup(after.sessions, other) == lookup(app.sessions, other)
            &&& lookup(after.snapshots, adapter) == if value.field("snapshot"@) is Some
                && decoded is Some {
                decoded
            } else {
                lookup(app.snapshots, adapter)
            }
            &&& lookup(after.snapshots, other) == lookup(app.snapshots, other)
        }),
{
    if let Some(JsonModel::Str(session)) = value.field("session"@) {
        put_then_lookup(app.sessions, adapter, session, adapter);
        put_then_lookup(app.sessions, adapter, session, other);
    }
    if let Some(snapshot) = decoded {
        put_then_lookup(app.snapshots, adapter, snapshot, adapter);
        put_then_lookup(app.snapshots, adapter, snapshot, other);
    }
}

/// A picture that comes in is kept as its adapter's; a notice is logged; neither
/// touches the line or anything else.
pub proof fn events_are_taken_in(
    app: AppModel,
    event: UiEventModel,
    other: Seq<char>,
)
    requires
        app.log.len() <= MAX_LOG_ENTRIES,
    ensures
        ({
            let after = app.informed(event);
            &&& after.text == app.text && after.cursor == app.cursor && after.completions
                == app.completions && after.ctx == app.ctx && after.history == app.history
                && after.should_quit == app.should_quit
            &&& match event {
                UiEventModel::Snapshot { adapter, snapshot } => {
                    &&& lookup(after.snapshots, adapter) == Some(snapshot)
                    &&& other != adapter ==> lookup(after.snapshots, other) == lookup(
                        app.snapshots,
                        other,
                    )
                    &&& after.log == app.log
                },
                UiEventModel::Notice(text) => is_newest(
                    app.log,
                    after.log,
                    LogModel::Notice(text),
                ) && after.snapshots == app.snapshots,
            }
        }),
{
    match event {
        UiEventModel::Snapshot { adapter, snapshot } => {
            put_then_lookup(app.snapshots, adapter, snapshot, adapter);
            put_then_lookup(app.snapshots, adapter, snapshot, other);
        },
        UiEventModel::Notice(text) => {
            logged_entries_are_newest(app.log, LogModel::Notice(text));
        },
    }
}

/// What is watched is the focused adapter, with the session that was learned of it.
pub proof fn the_focus_has_its_session(app: AppModel)
    ensures
        app.focus().adapter == app.ctx.focus,
        app.ctx.focus is None ==> app.focus().session is None,
        app.ctx.focus matches Some(id) ==> app.focus().session == lookup(app.sessions, id),
{
}

/// What is completed is what stands before the cursor, and a suggestion that ends there
/// leaves all that stands behind it as it was, right behind the new cursor.
pub proof fn what_stands_before_the_cursor_is_completed(
    text: Seq<char>,
    cursor: int,
    suggestion: SuggestionModel,
)
    requires
        0 <= cursor <= text.len(),
    ensures
        ({
            let at = offset_of(text, cursor);
            let typed = typed_before(text, at);
            &&& typed == text.take(cursor)
            &&& suggestion.end == byte_len(typed) ==> ({
                let (line, place) = replaced(text, suggestion);
                line.skip(place as int) == text.skip(cursor)
            })
        }),
{
    characters_end_where_they_are_cut(text, cursor);
    if offset_of(text, cursor) == byte_len(text) {
        characters_end_where_they_are_cut(text, text.len() as int);
        assert(text.take(text.len() as int) =~= text);
    }
    if suggestion.end == byte_len(text.take(cursor)) {
        let (line, place) = replaced(text, suggestion);
        assert(line.skip(place as int) =~= text.skip(cursor));
    }
}

/// A character that is typed stands where the cursor was, and everything else stays.
pub proof fn characters_go_in_at_the_cursor(text: Seq<char>, cursor: nat, c: char)
    requires
        cursor <= text.len(),
    ensures
        ({
            let line = typed_into(text, cursor, c);
            &&& line.len() == text.len() + 1
            &&& line[cursor as int] == c
            &&& line.remove(cursor as int) == text
        }),
{
    let line = typed_into(text, cursor, c);
    assert(line.remove(cursor as int) =~= text);
}

/// Pasted text goes in at the cursor, which then stands behind it; everything else stays.
pub proof fn pastes_go_in_at_the_cursor(app: AppModel, text: Seq<char>)
    requires
        app.cursor <= app.text.len(),
    ensures
        ({
            let after = app.pasted(text);
            let at = app.cursor as int;
            &&& after.cursor == app.cursor + text.len()
            &&& after.text.len() == app.text.len() + text.len()
            &&& after.text.subrange(at, at + text.len()) == text
            &&& after.text.take(at) == app.text.take(at)
            &&& after.text.skip(at + text.len()) == app.text.skip(at)
            &&& after.completions is None
            &&& after.log == app.log && after.history == app.history && after.ctx == app.ctx
        }),
{
    let after = app.pasted(text);
    let at = app.cursor as int;
    assert(after.text.subrange(at, at + text.len()) =~= text);
    assert(after.text.take(at) =~= app.text.take(at));
    assert(after.text.skip(at + text.len()) =~= app.text.skip(at));
}

}
