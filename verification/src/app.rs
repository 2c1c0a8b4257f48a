//! The state of the full-screen client, and what keys, replies and
//! notifications do to it.

pub mod keys;

use crate::command::dispatch::{result_model, CmdOutcome, OutcomeModel};
use crate::command::{command_of, parse, Cmd, CmdModel};
use crate::completer::{suggestion_models, Suggestion, SuggestionModel};
use crate::ctx::{opt_text, CtxModel, ReplCtx};
use crate::dispatcher::{FocusInfo, FocusModel, UiEvent, UiEventModel};
use crate::error::{Error, ErrorModel};
use crate::fields::{lookup, put, Fields};
use crate::history::{HistoryModel, ReplHistory};
use crate::input::{
    input_cursor, input_cut, input_cutting, input_text, insert_char, key_typed, press, typed_into,
    EditKey, CONTROL,
};
use crate::json::{json_encoded, JsonModel};
use crate::notes::{Note, NoteModel};
use crate::screen::ScreenSnapshot;
use crate::text::{
    after_byte, before_byte, byte_count, byte_len, characters_end_where_they_are_cut, chars_of,
    cut_after, cut_before, ends_character, is_character_end, slice_text, trim, trimmed,
};
use crate::tui::{cut_off, cut_off_text, least};
use std::collections::VecDeque;
use tui_input::Input;
use vstd::prelude::*;

verus! {

broadcast use vstd::string::group_string_axioms;

/// How many entries the log keeps.
pub const MAX_LOG_ENTRIES: usize = 500;

/// How many characters of an answer the log shows.
pub const LOGGED_JSON_LIMIT: usize = 280;

/// The second line of the log.
pub const BANNER_HINT: &'static str =
    "Type :help for commands · :quit to exit · Tab cycles completions";

// ---- the log ------------------------------------------------------------

/// An entry of the log.
#[derive(Debug)]
pub enum LogEntry {
    /// A line that was entered.
    Input(String),
    /// The summary of a success.
    Note(Note),
    /// A line to read.
    Line(String),
    /// An answer of the server.
    Json(String),
    /// What went wrong.
    Error(String),
    /// A notification of the server.
    Notice(String),
    /// A help text of several lines.
    Help(String),
    /// A line shown at the start.
    Banner(String),
    /// A line that points out something.
    Hint(String),
}

pub enum LogModel {
    Input(Seq<char>),
    Note(NoteModel),
    Line(Seq<char>),
    Json(Seq<char>),
    Error(Seq<char>),
    Notice(Seq<char>),
    Help(Seq<char>),
    Banner(Seq<char>),
    Hint(Seq<char>),
}

impl View for LogEntry {
    type V = LogModel;

    open spec fn view(&self) -> LogModel {
        match self {
            LogEntry::Input(s) => LogModel::Input(s@),
            LogEntry::Note(n) => LogModel::Note(n@),
            LogEntry::Line(s) => LogModel::Line(s@),
            LogEntry::Json(s) => LogModel::Json(s@),
            LogEntry::Error(s) => LogModel::Error(s@),
            LogEntry::Notice(s) => LogModel::Notice(s@),
            LogEntry::Help(s) => LogModel::Help(s@),
            LogEntry::Banner(s) => LogModel::Banner(s@),
            LogEntry::Hint(s) => LogModel::Hint(s@),
        }
    }
}

pub open spec fn log_models(log: Seq<LogEntry>) -> Seq<LogModel> {
    log.map_values(|e: LogEntry| e@)
}

/// The log with one more entry, without the oldest where there are too many.
pub open spec fn logged(log: Seq<LogModel>, entry: LogModel) -> Seq<LogModel> {
    let all = log.push(entry);
    if all.len() > MAX_LOG_ENTRIES {
        all.skip(all.len() - MAX_LOG_ENTRIES)
    } else {
        all
    }
}

// ---- keys ---------------------------------------------------------------

/// How a key was touched.
#[derive(Debug, Clone, Copy, PartialEq, Eq, Structural)]
pub enum KeyKind {
    Press,
    Repeat,
    Release,
}

/// A key: one with a meaning of its own here, or one that edits the line.
#[derive(Debug, Clone, Copy, PartialEq, Eq, Structural)]
pub enum KeyCode {
    Enter,
    Esc,
    Tab,
    BackTab,
    Up,
    Down,
    Edit(EditKey),
}

/// Something typed.
#[derive(Debug, Clone, Copy, PartialEq, Eq)]
pub struct Key {
    pub code: KeyCode,
    /// The modifiers as bits: shift 1, control 2, alt 4, super 8, hyper 16,
    /// meta 32.
    pub modifiers: u8,
    pub kind: KeyKind,
}

/// What is to be done once a key has been taken in.
#[derive(Debug)]
pub enum KeyStep {
    /// Nothing.
    Stay,
    /// Look for completions and offer them, for a step in this direction.
    Complete(i32),
    /// Run the command and hand its outcome in. `recorded` says that the
    /// history has grown.
    Run { cmd: Cmd, recorded: bool },
    /// The line was no command.
    Refused { recorded: bool },
}

pub enum KeyStepModel {
    Stay,
    Complete(int),
    Run { cmd: CmdModel, recorded: bool },
    Refused { recorded: bool },
}

impl View for KeyStep {
    type V = KeyStepModel;

    open spec fn view(&self) -> KeyStepModel {
        match self {
            KeyStep::Stay => KeyStepModel::Stay,
            KeyStep::Complete(direction) => KeyStepModel::Complete(*direction as int),
            KeyStep::Run { cmd, recorded } => KeyStepModel::Run { cmd: cmd@, recorded: *recorded },
            KeyStep::Refused { recorded } => KeyStepModel::Refused { recorded: *recorded },
        }
    }
}

// ---- completions --------------------------------------------------------

/// The completions on offer. Each of them goes into the line as it was when
/// they were looked for.
#[derive(Debug)]
pub struct CompletionState {
    pub suggestions: Vec<Suggestion>,
    pub index: usize,
    pub original_buffer: String,
    pub original_cursor: usize,
}

pub struct CompletionModel {
    pub suggestions: Seq<SuggestionModel>,
    pub index: int,
    pub original_buffer: Seq<char>,
    pub original_cursor: int,
}

impl View for CompletionState {
    type V = CompletionModel;

    open spec fn view(&self) -> CompletionModel {
        CompletionModel {
            suggestions: suggestion_models(self.suggestions@),
            index: self.index as int,
            original_buffer: self.original_buffer@,
            original_cursor: self.original_cursor as int,
        }
    }
}

/// Whether a suggestion takes the place of whole characters of a line.
pub open spec fn fits(buffer: Seq<char>, suggestion: SuggestionModel) -> bool {
    let n = byte_len(buffer);
    ends_character(buffer, least(suggestion.start, n)) && ends_character(
        buffer,
        least(suggestion.end, n),
    )
}

/// A line with a suggestion in its place, and the cursor behind that.
pub open spec fn replaced(buffer: Seq<char>, suggestion: SuggestionModel) -> (Seq<char>, nat) {
    let n = byte_len(buffer);
    let before = before_byte(buffer, least(suggestion.start, n));
    let after = after_byte(buffer, least(suggestion.end, n));
    (before + suggestion.value + after, before.len() + suggestion.value.len())
}

impl CompletionModel {
    /// Whether the chosen one is among the suggestions, and all of them fit.
    pub open spec fn sound(self) -> bool {
        &&& self.suggestions.len() == 0 || 0 <= self.index < self.suggestions.len()
        &&& forall|i: int|
            0 <= i < self.suggestions.len() ==> fits(
                self.original_buffer,
                #[trigger] self.suggestions[i],
            )
    }

    /// Which suggestion comes next in a direction, round and round.
    pub open spec fn next(self, direction: int) -> int {
        (self.index + direction) % (self.suggestions.len() as int)
    }
}

// ---- the state ----------------------------------------------------------

/// The state of the client.
pub struct App {
    pub ctx: ReplCtx,
    pub history: ReplHistory,
    pub transport_label: String,
    pub input: Input,
    pub log: VecDeque<LogEntry>,
    /// The last picture of each adapter.
    pub snapshots: Fields<ScreenSnapshot>,
    pub completions: Option<CompletionState>,
    /// How far back in the history the line was taken from.
    pub history_pos: Option<usize>,
    /// The line from before going back in the history.
    pub history_stash: Option<String>,
    pub should_quit: bool,
    /// The session of each adapter.
    pub adapter_sessions: Fields<String>,
}

#[verifier::ext_equal]
pub struct AppModel {
    pub ctx: CtxModel,
    pub history: HistoryModel,
    pub transport_label: Seq<char>,
    pub text: Seq<char>,
    pub cursor: nat,
    /// What was cut out of the line, and whether more would be added to it.
    pub cut: Seq<char>,
    pub cutting: bool,
    pub log: Seq<LogModel>,
    pub snapshots: Seq<(Seq<char>, ScreenSnapshot)>,
    pub completions: Option<CompletionModel>,
    pub history_pos: Option<usize>,
    pub history_stash: Option<Seq<char>>,
    pub should_quit: bool,
    pub sessions: Seq<(Seq<char>, Seq<char>)>,
}

impl View for App {
    type V = AppModel;

    open spec fn view(&self) -> AppModel {
        AppModel {
            ctx: self.ctx@,
            history: self.history@,
            transport_label: self.transport_label@,
            text: input_text(self.input),
            cursor: input_cursor(self.input),
            cut: input_cut(self.input),
            cutting: input_cutting(self.input),
            log: log_models(self.log@),
            snapshots: self.snapshots@,
            completions: match self.completions {
                Some(state) => Some(state@),
                None => None,
            },
            history_pos: self.history_pos,
            history_stash: opt_text(self.history_stash),
            should_quit: self.should_quit,
            sessions: named_texts(self.adapter_sessions@),
        }
    }
}

/// Names with the texts that are bound to them.
pub open spec fn named_texts(entries: Seq<(Seq<char>, String)>) -> Seq<(Seq<char>, Seq<char>)> {
    entries.map_values(|e: (Seq<char>, String)| (e.0, e.1@))
}

proof fn named_texts_put(entries: Seq<(Seq<char>, String)>, name: Seq<char>, value: String)
    ensures
        named_texts(put(entries, name, value)) == put(named_texts(entries), name, value@),
    decreases entries.len(),
{
    let texts = named_texts(entries);
    if entries.len() > 0 {
        let rest = entries.drop_first();
        named_texts_put(rest, name, value);
        assert(named_texts(rest) =~= texts.drop_first());
    }
    assert(named_texts(put(entries, name, value)) =~= put(texts, name, value@));
}

proof fn named_texts_lookup(entries: Seq<(Seq<char>, String)>, name: Seq<char>)
    ensures
        lookup(named_texts(entries), name) == (match lookup(entries, name) {
            Some(value) => Some(value@),
            None => None,
        }),
    decreases entries.len(),
{
    if entries.len() > 0 {
        named_texts_lookup(entries.drop_first(), name);
        assert(named_texts(entries.drop_first()) =~= named_texts(entries).drop_first());
    }
}

/// What a key does to the line, and whether anything changed.
pub struct TypedModel {
    pub text: Seq<char>,
    pub cursor: nat,
    pub cut: Seq<char>,
    pub cutting: bool,
    pub changed: bool,
}

/// What an editor holds.
pub open spec fn typed_model(input: Input, changed: bool) -> TypedModel {
    TypedModel {
        text: input_text(input),
        cursor: input_cursor(input),
        cut: input_cut(input),
        cutting: input_cutting(input),
        changed,
    }
}

/// What a key does to the line.
pub open spec fn typing(input: Input, key: Key) -> TypedModel {
    match key.code {
        KeyCode::Edit(k) => {
            let (next, changed) = key_typed(input, k, key.modifiers);
            typed_model(next, changed)
        },
        _ => typed_model(input, false),
    }
}

impl AppModel {
    /// The completions are sound, and the place in the history is one.
    pub open spec fn sound(self) -> bool {
        &&& self.completions matches Some(state) ==> state.sound()
        &&& self.history_pos matches Some(p) ==> p < self.history.entries.len()
    }

    pub open spec fn pushed(self, entry: LogModel) -> AppModel {
        AppModel { log: logged(self.log, entry), ..self }
    }

    /// With another line. What was cut out stays.
    pub open spec fn with_line(self, text: Seq<char>, cursor: nat) -> AppModel {
        AppModel { text, cursor, ..self }
    }

    /// With a line in a fresh editor. What was cut out is gone.
    pub open spec fn with_fresh_line(self, text: Seq<char>, cursor: nat) -> AppModel {
        AppModel { text, cursor, cut: Seq::empty(), cutting: false, ..self }
    }

    /// Without completions.
    pub open spec fn uncompleted(self) -> AppModel {
        AppModel { completions: None, ..self }
    }

    /// Back from the history.
    pub open spec fn returned(self) -> AppModel {
        AppModel { history_pos: None, history_stash: None, ..self }
    }

    /// Once a line has been entered.
    pub open spec fn submitted(self) -> (AppModel, KeyStepModel) {
        let line = trim(self.text);
        let base = self.uncompleted().returned();
        if line.len() == 0 {
            (base, KeyStepModel::Stay)
        } else {
            let recorded = self.history.takes(line);
            let entered = (AppModel { history: self.history.push(line), ..base }).with_line(
                Seq::empty(),
                0,
            ).pushed(LogModel::Input(line));
            match command_of(line) {
                Ok(cmd) => (entered, KeyStepModel::Run { cmd, recorded }),
                Err(message) => (
                    entered.pushed(LogModel::Error(message)),
                    KeyStepModel::Refused { recorded },
                ),
            }
        }
    }

    /// Once the next or the previous completion has been asked for.
    pub open spec fn advanced(self, direction: int) -> (AppModel, KeyStepModel) {
        match self.completions {
            Some(state) => if state.suggestions.len() == 0 {
                (self.uncompleted(), KeyStepModel::Stay)
            } else {
                let index = state.next(direction);
                let (text, cursor) = replaced(state.original_buffer, state.suggestions[index]);
                (
                    (AppModel {
                        completions: Some(CompletionModel { index, ..state }),
                        ..self
                    }).with_fresh_line(text, cursor),
                    KeyStepModel::Stay,
                )
            },
            None => (self, KeyStepModel::Complete(direction)),
        }
    }

    /// Once completions have been looked for. A single one is taken as it is.
    pub open spec fn offered(self, direction: int, suggestions: Seq<SuggestionModel>) -> AppModel {
        let n = suggestions.len() as int;
        if n == 0 {
            self
        } else {
            let index = if direction == -1 {
                n - 1
            } else {
                0
            };
            let (text, cursor) = replaced(self.text, suggestions[index]);
            let completions = if n == 1 {
                None
            } else {
                Some(
                    CompletionModel {
                        suggestions,
                        index,
                        original_buffer: self.text,
                        original_cursor: self.cursor as int,
                    },
                )
            };
            (AppModel { completions, ..self }).with_fresh_line(text, cursor)
        }
    }

    /// How far back in the history a step leads. Beyond either end it leads
    /// to the oldest entry.
    pub open spec fn history_target(self, delta: int) -> int {
        let max = self.history.entries.len() as int;
        let current = match self.history_pos {
            Some(p) => p as int,
            None => -1,
        };
        if 0 <= current + delta < max {
            current + delta
        } else {
            max - 1
        }
    }

    /// Once a step in the history has been taken.
    pub open spec fn navigated(self, delta: int) -> AppModel {
        let max = self.history.entries.len() as int;
        if max == 0 {
            self
        } else {
            let target = self.history_target(delta);
            let entry = self.history.entries[max - 1 - target];
            (AppModel {
                history_pos: Some(target as usize),
                history_stash: if self.history_pos is None {
                    Some(self.text)
                } else {
                    self.history_stash
                },
                ..self
            }).with_fresh_line(entry, entry.len())
        }
    }

    /// Once a key has been taken in. `typed` is what it does to the line.
    pub open spec fn after_key(self, key: Key, typed: TypedModel) -> (AppModel, KeyStepModel) {
        let control = key.modifiers == CONTROL;
        let empty = self.text.len() == 0;
        let quit = AppModel { should_quit: true, ..self };
        if key.kind is Release {
            (self, KeyStepModel::Stay)
        } else {
            match key.code {
                KeyCode::Enter => self.submitted(),
                KeyCode::Esc => (
                    if self.completions is Some {
                        self.uncompleted()
                    } else {
                        self.returned()
                    },
                    KeyStepModel::Stay,
                ),
                KeyCode::Tab => self.advanced(1),
                KeyCode::BackTab => self.advanced(-1),
                KeyCode::Up => (self.navigated(1), KeyStepModel::Stay),
                KeyCode::Down => (self.navigated(-1), KeyStepModel::Stay),
                KeyCode::Edit(k) => (
                    if k == EditKey::Char('c') && control {
                        if empty {
                            quit
                        } else {
                            self.with_line(Seq::empty(), 0).uncompleted().returned()
                        }
                    } else if k == EditKey::Char('d') && control && empty {
                        quit
                    } else if k == EditKey::Char('l') && control {
                        AppModel { log: Seq::empty(), ..self }
                    } else {
                        let edited = AppModel { cut: typed.cut, cutting: typed.cutting, ..self };
                        if typed.changed {
                            edited.with_line(typed.text, typed.cursor).uncompleted().returned()
                        } else {
                            edited
                        }
                    },
                    KeyStepModel::Stay,
                ),
            }
        }
    }

    /// Whether a key goes to the editor of the line.
    pub open spec fn edits(self, key: Key) -> bool {
        let control = key.modifiers == CONTROL;
        !(key.kind is Release) && (key.code matches KeyCode::Edit(k) && !(control && (k
            == EditKey::Char('c') || k == EditKey::Char('l') || (k == EditKey::Char('d')
            && self.text.len() == 0))))
    }

    /// Whether a key leaves the editor of the line alone.
    pub open spec fn spares_the_line(self, key: Key) -> bool {
        ||| key.kind is Release
        ||| match key.code {
            KeyCode::Enter => trim(self.text).len() == 0,
            KeyCode::Esc => true,
            KeyCode::Tab | KeyCode::BackTab => self.completions matches Some(state)
                ==> state.suggestions.len() == 0,
            KeyCode::Up | KeyCode::Down => self.history.entries.len() == 0,
            KeyCode::Edit(k) => !self.edits(key) && !(k == EditKey::Char('c') && self.text.len()
                > 0),
        }
    }

    /// Once text has been pasted in at the cursor.
    pub open spec fn pasted(self, text: Seq<char>) -> AppModel {
        let at = self.cursor as int;
        (AppModel { cutting: self.cutting && text.len() == 0, ..self }).with_line(
            self.text.take(at) + text + self.text.skip(at),
            self.cursor + text.len(),
        ).uncompleted().returned()
    }

    /// Once an event has been taken in.
    pub open spec fn informed(self, event: UiEventModel) -> AppModel {
        match event {
            UiEventModel::Snapshot { adapter, snapshot } => AppModel {
                snapshots: put(self.snapshots, adapter, snapshot),
                ..self
            },
            UiEventModel::Notice(text) => self.pushed(LogModel::Notice(text)),
        }
    }

    /// What the focus is, with its session.
    pub open spec fn focus(self) -> FocusModel {
        FocusModel {
            adapter: self.ctx.focus,
            session: match self.ctx.focus {
                Some(id) => lookup(self.sessions, id),
                None => None,
            },
        }
    }
}

/// The sessions after an answer: those from before, with the pair that the
/// answer names, if it names one.
pub open spec fn sessions_learned(
    before: Seq<(Seq<char>, Seq<char>)>,
    value: JsonModel,
) -> Seq<(Seq<char>, Seq<char>)> {
    match (value.text_field("adapter"@), value.text_field("session"@)) {
        (Some(adapter), Some(session)) => put(before, adapter, session),
        _ => before,
    }
}

/// The pictures after an answer. `decoded` is the picture that the answer
/// carries, if it carries one.
pub open spec fn pictures_learned(
    before: Seq<(Seq<char>, ScreenSnapshot)>,
    value: JsonModel,
    decoded: Option<ScreenSnapshot>,
) -> Seq<(Seq<char>, ScreenSnapshot)> {
    match (value.field("snapshot"@), decoded, value.text_field("adapter"@)) {
        (Some(_), Some(snapshot), Some(adapter)) => put(before, adapter, snapshot),
        _ => before,
    }
}

impl AppModel {
    /// Once a command has come to something.
    pub open spec fn finished(
        self,
        outcome: Result<OutcomeModel, ErrorModel>,
        decoded: Option<ScreenSnapshot>,
    ) -> AppModel {
        match outcome {
            Ok(OutcomeModel::Quit) => AppModel { should_quit: true, ..self },
            Ok(OutcomeModel::ShowHelp(text)) => self.pushed(LogModel::Help(text)),
            Ok(OutcomeModel::Line(text)) => self.pushed(LogModel::Line(text)),
            Ok(OutcomeModel::Json(value)) => self.pushed(
                LogModel::Json(cut_off(json_encoded(value), LOGGED_JSON_LIMIT as int)),
            ),
            Ok(OutcomeModel::Note { note, value }) => AppModel {
                sessions: sessions_learned(self.sessions, value),
                snapshots: pictures_learned(self.snapshots, value, decoded),
                ..self.pushed(LogModel::Note(note))
            },
            Ok(OutcomeModel::Screen { adapter, snapshot }) => (AppModel {
                snapshots: put(self.snapshots, adapter, snapshot),
                ..self
            }).pushed(
                LogModel::Line("snapshot · "@ + adapter + " (rendered in the live pane)"@),
            ),
            Err(e) => self.pushed(LogModel::Error(e.message())),
        }
    }
}

// ---- helpers ------------------------------------------------------------

/// How many bytes stand before a place that is counted in characters.
pub open spec fn offset_of(s: Seq<char>, cursor: int) -> int {
    byte_len(s.take(least(cursor, s.len() as int)))
}

/// How many bytes stand before a place that is counted in characters.
pub fn byte_offset(s: &str, cursor_codepoints: usize) -> (r: usize)
    ensures
        r == offset_of(s@, cursor_codepoints as int),
{
    let chars: Vec<char> = chars_of(s);
    let at: usize = if cursor_codepoints < chars.len() {
        cursor_codepoints
    } else {
        chars.len()
    };
    let head: String = slice_text(&chars, 0, at);
    assert(head@ =~= s@.take(at as int));
    byte_count(head.as_str())
}

/// A text cut off behind some characters, with a mark if anything is gone.
pub fn truncate(s: String, max: usize) -> (r: String)
    ensures
        r@ == cut_off(s@, max as int),
{
    cut_off_text(s.as_str(), max)
}

/// Whether a suggestion takes the place of whole characters of a line.
pub fn suggestion_fits(buffer: &str, suggestion: &Suggestion) -> (r: bool)
    ensures
        r == fits(buffer@, suggestion@),
{
    let n: usize = byte_count(buffer);
    let start: usize = if suggestion.place.start <= n {
        suggestion.place.start
    } else {
        n
    };
    let end: usize = if suggestion.place.end <= n {
        suggestion.place.end
    } else {
        n
    };
    is_character_end(buffer, start) && is_character_end(buffer, end)
}

/// Puts a suggestion in its place in a line.
pub fn apply_suggestion(input: &mut Input, current: &str, suggestion: &Suggestion)
    requires
        fits(current@, suggestion@),
    ensures
        replaced(current@, suggestion@) == (input_text(*final(input)), input_cursor(*final(input))),
        input_cut(*final(input)) == Seq::<char>::empty(),
        !input_cutting(*final(input)),
{
    let n: usize = byte_count(current);
    let start: usize = if suggestion.place.start <= n {
        suggestion.place.start
    } else {
        n
    };
    let end: usize = if suggestion.place.end <= n {
        suggestion.place.end
    } else {
        n
    };
    let mut next: String = cut_before(current, start).to_owned();
    next.push_str(suggestion.value.as_str());
    let cursor: usize = chars_of(next.as_str()).len();
    next.push_str(cut_after(current, end));
    *input = Input::default().with_value(next).with_cursor(cursor);
}

// ---- the operations -----------------------------------------------------

impl App {
    /// The client at its start.
    pub fn new(ctx: ReplCtx, history: ReplHistory, transport_label: String) -> (r: Self)
        ensures
            r@ == (AppModel {
                ctx: ctx@,
                history: history@,
                transport_label: transport_label@,
                text: Seq::empty(),
                cursor: 0,
                cut: Seq::empty(),
                cutting: false,
                log: seq![
                    LogModel::Banner("ptywright repl  "@ + transport_label@),
                    LogModel::Banner(BANNER_HINT@),
                ],
                snapshots: Seq::empty(),
                completions: None,
                history_pos: None,
                history_stash: None,
                should_quit: false,
                sessions: Seq::empty(),
            }),
            r@.sound(),
    {
        let mut title: String = "ptywright repl  ".to_owned();
        title.push_str(transport_label.as_str());
        let mut app: App = App {
            ctx,
            history,
            transport_label,
            input: Input::default(),
            log: VecDeque::new(),
            snapshots: Fields::new(),
            completions: None,
            history_pos: None,
            history_stash: None,
            should_quit: false,
            adapter_sessions: Fields::new(),
        };
        assert(log_models(app.log@) =~= Seq::<LogModel>::empty());
        assert(named_texts(app.adapter_sessions@) =~= Seq::<(Seq<char>, Seq<char>)>::empty());
        app.push_log(LogEntry::Banner(title));
        app.push_log(LogEntry::Banner(BANNER_HINT.to_owned()));
        assert(app@.log =~= seq![
            LogModel::Banner("ptywright repl  "@ + transport_label@),
            LogModel::Banner(BANNER_HINT@),
        ]);
        app
    }

    pub fn should_quit(&self) -> (r: bool)
        ensures
            r == self@.should_quit,
    {
        self.should_quit
    }

    pub fn transport_label(&self) -> (r: &str)
        ensures
            r@ == self@.transport_label,
    {
        self.transport_label.as_str()
    }

    pub fn ctx(&self) -> (r: &ReplCtx)
        ensures
            r@ == self@.ctx,
    {
        &self.ctx
    }

    /// The picture of the focused adapter, with its id.
    pub fn focused_snapshot(&self) -> (r: Option<(&String, &ScreenSnapshot)>)
        ensures
            match r {
                Some((id, snapshot)) => self@.ctx.focus == Some(id@) && lookup(
                    self@.snapshots,
                    id@,
                ) == Some(*snapshot),
                None => self@.ctx.focus matches Some(id) ==> lookup(self@.snapshots, id) is None,
            },
    {
        match &self.ctx.focus {
            Some(id) => match self.snapshots.get(id.as_str()) {
                Some(snapshot) => Some((id, snapshot)),
                None => None,
            },
            None => None,
        }
    }

    pub fn set_live_hint(&mut self, hint: Option<String>)
        ensures
            final(self)@ == (match opt_text(hint) {
                Some(text) => old(self)@.pushed(LogModel::Hint(text)),
                None => old(self)@,
            }),
            final(self).input == old(self).input,
    {
        if let Some(text) = hint {
            self.push_log(LogEntry::Hint(text));
        }
    }

    /// Takes an event in.
    pub fn apply_ui_event(&mut self, event: UiEvent)
        ensures
            final(self)@ == old(self)@.informed(event@),
            final(self).input == old(self).input,
    {
        match event {
            UiEvent::Snapshot { adapter, snapshot } => {
                self.snapshots.insert(adapter, snapshot);
            },
            UiEvent::Notice(text) => {
                self.push_log(LogEntry::Notice(text));
            },
        }
    }

    /// Takes pasted text in.
    pub fn handle_paste(&mut self, text: &str)
        ensures
            old(self)@.cursor <= old(self)@.text.len(),
            final(self)@ == old(self)@.pasted(text@),
    {
        let chars: Vec<char> = chars_of(text);
        let at: usize = self.input.cursor();
        let ghost before = self@;
        let ghost head = before.text.take(at as int);
        let ghost tail = before.text.skip(at as int);
        let mut i: usize = 0;
        assert(head + chars@.take(0) + tail =~= before.text);
        while i < chars.len()
            invariant
                i <= chars@.len(),
                head.len() == at,
                before.cursor == at,
                self@ == (AppModel { cutting: before.cutting && i == 0, ..before }).with_line(
                    head + chars@.take(i as int) + tail,
                    (at + i) as nat,
                ),
            decreases chars@.len() - i,
        {
            let ghost held = self@.text;
            insert_char(&mut self.input, chars[i]);
            proof {
                let c = chars@[i as int];
                assert(chars@.take(i + 1) =~= chars@.take(i as int).push(c));
                assert(typed_into(held, (at + i) as nat, c) =~= head + chars@.take(i + 1) + tail);
            }
            i += 1;
        }
        assert(chars@.take(i as int) =~= text@);
        self.cancel_completion();
        self.cancel_history_nav();
    }

    /// Takes a key in and says what is to be done.
    pub fn handle_key(&mut self, key: Key) -> (r: KeyStep)
        requires
            old(self)@.sound(),
        ensures
            (final(self)@, r@) == old(self)@.after_key(key, typing(old(self).input, key)),
            old(self)@.edits(key) ==> (key.code matches KeyCode::Edit(k) && final(self).input
                == key_typed(old(self).input, k, key.modifiers).0),
            old(self)@.spares_the_line(key) ==> final(self).input == old(self).input,
            final(self)@.sound(),
    {
        if key.kind == KeyKind::Release {
            return KeyStep::Stay;
        }
        let k: EditKey = match key.code {
            KeyCode::Enter => {
                return self.submit();
            },
            KeyCode::Esc => {
                if self.completions.is_some() {
                    self.cancel_completion();
                } else {
                    self.cancel_history_nav();
                }
                return KeyStep::Stay;
            },
            KeyCode::Tab => {
                return self.advance_completion(1);
            },
            KeyCode::BackTab => {
                return self.advance_completion(-1);
            },
            KeyCode::Up => {
                self.history_nav(1);
                return KeyStep::Stay;
            },
            KeyCode::Down => {
                self.history_nav(-1);
                return KeyStep::Stay;
            },
            KeyCode::Edit(k) => k,
        };
        let control: bool = key.modifiers == CONTROL;
        let empty: bool = self.input.value().is_empty();
        if k == EditKey::Char('c') && control {
            if empty {
                self.should_quit = true;
            } else {
                self.input.reset();
                self.cancel_completion();
                self.cancel_history_nav();
            }
        } else if k == EditKey::Char('d') && control && empty {
            self.should_quit = true;
        } else if k == EditKey::Char('l') && control {
            self.log.clear();
            assert(log_models(self.log@) =~= Seq::<LogModel>::empty());
        } else {
            let changed: bool = press(&mut self.input, k, key.modifiers);
            if changed {
                self.cancel_completion();
                self.cancel_history_nav();
            }
        }
        KeyStep::Stay
    }

    /// Enters the line.
    pub fn submit(&mut self) -> (r: KeyStep)
        ensures
            (final(self)@, r@) == old(self)@.submitted(),
            trim(old(self)@.text).len() == 0 ==> final(self).input == old(self).input,
            old(self)@.sound() ==> final(self)@.sound(),
    {
        let line: String = trimmed(self.input.value());
        self.cancel_completion();
        self.cancel_history_nav();
        if line.as_str().is_empty() {
            return KeyStep::Stay;
        }
        let recorded: bool = self.history.push(line.as_str());
        self.input.reset();
        let parsed: Result<Cmd, Error> = parse(line.as_str());
        self.push_log(LogEntry::Input(line));
        match parsed {
            Ok(cmd) => KeyStep::Run { cmd, recorded },
            Err(error) => {
                self.push_log(LogEntry::Error(error.message().clone()));
                KeyStep::Refused { recorded }
            },
        }
    }

    /// Takes in what a command came to. `decoded` is the picture that the
    /// answer carries, if it carries one.
    pub fn apply_outcome(
        &mut self,
        outcome: Result<CmdOutcome, Error>,
        decoded: Option<ScreenSnapshot>,
    )
        ensures
            final(self)@ == old(self)@.finished(result_model(outcome), decoded),
            final(self).input == old(self).input,
    {
        match outcome {
            Ok(CmdOutcome::Quit) => {
                self.should_quit = true;
            },
            Ok(CmdOutcome::ShowHelp(text)) => {
                self.push_log(LogEntry::Help(text));
            },
            Ok(CmdOutcome::Line(text)) => {
                self.push_log(LogEntry::Line(text));
            },
            Ok(CmdOutcome::Json(value)) => {
                let text: String = truncate(value.encode(), LOGGED_JSON_LIMIT);
                self.push_log(LogEntry::Json(text));
            },
            Ok(CmdOutcome::Note { note, value }) => {
                self.push_log(LogEntry::Note(note));
                if let Some(adapter) = value.get_str("adapter") {
                    if let Some(session) = value.get_str("session") {
                        let learned: String = session.clone();
                        proof {
                            named_texts_put(self.adapter_sessions@, adapter@, learned);
                        }
                        self.adapter_sessions.insert(adapter.clone(), learned);
                    }
                    if value.get("snapshot").is_some() {
                        if let Some(snapshot) = decoded {
                            self.snapshots.insert(adapter.clone(), snapshot);
                        }
                    }
                }
            },
            Ok(CmdOutcome::Screen { adapter, snapshot }) => {
                let mut line: String = "snapshot · ".to_owned();
                line.push_str(adapter.as_str());
                line.push_str(" (rendered in the live pane)");
                self.snapshots.insert(adapter, snapshot);
                self.push_log(LogEntry::Line(line));
            },
            Err(error) => {
                self.push_log(LogEntry::Error(error.message().clone()));
            },
        }
    }

    /// The focused adapter with its session.
    pub fn focus_info(&self) -> (r: FocusInfo)
        ensures
            r@ == self@.focus(),
    {
        match &self.ctx.focus {
            Some(id) => {
                proof {
                    named_texts_lookup(self.adapter_sessions@, id@);
                }
                let session: Option<String> = match self.adapter_sessions.get(id.as_str()) {
                    Some(session) => Some(session.clone()),
                    None => None,
                };
                FocusInfo { adapter: Some(id.clone()), session }
            },
            None => FocusInfo { adapter: None, session: None },
        }
    }

    // ---- completion -----------------------------------------------------

    /// Goes on to the next completion, or to the previous one. Where none are
    /// on offer, they are asked for.
    pub fn advance_completion(&mut self, direction: i32) -> (r: KeyStep)
        requires
            direction == 1 || direction == -1,
            old(self)@.sound(),
        ensures
            (final(self)@, r@) == old(self)@.advanced(direction as int),
            (old(self)@.completions matches Some(state) ==> state.suggestions.len() == 0)
                ==> final(self).input == old(self).input,
            final(self)@.sound(),
    {
        let mut held: Option<CompletionState> = None;
        std::mem::swap(&mut held, &mut self.completions);
        match held {
            Some(mut state) => {
                let n: usize = state.suggestions.len();
                if n == 0 {
                    return KeyStep::Stay;
                }
                let ghost before = state@;
                let next: usize = if direction == 1 {
                    if state.index == n - 1 {
                        0
                    } else {
                        state.index + 1
                    }
                } else if state.index == 0 {
                    n - 1
                } else {
                    state.index - 1
                };
                proof {
                    next_is(before.index, direction as int, n as int, next as int);
                    assert(before.suggestions[next as int] == state.suggestions@[next as int]@);
                }
                state.index = next;
                apply_suggestion(
                    &mut self.input,
                    state.original_buffer.as_str(),
                    &state.suggestions[next],
                );
                self.completions = Some(state);
                KeyStep::Stay
            },
            None => KeyStep::Complete(direction),
        }
    }

    /// The line and the byte before which completions are looked for.
    pub fn completion_request(&self) -> (r: (String, usize))
        ensures
            r.0@ == self@.text,
            r.1 == offset_of(self@.text, self@.cursor as int),
            r.1 <= byte_len(r.0@),
            ends_character(r.0@, r.1 as int),
    {
        let buffer: &str = self.input.value();
        let at: usize = byte_offset(buffer, self.input.cursor());
        proof {
            let n = self@.text.len() as int;
            characters_end_where_they_are_cut(self@.text, least(self@.cursor as int, n));
        }
        (buffer.to_owned(), at)
    }

    /// Takes in the completions that were found.
    pub fn offer(&mut self, direction: i32, suggestions: Vec<Suggestion>)
        requires
            old(self)@.sound(),
            forall|i: int|
                0 <= i < suggestions@.len() ==> fits(
                    old(self)@.text,
                    (#[trigger] suggestions@[i])@,
                ),
        ensures
            final(self)@ == old(self)@.offered(
                direction as int,
                suggestion_models(suggestions@),
            ),
            suggestions@.len() == 0 ==> final(self).input == old(self).input,
            final(self)@.sound(),
    {
        let n: usize = suggestions.len();
        if n == 0 {
            return;
        }
        let buffer: String = self.input.value().to_owned();
        let cursor: usize = self.input.cursor();
        let index: usize = if direction == -1 {
            n - 1
        } else {
            0
        };
        let ghost models = suggestion_models(suggestions@);
        assert(models[index as int] == suggestions@[index as int]@);
        apply_suggestion(&mut self.input, buffer.as_str(), &suggestions[index]);
        if n == 1 {
            self.completions = None;
        } else {
            proof {
                assert forall|i: int| 0 <= i < models.len() implies fits(
                    buffer@,
                    #[trigger] models[i],
                ) by {
                    assert(models[i] == suggestions@[i]@);
                }
            }
            self.completions = Some(
                CompletionState {
                    suggestions,
                    index,
                    original_buffer: buffer,
                    original_cursor: cursor,
                },
            );
        }
    }

    fn cancel_completion(&mut self)
        ensures
            final(self)@ == old(self)@.uncompleted(),
            final(self).input == old(self).input,
    {
        self.completions = None;
    }

    // ---- history --------------------------------------------------------

    /// Takes a step in the history.
    pub fn history_nav(&mut self, delta: i32)
        requires
            delta == 1 || delta == -1,
            old(self)@.sound(),
        ensures
            final(self)@ == old(self)@.navigated(delta as int),
            old(self)@.history.entries.len() == 0 ==> final(self).input == old(self).input,
            final(self)@.sound(),
    {
        let max: usize = self.history.len();
        if max == 0 {
            return;
        }
        if self.history_pos.is_none() {
            self.history_stash = Some(self.input.value().to_owned());
        }
        let next: usize = match self.history_pos {
            Some(p) => if delta == 1 && p < max - 1 {
                p + 1
            } else if delta == -1 && p > 0 {
                p - 1
            } else {
                max - 1
            },
            None => if delta == 1 {
                0
            } else {
                max - 1
            },
        };
        self.history_pos = Some(next);
        if let Some(entry) = self.history.nth_back(next) {
            self.input = Input::default().with_value(entry.clone());
        }
    }

    fn cancel_history_nav(&mut self)
        ensures
            final(self)@ == old(self)@.returned(),
            final(self).input == old(self).input,
    {
        self.history_pos = None;
        self.history_stash = None;
    }

    // ---- log ------------------------------------------------------------

    /// Adds an entry to the log.
    pub fn push_log(&mut self, entry: LogEntry)
        ensures
            final(self)@ == old(self)@.pushed(entry@),
            final(self).input == old(self).input,
    {
        let ghost before = self@;
        let ghost all = self.log@.push(entry);
        self.log.push_back(entry);
        assert(log_models(all) =~= before.log.push(entry@));
        let ghost mut dropped: int = 0;
        assert(all.skip(0) =~= all);
        while self.log.len() > MAX_LOG_ENTRIES
            invariant
                0 <= dropped <= all.len(),
                self.log@ == all.skip(dropped),
                dropped > 0 ==> self.log@.len() >= MAX_LOG_ENTRIES,
                self@ == (AppModel { log: log_models(self.log@), ..before }),
                self.input == old(self).input,
            decreases self.log@.len(),
        {
            let _ = self.log.pop_front();
            proof {
                assert(all.skip(dropped).subrange(1, all.len() - dropped) =~= all.skip(
                    dropped + 1,
                ));
                dropped = dropped + 1;
            }
        }
        assert(log_models(self.log@) =~= logged(before.log, entry@));
    }
}

proof fn next_is(index: int, direction: int, n: int, next: int)
    requires
        0 <= index < n,
        direction == 1 || direction == -1,
        next == if direction == 1 {
            if index == n - 1 {
                0
            } else {
                index + 1
            }
        } else if index == 0 {
            n - 1
        } else {
            index - 1
        },
    ensures
        (index + direction) % n == next,
        0 <= next < n,
{
    if direction == 1 && index == n - 1 {
        assert(n % n == 0) by (nonlinear_arith)
            requires
                n > 0,
        ;
    } else if direction == -1 && index == 0 {
        assert((-1) % n == n - 1) by (nonlinear_arith)
            requires
                n > 0,
        ;
    } else {
        vstd::arithmetic::div_mod::lemma_small_mod((index + direction) as nat, n as nat);
    }
}

// ---- laws ---------------------------------------------------------------

/// The log keeps within its bound, and the newest entry stands last.
pub proof fn log_is_bounded(app: AppModel, entry: LogModel)
    requires
        app.log.len() <= MAX_LOG_ENTRIES,
    ensures
        app.pushed(entry).log.len() <= MAX_LOG_ENTRIES,
        app.pushed(entry).log.last() == entry,
        app.log.len() < MAX_LOG_ENTRIES ==> app.pushed(entry).log == app.log.push(entry),
{
}

/// Every completion goes into the line as it was when completions were
/// looked for, whatever was shown in between.
pub proof fn completions_go_into_the_original_line(app: AppModel, direction: int, later: int)
    requires
        app.completions matches Some(state) && state.suggestions.len() > 0,
    ensures
        ({
            let state = app.completions->Some_0;
            let once = app.advanced(direction).0;
            let twice = once.advanced(later).0;
            let chosen = twice.completions->Some_0.index;
            &&& twice.completions matches Some(end)
            &&& end.original_buffer == state.original_buffer
            &&& end.suggestions == state.suggestions
            &&& chosen == (state.next(direction) + later) % (state.suggestions.len() as int)
            &&& replaced(state.original_buffer, state.suggestions[chosen]) == (
                twice.text,
                twice.cursor,
            )
        }),
{
}

/// A step through the completions and one back show again what was shown.
pub proof fn completing_forth_and_back(app: AppModel, direction: int)
    requires
        direction == 1 || direction == -1,
        app.completions matches Some(state) && state.sound() && state.suggestions.len() > 0
            && replaced(state.original_buffer, state.suggestions[state.index]) == (
            app.text,
            app.cursor,
        ),
    ensures
        app.advanced(direction).0.advanced(-direction).0 == app.with_fresh_line(
            app.text,
            app.cursor,
        ),
{
    let state = app.completions->Some_0;
    let n = state.suggestions.len() as int;
    let there = if direction == 1 {
        if state.index == n - 1 {
            0
        } else {
            state.index + 1
        }
    } else if state.index == 0 {
        n - 1
    } else {
        state.index - 1
    };
    next_is(state.index, direction, n, there);
    next_is(there, -direction, n, state.index);
}

/// The first completion that is offered, and every one after it, leaves the
/// text outside its place as it was.
pub proof fn completions_keep_the_rest_of_the_line(buffer: Seq<char>, suggestion: SuggestionModel)
    ensures
        ({
            let n = byte_len(buffer);
            let before = before_byte(buffer, least(suggestion.start, n));
            let after = after_byte(buffer, least(suggestion.end, n));
            let (text, cursor) = replaced(buffer, suggestion);
            &&& text.take(before.len() as int) == before
            &&& text.skip(cursor as int) == after
            &&& text.subrange(before.len() as int, cursor as int) == suggestion.value
        }),
{
    let n = byte_len(buffer);
    let before = before_byte(buffer, least(suggestion.start, n));
    let after = after_byte(buffer, least(suggestion.end, n));
    let text = before + suggestion.value + after;
    let cursor = before.len() + suggestion.value.len();
    assert(text.take(before.len() as int) =~= before);
    assert(text.skip(cursor as int) =~= after);
    assert(text.subrange(before.len() as int, cursor as int) =~= suggestion.value);
}

/// Control-C clears a line that is not empty, and ends the client on an empty
/// one.
pub proof fn control_c_clears_and_then_quits(
    app: AppModel,
    first: TypedModel,
    second: TypedModel,
)
    requires
        app.text.len() > 0,
    ensures
        ({
            let key = Key {
                code: KeyCode::Edit(EditKey::Char('c')),
                modifiers: CONTROL,
                kind: KeyKind::Press,
            };
            let once = app.after_key(key, first).0;
            let twice = once.after_key(key, second).0;
            &&& once.text.len() == 0
            &&& once.should_quit == app.should_quit
            &&& twice.should_quit
        }),
{
}

/// Escape closes the completions and leaves the line as it is.
pub proof fn escape_closes_the_completions(app: AppModel, typed: TypedModel)
    ensures
        ({
            let key = Key { code: KeyCode::Esc, modifiers: 0, kind: KeyKind::Press };
            let after = app.after_key(key, typed).0;
            after.completions is None && after.text == app.text && after.cursor == app.cursor
        }),
{
}

/// A step in the history shows one of its entries, with the cursor behind
/// it, and a step back comes back to the entry from before.
pub proof fn history_steps_can_be_taken_back(app: AppModel)
    requires
        app.sound(),
        app.history.entries.len() <= usize::MAX,
        app.history_pos matches Some(p) && p + 1 < app.history.entries.len(),
    ensures
        ({
            let n = app.history.entries.len() as int;
            let p = app.history_pos->Some_0 as int;
            let up = app.navigated(1);
            let back = up.navigated(-1);
            &&& up.text == app.history.entries[n - 1 - (p + 1)]
            &&& up.cursor == up.text.len()
            &&& back.text == app.history.entries[n - 1 - p]
            &&& back.history_pos == app.history_pos
            &&& back.history_stash == app.history_stash
        }),
{
}

/// Pasting one text and then another pastes both.
pub proof fn pastes_add_up(app: AppModel, a: Seq<char>, b: Seq<char>)
    requires
        app.cursor <= app.text.len(),
    ensures
        app.pasted(a).pasted(b) == app.pasted(a + b),
{
    let at = app.cursor as int;
    let once = app.pasted(a);
    let head = app.text.take(at) + a;
    let tail = app.text.skip(at);
    assert(once.text =~= head + tail);
    assert(once.text.take(once.cursor as int) =~= head);
    assert(once.text.skip(once.cursor as int) =~= tail);
    assert(head + b + tail =~= app.text.take(at) + (a + b) + tail);
}

/// A line of blanks is not entered, and its text stays.
pub proof fn blank_lines_are_not_entered(app: AppModel)
    requires
        trim(app.text).len() == 0,
    ensures
        app.submitted().1 is Stay,
        app.submitted().0.log == app.log,
        app.submitted().0.history == app.history,
        app.submitted().0.text == app.text,
{
}

/// What was cut out of a line can still be put in after the line was entered
/// or cleared, after a paste and whatever comes from outside.
pub proof fn cut_text_outlives_the_line(
    app: AppModel,
    typed: TypedModel,
    text: Seq<char>,
    event: UiEventModel,
    outcome: Result<OutcomeModel, ErrorModel>,
    decoded: Option<ScreenSnapshot>,
)
    ensures
        ({
            let clear = Key {
                code: KeyCode::Edit(EditKey::Char('c')),
                modifiers: CONTROL,
                kind: KeyKind::Press,
            };
            &&& app.submitted().0.cut == app.cut
            &&& app.after_key(clear, typed).0.cut == app.cut
            &&& app.pasted(text).cut == app.cut
            &&& app.informed(event).cut == app.cut
            &&& app.finished(outcome, decoded).cut == app.cut
        }),
{
}

} // verus!
