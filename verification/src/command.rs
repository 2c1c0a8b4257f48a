//! The command language: reading a line, and turning what it says into
//! requests.

pub mod arg;
pub mod dispatch;
pub mod lexer;
pub mod metas;
pub mod parser;
pub mod reading;
pub mod refusals;
pub mod request;
pub mod spelled;
pub mod wire;
pub mod written;

use crate::command::arg::{CallModel, DslCall};
use crate::command::lexer::{tokens_of, Lexer};
use crate::command::parser::{call_at, Parser};
use crate::error::{Error, ErrorModel};
use crate::json::{json_parsed, no_fields, Json, JsonModel};
use crate::text::{
    after_word, begins, find_at, first_word, join, joined_parts_are_split,
    parts_hold_no_separator, same, split, split_text, split_word, split_words, strip_prefix,
    texts, texts_push, trim, trim_is_a_part, trim_is_idempotent, trimmed, words,
};
use vstd::prelude::*;

verus! {

broadcast use vstd::string::group_string_axioms;

/// A command line after parsing.
#[derive(Debug, PartialEq)]
pub enum Cmd {
    /// A call: `path(args...)`.
    Dsl(DslCall),
    /// A `:meta` action of the client itself, or the `:rpc` escape hatch.
    Meta(MetaCmd),
}

#[derive(Debug, PartialEq)]
pub enum MetaCmd {
    Help,
    Quit,
    Tabs,
    Focus(String),
    Notifications(NotificationsRequest),
    /// List the adapters that live on the server.
    Live,
    /// Take adapters of the server into the local tab list.
    Attach(AttachSpec),
    Rpc { method: String, params: Json },
}

/// What to attach.
#[derive(Debug, PartialEq)]
pub enum AttachSpec {
    One(String),
    All,
}

/// Whether notifications come, and from which adapters and sessions. An
/// empty list means no restriction.
#[derive(Debug, PartialEq)]
pub struct NotificationsRequest {
    pub enabled: bool,
    pub adapters: Vec<String>,
    pub sessions: Vec<String>,
}

// ---- what the commands say ----------------------------------------------

pub enum CmdModel {
    Dsl(CallModel),
    Meta(MetaModel),
}

pub enum MetaModel {
    Help,
    Quit,
    Tabs,
    Focus(Seq<char>),
    Notifications(NotificationsModel),
    Live,
    Attach(AttachModel),
    Rpc { method: Seq<char>, params: JsonModel },
}

pub enum AttachModel {
    One(Seq<char>),
    All,
}

pub struct NotificationsModel {
    pub enabled: bool,
    pub adapters: Seq<Seq<char>>,
    pub sessions: Seq<Seq<char>>,
}

impl View for NotificationsRequest {
    type V = NotificationsModel;

    open spec fn view(&self) -> NotificationsModel {
        NotificationsModel {
            enabled: self.enabled,
            adapters: texts(self.adapters@),
            sessions: texts(self.sessions@),
        }
    }
}

impl View for AttachSpec {
    type V = AttachModel;

    open spec fn view(&self) -> AttachModel {
        match self {
            AttachSpec::One(id) => AttachModel::One(id@),
            AttachSpec::All => AttachModel::All,
        }
    }
}

impl View for MetaCmd {
    type V = MetaModel;

    open spec fn view(&self) -> MetaModel {
        match self {
            MetaCmd::Help => MetaModel::Help,
            MetaCmd::Quit => MetaModel::Quit,
            MetaCmd::Tabs => MetaModel::Tabs,
            MetaCmd::Focus(id) => MetaModel::Focus(id@),
            MetaCmd::Notifications(request) => MetaModel::Notifications(request@),
            MetaCmd::Live => MetaModel::Live,
            MetaCmd::Attach(spec) => MetaModel::Attach(spec@),
            MetaCmd::Rpc { method, params } => MetaModel::Rpc {
                method: method@,
                params: params@,
            },
        }
    }
}

impl View for Cmd {
    type V = CmdModel;

    open spec fn view(&self) -> CmdModel {
        match self {
            Cmd::Dsl(call) => CmdModel::Dsl(call@),
            Cmd::Meta(meta) => CmdModel::Meta(meta@),
        }
    }
}

impl NotificationsRequest {
    pub fn simple(enabled: bool) -> (r: Self)
        ensures
            r@ == (NotificationsModel {
                enabled,
                adapters: Seq::empty(),
                sessions: Seq::empty(),
            }),
    {
        let r = NotificationsRequest { enabled, adapters: Vec::new(), sessions: Vec::new() };
        assert(r@.adapters == Seq::<Seq<char>>::empty());
        assert(r@.sessions == Seq::<Seq<char>>::empty());
        r
    }
}

// ---- lists of ids -------------------------------------------------------

/// The parts, trimmed, without those that are empty then.
pub open spec fn trimmed_parts(parts: Seq<Seq<char>>) -> Seq<Seq<char>>
    decreases parts.len(),
{
    if parts.len() == 0 {
        Seq::empty()
    } else {
        let before = trimmed_parts(parts.drop_last());
        let last = trim(parts.last());
        if last.len() == 0 {
            before
        } else {
            before.push(last)
        }
    }
}

/// The ids of a comma-separated list.
pub open spec fn id_list(s: Seq<char>) -> Seq<Seq<char>> {
    trimmed_parts(split(s, ','))
}

/// The ids of a comma-separated list.
pub fn parse_id_list(value: &str) -> (r: Vec<String>)
    ensures
        texts(r@) == id_list(value@),
{
    let parts: Vec<String> = split_text(value, ',');
    let mut out: Vec<String> = Vec::new();
    let ghost all = texts(parts@);
    let mut i: usize = 0;
    assert(texts(out@) == trimmed_parts(all.take(0)));
    while i < parts.len()
        invariant
            i <= parts@.len(),
            all == texts(parts@),
            texts(out@) == trimmed_parts(all.take(i as int)),
        decreases parts@.len() - i,
    {
        let part: String = trimmed(parts[i].as_str());
        proof {
            assert(all.take(i + 1).drop_last() == all.take(i as int));
            assert(all.take(i + 1).last() == parts@[i as int]@);
            texts_push(out@, part);
        }
        if !part.as_str().is_empty() {
            out.push(part);
        }
        i += 1;
    }
    assert(all.take(i as int) == all);
    out
}

// ---- `:notifications` ---------------------------------------------------

/// The filter list that bare ids go on with.
pub enum Filter {
    Nothing,
    Adapters,
    Sessions,
}

/// The two filter lists after the words from `i` on. A word without a
/// filter name goes on with the list that was named last.
pub open spec fn filters_from(
    parts: Seq<Seq<char>>,
    i: int,
    adapters: Seq<Seq<char>>,
    sessions: Seq<Seq<char>>,
    current: Filter,
) -> Result<(Seq<Seq<char>>, Seq<Seq<char>>), Seq<char>>
    decreases parts.len() - i,
{
    if i < 0 || i >= parts.len() {
        Ok((adapters, sessions))
    } else {
        let part = parts[i];
        if begins(part, "adapters="@) {
            filters_from(
                parts,
                i + 1,
                adapters + id_list(part.skip("adapters="@.len() as int)),
                sessions,
                Filter::Adapters,
            )
        } else if begins(part, "sessions="@) {
            filters_from(
                parts,
                i + 1,
                adapters,
                sessions + id_list(part.skip("sessions="@.len() as int)),
                Filter::Sessions,
            )
        } else {
            match current {
                Filter::Adapters => filters_from(
                    parts,
                    i + 1,
                    adapters + id_list(part),
                    sessions,
                    current,
                ),
                Filter::Sessions => filters_from(
                    parts,
                    i + 1,
                    adapters,
                    sessions + id_list(part),
                    current,
                ),
                Filter::Nothing => Err(
                    ":notifications: unknown filter token `"@ + part
                        + "` (expected `adapters=…` or `sessions=…`)"@,
                ),
            }
        }
    }
}

/// Whether the first word switches on or off.
pub open spec fn switch_word(word: Seq<char>) -> Option<bool> {
    if word == "on"@ || word == "true"@ || word == "1"@ {
        Some(true)
    } else if word == "off"@ || word == "false"@ || word == "0"@ {
        Some(false)
    } else {
        None
    }
}

/// The request that the text behind `:notifications` makes.
pub open spec fn notifications_of(tail: Seq<char>) -> Result<NotificationsModel, Seq<char>> {
    let parts = words(tail);
    let head = if parts.len() > 0 {
        parts[0]
    } else {
        Seq::empty()
    };
    match switch_word(head) {
        None => Err(
            ":notifications expects on|off [adapters=…] [sessions=…], got `"@ + head + "`"@,
        ),
        Some(enabled) => match filters_from(
            parts,
            1,
            Seq::empty(),
            Seq::empty(),
            Filter::Nothing,
        ) {
            Err(m) => Err(m),
            Ok((adapters, sessions)) => if !enabled && (adapters.len() > 0 || sessions.len()
                > 0) {
                Err(":notifications off does not take filter args"@)
            } else {
                Ok(NotificationsModel { enabled, adapters, sessions })
            },
        },
    }
}

fn extend(list: &mut Vec<String>, more: Vec<String>)
    ensures
        texts(final(list)@) == texts(old(list)@) + texts(more@),
{
    let mut more = more;
    let ghost before = list@;
    let ghost tail = more@;
    list.append(&mut more);
    assert(texts(list@) == texts(before) + texts(tail));
}

/// Reads the text behind `:notifications`.
pub fn parse_notifications_tail(tail: &str) -> (r: Result<NotificationsRequest, Error>)
    ensures
        match r {
            Ok(request) => notifications_of(tail@) == Ok::<NotificationsModel, Seq<char>>(
                request@,
            ),
            Err(e) => e@ matches ErrorModel::Rpc(m) && notifications_of(tail@) == Err::<
                NotificationsModel,
                Seq<char>,
            >(m),
        },
{
    let parts: Vec<String> = split_words(tail);
    let ghost all = texts(parts@);
    let head: String = if parts.len() > 0 {
        parts[0].clone()
    } else {
        String::new()
    };
    let enabled: bool = if same(head.as_str(), "on") || same(head.as_str(), "true") || same(
        head.as_str(),
        "1",
    ) {
        true
    } else if same(head.as_str(), "off") || same(head.as_str(), "false") || same(
        head.as_str(),
        "0",
    ) {
        false
    } else {
        let mut message: String =
            ":notifications expects on|off [adapters=…] [sessions=…], got `".to_owned();
        message.push_str(head.as_str());
        message.push_str("`");
        return Err(Error::Rpc(message));
    };
    let mut adapters: Vec<String> = Vec::new();
    let mut sessions: Vec<String> = Vec::new();
    let mut current: Filter = Filter::Nothing;
    assert(texts(adapters@) == Seq::<Seq<char>>::empty());
    assert(texts(sessions@) == Seq::<Seq<char>>::empty());
    let ghost whole = filters_from(all, 1, Seq::empty(), Seq::empty(), Filter::Nothing);
    let mut i: usize = 1;
    while i < parts.len()
        invariant
            1 <= i,
            all == texts(parts@),
            all == words(tail@),
            head@ == if all.len() > 0 {
                all[0]
            } else {
                Seq::empty()
            },
            switch_word(head@) == Some(enabled),
            whole == filters_from(all, 1, Seq::empty(), Seq::empty(), Filter::Nothing),
            whole == filters_from(
                all,
                i as int,
                texts(adapters@),
                texts(sessions@),
                current,
            ),
        decreases parts@.len() - i,
    {
        let part: &str = parts[i].as_str();
        assert(all[i as int] == part@);
        if let Some(rest) = strip_prefix(part, "adapters=") {
            extend(&mut adapters, parse_id_list(rest.as_str()));
            current = Filter::Adapters;
        } else if let Some(rest) = strip_prefix(part, "sessions=") {
            extend(&mut sessions, parse_id_list(rest.as_str()));
            current = Filter::Sessions;
        } else {
            match current {
                Filter::Adapters => {
                    extend(&mut adapters, parse_id_list(part));
                },
                Filter::Sessions => {
                    extend(&mut sessions, parse_id_list(part));
                },
                Filter::Nothing => {
                    let mut message: String =
                        ":notifications: unknown filter token `".to_owned();
                    message.push_str(part);
                    message.push_str("` (expected `adapters=…` or `sessions=…`)");
                    return Err(Error::Rpc(message));
                },
            }
        }
        i += 1;
    }
    if !enabled && (adapters.len() > 0 || sessions.len() > 0) {
        return Err(Error::rpc(":notifications off does not take filter args"));
    }
    Ok(NotificationsRequest { enabled, adapters, sessions })
}

// ---- a line -------------------------------------------------------------

/// The `:rpc` command, given what its parameter text was read as.
pub open spec fn rpc_command(method: Seq<char>, params: Result<JsonModel, Seq<char>>) -> Result<
    MetaModel,
    Seq<char>,
> {
    match params {
        Ok(params) => Ok(MetaModel::Rpc { method, params }),
        Err(m) => Err(":rpc params are not valid JSON: "@ + m),
    }
}

/// The `:rpc` command, given what its parameter text was read as.
pub fn meta_rpc(method: String, params: Result<Json, String>) -> (r: Result<MetaCmd, Error>)
    ensures
        ({
            let given = match params {
                Ok(j) => Ok::<JsonModel, Seq<char>>(j@),
                Err(m) => Err::<JsonModel, Seq<char>>(m@),
            };
            match r {
                Ok(meta) => rpc_command(method@, given) == Ok::<MetaModel, Seq<char>>(meta@),
                Err(e) => e@ matches ErrorModel::Rpc(m) && rpc_command(method@, given) == Err::<
                    MetaModel,
                    Seq<char>,
                >(m),
            }
        }),
{
    match params {
        Ok(params) => Ok(MetaCmd::Rpc { method, params }),
        Err(error) => {
            let mut message: String = ":rpc params are not valid JSON: ".to_owned();
            message.push_str(error.as_str());
            Err(Error::Rpc(message))
        },
    }
}

/// The text from which the parameters of `:rpc` are read.
pub open spec fn rpc_params_text(tail: Seq<char>) -> Seq<char> {
    match after_word(tail) {
        Some(rest) => trim(rest),
        None => trim("{}"@),
    }
}

/// The command behind the colon.
pub open spec fn meta_of(rest: Seq<char>) -> Result<MetaModel, Seq<char>> {
    let head = first_word(rest);
    let tail = match after_word(rest) {
        Some(t) => trim(t),
        None => trim(""@),
    };
    if head == "help"@ {
        Ok(MetaModel::Help)
    } else if head == "quit"@ || head == "q"@ || head == "exit"@ {
        Ok(MetaModel::Quit)
    } else if head == "tabs"@ {
        Ok(MetaModel::Tabs)
    } else if head == "focus"@ {
        if tail.len() == 0 {
            Err(":focus requires an adapter id"@)
        } else {
            Ok(MetaModel::Focus(tail))
        }
    } else if head == "notifications"@ {
        match notifications_of(tail) {
            Ok(request) => Ok(MetaModel::Notifications(request)),
            Err(m) => Err(m),
        }
    } else if head == "live"@ {
        Ok(MetaModel::Live)
    } else if head == "attach"@ {
        if tail.len() == 0 {
            Err(":attach requires an adapter id or `all`"@)
        } else if tail == "all"@ {
            Ok(MetaModel::Attach(AttachModel::All))
        } else {
            Ok(MetaModel::Attach(AttachModel::One(tail)))
        }
    } else if head == "rpc"@ {
        let method = first_word(tail);
        if method.len() == 0 {
            Err(":rpc requires a method name"@)
        } else {
            let text = rpc_params_text(tail);
            rpc_command(
                method,
                if text.len() == 0 {
                    Ok(no_fields())
                } else {
                    json_parsed(text)
                },
            )
        }
    } else {
        Err("unknown meta command `:"@ + head + "`"@)
    }
}

/// Reads the command behind the colon.
pub fn parse_meta(rest: &str) -> (r: Result<MetaCmd, Error>)
    ensures
        match r {
            Ok(meta) => meta_of(rest@) == Ok::<MetaModel, Seq<char>>(meta@),
            Err(e) => e@ matches ErrorModel::Rpc(m) && meta_of(rest@) == Err::<
                MetaModel,
                Seq<char>,
            >(m),
        },
{
    let (head, behind) = split_word(rest);
    let tail: String = match behind {
        Some(t) => trimmed(t.as_str()),
        None => trimmed(""),
    };
    let h: &str = head.as_str();
    if same(h, "help") {
        Ok(MetaCmd::Help)
    } else if same(h, "quit") || same(h, "q") || same(h, "exit") {
        Ok(MetaCmd::Quit)
    } else if same(h, "tabs") {
        Ok(MetaCmd::Tabs)
    } else if same(h, "focus") {
        if tail.as_str().is_empty() {
            Err(Error::rpc(":focus requires an adapter id"))
        } else {
            Ok(MetaCmd::Focus(tail))
        }
    } else if same(h, "notifications") {
        match parse_notifications_tail(tail.as_str()) {
            Ok(request) => Ok(MetaCmd::Notifications(request)),
            Err(e) => Err(e),
        }
    } else if same(h, "live") {
        Ok(MetaCmd::Live)
    } else if same(h, "attach") {
        if tail.as_str().is_empty() {
            Err(Error::rpc(":attach requires an adapter id or `all`"))
        } else if same(tail.as_str(), "all") {
            Ok(MetaCmd::Attach(AttachSpec::All))
        } else {
            Ok(MetaCmd::Attach(AttachSpec::One(tail)))
        }
    } else if same(h, "rpc") {
        let (method, params) = split_word(tail.as_str());
        if method.as_str().is_empty() {
            return Err(Error::rpc(":rpc requires a method name"));
        }
        let text: String = match params {
            Some(t) => trimmed(t.as_str()),
            None => trimmed("{}"),
        };
        if text.as_str().is_empty() {
            meta_rpc(method, Ok(Json::object()))
        } else {
            meta_rpc(method, Json::parse(text.as_str()))
        }
    } else {
        let mut message: String = "unknown meta command `:".to_owned();
        message.push_str(h);
        message.push_str("`");
        Err(Error::Rpc(message))
    }
}

/// The command that a line says.
pub open spec fn command_of(input: Seq<char>) -> Result<CmdModel, Seq<char>> {
    let line = trim(input);
    if line.len() == 0 {
        Err("empty command"@)
    } else if line[0] == ':' {
        match meta_of(line.drop_first()) {
            Ok(meta) => Ok(CmdModel::Meta(meta)),
            Err(m) => Err(m),
        }
    } else {
        match tokens_of(line) {
            Err(m) => Err(m),
            Ok(toks) => match call_at(toks, 0) {
                Err(m) => Err(m),
                Ok((call, e)) => if e < toks.len() {
                    Err("unexpected trailing token "@ + toks[e].shown())
                } else {
                    Ok(CmdModel::Dsl(call))
                },
            },
        }
    }
}

/// Reads a line. A line without a command is an error.
pub fn parse(input: &str) -> (r: Result<Cmd, Error>)
    ensures
        match r {
            Ok(cmd) => command_of(input@) == Ok::<CmdModel, Seq<char>>(cmd@),
            Err(e) => e@ matches ErrorModel::Rpc(m) && command_of(input@) == Err::<
                CmdModel,
                Seq<char>,
            >(m),
        },
{
    let line: String = trimmed(input);
    if line.as_str().is_empty() {
        return Err(Error::rpc("empty command"));
    }
    proof {
        reveal_strlit(":");
        let s = line@;
        assert(s.take(1) == seq![s[0]]);
        assert(":"@ == seq![':']);
        if begins(s, ":"@) {
            assert(s.take(1)[0] == ':');
        }
        assert(s.skip(1) == s.drop_first());
    }
    if let Some(rest) = strip_prefix(line.as_str(), ":") {
        return match parse_meta(rest.as_str()) {
            Ok(meta) => Ok(Cmd::Meta(meta)),
            Err(e) => Err(e),
        };
    }
    let tokens = match Lexer::new(line.as_str()).tokens() {
        Ok(tokens) => tokens,
        Err(e) => {
            return Err(e);
        },
    };
    let mut parser: Parser = Parser::new(tokens);
    let call: DslCall = match parser.parse_dotted_call() {
        Ok(call) => call,
        Err(e) => {
            return Err(e);
        },
    };
    match parser.expect_end() {
        Ok(_) => Ok(Cmd::Dsl(call)),
        Err(e) => Err(e),
    }
}

// ---- laws ---------------------------------------------------------------

/// White space round a line changes nothing. A line of white space alone says
/// no command, a line behind a colon is a meta command or an error, and any
/// other a call or an error.
pub proof fn white_space_round_a_line_is_ignored(input: Seq<char>)
    ensures
        command_of(input) == command_of(trim(input)),
        trim(input).len() == 0 ==> command_of(input) is Err,
        command_of(input) matches Ok(CmdModel::Meta(_)) ==> trim(input)[0] == ':',
        command_of(input) matches Ok(CmdModel::Dsl(_)) ==> trim(input)[0] != ':',
{
    trim_is_idempotent(input);
}

proof fn trimmed_parts_are_ids(parts: Seq<Seq<char>>)
    requires
        forall|i: int| 0 <= i < parts.len() ==> !(#[trigger] parts[i]).contains(','),
    ensures
        forall|i: int|
            0 <= i < trimmed_parts(parts).len() ==> is_id(#[trigger] trimmed_parts(parts)[i]),
    decreases parts.len(),
{
    if parts.len() > 0 {
        let init = parts.drop_last();
        assert forall|i: int| 0 <= i < init.len() implies !(#[trigger] init[i]).contains(',') by {
            assert(!parts[i].contains(','));
        }
        trimmed_parts_are_ids(init);
        let last = trim(parts.last());
        trim_is_idempotent(parts.last());
        assert(!parts[parts.len() - 1].contains(','));
        if last.contains(',') {
            trim_is_a_part(parts.last(), ',');
        }
        assert forall|i: int| 0 <= i < trimmed_parts(parts).len() implies is_id(
            #[trigger] trimmed_parts(parts)[i],
        ) by {
            if i < trimmed_parts(init).len() {
                assert(is_id(trimmed_parts(init)[i]));
            }
        }
    }
}

proof fn ids_stay(list: Seq<Seq<char>>)
    requires
        forall|i: int| 0 <= i < list.len() ==> is_id(#[trigger] list[i]),
    ensures
        trimmed_parts(list) == list,
    decreases list.len(),
{
    if list.len() > 0 {
        let init = list.drop_last();
        assert forall|i: int| 0 <= i < init.len() implies is_id(#[trigger] init[i]) by {
            assert(is_id(list[i]));
        }
        ids_stay(init);
        assert(is_id(list[list.len() - 1]));
        assert(init.push(list.last()) =~= list);
    } else {
        assert(trimmed_parts(list) =~= list);
    }
}

/// Whether a text can stand in a list of ids as it is: it is not empty, has no
/// white space at its ends and no comma.
pub open spec fn is_id(s: Seq<char>) -> bool {
    s.len() > 0 && trim(s) == s && !s.contains(',')
}

/// The ids of a list are trimmed, not empty and without commas, and a list
/// that is written down with commas is read back.
pub proof fn id_lists_are_read_back(s: Seq<char>)
    ensures
        forall|i: int| 0 <= i < id_list(s).len() ==> is_id(#[trigger] id_list(s)[i]),
        id_list(join(id_list(s), ","@)) == id_list(s),
{
    let parts = split(s, ',');
    assert forall|i: int| 0 <= i < parts.len() implies !(#[trigger] parts[i]).contains(',') by {
        parts_hold_no_separator(s, ',', i);
    }
    trimmed_parts_are_ids(parts);
    let list = id_list(s);
    reveal_strlit(",");
    assert(","@ =~= seq![',']);
    if list.len() == 0 {
        let none = Seq::<char>::empty();
        find_at(none, ',', 0);
        assert(split(none, ',') =~= seq![none]);
        assert(trim(none) == none);
        assert(seq![none].drop_last() =~= Seq::<Seq<char>>::empty());
        assert(trimmed_parts(seq![none].drop_last()) =~= Seq::<Seq<char>>::empty());
        assert(trimmed_parts(seq![none]) =~= list);
    } else {
        joined_parts_are_split(list, ',');
        ids_stay(list);
    }
}

} // verus!
