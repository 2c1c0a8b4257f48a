//! Which chunk a line is, whether it is complete, and how its values are
//! shown.

use crate::error::{Error, ErrorModel};
use crate::lua::{LuaKind, LuaValue};
use crate::screen::ScreenSnapshot;
use crate::text::{
    begins, decimal_int, decimal_int_text, same, strip_prefix, texts, trim_start, trimmed_start,
};
use vstd::prelude::*;

verus! {

broadcast use vstd::string::group_string_axioms;

/// A value of a line, ready to be shown.
#[derive(Debug)]
pub enum RenderedValue {
    Text(String),
    Screen { adapter: String, snapshot: ScreenSnapshot },
}

/// The values of a line. A statement has none.
#[derive(Debug)]
pub struct EvalResult {
    pub values: Vec<RenderedValue>,
}

impl Default for EvalResult {
    fn default() -> (r: Self)
        ensures
            r.values@.len() == 0,
    {
        EvalResult { values: Vec::new() }
    }
}

/// The names that the client adds to Lua.
pub open spec fn global_names() -> Seq<Seq<char>> {
    seq![
        "plugins"@,
        "session"@,
        "state"@,
        "send"@,
        "turn"@,
        "wait"@,
        "matches"@,
        "screen_stable"@,
        "cancel_wait"@,
        "re"@,
        "ms"@,
        "s"@,
        "transcript"@,
        "screen"@,
        "view"@,
        "inspect"@,
    ]
}

/// The names that the client adds to Lua.
pub fn repl_globals() -> (r: Vec<String>)
    ensures
        texts(r@) == global_names(),
{
    let r: Vec<String> = vec![
        "plugins".to_owned(),
        "session".to_owned(),
        "state".to_owned(),
        "send".to_owned(),
        "turn".to_owned(),
        "wait".to_owned(),
        "matches".to_owned(),
        "screen_stable".to_owned(),
        "cancel_wait".to_owned(),
        "re".to_owned(),
        "ms".to_owned(),
        "s".to_owned(),
        "transcript".to_owned(),
        "screen".to_owned(),
        "view".to_owned(),
        "inspect".to_owned(),
    ];
    assert(texts(r@) =~= global_names());
    r
}

// ---- chunks -------------------------------------------------------------

/// A Lua virtual machine.
#[verifier::external_type_specification]
#[verifier::external_body]
pub struct OutsideLua(mlua::Lua);

/// How a text parses as a chunk.
#[derive(Debug, Clone, Copy, PartialEq, Eq)]
pub enum Parsing {
    /// It is a chunk.
    Complete,
    /// It is the beginning of one.
    Unfinished,
    /// It is neither.
    Wrong,
}

/// How a text parses as a Lua chunk.
pub uninterp spec fn chunk_parsing(text: Seq<char>) -> Parsing;

/// `mlua::Chunk::into_function`: compiles the text as a chunk without running
/// it. What comes of it depends on the text alone. An error that is marked as
/// incomplete input is told apart from the others.
#[verifier::external_body]
fn parse_chunk(lua: &mlua::Lua, text: &str) -> (r: Parsing)
    ensures
        r == chunk_parsing(text@),
{
    match lua.load(text).set_name("=stdin").into_function() {
        Ok(_) => Parsing::Complete,
        Err(mlua::Error::SyntaxError { incomplete_input: true, .. }) => Parsing::Unfinished,
        Err(_) => Parsing::Wrong,
    }
}

/// The line as an expression whose value is given back.
pub open spec fn expression(line: Seq<char>) -> Seq<char> {
    "return "@ + line
}

fn expression_text(line: &str) -> (r: String)
    ensures
        r@ == expression(line@),
{
    let mut text: String = "return ".to_owned();
    text.push_str(line);
    text
}

/// What to run for a line.
#[derive(Debug)]
pub enum Chunk {
    /// An expression, whose values are shown.
    Expression(String),
    /// A statement.
    Statement(String),
}

/// What to run for a line, by how it parses as an expression.
pub fn chunk_for(line: &str, as_expression: Parsing) -> (r: Chunk)
    ensures
        as_expression is Complete ==> (r matches Chunk::Expression(text) && text@ == expression(
            line@,
        )),
        !(as_expression is Complete) ==> (r matches Chunk::Statement(text) && text@ == line@),
{
    match as_expression {
        Parsing::Complete => Chunk::Expression(expression_text(line)),
        _ => Chunk::Statement(line.to_owned()),
    }
}

/// What to run for a line: an expression if it is one, else a statement.
pub fn choose_chunk(lua: &mlua::Lua, line: &str) -> (r: Chunk)
    ensures
        match r {
            Chunk::Expression(text) => chunk_parsing(expression(line@)) is Complete && text@
                == expression(line@),
            Chunk::Statement(text) => !(chunk_parsing(expression(line@)) is Complete) && text@
                == line@,
        },
{
    let text: String = expression_text(line);
    chunk_for(line, parse_chunk(lua, text.as_str()))
}

// ---- validation ---------------------------------------------------------

/// Whether a line can be run, or more of it is to come.
#[derive(Debug, Clone, Copy, PartialEq, Eq)]
pub enum Validation {
    Complete,
    Incomplete,
}

/// Whether a line is run without asking Lua: it is blank or a meta command.
pub open spec fn needs_no_parse(line: Seq<char>) -> bool {
    let trimmed = trim_start(line);
    trimmed.len() == 0 || trimmed[0] == ':'
}

/// Whether the line is complete, by how it parses as an expression and as a
/// statement. A line that is wrong is complete, so that its error is told.
pub open spec fn validation(
    line: Seq<char>,
    as_expression: Parsing,
    as_statement: Parsing,
) -> Validation {
    if needs_no_parse(line) || as_expression is Complete || as_statement is Complete {
        Validation::Complete
    } else if as_expression is Unfinished || as_statement is Unfinished {
        Validation::Incomplete
    } else {
        Validation::Complete
    }
}

/// Whether a line is run without asking Lua.
fn skips_parse(line: &str) -> (r: bool)
    ensures
        r == needs_no_parse(line@),
{
    let trimmed: String = trimmed_start(line);
    let chars: Vec<char> = crate::text::chars_of(trimmed.as_str());
    chars.len() == 0 || chars[0] == ':'
}

/// Whether the line is complete, by how it parses.
pub fn validate_parsed(line: &str, as_expression: Parsing, as_statement: Parsing) -> (r: Validation)
    ensures
        r == validation(line@, as_expression, as_statement),
{
    if skips_parse(line) {
        return Validation::Complete;
    }
    match as_expression {
        Parsing::Complete => Validation::Complete,
        Parsing::Unfinished => match as_statement {
            Parsing::Complete => Validation::Complete,
            _ => Validation::Incomplete,
        },
        Parsing::Wrong => match as_statement {
            Parsing::Unfinished => Validation::Incomplete,
            _ => Validation::Complete,
        },
    }
}

/// Whether the line is complete.
pub fn validate(lua: &mlua::Lua, line: &str) -> (r: Validation)
    ensures
        r == validation(line@, chunk_parsing(expression(line@)), chunk_parsing(line@)),
{
    if skips_parse(line) {
        return Validation::Complete;
    }
    let text: String = expression_text(line);
    let as_expression: Parsing = parse_chunk(lua, text.as_str());
    match as_expression {
        Parsing::Complete => Validation::Complete,
        _ => validate_parsed(line, as_expression, parse_chunk(lua, line)),
    }
}

// ---- values -------------------------------------------------------------

/// What is shown for a bare function.
pub const FUNCTION_HINT: &'static str = "<function> · did you mean to call it with `()`?";

/// How a value is shown.
#[derive(Debug)]
pub enum Rendering {
    /// As this text.
    Text(String),
    /// As the picture of a terminal that it holds.
    Screen,
    /// As the pretty-printer shows it.
    Pretty,
}

pub enum RenderingModel {
    Text(Seq<char>),
    Screen,
    Pretty,
}

impl View for Rendering {
    type V = RenderingModel;

    open spec fn view(&self) -> RenderingModel {
        match self {
            Rendering::Text(s) => RenderingModel::Text(s@),
            Rendering::Screen => RenderingModel::Screen,
            Rendering::Pretty => RenderingModel::Pretty,
        }
    }
}

/// How a value is shown. A table may be marked as the picture of a terminal.
pub open spec fn rendering(value: LuaValue, marker: Option<Seq<char>>) -> Result<
    RenderingModel,
    ErrorModel,
> {
    match value.kind {
        LuaKind::Nil => Ok(RenderingModel::Text("nil"@)),
        LuaKind::Boolean(b) => Ok(
            RenderingModel::Text(
                if b {
                    "true"@
                } else {
                    "false"@
                },
            ),
        ),
        LuaKind::Integer(n) => Ok(RenderingModel::Text(decimal_int(n as int))),
        LuaKind::Number { written, .. } => Ok(RenderingModel::Text(written@)),
        LuaKind::String => match value.text {
            Ok(s) => Ok(RenderingModel::Text(s@)),
            Err(e) => Err(ErrorModel::Lua(e@)),
        },
        LuaKind::Table => if marker == Some("screen"@) {
            Ok(RenderingModel::Screen)
        } else {
            Ok(RenderingModel::Pretty)
        },
        LuaKind::Function => Ok(RenderingModel::Text(FUNCTION_HINT@)),
        LuaKind::Other => Ok(RenderingModel::Pretty),
    }
}

/// How a value is shown.
pub fn render_one(value: &LuaValue, marker: Option<&String>) -> (r: Result<Rendering, Error>)
    ensures
        rendering(
            *value,
            match marker {
                Some(s) => Some(s@),
                None => None,
            },
        ) == (match r {
            Ok(x) => Ok::<RenderingModel, ErrorModel>(x@),
            Err(e) => Err(e@),
        }),
{
    match &value.kind {
        LuaKind::Nil => Ok(Rendering::Text("nil".to_owned())),
        LuaKind::Boolean(b) => Ok(
            Rendering::Text(
                if *b {
                    "true".to_owned()
                } else {
                    "false".to_owned()
                },
            ),
        ),
        LuaKind::Integer(n) => Ok(Rendering::Text(decimal_int_text(*n))),
        LuaKind::Number { written, .. } => Ok(Rendering::Text(written.clone())),
        LuaKind::String => match &value.text {
            Ok(s) => Ok(Rendering::Text(s.clone())),
            Err(e) => Err(Error::Lua(e.clone())),
        },
        LuaKind::Table => match marker {
            Some(kind) => if same(kind.as_str(), "screen") {
                Ok(Rendering::Screen)
            } else {
                Ok(Rendering::Pretty)
            },
            None => Ok(Rendering::Pretty),
        },
        LuaKind::Function => Ok(Rendering::Text(FUNCTION_HINT.to_owned())),
        LuaKind::Other => Ok(Rendering::Pretty),
    }
}

/// The text of an error without the prefix that Lua adds to it.
pub open spec fn lua_error_text(message: Seq<char>) -> Seq<char> {
    if begins(message, "runtime error: "@) {
        message.skip("runtime error: "@.len() as int)
    } else {
        message
    }
}

/// The text of an error as it is shown.
pub fn format_lua_error(error: &Error) -> (r: String)
    ensures
        r@ == lua_error_text(error@.message()),
{
    let text: &String = error.message();
    match strip_prefix(text.as_str(), "runtime error: ") {
        Some(rest) => rest,
        None => text.clone(),
    }
}

// ---- laws ---------------------------------------------------------------

/// A meta command is run as it stands, whatever Lua would make of it.
pub proof fn meta_commands_are_never_continued(
    line: Seq<char>,
    as_expression: Parsing,
    as_statement: Parsing,
)
    requires
        trim_start(line).len() > 0,
        trim_start(line)[0] == ':',
    ensures
        validation(line, as_expression, as_statement) is Complete,
{
}

/// More is asked for just where Lua takes the line for the beginning of a
/// chunk, one way or the other, and for a whole one neither way. A line that
/// can become none is run, so that its error is told.
pub proof fn only_beginnings_are_continued(
    line: Seq<char>,
    as_expression: Parsing,
    as_statement: Parsing,
)
    requires
        !needs_no_parse(line),
    ensures
        validation(line, as_expression, as_statement) is Incomplete <==> (as_expression is Unfinished
            || as_statement is Unfinished) && !(as_expression is Complete) && !(
        as_statement is Complete),
{
}

} // verus!
