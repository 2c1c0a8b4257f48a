//! How values of Lua are shown.

use crate::error::ErrorModel;
use crate::lua::eval::{
    expression, global_names, lua_error_text, rendering, validation, Parsing, RenderingModel,
};
use crate::lua::{LuaKind, LuaValue};
use crate::text::{decimal_int, trim_start};
use vstd::prelude::*;

verus! {

/// Values are shown as Lua writes them: nothing as `nil`, flags and whole numbers by
/// their words and digits, other numbers and texts as they are. A table that is marked
/// as a picture is drawn, and any other is laid out.
pub proof fn values_are_shown(value: LuaValue, marker: Option<Seq<char>>)
    ensures
        match value.kind {
            LuaKind::Nil => rendering(value, marker) == Ok::<RenderingModel, ErrorModel>(
                RenderingModel::Text("nil"@),
            ),
            LuaKind::Boolean(b) => rendering(value, marker) == Ok::<RenderingModel, ErrorModel>(
                RenderingModel::Text(
                    if b {
                        "true"@
                    } else {
                        "false"@
                    },
                ),
            ),
            LuaKind::Integer(n) => rendering(value, marker) == Ok::<RenderingModel, ErrorModel>(
                RenderingModel::Text(decimal_int(n as int)),
            ),
            LuaKind::Number { written, .. } => rendering(value, marker) == Ok::<
                RenderingModel,
                ErrorModel,
            >(RenderingModel::Text(written@)),
            LuaKind::String => value.text matches Ok(text) ==> rendering(value, marker) == Ok::<
                RenderingModel,
                ErrorModel,
            >(RenderingModel::Text(text@)),
            LuaKind::Table => rendering(value, marker) == Ok::<RenderingModel, ErrorModel>(
                if marker == Some("screen"@) {
                    RenderingModel::Screen
                } else {
                    RenderingModel::Pretty
                },
            ),
            LuaKind::Function => rendering(value, marker) matches Ok(RenderingModel::Text(text))
                && crate::text::begins(text, "<function>"@),
            LuaKind::Other => rendering(value, marker) == Ok::<RenderingModel, ErrorModel>(
                RenderingModel::Pretty,
            ),
        },
{
    reveal_strlit("<function>");
    reveal_strlit("<function> · did you mean to call it with `()`?");
    let hint = crate::lua::eval::FUNCTION_HINT@;
    assert(hint == "<function> · did you mean to call it with `()`?"@);
    assert(hint.take("<function>"@.len() as int) =~= "<function>"@);
}

/// Errors are told without the words that Lua puts before those of a function, and
/// otherwise as they are.
pub proof fn errors_are_told_by_their_cause(message: Seq<char>)
    ensures
        lua_error_text("runtime error: "@ + message) == message,
        !crate::text::begins(message, "runtime error: "@) ==> lua_error_text(message) == message,
{
    let whole = "runtime error: "@ + message;
    assert(whole.take("runtime error: "@.len() as int) =~= "runtime error: "@);
    assert(whole.skip("runtime error: "@.len() as int) =~= message);
}

/// A line is run where it is blank, behind a colon, or whole in Lua, whether it gives a
/// value or does something.
pub proof fn whole_lines_are_run(line: Seq<char>, as_expression: Parsing, as_statement: Parsing)
    ensures
        trim_start(line).len() == 0 || trim_start(line)[0] == ':' || as_expression is Complete
            || as_statement is Complete || (as_expression is Wrong && as_statement is Wrong)
            ==> validation(line, as_expression, as_statement) is Complete,
{
}

/// The names that the client adds to Lua.
pub proof fn names_are_added(name: Seq<char>)
    ensures
        global_names().contains(name) == (name == "plugins"@ || name == "session"@ || name
            == "state"@ || name == "send"@ || name == "turn"@ || name == "wait"@ || name
            == "matches"@ || name == "screen_stable"@ || name == "cancel_wait"@ || name == "re"@
            || name == "ms"@ || name == "s"@ || name == "transcript"@ || name == "screen"@ || name
            == "view"@ || name == "inspect"@),
{
    let all = global_names();
    assert(all.len() == 16);
    assert(all[0] == "plugins"@ && all[1] == "session"@ && all[2] == "state"@ && all[3]
        == "send"@);
    assert(all[4] == "turn"@ && all[5] == "wait"@ && all[6] == "matches"@ && all[7]
        == "screen_stable"@);
    assert(all[8] == "cancel_wait"@ && all[9] == "re"@ && all[10] == "ms"@ && all[11] == "s"@);
    assert(all[12] == "transcript"@ && all[13] == "screen"@ && all[14] == "view"@ && all[15]
        == "inspect"@);
    if all.contains(name) {
        let i = all.index_of(name);
        assert(all[i] == name);
    }
}

/// A line that is tried as an expression is the line behind a `return`.
pub proof fn expressions_give_the_line_back(line: Seq<char>)
    ensures
        crate::text::begins(expression(line), "return "@),
        crate::adopt::ends(expression(line), line),
        expression(line).len() == line.len() + 7,
{
    reveal_strlit("return ");
    let text = expression(line);
    assert(text.take("return "@.len() as int) =~= "return "@);
    assert(text.skip(text.len() - line.len()) =~= line);
}

}
