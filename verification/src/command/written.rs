//! Arguments that are written down are read back.

use crate::command::arg::{ArgModel, CallModel};
use crate::command::lexer::{
    in_class, millis_of, next_at, number_at, raw_rest, run_end, string_rest, token_at,
    tokens_from, tokens_of, unescaped, Class, Lexed, TokModel,
};
use crate::command::parser::{arg_at, args_at, args_from, call_at, keyword_at, path_from};
use crate::command::{command_of, CmdModel};
use crate::duration::Duration;
use crate::text::{
    ascii_digit, decimal, decimals_are_read_back, signed_decimals_are_read_back, trim_keeps,
    white_space,
};
use vstd::prelude::*;

verus! {

/// Whether a text is a name: letters, digits and underscores, no digit first.
pub open spec fn is_name(s: Seq<char>) -> bool {
    &&& s.len() > 0
    &&& !ascii_digit(s[0])
    &&& forall|i: int| 0 <= i < s.len() ==> in_class(#[trigger] s[i], Class::Word)
}

/// A line that calls `name` with one argument.
pub open spec fn call_line(name: Seq<char>, argument: Seq<char>) -> Seq<char> {
    name + seq!['('] + argument + seq![')']
}

/// The call of `name` with one argument.
pub open spec fn call_with(name: Seq<char>, argument: ArgModel) -> CallModel {
    CallModel { path: seq![name], positional: seq![argument], kwargs: Seq::empty() }
}

/// How a character stands in a string literal.
pub open spec fn escaped(c: char) -> Seq<char> {
    if c == '\n' {
        seq!['\\', 'n']
    } else if c == '\t' {
        seq!['\\', 't']
    } else if c == '\r' {
        seq!['\\', 'r']
    } else if c == '\0' {
        seq!['\\', '0']
    } else if c == '\\' {
        seq!['\\', '\\']
    } else if c == '"' {
        seq!['\\', '"']
    } else {
        seq![c]
    }
}

/// How characters stand in a string literal.
pub open spec fn all_escaped(s: Seq<char>) -> Seq<char>
    decreases s.len(),
{
    if s.len() == 0 {
        Seq::empty()
    } else {
        escaped(s[0]) + all_escaped(s.drop_first())
    }
}

/// The string literal of a text.
pub open spec fn quoted(s: Seq<char>) -> Seq<char> {
    seq!['"'] + all_escaped(s) + seq!['"']
}

/// The raw string literal of a text without quotes.
pub open spec fn raw_quoted(s: Seq<char>) -> Seq<char> {
    seq!['r', '"'] + s + seq!['"']
}

/// Whether a length of time is a whole number of milliseconds that fits in 64
/// bits.
pub open(crate) spec fn whole_millis(d: Duration) -> bool {
    &&& d.subsecond_nanos() % 1_000_000 == 0
    &&& d.subsecond_nanos() < 1_000_000_000
    &&& d.millis() <= u64::MAX
}

// ---- laws ---------------------------------------------------------------

/// An integer, a flag, `null` and a length of whole milliseconds are shown as
/// they are entered: a call with what is shown has the value as its argument.
pub proof fn shown_values_are_read_back(name: Seq<char>, value: ArgModel)
    requires
        is_name(name),
        match value {
            ArgModel::Int(_) => true,
            ArgModel::Bool(_) => true,
            ArgModel::Null => true,
            ArgModel::Duration(d) => whole_millis(d),
            _ => false,
        },
    ensures
        command_of(call_line(name, value.shown())) == Ok::<CmdModel, Seq<char>>(
            CmdModel::Dsl(call_with(name, value)),
        ),
{
    let text = value.shown();
    let s = call_line(name, text);
    let p = name.len() as int + 1;
    argument_stands(name, text);
    match value {
        ArgModel::Int(n) => {
            signed_decimals_are_read_back(n as int);
            decimals_are_read_back((if n < 0 { -n } else { n as int }) as nat);
            let q = if n < 0 { p + 1 } else { p };
            let d = p + text.len();
            assert forall|i: int| q <= i < d implies ascii_digit(s[i]) by {
                assert(s[i] == text[i - p]);
                if n < 0 {
                    assert(text[i - p] == decimal((-n) as nat)[i - p - 1]);
                }
            }
            run_ends_at(s, q, d, Class::Digit);
            assert(s[p] == text[0]);
            assert(s.subrange(p, d) =~= text);
            assert(s.subrange(d, d) =~= Seq::<char>::empty());
            assert(run_end(s, d, Class::Letter) == d);
            assert(ascii_digit(s[p]) || s[p] == '-');
            assert(token_at(s, p) == number_at(s, p));
            value_is_read(name, text, TokModel::Int(n), value);
        },
        ArgModel::Duration(time) => {
            let n = time.millis() as nat;
            decimals_are_read_back(n);
            reveal_strlit("ms");
            let digits = decimal(n);
            let d = p + digits.len();
            let e = d + 2;
            assert forall|i: int| p <= i < d implies ascii_digit(s[i]) by {
                assert(s[i] == digits[i - p]);
            }
            assert(s[d] == 'm');
            assert(s[d + 1] == 's');
            run_ends_at(s, p, d, Class::Digit);
            run_ends_at(s, d, e, Class::Letter);
            assert(s.subrange(p, d) =~= digits);
            assert(s.subrange(d, e) =~= "ms"@);
            assert(token_at(s, p) == number_at(s, p));
            assert(millis_of(n as u64) == time);
            value_is_read(name, text, TokModel::Duration(time), value);
        },
        ArgModel::Bool(b) => {
            reveal_strlit("true");
            reveal_strlit("false");
            word_is_read(name, text);
            value_is_read(name, text, TokModel::Ident(text), value);
        },
        _ => {
            reveal_strlit("null");
            reveal_strlit("true");
            reveal_strlit("false");
            word_is_read(name, text);
            value_is_read(name, text, TokModel::Ident(text), value);
        },
    }
}

/// A text that is written as a string literal is read back, whatever
/// characters it has. Nothing is said here of how a string argument is shown,
/// as its escapes are those of `std`.
pub proof fn quoted_strings_are_read_back(name: Seq<char>, text: Seq<char>)
    requires
        is_name(name),
    ensures
        command_of(call_line(name, quoted(text))) == Ok::<CmdModel, Seq<char>>(
            CmdModel::Dsl(call_with(name, ArgModel::String(text))),
        ),
{
    let literal = quoted(text);
    let s = call_line(name, literal);
    let p = name.len() as int + 1;
    argument_stands(name, literal);
    assert(s[p] == literal[0]);
    assert(s.subrange(p + 1, p + literal.len() - 1) =~= all_escaped(text));
    assert(s[p + literal.len() - 1] == literal.last());
    literal_is_read(s, p + 1, Seq::empty(), text);
    assert(Seq::<char>::empty() + text =~= text);
    value_is_read(name, literal, TokModel::String(text), ArgModel::String(text));
}

/// A text without quotes that is written as a raw string literal is read back.
pub proof fn raw_strings_are_read_back(name: Seq<char>, text: Seq<char>)
    requires
        is_name(name),
        !text.contains('"'),
    ensures
        command_of(call_line(name, raw_quoted(text))) == Ok::<CmdModel, Seq<char>>(
            CmdModel::Dsl(call_with(name, ArgModel::Regex(text))),
        ),
{
    let literal = raw_quoted(text);
    let s = call_line(name, literal);
    let p = name.len() as int + 1;
    let e = p + 2 + text.len();
    argument_stands(name, literal);
    assert(s[p] == literal[0]);
    assert(s[p + 1] == literal[1]);
    assert(s[e] == literal.last());
    assert(s.subrange(p + 2, e) =~= text);
    assert forall|i: int| p + 2 <= i < e implies s[i] != '"' by {
        assert(s[i] == text[i - p - 2]);
        assert(text.contains(text[i - p - 2]));
    }
    raw_is_read(s, p + 2, p + 2, e);
    value_is_read(name, literal, TokModel::Regex(text), ArgModel::Regex(text));
}

// ---- how a line is read -------------------------------------------------

/// Where the parts of a line with one call stand.
proof fn argument_stands(name: Seq<char>, text: Seq<char>)
    requires
        is_name(name),
    ensures
        ({
            let s = call_line(name, text);
            let n = name.len() as int;
            &&& s.len() == n + text.len() + 2
            &&& s.take(n) == name
            &&& s[n] == '('
            &&& s.subrange(n + 1, n + 1 + text.len()) == text
            &&& forall|i: int| 0 <= i < text.len() ==> s[n + 1 + i] == #[trigger] text[i]
            &&& s[n + 1 + text.len()] == ')'
        }),
{
    let s = call_line(name, text);
    let n = name.len() as int;
    assert(s.take(n) =~= name);
    assert(s.subrange(n + 1, n + 1 + text.len()) =~= text);
}

/// A run of characters of a class ends where the first other one stands.
pub(crate) proof fn run_ends_at(s: Seq<char>, p: int, e: int, class: Class)
    requires
        0 <= p <= e <= s.len(),
        forall|i: int| p <= i < e ==> in_class(#[trigger] s[i], class),
        e < s.len() ==> !in_class(s[e], class),
    ensures
        run_end(s, p, class) == e,
    decreases e - p,
{
    if p < e {
        assert(in_class(s[p], class));
        run_ends_at(s, p + 1, e, class);
    }
}

/// A word is read as a name.
proof fn word_is_read(name: Seq<char>, text: Seq<char>)
    requires
        is_name(name),
        text == "true"@ || text == "false"@ || text == "null"@,
    ensures
        token_at(call_line(name, text), name.len() as int + 1) == Lexed::Token(
            TokModel::Ident(text),
            name.len() as int + 1 + text.len(),
        ),
{
    let s = call_line(name, text);
    let p = name.len() as int + 1;
    let e = p + text.len();
    reveal_strlit("true");
    reveal_strlit("false");
    reveal_strlit("null");
    argument_stands(name, text);
    assert(s[p] == text[0]);
    assert(s[p + 1] == text[1]);
    assert forall|i: int| p <= i < e implies in_class(#[trigger] s[i], Class::Word) by {
        assert(s[i] == text[i - p]);
    }
    run_ends_at(s, p, e, Class::Word);
    assert(s.subrange(p, e) =~= text);
}

/// What stands between quotes is the text whose escapes stand there.
pub(crate) proof fn literal_is_read(s: Seq<char>, p: int, sofar: Seq<char>, text: Seq<char>)
    requires
        0 <= p,
        p + all_escaped(text).len() < s.len(),
        s.subrange(p, p + all_escaped(text).len()) == all_escaped(text),
        s[p + all_escaped(text).len()] == '"',
    ensures
        string_rest(s, p, sofar) == Ok::<(Seq<char>, int), Seq<char>>(
            (sofar + text, p + all_escaped(text).len() + 1),
        ),
    decreases text.len(),
{
    let all = all_escaped(text);
    let part = s.subrange(p, p + all.len());
    if text.len() == 0 {
        assert(sofar + text =~= sofar);
    } else {
        let c = text[0];
        let rest = text.drop_first();
        let one = escaped(c);
        assert(all == one + all_escaped(rest));
        assert(part[0] == s[p]);
        assert(s[p] == one[0]);
        if one.len() == 2 {
            assert(part[1] == s[p + 1]);
            assert(s[p + 1] == one[1]);
            assert(unescaped(one[1]) == Some(c));
        }
        let q = p + one.len();
        assert(s.subrange(q, q + all_escaped(rest).len()) =~= all_escaped(rest)) by {
            assert forall|i: int| 0 <= i < all_escaped(rest).len() implies s[q + i]
                == all_escaped(rest)[i] by {
                assert(part[one.len() + i] == all[one.len() + i]);
            }
        }
        literal_is_read(s, q, sofar.push(c), rest);
        assert(sofar.push(c) + rest =~= sofar + text);
        assert(string_rest(s, p, sofar) == string_rest(s, q, sofar.push(c)));
    }
}

/// What stands before the closing quote of a raw string is its text.
pub(crate) proof fn raw_is_read(s: Seq<char>, start: int, p: int, e: int)
    requires
        0 <= start <= p <= e < s.len(),
        forall|i: int| p <= i < e ==> s[i] != '"',
        s[e] == '"',
    ensures
        raw_rest(s, start, p) == Ok::<(Seq<char>, int), Seq<char>>((s.subrange(start, e), e + 1)),
    decreases e - p,
{
    if p < e {
        assert(s[p] != '"');
        raw_is_read(s, start, p + 1, e);
    }
}

/// A line with one call is read as that call, if its argument is read as one
/// token that stands for the value.
proof fn value_is_read(name: Seq<char>, text: Seq<char>, tok: TokModel, value: ArgModel)
    requires
        is_name(name),
        text.len() > 0,
        !white_space(text[0]),
        token_at(call_line(name, text), name.len() as int + 1) == Lexed::Token(
            tok,
            name.len() as int + 1 + text.len(),
        ),
        match tok {
            TokModel::String(t) => value == ArgModel::String(t),
            TokModel::Regex(t) => value == ArgModel::Regex(t),
            TokModel::Int(n) => value == ArgModel::Int(n),
            TokModel::Duration(d) => value == ArgModel::Duration(d),
            TokModel::Ident(t) => {
                ||| t == "true"@ && value == ArgModel::Bool(true)
                ||| t == "false"@ && t != "true"@ && value == ArgModel::Bool(false)
                ||| t == "null"@ && t != "true"@ && t != "false"@ && value == ArgModel::Null
            },
            _ => false,
        },
    ensures
        command_of(call_line(name, text)) == Ok::<CmdModel, Seq<char>>(
            CmdModel::Dsl(call_with(name, value)),
        ),
{
    let s = call_line(name, text);
    let n = name.len() as int;
    let p = n + 1;
    let q = p + text.len();
    argument_stands(name, text);
    // The name is the first token.
    assert forall|i: int| 0 <= i < n implies in_class(#[trigger] s[i], Class::Word) by {
        assert(s[i] == name[i]);
    }
    assert(s[0] == name[0]);
    assert(in_class(name[0], Class::Word));
    run_ends_at(s, 0, n, Class::Word);
    assert(s.subrange(0, n) =~= name);
    if n > 1 {
        assert(in_class(s[1], Class::Word));
    }
    assert(run_end(s, 0, Class::Space) == 0);
    assert(next_at(s, 0) == Lexed::Token(TokModel::Ident(name), n));
    assert(run_end(s, n, Class::Space) == n);
    assert(next_at(s, n) == Lexed::Token(TokModel::LParen, p));
    assert(s[p] == text[0]);
    assert(run_end(s, p, Class::Space) == p);
    assert(next_at(s, p) == Lexed::Token(tok, q));
    assert(run_end(s, q, Class::Space) == q);
    assert(next_at(s, q) == Lexed::Token(TokModel::RParen, q + 1));
    assert(q + 1 == s.len());
    assert(run_end(s, q + 1, Class::Space) == q + 1);
    assert(next_at(s, q + 1) == Lexed::End);
    let t = seq![TokModel::Ident(name), TokModel::LParen, tok, TokModel::RParen];
    assert(tokens_from(s, q + 1) == Ok::<Seq<TokModel>, Seq<char>>(Seq::empty()));
    assert(tokens_from(s, q) == Ok::<Seq<TokModel>, Seq<char>>(
        seq![TokModel::RParen] + Seq::empty(),
    ));
    let last = seq![TokModel::RParen] + Seq::<TokModel>::empty();
    assert(tokens_from(s, p) == Ok::<Seq<TokModel>, Seq<char>>(seq![tok] + last));
    assert(tokens_from(s, n) == Ok::<Seq<TokModel>, Seq<char>>(
        seq![TokModel::LParen] + (seq![tok] + last),
    ));
    assert(tokens_from(s, 0) == Ok::<Seq<TokModel>, Seq<char>>(
        seq![TokModel::Ident(name)] + (seq![TokModel::LParen] + (seq![tok] + last)),
    ));
    assert(seq![TokModel::Ident(name)] + (seq![TokModel::LParen] + (seq![tok] + last)) =~= t);
    assert(tokens_of(s) == Ok::<Seq<TokModel>, Seq<char>>(t));
    // The tokens are the call.
    assert(arg_at(t, 2) == Ok::<(ArgModel, int), Seq<char>>((value, 3)));
    assert(!keyword_at(t, 2));
    let none = Seq::<ArgModel>::empty();
    let no_names = Seq::<(Seq<char>, ArgModel)>::empty();
    assert(none.push(value) =~= seq![value]);
    assert(args_from(t, 2, none, no_names) == Ok::<
        (Seq<ArgModel>, Seq<(Seq<char>, ArgModel)>, int),
        Seq<char>,
    >((seq![value], no_names, 4)));
    assert(args_at(t, 2) == args_from(t, 2, none, no_names));
    let no_path = Seq::<Seq<char>>::empty();
    assert(no_path.push(name) =~= seq![name]);
    assert(path_from(t, 0, no_path) == Ok::<(Seq<Seq<char>>, int), Seq<char>>((seq![name], 1)));
    assert(call_at(t, 0) == Ok::<(CallModel, int), Seq<char>>((call_with(name, value), 4)));
    // The line is not trimmed and not behind a colon.
    assert(s.last() == ')');
    trim_keeps(s);
}

} // verus!
