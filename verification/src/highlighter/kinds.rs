//! What the pieces of a line are, told from the line itself.

use crate::highlighter::{
    blank, keywords, long_end, number_part, piece_at, piece_bounds, pieces, pieces_from, punctuation,
    quoted_end, run_end, runs_on, style, word_part, word_start, Kind, Run,
};
use crate::paint::Shade;
use crate::text::ascii_digit;
use vstd::prelude::*;

verus! {

/// The words of Lua.
pub open spec fn is_lua_word(word: Seq<char>) -> bool {
    ||| word == "and"@ || word == "break"@ || word == "do"@ || word == "else"@
    ||| word == "elseif"@ || word == "end"@ || word == "false"@ || word == "for"@
    ||| word == "function"@ || word == "goto"@ || word == "if"@ || word == "in"@
    ||| word == "local"@ || word == "nil"@ || word == "not"@ || word == "or"@
    ||| word == "repeat"@ || word == "return"@ || word == "then"@ || word == "true"@
    ||| word == "until"@ || word == "while"@
}

proof fn keywords_are_lua_words(word: Seq<char>)
    ensures
        keywords().contains(word) == is_lua_word(word),
{
    let all = keywords();
    assert(all.len() == 22);
    assert(all[0] == "and"@ && all[1] == "break"@ && all[2] == "do"@ && all[3] == "else"@);
    assert(all[4] == "elseif"@ && all[5] == "end"@ && all[6] == "false"@ && all[7] == "for"@);
    assert(all[8] == "function"@ && all[9] == "goto"@ && all[10] == "if"@ && all[11] == "in"@);
    assert(all[12] == "local"@ && all[13] == "nil"@ && all[14] == "not"@ && all[15] == "or"@);
    assert(all[16] == "repeat"@ && all[17] == "return"@ && all[18] == "then"@ && all[19]
        == "true"@);
    assert(all[20] == "until"@ && all[21] == "while"@);
    if all.contains(word) {
        let i = all.index_of(word);
        assert(all[i] == word);
    }
}

/// Whether a quoted or bracketed string begins here.
pub open spec fn opens_string(text: Seq<char>) -> bool {
    text[0] == '"' || text[0] == '\'' || (text.len() >= 2 && text[0] == '[' && text[1] == '[')
}

/// Whether a number begins here.
pub open spec fn opens_number(text: Seq<char>) -> bool {
    ascii_digit(text[0]) || (text.len() >= 2 && text[0] == '-' && ascii_digit(text[1]))
}

/// Whether all that follows the first character is of some sort.
pub open spec fn goes_on(text: Seq<char>, run: Run) -> bool {
    forall|i: int| 1 <= i < text.len() ==> runs_on(#[trigger] text[i], run)
}

/// Whether a piece is what it is said to be.
pub open spec fn rightly_called(kind: Kind, text: Seq<char>, globals: Seq<Seq<char>>) -> bool {
    &&& text.len() > 0
    &&& match kind {
        Kind::Whitespace => blank(text[0]) && goes_on(text, Run::Blank),
        Kind::Keyword => is_lua_word(text),
        Kind::Method => globals.contains(text) && !is_lua_word(text),
        Kind::String => opens_string(text),
        Kind::Number => opens_number(text) && goes_on(text, Run::Number),
        Kind::Meta => text[0] == ':' && goes_on(text, Run::Word),
        Kind::Punctuation => text.len() == 1 && punctuation(text[0]),
        Kind::Other => {
            ||| text.len() >= 2 && text[0] == '-' && text[1] == '-' && goes_on(text, Run::Line)
            ||| word_start(text[0]) && goes_on(text, Run::Word) && !is_lua_word(text)
                && !globals.contains(text)
            ||| text.len() == 1 && !punctuation(text[0]) && !blank(text[0]) && !ascii_digit(text[0])
                && text[0] != '"' && text[0] != '\'' && !word_start(text[0])
        },
    }
}

proof fn runs_run_on(s: Seq<char>, i: int, run: Run)
    requires
        0 <= i <= s.len(),
    ensures
        i <= run_end(s, i, run) <= s.len(),
        forall|j: int| i <= j < run_end(s, i, run) ==> runs_on(#[trigger] s[j], run),
        run_end(s, i, run) < s.len() ==> !runs_on(s[run_end(s, i, run)], run),
    decreases s.len() - i,
{
    if i < s.len() && runs_on(s[i], run) {
        runs_run_on(s, i + 1, run);
    }
}

proof fn each_piece_is_rightly_called(s: Seq<char>, i: int, globals: Seq<Seq<char>>)
    requires
        0 <= i < s.len(),
    ensures
        rightly_called(
            piece_at(s, i, globals).0,
            s.subrange(i, piece_at(s, i, globals).1),
            globals,
        ),
{
    piece_bounds(s, i, globals);
    let (kind, e) = piece_at(s, i, globals);
    let text = s.subrange(i, e);
    keywords_are_lua_words(text);
    runs_run_on(s, i, Run::Blank);
    runs_run_on(s, i, Run::Word);
    runs_run_on(s, i, Run::Number);
    runs_run_on(s, i, Run::Line);
    if i + 1 <= s.len() {
        runs_run_on(s, i + 1, Run::Word);
        runs_run_on(s, i + 1, Run::Number);
    }
    assert(text[0] == s[i]);
    if text.len() >= 2 {
        assert(text[1] == s[i + 1]);
    }
    if s[i] == '-' && i + 1 < s.len() && s[i + 1] == '-' {
        assert(run_end(s, i, Run::Line) == run_end(s, i + 1, Run::Line));
        assert(run_end(s, i + 1, Run::Line) == run_end(s, i + 2, Run::Line));
        runs_run_on(s, i + 2, Run::Line);
        assert(!blank('-'));
    }
    if s[i] == '[' && i + 1 < s.len() && s[i + 1] == '[' {
        brackets_are_held(s, i + 2);
    }
    if s[i] == '-' && i + 1 < s.len() && ascii_digit(s[i + 1]) {
        assert(run_end(s, i + 1, Run::Number) == run_end(s, i + 2, Run::Number));
        runs_run_on(s, i + 2, Run::Number);
        assert(number_part(s[i + 1]));
    }
    assert forall|j: int| 1 <= j < text.len() implies text[j] == s[i + j] by {}
}

proof fn brackets_are_held(s: Seq<char>, i: int)
    requires
        0 <= i <= s.len(),
    ensures
        long_end(s, i) >= i,
    decreases s.len() - i,
{
    if i + 1 < s.len() && !(s[i] == ']' && s[i + 1] == ']') {
        brackets_are_held(s, i + 1);
    }
}

/// Every piece of a line is rightly called: a string begins with a quote or with
/// brackets, a number is made of digits, a word is one of Lua just where it is on its
/// list, one of the client's names just where it is among those, and so on.
pub proof fn pieces_are_rightly_called(line: Seq<char>, globals: Seq<Seq<char>>, k: int)
    requires
        0 <= k < pieces(line, globals).len(),
    ensures
        rightly_called(pieces(line, globals)[k].0, pieces(line, globals)[k].1, globals),
{
    later_pieces_are_rightly_called(line, 0, globals, k);
}

proof fn later_pieces_are_rightly_called(s: Seq<char>, i: int, globals: Seq<Seq<char>>, k: int)
    requires
        0 <= i,
        0 <= k < pieces_from(s, i, globals).len(),
    ensures
        rightly_called(pieces_from(s, i, globals)[k].0, pieces_from(s, i, globals)[k].1, globals),
    decreases s.len() - i,
{
    if i < s.len() {
        piece_bounds(s, i, globals);
        each_piece_is_rightly_called(s, i, globals);
        let e = piece_at(s, i, globals).1;
        if k > 0 {
            later_pieces_are_rightly_called(s, e, globals, k - 1);
            assert(pieces_from(s, i, globals)[k] == pieces_from(s, e, globals)[k - 1]);
        }
    }
}

proof fn first_piece(s: Seq<char>, e: int, globals: Seq<Seq<char>>)
    requires
        0 < e <= s.len(),
        piece_at(s, 0, globals).1 == e,
    ensures
        pieces(s, globals).len() > 0,
        pieces(s, globals)[0] == (piece_at(s, 0, globals).0, s.take(e)),
{
    assert(s.subrange(0, e) =~= s.take(e));
}

proof fn runs_end_where_they_do(s: Seq<char>, i: int, n: int, run: Run)
    requires
        0 <= i <= n <= s.len(),
        forall|j: int| i <= j < n ==> runs_on(#[trigger] s[j], run),
        n < s.len() ==> !runs_on(s[n], run),
    ensures
        run_end(s, i, run) == n,
    decreases n - i,
{
    if i < n {
        assert(runs_on(s[i], run));
        runs_end_where_they_do(s, i + 1, n, run);
    }
}

proof fn quotes_end_where_they_do(s: Seq<char>, i: int, n: int, quote: char)
    requires
        0 <= i <= n < s.len(),
        forall|j: int| i <= j < n ==> (#[trigger] s[j]) != quote && s[j] != '\\',
        s[n] == quote,
        quote != '\\',
    ensures
        quoted_end(s, i, quote) == n + 1,
    decreases n - i,
{
    if i < n {
        assert(s[i] != quote && s[i] != '\\');
        quotes_end_where_they_do(s, i + 1, n, quote);
    }
}

/// A word goes on for as long as it can: what stands up to the first character that is
/// no part of a word is one piece, of Lua, of the client or neither.
pub proof fn words_are_whole(word: Seq<char>, rest: Seq<char>, globals: Seq<Seq<char>>)
    requires
        word.len() > 0,
        word_start(word[0]),
        forall|i: int| 0 <= i < word.len() ==> word_part(#[trigger] word[i]),
        rest.len() > 0 ==> !word_part(rest[0]),
    ensures
        ({
            let found = pieces(word + rest, globals);
            &&& found.len() > 0
            &&& found[0].1 == word
            &&& found[0].0 is Keyword <==> is_lua_word(word)
            &&& found[0].0 is Method <==> !is_lua_word(word) && globals.contains(word)
            &&& found[0].0 is Other <==> !is_lua_word(word) && !globals.contains(word)
        }),
{
    let s = word + rest;
    let n = word.len() as int;
    assert forall|j: int| 0 <= j < n implies runs_on(#[trigger] s[j], Run::Word) by {
        assert(s[j] == word[j]);
    }
    runs_end_where_they_do(s, 0, n, Run::Word);
    keywords_are_lua_words(word);
    assert(s[0] == word[0]);
    assert(s.subrange(0, n) =~= word);
    assert(s.take(n) =~= word);
    first_piece(s, n, globals);
}

/// A string is one piece, from its quote to the next one of its kind, whatever stands
/// between them.
pub proof fn strings_are_whole(
    quote: char,
    body: Seq<char>,
    rest: Seq<char>,
    globals: Seq<Seq<char>>,
)
    requires
        quote == '"' || quote == '\'',
        forall|i: int| 0 <= i < body.len() ==> (#[trigger] body[i]) != quote && body[i] != '\\',
    ensures
        ({
            let found = pieces(seq![quote] + body + seq![quote] + rest, globals);
            found.len() > 0 && found[0] == (Kind::String, seq![quote] + body + seq![quote])
        }),
{
    let s = seq![quote] + body + seq![quote] + rest;
    let n: int = body.len() + 1int;
    assert forall|j: int| 1 <= j < n implies (#[trigger] s[j]) != quote && s[j] != '\\' by {
        assert(s[j] == body[j - 1]);
    }
    assert(s[n] == quote);
    quotes_end_where_they_do(s, 1, n, quote);
    assert(s[0] == quote);
    assert(s.take(n + 1) =~= seq![quote] + body + seq![quote]);
    first_piece(s, n + 1, globals);
}

/// A row of digits is one number.
pub proof fn numbers_are_whole(digits: Seq<char>, rest: Seq<char>, globals: Seq<Seq<char>>)
    requires
        digits.len() > 0,
        forall|i: int| 0 <= i < digits.len() ==> ascii_digit(#[trigger] digits[i]),
        rest.len() > 0 ==> !number_part(rest[0]),
    ensures
        ({
            let found = pieces(digits + rest, globals);
            found.len() > 0 && found[0] == (Kind::Number, digits)
        }),
{
    let s = digits + rest;
    let n = digits.len() as int;
    assert forall|j: int| 0 <= j < n implies runs_on(#[trigger] s[j], Run::Number) by {
        assert(s[j] == digits[j]);
    }
    runs_end_where_they_do(s, 0, n, Run::Number);
    assert(s[0] == digits[0]);
    assert(s.take(n) =~= digits);
    first_piece(s, n, globals);
}

/// A line behind a colon begins with a meta command.
pub proof fn meta_commands_are_whole(word: Seq<char>, rest: Seq<char>, globals: Seq<Seq<char>>)
    requires
        forall|i: int| 0 <= i < word.len() ==> word_part(#[trigger] word[i]),
        rest.len() > 0 ==> !word_part(rest[0]),
    ensures
        ({
            let found = pieces(seq![':'] + word + rest, globals);
            found.len() > 0 && found[0] == (Kind::Meta, seq![':'] + word)
        }),
{
    let s = seq![':'] + word + rest;
    let n: int = word.len() + 1int;
    assert forall|j: int| 1 <= j < n implies runs_on(#[trigger] s[j], Run::Word) by {
        assert(s[j] == word[j - 1]);
    }
    runs_end_where_they_do(s, 1, n, Run::Word);
    assert(s[0] == ':');
    assert(s.take(n) =~= seq![':'] + word);
    first_piece(s, n, globals);
}

/// Pieces that are told apart look different, but for white space and what is none of
/// the others, which stay as they are.
pub proof fn kinds_look_different(a: Kind, b: Kind)
    ensures
        style(a) == style(b) ==> a == b || ((a is Whitespace || a is Other) && (b is Whitespace
            || b is Other)),
        style(Kind::String).foreground == Some(Shade::Green),
        style(Kind::Keyword).foreground == Some(Shade::Purple) && style(Kind::Keyword).bold,
        style(Kind::Method).foreground == Some(Shade::Cyan) && style(Kind::Method).bold,
        style(Kind::Number).foreground == Some(Shade::LightCyan),
        style(Kind::Meta).foreground == Some(Shade::Magenta) && style(Kind::Meta).bold,
        style(Kind::Punctuation).dim,
        style(Kind::Other) == style(Kind::Whitespace),
{
}

proof fn brackets_end_where_they_do(s: Seq<char>, i: int, n: int)
    requires
        0 <= i <= n,
        n + 1 < s.len(),
        s[n] == ']' && s[n + 1] == ']',
        forall|j: int| i <= j < n ==> (#[trigger] s[j]) != ']',
    ensures
        long_end(s, i) == n + 2,
    decreases n - i,
{
    if i < n {
        assert(s[i] != ']');
        brackets_end_where_they_do(s, i + 1, n);
    }
}

/// A string in double brackets is one piece, up to the next double bracket.
pub proof fn long_strings_are_whole(body: Seq<char>, rest: Seq<char>, globals: Seq<Seq<char>>)
    requires
        !body.contains(']'),
    ensures
        ({
            let found = pieces(seq!['[', '['] + body + seq![']', ']'] + rest, globals);
            found.len() > 0 && found[0] == (Kind::String, seq!['[', '['] + body + seq![']', ']'])
        }),
{
    let s = seq!['[', '['] + body + seq![']', ']'] + rest;
    let n: int = body.len() + 2int;
    assert forall|j: int| 2 <= j < n implies (#[trigger] s[j]) != ']' by {
        assert(s[j] == body[j - 2]);
        assert(body.contains(body[j - 2]));
    }
    assert(s[n] == ']' && s[n + 1] == ']');
    brackets_end_where_they_do(s, 2, n);
    assert(s[0] == '[' && s[1] == '[');
    assert(s.take(n + 2) =~= seq!['[', '['] + body + seq![']', ']']);
    first_piece(s, n + 2, globals);
}

/// A comment is one piece, up to the end of its line.
pub proof fn comments_are_whole(body: Seq<char>, rest: Seq<char>, globals: Seq<Seq<char>>)
    requires
        !body.contains('\n'),
        rest.len() > 0 ==> rest[0] == '\n',
    ensures
        ({
            let found = pieces(seq!['-', '-'] + body + rest, globals);
            found.len() > 0 && found[0] == (Kind::Other, seq!['-', '-'] + body)
        }),
{
    let s = seq!['-', '-'] + body + rest;
    let n: int = body.len() + 2int;
    assert forall|j: int| 0 <= j < n implies runs_on(#[trigger] s[j], Run::Line) by {
        if j >= 2 {
            assert(s[j] == body[j - 2]);
            assert(body.contains(body[j - 2]));
        }
    }
    runs_end_where_they_do(s, 0, n, Run::Line);
    assert(s[0] == '-' && s[1] == '-');
    assert(s.take(n) =~= seq!['-', '-'] + body);
    first_piece(s, n, globals);
}

}
