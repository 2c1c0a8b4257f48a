//! Tokens of the command language.

use crate::duration::Duration;
use crate::error::{Error, ErrorModel};
use crate::text::{
    ascii_digit, ascii_letter, chars_of, debug_str, decimal_int, decimal_int_text, i64_error,
    is_ascii_digit, is_ascii_letter, is_white_space, parse_i64, parse_u64, same, signed_value,
    slice_text, str_debug, u64_error, unsigned_value, white_space,
};
use vstd::prelude::*;

verus! {

broadcast use vstd::string::group_string_axioms;

#[derive(Debug, PartialEq)]
pub enum Tok {
    Ident(String),
    String(String),
    Regex(String),
    Int(i64),
    Duration(Duration),
    Dot,
    LParen,
    RParen,
    LBracket,
    RBracket,
    LBrace,
    RBrace,
    Comma,
    Eq,
    Colon,
}

/// What a token says.
pub enum TokModel {
    Ident(Seq<char>),
    String(Seq<char>),
    Regex(Seq<char>),
    Int(i64),
    Duration(Duration),
    Dot,
    LParen,
    RParen,
    LBracket,
    RBracket,
    LBrace,
    RBrace,
    Comma,
    Eq,
    Colon,
}

impl View for Tok {
    type V = TokModel;

    open spec fn view(&self) -> TokModel {
        match self {
            Tok::Ident(s) => TokModel::Ident(s@),
            Tok::String(s) => TokModel::String(s@),
            Tok::Regex(s) => TokModel::Regex(s@),
            Tok::Int(n) => TokModel::Int(*n),
            Tok::Duration(d) => TokModel::Duration(*d),
            Tok::Dot => TokModel::Dot,
            Tok::LParen => TokModel::LParen,
            Tok::RParen => TokModel::RParen,
            Tok::LBracket => TokModel::LBracket,
            Tok::RBracket => TokModel::RBracket,
            Tok::LBrace => TokModel::LBrace,
            Tok::RBrace => TokModel::RBrace,
            Tok::Comma => TokModel::Comma,
            Tok::Eq => TokModel::Eq,
            Tok::Colon => TokModel::Colon,
        }
    }
}

impl TokModel {
    /// How an error message shows the token.
    pub open spec fn shown(self) -> Seq<char> {
        match self {
            TokModel::Ident(s) => "Ident("@ + str_debug(s) + ")"@,
            TokModel::String(s) => "String("@ + str_debug(s) + ")"@,
            TokModel::Regex(s) => "Regex("@ + str_debug(s) + ")"@,
            TokModel::Int(n) => "Int("@ + decimal_int(n as int) + ")"@,
            TokModel::Duration(d) => "Duration("@ + crate::duration::duration_debug(
                d.whole_seconds() as u64,
                d.subsecond_nanos() as u32,
            ) + ")"@,
            TokModel::Dot => "Dot"@,
            TokModel::LParen => "LParen"@,
            TokModel::RParen => "RParen"@,
            TokModel::LBracket => "LBracket"@,
            TokModel::RBracket => "RBracket"@,
            TokModel::LBrace => "LBrace"@,
            TokModel::RBrace => "RBrace"@,
            TokModel::Comma => "Comma"@,
            TokModel::Eq => "Eq"@,
            TokModel::Colon => "Colon"@,
        }
    }
}

fn wrapped(name: &str, inner: &str) -> (r: String)
    ensures
        r@ == name@ + inner@ + ")"@,
{
    let mut out: String = name.to_owned();
    out.push_str(inner);
    out.push_str(")");
    out
}

impl Tok {
    /// How an error message shows the token.
    pub fn shown(&self) -> (r: String)
        ensures
            r@ == self@.shown(),
    {
        match self {
            Tok::Ident(s) => wrapped("Ident(", debug_str(s.as_str()).as_str()),
            Tok::String(s) => wrapped("String(", debug_str(s.as_str()).as_str()),
            Tok::Regex(s) => wrapped("Regex(", debug_str(s.as_str()).as_str()),
            Tok::Int(n) => wrapped("Int(", decimal_int_text(*n).as_str()),
            Tok::Duration(d) => wrapped("Duration(", d.debug_text().as_str()),
            Tok::Dot => "Dot".to_owned(),
            Tok::LParen => "LParen".to_owned(),
            Tok::RParen => "RParen".to_owned(),
            Tok::LBracket => "LBracket".to_owned(),
            Tok::RBracket => "RBracket".to_owned(),
            Tok::LBrace => "LBrace".to_owned(),
            Tok::RBrace => "RBrace".to_owned(),
            Tok::Comma => "Comma".to_owned(),
            Tok::Eq => "Eq".to_owned(),
            Tok::Colon => "Colon".to_owned(),
        }
    }
}

// ---- runs of characters -------------------------------------------------

pub enum Class {
    Space,
    Digit,
    Letter,
    Word,
}

pub open spec fn in_class(c: char, class: Class) -> bool {
    match class {
        Class::Space => white_space(c),
        Class::Digit => ascii_digit(c),
        Class::Letter => ascii_letter(c),
        Class::Word => ascii_letter(c) || ascii_digit(c) || c == '_',
    }
}

/// The end of the run of characters of a class that starts at `p`.
pub open spec fn run_end(s: Seq<char>, p: int, class: Class) -> int
    decreases s.len() - p,
{
    if 0 <= p < s.len() && in_class(s[p], class) {
        run_end(s, p + 1, class)
    } else {
        p
    }
}

pub proof fn run_end_bounds(s: Seq<char>, p: int, class: Class)
    requires
        0 <= p <= s.len(),
    ensures
        p <= run_end(s, p, class) <= s.len(),
    decreases s.len() - p,
{
    if p < s.len() && in_class(s[p], class) {
        run_end_bounds(s, p + 1, class);
    }
}

/// A token and where it ends, the end of the text, or a failure.
pub enum Lexed {
    End,
    Token(TokModel, int),
    Fail(Seq<char>),
}

/// The character that an escape stands for.
pub open spec fn unescaped(c: char) -> Option<char> {
    if c == 'n' {
        Some('\n')
    } else if c == 't' {
        Some('\t')
    } else if c == 'r' {
        Some('\r')
    } else if c == '\\' {
        Some('\\')
    } else if c == '"' {
        Some('"')
    } else if c == '0' {
        Some('\0')
    } else {
        None
    }
}

/// The string literal whose contents go on at `p`, after `sofar`: its
/// characters with escapes resolved, and the position behind its closing
/// quote.
pub open spec fn string_rest(s: Seq<char>, p: int, sofar: Seq<char>) -> Result<
    (Seq<char>, int),
    Seq<char>,
>
    decreases s.len() - p,
{
    if p < 0 || p >= s.len() {
        Err("unterminated string literal"@)
    } else if s[p] == '"' {
        Ok((sofar, p + 1))
    } else if s[p] == '\\' {
        if p + 1 >= s.len() {
            Err("unterminated escape in string"@)
        } else {
            match unescaped(s[p + 1]) {
                Some(c) => string_rest(s, p + 2, sofar.push(c)),
                None => Err("unknown string escape `\\"@ + seq![s[p + 1]] + "`"@),
            }
        }
    } else {
        string_rest(s, p + 1, sofar.push(s[p]))
    }
}

/// The raw string whose contents start at `start` and go on at `p`.
pub open spec fn raw_rest(s: Seq<char>, start: int, p: int) -> Result<
    (Seq<char>, int),
    Seq<char>,
>
    decreases s.len() - p,
{
    if p < 0 || p >= s.len() {
        Err("unterminated raw string literal"@)
    } else if s[p] == '"' {
        Ok((s.subrange(start, p), p + 1))
    } else {
        raw_rest(s, start, p + 1)
    }
}

/// The integer or duration that starts at `p`: an optional minus sign,
/// digits, and an optional unit in letters.
pub open spec fn number_at(s: Seq<char>, p: int) -> Lexed {
    let q = if s[p] == '-' { p + 1 } else { p };
    let d = run_end(s, q, Class::Digit);
    let e = run_end(s, d, Class::Letter);
    let digits = s.subrange(p, d);
    let unit = s.subrange(d, e);
    if unit.len() == 0 {
        match signed_value(digits) {
            Some(n) if i64::MIN <= n <= i64::MAX => Lexed::Token(TokModel::Int(n as i64), e),
            _ => Lexed::Fail("invalid integer `"@ + digits + "`: "@ + i64_error(digits)),
        }
    } else {
        match unsigned_value(digits) {
            Some(n) if n <= u64::MAX => if unit == "ms"@ {
                Lexed::Token(TokModel::Duration(millis_of(n as u64)), e)
            } else if unit == "s"@ {
                Lexed::Token(TokModel::Duration(secs_of(n as u64)), e)
            } else {
                Lexed::Fail("unknown duration unit `"@ + unit + "` — expected ms or s"@)
            },
            _ => Lexed::Fail(
                "invalid duration `"@ + digits + unit + "`: "@ + u64_error(digits),
            ),
        }
    }
}

/// The length of `n` milliseconds.
pub open(crate) spec fn millis_of(n: u64) -> Duration {
    Duration { secs: (n / 1000) as u64, nanos: ((n % 1000) * 1_000_000) as u32 }
}

/// The length of `n` seconds.
pub open(crate) spec fn secs_of(n: u64) -> Duration {
    Duration { secs: n, nanos: 0 }
}

/// The token that starts at `p`, where there is no white space.
pub open spec fn token_at(s: Seq<char>, p: int) -> Lexed {
    let c = s[p];
    if c == '.' {
        Lexed::Token(TokModel::Dot, p + 1)
    } else if c == '(' {
        Lexed::Token(TokModel::LParen, p + 1)
    } else if c == ')' {
        Lexed::Token(TokModel::RParen, p + 1)
    } else if c == '[' {
        Lexed::Token(TokModel::LBracket, p + 1)
    } else if c == ']' {
        Lexed::Token(TokModel::RBracket, p + 1)
    } else if c == '{' {
        Lexed::Token(TokModel::LBrace, p + 1)
    } else if c == '}' {
        Lexed::Token(TokModel::RBrace, p + 1)
    } else if c == ',' {
        Lexed::Token(TokModel::Comma, p + 1)
    } else if c == '=' {
        Lexed::Token(TokModel::Eq, p + 1)
    } else if c == ':' {
        Lexed::Token(TokModel::Colon, p + 1)
    } else if c == '"' {
        match string_rest(s, p + 1, Seq::empty()) {
            Ok((text, e)) => Lexed::Token(TokModel::String(text), e),
            Err(message) => Lexed::Fail(message),
        }
    } else if c == 'r' && p + 1 < s.len() && s[p + 1] == '"' {
        match raw_rest(s, p + 2, p + 2) {
            Ok((text, e)) => Lexed::Token(TokModel::Regex(text), e),
            Err(message) => Lexed::Fail(message),
        }
    } else if ascii_digit(c) || c == '-' {
        number_at(s, p)
    } else if ascii_letter(c) || c == '_' {
        let e = run_end(s, p, Class::Word);
        Lexed::Token(TokModel::Ident(s.subrange(p, e)), e)
    } else {
        Lexed::Fail("unexpected character `"@ + seq![c] + "`"@)
    }
}

/// The next token at or behind `p`.
pub open spec fn next_at(s: Seq<char>, p: int) -> Lexed {
    let q = run_end(s, p, Class::Space);
    if q >= s.len() {
        Lexed::End
    } else {
        token_at(s, q)
    }
}

proof fn string_rest_bounds(s: Seq<char>, p: int, sofar: Seq<char>)
    requires
        0 <= p,
    ensures
        string_rest(s, p, sofar) matches Ok((_, e)) ==> p < e <= s.len(),
    decreases s.len() - p,
{
    if p < s.len() && s[p] != '"' {
        if s[p] == '\\' {
            if p + 1 < s.len() && unescaped(s[p + 1]) is Some {
                string_rest_bounds(s, p + 2, sofar.push(unescaped(s[p + 1])->0));
            }
        } else {
            string_rest_bounds(s, p + 1, sofar.push(s[p]));
        }
    }
}

proof fn raw_rest_bounds(s: Seq<char>, start: int, p: int)
    requires
        0 <= p,
    ensures
        raw_rest(s, start, p) matches Ok((_, e)) ==> p < e <= s.len(),
    decreases s.len() - p,
{
    if p < s.len() && s[p] != '"' {
        raw_rest_bounds(s, start, p + 1);
    }
}

/// A token is never empty and stays inside the text.
pub proof fn next_at_bounds(s: Seq<char>, p: int)
    requires
        0 <= p <= s.len(),
    ensures
        next_at(s, p) matches Lexed::Token(_, e) ==> p < e <= s.len(),
{
    run_end_bounds(s, p, Class::Space);
    let q = run_end(s, p, Class::Space);
    if q < s.len() {
        string_rest_bounds(s, q + 1, Seq::empty());
        raw_rest_bounds(s, q + 2, q + 2);
        run_end_bounds(s, q, Class::Word);
        if ascii_letter(s[q]) || s[q] == '_' {
            run_end_bounds(s, q + 1, Class::Word);
        }
        let r = if s[q] == '-' { q + 1 } else { q };
        run_end_bounds(s, r, Class::Digit);
        if ascii_digit(s[q]) {
            run_end_bounds(s, q + 1, Class::Digit);
        }
        run_end_bounds(s, run_end(s, r, Class::Digit), Class::Letter);
    }
}

/// All tokens at or behind `p`, or the first failure.
pub open spec fn tokens_from(s: Seq<char>, p: int) -> Result<Seq<TokModel>, Seq<char>>
    decreases s.len() - p,
    when 0 <= p <= s.len()
    via tokens_from_shrinks
{
    match next_at(s, p) {
        Lexed::End => Ok(Seq::empty()),
        Lexed::Fail(message) => Err(message),
        Lexed::Token(tok, e) => match tokens_from(s, e) {
            Ok(rest) => Ok(seq![tok] + rest),
            Err(message) => Err(message),
        },
    }
}

#[via_fn]
proof fn tokens_from_shrinks(s: Seq<char>, p: int) {
    next_at_bounds(s, p);
}

/// The tokens of a text.
pub open spec fn tokens_of(s: Seq<char>) -> Result<Seq<TokModel>, Seq<char>> {
    tokens_from(s, 0)
}

/// What the tokens say.
pub open spec fn tok_models(tokens: Seq<Tok>) -> Seq<TokModel> {
    tokens.map_values(|t: Tok| t@)
}

// ---- the lexer ----------------------------------------------------------

/// A text and how far it has been read.
pub struct Lexer {
    input: Vec<char>,
    pos: usize,
}

impl Lexer {
    pub closed spec fn text(&self) -> Seq<char> {
        self.input@
    }

    pub closed spec fn at(&self) -> int {
        self.pos as int
    }

    /// The position stays inside the text.
    pub open spec fn wf(&self) -> bool {
        0 <= self.at() <= self.text().len()
    }

    pub fn new(input: &str) -> (r: Lexer)
        ensures
            r.wf(),
            r.text() == input@,
            r.at() == 0,
    {
        Lexer { input: chars_of(input), pos: 0 }
    }

    /// The character at the position, if the text goes on.
    pub fn peek(&self) -> (r: Option<char>)
        requires
            self.wf(),
        ensures
            r == if self.at() < self.text().len() {
                Some(self.text()[self.at()])
            } else {
                None
            },
    {
        if self.pos < self.input.len() {
            Some(self.input[self.pos])
        } else {
            None
        }
    }

    /// Moves one character on, if the text goes on.
    pub fn advance(&mut self)
        requires
            old(self).wf(),
        ensures
            final(self).wf(),
            final(self).text() == old(self).text(),
            final(self).at() == if old(self).at() < old(self).text().len() {
                old(self).at() + 1
            } else {
                old(self).at()
            },
    {
        if self.pos < self.input.len() {
            self.pos = self.pos + 1;
        }
    }

    pub fn skip_whitespace(&mut self)
        requires
            old(self).wf(),
        ensures
            final(self).wf(),
            final(self).text() == old(self).text(),
            final(self).at() == run_end(old(self).text(), old(self).at(), Class::Space),
    {
        while self.pos < self.input.len() && is_white_space(self.input[self.pos])
            invariant
                self.wf(),
                self.text() == old(self).text(),
                run_end(self.text(), self.at(), Class::Space) == run_end(
                    old(self).text(),
                    old(self).at(),
                    Class::Space,
                ),
            decreases self.input@.len() - self.pos,
        {
            self.pos = self.pos + 1;
        }
    }

    /// Reads the integer or duration at the position.
    pub fn lex_number_or_duration(&mut self) -> (r: Result<Tok, Error>)
        requires
            old(self).wf(),
            old(self).at() < old(self).text().len(),
        ensures
            final(self).wf(),
            final(self).text() == old(self).text(),
            match r {
                Ok(tok) => number_at(old(self).text(), old(self).at()) == Lexed::Token(
                    tok@,
                    final(self).at(),
                ),
                Err(e) => e@ matches ErrorModel::Rpc(m) && number_at(
                    old(self).text(),
                    old(self).at(),
                ) == Lexed::Fail(m),
            },
    {
        let ghost s = self.input@;
        let ghost p = self.pos as int;
        let start: usize = self.pos;
        if self.input[self.pos] == '-' {
            self.advance();
        }
        let ghost q = self.pos as int;
        while self.pos < self.input.len() && is_ascii_digit(self.input[self.pos])
            invariant
                start <= q <= self.pos <= self.input@.len(),
                self.input@ == s,
                run_end(s, self.pos as int, Class::Digit) == run_end(s, q, Class::Digit),
            decreases self.input@.len() - self.pos,
        {
            self.pos = self.pos + 1;
        }
        let middle: usize = self.pos;
        let digits: String = slice_text(&self.input, start, middle);
        while self.pos < self.input.len() && is_ascii_letter(self.input[self.pos])
            invariant
                middle <= self.pos <= self.input@.len(),
                self.input@ == s,
                run_end(s, self.pos as int, Class::Letter) == run_end(
                    s,
                    middle as int,
                    Class::Letter,
                ),
            decreases self.input@.len() - self.pos,
        {
            self.pos = self.pos + 1;
        }
        let unit: String = slice_text(&self.input, middle, self.pos);
        if self.pos == middle {
            return match parse_i64(digits.as_str()) {
                Ok(n) => Ok(Tok::Int(n)),
                Err(error) => {
                    let mut message: String = "invalid integer `".to_owned();
                    message.push_str(digits.as_str());
                    message.push_str("`: ");
                    message.push_str(error.as_str());
                    Err(Error::Rpc(message))
                },
            };
        }
        match parse_u64(digits.as_str()) {
            Ok(n) => if same(unit.as_str(), "ms") {
                Ok(Tok::Duration(Duration::from_millis(n)))
            } else if same(unit.as_str(), "s") {
                Ok(Tok::Duration(Duration::from_secs(n)))
            } else {
                let mut message: String = "unknown duration unit `".to_owned();
                message.push_str(unit.as_str());
                message.push_str("` — expected ms or s");
                Err(Error::Rpc(message))
            },
            Err(error) => {
                let mut message: String = "invalid duration `".to_owned();
                message.push_str(digits.as_str());
                message.push_str(unit.as_str());
                message.push_str("`: ");
                message.push_str(error.as_str());
                Err(Error::Rpc(message))
            },
        }
    }

    /// Reads the identifier at the position.
    pub fn lex_ident(&mut self) -> (r: Tok)
        requires
            old(self).wf(),
        ensures
            final(self).wf(),
            final(self).text() == old(self).text(),
            final(self).at() == run_end(old(self).text(), old(self).at(), Class::Word),
            r@ == TokModel::Ident(old(self).text().subrange(old(self).at(), final(self).at())),
    {
        let ghost s = self.input@;
        let start: usize = self.pos;
        while self.pos < self.input.len() && (is_ascii_letter(self.input[self.pos])
            || is_ascii_digit(self.input[self.pos]) || self.input[self.pos] == '_')
            invariant
                start <= self.pos <= self.input@.len(),
                self.input@ == s,
                run_end(s, self.pos as int, Class::Word) == run_end(
                    s,
                    start as int,
                    Class::Word,
                ),
            decreases self.input@.len() - self.pos,
        {
            self.pos = self.pos + 1;
        }
        Tok::Ident(slice_text(&self.input, start, self.pos))
    }

    /// Reads the string literal whose opening quote is at the position.
    pub fn lex_string(&mut self) -> (r: Result<String, Error>)
        requires
            old(self).wf(),
            old(self).at() < old(self).text().len(),
        ensures
            final(self).wf(),
            final(self).text() == old(self).text(),
            match r {
                Ok(text) => string_rest(old(self).text(), old(self).at() + 1, Seq::empty())
                    == Ok::<(Seq<char>, int), Seq<char>>((text@, final(self).at())),
                Err(e) => e@ matches ErrorModel::Rpc(m) && string_rest(
                    old(self).text(),
                    old(self).at() + 1,
                    Seq::empty(),
                ) == Err::<(Seq<char>, int), Seq<char>>(m),
            },
    {
        let ghost s = self.input@;
        let ghost whole = string_rest(s, self.pos + 1, Seq::empty());
        self.advance();
        let mut out: String = String::new();
        while self.pos < self.input.len()
            invariant
                self.pos <= self.input@.len(),
                self.input@ == s,
                old(self).input@ == s,
                whole == string_rest(s, old(self).pos + 1, Seq::empty()),
                whole == string_rest(s, self.pos as int, out@),
            decreases self.input@.len() - self.pos,
        {
            let c: char = self.input[self.pos];
            if c == '"' {
                self.pos = self.pos + 1;
                return Ok(out);
            }
            if c == '\\' {
                self.pos = self.pos + 1;
                if self.pos >= self.input.len() {
                    return Err(Error::rpc("unterminated escape in string"));
                }
                let escaped: char = self.input[self.pos];
                let resolved: char = match escaped {
                    'n' => '\n',
                    't' => '\t',
                    'r' => '\r',
                    '\\' => '\\',
                    '"' => '"',
                    '0' => '\0',
                    other => {
                        let mut message: String = "unknown string escape `\\".to_owned();
                        message.push(other);
                        message.push_str("`");
                        assert(message@ == "unknown string escape `\\"@ + seq![other] + "`"@);
                        return Err(Error::Rpc(message));
                    },
                };
                out.push(resolved);
                self.pos = self.pos + 1;
            } else {
                out.push(c);
                self.pos = self.pos + 1;
            }
        }
        Err(Error::rpc("unterminated string literal"))
    }

    /// Reads the raw string whose opening quote is at the position.
    pub fn lex_raw_string(&mut self) -> (r: Result<String, Error>)
        requires
            old(self).wf(),
        ensures
            final(self).wf(),
            final(self).text() == old(self).text(),
            ({
                let s = old(self).text();
                let p = old(self).at();
                let expected = if p < s.len() && s[p] == '"' {
                    raw_rest(s, p + 1, p + 1)
                } else {
                    Err("raw string must start with r\"…\""@)
                };
                match r {
                    Ok(text) => expected == Ok::<(Seq<char>, int), Seq<char>>(
                        (text@, final(self).at()),
                    ),
                    Err(e) => e@ matches ErrorModel::Rpc(m) && expected == Err::<
                        (Seq<char>, int),
                        Seq<char>,
                    >(m),
                }
            }),
    {
        let ghost s = self.input@;
        if self.pos >= self.input.len() || self.input[self.pos] != '"' {
            return Err(Error::rpc("raw string must start with r\"…\""));
        }
        self.pos = self.pos + 1;
        let start: usize = self.pos;
        while self.pos < self.input.len()
            invariant
                start == old(self).pos + 1,
                old(self).input@ == s,
                old(self).pos < s.len(),
                s[old(self).pos as int] == '"',
                start <= self.pos <= self.input@.len(),
                self.input@ == s,
                raw_rest(s, start as int, start as int) == raw_rest(
                    s,
                    start as int,
                    self.pos as int,
                ),
            decreases self.input@.len() - self.pos,
        {
            if self.input[self.pos] == '"' {
                let text: String = slice_text(&self.input, start, self.pos);
                self.pos = self.pos + 1;
                return Ok(text);
            }
            self.pos = self.pos + 1;
        }
        Err(Error::rpc("unterminated raw string literal"))
    }

    /// Reads the next token, if there is one.
    pub fn next_token(&mut self) -> (r: Result<Option<Tok>, Error>)
        requires
            old(self).wf(),
        ensures
            final(self).wf(),
            final(self).text() == old(self).text(),
            match r {
                Ok(Some(tok)) => next_at(old(self).text(), old(self).at()) == Lexed::Token(
                    tok@,
                    final(self).at(),
                ),
                Ok(None) => next_at(old(self).text(), old(self).at()) is End,
                Err(e) => e@ matches ErrorModel::Rpc(m) && next_at(
                    old(self).text(),
                    old(self).at(),
                ) == Lexed::Fail(m),
            },
    {
        self.skip_whitespace();
        if self.pos >= self.input.len() {
            return Ok(None);
        }
        let c: char = self.input[self.pos];
        if c == '"' {
            return match self.lex_string() {
                Ok(text) => Ok(Some(Tok::String(text))),
                Err(e) => Err(e),
            };
        }
        if c == 'r' && self.pos + 1 < self.input.len() && self.input[self.pos + 1] == '"' {
            self.advance();
            return match self.lex_raw_string() {
                Ok(text) => Ok(Some(Tok::Regex(text))),
                Err(e) => Err(e),
            };
        }
        if is_ascii_digit(c) || c == '-' {
            return match self.lex_number_or_duration() {
                Ok(tok) => Ok(Some(tok)),
                Err(e) => Err(e),
            };
        }
        if is_ascii_letter(c) || c == '_' {
            return Ok(Some(self.lex_ident()));
        }
        let tok: Tok = match c {
            '.' => Tok::Dot,
            '(' => Tok::LParen,
            ')' => Tok::RParen,
            '[' => Tok::LBracket,
            ']' => Tok::RBracket,
            '{' => Tok::LBrace,
            '}' => Tok::RBrace,
            ',' => Tok::Comma,
            '=' => Tok::Eq,
            ':' => Tok::Colon,
            other => {
                let mut message: String = "unexpected character `".to_owned();
                message.push(other);
                message.push_str("`");
                assert(message@ == "unexpected character `"@ + seq![other] + "`"@);
                return Err(Error::Rpc(message));
            },
        };
        self.advance();
        Ok(Some(tok))
    }

    /// Reads all tokens that are left.
    pub fn tokens(self) -> (r: Result<Vec<Tok>, Error>)
        requires
            self.wf(),
        ensures
            match r {
                Ok(tokens) => tokens_from(self.text(), self.at()) == Ok::<
                    Seq<TokModel>,
                    Seq<char>,
                >(tok_models(tokens@)),
                Err(e) => e@ matches ErrorModel::Rpc(m) && tokens_from(self.text(), self.at())
                    == Err::<Seq<TokModel>, Seq<char>>(m),
            },
    {
        let ghost s = self.text();
        let ghost start = self.at();
        let mut lexer: Lexer = self;
        let mut out: Vec<Tok> = Vec::new();
        assert(tok_models(out@) == Seq::<TokModel>::empty());
        loop
            invariant
                lexer.wf(),
                lexer.text() == s,
                s == self.text(),
                start == self.at(),
                0 <= start <= s.len(),
                match tokens_from(s, lexer.at()) {
                    Ok(rest) => tokens_from(s, start) == Ok::<Seq<TokModel>, Seq<char>>(
                        tok_models(out@) + rest,
                    ),
                    Err(m) => tokens_from(s, start) == Err::<Seq<TokModel>, Seq<char>>(m),
                },
            decreases s.len() - lexer.at(),
        {
            proof {
                next_at_bounds(s, lexer.at());
            }
            let ghost before = lexer.at();
            match lexer.next_token() {
                Ok(Some(tok)) => {
                    proof {
                        let rest = tokens_from(s, lexer.at());
                        if rest is Ok {
                            assert(tok_models(out@) + (seq![tok@] + rest->Ok_0) == tok_models(
                                out@.push(tok),
                            ) + rest->Ok_0);
                        }
                    }
                    out.push(tok);
                },
                Ok(None) => {
                    assert(tok_models(out@) + Seq::<TokModel>::empty() == tok_models(out@));
                    return Ok(out);
                },
                Err(e) => {
                    return Err(e);
                },
            }
        }
    }
}

} // verus!
