//! Colours for a line of input while it is typed.

pub mod kinds;

use crate::paint::{
    bold_colour, colour, dimmed, plain, span_models, span_models_push, Ink, Shade, Span, SpanModel,
};
use crate::text::{
    ascii_digit, ascii_letter, chars_of, is_ascii_digit, is_ascii_letter, is_white_space, listed,
    slice_text, texts, white_space,
};
use vstd::prelude::*;

verus! {

broadcast use vstd::string::group_string_axioms;

/// What a piece of a line is.
#[derive(Debug, Clone, Copy, PartialEq, Eq, Structural)]
pub enum Kind {
    Whitespace,
    /// A name that the client adds to Lua.
    Method,
    /// A word of Lua.
    Keyword,
    String,
    Number,
    /// A meta command, at the start of a line.
    Meta,
    Punctuation,
    Other,
}

/// The words of Lua.
pub open spec fn keywords() -> Seq<Seq<char>> {
    seq![
        "and"@,
        "break"@,
        "do"@,
        "else"@,
        "elseif"@,
        "end"@,
        "false"@,
        "for"@,
        "function"@,
        "goto"@,
        "if"@,
        "in"@,
        "local"@,
        "nil"@,
        "not"@,
        "or"@,
        "repeat"@,
        "return"@,
        "then"@,
        "true"@,
        "until"@,
        "while"@,
    ]
}

fn keyword_list() -> (r: Vec<String>)
    ensures
        texts(r@) == keywords(),
{
    let r: Vec<String> = vec![
        "and".to_owned(),
        "break".to_owned(),
        "do".to_owned(),
        "else".to_owned(),
        "elseif".to_owned(),
        "end".to_owned(),
        "false".to_owned(),
        "for".to_owned(),
        "function".to_owned(),
        "goto".to_owned(),
        "if".to_owned(),
        "in".to_owned(),
        "local".to_owned(),
        "nil".to_owned(),
        "not".to_owned(),
        "or".to_owned(),
        "repeat".to_owned(),
        "return".to_owned(),
        "then".to_owned(),
        "true".to_owned(),
        "until".to_owned(),
        "while".to_owned(),
    ];
    assert(texts(r@) =~= keywords());
    r
}

/// The style of a piece.
pub open spec fn style(kind: Kind) -> Ink {
    match kind {
        Kind::Whitespace => plain(),
        Kind::Method => bold_colour(Shade::Cyan),
        Kind::Keyword => bold_colour(Shade::Purple),
        Kind::String => colour(Shade::Green),
        Kind::Number => colour(Shade::LightCyan),
        Kind::Meta => bold_colour(Shade::Magenta),
        Kind::Punctuation => dimmed(),
        Kind::Other => plain(),
    }
}

/// The style of a piece.
pub fn style_for(kind: Kind) -> (r: Ink)
    ensures
        r == style(kind),
{
    match kind {
        Kind::Whitespace => Ink::plain(),
        Kind::Method => Ink::bold_colour(Shade::Cyan),
        Kind::Keyword => Ink::bold_colour(Shade::Purple),
        Kind::String => Ink::colour(Shade::Green),
        Kind::Number => Ink::colour(Shade::LightCyan),
        Kind::Meta => Ink::bold_colour(Shade::Magenta),
        Kind::Punctuation => Ink::dimmed(),
        Kind::Other => Ink::plain(),
    }
}

// ---- characters ---------------------------------------------------------

pub open spec fn ascii(c: char) -> bool {
    c as u32 <= 0x7f
}

pub open spec fn blank(c: char) -> bool {
    ascii(c) && white_space(c)
}

pub open spec fn word_start(c: char) -> bool {
    ascii_letter(c) || c == '_'
}

pub open spec fn word_part(c: char) -> bool {
    ascii_letter(c) || ascii_digit(c) || c == '_'
}

pub open spec fn number_part(c: char) -> bool {
    ascii_digit(c) || c == '.' || c == 'e' || c == 'E'
}

pub open spec fn punctuation(c: char) -> bool {
    ||| c == '.' || c == '(' || c == ')' || c == '[' || c == ']' || c == '{' || c == '}'
    ||| c == ',' || c == '=' || c == ':' || c == ';' || c == '+' || c == '-' || c == '*'
    ||| c == '/' || c == '%' || c == '<' || c == '>'
}

fn is_blank(c: char) -> (r: bool)
    ensures
        r == blank(c),
{
    c as u32 <= 0x7f && is_white_space(c)
}

/// Whether a word can start with the character.
pub fn is_ident_start(c: char) -> (r: bool)
    ensures
        r == word_start(c),
{
    is_ascii_letter(c) || c == '_'
}

/// Whether a word can go on with the character.
pub fn is_ident_part(c: char) -> (r: bool)
    ensures
        r == word_part(c),
{
    is_ascii_letter(c) || is_ascii_digit(c) || c == '_'
}

fn is_number_part(c: char) -> (r: bool)
    ensures
        r == number_part(c),
{
    is_ascii_digit(c) || c == '.' || c == 'e' || c == 'E'
}

fn is_punctuation(c: char) -> (r: bool)
    ensures
        r == punctuation(c),
{
    c == '.' || c == '(' || c == ')' || c == '[' || c == ']' || c == '{' || c == '}' || c == ','
        || c == '=' || c == ':' || c == ';' || c == '+' || c == '-' || c == '*' || c == '/' || c
        == '%' || c == '<' || c == '>'
}

// ---- pieces -------------------------------------------------------------

/// Kinds of characters that run on.
pub enum Run {
    Blank,
    Word,
    Number,
    /// The rest of a line.
    Line,
}

pub open spec fn runs_on(c: char, run: Run) -> bool {
    match run {
        Run::Blank => blank(c),
        Run::Word => word_part(c),
        Run::Number => number_part(c),
        Run::Line => c != '\n',
    }
}

/// Where a run ends.
pub open spec fn run_end(s: Seq<char>, i: int, run: Run) -> int
    decreases s.len() - i,
{
    if 0 <= i < s.len() && runs_on(s[i], run) {
        run_end(s, i + 1, run)
    } else {
        i
    }
}

proof fn run_end_is(s: Seq<char>, i: int, e: int, run: Run)
    requires
        0 <= i <= e <= s.len(),
        forall|j: int| i <= j < e ==> runs_on(#[trigger] s[j], run),
        e < s.len() ==> !runs_on(s[e], run),
    ensures
        run_end(s, i, run) == e,
    decreases e - i,
{
    if i < e {
        assert(runs_on(s[i], run));
        run_end_is(s, i + 1, e, run);
    }
}

proof fn run_end_bounds(s: Seq<char>, i: int, run: Run)
    requires
        0 <= i <= s.len(),
    ensures
        i <= run_end(s, i, run) <= s.len(),
        i < s.len() && runs_on(s[i], run) ==> i < run_end(s, i, run),
    decreases s.len() - i,
{
    if i < s.len() && runs_on(s[i], run) {
        run_end_bounds(s, i + 1, run);
    }
}

/// Where a quoted string ends whose contents go on at `i`.
pub open spec fn quoted_end(s: Seq<char>, i: int, quote: char) -> int
    decreases s.len() - i,
{
    if i < 0 || i >= s.len() {
        i
    } else if s[i] == '\\' && i + 1 < s.len() {
        quoted_end(s, i + 2, quote)
    } else if s[i] == quote {
        i + 1
    } else {
        quoted_end(s, i + 1, quote)
    }
}

/// Where a string in long brackets ends whose contents go on at `i`. One
/// without an end stops before the last character.
pub open spec fn long_end(s: Seq<char>, i: int) -> int
    decreases s.len() - i,
{
    if i < 0 || i + 1 >= s.len() {
        i
    } else if s[i] == ']' && s[i + 1] == ']' {
        i + 2
    } else {
        long_end(s, i + 1)
    }
}

/// Whether only blanks stand before `i`.
pub open spec fn leads(s: Seq<char>, i: int) -> bool {
    forall|j: int| 0 <= j < i ==> blank(#[trigger] s[j])
}

/// The kind of a word.
pub open spec fn word_kind(word: Seq<char>, globals: Seq<Seq<char>>) -> Kind {
    if keywords().contains(word) {
        Kind::Keyword
    } else if globals.contains(word) {
        Kind::Method
    } else {
        Kind::Other
    }
}

/// The piece that starts at `i`: its kind and its end.
pub open spec fn piece_at(s: Seq<char>, i: int, globals: Seq<Seq<char>>) -> (Kind, int) {
    let c = s[i];
    let next = |d: char| i + 1 < s.len() && s[i + 1] == d;
    if c == ':' && leads(s, i) {
        (Kind::Meta, run_end(s, i + 1, Run::Word))
    } else if blank(c) {
        (Kind::Whitespace, run_end(s, i, Run::Blank))
    } else if c == '-' && next('-') {
        (Kind::Other, run_end(s, i, Run::Line))
    } else if c == '"' || c == '\'' {
        (Kind::String, quoted_end(s, i + 1, c))
    } else if c == '[' && next('[') {
        (Kind::String, long_end(s, i + 2))
    } else if ascii_digit(c) {
        (Kind::Number, run_end(s, i, Run::Number))
    } else if c == '-' && i + 1 < s.len() && ascii_digit(s[i + 1]) {
        (Kind::Number, run_end(s, i + 1, Run::Number))
    } else if word_start(c) {
        let e = run_end(s, i, Run::Word);
        (word_kind(s.subrange(i, e), globals), e)
    } else if punctuation(c) {
        (Kind::Punctuation, i + 1)
    } else {
        (Kind::Other, i + 1)
    }
}

proof fn quoted_end_bounds(s: Seq<char>, i: int, quote: char)
    requires
        0 <= i <= s.len(),
    ensures
        i <= quoted_end(s, i, quote) <= s.len(),
    decreases s.len() - i,
{
    if i < s.len() {
        if s[i] == '\\' && i + 1 < s.len() {
            quoted_end_bounds(s, i + 2, quote);
        } else if s[i] != quote {
            quoted_end_bounds(s, i + 1, quote);
        }
    }
}

proof fn long_end_bounds(s: Seq<char>, i: int)
    requires
        0 <= i <= s.len(),
    ensures
        i <= long_end(s, i) <= s.len(),
    decreases s.len() - i,
{
    if i + 1 < s.len() && !(s[i] == ']' && s[i + 1] == ']') {
        long_end_bounds(s, i + 1);
    }
}

/// A piece is never empty and stays inside the line.
pub proof fn piece_bounds(s: Seq<char>, i: int, globals: Seq<Seq<char>>)
    requires
        0 <= i < s.len(),
    ensures
        i < piece_at(s, i, globals).1 <= s.len(),
{
    run_end_bounds(s, i + 1, Run::Word);
    run_end_bounds(s, i, Run::Word);
    run_end_bounds(s, i, Run::Blank);
    run_end_bounds(s, i, Run::Line);
    run_end_bounds(s, i, Run::Number);
    run_end_bounds(s, i + 1, Run::Number);
    quoted_end_bounds(s, i + 1, s[i]);
    if i + 2 <= s.len() {
        long_end_bounds(s, i + 2);
    }
}

/// The pieces of a line from `i` on.
pub open spec fn pieces_from(s: Seq<char>, i: int, globals: Seq<Seq<char>>) -> Seq<
    (Kind, Seq<char>),
>
    decreases s.len() - i,
    via pieces_decrease
{
    if i < 0 || i >= s.len() {
        Seq::empty()
    } else {
        let (kind, e) = piece_at(s, i, globals);
        seq![(kind, s.subrange(i, e))] + pieces_from(s, e, globals)
    }
}

#[via_fn]
proof fn pieces_decrease(s: Seq<char>, i: int, globals: Seq<Seq<char>>) {
    if 0 <= i < s.len() {
        piece_bounds(s, i, globals);
    }
}

/// The pieces of a line.
pub open spec fn pieces(s: Seq<char>, globals: Seq<Seq<char>>) -> Seq<(Kind, Seq<char>)> {
    pieces_from(s, 0, globals)
}

/// Whether every piece of a line from `i` on starts with an ASCII character.
/// Only strings and comments may hold others.
pub open spec fn scannable_from(s: Seq<char>, i: int) -> bool
    decreases s.len() - i,
    via scannable_decrease
{
    i < 0 || i >= s.len() || (ascii(s[i]) && scannable_from(s, piece_at(s, i, Seq::empty()).1))
}

#[via_fn]
proof fn scannable_decrease(s: Seq<char>, i: int) {
    if 0 <= i < s.len() {
        piece_bounds(s, i, Seq::empty());
    }
}

/// Whether a line can be cut into pieces.
pub open spec fn scannable(s: Seq<char>) -> bool {
    scannable_from(s, 0)
}

// ---- scanning -----------------------------------------------------------

fn blank_end(chars: &Vec<char>, i: usize) -> (r: usize)
    requires
        i <= chars@.len(),
    ensures
        i <= r <= chars@.len(),
        r == run_end(chars@, i as int, Run::Blank),
{
    let mut e: usize = i;
    while e < chars.len() && is_blank(chars[e])
        invariant
            i <= e <= chars@.len(),
            forall|j: int| i <= j < e ==> runs_on(#[trigger] chars@[j], Run::Blank),
        decreases chars@.len() - e,
    {
        e += 1;
    }
    proof {
        run_end_is(chars@, i as int, e as int, Run::Blank);
    }
    e
}

fn word_end(chars: &Vec<char>, i: usize) -> (r: usize)
    requires
        i <= chars@.len(),
    ensures
        i <= r <= chars@.len(),
        r == run_end(chars@, i as int, Run::Word),
{
    let mut e: usize = i;
    while e < chars.len() && is_ident_part(chars[e])
        invariant
            i <= e <= chars@.len(),
            forall|j: int| i <= j < e ==> runs_on(#[trigger] chars@[j], Run::Word),
        decreases chars@.len() - e,
    {
        e += 1;
    }
    proof {
        run_end_is(chars@, i as int, e as int, Run::Word);
    }
    e
}

fn number_end(chars: &Vec<char>, i: usize) -> (r: usize)
    requires
        i <= chars@.len(),
    ensures
        i <= r <= chars@.len(),
        r == run_end(chars@, i as int, Run::Number),
{
    let mut e: usize = i;
    while e < chars.len() && is_number_part(chars[e])
        invariant
            i <= e <= chars@.len(),
            forall|j: int| i <= j < e ==> runs_on(#[trigger] chars@[j], Run::Number),
        decreases chars@.len() - e,
    {
        e += 1;
    }
    proof {
        run_end_is(chars@, i as int, e as int, Run::Number);
    }
    e
}

fn line_end(chars: &Vec<char>, i: usize) -> (r: usize)
    requires
        i <= chars@.len(),
    ensures
        i <= r <= chars@.len(),
        r == run_end(chars@, i as int, Run::Line),
{
    let mut e: usize = i;
    while e < chars.len() && chars[e] != '\n'
        invariant
            i <= e <= chars@.len(),
            forall|j: int| i <= j < e ==> runs_on(#[trigger] chars@[j], Run::Line),
        decreases chars@.len() - e,
    {
        e += 1;
    }
    proof {
        run_end_is(chars@, i as int, e as int, Run::Line);
    }
    e
}

fn string_end(chars: &Vec<char>, i: usize, quote: char) -> (r: usize)
    requires
        i <= chars@.len(),
    ensures
        i <= r <= chars@.len(),
        r == quoted_end(chars@, i as int, quote),
{
    let n: usize = chars.len();
    let mut e: usize = i;
    while e < n
        invariant
            i <= e <= n == chars@.len(),
            quoted_end(chars@, i as int, quote) == quoted_end(chars@, e as int, quote),
        decreases n - e,
    {
        if chars[e] == '\\' && n - e > 1 {
            e += 2;
        } else if chars[e] == quote {
            return e + 1;
        } else {
            e += 1;
        }
    }
    e
}

fn bracket_end(chars: &Vec<char>, i: usize) -> (r: usize)
    requires
        i <= chars@.len(),
    ensures
        i <= r <= chars@.len(),
        r == long_end(chars@, i as int),
{
    let n: usize = chars.len();
    let mut e: usize = i;
    while n - e > 1
        invariant
            i <= e <= n == chars@.len(),
            long_end(chars@, i as int) == long_end(chars@, e as int),
        decreases n - e,
    {
        if chars[e] == ']' && chars[e + 1] == ']' {
            return e + 2;
        }
        e += 1;
    }
    e
}

/// Where the first character at or before `i` stands that is not blank, or
/// else `i`.
pub fn start_of_logical_line(chars: &Vec<char>, i: usize) -> (r: usize)
    requires
        i <= chars@.len(),
    ensures
        r <= i,
        leads(chars@, r as int),
        r < i ==> !blank(chars@[r as int]),
{
    let mut start: usize = 0;
    while start < i && is_blank(chars[start])
        invariant
            start <= i <= chars@.len(),
            leads(chars@, start as int),
        decreases i - start,
    {
        start += 1;
    }
    start
}

/// The piece that starts at `i`: its kind and its end.
fn piece(chars: &Vec<char>, i: usize, words: &Vec<String>, globals: &Vec<String>) -> (r: (
    Kind,
    usize,
))
    requires
        i < chars@.len(),
        texts(words@) == keywords(),
    ensures
        i < r.1 <= chars@.len(),
        piece_at(chars@, i as int, texts(globals@)) == (r.0, r.1 as int),
{
    proof {
        piece_bounds(chars@, i as int, texts(globals@));
    }
    let n: usize = chars.len();
    let c: char = chars[i];
    let more: bool = n - i > 1;
    if c == ':' {
        let start: usize = start_of_logical_line(chars, i);
        if start == i {
            return (Kind::Meta, word_end(chars, i + 1));
        }
        assert(!leads(chars@, i as int));
    }
    if is_blank(c) {
        (Kind::Whitespace, blank_end(chars, i))
    } else if c == '-' && more && chars[i + 1] == '-' {
        (Kind::Other, line_end(chars, i))
    } else if c == '"' || c == '\'' {
        (Kind::String, string_end(chars, i + 1, c))
    } else if c == '[' && more && chars[i + 1] == '[' {
        (Kind::String, bracket_end(chars, i + 2))
    } else if is_ascii_digit(c) {
        (Kind::Number, number_end(chars, i))
    } else if c == '-' && more && is_ascii_digit(chars[i + 1]) {
        (Kind::Number, number_end(chars, i + 1))
    } else if is_ident_start(c) {
        let e: usize = word_end(chars, i);
        let word: String = slice_text(chars, i, e);
        if listed(words, word.as_str()) {
            (Kind::Keyword, e)
        } else if listed(globals, word.as_str()) {
            (Kind::Method, e)
        } else {
            (Kind::Other, e)
        }
    } else if is_punctuation(c) {
        (Kind::Punctuation, i + 1)
    } else {
        (Kind::Other, i + 1)
    }
}

/// What a list of pieces says.
pub open spec fn piece_models(out: Seq<(Kind, String)>) -> Seq<(Kind, Seq<char>)> {
    out.map_values(|p: (Kind, String)| (p.0, p.1@))
}

/// Whether a line can be cut into pieces.
pub fn is_scannable(line: &str) -> (r: bool)
    ensures
        r == scannable(line@),
{
    let chars: Vec<char> = chars_of(line);
    let words: Vec<String> = keyword_list();
    let none: Vec<String> = Vec::new();
    assert(texts(none@) == Seq::<Seq<char>>::empty());
    let mut i: usize = 0;
    while i < chars.len()
        invariant
            i <= chars@.len(),
            chars@ == line@,
            texts(words@) == keywords(),
            texts(none@) == Seq::<Seq<char>>::empty(),
            scannable(line@) == scannable_from(line@, i as int),
        decreases chars@.len() - i,
    {
        if chars[i] as u32 > 0x7f {
            return false;
        }
        let (_, e) = piece(&chars, i, &words, &none);
        i = e;
    }
    true
}

/// Cuts a line into pieces.
pub fn scan(line: &str, globals: &Vec<String>) -> (r: Vec<(Kind, String)>)
    requires
        scannable(line@),
    ensures
        piece_models(r@) == pieces(line@, texts(globals@)),
{
    let chars: Vec<char> = chars_of(line);
    let words: Vec<String> = keyword_list();
    let mut out: Vec<(Kind, String)> = Vec::new();
    let ghost names = texts(globals@);
    let mut i: usize = 0;
    assert(piece_models(out@) + pieces_from(line@, 0, names) =~= pieces(line@, names));
    while i < chars.len()
        invariant
            i <= chars@.len(),
            chars@ == line@,
            names == texts(globals@),
            texts(words@) == keywords(),
            piece_models(out@) + pieces_from(line@, i as int, names) == pieces(line@, names),
        decreases chars@.len() - i,
    {
        let (kind, e) = piece(&chars, i, &words, globals);
        let ghost before = out@;
        out.push((kind, slice_text(&chars, i, e)));
        proof {
            let made = (kind, line@.subrange(i as int, e as int));
            assert(piece_models(out@) == piece_models(before).push(made));
            assert(pieces_from(line@, i as int, names) == seq![made] + pieces_from(
                line@,
                e as int,
                names,
            ));
            assert(piece_models(before).push(made) + pieces_from(line@, e as int, names)
                =~= piece_models(before) + (seq![made] + pieces_from(line@, e as int, names)));
        }
        i = e;
    }
    assert(piece_models(out@) + pieces_from(line@, i as int, names) =~= piece_models(out@));
    out
}

/// Colours a line while it is typed.
#[derive(Debug)]
pub struct ReplHighlighter {
    pub(crate) repl_globals: Vec<String>,
}

impl ReplHighlighter {
    /// The names that are coloured.
    pub open(crate) spec fn names(self) -> Seq<Seq<char>> {
        texts(self.repl_globals@)
    }

    pub fn new(repl_globals: Vec<String>) -> (r: Self)
        ensures
            r.names() == texts(repl_globals@),
    {
        ReplHighlighter { repl_globals }
    }

    /// The pieces of a line with their styles.
    pub fn highlight(&self, line: &str) -> (r: Vec<Span>)
        requires
            scannable(line@),
        ensures
            span_models(r@) == styled(pieces(line@, self.names())),
    {
        let found: Vec<(Kind, String)> = scan(line, &self.repl_globals);
        let ghost all = pieces(line@, self.names());
        let mut out: Vec<Span> = Vec::new();
        let mut i: usize = 0;
        assert(span_models(out@) =~= styled(all.take(0)));
        while i < found.len()
            invariant
                i <= found@.len(),
                all == piece_models(found@),
                span_models(out@) == styled(all.take(i as int)),
            decreases found@.len() - i,
        {
            let made: Span = Span::new(found[i].1.as_str(), style_for(found[i].0));
            proof {
                span_models_push(out@, made);
                assert(all[i as int] == (found@[i as int].0, found@[i as int].1@));
                assert(styled(all.take(i + 1)) =~= styled(all.take(i as int)).push(made@));
            }
            out.push(made);
            i += 1;
        }
        assert(all.take(i as int) == all);
        out
    }
}

/// Pieces with their styles.
pub open spec fn styled(pieces: Seq<(Kind, Seq<char>)>) -> Seq<SpanModel> {
    pieces.map_values(|p: (Kind, Seq<char>)| SpanModel { text: p.1, ink: style(p.0) })
}

// ---- laws ---------------------------------------------------------------

/// The texts of the pieces, one after the other.
pub open spec fn written(pieces: Seq<(Kind, Seq<char>)>) -> Seq<char>
    decreases pieces.len(),
{
    if pieces.len() == 0 {
        Seq::empty()
    } else {
        pieces[0].1 + written(pieces.drop_first())
    }
}

proof fn pieces_from_write(s: Seq<char>, i: int, globals: Seq<Seq<char>>)
    requires
        0 <= i <= s.len(),
    ensures
        written(pieces_from(s, i, globals)) == s.skip(i),
        forall|k: int|
            0 <= k < pieces_from(s, i, globals).len() ==> (#[trigger] pieces_from(
                s,
                i,
                globals,
            )[k]).1.len() > 0,
    decreases s.len() - i,
{
    let all = pieces_from(s, i, globals);
    if i < s.len() {
        piece_bounds(s, i, globals);
        let (kind, e) = piece_at(s, i, globals);
        let rest = pieces_from(s, e, globals);
        pieces_from_write(s, e, globals);
        assert(all.drop_first() =~= rest);
        assert(s.skip(i) =~= s.subrange(i, e) + s.skip(e));
        assert forall|k: int| 0 <= k < all.len() implies (#[trigger] all[k]).1.len() > 0 by {
            if k > 0 {
                assert(all[k] == rest[k - 1]);
            }
        }
    } else {
        assert(s.skip(i) =~= Seq::<char>::empty());
    }
}

/// The pieces of a line make up the line, and none is empty.
pub proof fn pieces_make_up_the_line(line: Seq<char>, globals: Seq<Seq<char>>)
    ensures
        written(pieces(line, globals)) == line,
        forall|k: int|
            0 <= k < pieces(line, globals).len() ==> (#[trigger] pieces(line, globals)[k]).1.len()
                > 0,
{
    pieces_from_write(line, 0, globals);
    assert(line.skip(0) =~= line);
}

/// A meta command is only seen at the start of a line: nothing but blanks
/// stands before it.
pub proof fn meta_only_leads(line: Seq<char>, i: int, globals: Seq<Seq<char>>)
    requires
        0 <= i < line.len(),
        piece_at(line, i, globals).0 is Meta,
    ensures
        line[i] == ':',
        leads(line, i),
{
}

/// A line of ASCII characters can always be cut into pieces.
pub proof fn ascii_lines_are_scannable(line: Seq<char>)
    requires
        forall|i: int| 0 <= i < line.len() ==> ascii(#[trigger] line[i]),
    ensures
        scannable(line),
{
    ascii_from(line, 0);
}

proof fn ascii_from(s: Seq<char>, i: int)
    requires
        0 <= i,
        forall|j: int| 0 <= j < s.len() ==> ascii(#[trigger] s[j]),
    ensures
        scannable_from(s, i),
    decreases s.len() - i,
{
    if i < s.len() {
        piece_bounds(s, i, Seq::empty());
        assert(ascii(s[i]));
        ascii_from(s, piece_at(s, i, Seq::empty()).1);
    }
}

} // verus!
