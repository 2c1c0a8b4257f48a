//! Strings as sequences of characters: trimming, splitting, joining,
//! comparing and decimal rendering.

use vstd::prelude::*;

verus! {

broadcast use vstd::string::group_string_axioms;

/// `String::push` appends one character.
pub assume_specification[ std::string::String::push ](s: &mut std::string::String, c: char)
    ensures
        final(s)@ == old(s)@.push(c),
;

/// `String::push_str` appends the whole argument.
pub assume_specification[ std::string::String::push_str ](s: &mut std::string::String, other: &str)
    ensures
        final(s)@ == old(s)@ + other@,
;

// ---- characters ---------------------------------------------------------

/// The Unicode `White_Space` property.
pub open spec fn white_space(c: char) -> bool {
    ||| '\u{9}' <= c <= '\u{d}'
    ||| c == ' '
    ||| c == '\u{85}'
    ||| c == '\u{a0}'
    ||| c == '\u{1680}'
    ||| '\u{2000}' <= c <= '\u{200a}'
    ||| c == '\u{2028}'
    ||| c == '\u{2029}'
    ||| c == '\u{202f}'
    ||| c == '\u{205f}'
    ||| c == '\u{3000}'
}

pub fn is_white_space(c: char) -> (r: bool)
    ensures
        r == white_space(c),
{
    ('\u{9}' <= c && c <= '\u{d}') || c == ' ' || c == '\u{85}' || c == '\u{a0}' || c == '\u{1680}'
        || ('\u{2000}' <= c && c <= '\u{200a}') || c == '\u{2028}' || c == '\u{2029}' || c
        == '\u{202f}' || c == '\u{205f}' || c == '\u{3000}'
}

pub open spec fn ascii_digit(c: char) -> bool {
    '0' <= c <= '9'
}

pub open spec fn ascii_letter(c: char) -> bool {
    ('a' <= c <= 'z') || ('A' <= c <= 'Z')
}

pub fn is_ascii_digit(c: char) -> (r: bool)
    ensures
        r == ascii_digit(c),
{
    '0' <= c && c <= '9'
}

pub fn is_ascii_letter(c: char) -> (r: bool)
    ensures
        r == ascii_letter(c),
{
    ('a' <= c && c <= 'z') || ('A' <= c && c <= 'Z')
}

// ---- copying and comparing ----------------------------------------------

/// The characters of a string, in order.
pub fn chars_of(s: &str) -> (r: Vec<char>)
    ensures
        r@ == s@,
{
    let mut out: Vec<char> = Vec::new();
    for c in it: s.chars()
        invariant
            out@ == s@.take(it.index() as int),
            it.seq() == s@,
            it.index() <= s@.len(),
    {
        assert(s@.take(it.index() as int + 1) == s@.take(it.index() as int).push(c));
        out.push(c);
    }
    assert(s@.take(s@.len() as int) == s@);
    out
}

/// The string that spells `chars[from..to]`.
pub fn slice_text(chars: &Vec<char>, from: usize, to: usize) -> (r: String)
    requires
        from <= to <= chars@.len(),
    ensures
        r@ == chars@.subrange(from as int, to as int),
{
    let mut out: String = String::new();
    let mut i: usize = from;
    while i < to
        invariant
            from <= i <= to <= chars@.len(),
            out@ == chars@.subrange(from as int, i as int),
        decreases to - i,
    {
        out.push(chars[i]);
        i += 1;
        assert(chars@.subrange(from as int, i as int) == chars@.subrange(
            from as int,
            i - 1,
        ).push(chars@[i - 1]));
    }
    out
}

/// Whether two strings spell the same characters.
pub fn same(a: &str, b: &str) -> (r: bool)
    ensures
        r == (a@ == b@),
{
    a.to_owned() == b.to_owned()
}

/// Lexicographic order by code point, which is the order of the UTF-8 bytes.
pub open spec fn text_lt(a: Seq<char>, b: Seq<char>) -> bool
    decreases a.len(),
{
    if b.len() == 0 {
        false
    } else if a.len() == 0 {
        true
    } else if a[0] != b[0] {
        a[0] < b[0]
    } else {
        text_lt(a.drop_first(), b.drop_first())
    }
}

proof fn text_lt_at(a: Seq<char>, b: Seq<char>, i: int)
    requires
        0 <= i <= a.len(),
        i <= b.len(),
        a.take(i) == b.take(i),
    ensures
        text_lt(a, b) == text_lt(a.skip(i), b.skip(i)),
    decreases i,
{
    if i == 0 {
        assert(a.skip(0) == a);
        assert(b.skip(0) == b);
    } else {
        assert(a[0] == a.take(i)[0] && b[0] == b.take(i)[0]);
        let a1 = a.drop_first();
        let b1 = b.drop_first();
        assert(a1.take(i - 1) == a.take(i).drop_first());
        assert(b1.take(i - 1) == b.take(i).drop_first());
        text_lt_at(a1, b1, i - 1);
        assert(a1.skip(i - 1) == a.skip(i));
        assert(b1.skip(i - 1) == b.skip(i));
    }
}

/// Distinct texts are ordered one way or the other.
pub proof fn text_lt_total(a: Seq<char>, b: Seq<char>)
    ensures
        text_lt(a, b) || text_lt(b, a) || a == b,
        !(text_lt(a, b) && text_lt(b, a)),
        text_lt(a, b) ==> a != b,
    decreases a.len(),
{
    if a.len() > 0 && b.len() > 0 && a[0] == b[0] {
        text_lt_total(a.drop_first(), b.drop_first());
        assert(a == seq![a[0]] + a.drop_first());
        assert(b == seq![b[0]] + b.drop_first());
    } else if a.len() == 0 && b.len() == 0 {
        assert(a == b);
    }
}

pub proof fn text_lt_transitive(a: Seq<char>, b: Seq<char>, c: Seq<char>)
    requires
        text_lt(a, b),
        text_lt(b, c),
    ensures
        text_lt(a, c),
    decreases a.len(),
{
    if a.len() > 0 && b.len() > 0 && c.len() > 0 && a[0] == b[0] && b[0] == c[0] {
        text_lt_transitive(a.drop_first(), b.drop_first(), c.drop_first());
    }
}

/// Whether `a` comes before `b` in code-point order.
pub fn comes_before(a: &str, b: &str) -> (r: bool)
    ensures
        r == text_lt(a@, b@),
{
    let x: Vec<char> = chars_of(a);
    let y: Vec<char> = chars_of(b);
    let mut i: usize = 0;
    while i < x.len() && i < y.len()
        invariant
            x@ == a@,
            y@ == b@,
            i <= x@.len(),
            i <= y@.len(),
            x@.take(i as int) == y@.take(i as int),
        decreases x@.len() - i,
    {
        if x[i] != y[i] {
            proof {
                text_lt_at(x@, y@, i as int);
            }
            return x[i] < y[i];
        }
        i += 1;
        assert(x@.take(i as int) == x@.take(i - 1).push(x@[i - 1]));
        assert(y@.take(i as int) == y@.take(i - 1).push(y@[i - 1]));
    }
    proof {
        text_lt_at(x@, y@, i as int);
    }
    i < y.len()
}

/// Whether `s` begins with `prefix`.
pub open spec fn begins(s: Seq<char>, prefix: Seq<char>) -> bool {
    prefix.len() <= s.len() && s.take(prefix.len() as int) == prefix
}

/// Whether the characters at `at` spell `word`.
pub open spec fn spelled_at(s: Seq<char>, at: int, word: Seq<char>) -> bool {
    0 <= at && at + word.len() <= s.len() && s.subrange(at, at + word.len()) == word
}

/// Whether `chars[at..]` begins with `word`.
pub fn spells(chars: &Vec<char>, at: usize, word: &str) -> (r: bool)
    requires
        at <= chars@.len(),
    ensures
        r == spelled_at(chars@, at as int, word@),
{
    let w: Vec<char> = chars_of(word);
    if w.len() > chars.len() - at {
        return false;
    }
    let mut i: usize = 0;
    while i < w.len()
        invariant
            w@ == word@,
            at + w.len() <= chars.len(),
            i <= w@.len(),
            forall|j: int| 0 <= j < i ==> chars@[at + j] == w@[j],
        decreases w@.len() - i,
    {
        if chars[at + i] != w[i] {
            proof {
                if spelled_at(chars@, at as int, word@) {
                    assert(chars@.subrange(at as int, at + word@.len())[i as int] == word@[i as int]);
                }
            }
            return false;
        }
        i += 1;
    }
    assert(chars@.subrange(at as int, at + word@.len()) == word@);
    true
}

/// Whether `s` begins with `prefix`.
pub fn starts_with(s: &str, prefix: &str) -> (r: bool)
    ensures
        r == begins(s@, prefix@),
{
    let chars: Vec<char> = chars_of(s);
    assert(prefix@.len() <= s@.len() ==> s@.subrange(0, prefix@.len() as int) == s@.take(
        prefix@.len() as int,
    ));
    spells(&chars, 0, prefix)
}

/// Where a word stands for the last time, at `i` or before.
pub open spec fn rfind_from(s: Seq<char>, word: Seq<char>, i: int) -> Option<int>
    decreases i + 1,
{
    if i < 0 {
        None
    } else if spelled_at(s, i, word) {
        Some(i)
    } else {
        rfind_from(s, word, i - 1)
    }
}

/// Where a word stands for the last time.
pub open spec fn rfind(s: Seq<char>, word: Seq<char>) -> Option<int> {
    rfind_from(s, word, s.len() as int)
}

/// A word that is found stands there.
pub proof fn rfind_bounds(s: Seq<char>, word: Seq<char>, i: int)
    ensures
        rfind_from(s, word, i) matches Some(at) ==> 0 <= at <= i && spelled_at(s, at, word),
        rfind_from(s, word, i) matches Some(at) ==> forall|j: int|
            at < j <= i ==> !#[trigger] spelled_at(s, j, word),
        rfind_from(s, word, i) is None ==> forall|j: int|
            0 <= j <= i ==> !#[trigger] spelled_at(s, j, word),
    decreases i + 1,
{
    if i >= 0 && !spelled_at(s, i, word) {
        rfind_bounds(s, word, i - 1);
    }
}

/// Where a word stands for the last time.
pub fn rfind_at(chars: &Vec<char>, word: &str) -> (r: Option<usize>)
    ensures
        match r {
            Some(at) => rfind(chars@, word@) == Some(at as int) && at + word@.len()
                <= chars@.len(),
            None => rfind(chars@, word@) is None,
        },
{
    let mut i: usize = chars.len();
    loop
        invariant
            i <= chars@.len(),
            rfind(chars@, word@) == rfind_from(chars@, word@, i as int),
        decreases i,
    {
        if spells(chars, i, word) {
            return Some(i);
        }
        if i == 0 {
            return None;
        }
        i -= 1;
    }
}

/// What follows `prefix` in `s`, if `s` begins with it.
pub fn strip_prefix(s: &str, prefix: &str) -> (r: Option<String>)
    ensures
        match r {
            Some(rest) => begins(s@, prefix@) && rest@ == s@.skip(prefix@.len() as int),
            None => !begins(s@, prefix@),
        },
{
    if starts_with(s, prefix) {
        let chars: Vec<char> = chars_of(s);
        let skipped: Vec<char> = chars_of(prefix);
        let n: usize = skipped.len();
        assert(s@.subrange(n as int, s@.len() as int) == s@.skip(n as int));
        Some(slice_text(&chars, n, chars.len()))
    } else {
        None
    }
}

// ---- trimming -----------------------------------------------------------

/// `s` without its leading white space.
pub open spec fn trim_start(s: Seq<char>) -> Seq<char>
    decreases s.len(),
{
    if s.len() > 0 && white_space(s[0]) {
        trim_start(s.drop_first())
    } else {
        s
    }
}

/// `s` without its trailing white space.
pub open spec fn trim_end(s: Seq<char>) -> Seq<char>
    decreases s.len(),
{
    if s.len() > 0 && white_space(s.last()) {
        trim_end(s.drop_last())
    } else {
        s
    }
}

/// `s` without white space at either end.
pub open spec fn trim(s: Seq<char>) -> Seq<char> {
    trim_end(trim_start(s))
}

proof fn trim_start_is_skip(s: Seq<char>, n: int)
    requires
        0 <= n <= s.len(),
        forall|i: int| 0 <= i < n ==> white_space(s[i]),
        n < s.len() ==> !white_space(s[n]),
    ensures
        trim_start(s) == s.skip(n),
    decreases n,
{
    if n == 0 {
        assert(s.skip(0) == s);
    } else {
        trim_start_is_skip(s.drop_first(), n - 1);
        assert(s.drop_first().skip(n - 1) == s.skip(n));
    }
}

/// What is left without leading white space ends the text.
pub proof fn trim_start_cuts(s: Seq<char>)
    ensures
        trim_start(s).len() <= s.len(),
        trim_start(s) == s.skip(s.len() - trim_start(s).len()),
    decreases s.len(),
{
    if s.len() > 0 && white_space(s[0]) {
        trim_start_cuts(s.drop_first());
        let t = trim_start(s);
        assert(s.drop_first().skip(s.len() - 1 - t.len()) =~= s.skip(s.len() - t.len()));
    } else {
        assert(s.skip(0) =~= s);
    }
}

proof fn trim_end_is_take(s: Seq<char>, n: int)
    requires
        0 <= n <= s.len(),
        forall|i: int| n <= i < s.len() ==> white_space(s[i]),
        n > 0 ==> !white_space(s[n - 1]),
    ensures
        trim_end(s) == s.take(n),
    decreases s.len() - n,
{
    if n == s.len() {
        assert(s.take(n) == s);
    } else {
        trim_end_is_take(s.drop_last(), n);
        assert(s.drop_last().take(n) == s.take(n));
    }
}

/// Removes white space from both ends of `chars[from..to]`, returning the
/// bounds that are left.
pub fn trim_bounds(chars: &Vec<char>, from: usize, to: usize) -> (r: (usize, usize))
    requires
        from <= to <= chars@.len(),
    ensures
        from <= r.0 <= r.1 <= to,
        chars@.subrange(r.0 as int, r.1 as int) == trim(chars@.subrange(from as int, to as int)),
{
    let ghost s = chars@.subrange(from as int, to as int);
    let mut a: usize = from;
    while a < to && is_white_space(chars[a])
        invariant
            from <= a <= to <= chars@.len(),
            forall|i: int| from <= i < a ==> white_space(#[trigger] chars@[i]),
        decreases to - a,
    {
        a += 1;
    }
    proof {
        trim_start_is_skip(s, a - from);
    }
    let mut b: usize = to;
    while a < b && is_white_space(chars[b - 1])
        invariant
            from <= a <= b <= to <= chars@.len(),
            forall|i: int| b <= i < to ==> white_space(#[trigger] chars@[i]),
        decreases b - a,
    {
        b -= 1;
    }
    proof {
        let t = s.skip(a - from);
        assert(t == chars@.subrange(a as int, to as int));
        trim_end_is_take(t, b - a);
        assert(t.take(b - a) == chars@.subrange(a as int, b as int));
    }
    (a, b)
}

/// `s` without white space at either end.
pub fn trimmed(s: &str) -> (r: String)
    ensures
        r@ == trim(s@),
{
    let chars: Vec<char> = chars_of(s);
    let (a, b) = trim_bounds(&chars, 0, chars.len());
    assert(chars@.subrange(0, chars@.len() as int) == s@);
    slice_text(&chars, a, b)
}

/// Where the leading white space of `chars[from..]` ends.
pub fn skip_white_space(chars: &Vec<char>, from: usize) -> (r: usize)
    requires
        from <= chars@.len(),
    ensures
        from <= r <= chars@.len(),
        chars@.skip(r as int) == trim_start(chars@.skip(from as int)),
{
    let mut a: usize = from;
    while a < chars.len() && is_white_space(chars[a])
        invariant
            from <= a <= chars@.len(),
            forall|i: int| from <= i < a ==> white_space(#[trigger] chars@[i]),
        decreases chars@.len() - a,
    {
        a += 1;
    }
    proof {
        let s = chars@.skip(from as int);
        trim_start_is_skip(s, a - from);
        assert(s.skip(a - from) == chars@.skip(a as int));
    }
    a
}

/// `s` without its leading white space.
pub fn trimmed_start(s: &str) -> (r: String)
    ensures
        r@ == trim_start(s@),
{
    let chars: Vec<char> = chars_of(s);
    let a: usize = skip_white_space(&chars, 0);
    assert(chars@.skip(0) == s@);
    assert(chars@.subrange(a as int, chars@.len() as int) == chars@.skip(a as int));
    slice_text(&chars, a, chars.len())
}

/// `s` without its trailing white space.
pub fn trimmed_end(s: &str) -> (r: String)
    ensures
        r@ == trim_end(s@),
{
    let chars: Vec<char> = chars_of(s);
    let mut b: usize = chars.len();
    while 0 < b && is_white_space(chars[b - 1])
        invariant
            b <= chars@.len(),
            forall|i: int| b <= i < chars@.len() ==> white_space(#[trigger] chars@[i]),
        decreases b,
    {
        b -= 1;
    }
    proof {
        trim_end_is_take(chars@, b as int);
        assert(chars@.take(b as int) == chars@.subrange(0, b as int));
    }
    slice_text(&chars, 0, b)
}

// ---- bytes --------------------------------------------------------------

/// How many bytes a text takes.
pub open spec fn byte_len(s: Seq<char>) -> int {
    vstd::utf8::encode_utf8(s).len() as int
}

/// How many bytes a text takes.
pub fn byte_count(s: &str) -> (r: usize)
    ensures
        r == byte_len(s@),
{
    s.as_bytes().len()
}

/// Texts one after the other take the bytes of both.
pub proof fn byte_len_concat(a: Seq<char>, b: Seq<char>)
    ensures
        byte_len(a + b) == byte_len(a) + byte_len(b),
    decreases a.len(),
{
    if a.len() == 0 {
        assert(a + b == b);
    } else {
        byte_len_concat(a.drop_first(), b);
        assert((a + b).drop_first() == a.drop_first() + b);
    }
}

/// The text that ends before the byte at `at`.
pub open spec fn before_byte(s: Seq<char>, at: int) -> Seq<char> {
    vstd::utf8::decode_utf8(vstd::utf8::encode_utf8(s).subrange(0, at))
}

/// Whether a character ends before the byte at `at`.
pub open spec fn ends_character(s: Seq<char>, at: int) -> bool {
    vstd::utf8::is_char_boundary(vstd::utf8::encode_utf8(s), at)
}

/// The text that ends before the byte at `at`.
pub fn cut_before(s: &str, at: usize) -> (r: &str)
    requires
        at <= byte_len(s@),
        ends_character(s@, at as int),
    ensures
        r@ == before_byte(s@, at as int),
{
    broadcast use {vstd::utf8::encode_utf8_decode_utf8};

    let (head, _) = s.split_at(at);
    head
}

/// The bytes of two texts stand one after the other.
pub proof fn encode_concat(a: Seq<char>, b: Seq<char>)
    ensures
        vstd::utf8::encode_utf8(a + b) == vstd::utf8::encode_utf8(a) + vstd::utf8::encode_utf8(b),
    decreases a.len(),
{
    if a.len() == 0 {
        assert(a + b =~= b);
        assert(vstd::utf8::encode_utf8(a) + vstd::utf8::encode_utf8(b) =~= vstd::utf8::encode_utf8(
            b,
        ));
    } else {
        encode_concat(a.drop_first(), b);
        assert((a + b).drop_first() =~= a.drop_first() + b);
        assert(vstd::utf8::encode_utf8(a + b) =~= vstd::utf8::encode_utf8(a)
            + vstd::utf8::encode_utf8(b));
    }
}

/// The text that the `Display` impl of `FromUtf8Error` gives for bytes that are
/// not UTF-8.
pub uninterp spec fn utf8_error(bytes: Seq<u8>) -> Seq<char>;

/// `String::from_utf8` gives the text whose UTF-8 encoding the bytes are, and
/// fails when they are the encoding of no text; the error is told by its
/// `Display` text.
#[verifier::external_body]
pub(crate) fn text_from_utf8(bytes: Vec<u8>) -> (r: Result<String, String>)
    ensures
        match r {
            Ok(s) => vstd::utf8::encode_utf8(s@) == bytes@,
            Err(message) => message@ == utf8_error(bytes@) && !vstd::utf8::valid_utf8(bytes@),
        },
{
    String::from_utf8(bytes).map_err(|error| error.to_string())
}

/// Behind any of the characters of a text a character ends, and what stands
/// before that byte and after it are the characters before and after.
pub proof fn characters_end_where_they_are_cut(s: Seq<char>, n: int)
    requires
        0 <= n <= s.len(),
    ensures
        ends_character(s, byte_len(s.take(n))),
        byte_len(s.take(n)) <= byte_len(s),
        before_byte(s, byte_len(s.take(n))) == s.take(n),
        after_byte(s, byte_len(s.take(n))) == s.skip(n),
    decreases n,
{
    let head = s.take(n);
    let tail = s.skip(n);
    let bytes = vstd::utf8::encode_utf8(s);
    let at = byte_len(head);
    assert(head + tail =~= s);
    encode_concat(head, tail);
    assert(bytes.subrange(0, at) =~= vstd::utf8::encode_utf8(head));
    assert(bytes.subrange(at, bytes.len() as int) =~= vstd::utf8::encode_utf8(tail));
    vstd::utf8::encode_utf8_decode_utf8(head);
    vstd::utf8::encode_utf8_decode_utf8(tail);
    vstd::utf8::encode_utf8_valid_utf8(s);
    if n > 0 {
        let rest = s.drop_first();
        characters_end_where_they_are_cut(rest, n - 1);
        vstd::utf8::encode_utf8_first_scalar(s);
        assert(head.drop_first() =~= rest.take(n - 1));
        assert(vstd::utf8::pop_first_scalar(bytes) =~= vstd::utf8::encode_utf8(rest));
    } else {
        assert(head =~= Seq::<char>::empty());
    }
}

/// The text that starts with the byte at `at`.
pub open spec fn after_byte(s: Seq<char>, at: int) -> Seq<char> {
    let bytes = vstd::utf8::encode_utf8(s);
    vstd::utf8::decode_utf8(bytes.subrange(at, bytes.len() as int))
}

/// The text that starts with the byte at `at`.
pub fn cut_after(s: &str, at: usize) -> (r: &str)
    requires
        at <= byte_len(s@),
        ends_character(s@, at as int),
    ensures
        r@ == after_byte(s@, at as int),
{
    broadcast use {vstd::utf8::encode_utf8_decode_utf8};

    let (_, tail) = s.split_at(at);
    tail
}

/// Whether a character ends before the byte at `at`.
pub fn is_character_end(s: &str, at: usize) -> (r: bool)
    ensures
        r == ends_character(s@, at as int),
{
    s.is_char_boundary(at)
}

// ---- splitting ----------------------------------------------------------

/// The texts of a list of strings.
pub open spec fn texts(v: Seq<String>) -> Seq<Seq<char>> {
    v.map_values(|s: String| s@)
}

pub proof fn texts_push(v: Seq<String>, s: String)
    ensures
        texts(v.push(s)) == texts(v).push(s@),
{
    assert(texts(v.push(s)) =~= texts(v).push(s@));
}

/// Index of the first `sep` in `s`, or the length of `s`.
pub open spec fn find(s: Seq<char>, sep: char) -> int
    decreases s.len(),
{
    if s.len() == 0 || s[0] == sep {
        0
    } else {
        1 + find(s.drop_first(), sep)
    }
}

pub proof fn find_bounds(s: Seq<char>, sep: char)
    ensures
        0 <= find(s, sep) <= s.len(),
        find(s, sep) < s.len() ==> s[find(s, sep)] == sep,
        forall|i: int| 0 <= i < find(s, sep) ==> s[i] != sep,
    decreases s.len(),
{
    if s.len() > 0 && s[0] != sep {
        find_bounds(s.drop_first(), sep);
        assert forall|i: int| 0 <= i < find(s, sep) implies s[i] != sep by {
            if i > 0 {
                assert(s.drop_first()[i - 1] == s[i]);
            }
        }
    }
}

pub proof fn find_at(s: Seq<char>, sep: char, n: int)
    requires
        0 <= n <= s.len(),
        n < s.len() ==> s[n] == sep,
        forall|i: int| 0 <= i < n ==> s[i] != sep,
    ensures
        find(s, sep) == n,
    decreases n,
{
    if n > 0 {
        find_at(s.drop_first(), sep, n - 1);
    }
}

/// The pieces of `s` between occurrences of `sep`: always at least one.
pub open spec fn split(s: Seq<char>, sep: char) -> Seq<Seq<char>>
    decreases s.len(),
    via split_shrinks
{
    let n = find(s, sep);
    if 0 <= n < s.len() {
        seq![s.take(n)] + split(s.skip(n + 1), sep)
    } else {
        seq![s]
    }
}

#[via_fn]
proof fn split_shrinks(s: Seq<char>, sep: char) {
    find_bounds(s, sep);
}

/// The pieces of `chars[from..]` between occurrences of `sep`.
pub fn split_from(chars: &Vec<char>, from: usize, sep: char) -> (r: Vec<String>)
    requires
        from <= chars@.len(),
    ensures
        texts(r@) == split(chars@.skip(from as int), sep),
{
    let mut out: Vec<String> = Vec::new();
    let mut start: usize = from;
    let mut i: usize = from;
    let ghost whole = split(chars@.skip(from as int), sep);
    while i < chars.len()
        invariant
            from <= start <= i <= chars@.len(),
            forall|j: int| start <= j < i ==> chars@[j] != sep,
            whole == texts(out@) + split(chars@.skip(start as int), sep),
        decreases chars@.len() - i,
    {
        if chars[i] == sep {
            let piece: String = slice_text(chars, start, i);
            proof {
                let rest = chars@.skip(start as int);
                find_at(rest, sep, i - start);
                assert(rest.take(i - start) == piece@);
                assert(rest.skip(i - start + 1) == chars@.skip(i + 1));
                texts_push(out@, piece);
                assert(texts(out@) + (seq![piece@] + split(chars@.skip(i + 1), sep)) == texts(
                    out@,
                ).push(piece@) + split(chars@.skip(i + 1), sep));
            }
            out.push(piece);
            start = i + 1;
        }
        i += 1;
    }
    let piece: String = slice_text(chars, start, chars.len());
    proof {
        let rest = chars@.skip(start as int);
        find_at(rest, sep, rest.len() as int);
        assert(rest == piece@);
        texts_push(out@, piece);
        assert(texts(out@) + seq![piece@] == texts(out@).push(piece@));
    }
    out.push(piece);
    out
}

/// The pieces of `s` between occurrences of `sep`.
pub fn split_text(s: &str, sep: char) -> (r: Vec<String>)
    ensures
        texts(r@) == split(s@, sep),
{
    let chars: Vec<char> = chars_of(s);
    assert(chars@.skip(0) == s@);
    split_from(&chars, 0, sep)
}

/// Index of the first white-space character of `s`, or the length of `s`.
pub open spec fn find_space(s: Seq<char>) -> int
    decreases s.len(),
{
    if s.len() == 0 || white_space(s[0]) {
        0
    } else {
        1 + find_space(s.drop_first())
    }
}

pub proof fn find_space_bounds(s: Seq<char>)
    ensures
        0 <= find_space(s) <= s.len(),
        find_space(s) < s.len() ==> white_space(s[find_space(s)]),
        forall|i: int| 0 <= i < find_space(s) ==> !white_space(s[i]),
    decreases s.len(),
{
    if s.len() > 0 && !white_space(s[0]) {
        find_space_bounds(s.drop_first());
        assert forall|i: int| 0 <= i < find_space(s) implies !white_space(s[i]) by {
            if i > 0 {
                assert(s.drop_first()[i - 1] == s[i]);
            }
        }
    }
}

proof fn find_space_at(s: Seq<char>, n: int)
    requires
        0 <= n <= s.len(),
        n < s.len() ==> white_space(s[n]),
        forall|i: int| 0 <= i < n ==> !white_space(s[i]),
    ensures
        find_space(s) == n,
    decreases n,
{
    if n > 0 {
        find_space_at(s.drop_first(), n - 1);
    }
}

/// `s` up to its first white-space character.
pub open spec fn first_word(s: Seq<char>) -> Seq<char> {
    s.take(find_space(s))
}

/// `s` behind its first white-space character, if it has one.
pub open spec fn after_word(s: Seq<char>) -> Option<Seq<char>> {
    let n = find_space(s);
    if n < s.len() {
        Some(s.skip(n + 1))
    } else {
        None
    }
}

/// Splits `s` at its first white-space character.
pub fn split_word(s: &str) -> (r: (String, Option<String>))
    ensures
        r.0@ == first_word(s@),
        match r.1 {
            Some(rest) => after_word(s@) == Some(rest@),
            None => after_word(s@) is None,
        },
{
    let chars: Vec<char> = chars_of(s);
    let mut i: usize = 0;
    while i < chars.len() && !is_white_space(chars[i])
        invariant
            i <= chars@.len(),
            forall|j: int| 0 <= j < i ==> !white_space(#[trigger] chars@[j]),
        decreases chars@.len() - i,
    {
        i += 1;
    }
    proof {
        find_space_at(s@, i as int);
    }
    let head: String = slice_text(&chars, 0, i);
    assert(head@ == first_word(s@));
    if i < chars.len() {
        let tail: String = slice_text(&chars, i + 1, chars.len());
        assert(tail@ == s@.skip(i + 1));
        (head, Some(tail))
    } else {
        (head, None)
    }
}

/// The maximal runs of characters that are not white space.
pub open spec fn words(s: Seq<char>) -> Seq<Seq<char>>
    decreases s.len(),
    via words_shrink
{
    if s.len() == 0 {
        Seq::empty()
    } else if white_space(s[0]) {
        words(s.drop_first())
    } else {
        let n = find_space(s);
        seq![s.take(n)] + words(s.skip(n))
    }
}

#[via_fn]
proof fn words_shrink(s: Seq<char>) {
    find_space_bounds(s);
}

/// The maximal runs of characters that are not white space.
pub fn split_words(s: &str) -> (r: Vec<String>)
    ensures
        texts(r@) == words(s@),
{
    let chars: Vec<char> = chars_of(s);
    let mut out: Vec<String> = Vec::new();
    let mut i: usize = 0;
    assert(chars@.skip(0) == s@);
    assert(texts(out@) + words(chars@.skip(0)) == words(s@));
    while i < chars.len()
        invariant
            i <= chars@.len(),
            words(s@) == texts(out@) + words(chars@.skip(i as int)),
        decreases chars@.len() - i,
    {
        let ghost rest = chars@.skip(i as int);
        if is_white_space(chars[i]) {
            i += 1;
            assert(rest.drop_first() == chars@.skip(i as int));
        } else {
            let start: usize = i;
            while i < chars.len() && !is_white_space(chars[i])
                invariant
                    start <= i <= chars@.len(),
                    forall|j: int| start <= j < i ==> !white_space(#[trigger] chars@[j]),
                decreases chars@.len() - i,
            {
                i += 1;
            }
            let word: String = slice_text(&chars, start, i);
            proof {
                find_space_at(rest, i - start);
                assert(rest.take(i - start) == word@);
                assert(rest.skip(i - start) == chars@.skip(i as int));
                texts_push(out@, word);
                assert(texts(out@) + (seq![word@] + words(chars@.skip(i as int))) == texts(
                    out@,
                ).push(word@) + words(chars@.skip(i as int)));
            }
            out.push(word);
        }
    }
    assert(words(chars@.skip(i as int)) == Seq::<Seq<char>>::empty());
    assert(texts(out@) + Seq::<Seq<char>>::empty() == texts(out@));
    out
}

// ---- joining ------------------------------------------------------------

/// Whether a text is one of the list.
pub fn listed(list: &Vec<String>, word: &str) -> (r: bool)
    ensures
        r == texts(list@).contains(word@),
{
    let ghost all = texts(list@);
    let mut i: usize = 0;
    while i < list.len()
        invariant
            i <= list@.len(),
            all == texts(list@),
            forall|j: int| 0 <= j < i ==> #[trigger] all[j] != word@,
        decreases list@.len() - i,
    {
        if same(list[i].as_str(), word) {
            assert(all[i as int] == word@);
            return true;
        }
        assert(all[i as int] != word@);
        i += 1;
    }
    false
}

/// The parts in order, with `sep` between neighbours.
pub open spec fn join(parts: Seq<Seq<char>>, sep: Seq<char>) -> Seq<char>
    decreases parts.len(),
{
    if parts.len() == 0 {
        Seq::empty()
    } else if parts.len() == 1 {
        parts[0]
    } else {
        join(parts.drop_last(), sep) + sep + parts.last()
    }
}

/// The parts in order, with `sep` between neighbours.
pub fn joined(parts: &Vec<String>, sep: &str) -> (r: String)
    ensures
        r@ == join(texts(parts@), sep@),
{
    let mut out: String = String::new();
    let mut i: usize = 0;
    let ghost all = texts(parts@);
    while i < parts.len()
        invariant
            i <= parts@.len(),
            all == texts(parts@),
            out@ == join(all.take(i as int), sep@),
        decreases parts@.len() - i,
    {
        if i > 0 {
            out.push_str(sep);
        }
        out.push_str(parts[i].as_str());
        i += 1;
        assert(all.take(i as int).drop_last() == all.take(i - 1));
        assert(all.take(i as int).last() == parts@[i - 1]@);
        if i == 1 {
            assert(Seq::<char>::empty() + parts@[0]@ == parts@[0]@);
        }
    }
    assert(all.take(i as int) == all);
    out
}

// ---- decimal numbers ----------------------------------------------------

pub open spec fn digit(d: nat) -> char {
    if d == 0 { '0' }
    else if d == 1 { '1' }
    else if d == 2 { '2' }
    else if d == 3 { '3' }
    else if d == 4 { '4' }
    else if d == 5 { '5' }
    else if d == 6 { '6' }
    else if d == 7 { '7' }
    else if d == 8 { '8' }
    else { '9' }
}

fn digit_char(d: u128) -> (c: char)
    requires
        d < 10,
    ensures
        c == digit(d as nat),
{
    match d {
        0 => '0',
        1 => '1',
        2 => '2',
        3 => '3',
        4 => '4',
        5 => '5',
        6 => '6',
        7 => '7',
        8 => '8',
        _ => '9',
    }
}

/// The decimal digits of `n`, without leading zeros.
pub open spec fn decimal(n: nat) -> Seq<char>
    decreases n,
{
    if n < 10 {
        seq![digit(n)]
    } else {
        decimal(n / 10).push(digit(n % 10))
    }
}

/// The decimal digits of `n`, with a minus sign for a negative number.
pub open spec fn decimal_int(n: int) -> Seq<char> {
    if n < 0 {
        seq!['-'] + decimal((-n) as nat)
    } else {
        decimal(n as nat)
    }
}

pub fn decimal_text(n: u128) -> (r: String)
    ensures
        r@ == decimal(n as nat),
    decreases n,
{
    if n < 10 {
        let mut out: String = String::new();
        out.push(digit_char(n));
        assert(out@ == seq![digit(n as nat)]);
        out
    } else {
        let mut out: String = decimal_text(n / 10);
        out.push(digit_char(n % 10));
        out
    }
}

pub fn decimal_int_text(n: i64) -> (r: String)
    ensures
        r@ == decimal_int(n as int),
{
    if n < 0 {
        let mut out: String = String::new();
        out.push('-');
        let magnitude: u128 = (-(n as i128)) as u128;
        out.push_str(decimal_text(magnitude).as_str());
        assert(out@ == seq!['-'] + decimal((-n) as nat));
        out
    } else {
        decimal_text(n as u128)
    }
}

/// The value of one decimal digit.
pub open spec fn digit_value(c: char) -> nat {
    if ascii_digit(c) {
        (c as nat - '0' as nat) as nat
    } else {
        0
    }
}

pub open spec fn all_digits(s: Seq<char>) -> bool {
    forall|i: int| 0 <= i < s.len() ==> ascii_digit(#[trigger] s[i])
}

/// The number that a row of digits spells.
pub open spec fn digits_value(s: Seq<char>) -> nat
    decreases s.len(),
{
    if s.len() == 0 {
        0
    } else {
        digits_value(s.drop_last()) * 10 + digit_value(s.last())
    }
}

/// The number that a text spells: digits, with an optional plus sign.
pub open spec fn unsigned_value(s: Seq<char>) -> Option<nat> {
    let digits = if s.len() > 0 && s[0] == '+' {
        s.drop_first()
    } else {
        s
    };
    if digits.len() > 0 && all_digits(digits) {
        Some(digits_value(digits))
    } else {
        None
    }
}

/// The number that a text spells: digits, with an optional sign.
pub open spec fn signed_value(s: Seq<char>) -> Option<int> {
    if s.len() > 0 && s[0] == '-' {
        let digits = s.drop_first();
        if digits.len() > 0 && all_digits(digits) {
            Some(-(digits_value(digits) as int))
        } else {
            None
        }
    } else {
        match unsigned_value(s) {
            Some(n) => Some(n as int),
            None => None,
        }
    }
}

/// The text of the error that `str::parse::<i64>` gives.
pub uninterp spec fn i64_error(s: Seq<char>) -> Seq<char>;

/// The text of the error that `str::parse::<u64>` gives.
pub uninterp spec fn u64_error(s: Seq<char>) -> Seq<char>;

/// The text of the error that `str::parse::<usize>` gives.
pub uninterp spec fn usize_error(s: Seq<char>) -> Seq<char>;

/// `str::parse::<i64>` takes digits with an optional sign, and fails when
/// the number is out of range; the error is told by its `Display` text.
#[verifier::external_body]
pub(crate) fn parse_i64(s: &str) -> (r: Result<i64, String>)
    ensures
        match r {
            Ok(n) => signed_value(s@) == Some(n as int),
            Err(message) => message@ == i64_error(s@) && (match signed_value(s@) {
                Some(n) => n < i64::MIN || n > i64::MAX,
                None => true,
            }),
        },
{
    s.parse::<i64>().map_err(|error| error.to_string())
}

/// `str::parse::<u64>` takes digits with an optional plus sign, and fails
/// when the number is out of range; the error is told by its `Display` text.
#[verifier::external_body]
pub(crate) fn parse_u64(s: &str) -> (r: Result<u64, String>)
    ensures
        match r {
            Ok(n) => unsigned_value(s@) == Some(n as nat),
            Err(message) => message@ == u64_error(s@) && (match unsigned_value(s@) {
                Some(n) => n > u64::MAX,
                None => true,
            }),
        },
{
    s.parse::<u64>().map_err(|error| error.to_string())
}

/// `str::parse::<usize>` takes digits with an optional plus sign, and fails
/// when the number is out of range; the error is told by its `Display` text.
#[verifier::external_body]
pub(crate) fn parse_usize(s: &str) -> (r: Result<usize, String>)
    ensures
        match r {
            Ok(n) => unsigned_value(s@) == Some(n as nat),
            Err(message) => message@ == usize_error(s@) && (match unsigned_value(s@) {
                Some(n) => n > usize::MAX,
                None => true,
            }),
        },
{
    s.parse::<usize>().map_err(|error| error.to_string())
}

/// The text that the `Debug` impl of `str` gives: quoted and escaped.
pub uninterp spec fn str_debug(s: Seq<char>) -> Seq<char>;

/// `format!("{:?}")` of a string. Which characters it escapes, and how, is left
/// unsaid.
#[verifier::external_body]
pub(crate) fn debug_str(s: &str) -> (r: String)
    ensures
        r@ == str_debug(s@),
{
    format!("{:?}", s)
}

// ---- laws ---------------------------------------------------------------

/// What is left without leading white space starts with something else.
proof fn trim_start_ends(s: Seq<char>)
    ensures
        trim_start(s).len() == 0 || !white_space(trim_start(s)[0]),
    decreases s.len(),
{
    if s.len() > 0 && white_space(s[0]) {
        trim_start_ends(s.drop_first());
    }
}

/// What is left without trailing white space starts the text and ends with
/// something else.
proof fn trim_end_cuts(s: Seq<char>)
    ensures
        trim_end(s).len() <= s.len(),
        trim_end(s) == s.take(trim_end(s).len() as int),
        trim_end(s).len() == 0 || !white_space(trim_end(s).last()),
    decreases s.len(),
{
    if s.len() > 0 && white_space(s.last()) {
        trim_end_cuts(s.drop_last());
        let n = trim_end(s).len() as int;
        assert(s.drop_last().take(n) =~= s.take(n));
    } else {
        assert(s.take(s.len() as int) =~= s);
    }
}

/// A text without white space at its ends stays as it is.
pub proof fn trim_keeps(s: Seq<char>)
    requires
        s.len() > 0 ==> !white_space(s[0]) && !white_space(s.last()),
    ensures
        trim(s) == s,
{
}

/// What is trimmed has no white space at its ends, and trimming it again
/// changes nothing.
pub proof fn trim_is_idempotent(s: Seq<char>)
    ensures
        trim(s).len() > 0 ==> !white_space(trim(s)[0]) && !white_space(trim(s).last()),
        trim(trim(s)) == trim(s),
{
    trim_start_ends(s);
    trim_end_cuts(trim_start(s));
    trim_keeps(trim(s));
}

/// Trimming brings no character that was not there.
pub proof fn trim_is_a_part(s: Seq<char>, c: char)
    requires
        trim(s).contains(c),
    ensures
        s.contains(c),
{
    trim_start_cuts(s);
    trim_end_cuts(trim_start(s));
    let i = trim(s).index_of(c);
    assert(trim(s)[i] == c);
    assert(trim_start(s)[i] == c);
    assert(s[s.len() - trim_start(s).len() + i] == c);
}

/// No part between separators holds one.
pub proof fn parts_hold_no_separator(s: Seq<char>, sep: char, i: int)
    requires
        0 <= i < split(s, sep).len(),
    ensures
        !split(s, sep)[i].contains(sep),
    decreases s.len(),
{
    find_bounds(s, sep);
    let n = find(s, sep);
    if n < s.len() {
        if i > 0 {
            parts_hold_no_separator(s.skip(n + 1), sep, i - 1);
        }
    }
}

proof fn join_by_first(list: Seq<Seq<char>>, sep: Seq<char>)
    requires
        list.len() > 1,
    ensures
        join(list, sep) == list[0] + sep + join(list.drop_first(), sep),
    decreases list.len(),
{
    let init = list.drop_last();
    let rest = list.drop_first();
    assert(rest.last() == list.last());
    if list.len() == 2 {
        assert(join(init, sep) == list[0]);
        assert(join(rest, sep) == list.last());
    } else {
        join_by_first(init, sep);
        assert(init.drop_first() =~= rest.drop_last());
        assert(join(rest, sep) == join(rest.drop_last(), sep) + sep + rest.last());
        assert(join(list, sep) =~= list[0] + sep + (join(rest.drop_last(), sep) + sep
            + rest.last()));
    }
}

/// Parts without the separator come back when what joins them is split.
pub proof fn joined_parts_are_split(list: Seq<Seq<char>>, sep: char)
    requires
        list.len() > 0,
        forall|i: int| 0 <= i < list.len() ==> !(#[trigger] list[i]).contains(sep),
    ensures
        split(join(list, seq![sep]), sep) == list,
    decreases list.len(),
{
    let s = join(list, seq![sep]);
    let first = list[0];
    assert(!first.contains(sep));
    assert forall|j: int| 0 <= j < first.len() implies first[j] != sep by {
        assert(first.contains(first[j]));
    }
    if list.len() == 1 {
        find_at(s, sep, s.len() as int);
        assert(split(s, sep) =~= list);
    } else {
        let rest = list.drop_first();
        join_by_first(list, seq![sep]);
        assert forall|i: int| 0 <= i < rest.len() implies !(#[trigger] rest[i]).contains(sep) by {
            assert(!list[i + 1].contains(sep));
        }
        joined_parts_are_split(rest, sep);
        let n = first.len() as int;
        assert forall|j: int| 0 <= j < n implies s[j] != sep by {
            assert(s[j] == first[j]);
        }
        assert(s[n] == sep);
        find_at(s, sep, n);
        assert(s.take(n) =~= first);
        assert(s.skip(n + 1) =~= join(rest, seq![sep]));
        assert(list =~= seq![first] + rest);
    }
}

/// A number that is written is read back.
pub proof fn decimals_are_read_back(n: nat)
    ensures
        unsigned_value(decimal(n)) == Some(n),
        decimal(n).len() > 0,
        all_digits(decimal(n)),
        digits_value(decimal(n)) == n,
    decreases n,
{
    let s = decimal(n);
    if n < 10 {
        assert(s =~= seq![digit(n)]);
        assert(s.drop_last() =~= Seq::<char>::empty());
        assert(digits_value(s.drop_last()) == 0);
    } else {
        decimals_are_read_back(n / 10);
        assert(s.drop_last() =~= decimal(n / 10));
        assert forall|i: int| 0 <= i < s.len() implies ascii_digit(
            #[trigger] s[i],
        ) by {
            if i < s.len() - 1 {
                assert(ascii_digit(decimal(n / 10)[i]));
            }
        }
    }
    assert(ascii_digit(s[0]));
}

/// A number that is written down is read back, with its sign.
pub proof fn signed_decimals_are_read_back(n: int)
    ensures
        signed_value(decimal_int(n)) == Some(n),
{
    if n < 0 {
        let digits = decimal((-n) as nat);
        decimals_are_read_back((-n) as nat);
        assert(decimal_int(n).drop_first() =~= digits);
    } else {
        decimals_are_read_back(n as nat);
        assert(ascii_digit(decimal(n as nat)[0]));
    }
}

} // verus!
