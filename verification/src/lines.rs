//! Texts and their lines.

use crate::text::{
    chars_of, find, find_at, find_bounds, slice_text, split, split_text, texts, texts_push,
};
use vstd::prelude::*;

verus! {

broadcast use vstd::string::group_string_axioms;

/// A line without the carriage return at its end.
pub open spec fn without_return(line: Seq<char>) -> Seq<char> {
    if line.len() > 0 && line.last() == '\r' {
        line.drop_last()
    } else {
        line
    }
}

/// The lines among the parts between line feeds. What follows the last line
/// feed is a line if there is anything.
pub open spec fn lines_among(parts: Seq<Seq<char>>) -> Seq<Seq<char>>
    recommends
        parts.len() > 0,
{
    let ended = parts.drop_last().map_values(|p: Seq<char>| without_return(p));
    if parts.last().len() > 0 {
        ended.push(parts.last())
    } else {
        ended
    }
}

/// The lines of a text.
pub open spec fn lines(s: Seq<char>) -> Seq<Seq<char>> {
    lines_among(split(s, '\n'))
}

/// A text without the carriage returns and line feeds at its end.
pub open spec fn without_line_end(s: Seq<char>) -> Seq<char>
    decreases s.len(),
{
    if s.len() > 0 && (s.last() == '\r' || s.last() == '\n') {
        without_line_end(s.drop_last())
    } else {
        s
    }
}

fn drop_return(line: &str) -> (r: String)
    ensures
        r@ == without_return(line@),
{
    let chars: Vec<char> = chars_of(line);
    let n: usize = chars.len();
    if n > 0 && chars[n - 1] == '\r' {
        assert(chars@.subrange(0, n - 1) =~= line@.drop_last());
        slice_text(&chars, 0, n - 1)
    } else {
        line.to_owned()
    }
}

/// The lines of a text.
pub fn split_lines(s: &str) -> (r: Vec<String>)
    ensures
        texts(r@) == lines(s@),
{
    let parts: Vec<String> = split_text(s, '\n');
    let n: usize = parts.len();
    let ghost all = texts(parts@);
    let ghost ended = all.drop_last().map_values(|p: Seq<char>| without_return(p));
    proof {
        split_has_parts(s@, '\n');
    }
    let mut out: Vec<String> = Vec::new();
    let mut i: usize = 0;
    assert(texts(out@) =~= ended.take(0));
    while i < n - 1
        invariant
            i < n == parts@.len(),
            all == texts(parts@),
            ended == all.drop_last().map_values(|p: Seq<char>| without_return(p)),
            texts(out@) == ended.take(i as int),
        decreases n - i,
    {
        let line: String = drop_return(parts[i].as_str());
        proof {
            assert(all.drop_last()[i as int] == parts@[i as int]@);
            assert(ended.take(i + 1) =~= ended.take(i as int).push(line@));
            texts_push(out@, line);
        }
        out.push(line);
        i += 1;
    }
    assert(ended.take(i as int) =~= ended);
    let last: String = parts[n - 1].clone();
    assert(all.last() == last@);
    proof {
        texts_push(out@, last);
    }
    if !last.as_str().is_empty() {
        out.push(last);
    }
    out
}

/// There is always a part.
pub proof fn split_has_parts(s: Seq<char>, sep: char)
    ensures
        split(s, sep).len() > 0,
{
}

/// A text without the carriage returns and line feeds at its end.
pub fn drop_line_end(s: &str) -> (r: String)
    ensures
        r@ == without_line_end(s@),
{
    let chars: Vec<char> = chars_of(s);
    let mut n: usize = chars.len();
    assert(s@.take(n as int) =~= s@);
    while n > 0 && (chars[n - 1] == '\r' || chars[n - 1] == '\n')
        invariant
            n <= chars@.len(),
            chars@ == s@,
            without_line_end(s@) == without_line_end(s@.take(n as int)),
        decreases n,
    {
        assert(s@.take(n as int).drop_last() =~= s@.take(n - 1));
        n -= 1;
    }
    assert(chars@.subrange(0, n as int) =~= s@.take(n as int));
    slice_text(&chars, 0, n)
}

/// What stands before and behind the first separator, if there is one.
pub open spec fn split_once(s: Seq<char>, sep: char) -> Option<(Seq<char>, Seq<char>)> {
    let n = find(s, sep);
    if n < s.len() {
        Some((s.take(n), s.skip(n + 1)))
    } else {
        None
    }
}

/// What stands before and behind the first separator, if there is one.
pub fn cut_once(s: &str, sep: char) -> (r: Option<(String, String)>)
    ensures
        split_once(s@, sep) == (match r {
            Some((a, b)) => Some((a@, b@)),
            None => None,
        }),
{
    let chars: Vec<char> = chars_of(s);
    let n: usize = chars.len();
    let mut i: usize = 0;
    while i < n && chars[i] != sep
        invariant
            i <= n == chars@.len(),
            forall|j: int| 0 <= j < i ==> chars@[j] != sep,
        decreases n - i,
    {
        i += 1;
    }
    proof {
        find_at(chars@, sep, i as int);
    }
    if i < n {
        assert(chars@.subrange(0, i as int) =~= s@.take(i as int));
        assert(chars@.subrange(i + 1, n as int) =~= s@.skip(i + 1));
        Some((slice_text(&chars, 0, i), slice_text(&chars, i + 1, n)))
    } else {
        None
    }
}

// ---- laws ---------------------------------------------------------------

/// The texts, each with a line feed behind it.
pub open spec fn with_line_feeds(list: Seq<Seq<char>>) -> Seq<char>
    decreases list.len(),
{
    if list.len() == 0 {
        Seq::empty()
    } else {
        list[0] + seq!['\n'] + with_line_feeds(list.drop_first())
    }
}

/// A text that is a line of its own: no line feed in it and no carriage
/// return at its end.
pub open spec fn is_line(s: Seq<char>) -> bool {
    !s.contains('\n') && !(s.len() > 0 && s.last() == '\r')
}

/// Lines that are written with a line feed behind each are read back as they
/// were.
pub proof fn lines_are_read_back(list: Seq<Seq<char>>)
    requires
        forall|i: int| 0 <= i < list.len() ==> is_line(#[trigger] list[i]),
    ensures
        lines(with_line_feeds(list)) == list,
{
    split_of_lines(list);
    let parts = split(with_line_feeds(list), '\n');
    assert(parts == list.push(Seq::<char>::empty()));
    assert(parts.drop_last() =~= list);
    assert(lines_among(parts) =~= list) by {
        assert forall|i: int| 0 <= i < list.len() implies without_return(#[trigger] list[i])
            == list[i] by {
            assert(is_line(list[i]));
        }
    }
}

proof fn split_of_lines(list: Seq<Seq<char>>)
    requires
        forall|i: int| 0 <= i < list.len() ==> is_line(#[trigger] list[i]),
    ensures
        split(with_line_feeds(list), '\n') == list.push(Seq::<char>::empty()),
    decreases list.len(),
{
    let s = with_line_feeds(list);
    if list.len() == 0 {
        find_bounds(s, '\n');
        assert(split(s, '\n') =~= seq![Seq::<char>::empty()]);
        assert(list.push(Seq::<char>::empty()) =~= seq![Seq::<char>::empty()]);
    } else {
        let first = list[0];
        let rest = list.drop_first();
        assert forall|i: int| 0 <= i < rest.len() implies is_line(#[trigger] rest[i]) by {
            assert(is_line(list[i + 1]));
        }
        split_of_lines(rest);
        assert(is_line(list[0]));
        assert forall|j: int| 0 <= j < first.len() implies s[j] != '\n' by {
            assert(s[j] == first[j]);
            assert(first.contains(first[j]));
        }
        assert(s[first.len() as int] == '\n');
        find_at(s, '\n', first.len() as int);
        assert(s.take(first.len() as int) =~= first);
        assert(s.skip(first.len() as int + 1) =~= with_line_feeds(rest));
        assert(list.push(Seq::<char>::empty()) =~= seq![first] + rest.push(Seq::<char>::empty()));
    }
}

/// What is left without a line end has none.
pub proof fn no_line_end_is_left(s: Seq<char>)
    ensures
        ({
            let t = without_line_end(s);
            t.len() == 0 || (t.last() != '\r' && t.last() != '\n')
        }),
        without_line_end(s).len() <= s.len(),
        without_line_end(s) == s.take(without_line_end(s).len() as int),
    decreases s.len(),
{
    if s.len() > 0 && (s.last() == '\r' || s.last() == '\n') {
        no_line_end_is_left(s.drop_last());
        let n = without_line_end(s).len() as int;
        assert(s.drop_last().take(n) =~= s.take(n));
    } else {
        assert(s.take(s.len() as int) =~= s);
    }
}

} // verus!
