//! The lines that were entered.

use crate::lines::{
    drop_line_end, is_line, lines, lines_are_read_back, split_lines, with_line_feeds,
    without_line_end,
};
use crate::text::{same, texts, texts_push};
use vstd::prelude::*;

verus! {

broadcast use vstd::string::group_string_axioms;

/// How many lines are kept.
pub const DEFAULT_CAPACITY: usize = 1000;

/// The lines that were entered, the newest last.
#[derive(Debug)]
pub struct ReplHistory {
    pub entries: Vec<String>,
    pub capacity: usize,
}

pub struct HistoryModel {
    pub entries: Seq<Seq<char>>,
    pub capacity: nat,
}

impl View for ReplHistory {
    type V = HistoryModel;

    open spec fn view(&self) -> HistoryModel {
        HistoryModel { entries: texts(self.entries@), capacity: self.capacity as nat }
    }
}

/// The texts that are not empty.
pub open spec fn not_empty(list: Seq<Seq<char>>) -> Seq<Seq<char>>
    decreases list.len(),
{
    if list.len() == 0 {
        Seq::empty()
    } else {
        let before = not_empty(list.drop_last());
        if list.last().len() == 0 {
            before
        } else {
            before.push(list.last())
        }
    }
}

/// The last `n` of a list.
pub open spec fn newest(list: Seq<Seq<char>>, n: nat) -> Seq<Seq<char>> {
    if list.len() > n {
        list.skip(list.len() - n)
    } else {
        list
    }
}

impl HistoryModel {
    /// Whether a line adds to the history: it is not empty and not the last
    /// one again.
    pub open spec fn takes(self, line: Seq<char>) -> bool {
        let entry = without_line_end(line);
        entry.len() > 0 && !(self.entries.len() > 0 && self.entries.last() == entry)
    }

    /// The history after a line.
    pub open spec fn push(self, line: Seq<char>) -> HistoryModel {
        if self.takes(line) {
            HistoryModel {
                entries: newest(self.entries.push(without_line_end(line)), self.capacity),
                ..self
            }
        } else {
            self
        }
    }

    /// The text of the file that keeps the history.
    pub open spec fn file(self) -> Seq<char> {
        with_line_feeds(self.entries)
    }
}

/// The history that a file keeps.
pub open spec fn from_file(text: Seq<char>) -> HistoryModel {
    HistoryModel { entries: not_empty(lines(text)), capacity: DEFAULT_CAPACITY as nat }
}

impl ReplHistory {
    /// The history that a file keeps. A file that is not there is an empty
    /// text.
    pub fn open(text: &str) -> (r: Self)
        ensures
            r@ == from_file(text@),
    {
        ReplHistory { entries: read_lines(text), capacity: DEFAULT_CAPACITY }
    }

    /// Adds a line, and says whether the history changed and has to be
    /// written.
    pub fn push(&mut self, line: &str) -> (r: bool)
        ensures
            final(self)@ == old(self)@.push(line@),
            r == old(self)@.takes(line@),
    {
        let entry: String = drop_line_end(line);
        if entry.as_str().is_empty() {
            return false;
        }
        let n: usize = self.entries.len();
        if n > 0 && same(self.entries[n - 1].as_str(), entry.as_str()) {
            return false;
        }
        let ghost before = texts(self.entries@);
        proof {
            texts_push(self.entries@, entry);
            assert(n > 0 ==> before.last() == self.entries@[n - 1]@);
        }
        self.entries.push(entry);
        let ghost all = texts(self.entries@);
        let ghost mut dropped: int = 0;
        assert(all.skip(0) =~= all);
        while self.entries.len() > self.capacity
            invariant
                self.capacity == old(self).capacity,
                0 <= dropped <= all.len(),
                texts(self.entries@) == all.skip(dropped),
                dropped > 0 ==> all.len() - dropped >= self.capacity,
            decreases self.entries@.len(),
        {
            let ghost held = self.entries@;
            self.entries.remove(0);
            proof {
                dropped = dropped + 1;
                assert(texts(self.entries@) =~= texts(held).drop_first());
                assert(all.skip(dropped - 1).drop_first() =~= all.skip(dropped));
            }
        }
        true
    }

    pub fn entries(&self) -> (r: &Vec<String>)
        ensures
            texts(r@) == self@.entries,
    {
        &self.entries
    }

    pub fn len(&self) -> (r: usize)
        ensures
            r == self@.entries.len(),
    {
        self.entries.len()
    }

    pub fn is_empty(&self) -> (r: bool)
        ensures
            r == (self@.entries.len() == 0),
    {
        self.entries.len() == 0
    }

    /// The `n`-th line from the newest on.
    pub fn nth_back(&self, n: usize) -> (r: Option<&String>)
        ensures
            match r {
                Some(s) => n < self@.entries.len() && s@ == self@.entries[self@.entries.len() - 1
                    - n],
                None => n >= self@.entries.len(),
            },
    {
        let len: usize = self.entries.len();
        if n >= len {
            None
        } else {
            Some(&self.entries[len - 1 - n])
        }
    }

    /// The text of the file that keeps the history.
    pub fn file_text(&self) -> (r: String)
        ensures
            r@ == self@.file(),
    {
        let mut out: String = String::new();
        let ghost all = self@.entries;
        let mut i: usize = 0;
        assert(out@ + with_line_feeds(all.skip(0)) =~= with_line_feeds(all)) by {
            assert(all.skip(0) =~= all);
        }
        while i < self.entries.len()
            invariant
                i <= self.entries@.len(),
                all == self@.entries,
                out@ + with_line_feeds(all.skip(i as int)) == with_line_feeds(all),
            decreases self.entries@.len() - i,
        {
            let ghost before = out@;
            out.push_str(self.entries[i].as_str());
            out.push('\n');
            proof {
                let rest = all.skip(i as int);
                assert(rest[0] == self.entries@[i as int]@);
                assert(rest.drop_first() =~= all.skip(i + 1));
                assert(out@ + with_line_feeds(all.skip(i + 1)) =~= before + with_line_feeds(rest));
            }
            i += 1;
        }
        assert(all.skip(i as int) =~= Seq::<Seq<char>>::empty());
        assert(out@ + Seq::<char>::empty() =~= out@);
        out
    }
}

/// The lines of a text that are not empty.
pub fn read_lines(text: &str) -> (r: Vec<String>)
    ensures
        texts(r@) == not_empty(lines(text@)),
{
    let found: Vec<String> = split_lines(text);
    let ghost all = texts(found@);
    let mut out: Vec<String> = Vec::new();
    let mut i: usize = 0;
    assert(texts(out@) =~= not_empty(all.take(0)));
    while i < found.len()
        invariant
            i <= found@.len(),
            all == texts(found@),
            texts(out@) == not_empty(all.take(i as int)),
        decreases found@.len() - i,
    {
        let line: String = found[i].clone();
        proof {
            assert(all.take(i + 1).drop_last() =~= all.take(i as int));
            assert(all.take(i + 1).last() == line@);
            texts_push(out@, line);
        }
        if !line.as_str().is_empty() {
            out.push(line);
        }
        i += 1;
    }
    assert(all.take(i as int) =~= all);
    out
}

// ---- laws ---------------------------------------------------------------

/// A history never holds more than its capacity after a line was added.
pub proof fn history_is_bounded(history: HistoryModel, line: Seq<char>)
    ensures
        history.takes(line) ==> history.push(line).entries.len() <= history.capacity,
        history.entries.len() <= history.capacity ==> history.push(line).entries.len()
            <= history.capacity,
{
}

/// The same line twice in a row adds to the history once.
pub proof fn repeated_lines_count_once(history: HistoryModel, line: Seq<char>)
    requires
        history.capacity > 0,
    ensures
        history.push(line).push(line) == history.push(line),
{
    let entry = without_line_end(line);
    if history.takes(line) {
        let all = history.entries.push(entry);
        let after = history.push(line);
        assert(after.entries.last() == entry) by {
            if all.len() > history.capacity {
                let cut = all.skip(all.len() - history.capacity);
                assert(cut[cut.len() - 1] == all[all.len() - 1]);
            }
        }
    }
}

/// A history that is written is read back as it was, if no entry holds a line
/// feed or ends in a carriage return.
pub proof fn history_is_read_back(history: HistoryModel)
    requires
        history.capacity == DEFAULT_CAPACITY,
        forall|i: int|
            0 <= i < history.entries.len() ==> is_line(#[trigger] history.entries[i])
                && history.entries[i].len() > 0,
    ensures
        from_file(history.file()) == history,
{
    lines_are_read_back(history.entries);
    nothing_is_empty(history.entries);
}

proof fn nothing_is_empty(list: Seq<Seq<char>>)
    requires
        forall|i: int| 0 <= i < list.len() ==> (#[trigger] list[i]).len() > 0,
    ensures
        not_empty(list) == list,
    decreases list.len(),
{
    if list.len() > 0 {
        let init = list.drop_last();
        assert forall|i: int| 0 <= i < init.len() implies (#[trigger] init[i]).len() > 0 by {
            assert(list[i].len() > 0);
        }
        nothing_is_empty(init);
        assert(list[list.len() - 1].len() > 0);
        assert(init.push(list.last()) =~= list);
    } else {
        assert(not_empty(list) =~= list);
    }
}

/// An entry is never empty and never ends in a line feed or a carriage
/// return, if that holds of what was there before.
pub proof fn entries_stay_trimmed(history: HistoryModel, line: Seq<char>, i: int)
    requires
        forall|j: int|
            0 <= j < history.entries.len() ==> (#[trigger] history.entries[j]).len() > 0
                && history.entries[j].last() != '\n' && history.entries[j].last() != '\r',
        0 <= i < history.push(line).entries.len(),
    ensures
        ({
            let entry = history.push(line).entries[i];
            entry.len() > 0 && entry.last() != '\n' && entry.last() != '\r'
        }),
{
    crate::lines::no_line_end_is_left(line);
    if history.takes(line) {
        let all = history.entries.push(without_line_end(line));
        let k = if all.len() > history.capacity {
            i + all.len() - history.capacity
        } else {
            i
        };
        assert(history.push(line).entries[i] == all[k]);
        if k < history.entries.len() {
            assert(history.entries[k].len() > 0);
        }
    } else {
        assert(history.entries[i].len() > 0);
    }
}

impl HistoryModel {
    /// The history after lines, the first one first.
    pub open spec fn pushed(self, list: Seq<Seq<char>>) -> HistoryModel
        decreases list.len(),
    {
        if list.len() == 0 {
            self
        } else {
            self.pushed(list.drop_last()).push(list.last())
        }
    }
}

/// What was entered is there again after the file was written and opened, if
/// no line has a line feed but at its end.
pub proof fn entered_lines_are_read_back(list: Seq<Seq<char>>)
    requires
        forall|i: int|
            0 <= i < list.len() ==> !without_line_end(#[trigger] list[i]).contains('\n'),
    ensures
        ({
            let history = from_file(""@).pushed(list);
            from_file(history.file()) == history
        }),
{
    entered_lines_are_lines(list);
    history_is_read_back(from_file(""@).pushed(list));
}

proof fn entered_lines_are_lines(list: Seq<Seq<char>>)
    requires
        forall|i: int|
            0 <= i < list.len() ==> !without_line_end(#[trigger] list[i]).contains('\n'),
    ensures
        ({
            let history = from_file(""@).pushed(list);
            &&& history.capacity == DEFAULT_CAPACITY
            &&& forall|i: int|
                0 <= i < history.entries.len() ==> is_line(#[trigger] history.entries[i])
                    && history.entries[i].len() > 0
        }),
    decreases list.len(),
{
    let history = from_file(""@).pushed(list);
    if list.len() == 0 {
        reveal_strlit("");
        lines_are_read_back(Seq::<Seq<char>>::empty());
        assert(with_line_feeds(Seq::<Seq<char>>::empty()) =~= ""@);
        assert(history.entries =~= Seq::<Seq<char>>::empty());
    } else {
        let init = list.drop_last();
        let before = from_file(""@).pushed(init);
        let line = list.last();
        assert forall|i: int| 0 <= i < init.len() implies !without_line_end(
            #[trigger] init[i],
        ).contains('\n') by {
            assert(!without_line_end(list[i]).contains('\n'));
        }
        entered_lines_are_lines(init);
        assert(!without_line_end(list[list.len() - 1]).contains('\n'));
        crate::lines::no_line_end_is_left(line);
        assert forall|i: int| 0 <= i < history.entries.len() implies is_line(
            #[trigger] history.entries[i],
        ) && history.entries[i].len() > 0 by {
            if before.takes(line) {
                let all = before.entries.push(without_line_end(line));
                let k = if all.len() > before.capacity {
                    i + all.len() - before.capacity
                } else {
                    i
                };
                assert(history.entries[i] == all[k]);
                if k < before.entries.len() {
                    assert(is_line(before.entries[k]));
                }
            } else {
                assert(is_line(before.entries[i]));
            }
        }
    }
}

/// A line that is taken comes last, without its line end; the lines before it stay, in
/// order, but for the oldest ones where there is no room for them.
pub proof fn older_lines_stay(history: HistoryModel, line: Seq<char>, i: int)
    requires
        history.takes(line),
        history.entries.len() <= history.capacity,
        history.capacity > 0,
        0 <= i < history.entries.len(),
    ensures
        ({
            let after = history.push(line).entries;
            let n = history.entries.len();
            &&& after.last() == without_line_end(line)
            &&& n < history.capacity ==> after.len() == n + 1 && after[i] == history.entries[i]
            &&& n == history.capacity ==> after.len() == n && (i > 0 ==> after[i - 1]
                == history.entries[i])
        }),
{
}

} // verus!
