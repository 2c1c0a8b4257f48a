//! A map from names to values that is walked in the order of its names.

use crate::text::{comes_before, same, text_lt, text_lt_total, text_lt_transitive};
use vstd::prelude::*;

verus! {

broadcast use vstd::string::group_string_axioms;

/// Named values, each name once, in code-point order of the names.
#[derive(Debug, PartialEq)]
pub struct Fields<V> {
    pub(crate) entries: Vec<(String, V)>,
}

/// The value that the first entry named `name` holds.
pub open spec fn lookup<V>(entries: Seq<(Seq<char>, V)>, name: Seq<char>) -> Option<V>
    decreases entries.len(),
{
    if entries.len() == 0 {
        None
    } else if entries[0].0 == name {
        Some(entries[0].1)
    } else {
        lookup(entries.drop_first(), name)
    }
}

/// The entries with `name` bound to `value`: the entry of that name is
/// replaced, or a new one stands before the first greater name.
pub open spec fn put<V>(
    entries: Seq<(Seq<char>, V)>,
    name: Seq<char>,
    value: V,
) -> Seq<(Seq<char>, V)>
    decreases entries.len(),
{
    if entries.len() == 0 {
        seq![(name, value)]
    } else if entries[0].0 == name {
        seq![(name, value)] + entries.drop_first()
    } else if text_lt(name, entries[0].0) {
        seq![(name, value)] + entries
    } else {
        seq![entries[0]] + put(entries.drop_first(), name, value)
    }
}

/// Names strictly increase.
pub open spec fn increasing<V>(entries: Seq<(Seq<char>, V)>) -> bool {
    forall|i: int, j: int|
        #![trigger entries[i], entries[j]]
        0 <= i < j < entries.len() ==> text_lt(entries[i].0, entries[j].0)
}

/// What was bound last is what is found, and no other name is touched.
pub proof fn put_then_lookup<V>(
    entries: Seq<(Seq<char>, V)>,
    name: Seq<char>,
    value: V,
    other: Seq<char>,
)
    ensures
        lookup(put(entries, name, value), other) == if other == name {
            Some(value)
        } else {
            lookup(entries, other)
        },
    decreases entries.len(),
{
    let after = put(entries, name, value);
    reveal_with_fuel(lookup, 2);
    if entries.len() == 0 {
        assert(after.drop_first() == Seq::<(Seq<char>, V)>::empty());
    } else if entries[0].0 == name {
        assert(after.drop_first() == entries.drop_first());
    } else if text_lt(name, entries[0].0) {
        assert(after.drop_first() == entries);
    } else {
        assert(after.drop_first() == put(entries.drop_first(), name, value));
        put_then_lookup(entries.drop_first(), name, value, other);
    }
}

/// An entry that comes last is found where no earlier one has its name.
pub proof fn lookup_push<V>(entries: Seq<(Seq<char>, V)>, last: (Seq<char>, V), name: Seq<char>)
    ensures
        lookup(entries.push(last), name) == match lookup(entries, name) {
            Some(v) => Some(v),
            None => if last.0 == name {
                Some(last.1)
            } else {
                None
            },
        },
    decreases entries.len(),
{
    if entries.len() == 0 {
        assert(entries.push(last).drop_first() =~= Seq::<(Seq<char>, V)>::empty());
        assert(lookup(Seq::<(Seq<char>, V)>::empty(), name) is None);
    } else {
        lookup_push(entries.drop_first(), last, name);
        assert(entries.push(last).drop_first() =~= entries.drop_first().push(last));
    }
}

/// A name that is found stands in some entry, with the value that is found.
pub proof fn lookup_finds<V>(entries: Seq<(Seq<char>, V)>, name: Seq<char>)
    ensures
        lookup(entries, name) matches Some(v) ==> exists|i: int|
            0 <= i < entries.len() && #[trigger] entries[i] == (name, v),
        lookup(entries, name) is None ==> forall|i: int|
            0 <= i < entries.len() ==> (#[trigger] entries[i]).0 != name,
    decreases entries.len(),
{
    if entries.len() > 0 && entries[0].0 != name {
        let rest = entries.drop_first();
        lookup_finds(rest, name);
        if lookup(entries, name) is Some {
            let v = lookup(entries, name)->0;
            let i = choose|i: int| 0 <= i < rest.len() && #[trigger] rest[i] == (name, v);
            assert(entries[i + 1] == (name, v));
        } else {
            assert forall|i: int| 0 <= i < entries.len() implies (#[trigger] entries[i]).0
                != name by {
                if i > 0 {
                    assert(rest[i - 1] == entries[i]);
                }
            }
        }
    } else if entries.len() > 0 {
        assert(entries[0] == (name, entries[0].1));
    }
}

/// Where the names increase, every entry is the one found by its name.
pub proof fn lookup_at<V>(entries: Seq<(Seq<char>, V)>, i: int)
    requires
        increasing(entries),
        0 <= i < entries.len(),
    ensures
        lookup(entries, entries[i].0) == Some(entries[i].1),
    decreases i,
{
    if i > 0 {
        let rest = entries.drop_first();
        assert forall|a: int, b: int| #![trigger rest[a], rest[b]]
            0 <= a < b < rest.len() implies text_lt(rest[a].0, rest[b].0) by {
            assert(rest[a] == entries[a + 1] && rest[b] == entries[b + 1]);
        }
        lookup_at(rest, i - 1);
        assert(rest[i - 1] == entries[i]);
        assert(text_lt(entries[0].0, entries[i].0));
        text_lt_total(entries[0].0, entries[i].0);
    }
}

/// Binding a name keeps the names increasing.
pub proof fn put_increasing<V>(entries: Seq<(Seq<char>, V)>, name: Seq<char>, value: V)
    requires
        increasing(entries),
    ensures
        increasing(put(entries, name, value)),
        forall|i: int|
            0 <= i < put(entries, name, value).len() ==> ({
                ||| (#[trigger] put(entries, name, value)[i]).0 == name
                ||| exists|j: int|
                    0 <= j < entries.len() && (#[trigger] entries[j]).0 == put(
                        entries,
                        name,
                        value,
                    )[i].0
            }),
    decreases entries.len(),
{
    let after = put(entries, name, value);
    if entries.len() > 0 {
        let rest = entries.drop_first();
        assert forall|a: int, b: int| #![trigger rest[a], rest[b]]
            0 <= a < b < rest.len() implies text_lt(rest[a].0, rest[b].0) by {
            assert(rest[a] == entries[a + 1] && rest[b] == entries[b + 1]);
        }
        if entries[0].0 == name {
            assert forall|a: int, b: int| #![trigger after[a], after[b]]
                0 <= a < b < after.len() implies text_lt(after[a].0, after[b].0) by {
                assert(after[a].0 == entries[a].0 && after[b].0 == entries[b].0);
            }
            assert forall|i: int| 0 <= i < after.len() implies ({
                ||| (#[trigger] after[i]).0 == name
                ||| exists|j: int| 0 <= j < entries.len() && (#[trigger] entries[j]).0 == after[i].0
            }) by {
                assert(after[i].0 == entries[i].0);
            }
        } else if text_lt(name, entries[0].0) {
            assert forall|a: int, b: int| #![trigger after[a], after[b]]
                0 <= a < b < after.len() implies text_lt(after[a].0, after[b].0) by {
                assert(after[b] == entries[b - 1]);
                if a > 0 {
                    assert(after[a] == entries[a - 1]);
                } else if b > 1 {
                    assert(text_lt(entries[0].0, entries[b - 1].0));
                    text_lt_transitive(name, entries[0].0, entries[b - 1].0);
                }
            }
            assert forall|i: int| 0 <= i < after.len() implies ({
                ||| (#[trigger] after[i]).0 == name
                ||| exists|j: int| 0 <= j < entries.len() && (#[trigger] entries[j]).0 == after[i].0
            }) by {
                if i > 0 {
                    assert(after[i] == entries[i - 1]);
                }
            }
        } else {
            put_increasing(rest, name, value);
            let tail = put(rest, name, value);
            text_lt_total(name, entries[0].0);
            assert forall|i: int| 0 <= i < tail.len() implies text_lt(
                entries[0].0,
                (#[trigger] tail[i]).0,
            ) by {
                if tail[i].0 != name {
                    let j = choose|j: int|
                        0 <= j < rest.len() && (#[trigger] rest[j]).0 == tail[i].0;
                    assert(entries[j + 1] == rest[j]);
                }
            }
            assert forall|a: int, b: int| #![trigger after[a], after[b]]
                0 <= a < b < after.len() implies text_lt(after[a].0, after[b].0) by {
                assert(after[b] == tail[b - 1]);
                if a > 0 {
                    assert(after[a] == tail[a - 1]);
                }
            }
            assert forall|i: int| 0 <= i < after.len() implies ({
                ||| (#[trigger] after[i]).0 == name
                ||| exists|j: int| 0 <= j < entries.len() && (#[trigger] entries[j]).0 == after[i].0
            }) by {
                if i > 0 {
                    assert(after[i] == tail[i - 1]);
                    if tail[i - 1].0 != name {
                        let j = choose|j: int|
                            0 <= j < rest.len() && (#[trigger] rest[j]).0 == tail[i - 1].0;
                        assert(entries[j + 1].0 == after[i].0);
                    }
                } else {
                    assert(after[0] == entries[0]);
                }
            }
        }
    }
}

/// The position at which `put` acts.
proof fn put_at<V>(entries: Seq<(Seq<char>, V)>, name: Seq<char>, value: V, i: int)
    requires
        0 <= i <= entries.len(),
        forall|j: int| 0 <= j < i ==> text_lt((#[trigger] entries[j]).0, name),
        i < entries.len() ==> !text_lt(entries[i].0, name),
    ensures
        put(entries, name, value) == if i < entries.len() && entries[i].0 == name {
            entries.update(i, (name, value))
        } else {
            entries.insert(i, (name, value))
        },
    decreases i,
{
    if i == 0 {
        if entries.len() > 0 {
            text_lt_total(entries[0].0, name);
            if entries[0].0 == name {
                assert(seq![(name, value)] + entries.drop_first() == entries.update(
                    0,
                    (name, value),
                ));
            } else {
                assert(seq![(name, value)] + entries == entries.insert(0, (name, value)));
            }
        } else {
            assert(seq![(name, value)] == entries.insert(0, (name, value)));
        }
    } else {
        let rest = entries.drop_first();
        assert forall|j: int| 0 <= j < i - 1 implies text_lt((#[trigger] rest[j]).0, name) by {
            assert(rest[j] == entries[j + 1]);
        }
        put_at(rest, name, value, i - 1);
        text_lt_total(entries[0].0, name);
        if i < entries.len() && entries[i].0 == name {
            assert(seq![entries[0]] + rest.update(i - 1, (name, value)) == entries.update(
                i,
                (name, value),
            ));
        } else {
            assert(seq![entries[0]] + rest.insert(i - 1, (name, value)) == entries.insert(
                i,
                (name, value),
            ));
        }
    }
}

/// Binding a name that is greater than all others puts it last.
pub proof fn put_last<V>(entries: Seq<(Seq<char>, V)>, name: Seq<char>, value: V)
    requires
        forall|j: int| 0 <= j < entries.len() ==> text_lt((#[trigger] entries[j]).0, name),
    ensures
        put(entries, name, value) == entries.push((name, value)),
{
    put_at(entries, name, value, entries.len() as int);
    assert(entries.insert(entries.len() as int, (name, value)) == entries.push((name, value)));
}

/// The entries without the one of a name.
pub open spec fn taken_out<V>(entries: Seq<(Seq<char>, V)>, name: Seq<char>) -> Seq<(Seq<char>, V)>
    decreases entries.len(),
{
    if entries.len() == 0 {
        Seq::empty()
    } else if entries[0].0 == name {
        entries.drop_first()
    } else {
        seq![entries[0]] + taken_out(entries.drop_first(), name)
    }
}

proof fn taken_out_at<V>(entries: Seq<(Seq<char>, V)>, name: Seq<char>, n: int)
    requires
        0 <= n <= entries.len(),
        forall|j: int| 0 <= j < n ==> (#[trigger] entries[j]).0 != name,
        n < entries.len() ==> entries[n].0 == name,
    ensures
        n < entries.len() ==> taken_out(entries, name) == entries.remove(n),
        n == entries.len() ==> taken_out(entries, name) == entries,
    decreases n,
{
    if n > 0 {
        let rest = entries.drop_first();
        assert forall|j: int| 0 <= j < n - 1 implies (#[trigger] rest[j]).0 != name by {
            assert(rest[j] == entries[j + 1]);
        }
        assert(entries[0].0 != name);
        taken_out_at(rest, name, n - 1);
        if n < entries.len() {
            assert(seq![entries[0]] + rest.remove(n - 1) =~= entries.remove(n));
        } else {
            assert(seq![entries[0]] + rest =~= entries);
        }
    } else if entries.len() > 0 {
        assert(entries.drop_first() =~= entries.remove(0));
    } else {
        assert(taken_out(entries, name) =~= entries);
    }
}

/// Taking an entry out keeps the order.
pub proof fn taken_out_increasing<V>(entries: Seq<(Seq<char>, V)>, name: Seq<char>)
    requires
        increasing(entries),
    ensures
        increasing(taken_out(entries, name)),
        forall|j: int|
            0 <= j < taken_out(entries, name).len() ==> exists|k: int|
                0 <= k < entries.len() && #[trigger] entries[k] == #[trigger] taken_out(
                    entries,
                    name,
                )[j],
    decreases entries.len(),
{
    if entries.len() > 0 {
        let rest = entries.drop_first();
        let after = taken_out(entries, name);
        assert forall|i: int, j: int|
            #![trigger rest[i], rest[j]]
            0 <= i < j < rest.len() implies text_lt(rest[i].0, rest[j].0) by {
            assert(rest[i] == entries[i + 1] && rest[j] == entries[j + 1]);
        }
        taken_out_increasing(rest, name);
        if entries[0].0 == name {
            assert forall|j: int| 0 <= j < after.len() implies exists|k: int|
                0 <= k < entries.len() && #[trigger] entries[k] == #[trigger] after[j] by {
                assert(entries[j + 1] == after[j]);
            }
        } else {
            let inner = taken_out(rest, name);
            assert forall|j: int| 0 <= j < after.len() implies exists|k: int|
                0 <= k < entries.len() && #[trigger] entries[k] == #[trigger] after[j] by {
                if j > 0 {
                    assert(after[j] == inner[j - 1]);
                    let k = choose|k: int|
                        0 <= k < rest.len() && #[trigger] rest[k] == inner[j - 1];
                    assert(rest[k] == entries[k + 1]);
                } else {
                    assert(after[0] == entries[0]);
                }
            }
            assert forall|i: int, j: int|
                #![trigger after[i], after[j]]
                0 <= i < j < after.len() implies text_lt(after[i].0, after[j].0) by {
                assert(after[j] == inner[j - 1]);
                if i > 0 {
                    assert(after[i] == inner[i - 1]);
                } else {
                    let k = choose|k: int|
                        0 <= k < rest.len() && #[trigger] rest[k] == inner[j - 1];
                    assert(rest[k] == entries[k + 1]);
                    assert(after[0] == entries[0]);
                }
            }
        }
    }
}

/// What was taken out is not found, and no other name is touched.
pub proof fn taken_out_then_lookup<V>(
    entries: Seq<(Seq<char>, V)>,
    name: Seq<char>,
    other: Seq<char>,
)
    requires
        increasing(entries),
    ensures
        lookup(taken_out(entries, name), other) == if other == name {
            None
        } else {
            lookup(entries, other)
        },
    decreases entries.len(),
{
    if entries.len() > 0 {
        let rest = entries.drop_first();
        let after = taken_out(entries, name);
        assert forall|i: int, j: int|
            #![trigger rest[i], rest[j]]
            0 <= i < j < rest.len() implies text_lt(rest[i].0, rest[j].0) by {
            assert(rest[i] == entries[i + 1] && rest[j] == entries[j + 1]);
        }
        taken_out_then_lookup(rest, name, other);
        if entries[0].0 == name {
            lookup_finds(rest, name);
            if lookup(rest, name) is Some {
                let v = lookup(rest, name)->0;
                let i = choose|i: int| 0 <= i < rest.len() && #[trigger] rest[i] == (name, v);
                assert(rest[i] == entries[i + 1]);
                assert(text_lt(entries[0].0, entries[i + 1].0));
                crate::text::text_lt_total(name, name);
            }
        } else {
            assert(after.drop_first() =~= taken_out(rest, name));
        }
    }
}

impl<V> View for Fields<V> {
    type V = Seq<(Seq<char>, V)>;

    open(crate) spec fn view(&self) -> Seq<(Seq<char>, V)> {
        self.entries@.map_values(|e: (String, V)| (e.0@, e.1))
    }
}

impl<V> Fields<V> {
    #[verifier::type_invariant]
    pub(crate) open spec fn ordered(self) -> bool {
        increasing(self@)
    }

    pub fn new() -> (r: Self)
        ensures
            r@ == Seq::<(Seq<char>, V)>::empty(),
    {
        let entries: Vec<(String, V)> = Vec::new();
        assert(entries@.map_values(|e: (String, V)| (e.0@, e.1)) == Seq::<
            (Seq<char>, V),
        >::empty());
        Fields { entries }
    }

    pub fn len(&self) -> (r: usize)
        ensures
            r == self@.len(),
            increasing(self@),
    {
        proof {
            use_type_invariant(self);
        }
        self.entries.len()
    }

    pub fn is_empty(&self) -> (r: bool)
        ensures
            r == (self@.len() == 0),
    {
        self.entries.len() == 0
    }

    /// The name at position `i`, in order.
    pub fn name_at(&self, i: usize) -> (r: &String)
        requires
            i < self@.len(),
        ensures
            r@ == self@[i as int].0,
    {
        &self.entries[i].0
    }

    /// The value at position `i`, in order of the names.
    pub fn value_at(&self, i: usize) -> (r: &V)
        requires
            i < self@.len(),
        ensures
            *r == self@[i as int].1,
    {
        &self.entries[i].1
    }

    pub fn get(&self, name: &str) -> (r: Option<&V>)
        ensures
            match r {
                Some(v) => lookup(self@, name@) == Some(*v),
                None => lookup(self@, name@) is None,
            },
    {
        let mut i: usize = 0;
        assert(self@.skip(0) == self@);
        while i < self.entries.len()
            invariant
                i <= self.entries@.len(),
                lookup(self@, name@) == lookup(self@.skip(i as int), name@),
            decreases self.entries@.len() - i,
        {
            assert(self@.skip(i as int)[0] == self@[i as int]);
            if same(self.entries[i].0.as_str(), name) {
                return Some(&self.entries[i].1);
            }
            assert(self@.skip(i as int).drop_first() == self@.skip(i + 1));
            i += 1;
        }
        None
    }

    /// Binds `name` to `value`, replacing an earlier value.
    pub fn insert(&mut self, name: String, value: V)
        ensures
            final(self)@ == put(old(self)@, name@, value),
    {
        proof {
            use_type_invariant(&*self);
        }
        let ghost before = self@;
        let ghost key = name@;
        let mut entries: Vec<(String, V)> = Vec::new();
        proof {
            assert(entries@.map_values(|e: (String, V)| (e.0@, e.1)) == Seq::<
                (Seq<char>, V),
            >::empty());
        }
        std::mem::swap(&mut entries, &mut self.entries);
        let mut i: usize = 0;
        while i < entries.len() && comes_before(entries[i].0.as_str(), name.as_str())
            invariant
                i <= entries@.len(),
                before == entries@.map_values(|e: (String, V)| (e.0@, e.1)),
                key == name@,
                forall|j: int| 0 <= j < i ==> text_lt((#[trigger] before[j]).0, key),
            decreases entries@.len() - i,
        {
            assert(before[i as int].0 == entries@[i as int].0@);
            i += 1;
        }
        proof {
            put_at(before, key, value, i as int);
            put_increasing(before, key, value);
        }
        let ghost old_entries = entries@;
        if i < entries.len() && same(entries[i].0.as_str(), name.as_str()) {
            entries.set(i, (name, value));
            assert(entries@.map_values(|e: (String, V)| (e.0@, e.1)) == before.update(
                i as int,
                (key, value),
            ));
        } else {
            entries.insert(i, (name, value));
            assert(entries@.map_values(|e: (String, V)| (e.0@, e.1)) == before.insert(
                i as int,
                (key, value),
            ));
        }
        self.entries = entries;
    }

    /// Takes the entry of a name out, if there is one.
    pub fn remove(&mut self, name: &str)
        ensures
            final(self)@ == taken_out(old(self)@, name@),
    {
        proof {
            use_type_invariant(&*self);
        }
        let ghost before = self@;
        let mut entries: Vec<(String, V)> = Vec::new();
        proof {
            assert(entries@.map_values(|e: (String, V)| (e.0@, e.1)) == Seq::<
                (Seq<char>, V),
            >::empty());
        }
        std::mem::swap(&mut entries, &mut self.entries);
        let mut i: usize = 0;
        while i < entries.len() && !same(entries[i].0.as_str(), name)
            invariant
                i <= entries@.len(),
                before == entries@.map_values(|e: (String, V)| (e.0@, e.1)),
                forall|j: int| 0 <= j < i ==> (#[trigger] before[j]).0 != name@,
            decreases entries@.len() - i,
        {
            assert(before[i as int].0 == entries@[i as int].0@);
            i += 1;
        }
        proof {
            if i < entries@.len() {
                assert(before[i as int].0 == entries@[i as int].0@);
            }
            taken_out_at(before, name@, i as int);
        }
        if i < entries.len() {
            let ghost held = entries@;
            entries.remove(i);
            proof {
                let after = before.remove(i as int);
                assert(entries@.map_values(|e: (String, V)| (e.0@, e.1)) =~= after);
                assert forall|a: int, b: int|
                    #![trigger after[a], after[b]]
                    0 <= a < b < after.len() implies text_lt(after[a].0, after[b].0) by {
                    let x = if a < i {
                        a
                    } else {
                        a + 1
                    };
                    let y = if b < i {
                        b
                    } else {
                        b + 1
                    };
                    assert(after[a] == before[x] && after[b] == before[y]);
                }
            }
        }
        self.entries = entries;
    }
}

} // verus!
