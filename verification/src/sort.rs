//! Texts in order.

use crate::text::{comes_before, text_lt, text_lt_total, text_lt_transitive, texts};
use vstd::prelude::*;

verus! {

broadcast use vstd::string::group_string_axioms;

/// A list with one more word, which stands behind all that it does not come
/// before.
pub open spec fn inserted(list: Seq<Seq<char>>, word: Seq<char>) -> Seq<Seq<char>>
    decreases list.len(),
{
    if list.len() > 0 && text_lt(word, list.last()) {
        inserted(list.drop_last(), word).push(list.last())
    } else {
        list.push(word)
    }
}

/// The words in order.
pub open spec fn sorted(list: Seq<Seq<char>>) -> Seq<Seq<char>>
    decreases list.len(),
{
    if list.len() == 0 {
        Seq::empty()
    } else {
        inserted(sorted(list.drop_last()), list.last())
    }
}

/// Where a word goes.
proof fn inserted_at(list: Seq<Seq<char>>, word: Seq<char>, at: int)
    requires
        0 <= at <= list.len(),
        forall|i: int| at <= i < list.len() ==> text_lt(word, #[trigger] list[i]),
        at > 0 ==> !text_lt(word, list[at - 1]),
    ensures
        inserted(list, word) == list.insert(at, word),
    decreases list.len(),
{
    if at < list.len() {
        inserted_at(list.drop_last(), word, at);
        assert(list.insert(at, word) =~= list.drop_last().insert(at, word).push(list.last()));
    } else {
        assert(list.insert(at, word) =~= list.push(word));
    }
}

/// Puts the words in order.
pub fn sort_texts(list: Vec<String>) -> (r: Vec<String>)
    ensures
        texts(r@) == sorted(texts(list@)),
{
    let ghost all = texts(list@);
    let mut out: Vec<String> = Vec::new();
    let mut i: usize = 0;
    assert(texts(out@) =~= sorted(all.take(0)));
    while i < list.len()
        invariant
            i <= list@.len(),
            all == texts(list@),
            texts(out@) == sorted(all.take(i as int)),
        decreases list@.len() - i,
    {
        let word: String = list[i].clone();
        let mut at: usize = out.len();
        while at > 0 && comes_before(word.as_str(), out[at - 1].as_str())
            invariant
                at <= out@.len(),
                forall|j: int| at <= j < out@.len() ==> text_lt(word@, (#[trigger] out@[j])@),
            decreases at,
        {
            at -= 1;
        }
        let ghost before = out@;
        proof {
            assert forall|j: int| at <= j < texts(before).len() implies text_lt(
                word@,
                #[trigger] texts(before)[j],
            ) by {
                assert(texts(before)[j] == before[j]@);
            }
            inserted_at(texts(before), word@, at as int);
            assert(all.take(i + 1).drop_last() == all.take(i as int));
            assert(all.take(i + 1).last() == word@);
        }
        out.insert(at, word);
        assert(texts(out@) =~= texts(before).insert(at as int, word@));
        i += 1;
    }
    assert(all.take(i as int) == all);
    out
}

// ---- laws ---------------------------------------------------------------

/// Whether no word comes before an earlier one.
pub open spec fn in_order(list: Seq<Seq<char>>) -> bool {
    forall|i: int, j: int|
        #![trigger list[i], list[j]]
        0 <= i < j < list.len() ==> !text_lt(list[j], list[i])
}

proof fn inserted_law(list: Seq<Seq<char>>, word: Seq<char>)
    requires
        in_order(list),
    ensures
        in_order(inserted(list, word)),
        inserted(list, word).to_multiset() == list.to_multiset().insert(word),
        forall|v: Seq<char>|
            (forall|i: int| 0 <= i < list.len() ==> !text_lt(v, #[trigger] list[i])) && !text_lt(
                v,
                word,
            ) ==> forall|i: int|
                0 <= i < inserted(list, word).len() ==> !text_lt(
                    v,
                    #[trigger] inserted(list, word)[i],
                ),
    decreases list.len(),
{
    broadcast use vstd::seq_lib::group_to_multiset_ensures;

    let after = inserted(list, word);
    if list.len() > 0 && text_lt(word, list.last()) {
        let init = list.drop_last();
        let last = list.last();
        assert(in_order(init)) by {
            assert forall|i: int, j: int|
                #![trigger init[i], init[j]]
                0 <= i < j < init.len() implies !text_lt(init[j], init[i]) by {
                assert(!text_lt(list[j], list[i]));
            }
        }
        inserted_law(init, word);
        let inner = inserted(init, word);
        assert(list =~= init.push(last));
        assert(after == inner.push(last));
        // The last word still comes before none.
        assert forall|i: int| 0 <= i < init.len() implies !text_lt(last, #[trigger] init[i]) by {
            assert(!text_lt(list[list.len() - 1], list[i]));
        }
        text_lt_total(word, last);
        assert(!text_lt(last, word));
        assert forall|i: int, j: int|
            #![trigger after[i], after[j]]
            0 <= i < j < after.len() implies !text_lt(after[j], after[i]) by {
            if j < inner.len() {
                assert(!text_lt(inner[j], inner[i]));
            } else {
                assert(!text_lt(last, inner[i]));
            }
        }
        assert forall|v: Seq<char>|
            (forall|i: int| 0 <= i < list.len() ==> !text_lt(v, #[trigger] list[i])) && !text_lt(
                v,
                word,
            ) implies forall|i: int|
            0 <= i < after.len() ==> !text_lt(v, #[trigger] after[i]) by {
            assert forall|i: int| 0 <= i < init.len() implies !text_lt(v, #[trigger] init[i]) by {
                assert(!text_lt(v, list[i]));
            }
            assert(!text_lt(v, list[list.len() - 1]));
        }
    } else {
        assert(after == list.push(word));
        assert forall|i: int, j: int|
            #![trigger after[i], after[j]]
            0 <= i < j < after.len() implies !text_lt(after[j], after[i]) by {
            if j < list.len() {
                assert(!text_lt(list[j], list[i]));
            } else {
                not_before_earlier(list, word, i);
            }
        }
        assert forall|v: Seq<char>|
            (forall|i: int| 0 <= i < list.len() ==> !text_lt(v, #[trigger] list[i])) && !text_lt(
                v,
                word,
            ) implies forall|i: int|
            0 <= i < after.len() ==> !text_lt(v, #[trigger] after[i]) by {
            assert forall|i: int| 0 <= i < after.len() implies !text_lt(v, #[trigger] after[i]) by {
                if i < list.len() {
                    assert(!text_lt(v, list[i]));
                }
            }
        }
    }
}

/// A word that does not come before the last one comes before none.
proof fn not_before_earlier(list: Seq<Seq<char>>, word: Seq<char>, i: int)
    requires
        in_order(list),
        0 <= i < list.len(),
        !text_lt(word, list.last()),
    ensures
        !text_lt(word, list[i]),
{
    let last = list.last();
    if i < list.len() - 1 {
        assert(!text_lt(list[list.len() - 1], list[i]));
        text_lt_total(word, last);
        text_lt_total(last, list[i]);
        if text_lt(word, list[i]) {
            // Then `list[i]` comes before the last word or is the same, and
            // so does `word`.
            if list[i] == last {
            } else {
                text_lt_transitive(word, list[i], last);
            }
        }
    }
}

/// Sorting puts the words in order and changes nothing else.
pub proof fn sorting_orders(list: Seq<Seq<char>>)
    ensures
        in_order(sorted(list)),
        sorted(list).to_multiset() == list.to_multiset(),
    decreases list.len(),
{
    broadcast use vstd::seq_lib::group_to_multiset_ensures;

    if list.len() > 0 {
        sorting_orders(list.drop_last());
        inserted_law(sorted(list.drop_last()), list.last());
        assert(list =~= list.drop_last().push(list.last()));
    } else {
        assert(list =~= Seq::<Seq<char>>::empty());
    }
}

} // verus!
