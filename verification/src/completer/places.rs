//! What suggestions do to the line: they stand where their own beginning was
//! typed, and none of what was typed is lost.

use crate::completer::tables::{meta_commands, nullary_names};
use crate::completer::{
    answered, arg_offers, arg_suggestions, beginning_with, called, completion, first_arg, gap_end,
    last_arg, last_dot, last_token, member_suggestions, meta_suggestions, name_suggestions,
    offered, row_offers, string_arg, string_calls, tab_ids, token_part, unclosed, CompletionModel,
    Offer, Sources, SuggestionModel,
};
use crate::sort::{sorted, sorting_orders};
use crate::text::{
    before_byte, begins, byte_len, byte_len_concat, characters_end_where_they_are_cut,
    ends_character, rfind, rfind_bounds, spelled_at, trim_start, trim_start_cuts,
};
use vstd::prelude::*;

verus! {

/// Whether a suggestion goes on with a text: it ends where the text does, begins
/// between two characters of it, and the text with the suggestion in its place
/// begins with the text as it was.
pub open spec fn goes_on(prefix: Seq<char>, suggestion: SuggestionModel) -> bool {
    &&& suggestion.end == byte_len(prefix)
    &&& 0 <= suggestion.start <= suggestion.end
    &&& ends_character(prefix, suggestion.start)
    &&& begins(before_byte(prefix, suggestion.start) + suggestion.value, prefix)
}

// ---- laws ---------------------------------------------------------------

/// Whatever is suggested, and whatever Lua tells, a suggestion takes the place of
/// nothing but the beginning of its own value that stands before the cursor:
/// nothing that was typed is lost.
pub proof fn completing_only_adds(
    prefix: Seq<char>,
    from: Sources,
    members: Seq<Seq<char>>,
    known: Seq<bool>,
    i: int,
)
    requires
        0 <= i < answered(completion(prefix, from), members, known).len(),
    ensures
        goes_on(prefix, answered(completion(prefix, from), members, known)[i]),
{
    let plan = completion(prefix, from);
    let token = last_token(prefix);
    let end = byte_len(prefix);
    tokens_end_the_text(prefix);
    let head = prefix.take(prefix.len() - token.len());
    match arg_suggestions(prefix, from) {
        Some(list) => {
            let arg = string_arg(prefix)->Some_0;
            arguments_stand_inside(prefix, string_calls().len() as int);
            let inside = prefix.skip(arg.start);
            let start = if arg.unquoted {
                end
            } else {
                end - byte_len(inside)
            };
            offers_go_on(
                prefix,
                prefix.take(arg.start),
                inside,
                arg_offers(arg.kind, from),
                arg.unquoted,
                i,
            );
        },
        None => match meta_suggestions(prefix, from) {
            Some(list) => {
                let line = trim_start(prefix);
                trim_start_cuts(prefix);
                let command = if begins(line, ":focus"@) {
                    ":focus"@
                } else {
                    ":attach"@
                };
                let behind = line.skip(command.len() as int);
                trim_start_cuts(behind);
                let after = trim_start(behind);
                let offers = if begins(line, ":focus"@) {
                    crate::completer::described(tab_ids(from.tabs), "adapter id"@)
                } else {
                    crate::completer::attach_offers(
                        from.adapters,
                        tab_ids(from.tabs),
                        Seq::empty(),
                    )
                };
                let before = prefix.take(prefix.len() - after.len());
                assert(prefix =~= before + after) by {
                    assert(behind == prefix.skip(prefix.len() - behind.len()));
                    assert(after =~= prefix.skip(prefix.len() - after.len()));
                }
                offers_go_on(prefix, before, after, offers, false, i);
            },
            None => if token.len() > 0 && token[0] == ':' {
                offers_go_on(prefix, head, token, row_offers(meta_commands()), false, i);
            } else {
                match last_dot(token) {
                    Some(dot) => {
                        dots_stand_in_tokens(token, dot);
                        let rest = token.skip(dot + 1);
                        let before = head + token.take(dot + 1);
                        assert(prefix =~= before + rest);
                        byte_len_concat(before, rest);
                        members_go_on(token.take(dot), rest, sorted(members), byte_len(before), end, i);
                        values_go_on(
                            prefix,
                            before,
                            rest,
                            answered(plan, members, known)[i],
                        );
                    },
                    None => {
                        let names = sorted(beginning_with(from.globals, token));
                        names_go_on(from.globals, token);
                        byte_len_concat(head, token);
                        known_names_go_on(names, known, token, byte_len(head), end, i);
                        values_go_on(prefix, head, token, answered(plan, members, known)[i]);
                    },
                }
            },
        },
    }
}

proof fn values_go_on(
    prefix: Seq<char>,
    head: Seq<char>,
    typed: Seq<char>,
    suggestion: SuggestionModel,
)
    requires
        prefix == head + typed,
        begins(suggestion.value, typed),
        suggestion.start == byte_len(head),
        suggestion.end == byte_len(prefix),
    ensures
        goes_on(prefix, suggestion),
{
    characters_end_where_they_are_cut(prefix, head.len() as int);
    assert(prefix.take(head.len() as int) =~= head);
    byte_len_concat(head, typed);
    let made = head + suggestion.value;
    assert(made.take(prefix.len() as int) =~= head + suggestion.value.take(typed.len() as int));
}

proof fn offers_go_on(
    prefix: Seq<char>,
    head: Seq<char>,
    typed: Seq<char>,
    offers: Seq<Offer>,
    quoted: bool,
    i: int,
)
    requires
        prefix =~= head + typed,
        ({
            let end = byte_len(prefix);
            let start = if quoted {
                end
            } else {
                end - byte_len(typed)
            };
            0 <= i < offered(offers, typed, quoted, start, end).len()
        }),
    ensures
        ({
            let end = byte_len(prefix);
            let start = if quoted {
                end
            } else {
                end - byte_len(typed)
            };
            goes_on(prefix, offered(offers, typed, quoted, start, end)[i])
        }),
    decreases offers.len(),
{
    let end = byte_len(prefix);
    let start = if quoted {
        end
    } else {
        end - byte_len(typed)
    };
    let before = offered(offers.drop_last(), typed, quoted, start, end);
    let list = offered(offers, typed, quoted, start, end);
    if i < before.len() {
        offers_go_on(prefix, head, typed, offers.drop_last(), quoted, i);
        assert(list[i] == before[i]);
    } else if quoted {
        let none = Seq::<char>::empty();
        assert(prefix =~= prefix + none);
        assert(list[i].value.take(0) =~= none);
        values_go_on(prefix, prefix, none, list[i]);
    } else {
        byte_len_concat(head, typed);
        values_go_on(prefix, head, typed, list[i]);
    }
}

proof fn tokens_end_the_text(s: Seq<char>)
    ensures
        last_token(s).len() <= s.len(),
        s == s.take(s.len() - last_token(s).len()) + last_token(s),
    decreases s.len(),
{
    if s.len() > 0 && token_part(s.last()) {
        let init = s.drop_last();
        tokens_end_the_text(init);
        let inner = last_token(init);
        let n = init.len() - inner.len();
        assert(last_token(s) == inner.push(s.last()));
        assert(init.take(n) =~= s.take(n));
        assert(s =~= (init.take(n) + inner).push(s.last()));
        assert((init.take(n) + inner).push(s.last()) =~= init.take(n) + inner.push(s.last()));
    } else {
        assert(s =~= s.take(s.len() as int) + last_token(s));
    }
}

/// Where a token is cut there is a dot, and none behind it.
proof fn dots_stand_in_tokens(token: Seq<char>, dot: int)
    requires
        last_dot(token) == Some(dot),
    ensures
        0 <= dot < token.len(),
        token[dot] == '.',
        forall|k: int| dot < k < token.len() ==> token[k] != '.',
{
    reveal_strlit(".");
    rfind_bounds(token, "."@, token.len() as int);
    assert(token.subrange(dot, dot + 1)[0] == '.');
    assert forall|k: int| dot < k < token.len() implies token[k] != '.' by {
        if token[k] == '.' {
            assert(token.subrange(k, k + 1) =~= "."@);
            assert(spelled_at(token, k, "."@));
        }
    }
}

proof fn members_go_on(
    head: Seq<char>,
    rest: Seq<char>,
    members: Seq<Seq<char>>,
    start: int,
    end: int,
    i: int,
)
    requires
        0 <= i < member_suggestions(head, rest, members, start, end).len(),
    ensures
        ({
            let made = member_suggestions(head, rest, members, start, end)[i];
            begins(made.value, rest) && made.start == start && made.end == end
        }),
    decreases members.len(),
{
    let before = member_suggestions(head, rest, members.drop_last(), start, end);
    if i < before.len() {
        members_go_on(head, rest, members.drop_last(), start, end, i);
    } else {
        let name = members.last();
        assert((name + "()"@).take(rest.len() as int) =~= name.take(rest.len() as int));
    }
}

proof fn names_go_on(globals: Seq<Seq<char>>, token: Seq<char>)
    ensures
        forall|k: int|
            0 <= k < sorted(beginning_with(globals, token)).len() ==> begins(
                #[trigger] sorted(beginning_with(globals, token))[k],
                token,
            ),
{
    broadcast use vstd::seq_lib::group_to_multiset_ensures;

    let all = beginning_with(globals, token);
    let names = sorted(all);
    sorting_orders(all);
    beginnings_are_kept(globals, token);
    assert forall|k: int| 0 <= k < names.len() implies begins(#[trigger] names[k], token) by {
        assert(names.contains(names[k]));
        assert(names.to_multiset().count(names[k]) > 0);
        assert(all.contains(names[k]));
    }
}

proof fn beginnings_are_kept(names: Seq<Seq<char>>, typed: Seq<char>)
    ensures
        forall|name: Seq<char>| #[trigger]
            beginning_with(names, typed).contains(name) <==> names.contains(name) && begins(
                name,
                typed,
            ),
    decreases names.len(),
{
    let all = beginning_with(names, typed);
    if names.len() > 0 {
        let init = names.drop_last();
        let before = beginning_with(init, typed);
        beginnings_are_kept(init, typed);
        assert forall|name: Seq<char>| #[trigger] all.contains(name) <==> names.contains(name)
            && begins(name, typed) by {
            assert(names =~= init.push(names.last()));
            if all.contains(name) {
                let k = all.index_of(name);
                if k < before.len() {
                    assert(before[k] == name);
                    assert(before.contains(name));
                    let j = init.index_of(name);
                    assert(names[j] == name);
                } else {
                    assert(names[names.len() - 1] == name);
                }
            }
            if names.contains(name) && begins(name, typed) {
                let j = names.index_of(name);
                if j < init.len() {
                    assert(init[j] == name);
                    assert(init.contains(name));
                    assert(before.contains(name));
                    let k = before.index_of(name);
                    assert(all[k] == name);
                } else {
                    assert(all[all.len() - 1] == name);
                }
            }
        }
    }
}

proof fn known_names_go_on(
    names: Seq<Seq<char>>,
    known: Seq<bool>,
    token: Seq<char>,
    start: int,
    end: int,
    i: int,
)
    requires
        forall|k: int| 0 <= k < names.len() ==> begins(#[trigger] names[k], token),
        0 <= i < name_suggestions(names, known, start, end).len(),
    ensures
        ({
            let made = name_suggestions(names, known, start, end)[i];
            begins(made.value, token) && made.start == start && made.end == end
        }),
    decreases names.len(),
{
    let init = names.drop_last();
    let before = name_suggestions(init, known, start, end);
    assert forall|k: int| 0 <= k < init.len() implies begins(#[trigger] init[k], token) by {
        assert(begins(names[k], token));
    }
    if i < before.len() {
        known_names_go_on(init, known, token, start, end, i);
    } else {
        let name = names.last();
        assert(begins(names[names.len() - 1], token));
        assert((name + "()"@).take(token.len() as int) =~= name.take(token.len() as int));
    }
}

proof fn gaps_end_inside(s: Seq<char>, i: int)
    requires
        0 <= i <= s.len(),
    ensures
        i <= gap_end(s, i) <= s.len(),
    decreases s.len() - i,
{
    if i < s.len() && (s[i] == ' ' || s[i] == '\t') {
        gaps_end_inside(s, i + 1);
    }
}

proof fn arguments_stand_inside(s: Seq<char>, n: int)
    requires
        0 <= n <= string_calls().len(),
    ensures
        last_arg(s, n) matches Some(arg) ==> 0 <= arg.start <= s.len(),
    decreases n,
{
    if n > 0 {
        arguments_stand_inside(s, n - 1);
        let (name, kind) = string_calls()[n - 1];
        rfind_bounds(s, name, s.len() as int);
        if let Some(at) = rfind(s, name) {
            let behind = s.skip(at + name.len());
            gaps_end_inside(behind, 0);
            let i = gap_end(behind, 0);
            if i < behind.len() {
                gaps_end_inside(behind, i + 1);
            }
        }
    }
}

/// A member of a table is completed behind the dot: its place begins right behind
/// the last dot of what is typed and ends at the cursor, the name of the table and
/// the dot stand before it, and what Lua is asked for is that table.
pub proof fn members_are_completed_behind_the_dot(prefix: Seq<char>, from: Sources)
    ensures
        completion(prefix, from) matches CompletionModel::Members { head, rest, start, end } ==> {
            &&& !rest.contains('.')
            &&& end == byte_len(prefix)
            &&& ends_character(prefix, start)
            &&& exists|line: Seq<char>|
                prefix == #[trigger] (line + head) + seq!['.'] + rest && start == byte_len(
                    (line + head) + seq!['.'],
                )
        },
{
    let token = last_token(prefix);
    tokens_end_the_text(prefix);
    if let CompletionModel::Members { head, rest, start, end } = completion(prefix, from) {
        let dot = last_dot(token)->Some_0;
        dots_stand_in_tokens(token, dot);
        let line = prefix.take(prefix.len() - token.len());
        let before = (line + head) + seq!['.'];
        assert(prefix =~= before + rest);
        byte_len_concat(before, rest);
        characters_end_where_they_are_cut(prefix, before.len() as int);
        assert(prefix.take(before.len() as int) =~= before);
        assert(prefix == (line + head) + seq!['.'] + rest);
        if rest.contains('.') {
            let k = rest.index_of('.');
            assert(token[dot + 1 + k] == '.');
        }
    }
}

/// Of the members that Lua tells, those are offered that go on with what is typed,
/// and no others; each as it is, or with parentheses where it takes no arguments.
pub proof fn members_are_offered(
    head: Seq<char>,
    rest: Seq<char>,
    members: Seq<Seq<char>>,
    start: int,
    end: int,
    name: Seq<char>,
)
    ensures
        ({
            let list = answered(
                CompletionModel::Members { head, rest, start, end },
                members,
                Seq::empty(),
            );
            &&& members.contains(name) && begins(name, rest) ==> exists|i: int|
                0 <= i < list.len() && (#[trigger] list[i]).value == if nullary_names().contains(
                    head + "."@ + name,
                ) {
                    name + "()"@
                } else {
                    name
                }
            &&& forall|i: int|
                0 <= i < list.len() ==> exists|m: Seq<char>| #[trigger]
                    members.contains(m) && ((#[trigger] list[i]).value == m || list[i].value == m
                        + "()"@)
        }),
{
    broadcast use vstd::seq_lib::group_to_multiset_ensures;

    let all = sorted(members);
    sorting_orders(members);
    listed_members(head, rest, all, start, end, name);
    let list = member_suggestions(head, rest, all, start, end);
    assert(members.to_multiset().count(name) == all.to_multiset().count(name));
    assert forall|i: int| 0 <= i < list.len() implies exists|m: Seq<char>| #[trigger]
        members.contains(m) && ((#[trigger] list[i]).value == m || list[i].value == m + "()"@) by {
        let m = choose|m: Seq<char>|
            #[trigger] all.contains(m) && (list[i].value == m || list[i].value == m + "()"@);
        assert(all.to_multiset().count(m) > 0);
        assert(members.contains(m));
    }
}

proof fn listed_members(
    head: Seq<char>,
    rest: Seq<char>,
    members: Seq<Seq<char>>,
    start: int,
    end: int,
    name: Seq<char>,
)
    ensures
        ({
            let list = member_suggestions(head, rest, members, start, end);
            &&& members.contains(name) && begins(name, rest) ==> exists|i: int|
                0 <= i < list.len() && (#[trigger] list[i]).value == called(
                    name,
                    head + "."@ + name,
                )
            &&& forall|i: int|
                0 <= i < list.len() ==> exists|m: Seq<char>| #[trigger]
                    members.contains(m) && ((#[trigger] list[i]).value == m || list[i].value == m
                        + "()"@)
        }),
    decreases members.len(),
{
    let list = member_suggestions(head, rest, members, start, end);
    if members.len() > 0 {
        let init = members.drop_last();
        let before = member_suggestions(head, rest, init, start, end);
        listed_members(head, rest, init, start, end, name);
        assert(members =~= init.push(members.last()));
        if members.contains(name) && begins(name, rest) {
            if init.contains(name) {
                let i = choose|i: int|
                    0 <= i < before.len() && (#[trigger] before[i]).value == called(
                        name,
                        head + "."@ + name,
                    );
                assert(list[i] == before[i]);
            } else {
                let k = members.index_of(name);
                if k < init.len() {
                    assert(init[k] == name);
                }
                assert(list[list.len() - 1].value == called(name, head + "."@ + name));
            }
        }
        assert forall|i: int| 0 <= i < list.len() implies exists|m: Seq<char>| #[trigger]
            members.contains(m) && ((#[trigger] list[i]).value == m || list[i].value == m
                + "()"@) by {
            if i < before.len() {
                let m = choose|m: Seq<char>|
                    #[trigger] init.contains(m) && (before[i].value == m || before[i].value == m
                        + "()"@);
                let k = init.index_of(m);
                assert(members[k] == m);
                assert(members.contains(m));
            } else {
                assert(members[members.len() - 1] == members.last());
                assert(members.contains(members.last()));
            }
        }
    }
}

/// Every offer that goes on with what is typed is made, and no other; each is
/// described as the offer is.
pub proof fn offers_are_made(
    offers: Seq<Offer>,
    typed: Seq<char>,
    start: int,
    end: int,
    offer: Offer,
)
    ensures
        ({
            let list = offered(offers, typed, false, start, end);
            &&& offers.contains(offer) && begins(offer.0, typed) ==> exists|i: int|
                0 <= i < list.len() && (#[trigger] list[i]).value == offer.0 && list[i].description
                    == offer.1
            &&& forall|i: int|
                0 <= i < list.len() ==> offers.contains(
                    ((#[trigger] list[i]).value, list[i].description),
                )
        }),
    decreases offers.len(),
{
    let list = offered(offers, typed, false, start, end);
    if offers.len() > 0 {
        let init = offers.drop_last();
        let before = offered(init, typed, false, start, end);
        offers_are_made(init, typed, start, end, offer);
        assert(offers =~= init.push(offers.last()));
        if offers.contains(offer) && begins(offer.0, typed) {
            if init.contains(offer) {
                let i = choose|i: int|
                    0 <= i < before.len() && (#[trigger] before[i]).value == offer.0
                        && before[i].description == offer.1;
                assert(list[i] == before[i]);
            } else {
                let k = offers.index_of(offer);
                if k < init.len() {
                    assert(init[k] == offer);
                }
                assert(list[list.len() - 1].value == offer.0);
            }
        }
        assert forall|i: int| 0 <= i < list.len() implies offers.contains(
            ((#[trigger] list[i]).value, list[i].description),
        ) by {
            if i < before.len() {
                let made = (before[i].value, before[i].description);
                assert(init.contains(made));
                let k = init.index_of(made);
                assert(offers[k] == made);
            } else {
                assert(offers[offers.len() - 1] == offers.last());
            }
        }
    }
}

/// The character behind the dot of a call whose argument can be completed.
spec fn behind_the_dot(kind: int) -> char {
    if kind == 0 {
        's'
    } else if kind == 1 {
        'r'
    } else if kind == 2 {
        'd'
    } else if kind == 3 {
        'k'
    } else if kind == 4 {
        'a'
    } else {
        'c'
    }
}

/// Where the dot of such a call stands.
spec fn dot_of(kind: int) -> int {
    if kind == 3 {
        4
    } else {
        7
    }
}

/// Each such call has one dot, and another character behind it.
proof fn calls_have_dots(k: int)
    requires
        0 <= k < 6,
    ensures
        ({
            let name = string_calls()[k].0;
            &&& name.len() > dot_of(k) + 1
            &&& name[dot_of(k)] == '.'
            &&& name[dot_of(k) + 1] == behind_the_dot(k)
            &&& forall|i: int| 0 <= i < name.len() && i != dot_of(k) ==> name[i] != '.'
        }),
{
    reveal_strlit("session.spawn");
    reveal_strlit("session.resume");
    reveal_strlit("plugins.describe");
    reveal_strlit("send.key");
    reveal_strlit("session.attach");
    reveal_strlit("session.close");
    let name = string_calls()[k].0;
    assert forall|i: int| 0 <= i < name.len() && i != dot_of(k) implies name[i] != '.' by {
        assert(name.len() <= 16);
        assert(i == 0 || i == 1 || i == 2 || i == 3 || i == 4 || i == 5 || i == 6 || i == 7 || i
            == 8 || i == 9 || i == 10 || i == 11 || i == 12 || i == 13 || i == 14 || i == 15);
    }
}

/// Whether a text can stand inside a string that is being typed, and names no call.
pub open spec fn is_plain(typed: Seq<char>) -> bool {
    forall|i: int|
        0 <= i < typed.len() ==> (#[trigger] typed[i]) != '.' && typed[i] != '"' && typed[i]
            != '\\'
}

proof fn plain_strings_stay_open(s: Seq<char>, i: int)
    requires
        0 <= i <= s.len(),
        forall|k: int| i <= k < s.len() ==> s[k] != '"' && s[k] != '\\',
    ensures
        unclosed(s, i, '"'),
    decreases s.len() - i,
{
    if i < s.len() {
        plain_strings_stay_open(s, i + 1);
    }
}

proof fn only_the_call_is_found(s: Seq<char>, k: int, typed: Seq<char>, j: int)
    requires
        0 <= k < 6,
        0 <= j < 6,
        is_plain(typed),
        s == string_calls()[k].0 + seq!['(', '"'] + typed,
    ensures
        j != k ==> rfind(s, string_calls()[j].0) is None,
        j == k ==> rfind(s, string_calls()[j].0) == Some(0int),
{
    let name = string_calls()[k].0;
    let other = string_calls()[j].0;
    calls_have_dots(k);
    calls_have_dots(j);
    rfind_bounds(s, other, s.len() as int);
    assert forall|i: int| 0 <= i < s.len() && i != dot_of(k) implies s[i] != '.' by {
        if i < name.len() {
            assert(s[i] == name[i]);
        } else if i >= name.len() + 2 {
            assert(s[i] == typed[i - name.len() - 2]);
        }
    }
    assert(s[dot_of(k) + 1] == name[dot_of(k) + 1]);
    assert forall|p: int| 0 <= p <= s.len() && #[trigger] spelled_at(s, p, other) implies j == k
        && p == 0 by {
        assert(s.subrange(p, p + other.len())[dot_of(j)] == other[dot_of(j)]);
        assert(s.subrange(p, p + other.len())[dot_of(j) + 1] == other[dot_of(j) + 1]);
        assert(s[p + dot_of(j)] == '.');
        assert(p + dot_of(j) == dot_of(k));
        assert(s[p + dot_of(j) + 1] == behind_the_dot(j));
    }
    if j == k {
        assert(s.subrange(0, name.len() as int) =~= name);
        assert(spelled_at(s, 0, other));
    }
}

/// Inside the quotes of the first argument of a call that takes a plugin, a key or an
/// adapter, those are offered that go on with what is typed there: plugins for
/// `session.spawn`, `session.resume` and `plugins.describe`, keys for `send.key`,
/// adapters and `all` for `session.attach`, and tabs for `session.close`. They take
/// the place of what is typed behind the quote.
pub proof fn string_arguments_are_completed(
    k: int,
    typed: Seq<char>,
    from: Sources,
    name: Seq<char>,
)
    requires
        is_plain(typed),
        0 <= k < 6,
        name == seq![
            "session.spawn"@,
            "session.resume"@,
            "plugins.describe"@,
            "send.key"@,
            "session.attach"@,
            "session.close"@,
        ][k],
    ensures
        ({
            let prefix = name + seq!['(', '"'] + typed;
            let offers = if k < 3 {
                from.plugins.map_values(|n: Seq<char>| (n, Some("plugin"@)))
            } else if k == 3 {
                row_offers(crate::completer::tables::key_names())
            } else if k == 4 {
                crate::completer::attach_offers(from.adapters, tab_ids(from.tabs), seq!["all"@])
            } else {
                from.tabs.map_values(
                    |t: crate::ctx::TabModel| (t.id, Some("adapter id"@)),
                )
            };
            completion(prefix, from) == CompletionModel::Ready(
                offered(
                    offers,
                    typed,
                    false,
                    byte_len(name + seq!['(', '"']),
                    byte_len(prefix),
                ),
            )
        }),
{
    let head = name + seq!['(', '"'];
    let s = head + typed;
    assert(string_calls()[k].0 == name);
    only_the_call_is_found(s, k, typed, 0);
    only_the_call_is_found(s, k, typed, 1);
    only_the_call_is_found(s, k, typed, 2);
    only_the_call_is_found(s, k, typed, 3);
    only_the_call_is_found(s, k, typed, 4);
    only_the_call_is_found(s, k, typed, 5);
    let behind = s.skip(name.len() as int);
    assert(behind =~= seq!['(', '"'] + typed);
    assert(gap_end(behind, 0) == 0);
    assert(gap_end(behind, 1) == 1);
    assert forall|i: int| 2 <= i < behind.len() implies behind[i] != '"' && behind[i] != '\\' by {
        assert(behind[i] == typed[i - 2]);
    }
    plain_strings_stay_open(behind, 2);
    assert(first_arg(behind) == Some(
        crate::completer::OpenArg { start: 2, unquoted: false },
    ));
    assert(s.skip(0int + name.len()) =~= behind);
    reveal_with_fuel(last_arg, 7);
    let arg = string_arg(s)->Some_0;
    assert(arg.start == name.len() + 2);
    assert(s.skip(arg.start) =~= typed);
    byte_len_concat(head, typed);
    let kind = string_calls()[k].1;
    if k == 5 {
        assert(arg_offers(kind, from) =~= from.tabs.map_values(
            |t: crate::ctx::TabModel| (t.id, Some("adapter id"@)),
        ));
    } else if k < 3 {
        assert(arg_offers(kind, from) =~= from.plugins.map_values(
            |n: Seq<char>| (n, Some("plugin"@)),
        ));
    }
}

proof fn no_call_without_a_dot(s: Seq<char>)
    requires
        !s.contains('.'),
    ensures
        string_arg(s) is None,
{
    assert forall|j: int| 0 <= j < 6 implies #[trigger] rfind(s, string_calls()[j].0) is None by {
        let name = string_calls()[j].0;
        calls_have_dots(j);
        rfind_bounds(s, name, s.len() as int);
        if let Some(at) = rfind(s, name) {
            assert(s.subrange(at, at + name.len())[dot_of(j)] == '.');
            assert(s[at + dot_of(j)] == '.');
        }
    }
    reveal_with_fuel(last_arg, 7);
    assert(rfind(s, string_calls()[0].0) is None);
    assert(rfind(s, string_calls()[1].0) is None);
    assert(rfind(s, string_calls()[2].0) is None);
    assert(rfind(s, string_calls()[3].0) is None);
    assert(rfind(s, string_calls()[4].0) is None);
    assert(rfind(s, string_calls()[5].0) is None);
}

/// Behind `:focus` the ids of the tabs are offered that go on with what is typed, and
/// behind `:attach` also `all` and the adapters of the server. They take the place of
/// what is typed behind the command.
pub proof fn arguments_of_meta_commands_are_completed(typed: Seq<char>, from: Sources)
    requires
        !typed.contains('.'),
        typed.len() > 0 ==> !crate::text::white_space(typed[0]),
    ensures
        completion(":focus "@ + typed, from) == CompletionModel::Ready(
            offered(
                from.tabs.map_values(|t: crate::ctx::TabModel| (t.id, Some("adapter id"@))),
                typed,
                false,
                byte_len(":focus "@),
                byte_len(":focus "@ + typed),
            ),
        ),
        completion(":attach "@ + typed, from) == CompletionModel::Ready(
            offered(
                crate::completer::attach_offers(
                    from.adapters,
                    tab_ids(from.tabs),
                    Seq::empty(),
                ),
                typed,
                false,
                byte_len(":attach "@),
                byte_len(":attach "@ + typed),
            ),
        ),
{
    reveal_strlit(":focus ");
    reveal_strlit(":attach ");
    reveal_strlit(":focus");
    reveal_strlit(":attach");
    let focus = ":focus "@ + typed;
    let attach = ":attach "@ + typed;
    let tabs = from.tabs.map_values(|t: crate::ctx::TabModel| (t.id, Some("adapter id"@)));
    assert(crate::completer::described(tab_ids(from.tabs), "adapter id"@) =~= tabs);
    byte_len_concat(":focus "@, typed);
    byte_len_concat(":attach "@, typed);
    assert forall|i: int| 0 <= i < focus.len() implies focus[i] != '.' by {
        if i >= 7 {
            assert(focus[i] == typed[i - 7]);
        } else {
            assert(i == 0 || i == 1 || i == 2 || i == 3 || i == 4 || i == 5 || i == 6);
        }
    }
    assert forall|i: int| 0 <= i < attach.len() implies attach[i] != '.' by {
        if i >= 8 {
            assert(attach[i] == typed[i - 8]);
        } else {
            assert(i == 0 || i == 1 || i == 2 || i == 3 || i == 4 || i == 5 || i == 6 || i == 7);
        }
    }
    no_call_without_a_dot(focus);
    no_call_without_a_dot(attach);
    assert(focus[0] == ':');
    assert(attach[0] == ':');
    assert(trim_start(focus) == focus);
    assert(trim_start(attach) == attach);
    assert(focus.take(6) =~= ":focus"@);
    assert(attach.take(7) =~= ":attach"@);
    assert(attach.take(6)[1] == 'a');
    assert(":focus"@[1] == 'f');
    let a = focus.skip(6);
    let b = attach.skip(7);
    assert(a =~= seq![' '] + typed);
    assert(b =~= seq![' '] + typed);
    assert(a.drop_first() =~= typed);
    assert(b.drop_first() =~= typed);
    assert(trim_start(typed) == typed);
    assert(trim_start(a) == typed);
    assert(trim_start(b) == typed);
}

/// A meta command that is being typed is completed to those that go on with it, and
/// takes the place of the whole token.
pub proof fn meta_commands_are_completed(typed: Seq<char>, from: Sources)
    requires
        forall|i: int|
            0 <= i < typed.len() ==> crate::text::ascii_letter(#[trigger] typed[i]),
        seq![':'] + typed != ":focus"@,
        seq![':'] + typed != ":attach"@,
    ensures
        completion(seq![':'] + typed, from) == CompletionModel::Ready(
            offered(
                row_offers(meta_commands()),
                seq![':'] + typed,
                false,
                0,
                byte_len(seq![':'] + typed),
            ),
        ),
{
    let s = seq![':'] + typed;
    assert forall|i: int| 0 <= i < s.len() implies s[i] != '.' && s[i] != ' '
        && token_part(#[trigger] s[i]) by {
        if i > 0 {
            assert(s[i] == typed[i - 1]);
        }
    }
    no_call_without_a_dot(s);
    assert(trim_start(s) == s);
    reveal_strlit(":focus");
    reveal_strlit(":attach");
    if begins(s, ":focus"@) {
        assert(s.len() > 6) by {
            if s.len() == 6 {
                assert(s.take(6) =~= s);
            }
        }
        assert(s.skip(6)[0] == s[6]);
    }
    if begins(s, ":attach"@) {
        assert(s.len() > 7) by {
            if s.len() == 7 {
                assert(s.take(7) =~= s);
            }
        }
        assert(s.skip(7)[0] == s[7]);
    }
    all_is_one_token(s);
}

proof fn all_is_one_token(s: Seq<char>)
    requires
        forall|i: int| 0 <= i < s.len() ==> token_part(#[trigger] s[i]),
    ensures
        last_token(s) == s,
    decreases s.len(),
{
    if s.len() > 0 {
        assert forall|i: int| 0 <= i < s.drop_last().len() implies token_part(
            #[trigger] s.drop_last()[i],
        ) by {
            assert(token_part(s[i]));
        }
        all_is_one_token(s.drop_last());
        assert(token_part(s[s.len() - 1]));
        assert(s.drop_last().push(s.last()) =~= s);
    } else {
        assert(last_token(s) =~= s);
    }
}

/// Of the names that the client adds to Lua, those are asked for that go on with what
/// is typed, and no others; and those are offered that Lua knows.
pub proof fn names_are_offered(
    prefix: Seq<char>,
    from: Sources,
    known: Seq<bool>,
    name: Seq<char>,
)
    ensures
        completion(prefix, from) matches CompletionModel::Names { names, start, end } ==> {
            &&& names.contains(name) <==> from.globals.contains(name) && begins(
                name,
                last_token(prefix),
            )
            &&& crate::sort::in_order(names)
            &&& forall|k: int|
                0 <= k < names.len() && (#[trigger] known[k]) ==> exists|i: int|
                    0 <= i < name_suggestions(names, known, start, end).len() && (
                    #[trigger] name_suggestions(names, known, start, end)[i]).value == called(
                        names[k],
                        names[k],
                    )
        },
{
    broadcast use vstd::seq_lib::group_to_multiset_ensures;

    let token = last_token(prefix);
    if let CompletionModel::Names { names, start, end } = completion(prefix, from) {
        let all = beginning_with(from.globals, token);
        sorting_orders(all);
        beginnings_are_kept(from.globals, token);
        assert(names.to_multiset().count(name) == all.to_multiset().count(name));
        assert(all.contains(name) <==> from.globals.contains(name) && begins(name, token));
        assert forall|k: int| 0 <= k < names.len() && (#[trigger] known[k]) implies exists|i: int|
            0 <= i < name_suggestions(names, known, start, end).len() && (
            #[trigger] name_suggestions(names, known, start, end)[i]).value == called(
                names[k],
                names[k],
            ) by {
            known_names_are_listed(names, known, start, end, k);
        }
    }
}

proof fn known_names_are_listed(
    names: Seq<Seq<char>>,
    known: Seq<bool>,
    start: int,
    end: int,
    k: int,
)
    requires
        0 <= k < names.len(),
        known[k],
    ensures
        exists|i: int|
            0 <= i < name_suggestions(names, known, start, end).len() && (
            #[trigger] name_suggestions(names, known, start, end)[i]).value == called(
                names[k],
                names[k],
            ),
    decreases names.len(),
{
    let list = name_suggestions(names, known, start, end);
    let init = names.drop_last();
    let before = name_suggestions(init, known, start, end);
    if k < init.len() {
        known_names_are_listed(init, known, start, end, k);
        let i = choose|i: int|
            0 <= i < before.len() && (#[trigger] before[i]).value == called(init[k], init[k]);
        assert(list[i] == before[i]);
    } else {
        assert(list[list.len() - 1].value == called(names[k], names[k]));
    }
}

proof fn tokens_end_where_they_do(head: Seq<char>, word: Seq<char>)
    requires
        forall|i: int| 0 <= i < word.len() ==> token_part(#[trigger] word[i]),
        head.len() > 0 ==> !token_part(head.last()),
    ensures
        last_token(head + word) == word,
    decreases word.len(),
{
    let s = head + word;
    if word.len() == 0 {
        assert(s =~= head);
        assert(last_token(s) =~= word);
    } else {
        let init = word.drop_last();
        assert forall|i: int| 0 <= i < init.len() implies token_part(#[trigger] init[i]) by {
            assert(init[i] == word[i]);
        }
        tokens_end_where_they_do(head, init);
        assert(s.drop_last() =~= head + init);
        assert(token_part(word[word.len() - 1]));
        assert(init.push(word.last()) =~= word);
    }
}

/// A word that is being typed is completed as a whole: the names that go on with it, and
/// no others, are asked for, and they take its place, from its first letter up to the
/// cursor. What stands before the word stays.
pub proof fn words_are_completed(
    head: Seq<char>,
    word: Seq<char>,
    from: Sources,
    name: Seq<char>,
)
    requires
        forall|i: int|
            0 <= i < word.len() ==> crate::text::ascii_letter(#[trigger] word[i])
                || crate::text::ascii_digit(word[i]) || word[i] == '_',
        !head.contains('.') && !head.contains(':'),
        head.len() > 0 ==> !(crate::text::ascii_letter(head.last()) || crate::text::ascii_digit(
            head.last(),
        ) || head.last() == '_'),
    ensures
        completion(head + word, from) matches CompletionModel::Names { names, start, end } && {
            &&& start == byte_len(head)
            &&& end == byte_len(head + word)
            &&& names.contains(name) <==> from.globals.contains(name) && begins(name, word)
        },
{
    let s = head + word;
    assert forall|i: int| 0 <= i < s.len() implies s[i] != '.' && s[i] != ':' by {
        if i < head.len() {
            assert(s[i] == head[i]);
            assert(head.contains(head[i]));
        } else {
            assert(s[i] == word[i - head.len()]);
        }
    }
    no_call_without_a_dot(s);
    if head.len() > 0 {
        assert(head.contains(head.last()));
    }
    tokens_end_where_they_do(head, word);
    byte_len_concat(head, word);
    trim_start_cuts(s);
    let line = trim_start(s);
    reveal_strlit(":focus");
    reveal_strlit(":attach");
    if line.len() > 0 {
        assert(line[0] == s[s.len() - line.len()]);
        if begins(line, ":focus"@) {
            assert(line.take(6)[0] == ':');
        }
        if begins(line, ":attach"@) {
            assert(line.take(7)[0] == ':');
        }
    }
    reveal_strlit(".");
    rfind_bounds(word, "."@, word.len() as int);
    if let Some(at) = last_dot(word) {
        assert(word.subrange(at, at + 1)[0] == '.');
    }
    names_are_offered(s, from, Seq::empty(), name);
}

/// Where a call is open and its quote is not typed yet, offers are put in with both
/// quotes, at the cursor, and what was typed stays.
pub proof fn offers_bring_their_quotes(offers: Seq<Offer>, at: int, i: int)
    requires
        0 <= i < offers.len(),
    ensures
        ({
            let list = offered(offers, Seq::empty(), true, at, at);
            &&& list.len() == offers.len()
            &&& list[i].value == seq!['"'] + offers[i].0 + seq!['"']
            &&& list[i].description == offers[i].1
            &&& list[i].start == at && list[i].end == at
        }),
    decreases offers.len(),
{
    reveal_strlit("\"");
    let quote = "\""@;
    assert(quote =~= seq!['"']);
    let init = offers.drop_last();
    let list = offered(offers, Seq::empty(), true, at, at);
    let last = offers.last().0;
    assert(last.take(0) =~= Seq::<char>::empty());
    assert(begins(last, Seq::<char>::empty()));
    if i < init.len() {
        offers_bring_their_quotes(init, at, i);
        assert(init[i] == offers[i]);
    } else if init.len() > 0 {
        offers_bring_their_quotes(init, at, 0);
    } else {
        assert(offered(init, Seq::empty(), true, at, at).len() == 0);
    }
}

/// A name that is the end of a longer one is no call of it.
pub proof fn longer_names_are_no_calls(
    s: Seq<char>,
    name: Seq<char>,
    kind: crate::completer::StringArgKind,
    at: int,
)
    requires
        rfind(s, name) == Some(at),
        at > 0,
        crate::text::ascii_letter(s[at - 1]) || crate::text::ascii_digit(s[at - 1]) || s[at - 1]
            == '_',
    ensures
        crate::completer::arg_of_call(s, name, kind) is None,
{
}

} // verus!
