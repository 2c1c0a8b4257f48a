//! Calls as tokens: every call can be written down, and is read back.

use crate::command::arg::{ArgModel, CallModel};
use crate::command::lexer::TokModel;
use crate::command::parser::{
    arg_at, args_from, call_at, keyword_at, list_from, object_from, path_from, tok_at,
};
use crate::fields::{increasing, put, put_last};
use crate::text::text_lt;
use vstd::prelude::*;

verus! {

/// The tokens of an argument.
pub open spec fn arg_toks(a: ArgModel) -> Seq<TokModel>
    decreases a,
{
    match a {
        ArgModel::String(s) => seq![TokModel::String(s)],
        ArgModel::Regex(s) => seq![TokModel::Regex(s)],
        ArgModel::Duration(d) => seq![TokModel::Duration(d)],
        ArgModel::Int(n) => seq![TokModel::Int(n)],
        ArgModel::Bool(b) => seq![
            TokModel::Ident(
                if b {
                    "true"@
                } else {
                    "false"@
                },
            ),
        ],
        ArgModel::Null => seq![TokModel::Ident("null"@)],
        ArgModel::List(items) => seq![TokModel::LBracket] + items_toks(items) + seq![
            TokModel::RBracket,
        ],
        ArgModel::Object(entries) => seq![TokModel::LBrace] + entries_toks(entries) + seq![
            TokModel::RBrace,
        ],
        ArgModel::Call(call) => call_toks(call),
    }
}

/// The tokens of arguments, with commas between them.
pub open spec fn items_toks(items: Seq<ArgModel>) -> Seq<TokModel>
    decreases items,
{
    if items.len() == 0 {
        Seq::empty()
    } else if items.len() == 1 {
        arg_toks(items[0])
    } else {
        arg_toks(items[0]) + seq![TokModel::Comma] + items_toks(items.drop_first())
    }
}

/// The tokens of the entries of an object.
pub open spec fn entries_toks(entries: Seq<(Seq<char>, ArgModel)>) -> Seq<TokModel>
    decreases entries,
{
    if entries.len() == 0 {
        Seq::empty()
    } else {
        let first = seq![TokModel::String(entries[0].0), TokModel::Colon] + arg_toks(entries[0].1);
        if entries.len() == 1 {
            first
        } else {
            first + seq![TokModel::Comma] + entries_toks(entries.drop_first())
        }
    }
}

/// The tokens of keyword arguments.
pub open spec fn keyword_toks(kwargs: Seq<(Seq<char>, ArgModel)>) -> Seq<TokModel>
    decreases kwargs,
{
    if kwargs.len() == 0 {
        Seq::empty()
    } else {
        let first = seq![TokModel::Ident(kwargs[0].0), TokModel::Eq] + arg_toks(kwargs[0].1);
        if kwargs.len() == 1 {
            first
        } else {
            first + seq![TokModel::Comma] + keyword_toks(kwargs.drop_first())
        }
    }
}

/// The tokens of names with dots between them.
pub open spec fn path_toks(path: Seq<Seq<char>>) -> Seq<TokModel>
    decreases path.len(),
{
    if path.len() == 0 {
        Seq::empty()
    } else if path.len() == 1 {
        seq![TokModel::Ident(path[0])]
    } else {
        seq![TokModel::Ident(path[0]), TokModel::Dot] + path_toks(path.drop_first())
    }
}

/// What stands between arguments and keyword arguments.
pub open spec fn between(positional: Seq<ArgModel>, kwargs: Seq<(Seq<char>, ArgModel)>) -> Seq<
    TokModel,
> {
    if positional.len() > 0 && kwargs.len() > 0 {
        seq![TokModel::Comma]
    } else {
        Seq::empty()
    }
}

/// The tokens of a call: its path, and its arguments in parentheses, those without
/// names first.
pub open spec fn call_toks(call: CallModel) -> Seq<TokModel>
    decreases call,
{
    path_toks(call.path) + (seq![TokModel::LParen] + (items_toks(call.positional) + (between(
        call.positional,
        call.kwargs,
    ) + (keyword_toks(call.kwargs) + seq![TokModel::RParen]))))
}

/// Whether an argument can be written down: calls have a path that does not begin with
/// a word for a value, and what has names has them in order, each once.
pub open spec fn can_be_written(a: ArgModel) -> bool
    decreases a,
{
    match a {
        ArgModel::List(items) => all_can_be_written(items),
        ArgModel::Object(entries) => increasing(entries) && values_can_be_written(entries),
        ArgModel::Call(call) => {
            &&& call_can_be_written(call)
            &&& call.path[0] != "true"@ && call.path[0] != "false"@ && call.path[0] != "null"@
                && call.path[0] != "nil"@
        },
        _ => true,
    }
}

pub open spec fn all_can_be_written(items: Seq<ArgModel>) -> bool
    decreases items,
{
    items.len() == 0 || (can_be_written(items[0]) && all_can_be_written(items.drop_first()))
}

pub open spec fn values_can_be_written(entries: Seq<(Seq<char>, ArgModel)>) -> bool
    decreases entries,
{
    entries.len() == 0 || (can_be_written(entries[0].1) && values_can_be_written(
        entries.drop_first(),
    ))
}

/// Whether a call can be written down.
pub open spec fn call_can_be_written(call: CallModel) -> bool
    decreases call,
{
    &&& call.path.len() > 0
    &&& increasing(call.kwargs)
    &&& all_can_be_written(call.positional)
    &&& values_can_be_written(call.kwargs)
}

/// Whether some tokens stand at a place among others.
pub open spec fn stands(t: Seq<TokModel>, p: int, part: Seq<TokModel>) -> bool {
    0 <= p && p + part.len() <= t.len() && t.subrange(p, p + part.len()) == part
}

proof fn parts_stand(t: Seq<TokModel>, p: int, a: Seq<TokModel>, b: Seq<TokModel>)
    requires
        stands(t, p, a + b),
    ensures
        stands(t, p, a),
        stands(t, p + a.len(), b),
{
    let all = a + b;
    assert(t.subrange(p, p + a.len()) =~= a) by {
        assert forall|i: int| 0 <= i < a.len() implies t[p + i] == a[i] by {
            assert(t.subrange(p, p + all.len())[i] == all[i]);
        }
    }
    let q = p + a.len();
    assert(t.subrange(q, q + b.len()) =~= b) by {
        assert forall|i: int| 0 <= i < b.len() implies t[q + i] == b[i] by {
            assert(t.subrange(p, p + all.len())[a.len() + i] == all[a.len() + i]);
        }
    }
}

proof fn one_stands(t: Seq<TokModel>, p: int, tok: TokModel)
    requires
        stands(t, p, seq![tok]),
    ensures
        tok_at(t, p) == Some(tok),
        t[p] == tok,
{
    assert(t.subrange(p, p + 1)[0] == t[p]);
    assert(seq![tok][0] == tok);
}

proof fn two_stand(t: Seq<TokModel>, p: int, a: TokModel, b: TokModel)
    requires
        stands(t, p, seq![a, b]),
    ensures
        tok_at(t, p) == Some(a),
        tok_at(t, p + 1) == Some(b),
        t[p] == a,
{
    assert(t.subrange(p, p + 2)[0] == t[p]);
    assert(t.subrange(p, p + 2)[1] == t[p + 1]);
    assert(seq![a, b][0] == a && seq![a, b][1] == b);
}

proof fn words_for_values_differ()
    ensures
        "true"@ != "false"@,
        "null"@ != "true"@,
        "null"@ != "false"@,
{
    reveal_strlit("true");
    reveal_strlit("false");
    reveal_strlit("null");
    assert("true"@.len() == 4 && "false"@.len() == 5 && "null"@.len() == 4);
    assert("true"@[0] == 't' && "null"@[0] == 'n');
}

/// No argument begins with a closing mark, or with a name and an equals sign.
proof fn arguments_begin(a: ArgModel)
    requires
        can_be_written(a),
    ensures
        ({
            let toks = arg_toks(a);
            &&& toks.len() > 0
            &&& toks[0] != TokModel::RParen && toks[0] != TokModel::RBracket && toks[0]
                != TokModel::RBrace
            &&& toks.len() == 1 || toks[1] != TokModel::Eq || !(toks[0] is Ident)
        }),
{
    match a {
        ArgModel::List(items) => {
            assert(arg_toks(a)[0] == TokModel::LBracket);
        },
        ArgModel::Object(entries) => {
            assert(arg_toks(a)[0] == TokModel::LBrace);
        },
        ArgModel::Call(call) => {
            let path = path_toks(call.path);
            assert(path.len() > 0);
            assert(arg_toks(a)[0] == path[0]);
            if call.path.len() == 1 {
                assert(path.len() == 1);
                assert(arg_toks(a)[1] == TokModel::LParen);
            } else {
                assert(path[1] == TokModel::Dot);
                assert(arg_toks(a)[1] == path[1]);
            }
        },
        _ => {},
    }
}

proof fn begins_no_keyword(t: Seq<TokModel>, p: int, a: ArgModel)
    requires
        can_be_written(a),
        stands(t, p, arg_toks(a)),
        tok_at(t, p + arg_toks(a).len()) != Some(TokModel::Eq),
    ensures
        !keyword_at(t, p),
        tok_at(t, p) != Some(TokModel::RParen),
        tok_at(t, p) != Some(TokModel::RBracket),
        tok_at(t, p) != Some(TokModel::RBrace),
{
    arguments_begin(a);
    let toks = arg_toks(a);
    assert(t.subrange(p, p + toks.len())[0] == t[p]);
    if toks.len() > 1 {
        assert(t.subrange(p, p + toks.len())[1] == t[p + 1]);
    }
}

proof fn paths_are_read(t: Seq<TokModel>, p: int, before: Seq<Seq<char>>, path: Seq<Seq<char>>)
    requires
        path.len() > 0,
        stands(t, p, path_toks(path)),
        tok_at(t, p + path_toks(path).len()) != Some(TokModel::Dot),
    ensures
        path_from(t, p, before) == Ok::<(Seq<Seq<char>>, int), Seq<char>>(
            (before + path, p + path_toks(path).len()),
        ),
    decreases path.len(),
{
    if path.len() == 1 {
        one_stands(t, p, TokModel::Ident(path[0]));
        assert(before.push(path[0]) =~= before + path);
    } else {
        let rest = path.drop_first();
        parts_stand(t, p, seq![TokModel::Ident(path[0]), TokModel::Dot], path_toks(rest));
        two_stand(t, p, TokModel::Ident(path[0]), TokModel::Dot);
        paths_are_read(t, p + 2, before.push(path[0]), rest);
        assert(before.push(path[0]) + rest =~= before + path);
    }
}

proof fn argument_is_read(t: Seq<TokModel>, p: int, a: ArgModel)
    requires
        can_be_written(a),
        stands(t, p, arg_toks(a)),
    ensures
        arg_at(t, p) == Ok::<(ArgModel, int), Seq<char>>((a, p + arg_toks(a).len())),
    decreases a,
{
    words_for_values_differ();
    match a {
        ArgModel::String(s) => {
            one_stands(t, p, TokModel::String(s));
        },
        ArgModel::Regex(s) => {
            one_stands(t, p, TokModel::Regex(s));
        },
        ArgModel::Duration(d) => {
            one_stands(t, p, TokModel::Duration(d));
        },
        ArgModel::Int(n) => {
            one_stands(t, p, TokModel::Int(n));
        },
        ArgModel::Bool(b) => {
            one_stands(
                t,
                p,
                TokModel::Ident(
                    if b {
                        "true"@
                    } else {
                        "false"@
                    },
                ),
            );
        },
        ArgModel::Null => {
            one_stands(t, p, TokModel::Ident("null"@));
        },
        ArgModel::List(items) => {
            let inner = items_toks(items);
            let open = seq![TokModel::LBracket];
            let close = seq![TokModel::RBracket];
            assert(arg_toks(a) == open + inner + close);
            parts_stand(t, p, open + inner, close);
            parts_stand(t, p, open, inner);
            one_stands(t, p, TokModel::LBracket);
            one_stands(t, p + 1 + inner.len(), TokModel::RBracket);
            if items.len() == 0 {
                assert(inner.len() == 0);
                assert(items =~= Seq::<ArgModel>::empty());
            } else {
                items_are_read(t, p + 1, Seq::empty(), items);
                first_item_begins(t, p + 1, items);
                assert(Seq::<ArgModel>::empty() + items =~= items);
            }
        },
        ArgModel::Object(entries) => {
            let inner = entries_toks(entries);
            let open = seq![TokModel::LBrace];
            let close = seq![TokModel::RBrace];
            assert(arg_toks(a) == open + inner + close);
            parts_stand(t, p, open + inner, close);
            parts_stand(t, p, open, inner);
            one_stands(t, p, TokModel::LBrace);
            one_stands(t, p + 1 + inner.len(), TokModel::RBrace);
            if entries.len() == 0 {
                assert(inner.len() == 0);
                assert(entries =~= Seq::<(Seq<char>, ArgModel)>::empty());
            } else {
                entries_are_read(t, p + 1, Seq::empty(), entries);
                assert(t.subrange(p + 1, p + 1 + inner.len())[0] == t[p + 1]);
                assert(inner[0] == TokModel::String(entries[0].0));
                assert(Seq::<(Seq<char>, ArgModel)>::empty() + entries =~= entries);
            }
        },
        ArgModel::Call(call) => {
            call_is_read(t, p, call);
            let path = path_toks(call.path);
            assert(arg_toks(a)[0] == path[0]);
            assert(t.subrange(p, p + arg_toks(a).len())[0] == t[p]);
            assert(t[p] == TokModel::Ident(call.path[0]));
        },
    }
}

proof fn first_item_begins(t: Seq<TokModel>, p: int, items: Seq<ArgModel>)
    requires
        items.len() > 0,
        all_can_be_written(items),
        stands(t, p, items_toks(items)),
        tok_at(t, p + items_toks(items).len()) == Some(TokModel::RBracket) || tok_at(
            t,
            p + items_toks(items).len(),
        ) == Some(TokModel::RParen) || tok_at(t, p + items_toks(items).len()) == Some(
            TokModel::Comma,
        ),
    ensures
        tok_at(t, p) != Some(TokModel::RBracket),
        tok_at(t, p) != Some(TokModel::RParen),
        !keyword_at(t, p),
{
    let first = arg_toks(items[0]);
    if items.len() > 1 {
        let rest = items_toks(items.drop_first());
        parts_stand(t, p, first + seq![TokModel::Comma], rest);
        parts_stand(t, p, first, seq![TokModel::Comma]);
        one_stands(t, p + first.len(), TokModel::Comma);
    }
    begins_no_keyword(t, p, items[0]);
}

proof fn items_are_read(t: Seq<TokModel>, p: int, before: Seq<ArgModel>, items: Seq<ArgModel>)
    requires
        items.len() > 0,
        all_can_be_written(items),
        stands(t, p, items_toks(items)),
        tok_at(t, p + items_toks(items).len()) == Some(TokModel::RBracket),
    ensures
        list_from(t, p, before) == Ok::<(Seq<ArgModel>, int), Seq<char>>(
            (before + items, p + items_toks(items).len() + 1),
        ),
    decreases items,
{
    let first = arg_toks(items[0]);
    arguments_begin(items[0]);
    if items.len() == 1 {
        argument_is_read(t, p, items[0]);
        assert(before.push(items[0]) =~= before + items);
    } else {
        let tail = items.drop_first();
        let rest = items_toks(tail);
        parts_stand(t, p, first + seq![TokModel::Comma], rest);
        parts_stand(t, p, first, seq![TokModel::Comma]);
        one_stands(t, p + first.len(), TokModel::Comma);
        argument_is_read(t, p, items[0]);
        items_are_read(t, p + first.len() + 1, before.push(items[0]), tail);
        assert(before.push(items[0]) + tail =~= before + items);
    }
}

proof fn names_go_up(
    before: Seq<(Seq<char>, ArgModel)>,
    entries: Seq<(Seq<char>, ArgModel)>,
)
    requires
        entries.len() > 0,
        increasing(before + entries),
    ensures
        put(before, entries[0].0, entries[0].1) == before.push(entries[0]),
        increasing(before.push(entries[0]) + entries.drop_first()),
        before.push(entries[0]) + entries.drop_first() == before + entries,
{
    let all = before + entries;
    assert forall|j: int| 0 <= j < before.len() implies text_lt(
        (#[trigger] before[j]).0,
        entries[0].0,
    ) by {
        assert(all[j] == before[j]);
        assert(all[before.len() as int] == entries[0]);
    }
    put_last(before, entries[0].0, entries[0].1);
    assert(before.push((entries[0].0, entries[0].1)) =~= before.push(entries[0]));
    assert(before.push(entries[0]) + entries.drop_first() =~= all);
}

proof fn entries_are_read(
    t: Seq<TokModel>,
    p: int,
    before: Seq<(Seq<char>, ArgModel)>,
    entries: Seq<(Seq<char>, ArgModel)>,
)
    requires
        entries.len() > 0,
        values_can_be_written(entries),
        increasing(before + entries),
        stands(t, p, entries_toks(entries)),
        tok_at(t, p + entries_toks(entries).len()) == Some(TokModel::RBrace),
    ensures
        object_from(t, p, before) == Ok::<(Seq<(Seq<char>, ArgModel)>, int), Seq<char>>(
            (before + entries, p + entries_toks(entries).len() + 1),
        ),
    decreases entries,
{
    names_go_up(before, entries);
    let head = seq![TokModel::String(entries[0].0), TokModel::Colon];
    let value = arg_toks(entries[0].1);
    if entries.len() == 1 {
        parts_stand(t, p, head, value);
        two_stand(t, p, TokModel::String(entries[0].0), TokModel::Colon);
        argument_is_read(t, p + 2, entries[0].1);
        assert(before.push(entries[0]) =~= before + entries);
    } else {
        let tail = entries.drop_first();
        let rest = entries_toks(tail);
        parts_stand(t, p, head + value + seq![TokModel::Comma], rest);
        parts_stand(t, p, head + value, seq![TokModel::Comma]);
        parts_stand(t, p, head, value);
        two_stand(t, p, TokModel::String(entries[0].0), TokModel::Colon);
        one_stands(t, p + 2 + value.len(), TokModel::Comma);
        argument_is_read(t, p + 2, entries[0].1);
        entries_are_read(t, p + 2 + value.len() + 1, before.push(entries[0]), tail);
    }
}

proof fn keywords_are_read(
    t: Seq<TokModel>,
    p: int,
    positional: Seq<ArgModel>,
    before: Seq<(Seq<char>, ArgModel)>,
    kwargs: Seq<(Seq<char>, ArgModel)>,
)
    requires
        kwargs.len() > 0,
        values_can_be_written(kwargs),
        increasing(before + kwargs),
        stands(t, p, keyword_toks(kwargs)),
        tok_at(t, p + keyword_toks(kwargs).len()) == Some(TokModel::RParen),
    ensures
        args_from(t, p, positional, before) == Ok::<
            (Seq<ArgModel>, Seq<(Seq<char>, ArgModel)>, int),
            Seq<char>,
        >((positional, before + kwargs, p + keyword_toks(kwargs).len() + 1)),
    decreases kwargs,
{
    names_go_up(before, kwargs);
    let head = seq![TokModel::Ident(kwargs[0].0), TokModel::Eq];
    let value = arg_toks(kwargs[0].1);
    if kwargs.len() == 1 {
        parts_stand(t, p, head, value);
        two_stand(t, p, TokModel::Ident(kwargs[0].0), TokModel::Eq);
        argument_is_read(t, p + 2, kwargs[0].1);
        assert(before.push(kwargs[0]) =~= before + kwargs);
    } else {
        let tail = kwargs.drop_first();
        let rest = keyword_toks(tail);
        parts_stand(t, p, head + value + seq![TokModel::Comma], rest);
        parts_stand(t, p, head + value, seq![TokModel::Comma]);
        parts_stand(t, p, head, value);
        two_stand(t, p, TokModel::Ident(kwargs[0].0), TokModel::Eq);
        one_stands(t, p + 2 + value.len(), TokModel::Comma);
        argument_is_read(t, p + 2, kwargs[0].1);
        keywords_are_read(t, p + 2 + value.len() + 1, positional, before.push(kwargs[0]), tail);
    }
}

proof fn arguments_are_read(
    t: Seq<TokModel>,
    p: int,
    before: Seq<ArgModel>,
    items: Seq<ArgModel>,
    kwargs: Seq<(Seq<char>, ArgModel)>,
)
    requires
        items.len() > 0,
        all_can_be_written(items),
        stands(t, p, items_toks(items)),
        tok_at(t, p + items_toks(items).len()) == Some(TokModel::RParen) || tok_at(
            t,
            p + items_toks(items).len(),
        ) == Some(TokModel::Comma),
    ensures
        ({
            let e = p + items_toks(items).len();
            args_from(t, p, before, kwargs) == if tok_at(t, e) == Some(TokModel::RParen) {
                Ok::<(Seq<ArgModel>, Seq<(Seq<char>, ArgModel)>, int), Seq<char>>(
                    (before + items, kwargs, e + 1),
                )
            } else {
                args_from(t, e + 1, before + items, kwargs)
            }
        }),
    decreases items,
{
    let first = arg_toks(items[0]);
    first_item_begins(t, p, items);
    arguments_begin(items[0]);
    if items.len() == 1 {
        argument_is_read(t, p, items[0]);
        assert(before.push(items[0]) =~= before + items);
    } else {
        let tail = items.drop_first();
        let rest = items_toks(tail);
        parts_stand(t, p, first + seq![TokModel::Comma], rest);
        parts_stand(t, p, first, seq![TokModel::Comma]);
        one_stands(t, p + first.len(), TokModel::Comma);
        argument_is_read(t, p, items[0]);
        arguments_are_read(t, p + first.len() + 1, before.push(items[0]), tail, kwargs);
        assert(before.push(items[0]) + tail =~= before + items);
    }
}

proof fn call_is_read(t: Seq<TokModel>, p: int, call: CallModel)
    requires
        call_can_be_written(call),
        stands(t, p, call_toks(call)),
    ensures
        call_at(t, p) == Ok::<(CallModel, int), Seq<char>>((call, p + call_toks(call).len())),
    decreases call,
{
    let path = path_toks(call.path);
    let items = items_toks(call.positional);
    let comma = between(call.positional, call.kwargs);
    let named = keyword_toks(call.kwargs);
    let close = seq![TokModel::RParen];
    let inner = items + (comma + (named + close));
    parts_stand(t, p, path, seq![TokModel::LParen] + inner);
    let q = p + path.len();
    parts_stand(t, q, seq![TokModel::LParen], inner);
    one_stands(t, q, TokModel::LParen);
    parts_stand(t, q + 1, items, comma + (named + close));
    let r = q + 1 + items.len();
    parts_stand(t, r, comma, named + close);
    let n = r + comma.len();
    parts_stand(t, n, named, close);
    one_stands(t, n + named.len(), TokModel::RParen);
    paths_are_read(t, p, Seq::empty(), call.path);
    assert(Seq::<Seq<char>>::empty() + call.path =~= call.path);
    assert(path.len() > 0);
    let no_items = Seq::<ArgModel>::empty();
    let no_names = Seq::<(Seq<char>, ArgModel)>::empty();
    assert(no_items + call.positional =~= call.positional);
    assert(no_names + call.kwargs =~= call.kwargs);
    if call.positional.len() == 0 {
        assert(call.positional =~= no_items);
        if call.kwargs.len() == 0 {
            assert(call.kwargs =~= no_names);
        } else {
            keywords_are_read(t, n, no_items, no_names, call.kwargs);
            assert(t.subrange(n, n + named.len())[0] == t[n]);
            assert(named[0] == TokModel::Ident(call.kwargs[0].0));
        }
    } else {
        if call.kwargs.len() == 0 {
            assert(call.kwargs =~= no_names);
            assert(tok_at(t, r) == Some(TokModel::RParen));
        } else {
            one_stands(t, r, TokModel::Comma);
            keywords_are_read(t, n, call.positional, no_names, call.kwargs);
        }
        first_item_begins(t, q + 1, call.positional);
        arguments_are_read(t, q + 1, no_items, call.positional, no_names);
    }
}

/// Whatever a call says, it is read back from its tokens: its path, its arguments with
/// lists, objects and calls among them, and its keyword arguments.
pub proof fn calls_are_read_back(call: CallModel)
    requires
        call_can_be_written(call),
    ensures
        call_at(call_toks(call), 0) == Ok::<(CallModel, int), Seq<char>>(
            (call, call_toks(call).len() as int),
        ),
{
    let t = call_toks(call);
    assert(t.subrange(0, t.len() as int) =~= t);
    call_is_read(t, 0, call);
}

/// A path alone is a call without arguments.
pub proof fn bare_paths_are_calls(path: Seq<Seq<char>>)
    requires
        path.len() > 0,
    ensures
        call_at(path_toks(path), 0) == Ok::<(CallModel, int), Seq<char>>(
            (
                CallModel { path, positional: Seq::empty(), kwargs: Seq::empty() },
                path_toks(path).len() as int,
            ),
        ),
{
    let t = path_toks(path);
    assert(t.subrange(0, t.len() as int) =~= t);
    paths_are_read(t, 0, Seq::empty(), path);
    assert(Seq::<Seq<char>>::empty() + path =~= path);
}

}
