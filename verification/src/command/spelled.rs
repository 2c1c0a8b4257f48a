//! Calls as lines: what a line spells is what is read from it.

use crate::command::arg::CallModel;
use crate::command::lexer::{
    in_class, millis_of, next_at, number_at, run_end, token_at, tokens_from, tokens_of, Class,
    Lexed, TokModel,
};
use crate::command::reading::{call_can_be_written, call_toks, calls_are_read_back, path_toks};
use crate::command::written::{
    all_escaped, is_name, literal_is_read, quoted, raw_is_read, raw_quoted, run_ends_at,
    whole_millis,
};
use crate::command::{command_of, CmdModel};
use crate::text::{
    ascii_digit, decimal, decimal_int, decimals_are_read_back, signed_decimals_are_read_back,
    trim_keeps, white_space,
};
use vstd::prelude::*;

verus! {

/// How a token is spelled.
pub open spec fn spelled(tok: TokModel) -> Seq<char> {
    match tok {
        TokModel::Ident(name) => name,
        TokModel::String(text) => quoted(text),
        TokModel::Regex(text) => raw_quoted(text),
        TokModel::Int(n) => decimal_int(n as int),
        TokModel::Duration(d) => decimal(d.millis() as nat) + seq!['m', 's'],
        TokModel::Dot => seq!['.'],
        TokModel::LParen => seq!['('],
        TokModel::RParen => seq![')'],
        TokModel::LBracket => seq!['['],
        TokModel::RBracket => seq![']'],
        TokModel::LBrace => seq!['{'],
        TokModel::RBrace => seq!['}'],
        TokModel::Comma => seq![','],
        TokModel::Eq => seq!['='],
        TokModel::Colon => seq![':'],
    }
}

/// Whether a token can be spelled: a name is one, a raw string holds no quote, and a
/// length of time is one of whole milliseconds.
pub open(crate) spec fn can_be_spelled(tok: TokModel) -> bool {
    match tok {
        TokModel::Ident(name) => is_name(name),
        TokModel::Regex(text) => !text.contains('"'),
        TokModel::Duration(d) => whole_millis(d),
        _ => true,
    }
}

/// A line of tokens, with spaces between them.
pub open spec fn line_of(toks: Seq<TokModel>) -> Seq<char>
    decreases toks.len(),
{
    if toks.len() == 0 {
        Seq::empty()
    } else if toks.len() == 1 {
        spelled(toks[0])
    } else {
        spelled(toks[0]) + seq![' '] + line_of(toks.drop_first())
    }
}

proof fn spelling_begins(tok: TokModel)
    requires
        can_be_spelled(tok),
    ensures
        spelled(tok).len() > 0,
        !white_space(spelled(tok)[0]),
{
    match tok {
        TokModel::Ident(name) => {
            assert(in_class(name[0], Class::Word));
        },
        TokModel::Int(n) => {
            signed_decimals_are_read_back(n as int);
            decimals_are_read_back(
                (if n < 0 {
                    -n
                } else {
                    n as int
                }) as nat,
            );
        },
        TokModel::Duration(d) => {
            decimals_are_read_back(d.millis() as nat);
            assert(spelled(tok)[0] == decimal(d.millis() as nat)[0]);
        },
        _ => {},
    }
}

proof fn token_is_read(s: Seq<char>, p: int, tok: TokModel)
    requires
        can_be_spelled(tok),
        0 <= p,
        p + spelled(tok).len() <= s.len(),
        s.subrange(p, p + spelled(tok).len()) == spelled(tok),
        p + spelled(tok).len() < s.len() ==> s[p + spelled(tok).len()] == ' ',
    ensures
        token_at(s, p) == Lexed::Token(tok, p + spelled(tok).len()),
{
    let text = spelled(tok);
    let e = p + text.len();
    spelling_begins(tok);
    assert forall|i: int| 0 <= i < text.len() implies s[p + i] == #[trigger] text[i] by {
        assert(s.subrange(p, e)[i] == text[i]);
    }
    assert(s[p] == text[0]);
    match tok {
        TokModel::Ident(name) => {
            assert forall|i: int| p <= i < e implies in_class(#[trigger] s[i], Class::Word) by {
                assert(s[i] == text[i - p]);
            }
            run_ends_at(s, p, e, Class::Word);
            assert(in_class(s[p], Class::Word));
            if p + 1 < s.len() && p + 1 < e {
                assert(in_class(s[p + 1], Class::Word));
            }
        },
        TokModel::String(body) => {
            assert(s.subrange(p + 1, e - 1) =~= all_escaped(body)) by {
                assert forall|i: int| 0 <= i < all_escaped(body).len() implies s[p + 1 + i]
                    == all_escaped(body)[i] by {
                    assert(s[p + (1 + i)] == text[1 + i]);
                }
            }
            assert(s[p + (text.len() - 1)] == text[text.len() - 1]);
            literal_is_read(s, p + 1, Seq::empty(), body);
            assert(Seq::<char>::empty() + body =~= body);
        },
        TokModel::Regex(body) => {
            assert(s[p + 1] == text[1]);
            assert(s[p + (text.len() - 1)] == text[text.len() - 1]);
            assert(s.subrange(p + 2, e - 1) =~= body) by {
                assert forall|i: int| 0 <= i < body.len() implies s[p + 2 + i] == body[i] by {
                    assert(s[p + (2 + i)] == text[2 + i]);
                }
            }
            assert forall|i: int| p + 2 <= i < e - 1 implies s[i] != '"' by {
                assert(s.subrange(p + 2, e - 1)[i - p - 2] == s[i]);
                assert(body.contains(body[i - p - 2]));
            }
            raw_is_read(s, p + 2, p + 2, e - 1);
        },
        TokModel::Int(n) => {
            signed_decimals_are_read_back(n as int);
            decimals_are_read_back(
                (if n < 0 {
                    -n
                } else {
                    n as int
                }) as nat,
            );
            let q = if n < 0 {
                p + 1
            } else {
                p
            };
            assert forall|i: int| q <= i < e implies ascii_digit(s[i]) by {
                assert(s[i] == text[i - p]);
                if n < 0 {
                    assert(text[i - p] == decimal((-n) as nat)[i - p - 1]);
                }
            }
            run_ends_at(s, q, e, Class::Digit);
            assert(s.subrange(e, e) =~= Seq::<char>::empty());
            assert(run_end(s, e, Class::Letter) == e);
            assert(ascii_digit(s[p]) || s[p] == '-');
            assert(token_at(s, p) == number_at(s, p));
        },
        TokModel::Duration(time) => {
            let n = time.millis() as nat;
            decimals_are_read_back(n);
            reveal_strlit("ms");
            let digits = decimal(n);
            let d = p + digits.len();
            assert forall|i: int| p <= i < d implies ascii_digit(s[i]) by {
                assert(s[i] == text[i - p]);
                assert(text[i - p] == digits[i - p]);
            }
            assert(s[d] == text[digits.len() as int]);
            assert(s[d + 1] == text[digits.len() + 1int]);
            assert(s[d] == 'm');
            assert(s[d + 1] == 's');
            run_ends_at(s, p, d, Class::Digit);
            assert forall|i: int| d <= i < e implies in_class(#[trigger] s[i], Class::Letter) by {
                assert(i == d || i == d + 1);
            }
            run_ends_at(s, d, e, Class::Letter);
            assert(s.subrange(p, d) =~= digits) by {
                assert forall|i: int| 0 <= i < digits.len() implies s[p + i] == digits[i] by {
                    assert(s[p + i] == text[i]);
                }
            }
            assert(s.subrange(d, e) =~= "ms"@);
            assert(ascii_digit(s[p]));
            assert(token_at(s, p) == number_at(s, p));
            assert(millis_of(n as u64) == time);
        },
        _ => {},
    }
}

proof fn tokens_are_read(s: Seq<char>, p: int, toks: Seq<TokModel>)
    requires
        0 <= p <= s.len(),
        s.skip(p) == line_of(toks),
        forall|i: int| 0 <= i < toks.len() ==> can_be_spelled(#[trigger] toks[i]),
    ensures
        tokens_from(s, p) == Ok::<Seq<TokModel>, Seq<char>>(toks),
    decreases toks.len(),
{
    if toks.len() == 0 {
        assert(s.skip(p).len() == 0);
        assert(run_end(s, p, Class::Space) == p);
        assert(next_at(s, p) == Lexed::End);
        assert(toks =~= Seq::<TokModel>::empty());
    } else {
        let tok = toks[0];
        let text = spelled(tok);
        let e = p + text.len();
        let tail = toks.drop_first();
        assert(can_be_spelled(tok));
        spelling_begins(tok);
        let whole = s.skip(p);
        if toks.len() > 1 {
            assert(whole == text + seq![' '] + line_of(tail));
        }
        assert(whole.take(text.len() as int) =~= text);
        assert(s.subrange(p, e) =~= whole.take(text.len() as int));
        if e < s.len() {
            assert(whole[text.len() as int] == s[e]);
        }
        token_is_read(s, p, tok);
        assert(whole[0] == s[p]);
        assert(run_end(s, p, Class::Space) == p);
        assert(next_at(s, p) == Lexed::Token(tok, e));
        if toks.len() == 1 {
            assert(e == s.len());
            assert(run_end(s, e, Class::Space) == e);
            assert(next_at(s, e) == Lexed::End);
            assert(tokens_from(s, e) == Ok::<Seq<TokModel>, Seq<char>>(Seq::empty()));
            assert(seq![tok] + Seq::<TokModel>::empty() =~= toks);
        } else {
            assert forall|i: int| 0 <= i < tail.len() implies can_be_spelled(
                #[trigger] tail[i],
            ) by {
                assert(tail[i] == toks[i + 1]);
            }
            assert(s.skip(e + 1) =~= line_of(tail)) by {
                assert(whole.skip(text.len() + 1int) =~= line_of(tail));
                assert(whole.skip(text.len() + 1int) =~= s.skip(e + 1));
            }
            tokens_are_read(s, e + 1, tail);
            assert(white_space(s[e]));
            assert(run_end(s, e, Class::Space) == run_end(s, e + 1, Class::Space));
            assert(next_at(s, e) == next_at(s, e + 1));
            assert(tokens_from(s, e) == tokens_from(s, e + 1));
            assert(seq![tok] + tail =~= toks);
        }
    }
}

proof fn line_ends(toks: Seq<TokModel>)
    requires
        toks.len() > 0,
    ensures
        line_of(toks).len() >= spelled(toks.last()).len(),
        line_of(toks).skip(line_of(toks).len() - spelled(toks.last()).len()) == spelled(
            toks.last(),
        ),
        line_of(toks).len() >= spelled(toks[0]).len(),
        line_of(toks).take(spelled(toks[0]).len() as int) == spelled(toks[0]),
    decreases toks.len(),
{
    let line = line_of(toks);
    if toks.len() == 1 {
        assert(line.skip(0) =~= line);
        assert(line.take(line.len() as int) =~= line);
    } else {
        let tail = toks.drop_first();
        line_ends(tail);
        let last = spelled(toks.last());
        assert(tail.last() == toks.last());
        assert(line.skip(line.len() - last.len()) =~= line_of(tail).skip(
            line_of(tail).len() - last.len(),
        ));
        assert(line.take(spelled(toks[0]).len() as int) =~= spelled(toks[0]));
    }
}

/// A line of tokens says those tokens.
pub proof fn lines_say_their_tokens(toks: Seq<TokModel>)
    requires
        forall|i: int| 0 <= i < toks.len() ==> can_be_spelled(#[trigger] toks[i]),
    ensures
        tokens_of(line_of(toks)) == Ok::<Seq<TokModel>, Seq<char>>(toks),
{
    let s = line_of(toks);
    assert(s.skip(0) =~= s);
    tokens_are_read(s, 0, toks);
}

/// Whatever a call says, the line that spells it is that command: its path, its
/// arguments, whatever their kinds and however deep, and its keyword arguments.
#[verifier::rlimit(40)]
pub proof fn lines_say_their_calls(call: CallModel)
    requires
        call_can_be_written(call),
        forall|i: int|
            0 <= i < call_toks(call).len() ==> can_be_spelled(#[trigger] call_toks(call)[i]),
    ensures
        command_of(line_of(call_toks(call))) == Ok::<CmdModel, Seq<char>>(CmdModel::Dsl(call)),
{
    let toks = call_toks(call);
    let s = line_of(toks);
    lines_say_their_tokens(toks);
    calls_are_read_back(call);
    let path = path_toks(call.path);
    assert(path.len() > 0);
    assert(path[0] == TokModel::Ident(call.path[0]));
    assert(toks[0] == path[0]);
    assert(toks.last() == TokModel::RParen);
    line_ends(toks);
    let name = call.path[0];
    assert(can_be_spelled(toks[0]));
    assert(in_class(name[0], Class::Word));
    assert(s.take(name.len() as int)[0] == s[0]);
    assert(s.skip(s.len() - 1)[0] == s.last());
    trim_keeps(s);
}

/// A number of seconds is that length of time.
pub proof fn seconds_are_read(n: u64)
    ensures
        tokens_of(decimal(n as nat) + seq!['s']) matches Ok(toks) && toks.len() == 1 && (
        toks[0] matches TokModel::Duration(d) && d.whole_seconds() == n && d.subsecond_nanos()
            == 0),
{
    decimals_are_read_back(n as nat);
    reveal_strlit("s");
    reveal_strlit("ms");
    let digits = decimal(n as nat);
    let s = digits + seq!['s'];
    let d = digits.len() as int;
    let e = d + 1;
    assert forall|i: int| 0 <= i < d implies ascii_digit(s[i]) by {
        assert(s[i] == digits[i]);
    }
    assert(s[d] == 's');
    run_ends_at(s, 0, d, Class::Digit);
    run_ends_at(s, d, e, Class::Letter);
    assert(s.subrange(0, d) =~= digits);
    assert(s.subrange(d, e) =~= "s"@);
    assert("s"@.len() == 1 && "ms"@.len() == 2);
    assert(ascii_digit(s[0]));
    assert(token_at(s, 0) == number_at(s, 0));
    assert(run_end(s, 0, Class::Space) == 0);
    assert(run_end(s, e, Class::Space) == e);
    assert(next_at(s, e) == Lexed::End);
    assert(tokens_from(s, e) == Ok::<Seq<TokModel>, Seq<char>>(Seq::empty()));
}

}
