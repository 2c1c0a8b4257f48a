//! The grammar of calls: dotted paths with positional and keyword arguments.

use crate::command::arg::{
    arg_entry_models, arg_entry_models_put, arg_models, arg_view, call_view, Arg, ArgModel, CallModel,
    DslCall,
};
use crate::command::lexer::{tok_models, Tok, TokModel};
use crate::error::{Error, ErrorModel};
use crate::fields::{put, Fields};
use crate::text::{same, texts, texts_push};
use vstd::prelude::*;

verus! {

broadcast use vstd::string::group_string_axioms;

/// The token at `p`, if there is one.
pub open spec fn tok_at(t: Seq<TokModel>, p: int) -> Option<TokModel> {
    if 0 <= p < t.len() {
        Some(t[p])
    } else {
        None
    }
}

/// A complaint that names the token at `p`, or says less at the end.
pub open spec fn found(t: Seq<TokModel>, p: int, expected: Seq<char>, at_end: Seq<char>) -> Seq<
    char,
> {
    match tok_at(t, p) {
        Some(tok) => expected + ", found "@ + tok.shown(),
        None => at_end,
    }
}

/// Names joined by dots, going on at `p` after `path`.
pub open spec fn path_from(t: Seq<TokModel>, p: int, path: Seq<Seq<char>>) -> Result<
    (Seq<Seq<char>>, int),
    Seq<char>,
>
    decreases t.len() - p,
{
    match tok_at(t, p) {
        Some(TokModel::Ident(name)) => if tok_at(t, p + 1) == Some(TokModel::Dot) {
            path_from(t, p + 2, path.push(name))
        } else {
            Ok((path.push(name), p + 1))
        },
        _ => Err(found(t, p, "expected identifier"@, "expected identifier"@)),
    }
}

/// The call that starts at `p`, and where it ends.
pub open spec fn call_at(t: Seq<TokModel>, p: int) -> Result<(CallModel, int), Seq<char>>
    decreases t.len() - p, 1int,
{
    match path_from(t, p, Seq::empty()) {
        Err(m) => Err(m),
        Ok((path, q)) => if p < q && tok_at(t, q) == Some(TokModel::LParen) {
            match args_at(t, q + 1) {
                Err(m) => Err(m),
                Ok((positional, kwargs, e)) => Ok((CallModel { path, positional, kwargs }, e)),
            }
        } else {
            Ok((CallModel { path, positional: Seq::empty(), kwargs: Seq::empty() }, q))
        },
    }
}

/// The argument list whose opening parenthesis is just before `p`.
pub open spec fn args_at(t: Seq<TokModel>, p: int) -> Result<
    (Seq<ArgModel>, Seq<(Seq<char>, ArgModel)>, int),
    Seq<char>,
>
    decreases t.len() - p, 4int,
{
    if tok_at(t, p) == Some(TokModel::RParen) {
        Ok((Seq::empty(), Seq::empty(), p + 1))
    } else {
        args_from(t, p, Seq::empty(), Seq::empty())
    }
}

/// Whether a keyword argument starts at `p`: a name and an equals sign.
pub open spec fn keyword_at(t: Seq<TokModel>, p: int) -> bool {
    tok_at(t, p) is Some && t[p] is Ident && tok_at(t, p + 1) == Some(TokModel::Eq)
}

/// The argument list going on at `p` with another argument. A keyword that
/// comes twice keeps its last value.
pub open spec fn args_from(
    t: Seq<TokModel>,
    p: int,
    positional: Seq<ArgModel>,
    kwargs: Seq<(Seq<char>, ArgModel)>,
) -> Result<(Seq<ArgModel>, Seq<(Seq<char>, ArgModel)>, int), Seq<char>>
    decreases t.len() - p, 3int,
{
    let start = if keyword_at(t, p) { p + 2 } else { p };
    match arg_at(t, start) {
        Err(m) => Err(m),
        Ok((value, q)) => {
            let positional2 = if keyword_at(t, p) { positional } else { positional.push(value) };
            let kwargs2 = if keyword_at(t, p) {
                put(kwargs, t[p]->Ident_0, value)
            } else {
                kwargs
            };
            if tok_at(t, q) == Some(TokModel::Comma) && p < q {
                args_from(t, q + 1, positional2, kwargs2)
            } else if tok_at(t, q) == Some(TokModel::RParen) {
                Ok((positional2, kwargs2, q + 1))
            } else {
                Err(found(t, q, "expected `,` or `)`"@, "expected `)` to close argument list"@))
            }
        },
    }
}

/// The argument that starts at `p`, and where it ends.
pub open spec fn arg_at(t: Seq<TokModel>, p: int) -> Result<(ArgModel, int), Seq<char>>
    decreases t.len() - p, 2int,
{
    match tok_at(t, p) {
        Some(TokModel::String(s)) => Ok((ArgModel::String(s), p + 1)),
        Some(TokModel::Regex(s)) => Ok((ArgModel::Regex(s), p + 1)),
        Some(TokModel::Int(n)) => Ok((ArgModel::Int(n), p + 1)),
        Some(TokModel::Duration(d)) => Ok((ArgModel::Duration(d), p + 1)),
        Some(TokModel::Ident(name)) => if name == "true"@ {
            Ok((ArgModel::Bool(true), p + 1))
        } else if name == "false"@ {
            Ok((ArgModel::Bool(false), p + 1))
        } else if name == "null"@ || name == "nil"@ {
            Ok((ArgModel::Null, p + 1))
        } else {
            match call_at(t, p) {
                Ok((call, q)) => Ok((ArgModel::Call(call), q)),
                Err(m) => Err(m),
            }
        },
        Some(TokModel::LBracket) => match list_at(t, p + 1) {
            Ok((items, q)) => Ok((ArgModel::List(items), q)),
            Err(m) => Err(m),
        },
        Some(TokModel::LBrace) => match object_at(t, p + 1) {
            Ok((entries, q)) => Ok((ArgModel::Object(entries), q)),
            Err(m) => Err(m),
        },
        _ => Err(found(t, p, "expected argument"@, "expected argument"@)),
    }
}

/// The list whose opening bracket is just before `p`.
pub open spec fn list_at(t: Seq<TokModel>, p: int) -> Result<(Seq<ArgModel>, int), Seq<char>>
    decreases t.len() - p, 4int,
{
    if tok_at(t, p) == Some(TokModel::RBracket) {
        Ok((Seq::empty(), p + 1))
    } else {
        list_from(t, p, Seq::empty())
    }
}

/// The list going on at `p` with another item.
pub open spec fn list_from(t: Seq<TokModel>, p: int, items: Seq<ArgModel>) -> Result<
    (Seq<ArgModel>, int),
    Seq<char>,
>
    decreases t.len() - p, 3int,
{
    match arg_at(t, p) {
        Err(m) => Err(m),
        Ok((value, q)) => if tok_at(t, q) == Some(TokModel::Comma) && p < q {
            list_from(t, q + 1, items.push(value))
        } else if tok_at(t, q) == Some(TokModel::RBracket) {
            Ok((items.push(value), q + 1))
        } else {
            Err(found(t, q, "expected `,` or `]`"@, "expected `]` to close list"@))
        },
    }
}

/// The object whose opening brace is just before `p`.
pub open spec fn object_at(t: Seq<TokModel>, p: int) -> Result<
    (Seq<(Seq<char>, ArgModel)>, int),
    Seq<char>,
>
    decreases t.len() - p, 4int,
{
    if tok_at(t, p) == Some(TokModel::RBrace) {
        Ok((Seq::empty(), p + 1))
    } else {
        object_from(t, p, Seq::empty())
    }
}

/// The object key at `p`: a name or a string.
pub open spec fn key_at(t: Seq<TokModel>, p: int) -> Option<Seq<char>> {
    match tok_at(t, p) {
        Some(TokModel::Ident(key)) => Some(key),
        Some(TokModel::String(key)) => Some(key),
        _ => None,
    }
}

/// The object going on at `p` with another entry. A key that comes twice
/// keeps its last value.
pub open spec fn object_from(
    t: Seq<TokModel>,
    p: int,
    entries: Seq<(Seq<char>, ArgModel)>,
) -> Result<(Seq<(Seq<char>, ArgModel)>, int), Seq<char>>
    decreases t.len() - p, 3int,
{
    match key_at(t, p) {
        None => Err(found(t, p, "expected object key"@, "expected object key"@)),
        Some(key) => if tok_at(t, p + 1) == Some(TokModel::Colon) || tok_at(t, p + 1) == Some(
            TokModel::Eq,
        ) {
            match arg_at(t, p + 2) {
                Err(m) => Err(m),
                Ok((value, q)) => if tok_at(t, q) == Some(TokModel::Comma) && p < q {
                    object_from(t, q + 1, put(entries, key, value))
                } else if tok_at(t, q) == Some(TokModel::RBrace) {
                    Ok((put(entries, key, value), q + 1))
                } else {
                    Err(found(t, q, "expected `,` or `}`"@, "expected `}` to close object"@))
                },
            }
        } else {
            Err(
                found(
                    t,
                    p + 1,
                    "expected `:` or `=` after object key"@,
                    "expected `:` or `=` after object key"@,
                ),
            )
        },
    }
}

// ---- the parser ---------------------------------------------------------

/// Tokens and how far they have been read.
pub struct Parser {
    tokens: Vec<Tok>,
    pos: usize,
}

impl Parser {
    pub closed spec fn toks(&self) -> Seq<TokModel> {
        tok_models(self.tokens@)
    }

    pub closed spec fn at(&self) -> int {
        self.pos as int
    }

    /// The position stays inside the tokens.
    pub open spec fn wf(&self) -> bool {
        0 <= self.at() <= self.toks().len()
    }

    pub fn new(tokens: Vec<Tok>) -> (r: Parser)
        ensures
            r.wf(),
            r.toks() == tok_models(tokens@),
            r.at() == 0,
    {
        Parser { tokens, pos: 0 }
    }

    /// The token at the position, if there is one.
    pub fn peek(&self) -> (r: Option<&Tok>)
        requires
            self.wf(),
        ensures
            match r {
                Some(tok) => tok_at(self.toks(), self.at()) == Some(tok@),
                None => tok_at(self.toks(), self.at()) is None,
            },
            r is Some <==> self.at() < self.toks().len(),
    {
        if self.pos < self.tokens.len() {
            Some(&self.tokens[self.pos])
        } else {
            None
        }
    }

    /// Moves one token on, if there is one.
    pub fn bump(&mut self)
        requires
            old(self).wf(),
        ensures
            final(self).wf(),
            final(self).toks() == old(self).toks(),
            final(self).at() == if old(self).at() < old(self).toks().len() {
                old(self).at() + 1
            } else {
                old(self).at()
            },
    {
        if self.pos < self.tokens.len() {
            self.pos = self.pos + 1;
        }
    }

    /// Whether the position is behind the last token; what is left over is
    /// an error.
    pub fn expect_end(&self) -> (r: Result<(), Error>)
        requires
            self.wf(),
        ensures
            match r {
                Ok(_) => self.at() == self.toks().len(),
                Err(e) => self.at() < self.toks().len() && e@ == ErrorModel::Rpc(
                    "unexpected trailing token "@ + self.toks()[self.at()].shown(),
                ),
            },
    {
        match self.peek() {
            None => Ok(()),
            Some(tok) => {
                let mut message: String = "unexpected trailing token ".to_owned();
                message.push_str(tok.shown().as_str());
                Err(Error::Rpc(message))
            },
        }
    }

    fn complain(&self, expected: &str, at_end: &str) -> (r: Error)
        requires
            self.wf(),
        ensures
            r@ == ErrorModel::Rpc(found(self.toks(), self.at(), expected@, at_end@)),
    {
        match self.peek() {
            Some(tok) => {
                let mut message: String = expected.to_owned();
                message.push_str(", found ");
                message.push_str(tok.shown().as_str());
                Error::Rpc(message)
            },
            None => Error::rpc(at_end),
        }
    }

    fn sees(&self, punctuation: &Tok) -> (r: bool)
        requires
            self.wf(),
            punctuation@ is Dot || punctuation@ is LParen || punctuation@ is RParen
                || punctuation@ is RBracket || punctuation@ is RBrace || punctuation@ is Comma
                || punctuation@ is Eq || punctuation@ is Colon,
        ensures
            r == (tok_at(self.toks(), self.at()) == Some(punctuation@)),
    {
        match (self.peek(), punctuation) {
            (Some(Tok::Dot), Tok::Dot) => true,
            (Some(Tok::LParen), Tok::LParen) => true,
            (Some(Tok::RParen), Tok::RParen) => true,
            (Some(Tok::RBracket), Tok::RBracket) => true,
            (Some(Tok::RBrace), Tok::RBrace) => true,
            (Some(Tok::Comma), Tok::Comma) => true,
            (Some(Tok::Eq), Tok::Eq) => true,
            (Some(Tok::Colon), Tok::Colon) => true,
            _ => false,
        }
    }

    fn parse_path(&mut self) -> (r: Result<Vec<String>, Error>)
        requires
            old(self).wf(),
        ensures
            final(self).wf(),
            final(self).toks() == old(self).toks(),
            match r {
                Ok(path) => old(self).at() < final(self).at() && path_from(
                    old(self).toks(),
                    old(self).at(),
                    Seq::empty(),
                ) == Ok::<(Seq<Seq<char>>, int), Seq<char>>((texts(path@), final(self).at())),
                Err(e) => e@ matches ErrorModel::Rpc(m) && path_from(
                    old(self).toks(),
                    old(self).at(),
                    Seq::empty(),
                ) == Err::<(Seq<Seq<char>>, int), Seq<char>>(m),
            },
    {
        let ghost t = self.toks();
        let ghost whole = path_from(t, self.at(), Seq::empty());
        let mut path: Vec<String> = Vec::new();
        assert(texts(path@) == Seq::<Seq<char>>::empty());
        loop
            invariant
                self.wf(),
                self.toks() == t,
                t == old(self).toks(),
                old(self).at() <= self.at(),
                whole == path_from(t, old(self).at(), Seq::empty()),
                whole == path_from(t, self.at(), texts(path@)),
            decreases t.len() - self.at(),
        {
            let name: String = match self.peek() {
                Some(Tok::Ident(name)) => name.clone(),
                _ => {
                    return Err(self.complain("expected identifier", "expected identifier"));
                },
            };
            self.bump();
            proof {
                texts_push(path@, name);
            }
            path.push(name);
            if self.sees(&Tok::Dot) {
                self.bump();
            } else {
                return Ok(path);
            }
        }
    }

    /// Reads a call.
    pub fn parse_dotted_call(&mut self) -> (r: Result<DslCall, Error>)
        requires
            old(self).wf(),
        ensures
            final(self).wf(),
            final(self).toks() == old(self).toks(),
            match r {
                Ok(call) => old(self).at() < final(self).at() && call_at(
                    old(self).toks(),
                    old(self).at(),
                ) == Ok::<(CallModel, int), Seq<char>>((call@, final(self).at())),
                Err(e) => e@ matches ErrorModel::Rpc(m) && call_at(old(self).toks(), old(self).at())
                    == Err::<(CallModel, int), Seq<char>>(m),
            },
        decreases old(self).toks().len() - old(self).at(), 1int,
    {
        broadcast use call_view;

        let path: Vec<String> = match self.parse_path() {
            Ok(path) => path,
            Err(e) => {
                return Err(e);
            },
        };
        if self.sees(&Tok::LParen) {
            self.bump();
            match self.parse_arg_list() {
                Ok((positional, kwargs)) => {
                    let call = DslCall { path, positional, kwargs };
                    assert(call@ == CallModel {
                        path: texts(path@),
                        positional: arg_models(positional@),
                        kwargs: arg_entry_models(kwargs@),
                    });
                    Ok(call)
                },
                Err(e) => Err(e),
            }
        } else {
            let positional: Vec<Arg> = Vec::new();
            let kwargs: Fields<Arg> = Fields::new();
            assert(arg_models(positional@) == Seq::<ArgModel>::empty());
            assert(arg_entry_models(kwargs@) == Seq::<(Seq<char>, ArgModel)>::empty());
            let call = DslCall { path, positional, kwargs };
            assert(call@ == CallModel {
                path: texts(path@),
                positional: Seq::empty(),
                kwargs: Seq::empty(),
            });
            Ok(call)
        }
    }

    /// Reads an argument list behind its opening parenthesis.
    pub fn parse_arg_list(&mut self) -> (r: Result<(Vec<Arg>, Fields<Arg>), Error>)
        requires
            old(self).wf(),
        ensures
            final(self).wf(),
            final(self).toks() == old(self).toks(),
            match r {
                Ok((positional, kwargs)) => old(self).at() < final(self).at() && args_at(
                    old(self).toks(),
                    old(self).at(),
                ) == Ok::<(Seq<ArgModel>, Seq<(Seq<char>, ArgModel)>, int), Seq<char>>(
                    (arg_models(positional@), arg_entry_models(kwargs@), final(self).at()),
                ),
                Err(e) => e@ matches ErrorModel::Rpc(m) && args_at(old(self).toks(), old(self).at())
                    == Err::<(Seq<ArgModel>, Seq<(Seq<char>, ArgModel)>, int), Seq<char>>(m),
            },
        decreases old(self).toks().len() - old(self).at(), 4int,
    {
        let ghost t = self.toks();
        let ghost p0 = self.at();
        let mut positional: Vec<Arg> = Vec::new();
        let mut kwargs: Fields<Arg> = Fields::new();
        assert(arg_models(positional@) == Seq::<ArgModel>::empty());
        assert(arg_entry_models(kwargs@) == Seq::<(Seq<char>, ArgModel)>::empty());
        if self.sees(&Tok::RParen) {
            self.bump();
            return Ok((positional, kwargs));
        }
        loop
            invariant
                self.wf(),
                self.toks() == t,
                t == old(self).toks(),
                p0 == old(self).at(),
                p0 <= self.at(),
                args_at(t, p0) == args_from(
                    t,
                    self.at(),
                    arg_models(positional@),
                    arg_entry_models(kwargs@),
                ),
            decreases t.len() - self.at(),
        {
            let ghost p = self.at();
            let saved: usize = self.pos;
            let mut keyword: Option<String> = match self.peek() {
                Some(Tok::Ident(name)) => Some(name.clone()),
                _ => None,
            };
            if keyword.is_some() {
                self.bump();
                if self.sees(&Tok::Eq) {
                    self.bump();
                } else {
                    self.pos = saved;
                    keyword = None;
                }
            }
            assert(keyword is Some <==> keyword_at(t, p));
            let value: Arg = match self.parse_arg() {
                Ok(value) => value,
                Err(e) => {
                    return Err(e);
                },
            };
            match keyword {
                Some(name) => {
                    proof {
                        arg_entry_models_put(kwargs@, name@, value);
                    }
                    kwargs.insert(name, value);
                },
                None => {
                    assert(arg_models(positional@.push(value)) == arg_models(positional@).push(
                        value@,
                    ));
                    positional.push(value);
                },
            }
            if self.sees(&Tok::Comma) {
                self.bump();
            } else if self.sees(&Tok::RParen) {
                self.bump();
                return Ok((positional, kwargs));
            } else {
                return Err(
                    self.complain("expected `,` or `)`", "expected `)` to close argument list"),
                );
            }
        }
    }

    /// Reads one argument.
    pub fn parse_arg(&mut self) -> (r: Result<Arg, Error>)
        requires
            old(self).wf(),
        ensures
            final(self).wf(),
            final(self).toks() == old(self).toks(),
            match r {
                Ok(arg) => old(self).at() < final(self).at() && arg_at(
                    old(self).toks(),
                    old(self).at(),
                ) == Ok::<(ArgModel, int), Seq<char>>((arg@, final(self).at())),
                Err(e) => e@ matches ErrorModel::Rpc(m) && arg_at(old(self).toks(), old(self).at())
                    == Err::<(ArgModel, int), Seq<char>>(m),
            },
        decreases old(self).toks().len() - old(self).at(), 2int,
    {
        broadcast use arg_view;

        let plain: Option<Arg> = match self.peek() {
            Some(Tok::String(s)) => Some(Arg::String(s.clone())),
            Some(Tok::Regex(s)) => Some(Arg::Regex(s.clone())),
            Some(Tok::Int(n)) => Some(Arg::Int(*n)),
            Some(Tok::Duration(d)) => Some(Arg::Duration(*d)),
            Some(Tok::Ident(name)) => if same(name.as_str(), "true") {
                Some(Arg::Bool(true))
            } else if same(name.as_str(), "false") {
                Some(Arg::Bool(false))
            } else if same(name.as_str(), "null") || same(name.as_str(), "nil") {
                Some(Arg::Null)
            } else {
                None
            },
            _ => None,
        };
        if let Some(arg) = plain {
            self.bump();
            return Ok(arg);
        }
        match self.peek() {
            Some(Tok::Ident(_)) => match self.parse_dotted_call() {
                Ok(call) => Ok(Arg::Call(call)),
                Err(e) => Err(e),
            },
            Some(Tok::LBracket) => {
                self.bump();
                match self.parse_list() {
                    Ok(items) => Ok(Arg::List(items)),
                    Err(e) => Err(e),
                }
            },
            Some(Tok::LBrace) => {
                self.bump();
                match self.parse_object() {
                    Ok(fields) => Ok(Arg::Object(fields)),
                    Err(e) => Err(e),
                }
            },
            _ => Err(self.complain("expected argument", "expected argument")),
        }
    }

    /// Reads a list behind its opening bracket.
    pub fn parse_list(&mut self) -> (r: Result<Vec<Arg>, Error>)
        requires
            old(self).wf(),
        ensures
            final(self).wf(),
            final(self).toks() == old(self).toks(),
            match r {
                Ok(items) => old(self).at() < final(self).at() && list_at(
                    old(self).toks(),
                    old(self).at(),
                ) == Ok::<(Seq<ArgModel>, int), Seq<char>>((arg_models(items@), final(self).at())),
                Err(e) => e@ matches ErrorModel::Rpc(m) && list_at(old(self).toks(), old(self).at())
                    == Err::<(Seq<ArgModel>, int), Seq<char>>(m),
            },
        decreases old(self).toks().len() - old(self).at(), 4int,
    {
        let ghost t = self.toks();
        let ghost p0 = self.at();
        let mut items: Vec<Arg> = Vec::new();
        assert(arg_models(items@) == Seq::<ArgModel>::empty());
        if self.sees(&Tok::RBracket) {
            self.bump();
            return Ok(items);
        }
        loop
            invariant
                self.wf(),
                self.toks() == t,
                t == old(self).toks(),
                p0 == old(self).at(),
                p0 <= self.at(),
                list_at(t, p0) == list_from(t, self.at(), arg_models(items@)),
            decreases t.len() - self.at(),
        {
            let value: Arg = match self.parse_arg() {
                Ok(value) => value,
                Err(e) => {
                    return Err(e);
                },
            };
            assert(arg_models(items@.push(value)) == arg_models(items@).push(value@));
            items.push(value);
            if self.sees(&Tok::Comma) {
                self.bump();
            } else if self.sees(&Tok::RBracket) {
                self.bump();
                return Ok(items);
            } else {
                return Err(self.complain("expected `,` or `]`", "expected `]` to close list"));
            }
        }
    }

    /// Reads an object behind its opening brace.
    pub fn parse_object(&mut self) -> (r: Result<Fields<Arg>, Error>)
        requires
            old(self).wf(),
        ensures
            final(self).wf(),
            final(self).toks() == old(self).toks(),
            match r {
                Ok(fields) => old(self).at() < final(self).at() && object_at(
                    old(self).toks(),
                    old(self).at(),
                ) == Ok::<(Seq<(Seq<char>, ArgModel)>, int), Seq<char>>(
                    (arg_entry_models(fields@), final(self).at()),
                ),
                Err(e) => e@ matches ErrorModel::Rpc(m) && object_at(
                    old(self).toks(),
                    old(self).at(),
                ) == Err::<(Seq<(Seq<char>, ArgModel)>, int), Seq<char>>(m),
            },
        decreases old(self).toks().len() - old(self).at(), 4int,
    {
        let ghost t = self.toks();
        let ghost p0 = self.at();
        let mut fields: Fields<Arg> = Fields::new();
        assert(arg_entry_models(fields@) == Seq::<(Seq<char>, ArgModel)>::empty());
        if self.sees(&Tok::RBrace) {
            self.bump();
            return Ok(fields);
        }
        loop
            invariant
                self.wf(),
                self.toks() == t,
                t == old(self).toks(),
                p0 == old(self).at(),
                p0 <= self.at(),
                object_at(t, p0) == object_from(t, self.at(), arg_entry_models(fields@)),
            decreases t.len() - self.at(),
        {
            let key: String = match self.peek() {
                Some(Tok::Ident(key)) => key.clone(),
                Some(Tok::String(key)) => key.clone(),
                _ => {
                    return Err(self.complain("expected object key", "expected object key"));
                },
            };
            self.bump();
            if !self.sees(&Tok::Colon) && !self.sees(&Tok::Eq) {
                return Err(
                    self.complain(
                        "expected `:` or `=` after object key",
                        "expected `:` or `=` after object key",
                    ),
                );
            }
            self.bump();
            let value: Arg = match self.parse_arg() {
                Ok(value) => value,
                Err(e) => {
                    return Err(e);
                },
            };
            proof {
                arg_entry_models_put(fields@, key@, value);
            }
            fields.insert(key, value);
            if self.sees(&Tok::Comma) {
                self.bump();
            } else if self.sees(&Tok::RBrace) {
                self.bump();
                return Ok(fields);
            } else {
                return Err(self.complain("expected `,` or `}`", "expected `}` to close object"));
            }
        }
    }
}

} // verus!
