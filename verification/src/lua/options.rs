//! Reading the named options of a call.

use crate::error::{Error, ErrorModel};
use crate::json::{no_fields, number, text_list, Json, JsonModel};
use crate::lua::{pairs_of, LuaKey, LuaKind, LuaTable, LuaValue, Pairs};
use crate::text::{decimal_int, decimal_int_text, join, same, texts};
use vstd::prelude::*;

verus! {

broadcast use vstd::string::group_string_axioms;

/// The keys and values that are looked at.
pub type Borrowed<'a> = Vec<(&'a LuaKey, &'a LuaValue)>;

/// What stands at a name, from the `i`-th pair on.
pub open spec fn at_name_from(pairs: Pairs, name: Seq<char>, i: int) -> Option<LuaValue>
    decreases pairs.len() - i,
{
    if i < 0 || i >= pairs.len() {
        None
    } else if pairs[i].0.names(name) {
        Some(pairs[i].1)
    } else {
        at_name_from(pairs, name, i + 1)
    }
}

/// What stands at a name.
pub open spec fn at_name(pairs: Pairs, name: Seq<char>) -> Option<LuaValue> {
    at_name_from(pairs, name, 0)
}

/// Whether a key is the name.
fn key_names(key: &LuaKey, name: &str) -> (r: bool)
    ensures
        r == key.names(name@),
{
    match key {
        LuaKey::Text(Ok(s)) => same(s.as_str(), name),
        _ => false,
    }
}

/// What stands at a name.
pub fn find_name<'a>(pairs: &Borrowed<'a>, name: &str) -> (r: Option<&'a LuaValue>)
    ensures
        match r {
            Some(v) => at_name(pairs_of(pairs@), name@) == Some(*v),
            None => at_name(pairs_of(pairs@), name@) is None,
        },
{
    let ghost all = pairs_of(pairs@);
    let mut i: usize = 0;
    while i < pairs.len()
        invariant
            i <= pairs@.len(),
            all == pairs_of(pairs@),
            at_name(all, name@) == at_name_from(all, name@, i as int),
        decreases pairs@.len() - i,
    {
        let pair: (&'a LuaKey, &'a LuaValue) = pairs[i];
        assert(all[i as int] == (*pair.0, *pair.1));
        if key_names(pair.0, name) {
            return Some(pair.1);
        }
        i += 1;
    }
    None
}

/// An optional value as a text: nil is none.
pub open spec fn text_at(pairs: Pairs, name: Seq<char>) -> Result<Option<Seq<char>>, ErrorModel> {
    match at_name(pairs, name) {
        None => Ok(None),
        Some(v) => if v.kind is Nil {
            Ok(None)
        } else {
            match v.text {
                Ok(s) => Ok(Some(s@)),
                Err(e) => Err(ErrorModel::Lua(e@)),
            }
        },
    }
}

/// An optional value as an integer: nil is none.
pub open spec fn integer_at(pairs: Pairs, name: Seq<char>) -> Result<Option<i64>, ErrorModel> {
    match at_name(pairs, name) {
        None => Ok(None),
        Some(v) => if v.kind is Nil {
            Ok(None)
        } else {
            match v.integer {
                Ok(n) => Ok(Some(n)),
                Err(e) => Err(ErrorModel::Lua(e@)),
            }
        },
    }
}

/// An optional value as a flag: nil is none.
pub open spec fn flag_at(pairs: Pairs, name: Seq<char>) -> Result<Option<bool>, ErrorModel> {
    match at_name(pairs, name) {
        None => Ok(None),
        Some(v) => if v.kind is Nil {
            Ok(None)
        } else {
            match v.flag {
                Ok(b) => Ok(Some(b)),
                Err(e) => Err(ErrorModel::Lua(e@)),
            }
        },
    }
}

/// Whether a value is nil.
pub fn is_nil(value: &LuaValue) -> (r: bool)
    ensures
        r == (value.kind is Nil),
{
    match value.kind {
        LuaKind::Nil => true,
        _ => false,
    }
}

/// An optional value as a text.
pub fn text_option<'a>(pairs: &Borrowed<'a>, name: &str) -> (r: Result<Option<String>, Error>)
    ensures
        text_at(pairs_of(pairs@), name@) == (match r {
            Ok(Some(s)) => Ok::<Option<Seq<char>>, ErrorModel>(Some(s@)),
            Ok(None) => Ok(None),
            Err(e) => Err(e@),
        }),
{
    match find_name(pairs, name) {
        None => Ok(None),
        Some(v) => if is_nil(v) {
            Ok(None)
        } else {
            match &v.text {
                Ok(s) => Ok(Some(s.clone())),
                Err(e) => Err(Error::Lua(e.clone())),
            }
        },
    }
}

/// An optional value as an integer.
pub fn integer_option<'a>(pairs: &Borrowed<'a>, name: &str) -> (r: Result<Option<i64>, Error>)
    ensures
        integer_at(pairs_of(pairs@), name@) == (match r {
            Ok(o) => Ok::<Option<i64>, ErrorModel>(o),
            Err(e) => Err(e@),
        }),
{
    match find_name(pairs, name) {
        None => Ok(None),
        Some(v) => if is_nil(v) {
            Ok(None)
        } else {
            match &v.integer {
                Ok(n) => Ok(Some(*n)),
                Err(e) => Err(Error::Lua(e.clone())),
            }
        },
    }
}

/// An optional value as a flag.
pub fn flag_option<'a>(pairs: &Borrowed<'a>, name: &str) -> (r: Result<Option<bool>, Error>)
    ensures
        flag_at(pairs_of(pairs@), name@) == (match r {
            Ok(o) => Ok::<Option<bool>, ErrorModel>(o),
            Err(e) => Err(e@),
        }),
{
    match find_name(pairs, name) {
        None => Ok(None),
        Some(v) => if is_nil(v) {
            Ok(None)
        } else {
            match &v.flag {
                Ok(b) => Ok(Some(*b)),
                Err(e) => Err(Error::Lua(e.clone())),
            }
        },
    }
}

// ---- the prior adapter --------------------------------------------------

/// The prior adapter of `session.resume`. The long name wins over the short
/// one; a bad value at the long name is an error and not passed over.
pub open spec fn prior_at(pairs: Pairs) -> Result<Option<Seq<char>>, ErrorModel> {
    match text_at(pairs, "prior_adapter"@) {
        Err(e) => Err(e),
        Ok(Some(s)) => Ok(Some(s)),
        Ok(None) => text_at(pairs, "prior"@),
    }
}

/// The prior adapter of `session.resume`.
pub fn resolve_prior_alias<'a>(pairs: &Borrowed<'a>) -> (r: Result<Option<String>, Error>)
    ensures
        prior_at(pairs_of(pairs@)) == (match r {
            Ok(Some(s)) => Ok::<Option<Seq<char>>, ErrorModel>(Some(s@)),
            Ok(None) => Ok(None),
            Err(e) => Err(e@),
        }),
{
    match text_option(pairs, "prior_adapter") {
        Ok(Some(s)) => Ok(Some(s)),
        Ok(None) => text_option(pairs, "prior"),
        Err(e) => Err(e),
    }
}

// ---- the options of a started adapter -----------------------------------

/// The record of texts that the first `n` pairs of a table make.
pub open spec fn env_of(pairs: Pairs, n: int) -> Result<JsonModel, ErrorModel>
    decreases n,
{
    if n <= 0 {
        Ok(no_fields())
    } else {
        match env_of(pairs, n - 1) {
            Err(e) => Err(e),
            Ok(record) => match pairs[n - 1].0.read() {
                Err(e) => Err(ErrorModel::Lua(e)),
                Ok(name) => match pairs[n - 1].1.text {
                    Err(e) => Err(ErrorModel::Lua(e@)),
                    Ok(value) => Ok(record.with(name, JsonModel::Str(value@))),
                },
            },
        }
    }
}

/// Once a pair is in error, so are all longer beginnings.
proof fn env_error_stays(pairs: Pairs, n: int, m: int)
    requires
        0 <= n <= m,
        env_of(pairs, n) is Err,
    ensures
        env_of(pairs, m) == env_of(pairs, n),
    decreases m,
{
    if n < m {
        env_error_stays(pairs, n, m - 1);
    }
}

/// The record of texts that a table makes.
pub fn env_json(table: &LuaTable) -> (r: Result<Json, Error>)
    ensures
        params_model(r) == env_of(table.pairs@, table.pairs@.len() as int),
{
    let mut out: Json = Json::object();
    let n: usize = table.pairs.len();
    let mut i: usize = 0;
    while i < n
        invariant
            i <= n == table.pairs@.len(),
            env_of(table.pairs@, i as int) == Ok::<JsonModel, ErrorModel>(out@),
        decreases n - i,
    {
        let pair: &(LuaKey, LuaValue) = &table.pairs[i];
        let name: String = match pair.0.read_text() {
            Ok(name) => name,
            Err(e) => {
                proof {
                    env_error_stays(table.pairs@, i + 1, n as int);
                }
                return Err(Error::Lua(e));
            },
        };
        match &pair.1.text {
            Ok(s) => {
                out = out.with(name.as_str(), Json::text(s.as_str()));
            },
            Err(e) => {
                proof {
                    env_error_stays(table.pairs@, i + 1, n as int);
                }
                return Err(Error::Lua(e.clone()));
            },
        }
        i += 1;
    }
    Ok(out)
}

/// Adds an optional text.
pub open spec fn add_text(
    params: Result<JsonModel, ErrorModel>,
    pairs: Pairs,
    name: Seq<char>,
) -> Result<JsonModel, ErrorModel> {
    match params {
        Err(e) => Err(e),
        Ok(j) => match text_at(pairs, name) {
            Err(e) => Err(e),
            Ok(Some(s)) => Ok(j.with(name, JsonModel::Str(s))),
            Ok(None) => Ok(j),
        },
    }
}

/// Adds the arguments, a list of texts, where there is something at `args`.
pub open spec fn add_args(params: Result<JsonModel, ErrorModel>, pairs: Pairs) -> Result<
    JsonModel,
    ErrorModel,
> {
    match params {
        Err(e) => Err(e),
        Ok(j) => match at_name(pairs, "args"@) {
            None => Ok(j),
            Some(v) => match v.texts {
                Err(e) => Err(ErrorModel::Lua(e@)),
                Ok(list) => Ok(j.with("args"@, text_list(texts(list@)))),
            },
        },
    }
}

/// Adds the environment, a record of texts, where there is something at
/// `env`.
pub open spec fn add_env(params: Result<JsonModel, ErrorModel>, pairs: Pairs) -> Result<
    JsonModel,
    ErrorModel,
> {
    match params {
        Err(e) => Err(e),
        Ok(j) => match at_name(pairs, "env"@) {
            None => Ok(j),
            Some(v) => match v.table {
                Err(e) => Err(ErrorModel::Lua(e@)),
                Ok(table) => match env_of(table.pairs@, table.pairs@.len() as int) {
                    Err(e) => Err(e),
                    Ok(record) => Ok(j.with("env"@, record)),
                },
            },
        },
    }
}

/// Adds an optional number of 16 bits.
pub open spec fn add_size(
    params: Result<JsonModel, ErrorModel>,
    pairs: Pairs,
    name: Seq<char>,
) -> Result<JsonModel, ErrorModel> {
    match params {
        Err(e) => Err(e),
        Ok(j) => match integer_at(pairs, name) {
            Err(e) => Err(e),
            Ok(None) => Ok(j),
            Ok(Some(n)) => if 0 <= n <= u16::MAX {
                Ok(j.with(name, JsonModel::Num(number(n as int))))
            } else {
                Err(
                    ErrorModel::Rpc(
                        name + "= expected 0..65535, got "@ + decimal_int(n as int),
                    ),
                )
            },
        },
    }
}

/// The names that a started adapter knows.
pub open spec fn known_options() -> Seq<Seq<char>> {
    seq![
        "program"@,
        "cwd"@,
        "args"@,
        "env"@,
        "rows"@,
        "cols"@,
        "pixel_width"@,
        "pixel_height"@,
        "prior_adapter"@,
        "prior"@,
    ]
}

/// The error for the first text key, from the `i`-th pair on, that is not a
/// known name.
pub open spec fn unknown_from(pairs: Pairs, i: int) -> Option<ErrorModel>
    decreases pairs.len() - i,
{
    if i < 0 || i >= pairs.len() {
        None
    } else {
        match pairs[i].0 {
            LuaKey::Text(Err(e)) => Some(ErrorModel::Lua(e@)),
            LuaKey::Text(Ok(s)) => if known_options().contains(s@) {
                unknown_from(pairs, i + 1)
            } else {
                Some(
                    ErrorModel::Rpc(
                        "unknown session option `"@ + s@ + "`; expected one of: "@ + join(
                            known_options(),
                            ", "@,
                        ),
                    ),
                )
            },
            _ => unknown_from(pairs, i + 1),
        }
    }
}

/// The parameters of `adapter.start` and `adapter.resume`. Unknown options
/// are refused.
pub open spec fn start_params(plugin: Seq<char>, pairs: Pairs) -> Result<JsonModel, ErrorModel> {
    let plugin = Ok(no_fields().with("plugin"@, JsonModel::Str(plugin)));
    let texts = add_text(add_text(plugin, pairs, "program"@), pairs, "cwd"@);
    let lists = add_env(add_args(texts, pairs), pairs);
    let cells = add_size(add_size(lists, pairs, "rows"@), pairs, "cols"@);
    let all = add_size(add_size(cells, pairs, "pixel_width"@), pairs, "pixel_height"@);
    match all {
        Err(e) => Err(e),
        Ok(params) => match unknown_from(pairs, 0) {
            Some(e) => Err(e),
            None => Ok(params),
        },
    }
}

/// What a request's parameters are, or why there are none.
pub open spec fn params_model(r: Result<Json, Error>) -> Result<JsonModel, ErrorModel> {
    match r {
        Ok(j) => Ok(j@),
        Err(e) => Err(e@),
    }
}

fn with_text<'a>(params: Json, pairs: &Borrowed<'a>, name: &str) -> (r: Result<Json, Error>)
    ensures
        params_model(r) == add_text(Ok(params@), pairs_of(pairs@), name@),
{
    match text_option(pairs, name) {
        Ok(Some(s)) => Ok(params.with(name, Json::text(s.as_str()))),
        Ok(None) => Ok(params),
        Err(e) => Err(e),
    }
}

fn with_args<'a>(params: Json, pairs: &Borrowed<'a>) -> (r: Result<Json, Error>)
    ensures
        params_model(r) == add_args(Ok(params@), pairs_of(pairs@)),
{
    match find_name(pairs, "args") {
        None => Ok(params),
        Some(v) => match &v.texts {
            Ok(list) => Ok(params.with("args", Json::texts(list))),
            Err(e) => Err(Error::Lua(e.clone())),
        },
    }
}

fn with_env<'a>(params: Json, pairs: &Borrowed<'a>) -> (r: Result<Json, Error>)
    ensures
        params_model(r) == add_env(Ok(params@), pairs_of(pairs@)),
{
    match find_name(pairs, "env") {
        None => Ok(params),
        Some(v) => match &v.table {
            Ok(table) => match env_json(table) {
                Ok(env) => Ok(params.with("env", env)),
                Err(e) => Err(e),
            },
            Err(e) => Err(Error::Lua(e.clone())),
        },
    }
}

fn with_size<'a>(params: Json, pairs: &Borrowed<'a>, name: &str) -> (r: Result<Json, Error>)
    ensures
        params_model(r) == add_size(Ok(params@), pairs_of(pairs@), name@),
{
    match integer_option(pairs, name) {
        Ok(Some(n)) => if 0 <= n && n <= u16::MAX as i64 {
            Ok(params.with(name, Json::unsigned(n as u64)))
        } else {
            let mut message: String = name.to_owned();
            message.push_str("= expected 0..65535, got ");
            message.push_str(decimal_int_text(n).as_str());
            Err(Error::Rpc(message))
        },
        Ok(None) => Ok(params),
        Err(e) => Err(e),
    }
}

/// The names that a started adapter knows.
fn known_names() -> (r: Vec<String>)
    ensures
        texts(r@) == known_options(),
{
    let r: Vec<String> = vec![
        "program".to_owned(),
        "cwd".to_owned(),
        "args".to_owned(),
        "env".to_owned(),
        "rows".to_owned(),
        "cols".to_owned(),
        "pixel_width".to_owned(),
        "pixel_height".to_owned(),
        "prior_adapter".to_owned(),
        "prior".to_owned(),
    ];
    assert(texts(r@) =~= known_options());
    r
}

/// The error for the first text key that is not a known name.
fn unknown_option<'a>(pairs: &Borrowed<'a>) -> (r: Option<Error>)
    ensures
        unknown_from(pairs_of(pairs@), 0) == (match r {
            Some(e) => Some(e@),
            None => None,
        }),
{
    let known: Vec<String> = known_names();
    let ghost all = pairs_of(pairs@);
    let mut i: usize = 0;
    while i < pairs.len()
        invariant
            i <= pairs@.len(),
            all == pairs_of(pairs@),
            texts(known@) == known_options(),
            unknown_from(all, 0) == unknown_from(all, i as int),
        decreases pairs@.len() - i,
    {
        let pair: (&'a LuaKey, &'a LuaValue) = pairs[i];
        assert(all[i as int] == (*pair.0, *pair.1));
        match pair.0 {
            LuaKey::Text(Ok(s)) => if !crate::text::listed(&known, s.as_str()) {
                let mut message: String = "unknown session option `".to_owned();
                message.push_str(s.as_str());
                message.push_str("`; expected one of: ");
                message.push_str(crate::text::joined(&known, ", ").as_str());
                return Some(Error::Rpc(message));
            },
            LuaKey::Text(Err(e)) => {
                return Some(Error::Lua(e.clone()));
            },
            _ => {},
        }
        i += 1;
    }
    None
}

/// The parameters of `adapter.start` and `adapter.resume`.
pub fn build_adapter_start_params<'a>(plugin: &str, pairs: &Borrowed<'a>) -> (r: Result<
    Json,
    Error,
>)
    ensures
        params_model(r) == start_params(plugin@, pairs_of(pairs@)),
{
    let plugin_only: Json = Json::object().with("plugin", Json::text(plugin));
    let program: Json = match with_text(plugin_only, pairs, "program") {
        Ok(j) => j,
        Err(e) => return Err(e),
    };
    let cwd: Json = match with_text(program, pairs, "cwd") {
        Ok(j) => j,
        Err(e) => return Err(e),
    };
    let args: Json = match with_args(cwd, pairs) {
        Ok(j) => j,
        Err(e) => return Err(e),
    };
    let env: Json = match with_env(args, pairs) {
        Ok(j) => j,
        Err(e) => return Err(e),
    };
    let rows: Json = match with_size(env, pairs, "rows") {
        Ok(j) => j,
        Err(e) => return Err(e),
    };
    let cols: Json = match with_size(rows, pairs, "cols") {
        Ok(j) => j,
        Err(e) => return Err(e),
    };
    let width: Json = match with_size(cols, pairs, "pixel_width") {
        Ok(j) => j,
        Err(e) => return Err(e),
    };
    let params: Json = match with_size(width, pairs, "pixel_height") {
        Ok(j) => j,
        Err(e) => return Err(e),
    };
    match unknown_option(pairs) {
        Some(e) => Err(e),
        None => Ok(params),
    }
}

} // verus!
