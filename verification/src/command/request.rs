//! Reading what a request needs out of a call's arguments.

use crate::command::arg::{
    arg_entry_models, arg_models, arg_view, call_view, Arg, ArgModel, CallModel, DslCall,
};
use crate::duration::Duration;
use crate::error::{Error, ErrorModel};
use crate::fields::{lookup, Fields};
use crate::json::{no_fields, number, text_list, Json, JsonModel};
use crate::text::{decimal_int, decimal_int_text, join, joined, same, texts, texts_push};
use vstd::prelude::*;

verus! {

broadcast use vstd::string::group_string_axioms;

fn message2(a: &str, b: &str) -> (r: Error)
    ensures
        r@ == ErrorModel::Rpc(a@ + b@),
{
    let mut out: String = a.to_owned();
    out.push_str(b);
    Error::Rpc(out)
}

fn message3(a: &str, b: &str, c: &str) -> (r: Error)
    ensures
        r@ == ErrorModel::Rpc(a@ + b@ + c@),
{
    let mut out: String = a.to_owned();
    out.push_str(b);
    out.push_str(c);
    Error::Rpc(out)
}

// ---- the first positional argument --------------------------------------

/// The string that a call expects first.
pub open spec fn one_string(call: CallModel, label: Seq<char>) -> Result<Seq<char>, Seq<char>> {
    if call.positional.len() == 0 {
        Err(label + " expects a string argument"@)
    } else {
        match call.positional[0] {
            ArgModel::String(s) => Ok(s),
            other => Err(label + " expected a string argument, got "@ + other.shown()),
        }
    }
}

/// The pattern that a call expects first: a regex or a string.
pub open spec fn one_regex(call: CallModel, label: Seq<char>) -> Result<Seq<char>, Seq<char>> {
    if call.positional.len() == 0 {
        Err(label + " expects a regex argument: "@ + label + "(r\"…\")"@)
    } else {
        match call.positional[0] {
            ArgModel::Regex(s) => Ok(s),
            ArgModel::String(s) => Ok(s),
            other => Err(label + " expected a regex/string argument, got "@ + other.shown()),
        }
    }
}

/// The duration that a call expects first.
pub open spec fn one_duration(call: CallModel, label: Seq<char>) -> Result<Duration, Seq<char>> {
    if call.positional.len() == 0 {
        Err(label + " expects a duration: "@ + label + "(250ms)"@)
    } else {
        match call.positional[0] {
            ArgModel::Duration(d) => Ok(d),
            other => Err(label + " expected a duration argument, got "@ + other.shown()),
        }
    }
}

pub fn expect_one_string(call: &DslCall, label: &str) -> (r: Result<String, Error>)
    ensures
        match r {
            Ok(s) => one_string(call@, label@) == Ok::<Seq<char>, Seq<char>>(s@),
            Err(e) => e@ matches ErrorModel::Rpc(m) && one_string(call@, label@) == Err::<
                Seq<char>,
                Seq<char>,
            >(m),
        },
{
    broadcast use {arg_view, call_view};

    if call.positional.len() == 0 {
        return Err(message2(label, " expects a string argument"));
    }
    let arg: &Arg = &call.positional[0];
    assert(call@.positional[0] == arg@);
    match arg {
        Arg::String(s) => Ok(s.clone()),
        other => Err(
            message3(label, " expected a string argument, got ", other.shown().as_str()),
        ),
    }
}

pub fn expect_one_regex(call: &DslCall, label: &str) -> (r: Result<String, Error>)
    ensures
        match r {
            Ok(s) => one_regex(call@, label@) == Ok::<Seq<char>, Seq<char>>(s@),
            Err(e) => e@ matches ErrorModel::Rpc(m) && one_regex(call@, label@) == Err::<
                Seq<char>,
                Seq<char>,
            >(m),
        },
{
    broadcast use {arg_view, call_view};

    if call.positional.len() == 0 {
        let mut out: String = label.to_owned();
        out.push_str(" expects a regex argument: ");
        out.push_str(label);
        out.push_str("(r\"…\")");
        return Err(Error::Rpc(out));
    }
    let arg: &Arg = &call.positional[0];
    assert(call@.positional[0] == arg@);
    match arg {
        Arg::Regex(s) => Ok(s.clone()),
        Arg::String(s) => Ok(s.clone()),
        other => Err(
            message3(label, " expected a regex/string argument, got ", other.shown().as_str()),
        ),
    }
}

pub fn expect_one_duration(call: &DslCall, label: &str) -> (r: Result<Duration, Error>)
    ensures
        match r {
            Ok(d) => one_duration(call@, label@) == Ok::<Duration, Seq<char>>(d),
            Err(e) => e@ matches ErrorModel::Rpc(m) && one_duration(call@, label@) == Err::<
                Duration,
                Seq<char>,
            >(m),
        },
{
    broadcast use {arg_view, call_view};

    if call.positional.len() == 0 {
        let mut out: String = label.to_owned();
        out.push_str(" expects a duration: ");
        out.push_str(label);
        out.push_str("(250ms)");
        return Err(Error::Rpc(out));
    }
    let arg: &Arg = &call.positional[0];
    assert(call@.positional[0] == arg@);
    match arg {
        Arg::Duration(d) => Ok(*d),
        other => Err(
            message3(label, " expected a duration argument, got ", other.shown().as_str()),
        ),
    }
}

// ---- keyword arguments --------------------------------------------------

/// The string named `name`; another kind of value counts as missing.
pub open spec fn string_of(call: CallModel, name: Seq<char>) -> Option<Seq<char>> {
    match lookup(call.kwargs, name) {
        Some(ArgModel::String(s)) => Some(s),
        _ => None,
    }
}

/// The truth value named `name`; another kind of value counts as missing.
pub open spec fn bool_of(call: CallModel, name: Seq<char>) -> Option<bool> {
    match lookup(call.kwargs, name) {
        Some(ArgModel::Bool(b)) => Some(b),
        _ => None,
    }
}

/// The duration named `name`; another kind of value is an error.
pub open spec fn duration_of(call: CallModel, name: Seq<char>) -> Result<
    Option<Duration>,
    Seq<char>,
> {
    match lookup(call.kwargs, name) {
        None => Ok(None),
        Some(ArgModel::Duration(d)) => Ok(Some(d)),
        Some(other) => Err(name + "= expected a duration, got "@ + other.shown()),
    }
}

/// The adapter to resume from: `prior_adapter`, or else `prior`.
pub open spec fn prior_of(call: CallModel) -> Result<Option<Seq<char>>, Seq<char>> {
    match lookup(call.kwargs, "prior_adapter"@) {
        Some(ArgModel::String(s)) => Ok(Some(s)),
        Some(other) => Err("prior_adapter= expected a string, got "@ + other.shown()),
        None => match lookup(call.kwargs, "prior"@) {
            Some(ArgModel::String(s)) => Ok(Some(s)),
            Some(other) => Err("prior= expected a string, got "@ + other.shown()),
            None => Ok(None),
        },
    }
}

/// The 16-bit number named `name`.
pub open spec fn u16_of(call: CallModel, name: Seq<char>) -> Result<Option<u16>, Seq<char>> {
    match lookup(call.kwargs, name) {
        None => Ok(None),
        Some(ArgModel::Int(n)) => if 0 <= n <= 65535 {
            Ok(Some(n as u16))
        } else {
            Err(name + "= expected 0..65535, got "@ + decimal_int(n as int))
        },
        Some(other) => Err(name + "= expected an integer, got "@ + other.shown()),
    }
}

/// The strings of a list, or the first item that is none.
pub open spec fn strings_from(items: Seq<ArgModel>, i: int, sofar: Seq<Seq<char>>) -> Result<
    Seq<Seq<char>>,
    ArgModel,
>
    decreases items.len() - i,
{
    if i < 0 || i >= items.len() {
        Ok(sofar)
    } else {
        match items[i] {
            ArgModel::String(s) => strings_from(items, i + 1, sofar.push(s)),
            other => Err(other),
        }
    }
}

/// The list of strings named `name`.
pub open spec fn string_list_of(call: CallModel, name: Seq<char>) -> Result<
    Option<Seq<Seq<char>>>,
    Seq<char>,
> {
    match lookup(call.kwargs, name) {
        None => Ok(None),
        Some(ArgModel::List(items)) => match strings_from(items, 0, Seq::empty()) {
            Ok(list) => Ok(Some(list)),
            Err(other) => Err(name + "= expected a string list, got item "@ + other.shown()),
        },
        Some(other) => Err(name + "= expected a string list, got "@ + other.shown()),
    }
}

/// The string entries of an object, or the first entry that is none.
pub open spec fn string_entries_from(
    entries: Seq<(Seq<char>, ArgModel)>,
    i: int,
    sofar: Seq<(Seq<char>, Seq<char>)>,
) -> Result<Seq<(Seq<char>, Seq<char>)>, (Seq<char>, ArgModel)>
    decreases entries.len() - i,
{
    if i < 0 || i >= entries.len() {
        Ok(sofar)
    } else {
        match entries[i].1 {
            ArgModel::String(s) => string_entries_from(
                entries,
                i + 1,
                sofar.push((entries[i].0, s)),
            ),
            other => Err((entries[i].0, other)),
        }
    }
}

/// The object of strings named `name`, in the order of its keys.
pub open spec fn string_map_of(call: CallModel, name: Seq<char>) -> Result<
    Option<Seq<(Seq<char>, Seq<char>)>>,
    Seq<char>,
> {
    match lookup(call.kwargs, name) {
        None => Ok(None),
        Some(ArgModel::Object(entries)) => match string_entries_from(entries, 0, Seq::empty()) {
            Ok(map) => Ok(Some(map)),
            Err((key, other)) => Err(
                name + "= expected string values, got `"@ + key + "`="@ + other.shown(),
            ),
        },
        Some(other) => Err(name + "= expected a string object, got "@ + other.shown()),
    }
}

pub fn string_kwarg(call: &DslCall, name: &str) -> (r: Option<String>)
    ensures
        match r {
            Some(s) => string_of(call@, name@) == Some(s@),
            None => string_of(call@, name@) is None,
        },
{
    broadcast use arg_view;

    match call.kwarg(name) {
        Some(Arg::String(s)) => Some(s.clone()),
        _ => None,
    }
}

pub fn bool_kwarg(call: &DslCall, name: &str) -> (r: Option<bool>)
    ensures
        r == bool_of(call@, name@),
{
    broadcast use arg_view;

    match call.kwarg(name) {
        Some(Arg::Bool(b)) => Some(*b),
        _ => None,
    }
}

pub fn duration_kwarg(call: &DslCall, name: &str) -> (r: Result<Option<Duration>, Error>)
    ensures
        match r {
            Ok(d) => duration_of(call@, name@) == Ok::<Option<Duration>, Seq<char>>(d),
            Err(e) => e@ matches ErrorModel::Rpc(m) && duration_of(call@, name@) == Err::<
                Option<Duration>,
                Seq<char>,
            >(m),
        },
{
    broadcast use arg_view;

    match call.kwarg(name) {
        None => Ok(None),
        Some(Arg::Duration(d)) => Ok(Some(*d)),
        Some(other) => Err(message3(name, "= expected a duration, got ", other.shown().as_str())),
    }
}

pub fn prior_adapter_kwarg(call: &DslCall) -> (r: Result<Option<String>, Error>)
    ensures
        match r {
            Ok(Some(s)) => prior_of(call@) == Ok::<Option<Seq<char>>, Seq<char>>(Some(s@)),
            Ok(None) => prior_of(call@) == Ok::<Option<Seq<char>>, Seq<char>>(None),
            Err(e) => e@ matches ErrorModel::Rpc(m) && prior_of(call@) == Err::<
                Option<Seq<char>>,
                Seq<char>,
            >(m),
        },
{
    broadcast use arg_view;

    match call.kwarg("prior_adapter") {
        Some(Arg::String(s)) => {
            return Ok(Some(s.clone()));
        },
        Some(other) => {
            return Err(
                message2("prior_adapter= expected a string, got ", other.shown().as_str()),
            );
        },
        None => {},
    }
    match call.kwarg("prior") {
        Some(Arg::String(s)) => Ok(Some(s.clone())),
        Some(other) => Err(message2("prior= expected a string, got ", other.shown().as_str())),
        None => Ok(None),
    }
}

pub fn u16_kwarg(call: &DslCall, name: &str) -> (r: Result<Option<u16>, Error>)
    ensures
        match r {
            Ok(n) => u16_of(call@, name@) == Ok::<Option<u16>, Seq<char>>(n),
            Err(e) => e@ matches ErrorModel::Rpc(m) && u16_of(call@, name@) == Err::<
                Option<u16>,
                Seq<char>,
            >(m),
        },
{
    broadcast use arg_view;

    match call.kwarg(name) {
        None => Ok(None),
        Some(Arg::Int(n)) => if 0 <= *n && *n <= 65535 {
            Ok(Some(*n as u16))
        } else {
            Err(message3(name, "= expected 0..65535, got ", decimal_int_text(*n).as_str()))
        },
        Some(other) => Err(message3(name, "= expected an integer, got ", other.shown().as_str())),
    }
}

pub fn string_list_kwarg(call: &DslCall, name: &str) -> (r: Result<Option<Vec<String>>, Error>)
    ensures
        match r {
            Ok(Some(list)) => string_list_of(call@, name@) == Ok::<
                Option<Seq<Seq<char>>>,
                Seq<char>,
            >(Some(texts(list@))),
            Ok(None) => string_list_of(call@, name@) == Ok::<Option<Seq<Seq<char>>>, Seq<char>>(
                None,
            ),
            Err(e) => e@ matches ErrorModel::Rpc(m) && string_list_of(call@, name@) == Err::<
                Option<Seq<Seq<char>>>,
                Seq<char>,
            >(m),
        },
{
    broadcast use arg_view;

    let items: &Vec<Arg> = match call.kwarg(name) {
        None => {
            return Ok(None);
        },
        Some(Arg::List(items)) => items,
        Some(other) => {
            return Err(message3(name, "= expected a string list, got ", other.shown().as_str()));
        },
    };
    let ghost all = arg_models(items@);
    let mut out: Vec<String> = Vec::new();
    assert(texts(out@) == Seq::<Seq<char>>::empty());
    let mut i: usize = 0;
    while i < items.len()
        invariant
            i <= items@.len(),
            all == arg_models(items@),
            lookup(call@.kwargs, name@) == Some(ArgModel::List(all)),
            strings_from(all, 0, Seq::empty()) == strings_from(all, i as int, texts(out@)),
        decreases items@.len() - i,
    {
        let item: &Arg = &items[i];
        assert(all[i as int] == item@);
        match item {
            Arg::String(s) => {
                let s: String = s.clone();
                proof {
                    texts_push(out@, s);
                }
                out.push(s);
            },
            other => {
                return Err(
                    message3(
                        name,
                        "= expected a string list, got item ",
                        other.shown().as_str(),
                    ),
                );
            },
        }
        i += 1;
    }
    Ok(Some(out))
}

/// What a row of string pairs says.
pub open spec fn pair_texts(pairs: Seq<(String, String)>) -> Seq<(Seq<char>, Seq<char>)> {
    pairs.map_values(|p: (String, String)| (p.0@, p.1@))
}

pub fn string_map_kwarg(call: &DslCall, name: &str) -> (r: Result<
    Option<Vec<(String, String)>>,
    Error,
>)
    ensures
        match r {
            Ok(Some(map)) => string_map_of(call@, name@) == Ok::<
                Option<Seq<(Seq<char>, Seq<char>)>>,
                Seq<char>,
            >(Some(pair_texts(map@))),
            Ok(None) => string_map_of(call@, name@) == Ok::<
                Option<Seq<(Seq<char>, Seq<char>)>>,
                Seq<char>,
            >(None),
            Err(e) => e@ matches ErrorModel::Rpc(m) && string_map_of(call@, name@) == Err::<
                Option<Seq<(Seq<char>, Seq<char>)>>,
                Seq<char>,
            >(m),
        },
{
    broadcast use arg_view;

    let fields: &Fields<Arg> = match call.kwarg(name) {
        None => {
            return Ok(None);
        },
        Some(Arg::Object(fields)) => fields,
        Some(other) => {
            return Err(
                message3(name, "= expected a string object, got ", other.shown().as_str()),
            );
        },
    };
    let ghost all = arg_entry_models(fields@);
    let mut out: Vec<(String, String)> = Vec::new();
    assert(pair_texts(out@) == Seq::<(Seq<char>, Seq<char>)>::empty());
    let n: usize = fields.len();
    let mut i: usize = 0;
    while i < n
        invariant
            i <= n == fields@.len(),
            all == arg_entry_models(fields@),
            lookup(call@.kwargs, name@) == Some(ArgModel::Object(all)),
            string_entries_from(all, 0, Seq::empty()) == string_entries_from(
                all,
                i as int,
                pair_texts(out@),
            ),
        decreases n - i,
    {
        let key: &String = fields.name_at(i);
        let item: &Arg = fields.value_at(i);
        assert(all[i as int] == (key@, item@));
        match item {
            Arg::String(s) => {
                let pair: (String, String) = (key.clone(), s.clone());
                assert(pair_texts(out@.push(pair)) == pair_texts(out@).push((key@, s@)));
                out.push(pair);
            },
            other => {
                let mut message: String = name.to_owned();
                message.push_str("= expected string values, got `");
                message.push_str(key.as_str());
                message.push_str("`=");
                message.push_str(other.shown().as_str());
                return Err(Error::Rpc(message));
            },
        }
        i += 1;
    }
    Ok(Some(out))
}

// ---- parameters of `adapter.start` --------------------------------------

/// The object of string entries.
pub open spec fn text_record(pairs: Seq<(Seq<char>, Seq<char>)>) -> JsonModel
    decreases pairs.len(),
{
    if pairs.len() == 0 {
        no_fields()
    } else {
        text_record(pairs.drop_last()).with(pairs.last().0, JsonModel::Str(pairs.last().1))
    }
}

pub fn text_record_json(pairs: &Vec<(String, String)>) -> (r: Json)
    ensures
        r@ == text_record(pair_texts(pairs@)),
{
    let ghost all = pair_texts(pairs@);
    let mut out: Json = Json::object();
    let mut i: usize = 0;
    assert(all.take(0) == Seq::<(Seq<char>, Seq<char>)>::empty());
    while i < pairs.len()
        invariant
            i <= pairs@.len(),
            all == pair_texts(pairs@),
            out@ == text_record(all.take(i as int)),
        decreases pairs@.len() - i,
    {
        out = out.with(pairs[i].0.as_str(), Json::text(pairs[i].1.as_str()));
        i += 1;
        assert(all.take(i as int).drop_last() == all.take(i - 1));
        assert(all.take(i as int).last() == all[i - 1]);
    }
    assert(all.take(i as int) == all);
    out
}

/// `params` with `name` bound to the value, if there is one.
pub open spec fn with_some(params: JsonModel, name: Seq<char>, value: Option<JsonModel>) -> JsonModel {
    match value {
        Some(v) => params.with(name, v),
        None => params,
    }
}

/// The value, told as JSON.
pub open spec fn text_json(value: Option<Seq<char>>) -> Option<JsonModel> {
    match value {
        Some(s) => Some(JsonModel::Str(s)),
        None => None,
    }
}

/// The value, told as JSON.
pub open spec fn u16_json(value: Option<u16>) -> Option<JsonModel> {
    match value {
        Some(n) => Some(JsonModel::Num(number(n as int))),
        None => None,
    }
}

/// The sizes of the terminal, added to the parameters.
pub open spec fn with_sizes(params: JsonModel, call: CallModel) -> Result<JsonModel, Seq<char>> {
    match u16_of(call, "rows"@) {
        Err(m) => Err(m),
        Ok(rows) => match u16_of(call, "cols"@) {
            Err(m) => Err(m),
            Ok(cols) => match u16_of(call, "pixel_width"@) {
                Err(m) => Err(m),
                Ok(width) => match u16_of(call, "pixel_height"@) {
                    Err(m) => Err(m),
                    Ok(height) => Ok(
                        with_some(
                            with_some(
                                with_some(
                                    with_some(params, "rows"@, u16_json(rows)),
                                    "cols"@,
                                    u16_json(cols),
                                ),
                                "pixel_width"@,
                                u16_json(width),
                            ),
                            "pixel_height"@,
                            u16_json(height),
                        ),
                    ),
                },
            },
        },
    }
}

/// How to start an adapter, added to the parameters.
pub open spec fn with_start_kwargs(params: JsonModel, call: CallModel) -> Result<
    JsonModel,
    Seq<char>,
> {
    let with_program = with_some(params, "program"@, text_json(string_of(call, "program"@)));
    match string_list_of(call, "args"@) {
        Err(m) => Err(m),
        Ok(args) => {
            let with_args = with_some(
                with_program,
                "args"@,
                match args {
                    Some(list) => Some(text_list(list)),
                    None => None,
                },
            );
            let with_cwd = with_some(with_args, "cwd"@, text_json(string_of(call, "cwd"@)));
            match string_map_of(call, "env"@) {
                Err(m) => Err(m),
                Ok(env) => with_sizes(
                    with_some(
                        with_cwd,
                        "env"@,
                        match env {
                            Some(map) => Some(text_record(map)),
                            None => None,
                        },
                    ),
                    call,
                ),
            }
        },
    }
}

fn add_size(params: Json, call: &DslCall, name: &str) -> (r: Result<Json, Error>)
    ensures
        match r {
            Ok(j) => u16_of(call@, name@) matches Ok(n) && j@ == with_some(
                params@,
                name@,
                u16_json(n),
            ),
            Err(e) => e@ matches ErrorModel::Rpc(m) && u16_of(call@, name@) == Err::<
                Option<u16>,
                Seq<char>,
            >(m),
        },
{
    match u16_kwarg(call, name) {
        Ok(Some(n)) => Ok(params.with(name, Json::unsigned(n as u64))),
        Ok(None) => Ok(params),
        Err(e) => Err(e),
    }
}

/// Adds how to start an adapter to the parameters.
pub fn insert_adapter_start_kwargs(params: Json, call: &DslCall) -> (r: Result<Json, Error>)
    ensures
        match r {
            Ok(j) => with_start_kwargs(params@, call@) == Ok::<JsonModel, Seq<char>>(j@),
            Err(e) => e@ matches ErrorModel::Rpc(m) && with_start_kwargs(params@, call@) == Err::<
                JsonModel,
                Seq<char>,
            >(m),
        },
{
    let mut params: Json = params;
    if let Some(program) = string_kwarg(call, "program") {
        params = params.with("program", Json::text(program.as_str()));
    }
    match string_list_kwarg(call, "args") {
        Ok(Some(args)) => {
            params = params.with("args", Json::texts(&args));
        },
        Ok(None) => {},
        Err(e) => {
            return Err(e);
        },
    }
    if let Some(cwd) = string_kwarg(call, "cwd") {
        params = params.with("cwd", Json::text(cwd.as_str()));
    }
    match string_map_kwarg(call, "env") {
        Ok(Some(env)) => {
            params = params.with("env", text_record_json(&env));
        },
        Ok(None) => {},
        Err(e) => {
            return Err(e);
        },
    }
    params = match add_size(params, call, "rows") {
        Ok(j) => j,
        Err(e) => {
            return Err(e);
        },
    };
    params = match add_size(params, call, "cols") {
        Ok(j) => j,
        Err(e) => {
            return Err(e);
        },
    };
    params = match add_size(params, call, "pixel_width") {
        Ok(j) => j,
        Err(e) => {
            return Err(e);
        },
    };
    add_size(params, call, "pixel_height")
}

// ---- matchers -----------------------------------------------------------

/// What a wait is for.
#[derive(Debug, PartialEq)]
pub enum Matcher {
    /// The screen matches a pattern.
    Pattern(String),
    /// The screen has not changed for so long.
    Stable(Duration),
}

pub enum MatcherModel {
    Pattern(Seq<char>),
    Stable(Duration),
}

impl View for Matcher {
    type V = MatcherModel;

    open spec fn view(&self) -> MatcherModel {
        match self {
            Matcher::Pattern(s) => MatcherModel::Pattern(s@),
            Matcher::Stable(d) => MatcherModel::Stable(*d),
        }
    }
}

impl MatcherModel {
    /// Whether the wire can hold the matcher: milliseconds take 64 bits.
    pub open spec fn encodable(self) -> bool {
        self matches MatcherModel::Stable(d) ==> d.millis() <= u64::MAX
    }

    /// The parameters of the matcher's intent.
    pub open spec fn params(self) -> JsonModel {
        match self {
            MatcherModel::Pattern(s) => no_fields().with("pattern"@, JsonModel::Str(s)),
            MatcherModel::Stable(d) => no_fields().with(
                "stable_ms"@,
                JsonModel::Num(number(d.millis())),
            ),
        }
    }
}

/// The matcher that an argument stands for.
pub open spec fn matcher_of(arg: ArgModel) -> Result<MatcherModel, Seq<char>> {
    match arg {
        ArgModel::Regex(s) => Ok(MatcherModel::Pattern(s)),
        ArgModel::Duration(d) => Ok(MatcherModel::Stable(d)),
        ArgModel::Call(call) => {
            let path = join(call.path, "."@);
            if path == "matches"@ {
                match one_regex(call, "matches"@) {
                    Ok(s) => Ok(MatcherModel::Pattern(s)),
                    Err(m) => Err(m),
                }
            } else if path == "screen_stable"@ {
                match one_duration(call, "screen_stable"@) {
                    Ok(d) => Ok(MatcherModel::Stable(d)),
                    Err(m) => Err(m),
                }
            } else {
                Err(
                    "wait() does not know matcher `"@ + path
                        + "` — try matches(r\"…\") or screen_stable(250ms)"@,
                )
            }
        },
        other => Err("wait() expected a matcher, got "@ + other.shown()),
    }
}

/// The matcher that an argument stands for.
pub fn read_matcher(arg: &Arg) -> (r: Result<Matcher, Error>)
    ensures
        match r {
            Ok(matcher) => matcher_of(arg@) == Ok::<MatcherModel, Seq<char>>(matcher@),
            Err(e) => e@ matches ErrorModel::Rpc(m) && matcher_of(arg@) == Err::<
                MatcherModel,
                Seq<char>,
            >(m),
        },
{
    broadcast use {arg_view, call_view};

    match arg {
        Arg::Regex(s) => Ok(Matcher::Pattern(s.clone())),
        Arg::Duration(d) => Ok(Matcher::Stable(*d)),
        Arg::Call(call) => {
            let path: String = joined(&call.path, ".");
            if same(path.as_str(), "matches") {
                match expect_one_regex(call, "matches") {
                    Ok(s) => Ok(Matcher::Pattern(s)),
                    Err(e) => Err(e),
                }
            } else if same(path.as_str(), "screen_stable") {
                match expect_one_duration(call, "screen_stable") {
                    Ok(d) => Ok(Matcher::Stable(d)),
                    Err(e) => Err(e),
                }
            } else {
                Err(
                    message3(
                        "wait() does not know matcher `",
                        path.as_str(),
                        "` — try matches(r\"…\") or screen_stable(250ms)",
                    ),
                )
            }
        },
        other => Err(message2("wait() expected a matcher, got ", other.shown().as_str())),
    }
}

impl Matcher {
    /// Whether the wire can hold the matcher.
    pub fn encodable(&self) -> (r: bool)
        ensures
            r == self@.encodable(),
    {
        match self {
            Matcher::Pattern(_) => true,
            Matcher::Stable(d) => d.as_millis() <= u64::MAX as u128,
        }
    }

    /// The parameters of the matcher's intent.
    pub fn params(&self) -> (r: Json)
        requires
            self@.encodable(),
        ensures
            r@ == self@.params(),
    {
        match self {
            Matcher::Pattern(s) => Json::object().with("pattern", Json::text(s.as_str())),
            Matcher::Stable(d) => Json::object().with(
                "stable_ms",
                Json::unsigned(d.as_millis() as u64),
            ),
        }
    }
}

/// The intent that runs every matcher.
pub const MATCHER_INTENT: &'static str = "wait_turn_matcher";

/// The intent and parameters that an argument stands for as a matcher.
pub fn matcher_to_params(arg: &Arg) -> (r: Result<(String, Json), Error>)
    requires
        matcher_of(arg@) matches Ok(m) ==> m.encodable(),
    ensures
        match r {
            Ok((intent, params)) => matcher_of(arg@) matches Ok(m) && intent@
                == MATCHER_INTENT@ && params@ == m.params(),
            Err(e) => e@ matches ErrorModel::Rpc(m) && matcher_of(arg@) == Err::<
                MatcherModel,
                Seq<char>,
            >(m),
        },
{
    match read_matcher(arg) {
        Ok(matcher) => Ok((MATCHER_INTENT.to_owned(), matcher.params())),
        Err(e) => Err(e),
    }
}

} // verus!
