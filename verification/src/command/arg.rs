//! Arguments and calls of the command language.

use crate::duration::{saturated, Duration};
use crate::fields::{increasing, lookup, put, put_last, Fields};
use crate::json::{entry_models, json_view, models, number, Json, JsonModel};
use crate::text::{
    debug_str, decimal, decimal_int, decimal_int_text, decimal_text, join, joined, str_debug, texts,
};
use vstd::prelude::*;

verus! {

broadcast use vstd::string::group_string_axioms;

/// A call by a dotted path: `path(positional, name = value)`.
#[derive(Debug, PartialEq)]
pub struct DslCall {
    pub path: Vec<String>,
    pub positional: Vec<Arg>,
    pub kwargs: Fields<Arg>,
}

#[derive(Debug, PartialEq)]
pub enum Arg {
    String(String),
    Regex(String),
    Duration(Duration),
    Int(i64),
    Bool(bool),
    Null,
    List(Vec<Arg>),
    Object(Fields<Arg>),
    Call(DslCall),
}

/// What a call says. Keyword arguments stand in the order of their names.
pub struct CallModel {
    pub path: Seq<Seq<char>>,
    pub positional: Seq<ArgModel>,
    pub kwargs: Seq<(Seq<char>, ArgModel)>,
}

/// What an argument says.
pub enum ArgModel {
    String(Seq<char>),
    Regex(Seq<char>),
    Duration(Duration),
    Int(i64),
    Bool(bool),
    Null,
    List(Seq<ArgModel>),
    Object(Seq<(Seq<char>, ArgModel)>),
    Call(CallModel),
}

// ---- views --------------------------------------------------------------

pub open(crate) spec fn arg_model(a: Arg) -> ArgModel
    decreases a,
{
    match a {
        Arg::String(s) => ArgModel::String(s@),
        Arg::Regex(s) => ArgModel::Regex(s@),
        Arg::Duration(d) => ArgModel::Duration(d),
        Arg::Int(n) => ArgModel::Int(n),
        Arg::Bool(b) => ArgModel::Bool(b),
        Arg::Null => ArgModel::Null,
        Arg::List(items) => ArgModel::List(arg_items_model(items@)),
        Arg::Object(fields) => ArgModel::Object(arg_entries_model(fields.entries@)),
        Arg::Call(call) => ArgModel::Call(call_model(call)),
    }
}

pub open(crate) spec fn arg_items_model(items: Seq<Arg>) -> Seq<ArgModel>
    decreases items,
{
    if items.len() == 0 {
        Seq::empty()
    } else {
        arg_items_model(items.drop_last()).push(arg_model(items.last()))
    }
}

pub open(crate) spec fn arg_entries_model(entries: Seq<(String, Arg)>) -> Seq<
    (Seq<char>, ArgModel),
>
    decreases entries,
{
    if entries.len() == 0 {
        Seq::empty()
    } else {
        arg_entries_model(entries.drop_last()).push(
            (entries.last().0@, arg_model(entries.last().1)),
        )
    }
}

pub open(crate) spec fn call_model(call: DslCall) -> CallModel
    decreases call,
{
    CallModel {
        path: texts(call.path@),
        positional: arg_items_model(call.positional@),
        kwargs: arg_entries_model(call.kwargs.entries@),
    }
}

impl View for Arg {
    type V = ArgModel;

    open(crate) spec fn view(&self) -> ArgModel {
        arg_model(*self)
    }
}

impl View for DslCall {
    type V = CallModel;

    open(crate) spec fn view(&self) -> CallModel {
        call_model(*self)
    }
}

/// What a list of arguments says.
pub open spec fn arg_models(items: Seq<Arg>) -> Seq<ArgModel> {
    items.map_values(|a: Arg| a@)
}

/// What named arguments say.
pub open spec fn arg_entry_models(entries: Seq<(Seq<char>, Arg)>) -> Seq<(Seq<char>, ArgModel)> {
    entries.map_values(|e: (Seq<char>, Arg)| (e.0, e.1@))
}

proof fn arg_items_model_is(items: Seq<Arg>)
    ensures
        arg_items_model(items) == arg_models(items),
    decreases items.len(),
{
    if items.len() > 0 {
        arg_items_model_is(items.drop_last());
        assert(arg_models(items) == arg_models(items.drop_last()).push(items.last()@));
    } else {
        assert(arg_models(items) == Seq::<ArgModel>::empty());
    }
}

proof fn arg_entries_model_is(entries: Seq<(String, Arg)>)
    ensures
        arg_entries_model(entries) == arg_entry_models(
            entries.map_values(|e: (String, Arg)| (e.0@, e.1)),
        ),
    decreases entries.len(),
{
    let plain = entries.map_values(|e: (String, Arg)| (e.0@, e.1));
    if entries.len() > 0 {
        let init = entries.drop_last();
        arg_entries_model_is(init);
        assert(arg_entry_models(plain) == arg_entry_models(
            init.map_values(|e: (String, Arg)| (e.0@, e.1)),
        ).push((entries.last().0@, entries.last().1@)));
    } else {
        assert(arg_entry_models(plain) == Seq::<(Seq<char>, ArgModel)>::empty());
    }
}

/// What each kind of argument says.
pub broadcast proof fn arg_view(a: Arg)
    ensures
        #![trigger a@]
        a matches Arg::String(s) ==> a@ == ArgModel::String(s@),
        a matches Arg::Regex(s) ==> a@ == ArgModel::Regex(s@),
        a matches Arg::Duration(d) ==> a@ == ArgModel::Duration(d),
        a matches Arg::Int(n) ==> a@ == ArgModel::Int(n),
        a matches Arg::Bool(b) ==> a@ == ArgModel::Bool(b),
        a is Null ==> a@ == ArgModel::Null,
        a matches Arg::List(items) ==> a@ == ArgModel::List(arg_models(items@)),
        a matches Arg::Object(fields) ==> a@ == ArgModel::Object(arg_entry_models(fields@)),
        a matches Arg::Call(call) ==> a@ == ArgModel::Call(call@),
{
    match a {
        Arg::List(items) => {
            arg_items_model_is(items@);
        },
        Arg::Object(fields) => {
            arg_entries_model_is(fields.entries@);
        },
        _ => {},
    }
}

/// What a call says, by its parts.
pub broadcast proof fn call_view(call: DslCall)
    ensures
        (#[trigger] call@).path == texts(call.path@),
        call@.positional == arg_models(call.positional@),
        call@.kwargs == arg_entry_models(call.kwargs@),
{
    arg_items_model_is(call.positional@);
    arg_entries_model_is(call.kwargs.entries@);
}

pub proof fn arg_entry_models_lookup(entries: Seq<(Seq<char>, Arg)>, name: Seq<char>)
    ensures
        lookup(arg_entry_models(entries), name) == match lookup(entries, name) {
            Some(a) => Some(a@),
            None => None,
        },
    decreases entries.len(),
{
    if entries.len() > 0 {
        arg_entry_models_lookup(entries.drop_first(), name);
        assert(arg_entry_models(entries).drop_first() == arg_entry_models(entries.drop_first()));
    }
}

pub proof fn arg_entry_models_put(entries: Seq<(Seq<char>, Arg)>, name: Seq<char>, value: Arg)
    ensures
        arg_entry_models(put(entries, name, value)) == put(
            arg_entry_models(entries),
            name,
            value@,
        ),
    decreases entries.len(),
{
    let after = put(entries, name, value);
    let m = arg_entry_models(entries);
    if entries.len() > 0 {
        let rest = entries.drop_first();
        arg_entry_models_put(rest, name, value);
        assert(m.drop_first() == arg_entry_models(rest));
        if entries[0].0 == name {
            assert(arg_entry_models(after) == seq![(name, value@)] + arg_entry_models(rest));
        } else if crate::text::text_lt(name, entries[0].0) {
            assert(arg_entry_models(after) == seq![(name, value@)] + m);
        } else {
            assert(arg_entry_models(after) == seq![m[0]] + arg_entry_models(
                put(rest, name, value),
            ));
        }
    } else {
        assert(arg_entry_models(after) == seq![(name, value@)]);
    }
}

// ---- how an argument is shown -------------------------------------------

pub open spec fn flag_text(b: bool) -> Seq<char> {
    if b {
        "true"@
    } else {
        "false"@
    }
}

impl ArgModel {
    /// How an error message shows the argument.
    pub open spec fn shown(self) -> Seq<char> {
        match self {
            ArgModel::String(s) => str_debug(s),
            ArgModel::Regex(s) => "r"@ + str_debug(s),
            ArgModel::Duration(d) => decimal(d.millis() as nat) + "ms"@,
            ArgModel::Int(n) => decimal_int(n as int),
            ArgModel::Bool(b) => flag_text(b),
            ArgModel::Null => "null"@,
            ArgModel::List(items) => "["@ + decimal(items.len()) + " item(s)]"@,
            ArgModel::Object(entries) => "{"@ + decimal(entries.len()) + " key(s)}"@,
            ArgModel::Call(call) => call.shown(),
        }
    }

    /// The JSON value that stands for the argument on the wire.
    pub open spec fn to_json(self) -> JsonModel
        decreases self,
    {
        match self {
            ArgModel::String(s) => JsonModel::Str(s),
            ArgModel::Regex(s) => JsonModel::Str(s),
            ArgModel::Duration(d) => JsonModel::Num(number(saturated(d.millis()))),
            ArgModel::Int(n) => JsonModel::Num(number(n as int)),
            ArgModel::Bool(b) => JsonModel::Bool(b),
            ArgModel::Null => JsonModel::Null,
            ArgModel::List(items) => JsonModel::Arr(args_to_json(items)),
            ArgModel::Object(entries) => JsonModel::Obj(entries_to_json(entries)),
            ArgModel::Call(call) => JsonModel::Str(call.shown()),
        }
    }
}

impl CallModel {
    /// How a message shows the call.
    pub open spec fn shown(self) -> Seq<char> {
        join(self.path, "."@) + "(...)"@
    }
}

/// The JSON values that stand for a list of arguments.
pub open spec fn args_to_json(items: Seq<ArgModel>) -> Seq<JsonModel>
    decreases items,
{
    if items.len() == 0 {
        Seq::empty()
    } else {
        args_to_json(items.drop_last()).push(items.last().to_json())
    }
}

/// The JSON fields that stand for named arguments.
pub open spec fn entries_to_json(entries: Seq<(Seq<char>, ArgModel)>) -> Seq<
    (Seq<char>, JsonModel),
>
    decreases entries,
{
    if entries.len() == 0 {
        Seq::empty()
    } else {
        entries_to_json(entries.drop_last()).push((entries.last().0, entries.last().1.to_json()))
    }
}

/// A list keeps its length and order on the wire.
pub proof fn args_to_json_at(items: Seq<ArgModel>)
    ensures
        args_to_json(items).len() == items.len(),
        forall|i: int|
            0 <= i < items.len() ==> #[trigger] args_to_json(items)[i] == items[i].to_json(),
    decreases items.len(),
{
    if items.len() > 0 {
        args_to_json_at(items.drop_last());
    }
}

/// Named arguments keep their names and order on the wire.
pub proof fn entries_to_json_at(entries: Seq<(Seq<char>, ArgModel)>)
    ensures
        entries_to_json(entries).len() == entries.len(),
        forall|i: int|
            0 <= i < entries.len() ==> #[trigger] entries_to_json(entries)[i] == (
                entries[i].0,
                entries[i].1.to_json(),
            ),
    decreases entries.len(),
{
    if entries.len() > 0 {
        entries_to_json_at(entries.drop_last());
    }
}

fn counted(open: &str, n: usize, close: &str) -> (r: String)
    ensures
        r@ == open@ + decimal(n as nat) + close@,
{
    let mut out: String = open.to_owned();
    out.push_str(decimal_text(n as u128).as_str());
    out.push_str(close);
    out
}

impl Arg {
    /// How an error message shows the argument.
    pub fn shown(&self) -> (r: String)
        ensures
            r@ == self@.shown(),
    {
        broadcast use arg_view;

        match self {
            Arg::String(s) => debug_str(s.as_str()),
            Arg::Regex(s) => {
                let mut out: String = "r".to_owned();
                out.push_str(debug_str(s.as_str()).as_str());
                out
            },
            Arg::Duration(d) => {
                let mut out: String = decimal_text(d.as_millis());
                out.push_str("ms");
                out
            },
            Arg::Int(n) => decimal_int_text(*n),
            Arg::Bool(b) => if *b {
                "true".to_owned()
            } else {
                "false".to_owned()
            },
            Arg::Null => "null".to_owned(),
            Arg::List(items) => counted("[", items.len(), " item(s)]"),
            Arg::Object(fields) => counted("{", fields.len(), " key(s)}"),
            Arg::Call(call) => call.shown(),
        }
    }
}

impl DslCall {
    /// How a message shows the call.
    pub fn shown(&self) -> (r: String)
        ensures
            r@ == self@.shown(),
    {
        broadcast use call_view;

        let mut out: String = joined(&self.path, ".");
        out.push_str("(...)");
        out
    }

    /// The argument that the call names `name`, if it has one.
    pub fn kwarg(&self, name: &str) -> (r: Option<&Arg>)
        ensures
            match r {
                Some(a) => lookup(self@.kwargs, name@) == Some(a@),
                None => lookup(self@.kwargs, name@) is None,
            },
    {
        broadcast use call_view;

        proof {
            arg_entry_models_lookup(self.kwargs@, name@);
        }
        self.kwargs.get(name)
    }
}

/// The JSON value that stands for an argument on the wire.
pub fn arg_to_json(arg: &Arg) -> (r: Json)
    ensures
        r@ == arg@.to_json(),
    decreases arg,
{
    broadcast use {arg_view, json_view};

    match arg {
        Arg::String(s) => Json::text(s.as_str()),
        Arg::Regex(s) => Json::text(s.as_str()),
        Arg::Duration(d) => Json::unsigned(d.millis_saturating()),
        Arg::Int(n) => Json::signed(*n),
        Arg::Bool(b) => Json::flag(*b),
        Arg::Null => Json::Null,
        Arg::List(items) => {
            let mut out: Vec<Json> = Vec::new();
            let mut i: usize = 0;
            while i < items.len()
                invariant
                    arg == Arg::List(*items),
                    i <= items@.len(),
                    out@.len() == i,
                    forall|j: int| 0 <= j < i ==> (#[trigger] out@[j])@ == items@[j]@.to_json(),
                decreases items@.len() - i,
            {
                proof {
                    assert(decreases_to!(arg => arg->List_0));
                    assert(decreases_to!(items@ => items@[i as int]));
                }
                out.push(arg_to_json(&items[i]));
                i += 1;
            }
            proof {
                args_to_json_at(arg_models(items@));
                assert(models(out@) == args_to_json(arg_models(items@)));
            }
            Json::Arr(out)
        },
        Arg::Object(fields) => {
            proof {
                assert(decreases_to!(arg => arg->Object_0));
            }
            Json::Obj(fields_to_json(fields))
        },
        Arg::Call(call) => Json::Str(call.shown()),
    }
}

fn fields_to_json(fields: &Fields<Arg>) -> (r: Fields<Json>)
    ensures
        entry_models(r@) == entries_to_json(arg_entry_models(fields@)),
    decreases fields,
{
    let mut out: Fields<Json> = Fields::new();
    let ghost source = arg_entry_models(fields@);
    let ghost target = entries_to_json(source);
    let n: usize = fields.len();
    let mut i: usize = 0;
    proof {
        entries_to_json_at(source);
        assert(entry_models(out@) == target.take(0));
    }
    while i < n
        invariant
            i <= n == fields@.len(),
            increasing(fields@),
            source == arg_entry_models(fields@),
            target == entries_to_json(source),
            target.len() == source.len(),
            forall|j: int|
                0 <= j < source.len() ==> #[trigger] target[j] == (
                    source[j].0,
                    source[j].1.to_json(),
                ),
            out@.len() == i,
            entry_models(out@) == target.take(i as int),
        decreases n - i,
    {
        let name: String = fields.name_at(i).clone();
        proof {
            assert(decreases_to!(fields => fields.entries));
            assert(decreases_to!(fields.entries@ => fields.entries@[i as int]));
            assert(decreases_to!(fields.entries@[i as int] => fields.entries@[i as int].1));
        }
        let value: Json = arg_to_json(&fields.entries[i].1);
        proof {
            assert(target[i as int] == (name@, value@));
            assert forall|j: int| 0 <= j < out@.len() implies crate::text::text_lt(
                (#[trigger] out@[j]).0,
                name@,
            ) by {
                assert(entry_models(out@)[j].0 == out@[j].0);
                assert(target[j].0 == fields@[j].0);
                assert(crate::text::text_lt(fields@[j].0, fields@[i as int].0));
            }
            put_last(out@, name@, value);
            assert(entry_models(out@.push((name@, value))) == entry_models(out@).push(
                (name@, value@),
            ));
            assert(target.take(i + 1) == target.take(i as int).push(target[i as int]));
        }
        out.insert(name, value);
        i += 1;
    }
    assert(target.take(n as int) == target);
    out
}

/// The JSON object that stands for keyword arguments.
pub fn kwargs_to_json(kwargs: &Fields<Arg>) -> (r: Json)
    ensures
        r@ == JsonModel::Obj(entries_to_json(arg_entry_models(kwargs@))),
{
    broadcast use json_view;

    Json::Obj(fields_to_json(kwargs))
}

} // verus!
