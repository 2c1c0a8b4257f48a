//! JSON values as plain data, and the two calls that turn them into text and
//! back.

use crate::fields::{increasing, lookup, put, put_last, Fields};
use vstd::prelude::*;

verus! {

broadcast use vstd::string::group_string_axioms;

// ---- outside types ------------------------------------------------------

/// `serde_json::Number`, carried through for numbers that are not integers.
#[verifier::external_type_specification]
#[verifier::external_body]
pub struct OutsideNumber(serde_json::Number);

/// `serde_json::Value`, which the library opens into [`Json`].
#[verifier::external_type_specification]
#[verifier::external_body]
pub struct OutsideValue(serde_json::Value);

/// `serde_json::Number::clone` yields the same number.
pub assume_specification[ <serde_json::Number as Clone>::clone ](
    n: &serde_json::Number,
) -> (r: serde_json::Number)
    ensures
        r == *n,
;

// ---- the library's own values -------------------------------------------

/// A number that no integer type holds. Only values that
/// `serde_json` classified so get in here.
#[derive(Debug, PartialEq)]
pub struct Float {
    number: serde_json::Number,
}

impl Clone for Float {
    fn clone(&self) -> (r: Self)
        ensures
            r == *self,
    {
        Float { number: self.number.clone() }
    }
}

#[derive(Debug, PartialEq)]
pub enum Num {
    Unsigned(u64),
    Negative(i64),
    Float(Float),
}

impl Clone for Num {
    fn clone(&self) -> (r: Self)
        ensures
            r == *self,
    {
        match self {
            Num::Unsigned(n) => Num::Unsigned(*n),
            Num::Negative(n) => Num::Negative(*n),
            Num::Float(x) => Num::Float(x.clone()),
        }
    }
}

/// The number that stands for an integer.
pub open spec fn number(n: int) -> Num {
    if n < 0 {
        Num::Negative(n as i64)
    } else {
        Num::Unsigned(n as u64)
    }
}

/// A number by its value: what is not negative counts as unsigned.
pub open spec fn normal(n: Num) -> Num {
    match n {
        Num::Negative(i) => number(i as int),
        other => other,
    }
}

#[derive(Debug, PartialEq)]
pub enum Json {
    Null,
    Bool(bool),
    Num(Num),
    Str(String),
    Arr(Vec<Json>),
    Obj(Fields<Json>),
}

/// What a JSON value says. Names of an object stand in order.
pub enum JsonModel {
    Null,
    Bool(bool),
    Num(Num),
    Str(Seq<char>),
    Arr(Seq<JsonModel>),
    Obj(Seq<(Seq<char>, JsonModel)>),
}

impl JsonModel {
    /// The value named `name`, if this is an object that has it.
    pub open spec fn field(self, name: Seq<char>) -> Option<JsonModel> {
        match self {
            JsonModel::Obj(entries) => lookup(entries, name),
            _ => None,
        }
    }

    pub open spec fn as_text(self) -> Option<Seq<char>> {
        match self {
            JsonModel::Str(s) => Some(s),
            _ => None,
        }
    }

    pub open spec fn as_flag(self) -> Option<bool> {
        match self {
            JsonModel::Bool(b) => Some(b),
            _ => None,
        }
    }

    /// The number, if it is an integer in the range of `u64`.
    pub open spec fn as_unsigned(self) -> Option<u64> {
        match self {
            JsonModel::Num(Num::Unsigned(n)) => Some(n),
            _ => None,
        }
    }

    /// The number, if it is an integer in the range of `i64`.
    pub open spec fn as_signed(self) -> Option<i64> {
        match self {
            JsonModel::Num(Num::Unsigned(n)) => if n <= i64::MAX {
                Some(n as i64)
            } else {
                None
            },
            JsonModel::Num(Num::Negative(n)) => Some(n),
            _ => None,
        }
    }

    pub open spec fn as_items(self) -> Option<Seq<JsonModel>> {
        match self {
            JsonModel::Arr(items) => Some(items),
            _ => None,
        }
    }

    /// The text named `name`, if there is one.
    pub open spec fn text_field(self, name: Seq<char>) -> Option<Seq<char>> {
        match self.field(name) {
            Some(v) => v.as_text(),
            None => None,
        }
    }

    /// The truth value named `name`, if there is one.
    pub open spec fn flag_field(self, name: Seq<char>) -> Option<bool> {
        match self.field(name) {
            Some(v) => v.as_flag(),
            None => None,
        }
    }

    /// The unsigned integer named `name`, if there is one.
    pub open spec fn unsigned_field(self, name: Seq<char>) -> Option<u64> {
        match self.field(name) {
            Some(v) => v.as_unsigned(),
            None => None,
        }
    }

    /// The list named `name`, if there is one.
    pub open spec fn items_field(self, name: Seq<char>) -> Option<Seq<JsonModel>> {
        match self.field(name) {
            Some(v) => v.as_items(),
            None => None,
        }
    }

    /// The value named `inner` in the object named `outer`, if there is one.
    pub open spec fn inner_field(self, outer: Seq<char>, inner: Seq<char>) -> Option<JsonModel> {
        match self.field(outer) {
            Some(v) => v.field(inner),
            None => None,
        }
    }

    /// The text named `inner` in the object named `outer`, if there is one.
    pub open spec fn inner_text(self, outer: Seq<char>, inner: Seq<char>) -> Option<Seq<char>> {
        match self.inner_field(outer, inner) {
            Some(v) => v.as_text(),
            None => None,
        }
    }

    /// The unsigned integer named `inner` in the object named `outer`, if
    /// there is one.
    pub open spec fn inner_unsigned(self, outer: Seq<char>, inner: Seq<char>) -> Option<u64> {
        match self.inner_field(outer, inner) {
            Some(v) => v.as_unsigned(),
            None => None,
        }
    }

    /// The object with `name` bound to `value` as well.
    pub open spec fn with(self, name: Seq<char>, value: JsonModel) -> JsonModel {
        match self {
            JsonModel::Obj(entries) => JsonModel::Obj(put(entries, name, value)),
            _ => self,
        }
    }
}

/// The object without fields.
pub open spec fn no_fields() -> JsonModel {
    JsonModel::Obj(Seq::empty())
}

/// The list of texts.
pub open spec fn text_list(items: Seq<Seq<char>>) -> JsonModel {
    JsonModel::Arr(items.map_values(|s: Seq<char>| JsonModel::Str(s)))
}

impl Json {
    pub open(crate) spec fn model(&self) -> JsonModel
        decreases self,
    {
        match self {
            Json::Null => JsonModel::Null,
            Json::Bool(b) => JsonModel::Bool(*b),
            Json::Num(n) => JsonModel::Num(normal(*n)),
            Json::Str(s) => JsonModel::Str(s@),
            Json::Arr(items) => JsonModel::Arr(Json::items_model(items@)),
            Json::Obj(fields) => JsonModel::Obj(Json::entries_model(fields.entries@)),
        }
    }

    pub open(crate) spec fn items_model(items: Seq<Json>) -> Seq<JsonModel>
        decreases items,
    {
        if items.len() == 0 {
            Seq::empty()
        } else {
            Json::items_model(items.drop_last()).push(items.last().model())
        }
    }

    pub open(crate) spec fn entries_model(entries: Seq<(String, Json)>) -> Seq<
        (Seq<char>, JsonModel),
    >
        decreases entries,
    {
        if entries.len() == 0 {
            Seq::empty()
        } else {
            Json::entries_model(entries.drop_last()).push(
                (entries.last().0@, entries.last().1.model()),
            )
        }
    }
}

impl View for Json {
    type V = JsonModel;

    open(crate) spec fn view(&self) -> JsonModel {
        self.model()
    }
}

/// What a list of values says.
pub open spec fn models(items: Seq<Json>) -> Seq<JsonModel> {
    items.map_values(|j: Json| j@)
}

/// What named values say.
pub open spec fn entry_models(entries: Seq<(Seq<char>, Json)>) -> Seq<(Seq<char>, JsonModel)> {
    entries.map_values(|e: (Seq<char>, Json)| (e.0, e.1@))
}

proof fn items_model_is_models(items: Seq<Json>)
    ensures
        Json::items_model(items) == models(items),
    decreases items.len(),
{
    if items.len() > 0 {
        items_model_is_models(items.drop_last());
        assert(models(items) == models(items.drop_last()).push(items.last()@));
    } else {
        assert(models(items) == Seq::<JsonModel>::empty());
    }
}

proof fn entries_model_is_entry_models(entries: Seq<(String, Json)>)
    ensures
        Json::entries_model(entries) == entry_models(
            entries.map_values(|e: (String, Json)| (e.0@, e.1)),
        ),
    decreases entries.len(),
{
    let plain = entries.map_values(|e: (String, Json)| (e.0@, e.1));
    if entries.len() > 0 {
        let init = entries.drop_last();
        entries_model_is_entry_models(init);
        assert(entry_models(plain) == entry_models(
            init.map_values(|e: (String, Json)| (e.0@, e.1)),
        ).push((entries.last().0@, entries.last().1@)));
    } else {
        assert(entry_models(plain) == Seq::<(Seq<char>, JsonModel)>::empty());
    }
}

/// What each kind of value says.
pub broadcast proof fn json_view(j: Json)
    ensures
        #![trigger j@]
        j is Null ==> j@ == JsonModel::Null,
        j matches Json::Bool(b) ==> j@ == JsonModel::Bool(b),
        j matches Json::Num(n) ==> j@ == JsonModel::Num(normal(n)),
        j matches Json::Str(s) ==> j@ == JsonModel::Str(s@),
        j matches Json::Arr(items) ==> j@ == JsonModel::Arr(models(items@)),
        j matches Json::Obj(fields) ==> j@ == JsonModel::Obj(entry_models(fields@)),
{
    match j {
        Json::Arr(items) => {
            items_model_is_models(items@);
        },
        Json::Obj(fields) => {
            entries_model_is_entry_models(fields.entries@);
        },
        _ => {},
    }
}

/// What is found in an object once a name was bound: the new value there, and
/// what was found before at every other name.
pub broadcast proof fn with_then_field(
    j: JsonModel,
    name: Seq<char>,
    value: JsonModel,
    other: Seq<char>,
)
    requires
        j is Obj,
    ensures
        (#[trigger] j.with(name, value).field(other)) == if other == name {
            Some(value)
        } else {
            j.field(other)
        },
{
    crate::fields::put_then_lookup(j->Obj_0, name, value, other);
}

/// Binding a name leaves an object an object.
pub broadcast proof fn with_stays_an_object(j: JsonModel, name: Seq<char>, value: JsonModel)
    requires
        j is Obj,
    ensures
        (#[trigger] j.with(name, value)) is Obj,
{
}

/// The object without fields has none.
pub broadcast proof fn bare_objects_have_no_field(name: Seq<char>)
    ensures
        (#[trigger] no_fields().field(name)) is None,
{
}

/// What is known of fields.
pub broadcast group group_json_fields {
    with_then_field,
    with_stays_an_object,
    bare_objects_have_no_field,
}

/// What is bound to a name is found there.
pub proof fn with_binds(j: JsonModel, name: Seq<char>, value: JsonModel)
    requires
        j is Obj,
    ensures
        j.with(name, value) is Obj,
        j.with(name, value).field(name) == Some(value),
{
    crate::fields::put_then_lookup(j->Obj_0, name, value, name);
}

/// What is bound to one name leaves the others as they are.
pub proof fn with_keeps(j: JsonModel, name: Seq<char>, value: JsonModel, other: Seq<char>)
    requires
        j is Obj,
        name != other,
    ensures
        j.with(name, value) is Obj,
        j.with(name, value).field(other) == j.field(other),
{
    crate::fields::put_then_lookup(j->Obj_0, name, value, other);
}

proof fn entry_models_lookup(entries: Seq<(Seq<char>, Json)>, name: Seq<char>)
    ensures
        lookup(entry_models(entries), name) == match lookup(entries, name) {
            Some(j) => Some(j@),
            None => None,
        },
    decreases entries.len(),
{
    if entries.len() > 0 {
        entry_models_lookup(entries.drop_first(), name);
        assert(entry_models(entries).drop_first() == entry_models(entries.drop_first()));
    }
}

proof fn entry_models_put(entries: Seq<(Seq<char>, Json)>, name: Seq<char>, value: Json)
    ensures
        entry_models(put(entries, name, value)) == put(entry_models(entries), name, value@),
    decreases entries.len(),
{
    let after = put(entries, name, value);
    let m = entry_models(entries);
    if entries.len() > 0 {
        let rest = entries.drop_first();
        entry_models_put(rest, name, value);
        assert(m.drop_first() == entry_models(rest));
        if entries[0].0 == name {
            assert(entry_models(after) == seq![(name, value@)] + entry_models(rest));
        } else if crate::text::text_lt(name, entries[0].0) {
            assert(entry_models(after) == seq![(name, value@)] + m);
        } else {
            assert(entry_models(after) == seq![m[0]] + entry_models(put(rest, name, value)));
        }
    } else {
        assert(entry_models(after) == seq![(name, value@)]);
    }
}

impl Json {
    pub fn text(s: &str) -> (r: Json)
        ensures
            r@ == JsonModel::Str(s@),
    {
        broadcast use json_view;

        Json::Str(s.to_owned())
    }

    pub fn unsigned(n: u64) -> (r: Json)
        ensures
            r@ == JsonModel::Num(number(n as int)),
    {
        broadcast use json_view;

        Json::Num(Num::Unsigned(n))
    }

    pub fn signed(n: i64) -> (r: Json)
        ensures
            r@ == JsonModel::Num(number(n as int)),
    {
        broadcast use json_view;

        if n < 0 {
            Json::Num(Num::Negative(n))
        } else {
            Json::Num(Num::Unsigned(n as u64))
        }
    }

    pub fn flag(b: bool) -> (r: Json)
        ensures
            r@ == JsonModel::Bool(b),
    {
        broadcast use json_view;

        Json::Bool(b)
    }

    /// The object without fields.
    pub fn object() -> (r: Json)
        ensures
            r@ == no_fields(),
    {
        broadcast use json_view;

        let fields: Fields<Json> = Fields::new();
        assert(entry_models(fields@) == Seq::<(Seq<char>, JsonModel)>::empty());
        Json::Obj(fields)
    }

    /// Binds `name` to `value` in an object; any other value stays as it is.
    pub fn with(self, name: &str, value: Json) -> (r: Json)
        ensures
            r@ == self@.with(name@, value@),
    {
        broadcast use json_view;

        match self {
            Json::Obj(fields) => {
                let mut fields = fields;
                proof {
                    entry_models_put(fields@, name@, value);
                }
                fields.insert(name.to_owned(), value);
                Json::Obj(fields)
            },
            other => other,
        }
    }

    /// Whether this is the object without fields.
    pub fn is_bare(&self) -> (r: bool)
        ensures
            r == (self@ == no_fields()),
    {
        broadcast use json_view;

        match self {
            Json::Obj(fields) => {
                assert(fields@.len() == 0 ==> entry_models(fields@) == Seq::<
                    (Seq<char>, JsonModel),
                >::empty());
                assert(fields@.len() == entry_models(fields@).len());
                fields.is_empty()
            },
            _ => false,
        }
    }

    /// The list of texts.
    pub fn texts(items: &Vec<String>) -> (r: Json)
        ensures
            r@ == text_list(crate::text::texts(items@)),
    {
        broadcast use json_view;

        let mut out: Vec<Json> = Vec::new();
        let mut i: usize = 0;
        while i < items.len()
            invariant
                i <= items@.len(),
                out@.len() == i,
                forall|j: int|
                    0 <= j < i ==> (#[trigger] out@[j])@ == JsonModel::Str(items@[j]@),
            decreases items@.len() - i,
        {
            out.push(Json::text(items[i].as_str()));
            i += 1;
        }
        assert(models(out@) == crate::text::texts(items@).map_values(
            |s: Seq<char>| JsonModel::Str(s),
        ));
        Json::Arr(out)
    }

    pub fn get(&self, name: &str) -> (r: Option<&Json>)
        ensures
            match r {
                Some(v) => self@.field(name@) == Some(v@),
                None => self@.field(name@) is None,
            },
    {
        broadcast use json_view;

        match self {
            Json::Obj(fields) => {
                proof {
                    entry_models_lookup(fields@, name@);
                }
                fields.get(name)
            },
            _ => None,
        }
    }

    pub fn as_str(&self) -> (r: Option<&String>)
        ensures
            match r {
                Some(s) => self@.as_text() == Some(s@),
                None => self@.as_text() is None,
            },
    {
        broadcast use json_view;

        match self {
            Json::Str(s) => Some(s),
            _ => None,
        }
    }

    pub fn as_bool(&self) -> (r: Option<bool>)
        ensures
            r == self@.as_flag(),
    {
        broadcast use json_view;

        match self {
            Json::Bool(b) => Some(*b),
            _ => None,
        }
    }

    pub fn as_u64(&self) -> (r: Option<u64>)
        ensures
            r == self@.as_unsigned(),
    {
        broadcast use json_view;

        match self {
            Json::Num(Num::Unsigned(n)) => Some(*n),
            Json::Num(Num::Negative(n)) => if *n >= 0 {
                Some(*n as u64)
            } else {
                None
            },
            _ => None,
        }
    }

    pub fn as_i64(&self) -> (r: Option<i64>)
        ensures
            r == self@.as_signed(),
    {
        broadcast use json_view;

        match self {
            Json::Num(Num::Unsigned(n)) => if *n <= i64::MAX as u64 {
                Some(*n as i64)
            } else {
                None
            },
            Json::Num(Num::Negative(n)) => Some(*n),
            _ => None,
        }
    }

    pub fn as_array(&self) -> (r: Option<&Vec<Json>>)
        ensures
            match r {
                Some(items) => self@.as_items() == Some(models(items@)),
                None => self@.as_items() is None,
            },
    {
        broadcast use json_view;

        match self {
            Json::Arr(items) => Some(items),
            _ => None,
        }
    }

    /// The text named `name`, if there is one.
    pub fn get_str(&self, name: &str) -> (r: Option<&String>)
        ensures
            match r {
                Some(s) => self@.text_field(name@) == Some(s@),
                None => self@.text_field(name@) is None,
            },
    {
        match self.get(name) {
            Some(v) => v.as_str(),
            None => None,
        }
    }

    /// The truth value named `name`, if there is one.
    pub fn get_bool(&self, name: &str) -> (r: Option<bool>)
        ensures
            r == self@.flag_field(name@),
    {
        match self.get(name) {
            Some(v) => v.as_bool(),
            None => None,
        }
    }

    /// The unsigned integer named `name`, if there is one.
    pub fn get_u64(&self, name: &str) -> (r: Option<u64>)
        ensures
            r == self@.unsigned_field(name@),
    {
        match self.get(name) {
            Some(v) => v.as_u64(),
            None => None,
        }
    }

    /// The list named `name`, if there is one.
    pub fn get_array(&self, name: &str) -> (r: Option<&Vec<Json>>)
        ensures
            match r {
                Some(items) => self@.items_field(name@) == Some(models(items@)),
                None => self@.items_field(name@) is None,
            },
    {
        match self.get(name) {
            Some(v) => v.as_array(),
            None => None,
        }
    }
}

impl Json {
    /// The value named `inner` in the object named `outer`, if there is one.
    pub fn get_inner(&self, outer: &str, inner: &str) -> (r: Option<&Json>)
        ensures
            match r {
                Some(v) => self@.inner_field(outer@, inner@) == Some(v@),
                None => self@.inner_field(outer@, inner@) is None,
            },
    {
        match self.get(outer) {
            Some(v) => v.get(inner),
            None => None,
        }
    }

    /// The text named `inner` in the object named `outer`, if there is one.
    pub fn get_inner_str(&self, outer: &str, inner: &str) -> (r: Option<&String>)
        ensures
            match r {
                Some(s) => self@.inner_text(outer@, inner@) == Some(s@),
                None => self@.inner_text(outer@, inner@) is None,
            },
    {
        match self.get_inner(outer, inner) {
            Some(v) => v.as_str(),
            None => None,
        }
    }

    /// The unsigned integer named `inner` in the object named `outer`, if
    /// there is one.
    pub fn get_inner_u64(&self, outer: &str, inner: &str) -> (r: Option<u64>)
        ensures
            r == self@.inner_unsigned(outer@, inner@),
    {
        match self.get_inner(outer, inner) {
            Some(v) => v.as_u64(),
            None => None,
        }
    }
}

impl Clone for Json {
    fn clone(&self) -> (r: Self)
        ensures
            r@ == self@,
        decreases self,
    {
        broadcast use json_view;

        match self {
            Json::Null => Json::Null,
            Json::Bool(b) => Json::Bool(*b),
            Json::Num(n) => Json::Num(n.clone()),
            Json::Str(s) => Json::Str(s.clone()),
            Json::Arr(items) => {
                let mut out: Vec<Json> = Vec::new();
                let mut i: usize = 0;
                while i < items.len()
                    invariant
                        self == Json::Arr(*items),
                        i <= items@.len(),
                        out@.len() == i,
                        forall|j: int| 0 <= j < i ==> (#[trigger] out@[j])@ == items@[j]@,
                    decreases items@.len() - i,
                {
                    proof {
                        assert(decreases_to!(self => self->Arr_0));
                        assert(decreases_to!(items@ => items@[i as int]));
                    }
                    out.push(items[i].clone());
                    i += 1;
                }
                assert(models(out@) == models(items@));
                Json::Arr(out)
            },
            Json::Obj(fields) => {
                let mut out: Fields<Json> = Fields::new();
                let n: usize = fields.len();
                let mut i: usize = 0;
                assert(entry_models(out@) == entry_models(fields@).take(0));
                while i < n
                    invariant
                        self == Json::Obj(*fields),
                        i <= n == fields@.len(),
                        increasing(fields@),
                        out@.len() == i,
                        forall|j: int| 0 <= j < i ==> (#[trigger] out@[j]).0 == fields@[j].0,
                        entry_models(out@) == entry_models(fields@).take(i as int),
                    decreases n - i,
                {
                    let name: String = fields.name_at(i).clone();
                    proof {
                        assert(decreases_to!(self => self->Obj_0));
                        assert(decreases_to!(fields => fields.entries));
                        assert(decreases_to!(fields.entries@ => fields.entries@[i as int]));
                        assert(decreases_to!(fields.entries@[i as int] => fields.entries@[i as int].1));
                    }
                    let value: Json = fields.entries[i].1.clone();
                    proof {
                        assert forall|j: int| 0 <= j < out@.len() implies crate::text::text_lt(
                            (#[trigger] out@[j]).0,
                            name@,
                        ) by {
                            assert(fields@[j].0 == out@[j].0);
                            assert(crate::text::text_lt(fields@[j].0, fields@[i as int].0));
                        }
                        put_last(out@, name@, value);
                        assert(entry_models(out@.push((name@, value))) == entry_models(out@).push(
                            (name@, value@),
                        ));
                        assert(entry_models(fields@).take(i + 1) == entry_models(fields@).take(
                            i as int,
                        ).push(entry_models(fields@)[i as int]));
                    }
                    out.insert(name, value);
                    i += 1;
                }
                assert(entry_models(fields@).take(i as int) == entry_models(fields@));
                Json::Obj(out)
            },
        }
    }
}

// ---- text ---------------------------------------------------------------

/// What a `serde_json::Value` holds.
pub uninterp spec fn value_model(v: serde_json::Value) -> JsonModel;

/// What `serde_json::from_str` reads from a text: a value, or the message of
/// its error.
pub uninterp spec fn json_parsed(text: Seq<char>) -> Result<JsonModel, Seq<char>>;

/// The compact text that `serde_json` writes for a value.
pub uninterp spec fn json_encoded(value: JsonModel) -> Seq<char>;

/// One level of a `serde_json::Value`.
enum Opened {
    Null,
    Bool(bool),
    Num(Num),
    Text(String),
    List(Vec<serde_json::Value>),
    Record(Vec<(String, serde_json::Value)>),
}

spec fn list_model(items: Seq<serde_json::Value>) -> Seq<JsonModel> {
    items.map_values(|v: serde_json::Value| value_model(v))
}

spec fn record_model(entries: Seq<(String, serde_json::Value)>) -> Seq<(Seq<char>, JsonModel)> {
    entries.map_values(|e: (String, serde_json::Value)| (e.0@, value_model(e.1)))
}

spec fn opened_model(o: Opened) -> JsonModel {
    match o {
        Opened::Null => JsonModel::Null,
        Opened::Bool(b) => JsonModel::Bool(b),
        Opened::Num(n) => JsonModel::Num(normal(n)),
        Opened::Text(s) => JsonModel::Str(s@),
        Opened::List(items) => JsonModel::Arr(list_model(items@)),
        Opened::Record(entries) => JsonModel::Obj(record_model(entries@)),
    }
}

/// Takes a `serde_json::Value` apart by its variant. An object is a
/// `BTreeMap`, so its names come out in increasing order; a number is
/// `as_u64`, else `as_i64`, else not an integer.
#[verifier::external_body]
fn open_value(v: serde_json::Value) -> (r: Opened)
    ensures
        opened_model(r) == value_model(v),
        r matches Opened::Record(entries) ==> increasing(record_model(entries@)),
{
    match v {
        serde_json::Value::Null => Opened::Null,
        serde_json::Value::Bool(b) => Opened::Bool(b),
        serde_json::Value::Number(n) => Opened::Num(match (n.as_u64(), n.as_i64()) {
            (Some(u), _) => Num::Unsigned(u),
            (None, Some(i)) => Num::Negative(i),
            (None, None) => Num::Float(Float { number: n }),
        }),
        serde_json::Value::String(s) => Opened::Text(s),
        serde_json::Value::Array(items) => Opened::List(items),
        serde_json::Value::Object(map) => Opened::Record(map.into_iter().collect()),
    }
}

/// Puts a `serde_json::Value` together. `Value::from` an integer that is not
/// negative is the unsigned number; an object collects its entries in the
/// order of their names.
#[verifier::external_body]
fn close_value(o: Opened) -> (r: serde_json::Value)
    requires
        o matches Opened::Record(entries) ==> increasing(record_model(entries@)),
    ensures
        value_model(r) == opened_model(o),
{
    match o {
        Opened::Null => serde_json::Value::Null,
        Opened::Bool(b) => serde_json::Value::Bool(b),
        Opened::Num(Num::Unsigned(n)) => serde_json::Value::from(n),
        Opened::Num(Num::Negative(n)) => serde_json::Value::from(n),
        Opened::Num(Num::Float(x)) => serde_json::Value::Number(x.number),
        Opened::Text(s) => serde_json::Value::String(s),
        Opened::List(items) => serde_json::Value::Array(items),
        Opened::Record(entries) => serde_json::Value::Object(entries.into_iter().collect()),
    }
}

/// `serde_json::from_str` into a `serde_json::Value`; a failure is told by
/// the `Display` text of the error.
#[verifier::external_body]
fn read_value(text: &str) -> (r: Result<serde_json::Value, String>)
    ensures
        match r {
            Ok(v) => json_parsed(text@) == Ok::<JsonModel, Seq<char>>(value_model(v)),
            Err(message) => json_parsed(text@) == Err::<JsonModel, Seq<char>>(message@),
        },
{
    serde_json::from_str(text).map_err(|error: serde_json::Error| error.to_string())
}

/// The `Display` form of a `serde_json::Value`, its compact text. It stands
/// on one line: the compact form has no line breaks between its parts, and
/// those inside strings are escaped.
#[verifier::external_body]
fn write_value(v: &serde_json::Value) -> (r: String)
    ensures
        r@ == json_encoded(value_model(*v)),
        !r@.contains('\n'),
{
    v.to_string()
}

fn import(v: serde_json::Value) -> (r: Json)
    ensures
        r@ == value_model(v),
    decreases value_model(v),
{
    broadcast use json_view;

    let ghost whole = value_model(v);
    match open_value(v) {
        Opened::Null => Json::Null,
        Opened::Bool(b) => Json::Bool(b),
        Opened::Num(n) => Json::Num(n),
        Opened::Text(s) => Json::Str(s),
        Opened::List(items) => {
            let mut items = items;
            let ghost all = items@;
            let mut out: Vec<Json> = Vec::new();
            while items.len() > 0
                invariant
                    whole == value_model(v),
                    whole == JsonModel::Arr(list_model(all)),
                    out@.len() + items@.len() == all.len(),
                    items@ == all.skip(out@.len() as int),
                    forall|j: int|
                        0 <= j < out@.len() ==> (#[trigger] out@[j])@ == value_model(all[j]),
                decreases items@.len(),
            {
                let first = items.remove(0);
                proof {
                    let i = out@.len() as int;
                    assert(first == all[i]);
                    assert(list_model(all)[i] == value_model(first));
                    assert(decreases_to!(whole => whole->Arr_0));
                    assert(decreases_to!(list_model(all) => list_model(all)[i]));
                }
                out.push(import(first));
            }
            assert(models(out@) == list_model(all));
            Json::Arr(out)
        },
        Opened::Record(entries) => {
            let mut entries = entries;
            let ghost all = entries@;
            let mut out: Fields<Json> = Fields::new();
            assert(entry_models(out@) == record_model(all).take(0));
            while entries.len() > 0
                invariant
                    whole == value_model(v),
                    whole == JsonModel::Obj(record_model(all)),
                    increasing(record_model(all)),
                    out@.len() + entries@.len() == all.len(),
                    entries@ == all.skip(out@.len() as int),
                    entry_models(out@) == record_model(all).take(out@.len() as int),
                decreases entries@.len(),
            {
                let ghost i = out@.len() as int;
                let (name, value) = entries.remove(0);
                proof {
                    assert((name, value) == all[i]);
                    assert(record_model(all)[i] == (name@, value_model(value)));
                    assert(decreases_to!(whole => whole->Obj_0));
                    assert(decreases_to!(record_model(all) => record_model(all)[i]));
                    assert(decreases_to!(record_model(all)[i] => record_model(all)[i].1));
                }
                let item: Json = import(value);
                proof {
                    assert forall|j: int| 0 <= j < out@.len() implies crate::text::text_lt(
                        (#[trigger] out@[j]).0,
                        name@,
                    ) by {
                        assert(entry_models(out@)[j].0 == out@[j].0);
                        assert(record_model(all)[j].0 == out@[j].0);
                        assert(crate::text::text_lt(
                            record_model(all)[j].0,
                            record_model(all)[i].0,
                        ));
                    }
                    put_last(out@, name@, item);
                    assert(entry_models(out@.push((name@, item))) == entry_models(out@).push(
                        (name@, item@),
                    ));
                    assert(record_model(all).take(i + 1) == record_model(all).take(i).push(
                        record_model(all)[i],
                    ));
                }
                out.insert(name, item);
            }
            assert(record_model(all).take(all.len() as int) == record_model(all));
            Json::Obj(out)
        },
    }
}

fn export(j: &Json) -> (r: serde_json::Value)
    ensures
        value_model(r) == j@,
    decreases j,
{
    broadcast use json_view;

    match j {
        Json::Null => close_value(Opened::Null),
        Json::Bool(b) => close_value(Opened::Bool(*b)),
        Json::Num(n) => close_value(Opened::Num(n.clone())),
        Json::Str(s) => close_value(Opened::Text(s.clone())),
        Json::Arr(items) => {
            let mut out: Vec<serde_json::Value> = Vec::new();
            let mut i: usize = 0;
            while i < items.len()
                invariant
                    j == Json::Arr(*items),
                    i <= items@.len(),
                    out@.len() == i,
                    forall|k: int| 0 <= k < i ==> value_model(#[trigger] out@[k]) == items@[k]@,
                decreases items@.len() - i,
            {
                proof {
                    assert(decreases_to!(j => j->Arr_0));
                    assert(decreases_to!(items@ => items@[i as int]));
                }
                out.push(export(&items[i]));
                i += 1;
            }
            assert(list_model(out@) == models(items@));
            close_value(Opened::List(out))
        },
        Json::Obj(fields) => {
            let mut out: Vec<(String, serde_json::Value)> = Vec::new();
            let n: usize = fields.len();
            let mut i: usize = 0;
            while i < n
                invariant
                    j == Json::Obj(*fields),
                    i <= n == fields@.len(),
                    out@.len() == i,
                    forall|k: int|
                        0 <= k < i ==> (#[trigger] out@[k]).0@ == fields@[k].0 && value_model(
                            out@[k].1,
                        ) == fields@[k].1@,
                decreases n - i,
            {
                proof {
                    assert(decreases_to!(j => j->Obj_0));
                    assert(decreases_to!(fields => fields.entries));
                    assert(decreases_to!(fields.entries@ => fields.entries@[i as int]));
                    assert(decreases_to!(fields.entries@[i as int] => fields.entries@[i as int].1));
                }
                out.push((fields.name_at(i).clone(), export(&fields.entries[i].1)));
                i += 1;
            }
            assert(record_model(out@) == entry_models(fields@));
            assert forall|a: int, b: int|
                #![trigger record_model(out@)[a], record_model(out@)[b]]
                0 <= a < b < out@.len() implies crate::text::text_lt(
                record_model(out@)[a].0,
                record_model(out@)[b].0,
            ) by {
                assert(crate::text::text_lt(fields@[a].0, fields@[b].0));
            }
            close_value(Opened::Record(out))
        },
    }
}

impl Json {
    /// The value that a `serde_json::Value` holds.
    pub fn from_value(v: serde_json::Value) -> (r: Json)
        ensures
            r@ == value_model(v),
    {
        import(v)
    }

    /// The `serde_json::Value` that holds this value.
    pub fn to_value(&self) -> (r: serde_json::Value)
        ensures
            value_model(r) == self@,
    {
        export(self)
    }

    /// Reads a JSON text.
    pub fn parse(text: &str) -> (r: Result<Json, String>)
        ensures
            match r {
                Ok(j) => json_parsed(text@) == Ok::<JsonModel, Seq<char>>(j@),
                Err(message) => json_parsed(text@) == Err::<JsonModel, Seq<char>>(message@),
            },
    {
        match read_value(text) {
            Ok(v) => Ok(import(v)),
            Err(message) => Err(message),
        }
    }

    /// The compact JSON text of this value, on one line.
    pub fn encode(&self) -> (r: String)
        ensures
            r@ == json_encoded(self@),
            !r@.contains('\n'),
    {
        write_value(&export(self))
    }
}

} // verus!
