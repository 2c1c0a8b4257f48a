//! What the client's Lua bindings do.
//!
//! The evaluator itself runs outside. It hands each call's arguments over as
//! plain values: what sort of value each is, and what each reads as. The
//! bindings decide which request to make and what its reply changes.

pub mod bindings;
pub mod eval;
pub mod options;
pub mod values;
pub mod wire;

use crate::json::{Json, JsonModel};
use vstd::prelude::*;

verus! {

broadcast use vstd::string::group_string_axioms;

/// What sort of value a Lua value is.
#[derive(Debug)]
pub enum LuaKind {
    Nil,
    Boolean(bool),
    Integer(i64),
    /// A number with a fraction: its whole part as far as it fits, and how it
    /// is written.
    Number { whole: i64, written: String },
    String,
    Table,
    Function,
    Other,
}

/// A Lua value: its sort, how it is shown, and what it reads as. Where it
/// does not read as something, the error says so.
#[derive(Debug)]
pub struct LuaValue {
    pub kind: LuaKind,
    pub shown: String,
    pub text: Result<String, String>,
    pub integer: Result<i64, String>,
    pub flag: Result<bool, String>,
    pub texts: Result<Vec<String>, String>,
    pub json: Result<Json, String>,
    pub table: Result<LuaTable, String>,
}

/// A key of a Lua table, and what it reads as as a text.
#[derive(Debug)]
pub enum LuaKey {
    Text(Result<String, String>),
    Integer(i64),
    Other(Result<String, String>),
}

/// A Lua table.
#[derive(Debug)]
pub struct LuaTable {
    /// What stands at 1, 2 and so on.
    pub items: Vec<LuaValue>,
    /// All keys and values, in the order in which the table is walked.
    pub pairs: Vec<(LuaKey, LuaValue)>,
    /// The table as JSON.
    pub json: Result<Json, String>,
    /// What stands at the text keys, as JSON.
    pub named_json: Result<Json, String>,
    /// The error for reading what is not there as a text.
    pub no_text: String,
    /// The error for reading what is not there as an integer.
    pub no_integer: String,
}

/// What a value reads as, or the error for it.
pub open spec fn reading(r: Result<String, String>) -> Result<Seq<char>, Seq<char>> {
    match r {
        Ok(s) => Ok(s@),
        Err(e) => Err(e@),
    }
}

/// What a value is as JSON, or the error for it.
pub open spec fn json_reading(r: Result<Json, String>) -> Result<JsonModel, Seq<char>> {
    match r {
        Ok(j) => Ok(j@),
        Err(e) => Err(e@),
    }
}

impl LuaKey {
    pub open spec fn is_text(self) -> bool {
        self is Text
    }

    pub open spec fn is_integer(self) -> bool {
        self is Integer
    }

    /// Whether this is the given name.
    pub open spec fn names(self, name: Seq<char>) -> bool {
        self matches LuaKey::Text(Ok(s)) && s@ == name
    }

    /// What the key reads as as a text.
    pub open spec fn read(self) -> Result<Seq<char>, Seq<char>> {
        match self {
            LuaKey::Text(r) => reading(r),
            LuaKey::Integer(n) => Ok(crate::text::decimal_int(n as int)),
            LuaKey::Other(r) => reading(r),
        }
    }

    /// What the key reads as as a text.
    pub fn read_text(&self) -> (r: Result<String, String>)
        ensures
            reading(r) == self.read(),
    {
        match self {
            LuaKey::Text(Ok(s)) => Ok(s.clone()),
            LuaKey::Text(Err(e)) => Err(e.clone()),
            LuaKey::Integer(n) => Ok(crate::text::decimal_int_text(*n)),
            LuaKey::Other(Ok(s)) => Ok(s.clone()),
            LuaKey::Other(Err(e)) => Err(e.clone()),
        }
    }
}

// ---- reading a call -----------------------------------------------------

/// The options of a call: what is named, and all of it as JSON.
#[derive(Debug)]
pub struct LuaOptions<'a> {
    pub pairs: Vec<(&'a LuaKey, &'a LuaValue)>,
    /// Nothing stands for no options.
    pub json: Option<&'a Result<Json, String>>,
}

/// The keys and values of a table.
pub type Pairs = Seq<(LuaKey, LuaValue)>;

pub open spec fn pairs_of(pairs: Seq<(&LuaKey, &LuaValue)>) -> Pairs {
    pairs.map_values(|p: (&LuaKey, &LuaValue)| (*p.0, *p.1))
}

pub struct OptionsModel {
    pub pairs: Pairs,
    pub json: Result<JsonModel, Seq<char>>,
}

impl<'a> View for LuaOptions<'a> {
    type V = OptionsModel;

    open spec fn view(&self) -> OptionsModel {
        OptionsModel {
            pairs: pairs_of(self.pairs@),
            json: match self.json {
                Some(r) => json_reading(*r),
                None => Ok(crate::json::no_fields()),
            },
        }
    }
}

/// The values of a sequence of borrowed values.
pub open spec fn values_of(values: Seq<&LuaValue>) -> Seq<LuaValue> {
    values.map_values(|v: &LuaValue| *v)
}

/// The pairs whose key is a text.
pub open spec fn named_pairs(pairs: Pairs) -> Pairs {
    pairs.filter(|p: (LuaKey, LuaValue)| p.0.is_text())
}

/// Whether a key is a text.
pub open spec fn has_text_key(pairs: Pairs) -> bool {
    exists|i: int| 0 <= i < pairs.len() && (#[trigger] pairs[i]).0.is_text()
}

/// Whether a key is an integer.
pub open spec fn has_integer_key(pairs: Pairs) -> bool {
    exists|i: int| 0 <= i < pairs.len() && (#[trigger] pairs[i]).0.is_integer()
}

/// The arguments by position, and the options.
pub struct CallShape {
    pub positional: Seq<LuaValue>,
    pub options: OptionsModel,
}

/// How the arguments of a call are read. A lone table holds both the
/// arguments by position and the options. Otherwise a last table is the
/// options, unless it only lists values.
pub open spec fn call_shape(args: Seq<LuaValue>) -> CallShape {
    if args.len() == 1 && args[0].table is Ok {
        let table = args[0].table->Ok_0;
        CallShape {
            positional: table.items@,
            options: OptionsModel {
                pairs: named_pairs(table.pairs@),
                json: json_reading(table.named_json),
            },
        }
    } else if args.len() > 0 && (args.last().table matches Ok(table) && (has_text_key(
        table.pairs@,
    ) || !has_integer_key(table.pairs@))) {
        let table = args.last().table->Ok_0;
        CallShape {
            positional: args.drop_last(),
            options: OptionsModel { pairs: table.pairs@, json: json_reading(table.json) },
        }
    } else {
        CallShape {
            positional: args,
            options: OptionsModel { pairs: Seq::empty(), json: Ok(crate::json::no_fields()) },
        }
    }
}

/// Whether a table has a text key.
pub fn table_has_string_key(table: &LuaTable) -> (r: bool)
    ensures
        r == has_text_key(table.pairs@),
{
    let mut i: usize = 0;
    while i < table.pairs.len()
        invariant
            i <= table.pairs@.len(),
            forall|j: int| 0 <= j < i ==> !(#[trigger] table.pairs@[j]).0.is_text(),
        decreases table.pairs@.len() - i,
    {
        match &table.pairs[i].0 {
            LuaKey::Text(_) => {
                assert(table.pairs@[i as int].0.is_text());
                return true;
            },
            _ => {},
        }
        i += 1;
    }
    false
}

/// Whether a table has an integer key.
pub fn table_has_integer_key(table: &LuaTable) -> (r: bool)
    ensures
        r == has_integer_key(table.pairs@),
{
    let mut i: usize = 0;
    while i < table.pairs.len()
        invariant
            i <= table.pairs@.len(),
            forall|j: int| 0 <= j < i ==> !(#[trigger] table.pairs@[j]).0.is_integer(),
        decreases table.pairs@.len() - i,
    {
        match &table.pairs[i].0 {
            LuaKey::Integer(_) => {
                assert(table.pairs@[i as int].0.is_integer());
                return true;
            },
            _ => {},
        }
        i += 1;
    }
    false
}

/// What stands at 1, 2 and so on.
pub fn take_array_part<'a>(table: &'a LuaTable) -> (r: Vec<&'a LuaValue>)
    ensures
        values_of(r@) == table.items@,
{
    borrow_all(&table.items, table.items.len())
}

/// The first `n` values.
fn borrow_all<'a>(values: &'a Vec<LuaValue>, n: usize) -> (r: Vec<&'a LuaValue>)
    requires
        n <= values@.len(),
    ensures
        values_of(r@) == values@.take(n as int),
{
    let mut out: Vec<&'a LuaValue> = Vec::new();
    let mut i: usize = 0;
    while i < n
        invariant
            i <= n <= values@.len(),
            out@.len() == i,
            forall|j: int| 0 <= j < i ==> *(#[trigger] out@[j]) == values@[j],
        decreases n - i,
    {
        out.push(&values[i]);
        i += 1;
    }
    out
}

/// The pairs whose key is a text.
pub fn filter_string_keys<'a>(table: &'a LuaTable) -> (r: Vec<(&'a LuaKey, &'a LuaValue)>)
    ensures
        pairs_of(r@) == named_pairs(table.pairs@),
{
    let mut out: Vec<(&'a LuaKey, &'a LuaValue)> = Vec::new();
    let mut i: usize = 0;
    proof {
        reveal(Seq::filter);
        assert(pairs_of(out@) == named_pairs(table.pairs@.take(0)));
    }
    while i < table.pairs.len()
        invariant
            i <= table.pairs@.len(),
            pairs_of(out@) == named_pairs(table.pairs@.take(i as int)),
        decreases table.pairs@.len() - i,
    {
        let pair: &'a (LuaKey, LuaValue) = &table.pairs[i];
        proof {
            reveal(Seq::filter);
            assert(table.pairs@.take(i + 1).drop_last() == table.pairs@.take(i as int));
            assert(table.pairs@.take(i + 1).last() == *pair);
        }
        let ghost before = out@;
        match &pair.0 {
            LuaKey::Text(_) => {
                out.push((&pair.0, &pair.1));
                assert(pairs_of(out@) == pairs_of(before).push(*pair));
            },
            _ => {},
        }
        i += 1;
    }
    assert(table.pairs@.take(i as int) == table.pairs@);
    out
}

/// All pairs of a table.
pub(crate) fn borrow_pairs<'a>(table: &'a LuaTable) -> (r: Vec<(&'a LuaKey, &'a LuaValue)>)
    ensures
        pairs_of(r@) == table.pairs@,
{
    let mut out: Vec<(&'a LuaKey, &'a LuaValue)> = Vec::new();
    let mut i: usize = 0;
    while i < table.pairs.len()
        invariant
            i <= table.pairs@.len(),
            out@.len() == i,
            forall|j: int|
                0 <= j < i ==> (*(#[trigger] out@[j]).0, *out@[j].1) == table.pairs@[j],
        decreases table.pairs@.len() - i,
    {
        let pair: &'a (LuaKey, LuaValue) = &table.pairs[i];
        out.push((&pair.0, &pair.1));
        i += 1;
    }
    assert(pairs_of(out@) =~= table.pairs@);
    out
}

/// Reads the arguments of a call: by position, and as options.
pub fn read_call<'a>(args: &'a Vec<LuaValue>) -> (r: (Vec<&'a LuaValue>, LuaOptions<'a>))
    ensures
        call_shape(args@) == (CallShape { positional: values_of(r.0@), options: r.1@ }),
{
    let n: usize = args.len();
    if n == 1 {
        if let Ok(table) = &args[0].table {
            return (
                take_array_part(table),
                LuaOptions { pairs: filter_string_keys(table), json: Some(&table.named_json) },
            );
        }
    }
    if n > 0 {
        if let Ok(table) = &args[n - 1].table {
            if table_has_string_key(table) || !table_has_integer_key(table) {
                assert(args@.take(n - 1) == args@.drop_last());
                return (
                    borrow_all(args, n - 1),
                    LuaOptions { pairs: borrow_pairs(table), json: Some(&table.json) },
                );
            }
        }
    }
    assert(args@.take(n as int) == args@);
    let none: Vec<(&'a LuaKey, &'a LuaValue)> = Vec::new();
    assert(pairs_of(none@) == Seq::<(LuaKey, LuaValue)>::empty());
    (borrow_all(args, n), LuaOptions { pairs: none, json: None })
}

// ---- laws ---------------------------------------------------------------

/// A call with a lone table reads like the call with the table's list spread
/// out in front of a table of its names, when there are names.
pub proof fn brace_form_reads_like_the_spread_form(lone: LuaValue, spread: Seq<LuaValue>)
    requires
        lone.table is Ok,
        spread.len() >= 2,
        spread.last().table is Ok,
        lone.table->Ok_0.items@ == spread.drop_last(),
        spread.last().table->Ok_0.pairs@ == named_pairs(lone.table->Ok_0.pairs@),
        json_reading(spread.last().table->Ok_0.json) == json_reading(lone.table->Ok_0.named_json),
    ensures
        call_shape(seq![lone]) == call_shape(spread),
{
    let names = named_pairs(lone.table->Ok_0.pairs@);
    assert forall|i: int| 0 <= i < names.len() implies (#[trigger] names[i]).0.is_text() by {
        filter_keeps(lone.table->Ok_0.pairs@, i);
    }
    if names.len() > 0 {
        assert(names[0].0.is_text());
    }
}

/// What is left of the pairs by name is named.
proof fn filter_keeps(pairs: Pairs, i: int)
    requires
        0 <= i < named_pairs(pairs).len(),
    ensures
        named_pairs(pairs)[i].0.is_text(),
    decreases pairs.len(),
{
    reveal(Seq::filter);
    if pairs.len() > 0 {
        let before = named_pairs(pairs.drop_last());
        if i < before.len() {
            filter_keeps(pairs.drop_last(), i);
        }
    }
}

} // verus!
