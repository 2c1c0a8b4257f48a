//! Completing what is typed.

pub mod places;
pub mod tables;

use crate::completer::tables::{
    description, description_for, is_nullary, key_names, key_rows, meta_commands, meta_rows,
    nullary_names, row_texts,
};
use crate::ctx::{opt_text, ReplCtx, TabModel};
use crate::sort::{sort_texts, sorted};
use crate::text::{
    ascii_digit, ascii_letter, before_byte, begins, byte_count, byte_len, byte_len_concat, chars_of,
    cut_before, ends_character, is_ascii_digit, is_ascii_letter, listed, rfind, rfind_at,
    rfind_bounds, slice_text, starts_with, strip_prefix, texts, texts_push, trim_start,
    trimmed_start,
};
use vstd::prelude::*;

verus! {

broadcast use vstd::string::group_string_axioms;

/// The names of the plugins that the server told of last.
#[derive(Debug, Default)]
pub struct PluginCache {
    pub(crate) names: Vec<String>,
}

/// The ids of the adapters that live on the server, as it told of them last.
#[derive(Debug, Default)]
pub struct AdapterCache {
    pub(crate) ids: Vec<String>,
}

impl View for PluginCache {
    type V = Seq<Seq<char>>;

    open(crate) spec fn view(&self) -> Seq<Seq<char>> {
        texts(self.names@)
    }
}

impl View for AdapterCache {
    type V = Seq<Seq<char>>;

    open(crate) spec fn view(&self) -> Seq<Seq<char>> {
        texts(self.ids@)
    }
}

fn copied(list: &Vec<String>) -> (r: Vec<String>)
    ensures
        texts(r@) == texts(list@),
{
    let mut out: Vec<String> = Vec::new();
    let mut i: usize = 0;
    while i < list.len()
        invariant
            i <= list@.len(),
            texts(out@) == texts(list@).take(i as int),
        decreases list@.len() - i,
    {
        let item: String = list[i].clone();
        proof {
            texts_push(out@, item);
            assert(texts(list@)[i as int] == item@);
            assert(texts(list@).take(i + 1) =~= texts(list@).take(i as int).push(item@));
        }
        out.push(item);
        i += 1;
    }
    assert(texts(list@).take(i as int) =~= texts(list@));
    out
}

/// What a cache holds after a list was set: that list, and nothing of what it
/// held before.
pub open spec fn cache_set(before: Seq<Seq<char>>, list: Seq<Seq<char>>) -> Seq<Seq<char>> {
    list
}

/// What a cache holds after lists were set, the first one first.
pub open spec fn cache_after(before: Seq<Seq<char>>, lists: Seq<Seq<Seq<char>>>) -> Seq<Seq<char>>
    decreases lists.len(),
{
    if lists.len() == 0 {
        before
    } else {
        cache_set(cache_after(before, lists.drop_last()), lists.last())
    }
}

impl PluginCache {
    pub fn new() -> (r: Self)
        ensures
            r@ == Seq::<Seq<char>>::empty(),
    {
        let r = PluginCache { names: Vec::new() };
        assert(r@ =~= Seq::<Seq<char>>::empty());
        r
    }

    pub fn set(&mut self, plugins: Vec<String>)
        ensures
            final(self)@ == cache_set(old(self)@, texts(plugins@)),
    {
        self.names = plugins;
    }

    pub fn snapshot(&self) -> (r: Vec<String>)
        ensures
            texts(r@) == self@,
    {
        copied(&self.names)
    }
}

impl AdapterCache {
    pub fn new() -> (r: Self)
        ensures
            r@ == Seq::<Seq<char>>::empty(),
    {
        let r = AdapterCache { ids: Vec::new() };
        assert(r@ =~= Seq::<Seq<char>>::empty());
        r
    }

    pub fn set(&mut self, ids: Vec<String>)
        ensures
            final(self)@ == cache_set(old(self)@, texts(ids@)),
    {
        self.ids = ids;
    }

    pub fn snapshot(&self) -> (r: Vec<String>)
        ensures
            texts(r@) == self@,
    {
        copied(&self.ids)
    }
}

// ---- suggestions --------------------------------------------------------

/// The bytes of the line that a suggestion takes the place of.
#[derive(Debug, Clone, Copy, PartialEq, Eq)]
pub struct Place {
    pub start: usize,
    pub end: usize,
}

#[derive(Debug, PartialEq, Eq)]
pub struct Suggestion {
    pub value: String,
    pub description: Option<String>,
    pub place: Place,
}

pub struct SuggestionModel {
    pub value: Seq<char>,
    pub description: Option<Seq<char>>,
    pub start: int,
    pub end: int,
}

impl View for Suggestion {
    type V = SuggestionModel;

    open spec fn view(&self) -> SuggestionModel {
        SuggestionModel {
            value: self.value@,
            description: opt_text(self.description),
            start: self.place.start as int,
            end: self.place.end as int,
        }
    }
}

pub open spec fn suggestion_models(list: Seq<Suggestion>) -> Seq<SuggestionModel> {
    list.map_values(|s: Suggestion| s@)
}

/// Something to offer, and what it is.
pub type Offer = (Seq<char>, Option<Seq<char>>);

/// What a list of offers says.
pub open spec fn offer_models(list: Seq<(String, Option<String>)>) -> Seq<Offer> {
    list.map_values(|o: (String, Option<String>)| (o.0@, opt_text(o.1)))
}

/// The offers that go on with what is typed, in quotes where they have to be
/// put.
pub open spec fn offered(offers: Seq<Offer>, typed: Seq<char>, quoted: bool, start: int, end: int) -> Seq<
    SuggestionModel,
>
    decreases offers.len(),
{
    if offers.len() == 0 {
        Seq::empty()
    } else {
        let before = offered(offers.drop_last(), typed, quoted, start, end);
        let (name, description) = offers.last();
        if begins(name, typed) {
            before.push(
                SuggestionModel {
                    value: if quoted {
                        "\""@ + name + "\""@
                    } else {
                        name
                    },
                    description,
                    start,
                    end,
                },
            )
        } else {
            before
        }
    }
}

fn offer(
    offers: &Vec<(String, Option<String>)>,
    typed: &str,
    quoted: bool,
    place: Place,
) -> (r: Vec<Suggestion>)
    ensures
        suggestion_models(r@) == offered(
            offer_models(offers@),
            typed@,
            quoted,
            place.start as int,
            place.end as int,
        ),
{
    let ghost all = offer_models(offers@);
    let ghost from = place.start as int;
    let ghost to = place.end as int;
    let mut out: Vec<Suggestion> = Vec::new();
    let mut i: usize = 0;
    assert(suggestion_models(out@) =~= offered(all.take(0), typed@, quoted, from, to));
    while i < offers.len()
        invariant
            i <= offers@.len(),
            all == offer_models(offers@),
            from == place.start,
            to == place.end,
            suggestion_models(out@) == offered(all.take(i as int), typed@, quoted, from, to),
        decreases offers@.len() - i,
    {
        let name: &String = &offers[i].0;
        proof {
            assert(all.take(i + 1).drop_last() =~= all.take(i as int));
            assert(all.take(i + 1).last() == (name@, opt_text(offers@[i as int].1)));
        }
        if starts_with(name.as_str(), typed) {
            let value: String = if quoted {
                let mut text: String = "\"".to_owned();
                text.push_str(name.as_str());
                text.push_str("\"");
                text
            } else {
                name.clone()
            };
            let description: Option<String> = match &offers[i].1 {
                Some(d) => Some(d.clone()),
                None => None,
            };
            let ghost before = out@;
            let made: Suggestion = Suggestion { value, description, place };
            out.push(made);
            assert(suggestion_models(out@) =~= suggestion_models(before).push(made@));
        }
        i += 1;
    }
    assert(all.take(i as int) =~= all);
    out
}

// ---- what there is ------------------------------------------------------

/// All of a kind, with what they are.
pub open spec fn described(names: Seq<Seq<char>>, what: Seq<char>) -> Seq<Offer> {
    names.map_values(|n: Seq<char>| (n, Some(what)))
}

/// The rows of a table as offers.
pub open spec fn row_offers(rows: Seq<(Seq<char>, Seq<char>)>) -> Seq<Offer> {
    rows.map_values(|r: (Seq<char>, Seq<char>)| (r.0, Some(r.1)))
}

/// The ids of the tabs.
pub open spec fn tab_ids(tabs: Seq<TabModel>) -> Seq<Seq<char>> {
    tabs.map_values(|t: TabModel| t.id)
}

/// The ids that are neither among those seen nor earlier in the list.
pub open spec fn fresh(ids: Seq<Seq<char>>, seen: Seq<Seq<char>>) -> Seq<Seq<char>>
    decreases ids.len(),
{
    if ids.len() == 0 {
        Seq::empty()
    } else {
        let before = fresh(ids.drop_last(), seen);
        if seen.contains(ids.last()) || before.contains(ids.last()) {
            before
        } else {
            before.push(ids.last())
        }
    }
}

/// What can be attached: all, what lives on the server, and the tabs, each
/// once.
pub open spec fn attach_offers(
    server: Seq<Seq<char>>,
    local: Seq<Seq<char>>,
    seen: Seq<Seq<char>>,
) -> Seq<Offer> {
    let remote = fresh(server, seen);
    seq![("all"@, Some("attach every live adapter"@))] + described(remote, "server-side adapter"@)
        + described(fresh(local, seen + remote), "adapter id"@)
}

fn describe(names: &Vec<String>, what: &str) -> (r: Vec<(String, Option<String>)>)
    ensures
        offer_models(r@) == described(texts(names@), what@),
{
    let mut out: Vec<(String, Option<String>)> = Vec::new();
    let mut i: usize = 0;
    while i < names.len()
        invariant
            i <= names@.len(),
            out@.len() == i,
            forall|j: int|
                0 <= j < i ==> (#[trigger] out@[j]).0@ == names@[j]@ && opt_text(out@[j].1) == Some(
                    what@,
                ),
        decreases names@.len() - i,
    {
        out.push((names[i].clone(), Some(what.to_owned())));
        i += 1;
    }
    assert(offer_models(out@) =~= described(texts(names@), what@));
    out
}

fn row_list(rows: &Vec<(&'static str, &'static str)>) -> (r: Vec<(String, Option<String>)>)
    ensures
        offer_models(r@) == row_offers(row_texts(rows@)),
{
    let mut out: Vec<(String, Option<String>)> = Vec::new();
    let mut i: usize = 0;
    while i < rows.len()
        invariant
            i <= rows@.len(),
            out@.len() == i,
            forall|j: int|
                0 <= j < i ==> (#[trigger] out@[j]).0@ == rows@[j].0@ && opt_text(out@[j].1)
                    == Some(rows@[j].1@),
        decreases rows@.len() - i,
    {
        out.push((rows[i].0.to_owned(), Some(rows[i].1.to_owned())));
        i += 1;
    }
    assert(offer_models(out@) =~= row_offers(row_texts(rows@)));
    out
}

fn local_ids(ctx: &ReplCtx) -> (r: Vec<String>)
    ensures
        texts(r@) == tab_ids(ctx@.tabs),
{
    let mut out: Vec<String> = Vec::new();
    let mut i: usize = 0;
    while i < ctx.adapters.len()
        invariant
            i <= ctx.adapters@.len(),
            out@.len() == i,
            forall|j: int| 0 <= j < i ==> (#[trigger] out@[j])@ == ctx@.tabs[j].id,
        decreases ctx.adapters@.len() - i,
    {
        out.push(ctx.adapters[i].id.clone());
        assert(ctx@.tabs[i as int].id == ctx.adapters@[i as int].id@);
        i += 1;
    }
    assert(texts(out@) =~= tab_ids(ctx@.tabs));
    out
}

fn keep_fresh(ids: &Vec<String>, seen: &Vec<String>) -> (r: Vec<String>)
    ensures
        texts(r@) == fresh(texts(ids@), texts(seen@)),
{
    let ghost all = texts(ids@);
    let mut out: Vec<String> = Vec::new();
    let mut i: usize = 0;
    assert(texts(out@) =~= fresh(all.take(0), texts(seen@)));
    while i < ids.len()
        invariant
            i <= ids@.len(),
            all == texts(ids@),
            texts(out@) == fresh(all.take(i as int), texts(seen@)),
        decreases ids@.len() - i,
    {
        let id: String = ids[i].clone();
        proof {
            assert(all.take(i + 1).drop_last() =~= all.take(i as int));
            assert(all.take(i + 1).last() == id@);
            texts_push(out@, id);
        }
        if !listed(seen, id.as_str()) && !listed(&out, id.as_str()) {
            out.push(id);
        }
        i += 1;
    }
    assert(all.take(i as int) =~= all);
    out
}

fn attach_list(server: &Vec<String>, local: &Vec<String>, seen: Vec<String>) -> (r: Vec<
    (String, Option<String>),
>)
    ensures
        offer_models(r@) == attach_offers(texts(server@), texts(local@), texts(seen@)),
{
    let ghost seen_before = texts(seen@);
    let mut seen: Vec<String> = seen;
    let mut out: Vec<(String, Option<String>)> = vec![
        ("all".to_owned(), Some("attach every live adapter".to_owned())),
    ];
    assert(offer_models(out@) =~= seq![("all"@, Some("attach every live adapter"@))]);
    let remote: Vec<String> = keep_fresh(server, &seen);
    let mut also: Vec<String> = copied(&remote);
    let ghost first = seen@;
    let ghost second = also@;
    seen.append(&mut also);
    assert(texts(seen@) =~= texts(first) + texts(second));
    let near: Vec<String> = keep_fresh(local, &seen);
    let mut far_list: Vec<(String, Option<String>)> = describe(&remote, "server-side adapter");
    let mut near_list: Vec<(String, Option<String>)> = describe(&near, "adapter id");
    let ghost a = out@;
    let ghost b = far_list@;
    let ghost c = near_list@;
    out.append(&mut far_list);
    out.append(&mut near_list);
    assert(offer_models(out@) =~= offer_models(a) + offer_models(b) + offer_models(c));
    out
}

// ---- string arguments ---------------------------------------------------

/// What the first argument of a call names.
#[derive(Debug, Clone, Copy, PartialEq, Eq)]
pub enum StringArgKind {
    PluginName,
    KeyName,
    /// An adapter of the tab list.
    LocalAdapterId,
    /// An adapter, or all of them.
    AdapterIdOrAll,
}

/// The calls whose first argument can be completed.
pub open spec fn string_calls() -> Seq<(Seq<char>, StringArgKind)> {
    seq![
        ("session.spawn"@, StringArgKind::PluginName),
        ("session.resume"@, StringArgKind::PluginName),
        ("plugins.describe"@, StringArgKind::PluginName),
        ("send.key"@, StringArgKind::KeyName),
        ("session.attach"@, StringArgKind::AdapterIdOrAll),
        ("session.close"@, StringArgKind::LocalAdapterId),
    ]
}

fn string_call_list() -> (r: Vec<(&'static str, StringArgKind)>)
    ensures
        r@.map_values(|c: (&'static str, StringArgKind)| (c.0@, c.1)) == string_calls(),
{
    let r: Vec<(&'static str, StringArgKind)> = vec![
        ("session.spawn", StringArgKind::PluginName),
        ("session.resume", StringArgKind::PluginName),
        ("plugins.describe", StringArgKind::PluginName),
        ("send.key", StringArgKind::KeyName),
        ("session.attach", StringArgKind::AdapterIdOrAll),
        ("session.close", StringArgKind::LocalAdapterId),
    ];
    assert(r@.map_values(|c: (&'static str, StringArgKind)| (c.0@, c.1)) =~= string_calls());
    r
}

/// An argument that is being typed: where its text starts, and whether the
/// quote before it is still missing.
pub struct OpenArg {
    pub start: int,
    pub unquoted: bool,
}

/// Where the spaces and tabs from `i` on end.
pub open spec fn gap_end(s: Seq<char>, i: int) -> int
    decreases s.len() - i,
{
    if 0 <= i < s.len() && (s[i] == ' ' || s[i] == '\t') {
        gap_end(s, i + 1)
    } else {
        i
    }
}

/// Whether a quoted string goes on to the end of the text.
pub open spec fn unclosed(s: Seq<char>, i: int, quote: char) -> bool
    decreases s.len() - i,
{
    if i < 0 || i >= s.len() {
        true
    } else if s[i] == '\\' {
        i + 2 >= s.len() || unclosed(s, i + 2, quote)
    } else if s[i] == quote {
        false
    } else {
        unclosed(s, i + 1, quote)
    }
}

/// The string that opens at `i`, if it is still open at the end.
pub open spec fn open_string(s: Seq<char>, i: int) -> Option<OpenArg> {
    if unclosed(s, i + 1, s[i]) {
        Some(OpenArg { start: i + 1, unquoted: false })
    } else {
        None
    }
}

/// The first argument of a call that is being typed, if it is or may become
/// a string. `s` is what follows the name.
pub open spec fn first_arg(s: Seq<char>) -> Option<OpenArg> {
    let i = gap_end(s, 0);
    if i >= s.len() {
        None
    } else if s[i] == '(' || s[i] == '{' {
        let j = gap_end(s, i + 1);
        if j >= s.len() {
            Some(OpenArg { start: j, unquoted: true })
        } else if s[j] == '"' || s[j] == '\'' {
            open_string(s, j)
        } else {
            None
        }
    } else if s[i] == '"' || s[i] == '\'' {
        open_string(s, i)
    } else {
        None
    }
}

/// The argument of a call that is being typed: where the call stands, what
/// it names, where its text starts, and whether a quote is missing.
pub struct StringArg {
    pub at: int,
    pub kind: StringArgKind,
    pub start: int,
    pub unquoted: bool,
}

/// Whether a name can go on before `at`.
pub open spec fn tail_of_name(s: Seq<char>, at: int) -> bool {
    at > 0 && (ascii_letter(s[at - 1]) || ascii_digit(s[at - 1]) || s[at - 1] == '_')
}

/// The argument of the last call of a name.
pub open spec fn arg_of_call(s: Seq<char>, name: Seq<char>, kind: StringArgKind) -> Option<
    StringArg,
> {
    match rfind(s, name) {
        None => None,
        Some(at) => if tail_of_name(s, at) {
            None
        } else {
            match first_arg(s.skip(at + name.len())) {
                None => None,
                Some(arg) => Some(
                    StringArg {
                        at,
                        kind,
                        start: at + name.len() + arg.start,
                        unquoted: arg.unquoted,
                    },
                ),
            }
        },
    }
}

/// The argument of the first `n` calls that stands last.
pub open spec fn last_arg(s: Seq<char>, n: int) -> Option<StringArg>
    decreases n,
{
    if n <= 0 {
        None
    } else {
        let before = last_arg(s, n - 1);
        let (name, kind) = string_calls()[n - 1];
        match arg_of_call(s, name, kind) {
            None => before,
            Some(arg) => match before {
                Some(best) if arg.at <= best.at => Some(best),
                _ => Some(arg),
            },
        }
    }
}

/// The argument that is being typed.
pub open spec fn string_arg(s: Seq<char>) -> Option<StringArg> {
    last_arg(s, string_calls().len() as int)
}

struct OpenFound {
    start: usize,
    unquoted: bool,
}

struct Found {
    at: usize,
    kind: StringArgKind,
    start: usize,
    unquoted: bool,
}

proof fn gap_end_bounds(s: Seq<char>, i: int)
    requires
        0 <= i <= s.len(),
    ensures
        i <= gap_end(s, i) <= s.len(),
    decreases s.len() - i,
{
    if i < s.len() && (s[i] == ' ' || s[i] == '\t') {
        gap_end_bounds(s, i + 1);
    }
}

proof fn gap_end_is(s: Seq<char>, i: int, e: int)
    requires
        0 <= i <= e <= s.len(),
        forall|j: int| i <= j < e ==> (#[trigger] s[j] == ' ' || s[j] == '\t'),
        e < s.len() ==> s[e] != ' ' && s[e] != '\t',
    ensures
        gap_end(s, i) == e,
    decreases e - i,
{
    if i < e {
        assert(s[i] == ' ' || s[i] == '\t');
        gap_end_is(s, i + 1, e);
    }
}

fn skip_gap(chars: &Vec<char>, i: usize) -> (r: usize)
    requires
        i <= chars@.len(),
    ensures
        i <= r <= chars@.len(),
        r == gap_end(chars@, i as int),
{
    let mut e: usize = i;
    while e < chars.len() && (chars[e] == ' ' || chars[e] == '\t')
        invariant
            i <= e <= chars@.len(),
            forall|j: int| i <= j < e ==> (#[trigger] chars@[j] == ' ' || chars@[j] == '\t'),
        decreases chars@.len() - e,
    {
        e += 1;
    }
    proof {
        gap_end_is(chars@, i as int, e as int);
    }
    e
}

/// Whether the string that opens at `i` is still open at the end.
fn parse_open_string(chars: &Vec<char>, i: usize) -> (r: bool)
    requires
        i < chars@.len(),
    ensures
        r == (open_string(chars@, i as int) is Some),
{
    let n: usize = chars.len();
    let quote: char = chars[i];
    let mut j: usize = i + 1;
    while j < n
        invariant
            i < j <= n == chars@.len(),
            quote == chars@[i as int],
            unclosed(chars@, i + 1, quote) == unclosed(chars@, j as int, quote),
        decreases n - j,
    {
        if chars[j] == '\\' {
            if n - j < 2 {
                return true;
            }
            j += 2;
        } else if chars[j] == quote {
            return false;
        } else {
            j += 1;
        }
    }
    true
}

fn parse_first_arg_string(chars: &Vec<char>) -> (r: Option<OpenFound>)
    ensures
        first_arg(chars@) == (match r {
            Some(arg) => Some(OpenArg { start: arg.start as int, unquoted: arg.unquoted }),
            None => None,
        }),
        r matches Some(arg) ==> arg.start <= chars@.len(),
{
    let n: usize = chars.len();
    let i: usize = skip_gap(chars, 0);
    if i >= n {
        return None;
    }
    let first: char = chars[i];
    if first == '(' || first == '{' {
        let j: usize = skip_gap(chars, i + 1);
        if j >= n {
            return Some(OpenFound { start: j, unquoted: true });
        }
        if (chars[j] == '"' || chars[j] == '\'') && parse_open_string(chars, j) {
            return Some(OpenFound { start: j + 1, unquoted: false });
        }
        return None;
    }
    if (first == '"' || first == '\'') && parse_open_string(chars, i) {
        return Some(OpenFound { start: i + 1, unquoted: false });
    }
    None
}

fn rest_of(chars: &Vec<char>, from: usize) -> (r: Vec<char>)
    requires
        from <= chars@.len(),
    ensures
        r@ == chars@.skip(from as int),
{
    let mut out: Vec<char> = Vec::new();
    let mut i: usize = from;
    while i < chars.len()
        invariant
            from <= i <= chars@.len(),
            out@ == chars@.subrange(from as int, i as int),
        decreases chars@.len() - i,
    {
        out.push(chars[i]);
        assert(chars@.subrange(from as int, i + 1) =~= chars@.subrange(from as int, i as int).push(
            chars@[i as int],
        ));
        i += 1;
    }
    assert(chars@.subrange(from as int, i as int) =~= chars@.skip(from as int));
    out
}

/// What an argument that was found says.
spec fn found_model(r: Option<Found>) -> Option<StringArg> {
    match r {
        Some(f) => Some(
            StringArg {
                at: f.at as int,
                kind: f.kind,
                start: f.start as int,
                unquoted: f.unquoted,
            },
        ),
        None => None,
    }
}

fn find_arg_of_call(chars: &Vec<char>, name: &str, kind: StringArgKind) -> (r: Option<Found>)
    ensures
        found_model(r) == arg_of_call(chars@, name@, kind),
        r matches Some(f) ==> f.start <= chars@.len(),
{
    let at: usize = match rfind_at(chars, name) {
        Some(at) => at,
        None => {
            return None;
        },
    };
    proof {
        rfind_bounds(chars@, name@, chars@.len() as int);
    }
    if at > 0 {
        let prev: char = chars[at - 1];
        if is_ascii_letter(prev) || is_ascii_digit(prev) || prev == '_' {
            return None;
        }
    }
    let n: usize = chars.len();
    let name_chars: Vec<char> = chars_of(name);
    assert(at + name_chars@.len() <= n);
    let behind: usize = at + name_chars.len();
    let rest: Vec<char> = rest_of(chars, behind);
    match parse_first_arg_string(&rest) {
        Some(arg) => Some(
            Found { at, kind, start: behind + arg.start, unquoted: arg.unquoted },
        ),
        None => None,
    }
}

fn detect_string_arg(chars: &Vec<char>) -> (r: Option<Found>)
    ensures
        found_model(r) == string_arg(chars@),
        r matches Some(f) ==> f.start <= chars@.len(),
{
    let calls: Vec<(&'static str, StringArgKind)> = string_call_list();
    let ghost all = calls@.map_values(|c: (&'static str, StringArgKind)| (c.0@, c.1));
    let mut best: Option<Found> = None;
    let mut i: usize = 0;
    while i < calls.len()
        invariant
            i <= calls@.len(),
            all == calls@.map_values(|c: (&'static str, StringArgKind)| (c.0@, c.1)),
            all == string_calls(),
            found_model(best) == last_arg(chars@, i as int),
            best matches Some(f) ==> f.start <= chars@.len(),
        decreases calls@.len() - i,
    {
        let call: (&'static str, StringArgKind) = calls[i];
        assert(all[i as int] == (call.0@, call.1));
        if let Some(found) = find_arg_of_call(chars, call.0, call.1) {
            let better: bool = match &best {
                Some(old_best) => found.at > old_best.at,
                None => true,
            };
            if better {
                best = Some(found);
            }
        }
        i += 1;
    }
    assert(calls@.len() == string_calls().len());
    best
}

// ---- the completer ------------------------------------------------------

/// What there is to complete from.
#[derive(Debug)]
pub struct ReplCompleter<'a> {
    pub ctx: &'a ReplCtx,
    pub plugins: &'a PluginCache,
    pub adapters: &'a AdapterCache,
    /// The names that the client adds to Lua.
    pub repl_globals: &'a Vec<String>,
}

pub struct Sources {
    pub tabs: Seq<TabModel>,
    pub plugins: Seq<Seq<char>>,
    pub adapters: Seq<Seq<char>>,
    pub globals: Seq<Seq<char>>,
}

impl<'a> View for ReplCompleter<'a> {
    type V = Sources;

    open spec fn view(&self) -> Sources {
        Sources {
            tabs: self.ctx@.tabs,
            plugins: self.plugins@,
            adapters: self.adapters@,
            globals: texts(self.repl_globals@),
        }
    }
}

/// What the first argument of a call can be.
pub open spec fn arg_offers(kind: StringArgKind, from: Sources) -> Seq<Offer> {
    match kind {
        StringArgKind::PluginName => described(from.plugins, "plugin"@),
        StringArgKind::KeyName => row_offers(key_names()),
        StringArgKind::LocalAdapterId => described(tab_ids(from.tabs), "adapter id"@),
        StringArgKind::AdapterIdOrAll => attach_offers(
            from.adapters,
            tab_ids(from.tabs),
            seq!["all"@],
        ),
    }
}

/// The suggestions for a string argument that is being typed.
pub open spec fn arg_suggestions(prefix: Seq<char>, from: Sources) -> Option<
    Seq<SuggestionModel>,
> {
    match string_arg(prefix) {
        None => None,
        Some(arg) => {
            let inside = prefix.skip(arg.start);
            let end = byte_len(prefix);
            Some(
                offered(
                    arg_offers(arg.kind, from),
                    inside,
                    arg.unquoted,
                    if arg.unquoted {
                        end
                    } else {
                        end - byte_len(inside)
                    },
                    end,
                ),
            )
        },
    }
}

/// What is typed behind a meta command, if it is set off from it.
pub open spec fn behind_command(line: Seq<char>, command: Seq<char>) -> Option<Seq<char>> {
    let after = line.skip(command.len() as int);
    if begins(line, command) && (after.len() == 0 || after[0] == ' ') {
        Some(trim_start(after))
    } else {
        None
    }
}

/// The suggestions for the argument of a meta command.
pub open spec fn meta_suggestions(prefix: Seq<char>, from: Sources) -> Option<
    Seq<SuggestionModel>,
> {
    let line = trim_start(prefix);
    let end = byte_len(prefix);
    if begins(line, ":focus"@) {
        match behind_command(line, ":focus"@) {
            None => None,
            Some(after) => Some(
                offered(
                    described(tab_ids(from.tabs), "adapter id"@),
                    after,
                    false,
                    end - byte_len(after),
                    end,
                ),
            ),
        }
    } else {
        match behind_command(line, ":attach"@) {
            None => None,
            Some(after) => Some(
                offered(
                    attach_offers(from.adapters, tab_ids(from.tabs), Seq::empty()),
                    after,
                    false,
                    end - byte_len(after),
                    end,
                ),
            ),
        }
    }
}

/// Whether a character belongs to a token.
pub open spec fn token_part(c: char) -> bool {
    ascii_letter(c) || ascii_digit(c) || c == '_' || c == '.' || c == ':'
}

/// The token at the end of a text.
pub open spec fn last_token(s: Seq<char>) -> Seq<char>
    decreases s.len(),
{
    if s.len() > 0 && token_part(s.last()) {
        last_token(s.drop_last()).push(s.last())
    } else {
        Seq::empty()
    }
}

/// The token at the end of a text.
pub fn current_token(prefix: &str) -> (r: String)
    ensures
        r@ == last_token(prefix@),
        r@.len() <= prefix@.len(),
        r@ == prefix@.skip(prefix@.len() - r@.len()),
{
    let chars: Vec<char> = chars_of(prefix);
    let mut start: usize = chars.len();
    while start > 0 && is_token_part(chars[start - 1])
        invariant
            start <= chars@.len(),
            forall|j: int| start <= j < chars@.len() ==> token_part(#[trigger] chars@[j]),
        decreases start,
    {
        start -= 1;
    }
    proof {
        last_token_is(chars@, start as int);
        assert(chars@.skip(start as int) =~= chars@.subrange(start as int, chars@.len() as int));
    }
    slice_text(&chars, start, chars.len())
}

fn is_token_part(c: char) -> (r: bool)
    ensures
        r == token_part(c),
{
    is_ascii_letter(c) || is_ascii_digit(c) || c == '_' || c == '.' || c == ':'
}

proof fn last_token_is(s: Seq<char>, start: int)
    requires
        0 <= start <= s.len(),
        forall|j: int| start <= j < s.len() ==> token_part(#[trigger] s[j]),
        start > 0 ==> !token_part(s[start - 1]),
    ensures
        last_token(s) == s.skip(start),
    decreases s.len() - start,
{
    if start < s.len() {
        last_token_is(s.drop_last(), start);
        assert(s.skip(start) =~= s.drop_last().skip(start).push(s.last()));
    } else {
        assert(s.skip(start) =~= Seq::<char>::empty());
    }
}

/// Where a token is cut at its last dot.
pub open spec fn last_dot(token: Seq<char>) -> Option<int> {
    rfind(token, "."@)
}

/// How a name is put: with parentheses where it takes no arguments.
pub open spec fn called(name: Seq<char>, qualified: Seq<char>) -> Seq<char> {
    if nullary_names().contains(qualified) {
        name + "()"@
    } else {
        name
    }
}

/// The members of a table that go on with what is typed, in order.
pub open spec fn member_suggestions(
    head: Seq<char>,
    rest: Seq<char>,
    members: Seq<Seq<char>>,
    start: int,
    end: int,
) -> Seq<SuggestionModel>
    decreases members.len(),
{
    if members.len() == 0 {
        Seq::empty()
    } else {
        let before = member_suggestions(head, rest, members.drop_last(), start, end);
        let name = members.last();
        let qualified = head + "."@ + name;
        if begins(name, rest) {
            before.push(
                SuggestionModel {
                    value: called(name, qualified),
                    description: description(qualified),
                    start,
                    end,
                },
            )
        } else {
            before
        }
    }
}

/// The names that go on with what is typed.
pub open spec fn beginning_with(names: Seq<Seq<char>>, typed: Seq<char>) -> Seq<Seq<char>>
    decreases names.len(),
{
    if names.len() == 0 {
        Seq::empty()
    } else {
        let before = beginning_with(names.drop_last(), typed);
        if begins(names.last(), typed) {
            before.push(names.last())
        } else {
            before
        }
    }
}

/// The names that Lua knows, among the candidates.
pub open spec fn name_suggestions(
    names: Seq<Seq<char>>,
    known: Seq<bool>,
    start: int,
    end: int,
) -> Seq<SuggestionModel>
    decreases names.len(),
{
    if names.len() == 0 {
        Seq::empty()
    } else {
        let n = names.len() - 1;
        let before = name_suggestions(names.drop_last(), known, start, end);
        let name = names.last();
        if known[n] {
            before.push(
                SuggestionModel {
                    value: called(name, name),
                    description: description(name),
                    start,
                    end,
                },
            )
        } else {
            before
        }
    }
}

/// What is left to find out from Lua.
#[derive(Debug)]
pub enum Completion {
    /// Nothing: these are the suggestions.
    Ready(Vec<Suggestion>),
    /// The members of a table.
    Members { head: String, rest: String, place: Place },
    /// Which of the names there are.
    Names { names: Vec<String>, place: Place },
}

pub enum CompletionModel {
    Ready(Seq<SuggestionModel>),
    Members { head: Seq<char>, rest: Seq<char>, start: int, end: int },
    Names { names: Seq<Seq<char>>, start: int, end: int },
}

impl View for Completion {
    type V = CompletionModel;

    open spec fn view(&self) -> CompletionModel {
        match self {
            Completion::Ready(list) => CompletionModel::Ready(suggestion_models(list@)),
            Completion::Members { head, rest, place } => CompletionModel::Members {
                head: head@,
                rest: rest@,
                start: place.start as int,
                end: place.end as int,
            },
            Completion::Names { names, place } => CompletionModel::Names {
                names: texts(names@),
                start: place.start as int,
                end: place.end as int,
            },
        }
    }
}

/// How the text before the cursor is completed. A string argument goes
/// first, then the argument of a meta command, then meta commands, then the
/// members of a table and the names that the client adds.
pub open spec fn completion(prefix: Seq<char>, from: Sources) -> CompletionModel {
    let token = last_token(prefix);
    let end = byte_len(prefix);
    let start = end - byte_len(token);
    match arg_suggestions(prefix, from) {
        Some(list) => CompletionModel::Ready(list),
        None => match meta_suggestions(prefix, from) {
            Some(list) => CompletionModel::Ready(list),
            None => if token.len() > 0 && token[0] == ':' {
                CompletionModel::Ready(
                    offered(row_offers(meta_commands()), token, false, start, end),
                )
            } else {
                match last_dot(token) {
                    Some(dot) => CompletionModel::Members {
                        head: token.take(dot),
                        rest: token.skip(dot + 1),
                        start: end - byte_len(token.skip(dot + 1)),
                        end,
                    },
                    None => CompletionModel::Names {
                        names: sorted(beginning_with(from.globals, token)),
                        start,
                        end,
                    },
                }
            },
        },
    }
}

/// The place of the text that `inside` is the end of.
fn place_of(prefix: &str, inside: &str) -> (r: Place)
    requires
        exists|head: Seq<char>| prefix@ == #[trigger] (head + inside@),
    ensures
        r.end == byte_len(prefix@),
        r.start == byte_len(prefix@) - byte_len(inside@),
{
    let end: usize = byte_count(prefix);
    let width: usize = byte_count(inside);
    proof {
        let head = choose|head: Seq<char>| prefix@ == #[trigger] (head + inside@);
        byte_len_concat(head, inside@);
    }
    Place { start: end - width, end }
}

impl<'a> ReplCompleter<'a> {
    /// What the first argument of a call can be.
    fn suggestions_for_string_arg(&self, kind: StringArgKind) -> (r: Vec<
        (String, Option<String>),
    >)
        ensures
            offer_models(r@) == arg_offers(kind, self@),
    {
        match kind {
            StringArgKind::PluginName => describe(&self.plugins.names, "plugin"),
            StringArgKind::KeyName => row_list(&key_rows()),
            StringArgKind::LocalAdapterId => describe(&local_ids(self.ctx), "adapter id"),
            StringArgKind::AdapterIdOrAll => {
                let seen: Vec<String> = vec!["all".to_owned()];
                assert(texts(seen@) =~= seq!["all"@]);
                attach_list(&self.adapters.ids, &local_ids(self.ctx), seen)
            },
        }
    }

    fn complete_string_arg(&self, prefix: &str) -> (r: Option<Vec<Suggestion>>)
        ensures
            arg_suggestions(prefix@, self@) == (match r {
                Some(list) => Some(suggestion_models(list@)),
                None => None,
            }),
    {
        let chars: Vec<char> = chars_of(prefix);
        match detect_string_arg(&chars) {
            None => None,
            Some(found) => {
                let inside: String = slice_text(&chars, found.start, chars.len());
                proof {
                    assert(inside@ =~= prefix@.skip(found.start as int));
                    assert(prefix@ =~= prefix@.take(found.start as int) + inside@);
                }
                let mut place: Place = place_of(prefix, inside.as_str());
                if found.unquoted {
                    place = Place { start: place.end, end: place.end };
                }
                let offers: Vec<(String, Option<String>)> = self.suggestions_for_string_arg(
                    found.kind,
                );
                Some(offer(&offers, inside.as_str(), found.unquoted, place))
            },
        }
    }

    fn complete_meta_arg(&self, prefix: &str) -> (r: Option<Vec<Suggestion>>)
        ensures
            meta_suggestions(prefix@, self@) == (match r {
                Some(list) => Some(suggestion_models(list@)),
                None => None,
            }),
    {
        let line: String = trimmed_start(prefix);
        proof {
            crate::text::trim_start_cuts(prefix@);
        }
        if starts_with(line.as_str(), ":focus") {
            return match typed_behind(line.as_str(), ":focus") {
                None => None,
                Some(after) => {
                    proof {
                        behind_is_the_end(prefix@, line@, ":focus"@);
                    }
                    let place: Place = place_of(prefix, after.as_str());
                    let offers: Vec<(String, Option<String>)> = describe(
                        &local_ids(self.ctx),
                        "adapter id",
                    );
                    Some(offer(&offers, after.as_str(), false, place))
                },
            };
        }
        match typed_behind(line.as_str(), ":attach") {
            None => None,
            Some(after) => {
                proof {
                    behind_is_the_end(prefix@, line@, ":attach"@);
                }
                let place: Place = place_of(prefix, after.as_str());
                let none: Vec<String> = Vec::new();
                assert(texts(none@) =~= Seq::<Seq<char>>::empty());
                let offers: Vec<(String, Option<String>)> = attach_list(
                    &self.adapters.ids,
                    &local_ids(self.ctx),
                    none,
                );
                Some(offer(&offers, after.as_str(), false, place))
            },
        }
    }

    /// How the text before the cursor is completed, as far as that can be
    /// said without Lua.
    pub fn plan(&self, prefix: &str) -> (r: Completion)
        ensures
            r@ == completion(prefix@, self@),
    {
        if let Some(list) = self.complete_string_arg(prefix) {
            return Completion::Ready(list);
        }
        if let Some(list) = self.complete_meta_arg(prefix) {
            return Completion::Ready(list);
        }
        let token: String = current_token(prefix);
        assert(prefix@ =~= prefix@.take(prefix@.len() - token@.len()) + token@);
        let place: Place = place_of(prefix, token.as_str());
        let chars: Vec<char> = chars_of(token.as_str());
        if chars.len() > 0 && chars[0] == ':' {
            return Completion::Ready(offer(&row_list(&meta_rows()), token.as_str(), false, place));
        }
        proof {
            reveal_strlit(".");
        }
        match rfind_at(&chars, ".") {
            Some(dot) => {
                let head: String = slice_text(&chars, 0, dot);
                let rest: String = slice_text(&chars, dot + 1, chars.len());
                proof {
                    assert(head@ =~= token@.take(dot as int));
                    assert(rest@ =~= token@.skip(dot + 1));
                    let before = prefix@.take(prefix@.len() - token@.len());
                    assert(prefix@ =~= (before + token@.take(dot + 1)) + rest@);
                }
                let member_place: Place = place_of(prefix, rest.as_str());
                Completion::Members { head, rest, place: member_place }
            },
            None => {
                let matching: Vec<String> = filter_beginning(self.repl_globals, token.as_str());
                Completion::Names { names: sort_texts(matching), place }
            },
        }
    }
}

/// What is typed behind a meta command, if it is set off from it.
fn typed_behind(line: &str, command: &str) -> (r: Option<String>)
    ensures
        opt_text(r) == behind_command(line@, command@),
{
    match strip_prefix(line, command) {
        None => None,
        Some(after) => {
            let chars: Vec<char> = chars_of(after.as_str());
            if chars.len() == 0 || chars[0] == ' ' {
                Some(trimmed_start(after.as_str()))
            } else {
                None
            }
        },
    }
}

/// What is typed behind a meta command ends the line.
proof fn behind_is_the_end(prefix: Seq<char>, line: Seq<char>, command: Seq<char>)
    requires
        line == trim_start(prefix),
        behind_command(line, command) is Some,
    ensures
        exists|head: Seq<char>|
            prefix == #[trigger] (head + behind_command(line, command)->Some_0),
{
    crate::text::trim_start_cuts(prefix);
    let after = line.skip(command.len() as int);
    crate::text::trim_start_cuts(after);
    let typed = behind_command(line, command)->Some_0;
    let n = prefix.len() - typed.len();
    assert(line.len() >= command.len());
    assert(typed =~= prefix.skip(n));
    assert(prefix =~= prefix.take(n) + typed);
}

fn filter_beginning(names: &Vec<String>, typed: &str) -> (r: Vec<String>)
    ensures
        texts(r@) == beginning_with(texts(names@), typed@),
{
    let ghost all = texts(names@);
    let mut out: Vec<String> = Vec::new();
    let mut i: usize = 0;
    assert(texts(out@) =~= beginning_with(all.take(0), typed@));
    while i < names.len()
        invariant
            i <= names@.len(),
            all == texts(names@),
            texts(out@) == beginning_with(all.take(i as int), typed@),
        decreases names@.len() - i,
    {
        let name: String = names[i].clone();
        proof {
            assert(all.take(i + 1).drop_last() =~= all.take(i as int));
            assert(all.take(i + 1).last() == name@);
            texts_push(out@, name);
        }
        if starts_with(name.as_str(), typed) {
            out.push(name);
        }
        i += 1;
    }
    assert(all.take(i as int) =~= all);
    out
}

fn call_form(name: &str, qualified: &str) -> (r: String)
    ensures
        r@ == called(name@, qualified@),
{
    let mut value: String = name.to_owned();
    if is_nullary(qualified) {
        value.push_str("()");
    }
    value
}

/// The members of a table that go on with what is typed, in order.
pub fn suggest_members(head: &str, rest: &str, members: Vec<String>, place: Place) -> (r: Vec<
    Suggestion,
>)
    ensures
        suggestion_models(r@) == member_suggestions(
            head@,
            rest@,
            sorted(texts(members@)),
            place.start as int,
            place.end as int,
        ),
{
    let members: Vec<String> = sort_texts(members);
    let ghost all = texts(members@);
    let ghost from = place.start as int;
    let ghost to = place.end as int;
    let mut out: Vec<Suggestion> = Vec::new();
    let mut i: usize = 0;
    assert(suggestion_models(out@) =~= member_suggestions(head@, rest@, all.take(0), from, to));
    while i < members.len()
        invariant
            i <= members@.len(),
            all == texts(members@),
            from == place.start,
            to == place.end,
            suggestion_models(out@) == member_suggestions(
                head@,
                rest@,
                all.take(i as int),
                from,
                to,
            ),
        decreases members@.len() - i,
    {
        let name: &str = members[i].as_str();
        proof {
            assert(all.take(i + 1).drop_last() =~= all.take(i as int));
            assert(all.take(i + 1).last() == name@);
        }
        if starts_with(name, rest) {
            let mut qualified: String = head.to_owned();
            qualified.push_str(".");
            qualified.push_str(name);
            let made: Suggestion = Suggestion {
                value: call_form(name, qualified.as_str()),
                description: description_for(qualified.as_str()),
                place,
            };
            let ghost before = out@;
            out.push(made);
            assert(suggestion_models(out@) =~= suggestion_models(before).push(made@));
        }
        i += 1;
    }
    assert(all.take(i as int) =~= all);
    out
}

/// The names that Lua knows, among the candidates.
pub fn suggest_names(names: &Vec<String>, known: &Vec<bool>, place: Place) -> (r: Vec<Suggestion>)
    requires
        known@.len() == names@.len(),
    ensures
        suggestion_models(r@) == name_suggestions(
            texts(names@),
            known@,
            place.start as int,
            place.end as int,
        ),
{
    let ghost all = texts(names@);
    let ghost from = place.start as int;
    let ghost to = place.end as int;
    let mut out: Vec<Suggestion> = Vec::new();
    let mut i: usize = 0;
    assert(suggestion_models(out@) =~= name_suggestions(all.take(0), known@, from, to));
    while i < names.len()
        invariant
            i <= names@.len(),
            known@.len() == names@.len(),
            all == texts(names@),
            from == place.start,
            to == place.end,
            suggestion_models(out@) == name_suggestions(all.take(i as int), known@, from, to),
        decreases names@.len() - i,
    {
        let name: &str = names[i].as_str();
        proof {
            assert(all.take(i + 1).drop_last() =~= all.take(i as int));
            assert(all.take(i + 1).last() == name@);
        }
        if known[i] {
            let made: Suggestion = Suggestion {
                value: call_form(name, name),
                description: description_for(name),
                place,
            };
            let ghost before = out@;
            out.push(made);
            assert(suggestion_models(out@) =~= suggestion_models(before).push(made@));
        }
        i += 1;
    }
    assert(all.take(i as int) =~= all);
    out
}

// ---- asking Lua ---------------------------------------------------------

/// `mlua::Table::pairs` on the global table of a name: its keys as texts,
/// with nothing for a key that is none, in the order in which Lua walks them.
/// There are none if there is no such table. What comes back depends on what
/// has run in the virtual machine, so nothing is said of it.
#[verifier::external_body]
fn table_keys(lua: &mlua::Lua, head: &str) -> (r: Option<Vec<Option<String>>>) {
    let table: mlua::Table = lua.globals().get(head).ok()?;
    let pairs = table.pairs::<String, mlua::Value>();
    Some(pairs.map(|pair| pair.ok().map(|(key, _)| key)).collect())
}

/// `mlua::Table::contains_key` on the globals: whether a name stands for
/// something. What comes back depends on what has run in the virtual
/// machine, so nothing is said of it.
#[verifier::external_body]
fn has_global(lua: &mlua::Lua, name: &str) -> (r: bool) {
    lua.globals().contains_key(name).unwrap_or(false)
}

/// The keys that are texts.
pub open spec fn text_keys(keys: Seq<Option<String>>) -> Seq<Seq<char>>
    decreases keys.len(),
{
    if keys.len() == 0 {
        Seq::empty()
    } else {
        let before = text_keys(keys.drop_last());
        match keys.last() {
            Some(key) => before.push(key@),
            None => before,
        }
    }
}

/// The keys that are texts.
pub fn keep_text_keys(keys: &Vec<Option<String>>) -> (r: Vec<String>)
    ensures
        texts(r@) == text_keys(keys@),
{
    let mut out: Vec<String> = Vec::new();
    let mut i: usize = 0;
    assert(texts(out@) =~= text_keys(keys@.take(0)));
    while i < keys.len()
        invariant
            i <= keys@.len(),
            texts(out@) == text_keys(keys@.take(i as int)),
        decreases keys@.len() - i,
    {
        assert(keys@.take(i + 1).drop_last() =~= keys@.take(i as int));
        if let Some(key) = &keys[i] {
            let key: String = key.clone();
            proof {
                texts_push(out@, key);
            }
            out.push(key);
        }
        i += 1;
    }
    assert(keys@.take(i as int) =~= keys@);
    out
}

/// What is typed before the cursor, which stands at a byte of the line or
/// behind it.
pub open spec fn typed_before(line: Seq<char>, pos: int) -> Seq<char> {
    before_byte(
        line,
        if pos < byte_len(line) {
            pos
        } else {
            byte_len(line)
        },
    )
}

/// The suggestions, with the members of the table and which names there are
/// as Lua told of them.
pub open spec fn answered(
    plan: CompletionModel,
    members: Seq<Seq<char>>,
    known: Seq<bool>,
) -> Seq<SuggestionModel> {
    match plan {
        CompletionModel::Ready(list) => list,
        CompletionModel::Members { head, rest, start, end } => member_suggestions(
            head,
            rest,
            sorted(members),
            start,
            end,
        ),
        CompletionModel::Names { names, start, end } => name_suggestions(names, known, start, end),
    }
}

impl<'a> ReplCompleter<'a> {
    /// The suggestions for the text before the cursor. What Lua knows is
    /// asked of it where it is needed.
    pub fn complete(&self, lua: &mlua::Lua, line: &str, pos: usize) -> (r: Vec<Suggestion>)
        requires
            pos < byte_len(line@) ==> ends_character(line@, pos as int),
        ensures
            exists|members: Seq<Seq<char>>, known: Seq<bool>|
                suggestion_models(r@) == #[trigger] answered(
                    completion(typed_before(line@, pos as int), self@),
                    members,
                    known,
                ),
    {
        let n: usize = byte_count(line);
        let at: usize = if pos < n {
            pos
        } else {
            n
        };
        proof {
            vstd::utf8::encode_utf8_valid_utf8(line@);
            vstd::utf8::is_char_boundary_start_end_of_seq(vstd::utf8::encode_utf8(line@));
        }
        let prefix: &str = cut_before(line, at);
        assert(prefix@ == typed_before(line@, pos as int));
        let plan: Completion = self.plan(prefix);
        let ghost planned = plan@;
        match plan {
            Completion::Ready(list) => {
                assert(suggestion_models(list@) == answered(planned, Seq::empty(), Seq::empty()));
                list
            },
            Completion::Members { head, rest, place } => {
                let members: Vec<String> = match table_keys(lua, head.as_str()) {
                    Some(keys) => keep_text_keys(&keys),
                    None => Vec::new(),
                };
                let ghost found = texts(members@);
                let out: Vec<Suggestion> = suggest_members(
                    head.as_str(),
                    rest.as_str(),
                    members,
                    place,
                );
                assert(suggestion_models(out@) == answered(planned, found, Seq::empty()));
                out
            },
            Completion::Names { names, place } => {
                let mut known: Vec<bool> = Vec::new();
                let mut i: usize = 0;
                while i < names.len()
                    invariant
                        i <= names@.len(),
                        known@.len() == i,
                    decreases names@.len() - i,
                {
                    known.push(has_global(lua, names[i].as_str()));
                    i += 1;
                }
                let out: Vec<Suggestion> = suggest_names(&names, &known, place);
                assert(suggestion_models(out@) == answered(planned, Seq::empty(), known@));
                out
            },
        }
    }
}

// ---- laws ---------------------------------------------------------------

/// Fresh ids are new ones, and each stands once.
proof fn fresh_is_fresh(ids: Seq<Seq<char>>, seen: Seq<Seq<char>>)
    ensures
        fresh(ids, seen).no_duplicates(),
        forall|i: int|
            0 <= i < fresh(ids, seen).len() ==> !seen.contains(#[trigger] fresh(ids, seen)[i])
                && ids.contains(fresh(ids, seen)[i]),
        forall|i: int|
            0 <= i < ids.len() ==> seen.contains(#[trigger] ids[i]) || fresh(
                ids,
                seen,
            ).contains(ids[i]),
    decreases ids.len(),
{
    let all = fresh(ids, seen);
    if ids.len() > 0 {
        let init = ids.drop_last();
        let before = fresh(init, seen);
        fresh_is_fresh(init, seen);
        assert forall|i: int| 0 <= i < all.len() implies !seen.contains(#[trigger] all[i])
            && ids.contains(all[i]) by {
            if i < before.len() {
                assert(all[i] == before[i]);
                let k = choose|k: int| 0 <= k < init.len() && init[k] == before[i];
                assert(ids[k] == all[i]);
            } else {
                assert(ids[ids.len() - 1] == all[i]);
            }
        }
        assert forall|i: int| 0 <= i < ids.len() implies seen.contains(#[trigger] ids[i])
            || all.contains(ids[i]) by {
            if i < init.len() {
                assert(init[i] == ids[i]);
                if before.contains(ids[i]) {
                    let k = choose|k: int| 0 <= k < before.len() && before[k] == ids[i];
                    assert(all[k] == ids[i]);
                }
            } else if !seen.contains(ids[i]) {
                if before.contains(ids[i]) {
                    let k = choose|k: int| 0 <= k < before.len() && before[k] == ids[i];
                    assert(all[k] == ids[i]);
                } else {
                    assert(all[all.len() - 1] == ids[i]);
                }
            }
        }
    }
}

/// An adapter is offered for attaching once, whether it lives on the server,
/// stands in the tab list, or both; and every such adapter is offered.
pub proof fn attach_offers_each_adapter_once(
    server: Seq<Seq<char>>,
    local: Seq<Seq<char>>,
    id: Seq<char>,
)
    ensures
        ({
            let remote = fresh(server, Seq::empty());
            let near = fresh(local, remote);
            &&& attach_offers(server, local, Seq::empty()) == seq![
                ("all"@, Some("attach every live adapter"@)),
            ] + described(remote, "server-side adapter"@) + described(near, "adapter id"@)
            &&& (remote + near).no_duplicates()
            &&& (remote + near).contains(id) == (server.contains(id) || local.contains(id))
        }),
{
    let none = Seq::<Seq<char>>::empty();
    let remote = fresh(server, none);
    let near = fresh(local, remote);
    fresh_is_fresh(server, none);
    fresh_is_fresh(local, remote);
    assert(none + remote =~= remote);
    let both = remote + near;
    assert forall|i: int, j: int|
        0 <= i < both.len() && 0 <= j < both.len() && i != j implies both[i] != both[j] by {
        if i < remote.len() && j >= remote.len() {
            assert(!remote.contains(near[j - remote.len()]));
            assert(remote[i] == both[i]);
        } else if j < remote.len() && i >= remote.len() {
            assert(!remote.contains(near[i - remote.len()]));
            assert(remote[j] == both[j]);
        }
    }
    if both.contains(id) {
        let k = choose|k: int| 0 <= k < both.len() && both[k] == id;
        if k < remote.len() {
            assert(server.contains(remote[k]));
        } else {
            assert(local.contains(near[k - remote.len()]));
        }
    }
    if server.contains(id) {
        let k = choose|k: int| 0 <= k < server.len() && server[k] == id;
        assert(remote.contains(server[k]));
        let m = choose|m: int| 0 <= m < remote.len() && remote[m] == id;
        assert(both[m] == id);
    }
    if local.contains(id) {
        let k = choose|k: int| 0 <= k < local.len() && local[k] == id;
        assert(remote.contains(local[k]) || near.contains(local[k]));
        if remote.contains(id) {
            let m = choose|m: int| 0 <= m < remote.len() && remote[m] == id;
            assert(both[m] == id);
        } else {
            let m = choose|m: int| 0 <= m < near.len() && near[m] == id;
            assert(both[remote.len() + m] == id);
        }
    }
}

/// Where several calls could be completed, it is the one that stands last.
pub proof fn the_last_call_wins(s: Seq<char>, k: int)
    requires
        0 <= k < string_calls().len(),
        arg_of_call(s, string_calls()[k].0, string_calls()[k].1) is Some,
    ensures
        string_arg(s) is Some,
        arg_of_call(s, string_calls()[k].0, string_calls()[k].1)->Some_0.at
            <= string_arg(s)->Some_0.at,
{
    last_arg_is_last(s, string_calls().len() as int, k);
}

proof fn last_arg_is_last(s: Seq<char>, n: int, k: int)
    requires
        0 <= k < n <= string_calls().len(),
        arg_of_call(s, string_calls()[k].0, string_calls()[k].1) is Some,
    ensures
        last_arg(s, n) is Some,
        arg_of_call(s, string_calls()[k].0, string_calls()[k].1)->Some_0.at <= last_arg(
            s,
            n,
        )->Some_0.at,
    decreases n,
{
    if k < n - 1 {
        last_arg_is_last(s, n - 1, k);
    }
}

/// What is offered goes on with what is typed.
pub proof fn offers_go_on_with_what_is_typed(
    offers: Seq<Offer>,
    typed: Seq<char>,
    start: int,
    end: int,
    i: int,
)
    requires
        0 <= i < offered(offers, typed, false, start, end).len(),
    ensures
        begins(offered(offers, typed, false, start, end)[i].value, typed),
        offered(offers, typed, false, start, end)[i].start == start,
        offered(offers, typed, false, start, end)[i].end == end,
    decreases offers.len(),
{
    if offers.len() > 0 {
        let before = offered(offers.drop_last(), typed, false, start, end);
        if i < before.len() {
            offers_go_on_with_what_is_typed(offers.drop_last(), typed, start, end, i);
        }
    }
}

/// A snapshot of a cache is the list that was set last: lists take each
/// other's place and do not add up.
pub proof fn caches_hold_the_last_list(before: Seq<Seq<char>>, lists: Seq<Seq<Seq<char>>>)
    requires
        lists.len() > 0,
    ensures
        cache_after(before, lists) == lists.last(),
{
}

} // verus!
