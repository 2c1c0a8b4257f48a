//! What the client does for lines behind a colon.

use crate::command::dispatch::{
    meta_step, notifications_params, OutcomeModel, PendingModel, StepModel,
};
use crate::command::wire::only_fields;
use crate::command::{
    command_of, filters_from, id_list, is_id, meta_of, notifications_of, trimmed_parts, CmdModel,
    Filter, MetaModel, NotificationsModel,
};
use crate::ctx::CtxModel;
use crate::error::ErrorModel;
use crate::json::{group_json_fields, json_parsed, JsonModel};
use crate::meta::{first_step, MetaOutcomeModel, MetaPendingModel, MetaStepModel};
use crate::text::{
    after_word, begins, find_space, find_space_bounds, first_word, join, joined_parts_are_split,
    trim, trim_keeps, white_space, words,
};
use vstd::prelude::*;

verus! {

broadcast use group_json_fields;

/// Whether a text is a word alone, or a word with white space and more behind it.
pub open spec fn leads(word: Seq<char>, rest: Seq<char>) -> bool {
    rest == word || (word.len() < rest.len() && rest.take(word.len() as int) == word
        && white_space(rest[word.len() as int]))
}

/// Whether a text is a word, white space and, behind it, a text that is not blank,
/// with no white space at its own ends.
pub open spec fn leads_to(word: Seq<char>, rest: Seq<char>, tail: Seq<char>) -> bool {
    exists|c: char|
        white_space(c) && rest == #[trigger] word.push(c) + tail && tail.len() > 0
            && !white_space(tail[0]) && !white_space(tail.last())
}

/// Whether nothing in a text is white space.
pub open spec fn solid(word: Seq<char>) -> bool {
    forall|i: int| 0 <= i < word.len() ==> !white_space(#[trigger] word[i])
}

proof fn spaces_are_found(s: Seq<char>, n: int)
    requires
        0 <= n <= s.len(),
        n < s.len() ==> white_space(s[n]),
        forall|i: int| 0 <= i < n ==> !white_space(#[trigger] s[i]),
    ensures
        find_space(s) == n,
{
    find_space_bounds(s);
    let m = find_space(s);
    if m < n {
        assert(!white_space(s[m]));
    }
    if n < m {
        assert(!white_space(s[n]));
    }
}

proof fn words_lead(word: Seq<char>, rest: Seq<char>)
    requires
        leads(word, rest),
        solid(word),
    ensures
        first_word(rest) == word,
{
    let n = word.len() as int;
    assert forall|i: int| 0 <= i < n implies !white_space(#[trigger] rest[i]) by {
        assert(rest.take(n)[i] == word[i]);
    }
    spaces_are_found(rest, n);
    assert(rest.take(n) =~= word);
}

proof fn tails_follow(word: Seq<char>, rest: Seq<char>, tail: Seq<char>)
    requires
        leads_to(word, rest, tail),
        solid(word),
    ensures
        leads(word, rest),
        first_word(rest) == word,
        after_word(rest) == Some(tail),
        trim(tail) == tail,
{
    let c = choose|c: char|
        white_space(c) && rest == #[trigger] word.push(c) + tail && tail.len() > 0
            && !white_space(tail[0]) && !white_space(tail.last());
    let n = word.len() as int;
    assert(rest.take(n) =~= word);
    words_lead(word, rest);
    assert(rest[n] == c);
    assert forall|i: int| 0 <= i < n implies !white_space(#[trigger] rest[i]) by {
        assert(rest[i] == word[i]);
    }
    spaces_are_found(rest, n);
    assert(rest.skip(n + 1) =~= tail);
    trim_keeps(tail);
}

/// The words of the meta commands: no two are alike, and none holds white space.
proof fn meta_words_differ()
    ensures
        "q"@.len() == 1,
        "rpc"@.len() == 3,
        "help"@.len() == 4,
        "help"@[0] == 'h',
        "help"@[1] == 'e',
        "quit"@.len() == 4,
        "quit"@[0] == 'q',
        "quit"@[1] == 'u',
        "exit"@.len() == 4,
        "exit"@[0] == 'e',
        "exit"@[1] == 'x',
        "tabs"@.len() == 4,
        "tabs"@[0] == 't',
        "tabs"@[1] == 'a',
        "live"@.len() == 4,
        "live"@[0] == 'l',
        "live"@[1] == 'i',
        "tips"@.len() == 4,
        "tips"@[0] == 't',
        "tips"@[1] == 'i',
        "focus"@.len() == 5,
        "attach"@.len() == 6,
        "notifications"@.len() == 13,
        solid("help"@),
        solid("quit"@),
        solid("q"@),
        solid("exit"@),
        solid("tabs"@),
        solid("focus"@),
        solid("notifications"@),
        solid("live"@),
        solid("attach"@),
        solid("rpc"@),
        solid("tips"@),
{
    reveal_strlit("q");
    reveal_strlit("rpc");
    reveal_strlit("help");
    reveal_strlit("quit");
    reveal_strlit("exit");
    reveal_strlit("tabs");
    reveal_strlit("live");
    reveal_strlit("tips");
    reveal_strlit("focus");
    reveal_strlit("attach");
    reveal_strlit("notifications");
}

/// A line behind a colon is the meta command of what follows, with the white space
/// round the line gone.
pub proof fn colons_mark_meta_commands(rest: Seq<char>)
    requires
        rest.len() > 0 ==> !white_space(rest.last()),
    ensures
        match meta_of(rest) {
            Ok(meta) => command_of(seq![':'] + rest) == Ok::<CmdModel, Seq<char>>(
                CmdModel::Meta(meta),
            ),
            Err(m) => command_of(seq![':'] + rest) == Err::<CmdModel, Seq<char>>(m),
        },
{
    let line = seq![':'] + rest;
    assert(line[0] == ':');
    trim_keeps(line);
    assert(line.drop_first() =~= rest);
}

/// What a meta command says at once, on both of its ways, with nothing changed.
pub open spec fn answers_at_once(
    rest: Seq<char>,
    ctx: CtxModel,
    told: MetaOutcomeModel,
    said: OutcomeModel,
) -> bool {
    &&& first_step(rest, ctx) == (
        Ok::<MetaStepModel, ErrorModel>(MetaStepModel::Done { outcome: told, heartbeat: None }),
        ctx,
    )
    &&& meta_of(rest) matches Ok(meta) && meta_step(meta, ctx) == (
        StepModel::Done { outcome: Ok(said), heartbeat: None },
        ctx,
    )
}

/// `:quit`, `:q` and `:exit` end the client, `:help` shows the help text, `:tabs` the
/// tabs and `:tips` the guide, whatever stands behind them; nothing is asked of the
/// server and nothing changes.
pub proof fn words_without_arguments(rest: Seq<char>, ctx: CtxModel)
    ensures
        leads("quit"@, rest) || leads("q"@, rest) || leads("exit"@, rest) ==> answers_at_once(
            rest,
            ctx,
            MetaOutcomeModel::Quit,
            OutcomeModel::Quit,
        ),
        leads("help"@, rest) ==> answers_at_once(
            rest,
            ctx,
            MetaOutcomeModel::ShowHelp(crate::meta::HELP_TEXT@),
            OutcomeModel::ShowHelp(crate::command::dispatch::HELP_TEXT@),
        ),
        leads("tabs"@, rest) ==> answers_at_once(
            rest,
            ctx,
            MetaOutcomeModel::Line(crate::adopt::tabs_line(ctx)),
            OutcomeModel::Line(crate::adopt::tabs_line(ctx)),
        ),
        leads("tips"@, rest) ==> first_step(rest, ctx) == (
            Ok::<MetaStepModel, ErrorModel>(
                MetaStepModel::Done {
                    outcome: MetaOutcomeModel::ShowTips(crate::tips::LONG_GUIDE@),
                    heartbeat: None,
                },
            ),
            ctx,
        ),
{
    meta_words_differ();
    if leads("quit"@, rest) {
        words_lead("quit"@, rest);
    }
    if leads("q"@, rest) {
        words_lead("q"@, rest);
    }
    if leads("exit"@, rest) {
        words_lead("exit"@, rest);
    }
    if leads("help"@, rest) {
        words_lead("help"@, rest);
    }
    if leads("tabs"@, rest) {
        words_lead("tabs"@, rest);
    }
    if leads("tips"@, rest) {
        words_lead("tips"@, rest);
    }
}

/// Whether a meta command makes a call, on both of its ways, and changes nothing yet.
pub open spec fn calls(
    rest: Seq<char>,
    ctx: CtxModel,
    method: Seq<char>,
    params: JsonModel,
    then: MetaPendingModel,
    next: PendingModel,
) -> bool {
    &&& first_step(rest, ctx).1 == ctx
    &&& first_step(rest, ctx).0 matches Ok(MetaStepModel::Call { request, pending })
        && request.method == method && request.params == params && pending == then
    &&& meta_of(rest) matches Ok(meta) && meta_step(meta, ctx).1 == ctx && (meta_step(
        meta,
        ctx,
    ).0 matches StepModel::Call { request, pending } && request.method == method
        && request.params == params && pending == next)
}

/// `:live` asks for the list of live adapters, to show it as it comes.
pub proof fn live_asks_for_the_list(rest: Seq<char>, ctx: CtxModel)
    requires
        leads("live"@, rest),
    ensures
        calls(
            rest,
            ctx,
            "adapter.live"@,
            JsonModel::Obj(Seq::empty()),
            MetaPendingModel::Json,
            PendingModel::Json,
        ),
{
    meta_words_differ();
    words_lead("live"@, rest);
}

/// `:focus` moves the focus to the adapter that it names, if that has a tab, says so
/// and changes nothing else; an unknown one is an error that names it, and so is
/// none at all.
pub proof fn focus_moves_to_the_named_adapter(rest: Seq<char>, id: Seq<char>, ctx: CtxModel)
    requires
        leads_to("focus"@, rest, id),
    ensures
        ({
            let (told, after) = first_step(rest, ctx);
            let known = exists|i: int|
                0 <= i < ctx.tabs.len() && (#[trigger] ctx.tabs[i]).id == id;
            &&& meta_of(rest) == Ok::<MetaModel, Seq<char>>(MetaModel::Focus(id))
            &&& meta_step(MetaModel::Focus(id), ctx).1 == after
            &&& after.tabs == ctx.tabs && after.history == ctx.history
            &&& known ==> after.focus == Some(id)
            &&& known ==> told == Ok::<MetaStepModel, ErrorModel>(
                MetaStepModel::Done {
                    outcome: MetaOutcomeModel::Line("focus → "@ + id),
                    heartbeat: None,
                },
            )
            &&& known ==> meta_step(MetaModel::Focus(id), ctx).0 == (StepModel::Done {
                outcome: Ok(OutcomeModel::Line("focus → "@ + id)),
                heartbeat: None,
            })
            &&& !known ==> after == ctx
            &&& !known ==> told == Err::<MetaStepModel, ErrorModel>(
                ErrorModel::Rpc("unknown adapter `"@ + id + "`"@),
            )
            &&& !known ==> meta_step(MetaModel::Focus(id), ctx).0 == (StepModel::Done {
                outcome: Err(ErrorModel::Rpc("unknown adapter `"@ + id + "`"@)),
                heartbeat: None,
            })
        }),
{
    meta_words_differ();
    tails_follow("focus"@, rest, id);
    crate::ctx::tab_index_bounds(ctx.tabs, id);
}

/// `:focus` and `:attach` without an id, and `:rpc` without a method, are errors, and
/// so is a word that is no command.
pub proof fn arguments_are_required(rest: Seq<char>)
    ensures
        rest == "focus"@ || rest == "attach"@ || rest == "rpc"@ || rest == "notifications"@
            ==> meta_of(rest) is Err,
        solid(rest) && !(rest == "focus"@ || rest == "attach"@ || rest == "rpc"@ || rest
            == "notifications"@ || rest == "help"@ || rest == "quit"@ || rest == "q"@ || rest
            == "exit"@ || rest == "tabs"@ || rest == "live"@) ==> meta_of(rest) is Err,
{
    meta_words_differ();
    reveal_strlit("");
    reveal_strlit("on");
    reveal_strlit("off");
    reveal_strlit("true");
    reveal_strlit("false");
    reveal_strlit("0");
    reveal_strlit("1");
    trim_keeps(""@);
    assert("on"@.len() == 2 && "off"@.len() == 3 && "true"@.len() == 4 && "false"@.len() == 5
        && "0"@.len() == 1 && "1"@.len() == 1);
    if rest == "focus"@ || rest == "attach"@ || rest == "rpc"@ || rest == "notifications"@
        || solid(rest) {
        words_lead(rest, rest);
        assert(find_space(rest) == rest.len()) by {
            spaces_are_found(rest, rest.len() as int);
        }
        assert(first_word(trim(""@)) =~= Seq::<char>::empty());
        assert(words(trim(""@)).len() == 0);
    }
}

/// `:attach all` asks for every live adapter, and any other id for that adapter's
/// state; the reply attaches what was asked for.
pub proof fn attach_asks_for_what_it_names(rest: Seq<char>, id: Seq<char>, ctx: CtxModel)
    requires
        leads_to("attach"@, rest, id),
    ensures
        id == "all"@ ==> calls(
            rest,
            ctx,
            "adapter.live"@,
            JsonModel::Obj(Seq::empty()),
            MetaPendingModel::AttachAll,
            PendingModel::AttachAll,
        ),
        id != "all"@ ==> calls(
            rest,
            ctx,
            "adapter.state"@,
            JsonModel::Obj(seq![("adapter"@, JsonModel::Str(id))]),
            MetaPendingModel::AttachOne(id),
            PendingModel::AttachOne(id),
        ),
{
    meta_words_differ();
    tails_follow("attach"@, rest, id);
    let named = crate::command::dispatch::adapter_params(id);
    reveal_with_fuel(crate::fields::put, 2);
    assert(named->Obj_0 =~= seq![("adapter"@, JsonModel::Str(id))]);
}

/// `:rpc` calls the method that it names, with the JSON text behind it, or with
/// nothing, as its parameters; text that is no JSON is an error.
pub proof fn rpc_calls_the_named_method(
    rest: Seq<char>,
    tail: Seq<char>,
    method: Seq<char>,
    text: Seq<char>,
    ctx: CtxModel,
)
    requires
        leads_to("rpc"@, rest, tail),
        solid(method),
        method.len() > 0,
        leads_to(method, tail, text),
    ensures
        match json_parsed(text) {
            Ok(params) => calls(
                rest,
                ctx,
                method,
                params,
                MetaPendingModel::Json,
                PendingModel::Json,
            ),
            Err(_) => meta_of(rest) is Err && first_step(rest, ctx).0 is Err && first_step(
                rest,
                ctx,
            ).1 == ctx,
        },
{
    meta_words_differ();
    tails_follow("rpc"@, rest, tail);
    tails_follow(method, tail, text);
}

/// What a subscription tells the server: whether notifications are on, and the
/// adapters and sessions they are about, in order, where there are any.
pub proof fn subscriptions_name_their_filters(request: NotificationsModel, i: int)
    ensures
        ({
            let params = notifications_params(request);
            &&& params.field("enabled"@) == Some(JsonModel::Bool(request.enabled))
            &&& only_fields(params, seq!["enabled"@, "adapters"@, "sessions"@])
            &&& request.adapters.len() == 0 ==> params.field("adapters"@) is None
            &&& request.sessions.len() == 0 ==> params.field("sessions"@) is None
            &&& 0 <= i < request.adapters.len() ==> (params.field(
                "adapters"@,
            ) matches Some(JsonModel::Arr(items)) && items.len() == request.adapters.len()
                && items[i] == JsonModel::Str(request.adapters[i]))
            &&& 0 <= i < request.sessions.len() ==> (params.field(
                "sessions"@,
            ) matches Some(JsonModel::Arr(items)) && items.len() == request.sessions.len()
                && items[i] == JsonModel::Str(request.sessions[i]))
        }),
{
    reveal_strlit("enabled");
    reveal_strlit("adapters");
    reveal_strlit("sessions");
    let names = seq!["enabled"@, "adapters"@, "sessions"@];
    assert("enabled"@.len() == 7);
    assert("adapters"@[0] == 'a');
    assert("sessions"@[0] == 's');
    assert("adapters"@.len() == 8);
    assert("sessions"@.len() == 8);
    assert(names[0] == "enabled"@ && names[1] == "adapters"@ && names[2] == "sessions"@);
    let params = notifications_params(request);
    assert forall|name: Seq<char>| !names.contains(name) implies (#[trigger] params.field(
        name,
    )) is None by {
        assert(name != "enabled"@ && name != "adapters"@ && name != "sessions"@);
    }
}

/// `:notifications` asks for the subscription that its words describe; the heartbeat
/// follows it once the server has agreed.
pub proof fn notifications_ask_for_the_subscription(
    rest: Seq<char>,
    tail: Seq<char>,
    ctx: CtxModel,
)
    requires
        leads_to("notifications"@, rest, tail),
    ensures
        match notifications_of(tail) {
            Ok(request) => calls(
                rest,
                ctx,
                "server.set_notifications"@,
                notifications_params(request),
                MetaPendingModel::Subscribed(request.enabled),
                PendingModel::Subscribed(request.enabled),
            ),
            Err(_) => first_step(rest, ctx).0 is Err && first_step(rest, ctx).1 == ctx,
        },
{
    meta_words_differ();
    tails_follow("notifications"@, rest, tail);
}

/// A list of ids, written with commas between them, is that list.
pub proof fn lists_of_ids_are_read(ids: Seq<Seq<char>>)
    requires
        ids.len() > 0,
        forall|i: int| 0 <= i < ids.len() ==> is_id(#[trigger] ids[i]),
    ensures
        id_list(join(ids, seq![','])) == ids,
{
    assert forall|i: int| 0 <= i < ids.len() implies !(#[trigger] ids[i]).contains(',') by {
        assert(is_id(ids[i]));
    }
    joined_parts_are_split(ids, ',');
    ids_are_kept(ids);
}

proof fn ids_are_kept(ids: Seq<Seq<char>>)
    requires
        forall|i: int| 0 <= i < ids.len() ==> is_id(#[trigger] ids[i]),
    ensures
        trimmed_parts(ids) == ids,
    decreases ids.len(),
{
    if ids.len() > 0 {
        let init = ids.drop_last();
        assert forall|i: int| 0 <= i < init.len() implies is_id(#[trigger] init[i]) by {
            assert(init[i] == ids[i]);
        }
        ids_are_kept(init);
        assert(is_id(ids[ids.len() - 1]));
        assert(init.push(ids.last()) =~= ids);
    }
}

/// Whether a word switches on, or off.
pub open spec fn switches_on(word: Seq<char>) -> bool {
    word == "on"@ || word == "true"@ || word == "1"@
}

pub open spec fn switches_off(word: Seq<char>) -> bool {
    word == "off"@ || word == "false"@ || word == "0"@
}

proof fn switches_differ()
    ensures
        "on"@.len() == 2,
        "off"@.len() == 3,
        "true"@.len() == 4,
        "false"@.len() == 5,
        "0"@.len() == 1,
        "1"@.len() == 1,
        "0"@[0] == '0',
        "1"@[0] == '1',
{
    reveal_strlit("on");
    reveal_strlit("off");
    reveal_strlit("true");
    reveal_strlit("false");
    reveal_strlit("0");
    reveal_strlit("1");
}

proof fn names_lead(a: Seq<char>, b: Seq<char>)
    ensures
        begins("adapters="@ + a, "adapters="@),
        !begins("sessions="@ + b, "adapters="@),
        begins("sessions="@ + b, "sessions="@),
        ("adapters="@ + a).skip("adapters="@.len() as int) == a,
        ("sessions="@ + b).skip("sessions="@.len() as int) == b,
{
    reveal_strlit("adapters=");
    reveal_strlit("sessions=");
    let named_a = "adapters="@ + a;
    let named_b = "sessions="@ + b;
    assert(named_a.take("adapters="@.len() as int) =~= "adapters="@);
    assert(named_b.take("sessions="@.len() as int) =~= "sessions="@);
    assert(named_a.skip("adapters="@.len() as int) =~= a);
    assert(named_b.skip("sessions="@.len() as int) =~= b);
    assert(named_b[0] == 's' && "adapters="@[0] == 'a');
    if begins(named_b, "adapters="@) {
        assert(named_b.take("adapters="@.len() as int)[0] == 'a');
    }
}

proof fn one_name(
    parts: Seq<Seq<char>>,
    which: Filter,
    a: Seq<char>,
    b: Seq<char>,
    more: Seq<char>,
)
    requires
        !begins(more, "adapters="@),
        !begins(more, "sessions="@),
        which != Filter::Nothing,
        parts.len() == 3,
        parts[1] == if which == Filter::Adapters {
            "adapters="@ + a
        } else {
            "sessions="@ + b
        },
        parts[2] == more,
    ensures
        filters_from(parts, 1, Seq::empty(), Seq::empty(), Filter::Nothing) == Ok::<
            (Seq<Seq<char>>, Seq<Seq<char>>),
            Seq<char>,
        >(
            if which == Filter::Adapters {
                (id_list(a) + id_list(more), Seq::empty())
            } else {
                (Seq::empty(), id_list(b) + id_list(more))
            },
        ),
{
    names_lead(a, b);
    let none = Seq::<Seq<char>>::empty();
    assert(none + id_list(a) =~= id_list(a));
    assert(none + id_list(b) =~= id_list(b));
    if which == Filter::Adapters {
        let whole = id_list(a) + id_list(more);
        assert(filters_from(parts, 3, whole, none, which) == Ok::<
            (Seq<Seq<char>>, Seq<Seq<char>>),
            Seq<char>,
        >((whole, none)));
        assert(filters_from(parts, 2, id_list(a), none, which) == filters_from(
            parts,
            3,
            whole,
            none,
            which,
        ));
        assert(filters_from(parts, 1, none, none, Filter::Nothing) == filters_from(
            parts,
            2,
            id_list(a),
            none,
            which,
        ));
    } else {
        let whole = id_list(b) + id_list(more);
        assert(filters_from(parts, 3, none, whole, which) == Ok::<
            (Seq<Seq<char>>, Seq<Seq<char>>),
            Seq<char>,
        >((none, whole)));
        assert(filters_from(parts, 2, none, id_list(b), which) == filters_from(
            parts,
            3,
            none,
            whole,
            which,
        ));
        assert(filters_from(parts, 1, none, none, Filter::Nothing) == filters_from(
            parts,
            2,
            none,
            id_list(b),
            which,
        ));
    }
}

proof fn two_names(parts: Seq<Seq<char>>, adapters_first: bool, a: Seq<char>, b: Seq<char>)
    requires
        parts.len() == 3,
        adapters_first ==> parts[1] == "adapters="@ + a && parts[2] == "sessions="@ + b,
        !adapters_first ==> parts[1] == "sessions="@ + b && parts[2] == "adapters="@ + a,
    ensures
        filters_from(parts, 1, Seq::empty(), Seq::empty(), Filter::Nothing) == Ok::<
            (Seq<Seq<char>>, Seq<Seq<char>>),
            Seq<char>,
        >((id_list(a), id_list(b))),
{
    names_lead(a, b);
    let none = Seq::<Seq<char>>::empty();
    assert(none + id_list(a) =~= id_list(a));
    assert(none + id_list(b) =~= id_list(b));
    let current = if adapters_first {
        Filter::Sessions
    } else {
        Filter::Adapters
    };
    assert(filters_from(parts, 3, id_list(a), id_list(b), current) == Ok::<
        (Seq<Seq<char>>, Seq<Seq<char>>),
        Seq<char>,
    >((id_list(a), id_list(b))));
    if adapters_first {
        assert(filters_from(parts, 2, id_list(a), none, Filter::Adapters) == filters_from(
            parts,
            3,
            id_list(a),
            id_list(b),
            current,
        ));
    } else {
        assert(filters_from(parts, 2, none, id_list(b), Filter::Sessions) == filters_from(
            parts,
            3,
            id_list(a),
            id_list(b),
            current,
        ));
    }
}

/// The words behind `:notifications` say what is subscribed to: `on` or `off` first;
/// then lists of adapters behind `adapters=` and of sessions behind `sessions=`, in
/// either order, each list going on in the words up to the next name. `off` takes no
/// list, and a list needs a name.
pub proof fn subscriptions_are_read(
    tail: Seq<char>,
    head: Seq<char>,
    a: Seq<char>,
    b: Seq<char>,
    more: Seq<char>,
)
    requires
        !begins(more, "adapters="@),
        !begins(more, "sessions="@),
    ensures
        words(tail) == seq![head] && switches_on(head) ==> (notifications_of(tail) matches Ok(
            request,
        ) && request.enabled && request.adapters.len() == 0 && request.sessions.len() == 0),
        words(tail) == seq![head] && switches_off(head) ==> (notifications_of(tail) matches Ok(
            request,
        ) && !request.enabled && request.adapters.len() == 0 && request.sessions.len() == 0),
        words(tail).len() == 0 || (words(tail)[0] == head && !switches_on(head) && !switches_off(
            head,
        )) ==> notifications_of(tail) is Err,
        words(tail) == seq![head, more] ==> notifications_of(tail) is Err,
        words(tail) == seq![head, "adapters="@ + a, more] && switches_on(head) ==> (
        notifications_of(tail) matches Ok(request) && request.enabled && request.adapters
            == id_list(a) + id_list(more) && request.sessions.len() == 0),
        words(tail) == seq![head, "sessions="@ + b, more] && switches_on(head) ==> (
        notifications_of(tail) matches Ok(request) && request.enabled && request.sessions
            == id_list(b) + id_list(more) && request.adapters.len() == 0),
        words(tail) == seq![head, "adapters="@ + a, "sessions="@ + b] && switches_on(head) ==> (
        notifications_of(tail) matches Ok(request) && request.enabled && request.adapters
            == id_list(a) && request.sessions == id_list(b)),
        words(tail) == seq![head, "sessions="@ + b, "adapters="@ + a] && switches_on(head) ==> (
        notifications_of(tail) matches Ok(request) && request.enabled && request.adapters
            == id_list(a) && request.sessions == id_list(b)),
        words(tail) == seq![head, "adapters="@ + a] && switches_off(head) && id_list(a).len() > 0
            ==> notifications_of(tail) is Err,
{
    switches_differ();
    names_lead(a, b);
    let parts = words(tail);
    let none = Seq::<Seq<char>>::empty();
    let named_a = "adapters="@ + a;
    let named_b = "sessions="@ + b;
    assert(none + id_list(a) =~= id_list(a));
    assert(none + id_list(b) =~= id_list(b));
    if parts == seq![head] {
        assert(parts[0] == head);
        assert(filters_from(parts, 1, none, none, Filter::Nothing) == Ok::<
            (Seq<Seq<char>>, Seq<Seq<char>>),
            Seq<char>,
        >((none, none)));
    }
    if parts == seq![head, more] {
        assert(parts[0] == head && parts[1] == more);
        assert(filters_from(parts, 1, none, none, Filter::Nothing) is Err);
    }
    if parts == seq![head, named_a, more] {
        assert(parts[0] == head && parts[1] == named_a && parts[2] == more);
        one_name(parts, Filter::Adapters, a, b, more);
    }
    if parts == seq![head, named_b, more] {
        assert(parts[0] == head && parts[1] == named_b && parts[2] == more);
        one_name(parts, Filter::Sessions, a, b, more);
    }
    if parts == seq![head, named_a, named_b] {
        assert(parts[0] == head && parts[1] == named_a && parts[2] == named_b);
        two_names(parts, true, a, b);
    }
    if parts == seq![head, named_b, named_a] {
        assert(parts[0] == head && parts[1] == named_b && parts[2] == named_a);
        two_names(parts, false, a, b);
    }
    if parts == seq![head, named_a] {
        assert(parts[0] == head && parts[1] == named_a);
        assert(filters_from(parts, 2, id_list(a), none, Filter::Adapters) == Ok::<
            (Seq<Seq<char>>, Seq<Seq<char>>),
            Seq<char>,
        >((id_list(a), none)));
        assert(filters_from(parts, 1, none, none, Filter::Nothing) == filters_from(
            parts,
            2,
            id_list(a),
            none,
            Filter::Adapters,
        ));
    }
}

/// Words that are written with spaces between them are those words.
pub proof fn words_are_read(list: Seq<Seq<char>>)
    requires
        forall|i: int| 0 <= i < list.len() ==> (#[trigger] list[i]).len() > 0 && solid(list[i]),
    ensures
        words(join(list, seq![' '])) == list,
    decreases list.len(),
{
    let text = join(list, seq![' ']);
    if list.len() == 0 {
        assert(list =~= Seq::<Seq<char>>::empty());
    } else {
        first_words_come_first(list, seq![' ']);
        let rest = list.drop_first();
        let word = list[0];
        assert(word.len() > 0 && solid(word));
        assert forall|i: int| 0 <= i < rest.len() implies (#[trigger] rest[i]).len() > 0 && solid(
            rest[i],
        ) by {
            assert(rest[i] == list[i + 1]);
        }
        words_are_read(rest);
        let n = word.len() as int;
        assert forall|i: int| 0 <= i < n implies !white_space(#[trigger] text[i]) by {
            assert(text[i] == word[i]);
        }
        if rest.len() > 0 {
            assert(text[n] == ' ');
        }
        spaces_are_found(text, n);
        assert(text.take(n) =~= word);
        assert(!white_space(text[0]));
        if rest.len() > 0 {
            let after = text.skip(n);
            assert(after[0] == ' ');
            assert(after.drop_first() =~= join(rest, seq![' ']));
            assert(words(after) == words(after.drop_first()));
        } else {
            assert(text.skip(n).len() == 0);
            assert(words(text.skip(n)) =~= Seq::<Seq<char>>::empty());
            assert(rest =~= Seq::<Seq<char>>::empty());
        }
        assert(seq![word] + rest =~= list);
    }
}

proof fn first_words_come_first(list: Seq<Seq<char>>, sep: Seq<char>)
    requires
        list.len() > 0,
    ensures
        list.len() == 1 ==> join(list, sep) == list[0],
        list.len() > 1 ==> join(list, sep) == list[0] + sep + join(list.drop_first(), sep),
    decreases list.len(),
{
    if list.len() == 2 {
        assert(list.drop_last()[0] == list[0]);
        assert(join(list.drop_last(), sep) == list[0]);
        assert(join(list.drop_first(), sep) == list[1]);
    } else if list.len() > 2 {
        let init = list.drop_last();
        first_words_come_first(init, sep);
        let tail = list.drop_first();
        assert(init.drop_first() =~= tail.drop_last());
        assert(join(tail, sep) == join(tail.drop_last(), sep) + sep + tail.last());
        assert(join(list, sep) =~= list[0] + sep + join(tail, sep));
    }
}

/// `:rpc` with a method alone calls it with an empty object.
pub proof fn rpc_calls_a_bare_method(rest: Seq<char>, method: Seq<char>, ctx: CtxModel)
    requires
        leads_to("rpc"@, rest, method),
        solid(method),
    ensures
        json_parsed("{}"@) matches Ok(params) ==> calls(
            rest,
            ctx,
            method,
            params,
            MetaPendingModel::Json,
            PendingModel::Json,
        ),
{
    meta_words_differ();
    tails_follow("rpc"@, rest, method);
    words_lead(method, method);
    spaces_are_found(method, method.len() as int);
    reveal_strlit("{}");
    trim_keeps("{}"@);
}

}
