//! The functions that Lua code calls: which request each makes, and what its
//! reply changes.

use crate::adopt::{
    adopt_started_adapter, attach_live, attach_one, attached_all, attached_one, live_entries,
    live_ids, resumed,
};
use crate::command::dispatch::{
    adapter_is_kept, adapter_json, adapter_params, focus_or_err, focused, intent_json, intent_params,
    names_beside_the_adapter, redact_json, redact_params, send_key_payload, send_text_payload,
    turn_params, wait_by, wait_json, Request, RequestModel,
};
use crate::command::request::{with_some, MATCHER_INTENT};
use crate::ctx::{opt_text, AdapterTab, CtxModel, ReplCtx, TabModel};
use crate::error::{Error, ErrorModel};
use crate::json::{models, no_fields, number, text_list, Json, JsonModel};
use crate::lua::options::{
    at_name, build_adapter_start_params, find_name, flag_at, flag_option, integer_at,
    integer_option, is_nil, params_model, prior_at, resolve_prior_alias, start_params, text_at,
    text_option, Borrowed,
};
use crate::lua::{
    borrow_pairs, call_shape, json_reading, pairs_of, read_call, values_of, LuaKey, LuaKind,
    LuaTable, LuaValue, Pairs,
};
use crate::text::{begins, decimal_int, decimal_int_text, same, texts};
use vstd::prelude::*;

verus! {

broadcast use vstd::string::group_string_axioms;

// ---- arguments ----------------------------------------------------------

/// The first argument, which has to be a string.
pub open spec fn string_arg(positional: Seq<LuaValue>, label: Seq<char>, what: Seq<char>) -> Result<
    Seq<char>,
    ErrorModel,
> {
    if positional.len() == 0 {
        Err(ErrorModel::Rpc(label + " expects a string "@ + what))
    } else if positional[0].kind is String {
        match positional[0].text {
            Ok(s) => Ok(s@),
            Err(e) => Err(ErrorModel::Lua(e@)),
        }
    } else {
        Err(
            ErrorModel::Rpc(
                label + " expects a string "@ + what + "; got "@ + positional[0].shown@,
            ),
        )
    }
}

/// The first argument, which has to be a number; a fraction is cut off.
pub open spec fn integer_arg(
    positional: Seq<LuaValue>,
    label: Seq<char>,
    what: Seq<char>,
) -> Result<i64, ErrorModel> {
    if positional.len() == 0 {
        Err(ErrorModel::Rpc(label + " expects "@ + what))
    } else {
        match positional[0].kind {
            LuaKind::Integer(n) => Ok(n),
            LuaKind::Number { whole, .. } => Ok(whole),
            _ => Err(
                ErrorModel::Rpc(
                    label + " expects "@ + what + " (integer); got "@ + positional[0].shown@,
                ),
            ),
        }
    }
}

/// What a text is, or why there is none.
pub open spec fn text_model(r: Result<String, Error>) -> Result<Seq<char>, ErrorModel> {
    match r {
        Ok(s) => Ok(s@),
        Err(e) => Err(e@),
    }
}

/// The first argument, which has to be a string.
pub fn expect_string<'a>(positional: &Vec<&'a LuaValue>, label: &str, what: &str) -> (r: Result<
    String,
    Error,
>)
    ensures
        text_model(r) == string_arg(values_of(positional@), label@, what@),
{
    if positional.len() == 0 {
        let mut message: String = label.to_owned();
        message.push_str(" expects a string ");
        message.push_str(what);
        return Err(Error::Rpc(message));
    }
    let first: &'a LuaValue = positional[0];
    assert(values_of(positional@)[0] == *first);
    match first.kind {
        LuaKind::String => match &first.text {
            Ok(s) => Ok(s.clone()),
            Err(e) => Err(Error::Lua(e.clone())),
        },
        _ => {
            let mut message: String = label.to_owned();
            message.push_str(" expects a string ");
            message.push_str(what);
            message.push_str("; got ");
            message.push_str(first.shown.as_str());
            Err(Error::Rpc(message))
        },
    }
}

/// The first argument, which has to be a number; a fraction is cut off.
pub fn expect_i64<'a>(positional: &Vec<&'a LuaValue>, label: &str, what: &str) -> (r: Result<
    i64,
    Error,
>)
    ensures
        integer_arg(values_of(positional@), label@, what@) == (match r {
            Ok(n) => Ok::<i64, ErrorModel>(n),
            Err(e) => Err(e@),
        }),
{
    if positional.len() == 0 {
        let mut message: String = label.to_owned();
        message.push_str(" expects ");
        message.push_str(what);
        return Err(Error::Rpc(message));
    }
    let first: &'a LuaValue = positional[0];
    assert(values_of(positional@)[0] == *first);
    match &first.kind {
        LuaKind::Integer(n) => Ok(*n),
        LuaKind::Number { whole, .. } => Ok(*whole),
        _ => {
            let mut message: String = label.to_owned();
            message.push_str(" expects ");
            message.push_str(what);
            message.push_str(" (integer); got ");
            message.push_str(first.shown.as_str());
            Err(Error::Rpc(message))
        },
    }
}

/// The focused adapter, or a failure.
pub open spec fn focus_of(ctx: CtxModel) -> Result<Seq<char>, ErrorModel> {
    match focused(ctx) {
        Ok(id) => Ok(id),
        Err(m) => Err(ErrorModel::Rpc(m)),
    }
}

/// The focused adapter, or a failure.
pub fn focus_required(ctx: &ReplCtx) -> (r: Result<String, Error>)
    ensures
        text_model(r) == focus_of(ctx@),
{
    focus_or_err(ctx)
}

/// Seconds in milliseconds, as far as they fit.
pub fn seconds_in_millis(seconds: i64) -> (r: i64)
    ensures
        r == (if seconds * 1000 > i64::MAX {
            i64::MAX as int
        } else if seconds * 1000 < i64::MIN {
            i64::MIN as int
        } else {
            seconds * 1000
        }),
{
    if seconds > i64::MAX / 1000 {
        i64::MAX
    } else if seconds < -(i64::MAX / 1000) {
        i64::MIN
    } else {
        seconds * 1000
    }
}

// ---- matchers -----------------------------------------------------------

/// The object `{"pattern": pattern}`.
pub open spec fn pattern_params(pattern: Seq<char>) -> JsonModel {
    no_fields().with("pattern"@, JsonModel::Str(pattern))
}

/// The object `{"stable_ms": millis}`.
pub open spec fn stable_params(millis: int) -> JsonModel {
    no_fields().with("stable_ms"@, JsonModel::Num(number(millis)))
}

fn pattern_json(pattern: &str) -> (r: Json)
    ensures
        r@ == pattern_params(pattern@),
{
    Json::object().with("pattern", Json::text(pattern))
}

fn stable_json(millis: i64) -> (r: Json)
    ensures
        r@ == stable_params(millis as int),
{
    Json::object().with("stable_ms", Json::signed(millis))
}

/// What a matcher's table asks for.
pub open spec fn tagged_matcher(table: LuaTable) -> Result<JsonModel, ErrorModel> {
    let pairs = table.pairs@;
    match text_at(pairs, "__pty_matcher"@) {
        Err(e) => Err(e),
        Ok(None) => Err(
            ErrorModel::Rpc(
                "wait= got a plain table; expected matches(...) or screen_stable(...)"@,
            ),
        ),
        Ok(Some(tag)) => if tag == "regex"@ {
            match at_name(pairs, "pattern"@) {
                None => Err(ErrorModel::Lua(table.no_text@)),
                Some(v) => match v.text {
                    Ok(s) => Ok(pattern_params(s@)),
                    Err(e) => Err(ErrorModel::Lua(e@)),
                },
            }
        } else if tag == "stable"@ {
            match at_name(pairs, "stable_ms"@) {
                None => Err(ErrorModel::Lua(table.no_integer@)),
                Some(v) => match v.integer {
                    Ok(n) => Ok(stable_params(n as int)),
                    Err(e) => Err(ErrorModel::Lua(e@)),
                },
            }
        } else {
            Err(
                ErrorModel::Rpc(
                    "wait= matcher tag `"@ + tag
                        + "` is not recognised; use matches(...) or screen_stable(...)"@,
                ),
            )
        },
    }
}

/// What a matcher asks for. A bare string is a pattern.
pub open spec fn matcher_params(value: LuaValue) -> Result<JsonModel, ErrorModel> {
    match value.table {
        Ok(table) => tagged_matcher(table),
        Err(_) => if value.kind is String {
            match value.text {
                Ok(s) => Ok(pattern_params(s@)),
                Err(e) => Err(ErrorModel::Lua(e@)),
            }
        } else {
            Err(
                ErrorModel::Rpc(
                    "wait= expected matches(...) / screen_stable(...) / a regex string; got "@
                        + value.shown@,
                ),
            )
        },
    }
}

fn read_tagged_matcher(table: &LuaTable) -> (r: Result<Json, Error>)
    ensures
        params_model(r) == tagged_matcher(*table),
{
    let pairs: Borrowed = borrow_pairs(table);
    let tag: String = match text_option(&pairs, "__pty_matcher") {
        Ok(Some(tag)) => tag,
        Ok(None) => {
            return Err(
                Error::rpc("wait= got a plain table; expected matches(...) or screen_stable(...)"),
            );
        },
        Err(e) => {
            return Err(e);
        },
    };
    if same(tag.as_str(), "regex") {
        match find_name(&pairs, "pattern") {
            None => Err(Error::Lua(table.no_text.clone())),
            Some(v) => match &v.text {
                Ok(s) => Ok(pattern_json(s.as_str())),
                Err(e) => Err(Error::Lua(e.clone())),
            },
        }
    } else if same(tag.as_str(), "stable") {
        match find_name(&pairs, "stable_ms") {
            None => Err(Error::Lua(table.no_integer.clone())),
            Some(v) => match &v.integer {
                Ok(n) => Ok(stable_json(*n)),
                Err(e) => Err(Error::Lua(e.clone())),
            },
        }
    } else {
        let mut message: String = "wait= matcher tag `".to_owned();
        message.push_str(tag.as_str());
        message.push_str("` is not recognised; use matches(...) or screen_stable(...)");
        Err(Error::Rpc(message))
    }
}

/// The intent and the parameters of a matcher.
pub fn resolve_matcher(value: &LuaValue) -> (r: Result<(String, Json), Error>)
    ensures
        match r {
            Ok((intent, params)) => intent@ == MATCHER_INTENT@ && matcher_params(*value) == Ok::<
                JsonModel,
                ErrorModel,
            >(params@),
            Err(e) => matcher_params(*value) == Err::<JsonModel, ErrorModel>(e@),
        },
{
    let params: Json = match &value.table {
        Ok(table) => match read_tagged_matcher(table) {
            Ok(params) => params,
            Err(e) => {
                return Err(e);
            },
        },
        Err(_) => match value.kind {
            LuaKind::String => match &value.text {
                Ok(s) => pattern_json(s.as_str()),
                Err(e) => {
                    return Err(Error::Lua(e.clone()));
                },
            },
            _ => {
                let mut message: String =
                    "wait= expected matches(...) / screen_stable(...) / a regex string; got ".to_owned();
                message.push_str(value.shown.as_str());
                return Err(Error::Rpc(message));
            },
        },
    };
    Ok((MATCHER_INTENT.to_owned(), params))
}

// ---- steps --------------------------------------------------------------

/// The functions that Lua code calls.
#[derive(Debug, Clone, Copy, PartialEq, Eq)]
pub enum Binding {
    Plugins,
    SessionSpawn,
    SessionResume,
    SessionList,
    SessionLive,
    SessionAttach,
    SessionClose,
    State,
    SendText,
    SendKey,
    SendIntent,
    Turn,
    Wait,
    WaitMatches,
    WaitScreenStable,
    Matches,
    ScreenStable,
    CancelWait,
    TranscriptSnapshot,
    ScreenSnapshot,
    View,
    Inspect,
}

/// What becomes of the reply to a request.
#[derive(Debug)]
pub enum LuaPending {
    /// It is the result.
    Json,
    /// It tells of a started adapter, which may replace a prior one.
    Started { plugin: String, prior: Option<String> },
    /// It tells of the state of an adapter to attach.
    AttachOne(String),
    /// It lists the live adapters to attach.
    AttachAll,
    Closed(String),
    /// It is a picture of the adapter's terminal.
    Screen(String),
}

/// The result of a call.
#[derive(Debug)]
pub enum LuaReply {
    /// The server's answer, or what was made from it.
    Json(Json),
    /// A table that the binding made itself.
    Plain(Json),
    /// A picture of an adapter's terminal.
    Screen { adapter: String, value: Json },
}

/// What to do next for a call.
#[derive(Debug)]
pub enum LuaStep {
    /// Make the request and go on with its reply.
    Call { request: Request, pending: LuaPending },
    /// This is the result.
    Reply(LuaReply),
}

pub enum LuaPendingModel {
    Json,
    Started { plugin: Seq<char>, prior: Option<Seq<char>> },
    AttachOne(Seq<char>),
    AttachAll,
    Closed(Seq<char>),
    Screen(Seq<char>),
}

pub enum LuaReplyModel {
    Json(JsonModel),
    Plain(JsonModel),
    Screen { adapter: Seq<char>, value: JsonModel },
}

pub enum LuaStepModel {
    Call { request: RequestModel, pending: LuaPendingModel },
    Reply(LuaReplyModel),
}

impl View for LuaPending {
    type V = LuaPendingModel;

    open spec fn view(&self) -> LuaPendingModel {
        match self {
            LuaPending::Json => LuaPendingModel::Json,
            LuaPending::Started { plugin, prior } => LuaPendingModel::Started {
                plugin: plugin@,
                prior: opt_text(*prior),
            },
            LuaPending::AttachOne(id) => LuaPendingModel::AttachOne(id@),
            LuaPending::AttachAll => LuaPendingModel::AttachAll,
            LuaPending::Closed(id) => LuaPendingModel::Closed(id@),
            LuaPending::Screen(id) => LuaPendingModel::Screen(id@),
        }
    }
}

impl View for LuaReply {
    type V = LuaReplyModel;

    open spec fn view(&self) -> LuaReplyModel {
        match self {
            LuaReply::Json(j) => LuaReplyModel::Json(j@),
            LuaReply::Plain(j) => LuaReplyModel::Plain(j@),
            LuaReply::Screen { adapter, value } => LuaReplyModel::Screen {
                adapter: adapter@,
                value: value@,
            },
        }
    }
}

impl View for LuaStep {
    type V = LuaStepModel;

    open spec fn view(&self) -> LuaStepModel {
        match self {
            LuaStep::Call { request, pending } => LuaStepModel::Call {
                request: request@,
                pending: pending@,
            },
            LuaStep::Reply(reply) => LuaStepModel::Reply(reply@),
        }
    }
}

/// What is to be done next, or why the call failed.
pub open spec fn step_model(r: Result<LuaStep, Error>) -> Result<LuaStepModel, ErrorModel> {
    match r {
        Ok(step) => Ok(step@),
        Err(e) => Err(e@),
    }
}

/// The step that asks the server.
pub open spec fn ask(method: Seq<char>, params: JsonModel, pending: LuaPendingModel) -> Result<
    LuaStepModel,
    ErrorModel,
> {
    Ok(LuaStepModel::Call { request: RequestModel { method, params }, pending })
}

fn ask_step(method: &str, params: Json, pending: LuaPending) -> (r: Result<LuaStep, Error>)
    ensures
        step_model(r) == ask(method@, params@, pending@),
{
    Ok(LuaStep::Call { request: Request { method: method.to_owned(), params }, pending })
}

/// The request of `plugins.describe`.
pub fn describe_plugin(name: &str) -> (r: Request)
    ensures
        r@ == (RequestModel {
            method: "plugin.describe"@,
            params: no_fields().with("plugin"@, JsonModel::Str(name@)),
        }),
        r@.params.field("plugin"@) == Some(JsonModel::Str(name@)),
{
    broadcast use crate::json::group_json_fields;

    Request {
        method: "plugin.describe".to_owned(),
        params: Json::object().with("plugin", Json::text(name)),
    }
}

// ---- `session` ----------------------------------------------------------

/// The step of `session.spawn`.
pub open spec fn spawn_step(args: Seq<LuaValue>) -> Result<LuaStepModel, ErrorModel> {
    let call = call_shape(args);
    match string_arg(call.positional, "session.spawn"@, "plugin name"@) {
        Err(e) => Err(e),
        Ok(plugin) => match start_params(plugin, call.options.pairs) {
            Err(e) => Err(e),
            Ok(params) => ask(
                "adapter.start"@,
                params,
                LuaPendingModel::Started { plugin, prior: None },
            ),
        },
    }
}

/// The step of `session.resume`.
pub open spec fn resume_step(args: Seq<LuaValue>) -> Result<LuaStepModel, ErrorModel> {
    let call = call_shape(args);
    match string_arg(call.positional, "session.resume"@, "plugin name"@) {
        Err(e) => Err(e),
        Ok(plugin) => match start_params(plugin, call.options.pairs) {
            Err(e) => Err(e),
            Ok(params) => match prior_at(call.options.pairs) {
                Err(e) => Err(e),
                Ok(prior) => ask(
                    "adapter.resume"@,
                    with_some(
                        params,
                        "prior_adapter"@,
                        match prior {
                            Some(id) => Some(JsonModel::Str(id)),
                            None => None,
                        },
                    ),
                    LuaPendingModel::Started { plugin, prior },
                ),
            },
        },
    }
}

/// How `session.list` tells of a tab.
pub open spec fn tab_record(tab: TabModel, focus: Option<Seq<char>>) -> JsonModel {
    let named = no_fields().with("id"@, JsonModel::Str(tab.id)).with(
        "plugin"@,
        JsonModel::Str(tab.plugin),
    );
    let labelled = with_some(
        named,
        "state"@,
        match tab.state_label {
            Some(label) => Some(JsonModel::Str(label)),
            None => None,
        },
    );
    if focus == Some(tab.id) {
        labelled.with("focused"@, JsonModel::Bool(true))
    } else {
        labelled
    }
}

/// All tabs, as `session.list` tells of them.
pub open spec fn tab_records(ctx: CtxModel) -> JsonModel {
    JsonModel::Arr(ctx.tabs.map_values(|t: TabModel| tab_record(t, ctx.focus)))
}

/// The step of `session.attach`.
pub open spec fn attach_step(args: Seq<LuaValue>) -> Result<LuaStepModel, ErrorModel> {
    let positional = call_shape(args).positional;
    let target = if positional.len() == 0 {
        Ok("all"@)
    } else if positional[0].kind is String {
        match positional[0].text {
            Ok(s) => Ok(s@),
            Err(e) => Err(ErrorModel::Lua(e@)),
        }
    } else {
        Err(
            ErrorModel::Rpc(
                "session.attach expects an adapter id or \"all\", got "@ + positional[0].shown@,
            ),
        )
    };
    match target {
        Err(e) => Err(e),
        Ok(id) => if id == "all"@ {
            ask("adapter.live"@, no_fields(), LuaPendingModel::AttachAll)
        } else {
            ask("adapter.state"@, adapter_params(id), LuaPendingModel::AttachOne(id))
        },
    }
}

/// The step of `session.close`.
pub open spec fn close_step(args: Seq<LuaValue>, ctx: CtxModel) -> Result<
    LuaStepModel,
    ErrorModel,
> {
    let positional = call_shape(args).positional;
    let adapter = if positional.len() == 0 {
        focus_of(ctx)
    } else if positional[0].kind is String {
        match positional[0].text {
            Ok(s) => Ok(s@),
            Err(e) => Err(ErrorModel::Lua(e@)),
        }
    } else {
        Err(
            ErrorModel::Rpc(
                "session.close expects a string adapter id; got "@ + positional[0].shown@,
            ),
        )
    };
    match adapter {
        Err(e) => Err(e),
        Ok(id) => ask("adapter.close"@, adapter_params(id), LuaPendingModel::Closed(id)),
    }
}

fn session_spawn(args: &Vec<LuaValue>) -> (r: Result<LuaStep, Error>)
    ensures
        step_model(r) == spawn_step(args@),
{
    let (positional, options) = read_call(args);
    let plugin: String = match expect_string(&positional, "session.spawn", "plugin name") {
        Ok(plugin) => plugin,
        Err(e) => {
            return Err(e);
        },
    };
    match build_adapter_start_params(plugin.as_str(), &options.pairs) {
        Ok(params) => ask_step("adapter.start", params, LuaPending::Started { plugin, prior: None }),
        Err(e) => Err(e),
    }
}

fn session_resume(args: &Vec<LuaValue>) -> (r: Result<LuaStep, Error>)
    ensures
        step_model(r) == resume_step(args@),
{
    let (positional, options) = read_call(args);
    let plugin: String = match expect_string(&positional, "session.resume", "plugin name") {
        Ok(plugin) => plugin,
        Err(e) => {
            return Err(e);
        },
    };
    let mut params: Json = match build_adapter_start_params(plugin.as_str(), &options.pairs) {
        Ok(params) => params,
        Err(e) => {
            return Err(e);
        },
    };
    let prior: Option<String> = match resolve_prior_alias(&options.pairs) {
        Ok(prior) => prior,
        Err(e) => {
            return Err(e);
        },
    };
    if let Some(id) = &prior {
        params = params.with("prior_adapter", Json::text(id.as_str()));
    }
    ask_step("adapter.resume", params, LuaPending::Started { plugin, prior })
}

fn tab_json(tab: &AdapterTab, focus: &Option<String>) -> (r: Json)
    ensures
        r@ == tab_record(tab@, opt_text(*focus)),
{
    let mut entry: Json = Json::object().with("id", Json::text(tab.id.as_str())).with(
        "plugin",
        Json::text(tab.plugin.as_str()),
    );
    if let Some(label) = &tab.state_label {
        entry = entry.with("state", Json::text(label.as_str()));
    }
    if let Some(id) = focus {
        if same(id.as_str(), tab.id.as_str()) {
            entry = entry.with("focused", Json::flag(true));
        }
    }
    entry
}

fn session_list(ctx: &ReplCtx) -> (r: Json)
    ensures
        r@ == tab_records(ctx@),
{
    broadcast use crate::json::json_view;

    let mut out: Vec<Json> = Vec::new();
    let mut i: usize = 0;
    while i < ctx.adapters.len()
        invariant
            i <= ctx.adapters@.len(),
            out@.len() == i,
            forall|j: int|
                0 <= j < i ==> (#[trigger] out@[j])@ == tab_record(ctx@.tabs[j], ctx@.focus),
        decreases ctx.adapters@.len() - i,
    {
        let entry: Json = tab_json(&ctx.adapters[i], &ctx.focus);
        assert(ctx@.tabs[i as int] == ctx.adapters@[i as int]@);
        out.push(entry);
        i += 1;
    }
    assert(models(out@) =~= ctx@.tabs.map_values(|t: TabModel| tab_record(t, ctx@.focus)));
    Json::Arr(out)
}

fn session_attach(args: &Vec<LuaValue>) -> (r: Result<LuaStep, Error>)
    ensures
        step_model(r) == attach_step(args@),
{
    let (positional, _options) = read_call(args);
    let target: String = if positional.len() == 0 {
        "all".to_owned()
    } else {
        let first: &LuaValue = positional[0];
        assert(values_of(positional@)[0] == *first);
        match first.kind {
            LuaKind::String => match &first.text {
                Ok(s) => s.clone(),
                Err(e) => {
                    return Err(Error::Lua(e.clone()));
                },
            },
            _ => {
                let mut message: String =
                    "session.attach expects an adapter id or \"all\", got ".to_owned();
                message.push_str(first.shown.as_str());
                return Err(Error::Rpc(message));
            },
        }
    };
    if same(target.as_str(), "all") {
        ask_step("adapter.live", Json::object(), LuaPending::AttachAll)
    } else {
        let params: Json = adapter_json(target.as_str());
        ask_step("adapter.state", params, LuaPending::AttachOne(target))
    }
}

fn session_close(args: &Vec<LuaValue>, ctx: &ReplCtx) -> (r: Result<LuaStep, Error>)
    ensures
        step_model(r) == close_step(args@, ctx@),
{
    let (positional, _options) = read_call(args);
    let adapter: String = if positional.len() == 0 {
        match focus_required(ctx) {
            Ok(id) => id,
            Err(e) => {
                return Err(e);
            },
        }
    } else {
        let first: &LuaValue = positional[0];
        assert(values_of(positional@)[0] == *first);
        match first.kind {
            LuaKind::String => match &first.text {
                Ok(s) => s.clone(),
                Err(e) => {
                    return Err(Error::Lua(e.clone()));
                },
            },
            _ => {
                let mut message: String =
                    "session.close expects a string adapter id; got ".to_owned();
                message.push_str(first.shown.as_str());
                return Err(Error::Rpc(message));
            },
        }
    };
    let params: Json = adapter_json(adapter.as_str());
    ask_step("adapter.close", params, LuaPending::Closed(adapter))
}

// ---- `send` -------------------------------------------------------------

/// The step that sends an intent to the focused adapter.
pub open spec fn send_step(
    ctx: CtxModel,
    intent: Seq<char>,
    params: JsonModel,
) -> Result<LuaStepModel, ErrorModel> {
    match focus_of(ctx) {
        Err(e) => Err(e),
        Ok(id) => ask(
            "adapter.send"@,
            intent_params(id, intent, params),
            LuaPendingModel::Json,
        ),
    }
}

/// The step of `send.text`.
pub open spec fn send_text_step(args: Seq<LuaValue>, ctx: CtxModel) -> Result<
    LuaStepModel,
    ErrorModel,
> {
    match string_arg(call_shape(args).positional, "send.text"@, "prompt string"@) {
        Err(e) => Err(e),
        Ok(text) => send_step(
            ctx,
            "send_prompt"@,
            no_fields().with("prompt"@, JsonModel::Str(text)),
        ),
    }
}

/// The step of `send.key`.
pub open spec fn send_key_step(args: Seq<LuaValue>, ctx: CtxModel) -> Result<
    LuaStepModel,
    ErrorModel,
> {
    match string_arg(call_shape(args).positional, "send.key"@, "key name"@) {
        Err(e) => Err(e),
        Ok(key) => send_step(ctx, "key"@, no_fields().with("key"@, JsonModel::Str(key))),
    }
}

/// The step of `send.intent`: all options are its parameters.
pub open spec fn send_intent_step(args: Seq<LuaValue>, ctx: CtxModel) -> Result<
    LuaStepModel,
    ErrorModel,
> {
    let call = call_shape(args);
    match string_arg(call.positional, "send.intent"@, "intent name"@) {
        Err(e) => Err(e),
        Ok(intent) => match call.options.json {
            Err(e) => Err(ErrorModel::Lua(e)),
            Ok(params) => send_step(ctx, intent, params),
        },
    }
}

fn send(ctx: &ReplCtx, intent: &str, params: Json) -> (r: Result<LuaStep, Error>)
    ensures
        step_model(r) == send_step(ctx@, intent@, params@),
{
    match focus_required(ctx) {
        Ok(id) => ask_step(
            "adapter.send",
            intent_json(id.as_str(), intent, params),
            LuaPending::Json,
        ),
        Err(e) => Err(e),
    }
}

fn send_text(args: &Vec<LuaValue>, ctx: &ReplCtx) -> (r: Result<LuaStep, Error>)
    ensures
        step_model(r) == send_text_step(args@, ctx@),
{
    let (positional, _options) = read_call(args);
    match expect_string(&positional, "send.text", "prompt string") {
        Ok(text) => {
            let (intent, params) = send_text_payload(text.as_str());
            send(ctx, intent, params)
        },
        Err(e) => Err(e),
    }
}

fn send_key(args: &Vec<LuaValue>, ctx: &ReplCtx) -> (r: Result<LuaStep, Error>)
    ensures
        step_model(r) == send_key_step(args@, ctx@),
{
    let (positional, _options) = read_call(args);
    match expect_string(&positional, "send.key", "key name") {
        Ok(key) => {
            let (intent, params) = send_key_payload(key.as_str());
            send(ctx, intent, params)
        },
        Err(e) => Err(e),
    }
}

fn send_intent(args: &Vec<LuaValue>, ctx: &ReplCtx) -> (r: Result<LuaStep, Error>)
    ensures
        step_model(r) == send_intent_step(args@, ctx@),
{
    let (positional, options) = read_call(args);
    match expect_string(&positional, "send.intent", "intent name") {
        Ok(intent) => {
            let params: Json = match options.json {
                Some(Ok(params)) => params.clone(),
                Some(Err(e)) => {
                    return Err(Error::Lua(e.clone()));
                },
                None => Json::object(),
            };
            send(ctx, intent.as_str(), params)
        },
        Err(e) => Err(e),
    }
}

// ---- `turn` -------------------------------------------------------------

/// What the first `n` options send: all that is not about waiting.
pub open spec fn turn_send(pairs: Pairs, n: int) -> Result<JsonModel, ErrorModel>
    decreases n,
{
    if n <= 0 {
        Ok(no_fields())
    } else {
        match turn_send(pairs, n - 1) {
            Err(e) => Err(e),
            Ok(params) => match pairs[n - 1].0.read() {
                Err(e) => Err(ErrorModel::Lua(e)),
                Ok(name) => if crate::command::dispatch::wait_only(name) {
                    Ok(params)
                } else {
                    match json_reading(pairs[n - 1].1.json) {
                        Err(e) => Err(ErrorModel::Lua(e)),
                        Ok(value) => Ok(params.with(name, value)),
                    }
                },
            },
        }
    }
}

/// How a turn waits: by a matcher, by the intent that it names, or by both.
pub open spec fn turn_wait(pairs: Pairs) -> Result<JsonModel, ErrorModel> {
    let params = match at_name(pairs, "wait"@) {
        Some(v) if !(v.kind is Nil) => match matcher_params(v) {
            Err(e) => Err(e),
            Ok(params) => Ok(Some(params)),
        },
        _ => Ok(None),
    };
    match params {
        Err(e) => Err(e),
        Ok(params) => match text_at(pairs, "wait_intent"@) {
            Err(e) => Err(e),
            Ok(intent) => Ok(wait_by(intent, params)),
        },
    }
}

/// The timeout in milliseconds, which is not negative.
pub open spec fn timeout_of(pairs: Pairs, label: Seq<char>) -> Result<Option<i64>, ErrorModel> {
    match integer_at(pairs, "timeout"@) {
        Ok(Some(n)) => if n < 0 {
            Err(
                ErrorModel::Rpc(
                    label + "(timeout=…) expected non-negative milliseconds, got "@ + decimal_int(
                        n as int,
                    ),
                ),
            )
        } else {
            Ok(Some(n))
        },
        other => other,
    }
}

/// The milliseconds as JSON.
pub open spec fn millis_json(millis: Option<i64>) -> Option<JsonModel> {
    match millis {
        Some(n) => Some(JsonModel::Num(number(n as int))),
        None => None,
    }
}

/// The step of `turn`. A bad timeout is told before a missing focus.
pub open spec fn turn_step(args: Seq<LuaValue>, ctx: CtxModel) -> Result<LuaStepModel, ErrorModel> {
    let call = call_shape(args);
    let pairs = call.options.pairs;
    match string_arg(call.positional, "turn"@, "intent name"@) {
        Err(e) => Err(e),
        Ok(intent) => match timeout_of(pairs, "turn"@) {
            Err(e) => Err(e),
            Ok(timeout) => match focus_of(ctx) {
                Err(e) => Err(e),
                Ok(adapter) => match turn_send(pairs, pairs.len() as int) {
                    Err(e) => Err(e),
                    Ok(send) => match turn_wait(pairs) {
                        Err(e) => Err(e),
                        Ok(wait) => ask(
                            "adapter.turn"@,
                            turn_params(
                                adapter,
                                intent,
                                send,
                                with_some(wait, "timeout_ms"@, millis_json(timeout)),
                            ),
                            LuaPendingModel::Json,
                        ),
                    },
                },
            },
        },
    }
}

/// Once an option is in error, so are all longer beginnings.
proof fn turn_error_stays(pairs: Pairs, n: int, m: int)
    requires
        0 <= n <= m,
        turn_send(pairs, n) is Err,
    ensures
        turn_send(pairs, m) == turn_send(pairs, n),
    decreases m,
{
    if n < m {
        turn_error_stays(pairs, n, m - 1);
    }
}

fn turn_send_json<'a>(pairs: &Borrowed<'a>) -> (r: Result<Json, Error>)
    ensures
        params_model(r) == turn_send(pairs_of(pairs@), pairs@.len() as int),
{
    let ghost all = pairs_of(pairs@);
    let n: usize = pairs.len();
    let mut out: Json = Json::object();
    let mut i: usize = 0;
    while i < n
        invariant
            i <= n == pairs@.len(),
            all == pairs_of(pairs@),
            turn_send(all, i as int) == Ok::<JsonModel, ErrorModel>(out@),
        decreases n - i,
    {
        let pair: (&'a LuaKey, &'a LuaValue) = pairs[i];
        assert(all[i as int] == (*pair.0, *pair.1));
        let name: String = match pair.0.read_text() {
            Ok(name) => name,
            Err(e) => {
                proof {
                    turn_error_stays(all, i + 1, n as int);
                }
                return Err(Error::Lua(e));
            },
        };
        if !crate::command::dispatch::is_wait_only(name.as_str()) {
            match &pair.1.json {
                Ok(value) => {
                    out = out.with(name.as_str(), value.clone());
                },
                Err(e) => {
                    proof {
                        turn_error_stays(all, i + 1, n as int);
                    }
                    return Err(Error::Lua(e.clone()));
                },
            }
        }
        i += 1;
    }
    Ok(out)
}

fn turn_wait_json<'a>(pairs: &Borrowed<'a>) -> (r: Result<Json, Error>)
    ensures
        params_model(r) == turn_wait(pairs_of(pairs@)),
{
    let mut params: Option<Json> = None;
    if let Some(v) = find_name(pairs, "wait") {
        if !is_nil(v) {
            params = match resolve_matcher(v) {
                Ok((_, params)) => Some(params),
                Err(e) => {
                    return Err(e);
                },
            };
        }
    }
    match text_option(pairs, "wait_intent") {
        Ok(intent) => Ok(wait_json(intent, params)),
        Err(e) => Err(e),
    }
}

fn read_timeout<'a>(pairs: &Borrowed<'a>, label: &str) -> (r: Result<Option<i64>, Error>)
    ensures
        timeout_of(pairs_of(pairs@), label@) == (match r {
            Ok(o) => Ok::<Option<i64>, ErrorModel>(o),
            Err(e) => Err(e@),
        }),
{
    match integer_option(pairs, "timeout") {
        Ok(Some(n)) => if n < 0 {
            let mut message: String = label.to_owned();
            message.push_str("(timeout=…) expected non-negative milliseconds, got ");
            message.push_str(decimal_int_text(n).as_str());
            Err(Error::Rpc(message))
        } else {
            Ok(Some(n))
        },
        Ok(None) => Ok(None),
        Err(e) => Err(e),
    }
}

fn turn(args: &Vec<LuaValue>, ctx: &ReplCtx) -> (r: Result<LuaStep, Error>)
    ensures
        step_model(r) == turn_step(args@, ctx@),
{
    let (positional, options) = read_call(args);
    let intent: String = match expect_string(&positional, "turn", "intent name") {
        Ok(intent) => intent,
        Err(e) => {
            return Err(e);
        },
    };
    let timeout: Option<i64> = match read_timeout(&options.pairs, "turn") {
        Ok(timeout) => timeout,
        Err(e) => {
            return Err(e);
        },
    };
    let adapter: String = match focus_required(ctx) {
        Ok(id) => id,
        Err(e) => {
            return Err(e);
        },
    };
    let send: Json = match turn_send_json(&options.pairs) {
        Ok(send) => send,
        Err(e) => {
            return Err(e);
        },
    };
    let mut wait: Json = match turn_wait_json(&options.pairs) {
        Ok(wait) => wait,
        Err(e) => {
            return Err(e);
        },
    };
    if let Some(n) = timeout {
        wait = wait.with("timeout_ms", Json::signed(n));
    }
    let mut params: Json = adapter_json(adapter.as_str()).with(
        "send",
        Json::object().with("intent", Json::text(intent.as_str())).with("params", send),
    );
    if !wait.is_bare() {
        params = params.with("wait", wait);
    }
    ask_step("adapter.turn", params, LuaPending::Json)
}

// ---- `wait` -------------------------------------------------------------

/// The step that waits on the focused adapter. A bad timeout is told before
/// a missing focus.
pub open spec fn wait_step(
    ctx: CtxModel,
    intent: Seq<char>,
    matcher: JsonModel,
    pairs: Pairs,
) -> Result<LuaStepModel, ErrorModel> {
    match timeout_of(pairs, "wait"@) {
        Err(e) => Err(e),
        Ok(timeout) => match focus_of(ctx) {
            Err(e) => Err(e),
            Ok(adapter) => match text_at(pairs, "wait_id"@) {
                Err(e) => Err(e),
                Ok(wait_id) => ask(
                    "adapter.wait"@,
                    with_some(
                        with_some(
                            intent_params(adapter, intent, matcher),
                            "timeout_ms"@,
                            millis_json(timeout),
                        ),
                        "wait_id"@,
                        match wait_id {
                            Some(id) => Some(JsonModel::Str(id)),
                            None => None,
                        },
                    ),
                    LuaPendingModel::Json,
                ),
            },
        },
    }
}

/// The step of `wait.matches`.
pub open spec fn wait_matches_step(args: Seq<LuaValue>, ctx: CtxModel) -> Result<
    LuaStepModel,
    ErrorModel,
> {
    let call = call_shape(args);
    match string_arg(call.positional, "wait.matches"@, "pattern string"@) {
        Err(e) => Err(e),
        Ok(pattern) => wait_step(ctx, MATCHER_INTENT@, pattern_params(pattern), call.options.pairs),
    }
}

/// The step of `wait.screen_stable`.
pub open spec fn wait_stable_step(args: Seq<LuaValue>, ctx: CtxModel) -> Result<
    LuaStepModel,
    ErrorModel,
> {
    let call = call_shape(args);
    match integer_arg(call.positional, "wait.screen_stable"@, "milliseconds"@) {
        Err(e) => Err(e),
        Ok(millis) => wait_step(
            ctx,
            MATCHER_INTENT@,
            stable_params(millis as int),
            call.options.pairs,
        ),
    }
}

/// The step of `wait`, called as a table: the first argument is the table
/// itself, then come the matcher and the options.
pub open spec fn wait_call_step(args: Seq<LuaValue>, ctx: CtxModel) -> Result<
    LuaStepModel,
    ErrorModel,
> {
    if args.len() < 2 {
        Err(
            ErrorModel::Rpc(
                "wait() expects a matcher: wait(matches(\"…\")) or wait(screen_stable(ms(250)))"@,
            ),
        )
    } else {
        let options = if args.len() == 2 {
            Ok(Seq::empty())
        } else {
            match args[2].table {
                Ok(table) => Ok(table.pairs@),
                Err(_) => Err(
                    ErrorModel::Rpc("wait() opts must be a table; got "@ + args[2].shown@),
                ),
            }
        };
        match options {
            Err(e) => Err(e),
            Ok(pairs) => match matcher_params(args[1]) {
                Err(e) => Err(e),
                Ok(matcher) => wait_step(ctx, MATCHER_INTENT@, matcher, pairs),
            },
        }
    }
}

/// Waits with a matcher and its intent.
pub fn wait_dispatch_with_intent<'a>(
    ctx: &ReplCtx,
    intent: &str,
    matcher: Json,
    pairs: &Borrowed<'a>,
) -> (r: Result<LuaStep, Error>)
    ensures
        step_model(r) == wait_step(ctx@, intent@, matcher@, pairs_of(pairs@)),
{
    let timeout: Option<i64> = match read_timeout(pairs, "wait") {
        Ok(timeout) => timeout,
        Err(e) => {
            return Err(e);
        },
    };
    let adapter: String = match focus_required(ctx) {
        Ok(id) => id,
        Err(e) => {
            return Err(e);
        },
    };
    let mut params: Json = intent_json(adapter.as_str(), intent, matcher);
    if let Some(n) = timeout {
        params = params.with("timeout_ms", Json::signed(n));
    }
    match text_option(pairs, "wait_id") {
        Ok(Some(id)) => {
            params = params.with("wait_id", Json::text(id.as_str()));
        },
        Ok(None) => {},
        Err(e) => {
            return Err(e);
        },
    }
    ask_step("adapter.wait", params, LuaPending::Json)
}

fn wait_matches(args: &Vec<LuaValue>, ctx: &ReplCtx) -> (r: Result<LuaStep, Error>)
    ensures
        step_model(r) == wait_matches_step(args@, ctx@),
{
    let (positional, options) = read_call(args);
    match expect_string(&positional, "wait.matches", "pattern string") {
        Ok(pattern) => wait_dispatch_with_intent(
            ctx,
            MATCHER_INTENT,
            pattern_json(pattern.as_str()),
            &options.pairs,
        ),
        Err(e) => Err(e),
    }
}

fn wait_stable(args: &Vec<LuaValue>, ctx: &ReplCtx) -> (r: Result<LuaStep, Error>)
    ensures
        step_model(r) == wait_stable_step(args@, ctx@),
{
    let (positional, options) = read_call(args);
    match expect_i64(&positional, "wait.screen_stable", "milliseconds") {
        Ok(millis) => wait_dispatch_with_intent(
            ctx,
            MATCHER_INTENT,
            stable_json(millis),
            &options.pairs,
        ),
        Err(e) => Err(e),
    }
}

fn wait_call(args: &Vec<LuaValue>, ctx: &ReplCtx) -> (r: Result<LuaStep, Error>)
    ensures
        step_model(r) == wait_call_step(args@, ctx@),
{
    if args.len() < 2 {
        return Err(
            Error::rpc(
                "wait() expects a matcher: wait(matches(\"…\")) or wait(screen_stable(ms(250)))",
            ),
        );
    }
    let pairs: Borrowed = if args.len() == 2 {
        let none: Borrowed = Vec::new();
        assert(pairs_of(none@) == Seq::<(LuaKey, LuaValue)>::empty());
        none
    } else {
        match &args[2].table {
            Ok(table) => borrow_pairs(table),
            Err(_) => {
                let mut message: String = "wait() opts must be a table; got ".to_owned();
                message.push_str(args[2].shown.as_str());
                return Err(Error::Rpc(message));
            },
        }
    };
    match resolve_matcher(&args[1]) {
        Ok((intent, matcher)) => wait_dispatch_with_intent(ctx, intent.as_str(), matcher, &pairs),
        Err(e) => Err(e),
    }
}

// ---- matcher constructors -----------------------------------------------

/// The table that `matches` makes.
pub open spec fn matches_step(args: Seq<LuaValue>) -> Result<LuaStepModel, ErrorModel> {
    match string_arg(call_shape(args).positional, "matches"@, "regex pattern"@) {
        Err(e) => Err(e),
        Ok(pattern) => Ok(
            LuaStepModel::Reply(
                LuaReplyModel::Plain(
                    no_fields().with("__pty_matcher"@, JsonModel::Str("regex"@)).with(
                        "pattern"@,
                        JsonModel::Str(pattern),
                    ),
                ),
            ),
        ),
    }
}

/// The table that `screen_stable` makes.
pub open spec fn stable_step(args: Seq<LuaValue>) -> Result<LuaStepModel, ErrorModel> {
    match integer_arg(call_shape(args).positional, "screen_stable"@, "milliseconds"@) {
        Err(e) => Err(e),
        Ok(millis) => Ok(
            LuaStepModel::Reply(
                LuaReplyModel::Plain(
                    no_fields().with("__pty_matcher"@, JsonModel::Str("stable"@)).with(
                        "stable_ms"@,
                        JsonModel::Num(number(millis as int)),
                    ),
                ),
            ),
        ),
    }
}

fn matches_table(args: &Vec<LuaValue>) -> (r: Result<LuaStep, Error>)
    ensures
        step_model(r) == matches_step(args@),
{
    let (positional, _options) = read_call(args);
    match expect_string(&positional, "matches", "regex pattern") {
        Ok(pattern) => Ok(
            LuaStep::Reply(
                LuaReply::Plain(
                    Json::object().with("__pty_matcher", Json::text("regex")).with(
                        "pattern",
                        Json::text(pattern.as_str()),
                    ),
                ),
            ),
        ),
        Err(e) => Err(e),
    }
}

fn stable_table(args: &Vec<LuaValue>) -> (r: Result<LuaStep, Error>)
    ensures
        step_model(r) == stable_step(args@),
{
    let (positional, _options) = read_call(args);
    match expect_i64(&positional, "screen_stable", "milliseconds") {
        Ok(millis) => Ok(
            LuaStep::Reply(
                LuaReply::Plain(
                    Json::object().with("__pty_matcher", Json::text("stable")).with(
                        "stable_ms",
                        Json::signed(millis),
                    ),
                ),
            ),
        ),
        Err(e) => Err(e),
    }
}

// ---- the rest -----------------------------------------------------------

/// The step of a request on the focused adapter.
pub open spec fn focused_step(ctx: CtxModel, method: Seq<char>) -> Result<
    LuaStepModel,
    ErrorModel,
> {
    match focus_of(ctx) {
        Err(e) => Err(e),
        Ok(id) => ask(method, adapter_params(id), LuaPendingModel::Json),
    }
}

/// The step of `cancel_wait`.
pub open spec fn cancel_step(args: Seq<LuaValue>) -> Result<LuaStepModel, ErrorModel> {
    match string_arg(call_shape(args).positional, "cancel_wait"@, "wait id"@) {
        Err(e) => Err(e),
        Ok(id) => ask(
            "adapter.cancel_wait"@,
            no_fields().with("wait_id"@, JsonModel::Str(id)),
            LuaPendingModel::Json,
        ),
    }
}

/// The step of `transcript.snapshot`: redacted unless said otherwise.
pub open spec fn transcript_step(args: Seq<LuaValue>, ctx: CtxModel) -> Result<
    LuaStepModel,
    ErrorModel,
> {
    match flag_at(call_shape(args).options.pairs, "redact"@) {
        Err(e) => Err(e),
        Ok(redact) => match focus_of(ctx) {
            Err(e) => Err(e),
            Ok(id) => ask(
                "adapter.transcript"@,
                redact_params(id, redact.unwrap_or(true)),
                LuaPendingModel::Json,
            ),
        },
    }
}

/// The step of `screen.snapshot` and `view`: never redacted.
pub open spec fn screen_step(ctx: CtxModel) -> Result<LuaStepModel, ErrorModel> {
    match focus_of(ctx) {
        Err(e) => Err(e),
        Ok(id) => ask("adapter.snapshot"@, redact_params(id, false), LuaPendingModel::Screen(id)),
    }
}

fn focused_request(ctx: &ReplCtx, method: &str) -> (r: Result<LuaStep, Error>)
    ensures
        step_model(r) == focused_step(ctx@, method@),
{
    match focus_required(ctx) {
        Ok(id) => ask_step(method, adapter_json(id.as_str()), LuaPending::Json),
        Err(e) => Err(e),
    }
}

fn cancel_wait(args: &Vec<LuaValue>) -> (r: Result<LuaStep, Error>)
    ensures
        step_model(r) == cancel_step(args@),
{
    let (positional, _options) = read_call(args);
    match expect_string(&positional, "cancel_wait", "wait id") {
        Ok(id) => ask_step(
            "adapter.cancel_wait",
            Json::object().with("wait_id", Json::text(id.as_str())),
            LuaPending::Json,
        ),
        Err(e) => Err(e),
    }
}

fn transcript_snapshot(args: &Vec<LuaValue>, ctx: &ReplCtx) -> (r: Result<LuaStep, Error>)
    ensures
        step_model(r) == transcript_step(args@, ctx@),
{
    let (_positional, options) = read_call(args);
    let redact: bool = match flag_option(&options.pairs, "redact") {
        Ok(redact) => redact.unwrap_or(true),
        Err(e) => {
            return Err(e);
        },
    };
    match focus_required(ctx) {
        Ok(id) => ask_step(
            "adapter.transcript",
            redact_json(id.as_str(), redact),
            LuaPending::Json,
        ),
        Err(e) => Err(e),
    }
}

fn screen_snapshot(ctx: &ReplCtx) -> (r: Result<LuaStep, Error>)
    ensures
        step_model(r) == screen_step(ctx@),
{
    match focus_required(ctx) {
        Ok(id) => {
            let params: Json = redact_json(id.as_str(), false);
            ask_step("adapter.snapshot", params, LuaPending::Screen(id))
        },
        Err(e) => Err(e),
    }
}

// ---- calls and replies --------------------------------------------------

/// The first step of a call.
pub open spec fn first_step(binding: Binding, args: Seq<LuaValue>, ctx: CtxModel) -> Result<
    LuaStepModel,
    ErrorModel,
> {
    match binding {
        Binding::Plugins => ask("adapter.list"@, no_fields(), LuaPendingModel::Json),
        Binding::SessionSpawn => spawn_step(args),
        Binding::SessionResume => resume_step(args),
        Binding::SessionList => Ok(
            LuaStepModel::Reply(LuaReplyModel::Plain(tab_records(ctx))),
        ),
        Binding::SessionLive => ask("adapter.live"@, no_fields(), LuaPendingModel::Json),
        Binding::SessionAttach => attach_step(args),
        Binding::SessionClose => close_step(args, ctx),
        Binding::State => focused_step(ctx, "adapter.state"@),
        Binding::SendText => send_text_step(args, ctx),
        Binding::SendKey => send_key_step(args, ctx),
        Binding::SendIntent => send_intent_step(args, ctx),
        Binding::Turn => turn_step(args, ctx),
        Binding::Wait => wait_call_step(args, ctx),
        Binding::WaitMatches => wait_matches_step(args, ctx),
        Binding::WaitScreenStable => wait_stable_step(args, ctx),
        Binding::Matches => matches_step(args),
        Binding::ScreenStable => stable_step(args),
        Binding::CancelWait => cancel_step(args),
        Binding::TranscriptSnapshot => transcript_step(args, ctx),
        Binding::ScreenSnapshot => screen_step(ctx),
        Binding::View => screen_step(ctx),
        Binding::Inspect => focused_step(ctx, "adapter.inspect"@),
    }
}

/// The first step of a call.
pub fn begin(binding: Binding, args: &Vec<LuaValue>, ctx: &ReplCtx) -> (r: Result<LuaStep, Error>)
    ensures
        step_model(r) == first_step(binding, args@, ctx@),
{
    match binding {
        Binding::Plugins => ask_step("adapter.list", Json::object(), LuaPending::Json),
        Binding::SessionSpawn => session_spawn(args),
        Binding::SessionResume => session_resume(args),
        Binding::SessionList => Ok(LuaStep::Reply(LuaReply::Plain(session_list(ctx)))),
        Binding::SessionLive => ask_step("adapter.live", Json::object(), LuaPending::Json),
        Binding::SessionAttach => session_attach(args),
        Binding::SessionClose => session_close(args, ctx),
        Binding::State => focused_request(ctx, "adapter.state"),
        Binding::SendText => send_text(args, ctx),
        Binding::SendKey => send_key(args, ctx),
        Binding::SendIntent => send_intent(args, ctx),
        Binding::Turn => turn(args, ctx),
        Binding::Wait => wait_call(args, ctx),
        Binding::WaitMatches => wait_matches(args, ctx),
        Binding::WaitScreenStable => wait_stable(args, ctx),
        Binding::Matches => matches_table(args),
        Binding::ScreenStable => stable_table(args),
        Binding::CancelWait => cancel_wait(args),
        Binding::TranscriptSnapshot => transcript_snapshot(args, ctx),
        Binding::ScreenSnapshot => screen_snapshot(ctx),
        Binding::View => screen_snapshot(ctx),
        Binding::Inspect => focused_request(ctx, "adapter.inspect"),
    }
}

/// The result that a reply gives, and the state after it. A failure changes
/// nothing.
pub open spec fn reply_step(
    pending: LuaPendingModel,
    reply: Result<JsonModel, ErrorModel>,
    ctx: CtxModel,
) -> (Result<LuaReplyModel, ErrorModel>, CtxModel) {
    match reply {
        Err(e) => (Err(e), ctx),
        Ok(value) => match pending {
            LuaPendingModel::Json => (Ok(LuaReplyModel::Json(value)), ctx),
            LuaPendingModel::Started { plugin, prior } => (
                Ok(LuaReplyModel::Json(value)),
                resumed(ctx, plugin, prior, value),
            ),
            LuaPendingModel::AttachOne(id) => (
                Ok(LuaReplyModel::Json(value)),
                attached_one(ctx, id, value),
            ),
            LuaPendingModel::AttachAll => (
                Ok(
                    LuaReplyModel::Json(
                        no_fields().with("attached"@, text_list(live_ids(live_entries(value)))),
                    ),
                ),
                attached_all(ctx, value),
            ),
            LuaPendingModel::Closed(id) => (Ok(LuaReplyModel::Json(value)), ctx.remove(id)),
            LuaPendingModel::Screen(id) => (
                Ok(LuaReplyModel::Screen { adapter: id, value }),
                ctx,
            ),
        },
    }
}

/// Goes on with the reply to a request.
pub fn conclude(pending: LuaPending, reply: Result<Json, Error>, ctx: &mut ReplCtx) -> (r: Result<
    LuaReply,
    Error,
>)
    ensures
        reply_step(pending@, params_model(reply), old(ctx)@) == (
            match r {
                Ok(reply) => Ok::<LuaReplyModel, ErrorModel>(reply@),
                Err(e) => Err(e@),
            },
            final(ctx)@,
        ),
{
    let value: Json = match reply {
        Ok(value) => value,
        Err(e) => {
            return Err(e);
        },
    };
    match pending {
        LuaPending::Json => Ok(LuaReply::Json(value)),
        LuaPending::Started { plugin, prior } => {
            if let Some(id) = &prior {
                let _ = ctx.remove_adapter(id.as_str());
            }
            adopt_started_adapter(ctx, plugin.as_str(), &value);
            Ok(LuaReply::Json(value))
        },
        LuaPending::AttachOne(id) => {
            attach_one(ctx, id.as_str(), &value);
            Ok(LuaReply::Json(value))
        },
        LuaPending::AttachAll => {
            let attached: Vec<String> = attach_live(ctx, &value);
            Ok(LuaReply::Json(Json::object().with("attached", Json::texts(&attached))))
        },
        LuaPending::Closed(id) => {
            let _ = ctx.remove_adapter(id.as_str());
            Ok(LuaReply::Json(value))
        },
        LuaPending::Screen(id) => Ok(LuaReply::Screen { adapter: id, value }),
    }
}

// ---- laws ---------------------------------------------------------------

/// Whether a function works on the focused adapter only.
pub open spec fn needs_focus(binding: Binding) -> bool {
    match binding {
        Binding::State | Binding::SendText | Binding::SendKey | Binding::SendIntent => true,
        Binding::Turn | Binding::Wait | Binding::WaitMatches => true,
        Binding::WaitScreenStable | Binding::TranscriptSnapshot => true,
        Binding::ScreenSnapshot | Binding::View | Binding::Inspect => true,
        _ => false,
    }
}

/// A function that works on the focused adapter never asks the server for
/// anything without a focus, and names the focused adapter where it does.
pub proof fn focus_is_named(binding: Binding, args: Seq<LuaValue>, ctx: CtxModel)
    requires
        needs_focus(binding),
        first_step(binding, args, ctx) is Ok,
    ensures
        first_step(binding, args, ctx)->Ok_0 is Call,
        ctx.focus is Some,
        first_step(binding, args, ctx)->Ok_0->request.params.text_field("adapter"@) == ctx.focus,
{
    names_beside_the_adapter();
    adapter_is_kept();
    crate::json::with_binds(no_fields(), "adapter"@, JsonModel::Str(ctx.focus->Some_0));
}

/// What a turn sends never names an option that is about waiting.
pub proof fn wait_options_are_not_sent(pairs: Pairs, n: int, name: Seq<char>)
    requires
        0 <= n <= pairs.len(),
        crate::command::dispatch::wait_only(name),
        turn_send(pairs, n) is Ok,
    ensures
        turn_send(pairs, n)->Ok_0 is Obj,
        turn_send(pairs, n)->Ok_0.field(name) is None,
    decreases n,
{
    if n > 0 {
        wait_options_are_not_sent(pairs, n - 1, name);
        let read = pairs[n - 1].0.read()->Ok_0;
        if !crate::command::dispatch::wait_only(read) {
            crate::json::with_keeps(
                turn_send(pairs, n - 1)->Ok_0,
                read,
                json_reading(pairs[n - 1].1.json)->Ok_0,
                name,
            );
        }
    }
}

/// A table that reads as the one that `matches` makes waits for its pattern,
/// as the bare pattern does.
pub proof fn matches_waits_for_its_pattern(made: LuaValue, bare: LuaValue, pattern: Seq<char>)
    requires
        made.table is Ok,
        text_at(made.table->Ok_0.pairs@, "__pty_matcher"@) == Ok::<
            Option<Seq<char>>,
            ErrorModel,
        >(Some("regex"@)),
        text_at(made.table->Ok_0.pairs@, "pattern"@) == Ok::<Option<Seq<char>>, ErrorModel>(
            Some(pattern),
        ),
        bare.kind is String && bare.table is Err,
        crate::lua::reading(bare.text) == Ok::<Seq<char>, Seq<char>>(pattern),
    ensures
        matcher_params(made) == Ok::<JsonModel, ErrorModel>(pattern_params(pattern)),
        matcher_params(bare) == matcher_params(made),
{
}

/// Every function asks for methods that work on any adapter.
pub proof fn calls_stay_on_the_generic_surface(binding: Binding, args: Seq<LuaValue>, ctx: CtxModel)
    ensures
        first_step(binding, args, ctx) matches Ok(LuaStepModel::Call { request, .. }) ==> begins(
            request.method,
            "adapter."@,
        ),
{
    crate::command::dispatch::generic_methods();
}

/// A picture is asked for as the terminal shows it: nothing is blotted out.
pub proof fn pictures_are_not_redacted(ctx: CtxModel)
    ensures
        screen_step(ctx) matches Ok(LuaStepModel::Call { request, .. }) ==> request.params.flag_field(
            "redact"@,
        ) == Some(false),
{
    if ctx.focus is Some {
        let named = adapter_params(ctx.focus->Some_0);
        crate::json::with_binds(named, "redact"@, JsonModel::Bool(false));
    }
}

} // verus!
