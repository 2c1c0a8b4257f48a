//! From a command to its request, and from the reply to the outcome.
//!
//! A command runs in steps. [`dispatch`] gives the first one; each request it
//! asks for is answered by [`resume`] with the next step, until one says that
//! the command is done.

use crate::command::arg::{
    arg_entry_models, arg_view, call_view, entries_to_json, kwargs_to_json, Arg, ArgModel, CallModel,
    DslCall,
};
use crate::command::request::{
    bool_kwarg, bool_of, duration_kwarg, duration_of, expect_one_duration, expect_one_regex,
    expect_one_string, insert_adapter_start_kwargs, matcher_of, one_duration, one_regex, one_string,
    prior_adapter_kwarg, prior_of, read_matcher, string_kwarg, string_of, with_some,
    with_start_kwargs, Matcher, MatcherModel, MATCHER_INTENT,
};
use crate::command::{
    AttachModel, AttachSpec, Cmd, CmdModel, MetaCmd, MetaModel, NotificationsModel,
    NotificationsRequest,
};
use crate::ctx::{opt_text, AdapterTab, CtxModel, ReplCtx, TabModel};
use crate::duration::{saturated, Duration};
use crate::error::{Error, ErrorModel};
use crate::fields::{increasing, lookup, put_last, Fields};
use crate::json::{no_fields, number, text_list, Json, JsonModel};
use crate::notes::{
    closed, plain_note, redacted_count, send_intent, send_key, send_text, send_text_note, spawned,
    spawned_note, state_suffix, transcript, transcript_bytes, transcript_line, turn_complete,
    turn_complete_note, wait_match, wait_match_note, wait_stable, wait_stable_note, Note, NoteModel,
};
use crate::screen::ScreenSnapshot;
use crate::text::{begins, join, joined, same, texts, texts_push};
use vstd::prelude::*;

verus! {

broadcast use vstd::string::group_string_axioms;

// ---- steps --------------------------------------------------------------

/// A call to the server.
#[derive(Debug, PartialEq)]
pub struct Request {
    pub method: String,
    pub params: Json,
}

/// What a command came to.
#[derive(Debug)]
pub enum CmdOutcome {
    /// A line to read.
    Line(String),
    /// The server's answer as it is.
    Json(Json),
    /// A summary, with the answer it was made from.
    Note { note: Note, value: Json },
    /// The help text.
    ShowHelp(String),
    /// A picture of an adapter's terminal.
    Screen { adapter: String, snapshot: ScreenSnapshot },
    /// The client should end.
    Quit,
}

/// What becomes of the reply to a request.
#[derive(Debug)]
pub enum Pending {
    /// It is the outcome.
    Json,
    /// It is the outcome, and the heartbeat follows the subscription.
    Subscribed(bool),
    /// It tells of a started adapter, which may replace a prior one.
    Started { plugin: String, prior: Option<String> },
    /// It tells of the state of an adapter to attach.
    AttachOne(String),
    /// It lists the live adapters to attach.
    AttachAll,
    Closed(String),
    SentText(String),
    SentKey(String),
    SentIntent(String),
    /// It ends a wait, for a pattern or for a settled screen.
    Waited { pattern: bool },
    Turned,
    Transcript,
    /// It is a picture of the adapter's terminal.
    Screen(String),
}

/// What to do next for a command.
#[derive(Debug)]
pub enum Step {
    /// The command is done. The heartbeat is switched where it says so.
    Done { outcome: Result<CmdOutcome, Error>, heartbeat: Option<bool> },
    /// Make the call and resume with its reply.
    Call { request: Request, pending: Pending },
    /// Decode the value as a picture of the adapter's terminal.
    Decode { value: Json, adapter: String },
}

pub struct RequestModel {
    pub method: Seq<char>,
    pub params: JsonModel,
}

pub enum OutcomeModel {
    Line(Seq<char>),
    Json(JsonModel),
    Note { note: NoteModel, value: JsonModel },
    ShowHelp(Seq<char>),
    Screen { adapter: Seq<char>, snapshot: ScreenSnapshot },
    Quit,
}

pub enum PendingModel {
    Json,
    Subscribed(bool),
    Started { plugin: Seq<char>, prior: Option<Seq<char>> },
    AttachOne(Seq<char>),
    AttachAll,
    Closed(Seq<char>),
    SentText(Seq<char>),
    SentKey(Seq<char>),
    SentIntent(Seq<char>),
    Waited { pattern: bool },
    Turned,
    Transcript,
    Screen(Seq<char>),
}

pub enum StepModel {
    Done { outcome: Result<OutcomeModel, ErrorModel>, heartbeat: Option<bool> },
    Call { request: RequestModel, pending: PendingModel },
    Decode { value: JsonModel, adapter: Seq<char> },
}

impl View for Request {
    type V = RequestModel;

    open spec fn view(&self) -> RequestModel {
        RequestModel { method: self.method@, params: self.params@ }
    }
}

impl View for CmdOutcome {
    type V = OutcomeModel;

    open spec fn view(&self) -> OutcomeModel {
        match self {
            CmdOutcome::Line(s) => OutcomeModel::Line(s@),
            CmdOutcome::Json(j) => OutcomeModel::Json(j@),
            CmdOutcome::Note { note, value } => OutcomeModel::Note { note: note@, value: value@ },
            CmdOutcome::ShowHelp(s) => OutcomeModel::ShowHelp(s@),
            CmdOutcome::Screen { adapter, snapshot } => OutcomeModel::Screen {
                adapter: adapter@,
                snapshot: *snapshot,
            },
            CmdOutcome::Quit => OutcomeModel::Quit,
        }
    }
}

impl View for Pending {
    type V = PendingModel;

    open spec fn view(&self) -> PendingModel {
        match self {
            Pending::Json => PendingModel::Json,
            Pending::Subscribed(b) => PendingModel::Subscribed(*b),
            Pending::Started { plugin, prior } => PendingModel::Started {
                plugin: plugin@,
                prior: opt_text(*prior),
            },
            Pending::AttachOne(id) => PendingModel::AttachOne(id@),
            Pending::AttachAll => PendingModel::AttachAll,
            Pending::Closed(id) => PendingModel::Closed(id@),
            Pending::SentText(s) => PendingModel::SentText(s@),
            Pending::SentKey(s) => PendingModel::SentKey(s@),
            Pending::SentIntent(s) => PendingModel::SentIntent(s@),
            Pending::Waited { pattern } => PendingModel::Waited { pattern: *pattern },
            Pending::Turned => PendingModel::Turned,
            Pending::Transcript => PendingModel::Transcript,
            Pending::Screen(id) => PendingModel::Screen(id@),
        }
    }
}

/// What an outcome or a failure says.
pub open spec fn result_model(r: Result<CmdOutcome, Error>) -> Result<OutcomeModel, ErrorModel> {
    match r {
        Ok(outcome) => Ok(outcome@),
        Err(e) => Err(e@),
    }
}

impl View for Step {
    type V = StepModel;

    open spec fn view(&self) -> StepModel {
        match self {
            Step::Done { outcome, heartbeat } => StepModel::Done {
                outcome: result_model(*outcome),
                heartbeat: *heartbeat,
            },
            Step::Call { request, pending } => StepModel::Call {
                request: request@,
                pending: pending@,
            },
            Step::Decode { value, adapter } => StepModel::Decode {
                value: value@,
                adapter: adapter@,
            },
        }
    }
}

/// The step that asks the server.
pub open spec fn ask(method: Seq<char>, params: JsonModel, pending: PendingModel) -> StepModel {
    StepModel::Call { request: RequestModel { method, params }, pending }
}

/// The step that ends with a failure.
pub open spec fn fail(message: Seq<char>) -> StepModel {
    StepModel::Done { outcome: Err(ErrorModel::Rpc(message)), heartbeat: None }
}

/// The step that ends well.
pub open spec fn finish(outcome: OutcomeModel) -> StepModel {
    StepModel::Done { outcome: Ok(outcome), heartbeat: None }
}

fn ask_step(method: &str, params: Json, pending: Pending) -> (r: Step)
    ensures
        r@ == ask(method@, params@, pending@),
{
    Step::Call { request: Request { method: method.to_owned(), params }, pending }
}

fn fail_step(e: Error) -> (r: Step)
    ensures
        r@ == (StepModel::Done { outcome: Err(e@), heartbeat: None }),
{
    Step::Done { outcome: Err(e), heartbeat: None }
}

fn finish_step(outcome: CmdOutcome) -> (r: Step)
    ensures
        r@ == finish(outcome@),
{
    Step::Done { outcome: Ok(outcome), heartbeat: None }
}

// ---- parts of requests --------------------------------------------------

/// The object `{"adapter": id}`.
pub open spec fn adapter_params(id: Seq<char>) -> JsonModel {
    no_fields().with("adapter"@, JsonModel::Str(id))
}

/// The object `{"adapter": id, "redact": redact}`.
pub open spec fn redact_params(id: Seq<char>, redact: bool) -> JsonModel {
    adapter_params(id).with("redact"@, JsonModel::Bool(redact))
}

pub(crate) fn adapter_json(id: &str) -> (r: Json)
    ensures
        r@ == adapter_params(id@),
{
    Json::object().with("adapter", Json::text(id))
}

pub(crate) fn redact_json(id: &str, redact: bool) -> (r: Json)
    ensures
        r@ == redact_params(id@, redact),
{
    adapter_json(id).with("redact", Json::flag(redact))
}

/// What is said where a command needs a focused adapter.
pub const NO_FOCUS: &'static str =
    "no focused adapter — spawn one with `session.spawn(...)` first";

/// The focused adapter, or a failure.
pub open spec fn focused(ctx: CtxModel) -> Result<Seq<char>, Seq<char>> {
    match ctx.focus {
        Some(id) => Ok(id),
        None => Err(NO_FOCUS@),
    }
}

/// The focused adapter, or a failure.
pub fn focus_or_err(ctx: &ReplCtx) -> (r: Result<String, Error>)
    ensures
        match r {
            Ok(id) => focused(ctx@) == Ok::<Seq<char>, Seq<char>>(id@),
            Err(e) => ctx@.focus is None && e@ == ErrorModel::Rpc(NO_FOCUS@),
        },
{
    match &ctx.focus {
        Some(id) => Ok(id.clone()),
        None => Err(Error::rpc(NO_FOCUS)),
    }
}

/// The parameters of `server.set_notifications`.
pub open spec fn notifications_params(request: NotificationsModel) -> JsonModel {
    let enabled = no_fields().with("enabled"@, JsonModel::Bool(request.enabled));
    let adapters = if request.adapters.len() > 0 {
        enabled.with("adapters"@, text_list(request.adapters))
    } else {
        enabled
    };
    if request.sessions.len() > 0 {
        adapters.with("sessions"@, text_list(request.sessions))
    } else {
        adapters
    }
}

/// The parameters of `server.set_notifications`.
pub fn notifications_json(request: &NotificationsRequest) -> (r: Json)
    ensures
        r@ == notifications_params(request@),
{
    let mut params: Json = Json::object().with("enabled", Json::flag(request.enabled));
    if request.adapters.len() > 0 {
        params = params.with("adapters", Json::texts(&request.adapters));
    }
    if request.sessions.len() > 0 {
        params = params.with("sessions", Json::texts(&request.sessions));
    }
    params
}

/// The intent and parameters of `send.text`: a prompt.
pub fn send_text_payload(text: &str) -> (r: (&'static str, Json))
    ensures
        r.0@ == "send_prompt"@,
        r.1@ == no_fields().with("prompt"@, JsonModel::Str(text@)),
{
    ("send_prompt", Json::object().with("prompt", Json::text(text)))
}

/// The intent and parameters of `send.key`.
pub fn send_key_payload(key: &str) -> (r: (&'static str, Json))
    ensures
        r.0@ == "key"@,
        r.1@ == no_fields().with("key"@, JsonModel::Str(key@)),
{
    ("key", Json::object().with("key", Json::text(key)))
}

/// The parameters of `adapter.send`.
pub open spec fn intent_params(adapter: Seq<char>, intent: Seq<char>, params: JsonModel) -> JsonModel {
    adapter_params(adapter).with("intent"@, JsonModel::Str(intent)).with("params"@, params)
}

pub(crate) fn intent_json(adapter: &str, intent: &str, params: Json) -> (r: Json)
    ensures
        r@ == intent_params(adapter@, intent@, params@),
{
    adapter_json(adapter).with("intent", Json::text(intent)).with("params", params)
}

/// The step that sends an intent to the focused adapter.
pub open spec fn intent_step(
    ctx: CtxModel,
    intent: Seq<char>,
    params: JsonModel,
    pending: PendingModel,
) -> StepModel {
    match focused(ctx) {
        Ok(id) => ask("adapter.send"@, intent_params(id, intent, params), pending),
        Err(m) => fail(m),
    }
}

/// Asks for an intent to be sent to the focused adapter.
pub fn invoke_intent(ctx: &ReplCtx, intent: &str, params: Json, pending: Pending) -> (r: Step)
    ensures
        r@ == intent_step(ctx@, intent@, params@, pending@),
{
    match focus_or_err(ctx) {
        Ok(id) => ask_step("adapter.send", intent_json(id.as_str(), intent, params), pending),
        Err(e) => fail_step(e),
    }
}

/// The parameters of `adapter.wait`. A timeout beyond 64 bits of
/// milliseconds is the greatest one.
pub open spec fn wait_params(
    adapter: Seq<char>,
    matcher: MatcherModel,
    timeout: Option<Duration>,
    wait_id: Option<Seq<char>>,
) -> JsonModel {
    with_some(
        with_some(
            intent_params(adapter, MATCHER_INTENT@, matcher.params()),
            "timeout_ms"@,
            match timeout {
                Some(d) => Some(JsonModel::Num(number(saturated(d.millis())))),
                None => None,
            },
        ),
        "wait_id"@,
        match wait_id {
            Some(id) => Some(JsonModel::Str(id)),
            None => None,
        },
    )
}

/// The step that waits on the focused adapter.
pub open spec fn wait_step(
    ctx: CtxModel,
    matcher: MatcherModel,
    timeout: Option<Duration>,
    wait_id: Option<Seq<char>>,
) -> StepModel {
    match focused(ctx) {
        Ok(id) => ask(
            "adapter.wait"@,
            wait_params(id, matcher, timeout, wait_id),
            PendingModel::Waited { pattern: matcher is Pattern },
        ),
        Err(m) => fail(m),
    }
}

/// Asks for a wait on the focused adapter.
pub fn invoke_wait(
    ctx: &ReplCtx,
    matcher: &Matcher,
    timeout: Option<Duration>,
    wait_id: Option<String>,
) -> (r: Step)
    requires
        matcher@.encodable(),
    ensures
        r@ == wait_step(ctx@, matcher@, timeout, opt_text(wait_id)),
{
    let id: String = match focus_or_err(ctx) {
        Ok(id) => id,
        Err(e) => {
            return fail_step(e);
        },
    };
    let mut params: Json = intent_json(id.as_str(), MATCHER_INTENT, matcher.params());
    if let Some(d) = timeout {
        params = params.with("timeout_ms", Json::unsigned(d.millis_saturating()));
    }
    if let Some(wait_id) = wait_id {
        params = params.with("wait_id", Json::text(wait_id.as_str()));
    }
    let pattern: bool = match matcher {
        Matcher::Pattern(_) => true,
        Matcher::Stable(_) => false,
    };
    ask_step("adapter.wait", params, Pending::Waited { pattern })
}

// ---- `turn` -------------------------------------------------------------

/// The keyword arguments of `turn` that are about waiting.
pub open spec fn wait_only(name: Seq<char>) -> bool {
    name == "wait"@ || name == "wait_intent"@ || name == "timeout"@
}

/// The entries that are not about waiting.
pub open spec fn send_only(entries: Seq<(Seq<char>, JsonModel)>) -> Seq<(Seq<char>, JsonModel)>
    decreases entries.len(),
{
    if entries.len() == 0 {
        Seq::empty()
    } else {
        let before = send_only(entries.drop_last());
        if wait_only(entries.last().0) {
            before
        } else {
            before.push(entries.last())
        }
    }
}

/// What a turn sends: every keyword argument that is not about waiting.
pub open spec fn turn_send_params(call: CallModel) -> JsonModel {
    JsonModel::Obj(send_only(entries_to_json(call.kwargs)))
}

/// The intent that a turn names to wait by, which is a string.
pub open spec fn turn_intent(call: CallModel) -> Result<Option<Seq<char>>, Seq<char>> {
    match lookup(call.kwargs, "wait_intent"@) {
        Some(ArgModel::String(s)) => Ok(Some(s)),
        Some(other) => Err("wait_intent= expected a string, got "@ + other.shown()),
        None => Ok(None),
    }
}

/// How a turn waits by an intent and a matcher: the intent that is named, or
/// else the one that matchers go by; without either, nothing is said.
pub open spec fn wait_by(intent: Option<Seq<char>>, params: Option<JsonModel>) -> JsonModel {
    match params {
        Some(params) => no_fields().with(
            "intent"@,
            JsonModel::Str(
                match intent {
                    Some(name) => name,
                    None => MATCHER_INTENT@,
                },
            ),
        ).with("params"@, params),
        None => match intent {
            Some(name) => no_fields().with("intent"@, JsonModel::Str(name)),
            None => no_fields(),
        },
    }
}

/// How a turn waits: by a matcher, by the intent that it names, or by both,
/// and with a timeout. A timeout beyond 64 bits of milliseconds is an error.
pub open spec fn turn_wait(call: CallModel) -> Result<JsonModel, Seq<char>> {
    let by_matcher = match lookup(call.kwargs, "wait"@) {
        Some(arg) => match matcher_of(arg) {
            Ok(matcher) => match turn_intent(call) {
                Ok(intent) => Ok(wait_by(intent, Some(matcher.params()))),
                Err(m) => Err(m),
            },
            Err(m) => Err(m),
        },
        None => match turn_intent(call) {
            Ok(intent) => Ok(wait_by(intent, None)),
            Err(m) => Err(m),
        },
    };
    match by_matcher {
        Err(m) => Err(m),
        Ok(wait) => match duration_of(call, "timeout"@) {
            Err(m) => Err(m),
            Ok(None) => Ok(wait),
            Ok(Some(d)) => if d.millis() <= u64::MAX {
                Ok(wait.with("timeout_ms"@, JsonModel::Num(number(d.millis()))))
            } else {
                Err(
                    "turn(timeout=…) is too large to encode as milliseconds: "@
                        + crate::duration::duration_debug(
                        d.whole_seconds() as u64,
                        d.subsecond_nanos() as u32,
                    ),
                )
            },
        },
    }
}

/// The parameters of `adapter.turn`; a way to wait is left out when nothing
/// is said about it.
pub open spec fn turn_params(
    adapter: Seq<char>,
    intent: Seq<char>,
    send: JsonModel,
    wait: JsonModel,
) -> JsonModel {
    let base = adapter_params(adapter).with(
        "send"@,
        no_fields().with("intent"@, JsonModel::Str(intent)).with("params"@, send),
    );
    if wait == no_fields() {
        base
    } else {
        base.with("wait"@, wait)
    }
}

/// The step of `turn`.
pub open spec fn turn_step(call: CallModel, ctx: CtxModel) -> StepModel {
    match one_string(call, "turn"@) {
        Err(m) => fail(m),
        Ok(intent) => match focused(ctx) {
            Err(m) => fail(m),
            Ok(adapter) => match turn_wait(call) {
                Err(m) => fail(m),
                Ok(wait) => ask(
                    "adapter.turn"@,
                    turn_params(adapter, intent, turn_send_params(call), wait),
                    PendingModel::Turned,
                ),
            },
        },
    }
}

pub fn is_wait_only(name: &str) -> (r: bool)
    ensures
        r == wait_only(name@),
{
    same(name, "wait") || same(name, "wait_intent") || same(name, "timeout")
}

/// A send-only part of entries whose names increase has increasing names of
/// the same entries.
proof fn send_only_names(entries: Seq<(Seq<char>, JsonModel)>, bound: Seq<char>)
    requires
        forall|i: int|
            0 <= i < entries.len() ==> crate::text::text_lt((#[trigger] entries[i]).0, bound),
    ensures
        forall|i: int|
            0 <= i < send_only(entries).len() ==> crate::text::text_lt(
                (#[trigger] send_only(entries)[i]).0,
                bound,
            ),
    decreases entries.len(),
{
    if entries.len() > 0 {
        let init = entries.drop_last();
        assert forall|i: int| 0 <= i < init.len() implies crate::text::text_lt(
            (#[trigger] init[i]).0,
            bound,
        ) by {
            assert(init[i] == entries[i]);
        }
        send_only_names(init, bound);
        let after = send_only(entries);
        assert forall|i: int| 0 <= i < after.len() implies crate::text::text_lt(
            (#[trigger] after[i]).0,
            bound,
        ) by {
            if i < send_only(init).len() {
                assert(after[i] == send_only(init)[i]);
            } else {
                assert(after[i] == entries[entries.len() - 1]);
            }
        }
    }
}

/// What a turn sends: every keyword argument that is not about waiting.
pub fn turn_send_json(kwargs: &Fields<Arg>) -> (r: Json)
    ensures
        r@ == JsonModel::Obj(send_only(entries_to_json(arg_entry_models(kwargs@)))),
{
    broadcast use crate::json::json_view;

    let ghost source = arg_entry_models(kwargs@);
    let ghost target = entries_to_json(source);
    let mut out: Fields<Json> = Fields::new();
    let n: usize = kwargs.len();
    let mut i: usize = 0;
    proof {
        crate::command::arg::entries_to_json_at(source);
        assert(crate::json::entry_models(out@) == send_only(target.take(0)));
    }
    while i < n
        invariant
            i <= n == kwargs@.len(),
            increasing(kwargs@),
            source == arg_entry_models(kwargs@),
            target == entries_to_json(source),
            target.len() == source.len(),
            forall|j: int|
                0 <= j < source.len() ==> #[trigger] target[j] == (
                    source[j].0,
                    source[j].1.to_json(),
                ),
            crate::json::entry_models(out@) == send_only(target.take(i as int)),
        decreases n - i,
    {
        let name: &String = kwargs.name_at(i);
        proof {
            assert(target.take(i + 1).drop_last() == target.take(i as int));
            assert(target.take(i + 1).last() == target[i as int]);
            assert(target[i as int].0 == name@);
        }
        if !is_wait_only(name.as_str()) {
            let value: Json = crate::command::arg::arg_to_json(kwargs.value_at(i));
            proof {
                let done = target.take(i as int);
                assert forall|j: int| 0 <= j < done.len() implies crate::text::text_lt(
                    (#[trigger] done[j]).0,
                    name@,
                ) by {
                    assert(done[j] == target[j]);
                    assert(source[j].0 == kwargs@[j].0);
                    assert(crate::text::text_lt(kwargs@[j].0, kwargs@[i as int].0));
                }
                send_only_names(done, name@);
                assert forall|j: int| 0 <= j < out@.len() implies crate::text::text_lt(
                    (#[trigger] out@[j]).0,
                    name@,
                ) by {
                    assert(crate::json::entry_models(out@)[j].0 == out@[j].0);
                    assert(crate::text::text_lt(send_only(done)[j].0, name@));
                }
                put_last(out@, name@, value);
                assert(crate::json::entry_models(out@.push((name@, value)))
                    == crate::json::entry_models(out@).push((name@, value@)));
            }
            out.insert(name.clone(), value);
        }
        i += 1;
    }
    assert(target.take(n as int) == target);
    Json::Obj(out)
}

fn read_turn_intent(call: &DslCall) -> (r: Result<Option<String>, Error>)
    ensures
        match r {
            Ok(intent) => turn_intent(call@) == Ok::<Option<Seq<char>>, Seq<char>>(opt_text(intent)),
            Err(e) => e@ matches ErrorModel::Rpc(m) && turn_intent(call@) == Err::<
                Option<Seq<char>>,
                Seq<char>,
            >(m),
        },
{
    broadcast use arg_view;

    match call.kwarg("wait_intent") {
        Some(Arg::String(s)) => Ok(Some(s.clone())),
        Some(other) => {
            let mut message: String = "wait_intent= expected a string, got ".to_owned();
            message.push_str(other.shown().as_str());
            Err(Error::Rpc(message))
        },
        None => Ok(None),
    }
}

/// How a turn waits by an intent and a matcher.
pub(crate) fn wait_json(intent: Option<String>, params: Option<Json>) -> (r: Json)
    ensures
        r@ == wait_by(
            opt_text(intent),
            match params {
                Some(j) => Some(j@),
                None => None,
            },
        ),
{
    match params {
        Some(params) => {
            let name: String = match intent {
                Some(name) => name,
                None => MATCHER_INTENT.to_owned(),
            };
            Json::object().with("intent", Json::text(name.as_str())).with("params", params)
        },
        None => match intent {
            Some(name) => Json::object().with("intent", Json::text(name.as_str())),
            None => Json::object(),
        },
    }
}

fn turn_wait_json(call: &DslCall) -> (r: Result<Json, Error>)
    requires
        lookup(call@.kwargs, "wait"@) matches Some(arg) ==> (matcher_of(arg) matches Ok(m)
            ==> m.encodable()),
    ensures
        match r {
            Ok(j) => turn_wait(call@) == Ok::<JsonModel, Seq<char>>(j@),
            Err(e) => e@ matches ErrorModel::Rpc(m) && turn_wait(call@) == Err::<
                JsonModel,
                Seq<char>,
            >(m),
        },
{
    broadcast use arg_view;

    let params: Option<Json> = match call.kwarg("wait") {
        Some(arg) => match read_matcher(arg) {
            Ok(matcher) => Some(matcher.params()),
            Err(e) => {
                return Err(e);
            },
        },
        None => None,
    };
    let intent: Option<String> = match read_turn_intent(call) {
        Ok(intent) => intent,
        Err(e) => {
            return Err(e);
        },
    };
    let wait: Json = wait_json(intent, params);
    match duration_kwarg(call, "timeout") {
        Ok(Some(d)) => match d.millis_u64() {
            Some(millis) => Ok(wait.with("timeout_ms", Json::unsigned(millis))),
            None => {
                let mut message: String =
                    "turn(timeout=…) is too large to encode as milliseconds: ".to_owned();
                message.push_str(d.debug_text().as_str());
                Err(Error::Rpc(message))
            },
        },
        Ok(None) => Ok(wait),
        Err(e) => Err(e),
    }
}

/// The first step of `turn`.
pub fn turn_command(call: &DslCall, ctx: &ReplCtx) -> (r: Step)
    requires
        !oversized_turn(call@, ctx@),
    ensures
        r@ == turn_step(call@, ctx@),
{
    broadcast use call_view;

    let intent: String = match expect_one_string(call, "turn") {
        Ok(intent) => intent,
        Err(e) => {
            return fail_step(e);
        },
    };
    let adapter: String = match focus_or_err(ctx) {
        Ok(id) => id,
        Err(e) => {
            return fail_step(e);
        },
    };
    let send: Json = turn_send_json(&call.kwargs);
    let wait: Json = match turn_wait_json(call) {
        Ok(wait) => wait,
        Err(e) => {
            return fail_step(e);
        },
    };
    let mut params: Json = adapter_json(adapter.as_str()).with(
        "send",
        Json::object().with("intent", Json::text(intent.as_str())).with("params", send),
    );
    if !wait.is_bare() {
        params = params.with("wait", wait);
    }
    ask_step("adapter.turn", params, Pending::Turned)
}

/// Whether `turn` comes to a stability matcher that the wire cannot hold.
pub open spec fn oversized_turn(call: CallModel, ctx: CtxModel) -> bool {
    one_string(call, "turn"@) is Ok && ctx.focus is Some && (lookup(
        call.kwargs,
        "wait"@,
    ) matches Some(arg) && (matcher_of(arg) matches Ok(m) && !m.encodable()))
}

// ---- calls --------------------------------------------------------------

/// The parameters of `adapter.start`.
pub open spec fn start_params(plugin: Seq<char>, call: CallModel) -> Result<JsonModel, Seq<char>> {
    with_start_kwargs(no_fields().with("plugin"@, JsonModel::Str(plugin)), call)
}

/// The step of `session.spawn`.
pub open spec fn spawn_step(call: CallModel) -> StepModel {
    match one_string(call, "session.spawn"@) {
        Err(m) => fail(m),
        Ok(plugin) => match start_params(plugin, call) {
            Err(m) => fail(m),
            Ok(params) => ask(
                "adapter.start"@,
                params,
                PendingModel::Started { plugin, prior: None },
            ),
        },
    }
}

/// The step of `session.resume`.
pub open spec fn resume_step(call: CallModel) -> StepModel {
    match one_string(call, "session.resume"@) {
        Err(m) => fail(m),
        Ok(plugin) => match start_params(plugin, call) {
            Err(m) => fail(m),
            Ok(params) => match prior_of(call) {
                Err(m) => fail(m),
                Ok(prior) => ask(
                    "adapter.resume"@,
                    with_some(
                        params,
                        "prior_adapter"@,
                        match prior {
                            Some(id) => Some(JsonModel::Str(id)),
                            None => None,
                        },
                    ),
                    PendingModel::Started { plugin, prior },
                ),
            },
        },
    }
}

/// The step of `session.attach`, or of `:attach`.
pub open spec fn attach_step(spec: AttachModel) -> StepModel {
    match spec {
        AttachModel::One(id) => ask(
            "adapter.state"@,
            adapter_params(id),
            PendingModel::AttachOne(id),
        ),
        AttachModel::All => ask("adapter.live"@, no_fields(), PendingModel::AttachAll),
    }
}

/// What `session.attach` is asked to attach.
pub open spec fn attach_spec(call: CallModel) -> Result<AttachModel, Seq<char>> {
    if call.positional.len() == 0 {
        Ok(AttachModel::All)
    } else {
        match call.positional[0] {
            ArgModel::String(s) => if s == "all"@ {
                Ok(AttachModel::All)
            } else {
                Ok(AttachModel::One(s))
            },
            other => Err(
                "session.attach expects an adapter id or \"all\", got "@ + other.shown(),
            ),
        }
    }
}

/// The step of `session.close`: the named adapter, or else the focused one.
pub open spec fn close_step(call: CallModel, ctx: CtxModel) -> StepModel {
    let adapter = if call.positional.len() > 0 {
        match call.positional[0] {
            ArgModel::String(s) => Ok(s),
            other => Err("session.close expects a string adapter id; got "@ + other.shown()),
        }
    } else {
        focused(ctx)
    };
    match adapter {
        Ok(id) => ask("adapter.close"@, adapter_params(id), PendingModel::Closed(id)),
        Err(m) => fail(m),
    }
}

/// How `session.list` shows a tab.
pub open spec fn list_entry(tab: TabModel) -> Seq<char> {
    tab.id + " ("@ + tab.plugin + ")"@
}

/// All tabs, as `session.list` shows them.
pub open spec fn list_line(ctx: CtxModel) -> Seq<char> {
    if ctx.tabs.len() == 0 {
        "(no adapters)"@
    } else {
        join(ctx.tabs.map_values(|t: TabModel| list_entry(t)), ", "@)
    }
}

/// The step of a command on the focused adapter.
pub open spec fn focused_step(
    ctx: CtxModel,
    method: Seq<char>,
    redact: Option<bool>,
    pending: spec_fn(Seq<char>) -> PendingModel,
) -> StepModel {
    match focused(ctx) {
        Err(m) => fail(m),
        Ok(id) => ask(
            method,
            match redact {
                Some(b) => redact_params(id, b),
                None => adapter_params(id),
            },
            pending(id),
        ),
    }
}

/// The step of `wait`: an optional id makes the wait one that can be broken.
pub open spec fn wait_call_step(call: CallModel, ctx: CtxModel) -> StepModel {
    if call.positional.len() == 0 {
        fail(
            "wait() expects a matcher: wait(matches(r\"…\")) or wait(screen_stable(250ms))"@,
        )
    } else {
        match duration_of(call, "timeout"@) {
            Err(m) => fail(m),
            Ok(timeout) => match matcher_of(call.positional[0]) {
                Err(m) => fail(m),
                Ok(matcher) => wait_step(ctx, matcher, timeout, string_of(call, "wait_id"@)),
            },
        }
    }
}

/// The step of a call, by its path.
pub open spec fn dsl_step(call: CallModel, ctx: CtxModel) -> StepModel {
    let path = join(call.path, "."@);
    if path == "plugins"@ {
        ask("adapter.list"@, no_fields(), PendingModel::Json)
    } else if path == "plugins.describe"@ {
        match one_string(call, "plugins.describe"@) {
            Err(m) => fail(m),
            Ok(plugin) => ask(
                "plugin.describe"@,
                no_fields().with("plugin"@, JsonModel::Str(plugin)),
                PendingModel::Json,
            ),
        }
    } else if path == "session.spawn"@ {
        spawn_step(call)
    } else if path == "session.resume"@ {
        resume_step(call)
    } else if path == "session.live"@ {
        ask("adapter.live"@, no_fields(), PendingModel::Json)
    } else if path == "session.attach"@ {
        match attach_spec(call) {
            Ok(spec) => attach_step(spec),
            Err(m) => fail(m),
        }
    } else if path == "session.list"@ {
        finish(OutcomeModel::Line(list_line(ctx)))
    } else if path == "session.close"@ {
        close_step(call, ctx)
    } else if path == "state"@ {
        focused_step(ctx, "adapter.state"@, None, |id: Seq<char>| PendingModel::Json)
    } else if path == "send.intent"@ {
        match one_string(call, "send.intent"@) {
            Err(m) => fail(m),
            Ok(intent) => intent_step(
                ctx,
                intent,
                JsonModel::Obj(entries_to_json(call.kwargs)),
                PendingModel::SentIntent(intent),
            ),
        }
    } else if path == "send.text"@ {
        match one_string(call, "send.text"@) {
            Err(m) => fail(m),
            Ok(text) => intent_step(
                ctx,
                "send_prompt"@,
                no_fields().with("prompt"@, JsonModel::Str(text)),
                PendingModel::SentText(text),
            ),
        }
    } else if path == "send.key"@ {
        match one_string(call, "send.key"@) {
            Err(m) => fail(m),
            Ok(key) => intent_step(
                ctx,
                "key"@,
                no_fields().with("key"@, JsonModel::Str(key)),
                PendingModel::SentKey(key),
            ),
        }
    } else if path == "turn"@ {
        turn_step(call, ctx)
    } else if path == "wait"@ {
        wait_call_step(call, ctx)
    } else if path == "cancel_wait"@ {
        match one_string(call, "cancel_wait"@) {
            Err(m) => fail(m),
            Ok(wait_id) => ask(
                "adapter.cancel_wait"@,
                no_fields().with("wait_id"@, JsonModel::Str(wait_id)),
                PendingModel::Json,
            ),
        }
    } else if path == "wait.matches"@ {
        match one_regex(call, "wait.matches"@) {
            Err(m) => fail(m),
            Ok(pattern) => match duration_of(call, "timeout"@) {
                Err(m) => fail(m),
                Ok(timeout) => wait_step(ctx, MatcherModel::Pattern(pattern), timeout, None),
            },
        }
    } else if path == "wait.screen_stable"@ {
        match one_duration(call, "wait.screen_stable"@) {
            Err(m) => fail(m),
            Ok(stable) => match duration_of(call, "timeout"@) {
                Err(m) => fail(m),
                Ok(timeout) => wait_step(ctx, MatcherModel::Stable(stable), timeout, None),
            },
        }
    } else if path == "transcript.snapshot"@ {
        focused_step(
            ctx,
            "adapter.transcript"@,
            Some(bool_of(call, "redact"@).unwrap_or(true)),
            |id: Seq<char>| PendingModel::Transcript,
        )
    } else if path == "screen.snapshot"@ || path == "screen.view"@ || path == "view"@ {
        focused_step(
            ctx,
            "adapter.snapshot"@,
            Some(false),
            |id: Seq<char>| PendingModel::Screen(id),
        )
    } else if path == "inspect"@ {
        focused_step(ctx, "adapter.inspect"@, None, |id: Seq<char>| PendingModel::Json)
    } else {
        fail("unknown command `"@ + path + "` — try `:help`"@)
    }
}

/// Whether a call comes to a stability matcher that the wire cannot hold.
pub open spec fn oversized(call: CallModel, ctx: CtxModel) -> bool {
    let path = join(call.path, "."@);
    if path == "turn"@ {
        oversized_turn(call, ctx)
    } else if path == "wait"@ {
        call.positional.len() > 0 && duration_of(call, "timeout"@) is Ok && (matcher_of(
            call.positional[0],
        ) matches Ok(m) && !m.encodable())
    } else if path == "wait.screen_stable"@ {
        one_duration(call, "wait.screen_stable"@) matches Ok(d) && !MatcherModel::Stable(
            d,
        ).encodable()
    } else {
        false
    }
}

/// Whether a call comes to a stability matcher that the wire cannot hold.
pub fn is_oversized(call: &DslCall, ctx: &ReplCtx) -> (r: bool)
    ensures
        r == oversized(call@, ctx@),
{
    broadcast use {arg_view, call_view};

    let path: String = joined(&call.path, ".");
    if same(path.as_str(), "turn") {
        match expect_one_string(call, "turn") {
            Ok(_) => {},
            Err(_) => {
                return false;
            },
        }
        if ctx.focus.is_none() {
            return false;
        }
        match call.kwarg("wait") {
            Some(arg) => match read_matcher(arg) {
                Ok(matcher) => !matcher.encodable(),
                Err(_) => false,
            },
            None => false,
        }
    } else if same(path.as_str(), "wait") {
        if call.positional.len() == 0 {
            return false;
        }
        match duration_kwarg(call, "timeout") {
            Ok(_) => {},
            Err(_) => {
                return false;
            },
        }
        let arg: &Arg = &call.positional[0];
        assert(call@.positional[0] == arg@);
        match read_matcher(arg) {
            Ok(matcher) => !matcher.encodable(),
            Err(_) => false,
        }
    } else if same(path.as_str(), "wait.screen_stable") {
        match expect_one_duration(call, "wait.screen_stable") {
            Ok(d) => d.as_millis() > u64::MAX as u128,
            Err(_) => false,
        }
    } else {
        false
    }
}

fn session_spawn(call: &DslCall) -> (r: Step)
    ensures
        r@ == spawn_step(call@),
{
    let plugin: String = match expect_one_string(call, "session.spawn") {
        Ok(plugin) => plugin,
        Err(e) => {
            return fail_step(e);
        },
    };
    let base: Json = Json::object().with("plugin", Json::text(plugin.as_str()));
    match insert_adapter_start_kwargs(base, call) {
        Ok(params) => ask_step("adapter.start", params, Pending::Started { plugin, prior: None }),
        Err(e) => fail_step(e),
    }
}

fn session_resume(call: &DslCall) -> (r: Step)
    ensures
        r@ == resume_step(call@),
{
    let plugin: String = match expect_one_string(call, "session.resume") {
        Ok(plugin) => plugin,
        Err(e) => {
            return fail_step(e);
        },
    };
    let base: Json = Json::object().with("plugin", Json::text(plugin.as_str()));
    let mut params: Json = match insert_adapter_start_kwargs(base, call) {
        Ok(params) => params,
        Err(e) => {
            return fail_step(e);
        },
    };
    let prior: Option<String> = match prior_adapter_kwarg(call) {
        Ok(prior) => prior,
        Err(e) => {
            return fail_step(e);
        },
    };
    if let Some(id) = &prior {
        params = params.with("prior_adapter", Json::text(id.as_str()));
    }
    ask_step("adapter.resume", params, Pending::Started { plugin, prior })
}

fn session_attach(spec: AttachSpec) -> (r: Step)
    ensures
        r@ == attach_step(spec@),
{
    match spec {
        AttachSpec::One(id) => {
            let params: Json = adapter_json(id.as_str());
            ask_step("adapter.state", params, Pending::AttachOne(id))
        },
        AttachSpec::All => ask_step("adapter.live", Json::object(), Pending::AttachAll),
    }
}

fn read_attach_spec(call: &DslCall) -> (r: Result<AttachSpec, Error>)
    ensures
        match r {
            Ok(spec) => attach_spec(call@) == Ok::<AttachModel, Seq<char>>(spec@),
            Err(e) => e@ matches ErrorModel::Rpc(m) && attach_spec(call@) == Err::<
                AttachModel,
                Seq<char>,
            >(m),
        },
{
    broadcast use {arg_view, call_view};

    if call.positional.len() == 0 {
        return Ok(AttachSpec::All);
    }
    let arg: &Arg = &call.positional[0];
    assert(call@.positional[0] == arg@);
    match arg {
        Arg::String(s) => if same(s.as_str(), "all") {
            Ok(AttachSpec::All)
        } else {
            Ok(AttachSpec::One(s.clone()))
        },
        other => {
            let mut message: String =
                "session.attach expects an adapter id or \"all\", got ".to_owned();
            message.push_str(other.shown().as_str());
            Err(Error::Rpc(message))
        },
    }
}

fn session_close(call: &DslCall, ctx: &ReplCtx) -> (r: Step)
    ensures
        r@ == close_step(call@, ctx@),
{
    broadcast use {arg_view, call_view};

    let adapter: String = if call.positional.len() > 0 {
        let arg: &Arg = &call.positional[0];
        assert(call@.positional[0] == arg@);
        match arg {
            Arg::String(s) => s.clone(),
            other => {
                let mut message: String =
                    "session.close expects a string adapter id; got ".to_owned();
                message.push_str(other.shown().as_str());
                return fail_step(Error::Rpc(message));
            },
        }
    } else {
        match focus_or_err(ctx) {
            Ok(id) => id,
            Err(e) => {
                return fail_step(e);
            },
        }
    };
    let params: Json = adapter_json(adapter.as_str());
    ask_step("adapter.close", params, Pending::Closed(adapter))
}

fn session_list(ctx: &ReplCtx) -> (r: String)
    ensures
        r@ == list_line(ctx@),
{
    if ctx.adapters.len() == 0 {
        return "(no adapters)".to_owned();
    }
    let mut parts: Vec<String> = Vec::new();
    let ghost all = ctx@.tabs.map_values(|t: TabModel| list_entry(t));
    let mut i: usize = 0;
    assert(texts(parts@) == all.take(0));
    while i < ctx.adapters.len()
        invariant
            i <= ctx.adapters@.len(),
            all == ctx@.tabs.map_values(|t: TabModel| list_entry(t)),
            texts(parts@) == all.take(i as int),
        decreases ctx.adapters@.len() - i,
    {
        let tab: &AdapterTab = &ctx.adapters[i];
        let mut part: String = tab.id.clone();
        part.push_str(" (");
        part.push_str(tab.plugin.as_str());
        part.push_str(")");
        proof {
            assert(ctx@.tabs[i as int] == tab@);
            assert(all[i as int] == part@);
            texts_push(parts@, part);
            assert(all.take(i + 1) == all.take(i as int).push(all[i as int]));
        }
        parts.push(part);
        i += 1;
    }
    assert(all.take(i as int) == all);
    joined(&parts, ", ")
}

fn wait_command(call: &DslCall, ctx: &ReplCtx) -> (r: Step)
    requires
        call@.positional.len() > 0 && duration_of(call@, "timeout"@) is Ok ==> (matcher_of(
            call@.positional[0],
        ) matches Ok(m) ==> m.encodable()),
    ensures
        r@ == wait_call_step(call@, ctx@),
{
    broadcast use {arg_view, call_view};

    if call.positional.len() == 0 {
        return fail_step(
            Error::rpc(
                "wait() expects a matcher: wait(matches(r\"…\")) or wait(screen_stable(250ms))",
            ),
        );
    }
    let timeout: Option<Duration> = match duration_kwarg(call, "timeout") {
        Ok(timeout) => timeout,
        Err(e) => {
            return fail_step(e);
        },
    };
    let wait_id: Option<String> = string_kwarg(call, "wait_id");
    let arg: &Arg = &call.positional[0];
    assert(call@.positional[0] == arg@);
    match read_matcher(arg) {
        Ok(matcher) => invoke_wait(ctx, &matcher, timeout, wait_id),
        Err(e) => fail_step(e),
    }
}

fn wait_with(call: &DslCall, ctx: &ReplCtx, matcher: Matcher) -> (r: Step)
    requires
        matcher@.encodable(),
    ensures
        r@ == (match duration_of(call@, "timeout"@) {
            Err(m) => fail(m),
            Ok(timeout) => wait_step(ctx@, matcher@, timeout, None),
        }),
{
    match duration_kwarg(call, "timeout") {
        Ok(timeout) => invoke_wait(ctx, &matcher, timeout, None),
        Err(e) => fail_step(e),
    }
}

fn one_string_request(call: &DslCall, label: &str, method: &str, name: &str) -> (r: Step)
    ensures
        r@ == (match one_string(call@, label@) {
            Err(m) => fail(m),
            Ok(s) => ask(
                method@,
                no_fields().with(name@, JsonModel::Str(s)),
                PendingModel::Json,
            ),
        }),
{
    match expect_one_string(call, label) {
        Ok(s) => ask_step(
            method,
            Json::object().with(name, Json::text(s.as_str())),
            Pending::Json,
        ),
        Err(e) => fail_step(e),
    }
}

fn focused_request(ctx: &ReplCtx, method: &str) -> (r: Step)
    ensures
        r@ == focused_step(ctx@, method@, None, |id: Seq<char>| PendingModel::Json),
{
    match focus_or_err(ctx) {
        Ok(id) => ask_step(method, adapter_json(id.as_str()), Pending::Json),
        Err(e) => fail_step(e),
    }
}

/// The first step of a call.
#[verifier::rlimit(40)]
pub fn dispatch_dsl(call: &DslCall, ctx: &ReplCtx) -> (r: Step)
    requires
        !oversized(call@, ctx@),
    ensures
        r@ == dsl_step(call@, ctx@),
{
    broadcast use call_view;

    let joined_path: String = joined(&call.path, ".");
    let path: &str = joined_path.as_str();
    if same(path, "plugins") {
        ask_step("adapter.list", Json::object(), Pending::Json)
    } else if same(path, "plugins.describe") {
        one_string_request(call, "plugins.describe", "plugin.describe", "plugin")
    } else if same(path, "session.spawn") {
        session_spawn(call)
    } else if same(path, "session.resume") {
        session_resume(call)
    } else if same(path, "session.live") {
        ask_step("adapter.live", Json::object(), Pending::Json)
    } else if same(path, "session.attach") {
        match read_attach_spec(call) {
            Ok(spec) => session_attach(spec),
            Err(e) => fail_step(e),
        }
    } else if same(path, "session.list") {
        finish_step(CmdOutcome::Line(session_list(ctx)))
    } else if same(path, "session.close") {
        session_close(call, ctx)
    } else if same(path, "state") {
        focused_request(ctx, "adapter.state")
    } else if same(path, "send.intent") {
        match expect_one_string(call, "send.intent") {
            Ok(intent) => {
                let params: Json = kwargs_to_json(&call.kwargs);
                let pending: Pending = Pending::SentIntent(intent.clone());
                invoke_intent(ctx, intent.as_str(), params, pending)
            },
            Err(e) => fail_step(e),
        }
    } else if same(path, "send.text") {
        match expect_one_string(call, "send.text") {
            Ok(text) => {
                let (intent, params) = send_text_payload(text.as_str());
                invoke_intent(ctx, intent, params, Pending::SentText(text))
            },
            Err(e) => fail_step(e),
        }
    } else if same(path, "send.key") {
        match expect_one_string(call, "send.key") {
            Ok(key) => {
                let (intent, params) = send_key_payload(key.as_str());
                invoke_intent(ctx, intent, params, Pending::SentKey(key))
            },
            Err(e) => fail_step(e),
        }
    } else if same(path, "turn") {
        turn_command(call, ctx)
    } else if same(path, "wait") {
        wait_command(call, ctx)
    } else if same(path, "cancel_wait") {
        one_string_request(call, "cancel_wait", "adapter.cancel_wait", "wait_id")
    } else if same(path, "wait.matches") {
        match expect_one_regex(call, "wait.matches") {
            Ok(pattern) => wait_with(call, ctx, Matcher::Pattern(pattern)),
            Err(e) => fail_step(e),
        }
    } else if same(path, "wait.screen_stable") {
        match expect_one_duration(call, "wait.screen_stable") {
            Ok(stable) => wait_with(call, ctx, Matcher::Stable(stable)),
            Err(e) => fail_step(e),
        }
    } else if same(path, "transcript.snapshot") {
        match focus_or_err(ctx) {
            Ok(id) => {
                let redact: bool = bool_kwarg(call, "redact").unwrap_or(true);
                ask_step(
                    "adapter.transcript",
                    redact_json(id.as_str(), redact),
                    Pending::Transcript,
                )
            },
            Err(e) => fail_step(e),
        }
    } else if same(path, "screen.snapshot") || same(path, "screen.view") || same(path, "view") {
        match focus_or_err(ctx) {
            Ok(id) => {
                let params: Json = redact_json(id.as_str(), false);
                ask_step("adapter.snapshot", params, Pending::Screen(id))
            },
            Err(e) => fail_step(e),
        }
    } else if same(path, "inspect") {
        focused_request(ctx, "adapter.inspect")
    } else {
        let mut message: String = "unknown command `".to_owned();
        message.push_str(path);
        message.push_str("` — try `:help`");
        fail_step(Error::Rpc(message))
    }
}

// ---- meta commands ------------------------------------------------------

/// The step of a meta command, and the state after it.
pub open spec fn meta_step(meta: MetaModel, ctx: CtxModel) -> (StepModel, CtxModel) {
    match meta {
        MetaModel::Help => (finish(OutcomeModel::ShowHelp(HELP_TEXT@)), ctx),
        MetaModel::Quit => (finish(OutcomeModel::Quit), ctx),
        MetaModel::Tabs => (finish(OutcomeModel::Line(crate::adopt::tabs_line(ctx))), ctx),
        MetaModel::Focus(id) => if ctx.knows(id) {
            (finish(OutcomeModel::Line("focus → "@ + id)), ctx.with_focus(id))
        } else {
            (fail("unknown adapter `"@ + id + "`"@), ctx)
        },
        MetaModel::Notifications(request) => (
            ask(
                "server.set_notifications"@,
                notifications_params(request),
                PendingModel::Subscribed(request.enabled),
            ),
            ctx,
        ),
        MetaModel::Live => (ask("adapter.live"@, no_fields(), PendingModel::Json), ctx),
        MetaModel::Attach(spec) => (attach_step(spec), ctx),
        MetaModel::Rpc { method, params } => (ask(method, params, PendingModel::Json), ctx),
    }
}

/// The first step of a meta command.
pub fn dispatch_meta(meta: MetaCmd, ctx: &mut ReplCtx) -> (r: Step)
    ensures
        meta_step(meta@, old(ctx)@) == (r@, final(ctx)@),
{
    match meta {
        MetaCmd::Help => finish_step(CmdOutcome::ShowHelp(help_text().to_owned())),
        MetaCmd::Quit => finish_step(CmdOutcome::Quit),
        MetaCmd::Tabs => finish_step(CmdOutcome::Line(crate::adopt::format_tabs(ctx))),
        MetaCmd::Focus(id) => {
            if ctx.adapter(id.as_str()).is_none() {
                let mut message: String = "unknown adapter `".to_owned();
                message.push_str(id.as_str());
                message.push_str("`");
                return fail_step(Error::Rpc(message));
            }
            ctx.set_focus(id.as_str());
            let mut line: String = "focus → ".to_owned();
            line.push_str(id.as_str());
            finish_step(CmdOutcome::Line(line))
        },
        MetaCmd::Notifications(request) => ask_step(
            "server.set_notifications",
            notifications_json(&request),
            Pending::Subscribed(request.enabled),
        ),
        MetaCmd::Live => ask_step("adapter.live", Json::object(), Pending::Json),
        MetaCmd::Attach(spec) => session_attach(spec),
        MetaCmd::Rpc { method, params } => ask_step(method.as_str(), params, Pending::Json),
    }
}

// ---- the steps of a command ---------------------------------------------

/// The first step of a command, and the state after it.
pub open spec fn first_step(cmd: CmdModel, ctx: CtxModel) -> (StepModel, CtxModel) {
    match cmd {
        CmdModel::Meta(meta) => meta_step(meta, ctx),
        CmdModel::Dsl(call) => (dsl_step(call, ctx), ctx),
    }
}

/// The first step of a command.
pub fn dispatch(cmd: Cmd, ctx: &mut ReplCtx) -> (r: Step)
    requires
        cmd@ matches CmdModel::Dsl(call) ==> !oversized(call, old(ctx)@),
    ensures
        first_step(cmd@, old(ctx)@) == (r@, final(ctx)@),
{
    match cmd {
        Cmd::Meta(meta) => dispatch_meta(meta, ctx),
        Cmd::Dsl(call) => dispatch_dsl(&call, ctx),
    }
}

/// What a reply makes of a request that was waiting for it, and the state
/// after it. A failure ends the command and changes nothing.
pub open spec fn next_step(
    pending: PendingModel,
    reply: Result<JsonModel, ErrorModel>,
    elapsed: Duration,
    ctx: CtxModel,
) -> (StepModel, CtxModel) {
    match reply {
        Err(e) => (StepModel::Done { outcome: Err(e), heartbeat: None }, ctx),
        Ok(value) => match pending {
            PendingModel::Json => (finish(OutcomeModel::Json(value)), ctx),
            PendingModel::Subscribed(enabled) => (
                StepModel::Done {
                    outcome: Ok(OutcomeModel::Json(value)),
                    heartbeat: Some(enabled),
                },
                ctx,
            ),
            PendingModel::Started { plugin, prior } => (
                finish(OutcomeModel::Note { note: spawned_note(value), value }),
                crate::adopt::resumed(ctx, plugin, prior, value),
            ),
            PendingModel::AttachOne(id) => (
                ask("adapter.snapshot"@, redact_params(id, false), PendingModel::Screen(id)),
                crate::adopt::attached_one(ctx, id, value),
            ),
            PendingModel::AttachAll => (
                finish(
                    OutcomeModel::Line(
                        crate::adopt::attached_line(
                            crate::adopt::live_ids(crate::adopt::live_entries(value)),
                        ),
                    ),
                ),
                crate::adopt::attached_all(ctx, value),
            ),
            PendingModel::Closed(id) => (
                finish(OutcomeModel::Note { note: plain_note("closed · "@ + id), value }),
                ctx.remove(id),
            ),
            PendingModel::SentText(text) => (
                finish(OutcomeModel::Note { note: send_text_note(text, value), value }),
                ctx,
            ),
            PendingModel::SentKey(key) => (
                finish(
                    OutcomeModel::Note {
                        note: plain_note("sent key "@ + key + state_suffix(value)),
                        value,
                    },
                ),
                ctx,
            ),
            PendingModel::SentIntent(intent) => (
                finish(
                    OutcomeModel::Note {
                        note: plain_note("intent "@ + intent + state_suffix(value)),
                        value,
                    },
                ),
                ctx,
            ),
            PendingModel::Waited { pattern } => (
                finish(
                    OutcomeModel::Note {
                        note: if pattern {
                            wait_match_note(elapsed, value)
                        } else {
                            wait_stable_note(elapsed, value)
                        },
                        value,
                    },
                ),
                ctx,
            ),
            PendingModel::Turned => (
                finish(OutcomeModel::Note { note: turn_complete_note(elapsed, value), value }),
                ctx,
            ),
            PendingModel::Transcript => (
                finish(
                    OutcomeModel::Note {
                        note: transcript_line(transcript_bytes(value), redacted_count(value)),
                        value,
                    },
                ),
                ctx,
            ),
            PendingModel::Screen(id) => (StepModel::Decode { value, adapter: id }, ctx),
        },
    }
}

/// What a reply says.
pub open spec fn reply_model(reply: Result<Json, Error>) -> Result<JsonModel, ErrorModel> {
    match reply {
        Ok(j) => Ok(j@),
        Err(e) => Err(e@),
    }
}

fn note_step(note: Note, value: Json) -> (r: Step)
    ensures
        r@ == finish(OutcomeModel::Note { note: note@, value: value@ }),
{
    finish_step(CmdOutcome::Note { note, value })
}

/// The step after a reply. `elapsed` is how long the call took.
pub fn resume(
    pending: Pending,
    reply: Result<Json, Error>,
    elapsed: Duration,
    ctx: &mut ReplCtx,
) -> (r: Step)
    ensures
        next_step(pending@, reply_model(reply), elapsed, old(ctx)@) == (r@, final(ctx)@),
{
    let value: Json = match reply {
        Ok(value) => value,
        Err(e) => {
            return fail_step(e);
        },
    };
    match pending {
        Pending::Json => finish_step(CmdOutcome::Json(value)),
        Pending::Subscribed(enabled) => Step::Done {
            outcome: Ok(CmdOutcome::Json(value)),
            heartbeat: Some(enabled),
        },
        Pending::Started { plugin, prior } => {
            if let Some(id) = &prior {
                let _ = ctx.remove_adapter(id.as_str());
            }
            crate::adopt::adopt_started_adapter(ctx, plugin.as_str(), &value);
            note_step(spawned(&value), value)
        },
        Pending::AttachOne(id) => {
            crate::adopt::attach_one(ctx, id.as_str(), &value);
            let params: Json = redact_json(id.as_str(), false);
            ask_step("adapter.snapshot", params, Pending::Screen(id))
        },
        Pending::AttachAll => {
            let attached: Vec<String> = crate::adopt::attach_live(ctx, &value);
            finish_step(CmdOutcome::Line(crate::adopt::attached_text(&attached)))
        },
        Pending::Closed(id) => {
            let _ = ctx.remove_adapter(id.as_str());
            note_step(closed(id.as_str()), value)
        },
        Pending::SentText(text) => note_step(send_text(text.as_str(), &value), value),
        Pending::SentKey(key) => note_step(send_key(key.as_str(), &value), value),
        Pending::SentIntent(intent) => note_step(send_intent(intent.as_str(), &value), value),
        Pending::Waited { pattern } => note_step(note_for_wait(pattern, elapsed, &value), value),
        Pending::Turned => note_step(turn_complete(elapsed, &value), value),
        Pending::Transcript => note_step(transcript(&value), value),
        Pending::Screen(id) => Step::Decode { value, adapter: id },
    }
}

/// The summary of a wait, by what it was for.
pub fn note_for_wait(pattern: bool, elapsed: Duration, response: &Json) -> (r: Note)
    ensures
        r@ == if pattern {
            wait_match_note(elapsed, response@)
        } else {
            wait_stable_note(elapsed, response@)
        },
{
    if pattern {
        wait_match(elapsed, response)
    } else {
        wait_stable(elapsed, response)
    }
}

/// The outcome of a picture that was decoded, or failed to be.
pub open spec fn screen_outcome(
    adapter: Seq<char>,
    decoded: Result<ScreenSnapshot, Seq<char>>,
) -> Result<OutcomeModel, ErrorModel> {
    match decoded {
        Ok(snapshot) => Ok(OutcomeModel::Screen { adapter, snapshot }),
        Err(m) => Err(ErrorModel::Rpc("decode adapter.snapshot: "@ + m)),
    }
}

/// The outcome of a picture that was decoded, or failed to be.
pub fn finish_screen(adapter: String, decoded: Result<ScreenSnapshot, String>) -> (r: Result<
    CmdOutcome,
    Error,
>)
    ensures
        result_model(r) == screen_outcome(
            adapter@,
            match decoded {
                Ok(snapshot) => Ok(snapshot),
                Err(m) => Err(m@),
            },
        ),
{
    match decoded {
        Ok(snapshot) => Ok(CmdOutcome::Screen { adapter, snapshot }),
        Err(error) => {
            let mut message: String = "decode adapter.snapshot: ".to_owned();
            message.push_str(error.as_str());
            Err(Error::Rpc(message))
        },
    }
}

// ---- laws ---------------------------------------------------------------

/// The names beside the adapter's.
pub(crate) proof fn names_beside_the_adapter()
    ensures
        "adapter"@ != "intent"@,
        "adapter"@ != "params"@,
        "adapter"@ != "redact"@,
        "adapter"@ != "send"@,
        "adapter"@ != "wait"@,
        "adapter"@ != "timeout_ms"@,
        "adapter"@ != "wait_id"@,
{
    reveal_strlit("adapter");
    reveal_strlit("intent");
    reveal_strlit("params");
    reveal_strlit("redact");
    reveal_strlit("send");
    reveal_strlit("wait");
    reveal_strlit("timeout_ms");
    reveal_strlit("wait_id");
    assert("adapter"@.len() == 7);
    assert("intent"@.len() == 6);
    assert("params"@.len() == 6);
    assert("redact"@.len() == 6);
    assert("send"@.len() == 4);
    assert("wait"@.len() == 4);
    assert("timeout_ms"@.len() == 10);
    assert("adapter"@[0] == 'a');
    assert("wait_id"@[0] == 'w');
}

/// What is bound to other names leaves the adapter as it is.
pub(crate) proof fn adapter_is_kept()
    ensures
        forall|j: JsonModel, name: Seq<char>, value: JsonModel|
            j is Obj && name != "adapter"@ ==> (#[trigger] j.with(name, value)) is Obj && j.with(
                name,
                value,
            ).field("adapter"@) == j.field("adapter"@),
{
    assert forall|j: JsonModel, name: Seq<char>, value: JsonModel|
        j is Obj && name != "adapter"@ implies (#[trigger] j.with(name, value)) is Obj && j.with(
        name,
        value,
    ).field("adapter"@) == j.field("adapter"@) by {
        crate::json::with_keeps(j, name, value, "adapter"@);
    }
}

/// The paths of the calls that work on the focused adapter only.
pub open spec fn needs_focus(path: Seq<char>) -> bool {
    ||| path == "state"@
    ||| path == "send.intent"@
    ||| path == "send.text"@
    ||| path == "send.key"@
    ||| path == "turn"@
    ||| path == "wait"@
    ||| path == "wait.matches"@
    ||| path == "wait.screen_stable"@
    ||| path == "transcript.snapshot"@
    ||| path == "screen.snapshot"@
    ||| path == "screen.view"@
    ||| path == "view"@
    ||| path == "inspect"@
}

/// A call that works on the focused adapter asks the server for nothing
/// without a focus, and names the focused adapter where it asks.
pub proof fn focus_is_named(call: CallModel, ctx: CtxModel)
    requires
        needs_focus(join(call.path, "."@)),
    ensures
        match dsl_step(call, ctx) {
            StepModel::Call { request, .. } => ctx.focus is Some && request.params.text_field(
                "adapter"@,
            ) == ctx.focus,
            StepModel::Done { outcome, heartbeat } => outcome is Err && heartbeat is None,
            StepModel::Decode { .. } => false,
        },
{
    names_beside_the_adapter();
    adapter_is_kept();
    paths_needing_focus();
    crate::json::with_binds(no_fields(), "adapter"@, JsonModel::Str(ctx.focus->Some_0));
}

/// The paths of the calls that work without a focus are other ones.
proof fn paths_needing_focus()
    ensures
        forall|path: Seq<char>|
            #[trigger] needs_focus(path) ==> path != "plugins"@ && path != "plugins.describe"@
                && path != "session.spawn"@ && path != "session.resume"@ && path != "session.live"@
                && path != "session.attach"@ && path != "session.list"@ && path != "session.close"@
                && path != "cancel_wait"@,
{
    reveal_strlit("state");
    reveal_strlit("send.intent");
    reveal_strlit("send.text");
    reveal_strlit("send.key");
    reveal_strlit("turn");
    reveal_strlit("wait");
    reveal_strlit("wait.matches");
    reveal_strlit("wait.screen_stable");
    reveal_strlit("transcript.snapshot");
    reveal_strlit("screen.snapshot");
    reveal_strlit("screen.view");
    reveal_strlit("view");
    reveal_strlit("inspect");
    reveal_strlit("plugins");
    reveal_strlit("plugins.describe");
    reveal_strlit("session.spawn");
    reveal_strlit("session.resume");
    reveal_strlit("session.live");
    reveal_strlit("session.attach");
    reveal_strlit("session.list");
    reveal_strlit("session.close");
    reveal_strlit("cancel_wait");
    assert forall|path: Seq<char>| #[trigger] needs_focus(path) implies path.len() >= 4 && !(path[0]
        == 'p') && !(path[0] == 'c') && !(path[0] == 's' && path[2] == 's') by {}
    assert("session.spawn"@[2] == 's');
    assert("session.resume"@[2] == 's');
    assert("session.live"@[2] == 's');
    assert("session.attach"@[2] == 's');
    assert("session.list"@[2] == 's');
    assert("session.close"@[2] == 's');
}

/// What a turn sends never names a keyword that is about waiting.
pub proof fn wait_keywords_are_not_sent(call: CallModel, name: Seq<char>)
    requires
        wait_only(name),
    ensures
        turn_send_params(call).field(name) is None,
{
    send_only_drops(entries_to_json(call.kwargs), name);
}

proof fn send_only_drops(entries: Seq<(Seq<char>, JsonModel)>, name: Seq<char>)
    requires
        wait_only(name),
    ensures
        lookup(send_only(entries), name) is None,
        forall|i: int|
            0 <= i < send_only(entries).len() ==> (#[trigger] send_only(entries)[i]).0 != name,
    decreases entries.len(),
{
    let kept = send_only(entries);
    if entries.len() > 0 {
        send_only_drops(entries.drop_last(), name);
        let before = send_only(entries.drop_last());
        assert forall|i: int| 0 <= i < kept.len() implies (#[trigger] kept[i]).0 != name by {
            if i < before.len() {
                assert(kept[i] == before[i]);
            }
        }
    }
    if lookup(kept, name) is Some {
        crate::fields::lookup_finds(kept, name);
    }
}

/// The help text.
pub const HELP_TEXT: &'static str =
    "ptywright repl commands:\n\
     \n\
     Sessions:\n\
       plugins()                       list built-in plugins\n\
       plugins.describe(\"name\")        return a plugin's intents / matchers / states\n\
       session.spawn(\"name\")         spawn an adapter for the named plugin\n\
       session.resume(\"name\", prior_adapter=\"id\") resume and close prior id (alias: prior)\n\
       session.list()                  list known adapters (this REPL)\n\
       session.live()                  list adapters live on the server\n\
       session.attach(\"id\")          attach a server adapter into this REPL\n\
       session.attach(\"all\")          attach every live adapter\n\
       session.close(id?)              close the focused (or named) adapter\n\
       state()                         re-classify the focused adapter\n\
     \n\
     Driving the focused adapter:\n\
       send.text(\"…\")                 send a prompt\n\
       send.key(\"y\")                  send a single key\n\
       send.intent(\"name\", k=v, …)   invoke a plugin intent\n\
       turn(\"intent\", k=v, …)         atomic send + wait_turn_matcher (adapter.turn)\n\
       turn(\"intent\", k=v, wait=matches(r\"…\"), timeout=5s)\n\
       wait(matches(r\"…\"))            wait for output to match\n\
       wait(screen_stable(250ms))      wait for the screen to settle\n\
       transcript.snapshot(redact=true)\n\
       screen.snapshot()                render the focused PTY inline\n\
       view()                           alias for screen.snapshot()\n\
       inspect()                        diagnostic dump\n\
     \n\
     Meta:\n\
       :tabs       :focus <id>   :live   :attach <id|all>\n\
       :notifications on|off [adapters=…] [sessions=…]\n\
       :rpc <method> {json}\n\
       :quit       :help\n";

/// The help text.
pub fn help_text() -> (r: &'static str)
    ensures
        r@ == HELP_TEXT@,
{
    HELP_TEXT
}

/// The methods that work on any adapter.
pub(crate) proof fn generic_methods()
    ensures
        begins("adapter.list"@, "adapter."@),
        begins("adapter.start"@, "adapter."@),
        begins("adapter.resume"@, "adapter."@),
        begins("adapter.live"@, "adapter."@),
        begins("adapter.state"@, "adapter."@),
        begins("adapter.close"@, "adapter."@),
        begins("adapter.send"@, "adapter."@),
        begins("adapter.turn"@, "adapter."@),
        begins("adapter.wait"@, "adapter."@),
        begins("adapter.cancel_wait"@, "adapter."@),
        begins("adapter.transcript"@, "adapter."@),
        begins("adapter.snapshot"@, "adapter."@),
        begins("adapter.inspect"@, "adapter."@),
{
    reveal_strlit("adapter.");
    reveal_strlit("adapter.list");
    reveal_strlit("adapter.start");
    reveal_strlit("adapter.resume");
    reveal_strlit("adapter.live");
    reveal_strlit("adapter.state");
    reveal_strlit("adapter.close");
    reveal_strlit("adapter.send");
    reveal_strlit("adapter.turn");
    reveal_strlit("adapter.wait");
    reveal_strlit("adapter.cancel_wait");
    reveal_strlit("adapter.transcript");
    reveal_strlit("adapter.snapshot");
    reveal_strlit("adapter.inspect");
    assert("adapter.list"@.take(8) =~= "adapter."@);
    assert("adapter.start"@.take(8) =~= "adapter."@);
    assert("adapter.resume"@.take(8) =~= "adapter."@);
    assert("adapter.live"@.take(8) =~= "adapter."@);
    assert("adapter.state"@.take(8) =~= "adapter."@);
    assert("adapter.close"@.take(8) =~= "adapter."@);
    assert("adapter.send"@.take(8) =~= "adapter."@);
    assert("adapter.turn"@.take(8) =~= "adapter."@);
    assert("adapter.wait"@.take(8) =~= "adapter."@);
    assert("adapter.cancel_wait"@.take(8) =~= "adapter."@);
    assert("adapter.transcript"@.take(8) =~= "adapter."@);
    assert("adapter.snapshot"@.take(8) =~= "adapter."@);
    assert("adapter.inspect"@.take(8) =~= "adapter."@);
}

/// Every call is one of the methods that work on any adapter, but for the one
/// that describes a plugin.
pub proof fn calls_stay_on_the_generic_surface(call: CallModel, ctx: CtxModel)
    ensures
        dsl_step(call, ctx) matches StepModel::Call { request, .. } ==> begins(
            request.method,
            "adapter."@,
        ) || request.method == "plugin.describe"@,
{
    generic_methods();
}

/// A picture is asked for as the terminal shows it: nothing is blotted out.
pub proof fn pictures_are_not_redacted(call: CallModel, ctx: CtxModel)
    ensures
        dsl_step(call, ctx) matches StepModel::Call { request, .. } ==> request.method
            == "adapter.snapshot"@ ==> request.params.flag_field("redact"@) == Some(false),
{
    reveal_strlit("adapter.list");
    reveal_strlit("adapter.start");
    reveal_strlit("adapter.resume");
    reveal_strlit("adapter.live");
    reveal_strlit("adapter.state");
    reveal_strlit("adapter.close");
    reveal_strlit("adapter.send");
    reveal_strlit("adapter.turn");
    reveal_strlit("adapter.wait");
    reveal_strlit("adapter.cancel_wait");
    reveal_strlit("adapter.transcript");
    reveal_strlit("adapter.snapshot");
    reveal_strlit("adapter.inspect");
    reveal_strlit("plugin.describe");
    assert("adapter.list"@.len() == 12);
    assert("adapter.start"@.len() == 13);
    assert("adapter.resume"@.len() == 14);
    assert("adapter.live"@.len() == 12);
    assert("adapter.state"@.len() == 13);
    assert("adapter.close"@.len() == 13);
    assert("adapter.send"@.len() == 12);
    assert("adapter.turn"@.len() == 12);
    assert("adapter.wait"@.len() == 12);
    assert("adapter.cancel_wait"@.len() == 19);
    assert("adapter.transcript"@.len() == 18);
    assert("adapter.snapshot"@.len() == 16);
    assert("adapter.inspect"@.len() == 15);
    assert("plugin.describe"@.len() == 15);
    if ctx.focus is Some {
        let named = adapter_params(ctx.focus->Some_0);
        crate::json::with_binds(named, "redact"@, JsonModel::Bool(false));
    }
}

} // verus!
