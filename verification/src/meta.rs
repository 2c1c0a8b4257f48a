//! Meta commands: what the client does outside of Lua.

use crate::adopt::{
    attach_live, attach_one, attached_all, attached_line, attached_one, attached_text, format_tabs,
    live_entries, live_ids, tabs_line,
};
use crate::command::dispatch::{
    adapter_json, adapter_params, notifications_json, notifications_params, redact_json,
    redact_params, Request, RequestModel,
};
use crate::command::{meta_of, parse_meta, AttachModel, AttachSpec, MetaCmd, MetaModel};
use crate::ctx::{CtxModel, ReplCtx};
use crate::error::{Error, ErrorModel};
use crate::json::{no_fields, Json, JsonModel};
use crate::lua::options::params_model;
use crate::screen::ScreenSnapshot;
use crate::text::{first_word, same, split_word};
use crate::tips::{long_guide, LONG_GUIDE};
use vstd::prelude::*;

verus! {

broadcast use vstd::string::group_string_axioms;

/// What a meta command came to.
#[derive(Debug)]
pub enum MetaOutcome {
    /// A line to read.
    Line(String),
    /// The server's answer as it is.
    Json(Json),
    /// The help text.
    ShowHelp(String),
    /// The guide.
    ShowTips(String),
    /// A picture of an adapter's terminal.
    Screen { adapter: String, snapshot: ScreenSnapshot },
    /// The client should end.
    Quit,
}

/// What becomes of the reply to a request.
#[derive(Debug)]
pub enum MetaPending {
    /// It is the outcome.
    Json,
    /// It is the outcome, and the heartbeat follows the subscription.
    Subscribed(bool),
    /// It tells of the state of an adapter to attach.
    AttachOne(String),
    /// It lists the live adapters to attach.
    AttachAll,
    /// It is a picture of the adapter's terminal.
    Screen(String),
}

/// What to do next for a meta command.
#[derive(Debug)]
pub enum MetaStep {
    /// The command is done. The heartbeat is switched where it says so.
    Done { outcome: MetaOutcome, heartbeat: Option<bool> },
    /// Make the call and resume with its reply.
    Call { request: Request, pending: MetaPending },
    /// Decode the value as a picture of the adapter's terminal.
    Decode { value: Json, adapter: String },
}

pub enum MetaOutcomeModel {
    Line(Seq<char>),
    Json(JsonModel),
    ShowHelp(Seq<char>),
    ShowTips(Seq<char>),
    Screen { adapter: Seq<char>, snapshot: ScreenSnapshot },
    Quit,
}

pub enum MetaPendingModel {
    Json,
    Subscribed(bool),
    AttachOne(Seq<char>),
    AttachAll,
    Screen(Seq<char>),
}

pub enum MetaStepModel {
    Done { outcome: MetaOutcomeModel, heartbeat: Option<bool> },
    Call { request: RequestModel, pending: MetaPendingModel },
    Decode { value: JsonModel, adapter: Seq<char> },
}

impl View for MetaOutcome {
    type V = MetaOutcomeModel;

    open spec fn view(&self) -> MetaOutcomeModel {
        match self {
            MetaOutcome::Line(s) => MetaOutcomeModel::Line(s@),
            MetaOutcome::Json(j) => MetaOutcomeModel::Json(j@),
            MetaOutcome::ShowHelp(s) => MetaOutcomeModel::ShowHelp(s@),
            MetaOutcome::ShowTips(s) => MetaOutcomeModel::ShowTips(s@),
            MetaOutcome::Screen { adapter, snapshot } => MetaOutcomeModel::Screen {
                adapter: adapter@,
                snapshot: *snapshot,
            },
            MetaOutcome::Quit => MetaOutcomeModel::Quit,
        }
    }
}

impl View for MetaPending {
    type V = MetaPendingModel;

    open spec fn view(&self) -> MetaPendingModel {
        match self {
            MetaPending::Json => MetaPendingModel::Json,
            MetaPending::Subscribed(b) => MetaPendingModel::Subscribed(*b),
            MetaPending::AttachOne(id) => MetaPendingModel::AttachOne(id@),
            MetaPending::AttachAll => MetaPendingModel::AttachAll,
            MetaPending::Screen(id) => MetaPendingModel::Screen(id@),
        }
    }
}

impl View for MetaStep {
    type V = MetaStepModel;

    open spec fn view(&self) -> MetaStepModel {
        match self {
            MetaStep::Done { outcome, heartbeat } => MetaStepModel::Done {
                outcome: outcome@,
                heartbeat: *heartbeat,
            },
            MetaStep::Call { request, pending } => MetaStepModel::Call {
                request: request@,
                pending: pending@,
            },
            MetaStep::Decode { value, adapter } => MetaStepModel::Decode {
                value: value@,
                adapter: adapter@,
            },
        }
    }
}

/// What is to be done next, or why the command failed.
pub open spec fn step_model(r: Result<MetaStep, Error>) -> Result<MetaStepModel, ErrorModel> {
    match r {
        Ok(step) => Ok(step@),
        Err(e) => Err(e@),
    }
}

/// The step that asks the server.
pub open spec fn ask(method: Seq<char>, params: JsonModel, pending: MetaPendingModel) -> Result<
    MetaStepModel,
    ErrorModel,
> {
    Ok(MetaStepModel::Call { request: RequestModel { method, params }, pending })
}

/// The step that ends well.
pub open spec fn finish(outcome: MetaOutcomeModel) -> Result<MetaStepModel, ErrorModel> {
    Ok(MetaStepModel::Done { outcome, heartbeat: None })
}

fn ask_step(method: &str, params: Json, pending: MetaPending) -> (r: Result<MetaStep, Error>)
    ensures
        step_model(r) == ask(method@, params@, pending@),
{
    Ok(MetaStep::Call { request: Request { method: method.to_owned(), params }, pending })
}

fn finish_step(outcome: MetaOutcome) -> (r: Result<MetaStep, Error>)
    ensures
        step_model(r) == finish(outcome@),
{
    Ok(MetaStep::Done { outcome, heartbeat: None })
}

// ---- commands -----------------------------------------------------------

/// `:focus`: switches to a known adapter.
pub open spec fn focus_step(id: Seq<char>, ctx: CtxModel) -> (
    Result<MetaStepModel, ErrorModel>,
    CtxModel,
) {
    if ctx.knows(id) {
        (finish(MetaOutcomeModel::Line("focus → "@ + id)), ctx.with_focus(id))
    } else {
        (Err(ErrorModel::Rpc("unknown adapter `"@ + id + "`"@)), ctx)
    }
}

/// `:attach`: asks for the state of one adapter, or for all that live.
pub open spec fn attach_step(spec: AttachModel) -> Result<MetaStepModel, ErrorModel> {
    match spec {
        AttachModel::One(id) => ask(
            "adapter.state"@,
            adapter_params(id),
            MetaPendingModel::AttachOne(id),
        ),
        AttachModel::All => ask("adapter.live"@, no_fields(), MetaPendingModel::AttachAll),
    }
}

/// The first step of a meta command without its colon, and the state after
/// it.
pub open spec fn first_step(input: Seq<char>, ctx: CtxModel) -> (
    Result<MetaStepModel, ErrorModel>,
    CtxModel,
) {
    if first_word(input) == "tips"@ {
        (finish(MetaOutcomeModel::ShowTips(LONG_GUIDE@)), ctx)
    } else {
        match meta_of(input) {
            Err(m) => (Err(ErrorModel::Rpc(m)), ctx),
            Ok(MetaModel::Help) => (finish(MetaOutcomeModel::ShowHelp(HELP_TEXT@)), ctx),
            Ok(MetaModel::Quit) => (finish(MetaOutcomeModel::Quit), ctx),
            Ok(MetaModel::Tabs) => (finish(MetaOutcomeModel::Line(tabs_line(ctx))), ctx),
            Ok(MetaModel::Focus(id)) => focus_step(id, ctx),
            Ok(MetaModel::Live) => (ask("adapter.live"@, no_fields(), MetaPendingModel::Json), ctx),
            Ok(MetaModel::Attach(spec)) => (attach_step(spec), ctx),
            Ok(MetaModel::Notifications(request)) => (
                ask(
                    "server.set_notifications"@,
                    notifications_params(request),
                    MetaPendingModel::Subscribed(request.enabled),
                ),
                ctx,
            ),
            Ok(MetaModel::Rpc { method, params }) => (
                ask(method, params, MetaPendingModel::Json),
                ctx,
            ),
        }
    }
}

fn focus(id: &str, ctx: &mut ReplCtx) -> (r: Result<MetaStep, Error>)
    ensures
        focus_step(id@, old(ctx)@) == (step_model(r), final(ctx)@),
{
    if ctx.adapter(id).is_none() {
        let mut message: String = "unknown adapter `".to_owned();
        message.push_str(id);
        message.push_str("`");
        return Err(Error::Rpc(message));
    }
    ctx.set_focus(id);
    let mut line: String = "focus → ".to_owned();
    line.push_str(id);
    finish_step(MetaOutcome::Line(line))
}

fn attach(spec: AttachSpec) -> (r: Result<MetaStep, Error>)
    ensures
        step_model(r) == attach_step(spec@),
{
    match spec {
        AttachSpec::One(id) => {
            let params: Json = adapter_json(id.as_str());
            ask_step("adapter.state", params, MetaPending::AttachOne(id))
        },
        AttachSpec::All => ask_step("adapter.live", Json::object(), MetaPending::AttachAll),
    }
}

/// The first step of a meta command. `input` is what follows the colon.
pub fn dispatch(input: &str, ctx: &mut ReplCtx) -> (r: Result<MetaStep, Error>)
    ensures
        first_step(input@, old(ctx)@) == (step_model(r), final(ctx)@),
{
    let (head, _) = split_word(input);
    if same(head.as_str(), "tips") {
        return finish_step(MetaOutcome::ShowTips(long_guide().to_owned()));
    }
    let meta: MetaCmd = match parse_meta(input) {
        Ok(meta) => meta,
        Err(e) => {
            return Err(e);
        },
    };
    match meta {
        MetaCmd::Help => finish_step(MetaOutcome::ShowHelp(help_text().to_owned())),
        MetaCmd::Quit => finish_step(MetaOutcome::Quit),
        MetaCmd::Tabs => finish_step(MetaOutcome::Line(format_tabs(ctx))),
        MetaCmd::Focus(id) => focus(id.as_str(), ctx),
        MetaCmd::Live => ask_step("adapter.live", Json::object(), MetaPending::Json),
        MetaCmd::Attach(spec) => attach(spec),
        MetaCmd::Notifications(request) => ask_step(
            "server.set_notifications",
            notifications_json(&request),
            MetaPending::Subscribed(request.enabled),
        ),
        MetaCmd::Rpc { method, params } => ask_step(method.as_str(), params, MetaPending::Json),
    }
}

/// What a reply makes of a request that was waiting for it, and the state
/// after it. A failure ends the command and changes nothing.
pub open spec fn next_step(
    pending: MetaPendingModel,
    reply: Result<JsonModel, ErrorModel>,
    ctx: CtxModel,
) -> (Result<MetaStepModel, ErrorModel>, CtxModel) {
    match reply {
        Err(e) => (Err(e), ctx),
        Ok(value) => match pending {
            MetaPendingModel::Json => (finish(MetaOutcomeModel::Json(value)), ctx),
            MetaPendingModel::Subscribed(enabled) => (
                Ok(
                    MetaStepModel::Done {
                        outcome: MetaOutcomeModel::Json(value),
                        heartbeat: Some(enabled),
                    },
                ),
                ctx,
            ),
            MetaPendingModel::AttachOne(id) => (
                ask("adapter.snapshot"@, redact_params(id, false), MetaPendingModel::Screen(id)),
                attached_one(ctx, id, value),
            ),
            MetaPendingModel::AttachAll => (
                finish(MetaOutcomeModel::Line(attached_line(live_ids(live_entries(value))))),
                attached_all(ctx, value),
            ),
            MetaPendingModel::Screen(id) => (
                Ok(MetaStepModel::Decode { value, adapter: id }),
                ctx,
            ),
        },
    }
}

/// The step after a reply.
pub fn resume(pending: MetaPending, reply: Result<Json, Error>, ctx: &mut ReplCtx) -> (r: Result<
    MetaStep,
    Error,
>)
    ensures
        next_step(pending@, params_model(reply), old(ctx)@) == (step_model(r), final(ctx)@),
{
    let value: Json = match reply {
        Ok(value) => value,
        Err(e) => {
            return Err(e);
        },
    };
    match pending {
        MetaPending::Json => finish_step(MetaOutcome::Json(value)),
        MetaPending::Subscribed(enabled) => Ok(
            MetaStep::Done { outcome: MetaOutcome::Json(value), heartbeat: Some(enabled) },
        ),
        MetaPending::AttachOne(id) => {
            attach_one(ctx, id.as_str(), &value);
            let params: Json = redact_json(id.as_str(), false);
            ask_step("adapter.snapshot", params, MetaPending::Screen(id))
        },
        MetaPending::AttachAll => {
            let attached: Vec<String> = attach_live(ctx, &value);
            finish_step(MetaOutcome::Line(attached_text(&attached)))
        },
        MetaPending::Screen(id) => Ok(MetaStep::Decode { value, adapter: id }),
    }
}

/// The outcome of a picture that was decoded, or failed to be.
pub fn finish_screen(adapter: String, decoded: Result<ScreenSnapshot, String>) -> (r: Result<
    MetaOutcome,
    Error,
>)
    ensures
        match decoded {
            Ok(snapshot) => r matches Ok(outcome) && outcome@ == (MetaOutcomeModel::Screen {
                adapter: adapter@,
                snapshot,
            }),
            Err(m) => r matches Err(e) && e@ == ErrorModel::Rpc(
                "decode adapter.snapshot: "@ + m@,
            ),
        },
{
    match decoded {
        Ok(snapshot) => Ok(MetaOutcome::Screen { adapter, snapshot }),
        Err(error) => {
            let mut message: String = "decode adapter.snapshot: ".to_owned();
            message.push_str(error.as_str());
            Err(Error::Rpc(message))
        },
    }
}

/// The help text.
pub const HELP_TEXT: &'static str =
    "ptywright repl commands (real Lua 5.4):\n\
     \n\
     Each line is evaluated as Lua. The globals below are bound by the REPL;\n\
     the full standard library is also available (`os`, `io`, `string`, …).\n\
     The `{}` form is Lua's call-with-table-argument sugar — preferred for\n\
     kwargs-heavy calls because it reads cleaner than the parenthesised form.\n\
     \n\
     Sessions:\n\
       plugins()                              list built-in plugins\n\
       plugins.describe \"name\"                describe a plugin (Lua string sugar)\n\
       session.spawn{ \"name\", rows = 24 }     spawn an adapter (combined form)\n\
       session.spawn(\"name\", { rows = 24 })   ↳ equivalent parenthesised form\n\
       session.resume{ \"name\", prior_adapter = \"id\" }\n\
       session.list()                         known adapters (this REPL)\n\
       session.live()                         adapters live on the server\n\
       session.attach \"id\"   /   session.attach \"all\"\n\
       session.close()                        close the focused adapter\n\
       state()                                re-classify the focused adapter\n\
     \n\
     Driving the focused adapter:\n\
       send.text \"hello\"                      send a prompt (intent=send_prompt)\n\
       send.key \"enter\"                       send a single key\n\
       send.intent{ \"name\", k = v, … }        invoke a plugin intent\n\
       turn{ \"send_prompt\", prompt = \"go\", wait = matches \"done\", timeout = s(5) }\n\
       wait(matches \"^❯\")                     wait for the screen to match a regex\n\
       wait(screen_stable(ms(250)))           wait for the screen to settle\n\
       wait.matches \"^❯\"                      shorthand: wait with the default matcher\n\
       wait.screen_stable(250)                shorthand: wait for stability (ms)\n\
       cancel_wait \"wait-id\"                  break a still-in-flight wait\n\
       transcript.snapshot{ redact = false }  dump the transcript (default redact=true)\n\
       screen.snapshot() / view()             render the focused PTY inline (styled)\n\
       inspect()                              diagnostic dump (adapter.inspect)\n\
     \n\
     Helpers:\n\
       re \"^❯\"      identity — documents \"this string is a regex\"\n\
       ms(250)      identity — documents \"this number is milliseconds\"\n\
       s(2)         shorthand for 2000 ms (seconds → ms)\n\
     \n\
     Meta:\n\
       :tabs       :focus <id>   :live   :attach <id|all>\n\
       :notifications on|off [adapters=…] [sessions=…]\n\
       :rpc <method> {json}\n\
       :tips       guided tour of the most useful idioms\n\
       :quit       :help\n";

/// The help text.
pub fn help_text() -> (r: &'static str)
    ensures
        r@ == HELP_TEXT@,
{
    HELP_TEXT
}

// ---- laws ---------------------------------------------------------------

/// Only `:focus` changes the state before the server has answered, and then
/// only the focus, to a tab that is there.
pub proof fn only_focus_changes_the_state(input: Seq<char>, ctx: CtxModel)
    ensures
        ({
            let after = first_step(input, ctx).1;
            after == ctx || (meta_of(input) matches Ok(MetaModel::Focus(id)) && ctx.knows(id)
                && after == ctx.with_focus(id))
        }),
{
}

/// The heartbeat is switched by `:notifications` alone, after the server has
/// agreed, and in the way that was asked for.
pub proof fn heartbeat_follows_the_subscription(
    input: Seq<char>,
    reply: Result<JsonModel, ErrorModel>,
    ctx: CtxModel,
)
    ensures
        first_step(input, ctx).0 matches Ok(MetaStepModel::Done { heartbeat, .. }) ==> heartbeat
            is None,
        first_step(input, ctx).0 matches Ok(MetaStepModel::Call { pending, .. }) ==> (next_step(
            pending,
            reply,
            ctx,
        ).0 matches Ok(MetaStepModel::Done { heartbeat: Some(b), .. }) ==> reply is Ok && (
        meta_of(input) matches Ok(MetaModel::Notifications(request)) && request.enabled == b)),
{
}

/// Notifications are never switched off for some adapters or sessions only.
pub proof fn off_takes_no_filters(tail: Seq<char>)
    ensures
        crate::command::notifications_of(tail) matches Ok(request) ==> request.enabled || (
        request.adapters.len() == 0 && request.sessions.len() == 0),
{
}

} // verus!
