//! What the client asks the server before its first prompt, and what it does
//! with what is entered there.

use crate::adopt::{extract_live_ids, live_entries, live_ids};
use crate::command::dispatch::{Request, RequestModel};
use crate::completer::{AdapterCache, PluginCache};
use crate::ctx::opt_text;
use crate::error::{Error, ErrorModel};
use crate::json::{no_fields, Json, JsonModel};
use crate::lua::options::params_model;
use crate::paint::{dimmed, span_models, Ink, SpanModel};
use crate::prompt::{CANCELLED, FAREWELL};
use crate::text::trim;
use crate::tui::{
    extract_plugin_names, format_live_hint, live_hint, names_of, one_piece, piece, read_entered,
    Entered, Line,
};
use vstd::prelude::*;

verus! {

broadcast use vstd::string::group_string_axioms;

/// How long a request may take, in seconds.
pub const RPC_TIMEOUT_SECS: u64 = 30;

/// How often the server is asked for news, in milliseconds.
pub const HEARTBEAT_MILLIS: u64 = 500;

/// How long such a request may take, in milliseconds.
pub const HEARTBEAT_TIMEOUT_MILLIS: u64 = 750;

// ---- the first requests -------------------------------------------------

/// What is asked next.
#[derive(Debug, Clone, Copy, PartialEq, Eq)]
pub enum Opening {
    /// Which plugins there are.
    Plugins,
    /// To be told of what happens.
    Subscribe,
    /// Which adapters live.
    Live,
    /// Nothing more.
    Done,
}

/// What is known of the server at the first prompt.
#[derive(Debug)]
pub struct Startup {
    pub plugins: PluginCache,
    pub adapters: AdapterCache,
    /// What is said of the live adapters.
    pub hint: Option<String>,
}

#[verifier::ext_equal]
pub struct StartupModel {
    pub plugins: Seq<Seq<char>>,
    pub adapters: Seq<Seq<char>>,
    pub hint: Option<Seq<char>>,
}

impl View for Startup {
    type V = StartupModel;

    open spec fn view(&self) -> StartupModel {
        StartupModel {
            plugins: self.plugins@,
            adapters: self.adapters@,
            hint: opt_text(self.hint),
        }
    }
}

/// The request for what is asked next.
pub open spec fn opening_call(opening: Opening) -> Option<RequestModel> {
    match opening {
        Opening::Plugins => Some(RequestModel { method: "adapter.list"@, params: no_fields() }),
        Opening::Subscribe => Some(
            RequestModel {
                method: "server.set_notifications"@,
                params: no_fields().with("enabled"@, JsonModel::Bool(true)),
            },
        ),
        Opening::Live => Some(RequestModel { method: "adapter.live"@, params: no_fields() }),
        Opening::Done => None,
    }
}

/// What is asked after this.
pub open spec fn following(opening: Opening) -> Opening {
    match opening {
        Opening::Plugins => Opening::Subscribe,
        Opening::Subscribe => Opening::Live,
        Opening::Live => Opening::Done,
        Opening::Done => Opening::Done,
    }
}

impl StartupModel {
    /// What is known once a reply is there. A failure tells nothing.
    pub open spec fn told(
        self,
        opening: Opening,
        reply: Result<JsonModel, ErrorModel>,
    ) -> StartupModel {
        match (opening, reply) {
            (Opening::Plugins, Ok(value)) => match value.items_field("plugins"@) {
                Some(plugins) => StartupModel { plugins: names_of(plugins), ..self },
                None => self,
            },
            (Opening::Live, Ok(value)) => StartupModel {
                adapters: live_ids(live_entries(value)),
                hint: live_hint(value),
                ..self
            },
            _ => self,
        }
    }
}

fn bare_request(method: &str) -> (r: Request)
    ensures
        r@ == (RequestModel { method: method@, params: no_fields() }),
{
    Request { method: method.to_owned(), params: Json::object() }
}

/// The request for what is asked next.
pub fn opening_request(opening: Opening) -> (r: Option<Request>)
    ensures
        opening_call(opening) == (match r {
            Some(request) => Some(request@),
            None => None,
        }),
{
    match opening {
        Opening::Plugins => Some(bare_request("adapter.list")),
        Opening::Subscribe => Some(
            Request {
                method: "server.set_notifications".to_owned(),
                params: Json::object().with("enabled", Json::flag(true)),
            },
        ),
        Opening::Live => Some(bare_request("adapter.live")),
        Opening::Done => None,
    }
}

impl Startup {
    /// Nothing is known yet.
    pub fn new() -> (r: Self)
        ensures
            r@ == (StartupModel { plugins: Seq::empty(), adapters: Seq::empty(), hint: None }),
    {
        Startup { plugins: PluginCache::new(), adapters: AdapterCache::new(), hint: None }
    }

    /// Takes in a reply, and says what is asked after it. The heartbeat
    /// starts once the server was asked to tell of what happens, whatever it
    /// said to that.
    pub fn answer(&mut self, opening: Opening, reply: Result<Json, Error>) -> (r: (Opening, bool))
        ensures
            final(self)@ == old(self)@.told(opening, params_model(reply)),
            r.0 == following(opening),
            r.1 == (opening is Subscribe),
    {
        match opening {
            Opening::Plugins => {
                if let Ok(value) = reply {
                    if let Some(names) = extract_plugin_names(&value) {
                        self.plugins.set(names);
                    }
                }
                (Opening::Subscribe, false)
            },
            Opening::Subscribe => (Opening::Live, true),
            Opening::Live => {
                if let Ok(value) = reply {
                    self.adapters.set(extract_live_ids(&value));
                    self.hint = format_live_hint(&value);
                }
                (Opening::Done, false)
            },
            Opening::Done => (Opening::Done, false),
        }
    }
}

// ---- the heartbeat ------------------------------------------------------

/// What the heartbeat does when its time has come.
#[derive(Debug, Clone, Copy, PartialEq, Eq)]
pub enum Beat {
    /// It ends.
    Stop,
    /// It rests this time.
    Rest,
    /// It asks the server.
    Ask,
}

/// What the heartbeat does when its time has come.
pub fn beat(stopped: bool, enabled: bool) -> (r: Beat)
    ensures
        r is Stop <==> stopped,
        r is Rest <==> !stopped && !enabled,
        r is Ask <==> !stopped && enabled,
{
    if stopped {
        Beat::Stop
    } else if enabled {
        Beat::Ask
    } else {
        Beat::Rest
    }
}

/// What the heartbeat asks: something that changes nothing on the server.
pub fn heartbeat_request() -> (r: Request)
    ensures
        r@ == (RequestModel { method: "server.capabilities"@, params: no_fields() }),
{
    bare_request("server.capabilities")
}

// ---- the prompt ---------------------------------------------------------

/// What came of a prompt.
#[derive(Debug)]
pub enum Signal {
    /// A line was entered.
    Line(String),
    /// The line was given up.
    Cancelled,
    /// The input has ended.
    Ended,
    /// Something that is not known here.
    Other,
    /// The prompt failed.
    Failed(String),
}

/// What to do about it.
#[derive(Debug)]
pub enum LoopStep {
    /// Prompt again.
    Again,
    /// Print the line and prompt again.
    Say(Line),
    /// Print the line and end.
    Leave(Line),
    /// Run a meta command.
    Meta(String),
    /// Run a line of Lua.
    Lua(String),
    /// End with an error.
    Fail(Error),
}

pub enum LoopStepModel {
    Again,
    Say(Seq<SpanModel>),
    Leave(Seq<SpanModel>),
    Meta(Seq<char>),
    Lua(Seq<char>),
    Fail(ErrorModel),
}

impl View for LoopStep {
    type V = LoopStepModel;

    open spec fn view(&self) -> LoopStepModel {
        match self {
            LoopStep::Again => LoopStepModel::Again,
            LoopStep::Say(line) => LoopStepModel::Say(span_models(line@)),
            LoopStep::Leave(line) => LoopStepModel::Leave(span_models(line@)),
            LoopStep::Meta(text) => LoopStepModel::Meta(text@),
            LoopStep::Lua(text) => LoopStepModel::Lua(text@),
            LoopStep::Fail(error) => LoopStepModel::Fail(error@),
        }
    }
}

/// What is done about what came of a prompt. A line that begins with a colon
/// is a meta command, and any other that is not blank is Lua.
pub open spec fn loop_step(signal: Signal) -> LoopStepModel {
    match signal {
        Signal::Line(line) => {
            let text = trim(line@);
            if text.len() == 0 {
                LoopStepModel::Again
            } else if text[0] == ':' {
                LoopStepModel::Meta(text.drop_first())
            } else {
                LoopStepModel::Lua(text)
            }
        },
        Signal::Cancelled => LoopStepModel::Say(seq![piece(CANCELLED@, dimmed())]),
        Signal::Ended => LoopStepModel::Leave(seq![piece(FAREWELL@, dimmed())]),
        Signal::Other => LoopStepModel::Again,
        Signal::Failed(message) => LoopStepModel::Fail(
            ErrorModel::Rpc("reedline error: "@ + message@),
        ),
    }
}

/// What to do about what came of a prompt.
pub fn read_signal(signal: Signal) -> (r: LoopStep)
    ensures
        r@ == loop_step(signal),
{
    match signal {
        Signal::Line(line) => match read_entered(line.as_str()) {
            Entered::Nothing => LoopStep::Again,
            Entered::Meta(rest) => LoopStep::Meta(rest),
            Entered::Lua(code) => LoopStep::Lua(code),
        },
        Signal::Cancelled => LoopStep::Say(one_piece(CANCELLED, Ink::dimmed())),
        Signal::Ended => LoopStep::Leave(one_piece(FAREWELL, Ink::dimmed())),
        Signal::Other => LoopStep::Again,
        Signal::Failed(message) => {
            let mut text: String = "reedline error: ".to_owned();
            text.push_str(message.as_str());
            LoopStep::Fail(Error::Rpc(text))
        },
    }
}

// ---- what holds of it all -----------------------------------------------

/// The client gets to its first prompt, and knows what the server told it:
/// each reply is taken in by itself, and one that fails leaves what the
/// others told.
pub proof fn every_reply_is_taken_by_itself(
    start: StartupModel,
    plugins: Result<JsonModel, ErrorModel>,
    subscribed: Result<JsonModel, ErrorModel>,
    live: Result<JsonModel, ErrorModel>,
)
    ensures
        following(following(following(Opening::Plugins))) is Done,
        ({
            let end = start.told(Opening::Plugins, plugins).told(
                Opening::Subscribe,
                subscribed,
            ).told(Opening::Live, live);
            &&& end.plugins == start.told(Opening::Plugins, plugins).plugins
            &&& end.adapters == start.told(Opening::Live, live).adapters
            &&& end.hint == start.told(Opening::Live, live).hint
        }),
{
}

/// A hint is given for just those replies that name a live adapter.
pub proof fn live_adapters_are_hinted_at(start: StartupModel, value: JsonModel)
    ensures
        start.told(Opening::Live, Ok(value)).hint is Some <==> start.told(
            Opening::Live,
            Ok(value),
        ).adapters.len() > 0,
{
}

} // verus!
