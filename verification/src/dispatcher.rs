//! What becomes of the server's notifications.

use crate::command::dispatch::{
    names_beside_the_adapter, redact_json, redact_params, Request, RequestModel,
};
use crate::ctx::opt_text;
use crate::json::{group_json_fields, json_encoded, JsonModel};
use crate::screen::ScreenSnapshot;
use crate::text::{decimal, decimal_text, same};
use crate::transport::{Notification, NotificationModel};
use vstd::prelude::*;

verus! {

broadcast use vstd::string::group_string_axioms;

/// How long a notification is waited for at a time, in milliseconds.
pub const RECV_TIMEOUT_MILLIS: u64 = 200;

/// How long a picture is waited for, in seconds.
pub const SNAPSHOT_TIMEOUT_SECS: u64 = 5;

/// Something for the interface to take in.
pub enum UiEvent {
    /// A new picture of an adapter's terminal.
    Snapshot { adapter: String, snapshot: ScreenSnapshot },
    /// A line for the log.
    Notice(String),
}

pub enum UiEventModel {
    Snapshot { adapter: Seq<char>, snapshot: ScreenSnapshot },
    Notice(Seq<char>),
}

impl View for UiEvent {
    type V = UiEventModel;

    open spec fn view(&self) -> UiEventModel {
        match self {
            UiEvent::Snapshot { adapter, snapshot } => UiEventModel::Snapshot {
                adapter: adapter@,
                snapshot: *snapshot,
            },
            UiEvent::Notice(text) => UiEventModel::Notice(text@),
        }
    }
}

/// The adapter that is looked at, and its session. Changes are told by
/// session, pictures are fetched by adapter.
pub struct FocusInfo {
    pub adapter: Option<String>,
    pub session: Option<String>,
}

pub struct FocusModel {
    pub adapter: Option<Seq<char>>,
    pub session: Option<Seq<char>>,
}

impl View for FocusInfo {
    type V = FocusModel;

    open spec fn view(&self) -> FocusModel {
        FocusModel { adapter: opt_text(self.adapter), session: opt_text(self.session) }
    }
}

impl Default for FocusInfo {
    fn default() -> (r: Self)
        ensures
            r@ == (FocusModel { adapter: None, session: None }),
    {
        FocusInfo { adapter: None, session: None }
    }
}

/// Takes a new focus in and says whether it is another adapter's.
pub fn take_focus(focus: &mut FocusInfo, new_focus: FocusInfo) -> (r: bool)
    ensures
        final(focus)@ == new_focus@,
        r == (old(focus)@.adapter != new_focus@.adapter),
{
    let changed: bool = match (&focus.adapter, &new_focus.adapter) {
        (None, None) => false,
        (Some(a), Some(b)) => !same(a.as_str(), b.as_str()),
        _ => true,
    };
    *focus = new_focus;
    changed
}

/// What is done about a notification.
pub enum NoticeStep {
    Nothing,
    /// Fetch the picture of the adapter.
    Fetch(String),
    /// Tell the interface.
    Tell(UiEvent),
}

pub enum NoticeStepModel {
    Nothing,
    Fetch(Seq<char>),
    Tell(UiEventModel),
}

impl View for NoticeStep {
    type V = NoticeStepModel;

    open spec fn view(&self) -> NoticeStepModel {
        match self {
            NoticeStep::Nothing => NoticeStepModel::Nothing,
            NoticeStep::Fetch(adapter) => NoticeStepModel::Fetch(adapter@),
            NoticeStep::Tell(event) => NoticeStepModel::Tell(event@),
        }
    }
}

/// A notification in one line.
pub open spec fn notice_text(notification: NotificationModel) -> Seq<char> {
    let params = notification.params;
    if notification.method == "session.exited"@ {
        let session = match params.text_field("session"@) {
            Some(s) => s,
            None => "?"@,
        };
        let head = "session.exited  "@ + session;
        match params.unsigned_field("sequence"@) {
            Some(n) => head + " seq="@ + decimal(n as nat),
            None => head,
        }
    } else {
        notification.method + " "@ + json_encoded(params)
    }
}

/// A notification in one line.
pub fn render_notice(notification: &Notification) -> (r: String)
    ensures
        r@ == notice_text(notification@),
{
    if same(notification.method.as_str(), "session.exited") {
        let mut line: String = "session.exited  ".to_owned();
        match notification.params.get_str("session") {
            Some(session) => line.push_str(session.as_str()),
            None => line.push_str("?"),
        }
        if let Some(n) = notification.params.get_u64("sequence") {
            line.push_str(" seq=");
            line.push_str(decimal_text(n as u128).as_str());
        }
        return line;
    }
    let mut line: String = notification.method.clone();
    line.push_str(" ");
    line.push_str(notification.params.encode().as_str());
    line
}

/// What is done about a notification: output is left to the pane, a change
/// of the focused session is a reason to fetch, and the rest is told.
pub open spec fn notice_step(
    focus: FocusModel,
    notification: NotificationModel,
) -> NoticeStepModel {
    if notification.method == "session.output"@ {
        NoticeStepModel::Nothing
    } else if notification.method == "session.changed"@ {
        match (notification.params.text_field("session"@), focus.adapter) {
            (Some(session), Some(adapter)) => if focus.session == Some(session) {
                NoticeStepModel::Fetch(adapter)
            } else {
                NoticeStepModel::Nothing
            },
            _ => NoticeStepModel::Nothing,
        }
    } else {
        NoticeStepModel::Tell(UiEventModel::Notice(notice_text(notification)))
    }
}

/// What is done about a notification.
pub fn handle_notification(focus: &FocusInfo, notification: &Notification) -> (r: NoticeStep)
    ensures
        r@ == notice_step(focus@, notification@),
{
    if same(notification.method.as_str(), "session.output") {
        return NoticeStep::Nothing;
    }
    if same(notification.method.as_str(), "session.changed") {
        return match (notification.params.get_str("session"), &focus.session, &focus.adapter) {
            (Some(session), Some(watched), Some(adapter)) => if same(
                session.as_str(),
                watched.as_str(),
            ) {
                NoticeStep::Fetch(adapter.clone())
            } else {
                NoticeStep::Nothing
            },
            _ => NoticeStep::Nothing,
        };
    }
    NoticeStep::Tell(UiEvent::Notice(render_notice(notification)))
}

/// The call that fetches the picture of an adapter, with secrets left out.
pub fn fetch_snapshot(adapter: &str) -> (r: Request)
    ensures
        r@ == (RequestModel {
            method: "adapter.snapshot"@,
            params: redact_params(adapter@, true),
        }),
        r@.params.field("adapter"@) == Some(JsonModel::Str(adapter@)),
        r@.params.field("redact"@) == Some(JsonModel::Bool(true)),
{
    broadcast use group_json_fields;

    proof {
        names_beside_the_adapter();
    }
    Request { method: "adapter.snapshot".to_owned(), params: redact_json(adapter, true) }
}

// ---- laws ---------------------------------------------------------------

/// A change of a session that is not the focused one fetches nothing.
pub proof fn other_sessions_fetch_nothing(focus: FocusModel, notification: NotificationModel)
    requires
        focus.session != notification.params.text_field("session"@),
    ensures
        !(notice_step(focus, notification) is Fetch),
{
}

/// Whatever is not about output or changes reaches the interface.
pub proof fn the_rest_is_told(focus: FocusModel, notification: NotificationModel)
    requires
        notification.method != "session.output"@,
        notification.method != "session.changed"@,
    ensures
        notice_step(focus, notification) == NoticeStepModel::Tell(
            UiEventModel::Notice(notice_text(notification)),
        ),
{
}

} // verus!
