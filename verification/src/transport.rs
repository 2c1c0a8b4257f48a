//! Messages on the wire.

pub mod wire;

use crate::args::Framing;
use crate::duration::{duration_debug, Duration};
use crate::error::{Error, ErrorModel};
use crate::json::{json_encoded, json_parsed, no_fields, number, Json, JsonModel};
use crate::lines::{cut_once, drop_line_end, split_once, without_line_end};
use crate::lower::{lowered, lowered_text};
use crate::text::{
    byte_count, byte_len, decimal, decimal_int, decimal_int_text, decimal_text, parse_usize, same,
    trim, trimmed, unsigned_value, usize_error,
};
use vstd::prelude::*;

verus! {

broadcast use vstd::string::group_string_axioms;

/// The code of an error inside the server or on the way to it.
pub const INTERNAL_ERROR: i64 = -32603;

/// Something that the server tells without being asked.
#[derive(Debug, PartialEq)]
pub struct Notification {
    pub method: String,
    pub params: Json,
}

/// The error that the server answers with.
#[derive(Debug, PartialEq)]
pub struct RpcError {
    pub code: i64,
    pub message: String,
    pub data: Option<Json>,
}

pub struct NotificationModel {
    pub method: Seq<char>,
    pub params: JsonModel,
}

pub struct RpcErrorModel {
    pub code: i64,
    pub message: Seq<char>,
    pub data: Option<JsonModel>,
}

impl View for Notification {
    type V = NotificationModel;

    open spec fn view(&self) -> NotificationModel {
        NotificationModel { method: self.method@, params: self.params@ }
    }
}

impl View for RpcError {
    type V = RpcErrorModel;

    open spec fn view(&self) -> RpcErrorModel {
        RpcErrorModel {
            code: self.code,
            message: self.message@,
            data: match self.data {
                Some(j) => Some(j@),
                None => None,
            },
        }
    }
}

impl RpcErrorModel {
    /// How the error is told.
    pub open spec fn shown(self) -> Seq<char> {
        "JSON-RPC error "@ + decimal_int(self.code as int) + ": "@ + self.message
    }
}

impl RpcError {
    /// How the error is told.
    pub fn text(&self) -> (r: String)
        ensures
            r@ == self@.shown(),
    {
        let mut text: String = "JSON-RPC error ".to_owned();
        text.push_str(decimal_int_text(self.code).as_str());
        text.push_str(": ");
        text.push_str(self.message.as_str());
        text
    }

    /// The error that callers get when the connection closes.
    pub fn closed() -> (r: RpcError)
        ensures
            r@ == (RpcErrorModel {
                code: INTERNAL_ERROR,
                message: "rpc transport closed"@,
                data: None,
            }),
    {
        RpcError { code: INTERNAL_ERROR, message: "rpc transport closed".to_owned(), data: None }
    }
}

// ---- requests -----------------------------------------------------------

/// The message of a call.
pub open spec fn call_message(id: i64, method: Seq<char>, params: JsonModel) -> JsonModel {
    no_fields().with("jsonrpc"@, JsonModel::Str("2.0"@)).with(
        "id"@,
        JsonModel::Num(number(id as int)),
    ).with("method"@, JsonModel::Str(method)).with("params"@, params)
}

/// A message as it goes over the wire.
pub open spec fn framed(framing: Framing, payload: Seq<char>) -> Seq<char> {
    match framing {
        Framing::Ndjson => payload + "\n"@,
        Framing::Lsp => "Content-Length: "@ + decimal(byte_len(payload) as nat) + "\r\n\r\n"@
            + payload,
    }
}

/// The message of a call.
pub fn call_payload(id: i64, method: &str, params: Json) -> (r: Json)
    ensures
        r@ == call_message(id, method@, params@),
{
    Json::object().with("jsonrpc", Json::text("2.0")).with("id", Json::signed(id)).with(
        "method",
        Json::text(method),
    ).with("params", params)
}

/// A message as it goes over the wire.
pub fn frame(framing: Framing, payload: &str) -> (r: String)
    ensures
        r@ == framed(framing, payload@),
{
    match framing {
        Framing::Ndjson => {
            let mut text: String = payload.to_owned();
            text.push_str("\n");
            text
        },
        Framing::Lsp => {
            let mut text: String = "Content-Length: ".to_owned();
            text.push_str(decimal_text(byte_count(payload) as u128).as_str());
            text.push_str("\r\n\r\n");
            text.push_str(payload);
            text
        },
    }
}

/// A call as it goes over the wire.
pub fn call_frame(framing: Framing, id: i64, method: &str, params: Json) -> (r: String)
    ensures
        r@ == framed(framing, json_encoded(call_message(id, method@, params@))),
        framing is Ndjson ==> r@.len() > 0 && r@.last() == '\n' && !r@.drop_last().contains('\n'),
{
    let payload: String = call_payload(id, method, params).encode();
    let text: String = frame(framing, payload.as_str());
    proof {
        reveal_strlit("\n");
        if framing is Ndjson {
            assert(text@.drop_last() =~= payload@);
        }
    }
    text
}

// ---- replies ------------------------------------------------------------

/// What came over the wire.
#[derive(Debug, PartialEq)]
pub enum Incoming {
    /// Nothing to act on.
    Nothing,
    /// The answer to a call.
    Reply { id: i64, outcome: Result<Json, RpcError> },
    Notice(Notification),
}

pub enum IncomingModel {
    Nothing,
    Reply { id: i64, outcome: Result<JsonModel, RpcErrorModel> },
    Notice(NotificationModel),
}

/// What an answer says.
pub open spec fn answer_model(r: Result<Json, RpcError>) -> Result<JsonModel, RpcErrorModel> {
    match r {
        Ok(j) => Ok(j@),
        Err(e) => Err(e@),
    }
}

impl View for Incoming {
    type V = IncomingModel;

    open spec fn view(&self) -> IncomingModel {
        match self {
            Incoming::Nothing => IncomingModel::Nothing,
            Incoming::Reply { id, outcome } => IncomingModel::Reply {
                id: *id,
                outcome: answer_model(*outcome),
            },
            Incoming::Notice(notification) => IncomingModel::Notice(notification@),
        }
    }
}

/// The error of an answer.
pub open spec fn error_of(value: JsonModel) -> RpcErrorModel {
    RpcErrorModel {
        code: match value.field("code"@) {
            Some(v) => match v.as_signed() {
                Some(n) => n,
                None => INTERNAL_ERROR,
            },
            None => INTERNAL_ERROR,
        },
        message: match value.text_field("message"@) {
            Some(s) => s,
            None => "unknown rpc error"@,
        },
        data: value.field("data"@),
    }
}

/// What an answer says: its error if there is one, else its result.
pub open spec fn outcome_of(value: JsonModel) -> Result<JsonModel, RpcErrorModel> {
    match value.field("error"@) {
        Some(error) => Err(error_of(error)),
        None => match value.field("result"@) {
            Some(result) => Ok(result),
            None => Err(
                RpcErrorModel {
                    code: INTERNAL_ERROR,
                    message: "rpc response is missing both `result` and `error`"@,
                    data: None,
                },
            ),
        },
    }
}

/// What a message says. One with an id is an answer, any other with a method
/// is a notification.
pub open spec fn incoming_of(value: JsonModel) -> Result<IncomingModel, ErrorModel> {
    if !(value is Obj) {
        Err(ErrorModel::Rpc("rpc frame is not an object"@))
    } else {
        match value.field("id"@) {
            Some(id) if !(id is Null) => match id.as_signed() {
                None => Err(
                    ErrorModel::Rpc("rpc response id is not an integer: "@ + json_encoded(id)),
                ),
                Some(n) => Ok(IncomingModel::Reply { id: n, outcome: outcome_of(value) }),
            },
            _ => match value.text_field("method"@) {
                None => Ok(IncomingModel::Nothing),
                Some(method) => Ok(
                    IncomingModel::Notice(
                        NotificationModel {
                            method,
                            params: match value.field("params"@) {
                                Some(params) => params,
                                None => JsonModel::Null,
                            },
                        },
                    ),
                ),
            },
        }
    }
}

/// What a payload says. A blank one says nothing.
pub open spec fn payload_of(payload: Seq<char>) -> Result<IncomingModel, ErrorModel> {
    let text = trim(payload);
    if text.len() == 0 {
        Ok(IncomingModel::Nothing)
    } else {
        match json_parsed(text) {
            Err(m) => Err(ErrorModel::Rpc("malformed rpc frame: "@ + m)),
            Ok(value) => incoming_of(value),
        }
    }
}

/// What came over the wire, or why it is dropped.
pub open spec fn incoming_model(r: Result<Incoming, Error>) -> Result<IncomingModel, ErrorModel> {
    match r {
        Ok(incoming) => Ok(incoming@),
        Err(e) => Err(e@),
    }
}

/// The error of an answer.
pub fn parse_error(value: &Json) -> (r: RpcError)
    ensures
        r@ == error_of(value@),
{
    let code: i64 = match value.get("code") {
        Some(v) => match v.as_i64() {
            Some(n) => n,
            None => INTERNAL_ERROR,
        },
        None => INTERNAL_ERROR,
    };
    let message: String = match value.get_str("message") {
        Some(s) => s.clone(),
        None => "unknown rpc error".to_owned(),
    };
    let data: Option<Json> = match value.get("data") {
        Some(j) => Some(j.clone()),
        None => None,
    };
    RpcError { code, message, data }
}

fn read_outcome(value: &Json) -> (r: Result<Json, RpcError>)
    ensures
        answer_model(r) == outcome_of(value@),
{
    match value.get("error") {
        Some(error) => Err(parse_error(error)),
        None => match value.get("result") {
            Some(result) => Ok(result.clone()),
            None => Err(
                RpcError {
                    code: INTERNAL_ERROR,
                    message: "rpc response is missing both `result` and `error`".to_owned(),
                    data: None,
                },
            ),
        },
    }
}

/// What a message says.
pub fn read_message(value: &Json) -> (r: Result<Incoming, Error>)
    ensures
        incoming_model(r) == incoming_of(value@),
{
    broadcast use crate::json::json_view;

    match value {
        Json::Obj(_) => {},
        _ => {
            return Err(Error::rpc("rpc frame is not an object"));
        },
    }
    if let Some(id) = value.get("id") {
        let null: bool = match id {
            Json::Null => true,
            _ => false,
        };
        if !null {
            return match id.as_i64() {
                Some(n) => Ok(Incoming::Reply { id: n, outcome: read_outcome(value) }),
                None => {
                    let mut message: String = "rpc response id is not an integer: ".to_owned();
                    message.push_str(id.encode().as_str());
                    Err(Error::Rpc(message))
                },
            };
        }
    }
    match value.get_str("method") {
        Some(method) => {
            let params: Json = match value.get("params") {
                Some(params) => params.clone(),
                None => Json::Null,
            };
            Ok(Incoming::Notice(Notification { method: method.clone(), params }))
        },
        None => Ok(Incoming::Nothing),
    }
}

/// What a payload says.
pub fn dispatch_payload(payload: &str) -> (r: Result<Incoming, Error>)
    ensures
        incoming_model(r) == payload_of(payload@),
{
    let text: String = trimmed(payload);
    if text.as_str().is_empty() {
        return Ok(Incoming::Nothing);
    }
    match Json::parse(text.as_str()) {
        Ok(value) => read_message(&value),
        Err(error) => {
            let mut message: String = "malformed rpc frame: ".to_owned();
            message.push_str(error.as_str());
            Err(Error::Rpc(message))
        },
    }
}

/// How a call ended.
#[derive(Debug)]
pub enum CallEnd {
    /// With an answer.
    Answer(Result<Json, RpcError>),
    /// Without one: the time was up, or nobody can answer any more.
    Silence,
}

/// What the caller gets.
pub open spec fn call_result(method: Seq<char>, timeout: Duration, end: CallEnd) -> Result<
    JsonModel,
    ErrorModel,
> {
    match end {
        CallEnd::Answer(Ok(value)) => Ok(value@),
        CallEnd::Answer(Err(error)) => Err(ErrorModel::Rpc(error@.shown())),
        CallEnd::Silence => Err(
            ErrorModel::Rpc(
                "rpc call `"@ + method + "` did not complete within "@ + duration_debug(
                    timeout.whole_seconds() as u64,
                    timeout.subsecond_nanos() as u32,
                ),
            ),
        ),
    }
}

/// What the caller gets.
pub fn finish_call(method: &str, timeout: &Duration, end: CallEnd) -> (r: Result<Json, Error>)
    ensures
        call_result(method@, *timeout, end) == (match r {
            Ok(j) => Ok::<JsonModel, ErrorModel>(j@),
            Err(e) => Err(e@),
        }),
{
    match end {
        CallEnd::Answer(Ok(value)) => Ok(value),
        CallEnd::Answer(Err(error)) => Err(Error::Rpc(error.text())),
        CallEnd::Silence => {
            let mut message: String = "rpc call `".to_owned();
            message.push_str(method);
            message.push_str("` did not complete within ");
            message.push_str(timeout.debug_text().as_str());
            Err(Error::Rpc(message))
        },
    }
}

// ---- calls in flight ----------------------------------------------------

/// The calls that wait for an answer, by their ids.
pub struct Pending<S> {
    pub(crate) next_id: i64,
    pub(crate) slots: Vec<(i64, S)>,
}

pub struct PendingModel<S> {
    pub next_id: i64,
    pub slots: Map<i64, S>,
}

/// What stands in a list of slots, by their ids.
pub open spec fn slot_map<S>(slots: Seq<(i64, S)>) -> Map<i64, S>
    decreases slots.len(),
{
    if slots.len() == 0 {
        Map::empty()
    } else {
        slot_map(slots.drop_last()).insert(slots.last().0, slots.last().1)
    }
}

/// Whether each id stands once.
pub open spec fn ids_differ<S>(slots: Seq<(i64, S)>) -> bool {
    forall|i: int, j: int|
        #![trigger slots[i], slots[j]]
        0 <= i < j < slots.len() ==> slots[i].0 != slots[j].0
}

/// The id behind an id; they come round.
pub open spec fn next_of(id: i64) -> i64 {
    if id == i64::MAX {
        i64::MIN
    } else {
        (id + 1) as i64
    }
}

proof fn slot_map_holds<S>(slots: Seq<(i64, S)>)
    requires
        ids_differ(slots),
    ensures
        forall|id: i64|
            #[trigger] slot_map(slots).dom().contains(id) <==> exists|i: int|
                0 <= i < slots.len() && (#[trigger] slots[i]).0 == id,
        forall|i: int|
            0 <= i < slots.len() ==> slot_map(slots).dom().contains((#[trigger] slots[i]).0)
                && slot_map(slots)[slots[i].0] == slots[i].1,
    decreases slots.len(),
{
    if slots.len() > 0 {
        let init = slots.drop_last();
        assert(ids_differ(init)) by {
            assert forall|i: int, j: int|
                #![trigger init[i], init[j]]
                0 <= i < j < init.len() implies init[i].0 != init[j].0 by {
                assert(slots[i].0 != slots[j].0);
            }
        }
        slot_map_holds(init);
        let map = slot_map(slots);
        assert forall|i: int| 0 <= i < slots.len() implies map.dom().contains(
            (#[trigger] slots[i]).0,
        ) && map[slots[i].0] == slots[i].1 by {
            if i < init.len() {
                assert(init[i] == slots[i]);
                assert(slots[i].0 != slots[slots.len() - 1].0);
            }
        }
        assert forall|id: i64| #[trigger] map.dom().contains(id) <==> exists|i: int|
            0 <= i < slots.len() && (#[trigger] slots[i]).0 == id by {
            if map.dom().contains(id) && id != slots.last().0 {
                assert(slot_map(init).dom().contains(id));
                let i = choose|i: int| 0 <= i < init.len() && (#[trigger] init[i]).0 == id;
                assert(slots[i].0 == id);
            }
            if id == slots.last().0 {
                assert(slots[slots.len() - 1].0 == id);
            }
        }
    }
}

proof fn slot_map_without<S>(slots: Seq<(i64, S)>, k: int)
    requires
        ids_differ(slots),
        0 <= k < slots.len(),
    ensures
        ids_differ(slots.remove(k)),
        slot_map(slots.remove(k)) == slot_map(slots).remove(slots[k].0),
{
    let rest = slots.remove(k);
    assert(ids_differ(rest)) by {
        assert forall|i: int, j: int|
            #![trigger rest[i], rest[j]]
            0 <= i < j < rest.len() implies rest[i].0 != rest[j].0 by {
            let a = if i < k { i } else { i + 1 };
            let b = if j < k { j } else { j + 1 };
            assert(slots[a].0 != slots[b].0);
        }
    }
    slot_map_holds(slots);
    slot_map_holds(rest);
    let want = slot_map(slots).remove(slots[k].0);
    let got = slot_map(rest);
    assert forall|id: i64| got.dom().contains(id) <==> want.dom().contains(id) by {
        if got.dom().contains(id) {
            let i = choose|i: int| 0 <= i < rest.len() && (#[trigger] rest[i]).0 == id;
            let a = if i < k { i } else { i + 1 };
            assert(slots[a] == rest[i]);
            if a < k {
                assert(slots[a].0 != slots[k].0);
            } else {
                assert(slots[k].0 != slots[a].0);
            }
        }
        if want.dom().contains(id) {
            let a = choose|a: int| 0 <= a < slots.len() && (#[trigger] slots[a]).0 == id;
            let i = if a < k { a } else { a - 1 };
            assert(rest[i] == slots[a]);
        }
    }
    assert forall|id: i64| got.dom().contains(id) implies got[id] == want[id] by {
        let i = choose|i: int| 0 <= i < rest.len() && (#[trigger] rest[i]).0 == id;
        let a = if i < k { i } else { i + 1 };
        assert(slots[a] == rest[i]);
    }
    assert(got =~= want);
}

impl<S> Pending<S> {
    #[verifier::type_invariant]
    pub(crate) open spec fn distinct(self) -> bool {
        ids_differ(self.slots@)
    }
}

impl<S> View for Pending<S> {
    type V = PendingModel<S>;

    open(crate) spec fn view(&self) -> PendingModel<S> {
        PendingModel { next_id: self.next_id, slots: slot_map(self.slots@) }
    }
}

impl<S> Pending<S> {
    /// No calls; the first one gets the id 1.
    pub fn new() -> (r: Self)
        ensures
            r@.next_id == 1,
            r@.slots == Map::<i64, S>::empty(),
    {
        Pending { next_id: 1, slots: Vec::new() }
    }

    /// Takes out the slot of a call. A call that does not wait has none.
    pub fn take(&mut self, id: i64) -> (r: Option<S>)
        ensures
            final(self)@.next_id == old(self)@.next_id,
            final(self)@.slots == old(self)@.slots.remove(id),
            match r {
                Some(slot) => old(self)@.slots.dom().contains(id) && old(self)@.slots[id] == slot,
                None => !old(self)@.slots.dom().contains(id),
            },
    {
        proof {
            use_type_invariant(&*self);
            slot_map_holds(self.slots@);
        }
        let mut slots: Vec<(i64, S)> = Vec::new();
        std::mem::swap(&mut slots, &mut self.slots);
        let ghost all = slots@;
        let mut i: usize = 0;
        while i < slots.len()
            invariant
                i <= slots@.len(),
                slots@ == all,
                forall|j: int| 0 <= j < i ==> (#[trigger] all[j]).0 != id,
                ids_differ(all),
                self.next_id == old(self).next_id,
                self.slots@.len() == 0,
                slot_map(all) == old(self)@.slots,
            decreases slots@.len() - i,
        {
            if slots[i].0 == id {
                proof {
                    slot_map_without(all, i as int);
                    slot_map_holds(all);
                }
                let (_, slot) = slots.remove(i);
                assert(slots@ =~= all.remove(i as int));
                self.slots = slots;
                return Some(slot);
            }
            i += 1;
        }
        proof {
            slot_map_holds(all);
            assert(!slot_map(all).dom().contains(id)) by {
                if slot_map(all).dom().contains(id) {
                    let k = choose|k: int| 0 <= k < all.len() && (#[trigger] all[k]).0 == id;
                    assert(all[k].0 != id);
                }
            }
            assert(slot_map(all).remove(id) =~= slot_map(all));
        }
        self.slots = slots;
        None
    }

    /// Registers a call, and gives its id.
    pub fn begin(&mut self, slot: S) -> (r: i64)
        ensures
            r == old(self)@.next_id,
            final(self)@.next_id == next_of(r),
            final(self)@.slots == old(self)@.slots.insert(r, slot),
    {
        let id: i64 = self.next_id;
        let ghost before = self@.slots;
        let _ = self.take(id);
        proof {
            use_type_invariant(&*self);
            slot_map_holds(self.slots@);
        }
        let mut slots: Vec<(i64, S)> = Vec::new();
        std::mem::swap(&mut slots, &mut self.slots);
        let ghost rest = slots@;
        slots.push((id, slot));
        proof {
            assert(slots@.drop_last() =~= rest);
            assert(ids_differ(slots@)) by {
                assert forall|i: int, j: int|
                    #![trigger slots@[i], slots@[j]]
                    0 <= i < j < slots@.len() implies slots@[i].0 != slots@[j].0 by {
                    if j < rest.len() {
                        assert(rest[i].0 != rest[j].0);
                    } else {
                        assert(rest[i] == slots@[i]);
                        if rest[i].0 == id {
                            assert(slot_map(rest).dom().contains(rest[i].0));
                        }
                    }
                }
            }
            assert(slot_map(rest) == before.remove(id));
            assert(before.remove(id).insert(id, slot) =~= before.insert(id, slot));
        }
        self.slots = slots;
        self.next_id = if id == i64::MAX {
            i64::MIN
        } else {
            id + 1
        };
        id
    }

    /// Takes out all slots.
    pub fn drain(&mut self) -> (r: Vec<(i64, S)>)
        ensures
            ids_differ(r@),
            slot_map(r@) == old(self)@.slots,
            final(self)@.slots == Map::<i64, S>::empty(),
            final(self)@.next_id == old(self)@.next_id,
    {
        proof {
            use_type_invariant(&*self);
        }
        let mut slots: Vec<(i64, S)> = Vec::new();
        std::mem::swap(&mut slots, &mut self.slots);
        slots
    }
}

// ---- headers ------------------------------------------------------------

/// What the headers of a message have said so far.
#[derive(Debug, Clone, Copy, PartialEq, Eq)]
pub struct LspHeaders {
    pub content_length: Option<usize>,
    pub saw_header: bool,
}

/// What a line among the headers means.
#[derive(Debug, Clone, Copy, PartialEq, Eq)]
pub enum HeaderStep {
    /// There are more lines to come.
    More,
    /// The headers are over, and so many bytes follow.
    Body(usize),
    /// There are no more messages.
    Closed,
}

/// What a line means and what is known after it. `None` stands for the end of
/// the input.
pub open spec fn header_step(headers: LspHeaders, line: Option<Seq<char>>) -> (
    Result<HeaderStep, ErrorModel>,
    LspHeaders,
) {
    match line {
        None => if headers.saw_header {
            (Err(ErrorModel::Rpc("unexpected EOF in LSP headers"@)), headers)
        } else {
            (Ok(HeaderStep::Closed), headers)
        },
        Some(line) => {
            let text = without_line_end(line);
            if text.len() == 0 {
                match headers.content_length {
                    Some(n) => (Ok(HeaderStep::Body(n)), headers),
                    None => (
                        Err(ErrorModel::Rpc("LSP frame missing Content-Length header"@)),
                        headers,
                    ),
                }
            } else {
                let seen = LspHeaders { saw_header: true, ..headers };
                match split_once(text, ':') {
                    Some((name, value)) if lowered(name) == "content-length"@ => {
                        let digits = trim(value);
                        match unsigned_value(digits) {
                            Some(n) if n <= usize::MAX => (
                                Ok(HeaderStep::More),
                                LspHeaders { content_length: Some(n as usize), ..seen },
                            ),
                            _ => (
                                Err(
                                    ErrorModel::Rpc(
                                        "invalid Content-Length: "@ + usize_error(digits),
                                    ),
                                ),
                                seen,
                            ),
                        }
                    },
                    _ => (Ok(HeaderStep::More), seen),
                }
            }
        },
    }
}

impl LspHeaders {
    /// Nothing so far.
    pub fn new() -> (r: Self)
        ensures
            r == (LspHeaders { content_length: None, saw_header: false }),
    {
        LspHeaders { content_length: None, saw_header: false }
    }

    /// Reads a line, or the end of the input.
    pub fn read(&mut self, line: Option<&str>) -> (r: Result<HeaderStep, Error>)
        ensures
            header_step(
                *old(self),
                match line {
                    Some(s) => Some(s@),
                    None => None,
                },
            ) == (
                match r {
                    Ok(step) => Ok::<HeaderStep, ErrorModel>(step),
                    Err(e) => Err(e@),
                },
                *final(self),
            ),
    {
        let line: &str = match line {
            Some(line) => line,
            None => {
                return if self.saw_header {
                    Err(Error::rpc("unexpected EOF in LSP headers"))
                } else {
                    Ok(HeaderStep::Closed)
                };
            },
        };
        let text: String = drop_line_end(line);
        if text.as_str().is_empty() {
            return match self.content_length {
                Some(n) => Ok(HeaderStep::Body(n)),
                None => Err(Error::rpc("LSP frame missing Content-Length header")),
            };
        }
        self.saw_header = true;
        if let Some((name, value)) = cut_once(text.as_str(), ':') {
            let lower: String = lowered_text(name.as_str());
            if same(lower.as_str(), "content-length") {
                let digits: String = trimmed(value.as_str());
                match parse_usize(digits.as_str()) {
                    Ok(n) => {
                        self.content_length = Some(n);
                    },
                    Err(error) => {
                        let mut message: String = "invalid Content-Length: ".to_owned();
                        message.push_str(error.as_str());
                        return Err(Error::Rpc(message));
                    },
                }
            }
        }
        Ok(HeaderStep::More)
    }
}

// ---- laws ---------------------------------------------------------------

/// The header line that gives the length of a payload.
pub open spec fn length_line(n: nat) -> Seq<char> {
    "Content-Length: "@ + decimal(n) + "\r\n"@
}

/// A message that is framed with a header is read back: its header lines give
/// the number of its bytes, and the payload follows.
pub proof fn framed_messages_are_read_back(payload: Seq<char>)
    requires
        byte_len(payload) <= usize::MAX,
    ensures
        ({
            let n = byte_len(payload) as nat;
            let start = LspHeaders { content_length: None, saw_header: false };
            let known = LspHeaders { content_length: Some(n as usize), saw_header: true };
            &&& framed(Framing::Lsp, payload) == length_line(n) + "\r\n"@ + payload
            &&& header_step(start, Some(length_line(n))) == (
                Ok::<HeaderStep, ErrorModel>(HeaderStep::More),
                known,
            )
            &&& header_step(known, Some("\r\n"@)) == (
                Ok::<HeaderStep, ErrorModel>(HeaderStep::Body(n as usize)),
                known,
            )
        }),
{
    let n = byte_len(payload) as nat;
    let digits = decimal(n);
    let name = "Content-Length"@;
    let line = length_line(n);
    reveal_strlit("Content-Length: ");
    reveal_strlit("Content-Length");
    reveal_strlit("content-length");
    reveal_strlit("\r\n");
    reveal_strlit("\r\n\r\n");
    crate::text::decimals_are_read_back(n);
    assert("\r\n\r\n"@ =~= "\r\n"@ + "\r\n"@);
    assert(framed(Framing::Lsp, payload) =~= line + "\r\n"@ + payload);
    // The line end goes.
    let text = "Content-Length: "@ + digits;
    assert(crate::text::ascii_digit(digits[digits.len() - 1]));
    assert(text.last() == digits[digits.len() - 1]);
    reveal_with_fuel(without_line_end, 3);
    assert(line.drop_last() =~= text + seq!['\r']);
    assert(line.drop_last().drop_last() =~= text);
    assert(without_line_end(line) == text);
    // The name ends at the colon.
    assert(text[14] == ':');
    assert forall|j: int| 0 <= j < 14 implies text[j] != ':' by {
        assert(text[j] == name[j]);
    }
    crate::text::find_at(text, ':', 14);
    assert(text.take(14) =~= name);
    assert(lowered(name) =~= "content-length"@);
    // The value is the number behind a space.
    let value = text.skip(15);
    assert(value =~= seq![' '] + digits);
    assert(value.drop_first() =~= digits);
    assert(crate::text::ascii_digit(digits[0]));
    reveal_with_fuel(crate::text::trim_start, 3);
    reveal_with_fuel(crate::text::trim_end, 2);
    assert(crate::text::trim_start(value) == digits);
    assert(trim(value) == digits);
    // The blank line ends the headers.
    assert("\r\n"@.drop_last() =~= seq!['\r']);
    assert("\r\n"@.drop_last().drop_last() =~= Seq::<char>::empty());
    assert(without_line_end("\r\n"@).len() == 0);
}

/// A late answer is dropped: a call that was given up has no slot.
pub proof fn late_answers_find_no_slot<S>(pending: PendingModel<S>, id: i64)
    ensures
        !pending.slots.remove(id).dom().contains(id),
        forall|other: i64|
            other != id && #[trigger] pending.slots.dom().contains(other)
                ==> pending.slots.remove(id).dom().contains(other)
                && pending.slots.remove(id)[other] == pending.slots[other],
{
}

/// An answer that holds an error is an error, whatever else it holds.
pub proof fn errors_go_before_results(value: JsonModel)
    requires
        value.field("error"@) is Some,
    ensures
        outcome_of(value) is Err,
{
}

/// An answer finds the call that asked for it, and no other.
pub proof fn answers_find_their_call<S>(pending: PendingModel<S>, slot: S)
    ensures
        ({
            let waiting = pending.slots.insert(pending.next_id, slot);
            &&& waiting.dom().contains(pending.next_id) && waiting[pending.next_id] == slot
            &&& waiting.remove(pending.next_id) == pending.slots.remove(pending.next_id)
        }),
{
    assert(pending.slots.insert(pending.next_id, slot).remove(pending.next_id)
        =~= pending.slots.remove(pending.next_id));
}

} // verus!
