//! What goes over the wire and what comes back, field by field.

use crate::args::Framing;
use crate::command::wire::only_fields;
use crate::duration::Duration;
use crate::error::ErrorModel;
use crate::json::{group_json_fields, json_parsed, JsonModel};
use crate::lines::{split_once, without_line_end};
use crate::lower::lowered;
use crate::text::{decimal_int, trim, unsigned_value};
use crate::transport::{
    call_message, call_result, framed, header_step, incoming_of, next_of, outcome_of, payload_of,
    CallEnd, HeaderStep, IncomingModel, LspHeaders, RpcErrorModel,
};
use vstd::prelude::*;

verus! {

broadcast use group_json_fields;

/// No two names in a call are alike.
proof fn message_names_differ()
    ensures
        "id"@.len() == 2,
        "method"@.len() == 6,
        "method"@[0] == 'm',
        "params"@.len() == 6,
        "params"@[0] == 'p',
        "jsonrpc"@.len() == 7,
{
    reveal_strlit("id");
    reveal_strlit("method");
    reveal_strlit("params");
    reveal_strlit("jsonrpc");
}

/// A call is told to the server as a message of the second version of the protocol,
/// with its id, its method and its parameters, and nothing else.
pub proof fn calls_are_told(id: i64, method: Seq<char>, params: JsonModel)
    ensures
        ({
            let message = call_message(id, method, params);
            &&& message.field("jsonrpc"@) == Some(JsonModel::Str("2.0"@))
            &&& message.field("id"@) matches Some(told) && told.as_signed() == Some(id)
            &&& message.field("method"@) == Some(JsonModel::Str(method))
            &&& message.field("params"@) == Some(params)
            &&& only_fields(message, seq!["jsonrpc"@, "id"@, "method"@, "params"@])
        }),
{
    message_names_differ();
    let names = seq!["jsonrpc"@, "id"@, "method"@, "params"@];
    assert(names[0] == "jsonrpc"@ && names[1] == "id"@ && names[2] == "method"@ && names[3]
        == "params"@);
    let message = call_message(id, method, params);
    assert forall|name: Seq<char>| !names.contains(name) implies (#[trigger] message.field(
        name,
    )) is None by {
        assert(name != "jsonrpc"@ && name != "id"@ && name != "method"@ && name != "params"@);
    }
}

/// A message that carries the id of a call is the answer to that call, whatever else
/// it holds: its error where it has one, else its result, else an error.
pub proof fn answers_name_their_call(
    id: i64,
    method: Seq<char>,
    params: JsonModel,
    answer: JsonModel,
)
    requires
        answer is Obj,
        answer.field("id"@) == call_message(id, method, params).field("id"@),
    ensures
        incoming_of(answer) matches Ok(IncomingModel::Reply { id: told, outcome }) && told == id
            && match answer.field("error"@) {
            Some(error) => outcome is Err,
            None => match answer.field("result"@) {
                Some(result) => outcome == Ok::<JsonModel, RpcErrorModel>(result),
                None => outcome is Err,
            },
        },
{
    calls_are_told(id, method, params);
}

/// The error of an answer has the code, the message and the data that the server
/// gives; without a code it is an internal one.
pub proof fn errors_are_told(answer: JsonModel, error: JsonModel)
    requires
        answer.field("error"@) == Some(error),
    ensures
        outcome_of(answer) matches Err(e) && {
            &&& e.data == error.field("data"@)
            &&& error.field("message"@) matches Some(JsonModel::Str(m)) ==> e.message == m
            &&& error.field("message"@) is None ==> e.message == "unknown rpc error"@
            &&& error.field("code"@) matches Some(code) ==> (code.as_signed() matches Some(n)
                ==> e.code == n)
            &&& error.field("code"@) is None ==> e.code == -32603
        },
{
}

/// A message without an id, or with a null one, is a notification where it names a
/// method, with the parameters that it carries; anything else says nothing.
pub proof fn notices_are_told(message: JsonModel)
    requires
        message is Obj,
        message.field("id"@) is None || message.field("id"@) == Some(JsonModel::Null),
    ensures
        match message.field("method"@) {
            Some(JsonModel::Str(method)) => incoming_of(message) matches Ok(
                IncomingModel::Notice(notice),
            ) && notice.method == method && notice.params == match message.field("params"@) {
                Some(params) => params,
                None => JsonModel::Null,
            },
            _ => incoming_of(message) == Ok::<IncomingModel, ErrorModel>(IncomingModel::Nothing),
        },
{
}

/// What is no object is refused, and so is an id that is no integer.
pub proof fn other_messages_are_refused(message: JsonModel)
    ensures
        !(message is Obj) ==> incoming_of(message) is Err,
        message.field("id"@) matches Some(id) ==> (id != JsonModel::Null && id.as_signed() is None
            ==> incoming_of(message) is Err),
{
}

/// A call ends with the server's answer as it is, with the code and the message of
/// its error, or with an error that names the method.
pub proof fn callers_get_the_answer(method: Seq<char>, timeout: Duration, end: CallEnd)
    ensures
        match end {
            CallEnd::Answer(Ok(value)) => call_result(method, timeout, end) == Ok::<
                JsonModel,
                ErrorModel,
            >(value@),
            CallEnd::Answer(Err(error)) => call_result(method, timeout, end) == Err::<
                JsonModel,
                ErrorModel,
            >(
                ErrorModel::Rpc(
                    "JSON-RPC error "@ + decimal_int(error.code as int) + ": "@ + error.message@,
                ),
            ),
            CallEnd::Silence => call_result(method, timeout, end) matches Err(ErrorModel::Rpc(m))
                && crate::text::begins(m, "rpc call `"@ + method + "` did not complete within "@),
        },
{
    if let CallEnd::Silence = end {
        let head = "rpc call `"@ + method + "` did not complete within "@;
        let m = match call_result(method, timeout, end) {
            Err(ErrorModel::Rpc(m)) => m,
            _ => head,
        };
        assert(m.take(head.len() as int) =~= head);
    }
}

/// A message on a line of its own is the payload and a line end; one behind headers
/// ends with the payload, and nothing is cut from either.
pub proof fn payloads_are_framed_whole(payload: Seq<char>)
    ensures
        framed(Framing::Ndjson, payload) == payload.push('\n'),
        crate::adopt::ends(framed(Framing::Lsp, payload), "\r\n\r\n"@ + payload),
        crate::text::begins(framed(Framing::Lsp, payload), "Content-Length: "@),
{
    reveal_strlit("\n");
    assert(framed(Framing::Ndjson, payload) =~= payload.push('\n'));
    let whole = framed(Framing::Lsp, payload);
    let end = "\r\n\r\n"@ + payload;
    assert(whole.skip(whole.len() - end.len()) =~= end);
    assert(whole.take("Content-Length: "@.len() as int) =~= "Content-Length: "@);
}

/// A header tells the length of what follows by its name, in letters of either case;
/// any other header is passed over; an empty line ends the headers, which is an error
/// without a length; and so is the end of the stream among them.
pub proof fn headers_tell_the_length(
    headers: LspHeaders,
    line: Seq<char>,
    name: Seq<char>,
    value: Seq<char>,
)
    ensures
        split_once(without_line_end(line), ':') == Some((name, value)) ==> ({
            let (step, after) = header_step(headers, Some(line));
            let length = unsigned_value(trim(value));
            &&& lowered(name) != "content-length"@ ==> step == Ok::<HeaderStep, ErrorModel>(
                HeaderStep::More,
            ) && after.content_length == headers.content_length && after.saw_header
            &&& lowered(name) == "content-length"@ && length is Some && length->0 <= usize::MAX
                ==> step == Ok::<HeaderStep, ErrorModel>(HeaderStep::More) && after.saw_header && (
            after.content_length matches Some(n) && n == length->0)
            &&& lowered(name) == "content-length"@ && length is None ==> step is Err
        }),
        without_line_end(line).len() == 0 ==> match headers.content_length {
            Some(n) => header_step(headers, Some(line)).0 == Ok::<HeaderStep, ErrorModel>(
                HeaderStep::Body(n),
            ),
            None => header_step(headers, Some(line)).0 is Err,
        },
        headers.saw_header ==> header_step(headers, None).0 is Err,
        !headers.saw_header ==> header_step(headers, None).0 == Ok::<HeaderStep, ErrorModel>(
            HeaderStep::Closed,
        ),
{
    if without_line_end(line).len() == 0 {
        let text = without_line_end(line);
        assert(text =~= Seq::<char>::empty());
        assert(split_once(text, ':') is None) by {
            crate::text::find_bounds(text, ':');
        }
    }
}

/// A payload says what its text says, without the white space round it; a blank one says
/// nothing, and one that is no JSON is refused.
pub proof fn payloads_say_what_they_hold(payload: Seq<char>)
    ensures
        trim(payload).len() == 0 ==> payload_of(payload) == Ok::<IncomingModel, ErrorModel>(
            IncomingModel::Nothing,
        ),
        trim(payload).len() > 0 ==> match json_parsed(trim(payload)) {
            Ok(message) => payload_of(payload) == incoming_of(message),
            Err(_) => payload_of(payload) is Err,
        },
        payload_of(payload) == payload_of(trim(payload)),
{
    crate::text::trim_is_idempotent(payload);
}

/// Calls that follow each other have different ids, and no id is passed over.
pub proof fn ids_follow_each_other(a: i64, b: i64)
    ensures
        next_of(a) != a,
        next_of(a) == next_of(b) ==> a == b,
        a < i64::MAX ==> next_of(a) == a + 1,
{
}

}
