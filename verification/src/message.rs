//! Incoming JSON-RPC messages, as the client reads them.

use vstd::prelude::*;
use jsonrpc_lite::{Id, JsonRpc};
use crate::decimal::decimal_bytes;
use crate::json::{json_value_text, json_string_literal};

verus! {

/// The id of a JSON-RPC message.
#[derive(Debug)]
pub enum RpcId {
    /// A numeric id.
    Num(i64),
    /// A string id.
    Str(String),
    /// The id `null`.
    Null,
}

/// The mathematical value of an [`RpcId`].
pub enum RpcIdView {
    Num(i64),
    Str(Seq<char>),
    Null,
}

impl View for RpcId {
    type V = RpcIdView;

    open spec fn view(&self) -> RpcIdView {
        match self {
            RpcId::Num(n) => RpcIdView::Num(*n),
            RpcId::Str(s) => RpcIdView::Str(s@),
            RpcId::Null => RpcIdView::Null,
        }
    }
}

/// An incoming JSON-RPC message: one of the four kinds of the JSON-RPC 2.0
/// specification, with what the client reads of it.
#[derive(Debug)]
pub enum RpcMessage {
    /// A request from the server.
    Request,
    /// A notification from the server.
    Notification,
    /// A success response: the id of the request it answers and its result.
    Success { id: RpcId, result: serde_json::Value },
    /// An error response: the id of the request it answers and the error's
    /// message.
    Failure { id: RpcId, message: String },
}

/// The mathematical value of an [`RpcMessage`].
pub enum RpcMessageView {
    Request,
    Notification,
    Success { id: RpcIdView, result: serde_json::Value },
    Failure { id: RpcIdView, message: Seq<char> },
}

impl View for RpcMessage {
    type V = RpcMessageView;

    open spec fn view(&self) -> RpcMessageView {
        match self {
            RpcMessage::Request => RpcMessageView::Request,
            RpcMessage::Notification => RpcMessageView::Notification,
            RpcMessage::Success { id, result } => RpcMessageView::Success {
                id: id@,
                result: *result,
            },
            RpcMessage::Failure { id, message } => RpcMessageView::Failure {
                id: id@,
                message: message@,
            },
        }
    }
}

/// The text of a success response with a numeric id, as serde_json writes
/// an object that holds the members `id`, `jsonrpc` and `result` (keys
/// sorted, no whitespace): `{"id":<id>,"jsonrpc":"2.0","result":<result>}`,
/// where `result` is JSON text.
pub open spec fn success_response_text(id: nat, result: Seq<char>) -> Seq<char> {
    "{\"id\":"@ + decimal_chars(id) + ",\"jsonrpc\":\"2.0\",\"result\":"@ + result + "}"@
}

/// The decimal text of `n` as characters.
pub open spec fn decimal_chars(n: nat) -> Seq<char> {
    decimal_bytes(n).map_values(|b: u8| b as char)
}

/// The JSON text of the integer `n`: its decimal text, behind `-` where it
/// is negative.
pub open spec fn integer_text(n: int) -> Seq<char> {
    if n < 0 {
        seq!['-'] + decimal_chars((-n) as nat)
    } else {
        decimal_chars(n as nat)
    }
}

/// The text of an error response with a numeric id and an error object
/// without `data`, as serde_json writes it (keys sorted, no whitespace):
/// `{"error":{"code":<code>,"message":<message>},"id":<id>,"jsonrpc":"2.0"}`.
pub open spec fn error_response_text(code: int, message: Seq<char>, id: nat) -> Seq<char> {
    "{\"error\":{\"code\":"@ + integer_text(code) + ",\"message\":"@ + json_string_literal(message)
        + "},\"id\":"@ + decimal_chars(id) + ",\"jsonrpc\":\"2.0\"}"@
}

/// Whether `text` is the text of an error response with a code and an id
/// that fit in an `i64`.
pub open spec fn is_error_response(text: Seq<char>, code: int, message: Seq<char>, id: nat) -> bool {
    &&& text == error_response_text(code, message, id)
    &&& i64::MIN <= code <= i64::MAX
    &&& id <= i64::MAX
}

/// Whether `read` is what an error response's text must read as: the error
/// response with that id and that very message.
pub open spec fn reads_back_failure(text: Seq<char>, read: Option<RpcMessageView>) -> bool {
    forall|code: int, message: Seq<char>, id: nat|
        #[trigger] is_error_response(text, code, message, id) ==> read == Some(
            RpcMessageView::Failure { id: RpcIdView::Num(id as i64), message },
        )
}

/// Scans JSON text from its start in the given state (inside a string or
/// not, just after a backslash there, just after a digit, the nesting depth
/// of arrays and objects so far): outside string literals there is no `.`,
/// no `e` or `E` right after a digit, and no array or object deeper than
/// 126 levels.
pub open spec fn plain_json_from(
    t: Seq<char>,
    in_string: bool,
    escaped: bool,
    after_digit: bool,
    depth: int,
) -> bool
    decreases t.len(),
{
    if t.len() == 0 {
        true
    } else {
        let c = t[0];
        let rest = t.drop_first();
        if in_string {
            if escaped {
                plain_json_from(rest, true, false, false, depth)
            } else if c == '\\' {
                plain_json_from(rest, true, true, false, depth)
            } else if c == '"' {
                plain_json_from(rest, false, false, false, depth)
            } else {
                plain_json_from(rest, true, false, false, depth)
            }
        } else if c == '"' {
            plain_json_from(rest, true, false, false, depth)
        } else if c == '.' || ((c == 'e' || c == 'E') && after_digit) {
            false
        } else if c == '[' || c == '{' {
            depth < 126 && plain_json_from(rest, false, false, false, depth + 1)
        } else if c == ']' || c == '}' {
            plain_json_from(rest, false, false, false, depth - 1)
        } else {
            plain_json_from(rest, false, false, '0' <= c <= '9', depth)
        }
    }
}

/// Whether the JSON text of a value holds no number with a fraction or an
/// exponent (serde_json writes every float with one of them) and nests
/// arrays and objects at most 126 deep (serde_json's parser stops at 128,
/// and a response's envelope adds one level).
pub open spec fn plain_json_text(t: Seq<char>) -> bool {
    plain_json_from(t, false, false, false, 0)
}

/// The message that a parse outcome holds, as a value.
pub open spec fn outcome_view(r: Option<RpcMessage>) -> Option<RpcMessageView> {
    match r {
        Some(m) => Some(m@),
        None => None,
    }
}

/// Whether `text` is the text of a success response with an id that fits
/// in an `i64` and, as its result, the text that serde_json writes for the
/// plain value `result`.
pub open spec fn is_plain_success(text: Seq<char>, id: nat, result: serde_json::Value) -> bool {
    &&& text == success_response_text(id, json_value_text(result))
    &&& id <= i64::MAX
    &&& plain_json_text(json_value_text(result))
}

/// Whether `read` is what a success response's text must read as: where
/// `text` is the text of a success response with id `id` and the plain
/// value `result`, `read` is that success response, with that id and that
/// very value.
pub open spec fn reads_back_success(text: Seq<char>, read: Option<RpcMessageView>) -> bool {
    forall|id: nat, result: serde_json::Value|
        #[trigger] is_plain_success(text, id, result) ==> read == Some(
            RpcMessageView::Success { id: RpcIdView::Num(id as i64), result },
        )
}

/// What `jsonrpc_lite::JsonRpc::parse` makes of a text: the message it
/// denotes, or nothing where the text is not a JSON-RPC message.
pub uninterp spec fn jsonrpc_message(text: Seq<char>) -> Option<RpcMessageView>;

/// Calls `jsonrpc_lite::JsonRpc::parse` and moves what the client reads out
/// of the parsed message: its kind, and for a response its id together with
/// the result or the error's message. Claimed: the outcome is a function of
/// the text alone, named `jsonrpc_message`; a parse error gives `None`.
/// Claimed too: the text of a success response whose id is a number that
/// fits in an `i64` and whose result is the text that `serde_json::to_string`
/// wrote for a value reads back as a success response with that id and that
/// very value, where the value holds no float and nests at most 126 deep
/// (`JsonRpc` is an untagged enum, so serde_json's `from_str` reads the text;
/// the request and notification variants fail for want of a `method`
/// member, the success variant takes the id as `Id::Num` and the result as a
/// `Value`, and serde_json reads back the strings, integers, arrays and
/// objects it wrote). Floats are left out: without the `float_roundtrip`
/// feature, reading one back is not promised to give the same bits.
/// Likewise, the text of an error response whose id and code fit in an
/// `i64` reads back as an error response with that id and the very message
/// that was written as a JSON string (the success variant fails for want of
/// a `result` member, the error variant reads the error object, whose
/// `data` is optional).
#[verifier::external_body]
pub(crate) fn parse_jsonrpc(text: &str) -> (r: Option<RpcMessage>)
    ensures
        match r {
            Some(m) => jsonrpc_message(text@) == Some(m@),
            None => jsonrpc_message(text@) is None,
        },
        reads_back_success(text@, outcome_view(r)),
        reads_back_failure(text@, outcome_view(r)),
{
    match JsonRpc::parse(text) {
        Ok(JsonRpc::Request(_)) => Some(RpcMessage::Request),
        Ok(JsonRpc::Notification(_)) => Some(RpcMessage::Notification),
        Ok(JsonRpc::Success(s)) => Some(RpcMessage::Success { result: s.result, id: match s.id {
            Id::Num(n) => RpcId::Num(n), Id::Str(t) => RpcId::Str(t), Id::None(()) => RpcId::Null } }),
        Ok(JsonRpc::Error(e)) => Some(RpcMessage::Failure { message: e.error.message, id: match e.id {
            Id::Num(n) => RpcId::Num(n), Id::Str(t) => RpcId::Str(t), Id::None(()) => RpcId::Null } }),
        Err(_) => None,
    }
}

} // verus!
