//! JSON-RPC responses.

use vstd::prelude::*;
use vstd::string::*;

use crate::json::{Doc, Items, Json, Members, Num};
use crate::mcp::errors::ToolError;

verus! {

pub const JSONRPC_PARSE_ERROR: i64 = -32700;

pub const JSONRPC_INVALID_REQUEST: i64 = -32600;

pub const JSONRPC_METHOD_NOT_FOUND: i64 = -32601;

pub const JSONRPC_INVALID_PARAMS: i64 = -32602;

/// An integer as a JSON number.
pub open spec fn integer(n: i64) -> Num {
    if n < 0 {
        Num::Negative(n)
    } else {
        Num::Natural(n as u64)
    }
}

/// The response that answers the request `id` with a result.
pub open spec fn result_doc(id: Doc, result: Doc) -> Doc {
    Doc::Object(seq![("jsonrpc"@, Doc::Text("2.0"@)), ("id"@, id), ("result"@, result)])
}

/// What an error response says went wrong.
pub open spec fn error_detail(code: i64, message: Seq<char>) -> Doc {
    Doc::Object(
        seq![("code"@, Doc::Number(integer(code))), ("message"@, Doc::Text(message))],
    )
}

/// The response that answers the request `id` with an error.
pub open spec fn error_doc(id: Doc, code: i64, message: Seq<char>) -> Doc {
    Doc::Object(
        seq![
            ("jsonrpc"@, Doc::Text("2.0"@)),
            ("id"@, id),
            ("error"@, error_detail(code, message)),
        ],
    )
}

/// Answers the request `id` with a result.
pub fn result_response(id: Json, result: Json) -> (r: Json)
    ensures
        r@ == result_doc(id@, result@),
{
    let r = Members::new().with("jsonrpc", Json::text("2.0")).with("id", id).with(
        "result",
        result,
    );
    assert(r@ =~= result_doc(id@, result@)->Object_0);
    r.object()
}

/// Answers the request `id` with an error.
pub fn error_response(id: Json, code: i64, message: &str) -> (r: Json)
    ensures
        r@ == error_doc(id@, code, message@),
{
    let n = if code < 0 {
        Num::Negative(code)
    } else {
        Num::Natural(code as u64)
    };
    let error = Members::new().with("code", Json::Number(n)).with("message", Json::text(message));
    assert(error@ =~= error_detail(code, message@)->Object_0);
    let r = Members::new().with("jsonrpc", Json::text("2.0")).with("id", id).with(
        "error",
        error.object(),
    );
    assert(r@ =~= error_doc(id@, code, message@)->Object_0);
    r.object()
}

/// How a tool call ended: with a text, with an error, or by a panic.
#[derive(Debug, PartialEq)]
pub enum Outcome<S = String> {
    Text(S),
    Failed(S),
    Panicked,
}

impl View for Outcome<String> {
    type V = Outcome<Seq<char>>;

    open spec fn view(&self) -> Outcome<Seq<char>> {
        match *self {
            Outcome::Text(text) => Outcome::Text(text@),
            Outcome::Failed(message) => Outcome::Failed(message@),
            Outcome::Panicked => Outcome::Panicked,
        }
    }
}

/// What the caller of a tool gets to read.
pub open spec fn outcome_text(outcome: Outcome<Seq<char>>) -> Seq<char> {
    match outcome {
        Outcome::Text(text) => text,
        Outcome::Failed(message) => "Error: "@ + message,
        Outcome::Panicked => "Error: internal panic while running the tool"@,
    }
}

/// A text as the content of a tool result.
pub open spec fn text_content(text: Seq<char>) -> Doc {
    Doc::Object(seq![("type"@, Doc::Text("text"@)), ("text"@, Doc::Text(text))])
}

/// The result of a tool call. A call that fails has a result too, which says so.
pub open spec fn tool_result(outcome: Outcome<Seq<char>>) -> Doc {
    Doc::Object(
        seq![
            ("content"@, Doc::Array(seq![text_content(outcome_text(outcome))])),
            ("isError"@, Doc::Bool(!(outcome is Text))),
        ],
    )
}

/// Answers the tool call `id`.
pub fn finish_call(id: Json, outcome: Outcome) -> (r: Json)
    ensures
        r@ == result_doc(id@, tool_result(outcome@)),
{
    let (text, is_error) = match &outcome {
        Outcome::Text(text) => (text.clone(), false),
        Outcome::Failed(message) => {
            let mut text = "Error: ".to_owned();
            text.append(message);
            (text, true)
        },
        Outcome::Panicked => ("Error: internal panic while running the tool".to_owned(), true),
    };
    let content = Members::new().with("type", Json::text("text")).with("text", Json::text(&text));
    assert(content@ =~= text_content(text@)->Object_0);
    let contents = Items::new().with(content.object());
    let result = Members::new().with("content", contents.array()).with(
        "isError",
        Json::Bool(is_error),
    );
    assert(result@ =~= tool_result(outcome@)->Object_0);
    result_response(id, result.object())
}

/// The outcome of a tool call that fails with that error.
pub fn failure(e: &ToolError) -> (r: Outcome)
    ensures
        r@ == Outcome::Failed(crate::mcp::errors::error_text(e@)),
{
    Outcome::Failed(e.message())
}

/// A tool that ends with a text is answered with just that text; one that fails
/// with its message, marked as an error; and one that panics with a message of
/// its own.
pub proof fn an_outcome_is_told(text: Seq<char>)
    ensures
        outcome_text(Outcome::Text(text)) == text,
        outcome_text(Outcome::Failed(text)) == "Error: "@ + text,
        outcome_text(Outcome::Panicked) == "Error: internal panic while running the tool"@,
{
}

/// An outcome keeps its text.
pub proof fn an_outcome_keeps_its_text(outcome: Outcome)
    ensures
        match outcome {
            Outcome::Text(text) => outcome@ == Outcome::Text(text@),
            Outcome::Failed(message) => outcome@ == Outcome::Failed(message@),
            Outcome::Panicked => outcome@ is Panicked,
        },
{
}

/// The error codes are those of JSON-RPC, as negative numbers, and no response
/// has more members than it must have.
pub proof fn responses_are_those_of_json_rpc(id: Doc, result: Doc, message: Seq<char>, code: i64)
    ensures
        integer(JSONRPC_PARSE_ERROR) == Num::Negative(-32700i64 as i64),
        integer(JSONRPC_INVALID_REQUEST) == Num::Negative(-32600i64 as i64),
        integer(JSONRPC_METHOD_NOT_FOUND) == Num::Negative(-32601i64 as i64),
        integer(JSONRPC_INVALID_PARAMS) == Num::Negative(-32602i64 as i64),
        code < 0 ==> integer(code) == Num::Negative(code),
        code >= 0 ==> integer(code) == Num::Natural(code as u64),
        result_doc(id, result)->Object_0.len() == 3,
        error_doc(id, code, message)->Object_0.len() == 3,
        error_detail(code, message)->Object_0.len() == 2,
        tool_result(Outcome::Text(message))->Object_0.len() == 2,
        text_content(message)->Object_0.len() == 2,
{
}

/// The content of a tool result is a text, and says so.
pub proof fn the_content_of_a_result_is_a_text(text: Seq<char>)
    ensures
        text_content(text).member("type"@) == Some(Doc::Text("text"@)),
        text_content(text).member("text"@) == Some(Doc::Text(text)),
{
    reveal_with_fuel(crate::json::last_member, 3);
    reveal_strlit("type");
    reveal_strlit("text");
    assert("type"@[1] == 'y' && "text"@[1] == 'e');
}

} // verus!
