//! What holds of every message, of every tool, and of every sequence of lines.

use vstd::prelude::*;
use vstd::string::*;

use crate::json::Doc;
use crate::mcp::responses::{
    Outcome, JSONRPC_INVALID_PARAMS, JSONRPC_INVALID_REQUEST, JSONRPC_METHOD_NOT_FOUND,
    JSONRPC_PARSE_ERROR,
};
use crate::mcp::server::{Turn, TurnView, SERVER_NAME};

verus! {

// ---------------------------------------------------------------------------
// Responses
// ---------------------------------------------------------------------------
/// The members of a response with a result.
pub proof fn a_result_is_a_response(id: Doc, result: Doc)
    ensures
        ({
            let r = crate::mcp::responses::result_doc(id, result);
            &&& r.member("jsonrpc"@) == Some(Doc::Text("2.0"@))
            &&& r.member("id"@) == Some(id)
            &&& r.member("result"@) == Some(result)
            &&& r.member("error"@) is None
        }),
{
    reveal_with_fuel(crate::json::last_member, 5);
    reveal_strlit("jsonrpc");
    reveal_strlit("id");
    reveal_strlit("result");
    reveal_strlit("error");
    assert("jsonrpc"@[0] == 'j' && "id"@[0] == 'i' && "result"@[0] == 'r' && "error"@[0] == 'e');
}

/// The members of a response with an error, and of the error.
pub proof fn an_error_is_a_response(id: Doc, code: i64, message: Seq<char>)
    ensures
        ({
            let r = crate::mcp::responses::error_doc(id, code, message);
            let detail = crate::mcp::responses::error_detail(code, message);
            &&& r.member("jsonrpc"@) == Some(Doc::Text("2.0"@))
            &&& r.member("id"@) == Some(id)
            &&& r.member("error"@) == Some(detail)
            &&& r.member("result"@) is None
            &&& detail.member("code"@) == Some(
                Doc::Number(crate::mcp::responses::integer(code)),
            )
            &&& detail.member("message"@) == Some(Doc::Text(message))
        }),
{
    reveal_with_fuel(crate::json::last_member, 5);
    reveal_strlit("jsonrpc");
    reveal_strlit("id");
    reveal_strlit("result");
    reveal_strlit("error");
    reveal_strlit("code");
    reveal_strlit("message");
    assert("jsonrpc"@[0] == 'j' && "id"@[0] == 'i' && "result"@[0] == 'r' && "error"@[0] == 'e');
    assert("code"@[0] == 'c' && "message"@[0] == 'm');
}

/// Whether a value is a JSON-RPC response to the request `id`: it has the
/// version and the id, and either a result or an error.
pub open spec fn is_response_to(response: Doc, id: Doc) -> bool {
    &&& response.member("jsonrpc"@) == Some(Doc::Text("2.0"@))
    &&& response.member("id"@) == Some(id)
    &&& response.member("result"@) is Some <==> response.member("error"@) is None
}

/// Whether a message is a request with the given id: it has a method and an id.
pub open spec fn is_request(message: Doc, id: Doc) -> bool {
    message.text_member("method"@) is Some && message.member("id"@) == Some(id)
}

/// Every request is answered, under its own id: at once, or by finishing the
/// tool call that it leads to.
pub proof fn every_request_is_answered(warming: bool, message: Doc, id: Doc)
    requires
        is_request(message, id),
    ensures
        match crate::mcp::server::turn_of(warming, Ok(message)) {
            Turn::Reply(response) => is_response_to(response, id),
            Turn::Call { id: call, .. } => call == id,
            _ => false,
        },
{
    let method = message.text_member("method"@)->Some_0;
    let params = crate::mcp::server::params_of(message);
    match crate::mcp::server::turn_of(warming, Ok(message)) {
        Turn::Reply(response) => {
            if method == "initialize"@ || method == "ping"@ || method == "tools/list"@ {
                a_result_is_a_response(id, response->Object_0[2].1);
            } else if method == "tools/call"@ {
                match params.text_member("name"@) {
                    None => an_error_is_a_response(id, JSONRPC_INVALID_PARAMS, "Missing tool name"@),
                    Some(name) => an_error_is_a_response(
                        id,
                        JSONRPC_INVALID_PARAMS,
                        "Unknown tool: "@ + name,
                    ),
                }
            } else {
                an_error_is_a_response(
                    id,
                    JSONRPC_METHOD_NOT_FOUND,
                    "Method not found: "@ + method,
                );
            }
        },
        _ => {},
    }
}

/// Whether a response is an error response with the given code.
pub open spec fn refuses(response: Doc, id: Doc, code: i64) -> bool {
    &&& is_response_to(response, id)
    &&& response.member("error"@) matches Some(error)
    &&& error.member("code"@) == Some(Doc::Number(crate::mcp::responses::integer(code)))
}

/// Whether the server knows a method of that name.
pub open spec fn is_method(method: Seq<char>) -> bool {
    ||| method == "initialize"@
    ||| method == "ping"@
    ||| method == "tools/list"@
    ||| method == "tools/call"@
}

/// A request is refused as an unknown method just where the server does not know
/// its method.
pub proof fn an_unknown_method_is_refused(warming: bool, message: Doc, id: Doc)
    requires
        is_request(message, id),
    ensures
        !is_method(message.text_member("method"@)->Some_0) <==> (crate::mcp::server::turn_of(
            warming,
            Ok(message),
        ) matches Turn::Reply(response) && refuses(response, id, JSONRPC_METHOD_NOT_FOUND)),
{
    let method = message.text_member("method"@)->Some_0;
    let params = crate::mcp::server::params_of(message);
    match crate::mcp::server::turn_of(warming, Ok(message)) {
        Turn::Reply(response) => {
            if method == "tools/call"@ {
                match params.text_member("name"@) {
                    None => an_error_is_a_response(id, JSONRPC_INVALID_PARAMS, "Missing tool name"@),
                    Some(name) => an_error_is_a_response(
                        id,
                        JSONRPC_INVALID_PARAMS,
                        "Unknown tool: "@ + name,
                    ),
                }
            } else if is_method(method) {
                a_result_is_a_response(id, response->Object_0[2].1);
            } else {
                an_error_is_a_response(
                    id,
                    JSONRPC_METHOD_NOT_FOUND,
                    "Method not found: "@ + method,
                );
            }
        },
        _ => {},
    }
}

/// Whether a message is a tool call with the given id.
pub open spec fn is_tool_call(message: Doc, id: Doc) -> bool {
    message.text_member("method"@) == Some("tools/call"@) && message.member("id"@) == Some(id)
}

/// A tool call that names a tool of the server is started, whatever its
/// arguments are. One that names no tool, or another one, is refused because of
/// its parameters, and leaves the warm-up to be awaited.
pub proof fn a_call_is_started_or_refused(warming: bool, message: Doc, id: Doc)
    requires
        is_tool_call(message, id),
    ensures
        ({
            let turn = crate::mcp::server::turn_of(warming, Ok(message));
            let params = crate::mcp::server::params_of(message);
            match params.text_member("name"@) {
                Some(name) if crate::mcp::definitions::names().contains(name) => turn
                    == TurnView::Call {
                    id,
                    await_warmup: warming,
                    work: crate::mcp::work::work_of(name, crate::mcp::server::call_args(params)),
                },
                _ => {
                    &&& turn matches Turn::Reply(response)
                    &&& refuses(response, id, JSONRPC_INVALID_PARAMS)
                    &&& crate::mcp::server::still_warming(warming, turn) == warming
                },
            }
        }),
{
    reveal_strlit("initialize");
    reveal_strlit("ping");
    reveal_strlit("tools/list");
    reveal_strlit("tools/call");
    assert("initialize"@[0] == 'i' && "ping"@[0] == 'p' && "tools/call"@[0] == 't');
    assert("tools/list"@[6] == 'l' && "tools/call"@[6] == 'c');
    match crate::mcp::server::params_of(message).text_member("name"@) {
        None => an_error_is_a_response(id, JSONRPC_INVALID_PARAMS, "Missing tool name"@),
        Some(name) => an_error_is_a_response(
            id,
            JSONRPC_INVALID_PARAMS,
            "Unknown tool: "@ + name,
        ),
    }
}

/// An initialization is answered with the negotiated version of the protocol,
/// and with the name of the server.
pub proof fn an_initialization_is_welcomed(warming: bool, message: Doc, id: Doc)
    requires
        is_request(message, id),
        message.text_member("method"@) == Some("initialize"@),
    ensures
        ({
            let requested = crate::mcp::server::params_of(message).text_member("protocolVersion"@);
            let version = crate::mcp::server::negotiated(requested);
            &&& crate::mcp::server::turn_of(warming, Ok(message)) matches Turn::Reply(response)
            &&& is_response_to(response, id)
            &&& response.member("result"@) matches Some(result)
            &&& result.text_member("protocolVersion"@) == Some(version)
            &&& result.member("capabilities"@) matches Some(capabilities)
            &&& capabilities.member("tools"@) matches Some(Doc::Object(_))
            &&& result.member("serverInfo"@) matches Some(info)
            &&& info.text_member("name"@) == Some(SERVER_NAME@)
        }),
{
    let requested = crate::mcp::server::params_of(message).text_member("protocolVersion"@);
    let result = crate::mcp::server::welcome(crate::mcp::server::negotiated(requested));
    a_result_is_a_response(id, result);
    reveal_with_fuel(crate::json::last_member, 5);
    reveal_strlit("protocolVersion");
    reveal_strlit("capabilities");
    reveal_strlit("serverInfo");
    reveal_strlit("instructions");
    reveal_strlit("name");
    reveal_strlit("version");
    assert("protocolVersion"@[0] == 'p' && "capabilities"@[0] == 'c');
    assert("serverInfo"@[0] == 's' && "instructions"@[0] == 'i');
    assert("name"@[0] == 'n' && "version"@[0] == 'v');
}

/// A request for the list of tools is answered with their definitions.
pub proof fn the_tools_are_told(warming: bool, message: Doc, id: Doc)
    requires
        is_request(message, id),
        message.text_member("method"@) == Some("tools/list"@),
    ensures
        ({
            &&& crate::mcp::server::turn_of(warming, Ok(message)) matches Turn::Reply(response)
            &&& is_response_to(response, id)
            &&& response.member("result"@) matches Some(result)
            &&& result.member("tools"@) == Some(
                Doc::Array(crate::mcp::definitions::definitions()),
            )
        }),
{
    reveal_strlit("initialize");
    reveal_strlit("ping");
    reveal_strlit("tools/list");
    assert("initialize"@[0] == 'i' && "ping"@[0] == 'p' && "tools/list"@[0] == 't');
    let tools = ("tools"@, Doc::Array(crate::mcp::definitions::definitions()));
    let members: Seq<(Seq<char>, Doc)> = seq![tools];
    a_result_is_a_response(id, Doc::Object(members));
    assert(members.last() == tools);
}

/// A message object that is no request gets no response: neither notifications
/// nor answers do.
pub proof fn only_requests_are_answered(warming: bool, message: Doc)
    requires
        message is Object,
        forall|id: Doc| !is_request(message, id),
    ensures
        ({
            let turn = crate::mcp::server::turn_of(warming, Ok(message));
            turn is Silent || turn is Log
        }),
{
    match message.member("id"@) {
        Some(id) => {
            assert(!is_request(message, id));
        },
        None => {},
    }
}

/// A line that holds no JSON, or no object, is answered with an error under the
/// null id, and the code says which of the two it was.
pub proof fn a_line_without_an_object_is_refused(warming: bool, incoming: Result<Doc, Seq<char>>)
    requires
        incoming matches Ok(message) ==> !(message is Object),
    ensures
        ({
            let code = if incoming is Err {
                JSONRPC_PARSE_ERROR
            } else {
                JSONRPC_INVALID_REQUEST
            };
            &&& crate::mcp::server::turn_of(warming, incoming) matches Turn::Reply(response)
            &&& refuses(response, Doc::Null, code)
        }),
{
    match incoming {
        Err(message) => an_error_is_a_response(
            Doc::Null,
            JSONRPC_PARSE_ERROR,
            "Parse error: "@ + message,
        ),
        Ok(_) => an_error_is_a_response(
            Doc::Null,
            JSONRPC_INVALID_REQUEST,
            "Invalid request: expected a JSON-RPC object (batching is not supported)"@,
        ),
    }
}

/// A tool call is always answered with a result, whether the tool succeeds,
/// fails or panics; the result says which, and holds the text.
pub proof fn a_tool_failure_is_a_result(id: Doc, outcome: Outcome<Seq<char>>)
    ensures
        ({
            let result = crate::mcp::responses::tool_result(outcome);
            let response = crate::mcp::responses::result_doc(id, result);
            let text = crate::mcp::responses::outcome_text(outcome);
            &&& is_response_to(response, id)
            &&& response.member("error"@) is None
            &&& response.member("result"@) == Some(result)
            &&& result.member("isError"@) == Some(Doc::Bool(!(outcome is Text)))
            &&& result.member("content"@) matches Some(Doc::Array(content))
            &&& content.len() == 1
            &&& content[0].text_member("text"@) == Some(text)
        }),
{
    let result = crate::mcp::responses::tool_result(outcome);
    a_result_is_a_response(id, result);
    reveal_with_fuel(crate::json::last_member, 4);
    reveal_strlit("content");
    reveal_strlit("isError");
    reveal_strlit("type");
    reveal_strlit("text");
    assert("content"@[0] == 'c' && "isError"@[0] == 'i');
}

// ---------------------------------------------------------------------------
// Protocol version
// ---------------------------------------------------------------------------
/// The server only ever answers with a version that it speaks, and never with
/// another one than requested if it speaks that.
pub proof fn the_negotiated_version_is_supported(requested: Option<Seq<char>>)
    ensures
        crate::mcp::server::is_supported(crate::mcp::server::negotiated(requested)),
        requested matches Some(version) && crate::mcp::server::is_supported(version)
            ==> crate::mcp::server::negotiated(requested) == requested->Some_0,
{
}

// ---------------------------------------------------------------------------
// State
// ---------------------------------------------------------------------------
/// A turn, but for the warm-up.
pub open spec fn without_warmup(turn: TurnView) -> TurnView {
    match turn {
        Turn::Call { id, work, .. } => Turn::Call { id, await_warmup: false, work },
        other => other,
    }
}

/// But for the warm-up, what a line leads to depends on nothing but the line.
pub proof fn the_server_is_stateless(a: bool, b: bool, incoming: Result<Doc, Seq<char>>)
    ensures
        without_warmup(crate::mcp::server::turn_of(a, incoming)) == without_warmup(
            crate::mcp::server::turn_of(b, incoming),
        ),
{
}

/// The state after the first `n` of the incoming lines.
pub open spec fn warming_after(
    warming: bool,
    incoming: Seq<Result<Doc, Seq<char>>>,
    n: int,
) -> bool
    decreases n,
{
    if n <= 0 {
        warming
    } else {
        let before = warming_after(warming, incoming, n - 1);
        crate::mcp::server::still_warming(
            before,
            crate::mcp::server::turn_of(before, incoming[n - 1]),
        )
    }
}

/// The turn that the line at position `n` leads to.
pub open spec fn turn_at(
    warming: bool,
    incoming: Seq<Result<Doc, Seq<char>>>,
    n: int,
) -> TurnView {
    crate::mcp::server::turn_of(warming_after(warming, incoming, n), incoming[n])
}

proof fn warming_lasts_until_the_first_call(
    warming: bool,
    incoming: Seq<Result<Doc, Seq<char>>>,
    n: int,
)
    requires
        0 <= n <= incoming.len(),
    ensures
        warming_after(warming, incoming, n) == (warming && forall|i: int|
            0 <= i < n ==> !(#[trigger] turn_at(warming, incoming, i) is Call)),
    decreases n,
{
    if n > 0 {
        warming_lasts_until_the_first_call(warming, incoming, n - 1);
        assert(turn_at(warming, incoming, n - 1) == crate::mcp::server::turn_of(
            warming_after(warming, incoming, n - 1),
            incoming[n - 1],
        ));
    }
}

/// Whatever lines come in, the first tool call awaits the warm-up, and no other.
pub proof fn the_first_call_awaits_the_warmup(
    warming: bool,
    incoming: Seq<Result<Doc, Seq<char>>>,
    n: int,
)
    requires
        0 <= n < incoming.len(),
    ensures
        turn_at(warming, incoming, n) matches Turn::Call { await_warmup, .. } ==> await_warmup == (
        warming && forall|i: int|
            0 <= i < n ==> !(#[trigger] turn_at(warming, incoming, i) is Call)),
{
    warming_lasts_until_the_first_call(warming, incoming, n);
}

// ---------------------------------------------------------------------------
// Tools
// ---------------------------------------------------------------------------
/// The members of the definition of a tool, and of its schema.
pub proof fn a_definition_has_its_members(
    name: Seq<char>,
    description: Seq<char>,
    properties: Seq<(Seq<char>, Doc)>,
    required: Seq<Doc>,
)
    ensures
        ({
            let d = crate::mcp::definitions::tool(name, description, properties, required);
            let schema = crate::mcp::definitions::schema(properties, required);
            &&& d.text_member("name"@) == Some(name)
            &&& d.text_member("description"@) == Some(description)
            &&& d.member("inputSchema"@) == Some(schema)
            &&& schema.text_member("type"@) == Some("object"@)
            &&& schema.member("properties"@) == Some(Doc::Object(properties))
            &&& schema.member("required"@) == Some(Doc::Array(required))
        }),
{
    reveal_with_fuel(crate::json::last_member, 4);
    reveal_strlit("name");
    reveal_strlit("description");
    reveal_strlit("inputSchema");
    reveal_strlit("type");
    reveal_strlit("properties");
    reveal_strlit("required");
    assert("name"@[0] == 'n' && "description"@[0] == 'd' && "inputSchema"@[0] == 'i');
    assert("type"@[0] == 't' && "properties"@[0] == 'p' && "required"@[0] == 'r');
}

/// Whether each of `required` is the name of one of `properties`.
pub open spec fn are_declared(required: Seq<Doc>, properties: Seq<(Seq<char>, Doc)>) -> bool {
    forall|i: int|
        0 <= i < required.len() ==> exists|j: int|
            0 <= j < properties.len() && #[trigger] required[i] == Doc::Text(
                (#[trigger] properties[j]).0,
            )
}

/// Whether a definition is complete: it has the name, something to read about
/// the tool, and an object schema that describes all arguments that it requires.
pub open spec fn is_complete(definition: Doc, name: Seq<char>) -> bool {
    &&& definition.text_member("name"@) == Some(name)
    &&& definition.text_member("description"@) matches Some(description)
    &&& description.len() > 0
    &&& definition.member("inputSchema"@) matches Some(schema)
    &&& schema.text_member("type"@) == Some("object"@)
    &&& schema.member("properties"@) matches Some(Doc::Object(properties))
    &&& schema.member("required"@) matches Some(Doc::Array(required))
    &&& are_declared(required, properties)
}

// ---------------------------------------------------------------------------
// From the members of a message to the turn
// ---------------------------------------------------------------------------
/// A blank line leads to nothing, and changes nothing; any other line to what it
/// is parsed into. Only a tool call ends the waiting for the warm-up.
pub proof fn only_blank_lines_are_skipped(warming: bool, line: Seq<char>, turn: TurnView)
    ensures
        crate::text::trimmed(line).len() == 0 ==> crate::mcp::server::line_turn(warming, line)
            is Silent,
        crate::text::trimmed(line).len() > 0 ==> crate::mcp::server::line_turn(warming, line)
            == crate::mcp::server::turn_of(warming, crate::json::parsed(line)),
        !crate::mcp::server::still_warming(false, turn),
        crate::mcp::server::still_warming(true, turn) <==> !(turn is Call),
{
}

/// A message with a method and no id is a notification. The two that the server
/// knows lead to nothing, and another one is logged by its name. A message
/// without a method leads to nothing.
pub proof fn a_notification_is_logged_or_skipped(warming: bool, message: Doc, method: Seq<char>)
    requires
        message is Object,
    ensures
        ({
            let turn = crate::mcp::server::turn_of(warming, Ok(message));
            &&& message.member("method"@) == Some(Doc::Text(method)) && message.member("id"@)
                is None ==> {
                if method == "notifications/initialized"@ || method == "notifications/cancelled"@ {
                    turn is Silent
                } else {
                    turn == TurnView::Log("[semble mcp] ignoring notification: "@ + method)
                }
            }
            &&& !(message.member("method"@) matches Some(Doc::Text(_))) ==> turn is Silent
        }),
{
}

/// A tool call hands the arguments that it gives on to the tool that it names,
/// and where it gives none an empty object.
pub proof fn a_call_hands_its_arguments_on(
    warming: bool,
    message: Doc,
    id: Doc,
    params: Doc,
    name: Seq<char>,
    i: int,
)
    requires
        message is Object,
        message.member("method"@) == Some(Doc::Text("tools/call"@)),
        message.member("id"@) == Some(id),
        message.member("params"@) == Some(params),
        params.member("name"@) == Some(Doc::Text(name)),
        0 <= i < crate::mcp::definitions::names().len(),
        crate::mcp::definitions::names()[i] == name,
    ensures
        ({
            let args = match params.member("arguments"@) {
                Some(given) => given,
                None => Doc::Object(Seq::empty()),
            };
            crate::mcp::server::turn_of(warming, Ok(message)) == (TurnView::Call {
                id,
                await_warmup: warming,
                work: crate::mcp::work::work_of(name, args),
            })
        }),
{
    a_call_is_started_or_refused(warming, message, id);
    assert(crate::mcp::definitions::names().contains(name));
}

/// A refused request is told what is wrong with it: the unknown method or tool by
/// its name, or that there is no name. A line that holds no JSON is told why.
pub proof fn a_refusal_says_why(
    warming: bool,
    message: Doc,
    id: Doc,
    method: Seq<char>,
    params: Doc,
    name: Seq<char>,
    cause: Seq<char>,
)
    requires
        message is Object,
        message.member("method"@) == Some(Doc::Text(method)),
        message.member("id"@) == Some(id),
        message.member("params"@) == Some(params) || message.member("params"@) is None && params
            == Doc::Null,
    ensures
        ({
            let turn = crate::mcp::server::turn_of(warming, Ok(message));
            &&& !is_method(method) ==> turn == TurnView::Reply(
                crate::mcp::responses::error_doc(
                    id,
                    JSONRPC_METHOD_NOT_FOUND,
                    "Method not found: "@ + method,
                ),
            )
            &&& method == "tools/call"@ && params.member("name"@) == Some(Doc::Text(name))
                && !crate::mcp::definitions::names().contains(name) ==> turn == TurnView::Reply(
                crate::mcp::responses::error_doc(
                    id,
                    JSONRPC_INVALID_PARAMS,
                    "Unknown tool: "@ + name,
                ),
            )
            &&& method == "tools/call"@ && !(params.member("name"@) matches Some(Doc::Text(_)))
                ==> turn == TurnView::Reply(
                crate::mcp::responses::error_doc(
                    id,
                    JSONRPC_INVALID_PARAMS,
                    "Missing tool name"@,
                ),
            )
        }),
        crate::mcp::server::turn_of(warming, Err(cause)) == TurnView::Reply(
            crate::mcp::responses::error_doc(
                Doc::Null,
                JSONRPC_PARSE_ERROR,
                "Parse error: "@ + cause,
            ),
        ),
{
    methods_differ();
}

proof fn methods_differ()
    ensures
        "initialize"@.len() == 10,
        "ping"@.len() == 4,
        "tools/list"@.len() == 10,
        "tools/call"@.len() == 10,
        "initialize"@[0] == 'i',
        "tools/list"@[0] == 't',
        "tools/call"@[0] == 't',
        "tools/list"@[6] == 'l',
        "tools/call"@[6] == 'c',
{
    reveal_strlit("initialize");
    reveal_strlit("ping");
    reveal_strlit("tools/list");
    reveal_strlit("tools/call");
}

/// A ping is answered with an empty object.
pub proof fn a_ping_is_answered(warming: bool, message: Doc, id: Doc)
    requires
        message is Object,
        message.member("method"@) == Some(Doc::Text("ping"@)),
        message.member("id"@) == Some(id),
    ensures
        ({
            &&& crate::mcp::server::turn_of(warming, Ok(message)) matches Turn::Reply(response)
            &&& is_response_to(response, id)
            &&& response.member("result"@) == Some(Doc::Object(Seq::empty()))
        }),
{
    methods_differ();
    a_result_is_a_response(id, Doc::Object(Seq::empty()));
}

/// A client that asks for one of the three versions gets it, and any other gets
/// the latest of them.
pub proof fn the_three_versions_are_spoken(version: Seq<char>)
    ensures
        crate::mcp::server::negotiated(None) == "2025-06-18"@,
        crate::mcp::server::negotiated(Some(version)) == (if version == "2025-06-18"@ || version
            == "2025-03-26"@ || version == "2024-11-05"@ {
            version
        } else {
            "2025-06-18"@
        }),
{
}

/// The answer to an initialization goes by the version in its parameters, and
/// says who the server is and how it is used.
pub proof fn a_welcome_goes_by_the_parameters(
    warming: bool,
    message: Doc,
    id: Doc,
    params: Doc,
    version: Seq<char>,
)
    requires
        message is Object,
        message.member("method"@) == Some(Doc::Text("initialize"@)),
        message.member("id"@) == Some(id),
        message.member("params"@) == Some(params) || message.member("params"@) is None && params
            == Doc::Null,
    ensures
        ({
            let requested = match params.member("protocolVersion"@) {
                Some(Doc::Text(version)) => Some(version),
                _ => None,
            };
            &&& crate::mcp::server::turn_of(warming, Ok(message)) matches Turn::Reply(response)
            &&& response.member("result"@) matches Some(result)
            &&& result.member("protocolVersion"@) == Some(
                Doc::Text(crate::mcp::server::negotiated(requested)),
            )
        }),
        ({
            let result = crate::mcp::server::welcome(version);
            let info = crate::mcp::server::server_info();
            &&& result->Object_0.len() == 4
            &&& result.member("protocolVersion"@) == Some(Doc::Text(version))
            &&& result.member("capabilities"@) == Some(
                Doc::Object(seq![("tools"@, Doc::Object(Seq::empty()))]),
            )
            &&& result.member("serverInfo"@) == Some(info)
            &&& result.member("instructions"@) == Some(
                Doc::Text(crate::mcp::server::SERVER_INSTRUCTIONS@),
            )
            &&& info->Object_0.len() == 2
            &&& info.member("name"@) == Some(Doc::Text("semble"@))
            &&& info.member("version"@) == Some(Doc::Text(crate::mcp::server::SERVER_VERSION@))
        }),
{
    an_initialization_is_welcomed(warming, message, id);
    reveal_with_fuel(crate::json::last_member, 5);
    reveal_strlit("protocolVersion");
    reveal_strlit("capabilities");
    reveal_strlit("serverInfo");
    reveal_strlit("instructions");
    reveal_strlit("name");
    reveal_strlit("version");
    assert("protocolVersion"@[0] == 'p' && "capabilities"@[0] == 'c');
    assert("serverInfo"@[0] == 's' && "instructions"@[0] == 'i');
    assert("name"@[0] == 'n' && "version"@[0] == 'v');
}

/// A turn keeps what it says, logs, answers or asks for.
pub proof fn a_turn_keeps_what_it_asks_for(turn: Turn)
    ensures
        match turn {
            Turn::Silent => turn@ is Silent,
            Turn::Log(line) => turn@ == TurnView::Log(line@),
            Turn::Reply(response) => turn@ == TurnView::Reply(response@),
            Turn::Call { id, await_warmup, work } => {
                &&& turn@ matches Turn::Call { id: call, await_warmup: awaits, work: started }
                &&& call == id@
                &&& awaits == await_warmup
                &&& match work {
                    Ok(w) => started == Ok::<_, crate::mcp::errors::ErrorView>(w@),
                    Err(e) => started == Err::<crate::mcp::work::WorkView, _>(e@),
                }
            },
        },
{
}

/// The server says which version it has, and how it is used.
pub proof fn the_server_explains_itself()
    ensures
        crate::mcp::server::SERVER_INSTRUCTIONS@.len() > 0,
        crate::mcp::server::SERVER_VERSION@.len() > 0,
{
    reveal_strlit("Token-efficient code search over local paths and git URLs. Stateless: every call re-indexes the target path fresh (fast; no staleness). Typical flow: tree (map an unfamiliar repo) -> search with mode=outline -> escalate mode only when needed (compact -> group -> full) -> deps/impact before editing shared files. Use plan when unsure where to start. Relative paths resolve against the server's working directory.");
    reveal_strlit("0.1.0");
}

} // verus!
