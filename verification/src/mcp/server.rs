//! The server: what each incoming line leads to.

use vstd::prelude::*;
use vstd::string::*;

use crate::json::{Doc, Json, Members};
use crate::mcp::definitions::{tool_definitions, tool_exists};
use crate::mcp::errors::ToolError;
use crate::mcp::responses::{
    error_response, result_response, JSONRPC_INVALID_PARAMS, JSONRPC_INVALID_REQUEST,
    JSONRPC_METHOD_NOT_FOUND, JSONRPC_PARSE_ERROR,
};
use crate::mcp::work::{run_tool, Work};
use crate::text::{is_blank, same};

verus! {

pub const LATEST_PROTOCOL_VERSION: &'static str = "2025-06-18";

pub const SERVER_NAME: &'static str = "semble";

pub const SERVER_VERSION: &'static str = "0.1.0";

pub const SERVER_INSTRUCTIONS: &'static str = "Token-efficient code search over local paths and git URLs. Stateless: every call re-indexes the target path fresh (fast; no staleness). Typical flow: tree (map an unfamiliar repo) -> search with mode=outline -> escalate mode only when needed (compact -> group -> full) -> deps/impact before editing shared files. Use plan when unsure where to start. Relative paths resolve against the server's working directory.";

/// What an incoming line leads to.
#[derive(Debug, PartialEq)]
pub enum Turn<J = Json, S = String, L = Vec<String>> {
    /// Nothing: there is nothing to say.
    Silent,
    /// A line for the log, and no response.
    Log(S),
    /// A response.
    Reply(J),
    /// A tool call. The warm-up of the model is to be awaited first where
    /// `await_warmup` says so; then the work is to be done, and the call `id`
    /// answered with its outcome.
    Call { id: J, await_warmup: bool, work: Result<Work<S, L>, ToolError<S, J>> },
}

/// A turn by its views.
pub type TurnView = Turn<Doc, Seq<char>, Seq<Seq<char>>>;

impl View for Turn<Json, String, Vec<String>> {
    type V = TurnView;

    open spec fn view(&self) -> TurnView {
        match *self {
            Turn::Silent => Turn::Silent,
            Turn::Log(line) => Turn::Log(line@),
            Turn::Reply(response) => Turn::Reply(response@),
            Turn::Call { id, await_warmup, work } => Turn::Call {
                id: id@,
                await_warmup,
                work: crate::mcp::work::started(work),
            },
        }
    }
}

// ---------------------------------------------------------------------------
// Initialization
// ---------------------------------------------------------------------------
/// Whether the server speaks that version of the protocol.
pub open spec fn is_supported(version: Seq<char>) -> bool {
    version == "2025-06-18"@ || version == "2025-03-26"@ || version == "2024-11-05"@
}

/// The version that the server answers with: the requested one if it speaks it,
/// else the latest.
pub open spec fn negotiated(requested: Option<Seq<char>>) -> Seq<char> {
    match requested {
        Some(version) => if is_supported(version) {
            version
        } else {
            LATEST_PROTOCOL_VERSION@
        },
        None => LATEST_PROTOCOL_VERSION@,
    }
}

/// Picks the version of the protocol.
pub fn negotiate(requested: Option<&str>) -> (r: String)
    ensures
        r@ == negotiated(requested.deep_view()),
{
    match requested {
        Some(version) => {
            if same(version, "2025-06-18") || same(version, "2025-03-26") || same(
                version,
                "2024-11-05",
            ) {
                version.to_owned()
            } else {
                LATEST_PROTOCOL_VERSION.to_owned()
            }
        },
        None => LATEST_PROTOCOL_VERSION.to_owned(),
    }
}

/// What the server offers: tools.
pub open spec fn capabilities() -> Doc {
    Doc::Object(seq![("tools"@, Doc::Object(Seq::empty()))])
}

/// Who the server is.
pub open spec fn server_info() -> Doc {
    Doc::Object(
        seq![("name"@, Doc::Text(SERVER_NAME@)), ("version"@, Doc::Text(SERVER_VERSION@))],
    )
}

/// The result of an initialization.
pub open spec fn welcome(version: Seq<char>) -> Doc {
    Doc::Object(
        seq![
            ("protocolVersion"@, Doc::Text(version)),
            ("capabilities"@, capabilities()),
            ("serverInfo"@, server_info()),
            ("instructions"@, Doc::Text(SERVER_INSTRUCTIONS@)),
        ],
    )
}

fn greet(version: &str) -> (r: Json)
    ensures
        r@ == welcome(version@),
{
    let offers = Members::new().with("tools", Members::new().object());
    assert(offers@ =~= capabilities()->Object_0);
    let info = Members::new().with("name", Json::text(SERVER_NAME)).with(
        "version",
        Json::text(SERVER_VERSION),
    );
    assert(info@ =~= server_info()->Object_0);
    let r = Members::new().with("protocolVersion", Json::text(version)).with(
        "capabilities",
        offers.object(),
    ).with("serverInfo", info.object()).with("instructions", Json::text(SERVER_INSTRUCTIONS));
    assert(r@ =~= welcome(version@)->Object_0);
    r.object()
}

// ---------------------------------------------------------------------------
// Turns
// ---------------------------------------------------------------------------
/// The turn that a notification leads to. None is answered, and those that the
/// server does not know are logged.
pub open spec fn notification_turn(method: Seq<char>) -> TurnView {
    if method == "notifications/initialized"@ || method == "notifications/cancelled"@ {
        Turn::Silent
    } else {
        Turn::Log("[semble mcp] ignoring notification: "@ + method)
    }
}

/// The arguments of a tool call. Without any they are an empty object.
pub open spec fn call_args(params: Doc) -> Doc {
    match params.member("arguments"@) {
        Some(args) => args,
        None => Doc::Object(Seq::empty()),
    }
}

/// The turn that a tool call leads to. A call that names no tool, or none that
/// there is, is refused; faulty arguments are the tool's own matter.
pub open spec fn call_turn(warming: bool, params: Doc, id: Doc) -> TurnView {
    match params.text_member("name"@) {
        None => Turn::Reply(
            crate::mcp::responses::error_doc(id, JSONRPC_INVALID_PARAMS, "Missing tool name"@),
        ),
        Some(name) => if crate::mcp::definitions::names().contains(name) {
            Turn::Call {
                id,
                await_warmup: warming,
                work: crate::mcp::work::work_of(name, call_args(params)),
            }
        } else {
            Turn::Reply(
                crate::mcp::responses::error_doc(
                    id,
                    JSONRPC_INVALID_PARAMS,
                    "Unknown tool: "@ + name,
                ),
            )
        },
    }
}

/// The turn that a request leads to.
pub open spec fn request_turn(warming: bool, method: Seq<char>, params: Doc, id: Doc) -> TurnView {
    if method == "initialize"@ {
        Turn::Reply(
            crate::mcp::responses::result_doc(
                id,
                welcome(negotiated(params.text_member("protocolVersion"@))),
            ),
        )
    } else if method == "ping"@ {
        Turn::Reply(crate::mcp::responses::result_doc(id, Doc::Object(Seq::empty())))
    } else if method == "tools/list"@ {
        Turn::Reply(
            crate::mcp::responses::result_doc(
                id,
                Doc::Object(
                    seq![("tools"@, Doc::Array(crate::mcp::definitions::definitions()))],
                ),
            ),
        )
    } else if method == "tools/call"@ {
        call_turn(warming, params, id)
    } else {
        Turn::Reply(
            crate::mcp::responses::error_doc(
                id,
                JSONRPC_METHOD_NOT_FOUND,
                "Method not found: "@ + method,
            ),
        )
    }
}

/// The parameters of a message. Without any they are null.
pub open spec fn params_of(message: Doc) -> Doc {
    match message.member("params"@) {
        Some(params) => params,
        None => Doc::Null,
    }
}

/// The turn that a message leads to: a request where it has a method and an id,
/// a notification where it has a method alone. Anything else that is an object
/// is the answer to a request, of which the server makes none.
pub open spec fn message_turn(warming: bool, message: Doc) -> TurnView {
    match (message.text_member("method"@), message.member("id"@)) {
        (None, _) => Turn::Silent,
        (Some(method), None) => notification_turn(method),
        (Some(method), Some(id)) => request_turn(warming, method, params_of(message), id),
    }
}

/// The turn that an incoming line leads to, once it is parsed.
pub open spec fn turn_of(warming: bool, incoming: Result<Doc, Seq<char>>) -> TurnView {
    match incoming {
        Err(message) => Turn::Reply(
            crate::mcp::responses::error_doc(
                Doc::Null,
                JSONRPC_PARSE_ERROR,
                "Parse error: "@ + message,
            ),
        ),
        Ok(message) => if message is Object {
            message_turn(warming, message)
        } else {
            Turn::Reply(
                crate::mcp::responses::error_doc(
                    Doc::Null,
                    JSONRPC_INVALID_REQUEST,
                    "Invalid request: expected a JSON-RPC object (batching is not supported)"@,
                ),
            )
        },
    }
}

/// The turn that a raw line leads to. Blank lines are skipped.
pub open spec fn line_turn(warming: bool, line: Seq<char>) -> TurnView {
    if crate::text::trimmed(line).len() == 0 {
        Turn::Silent
    } else {
        turn_of(warming, crate::json::parsed(line))
    }
}

/// Whether the warm-up is still to be awaited after a turn: the first tool call
/// awaits it.
pub open spec fn still_warming(warming: bool, turn: TurnView) -> bool {
    warming && !(turn is Call)
}

/// The state of the server: the model that overrides the default one in all
/// tool calls, and whether its warm-up is still to be awaited.
#[derive(Debug)]
pub struct McpServer {
    pub model: Option<String>,
    pub warming: bool,
}

impl McpServer {
    /// A server whose model is about to be warmed up.
    pub fn new(model: Option<String>) -> (r: McpServer)
        ensures
            r.model == model,
            r.warming,
    {
        McpServer { model, warming: true }
    }

    /// Handles one line of input.
    pub fn next_turn(&mut self, line: &str) -> (r: Turn)
        ensures
            r@ == line_turn(old(self).warming, line@),
            final(self).warming == still_warming(old(self).warming, r@),
            final(self).model == old(self).model,
    {
        if is_blank(line) {
            Turn::Silent
        } else {
            self.handle_line(line)
        }
    }

    /// Handles one line that is not blank.
    pub fn handle_line(&mut self, line: &str) -> (r: Turn)
        ensures
            r@ == turn_of(old(self).warming, crate::json::parsed(line@)),
            final(self).warming == still_warming(old(self).warming, r@),
            final(self).model == old(self).model,
    {
        self.handle_message(Json::parse(line))
    }

    /// Handles what a line was parsed into.
    pub fn handle_message(&mut self, incoming: Result<Json, String>) -> (r: Turn)
        ensures
            r@ == turn_of(old(self).warming, crate::json::outcome(incoming)),
            final(self).warming == still_warming(old(self).warming, r@),
            final(self).model == old(self).model,
    {
        let message = match incoming {
            Ok(message) => message,
            Err(e) => {
                let mut text = "Parse error: ".to_owned();
                text.append(&e);
                return Turn::Reply(error_response(Json::Null, JSONRPC_PARSE_ERROR, &text));
            },
        };
        match &message {
            Json::Object(_) => {},
            _ => {
                return Turn::Reply(
                    error_response(
                        Json::Null,
                        JSONRPC_INVALID_REQUEST,
                        "Invalid request: expected a JSON-RPC object (batching is not supported)",
                    ),
                );
            },
        }
        let method = match message.get_text("method") {
            Some(method) => method,
            None => {
                return Turn::Silent;
            },
        };
        match message.get("id") {
            None => self.handle_notification(method),
            Some(id) => match message.get("params") {
                Some(params) => self.handle_request(method, params, id.copy()),
                None => self.handle_request(method, &Json::Null, id.copy()),
            },
        }
    }

    /// Handles a notification: no response is allowed.
    pub fn handle_notification(&mut self, method: &str) -> (r: Turn)
        ensures
            r@ == notification_turn(method@),
            *final(self) == *old(self),
    {
        if same(method, "notifications/initialized") || same(method, "notifications/cancelled") {
            Turn::Silent
        } else {
            let mut line = "[semble mcp] ignoring notification: ".to_owned();
            line.append(method);
            Turn::Log(line)
        }
    }

    /// Handles a request.
    pub fn handle_request(&mut self, method: &str, params: &Json, id: Json) -> (r: Turn)
        ensures
            r@ == request_turn(old(self).warming, method@, params@, id@),
            final(self).warming == still_warming(old(self).warming, r@),
            final(self).model == old(self).model,
    {
        if same(method, "initialize") {
            let version = negotiate(params.get_text("protocolVersion"));
            Turn::Reply(result_response(id, greet(&version)))
        } else if same(method, "ping") {
            Turn::Reply(result_response(id, Members::new().object()))
        } else if same(method, "tools/list") {
            Turn::Reply(
                result_response(id, Members::new().with("tools", tool_definitions()).object()),
            )
        } else if same(method, "tools/call") {
            self.handle_tool_call(params, id)
        } else {
            let mut text = "Method not found: ".to_owned();
            text.append(method);
            Turn::Reply(error_response(id, JSONRPC_METHOD_NOT_FOUND, &text))
        }
    }

    /// Handles a tool call.
    pub fn handle_tool_call(&mut self, params: &Json, id: Json) -> (r: Turn)
        ensures
            r@ == call_turn(old(self).warming, params@, id@),
            final(self).warming == still_warming(old(self).warming, r@),
            final(self).model == old(self).model,
    {
        let name = match params.get_text("name") {
            Some(name) => name,
            None => {
                return Turn::Reply(
                    error_response(id, JSONRPC_INVALID_PARAMS, "Missing tool name"),
                );
            },
        };
        if !tool_exists(name) {
            let mut text = "Unknown tool: ".to_owned();
            text.append(name);
            return Turn::Reply(error_response(id, JSONRPC_INVALID_PARAMS, &text));
        }
        let await_warmup = self.warming;
        self.warming = false;
        let work = match params.get("arguments") {
            Some(args) => run_tool(name, args),
            None => run_tool(name, &Members::new().object()),
        };
        Turn::Call { id, await_warmup, work }
    }
}

} // verus!
