use semble_front::json::{frame, Json, Num};
use semble_front::mcp::args::{opt_bool, opt_str, opt_string_vec, opt_usize, req_str, req_usize};
use semble_front::mcp::definitions::{tool_exists, tool_names};
use semble_front::mcp::errors::ToolError;
use semble_front::mcp::responses::{
    error_response, failure, finish_call, result_response, Outcome, JSONRPC_INVALID_PARAMS,
    JSONRPC_INVALID_REQUEST, JSONRPC_METHOD_NOT_FOUND, JSONRPC_PARSE_ERROR,
};
use semble_front::mcp::server::{
    McpServer, Turn, LATEST_PROTOCOL_VERSION, SERVER_INSTRUCTIONS, SERVER_VERSION,
};
use semble_front::mcp::work::{run_tool, Work};

fn turn_to_response(turn: Turn) -> Option<Json> {
    match turn {
        Turn::Silent | Turn::Log(_) => None,
        Turn::Reply(response) => Some(response),
        Turn::Call { id, work, .. } => Some(match work {
            Ok(_) => finish_call(id, Outcome::Text("done".to_string())),
            Err(e) => finish_call(id, failure(&e)),
        }),
    }
}

fn request(server: &mut McpServer, line: &str) -> Json {
    turn_to_response(server.handle_line(line)).expect("expected a response")
}

fn at<'a>(json: &'a Json, path: &[&str]) -> &'a Json {
    let mut here = json;
    for key in path {
        here = here.get(key).expect("expected a member");
    }
    here
}

fn text_at<'a>(json: &'a Json, path: &[&str]) -> &'a str {
    at(json, path).as_text().expect("expected a string")
}

fn code(json: &Json) -> i64 {
    match at(json, &["error", "code"]) {
        Json::Number(Num::Negative(n)) => *n,
        other => panic!("no error code: {:?}", other),
    }
}

fn json(s: &str) -> Json {
    Json::parse(s).expect("expected JSON")
}

#[test]
fn initialize_negotiates_known_version() {
    let mut s = McpServer::new(None);
    let resp = request(
        &mut s,
        r#"{"jsonrpc":"2.0","id":1,"method":"initialize","params":{"protocolVersion":"2025-03-26","capabilities":{},"clientInfo":{"name":"t","version":"0"}}}"#,
    );
    assert_eq!(text_at(&resp, &["result", "protocolVersion"]), "2025-03-26");
    assert_eq!(text_at(&resp, &["result", "serverInfo", "name"]), "semble");
    assert!(matches!(
        at(&resp, &["result", "capabilities", "tools"]),
        Json::Object(_)
    ));
}

#[test]
fn initialize_falls_back_to_latest_version() {
    let mut s = McpServer::new(None);
    let resp = request(
        &mut s,
        r#"{"jsonrpc":"2.0","id":1,"method":"initialize","params":{"protocolVersion":"1999-01-01"}}"#,
    );
    assert_eq!(
        text_at(&resp, &["result", "protocolVersion"]),
        LATEST_PROTOCOL_VERSION
    );
}

#[test]
fn initialize_without_a_version_gets_the_latest() {
    let mut s = McpServer::new(None);
    let resp = request(&mut s, r#"{"id":1,"method":"initialize"}"#);
    assert_eq!(text_at(&resp, &["result", "protocolVersion"]), "2025-06-18");
    assert_eq!(
        text_at(&resp, &["result", "serverInfo", "version"]),
        SERVER_VERSION
    );
    assert_eq!(
        text_at(&resp, &["result", "instructions"]),
        SERVER_INSTRUCTIONS
    );
}

#[test]
fn tools_list_exposes_all_tools() {
    let mut s = McpServer::new(None);
    let resp = request(&mut s, r#"{"jsonrpc":"2.0","id":2,"method":"tools/list"}"#);
    let tools = match at(&resp, &["result", "tools"]) {
        Json::Array(tools) => tools,
        _ => panic!("tools array"),
    };
    let names: Vec<&str> = tools.iter().map(|t| text_at(t, &["name"])).collect();
    assert_eq!(
        names,
        [
            "search",
            "tree",
            "deps",
            "impact",
            "find_pattern",
            "find_related",
            "plan"
        ]
    );
    assert_eq!(names, tool_names());
    for tool in tools {
        assert!(!text_at(tool, &["description"]).is_empty());
        assert_eq!(text_at(tool, &["inputSchema", "type"]), "object");
    }
}

#[test]
fn tool_schema_lists_modes_defaults_and_requirements() {
    let mut s = McpServer::new(None);
    let resp = request(&mut s, r#"{"id":2,"method":"tools/list"}"#);
    let tools = match at(&resp, &["result", "tools"]) {
        Json::Array(tools) => tools,
        _ => panic!("tools array"),
    };
    let search = at(&tools[0], &["inputSchema"]);
    assert_eq!(
        at(search, &["properties", "mode"]).render(),
        r#"{"default":"outline","description":"outline: one signature line per match (cheapest). compact: path + matching lines. group: directory-grouped, max 3 match lines per chunk. full: whole chunk bodies.","enum":["outline","compact","group","full"],"type":"string"}"#
    );
    assert_eq!(at(search, &["required"]).render(), r#"["query"]"#);
    assert_eq!(
        at(search, &["properties", "path"]).render(),
        r#"{"default":".","description":"Directory to index, or a git URL (shallow-cloned). Default: server working directory","type":"string"}"#
    );
    assert_eq!(
        at(search, &["properties", "top_k"]).render(),
        r#"{"default":10,"description":"Max results","type":"integer"}"#
    );
    assert_eq!(
        at(&tools[1], &["inputSchema", "properties", "lang"]).render(),
        r#"{"description":"Filter to languages, e.g. [\"rust\", \"python\"]","items":{"type":"string"},"type":"array"}"#
    );
    assert_eq!(at(&tools[1], &["inputSchema", "required"]).render(), "[]");
    assert_eq!(
        at(&tools[5], &["inputSchema", "required"]).render(),
        r#"["file","line"]"#
    );
    assert_eq!(
        at(&tools[6], &["inputSchema", "properties", "top_k"]).render(),
        r#"{"default":8,"description":"Number of candidate chunks to use","type":"integer"}"#
    );
}

#[test]
fn notifications_get_no_response() {
    let mut s = McpServer::new(None);
    assert!(turn_to_response(
        s.handle_line(r#"{"jsonrpc":"2.0","method":"notifications/initialized"}"#)
    )
    .is_none());
}

#[test]
fn unknown_notifications_are_logged() {
    let mut s = McpServer::new(None);
    assert_eq!(
        s.handle_line(r#"{"method":"notifications/progress"}"#),
        Turn::Log("[semble mcp] ignoring notification: notifications/progress".to_string())
    );
    assert_eq!(
        s.handle_line(r#"{"method":"notifications/cancelled"}"#),
        Turn::Silent
    );
}

#[test]
fn client_responses_are_ignored() {
    let mut s = McpServer::new(None);
    assert_eq!(s.handle_line(r#"{"id":1,"result":{}}"#), Turn::Silent);
    assert_eq!(s.handle_line(r#"{"id":1,"method":7}"#), Turn::Silent);
}

#[test]
fn blank_lines_are_skipped() {
    let mut s = McpServer::new(None);
    assert_eq!(s.next_turn(" \t "), Turn::Silent);
    assert!(matches!(s.next_turn("x"), Turn::Reply(_)));
}

#[test]
fn ping_is_answered_with_an_empty_object() {
    let mut s = McpServer::new(None);
    let resp = request(&mut s, r#"{"id":"a","method":"ping"}"#);
    assert_eq!(resp.render(), r#"{"id":"a","jsonrpc":"2.0","result":{}}"#);
}

#[test]
fn unknown_method_returns_error() {
    let mut s = McpServer::new(None);
    let resp = request(
        &mut s,
        r#"{"jsonrpc":"2.0","id":3,"method":"resources/list"}"#,
    );
    assert_eq!(code(&resp), JSONRPC_METHOD_NOT_FOUND);
    assert_eq!(
        resp.render(),
        r#"{"error":{"code":-32601,"message":"Method not found: resources/list"},"id":3,"jsonrpc":"2.0"}"#
    );
}

#[test]
fn parse_error_returns_null_id() {
    let mut s = McpServer::new(None);
    let resp = request(&mut s, "not json");
    assert_eq!(code(&resp), JSONRPC_PARSE_ERROR);
    assert!(matches!(at(&resp, &["id"]), Json::Null));
    assert_eq!(
        text_at(&resp, &["error", "message"]),
        "Parse error: expected ident at line 1 column 2"
    );
}

#[test]
fn a_message_that_is_no_object_is_refused() {
    let mut s = McpServer::new(None);
    let resp = request(&mut s, r#"[{"id":1,"method":"ping"}]"#);
    assert_eq!(code(&resp), JSONRPC_INVALID_REQUEST);
    assert!(matches!(at(&resp, &["id"]), Json::Null));
}

#[test]
fn unknown_tool_is_invalid_params() {
    let mut s = McpServer::new(None);
    let resp = request(
        &mut s,
        r#"{"jsonrpc":"2.0","id":4,"method":"tools/call","params":{"name":"nope","arguments":{}}}"#,
    );
    assert_eq!(code(&resp), JSONRPC_INVALID_PARAMS);
    assert_eq!(text_at(&resp, &["error", "message"]), "Unknown tool: nope");
}

#[test]
fn a_tool_call_needs_a_name() {
    let mut s = McpServer::new(None);
    let resp = request(&mut s, r#"{"id":4,"method":"tools/call"}"#);
    assert_eq!(code(&resp), JSONRPC_INVALID_PARAMS);
    assert_eq!(text_at(&resp, &["error", "message"]), "Missing tool name");
}

#[test]
fn tool_error_is_result_with_is_error() {
    let mut s = McpServer::new(None);
    // Missing required argument -> tool-level error, not protocol error.
    let resp = request(
        &mut s,
        r#"{"jsonrpc":"2.0","id":5,"method":"tools/call","params":{"name":"search","arguments":{}}}"#,
    );
    assert!(resp.get("error").is_none());
    assert_eq!(*at(&resp, &["result", "isError"]), Json::Bool(true));
    let content = match at(&resp, &["result", "content"]) {
        Json::Array(content) => content,
        _ => panic!("content array"),
    };
    let text = text_at(&content[0], &["text"]);
    assert!(text.contains("query"));
    assert_eq!(text, "Error: Missing required argument: query");
}

#[test]
fn outcomes_become_results() {
    assert_eq!(
        finish_call(Json::natural(7), Outcome::Text("hi".to_string())).render(),
        r#"{"id":7,"jsonrpc":"2.0","result":{"content":[{"text":"hi","type":"text"}],"isError":false}}"#
    );
    assert_eq!(
        finish_call(Json::Null, Outcome::Failed("no".to_string())).render(),
        r#"{"id":null,"jsonrpc":"2.0","result":{"content":[{"text":"Error: no","type":"text"}],"isError":true}}"#
    );
    assert_eq!(
        finish_call(Json::Null, Outcome::Panicked).render(),
        r#"{"id":null,"jsonrpc":"2.0","result":{"content":[{"text":"Error: internal panic while running the tool","type":"text"}],"isError":true}}"#
    );
}

#[test]
fn ids_come_back_as_they_were() {
    let mut s = McpServer::new(None);
    for id in [
        "1.5",
        "-3",
        "18446744073709551615",
        "null",
        "\"x\"",
        "[1,{\"a\":true}]",
        "1e300",
    ] {
        let line = format!("{{\"id\":{},\"method\":\"ping\"}}", id);
        let resp = request(&mut s, &line);
        assert_eq!(*at(&resp, &["id"]), json(id));
        assert_eq!(at(&resp, &["id"]).render(), json(id).render());
    }
}

#[test]
fn only_the_first_tool_call_awaits_the_warmup() {
    let mut s = McpServer::new(Some("m".to_string()));
    let call = r#"{"id":1,"method":"tools/call","params":{"name":"tree"}}"#;
    assert!(matches!(
        s.handle_line(r#"{"id":0,"method":"ping"}"#),
        Turn::Reply(_)
    ));
    assert!(s.warming);
    let mut waits: Vec<bool> = Vec::new();
    for _ in 0..3 {
        match s.handle_line(call) {
            Turn::Call { await_warmup, .. } => waits.push(await_warmup),
            other => panic!("no call: {:?}", other),
        }
    }
    assert_eq!(waits, [true, false, false]);
    assert_eq!(s.model, Some("m".to_string()));
}

#[test]
fn argument_helpers_validate_types() {
    let args = json(r#"{"s": "x", "n": 3, "b": true, "arr": ["a", "b"], "csv": "a, b"}"#);
    assert_eq!(req_str(&args, "s").unwrap(), "x");
    assert!(req_str(&args, "missing").is_err());
    assert_eq!(opt_usize(&args, "n").unwrap(), Some(3));
    assert!(opt_usize(&args, "s").is_err());
    assert_eq!(opt_bool(&args, "b").unwrap(), Some(true));
    assert!(opt_bool(&args, "n").is_err());
    assert_eq!(
        opt_string_vec(&args, "arr").unwrap(),
        Some(vec!["a".to_string(), "b".to_string()])
    );
    assert_eq!(
        opt_string_vec(&args, "csv").unwrap(),
        Some(vec!["a".to_string(), "b".to_string()])
    );
    assert_eq!(opt_string_vec(&args, "missing").unwrap(), None);
}

#[test]
fn faulty_arguments_are_told_apart() {
    let args = json(r#"{"s": 1, "n": -1, "f": 2.0, "b": "x", "arr": ["a", 1], "csv": {"k": []}, "z": null}"#);
    assert_eq!(
        opt_str(&args, "s").unwrap_err().message(),
        "Argument \"s\" must be a string, got: 1"
    );
    assert_eq!(
        opt_usize(&args, "n").unwrap_err().message(),
        "Argument \"n\" must be a non-negative integer, got: -1"
    );
    assert_eq!(
        opt_usize(&args, "f").unwrap_err().message(),
        "Argument \"f\" must be a non-negative integer, got: 2.0"
    );
    assert_eq!(
        opt_bool(&args, "b").unwrap_err().message(),
        "Argument \"b\" must be a boolean, got: \"x\""
    );
    assert_eq!(
        opt_string_vec(&args, "arr").unwrap_err().message(),
        "Argument \"arr\" must be an array of strings"
    );
    assert_eq!(
        opt_string_vec(&args, "csv").unwrap_err().message(),
        "Argument \"csv\" must be an array of strings, got: {\"k\":[]}"
    );
    assert_eq!(req_str(&args, "z"), Err(ToolError::Missing("z".to_string())));
    assert_eq!(
        req_usize(&args, "none").unwrap_err().message(),
        "Missing required argument: none"
    );
    assert_eq!(opt_str(&args, "z"), Ok(None));
}

#[test]
fn every_error_has_its_message() {
    let s = |t: &str| t.to_string();
    assert_eq!(
        ToolError::<String, Json>::UnknownTool(s("x")).message(),
        "Unknown tool: x"
    );
    assert_eq!(
        ToolError::<String, Json>::UnknownSearchMode(s("a\"b")).message(),
        "Unknown mode: \"a\\\"b\" (expected outline, compact, group, or full)"
    );
    assert_eq!(
        ToolError::<String, Json>::UnknownGraphMode(s("x")).message(),
        "Unknown mode: \"x\" (expected summary or tree)"
    );
    assert_eq!(
        ToolError::<String, Json>::UnknownFile(s("a.rs")).message(),
        "File not found in graph: a.rs"
    );
    assert_eq!(
        ToolError::<String, Json>::NoChunk {
            file: s("a.rs"),
            line: 12
        }
        .message(),
        "No chunk found at a.rs:12."
    );
    assert_eq!(
        ToolError::<String, Json>::NotInstalled.message(),
        "ast-grep is not installed. find_pattern is a thin wrapper around it. Install with `brew install ast-grep` or `cargo install ast-grep` and retry."
    );
    assert_eq!(
        ToolError::<String, Json>::PatternFailed(s("bad")).message(),
        "ast-grep failed: bad"
    );
    assert_eq!(
        ToolError::<String, Json>::ModelFailed {
            model: s("m"),
            cause: s("gone")
        }
        .message(),
        "Failed to load model \"m\": gone"
    );
}

#[test]
fn tools_read_their_arguments() {
    let s = |t: &str| t.to_string();
    assert_eq!(
        run_tool("search", &json(r#"{"query":"q"}"#)),
        Ok(Work::Search {
            query: s("q"),
            path: s("."),
            top_k: 10,
            mode: s("outline"),
            include_text_files: false
        })
    );
    assert_eq!(
        run_tool(
            "tree",
            &json(r#"{"path":"p","symbols":true,"dirs_only":true,"max_depth":2,"lang":" rust ,,go","include_text_files":true}"#)
        ),
        Ok(Work::Tree {
            path: s("p"),
            symbols: true,
            dirs_only: true,
            max_depth: Some(2),
            include_text_files: true,
            langs: Some(vec![s("rust"), s("go")])
        })
    );
    assert_eq!(
        run_tool("deps", &json(r#"{"file":"f","mode":"tree"}"#)),
        Ok(Work::Deps {
            file: s("f"),
            path: s("."),
            mode: s("tree"),
            max_depth: None
        })
    );
    assert_eq!(
        run_tool("impact", &json(r#"{"file":"f","max_depth":1}"#)),
        Ok(Work::Impact {
            file: s("f"),
            path: s("."),
            mode: s("summary"),
            max_depth: Some(1)
        })
    );
    assert_eq!(
        run_tool("find_pattern", &json(r#"{"pattern":"p","lang":"rust"}"#)),
        Ok(Work::FindPattern {
            pattern: s("p"),
            path: s("."),
            lang: Some(s("rust")),
            compact: false
        })
    );
    assert_eq!(
        run_tool("find_related", &json(r#"{"file":"f","line":3,"top_k":2}"#)),
        Ok(Work::FindRelated {
            file: s("f"),
            line: 3,
            path: s("."),
            top_k: 2,
            include_text_files: false
        })
    );
    assert_eq!(
        run_tool("find_related", &json(r#"{"file":"f"}"#)),
        Err(ToolError::Missing(s("line")))
    );
    assert_eq!(
        run_tool("plan", &json(r#"{"task":"t"}"#)),
        Ok(Work::Plan {
            task: s("t"),
            path: s("."),
            top_k: 8,
            include_text_files: false
        })
    );
    assert_eq!(
        run_tool("other", &Json::Null),
        Err(ToolError::UnknownTool(s("other")))
    );
    assert!(tool_exists("plan"));
    assert!(!tool_exists("Plan"));
}

#[test]
fn the_first_faulty_argument_is_reported() {
    assert_eq!(
        run_tool("search", &json(r#"{"query":"q","path":1,"top_k":"x"}"#)),
        Err(ToolError::NotText {
            key: "path".to_string(),
            got: Json::natural(1)
        })
    );
}

#[test]
fn given_defaults_and_nulls_change_nothing() {
    assert_eq!(
        run_tool(
            "search",
            &json(r#"{"query":"q","path":".","top_k":10,"mode":"outline","include_text_files":null}"#)
        ),
        run_tool("search", &json(r#"{"query":"q"}"#))
    );
}

#[test]
fn responses_have_a_version_an_id_and_a_result_or_an_error() {
    assert_eq!(
        result_response(Json::natural(1), Json::Bool(true)).render(),
        r#"{"id":1,"jsonrpc":"2.0","result":true}"#
    );
    assert_eq!(
        error_response(Json::Null, 5, "m").render(),
        r#"{"error":{"code":5,"message":"m"},"id":null,"jsonrpc":"2.0"}"#
    );
}

#[test]
fn a_frame_is_one_line() {
    let framed = frame(&Json::text("a\nb"));
    assert_eq!(framed, "\"a\\nb\"\n");
}

#[test]
fn the_last_of_equal_keys_counts() {
    let object = json(r#"{"a":1,"a":2}"#);
    assert_eq!(object.get("a"), Some(&Json::natural(2)));
    let built = Json::Object(vec![
        ("a".to_string(), Json::natural(1)),
        ("a".to_string(), Json::natural(2)),
    ]);
    assert_eq!(built.get("a"), Some(&Json::natural(2)));
    assert_eq!(built.render(), r#"{"a":2}"#);
}

#[test]
fn copies_are_equal() {
    let value = json(r#"{"a":[1,-2,3.25,"s",null,true],"b":{}}"#);
    assert_eq!(value.copy(), value);
}

#[test]
fn a_refused_call_leaves_the_warmup_to_be_awaited() {
    let mut s = McpServer::new(None);
    let resp = request(
        &mut s,
        r#"{"id":1,"method":"tools/call","params":{"name":"nope"}}"#,
    );
    assert_eq!(code(&resp), JSONRPC_INVALID_PARAMS);
    assert!(s.warming);
    assert!(matches!(
        s.handle_line(r#"{"id":2,"method":"tools/call","params":{"name":"tree"}}"#),
        Turn::Call {
            await_warmup: true,
            work: Ok(_),
            ..
        }
    ));
}

#[test]
fn a_call_without_arguments_lacks_the_first_required_one() {
    let none = json("{}");
    for (name, key) in [
        ("search", "query"),
        ("deps", "file"),
        ("impact", "file"),
        ("find_pattern", "pattern"),
        ("find_related", "file"),
        ("plan", "task"),
    ] {
        assert_eq!(
            run_tool(name, &none),
            Err(ToolError::Missing(key.to_string()))
        );
    }
    assert!(run_tool("tree", &none).is_ok());
}
