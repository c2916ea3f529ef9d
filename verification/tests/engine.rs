use git_summarizer::catalog::ServerConfig;
use git_summarizer::dispatch::{finish_tool, handle_line, Step, ToolAction};
use git_summarizer::git::GitHandler;
use git_summarizer::jparse::parse_json;
use git_summarizer::json::render_json;

fn reply_line(step: Step) -> String {
    match step {
        Step::Reply(line) => line,
        _ => panic!("expected a reply"),
    }
}

fn jv(s: &str) -> serde_json::Value {
    serde_json::from_str(s).expect("valid JSON")
}

#[test]
fn tools_list_has_two_tools() {
    let mut cfg = ServerConfig::default();
    let step = handle_line("{\"jsonrpc\":\"2.0\",\"id\":1,\"method\":\"tools/list\"}", &mut cfg);
    let line = reply_line(step);
    let v = jv(&line);
    assert_eq!(v["jsonrpc"], jv("\"2.0\""));
    assert_eq!(v["id"], jv("1"));
    let tools = v["result"]["tools"].as_array().expect("tools array");
    assert_eq!(tools.len(), 2);
    assert_eq!(tools[0]["name"], jv("\"get_staged_diff\""));
    assert_eq!(tools[1]["name"], jv("\"execute_commit\""));
}

#[test]
fn initialized_notification_is_silent() {
    let mut cfg = ServerConfig::default();
    let step = handle_line(
        "{\"jsonrpc\":\"2.0\",\"method\":\"notifications/initialized\"}",
        &mut cfg,
    );
    assert!(matches!(step, Step::Silent));
}

#[test]
fn initialize_reports_server_info() {
    let mut cfg = ServerConfig::default();
    let step = handle_line(
        "{\"jsonrpc\":\"2.0\",\"id\":0,\"method\":\"initialize\",\"params\":{}}",
        &mut cfg,
    );
    let v = jv(&reply_line(step));
    assert_eq!(v["id"], jv("0"));
    assert_eq!(v["result"]["protocolVersion"], jv("\"2024-11-05\""));
    assert_eq!(v["result"]["serverInfo"]["name"], jv("\"git-summarizer\""));
    assert_eq!(v["result"]["serverInfo"]["version"], jv("\"0.1.0\""));
    assert_eq!(v["result"]["capabilities"]["tools"]["listChanged"], jv("true"));
}

#[test]
fn initialize_override_shows_in_description() {
    let mut cfg = ServerConfig::default();
    let init = "{\"jsonrpc\":\"2.0\",\"id\":1,\"method\":\"initialize\",\"params\":{\"options\":{\"commitFormat\":\"MY-FORMAT-X\"}}}";
    let _ = handle_line(init, &mut cfg);
    assert_eq!(cfg.commit_format, "MY-FORMAT-X");
    let step = handle_line("{\"jsonrpc\":\"2.0\",\"id\":2,\"method\":\"tools/list\"}", &mut cfg);
    let v = jv(&reply_line(step));
    let desc = v["result"]["tools"][0]["description"].as_str().expect("description");
    assert!(desc.contains("MY-FORMAT-X"));
}

#[test]
fn default_description_holds_builtin_template() {
    let mut cfg = ServerConfig::default();
    let step = handle_line("{\"jsonrpc\":\"2.0\",\"id\":2,\"method\":\"tools/list\"}", &mut cfg);
    let v = jv(&reply_line(step));
    let desc = v["result"]["tools"][0]["description"].as_str().expect("description");
    assert!(desc.contains("<type>[optional scope]: <english description>"));
    assert!(desc.contains("Influence: Explain in Chinese the potential impact of this submission."));
}

#[test]
fn commit_without_message_gets_empty_message() {
    let mut cfg = ServerConfig::default();
    let step = handle_line(
        "{\"jsonrpc\":\"2.0\",\"id\":3,\"method\":\"tools/call\",\"params\":{\"name\":\"execute_commit\"}}",
        &mut cfg,
    );
    match step {
        Step::CallTool { action: ToolAction::Commit { message }, id } => {
            assert_eq!(message, "");
            assert!(id.is_some());
        },
        _ => panic!("expected a commit tool call"),
    }
}

#[test]
fn commit_message_is_taken_from_arguments() {
    let mut cfg = ServerConfig::default();
    let step = handle_line(
        "{\"jsonrpc\":\"2.0\",\"id\":3,\"method\":\"tools/call\",\"params\":{\"name\":\"execute_commit\",\"arguments\":{\"message\":\"fix: x\"}}}",
        &mut cfg,
    );
    match step {
        Step::CallTool { action: ToolAction::Commit { message }, .. } => {
            assert_eq!(message, "fix: x");
        },
        _ => panic!("expected a commit tool call"),
    }
}

#[test]
fn unknown_tool_is_result_not_error() {
    let mut cfg = ServerConfig::default();
    let step = handle_line(
        "{\"jsonrpc\":\"2.0\",\"id\":4,\"method\":\"tools/call\",\"params\":{\"name\":\"nope\"}}",
        &mut cfg,
    );
    let v = jv(&reply_line(step));
    assert!(v.get("error").is_none());
    assert_eq!(v["result"]["isError"], jv("true"));
    assert_eq!(v["result"]["content"][0]["type"], jv("\"text\""));
    assert_eq!(v["result"]["content"][0]["text"], jv("\"未知工具\""));
}

#[test]
fn unknown_method_is_transport_error() {
    let mut cfg = ServerConfig::default();
    let step = handle_line("{\"jsonrpc\":\"2.0\",\"id\":5,\"method\":\"no/such\"}", &mut cfg);
    let line = reply_line(step);
    assert_eq!(
        line,
        "{\"error\":{\"code\":-32601,\"message\":\"Method not found\"},\"id\":5,\"jsonrpc\":\"2.0\"}"
    );
}

#[test]
fn unknown_method_notification_is_silent() {
    let mut cfg = ServerConfig::default();
    let step = handle_line("{\"jsonrpc\":\"2.0\",\"method\":\"no/such\"}", &mut cfg);
    assert!(matches!(step, Step::Silent));
}

#[test]
fn malformed_line_is_skipped() {
    let mut cfg = ServerConfig::default();
    let step = handle_line("{not json", &mut cfg);
    assert!(matches!(step, Step::Skip));
}

#[test]
fn malformed_call_params_stop_the_request() {
    let mut cfg = ServerConfig::default();
    let step = handle_line(
        "{\"jsonrpc\":\"2.0\",\"id\":6,\"method\":\"tools/call\",\"params\":{\"noname\":1}}",
        &mut cfg,
    );
    assert!(matches!(step, Step::ParamsError));
    let step2 = handle_line("{\"jsonrpc\":\"2.0\",\"id\":6,\"method\":\"tools/call\"}", &mut cfg);
    assert!(matches!(step2, Step::ParamsError));
}

#[test]
fn diff_tool_call_is_dispatched() {
    let mut cfg = ServerConfig::default();
    let step = handle_line(
        "{\"jsonrpc\":\"2.0\",\"id\":7,\"method\":\"tools/call\",\"params\":{\"name\":\"get_staged_diff\"}}",
        &mut cfg,
    );
    assert!(matches!(step, Step::CallTool { action: ToolAction::StagedDiff, .. }));
}

#[test]
fn tool_failure_becomes_is_error_result() {
    let mut cfg = ServerConfig::default();
    let step = handle_line(
        "{\"jsonrpc\":\"2.0\",\"id\":8,\"method\":\"tools/call\",\"params\":{\"name\":\"get_staged_diff\"}}",
        &mut cfg,
    );
    let id = match step {
        Step::CallTool { id, .. } => id,
        _ => panic!("expected a tool call"),
    };
    let line = finish_tool(id, Err("没有发现已暂存的变更。".to_string())).expect("a reply");
    let v = jv(&line);
    assert_eq!(v["id"], jv("8"));
    assert_eq!(v["result"]["isError"], jv("true"));
    assert_eq!(v["result"]["content"][0]["type"], jv("\"text\""));
    assert_eq!(v["result"]["content"][0]["text"], jv("\"没有发现已暂存的变更。\""));
}

#[test]
fn tool_success_becomes_text_result() {
    let line = finish_tool(
        git_summarizer::jparse::parse_json("9"),
        Ok("diff text here".to_string()),
    )
    .expect("a reply");
    let v = jv(&line);
    assert_eq!(v["id"], jv("9"));
    assert!(v["result"].get("isError").is_none());
    assert_eq!(v["result"]["content"][0]["text"], jv("\"diff text here\""));
}

#[test]
fn notification_tool_call_runs_but_stays_silent() {
    let mut cfg = ServerConfig::default();
    let step = handle_line(
        "{\"jsonrpc\":\"2.0\",\"method\":\"tools/call\",\"params\":{\"name\":\"get_staged_diff\"}}",
        &mut cfg,
    );
    let id = match step {
        Step::CallTool { id, .. } => id,
        _ => panic!("expected a tool call"),
    };
    assert!(id.is_none());
    assert!(finish_tool(id, Ok("x".to_string())).is_none());
}

#[test]
fn empty_staged_diff_is_a_failure() {
    let r = GitHandler::staged_diff_outcome(String::new());
    assert_eq!(r, Err("没有发现已暂存的变更。".to_string()));
}

#[test]
fn nonempty_staged_diff_is_returned() {
    let r = GitHandler::staged_diff_outcome("diff --git a b".to_string());
    assert_eq!(r, Ok("diff --git a b".to_string()));
}

#[test]
fn commit_confirmation_names_the_commit() {
    let s = GitHandler::commit_confirmation("0123abcd");
    assert_eq!(s, "Commit successful: 0123abcd");
}

#[test]
fn codec_round_trip_reproduces_equivalent_object() {
    let line = "{\"jsonrpc\": \"2.0\", \"id\": 1.50, \"result\": {\"b\": [1, 2, true, null], \"a\": \"x\\ny\"}}";
    let v = parse_json(line).expect("parses");
    let out = render_json(&v);
    assert_eq!(jv(&out), jv(line));
}

#[test]
fn codec_escapes_match_reference() {
    let v = parse_json("\"a\\u0041\\n\\t\\\\ \\\"q\\\" \\u00e9 \\ud83d\\ude00\"").expect("parses");
    let out = render_json(&v);
    let reference: serde_json::Value = jv(&out);
    assert_eq!(reference.as_str().unwrap(), "aA\n\t\\ \"q\" \u{e9} \u{1f600}");
}

#[test]
fn codec_rejects_trailing_text() {
    assert!(parse_json("{} x").is_none());
    assert!(parse_json("01").is_none());
    assert!(parse_json("{\"a\":}").is_none());
    assert!(parse_json("\"unterminated").is_none());
}

#[test]
fn codec_keeps_number_tokens() {
    let v = parse_json("[0, -12, 3.50, 6e-2, 1E+10]").expect("parses");
    assert_eq!(render_json(&v), "[0,-12,3.50,6e-2,1E+10]");
}

#[test]
fn null_id_counts_as_notification() {
    let mut cfg = ServerConfig::default();
    let step = handle_line("{\"jsonrpc\":\"2.0\",\"id\":null,\"method\":\"tools/list\"}", &mut cfg);
    assert!(matches!(step, Step::Silent));
}

#[test]
fn call_params_decode() {
    let v = parse_json("{\"name\":\"execute_commit\",\"arguments\":{\"message\":\"m\"}}");
    let p = git_summarizer::protocol::parse_call_params(v).expect("well-formed");
    assert_eq!(p.name, "execute_commit");
    assert!(p.arguments.is_some());
    assert!(git_summarizer::protocol::parse_call_params(parse_json("[1]")).is_none());
    assert!(git_summarizer::protocol::parse_call_params(None).is_none());
}

#[test]
fn initialize_params_decode() {
    let v = parse_json("{\"options\":null,\"extra\":1}");
    let ip = git_summarizer::protocol::parse_initialize_params(v).expect("an object");
    assert!(ip.options.is_none());
    assert!(git_summarizer::protocol::parse_initialize_params(parse_json("3")).is_none());
}
