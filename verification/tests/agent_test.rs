use claude_chat::agent::tool::{format_agent_message, parse_tool_calls, ToolCall};
use regex::Regex;

#[test]
fn parses_send_to_agent_call() {
    let output = r#"I'll ask the other agent.
<tool>send_to_agent("nixos", "what is the current system generation?")</tool>
Waiting for response..."#;

    let calls = parse_tool_calls(output);
    assert_eq!(calls.len(), 1);
    if let ToolCall::SendToAgent { agent, message } = &calls[0] {
        assert_eq!(agent, "nixos");
        assert_eq!(message, "what is the current system generation?");
    } else {
        panic!("expected SendToAgent tool call");
    }
}

#[test]
fn parses_get_secret_call() {
    let output = r#"<tool>get_secret("github-token")</tool>"#;
    let calls = parse_tool_calls(output);
    assert_eq!(calls.len(), 1);
    assert!(matches!(&calls[0], ToolCall::GetSecret(name) if name == "github-token"));
}

#[test]
fn parses_multiple_tool_calls() {
    let output = r#"<tool>get_secret("npm-token")</tool>
Some text here.
<tool>send_to_agent("home", "sync packages")</tool>"#;
    let calls = parse_tool_calls(output);
    assert_eq!(calls.len(), 2);
}

#[test]
fn returns_empty_on_no_tool_calls() {
    let output = "Just a normal assistant response with no tools.";
    assert!(parse_tool_calls(output).is_empty());
}

#[test]
fn formats_inter_agent_message_with_depth() {
    let msg = format_agent_message("nixos", 0, "hello world");
    assert_eq!(msg, "[from:nixos, depth:0] hello world");
}

#[test]
fn sends_come_before_secrets() {
    let output = r#"<tool>get_secret("npm-token")</tool>
<tool>send_to_agent("home", "sync packages")</tool>"#;
    let calls = parse_tool_calls(output);
    assert_eq!(
        calls,
        vec![
            ToolCall::SendToAgent { agent: "home".to_string(), message: "sync packages".to_string() },
            ToolCall::GetSecret("npm-token".to_string()),
        ]
    );
}

#[test]
fn whitespace_around_arguments_is_allowed() {
    let output = "<tool>send_to_agent \t(\n \"a\" \u{3000}, \u{a0}\"b c\"  )</tool>";
    let calls = parse_tool_calls(output);
    assert_eq!(
        calls,
        vec![ToolCall::SendToAgent { agent: "a".to_string(), message: "b c".to_string() }]
    );
}

#[test]
fn empty_arguments_are_not_calls() {
    assert!(parse_tool_calls(r#"<tool>get_secret("")</tool>"#).is_empty());
    assert!(parse_tool_calls(r#"<tool>send_to_agent("", "x")</tool>"#).is_empty());
    assert!(parse_tool_calls(r#"<tool>send_to_agent("x", "")</tool>"#).is_empty());
}

#[test]
fn arguments_may_span_lines() {
    let calls = parse_tool_calls("<tool>send_to_agent(\"ops\", \"line one\nline two\")</tool>");
    assert_eq!(
        calls,
        vec![ToolCall::SendToAgent { agent: "ops".to_string(), message: "line one\nline two".to_string() }]
    );
}

#[test]
fn calls_do_not_overlap() {
    let text = r#"<tool>get_secret("a")</tool><tool>get_secret("b")</tool>x<tool>get_secret("c")</tool>"#;
    let calls = parse_tool_calls(text);
    assert_eq!(
        calls,
        vec![
            ToolCall::GetSecret("a".to_string()),
            ToolCall::GetSecret("b".to_string()),
            ToolCall::GetSecret("c".to_string()),
        ]
    );
}

#[test]
fn malformed_calls_are_skipped() {
    let text = r#"<tool>get_secret("a"</tool> <tool>get_secret(b)</tool> <TOOL>get_secret("c")</TOOL> <tool>get_secret("d")</tool>"#;
    let calls = parse_tool_calls(text);
    assert_eq!(calls, vec![ToolCall::GetSecret("d".to_string())]);
}

#[test]
fn formats_depths_of_every_width() {
    assert_eq!(format_agent_message("a", 7, "t"), "[from:a, depth:7] t");
    assert_eq!(format_agent_message("a", 42, "t"), "[from:a, depth:42] t");
    assert_eq!(format_agent_message("a", 100, ""), "[from:a, depth:100] ");
    assert_eq!(format_agent_message("", 255, "x y"), "[from:, depth:255] x y");
}

fn calls_by_regex(text: &str) -> Vec<ToolCall> {
    let mut calls = Vec::new();
    let send_re = Regex::new(
        r#"<tool>send_to_agent\s*\(\s*"([^"]+)"\s*,\s*"([^"]+)"\s*\)</tool>"#,
    )
    .unwrap();
    for cap in send_re.captures_iter(text) {
        calls.push(ToolCall::SendToAgent {
            agent: cap[1].to_string(),
            message: cap[2].to_string(),
        });
    }
    let secret_re = Regex::new(r#"<tool>get_secret\s*\(\s*"([^"]+)"\s*\)</tool>"#).unwrap();
    for cap in secret_re.captures_iter(text) {
        calls.push(ToolCall::GetSecret(cap[1].to_string()));
    }
    calls
}

#[test]
fn agrees_with_the_regular_expressions() {
    let samples = [
        "",
        "plain text",
        r#"<tool>send_to_agent("a","b")</tool>"#,
        r#"<tool>send_to_agent  ( "a" ,  "b" )</tool><tool>get_secret( "s" )</tool>"#,
        r#"<tool>send_to_agent("a", "b")</tool"#,
        r#"<tool>send_to_agent("a", "b"))</tool>"#,
        r#"<tool><tool>get_secret("x")</tool>"#,
        r#"<tool>get_secret("<tool>get_secret(")</tool>")</tool>"#,
        r#"<tool>send_to_agent("<tool>get_secret(", ")</tool>")</tool>"#,
        "<tool>get_secret(\u{2028}\"é\u{1F600}\"\u{85})</tool>",
        "<tool>get_secret(\u{200b}\"x\")</tool>",
        r#"<tool>get_secret("a")</tool><tool>send_to_agent("b", "c")</tool><tool>get_secret("d")</tool>"#,
        "<tool>send_to_agent(\"a\"\n,\n\"b\")</tool>",
        r#"<tool>get_secret(""x")</tool>"#,
    ];
    for text in samples {
        assert_eq!(parse_tool_calls(text), calls_by_regex(text), "on {:?}", text);
    }
}
