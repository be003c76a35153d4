use mcp_tools::format::format_blocked;
use mcp_tools::format::format_complete;
use mcp_tools::format::format_error;
use mcp_tools::format::format_success;
use mcp_tools::format::serialize_resource;
use mcp_tools::format::serialize_string_list;
use mcp_tools::render_list;

#[test]
fn test_format_success() {
    let fields = vec![
        ("id".to_string(), "123".to_string()),
        ("status".to_string(), "ok".to_string()),
    ];
    let result = format_success(&fields);
    assert_eq!(result, "(success :id \"123\" :status \"ok\")");
}

#[test]
fn test_format_error() {
    let result = format_error("Not found");
    assert_eq!(result, "(error \"Not found\")");
}

#[test]
fn test_format_complete() {
    let result = format_complete(&vec![]);
    assert_eq!(result, "(complete)");

    let result = format_complete(&vec![("message".to_string(), "done".to_string())]);
    assert_eq!(result, "(complete :message \"done\")");
}

#[test]
fn test_format_blocked() {
    let goals = vec!["g1".to_string(), "g2".to_string()];
    let result = format_blocked(&goals, &vec![("msg".to_string(), "waiting".to_string())]);
    assert_eq!(result, "(blocked :waiting-goals (\"g1\" \"g2\") :msg \"waiting\")");
}

#[test]
fn test_serialize_string_list() {
    let items = vec!["a".to_string(), "b".to_string()];
    let result = serialize_string_list(&items);
    assert_eq!(result, "\"a\" \"b\"");
}

#[test]
fn test_serialize_resource() {
    let result = serialize_resource("file", "test.rs");
    assert_eq!(result, "(file \"test.rs\")");
}

#[test]
fn format_blocked_without_fields() {
    let goals = vec!["goal1".to_string()];
    let result = format_blocked(&goals, &vec![]);
    assert_eq!(result, "(blocked :waiting-goals (\"goal1\"))");
}

#[test]
fn format_error_quotes_its_message() {
    // The message cannot corrupt the response's structure.
    let result = format_error("evil \"msg\" with ) and \\");
    assert_eq!(result, "(error \"evil \\\"msg\\\" with ) and \\\\\")");
}

#[test]
fn render_list_edges() {
    assert_eq!(render_list(&vec![]), "");
    assert_eq!(render_list(&vec!["one".to_string()]), "one");
    assert_eq!(
        render_list(&vec!["\"a\"".to_string(), "\"b\"".to_string()]),
        "\"a\" \"b\""
    );
}

#[test]
fn serialize_string_list_empty() {
    assert_eq!(serialize_string_list(&vec![]), "");
}
