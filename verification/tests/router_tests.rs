use mcp_tools::records::render_show_all;
use mcp_tools::records::SnapshotRow;
use mcp_tools::router::RouteResult;
use mcp_tools::router::Router;
use mcp_tools::session::default_history_path;
use mcp_tools::session::HistoryKind;
use mcp_tools::viewer::Command;

type Handler = fn(&str) -> Result<String, String>;

#[test]
fn test_router_basic() {
    let mut router: Router<Handler> = Router::new();
    router.register("echo".to_string(), |args| Ok(format!("(success :echo {})", args)));

    let result = router.route("echo", "(echo :msg \"hello\")").unwrap();
    assert!(result.contains("hello"));
}

#[test]
fn test_router_alias() {
    let mut router: Router<Handler> = Router::new();
    router.register("canonical-tool".to_string(), |_| Ok("(success)".to_string()));
    router.register_alias("alias-tool".to_string(), "canonical-tool".to_string());

    let result = router.route("alias-tool", "()").unwrap();
    assert_eq!(result, "(success)");
}

#[test]
fn test_router_unknown_tool() {
    let router: Router<Handler> = Router::new();
    let result = router.route("unknown", "()");
    assert!(result.is_err());
    assert!(result.unwrap_err().contains("Unknown tool"));
}

#[test]
fn test_router_tool_names() {
    let mut router: Router<Handler> = Router::new();
    router.register("tool1".to_string(), |_| Ok("()".to_string()));
    router.register("tool2".to_string(), |_| Ok("()".to_string()));

    let names = router.tool_names();
    assert_eq!(names.len(), 2);
    assert!(names.contains(&"tool1".to_string()));
    assert!(names.contains(&"tool2".to_string()));
}

#[test]
fn test_has_tool() {
    let mut router: Router<Handler> = Router::new();
    router.register("existing".to_string(), |_| Ok("()".to_string()));

    assert!(router.has_tool("existing"));
    assert!(!router.has_tool("nonexistent"));
}

#[test]
fn router_handler_error_is_wrapped() {
    let mut router: Router<Handler> = Router::new();
    router.register("failing".to_string(), |_| Err("boom".to_string()));
    let err = router.route("failing", "()").unwrap_err();
    assert_eq!(err, "Error executing tool: failing: boom");
}

#[test]
fn router_reregistration_shadows() {
    let mut router: Router<Handler> = Router::new();
    router.register("t".to_string(), |_| Ok("old".to_string()));
    router.register("t".to_string(), |_| Ok("new".to_string()));
    assert_eq!(router.route("t", "()").unwrap(), "new");
    assert_eq!(router.tool_names().len(), 1);
}

#[test]
fn route_result_constructors() {
    let r = RouteResult::new("(success)".to_string());
    assert_eq!(r.response, "(success)");
    assert!(r.progress_event.is_none());

    let r = RouteResult::with_progress("(success)".to_string(), "tool".to_string(), "ctx".to_string());
    let e = r.progress_event.unwrap();
    assert_eq!(e.tool_name, "tool");
    assert_eq!(e.context, "ctx");
}

#[test]
fn command_parse_variants() {
    assert_eq!(Command::parse(""), Command::Empty);
    assert_eq!(Command::parse("   "), Command::Empty);
    assert_eq!(Command::parse("help"), Command::Help);
    assert_eq!(Command::parse("HELP"), Command::Help);
    assert_eq!(Command::parse("  show   ALL  "), Command::ShowAll);
    assert_eq!(Command::parse("show"), Command::Unknown("show".to_string()));
    assert_eq!(Command::parse("  what now "), Command::Unknown("what now".to_string()));
}

#[test]
fn command_help_text() {
    assert_eq!(Command::help_text(), "Commands:\nhelp\nshow all\n");
}

#[test]
fn default_history_paths() {
    assert_eq!(default_history_path(HistoryKind::Repl), ".mcp-repl.history");
    assert_eq!(default_history_path(HistoryKind::LogViewer), ".mcp-log-viewer.history");
}

#[test]
fn render_show_all_rows() {
    let rows = vec![
        SnapshotRow {
            internal_id: "id1".to_string(),
            updated_at: "100".to_string(),
            event: "started".to_string(),
            snapshot_text: "first snapshot\n".to_string(),
        },
        SnapshotRow {
            internal_id: "id2".to_string(),
            updated_at: "90".to_string(),
            event: "done".to_string(),
            snapshot_text: "no trailing newline".to_string(),
        },
    ];
    let out = render_show_all(&rows);
    assert_eq!(
        out,
        "== id1 100 started ==\nfirst snapshot\n== id2 90 done ==\nno trailing newline\n"
    );
}

#[test]
fn render_show_all_empty() {
    assert_eq!(render_show_all(&vec![]), "");
}
