use mcp_tools::markdown::extract_section;
use mcp_tools::markdown::extract_sections;
use mcp_tools::markdown::MarkdownError;

#[test]
fn test_extract_section() {
    let content = "# Heading 1\nContent 1\n\n## Heading 2\nContent 2\n\n### Heading 3\nContent 3\n\n## Heading 4\nContent 4\n";

    let result = extract_section(content, "## Heading 2").unwrap();
    assert!(result.contains("## Heading 2"));
    assert!(result.contains("Content 2"));
    assert!(result.contains("### Heading 3"));
    assert!(!result.contains("## Heading 4"));
}

#[test]
fn test_extract_section_not_found() {
    let content = "# Heading 1\nContent";
    let result = extract_section(content, "## Nonexistent");
    assert!(result.is_err());
}

#[test]
fn test_extract_multiple_sections() {
    let content = "# Heading 1\nContent 1\n\n## Heading 2\nContent 2\n\n## Heading 3\nContent 3\n";

    let sections = vec!["## Heading 2".to_string(), "## Heading 3".to_string()];
    let result = extract_sections(content, &sections).unwrap();

    assert!(result.contains("## Heading 2"));
    assert!(result.contains("Content 2"));
    assert!(result.contains("## Heading 3"));
    assert!(result.contains("Content 3"));
}

#[test]
fn test_extract_top_level_section() {
    let content = "# Heading 1\nContent 1\n\n# Heading 2\nContent 2\n";

    let result = extract_section(content, "# Heading 1").unwrap();
    assert!(result.contains("# Heading 1"));
    assert!(result.contains("Content 1"));
    assert!(!result.contains("# Heading 2"));
}

#[test]
fn extract_section_exact_text() {
    let content = "## A\nline one\nline two\n\n## B\nother\n";
    let result = extract_section(content, "## A").unwrap();
    assert_eq!(result, "## A\nline one\nline two\n");
}

#[test]
fn extract_section_runs_to_end_of_file() {
    let content = "## A\nfirst\n\n## B\nlast section\nno trailing newline";
    let result = extract_section(content, "## B").unwrap();
    assert_eq!(result, "## B\nlast section\nno trailing newline");
}

#[test]
fn extract_section_matches_trimmed_heading() {
    let content = "  ## Padded  \nbody\n## Next\n";
    let result = extract_section(content, "## Padded").unwrap();
    assert!(result.contains("body"));
    assert!(!result.contains("Next"));
}

#[test]
fn extract_sections_reports_first_missing_heading() {
    let content = "## A\na\n";
    let sections = vec!["## A".to_string(), "## Missing".to_string()];
    let err = extract_sections(content, &sections).unwrap_err();
    assert_eq!(err, MarkdownError::SectionNotFound("## Missing".to_string()));
    assert_eq!(err.message(), "Section not found: ## Missing");
}

#[test]
fn extract_sections_joins_with_blank_line() {
    let content = "## A\none\n## B\ntwo\n";
    let sections = vec!["## A".to_string(), "## B".to_string()];
    let result = extract_sections(content, &sections).unwrap();
    assert_eq!(result, "## A\none\n\n## B\ntwo");
}

#[test]
fn extract_sections_empty_request_is_empty() {
    let result = extract_sections("anything", &vec![]).unwrap();
    assert_eq!(result, "");
}

#[test]
fn lower_level_heading_does_not_end_section() {
    let content = "# Top\nbody\n### Deep\ndeep body\n# Next\n";
    let result = extract_section(content, "# Top").unwrap();
    assert!(result.contains("### Deep"));
    assert!(result.contains("deep body"));
    assert!(!result.contains("# Next"));
}

#[test]
fn crlf_lines_are_handled() {
    let content = "## A\r\nbody line\r\n## B\r\nother\r\n";
    let result = extract_section(content, "## A").unwrap();
    assert_eq!(result, "## A\nbody line");
}
