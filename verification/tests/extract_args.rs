use mcp_tools::extract::extract_string_list;
use mcp_tools::extract::get_bool;
use mcp_tools::extract::get_int;
use mcp_tools::extract::get_string;
use mcp_tools::extract::get_uint;
use mcp_tools::extract::get_value;
use mcp_tools::extract::require_string;
use mcp_tools::extract::require_value;
use mcp_tools::extract::ExtractError;
use mcp_tools::parse::parse_tool_call;
use mcp_tools::Value;

#[test]
fn test_parse_tool_call() {
    let value = parse_tool_call("(tool :arg \"value\")").unwrap();
    assert!(matches!(value, Value::Cons(_, _)));
}

#[test]
fn test_require_string() {
    let value = parse_tool_call("(tool :name \"test\")").unwrap();
    assert_eq!(require_string(&value, "name").unwrap(), "test");
    assert!(require_string(&value, "missing").is_err());
}

#[test]
fn test_get_string() {
    let value = parse_tool_call("(tool :name \"test\")").unwrap();
    assert_eq!(get_string(&value, "name").unwrap(), Some("test".to_string()));
    assert_eq!(get_string(&value, "missing").unwrap(), None);
}

#[test]
fn test_get_bool() {
    let value = parse_tool_call("(tool :enabled true :disabled false)").unwrap();
    assert_eq!(get_bool(&value, "enabled").unwrap(), Some(true));
    assert_eq!(get_bool(&value, "disabled").unwrap(), Some(false));
    assert_eq!(get_bool(&value, "missing").unwrap(), None);
}

#[test]
fn test_get_int() {
    let value = parse_tool_call("(tool :count 42)").unwrap();
    assert_eq!(get_int(&value, "count").unwrap(), Some(42));
    assert_eq!(get_int(&value, "missing").unwrap(), None);
}

#[test]
fn test_get_uint() {
    let value = parse_tool_call("(tool :limit 100)").unwrap();
    assert_eq!(get_uint(&value, "limit").unwrap(), Some(100));
}

#[test]
fn test_extract_string_list() {
    let value = parse_tool_call("(tool :items (\"a\" \"b\" \"c\"))").unwrap();
    let items_value = require_value(&value, "items").unwrap();
    let items = extract_string_list(&items_value).unwrap();
    assert_eq!(items, vec!["a", "b", "c"]);
}

#[test]
fn bool_accepts_native_and_string_spellings() {
    let v = parse_tool_call("(t :a true :b false :c \"true\" :d \"false\" :e #t :f #f)").unwrap();
    assert_eq!(get_bool(&v, "a").unwrap(), Some(true));
    assert_eq!(get_bool(&v, "b").unwrap(), Some(false));
    assert_eq!(get_bool(&v, "c").unwrap(), Some(true));
    assert_eq!(get_bool(&v, "d").unwrap(), Some(false));
    assert_eq!(get_bool(&v, "e").unwrap(), Some(true));
    assert_eq!(get_bool(&v, "f").unwrap(), Some(false));
}

#[test]
fn bool_rejects_other_representations() {
    let v = parse_tool_call("(t :n 1 :s \"yes\" :m maybe)").unwrap();
    assert!(get_bool(&v, "n").is_err());
    assert!(get_bool(&v, "s").is_err());
    assert!(get_bool(&v, "m").is_err());
    assert_eq!(
        get_bool(&v, "n").unwrap_err().message(),
        ":n must be a boolean (true/false)"
    );
}

#[test]
fn int_accepts_string_digits() {
    let v = parse_tool_call("(tool :n \"42\")").unwrap();
    assert_eq!(get_int(&v, "n").unwrap(), Some(42));
}

#[test]
fn int_rejects_non_numeric_string() {
    let v = parse_tool_call("(tool :n \"abc\")").unwrap();
    let err = get_int(&v, "n").unwrap_err();
    assert_eq!(err.message(), ":n must be an integer");
}

#[test]
fn int_accepts_negative_and_signed_strings() {
    let v = parse_tool_call("(tool :a -5 :b \"-17\" :c \"+3\")").unwrap();
    assert_eq!(get_int(&v, "a").unwrap(), Some(-5));
    assert_eq!(get_int(&v, "b").unwrap(), Some(-17));
    assert_eq!(get_int(&v, "c").unwrap(), Some(3));
}

#[test]
fn int_rejects_unsigned_above_signed_range() {
    let v = parse_tool_call("(tool :n 9223372036854775808)").unwrap();
    assert!(get_int(&v, "n").is_err());
    let v2 = parse_tool_call("(tool :n 9223372036854775807)").unwrap();
    assert_eq!(get_int(&v2, "n").unwrap(), Some(i64::MAX));
}

#[test]
fn uint_rejects_negative() {
    let v = parse_tool_call("(tool :n -1)").unwrap();
    let err = get_uint(&v, "n").unwrap_err();
    assert_eq!(err.message(), ":n must be a non-negative integer");
}

#[test]
fn string_list_rejects_non_string_items() {
    let v = parse_tool_call("(tool :items (1 2))").unwrap();
    let items_value = require_value(&v, "items").unwrap();
    let err = extract_string_list(&items_value).unwrap_err();
    assert_eq!(err, ExtractError::NotAStringItem);
}

#[test]
fn string_list_rejects_non_list() {
    let err = extract_string_list(&Value::Str("abc".to_string())).unwrap_err();
    assert_eq!(err, ExtractError::NotAProperList);
}

#[test]
fn string_list_of_nil_is_empty() {
    assert_eq!(extract_string_list(&Value::Nil).unwrap(), Vec::<String>::new());
}

#[test]
fn missing_required_and_optional_disagree_only_on_absence() {
    let v = parse_tool_call("(tool :other \"x\")").unwrap();
    let err = require_string(&v, "name").unwrap_err();
    assert_eq!(err.message(), "missing required keyword :name");
    assert_eq!(get_string(&v, "name").unwrap(), None);
}

#[test]
fn wrong_type_for_present_keyword_is_error_for_both() {
    let v = parse_tool_call("(tool :name 42)").unwrap();
    assert!(require_string(&v, "name").is_err());
    assert!(get_string(&v, "name").is_err());
    assert_eq!(get_string(&v, "name").unwrap_err().message(), ":name must be a string");
}

#[test]
fn raw_value_accessors() {
    let v = parse_tool_call("(tool :data (x 1))").unwrap();
    let raw = require_value(&v, "data").unwrap();
    assert!(matches!(raw, Value::Cons(_, _)));
    assert!(get_value(&v, "data").unwrap().is_some());
    assert!(get_value(&v, "missing").unwrap().is_none());
    assert!(require_value(&v, "missing").is_err());
}

#[test]
fn end_to_end_extraction() {
    let v = parse_tool_call("(my-tool :name \"example\" :count 42 :enabled true)").unwrap();
    assert_eq!(require_string(&v, "name").unwrap(), "example");
    assert_eq!(get_int(&v, "count").unwrap(), Some(42));
    assert_eq!(get_bool(&v, "enabled").unwrap(), Some(true));
    assert_eq!(get_string(&v, "missing").unwrap(), None);
}

#[test]
fn keyword_spellings_normalize_alike() {
    // A symbol with the leading marker and a plain symbol both name the
    // same keyword.
    let v = parse_tool_call("(tool :key \"a\")").unwrap();
    assert_eq!(get_string(&v, "key").unwrap(), Some("a".to_string()));
}
