use mcp_tools::dequote;
use mcp_tools::parse_str_list;
use mcp_tools::parse_text_ref;
use mcp_tools::parse_value;
use mcp_tools::quote_str;
use mcp_tools::render_text_ref;
use mcp_tools::require_kw_str;
use mcp_tools::get_kw_str;
use mcp_tools::get_kw_value;
use mcp_tools::TextRef;
use mcp_tools::Value;
use mcp_tools::parse::ParseError;

#[test]
fn parse_value_parses() {
    let v = parse_value("(tool :a \"b\")").unwrap();
    assert!(matches!(v, Value::Cons(_, _)));
}

#[test]
fn kw_extraction_string() {
    let v = parse_value("(tool :name \"abc\")").unwrap();
    assert_eq!(require_kw_str(&v, "name").unwrap(), "abc");
    assert_eq!(get_kw_str(&v, "missing").unwrap(), None);
}

#[test]
fn kw_extraction_wrong_type() {
    let v = parse_value("(tool :name (x))").unwrap();
    assert!(get_kw_str(&v, "name").is_err());
}

#[test]
fn parse_str_list_ok() {
    let v = parse_value("(\"a\" \"b\")").unwrap();
    assert_eq!(parse_str_list(&v).unwrap(), vec!["a", "b"]);
}

#[test]
fn text_ref_literal_and_use() {
    let lit = parse_value("\"hello\"").unwrap();
    assert_eq!(parse_text_ref(&lit).unwrap(), TextRef::Literal("hello".to_string()));

    let usev = parse_value("(use \"docs/guide.md\")").unwrap();
    assert_eq!(parse_text_ref(&usev).unwrap(), TextRef::UsePath("docs/guide.md".to_string()));

    let rendered = render_text_ref(&TextRef::UsePath("x".to_string()));
    assert_eq!(rendered, "(use \"x\")");
}

#[test]
fn quote_str_escapes() {
    assert_eq!(quote_str("a\"b"), "\"a\\\"b\"");
    assert_eq!(quote_str("a\\b"), "\"a\\\\b\"");
    assert_eq!(quote_str("a\nb"), "\"a\\nb\"");
}

#[test]
fn quote_round_trips_plain_and_special() {
    for s in ["", "hello", "a\"b", "a\\b", "a\nb", "mix \\ \" \n end", "unicode: \u{00e9}\u{3042}"] {
        let q = quote_str(s);
        assert_eq!(dequote(&q).unwrap(), s);
    }
}

#[test]
fn dequote_rejects_malformed() {
    assert_eq!(dequote("hello"), None);
    assert_eq!(dequote("\"unterminated"), None);
    assert_eq!(dequote("\"bad \\x escape\""), None);
    assert_eq!(dequote("\"a\" trailing"), None);
    assert_eq!(dequote(""), None);
}

#[test]
fn text_ref_round_trips_through_parser() {
    let refs = vec![
        TextRef::Literal("plain".to_string()),
        TextRef::Literal("with \"quotes\" and \\slashes\\ and\nnewlines".to_string()),
        TextRef::UsePath("docs/guide.md".to_string()),
        TextRef::UsePath("weird )path( with \"quotes\"".to_string()),
    ];
    for r in refs {
        let rendered = render_text_ref(&r);
        let parsed = parse_value(&rendered).unwrap();
        assert_eq!(parse_text_ref(&parsed).unwrap(), r);
    }
}

#[test]
fn parse_atoms() {
    assert_eq!(parse_value("42").unwrap(), Value::Int(42));
    assert_eq!(parse_value("-7").unwrap(), Value::Int(-7));
    assert_eq!(parse_value("#t").unwrap(), Value::Bool(true));
    assert_eq!(parse_value("#f").unwrap(), Value::Bool(false));
    assert_eq!(parse_value("sym").unwrap(), Value::Sym("sym".to_string()));
    assert_eq!(parse_value("\"str\"").unwrap(), Value::Str("str".to_string()));
    assert_eq!(parse_value("()").unwrap(), Value::Nil);
}

#[test]
fn parse_integer_ranges() {
    assert_eq!(parse_value("9223372036854775807").unwrap(), Value::Int(i64::MAX));
    assert_eq!(parse_value("-9223372036854775808").unwrap(), Value::Int(i64::MIN));
    assert_eq!(
        parse_value("9223372036854775808").unwrap(),
        Value::Uint(9223372036854775808u64)
    );
    assert_eq!(parse_value("18446744073709551615").unwrap(), Value::Uint(u64::MAX));
    assert_eq!(
        parse_value("18446744073709551616").unwrap_err(),
        ParseError::IntegerOverflow
    );
    assert_eq!(
        parse_value("-9223372036854775809").unwrap_err(),
        ParseError::IntegerOverflow
    );
}

#[test]
fn parse_error_cases() {
    assert_eq!(parse_value("").unwrap_err(), ParseError::EmptyInput);
    assert_eq!(parse_value("   ").unwrap_err(), ParseError::EmptyInput);
    assert_eq!(parse_value("(a").unwrap_err(), ParseError::UnterminatedList);
    assert_eq!(parse_value(")").unwrap_err(), ParseError::UnexpectedCloseParen);
    assert_eq!(parse_value("(a) b").unwrap_err(), ParseError::TrailingInput);
    assert_eq!(parse_value("\"abc").unwrap_err(), ParseError::UnterminatedString);
    assert_eq!(parse_value("\"a\\qb\"").unwrap_err(), ParseError::BadEscape);
    assert_eq!(parse_value("#x").unwrap_err(), ParseError::InvalidAtom);
    assert_eq!(parse_value("12a").unwrap_err(), ParseError::InvalidAtom);
}

#[test]
fn parse_nested_lists_and_whitespace() {
    let v = parse_value("  ( a ( b \"c\" ) 3 )  ").unwrap();
    let items = mcp_tools::iter_list(&v).unwrap();
    assert_eq!(items.len(), 3);
    assert_eq!(items[0], Value::Sym("a".to_string()));
    assert_eq!(items[2], Value::Int(3));
    let inner = mcp_tools::iter_list(&items[1]).unwrap();
    assert_eq!(inner, vec![Value::Sym("b".to_string()), Value::Str("c".to_string())]);
}

#[test]
fn duplicate_keyword_first_occurrence_wins() {
    let v = parse_value("(tool :a 1 :a 2)").unwrap();
    let got = get_kw_value(&v, "a").unwrap();
    assert_eq!(got, Some(Value::Int(1)));
}

#[test]
fn keyword_after_missing_value_is_malformed() {
    let v = parse_value("(tool :a)").unwrap();
    let err = get_kw_value(&v, "a").unwrap_err();
    assert_eq!(err.message(), "expected value after keyword :a");
}

#[test]
fn non_list_root_is_shape_error() {
    let v = parse_value("42").unwrap();
    let err = get_kw_value(&v, "a").unwrap_err();
    assert_eq!(err.message(), "expected list (tool call form)");
}

#[test]
fn walk_stops_at_first_non_keyword_head() {
    // Positional arguments after the keyword region are not scanned.
    let v = parse_value("(tool :a 1 \"positional\" :b 2)").unwrap();
    assert_eq!(get_kw_value(&v, "a").unwrap(), Some(Value::Int(1)));
    assert_eq!(get_kw_value(&v, "b").unwrap(), None);
}

#[test]
fn text_ref_shape_errors() {
    let not_use = parse_value("(load \"p\")").unwrap();
    assert!(parse_text_ref(&not_use).is_err());
    let no_arg = parse_value("(use)").unwrap();
    assert!(parse_text_ref(&no_arg).is_err());
    let bad_arg = parse_value("(use 42)").unwrap();
    assert!(parse_text_ref(&bad_arg).is_err());
    let extra = parse_value("(use \"p\" \"q\")").unwrap();
    assert!(parse_text_ref(&extra).is_err());
    let int_root = parse_value("7").unwrap();
    assert_eq!(
        parse_text_ref(&int_root).unwrap_err().message(),
        "expected string or (use \"path\")"
    );
}
