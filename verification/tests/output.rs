//! Text output: JSON documents, log lines, formatting helpers, subjects.

use mcp_hack::chars::{i64_to_string, parse_i64, trim_str, u64_to_string};
use mcp_hack::jsonout::{
    arg_value_json, arguments_json, error_json, fuzz_error_json, json_escape, json_kv,
    json_kv_raw, json_obj, json_opt_str, list_note_json, list_tools_json, placeholder_json,
    tool_not_found_json,
};
use mcp_hack::logging::{derive_level, info, init_logging, set_log_level, LogConfig, LogLevel};
use mcp_hack::schema::{ArgValue, ToolDescriptor};
use mcp_hack::style::{
    box_header, color, display_width, emoji, pad_or_truncate, strip_ansi, table,
    truncate_ellipsis, wrap_text, BoxStyle, Role, StyleOptions, TableOpts,
};
use mcp_hack::subject::Subject;

#[test]
fn test_wrap_text() {
    let lines = wrap_text("hello world from formatting", 10);
    assert!(lines.len() >= 2);
}

#[test]
fn test_truncate() {
    let s = truncate_ellipsis("abcdef", 4);
    assert_eq!(s, "abc\u{2026}");
}

#[test]
fn test_strip_ansi() {
    let colored = "\x1b[31mRED\x1b[0m";
    let plain = strip_ansi(colored);
    assert_eq!(plain, "RED");
}

#[test]
fn test_box_header_basic() {
    let style = StyleOptions::plain();
    let b = box_header("Title", Some("sub info"), &style);
    assert!(b.contains("Title"));
}

#[test]
fn test_table_basic() {
    let style = StyleOptions::plain();
    let headers = vec!["A".to_string(), "B".to_string()];
    let rows = vec![
        vec!["x".to_string(), "y".to_string()],
        vec!["longer".to_string(), "val".to_string()],
    ];
    let t = table(&headers, &rows, &TableOpts::default(), &style);
    assert!(t.contains("A"));
    assert!(t.contains("longer"));
}

#[test]
fn color_wraps_and_respects_flag() {
    let mut style = StyleOptions::plain();
    let c = color(Role::Error, "boom", &style);
    assert_eq!(c, "\x1b[38;5;196mboom\x1b[0m");
    style.use_color = false;
    assert_eq!(color(Role::Error, "boom", &style), "boom");
}

#[test]
fn emoji_respects_flag() {
    let mut style = StyleOptions::plain();
    assert_eq!(emoji("success", &style), "\u{2714}");
    assert_eq!(emoji("unknown-tag", &style), "");
    style.use_emoji = false;
    assert_eq!(emoji("success", &style), "");
}

#[test]
fn display_width_ignores_ansi() {
    assert_eq!(display_width("\x1b[31mRED\x1b[0m"), 3);
    assert_eq!(display_width("RED"), 3);
}

#[test]
fn pad_or_truncate_pads_short_cells() {
    assert_eq!(pad_or_truncate("ab", 4, true), "ab  ");
    assert_eq!(pad_or_truncate("abcd", 4, true), "abcd");
    assert_eq!(pad_or_truncate("abcdef", 4, false), "abcdef");
}

#[test]
fn box_header_corners_match_style() {
    let style = StyleOptions::plain();
    let b = box_header("T", None, &style);
    assert!(b.starts_with('\u{250c}'));
    assert!(b.ends_with('\u{2518}'));
    let mut rounded = StyleOptions::plain();
    rounded.box_style = BoxStyle::Rounded;
    let b2 = box_header("T", None, &rounded);
    assert!(b2.starts_with('\u{256d}'));
    assert!(b2.ends_with('\u{256f}'));
}

#[test]
fn numbers_render_exactly() {
    assert_eq!(u64_to_string(0), "0");
    assert_eq!(u64_to_string(90210), "90210");
    assert_eq!(i64_to_string(-42), "-42");
    assert_eq!(i64_to_string(i64::MIN), "-9223372036854775808");
}

#[test]
fn parse_i64_matches_grammar() {
    assert_eq!(parse_i64("42"), Some(42));
    assert_eq!(parse_i64("-7"), Some(-7));
    assert_eq!(parse_i64("+7"), Some(7));
    assert_eq!(parse_i64(""), None);
    assert_eq!(parse_i64(" 42"), None);
    assert_eq!(parse_i64("4 2"), None);
    assert_eq!(parse_i64("-"), None);
}

#[test]
fn trim_str_strips_ascii_whitespace() {
    assert_eq!(trim_str("  a b \t\r\n"), "a b");
    assert_eq!(trim_str(""), "");
    assert_eq!(trim_str(" \t "), "");
}

#[test]
fn json_escape_handles_specials() {
    assert_eq!(json_escape(r#"a"b\c"#), r#"a\"b\\c"#);
    assert_eq!(json_escape("x\ny\r\t"), "x\\ny\\r\\t");
    assert_eq!(json_escape("\u{1}"), "\\u0001");
    assert_eq!(json_escape("plain"), "plain");
}

#[test]
fn json_helpers_compose() {
    assert_eq!(json_kv("k", "v"), r#""k":"v""#);
    assert_eq!(json_kv_raw("n", "42"), r#""n":42"#);
    assert_eq!(json_opt_str(Some("s")), r#""s""#);
    assert_eq!(json_opt_str(None), "null");
    let fields = vec![json_kv("a", "1"), json_kv_raw("b", "2")];
    assert_eq!(json_obj(&fields), r#"{"a":"1","b":2}"#);
}

#[test]
fn error_document_shape() {
    assert_eq!(error_json("boom"), r#"{"status":"error","error":"boom"}"#);
}

#[test]
fn argument_values_render_as_json() {
    assert_eq!(arg_value_json(&ArgValue::Str("s".to_string())), r#""s""#);
    assert_eq!(arg_value_json(&ArgValue::Int(-3)), "-3");
    assert_eq!(arg_value_json(&ArgValue::Bool(true)), "true");
    assert_eq!(arg_value_json(&ArgValue::Num("1.5".to_string())), "1.5");
    assert_eq!(
        arg_value_json(&ArgValue::Arr(vec!["a".to_string(), "b".to_string()])),
        r#"["a","b"]"#
    );
    let args = vec![
        ("id".to_string(), ArgValue::Int(10)),
        ("flag".to_string(), ArgValue::Bool(false)),
    ];
    assert_eq!(arguments_json(&args), r#"{"id":10,"flag":false}"#);
}

#[test]
fn listing_documents_shape() {
    let tools = vec![ToolDescriptor {
        name: "alpha".to_string(),
        description: Some("does things".to_string()),
        schema: None,
    }];
    let doc = list_tools_json("srv", 12, &tools);
    assert_eq!(
        doc,
        r#"{"status":"ok","subject":"tools","target":"srv","elapsed_ms":12,"count":1,"tools":[{"name":"alpha","description":"does things"}]}"#
    );
    let none = list_note_json(None, "no target specified; use --target or MCP_TARGET");
    assert!(none.contains(r#""target":null"#));
    assert!(none.contains(r#""count":0"#));
    let ph = placeholder_json("resources", "listing for this subject not implemented yet");
    assert!(ph.contains(r#""subject":"resources""#));
    assert!(ph.contains(r#""items":[]"#));
}

#[test]
fn fuzz_and_not_found_documents_shape() {
    let rec = fuzz_error_json(1, 3, "two", "boom");
    assert_eq!(
        rec,
        r#"{"status":"error","request_index":1,"total_requests":3,"word":"two","error":"boom"}"#
    );
    let nf = tool_not_found_json("ghost", "srv");
    assert!(nf.contains(r#""error":"tool not found""#));
    assert!(nf.contains(r#""requested":"ghost""#));
}

#[test]
fn log_lines_and_levels() {
    assert_eq!(derive_level(0, false), LogLevel::Info);
    assert_eq!(derive_level(1, false), LogLevel::Debug);
    assert_eq!(derive_level(5, false), LogLevel::Trace);
    assert_eq!(derive_level(5, true), LogLevel::Error);
    let mut config: LogConfig = init_logging(LogLevel::Info);
    assert_eq!(info(&config, 123, "hello").unwrap(), "[INFO][123] hello");
    set_log_level(&mut config, LogLevel::Error);
    assert_eq!(info(&config, 123, "hello"), None);
    assert_eq!(LogLevel::Debug.as_str(), "DEBUG");
}

#[test]
fn parse_case_insensitive() {
    assert_eq!(Subject::from_str_ci("TOOLS"), Some(Subject::Tools));
    assert_eq!(Subject::from_str_ci("tool"), Some(Subject::Tool));
    assert_eq!(Subject::from_str_ci(" Resources "), Some(Subject::Resources));
    assert_eq!(Subject::from_str_ci("prompts"), Some(Subject::Prompts));
    assert_eq!(Subject::from_str_ci("unknown"), None);
}

#[test]
fn implemented_flags() {
    assert!(Subject::Tools.is_implemented());
    assert!(Subject::Tool.is_implemented());
    assert!(!Subject::Resources.is_implemented());
    assert!(!Subject::Prompts.is_implemented());
}

#[test]
fn singular_helper() {
    assert!(Subject::Tool.is_singular_tool());
    assert!(!Subject::Tools.is_singular_tool());
}

#[test]
fn display_output() {
    assert_eq!(Subject::Tools.as_str(), "tools");
    assert_eq!(Subject::Tool.as_str(), "tool");
}

#[test]
fn subject_variants_order() {
    assert_eq!(
        Subject::variants(),
        vec![Subject::Tools, Subject::Tool, Subject::Resources, Subject::Prompts]
    );
}
