//! Coercion engine and argument building.

use mcp_hack::schema::{
    build_arguments_from_schema, coerce_value, ArgValue, BuildError, SchemaProperty,
    ToolDescriptor, ToolSchema,
};
use mcp_hack::cli::missing_required_message;
use mcp_hack::params::ParamMap;

fn prop(name: &str, ptype: Option<&str>, desc: Option<&str>) -> SchemaProperty {
    SchemaProperty {
        name: name.to_string(),
        ptype: ptype.map(|t| t.to_string()),
        description: desc.map(|d| d.to_string()),
    }
}

fn demo_tool() -> ToolDescriptor {
    ToolDescriptor {
        name: "demo".to_string(),
        description: None,
        schema: Some(ToolSchema {
            properties: vec![
                prop("id", Some("integer"), Some("identifier")),
                prop("flag", Some("boolean"), None),
                prop("tags", Some("array"), None),
            ],
            required: vec!["id".to_string()],
        }),
    }
}

fn get<'a>(args: &'a [(String, ArgValue)], key: &str) -> Option<&'a ArgValue> {
    args.iter().find(|e| e.0 == key).map(|e| &e.1)
}

#[test]
fn coerce_value_integer_ok() {
    assert_eq!(coerce_value("5", "integer"), ArgValue::Int(5));
}

#[test]
fn coerce_value_bool_ok() {
    assert_eq!(coerce_value("yes", "boolean"), ArgValue::Bool(true));
    assert_eq!(coerce_value("No", "boolean"), ArgValue::Bool(false));
}

#[test]
fn coerce_integer() {
    assert_eq!(coerce_value("42", "integer"), ArgValue::Int(42));
    assert_eq!(
        coerce_value("x42", "integer"),
        ArgValue::Str("x42".to_string()),
        "invalid integer remains string"
    );
}

#[test]
fn coerce_boolean() {
    assert_eq!(coerce_value("true", "boolean"), ArgValue::Bool(true));
    assert_eq!(coerce_value("No", "boolean"), ArgValue::Bool(false));
    assert_eq!(coerce_value("maybe", "boolean"), ArgValue::Str("maybe".to_string()));
}

#[test]
fn coerce_boolean_case_insensitive_vocabulary() {
    assert_eq!(coerce_value("True", "boolean"), ArgValue::Bool(true));
    assert_eq!(coerce_value("YES", "boolean"), ArgValue::Bool(true));
    assert_eq!(coerce_value("y", "boolean"), ArgValue::Bool(true));
    assert_eq!(coerce_value("1", "boolean"), ArgValue::Bool(true));
    assert_eq!(coerce_value("FALSE", "boolean"), ArgValue::Bool(false));
    assert_eq!(coerce_value("n", "boolean"), ArgValue::Bool(false));
    assert_eq!(coerce_value("0", "boolean"), ArgValue::Bool(false));
}

#[test]
fn coerce_array() {
    assert_eq!(
        coerce_value("a,b, c", "array"),
        ArgValue::Arr(vec!["a".to_string(), "b".to_string(), "c".to_string()]),
        "comma splitting with trimming"
    );
}

#[test]
fn coerce_number_keeps_finite_text() {
    assert_eq!(coerce_value("1.5", "number"), ArgValue::Num("1.5".to_string()));
    assert_eq!(coerce_value("abc", "number"), ArgValue::Str("abc".to_string()));
    assert_eq!(coerce_value("nan", "number"), ArgValue::Str("nan".to_string()));
}

#[test]
fn coerce_unknown_hint_passes_through() {
    assert_eq!(coerce_value("zzz", "object"), ArgValue::Str("zzz".to_string()));
}

#[test]
fn coerce_integer_extremes() {
    assert_eq!(
        coerce_value("9223372036854775807", "integer"),
        ArgValue::Int(9223372036854775807)
    );
    assert_eq!(
        coerce_value("-9223372036854775808", "integer"),
        ArgValue::Int(i64::MIN)
    );
    assert_eq!(
        coerce_value("9223372036854775808", "integer"),
        ArgValue::Str("9223372036854775808".to_string())
    );
    assert_eq!(coerce_value("+7", "integer"), ArgValue::Int(7));
}

#[test]
fn build_arguments_basic() {
    let tool = demo_tool();
    let mut provided = ParamMap::new();
    provided.insert("id".to_string(), "10".to_string());
    provided.insert("flag".to_string(), "yes".to_string());
    provided.insert("tags".to_string(), "alpha,beta".to_string());
    let args = build_arguments_from_schema(&tool, &provided).unwrap();
    assert_eq!(get(&args, "id"), Some(&ArgValue::Int(10)));
    assert_eq!(get(&args, "flag"), Some(&ArgValue::Bool(true)));
    assert_eq!(
        get(&args, "tags"),
        Some(&ArgValue::Arr(vec!["alpha".to_string(), "beta".to_string()]))
    );
}

#[test]
fn build_arguments_missing_required() {
    let tool = ToolDescriptor {
        name: "demo".to_string(),
        description: None,
        schema: Some(ToolSchema {
            properties: vec![prop("id", Some("integer"), None)],
            required: vec!["id".to_string()],
        }),
    };
    let provided = ParamMap::new();
    let err = build_arguments_from_schema(&tool, &provided).unwrap_err();
    let BuildError::MissingRequired(name) = err;
    assert!(
        missing_required_message(&name).contains("missing required parameter"),
        "expected required parameter error"
    );
    assert_eq!(name, "id");
}

#[test]
fn build_arguments_required_supplied_succeeds() {
    let tool = ToolDescriptor {
        name: "demo".to_string(),
        description: None,
        schema: Some(ToolSchema {
            properties: vec![prop("id", Some("integer"), None)],
            required: vec!["id".to_string()],
        }),
    };
    let mut provided = ParamMap::new();
    provided.insert("id".to_string(), "10".to_string());
    let args = build_arguments_from_schema(&tool, &provided).unwrap();
    assert_eq!(args.len(), 1);
    assert_eq!(get(&args, "id"), Some(&ArgValue::Int(10)));
}

#[test]
fn build_arguments_extras_pass_through() {
    let tool = demo_tool();
    let mut provided = ParamMap::new();
    provided.insert("id".to_string(), "10".to_string());
    provided.insert("mystery".to_string(), "7".to_string());
    let args = build_arguments_from_schema(&tool, &provided).unwrap();
    assert_eq!(get(&args, "mystery"), Some(&ArgValue::Str("7".to_string())));
}

#[test]
fn build_arguments_without_schema_passes_strings() {
    let tool = ToolDescriptor { name: "bare".to_string(), description: None, schema: None };
    let mut provided = ParamMap::new();
    provided.insert("a".to_string(), "1".to_string());
    let args = build_arguments_from_schema(&tool, &provided).unwrap();
    assert_eq!(get(&args, "a"), Some(&ArgValue::Str("1".to_string())));
}
