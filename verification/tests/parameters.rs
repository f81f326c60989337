//! Parameter collection and merging.

use mcp_hack::params::{
    collect_params, merge_param_file_content, param_file_is_yaml, split_param_token, ParamMap,
    ParamTokenError,
};

#[test]
fn param_file_json_merge() {
    let mut provided = ParamMap::new();
    provided.insert("b".to_string(), "override".to_string());
    merge_param_file_content(&mut provided, r#"{ "a": 1, "b": "x" }"#, false).unwrap();
    assert_eq!(provided.get("a").unwrap(), "1");
    assert_eq!(provided.get("b").unwrap(), "override");
}

#[test]
fn param_file_yaml_merge() {
    let mut provided = ParamMap::new();
    provided.insert("b".to_string(), "override".to_string());
    merge_param_file_content(&mut provided, "a: 1\nb: x\n", true).unwrap();
    assert_eq!(provided.get("a").unwrap(), "1");
    assert_eq!(provided.get("b").unwrap(), "override");
}

#[test]
fn param_file_rejects_non_object_root() {
    let mut provided = ParamMap::new();
    let err = merge_param_file_content(&mut provided, "[1,2]", false).unwrap_err();
    assert!(err.message().contains("object"));
    let err2 = merge_param_file_content(&mut provided, "{ not json", false).unwrap_err();
    assert!(err2.message().contains("parse"));
}

#[test]
fn param_file_extension_detection() {
    assert!(param_file_is_yaml("params.yaml"));
    assert!(param_file_is_yaml("params.YML"));
    assert!(param_file_is_yaml("a/b/C.YaMl"));
    assert!(!param_file_is_yaml("params.json"));
    assert!(!param_file_is_yaml("yaml"));
}

#[test]
fn split_param_token_trims_key_and_value() {
    let (k, v) = split_param_token(" url = https://x ").unwrap();
    assert_eq!(k, "url");
    assert_eq!(v, "https://x");
}

#[test]
fn split_param_token_first_equals_wins() {
    let (k, v) = split_param_token("a=b=c").unwrap();
    assert_eq!(k, "a");
    assert_eq!(v, "b=c");
}

#[test]
fn split_param_token_errors() {
    assert_eq!(split_param_token("novalue").unwrap_err(), ParamTokenError::MissingEquals);
    assert_eq!(split_param_token("  =x").unwrap_err(), ParamTokenError::EmptyKey);
}

#[test]
fn collect_params_last_duplicate_wins() {
    let tokens = vec!["a=1".to_string(), "a=2".to_string(), "b=3".to_string()];
    let map = collect_params(&tokens).unwrap();
    assert_eq!(map.get("a").unwrap(), "2");
    assert_eq!(map.get("b").unwrap(), "3");
}

#[test]
fn collect_params_reports_first_bad_token() {
    let tokens = vec!["a=1".to_string(), "bad".to_string(), "=x".to_string()];
    let (idx, kind) = collect_params(&tokens).unwrap_err();
    assert_eq!(idx, 1);
    assert_eq!(kind, ParamTokenError::MissingEquals);
}

#[test]
fn param_map_insert_and_remove() {
    let mut map = ParamMap::new();
    map.insert("k".to_string(), "v1".to_string());
    map.insert("k".to_string(), "v2".to_string());
    assert_eq!(map.len(), 1);
    assert_eq!(map.get("k").unwrap(), "v2");
    assert_eq!(map.remove("k"), Some("v2".to_string()));
    assert_eq!(map.remove("k"), None);
    assert!(!map.contains_key("k"));
}

#[test]
fn param_file_never_overrides_existing_keys() {
    let mut provided = ParamMap::new();
    provided.insert("x".to_string(), "cli".to_string());
    merge_param_file_content(
        &mut provided,
        r#"{"x":"file","y":true,"z":{"n":1}}"#,
        false,
    )
    .unwrap();
    assert_eq!(provided.get("x").unwrap(), "cli");
    assert_eq!(provided.get("y").unwrap(), "true");
    assert_eq!(provided.get("z").unwrap(), r#"{"n":1}"#);
}
