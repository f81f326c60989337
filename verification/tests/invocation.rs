//! Tool resolution, call planning, prompting decisions, and the lifecycle
//! state machine.

use mcp_hack::cli::{
    effective_target, select_tool_by_input, tool_not_found_message, validate_tool_name,
};
use mcp_hack::invoke::{
    accept_prompt_input, invocation_step, missing_required_params, plan_call, InvocationEvent,
    InvocationState, InvokeError,
};
use mcp_hack::params::ParamMap;
use mcp_hack::schema::{
    extract_params, find_tool_case_insensitive, ArgValue, SchemaProperty, ToolDescriptor,
    ToolSchema,
};

fn named(name: &str) -> ToolDescriptor {
    ToolDescriptor { name: name.to_string(), description: None, schema: None }
}

fn prop(name: &str, ptype: Option<&str>, desc: Option<&str>) -> SchemaProperty {
    SchemaProperty {
        name: name.to_string(),
        ptype: ptype.map(|t| t.to_string()),
        description: desc.map(|d| d.to_string()),
    }
}

#[test]
fn find_tool_case_insensitive_works() {
    let tools = vec![named("Alpha"), named("beta")];
    let t = find_tool_case_insensitive(&tools, "ALPHA").unwrap();
    assert_eq!(t.name, "Alpha");
}

#[test]
fn find_tool_misses_unknown_names() {
    let tools = vec![named("Alpha"), named("beta")];
    assert!(find_tool_case_insensitive(&tools, "gamma").is_none());
}

#[test]
fn extract_params_empty() {
    let tool = named("x");
    let p = extract_params(&tool);
    assert!(p.is_empty());
}

#[test]
fn extract_params_basic() {
    let tool = ToolDescriptor {
        name: "demo".to_string(),
        description: None,
        schema: Some(ToolSchema {
            properties: vec![
                prop("a", Some("integer"), Some("id")),
                prop("b", Some("boolean"), None),
            ],
            required: vec!["a".to_string()],
        }),
    };
    let mut p = extract_params(&tool);
    p.sort_by(|a, b| a.0.cmp(&b.0));
    assert_eq!(p.len(), 2);
    assert_eq!(p[0].0, "a");
    assert_eq!(p[0].1, "integer");
    assert!(p[0].2);
    assert_eq!(p[0].3, "id");
    assert_eq!(p[1].0, "b");
    assert_eq!(p[1].1, "boolean");
    assert!(!p[1].2);
}

#[test]
fn interactive_select_tool_fallback_name() {
    let tools = vec![named("Alpha"), named("beta")];
    assert_eq!(select_tool_by_input(&tools, "2").unwrap(), "beta");
    assert_eq!(select_tool_by_input(&tools, "gamma").unwrap(), "gamma");
    assert_eq!(select_tool_by_input(&tools, "   "), None);
    assert_eq!(select_tool_by_input(&tools, "0").unwrap(), "0");
    assert_eq!(select_tool_by_input(&tools, "3").unwrap(), "3");
}

#[test]
fn plan_call_resolves_and_coerces() {
    let tools = vec![ToolDescriptor {
        name: "Scan".to_string(),
        description: None,
        schema: Some(ToolSchema {
            properties: vec![prop("depth", Some("integer"), None)],
            required: vec!["depth".to_string()],
        }),
    }];
    let mut provided = ParamMap::new();
    provided.insert("depth".to_string(), "3".to_string());
    let plan = plan_call(&tools, "scan", &provided).unwrap();
    assert_eq!(plan.tool_name, "Scan");
    let args = plan.arguments.unwrap();
    assert_eq!(args[0], ("depth".to_string(), ArgValue::Int(3)));
}

#[test]
fn plan_call_omits_empty_arguments() {
    let tools = vec![named("ping")];
    let provided = ParamMap::new();
    let plan = plan_call(&tools, "PING", &provided).unwrap();
    assert_eq!(plan.tool_name, "ping");
    assert!(plan.arguments.is_none());
}

#[test]
fn plan_call_reports_unknown_tool() {
    let tools = vec![named("alpha")];
    let err = plan_call(&tools, "beta", &ParamMap::new()).unwrap_err();
    match err {
        InvokeError::ToolNotFound(n) => {
            assert_eq!(n, "beta");
            assert_eq!(tool_not_found_message(&n), "tool 'beta' not found");
        },
        other => panic!("unexpected error: {:?}", other),
    }
}

#[test]
fn plan_call_reports_missing_required() {
    let tools = vec![ToolDescriptor {
        name: "scan".to_string(),
        description: None,
        schema: Some(ToolSchema {
            properties: vec![prop("depth", Some("integer"), None)],
            required: vec!["depth".to_string()],
        }),
    }];
    let err = plan_call(&tools, "scan", &ParamMap::new()).unwrap_err();
    assert!(matches!(err, InvokeError::MissingRequired(n) if n == "depth"));
}

#[test]
fn missing_required_params_lists_unanswered() {
    let tool = ToolDescriptor {
        name: "demo".to_string(),
        description: None,
        schema: Some(ToolSchema {
            properties: vec![
                prop("a", Some("integer"), None),
                prop("b", None, None),
                prop("c", Some("boolean"), None),
            ],
            required: vec!["a".to_string(), "b".to_string()],
        }),
    };
    let mut provided = ParamMap::new();
    provided.insert("a".to_string(), "1".to_string());
    let missing = missing_required_params(&tool, &provided);
    assert_eq!(missing, vec![("b".to_string(), "string".to_string())]);
}

#[test]
fn prompt_input_is_trimmed_and_nonempty() {
    assert_eq!(accept_prompt_input("  hello  ").unwrap(), "hello");
    assert_eq!(accept_prompt_input("   "), None);
}

#[test]
fn lifecycle_follows_order() {
    let s0 = InvocationState::Idle;
    let s1 = invocation_step(s0, InvocationEvent::SpawnSucceeded);
    assert_eq!(s1, InvocationState::Spawned);
    let s2 = invocation_step(s1, InvocationEvent::DiscoverySucceeded);
    assert_eq!(s2, InvocationState::Discovered);
    let s3 = invocation_step(s2, InvocationEvent::ArgumentsAccepted);
    assert_eq!(s3, InvocationState::ArgumentsBuilt);
    let s4 = invocation_step(s3, InvocationEvent::CallSucceeded);
    assert_eq!(s4, InvocationState::Invoked);
    let s5 = invocation_step(s4, InvocationEvent::ShutdownAttempted);
    assert_eq!(s5, InvocationState::ShutDown);
}

#[test]
fn lifecycle_failures_are_absorbing() {
    assert_eq!(
        invocation_step(InvocationState::Idle, InvocationEvent::SpawnFailed),
        InvocationState::Failed
    );
    assert_eq!(
        invocation_step(InvocationState::Spawned, InvocationEvent::DiscoveryFailed),
        InvocationState::Failed
    );
    assert_eq!(
        invocation_step(InvocationState::Discovered, InvocationEvent::ArgumentsRejected),
        InvocationState::Failed
    );
    assert_eq!(
        invocation_step(InvocationState::ArgumentsBuilt, InvocationEvent::CallFailed),
        InvocationState::Failed
    );
    assert_eq!(
        invocation_step(InvocationState::Failed, InvocationEvent::ShutdownAttempted),
        InvocationState::Failed
    );
}

#[test]
fn effective_target_prefers_explicit() {
    assert_eq!(effective_target(Some("a"), Some("b")).unwrap(), "a");
    assert_eq!(effective_target(Some("   "), Some(" b ")).unwrap(), "b");
    assert_eq!(effective_target(None, Some("b")).unwrap(), "b");
    assert_eq!(effective_target(Some("  "), Some("  ")), None);
    assert_eq!(effective_target(None, None), None);
}

#[test]
fn tool_name_validation_trims() {
    assert_eq!(validate_tool_name(" scan ").unwrap(), "scan");
    assert_eq!(validate_tool_name("  "), None);
}
