//! Target parsing and classification.

use mcp_hack::target::{parse_target, ParseTargetError, TargetKind, TargetSpec};

#[test]
fn parse_remote_http() {
    let spec = parse_target("https://example.com/mcp").unwrap();
    assert!(spec.is_remote());
    assert!(matches!(spec.kind(), TargetKind::RemoteHttp));
}

#[test]
fn parse_remote_ws() {
    let spec = parse_target("wss://mcp.example/ws").unwrap();
    assert!(matches!(spec.kind(), TargetKind::RemoteWs));
}

#[test]
fn parse_local_simple() {
    let spec = parse_target("my-server --flag").unwrap();
    assert!(spec.is_local());
    if let TargetSpec::LocalCommand { program, args, .. } = spec {
        assert_eq!(program, "my-server");
        assert_eq!(args, vec!["--flag"]);
    } else {
        panic!("Expected LocalCommand variant");
    }
}

#[test]
fn parse_local_quoted() {
    let spec = parse_target(r#"my-server --path "/tmp/my dir""#).unwrap();
    if let TargetSpec::LocalCommand { args, .. } = spec {
        assert_eq!(args.len(), 2);
        assert_eq!(args[0], "--path");
        assert_eq!(args[1], "/tmp/my dir");
    } else {
        panic!("Expected LocalCommand variant");
    }
}

#[test]
fn url_with_unknown_scheme_falls_back_to_command() {
    let spec = parse_target("ftp://example.com/resource").unwrap();
    assert!(spec.is_local(), "Unknown scheme should fall back to local");
}

#[test]
fn empty_target_rejected() {
    let err = parse_target("   ").unwrap_err();
    assert!(err.message().contains("empty"));
}

#[test]
fn parse_keeps_original_and_trims_for_parsing() {
    let spec = parse_target("  my-server  ").unwrap();
    assert_eq!(spec.original(), "  my-server  ");
    if let TargetSpec::LocalCommand { program, args, .. } = spec {
        assert_eq!(program, "my-server");
        assert!(args.is_empty());
    } else {
        panic!("Expected LocalCommand variant");
    }
}

#[test]
fn unclosed_quote_is_split_failure() {
    let err = parse_target("my-server 'oops").unwrap_err();
    assert_eq!(err, ParseTargetError::SplitFailed);
    assert!(err.message().contains("shell"));
}

#[test]
fn comment_only_target_has_no_tokens() {
    let err = parse_target("# nothing here").unwrap_err();
    assert_eq!(err, ParseTargetError::NoTokens);
}

#[test]
fn empty_program_rejected() {
    let err = parse_target("\"\" --flag").unwrap_err();
    assert_eq!(err, ParseTargetError::EmptyProgram);
}

#[test]
fn http_and_ws_schemes_classify() {
    assert!(matches!(
        parse_target("http://example.com/").unwrap().kind(),
        TargetKind::RemoteHttp
    ));
    assert!(matches!(parse_target("ws://example.com/").unwrap().kind(), TargetKind::RemoteWs));
}

#[test]
fn describe_renders_both_forms() {
    let local = parse_target("my-server --flag -v").unwrap();
    assert_eq!(local.describe(), "local: my-server --flag -v");
    let bare = parse_target("my-server").unwrap();
    assert_eq!(bare.describe(), "local: my-server");
    let remote = parse_target("https://example.com/mcp").unwrap();
    assert_eq!(remote.describe(), "remote: https://example.com/mcp");
}
