//! Placeholder substitution and fuzzing records.

use mcp_hack::chars::replace_literal;
use mcp_hack::fuzz::{build_fuzz_params, fuzz_report, substitute_params};

#[test]
fn replace_literal_replaces_every_occurrence() {
    assert_eq!(replace_literal("path=FUZZ/FUZZ", "FUZZ", "etc"), "path=etc/etc");
    assert_eq!(replace_literal("nothing here", "FUZZ", "etc"), "nothing here");
    assert_eq!(replace_literal("aaa", "aa", "b"), "ba");
    assert_eq!(replace_literal("x", "", "y"), "x");
}

#[test]
fn substitution_happens_before_splitting() {
    let params = vec!["FUZZ=1".to_string()];
    let subbed = substitute_params(&params, "FUZZ", "key");
    assert_eq!(subbed, vec!["key=1".to_string()]);
    let map = build_fuzz_params(&params, "FUZZ", "key", &Vec::new()).unwrap();
    assert_eq!(map.get("key").unwrap(), "1");
}

#[test]
fn file_entries_are_not_substituted() {
    let params = vec!["path=FUZZ".to_string()];
    let file_entries = vec![("note".to_string(), "FUZZ stays".to_string())];
    let map = build_fuzz_params(&params, "FUZZ", "etc", &file_entries).unwrap();
    assert_eq!(map.get("path").unwrap(), "etc");
    assert_eq!(map.get("note").unwrap(), "FUZZ stays");
}

#[test]
fn cli_params_beat_file_entries_per_iteration() {
    let params = vec!["path=FUZZ".to_string()];
    let file_entries = vec![("path".to_string(), "from-file".to_string())];
    let map = build_fuzz_params(&params, "FUZZ", "etc", &file_entries).unwrap();
    assert_eq!(map.get("path").unwrap(), "etc");
}

#[test]
fn fuzz_isolation_keeps_every_record() {
    let words = vec!["one".to_string(), "two".to_string(), "three".to_string()];
    let outcomes: Vec<Result<String, String>> = vec![
        Ok("fine".to_string()),
        Err("boom".to_string()),
        Ok("fine again".to_string()),
    ];
    let records = fuzz_report(&words, &outcomes);
    assert_eq!(records.len(), 3);
    assert_eq!(records[0].index, 0);
    assert_eq!(records[1].index, 1);
    assert_eq!(records[2].index, 2);
    assert!(records[0].ok);
    assert!(!records[1].ok);
    assert!(records[2].ok);
    assert_eq!(records[1].word, "two");
    assert_eq!(records[1].detail, "boom");
    assert!(records.iter().all(|r| r.total == 3));
}
