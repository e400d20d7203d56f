use alixt::assertions::assert_response;
use alixt::config::Assert;
use alixt::jsonval::JsonValue;
use alixt::outcome::{AssertionOutcome, FailureType};
use alixt::parse::parse_json;

fn bare_assert() -> Assert {
    Assert {
        breaking: false,
        status: None,
        body_matches: None,
        subset_matches: None,
        subset_includes: None,
        subset_regex: None,
    }
}

fn num(text: &str) -> JsonValue {
    JsonValue::Num(text.to_string())
}

fn text(s: &str) -> JsonValue {
    JsonValue::Str(s.to_string())
}

fn failures(outcome: AssertionOutcome) -> Vec<FailureType> {
    match outcome {
        AssertionOutcome::Passed => Vec::new(),
        AssertionOutcome::Failed(fails) => fails,
    }
}

#[test]
fn status_only_assertion_checks_status() {
    let mut a = bare_assert();
    a.status = Some(200);
    assert!(assert_response(None, &a, Some(200)).is_passing());

    let fails = failures(assert_response(None, &a, Some(404)));
    assert_eq!(fails.len(), 1);
    assert!(matches!(
        fails[0],
        FailureType::StatusMismatch { expected: 200, found: Some(404) }
    ));

    let fails = failures(assert_response(None, &a, None));
    assert!(matches!(
        fails[0],
        FailureType::StatusMismatch { expected: 200, found: None }
    ));
}

#[test]
fn json_check_without_body_is_invalid_json() {
    let mut a = bare_assert();
    a.subset_includes = Some(vec!["/a".to_string()]);
    let fails = failures(assert_response(None, &a, Some(200)));
    assert_eq!(fails.len(), 1);
    assert!(matches!(fails[0], FailureType::InvalidJson));
}

#[test]
fn exact_match_flags_extras() {
    let actual = parse_json("{\"a\":1,\"b\":2}").expect("parses");
    let mut a = bare_assert();
    a.body_matches = Some(vec![("/a".to_string(), num("1"))]);
    let fails = failures(assert_response(Some(&actual), &a, Some(200)));
    assert_eq!(fails.len(), 1);
    match &fails[0] {
        FailureType::JsonExtraField { path } => assert_eq!(path, "/b"),
        other => panic!("unexpected failure {other:?}"),
    }
}

#[test]
fn wildcard_accepts_any_value() {
    let actual = parse_json("{\"s\":\"x\",\"n\":5,\"o\":{\"k\":true},\"z\":null}")
        .expect("parses");
    let mut a = bare_assert();
    a.subset_matches = Some(vec![
        ("/s".to_string(), text("*")),
        ("/n".to_string(), text("*")),
        ("/o".to_string(), text("*")),
        ("/z".to_string(), text("*")),
    ]);
    assert!(assert_response(Some(&actual), &a, Some(200)).is_passing());
}

#[test]
fn subset_match_reports_value_mismatch() {
    let actual = parse_json("{\"a\":{\"b\":[1,2]}}").expect("parses");
    let mut a = bare_assert();
    a.subset_matches = Some(vec![
        ("/a/b/0".to_string(), num("1")),
        ("/a/b/1".to_string(), num("3")),
        ("/a/c".to_string(), num("9")),
    ]);
    let fails = failures(assert_response(Some(&actual), &a, Some(200)));
    assert_eq!(fails.len(), 2);
    match &fails[0] {
        FailureType::JsonValueMismatch { path, expected, found } => {
            assert_eq!(path, "/a/b/1");
            assert_eq!(expected, "3");
            assert_eq!(found, "2");
        }
        other => panic!("unexpected failure {other:?}"),
    }
    assert!(matches!(&fails[1], FailureType::JsonMissingField { .. }));
}

#[test]
fn regex_against_non_string_is_not_string() {
    let actual = parse_json("{\"n\":12}").expect("parses");
    let mut a = bare_assert();
    a.subset_regex = Some(vec![("/n".to_string(), text("^1.*$"))]);
    let fails = failures(assert_response(Some(&actual), &a, Some(200)));
    assert_eq!(fails.len(), 1);
    match &fails[0] {
        FailureType::JsonNotString { path } => assert_eq!(path, "/n"),
        other => panic!("unexpected failure {other:?}"),
    }
}

#[test]
fn regex_matching_and_mismatching() {
    let actual = parse_json("{\"version\":\"13.0.2+gitea-1.22.0\"}").expect("parses");
    let mut a = bare_assert();
    a.subset_regex = Some(vec![("/version".to_string(), text(r"^\d+\..*gitea.*$"))]);
    assert!(assert_response(Some(&actual), &a, Some(200)).is_passing());

    let mut b = bare_assert();
    b.subset_regex = Some(vec![("/version".to_string(), text("^nope$"))]);
    let fails = failures(assert_response(Some(&actual), &b, Some(200)));
    match &fails[0] {
        FailureType::JsonRegexMismatch { path, pattern, found } => {
            assert_eq!(path, "/version");
            assert_eq!(pattern, "^nope$");
            assert_eq!(found, "13.0.2+gitea-1.22.0");
        }
        other => panic!("unexpected failure {other:?}"),
    }
}

#[test]
fn invalid_regex_pattern_is_reported() {
    let actual = parse_json("{\"v\":\"x\"}").expect("parses");
    let mut a = bare_assert();
    a.subset_regex = Some(vec![("/v".to_string(), text("([unclosed"))]);
    let fails = failures(assert_response(Some(&actual), &a, Some(200)));
    match &fails[0] {
        FailureType::JsonRegexMismatch { pattern, found, .. } => {
            assert_eq!(pattern, "([unclosed");
            assert_eq!(found, "Invalid Regex Syntax");
        }
        other => panic!("unexpected failure {other:?}"),
    }
}

#[test]
fn modes_accumulate_across_one_assertion() {
    let actual = parse_json("{\"a\":1}").expect("parses");
    let mut a = bare_assert();
    a.status = Some(200);
    a.subset_matches = Some(vec![("/a".to_string(), num("2"))]);
    a.subset_includes = Some(vec!["/missing".to_string()]);
    let fails = failures(assert_response(Some(&actual), &a, Some(500)));
    assert_eq!(fails.len(), 3);
    assert!(matches!(fails[0], FailureType::StatusMismatch { .. }));
    assert!(matches!(fails[1], FailureType::JsonValueMismatch { .. }));
    assert!(matches!(fails[2], FailureType::JsonMissingField { .. }));
}

#[test]
fn flatten_lists_every_leaf_path() {
    let doc = parse_json("{\"a\":[1,{\"b\":2}], \"c\": null}").expect("parses");
    let mut paths = alixt::jsonval::flatten_json(&doc);
    paths.sort();
    assert_eq!(paths, vec!["/a/0".to_string(), "/a/1/b".to_string(), "/c".to_string()]);
}

#[test]
fn flatten_of_leaf_root_is_slash() {
    let doc = parse_json("42").expect("parses");
    assert_eq!(alixt::jsonval::flatten_json(&doc), vec!["/".to_string()]);
}

#[test]
fn pointer_addresses_nested_values() {
    let doc = parse_json("{\"a\":{\"b/c\":[null,{\"~\":true}]}}").expect("parses");
    assert!(doc.pointer("").is_some());
    assert!(doc.pointer("/a").is_some());
    assert!(doc.pointer("/a/b~1c/0").is_some());
    let tilde = doc.pointer("/a/b~1c/1/~0").expect("tilde key resolves");
    assert!(tilde.json_eq(&JsonValue::Bool(true)));
    assert!(doc.pointer("/a/b").is_none());
    assert!(doc.pointer("a").is_none());
    assert!(doc.pointer("/a/b~1c/01").is_none());
    assert!(doc.pointer("/a/b~1c/+1").is_none());
}

#[test]
fn rendering_is_compact_and_escaped() {
    let doc = parse_json("{\"k\":[1,\"a\\\"b\",null,true]}").expect("parses");
    assert_eq!(doc.to_text(), "{\"k\":[1,\"a\\\"b\",null,true]}");
    let s = JsonValue::Str("line\nbreak".to_string());
    assert_eq!(s.to_text(), "\"line\\nbreak\"");
    assert_eq!(s.capture_text(), "line\nbreak");
    let n = num("42");
    assert_eq!(n.capture_text(), "42");
}

#[test]
fn parse_normalises_numbers_and_sorts_keys() {
    let doc = parse_json("{\"b\":1.50, \"a\":2}").expect("parses");
    assert_eq!(doc.to_text(), "{\"a\":2,\"b\":1.5}");
    assert!(parse_json("not json").is_none());
    assert!(parse_json("").is_none());
}

#[test]
fn outcome_push_and_take() {
    let mut o = AssertionOutcome::Passed;
    assert!(o.is_passing());
    o.push(FailureType::InvalidJson);
    assert!(!o.is_passing());
    o.push(FailureType::JsonMissingField { path: "/x".to_string() });
    let taken = o.take();
    assert!(!taken.is_passing());
    assert_eq!(failures(taken).len(), 2);
    assert_eq!(failures(o).len(), 0);
}
