//! End-to-end parses of whole transcripts, and the recorded-value model.

use snapshot::json::{json_eq, JsonField, JsonValue};
use snapshot::parse::{parse_transcript, digits, Expected, ParseError};
use snapshot::transcript::{Status, Suite, Test};

#[test]
fn single_suite_all_passing() {
    let output = &b"   Compiling suite_a v0.1.0 (file:///w)
    Finished debug [unoptimized + debuginfo] target(s) in 0.5 secs
     Running suite_a
running 2 tests
test t1 ... ok
test t2 ... ok
test result: ok. 2 passed; 0 failed; 0 ignored; 0 measured
"[..];

    let suites = parse_transcript(output).unwrap();
    assert_eq!(
        suites,
        vec![Suite {
            name: b"suite_a".to_vec(),
            state: Status::Pass,
            passed: 2,
            failed: 0,
            ignored: 0,
            measured: 0,
            total: 2,
            tests: vec![
                Test { name: b"t1".to_vec(), status: Status::Pass, error: None },
                Test { name: b"t2".to_vec(), status: Status::Pass, error: None },
            ],
        }]
    );
}

#[test]
fn failure_detail_is_attached_to_the_failed_test() {
    let output = &b"    Finished debug [unoptimized + debuginfo] target(s) in 0.5 secs
     Running suite_b
running 1 test
test fail ... FAILED
failures:
---- fail stdout ----
thread 'fail' panicked at 'boom', src/lib.rs:1
test result: FAILED. 0 passed; 1 failed; 0 ignored; 0 measured
"[..];

    let suites = parse_transcript(output).unwrap();
    assert_eq!(suites.len(), 1);
    assert_eq!(
        suites[0].tests,
        vec![Test {
            name: b"fail".to_vec(),
            status: Status::Fail,
            error: Some(b"thread 'fail' panicked at 'boom', src/lib.rs:1".to_vec()),
        }]
    );
    assert_eq!(suites[0].state, Status::Fail);
}

#[test]
fn a_failure_block_without_a_matching_test_is_unused() {
    let output = &b"    Finished debug target(s) in 0.5 secs
     Running suite_c
running 1 test
test stays ... ok
failures:
---- other stdout ----
thread 'other' panicked at 'boom', src/lib.rs:1
test result: ok. 1 passed; 0 failed; 0 ignored; 0 measured
"[..];

    let suites = parse_transcript(output).unwrap();
    assert_eq!(
        suites[0].tests,
        vec![Test { name: b"stays".to_vec(), status: Status::Pass, error: None }]
    );
}

#[test]
fn the_total_is_recomputed_not_read() {
    let output = &b"    Finished debug target(s) in 0.5 secs
     Running suite_d
running 6 tests
test result: ok. 2 passed; 1 failed; 3 ignored; 0 measured
"[..];

    let suites = parse_transcript(output).unwrap();
    assert_eq!(suites[0].total, 6);
    assert_eq!(suites[0].passed, 2);
    assert_eq!(suites[0].failed, 1);
    assert_eq!(suites[0].ignored, 3);
}

#[test]
fn a_transcript_without_a_completion_line_is_rejected() {
    let output = &b"     Running suite_a
running 0 tests
test result: ok. 0 passed; 0 failed; 0 ignored; 0 measured
"[..];

    match parse_transcript(output) {
        Err(ParseError { expected: Expected::CompletionLine, .. }) => {}
        other => panic!("expected a completion-line error, got {:?}", other),
    }
}

#[test]
fn trailing_content_after_the_suites_is_rejected() {
    let output = &b"    Finished debug target(s) in 0.5 secs
     Running suite_a
running 0 tests
test result: ok. 0 passed; 0 failed; 0 ignored; 0 measured
error: test failed"[..];

    match parse_transcript(output) {
        Err(ParseError { expected: Expected::SuiteHeader, offset }) => {
            assert!(offset < output.len());
        }
        other => panic!("expected a trailing-content error, got {:?}", other),
    }
}

#[test]
fn a_malformed_summary_line_is_rejected() {
    let output = &b"    Finished debug target(s) in 0.5 secs
     Running suite_a
running 0 tests
test result: ok. x passed; 0 failed; 0 ignored; 0 measured
"[..];

    match parse_transcript(output) {
        Err(ParseError { expected: Expected::Digits, .. }) => {}
        other => panic!("expected a digits error, got {:?}", other),
    }
}

#[test]
fn a_count_beyond_the_range_is_rejected() {
    let input = &b"99999999999999999999999999"[..];
    match digits(input, 0) {
        Err(ParseError { expected: Expected::Digits, offset: 0 }) => {}
        other => panic!("expected a digits error, got {:?}", other),
    }
}

#[test]
fn recorded_values_compare_by_deep_structure() {
    let a = JsonValue::Object(vec![
        JsonField {
            key: "xs".to_string(),
            value: JsonValue::Array(vec![JsonValue::Int(1), JsonValue::Float("2.5".to_string())]),
        },
        JsonField { key: "ok".to_string(), value: JsonValue::Bool(true) },
    ]);
    let b = JsonValue::Object(vec![
        JsonField {
            key: "xs".to_string(),
            value: JsonValue::Array(vec![JsonValue::Int(1), JsonValue::Float("2.5".to_string())]),
        },
        JsonField { key: "ok".to_string(), value: JsonValue::Bool(true) },
    ]);
    assert!(json_eq(&a, &b));
    assert_eq!(a, b);
    let c = JsonValue::Object(vec![
        JsonField {
            key: "xs".to_string(),
            value: JsonValue::Array(vec![JsonValue::Int(1), JsonValue::Float("2.0".to_string())]),
        },
        JsonField { key: "ok".to_string(), value: JsonValue::Bool(true) },
    ]);
    assert!(!json_eq(&a, &c));
    assert_ne!(a, c);
    assert_ne!(JsonValue::Int(1), JsonValue::UInt(1));
    assert_eq!(JsonValue::Null, JsonValue::Null);
}
