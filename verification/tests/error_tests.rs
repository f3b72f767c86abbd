//! Each way the grammar can reject an input, with the production the
//! parser names for it.

use snapshot::parse::{
    fail_line, failure, finished, parse_transcript, suite_result, Expected, ParseError,
};

fn expected_of<T: std::fmt::Debug>(r: Result<T, ParseError>) -> Expected {
    match r {
        Err(e) => e.expected,
        Ok(v) => panic!("expected a parse failure, got {:?}", v),
    }
}

#[test]
fn a_lone_carriage_return_is_no_line_ending() {
    let input = &b"    Finished debug\rmore"[..];
    assert_eq!(expected_of(finished(input, 0)), Expected::LineEnding);
}

#[test]
fn a_missing_suite_count_line_is_rejected() {
    let input = &b"    Finished debug target(s)
     Running suite_a
test result: ok. 0 passed; 0 failed; 0 ignored; 0 measured
"[..];
    assert_eq!(expected_of(parse_transcript(input)), Expected::SuiteCountLine);
}

#[test]
fn a_summary_without_its_marker_is_rejected() {
    let input = &b"    Finished debug target(s)
     Running suite_a
running 0 tests
"[..];
    assert_eq!(expected_of(parse_transcript(input)), Expected::SummaryMarker);
}

#[test]
fn a_summary_with_a_bad_state_token_is_rejected() {
    let input = &b"test result: zz. 0 passed; 0 failed; 0 ignored; 0 measured"[..];
    assert_eq!(expected_of(suite_result(input, 0)), Expected::StatusToken);
}

#[test]
fn a_summary_without_the_dot_is_rejected() {
    let input = &b"test result: ok 0 passed; 0 failed; 0 ignored; 0 measured"[..];
    assert_eq!(expected_of(suite_result(input, 0)), Expected::Dot);
}

#[test]
fn summary_separators_are_all_required() {
    let passed = &b"test result: ok. 0 passd; 0 failed; 0 ignored; 0 measured"[..];
    assert_eq!(expected_of(suite_result(passed, 0)), Expected::PassedSep);
    let failed = &b"test result: ok. 0 passed; 0 faild; 0 ignored; 0 measured"[..];
    assert_eq!(expected_of(suite_result(failed, 0)), Expected::FailedSep);
    let ignored = &b"test result: ok. 0 passed; 0 failed; 0 ignord; 0 measured"[..];
    assert_eq!(expected_of(suite_result(ignored, 0)), Expected::IgnoredSep);
    let measured = &b"test result: ok. 0 passed; 0 failed; 0 ignored; 0 measurd"[..];
    assert_eq!(expected_of(suite_result(measured, 0)), Expected::MeasuredMarker);
}

#[test]
fn a_failure_header_needs_its_dashes_and_marker() {
    let no_dashes = &b"-- fail stdout ----"[..];
    assert_eq!(expected_of(fail_line(no_dashes, 0)), Expected::FailureHeader);
    let no_marker = &b"---- fail stdut ----"[..];
    assert_eq!(expected_of(fail_line(no_marker, 0)), Expected::FailureHeader);
}

#[test]
fn a_failure_header_needs_a_name_before_the_line_ends() {
    let input = &b"---- failname_with_no_space
"[..];
    assert_eq!(expected_of(fail_line(input, 0)), Expected::NameDelimiter);
}

#[test]
fn a_failure_message_line_must_end_properly() {
    let input = &b"---- fail stdout ----
message\rjunk"[..];
    assert_eq!(expected_of(failure(input, 0)), Expected::FailureMessage);
}
