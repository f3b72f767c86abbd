//! The transcript parser on the runner outputs it was built for.

use snapshot::parse::{
    cargo_test_result_parser, compiling, digits, fail_line, failure, failures, finished,
    ok_or_failed, suite_count, suite_line, suite_result, test_result, test_results,
};
use snapshot::transcript::{Failure, Status, Suite, SuiteResult, Test};

#[test]
fn it_should_match_a_compiler_line() {
    let output = &b"   Compiling docker-command v0.1.0 (file:///Users/joegrund/projects/docker-command-rs)
"[..];

    assert_eq!(compiling(output, 0), (output.len(), 1));
}

#[test]
fn it_should_parse_finish_line() {
    let output = &b"    Finished debug [unoptimized + debuginfo] target(s) in 0.0 secs
"[..];

    assert_eq!(finished(output, 0), Ok(output.len()));
}

#[test]
fn it_should_parse_suite_line() {
    let output = &b"Running target/debug/deps/docker_command-be014e20fbd07382
"[..];

    assert_eq!(
        suite_line(output, 0),
        Ok((
            output.len(),
            b"target/debug/deps/docker_command-be014e20fbd07382".to_vec()
        ))
    );
}

#[test]
fn it_should_parse_suite_count() {
    let output = &b"running 0 tests
"[..];

    assert_eq!(suite_count(output, 0), Ok(output.len()));
}

#[test]
fn it_should_match_ok() {
    assert_eq!(ok_or_failed(&b"ok"[..], 0), Some((2, Status::Pass)));
}

#[test]
fn it_should_match_failed() {
    assert_eq!(ok_or_failed(&b"FAILED"[..], 0), Some((6, Status::Fail)));
}

#[test]
fn it_should_parse_test_result() {
    let output = &b"test it_runs_a_command ... ok"[..];

    assert_eq!(
        test_result(output, 0),
        Some((
            output.len(),
            Test {
                name: b"it_runs_a_command".to_vec(),
                status: Status::Pass,
                error: None,
            }
        ))
    );
}

#[test]
fn it_should_parse_test_results() {
    let output = &b"test tests::it_should_parse_first_line ... ok
test tests::it_should_parse_a_status_line ... ok
test tests::it_should_parse_test_output ... ok
test tests::it_should_parse_suite_line ... FAILED
"[..];

    assert_eq!(
        test_results(output, 0),
        (
            output.len(),
            vec![
                Test {
                    name: b"tests::it_should_parse_first_line".to_vec(),
                    status: Status::Pass,
                    error: None,
                },
                Test {
                    name: b"tests::it_should_parse_a_status_line".to_vec(),
                    status: Status::Pass,
                    error: None,
                },
                Test {
                    name: b"tests::it_should_parse_test_output".to_vec(),
                    status: Status::Pass,
                    error: None,
                },
                Test {
                    name: b"tests::it_should_parse_suite_line".to_vec(),
                    status: Status::Fail,
                    error: None,
                },
            ]
        )
    );
}

#[test]
fn it_should_capture_digits() {
    assert_eq!(digits(&b"10"[..], 0), Ok((2, 10)));
}

#[test]
fn it_should_parse_a_suite_result() {
    let output = &b"test result: FAILED. 3 passed; 1 failed; 0 ignored; 0 measured"[..];

    assert_eq!(
        suite_result(output, 0),
        Ok((
            output.len(),
            SuiteResult {
                state: Status::Fail,
                passed: 3,
                failed: 1,
                ignored: 0,
                total: 4,
                measured: 0,
            }
        ))
    );
}

#[test]
fn it_should_parse_successful_test_output() {
    let output = &b"    Finished debug [unoptimized + debuginfo] target(s) in 0.0 secs
       Running target/debug/cargo_test_junit-83252957c74e106d
running 2 tests
test tests::it_should_match_failed ... ok
test tests::it_should_parse_first_line ... ok
  test result: ok. 2 passed; 0 failed; 0 ignored; 0 measured
  "[..];

    let result = cargo_test_result_parser(output, 0);

    assert_eq!(
        result,
        Ok((
            output.len(),
            vec![Suite {
                name: b"target/debug/cargo_test_junit-83252957c74e106d".to_vec(),
                state: Status::Pass,
                tests: vec![
                    Test {
                        name: b"tests::it_should_match_failed".to_vec(),
                        status: Status::Pass,
                        error: None,
                    },
                    Test {
                        name: b"tests::it_should_parse_first_line".to_vec(),
                        status: Status::Pass,
                        error: None,
                    },
                ],
                passed: 2,
                failed: 0,
                ignored: 0,
                measured: 0,
                total: 2,
            }]
        ))
    );
}

#[test]
fn test_fail_line() {
    let output = &b"---- fail stdout ----"[..];

    assert_eq!(fail_line(output, 0), Ok((output.len(), b"fail".to_vec())));
}

#[test]
fn test_failure() {
    let output = &b"---- fail stdout ----
  thread 'fail' panicked at 'assertion failed: `(left == right)` (left: `1`, right: `2`)', tests/integration_test.rs:16
note: Run with `RUST_BACKTRACE=1` for a backtrace.
"[..];

    assert_eq!(
        failure(output, 0),
        Ok((
            output.len(),
            Failure {
                name: b"fail".to_vec(),
                error: b"thread 'fail' panicked at 'assertion failed: `(left == right)` (left: `1`, right: `2`)', tests/integration_test.rs:16".to_vec(),
            }
        ))
    );
}

#[test]
fn test_failures() {
    let output = &b"---- fail stdout ----
          thread 'fail' panicked at 'assertion failed: `(left == right)` (left: `1`, right: `2`)', tests/integration_test.rs:16
note: Run with `RUST_BACKTRACE=1` for a backtrace.
        ---- fail2 stdout ----
          thread 'fail2' panicked at 'assertion failed: `(left == right)` (left: `3`, right: `2`)', tests/integration_test.rs:22
"[..];

    assert_eq!(
        failures(output, 0),
        Ok((
            output.len(),
            vec![
                Failure {
                    name: b"fail".to_vec(),
                    error: b"thread 'fail' panicked at 'assertion failed: `(left == right)` (left: `1`, right: `2`)', tests/integration_test.rs:16".to_vec(),
                },
                Failure {
                    name: b"fail2".to_vec(),
                    error: b"thread 'fail2' panicked at 'assertion failed: `(left == right)` (left: `3`, right: `2`)', tests/integration_test.rs:22".to_vec(),
                },
            ]
        ))
    );
}

#[test]
fn test_fail_run() {
    let output = &b"  Compiling blah v0.1.0 (file:blah)
        Finished debug [unoptimized + debuginfo] target(s) in 0.32 secs
        Running target/debug/deps/docker_command-be014e20fbd07382
running 0 tests
test result: ok. 0 passed; 0 failed; 0 ignored; 0 measured
        Running target/debug/integration_test-d4fc68dd5824cbb9
running 3 tests
test fail ... FAILED
test fail2 ... FAILED
test it_runs_a_command ... ok
failures:
---- fail stdout ----
thread 'fail' panicked at 'assertion failed: `(left == right)` (left: `1`, right: `2`)', tests/integration_test.rs:16
note: Run with `RUST_BACKTRACE=1` for a backtrace.
---- fail2 stdout ----
thread 'fail2' panicked at 'assertion failed: `(left == right)` (left: `3`, right: `2`)', tests/integration_test.rs:22
failures:
        fail
        fail2
test result: FAILED. 1 passed; 2 failed; 0 ignored; 0 measured
error: test failed"[..];

    let x = match cargo_test_result_parser(output, 0) {
        Ok((_, x)) => x,
        _ => panic!("BOOM!"),
    };

    assert_eq!(
        x,
        vec![
            Suite {
                name: b"target/debug/deps/docker_command-be014e20fbd07382".to_vec(),
                state: Status::Pass,
                passed: 0,
                failed: 0,
                ignored: 0,
                measured: 0,
                total: 0,
                tests: vec![],
            },
            Suite {
                name: b"target/debug/integration_test-d4fc68dd5824cbb9".to_vec(),
                state: Status::Fail,
                passed: 1,
                failed: 2,
                ignored: 0,
                measured: 0,
                total: 3,
                tests: vec![
                    Test {
                        name: b"fail".to_vec(),
                        status: Status::Fail,
                        error: Some(b"thread 'fail' panicked at 'assertion failed: `(left == right)` (left: `1`, right: `2`)', tests/integration_test.rs:16".to_vec()),
                    },
                    Test {
                        name: b"fail2".to_vec(),
                        status: Status::Fail,
                        error: Some(b"thread 'fail2' panicked at 'assertion failed: `(left == right)` (left: `3`, right: `2`)', tests/integration_test.rs:22".to_vec()),
                    },
                    Test {
                        name: b"it_runs_a_command".to_vec(),
                        status: Status::Pass,
                        error: None,
                    },
                ],
            },
        ]
    );
}

#[test]
fn test_success_run() {
    let output = &b"   Compiling rustc-serialize v0.3.22
   Compiling toml v0.2.1
   Compiling pre-commit v0.5.2
   Compiling foo v0.1.0 (file:///foo)
    Finished debug [unoptimized + debuginfo] target(s) in 12.11 secs
     Running target/debug/deps/foo-5a7be5d1b9c8e0f6
running 0 tests
test result: ok. 0 passed; 0 failed; 0 ignored; 0 measured
     Running target/debug/integration_test-283604d1063344ba
running 1 test
test it_runs_a_command ... ok
test result: ok. 1 passed; 0 failed; 0 ignored; 0 measured
   Doc-tests foo
running 0 tests
test result: ok. 0 passed; 0 failed; 0 ignored; 0 measured"[..];

    assert_eq!(
        cargo_test_result_parser(output, 0),
        Ok((
            output.len(),
            vec![
                Suite {
                    name: b"target/debug/deps/foo-5a7be5d1b9c8e0f6".to_vec(),
                    state: Status::Pass,
                    passed: 0,
                    failed: 0,
                    ignored: 0,
                    measured: 0,
                    total: 0,
                    tests: vec![],
                },
                Suite {
                    name: b"target/debug/integration_test-283604d1063344ba".to_vec(),
                    state: Status::Pass,
                    passed: 1,
                    failed: 0,
                    ignored: 0,
                    measured: 0,
                    total: 1,
                    tests: vec![Test {
                        name: b"it_runs_a_command".to_vec(),
                        status: Status::Pass,
                        error: None,
                    }],
                },
                Suite {
                    name: b"foo".to_vec(),
                    state: Status::Pass,
                    passed: 0,
                    failed: 0,
                    ignored: 0,
                    measured: 0,
                    total: 0,
                    tests: vec![],
                },
            ]
        ))
    );
}
