//! The grammar of a test-runner transcript, stated over the raw bytes.
//!
//! Every production is a mathematical function from the input and a start
//! offset to the offset it stops at and the value it yields, or to nothing
//! where the input does not match. The executable parser is proved to
//! return exactly what these functions say.
//!
//! Whitespace handling follows the runner's output format: marker tokens
//! may be surrounded by blanks (including line breaks), free-text fields
//! run to their delimiter, and numeric fields are unsigned decimal digit
//! runs. A final line may end at the end of the input instead of a line
//! break. Counts must fit in 64 bits, summed as well as alone; a digit
//! run beyond that fails the summary production.

use vstd::prelude::*;

use crate::transcript::{FailureM, Status, SuiteM, SuiteResult, TestM};

verus! {

/// Blank bytes a marker token may be surrounded by: space, tab, carriage
/// return, line feed.
pub open spec fn is_ws_byte(b: u8) -> bool {
    b == 32 || b == 9 || b == 13 || b == 10
}

/// Space or tab: what separates a test-result line's marker from the name.
pub open spec fn is_sp_byte(b: u8) -> bool {
    b == 32 || b == 9
}

/// A line-break byte.
pub open spec fn is_break_byte(b: u8) -> bool {
    b == 10 || b == 13
}

/// An ASCII decimal digit.
pub open spec fn is_digit_byte(b: u8) -> bool {
    48 <= b <= 57
}

/// First position at or after `i` whose byte is not blank (or the end).
pub open spec fn spec_skip_ws(s: Seq<u8>, i: int) -> int
    decreases s.len() - i,
{
    if 0 <= i < s.len() && is_ws_byte(s[i]) {
        spec_skip_ws(s, i + 1)
    } else {
        i
    }
}

/// First position at or after `i` whose byte is not space or tab.
pub open spec fn spec_skip_sp(s: Seq<u8>, i: int) -> int
    decreases s.len() - i,
{
    if 0 <= i < s.len() && is_sp_byte(s[i]) {
        spec_skip_sp(s, i + 1)
    } else {
        i
    }
}

/// First position at or after `i` holding a line break (or the end).
pub open spec fn spec_break_pos(s: Seq<u8>, i: int) -> int
    decreases s.len() - i,
{
    if 0 <= i < s.len() && !is_break_byte(s[i]) {
        spec_break_pos(s, i + 1)
    } else {
        i
    }
}

/// A line ending at `i`: a line feed, or a carriage return followed by a
/// line feed.
pub open spec fn spec_line_ending(s: Seq<u8>, i: int) -> Option<int> {
    if 0 <= i < s.len() && s[i] == 10 {
        Some(i + 1)
    } else if 0 <= i && i + 2 <= s.len() && s[i] == 13 && s[i + 1] == 10 {
        Some(i + 2)
    } else {
        None
    }
}

/// A line ending at `i`, or the end of the input.
pub open spec fn spec_line_ending_or_end(s: Seq<u8>, i: int) -> Option<int> {
    if i == s.len() {
        Some(i)
    } else {
        spec_line_ending(s, i)
    }
}

/// The rest of the current line: its bytes up to the line break, with the
/// break consumed; the last line may end at the end of the input.
pub open spec fn spec_rest_of_line(s: Seq<u8>, i: int) -> Option<(int, Seq<u8>)> {
    let e = spec_break_pos(s, i);
    let content = s.subrange(i, e);
    match spec_line_ending_or_end(s, e) {
        Some(j) => Some((j, content)),
        None => None,
    }
}

/// Whether the characters of `t` stand as bytes at position `i` of `s`.
pub open spec fn spec_tag(s: Seq<u8>, i: int, t: Seq<char>) -> bool {
    &&& 0 <= i
    &&& i + t.len() <= s.len()
    &&& forall|k: int| 0 <= k < t.len() ==> s[i + k] == t[k] as u8
}

/// First position in `i .. limit` where `t` stands, whole, below `limit`.
pub open spec fn spec_find(s: Seq<u8>, i: int, limit: int, t: Seq<char>) -> Option<int>
    decreases limit - i,
{
    if 0 <= i && i + t.len() <= limit <= s.len() {
        if spec_tag(s, i, t) {
            Some(i)
        } else {
            spec_find(s, i + 1, limit, t)
        }
    } else {
        None
    }
}

/// One or more spaces or tabs, all consumed.
pub open spec fn spec_space1(s: Seq<u8>, i: int) -> Option<int> {
    if 0 <= i < s.len() && is_sp_byte(s[i]) {
        Some(spec_skip_sp(s, i + 1))
    } else {
        None
    }
}

/// A status token: `ok` is a pass, `FAILED` a failure.
pub open spec fn spec_status(s: Seq<u8>, i: int) -> Option<(int, Status)> {
    if spec_tag(s, i, "ok"@) {
        Some((i + "ok"@.len(), Status::Pass))
    } else if spec_tag(s, i, "FAILED"@) {
        Some((i + "FAILED"@.len(), Status::Fail))
    } else {
        None
    }
}

/// One compile-notice line: the compile marker, then free text to the end
/// of the line. Ignored except as a separator.
pub open spec fn spec_compile_notice(s: Seq<u8>, i: int) -> Option<int> {
    let j = spec_skip_ws(s, i);
    if spec_tag(s, j, "Compiling"@) {
        let k = spec_skip_ws(s, j + "Compiling"@.len());
        match spec_rest_of_line(s, k) {
            Some((e, content)) => Some(e),
            None => None,
        }
    } else {
        None
    }
}

/// Zero or more compile-notice lines; yields where they stop and how many
/// there were.
pub open spec fn spec_compiling(s: Seq<u8>, i: int) -> (int, int)
    decreases s.len() - i,
{
    match spec_compile_notice(s, i) {
        Some(j) => if i < j <= s.len() {
            let (e, n) = spec_compiling(s, j);
            (e, n + 1)
        } else {
            (i, 0)
        },
        None => (i, 0),
    }
}

/// The completion line that ends compilation output.
pub open spec fn spec_finished(s: Seq<u8>, i: int) -> Option<int> {
    let j = spec_skip_ws(s, i);
    if spec_tag(s, j, "Finished"@) {
        let k = spec_skip_ws(s, j + "Finished"@.len());
        match spec_rest_of_line(s, k) {
            Some((e, content)) => Some(e),
            None => None,
        }
    } else {
        None
    }
}

/// A suite header: one of the two suite markers, then the suite's name up
/// to the end of the line.
pub open spec fn spec_suite_line(s: Seq<u8>, i: int) -> Option<(int, Seq<u8>)> {
    let j = spec_skip_ws(s, i);
    if spec_tag(s, j, "Running"@) {
        spec_rest_of_line(s, spec_skip_ws(s, j + "Running"@.len()))
    } else if spec_tag(s, j, "Doc-tests"@) {
        spec_rest_of_line(s, spec_skip_ws(s, j + "Doc-tests"@.len()))
    } else {
        None
    }
}

/// The suite count line; its declared count is not trusted and not kept.
pub open spec fn spec_suite_count(s: Seq<u8>, i: int) -> Option<int> {
    let j = spec_skip_ws(s, i);
    if spec_tag(s, j, "running"@) {
        match spec_rest_of_line(s, spec_skip_ws(s, j + "running"@.len())) {
            Some((e, content)) => Some(e),
            None => None,
        }
    } else {
        None
    }
}

/// One test-result line: the test marker, the name up to the delimiter on
/// the same line, the delimiter, and the status token; the blanks after
/// the status (through the line break) are consumed.
pub open spec fn spec_test_result(s: Seq<u8>, i: int) -> Option<(int, TestM)> {
    if spec_tag(s, i, "test"@) {
        match spec_space1(s, i + "test"@.len()) {
            Some(p) => {
                match spec_find(s, p, spec_break_pos(s, p), " ..."@) {
                    Some(m) => {
                        let name = s.subrange(p, m);
                        let q = spec_skip_ws(s, m + " ..."@.len());
                        match spec_status(s, q) {
                            Some((e, st)) => Some(
                                (spec_skip_ws(s, e), TestM { name, status: st, error: None }),
                            ),
                            None => None,
                        }
                    },
                    None => None,
                }
            },
            None => None,
        }
    } else {
        None
    }
}

/// Zero or more test-result lines, in transcript order.
pub open spec fn spec_test_results(s: Seq<u8>, i: int) -> (int, Seq<TestM>)
    decreases s.len() - i,
{
    match spec_test_result(s, i) {
        Some((j, t)) => if i < j <= s.len() {
            let (e, ts) = spec_test_results(s, j);
            (e, seq![t] + ts)
        } else {
            (i, Seq::empty())
        },
        None => (i, Seq::empty()),
    }
}

/// The numeric value of the digit run `s[a .. b]`.
pub open spec fn spec_digits_value(s: Seq<u8>, a: int, b: int) -> int
    decreases b - a,
{
    if a < b {
        spec_digits_value(s, a, b - 1) * 10 + (s[b - 1] - 48)
    } else {
        0
    }
}

/// End of the digit run starting at `i`.
pub open spec fn spec_digit_run_end(s: Seq<u8>, i: int) -> int
    decreases s.len() - i,
{
    if 0 <= i < s.len() && is_digit_byte(s[i]) {
        spec_digit_run_end(s, i + 1)
    } else {
        i
    }
}

/// A count: blanks, a non-empty digit run whose value fits in 64 bits,
/// blanks.
pub open spec fn spec_digits(s: Seq<u8>, i: int) -> Option<(int, u64)> {
    let a = spec_skip_ws(s, i);
    let b = spec_digit_run_end(s, a);
    if a < b && spec_digits_value(s, a, b) <= u64::MAX {
        Some((spec_skip_ws(s, b), spec_digits_value(s, a, b) as u64))
    } else {
        None
    }
}

/// The summary line: the summary marker, the suite state, and the four
/// counts with their separators. The total is recomputed as
/// `passed + failed + ignored` and must fit in 64 bits.
pub open spec fn spec_suite_result(s: Seq<u8>, i: int) -> Option<(int, SuiteResult)> {
    let j = spec_skip_ws(s, i);
    if spec_tag(s, j, "test result: "@) {
        match spec_status(s, j + "test result: "@.len()) {
            Some((p0, st)) => if spec_tag(s, p0, "."@) {
                match spec_digits(s, p0 + "."@.len()) {
                    Some((p1, passed)) => if spec_tag(s, p1, "passed;"@) {
                        match spec_digits(s, p1 + "passed;"@.len()) {
                            Some((p2, failed)) => if spec_tag(s, p2, "failed;"@) {
                                match spec_digits(s, p2 + "failed;"@.len()) {
                                    Some((p3, ignored)) => if spec_tag(s, p3, "ignored;"@) {
                                        match spec_digits(s, p3 + "ignored;"@.len()) {
                                            Some((p4, measured)) => if spec_tag(s, p4, "measured"@)
                                                && passed + failed + ignored <= u64::MAX {
                                                Some(
                                                    (
                                                        spec_skip_ws(s, p4 + "measured"@.len()),
                                                        SuiteResult {
                                                            state: st,
                                                            passed,
                                                            failed,
                                                            ignored,
                                                            total: (passed + failed
                                                                + ignored) as u64,
                                                            measured,
                                                        },
                                                    ),
                                                )
                                            } else {
                                                None
                                            },
                                            None => None,
                                        }
                                    } else {
                                        None
                                    },
                                    None => None,
                                }
                            } else {
                                None
                            },
                            None => None,
                        }
                    } else {
                        None
                    },
                    None => None,
                }
            } else {
                None
            },
            None => None,
        }
    } else {
        None
    }
}

/// A failure-block header: the dashed delimiter, the failing test's name
/// up to the space on the same line, the marker word and the closing
/// dashes; the blanks after it (through the line break) are consumed.
pub open spec fn spec_fail_line(s: Seq<u8>, i: int) -> Option<(int, Seq<u8>)> {
    let j = spec_skip_ws(s, i);
    if spec_tag(s, j, "----"@) {
        let k = spec_skip_ws(s, j + "----"@.len());
        match spec_find(s, k, spec_break_pos(s, k), " "@) {
            Some(m) => {
                let name = s.subrange(k, m);
                let p = spec_skip_ws(s, m);
                if spec_tag(s, p, "stdout"@) {
                    let q = spec_skip_ws(s, p + "stdout"@.len());
                    if spec_tag(s, q, "----"@) {
                        Some((spec_skip_ws(s, q + "----"@.len()), name))
                    } else {
                        None
                    }
                } else {
                    None
                }
            },
            None => None,
        }
    } else {
        None
    }
}

/// The backtrace advice line a failure block may carry.
pub open spec fn note_line() -> Seq<char> {
    "note: Run with `RUST_BACKTRACE=1` for a backtrace."@
}

/// One failure block: its header, the message line, an optional note
/// line, and an optional blank line.
pub open spec fn spec_failure(s: Seq<u8>, i: int) -> Option<(int, FailureM)> {
    match spec_fail_line(s, i) {
        Some((p, name)) => {
            match spec_rest_of_line(s, p) {
                Some((q, msg)) => {
                    let q1 = if spec_tag(s, q, note_line()) {
                        spec_line_ending_or_end(s, q + note_line().len())
                    } else {
                        Some(q)
                    };
                    match q1 {
                        Some(q2) => {
                            let q3 = match spec_line_ending(s, q2) {
                                Some(q3) => q3,
                                None => q2,
                            };
                            Some((q3, FailureM { name, error: msg }))
                        },
                        None => None,
                    }
                },
                None => None,
            }
        },
        None => None,
    }
}

/// The failure blocks that follow `i`, greedily.
pub open spec fn spec_more_failures(s: Seq<u8>, i: int) -> (int, Seq<FailureM>)
    decreases s.len() - i,
{
    match spec_failure(s, i) {
        Some((j, f)) => if i < j <= s.len() {
            let (e, fs) = spec_more_failures(s, j);
            (e, seq![f] + fs)
        } else {
            (i, Seq::empty())
        },
        None => (i, Seq::empty()),
    }
}

/// One or more failure blocks.
pub open spec fn spec_failures(s: Seq<u8>, i: int) -> Option<(int, Seq<FailureM>)> {
    match spec_failure(s, i) {
        Some((j, f)) => if i < j <= s.len() {
            let (e, fs) = spec_more_failures(s, j);
            Some((e, seq![f] + fs))
        } else {
            Some((j, seq![f]))
        },
        None => None,
    }
}

/// The optional failure section: its marker, the blocks, then a skip
/// forward to the next summary marker (the section's own secondary name
/// list is not parsed). Where any of that fails, nothing is consumed and
/// no failures are reported.
pub open spec fn spec_fail_opt(s: Seq<u8>, i: int) -> (int, Option<Seq<FailureM>>) {
    let j = spec_skip_ws(s, i);
    if spec_tag(s, j, "failures:"@) {
        match spec_failures(s, spec_skip_ws(s, j + "failures:"@.len())) {
            Some((p, fs)) => match spec_find(s, p, s.len() as int, "test result: "@) {
                Some(m) => (m, Some(fs)),
                None => (i, None),
            },
            None => (i, None),
        }
    } else {
        (i, None)
    }
}

/// The first failure message recorded under `name`, if any.
pub open spec fn spec_find_failure(fs: Seq<FailureM>, name: Seq<u8>) -> Option<Seq<u8>>
    decreases fs.len(),
{
    if fs.len() == 0 {
        None
    } else if fs.first().name == name {
        Some(fs.first().error)
    } else {
        spec_find_failure(fs.drop_first(), name)
    }
}

/// Attach failure messages to the tests they belong to: a failed test
/// whose name has a failure block gets that block's message; every other
/// test carries no message.
pub open spec fn spec_associate(tests: Seq<TestM>, fs: Seq<FailureM>) -> Seq<TestM> {
    Seq::new(
        tests.len(),
        |i: int|
            if 0 <= i < tests.len() {
                TestM {
                    name: tests[i].name,
                    status: tests[i].status,
                    error: if tests[i].status is Fail {
                        spec_find_failure(fs, tests[i].name)
                    } else {
                        None
                    },
                }
            } else {
                TestM { name: Seq::empty(), status: Status::Pass, error: None }
            },
    )
}

/// One suite block: header, count line, test results, optional failure
/// section, summary. The suite takes its counts and state from the
/// summary, recomputes the total, and cross-references the failures.
pub open spec fn spec_suite(s: Seq<u8>, i: int) -> Option<(int, SuiteM)> {
    match spec_suite_line(s, i) {
        Some((p1, name)) => match spec_suite_count(s, p1) {
            Some(p2) => {
                let (p3, tests) = spec_test_results(s, p2);
                let (p4, fopt) = spec_fail_opt(s, p3);
                match spec_suite_result(s, p4) {
                    Some((p5, res)) => {
                        let fs = match fopt {
                            Some(fs) => fs,
                            None => Seq::empty(),
                        };
                        Some(
                            (
                                p5,
                                SuiteM {
                                    name,
                                    state: res.state,
                                    passed: res.passed,
                                    failed: res.failed,
                                    ignored: res.ignored,
                                    measured: res.measured,
                                    total: res.total,
                                    tests: spec_associate(tests, fs),
                                },
                            ),
                        )
                    },
                    None => None,
                }
            },
            None => None,
        },
        None => None,
    }
}

/// The suite blocks that follow `i`, greedily.
pub open spec fn spec_more_suites(s: Seq<u8>, i: int) -> (int, Seq<SuiteM>)
    decreases s.len() - i,
{
    match spec_suite(s, i) {
        Some((j, suite)) => if i < j <= s.len() {
            let (e, rest) = spec_more_suites(s, j);
            (e, seq![suite] + rest)
        } else {
            (i, Seq::empty())
        },
        None => (i, Seq::empty()),
    }
}

/// One or more suite blocks.
pub open spec fn spec_suites(s: Seq<u8>, i: int) -> Option<(int, Seq<SuiteM>)> {
    match spec_suite(s, i) {
        Some((j, suite)) => if i < j <= s.len() {
            let (e, rest) = spec_more_suites(s, j);
            Some((e, seq![suite] + rest))
        } else {
            Some((j, seq![suite]))
        },
        None => None,
    }
}

/// A whole transcript: compile notices, the completion line, then the
/// suites.
pub open spec fn spec_transcript(s: Seq<u8>, i: int) -> Option<(int, Seq<SuiteM>)> {
    let (p1, count) = spec_compiling(s, i);
    match spec_finished(s, p1) {
        Some(p2) => spec_suites(s, p2),
        None => None,
    }
}

/// A whole transcript that is legal only when fully consumed: nothing but
/// blanks may follow the last suite.
pub open spec fn spec_transcript_complete(s: Seq<u8>) -> Option<Seq<SuiteM>> {
    match spec_transcript(s, 0) {
        Some((p, suites)) => if spec_skip_ws(s, p) == s.len() {
            Some(suites)
        } else {
            None
        },
        None => None,
    }
}

/// What `spec_find_failure` yields is the first matching block: a message
/// comes back exactly when some block carries the name, and it is the
/// earliest such block's message.
pub proof fn lemma_find_failure(fs: Seq<FailureM>, name: Seq<u8>)
    ensures
        match spec_find_failure(fs, name) {
            Some(msg) => exists|j: int|
                0 <= j < fs.len() && fs[j].name == name && fs[j].error == msg && (forall|k: int|
                    0 <= k < j ==> fs[k].name != name),
            None => forall|j: int| 0 <= j < fs.len() ==> fs[j].name != name,
        },
    decreases fs.len(),
{
    if fs.len() == 0 {
    } else if fs.first().name == name {
        let j = 0int;
        assert(fs[j].name == name && fs[j].error == fs.first().error && (forall|k: int|
            0 <= k < j ==> fs[k].name != name));
    } else {
        let rest = fs.drop_first();
        lemma_find_failure(rest, name);
        match spec_find_failure(rest, name) {
            Some(msg) => {
                let j = choose|j: int|
                    0 <= j < rest.len() && rest[j].name == name && rest[j].error == msg && (
                    forall|k: int| 0 <= k < j ==> rest[k].name != name);
                assert(fs[j + 1].name == name && fs[j + 1].error == msg);
                assert forall|k: int| 0 <= k < j + 1 implies fs[k].name != name by {
                    if k > 0 {
                        assert(rest[k - 1].name != name);
                    }
                }
            },
            None => {
                assert forall|j: int| 0 <= j < fs.len() implies fs[j].name != name by {
                    if j > 0 {
                        assert(rest[j - 1].name != name);
                    }
                }
            },
        }
    }
}

/// Failure association: in an associated test list, each test keeps its
/// name and status, and it carries a message exactly when its status is a
/// failure and some failure block carries its name.
pub proof fn lemma_failure_association(tests: Seq<TestM>, fs: Seq<FailureM>, i: int)
    requires
        0 <= i < tests.len(),
    ensures
        spec_associate(tests, fs)[i].name == tests[i].name,
        spec_associate(tests, fs)[i].status == tests[i].status,
        spec_associate(tests, fs)[i].error is Some <==> (tests[i].status is Fail && exists|j: int|
            0 <= j < fs.len() && fs[j].name == tests[i].name),
{
    lemma_find_failure(fs, tests[i].name);
    if spec_find_failure(fs, tests[i].name) is Some {
        let msg = spec_find_failure(fs, tests[i].name)->0;
        assert(exists|j: int|
            0 <= j < fs.len() && fs[j].name == tests[i].name && fs[j].error == msg && (forall|
                k: int,
            | 0 <= k < j ==> fs[k].name != tests[i].name));
    }
}

/// Count invariant of one summary line: the total is the sum of the
/// passed, failed and ignored counts.
pub proof fn lemma_suite_result_total(s: Seq<u8>, i: int, j: int, res: SuiteResult)
    requires
        spec_suite_result(s, i) == Some((j, res)),
    ensures
        res.total == res.passed + res.failed + res.ignored,
{
}

/// Count invariant of one parsed suite.
pub proof fn lemma_suite_total(s: Seq<u8>, i: int, j: int, suite: SuiteM)
    requires
        spec_suite(s, i) == Some((j, suite)),
    ensures
        suite.total == suite.passed + suite.failed + suite.ignored,
{
}

/// Count invariant of every suite in the greedy tail of a suite list.
proof fn lemma_more_suites_total(s: Seq<u8>, i: int, k: int)
    requires
        0 <= k < spec_more_suites(s, i).1.len(),
    ensures
        ({
            let suite = spec_more_suites(s, i).1[k];
            suite.total == suite.passed + suite.failed + suite.ignored
        }),
    decreases s.len() - i,
{
    match spec_suite(s, i) {
        Some((j, suite)) => {
            if i < j <= s.len() {
                if k == 0 {
                    lemma_suite_total(s, i, j, suite);
                } else {
                    lemma_more_suites_total(s, j, k - 1);
                }
            }
        },
        None => {
        },
    }
}

/// Count invariant, for every suite a parsed transcript yields: each
/// suite's total is the sum of its passed, failed and ignored counts.
pub proof fn lemma_transcript_totals(s: Seq<u8>, i: int, j: int, suites: Seq<SuiteM>, k: int)
    requires
        spec_transcript(s, i) == Some((j, suites)),
        0 <= k < suites.len(),
    ensures
        suites[k].total == suites[k].passed + suites[k].failed + suites[k].ignored,
{
    let (p1, count) = spec_compiling(s, i);
    match spec_finished(s, p1) {
        Some(p2) => {
            match spec_suite(s, p2) {
                Some((q, first)) => {
                    if q <= s.len() && p2 < q {
                        if k == 0 {
                            lemma_suite_total(s, p2, q, first);
                        } else {
                            lemma_more_suites_total(s, q, k - 1);
                        }
                    } else {
                        lemma_suite_total(s, p2, q, first);
                    }
                },
                None => {
                },
            }
        },
        None => {
        },
    }
}

/// Count invariant at the public entry point: every suite a complete
/// parse yields has `total == passed + failed + ignored`.
pub proof fn lemma_complete_parse_totals(s: Seq<u8>, suites: Seq<SuiteM>, k: int)
    requires
        spec_transcript_complete(s) == Some(suites),
        0 <= k < suites.len(),
    ensures
        suites[k].total == suites[k].passed + suites[k].failed + suites[k].ignored,
{
    match spec_transcript(s, 0) {
        Some((p, found)) => {
            lemma_transcript_totals(s, 0, p, found, k);
        },
        None => {
        },
    }
}

} // verus!
