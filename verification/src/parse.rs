//! The executable transcript parser. Each function consumes from a given
//! byte offset and returns the offset it stopped at together with the
//! parsed value; each is proved to return exactly what the corresponding
//! grammar production says, and to fail exactly where the grammar does.

use vstd::prelude::*;

use vstd::slice::{slice_subrange, slice_to_vec};

use crate::grammar::{
    is_break_byte, is_digit_byte, is_sp_byte, is_ws_byte, spec_break_pos,
    spec_compile_notice, spec_compiling, spec_digit_run_end, spec_digits, spec_digits_value,
    spec_fail_line, spec_fail_opt, spec_failure, spec_failures, spec_find, spec_find_failure,
    spec_finished, spec_line_ending, spec_line_ending_or_end, spec_more_failures,
    spec_more_suites, spec_rest_of_line, spec_skip_sp, spec_skip_ws, spec_space1, spec_status,
    spec_suite, spec_suite_count, spec_suite_line, spec_suite_result, spec_suites,
    spec_tag, spec_test_result, spec_test_results, spec_transcript, spec_associate,
};
use crate::transcript::{bytes_eq, Failure, Status, Suite, SuiteResult, Test};

verus! {

/// The production the parser expected where the input failed it.
#[derive(Clone, Copy, Debug, PartialEq, Eq, Structural)]
pub enum Expected {
    /// A line ending (a bare carriage return is not one).
    LineEnding,
    /// The completion marker that ends compilation output.
    CompletionLine,
    /// A suite header marker.
    SuiteHeader,
    /// The suite count line.
    SuiteCountLine,
    /// A status token.
    StatusToken,
    /// A non-empty digit run whose value fits the count range.
    Digits,
    /// The summary-line marker.
    SummaryMarker,
    /// The dot after the summary state.
    Dot,
    /// The separator after the passed count.
    PassedSep,
    /// The separator after the failed count.
    FailedSep,
    /// The separator after the ignored count.
    IgnoredSep,
    /// The closing marker of the summary line.
    MeasuredMarker,
    /// The delimiter between a test's name and its status.
    NameDelimiter,
    /// A failure-block header.
    FailureHeader,
    /// The message line of a failure block.
    FailureMessage,
}

/// A structured parse failure: the byte offset the parser stopped at and
/// the production it expected there.
#[derive(Clone, Copy, Debug, PartialEq, Eq, Structural)]
pub struct ParseError {
    pub offset: usize,
    pub expected: Expected,
}

/// Blank bytes a marker may be surrounded by.
fn is_ws(b: u8) -> (r: bool)
    ensures
        r == is_ws_byte(b),
{
    b == 32 || b == 9 || b == 13 || b == 10
}

/// Space or tab.
fn is_sp(b: u8) -> (r: bool)
    ensures
        r == is_sp_byte(b),
{
    b == 32 || b == 9
}

/// A line-break byte.
fn is_break(b: u8) -> (r: bool)
    ensures
        r == is_break_byte(b),
{
    b == 10 || b == 13
}

/// Advance past blanks.
fn skip_ws(s: &[u8], i: usize) -> (r: usize)
    requires
        i <= s@.len(),
    ensures
        r == spec_skip_ws(s@, i as int),
        i <= r <= s@.len(),
{
    let mut j = i;
    while j < s.len() && is_ws(s[j])
        invariant
            i <= j <= s@.len(),
            spec_skip_ws(s@, i as int) == spec_skip_ws(s@, j as int),
        decreases s@.len() - j,
    {
        j = j + 1;
    }
    j
}

/// Advance past spaces and tabs.
fn skip_sp(s: &[u8], i: usize) -> (r: usize)
    requires
        i <= s@.len(),
    ensures
        r == spec_skip_sp(s@, i as int),
        i <= r <= s@.len(),
{
    let mut j = i;
    while j < s.len() && is_sp(s[j])
        invariant
            i <= j <= s@.len(),
            spec_skip_sp(s@, i as int) == spec_skip_sp(s@, j as int),
        decreases s@.len() - j,
    {
        j = j + 1;
    }
    j
}

/// Position of the next line break at or after `i`, or the end.
fn break_pos(s: &[u8], i: usize) -> (r: usize)
    requires
        i <= s@.len(),
    ensures
        r == spec_break_pos(s@, i as int),
        i <= r <= s@.len(),
{
    let mut j = i;
    while j < s.len() && !is_break(s[j])
        invariant
            i <= j <= s@.len(),
            spec_break_pos(s@, i as int) == spec_break_pos(s@, j as int),
        decreases s@.len() - j,
    {
        j = j + 1;
    }
    j
}

/// Consume a line ending at `i`, if one stands there.
fn line_ending(s: &[u8], i: usize) -> (r: Option<usize>)
    requires
        i <= s@.len(),
    ensures
        match r {
            Some(j) => spec_line_ending(s@, i as int) == Some(j as int) && i < j <= s@.len(),
            None => spec_line_ending(s@, i as int) is None,
        },
{
    if i < s.len() && s[i] == 10 {
        Some(i + 1)
    } else if s.len() - i >= 2 && s[i] == 13 && s[i + 1] == 10 {
        Some(i + 2)
    } else {
        None
    }
}

/// Consume a line ending at `i`, or accept the end of the input.
fn line_ending_or_end(s: &[u8], i: usize) -> (r: Option<usize>)
    requires
        i <= s@.len(),
    ensures
        match r {
            Some(j) => spec_line_ending_or_end(s@, i as int) == Some(j as int) && i <= j
                <= s@.len(),
            None => spec_line_ending_or_end(s@, i as int) is None,
        },
{
    if i == s.len() {
        Some(i)
    } else {
        line_ending(s, i)
    }
}

/// The rest of the current line, with its line break consumed.
fn rest_of_line(s: &[u8], i: usize) -> (r: Result<(usize, Vec<u8>), ParseError>)
    requires
        i <= s@.len(),
    ensures
        match r {
            Ok(p) => spec_rest_of_line(s@, i as int) == Some((p.0 as int, p.1@)) && i <= p.0
                <= s@.len(),
            Err(e) => spec_rest_of_line(s@, i as int) is None,
        },
{
    let e = break_pos(s, i);
    let content = slice_to_vec(slice_subrange(s, i, e));
    match line_ending_or_end(s, e) {
        Some(j) => Ok((j, content)),
        None => Err(ParseError { offset: e, expected: Expected::LineEnding }),
    }
}

/// Whether the characters of `t` stand as bytes at `i`.
fn match_tag(s: &[u8], i: usize, t: &str) -> (r: bool)
    requires
        i <= s@.len(),
    ensures
        r == spec_tag(s@, i as int, t@),
{
    let n = t.unicode_len();
    if s.len() - i < n {
        return false;
    }
    let mut k: usize = 0;
    while k < n
        invariant
            k <= n,
            n == t@.len(),
            i + n <= s@.len(),
            s@.len() <= usize::MAX,
            forall|m: int| 0 <= m < k ==> s@[i + m] == #[verifier::truncate] (t@[m] as u8),
        decreases n - k,
    {
        let c = t.get_char(k);
        if s[i + k] != #[verifier::truncate] (c as u8) {
            assert(!spec_tag(s@, i as int, t@));
            return false;
        }
        k = k + 1;
    }
    true
}

/// First position in `i .. limit` where `t` stands, whole, below `limit`.
fn find_from(s: &[u8], i: usize, limit: usize, t: &str) -> (r: Option<usize>)
    requires
        i <= s@.len(),
        limit <= s@.len(),
    ensures
        match r {
            Some(m) => spec_find(s@, i as int, limit as int, t@) == Some(m as int) && i <= m
                && m + t@.len() <= limit && spec_tag(s@, m as int, t@),
            None => spec_find(s@, i as int, limit as int, t@) is None,
        },
{
    let n = t.unicode_len();
    if n == 0 {
        if i <= limit {
            assert(spec_tag(s@, i as int, t@));
            return Some(i);
        }
        return None;
    }
    let mut m = i;
    while m <= limit && limit - m >= n
        invariant
            n == t@.len(),
            i <= m <= s@.len(),
            limit <= s@.len(),
            spec_find(s@, i as int, limit as int, t@) == spec_find(s@, m as int, limit as int, t@),
        decreases limit - m,
    {
        if match_tag(s, m, t) {
            return Some(m);
        }
        m = m + 1;
    }
    None
}

/// A status token: `ok` is a pass, `FAILED` a failure.
pub fn ok_or_failed(s: &[u8], i: usize) -> (r: Option<(usize, Status)>)
    requires
        i <= s@.len(),
    ensures
        match r {
            Some(p) => spec_status(s@, i as int) == Some((p.0 as int, p.1)) && i <= p.0
                <= s@.len(),
            None => spec_status(s@, i as int) is None,
        },
{
    let sl = s.len();
    if match_tag(s, i, "ok") {
        let n = "ok".unicode_len();
        assert(i + n <= sl);
        Some((i + n, Status::Pass))
    } else if match_tag(s, i, "FAILED") {
        let n = "FAILED".unicode_len();
        assert(i + n <= sl);
        Some((i + n, Status::Fail))
    } else {
        None
    }
}

/// Where a just-matched tag ends.
fn tag_end(s: &[u8], j: usize, t: &str) -> (r: usize)
    requires
        spec_tag(s@, j as int, t@),
    ensures
        r == j + t@.len(),
        j <= r <= s@.len(),
{
    let sl = s.len();
    let n = t.unicode_len();
    assert(j + n <= sl);
    j + n
}

/// A copy of a byte string.
fn clone_bytes(v: &Vec<u8>) -> (r: Vec<u8>)
    ensures
        r@ == v@,
{
    let r = v.clone();
    assert(r@ =~= v@);
    r
}

/// One compile-notice line, if one stands at `i`.
fn compile_notice(s: &[u8], i: usize) -> (r: Option<usize>)
    requires
        i <= s@.len(),
    ensures
        match r {
            Some(j) => spec_compile_notice(s@, i as int) == Some(j as int) && i < j <= s@.len(),
            None => spec_compile_notice(s@, i as int) is None,
        },
{
    let j = skip_ws(s, i);
    if match_tag(s, j, "Compiling") {
        proof {
            reveal_strlit("Compiling");
        }
        let k = skip_ws(s, tag_end(s, j, "Compiling"));
        match rest_of_line(s, k) {
            Ok((e, content)) => Some(e),
            Err(err) => None,
        }
    } else {
        None
    }
}

/// Zero or more compile-notice lines: where they stop, and how many there
/// were.
pub fn compiling(s: &[u8], i: usize) -> (r: (usize, usize))
    requires
        i <= s@.len(),
    ensures
        spec_compiling(s@, i as int) == (r.0 as int, r.1 as int),
        i <= r.0 <= s@.len(),
{
    let mut pos = i;
    let mut count: usize = 0;
    loop
        invariant_except_break
            i <= pos <= s@.len(),
            count <= pos - i,
            spec_compiling(s@, i as int).0 == spec_compiling(s@, pos as int).0,
            spec_compiling(s@, i as int).1 == count + spec_compiling(s@, pos as int).1,
        ensures
            spec_compiling(s@, i as int) == (pos as int, count as int),
            i <= pos <= s@.len(),
        decreases s@.len() - pos,
    {
        match compile_notice(s, pos) {
            Some(j) => {
                pos = j;
                count = count + 1;
            },
            None => {
                break ;
            },
        }
    }
    (pos, count)
}

/// The completion line that ends compilation output.
pub fn finished(s: &[u8], i: usize) -> (r: Result<usize, ParseError>)
    requires
        i <= s@.len(),
    ensures
        match r {
            Ok(j) => spec_finished(s@, i as int) == Some(j as int) && i <= j <= s@.len(),
            Err(e) => spec_finished(s@, i as int) is None,
        },
{
    let j = skip_ws(s, i);
    if match_tag(s, j, "Finished") {
        let k = skip_ws(s, tag_end(s, j, "Finished"));
        match rest_of_line(s, k) {
            Ok((e, content)) => Ok(e),
            Err(err) => Err(err),
        }
    } else {
        Err(ParseError { offset: j, expected: Expected::CompletionLine })
    }
}

/// A suite header: one of the two suite markers, then the suite's name.
pub fn suite_line(s: &[u8], i: usize) -> (r: Result<(usize, Vec<u8>), ParseError>)
    requires
        i <= s@.len(),
    ensures
        match r {
            Ok(p) => spec_suite_line(s@, i as int) == Some((p.0 as int, p.1@)) && i < p.0
                <= s@.len(),
            Err(e) => spec_suite_line(s@, i as int) is None,
        },
{
    let j = skip_ws(s, i);
    if match_tag(s, j, "Running") {
        proof {
            reveal_strlit("Running");
        }
        let k = skip_ws(s, tag_end(s, j, "Running"));
        match rest_of_line(s, k) {
            Ok(p) => Ok(p),
            Err(err) => Err(err),
        }
    } else if match_tag(s, j, "Doc-tests") {
        proof {
            reveal_strlit("Doc-tests");
        }
        let k = skip_ws(s, tag_end(s, j, "Doc-tests"));
        match rest_of_line(s, k) {
            Ok(p) => Ok(p),
            Err(err) => Err(err),
        }
    } else {
        Err(ParseError { offset: j, expected: Expected::SuiteHeader })
    }
}

/// The suite count line; its declared count is not kept.
pub fn suite_count(s: &[u8], i: usize) -> (r: Result<usize, ParseError>)
    requires
        i <= s@.len(),
    ensures
        match r {
            Ok(j) => spec_suite_count(s@, i as int) == Some(j as int) && i <= j <= s@.len(),
            Err(e) => spec_suite_count(s@, i as int) is None,
        },
{
    let j = skip_ws(s, i);
    if match_tag(s, j, "running") {
        let k = skip_ws(s, tag_end(s, j, "running"));
        match rest_of_line(s, k) {
            Ok((e, content)) => Ok(e),
            Err(err) => Err(err),
        }
    } else {
        Err(ParseError { offset: j, expected: Expected::SuiteCountLine })
    }
}

/// One test-result line, if one stands at `i`.
pub fn test_result(s: &[u8], i: usize) -> (r: Option<(usize, Test)>)
    requires
        i <= s@.len(),
    ensures
        match r {
            Some(p) => spec_test_result(s@, i as int) == Some((p.0 as int, p.1.deep_view())) && i
                < p.0 <= s@.len(),
            None => spec_test_result(s@, i as int) is None,
        },
{
    if !match_tag(s, i, "test") {
        return None;
    }
    proof {
        reveal_strlit("test");
    }
    let after_tag = tag_end(s, i, "test");
    if !(after_tag < s.len() && is_sp(s[after_tag])) {
        assert(spec_space1(s@, after_tag as int) is None);
        return None;
    }
    let p = skip_sp(s, after_tag + 1);
    let limit = break_pos(s, p);
    let m = match find_from(s, p, limit, " ...") {
        Some(m) => m,
        None => {
            return None;
        },
    };
    let name = slice_to_vec(slice_subrange(s, p, m));
    let q = skip_ws(s, tag_end(s, m, " ..."));
    match ok_or_failed(s, q) {
        Some((e, st)) => {
            let end = skip_ws(s, e);
            Some((end, Test { name, status: st, error: None }))
        },
        None => None,
    }
}

/// Zero or more test-result lines, in transcript order.
pub fn test_results(s: &[u8], i: usize) -> (r: (usize, Vec<Test>))
    requires
        i <= s@.len(),
    ensures
        spec_test_results(s@, i as int) == (r.0 as int, r.1.deep_view()),
        i <= r.0 <= s@.len(),
{
    let mut pos = i;
    let mut tests: Vec<Test> = Vec::new();
    loop
        invariant_except_break
            i <= pos <= s@.len(),
            spec_test_results(s@, i as int).0 == spec_test_results(s@, pos as int).0,
            spec_test_results(s@, i as int).1 =~= tests.deep_view() + spec_test_results(
                s@,
                pos as int,
            ).1,
        ensures
            spec_test_results(s@, i as int) == (pos as int, tests.deep_view()),
            i <= pos <= s@.len(),
        decreases s@.len() - pos,
    {
        match test_result(s, pos) {
            Some((j, t)) => {
                let ghost prev = tests.deep_view();
                let ghost tm = t.deep_view();
                tests.push(t);
                proof {
                    assert(tests.deep_view() =~= prev.push(tm));
                    assert(prev.push(tm) + spec_test_results(s@, j as int).1 =~= prev + (seq![tm]
                        + spec_test_results(s@, j as int).1));
                }
                pos = j;
            },
            None => {
                assert(spec_test_results(s@, pos as int) == (pos as int, Seq::<
                    crate::transcript::TestM,
                >::empty()));
                assert(tests.deep_view() + Seq::<crate::transcript::TestM>::empty()
                    =~= tests.deep_view());
                break ;
            },
        }
    }
    (pos, tests)
}

/// A count: blanks, a non-empty digit run that fits in 64 bits, blanks.
pub fn digits(s: &[u8], i: usize) -> (r: Result<(usize, u64), ParseError>)
    requires
        i <= s@.len(),
    ensures
        match r {
            Ok(p) => spec_digits(s@, i as int) == Some((p.0 as int, p.1)) && i <= p.0 <= s@.len(),
            Err(e) => spec_digits(s@, i as int) is None,
        },
{
    let a = skip_ws(s, i);
    let mut j = a;
    let mut v: u64 = 0;
    let mut overflow = false;
    while j < s.len() && is_digit(s[j])
        invariant
            a <= j <= s@.len(),
            spec_digit_run_end(s@, a as int) == spec_digit_run_end(s@, j as int),
            !overflow ==> v == spec_digits_value(s@, a as int, j as int),
            overflow ==> spec_digits_value(s@, a as int, j as int) > u64::MAX,
        decreases s@.len() - j,
    {
        let d = s[j] - 48;
        proof {
            assert(spec_digits_value(s@, a as int, j + 1) == spec_digits_value(
                s@,
                a as int,
                j as int,
            ) * 10 + (s@[j as int] - 48));
        }
        if !overflow {
            match v.checked_mul(10) {
                Some(v10) => {
                    match v10.checked_add(d as u64) {
                        Some(v2) => {
                            v = v2;
                        },
                        None => {
                            overflow = true;
                        },
                    }
                },
                None => {
                    overflow = true;
                },
            }
        }
        j = j + 1;
    }
    if j == a || overflow {
        return Err(ParseError { offset: a, expected: Expected::Digits });
    }
    let pos = skip_ws(s, j);
    Ok((pos, v))
}

/// An ASCII decimal digit.
fn is_digit(b: u8) -> (r: bool)
    ensures
        r == is_digit_byte(b),
{
    48 <= b && b <= 57
}

/// The summary line: marker, state, and the four counts with their
/// separators; the total is recomputed and checked to fit.
pub fn suite_result(s: &[u8], i: usize) -> (r: Result<(usize, SuiteResult), ParseError>)
    requires
        i <= s@.len(),
    ensures
        match r {
            Ok(p) => spec_suite_result(s@, i as int) == Some((p.0 as int, p.1)) && i <= p.0
                <= s@.len(),
            Err(e) => spec_suite_result(s@, i as int) is None,
        },
{
    let j = skip_ws(s, i);
    if !match_tag(s, j, "test result: ") {
        return Err(ParseError { offset: j, expected: Expected::SummaryMarker });
    }
    let (p0, st) = match ok_or_failed(s, tag_end(s, j, "test result: ")) {
        Some(p) => p,
        None => {
            return Err(ParseError { offset: j, expected: Expected::StatusToken });
        },
    };
    if !match_tag(s, p0, ".") {
        return Err(ParseError { offset: p0, expected: Expected::Dot });
    }
    let (p1, passed) = match digits(s, tag_end(s, p0, ".")) {
        Ok(p) => p,
        Err(e) => {
            return Err(e);
        },
    };
    if !match_tag(s, p1, "passed;") {
        return Err(ParseError { offset: p1, expected: Expected::PassedSep });
    }
    let (p2, failed) = match digits(s, tag_end(s, p1, "passed;")) {
        Ok(p) => p,
        Err(e) => {
            return Err(e);
        },
    };
    if !match_tag(s, p2, "failed;") {
        return Err(ParseError { offset: p2, expected: Expected::FailedSep });
    }
    let (p3, ignored) = match digits(s, tag_end(s, p2, "failed;")) {
        Ok(p) => p,
        Err(e) => {
            return Err(e);
        },
    };
    if !match_tag(s, p3, "ignored;") {
        return Err(ParseError { offset: p3, expected: Expected::IgnoredSep });
    }
    let (p4, measured) = match digits(s, tag_end(s, p3, "ignored;")) {
        Ok(p) => p,
        Err(e) => {
            return Err(e);
        },
    };
    if !match_tag(s, p4, "measured") {
        return Err(ParseError { offset: p4, expected: Expected::MeasuredMarker });
    }
    let sub = match passed.checked_add(failed) {
        Some(t) => t,
        None => {
            return Err(ParseError { offset: p4, expected: Expected::Digits });
        },
    };
    let total = match sub.checked_add(ignored) {
        Some(t) => t,
        None => {
            return Err(ParseError { offset: p4, expected: Expected::Digits });
        },
    };
    let end = skip_ws(s, tag_end(s, p4, "measured"));
    Ok((end, SuiteResult { state: st, passed, failed, ignored, total, measured }))
}

/// A failure-block header: the dashed delimiter, the failing test's name,
/// the marker word and the closing dashes.
pub fn fail_line(s: &[u8], i: usize) -> (r: Result<(usize, Vec<u8>), ParseError>)
    requires
        i <= s@.len(),
    ensures
        match r {
            Ok(p) => spec_fail_line(s@, i as int) == Some((p.0 as int, p.1@)) && i < p.0
                <= s@.len(),
            Err(e) => spec_fail_line(s@, i as int) is None,
        },
{
    let j = skip_ws(s, i);
    if !match_tag(s, j, "----") {
        return Err(ParseError { offset: j, expected: Expected::FailureHeader });
    }
    proof {
        reveal_strlit("----");
    }
    let k = skip_ws(s, tag_end(s, j, "----"));
    let limit = break_pos(s, k);
    let m = match find_from(s, k, limit, " ") {
        Some(m) => m,
        None => {
            return Err(ParseError { offset: k, expected: Expected::NameDelimiter });
        },
    };
    let name = slice_to_vec(slice_subrange(s, k, m));
    let p = skip_ws(s, m);
    if !match_tag(s, p, "stdout") {
        return Err(ParseError { offset: p, expected: Expected::FailureHeader });
    }
    let q = skip_ws(s, tag_end(s, p, "stdout"));
    if !match_tag(s, q, "----") {
        return Err(ParseError { offset: q, expected: Expected::FailureHeader });
    }
    let end = skip_ws(s, tag_end(s, q, "----"));
    Ok((end, name))
}

/// One failure block: header, message line, optional note line, optional
/// blank line.
pub fn failure(s: &[u8], i: usize) -> (r: Result<(usize, Failure), ParseError>)
    requires
        i <= s@.len(),
    ensures
        match r {
            Ok(p) => spec_failure(s@, i as int) == Some((p.0 as int, p.1.deep_view())) && i < p.0
                <= s@.len(),
            Err(e) => spec_failure(s@, i as int) is None,
        },
{
    let (p, name) = match fail_line(s, i) {
        Ok(x) => x,
        Err(e) => {
            return Err(e);
        },
    };
    let (q, msg) = match rest_of_line(s, p) {
        Ok(x) => x,
        Err(e) => {
            return Err(ParseError { offset: e.offset, expected: Expected::FailureMessage });
        },
    };
    let q2 = if match_tag(s, q, "note: Run with `RUST_BACKTRACE=1` for a backtrace.") {
        match line_ending_or_end(
            s,
            tag_end(s, q, "note: Run with `RUST_BACKTRACE=1` for a backtrace."),
        ) {
            Some(x) => x,
            None => {
                return Err(ParseError { offset: q, expected: Expected::LineEnding });
            },
        }
    } else {
        q
    };
    let q3 = match line_ending(s, q2) {
        Some(x) => x,
        None => q2,
    };
    Ok((q3, Failure { name, error: msg }))
}

/// One or more failure blocks, greedily.
pub fn failures(s: &[u8], i: usize) -> (r: Result<(usize, Vec<Failure>), ParseError>)
    requires
        i <= s@.len(),
    ensures
        match r {
            Ok(p) => spec_failures(s@, i as int) == Some((p.0 as int, p.1.deep_view())) && i < p.0
                <= s@.len(),
            Err(e) => spec_failures(s@, i as int) is None,
        },
{
    let (j0, f0) = match failure(s, i) {
        Ok(x) => x,
        Err(e) => {
            return Err(e);
        },
    };
    let ghost f0m = f0.deep_view();
    let mut fs: Vec<Failure> = Vec::new();
    fs.push(f0);
    let mut pos = j0;
    assert(fs.deep_view() =~= seq![f0m]);
    loop
        invariant_except_break
            i < pos <= s@.len(),
            spec_failures(s@, i as int) matches Some(res) && res.0 == spec_more_failures(
                s@,
                pos as int,
            ).0 && res.1 == fs.deep_view() + spec_more_failures(s@, pos as int).1,
        ensures
            spec_failures(s@, i as int) == Some((pos as int, fs.deep_view())),
            i < pos <= s@.len(),
        decreases s@.len() - pos,
    {
        match failure(s, pos) {
            Ok((j, f)) => {
                let ghost prev = fs.deep_view();
                let ghost fm = f.deep_view();
                fs.push(f);
                proof {
                    assert(fs.deep_view() =~= prev.push(fm));
                    assert(prev.push(fm) + spec_more_failures(s@, j as int).1 =~= prev + (seq![fm]
                        + spec_more_failures(s@, j as int).1));
                }
                pos = j;
            },
            Err(e) => {
                assert(spec_more_failures(s@, pos as int) == (pos as int, Seq::<
                    crate::transcript::FailureM,
                >::empty()));
                assert(fs.deep_view() + Seq::<crate::transcript::FailureM>::empty()
                    =~= fs.deep_view());
                break ;
            },
        }
    }
    Ok((pos, fs))
}

/// The optional failure section; where any part of it fails, nothing is
/// consumed and no failures are reported.
pub fn fail_opt(s: &[u8], i: usize) -> (r: (usize, Option<Vec<Failure>>))
    requires
        i <= s@.len(),
    ensures
        ({
            let (p, fo) = spec_fail_opt(s@, i as int);
            &&& r.0 == p
            &&& match r.1 {
                Some(v) => fo == Some(v.deep_view()),
                None => fo is None,
            }
        }),
        i <= r.0 <= s@.len(),
{
    let j = skip_ws(s, i);
    if !match_tag(s, j, "failures:") {
        return (i, None);
    }
    match failures(s, skip_ws(s, tag_end(s, j, "failures:"))) {
        Err(e) => (i, None),
        Ok((p, fs)) => {
            match find_from(s, p, s.len(), "test result: ") {
                Some(m) => (m, Some(fs)),
                None => (i, None),
            }
        },
    }
}

/// The first failure message recorded under `name`, if any.
pub fn find_message_by_name(name: &Vec<u8>, failures: &Vec<Failure>) -> (r: Option<Vec<u8>>)
    ensures
        match r {
            Some(msg) => spec_find_failure(failures.deep_view(), name@) == Some(msg@),
            None => spec_find_failure(failures.deep_view(), name@) is None,
        },
{
    let ghost dv = failures.deep_view();
    assert(dv.skip(0) =~= dv);
    let mut j: usize = 0;
    while j < failures.len()
        invariant
            j <= dv.len(),
            dv == failures.deep_view(),
            spec_find_failure(dv, name@) == spec_find_failure(dv.skip(j as int), name@),
        decreases dv.len() - j,
    {
        proof {
            assert(dv.skip(j as int).first() == dv[j as int]);
            assert(dv.skip(j as int).drop_first() =~= dv.skip(j + 1));
        }
        if bytes_eq(&failures[j].name, name) {
            return Some(clone_bytes(&failures[j].error));
        }
        j = j + 1;
    }
    assert(dv.skip(dv.len() as int) =~= Seq::<crate::transcript::FailureM>::empty());
    None
}

/// Build one suite from its parsed pieces: counts and state come from the
/// summary, and each failed test is cross-referenced against the failure
/// blocks by exact name.
pub fn handle_parsed_suite(
    name: Vec<u8>,
    tests: Vec<Test>,
    failures: Option<Vec<Failure>>,
    result: SuiteResult,
) -> (r: Suite)
    ensures
        r.deep_view() == (crate::transcript::SuiteM {
            name: name@,
            state: result.state,
            passed: result.passed,
            failed: result.failed,
            ignored: result.ignored,
            measured: result.measured,
            total: result.total,
            tests: spec_associate(
                tests.deep_view(),
                match failures {
                    Some(f) => f.deep_view(),
                    None => Seq::empty(),
                },
            ),
        }),
{
    let ghost fspec = match &failures {
        Some(f) => f.deep_view(),
        None => Seq::<crate::transcript::FailureM>::empty(),
    };
    let fs: Vec<Failure> = match failures {
        Some(f) => f,
        None => Vec::new(),
    };
    assert(fs.deep_view() =~= fspec);
    let mut out: Vec<Test> = Vec::new();
    let mut i: usize = 0;
    while i < tests.len()
        invariant
            i <= tests@.len(),
            out@.len() == i,
            forall|k: int| 0 <= k < i ==> out@[k].deep_view() == spec_associate(
                tests.deep_view(),
                fs.deep_view(),
            )[k],
        decreases tests@.len() - i,
    {
        let status = tests[i].status;
        let error = match status {
            Status::Fail => find_message_by_name(&tests[i].name, &fs),
            Status::Pass => None,
        };
        out.push(Test { name: clone_bytes(&tests[i].name), status, error });
        assert(out@[i as int].deep_view() == spec_associate(
            tests.deep_view(),
            fs.deep_view(),
        )[i as int]);
        i = i + 1;
    }
    assert(out.deep_view() =~= spec_associate(tests.deep_view(), fs.deep_view()));
    Suite {
        name,
        state: result.state,
        passed: result.passed,
        failed: result.failed,
        ignored: result.ignored,
        measured: result.measured,
        total: result.total,
        tests: out,
    }
}

/// One suite block: header, count line, test results, optional failure
/// section, summary.
pub fn suite_parser(s: &[u8], i: usize) -> (r: Result<(usize, Suite), ParseError>)
    requires
        i <= s@.len(),
    ensures
        match r {
            Ok(p) => spec_suite(s@, i as int) == Some((p.0 as int, p.1.deep_view())) && i < p.0
                <= s@.len(),
            Err(e) => spec_suite(s@, i as int) is None,
        },
{
    let (p1, name) = match suite_line(s, i) {
        Ok(x) => x,
        Err(e) => {
            return Err(e);
        },
    };
    let p2 = match suite_count(s, p1) {
        Ok(x) => x,
        Err(e) => {
            return Err(e);
        },
    };
    let (p3, tests) = test_results(s, p2);
    let (p4, fopt) = fail_opt(s, p3);
    let (p5, res) = match suite_result(s, p4) {
        Ok(x) => x,
        Err(e) => {
            return Err(e);
        },
    };
    Ok((p5, handle_parsed_suite(name, tests, fopt, res)))
}

/// One or more suite blocks, greedily.
pub fn suites_parser(s: &[u8], i: usize) -> (r: Result<(usize, Vec<Suite>), ParseError>)
    requires
        i <= s@.len(),
    ensures
        match r {
            Ok(p) => spec_suites(s@, i as int) == Some((p.0 as int, p.1.deep_view())) && i < p.0
                <= s@.len(),
            Err(e) => spec_suites(s@, i as int) is None,
        },
{
    let (j0, s0) = match suite_parser(s, i) {
        Ok(x) => x,
        Err(e) => {
            return Err(e);
        },
    };
    let ghost s0m = s0.deep_view();
    let mut out: Vec<Suite> = Vec::new();
    out.push(s0);
    let mut pos = j0;
    assert(out.deep_view() =~= seq![s0m]);
    loop
        invariant_except_break
            i < pos <= s@.len(),
            spec_suites(s@, i as int) matches Some(res) && res.0 == spec_more_suites(
                s@,
                pos as int,
            ).0 && res.1 == out.deep_view() + spec_more_suites(s@, pos as int).1,
        ensures
            spec_suites(s@, i as int) == Some((pos as int, out.deep_view())),
            i < pos <= s@.len(),
        decreases s@.len() - pos,
    {
        match suite_parser(s, pos) {
            Ok((j, su)) => {
                let ghost prev = out.deep_view();
                let ghost sm = su.deep_view();
                out.push(su);
                proof {
                    assert(out.deep_view() =~= prev.push(sm));
                    assert(prev.push(sm) + spec_more_suites(s@, j as int).1 =~= prev + (seq![sm]
                        + spec_more_suites(s@, j as int).1));
                }
                pos = j;
            },
            Err(e) => {
                assert(spec_more_suites(s@, pos as int) == (pos as int, Seq::<
                    crate::transcript::SuiteM,
                >::empty()));
                assert(out.deep_view() + Seq::<crate::transcript::SuiteM>::empty()
                    =~= out.deep_view());
                break ;
            },
        }
    }
    Ok((pos, out))
}

/// A whole transcript: compile notices, the completion line, then the
/// suites. The offset returned is where the last suite's summary ended;
/// trailing content is the caller's to judge (see `parse_transcript`).
pub fn cargo_test_result_parser(s: &[u8], i: usize) -> (r: Result<(usize, Vec<Suite>), ParseError>)
    requires
        i <= s@.len(),
    ensures
        match r {
            Ok(p) => spec_transcript(s@, i as int) == Some((p.0 as int, p.1.deep_view())) && i
                <= p.0 <= s@.len(),
            Err(e) => spec_transcript(s@, i as int) is None,
        },
{
    let (p1, count) = compiling(s, i);
    let p2 = match finished(s, p1) {
        Ok(x) => x,
        Err(e) => {
            return Err(e);
        },
    };
    suites_parser(s, p2)
}

/// A whole transcript, required to be fully consumed but for trailing
/// blanks: the legal inputs are exactly those `spec_transcript_complete`
/// accepts, and the suites returned are exactly the ones it yields.
pub fn parse_transcript(s: &[u8]) -> (r: Result<Vec<Suite>, ParseError>)
    ensures
        match r {
            Ok(v) => crate::grammar::spec_transcript_complete(s@) == Some(v.deep_view()),
            Err(e) => crate::grammar::spec_transcript_complete(s@) is None,
        },
{
    match cargo_test_result_parser(s, 0) {
        Err(e) => Err(e),
        Ok((p, suites)) => {
            let q = skip_ws(s, p);
            if q == s.len() {
                Ok(suites)
            } else {
                Err(ParseError { offset: q, expected: Expected::SuiteHeader })
            }
        },
    }
}

} // verus!
