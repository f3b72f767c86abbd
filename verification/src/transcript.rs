//! What a test-runner transcript parses into: suites, their tests, and
//! failure details. Names and messages are kept as the exact bytes the
//! runner printed.

use vstd::prelude::*;

verus! {

/// One outcome token of a test or a whole suite: the runner prints `ok`
/// for a pass and `FAILED` for a failure.
#[derive(Clone, Copy, Debug, PartialEq, Eq, Structural)]
pub enum Status {
    Pass,
    Fail,
}

/// One test's result line, with the failure message attached when the
/// failures section carries one under the same name.
#[derive(Debug)]
pub struct Test {
    pub name: Vec<u8>,
    pub status: Status,
    pub error: Option<Vec<u8>>,
}

/// Mathematical model of `Test`.
pub struct TestM {
    pub name: Seq<u8>,
    pub status: Status,
    pub error: Option<Seq<u8>>,
}

/// One block of the failures section: the failing test's name and the
/// message line under its header.
#[derive(Debug)]
pub struct Failure {
    pub name: Vec<u8>,
    pub error: Vec<u8>,
}

/// Mathematical model of `Failure`.
pub struct FailureM {
    pub name: Seq<u8>,
    pub error: Seq<u8>,
}

/// One suite's summary line. `total` is always recomputed as
/// `passed + failed + ignored`, never read from the transcript.
#[derive(Clone, Copy, Debug, PartialEq, Eq, Structural)]
pub struct SuiteResult {
    pub state: Status,
    pub passed: u64,
    pub failed: u64,
    pub ignored: u64,
    pub total: u64,
    pub measured: u64,
}

/// One suite block: its name, the summary counts, and its test results in
/// transcript order.
#[derive(Debug)]
pub struct Suite {
    pub name: Vec<u8>,
    pub state: Status,
    pub passed: u64,
    pub failed: u64,
    pub ignored: u64,
    pub measured: u64,
    pub total: u64,
    pub tests: Vec<Test>,
}

/// Mathematical model of `Suite`.
pub struct SuiteM {
    pub name: Seq<u8>,
    pub state: Status,
    pub passed: u64,
    pub failed: u64,
    pub ignored: u64,
    pub measured: u64,
    pub total: u64,
    pub tests: Seq<TestM>,
}

impl DeepView for Test {
    type V = TestM;

    open spec fn deep_view(&self) -> TestM {
        TestM {
            name: self.name@,
            status: self.status,
            error: match self.error {
                Some(e) => Some(e@),
                None => None,
            },
        }
    }
}

impl DeepView for Failure {
    type V = FailureM;

    open spec fn deep_view(&self) -> FailureM {
        FailureM { name: self.name@, error: self.error@ }
    }
}

impl DeepView for Suite {
    type V = SuiteM;

    open spec fn deep_view(&self) -> SuiteM {
        SuiteM {
            name: self.name@,
            state: self.state,
            passed: self.passed,
            failed: self.failed,
            ignored: self.ignored,
            measured: self.measured,
            total: self.total,
            tests: self.tests.deep_view(),
        }
    }
}

/// Whether two byte strings hold the same bytes.
pub fn bytes_eq(a: &Vec<u8>, b: &Vec<u8>) -> (r: bool)
    ensures
        r == (a@ == b@),
{
    if a.len() != b.len() {
        return false;
    }
    let mut i: usize = 0;
    while i < a.len()
        invariant
            i <= a@.len(),
            a@.len() == b@.len(),
            forall|k: int| 0 <= k < i ==> a@[k] == b@[k],
        decreases a@.len() - i,
    {
        if a[i] != b[i] {
            return false;
        }
        i = i + 1;
    }
    assert(a@ =~= b@);
    true
}

impl PartialEq for Test {
    fn eq(&self, other: &Test) -> (r: bool) {
        let names = bytes_eq(&self.name, &other.name);
        let status = self.status == other.status;
        let errors = match (&self.error, &other.error) {
            (None, None) => true,
            (Some(a), Some(b)) => bytes_eq(a, b),
            (_, _) => false,
        };
        names && status && errors
    }
}

impl vstd::std_specs::cmp::PartialEqSpecImpl for Test {
    open spec fn obeys_eq_spec() -> bool {
        true
    }

    open spec fn eq_spec(&self, other: &Test) -> bool {
        self.deep_view() == other.deep_view()
    }
}

impl PartialEq for Failure {
    fn eq(&self, other: &Failure) -> (r: bool) {
        bytes_eq(&self.name, &other.name) && bytes_eq(&self.error, &other.error)
    }
}

impl vstd::std_specs::cmp::PartialEqSpecImpl for Failure {
    open spec fn obeys_eq_spec() -> bool {
        true
    }

    open spec fn eq_spec(&self, other: &Failure) -> bool {
        self.deep_view() == other.deep_view()
    }
}

/// Whether two test lists hold equal tests in the same order.
fn tests_eq(a: &Vec<Test>, b: &Vec<Test>) -> (r: bool)
    ensures
        r == (a.deep_view() == b.deep_view()),
{
    if a.len() != b.len() {
        assert(a.deep_view().len() != b.deep_view().len());
        return false;
    }
    let mut i: usize = 0;
    while i < a.len()
        invariant
            i <= a@.len(),
            a@.len() == b@.len(),
            forall|k: int| 0 <= k < i ==> a@[k].deep_view() == b@[k].deep_view(),
        decreases a@.len() - i,
    {
        if !(a[i].eq(&b[i])) {
            assert(a.deep_view()[i as int] != b.deep_view()[i as int]);
            return false;
        }
        i = i + 1;
    }
    assert(a.deep_view() =~= b.deep_view());
    true
}

impl PartialEq for Suite {
    fn eq(&self, other: &Suite) -> (r: bool) {
        bytes_eq(&self.name, &other.name) && self.state == other.state && self.passed
            == other.passed && self.failed == other.failed && self.ignored == other.ignored
            && self.measured == other.measured && self.total == other.total && tests_eq(
            &self.tests,
            &other.tests,
        )
    }
}

impl vstd::std_specs::cmp::PartialEqSpecImpl for Suite {
    open spec fn obeys_eq_spec() -> bool {
        true
    }

    open spec fn eq_spec(&self, other: &Suite) -> bool {
        self.deep_view() == other.deep_view()
    }
}

} // verus!
