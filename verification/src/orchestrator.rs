//! The update orchestrator: a state machine that baseline-tests every
//! discovered snapshot test, lets the operator select the stale ones, and
//! drives a retry/skip/abort loop per selected test.
//!
//! The machine itself is pure: it consumes one event at a time and answers
//! with the next state and the single action the caller has to perform
//! (run a test, prompt the operator, or exit with a code). All process
//! spawning and prompting stays outside the library.

use vstd::prelude::*;

use crate::util::{clone_string, clone_strings};

verus! {

/// The operator's answer after a failed update attempt.
#[derive(Clone, Copy, Debug, PartialEq, Eq, Structural)]
pub enum UpdateChoice {
    Retry,
    Skip,
    Abort,
}

/// State of one orchestrator run.
#[derive(Debug)]
pub enum OrchestratorState {
    /// Running every discovered test once, in discovery order, collecting
    /// the names that failed; `next` is the index of the test whose run is
    /// in flight.
    Baseline { pending: Vec<String>, next: usize, failed: Vec<String> },
    /// Waiting for the operator to pick the subset of failed tests to update.
    AwaitSelection { failed: Vec<String> },
    /// Updating the selected tests one at a time; the run of
    /// `worklist[current]` (in update mode) is in flight.
    Updating { worklist: Vec<String>, current: usize },
    /// The update run of `worklist[current]` failed; waiting for the
    /// operator to choose retry, skip or abort.
    AwaitChoice { worklist: Vec<String>, current: usize },
    /// Terminal: no test failed its baseline run.
    AllCurrent,
    /// Terminal: the worklist was exhausted without an abort.
    Done,
    /// Terminal: the operator chose to abort.
    Aborted,
    /// Terminal: a spawn or input failure, or a protocol violation.
    Failed,
}

/// What the environment reports back to the machine.
#[derive(Debug)]
pub enum Event {
    /// The test-runner process for the requested test exited; `passed` is
    /// whether its exit status was success.
    RunFinished { passed: bool },
    /// The operator picked these indices into the offered list.
    Selected { indices: Vec<usize> },
    /// The operator answered a retry/skip/abort prompt.
    Chose { choice: UpdateChoice },
    /// The test runner could not be started at all.
    SpawnFailed,
    /// The input channel failed or was closed.
    UiFailed,
}

/// What the caller must do next.
#[derive(Debug)]
pub enum Action {
    /// Run the test runner scoped to this single test; `update_mode` asks
    /// for the environment signal that makes the test record instead of
    /// check.
    RunTest { name: String, update_mode: bool },
    /// Offer these names for multi-selection.
    PromptSelection { items: Vec<String> },
    /// Ask retry/skip/abort.
    PromptChoice,
    /// Terminate the run with this exit code.
    Exit { code: i32 },
}

/// Mathematical model of `OrchestratorState`.
pub enum StateM {
    Baseline { pending: Seq<Seq<char>>, next: int, failed: Seq<Seq<char>> },
    AwaitSelection { failed: Seq<Seq<char>> },
    Updating { worklist: Seq<Seq<char>>, current: int },
    AwaitChoice { worklist: Seq<Seq<char>>, current: int },
    AllCurrent,
    Done,
    Aborted,
    Failed,
}

/// Mathematical model of `Event`.
pub enum EventM {
    RunFinished { passed: bool },
    Selected { indices: Seq<usize> },
    Chose { choice: UpdateChoice },
    SpawnFailed,
    UiFailed,
}

/// Mathematical model of `Action`.
pub enum ActionM {
    RunTest { name: Seq<char>, update_mode: bool },
    PromptSelection { items: Seq<Seq<char>> },
    PromptChoice,
    Exit { code: i32 },
}

impl DeepView for OrchestratorState {
    type V = StateM;

    open spec fn deep_view(&self) -> StateM {
        match self {
            OrchestratorState::Baseline { pending, next, failed } => StateM::Baseline {
                pending: pending.deep_view(),
                next: *next as int,
                failed: failed.deep_view(),
            },
            OrchestratorState::AwaitSelection { failed } => StateM::AwaitSelection {
                failed: failed.deep_view(),
            },
            OrchestratorState::Updating { worklist, current } => StateM::Updating {
                worklist: worklist.deep_view(),
                current: *current as int,
            },
            OrchestratorState::AwaitChoice { worklist, current } => StateM::AwaitChoice {
                worklist: worklist.deep_view(),
                current: *current as int,
            },
            OrchestratorState::AllCurrent => StateM::AllCurrent,
            OrchestratorState::Done => StateM::Done,
            OrchestratorState::Aborted => StateM::Aborted,
            OrchestratorState::Failed => StateM::Failed,
        }
    }
}

impl DeepView for Event {
    type V = EventM;

    open spec fn deep_view(&self) -> EventM {
        match self {
            Event::RunFinished { passed } => EventM::RunFinished { passed: *passed },
            Event::Selected { indices } => EventM::Selected { indices: indices.deep_view() },
            Event::Chose { choice } => EventM::Chose { choice: *choice },
            Event::SpawnFailed => EventM::SpawnFailed,
            Event::UiFailed => EventM::UiFailed,
        }
    }
}

impl DeepView for Action {
    type V = ActionM;

    open spec fn deep_view(&self) -> ActionM {
        match self {
            Action::RunTest { name, update_mode } => ActionM::RunTest {
                name: name.deep_view(),
                update_mode: *update_mode,
            },
            Action::PromptSelection { items } => ActionM::PromptSelection {
                items: items.deep_view(),
            },
            Action::PromptChoice => ActionM::PromptChoice,
            Action::Exit { code } => ActionM::Exit { code: *code },
        }
    }
}

/// Every chosen index points into the offered list.
pub open spec fn spec_selection_valid(indices: Seq<usize>, len: int) -> bool {
    forall|i: int| 0 <= i < indices.len() ==> indices[i] < len
}

/// The names picked out of `failed` by `indices`, in selection order.
pub open spec fn spec_selected_names(failed: Seq<Seq<char>>, indices: Seq<usize>) -> Seq<
    Seq<char>,
> {
    Seq::new(indices.len(), |i: int| failed[indices[i] as int])
}

/// Where a run starts: nothing discovered means nothing to update;
/// otherwise the first discovered test is baseline-run.
pub open spec fn spec_start(discovered: Seq<Seq<char>>) -> (StateM, ActionM) {
    if discovered.len() == 0 {
        (StateM::AllCurrent, ActionM::Exit { code: 0 })
    } else {
        (
            StateM::Baseline { pending: discovered, next: 0, failed: Seq::empty() },
            ActionM::RunTest { name: discovered[0], update_mode: false },
        )
    }
}

/// After the baseline run of `pending[next]` came back, either move to the
/// next baseline run or close the phase.
pub open spec fn spec_baseline_advance(
    pending: Seq<Seq<char>>,
    next: int,
    failed: Seq<Seq<char>>,
) -> (StateM, ActionM) {
    if next + 1 < pending.len() {
        (
            StateM::Baseline { pending, next: next + 1, failed },
            ActionM::RunTest { name: pending[next + 1], update_mode: false },
        )
    } else if failed.len() == 0 {
        (StateM::AllCurrent, ActionM::Exit { code: 0 })
    } else {
        (StateM::AwaitSelection { failed }, ActionM::PromptSelection { items: failed })
    }
}

/// After `worklist[current]` was updated or skipped, move on or finish.
pub open spec fn spec_update_advance(worklist: Seq<Seq<char>>, current: int) -> (StateM, ActionM) {
    if current + 1 < worklist.len() {
        (
            StateM::Updating { worklist, current: current + 1 },
            ActionM::RunTest { name: worklist[current + 1], update_mode: true },
        )
    } else {
        (StateM::Done, ActionM::Exit { code: 0 })
    }
}

/// The whole transition relation, one event at a time. Spawn and input
/// failures are fatal in any state; an event that the state does not
/// expect is treated the same way.
pub open spec fn spec_step(state: StateM, event: EventM) -> (StateM, ActionM) {
    match (state, event) {
        (_, EventM::SpawnFailed) => (StateM::Failed, ActionM::Exit { code: 1 }),
        (_, EventM::UiFailed) => (StateM::Failed, ActionM::Exit { code: 1 }),
        (
            StateM::Baseline { pending, next, failed },
            EventM::RunFinished { passed },
        ) => if 0 <= next < pending.len() {
            let failed2 = if passed {
                failed
            } else {
                failed.push(pending[next])
            };
            spec_baseline_advance(pending, next, failed2)
        } else {
            (StateM::Failed, ActionM::Exit { code: 1 })
        },
        (StateM::AwaitSelection { failed }, EventM::Selected { indices }) => if spec_selection_valid(
            indices,
            failed.len() as int,
        ) {
            if indices.len() == 0 {
                (StateM::Done, ActionM::Exit { code: 0 })
            } else {
                let worklist = spec_selected_names(failed, indices);
                (
                    StateM::Updating { worklist, current: 0 },
                    ActionM::RunTest { name: worklist[0], update_mode: true },
                )
            }
        } else {
            (StateM::Failed, ActionM::Exit { code: 1 })
        },
        (
            StateM::Updating { worklist, current },
            EventM::RunFinished { passed },
        ) => if 0 <= current < worklist.len() {
            if passed {
                spec_update_advance(worklist, current)
            } else {
                (StateM::AwaitChoice { worklist, current }, ActionM::PromptChoice)
            }
        } else {
            (StateM::Failed, ActionM::Exit { code: 1 })
        },
        (
            StateM::AwaitChoice { worklist, current },
            EventM::Chose { choice },
        ) => if 0 <= current < worklist.len() {
            match choice {
                UpdateChoice::Retry => (
                    StateM::Updating { worklist, current },
                    ActionM::RunTest { name: worklist[current], update_mode: true },
                ),
                UpdateChoice::Skip => spec_update_advance(worklist, current),
                UpdateChoice::Abort => (StateM::Aborted, ActionM::Exit { code: 1 }),
            }
        } else {
            (StateM::Failed, ActionM::Exit { code: 1 })
        },
        _ => (StateM::Failed, ActionM::Exit { code: 1 }),
    }
}

/// The names picked by `indices` out of `failed`, or `None` if some index
/// is out of range.
fn gather_selection(failed: &Vec<String>, indices: &Vec<usize>) -> (r: Option<Vec<String>>)
    ensures
        match r {
            Some(w) => spec_selection_valid(indices.deep_view(), failed.deep_view().len() as int)
                && w.deep_view() == spec_selected_names(failed.deep_view(), indices.deep_view()),
            None => !spec_selection_valid(
                indices.deep_view(),
                failed.deep_view().len() as int,
            ),
        },
{
    let mut w: Vec<String> = Vec::new();
    let mut i: usize = 0;
    while i < indices.len()
        invariant
            i <= indices.len(),
            w@.len() == i,
            forall|k: int| 0 <= k < i ==> indices@[k] < failed@.len(),
            forall|k: int| 0 <= k < i ==> w@[k]@ == failed@[indices@[k] as int]@,
        decreases indices.len() - i,
    {
        let idx = indices[i];
        if idx >= failed.len() {
            assert(indices.deep_view()[i as int] >= failed.deep_view().len());
            return None;
        }
        w.push(clone_string(&failed[idx]));
        i = i + 1;
    }
    assert(w.deep_view() =~= spec_selected_names(failed.deep_view(), indices.deep_view()));
    Some(w)
}

/// Begin a run over the discovered test names, in discovery order.
pub fn start(discovered: Vec<String>) -> (r: (OrchestratorState, Action))
    ensures
        (r.0.deep_view(), r.1.deep_view()) == spec_start(discovered.deep_view()),
{
    if discovered.len() == 0 {
        assert(discovered.deep_view().len() == 0);
        (OrchestratorState::AllCurrent, Action::Exit { code: 0 })
    } else {
        let first = clone_string(&discovered[0]);
        let failed: Vec<String> = Vec::new();
        assert(failed.deep_view() =~= Seq::<Seq<char>>::empty());
        assert(first@ == discovered.deep_view()[0]);
        (
            OrchestratorState::Baseline { pending: discovered, next: 0, failed },
            Action::RunTest { name: first, update_mode: false },
        )
    }
}

/// Move to the next baseline run, or close the baseline phase.
fn baseline_advance(pending: Vec<String>, next: usize, failed: Vec<String>) -> (r: (
    OrchestratorState,
    Action,
))
    requires
        next < pending.len(),
    ensures
        (r.0.deep_view(), r.1.deep_view()) == spec_baseline_advance(
            pending.deep_view(),
            next as int,
            failed.deep_view(),
        ),
{
    if next + 1 < pending.len() {
        let name = clone_string(&pending[next + 1]);
        (
            OrchestratorState::Baseline { pending, next: next + 1, failed },
            Action::RunTest { name, update_mode: false },
        )
    } else if failed.len() == 0 {
        (OrchestratorState::AllCurrent, Action::Exit { code: 0 })
    } else {
        let items = clone_strings(&failed);
        (OrchestratorState::AwaitSelection { failed }, Action::PromptSelection { items })
    }
}

/// Move to the next worklist item, or finish the run.
fn update_advance(worklist: Vec<String>, current: usize) -> (r: (OrchestratorState, Action))
    requires
        current < worklist.len(),
    ensures
        (r.0.deep_view(), r.1.deep_view()) == spec_update_advance(
            worklist.deep_view(),
            current as int,
        ),
{
    if current + 1 < worklist.len() {
        let name = clone_string(&worklist[current + 1]);
        (
            OrchestratorState::Updating { worklist, current: current + 1 },
            Action::RunTest { name, update_mode: true },
        )
    } else {
        (OrchestratorState::Done, Action::Exit { code: 0 })
    }
}

/// Feed one event to the machine and obtain the next state and action.
pub fn step(state: OrchestratorState, event: Event) -> (r: (OrchestratorState, Action))
    ensures
        (r.0.deep_view(), r.1.deep_view()) == spec_step(state.deep_view(), event.deep_view()),
{
    match (state, event) {
        (_, Event::SpawnFailed) => (OrchestratorState::Failed, Action::Exit { code: 1 }),
        (_, Event::UiFailed) => (OrchestratorState::Failed, Action::Exit { code: 1 }),
        (
            OrchestratorState::Baseline { pending, next, failed },
            Event::RunFinished { passed },
        ) => {
            if next < pending.len() {
                let failed2 = if passed {
                    failed
                } else {
                    let ghost failed0 = failed.deep_view();
                    let mut f = failed;
                    f.push(clone_string(&pending[next]));
                    assert(f.deep_view() =~= failed0.push(pending.deep_view()[next as int]));
                    f
                };
                baseline_advance(pending, next, failed2)
            } else {
                (OrchestratorState::Failed, Action::Exit { code: 1 })
            }
        },
        (OrchestratorState::AwaitSelection { failed }, Event::Selected { indices }) => {
            match gather_selection(&failed, &indices) {
                Some(worklist) => {
                    assert(worklist.deep_view().len() == indices.deep_view().len());
                    if worklist.len() == 0 {
                        (OrchestratorState::Done, Action::Exit { code: 0 })
                    } else {
                        let name = clone_string(&worklist[0]);
                        assert(name@ == worklist.deep_view()[0]);
                        (
                            OrchestratorState::Updating { worklist, current: 0 },
                            Action::RunTest { name, update_mode: true },
                        )
                    }
                },
                None => (OrchestratorState::Failed, Action::Exit { code: 1 }),
            }
        },
        (
            OrchestratorState::Updating { worklist, current },
            Event::RunFinished { passed },
        ) => {
            if current < worklist.len() {
                if passed {
                    update_advance(worklist, current)
                } else {
                    (
                        OrchestratorState::AwaitChoice { worklist, current },
                        Action::PromptChoice,
                    )
                }
            } else {
                (OrchestratorState::Failed, Action::Exit { code: 1 })
            }
        },
        (
            OrchestratorState::AwaitChoice { worklist, current },
            Event::Chose { choice },
        ) => {
            if current < worklist.len() {
                match choice {
                    UpdateChoice::Retry => {
                        let name = clone_string(&worklist[current]);
                        (
                            OrchestratorState::Updating { worklist, current },
                            Action::RunTest { name, update_mode: true },
                        )
                    },
                    UpdateChoice::Skip => update_advance(worklist, current),
                    UpdateChoice::Abort => (
                        OrchestratorState::Aborted,
                        Action::Exit { code: 1 },
                    ),
                }
            } else {
                (OrchestratorState::Failed, Action::Exit { code: 1 })
            }
        },
        (_, _) => (OrchestratorState::Failed, Action::Exit { code: 1 }),
    }
}

/// A snapshot key that carries no `::` separator: it cannot name a module
/// path and a test function, so discovery fails on it. `index` is the
/// position of the first such key in the discovered list.
#[derive(Clone, Copy, Debug, PartialEq, Eq, Structural)]
pub struct KeyError {
    pub index: usize,
}

/// Position of the first `::` at or after `i` in `k`.
pub open spec fn sep_pos_from(k: Seq<char>, i: int) -> Option<int>
    decreases k.len() - i,
{
    if i + 2 <= k.len() {
        if k[i] == ':' && k[i + 1] == ':' {
            Some(i)
        } else {
            sep_pos_from(k, i + 1)
        }
    } else {
        None
    }
}

/// A key split at its first `::`: the leading component (the crate name in
/// keys the store writes) and everything after the separator.
pub open spec fn spec_key_split(k: Seq<char>) -> Option<(Seq<char>, Seq<char>)> {
    match sep_pos_from(k, 0) {
        Some(m) => Some((k.subrange(0, m), k.subrange(m + 2, k.len() as int))),
        None => None,
    }
}

/// What a discovered key contributes to the worklist: the part after the
/// first `::`, which scopes the test runner to one test.
pub open spec fn spec_test_name(k: Seq<char>) -> Option<Seq<char>> {
    match spec_key_split(k) {
        Some(p) => Some(p.1),
        None => None,
    }
}

/// Split a snapshot key at its first `::`; `None` when the key has no
/// separator at all.
pub fn split_snapshot_key(key: &String) -> (r: Option<(String, String)>)
    ensures
        match r {
            Some(parts) => spec_key_split(key@) == Some((parts.0@, parts.1@)),
            None => spec_key_split(key@) is None,
        },
{
    let s = key.as_str();
    let n = s.unicode_len();
    let mut i: usize = 0;
    while n - i >= 2
        invariant
            n == s@.len(),
            i <= n,
            s@ == key@,
            sep_pos_from(key@, 0) == sep_pos_from(key@, i as int),
        decreases n - i,
    {
        if s.get_char(i) == ':' && s.get_char(i + 1) == ':' {
            let head = s.substring_char(0, i).to_owned();
            let rest = s.substring_char(i + 2, n).to_owned();
            assert(sep_pos_from(key@, i as int) == Some(i as int));
            return Some((head, rest));
        }
        i = i + 1;
    }
    None
}

/// Turn every discovered key into the test name the runner is scoped to,
/// in discovery order; a key without a separator is fatal and is reported
/// with its position.
pub fn test_names_from_keys(keys: &Vec<String>) -> (r: Result<Vec<String>, KeyError>)
    ensures
        match r {
            Ok(names) => names@.len() == keys@.len() && forall|i: int|
                0 <= i < keys@.len() ==> spec_test_name(keys@[i]@) == Some(names@[i]@),
            Err(e) => e.index < keys@.len() && spec_test_name(keys@[e.index as int]@) is None
                && forall|j: int| 0 <= j < e.index ==> spec_test_name(keys@[j]@) is Some,
        },
{
    let mut names: Vec<String> = Vec::new();
    let mut i: usize = 0;
    while i < keys.len()
        invariant
            i <= keys@.len(),
            names@.len() == i,
            forall|k: int| 0 <= k < i ==> spec_test_name(keys@[k]@) == Some(names@[k]@),
        decreases keys.len() - i,
    {
        match split_snapshot_key(&keys[i]) {
            Some(parts) => {
                names.push(parts.1);
            },
            None => {
                return Err(KeyError { index: i });
            },
        }
        i = i + 1;
    }
    Ok(names)
}

/// The retry/skip/abort menu offers exactly three options, in this order;
/// the selection index the UI reports maps back to the choice.
pub fn choice_from_index(index: usize) -> (r: Option<UpdateChoice>)
    ensures
        r == (if index == 0 {
            Some(UpdateChoice::Retry)
        } else if index == 1 {
            Some(UpdateChoice::Skip)
        } else if index == 2 {
            Some(UpdateChoice::Abort)
        } else {
            None::<UpdateChoice>
        }),
{
    if index == 0 {
        Some(UpdateChoice::Retry)
    } else if index == 1 {
        Some(UpdateChoice::Skip)
    } else if index == 2 {
        Some(UpdateChoice::Abort)
    } else {
        None
    }
}

} // verus!
