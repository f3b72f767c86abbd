//! The update orchestrator's state machine, driven event by event.

use snapshot::orchestrator::{
    choice_from_index, split_snapshot_key, start, step, test_names_from_keys, Action, Event,
    KeyError, OrchestratorState, UpdateChoice,
};

fn names(xs: &[&str]) -> Vec<String> {
    xs.iter().map(|s| s.to_string()).collect()
}

#[test]
fn nothing_discovered_means_nothing_to_update() {
    let (state, action) = start(Vec::new());
    assert!(matches!(state, OrchestratorState::AllCurrent));
    assert!(matches!(action, Action::Exit { code: 0 }));
}

#[test]
fn baseline_runs_every_test_in_discovery_order() {
    let (state, action) = start(names(&["a", "b"]));
    match &action {
        Action::RunTest { name, update_mode } => {
            assert_eq!(name, "a");
            assert!(!update_mode);
        }
        other => panic!("expected a run, got {:?}", other),
    }
    let (state, action) = step(state, Event::RunFinished { passed: true });
    match &action {
        Action::RunTest { name, update_mode } => {
            assert_eq!(name, "b");
            assert!(!update_mode);
        }
        other => panic!("expected a run, got {:?}", other),
    }
    let (state, action) = step(state, Event::RunFinished { passed: true });
    assert!(matches!(state, OrchestratorState::AllCurrent));
    assert!(matches!(action, Action::Exit { code: 0 }));
}

#[test]
fn failed_baselines_are_offered_for_selection() {
    let (state, _) = start(names(&["a", "b"]));
    let (state, _) = step(state, Event::RunFinished { passed: false });
    let (state, action) = step(state, Event::RunFinished { passed: true });
    match &action {
        Action::PromptSelection { items } => assert_eq!(items, &names(&["a"])),
        other => panic!("expected a selection prompt, got {:?}", other),
    }
    assert!(matches!(state, OrchestratorState::AwaitSelection { .. }));
}

#[test]
fn empty_selection_finishes_successfully() {
    let (state, _) = start(names(&["a"]));
    let (state, _) = step(state, Event::RunFinished { passed: false });
    let (state, action) = step(state, Event::Selected { indices: Vec::new() });
    assert!(matches!(state, OrchestratorState::Done));
    assert!(matches!(action, Action::Exit { code: 0 }));
}

#[test]
fn selected_tests_are_rerun_in_update_mode() {
    let (state, _) = start(names(&["a", "b"]));
    let (state, _) = step(state, Event::RunFinished { passed: false });
    let (state, _) = step(state, Event::RunFinished { passed: false });
    let (state, action) = step(state, Event::Selected { indices: vec![0, 1] });
    match &action {
        Action::RunTest { name, update_mode } => {
            assert_eq!(name, "a");
            assert!(update_mode);
        }
        other => panic!("expected an update run, got {:?}", other),
    }
    let (state, action) = step(state, Event::RunFinished { passed: true });
    match &action {
        Action::RunTest { name, update_mode } => {
            assert_eq!(name, "b");
            assert!(update_mode);
        }
        other => panic!("expected an update run, got {:?}", other),
    }
    let (state, action) = step(state, Event::RunFinished { passed: true });
    assert!(matches!(state, OrchestratorState::Done));
    assert!(matches!(action, Action::Exit { code: 0 }));
}

#[test]
fn retry_reruns_the_same_test() {
    let (state, _) = start(names(&["a"]));
    let (state, _) = step(state, Event::RunFinished { passed: false });
    let (state, _) = step(state, Event::Selected { indices: vec![0] });
    let (state, action) = step(state, Event::RunFinished { passed: false });
    assert!(matches!(action, Action::PromptChoice));
    let (state, action) = step(state, Event::Chose { choice: UpdateChoice::Retry });
    match &action {
        Action::RunTest { name, update_mode } => {
            assert_eq!(name, "a");
            assert!(update_mode);
        }
        other => panic!("expected a retry run, got {:?}", other),
    }
    assert!(matches!(state, OrchestratorState::Updating { .. }));
}

#[test]
fn skip_abandons_the_test_and_moves_on() {
    let (state, _) = start(names(&["a", "b"]));
    let (state, _) = step(state, Event::RunFinished { passed: false });
    let (state, _) = step(state, Event::RunFinished { passed: false });
    let (state, _) = step(state, Event::Selected { indices: vec![0, 1] });
    let (state, _) = step(state, Event::RunFinished { passed: false });
    let (state, action) = step(state, Event::Chose { choice: UpdateChoice::Skip });
    match &action {
        Action::RunTest { name, update_mode } => {
            assert_eq!(name, "b");
            assert!(update_mode);
        }
        other => panic!("expected the next update run, got {:?}", other),
    }
    let (state, action) = step(state, Event::RunFinished { passed: true });
    assert!(matches!(state, OrchestratorState::Done));
    assert!(matches!(action, Action::Exit { code: 0 }));
}

#[test]
fn abort_after_failed_update_exits_with_failure() {
    let (state, action) = start(names(&["stale"]));
    assert!(matches!(action, Action::RunTest { update_mode: false, .. }));
    let (state, action) = step(state, Event::RunFinished { passed: false });
    assert!(matches!(action, Action::PromptSelection { .. }));
    let (state, action) = step(state, Event::Selected { indices: vec![0] });
    assert!(matches!(action, Action::RunTest { update_mode: true, .. }));
    let (state, action) = step(state, Event::RunFinished { passed: false });
    assert!(matches!(action, Action::PromptChoice));
    let (state, action) = step(state, Event::Chose { choice: UpdateChoice::Abort });
    assert!(matches!(state, OrchestratorState::Aborted));
    assert!(matches!(action, Action::Exit { code: 1 }));
}

#[test]
fn spawn_failure_is_fatal_in_any_state() {
    let (state, _) = start(names(&["a"]));
    let (state, action) = step(state, Event::SpawnFailed);
    assert!(matches!(state, OrchestratorState::Failed));
    assert!(matches!(action, Action::Exit { code: 1 }));
}

#[test]
fn out_of_range_selection_is_fatal() {
    let (state, _) = start(names(&["a"]));
    let (state, _) = step(state, Event::RunFinished { passed: false });
    let (state, action) = step(state, Event::Selected { indices: vec![5] });
    assert!(matches!(state, OrchestratorState::Failed));
    assert!(matches!(action, Action::Exit { code: 1 }));
}

#[test]
fn the_choice_menu_maps_indices_in_order() {
    assert_eq!(choice_from_index(0), Some(UpdateChoice::Retry));
    assert_eq!(choice_from_index(1), Some(UpdateChoice::Skip));
    assert_eq!(choice_from_index(2), Some(UpdateChoice::Abort));
    assert_eq!(choice_from_index(3), None);
}

#[test]
fn keys_split_at_their_first_separator() {
    let key = "mycrate::tests::records_a_value".to_string();
    let (head, rest) = split_snapshot_key(&key).unwrap();
    assert_eq!(head, "mycrate".to_string());
    assert_eq!(rest, "tests::records_a_value".to_string());
    assert_eq!(split_snapshot_key(&"nosep".to_string()), None);
}

#[test]
fn discovery_keeps_order_and_rejects_malformed_keys() {
    let keys = vec!["a::t1".to_string(), "b::m::t2".to_string()];
    assert_eq!(
        test_names_from_keys(&keys),
        Ok(vec!["t1".to_string(), "m::t2".to_string()])
    );
    let bad = vec!["a::t1".to_string(), "broken".to_string()];
    assert_eq!(test_names_from_keys(&bad), Err(KeyError { index: 1 }));
}
