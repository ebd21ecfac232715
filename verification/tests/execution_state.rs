use std::collections::{HashMap, HashSet};

use beam::execution::{
    apply_request_run_completion_status, completion_updates_selected_request_ui,
    parse_response_duration_ms, parse_response_headers, request_run_completion_is_current,
    response_summary_for_selected_request, script_contains_environment_mutation,
    send_button_state_for_selected_request, send_button_state_without_runtime,
    apply_script_environment_changes_to_variables, post_script_from_editor, send_check,
    RequestExecutionState, RequestExecutionStatus, RequestRuns, SendButtonState, SendCheck,
    SendDisabledReason,
};
use beam::models::{EnvironmentVariable, RequestAuthoringState};

fn ready_request() -> RequestAuthoringState {
    RequestAuthoringState {
        url: "https://example.com".to_string(),
        ..RequestAuthoringState::default()
    }
}

fn sending(run_id: u64) -> RequestExecutionState<()> {
    RequestExecutionState { run_id, status: RequestExecutionStatus::Sending, cancel_tx: None }
}

#[test]
fn send_button_state_is_scoped_to_selected_request() {
    let request_a = 1u128;
    let request_b = 2u128;
    let mut execution_states = HashMap::new();
    execution_states.insert(request_a, sending(10));
    let request = ready_request();

    assert_eq!(
        send_button_state_for_selected_request(Some(request_a), &execution_states, &request, None),
        SendButtonState::Sending
    );
    assert_eq!(
        send_button_state_for_selected_request(Some(request_b), &execution_states, &request, None),
        SendButtonState::Ready
    );

    execution_states.insert(request_b, sending(20));
    assert_eq!(
        send_button_state_for_selected_request(Some(request_a), &execution_states, &request, None),
        SendButtonState::Sending
    );
    assert_eq!(
        send_button_state_for_selected_request(Some(request_b), &execution_states, &request, None),
        SendButtonState::Sending
    );
}

#[test]
fn stale_completion_does_not_overwrite_newer_run_state() {
    let request_id = 5u128;
    let mut execution_states = HashMap::new();
    execution_states.insert(request_id, sending(2));

    assert!(!request_run_completion_is_current(&execution_states, request_id, 1));
    apply_request_run_completion_status(&mut execution_states, request_id, 1, true);
    assert_eq!(
        execution_states
            .get(&request_id)
            .expect("request execution state should exist")
            .status,
        RequestExecutionStatus::Sending
    );

    assert!(request_run_completion_is_current(&execution_states, request_id, 2));
    apply_request_run_completion_status(&mut execution_states, request_id, 2, true);
    assert_eq!(
        execution_states
            .get(&request_id)
            .expect("request execution state should exist")
            .status,
        RequestExecutionStatus::Idle
    );
}

#[test]
fn completion_for_non_selected_request_keeps_selected_send_state() {
    let request_a = 1u128;
    let request_b = 2u128;
    let mut execution_states = HashMap::new();
    execution_states.insert(request_a, sending(7));
    let request = ready_request();

    let before = send_button_state_for_selected_request(Some(request_b), &execution_states, &request, None);
    apply_request_run_completion_status(&mut execution_states, request_a, 7, true);
    let after = send_button_state_for_selected_request(Some(request_b), &execution_states, &request, None);

    assert_eq!(before, SendButtonState::Ready);
    assert_eq!(after, SendButtonState::Ready);
}

#[test]
fn completion_updates_only_selected_request_ui_flow() {
    let request_a = 1u128;
    let request_b = 2u128;
    let mut execution_states = HashMap::new();
    execution_states.insert(request_a, sending(11));
    let request = ready_request();

    let selected_request_id = Some(request_b);
    assert!(!completion_updates_selected_request_ui(selected_request_id, request_a));
    let before = send_button_state_for_selected_request(selected_request_id, &execution_states, &request, None);
    apply_request_run_completion_status(&mut execution_states, request_a, 11, true);
    let after = send_button_state_for_selected_request(selected_request_id, &execution_states, &request, None);

    assert_eq!(before, SendButtonState::Ready);
    assert_eq!(after, SendButtonState::Ready);
    assert!(completion_updates_selected_request_ui(Some(request_a), request_a));
}

#[test]
fn selected_request_runtime_state_overrides_response_summary() {
    let request_a = 1u128;
    let request_b = 2u128;
    let mut execution_states = HashMap::new();
    execution_states.insert(request_a, sending(42));

    let selected_a = response_summary_for_selected_request(
        Some(request_a), &execution_states, "200", Some(200), "120 ms", "1.2 KB",
    );
    let selected_b = response_summary_for_selected_request(
        Some(request_b), &execution_states, "200", Some(200), "120 ms", "1.2 KB",
    );

    assert_eq!(
        selected_a,
        ("Sending...".to_string(), None, "—".to_string(), "—".to_string())
    );
    assert_eq!(
        selected_b,
        ("200".to_string(), Some(200), "120 ms".to_string(), "1.2 KB".to_string())
    );
}

#[test]
fn canceled_completion_marks_run_canceled() {
    let mut execution_states = HashMap::new();
    execution_states.insert(9u128, sending(3));
    apply_request_run_completion_status(&mut execution_states, 9, 3, false);
    assert_eq!(execution_states[&9].status, RequestExecutionStatus::Canceled);
}

#[test]
fn send_button_reflects_url() {
    let mut request = ready_request();
    assert_eq!(send_button_state_without_runtime(&request), SendButtonState::Ready);
    request.url = "   ".to_string();
    assert_eq!(
        send_button_state_without_runtime(&request),
        SendButtonState::Disabled(SendDisabledReason::EmptyUrl)
    );
    request.url = "example.com".to_string();
    assert_eq!(
        send_button_state_without_runtime(&request),
        SendButtonState::Disabled(SendDisabledReason::InvalidUrl)
    );
    request.url = "{{base}}/users".to_string();
    let states: HashMap<u128, RequestExecutionState<()>> = HashMap::new();
    assert_eq!(
        send_button_state_for_selected_request(Some(1), &states, &request, Some(3)),
        SendButtonState::Ready
    );
    assert_eq!(
        send_button_state_for_selected_request(Some(1), &states, &request, None),
        SendButtonState::Disabled(SendDisabledReason::InvalidUrl)
    );
}

#[test]
fn runs_are_numbered_and_canceled() {
    let mut runs: RequestRuns<&'static str> = RequestRuns::new();
    let first = runs.begin_request_run_for(4);
    let second = runs.begin_request_run_for(4);
    assert_eq!((first, second), (1, 2));
    assert!(runs.is_request_sending(4));
    runs.states.get_mut(&4).unwrap().cancel_tx = Some("cancel");
    assert_eq!(runs.cancel_request_run_for(4), Some("cancel"));
    assert_eq!(runs.states[&4].status, RequestExecutionStatus::Canceled);
    assert!(!runs.is_request_sending(4));
    assert_eq!(runs.clear_request_execution_state(4), None);
    assert!(runs.states.is_empty());
}

#[test]
fn environment_mutation_calls_are_found_without_regard_to_case() {
    assert!(script_contains_environment_mutation("PM.Environment.Set('a', 1)"));
    assert!(script_contains_environment_mutation("pm.extract(x)"));
    assert!(!script_contains_environment_mutation("pm.environment.get('a')"));
}

#[test]
fn script_changes_unset_then_set_variables() {
    let var = |name: &str, value: &str, enabled: bool| EnvironmentVariable {
        name: name.to_string(),
        value: value.to_string(),
        enabled,
        description: None,
    };
    let current = vec![var("host", "a", false), var("token", "t", true), var("gone", "g", true)];
    let changes = vec![("host".to_string(), "b".to_string()), ("new".to_string(), "n".to_string())];
    let removed = vec!["gone".to_string()];
    let next = apply_script_environment_changes_to_variables(&current, &changes, &removed);
    assert_eq!(next, vec![var("host", "b", true), var("token", "t", true), var("new", "n", true)]);
}

#[test]
fn response_headers_and_duration_parse() {
    let headers = parse_response_headers("content-type: text/html\r\nx-empty:\nbroken line\n server : beam ");
    assert_eq!(
        headers,
        vec![
            ("content-type".to_string(), "text/html".to_string()),
            ("x-empty".to_string(), String::new()),
            ("server".to_string(), "beam".to_string()),
        ]
    );
    assert_eq!(parse_response_duration_ms("120 ms"), Some(120));
    assert_eq!(parse_response_duration_ms("+7 ms"), Some(7));
    assert_eq!(parse_response_duration_ms("—"), None);
    assert_eq!(parse_response_duration_ms("99999999999999999999 ms"), None);
    assert_eq!(parse_response_duration_ms("12ms"), None);
}

#[test]
fn blank_post_scripts_are_dropped() {
    assert_eq!(post_script_from_editor("  \n ".to_string()), None);
    assert_eq!(
        post_script_from_editor(" pm.test() ".to_string()),
        Some(" pm.test() ".to_string())
    );
}

#[test]
fn send_checks_the_url_before_and_after_resolving() {
    let invalid_view = SendButtonState::Disabled(SendDisabledReason::InvalidUrl);
    assert_eq!(
        send_check(invalid_view, Some(1), &ready_request()),
        SendCheck { show_invalid_url_border: true, send: false }
    );
    assert_eq!(
        send_check(SendButtonState::Ready, None, &ready_request()),
        SendCheck { show_invalid_url_border: false, send: false }
    );
    assert_eq!(
        send_check(SendButtonState::Ready, Some(1), &ready_request()),
        SendCheck { show_invalid_url_border: false, send: true }
    );
    let unresolved = RequestAuthoringState {
        url: "{{base}}/users".to_string(),
        ..RequestAuthoringState::default()
    };
    assert_eq!(
        send_check(SendButtonState::Ready, Some(1), &unresolved),
        SendCheck { show_invalid_url_border: true, send: false }
    );
    let empty = RequestAuthoringState::default();
    assert_eq!(
        send_check(SendButtonState::Ready, Some(1), &empty),
        SendCheck { show_invalid_url_border: false, send: false }
    );
}

#[test]
fn runs_of_unknown_requests_are_pruned_and_their_waits_canceled() {
    let mut runs: RequestRuns<&'static str> = RequestRuns::new();
    runs.begin_request_run_for(1);
    runs.begin_request_run_for(2);
    runs.begin_request_run_for(3);
    runs.states.get_mut(&2).unwrap().cancel_tx = Some("two");
    runs.states.get_mut(&1).unwrap().cancel_tx = Some("one");
    let known: HashSet<u128> = [1u128].into_iter().collect();
    let mut cancels = runs.prune_request_execution_states(&known);
    cancels.sort();
    assert_eq!(cancels, vec![(2, "two")]);
    assert_eq!(runs.states.len(), 1);
    assert!(runs.states.contains_key(&1));
    assert_eq!(runs.next_run_id, 4);
}
