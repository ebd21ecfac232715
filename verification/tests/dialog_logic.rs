use beam::body::{format_outcome, FormatOutcome};
use beam::editor_cache::{
    insert_editor_cache_entry, remove_editor_cache_entry, BODY_EDITOR_CACHE_CAP,
};
use beam::environment::{
    add_blank_variable, remove_environment_option, remove_variable_at, selection_after_sync,
    SaveStep, VariablesSave,
};
use beam::execution::{
    canceled_response_summary, send_or_cancel_action, SendButtonState, SendDisabledReason,
    SendOrCancel,
};
use beam::models::{
    delete_field_row, grow_rows_on_focus, BodyConfig, EnvironmentVariable, QueryParamField,
};
use beam::request_save::{RequestSave, SaveTick, REQUEST_SAVE_DELAY_MS};
use beam::workspace_dialog::{
    empty_workspace_name_notice, workspace_deleted_notice, workspace_name_submit,
    WorkspaceDialogMode, WorkspaceNameSubmit,
};
use std::collections::HashMap;

#[test]
fn the_editor_cache_drops_its_oldest_entry_past_the_cap() {
    let mut cache: HashMap<u128, &str> = HashMap::new();
    let mut order: Vec<u128> = Vec::new();
    insert_editor_cache_entry(&mut cache, &mut order, 2, 1, "one");
    insert_editor_cache_entry(&mut cache, &mut order, 2, 2, "two");
    assert_eq!(cache.len(), 2);
    insert_editor_cache_entry(&mut cache, &mut order, 2, 3, "three");
    assert_eq!(cache.len(), 2);
    assert!(!cache.contains_key(&1));
    assert_eq!(order, vec![2, 3]);
    assert_eq!(BODY_EDITOR_CACHE_CAP, 32);
}

#[test]
fn a_deleted_request_leaves_the_editor_cache() {
    let mut cache: HashMap<u128, &str> = HashMap::new();
    let mut order: Vec<u128> = Vec::new();
    insert_editor_cache_entry(&mut cache, &mut order, 4, 1, "one");
    insert_editor_cache_entry(&mut cache, &mut order, 4, 2, "two");
    insert_editor_cache_entry(&mut cache, &mut order, 4, 1, "again");
    remove_editor_cache_entry(&mut cache, &mut order, 1);
    assert!(!cache.contains_key(&1));
    assert_eq!(cache.len(), 1);
    assert_eq!(order, vec![2]);
    remove_editor_cache_entry(&mut cache, &mut order, 9);
    assert_eq!(order, vec![2]);
    assert_eq!(cache.len(), 1);
}

#[test]
fn re_caching_a_request_repeats_it_in_the_order() {
    let mut cache: HashMap<u128, &str> = HashMap::new();
    let mut order: Vec<u128> = Vec::new();
    insert_editor_cache_entry(&mut cache, &mut order, 2, 1, "a");
    insert_editor_cache_entry(&mut cache, &mut order, 2, 1, "b");
    assert_eq!(cache.len(), 1);
    assert_eq!(cache[&1], "b");
    assert_eq!(order, vec![1, 1]);
}

#[test]
fn format_outcomes_follow_the_editor() {
    let body = BodyConfig::Json { text: "{\"a\":1}".to_string() };
    let r = format_outcome("{\"a\":1}", "{\"a\":2}", Ok("x".to_string()), &body);
    assert!(matches!(r, FormatOutcome::BodyChanged));
    let r = format_outcome("t", "t", Err("bad JSON".to_string()), &body);
    assert!(matches!(r, FormatOutcome::Failed(m) if m == "Failed to format request body: bad JSON"));
    let r = format_outcome("t", "t", Ok("t".to_string()), &body);
    assert!(matches!(r, FormatOutcome::Unchanged));
    match format_outcome("{\"a\":1}", "{\"a\":1}", Ok("{\n  \"a\": 1\n}".to_string()), &body) {
        FormatOutcome::Apply { body, text } => {
            assert_eq!(text, "{\n  \"a\": 1\n}");
            assert_eq!(body, BodyConfig::Json { text: "{\n  \"a\": 1\n}".to_string() });
        }
        other => panic!("unexpected {:?}", other),
    }
}

#[test]
fn the_send_shortcut_cancels_ignores_or_sends() {
    assert_eq!(send_or_cancel_action(SendButtonState::Sending), SendOrCancel::Cancel);
    assert_eq!(
        send_or_cancel_action(SendButtonState::Disabled(SendDisabledReason::EmptyUrl)),
        SendOrCancel::Ignore
    );
    assert_eq!(
        send_or_cancel_action(SendButtonState::Disabled(SendDisabledReason::InvalidUrl)),
        SendOrCancel::Send
    );
    assert_eq!(send_or_cancel_action(SendButtonState::Ready), SendOrCancel::Send);
    assert_eq!(
        canceled_response_summary(),
        ("Canceled".to_string(), None, "—".to_string(), "—".to_string())
    );
}

fn opts(ids: &[u128]) -> Vec<(u128, String)> {
    ids.iter().map(|i| (*i, format!("env {i}"))).collect()
}

#[test]
fn the_selection_survives_or_falls_back_to_the_first() {
    assert_eq!(selection_after_sync(&opts(&[4, 7]), Some(7)), Some(7));
    assert_eq!(selection_after_sync(&opts(&[4, 7]), Some(9)), Some(4));
    assert_eq!(selection_after_sync(&opts(&[4, 7]), None), Some(4));
    assert_eq!(selection_after_sync(&opts(&[]), Some(1)), None);
    let mut o = opts(&[1, 2, 3]);
    assert_eq!(remove_environment_option(&mut o, 1), Some(2));
    assert_eq!(o, opts(&[2, 3]));
    let mut o = opts(&[5]);
    assert_eq!(remove_environment_option(&mut o, 5), None);
    assert!(o.is_empty());
}

fn var(name: &str) -> EnvironmentVariable {
    EnvironmentVariable {
        name: name.to_string(),
        value: "v".to_string(),
        enabled: true,
        description: None,
    }
}

fn save_state() -> VariablesSave {
    VariablesSave {
        selected_id: Some(9),
        pending_due_at_ms: None,
        tick_scheduled: false,
        in_flight: false,
        loaded_environment_name: Some("Dev".to_string()),
        error: None,
    }
}

#[test]
fn saves_are_debounced_and_skip_blank_names() {
    let mut s = save_state();
    assert!(s.schedule_save(1000, 350));
    assert_eq!(s.pending_due_at_ms, Some(1350));
    assert!(!s.schedule_save(1100, 350));
    assert_eq!(s.pending_due_at_ms, Some(1450));
    assert!(matches!(s.save_step(1200, "Dev", &[]), SaveStep::Wait));
    match s.save_step(1500, " Staging ", &[var("a"), var("  "), var("b")]) {
        SaveStep::Save { environment_id, rename, variables } => {
            assert_eq!(environment_id, 9);
            assert_eq!(rename, Some("Staging".to_string()));
            let names: Vec<String> = variables.into_iter().map(|v| v.name).collect();
            assert_eq!(names, vec!["a", "b"]);
        }
        other => panic!("unexpected {:?}", other),
    }
    assert_eq!(s.pending_due_at_ms, None);
    assert!(!s.tick_scheduled);
    assert!(matches!(s.save_step(1600, "Dev", &[]), SaveStep::Idle));
}

#[test]
fn a_blank_name_is_refused() {
    let mut s = save_state();
    s.schedule_save(0, 350);
    assert!(matches!(s.save_step(400, "   ", &[]), SaveStep::NameEmpty));
    assert_eq!(s.error, Some("Environment name cannot be empty.".to_string()));
}

#[test]
fn unchanged_names_are_not_renamed() {
    let mut s = save_state();
    s.schedule_save(0, 350);
    match s.save_step(400, "Dev", &[]) {
        SaveStep::Save { rename, .. } => assert_eq!(rename, None),
        other => panic!("unexpected {:?}", other),
    }
    s.rename_sent("Prod".to_string());
    assert_eq!(s.loaded_environment_name, Some("Prod".to_string()));
    s.rename_failed("queue full");
    assert_eq!(s.error, Some("Failed to queue environment rename: queue full".to_string()));
}

#[test]
fn backpressure_retries_the_save() {
    let mut s = save_state();
    assert!(s.save_sent(Err("Backpressure: busy".to_string()), 2000));
    assert_eq!(s.pending_due_at_ms, Some(2100));
    assert!(s.tick_scheduled);
    assert_eq!(s.error, Some("Failed to queue environment save: Backpressure: busy".to_string()));
    let mut s = save_state();
    assert!(!s.save_sent(Err("closed".to_string()), 2000));
    assert_eq!(s.pending_due_at_ms, None);
    assert!(!s.save_sent(Ok(()), 2000));
    assert_eq!(s.error, None);
}

#[test]
fn nothing_is_scheduled_without_a_selection() {
    let mut s = save_state();
    s.selected_id = None;
    assert!(!s.schedule_save(0, 350));
    assert_eq!(s.pending_due_at_ms, None);
}

#[test]
fn workspace_names_are_trimmed_and_checked() {
    assert!(matches!(
        workspace_name_submit("  ", WorkspaceDialogMode::Create, None),
        WorkspaceNameSubmit::EmptyName
    ));
    assert_eq!(empty_workspace_name_notice(), "Workspace name cannot be empty.");
    assert!(matches!(
        workspace_name_submit(" Team ", WorkspaceDialogMode::Create, Some(3)),
        WorkspaceNameSubmit::Create { name } if name == "Team"
    ));
    assert!(matches!(
        workspace_name_submit("Team", WorkspaceDialogMode::Rename, Some(3)),
        WorkspaceNameSubmit::Rename { workspace_id: 3, new_name } if new_name == "Team"
    ));
    assert!(matches!(
        workspace_name_submit("Team", WorkspaceDialogMode::Rename, None),
        WorkspaceNameSubmit::Close
    ));
}

fn field(name: &str) -> QueryParamField {
    QueryParamField {
        name: name.to_string(),
        value: "x".to_string(),
        enabled: false,
        description: Some("d".to_string()),
    }
}

#[test]
fn deleting_rows_keeps_one_empty_row() {
    let mut rows = vec![field("a"), field("b")];
    assert!(delete_field_row(&mut rows, 0));
    assert_eq!(rows, vec![field("b")]);
    assert!(delete_field_row(&mut rows, 0));
    assert_eq!(rows.len(), 1);
    assert_eq!(rows[0].name, "");
    assert_eq!(rows[0].value, "");
    assert!(!rows[0].enabled);
    assert_eq!(rows[0].description, Some("d".to_string()));
    assert!(!delete_field_row(&mut rows, 3));
    assert_eq!(rows.len(), 1);
}

#[test]
fn request_saves_wait_for_the_edits_to_stop() {
    let mut s = RequestSave::new();
    assert!(!s.schedule(false, 0, REQUEST_SAVE_DELAY_MS));
    assert!(s.schedule(true, 1000, REQUEST_SAVE_DELAY_MS));
    assert!(!s.schedule(true, 1200, REQUEST_SAVE_DELAY_MS));
    assert_eq!(s.tick(1400), SaveTick::Wait);
    assert_eq!(s.tick(1550), SaveTick::Save);
    assert_eq!(s.pending_due_at_ms, None);
    assert_eq!(s.tick(1600), SaveTick::Stop);
    assert!(s.finish(Some("Backpressure: queue full"), 2000));
    assert_eq!(s.pending_due_at_ms, Some(2100));
    assert!(!s.finish(Some("other"), 2000));
    s.in_flight = true;
    assert_eq!(s.tick(5000), SaveTick::Stop);
}

#[test]
fn a_deleted_workspace_is_named_in_the_notice() {
    assert_eq!(
        workspace_deleted_notice("Old", true, "Next"),
        "Workspace \"Old\" deleted. Switched to \"Next\"."
    );
    assert_eq!(workspace_deleted_notice("Old", true, ""), "Workspace \"Old\" deleted.");
    assert_eq!(workspace_deleted_notice("Old", false, "Next"), "Workspace \"Old\" deleted.");
}

#[test]
fn deleting_needs_a_selected_environment() {
    let mut save = save_state();
    assert_eq!(save.environment_to_delete(), Some(9));
    assert_eq!(save.error, None);
    save.selected_id = None;
    assert_eq!(save.environment_to_delete(), None);
    assert_eq!(save.error.as_deref(), Some("No environment selected."));
}

#[test]
fn a_deleted_environment_forgets_its_pending_save() {
    let mut save = save_state();
    save.pending_due_at_ms = Some(500);
    save.tick_scheduled = true;
    save.in_flight = true;
    save.environment_deleted(Some(4));
    assert_eq!(save.selected_id, Some(4));
    assert_eq!(save.pending_due_at_ms, None);
    assert!(!save.tick_scheduled && !save.in_flight);
    assert_eq!(save.loaded_environment_name.as_deref(), Some("Dev"));
    save.environment_deleted(None);
    assert_eq!(save.selected_id, None);
    assert_eq!(save.loaded_environment_name, None);
    assert_eq!(save.error.as_deref(), Some("No environment available to manage."));
}

#[test]
fn variables_are_added_blank_and_removed_by_index() {
    let mut vars = vec![EnvironmentVariable {
        name: "token".to_string(),
        value: "abc".to_string(),
        enabled: false,
        description: None,
    }];
    add_blank_variable(&mut vars);
    assert_eq!(vars.len(), 2);
    assert_eq!(vars[1].name, "");
    assert!(vars[1].enabled);
    assert!(!remove_variable_at(&mut vars, 5));
    assert_eq!(vars.len(), 2);
    assert!(remove_variable_at(&mut vars, 0));
    assert_eq!(vars.len(), 1);
    assert_eq!(vars[0].name, "");
}

#[test]
fn focusing_the_last_row_adds_a_blank_one() {
    let mut rows = vec![field("a"), field("b")];
    assert!(!grow_rows_on_focus(&mut rows, 0));
    assert_eq!(rows.len(), 2);
    assert!(grow_rows_on_focus(&mut rows, 1));
    assert_eq!(rows.len(), 3);
    assert_eq!(rows[2].name, "");
    assert!(rows[2].enabled);
    assert_eq!(rows[2].description, None);
    let mut none: Vec<QueryParamField> = Vec::new();
    assert!(!grow_rows_on_focus(&mut none, 0));
}
