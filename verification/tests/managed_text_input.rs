use beam::managed_text_input::{HistoryEntry, ManagedTextInput};

#[test]
fn new_input_starts_with_one_empty_step() {
    let input = ManagedTextInput::new("URL".to_string());
    assert_eq!(input.value, "");
    assert_eq!(input.placeholder, "URL");
    assert_eq!(input.history.len(), 1);
    assert_eq!(input.history_index, 0);
    assert_eq!(input.max_history, 50);
    assert_eq!(input.grouping_threshold_ms, 200);
    assert!(!input.is_focused);
}

#[test]
fn with_value_resets_history() {
    let input = ManagedTextInput::new(String::new()).with_value("https://a".to_string());
    assert_eq!(input.value, "https://a");
    assert_eq!(input.history.len(), 1);
    assert_eq!(input.history[0].value, "https://a");
}

#[test]
fn undo_and_redo_walk_the_history() {
    let mut input = ManagedTextInput::new(String::new());
    input.push_to_history_at("a".to_string(), 10_000);
    input.value = "a".to_string();
    input.push_to_history_at("ab".to_string(), 20_000);
    input.value = "ab".to_string();
    assert_eq!(input.history.len(), 3);
    assert!(input.undo());
    assert_eq!(input.value, "a");
    assert!(input.undo());
    assert_eq!(input.value, "");
    assert!(!input.undo());
    assert!(input.redo());
    assert_eq!(input.value, "a");
    assert!(input.redo());
    assert_eq!(input.value, "ab");
    assert!(!input.redo());
}

#[test]
fn quick_edits_are_grouped_into_one_step() {
    let mut input = ManagedTextInput::new(String::new());
    input.history[0] = HistoryEntry::recorded_at(String::new(), 1_000);
    input.push_to_history_at("a".to_string(), 1_100);
    assert_eq!(input.history.len(), 1);
    assert_eq!(input.history[0].value, "a");
    input.push_to_history_at("ab".to_string(), 1_500);
    assert_eq!(input.history.len(), 2);
    assert_eq!(input.history_index, 1);
}

#[test]
fn pushing_after_undo_drops_the_redo_steps() {
    let mut input = ManagedTextInput::new(String::new());
    input.history[0] = HistoryEntry::recorded_at(String::new(), 0);
    input.push_to_history_at("a".to_string(), 1_000);
    input.push_to_history_at("b".to_string(), 2_000);
    assert!(input.undo());
    input.push_to_history_at("c".to_string(), 3_000);
    let values: Vec<&str> = input.history.iter().map(|e| e.value.as_str()).collect();
    assert_eq!(values, vec!["", "a", "c"]);
    assert!(!input.redo());
}

#[test]
fn history_is_capped() {
    let mut input = ManagedTextInput::new(String::new());
    input.max_history = 3;
    input.history[0] = HistoryEntry::recorded_at(String::new(), 0);
    for i in 1..=5u64 {
        input.push_to_history_at(format!("v{i}"), i * 1_000);
    }
    let values: Vec<&str> = input.history.iter().map(|e| e.value.as_str()).collect();
    assert_eq!(values, vec!["v3", "v4", "v5"]);
    assert_eq!(input.history_index, 2);
}

#[test]
fn set_value_records_only_changes() {
    let mut input = ManagedTextInput::new(String::new());
    input.set_value(String::new());
    assert_eq!(input.history.len(), 1);
    input.set_value("x".to_string());
    assert_eq!(input.value, "x");
    input.set_value_without_history("y".to_string());
    assert_eq!(input.value, "y");
    input.set_focused(true);
    assert!(input.is_focused);
    let entry = HistoryEntry::new("z".to_string());
    assert_eq!(entry.value, "z");
}

#[test]
fn undo_works_on_an_emptied_history_and_from_past_the_end() {
    let mut input = ManagedTextInput::new("URL".to_string());
    input.history.clear();
    input.history_index = 0;
    assert!(!input.undo());
    input.history = vec![
        HistoryEntry::recorded_at("a".to_string(), 1),
        HistoryEntry::recorded_at("b".to_string(), 2),
    ];
    input.history_index = 2;
    assert!(input.undo());
    assert_eq!(input.history_index, 1);
    assert_eq!(input.value, "b");
    input.history_index = 5;
    assert!(!input.redo());
    assert_eq!(input.history_index, 5);
}

#[test]
fn recording_from_past_the_end_adds_a_step_without_grouping() {
    let mut input = ManagedTextInput::new("URL".to_string());
    input.history = vec![HistoryEntry::recorded_at("a".to_string(), 100)];
    input.history_index = 3;
    input.push_to_history_at("b".to_string(), 150);
    assert_eq!(input.history.len(), 2);
    assert_eq!(input.history[1].value, "b");
    assert_eq!(input.history_index, 1);
}
