use beam::custom_text_input::{CustomTextInput, SegmentType};
use std::time::Instant;

#[test]
fn new_field_is_empty_with_one_step() {
    let input = CustomTextInput::new("Search".to_string());
    assert_eq!(input.value(), "");
    assert_eq!(input.placeholder, "Search");
    assert_eq!(input.cursor_position, 0);
    assert_eq!(input.selection, None);
    assert_eq!(input.history.len(), 1);
    assert_eq!(input.history_index, 0);
    assert_eq!(input.max_history, 100);
    assert_eq!(input.grouping_threshold_ms, 500);
    assert!(input.syntax_highlighting.enabled);
    assert_eq!(input.syntax_highlighting.variable_pattern, r"\{\{[^}]+\}\}");
    assert!(input.syntax_highlighting.tooltip_enabled);
    assert!(!input.can_undo());
    assert!(!input.can_redo());
}

#[test]
fn typing_inserts_at_the_cursor() {
    let mut input = CustomTextInput::new(String::new()).with_value("held".to_string());
    input.move_cursor_to(2);
    let v = input.insert_text("XY");
    assert_eq!(v, "heXYld");
    assert_eq!(input.value(), "heXYld");
    assert_eq!(input.cursor_position, 4);
}

#[test]
fn typing_replaces_the_selection_in_either_direction() {
    let mut input = CustomTextInput::new(String::new()).with_value("abcdef".to_string());
    input.selection = Some((4, 1));
    let v = input.insert_text("Z");
    assert_eq!(v, "aZef");
    assert_eq!(input.cursor_position, 2);
    assert_eq!(input.selection, None);
}

#[test]
fn select_all_then_typing_replaces_everything() {
    let mut input = CustomTextInput::new(String::new()).with_value("héllo".to_string());
    input.select_all();
    assert_eq!(input.selection, Some((0, 5)));
    assert_eq!(input.cursor_position, 5);
    assert_eq!(input.insert_text("x"), "x");
    assert_eq!(input.cursor_position, 1);
}

#[test]
fn select_all_on_empty_text_does_nothing() {
    let mut input = CustomTextInput::new(String::new());
    input.select_all();
    assert_eq!(input.selection, None);
    assert_eq!(input.cursor_position, 0);
}

#[test]
fn backspace_and_delete_work_by_characters() {
    let mut input = CustomTextInput::new(String::new()).with_value("añb".to_string());
    input.move_cursor_to(2);
    assert_eq!(input.delete_previous(), "ab");
    assert_eq!(input.cursor_position, 1);
    assert_eq!(input.delete_next(), "a");
    assert_eq!(input.cursor_position, 1);
    // at the end, delete does nothing
    assert_eq!(input.delete_next(), "a");
    input.move_cursor_to_front();
    // at the start, backspace does nothing
    assert_eq!(input.delete_previous(), "a");
    assert_eq!(input.cursor_position, 0);
}

#[test]
fn deleting_a_selection_moves_the_cursor_to_its_start() {
    let mut input = CustomTextInput::new(String::new()).with_value("0123456".to_string());
    input.selection = Some((5, 2));
    input.cursor_position = 5;
    assert_eq!(input.delete_next(), "0156");
    assert_eq!(input.cursor_position, 2);
    assert_eq!(input.selection, None);
}

#[test]
fn backspace_undoes_typing_a_character() {
    let mut input = CustomTextInput::new(String::new()).with_value("abc".to_string());
    input.move_cursor_to(1);
    input.insert_text("Q");
    assert_eq!(input.value(), "aQbc");
    assert_eq!(input.delete_previous(), "abc");
    assert_eq!(input.cursor_position, 1);
}

#[test]
fn cursor_moves_stay_in_the_text() {
    let mut input = CustomTextInput::new(String::new()).with_value("ab".to_string());
    input.move_cursor_to(10);
    assert_eq!(input.cursor_position, 2);
    input.move_cursor_right();
    assert_eq!(input.cursor_position, 2);
    input.move_cursor_left();
    assert_eq!(input.cursor_position, 1);
    input.move_cursor_to_front();
    input.move_cursor_left();
    assert_eq!(input.cursor_position, 0);
    input.move_cursor_to_end();
    assert_eq!(input.cursor_position, 2);
}

#[test]
fn quick_edits_form_one_step_and_slow_ones_do_not() {
    let mut input = CustomTextInput::new(String::new());
    let now = Instant::now();
    input.push_to_history_after("a".to_string(), now, 10_000);
    assert_eq!(input.history.len(), 2);
    input.push_to_history_after("ab".to_string(), now, 100);
    assert_eq!(input.history.len(), 2);
    assert_eq!(input.history[1].value, "ab");
    input.push_to_history_after("abc".to_string(), now, 500);
    assert_eq!(input.history.len(), 3);
    assert_eq!(input.history_index, 2);
}

#[test]
fn undo_and_redo_restore_text_cursor_and_selection() {
    let mut input = CustomTextInput::new(String::new());
    let now = Instant::now();
    input.cursor_position = 0;
    input.push_to_history_after("one".to_string(), now, 10_000);
    input.cursor_position = 3;
    input.selection = Some((0, 3));
    input.push_to_history_after("two".to_string(), now, 10_000);
    input.value = "two".to_string();
    assert!(input.can_undo());
    assert!(input.undo());
    assert_eq!(input.value(), "one");
    assert_eq!(input.cursor_position, 0);
    assert_eq!(input.selection, None);
    assert!(input.redo());
    assert_eq!(input.value(), "two");
    assert_eq!(input.cursor_position, 3);
    assert_eq!(input.selection, Some((0, 3)));
    assert!(!input.redo());
}

#[test]
fn a_new_step_after_undo_drops_the_redo_steps() {
    let mut input = CustomTextInput::new(String::new());
    let now = Instant::now();
    input.push_to_history_after("a".to_string(), now, 10_000);
    input.push_to_history_after("b".to_string(), now, 10_000);
    assert!(input.undo());
    assert!(input.undo());
    input.push_to_history_after("c".to_string(), now, 10_000);
    assert_eq!(input.history.len(), 2);
    assert_eq!(input.history[1].value, "c");
    assert!(!input.can_redo());
}

#[test]
fn the_history_keeps_at_most_a_hundred_steps() {
    let mut input = CustomTextInput::new(String::new());
    let now = Instant::now();
    for i in 0..150 {
        input.push_to_history_after(format!("v{i}"), now, 10_000);
    }
    assert_eq!(input.history.len(), 100);
    assert_eq!(input.history_index, 99);
    assert_eq!(input.history[99].value, "v149");
    assert_eq!(input.history[0].value, "v50");
}

#[test]
fn set_value_records_changes_and_pulls_the_cursor_back() {
    let mut input = CustomTextInput::new(String::new()).with_value("abcdef".to_string());
    input.cursor_position = 6;
    input.set_value("xy".to_string());
    assert_eq!(input.value(), "xy");
    assert_eq!(input.cursor_position, 2);
    assert_eq!(input.history.last().unwrap().value, "xy");
    assert_eq!(input.history.last().unwrap().cursor_position, 6);
    let steps = input.history.len();
    input.set_value("xy".to_string());
    assert_eq!(input.history.len(), steps);
}

#[test]
fn set_value_without_history_leaves_the_history() {
    let mut input = CustomTextInput::new(String::new());
    input.cursor_position = 0;
    input.set_value_without_history("hello".to_string());
    assert_eq!(input.value(), "hello");
    assert_eq!(input.history.len(), 1);
}

#[test]
fn blink_toggles_only_when_focused_and_due() {
    let mut input = CustomTextInput::new(String::new());
    let now = Instant::now();
    input.update_cursor_blink_after(now, 1000);
    assert!(input.cursor_blink_visible);
    input.focus();
    assert!(input.is_focused);
    input.update_cursor_blink_after(now, 499);
    assert!(input.cursor_blink_visible);
    input.update_cursor_blink_after(now, 500);
    assert!(!input.cursor_blink_visible);
    input.unfocus();
    assert!(!input.is_focused);
}

#[test]
fn segments_split_text_around_variables() {
    let input = CustomTextInput::new(String::new()).with_value("a {{host}}/é{{p}}".to_string());
    let segs = input.parse_text_segments();
    let kinds: Vec<(String, SegmentType, usize, usize)> = segs
        .iter()
        .map(|s| (s.text.clone(), s.segment_type, s.start_index, s.end_index))
        .collect();
    assert_eq!(
        kinds,
        vec![
            ("a ".to_string(), SegmentType::Normal, 0, 2),
            ("{{host}}".to_string(), SegmentType::Variable, 2, 10),
            ("/é".to_string(), SegmentType::Normal, 10, 13),
            ("{{p}}".to_string(), SegmentType::Variable, 13, 18),
        ]
    );
}

#[test]
fn segments_of_plain_or_empty_text() {
    let input = CustomTextInput::new(String::new()).with_value("plain".to_string());
    let segs = input.parse_text_segments();
    assert_eq!(segs.len(), 1);
    assert_eq!(segs[0].text, "plain");
    assert_eq!(segs[0].segment_type, SegmentType::Normal);
    let empty = CustomTextInput::new(String::new());
    let segs = empty.parse_text_segments();
    assert_eq!(segs.len(), 1);
    assert_eq!(segs[0].text, "");
    assert_eq!((segs[0].start_index, segs[0].end_index), (0, 0));
}

#[test]
fn highlighting_off_or_a_bad_pattern_gives_one_plain_segment() {
    let off = CustomTextInput::new(String::new())
        .with_value("{{a}}".to_string())
        .with_syntax_highlighting(false);
    let segs = off.parse_text_segments();
    assert_eq!(segs.len(), 1);
    assert_eq!(segs[0].segment_type, SegmentType::Normal);
    assert_eq!(segs[0].end_index, 5);
    let bad = CustomTextInput::new(String::new())
        .with_value("{{a}}".to_string())
        .with_variable_pattern("(".to_string());
    let segs = bad.parse_text_segments();
    assert_eq!(segs.len(), 1);
    assert_eq!(segs[0].text, "{{a}}");
}

#[test]
fn the_first_variable_is_offered_for_the_tooltip() {
    let input = CustomTextInput::new(String::new()).with_value("x {{one}} {{two}}".to_string());
    assert_eq!(input.get_variable_at_position(), Some("{{one}}".to_string()));
    let none = CustomTextInput::new(String::new()).with_value("no vars".to_string());
    assert_eq!(none.get_variable_at_position(), None);
    let off = CustomTextInput::new(String::new())
        .with_value("{{a}}".to_string())
        .with_tooltip_enabled(false);
    assert_eq!(off.get_variable_at_position(), None);
}

#[test]
fn tooltips_show_and_hide() {
    let mut input = CustomTextInput::new(String::new());
    input.show_tooltip("value".to_string());
    assert!(input.tooltip_visible);
    assert_eq!(input.tooltip_text, "value");
    input.hide_tooltip();
    assert!(!input.tooltip_visible);
    assert_eq!(input.tooltip_text, "");
}

#[test]
fn password_fields_are_secure() {
    let input = CustomTextInput::new(String::new()).password();
    assert!(input.is_secure);
}

#[test]
fn undo_from_far_past_the_history_only_moves_back() {
    let mut input = CustomTextInput::new("x".to_string());
    input.history_index = 5;
    assert!(!input.undo());
    assert_eq!(input.history_index, 4);
    assert_eq!(input.value, "");
    input.history_index = 1;
    assert!(input.undo());
    assert_eq!(input.history_index, 0);
}

#[test]
fn typing_with_the_history_position_past_the_end_adds_a_step() {
    let mut input = CustomTextInput::new("x".to_string());
    input.history_index = 7;
    assert_eq!(input.insert_text("hi"), "hi");
    assert_eq!(input.history.len(), 2);
    assert_eq!(input.history_index, 1);
    assert_eq!(input.history[1].value, "hi");
}
