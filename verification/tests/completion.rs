use beam::completion::{completion_items, token_at_cursor, Position, MAX_TOKEN_BYTES};
use beam::models::EnvironmentVariable;

fn position_to_offset(text: &str, position: &Position) -> usize {
    let mut line = 0u32;
    let mut character = 0u32;
    for (offset, ch) in text.char_indices() {
        if line == position.line && character == position.character {
            return offset;
        }
        if ch == '\n' {
            line += 1;
            character = 0;
        } else {
            character += 1;
        }
    }
    text.len()
}

fn complete(text: &str, offset: usize, name: &str) -> String {
    let token = token_at_cursor(text, offset).expect("variable token");
    let variables = [EnvironmentVariable {
        name: name.into(),
        value: "secret".into(),
        enabled: true,
        description: None,
    }];
    let item = completion_items(&token, &variables)
        .into_iter()
        .find(|item| item.label == name)
        .unwrap();
    let mut result = text.to_string();
    result.replace_range(
        position_to_offset(text, &item.range.start)..position_to_offset(text, &item.range.end),
        &item.new_text,
    );
    result
}

#[test]
fn replaces_partial_and_existing_tokens() {
    assert_eq!(complete("{{ho", 4, "host"), "{{host}}");
    assert_eq!(complete("{{ho}}", 4, "host"), "{{host}}");
    assert_eq!(complete("{{ho}", 4, "host"), "{{host}}");
    assert_eq!(complete("{{hostname}}", 4, "host"), "{{host}}");
    assert_eq!(complete("{{ ho  }}", 5, "host"), "{{host}}");
    assert_eq!(complete("{\"url\":\"{{ho\"}", 12, "host"), "{\"url\":\"{{host}}\"}");
}

#[test]
fn preserves_unicode_and_multiline_surroundings() {
    let text = "😀\n中文 {{主}}!";
    assert_eq!(complete(text, "😀\n中文 {{主".len(), "主机"), "😀\n中文 {{主机}}!");
}

#[test]
fn only_suggests_inside_open_tokens() {
    for text in ["", "{", "{\"key\":", "{{host}}", "{{host}} plain", "{{\n"] {
        assert!(token_at_cursor(text, text.len()).is_none(), "{text}");
    }
    let text = "{{host}} {{";
    assert_eq!(token_at_cursor(text, text.len()).unwrap().prefix, "");
}

#[test]
fn discovers_tokens_in_large_single_line_bodies() {
    let padding = "😀".repeat(256 * 1024);
    let text = format!("{padding}{{{{ho}}}}{padding}");
    let token = token_at_cursor(&text, padding.len() + 4).unwrap();
    assert_eq!(token.prefix, "ho");
    assert_eq!(token.start, padding.len());
    assert_eq!(token.range.start, Position::new(0, 256 * 1024));
    assert_eq!(token.range.end, Position::new(0, 256 * 1024 + 6));
}

#[test]
fn discovery_is_bounded_and_rejects_invalid_offsets() {
    let long_name = "x".repeat(MAX_TOKEN_BYTES + 1);
    let text = format!("{{{{{long_name}}}}}");
    assert!(token_at_cursor(&text, 2).is_none());
    assert!(token_at_cursor(&text, MAX_TOKEN_BYTES + 2).is_none());
    let text = "😀{{ho";
    assert!(token_at_cursor(text, 1).is_none());
    assert!(token_at_cursor(text, text.len() + 1).is_none());
}

#[test]
fn later_completion_does_not_affect_earlier_token() {
    let text = "{{ho}} later {{ho}}";
    let later = token_at_cursor(text, text.len() - 2).unwrap();
    let earlier = token_at_cursor(text, 4).unwrap();
    assert!(later.start > earlier.start);
    assert_eq!(earlier.start, 0);
    assert_eq!(earlier.prefix, "ho");
    assert_eq!(earlier.range.end, Position::new(0, 6));
}

#[test]
fn filters_enabled_names_and_prefers_environment_over_dynamic() {
    let variable = |name: &str, enabled| EnvironmentVariable {
        name: name.into(),
        value: "secret".into(),
        enabled,
        description: None,
    };
    let variables = [
        variable(" host ", true),
        variable("hidden", false),
        variable("", true),
        variable("host", true),
        variable("$guid", true),
    ];
    let token = token_at_cursor("{{", 2).unwrap();
    let items = completion_items(&token, &variables);
    assert_eq!(items.len(), 5);
    assert_eq!(
        items.iter().find(|item| item.label == "$guid").unwrap().detail.as_str(),
        "Environment variable"
    );
    let token = token_at_cursor("{{$g", 4).unwrap();
    let items = completion_items(&token, &[]);
    assert_eq!(items.len(), 1);
    assert_eq!(items[0].label, "$guid");
    let token = token_at_cursor("{{missing", 9).unwrap();
    assert!(completion_items(&token, &variables).is_empty());
}

#[test]
fn items_are_sorted_by_name_and_replace_the_token() {
    let token = token_at_cursor("a\n{{$", 5).unwrap();
    assert_eq!(token.range.start, Position::new(1, 0));
    let items = completion_items(&token, &[]);
    let labels: Vec<&str> = items.iter().map(|item| item.label.as_str()).collect();
    assert_eq!(labels, vec!["$guid", "$isoTimestamp", "$randomInt", "$timestamp"]);
    assert_eq!(items[0].new_text, "{{$guid}}");
    assert_eq!(items[0].detail, "Dynamic variable");
    assert_eq!(items[0].filter_text, "$");
}
