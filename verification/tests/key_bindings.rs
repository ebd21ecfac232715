use beam::floating_element::AnchorPosition;
use beam::icon::IconName;
use beam::key_bindings::{key_binding_display_tokens, key_bindings_list};

#[test]
fn bindings_are_listed_per_system() {
    let mac = key_bindings_list(true);
    assert_eq!(mac.len(), 17);
    assert_eq!(mac[0], ("Send Request", "cmd-enter"));
    assert_eq!(mac[16], ("Quit Beam", "cmd-q"));
    let other = key_bindings_list(false);
    assert_eq!(other.len(), 17);
    assert_eq!(other[5], ("Delete Selected Item", "ctrl-delete"));
    assert_eq!(other[16], ("Quit Beam", "alt-f4"));
}

#[test]
fn binding_tokens_use_symbols_on_mac() {
    assert_eq!(key_binding_display_tokens("cmd-alt-down", true), vec!["⌘", "⌥", "↓"]);
    assert_eq!(key_binding_display_tokens("cmd-alt-down", false), vec!["Cmd", "Alt", "↓"]);
    assert_eq!(key_binding_display_tokens("ctrl-shift-p", true), vec!["Ctrl", "⇧", "P"]);
    assert_eq!(key_binding_display_tokens("ctrl-shift-p", false), vec!["Ctrl", "Shift", "P"]);
    assert_eq!(key_binding_display_tokens("cmd-backspace", true), vec!["⌘", "Delete"]);
    assert_eq!(key_binding_display_tokens("ctrl-delete", false), vec!["Ctrl", "Delete"]);
    assert_eq!(key_binding_display_tokens("ctrl-,", false), vec!["Ctrl", ","]);
    assert_eq!(key_binding_display_tokens("f2", false), vec!["F2"]);
    assert_eq!(key_binding_display_tokens("space", true), vec!["SPACE"]);
    assert_eq!(key_binding_display_tokens("ctrl-enter", false), vec!["Ctrl", "Enter"]);
    assert_eq!(
        key_binding_display_tokens("cmd-alt-left", true),
        vec!["⌘", "⌥", "←"]
    );
    assert_eq!(key_binding_display_tokens("ctrl-alt-up", false), vec!["Ctrl", "Alt", "↑"]);
    assert_eq!(key_binding_display_tokens("ctrl-alt-right", false), vec!["Ctrl", "Alt", "→"]);
}

#[test]
fn split_keeps_empty_pieces() {
    assert_eq!(key_binding_display_tokens("", false), vec![""]);
    assert_eq!(key_binding_display_tokens("a-", false), vec!["A", ""]);
}

#[test]
fn icons_have_svg_files() {
    assert_eq!(IconName::Cancel.filename(), "cancel.svg");
    assert_eq!(IconName::Send.filename(), "send.svg");
    assert_eq!(IconName::ChevronDown.filename(), "chevron-down.svg");
    assert_eq!(IconName::ChevronRight.filename(), "chevron-right.svg");
}

#[test]
fn anchors_default_to_the_top_right() {
    assert_eq!(AnchorPosition::default(), AnchorPosition::TopRight);
}
