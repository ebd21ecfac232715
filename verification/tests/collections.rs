use beam::collections::{method_badge_text, Action, CollectionPanel, Message};
use beam::types::{HttpMethod, RenameTarget, RequestCollection, RequestConfig};
use std::time::Instant;

fn panel() -> CollectionPanel {
    let mut p = CollectionPanel::new();
    let mut a = RequestConfig::default();
    a.name = "List users".to_string();
    let mut b = RequestConfig::default();
    b.name = "Create user".to_string();
    b.method = HttpMethod::POST;
    p.collections.push(RequestCollection {
        name: "Users".to_string(),
        requests: vec![a, b],
        expanded: false,
    });
    p
}

#[test]
fn a_new_panel_is_empty() {
    let p = CollectionPanel::new();
    assert!(p.collections.is_empty());
    assert!(!p.show_rename_modal);
    assert_eq!(p.rename_target, None);
}

#[test]
fn toggling_flips_expansion_and_hands_out_the_collection() {
    let mut p = panel();
    match p.update(Message::CollectionToggled(0)) {
        Action::UpdateCurrentCollection(c) => assert!(c.expanded),
        other => panic!("unexpected {:?}", other),
    }
    assert!(p.collections[0].expanded);
    assert!(matches!(p.update(Message::CollectionToggled(9)), Action::NoAction));
}

#[test]
fn a_click_loads_and_a_quick_second_click_renames() {
    let mut p = panel();
    let now = Instant::now();
    assert!(matches!(
        p.update_at(Message::RequestSelected(0, 1), now, 0),
        Action::LoadRequestConfig(0, 1)
    ));
    assert_eq!(p.last_click_target, Some((0, 1)));
    assert!(matches!(p.update_at(Message::RequestSelected(0, 1), now, 120), Action::NoAction));
    assert!(p.show_rename_modal);
    assert_eq!(p.rename_input, "Create user");
    assert_eq!(p.rename_target, Some(RenameTarget::Request(0, 1)));
}

#[test]
fn a_slow_second_click_or_another_request_loads_again() {
    let mut p = panel();
    let now = Instant::now();
    p.update_at(Message::RequestSelected(0, 1), now, 0);
    assert!(matches!(
        p.update_at(Message::RequestSelected(0, 1), now, 500),
        Action::LoadRequestConfig(0, 1)
    ));
    assert!(matches!(
        p.update_at(Message::RequestSelected(0, 0), now, 10),
        Action::LoadRequestConfig(0, 0)
    ));
    assert!(!p.show_rename_modal);
    assert!(matches!(p.update_at(Message::RequestSelected(3, 0), now, 10), Action::NoAction));
}

#[test]
fn new_requests_and_collections_are_numbered() {
    let mut p = panel();
    match p.update(Message::AddHttpRequest(0)) {
        Action::SaveRequestToCollection(r) => {
            assert_eq!(r.name, "New Request 3");
            assert_eq!(r.collection_index, 0);
            assert_eq!(r.request_index, 2);
            assert_eq!(r.method, HttpMethod::GET);
        }
        other => panic!("unexpected {:?}", other),
    }
    match p.update(Message::AddFolder(0)) {
        Action::SaveNewCollection(c) => {
            assert_eq!(c.name, "New Collection 2");
            assert!(c.requests.is_empty());
            assert!(c.expanded);
        }
        other => panic!("unexpected {:?}", other),
    }
    assert!(matches!(p.update(Message::AddHttpRequest(4)), Action::NoAction));
}

#[test]
fn duplicates_are_named_as_copies() {
    let mut p = panel();
    match p.update(Message::DuplicateRequest(0, 0)) {
        Action::DuplicateRequest(r) => {
            assert_eq!(r.name, "List users (Copy)");
            assert_eq!(r.request_index, 0);
        }
        other => panic!("unexpected {:?}", other),
    }
}

#[test]
fn renames_open_the_dialog_with_the_current_name() {
    let mut p = panel();
    p.update(Message::RenameFolder(0));
    assert!(p.show_rename_modal);
    assert_eq!(p.rename_input, "Users");
    assert_eq!(p.rename_target, Some(RenameTarget::Folder(0)));
    let mut p = panel();
    p.update(Message::RenameRequest(0, 0));
    assert_eq!(p.rename_input, "List users");
    let mut p = panel();
    p.update(Message::ShowRenameModal(0, 1));
    assert_eq!(p.rename_target, Some(RenameTarget::Request(0, 1)));
}

#[test]
fn folders_are_deleted_and_requests_sent_or_deleted() {
    let mut p = panel();
    match p.update(Message::SendRequestFromMenu(0, 1)) {
        Action::SendRequest(r) => assert_eq!(r.name, "Create user"),
        other => panic!("unexpected {:?}", other),
    }
    assert!(matches!(p.update(Message::DeleteRequest(0, 1)), Action::DeleteRequest(0, 1)));
    assert!(matches!(p.update(Message::CopyRequestAsCurl(0, 1)), Action::NoAction));
    p.update(Message::DeleteFolder(0));
    assert!(p.collections.is_empty());
}

#[test]
fn badges_use_at_most_four_letters() {
    assert_eq!(method_badge_text(HttpMethod::GET), "GET");
    assert_eq!(method_badge_text(HttpMethod::POST), "POST");
    assert_eq!(method_badge_text(HttpMethod::DELETE), "DELE");
    assert_eq!(method_badge_text(HttpMethod::OPTIONS), "OPTN");
    assert_eq!(method_badge_text(HttpMethod::PATCH), "PACH");
    assert_eq!(method_badge_text(HttpMethod::HEAD), "HEAD");
    assert_eq!(method_badge_text(HttpMethod::PUT), "PUT");
}

#[test]
fn shown_collections_replace_the_panel_s_own() {
    let mut p = panel();
    p.show_rename_modal = true;
    let shown = vec![
        RequestCollection { name: "A".to_string(), requests: vec![], expanded: true },
        RequestCollection { name: "B".to_string(), requests: vec![RequestConfig::default()], expanded: false },
    ];
    p.show_collections(&shown);
    assert_eq!(p.collections.len(), 2);
    assert_eq!(p.collections[0].name, "A");
    assert!(p.collections[0].expanded);
    assert_eq!(p.collections[1].requests.len(), 1);
    assert!(p.show_rename_modal);
}
