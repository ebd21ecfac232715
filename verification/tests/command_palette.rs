use beam::command_palette::{
    build_entries_from_descriptors, filter_command_palette_entries, CommandPaletteCommand,
    CommandPaletteEntry, CommandPaletteEntryKind, TreeNodeKind, WorkspaceTreeDescriptor,
};

fn descriptor(id: u128, kind: TreeNodeKind, name: &str, ancestor_path: &[&str]) -> WorkspaceTreeDescriptor {
    WorkspaceTreeDescriptor {
        id,
        kind,
        name: name.to_string(),
        ancestor_path: ancestor_path.iter().map(|segment| (*segment).to_string()).collect(),
    }
}

fn entry(title: &str, kind: CommandPaletteEntryKind, recency: Option<usize>) -> CommandPaletteEntry {
    CommandPaletteEntry {
        kind,
        title: title.to_string(),
        subtitle: None,
        search_name: title.to_lowercase(),
        request_recency_rank: recency,
    }
}

fn titles(entries: &[CommandPaletteEntry]) -> Vec<&str> {
    entries.iter().map(|entry| entry.title.as_str()).collect()
}

#[test]
fn builds_tree_entries_in_order_with_paths_and_normalized_names() {
    let folder = 1u128;
    let nested_folder = 2u128;
    let request = 3u128;
    let entries = build_entries_from_descriptors(
        vec![
            descriptor(folder, TreeNodeKind::Folder, "Users", &[]),
            descriptor(nested_folder, TreeNodeKind::Folder, "Authentication", &["Users"]),
            descriptor(request, TreeNodeKind::Request, "Get PROFILE", &["Users", "Authentication"]),
        ],
        &[request],
    );

    assert_eq!(
        titles(&entries),
        vec![
            "Users",
            "Authentication",
            "Get PROFILE",
            "Open Settings",
            "Open Key Bindings",
            "Open Environment Manager"
        ]
    );
    assert_eq!(entries[0].subtitle, None);
    assert_eq!(entries[1].subtitle.as_deref(), Some("Users"));
    assert_eq!(entries[2].subtitle.as_deref(), Some("Users / Authentication"));
    assert_eq!(entries[2].search_name, "get profile");
    assert_eq!(entries[2].request_recency_rank, Some(0));
}

#[test]
fn stale_history_ids_are_ignored() {
    let stale = 10u128;
    let request = 11u128;
    let entries = build_entries_from_descriptors(
        vec![descriptor(request, TreeNodeKind::Request, "Current", &[])],
        &[stale],
    );

    assert_eq!(entries[0].request_recency_rank, None);
    assert_eq!(
        titles(&filter_command_palette_entries(&entries, "")),
        vec!["Open Settings", "Open Key Bindings", "Open Environment Manager"]
    );
}

#[test]
fn empty_query_shows_recent_requests_then_commands_only() {
    let entries = vec![
        entry("Older", CommandPaletteEntryKind::Request { request_id: 1 }, Some(1)),
        entry("Folder", CommandPaletteEntryKind::Folder { folder_id: 2 }, None),
        entry("Unvisited", CommandPaletteEntryKind::Request { request_id: 3 }, None),
        entry("Newer", CommandPaletteEntryKind::Request { request_id: 4 }, Some(0)),
        entry(
            "Open Settings",
            CommandPaletteEntryKind::Command(CommandPaletteCommand::OpenSettings),
            None,
        ),
    ];

    assert_eq!(
        titles(&filter_command_palette_entries(&entries, "  ")),
        vec!["Newer", "Older", "Open Settings"]
    );
}

#[test]
fn ranks_exact_then_prefix_then_substring_matches_case_insensitively() {
    let entries = vec![
        entry("My Get User Request", CommandPaletteEntryKind::Request { request_id: 1 }, None),
        entry("Get User Details", CommandPaletteEntryKind::Request { request_id: 2 }, None),
        entry("GET USER", CommandPaletteEntryKind::Request { request_id: 3 }, None),
    ];

    assert_eq!(
        titles(&filter_command_palette_entries(&entries, "  gEt UsEr ")),
        vec!["GET USER", "Get User Details", "My Get User Request"]
    );
}

#[test]
fn recency_breaks_ties_between_matching_requests() {
    let entries = vec![
        entry("Get Older", CommandPaletteEntryKind::Request { request_id: 1 }, Some(4)),
        entry("Get Unvisited", CommandPaletteEntryKind::Request { request_id: 2 }, None),
        entry("Get Newer", CommandPaletteEntryKind::Request { request_id: 3 }, Some(0)),
    ];

    assert_eq!(
        titles(&filter_command_palette_entries(&entries, "get")),
        vec!["Get Newer", "Get Older", "Get Unvisited"]
    );
}

#[test]
fn duplicate_names_preserve_tree_order_when_recency_is_equal() {
    let entries = vec![
        entry("Health", CommandPaletteEntryKind::Request { request_id: 1 }, None),
        entry("Health", CommandPaletteEntryKind::Request { request_id: 2 }, None),
    ];
    let filtered = filter_command_palette_entries(&entries, "health");

    assert_eq!(filtered, entries);
}

#[test]
fn folder_name_matches_but_ancestor_subtitle_does_not() {
    let mut folder = entry("Authentication", CommandPaletteEntryKind::Folder { folder_id: 1 }, None);
    folder.subtitle = Some("Users".to_string());
    let mut request = entry("Profile", CommandPaletteEntryKind::Request { request_id: 2 }, None);
    request.subtitle = Some("Users / Authentication".to_string());
    let entries = vec![folder, request];

    assert_eq!(
        titles(&filter_command_palette_entries(&entries, "authentication")),
        vec!["Authentication"]
    );
    assert!(filter_command_palette_entries(&entries, "users").is_empty());
}

#[test]
fn returns_no_results_when_nothing_matches() {
    let entries = vec![entry("Health", CommandPaletteEntryKind::Request { request_id: 1 }, None)];

    assert!(filter_command_palette_entries(&entries, "missing").is_empty());
}

#[test]
fn first_position_in_history_is_the_recency_rank() {
    let entries = build_entries_from_descriptors(
        vec![descriptor(7, TreeNodeKind::Request, "Health", &[])],
        &[3, 7, 9, 7],
    );
    assert_eq!(entries[0].request_recency_rank, Some(1));
    assert_eq!(entries[0].kind, CommandPaletteEntryKind::Request { request_id: 7 });
}
