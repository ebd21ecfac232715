use beam::import::{
    file_row_label, FileRow, FileState, ImportDialogView, ImportResult, ScanOutcome, SubmitStep,
};

fn dialog_with(paths: &[&str]) -> ImportDialogView {
    let mut d = ImportDialogView::new();
    let items: Vec<(String, Option<String>)> =
        paths.iter().map(|p| (p.to_string(), None)).collect();
    d.register_paths(&items);
    d
}

fn planned(path: &str, needs_workspace: bool, environment: bool) -> FileRow {
    let mut row = FileRow::waiting(path.to_string(), None);
    row.has_plan = true;
    row.needs_new_workspace = needs_workspace;
    row.is_environment_file = environment;
    row
}

#[test]
fn a_new_dialog_is_idle() {
    let d = ImportDialogView::new();
    assert!(!d.is_importing());
    assert!(d.files.is_empty());
    assert_eq!(d.submit_label(), "Import");
}

#[test]
fn dropped_paths_are_registered_once() {
    let mut d = dialog_with(&["/a.json"]);
    let added = d.register_paths(&vec![
        ("/a.json".to_string(), None),
        ("/b.json".to_string(), Some("dir/b.json".to_string())),
        ("/b.json".to_string(), None),
    ]);
    assert_eq!(added, vec!["/b.json".to_string()]);
    assert_eq!(d.files.len(), 2);
    assert_eq!(d.files[1].relative_label, Some("dir/b.json".to_string()));
    assert!(matches!(d.files[1].state, FileState::Waiting));
}

#[test]
fn rows_are_replaced_by_path() {
    let mut d = dialog_with(&["/a.json", "/b.json"]);
    d.set_row(planned("/b.json", false, false));
    assert_eq!(d.files.len(), 2);
    assert!(d.files[1].has_plan);
    d.set_row(planned("/c.json", false, false));
    assert_eq!(d.files.len(), 3);
}

#[test]
fn a_batch_runs_from_submit_to_result() {
    let mut d = ImportDialogView::new();
    d.set_row(planned("/a.json", true, false));
    d.set_row(planned("/b.json", false, false));
    d.set_row(FileRow::waiting("/c.txt".to_string(), None));
    match d.prepare_submit() {
        SubmitStep::Queue(paths) => assert_eq!(paths, vec!["/a.json", "/b.json"]),
        other => panic!("unexpected {:?}", other),
    }
    d.mark_import_started("cmd-1".to_string());
    assert!(d.is_importing());
    assert_eq!(d.submit_label(), "Importing...");
    assert!(matches!(d.files[0].state, FileState::Importing));
    assert!(matches!(d.files[2].state, FileState::Waiting));
    assert!(matches!(d.prepare_submit(), SubmitStep::Ignore));

    // a result for another batch changes nothing
    let ignored = d.handle_import_result(ImportResult::Canceled, "cmd-9".to_string());
    assert_eq!(ignored, None);
    assert!(d.is_importing());

    let switch = d.handle_import_result(
        ImportResult::Done {
            summary: "2 requests".to_string(),
            workspace_id: 77,
            imported_into_current: false,
        },
        "cmd-1".to_string(),
    );
    assert_eq!(switch, Some(77));
    assert!(!d.is_importing());
    assert!(d.all_done);
    assert!(d.any_success);
    assert_eq!(d.submit_label(), "Done");
    assert!(matches!(&d.files[0].state, FileState::Done { summary } if summary == "2 requests"));
    assert_eq!(d.files[0].imported_workspace_id, Some(77));
    assert!(matches!(d.prepare_submit(), SubmitStep::CloseDialog));
}

#[test]
fn imports_into_the_current_workspace_do_not_switch() {
    let mut d = ImportDialogView::new();
    d.set_row(planned("/a.json", false, false));
    d.prepare_submit();
    d.mark_import_started("c".to_string());
    let switch = d.handle_import_result(
        ImportResult::Done {
            summary: "ok".to_string(),
            workspace_id: 5,
            imported_into_current: true,
        },
        "c".to_string(),
    );
    assert_eq!(switch, None);
    assert_eq!(d.files[0].imported_workspace_id, None);
}

#[test]
fn failures_carry_the_partial_workspace_note() {
    let mut d = ImportDialogView::new();
    d.set_row(planned("/a.json", false, false));
    d.prepare_submit();
    d.mark_import_started("c".to_string());
    d.handle_import_result(
        ImportResult::Failed {
            message: "bad".to_string(),
            partial_workspace_created: true,
        },
        "c".to_string(),
    );
    match &d.files[0].state {
        FileState::Failed { message } => assert_eq!(
            message,
            "bad\nWorkspace created but partially imported — delete it if unwanted."
        ),
        other => panic!("unexpected {:?}", other),
    }
    assert!(d.all_failed());
}

#[test]
fn mixed_batches_are_refused() {
    let mut d = ImportDialogView::new();
    d.set_row(planned("/w1.json", true, false));
    d.set_row(planned("/w2.json", true, false));
    d.set_row(planned("/env.json", false, true));
    assert!(matches!(d.prepare_submit(), SubmitStep::RejectedMixedBatch));
    assert!(d.all_done);
    for row in &d.files {
        match &row.state {
            FileState::Failed { message } => assert_eq!(
                message,
                "An import batch with multiple workspaces cannot include separate environment files"
            ),
            other => panic!("unexpected {:?}", other),
        }
    }
}

#[test]
fn canceling_fails_every_unfinished_file() {
    let mut d = ImportDialogView::new();
    d.set_row(planned("/a.json", false, false));
    d.prepare_submit();
    d.mark_import_started("c".to_string());
    d.set_row(FileRow::waiting("/late.json".to_string(), None));
    assert!(!d.click_cancel());
    assert!(d.show_cancel_confirm);
    d.keep_importing();
    assert!(!d.show_cancel_confirm);
    d.cancel_import();
    assert!(d.was_cancelled);
    assert!(matches!(&d.files[0].state, FileState::Failed { message } if message == "Canceled by user"));
    assert!(matches!(&d.files[1].state, FileState::Failed { message } if message == "Canceled before import"));
    // the batch's cancellation then ends the import without switching
    let switch = d.handle_import_result(ImportResult::Canceled, "c".to_string());
    assert_eq!(switch, None);
    assert!(!d.is_importing());
}

#[test]
fn clearing_forgets_everything() {
    let mut d = dialog_with(&["/a.json"]);
    d.clear_files();
    assert!(d.files.is_empty());
    assert!(!d.all_done);
    assert!(d.click_cancel());
}

#[test]
fn rows_are_labelled_by_relative_path_or_name() {
    let row = FileRow::waiting("/x/y/a.json".to_string(), Some("y/a.json".to_string()));
    assert_eq!(file_row_label(&row, "a.json"), "y/a.json");
    let row = FileRow::waiting("/x/y/a.json".to_string(), None);
    assert_eq!(file_row_label(&row, "a.json"), "a.json");
}

#[test]
fn scanned_files_fail_with_their_reason_or_wait_with_a_plan() {
    let unreadable = FileRow::scanned("/a.json".to_string(), None, ScanOutcome::Unreadable);
    assert!(matches!(unreadable.state, FileState::Failed { ref message } if message == "Could not read file"));
    assert!(!unreadable.has_plan);
    let unknown = FileRow::scanned(
        "/d/b.txt".to_string(),
        Some("b.txt".to_string()),
        ScanOutcome::UnknownFormat,
    );
    assert!(matches!(unknown.state, FileState::Failed { ref message } if message == "Unknown format"));
    assert_eq!(unknown.relative_label.as_deref(), Some("b.txt"));
    let broken = FileRow::scanned(
        "/c.json".to_string(),
        None,
        ScanOutcome::ParseFailed { message: "bad json".to_string() },
    );
    assert!(matches!(broken.state, FileState::Failed { ref message } if message == "bad json"));
    let parsed = FileRow::scanned(
        "/e.json".to_string(),
        None,
        ScanOutcome::Parsed { needs_new_workspace: true, is_environment_file: false },
    );
    assert!(matches!(parsed.state, FileState::Waiting));
    assert!(parsed.has_plan && parsed.needs_new_workspace && !parsed.is_environment_file);
    assert_eq!(parsed.command_id, None);
}
