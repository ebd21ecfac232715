//! The import dialog: the files dropped on it, one row per path, and the
//! life of an import batch from submission to its result.
use vstd::prelude::*;

verus! {

/// Where a file stands in the import.
#[derive(Debug, Clone)]
pub enum FileState {
    Waiting,
    Importing,
    Done { summary: String },
    Failed { message: String },
}

/// A file state as the contracts see it.
pub enum FileStateView {
    Waiting,
    Importing,
    Done(Seq<char>),
    Failed(Seq<char>),
}

impl View for FileState {
    type V = FileStateView;

    open spec fn view(&self) -> FileStateView {
        match self {
            FileState::Waiting => FileStateView::Waiting,
            FileState::Importing => FileStateView::Importing,
            FileState::Done { summary } => FileStateView::Done(summary@),
            FileState::Failed { message } => FileStateView::Failed(message@),
        }
    }
}

/// One dropped file: its path, the label shown for it when it came from a
/// folder, its state, whether a plan was read from it, whether it holds a
/// separate environment, the batch it was sent in, the workspace it was
/// imported into (when a new one), and whether it brings a workspace.
#[derive(Debug, Clone)]
pub struct FileRow {
    pub path: String,
    pub relative_label: Option<String>,
    pub state: FileState,
    pub has_plan: bool,
    pub is_environment_file: bool,
    pub command_id: Option<String>,
    pub imported_workspace_id: Option<u128>,
    pub needs_new_workspace: bool,
}

/// A file row as the contracts see it.
pub struct FileRowView {
    pub path: Seq<char>,
    pub relative_label: Option<Seq<char>>,
    pub state: FileStateView,
    pub has_plan: bool,
    pub is_environment_file: bool,
    pub command_id: Option<Seq<char>>,
    pub imported_workspace_id: Option<u128>,
    pub needs_new_workspace: bool,
}

/// An optional text as an optional character sequence.
pub open spec fn opt_chars(s: Option<String>) -> Option<Seq<char>> {
    match s {
        Some(t) => Some(t@),
        None => None,
    }
}

impl View for FileRow {
    type V = FileRowView;

    open spec fn view(&self) -> FileRowView {
        FileRowView {
            path: self.path@,
            relative_label: opt_chars(self.relative_label),
            state: self.state@,
            has_plan: self.has_plan,
            is_environment_file: self.is_environment_file,
            command_id: opt_chars(self.command_id),
            imported_workspace_id: self.imported_workspace_id,
            needs_new_workspace: self.needs_new_workspace,
        }
    }
}

fn copy_opt_string(s: &Option<String>) -> (r: Option<String>)
    ensures
        opt_chars(r) == opt_chars(*s),
{
    match s {
        Some(t) => Some(t.clone()),
        None => None,
    }
}

impl FileState {
    /// A copy of the state.
    pub fn duplicate(&self) -> (r: Self)
        ensures
            r@ == self@,
    {
        match self {
            FileState::Waiting => FileState::Waiting,
            FileState::Importing => FileState::Importing,
            FileState::Done { summary } => FileState::Done { summary: summary.clone() },
            FileState::Failed { message } => FileState::Failed { message: message.clone() },
        }
    }
}

impl FileRow {
    /// A copy of the row.
    pub fn duplicate(&self) -> (r: Self)
        ensures
            r@ == self@,
    {
        FileRow {
            path: self.path.clone(),
            relative_label: copy_opt_string(&self.relative_label),
            state: self.state.duplicate(),
            has_plan: self.has_plan,
            is_environment_file: self.is_environment_file,
            command_id: copy_opt_string(&self.command_id),
            imported_workspace_id: self.imported_workspace_id,
            needs_new_workspace: self.needs_new_workspace,
        }
    }

    /// A row for a file just dropped: waiting, with nothing read yet.
    pub fn waiting(path: String, relative_label: Option<String>) -> (r: Self)
        ensures
            r@ == waiting_row(path@, opt_chars(relative_label)),
    {
        FileRow {
            path,
            relative_label,
            state: FileState::Waiting,
            has_plan: false,
            is_environment_file: false,
            command_id: None,
            imported_workspace_id: None,
            needs_new_workspace: false,
        }
    }
}

/// What reading, detecting and parsing a dropped file came to.
#[derive(Debug, Clone)]
pub enum ScanOutcome {
    /// The file could not be read.
    Unreadable,
    /// Its format was not recognised.
    UnknownFormat,
    /// Parsing it failed with this message.
    ParseFailed { message: String },
    /// An import plan was read from it.
    Parsed { needs_new_workspace: bool, is_environment_file: bool },
}

impl FileRow {
    /// The row of a file once it has been scanned: failed with the reason
    /// when it could not be read, has an unknown format or failed to parse;
    /// otherwise waiting, with its plan.
    pub fn scanned(path: String, relative_label: Option<String>, outcome: ScanOutcome) -> (r: Self)
        ensures
            r.path@ == path@,
            opt_chars(r.relative_label) == opt_chars(relative_label),
            r.command_id is None,
            r.imported_workspace_id is None,
            match outcome {
                ScanOutcome::Unreadable => r.state@ == FileStateView::Failed(
                    "Could not read file"@,
                ) && !r.has_plan && !r.needs_new_workspace && !r.is_environment_file,
                ScanOutcome::UnknownFormat => r.state@ == FileStateView::Failed("Unknown format"@)
                    && !r.has_plan && !r.needs_new_workspace && !r.is_environment_file,
                ScanOutcome::ParseFailed { message } => r.state@ == FileStateView::Failed(message@)
                    && !r.has_plan && !r.needs_new_workspace && !r.is_environment_file,
                ScanOutcome::Parsed { needs_new_workspace, is_environment_file } => r.state@
                    == FileStateView::Waiting && r.has_plan && r.needs_new_workspace
                    == needs_new_workspace && r.is_environment_file == is_environment_file,
            },
    {
        let (state, has_plan, needs_new_workspace, is_environment_file) = match outcome {
            ScanOutcome::Unreadable => (
                FileState::Failed { message: "Could not read file".to_owned() },
                false,
                false,
                false,
            ),
            ScanOutcome::UnknownFormat => (
                FileState::Failed { message: "Unknown format".to_owned() },
                false,
                false,
                false,
            ),
            ScanOutcome::ParseFailed { message } => (FileState::Failed { message }, false, false, false),
            ScanOutcome::Parsed { needs_new_workspace, is_environment_file } => (
                FileState::Waiting,
                true,
                needs_new_workspace,
                is_environment_file,
            ),
        };
        FileRow {
            path,
            relative_label,
            state,
            has_plan,
            is_environment_file,
            command_id: None,
            imported_workspace_id: None,
            needs_new_workspace,
        }
    }
}

/// The row of a file just dropped.
pub open spec fn waiting_row(path: Seq<char>, label: Option<Seq<char>>) -> FileRowView {
    FileRowView {
        path: path,
        relative_label: label,
        state: FileStateView::Waiting,
        has_plan: false,
        is_environment_file: false,
        command_id: None,
        imported_workspace_id: None,
        needs_new_workspace: false,
    }
}

/// What the application reports of a finished import batch.
#[derive(Debug, Clone)]
pub enum ImportResult {
    Done { summary: String, workspace_id: u128, imported_into_current: bool },
    Failed { message: String, partial_workspace_created: bool },
    Canceled,
}

/// The dialog's state.
#[derive(Debug, Clone)]
pub struct ImportDialogView {
    pub files: Vec<FileRow>,
    pub importing: bool,
    pub any_success: bool,
    pub all_done: bool,
    pub enqueued_count: usize,
    pub completed_count: usize,
    pub show_cancel_confirm: bool,
    pub was_cancelled: bool,
}

/// The note added to a failure that left a workspace behind.
pub open spec fn partial_note() -> Seq<char> {
    "\nWorkspace created but partially imported \u{2014} delete it if unwanted."@
}

/// The message a failed batch shows on its files.
pub open spec fn failure_message(message: Seq<char>, partial: bool) -> Seq<char> {
    if partial {
        message + partial_note()
    } else {
        message
    }
}

/// Whether a row was sent in the batch `id`.
pub open spec fn in_batch(row: FileRowView, id: Seq<char>) -> bool {
    row.command_id == Some(id)
}

/// A row after the result of batch `id`: a row of that batch takes the
/// outcome (a success its summary and, when the import made a new
/// workspace, that workspace; a failure its message; a cancellation fails
/// the rows still importing), any other row is left alone.
pub open spec fn row_after_result(row: FileRowView, id: Seq<char>, result: ImportResult) -> FileRowView {
    if !in_batch(row, id) {
        row
    } else {
        match result {
            ImportResult::Done { summary, workspace_id, imported_into_current } => FileRowView {
                imported_workspace_id: if !imported_into_current {
                    Some(workspace_id)
                } else {
                    row.imported_workspace_id
                },
                state: FileStateView::Done(summary@),
                ..row
            },
            ImportResult::Failed { message, partial_workspace_created } => FileRowView {
                state: FileStateView::Failed(failure_message(message@, partial_workspace_created)),
                ..row
            },
            ImportResult::Canceled => if row.state is Importing {
                FileRowView { state: FileStateView::Failed("Canceled by user"@), ..row }
            } else {
                row
            },
        }
    }
}

/// The workspace of the first finished file, if it made one.
pub open spec fn first_done_workspace(rows: Seq<FileRowView>) -> Option<u128>
    decreases rows.len(),
{
    if rows.len() == 0 {
        None
    } else if rows[0].state is Done {
        rows[0].imported_workspace_id
    } else {
        first_done_workspace(rows.drop_first())
    }
}

/// A row after the import is canceled: a file importing is canceled by
/// the user, a file waiting is canceled before import.
pub open spec fn row_after_cancel(row: FileRowView) -> FileRowView {
    match row.state {
        FileStateView::Importing => FileRowView {
            state: FileStateView::Failed("Canceled by user"@),
            ..row
        },
        FileStateView::Waiting => FileRowView {
            state: FileStateView::Failed("Canceled before import"@),
            ..row
        },
        _ => row,
    }
}

/// Whether a row would go into the next batch: a plan was read from it
/// and it waits.
pub open spec fn queued(row: FileRowView) -> bool {
    row.has_plan && row.state is Waiting
}

/// How many queued rows bring a workspace of their own.
pub open spec fn workspace_count(rows: Seq<FileRowView>) -> nat
    decreases rows.len(),
{
    if rows.len() == 0 {
        0
    } else {
        workspace_count(rows.drop_last()) + if queued(rows.last()) && rows.last().needs_new_workspace {
            1nat
        } else {
            0nat
        }
    }
}

/// The message of a batch that mixes workspaces and environment files.
pub open spec fn mixed_batch_message() -> Seq<char> {
    "An import batch with multiple workspaces cannot include separate environment files"@
}

/// What submitting the dialog comes to.
#[derive(Debug, Clone)]
pub enum SubmitStep {
    /// Everything is done: the dialog closes.
    CloseDialog,
    /// An import runs, or nothing waits to be imported.
    Ignore,
    /// The batch would bring more than one workspace along with a separate
    /// environment file; its files fail.
    RejectedMixedBatch,
    /// These files, in the dialog's order, make up the batch.
    Queue(Vec<String>),
}

/// The rows with `path` replaced by or, when there is none, followed by
/// `row`.
pub open spec fn with_row(rows: Seq<FileRowView>, row: FileRowView) -> Seq<FileRowView> {
    if exists|i: int| 0 <= i < rows.len() && (#[trigger] rows[i]).path == row.path {
        let i = choose|i: int| 0 <= i < rows.len() && (#[trigger] rows[i]).path == row.path;
        rows.update(i, row)
    } else {
        rows.push(row)
    }
}

/// Whether some row has path `p`.
pub open spec fn has_path(rows: Seq<FileRowView>, p: Seq<char>) -> bool {
    exists|m: int| 0 <= m < rows.len() && (#[trigger] rows[m]).path == p
}

/// Whether `p` is among the dropped paths.
pub open spec fn was_dropped(paths: Seq<(String, Option<String>)>, p: Seq<char>) -> bool {
    exists|j: int| 0 <= j < paths.len() && (#[trigger] paths[j]).0@ == p
}

/// No two rows have one path.
pub open spec fn distinct_paths(rows: Seq<FileRowView>) -> bool {
    forall|i: int, j: int|
        0 <= i < rows.len() && 0 <= j < rows.len() && i != j ==> (#[trigger] rows[i]).path
            != (#[trigger] rows[j]).path
}

impl ImportDialogView {
    /// The rows as the contracts see them.
    pub open spec fn rows(&self) -> Seq<FileRowView> {
        self.files@.map_values(|r: FileRow| r@)
    }

    /// Every path has one row.
    pub open spec fn wf(&self) -> bool {
        distinct_paths(self.rows())
    }

    /// A dialog with no files and no import.
    pub fn new() -> (r: Self)
        ensures
            r.wf(),
            r.files@.len() == 0,
            !r.importing,
            !r.any_success,
            !r.all_done,
            r.enqueued_count == 0,
            r.completed_count == 0,
            !r.show_cancel_confirm,
            !r.was_cancelled,
    {
        ImportDialogView {
            files: Vec::new(),
            importing: false,
            any_success: false,
            all_done: false,
            enqueued_count: 0,
            completed_count: 0,
            show_cancel_confirm: false,
            was_cancelled: false,
        }
    }

    /// Whether a batch is being imported.
    pub fn is_importing(&self) -> (r: bool)
        ensures
            r == self.importing,
    {
        self.importing
    }

    /// Drops every file and forgets the last batch's outcome.
    pub fn clear_files(&mut self)
        ensures
            final(self).wf(),
            *final(self) == (ImportDialogView {
                files: final(self).files,
                any_success: false,
                all_done: false,
                enqueued_count: 0,
                completed_count: 0,
                show_cancel_confirm: false,
                was_cancelled: false,
                ..*old(self)
            }),
            final(self).files@.len() == 0,
    {
        self.files = Vec::new();
        self.any_success = false;
        self.all_done = false;
        self.enqueued_count = 0;
        self.completed_count = 0;
        self.show_cancel_confirm = false;
        self.was_cancelled = false;
    }

    /// The index of the row for `path`, if there is one.
    fn index_of_path(&self, path: &String) -> (r: Option<usize>)
        requires
            self.wf(),
        ensures
            match r {
                Some(i) => i < self.files@.len() && self.rows()[i as int].path == path@,
                None => forall|i: int| 0 <= i < self.files@.len() ==> (#[trigger] self.rows()[i]).path != path@,
            },
    {
        let mut i: usize = 0;
        while i < self.files.len()
            invariant
                i <= self.files@.len(),
                forall|j: int| 0 <= j < i ==> (#[trigger] self.rows()[j]).path != path@,
            decreases self.files@.len() - i,
        {
            if self.files[i].path == *path {
                return Some(i);
            }
            i = i + 1;
        }
        None
    }

    /// Puts `row` in the dialog: it replaces the row for its path, or
    /// comes after the others when its path is new.
    pub fn set_row(&mut self, row: FileRow)
        requires
            old(self).wf(),
        ensures
            final(self).wf(),
            final(self).rows() == with_row(old(self).rows(), row@),
            *final(self) == (ImportDialogView { files: final(self).files, ..*old(self) }),
    {
        let ghost rv = row@;
        let ghost before = self.rows();
        match self.index_of_path(&row.path) {
            Some(i) => {
                self.files.set(i, row);
                proof {
                    assert(self.rows() =~= before.update(i as int, rv));
                    let k = choose|k: int| 0 <= k < before.len() && (#[trigger] before[k]).path == rv.path;
                    assert(k == i);
                }
            },
            None => {
                self.files.push(row);
                assert(self.rows() =~= before.push(rv));
            },
        }
    }

    /// Adds a waiting row for each dropped path that has none yet, in the
    /// order given (a path given twice counts once), and returns those
    /// paths.
    pub fn register_paths(&mut self, paths: &Vec<(String, Option<String>)>) -> (r: Vec<String>)
        requires
            old(self).wf(),
        ensures
            final(self).wf(),
            *final(self) == (ImportDialogView { files: final(self).files, ..*old(self) }),
            final(self).rows().len() == old(self).rows().len() + r@.len(),
            final(self).rows().take(old(self).rows().len() as int) == old(self).rows(),
            forall|k: int|
                0 <= k < r@.len() ==> final(self).rows()[old(self).rows().len() + k] == waiting_row(
                    (#[trigger] r@[k])@,
                    final(self).rows()[old(self).rows().len() + k].relative_label,
                ),
            forall|j: int| 0 <= j < paths@.len() ==> has_path(final(self).rows(), (#[trigger] paths@[j]).0@),
            forall|k: int| 0 <= k < r@.len() ==> was_dropped(paths@, (#[trigger] r@[k])@),
            forall|k: int|
                0 <= k < r@.len() ==> forall|i: int|
                    0 <= i < old(self).rows().len() ==> (#[trigger] old(self).rows()[i]).path != (
                    #[trigger] r@[k])@,
    {
        let ghost start = self.rows();
        let ghost n0 = start.len();
        let mut added: Vec<String> = Vec::new();
        let mut i: usize = 0;
        while i < paths.len()
            invariant
                self.wf(),
                *self == (ImportDialogView { files: self.files, ..*old(self) }),
                start == old(self).rows(),
                n0 == start.len(),
                i <= paths@.len(),
                self.rows().len() == n0 + added@.len(),
                self.rows().take(n0 as int) == start,
                forall|k: int|
                    0 <= k < added@.len() ==> self.rows()[n0 + k] == waiting_row(
                        (#[trigger] added@[k])@,
                        self.rows()[n0 + k].relative_label,
                    ),
                forall|j: int| 0 <= j < i ==> has_path(self.rows(), (#[trigger] paths@[j]).0@),
                forall|k: int| 0 <= k < added@.len() ==> was_dropped(paths@, (#[trigger] added@[k])@),
                forall|k: int|
                    0 <= k < added@.len() ==> forall|m: int|
                        0 <= m < n0 ==> (#[trigger] start[m]).path != (#[trigger] added@[k])@,
            decreases paths@.len() - i,
        {
            let ghost before = self.rows();
            let ghost mut witness: int = 0;
            let path = &paths[i].0;
            match self.index_of_path(path) {
                Some(m) => {
                    assert(self.rows()[m as int].path == paths@[i as int].0@);
                    proof {
                        witness = m as int;
                    }
                },
                None => {
                    let row = FileRow::waiting(path.clone(), copy_opt_string(&paths[i].1));
                    self.files.push(row);
                    added.push(path.clone());
                    proof {
                        witness = before.len() as int;
                        assert(self.rows() =~= before.push(row@));
                        assert(self.rows().take(n0 as int) =~= before.take(n0 as int));
                        assert(self.rows()[before.len() as int].path == paths@[i as int].0@);
                        assert forall|k: int| 0 <= k < added@.len() implies forall|m: int|
                            0 <= m < n0 ==> (#[trigger] start[m]).path != (#[trigger] added@[k])@ by {
                            if k == added@.len() - 1 {
                                assert forall|m: int| 0 <= m < n0 implies (#[trigger] start[m]).path
                                    != added@[k]@ by {
                                    assert(start[m] == before[m]);
                                }
                            }
                        }
                        assert forall|k: int| 0 <= k < added@.len() implies was_dropped(
                            paths@,
                            (#[trigger] added@[k])@,
                        ) by {
                            if k == added@.len() - 1 {
                                assert(paths@[i as int].0@ == added@[k]@);
                            }
                        }
                    }
                },
            }
            proof {
                assert forall|j: int| 0 <= j < i + 1 implies has_path(
                    self.rows(),
                    (#[trigger] paths@[j]).0@,
                ) by {
                    if j < i {
                        assert(has_path(before, paths@[j].0@));
                        let m = choose|m: int|
                            0 <= m < before.len() && (#[trigger] before[m]).path == paths@[j].0@;
                        assert(self.rows()[m] == before[m]);
                    } else {
                        assert(self.rows()[witness].path == paths@[j].0@);
                    }
                }
            }
            i = i + 1;
        }
        added
    }
}

/// Whether a row was sent in batch `id`.
fn row_in_batch(row: &FileRow, id: &String) -> (r: bool)
    ensures
        r == in_batch(row@, id@),
{
    match &row.command_id {
        Some(c) => *c == *id,
        None => false,
    }
}

/// A row after the result of batch `id` (see `row_after_result`).
fn row_after(row: &FileRow, id: &String, result: &ImportResult) -> (r: FileRow)
    ensures
        r@ == row_after_result(row@, id@, *result),
{
    let mut r = row.duplicate();
    if row_in_batch(row, id) {
        match result {
            ImportResult::Done { summary, workspace_id, imported_into_current } => {
                if !*imported_into_current {
                    r.imported_workspace_id = Some(*workspace_id);
                }
                r.state = FileState::Done { summary: summary.clone() };
            },
            ImportResult::Failed { message, partial_workspace_created } => {
                let mut msg = message.clone();
                if *partial_workspace_created {
                    msg.append(
                        "\nWorkspace created but partially imported \u{2014} delete it if unwanted.",
                    );
                }
                r.state = FileState::Failed { message: msg };
            },
            ImportResult::Canceled => {
                if let FileState::Importing = r.state {
                    r.state = FileState::Failed { message: "Canceled by user".to_owned() };
                }
            },
        }
    }
    r
}

/// A row after the import is canceled (see `row_after_cancel`).
fn row_canceled(row: &FileRow) -> (r: FileRow)
    ensures
        r@ == row_after_cancel(row@),
{
    let mut r = row.duplicate();
    match row.state {
        FileState::Importing => {
            r.state = FileState::Failed { message: "Canceled by user".to_owned() };
        },
        FileState::Waiting => {
            r.state = FileState::Failed { message: "Canceled before import".to_owned() };
        },
        _ => {},
    }
    r
}

/// The dialog after the result of batch `id` arrives (see
/// `ImportDialogView::handle_import_result`).
pub open spec fn after_result(
    d: ImportDialogView,
    id: Seq<char>,
    result: ImportResult,
    rows: Seq<FileRowView>,
    e: ImportDialogView,
) -> bool {
    let finished = d.completed_count + 1 >= d.enqueued_count;
    &&& rows == d.rows().map_values(|row: FileRowView| row_after_result(row, id, result))
    &&& e == (ImportDialogView {
        files: e.files,
        completed_count: (d.completed_count + 1) as usize,
        any_success: d.any_success || result is Done,
        importing: if finished {
            false
        } else {
            d.importing
        },
        all_done: if finished {
            true
        } else {
            d.all_done
        },
        show_cancel_confirm: if finished {
            false
        } else {
            d.show_cancel_confirm
        },
        ..d
    })
}

impl ImportDialogView {
    /// Takes in the result of batch `command_id`. A result for a batch no
    /// file was sent in changes nothing. Otherwise the batch's files take
    /// the outcome (see `row_after_result`) and one more batch counts as
    /// completed; once every batch sent has completed the import is over,
    /// and when something succeeded and the import was not canceled, the
    /// workspace made by the first finished file is returned, to switch to.
    pub fn handle_import_result(&mut self, result: ImportResult, command_id: String) -> (r: Option<u128>)
        requires
            old(self).wf(),
            old(self).completed_count < usize::MAX,
        ensures
            final(self).wf(),
            !(exists|i: int| 0 <= i < old(self).rows().len() && in_batch(#[trigger] old(self).rows()[i], command_id@))
                ==> *final(self) == *old(self) && r is None,
            (exists|i: int| 0 <= i < old(self).rows().len() && in_batch(#[trigger] old(self).rows()[i], command_id@))
                ==> {
                &&& after_result(*old(self), command_id@, result, final(self).rows(), *final(self))
                &&& r == if old(self).completed_count + 1 >= old(self).enqueued_count
                    && final(self).any_success && !old(self).was_cancelled {
                    first_done_workspace(final(self).rows())
                } else {
                    None
                }
            },
    {
        let ghost before = self.rows();
        let mut found = false;
        let mut i: usize = 0;
        while i < self.files.len()
            invariant
                before == self.rows(),
                i <= self.files@.len(),
                found == exists|j: int| 0 <= j < i && in_batch(#[trigger] before[j], command_id@),
            decreases self.files@.len() - i,
        {
            let b = row_in_batch(&self.files[i], &command_id);
            assert(before[i as int] == self.files@[i as int]@);
            if b {
                found = true;
            }
            i = i + 1;
        }
        if !found {
            return None;
        }
        self.completed_count = self.completed_count + 1;
        let mut rows: Vec<FileRow> = Vec::new();
        let mut k: usize = 0;
        while k < self.files.len()
            invariant
                before == self.rows(),
                k <= self.files@.len(),
                rows@.len() == k,
                forall|j: int|
                    0 <= j < k ==> (#[trigger] rows@[j])@ == row_after_result(before[j], command_id@, result),
            decreases self.files@.len() - k,
        {
            let row = row_after(&self.files[k], &command_id, &result);
            rows.push(row);
            k = k + 1;
        }
        let ghost mapped = before.map_values(|row: FileRowView| row_after_result(row, command_id@, result));
        self.files = rows;
        assert(self.rows() =~= mapped);
        proof {
            assert forall|a: int, b: int|
                0 <= a < mapped.len() && 0 <= b < mapped.len() && a != b implies (
                #[trigger] mapped[a]).path != (#[trigger] mapped[b]).path by {
                assert(before[a].path != before[b].path);
            }
        }
        if let ImportResult::Done { .. } = result {
            self.any_success = true;
        }
        if self.completed_count >= self.enqueued_count {
            self.importing = false;
            self.all_done = true;
            self.show_cancel_confirm = false;
            if self.any_success && !self.was_cancelled {
                return self.first_done_workspace();
            }
        }
        None
    }

    /// The workspace made by the first finished file (see
    /// `first_done_workspace`).
    fn first_done_workspace(&self) -> (r: Option<u128>)
        ensures
            r == first_done_workspace(self.rows()),
    {
        assert(self.rows().skip(0) =~= self.rows());
        let mut i: usize = 0;
        while i < self.files.len()
            invariant
                i <= self.files@.len(),
                first_done_workspace(self.rows()) == first_done_workspace(self.rows().skip(i as int)),
            decreases self.files@.len() - i,
        {
            let ghost rest = self.rows().skip(i as int);
            assert(rest[0] == self.rows()[i as int]);
            if let FileState::Done { .. } = self.files[i].state {
                return self.files[i].imported_workspace_id;
            }
            assert(rest.drop_first() =~= self.rows().skip(i + 1));
            i = i + 1;
        }
        assert(self.rows().skip(i as int) =~= Seq::<FileRowView>::empty());
        None
    }

    /// Cancels the import: files importing are canceled by the user, files
    /// waiting are canceled before import, and the confirmation closes.
    pub fn cancel_import(&mut self)
        requires
            old(self).wf(),
        ensures
            final(self).wf(),
            final(self).rows() == old(self).rows().map_values(|row: FileRowView| row_after_cancel(row)),
            *final(self) == (ImportDialogView {
                files: final(self).files,
                was_cancelled: true,
                show_cancel_confirm: false,
                ..*old(self)
            }),
    {
        let ghost before = self.rows();
        let mut rows: Vec<FileRow> = Vec::new();
        let mut k: usize = 0;
        while k < self.files.len()
            invariant
                before == self.rows(),
                k <= self.files@.len(),
                rows@.len() == k,
                forall|j: int| 0 <= j < k ==> (#[trigger] rows@[j])@ == row_after_cancel(before[j]),
            decreases self.files@.len() - k,
        {
            let row = row_canceled(&self.files[k]);
            rows.push(row);
            k = k + 1;
        }
        let ghost mapped = before.map_values(|row: FileRowView| row_after_cancel(row));
        self.files = rows;
        assert(self.rows() =~= mapped);
        proof {
            assert forall|a: int, b: int|
                0 <= a < mapped.len() && 0 <= b < mapped.len() && a != b implies (
                #[trigger] mapped[a]).path != (#[trigger] mapped[b]).path by {
                assert(before[a].path != before[b].path);
            }
        }
        self.was_cancelled = true;
        self.show_cancel_confirm = false;
    }

    /// The Cancel button: during an import it asks for confirmation and
    /// returns false; otherwise it returns true, to close the dialog.
    pub fn click_cancel(&mut self) -> (close: bool)
        ensures
            close == !old(self).importing,
            old(self).importing ==> *final(self) == (ImportDialogView {
                show_cancel_confirm: true,
                ..*old(self)
            }),
            !old(self).importing ==> *final(self) == *old(self),
    {
        if self.importing {
            self.show_cancel_confirm = true;
            false
        } else {
            true
        }
    }

    /// Keeps importing: the confirmation closes.
    pub fn keep_importing(&mut self)
        ensures
            *final(self) == (ImportDialogView { show_cancel_confirm: false, ..*old(self) }),
    {
        self.show_cancel_confirm = false;
    }

    /// Whether every file failed.
    pub fn all_failed(&self) -> (r: bool)
        ensures
            r == forall|i: int| 0 <= i < self.rows().len() ==> (#[trigger] self.rows()[i]).state is Failed,
    {
        let mut i: usize = 0;
        while i < self.files.len()
            invariant
                i <= self.files@.len(),
                forall|j: int| 0 <= j < i ==> (#[trigger] self.rows()[j]).state is Failed,
            decreases self.files@.len() - i,
        {
            assert(self.rows()[i as int] == self.files@[i as int]@);
            if let FileState::Failed { .. } = self.files[i].state {
            } else {
                return false;
            }
            i = i + 1;
        }
        true
    }

    /// The label of the submit button.
    pub fn submit_label(&self) -> (r: &'static str)
        ensures
            r@ == if self.all_done {
                "Done"@
            } else if self.importing {
                "Importing..."@
            } else {
                "Import"@
            },
    {
        if self.all_done {
            "Done"
        } else if self.importing {
            "Importing..."
        } else {
            "Import"
        }
    }
}

/// The label shown for a file: the path under the dropped folder, or else
/// the file's name.
pub fn file_row_label(row: &FileRow, file_name: &str) -> (r: String)
    ensures
        r@ == match row.relative_label {
            Some(l) => l@,
            None => file_name@,
        },
{
    match &row.relative_label {
        Some(l) => l.clone(),
        None => file_name.to_owned(),
    }
}

/// The paths of the queued rows, in order.
pub open spec fn queued_paths(rows: Seq<FileRowView>) -> Seq<Seq<char>>
    decreases rows.len(),
{
    if rows.len() == 0 {
        Seq::empty()
    } else {
        let p = queued_paths(rows.drop_last());
        if queued(rows.last()) {
            p.push(rows.last().path)
        } else {
            p
        }
    }
}

/// Whether some queued row is a separate environment file.
pub open spec fn has_environment_file(rows: Seq<FileRowView>) -> bool {
    exists|i: int| 0 <= i < rows.len() && queued(#[trigger] rows[i]) && rows[i].is_environment_file
}

/// Whether some row is queued.
pub open spec fn has_queued(rows: Seq<FileRowView>) -> bool {
    exists|i: int| 0 <= i < rows.len() && queued(#[trigger] rows[i])
}

/// A row when its batch is refused for mixing workspaces and environment
/// files: a queued file fails.
pub open spec fn row_after_reject(row: FileRowView) -> FileRowView {
    if queued(row) {
        FileRowView { state: FileStateView::Failed(mixed_batch_message()), ..row }
    } else {
        row
    }
}

/// A row when batch `id` starts: a queued file is importing in it.
pub open spec fn row_after_start(row: FileRowView, id: Seq<char>) -> FileRowView {
    if queued(row) {
        FileRowView { state: FileStateView::Importing, command_id: Some(id), ..row }
    } else {
        row
    }
}

impl ImportDialogView {
    /// The Import button. When all is done the dialog closes; during an
    /// import, or with nothing queued, nothing happens. Otherwise the
    /// cancellation is reset, and a batch that would bring more than one
    /// workspace along with a separate environment file is refused, its
    /// files failing; any other batch is handed out as the queued paths.
    pub fn prepare_submit(&mut self) -> (r: SubmitStep)
        requires
            old(self).wf(),
        ensures
            final(self).wf(),
            old(self).all_done ==> r is CloseDialog && *final(self) == *old(self),
            !old(self).all_done && (old(self).importing || !has_queued(old(self).rows())) ==> r is Ignore
                && *final(self) == *old(self),
            !old(self).all_done && !old(self).importing && has_queued(old(self).rows()) ==> {
                let reset = ImportDialogView {
                    was_cancelled: false,
                    show_cancel_confirm: false,
                    ..*old(self)
                };
                if workspace_count(old(self).rows()) > 1 && has_environment_file(old(self).rows()) {
                    &&& r is RejectedMixedBatch
                    &&& final(self).rows() == old(self).rows().map_values(
                        |row: FileRowView| row_after_reject(row),
                    )
                    &&& *final(self) == (ImportDialogView {
                        files: final(self).files,
                        all_done: true,
                        ..reset
                    })
                } else {
                    &&& r matches SubmitStep::Queue(ps) && ps@.map_values(|p: String| p@) == queued_paths(
                        old(self).rows(),
                    )
                    &&& *final(self) == reset
                }
            },
    {
        if self.all_done {
            return SubmitStep::CloseDialog;
        }
        if self.importing {
            return SubmitStep::Ignore;
        }
        let ghost rows = self.rows();
        let mut any_queued = false;
        let mut count: usize = 0;
        let mut env = false;
        let mut paths: Vec<String> = Vec::new();
        let mut i: usize = 0;
        while i < self.files.len()
            invariant
                rows == self.rows(),
                i <= self.files@.len(),
                any_queued == exists|j: int| 0 <= j < i && queued(#[trigger] rows[j]),
                env == exists|j: int| 0 <= j < i && queued(#[trigger] rows[j]) && rows[j].is_environment_file,
                count == workspace_count(rows.take(i as int)),
                count <= i,
                paths@.map_values(|p: String| p@) == queued_paths(rows.take(i as int)),
            decreases self.files@.len() - i,
        {
            let ghost next = rows.take(i + 1);
            assert(next.drop_last() =~= rows.take(i as int));
            assert(next.last() == rows[i as int]);
            assert(rows[i as int] == self.files@[i as int]@);
            let row = &self.files[i];
            let is_queued = row.has_plan && matches!(row.state, FileState::Waiting);
            if is_queued {
                any_queued = true;
                if row.needs_new_workspace {
                    count = count + 1;
                }
                if row.is_environment_file {
                    env = true;
                }
                paths.push(row.path.clone());
                assert(paths@.map_values(|p: String| p@) =~= queued_paths(rows.take(i as int)).push(
                    rows[i as int].path,
                ));
            }
            i = i + 1;
        }
        assert(rows.take(i as int) =~= rows);
        if !any_queued {
            return SubmitStep::Ignore;
        }
        self.was_cancelled = false;
        self.show_cancel_confirm = false;
        if count > 1 && env {
            let mut out: Vec<FileRow> = Vec::new();
            let mut k: usize = 0;
            while k < self.files.len()
                invariant
                    rows == self.rows(),
                    k <= self.files@.len(),
                    out@.len() == k,
                    forall|j: int| 0 <= j < k ==> (#[trigger] out@[j])@ == row_after_reject(rows[j]),
                decreases self.files@.len() - k,
            {
                let mut row = self.files[k].duplicate();
                if row.has_plan && matches!(row.state, FileState::Waiting) {
                    row.state = FileState::Failed {
                        message: "An import batch with multiple workspaces cannot include separate environment files".to_owned(),
                    };
                }
                out.push(row);
                k = k + 1;
            }
            let ghost mapped = rows.map_values(|row: FileRowView| row_after_reject(row));
            self.files = out;
            assert(self.rows() =~= mapped);
            proof {
                assert forall|a: int, b: int|
                    0 <= a < mapped.len() && 0 <= b < mapped.len() && a != b implies (
                    #[trigger] mapped[a]).path != (#[trigger] mapped[b]).path by {
                    assert(rows[a].path != rows[b].path);
                }
            }
            self.all_done = true;
            return SubmitStep::RejectedMixedBatch;
        }
        SubmitStep::Queue(paths)
    }

    /// The batch `command_id` starts: the queued files are importing in it,
    /// one batch is sent and none completed.
    pub fn mark_import_started(&mut self, command_id: String)
        requires
            old(self).wf(),
        ensures
            final(self).wf(),
            final(self).rows() == old(self).rows().map_values(
                |row: FileRowView| row_after_start(row, command_id@),
            ),
            *final(self) == (ImportDialogView {
                files: final(self).files,
                enqueued_count: 1,
                completed_count: 0,
                importing: true,
                ..*old(self)
            }),
    {
        let ghost rows = self.rows();
        let mut out: Vec<FileRow> = Vec::new();
        let mut k: usize = 0;
        while k < self.files.len()
            invariant
                rows == self.rows(),
                k <= self.files@.len(),
                out@.len() == k,
                forall|j: int| 0 <= j < k ==> (#[trigger] out@[j])@ == row_after_start(rows[j], command_id@),
            decreases self.files@.len() - k,
        {
            let mut row = self.files[k].duplicate();
            if row.has_plan && matches!(row.state, FileState::Waiting) {
                row.state = FileState::Importing;
                row.command_id = Some(command_id.clone());
            }
            out.push(row);
            k = k + 1;
        }
        let ghost mapped = rows.map_values(|row: FileRowView| row_after_start(row, command_id@));
        self.files = out;
        assert(self.rows() =~= mapped);
        proof {
            assert forall|a: int, b: int|
                0 <= a < mapped.len() && 0 <= b < mapped.len() && a != b implies (
                #[trigger] mapped[a]).path != (#[trigger] mapped[b]).path by {
                assert(rows[a].path != rows[b].path);
            }
        }
        self.enqueued_count = 1;
        self.completed_count = 0;
        self.importing = true;
    }
}

/// The result of a batch reaches exactly the files sent in it: a file
/// queued when the batch started ends with the batch's outcome, and a file
/// not queued, and not in an earlier batch of the same id, is left alone.
pub proof fn lemma_batch_result_reaches_its_files(
    row: FileRowView,
    id: Seq<char>,
    summary: String,
    workspace_id: u128,
    imported_into_current: bool,
)
    ensures
        ({
            let result = ImportResult::Done { summary, workspace_id, imported_into_current };
            let after = row_after_result(row_after_start(row, id), id, result);
            &&& queued(row) ==> after.state == FileStateView::Done(summary@)
            &&& queued(row) && !imported_into_current ==> after.imported_workspace_id == Some(
                workspace_id,
            )
            &&& !queued(row) && row.command_id != Some(id) ==> after == row
        }),
{
}

/// After a cancellation no file is left waiting or importing.
pub proof fn lemma_cancel_settles_every_file(row: FileRowView)
    ensures
        !(row_after_cancel(row).state is Waiting),
        !(row_after_cancel(row).state is Importing),
{
}

} // verus!
