//! The dialog that names a workspace, when creating one or renaming the
//! current one.
use vstd::prelude::*;
use crate::text::{chars_of, push_all, string_of, trim, trimmed_str};

verus! {

/// Whether the dialog creates a workspace or renames the current one.
#[derive(Debug, Clone, Copy, PartialEq, Eq, Structural)]
pub enum WorkspaceDialogMode {
    Create,
    Rename,
}

/// What submitting the dialog does.
#[derive(Debug, Clone)]
pub enum WorkspaceNameSubmit {
    /// The name is blank: the dialog stays, with a notice.
    EmptyName,
    /// A workspace of this name is created, and the dialog closes.
    Create { name: String },
    /// The workspace is renamed, and the dialog closes.
    Rename { workspace_id: u128, new_name: String },
    /// There is no current workspace to rename: the dialog just closes.
    Close,
}

/// The notice shown for a blank name.
pub fn empty_workspace_name_notice() -> (r: &'static str)
    ensures
        r@ == "Workspace name cannot be empty."@,
{
    "Workspace name cannot be empty."
}

/// What submitting the typed name does: a blank name is refused; otherwise
/// the trimmed name creates a workspace, or renames the current one when
/// there is one.
pub fn workspace_name_submit(
    input: &str,
    mode: WorkspaceDialogMode,
    current_workspace_id: Option<u128>,
) -> (r: WorkspaceNameSubmit)
    ensures
        trim(input@).len() == 0 ==> r is EmptyName,
        trim(input@).len() != 0 ==> match mode {
            WorkspaceDialogMode::Create => r matches WorkspaceNameSubmit::Create { name } && name@
                == trim(input@),
            WorkspaceDialogMode::Rename => match current_workspace_id {
                Some(id) => r matches WorkspaceNameSubmit::Rename { workspace_id, new_name }
                    && workspace_id == id && new_name@ == trim(input@),
                None => r is Close,
            },
        },
{
    let t = trimmed_str(input);
    if t.len() == 0 {
        return WorkspaceNameSubmit::EmptyName;
    }
    let name = string_of(t.as_slice());
    match mode {
        WorkspaceDialogMode::Create => WorkspaceNameSubmit::Create { name },
        WorkspaceDialogMode::Rename => match current_workspace_id {
            Some(workspace_id) => WorkspaceNameSubmit::Rename { workspace_id, new_name: name },
            None => WorkspaceNameSubmit::Close,
        },
    }
}

/// The notice after a workspace is deleted, naming it; when it was the
/// active workspace and another one took its place, naming that one too.
pub fn workspace_deleted_notice(
    workspace_name: &str,
    deleted_active: bool,
    new_active_workspace_name: &str,
) -> (r: String)
    ensures
        r@ == if deleted_active && new_active_workspace_name@.len() > 0 {
            "Workspace \""@ + workspace_name@ + "\" deleted. Switched to \""@
                + new_active_workspace_name@ + "\"."@
        } else {
            "Workspace \""@ + workspace_name@ + "\" deleted."@
        },
{
    let mut out: Vec<char> = chars_of("Workspace \"");
    push_all(&mut out, chars_of(workspace_name).as_slice());
    if deleted_active && new_active_workspace_name.unicode_len() > 0 {
        push_all(&mut out, chars_of("\" deleted. Switched to \"").as_slice());
        push_all(&mut out, chars_of(new_active_workspace_name).as_slice());
        push_all(&mut out, chars_of("\".").as_slice());
    } else {
        push_all(&mut out, chars_of("\" deleted.").as_slice());
    }
    string_of(out.as_slice())
}

} // verus!
