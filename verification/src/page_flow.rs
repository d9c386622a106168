//! What the department and post pages do on each user or request event:
//! which dialog is open, which message is shown, and when the list is
//! loaded again (each bump of the revision reloads it).
use vstd::prelude::*;
use vstd::string::*;

use crate::model::OrganizationItem;

verus! {

/// Which of the two organization pages.
#[derive(Debug, Clone, Copy, PartialEq, Eq, Structural)]
pub enum PageKind {
    Departments,
    Posts,
}

/// The editor dialog of a page.
#[derive(Debug)]
pub enum EditorState {
    Closed,
    /// Creating a new department or post.
    Creating,
    /// Editing the given one.
    Editing(OrganizationItem),
}

/// The state of a page besides the loaded list.
#[derive(Debug)]
pub struct PageState {
    /// Bumped to load the list again.
    pub revision: u64,
    pub editor: EditorState,
    /// The item whose delete dialog is open, if any.
    pub removal: Option<OrganizationItem>,
    /// The message shown above the table, if any.
    pub feedback: Option<String>,
}

/// What happens on a page.
#[derive(Debug)]
pub enum PageEvent {
    /// The refresh button.
    Refresh,
    /// The retry button after the list failed to load.
    Retry,
    /// The create button.
    OpenCreate,
    /// The edit button of a row.
    OpenEdit(OrganizationItem),
    /// The editor was closed without saving.
    CloseEditor,
    /// The editor saved.
    Saved,
    /// The delete button of a row.
    OpenDelete(OrganizationItem),
    /// The delete dialog was closed.
    CloseDelete,
    /// The delete dialog deleted.
    Deleted,
}

/// The message shown after a save.
pub open spec fn saved_message(kind: PageKind) -> Seq<char> {
    match kind {
        PageKind::Departments => "部门已保存"@,
        PageKind::Posts => "岗位已保存"@,
    }
}

/// The message shown after a delete.
pub open spec fn deleted_message(kind: PageKind) -> Seq<char> {
    match kind {
        PageKind::Departments => "部门已删除"@,
        PageKind::Posts => "岗位已删除"@,
    }
}

/// Whether `event` loads the list again.
pub open spec fn reloads(event: PageEvent) -> bool {
    match event {
        PageEvent::Refresh | PageEvent::Retry | PageEvent::Saved | PageEvent::Deleted => true,
        _ => false,
    }
}

/// A page that has just opened: nothing loaded again, no dialog, no message.
pub fn initial_page() -> (state: PageState)
    ensures
        state.revision == 0,
        state.editor is Closed,
        state.removal is None,
        state.feedback is None,
{
    PageState { revision: 0, editor: EditorState::Closed, removal: None, feedback: None }
}

/// The page state after `event`.
pub fn page_step(kind: PageKind, state: PageState, event: PageEvent) -> (next: PageState)
    requires
        reloads(event) ==> state.revision < u64::MAX,
    ensures
        next.revision == if reloads(event) {
            state.revision + 1
        } else {
            state.revision as int
        },
        match event {
            PageEvent::OpenCreate => next.editor is Creating,
            PageEvent::OpenEdit(item) => next.editor == EditorState::Editing(item),
            PageEvent::CloseEditor | PageEvent::Saved => next.editor is Closed,
            _ => next.editor == state.editor,
        },
        match event {
            PageEvent::OpenDelete(item) => next.removal == Some(item),
            PageEvent::CloseDelete => next.removal is None,
            _ => next.removal == state.removal,
        },
        match event {
            PageEvent::Saved => next.feedback matches Some(m) && m@ == saved_message(kind),
            PageEvent::Deleted => next.feedback matches Some(m) && m@ == deleted_message(kind),
            _ => next.feedback == state.feedback,
        },
{
    let PageState { revision, editor, removal, feedback } = state;
    match event {
        PageEvent::Refresh | PageEvent::Retry => PageState {
            revision: revision + 1,
            editor,
            removal,
            feedback,
        },
        PageEvent::OpenCreate => PageState { revision, editor: EditorState::Creating, removal, feedback },
        PageEvent::OpenEdit(item) => PageState {
            revision,
            editor: EditorState::Editing(item),
            removal,
            feedback,
        },
        PageEvent::CloseEditor => PageState { revision, editor: EditorState::Closed, removal, feedback },
        PageEvent::Saved => {
            let message = match kind {
                PageKind::Departments => "部门已保存".to_owned(),
                PageKind::Posts => "岗位已保存".to_owned(),
            };
            PageState {
                revision: revision + 1,
                editor: EditorState::Closed,
                removal,
                feedback: Some(message),
            }
        },
        PageEvent::OpenDelete(item) => PageState { revision, editor, removal: Some(item), feedback },
        PageEvent::CloseDelete => PageState { revision, editor, removal: None, feedback },
        PageEvent::Deleted => {
            let message = match kind {
                PageKind::Departments => "部门已删除".to_owned(),
                PageKind::Posts => "岗位已删除".to_owned(),
            };
            PageState { revision: revision + 1, editor, removal, feedback: Some(message) }
        },
    }
}

/// Whether the editor creates (rather than updates) on save: it does when
/// it edits no existing item. The post code field is locked otherwise.
pub fn creates(editor: &EditorState) -> (res: bool)
    ensures
        res == !(editor is Editing),
{
    match editor {
        EditorState::Editing(_) => false,
        _ => true,
    }
}

} // verus!
