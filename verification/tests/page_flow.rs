use rbac_organization::model::OrganizationItem;
use rbac_organization::page_flow::{creates, initial_page, page_step, EditorState, PageEvent, PageKind};

fn item(id: &str) -> OrganizationItem {
    OrganizationItem {
        id: id.into(),
        code: "".into(),
        name: "N".into(),
        parent_id: None,
        leader: "".into(),
        phone: "".into(),
        email: "".into(),
        sort_order: 0,
        status: "active".into(),
        remark: "".into(),
    }
}

#[test]
fn saving_closes_the_editor_reloads_and_reports() {
    let s = initial_page();
    assert_eq!(s.revision, 0);
    let s = page_step(PageKind::Departments, s, PageEvent::OpenCreate);
    assert!(matches!(s.editor, EditorState::Creating));
    assert!(creates(&s.editor));
    let s = page_step(PageKind::Departments, s, PageEvent::Saved);
    assert!(matches!(s.editor, EditorState::Closed));
    assert_eq!(s.revision, 1);
    assert_eq!(s.feedback.as_deref(), Some("部门已保存"));
    let s = page_step(PageKind::Posts, s, PageEvent::Saved);
    assert_eq!(s.feedback.as_deref(), Some("岗位已保存"));
    assert_eq!(s.revision, 2);
}

#[test]
fn editing_an_item_updates_rather_than_creates() {
    let s = page_step(PageKind::Posts, initial_page(), PageEvent::OpenEdit(item("p1")));
    match &s.editor {
        EditorState::Editing(i) => assert_eq!(i.id, "p1"),
        _ => panic!("editor should be editing"),
    }
    assert!(!creates(&s.editor));
    let s = page_step(PageKind::Posts, s, PageEvent::CloseEditor);
    assert!(matches!(s.editor, EditorState::Closed));
    assert_eq!(s.revision, 0);
    assert_eq!(s.feedback, None);
}

#[test]
fn deleting_reports_and_reloads_and_retry_reloads() {
    let s = page_step(PageKind::Departments, initial_page(), PageEvent::OpenDelete(item("d1")));
    assert_eq!(s.removal.as_ref().map(|i| i.id.as_str()), Some("d1"));
    let s = page_step(PageKind::Departments, s, PageEvent::Deleted);
    assert_eq!(s.feedback.as_deref(), Some("部门已删除"));
    assert_eq!(s.revision, 1);
    let s = page_step(PageKind::Departments, s, PageEvent::CloseDelete);
    assert!(s.removal.is_none());
    let s = page_step(PageKind::Departments, s, PageEvent::Retry);
    let s = page_step(PageKind::Departments, s, PageEvent::Refresh);
    assert_eq!(s.revision, 3);
    assert_eq!(s.feedback.as_deref(), Some("部门已删除"));
    let s = page_step(PageKind::Posts, s, PageEvent::Deleted);
    assert_eq!(s.feedback.as_deref(), Some("岗位已删除"));
}
