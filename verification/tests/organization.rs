use rbac_organization::model::{OrganizationError, SaveDepartmentRequest, SavePostRequest};
use rbac_organization::organization::{
    department, department_record, fresh_id, post, post_record, prepare_department, prepare_post,
    check_parent, check_post_code_free, require_department_deleted, require_no_children, require_post_deleted,
    validate_status,
};
use rbac_organization::hierarchy::closes_cycle;
use rbac_organization::text::trim;

fn dept(id: Option<&str>, parent: Option<&str>, name: &str, status: &str) -> SaveDepartmentRequest {
    SaveDepartmentRequest {
        id: id.map(|s| s.to_string()),
        parent_id: parent.map(|s| s.to_string()),
        name: name.to_string(),
        leader: "  Li Lei ".to_string(),
        phone: " 123 ".to_string(),
        email: "\tli@example.com\n".to_string(),
        sort_order: 7,
        status: status.to_string(),
    }
}

fn post_req(id: Option<&str>, code: &str, name: &str, status: &str) -> SavePostRequest {
    SavePostRequest {
        id: id.map(|s| s.to_string()),
        code: code.to_string(),
        name: name.to_string(),
        sort_order: -3,
        status: status.to_string(),
        remark: "  note  ".to_string(),
    }
}

fn is_simple_uuid_v4(h: &str) -> bool {
    let b = h.as_bytes();
    h.len() == 32
        && b.iter().all(|c| c.is_ascii_digit() || (b'a'..=b'f').contains(c))
        && b[12] == b'4'
        && matches!(b[16], b'8' | b'9' | b'a' | b'b')
}

#[test]
fn validate_status_accepts_active_and_disabled_only() {
    assert_eq!(validate_status("active"), Ok(()));
    assert_eq!(validate_status("disabled"), Ok(()));
    assert_eq!(validate_status("Active"), Err(OrganizationError::InvalidStatus));
    assert_eq!(validate_status(" active"), Err(OrganizationError::InvalidStatus));
    assert_eq!(validate_status(""), Err(OrganizationError::InvalidStatus));
    assert_eq!(validate_status("deleted"), Err(OrganizationError::InvalidStatus));
}

#[test]
fn trim_removes_unicode_whitespace_at_both_ends() {
    assert_eq!(trim("  a b  "), "a b");
    assert_eq!(trim("\u{3000}部门\u{a0}\n"), "部门");
    assert_eq!(trim(" \t\r\n"), "");
    assert_eq!(trim(""), "");
    assert_eq!(trim("x"), "x");
    assert_eq!(trim("\u{200b}x"), "\u{200b}x");
}

#[test]
fn department_write_trims_fields_and_keeps_the_requested_id() {
    let record = prepare_department(dept(Some("d1"), Some(" p1 "), "  研发部  ", " active ")).unwrap();
    assert_eq!(record.id, "d1");
    assert_eq!(record.parent_id.as_deref(), Some(" p1 "));
    assert_eq!(record.name, "研发部");
    assert_eq!(record.leader, "Li Lei");
    assert_eq!(record.phone, "123");
    assert_eq!(record.email, "li@example.com");
    assert_eq!(record.sort_order, 7);
    assert_eq!(record.status, "active");
}

#[test]
fn department_without_id_gets_a_fresh_dept_id() {
    let record = prepare_department(dept(None, None, "研发部", "disabled")).unwrap();
    assert!(record.id.starts_with("dept-"));
    assert!(is_simple_uuid_v4(&record.id["dept-".len()..]));
    assert_eq!(record.parent_id, None);
    assert_eq!(record.status, "disabled");
    let other = prepare_department(dept(None, None, "研发部", "active")).unwrap();
    assert_ne!(record.id, other.id);
}

#[test]
fn department_name_must_have_1_to_120_characters() {
    assert_eq!(
        prepare_department(dept(Some("d"), None, "   ", "active")).unwrap_err(),
        OrganizationError::DepartmentName
    );
    assert_eq!(
        prepare_department(dept(None, None, "", "bogus")).unwrap_err(),
        OrganizationError::DepartmentName
    );
    let long: String = "部".repeat(120);
    assert!(prepare_department(dept(Some("d"), None, &format!(" {long} "), "active")).is_ok());
    let too_long: String = "部".repeat(121);
    assert_eq!(
        prepare_department(dept(Some("d"), None, &too_long, "active")).unwrap_err(),
        OrganizationError::DepartmentName
    );
}

#[test]
fn department_status_is_checked_after_the_name() {
    assert_eq!(
        prepare_department(dept(Some("d"), None, "A", "archived")).unwrap_err(),
        OrganizationError::InvalidStatus
    );
    assert_eq!(
        prepare_department(dept(Some("d"), Some("d"), "A", "archived")).unwrap_err(),
        OrganizationError::InvalidStatus
    );
}

#[test]
fn department_cannot_be_its_own_parent() {
    assert_eq!(
        prepare_department(dept(Some("d1"), Some("d1"), "A", "active")).unwrap_err(),
        OrganizationError::SelfParent
    );
    // The kept parent id is compared as given, not trimmed.
    assert!(prepare_department(dept(Some("d1"), Some(" d1"), "A", "active")).is_ok());
}

#[test]
fn blank_parent_means_no_parent() {
    let record = prepare_department(dept(Some("d1"), Some("  \t"), "A", "active")).unwrap();
    assert_eq!(record.parent_id, None);
    let record = prepare_department(dept(Some("d1"), Some(""), "A", "active")).unwrap();
    assert_eq!(record.parent_id, None);
}

#[test]
fn department_record_uses_the_given_id() {
    let record = department_record(dept(Some("ignored"), Some("p"), "A", "active"), "dept-x".to_string()).unwrap();
    assert_eq!(record.id, "dept-x");
    assert_eq!(
        department_record(dept(None, Some("dept-x"), "A", "active"), "dept-x".to_string()).unwrap_err(),
        OrganizationError::SelfParent
    );
}

#[test]
fn resubmitting_a_written_department_writes_the_same_values() {
    let first = prepare_department(dept(Some("d1"), Some(" p "), " 研发 ", " disabled")).unwrap();
    let again = SaveDepartmentRequest {
        id: Some(first.id.clone()),
        parent_id: first.parent_id.clone(),
        name: first.name.clone(),
        leader: first.leader.clone(),
        phone: first.phone.clone(),
        email: first.email.clone(),
        sort_order: first.sort_order,
        status: first.status.clone(),
    };
    let second = prepare_department(again).unwrap();
    assert_eq!(format!("{first:?}"), format!("{second:?}"));
}

#[test]
fn post_write_trims_fields() {
    let record = prepare_post(post_req(Some("p1"), " dev-ops_1 ", " 工程师 ", "active ")).unwrap();
    assert_eq!(record.id, "p1");
    assert_eq!(record.code, "dev-ops_1");
    assert_eq!(record.name, "工程师");
    assert_eq!(record.sort_order, -3);
    assert_eq!(record.status, "active");
    assert_eq!(record.remark, "note");
}

#[test]
fn post_without_id_gets_a_fresh_post_id() {
    let record = prepare_post(post_req(None, "c", "n", "active")).unwrap();
    assert!(record.id.starts_with("post-"));
    assert!(is_simple_uuid_v4(&record.id["post-".len()..]));
    assert_eq!(record.id.len(), 37);
}

#[test]
fn post_checks_name_then_code_then_status() {
    assert_eq!(prepare_post(post_req(None, "", "", "x")).unwrap_err(), OrganizationError::PostName);
    assert_eq!(prepare_post(post_req(None, "", "n", "x")).unwrap_err(), OrganizationError::PostCode);
    assert_eq!(prepare_post(post_req(None, "c", "n", "x")).unwrap_err(), OrganizationError::InvalidStatus);
    assert_eq!(
        prepare_post(post_req(None, "c", &"n".repeat(121), "active")).unwrap_err(),
        OrganizationError::PostName
    );
}

#[test]
fn post_code_is_1_to_64_letters_digits_hyphens_or_underscores() {
    assert!(prepare_post(post_req(Some("p"), &"a".repeat(64), "n", "active")).is_ok());
    assert!(prepare_post(post_req(Some("p"), "AZaz09-_", "n", "active")).is_ok());
    for bad in ["a b", "岗位", "a.b", "é", &"a".repeat(65)] {
        assert_eq!(
            prepare_post(post_req(Some("p"), bad, "n", "active")).unwrap_err(),
            OrganizationError::PostCode
        );
    }
}

#[test]
fn post_record_uses_the_given_id() {
    let record = post_record(post_req(Some("ignored"), "c", "n", "disabled"), "post-y".to_string()).unwrap();
    assert_eq!(record.id, "post-y");
    assert_eq!(
        post_record(post_req(None, "c d", "n", "active"), "x".to_string()).unwrap_err(),
        OrganizationError::PostCode
    );
}

#[test]
fn fresh_id_prefixes_a_random_uuid() {
    let id = fresh_id("dept-");
    assert_eq!(id.len(), 37);
    assert!(id.starts_with("dept-"));
    assert!(is_simple_uuid_v4(&id[5..]));
}

#[test]
fn query_checks_follow_the_rows() {
    assert_eq!(require_no_children(false), Ok(()));
    assert_eq!(require_no_children(true), Err(OrganizationError::HasChildren));
    assert_eq!(require_department_deleted(1), Ok(()));
    assert_eq!(require_department_deleted(0), Err(OrganizationError::DepartmentNotFound));
    assert_eq!(require_department_deleted(2), Err(OrganizationError::DepartmentNotFound));
    assert_eq!(require_post_deleted(1), Ok(()));
    assert_eq!(require_post_deleted(0), Err(OrganizationError::PostNotFound));
}

#[test]
fn error_messages_match_the_service() {
    let cases = [
        (OrganizationError::DepartmentName, "部门名称需要 1 到 120 个字符"),
        (OrganizationError::InvalidStatus, "状态无效"),
        (OrganizationError::SelfParent, "部门不能把自己设为上级"),
        (OrganizationError::ParentNotFound, "上级部门不存在或不属于当前租户"),
        (OrganizationError::ParentCycle, "上级部门不能是本部门或其下级部门"),
        (OrganizationError::HasChildren, "请先删除下级部门"),
        (OrganizationError::DepartmentNotFound, "部门不存在或不属于当前租户"),
        (OrganizationError::PostName, "岗位名称需要 1 到 120 个字符"),
        (OrganizationError::PostCode, "岗位编码必须为 1 到 64 位字母、数字、连字符或下划线"),
        (OrganizationError::PostNotFound, "岗位不存在或不属于当前租户"),
        (OrganizationError::PostCodeTaken, "岗位编码在当前租户内已被使用"),
    ];
    for (error, message) in cases {
        assert_eq!(error.message(), message);
    }
}

#[test]
fn listed_items_blank_the_fields_they_do_not_have() {
    let d = department(
        "d1".into(), "研发".into(), Some("d0".into()), "Li".into(), "1".into(), "e".into(), 3,
        "active".into(),
    );
    assert_eq!(d.code, "");
    assert_eq!(d.remark, "");
    assert_eq!(d.parent_id.as_deref(), Some("d0"));
    assert_eq!(d.sort_order, 3);
    let p = post("p1".into(), "c".into(), "工程师".into(), 2, "disabled".into(), "r".into());
    assert_eq!(p.parent_id, None);
    assert_eq!(p.leader, "");
    assert_eq!(p.phone, "");
    assert_eq!(p.email, "");
    assert_eq!(p.code, "c");
    assert_eq!(p.remark, "r");
}

fn links(pairs: &[(&str, Option<&str>)]) -> Vec<(String, Option<String>)> {
    pairs.iter().map(|(i, p)| (i.to_string(), p.map(|p| p.to_string()))).collect()
}

#[test]
fn closes_cycle_follows_the_parent_chain() {
    // root <- a <- b <- c ; x has no link
    let l = links(&[("a", Some("root")), ("b", Some("a")), ("c", Some("b")), ("root", None)]);
    assert!(closes_cycle(&l, "a", "a"));
    assert!(closes_cycle(&l, "a", "b"));
    assert!(closes_cycle(&l, "a", "c"));
    assert!(closes_cycle(&l, "root", "c"));
    assert!(!closes_cycle(&l, "c", "a"));
    assert!(!closes_cycle(&l, "b", "root"));
    assert!(!closes_cycle(&l, "a", "x"));
    assert!(!closes_cycle(&Vec::new(), "a", "b"));
    assert!(closes_cycle(&Vec::new(), "a", "a"));
}

#[test]
fn closes_cycle_ends_on_a_cycle_already_stored() {
    // p <-> q form a cycle that does not contain a
    let l = links(&[("p", Some("q")), ("q", Some("p")), ("a", None)]);
    assert!(!closes_cycle(&l, "a", "p"));
    assert!(closes_cycle(&l, "q", "p"));
}

#[test]
fn closes_cycle_reads_the_first_link_of_a_department() {
    let l = links(&[("b", Some("a")), ("b", None)]);
    assert!(closes_cycle(&l, "a", "b"));
    let l = links(&[("b", None), ("b", Some("a"))]);
    assert!(!closes_cycle(&l, "a", "b"));
}

#[test]
fn check_parent_refuses_a_missing_parent_or_a_descendant() {
    let l = links(&[("a", None), ("b", Some("a")), ("c", Some("b"))]);
    let record = prepare_department(dept(Some("a"), Some("c"), "A", "active")).unwrap();
    assert_eq!(check_parent(&record, true, &l), Err(OrganizationError::ParentCycle));
    assert_eq!(check_parent(&record, false, &l), Err(OrganizationError::ParentNotFound));
    let record = prepare_department(dept(Some("c"), Some("a"), "C", "active")).unwrap();
    assert_eq!(check_parent(&record, true, &l), Ok(()));
    let record = prepare_department(dept(Some("a"), None, "A", "active")).unwrap();
    assert_eq!(check_parent(&record, false, &l), Ok(()));
    let record = prepare_department(dept(None, Some("b"), "N", "active")).unwrap();
    assert_eq!(check_parent(&record, true, &l), Ok(()));
}

fn codes(pairs: &[(&str, &str)]) -> Vec<(String, String)> {
    pairs.iter().map(|(i, c)| (i.to_string(), c.to_string())).collect()
}

#[test]
fn post_code_must_be_free_among_the_other_posts() {
    let posts = codes(&[("p1", "dev"), ("p2", "ops")]);
    let record = prepare_post(post_req(Some("p3"), " dev ", "n", "active")).unwrap();
    assert_eq!(check_post_code_free(&record, &posts), Err(OrganizationError::PostCodeTaken));
    let record = prepare_post(post_req(Some("p1"), "dev", "n", "active")).unwrap();
    assert_eq!(check_post_code_free(&record, &posts), Ok(()));
    let record = prepare_post(post_req(None, "qa", "n", "active")).unwrap();
    assert_eq!(check_post_code_free(&record, &posts), Ok(()));
    let record = prepare_post(post_req(Some("p3"), "Dev", "n", "active")).unwrap();
    assert_eq!(check_post_code_free(&record, &posts), Ok(()));
}

#[test]
fn saving_a_department_twice_passes_and_writes_the_same_values() {
    let l = links(&[("a", None), ("b", Some("a"))]);
    let first = prepare_department(dept(Some("c"), Some("b"), " C ", "active")).unwrap();
    assert_eq!(check_parent(&first, true, &l), Ok(()));
    // The table after the first save.
    let after = links(&[("a", None), ("b", Some("a")), ("c", Some("b"))]);
    let second = prepare_department(dept(Some("c"), Some("b"), " C ", "active")).unwrap();
    assert_eq!(check_parent(&second, true, &after), Ok(()));
    assert_eq!(format!("{first:?}"), format!("{second:?}"));
}

#[test]
fn a_second_delete_finds_nothing() {
    // After a delete the department is gone, so the next delete removes no row.
    assert_eq!(require_department_deleted(1), Ok(()));
    assert_eq!(require_department_deleted(0), Err(OrganizationError::DepartmentNotFound));
    assert_eq!(
        OrganizationError::DepartmentNotFound.message(),
        "部门不存在或不属于当前租户"
    );
}
