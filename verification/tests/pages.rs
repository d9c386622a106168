use rbac_organization::model::OrganizationItem;
use rbac_organization::numbers::{decimal_text, departments_detail, parse_i32, parse_sort_order, posts_detail};
use rbac_organization::pages::{
    contact_text, department_editor_fields, department_editor_request, department_editor_title,
    department_links, post_editor_fields, post_editor_request, DepartmentFields, PostFields, department_path, department_request,
    department_save_path, department_search_text, leader_text, parent_choices, parent_label,
    post_editor_title, post_path, post_request, post_save_path, post_search_text, remark_text,
    sort_value, SortKey,
};

fn item(id: &str, name: &str, parent: Option<&str>) -> OrganizationItem {
    OrganizationItem {
        id: id.into(),
        code: "c1".into(),
        name: name.into(),
        parent_id: parent.map(|p| p.into()),
        leader: "".into(),
        phone: "555".into(),
        email: "a@b".into(),
        sort_order: 42,
        status: "active".into(),
        remark: "".into(),
    }
}

#[test]
fn department_editor_sends_active_status_and_drops_an_empty_parent() {
    let r = department_request(None, "".into(), "A".into(), "L".into(), "P".into(), "E".into(), 5);
    assert_eq!(r.id, None);
    assert_eq!(r.parent_id, None);
    assert_eq!(r.status, "active");
    assert_eq!(r.sort_order, 5);
    let r = department_request(Some("d1".into()), " ".into(), "A".into(), "".into(), "".into(), "".into(), 0);
    assert_eq!(r.id.as_deref(), Some("d1"));
    assert_eq!(r.parent_id.as_deref(), Some(" "));
    assert_eq!(r.name, "A");
}

#[test]
fn post_editor_sends_active_status() {
    let r = post_request(Some("p".into()), "code".into(), "name".into(), -1, "remark".into());
    assert_eq!(r.id.as_deref(), Some("p"));
    assert_eq!(r.code, "code");
    assert_eq!(r.status, "active");
    assert_eq!(r.remark, "remark");
    assert_eq!(r.sort_order, -1);
}

#[test]
fn editors_save_to_the_collection_or_the_item() {
    assert_eq!(department_save_path(&None), "/api/rbac/departments");
    assert_eq!(department_save_path(&Some("d1".into())), "/api/rbac/departments/d1");
    assert_eq!(department_path("d2"), "/api/rbac/departments/d2");
    assert_eq!(post_save_path(&None), "/api/rbac/posts");
    assert_eq!(post_save_path(&Some("p1".into())), "/api/rbac/posts/p1");
    assert_eq!(post_path("p2"), "/api/rbac/posts/p2");
}

#[test]
fn editor_titles_follow_editing() {
    assert_eq!(department_editor_title(true), "编辑部门");
    assert_eq!(department_editor_title(false), "新建部门");
    assert_eq!(post_editor_title(true), "编辑岗位");
    assert_eq!(post_editor_title(false), "新建岗位");
}

#[test]
fn parent_choices_leave_out_the_edited_department_and_those_below_it() {
    let all = vec![item("a", "A", None), item("b", "B", Some("a")), item("c", "C", None)];
    assert_eq!(parent_choices(&all, &Some("b".into())), vec![0, 2]);
    assert_eq!(parent_choices(&all, &Some("a".into())), vec![2]);
    let deep = vec![
        item("a", "A", None),
        item("b", "B", Some("a")),
        item("c", "C", Some("b")),
        item("d", "D", Some("a")),
        item("e", "E", None),
    ];
    assert_eq!(parent_choices(&deep, &Some("b".into())), vec![0, 3, 4]);
    assert_eq!(parent_choices(&deep, &Some("a".into())), vec![4]);
    assert_eq!(parent_choices(&deep, &Some("c".into())), vec![0, 1, 3, 4]);
    assert_eq!(parent_choices(&all, &None), vec![0, 1, 2]);
    assert_eq!(parent_choices(&all, &Some("z".into())), vec![0, 1, 2]);
    assert_eq!(parent_choices(&Vec::new(), &None), Vec::<usize>::new());
}

#[test]
fn parent_label_names_the_parent_or_the_top_level() {
    let all = vec![item("a", "A", None), item("b", "B", Some("a")), item("a", "A2", None)];
    assert_eq!(parent_label(&all[1], &all), "A2");
    assert_eq!(parent_label(&all[0], &all), "顶级部门");
    assert_eq!(parent_label(&item("x", "X", Some("missing")), &all), "顶级部门");
}

#[test]
fn search_texts_join_the_searched_fields() {
    let d = OrganizationItem { leader: "Li".into(), ..item("a", "研发", Some("p0")) };
    assert_eq!(department_search_text(&d), "研发 Li 555 a@b p0");
    assert_eq!(department_search_text(&item("a", "N", None)), "N  555 a@b ");
    let p = OrganizationItem { remark: "r".into(), ..item("p", "工程师", None) };
    assert_eq!(post_search_text(&p), "c1 工程师 r");
}

#[test]
fn sort_value_uses_the_order_in_the_sort_column() {
    let d = item("a", "Name", None);
    assert_eq!(sort_value(&d, "sort"), SortKey::Number(42));
    assert_eq!(sort_value(&d, "name"), SortKey::Text("Name".into()));
    assert_eq!(sort_value(&d, "parent"), SortKey::Text("Name".into()));
}

#[test]
fn table_cells_fill_empty_fields() {
    let d = item("a", "A", None);
    assert_eq!(leader_text(&d), "未设置");
    assert_eq!(leader_text(&OrganizationItem { leader: "Li".into(), ..item("a", "A", None) }), "Li");
    assert_eq!(contact_text(&d), "555 a@b");
    assert_eq!(remark_text(&d), "—");
    assert_eq!(remark_text(&OrganizationItem { remark: "x".into(), ..item("a", "A", None) }), "x");
}

#[test]
fn sort_order_field_reads_like_i32_parse() {
    for text in ["0", "12", "-5", "+7", "007", "2147483647", "-2147483648", "", "+", "-", " 3", "3 ", "1e3", "abc", "2147483648", "-2147483649", "99999999999999999999", "--1", "+-1", "１"] {
        assert_eq!(parse_i32(text), text.parse::<i32>().ok(), "{text:?}");
        assert_eq!(parse_sort_order(text), text.parse::<i32>().unwrap_or(0), "{text:?}");
    }
    assert_eq!(parse_sort_order("-12"), -12);
    assert_eq!(parse_sort_order("x"), 0);
}

#[test]
fn counts_are_written_in_decimal() {
    assert_eq!(decimal_text(0), "0");
    assert_eq!(decimal_text(7), "7");
    assert_eq!(decimal_text(10), "10");
    assert_eq!(decimal_text(1234567890), "1234567890");
    assert_eq!(departments_detail(3), "当前租户 · 3 个部门");
    assert_eq!(posts_detail(12), "当前租户 · 12 个岗位");
}

#[test]
fn department_links_pair_ids_with_parents() {
    let all = vec![item("a", "A", None), item("b", "B", Some("a"))];
    assert_eq!(
        department_links(&all),
        vec![("a".to_string(), None), ("b".to_string(), Some("a".to_string()))]
    );
}

#[test]
fn department_editor_starts_from_the_edited_department() {
    let v = OrganizationItem { leader: "Li".into(), ..item("b", "B", Some("a")) };
    let f = department_editor_fields(&Some(v));
    assert_eq!((f.name.as_str(), f.leader.as_str(), f.phone.as_str(), f.email.as_str()), ("B", "Li", "555", "a@b"));
    assert_eq!(f.parent_id, "a");
    assert_eq!(f.sort_order, 42);
    let f = department_editor_fields(&Some(item("a", "A", None)));
    assert_eq!(f.parent_id, "");
    let f = department_editor_fields(&None);
    assert_eq!((f.name.as_str(), f.leader.as_str(), f.phone.as_str(), f.email.as_str(), f.parent_id.as_str()), ("", "", "", "", ""));
    assert_eq!(f.sort_order, 0);
}

#[test]
fn department_editor_sends_its_fields_under_the_edited_id() {
    let v = item("b", "B", Some("a"));
    let fields = DepartmentFields {
        name: "B2".into(), leader: "L".into(), phone: "P".into(), email: "E".into(),
        parent_id: "".into(), sort_order: 9,
    };
    let r = department_editor_request(&Some(v), fields);
    assert_eq!(r.id.as_deref(), Some("b"));
    assert_eq!(r.parent_id, None);
    assert_eq!(r.name, "B2");
    assert_eq!(r.sort_order, 9);
    assert_eq!(r.status, "active");
    let fields = department_editor_fields(&None);
    let r = department_editor_request(&None, DepartmentFields { parent_id: "a".into(), ..fields });
    assert_eq!(r.id, None);
    assert_eq!(r.parent_id.as_deref(), Some("a"));
}

#[test]
fn post_editor_keeps_the_code_of_the_edited_post() {
    let v = OrganizationItem { remark: "r".into(), ..item("p1", "P", None) };
    let v = Some(v);
    let f = post_editor_fields(&v);
    assert_eq!((f.code.as_str(), f.name.as_str(), f.remark.as_str()), ("c1", "P", "r"));
    assert_eq!(f.sort_order, 42);
    let changed = PostFields { code: "other".into(), name: "P2".into(), sort_order: 1, remark: "x".into() };
    let r = post_editor_request(&v, changed);
    assert_eq!(r.id.as_deref(), Some("p1"));
    assert_eq!(r.code, "c1");
    assert_eq!(r.name, "P2");
    assert_eq!(r.status, "active");
    let f = post_editor_fields(&None);
    assert_eq!((f.code.as_str(), f.name.as_str(), f.remark.as_str(), f.sort_order), ("", "", "", 0));
    let r = post_editor_request(&None, PostFields { code: "new".into(), ..f });
    assert_eq!(r.id, None);
    assert_eq!(r.code, "new");
}
