//! The rules behind the department and post pages: the requests their
//! editors send, the paths they call, the choices they offer, and the texts,
//! search strings and sort keys of their tables.
use vstd::prelude::*;
use vstd::string::*;

use crate::model::{OrganizationError, OrganizationItem, SaveDepartmentRequest, SavePostRequest};
use crate::organization::{department_error, post_error, valid_status};
use crate::hierarchy::{
    Hierarchy, above, acyclic, closes_cycle, hierarchy, is_ancestor_or_self,
    lemma_save_keeps_acyclic, optional_text, with_parent,
};
use crate::text::{lemma_leading_spaces, lemma_trailing_spaces, same_text, trimmed};

verus! {

/// The status that the editors give every saved department and post.
pub open spec fn editor_status() -> Seq<char> {
    "active"@
}

/// The department save request that the department editor sends. An empty
/// parent field means no parent.
pub fn department_request(
    id: Option<String>,
    parent_id: String,
    name: String,
    leader: String,
    phone: String,
    email: String,
    sort_order: i32,
) -> (request: SaveDepartmentRequest)
    ensures
        request.id == id,
        parent_id@.len() == 0 ==> request.parent_id is None,
        parent_id@.len() > 0 ==> request.parent_id == Some(parent_id),
        request.name == name,
        request.leader == leader,
        request.phone == phone,
        request.email == email,
        request.sort_order == sort_order,
        request.status@ == editor_status(),
{
    let parent_id = if parent_id.as_str().is_empty() {
        None
    } else {
        Some(parent_id)
    };
    SaveDepartmentRequest {
        id,
        parent_id,
        name,
        leader,
        phone,
        email,
        sort_order,
        status: "active".to_owned(),
    }
}

/// The post save request that the post editor sends.
pub fn post_request(
    id: Option<String>,
    code: String,
    name: String,
    sort_order: i32,
    remark: String,
) -> (request: SavePostRequest)
    ensures
        request.id == id,
        request.code == code,
        request.name == name,
        request.sort_order == sort_order,
        request.status@ == editor_status(),
        request.remark == remark,
{
    SavePostRequest { id, code, name, sort_order, status: "active".to_owned(), remark }
}

/// The fields of the department editor.
#[derive(Debug)]
pub struct DepartmentFields {
    pub name: String,
    pub leader: String,
    pub phone: String,
    pub email: String,
    /// The chosen parent id, empty for none.
    pub parent_id: String,
    pub sort_order: i32,
}

/// The fields of the post editor.
#[derive(Debug)]
pub struct PostFields {
    pub code: String,
    pub name: String,
    pub sort_order: i32,
    pub remark: String,
}

/// A copy of a string.
fn copy_text(s: &String) -> (res: String)
    ensures
        res@ == s@,
{
    s.clone()
}

/// The fields the department editor starts with: those of the edited
/// department (its parent id or empty), or empty fields and order 0 for a
/// new one.
pub fn department_editor_fields(value: &Option<OrganizationItem>) -> (fields: DepartmentFields)
    ensures
        match value {
            Some(v) => {
                &&& fields.name@ == v.name@
                &&& fields.leader@ == v.leader@
                &&& fields.phone@ == v.phone@
                &&& fields.email@ == v.email@
                &&& fields.parent_id@ == text_or_empty(v.parent_id)
                &&& fields.sort_order == v.sort_order
            },
            None => {
                &&& fields.name@.len() == 0
                &&& fields.leader@.len() == 0
                &&& fields.phone@.len() == 0
                &&& fields.email@.len() == 0
                &&& fields.parent_id@.len() == 0
                &&& fields.sort_order == 0
            },
        },
{
    match value {
        Some(v) => DepartmentFields {
            name: copy_text(&v.name),
            leader: copy_text(&v.leader),
            phone: copy_text(&v.phone),
            email: copy_text(&v.email),
            parent_id: match &v.parent_id {
                Some(p) => copy_text(p),
                None => String::new(),
            },
            sort_order: v.sort_order,
        },
        None => DepartmentFields {
            name: String::new(),
            leader: String::new(),
            phone: String::new(),
            email: String::new(),
            parent_id: String::new(),
            sort_order: 0,
        },
    }
}

/// The id of the edited item, if any.
fn edited_id(value: &Option<OrganizationItem>) -> (id: Option<String>)
    ensures
        optional_text(id) == match value {
            Some(v) => Some(v.id@),
            None => None::<Seq<char>>,
        },
{
    match value {
        Some(v) => Some(copy_text(&v.id)),
        None => None,
    }
}

/// The request the department editor sends for its fields: the edited
/// department's id (none for a new one), no parent for an empty parent
/// field, status `active`.
pub fn department_editor_request(value: &Option<OrganizationItem>, fields: DepartmentFields) -> (request: SaveDepartmentRequest)
    ensures
        optional_text(request.id) == match value {
            Some(v) => Some(v.id@),
            None => None::<Seq<char>>,
        },
        fields.parent_id@.len() == 0 ==> request.parent_id is None,
        fields.parent_id@.len() > 0 ==> request.parent_id == Some(fields.parent_id),
        request.name == fields.name,
        request.leader == fields.leader,
        request.phone == fields.phone,
        request.email == fields.email,
        request.sort_order == fields.sort_order,
        request.status@ == editor_status(),
{
    let id = edited_id(value);
    department_request(
        id,
        fields.parent_id,
        fields.name,
        fields.leader,
        fields.phone,
        fields.email,
        fields.sort_order,
    )
}

/// The fields the post editor starts with: those of the edited post, or
/// empty fields and order 0 for a new one.
pub fn post_editor_fields(value: &Option<OrganizationItem>) -> (fields: PostFields)
    ensures
        match value {
            Some(v) => {
                &&& fields.code@ == v.code@
                &&& fields.name@ == v.name@
                &&& fields.sort_order == v.sort_order
                &&& fields.remark@ == v.remark@
            },
            None => {
                &&& fields.code@.len() == 0
                &&& fields.name@.len() == 0
                &&& fields.sort_order == 0
                &&& fields.remark@.len() == 0
            },
        },
{
    match value {
        Some(v) => PostFields {
            code: copy_text(&v.code),
            name: copy_text(&v.name),
            sort_order: v.sort_order,
            remark: copy_text(&v.remark),
        },
        None => PostFields {
            code: String::new(),
            name: String::new(),
            sort_order: 0,
            remark: String::new(),
        },
    }
}

/// The request the post editor sends for its fields. The code field is
/// locked while a post is edited, so an edit always sends the edited
/// post's own code.
pub fn post_editor_request(value: &Option<OrganizationItem>, fields: PostFields) -> (request: SavePostRequest)
    ensures
        optional_text(request.id) == match value {
            Some(v) => Some(v.id@),
            None => None::<Seq<char>>,
        },
        request.code@ == match value {
            Some(v) => v.code@,
            None => fields.code@,
        },
        request.name == fields.name,
        request.sort_order == fields.sort_order,
        request.status@ == editor_status(),
        request.remark == fields.remark,
{
    let id = edited_id(value);
    let code = match value {
        Some(v) => copy_text(&v.code),
        None => fields.code,
    };
    post_request(id, code, fields.name, fields.sort_order, fields.remark)
}

/// The path of one department: `/api/rbac/departments/<id>`.
pub fn department_path(id: &str) -> (path: String)
    ensures
        path@ == "/api/rbac/departments/"@ + id@,
{
    let mut path = "/api/rbac/departments/".to_owned();
    path.append(id);
    path
}

/// The path that the department editor saves to: the collection for a new
/// department, the department's own path for an existing one.
pub fn department_save_path(id: &Option<String>) -> (path: String)
    ensures
        match id {
            Some(i) => path@ == "/api/rbac/departments/"@ + i@,
            None => path@ == "/api/rbac/departments"@,
        },
{
    match id {
        Some(i) => department_path(i.as_str()),
        None => "/api/rbac/departments".to_owned(),
    }
}

/// The path of one post: `/api/rbac/posts/<id>`.
pub fn post_path(id: &str) -> (path: String)
    ensures
        path@ == "/api/rbac/posts/"@ + id@,
{
    let mut path = "/api/rbac/posts/".to_owned();
    path.append(id);
    path
}

/// The path that the post editor saves to.
pub fn post_save_path(id: &Option<String>) -> (path: String)
    ensures
        match id {
            Some(i) => path@ == "/api/rbac/posts/"@ + i@,
            None => path@ == "/api/rbac/posts"@,
        },
{
    match id {
        Some(i) => post_path(i.as_str()),
        None => "/api/rbac/posts".to_owned(),
    }
}

/// The title of the department editor.
pub fn department_editor_title(editing: bool) -> (title: &'static str)
    ensures
        title@ == (if editing {
            "编辑部门"@
        } else {
            "新建部门"@
        }),
{
    if editing {
        "编辑部门"
    } else {
        "新建部门"
    }
}

/// The title of the post editor.
pub fn post_editor_title(editing: bool) -> (title: &'static str)
    ensures
        title@ == (if editing {
            "编辑岗位"@
        } else {
            "新建岗位"@
        }),
{
    if editing {
        "编辑岗位"
    } else {
        "新建岗位"
    }
}

/// The hierarchy of the loaded departments: each one's id and parent id.
pub open spec fn department_hierarchy(departments: Seq<OrganizationItem>) -> Hierarchy {
    departments.map_values(|d: OrganizationItem| (d.id@, optional_text(d.parent_id)))
}

/// The parent links (id, parent id) of the loaded departments, in order.
pub fn department_links(departments: &Vec<OrganizationItem>) -> (links: Vec<(String, Option<String>)>)
    ensures
        hierarchy(links@) == department_hierarchy(departments@),
{
    let mut links: Vec<(String, Option<String>)> = Vec::new();
    let n = departments.len();
    let mut i: usize = 0;
    while i < n
        invariant
            n == departments@.len(),
            i <= n,
            links@.len() == i,
            forall|k: int|
                0 <= k < i ==> (#[trigger] links@[k]).0@ == departments@[k].id@ && optional_text(
                    links@[k].1,
                ) == optional_text(departments@[k].parent_id),
        decreases n - i,
    {
        let d = &departments[i];
        let parent = match &d.parent_id {
            Some(p) => Some(p.clone()),
            None => None,
        };
        links.push((d.id.clone(), parent));
        i = i + 1;
    }
    assert(hierarchy(links@) =~= department_hierarchy(departments@));
    links
}

/// Whether the department editor offers `item` as a parent of the
/// department `current` (`None` for a new one): every department but
/// itself and those below it, so that no choice closes a cycle.
pub open spec fn offered_as_parent(item: OrganizationItem, current: Option<String>, h: Hierarchy) -> bool {
    match current {
        Some(c) => !is_ancestor_or_self(h, c@, item.id@),
        None => true,
    }
}

/// The positions in `departments`, in order, of the departments that the
/// department editor offers as parents.
pub fn parent_choices(departments: &Vec<OrganizationItem>, current: &Option<String>) -> (res: Vec<
    usize,
>)
    ensures
        forall|k: int, l: int| 0 <= k < l < res@.len() ==> res@[k] < res@[l],
        forall|k: int|
            0 <= k < res@.len() ==> #[trigger] res@[k] < departments@.len() && offered_as_parent(
                departments@[res@[k] as int],
                *current,
                department_hierarchy(departments@),
            ),
        forall|i: int|
            0 <= i < departments@.len() && offered_as_parent(
                #[trigger] departments@[i],
                *current,
                department_hierarchy(departments@),
            ) ==> res@.contains(i as usize),
        current is None ==> forall|i: int| 0 <= i < departments@.len() ==> #[trigger] res@.contains(
            i as usize,
        ),
        current is Some ==> forall|i: int|
            0 <= i < departments@.len() && !is_ancestor_or_self(
                department_hierarchy(departments@),
                current->0@,
                #[trigger] departments@[i].id@,
            ) ==> res@.contains(i as usize),
        current is Some ==> forall|k: int|
            0 <= k < res@.len() ==> !is_ancestor_or_self(
                department_hierarchy(departments@),
                current->0@,
                departments@[#[trigger] res@[k] as int].id@,
            ),
{
    let links = department_links(departments);
    let ghost h = department_hierarchy(departments@);
    let mut res: Vec<usize> = Vec::new();
    let n = departments.len();
    let mut i: usize = 0;
    while i < n
        invariant
            n == departments@.len(),
            h == department_hierarchy(departments@),
            hierarchy(links@) == h,
            i <= n,
            forall|k: int, l: int| 0 <= k < l < res@.len() ==> res@[k] < res@[l],
            forall|k: int| 0 <= k < res@.len() ==> #[trigger] res@[k] < i,
            forall|k: int|
                0 <= k < res@.len() ==> offered_as_parent(
                    departments@[#[trigger] res@[k] as int],
                    *current,
                    h,
                ),
            forall|j: int|
                0 <= j < i && offered_as_parent(#[trigger] departments@[j], *current, h)
                    ==> res@.contains(j as usize),
        decreases n - i,
    {
        let offered = match current {
            Some(c) => !closes_cycle(&links, c.as_str(), departments[i].id.as_str()),
            None => true,
        };
        let ghost before = res@;
        if offered {
            res.push(i);
            assert(res@[res@.len() - 1] == i);
        }
        assert(forall|k: int| 0 <= k < before.len() ==> res@[k] == before[k]);
        assert forall|j: int|
            0 <= j < i + 1 && offered_as_parent(#[trigger] departments@[j], *current, h) implies res@.contains(
            j as usize,
        ) by {
            if j < i {
                assert(before.contains(j as usize));
                let k = choose|k: int| 0 <= k < before.len() && before[k] == j as usize;
                assert(res@[k] == j as usize);
            } else {
                assert(res@[res@.len() - 1] == i);
            }
        }
        i = i + 1;
    }
    assert forall|i: int| 0 <= i < departments@.len() && current is None implies #[trigger] res@.contains(
        i as usize,
    ) by {
        assert(offered_as_parent(departments@[i], *current, h));
    }
    res
}

/// The name of the department with id `id` in `departments`; where several
/// have that id, the last one counts.
pub open spec fn department_name(departments: Seq<OrganizationItem>, id: Seq<char>) -> Option<
    Seq<char>,
>
    decreases departments.len(),
{
    if departments.len() == 0 {
        None
    } else if departments.last().id@ == id {
        Some(departments.last().name@)
    } else {
        department_name(departments.drop_last(), id)
    }
}

/// `department_name` finds the last department with the id, and finds
/// none exactly when no department has it.
pub proof fn lemma_department_name(departments: Seq<OrganizationItem>, id: Seq<char>)
    ensures
        match department_name(departments, id) {
            Some(name) => exists|k: int|
                0 <= k < departments.len() && #[trigger] departments[k].id@ == id
                    && departments[k].name@ == name && forall|m: int|
                    k < m < departments.len() ==> #[trigger] departments[m].id@ != id,
            None => forall|k: int| 0 <= k < departments.len() ==> #[trigger] departments[k].id@ != id,
        },
    decreases departments.len(),
{
    if departments.len() > 0 {
        let last = departments.len() - 1;
        let rest = departments.drop_last();
        assert(departments[last] == departments.last());
        if departments.last().id@ != id {
            lemma_department_name(rest, id);
            match department_name(rest, id) {
                Some(name) => {
                    let k = choose|k: int|
                        0 <= k < rest.len() && #[trigger] rest[k].id@ == id && rest[k].name@ == name
                            && forall|m: int| k < m < rest.len() ==> #[trigger] rest[m].id@ != id;
                    assert(departments[k] == rest[k]);
                    assert forall|m: int| k < m < departments.len() implies #[trigger] departments[m].id@
                        != id by {
                        if m < last {
                            assert(departments[m] == rest[m]);
                        }
                    }
                },
                None => {
                    assert forall|k: int| 0 <= k < departments.len() implies #[trigger] departments[k].id@
                        != id by {
                        if k < last {
                            assert(departments[k] == rest[k]);
                        }
                    }
                },
            }
        }
    }
}

/// The label of the top level, shown for a department without a (known)
/// parent.
pub open spec fn top_level_label() -> Seq<char> {
    "顶级部门"@
}

/// The parent shown for `item` in the department table: the name of its
/// parent department, or the top level.
pub open spec fn parent_label_of(item: OrganizationItem, departments: Seq<OrganizationItem>) -> Seq<
    char,
> {
    match item.parent_id {
        Some(p) => match department_name(departments, p@) {
            Some(name) => name,
            None => top_level_label(),
        },
        None => top_level_label(),
    }
}

/// The parent shown for `item` in the department table.
pub fn parent_label(item: &OrganizationItem, departments: &Vec<OrganizationItem>) -> (label: String)
    ensures
        label@ == parent_label_of(*item, departments@),
        item.parent_id is None ==> label@ == "顶级部门"@,
        item.parent_id is Some && (forall|k: int|
            0 <= k < departments@.len() ==> #[trigger] departments@[k].id@ != item.parent_id->0@)
            ==> label@ == "顶级部门"@,
        item.parent_id is Some && (exists|k: int|
            0 <= k < departments@.len() && #[trigger] departments@[k].id@ == item.parent_id->0@)
            ==> exists|k: int|
            0 <= k < departments@.len() && #[trigger] departments@[k].id@ == item.parent_id->0@
                && label@ == departments@[k].name@ && forall|m: int|
                k < m < departments@.len() ==> #[trigger] departments@[m].id@ != item.parent_id->0@,
{
    proof {
        if item.parent_id is Some {
            lemma_department_name(departments@, item.parent_id->0@);
        }
    }
    match &item.parent_id {
        None => "顶级部门".to_owned(),
        Some(p) => {
            let mut j = departments.len();
            assert(departments@.take(j as int) =~= departments@);
            while j > 0
                invariant
                    item.parent_id == Some(*p),
                    j <= departments@.len(),
                    department_name(departments@.take(j as int), p@) == department_name(
                        departments@,
                        p@,
                    ),
                decreases j,
            {
                assert(departments@.take(j as int).last() == departments@[j - 1]);
                if same_text(departments[j - 1].id.as_str(), p.as_str()) {
                    assert(department_name(departments@.take(j as int), p@) == Some(
                        departments@[j - 1].name@,
                    ));
                    let name = departments[j - 1].name.clone();
                    assert(name@ == departments@[j - 1].name@);
                    assert(department_name(departments@, p@) == Some(name@));
                    proof {
                        lemma_department_name(departments@, p@);
                    }
                    return name;
                }
                assert(departments@.take(j as int).drop_last() =~= departments@.take(j - 1));
                j = j - 1;
            }
            assert(departments@.take(0).len() == 0);
            "顶级部门".to_owned()
        },
    }
}

/// The text of an optional id, empty when there is none.
pub open spec fn text_or_empty(value: Option<String>) -> Seq<char> {
    match value {
        Some(v) => v@,
        None => Seq::empty(),
    }
}

/// The text that the department table searches: name, leader, phone, email
/// and parent id, separated by single spaces.
pub fn department_search_text(item: &OrganizationItem) -> (text: String)
    ensures
        text@ == item.name@ + " "@ + item.leader@ + " "@ + item.phone@ + " "@ + item.email@ + " "@
            + text_or_empty(item.parent_id),
{
    let mut text = item.name.clone();
    text.append(" ");
    text.append(item.leader.as_str());
    text.append(" ");
    text.append(item.phone.as_str());
    text.append(" ");
    text.append(item.email.as_str());
    text.append(" ");
    match &item.parent_id {
        Some(p) => text.append(p.as_str()),
        None => {
            assert(text@ + Seq::<char>::empty() =~= text@);
        },
    }
    text
}

/// The text that the post table searches: code, name and remark, separated
/// by single spaces.
pub fn post_search_text(item: &OrganizationItem) -> (text: String)
    ensures
        text@ == item.code@ + " "@ + item.name@ + " "@ + item.remark@,
{
    let mut text = item.code.clone();
    text.append(" ");
    text.append(item.name.as_str());
    text.append(" ");
    text.append(item.remark.as_str());
    text
}

/// The value by which a table column sorts its rows.
#[derive(Debug, PartialEq, Eq)]
pub enum SortKey {
    Number(i128),
    Text(String),
}

/// The sort value of `item` in the column `key`: the sort order in the
/// `sort` column, the name in every other one.
pub fn sort_value(item: &OrganizationItem, key: &str) -> (value: SortKey)
    ensures
        key@ == "sort"@ ==> value == SortKey::Number(item.sort_order as i128),
        key@ != "sort"@ ==> (value matches SortKey::Text(name) && name == item.name),
{
    if same_text(key, "sort") {
        SortKey::Number(item.sort_order as i128)
    } else {
        SortKey::Text(item.name.clone())
    }
}

/// The leader shown in the department table: the leader, or a note that
/// none is set.
pub fn leader_text(item: &OrganizationItem) -> (text: String)
    ensures
        text@ == (if item.leader@.len() == 0 {
            "未设置"@
        } else {
            item.leader@
        }),
{
    if item.leader.as_str().is_empty() {
        "未设置".to_owned()
    } else {
        item.leader.clone()
    }
}

/// The contact shown in the department table: phone and email.
pub fn contact_text(item: &OrganizationItem) -> (text: String)
    ensures
        text@ == item.phone@ + " "@ + item.email@,
{
    let mut text = item.phone.clone();
    text.append(" ");
    text.append(item.email.as_str());
    text
}

/// The remark shown in the post table: the remark, or a dash when empty.
pub fn remark_text(item: &OrganizationItem) -> (text: String)
    ensures
        text@ == (if item.remark@.len() == 0 {
            "—"@
        } else {
            item.remark@
        }),
{
    if item.remark.as_str().is_empty() {
        "—".to_owned()
    } else {
        item.remark.clone()
    }
}

/// The editors never send a status that the service refuses: `active` is
/// valid and has no whitespace to trim.
pub proof fn lemma_editor_status_is_valid()
    ensures
        valid_status(editor_status()),
        trimmed(editor_status()) == editor_status(),
{
    let s = editor_status();
    reveal_strlit("active");
    lemma_leading_spaces(s, 0);
    lemma_trailing_spaces(s, 0);
    assert(s.skip(0) =~= s);
    assert(s.take(s.len() as int) =~= s);
}

/// A department request from the department editor is never refused for
/// its status.
pub proof fn lemma_department_editor_status_passes(request: SaveDepartmentRequest, id: Seq<char>)
    requires
        request.status@ == editor_status(),
    ensures
        department_error(request, id) != Some(OrganizationError::InvalidStatus),
{
    lemma_editor_status_is_valid();
}

/// A parent that the department editor offers is neither the edited
/// department nor below it: saving it is not refused as its own parent, and
/// keeps a hierarchy without cycles free of cycles.
pub proof fn lemma_offered_parent_keeps_acyclic(
    departments: Seq<OrganizationItem>,
    offered: OrganizationItem,
    current: String,
    request: SaveDepartmentRequest,
)
    requires
        offered_as_parent(offered, Some(current), department_hierarchy(departments)),
        request.parent_id matches Some(p) && p@ == offered.id@,
    ensures
        department_error(request, current@) != Some(OrganizationError::SelfParent),
        !is_ancestor_or_self(department_hierarchy(departments), current@, offered.id@),
        acyclic(department_hierarchy(departments)) ==> acyclic(
            with_parent(department_hierarchy(departments), current@, Some(offered.id@)),
        ),
{
    let h = department_hierarchy(departments);
    assert(above(h, offered.id@, 0) == Some(offered.id@));
    if acyclic(h) {
        lemma_save_keeps_acyclic(h, current@, Some(offered.id@));
    }
}

/// A post request from the post editor is never refused for its status.
pub proof fn lemma_post_editor_status_passes(request: SavePostRequest)
    requires
        request.status@ == editor_status(),
    ensures
        post_error(request) != Some(OrganizationError::InvalidStatus),
{
    lemma_editor_status_is_valid();
}

} // verus!
