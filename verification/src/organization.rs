//! The rules of the organization service: which department and post writes
//! are accepted, what is written for them, and the checks made around the
//! database queries (parent existence, child departments, deleted rows).
use vstd::prelude::*;
use vstd::string::*;

use crate::model::{OrganizationError, OrganizationItem, SaveDepartmentRequest, SavePostRequest};
use crate::hierarchy::{
    Hierarchy, acyclic, closes_cycle, find_link, has_department, hierarchy, is_ancestor_or_self,
    lemma_find_link, lemma_find_link_found, lemma_save_again, lemma_save_keeps_acyclic,
    optional_text, with_parent,
};
use crate::text::{lemma_trimmed_idempotent, same_text, trim, trimmed};

verus! {

/// A status that a department or post may have.
pub open spec fn valid_status(status: Seq<char>) -> bool {
    status == "active"@ || status == "disabled"@
}

/// A (trimmed) department or post name: 1 to 120 characters.
pub open spec fn valid_name(name: Seq<char>) -> bool {
    0 < name.len() <= 120
}

/// A character allowed in a post code: an ASCII letter or digit, `-` or `_`.
pub open spec fn is_code_char(c: char) -> bool {
    ||| ('a' <= c && c <= 'z')
    ||| ('A' <= c && c <= 'Z')
    ||| ('0' <= c && c <= '9')
    ||| c == '-'
    ||| c == '_'
}

/// A (trimmed) post code: 1 to 64 code characters.
pub open spec fn valid_post_code(code: Seq<char>) -> bool {
    &&& 0 < code.len() <= 64
    &&& forall|i: int| 0 <= i < code.len() ==> is_code_char(#[trigger] code[i])
}

/// The parent kept by a department write: a parent id whose trimmed text is
/// empty counts as no parent; a kept id is written as given.
pub open spec fn kept_parent(parent_id: Option<String>) -> Option<String> {
    match parent_id {
        Some(p) => if trimmed(p@).len() > 0 {
            Some(p)
        } else {
            None
        },
        None => None,
    }
}

/// The first check that a department write under `id` fails, if any.
pub open spec fn department_error(request: SaveDepartmentRequest, id: Seq<char>) -> Option<
    OrganizationError,
> {
    if !valid_name(trimmed(request.name@)) {
        Some(OrganizationError::DepartmentName)
    } else if !valid_status(trimmed(request.status@)) {
        Some(OrganizationError::InvalidStatus)
    } else {
        match kept_parent(request.parent_id) {
            Some(p) => if p@ == id {
                Some(OrganizationError::SelfParent)
            } else {
                None
            },
            None => None,
        }
    }
}

/// The values written to the database for a department.
#[derive(Debug)]
pub struct DepartmentRecord {
    pub id: String,
    pub parent_id: Option<String>,
    pub name: String,
    pub leader: String,
    pub phone: String,
    pub email: String,
    pub sort_order: i32,
    pub status: String,
}

/// The values written to the database for a post.
#[derive(Debug)]
pub struct PostRecord {
    pub id: String,
    pub code: String,
    pub name: String,
    pub sort_order: i32,
    pub status: String,
    pub remark: String,
}

/// `record` is what a department write of `request` under `id` writes:
/// the id, the kept parent, the other text fields trimmed.
pub open spec fn department_written(
    request: SaveDepartmentRequest,
    id: Seq<char>,
    record: DepartmentRecord,
) -> bool {
    &&& record.id@ == id
    &&& record.parent_id == kept_parent(request.parent_id)
    &&& record.name@ == trimmed(request.name@)
    &&& record.leader@ == trimmed(request.leader@)
    &&& record.phone@ == trimmed(request.phone@)
    &&& record.email@ == trimmed(request.email@)
    &&& record.sort_order == request.sort_order
    &&& record.status@ == trimmed(request.status@)
}

/// The first check that a post write fails, if any.
pub open spec fn post_error(request: SavePostRequest) -> Option<OrganizationError> {
    if !valid_name(trimmed(request.name@)) {
        Some(OrganizationError::PostName)
    } else if !valid_post_code(trimmed(request.code@)) {
        Some(OrganizationError::PostCode)
    } else if !valid_status(trimmed(request.status@)) {
        Some(OrganizationError::InvalidStatus)
    } else {
        None
    }
}

/// `record` is what a post write of `request` under `id` writes.
pub open spec fn post_written(request: SavePostRequest, id: Seq<char>, record: PostRecord) -> bool {
    &&& record.id@ == id
    &&& record.code@ == trimmed(request.code@)
    &&& record.name@ == trimmed(request.name@)
    &&& record.sort_order == request.sort_order
    &&& record.status@ == trimmed(request.status@)
    &&& record.remark@ == trimmed(request.remark@)
}

/// A lower-case hexadecimal digit.
pub open spec fn is_lower_hex(c: char) -> bool {
    ('0' <= c && c <= '9') || ('a' <= c && c <= 'f')
}

/// The simple (unhyphenated, lower-case) text of a random version-4 UUID.
pub open spec fn is_simple_uuid_v4(h: Seq<char>) -> bool {
    &&& h.len() == 32
    &&& forall|i: int| 0 <= i < 32 ==> is_lower_hex(#[trigger] h[i])
    &&& h[12] == '4'
    &&& (h[16] == '8' || h[16] == '9' || h[16] == 'a' || h[16] == 'b')
}

/// `id` is a fresh id: `prefix` followed by the simple text of a random UUID.
pub open spec fn is_fresh_id(prefix: Seq<char>, id: Seq<char>) -> bool {
    &&& id.len() == prefix.len() + 32
    &&& id.take(prefix.len() as int) == prefix
    &&& is_simple_uuid_v4(id.skip(prefix.len() as int))
}

/// `id` is the id a write uses: the requested one, or else a fresh one.
pub open spec fn resolved_id(requested: Option<String>, prefix: Seq<char>, id: Seq<char>) -> bool {
    match requested {
        Some(i) => id == i@,
        None => is_fresh_id(prefix, id),
    }
}

/// Every request has an id that a write of it may use.
proof fn lemma_resolved_id_exists(requested: Option<String>, prefix: Seq<char>)
    ensures
        exists|id: Seq<char>| resolved_id(requested, prefix, id),
{
    match requested {
        Some(i) => {
            assert(resolved_id(requested, prefix, i@));
        },
        None => {
            let h = Seq::new(
                32,
                |i: int|
                    if i == 12 {
                        '4'
                    } else if i == 16 {
                        '8'
                    } else {
                        '0'
                    },
            );
            let id = prefix + h;
            assert(id.take(prefix.len() as int) =~= prefix);
            assert(id.skip(prefix.len() as int) =~= h);
            assert(resolved_id(requested, prefix, id));
        },
    }
}

/// The prefix of fresh department ids.
pub open spec fn department_prefix() -> Seq<char> {
    "dept-"@
}

/// The prefix of fresh post ids.
pub open spec fn post_prefix() -> Seq<char> {
    "post-"@
}

/// Calls `uuid::Uuid::new_v4()` and renders it with `Uuid::simple()`
/// through `Display`. Claimed: 32 lower-case hexadecimal digits, with the
/// version digit `4` and a variant digit of `8`, `9`, `a` or `b` (as the
/// version and variant bits of `new_v4` and the lower-case `Simple`
/// formatter make them). The digits are random; `new_v4` panics when the
/// operating system gives no random bytes, which no argument can prevent.
#[verifier::external_body]
fn random_simple_uuid() -> (res: String)
    ensures
        is_simple_uuid_v4(res@),
{
    uuid::Uuid::new_v4().simple().to_string()
}

/// A fresh id: `prefix` followed by the simple text of a random UUID.
pub fn fresh_id(prefix: &str) -> (res: String)
    ensures
        is_fresh_id(prefix@, res@),
{
    let mut id = prefix.to_owned();
    let uuid = random_simple_uuid();
    id.append(uuid.as_str());
    assert(id@.take(prefix@.len() as int) =~= prefix@);
    assert(id@.skip(prefix@.len() as int) =~= uuid@);
    id
}

/// Accepts a status (already trimmed) that is `active` or `disabled`.
pub fn validate_status(status: &str) -> (res: Result<(), OrganizationError>)
    ensures
        res is Ok <==> valid_status(status@),
        res is Err ==> res == Err::<(), _>(OrganizationError::InvalidStatus),
{
    if same_text(status, "active") || same_text(status, "disabled") {
        Ok(())
    } else {
        Err(OrganizationError::InvalidStatus)
    }
}

/// Whether a trimmed name is 1 to 120 characters long.
fn check_name(name: &str) -> (res: bool)
    ensures
        res == valid_name(name@),
{
    let n = name.unicode_len();
    n > 0 && n <= 120
}

/// Whether `c` may stand in a post code.
fn is_code_char_exec(c: char) -> (res: bool)
    ensures
        res == is_code_char(c),
{
    ('a' <= c && c <= 'z') || ('A' <= c && c <= 'Z') || ('0' <= c && c <= '9') || c == '-' || c
        == '_'
}

/// Whether a trimmed post code is 1 to 64 letters, digits, `-` or `_`.
fn check_post_code(code: &str) -> (res: bool)
    ensures
        res == valid_post_code(code@),
{
    let n = code.unicode_len();
    if n == 0 || n > 64 {
        return false;
    }
    let mut i: usize = 0;
    while i < n
        invariant
            n == code@.len(),
            i <= n,
            forall|k: int| 0 <= k < i ==> is_code_char(#[trigger] code@[k]),
        decreases n - i,
    {
        if !is_code_char_exec(code.get_char(i)) {
            return false;
        }
        i = i + 1;
    }
    true
}

/// The parent a department write keeps: `None` when the given id is blank.
fn keep_parent(parent_id: Option<String>) -> (res: Option<String>)
    ensures
        res == kept_parent(parent_id),
{
    match parent_id {
        Some(p) => {
            if trim(p.as_str()).unicode_len() > 0 {
                Some(p)
            } else {
                None
            }
        },
        None => None,
    }
}

/// The department write of `request` under the id `id` (the requested id,
/// or a fresh one when none was requested; `request.id` is not read here):
/// the record to write, or the first check that fails.
pub fn department_record(request: SaveDepartmentRequest, id: String) -> (res: Result<
    DepartmentRecord,
    OrganizationError,
>)
    ensures
        match res {
            Ok(record) => department_error(request, id@) is None && department_written(
                request,
                id@,
                record,
            ),
            Err(e) => department_error(request, id@) == Some(e),
        },
{
    let name = trim(request.name.as_str());
    if !check_name(name) {
        return Err(OrganizationError::DepartmentName);
    }
    let status = trim(request.status.as_str());
    if validate_status(status).is_err() {
        return Err(OrganizationError::InvalidStatus);
    }
    let name = name.to_owned();
    let status = status.to_owned();
    let leader = trim(request.leader.as_str()).to_owned();
    let phone = trim(request.phone.as_str()).to_owned();
    let email = trim(request.email.as_str()).to_owned();
    let parent_id = keep_parent(request.parent_id);
    if let Some(parent) = &parent_id {
        if same_text(parent.as_str(), id.as_str()) {
            return Err(OrganizationError::SelfParent);
        }
    }
    Ok(
        DepartmentRecord {
            id,
            parent_id,
            name,
            leader,
            phone,
            email,
            sort_order: request.sort_order,
            status,
        },
    )
}

/// Checks a department save request and gives the record to write. A
/// request without an id gets a fresh `dept-` id, made only once the name
/// and status have passed.
pub fn prepare_department(request: SaveDepartmentRequest) -> (res: Result<
    DepartmentRecord,
    OrganizationError,
>)
    ensures
        match res {
            Ok(record) => {
                &&& resolved_id(request.id, department_prefix(), record.id@)
                &&& department_error(request, record.id@) is None
                &&& department_written(request, record.id@, record)
            },
            Err(e) => exists|id: Seq<char>|
                resolved_id(request.id, department_prefix(), id) && department_error(request, id)
                    == Some(e),
        },
        request.id is Some ==> (res is Ok <==> department_error(request, request.id->0@) is None),
        request.id is None && 0 < trimmed(request.name@).len() <= 120 && (trimmed(request.status@)
            == "active"@ || trimmed(request.status@) == "disabled"@) ==> res is Ok,
        request.id is None ==> res != Err::<DepartmentRecord, _>(OrganizationError::SelfParent),
        res matches Ok(record) ==> (record.parent_id matches Some(p) ==> p@ != record.id@),
{
    proof {
        lemma_resolved_id_exists(request.id, department_prefix());
    }
    let ghost some_id = choose|id: Seq<char>| resolved_id(request.id, department_prefix(), id);
    if !check_name(trim(request.name.as_str())) {
        assert(department_error(request, some_id) == Some(OrganizationError::DepartmentName));
        return Err(OrganizationError::DepartmentName);
    }
    if validate_status(trim(request.status.as_str())).is_err() {
        assert(department_error(request, some_id) == Some(OrganizationError::InvalidStatus));
        return Err(OrganizationError::InvalidStatus);
    }
    let id = match &request.id {
        Some(id) => id.clone(),
        None => fresh_department_id(&request.parent_id),
    };
    let ghost chosen = id@;
    assert(resolved_id(request.id, department_prefix(), chosen));
    department_record(request, id)
}

/// A fresh `dept-` id for a new department, other than `parent`: in the
/// unlikely case that the random id equals the parent id, its last digit
/// is changed, so that a new department never takes its parent's id.
fn fresh_department_id(parent: &Option<String>) -> (id: String)
    ensures
        is_fresh_id(department_prefix(), id@),
        parent matches Some(p) ==> id@ != p@,
{
    let id = fresh_id("dept-");
    match parent {
        Some(p) => {
            if same_text(id.as_str(), p.as_str()) {
                other_last_digit(id)
            } else {
                id
            }
        },
        None => id,
    }
}

/// A fresh `dept-` id that differs from `id` in its last digit.
fn other_last_digit(id: String) -> (res: String)
    requires
        is_fresh_id(department_prefix(), id@),
    ensures
        is_fresh_id(department_prefix(), res@),
        res@ != id@,
{
    proof {
        reveal_strlit("dept-");
        reveal_strlit("0");
        reveal_strlit("1");
    }
    let n = id.as_str().unicode_len();
    let last = id.as_str().get_char(n - 1);
    let mut res = id.as_str().substring_char(0, n - 1).to_owned();
    if last == '0' {
        res.append("1");
    } else {
        res.append("0");
    }
    proof {
        let pre = department_prefix();
        assert(pre.len() == 5);
        assert(res@.len() == n);
        assert(res@[n - 1] != last);
        assert(id@[n - 1] == last);
        assert forall|i: int| 0 <= i < n - 1 implies res@[i] == id@[i] by {}
        assert(res@.take(5) =~= id@.take(5));
        let h = res@.skip(5);
        let g = id@.skip(5);
        assert forall|i: int| 0 <= i < 32 implies is_lower_hex(#[trigger] h[i]) by {
            if i < 31 {
                assert(h[i] == g[i]);
            } else {
                assert(h[i] == res@[n - 1]);
            }
        }
        assert(h[12] == g[12]);
        assert(h[16] == g[16]);
    }
    res
}

/// The post write of `request` under the id `id` (the requested id, or a
/// fresh one when none was requested; `request.id` is not read here).
pub fn post_record(request: SavePostRequest, id: String) -> (res: Result<
    PostRecord,
    OrganizationError,
>)
    ensures
        match res {
            Ok(record) => post_error(request) is None && post_written(request, id@, record),
            Err(e) => post_error(request) == Some(e),
        },
{
    let name = trim(request.name.as_str());
    if !check_name(name) {
        return Err(OrganizationError::PostName);
    }
    let code = trim(request.code.as_str());
    if !check_post_code(code) {
        return Err(OrganizationError::PostCode);
    }
    let status = trim(request.status.as_str());
    if validate_status(status).is_err() {
        return Err(OrganizationError::InvalidStatus);
    }
    Ok(
        PostRecord {
            id,
            code: code.to_owned(),
            name: name.to_owned(),
            sort_order: request.sort_order,
            status: status.to_owned(),
            remark: trim(request.remark.as_str()).to_owned(),
        },
    )
}

/// Checks a post save request and gives the record to write. A request
/// without an id gets a fresh `post-` id, made only once the checks pass.
pub fn prepare_post(request: SavePostRequest) -> (res: Result<PostRecord, OrganizationError>)
    ensures
        match res {
            Ok(record) => {
                &&& resolved_id(request.id, post_prefix(), record.id@)
                &&& post_error(request) is None
                &&& post_written(request, record.id@, record)
            },
            Err(e) => post_error(request) == Some(e),
        },
{
    if let Some(e) = post_error_exec(&request) {
        return Err(e);
    }
    let id = match &request.id {
        Some(id) => id.clone(),
        None => fresh_id("post-"),
    };
    post_record(request, id)
}

/// The first check that a post write fails, if any.
fn post_error_exec(request: &SavePostRequest) -> (res: Option<OrganizationError>)
    ensures
        res == post_error(*request),
{
    if !check_name(trim(request.name.as_str())) {
        Some(OrganizationError::PostName)
    } else if !check_post_code(trim(request.code.as_str())) {
        Some(OrganizationError::PostCode)
    } else if validate_status(trim(request.status.as_str())).is_err() {
        Some(OrganizationError::InvalidStatus)
    } else {
        None
    }
}

/// The checks on the parent of a department record, made against the
/// tenant's departments: the parent must exist (`parent_exists`, as the
/// database answers) and must not be the department or lie below it in the
/// hierarchy that the tenant's parent `links` describe. A record without a
/// parent passes.
pub fn check_parent(
    record: &DepartmentRecord,
    parent_exists: bool,
    links: &Vec<(String, Option<String>)>,
) -> (res: Result<(), OrganizationError>)
    ensures
        match record.parent_id {
            None => res is Ok,
            Some(p) => if !parent_exists {
                res == Err::<(), _>(OrganizationError::ParentNotFound)
            } else if is_ancestor_or_self(hierarchy(links@), record.id@, p@) {
                res == Err::<(), _>(OrganizationError::ParentCycle)
            } else {
                res is Ok
            },
        },
        res is Ok && acyclic(hierarchy(links@)) ==> acyclic(
            with_parent(hierarchy(links@), record.id@, optional_text(record.parent_id)),
        ),
{
    match &record.parent_id {
        None => {
            proof {
                if acyclic(hierarchy(links@)) {
                    lemma_save_keeps_acyclic(hierarchy(links@), record.id@, None);
                }
            }
            Ok(())
        },
        Some(p) => {
            if !parent_exists {
                Err(OrganizationError::ParentNotFound)
            } else if closes_cycle(links, record.id.as_str(), p.as_str()) {
                Err(OrganizationError::ParentCycle)
            } else {
                proof {
                    if acyclic(hierarchy(links@)) {
                        lemma_save_keeps_acyclic(hierarchy(links@), record.id@, Some(p@));
                    }
                }
                Ok(())
            }
        },
    }
}

/// A department may be deleted only once it has no child departments.
pub fn require_no_children(has_children: bool) -> (res: Result<(), OrganizationError>)
    ensures
        res is Ok <==> !has_children,
        res is Err ==> res == Err::<(), _>(OrganizationError::HasChildren),
{
    if has_children {
        Err(OrganizationError::HasChildren)
    } else {
        Ok(())
    }
}

/// A department delete succeeded only if it removed exactly one row.
pub fn require_department_deleted(rows_affected: u64) -> (res: Result<(), OrganizationError>)
    ensures
        res is Ok <==> rows_affected == 1,
        res is Err ==> res == Err::<(), _>(OrganizationError::DepartmentNotFound),
{
    if rows_affected == 1 {
        Ok(())
    } else {
        Err(OrganizationError::DepartmentNotFound)
    }
}

/// A post delete succeeded only if it removed exactly one row.
pub fn require_post_deleted(rows_affected: u64) -> (res: Result<(), OrganizationError>)
    ensures
        res is Ok <==> rows_affected == 1,
        res is Err ==> res == Err::<(), _>(OrganizationError::PostNotFound),
{
    if rows_affected == 1 {
        Ok(())
    } else {
        Err(OrganizationError::PostNotFound)
    }
}

/// A department as listed: it has no code and no remark.
pub fn department(
    id: String,
    name: String,
    parent_id: Option<String>,
    leader: String,
    phone: String,
    email: String,
    sort_order: i32,
    status: String,
) -> (item: OrganizationItem)
    ensures
        item.id == id,
        item.code@ == Seq::<char>::empty(),
        item.name == name,
        item.parent_id == parent_id,
        item.leader == leader,
        item.phone == phone,
        item.email == email,
        item.sort_order == sort_order,
        item.status == status,
        item.remark@ == Seq::<char>::empty(),
{
    OrganizationItem {
        id,
        code: String::new(),
        name,
        parent_id,
        leader,
        phone,
        email,
        sort_order,
        status,
        remark: String::new(),
    }
}

/// A post as listed: it has no parent, leader, phone or email.
pub fn post(
    id: String,
    code: String,
    name: String,
    sort_order: i32,
    status: String,
    remark: String,
) -> (item: OrganizationItem)
    ensures
        item.id == id,
        item.code == code,
        item.name == name,
        item.parent_id is None,
        item.leader@ == Seq::<char>::empty(),
        item.phone@ == Seq::<char>::empty(),
        item.email@ == Seq::<char>::empty(),
        item.sort_order == sort_order,
        item.status == status,
        item.remark == remark,
{
    OrganizationItem {
        id,
        code,
        name,
        parent_id: None,
        leader: String::new(),
        phone: String::new(),
        email: String::new(),
        sort_order,
        status,
        remark,
    }
}

/// A department write that passes its checks writes a clean record: a
/// name of 1 to 120 characters, a valid status, text without surrounding
/// whitespace, and a parent that is neither blank nor the department itself.
pub proof fn lemma_department_write_is_clean(
    request: SaveDepartmentRequest,
    id: Seq<char>,
    record: DepartmentRecord,
)
    requires
        department_error(request, id) is None,
        department_written(request, id, record),
    ensures
        valid_name(record.name@),
        valid_status(record.status@),
        trimmed(record.name@) == record.name@,
        trimmed(record.leader@) == record.leader@,
        trimmed(record.phone@) == record.phone@,
        trimmed(record.email@) == record.email@,
        trimmed(record.status@) == record.status@,
        record.parent_id matches Some(p) ==> p@ != record.id@ && trimmed(p@).len() > 0,
{
    lemma_trimmed_idempotent(request.name@);
    lemma_trimmed_idempotent(request.leader@);
    lemma_trimmed_idempotent(request.phone@);
    lemma_trimmed_idempotent(request.email@);
    lemma_trimmed_idempotent(request.status@);
}

/// Saving again what a department write wrote (under the same id) passes
/// every check and writes the same values.
pub proof fn lemma_department_resubmit(
    request: SaveDepartmentRequest,
    id: Seq<char>,
    record: DepartmentRecord,
    again: SaveDepartmentRequest,
)
    requires
        department_error(request, id) is None,
        department_written(request, id, record),
        again.parent_id == record.parent_id,
        again.name@ == record.name@,
        again.leader@ == record.leader@,
        again.phone@ == record.phone@,
        again.email@ == record.email@,
        again.sort_order == record.sort_order,
        again.status@ == record.status@,
    ensures
        department_error(again, id) is None,
        department_written(again, id, record),
{
    lemma_department_write_is_clean(request, id, record);
}

/// A post write that passes its checks writes a clean record: a name of 1
/// to 120 characters, a code of 1 to 64 code characters, a valid status,
/// and text without surrounding whitespace.
pub proof fn lemma_post_write_is_clean(request: SavePostRequest, id: Seq<char>, record: PostRecord)
    requires
        post_error(request) is None,
        post_written(request, id, record),
    ensures
        valid_name(record.name@),
        valid_post_code(record.code@),
        valid_status(record.status@),
        trimmed(record.name@) == record.name@,
        trimmed(record.code@) == record.code@,
        trimmed(record.status@) == record.status@,
        trimmed(record.remark@) == record.remark@,
{
    lemma_trimmed_idempotent(request.name@);
    lemma_trimmed_idempotent(request.code@);
    lemma_trimmed_idempotent(request.status@);
    lemma_trimmed_idempotent(request.remark@);
}

/// Saving again what a post write wrote passes every check and writes the
/// same values.
pub proof fn lemma_post_resubmit(
    request: SavePostRequest,
    id: Seq<char>,
    record: PostRecord,
    again: SavePostRequest,
)
    requires
        post_error(request) is None,
        post_written(request, id, record),
        again.code@ == record.code@,
        again.name@ == record.name@,
        again.sort_order == record.sort_order,
        again.status@ == record.status@,
        again.remark@ == record.remark@,
    ensures
        post_error(again) is None,
        post_written(again, id, record),
{
    lemma_post_write_is_clean(request, id, record);
}

/// Within the code characters a post code has as many bytes as characters,
/// so the 64 limit on its characters is the 64 limit on its UTF-8 bytes.
pub proof fn lemma_post_code_bytes(code: Seq<char>)
    requires
        forall|i: int| 0 <= i < code.len() ==> is_code_char(#[trigger] code[i]),
    ensures
        vstd::utf8::encode_utf8(code).len() == code.len(),
{
    assert(vstd::utf8::is_ascii_chars(code));
    vstd::utf8::is_ascii_chars_encode_utf8(code);
}

/// Saving the same department request twice (under the same id) writes
/// the same values both times, and the second save passes the parent
/// checks again: its parent still exists and still does not lie below it,
/// and it changes no link.
pub proof fn lemma_department_save_repeats(
    request: SaveDepartmentRequest,
    id: Seq<char>,
    first: DepartmentRecord,
    second: DepartmentRecord,
    h: Hierarchy,
)
    requires
        department_error(request, id) is None,
        department_written(request, id, first),
        department_written(request, id, second),
        first.parent_id matches Some(p) ==> has_department(h, p@) && !is_ancestor_or_self(h, id, p@),
    ensures
        second.id@ == first.id@,
        second.parent_id == first.parent_id,
        second.name@ == first.name@,
        second.leader@ == first.leader@,
        second.phone@ == first.phone@,
        second.email@ == first.email@,
        second.sort_order == first.sort_order,
        second.status@ == first.status@,
        second.parent_id matches Some(p) ==> has_department(
            with_parent(h, id, optional_text(first.parent_id)),
            p@,
        ) && !is_ancestor_or_self(with_parent(h, id, optional_text(first.parent_id)), id, p@),
        with_parent(
            with_parent(h, id, optional_text(first.parent_id)),
            id,
            optional_text(second.parent_id),
        ) == with_parent(h, id, optional_text(first.parent_id)),
{
    lemma_save_again(h, id, optional_text(first.parent_id));
}

/// The posts of a tenant as (id, code) pairs.
pub type PostCodes = Seq<(Seq<char>, Seq<char>)>;

/// The (id, code) pairs of the given posts.
pub open spec fn post_codes(posts: Seq<(String, String)>) -> PostCodes {
    posts.map_values(|p: (String, String)| (p.0@, p.1@))
}

/// Whether a post other than `id` has the code `code`.
pub open spec fn code_taken(t: PostCodes, id: Seq<char>, code: Seq<char>) -> bool {
    exists|i: int| 0 <= i < t.len() && #[trigger] t[i].0 != id && t[i].1 == code
}

/// No two posts share an id.
pub open spec fn ids_unique(t: PostCodes) -> bool {
    forall|i: int, j: int| 0 <= i < j < t.len() ==> #[trigger] t[i].0 != #[trigger] t[j].0
}

/// No two posts share a code.
pub open spec fn codes_unique(t: PostCodes) -> bool {
    forall|i: int, j: int| 0 <= i < j < t.len() ==> #[trigger] t[i].1 != #[trigger] t[j].1
}

/// The posts after post `id` is saved with code `code`.
pub open spec fn with_code(t: PostCodes, id: Seq<char>, code: Seq<char>) -> PostCodes {
    if find_link(t, id) < t.len() {
        t.update(find_link(t, id) as int, (id, code))
    } else {
        t.push((id, code))
    }
}

/// Saving a post with a code that no other post of the tenant has keeps
/// the tenant's post ids and codes unique.
pub proof fn lemma_post_save_keeps_codes_unique(t: PostCodes, id: Seq<char>, code: Seq<char>)
    requires
        ids_unique(t),
        codes_unique(t),
        !code_taken(t, id, code),
    ensures
        ids_unique(with_code(t, id, code)),
        codes_unique(with_code(t, id, code)),
{
    let g = with_code(t, id, code);
    let j = find_link(t, id);
    lemma_find_link_found(t, id);
    assert forall|a: int, b: int| #![trigger g[a], g[b]] 0 <= a < b < g.len() implies g[a].0 != g[b].0
        && g[a].1 != g[b].1 by {
        if a < t.len() && b < t.len() && a != j && b != j {
            assert(g[a] == t[a] && g[b] == t[b]);
        } else if j < t.len() {
            if a == j {
                assert(g[b] == t[b]);
                assert(t[a].0 == id);
                assert(t[a].0 != t[b].0);
                if t[b].1 == code {
                    assert(t[b].0 != id);
                    assert(code_taken(t, id, code));
                }
            } else {
                assert(g[a] == t[a]);
                assert(t[b].0 == id);
                assert(t[a].0 != t[b].0);
                if t[a].1 == code {
                    assert(code_taken(t, id, code));
                }
            }
        } else {
            assert(b == t.len());
            assert(g[a] == t[a]);
            assert(t[a].0 != id);
            if t[a].1 == code {
                assert(code_taken(t, id, code));
            }
        }
    }
    assert(ids_unique(g));
    assert(codes_unique(g));
}

/// The code check of a post record against the tenant's other posts
/// (their ids and codes): another post with the same code refuses it.
pub fn check_post_code_free(record: &PostRecord, posts: &Vec<(String, String)>) -> (res: Result<
    (),
    OrganizationError,
>)
    ensures
        res is Ok <==> !code_taken(post_codes(posts@), record.id@, record.code@),
        res is Err ==> res == Err::<(), _>(OrganizationError::PostCodeTaken),
        (forall|i: int|
            0 <= i < posts@.len() && #[trigger] posts@[i].0@ != record.id@ ==> posts@[i].1@
                != record.code@) ==> res is Ok,
        res is Err ==> exists|i: int|
            0 <= i < posts@.len() && #[trigger] posts@[i].0@ != record.id@ && posts@[i].1@
                == record.code@,
        res is Ok && ids_unique(post_codes(posts@)) && codes_unique(post_codes(posts@)) ==> ids_unique(
            with_code(post_codes(posts@), record.id@, record.code@),
        ) && codes_unique(with_code(post_codes(posts@), record.id@, record.code@)),
{
    let ghost t = post_codes(posts@);
    let n = posts.len();
    let mut i: usize = 0;
    while i < n
        invariant
            n == posts@.len(),
            t == post_codes(posts@),
            i <= n,
            forall|k: int| 0 <= k < i ==> !(#[trigger] t[k].0 != record.id@ && t[k].1 == record.code@),
        decreases n - i,
    {
        if !same_text(posts[i].0.as_str(), record.id.as_str()) && same_text(
            posts[i].1.as_str(),
            record.code.as_str(),
        ) {
            assert(t[i as int].0 != record.id@ && t[i as int].1 == record.code@);
            return Err(OrganizationError::PostCodeTaken);
        }
        i = i + 1;
    }
    proof {
        if ids_unique(t) && codes_unique(t) {
            lemma_post_save_keeps_codes_unique(t, record.id@, record.code@);
        }
    }
    Ok(())
}

} // verus!
