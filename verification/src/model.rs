//! The values exchanged with the organization service: the items shown in
//! the tables, the save requests sent by the editors, and the errors.
use vstd::prelude::*;

verus! {

/// A department or a post as listed by the service.
#[derive(Debug)]
pub struct OrganizationItem {
    pub id: String,
    pub code: String,
    pub name: String,
    pub parent_id: Option<String>,
    pub leader: String,
    pub phone: String,
    pub email: String,
    pub sort_order: i32,
    pub status: String,
    pub remark: String,
}

/// A request to create (`id` is `None`) or update a department.
#[derive(Debug)]
pub struct SaveDepartmentRequest {
    pub id: Option<String>,
    pub parent_id: Option<String>,
    pub name: String,
    pub leader: String,
    pub phone: String,
    pub email: String,
    pub sort_order: i32,
    pub status: String,
}

/// A request to create (`id` is `None`) or update a post.
#[derive(Debug)]
pub struct SavePostRequest {
    pub id: Option<String>,
    pub code: String,
    pub name: String,
    pub sort_order: i32,
    pub status: String,
    pub remark: String,
}

/// Why the organization service refuses a request.
#[derive(Debug, Clone, Copy, PartialEq, Eq, Structural)]
pub enum OrganizationError {
    /// The trimmed department name is empty or longer than 120 characters.
    DepartmentName,
    /// The trimmed status is neither `active` nor `disabled`.
    InvalidStatus,
    /// The department names itself as its parent.
    SelfParent,
    /// The parent department does not exist in the tenant.
    ParentNotFound,
    /// The parent department is the department itself or lies below it.
    ParentCycle,
    /// The department still has child departments.
    HasChildren,
    /// No department with that id exists in the tenant.
    DepartmentNotFound,
    /// The trimmed post name is empty or longer than 120 characters.
    PostName,
    /// The trimmed post code is not 1 to 64 letters, digits, `-` or `_`.
    PostCode,
    /// No post with that id exists in the tenant.
    PostNotFound,
    /// Another post of the tenant has the same code.
    PostCodeTaken,
}

/// The message that reports an error to the user.
pub open spec fn error_message(e: OrganizationError) -> Seq<char> {
    match e {
        OrganizationError::DepartmentName => "部门名称需要 1 到 120 个字符"@,
        OrganizationError::InvalidStatus => "状态无效"@,
        OrganizationError::SelfParent => "部门不能把自己设为上级"@,
        OrganizationError::ParentNotFound => "上级部门不存在或不属于当前租户"@,
        OrganizationError::ParentCycle => "上级部门不能是本部门或其下级部门"@,
        OrganizationError::HasChildren => "请先删除下级部门"@,
        OrganizationError::DepartmentNotFound => "部门不存在或不属于当前租户"@,
        OrganizationError::PostName => "岗位名称需要 1 到 120 个字符"@,
        OrganizationError::PostCode => "岗位编码必须为 1 到 64 位字母、数字、连字符或下划线"@,
        OrganizationError::PostNotFound => "岗位不存在或不属于当前租户"@,
        OrganizationError::PostCodeTaken => "岗位编码在当前租户内已被使用"@,
    }
}

impl OrganizationError {
    /// The message that reports this error to the user.
    pub fn message(&self) -> (res: &'static str)
        ensures
            res@ == error_message(*self),
    {
        match self {
            OrganizationError::DepartmentName => "部门名称需要 1 到 120 个字符",
            OrganizationError::InvalidStatus => "状态无效",
            OrganizationError::SelfParent => "部门不能把自己设为上级",
            OrganizationError::ParentNotFound => "上级部门不存在或不属于当前租户",
            OrganizationError::ParentCycle => "上级部门不能是本部门或其下级部门",
            OrganizationError::HasChildren => "请先删除下级部门",
            OrganizationError::DepartmentNotFound => "部门不存在或不属于当前租户",
            OrganizationError::PostName => "岗位名称需要 1 到 120 个字符",
            OrganizationError::PostCode => "岗位编码必须为 1 到 64 位字母、数字、连字符或下划线",
            OrganizationError::PostNotFound => "岗位不存在或不属于当前租户",
            OrganizationError::PostCodeTaken => "岗位编码在当前租户内已被使用",
        }
    }
}

} // verus!
