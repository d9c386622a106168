//! Display labels of permission codes. Labels are for display only:
//! authorization and submitted values always use the original code.
use vstd::prelude::*;

use crate::text::{after_first, after_first_char, lemma_after_first, same_text, strip_prefix, without_prefix};

verus! {

/// The prefix of a permission scoped to one component: `component:<id>:<code>`.
pub open spec fn component_prefix() -> Seq<char> {
    "component:"@
}

/// The code that a permission carries: for `component:<id>:<code>` the part
/// after the component id, for every other permission the permission itself.
pub open spec fn permission_code(permission: Seq<char>) -> Seq<char> {
    match without_prefix(permission, component_prefix()) {
        Some(scoped) => match after_first(scoped, ':') {
            Some(code) => code,
            None => permission,
        },
        None => permission,
    }
}

/// The label shown for an unscoped permission code.
pub open spec fn code_label(code: Seq<char>) -> Seq<char> {
    if code == "workspace:view"@ {
        "访问工作区"@
    } else if code == "rbac:manage"@ {
        "管理用户与角色"@
    } else if code == "tenant:manage"@ {
        "管理租户"@
    } else if code == "plugin:manage"@ {
        "管理插件"@
    } else if code == "dictionary:manage"@ {
        "管理字典"@
    } else if code == "file:manage"@ {
        "管理文件"@
    } else if code == "user:manage"@ {
        "管理用户"@
    } else if code == "screen.view"@ {
        "查看大屏"@
    } else if code == "screen.edit"@ {
        "编辑大屏"@
    } else if code == "screen.data"@ {
        "管理大屏数据"@
    } else if code == "screen.publish"@ {
        "发布大屏"@
    } else if code == "memory:compile"@ {
        "编译记忆"@
    } else {
        unnamed_label()
    }
}

/// The label of every code that has no label of its own.
pub open spec fn unnamed_label() -> Seq<char> {
    "未命名权限"@
}

/// The label shown for a permission.
pub open spec fn label_of(permission: Seq<char>) -> Seq<char> {
    code_label(permission_code(permission))
}

/// Whether `label` is one of the display labels.
pub open spec fn is_display_label(label: Seq<char>) -> bool {
    ||| label == "访问工作区"@
    ||| label == "管理用户与角色"@
    ||| label == "管理租户"@
    ||| label == "管理插件"@
    ||| label == "管理字典"@
    ||| label == "管理文件"@
    ||| label == "管理用户"@
    ||| label == "查看大屏"@
    ||| label == "编辑大屏"@
    ||| label == "管理大屏数据"@
    ||| label == "发布大屏"@
    ||| label == "编译记忆"@
    ||| label == unnamed_label()
}

/// Display name of a permission code; component-scoped permissions
/// (`component:<id>:<code>`) are labelled by their code.
pub fn permission_label(permission: &str) -> (label: &str)
    ensures
        label@ == label_of(permission@),
{
    let name = match strip_prefix(permission, "component:") {
        Some(scoped) => match after_first_char(scoped, ':') {
            Some(code) => code,
            None => permission,
        },
        None => permission,
    };
    if same_text(name, "workspace:view") {
        "访问工作区"
    } else if same_text(name, "rbac:manage") {
        "管理用户与角色"
    } else if same_text(name, "tenant:manage") {
        "管理租户"
    } else if same_text(name, "plugin:manage") {
        "管理插件"
    } else if same_text(name, "dictionary:manage") {
        "管理字典"
    } else if same_text(name, "file:manage") {
        "管理文件"
    } else if same_text(name, "user:manage") {
        "管理用户"
    } else if same_text(name, "screen.view") {
        "查看大屏"
    } else if same_text(name, "screen.edit") {
        "编辑大屏"
    } else if same_text(name, "screen.data") {
        "管理大屏数据"
    } else if same_text(name, "screen.publish") {
        "发布大屏"
    } else if same_text(name, "memory:compile") {
        "编译记忆"
    } else {
        "未命名权限"
    }
}

/// A permission scoped to a component gets the same label as its code
/// alone, whatever the component id (an id holds no `:`).
pub proof fn lemma_scoped_label(scope: Seq<char>, code: Seq<char>)
    requires
        !scope.contains(':'),
    ensures
        label_of(component_prefix() + scope + seq![':'] + code) == code_label(code),
{
    let p = component_prefix() + scope + seq![':'] + code;
    let rest = scope + seq![':'] + code;
    assert(p =~= component_prefix() + rest);
    assert(p.take(component_prefix().len() as int) =~= component_prefix());
    assert(p.skip(component_prefix().len() as int) =~= rest);
    assert forall|k: int| 0 <= k < scope.len() implies #[trigger] rest[k] != ':' by {
        assert(rest[k] == scope[k]);
    }
    lemma_after_first(rest, ':', scope.len() as int);
    assert(rest.skip(scope.len() as int)[0] == ':');
    assert(rest.skip(scope.len() as int).drop_first() =~= code);
}

/// A permission that is not component-scoped is labelled by itself.
pub proof fn lemma_unscoped_label(permission: Seq<char>)
    requires
        without_prefix(permission, component_prefix()) is None,
    ensures
        label_of(permission) == code_label(permission),
{
}

/// Every permission is shown by one of the display labels: a code is never
/// shown as its label, an unknown one gets the unnamed label.
pub proof fn lemma_label_is_display_label(permission: Seq<char>)
    ensures
        is_display_label(label_of(permission)),
{
}

/// The permission codes that have a label of their own.
pub open spec fn is_built_in_code(code: Seq<char>) -> bool {
    ||| code == "workspace:view"@
    ||| code == "rbac:manage"@
    ||| code == "tenant:manage"@
    ||| code == "plugin:manage"@
    ||| code == "dictionary:manage"@
    ||| code == "file:manage"@
    ||| code == "user:manage"@
    ||| code == "screen.view"@
    ||| code == "screen.edit"@
    ||| code == "screen.data"@
    ||| code == "screen.publish"@
    ||| code == "memory:compile"@
}

/// Distinct built-in codes are shown by distinct labels, none of them the
/// unnamed label; a built-in permission is labelled by its own code.
pub proof fn lemma_built_in_labels_distinct(a: Seq<char>, b: Seq<char>)
    requires
        is_built_in_code(a),
        is_built_in_code(b),
        a != b,
    ensures
        label_of(a) == code_label(a),
        label_of(b) == code_label(b),
        code_label(a) != code_label(b),
        code_label(a) != unnamed_label(),
        code_label(b) != unnamed_label(),
{
    reveal_strlit("component:");
    reveal_strlit("workspace:view");
    reveal_strlit("rbac:manage");
    reveal_strlit("tenant:manage");
    reveal_strlit("plugin:manage");
    reveal_strlit("dictionary:manage");
    reveal_strlit("file:manage");
    reveal_strlit("user:manage");
    reveal_strlit("screen.view");
    reveal_strlit("screen.edit");
    reveal_strlit("screen.data");
    reveal_strlit("screen.publish");
    reveal_strlit("memory:compile");
    reveal_strlit("访问工作区");
    reveal_strlit("管理用户与角色");
    reveal_strlit("管理租户");
    reveal_strlit("管理插件");
    reveal_strlit("管理字典");
    reveal_strlit("管理文件");
    reveal_strlit("管理用户");
    reveal_strlit("查看大屏");
    reveal_strlit("编辑大屏");
    reveal_strlit("管理大屏数据");
    reveal_strlit("发布大屏");
    reveal_strlit("编译记忆");
    reveal_strlit("未命名权限");
    assert("workspace:view"@.len() == 14 && "workspace:view"@[0] == 'w' && "workspace:view"@[7] == 'c');
    assert("rbac:manage"@.len() == 11 && "rbac:manage"@[0] == 'r' && "rbac:manage"@[7] == 'n');
    assert("tenant:manage"@.len() == 13 && "tenant:manage"@[0] == 't' && "tenant:manage"@[7] == 'm');
    assert("plugin:manage"@.len() == 13 && "plugin:manage"@[0] == 'p' && "plugin:manage"@[7] == 'm');
    assert("dictionary:manage"@.len() == 17 && "dictionary:manage"@[0] == 'd' && "dictionary:manage"@[7] == 'a');
    assert("file:manage"@.len() == 11 && "file:manage"@[0] == 'f' && "file:manage"@[7] == 'n');
    assert("user:manage"@.len() == 11 && "user:manage"@[0] == 'u' && "user:manage"@[7] == 'n');
    assert("screen.view"@.len() == 11 && "screen.view"@[0] == 's' && "screen.view"@[7] == 'v');
    assert("screen.edit"@.len() == 11 && "screen.edit"@[0] == 's' && "screen.edit"@[7] == 'e');
    assert("screen.data"@.len() == 11 && "screen.data"@[0] == 's' && "screen.data"@[7] == 'd');
    assert("screen.publish"@.len() == 14 && "screen.publish"@[0] == 's' && "screen.publish"@[7] == 'p');
    assert("memory:compile"@.len() == 14 && "memory:compile"@[0] == 'm' && "memory:compile"@[7] == 'c');
    assert("访问工作区"@.len() == 5 && "访问工作区"@[0] == '访' && "访问工作区"@[2] == '工');
    assert("管理用户与角色"@.len() == 7 && "管理用户与角色"@[0] == '管' && "管理用户与角色"@[2] == '用');
    assert("管理租户"@.len() == 4 && "管理租户"@[0] == '管' && "管理租户"@[2] == '租');
    assert("管理插件"@.len() == 4 && "管理插件"@[0] == '管' && "管理插件"@[2] == '插');
    assert("管理字典"@.len() == 4 && "管理字典"@[0] == '管' && "管理字典"@[2] == '字');
    assert("管理文件"@.len() == 4 && "管理文件"@[0] == '管' && "管理文件"@[2] == '文');
    assert("管理用户"@.len() == 4 && "管理用户"@[0] == '管' && "管理用户"@[2] == '用');
    assert("查看大屏"@.len() == 4 && "查看大屏"@[0] == '查' && "查看大屏"@[2] == '大');
    assert("编辑大屏"@.len() == 4 && "编辑大屏"@[0] == '编' && "编辑大屏"@[2] == '大');
    assert("管理大屏数据"@.len() == 6 && "管理大屏数据"@[0] == '管' && "管理大屏数据"@[2] == '大');
    assert("发布大屏"@.len() == 4 && "发布大屏"@[0] == '发' && "发布大屏"@[2] == '大');
    assert("编译记忆"@.len() == 4 && "编译记忆"@[0] == '编' && "编译记忆"@[2] == '记');
    assert("未命名权限"@.len() == 5 && "未命名权限"@[0] == '未' && "未命名权限"@[2] == '名');
    lemma_built_in_unscoped(a);
    lemma_built_in_unscoped(b);
}

/// No built-in code starts with the component prefix.
proof fn lemma_built_in_unscoped(code: Seq<char>)
    requires
        is_built_in_code(code),
    ensures
        without_prefix(code, component_prefix()) is None,
{
    reveal_strlit("component:");
    reveal_strlit("workspace:view");
    reveal_strlit("rbac:manage");
    reveal_strlit("tenant:manage");
    reveal_strlit("plugin:manage");
    reveal_strlit("dictionary:manage");
    reveal_strlit("file:manage");
    reveal_strlit("user:manage");
    reveal_strlit("screen.view");
    reveal_strlit("screen.edit");
    reveal_strlit("screen.data");
    reveal_strlit("screen.publish");
    reveal_strlit("memory:compile");
    if code.len() >= 10 {
        assert(code.take(10)[0] == code[0]);
        assert(code[0] != 'c' || code[1] != 'o');
        assert(code.take(10)[1] == code[1]);
        assert(component_prefix()[0] == 'c' && component_prefix()[1] == 'o');
    }
}

} // verus!
