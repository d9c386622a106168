use rbac_organization::permissions::permission_label;

#[test]
fn component_permissions_use_the_same_labels_as_unscoped_permissions() {
    for (code, label) in [
        ("screen.view", "查看大屏"),
        ("screen.edit", "编辑大屏"),
        ("screen.data", "管理大屏数据"),
        ("screen.publish", "发布大屏"),
        ("memory:compile", "编译记忆"),
    ] {
        assert_eq!(permission_label(code), label);
        assert_eq!(
            permission_label(&format!(
                "component:68bbdcee-8522-4574-b97d-0530d45fca7e:{code}"
            )),
            label
        );
    }
}

#[test]
fn built_in_and_unknown_permissions_never_expose_codes() {
    assert_eq!(permission_label("rbac:manage"), "管理用户与角色");
    for code in [
        "unknown:action",
        "component:id:unknown:action",
        "component:broken",
    ] {
        assert_eq!(permission_label(code), "未命名权限");
    }
}

#[test]
fn every_built_in_code_has_its_label() {
    let table = [
        ("workspace:view", "访问工作区"),
        ("rbac:manage", "管理用户与角色"),
        ("tenant:manage", "管理租户"),
        ("plugin:manage", "管理插件"),
        ("dictionary:manage", "管理字典"),
        ("file:manage", "管理文件"),
        ("user:manage", "管理用户"),
        ("screen.view", "查看大屏"),
        ("screen.edit", "编辑大屏"),
        ("screen.data", "管理大屏数据"),
        ("screen.publish", "发布大屏"),
        ("memory:compile", "编译记忆"),
    ];
    for (code, label) in table {
        assert_eq!(permission_label(code), label);
        assert_eq!(permission_label(&format!("component:c1:{code}")), label);
    }
}

#[test]
fn scoped_permission_splits_at_the_first_colon_after_the_prefix() {
    // The component id ends at the first colon; the rest is the code.
    assert_eq!(permission_label("component::rbac:manage"), "管理用户与角色");
    assert_eq!(permission_label("component:a:b:rbac:manage"), "未命名权限");
    // A scoped code is labelled by its code only, not unscoped again.
    assert_eq!(
        permission_label("component:a:component:b:rbac:manage"),
        "未命名权限"
    );
}

#[test]
fn permission_label_is_exact_on_case_and_whitespace() {
    assert_eq!(permission_label("RBAC:manage"), "未命名权限");
    assert_eq!(permission_label(" rbac:manage"), "未命名权限");
    assert_eq!(permission_label("Component:x:rbac:manage"), "未命名权限");
    assert_eq!(permission_label(""), "未命名权限");
    assert_eq!(permission_label("component:"), "未命名权限");
}

#[test]
fn distinct_built_in_codes_have_distinct_named_labels() {
    let codes = [
        "workspace:view", "rbac:manage", "tenant:manage", "plugin:manage", "dictionary:manage",
        "file:manage", "user:manage", "screen.view", "screen.edit", "screen.data",
        "screen.publish", "memory:compile",
    ];
    for a in codes {
        assert_ne!(permission_label(a), "未命名权限");
        for b in codes {
            if a != b {
                assert_ne!(permission_label(a), permission_label(b));
            }
        }
    }
}
