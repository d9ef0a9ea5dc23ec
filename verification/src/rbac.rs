//! Role-based access control for the panel: permissions, the system roles, and checks.
use vstd::prelude::*;

use crate::text::{concat2, owned};

verus! {

/// What a role may do.
#[derive(Clone, Copy, Debug, PartialEq, Eq, Structural)]
pub enum Permission {
    NodeList,
    NodeView,
    NodeControl,
    ServiceList,
    ServiceView,
    ServiceStart,
    ServiceStop,
    ServiceRestart,
    ServiceDelete,
    FileList,
    FileRead,
    FileWrite,
    FileDelete,
    TerminalList,
    TerminalView,
    TerminalControl,
    UserList,
    UserView,
    UserCreate,
    UserUpdate,
    UserDelete,
    SystemConfig,
    SystemView,
}

/// A named set of permissions.
#[derive(Debug)]
pub struct Role {
    pub name: String,
    pub permissions: Vec<Permission>,
}

/// Whether a role grants `permission`.
pub open spec fn grants(role: &Role, permission: Permission) -> bool {
    role.permissions@.contains(permission)
}

/// Whether any of `roles` grants `permission`.
pub open spec fn any_grants(roles: Seq<Role>, permission: Permission) -> bool {
    exists|i: int| 0 <= i < roles.len() && grants(&roles[i], permission)
}

/// Checks whether a role has a permission.
pub fn has_permission(role: &Role, permission: &Permission) -> (b: bool)
    ensures
        b == grants(role, *permission),
{
    let mut i: usize = 0;
    while i < role.permissions.len()
        invariant
            i <= role.permissions.len(),
            forall|k: int| 0 <= k < i ==> role.permissions@[k] != *permission,
        decreases role.permissions.len() - i,
    {
        if role.permissions[i] == *permission {
            return true;
        }
        i = i + 1;
    }
    false
}

/// Checks whether a user with `roles` has a permission through one of them.
pub fn user_has_permission(roles: &[Role], permission: &Permission) -> (b: bool)
    ensures
        b == any_grants(roles@, *permission),
{
    let mut i: usize = 0;
    while i < roles.len()
        invariant
            i <= roles@.len(),
            forall|k: int| 0 <= k < i ==> !grants(&roles@[k], *permission),
        decreases roles@.len() - i,
    {
        if has_permission(&roles[i], permission) {
            return true;
        }
        i = i + 1;
    }
    false
}

/// Every permission, in declaration order.
pub open spec fn all_permissions() -> Seq<Permission> {
    seq![
        Permission::NodeList, Permission::NodeView, Permission::NodeControl,
        Permission::ServiceList, Permission::ServiceView, Permission::ServiceStart, Permission::ServiceStop,
        Permission::ServiceRestart, Permission::ServiceDelete,
        Permission::FileList, Permission::FileRead, Permission::FileWrite, Permission::FileDelete,
        Permission::TerminalList, Permission::TerminalView, Permission::TerminalControl,
        Permission::UserList, Permission::UserView, Permission::UserCreate, Permission::UserUpdate, Permission::UserDelete,
        Permission::SystemConfig, Permission::SystemView,
    ]
}

/// The operator's permissions: manage services (list, view, start, stop, restart) and view
/// everything: nodes, files, terminals, users and the system.
pub open spec fn operator_permissions() -> Seq<Permission> {
    seq![
        Permission::NodeList, Permission::NodeView,
        Permission::ServiceList, Permission::ServiceView, Permission::ServiceStart, Permission::ServiceStop,
        Permission::ServiceRestart,
        Permission::FileList, Permission::FileRead,
        Permission::TerminalList, Permission::TerminalView,
        Permission::UserList, Permission::UserView, Permission::SystemView,
    ]
}

/// The viewer's permissions: read-only.
pub open spec fn viewer_permissions() -> Seq<Permission> {
    seq![
        Permission::NodeList, Permission::NodeView,
        Permission::ServiceList, Permission::ServiceView,
        Permission::FileList, Permission::FileRead,
        Permission::TerminalList, Permission::TerminalView,
    ]
}

/// The permissions of a system role, by name.
pub open spec fn system_role_permissions(name: Seq<char>) -> Option<Seq<Permission>> {
    if name == "admin"@ {
        Some(all_permissions())
    } else if name == "operator"@ {
        Some(operator_permissions())
    } else if name == "viewer"@ {
        Some(viewer_permissions())
    } else {
        None
    }
}

/// The system roles: admin (everything), operator and viewer.
pub fn get_system_roles() -> (r: Vec<Role>)
    ensures
        r@.len() == 3,
        r@[0].name@ == "admin"@ && r@[0].permissions@ == all_permissions(),
        r@[1].name@ == "operator"@ && r@[1].permissions@ == operator_permissions(),
        r@[2].name@ == "viewer"@ && r@[2].permissions@ == viewer_permissions(),
{
    let admin = vec![
        Permission::NodeList, Permission::NodeView, Permission::NodeControl,
        Permission::ServiceList, Permission::ServiceView, Permission::ServiceStart, Permission::ServiceStop,
        Permission::ServiceRestart, Permission::ServiceDelete,
        Permission::FileList, Permission::FileRead, Permission::FileWrite, Permission::FileDelete,
        Permission::TerminalList, Permission::TerminalView, Permission::TerminalControl,
        Permission::UserList, Permission::UserView, Permission::UserCreate, Permission::UserUpdate, Permission::UserDelete,
        Permission::SystemConfig, Permission::SystemView,
    ];
    let operator = vec![
        Permission::NodeList, Permission::NodeView,
        Permission::ServiceList, Permission::ServiceView, Permission::ServiceStart, Permission::ServiceStop,
        Permission::ServiceRestart,
        Permission::FileList, Permission::FileRead,
        Permission::TerminalList, Permission::TerminalView,
        Permission::UserList, Permission::UserView, Permission::SystemView,
    ];
    let viewer = vec![
        Permission::NodeList, Permission::NodeView,
        Permission::ServiceList, Permission::ServiceView,
        Permission::FileList, Permission::FileRead,
        Permission::TerminalList, Permission::TerminalView,
    ];
    assert(admin@ =~= all_permissions());
    assert(operator@ =~= operator_permissions());
    assert(viewer@ =~= viewer_permissions());
    vec![
        Role { name: owned("admin"), permissions: admin },
        Role { name: owned("operator"), permissions: operator },
        Role { name: owned("viewer"), permissions: viewer },
    ]
}

/// The system role of that name, if there is one.
pub fn get_role_by_name(name: &str) -> (r: Option<Role>)
    ensures
        match r {
            Some(role) => role.name@ == name@ && system_role_permissions(name@) == Some(role.permissions@),
            None => system_role_permissions(name@) is None,
        },
{
    let roles = get_system_roles();
    let mut rest = roles;
    proof {
        reveal_strlit("admin");
        reveal_strlit("operator");
        reveal_strlit("viewer");
    }
    // the roles in order: admin, operator, viewer
    let viewer = rest.pop().unwrap();
    let operator = rest.pop().unwrap();
    let admin = rest.pop().unwrap();
    let key = owned(name);
    if admin.name == key {
        Some(admin)
    } else if operator.name == key {
        Some(operator)
    } else if viewer.name == key {
        Some(viewer)
    } else {
        None
    }
}

/// A refused authorization.
#[derive(Debug)]
pub struct AuthzError(pub String);

impl AuthzError {
    /// The text shown for it.
    pub fn text(&self) -> (r: String)
        ensures
            r@ == "Authorization error: "@ + self.0@,
    {
        concat2("Authorization error: ", self.0.as_str())
    }
}

/// The administrator holds every permission.
pub proof fn admin_holds_every_permission(p: Permission)
    ensures
        all_permissions().contains(p),
{
    let a = all_permissions();
    match p {
        Permission::NodeList => assert(a[0] == p),
        Permission::NodeView => assert(a[1] == p),
        Permission::NodeControl => assert(a[2] == p),
        Permission::ServiceList => assert(a[3] == p),
        Permission::ServiceView => assert(a[4] == p),
        Permission::ServiceStart => assert(a[5] == p),
        Permission::ServiceStop => assert(a[6] == p),
        Permission::ServiceRestart => assert(a[7] == p),
        Permission::ServiceDelete => assert(a[8] == p),
        Permission::FileList => assert(a[9] == p),
        Permission::FileRead => assert(a[10] == p),
        Permission::FileWrite => assert(a[11] == p),
        Permission::FileDelete => assert(a[12] == p),
        Permission::TerminalList => assert(a[13] == p),
        Permission::TerminalView => assert(a[14] == p),
        Permission::TerminalControl => assert(a[15] == p),
        Permission::UserList => assert(a[16] == p),
        Permission::UserView => assert(a[17] == p),
        Permission::UserCreate => assert(a[18] == p),
        Permission::UserUpdate => assert(a[19] == p),
        Permission::UserDelete => assert(a[20] == p),
        Permission::SystemConfig => assert(a[21] == p),
        Permission::SystemView => assert(a[22] == p),
    }
}

/// Each system role can do all that the one below it can: viewer, then operator, then admin.
pub proof fn system_roles_are_nested(p: Permission)
    ensures
        viewer_permissions().contains(p) ==> operator_permissions().contains(p),
        operator_permissions().contains(p) ==> all_permissions().contains(p),
{
    admin_holds_every_permission(p);
    if viewer_permissions().contains(p) {
        let v = viewer_permissions();
        let o = operator_permissions();
        let i = choose|i: int| 0 <= i < v.len() && v[i] == p;
        if i == 0 { assert(o[0] == p); }
        else if i == 1 { assert(o[1] == p); }
        else if i == 2 { assert(o[2] == p); }
        else if i == 3 { assert(o[3] == p); }
        else if i == 4 { assert(o[7] == p); }
        else if i == 5 { assert(o[8] == p); }
        else if i == 6 { assert(o[9] == p); }
        else { assert(o[10] == p); }
    }
}

/// Only the administrator may change the system, manage users or control nodes and terminals;
/// the viewer may change nothing.
pub proof fn only_admin_administers(p: Permission)
    requires
        p == Permission::SystemConfig || p == Permission::UserCreate || p == Permission::UserUpdate
            || p == Permission::UserDelete || p == Permission::NodeControl || p == Permission::TerminalControl
            || p == Permission::ServiceDelete || p == Permission::FileWrite || p == Permission::FileDelete,
    ensures
        !operator_permissions().contains(p),
        !viewer_permissions().contains(p),
{
    if operator_permissions().contains(p) {
        let o = operator_permissions();
        let i = choose|i: int| 0 <= i < o.len() && o[i] == p;
        assert(o[i] == p);
    }
    if viewer_permissions().contains(p) {
        let v = viewer_permissions();
        let i = choose|i: int| 0 <= i < v.len() && v[i] == p;
        assert(v[i] == p);
    }
}

/// The operator manages services and views everything: it holds every list and view
/// permission, and every service permission but deletion.
pub proof fn operator_views_everything(p: Permission)
    requires
        p == Permission::NodeList || p == Permission::NodeView || p == Permission::ServiceList
            || p == Permission::ServiceView || p == Permission::ServiceStart || p == Permission::ServiceStop
            || p == Permission::ServiceRestart || p == Permission::FileList || p == Permission::FileRead
            || p == Permission::TerminalList || p == Permission::TerminalView || p == Permission::UserList
            || p == Permission::UserView || p == Permission::SystemView,
    ensures
        operator_permissions().contains(p),
{
    let o = operator_permissions();
    match p {
        Permission::NodeList => assert(o[0] == p),
        Permission::NodeView => assert(o[1] == p),
        Permission::ServiceList => assert(o[2] == p),
        Permission::ServiceView => assert(o[3] == p),
        Permission::ServiceStart => assert(o[4] == p),
        Permission::ServiceStop => assert(o[5] == p),
        Permission::ServiceRestart => assert(o[6] == p),
        Permission::FileList => assert(o[7] == p),
        Permission::FileRead => assert(o[8] == p),
        Permission::TerminalList => assert(o[9] == p),
        Permission::TerminalView => assert(o[10] == p),
        Permission::UserList => assert(o[11] == p),
        Permission::UserView => assert(o[12] == p),
        _ => assert(o[13] == p),
    }
}

}
