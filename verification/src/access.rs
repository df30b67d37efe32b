//! Permissions and the roles that hold them.

use vstd::prelude::*;

use crate::strs::{copy_list, listed, same};
use crate::text::{plain, Text, TextModel};

verus! {

/// The built-in role that administers the panel.
pub const ROLE_ADMIN: &'static str = "admin";

/// The built-in role that works with the application's content.
pub const ROLE_EDITOR: &'static str = "editor";

/// The permission gating the plugins screen and its toggle.
pub const MANAGE_PLUGINS: &'static str = "backend.manage_plugins";

// ------------------------------------------------------------ an operator's
/// What an operator may do. A superuser holds every permission; anyone else
/// holds what is allowed them directly and what their roles hold, less what is
/// denied them directly.
pub struct PermissionSet {
    pub superuser: bool,
    pub roles: Vec<String>,
    pub allow: Vec<String>,
    pub deny: Vec<String>,
}

/// What a [`PermissionSet`] holds, over characters.
pub struct PermissionSetModel {
    pub superuser: bool,
    pub roles: Seq<Seq<char>>,
    pub allow: Seq<Seq<char>>,
    pub deny: Seq<Seq<char>>,
}

impl View for PermissionSet {
    type V = PermissionSetModel;

    open spec fn view(&self) -> PermissionSetModel {
        PermissionSetModel {
            superuser: self.superuser,
            roles: self.roles.deep_view(),
            allow: self.allow.deep_view(),
            deny: self.deny.deep_view(),
        }
    }
}

/// Whether a permission is held. An override of the operator's own outranks the
/// roles, and a superuser is never refused. Assumed of the accounts a deployment keeps:
/// no code is both allowed and denied to one operator, since each has one override.
pub open spec fn allowed(perms: PermissionSetModel, code: Seq<char>) -> bool {
    ||| perms.superuser
    ||| perms.allow.contains(code)
    ||| perms.roles.contains(code) && !perms.deny.contains(code)
}

/// Whether an optional requirement is met: nothing asked is met by anyone.
pub open spec fn meets(perms: PermissionSetModel, needed: Option<Seq<char>>) -> bool {
    match needed {
        Some(code) => allowed(perms, code),
        None => true,
    }
}

impl PermissionSet {
    /// What an operator holds through roles alone.
    pub fn new(superuser: bool, codes: Vec<String>) -> (r: PermissionSet)
        ensures
            r@ == (PermissionSetModel {
                superuser,
                roles: codes.deep_view(),
                allow: Seq::empty(),
                deny: Seq::empty(),
            }),
    {
        let allow: Vec<String> = Vec::new();
        let deny: Vec<String> = Vec::new();
        assert(allow.deep_view() =~= Seq::<Seq<char>>::empty());
        assert(deny.deep_view() =~= Seq::<Seq<char>>::empty());
        PermissionSet::with_overrides(superuser, codes, allow, deny)
    }

    /// What an operator holds through roles, refined by their own overrides.
    pub fn with_overrides(
        superuser: bool,
        roles: Vec<String>,
        allow: Vec<String>,
        deny: Vec<String>,
    ) -> (r: PermissionSet)
        ensures
            r@ == (PermissionSetModel {
                superuser,
                roles: roles.deep_view(),
                allow: allow.deep_view(),
                deny: deny.deep_view(),
            }),
    {
        PermissionSet { superuser, roles, allow, deny }
    }

    /// Whether a permission is held.
    pub fn allows(&self, code: &str) -> (r: bool)
        ensures
            r == allowed(self@, code@),
    {
        self.superuser || listed(&self.allow, code) || (listed(&self.roles, code) && !listed(
            &self.deny,
            code,
        ))
    }

    /// Whether an optional requirement is met.
    pub fn meets(&self, needed: &Option<String>) -> (r: bool)
        ensures
            r == meets(self@, needed.deep_view()),
    {
        match needed {
            Some(code) => self.allows(code.as_str()),
            None => true,
        }
    }
}

/// A superuser is refused nothing.
pub proof fn law_superuser_holds_everything(perms: PermissionSetModel, code: Seq<char>)
    requires
        perms.superuser,
    ensures
        allowed(perms, code),
{
}

/// An override of the operator's own outranks what their roles hold.
pub proof fn law_override_outranks_roles(perms: PermissionSetModel, code: Seq<char>)
    requires
        !perms.superuser,
    ensures
        perms.allow.contains(code) ==> allowed(perms, code),
        perms.deny.contains(code) && !perms.allow.contains(code) ==> !allowed(perms, code),
{
}

// --------------------------------------------------------------- permissions
/// A permission an operator can be granted: its dotted code, its label, the
/// group heading it sorts under, and the built-in roles that hold it.
pub struct Permission {
    pub code: String,
    pub label: Text,
    pub group: Text,
    pub default_roles: Vec<String>,
}

/// A [`Permission`], over characters.
pub struct PermissionModel {
    pub code: Seq<char>,
    pub label: TextModel,
    pub group: TextModel,
    pub default_roles: Seq<Seq<char>>,
}

impl DeepView for Permission {
    type V = PermissionModel;

    open spec fn deep_view(&self) -> PermissionModel {
        PermissionModel {
            code: self.code@,
            label: self.label@,
            group: self.group@,
            default_roles: self.default_roles.deep_view(),
        }
    }
}

/// A permission that names no role.
pub open spec fn permission(code: Seq<char>, label: Seq<char>, group: Seq<char>) -> PermissionModel {
    PermissionModel { code, label: plain(label), group: plain(group), default_roles: Seq::empty() }
}

impl Permission {
    /// A permission held by the administrator until it names other roles.
    pub fn new(code: &str, label: &str, group: &str) -> (r: Permission)
        ensures
            r.deep_view() == permission(code@, label@, group@),
    {
        let default_roles: Vec<String> = Vec::new();
        assert(default_roles.deep_view() =~= Seq::<Seq<char>>::empty());
        Permission {
            code: code.to_owned(),
            label: Text::new(label),
            group: Text::new(group),
            default_roles,
        }
    }

    /// The same permission, held by these built-in roles.
    pub fn roles(self, roles: Vec<String>) -> (r: Permission)
        ensures
            r.deep_view() == (PermissionModel {
                default_roles: roles.deep_view(),
                ..self.deep_view()
            }),
    {
        Permission { code: self.code, label: self.label, group: self.group, default_roles: roles }
    }

    /// A copy of the permission.
    pub fn copy(&self) -> (r: Permission)
        ensures
            r.deep_view() == self.deep_view(),
    {
        Permission {
            code: self.code.clone(),
            label: self.label.copy(),
            group: self.group.copy(),
            default_roles: copy_list(&self.default_roles),
        }
    }
}

/// The panel's own permissions, in the order the role editor shows them.
pub open spec fn builtin_permission_models() -> Seq<PermissionModel> {
    seq![
        permission("backend.manage_users"@, "Manage backend users"@, "Backend"@),
        permission("backend.manage_roles"@, "Manage roles"@, "Backend"@),
        permission("backend.manage_branding"@, "Manage branding"@, "Backend"@),
        permission(MANAGE_PLUGINS@, "Manage plugins"@, "Backend"@),
        permission("backend.view_audit_log"@, "View the audit log"@, "Backend"@),
    ]
}

/// The panel's own permissions, in the order the role editor shows them.
pub fn builtin_permissions() -> (r: Vec<Permission>)
    ensures
        r.deep_view() == builtin_permission_models(),
{
    let mut r: Vec<Permission> = Vec::new();
    r.push(Permission::new("backend.manage_users", "Manage backend users", "Backend"));
    r.push(Permission::new("backend.manage_roles", "Manage roles", "Backend"));
    r.push(Permission::new("backend.manage_branding", "Manage branding", "Backend"));
    r.push(Permission::new(MANAGE_PLUGINS, "Manage plugins", "Backend"));
    r.push(Permission::new("backend.view_audit_log", "View the audit log", "Backend"));
    assert(r.deep_view() =~= builtin_permission_models());
    r
}

// --------------------------------------------------------------------- roles
/// One of the panel's own roles, with the permissions it holds.
pub struct SystemRole {
    pub code: String,
    pub name: String,
    pub description: String,
    pub permissions: Vec<String>,
}

/// A [`SystemRole`], over characters.
pub struct SystemRoleModel {
    pub code: Seq<char>,
    pub name: Seq<char>,
    pub description: Seq<char>,
    pub permissions: Seq<Seq<char>>,
}

impl DeepView for SystemRole {
    type V = SystemRoleModel;

    open spec fn deep_view(&self) -> SystemRoleModel {
        SystemRoleModel {
            code: self.code@,
            name: self.name@,
            description: self.description@,
            permissions: self.permissions.deep_view(),
        }
    }
}

/// Whether a role holds a permission: one that names no role belongs to the
/// administrator alone.
pub open spec fn role_holds(role: Seq<char>, p: PermissionModel) -> bool {
    if p.default_roles.len() == 0 {
        role == ROLE_ADMIN@
    } else {
        p.default_roles.contains(role)
    }
}

/// The codes of the permissions a role holds, in the order given.
pub open spec fn held_by(role: Seq<char>, permissions: Seq<PermissionModel>) -> Seq<Seq<char>> {
    permissions.filter_map(
        |p: PermissionModel|
            if role_holds(role, p) {
                Some(p.code)
            } else {
                None::<Seq<char>>
            },
    )
}

/// The codes of the permissions a role holds, in the order given.
fn held(role: &str, permissions: &Vec<Permission>) -> (out: Vec<String>)
    ensures
        out.deep_view() == held_by(role@, permissions.deep_view()),
{
    let mut out: Vec<String> = Vec::new();
    let ghost all = permissions.deep_view();
    let ghost f = |p: PermissionModel|
        if role_holds(role@, p) {
            Some(p.code)
        } else {
            None::<Seq<char>>
        };
    let mut i: usize = 0;
    assert(out.deep_view() =~= all.take(0).filter_map(f));
    while i < permissions.len()
        invariant
            i <= permissions.len(),
            all == permissions.deep_view(),
            f == (|p: PermissionModel|
                if role_holds(role@, p) {
                    Some(p.code)
                } else {
                    None::<Seq<char>>
                }),
            out.deep_view() == all.take(i as int).filter_map(f),
        decreases permissions.len() - i,
    {
        let p: &Permission = &permissions[i];
        let mine: bool = if p.default_roles.len() == 0 {
            same(role, ROLE_ADMIN)
        } else {
            listed(&p.default_roles, role)
        };
        proof {
            all.lemma_filter_map_take_succ(f, i as int);
            assert(all[i as int] == p.deep_view());
        }
        let ghost before = out.deep_view();
        if mine {
            out.push(p.code.clone());
            assert(out.deep_view() =~= before + seq![p.code@]);
        }
        i = i + 1;
    }
    assert(all.take(all.len() as int) =~= all);
    out
}

/// The panel's own roles over the panel's permissions and the contributed ones.
pub open spec fn system_role_models(contributed: Seq<PermissionModel>) -> Seq<SystemRoleModel> {
    let all = builtin_permission_models() + contributed;
    seq![
        SystemRoleModel {
            code: ROLE_ADMIN@,
            name: "Administrator"@,
            description: "Administers the panel itself: operators, roles and settings."@,
            permissions: held_by(ROLE_ADMIN@, all),
        },
        SystemRoleModel {
            code: ROLE_EDITOR@,
            name: "Editor"@,
            description: "Works with the content the application declares."@,
            permissions: held_by(ROLE_EDITOR@, all),
        },
    ]
}

/// The panel's own roles, with the permissions they hold.
pub fn system_roles(contributed: &Vec<Permission>) -> (r: Vec<SystemRole>)
    ensures
        r.deep_view() == system_role_models(contributed.deep_view()),
{
    let permissions: Vec<Permission> = with_builtin(contributed);
    let mut r: Vec<SystemRole> = Vec::new();
    r.push(
        SystemRole {
            code: ROLE_ADMIN.to_owned(),
            name: "Administrator".to_owned(),
            description: "Administers the panel itself: operators, roles and settings.".to_owned(),
            permissions: held(ROLE_ADMIN, &permissions),
        },
    );
    r.push(
        SystemRole {
            code: ROLE_EDITOR.to_owned(),
            name: "Editor".to_owned(),
            description: "Works with the content the application declares.".to_owned(),
            permissions: held(ROLE_EDITOR, &permissions),
        },
    );
    assert(r.deep_view() =~= system_role_models(contributed.deep_view()));
    r
}

/// The panel's own permissions followed by the contributed ones.
pub fn with_builtin(contributed: &Vec<Permission>) -> (r: Vec<Permission>)
    ensures
        r.deep_view() == builtin_permission_models() + contributed.deep_view(),
{
    let mut r: Vec<Permission> = builtin_permissions();
    let mut i: usize = 0;
    let ghost own = builtin_permission_models();
    let ghost more = contributed.deep_view();
    assert(own + more.take(0) =~= own);
    while i < contributed.len()
        invariant
            i <= contributed.len(),
            more == contributed.deep_view(),
            r.deep_view() == own + more.take(i as int),
        decreases contributed.len() - i,
    {
        let ghost before = r.deep_view();
        r.push(contributed[i].copy());
        assert(r.deep_view() =~= before.push(more[i as int]));
        assert(before.push(more[i as int]) =~= own + more.take(i + 1));
        i = i + 1;
    }
    assert(more.take(more.len() as int) =~= more);
    r
}

/// Every permission the panel itself declares reaches the administrator and no
/// editor; so does every contributed one that names no role.
pub proof fn law_undeclared_permissions_reach_only_the_administrator(p: PermissionModel)
    requires
        p.default_roles.len() == 0,
    ensures
        role_holds(ROLE_ADMIN@, p),
        !role_holds(ROLE_EDITOR@, p),
{
    reveal_strlit("admin");
    reveal_strlit("editor");
    assert(ROLE_ADMIN@.len() != ROLE_EDITOR@.len());
}

} // verus!
