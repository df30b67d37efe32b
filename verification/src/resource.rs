//! Admin resources: a list screen, optionally with a create and edit form, mounted
//! under a path and shown in the menu.

use vstd::prelude::*;

use crate::form::{FormConfig, FormConfigModel};
use crate::list::{
    column, default_list, ColumnModel, FilterModel, KindModel, ListColumn, ListConfig,
    ListFilter, ListModel,
};
use crate::strs::{cat, same};
use crate::text::{plain, Text, TextModel};

verus! {

/// An admin resource.
pub struct Resource {
    /// The path the resource mounts at, relative to the admin root and starting with
    /// a slash. The framework prepends the configured mount, so a resource never
    /// hardcodes it. The list's `edit_base` and the form's `base_path` are resolved
    /// the same way.
    pub base_path: String,
    /// The menu label, localized at render.
    pub nav_label: Text,
    pub list: ListConfig,
    pub form: Option<FormConfig>,
    /// The permission an operator must hold to reach any of the resource's routes.
    /// `None` leaves the resource open to any signed-in operator and is allowed only
    /// for a read-only resource.
    pub permission: Option<String>,
}

/// A [`Resource`], over characters.
pub struct ResourceModel {
    pub base_path: Seq<char>,
    pub nav_label: TextModel,
    pub list: ListModel,
    pub form: Option<FormConfigModel>,
    pub permission: Option<Seq<char>>,
}

impl DeepView for Resource {
    type V = ResourceModel;

    open spec fn deep_view(&self) -> ResourceModel {
        ResourceModel {
            base_path: self.base_path@,
            nav_label: self.nav_label@,
            list: self.list@,
            form: self.form.deep_view(),
            permission: self.permission.deep_view(),
        }
    }
}

impl Resource {
    /// A read-only resource: a list at `base_path`, in the menu as `nav_label`.
    pub fn new(base_path: &str, nav_label: Text, list: ListConfig) -> (r: Self)
        ensures
            r.deep_view() == (ResourceModel {
                base_path: base_path@,
                nav_label: nav_label@,
                list: list@,
                form: None,
                permission: None,
            }),
    {
        Resource { base_path: base_path.to_owned(), nav_label, list, form: None, permission: None }
    }

    /// Adds the create and edit form. A resource with one must also declare a
    /// permission, or boot aborts.
    pub fn form(self, form: FormConfig) -> (r: Self)
        ensures
            r.deep_view() == (ResourceModel {
                form: Some(form.deep_view()),
                ..self.deep_view()
            }),
    {
        let mut it: Self = self;
        it.form = Some(form);
        it
    }

    /// The permission gating every route this resource mounts.
    pub fn permission(self, permission: &str) -> (r: Self)
        ensures
            r.deep_view() == (ResourceModel {
                permission: Some(permission@),
                ..self.deep_view()
            }),
    {
        let mut it: Self = self;
        it.permission = Some(permission.to_owned());
        it
    }
}

// ----------------------------------------------------------------------- moving
/// A resource with its paths under the admin mount.
pub open spec fn prefixed(admin: Seq<char>, r: ResourceModel) -> ResourceModel {
    ResourceModel {
        base_path: admin + r.base_path,
        list: ListModel {
            edit_base: match r.list.edit_base {
                Some(b) => Some(admin + b),
                None => None,
            },
            ..r.list
        },
        form: match r.form {
            Some(f) => Some(FormConfigModel { base_path: admin + f.base_path, ..f }),
            None => None,
        },
        ..r
    }
}

/// A resource moved to another base, with the links that led to its own.
pub open spec fn rebased(base: Seq<char>, r: ResourceModel) -> ResourceModel {
    ResourceModel {
        base_path: base,
        list: ListModel {
            edit_base: if r.list.edit_base == Some(r.base_path) {
                Some(base)
            } else {
                r.list.edit_base
            },
            ..r.list
        },
        form: match r.form {
            Some(f) => Some(
                FormConfigModel {
                    base_path: if f.base_path == r.base_path {
                        base
                    } else {
                        f.base_path
                    },
                    ..f
                },
            ),
            None => None,
        },
        ..r
    }
}

/// Resolves a resource's authored-relative paths to full paths under the admin
/// mount.
pub fn prefix_resource(admin_path: &str, resource: Resource) -> (r: Resource)
    ensures
        r.deep_view() == prefixed(admin_path@, resource.deep_view()),
{
    let mut it: Resource = resource;
    it.base_path = cat(admin_path, it.base_path.as_str());
    it.list.edit_base = match it.list.edit_base {
        Some(b) => Some(cat(admin_path, b.as_str())),
        None => None,
    };
    it.form = match it.form {
        Some(f) => {
            let mut moved: FormConfig = f;
            moved.base_path = cat(admin_path, moved.base_path.as_str());
            Some(moved)
        },
        None => None,
    };
    it
}

/// Moves a resource to `base`, taking its list and form links with it. Used when a
/// module's screens resolve to a namespaced or overridden path.
pub fn rebase_resource(base: &str, resource: Resource) -> (r: Resource)
    ensures
        r.deep_view() == rebased(base@, resource.deep_view()),
{
    let mut it: Resource = resource;
    let old_base: String = it.base_path.clone();
    it.base_path = base.to_owned();
    it.list.edit_base = match it.list.edit_base {
        Some(b) => if same(b.as_str(), old_base.as_str()) {
            Some(base.to_owned())
        } else {
            Some(b)
        },
        None => None,
    };
    it.form = match it.form {
        Some(f) => {
            let mut moved: FormConfig = f;
            if same(moved.base_path.as_str(), old_base.as_str()) {
                moved.base_path = base.to_owned();
            }
            Some(moved)
        },
        None => None,
    };
    it
}

/// Whether a resource's rows and its form stand at its own path.
pub open spec fn links_home(r: ResourceModel) -> bool {
    &&& r.list.edit_base matches Some(b) ==> b == r.base_path
    &&& r.form matches Some(f) ==> f.base_path == r.base_path
}

/// Moving a resource keeps its links with it: where its rows and its form stood at
/// its own path, they stand at the new one.
pub proof fn law_links_move_with_the_resource(
    base: Seq<char>,
    admin: Seq<char>,
    r: ResourceModel,
)
    requires
        links_home(r),
    ensures
        links_home(rebased(base, r)),
        links_home(prefixed(admin, r)),
        links_home(prefixed(admin, rebased(base, r))),
        prefixed(admin, rebased(base, r)).base_path == admin + base,
{
}

// --------------------------------------------------------------------- built-in
/// The list of backend users.
pub open spec fn users_list() -> ListModel {
    ListModel {
        entity: "backend_users"@,
        title: plain("Backend Users"@),
        columns: seq![
            column("username"@, "Username"@),
            column("email"@, "Email"@),
            column("first_name"@, "First name"@),
            column("last_name"@, "Last name"@),
            ColumnModel {
                column_type: "boolean"@,
                ..column("is_superuser"@, "Superuser"@)
            },
            ColumnModel { column_type: "boolean"@, ..column("is_active"@, "Active"@) },
            ColumnModel { column_type: "datetime"@, ..column("created_at"@, "Created"@) },
        ],
        order_by: "created_at"@,
        edit_base: Some("/users"@),
        filters: seq![
            FilterModel {
                field: "is_active"@,
                label: plain("Active"@),
                kind: KindModel::Boolean,
            },
            FilterModel {
                field: "is_superuser"@,
                label: plain("Superuser"@),
                kind: KindModel::Boolean,
            },
        ],
        ..default_list()
    }
}

/// The list of roles.
pub open spec fn roles_list() -> ListModel {
    ListModel {
        entity: "backend_roles"@,
        title: plain("Roles"@),
        columns: seq![
            column("code"@, "Code"@),
            column("name"@, "Name"@),
            ColumnModel { column_type: "datetime"@, ..column("created_at"@, "Created"@) },
        ],
        order_by: "created_at"@,
        edit_base: Some("/roles"@),
        creatable: true,
        deletable: true,
        ..default_list()
    }
}

/// The audit log.
pub open spec fn audit_list() -> ListModel {
    ListModel {
        entity: "backend_audit_log"@,
        title: plain("Audit Log"@),
        columns: seq![
            ColumnModel { column_type: "datetime"@, ..column("created_at"@, "When"@) },
            column("actor_username"@, "Operator"@),
            column("action"@, "Action"@),
            column("target_type"@, "Target"@),
            column("target_id"@, "Target ID"@),
        ],
        order_by: "created_at"@,
        per_page: 50,
        exportable: true,
        ..default_list()
    }
}

/// The list of backend users. Rows link to the per-user permission editor; users are
/// created from the command line or first-run setup, so there is no New link, and
/// deactivating one is the reversible equivalent of removing it.
pub fn backend_users_list_config() -> (r: ListConfig)
    ensures
        r@ == users_list(),
{
    let mut columns: Vec<ListColumn> = Vec::new();
    columns.push(ListColumn::new("username", "Username"));
    columns.push(ListColumn::new("email", "Email"));
    columns.push(ListColumn::new("first_name", "First name"));
    columns.push(ListColumn::new("last_name", "Last name"));
    columns.push(ListColumn::new("is_superuser", "Superuser").yes_no());
    columns.push(ListColumn::new("is_active", "Active").yes_no());
    columns.push(ListColumn::new("created_at", "Created").datetime());
    let mut filters: Vec<ListFilter> = Vec::new();
    filters.push(ListFilter::boolean("is_active", "Active"));
    filters.push(ListFilter::boolean("is_superuser", "Superuser"));
    let mut r: ListConfig = ListConfig::default();
    r.entity = "backend_users".to_owned();
    r.title = Text::new("Backend Users");
    r.columns = columns;
    r.order_by = "created_at".to_owned();
    r.edit_base = Some("/users".to_owned());
    r.filters = filters;
    assert(r.columns.deep_view() =~= users_list().columns);
    assert(r.filters.deep_view() =~= users_list().filters);
    r
}

/// The list of roles.
pub fn roles_list_config() -> (r: ListConfig)
    ensures
        r@ == roles_list(),
{
    let mut columns: Vec<ListColumn> = Vec::new();
    columns.push(ListColumn::new("code", "Code"));
    columns.push(ListColumn::new("name", "Name"));
    columns.push(ListColumn::new("created_at", "Created").datetime());
    let mut r: ListConfig = ListConfig::default();
    r.entity = "backend_roles".to_owned();
    r.title = Text::new("Roles");
    r.columns = columns;
    r.order_by = "created_at".to_owned();
    r.edit_base = Some("/roles".to_owned());
    r.creatable = true;
    r.deletable = true;
    assert(r.columns.deep_view() =~= roles_list().columns);
    r
}

/// The recorded administrative changes, newest first. The log is evidence: it can
/// leave the panel for an auditor, but nothing removes from it here.
pub fn audit_log_list_config() -> (r: ListConfig)
    ensures
        r@ == audit_list(),
{
    let mut columns: Vec<ListColumn> = Vec::new();
    columns.push(ListColumn::new("created_at", "When").datetime());
    columns.push(ListColumn::new("actor_username", "Operator"));
    columns.push(ListColumn::new("action", "Action"));
    columns.push(ListColumn::new("target_type", "Target"));
    columns.push(ListColumn::new("target_id", "Target ID"));
    let mut r: ListConfig = ListConfig::default();
    r.entity = "backend_audit_log".to_owned();
    r.title = Text::new("Audit Log");
    r.columns = columns;
    r.order_by = "created_at".to_owned();
    r.per_page = 50;
    r.exportable = true;
    assert(r.columns.deep_view() =~= audit_list().columns);
    r
}

/// The framework's own screens.
pub open spec fn builtin_resource_models() -> Seq<ResourceModel> {
    seq![
        ResourceModel {
            base_path: "/users"@,
            nav_label: plain("Backend Users"@),
            list: users_list(),
            form: None,
            permission: Some("backend.manage_users"@),
        },
        ResourceModel {
            base_path: "/roles"@,
            nav_label: plain("Roles"@),
            list: roles_list(),
            form: None,
            permission: Some("backend.manage_roles"@),
        },
        ResourceModel {
            base_path: "/audit-log"@,
            nav_label: plain("Audit Log"@),
            list: audit_list(),
            form: None,
            permission: Some("backend.view_audit_log"@),
        },
    ]
}

/// The framework's own screens. The roles' form is the dedicated permission editor,
/// mounted separately; the audit log is append-only and has none.
pub fn builtin_resources() -> (r: Vec<Resource>)
    ensures
        r.deep_view() == builtin_resource_models(),
{
    let mut r: Vec<Resource> = Vec::new();
    r.push(
        Resource::new("/users", Text::new("Backend Users"), backend_users_list_config()).permission(
            "backend.manage_users",
        ),
    );
    r.push(
        Resource::new("/roles", Text::new("Roles"), roles_list_config()).permission(
            "backend.manage_roles",
        ),
    );
    r.push(
        Resource::new("/audit-log", Text::new("Audit Log"), audit_log_list_config()).permission(
            "backend.view_audit_log",
        ),
    );
    assert(r.deep_view() =~= builtin_resource_models());
    r
}

/// None of the framework's own screens is open to every operator.
pub proof fn law_every_builtin_screen_is_guarded(i: int)
    requires
        0 <= i < builtin_resource_models().len(),
    ensures
        builtin_resource_models()[i].permission is Some,
        builtin_resource_models()[i].form is None,
{
}

} // verus!
