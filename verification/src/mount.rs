//! The routes a resource mounts, and who may reach each of them.

use vstd::prelude::*;
use vstd::string::StringExecFns;

use crate::access::{allowed, PermissionSet, PermissionSetModel};
use crate::cells::{check, first_unregistered};
use crate::contributed::{FieldTypes, FieldTypesModel};
use crate::form::{form_prepared, ChoiceModel, PersisterChoice, PreparedForm, PreparedModel};
use crate::list::{ListConfig, ListModel};
use crate::list_query::field_names;
use crate::list_view::{law_new_leads_below_the_edit_base, mounted_toolbar};
use crate::persist::{DefaultPersister, PersisterModel};
use crate::resource::{prefixed, Resource, ResourceModel};
use crate::strs::{cat, cat3, cat4, listed};

verus! {

/// How a route answers.
#[derive(Clone, Copy, Debug, PartialEq, Eq, Structural)]
pub enum Verbs {
    Get,
    Post,
    GetAndPost,
    /// Every method; the handler itself refuses all but one.
    Any,
    /// The routes of its own that a module mounts below the path.
    Nested,
}

/// What a route shows or does. A number is the position of the resource, the screen,
/// the settings item or the public route it belongs to.
#[derive(Clone, Copy, Debug, PartialEq, Eq, Structural)]
pub enum Handler {
    Dashboard,
    List(usize),
    Export(usize),
    Columns(usize),
    Delete(usize),
    New(usize),
    Edit(usize),
    Contributed(usize),
    RoleNew,
    RoleEdit,
    UserEdit,
    UserActive,
    Plugins,
    PluginToggle,
    SettingsIndex,
    Preferences,
    SessionRevoke,
    SessionRevokeOthers,
    PickerSearch,
    PickerResolve,
    Logout,
    SettingsForm(usize),
    Login,
    Setup,
    Asset,
    PublicRoute(usize),
}

/// Who may reach a route.
#[derive(Debug)]
pub enum Guard {
    /// Anyone.
    Open,
    /// A signed-in operator.
    SignedIn,
    /// A signed-in operator who holds a permission.
    Holding(String),
}

/// A [`Guard`], over characters.
pub enum GuardModel {
    Open,
    SignedIn,
    Holding(Seq<char>),
}

impl DeepView for Guard {
    type V = GuardModel;

    open spec fn deep_view(&self) -> GuardModel {
        match self {
            Guard::Open => GuardModel::Open,
            Guard::SignedIn => GuardModel::SignedIn,
            Guard::Holding(p) => GuardModel::Holding(p@),
        }
    }
}

/// One route of the panel.
#[derive(Debug)]
pub struct Route {
    pub path: String,
    pub verbs: Verbs,
    pub guard: Guard,
    pub handler: Handler,
}

/// A [`Route`], over characters.
pub struct RouteModel {
    pub path: Seq<char>,
    pub verbs: Verbs,
    pub guard: GuardModel,
    pub handler: Handler,
}

impl DeepView for Route {
    type V = RouteModel;

    open spec fn deep_view(&self) -> RouteModel {
        RouteModel {
            path: self.path@,
            verbs: self.verbs,
            guard: self.guard.deep_view(),
            handler: self.handler,
        }
    }
}

/// The guard of what an optional permission protects.
pub open spec fn guard_of(permission: Option<Seq<char>>) -> GuardModel {
    match permission {
        Some(p) => GuardModel::Holding(p),
        None => GuardModel::SignedIn,
    }
}

/// The guard of what an optional permission protects.
pub(crate) fn guard_for(permission: &Option<String>) -> (r: Guard)
    ensures
        r.deep_view() == guard_of(permission.deep_view()),
{
    match permission {
        Some(p) => Guard::Holding(p.clone()),
        None => Guard::SignedIn,
    }
}

/// Whether a guard lets a request through: `operator` is what the signed-in operator
/// holds, absent where nobody is signed in.
pub open spec fn admits(guard: GuardModel, operator: Option<PermissionSetModel>) -> bool {
    match guard {
        GuardModel::Open => true,
        GuardModel::SignedIn => operator is Some,
        GuardModel::Holding(p) => operator is Some && allowed(operator->0, p),
    }
}

/// Whether a guard lets a signed-in operator through. Signing in comes first, so
/// nobody who is not signed in is asked.
pub fn permits(guard: &Guard, operator: &PermissionSet) -> (r: bool)
    ensures
        r == admits(guard.deep_view(), Some(operator@)),
{
    match guard {
        Guard::Open => true,
        Guard::SignedIn => true,
        Guard::Holding(p) => operator.allows(p.as_str()),
    }
}

// ------------------------------------------------------------------- a resource
/// A route of a resource.
pub open spec fn resource_route(
    r: ResourceModel,
    tail: Seq<char>,
    verbs: Verbs,
    handler: Handler,
) -> RouteModel {
    RouteModel { path: r.base_path + tail, verbs, guard: guard_of(r.permission), handler }
}

/// The routes a resource mounts: the list and its column choice always, the others
/// only where it has opted in, so that no capability is reached by guessing a URL.
pub open spec fn resource_routes(r: ResourceModel, i: usize) -> Seq<RouteModel> {
    let list = seq![
        RouteModel {
            path: r.base_path,
            verbs: Verbs::Get,
            guard: guard_of(r.permission),
            handler: Handler::List(i),
        },
    ];
    let export = if r.list.exportable {
        seq![resource_route(r, "/export"@, Verbs::Get, Handler::Export(i))]
    } else {
        Seq::empty()
    };
    let columns = seq![resource_route(r, "/columns"@, Verbs::Post, Handler::Columns(i))];
    let removal = if r.list.deletable {
        seq![resource_route(r, "/delete"@, Verbs::Post, Handler::Delete(i))]
    } else {
        Seq::empty()
    };
    let form = if r.form is Some {
        seq![
            resource_route(r, "/new"@, Verbs::GetAndPost, Handler::New(i)),
            resource_route(r, "/{id}/edit"@, Verbs::GetAndPost, Handler::Edit(i)),
        ]
    } else {
        Seq::empty()
    };
    list + export + columns + removal + form
}

/// Who deletes a resource's rows: the form's persister where it names one, otherwise
/// one over the list's own table.
pub open spec fn deleter(r: ResourceModel) -> ChoiceModel {
    match named_persister(r) {
        Some(key) => ChoiceModel::Named(key),
        None => ChoiceModel::Default(
            PersisterModel {
                entity: r.list.entity,
                id_field: r.list.id_field,
                columns: field_names(r.list.columns),
            },
        ),
    }
}

/// The persister a resource's form names.
pub open spec fn named_persister(r: ResourceModel) -> Option<Seq<char>> {
    match r.form {
        Some(f) => f.persist,
        None => None,
    }
}

/// A resource, mounted.
pub struct Mounted {
    /// Where the resource stands.
    pub base_path: String,
    pub list: ListConfig,
    pub routes: Vec<Route>,
    /// The form with its fields resolved, where there is one.
    pub form: Option<PreparedForm>,
    /// Who deletes the selected rows, where the list allows it.
    pub deleter: Option<PersisterChoice>,
}

/// A [`Mounted`], over characters.
pub struct MountedModel {
    pub base_path: Seq<char>,
    pub list: ListModel,
    pub routes: Seq<RouteModel>,
    pub form: Option<PreparedModel>,
    pub deleter: Option<ChoiceModel>,
}

impl DeepView for Mounted {
    type V = MountedModel;

    open spec fn deep_view(&self) -> MountedModel {
        MountedModel {
            base_path: self.base_path@,
            list: self.list@,
            routes: self.routes.deep_view(),
            form: self.form.deep_view(),
            deleter: self.deleter.deep_view(),
        }
    }
}

/// What is registered that a resource can name.
pub struct Registries {
    pub column_types: Vec<String>,
    pub types: FieldTypes,
    pub pickers: Vec<String>,
    pub persisters: Vec<String>,
}

/// A [`Registries`], over characters.
pub struct RegistriesModel {
    pub column_types: Seq<Seq<char>>,
    pub types: FieldTypesModel,
    pub pickers: Seq<Seq<char>>,
    pub persisters: Seq<Seq<char>>,
}

impl View for Registries {
    type V = RegistriesModel;

    open spec fn view(&self) -> RegistriesModel {
        RegistriesModel {
            column_types: self.column_types.deep_view(),
            types: self.types@,
            pickers: self.pickers.deep_view(),
            persisters: self.persisters.deep_view(),
        }
    }
}

/// A refusal to mount a resource.
pub open spec fn mount_refusal(base: Seq<char>, why: Seq<char>) -> Seq<char> {
    "admin resource `"@ + base + "`: "@ + why
}

/// The refusal of a write resource that anyone signed in could reach.
pub open spec fn unguarded_refusal(base: Seq<char>) -> Seq<char> {
    "admin resource `"@ + base
        + "` has a create/edit form but no permission; a write resource must declare a permission"@
}

/// A resource mounted, or why it cannot be.
pub open spec fn mounted(r: ResourceModel, i: usize, known: RegistriesModel) -> Result<
    MountedModel,
    Seq<char>,
> {
    match first_unregistered(r.list.columns, known.column_types) {
        Some(c) => Err(
            mount_refusal(
                r.base_path,
                "column `"@ + c.field + "` uses unregistered type `"@ + c.column_type + "`"@,
            ),
        ),
        None => if r.form is Some && r.permission is None {
            Err(unguarded_refusal(r.base_path))
        } else if r.list.deletable && named_persister(r) is Some && !known.persisters.contains(
            named_persister(r)->0,
        ) {
            Err(
                mount_refusal(
                    r.base_path,
                    "unregistered persister `"@ + named_persister(r)->0 + "`"@,
                ),
            )
        } else {
            let removal = if r.list.deletable {
                Some(deleter(r))
            } else {
                None
            };
            match r.form {
                None => Ok(
                    MountedModel {
                        base_path: r.base_path,
                        list: r.list,
                        routes: resource_routes(r, i),
                        form: None,
                        deleter: removal,
                    },
                ),
                Some(f) => match form_prepared(f, known.types, known.pickers, known.persisters) {
                    Err(e) => Err(mount_refusal(r.base_path, e)),
                    Ok(form) => Ok(
                        MountedModel {
                            base_path: r.base_path,
                            list: r.list,
                            routes: resource_routes(r, i),
                            form: Some(form),
                            deleter: removal,
                        },
                    ),
                },
            }
        },
    }
}

/// A route of a resource.
fn route_of(resource: &Resource, tail: &str, verbs: Verbs, handler: Handler) -> (r: Route)
    ensures
        r.deep_view() == resource_route(resource.deep_view(), tail@, verbs, handler),
{
    Route {
        path: cat(resource.base_path.as_str(), tail),
        verbs,
        guard: guard_for(&resource.permission),
        handler,
    }
}

/// The routes a resource mounts.
fn routes_of(resource: &Resource, i: usize) -> (r: Vec<Route>)
    ensures
        r.deep_view() == resource_routes(resource.deep_view(), i),
{
    let mut r: Vec<Route> = Vec::new();
    r.push(
        Route {
            path: resource.base_path.clone(),
            verbs: Verbs::Get,
            guard: guard_for(&resource.permission),
            handler: Handler::List(i),
        },
    );
    if resource.list.exportable {
        r.push(route_of(resource, "/export", Verbs::Get, Handler::Export(i)));
    }
    r.push(route_of(resource, "/columns", Verbs::Post, Handler::Columns(i)));
    if resource.list.deletable {
        r.push(route_of(resource, "/delete", Verbs::Post, Handler::Delete(i)));
    }
    if resource.form.is_some() {
        r.push(route_of(resource, "/new", Verbs::GetAndPost, Handler::New(i)));
        r.push(route_of(resource, "/{id}/edit", Verbs::GetAndPost, Handler::Edit(i)));
    }
    assert(r.deep_view() =~= resource_routes(resource.deep_view(), i));
    r
}

/// A refusal to mount a resource.
fn refuse(base: &str, why: &str) -> (r: String)
    ensures
        r@ == mount_refusal(base@, why@),
{
    cat4("admin resource `", base, "`: ", why)
}

/// Builds a resource's list, create and edit routes, each guarded by its permission
/// where it sets one. A column or a field of a type nobody registered, a form that
/// no permission guards, and a persister nobody registered refuse the boot.
pub fn mount_resource(resource: Resource, i: usize, known: &Registries) -> (r: Result<
    Mounted,
    String,
>)
    ensures
        match mounted(resource.deep_view(), i, known@) {
            Ok(m) => r is Ok && (r->Ok_0).deep_view() == m,
            Err(e) => r is Err && (r->Err_0)@ == e,
        },
{
    let ghost m = resource.deep_view();
    match check(&resource.list.columns, &known.column_types) {
        Err(e) => {
            return Err(refuse(resource.base_path.as_str(), e.as_str()));
        },
        Ok(()) => {},
    }
    if resource.form.is_some() && resource.permission.is_none() {
        return Err(
            cat3(
                "admin resource `",
                resource.base_path.as_str(),
                "` has a create/edit form but no permission; a write resource must declare a permission",
            ),
        );
    }
    let mut removal: Option<PersisterChoice> = None;
    if resource.list.deletable {
        let key: Option<&str> = match &resource.form {
            Some(f) => match &f.persist {
                Some(k) => Some(k.as_str()),
                None => None,
            },
            None => None,
        };
        match key {
            Some(k) => {
                if !listed(&known.persisters, k) {
                    let why: String = cat3("unregistered persister `", k, "`");
                    return Err(refuse(resource.base_path.as_str(), why.as_str()));
                }
                removal = Some(PersisterChoice::Named(k.to_owned()));
            },
            None => {
                removal = Some(
                    PersisterChoice::Default(DefaultPersister::from_list(&resource.list)),
                );
            },
        }
    }
    let routes: Vec<Route> = routes_of(&resource, i);
    let base_path: String = resource.base_path;
    let list: ListConfig = resource.list;
    match resource.form {
        None => Ok(Mounted { base_path, list, routes, form: None, deleter: removal }),
        Some(config) => {
            match PreparedForm::prepare(config, &known.types, &known.pickers, &known.persisters) {
                Err(e) => Err(refuse(base_path.as_str(), e.as_str())),
                Ok(form) => Ok(
                    Mounted { base_path, list, routes, form: Some(form), deleter: removal },
                ),
            }
        },
    }
}

/// A write resource is never mounted without a permission, and every route of a
/// resource with one answers only those who hold it.
pub proof fn law_a_write_resource_is_guarded(
    r: ResourceModel,
    i: usize,
    known: RegistriesModel,
    k: int,
)
    requires
        mounted(r, i, known) is Ok,
        0 <= k < mounted(r, i, known)->Ok_0.routes.len(),
    ensures
        r.form is Some ==> r.permission is Some,
        r.permission matches Some(p) ==> mounted(r, i, known)->Ok_0.routes[k].guard
            == GuardModel::Holding(p),
        r.permission is None ==> mounted(r, i, known)->Ok_0.routes[k].guard == GuardModel::SignedIn,
{
}

/// What a resource has not opted into has no route.
pub proof fn law_no_capability_without_opting_in(
    r: ResourceModel,
    i: usize,
    known: RegistriesModel,
    k: int,
)
    requires
        mounted(r, i, known) is Ok,
        0 <= k < mounted(r, i, known)->Ok_0.routes.len(),
    ensures
        !r.list.exportable ==> mounted(r, i, known)->Ok_0.routes[k].handler != Handler::Export(i),
        !r.list.deletable ==> mounted(r, i, known)->Ok_0.routes[k].handler != Handler::Delete(i),
        r.form is None ==> mounted(r, i, known)->Ok_0.routes[k].handler != Handler::New(i)
            && mounted(r, i, known)->Ok_0.routes[k].handler != Handler::Edit(i),
{
}

/// The toolbar's New button leads to the route that creates a record, wherever the
/// panel is mounted.
pub proof fn law_new_leads_to_the_create_route(
    admin: Seq<char>,
    r: ResourceModel,
    i: usize,
    known: RegistriesModel,
    perms: PermissionSetModel,
    tr: Seq<(Seq<char>, Seq<char>)>,
    icons: Seq<Seq<char>>,
    sprite: Seq<char>,
)
    requires
        r.list.creatable,
        r.list.edit_base == Some(r.base_path),
        r.form is Some,
        mounted(prefixed(admin, r), i, known) is Ok,
    ensures
        ({
            let m = mounted(prefixed(admin, r), i, known)->Ok_0;
            let toolbar = mounted_toolbar(m.list, admin, perms, tr, icons, sprite);
            &&& toolbar.len() > 0
            &&& exists|k: int|
                0 <= k < m.routes.len() && (#[trigger] m.routes[k]).handler == Handler::New(i)
                    && m.routes[k].path == toolbar[0].href
        }),
{
    let p = prefixed(admin, r);
    let m = mounted(p, i, known)->Ok_0;
    law_new_leads_below_the_edit_base(m.list, admin, r.base_path, perms, tr, icons, sprite);
    let k = m.routes.len() - 2;
    assert(m.routes[k] == resource_route(p, "/new"@, Verbs::GetAndPost, Handler::New(i)));
}

} // verus!
