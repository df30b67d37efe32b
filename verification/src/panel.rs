//! The panel put together: its configuration, what the modules contribute, the menu,
//! and the table of every route with who may reach it.

use vstd::prelude::*;

use crate::access::{
    builtin_permission_models, with_builtin, Permission, PermissionModel, PermissionSetModel,
};
use crate::assets::{
    asset_path, asset_urls, builtin_asset_types, builtin_assets, file_bytes, files_model,
    AdminAsset, AssetModel, ICON_SPRITE,
};
use crate::cells::{builtin_column_keys, builtin_column_registry};
use crate::clientip::{networks, parse_trusted};
use crate::contributed::{FieldTypes, FieldTypesModel, TypeAnswer, TypeAnswerModel};
use crate::field::{builtin_input_registry, is_name, named, InputType, LeafKind};
use crate::field_view::{builtin_field_types, kind_key, FieldKind};
use crate::icons::{require, IconSet};
use crate::list_view::{law_new_leads_below_the_edit_base, mounted_toolbar};
use crate::locale::{base_of, default_locale, serves};
use crate::mount::{
    mount_resource, mounted, Guard, GuardModel, Handler, Mounted, MountedModel, Registries,
    RegistriesModel, Route, RouteModel, Verbs,
};
use crate::nav::{NavLink, NavModel};
use crate::picker::{PickerSourceReg, SourceModel};
use crate::resource::{
    builtin_resource_models, builtin_resources, prefix_resource, prefixed, roles_list, Resource,
    ResourceModel,
};
use crate::routes::{PublicRouteReg, ScreenModel, ScreenReg};
use crate::settings::{
    builtin_settings, builtin_settings_models, item_route, ItemModel, SettingsItem,
};
use crate::strs::{
    cat, cat3, lemma_strip_idempotent, listed, only, spaces, strip, strip_end, strip_start, trim,
    trim_end_matches, trim_start_matches, trimmed,
};
use crate::text::{plain, Text, TextModel};
use crate::zones::{configured_zone, display_zone};

verus! {

// ---------------------------------------------------------------- configuration
/// Deployment-level admin settings. Build one with `Default` and set fields, so a
/// field added later is additive.
#[non_exhaustive]
pub struct AdminConfig {
    /// Set the `Secure` attribute on the session cookie. Enable behind HTTPS.
    pub secure_cookie: bool,
    /// Networks whose forwarding header may be believed. Empty trusts nothing.
    pub trusted_proxies: Vec<String>,
    /// Default display timezone (an IANA name). Invalid or empty falls back to UTC.
    pub timezone: String,
    /// Default UI locale (a base tag like `en` or `de`).
    pub locale: String,
    /// The application name, shown as the admin brand. Empty falls back to
    /// `Laterite`.
    pub app_name: String,
    /// The URL path the panel is mounted under.
    pub path: String,
    /// The public origin the panel is served from, for the origin check. Empty falls
    /// back to the request's host.
    pub origin: String,
}

impl Default for AdminConfig {
    fn default() -> (r: AdminConfig)
        ensures
            !r.secure_cookie,
            r.trusted_proxies.deep_view() == Seq::<Seq<char>>::empty(),
            r.timezone@ == "UTC"@,
            r.locale@ == "en"@,
            r.app_name@ == "Laterite"@,
            r.path@ == "/admin"@,
            r.origin@ == Seq::<char>::empty(),
    {
        let trusted_proxies: Vec<String> = Vec::new();
        assert(trusted_proxies.deep_view() =~= Seq::<Seq<char>>::empty());
        AdminConfig {
            secure_cookie: false,
            trusted_proxies,
            timezone: "UTC".to_owned(),
            locale: "en".to_owned(),
            app_name: "Laterite".to_owned(),
            path: "/admin".to_owned(),
            origin: String::new(),
        }
    }
}

/// A configured admin path, normalised.
pub open spec fn mount_path(path: Seq<char>) -> Seq<char> {
    let inner = strip(trimmed(path), only('/'));
    if inner.len() == 0 {
        "/admin"@
    } else {
        "/"@ + inner
    }
}

/// Normalises a configured admin path: a single leading slash, no trailing slash,
/// falling back to `/admin` when empty. `manage`, `/manage`, and `/manage/` all
/// become `/manage`.
pub fn normalize_path(path: &str) -> (r: String)
    ensures
        r@ == mount_path(path@),
{
    let inner: &str = trim_end_matches(trim_start_matches(trim(path), '/'), '/');
    if inner.is_empty() {
        "/admin".to_owned()
    } else {
        cat("/", inner)
    }
}

/// A mount path has one slash at its front and none at its end.
pub proof fn law_a_mount_path_is_normal(path: Seq<char>)
    ensures
        mount_path(path).len() > 1,
        mount_path(path)[0] == '/',
        mount_path(path)[1] != '/',
        mount_path(path).last() != '/',
{
    reveal_strlit("/");
    reveal_strlit("/admin");
    lemma_strip_idempotent(trimmed(path), only('/'));
}

/// Normalising a path twice is the same as once, but where the path ends in white
/// space before its closing slashes.
pub proof fn law_normalising_settles(path: Seq<char>)
    requires
        strip(trimmed(path), only('/')).len() > 0 ==> !crate::strs::is_space(
            strip(trimmed(path), only('/')).last(),
        ),
    ensures
        mount_path(mount_path(path)) == mount_path(path),
{
    let slash = only('/');
    let inner = strip(trimmed(path), slash);
    let once = mount_path(path);
    reveal_strlit("/");
    reveal_strlit("/admin");
    lemma_strip_idempotent(trimmed(path), slash);
    // The normal path has no white space at either end.
    assert(once[0] == '/');
    assert(!spaces()(once[0]));
    if inner.len() > 0 {
        assert(once.last() == inner.last());
    } else {
        assert(once.last() == 'n');
    }
    assert(!spaces()(once.last()));
    assert(strip_start(once, spaces()) == once);
    assert(trimmed(once) == once);
    // Its only outer slash is the first character.
    let body = once.drop_first();
    assert(!slash(body[0]));
    assert(strip_start(once, slash) == strip_start(body, slash));
    assert(strip_start(body, slash) == body);
    assert(body.last() == once.last());
    assert(!slash(body.last()));
    assert(strip(once, slash) == body);
    assert("/"@ + body =~= once);
}

// ------------------------------------------------------------------ contributions
/// Everything the modules and the application contribute to the admin, in one value.
pub struct Contributions {
    /// List and form screens, mounted beside the framework's own.
    pub resources: Vec<Resource>,
    /// Settings models, offered in the settings area.
    pub settings: Vec<SettingsItem>,
    /// Permissions defined by the application, offered in the role editor.
    pub permissions: Vec<Permission>,
    /// Sources a reference field searches and resolves against.
    pub picker_sources: Vec<PickerSourceReg>,
    /// Named write handlers a form can select.
    pub persisters: Vec<String>,
    /// Field types a module contributes, by name.
    pub field_types: Vec<String>,
    /// What those types made of the options their fields give them.
    pub type_answers: Vec<TypeAnswer>,
    /// Column types a list cell can render through, by name.
    pub column_types: Vec<String>,
    /// Screens a module mounts itself, for anything that is not a list or form.
    pub screens: Vec<ScreenReg>,
    /// Routes mounted outside the admin, at literal paths.
    pub public_routes: Vec<PublicRouteReg>,
}

/// A [`Contributions`], over characters.
pub struct ContributionsModel {
    pub resources: Seq<ResourceModel>,
    pub settings: Seq<ItemModel>,
    pub permissions: Seq<PermissionModel>,
    pub picker_sources: Seq<SourceModel>,
    pub persisters: Seq<Seq<char>>,
    pub field_types: Seq<Seq<char>>,
    pub type_answers: Seq<TypeAnswerModel>,
    pub column_types: Seq<Seq<char>>,
    pub screens: Seq<ScreenModel>,
    pub public_routes: Seq<Seq<char>>,
}

impl DeepView for PublicRouteReg {
    type V = Seq<char>;

    open spec fn deep_view(&self) -> Seq<char> {
        self.path@
    }
}

impl View for Contributions {
    type V = ContributionsModel;

    open spec fn view(&self) -> ContributionsModel {
        ContributionsModel {
            resources: self.resources.deep_view(),
            settings: self.settings.deep_view(),
            permissions: self.permissions.deep_view(),
            picker_sources: self.picker_sources.deep_view(),
            persisters: self.persisters.deep_view(),
            field_types: self.field_types.deep_view(),
            type_answers: self.type_answers.deep_view(),
            column_types: self.column_types.deep_view(),
            screens: self.screens.deep_view(),
            public_routes: self.public_routes.deep_view(),
        }
    }
}

/// Nothing contributed.
pub open spec fn no_contributions() -> ContributionsModel {
    ContributionsModel {
        resources: Seq::empty(),
        settings: Seq::empty(),
        permissions: Seq::empty(),
        picker_sources: Seq::empty(),
        persisters: Seq::empty(),
        field_types: Seq::empty(),
        type_answers: Seq::empty(),
        column_types: Seq::empty(),
        screens: Seq::empty(),
        public_routes: Seq::empty(),
    }
}

impl Default for Contributions {
    fn default() -> (r: Contributions)
        ensures
            r@ == no_contributions(),
    {
        let r: Contributions = Contributions {
            resources: Vec::new(),
            settings: Vec::new(),
            permissions: Vec::new(),
            picker_sources: Vec::new(),
            persisters: Vec::new(),
            field_types: Vec::new(),
            type_answers: Vec::new(),
            column_types: Vec::new(),
            screens: Vec::new(),
            public_routes: Vec::new(),
        };
        proof {
            let m = no_contributions();
            assert(r@.resources =~= m.resources);
            assert(r@.settings =~= m.settings);
            assert(r@.permissions =~= m.permissions);
            assert(r@.picker_sources =~= m.picker_sources);
            assert(r@.persisters =~= m.persisters);
            assert(r@.field_types =~= m.field_types);
            assert(r@.type_answers =~= m.type_answers);
            assert(r@.column_types =~= m.column_types);
            assert(r@.screens =~= m.screens);
            assert(r@.public_routes =~= m.public_routes);
        }
        r
    }
}

/// What a module adds to the panel as it registers.
pub trait AdminRegistry {
    /// Adds an admin resource.
    fn add_resource(&mut self, resource: Resource);

    /// Adds a permission, offered in the role editor.
    fn add_permission(&mut self, permission: Permission);

    /// Adds a settings item.
    fn add_settings(&mut self, item: SettingsItem);

    /// Adds a source that reference fields pick from.
    fn add_picker_source(&mut self, source: PickerSourceReg);

    /// Adds a persister, by the name a form asks for it by.
    fn add_persister(&mut self, persister: String);

    /// Adds a field type, by its name.
    fn add_field_type(&mut self, field_type: String);

    /// Adds a screen of the module's own.
    fn add_screen(&mut self, screen: ScreenReg);

    /// Adds a route outside the panel.
    fn add_public_route(&mut self, route: PublicRouteReg);
}

impl AdminRegistry for Contributions {
    fn add_resource(&mut self, resource: Resource)
        ensures
            final(self)@ == (ContributionsModel {
                resources: old(self)@.resources.push(resource.deep_view()),
                ..old(self)@
            }),
    {
        let ghost before = self.resources.deep_view();
        let ghost added = resource.deep_view();
        self.resources.push(resource);
        assert(self.resources.deep_view() =~= before.push(added));
    }

    fn add_permission(&mut self, permission: Permission)
        ensures
            final(self)@ == (ContributionsModel {
                permissions: old(self)@.permissions.push(permission.deep_view()),
                ..old(self)@
            }),
    {
        let ghost before = self.permissions.deep_view();
        let ghost added = permission.deep_view();
        self.permissions.push(permission);
        assert(self.permissions.deep_view() =~= before.push(added));
    }

    fn add_settings(&mut self, item: SettingsItem)
        ensures
            final(self)@ == (ContributionsModel {
                settings: old(self)@.settings.push(item.deep_view()),
                ..old(self)@
            }),
    {
        let ghost before = self.settings.deep_view();
        let ghost added = item.deep_view();
        self.settings.push(item);
        assert(self.settings.deep_view() =~= before.push(added));
    }

    fn add_picker_source(&mut self, source: PickerSourceReg)
        ensures
            final(self)@ == (ContributionsModel {
                picker_sources: old(self)@.picker_sources.push(source.deep_view()),
                ..old(self)@
            }),
    {
        let ghost before = self.picker_sources.deep_view();
        let ghost added = source.deep_view();
        self.picker_sources.push(source);
        assert(self.picker_sources.deep_view() =~= before.push(added));
    }

    fn add_persister(&mut self, persister: String)
        ensures
            final(self)@ == (ContributionsModel {
                persisters: old(self)@.persisters.push(persister@),
                ..old(self)@
            }),
    {
        let ghost before = self.persisters.deep_view();
        let ghost added = persister@;
        self.persisters.push(persister);
        assert(self.persisters.deep_view() =~= before.push(added));
    }

    fn add_field_type(&mut self, field_type: String)
        ensures
            final(self)@ == (ContributionsModel {
                field_types: old(self)@.field_types.push(field_type@),
                ..old(self)@
            }),
    {
        let ghost before = self.field_types.deep_view();
        let ghost added = field_type@;
        self.field_types.push(field_type);
        assert(self.field_types.deep_view() =~= before.push(added));
    }

    fn add_screen(&mut self, screen: ScreenReg)
        ensures
            final(self)@ == (ContributionsModel {
                screens: old(self)@.screens.push(screen.deep_view()),
                ..old(self)@
            }),
    {
        let ghost before = self.screens.deep_view();
        let ghost added = screen.deep_view();
        self.screens.push(screen);
        assert(self.screens.deep_view() =~= before.push(added));
    }

    fn add_public_route(&mut self, route: PublicRouteReg)
        ensures
            final(self)@ == (ContributionsModel {
                public_routes: old(self)@.public_routes.push(route.path@),
                ..old(self)@
            }),
    {
        let ghost before = self.public_routes.deep_view();
        let ghost added = route.path@;
        self.public_routes.push(route);
        assert(self.public_routes.deep_view() =~= before.push(added));
    }
}

// --------------------------------------------------------------------- registries
/// The names a registry holds after some contributions to it: the first bad or
/// duplicate name refuses them.
pub open spec fn registered_names(
    seeded: Seq<Seq<char>>,
    added: Seq<Seq<char>>,
    what: Seq<char>,
) -> Result<Seq<Seq<char>>, Seq<char>>
    decreases added.len(),
{
    if added.len() == 0 {
        Ok(seeded)
    } else {
        match registered_names(seeded, added.drop_last(), what) {
            Err(e) => Err(e),
            Ok(names) => if !named(added.last(), true) {
                Err("invalid "@ + what + " name `"@ + added.last() + "`"@)
            } else if names.contains(added.last()) {
                Err("duplicate "@ + what + " `"@ + added.last() + "`"@)
            } else {
                Ok(names.push(added.last()))
            },
        }
    }
}

/// A refusal among the first names is the refusal of them all.
proof fn lemma_registry_refused(
    seeded: Seq<Seq<char>>,
    added: Seq<Seq<char>>,
    what: Seq<char>,
    n: int,
)
    requires
        0 <= n <= added.len(),
        registered_names(seeded, added.take(n), what) is Err,
    ensures
        registered_names(seeded, added, what) == registered_names(seeded, added.take(n), what),
    decreases added.len() - n,
{
    if n == added.len() {
        assert(added.take(n) =~= added);
    } else {
        assert(added.take(n + 1).drop_last() =~= added.take(n));
        lemma_registry_refused(seeded, added, what, n + 1);
    }
}

/// Adds contributed names to a registry. A bad name or a duplicate is a wiring bug,
/// so it refuses the boot.
pub fn register(seeded: Vec<String>, added: &Vec<String>, what: &str) -> (r: Result<
    Vec<String>,
    String,
>)
    ensures
        match registered_names(seeded.deep_view(), added.deep_view(), what@) {
            Ok(names) => r is Ok && (r->Ok_0).deep_view() == names,
            Err(e) => r is Err && (r->Err_0)@ == e,
        },
{
    let ghost start = seeded.deep_view();
    let ghost all = added.deep_view();
    let mut names: Vec<String> = seeded;
    let mut i: usize = 0;
    assert(all.take(0) =~= Seq::<Seq<char>>::empty());
    while i < added.len()
        invariant
            i <= added.len(),
            start == seeded.deep_view(),
            all == added.deep_view(),
            registered_names(start, all.take(i as int), what@) == Ok::<
                Seq<Seq<char>>,
                Seq<char>,
            >(names.deep_view()),
        decreases added.len() - i,
    {
        let name: &str = added[i].as_str();
        assert(all.take(i + 1).drop_last() =~= all.take(i as int));
        assert(all.take(i + 1).last() == added@[i as int]@);
        if !is_name(name, true) {
            proof {
                lemma_registry_refused(start, all, what@, i + 1);
            }
            return Err(cat3(cat3("invalid ", what, " name `").as_str(), name, "`"));
        }
        if listed(&names, name) {
            proof {
                lemma_registry_refused(start, all, what@, i + 1);
            }
            return Err(cat3(cat3("duplicate ", what, " `").as_str(), name, "`"));
        }
        let ghost before = names.deep_view();
        names.push(name.to_owned());
        assert(names.deep_view() =~= before.push(name@));
        i = i + 1;
    }
    assert(all.take(all.len() as int) =~= all);
    Ok(names)
}

/// The framework's field types, by name.
pub open spec fn builtin_field_keys() -> Seq<Seq<char>> {
    seq![
        kind_key(FieldKind::Leaf(LeafKind::Text)),
        kind_key(FieldKind::Leaf(LeafKind::Textarea)),
        kind_key(FieldKind::Repeater),
        kind_key(FieldKind::Leaf(LeafKind::Select)),
        kind_key(FieldKind::Leaf(LeafKind::Switch)),
        kind_key(FieldKind::Leaf(LeafKind::Date)),
        kind_key(FieldKind::Leaf(LeafKind::Password)),
        kind_key(FieldKind::Leaf(LeafKind::Radio)),
        "reference"@,
    ]
}

/// The framework's field types, by name: the built-in ones, and the reference that
/// joins them once the picker sources are known.
fn field_registry() -> (r: Vec<String>)
    ensures
        r.deep_view() == builtin_field_keys(),
{
    let kinds: Vec<FieldKind> = builtin_field_types();
    let ghost want = builtin_field_keys();
    let mut r: Vec<String> = Vec::new();
    let mut i: usize = 0;
    while i < kinds.len()
        invariant
            i <= kinds.len(),
            kinds.len() == 8,
            r.len() == i,
            want == builtin_field_keys(),
            forall|j: int| 0 <= j < 8 ==> kind_key(#[trigger] kinds@[j]) == want[j],
            forall|j: int| 0 <= j < i ==> #[trigger] r@[j]@ == want[j],
        decreases kinds.len() - i,
    {
        assert(kind_key(kinds@[i as int]) == want[i as int]);
        r.push(kinds[i].view_key().to_owned());
        i = i + 1;
    }
    r.push("reference".to_owned());
    assert(r.deep_view() =~= want);
    r
}

/// The names of some sources.
pub open spec fn source_names(sources: Seq<SourceModel>) -> Seq<Seq<char>> {
    sources.map_values(|s: SourceModel| s.name)
}

/// The names of some sources.
fn names_of(sources: &Vec<PickerSourceReg>) -> (r: Vec<String>)
    ensures
        r.deep_view() == source_names(sources.deep_view()),
{
    let ghost all = sources.deep_view();
    let mut r: Vec<String> = Vec::new();
    let mut i: usize = 0;
    while i < sources.len()
        invariant
            i <= sources.len(),
            all == sources.deep_view(),
            r.len() == i,
            forall|j: int| 0 <= j < i ==> #[trigger] r@[j]@ == all[j].name,
        decreases sources.len() - i,
    {
        assert(all[i as int] == sources@[i as int].deep_view());
        r.push(sources[i].name.clone());
        i = i + 1;
    }
    assert(r.deep_view() =~= source_names(all));
    r
}

// --------------------------------------------------------------------------- menu
/// An entry of the menu without an icon.
pub open spec fn plain_entry(label: TextModel, path: Seq<char>) -> NavModel {
    NavModel { label, path, icon: None }
}

/// The entries of the application's own sections.
pub open spec fn resource_entries(resources: Seq<ResourceModel>) -> Seq<NavModel> {
    resources.map_values(|r: ResourceModel| plain_entry(r.nav_label, r.base_path))
}

/// The entries of the screens that asked for one.
pub open spec fn screen_entries(admin: Seq<char>, screens: Seq<ScreenModel>) -> Seq<NavModel> {
    screens.filter_map(
        |s: ScreenModel|
            match s.nav_label {
                Some(label) => Some(plain_entry(label, admin + s.base_path)),
                None => None::<NavModel>,
            },
    )
}

/// The main menu: Dashboard, the application's own sections, the screens that asked
/// for an entry, then Settings.
pub open spec fn main_menu(
    admin: Seq<char>,
    resources: Seq<ResourceModel>,
    screens: Seq<ScreenModel>,
) -> Seq<NavModel> {
    seq![
        NavModel {
            label: plain("Dashboard"@),
            path: admin,
            icon: Some("layout-dashboard"@),
        },
    ] + resource_entries(resources) + screen_entries(admin, screens) + seq![
        NavModel {
            label: plain("Settings"@),
            path: admin + "/settings"@,
            icon: Some("settings"@),
        },
    ]
}

/// The entries of the application's own sections.
fn list_resources(resources: &Vec<Resource>) -> (r: Vec<NavLink>)
    ensures
        r.deep_view() == resource_entries(resources.deep_view()),
{
    let ghost all = resources.deep_view();
    let mut r: Vec<NavLink> = Vec::new();
    let mut i: usize = 0;
    while i < resources.len()
        invariant
            i <= resources.len(),
            all == resources.deep_view(),
            r.len() == i,
            forall|j: int|
                0 <= j < i ==> #[trigger] r@[j].deep_view() == plain_entry(
                    all[j].nav_label,
                    all[j].base_path,
                ),
        decreases resources.len() - i,
    {
        assert(all[i as int] == resources@[i as int].deep_view());
        r.push(
            NavLink {
                label: resources[i].nav_label.copy(),
                path: resources[i].base_path.clone(),
                icon: None,
            },
        );
        i = i + 1;
    }
    assert(r.deep_view() =~= resource_entries(all));
    r
}

/// The entries of the screens that asked for one. One without a label mounts
/// silently, reached by a link elsewhere.
fn list_screens(admin_path: &str, screens: &Vec<ScreenReg>) -> (r: Vec<NavLink>)
    ensures
        r.deep_view() == screen_entries(admin_path@, screens.deep_view()),
{
    let ghost all = screens.deep_view();
    let ghost admin = admin_path@;
    let ghost f = |s: ScreenModel|
        match s.nav_label {
            Some(label) => Some(plain_entry(label, admin + s.base_path)),
            None => None::<NavModel>,
        };
    let mut r: Vec<NavLink> = Vec::new();
    let mut i: usize = 0;
    assert(r.deep_view() =~= all.take(0).filter_map(f));
    while i < screens.len()
        invariant
            i <= screens.len(),
            all == screens.deep_view(),
            admin == admin_path@,
            f == (|s: ScreenModel|
                match s.nav_label {
                    Some(label) => Some(plain_entry(label, admin + s.base_path)),
                    None => None::<NavModel>,
                }),
            r.deep_view() == all.take(i as int).filter_map(f),
        decreases screens.len() - i,
    {
        let ghost before = r.deep_view();
        proof {
            all.lemma_filter_map_take_succ(f, i as int);
            assert(all[i as int] == screens@[i as int].deep_view());
        }
        match &screens[i].nav_label {
            Some(label) => {
                let link: NavLink = NavLink {
                    label: label.copy(),
                    path: cat(admin_path, screens[i].base_path.as_str()),
                    icon: None,
                };
                let ghost m = link.deep_view();
                r.push(link);
                assert(r.deep_view() =~= before + seq![m]);
            },
            None => {},
        }
        i = i + 1;
    }
    assert(all.take(all.len() as int) =~= all);
    r
}

/// The main menu.
pub fn menu(admin_path: &str, resources: &Vec<Resource>, screens: &Vec<ScreenReg>) -> (r: Vec<
    NavLink,
>)
    ensures
        r.deep_view() == main_menu(admin_path@, resources.deep_view(), screens.deep_view()),
{
    let mut r: Vec<NavLink> = Vec::new();
    r.push(
        NavLink {
            label: Text::new("Dashboard"),
            path: admin_path.to_owned(),
            icon: Some("layout-dashboard".to_owned()),
        },
    );
    let ghost first = r.deep_view();
    let mut sections: Vec<NavLink> = list_resources(resources);
    let ghost a = sections.deep_view();
    r.append(&mut sections);
    assert(r.deep_view() =~= first + a);
    let mut own: Vec<NavLink> = list_screens(admin_path, screens);
    let ghost b = own.deep_view();
    r.append(&mut own);
    assert(r.deep_view() =~= first + a + b);
    r.push(
        NavLink {
            label: Text::new("Settings"),
            path: cat(admin_path, "/settings"),
            icon: Some("settings".to_owned()),
        },
    );
    assert(r.deep_view() =~= main_menu(
        admin_path@,
        resources.deep_view(),
        screens.deep_view(),
    ));
    r
}

// -------------------------------------------------------------------------- icons
/// The first settings item whose icon is not in the set: what declares it, and the
/// name.
pub open spec fn unknown_item_icon(items: Seq<ItemModel>, names: Seq<Seq<char>>) -> Option<
    (Seq<char>, Seq<char>),
>
    decreases items.len(),
{
    if items.len() == 0 {
        None
    } else {
        match items[0].icon {
            Some(n) => if names.contains(n) {
                unknown_item_icon(items.drop_first(), names)
            } else {
                Some(("settings item `"@ + items[0].code + "`"@, n))
            },
            None => unknown_item_icon(items.drop_first(), names),
        }
    }
}

/// The first menu entry whose icon is not in the set.
pub open spec fn unknown_menu_icon(nav: Seq<NavModel>, names: Seq<Seq<char>>) -> Option<
    (Seq<char>, Seq<char>),
>
    decreases nav.len(),
{
    if nav.len() == 0 {
        None
    } else {
        match nav[0].icon {
            Some(n) => if names.contains(n) {
                unknown_menu_icon(nav.drop_first(), names)
            } else {
                Some(("menu entry `"@ + nav[0].path + "`"@, n))
            },
            None => unknown_menu_icon(nav.drop_first(), names),
        }
    }
}

/// The first icon name of the descriptors that is not in the set.
pub open spec fn unknown_icon(
    items: Seq<ItemModel>,
    nav: Seq<NavModel>,
    names: Seq<Seq<char>>,
) -> Option<(Seq<char>, Seq<char>)> {
    match unknown_item_icon(items, names) {
        Some(found) => Some(found),
        None => unknown_menu_icon(nav, names),
    }
}

/// The first settings item whose icon is not in the set.
fn find_item_icon(items: &Vec<SettingsItem>, set: &IconSet) -> (r: Option<(String, String)>)
    ensures
        r.deep_view() == unknown_item_icon(items.deep_view(), set@),
{
    let ghost all = items.deep_view();
    let ghost names = set@;
    let mut i: usize = 0;
    assert(all.skip(0) =~= all);
    while i < items.len()
        invariant
            i <= items.len(),
            all == items.deep_view(),
            names == set@,
            unknown_item_icon(all, names) == unknown_item_icon(all.skip(i as int), names),
        decreases items.len() - i,
    {
        assert(all.skip(i as int)[0] == items@[i as int].deep_view());
        assert(all.skip(i as int).drop_first() =~= all.skip(i + 1));
        match &items[i].icon {
            Some(n) => {
                if !listed(&set.names, n.as_str()) {
                    return Some(
                        (cat3("settings item `", items[i].code.as_str(), "`"), n.clone()),
                    );
                }
            },
            None => {},
        }
        i = i + 1;
    }
    None
}

/// The first menu entry whose icon is not in the set.
fn find_menu_icon(nav: &Vec<NavLink>, set: &IconSet) -> (r: Option<(String, String)>)
    ensures
        r.deep_view() == unknown_menu_icon(nav.deep_view(), set@),
{
    let ghost all = nav.deep_view();
    let ghost names = set@;
    let mut i: usize = 0;
    assert(all.skip(0) =~= all);
    while i < nav.len()
        invariant
            i <= nav.len(),
            all == nav.deep_view(),
            names == set@,
            unknown_menu_icon(all, names) == unknown_menu_icon(all.skip(i as int), names),
        decreases nav.len() - i,
    {
        assert(all.skip(i as int)[0] == nav@[i as int].deep_view());
        assert(all.skip(i as int).drop_first() =~= all.skip(i + 1));
        match &nav[i].icon {
            Some(n) => {
                if !listed(&set.names, n.as_str()) {
                    return Some((cat3("menu entry `", nav[i].path.as_str(), "`"), n.clone()));
                }
            },
            None => {},
        }
        i = i + 1;
    }
    None
}

/// The first icon name of the descriptors that is not in the set. Every name is
/// checked at boot, so a typo never reaches an operator as a wrong picture.
pub fn check_icons(items: &Vec<SettingsItem>, nav: &Vec<NavLink>, set: &IconSet) -> (r: Option<
    (String, String),
>)
    ensures
        r.deep_view() == unknown_icon(items.deep_view(), nav.deep_view(), set@),
{
    match find_item_icon(items, set) {
        Some(found) => Some(found),
        None => find_menu_icon(nav, set),
    }
}

// ----------------------------------------------------------------------- mounting
/// Every resource mounted, or why the first that cannot be is refused.
pub open spec fn all_mounted(resources: Seq<ResourceModel>, known: RegistriesModel) -> Result<
    Seq<MountedModel>,
    Seq<char>,
>
    decreases resources.len(),
{
    if resources.len() == 0 {
        Ok(Seq::empty())
    } else {
        match all_mounted(resources.drop_last(), known) {
            Err(e) => Err(e),
            Ok(done) => match mounted(
                resources.last(),
                (resources.len() - 1) as usize,
                known,
            ) {
                Err(e) => Err(e),
                Ok(m) => Ok(done.push(m)),
            },
        }
    }
}

/// A refusal among the first resources is the refusal of them all.
proof fn lemma_mount_refused(resources: Seq<ResourceModel>, known: RegistriesModel, n: int)
    requires
        0 <= n <= resources.len(),
        all_mounted(resources.take(n), known) is Err,
    ensures
        all_mounted(resources, known) == all_mounted(resources.take(n), known),
    decreases resources.len() - n,
{
    if n == resources.len() {
        assert(resources.take(n) =~= resources);
    } else {
        assert(resources.take(n + 1).drop_last() =~= resources.take(n));
        lemma_mount_refused(resources, known, n + 1);
    }
}

/// Mounts every resource, in order.
pub fn mount_all(resources: Vec<Resource>, known: &Registries) -> (r: Result<Vec<Mounted>, String>)
    ensures
        match all_mounted(resources.deep_view(), known@) {
            Ok(m) => r is Ok && (r->Ok_0).deep_view() == m,
            Err(e) => r is Err && (r->Err_0)@ == e,
        },
{
    let ghost all = resources.deep_view();
    let n: usize = resources.len();
    let mut left: Vec<Resource> = resources;
    let mut done: Vec<Mounted> = Vec::new();
    let mut i: usize = 0;
    assert(all.skip(0) =~= all);
    assert(all.take(0) =~= Seq::<ResourceModel>::empty());
    assert(done.deep_view() =~= Seq::<MountedModel>::empty());
    while i < n
        invariant
            i <= n,
            n == all.len(),
            all == resources.deep_view(),
            left.deep_view() == all.skip(i as int),
            all_mounted(all.take(i as int), known@) == Ok::<Seq<MountedModel>, Seq<char>>(
                done.deep_view(),
            ),
        decreases n - i,
    {
        let ghost before = left.deep_view();
        assert(before.len() == n - i);
        assert(before[0] == left@[0].deep_view());
        let resource: Resource = left.remove(0);
        assert(left.deep_view() =~= before.remove(0));
        assert(before.remove(0) =~= all.skip(i + 1));
        assert(all.take(i + 1).drop_last() =~= all.take(i as int));
        assert(all.take(i + 1).last() == resource.deep_view());
        let ghost so_far = done.deep_view();
        match mount_resource(resource, i, known) {
            Err(e) => {
                proof {
                    lemma_mount_refused(all, known@, i + 1);
                }
                return Err(e);
            },
            Ok(m) => {
                let ghost w = m.deep_view();
                done.push(m);
                assert(done.deep_view() =~= so_far.push(w));
            },
        }
        i = i + 1;
    }
    assert(all.take(all.len() as int) =~= all);
    Ok(done)
}

// ------------------------------------------------------------------------- routes
/// A route under the admin mount.
pub open spec fn admin_route(
    admin: Seq<char>,
    tail: Seq<char>,
    verbs: Verbs,
    guard: GuardModel,
    handler: Handler,
) -> RouteModel {
    RouteModel { path: admin + tail, verbs, guard, handler }
}

/// The dashboard.
pub open spec fn dashboard_route(admin: Seq<char>) -> RouteModel {
    RouteModel {
        path: admin,
        verbs: Verbs::Get,
        guard: GuardModel::SignedIn,
        handler: Handler::Dashboard,
    }
}

/// The routes of every mounted resource, in order.
pub open spec fn mounted_routes(mounts: Seq<MountedModel>) -> Seq<RouteModel>
    decreases mounts.len(),
{
    if mounts.len() == 0 {
        Seq::empty()
    } else {
        mounted_routes(mounts.drop_last()) + mounts.last().routes
    }
}

/// The screens the modules mount themselves. Each is guarded by its permission.
pub open spec fn screen_routes(admin: Seq<char>, screens: Seq<ScreenModel>) -> Seq<RouteModel> {
    Seq::new(
        screens.len(),
        |i: int|
            RouteModel {
                path: admin + screens[i].base_path,
                verbs: Verbs::Nested,
                guard: GuardModel::Holding(screens[i].permission),
                handler: Handler::Contributed(i as usize),
            },
    )
}

/// The panel's own screens: the permission editor of roles and users, the plugins,
/// the settings, the preferences, the pickers and signing out.
pub open spec fn own_routes(admin: Seq<char>) -> Seq<RouteModel> {
    let roles = GuardModel::Holding("backend.manage_roles"@);
    let users = GuardModel::Holding("backend.manage_users"@);
    let plugins = GuardModel::Holding("backend.manage_plugins"@);
    let anyone = GuardModel::SignedIn;
    seq![
        admin_route(admin, "/roles/new"@, Verbs::GetAndPost, roles, Handler::RoleNew),
        admin_route(admin, "/roles/{id}/edit"@, Verbs::GetAndPost, roles, Handler::RoleEdit),
        admin_route(admin, "/users/{id}/edit"@, Verbs::GetAndPost, users, Handler::UserEdit),
        admin_route(admin, "/users/{id}/active"@, Verbs::Post, users, Handler::UserActive),
        admin_route(admin, "/plugins"@, Verbs::Get, plugins, Handler::Plugins),
        admin_route(admin, "/plugins/toggle"@, Verbs::Post, plugins, Handler::PluginToggle),
        admin_route(admin, "/settings"@, Verbs::Get, anyone, Handler::SettingsIndex),
        admin_route(admin, "/preferences"@, Verbs::GetAndPost, anyone, Handler::Preferences),
        admin_route(
            admin,
            "/preferences/sessions/revoke"@,
            Verbs::Post,
            anyone,
            Handler::SessionRevoke,
        ),
        admin_route(
            admin,
            "/preferences/sessions/revoke-others"@,
            Verbs::Post,
            anyone,
            Handler::SessionRevokeOthers,
        ),
        admin_route(admin, "/pickers/{source}/search"@, Verbs::Any, anyone, Handler::PickerSearch),
        admin_route(
            admin,
            "/pickers/{source}/resolve"@,
            Verbs::Any,
            anyone,
            Handler::PickerResolve,
        ),
        admin_route(admin, "/logout"@, Verbs::Post, anyone, Handler::Logout),
    ]
}

/// The settings screens: one route per item with a form of its own, at the path its
/// module resolved to.
pub open spec fn settings_routes(admin: Seq<char>, items: Seq<ItemModel>) -> Seq<RouteModel>
    decreases items.len(),
{
    if items.len() == 0 {
        Seq::empty()
    } else {
        let before = settings_routes(admin, items.drop_last());
        if items.last().link is None {
            before.push(
                admin_route(
                    admin,
                    item_route(items.last()),
                    Verbs::GetAndPost,
                    GuardModel::SignedIn,
                    Handler::SettingsForm((items.len() - 1) as usize),
                ),
            )
        } else {
            before
        }
    }
}

/// What answers before anyone is signed in: the login and first-run setup screens,
/// and the embedded assets.
pub open spec fn open_routes(admin: Seq<char>) -> Seq<RouteModel> {
    seq![
        admin_route(admin, "/login"@, Verbs::GetAndPost, GuardModel::Open, Handler::Login),
        admin_route(admin, "/setup"@, Verbs::GetAndPost, GuardModel::Open, Handler::Setup),
        admin_route(admin, "/assets/{*path}"@, Verbs::Get, GuardModel::Open, Handler::Asset),
    ]
}

/// The modules' own public endpoints, at the literal paths they declared.
pub open spec fn public_route_models(paths: Seq<Seq<char>>) -> Seq<RouteModel> {
    Seq::new(
        paths.len(),
        |i: int|
            RouteModel {
                path: paths[i],
                verbs: Verbs::Nested,
                guard: GuardModel::Open,
                handler: Handler::PublicRoute(i as usize),
            },
    )
}

/// Every route of the panel.
pub open spec fn route_table(
    admin: Seq<char>,
    mounts: Seq<MountedModel>,
    screens: Seq<ScreenModel>,
    items: Seq<ItemModel>,
    public: Seq<Seq<char>>,
) -> Seq<RouteModel> {
    seq![dashboard_route(admin)] + mounted_routes(mounts) + screen_routes(admin, screens)
        + own_routes(admin) + settings_routes(admin, items) + open_routes(admin)
        + public_route_models(public)
}

/// A route under the admin mount.
fn under(admin_path: &str, tail: &str, verbs: Verbs, guard: Guard, handler: Handler) -> (r: Route)
    ensures
        r.deep_view() == admin_route(admin_path@, tail@, verbs, guard.deep_view(), handler),
{
    Route { path: cat(admin_path, tail), verbs, guard, handler }
}

/// A guard by a permission.
fn holding(permission: &str) -> (r: Guard)
    ensures
        r.deep_view() == GuardModel::Holding(permission@),
{
    Guard::Holding(permission.to_owned())
}

/// A copy of a guard.
fn copy_guard(guard: &Guard) -> (r: Guard)
    ensures
        r.deep_view() == guard.deep_view(),
{
    match guard {
        Guard::Open => Guard::Open,
        Guard::SignedIn => Guard::SignedIn,
        Guard::Holding(p) => Guard::Holding(p.clone()),
    }
}

/// The routes of every mounted resource, in order.
fn list_mounted(mounts: &Vec<Mounted>) -> (r: Vec<Route>)
    ensures
        r.deep_view() == mounted_routes(mounts.deep_view()),
{
    let ghost all = mounts.deep_view();
    let mut r: Vec<Route> = Vec::new();
    let mut i: usize = 0;
    assert(r.deep_view() =~= Seq::<RouteModel>::empty());
    assert(all.take(0) =~= Seq::<MountedModel>::empty());
    while i < mounts.len()
        invariant
            i <= mounts.len(),
            all == mounts.deep_view(),
            r.deep_view() == mounted_routes(all.take(i as int)),
        decreases mounts.len() - i,
    {
        let routes: &Vec<Route> = &mounts[i].routes;
        let ghost own = routes.deep_view();
        let ghost before = r.deep_view();
        assert(all.take(i + 1).drop_last() =~= all.take(i as int));
        assert(all.take(i + 1).last() == mounts@[i as int].deep_view());
        let mut k: usize = 0;
        assert(before + own.take(0) =~= before);
        while k < routes.len()
            invariant
                k <= routes.len(),
                own == routes.deep_view(),
                r.deep_view() == before + own.take(k as int),
            decreases routes.len() - k,
        {
            let ghost so_far = r.deep_view();
            assert(own[k as int] == routes@[k as int].deep_view());
            r.push(
                Route {
                    path: routes[k].path.clone(),
                    verbs: routes[k].verbs,
                    guard: copy_guard(&routes[k].guard),
                    handler: routes[k].handler,
                },
            );
            assert(r.deep_view() =~= so_far.push(own[k as int]));
            assert(so_far.push(own[k as int]) =~= before + own.take(k + 1));
            k = k + 1;
        }
        assert(own.take(own.len() as int) =~= own);
        i = i + 1;
    }
    assert(all.take(all.len() as int) =~= all);
    r
}

/// The screens the modules mount themselves.
fn list_contributed(admin_path: &str, screens: &Vec<ScreenReg>) -> (r: Vec<Route>)
    ensures
        r.deep_view() == screen_routes(admin_path@, screens.deep_view()),
{
    let ghost all = screens.deep_view();
    let mut r: Vec<Route> = Vec::new();
    let mut i: usize = 0;
    while i < screens.len()
        invariant
            i <= screens.len(),
            all == screens.deep_view(),
            r.len() == i,
            forall|j: int|
                0 <= j < i ==> #[trigger] r@[j].deep_view() == screen_routes(admin_path@, all)[j],
        decreases screens.len() - i,
    {
        assert(all[i as int] == screens@[i as int].deep_view());
        r.push(
            under(
                admin_path,
                screens[i].base_path.as_str(),
                Verbs::Nested,
                holding(screens[i].permission.as_str()),
                Handler::Contributed(i),
            ),
        );
        i = i + 1;
    }
    assert(r.deep_view() =~= screen_routes(admin_path@, all));
    r
}

/// The panel's own screens.
fn list_own(admin_path: &str) -> (r: Vec<Route>)
    ensures
        r.deep_view() == own_routes(admin_path@),
{
    let at: &str = admin_path;
    let roles: &str = "backend.manage_roles";
    let users: &str = "backend.manage_users";
    let plugins: &str = "backend.manage_plugins";
    let both: Verbs = Verbs::GetAndPost;
    let mut r: Vec<Route> = Vec::new();
    r.push(under(at, "/roles/new", both, holding(roles), Handler::RoleNew));
    r.push(under(at, "/roles/{id}/edit", both, holding(roles), Handler::RoleEdit));
    r.push(under(at, "/users/{id}/edit", both, holding(users), Handler::UserEdit));
    r.push(under(at, "/users/{id}/active", Verbs::Post, holding(users), Handler::UserActive));
    r.push(under(at, "/plugins", Verbs::Get, holding(plugins), Handler::Plugins));
    r.push(under(at, "/plugins/toggle", Verbs::Post, holding(plugins), Handler::PluginToggle));
    r.push(under(at, "/settings", Verbs::Get, Guard::SignedIn, Handler::SettingsIndex));
    r.push(under(at, "/preferences", both, Guard::SignedIn, Handler::Preferences));
    r.push(
        under(
            at,
            "/preferences/sessions/revoke",
            Verbs::Post,
            Guard::SignedIn,
            Handler::SessionRevoke,
        ),
    );
    r.push(
        under(
            at,
            "/preferences/sessions/revoke-others",
            Verbs::Post,
            Guard::SignedIn,
            Handler::SessionRevokeOthers,
        ),
    );
    r.push(
        under(at, "/pickers/{source}/search", Verbs::Any, Guard::SignedIn, Handler::PickerSearch),
    );
    r.push(
        under(
            at,
            "/pickers/{source}/resolve",
            Verbs::Any,
            Guard::SignedIn,
            Handler::PickerResolve,
        ),
    );
    r.push(under(at, "/logout", Verbs::Post, Guard::SignedIn, Handler::Logout));
    assert(r.deep_view() =~= own_routes(admin_path@));
    r
}

/// The settings screens.
fn list_settings(admin_path: &str, items: &Vec<SettingsItem>) -> (r: Vec<Route>)
    ensures
        r.deep_view() == settings_routes(admin_path@, items.deep_view()),
{
    let ghost all = items.deep_view();
    let mut r: Vec<Route> = Vec::new();
    let mut i: usize = 0;
    assert(r.deep_view() =~= Seq::<RouteModel>::empty());
    assert(all.take(0) =~= Seq::<ItemModel>::empty());
    while i < items.len()
        invariant
            i <= items.len(),
            all == items.deep_view(),
            r.deep_view() == settings_routes(admin_path@, all.take(i as int)),
        decreases items.len() - i,
    {
        let ghost before = r.deep_view();
        assert(all.take(i + 1).drop_last() =~= all.take(i as int));
        assert(all.take(i + 1).last() == items@[i as int].deep_view());
        if items[i].link.is_none() {
            let route: Route = under(
                admin_path,
                items[i].route().as_str(),
                Verbs::GetAndPost,
                Guard::SignedIn,
                Handler::SettingsForm(i),
            );
            let ghost m = route.deep_view();
            r.push(route);
            assert(r.deep_view() =~= before.push(m));
        }
        i = i + 1;
    }
    assert(all.take(all.len() as int) =~= all);
    r
}

/// What answers before anyone is signed in.
fn list_open(admin_path: &str) -> (r: Vec<Route>)
    ensures
        r.deep_view() == open_routes(admin_path@),
{
    let mut r: Vec<Route> = Vec::new();
    r.push(under(admin_path, "/login", Verbs::GetAndPost, Guard::Open, Handler::Login));
    r.push(under(admin_path, "/setup", Verbs::GetAndPost, Guard::Open, Handler::Setup));
    r.push(under(admin_path, "/assets/{*path}", Verbs::Get, Guard::Open, Handler::Asset));
    assert(r.deep_view() =~= open_routes(admin_path@));
    r
}

/// The modules' own public endpoints.
pub fn mount_public(regs: &Vec<PublicRouteReg>) -> (r: Vec<Route>)
    ensures
        r.deep_view() == public_route_models(regs.deep_view()),
{
    let ghost all = regs.deep_view();
    let mut r: Vec<Route> = Vec::new();
    let mut i: usize = 0;
    while i < regs.len()
        invariant
            i <= regs.len(),
            all == regs.deep_view(),
            r.len() == i,
            forall|j: int|
                0 <= j < i ==> #[trigger] r@[j].deep_view() == public_route_models(all)[j],
        decreases regs.len() - i,
    {
        assert(all[i as int] == regs@[i as int].deep_view());
        r.push(
            Route {
                path: regs[i].path.clone(),
                verbs: Verbs::Nested,
                guard: Guard::Open,
                handler: Handler::PublicRoute(i),
            },
        );
        i = i + 1;
    }
    assert(r.deep_view() =~= public_route_models(all));
    r
}

/// Puts some routes behind others.
fn extend(routes: &mut Vec<Route>, more: Vec<Route>)
    ensures
        final(routes).deep_view() == old(routes).deep_view() + more.deep_view(),
{
    let mut more: Vec<Route> = more;
    let ghost a = routes.deep_view();
    let ghost b = more.deep_view();
    routes.append(&mut more);
    assert(routes.deep_view() =~= a + b);
}

/// Every route of the panel.
pub fn routes(
    admin_path: &str,
    mounts: &Vec<Mounted>,
    screens: &Vec<ScreenReg>,
    items: &Vec<SettingsItem>,
    public: &Vec<PublicRouteReg>,
) -> (r: Vec<Route>)
    ensures
        r.deep_view() == route_table(
            admin_path@,
            mounts.deep_view(),
            screens.deep_view(),
            items.deep_view(),
            public.deep_view(),
        ),
{
    let mut r: Vec<Route> = Vec::new();
    r.push(
        Route {
            path: admin_path.to_owned(),
            verbs: Verbs::Get,
            guard: Guard::SignedIn,
            handler: Handler::Dashboard,
        },
    );
    assert(r.deep_view() =~= seq![dashboard_route(admin_path@)]);
    extend(&mut r, list_mounted(mounts));
    extend(&mut r, list_contributed(admin_path, screens));
    extend(&mut r, list_own(admin_path));
    extend(&mut r, list_settings(admin_path, items));
    extend(&mut r, list_open(admin_path));
    extend(&mut r, mount_public(public));
    r
}

/// Whether a handler answers before anyone is signed in.
pub open spec fn answers_anyone(handler: Handler) -> bool {
    handler is Login || handler is Setup || handler is Asset || handler is PublicRoute
}

/// No route of a mounted resource is open.
proof fn lemma_mounted_guarded(resources: Seq<ResourceModel>, known: RegistriesModel)
    requires
        all_mounted(resources, known) is Ok,
    ensures
        forall|k: int|
            0 <= k < mounted_routes(all_mounted(resources, known)->Ok_0).len() ==> !((
            #[trigger] mounted_routes(all_mounted(resources, known)->Ok_0)[k]).guard is Open),
    decreases resources.len(),
{
    if resources.len() > 0 {
        let before = resources.drop_last();
        lemma_mounted_guarded(before, known);
        let done = all_mounted(before, known)->Ok_0;
        let i = (resources.len() - 1) as usize;
        let m = mounted(resources.last(), i, known)->Ok_0;
        let all = done.push(m);
        assert(all.drop_last() =~= done);
        assert(mounted_routes(all) == mounted_routes(done) + m.routes);
        assert forall|k: int| 0 <= k < mounted_routes(all).len() implies !((
        #[trigger] mounted_routes(all)[k]).guard is Open) by {
            let n = mounted_routes(done).len();
            if k < n {
                assert(mounted_routes(all)[k] == mounted_routes(done)[k]);
            } else {
                crate::mount::law_a_write_resource_is_guarded(
                    resources.last(),
                    i,
                    known,
                    k - n,
                );
                assert(mounted_routes(all)[k] == m.routes[k - n]);
            }
        }
    } else {
        assert(mounted_routes(all_mounted(resources, known)->Ok_0) =~= Seq::empty());
    }
}

/// No settings screen is open.
proof fn lemma_settings_guarded(admin: Seq<char>, items: Seq<ItemModel>)
    ensures
        forall|k: int|
            0 <= k < settings_routes(admin, items).len() ==> !((#[trigger] settings_routes(
                admin,
                items,
            )[k]).guard is Open),
    decreases items.len(),
{
    if items.len() > 0 {
        lemma_settings_guarded(admin, items.drop_last());
        let before = settings_routes(admin, items.drop_last());
        let all = settings_routes(admin, items);
        assert forall|k: int| 0 <= k < all.len() implies !((#[trigger] all[k]).guard is Open) by {
            if k < before.len() {
                assert(all[k] == before[k]);
            }
        }
    }
}

/// Nobody reaches the panel without signing in, but for the login and setup screens,
/// the assets, and the routes the modules declare public.
pub proof fn law_every_other_route_is_guarded(
    admin: Seq<char>,
    resources: Seq<ResourceModel>,
    known: RegistriesModel,
    screens: Seq<ScreenModel>,
    items: Seq<ItemModel>,
    public: Seq<Seq<char>>,
    k: int,
)
    requires
        all_mounted(resources, known) is Ok,
        0 <= k < route_table(
            admin,
            all_mounted(resources, known)->Ok_0,
            screens,
            items,
            public,
        ).len(),
    ensures
        ({
            let route = route_table(
                admin,
                all_mounted(resources, known)->Ok_0,
                screens,
                items,
                public,
            )[k];
            route.guard is Open ==> answers_anyone(route.handler)
        }),
{
    let mounts = all_mounted(resources, known)->Ok_0;
    lemma_mounted_guarded(resources, known);
    lemma_settings_guarded(admin, items);
    let a = seq![dashboard_route(admin)];
    let b = mounted_routes(mounts);
    let c = screen_routes(admin, screens);
    let d = own_routes(admin);
    let e = settings_routes(admin, items);
    let f = open_routes(admin);
    let g = public_route_models(public);
    let all = route_table(admin, mounts, screens, items, public);
    assert(all =~= a + (b + (c + (d + (e + (f + g))))));
    let k1 = k - a.len();
    let k2 = k1 - b.len();
    let k3 = k2 - c.len();
    let k4 = k3 - d.len();
    let k5 = k4 - e.len();
    let k6 = k5 - f.len();
    if k < a.len() {
        assert(all[k] == a[k]);
    } else if k1 < b.len() {
        assert(all[k] == b[k1]);
    } else if k2 < c.len() {
        assert(all[k] == c[k2]);
    } else if k3 < d.len() {
        assert(all[k] == d[k3]);
    } else if k4 < e.len() {
        assert(all[k] == e[k4]);
    } else if k5 < f.len() {
        assert(all[k] == f[k5]);
    } else {
        assert(all[k] == g[k6]);
    }
}

// ------------------------------------------------------------------------- router
/// The panel, put together.
pub struct Panel {
    pub admin_path: String,
    pub secure_cookie: bool,
    pub trusted_proxies: Vec<String>,
    pub origin: String,
    pub timezone: String,
    pub default_locale: String,
    /// The loaded locales, each with its messages.
    pub catalogs: Vec<(String, Vec<(String, String)>)>,
    pub app_name: String,
    pub nav: Vec<NavLink>,
    pub settings: Vec<SettingsItem>,
    pub permissions: Vec<Permission>,
    pub icons: IconSet,
    pub sprite_url: String,
    pub assets: Vec<AdminAsset>,
    pub asset_urls: Vec<(String, String)>,
    pub pickers: Vec<PickerSourceReg>,
    /// The field types its forms and settings use.
    pub types: FieldTypes,
    pub mounts: Vec<Mounted>,
    pub routes: Vec<Route>,
}

/// Why the panel cannot boot.
#[derive(Debug)]
pub enum BootError {
    Refused(String),
    /// A descriptor names an icon that is not in the set.
    UnknownIcon { what: String, name: String },
}

/// A [`BootError`], over characters.
pub enum BootErrorModel {
    Refused(Seq<char>),
    UnknownIcon { what: Seq<char>, name: Seq<char> },
}

impl DeepView for BootError {
    type V = BootErrorModel;

    open spec fn deep_view(&self) -> BootErrorModel {
        match self {
            BootError::Refused(e) => BootErrorModel::Refused(e@),
            BootError::UnknownIcon { what, name } => BootErrorModel::UnknownIcon {
                what: what@,
                name: name@,
            },
        }
    }
}

impl BootError {
    /// What the boot is refused with: `nearest` holds the registered icon names
    /// closest to one that is not in the set.
    pub fn message(&self, nearest: &Vec<String>) -> (r: String)
        ensures
            r@ == (match self.deep_view() {
                BootErrorModel::Refused(e) => e,
                BootErrorModel::UnknownIcon { what, name } => crate::icons::icon_refusal(
                    what,
                    name,
                    nearest.deep_view(),
                ),
            }),
    {
        match self {
            BootError::Refused(e) => e.clone(),
            BootError::UnknownIcon { what, name } => {
                let none: IconSet = IconSet { names: Vec::new() };
                match require(&none, what.as_str(), Some(name.as_str()), nearest) {
                    Err(e) => e,
                    Ok(()) => String::new(),
                }
            },
        }
    }
}

/// The application's name: `Laterite` where the configured one is blank.
pub open spec fn brand_name(configured: Seq<char>) -> Seq<char> {
    if trimmed(configured).len() == 0 {
        "Laterite"@
    } else {
        configured
    }
}

/// Some resources with their paths under the admin mount.
pub open spec fn all_prefixed(admin: Seq<char>, resources: Seq<ResourceModel>) -> Seq<
    ResourceModel,
> {
    resources.map_values(|r: ResourceModel| prefixed(admin, r))
}

/// Every resource of the panel: the framework's own, then the contributed ones.
pub open spec fn all_resources(c: ContributionsModel, admin: Seq<char>) -> Seq<ResourceModel> {
    all_prefixed(admin, builtin_resource_models()) + all_prefixed(admin, c.resources)
}

/// Every settings item of the panel.
pub open spec fn all_settings(c: ContributionsModel) -> Seq<ItemModel> {
    builtin_settings_models() + c.settings
}

/// The panel's menu.
pub open spec fn boot_menu(c: ContributionsModel, admin: Seq<char>) -> Seq<NavModel> {
    main_menu(admin, all_prefixed(admin, c.resources), c.screens)
}

/// The picker sources' names, registered.
pub open spec fn picker_names(c: ContributionsModel) -> Result<Seq<Seq<char>>, Seq<char>> {
    registered_names(Seq::empty(), source_names(c.picker_sources), "picker source"@)
}

/// The persisters' names, registered.
pub open spec fn persister_names(c: ContributionsModel) -> Result<Seq<Seq<char>>, Seq<char>> {
    registered_names(Seq::empty(), c.persisters, "persister"@)
}

/// The field types' names, registered.
pub open spec fn field_type_names(c: ContributionsModel) -> Result<Seq<Seq<char>>, Seq<char>> {
    registered_names(builtin_field_keys(), c.field_types, "field type"@)
}

/// The column types' names, registered.
pub open spec fn column_type_names(c: ContributionsModel) -> Result<Seq<Seq<char>>, Seq<char>> {
    registered_names(builtin_column_keys(), c.column_types, "column type"@)
}

/// What is registered that a resource can name.
pub open spec fn known_names(c: ContributionsModel) -> RegistriesModel {
    RegistriesModel {
        column_types: column_type_names(c)->Ok_0,
        types: FieldTypesModel {
            inputs: seq![
                InputType::Text,
                InputType::Email,
                InputType::Tel,
                InputType::Number,
                InputType::Url,
            ],
            names: c.field_types,
            answers: c.type_answers,
        },
        pickers: picker_names(c)->Ok_0,
        persisters: persister_names(c)->Ok_0,
    }
}

/// What refuses a boot.
pub open spec fn boot_refusal(
    c: ContributionsModel,
    admin: Seq<char>,
    icons: Seq<Seq<char>>,
) -> Option<BootErrorModel> {
    match picker_names(c) {
        Err(e) => Some(BootErrorModel::Refused(e)),
        Ok(_) => match persister_names(c) {
            Err(e) => Some(BootErrorModel::Refused(e)),
            Ok(_) => match field_type_names(c) {
                Err(e) => Some(BootErrorModel::Refused(e)),
                Ok(_) => match unknown_icon(all_settings(c), boot_menu(c, admin), icons) {
                    Some((what, name)) => Some(BootErrorModel::UnknownIcon { what, name }),
                    None => match column_type_names(c) {
                        Err(e) => Some(BootErrorModel::Refused(e)),
                        Ok(_) => match all_mounted(all_resources(c, admin), known_names(c)) {
                            Err(e) => Some(BootErrorModel::Refused(e)),
                            Ok(_) => None,
                        },
                    },
                },
            },
        },
    }
}

/// The icon sprite as an asset: it is assembled at boot, so it gets a content-named
/// URL and may be cached forever.
pub open spec fn sprite_asset(sprite: Seq<u8>) -> AssetModel {
    AssetModel { key: ICON_SPRITE@, mime: "image/svg+xml"@, bytes: sprite }
}

/// Every asset of the panel.
pub open spec fn all_assets(files: Seq<(Seq<char>, Seq<u8>)>, sprite: Seq<u8>) -> Seq<AssetModel> {
    builtin_asset_types().map_values(
        |t: (Seq<char>, Seq<char>)|
            AssetModel { key: t.0, mime: t.1, bytes: file_bytes(files, t.0) },
    ).push(sprite_asset(sprite))
}

/// The locales that have a catalog.
pub open spec fn loaded_locales(
    catalogs: Seq<(Seq<char>, Seq<(Seq<char>, Seq<char>)>)>,
) -> Seq<Seq<char>> {
    catalogs.map_values(|c: (Seq<char>, Seq<(Seq<char>, Seq<char>)>)| c.0)
}

/// The locales that have a catalog.
pub fn locales(catalogs: &Vec<(String, Vec<(String, String)>)>) -> (r: Vec<String>)
    ensures
        r.deep_view() == loaded_locales(catalogs.deep_view()),
{
    let ghost all = catalogs.deep_view();
    let mut r: Vec<String> = Vec::new();
    let mut i: usize = 0;
    while i < catalogs.len()
        invariant
            i <= catalogs.len(),
            all == catalogs.deep_view(),
            r.len() == i,
            forall|j: int| 0 <= j < i ==> #[trigger] r@[j]@ == all[j].0,
        decreases catalogs.len() - i,
    {
        assert(all[i as int] == catalogs@[i as int].deep_view());
        r.push(catalogs[i].0.clone());
        i = i + 1;
    }
    assert(r.deep_view() =~= loaded_locales(all));
    r
}

/// Resolves the paths of some resources under the admin mount.
fn prefix_all(admin_path: &str, resources: Vec<Resource>) -> (r: Vec<Resource>)
    ensures
        r.deep_view() == all_prefixed(admin_path@, resources.deep_view()),
{
    let ghost all = resources.deep_view();
    let n: usize = resources.len();
    let mut left: Vec<Resource> = resources;
    let mut r: Vec<Resource> = Vec::new();
    let mut i: usize = 0;
    assert(all.skip(0) =~= all);
    while i < n
        invariant
            i <= n,
            n == all.len(),
            left.deep_view() == all.skip(i as int),
            r.len() == i,
            forall|j: int|
                0 <= j < i ==> #[trigger] r@[j].deep_view() == prefixed(admin_path@, all[j]),
        decreases n - i,
    {
        let ghost before = left.deep_view();
        assert(before.len() == n - i);
        assert(before[0] == left@[0].deep_view());
        let resource: Resource = left.remove(0);
        assert(left.deep_view() =~= before.remove(0));
        assert(before.remove(0) =~= all.skip(i + 1));
        r.push(prefix_resource(admin_path, resource));
        i = i + 1;
    }
    assert(r.deep_view() =~= all_prefixed(admin_path@, all));
    r
}

/// No names at all.
fn no_names() -> (r: Vec<String>)
    ensures
        r.deep_view() == Seq::<Seq<char>>::empty(),
{
    let r: Vec<String> = Vec::new();
    assert(r.deep_view() =~= Seq::<Seq<char>>::empty());
    r
}

/// Registers every contributed name that does not need the icons, in order: picker
/// sources, persisters, field types.
fn register_all(contributions: &Contributions) -> (r: Result<(Vec<String>, Vec<String>), String>)
    ensures
        match picker_names(contributions@) {
            Err(e) => r is Err && (r->Err_0)@ == e,
            Ok(pickers) => match persister_names(contributions@) {
                Err(e) => r is Err && (r->Err_0)@ == e,
                Ok(persisters) => match field_type_names(contributions@) {
                    Err(e) => r is Err && (r->Err_0)@ == e,
                    Ok(_) => r is Ok && (r->Ok_0).0.deep_view() == pickers && (
                    r->Ok_0).1.deep_view() == persisters,
                },
            },
        },
{
    let names: Vec<String> = names_of(&contributions.picker_sources);
    let pickers: Vec<String> = match register(no_names(), &names, "picker source") {
        Err(e) => {
            return Err(e);
        },
        Ok(n) => n,
    };
    let persisters: Vec<String> = match register(
        no_names(),
        &contributions.persisters,
        "persister",
    ) {
        Err(e) => {
            return Err(e);
        },
        Ok(n) => n,
    };
    match register(field_registry(), &contributions.field_types, "field type") {
        Err(e) => Err(e),
        Ok(_) => Ok((pickers, persisters)),
    }
}

/// Puts the panel together, or refuses: a bad or duplicate name, an icon nobody
/// registered, and a resource that cannot be mounted are wiring bugs, so they stop
/// the boot rather than showing up later.
pub fn router(
    contributions: Contributions,
    config: &AdminConfig,
    catalogs: Vec<(String, Vec<(String, String)>)>,
    icons: IconSet,
    sprite: Vec<u8>,
    files: &Vec<(String, Vec<u8>)>,
) -> (r: Result<Panel, BootError>)
    ensures
        ({
            let c = contributions@;
            let admin = mount_path(config.path@);
            match boot_refusal(c, admin, icons@) {
                Some(e) => r is Err && (r->Err_0).deep_view() == e,
                None => {
                    &&& r is Ok
                    &&& ({
                        let panel = r->Ok_0;
                        let mounts = all_mounted(all_resources(c, admin), known_names(c))->Ok_0;
                        let assets = all_assets(files_model(files@), sprite@);
                        &&& panel.admin_path@ == admin
                        &&& panel.secure_cookie == config.secure_cookie
                        &&& panel.trusted_proxies.deep_view() == networks(
                            config.trusted_proxies.deep_view(),
                        )
                        &&& panel.origin@ == strip_end(config.origin@, only('/'))
                        &&& panel.timezone@ == display_zone(Some(config.timezone@), "UTC"@)
                        &&& panel.default_locale@ == (if serves(
                            base_of(config.locale@),
                            loaded_locales(catalogs.deep_view()),
                        ) {
                            base_of(config.locale@)
                        } else {
                            "en"@
                        })
                        &&& panel.catalogs == catalogs
                        &&& panel.app_name@ == brand_name(config.app_name@)
                        &&& panel.nav.deep_view() == boot_menu(c, admin)
                        &&& panel.settings.deep_view() == all_settings(c)
                        &&& panel.permissions.deep_view() == builtin_permission_models()
                            + c.permissions
                        &&& panel.icons == icons
                        &&& panel.sprite_url@ == admin + "/assets/"@ + asset_path(
                            sprite_asset(sprite@),
                        )
                        &&& panel.assets.deep_view() == assets
                        &&& panel.asset_urls.deep_view() == assets.map_values(
                            |a: AssetModel| (a.key, asset_path(a)),
                        )
                        &&& panel.pickers.deep_view() == c.picker_sources
                        &&& panel.types@ == known_names(c).types
                        &&& panel.mounts.deep_view() == mounts
                        &&& panel.routes.deep_view() == route_table(
                            admin,
                            mounts,
                            c.screens,
                            all_settings(c),
                            c.public_routes,
                        )
                    })
                },
            }
        }),
{
    let ghost c = contributions@;
    let ghost admin = mount_path(config.path@);
    let admin_path: String = normalize_path(config.path.as_str());
    let (pickers, persisters) = match register_all(&contributions) {
        Err(e) => {
            return Err(BootError::Refused(e));
        },
        Ok(names) => names,
    };
    let mut settings: Vec<SettingsItem> = builtin_settings();
    let mut more: Vec<SettingsItem> = contributions.settings;
    settings.append(&mut more);
    assert(settings.deep_view() =~= all_settings(c));
    let permissions: Vec<Permission> = with_builtin(&contributions.permissions);
    let mut own: Vec<Resource> = prefix_all(admin_path.as_str(), contributions.resources);
    let nav: Vec<NavLink> = menu(admin_path.as_str(), &own, &contributions.screens);
    match check_icons(&settings, &nav, &icons) {
        Some((what, name)) => {
            return Err(BootError::UnknownIcon { what, name });
        },
        None => {},
    }
    let column_types: Vec<String> = match register(
        builtin_column_registry(),
        &contributions.column_types,
        "column type",
    ) {
        Err(e) => {
            return Err(BootError::Refused(e));
        },
        Ok(n) => n,
    };
    let known: Registries = Registries {
        column_types,
        types: FieldTypes {
            inputs: builtin_input_registry(),
            names: contributions.field_types,
            answers: contributions.type_answers,
        },
        pickers,
        persisters,
    };
    let mut resources: Vec<Resource> = prefix_all(admin_path.as_str(), builtin_resources());
    let ghost first = resources.deep_view();
    let ghost then = own.deep_view();
    resources.append(&mut own);
    assert(resources.deep_view() =~= first + then);
    let mounts: Vec<Mounted> = match mount_all(resources, &known) {
        Err(e) => {
            return Err(BootError::Refused(e));
        },
        Ok(m) => m,
    };
    let table: Vec<Route> = routes(
        admin_path.as_str(),
        &mounts,
        &contributions.screens,
        &settings,
        &contributions.public_routes,
    );
    let ghost bytes = sprite@;
    let mut assets: Vec<AdminAsset> = builtin_assets(files);
    let ghost embedded = assets.deep_view();
    assets.push(
        AdminAsset {
            key: ICON_SPRITE.to_owned(),
            mime: "image/svg+xml".to_owned(),
            bytes: sprite,
        },
    );
    assert(assets.deep_view() =~= embedded.push(sprite_asset(bytes)));
    let urls: Vec<(String, String)> = asset_urls(&assets);
    assert(urls.deep_view().last() == (ICON_SPRITE@, asset_path(sprite_asset(bytes))));
    let sprite_url: String = match crate::strs::get(&urls, ICON_SPRITE) {
        Some(path) => cat3(admin_path.as_str(), "/assets/", path),
        None => String::new(),
    };
    let app_name: String = if trim(config.app_name.as_str()).is_empty() {
        "Laterite".to_owned()
    } else {
        config.app_name.clone()
    };
    let locale: String = default_locale(config.locale.as_str(), &locales(&catalogs));
    Ok(
        Panel {
            admin_path,
            secure_cookie: config.secure_cookie,
            trusted_proxies: parse_trusted(&config.trusted_proxies),
            origin: trim_end_matches(config.origin.as_str(), '/').to_owned(),
            timezone: configured_zone(config.timezone.as_str()),
            default_locale: locale,
            catalogs,
            app_name,
            nav,
            settings,
            permissions,
            icons,
            sprite_url,
            assets,
            asset_urls: urls,
            pickers: contributions.picker_sources,
            types: known.types,
            mounts,
            routes: table,
        },
    )
}

/// New on the list of roles leads to the screen that creates one.
pub proof fn law_new_on_roles_creates_a_role(
    admin: Seq<char>,
    r: ResourceModel,
    perms: PermissionSetModel,
    tr: Seq<(Seq<char>, Seq<char>)>,
    icons: Seq<Seq<char>>,
    sprite: Seq<char>,
)
    requires
        r.list == roles_list(),
    ensures
        ({
            let toolbar = mounted_toolbar(
                prefixed(admin, r).list,
                admin,
                perms,
                tr,
                icons,
                sprite,
            );
            &&& toolbar.len() > 0
            &&& own_routes(admin)[0].handler == Handler::RoleNew
            &&& own_routes(admin)[0].path == toolbar[0].href
        }),
{
    law_new_leads_below_the_edit_base(
        prefixed(admin, r).list,
        admin,
        "/roles"@,
        perms,
        tr,
        icons,
        sprite,
    );
    reveal_strlit("/roles");
    reveal_strlit("/new");
    reveal_strlit("/roles/new");
    assert(admin + "/roles"@ + "/new"@ =~= admin + "/roles/new"@);
}

} // verus!
