//! What the routes and the menu promise: where each screen stands, whom it admits, and
//! what a panel refuses to start with.

use vstd::prelude::*;

use crate::access::{allowed, PermissionSetModel};
use crate::assets::{asset_of, builtin_asset_types, file_bytes, AssetModel};
use crate::cells::first_unregistered;
use crate::descriptor::{described, headed, human, label_or, label_words, title_or, FileModel};
use crate::field::named;
use crate::form::{form_prepared, ChoiceModel};
use crate::laws::values::{
    law_a_name_is_found_where_it_stands, law_replacing_changes_one_character, lemma_kept,
};
use crate::list::{ColumnModel, ListModel};
use crate::mount::{
    admits, guard_of, mounted, resource_routes, GuardModel, Handler, MountedModel, RegistriesModel,
    RouteModel, Verbs,
};
use crate::nav::{active_nav, claimed_by, context_of, initial_of, nav_view, NavModel};
use crate::panel::{
    all_assets, all_mounted, brand_name, main_menu, mounted_routes, open_routes, own_routes,
    public_route_models, registered_names, route_table, screen_entries, screen_routes, unknown_icon,
    unknown_item_icon, unknown_menu_icon,
};
use crate::resource::{
    audit_list, builtin_resource_models, prefixed, rebased, roles_list, users_list, ResourceModel,
};
use crate::routemap::{
    collision, dotted_claim, dotted_segment, inside_claim, inside_mount, normal, resolved, under,
};
use crate::routes::{below, ScreenModel};
use crate::settings::ItemModel;
use crate::strs::{lookup, only, replaced, split_on, strip_end, strip_start, trimmed};
use crate::text::{localized, plain, TextModel};
use crate::unicode::uppercase_of;

verus! {

// ---------------------------------------------------------------------- guarding
/// Nobody passes a guard that asks for a permission without holding it, nobody passes one
/// that asks for a sign-in without one, and whoever holds what is asked passes.
pub proof fn law_a_guard_admits_who_holds_what_it_asks(
    permission: Seq<char>,
    operator: PermissionSetModel,
)
    ensures
        !admits(guard_of(Some(permission)), None),
        !admits(guard_of(None), None),
        admits(guard_of(None), Some(operator)),
        admits(guard_of(Some(permission)), Some(operator)) <==> allowed(operator, permission),
        admits(GuardModel::Open, None),
        admits(GuardModel::Open, Some(operator)),
{
}

/// Whether one of the routes stands at a path, answers to these methods and is that
/// screen's.
pub open spec fn stands(
    routes: Seq<RouteModel>,
    path: Seq<char>,
    verbs: Verbs,
    handler: Handler,
) -> bool {
    exists|k: int|
        0 <= k < routes.len() && (#[trigger] routes[k]).path == path && routes[k].verbs == verbs
            && routes[k].handler == handler
}

/// A resource answers everywhere its list and its form lead: the list where it stands,
/// and below it the export, the columns, the deletion and the forms it declares. What
/// changes anything is answered to a POST only.
pub proof fn law_a_resource_answers_what_it_offers(r: ResourceModel, i: usize)
    ensures
        stands(resource_routes(r, i), r.base_path, Verbs::Get, Handler::List(i)),
        stands(
            resource_routes(r, i),
            r.base_path + "/columns"@,
            Verbs::Post,
            Handler::Columns(i),
        ),
        r.list.exportable ==> stands(
            resource_routes(r, i),
            r.base_path + "/export"@,
            Verbs::Get,
            Handler::Export(i),
        ),
        r.list.deletable ==> stands(
            resource_routes(r, i),
            r.base_path + "/delete"@,
            Verbs::Post,
            Handler::Delete(i),
        ),
        r.form is Some ==> stands(
            resource_routes(r, i),
            r.base_path + "/new"@,
            Verbs::GetAndPost,
            Handler::New(i),
        ) && stands(
            resource_routes(r, i),
            r.base_path + "/{id}/edit"@,
            Verbs::GetAndPost,
            Handler::Edit(i),
        ),
{
    let all = resource_routes(r, i);
    let e: int = if r.list.exportable {
        1
    } else {
        0
    };
    let d: int = if r.list.deletable {
        1
    } else {
        0
    };
    assert(all[0].handler == Handler::List(i));
    assert(all[1 + e].handler == Handler::Columns(i));
    if r.list.exportable {
        assert(all[1].handler == Handler::Export(i));
    }
    if r.list.deletable {
        assert(all[2 + e].handler == Handler::Delete(i));
    }
    if r.form is Some {
        assert(all[2 + e + d].handler == Handler::New(i));
        assert(all[3 + e + d].handler == Handler::Edit(i));
    }
}

/// A mounted resource is the resource: its own list, its own form made ready, and a
/// deletion just where its list allows one, through the write its form names or else from
/// its own table.
pub proof fn law_a_mounted_resource_is_its_own(r: ResourceModel, i: usize, known: RegistriesModel)
    ensures
        mounted(r, i, known) matches Ok(m) ==> {
            &&& m.base_path == r.base_path
            &&& m.list == r.list
            &&& (m.form is Some <==> r.form is Some)
            &&& r.form matches Some(f) ==> (m.form matches Some(p) && form_prepared(
                f,
                known.types,
                known.pickers,
                known.persisters,
            ) matches Ok(own) && own == p)
            &&& (m.deleter is Some <==> r.list.deletable)
            &&& r.list.deletable && (r.form matches Some(f) ==> f.persist is None) ==> (
            m.deleter matches Some(ChoiceModel::Default(p)) && p.entity == r.list.entity
                && p.id_field == r.list.id_field)
            &&& r.list.deletable && (r.form matches Some(f) && f.persist is Some) ==> (
            m.deleter == Some(ChoiceModel::Named((r.form->0).persist->0)) && known.persisters.contains(
                (r.form->0).persist->0,
            ))
            &&& forall|k: int|
                0 <= k < r.list.columns.len() ==> known.column_types.contains(
                    (#[trigger] r.list.columns[k]).column_type,
                )
        },
{
    if mounted(r, i, known) is Ok {
        lemma_all_registered(r.list.columns, known.column_types);
    }
}

/// Where nothing is unregistered, everything is registered.
proof fn lemma_all_registered(columns: Seq<ColumnModel>, types: Seq<Seq<char>>)
    requires
        first_unregistered(columns, types) is None,
    ensures
        forall|k: int|
            0 <= k < columns.len() ==> types.contains((#[trigger] columns[k]).column_type),
    decreases columns.len(),
{
    if columns.len() > 0 {
        let rest = columns.drop_first();
        lemma_all_registered(rest, types);
        assert forall|k: int| 0 <= k < columns.len() implies types.contains(
            (#[trigger] columns[k]).column_type,
        ) by {
            if k > 0 {
                assert(rest[k - 1] == columns[k]);
            }
        }
    }
}

/// Each resource is mounted in its own place, and one that cannot be is refused.
pub proof fn law_each_resource_is_mounted(
    resources: Seq<ResourceModel>,
    known: RegistriesModel,
    i: int,
)
    requires
        0 <= i < resources.len(),
        resources.len() <= usize::MAX,
    ensures
        all_mounted(resources, known) matches Ok(all) ==> all.len() == resources.len() && mounted(
            resources[i],
            i as usize,
            known,
        ) == Ok::<MountedModel, Seq<char>>(all[i]),
        mounted(resources[i], i as usize, known) is Err ==> all_mounted(resources, known) is Err,
    decreases resources.len(),
{
    let init = resources.drop_last();
    if init.len() > 0 {
        law_each_resource_is_mounted(
            init,
            known,
            if i < init.len() {
                i
            } else {
                0
            },
        );
    } else {
        assert(all_mounted(init, known) == Ok::<Seq<MountedModel>, Seq<char>>(Seq::empty()));
    }
    if i < init.len() {
        assert(init[i] == resources[i]);
    }
}

// ------------------------------------------------------------------- the table
/// The route table holds every route of every resource, of every screen a module brings,
/// and the panel's own, and no route of a resource is lost among the others.
pub proof fn law_no_route_is_lost(
    admin: Seq<char>,
    mounts: Seq<MountedModel>,
    screens: Seq<ScreenModel>,
    items: Seq<ItemModel>,
    public: Seq<Seq<char>>,
    i: int,
    k: int,
)
    ensures
        ({
            let table = route_table(admin, mounts, screens, items, public);
            &&& stands(table, admin, Verbs::Get, Handler::Dashboard)
            &&& 0 <= i < mounts.len() && 0 <= k < mounts[i].routes.len() ==> table.contains(
                mounts[i].routes[k],
            )
            &&& 0 <= k < own_routes(admin).len() ==> table.contains(own_routes(admin)[k])
            &&& 0 <= k < open_routes(admin).len() ==> table.contains(open_routes(admin)[k])
            &&& 0 <= i < screens.len() ==> stands(
                table,
                admin + screens[i].base_path,
                Verbs::Nested,
                Handler::Contributed(i as usize),
            )
            &&& 0 <= i < public.len() ==> stands(
                table,
                public[i],
                Verbs::Nested,
                Handler::PublicRoute(i as usize),
            )
        }),
{
    let table = route_table(admin, mounts, screens, items, public);
    let a = seq![crate::panel::dashboard_route(admin)];
    let b = mounted_routes(mounts);
    let c = screen_routes(admin, screens);
    let d = own_routes(admin);
    let e = crate::panel::settings_routes(admin, items);
    let f = open_routes(admin);
    let g = public_route_models(public);
    assert(table[0] == a[0]);
    if 0 <= i < mounts.len() && 0 <= k < mounts[i].routes.len() {
        let at = lemma_mounted_at(mounts, i, k);
        assert(table[1 + at] == b[at]);
    }
    let own = 1 + b.len() + c.len();
    if 0 <= k < d.len() {
        assert(table[own + k] == d[k]);
    }
    let free = own + d.len() + e.len();
    if 0 <= k < f.len() {
        assert(table[free + k] == f[k]);
    }
    if 0 <= i < screens.len() {
        assert(table[1 + b.len() + i] == c[i]);
    }
    if 0 <= i < public.len() {
        assert(table[free + f.len() + i] == g[i]);
    }
}

/// Where a resource's route stands among the mounted ones.
proof fn lemma_mounted_at(mounts: Seq<MountedModel>, i: int, k: int) -> (at: int)
    requires
        0 <= i < mounts.len(),
        0 <= k < mounts[i].routes.len(),
    ensures
        0 <= at < mounted_routes(mounts).len(),
        mounted_routes(mounts)[at] == mounts[i].routes[k],
    decreases mounts.len(),
{
    let init = mounts.drop_last();
    if i < init.len() {
        lemma_mounted_at(init, i, k)
    } else {
        mounted_routes(init).len() + k
    }
}

/// A screen that a module brings stands under the panel behind the permission it asks for.
pub proof fn law_a_contributed_screen_is_guarded_by_its_permission(
    admin: Seq<char>,
    screens: Seq<ScreenModel>,
    i: int,
    operator: Option<PermissionSetModel>,
)
    requires
        0 <= i < screens.len(),
    ensures
        screen_routes(admin, screens).len() == screens.len(),
        screen_routes(admin, screens)[i].path == admin + screens[i].base_path,
        admits(screen_routes(admin, screens)[i].guard, operator) <==> operator is Some && allowed(
            operator->0,
            screens[i].permission,
        ),
{
}

/// What changes something in the panel's own screens is never answered to a plain read,
/// and each screen asks for the permission over what it manages.
pub proof fn law_the_panels_own_screens_are_guarded(
    admin: Seq<char>,
    k: int,
    operator: PermissionSetModel,
)
    requires
        0 <= k < own_routes(admin).len(),
    ensures
        ({
            let route = own_routes(admin)[k];
            &&& !admits(route.guard, None)
            &&& route.handler is RoleNew || route.handler is RoleEdit ==> (admits(
                route.guard,
                Some(operator),
            ) <==> allowed(operator, "backend.manage_roles"@))
            &&& route.handler is UserEdit || route.handler is UserActive ==> (admits(
                route.guard,
                Some(operator),
            ) <==> allowed(operator, "backend.manage_users"@))
            &&& route.handler is Plugins || route.handler is PluginToggle ==> (admits(
                route.guard,
                Some(operator),
            ) <==> allowed(operator, "backend.manage_plugins"@))
            &&& route.handler is UserActive || route.handler is PluginToggle
                || route.handler is SessionRevoke || route.handler is SessionRevokeOthers
                || route.handler is Logout ==> route.verbs == Verbs::Post
            &&& admin.is_prefix_of(route.path)
        }),
{
    let route = own_routes(admin)[k];
    assert(route.path.take(admin.len() as int) =~= admin);
}

// ------------------------------------------------------------------- registries
/// A registry holds what it was seeded with and every name that was added, each once; a
/// name that is badly formed or already taken is refused.
pub proof fn law_a_registry_holds_each_name_once(
    seeded: Seq<Seq<char>>,
    added: Seq<Seq<char>>,
    what: Seq<char>,
    i: int,
    j: int,
)
    ensures
        registered_names(seeded, added, what) matches Ok(names) ==> {
            &&& names == seeded + added
            &&& 0 <= i < added.len() ==> named(added[i], true) && !seeded.contains(added[i])
            &&& 0 <= i < j < added.len() ==> added[i] != added[j]
        },
        0 <= i < added.len() && (!named(added[i], true) || seeded.contains(added[i]))
            ==> registered_names(seeded, added, what) is Err,
        0 <= i < j < added.len() && added[i] == added[j] ==> registered_names(
            seeded,
            added,
            what,
        ) is Err,
    decreases added.len(),
{
    if added.len() > 0 {
        let init = added.drop_last();
        let last = added[added.len() - 1];
        law_a_registry_holds_each_name_once(seeded, init, what, i, j);
        if registered_names(seeded, init, what) is Ok {
            let before = registered_names(seeded, init, what)->Ok_0;
            assert(before == seeded + init);
            if seeded.contains(last) {
                let k = choose|k: int| 0 <= k < seeded.len() && seeded[k] == last;
                assert(before[k] == last);
            }
            if 0 <= i < init.len() && added[i] == last {
                assert(before[seeded.len() + i] == last);
            }
            assert(before.push(last) =~= seeded + added);
            if 0 <= i < init.len() {
                assert(init[i] == added[i]);
            }
            if 0 <= j < init.len() {
                assert(init[j] == added[j]);
            }
        } else {
            if 0 <= i < init.len() {
                assert(init[i] == added[i]);
            }
        }
    } else {
        assert(seeded + added =~= seeded);
    }
}

/// A panel starts only where every icon that is named is in the set.
pub proof fn law_every_named_icon_is_in_the_set(
    items: Seq<ItemModel>,
    nav: Seq<NavModel>,
    names: Seq<Seq<char>>,
)
    ensures
        unknown_icon(items, nav, names) is None <==> {
            &&& forall|i: int|
                0 <= i < items.len() ==> ((#[trigger] items[i]).icon matches Some(n)
                    ==> names.contains(n))
            &&& forall|i: int|
                0 <= i < nav.len() ==> ((#[trigger] nav[i]).icon matches Some(n) ==> names.contains(
                    n,
                ))
        },
        unknown_icon(items, nav, names) matches Some(found) ==> !names.contains(found.1),
{
    lemma_item_icons(items, names);
    lemma_menu_icons(nav, names);
}

proof fn lemma_item_icons(items: Seq<ItemModel>, names: Seq<Seq<char>>)
    ensures
        unknown_item_icon(items, names) is None <==> forall|i: int|
            0 <= i < items.len() ==> ((#[trigger] items[i]).icon matches Some(n) ==> names.contains(
                n,
            )),
        unknown_item_icon(items, names) matches Some(found) ==> !names.contains(found.1),
    decreases items.len(),
{
    if items.len() > 0 {
        let rest = items.drop_first();
        lemma_item_icons(rest, names);
        assert(forall|i: int| 0 <= i < rest.len() ==> #[trigger] rest[i] == items[i + 1]);
        assert(forall|i: int| 1 <= i < items.len() ==> #[trigger] items[i] == rest[i - 1]);
        if unknown_item_icon(items, names) is None {
            assert forall|i: int| 0 <= i < items.len() implies ((#[trigger] items[i]).icon matches
                Some(n) ==> names.contains(n)) by {
                if i > 0 {
                    assert(rest[i - 1] == items[i]);
                }
            }
        } else if unknown_item_icon(rest, names) is Some && !(items[0].icon is Some
            && !names.contains(items[0].icon->0)) {
            let k = choose|i: int|
                0 <= i < rest.len() && !((#[trigger] rest[i]).icon matches Some(n) ==> names.contains(
                    n,
                ));
            assert(items[k + 1] == rest[k]);
        }
    }
}

proof fn lemma_menu_icons(nav: Seq<NavModel>, names: Seq<Seq<char>>)
    ensures
        unknown_menu_icon(nav, names) is None <==> forall|i: int|
            0 <= i < nav.len() ==> ((#[trigger] nav[i]).icon matches Some(n) ==> names.contains(n)),
        unknown_menu_icon(nav, names) matches Some(found) ==> !names.contains(found.1),
    decreases nav.len(),
{
    if nav.len() > 0 {
        let rest = nav.drop_first();
        lemma_menu_icons(rest, names);
        assert(forall|i: int| 0 <= i < rest.len() ==> #[trigger] rest[i] == nav[i + 1]);
        assert(forall|i: int| 1 <= i < nav.len() ==> #[trigger] nav[i] == rest[i - 1]);
        if unknown_menu_icon(nav, names) is None {
            assert forall|i: int| 0 <= i < nav.len() implies ((#[trigger] nav[i]).icon matches Some(
                n,
            ) ==> names.contains(n)) by {
                if i > 0 {
                    assert(rest[i - 1] == nav[i]);
                }
            }
        } else if unknown_menu_icon(rest, names) is Some && !(nav[0].icon is Some
            && !names.contains(nav[0].icon->0)) {
            let k = choose|i: int|
                0 <= i < rest.len() && !((#[trigger] rest[i]).icon matches Some(n) ==> names.contains(
                    n,
                ));
            assert(nav[k + 1] == rest[k]);
        }
    }
}

/// Of several files of one key the last is served, and each built-in file is served as
/// its own type with its own content.
pub proof fn law_each_file_is_served_as_itself(
    files: Seq<(Seq<char>, Seq<u8>)>,
    sprite: Seq<u8>,
    registry: Seq<AssetModel>,
    a: AssetModel,
    key: Seq<char>,
    bytes: Seq<u8>,
    other: Seq<char>,
    i: int,
)
    ensures
        asset_of(registry.push(a), a.key) == Some(a),
        other != a.key ==> asset_of(registry.push(a), other) == asset_of(registry, other),
        asset_of(Seq::empty(), key) is None,
        file_bytes(files.push((key, bytes)), key) == bytes,
        other != key ==> file_bytes(files.push((key, bytes)), other) == file_bytes(files, other),
        0 <= i < builtin_asset_types().len() ==> {
            let entry = all_assets(files, sprite)[i];
            &&& entry.key == builtin_asset_types()[i].0
            &&& entry.mime == builtin_asset_types()[i].1
            &&& entry.bytes == file_bytes(files, entry.key)
        },
        all_assets(files, sprite).last().bytes == sprite,
        all_assets(files, sprite).len() == builtin_asset_types().len() + 1,
{
    assert(registry.push(a).drop_last() =~= registry);
    assert(files.push((key, bytes)).drop_last() =~= files);
}

// ------------------------------------------------------------------------- menu
/// The menu starts with the dashboard and ends with the settings; between them stand the
/// resources in order, then the screens that ask for an entry, each under its own label
/// and leading to itself.
pub proof fn law_the_menu_leads_everywhere(
    admin: Seq<char>,
    resources: Seq<ResourceModel>,
    screens: Seq<ScreenModel>,
    i: int,
    label: TextModel,
)
    ensures
        ({
            let menu = main_menu(admin, resources, screens);
            &&& menu[0].path == admin
            &&& menu.last().path == admin + "/settings"@
            &&& 0 <= i < resources.len() ==> menu[1 + i].path == resources[i].base_path && menu[1
                + i].label == resources[i].nav_label
            &&& 0 <= i < screens.len() && screens[i].nav_label == Some(label) ==> menu.contains(
                (NavModel { label, path: admin + screens[i].base_path, icon: None }),
            )
            &&& menu.len() == resources.len() + screen_entries(admin, screens).len() + 2
        }),
        screen_entries(admin, screens).len() <= screens.len(),
{
    let menu = main_menu(admin, resources, screens);
    let entries = screen_entries(admin, screens);
    let make = |s: ScreenModel|
        match s.nav_label {
            Some(l) => Some(crate::panel::plain_entry(l, admin + s.base_path)),
            None => None::<NavModel>,
        };
    assert(entries == screens.filter_map(make));
    if 0 <= i < screens.len() && screens[i].nav_label == Some(label) {
        let entry = NavModel { label, path: admin + screens[i].base_path, icon: None };
        assert(screens.contains(screens[i]) && make(screens[i]) == Some(entry));
        lemma_kept(screens, make, entry);
        let k = choose|k: int| 0 <= k < entries.len() && entries[k] == entry;
        assert(menu[1 + resources.len() + k] == entry);
    }
    lemma_no_more_than_given(screens, make);
}

proof fn lemma_no_more_than_given<A, B>(s: Seq<A>, f: spec_fn(A) -> Option<B>)
    ensures
        s.filter_map(f).len() <= s.len(),
    decreases s.len(),
{
    reveal(Seq::filter_map);
    if s.len() > 0 {
        lemma_no_more_than_given(s.drop_last(), f);
    }
}

/// The tab that is lit leads nearest to the page: the page stands at it or below it, and
/// below the dashboard's own only at it. No tab that leads nearer goes unlit.
pub proof fn law_the_nearest_tab_is_lit(
    nav: Seq<NavModel>,
    admin: Seq<char>,
    path: Seq<char>,
    i: int,
)
    requires
        0 <= i < nav.len(),
    ensures
        path == nav[i].path || (nav[i].path != admin && (nav[i].path + "/"@).is_prefix_of(path))
            ==> active_nav(nav, admin, false, path) is Some && nav[i].path.len() <= (active_nav(
            nav,
            admin,
            false,
            path,
        )->0).len(),
        active_nav(nav, admin, false, path) matches Some(lit) ==> exists|k: int|
            0 <= k < nav.len() && (#[trigger] nav[k]).path == lit,
        active_nav(nav, admin, true, path) == Some(admin + "/settings"@),
    decreases nav.len(),
{
    let init = nav.drop_last();
    let last = nav[nav.len() - 1];
    if init.len() > 0 {
        law_the_nearest_tab_is_lit(
            init,
            admin,
            path,
            if i < init.len() {
                i
            } else {
                0
            },
        );
    }
    if i < init.len() {
        assert(init[i] == nav[i]);
    }
    let now = claimed_by(nav, admin, path);
    let before = claimed_by(init, admin, path);
    if now is Some {
        if now == before && init.len() > 0 {
            let k = choose|k: int| 0 <= k < init.len() && (#[trigger] init[k]).path == now->0;
            assert(nav[k] == init[k]);
        } else {
            assert(last.path == now->0);
        }
    }
}

/// A tab says where it leads, in words, and is lit where it is the one.
pub proof fn law_a_tab_shows_its_entry(
    n: NavModel,
    active: Option<Seq<char>>,
    table: Seq<(Seq<char>, Seq<char>)>,
    icons: Seq<Seq<char>>,
    sprite: Seq<char>,
)
    ensures
        nav_view(n, active, table, icons, sprite).path == n.path,
        nav_view(n, active, table, icons, sprite).label == localized(table, n.label),
        nav_view(n, active, table, icons, sprite).active <==> active == Some(n.path),
{
}

/// Outside the settings nothing of theirs is lit; on their index they are, and no form.
pub proof fn law_the_settings_are_lit_on_their_pages(admin: Seq<char>, path: Seq<char>)
    ensures
        context_of(Seq::empty(), admin, admin + "/settings"@) == (true, None::<Seq<char>>),
        path != admin + "/settings"@ ==> context_of(Seq::empty(), admin, path) == (
            false,
            None::<Seq<char>>,
        ),
{
}

// ------------------------------------------------------------------------ paths
/// A link below a path joins the two with one slash, however the parts were written, and
/// a link to nothing below it is the path itself.
pub proof fn law_a_link_joins_with_one_slash(base: Seq<char>, relative: Seq<char>)
    requires
        base.len() > 0,
        base.last() != '/',
        relative.len() > 0,
        relative[0] != '/',
    ensures
        below(base, relative) == base + "/"@ + relative,
        below(base.push('/'), relative) == base + "/"@ + relative,
        below(base, "/"@ + relative) == base + "/"@ + relative,
        below(base, Seq::empty()) == base,
        under(base, relative) == under(base, "/"@ + relative),
{
    reveal_strlit("/");
    reveal_with_fuel(strip_end, 2);
    reveal_with_fuel(strip_start, 2);
    assert(base.push('/').drop_last() =~= base);
    assert(("/"@ + relative).drop_first() =~= relative);
}

/// A path a deployment names wins over where the module stands, which wins over the base
/// the module declares, which wins over the path made of its name.
pub proof fn law_the_nearest_override_wins(
    module: Seq<char>,
    declared: Seq<char>,
    base: Seq<char>,
    overrides: Seq<(Seq<char>, Seq<char>)>,
    to: Seq<char>,
)
    ensures
        resolved(module, declared, Some(base), overrides.push((module + declared, to))) == normal(
            to,
        ),
        declared.len() > 0 && lookup(overrides, module + declared) is None ==> resolved(
            module,
            declared,
            Some(base),
            overrides.push((module, to)),
        ) == under(to, declared),
        resolved(module, declared, Some(base), Seq::empty()) == under(base, declared),
        resolved(module, declared, None, Seq::empty()) == under(
            "/"@ + replaced(module, '.', '/'),
            declared,
        ),
{
    law_a_name_is_found_where_it_stands(overrides, module + declared, to, module);
    law_a_name_is_found_where_it_stands(overrides, module, to, module + declared);
    if declared.len() > 0 {
        assert((module + declared).len() > module.len());
    }
}

/// A path is taken as it was written, but for the space around it and the slash it starts
/// with.
pub proof fn law_a_path_starts_with_one_slash(path: Seq<char>)
    ensures
        normal(path).len() > 0,
        normal(path)[0] == '/',
        trimmed(path).len() > 0 && trimmed(path)[0] == '/' ==> normal(path) == trimmed(path),
        trimmed(path).len() == 0 || trimmed(path)[0] != '/' ==> normal(path) == "/"@ + trimmed(
            path,
        ),
{
    reveal_strlit("/");
    let t = trimmed(path);
    if t.len() > 0 && t[0] == '/' {
        assert("/"@ =~= t.take(1));
        assert("/"@.is_prefix_of(t));
    }
    if "/"@.is_prefix_of(t) {
        assert(t.subrange(0, 1)[0] == t[0]);
        assert("/"@[0] == t[0]);
    }
}

/// A route that was moved stands under where it was moved to.
pub proof fn law_a_moved_route_stands_under_its_base(base: Seq<char>, declared: Seq<char>)
    requires
        declared.len() > 0,
        declared[0] != '/',
    ensures
        under(base, declared) == strip_end(normal(base), only('/')) + "/"@ + declared,
        strip_end(normal(base), only('/')).len() > 0 ==> under(base, Seq::empty()) == strip_end(
            normal(base),
            only('/'),
        ),
        strip_end(normal(base), only('/')).len() == 0 ==> under(base, Seq::empty()) == "/"@,
{
    reveal_with_fuel(strip_start, 2);
}

/// Claims on paths are refused just where two claimants want the same one.
pub proof fn law_claims_collide_where_a_path_is_wanted_twice(
    claims: Seq<(Seq<char>, Seq<char>)>,
)
    ensures
        collision(claims) is None <==> forall|i: int, j: int|
            0 <= i < j < claims.len() && claims[i].0 == claims[j].0 ==> #[trigger] claims[i].1
                == #[trigger] claims[j].1,
    decreases claims.len(),
{
    if collision(claims) is None {
        assert forall|i: int, j: int|
            0 <= i < j < claims.len() && claims[i].0 == claims[j].0 implies #[trigger] claims[i].1
            == #[trigger] claims[j].1 by {
            crate::routemap::law_a_path_has_one_owner(claims, i, j);
        }
    } else {
        let init = claims.drop_last();
        let last = claims[claims.len() - 1];
        law_claims_collide_where_a_path_is_wanted_twice(init);
        if collision(init) is Some {
            let (i, j) = choose|i: int, j: int|
                0 <= i < j < init.len() && init[i].0 == init[j].0 && #[trigger] init[i].1
                    != #[trigger] init[j].1;
            assert(claims[i] == init[i] && claims[j] == init[j]);
            assert(claims[i].1 != claims[j].1);
        } else {
            let i = lemma_found_at(init, last.0);
            assert(claims[i] == init[i]);
            assert(claims[i].1 != claims[claims.len() - 1].1);
        }
    }
}

/// Where a pair that is found stands.
proof fn lemma_found_at(pairs: Seq<(Seq<char>, Seq<char>)>, key: Seq<char>) -> (at: int)
    requires
        lookup(pairs, key) is Some,
    ensures
        0 <= at < pairs.len(),
        pairs[at] == (key, lookup(pairs, key)->0),
    decreases pairs.len(),
{
    if pairs.last().0 == key {
        pairs.len() - 1
    } else {
        lemma_found_at(pairs.drop_last(), key)
    }
}

/// A path with a dot in one of its segments is refused, and no other is.
pub proof fn law_no_path_has_a_dot(claims: Seq<(Seq<char>, Seq<char>)>)
    ensures
        dotted_claim(claims) is None <==> forall|i: int, k: int|
            0 <= i < claims.len() && 0 <= k < split_on(claims[i].0, only('/')).len()
                ==> !(#[trigger] split_on(claims[i].0, only('/'))[k]).contains('.'),
    decreases claims.len(),
{
    if claims.len() > 0 {
        let rest = claims.drop_first();
        law_no_path_has_a_dot(rest);
        let first = split_on(claims[0].0, only('/'));
        lemma_dotted(first);
        if dotted_claim(claims) is None {
            assert forall|i: int, k: int|
                0 <= i < claims.len() && 0 <= k < split_on(
                    claims[i].0,
                    only('/'),
                ).len() implies !(#[trigger] split_on(claims[i].0, only('/'))[k]).contains('.') by {
                if i > 0 {
                    assert(rest[i - 1] == claims[i]);
                    assert(!split_on(rest[i - 1].0, only('/'))[k].contains('.'));
                } else {
                    assert(!first[k].contains('.'));
                }
            }
        } else if dotted_segment(first) is Some {
            let k = choose|k: int| 0 <= k < first.len() && (#[trigger] first[k]).contains('.');
            assert(split_on(claims[0].0, only('/'))[k].contains('.'));
        } else {
            let (i, k) = choose|i: int, k: int|
                0 <= i < rest.len() && 0 <= k < split_on(rest[i].0, only('/')).len() && (
                #[trigger] split_on(rest[i].0, only('/'))[k]).contains('.');
            assert(claims[i + 1] == rest[i]);
            assert(split_on(claims[i + 1].0, only('/'))[k].contains('.'));
        }
    }
}

proof fn lemma_dotted(segments: Seq<Seq<char>>)
    ensures
        dotted_segment(segments) is None <==> forall|k: int|
            0 <= k < segments.len() ==> !(#[trigger] segments[k]).contains('.'),
    decreases segments.len(),
{
    if segments.len() > 0 {
        let rest = segments.drop_first();
        lemma_dotted(rest);
        if dotted_segment(segments) is None {
            assert forall|k: int| 0 <= k < segments.len() implies !(
            #[trigger] segments[k]).contains('.') by {
                if k > 0 {
                    assert(rest[k - 1] == segments[k]);
                }
            }
        } else if !segments[0].contains('.') {
            let k = choose|k: int| 0 <= k < rest.len() && (#[trigger] rest[k]).contains('.');
            assert(segments[k + 1] == rest[k]);
        }
    }
}

/// A public route is refused just where it stands at the panel or below it.
pub proof fn law_a_public_route_stands_outside_the_panel(
    claims: Seq<(Seq<char>, Seq<char>)>,
    admin: Seq<char>,
)
    ensures
        inside_claim(claims, admin) is None <==> forall|i: int|
            0 <= i < claims.len() ==> (#[trigger] claims[i]).0 != admin && !(admin
                + "/"@).is_prefix_of(claims[i].0),
    decreases claims.len(),
{
    if claims.len() > 0 {
        let rest = claims.drop_first();
        law_a_public_route_stands_outside_the_panel(rest, admin);
        if inside_claim(claims, admin) is None {
            assert forall|i: int| 0 <= i < claims.len() implies (#[trigger] claims[i]).0 != admin
                && !(admin + "/"@).is_prefix_of(claims[i].0) by {
                if i > 0 {
                    assert(rest[i - 1] == claims[i]);
                }
            }
        } else if !inside_mount(claims[0].0, admin) {
            let i = choose|i: int|
                0 <= i < rest.len() && !((#[trigger] rest[i]).0 != admin && !(admin
                    + "/"@).is_prefix_of(rest[i].0));
            assert(claims[i + 1] == rest[i]);
        }
    }
}

/// A resource under the panel stands below it, and is in every other way the same.
pub proof fn law_a_resource_moves_whole(admin: Seq<char>, base: Seq<char>, r: ResourceModel)
    ensures
        prefixed(admin, r).base_path == admin + r.base_path,
        prefixed(admin, r).permission == r.permission,
        prefixed(admin, r).nav_label == r.nav_label,
        prefixed(admin, r).list == (ListModel {
            edit_base: prefixed(admin, r).list.edit_base,
            ..r.list
        }),
        r.list.edit_base matches Some(b) ==> prefixed(admin, r).list.edit_base == Some(admin + b),
        r.list.edit_base is None ==> prefixed(admin, r).list.edit_base is None,
        prefixed(admin, r).form is Some <==> r.form is Some,
        r.form matches Some(f) ==> (prefixed(admin, r).form->0).base_path == admin + f.base_path
            && (prefixed(admin, r).form->0).fields == f.fields && (prefixed(admin, r).form->0).entity
            == f.entity,
        rebased(base, r).base_path == base,
        rebased(base, r).permission == r.permission,
        rebased(base, r).list == (ListModel {
            edit_base: rebased(base, r).list.edit_base,
            ..r.list
        }),
        rebased(r.base_path, r) == r,
{
    let same = rebased(r.base_path, r);
    assert(same.list == r.list);
    assert(same.form == r.form);
}

/// The audit log is read and exported, and never written from the panel; operators are
/// edited and not deleted; roles are created, edited and deleted.
pub proof fn law_the_built_in_lists_offer_what_they_are_for()
    ensures
        audit_list().exportable && !audit_list().creatable && !audit_list().deletable
            && audit_list().edit_base is None,
        users_list().edit_base is Some && !users_list().deletable && !users_list().creatable,
        roles_list().edit_base is Some && roles_list().creatable && roles_list().deletable,
        forall|i: int|
            0 <= i < builtin_resource_models().len() ==> {
                let r = #[trigger] builtin_resource_models()[i];
                r.list.edit_base matches Some(b) ==> b == r.base_path
            },
{
}

// ------------------------------------------------------------------ descriptors
/// A label is what was declared, and the name in words where nothing was.
pub proof fn law_a_declared_label_is_kept(label: TextModel, name: Seq<char>, other: TextModel)
    ensures
        label.source.len() > 0 ==> label_or(label, name) == label,
        label.source.len() == 0 ==> label_or(label, name) == plain(human(name)),
        label.source.len() > 0 ==> title_or(label, other) == label,
        label.source.len() == 0 ==> title_or(label, other) == other,
{
}

/// A name reads in words: each underscore or hyphen that parts two of them becomes a
/// space, and the first word gets a capital.
pub proof fn law_a_name_reads_in_words(words: Seq<Seq<char>>, word: Seq<char>)
    requires
        word.len() > 0,
    ensures
        words.len() > 0 ==> label_words(words.push(word)) == label_words(words) + " "@ + word,
        label_words(seq![word]) == headed(word),
        headed(word) == uppercase_of(word[0]) + word.skip(1),
        label_words(words.push(Seq::empty())) == label_words(words),
        !word.contains('_') && !word.contains('-') ==> human(word) == headed(word),
{
    assert(words.push(word).drop_last() =~= words);
    assert(words.push(Seq::<char>::empty()).drop_last() =~= words);
    reveal_with_fuel(label_words, 2);
    assert(seq![word].drop_last() =~= Seq::<Seq<char>>::empty());
    if !word.contains('_') && !word.contains('-') {
        assert(replaced(word, '-', '_') =~= word) by {
            assert forall|i: int| 0 <= i < word.len() implies #[trigger] replaced(word, '-', '_')[i]
                == word[i] by {
                assert(word.contains(word[i]));
                law_replacing_changes_one_character(word, '-', '_', i);
            }
        }
        assert forall|i: int| 0 <= i < word.len() implies !only('_')(#[trigger] word[i]) by {
            assert(word.contains(word[i]));
        }
        crate::strs::lemma_split_single(word, only('_'));
        assert(split_on(word, only('_')) =~= seq![word]);
    }
}

/// A described resource keeps what its file declares: each column, filter and field in
/// order and in every way but the label, which is filled in.
pub proof fn law_a_described_resource_keeps_its_declaration(file: FileModel, i: int)
    ensures
        ({
            let r = described(file);
            &&& r.base_path == file.path
            &&& r.nav_label == file.title
            &&& r.permission == file.permission
            &&& r.list.columns.len() == file.list.columns.len()
            &&& 0 <= i < file.list.columns.len() ==> {
                &&& r.list.columns[i].field == file.list.columns[i].field
                &&& r.list.columns[i].column_type == file.list.columns[i].column_type
                &&& r.list.columns[i].searchable == file.list.columns[i].searchable
                &&& file.list.columns[i].label.source.len() > 0 ==> r.list.columns[i].label
                    == file.list.columns[i].label
            }
            &&& r.list.filters.len() == file.list.filters.len()
            &&& 0 <= i < file.list.filters.len() ==> r.list.filters[i].field
                == file.list.filters[i].field && r.list.filters[i].kind
                == file.list.filters[i].kind
            &&& r.list.order_by == file.list.order_by
            &&& r.list.order_dir == file.list.order_dir
            &&& r.list.per_page == file.list.per_page
            &&& r.list.creatable == file.list.creatable
            &&& r.list.deletable == file.list.deletable
            &&& r.list.exportable == file.list.exportable
            &&& r.list.toolbar == file.list.toolbar
            &&& (r.form is Some <==> file.form is Some)
            &&& file.form matches Some(f) ==> {
                &&& (r.form->0).fields.len() == f.fields.len()
                &&& (r.form->0).persist == f.persist
                &&& 0 <= i < f.fields.len() ==> {
                    &&& (r.form->0).fields[i].name == f.fields[i].name
                    &&& (r.form->0).fields[i].field_type == f.fields[i].field_type
                    &&& (r.form->0).fields[i].options == f.fields[i].options
                    &&& (r.form->0).fields[i].rules == f.fields[i].rules
                }
            }
        }),
{
}

/// The initial of a name is its first letter as a capital, and a question mark where
/// there is no name; a panel without a name of its own has the product's.
pub proof fn law_a_name_has_an_initial(name: Seq<char>)
    ensures
        name.len() > 0 ==> initial_of(name) == uppercase_of(name[0]),
        name.len() == 0 ==> initial_of(name) == "?"@,
        trimmed(name).len() > 0 ==> brand_name(name) == name,
        trimmed(name).len() == 0 ==> brand_name(name) == "Laterite"@,
{
}

} // verus!
