//! What the settings promise: who sees which, where each stands, and what a saved one
//! reads as.

use vstd::prelude::*;
use vstd::seq_lib::to_multiset_contains;

use crate::access::{allowed, PermissionSetModel};
use crate::attr::{held, law_put_then_held, lemma_key_at, AttrModel};
use crate::contributed::{AnswersModel, FieldTypesModel};
use crate::field::{is_on, LeafKind};
use crate::field_view::{kind_in, value_text, FieldKind, FieldValueModel, FieldVmModel};
use crate::form::FormFieldModel;
use crate::laws::rows::{law_a_statement_is_about_the_row_it_names, no_row, row_written};
use crate::mount::{GuardModel, Handler, Verbs};
use crate::nav::{context_of, form_at, link_at};
use crate::nums::decimal_int;
use crate::order::{law_sorting_orders, lemma_text_order, orders, sorted_by};
use crate::panel::{own_routes, settings_routes};
use crate::persist::BoundModel;
use crate::resource::builtin_resource_models;
use crate::settings::{
    brand_name, builtin_settings_models, category_first, category_view, heading, headings,
    item_path, item_view, law_items_stand_by_weight, lemma_visible, lighter, lowest, openable,
    setting_of, setting_value, settings_form, settings_of, shown_value, sidebar, stands_under,
    visible, CategoryModel, ItemModel, MenuModel,
};
use crate::statements::{Backend, ChosenModel, ParamModel};
use crate::store::{setting_read, setting_write};
use crate::strs::trimmed;
use crate::table::{among, text_in, StoredRow};
use crate::text::{localized, TextModel};

verus! {

// ------------------------------------------------------------------------ seeing
/// An operator sees an item just where it asks for nothing or they hold what it asks
/// for, and the items they see stand in the order they were declared in.
pub proof fn law_an_item_is_seen_by_whom_it_admits(
    items: Seq<ItemModel>,
    perms: PermissionSetModel,
    item: ItemModel,
)
    ensures
        visible(items, perms).contains(item) <==> items.contains(item) && (item.permission matches
            Some(p) ==> allowed(perms, p)),
        item.permission is None ==> visible(items.push(item), perms) == visible(
            items,
            perms,
        ).push(item),
        item.permission matches Some(p) ==> (allowed(perms, p) ==> visible(items.push(item), perms)
            == visible(items, perms).push(item)),
        item.permission matches Some(p) ==> (!allowed(perms, p) ==> visible(items.push(item), perms)
            == visible(items, perms)),
{
    lemma_visible(items, perms, item);
    reveal(Seq::filter);
    assert(items.push(item).drop_last() =~= items);
}

/// A form opens by its code, the first of that code that is a form of its own; a code
/// that no form has opens nothing.
pub proof fn law_a_form_opens_by_its_code(items: Seq<ItemModel>, code: Seq<char>)
    ensures
        openable(items, code) is Some <==> exists|i: int|
            0 <= i < items.len() && (#[trigger] items[i]).code == code && items[i].link is None,
        openable(items, code) matches Some(item) ==> exists|i: int|
            {
                &&& 0 <= i < items.len()
                &&& #[trigger] items[i] == item
                &&& item.code == code
                &&& item.link is None
                &&& forall|j: int|
                    0 <= j < i ==> (#[trigger] items[j]).code != code || items[j].link is Some
            },
    decreases items.len(),
{
    if items.len() > 0 {
        let rest = items.drop_first();
        law_a_form_opens_by_its_code(rest, code);
        if items[0].code == code && items[0].link is None {
            assert(items[0] == openable(items, code)->0);
        } else {
            if openable(rest, code) is Some {
                let item = openable(rest, code)->0;
                let k = choose|i: int|
                    {
                        &&& 0 <= i < rest.len()
                        &&& #[trigger] rest[i] == item
                        &&& item.code == code
                        &&& item.link is None
                        &&& forall|j: int|
                            0 <= j < i ==> (#[trigger] rest[j]).code != code || rest[j].link is Some
                    };
                assert(items[k + 1] == item);
                assert forall|j: int| 0 <= j < k + 1 implies (#[trigger] items[j]).code != code
                    || items[j].link is Some by {
                    if j > 0 {
                        assert(rest[j - 1] == items[j]);
                    }
                }
            }
            if exists|i: int|
                0 <= i < items.len() && (#[trigger] items[i]).code == code && items[i].link is None {
                let i = choose|i: int|
                    0 <= i < items.len() && (#[trigger] items[i]).code == code && items[i].link is None;
                assert(rest[i - 1] == items[i]);
            }
        }
    }
}

// ---------------------------------------------------------------------- standing
/// Whatever is sorted holds what it held.
proof fn lemma_sorted_holds<T>(items: Seq<T>, less: spec_fn(T, T) -> bool, x: T)
    requires
        orders(less),
    ensures
        sorted_by(items, less).contains(x) <==> items.contains(x),
{
    law_sorting_orders(items, less);
    to_multiset_contains(items, x);
    to_multiset_contains(sorted_by(items, less), x);
}

proof fn lemma_lighter_orders()
    ensures
        orders(lighter()),
{
    assert forall|a: ItemModel, b: ItemModel| #[trigger] lighter()(a, b) implies !lighter()(
        b,
        a,
    ) by {
        lemma_text_order(a.label.source, b.label.source, b.label.source);
    }
    assert forall|a: ItemModel, b: ItemModel, c: ItemModel|
        !(#[trigger] lighter()(b, a)) && !(#[trigger] lighter()(c, b)) implies !lighter()(c, a) by {
        lemma_text_order(a.label.source, b.label.source, c.label.source);
    }
}

proof fn lemma_categories_order()
    ensures
        orders(category_first()),
{
    assert forall|a: CategoryModel, b: CategoryModel| #[trigger]
        category_first()(a, b) implies !category_first()(b, a) by {
        lemma_text_order(a.name, b.name, b.name);
    }
    assert forall|a: CategoryModel, b: CategoryModel, c: CategoryModel|
        !(#[trigger] category_first()(b, a)) && !(#[trigger] category_first()(
            c,
            b,
        )) implies !category_first()(c, a) by {
        lemma_text_order(a.name, b.name, c.name);
    }
}

/// Each item's heading is there, once.
proof fn lemma_headings(table: Seq<(Seq<char>, Seq<char>)>, items: Seq<ItemModel>, h: Seq<char>)
    ensures
        headings(table, items).contains(h) <==> exists|i: int|
            0 <= i < items.len() && heading(table, #[trigger] items[i]) == h,
        headings(table, items).no_duplicates(),
    decreases items.len(),
{
    if items.len() > 0 {
        let init = items.drop_last();
        let before = headings(table, init);
        let now = headings(table, items);
        let last = heading(table, items.last());
        lemma_headings(table, init, h);
        if before.contains(h) {
            let i = choose|i: int| 0 <= i < init.len() && heading(table, #[trigger] init[i]) == h;
            assert(items[i] == init[i]);
            let k = choose|k: int| 0 <= k < before.len() && before[k] == h;
            assert(now[k] == h);
        }
        if exists|i: int| 0 <= i < items.len() && heading(table, #[trigger] items[i]) == h {
            let i = choose|i: int| 0 <= i < items.len() && heading(table, #[trigger] items[i]) == h;
            if i < init.len() {
                assert(init[i] == items[i]);
            } else if !before.contains(last) {
                assert(now[before.len() as int] == h);
            }
        }
        if now.contains(h) && !before.contains(h) {
            let k = choose|k: int| 0 <= k < now.len() && now[k] == h;
            if k < before.len() {
                assert(before[k] == h);
            }
            assert(heading(table, items[items.len() - 1]) == h);
        }
    }
}

/// What a filter keeps.
proof fn lemma_members(
    table: Seq<(Seq<char>, Seq<char>)>,
    items: Seq<ItemModel>,
    h: Seq<char>,
    item: ItemModel,
)
    ensures
        items.filter(stands_under(table, h)).contains(item) <==> items.contains(item) && heading(
            table,
            item,
        ) == h,
    decreases items.len(),
{
    reveal(Seq::filter);
    let keep = stands_under(table, h);
    if items.len() > 0 {
        let init = items.drop_last();
        lemma_members(table, init, h, item);
        let was = init.filter(keep);
        let now = items.filter(keep);
        if items.contains(item) {
            let j = choose|j: int| 0 <= j < items.len() && items[j] == item;
            if j < init.len() {
                assert(init[j] == item);
            } else if heading(table, item) == h {
                assert(now[was.len() as int] == item);
            }
        }
        if init.contains(item) {
            let j = choose|j: int| 0 <= j < init.len() && init[j] == item;
            assert(items[j] == item);
        }
        if was.contains(item) {
            let j = choose|j: int| 0 <= j < was.len() && was[j] == item;
            assert(now[j] == item);
        }
        if now.contains(item) {
            let j = choose|j: int| 0 <= j < now.len() && now[j] == item;
            if j < was.len() {
                assert(was[j] == item);
            } else {
                assert(items[items.len() - 1] == item);
            }
        }
    }
}

/// Every item stands in the sidebar under the category it names, as itself: with its own
/// label, leading to its own page, and lit where it is the active one.
pub proof fn law_every_item_stands_under_its_category(
    m: MenuModel,
    items: Seq<ItemModel>,
    item: ItemModel,
)
    requires
        items.contains(item),
    ensures
        exists|c: CategoryModel, k: int|
            {
                &&& #[trigger] sidebar(m, items).contains(c)
                &&& c.name == localized(m.table, item.category)
                &&& 0 <= k < c.items.len()
                &&& (#[trigger] c.items[k]).label == localized(m.table, item.label)
                &&& c.items[k].description == localized(m.table, item.description)
                &&& c.items[k].path == item_path(item, m.admin)
                &&& (c.items[k].active <==> m.active == Some(item.code))
            },
{
    let h = heading(m.table, item);
    let i = choose|i: int| 0 <= i < items.len() && items[i] == item;
    assert(heading(m.table, items[i]) == h);
    lemma_headings(m.table, items, h);
    let hs = headings(m.table, items);
    let at = choose|k: int| 0 <= k < hs.len() && hs[k] == h;
    let views = hs.map_values(|x: Seq<char>| category_view(m, items, x));
    let c = category_view(m, items, h);
    assert(views[at] == c);
    lemma_categories_order();
    lemma_sorted_holds(views, category_first(), c);
    let members = items.filter(stands_under(m.table, h));
    lemma_members(m.table, items, h, item);
    lemma_lighter_orders();
    lemma_sorted_holds(members, lighter(), item);
    let sorted = sorted_by(members, lighter());
    let k = choose|k: int| 0 <= k < sorted.len() && sorted[k] == item;
    assert(c.items[k] == item_view(m, item));
    assert(sidebar(m, items).contains(c));
}

/// Nothing else stands in the sidebar: each category is named by an item that is there,
/// no two have one name, and each line of a category is one of its items.
pub proof fn law_the_sidebar_holds_nothing_else(m: MenuModel, items: Seq<ItemModel>, at: int)
    requires
        0 <= at < sidebar(m, items).len(),
    ensures
        ({
            let c = sidebar(m, items)[at];
            &&& exists|i: int|
                0 <= i < items.len() && localized(m.table, (#[trigger] items[i]).category) == c.name
            &&& forall|k: int|
                0 <= k < c.items.len() ==> exists|i: int|
                    {
                        &&& 0 <= i < items.len()
                        &&& localized(m.table, (#[trigger] items[i]).category) == c.name
                        &&& (#[trigger] c.items[k]).path == item_path(items[i], m.admin)
                        &&& c.items[k].label == localized(m.table, items[i].label)
                    }
        }),
        sidebar(m, items).len() == headings(m.table, items).len(),
        headings(m.table, items).no_duplicates(),
{
    let hs = headings(m.table, items);
    let views = hs.map_values(|x: Seq<char>| category_view(m, items, x));
    let c = sidebar(m, items)[at];
    lemma_categories_order();
    law_sorting_orders(views, category_first());
    assert(sidebar(m, items).contains(c));
    lemma_sorted_holds(views, category_first(), c);
    let v = choose|v: int| 0 <= v < views.len() && views[v] == c;
    let h = hs[v];
    assert(hs.contains(h));
    lemma_headings(m.table, items, h);
    assert(c == category_view(m, items, h));
    let i = choose|i: int| 0 <= i < items.len() && heading(m.table, #[trigger] items[i]) == h;
    assert(localized(m.table, items[i].category) == c.name);
    lemma_lighter_orders();
    let members = items.filter(stands_under(m.table, h));
    let sorted = sorted_by(members, lighter());
    assert forall|k: int| 0 <= k < c.items.len() implies exists|i: int|
        {
            &&& 0 <= i < items.len()
            &&& localized(m.table, (#[trigger] items[i]).category) == c.name
            &&& (#[trigger] c.items[k]).path == item_path(items[i], m.admin)
            &&& c.items[k].label == localized(m.table, items[i].label)
        } by {
        let item = sorted[k];
        assert(sorted.contains(item));
        lemma_sorted_holds(members, lighter(), item);
        lemma_members(m.table, items, h, item);
        let j = choose|j: int| 0 <= j < items.len() && items[j] == item;
        assert(c.items[k] == item_view(m, item));
        assert(localized(m.table, items[j].category) == c.name);
    }
}

/// Categories stand by the lowest weight in them, then by name; items by weight, then by
/// label.
pub proof fn law_lighter_stands_first(m: MenuModel, items: Seq<ItemModel>, i: int, j: int)
    requires
        0 <= i < j,
    ensures
        ({
            let side = sidebar(m, items);
            j < side.len() ==> side[i].min_order <= side[j].min_order
        }),
        ({
            let sorted = sorted_by(items, lighter());
            j < sorted.len() ==> sorted[i].order <= sorted[j].order
        }),
{
    let views = headings(m.table, items).map_values(|h: Seq<char>| category_view(m, items, h));
    lemma_categories_order();
    law_sorting_orders(views, category_first());
    law_items_stand_by_weight(items);
    let side = sidebar(m, items);
    if j < side.len() {
        assert(!category_first()(side[j], side[i]));
    }
    let sorted = sorted_by(items, lighter());
    if j < sorted.len() {
        assert(!lighter()(sorted[j], sorted[i]));
    }
}

/// A category weighs as its lightest item does.
pub proof fn law_a_category_weighs_as_its_lightest(items: Seq<ItemModel>, i: int)
    requires
        0 <= i < items.len(),
    ensures
        lowest(items) <= items[i].order,
        exists|k: int| 0 <= k < items.len() && (#[trigger] items[k]).order == lowest(items),
    decreases items.len(),
{
    if items.len() == 1 {
        assert(items[0].order == lowest(items));
    } else {
        let init = items.drop_last();
        law_a_category_weighs_as_its_lightest(
            init,
            if i < init.len() {
                i
            } else {
                0
            },
        );
        let k = choose|k: int| 0 <= k < init.len() && (#[trigger] init[k]).order == lowest(init);
        assert(items[k].order == lowest(init));
        assert(items[items.len() - 1] == items.last());
        if i < init.len() {
            assert(init[i] == items[i]);
        }
    }
}

// ----------------------------------------------------------------------- leading
/// An item's page is where its link leads, or where its form stands: at the route it
/// names, or below the settings under its code.
pub proof fn law_an_item_leads_to_its_page(item: ItemModel, admin: Seq<char>)
    ensures
        item.link matches Some(l) ==> item_path(item, admin) == admin + l,
        item.link is None && item.route is Some ==> item_path(item, admin) == admin
            + item.route->0,
        item.link is None && item.route is None ==> item_path(item, admin) == admin + (
        "/settings/"@ + item.code),
{
}

/// Every form has a route of its own where the sidebar leads, which answers to reading
/// and to saving, and an item that only leads elsewhere has none.
pub proof fn law_a_form_stands_where_its_item_leads(admin: Seq<char>, items: Seq<ItemModel>, i: int)
    requires
        0 <= i < items.len(),
        items.len() <= usize::MAX,
    ensures
        items[i].link is None ==> exists|k: int|
            {
                &&& 0 <= k < settings_routes(admin, items).len()
                &&& (#[trigger] settings_routes(admin, items)[k]).path == item_path(
                    items[i],
                    admin,
                )
                &&& settings_routes(admin, items)[k].handler == Handler::SettingsForm(i as usize)
                &&& settings_routes(admin, items)[k].verbs == Verbs::GetAndPost
                &&& settings_routes(admin, items)[k].guard == GuardModel::SignedIn
            },
        items[i].link is Some ==> forall|k: int|
            0 <= k < settings_routes(admin, items).len() ==> (#[trigger] settings_routes(
                admin,
                items,
            )[k]).handler != Handler::SettingsForm(i as usize),
    decreases items.len(),
{
    let init = items.drop_last();
    let before = settings_routes(admin, init);
    let now = settings_routes(admin, items);
    if i < init.len() {
        law_a_form_stands_where_its_item_leads(admin, init, i);
        if items[i].link is None {
            let k = choose|k: int|
                {
                    &&& 0 <= k < before.len()
                    &&& (#[trigger] before[k]).path == item_path(init[i], admin)
                    &&& before[k].handler == Handler::SettingsForm(i as usize)
                    &&& before[k].verbs == Verbs::GetAndPost
                    &&& before[k].guard == GuardModel::SignedIn
                };
            assert(now[k] == before[k]);
        } else {
            assert forall|k: int| 0 <= k < now.len() implies (#[trigger] now[k]).handler
                != Handler::SettingsForm(i as usize) by {
                if k < before.len() {
                    assert(now[k] == before[k]);
                }
            }
        }
    } else {
        if items[i].link is None {
            assert(now[before.len() as int].path == item_path(items[i], admin));
        } else {
            lemma_only_forms_before(admin, init, i as usize);
        }
    }
}

/// The routes of the first items are about those items.
proof fn lemma_only_forms_before(admin: Seq<char>, items: Seq<ItemModel>, i: usize)
    requires
        items.len() <= i,
    ensures
        forall|k: int|
            0 <= k < settings_routes(admin, items).len() ==> (#[trigger] settings_routes(
                admin,
                items,
            )[k]).handler != Handler::SettingsForm(i),
    decreases items.len(),
{
    if items.len() > 0 {
        let init = items.drop_last();
        lemma_only_forms_before(admin, init, i);
        let before = settings_routes(admin, init);
        let now = settings_routes(admin, items);
        assert forall|k: int| 0 <= k < now.len() implies (#[trigger] now[k]).handler
            != Handler::SettingsForm(i) by {
            if k < before.len() {
                assert(now[k] == before[k]);
            }
        }
    }
}

/// On the page of a form, the panel is in the settings, with that form lit.
pub proof fn law_a_form_is_lit_on_its_page(
    items: Seq<ItemModel>,
    admin: Seq<char>,
    i: int,
)
    requires
        0 <= i < items.len(),
        items[i].link is None,
        item_path(items[i], admin) != admin + "/settings"@,
        forall|j: int|
            0 <= j < i ==> (#[trigger] items[j]).link is Some || item_path(items[j], admin)
                != item_path(items[i], admin),
    ensures
        context_of(items, admin, item_path(items[i], admin)) == (true, Some(items[i].code)),
    decreases items.len(),
{
    lemma_form_at(items, admin, item_path(items[i], admin), i);
}

proof fn lemma_form_at(items: Seq<ItemModel>, admin: Seq<char>, path: Seq<char>, i: int)
    requires
        0 <= i < items.len(),
        items[i].link is None,
        item_path(items[i], admin) == path,
        forall|j: int|
            0 <= j < i ==> (#[trigger] items[j]).link is Some || item_path(items[j], admin) != path,
    ensures
        form_at(items, admin, path) == Some(items[i].code),
    decreases items.len(),
{
    if i > 0 {
        let rest = items.drop_first();
        assert(rest[i - 1] == items[i]);
        assert(items[0].link is Some || item_path(items[0], admin) != path);
        assert forall|j: int| 0 <= j < i - 1 implies (#[trigger] rest[j]).link is Some || item_path(
            rest[j],
            admin,
        ) != path by {
            assert(rest[j] == items[j + 1]);
        }
        lemma_form_at(rest, admin, path, i - 1);
    }
}

/// On a page that items lead to, the one that leads nearest to it is lit: a link the page
/// stands at or below, and none longer.
pub proof fn law_the_nearest_link_is_lit(
    items: Seq<ItemModel>,
    admin: Seq<char>,
    path: Seq<char>,
    i: int,
)
    requires
        0 <= i < items.len(),
    ensures
        link_at(items, admin, path) matches Some(found) ==> {
            &&& path == found.0 || (found.0 + "/"@).is_prefix_of(path)
            &&& exists|k: int|
                0 <= k < items.len() && (#[trigger] items[k]).code == found.1 && items[k].link is Some
                    && admin + items[k].link->0 == found.0
        },
        items[i].link matches Some(l) ==> (path == admin + l || (admin + l + "/"@).is_prefix_of(
            path,
        ) ==> link_at(items, admin, path) is Some && (admin + l).len() <= (link_at(
            items,
            admin,
            path,
        )->0).0.len()),
    decreases items.len(),
{
    let init = items.drop_last();
    let last = items[items.len() - 1];
    if init.len() > 0 {
        law_the_nearest_link_is_lit(
            init,
            admin,
            path,
            if i < init.len() {
                i
            } else {
                0
            },
        );
    }
    let before = link_at(init, admin, path);
    let now = link_at(items, admin, path);
    if i < init.len() {
        assert(init[i] == items[i]);
    }
    if now is Some && now == before && init.len() > 0 {
        let found = now->0;
        let k = choose|k: int|
            0 <= k < init.len() && (#[trigger] init[k]).code == found.1 && init[k].link is Some
                && admin + init[k].link->0 == found.0;
        assert(items[k] == init[k]);
    }
    if now is Some && now != before {
        assert(last.code == (now->0).1);
    }
}

/// Every built-in item asks for a permission, and a link of one leads to a screen that
/// asks for the same.
pub proof fn law_a_built_in_item_asks_what_its_screen_asks(admin: Seq<char>, i: int)
    requires
        0 <= i < builtin_settings_models().len(),
    ensures
        builtin_settings_models()[i].permission is Some,
        builtin_settings_models()[i].link matches Some(l) ==> {
            ||| exists|k: int|
                0 <= k < builtin_resource_models().len() && (#[trigger] builtin_resource_models()[k]).base_path
                    == l && builtin_resource_models()[k].permission
                    == builtin_settings_models()[i].permission
            ||| exists|k: int|
                0 <= k < own_routes(admin).len() && (#[trigger] own_routes(admin)[k]).path == admin
                    + l && own_routes(admin)[k].guard == GuardModel::Holding(
                    builtin_settings_models()[i].permission->0,
                )
        },
{
    let r = builtin_resource_models();
    let own = own_routes(admin);
    assert(r[0].base_path == "/users"@);
    assert(r[1].base_path == "/roles"@);
    assert(r[2].base_path == "/audit-log"@);
    assert(own[4].path == admin + "/plugins"@);
    if i == 0 {
        assert(builtin_settings_models()[0].link == Some("/users"@));
    } else if i == 1 {
        assert(builtin_settings_models()[1].link == Some("/roles"@));
    } else if i == 2 {
        assert(builtin_settings_models()[2].link is None);
    } else if i == 3 {
        assert(builtin_settings_models()[3].link == Some("/plugins"@));
    } else {
        assert(builtin_settings_models()[4].link == Some("/audit-log"@));
    }
}

// ------------------------------------------------------------------------ saving
/// A save stores each setting as its own field makes it; one field that refuses refuses
/// the save.
pub proof fn law_a_setting_is_saved_as_its_field_makes_it(
    fields: Seq<FormFieldModel>,
    data: Seq<(Seq<char>, Seq<char>)>,
    answers: AnswersModel,
    types: FieldTypesModel,
    pickers: Seq<Seq<char>>,
    i: int,
)
    requires
        0 <= i < fields.len(),
        forall|a: int, b: int|
            0 <= a < b < fields.len() ==> (#[trigger] fields[a]).name != (#[trigger] fields[b]).name,
    ensures
        settings_of(fields, data, answers, types, pickers) matches Ok(object) ==> setting_of(
            fields[i],
            data,
            answers,
            types,
            pickers,
        ) is Ok && held(object, fields[i].name) == Some(
            setting_of(fields[i], data, answers, types, pickers)->Ok_0,
        ),
        setting_of(fields[i], data, answers, types, pickers) is Err ==> settings_of(
            fields,
            data,
            answers,
            types,
            pickers,
        ) is Err,
    decreases fields.len(),
{
    let init = fields.drop_last();
    let last = fields[fields.len() - 1];
    let before = settings_of(init, data, answers, types, pickers);
    let own = setting_of(last, data, answers, types, pickers);
    if i < init.len() {
        assert(init[i] == fields[i]);
        assert forall|a: int, b: int| 0 <= a < b < init.len() implies (#[trigger] init[a]).name != (
        #[trigger] init[b]).name by {
            assert(fields[a].name != fields[b].name);
        }
        law_a_setting_is_saved_as_its_field_makes_it(init, data, answers, types, pickers, i);
        assert(fields[i].name != last.name);
        if before is Ok && own is Ok {
            law_put_then_held(before->Ok_0, last.name, own->Ok_0, fields[i].name);
        }
    } else if before is Ok && own is Ok {
        law_put_then_held(before->Ok_0, last.name, own->Ok_0, last.name);
    }
}

/// A saved setting is shown as it was entered: a text as itself, a switch as it was set,
/// a number by its digits; what was left out is stored as blank.
pub proof fn law_a_saved_setting_is_shown(text: Seq<char>, on: bool, number: int)
    ensures
        shown_value(
            FieldKind::Leaf(LeafKind::Text),
            Some(setting_value(Some(AttrModel::Text(text)))),
        ) == FieldValueModel::Text(text),
        is_on(
            Some(
                value_text(
                    shown_value(
                        FieldKind::Leaf(LeafKind::Switch),
                        Some(setting_value(Some(AttrModel::Bool(on)))),
                    ),
                ),
            ),
        ) == on,
        shown_value(
            FieldKind::Leaf(LeafKind::Text),
            Some(setting_value(Some(AttrModel::Int(number)))),
        ) == FieldValueModel::Text(decimal_int(number)),
        setting_value(None) == AttrModel::Text(Seq::empty()),
        value_text(shown_value(FieldKind::Leaf(LeafKind::Text), None)).len() == 0,
{
    lemma_truth_words();
    crate::field::law_a_switch_reads_back(Some("true"@));
    crate::field::law_a_switch_reads_back(Some("false"@));
}

/// The word for on is on, and the word for off is not.
pub proof fn lemma_truth_words()
    ensures
        is_on(Some("true"@)),
        !is_on(Some("false"@)),
{
    assert(trimmed("true"@) == "true"@) by {
        reveal_strlit("true");
        lemma_word_is_trimmed("true"@);
    }
    assert(trimmed("false"@) == "false"@) by {
        reveal_strlit("false");
        lemma_word_is_trimmed("false"@);
    }
    assert("false"@.len() == 5) by {
        reveal_strlit("false");
    }
    assert("1"@.len() == 1 && "true"@.len() == 4 && "TRUE"@.len() == 4 && "t"@.len() == 1
        && "yes"@.len() == 3 && "on"@.len() == 2) by {
        reveal_strlit("1");
        reveal_strlit("true");
        reveal_strlit("TRUE");
        reveal_strlit("t");
        reveal_strlit("yes");
        reveal_strlit("on");
    }
}

/// A word without white space at its ends is its own trimming.
proof fn lemma_word_is_trimmed(s: Seq<char>)
    requires
        s.len() > 0,
        !crate::strs::is_space(s[0]),
        !crate::strs::is_space(s.last()),
    ensures
        trimmed(s) == s,
{
    crate::strs::lemma_strip_shape(s, crate::strs::spaces());
}

/// A stored setting reads back: what is read for a code, after it was set, is what it was
/// set to, whether the code had a value before or not; and a setting of another code is
/// not read.
pub proof fn law_a_stored_setting_reads_back(
    code: Seq<char>,
    json: Seq<char>,
    now: Seq<char>,
    standing: StoredRow,
    other: StoredRow,
)
    ensures
        ({
            let write = setting_write(code, json, now);
            let added = row_written(no_row(), write.values);
            let (key, changed) = write.conflict->0;
            let kept = row_written(standing, only_columns(write.values, changed));
            &&& write.conflict is Some
            &&& key == "code"@
            &&& seq![write.table] == setting_read(code).tables
            &&& setting_read(code).chosen == seq![ChosenModel::Column("value"@)]
            &&& among(added, setting_read(code).rows)
            &&& text_in(added, "value"@) == Some(json)
            &&& text_in(added, "updated_at"@) == Some(now)
            &&& among(standing, setting_read(code).rows) ==> {
                &&& among(kept, setting_read(code).rows)
                &&& text_in(kept, "value"@) == Some(json)
                &&& text_in(kept, "updated_at"@) == Some(now)
            }
            &&& among(other, setting_read(code).rows) <==> other.values.contains_key("code"@)
                && other.values["code"@] == ParamModel::Text(code)
        }),
{
    reveal_strlit("code");
    reveal_strlit("value");
    reveal_strlit("updated_at");
    let write = setting_write(code, json, now);
    let values = write.values;
    let changed = (write.conflict->0).1;
    let part = only_columns(values, changed);
    let added = row_written(no_row(), values);
    let kept = row_written(standing, part);
    law_a_statement_is_about_the_row_it_names(other, "code"@, code, Backend::Sqlite);
    law_a_statement_is_about_the_row_it_names(added, "code"@, code, Backend::Sqlite);
    law_a_statement_is_about_the_row_it_names(standing, "code"@, code, Backend::Sqlite);
    law_a_statement_is_about_the_row_it_names(kept, "code"@, code, Backend::Sqlite);
    lemma_key_at(values, "code"@);
    lemma_key_at(values, "value"@);
    lemma_key_at(values, "updated_at"@);
    assert(values[0].0 == "code"@ && values[1].0 == "value"@ && values[2].0 == "updated_at"@);
    assert(changed[0] == "value"@ && changed[1] == "updated_at"@);
    assert(changed.contains("value"@) && changed.contains("updated_at"@));
    assert(!changed.contains("code"@));
    reveal(Seq::filter);
    reveal_with_fuel(Seq::filter, 4);
    let keep = |v: (Seq<char>, BoundModel)| changed.contains(v.0);
    let one = values.drop_last();
    let two = one.drop_last();
    assert(two.drop_last() =~= Seq::empty());
    assert(two.filter(keep) =~= Seq::empty());
    assert(one.filter(keep) =~= seq![values[1]]);
    assert(part =~= seq![values[1], values[2]]);
    lemma_key_at(part, "code"@);
    lemma_key_at(part, "value"@);
    lemma_key_at(part, "updated_at"@);
}

/// What a write over a standing row changes: the values of the columns it names.
pub open spec fn only_columns(
    values: Seq<(Seq<char>, BoundModel)>,
    columns: Seq<Seq<char>>,
) -> Seq<(Seq<char>, BoundModel)> {
    values.filter(|v: (Seq<char>, BoundModel)| columns.contains(v.0))
}

/// A settings screen shows its fields in order, each with its own label and help, and a
/// field of a known type with the value stored under its own name.
pub proof fn law_a_settings_screen_shows_its_fields(
    item: ItemModel,
    error: Option<TextModel>,
    stored: Seq<(Seq<char>, AttrModel)>,
    table: Seq<(Seq<char>, Seq<char>)>,
    base: Seq<char>,
    types: FieldTypesModel,
    pickers: Seq<Seq<char>>,
    i: int,
)
    requires
        0 <= i < item.fields.len(),
    ensures
        ({
            let v = settings_form(item, error, stored, table, base, types, pickers);
            let f = item.fields[i];
            &&& v.title == localized(table, item.label)
            &&& v.description == localized(table, item.description)
            &&& v.action == item_path(item, base)
            &&& (v.error is Some <==> error is Some)
            &&& error matches Some(e) ==> v.error == Some(localized(table, e))
            &&& v.fields.len() == item.fields.len()
            &&& v.fields[i].label == localized(table, f.label)
            &&& f.help matches Some(h) ==> v.fields[i].help == Some(localized(table, h))
            &&& f.help is None ==> v.fields[i].help is None
            &&& (v.fields[i].control is Some <==> kind_in(f.field_type, types) is Some)
            &&& kind_in(f.field_type, types) matches Some(FieldKind::Leaf(k)) ==> (
            v.fields[i].control matches Some(FieldVmModel::Leaf(vm)) && vm.name == f.name
                && vm.value == value_text(shown_value(FieldKind::Leaf(k), held(stored, f.name))))
        }),
{
}

/// The brand is the name that was set, and the configured one where none was.
pub proof fn law_the_brand_is_the_name_that_was_set(name: Seq<char>, configured: Seq<char>)
    ensures
        trimmed(name).len() > 0 ==> brand_name(Some(name), configured) == name,
        trimmed(name).len() == 0 ==> brand_name(Some(name), configured) == configured,
        brand_name(None, configured) == configured,
{
}

} // verus!
