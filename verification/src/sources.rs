//! The source strings of the framework's own descriptors, for translation.

use vstd::prelude::*;

use crate::access::{
    builtin_permission_models, builtin_permissions, Permission, PermissionModel,
};
use crate::form::{FormField, FormFieldModel};
use crate::list::{
    ButtonModel, ColumnModel, FilterKind, FilterModel, FilterOption, KindModel, ListColumn,
    ListConfig, ListFilter, ListModel, OptionModel, ToolbarButton,
};
use crate::order::{lemma_text_order, precedes, text_less};
use crate::resource::{builtin_resource_models, builtin_resources, Resource, ResourceModel};
use crate::settings::{builtin_settings, builtin_settings_models, ItemModel, SettingsItem};
use crate::strs::same;
use crate::text::Text;

verus! {

/// Adds a text's source.
fn say(out: &mut Vec<String>, text: &Text)
    ensures
        final(out).deep_view() == old(out).deep_view().push(text@.source),
{
    let ghost before = out.deep_view();
    out.push(text.source().to_owned());
    assert(out.deep_view() =~= before.push(text@.source));
}

// ------------------------------------------------------------------------- lists

/// The labels of columns.
pub open spec fn column_sources(all: Seq<ColumnModel>) -> Seq<Seq<char>>
    decreases all.len(),
{
    if all.len() == 0 {
        Seq::empty()
    } else {
        column_sources(all.drop_last()) + seq![all.last().label.source]
    }
}

/// Adds the labels of columns.
fn say_columns(out: &mut Vec<String>, columns: &Vec<ListColumn>)
    ensures
        final(out).deep_view() == old(out).deep_view() + column_sources(columns.deep_view()),
{
    let ghost all = columns.deep_view();
    let ghost start = out.deep_view();
    let mut i: usize = 0;
    assert(start + column_sources(all.take(0)) =~= start);
    while i < columns.len()
        invariant
            i <= columns.len(),
            all == columns.deep_view(),
            out.deep_view() == start + column_sources(all.take(i as int)),
        decreases columns.len() - i,
    {
        assert(all.take(i + 1).drop_last() =~= all.take(i as int));
        assert(all.take(i + 1).last() == columns@[i as int].deep_view());
        let ghost before = column_sources(all.take(i as int));
        say(out, &columns[i].label);
        assert(out.deep_view() =~= start + column_sources(all.take(i + 1)));
        i = i + 1;
    }
    assert(all.take(all.len() as int) =~= all);
}

/// The labels of a filter's options.
pub open spec fn option_sources(all: Seq<OptionModel>) -> Seq<Seq<char>>
    decreases all.len(),
{
    if all.len() == 0 {
        Seq::empty()
    } else {
        option_sources(all.drop_last()) + seq![all.last().label.source]
    }
}

/// Adds the labels of a filter's options.
fn say_options(out: &mut Vec<String>, options: &Vec<FilterOption>)
    ensures
        final(out).deep_view() == old(out).deep_view() + option_sources(options.deep_view()),
{
    let ghost all = options.deep_view();
    let ghost start = out.deep_view();
    let mut i: usize = 0;
    assert(start + option_sources(all.take(0)) =~= start);
    while i < options.len()
        invariant
            i <= options.len(),
            all == options.deep_view(),
            out.deep_view() == start + option_sources(all.take(i as int)),
        decreases options.len() - i,
    {
        assert(all.take(i + 1).drop_last() =~= all.take(i as int));
        assert(all.take(i + 1).last() == options@[i as int].deep_view());
        let ghost before = option_sources(all.take(i as int));
        say(out, &options[i].label);
        assert(out.deep_view() =~= start + option_sources(all.take(i + 1)));
        i = i + 1;
    }
    assert(all.take(all.len() as int) =~= all);
}

/// The labels of a filter: its own, and those of its options.
pub open spec fn one_filter(f: FilterModel) -> Seq<Seq<char>> {
    seq![f.label.source] + (match f.kind {
        KindModel::Boolean => Seq::empty(),
        KindModel::Select { options } => option_sources(options),
    })
}

/// The labels of filters and of their options.
pub open spec fn filter_sources(all: Seq<FilterModel>) -> Seq<Seq<char>>
    decreases all.len(),
{
    if all.len() == 0 {
        Seq::empty()
    } else {
        filter_sources(all.drop_last()) + one_filter(all.last())
    }
}

/// Adds the labels of filters and of their options.
fn say_filters(out: &mut Vec<String>, filters: &Vec<ListFilter>)
    ensures
        final(out).deep_view() == old(out).deep_view() + filter_sources(filters.deep_view()),
{
    let ghost all = filters.deep_view();
    let ghost start = out.deep_view();
    let mut i: usize = 0;
    assert(start + filter_sources(all.take(0)) =~= start);
    while i < filters.len()
        invariant
            i <= filters.len(),
            all == filters.deep_view(),
            out.deep_view() == start + filter_sources(all.take(i as int)),
        decreases filters.len() - i,
    {
        assert(all.take(i + 1).drop_last() =~= all.take(i as int));
        assert(all.take(i + 1).last() == filters@[i as int].deep_view());
        let ghost before = filter_sources(all.take(i as int));
        say(out, &filters[i].label);
        match &filters[i].kind {
            FilterKind::Boolean => {},
            FilterKind::Select { options } => {
                say_options(out, options);
            },
        }
        assert(out.deep_view() =~= start + filter_sources(all.take(i + 1)));
        i = i + 1;
    }
    assert(all.take(all.len() as int) =~= all);
}

/// The labels of toolbar buttons.
pub open spec fn button_sources(all: Seq<ButtonModel>) -> Seq<Seq<char>>
    decreases all.len(),
{
    if all.len() == 0 {
        Seq::empty()
    } else {
        button_sources(all.drop_last()) + seq![all.last().label.source]
    }
}

/// Adds the labels of toolbar buttons.
fn say_buttons(out: &mut Vec<String>, buttons: &Vec<ToolbarButton>)
    ensures
        final(out).deep_view() == old(out).deep_view() + button_sources(buttons.deep_view()),
{
    let ghost all = buttons.deep_view();
    let ghost start = out.deep_view();
    let mut i: usize = 0;
    assert(start + button_sources(all.take(0)) =~= start);
    while i < buttons.len()
        invariant
            i <= buttons.len(),
            all == buttons.deep_view(),
            out.deep_view() == start + button_sources(all.take(i as int)),
        decreases buttons.len() - i,
    {
        assert(all.take(i + 1).drop_last() =~= all.take(i as int));
        assert(all.take(i + 1).last() == buttons@[i as int].deep_view());
        let ghost before = button_sources(all.take(i as int));
        say(out, &buttons[i].label);
        assert(out.deep_view() =~= start + button_sources(all.take(i + 1)));
        i = i + 1;
    }
    assert(all.take(all.len() as int) =~= all);
}

/// The source strings of a list.
pub open spec fn list_sources(l: ListModel) -> Seq<Seq<char>> {
    seq![l.title.source] + column_sources(l.columns) + filter_sources(l.filters) + button_sources(
        l.toolbar,
    )
}

/// Adds the source strings of a list.
fn say_list(out: &mut Vec<String>, list: &ListConfig)
    ensures
        final(out).deep_view() == old(out).deep_view() + list_sources(list@),
{
    let ghost start = out.deep_view();
    say(out, &list.title);
    say_columns(out, &list.columns);
    say_filters(out, &list.filters);
    say_buttons(out, &list.toolbar);
    assert(out.deep_view() =~= start + list_sources(list@));
}

// ------------------------------------------------------------------------- fields
/// The source strings of a field.
pub open spec fn one_field(f: FormFieldModel) -> Seq<Seq<char>> {
    seq![f.label.source] + (match f.help {
        Some(h) => seq![h.source],
        None => Seq::empty(),
    })
}

/// The labels of fields, and the help beneath them.
pub open spec fn field_sources(all: Seq<FormFieldModel>) -> Seq<Seq<char>>
    decreases all.len(),
{
    if all.len() == 0 {
        Seq::empty()
    } else {
        field_sources(all.drop_last()) + one_field(all.last())
    }
}

/// Adds the labels of fields, and the help beneath them.
fn say_fields(out: &mut Vec<String>, fields: &Vec<FormField>)
    ensures
        final(out).deep_view() == old(out).deep_view() + field_sources(fields.deep_view()),
{
    let ghost all = fields.deep_view();
    let ghost start = out.deep_view();
    let mut i: usize = 0;
    assert(start + field_sources(all.take(0)) =~= start);
    while i < fields.len()
        invariant
            i <= fields.len(),
            all == fields.deep_view(),
            out.deep_view() == start + field_sources(all.take(i as int)),
        decreases fields.len() - i,
    {
        assert(all.take(i + 1).drop_last() =~= all.take(i as int));
        assert(all.take(i + 1).last() == fields@[i as int].deep_view());
        let ghost before = field_sources(all.take(i as int));
        say(out, &fields[i].label);
        match &fields[i].help {
            Some(h) => {
                say(out, h);
            },
            None => {},
        }
        assert(out.deep_view() =~= start + field_sources(all.take(i + 1)));
        i = i + 1;
    }
    assert(all.take(all.len() as int) =~= all);
}

// -------------------------------------------------------------------- descriptors
/// The source strings of a resource.
pub open spec fn one_resource(r: ResourceModel) -> Seq<Seq<char>> {
    seq![r.nav_label.source] + list_sources(r.list) + (match r.form {
        Some(f) => seq![f.title.source] + field_sources(f.fields),
        None => Seq::empty(),
    })
}

/// The source strings of resources.
pub open spec fn resource_sources(all: Seq<ResourceModel>) -> Seq<Seq<char>>
    decreases all.len(),
{
    if all.len() == 0 {
        Seq::empty()
    } else {
        resource_sources(all.drop_last()) + one_resource(all.last())
    }
}

/// Adds the source strings of resources.
fn say_resources(out: &mut Vec<String>, resources: &Vec<Resource>)
    ensures
        final(out).deep_view() == old(out).deep_view() + resource_sources(resources.deep_view()),
{
    let ghost all = resources.deep_view();
    let ghost start = out.deep_view();
    let mut i: usize = 0;
    assert(start + resource_sources(all.take(0)) =~= start);
    while i < resources.len()
        invariant
            i <= resources.len(),
            all == resources.deep_view(),
            out.deep_view() == start + resource_sources(all.take(i as int)),
        decreases resources.len() - i,
    {
        assert(all.take(i + 1).drop_last() =~= all.take(i as int));
        assert(all.take(i + 1).last() == resources@[i as int].deep_view());
        let ghost before = resource_sources(all.take(i as int));
        say(out, &resources[i].nav_label);
        say_list(out, &resources[i].list);
        match &resources[i].form {
            Some(f) => {
                say(out, &f.title);
                say_fields(out, &f.fields);
            },
            None => {},
        }
        assert(out.deep_view() =~= start + resource_sources(all.take(i + 1)));
        i = i + 1;
    }
    assert(all.take(all.len() as int) =~= all);
}

/// The source strings of a settings item.
pub open spec fn one_item(i: ItemModel) -> Seq<Seq<char>> {
    seq![i.label.source, i.description.source, i.category.source] + field_sources(i.fields)
}

/// The source strings of settings items.
pub open spec fn item_sources(all: Seq<ItemModel>) -> Seq<Seq<char>>
    decreases all.len(),
{
    if all.len() == 0 {
        Seq::empty()
    } else {
        item_sources(all.drop_last()) + one_item(all.last())
    }
}

/// Adds the source strings of settings items.
fn say_items(out: &mut Vec<String>, items: &Vec<SettingsItem>)
    ensures
        final(out).deep_view() == old(out).deep_view() + item_sources(items.deep_view()),
{
    let ghost all = items.deep_view();
    let ghost start = out.deep_view();
    let mut i: usize = 0;
    assert(start + item_sources(all.take(0)) =~= start);
    while i < items.len()
        invariant
            i <= items.len(),
            all == items.deep_view(),
            out.deep_view() == start + item_sources(all.take(i as int)),
        decreases items.len() - i,
    {
        assert(all.take(i + 1).drop_last() =~= all.take(i as int));
        assert(all.take(i + 1).last() == items@[i as int].deep_view());
        let ghost before = item_sources(all.take(i as int));
        say(out, &items[i].label);
        say(out, &items[i].description);
        say(out, &items[i].category);
        say_fields(out, &items[i].fields);
        assert(out.deep_view() =~= start + item_sources(all.take(i + 1)));
        i = i + 1;
    }
    assert(all.take(all.len() as int) =~= all);
}

/// The labels and groups of permissions.
pub open spec fn permission_sources(all: Seq<PermissionModel>) -> Seq<Seq<char>>
    decreases all.len(),
{
    if all.len() == 0 {
        Seq::empty()
    } else {
        permission_sources(all.drop_last()) + seq![all.last().label.source, all.last().group.source]
    }
}

/// Adds the labels and groups of permissions.
fn say_permissions(out: &mut Vec<String>, permissions: &Vec<Permission>)
    ensures
        final(out).deep_view() == old(out).deep_view() + permission_sources(permissions.deep_view()),
{
    let ghost all = permissions.deep_view();
    let ghost start = out.deep_view();
    let mut i: usize = 0;
    assert(start + permission_sources(all.take(0)) =~= start);
    while i < permissions.len()
        invariant
            i <= permissions.len(),
            all == permissions.deep_view(),
            out.deep_view() == start + permission_sources(all.take(i as int)),
        decreases permissions.len() - i,
    {
        assert(all.take(i + 1).drop_last() =~= all.take(i as int));
        assert(all.take(i + 1).last() == permissions@[i as int].deep_view());
        let ghost before = permission_sources(all.take(i as int));
        say(out, &permissions[i].label);
        say(out, &permissions[i].group);
        assert(out.deep_view() =~= start + permission_sources(all.take(i + 1)));
        i = i + 1;
    }
    assert(all.take(all.len() as int) =~= all);
}

// -------------------------------------------------------------------------- index
/// Whether a list is in strictly ascending order.
pub open spec fn ascending(r: Seq<Seq<char>>) -> bool {
    forall|i: int, j: int| 0 <= i < j < r.len() ==> #[trigger] text_less(r[i], r[j])
}

/// Whether a list holds each of some texts once, and nothing else, in ascending order.
pub open spec fn indexes(r: Seq<Seq<char>>, all: Seq<Seq<char>>) -> bool {
    &&& ascending(r)
    &&& forall|s: Seq<char>| #[trigger] r.contains(s) <==> all.contains(s)
}

/// Puts a text into its place, where it does not stand there already.
fn put_in_order(out: &mut Vec<String>, s: &str)
    requires
        ascending(old(out).deep_view()),
    ensures
        ascending(final(out).deep_view()),
        forall|t: Seq<char>| #[trigger]
            final(out).deep_view().contains(t) <==> old(out).deep_view().contains(t) || t == s@,
{
    let ghost before = out.deep_view();
    let mut k: usize = 0;
    while k < out.len() && precedes(out[k].as_str(), s)
        invariant
            k <= out.len(),
            out.deep_view() == before,
            forall|j: int| 0 <= j < k ==> #[trigger] text_less(before[j], s@),
        decreases out.len() - k,
    {
        assert(before[k as int] == out@[k as int]@);
        k = k + 1;
    }
    if k < out.len() && same(out[k].as_str(), s) {
        assert(before[k as int] == out@[k as int]@);
        assert(before.contains(s@));
        return ;
    }
    proof {
        if k < before.len() {
            assert(before[k as int] == out@[k as int]@);
            lemma_text_order(before[k as int], s@, s@);
            assert(text_less(s@, before[k as int]));
        }
    }
    out.insert(k, s.to_owned());
    let ghost after = out.deep_view();
    assert(after =~= before.insert(k as int, s@));
    assert forall|i: int, j: int| 0 <= i < j < after.len() implies #[trigger] text_less(
        after[i],
        after[j],
    ) by {
        let a = if i < k { i } else { i - 1 };
        let b = if j < k { j } else { j - 1 };
        if i == k {
            assert(text_less(s@, before[k as int]));
            if b > k {
                assert(text_less(before[k as int], before[b]));
                lemma_before(s@, before[k as int], before[b]);
            }
        } else if j == k {
            assert(text_less(before[a], s@));
        } else {
            assert(text_less(before[a], before[b]));
        }
    }
    assert forall|t: Seq<char>| #[trigger] after.contains(t) <==> before.contains(t) || t == s@ by {
        if before.contains(t) {
            let i = choose|i: int| 0 <= i < before.len() && before[i] == t;
            assert(after[if i < k { i } else { i + 1 }] == t);
        }
        if t == s@ {
            assert(after[k as int] == t);
        }
        if after.contains(t) && t != s@ {
            let i = choose|i: int| 0 <= i < after.len() && after[i] == t;
            assert(before[if i < k { i } else { i - 1 }] == t);
        }
    }
}

/// What comes before what comes before a text comes before it.
proof fn lemma_before(a: Seq<char>, b: Seq<char>, c: Seq<char>)
    requires
        text_less(a, b),
        text_less(b, c),
    ensures
        text_less(a, c),
{
    lemma_text_order(a, b, c);
    lemma_text_order(a, c, c);
    lemma_text_order(b, c, c);
}

/// The texts of a list, each once, in ascending order.
pub fn index(all: &Vec<String>) -> (r: Vec<String>)
    ensures
        indexes(r.deep_view(), all.deep_view()),
{
    let ghost given = all.deep_view();
    let mut r: Vec<String> = Vec::new();
    let mut i: usize = 0;
    while i < all.len()
        invariant
            i <= all.len(),
            given == all.deep_view(),
            ascending(r.deep_view()),
            forall|s: Seq<char>| #[trigger]
                r.deep_view().contains(s) <==> given.take(i as int).contains(s),
        decreases all.len() - i,
    {
        let ghost was = given.take(i as int);
        let ghost now = given.take(i + 1);
        assert(now =~= was.push(given[i as int]));
        assert(given[i as int] == all@[i as int]@);
        let ghost held = r.deep_view();
        put_in_order(&mut r, all[i].as_str());
        assert forall|s: Seq<char>| #[trigger] r.deep_view().contains(s) <==> now.contains(s) by {
            assert(held.contains(s) <==> was.contains(s));
            if was.contains(s) {
                let j = choose|j: int| 0 <= j < was.len() && was[j] == s;
                assert(now[j] == s);
            }
            assert(now[i as int] == given[i as int]);
            if now.contains(s) && s != given[i as int] {
                let j = choose|j: int| 0 <= j < now.len() && now[j] == s;
                assert(was[j] == s);
            }
        }
        i = i + 1;
    }
    assert(given.take(given.len() as int) =~= given);
    r
}

/// Every source string in the framework's own descriptors, duplicates included.
pub open spec fn builtin_sources() -> Seq<Seq<char>> {
    resource_sources(builtin_resource_models()) + item_sources(builtin_settings_models())
        + permission_sources(builtin_permission_models())
}

/// Every source string in the framework's own descriptors: what the resources, the
/// settings and the permissions say, each once, in order.
pub fn descriptor_sources() -> (r: Vec<String>)
    ensures
        indexes(r.deep_view(), builtin_sources()),
{
    let mut out: Vec<String> = Vec::new();
    assert(out.deep_view() =~= Seq::<Seq<char>>::empty());
    say_resources(&mut out, &builtin_resources());
    say_items(&mut out, &builtin_settings());
    say_permissions(&mut out, &builtin_permissions());
    assert(out.deep_view() =~= builtin_sources());
    index(&out)
}

} // verus!
