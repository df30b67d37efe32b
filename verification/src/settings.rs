//! Descriptor-driven settings screens.
//!
//! A module registers a [`SettingsItem`] for each settings model an operator may
//! edit: its storage code, the category it groups under, and the fields to
//! render. One menu lists every item grouped by category, and one generic form
//! per item reads and writes the model's values.

use vstd::prelude::*;
use vstd::string::StringExecFns;

use crate::access::{allowed, PermissionSet, PermissionSetModel, MANAGE_PLUGINS};
use crate::attr::{held, put, AttrModel, AttrValue, Record, RecordModel, Scalar};
use crate::contributed::{
    Answers, AnswersModel, Asked, AskedModel, FieldTypes, FieldTypesModel,
};
use crate::field::{Mode, SubmittedField};
use crate::field_view::{
    attr_stored, control_shown, field_asked, field_secrets, field_vm, find_type, kind_in,
    options_resolved, FieldCx, FieldKind, FieldValue, FieldValueModel, FieldVm, FieldVmModel, ResolvedOptions,
};
use crate::form::{field_of, field_prepared, FormField, FormFieldModel};
use crate::icons::{icon_markup, Icons};
use crate::nums::{decimal_int, i64_text};
use crate::order::{lemma_insert_at, precedes, sorted_by, text_less};
use crate::session::{flash, Flash, FlashLevel};
use crate::strs::{cat, is_blank, listed, same, trim};
use crate::text::{localized, plain, Text, TextModel, Translator};

verus! {

// ---------------------------------------------------------------------- items
/// The settings store's own module.
pub struct SettingsModule;

impl SettingsModule {
    /// The module's id.
    pub fn id(&self) -> (r: &'static str)
        ensures
            r@ == "laterite.settings"@,
    {
        "laterite.settings"
    }
}

/// A settings model surfaced in the admin: a storage code, a category and an order
/// that place it in the menu, and the fields to edit.
pub struct SettingsItem {
    /// The storage key.
    pub code: String,
    pub label: Text,
    pub description: Text,
    /// The group heading.
    pub category: Text,
    /// The weight within the category (lower sorts first).
    pub order: i32,
    /// The icon shown beside the item.
    pub icon: Option<String>,
    /// The permission required to see and edit the item. `None` means any
    /// signed-in operator.
    pub permission: Option<String>,
    /// When set, the item links to this route (a resource list, say) instead of
    /// its settings form.
    pub link: Option<String>,
    /// Where the item's own form mounts, relative to the admin root, where that is
    /// not the path its code gives.
    pub route: Option<String>,
    pub fields: Vec<FormField>,
}

/// A [`SettingsItem`], over characters.
pub struct ItemModel {
    pub code: Seq<char>,
    pub label: TextModel,
    pub description: TextModel,
    pub category: TextModel,
    pub order: i32,
    pub icon: Option<Seq<char>>,
    pub permission: Option<Seq<char>>,
    pub link: Option<Seq<char>>,
    pub route: Option<Seq<char>>,
    pub fields: Seq<FormFieldModel>,
}

impl DeepView for SettingsItem {
    type V = ItemModel;

    open spec fn deep_view(&self) -> ItemModel {
        ItemModel {
            code: self.code@,
            label: self.label@,
            description: self.description@,
            category: self.category@,
            order: self.order,
            icon: self.icon.deep_view(),
            permission: self.permission.deep_view(),
            link: self.link.deep_view(),
            route: self.route.deep_view(),
            fields: self.fields.deep_view(),
        }
    }
}

/// An item with nothing set but its code, label and fields.
pub open spec fn bare_item(code: Seq<char>, label: Seq<char>, fields: Seq<FormFieldModel>) -> ItemModel {
    ItemModel {
        code,
        label: plain(label),
        description: plain(Seq::empty()),
        category: plain(Seq::empty()),
        order: 0,
        icon: None,
        permission: None,
        link: None,
        route: None,
        fields,
    }
}

/// Where an item's own form mounts, relative to the admin root.
pub open spec fn item_route(item: ItemModel) -> Seq<char> {
    match item.route {
        Some(r) => r,
        None => "/settings/"@ + item.code,
    }
}

/// Where an item leads under the admin mount: its link where it has one, its own
/// form otherwise.
pub open spec fn item_path(item: ItemModel, admin: Seq<char>) -> Seq<char> {
    match item.link {
        Some(l) => admin + l,
        None => admin + item_route(item),
    }
}

/// The empty text.
fn blank() -> (s: &'static str)
    ensures
        s@ == Seq::<char>::empty(),
{
    proof {
        reveal_strlit("");
    }
    assert(""@ =~= Seq::<char>::empty());
    ""
}

impl SettingsItem {
    /// An item with nothing set but its code, label and fields.
    pub fn new(code: &str, label: &str, fields: Vec<FormField>) -> (r: Self)
        ensures
            r.deep_view() == bare_item(code@, label@, fields.deep_view()),
    {
        SettingsItem {
            code: code.to_owned(),
            label: Text::new(label),
            description: Text::new(blank()),
            category: Text::new(blank()),
            order: 0,
            icon: None,
            permission: None,
            link: None,
            route: None,
            fields,
        }
    }

    pub fn description(self, text: &str) -> (r: Self)
        ensures
            r.deep_view() == (ItemModel { description: plain(text@), ..self.deep_view() }),
    {
        let mut it: Self = self;
        it.description = Text::new(text);
        it
    }

    pub fn category(self, text: &str) -> (r: Self)
        ensures
            r.deep_view() == (ItemModel { category: plain(text@), ..self.deep_view() }),
    {
        let mut it: Self = self;
        it.category = Text::new(text);
        it
    }

    pub fn order(self, order: i32) -> (r: Self)
        ensures
            r.deep_view() == (ItemModel { order, ..self.deep_view() }),
    {
        let mut it: Self = self;
        it.order = order;
        it
    }

    pub fn icon(self, name: &str) -> (r: Self)
        ensures
            r.deep_view() == (ItemModel { icon: Some(name@), ..self.deep_view() }),
    {
        let mut it: Self = self;
        it.icon = Some(name.to_owned());
        it
    }

    pub fn permission(self, code: &str) -> (r: Self)
        ensures
            r.deep_view() == (ItemModel { permission: Some(code@), ..self.deep_view() }),
    {
        let mut it: Self = self;
        it.permission = Some(code.to_owned());
        it
    }

    pub fn link(self, path: &str) -> (r: Self)
        ensures
            r.deep_view() == (ItemModel { link: Some(path@), ..self.deep_view() }),
    {
        let mut it: Self = self;
        it.link = Some(path.to_owned());
        it
    }

    /// Where the item's own form mounts, relative to the admin root.
    pub fn route(&self) -> (r: String)
        ensures
            r@ == item_route(self.deep_view()),
    {
        match &self.route {
            Some(r) => r.clone(),
            None => cat("/settings/", self.code.as_str()),
        }
    }

    /// Where the item leads under the admin mount.
    pub fn path(&self, admin_path: &str) -> (r: String)
        ensures
            r@ == item_path(self.deep_view(), admin_path@),
    {
        match &self.link {
            Some(l) => cat(admin_path, l.as_str()),
            None => cat(admin_path, self.route().as_str()),
        }
    }
}

// ----------------------------------------------------------------- visibility
/// Whether an operator may see an item: one without a permission is open to all.
pub open spec fn may_see(item: ItemModel, perms: PermissionSetModel) -> bool {
    match item.permission {
        None => true,
        Some(p) => allowed(perms, p),
    }
}

/// The items an operator may see, in registry order.
pub open spec fn visible(items: Seq<ItemModel>, perms: PermissionSetModel) -> Seq<ItemModel> {
    items.filter(seen_by(perms))
}

/// Whether an operator may see an item.
pub open spec fn seen_by(perms: PermissionSetModel) -> spec_fn(ItemModel) -> bool {
    |i: ItemModel| may_see(i, perms)
}

/// Whether an operator may see a settings item.
pub fn operator_can_see(item: &SettingsItem, perms: &PermissionSet) -> (r: bool)
    ensures
        r == may_see(item.deep_view(), perms@),
{
    match &item.permission {
        None => true,
        Some(p) => perms.allows(p.as_str()),
    }
}

/// The settings items this operator may see, in registry order. Both the menu and
/// the forms use this set, so an operator never sees or edits an item their
/// permissions do not allow.
pub fn visible_settings<'a>(items: &'a Vec<SettingsItem>, perms: &PermissionSet) -> (r: Vec<
    &'a SettingsItem,
>)
    ensures
        r.deep_view() == visible(items.deep_view(), perms@),
{
    let ghost all = items.deep_view();
    let ghost p = seen_by(perms@);
    let mut r: Vec<&'a SettingsItem> = Vec::new();
    let mut i: usize = 0;
    proof {
        reveal(Seq::filter);
    }
    assert(r.deep_view() =~= all.take(0).filter(p));
    while i < items.len()
        invariant
            i <= items.len(),
            all == items.deep_view(),
            p == seen_by(perms@),
            r.deep_view() == all.take(i as int).filter(p),
        decreases items.len() - i,
    {
        let ghost before = r.deep_view();
        assert(all.take(i + 1).drop_last() =~= all.take(i as int));
        assert(all.take(i + 1).last() == items@[i as int].deep_view());
        if operator_can_see(&items[i], perms) {
            r.push(&items[i]);
            assert(r.deep_view() =~= before.push(all[i as int]));
        }
        proof {
            reveal(Seq::filter);
        }
        i = i + 1;
    }
    assert(all.take(all.len() as int) =~= all);
    r
}

/// The form of an item an operator may open: one they may see, of that code, that
/// is no mere link.
pub open spec fn openable(items: Seq<ItemModel>, code: Seq<char>) -> Option<ItemModel>
    decreases items.len(),
{
    if items.len() == 0 {
        None
    } else if items[0].code == code && items[0].link is None {
        Some(items[0])
    } else {
        openable(items.drop_first(), code)
    }
}

/// The item whose form an operator opens or saves, where they may. Filtering
/// first, so an operator cannot reach a form they lack the permission to see.
pub fn find_settings<'a>(items: &'a Vec<SettingsItem>, perms: &PermissionSet, code: &str) -> (r:
    Option<&'a SettingsItem>)
    ensures
        r.deep_view() == openable(visible(items.deep_view(), perms@), code@),
{
    let seen: Vec<&'a SettingsItem> = visible_settings(items, perms);
    let ghost all = seen.deep_view();
    let mut i: usize = 0;
    assert(all.skip(0) =~= all);
    while i < seen.len()
        invariant
            i <= seen.len(),
            all == seen.deep_view(),
            all == visible(items.deep_view(), perms@),
            openable(all, code@) == openable(all.skip(i as int), code@),
        decreases seen.len() - i,
    {
        assert(all.skip(i as int).drop_first() =~= all.skip(i + 1));
        assert(all.skip(i as int)[0] == seen@[i as int].deep_view());
        if same(seen[i].code.as_str(), code) && seen[i].link.is_none() {
            return Some(seen[i]);
        }
        i = i + 1;
    }
    None
}

/// No operator opens a form they may not see.
pub proof fn law_a_hidden_form_cannot_be_opened(
    items: Seq<ItemModel>,
    perms: PermissionSetModel,
    code: Seq<char>,
)
    ensures
        openable(visible(items, perms), code) matches Some(item) ==> may_see(item, perms)
            && items.contains(item) && item.code == code,
{
    let seen = visible(items, perms);
    lemma_openable(seen, code);
    if openable(seen, code) is Some {
        let item = openable(seen, code)->0;
        lemma_visible(items, perms, item);
    }
}

proof fn lemma_openable(items: Seq<ItemModel>, code: Seq<char>)
    ensures
        openable(items, code) matches Some(item) ==> items.contains(item) && item.code == code,
    decreases items.len(),
{
    if items.len() > 0 {
        lemma_openable(items.drop_first(), code);
        if items[0].code == code && items[0].link is None {
            assert(items.contains(items[0]));
        } else if openable(items.drop_first(), code) is Some {
            let item = openable(items.drop_first(), code)->0;
            let j = choose|j: int| 0 <= j < items.len() - 1 && items.drop_first()[j] == item;
            assert(items[j + 1] == item);
        }
    }
}

/// What an operator sees is theirs to see, and registered.
pub proof fn lemma_visible(items: Seq<ItemModel>, perms: PermissionSetModel, item: ItemModel)
    ensures
        visible(items, perms).contains(item) <==> items.contains(item) && may_see(item, perms),
    decreases items.len(),
{
    reveal(Seq::filter);
    if items.len() > 0 {
        let init = items.drop_last();
        lemma_visible(init, perms, item);
        let was = visible(init, perms);
        let now = visible(items, perms);
        if items.contains(item) {
            let j = choose|j: int| 0 <= j < items.len() && items[j] == item;
            if j < init.len() {
                assert(init[j] == item);
            }
        }
        if init.contains(item) {
            let j = choose|j: int| 0 <= j < init.len() && init[j] == item;
            assert(items[j] == item);
        }
        if was.contains(item) {
            let j = choose|j: int| 0 <= j < was.len() && was[j] == item;
            assert(now[j] == item);
        }
        if now.contains(item) {
            let j = choose|j: int| 0 <= j < now.len() && now[j] == item;
            if j < was.len() {
                assert(was[j] == item);
            } else {
                assert(items[items.len() - 1] == item);
            }
        }
        if items.last() == item && may_see(item, perms) {
            assert(now[was.len() as int] == item);
        }
    }
}

// -------------------------------------------------------------------- sidebar
/// One item in the settings menu.
pub struct ItemView {
    pub label: String,
    pub description: String,
    pub path: String,
    /// Markup for the item's icon.
    pub icon: String,
    /// Whether this is the item currently open.
    pub active: bool,
}

/// An [`ItemView`], over characters.
pub struct ItemViewModel {
    pub label: Seq<char>,
    pub description: Seq<char>,
    pub path: Seq<char>,
    pub icon: Seq<char>,
    pub active: bool,
}

impl DeepView for ItemView {
    type V = ItemViewModel;

    open spec fn deep_view(&self) -> ItemViewModel {
        ItemViewModel {
            label: self.label@,
            description: self.description@,
            path: self.path@,
            icon: self.icon@,
            active: self.active,
        }
    }
}

/// One category block in the settings menu.
pub struct CategoryView {
    pub name: String,
    pub min_order: i32,
    pub items: Vec<ItemView>,
}

/// A [`CategoryView`], over characters.
pub struct CategoryModel {
    pub name: Seq<char>,
    pub min_order: i32,
    pub items: Seq<ItemViewModel>,
}

impl DeepView for CategoryView {
    type V = CategoryModel;

    open spec fn deep_view(&self) -> CategoryModel {
        CategoryModel {
            name: self.name@,
            min_order: self.min_order,
            items: self.items.deep_view(),
        }
    }
}

/// What a menu is drawn with: the admin mount, the open item, the messages, the
/// icon names and where their sprite is.
pub struct MenuModel {
    pub admin: Seq<char>,
    pub active: Option<Seq<char>>,
    pub table: Seq<(Seq<char>, Seq<char>)>,
    pub icons: Seq<Seq<char>>,
    pub sprite: Seq<char>,
}

/// An item as the menu shows it.
pub open spec fn item_view(m: MenuModel, i: ItemModel) -> ItemViewModel {
    ItemViewModel {
        label: localized(m.table, i.label),
        description: localized(m.table, i.description),
        path: item_path(i, m.admin),
        icon: icon_markup(m.icons, m.sprite, i.icon),
        active: m.active == Some(i.code),
    }
}

/// The heading an item stands under.
pub open spec fn heading(table: Seq<(Seq<char>, Seq<char>)>, i: ItemModel) -> Seq<char> {
    localized(table, i.category)
}

/// The headings of some items, each once, where it first stands.
pub open spec fn headings(
    table: Seq<(Seq<char>, Seq<char>)>,
    items: Seq<ItemModel>,
) -> Seq<Seq<char>>
    decreases items.len(),
{
    if items.len() == 0 {
        Seq::empty()
    } else {
        let before = headings(table, items.drop_last());
        let h = heading(table, items.last());
        if before.contains(h) {
            before
        } else {
            before.push(h)
        }
    }
}

/// Whether an item stands under a heading.
pub open spec fn stands_under(
    table: Seq<(Seq<char>, Seq<char>)>,
    h: Seq<char>,
) -> spec_fn(ItemModel) -> bool {
    |i: ItemModel| heading(table, i) == h
}

/// Items by weight, then by the source of their label.
pub open spec fn lighter() -> spec_fn(ItemModel, ItemModel) -> bool {
    |a: ItemModel, b: ItemModel|
        a.order < b.order || (a.order == b.order && text_less(a.label.source, b.label.source))
}

/// Categories by their lightest item, then by name.
pub open spec fn category_first() -> spec_fn(CategoryModel, CategoryModel) -> bool {
    |a: CategoryModel, b: CategoryModel|
        a.min_order < b.min_order || (a.min_order == b.min_order && text_less(a.name, b.name))
}

/// The weight of the lightest item.
pub open spec fn lowest(items: Seq<ItemModel>) -> i32
    decreases items.len(),
{
    if items.len() == 0 {
        0
    } else if items.len() == 1 {
        items[0].order
    } else {
        let rest = lowest(items.drop_last());
        if items.last().order < rest {
            items.last().order
        } else {
            rest
        }
    }
}

/// One category of the menu.
pub open spec fn category_view(m: MenuModel, items: Seq<ItemModel>, h: Seq<char>) -> CategoryModel {
    let members = items.filter(stands_under(m.table, h));
    CategoryModel {
        name: h,
        min_order: lowest(members),
        items: sorted_by(members, lighter()).map_values(|i: ItemModel| item_view(m, i)),
    }
}

/// The menu: items grouped by heading, the groups by their lightest item and then
/// by name, the items by weight and then by label.
pub open spec fn sidebar(m: MenuModel, items: Seq<ItemModel>) -> Seq<CategoryModel> {
    sorted_by(
        headings(m.table, items).map_values(|h: Seq<char>| category_view(m, items, h)),
        category_first(),
    )
}

/// The headings of some items, each once.
fn list_headings(items: &Vec<&SettingsItem>, tr: &Translator) -> (r: Vec<String>)
    ensures
        r.deep_view() == headings(tr@, items.deep_view()),
{
    let ghost all = items.deep_view();
    let mut r: Vec<String> = Vec::new();
    let mut i: usize = 0;
    assert(r.deep_view() =~= headings(tr@, all.take(0)));
    while i < items.len()
        invariant
            i <= items.len(),
            all == items.deep_view(),
            r.deep_view() == headings(tr@, all.take(i as int)),
        decreases items.len() - i,
    {
        let ghost before = r.deep_view();
        assert(all.take(i + 1).drop_last() =~= all.take(i as int));
        assert(all.take(i + 1).last() == items@[i as int].deep_view());
        let h: String = tr.t(&items[i].category);
        if !listed(&r, h.as_str()) {
            let ghost w = h@;
            r.push(h);
            assert(r.deep_view() =~= before.push(w));
        }
        i = i + 1;
    }
    assert(all.take(all.len() as int) =~= all);
    r
}

/// The items under a heading, in order.
fn list_members<'a>(items: &Vec<&'a SettingsItem>, tr: &Translator, h: &str) -> (r: Vec<
    &'a SettingsItem,
>)
    ensures
        r.deep_view() == items.deep_view().filter(stands_under(tr@, h@)),
{
    let ghost all = items.deep_view();
    let ghost p = stands_under(tr@, h@);
    let mut r: Vec<&'a SettingsItem> = Vec::new();
    let mut i: usize = 0;
    proof {
        reveal(Seq::filter);
    }
    assert(r.deep_view() =~= all.take(0).filter(p));
    while i < items.len()
        invariant
            i <= items.len(),
            all == items.deep_view(),
            p == stands_under(tr@, h@),
            r.deep_view() == all.take(i as int).filter(p),
        decreases items.len() - i,
    {
        let ghost before = r.deep_view();
        assert(all.take(i + 1).drop_last() =~= all.take(i as int));
        assert(all.take(i + 1).last() == items@[i as int].deep_view());
        if same(tr.t(&items[i].category).as_str(), h) {
            r.push(items[i]);
            assert(r.deep_view() =~= before.push(all[i as int]));
        }
        proof {
            reveal(Seq::filter);
        }
        i = i + 1;
    }
    assert(all.take(all.len() as int) =~= all);
    r
}

/// Whether one item comes before another.
fn item_lighter(a: &SettingsItem, b: &SettingsItem) -> (r: bool)
    ensures
        r == lighter()(a.deep_view(), b.deep_view()),
{
    a.order < b.order || (a.order == b.order && precedes(a.label.source(), b.label.source()))
}

/// The items by weight.
fn by_weight<'a>(items: &Vec<&'a SettingsItem>) -> (r: Vec<&'a SettingsItem>)
    ensures
        r.deep_view() == sorted_by(items.deep_view(), lighter()),
{
    let ghost all = items.deep_view();
    let mut r: Vec<&'a SettingsItem> = Vec::new();
    let mut i: usize = 0;
    assert(r.deep_view() =~= sorted_by(all.take(0), lighter()));
    while i < items.len()
        invariant
            i <= items.len(),
            all == items.deep_view(),
            r.deep_view() == sorted_by(all.take(i as int), lighter()),
        decreases items.len() - i,
    {
        let x: &'a SettingsItem = items[i];
        let ghost list = r.deep_view();
        let ghost m = x.deep_view();
        assert(all.take(i + 1).drop_last() =~= all.take(i as int));
        assert(all.take(i + 1).last() == m);
        let mut k: usize = r.len();
        while k > 0 && item_lighter(x, r[k - 1])
            invariant
                k <= r.len(),
                list == r.deep_view(),
                m == x.deep_view(),
                forall|j: int| k <= j < list.len() ==> lighter()(m, #[trigger] list[j]),
            decreases k,
        {
            assert(list[k - 1] == r@[k - 1].deep_view());
            k = k - 1;
        }
        assert(k > 0 ==> list[k - 1] == r@[k - 1].deep_view());
        r.insert(k, x);
        proof {
            lemma_insert_at(list, m, lighter(), k as int);
        }
        assert(r.deep_view() =~= list.insert(k as int, m));
        i = i + 1;
    }
    assert(all.take(all.len() as int) =~= all);
    r
}

/// The weight of the lightest item.
fn lowest_order(items: &Vec<&SettingsItem>) -> (r: i32)
    ensures
        r == lowest(items.deep_view()),
{
    if items.len() == 0 {
        return 0;
    }
    let ghost all = items.deep_view();
    let mut r: i32 = items[0].order;
    let mut i: usize = 1;
    assert(all.take(1) =~= seq![all[0]]);
    assert(all[0] == items@[0].deep_view());
    while i < items.len()
        invariant
            1 <= i <= items.len(),
            all == items.deep_view(),
            r == lowest(all.take(i as int)),
        decreases items.len() - i,
    {
        assert(all.take(i + 1).drop_last() =~= all.take(i as int));
        assert(all.take(i + 1).last() == items@[i as int].deep_view());
        if items[i].order < r {
            r = items[i].order;
        }
        i = i + 1;
    }
    assert(all.take(all.len() as int) =~= all);
    r
}

/// Some items as the menu shows them.
fn item_views(
    items: &Vec<&SettingsItem>,
    admin_path: &str,
    active_code: Option<&str>,
    tr: &Translator,
    icons: &Icons<'_>,
) -> (r: Vec<ItemView>)
    ensures
        r.deep_view() == items.deep_view().map_values(
            |i: ItemModel|
                item_view(
                    menu_model(admin_path@, active_code.deep_view(), tr@, icons.set@, icons.sprite@),
                    i,
                ),
        ),
{
    let ghost all = items.deep_view();
    let ghost m = menu_model(admin_path@, active_code.deep_view(), tr@, icons.set@, icons.sprite@);
    let mut r: Vec<ItemView> = Vec::new();
    let mut i: usize = 0;
    while i < items.len()
        invariant
            i <= items.len(),
            all == items.deep_view(),
            m == menu_model(
                admin_path@,
                active_code.deep_view(),
                tr@,
                icons.set@,
                icons.sprite@,
            ),
            r.len() == i,
            forall|j: int| 0 <= j < i ==> #[trigger] r@[j].deep_view() == item_view(m, all[j]),
        decreases items.len() - i,
    {
        let it: &SettingsItem = items[i];
        assert(all[i as int] == it.deep_view());
        let active: bool = match active_code {
            Some(code) => same(code, it.code.as_str()),
            None => false,
        };
        let icon: Option<&str> = match &it.icon {
            Some(n) => Some(n.as_str()),
            None => None,
        };
        r.push(
            ItemView {
                label: tr.t(&it.label),
                description: tr.t(&it.description),
                path: it.path(admin_path),
                icon: icons.render(icon),
                active,
            },
        );
        i = i + 1;
    }
    assert(r.deep_view() =~= all.map_values(|i: ItemModel| item_view(m, i)));
    r
}

/// What a menu is drawn with.
pub open spec fn menu_model(
    admin: Seq<char>,
    active: Option<Seq<char>>,
    table: Seq<(Seq<char>, Seq<char>)>,
    icons: Seq<Seq<char>>,
    sprite: Seq<char>,
) -> MenuModel {
    MenuModel { admin, active, table, icons, sprite }
}

/// Whether one category comes before another.
fn category_precedes(a: &CategoryView, b: &CategoryView) -> (r: bool)
    ensures
        r == category_first()(a.deep_view(), b.deep_view()),
{
    a.min_order < b.min_order || (a.min_order == b.min_order && precedes(
        a.name.as_str(),
        b.name.as_str(),
    ))
}

/// Builds the settings menu: items grouped by category and ordered
/// deterministically, with the open item marked.
pub fn sidebar_groups(
    items: &Vec<&SettingsItem>,
    admin_path: &str,
    active_code: Option<&str>,
    tr: &Translator,
    icons: &Icons<'_>,
) -> (r: Vec<CategoryView>)
    ensures
        r.deep_view() == sidebar(
            menu_model(admin_path@, active_code.deep_view(), tr@, icons.set@, icons.sprite@),
            items.deep_view(),
        ),
{
    let ghost all = items.deep_view();
    let ghost m = menu_model(admin_path@, active_code.deep_view(), tr@, icons.set@, icons.sprite@);
    let names: Vec<String> = list_headings(items, tr);
    let ghost views = names.deep_view().map_values(|h: Seq<char>| category_view(m, all, h));
    let mut r: Vec<CategoryView> = Vec::new();
    let mut i: usize = 0;
    assert(r.deep_view() =~= sorted_by(views.take(0), category_first()));
    while i < names.len()
        invariant
            i <= names.len(),
            all == items.deep_view(),
            m == menu_model(
                admin_path@,
                active_code.deep_view(),
                tr@,
                icons.set@,
                icons.sprite@,
            ),
            views == names.deep_view().map_values(|h: Seq<char>| category_view(m, all, h)),
            r.deep_view() == sorted_by(views.take(i as int), category_first()),
        decreases names.len() - i,
    {
        let members: Vec<&SettingsItem> = list_members(items, tr, names[i].as_str());
        let min_order: i32 = lowest_order(&members);
        let ordered: Vec<&SettingsItem> = by_weight(&members);
        let group: CategoryView = CategoryView {
            name: names[i].clone(),
            min_order,
            items: item_views(&ordered, admin_path, active_code, tr, icons),
        };
        let ghost w = group.deep_view();
        assert(names.deep_view()[i as int] == names@[i as int]@);
        assert(w.items =~= category_view(m, all, names@[i as int]@).items);
        assert(w == category_view(m, all, names@[i as int]@));
        let ghost list = r.deep_view();
        assert(views.take(i + 1).drop_last() =~= views.take(i as int));
        assert(views.take(i + 1).last() == w);
        let mut k: usize = r.len();
        while k > 0 && category_precedes(&group, &r[k - 1])
            invariant
                k <= r.len(),
                list == r.deep_view(),
                w == group.deep_view(),
                forall|j: int| k <= j < list.len() ==> category_first()(w, #[trigger] list[j]),
            decreases k,
        {
            assert(list[k - 1] == r@[k - 1].deep_view());
            k = k - 1;
        }
        assert(k > 0 ==> list[k - 1] == r@[k - 1].deep_view());
        r.insert(k, group);
        proof {
            lemma_insert_at(list, w, category_first(), k as int);
        }
        assert(r.deep_view() =~= list.insert(k as int, w));
        i = i + 1;
    }
    assert(views.take(views.len() as int) =~= views);
    r
}

/// The order of the items orders, so a category's items really stand by weight.
pub proof fn law_items_stand_by_weight(items: Seq<ItemModel>)
    ensures
        crate::order::in_order(sorted_by(items, lighter()), lighter()),
        sorted_by(items, lighter()).to_multiset() == items.to_multiset(),
{
    assert(crate::order::orders(lighter())) by {
        assert forall|a: ItemModel, b: ItemModel| #[trigger] lighter()(a, b) implies !lighter()(
            b,
            a,
        ) by {
            crate::order::lemma_text_order(a.label.source, b.label.source, b.label.source);
        }
        assert forall|a: ItemModel, b: ItemModel, c: ItemModel|
            !(#[trigger] lighter()(b, a)) && !(#[trigger] lighter()(c, b)) implies !lighter()(
            c,
            a,
        ) by {
            crate::order::lemma_text_order(a.label.source, b.label.source, c.label.source);
        }
    }
    crate::order::law_sorting_orders(items, lighter());
}

// --------------------------------------------------------------------- values
/// A stored attribute as a settings value: a settings blob has no previous row to
/// fall back to, so null is the empty text.
pub open spec fn setting_value(v: Option<AttrModel>) -> AttrModel {
    match v {
        None => AttrModel::Text(Seq::empty()),
        Some(AttrModel::Null) => AttrModel::Text(Seq::empty()),
        Some(other) => other,
    }
}

/// What one field stores, or why it cannot.
pub open spec fn setting_of(
    f: FormFieldModel,
    data: Seq<(Seq<char>, Seq<char>)>,
    answers: AnswersModel,
    types: FieldTypesModel,
    pickers: Seq<Seq<char>>,
) -> Result<AttrModel, TextModel> {
    match kind_in(f.field_type, types) {
        None => Err(plain("This screen uses a field type that is not registered."@)),
        Some(kind) => match options_resolved(kind, f.field_type, f.options, types, pickers) {
            Err(_) => Err(plain("This screen has a malformed field."@)),
            Ok(opts) => match attr_stored(kind, opts, f.name, data, answers) {
                Ok(v) => Ok(setting_value(v)),
                Err(_) => Err(plain("Check the values and try again."@)),
            },
        },
    }
}

/// What a settings form stores: every declared key, or the first refusal.
pub open spec fn settings_of(
    fields: Seq<FormFieldModel>,
    data: Seq<(Seq<char>, Seq<char>)>,
    answers: AnswersModel,
    types: FieldTypesModel,
    pickers: Seq<Seq<char>>,
) -> Result<Seq<(Seq<char>, AttrModel)>, TextModel>
    decreases fields.len(),
{
    if fields.len() == 0 {
        Ok(Seq::empty())
    } else {
        match settings_of(fields.drop_last(), data, answers, types, pickers) {
            Err(e) => Err(e),
            Ok(object) => match setting_of(fields.last(), data, answers, types, pickers) {
                Err(e) => Err(e),
                Ok(v) => Ok(put(object, fields.last().name, v)),
            },
        }
    }
}

proof fn lemma_settings_refused(
    fields: Seq<FormFieldModel>,
    data: Seq<(Seq<char>, Seq<char>)>,
    answers: AnswersModel,
    types: FieldTypesModel,
    pickers: Seq<Seq<char>>,
    n: int,
)
    requires
        0 <= n <= fields.len(),
        settings_of(fields.take(n), data, answers, types, pickers) is Err,
    ensures
        settings_of(fields, data, answers, types, pickers) == settings_of(
            fields.take(n),
            data,
            answers,
            types,
            pickers,
        ),
    decreases fields.len() - n,
{
    if n == fields.len() {
        assert(fields.take(n) =~= fields);
    } else {
        assert(fields.take(n + 1).drop_last() =~= fields.take(n));
        lemma_settings_refused(fields, data, answers, types, pickers, n + 1);
    }
}

/// What one field stores, or why it cannot.
fn read_setting(
    f: &FormField,
    data: &Vec<(String, String)>,
    answers: &Answers,
    types: &FieldTypes,
    pickers: &Vec<String>,
) -> (r: Result<AttrValue, Text>)
    ensures
        match setting_of(
            f.deep_view(),
            data.deep_view(),
            answers.deep_view(),
            types@,
            pickers.deep_view(),
        ) {
            Ok(v) => r is Ok && (r->Ok_0).deep_view() == v,
            Err(e) => r is Err && (r->Err_0)@ == e,
        },
{
    let kind: FieldKind = match find_type(f.field_type.as_str(), types) {
        Some(k) => k,
        None => {
            return Err(Text::new("This screen uses a field type that is not registered."));
        },
    };
    let opts: ResolvedOptions = match kind.resolve_options(
        f.field_type.as_str(),
        f.options.as_ref(),
        types,
        pickers,
    ) {
        Ok(o) => o,
        Err(_) => {
            return Err(Text::new("This screen has a malformed field."));
        },
    };
    let field: SubmittedField = SubmittedField::new(f.name.as_str(), data);
    match kind.to_attr(&field, &opts, Mode::Update, answers) {
        Err(_) => Err(Text::new("Check the values and try again.")),
        Ok(None) => Ok(AttrValue::Text(String::new())),
        Ok(Some(AttrValue::Null)) => Ok(AttrValue::Text(String::new())),
        Ok(Some(v)) => Ok(v),
    }
}

/// The values a settings form stores, each typed by its field's type: the same
/// write a descriptor form makes. A type that refuses its input refuses the save.
pub fn collect(
    item: &SettingsItem,
    data: &Vec<(String, String)>,
    answers: &Answers,
    types: &FieldTypes,
    pickers: &Vec<String>,
) -> (r: Result<Vec<(String, AttrValue)>, Text>)
    ensures
        match settings_of(
            item.deep_view().fields,
            data.deep_view(),
            answers.deep_view(),
            types@,
            pickers.deep_view(),
        ) {
            Ok(object) => r is Ok && (r->Ok_0).deep_view() == object,
            Err(e) => r is Err && (r->Err_0)@ == e,
        },
{
    let ghost all = item.fields.deep_view();
    let ghost given = data.deep_view();
    let ghost known = answers.deep_view();
    let ghost sources = pickers.deep_view();
    let mut rec: Record = Record::new(item.code.as_str());
    let mut i: usize = 0;
    while i < item.fields.len()
        invariant
            i <= item.fields.len(),
            all == item.fields.deep_view(),
            given == data.deep_view(),
            known == answers.deep_view(),
            sources == pickers.deep_view(),
            settings_of(all.take(i as int), given, known, types@, sources) == Ok::<
                Seq<(Seq<char>, AttrModel)>,
                TextModel,
            >(rec@.attrs),
        decreases item.fields.len() - i,
    {
        let f: &FormField = &item.fields[i];
        assert(all.take(i + 1).drop_last() =~= all.take(i as int));
        assert(all.take(i + 1).last() == f.deep_view());
        match read_setting(f, data, answers, types, pickers) {
            Err(e) => {
                proof {
                    lemma_settings_refused(all, given, known, types@, sources, i + 1);
                }
                return Err(e);
            },
            Ok(v) => {
                rec.set(f.name.as_str(), v);
            },
        }
        i = i + 1;
    }
    assert(all.take(all.len() as int) =~= all);
    Ok(rec.attrs)
}

/// Every declared key is written, whatever was submitted.
pub proof fn law_every_declared_setting_is_written(
    fields: Seq<FormFieldModel>,
    data: Seq<(Seq<char>, Seq<char>)>,
    answers: AnswersModel,
    types: FieldTypesModel,
    pickers: Seq<Seq<char>>,
    i: int,
)
    requires
        0 <= i < fields.len(),
    ensures
        settings_of(fields, data, answers, types, pickers) matches Ok(object) ==> held(
            object,
            fields[i].name,
        ) is Some,
    decreases fields.len(),
{
    if settings_of(fields, data, answers, types, pickers) is Ok {
        let init = fields.drop_last();
        let before = settings_of(init, data, answers, types, pickers)->Ok_0;
        let v = setting_of(fields.last(), data, answers, types, pickers)->Ok_0;
        crate::attr::law_put_then_held(before, fields.last().name, v, fields[i].name);
        if i < init.len() {
            law_every_declared_setting_is_written(init, data, answers, types, pickers, i);
            assert(init[i] == fields[i]);
        }
    }
}

// ----------------------------------------------------------------------- form
/// One field of a settings form. Its control is absent where its type is not
/// registered.
pub struct SettingView {
    pub label: String,
    pub help: Option<String>,
    pub control: Option<FieldVm>,
}

/// A [`SettingView`], over characters.
pub struct SettingViewModel {
    pub label: Seq<char>,
    pub help: Option<Seq<char>>,
    pub control: Option<FieldVmModel>,
}

impl DeepView for SettingView {
    type V = SettingViewModel;

    open spec fn deep_view(&self) -> SettingViewModel {
        SettingViewModel {
            label: self.label@,
            help: self.help.deep_view(),
            control: self.control.deep_view(),
        }
    }
}

/// A settings form as its template renders it.
pub struct SettingsForm {
    pub title: String,
    pub description: String,
    pub action: String,
    pub error: Option<String>,
    pub fields: Vec<SettingView>,
}

/// A [`SettingsForm`], over characters.
pub struct SettingsFormModel {
    pub title: Seq<char>,
    pub description: Seq<char>,
    pub action: Seq<char>,
    pub error: Option<Seq<char>>,
    pub fields: Seq<SettingViewModel>,
}

impl DeepView for SettingsForm {
    type V = SettingsFormModel;

    open spec fn deep_view(&self) -> SettingsFormModel {
        SettingsFormModel {
            title: self.title@,
            description: self.description@,
            action: self.action@,
            error: self.error.deep_view(),
            fields: self.fields.deep_view(),
        }
    }
}

/// A field type behaves on a settings screen as it does on a form: a field that a form
/// takes is stored by the same type with the same options, whether the type is a
/// built-in one or a module's own.
pub proof fn law_a_type_behaves_alike_on_forms_and_settings(
    f: FormFieldModel,
    data: Seq<(Seq<char>, Seq<char>)>,
    answers: AnswersModel,
    types: FieldTypesModel,
    pickers: Seq<Seq<char>>,
)
    requires
        field_prepared(f, types, pickers) is Ok,
    ensures
        ({
            let prepared = field_prepared(f, types, pickers)->Ok_0;
            setting_of(f, data, answers, types, pickers) == (match attr_stored(
                prepared.kind,
                prepared.opts,
                f.name,
                data,
                answers,
            ) {
                Ok(v) => Ok(setting_value(v)),
                Err(_) => Err(plain("Check the values and try again."@)),
            })
        }),
{
}

/// The texts of one setting that have to be hashed before it can be stored.
pub open spec fn setting_secrets(
    f: FormFieldModel,
    data: Seq<(Seq<char>, Seq<char>)>,
    types: FieldTypesModel,
    pickers: Seq<Seq<char>>,
) -> Seq<Seq<char>> {
    match kind_in(f.field_type, types) {
        None => Seq::empty(),
        Some(kind) => match options_resolved(kind, f.field_type, f.options, types, pickers) {
            Err(_) => Seq::empty(),
            Ok(opts) => field_secrets(kind, opts, f.name, data),
        },
    }
}

/// The texts of a settings submission that have to be hashed before it can be stored.
pub open spec fn settings_secrets(
    fields: Seq<FormFieldModel>,
    data: Seq<(Seq<char>, Seq<char>)>,
    types: FieldTypesModel,
    pickers: Seq<Seq<char>>,
) -> Seq<Seq<char>>
    decreases fields.len(),
{
    if fields.len() == 0 {
        Seq::empty()
    } else {
        settings_secrets(fields.drop_last(), data, types, pickers) + setting_secrets(
            fields.last(),
            data,
            types,
            pickers,
        )
    }
}

/// The texts of a settings submission that have to be hashed before it can be stored.
pub fn secrets_of(
    item: &SettingsItem,
    data: &Vec<(String, String)>,
    types: &FieldTypes,
    pickers: &Vec<String>,
) -> (r: Vec<String>)
    ensures
        r.deep_view() == settings_secrets(
            item.deep_view().fields,
            data.deep_view(),
            types@,
            pickers.deep_view(),
        ),
{
    let ghost all = item.fields.deep_view();
    let ghost given = data.deep_view();
    let ghost sources = pickers.deep_view();
    let mut r: Vec<String> = Vec::new();
    let mut i: usize = 0;
    assert(r.deep_view() =~= settings_secrets(all.take(0), given, types@, sources));
    while i < item.fields.len()
        invariant
            i <= item.fields.len(),
            all == item.fields.deep_view(),
            given == data.deep_view(),
            sources == pickers.deep_view(),
            r.deep_view() == settings_secrets(all.take(i as int), given, types@, sources),
        decreases item.fields.len() - i,
    {
        let f: &FormField = &item.fields[i];
        let ghost before = r.deep_view();
        assert(all.take(i + 1).drop_last() =~= all.take(i as int));
        assert(all.take(i + 1).last() == f.deep_view());
        let mut more: Vec<String> = Vec::new();
        match find_type(f.field_type.as_str(), types) {
            None => {},
            Some(kind) => match kind.resolve_options(
                f.field_type.as_str(),
                f.options.as_ref(),
                types,
                pickers,
            ) {
                Err(_) => {},
                Ok(opts) => {
                    let field: SubmittedField = SubmittedField::new(f.name.as_str(), data);
                    more = kind.secrets(&field, &opts);
                },
            },
        }
        let ghost w = setting_secrets(f.deep_view(), given, types@, sources);
        assert(more.deep_view() =~= w);
        r.append(&mut more);
        assert(r.deep_view() =~= before + w);
        i = i + 1;
    }
    assert(all.take(all.len() as int) =~= all);
    r
}

/// What the contributed types of one setting are asked about a submission.
pub open spec fn setting_asked(
    f: FormFieldModel,
    data: Seq<(Seq<char>, Seq<char>)>,
    types: FieldTypesModel,
    pickers: Seq<Seq<char>>,
) -> Seq<AskedModel> {
    match kind_in(f.field_type, types) {
        None => Seq::empty(),
        Some(kind) => match options_resolved(kind, f.field_type, f.options, types, pickers) {
            Err(_) => Seq::empty(),
            Ok(opts) => field_asked(kind, opts, f.name, data),
        },
    }
}

/// What the contributed types of a settings form are asked about a submission before it
/// can be stored.
pub open spec fn settings_asked(
    fields: Seq<FormFieldModel>,
    data: Seq<(Seq<char>, Seq<char>)>,
    types: FieldTypesModel,
    pickers: Seq<Seq<char>>,
) -> Seq<AskedModel>
    decreases fields.len(),
{
    if fields.len() == 0 {
        Seq::empty()
    } else {
        settings_asked(fields.drop_last(), data, types, pickers) + setting_asked(
            fields.last(),
            data,
            types,
            pickers,
        )
    }
}

/// What the contributed types of a settings form are asked about a submission before it
/// can be stored.
pub fn asked_of(
    item: &SettingsItem,
    data: &Vec<(String, String)>,
    types: &FieldTypes,
    pickers: &Vec<String>,
) -> (r: Vec<Asked>)
    ensures
        r.deep_view() == settings_asked(
            item.deep_view().fields,
            data.deep_view(),
            types@,
            pickers.deep_view(),
        ),
{
    let ghost all = item.fields.deep_view();
    let ghost given = data.deep_view();
    let ghost sources = pickers.deep_view();
    let mut r: Vec<Asked> = Vec::new();
    let mut i: usize = 0;
    assert(r.deep_view() =~= settings_asked(all.take(0), given, types@, sources));
    while i < item.fields.len()
        invariant
            i <= item.fields.len(),
            all == item.fields.deep_view(),
            given == data.deep_view(),
            sources == pickers.deep_view(),
            r.deep_view() == settings_asked(all.take(i as int), given, types@, sources),
        decreases item.fields.len() - i,
    {
        let f: &FormField = &item.fields[i];
        let ghost before = r.deep_view();
        assert(all.take(i + 1).drop_last() =~= all.take(i as int));
        assert(all.take(i + 1).last() == f.deep_view());
        let mut more: Vec<Asked> = Vec::new();
        match find_type(f.field_type.as_str(), types) {
            None => {},
            Some(kind) => match kind.resolve_options(
                f.field_type.as_str(),
                f.options.as_ref(),
                types,
                pickers,
            ) {
                Err(_) => {},
                Ok(opts) => {
                    let field: SubmittedField = SubmittedField::new(f.name.as_str(), data);
                    more = kind.asked(&field, &opts);
                },
            },
        }
        let ghost w = setting_asked(f.deep_view(), given, types@, sources);
        assert(more.deep_view() =~= w);
        r.append(&mut more);
        assert(r.deep_view() =~= before + w);
        i = i + 1;
    }
    assert(all.take(all.len() as int) =~= all);
    r
}

/// What a control shows for a stored value.
pub open spec fn shown_value(kind: FieldKind, stored: Option<AttrModel>) -> FieldValueModel {
    match stored {
        Some(AttrModel::Rows(rows)) => FieldValueModel::Rows(rows),
        Some(AttrModel::Text(s)) => FieldValueModel::Text(control_shown(kind, Some(s))),
        Some(AttrModel::Null) => FieldValueModel::Text(control_shown(kind, None)),
        None => FieldValueModel::Text(control_shown(kind, None)),
        Some(AttrModel::Bool(b)) => FieldValueModel::Text(
            control_shown(
                kind,
                Some(
                    if b {
                        "true"@
                    } else {
                        "false"@
                    },
                ),
            ),
        ),
        Some(AttrModel::Int(i)) => FieldValueModel::Text(
            control_shown(kind, Some(decimal_int(i))),
        ),
    }
}

/// One field of a settings form.
pub open spec fn setting_view(
    f: FormFieldModel,
    stored: Seq<(Seq<char>, AttrModel)>,
    table: Seq<(Seq<char>, Seq<char>)>,
    base: Seq<char>,
    types: FieldTypesModel,
    pickers: Seq<Seq<char>>,
) -> SettingViewModel {
    let label = localized(table, f.label);
    SettingViewModel {
        label,
        help: match f.help {
            Some(h) => Some(localized(table, h)),
            None => None,
        },
        control: match kind_in(f.field_type, types) {
            None => None,
            Some(kind) => {
                let opts = match options_resolved(kind, f.field_type, f.options, types, pickers) {
                    Ok(o) => o,
                    Err(_) => None,
                };
                Some(
                    field_vm(
                        kind,
                        f.name,
                        f.name,
                        label,
                        false,
                        shown_value(kind, held(stored, f.name)),
                        opts,
                        base,
                    ),
                )
            },
        },
    }
}

/// A settings form as its template renders it.
pub open spec fn settings_form(
    item: ItemModel,
    error: Option<TextModel>,
    stored: Seq<(Seq<char>, AttrModel)>,
    table: Seq<(Seq<char>, Seq<char>)>,
    base: Seq<char>,
    types: FieldTypesModel,
    pickers: Seq<Seq<char>>,
) -> SettingsFormModel {
    SettingsFormModel {
        title: localized(table, item.label),
        description: localized(table, item.description),
        action: item_path(item, base),
        error: match error {
            Some(e) => Some(localized(table, e)),
            None => None,
        },
        fields: item.fields.map_values(
            |f: FormFieldModel| setting_view(f, stored, table, base, types, pickers),
        ),
    }
}

/// A copy of some rows.
fn copy_rows(rows: &Vec<Vec<(String, Scalar)>>) -> (out: Vec<Vec<(String, Scalar)>>)
    ensures
        out.deep_view() == rows.deep_view(),
{
    let ghost all = rows.deep_view();
    let mut out: Vec<Vec<(String, Scalar)>> = Vec::new();
    let mut i: usize = 0;
    while i < rows.len()
        invariant
            i <= rows.len(),
            all == rows.deep_view(),
            out.len() == i,
            forall|j: int| 0 <= j < i ==> #[trigger] out@[j].deep_view() == all[j],
        decreases rows.len() - i,
    {
        let row: &Vec<(String, Scalar)> = &rows[i];
        let ghost cells = row.deep_view();
        assert(all[i as int] == cells);
        let mut copy: Vec<(String, Scalar)> = Vec::new();
        let mut k: usize = 0;
        while k < row.len()
            invariant
                k <= row.len(),
                cells == row.deep_view(),
                copy.len() == k,
                forall|j: int| 0 <= j < k ==> #[trigger] copy@[j].deep_view() == cells[j],
            decreases row.len() - k,
        {
            copy.push((row[k].0.clone(), row[k].1.copy()));
            k = k + 1;
        }
        assert(copy.deep_view() =~= cells);
        out.push(copy);
        i = i + 1;
    }
    assert(out.deep_view() =~= all);
    out
}

/// What a control shows for a stored value.
fn show_value(kind: FieldKind, opts: &ResolvedOptions, stored: Option<&AttrValue>) -> (r: FieldValue)
    ensures
        r.deep_view() == shown_value(kind, stored.deep_view()),
{
    match stored {
        Some(AttrValue::Rows(rows)) => FieldValue::Rows(copy_rows(rows)),
        Some(AttrValue::Text(s)) => FieldValue::Text(kind.to_control(Some(s.as_str()), opts)),
        Some(AttrValue::Null) => FieldValue::Text(kind.to_control(None, opts)),
        None => FieldValue::Text(kind.to_control(None, opts)),
        Some(AttrValue::Bool(b)) => if *b {
            FieldValue::Text(kind.to_control(Some("true"), opts))
        } else {
            FieldValue::Text(kind.to_control(Some("false"), opts))
        },
        Some(AttrValue::Int(i)) => {
            let text: String = i64_text(*i);
            FieldValue::Text(kind.to_control(Some(text.as_str()), opts))
        },
    }
}

/// Builds a settings form over the stored values.
pub fn build(
    item: &SettingsItem,
    error: Option<&Text>,
    stored: &Record,
    tr: &Translator,
    base: &str,
    types: &FieldTypes,
    pickers: &Vec<String>,
) -> (r: SettingsForm)
    ensures
        r.deep_view() == settings_form(
            item.deep_view(),
            match error {
                Some(e) => Some(e@),
                None => None,
            },
            stored@.attrs,
            tr@,
            base@,
            types@,
            pickers.deep_view(),
        ),
{
    let ghost all = item.fields.deep_view();
    let ghost attrs = stored@.attrs;
    let ghost sources = pickers.deep_view();
    let mut fields: Vec<SettingView> = Vec::new();
    let mut i: usize = 0;
    while i < item.fields.len()
        invariant
            i <= item.fields.len(),
            all == item.fields.deep_view(),
            attrs == stored@.attrs,
            sources == pickers.deep_view(),
            fields.len() == i,
            forall|j: int|
                0 <= j < i ==> #[trigger] fields@[j].deep_view() == setting_view(
                    all[j],
                    attrs,
                    tr@,
                    base@,
                    types@,
                    sources,
                ),
        decreases item.fields.len() - i,
    {
        let f: &FormField = &item.fields[i];
        assert(all[i as int] == f.deep_view());
        let label: String = tr.t(&f.label);
        let help: Option<String> = match &f.help {
            Some(h) => Some(tr.t(h)),
            None => None,
        };
        let control: Option<FieldVm> = match find_type(f.field_type.as_str(), types) {
            None => None,
            Some(kind) => {
                let opts: ResolvedOptions = match kind.resolve_options(
                    f.field_type.as_str(),
                    f.options.as_ref(),
                    types,
                    pickers,
                ) {
                    Ok(o) => o,
                    Err(_) => ResolvedOptions::none(),
                };
                let value: FieldValue = show_value(kind, &opts, stored.get(f.name.as_str()));
                Some(
                    kind.view_model(
                        &FieldCx {
                            name: f.name.as_str(),
                            id: f.name.as_str(),
                            label: label.as_str(),
                            value: &value,
                            required: false,
                            opts: &opts,
                            base,
                        },
                    ),
                )
            },
        };
        fields.push(SettingView { label, help, control });
        i = i + 1;
    }
    let banner: Option<String> = match error {
        Some(e) => Some(tr.t(e)),
        None => None,
    };
    let r: SettingsForm = SettingsForm {
        title: tr.t(&item.label),
        description: tr.t(&item.description),
        action: item.path(base),
        error: banner,
        fields,
    };
    assert(r.deep_view().fields =~= all.map_values(
        |f: FormFieldModel| setting_view(f, attrs, tr@, base@, types@, sources),
    ));
    r
}

// --------------------------------------------------------------------- saving
/// What a settings save does next.
pub enum SettingsStep {
    /// Write these values.
    Write(Vec<(String, AttrValue)>),
    /// Show the form again with this message.
    Rerender(Text),
    /// Record the change in the audit log and return to the settings index. The
    /// audit entry names which model changed, not the contents, which may hold
    /// secrets.
    Saved {
        forget_brand: bool,
        audit_action: String,
        target_type: String,
        target_id: String,
        flash: Flash,
        to: String,
    },
}

/// What follows a submission.
pub fn submitted_settings(collected: Result<Vec<(String, AttrValue)>, Text>) -> (r: SettingsStep)
    ensures
        match collected {
            Ok(values) => r == SettingsStep::Write(values),
            Err(e) => r == SettingsStep::Rerender(e),
        },
{
    match collected {
        Ok(values) => SettingsStep::Write(values),
        Err(e) => SettingsStep::Rerender(e),
    }
}

/// What follows the write. A save to the brand forgets the name kept for display.
pub fn written_settings(code: &str, admin_path: &str, ok: bool) -> (r: SettingsStep)
    ensures
        match r {
            SettingsStep::Saved {
                forget_brand,
                audit_action,
                target_type,
                target_id,
                flash: f,
                to,
            } => {
                &&& ok
                &&& forget_brand == (code@ == BRAND_CODE@)
                &&& audit_action@ == "backend.settings.update"@
                &&& target_type@ == "settings"@
                &&& target_id@ == code@
                &&& f.deep_view() == flash(FlashLevel::Success, "Settings saved."@)
                &&& to@ == admin_path@ + "/settings"@
            },
            SettingsStep::Rerender(m) => !ok && m@ == plain("Could not save. Please try again."@),
            SettingsStep::Write(_) => false,
        },
{
    if ok {
        SettingsStep::Saved {
            forget_brand: same(code, BRAND_CODE),
            audit_action: "backend.settings.update".to_owned(),
            target_type: "settings".to_owned(),
            target_id: code.to_owned(),
            flash: Flash::say(FlashLevel::Success, "Settings saved."),
            to: cat(admin_path, "/settings"),
        }
    } else {
        SettingsStep::Rerender(Text::new("Could not save. Please try again."))
    }
}

// ---------------------------------------------------------------------- brand
/// The storage code of the brand settings.
pub const BRAND_CODE: &'static str = "laterite.brand";

/// The brand settings: the application name shown across the admin. Blank falls
/// back to the configured application name.
#[derive(Debug)]
pub struct BrandSetting {
    pub app_name: String,
}

impl Default for BrandSetting {
    fn default() -> (r: Self)
        ensures
            r.app_name@ == Seq::<char>::empty(),
    {
        BrandSetting { app_name: String::new() }
    }
}

/// The brand: the setting's name where it has one, the configured name otherwise.
pub open spec fn brand_name(setting: Option<Seq<char>>, configured: Seq<char>) -> Seq<char> {
    match setting {
        Some(name) => if is_blank(name) {
            configured
        } else {
            name
        },
        None => configured,
    }
}

/// The resolved brand name, kept across requests so the setting is not read on
/// every page. `None` means not resolved yet.
pub struct BrandCache {
    pub name: Option<String>,
}

impl View for BrandCache {
    type V = Option<Seq<char>>;

    open spec fn view(&self) -> Option<Seq<char>> {
        self.name.deep_view()
    }
}

impl BrandCache {
    /// Nothing resolved yet.
    pub fn new() -> (r: BrandCache)
        ensures
            r@ is None,
    {
        BrandCache { name: None }
    }

    /// The name, where it has been resolved.
    pub fn get(&self) -> (r: Option<String>)
        ensures
            r.deep_view() == self@,
    {
        match &self.name {
            Some(n) => Some(n.clone()),
            None => None,
        }
    }

    /// Resolves the name from the loaded setting (absent where it could not be
    /// read) and keeps it.
    pub fn fill(&mut self, loaded: Option<BrandSetting>, configured: &str) -> (r: String)
        ensures
            r@ == brand_name(
                match loaded {
                    Some(b) => Some(b.app_name@),
                    None => None,
                },
                configured@,
            ),
            final(self)@ == Some(r@),
    {
        let resolved: String = match loaded {
            Some(b) => if trim(b.app_name.as_str()).unicode_len() == 0 {
                configured.to_owned()
            } else {
                b.app_name
            },
            None => configured.to_owned(),
        };
        self.name = Some(resolved.clone());
        resolved
    }

    /// Forgets the name, so the next resolution reads the setting again.
    pub fn invalidate(&mut self)
        ensures
            final(self)@ is None,
    {
        self.name = None;
    }
}

/// The settings item that surfaces the brand.
pub open spec fn brand_item_model() -> ItemModel {
    ItemModel {
        description: plain("The application name shown across the admin."@),
        category: plain("System"@),
        order: 10,
        permission: Some("backend.manage_branding"@),
        route: Some("/settings/branding"@),
        ..bare_item(
            BRAND_CODE@,
            "Branding"@,
            seq![
                FormFieldModel {
                    help: Some(
                        plain(
                            "Shown as the admin brand. Clearing it falls back to the configured application name."@,
                        ),
                    ),
                    ..field_of("app_name"@, plain("Application name"@), "text"@)
                },
            ],
        )
    }
}

/// The settings item that surfaces the brand, under a "System" category.
pub fn brand_item() -> (r: SettingsItem)
    ensures
        r.deep_view() == brand_item_model(),
{
    let mut fields: Vec<FormField> = Vec::new();
    fields.push(
        FormField::text("app_name", "Application name").help(
            "Shown as the admin brand. Clearing it falls back to the configured application name.",
        ),
    );
    assert(fields.deep_view() =~= brand_item_model().fields);
    let mut r: SettingsItem = SettingsItem::new(BRAND_CODE, "Branding", fields).description(
        "The application name shown across the admin.",
    ).category("System").order(10).permission("backend.manage_branding");
    r.route = Some("/settings/branding".to_owned());
    r
}

/// Fills a form's unset values from configuration, so a field shows the value in
/// force rather than opening blank: the brand's name from the configured one.
/// Nothing is written.
pub fn prefill_from_config(item: &SettingsItem, stored: &mut Record, app_name: &str)
    ensures
        final(stored)@ == (if item.deep_view().code == BRAND_CODE@ && match held(
            old(stored)@.attrs,
            "app_name"@,
        ) {
            Some(AttrModel::Text(s)) => is_blank(s),
            _ => true,
        } {
            RecordModel {
                attrs: put(old(stored)@.attrs, "app_name"@, AttrModel::Text(app_name@)),
                ..old(stored)@
            }
        } else {
            old(stored)@
        }),
{
    if !same(item.code.as_str(), BRAND_CODE) {
        return;
    }
    let unset: bool = match stored.get("app_name") {
        Some(AttrValue::Text(s)) => trim(s.as_str()).unicode_len() == 0,
        _ => true,
    };
    if unset {
        stored.set("app_name", AttrValue::Text(app_name.to_owned()));
    }
}

// ------------------------------------------------------------------- built in
/// The framework's own settings items. The Users and Roles resources appear in
/// the settings menu rather than as main-menu tabs.
pub open spec fn builtin_settings_models() -> Seq<ItemModel> {
    seq![
        ItemModel {
            description: plain("Manage backend administrator accounts."@),
            category: plain("Users"@),
            order: 10,
            icon: Some("users"@),
            permission: Some("backend.manage_users"@),
            link: Some("/users"@),
            ..bare_item("backend.administrators"@, "Administrators"@, Seq::empty())
        },
        ItemModel {
            description: plain("Manage roles and their permissions."@),
            category: plain("Users"@),
            order: 20,
            icon: Some("shield"@),
            permission: Some("backend.manage_roles"@),
            link: Some("/roles"@),
            ..bare_item("backend.roles"@, "Roles"@, Seq::empty())
        },
        brand_item_model(),
        ItemModel {
            description: plain("Enable or disable installed plugins."@),
            category: plain("System"@),
            order: 10,
            icon: Some("plug"@),
            permission: Some(MANAGE_PLUGINS@),
            link: Some("/plugins"@),
            ..bare_item("backend.plugins"@, "Plugins"@, Seq::empty())
        },
        ItemModel {
            description: plain("Review the record of administrative changes."@),
            category: plain("System"@),
            order: 20,
            icon: Some("history"@),
            permission: Some("backend.view_audit_log"@),
            link: Some("/audit-log"@),
            ..bare_item("backend.audit_log"@, "Audit Log"@, Seq::empty())
        },
    ]
}

/// No fields.
fn no_fields() -> (r: Vec<FormField>)
    ensures
        r.deep_view() == Seq::<FormFieldModel>::empty(),
{
    let r: Vec<FormField> = Vec::new();
    assert(r.deep_view() =~= Seq::<FormFieldModel>::empty());
    r
}

/// The framework's own settings items.
pub fn builtin_settings() -> (r: Vec<SettingsItem>)
    ensures
        r.deep_view() == builtin_settings_models(),
{
    let mut r: Vec<SettingsItem> = Vec::new();
    r.push(
        SettingsItem::new("backend.administrators", "Administrators", no_fields()).description(
            "Manage backend administrator accounts.",
        ).category("Users").order(10).icon("users").permission("backend.manage_users").link(
            "/users",
        ),
    );
    r.push(
        SettingsItem::new("backend.roles", "Roles", no_fields()).description(
            "Manage roles and their permissions.",
        ).category("Users").order(20).icon("shield").permission("backend.manage_roles").link(
            "/roles",
        ),
    );
    r.push(brand_item());
    r.push(
        SettingsItem::new("backend.plugins", "Plugins", no_fields()).description(
            "Enable or disable installed plugins.",
        ).category("System").order(10).icon("plug").permission(MANAGE_PLUGINS).link("/plugins"),
    );
    r.push(
        SettingsItem::new("backend.audit_log", "Audit Log", no_fields()).description(
            "Review the record of administrative changes.",
        ).category("System").order(20).icon("history").permission("backend.view_audit_log").link(
            "/audit-log",
        ),
    );
    assert(r.deep_view() =~= builtin_settings_models());
    r
}

// --------------------------------------------------------------- simple fields
/// How a simple settings field is rendered and typed.
#[derive(Debug, Clone, Copy, PartialEq, Eq, Structural)]
pub enum SettingsWidget {
    /// A single-line text.
    Text,
    /// A multi-line text.
    Textarea,
    /// A boolean, rendered as a checkbox.
    Switch,
}

/// One simple field of a settings model: its key, its label, its widget, and
/// optional help shown beneath the control.
#[derive(Debug)]
pub struct SettingsField {
    pub name: String,
    pub label: String,
    pub widget: SettingsWidget,
    pub help: Option<String>,
}

impl SettingsField {
    pub fn text(name: &str, label: &str) -> (r: Self)
        ensures
            r.name@ == name@,
            r.label@ == label@,
            r.widget == SettingsWidget::Text,
            r.help is None,
    {
        SettingsField {
            name: name.to_owned(),
            label: label.to_owned(),
            widget: SettingsWidget::Text,
            help: None,
        }
    }

    pub fn textarea(name: &str, label: &str) -> (r: Self)
        ensures
            r.name@ == name@,
            r.label@ == label@,
            r.widget == SettingsWidget::Textarea,
            r.help is None,
    {
        SettingsField {
            name: name.to_owned(),
            label: label.to_owned(),
            widget: SettingsWidget::Textarea,
            help: None,
        }
    }

    pub fn switch(name: &str, label: &str) -> (r: Self)
        ensures
            r.name@ == name@,
            r.label@ == label@,
            r.widget == SettingsWidget::Switch,
            r.help is None,
    {
        SettingsField {
            name: name.to_owned(),
            label: label.to_owned(),
            widget: SettingsWidget::Switch,
            help: None,
        }
    }

    pub fn help(self, text: &str) -> (r: Self)
        ensures
            r.name == self.name,
            r.label == self.label,
            r.widget == self.widget,
            r.help.deep_view() == Some(text@),
    {
        let mut it: Self = self;
        it.help = Some(text.to_owned());
        it
    }

    /// The same field as a form descriptor.
    pub fn into_field(self) -> (r: FormField)
        ensures
            r.deep_view() == (FormFieldModel {
                help: match self.help {
                    Some(h) => Some(plain(h@)),
                    None => None,
                },
                ..field_of(
                    self.name@,
                    plain(self.label@),
                    match self.widget {
                        SettingsWidget::Text => "text"@,
                        SettingsWidget::Textarea => "textarea"@,
                        SettingsWidget::Switch => "switch"@,
                    },
                )
            }),
    {
        let kind: &str = match self.widget {
            SettingsWidget::Text => "text",
            SettingsWidget::Textarea => "textarea",
            SettingsWidget::Switch => "switch",
        };
        let f: FormField = FormField::of(self.name.as_str(), Text::new(self.label.as_str()), kind);
        match self.help {
            Some(h) => f.help(h.as_str()),
            None => f,
        }
    }
}

/// Whether a submitted checkbox is ticked.
pub fn is_checked(raw: Option<&String>) -> (r: bool)
    ensures
        r == (match raw {
            Some(s) => s@ == "on"@ || s@ == "true"@ || s@ == "1"@,
            None => false,
        }),
{
    match raw {
        Some(s) => same(s.as_str(), "on") || same(s.as_str(), "true") || same(s.as_str(), "1"),
        None => false,
    }
}

/// Two figures.
pub const USERS_ICON: &'static str = "<svg viewBox=\"0 0 24 24\" fill=\"none\" stroke=\"currentColor\" stroke-width=\"2\" stroke-linecap=\"round\" stroke-linejoin=\"round\"><path d=\"M16 21v-2a4 4 0 0 0-4-4H6a4 4 0 0 0-4 4v2\"/><circle cx=\"9\" cy=\"7\" r=\"4\"/><path d=\"M22 21v-2a4 4 0 0 0-3-3.87\"/><path d=\"M16 3.13a4 4 0 0 1 0 7.75\"/></svg>";

/// A shield.
pub const SHIELD_ICON: &'static str = "<svg viewBox=\"0 0 24 24\" fill=\"none\" stroke=\"currentColor\" stroke-width=\"2\" stroke-linecap=\"round\" stroke-linejoin=\"round\"><path d=\"M20 13c0 5-3.5 7.5-7.66 8.95a1 1 0 0 1-.67-.01C7.5 20.5 4 18 4 13V6a1 1 0 0 1 1-1c2 0 4.5-1.2 6.24-2.72a1.17 1.17 0 0 1 1.52 0C14.51 3.81 17 5 19 5a1 1 0 0 1 1 1z\"/></svg>";

/// A set of sliders, the generic glyph.
pub const SLIDERS_ICON: &'static str = "<svg viewBox=\"0 0 24 24\" fill=\"none\" stroke=\"currentColor\" stroke-width=\"2\" stroke-linecap=\"round\" stroke-linejoin=\"round\"><line x1=\"21\" x2=\"14\" y1=\"4\" y2=\"4\"/><line x1=\"10\" x2=\"3\" y1=\"4\" y2=\"4\"/><line x1=\"21\" x2=\"12\" y1=\"12\" y2=\"12\"/><line x1=\"8\" x2=\"3\" y1=\"12\" y2=\"12\"/><line x1=\"21\" x2=\"16\" y1=\"20\" y2=\"20\"/><line x1=\"12\" x2=\"3\" y1=\"20\" y2=\"20\"/><line x1=\"14\" x2=\"14\" y1=\"2\" y2=\"6\"/><line x1=\"8\" x2=\"8\" y1=\"10\" y2=\"14\"/><line x1=\"16\" x2=\"16\" y1=\"18\" y2=\"22\"/></svg>";

/// Inline markup for a menu icon name. Unknown or absent names fall back to the
/// generic glyph.
pub fn icon_svg(name: Option<&str>) -> (r: &'static str)
    ensures
        r@ == (match name.deep_view() {
            Some(n) => if n == "users"@ {
                USERS_ICON@
            } else if n == "shield"@ {
                SHIELD_ICON@
            } else {
                SLIDERS_ICON@
            },
            None => SLIDERS_ICON@,
        }),
{
    match name {
        Some(n) => if same(n, "users") {
            USERS_ICON
        } else if same(n, "shield") {
            SHIELD_ICON
        } else {
            SLIDERS_ICON
        },
        None => SLIDERS_ICON,
    }
}

} // verus!
