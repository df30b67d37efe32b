//! The chrome around every page: the top navigation, the settings menu, and the
//! shell that carries them.

use vstd::prelude::*;

use crate::access::PermissionSet;
use crate::assets::{asset_url, preauth_asset, PageAsset, PageAssetModel};
use crate::icons::{icon_markup, svg, IconSet, Icons};
use crate::nums::{decimal_int, i64_text};
use crate::session::{Flash, FlashLevel, FlashModel};
use crate::settings::{
    item_route, menu_model, sidebar, sidebar_groups, visible, visible_settings, CategoryModel,
    CategoryView, ItemModel, SettingsItem,
};
use crate::strs::{cat, same, starts_with};
use crate::text::{localized, plain, Text, TextModel, Translator};
use crate::unicode::{uppercase, uppercase_of};
use crate::zones::{display_zone, resolve_display_tz};

verus! {

// -------------------------------------------------------------------- context
/// Whether a path is a page or one of the pages below it.
pub open spec fn within(path: Seq<char>, page: Seq<char>) -> bool {
    path == page || (page + "/"@).is_prefix_of(path)
}

/// Whether a path is a page or one of the pages below it.
fn is_within(path: &str, page: &str) -> (r: bool)
    ensures
        r == within(path@, page@),
{
    same(path, page) || starts_with(path, cat(page, "/").as_str())
}

/// The first item whose own form stands at a path.
pub open spec fn form_at(items: Seq<ItemModel>, admin: Seq<char>, path: Seq<char>) -> Option<Seq<char>>
    decreases items.len(),
{
    if items.len() == 0 {
        None
    } else if items[0].link is None && path == admin + item_route(items[0]) {
        Some(items[0].code)
    } else {
        form_at(items.drop_first(), admin, path)
    }
}

/// The item that claims a path by the longest link, with that link: the last of
/// them where two are equally long.
pub open spec fn link_at(items: Seq<ItemModel>, admin: Seq<char>, path: Seq<char>) -> Option<
    (Seq<char>, Seq<char>),
>
    decreases items.len(),
{
    if items.len() == 0 {
        None
    } else {
        let before = link_at(items.drop_last(), admin, path);
        match items.last().link {
            None => before,
            Some(l) => {
                let link = admin + l;
                if within(path, link) && (before is None || (before->0).0.len() <= link.len()) {
                    Some((link, items.last().code))
                } else {
                    before
                }
            },
        }
    }
}

/// Whether a path is in the settings context, and which item is open there.
pub open spec fn context_of(items: Seq<ItemModel>, admin: Seq<char>, path: Seq<char>) -> (
    bool,
    Option<Seq<char>>,
) {
    if path == admin + "/settings"@ {
        (true, None)
    } else {
        match form_at(items, admin, path) {
            Some(code) => (true, Some(code)),
            None => match link_at(items, admin, path) {
                Some(found) => (true, Some(found.1)),
                None => (false, None),
            },
        }
    }
}

/// The first item whose own form stands at a path.
fn find_form(items: &Vec<&SettingsItem>, admin_path: &str, path: &str) -> (r: Option<String>)
    ensures
        r.deep_view() == form_at(items.deep_view(), admin_path@, path@),
{
    let ghost all = items.deep_view();
    let mut i: usize = 0;
    assert(all.skip(0) =~= all);
    while i < items.len()
        invariant
            i <= items.len(),
            all == items.deep_view(),
            form_at(all, admin_path@, path@) == form_at(all.skip(i as int), admin_path@, path@),
        decreases items.len() - i,
    {
        assert(all.skip(i as int).drop_first() =~= all.skip(i + 1));
        assert(all.skip(i as int)[0] == items@[i as int].deep_view());
        if items[i].link.is_none() {
            let at: String = cat(admin_path, items[i].route().as_str());
            if same(path, at.as_str()) {
                return Some(items[i].code.clone());
            }
        }
        i = i + 1;
    }
    None
}

/// The item that claims a path by the longest link.
fn find_link(items: &Vec<&SettingsItem>, admin_path: &str, path: &str) -> (r: Option<String>)
    ensures
        r.deep_view() == (match link_at(items.deep_view(), admin_path@, path@) {
            Some(found) => Some(found.1),
            None => None,
        }),
{
    let ghost all = items.deep_view();
    let mut best: Option<(String, String)> = None;
    let mut i: usize = 0;
    while i < items.len()
        invariant
            i <= items.len(),
            all == items.deep_view(),
            best.deep_view() == link_at(all.take(i as int), admin_path@, path@),
        decreases items.len() - i,
    {
        assert(all.take(i + 1).drop_last() =~= all.take(i as int));
        assert(all.take(i + 1).last() == items@[i as int].deep_view());
        match &items[i].link {
            None => {},
            Some(l) => {
                let link: String = cat(admin_path, l.as_str());
                if is_within(path, link.as_str()) {
                    let longer: bool = match &best {
                        None => true,
                        Some(b) => b.0.as_str().unicode_len() <= link.as_str().unicode_len(),
                    };
                    if longer {
                        best = Some((link, items[i].code.clone()));
                    }
                }
            },
        }
        i = i + 1;
    }
    assert(all.take(all.len() as int) =~= all);
    match best {
        Some(b) => Some(b.1),
        None => None,
    }
}

/// Whether `path` sits in the settings context, and if so which item is open. A
/// screen is in it when it is the settings index or a settings form, or when its
/// path falls under an item's link (its list, forms and sub-pages). `visible` is
/// what the operator may see, so a linked screen they cannot see never claims the
/// context.
pub fn settings_context(visible: &Vec<&SettingsItem>, admin_path: &str, path: &str) -> (r: (
    bool,
    Option<String>,
))
    ensures
        r.0 == context_of(visible.deep_view(), admin_path@, path@).0,
        r.1.deep_view() == context_of(visible.deep_view(), admin_path@, path@).1,
{
    if same(path, cat(admin_path, "/settings").as_str()) {
        return (true, None);
    }
    match find_form(visible, admin_path, path) {
        Some(code) => (true, Some(code)),
        None => match find_link(visible, admin_path, path) {
            Some(code) => (true, Some(code)),
            None => (false, None),
        },
    }
}

// --------------------------------------------------------------------- top nav
/// One entry of the top navigation.
pub struct NavLink {
    pub label: Text,
    pub path: String,
    /// An icon name, or `None` for a text-only tab.
    pub icon: Option<String>,
}

/// A [`NavLink`], over characters.
pub struct NavModel {
    pub label: TextModel,
    pub path: Seq<char>,
    pub icon: Option<Seq<char>>,
}

impl DeepView for NavLink {
    type V = NavModel;

    open spec fn deep_view(&self) -> NavModel {
        NavModel { label: self.label@, path: self.path@, icon: self.icon.deep_view() }
    }
}

/// Whether an entry claims a path. The root is every path's ancestor, so it claims
/// its own path alone.
pub open spec fn claims(n: NavModel, admin: Seq<char>, path: Seq<char>) -> bool {
    path == n.path || (n.path != admin && (n.path + "/"@).is_prefix_of(path))
}

/// The path of the entry that claims a path by the longest prefix.
pub open spec fn claimed_by(nav: Seq<NavModel>, admin: Seq<char>, path: Seq<char>) -> Option<
    Seq<char>,
>
    decreases nav.len(),
{
    if nav.len() == 0 {
        None
    } else {
        let before = claimed_by(nav.drop_last(), admin, path);
        if claims(nav.last(), admin, path) && (before is None || (before->0).len()
            <= nav.last().path.len()) {
            Some(nav.last().path)
        } else {
            before
        }
    }
}

/// The top-nav entry to highlight for a path.
pub open spec fn active_nav(
    nav: Seq<NavModel>,
    admin: Seq<char>,
    in_settings: bool,
    path: Seq<char>,
) -> Option<Seq<char>> {
    if in_settings {
        Some(admin + "/settings"@)
    } else {
        claimed_by(nav, admin, path)
    }
}

/// The top-nav entry to highlight for `path`. A screen in the settings context
/// lights the Settings tab; otherwise a section owns its own path subtree, the
/// longest match winning. A screen belonging to no section lights nothing.
pub fn active_nav_path(
    nav: &Vec<NavLink>,
    admin_path: &str,
    in_settings_context: bool,
    path: &str,
) -> (r: Option<String>)
    ensures
        r.deep_view() == active_nav(nav.deep_view(), admin_path@, in_settings_context, path@),
{
    if in_settings_context {
        return Some(cat(admin_path, "/settings"));
    }
    let ghost all = nav.deep_view();
    let mut best: Option<String> = None;
    let mut i: usize = 0;
    while i < nav.len()
        invariant
            i <= nav.len(),
            all == nav.deep_view(),
            best.deep_view() == claimed_by(all.take(i as int), admin_path@, path@),
        decreases nav.len() - i,
    {
        assert(all.take(i + 1).drop_last() =~= all.take(i as int));
        assert(all.take(i + 1).last() == nav@[i as int].deep_view());
        let at: &str = nav[i].path.as_str();
        if same(path, at) || (!same(at, admin_path) && starts_with(path, cat(at, "/").as_str())) {
            let longer: bool = match &best {
                None => true,
                Some(b) => b.as_str().unicode_len() <= at.unicode_len(),
            };
            if longer {
                best = Some(nav[i].path.clone());
            }
        }
        i = i + 1;
    }
    assert(all.take(all.len() as int) =~= all);
    best
}

/// The tab that lights up is the page itself or a page above it, and the root
/// lights up for itself alone.
pub proof fn law_a_lit_tab_leads_to_the_page(
    nav: Seq<NavModel>,
    admin: Seq<char>,
    path: Seq<char>,
)
    ensures
        active_nav(nav, admin, false, path) matches Some(lit) ==> within(path, lit) && (lit == admin
            ==> path == admin),
    decreases nav.len(),
{
    if nav.len() > 0 {
        law_a_lit_tab_leads_to_the_page(nav.drop_last(), admin, path);
    }
}

/// Resolves a request's navigation: the settings menu, empty where the screen sits
/// outside any settings context, and the top-nav entry to highlight.
pub fn resolve_nav_context(
    nav: &Vec<NavLink>,
    items: &Vec<SettingsItem>,
    admin_path: &str,
    perms: &PermissionSet,
    path: &str,
    tr: &Translator,
    icons: &Icons<'_>,
) -> (r: (Vec<CategoryView>, Option<String>))
    ensures
        ({
            let seen = visible(items.deep_view(), perms@);
            let (in_context, active) = context_of(seen, admin_path@, path@);
            &&& r.0.deep_view() == (if in_context {
                sidebar(
                    menu_model(admin_path@, active, tr@, icons.set@, icons.sprite@),
                    seen,
                )
            } else {
                Seq::empty()
            })
            &&& r.1.deep_view() == active_nav(nav.deep_view(), admin_path@, in_context, path@)
        }),
{
    let seen: Vec<&SettingsItem> = visible_settings(items, perms);
    let (in_context, active) = settings_context(&seen, admin_path, path);
    let mut groups: Vec<CategoryView> = Vec::new();
    assert(groups.deep_view() =~= Seq::<CategoryModel>::empty());
    if in_context {
        let code: Option<&str> = match &active {
            Some(c) => Some(c.as_str()),
            None => None,
        };
        groups = sidebar_groups(&seen, admin_path, code, tr, icons);
    }
    let lit: Option<String> = active_nav_path(nav, admin_path, in_context, path);
    (groups, lit)
}

// ----------------------------------------------------------------------- shell
/// One tab of the top navigation, as the page shows it.
pub struct NavView {
    pub label: String,
    pub path: String,
    pub active: bool,
    /// Markup for the tab's icon, or empty for a text-only tab.
    pub icon: String,
}

/// A [`NavView`], over characters.
pub struct NavViewModel {
    pub label: Seq<char>,
    pub path: Seq<char>,
    pub active: bool,
    pub icon: Seq<char>,
}

impl DeepView for NavView {
    type V = NavViewModel;

    open spec fn deep_view(&self) -> NavViewModel {
        NavViewModel {
            label: self.label@,
            path: self.path@,
            active: self.active,
            icon: self.icon@,
        }
    }
}

/// A flash message in the operator's language.
pub struct FlashLine {
    pub level: FlashLevel,
    pub text: String,
}

/// A [`FlashLine`], over characters.
pub struct FlashLineModel {
    pub level: FlashLevel,
    pub text: Seq<char>,
}

impl DeepView for FlashLine {
    type V = FlashLineModel;

    open spec fn deep_view(&self) -> FlashLineModel {
        FlashLineModel { level: self.level, text: self.text@ }
    }
}

/// A tab as the page shows it.
pub open spec fn nav_view(
    n: NavModel,
    active: Option<Seq<char>>,
    table: Seq<(Seq<char>, Seq<char>)>,
    icons: Seq<Seq<char>>,
    sprite: Seq<char>,
) -> NavViewModel {
    NavViewModel {
        label: localized(table, n.label),
        path: n.path,
        active: active == Some(n.path),
        icon: icon_markup(icons, sprite, n.icon),
    }
}

/// What stands for a name where a picture would: its first character in upper
/// case, or a question mark.
pub open spec fn initial_of(name: Seq<char>) -> Seq<char> {
    if name.len() == 0 {
        "?"@
    } else {
        uppercase_of(name[0])
    }
}

/// The chrome shared by every signed-in page. Built once per request, so pages
/// render inside the same shell without each rebuilding it.
pub struct Shell<'a> {
    /// The admin mount path.
    pub base: String,
    pub brand: String,
    pub nav: Vec<NavView>,
    pub full_name: String,
    pub initial: String,
    /// The timezone this operator's timestamps render in.
    pub tz: String,
    pub i18n: Translator,
    /// The settings menu for the current section. Empty means none.
    pub sidebar: Vec<CategoryView>,
    pub icon_set: &'a IconSet,
    pub sprite_url: &'a str,
    /// The site's own root.
    pub site_url: String,
    /// Each asset's content-named path.
    pub asset_urls: &'a Vec<(String, String)>,
    /// The session's request token, put into every form.
    pub csrf_token: String,
    /// Flash messages to show once on this page.
    pub flash: Vec<FlashLine>,
    /// Per-page widget assets.
    pub assets: Vec<PageAsset>,
}

impl<'a> Shell<'a> {
    /// The chrome of one request: tabs and flashes localized, the timezone
    /// resolved, the initial drawn from the operator's name.
    pub fn new(
        base: &str,
        brand: String,
        nav: &Vec<NavLink>,
        full_name: String,
        timezone: Option<&str>,
        default_tz: &str,
        sidebar: Vec<CategoryView>,
        active_nav: Option<&str>,
        csrf_token: String,
        flash: &Vec<Flash>,
        i18n: Translator,
        asset_urls: &'a Vec<(String, String)>,
        site_url: String,
        icon_set: &'a IconSet,
        sprite_url: &'a str,
    ) -> (r: Self)
        ensures
            r.base@ == base@,
            r.brand == brand,
            r.nav.deep_view() == nav.deep_view().map_values(
                |n: NavModel|
                    nav_view(n, active_nav.deep_view(), i18n@, icon_set@, sprite_url@),
            ),
            r.full_name == full_name,
            r.initial@ == initial_of(full_name@),
            r.tz@ == display_zone(timezone.deep_view(), default_tz@),
            r.i18n == i18n,
            r.sidebar == sidebar,
            r.icon_set == icon_set,
            r.sprite_url == sprite_url,
            r.site_url == site_url,
            r.asset_urls == asset_urls,
            r.csrf_token == csrf_token,
            r.flash.deep_view() == flash.deep_view().map_values(
                |f: FlashModel|
                    FlashLineModel { level: f.level, text: localized(i18n@, f.text) },
            ),
            r.assets.deep_view() == Seq::<PageAssetModel>::empty(),
    {
        let tabs: Vec<NavView> = nav_views(nav, active_nav, &i18n, icon_set, sprite_url);
        let lines: Vec<FlashLine> = flash_lines(flash, &i18n);
        let initial: String = if full_name.as_str().unicode_len() == 0 {
            "?".to_owned()
        } else {
            uppercase(full_name.as_str().get_char(0))
        };
        let assets: Vec<PageAsset> = Vec::new();
        assert(assets.deep_view() =~= Seq::<PageAssetModel>::empty());
        Shell {
            base: base.to_owned(),
            brand,
            nav: tabs,
            full_name,
            initial,
            tz: resolve_display_tz(timezone, default_tz),
            i18n,
            sidebar,
            icon_set,
            sprite_url,
            site_url,
            asset_urls,
            csrf_token,
            flash: lines,
            assets,
        }
    }

    /// The site's own root, for the chrome's link out to the front of the site.
    pub fn site_url(&self) -> (r: &str)
        ensures
            r@ == self.site_url@,
    {
        self.site_url.as_str()
    }

    /// Markup for a named icon.
    pub fn icon(&self, name: &str) -> (r: String)
        ensures
            r@ == icon_markup(self.icon_set@, self.sprite_url@, Some(name@)),
    {
        svg(self.icon_set, self.sprite_url, Some(name))
    }

    /// The URL of an asset, named by a digest of its bytes.
    pub fn asset(&self, key: &str) -> (r: String)
        ensures
            r@ == asset_url(self.asset_urls.deep_view(), self.base@, key@),
    {
        preauth_asset(self.asset_urls, self.base.as_str(), key)
    }

    /// A source string in this request's language.
    pub fn t(&self, source: &str) -> (r: String)
        ensures
            r@ == localized(self.i18n@, plain(source@)),
    {
        self.i18n.t(&Text::new(source))
    }

    /// A message in this request's language.
    pub fn tt(&self, text: &Text) -> (r: String)
        ensures
            r@ == localized(self.i18n@, text@),
    {
        self.i18n.t(text)
    }

    /// The active locale.
    pub fn locale(&self) -> (r: &str)
        ensures
            r@ == self.i18n.locale@,
    {
        self.i18n.locale()
    }

    /// A source string with integer arguments, in this request's language.
    pub fn tf(&self, source: &str, args: &Vec<(String, i64)>) -> (r: String)
        ensures
            r@ == localized(
                self.i18n@,
                TextModel {
                    args: args.deep_view().map_values(
                        |a: (Seq<char>, i64)| (a.0, decimal_int(a.1 as int)),
                    ),
                    ..plain(source@)
                },
            ),
    {
        let mut text: Text = Text::new(source);
        let ghost all = args.deep_view();
        let ghost want = all.map_values(|a: (Seq<char>, i64)| (a.0, decimal_int(a.1 as int)));
        let mut i: usize = 0;
        assert(text@.args =~= want.take(0));
        while i < args.len()
            invariant
                i <= args.len(),
                all == args.deep_view(),
                want == all.map_values(|a: (Seq<char>, i64)| (a.0, decimal_int(a.1 as int))),
                text@ == (TextModel { args: want.take(i as int), ..plain(source@) }),
            decreases args.len() - i,
        {
            assert(all[i as int] == args@[i as int].deep_view());
            text = text.arg(args[i].0.as_str(), i64_text(args[i].1).as_str());
            assert(want.take(i as int).push(want[i as int]) =~= want.take(i + 1));
            i = i + 1;
        }
        assert(want.take(want.len() as int) =~= want);
        self.i18n.t(&text)
    }

    /// A source string with text arguments, in this request's language.
    pub fn tfs(&self, source: &str, args: &Vec<(String, String)>) -> (r: String)
        ensures
            r@ == localized(
                self.i18n@,
                TextModel { args: args.deep_view(), ..plain(source@) },
            ),
    {
        let mut text: Text = Text::new(source);
        let ghost all = args.deep_view();
        let mut i: usize = 0;
        assert(text@.args =~= all.take(0));
        while i < args.len()
            invariant
                i <= args.len(),
                all == args.deep_view(),
                text@ == (TextModel { args: all.take(i as int), ..plain(source@) }),
            decreases args.len() - i,
        {
            assert(all[i as int] == args@[i as int].deep_view());
            text = text.arg(args[i].0.as_str(), args[i].1.as_str());
            assert(all.take(i as int).push(all[i as int]) =~= all.take(i + 1));
            i = i + 1;
        }
        assert(all.take(all.len() as int) =~= all);
        self.i18n.t(&text)
    }
}

/// The tabs as the page shows them.
fn nav_views(
    nav: &Vec<NavLink>,
    active: Option<&str>,
    tr: &Translator,
    icon_set: &IconSet,
    sprite_url: &str,
) -> (r: Vec<NavView>)
    ensures
        r.deep_view() == nav.deep_view().map_values(
            |n: NavModel| nav_view(n, active.deep_view(), tr@, icon_set@, sprite_url@),
        ),
{
    let ghost all = nav.deep_view();
    let ghost lit = active.deep_view();
    let mut r: Vec<NavView> = Vec::new();
    let mut i: usize = 0;
    while i < nav.len()
        invariant
            i <= nav.len(),
            all == nav.deep_view(),
            lit == active.deep_view(),
            r.len() == i,
            forall|j: int|
                0 <= j < i ==> #[trigger] r@[j].deep_view() == nav_view(
                    all[j],
                    lit,
                    tr@,
                    icon_set@,
                    sprite_url@,
                ),
        decreases nav.len() - i,
    {
        let n: &NavLink = &nav[i];
        assert(all[i as int] == n.deep_view());
        let on: bool = match active {
            Some(p) => same(p, n.path.as_str()),
            None => false,
        };
        let icon: Option<&str> = match &n.icon {
            Some(name) => Some(name.as_str()),
            None => None,
        };
        r.push(
            NavView {
                label: tr.t(&n.label),
                path: n.path.clone(),
                active: on,
                icon: svg(icon_set, sprite_url, icon),
            },
        );
        i = i + 1;
    }
    assert(r.deep_view() =~= all.map_values(
        |n: NavModel| nav_view(n, lit, tr@, icon_set@, sprite_url@),
    ));
    r
}

/// The flashes in the operator's language.
fn flash_lines(flash: &Vec<Flash>, tr: &Translator) -> (r: Vec<FlashLine>)
    ensures
        r.deep_view() == flash.deep_view().map_values(
            |f: FlashModel| FlashLineModel { level: f.level, text: localized(tr@, f.text) },
        ),
{
    let ghost all = flash.deep_view();
    let mut r: Vec<FlashLine> = Vec::new();
    let mut i: usize = 0;
    while i < flash.len()
        invariant
            i <= flash.len(),
            all == flash.deep_view(),
            r.len() == i,
            forall|j: int|
                0 <= j < i ==> #[trigger] r@[j].deep_view() == (FlashLineModel {
                    level: all[j].level,
                    text: localized(tr@, all[j].text),
                }),
        decreases flash.len() - i,
    {
        assert(all[i as int] == flash@[i as int].deep_view());
        r.push(FlashLine { level: flash[i].level, text: tr.t(&flash[i].text) });
        i = i + 1;
    }
    assert(r.deep_view() =~= all.map_values(
        |f: FlashModel| FlashLineModel { level: f.level, text: localized(tr@, f.text) },
    ));
    r
}

} // verus!
