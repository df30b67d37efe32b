//! What a list screen shows: the request it resolves to, the links that carry it,
//! and the controls around the table.

use vstd::prelude::*;
use vstd::string::StringExecFns;
use vstd::utf8::encode_utf8;

use crate::access::{meets, PermissionSet};
use crate::icons::{icon_markup, Icons};
use crate::list::{
    active_filters, declared, declares, filter_param, resolve_filters, resolve_sort, sort_dir,
    sort_field, ActiveFilter, ActiveModel, ButtonModel, ColumnModel, FilterKind, FilterModel,
    KindModel, ListColumn, ListConfig, ListFilter, ListModel, OptionModel, SortDir, ToolbarButton,
};
use crate::nums::{i64_of, parse_i64};
use crate::strs::{
    cat, cat3, is_ascii_lower, is_ascii_upper, is_digit, same, starts_with, strip_prefix, trim,
    trimmed,
};
use crate::text::{localized, plain, Text, Translator};

verus! {

// -------------------------------------------------------------- query strings
/// A byte that stands for itself in a query string.
pub open spec fn unreserved(b: u8) -> bool {
    ||| 65 <= b <= 90
    ||| 97 <= b <= 122
    ||| 48 <= b <= 57
    ||| b == 45
    ||| b == 95
    ||| b == 46
    ||| b == 126
}

/// One upper-case hexadecimal digit of a value below sixteen.
pub open spec fn upper_hex(n: int) -> char {
    if n < 10 {
        (n + 48) as char
    } else {
        (n + 55) as char
    }
}

/// A byte as it stands in a query string.
pub open spec fn encoded_byte(b: u8) -> Seq<char> {
    if unreserved(b) {
        seq![b as char]
    } else if b == 32 {
        seq!['+']
    } else {
        seq!['%', upper_hex(b as int / 16), upper_hex(b as int % 16)]
    }
}

/// Some bytes as they stand in a query string.
pub open spec fn encoded(bytes: Seq<u8>) -> Seq<char>
    decreases bytes.len(),
{
    if bytes.len() == 0 {
        Seq::empty()
    } else {
        encoded(bytes.drop_last()) + encoded_byte(bytes.last())
    }
}

/// A text as it stands in a query string.
pub open spec fn urlencoded(s: Seq<char>) -> Seq<char> {
    encoded(encode_utf8(s))
}

/// One upper-case hexadecimal digit of a value below sixteen.
fn upper_digit(n: u8) -> (c: char)
    requires
        n < 16,
    ensures
        c == upper_hex(n as int),
{
    if n < 10 {
        (n + 48) as char
    } else {
        (n + 55) as char
    }
}

/// Percent-encodes a query-string value.
pub fn urlencode(value: &str) -> (out: String)
    ensures
        out@ == urlencoded(value@),
{
    let bytes: &[u8] = value.as_bytes();
    let mut out: String = String::new();
    let mut i: usize = 0;
    while i < bytes.len()
        invariant
            bytes@ == encode_utf8(value@),
            i <= bytes.len(),
            out@ == encoded(bytes@.take(i as int)),
        decreases bytes.len() - i,
    {
        let b: u8 = bytes[i];
        let ghost before = out@;
        assert(bytes@.take(i + 1).drop_last() =~= bytes@.take(i as int));
        let keep: bool = (65 <= b && b <= 90) || (97 <= b && b <= 122) || (48 <= b && b <= 57) || b
            == 45 || b == 95 || b == 46 || b == 126;
        if keep {
            out.push(b as char);
        } else if b == 32 {
            out.push('+');
        } else {
            out.push('%');
            out.push(upper_digit(b / 16));
            out.push(upper_digit(b % 16));
        }
        assert(out@ =~= before + encoded_byte(b));
        i = i + 1;
    }
    assert(bytes@.take(bytes@.len() as int) =~= bytes@);
    out
}

/// A character an encoded value can hold.
pub open spec fn link_char(c: char) -> bool {
    is_ascii_lower(c) || is_ascii_upper(c) || is_digit(c) || c == '-' || c == '_' || c == '.' || c
        == '~' || c == '+' || c == '%'
}

/// An encoded value never holds a character that would end it or start another
/// parameter.
pub proof fn law_encoded_values_stay_in_place(bytes: Seq<u8>)
    ensures
        forall|i: int| 0 <= i < encoded(bytes).len() ==> link_char(#[trigger] encoded(bytes)[i]),
    decreases bytes.len(),
{
    if bytes.len() > 0 {
        let rest = encoded(bytes.drop_last());
        law_encoded_values_stay_in_place(bytes.drop_last());
        assert forall|i: int| 0 <= i < encoded(bytes).len() implies link_char(
            #[trigger] encoded(bytes)[i],
        ) by {
            if i < rest.len() {
                assert(encoded(bytes)[i] == rest[i]);
            } else {
                assert(encoded(bytes)[i] == encoded_byte(bytes.last())[i - rest.len()]);
            }
        }
    }
}

// ------------------------------------------------------------------- requests
/// The query-string parameters of a list screen.
pub struct ListParams {
    pub page: Option<i64>,
    pub sort: Option<String>,
    pub dir: Option<String>,
    pub q: Option<String>,
}

/// The values a query gives to a name, in order.
pub open spec fn values_named(
    pairs: Seq<(Seq<char>, Seq<char>)>,
    name: Seq<char>,
) -> Seq<Seq<char>> {
    pairs.filter_map(
        |p: (Seq<char>, Seq<char>)|
            if p.0 == name {
                Some(p.1)
            } else {
                None::<Seq<char>>
            },
    )
}

/// The value a query gives to a name.
pub open spec fn value_named(
    pairs: Seq<(Seq<char>, Seq<char>)>,
    name: Seq<char>,
) -> Option<Seq<char>> {
    if values_named(pairs, name).len() == 0 {
        None
    } else {
        Some(values_named(pairs, name)[0])
    }
}

/// Whether a query can be read as a list's: it names each parameter once at most, and
/// a page it names is a number.
pub open spec fn params_readable(pairs: Seq<(Seq<char>, Seq<char>)>) -> bool {
    &&& values_named(pairs, "page"@).len() <= 1
    &&& values_named(pairs, "sort"@).len() <= 1
    &&& values_named(pairs, "dir"@).len() <= 1
    &&& values_named(pairs, "q"@).len() <= 1
    &&& value_named(pairs, "page"@) matches Some(page) ==> i64_of(page) is Some
}

/// The value a query gives to a name, or nothing where it gives more than one.
fn named_once(pairs: &Vec<(String, String)>, name: &str) -> (r: Option<Option<String>>)
    ensures
        r is Some <==> values_named(pairs.deep_view(), name@).len() <= 1,
        r is Some ==> (r->0).deep_view() == value_named(pairs.deep_view(), name@),
{
    let ghost all = pairs.deep_view();
    let ghost f = |p: (Seq<char>, Seq<char>)|
        if p.0 == name@ {
            Some(p.1)
        } else {
            None::<Seq<char>>
        };
    let mut found: Vec<String> = Vec::new();
    assert(found.deep_view() =~= all.take(0).filter_map(f));
    let mut i: usize = 0;
    while i < pairs.len()
        invariant
            i <= pairs.len(),
            all == pairs.deep_view(),
            f == (|p: (Seq<char>, Seq<char>)|
                if p.0 == name@ {
                    Some(p.1)
                } else {
                    None::<Seq<char>>
                }),
            found.deep_view() == all.take(i as int).filter_map(f),
        decreases pairs.len() - i,
    {
        let ghost before = found.deep_view();
        proof {
            all.lemma_filter_map_take_succ(f, i as int);
            assert(all[i as int] == pairs[i as int].deep_view());
        }
        if same(pairs[i].0.as_str(), name) {
            found.push(pairs[i].1.clone());
            assert(found.deep_view() =~= before + seq![all[i as int].1]);
        }
        i = i + 1;
    }
    assert(all.take(all.len() as int) =~= all);
    assert(found.deep_view() == values_named(all, name@));
    if found.len() > 1 {
        None
    } else {
        Some(found.pop())
    }
}

/// Reads a list's query parameters. A page that is not a number, and a parameter given
/// more than once, make the query unreadable.
pub fn list_params(pairs: &Vec<(String, String)>) -> (r: Option<ListParams>)
    ensures
        r is Some <==> params_readable(pairs.deep_view()),
        r matches Some(p) ==> {
            &&& p.page == (match value_named(pairs.deep_view(), "page"@) {
                Some(page) => i64_of(page),
                None => None,
            })
            &&& p.sort.deep_view() == value_named(pairs.deep_view(), "sort"@)
            &&& p.dir.deep_view() == value_named(pairs.deep_view(), "dir"@)
            &&& p.q.deep_view() == value_named(pairs.deep_view(), "q"@)
        },
{
    let page: Option<i64> = match named_once(pairs, "page") {
        None => return None,
        Some(None) => None,
        Some(Some(text)) => match parse_i64(text.as_str()) {
            None => return None,
            Some(n) => Some(n),
        },
    };
    let sort: Option<String> = match named_once(pairs, "sort") {
        None => return None,
        Some(v) => v,
    };
    let dir: Option<String> = match named_once(pairs, "dir") {
        None => return None,
        Some(v) => v,
    };
    let q: Option<String> = match named_once(pairs, "q") {
        None => return None,
        Some(v) => v,
    };
    Some(ListParams { page, sort, dir, q })
}

/// What a list screen's request comes to.
pub struct ListRequest {
    pub page: i64,
    pub offset: i64,
    pub order_by: String,
    pub order_dir: SortDir,
    pub q: String,
    pub filters: Vec<ActiveFilter>,
    /// The `&k=v` pairs that a sort or pager link must carry.
    pub carry: String,
}

/// The page asked for: the submitted one, and the first where there is none or
/// it is not a page.
pub open spec fn page_of(page: Option<i64>) -> int {
    match page {
        Some(n) => if n < 1 {
            1
        } else {
            n as int
        },
        None => 1,
    }
}

/// The term searched for: what the box holds, trimmed.
pub open spec fn term_of(q: Option<Seq<char>>) -> Seq<char> {
    match q {
        Some(s) => trimmed(s),
        None => trimmed(Seq::empty()),
    }
}

/// The pairs that carry some filters.
pub open spec fn filters_carry(filters: Seq<ActiveModel>) -> Seq<char>
    decreases filters.len(),
{
    if filters.len() == 0 {
        Seq::empty()
    } else {
        filters_carry(filters.drop_last()) + "&"@ + filter_param(filters.last().field) + "="@
            + urlencoded(filters.last().raw)
    }
}

/// The pairs that a sort or pager link must carry: the term and the filters.
pub open spec fn carry_of(q: Seq<char>, filters: Seq<ActiveModel>) -> Seq<char> {
    (if q.len() > 0 {
        "&q="@ + urlencoded(q)
    } else {
        Seq::empty()
    }) + filters_carry(filters)
}

/// Whether the position of a page fits the machine.
pub fn page_fits(page: Option<i64>, per_page: i64) -> (r: bool)
    ensures
        r == (i64::MIN <= (page_of(page) - 1) * per_page <= i64::MAX),
{
    let n: i64 = match page {
        Some(p) => if p < 1 {
            1
        } else {
            p
        },
        None => 1,
    };
    let at: i128 = (n - 1) as i128;
    assert(-0x4000_0000_0000_0000_0000_0000_0000_0000 <= at * per_page
        <= 0x4000_0000_0000_0000_0000_0000_0000_0000) by (nonlinear_arith)
        requires
            0 <= at <= 0x7fff_ffff_ffff_ffff,
            -0x8000_0000_0000_0000 <= per_page <= 0x7fff_ffff_ffff_ffff,
    ;
    let offset: i128 = at * (per_page as i128);
    i64::MIN as i128 <= offset && offset <= i64::MAX as i128
}

/// The pairs that a sort or pager link must carry.
fn build_carry(q: &str, filters: &Vec<ActiveFilter>) -> (r: String)
    ensures
        r@ == carry_of(q@, filters.deep_view()),
{
    let mut r: String = String::new();
    if !q.is_empty() {
        r = cat("&q=", urlencode(q).as_str());
    }
    let ghost head = r@;
    let ghost all = filters.deep_view();
    let mut i: usize = 0;
    assert(r@ =~= head + filters_carry(all.take(0)));
    while i < filters.len()
        invariant
            i <= filters.len(),
            all == filters.deep_view(),
            r@ == head + filters_carry(all.take(i as int)),
        decreases filters.len() - i,
    {
        assert(all.take(i + 1).drop_last() =~= all.take(i as int));
        assert(all.take(i + 1).last() == filters[i as int].deep_view());
        r.append("&");
        r.append(cat("f_", filters[i].field.as_str()).as_str());
        r.append("=");
        r.append(urlencode(filters[i].raw.as_str()).as_str());
        assert(r@ =~= head + filters_carry(all.take(i + 1)));
        i = i + 1;
    }
    assert(all.take(all.len() as int) =~= all);
    r
}

/// What a list screen's request comes to, over the narrowed descriptor. `raw`
/// holds every parameter of the request.
pub fn list_request(
    config: &ListConfig,
    params: &ListParams,
    raw: &Vec<(String, String)>,
) -> (r: ListRequest)
    requires
        i64::MIN <= (page_of(params.page) - 1) * config.per_page <= i64::MAX,
    ensures
        r.page == page_of(params.page),
        r.offset == (page_of(params.page) - 1) * config.per_page,
        r.order_by@ == sort_field(config@, params.sort.deep_view()),
        r.order_dir == sort_dir(config@, r.order_by@, params.dir.deep_view()),
        r.q@ == term_of(params.q.deep_view()),
        r.filters.deep_view() == active_filters(config@.filters, raw.deep_view()),
        r.carry@ == carry_of(r.q@, r.filters.deep_view()),
{
    let page: i64 = match params.page {
        Some(p) => if p < 1 {
            1
        } else {
            p
        },
        None => 1,
    };
    let offset: i64 = (page - 1) * config.per_page;
    let sort: Option<&str> = match &params.sort {
        Some(s) => Some(s.as_str()),
        None => None,
    };
    let dir: Option<&str> = match &params.dir {
        Some(s) => Some(s.as_str()),
        None => None,
    };
    let (order_by, order_dir) = resolve_sort(config, sort, dir);
    let empty: String = String::new();
    let q: &str = match &params.q {
        Some(s) => trim(s.as_str()),
        None => trim(empty.as_str()),
    };
    let filters: Vec<ActiveFilter> = resolve_filters(&config.filters, raw);
    let carry: String = build_carry(q, &filters);
    ListRequest { page, offset, order_by, order_dir, q: q.to_owned(), filters, carry }
}

/// Division that rounds towards nought.
pub open spec fn trunc_div(a: int, b: int) -> int {
    if a >= 0 && b > 0 {
        a / b
    } else if a < 0 && b > 0 {
        -((-a) / b)
    } else if a >= 0 {
        -(a / (-b))
    } else {
        (-a) / (-b)
    }
}

/// The number of pages a total takes, at least one.
pub open spec fn pages_of(total: int, per_page: int) -> int {
    let n = trunc_div(total + per_page - 1, per_page);
    if n < 1 {
        1
    } else {
        n
    }
}

/// The number of pages a total takes, at least one.
pub fn total_pages(total: i64, per_page: i64) -> (r: i64)
    requires
        per_page != 0,
        0 <= total,
        i64::MIN <= total + per_page - 1 <= i64::MAX,
    ensures
        r == pages_of(total as int, per_page as int),
{
    if per_page > 0 {
        let n: u64 = (total + (per_page - 1)) as u64 / per_page as u64;
        assert(n <= total + per_page - 1) by (nonlinear_arith)
            requires
                per_page >= 1,
                total >= 0,
                n == (total + (per_page - 1)) / per_page as int,
        ;
        if n < 1 {
            1
        } else {
            n as i64
        }
    } else {
        let a: i64 = total + per_page - 1;
        if a >= 0 {
            assert(a as int / (-per_page) >= 0) by (nonlinear_arith)
                requires
                    a >= 0,
                    per_page < 0,
            ;
            1
        } else {
            let x: u64 = (-(a as i128)) as u64;
            let y: u64 = (-(per_page as i128)) as u64;
            let n: u64 = x / y;
            assert(n <= 2) by (nonlinear_arith)
                requires
                    y >= 1,
                    x <= y + 1,
                    n == x / y,
            ;
            if n < 1 {
                1
            } else {
                n as i64
            }
        }
    }
}

/// Every row of a list stands on one of its pages.
pub proof fn law_pages_cover_every_row(total: int, per_page: int)
    requires
        per_page > 0,
        0 <= total,
    ensures
        pages_of(total, per_page) * per_page >= total,
        total > 0 ==> (pages_of(total, per_page) - 1) * per_page < total,
{
    let a = total + per_page - 1;
    let n = a / per_page;
    let pages = pages_of(total, per_page);
    assert(n * per_page <= a < n * per_page + per_page) by (nonlinear_arith)
        requires
            per_page > 0,
            n == a / per_page,
    ;
    if n < 1 {
        assert(per_page >= total) by (nonlinear_arith)
            requires
                n < 1,
                per_page > 0,
                a < n * per_page + per_page,
                a == total + per_page - 1,
        ;
        assert((pages - 1) * per_page == 0 && pages * per_page == per_page) by (nonlinear_arith)
            requires
                pages == 1,
        ;
    } else {
        assert((n - 1) * per_page == n * per_page - per_page) by (nonlinear_arith);
    }
}

// -------------------------------------------------------------------- toolbar
/// One rendered toolbar button.
pub struct ToolbarView {
    pub label: String,
    pub href: String,
    /// Markup for the icon, empty when the button has none.
    pub icon: String,
    pub primary: bool,
}

/// A [`ToolbarView`], over characters.
pub struct ToolbarModel {
    pub label: Seq<char>,
    pub href: Seq<char>,
    pub icon: Seq<char>,
    pub primary: bool,
}

impl DeepView for ToolbarView {
    type V = ToolbarModel;

    open spec fn deep_view(&self) -> ToolbarModel {
        ToolbarModel {
            label: self.label@,
            href: self.href@,
            icon: self.icon@,
            primary: self.primary,
        }
    }
}

/// Where a button leads: a path under the admin mount, or an absolute URL as it
/// stands.
pub open spec fn button_href(admin_path: Seq<char>, href: Seq<char>) -> Seq<char> {
    if href.len() > 0 && href[0] == '/' {
        admin_path + href
    } else {
        href
    }
}

/// A declared button as the operator sees it.
pub open spec fn shown_button(
    b: ButtonModel,
    admin_path: Seq<char>,
    tr: Seq<(Seq<char>, Seq<char>)>,
    icons: Seq<Seq<char>>,
    sprite: Seq<char>,
) -> ToolbarModel {
    ToolbarModel {
        label: localized(tr, b.label),
        href: button_href(admin_path, b.href),
        icon: icon_markup(icons, sprite, b.icon),
        primary: b.primary,
    }
}

/// The toolbar an operator sees: New where the list creates, then the declared
/// buttons that the operator may use.
pub open spec fn toolbar_models(
    config: ListModel,
    admin_path: Seq<char>,
    perms: crate::access::PermissionSetModel,
    tr: Seq<(Seq<char>, Seq<char>)>,
    icons: Seq<Seq<char>>,
    sprite: Seq<char>,
) -> Seq<ToolbarModel> {
    (if config.creatable && config.edit_base is Some {
        seq![
            ToolbarModel {
                label: localized(tr, plain("New"@)),
                href: admin_path + config.edit_base->0 + "/new"@,
                icon: Seq::empty(),
                primary: true,
            },
        ]
    } else {
        Seq::empty()
    }) + config.toolbar.filter_map(
        |b: ButtonModel|
            if meets(perms, b.permission) {
                Some(shown_button(b, admin_path, tr, icons, sprite))
            } else {
                None::<ToolbarModel>
            },
    )
}

/// A base path as it stands below the panel's mount.
pub open spec fn below_mount(admin_path: Seq<char>, base: Seq<char>) -> Seq<char> {
    if admin_path.is_prefix_of(base) {
        base.skip(admin_path.len() as int)
    } else {
        base
    }
}

/// The toolbar of a mounted list, whose edit base carries the mount already.
pub open spec fn mounted_toolbar(
    config: ListModel,
    admin_path: Seq<char>,
    perms: crate::access::PermissionSetModel,
    tr: Seq<(Seq<char>, Seq<char>)>,
    icons: Seq<Seq<char>>,
    sprite: Seq<char>,
) -> Seq<ToolbarModel> {
    toolbar_models(
        ListModel {
            edit_base: match config.edit_base {
                Some(base) => Some(below_mount(admin_path, base)),
                None => None,
            },
            ..config
        },
        admin_path,
        perms,
        tr,
        icons,
        sprite,
    )
}

/// Whether a text starts with a slash.
fn is_rooted(s: &str) -> (r: bool)
    ensures
        r == (s@.len() > 0 && s@[0] == '/'),
{
    proof {
        reveal_strlit("/");
        assert("/"@.is_prefix_of(s@) ==> s@.subrange(0, 1)[0] == '/');
        if s@.len() > 0 && s@[0] == '/' {
            assert("/"@ =~= s@.subrange(0, 1));
        }
    }
    starts_with(s, "/")
}

/// The buttons of a list whose records are edited below `edit_base`.
fn buttons(
    config: &ListConfig,
    edit_base: Option<&str>,
    admin_path: &str,
    perms: &PermissionSet,
    tr: &Translator,
    icons: &Icons<'_>,
) -> (r: Vec<ToolbarView>)
    ensures
        r.deep_view() == toolbar_models(
            ListModel { edit_base: edit_base.deep_view(), ..config@ },
            admin_path@,
            perms@,
            tr@,
            icons.set@,
            icons.sprite@,
        ),
{
    let mut r: Vec<ToolbarView> = Vec::new();
    if config.creatable {
        match edit_base {
            Some(base) => {
                r.push(
                    ToolbarView {
                        label: tr.t(&Text::new("New")),
                        href: cat3(admin_path, base, "/new"),
                        icon: String::new(),
                        primary: true,
                    },
                );
            },
            None => {},
        }
    }
    let ghost head = r.deep_view();
    let ghost all = config.toolbar.deep_view();
    let ghost f = |b: ButtonModel|
        if meets(perms@, b.permission) {
            Some(shown_button(b, admin_path@, tr@, icons.set@, icons.sprite@))
        } else {
            None::<ToolbarModel>
        };
    proof {
        if config.creatable && edit_base is Some {
            assert(head =~= seq![
                ToolbarModel {
                    label: localized(tr@, plain("New"@)),
                    href: admin_path@ + edit_base->0@ + "/new"@,
                    icon: Seq::empty(),
                    primary: true,
                },
            ]);
        } else {
            assert(head =~= Seq::<ToolbarModel>::empty());
        }
        assert(r.deep_view() =~= head + all.take(0).filter_map(f));
    }
    let mut i: usize = 0;
    while i < config.toolbar.len()
        invariant
            i <= config.toolbar.len(),
            all == config.toolbar.deep_view(),
            f == (|b: ButtonModel|
                if meets(perms@, b.permission) {
                    Some(shown_button(b, admin_path@, tr@, icons.set@, icons.sprite@))
                } else {
                    None::<ToolbarModel>
                }),
            r.deep_view() == head + all.take(i as int).filter_map(f),
        decreases config.toolbar.len() - i,
    {
        let button: &ToolbarButton = &config.toolbar[i];
        let ghost before = r.deep_view();
        proof {
            all.lemma_filter_map_take_succ(f, i as int);
            assert(all[i as int] == button.deep_view());
        }
        if perms.meets(&button.permission) {
            let href: String = if is_rooted(button.href.as_str()) {
                cat(admin_path, button.href.as_str())
            } else {
                button.href.clone()
            };
            let name: Option<&str> = match &button.icon {
                Some(n) => Some(n.as_str()),
                None => None,
            };
            let one = ToolbarView {
                label: tr.t(&button.label),
                href,
                icon: icons.render(name),
                primary: button.primary,
            };
            let ghost m = one.deep_view();
            r.push(one);
            assert(f(all[i as int]) == Some(m));
            assert(r.deep_view() =~= before + seq![m]);
        }
        assert(r.deep_view() =~= head + all.take(i + 1).filter_map(f));
        i = i + 1;
    }
    assert(all.take(all.len() as int) =~= all);
    r
}

/// The toolbar an operator sees. A button they cannot use is not shown, rather
/// than shown and refused.
pub fn toolbar_views(
    config: &ListConfig,
    admin_path: &str,
    perms: &PermissionSet,
    tr: &Translator,
    icons: &Icons<'_>,
) -> (r: Vec<ToolbarView>)
    ensures
        r.deep_view() == toolbar_models(
            config@,
            admin_path@,
            perms@,
            tr@,
            icons.set@,
            icons.sprite@,
        ),
{
    let edit_base: Option<&str> = match &config.edit_base {
        Some(base) => Some(base.as_str()),
        None => None,
    };
    buttons(config, edit_base, admin_path, perms, tr, icons)
}

/// The toolbar of a mounted list: its edit base carries the mount already, so New
/// leads below the mount once, not twice.
pub fn mounted_toolbar_views(
    config: &ListConfig,
    admin_path: &str,
    perms: &PermissionSet,
    tr: &Translator,
    icons: &Icons<'_>,
) -> (r: Vec<ToolbarView>)
    ensures
        r.deep_view() == mounted_toolbar(
            config@,
            admin_path@,
            perms@,
            tr@,
            icons.set@,
            icons.sprite@,
        ),
{
    let edit_base: Option<&str> = match &config.edit_base {
        Some(base) => match strip_prefix(base.as_str(), admin_path) {
            Some(rest) => Some(rest),
            None => Some(base.as_str()),
        },
        None => None,
    };
    buttons(config, edit_base, admin_path, perms, tr, icons)
}

/// New leads to the create route below the list's own edit base, wherever the
/// panel is mounted.
pub proof fn law_new_leads_below_the_edit_base(
    config: ListModel,
    admin_path: Seq<char>,
    base: Seq<char>,
    perms: crate::access::PermissionSetModel,
    tr: Seq<(Seq<char>, Seq<char>)>,
    icons: Seq<Seq<char>>,
    sprite: Seq<char>,
)
    requires
        config.creatable,
        config.edit_base == Some(admin_path + base),
    ensures
        mounted_toolbar(config, admin_path, perms, tr, icons, sprite).len() > 0,
        mounted_toolbar(config, admin_path, perms, tr, icons, sprite)[0].href == admin_path + base
            + "/new"@,
{
    assert(admin_path.is_prefix_of(admin_path + base)) by {
        assert((admin_path + base).subrange(0, admin_path.len() as int) =~= admin_path);
    }
    assert((admin_path + base).skip(admin_path.len() as int) =~= base);
}

/// Moving the panel moves the buttons that lead into it and leaves the others.
pub proof fn law_buttons_follow_the_mount(admin_path: Seq<char>, href: Seq<char>)
    ensures
        href.len() > 0 && href[0] == '/' ==> button_href(admin_path, href) == admin_path + href,
        href.len() == 0 || href[0] != '/' ==> button_href(admin_path, href) == href,
{
}

// -------------------------------------------------------------------- filters
/// One option of a filter control.
pub struct FilterOptionView {
    pub value: String,
    pub label: String,
}

/// A [`FilterOptionView`], over characters.
pub struct ShownOption {
    pub value: Seq<char>,
    pub label: Seq<char>,
}

impl DeepView for FilterOptionView {
    type V = ShownOption;

    open spec fn deep_view(&self) -> ShownOption {
        ShownOption { value: self.value@, label: self.label@ }
    }
}

/// One rendered filter control.
pub struct FilterView {
    pub param: String,
    pub label: String,
    pub boolean: bool,
    pub options: Vec<FilterOptionView>,
    /// The selected value, empty when the filter is off.
    pub value: String,
}

/// A [`FilterView`], over characters.
pub struct ShownFilter {
    pub param: Seq<char>,
    pub label: Seq<char>,
    pub boolean: bool,
    pub options: Seq<ShownOption>,
    pub value: Seq<char>,
}

impl DeepView for FilterView {
    type V = ShownFilter;

    open spec fn deep_view(&self) -> ShownFilter {
        ShownFilter {
            param: self.param@,
            label: self.label@,
            boolean: self.boolean,
            options: self.options.deep_view(),
            value: self.value@,
        }
    }
}

/// The value the request selected of a field: of the first active filter over it,
/// empty where there is none.
pub open spec fn selected_value(active: Seq<ActiveModel>, field: Seq<char>) -> Seq<char>
    decreases active.len(),
{
    if active.len() == 0 {
        Seq::empty()
    } else if active[0].field == field {
        active[0].raw
    } else {
        selected_value(active.drop_first(), field)
    }
}

/// The options a control shows.
pub open spec fn shown_options(
    kind: KindModel,
    tr: Seq<(Seq<char>, Seq<char>)>,
) -> Seq<ShownOption> {
    match kind {
        KindModel::Boolean => seq![
            ShownOption { value: "1"@, label: localized(tr, plain("Yes"@)) },
            ShownOption { value: "0"@, label: localized(tr, plain("No"@)) },
        ],
        KindModel::Select { options } => options.map_values(
            |o: OptionModel| ShownOption { value: o.value, label: localized(tr, o.label) },
        ),
    }
}

/// A filter control, with the value the request selected.
pub open spec fn shown_filter(
    f: FilterModel,
    active: Seq<ActiveModel>,
    tr: Seq<(Seq<char>, Seq<char>)>,
) -> ShownFilter {
    ShownFilter {
        param: filter_param(f.field),
        label: localized(tr, f.label),
        boolean: f.kind is Boolean,
        options: shown_options(f.kind, tr),
        value: selected_value(active, f.field),
    }
}

/// The value the request selected of a field.
fn selected_raw(active: &Vec<ActiveFilter>, field: &str) -> (r: String)
    ensures
        r@ == selected_value(active.deep_view(), field@),
{
    let ghost all = active.deep_view();
    let mut i: usize = 0;
    assert(all.skip(0) =~= all);
    while i < active.len()
        invariant
            i <= active.len(),
            all == active.deep_view(),
            selected_value(all, field@) == selected_value(all.skip(i as int), field@),
        decreases active.len() - i,
    {
        assert(all.skip(i as int).drop_first() =~= all.skip(i + 1));
        if same(active[i].field.as_str(), field) {
            return active[i].raw.clone();
        }
        i = i + 1;
    }
    String::new()
}

/// The options a control shows.
fn option_views(kind: &FilterKind, tr: &Translator) -> (r: Vec<FilterOptionView>)
    ensures
        r.deep_view() == shown_options(kind.deep_view(), tr@),
{
    match kind {
        FilterKind::Boolean => {
            let mut r: Vec<FilterOptionView> = Vec::new();
            r.push(FilterOptionView { value: "1".to_owned(), label: tr.t(&Text::new("Yes")) });
            r.push(FilterOptionView { value: "0".to_owned(), label: tr.t(&Text::new("No")) });
            assert(r.deep_view() =~= shown_options(KindModel::Boolean, tr@));
            r
        },
        FilterKind::Select { options } => {
            let mut r: Vec<FilterOptionView> = Vec::new();
            let ghost all = options.deep_view();
            let ghost want = shown_options(kind.deep_view(), tr@);
            let mut i: usize = 0;
            while i < options.len()
                invariant
                    i <= options.len(),
                    all == options.deep_view(),
                    want == shown_options(KindModel::Select { options: all }, tr@),
                    r.len() == i,
                    forall|j: int| 0 <= j < i ==> #[trigger] r@[j].deep_view() == want[j],
                decreases options.len() - i,
            {
                r.push(
                    FilterOptionView {
                        value: options[i].value.clone(),
                        label: tr.t(&options[i].label),
                    },
                );
                i = i + 1;
            }
            assert(r.deep_view() =~= want);
            r
        },
    }
}

/// Builds the filter controls, marking whichever value the request selected.
pub fn filter_views(
    filters: &Vec<ListFilter>,
    active: &Vec<ActiveFilter>,
    tr: &Translator,
) -> (r: Vec<FilterView>)
    ensures
        r.deep_view() == filters.deep_view().map_values(
            |f: FilterModel| shown_filter(f, active.deep_view(), tr@),
        ),
{
    let mut r: Vec<FilterView> = Vec::new();
    let ghost all = filters.deep_view();
    let ghost chosen = active.deep_view();
    let mut i: usize = 0;
    while i < filters.len()
        invariant
            i <= filters.len(),
            all == filters.deep_view(),
            chosen == active.deep_view(),
            r.len() == i,
            forall|j: int| 0 <= j < i ==> #[trigger] r@[j].deep_view() == shown_filter(
                all[j],
                chosen,
                tr@,
            ),
        decreases filters.len() - i,
    {
        let f: &ListFilter = &filters[i];
        let boolean: bool = match &f.kind {
            FilterKind::Boolean => true,
            FilterKind::Select { options: _ } => false,
        };
        r.push(
            FilterView {
                param: f.param(),
                label: tr.t(&f.label),
                boolean,
                options: option_views(&f.kind, tr),
                value: selected_raw(active, f.field.as_str()),
            },
        );
        i = i + 1;
    }
    assert(r.deep_view() =~= all.map_values(|f: FilterModel| shown_filter(f, chosen, tr@)));
    r
}

// -------------------------------------------------------------------- headers
/// One column header: its label, the field a click sorts by, the direction that
/// click asks for, and the direction it is sorted in now, empty when it is not.
pub struct ColumnHead {
    pub label: String,
    pub field: String,
    pub next_dir: String,
    pub active: String,
}

/// A [`ColumnHead`], over characters.
pub struct HeadModel {
    pub label: Seq<char>,
    pub field: Seq<char>,
    pub next_dir: Seq<char>,
    pub active: Seq<char>,
}

impl DeepView for ColumnHead {
    type V = HeadModel;

    open spec fn deep_view(&self) -> HeadModel {
        HeadModel {
            label: self.label@,
            field: self.field@,
            next_dir: self.next_dir@,
            active: self.active@,
        }
    }
}

/// A direction as it stands in a link.
pub open spec fn dir_word(dir: SortDir) -> Seq<char> {
    match dir {
        SortDir::Asc => "asc"@,
        SortDir::Desc => "desc"@,
    }
}

/// A direction as it stands in a link.
pub fn dir_name(dir: SortDir) -> (r: &'static str)
    ensures
        r@ == dir_word(dir),
{
    match dir {
        SortDir::Asc => "asc",
        SortDir::Desc => "desc",
    }
}

/// A column header. Clicking the sorted column flips it; any other column starts
/// ascending.
pub open spec fn head_of(
    c: ColumnModel,
    order_by: Seq<char>,
    order_dir: SortDir,
    tr: Seq<(Seq<char>, Seq<char>)>,
) -> HeadModel {
    HeadModel {
        label: localized(tr, c.label),
        field: c.field,
        next_dir: if c.field == order_by && order_dir == SortDir::Asc {
            "desc"@
        } else {
            "asc"@
        },
        active: if c.field == order_by {
            dir_word(order_dir)
        } else {
            Seq::empty()
        },
    }
}

/// The column headers of a list.
pub fn column_heads(
    columns: &Vec<ListColumn>,
    order_by: &str,
    order_dir: SortDir,
    tr: &Translator,
) -> (r: Vec<ColumnHead>)
    ensures
        r.deep_view() == columns.deep_view().map_values(
            |c: ColumnModel| head_of(c, order_by@, order_dir, tr@),
        ),
{
    let mut r: Vec<ColumnHead> = Vec::new();
    let ghost all = columns.deep_view();
    let mut i: usize = 0;
    while i < columns.len()
        invariant
            i <= columns.len(),
            all == columns.deep_view(),
            r.len() == i,
            forall|j: int| 0 <= j < i ==> #[trigger] r@[j].deep_view() == head_of(
                all[j],
                order_by@,
                order_dir,
                tr@,
            ),
        decreases columns.len() - i,
    {
        let c: &ListColumn = &columns[i];
        let active: bool = same(c.field.as_str(), order_by);
        let flips: bool = active && order_dir == SortDir::Asc;
        r.push(
            ColumnHead {
                label: tr.t(&c.label),
                field: c.field.clone(),
                next_dir: if flips {
                    "desc".to_owned()
                } else {
                    "asc".to_owned()
                },
                active: if active {
                    dir_name(order_dir).to_owned()
                } else {
                    String::new()
                },
            },
        );
        i = i + 1;
    }
    assert(r.deep_view() =~= all.map_values(
        |c: ColumnModel| head_of(c, order_by@, order_dir, tr@),
    ));
    r
}

/// One row of the column picker.
pub struct ColumnChoice {
    pub field: String,
    pub label: String,
    pub shown: bool,
}

/// A [`ColumnChoice`], over characters.
pub struct ChoiceModel {
    pub field: Seq<char>,
    pub label: Seq<char>,
    pub shown: bool,
}

impl DeepView for ColumnChoice {
    type V = ChoiceModel;

    open spec fn deep_view(&self) -> ChoiceModel {
        ChoiceModel { field: self.field@, label: self.label@, shown: self.shown }
    }
}

/// A declared column in the picker, ticked where it is shown.
pub open spec fn choice_of(
    c: ColumnModel,
    shown: Seq<ColumnModel>,
    tr: Seq<(Seq<char>, Seq<char>)>,
) -> ChoiceModel {
    ChoiceModel {
        field: c.field,
        label: localized(tr, c.label),
        shown: declares(shown, c.field),
    }
}

/// Every declared column, with the shown ones ticked.
pub fn column_choices(
    all_columns: &Vec<ListColumn>,
    shown: &Vec<ListColumn>,
    tr: &Translator,
) -> (r: Vec<ColumnChoice>)
    ensures
        r.deep_view() == all_columns.deep_view().map_values(
            |c: ColumnModel| choice_of(c, shown.deep_view(), tr@),
        ),
{
    let mut r: Vec<ColumnChoice> = Vec::new();
    let ghost all = all_columns.deep_view();
    let ghost seen = shown.deep_view();
    let mut i: usize = 0;
    while i < all_columns.len()
        invariant
            i <= all_columns.len(),
            all == all_columns.deep_view(),
            seen == shown.deep_view(),
            r.len() == i,
            forall|j: int| 0 <= j < i ==> #[trigger] r@[j].deep_view() == choice_of(
                all[j],
                seen,
                tr@,
            ),
        decreases all_columns.len() - i,
    {
        let c: &ListColumn = &all_columns[i];
        r.push(
            ColumnChoice {
                field: c.field.clone(),
                label: tr.t(&c.label),
                shown: declared(shown, c.field.as_str()),
            },
        );
        i = i + 1;
    }
    assert(r.deep_view() =~= all.map_values(|c: ColumnModel| choice_of(c, seen, tr@)));
    r
}

} // verus!
