//! The list screen as a whole, and the choice of its columns.

use vstd::prelude::*;
use vstd::string::StringExecFns;

use crate::access::PermissionSet;
use crate::icons::Icons;
use crate::list::{
    chosen_names, columns_preference_key, copy_option, declared, declares, kept_columns,
    preference_key, searches, shown_columns, ColumnModel, FilterModel, ListColumn, ListConfig,
};
use crate::list_query::{ListPage, RowView};
use crate::list_view::{
    choice_of, column_choices, column_heads, dir_name, dir_word, filter_views, head_of,
    mounted_toolbar, mounted_toolbar_views, pages_of, shown_filter, total_pages, ColumnChoice,
    ColumnHead, FilterView, ListRequest, ToolbarView,
};
use crate::session::{flash, Flash, FlashLevel};
use crate::sql::{ident_char, is_ident};
use crate::strs::{
    cat4, join, joined, lemma_split_joined, lemma_strip_end_at, lemma_strip_start_at, listed, same,
    spaces, trim, trimmed,
};
use crate::text::{localized, Translator};

verus! {

/// Everything the list screen shows. An HTMX request gets the list region alone,
/// which replaces itself in place; anything else gets the whole page.
pub struct ListScreen {
    pub fragment: bool,
    pub title: String,
    pub columns: Vec<ColumnHead>,
    pub rows: Vec<RowView>,
    /// The count on this page.
    pub shown: usize,
    pub page: i64,
    pub total: i64,
    pub total_pages: i64,
    pub edit_base: Option<String>,
    pub creatable: bool,
    pub sort: String,
    pub dir: String,
    pub q: String,
    /// Whether any column is searchable, so the box appears at all.
    pub searchable: bool,
    pub deletable: bool,
    pub pickers: Vec<ColumnChoice>,
    pub toolbar: Vec<ToolbarView>,
    /// The view as `&k=v` pairs, so an export link carries it.
    pub export_query: String,
    pub path: String,
    pub filters: Vec<FilterView>,
    /// Whether anything narrows the list.
    pub filtered: bool,
    pub carry: String,
}

/// Whether any column is searchable.
pub open spec fn any_searchable(columns: Seq<ColumnModel>) -> bool {
    exists|i: int| 0 <= i < columns.len() && #[trigger] searches(columns[i])
}

/// Whether any column is searchable.
fn some_searchable(columns: &Vec<ListColumn>) -> (r: bool)
    ensures
        r == any_searchable(columns.deep_view()),
{
    let ghost all = columns.deep_view();
    let mut i: usize = 0;
    while i < columns.len()
        invariant
            i <= columns.len(),
            all == columns.deep_view(),
            forall|j: int| 0 <= j < i ==> !#[trigger] searches(all[j]),
        decreases columns.len() - i,
    {
        if columns[i].is_searchable() {
            assert(searches(all[i as int]));
            return true;
        }
        i = i + 1;
    }
    false
}

/// Whether the count of a list can be paged: the page size is not nought and the
/// sums fit the machine.
pub open spec fn countable(total: int, per_page: int) -> bool {
    per_page != 0 && 0 <= total && i64::MIN <= total + per_page - 1 <= i64::MAX
}

/// Whether the count of a list can be paged.
pub fn can_page(total: i64, per_page: i64) -> (r: bool)
    ensures
        r == countable(total as int, per_page as int),
{
    if per_page == 0 || total < 0 {
        return false;
    }
    let sum: i128 = total as i128 + per_page as i128 - 1;
    i64::MIN as i128 <= sum && sum <= i64::MAX as i128
}

/// The list screen over what the query read. `declared_list` is the descriptor,
/// `config` the same narrowed to the operator's columns, and `page` the rows as
/// they are rendered.
pub fn list_screen(
    declared_list: &ListConfig,
    config: &ListConfig,
    req: ListRequest,
    path: &str,
    page: ListPage,
    admin_path: &str,
    perms: &PermissionSet,
    tr: &Translator,
    icons: &Icons<'_>,
    htmx: bool,
) -> (r: ListScreen)
    requires
        countable(page.total as int, config.per_page as int),
    ensures
        r.fragment == htmx,
        r.title@ == localized(tr@, config@.title),
        r.columns.deep_view() == config@.columns.map_values(
            |c: ColumnModel| head_of(c, req.order_by@, req.order_dir, tr@),
        ),
        r.rows == page.rows,
        r.shown == page.rows.len(),
        r.page == req.page,
        r.total == page.total,
        r.total_pages == pages_of(page.total as int, config.per_page as int),
        r.edit_base.deep_view() == config@.edit_base,
        r.creatable == config.creatable,
        r.sort@ == req.order_by@,
        r.dir@ == dir_word(req.order_dir),
        r.q@ == req.q@,
        r.searchable == any_searchable(config@.columns),
        r.deletable == config.deletable,
        r.pickers.deep_view() == declared_list@.columns.map_values(
            |c: ColumnModel| choice_of(c, config@.columns, tr@),
        ),
        r.toolbar.deep_view() == mounted_toolbar(
            declared_list@,
            admin_path@,
            perms@,
            tr@,
            icons.set@,
            icons.sprite@,
        ),
        r.export_query@ == "&sort="@ + req.order_by@ + "&dir="@ + dir_word(req.order_dir)
            + req.carry@,
        r.path@ == path@,
        r.filters.deep_view() == config@.filters.map_values(
            |f: FilterModel| shown_filter(f, req.filters.deep_view(), tr@),
        ),
        r.filtered == (req.filters.deep_view().len() > 0 || req.q@.len() > 0),
        r.carry@ == req.carry@,
{
    let dir: &str = dir_name(req.order_dir);
    let mut export_query: String = cat4("&sort=", req.order_by.as_str(), "&dir=", dir);
    export_query.append(req.carry.as_str());
    let filtered: bool = req.filters.len() > 0 || !req.q.as_str().is_empty();
    ListScreen {
        fragment: htmx,
        title: tr.t(&config.title),
        columns: column_heads(&config.columns, req.order_by.as_str(), req.order_dir, tr),
        shown: page.rows.len(),
        rows: page.rows,
        page: req.page,
        total: page.total,
        total_pages: total_pages(page.total, config.per_page),
        edit_base: copy_option(&config.edit_base),
        creatable: config.creatable,
        dir: dir.to_owned(),
        searchable: some_searchable(&config.columns),
        deletable: config.deletable,
        pickers: column_choices(&declared_list.columns, &config.columns, tr),
        toolbar: mounted_toolbar_views(declared_list, admin_path, perms, tr, icons),
        export_query,
        path: path.to_owned(),
        filters: filter_views(&config.filters, &req.filters, tr),
        filtered,
        carry: req.carry,
        sort: req.order_by,
        q: req.q,
    }
}

/// A filtered list with no rows has not run out of records, it has no match: the
/// empty state names the one or the other.
pub fn empty_state(screen: &ListScreen) -> (r: Option<&'static str>)
    ensures
        r.deep_view() == (if screen.rows.len() > 0 {
            None
        } else if screen.filtered {
            Some("No records match."@)
        } else {
            Some("No records yet."@)
        }),
{
    if screen.rows.len() > 0 {
        None
    } else if screen.filtered {
        Some("No records match.")
    } else {
        Some("No records yet.")
    }
}

/// Where a click on a column header leads: its field, the direction the click
/// asks for, and everything the view must keep.
pub open spec fn sort_link(field: Seq<char>, next_dir: Seq<char>, carry: Seq<char>) -> Seq<char> {
    "?sort="@ + field + "&dir="@ + next_dir + carry
}

/// Where a click on a column header leads.
pub fn head_link(head: &ColumnHead, carry: &str) -> (r: String)
    ensures
        r@ == sort_link(head.field@, head.next_dir@, carry@),
{
    let mut r: String = cat4("?sort=", head.field.as_str(), "&dir=", head.next_dir.as_str());
    r.append(carry);
    r
}

// ------------------------------------------------------------- column choice
/// What the store is asked to keep of a submitted column choice.
pub enum ColumnsAction {
    /// Forget the choice: the operator follows the descriptor.
    Clear { key: String },
    /// Keep these columns.
    Store { key: String, value: String },
}

/// A [`ColumnsAction`], over characters.
pub enum ColumnsModel {
    Clear { key: Seq<char> },
    Store { key: Seq<char>, value: Seq<char> },
}

impl View for ColumnsAction {
    type V = ColumnsModel;

    open spec fn view(&self) -> ColumnsModel {
        match self {
            ColumnsAction::Clear { key } => ColumnsModel::Clear { key: key@ },
            ColumnsAction::Store { key, value } => ColumnsModel::Store { key: key@, value: value@ },
        }
    }
}

/// The declared columns among the submitted ones, in the order submitted.
pub open spec fn chosen_columns(
    columns: Seq<ColumnModel>,
    pairs: Seq<(Seq<char>, Seq<char>)>,
) -> Seq<Seq<char>> {
    pairs.filter_map(
        |p: (Seq<char>, Seq<char>)|
            if p.0 == "column"@ && declares(columns, trimmed(p.1)) {
                Some(trimmed(p.1))
            } else {
                None::<Seq<char>>
            },
    )
}

/// Whether every declared column is among the chosen ones.
pub open spec fn all_chosen(columns: Seq<ColumnModel>, chosen: Seq<Seq<char>>) -> bool {
    forall|i: int| 0 <= i < columns.len() ==> chosen.contains(#[trigger] columns[i].field)
}

/// What the store is asked to keep: choosing every column or none is no
/// preference, so the operator keeps following the descriptor.
pub open spec fn columns_action(
    columns: Seq<ColumnModel>,
    path: Seq<char>,
    pairs: Seq<(Seq<char>, Seq<char>)>,
) -> ColumnsModel {
    let chosen = chosen_columns(columns, pairs);
    if chosen.len() == 0 || all_chosen(columns, chosen) {
        ColumnsModel::Clear { key: preference_key(path) }
    } else {
        ColumnsModel::Store { key: preference_key(path), value: joined(chosen, ","@) }
    }
}

/// The declared columns among the submitted ones.
fn read_chosen(columns: &Vec<ListColumn>, pairs: &Vec<(String, String)>) -> (r: Vec<String>)
    ensures
        r.deep_view() == chosen_columns(columns.deep_view(), pairs.deep_view()),
{
    let mut r: Vec<String> = Vec::new();
    let ghost all = pairs.deep_view();
    let ghost known = columns.deep_view();
    let ghost f = |p: (Seq<char>, Seq<char>)|
        if p.0 == "column"@ && declares(known, trimmed(p.1)) {
            Some(trimmed(p.1))
        } else {
            None::<Seq<char>>
        };
    assert(r.deep_view() =~= all.take(0).filter_map(f));
    let mut i: usize = 0;
    while i < pairs.len()
        invariant
            i <= pairs.len(),
            all == pairs.deep_view(),
            known == columns.deep_view(),
            f == (|p: (Seq<char>, Seq<char>)|
                if p.0 == "column"@ && declares(known, trimmed(p.1)) {
                    Some(trimmed(p.1))
                } else {
                    None::<Seq<char>>
                }),
            r.deep_view() == all.take(i as int).filter_map(f),
        decreases pairs.len() - i,
    {
        let ghost before = r.deep_view();
        proof {
            all.lemma_filter_map_take_succ(f, i as int);
            assert(all[i as int] == pairs[i as int].deep_view());
        }
        let value: &str = trim(pairs[i].1.as_str());
        if same(pairs[i].0.as_str(), "column") && declared(columns, value) {
            r.push(value.to_owned());
            assert(r.deep_view() =~= before + seq![value@]);
        }
        i = i + 1;
    }
    assert(all.take(all.len() as int) =~= all);
    r
}

/// Whether every declared column is among the chosen ones.
fn takes_all(columns: &Vec<ListColumn>, chosen: &Vec<String>) -> (r: bool)
    ensures
        r == all_chosen(columns.deep_view(), chosen.deep_view()),
{
    let ghost known = columns.deep_view();
    let mut i: usize = 0;
    while i < columns.len()
        invariant
            i <= columns.len(),
            known == columns.deep_view(),
            forall|k: int|
                0 <= k < i ==> chosen.deep_view().contains(#[trigger] known[k].field),
        decreases columns.len() - i,
    {
        assert(known[i as int] == columns[i as int].deep_view());
        if !listed(chosen, columns[i].field.as_str()) {
            assert(!chosen.deep_view().contains(known[i as int].field));
            return false;
        }
        i = i + 1;
    }
    true
}

/// What the store is asked to keep of a submitted column choice.
pub fn set_columns(
    columns: &Vec<ListColumn>,
    path: &str,
    pairs: &Vec<(String, String)>,
) -> (r: ColumnsAction)
    ensures
        r@ == columns_action(columns.deep_view(), path@, pairs.deep_view()),
{
    let chosen: Vec<String> = read_chosen(columns, pairs);
    let key: String = columns_preference_key(path);
    if chosen.len() == 0 || takes_all(columns, &chosen) {
        ColumnsAction::Clear { key }
    } else {
        ColumnsAction::Store { key, value: join(&chosen, ",") }
    }
}

/// What the operator is told of a column choice.
pub fn columns_flash(stored: bool) -> (r: Flash)
    ensures
        r.deep_view() == (if stored {
            flash(FlashLevel::Success, "Columns updated."@)
        } else {
            flash(FlashLevel::Error, "Could not save your column choice."@)
        }),
{
    if stored {
        Flash::say(FlashLevel::Success, "Columns updated.")
    } else {
        Flash::say(FlashLevel::Error, "Could not save your column choice.")
    }
}

/// What an operator chose is what the list shows next: reading a stored choice
/// back gives the chosen columns, in the descriptor's order. A column's field is
/// an identifier, so no name holds a comma or white space.
pub proof fn law_stored_choice_is_shown(
    columns: Seq<ColumnModel>,
    path: Seq<char>,
    pairs: Seq<(Seq<char>, Seq<char>)>,
)
    requires
        forall|i: int| 0 <= i < columns.len() ==> is_ident(#[trigger] columns[i].field),
        columns_action(columns, path, pairs) is Store,
    ensures
        shown_columns(columns, Some(columns_action(columns, path, pairs)->value)) == kept_columns(
            columns,
            chosen_columns(columns, pairs),
        ),
        forall|i: int|
            0 <= i < columns.len() ==> (chosen_columns(columns, pairs).contains(
                #[trigger] columns[i].field,
            ) <==> kept_columns(columns, chosen_columns(columns, pairs)).contains(columns[i])),
{
    let chosen = chosen_columns(columns, pairs);
    let f = |p: (Seq<char>, Seq<char>)|
        if p.0 == "column"@ && declares(columns, trimmed(p.1)) {
            Some(trimmed(p.1))
        } else {
            None::<Seq<char>>
        };
    assert(chosen == pairs.filter_map(f));
    assert forall|i: int| 0 <= i < chosen.len() implies is_ident(#[trigger] chosen[i]) && declares(
        columns,
        chosen[i],
    ) by {
        pairs.lemma_filter_map_contains(f, chosen[i]);
        let p = choose|p: (Seq<char>, Seq<char>)| #[trigger]
            pairs.contains(p) && f(p) == Some(chosen[i]);
        let k = choose|k: int| 0 <= k < columns.len() && #[trigger] columns[k].field == trimmed(p.1);
        assert(is_ident(columns[k].field));
    }
    reveal_strlit(",");
    assert(","@ =~= seq![',']);
    assert forall|i: int| 0 <= i < chosen.len() implies !(#[trigger] chosen[i]).contains(',') by {
        let s = chosen[i];
        assert(is_ident(s));
        assert forall|j: int| 0 <= j < s.len() implies s[j] != ',' by {
            assert(ident_char(s[j], j == 0));
        }
    }
    lemma_split_joined(chosen, ',');
    let g = |part: Seq<char>|
        if trimmed(part).len() > 0 {
            Some(trimmed(part))
        } else {
            None::<Seq<char>>
        };
    assert forall|i: int| 0 <= i < chosen.len() implies g(#[trigger] chosen[i]) == Some(chosen[i]) by {
        assert(is_ident(chosen[i]));
        lemma_ident_trims_to_itself(chosen[i]);
    }
    lemma_filter_map_all(chosen, g);
    assert(chosen_names(joined(chosen, ","@)) == chosen);
    let h = |c: ColumnModel|
        if chosen.contains(c.field) {
            Some(c)
        } else {
            None::<ColumnModel>
        };
    let kept = kept_columns(columns, chosen);
    assert(kept == columns.filter_map(h));
    assert forall|i: int| 0 <= i < columns.len() implies (chosen.contains(
        #[trigger] columns[i].field,
    ) <==> kept.contains(columns[i])) by {
        if chosen.contains(columns[i].field) {
            lemma_filter_map_has(columns, h, i);
        }
        if kept.contains(columns[i]) {
            columns.lemma_filter_map_contains(h, columns[i]);
        }
    }
    assert(declares(columns, chosen[0]));
    let k = choose|k: int| 0 <= k < columns.len() && #[trigger] columns[k].field == chosen[0];
    assert(chosen.contains(columns[k].field));
    assert(kept.contains(columns[k]));
}

/// A safe identifier holds no white space to trim.
proof fn lemma_ident_trims_to_itself(s: Seq<char>)
    requires
        is_ident(s),
    ensures
        trimmed(s) == s,
{
    assert(ident_char(s[0], true));
    assert(ident_char(s[s.len() - 1], s.len() == 1));
    lemma_strip_start_at(s, spaces(), 0);
    assert(s.skip(0) =~= s);
    lemma_strip_end_at(s, spaces(), s.len() as int);
    assert(s.take(s.len() as int) =~= s);
}

/// Mapping each element to itself keeps the sequence.
proof fn lemma_filter_map_all(s: Seq<Seq<char>>, g: spec_fn(Seq<char>) -> Option<Seq<char>>)
    requires
        forall|i: int| 0 <= i < s.len() ==> g(#[trigger] s[i]) == Some(s[i]),
    ensures
        s.filter_map(g) == s,
    decreases s.len(),
{
    if s.len() > 0 {
        let t = s.drop_last();
        assert forall|i: int| 0 <= i < t.len() implies g(#[trigger] t[i]) == Some(t[i]) by {
            assert(t[i] == s[i]);
        }
        lemma_filter_map_all(t, g);
        assert(g(s[s.len() - 1]) == Some(s[s.len() - 1]));
        assert(t + seq![s.last()] =~= s);
    } else {
        assert(s =~= Seq::empty());
    }
}

/// An element that is kept stands in the result.
proof fn lemma_filter_map_has(
    s: Seq<ColumnModel>,
    h: spec_fn(ColumnModel) -> Option<ColumnModel>,
    i: int,
)
    requires
        0 <= i < s.len(),
        h(s[i]) == Some(s[i]),
    ensures
        s.filter_map(h).contains(s[i]),
    decreases s.len(),
{
    let t = s.drop_last();
    if i < s.len() - 1 {
        assert(t[i] == s[i]);
        lemma_filter_map_has(t, h, i);
        let k = choose|k: int| 0 <= k < t.filter_map(h).len() && t.filter_map(h)[k] == s[i];
        assert(s.filter_map(h)[k] == s[i]);
    } else {
        assert(s.filter_map(h).last() == s[i]);
    }
}

/// Choosing no column, or only undeclared ones, is treated as no preference: a
/// list can never be left without columns.
pub proof fn law_choosing_nothing_clears(
    columns: Seq<ColumnModel>,
    path: Seq<char>,
    pairs: Seq<(Seq<char>, Seq<char>)>,
)
    requires
        chosen_columns(columns, pairs).len() == 0,
    ensures
        columns_action(columns, path, pairs) == (ColumnsModel::Clear { key: preference_key(path) }),
{
}

} // verus!
