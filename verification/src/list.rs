//! List descriptors, and what a request makes of one.
//!
//! A [`ListConfig`] describes a table and the columns to show. A request narrows
//! it to the operator's columns, orders it by a declared column, and filters it
//! by declared filters: nothing undeclared ever reaches the query.

use vstd::prelude::*;

use crate::strs::{
    cat, get, listed, lookup, only, same, split, split_on, trim, trimmed,
};
use crate::text::{plain, Text, TextModel};

verus! {

/// The direction of an ordering.
#[derive(Clone, Copy, Debug, PartialEq, Eq, Structural)]
pub enum SortDir {
    Asc,
    Desc,
}

// -------------------------------------------------------------------- columns
/// One column of a list: the source field, its label, its column-type key, and
/// whether the search box looks in it (absent follows the type).
pub struct ListColumn {
    pub field: String,
    pub label: Text,
    pub column_type: String,
    pub searchable: Option<bool>,
}

/// A [`ListColumn`], over characters.
pub struct ColumnModel {
    pub field: Seq<char>,
    pub label: TextModel,
    pub column_type: Seq<char>,
    pub searchable: Option<bool>,
}

impl DeepView for ListColumn {
    type V = ColumnModel;

    open spec fn deep_view(&self) -> ColumnModel {
        ColumnModel {
            field: self.field@,
            label: self.label@,
            column_type: self.column_type@,
            searchable: self.searchable,
        }
    }
}

/// A text column over a field.
pub open spec fn column(field: Seq<char>, label: Seq<char>) -> ColumnModel {
    ColumnModel { field, label: plain(label), column_type: "text"@, searchable: None }
}

/// Whether search looks in a column: the explicit choice, else text columns only.
pub open spec fn searches(c: ColumnModel) -> bool {
    match c.searchable {
        Some(choice) => choice,
        None => c.column_type == "text"@,
    }
}

impl ListColumn {
    /// A text column over a field.
    pub fn new(field: &str, label: &str) -> (r: ListColumn)
        ensures
            r.deep_view() == column(field@, label@),
    {
        ListColumn {
            field: field.to_owned(),
            label: Text::new(label),
            column_type: "text".to_owned(),
            searchable: None,
        }
    }

    /// The same column of another type.
    pub fn of(self, column_type: &str) -> (r: ListColumn)
        ensures
            r.deep_view() == (ColumnModel { column_type: column_type@, ..self.deep_view() }),
    {
        ListColumn {
            field: self.field,
            label: self.label,
            column_type: column_type.to_owned(),
            searchable: self.searchable,
        }
    }

    /// Render as a date and time in the display timezone.
    pub fn datetime(self) -> (r: ListColumn)
        ensures
            r.deep_view() == (ColumnModel { column_type: "datetime"@, ..self.deep_view() }),
    {
        self.of("datetime")
    }

    /// Render as a date in the display timezone.
    pub fn date(self) -> (r: ListColumn)
        ensures
            r.deep_view() == (ColumnModel { column_type: "date"@, ..self.deep_view() }),
    {
        self.of("date")
    }

    /// Render as a time in the display timezone.
    pub fn time(self) -> (r: ListColumn)
        ensures
            r.deep_view() == (ColumnModel { column_type: "time"@, ..self.deep_view() }),
    {
        self.of("time")
    }

    /// Render a boolean as Yes or No.
    pub fn yes_no(self) -> (r: ListColumn)
        ensures
            r.deep_view() == (ColumnModel { column_type: "boolean"@, ..self.deep_view() }),
    {
        self.of("boolean")
    }

    /// Render as a coloured status pill.
    pub fn pill(self) -> (r: ListColumn)
        ensures
            r.deep_view() == (ColumnModel { column_type: "status_pill"@, ..self.deep_view() }),
    {
        self.of("status_pill")
    }

    /// Overrides whether the search box looks in this column.
    pub fn searchable(self, searchable: bool) -> (r: ListColumn)
        ensures
            r.deep_view() == (ColumnModel { searchable: Some(searchable), ..self.deep_view() }),
    {
        ListColumn {
            field: self.field,
            label: self.label,
            column_type: self.column_type,
            searchable: Some(searchable),
        }
    }

    /// Whether search looks here: the explicit choice, else text columns only.
    pub fn is_searchable(&self) -> (r: bool)
        ensures
            r == searches(self.deep_view()),
    {
        match self.searchable {
            Some(choice) => choice,
            None => same(self.column_type.as_str(), "text"),
        }
    }

    /// A copy of the column.
    pub fn copy(&self) -> (r: ListColumn)
        ensures
            r.deep_view() == self.deep_view(),
    {
        ListColumn {
            field: self.field.clone(),
            label: self.label.copy(),
            column_type: self.column_type.clone(),
            searchable: self.searchable,
        }
    }
}

// -------------------------------------------------------------------- filters
/// One value a select filter offers.
pub struct FilterOption {
    pub value: String,
    pub label: Text,
}

/// A [`FilterOption`], over characters.
pub struct OptionModel {
    pub value: Seq<char>,
    pub label: TextModel,
}

impl DeepView for FilterOption {
    type V = OptionModel;

    open spec fn deep_view(&self) -> OptionModel {
        OptionModel { value: self.value@, label: self.label@ }
    }
}

impl FilterOption {
    pub fn new(value: &str, label: &str) -> (r: FilterOption)
        ensures
            r.deep_view() == (OptionModel { value: value@, label: plain(label@) }),
    {
        FilterOption { value: value.to_owned(), label: Text::new(label) }
    }
}

/// A copy of some options.
fn copy_options(options: &Vec<FilterOption>) -> (out: Vec<FilterOption>)
    ensures
        out.deep_view() == options.deep_view(),
{
    let mut out: Vec<FilterOption> = Vec::new();
    let mut i: usize = 0;
    while i < options.len()
        invariant
            i <= options.len(),
            out.len() == i,
            forall|j: int| 0 <= j < i ==> #[trigger] out@[j].deep_view() == options@[j].deep_view(),
        decreases options.len() - i,
    {
        out.push(
            FilterOption { value: options[i].value.clone(), label: options[i].label.copy() },
        );
        i = i + 1;
    }
    assert(out.deep_view() =~= options.deep_view());
    out
}

/// What a filter offers and how its value becomes a condition.
pub enum FilterKind {
    /// A yes/no column, which every backend holds as an integer.
    Boolean,
    /// One of a declared set of values. Only a declared value reaches the query.
    Select { options: Vec<FilterOption> },
}

/// A [`FilterKind`], over characters.
pub enum KindModel {
    Boolean,
    Select { options: Seq<OptionModel> },
}

impl DeepView for FilterKind {
    type V = KindModel;

    open spec fn deep_view(&self) -> KindModel {
        match self {
            FilterKind::Boolean => KindModel::Boolean,
            FilterKind::Select { options } => KindModel::Select { options: options.deep_view() },
        }
    }
}

/// One filter offered above a list: a column, its label, and what it offers.
pub struct ListFilter {
    pub field: String,
    pub label: Text,
    pub kind: FilterKind,
}

/// A [`ListFilter`], over characters.
pub struct FilterModel {
    pub field: Seq<char>,
    pub label: TextModel,
    pub kind: KindModel,
}

impl DeepView for ListFilter {
    type V = FilterModel;

    open spec fn deep_view(&self) -> FilterModel {
        FilterModel { field: self.field@, label: self.label@, kind: self.kind.deep_view() }
    }
}

/// The query-string key that carries a filter's value. It is prefixed, so that a
/// filter on a column named `q` or `sort` cannot collide with the list's own.
pub open spec fn filter_param(field: Seq<char>) -> Seq<char> {
    "f_"@ + field
}

impl ListFilter {
    /// A yes/no filter over a boolean column.
    pub fn boolean(field: &str, label: &str) -> (r: ListFilter)
        ensures
            r.deep_view() == (FilterModel {
                field: field@,
                label: plain(label@),
                kind: KindModel::Boolean,
            }),
    {
        ListFilter { field: field.to_owned(), label: Text::new(label), kind: FilterKind::Boolean }
    }

    /// A filter offering a fixed set of values.
    pub fn select(field: &str, label: &str, options: Vec<FilterOption>) -> (r: ListFilter)
        ensures
            r.deep_view() == (FilterModel {
                field: field@,
                label: plain(label@),
                kind: KindModel::Select { options: options.deep_view() },
            }),
    {
        ListFilter {
            field: field.to_owned(),
            label: Text::new(label),
            kind: FilterKind::Select { options },
        }
    }

    /// A copy of the filter.
    pub fn copy(&self) -> (r: ListFilter)
        ensures
            r.deep_view() == self.deep_view(),
    {
        let kind: FilterKind = match &self.kind {
            FilterKind::Boolean => FilterKind::Boolean,
            FilterKind::Select { options } => FilterKind::Select { options: copy_options(options) },
        };
        ListFilter { field: self.field.clone(), label: self.label.copy(), kind }
    }

    /// The query-string key carrying this filter's value.
    pub fn param(&self) -> (r: String)
        ensures
            r@ == filter_param(self.field@),
    {
        cat("f_", self.field.as_str())
    }
}

// -------------------------------------------------------------------- toolbar
/// A button a list offers in its toolbar, beside the built-in New.
pub struct ToolbarButton {
    pub label: Text,
    /// A path under the admin root, starting with a slash, or an absolute URL.
    pub href: String,
    pub icon: Option<String>,
    /// Hidden from an operator who lacks this permission.
    pub permission: Option<String>,
    pub primary: bool,
}

/// A [`ToolbarButton`], over characters.
pub struct ButtonModel {
    pub label: TextModel,
    pub href: Seq<char>,
    pub icon: Option<Seq<char>>,
    pub permission: Option<Seq<char>>,
    pub primary: bool,
}

impl DeepView for ToolbarButton {
    type V = ButtonModel;

    open spec fn deep_view(&self) -> ButtonModel {
        ButtonModel {
            label: self.label@,
            href: self.href@,
            icon: self.icon.deep_view(),
            permission: self.permission.deep_view(),
            primary: self.primary,
        }
    }
}

impl ToolbarButton {
    pub fn new(label: &str, href: &str) -> (r: ToolbarButton)
        ensures
            r.deep_view() == (ButtonModel {
                label: plain(label@),
                href: href@,
                icon: None,
                permission: None,
                primary: false,
            }),
    {
        ToolbarButton {
            label: Text::new(label),
            href: href.to_owned(),
            icon: None,
            permission: None,
            primary: false,
        }
    }

    pub fn icon(self, icon: &str) -> (r: ToolbarButton)
        ensures
            r.deep_view() == (ButtonModel { icon: Some(icon@), ..self.deep_view() }),
    {
        ToolbarButton {
            label: self.label,
            href: self.href,
            icon: Some(icon.to_owned()),
            permission: self.permission,
            primary: self.primary,
        }
    }

    /// Hides the button from an operator without this permission.
    pub fn require(self, permission: &str) -> (r: ToolbarButton)
        ensures
            r.deep_view() == (ButtonModel { permission: Some(permission@), ..self.deep_view() }),
    {
        ToolbarButton {
            label: self.label,
            href: self.href,
            icon: self.icon,
            permission: Some(permission.to_owned()),
            primary: self.primary,
        }
    }

    /// A copy of the button.
    pub fn copy(&self) -> (r: ToolbarButton)
        ensures
            r.deep_view() == self.deep_view(),
    {
        ToolbarButton {
            label: self.label.copy(),
            href: self.href.clone(),
            icon: copy_option(&self.icon),
            permission: copy_option(&self.permission),
            primary: self.primary,
        }
    }

    pub fn primary(self) -> (r: ToolbarButton)
        ensures
            r.deep_view() == (ButtonModel { primary: true, ..self.deep_view() }),
    {
        ToolbarButton {
            label: self.label,
            href: self.href,
            icon: self.icon,
            permission: self.permission,
            primary: true,
        }
    }
}

// ----------------------------------------------------------------- descriptor
/// A list descriptor: which table, which columns, the default ordering, the page
/// size, and where per-row edit links point.
pub struct ListConfig {
    pub entity: String,
    pub title: Text,
    pub columns: Vec<ListColumn>,
    pub order_by: String,
    pub order_dir: SortDir,
    pub per_page: i64,
    pub id_field: String,
    /// When set, rows link to `{edit_base}/{id}/edit`.
    pub edit_base: Option<String>,
    /// Whether to offer a New link to `{edit_base}/new`.
    pub creatable: bool,
    pub filters: Vec<ListFilter>,
    /// Whether rows can be selected and deleted from this list.
    pub deletable: bool,
    /// Whether the list may leave the panel as a file.
    pub exportable: bool,
    pub toolbar: Vec<ToolbarButton>,
}

/// A [`ListConfig`], over characters.
pub struct ListModel {
    pub entity: Seq<char>,
    pub title: TextModel,
    pub columns: Seq<ColumnModel>,
    pub order_by: Seq<char>,
    pub order_dir: SortDir,
    pub per_page: int,
    pub id_field: Seq<char>,
    pub edit_base: Option<Seq<char>>,
    pub creatable: bool,
    pub filters: Seq<FilterModel>,
    pub deletable: bool,
    pub exportable: bool,
    pub toolbar: Seq<ButtonModel>,
}

impl View for ListConfig {
    type V = ListModel;

    open spec fn view(&self) -> ListModel {
        ListModel {
            entity: self.entity@,
            title: self.title@,
            columns: self.columns.deep_view(),
            order_by: self.order_by@,
            order_dir: self.order_dir,
            per_page: self.per_page as int,
            id_field: self.id_field@,
            edit_base: self.edit_base.deep_view(),
            creatable: self.creatable,
            filters: self.filters.deep_view(),
            deletable: self.deletable,
            exportable: self.exportable,
            toolbar: self.toolbar.deep_view(),
        }
    }
}

impl DeepView for ListConfig {
    type V = ListModel;

    open spec fn deep_view(&self) -> ListModel {
        self@
    }
}

/// A minimal list: no columns, newest id first, 25 to a page, read-only.
pub open spec fn default_list() -> ListModel {
    ListModel {
        entity: Seq::empty(),
        title: plain(""@),
        columns: Seq::empty(),
        order_by: "id"@,
        order_dir: SortDir::Desc,
        per_page: 25,
        id_field: "id"@,
        edit_base: None,
        creatable: false,
        filters: Seq::empty(),
        deletable: false,
        exportable: false,
        toolbar: Seq::empty(),
    }
}

impl Default for ListConfig {
    /// A minimal list: no columns, newest id first, 25 to a page, read-only.
    fn default() -> (r: ListConfig)
        ensures
            r@ == default_list(),
    {
        let columns: Vec<ListColumn> = Vec::new();
        let filters: Vec<ListFilter> = Vec::new();
        let toolbar: Vec<ToolbarButton> = Vec::new();
        assert(columns.deep_view() =~= Seq::<ColumnModel>::empty());
        assert(filters.deep_view() =~= Seq::<FilterModel>::empty());
        assert(toolbar.deep_view() =~= Seq::<ButtonModel>::empty());
        ListConfig {
            entity: String::new(),
            title: Text::new(""),
            columns,
            order_by: "id".to_owned(),
            order_dir: SortDir::Desc,
            per_page: 25,
            id_field: "id".to_owned(),
            edit_base: None,
            creatable: false,
            filters,
            deletable: false,
            exportable: false,
            toolbar,
        }
    }
}

/// A copy of an optional string.
pub fn copy_option(s: &Option<String>) -> (r: Option<String>)
    ensures
        r == *s,
{
    match s {
        Some(x) => Some(x.clone()),
        None => None,
    }
}

/// A copy of some filters.
fn copy_filters(filters: &Vec<ListFilter>) -> (out: Vec<ListFilter>)
    ensures
        out.deep_view() == filters.deep_view(),
{
    let mut out: Vec<ListFilter> = Vec::new();
    let mut i: usize = 0;
    while i < filters.len()
        invariant
            i <= filters.len(),
            out.len() == i,
            forall|j: int| 0 <= j < i ==> #[trigger] out@[j].deep_view() == filters@[j].deep_view(),
        decreases filters.len() - i,
    {
        out.push(filters[i].copy());
        i = i + 1;
    }
    assert(out.deep_view() =~= filters.deep_view());
    out
}

/// A copy of some buttons.
fn copy_buttons(buttons: &Vec<ToolbarButton>) -> (out: Vec<ToolbarButton>)
    ensures
        out.deep_view() == buttons.deep_view(),
{
    let mut out: Vec<ToolbarButton> = Vec::new();
    let mut i: usize = 0;
    while i < buttons.len()
        invariant
            i <= buttons.len(),
            out.len() == i,
            forall|j: int| 0 <= j < i ==> #[trigger] out@[j].deep_view() == buttons@[j].deep_view(),
        decreases buttons.len() - i,
    {
        out.push(buttons[i].copy());
        i = i + 1;
    }
    assert(out.deep_view() =~= buttons.deep_view());
    out
}

// --------------------------------------------------------- an operator's choice
/// The preference key that holds one operator's chosen columns for a list. It is
/// keyed by the list's own path, so two lists over one table stay separate.
pub open spec fn preference_key(base_path: Seq<char>) -> Seq<char> {
    "list.columns."@ + base_path
}

/// The preference key that holds one operator's chosen columns for a list.
pub fn columns_preference_key(base_path: &str) -> (r: String)
    ensures
        r@ == preference_key(base_path@),
{
    cat("list.columns.", base_path)
}

/// Two lists at different paths keep their choices apart.
pub proof fn law_preferences_are_kept_apart(a: Seq<char>, b: Seq<char>)
    requires
        a != b,
    ensures
        preference_key(a) != preference_key(b),
{
    let p = "list.columns."@;
    if p + a == p + b {
        assert((p + a).skip(p.len() as int) =~= a);
        assert((p + b).skip(p.len() as int) =~= b);
    }
}

/// The names a stored choice holds: comma-separated, trimmed, blanks dropped.
pub open spec fn chosen_names(stored: Seq<char>) -> Seq<Seq<char>> {
    split_on(stored, only(',')).filter_map(
        |part: Seq<char>|
            if trimmed(part).len() > 0 {
                Some(trimmed(part))
            } else {
                None::<Seq<char>>
            },
    )
}

/// The columns that are among the named ones, in the descriptor's order.
pub open spec fn kept_columns(columns: Seq<ColumnModel>, names: Seq<Seq<char>>) -> Seq<ColumnModel> {
    columns.filter_map(
        |c: ColumnModel|
            if names.contains(c.field) {
                Some(c)
            } else {
                None::<ColumnModel>
            },
    )
}

/// The columns an operator sees: the stored choice narrowed to what is still
/// declared, or every column where that leaves none.
pub open spec fn shown_columns(
    columns: Seq<ColumnModel>,
    stored: Option<Seq<char>>,
) -> Seq<ColumnModel> {
    match stored {
        None => columns,
        Some(s) => {
            let kept = kept_columns(columns, chosen_names(s));
            if kept.len() == 0 {
                columns
            } else {
                kept
            }
        },
    }
}

/// The names a stored choice holds.
fn read_choice(stored: &str) -> (out: Vec<String>)
    ensures
        out.deep_view() == chosen_names(stored@),
{
    let parts: Vec<String> = split(stored, ',');
    let mut out: Vec<String> = Vec::new();
    let ghost all = split_on(stored@, only(','));
    let ghost f = |part: Seq<char>|
        if trimmed(part).len() > 0 {
            Some(trimmed(part))
        } else {
            None::<Seq<char>>
        };
    assert(out.deep_view() =~= all.take(0).filter_map(f));
    let mut i: usize = 0;
    while i < parts.len()
        invariant
            i <= parts.len(),
            parts.deep_view() == all,
            f == (|part: Seq<char>|
                if trimmed(part).len() > 0 {
                    Some(trimmed(part))
                } else {
                    None::<Seq<char>>
                }),
            out.deep_view() == all.take(i as int).filter_map(f),
        decreases parts.len() - i,
    {
        let part: &str = trim(parts[i].as_str());
        let ghost before = out.deep_view();
        proof {
            all.lemma_filter_map_take_succ(f, i as int);
            assert(all[i as int] == parts[i as int]@);
        }
        if !part.is_empty() {
            out.push(part.to_owned());
            assert(out.deep_view() =~= before + seq![part@]);
        }
        i = i + 1;
    }
    assert(all.take(all.len() as int) =~= all);
    out
}

/// A copy of some columns.
pub fn copy_columns(columns: &Vec<ListColumn>) -> (out: Vec<ListColumn>)
    ensures
        out.deep_view() == columns.deep_view(),
{
    let mut out: Vec<ListColumn> = Vec::new();
    let mut i: usize = 0;
    while i < columns.len()
        invariant
            i <= columns.len(),
            out.len() == i,
            forall|j: int| 0 <= j < i ==> #[trigger] out@[j].deep_view() == columns@[j].deep_view(),
        decreases columns.len() - i,
    {
        out.push(columns[i].copy());
        i = i + 1;
    }
    assert(out.deep_view() =~= columns.deep_view());
    out
}

/// The columns to show: the operator's stored choice, narrowed to what the
/// descriptor still declares. A choice that names none of them falls back to all,
/// so a descriptor that drops a column leaves a working list.
pub fn visible_columns(columns: &Vec<ListColumn>, stored: Option<&str>) -> (r: Vec<ListColumn>)
    ensures
        r.deep_view() == shown_columns(columns.deep_view(), stored.deep_view()),
{
    let stored: &str = match stored {
        Some(s) => s,
        None => {
            return copy_columns(columns);
        },
    };
    let names: Vec<String> = read_choice(stored);
    let mut kept: Vec<ListColumn> = Vec::new();
    let ghost all = columns.deep_view();
    let ghost chosen = chosen_names(stored@);
    let ghost f = |c: ColumnModel|
        if chosen.contains(c.field) {
            Some(c)
        } else {
            None::<ColumnModel>
        };
    assert(kept.deep_view() =~= all.take(0).filter_map(f));
    let mut i: usize = 0;
    while i < columns.len()
        invariant
            i <= columns.len(),
            columns.deep_view() == all,
            names.deep_view() == chosen,
            f == (|c: ColumnModel|
                if chosen.contains(c.field) {
                    Some(c)
                } else {
                    None::<ColumnModel>
                }),
            kept.deep_view() == all.take(i as int).filter_map(f),
        decreases columns.len() - i,
    {
        let ghost before = kept.deep_view();
        proof {
            all.lemma_filter_map_take_succ(f, i as int);
            assert(all[i as int] == columns[i as int].deep_view());
        }
        if listed(&names, columns[i].field.as_str()) {
            kept.push(columns[i].copy());
            assert(kept.deep_view() =~= before + seq![all[i as int]]);
        }
        i = i + 1;
    }
    assert(all.take(all.len() as int) =~= all);
    if kept.len() == 0 {
        return copy_columns(columns);
    }
    kept
}

/// The descriptor with only the columns this operator sees. Everything downstream
/// (the query, the headers, sorting, searching) works from it, so what is shown
/// is what is queried.
pub fn narrowed(config: &ListConfig, stored: Option<&str>) -> (r: ListConfig)
    ensures
        r@ == (ListModel {
            columns: shown_columns(config@.columns, stored.deep_view()),
            ..config@
        }),
{
    ListConfig {
        entity: config.entity.clone(),
        title: config.title.copy(),
        columns: visible_columns(&config.columns, stored),
        order_by: config.order_by.clone(),
        order_dir: config.order_dir,
        per_page: config.per_page,
        id_field: config.id_field.clone(),
        edit_base: copy_option(&config.edit_base),
        creatable: config.creatable,
        filters: copy_filters(&config.filters),
        deletable: config.deletable,
        exportable: config.exportable,
        toolbar: copy_buttons(&config.toolbar),
    }
}

/// A list that declares a column always shows one, whatever was stored, and
/// shows only declared columns.
pub proof fn law_a_list_never_goes_blank(columns: Seq<ColumnModel>, stored: Option<Seq<char>>)
    ensures
        columns.len() > 0 ==> shown_columns(columns, stored).len() > 0,
        forall|i: int|
            0 <= i < shown_columns(columns, stored).len() ==> columns.contains(
                #[trigger] shown_columns(columns, stored)[i],
            ),
{
    match stored {
        None => {},
        Some(s) => {
            let names = chosen_names(s);
            let f = |c: ColumnModel|
                if names.contains(c.field) {
                    Some(c)
                } else {
                    None::<ColumnModel>
                };
            let kept = kept_columns(columns, names);
            assert(kept == columns.filter_map(f));
            assert forall|i: int| 0 <= i < kept.len() implies columns.contains(#[trigger] kept[i]) by {
                columns.lemma_filter_map_contains(f, kept[i]);
                let c = choose|c: ColumnModel| #[trigger] columns.contains(c) && f(c) == Some(kept[i]);
                assert(c == kept[i]);
            }
        },
    }
}

// -------------------------------------------------------------------- sorting
/// Whether the descriptor declares a column over a field.
pub open spec fn declares(columns: Seq<ColumnModel>, field: Seq<char>) -> bool {
    exists|i: int| 0 <= i < columns.len() && #[trigger] columns[i].field == field
}

/// Whether the descriptor declares a column over a field.
pub fn declared(columns: &Vec<ListColumn>, field: &str) -> (r: bool)
    ensures
        r == declares(columns.deep_view(), field@),
{
    let ghost all = columns.deep_view();
    let mut i: usize = 0;
    while i < columns.len()
        invariant
            i <= columns.len(),
            all == columns.deep_view(),
            forall|j: int| 0 <= j < i ==> #[trigger] all[j].field != field@,
        decreases columns.len() - i,
    {
        if same(columns[i].field.as_str(), field) {
            assert(all[i as int].field == field@);
            return true;
        }
        i = i + 1;
    }
    false
}

/// The field a request orders by: the submitted one where it names a declared
/// column, else the descriptor's own.
pub open spec fn sort_field(config: ListModel, sort: Option<Seq<char>>) -> Seq<char> {
    match sort {
        Some(s) => if declares(config.columns, s) {
            s
        } else {
            config.order_by
        },
        None => config.order_by,
    }
}

/// The direction a request orders in: the submitted one where it is known, else
/// the descriptor's own for its own column and ascending for any other.
pub open spec fn sort_dir(config: ListModel, by: Seq<char>, dir: Option<Seq<char>>) -> SortDir {
    if dir == Some("asc"@) {
        SortDir::Asc
    } else if dir == Some("desc"@) {
        SortDir::Desc
    } else if by == config.order_by {
        config.order_dir
    } else {
        SortDir::Asc
    }
}

/// The ordering a request resolves to. Only a declared column reaches the query,
/// so a crafted `sort` cannot order by an arbitrary one.
pub fn resolve_sort(config: &ListConfig, sort: Option<&str>, dir: Option<&str>) -> (r: (
    String,
    SortDir,
))
    ensures
        r.0@ == sort_field(config@, sort.deep_view()),
        r.1 == sort_dir(config@, sort_field(config@, sort.deep_view()), dir.deep_view()),
{
    let by: String = match sort {
        Some(s) => if declared(&config.columns, s) {
            s.to_owned()
        } else {
            config.order_by.clone()
        },
        None => config.order_by.clone(),
    };
    proof {
        reveal_strlit("asc");
        reveal_strlit("desc");
        assert("asc"@.len() != "desc"@.len());
    }
    let known: Option<SortDir> = match dir {
        Some(d) => if same(d, "asc") {
            Some(SortDir::Asc)
        } else if same(d, "desc") {
            Some(SortDir::Desc)
        } else {
            None
        },
        None => None,
    };
    let direction: SortDir = match known {
        Some(d) => d,
        None => if same(by.as_str(), config.order_by.as_str()) {
            config.order_dir
        } else {
            SortDir::Asc
        },
    };
    (by, direction)
}

/// Whatever is submitted, a list is ordered by its own column or a declared one.
pub proof fn law_only_declared_columns_order(config: ListModel, sort: Option<Seq<char>>)
    ensures
        sort_field(config, sort) == config.order_by || declares(
            config.columns,
            sort_field(config, sort),
        ),
{
}

// ------------------------------------------------------------ active filters
/// The value a filter compares its column with.
pub enum FilterValue {
    Bool(bool),
    Text(String),
}

/// A [`FilterValue`], over characters.
pub enum ValueModel {
    Bool(bool),
    Text(Seq<char>),
}

impl DeepView for FilterValue {
    type V = ValueModel;

    open spec fn deep_view(&self) -> ValueModel {
        match self {
            FilterValue::Bool(b) => ValueModel::Bool(*b),
            FilterValue::Text(s) => ValueModel::Text(s@),
        }
    }
}

/// A filter the request selected: its column, the value as submitted, and the
/// value the query compares with.
pub struct ActiveFilter {
    pub field: String,
    pub raw: String,
    pub value: FilterValue,
}

/// An [`ActiveFilter`], over characters.
pub struct ActiveModel {
    pub field: Seq<char>,
    pub raw: Seq<char>,
    pub value: ValueModel,
}

impl DeepView for ActiveFilter {
    type V = ActiveModel;

    open spec fn deep_view(&self) -> ActiveModel {
        ActiveModel { field: self.field@, raw: self.raw@, value: self.value.deep_view() }
    }
}

/// Whether a select filter offers a value.
pub open spec fn offers(options: Seq<OptionModel>, value: Seq<char>) -> bool {
    exists|i: int| 0 <= i < options.len() && #[trigger] options[i].value == value
}

/// What a submitted value means to a filter: nothing where it is blank, not one
/// of the two a yes/no control emits, or not among the declared options.
pub open spec fn accepted(kind: KindModel, raw: Seq<char>) -> Option<ValueModel> {
    if raw.len() == 0 {
        None
    } else {
        match kind {
            KindModel::Boolean => if raw == "1"@ {
                Some(ValueModel::Bool(true))
            } else if raw == "0"@ {
                Some(ValueModel::Bool(false))
            } else {
                None
            },
            KindModel::Select { options } => if offers(options, raw) {
                Some(ValueModel::Text(raw))
            } else {
                None
            },
        }
    }
}

/// What a request selects of one filter.
pub open spec fn active_filter(
    f: FilterModel,
    params: Seq<(Seq<char>, Seq<char>)>,
) -> Option<ActiveModel> {
    match lookup(params, filter_param(f.field)) {
        None => None,
        Some(v) => match accepted(f.kind, trimmed(v)) {
            None => None,
            Some(value) => Some(ActiveModel { field: f.field, raw: trimmed(v), value }),
        },
    }
}

/// What a request selects of the declared filters, in their order.
pub open spec fn active_filters(
    filters: Seq<FilterModel>,
    params: Seq<(Seq<char>, Seq<char>)>,
) -> Seq<ActiveModel> {
    filters.filter_map(|f: FilterModel| active_filter(f, params))
}

/// Whether a select filter offers a value.
fn offered(options: &Vec<FilterOption>, value: &str) -> (r: bool)
    ensures
        r == offers(options.deep_view(), value@),
{
    let ghost all = options.deep_view();
    let mut i: usize = 0;
    while i < options.len()
        invariant
            i <= options.len(),
            all == options.deep_view(),
            forall|j: int| 0 <= j < i ==> #[trigger] all[j].value != value@,
        decreases options.len() - i,
    {
        if same(options[i].value.as_str(), value) {
            assert(all[i as int].value == value@);
            return true;
        }
        i = i + 1;
    }
    false
}

/// What a submitted value means to a filter.
fn accept(kind: &FilterKind, raw: &str) -> (r: Option<FilterValue>)
    ensures
        r.deep_view() == accepted(kind.deep_view(), raw@),
{
    if raw.is_empty() {
        return None;
    }
    proof {
        reveal_strlit("1");
        reveal_strlit("0");
        assert("1"@[0] != "0"@[0]);
    }
    match kind {
        FilterKind::Boolean => {
            if same(raw, "1") {
                Some(FilterValue::Bool(true))
            } else if same(raw, "0") {
                Some(FilterValue::Bool(false))
            } else {
                None
            }
        },
        FilterKind::Select { options } => {
            if offered(options, raw) {
                Some(FilterValue::Text(raw.to_owned()))
            } else {
                None
            }
        },
    }
}

/// Reads the declared filters out of the request's parameters, dropping anything
/// undeclared, unrecognised or blank.
pub fn resolve_filters(filters: &Vec<ListFilter>, params: &Vec<(String, String)>) -> (r: Vec<
    ActiveFilter,
>)
    ensures
        r.deep_view() == active_filters(filters.deep_view(), params.deep_view()),
{
    let mut r: Vec<ActiveFilter> = Vec::new();
    let ghost all = filters.deep_view();
    let ghost sent = params.deep_view();
    let ghost f = |f: FilterModel| active_filter(f, sent);
    assert(r.deep_view() =~= all.take(0).filter_map(f));
    let mut i: usize = 0;
    while i < filters.len()
        invariant
            i <= filters.len(),
            all == filters.deep_view(),
            sent == params.deep_view(),
            f == (|f: FilterModel| active_filter(f, sent)),
            r.deep_view() == all.take(i as int).filter_map(f),
        decreases filters.len() - i,
    {
        let filter: &ListFilter = &filters[i];
        let ghost before = r.deep_view();
        proof {
            all.lemma_filter_map_take_succ(f, i as int);
            assert(all[i as int] == filter.deep_view());
        }
        match get(params, filter.param().as_str()) {
            Some(v) => {
                let raw: &str = trim(v);
                match accept(&filter.kind, raw) {
                    Some(value) => {
                        let one = ActiveFilter {
                            field: filter.field.clone(),
                            raw: raw.to_owned(),
                            value,
                        };
                        let ghost m = one.deep_view();
                        r.push(one);
                        assert(f(all[i as int]) == Some(m));
                        assert(r.deep_view() =~= before + seq![m]);
                    },
                    None => {},
                }
            },
            None => {},
        }
        i = i + 1;
    }
    assert(all.take(all.len() as int) =~= all);
    r
}

/// Only a declared filter reaches the query, and of a select filter only a
/// declared option.
pub proof fn law_only_declared_filters_apply(
    filters: Seq<FilterModel>,
    params: Seq<(Seq<char>, Seq<char>)>,
    i: int,
)
    requires
        0 <= i < active_filters(filters, params).len(),
    ensures
        exists|f: FilterModel| #[trigger]
            filters.contains(f) && f.field == active_filters(filters, params)[i].field && accepted(
                f.kind,
                active_filters(filters, params)[i].raw,
            ) == Some(active_filters(filters, params)[i].value),
{
    let g = |f: FilterModel| active_filter(f, params);
    let out = active_filters(filters, params);
    assert(out == filters.filter_map(g));
    filters.lemma_filter_map_contains(g, out[i]);
    let f = choose|f: FilterModel| #[trigger] filters.contains(f) && g(f) == Some(out[i]);
    assert(filters.contains(f) && f.field == out[i].field);
}

} // verus!
