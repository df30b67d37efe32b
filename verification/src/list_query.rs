//! The query a list request runs, as data: what is selected, from where, in what
//! order, which page of it, and what narrows it.

use vstd::prelude::*;

use crate::list::{
    searches, ActiveFilter, ActiveModel, ColumnModel, FilterModel, ListColumn, ListConfig,
    ListFilter, ListModel, SortDir, ValueModel,
};
use crate::list::FilterValue;
use crate::sql::{escaped, is_ident, like_escape, valid_ident};
use crate::statements::{
    all_of, and_condition, and_int_is, and_text_is, any_of, as_texts, cast_of, condition_parts,
    empty_select, finish_select, grouped, or_lower_like, select, select_as_text, select_count,
    select_from, select_limit, select_meeting, select_offset, select_order, select_parts,
    select_text, select_texts, text_cast, Backend, ChosenModel, ConditionModel, ParamModel,
    SelectModel, Statement, TermModel, WhereModel,
};
use crate::strs::{cat3, trim, trimmed};
use crate::unicode::{lowercase, lowercase_of};

verus! {

/// The alias the row id is selected under.
pub const ID_ALIAS: &'static str = "_lat_id";

/// One rendered row: its id, for edit links, and its cells.
pub struct RowView {
    pub id: String,
    pub cells: Vec<String>,
}

/// A [`RowView`], over characters.
pub struct RowModel {
    pub id: Seq<char>,
    pub cells: Seq<Seq<char>>,
}

impl DeepView for RowView {
    type V = RowModel;

    open spec fn deep_view(&self) -> RowModel {
        RowModel { id: self.id@, cells: self.cells.deep_view() }
    }
}

/// A page of rows, with the number of rows there are in all.
pub struct ListPage {
    pub rows: Vec<RowView>,
    pub total: i64,
}

/// What one list request asks for.
pub struct ListQuery {
    pub offset: i64,
    pub order_by: String,
    pub order_dir: SortDir,
    /// The search term, blank for no search.
    pub q: String,
    pub filters: Vec<ActiveFilter>,
    /// Rows per round trip; absent is the descriptor's page size.
    pub per_page: Option<i64>,
}

/// What narrows a list: the columns searched for a term, and the filters.
pub struct Narrowing {
    pub search: Vec<String>,
    pub term: String,
    pub filters: Vec<ActiveFilter>,
}

/// A [`Narrowing`], over characters.
pub struct NarrowingModel {
    pub search: Seq<Seq<char>>,
    pub term: Seq<char>,
    pub filters: Seq<ActiveModel>,
}

impl View for Narrowing {
    type V = NarrowingModel;

    open spec fn view(&self) -> NarrowingModel {
        NarrowingModel {
            search: self.search.deep_view(),
            term: self.term@,
            filters: self.filters.deep_view(),
        }
    }
}

/// A list query: the page of rows to read, and the count over the same rows.
pub struct ListPlan {
    pub table: String,
    /// The columns selected as text, each under its own name.
    pub columns: Vec<String>,
    /// The id column, selected as text under [`ID_ALIAS`] and counted.
    pub id_field: String,
    pub order_by: String,
    pub order_dir: SortDir,
    pub limit: u64,
    pub offset: u64,
    /// Applied to the rows and to the count alike.
    pub narrowing: Narrowing,
}

/// A [`ListPlan`], over characters.
pub struct PlanModel {
    pub table: Seq<char>,
    pub columns: Seq<Seq<char>>,
    pub id_field: Seq<char>,
    pub order_by: Seq<char>,
    pub order_dir: SortDir,
    pub limit: int,
    pub offset: int,
    pub narrowing: NarrowingModel,
}

impl View for ListPlan {
    type V = PlanModel;

    open spec fn view(&self) -> PlanModel {
        PlanModel {
            table: self.table@,
            columns: self.columns.deep_view(),
            id_field: self.id_field@,
            order_by: self.order_by@,
            order_dir: self.order_dir,
            limit: self.limit as int,
            offset: self.offset as int,
            narrowing: self.narrowing@,
        }
    }
}

/// The fields of some columns.
pub open spec fn field_names(columns: Seq<ColumnModel>) -> Seq<Seq<char>> {
    columns.map_values(|c: ColumnModel| c.field)
}

/// The fields that a term is searched in: the searchable columns', or none where
/// there is no term.
pub open spec fn searched_fields(columns: Seq<ColumnModel>, term: Seq<char>) -> Seq<Seq<char>> {
    if trimmed(term).len() == 0 {
        Seq::empty()
    } else {
        columns.filter_map(
            |c: ColumnModel|
                if searches(c) {
                    Some(c.field)
                } else {
                    None::<Seq<char>>
                },
        )
    }
}

/// Whether every identifier a list query would name is a safe one.
pub open spec fn idents_ok(config: ListModel, order_by: Seq<char>) -> bool {
    &&& is_ident(config.entity)
    &&& is_ident(config.order_by)
    &&& is_ident(order_by)
    &&& is_ident(config.id_field)
    &&& forall|i: int| 0 <= i < config.columns.len() ==> is_ident(#[trigger] config.columns[i].field)
    &&& forall|i: int| 0 <= i < config.filters.len() ==> is_ident(#[trigger] config.filters[i].field)
}

/// The larger of a number and nought.
pub open spec fn not_negative(n: int) -> int {
    if n < 0 {
        0
    } else {
        n
    }
}

/// The fields of some columns.
pub fn column_fields(columns: &Vec<ListColumn>) -> (r: Vec<String>)
    ensures
        r.deep_view() == field_names(columns.deep_view()),
{
    let mut r: Vec<String> = Vec::new();
    let ghost all = columns.deep_view();
    let mut i: usize = 0;
    while i < columns.len()
        invariant
            i <= columns.len(),
            all == columns.deep_view(),
            r.len() == i,
            forall|j: int| 0 <= j < i ==> #[trigger] r@[j]@ == all[j].field,
        decreases columns.len() - i,
    {
        r.push(columns[i].field.clone());
        i = i + 1;
    }
    assert(r.deep_view() =~= field_names(all));
    r
}

/// The fields that a term is searched in.
pub fn search_fields(columns: &Vec<ListColumn>, term: &str) -> (r: Vec<String>)
    ensures
        r.deep_view() == searched_fields(columns.deep_view(), term@),
{
    let mut r: Vec<String> = Vec::new();
    let ghost all = columns.deep_view();
    let ghost f = |c: ColumnModel|
        if searches(c) {
            Some(c.field)
        } else {
            None::<Seq<char>>
        };
    if trim(term).is_empty() {
        assert(r.deep_view() =~= Seq::<Seq<char>>::empty());
        return r;
    }
    assert(r.deep_view() =~= all.take(0).filter_map(f));
    let mut i: usize = 0;
    while i < columns.len()
        invariant
            i <= columns.len(),
            all == columns.deep_view(),
            f == (|c: ColumnModel|
                if searches(c) {
                    Some(c.field)
                } else {
                    None::<Seq<char>>
                }),
            r.deep_view() == all.take(i as int).filter_map(f),
        decreases columns.len() - i,
    {
        let ghost before = r.deep_view();
        proof {
            all.lemma_filter_map_take_succ(f, i as int);
            assert(all[i as int] == columns[i as int].deep_view());
        }
        if columns[i].is_searchable() {
            r.push(columns[i].field.clone());
            assert(r.deep_view() =~= before + seq![all[i as int].field]);
        }
        i = i + 1;
    }
    assert(all.take(all.len() as int) =~= all);
    r
}

/// Whether every field of some columns is a safe identifier.
fn columns_valid(columns: &Vec<ListColumn>) -> (r: bool)
    ensures
        r == (forall|i: int|
            0 <= i < columns.deep_view().len() ==> is_ident(
                #[trigger] columns.deep_view()[i].field,
            )),
{
    let ghost all = columns.deep_view();
    let mut i: usize = 0;
    while i < columns.len()
        invariant
            i <= columns.len(),
            all == columns.deep_view(),
            forall|j: int| 0 <= j < i ==> is_ident(#[trigger] all[j].field),
        decreases columns.len() - i,
    {
        if !valid_ident(columns[i].field.as_str()) {
            assert(!is_ident(all[i as int].field));
            return false;
        }
        i = i + 1;
    }
    true
}

/// Whether every field of some filters is a safe identifier.
fn filters_valid(filters: &Vec<ListFilter>) -> (r: bool)
    ensures
        r == (forall|i: int|
            0 <= i < filters.deep_view().len() ==> is_ident(
                #[trigger] filters.deep_view()[i].field,
            )),
{
    let ghost all = filters.deep_view();
    let mut i: usize = 0;
    while i < filters.len()
        invariant
            i <= filters.len(),
            all == filters.deep_view(),
            forall|j: int| 0 <= j < i ==> is_ident(#[trigger] all[j].field),
        decreases filters.len() - i,
    {
        if !valid_ident(filters[i].field.as_str()) {
            assert(!is_ident(all[i as int].field));
            return false;
        }
        i = i + 1;
    }
    true
}

/// The query a request runs over a list.
pub open spec fn planned(
    config: ListModel,
    offset: int,
    order_by: Seq<char>,
    order_dir: SortDir,
    q: Seq<char>,
    filters: Seq<ActiveModel>,
    per_page: Option<i64>,
) -> PlanModel {
    PlanModel {
        table: config.entity,
        columns: field_names(config.columns),
        id_field: config.id_field,
        order_by,
        order_dir,
        limit: not_negative(
            match per_page {
                Some(n) => n as int,
                None => config.per_page,
            },
        ),
        offset: not_negative(offset),
        narrowing: NarrowingModel { search: searched_fields(config.columns, q), term: q, filters },
    }
}

/// The query a request runs over a list, or a refusal where the descriptor or the
/// ordering names an identifier that is not a safe one.
pub fn query(config: &ListConfig, req: ListQuery) -> (r: Result<ListPlan, String>)
    ensures
        idents_ok(config@, req.order_by@) ==> r is Ok && (r->Ok_0)@ == planned(
            config@,
            req.offset as int,
            req.order_by@,
            req.order_dir,
            req.q@,
            req.filters.deep_view(),
            req.per_page,
        ),
        !idents_ok(config@, req.order_by@) ==> r is Err && (r->Err_0)@
            == "invalid identifier in list config for '"@ + config.entity@ + "'"@,
{
    if !valid_ident(config.entity.as_str()) || !valid_ident(config.order_by.as_str())
        || !valid_ident(req.order_by.as_str()) || !valid_ident(config.id_field.as_str())
        || !columns_valid(&config.columns) || !filters_valid(&config.filters) {
        return Err(
            cat3("invalid identifier in list config for '", config.entity.as_str(), "'"),
        );
    }
    let rows: i64 = match req.per_page {
        Some(n) => n,
        None => config.per_page,
    };
    let limit: u64 = if rows < 0 {
        0
    } else {
        rows as u64
    };
    let offset: u64 = if req.offset < 0 {
        0
    } else {
        req.offset as u64
    };
    let search: Vec<String> = search_fields(&config.columns, req.q.as_str());
    Ok(
        ListPlan {
            table: config.entity.clone(),
            columns: column_fields(&config.columns),
            id_field: config.id_field.clone(),
            order_by: req.order_by,
            order_dir: req.order_dir,
            limit,
            offset,
            narrowing: Narrowing { search, term: req.q, filters: req.filters },
        },
    )
}

// ------------------------------------------------------------------ statements
/// The pattern a search term matches: the term anywhere in the text, letter case
/// aside, with nothing in it taken as a wildcard.
pub open spec fn search_pattern(term: Seq<char>) -> Seq<char> {
    "%"@ + escaped(lowercase_of(trimmed(term))) + "%"@
}

/// One of the searched columns has to match the term.
pub open spec fn search_terms(n: NarrowingModel) -> ConditionModel {
    ConditionModel {
        any: true,
        terms: n.search.map_values(
            |c: Seq<char>|
                TermModel::LowerLike { column: c, pattern: search_pattern(n.term) },
        ),
    }
}

/// What a filter compares its column with. Booleans are integer columns on every
/// backend, so a truth value compares as an integer.
pub open spec fn filter_param(value: ValueModel) -> ParamModel {
    match value {
        ValueModel::Bool(b) => ParamModel::Int(
            if b {
                1
            } else {
                0
            },
        ),
        ValueModel::Text(s) => ParamModel::Text(s),
    }
}

/// Every filter has to hold.
pub open spec fn filter_terms(n: NarrowingModel) -> ConditionModel {
    ConditionModel {
        any: false,
        terms: n.filters.map_values(
            |f: ActiveModel| TermModel::FieldIs { column: f.field, value: filter_param(f.value) },
        ),
    }
}

/// The rows a list is narrowed to.
pub open spec fn narrowed_rows(n: NarrowingModel) -> WhereModel {
    if n.search.len() == 0 && n.filters.len() == 0 {
        WhereModel::Every
    } else if n.filters.len() == 0 {
        WhereModel::Meeting(search_terms(n))
    } else if n.search.len() == 0 {
        WhereModel::Meeting(filter_terms(n))
    } else {
        WhereModel::Meeting(
            ConditionModel {
                any: false,
                terms: seq![grouped(search_terms(n)), grouped(filter_terms(n))],
            },
        )
    }
}

/// The page of rows a plan reads.
pub open spec fn rows_select(p: PlanModel, backend: Backend) -> SelectModel {
    SelectModel {
        chosen: as_texts(p.columns, cast_of(backend)).push(
            ChosenModel::AsText {
                column: p.id_field,
                cast: cast_of(backend),
                alias: ID_ALIAS@,
            },
        ),
        tables: seq![p.table],
        rows: narrowed_rows(p.narrowing),
        orders: seq![(p.order_by, p.order_dir)],
        limit: Some(p.limit),
        offset: Some(p.offset),
    }
}

/// The count over the rows a plan pages through.
pub open spec fn count_select(p: PlanModel) -> SelectModel {
    SelectModel {
        chosen: seq![ChosenModel::Count(p.id_field)],
        tables: seq![p.table],
        rows: narrowed_rows(p.narrowing),
        ..empty_select()
    }
}

/// The condition that the term matches one of the searched columns.
fn search_condition(n: &Narrowing) -> (r: sea_query::Condition)
    ensures
        condition_parts(r) == search_terms(n@),
{
    let folded: String = lowercase(trim(n.term.as_str()));
    let pattern: String = cat3("%", like_escape(folded.as_str()).as_str(), "%");
    let ghost all = n.search.deep_view();
    let ghost want = search_terms(n@).terms;
    let mut any = any_of();
    let mut i: usize = 0;
    assert(want.take(0) =~= Seq::<TermModel>::empty());
    while i < n.search.len()
        invariant
            i <= n.search.len(),
            all == n.search.deep_view(),
            want == search_terms(n@).terms,
            pattern@ == search_pattern(n.term@),
            condition_parts(any) == (ConditionModel { any: true, terms: want.take(i as int) }),
        decreases n.search.len() - i,
    {
        assert(all[i as int] == n.search@[i as int]@);
        any = or_lower_like(any, n.search[i].as_str(), pattern.as_str());
        assert(want.take(i + 1) =~= want.take(i as int).push(want[i as int]));
        i = i + 1;
    }
    assert(want.take(want.len() as int) =~= want);
    any
}

/// The filters, every one of which has to hold.
fn filter_condition(n: &Narrowing) -> (r: sea_query::Condition)
    ensures
        condition_parts(r) == filter_terms(n@),
{
    let ghost sent = n.filters.deep_view();
    let ghost want = filter_terms(n@).terms;
    let mut all = all_of();
    let mut i: usize = 0;
    assert(want.take(0) =~= Seq::<TermModel>::empty());
    while i < n.filters.len()
        invariant
            i <= n.filters.len(),
            sent == n.filters.deep_view(),
            want == filter_terms(n@).terms,
            condition_parts(all) == (ConditionModel { any: false, terms: want.take(i as int) }),
        decreases n.filters.len() - i,
    {
        assert(sent[i as int] == n.filters@[i as int].deep_view());
        let field: &str = n.filters[i].field.as_str();
        all = match &n.filters[i].value {
            FilterValue::Bool(b) => {
                let stored: i64 = if *b {
                    1
                } else {
                    0
                };
                and_int_is(all, field, stored)
            },
            FilterValue::Text(s) => and_text_is(all, field, s.as_str()),
        };
        assert(want.take(i + 1) =~= want.take(i as int).push(want[i as int]));
        i = i + 1;
    }
    assert(want.take(want.len() as int) =~= want);
    all
}

/// Narrows a select to the rows a request asks for.
fn narrow(s: &mut sea_query::SelectStatement, n: &Narrowing)
    requires
        select_parts(*old(s)).rows is Every,
    ensures
        select_parts(*final(s)) == (SelectModel {
            rows: narrowed_rows(n@),
            ..select_parts(*old(s))
        }),
{
    let searching: bool = n.search.len() > 0;
    let filtering: bool = n.filters.len() > 0;
    if searching && filtering {
        let both = and_condition(
            and_condition(all_of(), search_condition(n)),
            filter_condition(n),
        );
        assert(condition_parts(both).terms =~= seq![
            grouped(search_terms(n@)),
            grouped(filter_terms(n@)),
        ]);
        select_meeting(s, both);
    } else if searching {
        select_meeting(s, search_condition(n));
    } else if filtering {
        select_meeting(s, filter_condition(n));
    }
}

/// The statements of a plan: the page of rows, and the count over the same rows, so
/// the pager counts what the list returns. Every column is read as text, so a value
/// of any type reads back as a string for display.
pub fn statements(plan: &ListPlan, backend: Backend) -> (r: (Statement, Statement))
    ensures
        r.0.deep_view() == select_text(rows_select(plan@, backend), backend),
        r.1.deep_view() == select_text(count_select(plan@), backend),
{
    let cast: &str = text_cast(backend);
    let mut rows = select();
    select_texts(&mut rows, &plan.columns, cast);
    select_as_text(&mut rows, plan.id_field.as_str(), cast, ID_ALIAS);
    select_from(&mut rows, plan.table.as_str());
    select_order(&mut rows, plan.order_by.as_str(), plan.order_dir);
    select_limit(&mut rows, plan.limit);
    select_offset(&mut rows, plan.offset);
    narrow(&mut rows, &plan.narrowing);
    let mut count = select();
    select_count(&mut count, plan.id_field.as_str());
    select_from(&mut count, plan.table.as_str());
    narrow(&mut count, &plan.narrowing);
    proof {
        let a = rows_select(plan@, backend);
        assert(select_parts(rows).chosen =~= a.chosen);
        assert(select_parts(rows).tables =~= a.tables);
        assert(select_parts(rows).orders =~= a.orders);
        let b = count_select(plan@);
        assert(select_parts(count).chosen =~= b.chosen);
        assert(select_parts(count).tables =~= b.tables);
    }
    (finish_select(&rows, backend), finish_select(&count, backend))
}

/// The pager counts what the list shows: both statements read the same table,
/// narrowed to the same rows, and the count is not cut to a page.
pub proof fn law_the_count_covers_the_rows(p: PlanModel, backend: Backend)
    ensures
        rows_select(p, backend).tables == count_select(p).tables,
        rows_select(p, backend).rows == count_select(p).rows,
        count_select(p).limit is None,
        count_select(p).offset is None,
{
}

/// Every identifier that a query names is a safe one.
pub proof fn law_queries_name_safe_identifiers(
    config: ListModel,
    offset: int,
    order_by: Seq<char>,
    order_dir: SortDir,
    q: Seq<char>,
    params: Seq<(Seq<char>, Seq<char>)>,
    per_page: Option<i64>,
)
    requires
        idents_ok(config, order_by),
    ensures
        ({
            let p = planned(
                config,
                offset,
                order_by,
                order_dir,
                q,
                crate::list::active_filters(config.filters, params),
                per_page,
            );
            &&& is_ident(p.table)
            &&& is_ident(p.id_field)
            &&& is_ident(p.order_by)
            &&& forall|i: int| 0 <= i < p.columns.len() ==> is_ident(#[trigger] p.columns[i])
            &&& forall|i: int|
                0 <= i < p.narrowing.search.len() ==> is_ident(#[trigger] p.narrowing.search[i])
            &&& forall|i: int|
                0 <= i < p.narrowing.filters.len() ==> is_ident(
                    #[trigger] p.narrowing.filters[i].field,
                )
        }),
{
    let active = crate::list::active_filters(config.filters, params);
    let p = planned(config, offset, order_by, order_dir, q, active, per_page);
    assert forall|i: int| 0 <= i < p.narrowing.search.len() implies is_ident(
        #[trigger] p.narrowing.search[i],
    ) by {
        let f = |c: ColumnModel|
            if searches(c) {
                Some(c.field)
            } else {
                None::<Seq<char>>
            };
        assert(p.narrowing.search == config.columns.filter_map(f));
        config.columns.lemma_filter_map_contains(f, p.narrowing.search[i]);
        let c = choose|c: ColumnModel| #[trigger]
            config.columns.contains(c) && f(c) == Some(p.narrowing.search[i]);
        let k = choose|k: int| 0 <= k < config.columns.len() && config.columns[k] == c;
        assert(is_ident(config.columns[k].field));
    }
    assert forall|i: int| 0 <= i < active.len() implies is_ident(#[trigger] active[i].field) by {
        crate::list::law_only_declared_filters_apply(config.filters, params, i);
        let f = choose|f: FilterModel| #[trigger]
            config.filters.contains(f) && f.field == active[i].field && crate::list::accepted(
                f.kind,
                active[i].raw,
            ) == Some(active[i].value);
        let k = choose|k: int| 0 <= k < config.filters.len() && config.filters[k] == f;
        assert(is_ident(config.filters[k].field));
    }
}

// ----------------------------------------------------------------- read rows
/// A row as the database gave it: a value may be null or unreadable.
pub struct ReadRow {
    pub id: Option<String>,
    pub cells: Vec<Option<String>>,
}

/// A [`ReadRow`], over characters.
pub struct ReadModel {
    pub id: Option<Seq<char>>,
    pub cells: Seq<Option<Seq<char>>>,
}

impl DeepView for ReadRow {
    type V = ReadModel;

    open spec fn deep_view(&self) -> ReadModel {
        ReadModel { id: self.id.deep_view(), cells: self.cells.deep_view() }
    }
}

/// A value as it is shown: a missing one is empty.
pub open spec fn or_empty(v: Option<Seq<char>>) -> Seq<char> {
    match v {
        Some(s) => s,
        None => Seq::empty(),
    }
}

/// A row as it is shown.
pub open spec fn shown_row(row: ReadModel) -> RowModel {
    RowModel {
        id: or_empty(row.id),
        cells: row.cells.map_values(|c: Option<Seq<char>>| or_empty(c)),
    }
}

/// Reads a value as a display string, treating a missing one as empty.
pub fn get_text(v: &Option<String>) -> (r: String)
    ensures
        r@ == or_empty(v.deep_view()),
{
    match v {
        Some(s) => s.clone(),
        None => String::new(),
    }
}

/// The cells of a row, a missing value as an empty one.
fn read_cells(cells: &Vec<Option<String>>) -> (r: Vec<String>)
    ensures
        r.deep_view() == cells.deep_view().map_values(|c: Option<Seq<char>>| or_empty(c)),
{
    let mut r: Vec<String> = Vec::new();
    let mut i: usize = 0;
    while i < cells.len()
        invariant
            i <= cells.len(),
            r.len() == i,
            forall|j: int| 0 <= j < i ==> #[trigger] r@[j]@ == or_empty(cells@[j].deep_view()),
        decreases cells.len() - i,
    {
        r.push(get_text(&cells[i]));
        i = i + 1;
    }
    assert(r.deep_view() =~= cells.deep_view().map_values(|c: Option<Seq<char>>| or_empty(c)));
    r
}

/// The rows a query read, ready to show.
pub fn read_rows(rows: &Vec<ReadRow>) -> (r: Vec<RowView>)
    ensures
        r.deep_view() == rows.deep_view().map_values(|row: ReadModel| shown_row(row)),
{
    let mut r: Vec<RowView> = Vec::new();
    let mut i: usize = 0;
    while i < rows.len()
        invariant
            i <= rows.len(),
            r.len() == i,
            forall|j: int| 0 <= j < i ==> #[trigger] r@[j].deep_view() == shown_row(
                rows@[j].deep_view(),
            ),
        decreases rows.len() - i,
    {
        r.push(RowView { id: get_text(&rows[i].id), cells: read_cells(&rows[i].cells) });
        i = i + 1;
    }
    assert(r.deep_view() =~= rows.deep_view().map_values(|row: ReadModel| shown_row(row)));
    r
}

} // verus!
