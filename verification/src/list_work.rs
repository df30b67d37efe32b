//! From a list screen's request to the query behind it, for the screen and for the
//! file it exports to. Both work from one list: the descriptor narrowed to the columns
//! the operator chose.

use vstd::prelude::*;

use crate::export::PAGE;
use crate::list::{
    active_filters, narrowed, resolve_filters, resolve_sort, shown_columns, sort_dir, sort_field,
    ColumnModel, ListConfig, ListModel, SortDir,
};
use crate::list_query::{idents_ok, planned, query, ListPlan, ListQuery, PlanModel};
use crate::list_view::{
    carry_of, head_of, list_request, page_of, term_of, ListParams, ListRequest,
};
use crate::strs::{get, lookup, trim};

verus! {

/// A descriptor narrowed to the columns an operator chose.
pub open spec fn narrowed_list(declared: ListModel, stored: Option<Seq<char>>) -> ListModel {
    ListModel { columns: shown_columns(declared.columns, stored), ..declared }
}

/// The query a view of a list runs: ordered and searched as asked, where the list
/// allows it, with the filters that the request selects.
pub open spec fn view_plan(
    config: ListModel,
    sort: Option<Seq<char>>,
    dir: Option<Seq<char>>,
    q: Option<Seq<char>>,
    raw: Seq<(Seq<char>, Seq<char>)>,
    offset: int,
    per_page: Option<i64>,
) -> PlanModel {
    let field = sort_field(config, sort);
    planned(
        config,
        offset,
        field,
        sort_dir(config, field, dir),
        term_of(q),
        active_filters(config.filters, raw),
        per_page,
    )
}

/// The refusal of a list whose descriptor or ordering names an identifier that is not
/// a safe one.
pub open spec fn bad_list(config: ListModel) -> Seq<char> {
    "invalid identifier in list config for '"@ + config.entity + "'"@
}

/// The query a view of a list runs, or the refusal of a list that cannot be queried.
fn plan_view(
    config: &ListConfig,
    sort: Option<&str>,
    dir: Option<&str>,
    q: Option<&str>,
    raw: &Vec<(String, String)>,
    offset: i64,
    per_page: Option<i64>,
) -> (r: Result<ListPlan, String>)
    ensures
        if idents_ok(config@, sort_field(config@, sort.deep_view())) {
            r is Ok && (r->Ok_0)@ == view_plan(
                config@,
                sort.deep_view(),
                dir.deep_view(),
                q.deep_view(),
                raw.deep_view(),
                offset as int,
                per_page,
            )
        } else {
            r is Err && (r->Err_0)@ == bad_list(config@)
        },
{
    let (order_by, order_dir): (String, SortDir) = resolve_sort(config, sort, dir);
    let empty: String = String::new();
    let term: &str = match q {
        Some(s) => trim(s),
        None => trim(empty.as_str()),
    };
    let req: ListQuery = ListQuery {
        offset,
        order_by,
        order_dir,
        q: term.to_owned(),
        filters: resolve_filters(&config.filters, raw),
        per_page,
    };
    query(config, req)
}

/// What a list screen's request comes to: the narrowed descriptor, the request read
/// over it, and the query to run.
pub struct ListWork {
    pub config: ListConfig,
    pub request: ListRequest,
    pub plan: Result<ListPlan, String>,
}

/// Opens a list screen. `stored` is the operator's choice of columns, and `raw` holds
/// every parameter of the request.
pub fn handle(
    declared: &ListConfig,
    stored: Option<&str>,
    params: &ListParams,
    raw: &Vec<(String, String)>,
) -> (r: ListWork)
    requires
        i64::MIN <= (page_of(params.page) - 1) * declared.per_page <= i64::MAX,
    ensures
        ({
            let config = narrowed_list(declared@, stored.deep_view());
            let sort = params.sort.deep_view();
            let dir = params.dir.deep_view();
            let q = params.q.deep_view();
            let offset = (page_of(params.page) - 1) * declared.per_page;
            &&& r.config@ == config
            &&& r.request.page == page_of(params.page)
            &&& r.request.offset == offset
            &&& r.request.order_by@ == sort_field(config, sort)
            &&& r.request.order_dir == sort_dir(config, sort_field(config, sort), dir)
            &&& r.request.q@ == term_of(q)
            &&& r.request.filters.deep_view() == active_filters(config.filters, raw.deep_view())
            &&& r.request.carry@ == carry_of(
                term_of(q),
                active_filters(config.filters, raw.deep_view()),
            )
            &&& if idents_ok(config, sort_field(config, sort)) {
                r.plan is Ok && (r.plan->Ok_0)@ == view_plan(
                    config,
                    sort,
                    dir,
                    q,
                    raw.deep_view(),
                    offset,
                    None,
                )
            } else {
                r.plan is Err && (r.plan->Err_0)@ == bad_list(config)
            }
        }),
{
    let config: ListConfig = narrowed(declared, stored);
    assert(config@.per_page == declared@.per_page);
    let request: ListRequest = list_request(&config, params, raw);
    let sort: Option<&str> = match &params.sort {
        Some(s) => Some(s.as_str()),
        None => None,
    };
    let dir: Option<&str> = match &params.dir {
        Some(s) => Some(s.as_str()),
        None => None,
    };
    let q: Option<&str> = match &params.q {
        Some(s) => Some(s.as_str()),
        None => None,
    };
    let plan: Result<ListPlan, String> = plan_view(
        &config,
        sort,
        dir,
        q,
        raw,
        request.offset,
        None,
    );
    ListWork { config, request, plan }
}

/// The query behind one page of an export: what the screen shows, a thousand rows at a
/// time. `config` is the narrowed descriptor, and `raw` holds every parameter of the
/// request.
pub fn export_plan(config: &ListConfig, raw: &Vec<(String, String)>, offset: i64) -> (r: Result<
    ListPlan,
    String,
>)
    ensures
        ({
            let sort = lookup(raw.deep_view(), "sort"@);
            if idents_ok(config@, sort_field(config@, sort)) {
                r is Ok && (r->Ok_0)@ == view_plan(
                    config@,
                    sort,
                    lookup(raw.deep_view(), "dir"@),
                    lookup(raw.deep_view(), "q"@),
                    raw.deep_view(),
                    offset as int,
                    Some(PAGE),
                )
            } else {
                r is Err && (r->Err_0)@ == bad_list(config@)
            }
        }),
{
    plan_view(config, get(raw, "sort"), get(raw, "dir"), get(raw, "q"), raw, offset, Some(PAGE))
}

/// A file has the rows of the screen it is made from: the two queries differ in which
/// page they read and in nothing else.
pub proof fn law_an_export_is_the_screens_query(
    config: ListModel,
    sort: Option<Seq<char>>,
    dir: Option<Seq<char>>,
    q: Option<Seq<char>>,
    raw: Seq<(Seq<char>, Seq<char>)>,
    shown: int,
    offset: int,
)
    ensures
        ({
            let screen = view_plan(config, sort, dir, q, raw, shown, None);
            let file = view_plan(config, sort, dir, q, raw, offset, Some(PAGE));
            file == (PlanModel { limit: file.limit, offset: file.offset, ..screen })
        }),
{
}

/// What is shown is what is queried: each column of the query stands under the head
/// of the same place.
pub proof fn law_what_is_shown_is_queried(
    declared: ListModel,
    stored: Option<Seq<char>>,
    sort: Option<Seq<char>>,
    dir: Option<Seq<char>>,
    q: Option<Seq<char>>,
    raw: Seq<(Seq<char>, Seq<char>)>,
    offset: int,
    table: Seq<(Seq<char>, Seq<char>)>,
    i: int,
)
    requires
        0 <= i < narrowed_list(declared, stored).columns.len(),
    ensures
        ({
            let config = narrowed_list(declared, stored);
            let plan = view_plan(config, sort, dir, q, raw, offset, None);
            let heads = config.columns.map_values(
                |c: ColumnModel| head_of(c, plan.order_by, plan.order_dir, table),
            );
            &&& plan.columns.len() == heads.len()
            &&& plan.columns[i] == heads[i].field
        }),
{
}

} // verus!
