//! List screens: sorting, filtering, searching, columns and the toolbar.

use laterite_admin::access::PermissionSet;
use laterite_admin::cells::{builtin_column, plan_row, status_slug, BuiltinColumn, Cell, CellCx};
use laterite_admin::icons::{Icons, IconSet};
use laterite_admin::list::{
    columns_preference_key, narrowed, resolve_filters, resolve_sort, visible_columns,
    FilterOption, ListColumn, ListConfig, ListFilter, SortDir, ToolbarButton,
};
use laterite_admin::list_query::{
    query, read_rows, statements, ListPage, ListQuery, ReadRow, RowView,
};
use laterite_admin::list_screen::{
    can_page, columns_flash, empty_state, head_link, list_screen, set_columns, ColumnsAction,
};
use laterite_admin::list_view::{
    list_params, list_request, page_fits, toolbar_views, total_pages, urlencode, ListParams,
    ListRequest,
};
use laterite_admin::list_work::{export_plan, handle};
use laterite_admin::resource::{builtin_resources, prefix_resource};
use laterite_admin::session::FlashLevel;
use laterite_admin::statements::{Backend, Param};
use laterite_admin::reply::is_htmx;
use laterite_admin::text::{Text, Translator};

fn config() -> ListConfig {
    ListConfig {
        entity: "backend_users".to_string(),
        title: Text::new("Users"),
        columns: vec![
            ListColumn::new("username", "Username"),
            ListColumn::new("is_superuser", "Superuser").yes_no(),
        ],
        order_by: "created_at".to_string(),
        order_dir: SortDir::Desc,
        per_page: 25,
        id_field: "id".to_string(),
        edit_base: None,
        creatable: false,
        filters: vec![ListFilter::boolean("is_superuser", "Superuser")],
        deletable: true,
        ..Default::default()
    }
}

fn filter_params(all: &[(&str, &str)]) -> Vec<(String, String)> {
    all.iter().map(|(k, v)| (k.to_string(), v.to_string())).collect()
}

fn holder(superuser: bool, codes: &[&str]) -> PermissionSet {
    PermissionSet::with_overrides(
        superuser,
        codes.iter().map(|c| c.to_string()).collect(),
        vec![],
        vec![],
    )
}

fn params(sort: Option<&str>, q: Option<&str>) -> ListParams {
    ListParams {
        page: None,
        sort: sort.map(String::from),
        dir: None,
        q: q.map(String::from),
    }
}

fn asked(req: &ListRequest) -> ListQuery {
    ListQuery {
        offset: req.offset,
        order_by: req.order_by.clone(),
        order_dir: req.order_dir,
        q: req.q.clone(),
        filters: resolve_filters(&config().filters, &filter_params(&[])),
        per_page: None,
    }
}

fn searched(q: &str) -> ListQuery {
    let config = config();
    asked(&list_request(&config, &params(None, Some(q)), &filter_params(&[])))
}

#[test]
fn column_types_format_their_cell_display() {
    let display = |column: BuiltinColumn, value: &str, tz: &str| {
        column.view_model(&CellCx { value, tz, locale: "en_US" }).display
    };
    let ist = "Asia/Kolkata";
    let at = "2026-08-13T10:00:00+00:00";
    assert_eq!(display(BuiltinColumn::DateTime, at, ist), "13 Aug 2026, 15:30");
    assert_eq!(display(BuiltinColumn::Date, at, "UTC"), "13 Aug 2026");
    assert_eq!(display(BuiltinColumn::Time, at, ist), "15:30");
    assert_eq!(display(BuiltinColumn::Bool, "true", "UTC"), "Yes");
    assert_eq!(display(BuiltinColumn::Bool, "false", "UTC"), "No");
    assert_eq!(display(BuiltinColumn::Text, "root", "UTC"), "root");
    assert_eq!(display(BuiltinColumn::DateTime, "n/a", "UTC"), "n/a");
}

#[test]
fn sort_falls_back_to_the_configured_order() {
    assert_eq!(resolve_sort(&config(), None, None), ("created_at".to_string(), SortDir::Desc));
}

#[test]
fn a_declared_column_can_be_sorted_either_way() {
    let c = config();
    assert_eq!(
        resolve_sort(&c, Some("username"), Some("asc")),
        ("username".to_string(), SortDir::Asc)
    );
    assert_eq!(
        resolve_sort(&c, Some("username"), Some("desc")),
        ("username".to_string(), SortDir::Desc)
    );
}

#[test]
fn an_undeclared_sort_column_is_ignored() {
    let c = config();
    for crafted in ["password_hash", "id) --", "username; drop table backend_users", ""] {
        assert_eq!(
            resolve_sort(&c, Some(crafted), Some("asc")).0,
            "created_at",
            "{crafted} must not reach the query"
        );
    }
}

#[test]
fn an_unknown_direction_falls_back() {
    let c = config();
    assert_eq!(resolve_sort(&c, Some("username"), Some("sideways")).1, SortDir::Asc);
    assert_eq!(resolve_sort(&c, Some("created_at"), None).1, SortDir::Desc);
}

#[test]
fn status_pill_renders_a_slugged_markup_span() {
    let vm = BuiltinColumn::StatusPill.view_model(&CellCx {
        value: "In Progress",
        tz: "UTC",
        locale: "en_US",
    });
    assert_eq!(vm.slug.as_deref(), Some("in-progress"));
    assert_eq!(vm.display, "In Progress");
    assert_eq!(status_slug("ÉTAT: Fermé"), "-tat--ferm-");
}

#[test]
fn a_column_can_override_its_searchability() {
    assert!(ListColumn::new("code", "Code").is_searchable());
    assert!(!ListColumn::new("code", "Code").searchable(false).is_searchable());
    assert!(ListColumn::new("at", "At").datetime().searchable(true).is_searchable());
}

#[test]
fn an_undeclared_filter_or_value_is_ignored() {
    let c = config();
    assert!(resolve_filters(&c.filters, &filter_params(&[("f_username", "ada")])).is_empty());
    for bad in ["yes", "true", "1 or 1=1", "", "  "] {
        assert!(
            resolve_filters(&c.filters, &filter_params(&[("f_is_superuser", bad)])).is_empty(),
            "{bad} must not reach the query"
        );
    }
    let filters =
        vec![ListFilter::select("status", "Status", vec![FilterOption::new("live", "Live")])];
    assert_eq!(resolve_filters(&filters, &filter_params(&[("f_status", "live")])).len(), 1);
    assert!(
        resolve_filters(&filters, &filter_params(&[("f_status", "draft")])).is_empty(),
        "an option the descriptor never offered is dropped"
    );
}

#[test]
fn a_stored_choice_narrows_the_columns_in_descriptor_order() {
    let c = config();
    let kept = visible_columns(&c.columns, Some("is_superuser,username"));
    assert_eq!(
        kept.iter().map(|c| c.field.as_str()).collect::<Vec<_>>(),
        ["username", "is_superuser"]
    );
}

#[test]
fn no_stored_choice_shows_every_column() {
    let c = config();
    assert_eq!(visible_columns(&c.columns, None).len(), c.columns.len());
}

#[test]
fn a_stale_choice_falls_back_to_every_column() {
    let c = config();
    assert_eq!(visible_columns(&c.columns, Some("gone,removed")).len(), c.columns.len());
    assert_eq!(visible_columns(&c.columns, Some("")).len(), c.columns.len());
    assert_eq!(visible_columns(&c.columns, Some("  , ")).len(), c.columns.len());
    assert_eq!(visible_columns(&c.columns, Some("gone,username")).len(), 1);
    assert_eq!(narrowed(&c, Some("username")).columns.len(), 1);
}

#[test]
fn the_toolbar_hides_what_the_operator_may_not_do() {
    let cfg = ListConfig {
        creatable: false,
        toolbar: vec![
            ToolbarButton::new("Open", "/reports"),
            ToolbarButton::new("Audit", "/audit").require("backend.view_audit"),
        ],
        ..config()
    };
    let set = IconSet { names: vec![] };
    let icons = Icons::new(&set, "/s.svg");
    let tr = Translator::new("en");
    let labels = |perms: &PermissionSet| -> Vec<String> {
        toolbar_views(&cfg, "/admin", perms, &tr, &icons).into_iter().map(|v| v.label).collect()
    };
    assert_eq!(labels(&holder(true, &[])), ["Open", "Audit"]);
    assert_eq!(labels(&holder(false, &["backend.view_audit"])).len(), 2);
    assert_eq!(labels(&holder(false, &[])), ["Open"]);
}

#[test]
fn a_toolbar_href_follows_the_admin_mount() {
    let cfg = ListConfig {
        creatable: true,
        edit_base: Some("/roles".to_string()),
        toolbar: vec![
            ToolbarButton::new("Reports", "/reports"),
            ToolbarButton::new("Docs", "https://example.test/docs"),
        ],
        ..config()
    };
    let set = IconSet { names: vec![] };
    let views = toolbar_views(
        &cfg,
        "/backoffice",
        &holder(true, &[]),
        &Translator::new("en"),
        &Icons::new(&set, "/s.svg"),
    );
    assert_eq!(views[0].href, "/backoffice/roles/new", "New comes first");
    assert_eq!(views[1].href, "/backoffice/reports");
    assert_eq!(views[2].href, "https://example.test/docs");
}

#[test]
fn query_rejects_bad_identifiers() {
    let mut bad = config();
    bad.entity = "backend_users; drop table backend_users".to_string();
    assert!(query(&bad, searched("")).is_err());
}

#[test]
fn a_search_is_a_literal_lowercase_pattern() {
    let c = config();
    let plan = query(&c, searched(" B%EN ")).ok().unwrap();
    let (rows, count) = statements(&plan, Backend::Sqlite);
    assert!(rows.sql.contains("LOWER(\"username\") LIKE ? ESCAPE '\\'"), "{}", rows.sql);
    assert!(count.sql.starts_with("SELECT COUNT("), "{}", count.sql);
    assert!(matches!(&count.params[0], Param::Text(t) if t == "%b\\%en%"), "{:?}", count.params);
    let plan = query(&c, searched("   ")).ok().unwrap();
    assert!(!statements(&plan, Backend::Sqlite).0.sql.contains("LIKE"));
}

#[test]
fn a_yes_no_filter_compares_with_an_integer() {
    let c = config();
    let mut asked = searched("");
    asked.filters = resolve_filters(&c.filters, &filter_params(&[("f_is_superuser", "1")]));
    let plan = query(&c, asked).ok().unwrap();
    let (_, count) = statements(&plan, Backend::Postgres);
    assert_eq!(
        count.sql,
        "SELECT COUNT(\"id\") FROM \"backend_users\" WHERE \"is_superuser\" = $1"
    );
    assert!(matches!(&count.params[..], [Param::Int(1)]), "{:?}", count.params);
}

#[test]
fn a_list_reads_its_page_as_text() {
    let c = config();
    let plan = query(&c, searched("")).ok().unwrap();
    let (rows, count) = statements(&plan, Backend::Sqlite);
    assert_eq!(
        rows.sql,
        "SELECT CAST(\"username\" AS text) AS \"username\", \
         CAST(\"is_superuser\" AS text) AS \"is_superuser\", \
         CAST(\"id\" AS text) AS \"_lat_id\" FROM \"backend_users\" \
         ORDER BY \"created_at\" DESC LIMIT ? OFFSET ?"
    );
    assert_eq!(count.sql, "SELECT COUNT(\"id\") FROM \"backend_users\"");
    assert!(statements(&plan, Backend::MySql).0.sql.contains("AS char)"));
}

#[test]
fn missing_cells_read_as_blank() {
    let rows = read_rows(&vec![ReadRow {
        id: Some("7".to_string()),
        cells: vec![Some("ada".to_string()), None],
    }]);
    assert_eq!(rows[0].id, "7");
    assert_eq!(rows[0].cells, ["ada", ""]);
}

fn screen(raw: &[(&str, &str)], sort: Option<&str>, q: Option<&str>, rows: Vec<RowView>, total: i64)
    -> laterite_admin::list_screen::ListScreen {
    sent(raw, sort, q, rows, total, None)
}

fn sent(
    raw: &[(&str, &str)],
    sort: Option<&str>,
    q: Option<&str>,
    rows: Vec<RowView>,
    total: i64,
    hx_request: Option<&str>,
) -> laterite_admin::list_screen::ListScreen {
    let c = config();
    let req = list_request(&c, &params(sort, q), &filter_params(raw));
    let set = IconSet { names: vec![] };
    list_screen(
        &c,
        &c,
        req,
        "/admin/users",
        ListPage { rows, total },
        "/admin",
        &holder(true, &[]),
        &Translator::new("en"),
        &Icons::new(&set, "/s.svg"),
        is_htmx(hx_request),
    )
}

#[test]
fn a_filter_survives_a_sort_link_and_shows_as_selected() {
    let s = screen(&[("f_is_superuser", "1")], Some("username"), None, vec![], 0);
    let links: Vec<String> = s.columns.iter().map(|h| head_link(h, &s.carry)).collect();
    assert!(links.iter().any(|l| l.contains("?sort=is_superuser&dir=asc&f_is_superuser=1")), "{links:?}");
    assert!(links.iter().any(|l| l.contains("?sort=username&dir=desc&f_is_superuser=1")), "{links:?}");
    assert_eq!(s.filters[0].value, "1");
    assert!(s.filtered);
}

#[test]
fn the_empty_state_distinguishes_no_records_from_no_match() {
    assert_eq!(empty_state(&screen(&[], None, None, vec![], 0)), Some("No records yet."));
    assert_eq!(
        empty_state(&screen(&[("f_is_superuser", "1")], None, None, vec![], 0)),
        Some("No records match.")
    );
    assert_eq!(empty_state(&screen(&[], None, Some("zzz"), vec![], 0)), Some("No records match."));
    let row = RowView { id: "1".to_string(), cells: vec!["a".to_string(), "1".to_string()] };
    assert_eq!(empty_state(&screen(&[], None, None, vec![row], 1)), None);
}

#[test]
fn the_search_term_survives_a_sort_link() {
    let s = screen(&[], Some("username"), Some("bren"), vec![], 0);
    let links: Vec<String> = s.columns.iter().map(|h| head_link(h, &s.carry)).collect();
    assert!(links.iter().any(|l| l.contains("?sort=username&dir=desc&q=bren")), "{links:?}");
    assert_eq!(s.q, "bren");
}

#[test]
fn a_search_term_is_encoded_in_a_link() {
    let s = screen(&[], Some("username"), Some("a b"), vec![], 0);
    let links: Vec<String> = s.columns.iter().map(|h| head_link(h, &s.carry)).collect();
    assert!(links.iter().all(|l| l.contains("q=a+b")), "{links:?}");
    assert_eq!(urlencode("a b&c"), "a+b%26c");
}

#[test]
fn an_htmx_sort_returns_the_list_region_alone() {
    let s = sent(&[], Some("username"), None, vec![], 0, Some("true"));
    assert!(s.fragment);
    let head = s.columns.iter().find(|h| h.field == "username").unwrap();
    assert_eq!(head.active, "asc");
    assert!(!s.filtered);
}

#[test]
fn a_plain_sort_returns_the_whole_page() {
    let s = sent(&[], Some("username"), None, vec![], 0, None);
    assert!(!s.fragment);
    let links: Vec<String> = s.columns.iter().map(|h| head_link(h, &s.carry)).collect();
    assert!(links.iter().any(|l| l.starts_with("?sort=username")), "{links:?}");
}

#[test]
fn pages_are_counted() {
    assert_eq!(total_pages(51, 25), 3);
    assert_eq!(total_pages(0, 25), 1);
    assert!(page_fits(Some(3), 25));
    assert!(!page_fits(Some(i64::MAX), 25));
    assert!(can_page(51, 25));
    let c = config();
    let mut p = params(None, None);
    p.page = Some(3);
    assert_eq!(list_request(&c, &p, &vec![]).offset, 50);
}

#[test]
fn the_shown_columns_are_stored_or_cleared() {
    let c = config();
    match set_columns(&c.columns, "/admin/users", &filter_params(&[("column", "is_superuser")])) {
        ColumnsAction::Store { key, value } => {
            assert_eq!(key, columns_preference_key("/admin/users"));
            assert_eq!(value, "is_superuser");
        }
        ColumnsAction::Clear { .. } => panic!("a choice was made"),
    }
    assert!(matches!(
        set_columns(&c.columns, "/admin/users", &filter_params(&[("column", "gone")])),
        ColumnsAction::Clear { .. }
    ));
    assert_eq!(columns_flash(true).level, FlashLevel::Success);
    assert_eq!(columns_flash(false).level, FlashLevel::Error);
}

#[test]
fn a_column_named_twice_is_still_a_choice() {
    let c = config();
    let twice = filter_params(&[("column", "username"), ("column", "username")]);
    match set_columns(&c.columns, "/admin/users", &twice) {
        ColumnsAction::Store { value, .. } => {
            assert_eq!(value, "username,username");
            assert_eq!(visible_columns(&c.columns, Some(&value)).len(), 1);
        }
        ColumnsAction::Clear { .. } => panic!("not every column was chosen"),
    }
    let all = filter_params(&[("column", "is_superuser"), ("column", "username")]);
    assert!(matches!(
        set_columns(&c.columns, "/admin/users", &all),
        ColumnsAction::Clear { .. }
    ));
}

#[test]
fn a_list_query_is_read_or_refused() {
    let p = list_params(&filter_params(&[("page", "3"), ("q", "ada"), ("f_x", "1")])).unwrap();
    assert_eq!((p.page, p.q.as_deref(), p.sort, p.dir), (Some(3), Some("ada"), None, None));
    assert_eq!(list_params(&vec![]).unwrap().page, None);
    assert!(list_params(&filter_params(&[("page", "two")])).is_none());
    assert!(list_params(&filter_params(&[("page", "")])).is_none());
    assert!(list_params(&filter_params(&[("sort", "a"), ("sort", "b")])).is_none());
    assert!(list_params(&filter_params(&[("f_x", "1"), ("f_x", "2")])).is_some());
}

#[test]
fn new_on_a_mounted_list_leads_below_the_mount_once() {
    let mut resource = builtin_resources().into_iter().find(|r| r.base_path == "/roles").unwrap();
    resource = prefix_resource("/admin", resource);
    assert_eq!(resource.list.edit_base.as_deref(), Some("/admin/roles"));
    let c = &resource.list;
    let req = list_request(c, &params(None, None), &vec![]);
    let set = IconSet { names: vec![] };
    let s = list_screen(
        c,
        c,
        req,
        "/admin/roles",
        ListPage { rows: vec![], total: 0 },
        "/admin",
        &holder(true, &[]),
        &Translator::new("en"),
        &Icons::new(&set, "/s.svg"),
        false,
    );
    assert_eq!(s.toolbar[0].href, "/admin/roles/new");
    assert_eq!(s.edit_base.as_deref(), Some("/admin/roles"));
}

#[test]
fn a_date_cell_reads_in_the_operators_own_tongue() {
    let columns = vec![ListColumn::new("at", "At").of("datetime")];
    let registered = vec!["datetime".to_string()];
    let cells = vec!["2026-05-04T09:30:00Z".to_string()];
    let shown = |tag: &str| match &plan_row(&columns, &registered, &cells, "UTC", tag)[0] {
        Cell::Builtin(vm) => vm.display.clone(),
        _ => panic!("a built-in cell"),
    };
    assert_eq!(shown("en"), "4 May 2026, 09:30");
    assert_eq!(shown("fr-FR"), "4 mai 2026, 09:30");
}

#[test]
fn a_cell_is_planned_by_its_column_type() {
    let columns = vec![
        ListColumn::new("a", "A"),
        ListColumn::new("b", "B").of("acme.money"),
        ListColumn::new("c", "C").of("acme.gone"),
    ];
    let registered = vec!["text".to_string(), "acme.money".to_string()];
    let cells = vec!["x".to_string(), "1".to_string(), "2".to_string()];
    let row = plan_row(&columns, &registered, &cells, "UTC", "en");
    assert!(matches!(&row[0], Cell::Builtin(vm) if vm.display == "x"));
    assert!(matches!(row[1], Cell::Contributed));
    assert!(matches!(row[2], Cell::Missing));
    assert_eq!(builtin_column("datetime"), Some(BuiltinColumn::DateTime));
}

#[test]
fn an_export_runs_the_screens_query() {
    let raw = filter_params(&[("q", "ada"), ("sort", "username"), ("f_is_superuser", "1")]);
    let work = handle(&config(), Some("username"), &params(Some("username"), Some("ada")), &raw);
    assert_eq!(work.config.columns.len(), 1);
    assert_eq!(work.request.carry, "&q=ada&f_is_superuser=1");
    let screen = work.plan.ok().unwrap();
    let file = export_plan(&work.config, &raw, 1000).ok().unwrap();
    assert_eq!(screen.columns, file.columns);
    assert_eq!(screen.order_by, "username");
    assert_eq!(file.order_by, "username");
    assert_eq!((screen.limit, screen.offset), (25, 0));
    assert_eq!((file.limit, file.offset), (1000, 1000));
    let (a, b) = (statements(&screen, Backend::Sqlite), statements(&file, Backend::Sqlite));
    assert_eq!(a.0.sql, b.0.sql);
    let mut bad = config();
    bad.entity = "x; drop".to_string();
    assert!(handle(&bad, None, &params(None, None), &vec![]).plan.is_err());
}
