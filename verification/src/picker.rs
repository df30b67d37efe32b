//! The reference-picker seam: a field picks a value from a data source (another
//! table, a hierarchy) without the framework knowing the source.
//!
//! Search and resolve are two endpoints under `{admin}/pickers/{source}`, served
//! with the QUERY method: reads carry no request token, and the session and,
//! optionally, a permission of the source gate them. [`TableSource`] is a built-in
//! source over a single table, so a simple reference needs no code.

use vstd::prelude::*;

use crate::access::{allowed, PermissionSet, PermissionSetModel};
use crate::sql::{escaped, is_ident, like_escape, valid_ident};
use crate::statements::{
    cast_of, each, empty_select, finish_select, reading_as, select, select_as_text, select_from,
    select_limit, select_parts, select_text, select_where_like, select_where_text, text_cast,
    Backend, ChosenModel, SelectModel, Statement, TermModel,
};
use crate::strs::{cat, cat3, same, trim, trimmed};
use crate::unicode::{lowercase, lowercase_of};

verus! {

/// One candidate or resolved node. `id` is a string: a JSON number would corrupt an
/// integer id past 2^53 in the browser.
#[derive(Debug)]
pub struct PickerNode {
    pub id: String,
    pub label: String,
    pub hint: Option<String>,
}

/// A [`PickerNode`], over characters.
pub struct NodeModel {
    pub id: Seq<char>,
    pub label: Seq<char>,
    pub hint: Option<Seq<char>>,
}

impl DeepView for PickerNode {
    type V = NodeModel;

    open spec fn deep_view(&self) -> NodeModel {
        NodeModel { id: self.id@, label: self.label@, hint: self.hint.deep_view() }
    }
}

/// A picker source failed to search or resolve.
#[derive(Debug)]
pub struct PickerError(pub String);

impl PickerError {
    /// What the error says.
    pub fn message(&self) -> (r: String)
        ensures
            r@ == "picker source error: "@ + self.0@,
    {
        cat("picker source error: ", self.0.as_str())
    }
}

/// A registered source: its dotted `vendor.name` key, and an optional permission
/// gating its endpoints.
pub struct PickerSourceReg {
    pub name: String,
    pub permission: Option<String>,
}

/// A [`PickerSourceReg`], over characters.
pub struct SourceModel {
    pub name: Seq<char>,
    pub permission: Option<Seq<char>>,
}

impl DeepView for PickerSourceReg {
    type V = SourceModel;

    open spec fn deep_view(&self) -> SourceModel {
        SourceModel { name: self.name@, permission: self.permission.deep_view() }
    }
}

impl PickerSourceReg {
    /// A source readable by any signed-in operator.
    pub fn new(name: &str) -> (r: Self)
        ensures
            r.deep_view() == (SourceModel { name: name@, permission: None }),
    {
        PickerSourceReg { name: name.to_owned(), permission: None }
    }

    /// Gates this source's endpoints on a permission.
    pub fn require(self, permission: &str) -> (r: Self)
        ensures
            r.deep_view() == (SourceModel {
                permission: Some(permission@),
                ..self.deep_view()
            }),
    {
        PickerSourceReg { name: self.name, permission: Some(permission.to_owned()) }
    }
}

// -------------------------------------------------------------------- one table
/// A built-in source over a single table: candidates are rows whose label column
/// matches (a substring, letter case aside), and a stored id resolves by the id
/// column. The hint column, when set, supplies each node's disambiguating hint.
pub struct TableSource {
    table: String,
    id_col: String,
    label_col: String,
    hint_col: Option<String>,
}

/// A [`TableSource`], over characters.
pub struct TableModel {
    pub table: Seq<char>,
    pub id_col: Seq<char>,
    pub label_col: Seq<char>,
    pub hint_col: Option<Seq<char>>,
}

impl View for TableSource {
    type V = TableModel;

    closed spec fn view(&self) -> TableModel {
        TableModel {
            table: self.table@,
            id_col: self.id_col@,
            label_col: self.label_col@,
            hint_col: self.hint_col.deep_view(),
        }
    }
}

/// Whether everything a source names is an identifier.
pub open spec fn source_idents_ok(s: TableModel) -> bool {
    &&& is_ident(s.table)
    &&& is_ident(s.id_col)
    &&& is_ident(s.label_col)
    &&& s.hint_col matches Some(hint) ==> is_ident(hint)
}

/// What a source reads of a row: the id, the label and, when configured, the hint,
/// each as text.
pub open spec fn node_columns(s: TableModel, cast: Seq<char>) -> Seq<ChosenModel> {
    let both = seq![
        ChosenModel::AsText { column: s.id_col, cast, alias: "id"@ },
        ChosenModel::AsText { column: s.label_col, cast, alias: "label"@ },
    ];
    match s.hint_col {
        Some(hint) => both.push(ChosenModel::AsText { column: hint, cast, alias: "hint"@ }),
        None => both,
    }
}

/// The read of the candidates for a term.
pub open spec fn search_read(s: TableModel, q: Seq<char>, limit: int, backend: Backend) -> SelectModel {
    SelectModel {
        chosen: node_columns(s, cast_of(backend)),
        tables: seq![s.table],
        rows: each(
            seq![
                TermModel::LowerLike {
                    column: s.label_col,
                    pattern: "%"@ + escaped(lowercase_of(q)) + "%"@,
                },
            ],
        ),
        limit: Some(limit),
        ..empty_select()
    }
}

/// The read of the node a stored id refers to.
pub open spec fn resolve_read(s: TableModel, id: Seq<char>, backend: Backend) -> SelectModel {
    SelectModel {
        chosen: node_columns(s, cast_of(backend)),
        tables: seq![s.table],
        rows: reading_as(s.id_col, id, backend),
        limit: Some(1),
        ..empty_select()
    }
}

impl TableSource {
    pub fn new(table: &str, id_col: &str, label_col: &str) -> (r: Self)
        ensures
            r@ == (TableModel {
                table: table@,
                id_col: id_col@,
                label_col: label_col@,
                hint_col: None,
            }),
    {
        TableSource {
            table: table.to_owned(),
            id_col: id_col.to_owned(),
            label_col: label_col.to_owned(),
            hint_col: None,
        }
    }

    /// Sets the column supplying each node's disambiguating hint.
    pub fn with_hint(self, hint_col: &str) -> (r: Self)
        ensures
            r@ == (TableModel { hint_col: Some(hint_col@), ..self@ }),
    {
        TableSource {
            table: self.table,
            id_col: self.id_col,
            label_col: self.label_col,
            hint_col: Some(hint_col.to_owned()),
        }
    }

    /// Guards the descriptor's identifiers.
    pub fn idents_valid(&self) -> (r: bool)
        ensures
            r == source_idents_ok(self@),
    {
        let hint: bool = match &self.hint_col {
            Some(hint) => valid_ident(hint.as_str()),
            None => true,
        };
        valid_ident(self.table.as_str()) && valid_ident(self.id_col.as_str()) && valid_ident(
            self.label_col.as_str(),
        ) && hint
    }

    /// The `id`, `label` and (when configured) `hint` columns cast to text, from
    /// the table.
    fn base_select(&self, cast: &str) -> (r: sea_query::SelectStatement)
        ensures
            select_parts(r) == (SelectModel {
                chosen: node_columns(self@, cast@),
                tables: seq![self@.table],
                ..empty_select()
            }),
    {
        let mut s = select();
        select_as_text(&mut s, self.id_col.as_str(), cast, "id");
        select_as_text(&mut s, self.label_col.as_str(), cast, "label");
        match &self.hint_col {
            Some(hint) => {
                select_as_text(&mut s, hint.as_str(), cast, "hint");
            },
            None => {},
        }
        select_from(&mut s, self.table.as_str());
        assert(select_parts(s).chosen =~= node_columns(self@, cast@));
        assert(select_parts(s).tables =~= seq![self@.table]);
        s
    }

    /// The read of at most `limit` candidates whose label holds `q`, letter case aside.
    /// What `q` holds is matched as it stands: a `%` in it is no wildcard.
    pub fn search(&self, q: &str, limit: u32, backend: Backend) -> (r: Result<
        Statement,
        PickerError,
    >)
        ensures
            source_idents_ok(self@) ==> r is Ok && (r->Ok_0).deep_view() == select_text(
                search_read(self@, q@, limit as int, backend),
                backend,
            ),
            !source_idents_ok(self@) ==> r is Err && (r->Err_0).0@ == "invalid source columns"@,
    {
        if !self.idents_valid() {
            return Err(PickerError("invalid source columns".to_owned()));
        }
        let mut s = self.base_select(text_cast(backend));
        let pattern: String = cat3("%", like_escape(lowercase(q).as_str()).as_str(), "%");
        select_where_like(&mut s, self.label_col.as_str(), pattern.as_str());
        select_limit(&mut s, limit as u64);
        Ok(finish_select(&s, backend))
    }

    /// The read of the row a stored id refers to.
    pub fn resolve(&self, id: &str, backend: Backend) -> (r: Result<Statement, PickerError>)
        ensures
            source_idents_ok(self@) ==> r is Ok && (r->Ok_0).deep_view() == select_text(
                resolve_read(self@, id@, backend),
                backend,
            ),
            !source_idents_ok(self@) ==> r is Err && (r->Err_0).0@ == "invalid source columns"@,
    {
        if !self.idents_valid() {
            return Err(PickerError("invalid source columns".to_owned()));
        }
        let cast: &str = text_cast(backend);
        let mut s = self.base_select(cast);
        select_where_text(&mut s, self.id_col.as_str(), cast, id);
        select_limit(&mut s, 1);
        Ok(finish_select(&s, backend))
    }

    /// The node of a row that was read: what could not be read is blank, and the
    /// hint counts only where the source has a column for it.
    pub fn node(&self, id: Option<String>, label: Option<String>, hint: Option<String>) -> (r:
        PickerNode)
        ensures
            r.deep_view() == (NodeModel {
                id: text_or_blank(id.deep_view()),
                label: text_or_blank(label.deep_view()),
                hint: if self@.hint_col is Some {
                    hint.deep_view()
                } else {
                    None
                },
            }),
    {
        let id: String = match id {
            Some(s) => s,
            None => String::new(),
        };
        let label: String = match label {
            Some(s) => s,
            None => String::new(),
        };
        let hint: Option<String> = match &self.hint_col {
            Some(_) => hint,
            None => None,
        };
        PickerNode { id, label, hint }
    }
}

/// A text, or nothing where there is none.
pub open spec fn text_or_blank(s: Option<Seq<char>>) -> Seq<char> {
    match s {
        Some(t) => t,
        None => Seq::empty(),
    }
}

// -------------------------------------------------------------------- endpoints
pub const DEFAULT_LIMIT: u32 = 20;

pub const MAX_LIMIT: u32 = 50;

/// How many candidates a request is given: what it asks for, within bounds.
pub open spec fn limit_of(asked: Option<u32>) -> u32 {
    let n = match asked {
        Some(n) => n,
        None => DEFAULT_LIMIT,
    };
    if n < 1 {
        1
    } else if n > MAX_LIMIT {
        MAX_LIMIT
    } else {
        n
    }
}

/// How many candidates a request is given: what it asks for, within bounds.
pub fn clamp_limit(asked: Option<u32>) -> (r: u32)
    ensures
        r == limit_of(asked),
        1 <= r <= MAX_LIMIT,
{
    let n: u32 = match asked {
        Some(n) => n,
        None => DEFAULT_LIMIT,
    };
    if n < 1 {
        1
    } else if n > MAX_LIMIT {
        MAX_LIMIT
    } else {
        n
    }
}

/// An answer in JSON that says what went wrong. It is never kept.
pub struct Refusal {
    pub status: u16,
    pub error: &'static str,
}

/// The source of a name.
pub open spec fn source_named(sources: Seq<SourceModel>, name: Seq<char>) -> Option<SourceModel>
    decreases sources.len(),
{
    if sources.len() == 0 {
        None
    } else if sources[0].name == name {
        Some(sources[0])
    } else {
        source_named(sources.drop_first(), name)
    }
}

/// What refuses a request to an endpoint: its status, and what it says.
pub open spec fn endpoint_refusal(
    method: Seq<char>,
    sources: Seq<SourceModel>,
    perms: PermissionSetModel,
    name: Seq<char>,
) -> Option<(u16, Seq<char>)> {
    if method != "QUERY"@ {
        Some((405, "use the QUERY method"@))
    } else {
        match source_named(sources, name) {
            None => Some((404, "unknown picker source"@)),
            Some(source) => match source.permission {
                Some(needed) => if allowed(perms, needed) {
                    None
                } else {
                    Some((403, "forbidden"@))
                },
                None => None,
            },
        }
    }
}

/// The source of a name.
fn find_source<'a>(sources: &'a Vec<PickerSourceReg>, name: &str) -> (r: Option<
    &'a PickerSourceReg,
>)
    ensures
        r.deep_view() == source_named(sources.deep_view(), name@),
{
    let ghost all = sources.deep_view();
    let mut i: usize = 0;
    assert(all.skip(0) =~= all);
    while i < sources.len()
        invariant
            i <= sources.len(),
            all == sources.deep_view(),
            source_named(all, name@) == source_named(all.skip(i as int), name@),
        decreases sources.len() - i,
    {
        assert(all.skip(i as int)[0] == sources@[i as int].deep_view());
        assert(all.skip(i as int).drop_first() =~= all.skip(i + 1));
        if same(sources[i].name.as_str(), name) {
            return Some(&sources[i]);
        }
        i = i + 1;
    }
    None
}

/// Enforces the QUERY method, resolves the named source, and checks its permission.
pub fn guard<'a>(
    method: &str,
    sources: &'a Vec<PickerSourceReg>,
    perms: &PermissionSet,
    source: &str,
) -> (r: Result<&'a PickerSourceReg, Refusal>)
    ensures
        match endpoint_refusal(method@, sources.deep_view(), perms@, source@) {
            Some(refusal) => r is Err && (r->Err_0).status == refusal.0 && (r->Err_0).error@
                == refusal.1,
            None => r is Ok && source_named(sources.deep_view(), source@) == Some(
                (r->Ok_0).deep_view(),
            ),
        },
{
    if !same(method, "QUERY") {
        return Err(Refusal { status: 405, error: "use the QUERY method" });
    }
    match find_source(sources, source) {
        None => Err(Refusal { status: 404, error: "unknown picker source" }),
        Some(reg) => {
            match &reg.permission {
                Some(needed) => {
                    if !perms.allows(needed.as_str()) {
                        return Err(Refusal { status: 403, error: "forbidden" });
                    }
                },
                None => {},
            }
            Ok(reg)
        },
    }
}

/// The refusal of a body that is no request.
pub fn invalid_body() -> (r: Refusal)
    ensures
        r.status == 400,
        r.error@ == "invalid request body"@,
{
    Refusal { status: 400, error: "invalid request body" }
}

/// What a request asks a source for: the term without surrounding space, and how
/// many candidates.
pub fn asked<'a>(q: &'a str, limit: Option<u32>) -> (r: (&'a str, u32))
    ensures
        r.0@ == trimmed(q@),
        r.1 == limit_of(limit),
{
    (trim(q), clamp_limit(limit))
}

/// The answer to a search: the candidates, or that it failed. The reason stays in
/// the log.
pub fn search_answer(found: Result<Vec<PickerNode>, PickerError>) -> (r: Result<
    Vec<PickerNode>,
    Refusal,
>)
    ensures
        match found {
            Ok(items) => r == Ok::<Vec<PickerNode>, Refusal>(items),
            Err(_) => r is Err && (r->Err_0).status == 500 && (r->Err_0).error@
                == "search failed"@,
        },
{
    match found {
        Ok(items) => Ok(items),
        Err(_) => Err(Refusal { status: 500, error: "search failed" }),
    }
}

/// The answer to a resolve: the node where the id still refers to one, or that it
/// failed.
pub fn resolve_answer(found: Result<Option<PickerNode>, PickerError>) -> (r: Result<
    Option<PickerNode>,
    Refusal,
>)
    ensures
        match found {
            Ok(item) => r == Ok::<Option<PickerNode>, Refusal>(item),
            Err(_) => r is Err && (r->Err_0).status == 500 && (r->Err_0).error@
                == "resolve failed"@,
        },
{
    match found {
        Ok(item) => Ok(item),
        Err(_) => Err(Refusal { status: 500, error: "resolve failed" }),
    }
}

/// A source with a permission answers nobody who lacks it.
pub proof fn law_a_guarded_source_is_closed(
    method: Seq<char>,
    sources: Seq<SourceModel>,
    perms: PermissionSetModel,
    name: Seq<char>,
)
    requires
        endpoint_refusal(method, sources, perms, name) is None,
    ensures
        method == "QUERY"@,
        source_named(sources, name) matches Some(source) && (source.permission matches Some(needed)
            ==> allowed(perms, needed)),
{
}

} // verus!
