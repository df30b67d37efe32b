//! The statements the screens run, built with `sea_query`.
//!
//! The builder's statements and conditions are opaque here; what each of them holds
//! has a name, and every call on one says what it adds. A finished statement is its
//! text with the values to bind, which is all that running it takes.

use vstd::prelude::*;

use crate::list::SortDir;
use crate::persist::{Bound, BoundModel};

verus! {

/// The database a deployment runs on.
#[derive(Clone, Copy, Debug, PartialEq, Eq, Structural)]
pub enum Backend {
    Postgres,
    MySql,
    Sqlite,
}

/// The type a value is cast to in order to read as text.
pub open spec fn cast_of(backend: Backend) -> Seq<char> {
    match backend {
        Backend::Postgres => "text"@,
        Backend::MySql => "char"@,
        Backend::Sqlite => "text"@,
    }
}

/// The type a value is cast to in order to read as text.
pub fn text_cast(backend: Backend) -> (r: &'static str)
    ensures
        r@ == cast_of(backend),
{
    match backend {
        Backend::Postgres => "text",
        Backend::MySql => "char",
        Backend::Sqlite => "text",
    }
}

/// A value to bind, in the place a statement leaves for it.
#[derive(Debug)]
pub enum Param {
    Absent,
    Bool(bool),
    Int(i64),
    Count(u64),
    Text(String),
}

/// A [`Param`], over characters.
pub enum ParamModel {
    Absent,
    Bool(bool),
    Int(int),
    Count(int),
    Text(Seq<char>),
}

impl DeepView for Param {
    type V = ParamModel;

    open spec fn deep_view(&self) -> ParamModel {
        match self {
            Param::Absent => ParamModel::Absent,
            Param::Bool(b) => ParamModel::Bool(*b),
            Param::Int(i) => ParamModel::Int(*i as int),
            Param::Count(n) => ParamModel::Count(*n as int),
            Param::Text(s) => ParamModel::Text(s@),
        }
    }
}

/// A statement ready to run.
#[derive(Debug)]
pub struct Statement {
    pub sql: String,
    pub params: Vec<Param>,
}

/// A [`Statement`], over characters.
pub struct StatementModel {
    pub sql: Seq<char>,
    pub params: Seq<ParamModel>,
}

impl DeepView for Statement {
    type V = StatementModel;

    open spec fn deep_view(&self) -> StatementModel {
        StatementModel { sql: self.sql@, params: self.params.deep_view() }
    }
}

// ----------------------------------------------------------------------- parts
/// One thing a row has to meet.
pub enum TermModel {
    /// The column, cast to text, equals a text.
    TextIs { column: Seq<char>, cast: Seq<char>, text: Seq<char> },
    /// The column equals a value.
    FieldIs { column: Seq<char>, value: ParamModel },
    /// The column in lower case is `LIKE` a pattern, with the backslash as the escape
    /// character.
    LowerLike { column: Seq<char>, pattern: Seq<char> },
    /// The column is not null.
    Present { column: Seq<char> },
    /// A condition of its own.
    Group(ConditionModel),
}

/// Terms of which any, or all, have to be met.
pub struct ConditionModel {
    pub any: bool,
    pub terms: Seq<TermModel>,
}

/// One thing a select reads.
pub enum ChosenModel {
    /// The column as it is.
    Column(Seq<char>),
    /// The column cast to text, under an alias.
    AsText { column: Seq<char>, cast: Seq<char>, alias: Seq<char> },
    /// The number of rows in which the column is not null.
    Count(Seq<char>),
}

/// What rows a statement is about: all of them, or those that meet a condition.
pub enum WhereModel {
    Every,
    Meeting(ConditionModel),
}

/// What a select holds.
pub struct SelectModel {
    pub chosen: Seq<ChosenModel>,
    pub tables: Seq<Seq<char>>,
    pub rows: WhereModel,
    pub orders: Seq<(Seq<char>, SortDir)>,
    pub limit: Option<int>,
    pub offset: Option<int>,
}

/// What an insert of one row holds: its table, what it stores column by column,
/// which columns of a standing row it changes, where the key is taken, and the column
/// of the new row it gives back.
pub struct InsertModel {
    pub table: Seq<char>,
    pub values: Seq<(Seq<char>, BoundModel)>,
    pub conflict: Option<(Seq<char>, Seq<Seq<char>>)>,
    pub returning: Option<Seq<char>>,
}

/// What an update holds: its table, what it stores, and the rows it changes.
pub struct UpdateModel {
    pub table: Seq<char>,
    pub values: Seq<(Seq<char>, BoundModel)>,
    pub rows: WhereModel,
}

/// A select that holds nothing yet.
pub open spec fn empty_select() -> SelectModel {
    SelectModel {
        chosen: Seq::empty(),
        tables: Seq::empty(),
        rows: WhereModel::Every,
        orders: Seq::empty(),
        limit: None,
        offset: None,
    }
}

/// The rows that meet every one of some terms.
pub open spec fn each(terms: Seq<TermModel>) -> WhereModel {
    WhereModel::Meeting(ConditionModel { any: false, terms })
}

/// A condition as a term of another: its only term where it has just one.
pub open spec fn grouped(c: ConditionModel) -> TermModel {
    if c.terms.len() == 1 {
        c.terms[0]
    } else {
        TermModel::Group(c)
    }
}

/// The rows of which some were asked for that meet one more condition. Two conditions
/// of which every term has to be met are one with the terms of both.
pub open spec fn and_meeting(rows: WhereModel, added: ConditionModel) -> WhereModel {
    match rows {
        WhereModel::Every => WhereModel::Meeting(added),
        WhereModel::Meeting(c) => if c.any {
            each(seq![grouped(c), grouped(added)])
        } else if added.any {
            each(c.terms.push(grouped(added)))
        } else {
            each(c.terms + added.terms)
        },
    }
}

/// The rows of which some were asked for that meet one more term.
pub open spec fn and_term(rows: WhereModel, term: TermModel) -> WhereModel {
    and_meeting(rows, ConditionModel { any: false, terms: seq![term] })
}

// --------------------------------------------------------------- outside types
#[verifier::external_type_specification]
#[verifier::external_body]
pub struct ExSelectStatement(sea_query::SelectStatement);

#[verifier::external_type_specification]
#[verifier::external_body]
pub struct ExInsertStatement(sea_query::InsertStatement);

#[verifier::external_type_specification]
#[verifier::external_body]
pub struct ExUpdateStatement(sea_query::UpdateStatement);

#[verifier::external_type_specification]
#[verifier::external_body]
pub struct ExDeleteStatement(sea_query::DeleteStatement);

#[verifier::external_type_specification]
#[verifier::external_body]
pub struct ExCondition(sea_query::Condition);

#[verifier::external_type_specification]
#[verifier::external_body]
pub struct ExValues(sea_query::Values);

/// What a select holds.
pub uninterp spec fn select_parts(s: sea_query::SelectStatement) -> SelectModel;

/// What a condition holds.
pub uninterp spec fn condition_parts(c: sea_query::Condition) -> ConditionModel;

/// What an insert holds.
pub uninterp spec fn insert_parts(s: sea_query::InsertStatement) -> InsertModel;

/// What an update holds.
pub uninterp spec fn update_parts(s: sea_query::UpdateStatement) -> UpdateModel;

/// What a delete holds: its table and the rows it removes.
pub uninterp spec fn delete_parts(s: sea_query::DeleteStatement) -> (Seq<char>, WhereModel);

/// The values a finished statement binds, in order.
pub uninterp spec fn bound_values(v: sea_query::Values) -> Seq<ParamModel>;

/// A select's text and values.
pub uninterp spec fn select_text(s: SelectModel, backend: Backend) -> StatementModel;

/// An insert's text and values.
pub uninterp spec fn insert_text(s: InsertModel, backend: Backend) -> StatementModel;

/// An update's text and values.
pub uninterp spec fn update_text(s: UpdateModel, backend: Backend) -> StatementModel;

/// A delete's text and values.
pub uninterp spec fn delete_text(
    table: Seq<char>,
    rows: WhereModel,
    backend: Backend,
) -> StatementModel;

// ----------------------------------------------------------------- conditions
/// `sea_query::Condition::any`: a condition with no terms yet, of which one has to
/// be met.
#[verifier::external_body]
pub(crate) fn any_of() -> (r: sea_query::Condition)
    ensures
        condition_parts(r) == (ConditionModel { any: true, terms: Seq::empty() }),
{
    sea_query::Condition::any()
}

/// `sea_query::Condition::all`: a condition with no terms yet, of which every one
/// has to be met.
#[verifier::external_body]
pub(crate) fn all_of() -> (r: sea_query::Condition)
    ensures
        condition_parts(r) == (ConditionModel { any: false, terms: Seq::empty() }),
{
    sea_query::Condition::all()
}

/// `sea_query::Condition::add` of an expression: the condition with one more term,
/// that the column in lower case (`Func::lower`) is `LIKE` the pattern, with the
/// backslash as the escape character.
#[verifier::external_body]
pub(crate) fn or_lower_like(
    condition: sea_query::Condition,
    column: &str,
    pattern: &str,
) -> (r: sea_query::Condition)
    ensures
        condition_parts(r) == (ConditionModel {
            terms: condition_parts(condition).terms.push(
                TermModel::LowerLike { column: column@, pattern: pattern@ },
            ),
            ..condition_parts(condition)
        }),
{
    let lowered = sea_query::Func::lower(sea_query::Expr::col(sea_query::Alias::new(column)));
    let pattern = sea_query::LikeExpr::new(pattern).escape('\\');
    condition.add(sea_query::Expr::expr(lowered).like(pattern))
}

/// `sea_query::Condition::add` of an expression: the condition with one more term,
/// that the column equals a number.
#[verifier::external_body]
pub(crate) fn and_int_is(condition: sea_query::Condition, column: &str, value: i64) -> (r:
    sea_query::Condition)
    ensures
        condition_parts(r) == (ConditionModel {
            terms: condition_parts(condition).terms.push(
                TermModel::FieldIs { column: column@, value: ParamModel::Int(value as int) },
            ),
            ..condition_parts(condition)
        }),
{
    condition.add(sea_query::Expr::col(sea_query::Alias::new(column)).eq(value))
}

/// `sea_query::Condition::add` of an expression: the condition with one more term,
/// that the column equals a text.
#[verifier::external_body]
pub(crate) fn and_text_is(condition: sea_query::Condition, column: &str, value: &str) -> (r:
    sea_query::Condition)
    ensures
        condition_parts(r) == (ConditionModel {
            terms: condition_parts(condition).terms.push(
                TermModel::FieldIs { column: column@, value: ParamModel::Text(value@) },
            ),
            ..condition_parts(condition)
        }),
{
    condition.add(sea_query::Expr::col(sea_query::Alias::new(column)).eq(value))
}

/// `sea_query::Condition::add` of a condition: the condition with one more term,
/// which is the added condition, or its only term where it has just one.
#[verifier::external_body]
pub(crate) fn and_condition(condition: sea_query::Condition, added: sea_query::Condition) -> (r:
    sea_query::Condition)
    ensures
        condition_parts(r) == (ConditionModel {
            terms: condition_parts(condition).terms.push(grouped(condition_parts(added))),
            ..condition_parts(condition)
        }),
{
    condition.add(added)
}

// --------------------------------------------------------------------- selects
/// `sea_query::Query::select`: a select that holds nothing yet.
#[verifier::external_body]
pub(crate) fn select() -> (r: sea_query::SelectStatement)
    ensures
        select_parts(r) == empty_select(),
{
    sea_query::Query::select()
}

/// `sea_query::SelectStatement::column`: one more column to read, as it is.
#[verifier::external_body]
pub(crate) fn select_column(s: &mut sea_query::SelectStatement, column: &str)
    ensures
        select_parts(*final(s)) == (SelectModel {
            chosen: select_parts(*old(s)).chosen.push(ChosenModel::Column(column@)),
            ..select_parts(*old(s))
        }),
{
    s.column(sea_query::Alias::new(column));
}

/// `sea_query::SelectStatement::expr_as`: one more thing to read, the column
/// `cast_as` a type, under an alias.
#[verifier::external_body]
pub(crate) fn select_as_text(
    s: &mut sea_query::SelectStatement,
    column: &str,
    cast: &str,
    alias: &str,
)
    ensures
        select_parts(*final(s)) == (SelectModel {
            chosen: select_parts(*old(s)).chosen.push(
                ChosenModel::AsText { column: column@, cast: cast@, alias: alias@ },
            ),
            ..select_parts(*old(s))
        }),
{
    let cast = sea_query::Expr::col(sea_query::Alias::new(column)).cast_as(
        sea_query::Alias::new(cast),
    );
    s.expr_as(cast, sea_query::Alias::new(alias));
}

/// `sea_query::SelectStatement::expr` of `Expr::count`: one more thing to read, the
/// column's count.
#[verifier::external_body]
pub(crate) fn select_count(s: &mut sea_query::SelectStatement, column: &str)
    ensures
        select_parts(*final(s)) == (SelectModel {
            chosen: select_parts(*old(s)).chosen.push(ChosenModel::Count(column@)),
            ..select_parts(*old(s))
        }),
{
    s.expr(sea_query::Expr::col(sea_query::Alias::new(column)).count());
}

/// `sea_query::SelectStatement::from`: one more table to read from.
#[verifier::external_body]
pub(crate) fn select_from(s: &mut sea_query::SelectStatement, table: &str)
    ensures
        select_parts(*final(s)) == (SelectModel {
            tables: select_parts(*old(s)).tables.push(table@),
            ..select_parts(*old(s))
        }),
{
    s.from(sea_query::Alias::new(table));
}

/// `sea_query::SelectStatement::order_by`: one more column to order by.
#[verifier::external_body]
pub(crate) fn select_order(s: &mut sea_query::SelectStatement, column: &str, dir: SortDir)
    ensures
        select_parts(*final(s)) == (SelectModel {
            orders: select_parts(*old(s)).orders.push((column@, dir)),
            ..select_parts(*old(s))
        }),
{
    let order = match dir {
        SortDir::Asc => sea_query::Order::Asc,
        SortDir::Desc => sea_query::Order::Desc,
    };
    s.order_by(sea_query::Alias::new(column), order);
}

/// `sea_query::SelectStatement::limit`: how many rows to read at most, in place of
/// any limit before.
#[verifier::external_body]
pub(crate) fn select_limit(s: &mut sea_query::SelectStatement, limit: u64)
    ensures
        select_parts(*final(s)) == (SelectModel {
            limit: Some(limit as int),
            ..select_parts(*old(s))
        }),
{
    s.limit(limit);
}

/// `sea_query::SelectStatement::offset`: how many rows to pass over, in place of any
/// offset before.
#[verifier::external_body]
pub(crate) fn select_offset(s: &mut sea_query::SelectStatement, offset: u64)
    ensures
        select_parts(*final(s)) == (SelectModel {
            offset: Some(offset as int),
            ..select_parts(*old(s))
        }),
{
    s.offset(offset);
}

/// `sea_query::SelectStatement::cond_where`: one more condition its rows have to meet.
/// The first is kept as it is. After that, an all-condition takes in the terms of
/// another, and takes an any-condition as one term; an any-condition and what follows
/// it become the two terms of an all-condition.
#[verifier::external_body]
pub(crate) fn select_meeting(s: &mut sea_query::SelectStatement, condition: sea_query::Condition)
    ensures
        select_parts(*final(s)) == (SelectModel {
            rows: and_meeting(select_parts(*old(s)).rows, condition_parts(condition)),
            ..select_parts(*old(s))
        }),
{
    s.cond_where(condition);
}

/// `sea_query::SelectStatement::and_where`: one more term its rows have to meet,
/// that the column `cast_as` a type equals a text.
#[verifier::external_body]
pub(crate) fn select_where_text(
    s: &mut sea_query::SelectStatement,
    column: &str,
    cast: &str,
    value: &str,
)
    ensures
        select_parts(*final(s)) == (SelectModel {
            rows: and_term(
                select_parts(*old(s)).rows,
                TermModel::TextIs { column: column@, cast: cast@, text: value@ },
            ),
            ..select_parts(*old(s))
        }),
{
    let column = sea_query::Expr::col(sea_query::Alias::new(column));
    s.and_where(column.cast_as(sea_query::Alias::new(cast)).eq(value));
}

/// `sea_query::SelectStatement::and_where`: one more term its rows have to meet,
/// that the column in lower case (`Func::lower`) is `LIKE` the pattern, with the
/// backslash as the escape character.
#[verifier::external_body]
pub(crate) fn select_where_like(s: &mut sea_query::SelectStatement, column: &str, pattern: &str)
    ensures
        select_parts(*final(s)) == (SelectModel {
            rows: and_term(
                select_parts(*old(s)).rows,
                TermModel::LowerLike { column: column@, pattern: pattern@ },
            ),
            ..select_parts(*old(s))
        }),
{
    let lowered = sea_query::Func::lower(sea_query::Expr::col(sea_query::Alias::new(column)));
    let pattern = sea_query::LikeExpr::new(pattern).escape('\\');
    s.and_where(sea_query::Expr::expr(lowered).like(pattern));
}

/// `sea_query::SelectStatement::and_where`: one more term its rows have to meet,
/// that the column equals a text.
#[verifier::external_body]
pub(crate) fn select_where_is(s: &mut sea_query::SelectStatement, column: &str, value: &str)
    ensures
        select_parts(*final(s)) == (SelectModel {
            rows: and_term(
                select_parts(*old(s)).rows,
                TermModel::FieldIs { column: column@, value: ParamModel::Text(value@) },
            ),
            ..select_parts(*old(s))
        }),
{
    s.and_where(sea_query::Expr::col(sea_query::Alias::new(column)).eq(value));
}

/// `sea_query::SelectStatement::and_where`: one more term its rows have to meet,
/// that the column equals a number.
#[verifier::external_body]
pub(crate) fn select_where_int(s: &mut sea_query::SelectStatement, column: &str, value: i64)
    ensures
        select_parts(*final(s)) == (SelectModel {
            rows: and_term(
                select_parts(*old(s)).rows,
                TermModel::FieldIs { column: column@, value: ParamModel::Int(value as int) },
            ),
            ..select_parts(*old(s))
        }),
{
    s.and_where(sea_query::Expr::col(sea_query::Alias::new(column)).eq(value));
}

/// `sea_query::SelectStatement::and_where`: one more term its rows have to meet,
/// that the column is not null.
#[verifier::external_body]
pub(crate) fn select_where_present(s: &mut sea_query::SelectStatement, column: &str)
    ensures
        select_parts(*final(s)) == (SelectModel {
            rows: and_term(
                select_parts(*old(s)).rows,
                TermModel::Present { column: column@ },
            ),
            ..select_parts(*old(s))
        }),
{
    s.and_where(sea_query::Expr::col(sea_query::Alias::new(column)).is_not_null());
}

// --------------------------------------------------------------------- writes
/// `sea_query::Query::insert` with `into_table`, `columns` and `values_panic`: an
/// insert of one row, each column with its value. There are as many values as
/// columns, so it does not panic.
#[verifier::external_body]
pub(crate) fn insert(table: &str, values: &Vec<(String, Bound)>) -> (r: sea_query::InsertStatement)
    ensures
        insert_parts(r) == (InsertModel {
            table: table@,
            values: values.deep_view(),
            conflict: None,
            returning: None,
        }),
{
    let mut s = sea_query::Query::insert();
    s.into_table(sea_query::Alias::new(table));
    s.columns(values.iter().map(|v| sea_query::Alias::new(&v.0)));
    s.values_panic(
        values.iter().map(
            |v|
                match &v.1 {
                    Bound::Null => Option::<String>::None.into(),
                    Bound::Int(i) => (*i).into(),
                    Bound::Text(t) => t.clone().into(),
                },
        ),
    );
    s
}

/// `sea_query::InsertStatement::on_conflict` with `OnConflict::column` and
/// `update_columns`: where a row with the same key stands already, these columns of
/// it are changed instead.
#[verifier::external_body]
pub(crate) fn insert_or_change(
    s: &mut sea_query::InsertStatement,
    key: &str,
    changed: &Vec<String>,
)
    requires
        insert_parts(*old(s)).conflict is None,
    ensures
        insert_parts(*final(s)) == (InsertModel {
            conflict: Some((key@, changed.deep_view())),
            ..insert_parts(*old(s))
        }),
{
    let mut conflict = sea_query::OnConflict::column(sea_query::Alias::new(key));
    conflict.update_columns(changed.iter().map(sea_query::Alias::new));
    s.on_conflict(conflict);
}

/// `sea_query::InsertStatement::returning_col`: the insert gives back this column of
/// the new row. On MySQL the statement's text leaves it out.
#[verifier::external_body]
pub(crate) fn insert_returning(s: &mut sea_query::InsertStatement, column: &str)
    ensures
        insert_parts(*final(s)) == (InsertModel {
            returning: Some(column@),
            ..insert_parts(*old(s))
        }),
{
    s.returning_col(sea_query::Alias::new(column));
}

/// `sea_query::Query::update` with `table` and `values`: an update of every row,
/// each column to its value.
#[verifier::external_body]
pub(crate) fn update(table: &str, values: &Vec<(String, Bound)>) -> (r: sea_query::UpdateStatement)
    ensures
        update_parts(r) == (UpdateModel {
            table: table@,
            values: values.deep_view(),
            rows: WhereModel::Every,
        }),
{
    let mut s = sea_query::Query::update();
    s.table(sea_query::Alias::new(table));
    let pair = |v: &(String, Bound)|
        match &v.1 {
            Bound::Null => (sea_query::Alias::new(&v.0), Option::<String>::None.into()),
            Bound::Int(i) => (sea_query::Alias::new(&v.0), (*i).into()),
            Bound::Text(t) => (sea_query::Alias::new(&v.0), t.clone().into()),
        };
    s.values(values.iter().map(pair));
    s
}

/// `sea_query::UpdateStatement::and_where`: one more term its rows have to meet,
/// that the column `cast_as` a type equals a text.
#[verifier::external_body]
pub(crate) fn update_where_text(
    s: &mut sea_query::UpdateStatement,
    column: &str,
    cast: &str,
    value: &str,
)
    ensures
        update_parts(*final(s)) == (UpdateModel {
            rows: and_term(
                update_parts(*old(s)).rows,
                TermModel::TextIs { column: column@, cast: cast@, text: value@ },
            ),
            ..update_parts(*old(s))
        }),
{
    let column = sea_query::Expr::col(sea_query::Alias::new(column));
    s.and_where(column.cast_as(sea_query::Alias::new(cast)).eq(value));
}

/// `sea_query::UpdateStatement::and_where`: one more term its rows have to meet,
/// that the column equals a text.
#[verifier::external_body]
pub(crate) fn update_where_is(s: &mut sea_query::UpdateStatement, column: &str, value: &str)
    ensures
        update_parts(*final(s)) == (UpdateModel {
            rows: and_term(
                update_parts(*old(s)).rows,
                TermModel::FieldIs { column: column@, value: ParamModel::Text(value@) },
            ),
            ..update_parts(*old(s))
        }),
{
    s.and_where(sea_query::Expr::col(sea_query::Alias::new(column)).eq(value));
}

/// `sea_query::Query::delete` with `from_table` and `and_where`: a delete of the
/// rows whose column, `cast_as` a type, equals a text.
#[verifier::external_body]
pub(crate) fn delete(table: &str, column: &str, cast: &str, value: &str) -> (r:
    sea_query::DeleteStatement)
    ensures
        delete_parts(r) == (
            table@,
            each(seq![TermModel::TextIs { column: column@, cast: cast@, text: value@ }]),
        ),
{
    let mut s = sea_query::Query::delete();
    s.from_table(sea_query::Alias::new(table));
    let row = sea_query::Expr::col(sea_query::Alias::new(column));
    s.and_where(row.cast_as(sea_query::Alias::new(cast)).eq(value));
    s
}

// ------------------------------------------------------------------- rendering
/// `sea_query::Values`, value by value. A value of a kind that no statement here
/// binds is given as absent.
#[verifier::external_body]
fn params(values: sea_query::Values) -> (r: Vec<Param>)
    ensures
        r.deep_view() == bound_values(values),
{
    let param = |v| match v {
        sea_query::Value::Bool(Some(b)) => Param::Bool(b),
        sea_query::Value::BigInt(Some(i)) => Param::Int(i),
        sea_query::Value::BigUnsigned(Some(n)) => Param::Count(n),
        sea_query::Value::String(Some(s)) => Param::Text(*s),
        _ => Param::Absent,
    };
    values.into_iter().map(param).collect()
}

/// `sea_query::SelectStatement::build` for a backend's dialect.
#[verifier::external_body]
fn build_select(s: &sea_query::SelectStatement, backend: Backend) -> (r: (
    String,
    sea_query::Values,
))
    ensures
        (StatementModel { sql: r.0@, params: bound_values(r.1) }) == select_text(
            select_parts(*s),
            backend,
        ),
{
    match backend {
        Backend::Postgres => s.build(sea_query::PostgresQueryBuilder),
        Backend::MySql => s.build(sea_query::MysqlQueryBuilder),
        Backend::Sqlite => s.build(sea_query::SqliteQueryBuilder),
    }
}

/// `sea_query::InsertStatement::build` for a backend's dialect.
#[verifier::external_body]
fn build_insert(s: &sea_query::InsertStatement, backend: Backend) -> (r: (
    String,
    sea_query::Values,
))
    ensures
        (StatementModel { sql: r.0@, params: bound_values(r.1) }) == insert_text(
            insert_parts(*s),
            backend,
        ),
{
    match backend {
        Backend::Postgres => s.build(sea_query::PostgresQueryBuilder),
        Backend::MySql => s.build(sea_query::MysqlQueryBuilder),
        Backend::Sqlite => s.build(sea_query::SqliteQueryBuilder),
    }
}

/// `sea_query::UpdateStatement::build` for a backend's dialect.
#[verifier::external_body]
fn build_update(s: &sea_query::UpdateStatement, backend: Backend) -> (r: (
    String,
    sea_query::Values,
))
    ensures
        (StatementModel { sql: r.0@, params: bound_values(r.1) }) == update_text(
            update_parts(*s),
            backend,
        ),
{
    match backend {
        Backend::Postgres => s.build(sea_query::PostgresQueryBuilder),
        Backend::MySql => s.build(sea_query::MysqlQueryBuilder),
        Backend::Sqlite => s.build(sea_query::SqliteQueryBuilder),
    }
}

/// `sea_query::DeleteStatement::build` for a backend's dialect.
#[verifier::external_body]
fn build_delete(s: &sea_query::DeleteStatement, backend: Backend) -> (r: (
    String,
    sea_query::Values,
))
    ensures
        (StatementModel { sql: r.0@, params: bound_values(r.1) }) == delete_text(
            delete_parts(*s).0,
            delete_parts(*s).1,
            backend,
        ),
{
    match backend {
        Backend::Postgres => s.build(sea_query::PostgresQueryBuilder),
        Backend::MySql => s.build(sea_query::MysqlQueryBuilder),
        Backend::Sqlite => s.build(sea_query::SqliteQueryBuilder),
    }
}

/// A select, ready to run.
pub(crate) fn finish_select(s: &sea_query::SelectStatement, backend: Backend) -> (r: Statement)
    ensures
        r.deep_view() == select_text(select_parts(*s), backend),
{
    let (sql, values) = build_select(s, backend);
    Statement { sql, params: params(values) }
}

/// An insert of one row, ready to run.
pub fn insert_row(table: &str, values: &Vec<(String, Bound)>, backend: Backend) -> (r: Statement)
    ensures
        r.deep_view() == insert_text(
            InsertModel {
                table: table@,
                values: values.deep_view(),
                conflict: None,
                returning: None,
            },
            backend,
        ),
{
    let (sql, values) = build_insert(&insert(table, values), backend);
    Statement { sql, params: params(values) }
}

/// An insert of one row that gives back a column of it, ready to run. MySQL has no
/// such clause: there the statement is the plain insert.
pub fn insert_row_returning(
    table: &str,
    values: &Vec<(String, Bound)>,
    column: &str,
    backend: Backend,
) -> (r: Statement)
    ensures
        r.deep_view() == insert_text(
            InsertModel {
                table: table@,
                values: values.deep_view(),
                conflict: None,
                returning: Some(column@),
            },
            backend,
        ),
{
    let mut s = insert(table, values);
    insert_returning(&mut s, column);
    let (sql, values) = build_insert(&s, backend);
    Statement { sql, params: params(values) }
}

/// An insert of one row that changes some columns of a standing one, ready to run.
pub fn upsert_row(
    table: &str,
    values: &Vec<(String, Bound)>,
    key: &str,
    changed: &Vec<String>,
    backend: Backend,
) -> (r: Statement)
    ensures
        r.deep_view() == insert_text(
            InsertModel {
                table: table@,
                values: values.deep_view(),
                conflict: Some((key@, changed.deep_view())),
                returning: None,
            },
            backend,
        ),
{
    let mut s = insert(table, values);
    insert_or_change(&mut s, key, changed);
    let (sql, values) = build_insert(&s, backend);
    Statement { sql, params: params(values) }
}

/// The rows whose column reads as a text.
pub open spec fn reading_as(column: Seq<char>, value: Seq<char>, backend: Backend) -> WhereModel {
    each(seq![TermModel::TextIs { column, cast: cast_of(backend), text: value }])
}

/// The rows whose column is a text.
pub open spec fn named(column: Seq<char>, value: Seq<char>) -> WhereModel {
    each(seq![TermModel::FieldIs { column, value: ParamModel::Text(value) }])
}

/// An update of the rows whose column reads as a text, ready to run.
pub fn update_rows(
    table: &str,
    values: &Vec<(String, Bound)>,
    column: &str,
    value: &str,
    backend: Backend,
) -> (r: Statement)
    ensures
        r.deep_view() == update_text(
            UpdateModel {
                table: table@,
                values: values.deep_view(),
                rows: reading_as(column@, value@, backend),
            },
            backend,
        ),
{
    let mut s = update(table, values);
    update_where_text(&mut s, column, text_cast(backend), value);
    let (sql, values) = build_update(&s, backend);
    Statement { sql, params: params(values) }
}

/// An update of the rows whose column is a text, ready to run.
pub fn update_named(
    table: &str,
    values: &Vec<(String, Bound)>,
    column: &str,
    value: &str,
    backend: Backend,
) -> (r: Statement)
    ensures
        r.deep_view() == update_text(
            UpdateModel {
                table: table@,
                values: values.deep_view(),
                rows: named(column@, value@),
            },
            backend,
        ),
{
    let mut s = update(table, values);
    update_where_is(&mut s, column, value);
    let (sql, values) = build_update(&s, backend);
    Statement { sql, params: params(values) }
}

/// A delete of the rows whose column reads as a text, ready to run.
pub fn delete_rows(table: &str, column: &str, value: &str, backend: Backend) -> (r: Statement)
    ensures
        r.deep_view() == delete_text(table@, reading_as(column@, value@, backend), backend),
{
    let s = delete(table, column, text_cast(backend), value);
    let (sql, values) = build_delete(&s, backend);
    Statement { sql, params: params(values) }
}

// -------------------------------------------------------------------- one row
/// Some columns, each as text under its own name.
pub open spec fn as_texts(columns: Seq<Seq<char>>, cast: Seq<char>) -> Seq<ChosenModel> {
    columns.map_values(|c: Seq<char>| ChosenModel::AsText { column: c, cast, alias: c })
}

/// A read of the row whose id column reads as a text: these columns, as text.
pub open spec fn row_read(
    table: Seq<char>,
    columns: Seq<Seq<char>>,
    id_field: Seq<char>,
    id: Seq<char>,
    backend: Backend,
) -> SelectModel {
    SelectModel {
        chosen: as_texts(columns, cast_of(backend)),
        tables: seq![table],
        rows: reading_as(id_field, id, backend),
        ..empty_select()
    }
}

/// Adds some columns to a select, each as text under its own name.
pub(crate) fn select_texts(s: &mut sea_query::SelectStatement, columns: &Vec<String>, cast: &str)
    ensures
        select_parts(*final(s)) == (SelectModel {
            chosen: select_parts(*old(s)).chosen + as_texts(columns.deep_view(), cast@),
            ..select_parts(*old(s))
        }),
{
    let ghost all = columns.deep_view();
    let ghost start = select_parts(*old(s));
    let ghost want = as_texts(all, cast@);
    let mut i: usize = 0;
    assert(start.chosen + want.take(0) =~= start.chosen);
    while i < columns.len()
        invariant
            i <= columns.len(),
            all == columns.deep_view(),
            want == as_texts(all, cast@),
            select_parts(*s) == (SelectModel {
                chosen: start.chosen + want.take(i as int),
                ..start
            }),
        decreases columns.len() - i,
    {
        assert(all[i as int] == columns@[i as int]@);
        let c: &str = columns[i].as_str();
        select_as_text(s, c, cast, c);
        assert(start.chosen + want.take(i + 1) =~= (start.chosen + want.take(i as int)).push(
            want[i as int],
        ));
        i = i + 1;
    }
    assert(want.take(want.len() as int) =~= want);
}

/// A read of the row whose id column reads as a text: these columns, as text.
pub fn read_row(
    table: &str,
    columns: &Vec<String>,
    id_field: &str,
    id: &str,
    backend: Backend,
) -> (r: Statement)
    ensures
        r.deep_view() == select_text(
            row_read(table@, columns.deep_view(), id_field@, id@, backend),
            backend,
        ),
{
    let cast: &str = text_cast(backend);
    let mut s = select();
    select_texts(&mut s, columns, cast);
    select_from(&mut s, table);
    select_where_text(&mut s, id_field, cast, id);
    proof {
        let want = row_read(table@, columns.deep_view(), id_field@, id@, backend);
        assert(select_parts(s).chosen =~= want.chosen);
        assert(select_parts(s).tables =~= want.tables);
    }
    finish_select(&s, backend)
}

} // verus!
