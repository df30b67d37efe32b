//! The write path of a record: the pipeline around a write, and the built-in
//! write itself.
//!
//! A form's write is a handler chosen at boot: the descriptor-driven default, or
//! one a module registered. Around it runs a pipeline that owns the transaction:
//! listeners see the record first and may refuse it, then the handler writes,
//! then the commit, and only then the listeners' after-stage.

use vstd::prelude::*;

use crate::attr::{
    bare_record, held, put, AttrModel, AttrValue, ErrorBag, Record, RecordModel, Scalar,
    ScalarModel,
};
use crate::form::{FormConfig, FormFieldModel};
use crate::list::{ColumnModel, ListConfig};
use crate::nums::{i64_of, parse_i64};
use crate::sql::{is_ident, valid_ident};
use crate::strs::{listed, same};
use crate::statements::{
    delete_rows, delete_text, insert_row_returning, insert_text, read_row, reading_as, row_read,
    select_text, update_rows, update_text, Backend, InsertModel, Statement, UpdateModel,
};
use crate::text::{plain, Text, TextModel};

verus! {

// --------------------------------------------------------------------- errors
/// Why a persist failed.
pub enum SaveError {
    /// A persist-time domain check: the form shows these per-field messages.
    Invalid(ErrorBag),
    /// The write itself failed: the form shows the generic banner.
    Failed(String),
}

/// A [`SaveError`], over characters.
pub enum SaveErrorModel {
    Invalid(Seq<(Seq<char>, TextModel)>),
    Failed(Seq<char>),
}

impl DeepView for SaveError {
    type V = SaveErrorModel;

    open spec fn deep_view(&self) -> SaveErrorModel {
        match self {
            SaveError::Invalid(bag) => SaveErrorModel::Invalid(bag@),
            SaveError::Failed(m) => SaveErrorModel::Failed(m@),
        }
    }
}

/// Why a delete failed.
pub enum DeleteError {
    /// A listener or the persister refused it: one sentence for the operator.
    Refused(Text),
    /// The delete itself failed: the operator sees a generic message.
    Failed(String),
}

/// A [`DeleteError`], over characters.
pub enum DeleteErrorModel {
    Refused(TextModel),
    Failed(Seq<char>),
}

impl DeepView for DeleteError {
    type V = DeleteErrorModel;

    open spec fn deep_view(&self) -> DeleteErrorModel {
        match self {
            DeleteError::Refused(t) => DeleteErrorModel::Refused(t@),
            DeleteError::Failed(m) => DeleteErrorModel::Failed(m@),
        }
    }
}

/// What a persister without a delete of its own answers: a write through more
/// than one table has to say how those rows come apart, and guessing at that is
/// worse than declining.
pub fn unsupported_delete() -> (r: DeleteError)
    ensures
        r.deep_view() == DeleteErrorModel::Refused(
            plain("Deleting this kind of record is not supported."@),
        ),
{
    DeleteError::Refused(Text::new("Deleting this kind of record is not supported."))
}

/// What a failed read of the row means for a delete.
pub fn snapshot_failure(e: SaveError) -> (r: DeleteError)
    ensures
        r.deep_view() == (match e.deep_view() {
            SaveErrorModel::Invalid(_) => DeleteErrorModel::Failed("snapshot read refused"@),
            SaveErrorModel::Failed(m) => DeleteErrorModel::Failed(m),
        }),
{
    match e {
        SaveError::Invalid(_) => DeleteError::Failed("snapshot read refused".to_owned()),
        SaveError::Failed(m) => DeleteError::Failed(m),
    }
}

// -------------------------------------------------------------------- binding
/// One value as the storage layer takes it.
#[derive(Debug)]
pub enum Bound {
    Null,
    Int(i64),
    Text(String),
}

/// A [`Bound`], over characters.
pub enum BoundModel {
    Null,
    Int(int),
    Text(Seq<char>),
}

impl DeepView for Bound {
    type V = BoundModel;

    open spec fn deep_view(&self) -> BoundModel {
        match self {
            Bound::Null => BoundModel::Null,
            Bound::Int(i) => BoundModel::Int(*i as int),
            Bound::Text(s) => BoundModel::Text(s@),
        }
    }
}

/// The text of a list of rows as JSON.
pub uninterp spec fn json_rows_text(rows: Seq<Seq<(Seq<char>, ScalarModel)>>) -> Seq<char>;

/// `serde_json::to_string` of an array of `serde_json::Map` objects whose members
/// are the given pairs: null, a number, a boolean or a string each. The text is
/// the crate's own.
#[verifier::external_body]
fn rows_to_json(rows: &Vec<Vec<(String, Scalar)>>) -> (r: String)
    ensures
        r@ == json_rows_text(rows.deep_view()),
{
    let value = |v: &Scalar| match v {
        Scalar::Null => serde_json::Value::Null,
        Scalar::Int(i) => serde_json::Value::from(*i),
        Scalar::Bool(b) => serde_json::Value::Bool(*b),
        Scalar::Text(s) => serde_json::Value::String(s.clone()),
    };
    let objects: Vec<serde_json::Map<String, serde_json::Value>> = rows
        .iter()
        .map(|row| row.iter().map(|(k, v)| (k.clone(), value(v))).collect())
        .collect();
    serde_json::to_string(&objects).unwrap_or_default()
}

/// One attribute as the storage layer takes it. Absent, null and empty text are
/// all NULL, so an optional non-text column stores correctly instead of failing
/// on an empty text. Booleans are integers, the one representation every backend
/// indexes, and rows are their JSON text.
pub open spec fn bound(value: Option<AttrModel>) -> BoundModel {
    match value {
        None => BoundModel::Null,
        Some(AttrModel::Null) => BoundModel::Null,
        Some(AttrModel::Int(i)) => BoundModel::Int(i),
        Some(AttrModel::Bool(b)) => BoundModel::Int(
            if b {
                1
            } else {
                0
            },
        ),
        Some(AttrModel::Text(s)) => if s.len() == 0 {
            BoundModel::Null
        } else {
            BoundModel::Text(s)
        },
        Some(AttrModel::Rows(rows)) => BoundModel::Text(json_rows_text(rows)),
    }
}

/// Binds one attribute for the storage layer.
pub fn bind(value: Option<&AttrValue>) -> (r: Bound)
    ensures
        r.deep_view() == bound(value.deep_view()),
{
    match value {
        None => Bound::Null,
        Some(AttrValue::Null) => Bound::Null,
        Some(AttrValue::Int(i)) => Bound::Int(*i),
        Some(AttrValue::Bool(b)) => if *b {
            Bound::Int(1)
        } else {
            Bound::Int(0)
        },
        Some(AttrValue::Text(s)) => if s.as_str().unicode_len() == 0 {
            Bound::Null
        } else {
            Bound::Text(s.clone())
        },
        Some(AttrValue::Rows(rows)) => Bound::Text(rows_to_json(rows)),
    }
}

// ----------------------------------------------------------- built-in persister
/// The built-in write: a single insert or update over the descriptor's own
/// columns, what every form gets unless it names another.
pub struct DefaultPersister {
    pub entity: String,
    pub id_field: String,
    pub columns: Vec<String>,
}

/// A [`DefaultPersister`], over characters.
pub struct PersisterModel {
    pub entity: Seq<char>,
    pub id_field: Seq<char>,
    pub columns: Seq<Seq<char>>,
}

impl DeepView for DefaultPersister {
    type V = PersisterModel;

    open spec fn deep_view(&self) -> PersisterModel {
        PersisterModel {
            entity: self.entity@,
            id_field: self.id_field@,
            columns: self.columns.deep_view(),
        }
    }
}

/// The keys of some pairs.
pub open spec fn keys_of<V>(pairs: Seq<(Seq<char>, V)>) -> Seq<Seq<char>> {
    pairs.map_values(|p: (Seq<char>, V)| p.0)
}

/// The columns with the keys that are none of them added, but for the id.
pub open spec fn widened(
    columns: Seq<Seq<char>>,
    keys: Seq<Seq<char>>,
    id: Seq<char>,
) -> Seq<Seq<char>>
    decreases keys.len(),
{
    if keys.len() == 0 {
        columns
    } else {
        let w = widened(columns, keys.drop_last(), id);
        if keys.last() != id && !w.contains(keys.last()) {
            w.push(keys.last())
        } else {
            w
        }
    }
}

/// Whether a column may be written: an identifier that is not the id.
pub open spec fn storable(id: Seq<char>) -> spec_fn(Seq<char>) -> bool {
    |c: Seq<char>| c != id && is_ident(c)
}

/// The columns a write names: the descriptor's own, then any attribute a listener
/// added, without the id and without anything that is no identifier.
pub open spec fn written(
    columns: Seq<Seq<char>>,
    keys: Seq<Seq<char>>,
    id: Seq<char>,
) -> Seq<Seq<char>> {
    widened(columns, keys, id).filter(storable(id))
}

/// Widening keeps every column and adds nothing but the keys.
proof fn lemma_widened(columns: Seq<Seq<char>>, keys: Seq<Seq<char>>, id: Seq<char>, c: Seq<char>)
    ensures
        widened(columns, keys, id).contains(c) <==> columns.contains(c) || (keys.contains(c) && c
            != id),
    decreases keys.len(),
{
    if keys.len() > 0 {
        let init = keys.drop_last();
        lemma_widened(columns, init, id, c);
        lemma_widened(columns, init, id, keys.last());
        let w = widened(columns, init, id);
        let now = widened(columns, keys, id);
        if keys.contains(c) {
            let j = choose|j: int| 0 <= j < keys.len() && keys[j] == c;
            if j < init.len() {
                assert(init[j] == c);
                assert(init.contains(c));
            }
        }
        if init.contains(c) {
            let j = choose|j: int| 0 <= j < init.len() && init[j] == c;
            assert(keys[j] == c);
        }
        if now.contains(c) {
            let j = choose|j: int| 0 <= j < now.len() && now[j] == c;
            if j < w.len() {
                assert(w[j] == c);
                assert(w.contains(c));
            } else {
                assert(keys[keys.len() - 1] == c);
            }
        }
        if w.contains(c) {
            let j = choose|j: int| 0 <= j < w.len() && w[j] == c;
            assert(now[j] == c);
        }
        if c == keys.last() && c != id && !w.contains(c) {
            assert(now[w.len() as int] == c);
        }
    }
}

/// A write names every declared column and every attribute the record holds, so
/// far as they are identifiers, and never the id.
pub proof fn law_a_write_names_what_is_declared_or_set(
    columns: Seq<Seq<char>>,
    keys: Seq<Seq<char>>,
    id: Seq<char>,
    c: Seq<char>,
)
    ensures
        written(columns, keys, id).contains(c) <==> c != id && is_ident(c) && (columns.contains(c)
            || keys.contains(c)),
        !written(columns, keys, id).contains(id),
{
    lemma_widened(columns, keys, id, c);
    let p = storable(id);
    let w = widened(columns, keys, id);
    lemma_filter_holds(w, p, c);
    lemma_filter_holds(w, p, id);
}

/// A filtered list holds what the list holds and the predicate accepts.
proof fn lemma_filter_holds(s: Seq<Seq<char>>, p: spec_fn(Seq<char>) -> bool, c: Seq<char>)
    ensures
        s.filter(p).contains(c) <==> s.contains(c) && p(c),
    decreases s.len(),
{
    reveal(Seq::filter);
    if s.len() > 0 {
        let init = s.drop_last();
        lemma_filter_holds(init, p, c);
        let f = init.filter(p);
        let now = s.filter(p);
        if s.contains(c) {
            let j = choose|j: int| 0 <= j < s.len() && s[j] == c;
            if j < init.len() {
                assert(init[j] == c);
            }
        }
        if init.contains(c) {
            let j = choose|j: int| 0 <= j < init.len() && init[j] == c;
            assert(s[j] == c);
        }
        if f.contains(c) {
            let j = choose|j: int| 0 <= j < f.len() && f[j] == c;
            assert(now[j] == c);
        }
        if now.contains(c) {
            let j = choose|j: int| 0 <= j < now.len() && now[j] == c;
            if j < f.len() {
                assert(f[j] == c);
            } else {
                assert(s[s.len() - 1] == c);
            }
        }
        if s.last() == c && p(c) {
            assert(now[f.len() as int] == c);
        }
    }
}

/// What a write stores: each column with what the record holds for it.
pub open spec fn stored_values(columns: Seq<Seq<char>>, attrs: Seq<(Seq<char>, AttrModel)>) -> Seq<
    (Seq<char>, BoundModel),
> {
    columns.map_values(|c: Seq<char>| (c, bound(held(attrs, c))))
}

impl DefaultPersister {
    /// A persister over a list's own table, for a resource whose writes are not a
    /// generic form. The list's columns become the snapshot a listener sees.
    pub fn from_list(config: &ListConfig) -> (r: Self)
        ensures
            r.deep_view() == (PersisterModel {
                entity: config.deep_view().entity,
                id_field: config.deep_view().id_field,
                columns: config.deep_view().columns.map_values(|c: ColumnModel| c.field),
            }),
    {
        let ghost all = config.columns.deep_view();
        let mut columns: Vec<String> = Vec::new();
        let mut i: usize = 0;
        while i < config.columns.len()
            invariant
                i <= config.columns.len(),
                all == config.columns.deep_view(),
                columns.len() == i,
                forall|j: int| 0 <= j < i ==> #[trigger] columns@[j]@ == all[j].field,
            decreases config.columns.len() - i,
        {
            columns.push(config.columns[i].field.clone());
            i = i + 1;
        }
        assert(columns.deep_view() =~= all.map_values(|c: ColumnModel| c.field));
        DefaultPersister {
            entity: config.entity.clone(),
            id_field: config.id_field.clone(),
            columns,
        }
    }

    /// A persister over a form's own columns.
    pub fn from_config(config: &FormConfig) -> (r: Self)
        ensures
            r.deep_view() == (PersisterModel {
                entity: config.deep_view().entity,
                id_field: config.deep_view().id_field,
                columns: config.deep_view().fields.map_values(|f: FormFieldModel| f.name),
            }),
    {
        let ghost all = config.fields.deep_view();
        let mut columns: Vec<String> = Vec::new();
        let mut i: usize = 0;
        while i < config.fields.len()
            invariant
                i <= config.fields.len(),
                all == config.fields.deep_view(),
                columns.len() == i,
                forall|j: int| 0 <= j < i ==> #[trigger] columns@[j]@ == all[j].name,
            decreases config.fields.len() - i,
        {
            columns.push(config.fields[i].name.clone());
            i = i + 1;
        }
        assert(columns.deep_view() =~= all.map_values(|f: FormFieldModel| f.name));
        DefaultPersister {
            entity: config.entity.clone(),
            id_field: config.id_field.clone(),
            columns,
        }
    }

    /// The columns to write. Widening past the descriptor means a listener's
    /// `created_at` is written rather than silently dropped; the form admits only
    /// descriptor fields, so nothing a request submitted can reach a column it did
    /// not declare.
    pub fn write_columns(&self, rec: &Record) -> (r: Vec<String>)
        ensures
            r.deep_view() == written(
                self.deep_view().columns,
                keys_of(rec@.attrs),
                self.deep_view().id_field,
            ),
    {
        let mut cols: Vec<String> = crate::strs::copy_list(&self.columns);
        let ghost own = self.columns.deep_view();
        let ghost keys = keys_of(rec@.attrs);
        let ghost id = self.id_field@;
        let mut i: usize = 0;
        assert(cols.deep_view() =~= widened(own, keys.take(0), id));
        while i < rec.attrs.len()
            invariant
                i <= rec.attrs.len(),
                own == self.columns.deep_view(),
                keys == keys_of(rec@.attrs),
                id == self.id_field@,
                cols.deep_view() == widened(own, keys.take(i as int), id),
            decreases rec.attrs.len() - i,
        {
            let key: &str = rec.attrs[i].0.as_str();
            let ghost before = cols.deep_view();
            assert(keys.take(i + 1).drop_last() =~= keys.take(i as int));
            assert(keys.take(i + 1).last() == key@);
            if !same(key, self.id_field.as_str()) && !listed(&cols, key) {
                cols.push(rec.attrs[i].0.clone());
                assert(cols.deep_view() =~= before.push(key@));
            }
            i = i + 1;
        }
        assert(keys.take(keys.len() as int) =~= keys);
        let ghost wide = cols.deep_view();
        let ghost p = storable(id);
        let mut r: Vec<String> = Vec::new();
        let mut k: usize = 0;
        proof {
            reveal(Seq::filter);
        }
        assert(r.deep_view() =~= wide.take(0).filter(p));
        while k < cols.len()
            invariant
                k <= cols.len(),
                wide == cols.deep_view(),
                id == self.id_field@,
                p == storable(id),
                r.deep_view() == wide.take(k as int).filter(p),
            decreases cols.len() - k,
        {
            let ghost before = r.deep_view();
            assert(wide.take(k + 1).drop_last() =~= wide.take(k as int));
            assert(wide.take(k + 1).last() == cols@[k as int]@);
            if !same(cols[k].as_str(), self.id_field.as_str()) && valid_ident(cols[k].as_str()) {
                r.push(cols[k].clone());
                assert(r.deep_view() =~= before.push(cols@[k as int]@));
            }
            proof {
                reveal(Seq::filter);
            }
            k = k + 1;
        }
        assert(wide.take(wide.len() as int) =~= wide);
        r
    }

    /// What a write stores, column by column. The id is database-assigned, so it
    /// is never among them.
    pub fn values(&self, rec: &Record) -> (r: Vec<(String, Bound)>)
        ensures
            r.deep_view() == stored_values(
                written(
                    self.deep_view().columns,
                    keys_of(rec@.attrs),
                    self.deep_view().id_field,
                ),
                rec@.attrs,
            ),
    {
        let cols: Vec<String> = self.write_columns(rec);
        let ghost names = cols.deep_view();
        let ghost attrs = rec@.attrs;
        let mut r: Vec<(String, Bound)> = Vec::new();
        let mut i: usize = 0;
        while i < cols.len()
            invariant
                i <= cols.len(),
                names == cols.deep_view(),
                attrs == rec@.attrs,
                r.len() == i,
                forall|j: int|
                    0 <= j < i ==> #[trigger] r@[j].deep_view() == (
                        names[j],
                        bound(held(attrs, names[j])),
                    ),
            decreases cols.len() - i,
        {
            assert(names[i as int] == cols@[i as int]@);
            r.push((cols[i].clone(), bind(rec.get(cols[i].as_str()))));
            i = i + 1;
        }
        assert(r.deep_view() =~= stored_values(names, attrs));
        r
    }

    /// The insert of a record, which gives back the id the database assigned.
    pub fn insert_statement(&self, rec: &Record, backend: Backend) -> (r: Statement)
        ensures
            r.deep_view() == insert_text(
                InsertModel {
                    table: self.deep_view().entity,
                    values: stored_values(
                        written(
                            self.deep_view().columns,
                            keys_of(rec@.attrs),
                            self.deep_view().id_field,
                        ),
                        rec@.attrs,
                    ),
                    conflict: None,
                    returning: Some(self.deep_view().id_field),
                },
                backend,
            ),
    {
        insert_row_returning(
            self.entity.as_str(),
            &self.values(rec),
            self.id_field.as_str(),
            backend,
        )
    }

    /// The update of the row whose id reads as `id`.
    pub fn update_statement(&self, id: &str, rec: &Record, backend: Backend) -> (r: Statement)
        ensures
            r.deep_view() == update_text(
                UpdateModel {
                    table: self.deep_view().entity,
                    values: stored_values(
                        written(
                            self.deep_view().columns,
                            keys_of(rec@.attrs),
                            self.deep_view().id_field,
                        ),
                        rec@.attrs,
                    ),
                    rows: reading_as(self.deep_view().id_field, id@, backend),
                },
                backend,
            ),
    {
        update_rows(
            self.entity.as_str(),
            &self.values(rec),
            self.id_field.as_str(),
            id,
            backend,
        )
    }

    /// The removal of the row whose id reads as `id`.
    pub fn delete_statement(&self, id: &str, backend: Backend) -> (r: Statement)
        ensures
            r.deep_view() == delete_text(
                self.deep_view().entity,
                reading_as(self.deep_view().id_field, id@, backend),
                backend,
            ),
    {
        delete_rows(self.entity.as_str(), self.id_field.as_str(), id, backend)
    }

    /// The read of the row whose id reads as `id`, for its snapshot.
    pub fn load_statement(&self, id: &str, backend: Backend) -> (r: Statement)
        ensures
            r.deep_view() == select_text(
                row_read(
                    self.deep_view().entity,
                    self.deep_view().columns,
                    self.deep_view().id_field,
                    id@,
                    backend,
                ),
                backend,
            ),
    {
        read_row(self.entity.as_str(), &self.columns, self.id_field.as_str(), id, backend)
    }

    /// The row as it was read: each declared column's text, or null. A column that
    /// could not be read fails the whole read. `cells` has one entry per column.
    pub fn snapshot(&self, cells: &Vec<Result<Option<String>, String>>) -> (r: Result<
        Record,
        SaveError,
    >)
        requires
            cells.len() == self.columns.len(),
        ensures
            match snapshot_attrs(self.deep_view().columns, cells_model(cells@)) {
                Ok(attrs) => r is Ok && (r->Ok_0)@ == (RecordModel {
                    attrs,
                    ..bare_record(self.deep_view().entity)
                }),
                Err(e) => r is Err && (r->Err_0).deep_view() == SaveErrorModel::Failed(e),
            },
    {
        let ghost columns = self.columns.deep_view();
        let ghost read = cells_model(cells@);
        let mut previous: Record = Record::new(self.entity.as_str());
        let mut i: usize = 0;
        while i < cells.len()
            invariant
                i <= cells.len(),
                cells.len() == self.columns.len(),
                columns == self.columns.deep_view(),
                read == cells_model(cells@),
                previous@ == (RecordModel {
                    attrs: previous@.attrs,
                    ..bare_record(self.entity@)
                }),
                snapshot_attrs(columns.take(i as int), read.take(i as int)) == Ok::<
                    Seq<(Seq<char>, AttrModel)>,
                    Seq<char>,
                >(previous@.attrs),
            decreases cells.len() - i,
        {
            assert(columns.take(i + 1).drop_last() =~= columns.take(i as int));
            assert(read.take(i + 1).drop_last() =~= read.take(i as int));
            assert(columns.take(i + 1).last() == self.columns@[i as int]@);
            assert(read.take(i + 1).last() == cell_model(cells@[i as int]));
            match &cells[i] {
                Ok(Some(v)) => {
                    previous.set(self.columns[i].as_str(), AttrValue::Text(v.clone()));
                },
                Ok(None) => {
                    previous.set(self.columns[i].as_str(), AttrValue::Null);
                },
                Err(e) => {
                    proof {
                        lemma_snapshot_failed(columns, read, i + 1);
                    }
                    return Err(SaveError::Failed(e.clone()));
                },
            }
            i = i + 1;
        }
        assert(columns.take(columns.len() as int) =~= columns);
        assert(read.take(read.len() as int) =~= read);
        Ok(previous)
    }
}

/// What was read of a column, over characters.
pub open spec fn cell_model(cell: Result<Option<String>, String>) -> Result<
    Option<Seq<char>>,
    Seq<char>,
> {
    match cell {
        Ok(Some(v)) => Ok(Some(v@)),
        Ok(None) => Ok(None),
        Err(e) => Err(e@),
    }
}

/// What was read of some columns, over characters.
pub open spec fn cells_model(cells: Seq<Result<Option<String>, String>>) -> Seq<
    Result<Option<Seq<char>>, Seq<char>>,
> {
    cells.map_values(|c: Result<Option<String>, String>| cell_model(c))
}

/// The attributes a read comes to, or the first failure.
pub open spec fn snapshot_attrs(
    columns: Seq<Seq<char>>,
    cells: Seq<Result<Option<Seq<char>>, Seq<char>>>,
) -> Result<Seq<(Seq<char>, AttrModel)>, Seq<char>>
    decreases columns.len(),
{
    if columns.len() == 0 {
        Ok(Seq::empty())
    } else {
        match snapshot_attrs(columns.drop_last(), cells.drop_last()) {
            Err(e) => Err(e),
            Ok(attrs) => match cells.last() {
                Err(e) => Err(e),
                Ok(Some(v)) => Ok(put(attrs, columns.last(), AttrModel::Text(v))),
                Ok(None) => Ok(put(attrs, columns.last(), AttrModel::Null)),
            },
        }
    }
}

/// A failure among the first columns is the read's.
proof fn lemma_snapshot_failed(
    columns: Seq<Seq<char>>,
    cells: Seq<Result<Option<Seq<char>>, Seq<char>>>,
    n: int,
)
    requires
        0 <= n <= columns.len(),
        cells.len() == columns.len(),
        snapshot_attrs(columns.take(n), cells.take(n)) is Err,
    ensures
        snapshot_attrs(columns, cells) == snapshot_attrs(columns.take(n), cells.take(n)),
    decreases columns.len() - n,
{
    if n == columns.len() {
        assert(columns.take(n) =~= columns);
        assert(cells.take(n) =~= cells);
    } else {
        assert(columns.take(n + 1).drop_last() =~= columns.take(n));
        assert(cells.take(n + 1).drop_last() =~= cells.take(n));
        lemma_snapshot_failed(columns, cells, n + 1);
    }
}

// ------------------------------------------------------------------- pipeline
/// What is being done to a record.
#[derive(Clone, Copy, Debug, PartialEq, Eq, Structural)]
pub enum Op {
    Create,
    Update,
}

/// Where a write stands: what has to be done next.
#[derive(Clone, Copy, Debug, PartialEq, Eq, Structural)]
pub enum Stage {
    /// Open the transaction.
    Begin,
    /// Read the row as it stands.
    Load,
    /// Offer the record to a listener, which may change or refuse it.
    Before(usize),
    /// Write the record.
    Write,
    /// Commit.
    Commit,
    /// Roll back.
    Undo,
    /// Tell a listener that the write has been committed.
    After(usize),
    /// Nothing is left to do.
    Finished,
}

/// What a write does: read the row first or not, run this many listeners, and
/// whether it can write at all.
#[derive(Clone, Copy, Debug, PartialEq, Eq, Structural)]
pub struct Course {
    pub loads: bool,
    pub listeners: usize,
    pub writable: bool,
}

/// The stage of a listener before the write, or the write where no listener is
/// left. A write that cannot be made is undone instead.
pub open spec fn before_stage(c: Course, k: int) -> Stage {
    if k < c.listeners {
        Stage::Before(k as usize)
    } else if c.writable {
        Stage::Write
    } else {
        Stage::Undo
    }
}

/// The stage of a listener after the commit, or the end.
pub open spec fn after_stage(c: Course, k: int) -> Stage {
    if k < c.listeners {
        Stage::After(k as usize)
    } else {
        Stage::Finished
    }
}

/// What follows a stage that went well or did not.
pub open spec fn next_stage(c: Course, stage: Stage, ok: bool) -> Stage {
    match stage {
        Stage::Begin => if !ok {
            Stage::Finished
        } else if c.loads {
            Stage::Load
        } else {
            before_stage(c, 0)
        },
        Stage::Load => if ok {
            before_stage(c, 0)
        } else {
            Stage::Undo
        },
        Stage::Before(k) => if ok {
            before_stage(c, k + 1)
        } else {
            Stage::Undo
        },
        Stage::Write => if ok {
            Stage::Commit
        } else {
            Stage::Undo
        },
        Stage::Commit => if ok {
            after_stage(c, 0)
        } else {
            Stage::Finished
        },
        Stage::Undo => Stage::Finished,
        Stage::After(k) => after_stage(c, k + 1),
        Stage::Finished => Stage::Finished,
    }
}

/// The stage of a listener before the write.
fn enter_before(c: Course, k: usize) -> (r: Stage)
    ensures
        r == before_stage(c, k as int),
{
    if k < c.listeners {
        Stage::Before(k)
    } else if c.writable {
        Stage::Write
    } else {
        Stage::Undo
    }
}

/// The stage of a listener after the commit.
fn enter_after(c: Course, k: usize) -> (r: Stage)
    ensures
        r == after_stage(c, k as int),
{
    if k < c.listeners {
        Stage::After(k)
    } else {
        Stage::Finished
    }
}

/// What follows a stage that went well or did not.
pub fn follow(c: Course, stage: Stage, ok: bool) -> (r: Stage)
    ensures
        r == next_stage(c, stage, ok),
{
    match stage {
        Stage::Begin => if !ok {
            Stage::Finished
        } else if c.loads {
            Stage::Load
        } else {
            enter_before(c, 0)
        },
        Stage::Load => if ok {
            enter_before(c, 0)
        } else {
            Stage::Undo
        },
        Stage::Before(k) => if !ok {
            Stage::Undo
        } else if k < c.listeners {
            enter_before(c, k + 1)
        } else if c.writable {
            Stage::Write
        } else {
            Stage::Undo
        },
        Stage::Write => if ok {
            Stage::Commit
        } else {
            Stage::Undo
        },
        Stage::Commit => if ok {
            enter_after(c, 0)
        } else {
            Stage::Finished
        },
        Stage::Undo => Stage::Finished,
        Stage::After(k) => if k < c.listeners {
            enter_after(c, k + 1)
        } else {
            Stage::Finished
        },
        Stage::Finished => Stage::Finished,
    }
}

/// Where a write stands after some stages, by how each went.
pub open spec fn stage_after(c: Course, went: Seq<bool>) -> Stage
    decreases went.len(),
{
    if went.len() == 0 {
        Stage::Begin
    } else {
        next_stage(c, stage_after(c, went.drop_last()), went.last())
    }
}

/// How many stages stand before the first listener.
pub open spec fn opening(c: Course) -> int {
    if c.loads {
        2
    } else {
        1
    }
}

/// Whether the first stages all went well.
pub open spec fn went_well(went: Seq<bool>, n: int) -> bool {
    forall|i: int| 0 <= i < n ==> #[trigger] went[i]
}

/// How far a write has come tells how many stages lie behind it, and that they
/// went well.
proof fn lemma_stages(c: Course, went: Seq<bool>)
    ensures
        match stage_after(c, went) {
            Stage::Begin => went.len() == 0,
            Stage::Load => c.loads && went.len() == 1 && went_well(went, 1),
            Stage::Before(k) => k < c.listeners && went.len() == opening(c) + k && went_well(
                went,
                opening(c) + k,
            ),
            Stage::Write => c.writable && went.len() == opening(c) + c.listeners && went_well(
                went,
                opening(c) + c.listeners,
            ),
            Stage::Commit => c.writable && went.len() == opening(c) + c.listeners + 1 && went_well(
                went,
                opening(c) + c.listeners + 1,
            ),
            Stage::After(k) => c.writable && k < c.listeners && went.len() == opening(c)
                + c.listeners + 2 + k && went_well(went, opening(c) + c.listeners + 2),
            _ => true,
        },
    decreases went.len(),
{
    if went.len() > 0 {
        let init = went.drop_last();
        lemma_stages(c, init);
        assert forall|n: int| 0 <= n <= init.len() && #[trigger] went_well(init, n) implies went_well(
            went,
            n,
        ) by {
            assert forall|i: int| 0 <= i < n implies #[trigger] went[i] by {
                assert(went[i] == init[i]);
            }
        }
        let n = init.len() as int;
        if went_well(init, n) && went.last() {
            assert(went_well(went, n));
            assert forall|i: int| 0 <= i < n + 1 implies #[trigger] went[i] by {
                if i < n {
                    assert(went_well(went, n));
                }
            }
            assert(went_well(went, n + 1));
        }
    }
}

/// The write waits for every listener: it is reached only once the transaction is
/// open, the row has been read where it is read at all, and every listener has
/// accepted the record, one after the other.
pub proof fn law_the_write_waits_for_every_listener(c: Course, went: Seq<bool>)
    requires
        stage_after(c, went) == Stage::Write,
    ensures
        went.len() == opening(c) + c.listeners,
        forall|i: int| 0 <= i < went.len() ==> #[trigger] went[i],
{
    lemma_stages(c, went);
}

/// A refusal stops the write: what follows is the rollback and nothing else.
pub proof fn law_a_refusal_stops_the_write(c: Course, k: usize)
    ensures
        next_stage(c, Stage::Before(k), false) == Stage::Undo,
        forall|ok: bool| #[trigger] next_stage(c, Stage::Undo, ok) == Stage::Finished,
{
}

/// The after-stage follows the commit: a listener hears of a write only once it
/// has been committed, so nothing it does can undo it.
pub proof fn law_the_after_stage_follows_the_commit(c: Course, went: Seq<bool>)
    requires
        stage_after(c, went) is After,
    ensures
        went.len() >= opening(c) + c.listeners + 2,
        forall|i: int| 0 <= i < opening(c) + c.listeners + 2 ==> #[trigger] went[i],
        stage_after(c, went.take(opening(c) + c.listeners + 1)) == Stage::Commit,
{
    lemma_stages(c, went);
    lemma_commit_before(c, went);
}

/// Every after-stage has the commit behind it.
proof fn lemma_commit_before(c: Course, went: Seq<bool>)
    requires
        stage_after(c, went) is After,
    ensures
        went.len() >= opening(c) + c.listeners + 2,
        stage_after(c, went.take(opening(c) + c.listeners + 1)) == Stage::Commit,
    decreases went.len(),
{
    lemma_stages(c, went);
    let init = went.drop_last();
    lemma_stages(c, init);
    let n = opening(c) + c.listeners + 1;
    if stage_after(c, init) is After {
        lemma_commit_before(c, init);
        assert(went.take(n) =~= init.take(n));
    } else {
        assert(went.take(n) =~= init);
    }
}

// ----------------------------------------------------------------------- save
/// What a stage brought back.
pub enum Reply {
    Nothing,
    /// The row as it stands, where the persister reads one.
    Snapshot(Option<Record>),
    /// The id the database assigned.
    NewId(i64),
}

/// A save on its way: what is done, to which row, and what went wrong.
pub struct Save {
    pub op: Op,
    pub id: Option<String>,
    pub listeners: usize,
    pub stage: Stage,
    pub failure: Option<SaveError>,
}

/// A [`Save`], over characters.
pub struct SaveModel {
    pub op: Op,
    pub id: Option<Seq<char>>,
    pub listeners: usize,
    pub stage: Stage,
    pub failure: Option<SaveErrorModel>,
}

impl View for Save {
    type V = SaveModel;

    open spec fn view(&self) -> SaveModel {
        SaveModel {
            op: self.op,
            id: self.id.deep_view(),
            listeners: self.listeners,
            stage: self.stage,
            failure: self.failure.deep_view(),
        }
    }
}

/// What a save does: an update of a known row reads it first, and an update
/// without one cannot be written.
pub open spec fn save_course(op: Op, has_id: bool, listeners: usize) -> Course {
    Course {
        loads: op == Op::Update && has_id,
        listeners,
        writable: op == Op::Create || has_id,
    }
}

/// What a stage brought back, over characters.
pub enum ReplyModel {
    Nothing,
    Snapshot(Option<RecordModel>),
    NewId(i64),
}

impl View for Reply {
    type V = ReplyModel;

    open spec fn view(&self) -> ReplyModel {
        match self {
            Reply::Nothing => ReplyModel::Nothing,
            Reply::Snapshot(Some(r)) => ReplyModel::Snapshot(Some(r@)),
            Reply::Snapshot(None) => ReplyModel::Snapshot(None),
            Reply::NewId(id) => ReplyModel::NewId(*id),
        }
    }
}

/// A stage's outcome, over characters.
pub open spec fn outcome_model(o: Result<Reply, SaveError>) -> Result<ReplyModel, SaveErrorModel> {
    match o {
        Ok(r) => Ok(r@),
        Err(e) => Err(e.deep_view()),
    }
}

/// A save after a stage.
pub open spec fn save_after(s: SaveModel, o: Result<ReplyModel, SaveErrorModel>) -> SaveModel {
    let c = save_course(s.op, s.id is Some, s.listeners);
    let stage = next_stage(c, s.stage, o is Ok);
    SaveModel {
        stage,
        failure: match (s.stage, o) {
            (Stage::Undo, _) => s.failure,
            (Stage::After(_), _) => s.failure,
            (Stage::Finished, _) => s.failure,
            (_, Err(e)) => Some(e),
            (_, Ok(_)) => if stage == Stage::Undo {
                Some(SaveErrorModel::Failed("update without an id"@))
            } else {
                s.failure
            },
        },
        ..s
    }
}

/// The record after a stage: the row that was read becomes what the record held
/// before, and a created record gets its id.
pub open spec fn record_after(
    s: SaveModel,
    rec: RecordModel,
    o: Result<ReplyModel, SaveErrorModel>,
) -> RecordModel {
    match (s.stage, o) {
        (Stage::Load, Ok(ReplyModel::Snapshot(Some(previous)))) => RecordModel {
            original: Some(previous.attrs),
            ..rec
        },
        (Stage::Write, Ok(ReplyModel::NewId(id))) => if s.op == Op::Create {
            RecordModel { id: Some(id), ..rec }
        } else {
            rec
        },
        _ => rec,
    }
}

impl Save {
    /// A save that has not begun. `id` is the row to update, and is ignored on a
    /// create.
    pub fn new(op: Op, id: Option<String>, listeners: usize) -> (r: Save)
        ensures
            r@ == (SaveModel {
                op,
                id: id.deep_view(),
                listeners,
                stage: Stage::Begin,
                failure: None,
            }),
    {
        Save { op, id, listeners, stage: Stage::Begin, failure: None }
    }

    /// The save after the stage it stands at, given how that stage went.
    pub fn advance(self, rec: &mut Record, outcome: Result<Reply, SaveError>) -> (r: Save)
        ensures
            r@ == save_after(self@, outcome_model(outcome)),
            final(rec)@ == record_after(self@, old(rec)@, outcome_model(outcome)),
    {
        let c: Course = Course {
            loads: self.op == Op::Update && self.id.is_some(),
            listeners: self.listeners,
            writable: self.op == Op::Create || self.id.is_some(),
        };
        let ok: bool = outcome.is_ok();
        let stage: Stage = follow(c, self.stage, ok);
        let mut failure: Option<SaveError> = self.failure;
        match self.stage {
            Stage::Undo => {},
            Stage::After(_) => {},
            Stage::Finished => {},
            _ => match outcome {
                Err(e) => {
                    failure = Some(e);
                },
                Ok(reply) => {
                    if stage == Stage::Undo {
                        failure = Some(SaveError::Failed("update without an id".to_owned()));
                    }
                    match (self.stage, reply) {
                        (Stage::Load, Reply::Snapshot(Some(previous))) => {
                            rec.set_original(previous);
                        },
                        (Stage::Write, Reply::NewId(id)) => {
                            if self.op == Op::Create {
                                rec.set_id(id);
                            }
                        },
                        _ => {},
                    }
                },
            },
        }
        Save { op: self.op, id: self.id, listeners: self.listeners, stage, failure }
    }

    /// What the save came to.
    pub fn result(self) -> (r: Result<(), SaveError>)
        ensures
            match self@.failure {
                None => r is Ok,
                Some(e) => r is Err && (r->Err_0).deep_view() == e,
            },
    {
        match self.failure {
            None => Ok(()),
            Some(e) => Err(e),
        }
    }
}

/// A save goes by the course its operation sets, stage for stage.
pub proof fn law_a_save_follows_its_course(s: SaveModel, o: Result<ReplyModel, SaveErrorModel>)
    ensures
        save_after(s, o).stage == next_stage(
            save_course(s.op, s.id is Some, s.listeners),
            s.stage,
            o is Ok,
        ),
        save_after(s, o).op == s.op,
        save_after(s, o).id == s.id,
        save_after(s, o).listeners == s.listeners,
{
}

/// An update without an id fails rather than writing: it can never stand at the
/// write.
pub proof fn law_an_update_without_an_id_is_never_written(listeners: usize, went: Seq<bool>)
    ensures
        stage_after(save_course(Op::Update, false, listeners), went) != Stage::Write,
{
    lemma_stages(save_course(Op::Update, false, listeners), went);
}

// --------------------------------------------------------------------- delete
/// A delete on its way: the record as it was, once read, and what went wrong.
pub struct Delete {
    pub entity: String,
    pub id: String,
    pub listeners: usize,
    pub stage: Stage,
    pub record: Option<Record>,
    pub failure: Option<DeleteError>,
}

/// A [`Delete`], over characters.
pub struct DeleteModel {
    pub entity: Seq<char>,
    pub id: Seq<char>,
    pub listeners: usize,
    pub stage: Stage,
    pub record: Option<RecordModel>,
    pub failure: Option<DeleteErrorModel>,
}

impl View for Delete {
    type V = DeleteModel;

    open spec fn view(&self) -> DeleteModel {
        DeleteModel {
            entity: self.entity@,
            id: self.id@,
            listeners: self.listeners,
            stage: self.stage,
            record: match self.record {
                Some(r) => Some(r@),
                None => None,
            },
            failure: self.failure.deep_view(),
        }
    }
}

/// What a delete does: it reads the row, and can always be made.
pub open spec fn delete_course(listeners: usize) -> Course {
    Course { loads: true, listeners, writable: true }
}

/// The record a delete is about: the row as it was read, or a record of the
/// entity alone, known by its id where the id is a number.
pub open spec fn identified(
    entity: Seq<char>,
    id: Seq<char>,
    loaded: Option<RecordModel>,
) -> RecordModel {
    let rec = match loaded {
        Some(r) => r,
        None => bare_record(entity),
    };
    if rec.id is None {
        RecordModel { id: i64_of(id), ..rec }
    } else {
        rec
    }
}

/// A stage's outcome, over characters.
pub open spec fn delete_outcome(o: Result<Reply, DeleteError>) -> Result<
    ReplyModel,
    DeleteErrorModel,
> {
    match o {
        Ok(r) => Ok(r@),
        Err(e) => Err(e.deep_view()),
    }
}

/// A delete after a stage.
pub open spec fn delete_after(d: DeleteModel, o: Result<ReplyModel, DeleteErrorModel>) -> DeleteModel {
    DeleteModel {
        stage: next_stage(delete_course(d.listeners), d.stage, o is Ok),
        record: match (d.stage, o) {
            (Stage::Load, Ok(ReplyModel::Snapshot(loaded))) => Some(
                identified(d.entity, d.id, loaded),
            ),
            (Stage::Load, Ok(_)) => Some(identified(d.entity, d.id, None)),
            _ => d.record,
        },
        failure: match (d.stage, o) {
            (Stage::Undo, _) => d.failure,
            (Stage::After(_), _) => d.failure,
            (Stage::Finished, _) => d.failure,
            (_, Err(e)) => Some(e),
            (_, Ok(_)) => d.failure,
        },
        ..d
    }
}

/// The record a delete is about.
fn identify(entity: &str, id: &str, loaded: Option<Record>) -> (r: Record)
    ensures
        r@ == identified(
            entity@,
            id@,
            match loaded {
                Some(l) => Some(l@),
                None => None,
            },
        ),
{
    let mut rec: Record = match loaded {
        Some(l) => l,
        None => Record::new(entity),
    };
    if rec.id.is_none() {
        match parse_i64(id) {
            Some(n) => {
                rec.set_id(n);
            },
            None => {},
        }
    }
    rec
}

impl Delete {
    /// A delete that has not begun.
    pub fn new(entity: &str, id: &str, listeners: usize) -> (r: Delete)
        ensures
            r@ == (DeleteModel {
                entity: entity@,
                id: id@,
                listeners,
                stage: Stage::Begin,
                record: None,
                failure: None,
            }),
    {
        Delete {
            entity: entity.to_owned(),
            id: id.to_owned(),
            listeners,
            stage: Stage::Begin,
            record: None,
            failure: None,
        }
    }

    /// The delete after the stage it stands at, given how that stage went.
    pub fn advance(self, outcome: Result<Reply, DeleteError>) -> (r: Delete)
        ensures
            r@ == delete_after(self@, delete_outcome(outcome)),
    {
        let c: Course = Course { loads: true, listeners: self.listeners, writable: true };
        let ok: bool = outcome.is_ok();
        let stage: Stage = follow(c, self.stage, ok);
        let mut failure: Option<DeleteError> = self.failure;
        let mut record: Option<Record> = self.record;
        match self.stage {
            Stage::Undo => {},
            Stage::After(_) => {},
            Stage::Finished => {},
            _ => match outcome {
                Err(e) => {
                    failure = Some(e);
                },
                Ok(reply) => {
                    if self.stage == Stage::Load {
                        let loaded: Option<Record> = match reply {
                            Reply::Snapshot(l) => l,
                            _ => None,
                        };
                        record = Some(identify(self.entity.as_str(), self.id.as_str(), loaded));
                    }
                },
            },
        }
        Delete {
            entity: self.entity,
            id: self.id,
            listeners: self.listeners,
            stage,
            record,
            failure,
        }
    }

    /// What the delete came to: the record as it was, so the caller can report
    /// what went.
    pub fn result(self) -> (r: Result<Option<Record>, DeleteError>)
        ensures
            match self@.failure {
                None => r is Ok && r->Ok_0 == self.record,
                Some(e) => r is Err && (r->Err_0).deep_view() == e,
            },
    {
        match self.failure {
            None => Ok(self.record),
            Some(e) => Err(e),
        }
    }
}

} // verus!
