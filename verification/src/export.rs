//! Exporting a list to a file.
//!
//! The export runs the same query the screen just ran, a page at a time. An
//! export larger than [`MAX_ROWS`] is refused rather than truncated: a short file
//! that does not say it is short is worse than no file. CSV is headed by the
//! column labels, because a person reads it; JSON is keyed by the column names,
//! because a script does.

use vstd::prelude::*;
use vstd::string::StringExecFns;

use crate::list::{ColumnModel, ListColumn};
use crate::list_query::{column_fields, field_names, ListPage, RowModel};
use crate::session::{flash, Flash, FlashLevel, FlashModel};
use crate::strs::{cat3, copy_list, get, joined, lookup, same};
use crate::text::{localized, Translator};

verus! {

/// The most rows one export may carry.
pub const MAX_ROWS: i64 = 20_000;

/// How many rows are read per round trip.
pub const PAGE: i64 = 1_000;

// --------------------------------------------------------------------- format
/// Which shape the file takes.
#[derive(Clone, Copy, Debug, PartialEq, Eq, Structural)]
pub enum Format {
    Csv,
    Json,
}

/// The format a request asks for: JSON by name, CSV for anything else.
pub open spec fn format_of(params: Seq<(Seq<char>, Seq<char>)>) -> Format {
    if lookup(params, "format"@) == Some("json"@) {
        Format::Json
    } else {
        Format::Csv
    }
}

/// The file extension of a format.
pub open spec fn extension_of(format: Format) -> Seq<char> {
    match format {
        Format::Csv => "csv"@,
        Format::Json => "json"@,
    }
}

/// The content type of a format.
pub open spec fn content_type_of(format: Format) -> Seq<char> {
    match format {
        Format::Csv => "text/csv; charset=utf-8"@,
        Format::Json => "application/json"@,
    }
}

impl Format {
    /// Reads the requested format, defaulting to CSV.
    pub fn read(raw: &Vec<(String, String)>) -> (r: Format)
        ensures
            r == format_of(raw.deep_view()),
    {
        match get(raw, "format") {
            Some(v) => if same(v, "json") {
                Format::Json
            } else {
                Format::Csv
            },
            None => Format::Csv,
        }
    }

    pub fn extension(self) -> (r: &'static str)
        ensures
            r@ == extension_of(self),
    {
        match self {
            Format::Csv => "csv",
            Format::Json => "json",
        }
    }

    pub fn content_type(self) -> (r: &'static str)
        ensures
            r@ == content_type_of(self),
    {
        match self {
            Format::Csv => "text/csv; charset=utf-8",
            Format::Json => "application/json",
        }
    }
}

// ------------------------------------------------------------------ collecting
/// What an export has read so far: the rows, and where the next page starts.
pub struct Export {
    pub rows: Vec<Vec<String>>,
    pub offset: i64,
}

/// An [`Export`], over characters.
pub struct ExportModel {
    pub rows: Seq<Seq<Seq<char>>>,
    pub offset: int,
}

impl View for Export {
    type V = ExportModel;

    open spec fn view(&self) -> ExportModel {
        ExportModel { rows: self.rows.deep_view(), offset: self.offset as int }
    }
}

/// What a page brings: its rows' cells and the total it was counted from, or
/// nothing where the query failed.
pub struct PageModel {
    pub rows: Seq<Seq<Seq<char>>>,
    pub total: int,
}

/// The cells of some rows.
pub open spec fn cells_of(rows: Seq<RowModel>) -> Seq<Seq<Seq<char>>> {
    rows.map_values(|r: RowModel| r.cells)
}

/// What to do after a page.
pub enum ExportStep {
    /// Read the page that starts where the export now stands.
    Continue(Export),
    /// Everything has been read.
    Done(Vec<Vec<String>>),
    /// The export stops, and the operator is told why.
    Refused(Flash),
}

/// An [`ExportStep`], over characters.
pub enum StepModel {
    Continue(ExportModel),
    Done(Seq<Seq<Seq<char>>>),
    Refused(FlashModel),
}

impl View for ExportStep {
    type V = StepModel;

    open spec fn view(&self) -> StepModel {
        match self {
            ExportStep::Continue(e) => StepModel::Continue(e@),
            ExportStep::Done(rows) => StepModel::Done(rows.deep_view()),
            ExportStep::Refused(f) => StepModel::Refused(f.deep_view()),
        }
    }
}

/// The refusal of an export whose query or file failed.
pub open spec fn not_produced() -> FlashModel {
    flash(FlashLevel::Error, "The export could not be produced."@)
}

/// The refusal of an export that is too large.
pub open spec fn too_many() -> FlashModel {
    flash(
        FlashLevel::Error,
        "That is too many records to export at once. Narrow the list and try again."@,
    )
}

/// What to do after a page: stop on a failure or on too large a total, finish on
/// a page that is not full, go on otherwise.
pub open spec fn after_page(e: ExportModel, page: Option<PageModel>) -> StepModel {
    match page {
        None => StepModel::Refused(not_produced()),
        Some(p) => if p.total > MAX_ROWS {
            StepModel::Refused(too_many())
        } else if p.rows.len() < PAGE {
            StepModel::Done(e.rows + p.rows)
        } else {
            StepModel::Continue(ExportModel { rows: e.rows + p.rows, offset: e.offset + PAGE })
        },
    }
}

impl Export {
    /// An export that has read nothing.
    pub fn start() -> (r: Export)
        ensures
            r@ == (ExportModel { rows: Seq::empty(), offset: 0 }),
    {
        let rows: Vec<Vec<String>> = Vec::new();
        assert(rows.deep_view() =~= Seq::<Seq<Seq<char>>>::empty());
        Export { rows, offset: 0 }
    }

    /// What to do after a page. `page` is what the query gave, and nothing where
    /// it failed.
    pub fn take(self, page: Option<ListPage>) -> (r: ExportStep)
        requires
            self.offset <= i64::MAX - PAGE,
        ensures
            r@ == after_page(
                self@,
                match page {
                    Some(p) => Some(
                        PageModel { rows: cells_of(p.rows.deep_view()), total: p.total as int },
                    ),
                    None => None,
                },
            ),
    {
        let page: ListPage = match page {
            Some(p) => p,
            None => {
                return ExportStep::Refused(
                    Flash::say(FlashLevel::Error, "The export could not be produced."),
                );
            },
        };
        if page.total > MAX_ROWS {
            return ExportStep::Refused(
                Flash::say(
                    FlashLevel::Error,
                    "That is too many records to export at once. Narrow the list and try again.",
                ),
            );
        }
        let count: usize = page.rows.len();
        let mut rows: Vec<Vec<String>> = self.rows;
        let ghost had = rows.deep_view();
        let ghost more = cells_of(page.rows.deep_view());
        let mut i: usize = 0;
        assert(rows.deep_view() =~= had + more.take(0));
        while i < page.rows.len()
            invariant
                i <= page.rows.len(),
                more == cells_of(page.rows.deep_view()),
                rows.deep_view() == had + more.take(i as int),
            decreases page.rows.len() - i,
        {
            let ghost before = rows.deep_view();
            let cells: Vec<String> = copy_list(&page.rows[i].cells);
            assert(cells.deep_view() == more[i as int]);
            rows.push(cells);
            assert(rows.deep_view() =~= before.push(more[i as int]));
            assert(before.push(more[i as int]) =~= had + more.take(i + 1));
            i = i + 1;
        }
        assert(more.take(more.len() as int) =~= more);
        if count < PAGE as usize {
            ExportStep::Done(rows)
        } else {
            ExportStep::Continue(Export { rows, offset: self.offset + PAGE })
        }
    }
}

/// What an export comes to after some pages, from the start. Once it is done or
/// refused, nothing more is read.
pub open spec fn after_pages(pages: Seq<Option<PageModel>>) -> StepModel
    decreases pages.len(),
{
    if pages.len() == 0 {
        StepModel::Continue(ExportModel { rows: Seq::empty(), offset: 0 })
    } else {
        match after_pages(pages.drop_last()) {
            StepModel::Continue(e) => after_page(e, pages.last()),
            other => other,
        }
    }
}

/// The rows of some pages in a row.
pub open spec fn all_rows(pages: Seq<Option<PageModel>>) -> Seq<Seq<Seq<char>>>
    decreases pages.len(),
{
    if pages.len() == 0 {
        Seq::empty()
    } else {
        all_rows(pages.drop_last()) + (match pages.last() {
            Some(p) => p.rows,
            None => Seq::empty(),
        })
    }
}

/// While an export goes on it has every row of every page so far, none of them
/// counted too large, and the next page starts behind them.
pub proof fn lemma_export_collects(pages: Seq<Option<PageModel>>)
    ensures
        after_pages(pages) matches StepModel::Continue(e) ==> {
            &&& e.rows == all_rows(pages)
            &&& e.offset == pages.len() * PAGE
            &&& forall|i: int|
                0 <= i < pages.len() ==> #[trigger] pages[i] is Some && pages[i]->0.total
                    <= MAX_ROWS && pages[i]->0.rows.len() >= PAGE
        },
    decreases pages.len(),
{
    if pages.len() > 0 {
        let init = pages.drop_last();
        lemma_export_collects(init);
        if after_pages(pages) is Continue {
            assert forall|i: int| 0 <= i < pages.len() implies #[trigger] pages[i] is Some
                && pages[i]->0.total <= MAX_ROWS && pages[i]->0.rows.len() >= PAGE by {
                if i < init.len() {
                    assert(init[i] == pages[i]);
                }
            }
        }
    }
}

/// A finished export is complete: it holds every row of every page that was read,
/// in order, the last page is the one that was not full, and no page counted more
/// rows than an export may carry.
pub proof fn law_a_finished_export_is_complete(pages: Seq<Option<PageModel>>)
    requires
        pages.len() > 0,
        after_pages(pages.drop_last()) is Continue,
        after_pages(pages) is Done,
    ensures
        after_pages(pages)->Done_0 == all_rows(pages),
        forall|i: int|
            0 <= i < pages.len() ==> #[trigger] pages[i] is Some && pages[i]->0.total <= MAX_ROWS,
        forall|i: int| 0 <= i < pages.len() - 1 ==> (#[trigger] pages[i])->0.rows.len() >= PAGE,
        pages.last()->0.rows.len() < PAGE,
{
    let init = pages.drop_last();
    lemma_export_collects(init);
    assert forall|i: int| 0 <= i < pages.len() implies #[trigger] pages[i] is Some
        && pages[i]->0.total <= MAX_ROWS by {
        if i < init.len() {
            assert(init[i] == pages[i]);
        }
    }
    assert forall|i: int| 0 <= i < pages.len() - 1 implies (#[trigger] pages[i])->0.rows.len()
        >= PAGE by {
        assert(init[i] == pages[i]);
    }
}

/// An export over too many rows yields no file at all, whatever page said so.
pub proof fn law_too_large_an_export_is_refused(e: ExportModel, page: PageModel)
    requires
        page.total > MAX_ROWS,
    ensures
        after_page(e, Some(page)) == StepModel::Refused(too_many()),
{
}

// ------------------------------------------------------------------------ CSV
/// Whether a field must stand in quotes.
pub open spec fn needs_quotes(field: Seq<char>) -> bool {
    field.contains(',') || field.contains('"') || field.contains('\r') || field.contains('\n')
}

/// A text with every quote doubled.
pub open spec fn quotes_doubled(s: Seq<char>) -> Seq<char>
    decreases s.len(),
{
    if s.len() == 0 {
        Seq::empty()
    } else if s.last() == '"' {
        quotes_doubled(s.drop_last()).push('"').push('"')
    } else {
        quotes_doubled(s.drop_last()).push(s.last())
    }
}

/// A field as it stands in a CSV record.
pub open spec fn csv_field(field: Seq<char>) -> Seq<char> {
    if needs_quotes(field) {
        seq!['"'] + quotes_doubled(field) + seq!['"']
    } else {
        field
    }
}

/// A CSV record with its line end. One that would be an empty line stands as a
/// pair of quotes.
pub open spec fn csv_record_text(fields: Seq<Seq<char>>) -> Seq<char> {
    let body = joined(fields.map_values(|f: Seq<char>| csv_field(f)), seq![',']);
    (if body.len() == 0 {
        seq!['"', '"']
    } else {
        body
    }) + seq!['\n']
}

/// `csv::Writer::write_record` on a writer with the crate's defaults, over a
/// buffer in memory: the fields with a comma between each two and a line feed at
/// the end, a field that holds a comma, a quote or a line end in quotes with its
/// quotes doubled, and a record without a byte as an empty quoted field.
#[verifier::external_body]
fn csv_record(fields: &Vec<String>) -> (r: String)
    ensures
        r@ == csv_record_text(fields.deep_view()),
{
    let mut writer = csv::Writer::from_writer(Vec::new());
    writer.write_record(fields).expect("a buffer in memory takes every record");
    let bytes = writer.into_inner().expect("a buffer in memory can be flushed");
    String::from_utf8_lossy(&bytes).into_owned()
}

/// Why rows could not be written: one has another number of fields than the
/// header.
pub struct CsvError {
    pub expected: usize,
    pub found: usize,
}

/// The records of some rows in a row.
pub open spec fn csv_body(rows: Seq<Seq<Seq<char>>>) -> Seq<char>
    decreases rows.len(),
{
    if rows.len() == 0 {
        Seq::empty()
    } else {
        csv_body(rows.drop_last()) + csv_record_text(rows.last())
    }
}

/// Whether every row has as many fields as the header.
pub open spec fn even_rows(headers: Seq<Seq<char>>, rows: Seq<Seq<Seq<char>>>) -> bool {
    forall|i: int| 0 <= i < rows.len() ==> (#[trigger] rows[i]).len() == headers.len()
}

/// The rows as CSV under a header, or a refusal where a row is uneven.
pub fn to_csv(headers: &Vec<String>, rows: &Vec<Vec<String>>) -> (r: Result<String, CsvError>)
    ensures
        even_rows(headers.deep_view(), rows.deep_view()) ==> r is Ok && (r->Ok_0)@
            == csv_record_text(headers.deep_view()) + csv_body(rows.deep_view()),
        !even_rows(headers.deep_view(), rows.deep_view()) ==> r is Err && (r->Err_0).expected
            == headers.len() && (r->Err_0).found != headers.len(),
{
    let mut out: String = csv_record(headers);
    let ghost head = out@;
    let ghost all = rows.deep_view();
    let mut i: usize = 0;
    assert(out@ =~= head + csv_body(all.take(0)));
    while i < rows.len()
        invariant
            i <= rows.len(),
            all == rows.deep_view(),
            out@ == head + csv_body(all.take(i as int)),
            forall|j: int| 0 <= j < i ==> (#[trigger] all[j]).len() == headers.len(),
        decreases rows.len() - i,
    {
        assert(all[i as int] == rows[i as int].deep_view());
        if rows[i].len() != headers.len() {
            assert(all[i as int].len() != headers.deep_view().len());
            return Err(CsvError { expected: headers.len(), found: rows[i].len() });
        }
        assert(all.take(i + 1).drop_last() =~= all.take(i as int));
        out.append(csv_record(&rows[i]).as_str());
        assert(out@ =~= head + csv_body(all.take(i + 1)));
        i = i + 1;
    }
    assert(all.take(all.len() as int) =~= all);
    Ok(out)
}

/// Reads a quoted field back: quotes around it, doubled inside.
pub open spec fn unquoted(s: Seq<char>) -> Seq<char>
    decreases s.len(),
{
    if s.len() == 0 {
        Seq::empty()
    } else if s.len() >= 2 && s.last() == '"' && s[s.len() - 2] == '"' {
        unquoted(s.take(s.len() - 2)).push('"')
    } else {
        unquoted(s.drop_last()).push(s.last())
    }
}

/// Doubling quotes loses nothing: undoubling gives the field back.
pub proof fn law_quoted_fields_read_back(field: Seq<char>)
    ensures
        unquoted(quotes_doubled(field)) == field,
    decreases field.len(),
{
    if field.len() > 0 {
        let init = field.drop_last();
        law_quoted_fields_read_back(init);
        let q = quotes_doubled(init);
        let all = quotes_doubled(field);
        if field.last() == '"' {
            assert(all.take(all.len() - 2) =~= q);
            assert(init.push('"') =~= field);
        } else {
            assert(all.drop_last() =~= q);
            assert(init.push(field.last()) =~= field);
        }
    } else {
        assert(field =~= Seq::empty());
    }
}

// ----------------------------------------------------------------------- JSON
/// The pretty-printed text of an array of objects with string members.
pub uninterp spec fn json_objects_text(rows: Seq<Seq<(Seq<char>, Seq<char>)>>) -> Seq<char>;

/// `serde_json::to_string_pretty` of an array of `serde_json::Map` objects whose
/// members are the given pairs as strings. The text is the crate's own.
#[verifier::external_body]
fn json_objects(rows: Vec<Vec<(String, String)>>) -> (r: String)
    ensures
        r@ == json_objects_text(rows.deep_view()),
{
    let objects: Vec<serde_json::Map<String, serde_json::Value>> = rows
        .into_iter()
        .map(|row| row.into_iter().map(|(k, v)| (k, serde_json::Value::String(v))).collect())
        .collect();
    serde_json::to_string_pretty(&objects).unwrap_or_else(|_| "[]".to_string())
}

/// A row's members: each name with the cell under it, as far as both go.
pub open spec fn members(
    names: Seq<Seq<char>>,
    row: Seq<Seq<char>>,
) -> Seq<(Seq<char>, Seq<char>)> {
    let n = if names.len() < row.len() {
        names.len()
    } else {
        row.len()
    };
    Seq::new(n, |i: int| (names[i], row[i]))
}

/// A row's members.
fn zip_row(names: &Vec<String>, row: &Vec<String>) -> (r: Vec<(String, String)>)
    ensures
        r.deep_view() == members(names.deep_view(), row.deep_view()),
{
    let mut r: Vec<(String, String)> = Vec::new();
    let mut i: usize = 0;
    while i < names.len() && i < row.len()
        invariant
            i <= names.len(),
            i <= row.len(),
            r.len() == i,
            forall|j: int| 0 <= j < i ==> #[trigger] r@[j].deep_view() == (names@[j]@, row@[j]@),
        decreases names.len() - i,
    {
        r.push((names[i].clone(), row[i].clone()));
        i = i + 1;
    }
    assert(r.deep_view() =~= members(names.deep_view(), row.deep_view()));
    r
}

/// The members of every row.
pub fn json_members(names: &Vec<String>, rows: &Vec<Vec<String>>) -> (r: Vec<Vec<(String, String)>>)
    ensures
        r.deep_view() == rows.deep_view().map_values(
            |row: Seq<Seq<char>>| members(names.deep_view(), row),
        ),
{
    let mut r: Vec<Vec<(String, String)>> = Vec::new();
    let ghost keys = names.deep_view();
    let mut i: usize = 0;
    while i < rows.len()
        invariant
            i <= rows.len(),
            keys == names.deep_view(),
            r.len() == i,
            forall|j: int| 0 <= j < i ==> #[trigger] r@[j].deep_view() == members(
                keys,
                rows@[j].deep_view(),
            ),
        decreases rows.len() - i,
    {
        r.push(zip_row(names, &rows[i]));
        i = i + 1;
    }
    assert(r.deep_view() =~= rows.deep_view().map_values(
        |row: Seq<Seq<char>>| members(keys, row),
    ));
    r
}

/// The rows as an array of objects keyed by column name.
pub fn to_json(names: &Vec<String>, rows: &Vec<Vec<String>>) -> (r: String)
    ensures
        r@ == json_objects_text(
            rows.deep_view().map_values(|row: Seq<Seq<char>>| members(names.deep_view(), row)),
        ),
{
    json_objects(json_members(names, rows))
}

// ----------------------------------------------------------------------- file
/// A finished file and the headers it is served under.
pub struct ExportFile {
    pub content_type: String,
    pub disposition: String,
    pub body: String,
}

/// The columns' labels in the operator's language.
pub fn column_labels(columns: &Vec<ListColumn>, tr: &Translator) -> (r: Vec<String>)
    ensures
        r.deep_view() == columns.deep_view().map_values(|c: ColumnModel| localized(tr@, c.label)),
{
    let mut r: Vec<String> = Vec::new();
    let ghost all = columns.deep_view();
    let mut i: usize = 0;
    while i < columns.len()
        invariant
            i <= columns.len(),
            all == columns.deep_view(),
            r.len() == i,
            forall|j: int| 0 <= j < i ==> #[trigger] r@[j]@ == localized(tr@, all[j].label),
        decreases columns.len() - i,
    {
        r.push(tr.t(&columns[i].label));
        i = i + 1;
    }
    assert(r.deep_view() =~= all.map_values(|c: ColumnModel| localized(tr@, c.label)));
    r
}

/// The file an export comes to: labels for a person, names for a script. The
/// refusal is the one where the rows could not be written.
pub fn export_file(
    format: Format,
    entity: &str,
    columns: &Vec<ListColumn>,
    rows: &Vec<Vec<String>>,
    tr: &Translator,
) -> (r: Result<ExportFile, Flash>)
    ensures
        ({
            let labels = columns.deep_view().map_values(|c: ColumnModel| localized(tr@, c.label));
            let names = field_names(columns.deep_view());
            let even = even_rows(labels, rows.deep_view());
            &&& format == Format::Csv && !even ==> r is Err && (r->Err_0).deep_view()
                == not_produced()
            &&& format == Format::Json || even ==> r is Ok
            &&& r is Ok ==> {
                &&& (r->Ok_0).content_type@ == content_type_of(format)
                &&& (r->Ok_0).disposition@ == "attachment; filename=\""@ + (entity@ + "."@
                    + extension_of(format)) + "\""@
                &&& (r->Ok_0).body@ == (match format {
                    Format::Csv => csv_record_text(labels) + csv_body(rows.deep_view()),
                    Format::Json => json_objects_text(
                        rows.deep_view().map_values(|row: Seq<Seq<char>>| members(names, row)),
                    ),
                })
            }
        }),
{
    let labels: Vec<String> = column_labels(columns, tr);
    let names: Vec<String> = column_fields(columns);
    let body: String = match format {
        Format::Csv => match to_csv(&labels, rows) {
            Ok(body) => body,
            Err(_) => {
                return Err(Flash::say(FlashLevel::Error, "The export could not be produced."));
            },
        },
        Format::Json => to_json(&names, rows),
    };
    let filename: String = cat3(entity, ".", format.extension());
    Ok(
        ExportFile {
            content_type: format.content_type().to_owned(),
            disposition: cat3("attachment; filename=\"", filename.as_str(), "\""),
            body,
        },
    )
}

} // verus!
