//! What exporting a list promises.

use vstd::prelude::*;

use crate::export::{
    after_page, after_pages, content_type_of, csv_body, csv_field, csv_record_text, extension_of,
    format_of, members, needs_quotes, not_produced, quotes_doubled, too_many, ExportModel, Format,
    PageModel, StepModel, MAX_ROWS, PAGE,
};
use crate::strs::joined;

verus! {

// -------------------------------------------------------------------------- csv
/// Where a reader of CSV stands in a field.
pub enum CsvMode {
    /// At its start.
    Start,
    /// In a field without quotes.
    Plain,
    /// Between a field's quotes.
    Quoted,
    /// Behind a quote, which ends the field or stands for itself.
    Closing,
}

/// What a reader of CSV has read: the records so far, the fields of the record it is in,
/// and the characters of the field it is in.
pub struct CsvReader {
    pub records: Seq<Seq<Seq<char>>>,
    pub fields: Seq<Seq<char>>,
    pub field: Seq<char>,
    pub mode: CsvMode,
}

/// A reader at the start of a file.
pub open spec fn csv_start() -> CsvReader {
    CsvReader {
        records: Seq::empty(),
        fields: Seq::empty(),
        field: Seq::empty(),
        mode: CsvMode::Start,
    }
}

/// A reader at the end of a field.
pub open spec fn field_ended(r: CsvReader) -> CsvReader {
    CsvReader {
        fields: r.fields.push(r.field),
        field: Seq::empty(),
        mode: CsvMode::Start,
        ..r
    }
}

/// A reader at the end of a record.
pub open spec fn record_ended(r: CsvReader) -> CsvReader {
    CsvReader {
        records: r.records.push(r.fields.push(r.field)),
        fields: Seq::empty(),
        field: Seq::empty(),
        mode: CsvMode::Start,
    }
}

/// A reader one character on.
pub open spec fn csv_step(r: CsvReader, c: char) -> CsvReader {
    match r.mode {
        CsvMode::Quoted => if c == '"' {
            CsvReader { mode: CsvMode::Closing, ..r }
        } else {
            CsvReader { field: r.field.push(c), ..r }
        },
        CsvMode::Closing => if c == '"' {
            CsvReader { field: r.field.push(c), mode: CsvMode::Quoted, ..r }
        } else if c == ',' {
            field_ended(r)
        } else if c == '\n' {
            record_ended(r)
        } else {
            CsvReader { field: r.field.push(c), mode: CsvMode::Plain, ..r }
        },
        _ => if c == ',' {
            field_ended(r)
        } else if c == '\n' {
            record_ended(r)
        } else if c == '"' && r.mode is Start {
            CsvReader { mode: CsvMode::Quoted, ..r }
        } else {
            CsvReader { field: r.field.push(c), mode: CsvMode::Plain, ..r }
        },
    }
}

/// A reader behind a text.
pub open spec fn csv_read(r: CsvReader, s: Seq<char>) -> CsvReader
    decreases s.len(),
{
    if s.len() == 0 {
        r
    } else {
        csv_step(csv_read(r, s.drop_last()), s.last())
    }
}

/// The records that a CSV text holds.
pub open spec fn csv_records(s: Seq<char>) -> Seq<Seq<Seq<char>>> {
    csv_read(csv_start(), s).records
}

/// Reading two texts is reading the one and from there the other.
proof fn lemma_csv_read_on(r: CsvReader, a: Seq<char>, b: Seq<char>)
    ensures
        csv_read(r, a + b) == csv_read(csv_read(r, a), b),
    decreases b.len(),
{
    if b.len() == 0 {
        assert(a + b =~= a);
    } else {
        lemma_csv_read_on(r, a, b.drop_last());
        assert((a + b).drop_last() =~= a + b.drop_last());
    }
}

/// Reading one character is one step.
proof fn lemma_read_one(r: CsvReader, c: char)
    ensures
        csv_read(r, seq![c]) == csv_step(r, c),
{
    reveal_with_fuel(csv_read, 2);
    assert(seq![c].drop_last() =~= Seq::empty());
}

/// Doubled quotes are read as the quotes they stand for.
proof fn lemma_read_quoted(r: CsvReader, s: Seq<char>)
    requires
        r.mode is Quoted,
    ensures
        csv_read(r, quotes_doubled(s)) == (CsvReader { field: r.field + s, ..r }),
    decreases s.len(),
{
    reveal_with_fuel(csv_read, 3);
    if s.len() == 0 {
        assert(r.field + s =~= r.field);
    } else {
        let t = s.drop_last();
        lemma_read_quoted(r, t);
        let q = quotes_doubled(t);
        assert(r.field + s =~= (r.field + t).push(s.last()));
        if s.last() == '"' {
            assert(q.push('"').push('"').drop_last() =~= q.push('"'));
            assert(q.push('"').drop_last() =~= q);
        } else {
            assert(q.push(s.last()).drop_last() =~= q);
        }
    }
}

/// A field that needs no quotes is read as it stands.
proof fn lemma_read_plain(r: CsvReader, s: Seq<char>)
    requires
        r.mode is Start,
        r.field.len() == 0,
        !needs_quotes(s),
    ensures
        csv_read(r, s) == (CsvReader {
            field: s,
            mode: if s.len() == 0 {
                CsvMode::Start
            } else {
                CsvMode::Plain
            },
            ..r
        }),
    decreases s.len(),
{
    if s.len() == 0 {
        assert(s =~= r.field);
    } else {
        let t = s.drop_last();
        assert(!needs_quotes(t)) by {
            assert forall|c: char| #[trigger] t.contains(c) implies s.contains(c) by {
                let k = choose|k: int| 0 <= k < t.len() && t[k] == c;
                assert(s[k] == c);
            }
        }
        lemma_read_plain(r, t);
        assert(s.contains(s.last()));
        assert(t.push(s.last()) =~= s);
    }
}

/// A field is read as it was before it was written, and a comma or a line feed behind it
/// ends it.
proof fn lemma_read_field(r: CsvReader, f: Seq<char>)
    requires
        r.mode is Start,
        r.field.len() == 0,
    ensures
        ({
            let after = csv_read(r, csv_field(f));
            &&& after.records == r.records
            &&& after.fields == r.fields
            &&& after.field == f
            &&& !(after.mode is Quoted)
            &&& csv_step(after, ',') == (CsvReader {
                fields: r.fields.push(f),
                field: Seq::empty(),
                mode: CsvMode::Start,
                ..r
            })
            &&& csv_step(after, '\n') == (CsvReader {
                records: r.records.push(r.fields.push(f)),
                fields: Seq::empty(),
                field: Seq::empty(),
                mode: CsvMode::Start,
            })
        }),
{
    if needs_quotes(f) {
        let body = quotes_doubled(f);
        let open = csv_step(r, '"');
        lemma_read_one(r, '"');
        lemma_csv_read_on(r, seq!['"'], body);
        lemma_read_quoted(open, f);
        assert(open.field + f =~= f);
        lemma_csv_read_on(r, seq!['"'] + body, seq!['"']);
        let inner = csv_read(open, body);
        lemma_read_one(inner, '"');
    } else {
        lemma_read_plain(r, f);
    }
}

/// The fields of a record, with commas between them, are read one by one.
proof fn lemma_read_fields(r: CsvReader, fields: Seq<Seq<char>>)
    requires
        r.mode is Start,
        r.field.len() == 0,
        r.fields.len() == 0,
        fields.len() > 0,
    ensures
        ({
            let text = joined(fields.map_values(|f: Seq<char>| csv_field(f)), seq![',']);
            let after = csv_read(r, text);
            &&& after.records == r.records
            &&& after.fields == fields.drop_last()
            &&& after.field == fields.last()
            &&& !(after.mode is Quoted)
            &&& csv_step(after, ',') == (CsvReader {
                fields,
                field: Seq::empty(),
                mode: CsvMode::Start,
                ..r
            })
            &&& csv_step(after, '\n') == (CsvReader {
                records: r.records.push(fields),
                fields: Seq::empty(),
                field: Seq::empty(),
                mode: CsvMode::Start,
            })
        }),
    decreases fields.len(),
{
    let written = fields.map_values(|f: Seq<char>| csv_field(f));
    assert(fields.drop_last().push(fields.last()) =~= fields);
    if fields.len() == 1 {
        lemma_read_field(r, fields[0]);
        assert(fields.drop_last() =~= r.fields);
    } else {
        let front = fields.drop_last();
        let before = front.map_values(|f: Seq<char>| csv_field(f));
        assert(written.drop_last() =~= before);
        lemma_read_fields(r, front);
        let text = joined(before, seq![',']);
        lemma_csv_read_on(r, text, seq![',']);
        let after = csv_read(r, text);
        lemma_read_one(after, ',');
        let next = csv_step(after, ',');
        lemma_csv_read_on(r, text + seq![','], csv_field(fields.last()));
        lemma_read_field(next, fields.last());
    }
}

/// A record is read as the fields it was written of.
pub proof fn law_a_csv_record_reads_back(r: CsvReader, fields: Seq<Seq<char>>)
    requires
        r.mode is Start,
        r.field.len() == 0,
        r.fields.len() == 0,
        fields.len() > 0,
    ensures
        csv_read(r, csv_record_text(fields)) == (CsvReader {
            records: r.records.push(fields),
            fields: Seq::empty(),
            field: Seq::empty(),
            mode: CsvMode::Start,
        }),
{
    let body = joined(fields.map_values(|f: Seq<char>| csv_field(f)), seq![',']);
    lemma_read_fields(r, fields);
    if body.len() > 0 {
        lemma_csv_read_on(r, body, seq!['\n']);
        let after = csv_read(r, body);
        lemma_read_one(after, '\n');
    } else {
        // A record of one empty field: read as a pair of quotes.
        assert(csv_read(r, body) == r);
        assert(fields.drop_last() =~= Seq::empty());
        assert(fields.len() == 1);
        assert(fields[0].len() == 0);
        assert(fields =~= seq![fields[0]]);
        let pair = seq!['"', '"'];
        assert(pair.drop_last() =~= seq!['"']);
        let open = csv_step(r, '"');
        lemma_read_one(r, '"');
        let closed = csv_step(open, '"');
        assert(csv_read(r, pair) == closed);
        lemma_csv_read_on(r, pair, seq!['\n']);
        lemma_read_one(closed, '\n');
        assert(closed.field =~= fields[0]);
        assert(closed.fields.push(closed.field) =~= fields);
    }
}

/// A CSV file holds its header and every row, in order: read as CSV, it gives them back
/// as they were, whatever their fields hold.
pub proof fn law_a_csv_file_holds_every_row(
    headers: Seq<Seq<char>>,
    rows: Seq<Seq<Seq<char>>>,
)
    requires
        headers.len() > 0,
        forall|i: int| 0 <= i < rows.len() ==> (#[trigger] rows[i]).len() == headers.len(),
    ensures
        csv_records(csv_record_text(headers) + csv_body(rows)) == seq![headers] + rows,
{
    let r = csv_start();
    law_a_csv_record_reads_back(r, headers);
    let after = csv_read(r, csv_record_text(headers));
    assert(after.records =~= seq![headers]);
    lemma_csv_read_on(r, csv_record_text(headers), csv_body(rows));
    lemma_read_rows(after, rows);
}

/// Rows are read one after the other.
proof fn lemma_read_rows(r: CsvReader, rows: Seq<Seq<Seq<char>>>)
    requires
        r.mode is Start,
        r.field.len() == 0,
        r.fields.len() == 0,
        forall|i: int| 0 <= i < rows.len() ==> (#[trigger] rows[i]).len() > 0,
    ensures
        csv_read(r, csv_body(rows)).records == r.records + rows,
        csv_read(r, csv_body(rows)).mode is Start,
        csv_read(r, csv_body(rows)).field.len() == 0,
        csv_read(r, csv_body(rows)).fields.len() == 0,
    decreases rows.len(),
{
    if rows.len() == 0 {
        assert(r.records + rows =~= r.records);
    } else {
        let front = rows.drop_last();
        assert forall|i: int| 0 <= i < front.len() implies (#[trigger] front[i]).len() > 0 by {
            assert(front[i] == rows[i]);
        }
        lemma_read_rows(r, front);
        lemma_csv_read_on(r, csv_body(front), csv_record_text(rows.last()));
        assert(rows[rows.len() - 1].len() > 0);
        law_a_csv_record_reads_back(csv_read(r, csv_body(front)), rows.last());
        assert((r.records + front).push(rows.last()) =~= r.records + rows);
    }
}

/// Writing rows in two goes is writing them in one: the body of one row is its record,
/// that of more the bodies one behind the other.
pub proof fn law_csv_rows_stand_one_behind_the_other(
    a: Seq<Seq<Seq<char>>>,
    b: Seq<Seq<Seq<char>>>,
    row: Seq<Seq<char>>,
)
    ensures
        csv_body(Seq::empty()).len() == 0,
        csv_body(seq![row]) == csv_record_text(row),
        csv_body(a + b) == csv_body(a) + csv_body(b),
    decreases b.len(),
{
    reveal_with_fuel(csv_body, 2);
    assert(seq![row].drop_last() =~= Seq::empty());
    assert(csv_body(seq![row]) =~= csv_record_text(row));
    if b.len() == 0 {
        assert(a + b =~= a);
        assert(csv_body(a) + csv_body(b) =~= csv_body(a));
    } else {
        law_csv_rows_stand_one_behind_the_other(a, b.drop_last(), row);
        assert((a + b).drop_last() =~= a + b.drop_last());
        assert(csv_body(a + b) =~= csv_body(a) + csv_body(b));
    }
}

// ------------------------------------------------------------------------- json
/// A JSON export keys each cell by its column: a record has a member for every column,
/// under the column's name and with the row's own cell.
pub proof fn law_a_json_record_keys_each_cell(
    names: Seq<Seq<char>>,
    row: Seq<Seq<char>>,
    i: int,
)
    requires
        names.len() == row.len(),
        0 <= i < names.len(),
    ensures
        members(names, row).len() == names.len(),
        members(names, row)[i].0 == names[i],
        members(names, row)[i].1 == row[i],
{
}

// ----------------------------------------------------------------------- format
/// A file is JSON only where JSON is asked for; its name and its type say which it is.
pub proof fn law_a_file_says_what_it_is(params: Seq<(Seq<char>, Seq<char>)>, value: Seq<char>)
    ensures
        format_of(params.push(("format"@, "json"@))) == Format::Json,
        value != "json"@ ==> format_of(params.push(("format"@, value))) == Format::Csv,
        format_of(Seq::empty()) == Format::Csv,
        extension_of(Format::Json) == "json"@,
        extension_of(Format::Csv) == "csv"@,
        content_type_of(Format::Json) == "application/json"@,
        content_type_of(Format::Csv) == "text/csv; charset=utf-8"@,
{
    assert(params.push(("format"@, "json"@)).last() == ("format"@, "json"@));
    assert(params.push(("format"@, value)).last() == ("format"@, value));
    assert(crate::strs::lookup(Seq::empty(), "format"@) is None);
}

// ------------------------------------------------------------------------ pages
/// An export reads page after page without leaving a row out: as long as it goes on it
/// holds every row read, and asks next for those behind them.
pub proof fn law_an_export_reads_on_where_it_stopped(
    e: ExportModel,
    page: PageModel,
)
    requires
        e.offset == e.rows.len(),
        page.rows.len() <= PAGE,
        page.total <= MAX_ROWS,
    ensures
        page.rows.len() == PAGE ==> (after_page(e, Some(page)) matches StepModel::Continue(next)
            && next.rows == e.rows + page.rows && next.offset == next.rows.len()),
        page.rows.len() < PAGE ==> after_page(e, Some(page)) == StepModel::Done(
            e.rows + page.rows,
        ),
{
}

/// An export that cannot be read, or is too large, gives no file at all but a message.
pub proof fn law_an_export_is_whole_or_refused(e: ExportModel, page: PageModel)
    ensures
        after_page(e, None) is Refused,
        after_page(e, None)->Refused_0 == not_produced(),
        page.total > 20_000 ==> after_page(e, Some(page)) is Refused,
        page.total <= 20_000 ==> !(after_page(e, Some(page)) is Refused),
        not_produced() != too_many(),
        after_pages(Seq::empty()) == StepModel::Continue(
            ExportModel { rows: Seq::empty(), offset: 0 },
        ),
{
    reveal_strlit("The export could not be produced.");
    reveal_strlit("That is too many records to export at once. Narrow the list and try again.");
    assert(not_produced().text != too_many().text) by {
        assert(not_produced().text.source.len() != too_many().text.source.len());
    }
}

} // verus!
