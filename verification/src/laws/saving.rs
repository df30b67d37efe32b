//! What saving and deleting a record promises.

use vstd::prelude::*;

use crate::attr::{
    bare_record, held, law_put_then_held, lemma_key_at, put, AttrModel, RecordModel,
};
use crate::field::is_on;
use crate::laws::values::law_a_written_number_reads_back;
use crate::nums::{decimal_int, i64_of};
use crate::persist::{
    bound, delete_after, identified, keys_of, law_a_write_names_what_is_declared_or_set,
    next_stage, record_after, save_after, save_course, snapshot_attrs, stage_after, stored_values,
    written, BoundModel, Course, DeleteErrorModel, DeleteModel, Op, ReplyModel, SaveErrorModel,
    SaveModel, Stage,
};
use crate::sql::is_ident;
use crate::strs::{lemma_strip_end_at, lemma_strip_start_at, spaces, trimmed};

verus! {

/// The text a stored value reads back as, where it is not null.
pub open spec fn reads_back(value: BoundModel) -> Option<Seq<char>> {
    match value {
        BoundModel::Null => None,
        BoundModel::Int(i) => Some(decimal_int(i)),
        BoundModel::Text(t) => Some(t),
    }
}

/// The text a column reads back as after a write, where it is not null.
pub open spec fn column_reads(
    values: Seq<(Seq<char>, BoundModel)>,
    column: Seq<char>,
) -> Option<Seq<char>> {
    match held(values, column) {
        Some(v) => reads_back(v),
        None => None,
    }
}

/// A switch that was set on reads back on, and one that was set off reads back off: as
/// a number that is one or nought, never as null.
pub proof fn law_a_stored_boolean_reads_back(b: bool)
    ensures
        reads_back(bound(Some(AttrModel::Bool(b)))) is Some,
        is_on(reads_back(bound(Some(AttrModel::Bool(b))))) == b,
        i64_of(reads_back(bound(Some(AttrModel::Bool(b))))->0) == Some(
            if b {
                1i64
            } else {
                0i64
            },
        ),
{
    let t = reads_back(bound(Some(AttrModel::Bool(b))))->0;
    law_a_written_number_reads_back(1);
    law_a_written_number_reads_back(0);
    reveal_strlit("1");
    reveal_strlit("true");
    reveal_strlit("TRUE");
    reveal_strlit("t");
    reveal_strlit("yes");
    reveal_strlit("on");
    assert(decimal_int(1) =~= "1"@) by {
        assert(crate::nums::digit_char(1) as int == 49);
    }
    assert(decimal_int(0) =~= seq!['0']) by {
        assert(crate::nums::digit_char(0) as int == 48);
    }
    lemma_strip_start_at(t, spaces(), 0);
    assert(t.skip(0) =~= t);
    lemma_strip_end_at(t, spaces(), 1);
    assert(t.take(1) =~= t);
    assert(trimmed(t) == t);
}

/// A number reads back as it was stored.
pub proof fn law_a_stored_number_reads_back(i: i64)
    ensures
        reads_back(bound(Some(AttrModel::Int(i as int)))) is Some,
        i64_of(reads_back(bound(Some(AttrModel::Int(i as int))))->0) == Some(i),
{
    law_a_written_number_reads_back(i);
}

/// A text that is not empty reads back as it was stored. Nothing at all, null and an
/// empty text are all stored as null.
pub proof fn law_a_stored_text_reads_back(text: Seq<char>)
    ensures
        text.len() > 0 ==> reads_back(bound(Some(AttrModel::Text(text)))) == Some(text),
        text.len() == 0 ==> reads_back(bound(Some(AttrModel::Text(text)))) is None,
        reads_back(bound(Some(AttrModel::Null))) is None,
        reads_back(bound(None)) is None,
{
}

/// A save stores the record: each column that a write may name reads back as the
/// attribute of that name, and no column is written that the record and the form know
/// nothing of. The id is the database's to assign.
pub proof fn law_a_save_stores_the_record(
    columns: Seq<Seq<char>>,
    attrs: Seq<(Seq<char>, AttrModel)>,
    id: Seq<char>,
    column: Seq<char>,
)
    ensures
        ({
            let values = stored_values(written(columns, keys_of(attrs), id), attrs);
            let named = column != id && is_ident(column);
            let reads = column_reads(values, column);
            &&& held(values, id) is None
            &&& held(values, column) is Some <==> named && (columns.contains(column) || held(
                attrs,
                column,
            ) is Some)
            &&& named ==> match held(attrs, column) {
                None => reads is None,
                Some(AttrModel::Null) => reads is None,
                Some(AttrModel::Bool(b)) => is_on(reads) == b && reads is Some,
                Some(AttrModel::Int(i)) => i64::MIN <= i <= i64::MAX ==> reads is Some && i64_of(
                    reads->0,
                ) == Some(i as i64),
                Some(AttrModel::Text(t)) => reads == (if t.len() == 0 {
                    None
                } else {
                    Some(t)
                }),
                Some(AttrModel::Rows(rows)) => reads is Some,
            }
        }),
{
    let keys = keys_of(attrs);
    let cols = written(columns, keys, id);
    let values = stored_values(cols, attrs);
    law_a_write_names_what_is_declared_or_set(columns, keys, id, column);
    law_a_write_names_what_is_declared_or_set(columns, keys, id, id);
    lemma_stored(cols, attrs, column);
    lemma_stored(cols, attrs, id);
    lemma_key_at(attrs, column);
    if held(attrs, column) is Some {
        let i = crate::attr::key_at(attrs, column)->0;
        assert(keys[i] == column);
        assert(keys.contains(column));
        match held(attrs, column)->0 {
            AttrModel::Bool(b) => {
                law_a_stored_boolean_reads_back(b);
            },
            AttrModel::Int(n) => {
                if i64::MIN <= n <= i64::MAX {
                    law_a_stored_number_reads_back(n as i64);
                }
            },
            _ => {},
        }
    } else if keys.contains(column) {
        let i = choose|i: int| 0 <= i < keys.len() && keys[i] == column;
        assert(attrs[i].0 == column);
    }
}

/// What is stored under a column is what the record holds for it.
proof fn lemma_stored(
    columns: Seq<Seq<char>>,
    attrs: Seq<(Seq<char>, AttrModel)>,
    column: Seq<char>,
)
    ensures
        held(stored_values(columns, attrs), column) == (if columns.contains(column) {
            Some(bound(held(attrs, column)))
        } else {
            None
        }),
{
    let values = stored_values(columns, attrs);
    lemma_key_at(values, column);
    if columns.contains(column) {
        let i = choose|i: int| 0 <= i < columns.len() && columns[i] == column;
        assert(values[i].0 == column);
    } else if held(values, column) is Some {
        let i = crate::attr::key_at(values, column)->0;
        assert(columns[i] == column);
    }
}

/// A snapshot is the row as it was read: where every column could be read, each holds
/// its text, or null where it was null; where one could not be, the snapshot fails with
/// the first failure.
pub proof fn law_a_snapshot_is_the_row_as_read(
    columns: Seq<Seq<char>>,
    cells: Seq<Result<Option<Seq<char>>, Seq<char>>>,
    i: int,
)
    requires
        cells.len() == columns.len(),
        0 <= i < columns.len(),
    ensures
        snapshot_attrs(columns, cells) is Ok <==> forall|k: int|
            0 <= k < cells.len() ==> (#[trigger] cells[k]) is Ok,
        snapshot_attrs(columns, cells) is Ok && (forall|k: int|
            i < k < columns.len() ==> #[trigger] columns[k] != columns[i]) ==> held(
            snapshot_attrs(columns, cells)->Ok_0,
            columns[i],
        ) == (match cells[i]->Ok_0 {
            Some(text) => Some(AttrModel::Text(text)),
            None => Some(AttrModel::Null),
        }),
        cells[i] is Err && (forall|k: int| 0 <= k < i ==> (#[trigger] cells[k]) is Ok)
            ==> snapshot_attrs(columns, cells) == Err::<Seq<(Seq<char>, AttrModel)>, Seq<char>>(
            cells[i]->Err_0,
        ),
    decreases columns.len(),
{
    let n = columns.len() - 1;
    let cols = columns.drop_last();
    let read = cells.drop_last();
    if i < n {
        law_a_snapshot_is_the_row_as_read(cols, read, i);
        assert(cols[i] == columns[i] && read[i] == cells[i]);
    } else if n > 0 {
        law_a_snapshot_is_the_row_as_read(cols, read, 0);
    }
    assert(forall|k: int| 0 <= k < read.len() ==> #[trigger] read[k] == cells[k]);
    assert(forall|k: int| 0 <= k < cols.len() ==> #[trigger] cols[k] == columns[k]);
    if forall|k: int| 0 <= k < read.len() ==> (#[trigger] read[k]) is Ok {
        if cells[n] is Ok {
            assert forall|k: int| 0 <= k < cells.len() implies (#[trigger] cells[k]) is Ok by {
                if k < n {
                    assert(read[k] is Ok);
                }
            }
        }
    }
    if snapshot_attrs(columns, cells) is Ok {
        assert(snapshot_attrs(cols, read) is Ok);
        let before = snapshot_attrs(cols, read)->Ok_0;
        let value = match cells[n]->Ok_0 {
            Some(v) => AttrModel::Text(v),
            None => AttrModel::Null,
        };
        assert(snapshot_attrs(columns, cells)->Ok_0 == put(before, columns[n], value));
        law_put_then_held(before, columns[n], value, columns[i]);
        assert(forall|k: int| i < k < cols.len() ==> #[trigger] cols[k] == columns[k]);
        assert(columns[n] == columns.last());
    }
    if n > 0 && i == n && cells[i] is Err && (forall|k: int|
        0 <= k < i ==> (#[trigger] cells[k]) is Ok) {
        assert(forall|k: int| 0 <= k < read.len() ==> (#[trigger] read[k]) is Ok);
    }
}

/// A save in which every stage goes well reads the row where it is read at all, asks
/// every listener, writes, commits and tells every listener, and is then finished.
pub proof fn law_a_good_save_is_written_and_committed(c: Course, went: Seq<bool>)
    requires
        c.writable,
        forall|i: int| 0 <= i < went.len() ==> #[trigger] went[i],
    ensures
        ({
            let opening: int = if c.loads {
                2
            } else {
                1
            };
            let n = went.len() as int;
            let stage = stage_after(c, went);
            &&& n == 0 ==> stage == Stage::Begin
            &&& n == 1 && c.loads ==> stage == Stage::Load
            &&& opening <= n < opening + c.listeners ==> stage == Stage::Before(
                (n - opening) as usize,
            )
            &&& n == opening + c.listeners ==> stage == Stage::Write
            &&& n == opening + c.listeners + 1 ==> stage == Stage::Commit
            &&& opening + c.listeners + 2 <= n < opening + 2 * c.listeners + 2 ==> stage
                == Stage::After((n - opening - c.listeners - 2) as usize)
            &&& n >= opening + 2 * c.listeners + 2 ==> stage == Stage::Finished
        }),
    decreases went.len(),
{
    if went.len() > 0 {
        let init = went.drop_last();
        assert forall|i: int| 0 <= i < init.len() implies #[trigger] init[i] by {
            assert(init[i] == went[i]);
        }
        law_a_good_save_is_written_and_committed(c, init);
        assert(went[went.len() - 1]);
    }
}

/// A stage that goes wrong before the commit leads to the rollback and from there to
/// the end, with nothing written in between; where the transaction never opened, there
/// is nothing to roll back.
pub proof fn law_a_failed_stage_is_rolled_back(c: Course, stage: Stage)
    ensures
        stage is Load || stage is Before || stage is Write ==> next_stage(c, stage, false)
            == Stage::Undo,
        stage is Begin || stage is Commit ==> next_stage(c, stage, false) == Stage::Finished,
        stage is Undo || stage is Finished ==> forall|ok: bool|
            #[trigger] next_stage(c, stage, ok) == Stage::Finished,
        stage is After ==> next_stage(c, stage, false) == next_stage(c, stage, true),
{
}

/// A save reports the first thing that went wrong and nothing but that: a stage that
/// fails before the commit is done becomes the failure, and the stages that follow the
/// failure or the commit change nothing of it.
pub proof fn law_a_save_reports_what_went_wrong(
    s: SaveModel,
    e: SaveErrorModel,
    reply: ReplyModel,
)
    ensures
        s.stage is Begin || s.stage is Load || s.stage is Before || s.stage is Write
            || s.stage is Commit ==> save_after(s, Err(e)).failure == Some(e),
        s.stage is Undo || s.stage is After || s.stage is Finished ==> save_after(
            s,
            Err(e),
        ).failure == s.failure && save_after(s, Ok(reply)).failure == s.failure,
        s.op == Op::Create || s.id is Some ==> save_after(s, Ok(reply)).failure == s.failure,
{
}

/// An update reads its row first and a create does not; a create can always be
/// written, an update only where it has a row.
pub proof fn law_an_update_reads_its_row_first(has_id: bool, listeners: usize)
    ensures
        save_course(Op::Create, has_id, listeners).writable,
        !save_course(Op::Create, has_id, listeners).loads,
        save_course(Op::Update, true, listeners).writable,
        save_course(Op::Update, true, listeners).loads,
        !save_course(Op::Update, false, listeners).writable,
        forall|op: Op| (#[trigger] save_course(op, has_id, listeners)).listeners == listeners,
{
}

/// A save changes nothing of the record's own attributes. A created record takes the
/// id the database gave it, an updated one remembers what its row held before.
pub proof fn law_a_saved_record_knows_its_row(
    s: SaveModel,
    rec: RecordModel,
    o: Result<ReplyModel, SaveErrorModel>,
    id: i64,
    previous: RecordModel,
)
    ensures
        record_after(s, rec, o).attrs == rec.attrs,
        record_after(s, rec, o).entity == rec.entity,
        o is Err ==> record_after(s, rec, o) == rec,
        s.stage is Write && s.op == Op::Create ==> record_after(
            s,
            rec,
            Ok(ReplyModel::NewId(id)),
        ).id == Some(id),
        s.op == Op::Update || !(s.stage is Write) ==> record_after(s, rec, o).id == rec.id,
        s.stage is Load ==> record_after(
            s,
            rec,
            Ok(ReplyModel::Snapshot(Some(previous))),
        ).original == Some(previous.attrs),
        !(s.stage is Load) ==> record_after(s, rec, o).original == rec.original,
{
}

/// A delete is about the record it was asked for: the row as it was read, or a record of
/// the entity that has nothing but the id. A record that knows its own id keeps it.
pub proof fn law_a_delete_is_about_its_record(
    entity: Seq<char>,
    id: i64,
    loaded: Option<RecordModel>,
)
    ensures
        ({
            let rec = identified(entity, decimal_int(id as int), loaded);
            &&& loaded is None ==> rec == (RecordModel { id: Some(id), ..bare_record(entity) })
            &&& loaded matches Some(l) ==> rec.attrs == l.attrs && rec.entity == l.entity
                && rec.original == l.original && (l.id is Some ==> rec.id == l.id) && (
            l.id is None ==> rec.id == Some(id))
        }),
{
    law_a_written_number_reads_back(id);
}

/// A delete asks for its row, and keeps the record it read to the end. It reports the
/// refusal of a listener or the failure of a stage, and no later stage takes that back.
pub proof fn law_a_delete_keeps_the_record_it_read(
    d: DeleteModel,
    loaded: Option<RecordModel>,
    reply: ReplyModel,
    e: DeleteErrorModel,
)
    ensures
        d.stage is Load ==> delete_after(d, Ok(ReplyModel::Snapshot(loaded))).record == Some(
            identified(d.entity, d.id, loaded),
        ),
        !(d.stage is Load) ==> delete_after(d, Ok(reply)).record == d.record,
        delete_after(d, Err(e)).record == d.record,
        delete_after(d, Ok(reply)).failure == d.failure,
        d.stage is Begin || d.stage is Load || d.stage is Before || d.stage is Write
            || d.stage is Commit ==> delete_after(d, Err(e)).failure == Some(e),
        d.stage is Undo || d.stage is After || d.stage is Finished ==> delete_after(
            d,
            Err(e),
        ).failure == d.failure,
        d.stage is Begin ==> delete_after(d, Ok(reply)).stage == Stage::Load,
        d.stage is Load && d.listeners == 0 ==> delete_after(d, Ok(reply)).stage == Stage::Write,
        delete_after(d, Ok(reply)).entity == d.entity && delete_after(d, Ok(reply)).id == d.id,
{
}

} // verus!
