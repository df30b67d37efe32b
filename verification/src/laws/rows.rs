//! What the statements do to a table's rows.

use vstd::prelude::*;

use crate::attr::held;
use crate::laws::saving::reads_back;
use crate::persist::BoundModel;
use crate::statements::{
    and_meeting, and_term, cast_of, named, reading_as, row_read, Backend, ChosenModel,
    ConditionModel, ParamModel, TermModel, WhereModel,
};
use crate::table::{among, meets, meets_term, text_in, StoredRow};

verus! {

/// What a stored value is compared as, where it is not null.
pub open spec fn compares_as(value: BoundModel) -> Option<ParamModel> {
    match value {
        BoundModel::Null => None,
        BoundModel::Int(i) => Some(ParamModel::Int(i)),
        BoundModel::Text(t) => Some(ParamModel::Text(t)),
    }
}

/// A row after a write: the columns that were written hold what was written, the others
/// what they held.
pub open spec fn row_written(
    row: StoredRow,
    written: Seq<(Seq<char>, BoundModel)>,
) -> StoredRow {
    StoredRow {
        values: Map::new(
            |c: Seq<char>|
                match held(written, c) {
                    Some(v) => compares_as(v) is Some,
                    None => row.values.contains_key(c),
                },
            |c: Seq<char>|
                match held(written, c) {
                    Some(v) => compares_as(v)->0,
                    None => row.values[c],
                },
        ),
        texts: Map::new(
            |c: Seq<char>|
                match held(written, c) {
                    Some(v) => reads_back(v) is Some,
                    None => row.texts.contains_key(c),
                },
            |c: Seq<char>|
                match held(written, c) {
                    Some(v) => reads_back(v)->0,
                    None => row.texts[c],
                },
        ),
        lowered: row.lowered,
    }
}

/// A row that holds nothing yet.
pub open spec fn no_row() -> StoredRow {
    StoredRow { values: Map::empty(), texts: Map::empty(), lowered: Map::empty() }
}

/// A statement that names a row by its id is about the rows whose id reads so, and about
/// no other; one that names a row by a column's value about those that hold that value.
pub proof fn law_a_statement_is_about_the_row_it_names(
    row: StoredRow,
    column: Seq<char>,
    value: Seq<char>,
    backend: Backend,
)
    ensures
        among(row, reading_as(column, value, backend)) <==> text_in(row, column) == Some(value),
        among(row, named(column, value)) <==> row.values.contains_key(column)
            && row.values[column] == ParamModel::Text(value),
        among(row, WhereModel::Every),
{
    reveal_with_fuel(meets, 2);
    reveal_with_fuel(meets_term, 2);
    let c = reading_as(column, value, backend)->Meeting_0;
    assert(c.terms[0] == TermModel::TextIs { column, cast: cast_of(backend), text: value });
    let d = named(column, value)->Meeting_0;
    assert(d.terms[0] == TermModel::FieldIs { column, value: ParamModel::Text(value) });
    if text_in(row, column) == Some(value) {
        assert forall|i: int| 0 <= i < c.terms.len() implies meets_term(row, #[trigger] c.terms[i]) by {
            assert(i == 0);
        }
    }
    if row.values.contains_key(column) && row.values[column] == ParamModel::Text(value) {
        assert forall|i: int| 0 <= i < d.terms.len() implies meets_term(row, #[trigger] d.terms[i]) by {
            assert(i == 0);
        }
    }
}

/// A condition that is added narrows: the rows a statement is about then are those it was
/// about before that meet the condition as well.
pub proof fn law_an_added_condition_narrows(
    row: StoredRow,
    rows: WhereModel,
    added: ConditionModel,
    term: TermModel,
)
    ensures
        among(row, and_meeting(rows, added)) <==> among(row, rows) && meets(row, added),
        among(row, and_term(rows, term)) <==> among(row, rows) && meets_term(row, term),
{
    lemma_and(row, rows, added);
    let one = ConditionModel { any: false, terms: seq![term] };
    lemma_and(row, rows, one);
    lemma_all(row, one);
    if meets(row, one) {
        assert(meets_term(row, one.terms[0]));
    }
    if meets_term(row, term) {
        assert forall|i: int| 0 <= i < one.terms.len() implies meets_term(
            row,
            #[trigger] one.terms[i],
        ) by {
            assert(i == 0);
        }
    }
}

/// What it means that every term of a condition is met, and that any is.
proof fn lemma_all(row: StoredRow, c: ConditionModel)
    ensures
        !c.any ==> (meets(row, c) <==> forall|i: int|
            0 <= i < c.terms.len() ==> meets_term(row, #[trigger] c.terms[i])),
        c.any ==> (meets(row, c) <==> exists|i: int|
            0 <= i < c.terms.len() && meets_term(row, #[trigger] c.terms[i])),
        meets_term(row, TermModel::Group(c)) == meets(row, c),
        c.terms.len() == 1 ==> meets(row, c) == meets_term(row, c.terms[0]),
{
    reveal_with_fuel(meets, 2);
    reveal_with_fuel(meets_term, 2);
    if c.terms.len() == 1 {
        if meets_term(row, c.terms[0]) && !c.any {
            assert forall|i: int| 0 <= i < c.terms.len() implies meets_term(
                row,
                #[trigger] c.terms[i],
            ) by {
                assert(i == 0);
            }
        }
    }
}

/// Two conditions as one.
proof fn lemma_and(row: StoredRow, rows: WhereModel, added: ConditionModel)
    ensures
        among(row, and_meeting(rows, added)) <==> among(row, rows) && meets(row, added),
{
    match rows {
        WhereModel::Every => {},
        WhereModel::Meeting(c) => {
            lemma_all(row, c);
            lemma_all(row, added);
            let both = and_meeting(rows, added)->Meeting_0;
            lemma_all(row, both);
            let n = c.terms.len() as int;
            if c.any {
                assert(both.terms.len() == 2);
                if meets(row, both) {
                    assert(meets_term(row, both.terms[0]));
                    assert(meets_term(row, both.terms[1]));
                }
            } else if added.any {
                assert(both.terms[n] == crate::statements::grouped(added));
                assert(forall|i: int| 0 <= i < n ==> #[trigger] both.terms[i] == c.terms[i]);
                if meets(row, both) {
                    assert(meets_term(row, both.terms[n]));
                    assert forall|i: int| 0 <= i < n implies meets_term(
                        row,
                        #[trigger] c.terms[i],
                    ) by {
                        assert(meets_term(row, both.terms[i]));
                    }
                }
            } else {
                assert(forall|i: int| 0 <= i < n ==> #[trigger] both.terms[i] == c.terms[i]);
                assert(forall|i: int|
                    0 <= i < added.terms.len() ==> both.terms[n + i] == #[trigger] added.terms[i]);
                if meets(row, both) {
                    assert forall|i: int| 0 <= i < n implies meets_term(
                        row,
                        #[trigger] c.terms[i],
                    ) by {
                        assert(meets_term(row, both.terms[i]));
                    }
                    assert forall|i: int| 0 <= i < added.terms.len() implies meets_term(
                        row,
                        #[trigger] added.terms[i],
                    ) by {
                        assert(meets_term(row, both.terms[n + i]));
                    }
                }
                if meets(row, c) && meets(row, added) {
                    assert forall|i: int| 0 <= i < both.terms.len() implies meets_term(
                        row,
                        #[trigger] both.terms[i],
                    ) by {
                        if i < n {
                            assert(meets_term(row, c.terms[i]));
                        } else {
                            assert(both.terms[i] == added.terms[i - n]);
                            assert(meets_term(row, added.terms[i - n]));
                        }
                    }
                }
            }
        },
    }
}

/// The read of a row reads its own table, that row and no other, and every column asked
/// for as text under its own name.
pub proof fn law_a_row_is_read_by_its_id(
    table: Seq<char>,
    columns: Seq<Seq<char>>,
    id_field: Seq<char>,
    id: Seq<char>,
    backend: Backend,
    row: StoredRow,
    i: int,
)
    requires
        0 <= i < columns.len(),
    ensures
        ({
            let s = row_read(table, columns, id_field, id, backend);
            &&& s.tables == seq![table]
            &&& (among(row, s.rows) <==> text_in(row, id_field) == Some(id))
            &&& s.chosen.len() == columns.len()
            &&& s.chosen[i] == ChosenModel::AsText {
                column: columns[i],
                cast: cast_of(backend),
                alias: columns[i],
            }
            &&& s.limit is None && s.offset is None
        }),
        cast_of(Backend::MySql) == "char"@,
        cast_of(Backend::Postgres) == "text"@,
        cast_of(Backend::Sqlite) == "text"@,
{
    law_a_statement_is_about_the_row_it_names(row, id_field, id, backend);
}

/// A column that was written holds what was written, and one that was not holds what it
/// held.
pub proof fn law_a_written_column_holds_its_value(
    row: StoredRow,
    written: Seq<(Seq<char>, BoundModel)>,
    column: Seq<char>,
)
    ensures
        held(written, column) is None ==> text_in(row_written(row, written), column) == text_in(
            row,
            column,
        ),
        held(written, column) matches Some(v) ==> text_in(row_written(row, written), column)
            == reads_back(v),
{
}

} // verus!
