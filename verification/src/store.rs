//! The settings store: one JSON value per code, kept as text so the store is the same
//! on every database.

use vstd::prelude::*;

use crate::persist::{Bound, BoundModel};
use crate::statements::{
    empty_select, finish_select, insert_text, named, select, select_column, select_from,
    select_parts, select_text, select_where_is, upsert_row, Backend, ChosenModel, InsertModel,
    SelectModel, Statement,
};

verus! {

/// What is read for a code: the value of the setting that has it.
pub open spec fn setting_read(code: Seq<char>) -> SelectModel {
    SelectModel {
        chosen: seq![ChosenModel::Column("value"@)],
        tables: seq!["settings"@],
        rows: named("code"@, code),
        ..empty_select()
    }
}

/// What is written for a code: the value and when it was set, in place of those of a
/// setting that has the code already.
pub open spec fn setting_write(code: Seq<char>, json: Seq<char>, now: Seq<char>) -> InsertModel {
    InsertModel {
        table: "settings"@,
        values: seq![
            ("code"@, BoundModel::Text(code)),
            ("value"@, BoundModel::Text(json)),
            ("updated_at"@, BoundModel::Text(now)),
        ],
        conflict: Some(("code"@, seq!["value"@, "updated_at"@])),
        returning: None,
    }
}

/// The read of the value stored for a code.
pub fn get(code: &str, backend: Backend) -> (r: Statement)
    ensures
        r.deep_view() == select_text(setting_read(code@), backend),
{
    let mut s = select();
    select_column(&mut s, "value");
    select_from(&mut s, "settings");
    select_where_is(&mut s, "code", code);
    assert(select_parts(s).chosen =~= seq![ChosenModel::Column("value"@)]);
    assert(select_parts(s).tables =~= seq!["settings"@]);
    finish_select(&s, backend)
}

/// The write of the value for a code, in place of one that stands already.
pub fn set(code: &str, json: &str, now: &str, backend: Backend) -> (r: Statement)
    ensures
        r.deep_view() == insert_text(setting_write(code@, json@, now@), backend),
{
    let mut values: Vec<(String, Bound)> = Vec::new();
    values.push(("code".to_owned(), Bound::Text(code.to_owned())));
    values.push(("value".to_owned(), Bound::Text(json.to_owned())));
    values.push(("updated_at".to_owned(), Bound::Text(now.to_owned())));
    assert(values.deep_view() =~= seq![
        ("code"@, BoundModel::Text(code@)),
        ("value"@, BoundModel::Text(json@)),
        ("updated_at"@, BoundModel::Text(now@)),
    ]);
    let mut changed: Vec<String> = Vec::new();
    changed.push("value".to_owned());
    changed.push("updated_at".to_owned());
    assert(changed.deep_view() =~= seq!["value"@, "updated_at"@]);
    upsert_row("settings", &values, "code", &changed, backend)
}

} // verus!
