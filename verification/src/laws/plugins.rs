//! What recording, enabling and setting plugins aside promises.

use vstd::prelude::*;

use crate::attr::lemma_key_at;
use crate::laws::rows::{
    law_a_statement_is_about_the_row_it_names, no_row, row_written,
};
use crate::laws::values::lemma_kept;
use crate::persist::BoundModel;
use crate::plugins::{
    action_change, after_boot, boot_actions, cleared_ids, crashed, crashed_ids, disabled_read,
    journal_read, loading_values, outdated, plugin_view, plugins_read, quarantined_read,
    recorded_values, row_actions, row_change, toggle_values, unseen, ActionModel, JournalModel,
    PluginRowModel, CRASH_REASON, TABLE,
};
use crate::statements::{named, ChosenModel, ParamModel, TermModel};
use crate::table::{among, meets, meets_term, text_in, StoredRow};

verus! {

/// The columns a change names are names of their own.
proof fn lemma_names()
    ensures
        "enabled"@.len() == 7,
        "plugin_id"@.len() == 9,
        "updated_at"@.len() == 10,
        "created_at"@.len() == 10,
        "updated_at"@ != "created_at"@,
        "quarantined_at"@.len() == 14,
        "load_fingerprint"@.len() == 16,
        "quarantined_reason"@.len() == 18,
        "quarantined_fingerprint"@.len() == 23,
{
    reveal_strlit("enabled");
    reveal_strlit("plugin_id");
    reveal_strlit("updated_at");
    reveal_strlit("created_at");
    reveal_strlit("quarantined_at");
    reveal_strlit("load_fingerprint");
    reveal_strlit("quarantined_reason");
    reveal_strlit("quarantined_fingerprint");
    assert("updated_at"@[0] == 'u' && "created_at"@[0] == 'c');
}

/// The rows of which the `enabled` column is nought.
proof fn lemma_disabled(row: StoredRow)
    ensures
        among(row, disabled_read().rows) <==> row.values.contains_key("enabled"@)
            && row.values["enabled"@] == ParamModel::Int(0),
{
    reveal_with_fuel(meets, 2);
    reveal_with_fuel(meets_term, 2);
    let c = disabled_read().rows->Meeting_0;
    assert(c.terms[0] == TermModel::FieldIs { column: "enabled"@, value: ParamModel::Int(0) });
    if row.values.contains_key("enabled"@) && row.values["enabled"@] == ParamModel::Int(0) {
        assert forall|i: int| 0 <= i < c.terms.len() implies meets_term(row, #[trigger] c.terms[i]) by {
            assert(i == 0);
        }
    }
}

/// A plugin reads back as it was set: after an operator disables it the disabled plugins
/// list it, and after they enable it they do not. The change is about that plugin alone,
/// and leaves its id and its version as they were.
pub proof fn law_a_plugin_reads_back_as_set(
    row: StoredRow,
    id: Seq<char>,
    enabled: bool,
    now: Seq<char>,
)
    ensures
        ({
            let change = row_change(toggle_values(enabled, now), id);
            let after = row_written(row, change.values);
            &&& (among(after, disabled_read().rows) <==> !enabled)
            &&& change.table == TABLE@
            &&& (among(row, change.rows) <==> row.values.contains_key("plugin_id"@)
                && row.values["plugin_id"@] == ParamModel::Text(id))
            &&& text_in(after, "plugin_id"@) == text_in(row, "plugin_id"@)
            &&& text_in(after, "updated_at"@) == Some(now)
            &&& enabled ==> text_in(after, "quarantined_reason"@) is None
            &&& !enabled ==> text_in(after, "quarantined_reason"@) == text_in(
                row,
                "quarantined_reason"@,
            )
        }),
        disabled_read().tables == seq![TABLE@],
        disabled_read().chosen == seq![ChosenModel::Column("plugin_id"@)],
{
    lemma_names();
    let values = toggle_values(enabled, now);
    let after = row_written(row, values);
    lemma_disabled(after);
    law_a_statement_is_about_the_row_it_names(
        row,
        "plugin_id"@,
        id,
        crate::statements::Backend::Sqlite,
    );
    lemma_key_at(values, "enabled"@);
    lemma_key_at(values, "plugin_id"@);
    lemma_key_at(values, "updated_at"@);
    lemma_key_at(values, "quarantined_reason"@);
    if enabled {
        assert(values.len() == 5);
        assert(values[0].0 == "enabled"@ && values[1].0 == "quarantined_reason"@ && values[2].0
            == "quarantined_at"@ && values[3].0 == "quarantined_fingerprint"@ && values[4].0
            == "updated_at"@);
        assert(values[0].1 == BoundModel::Int(1));
    } else {
        assert(values.len() == 2);
        assert(values[0].0 == "enabled"@ && values[1].0 == "updated_at"@);
        assert(values[0].1 == BoundModel::Int(0));
    }
    assert(disabled_read().chosen =~= seq![ChosenModel::Column("plugin_id"@)]);
}

/// A plugin that is newly recorded stands under its id, in the state it was recorded in,
/// and is not set aside.
pub proof fn law_a_recorded_plugin_reads_back(id: Seq<char>, enabled: bool, now: Seq<char>)
    ensures
        ({
            let row = row_written(no_row(), recorded_values(id, enabled, now));
            &&& (among(row, disabled_read().rows) <==> !enabled)
            &&& !among(row, quarantined_read().rows)
            &&& text_in(row, "plugin_id"@) == Some(id)
            &&& text_in(row, "created_at"@) == Some(now)
            &&& text_in(row, "updated_at"@) == Some(now)
        }),
{
    lemma_names();
    let values = recorded_values(id, enabled, now);
    let row = row_written(no_row(), values);
    lemma_disabled(row);
    lemma_quarantined(row);
    lemma_key_at(values, "enabled"@);
    lemma_key_at(values, "plugin_id"@);
    lemma_key_at(values, "updated_at"@);
    lemma_key_at(values, "created_at"@);
    lemma_key_at(values, "quarantined_reason"@);
    assert(values.len() == 4);
    assert(values[0].0 == "plugin_id"@ && values[1].0 == "enabled"@ && values[2].0
        == "created_at"@ && values[3].0 == "updated_at"@);
    if enabled {
        assert(values[1].1 == BoundModel::Int(1));
    } else {
        assert(values[1].1 == BoundModel::Int(0));
    }
}

/// The rows of which a reason is recorded.
proof fn lemma_quarantined(row: StoredRow)
    ensures
        among(row, quarantined_read().rows) <==> text_in(row, "quarantined_reason"@) is Some,
{
    reveal_with_fuel(meets, 2);
    reveal_with_fuel(meets_term, 2);
    let c = quarantined_read().rows->Meeting_0;
    assert(c.terms[0] == TermModel::Present { column: "quarantined_reason"@ });
    if text_in(row, "quarantined_reason"@) is Some {
        assert forall|i: int| 0 <= i < c.terms.len() implies meets_term(row, #[trigger] c.terms[i]) by {
            assert(i == 0);
        }
    }
}

/// A plugin that is set aside is listed among the quarantined ones, with the reason, the
/// time and the binary it failed under, and its attempt is over; one whose quarantine is
/// lifted is not.
pub proof fn law_a_quarantine_is_recorded_and_lifted(
    row: StoredRow,
    id: Seq<char>,
    reason: Seq<char>,
    fingerprint: Seq<char>,
    now: Seq<char>,
)
    ensures
        ({
            let put = action_change(ActionModel::Quarantine { id, reason, fingerprint }, now);
            let lift = action_change(ActionModel::ClearQuarantine { id }, now);
            let clear = action_change(ActionModel::ClearLoading { id }, now);
            let aside = row_written(row, put.values);
            &&& among(aside, quarantined_read().rows)
            &&& text_in(aside, "quarantined_reason"@) == Some(reason)
            &&& text_in(aside, "quarantined_at"@) == Some(now)
            &&& text_in(aside, "quarantined_fingerprint"@) == Some(fingerprint)
            &&& text_in(aside, "load_fingerprint"@) is None
            &&& !among(row_written(row, lift.values), quarantined_read().rows)
            &&& text_in(row_written(row, clear.values), "load_fingerprint"@) is None
            &&& text_in(row_written(row, clear.values), "quarantined_reason"@) == text_in(
                row,
                "quarantined_reason"@,
            )
            &&& put.rows == named("plugin_id"@, id) && lift.rows == put.rows && clear.rows
                == put.rows
            &&& put.table == TABLE@ && lift.table == TABLE@ && clear.table == TABLE@
        }),
{
    lemma_names();
    let put = action_change(ActionModel::Quarantine { id, reason, fingerprint }, now).values;
    let lift = action_change(ActionModel::ClearQuarantine { id }, now).values;
    let clear = action_change(ActionModel::ClearLoading { id }, now).values;
    lemma_quarantined(row_written(row, put));
    lemma_quarantined(row_written(row, lift));
    lemma_key_at(put, "quarantined_reason"@);
    lemma_key_at(put, "quarantined_at"@);
    lemma_key_at(put, "quarantined_fingerprint"@);
    lemma_key_at(put, "load_fingerprint"@);
    lemma_key_at(lift, "quarantined_reason"@);
    lemma_key_at(clear, "quarantined_reason"@);
    lemma_key_at(clear, "load_fingerprint"@);
    assert(put[0].0 == "quarantined_reason"@ && put[1].0 == "quarantined_at"@ && put[2].0
        == "quarantined_fingerprint"@ && put[3].0 == "load_fingerprint"@ && put[4].0
        == "updated_at"@);
    assert(lift[0].0 == "quarantined_reason"@ && lift[1].0 == "quarantined_at"@ && lift[2].0
        == "quarantined_fingerprint"@ && lift[3].0 == "updated_at"@);
    assert(clear[0].0 == "load_fingerprint"@ && clear[1].0 == "updated_at"@);
}

/// A boot sets aside just the plugins whose init took down the last boot under this very
/// binary, lets the others try again, and says which it set aside and which it let back.
pub proof fn law_a_boot_sets_aside_what_crashed(
    rows: Seq<JournalModel>,
    row: JournalModel,
    fingerprint: Seq<char>,
)
    requires
        rows.contains(row),
    ensures
        ({
            let after = after_boot(row, fingerprint);
            let took_down = row.load_fingerprint == Some(fingerprint);
            let other_binary = row.quarantined_fingerprint != Some(fingerprint);
            &&& after.load_fingerprint is None
            &&& after.id == row.id
            &&& took_down ==> after.quarantined_reason == Some(CRASH_REASON@)
                && after.quarantined_fingerprint == Some(fingerprint) && crashed_ids(
                rows,
                fingerprint,
            ).contains(row.id)
            &&& !took_down && other_binary ==> after.quarantined_reason is None
            &&& !took_down && !other_binary ==> after.quarantined_reason
                == row.quarantined_reason && after.quarantined_fingerprint
                == row.quarantined_fingerprint
            &&& !took_down && row.quarantined_reason is Some && other_binary ==> cleared_ids(
                rows,
                fingerprint,
            ).contains(row.id)
        }),
{
    reveal_with_fuel(crate::plugins::after_actions, 3);
    let actions = row_actions(row, fingerprint);
    if actions.len() > 0 {
        assert(actions.drop_last().len() == actions.len() - 1);
        if actions.len() == 2 {
            assert(actions.drop_last() =~= seq![actions[0]]);
            assert(seq![actions[0]].drop_last() =~= Seq::empty());
        } else {
            assert(actions.drop_last() =~= Seq::empty());
        }
    }
    lemma_kept(
        rows,
        |r: JournalModel|
            if crashed(r, fingerprint) {
                Some(r.id)
            } else {
                None::<Seq<char>>
            },
        row.id,
    );
    lemma_kept(
        rows,
        |r: JournalModel|
            if outdated(r, fingerprint) {
                Some(r.id)
            } else {
                None::<Seq<char>>
            },
        row.id,
    );
    let f = |r: JournalModel|
        if crashed(r, fingerprint) {
            Some(r.id)
        } else {
            None::<Seq<char>>
        };
    let g = |r: JournalModel|
        if outdated(r, fingerprint) {
            Some(r.id)
        } else {
            None::<Seq<char>>
        };
    if crashed(row, fingerprint) {
        assert(f(row) == Some(row.id));
    }
    if outdated(row, fingerprint) {
        assert(g(row) == Some(row.id));
    }
}

/// A boot does for each plugin what that plugin's own journal asks for, in order, and
/// nothing else.
pub proof fn law_a_boot_takes_each_plugin_by_itself(
    rows: Seq<JournalModel>,
    row: JournalModel,
    fingerprint: Seq<char>,
)
    ensures
        boot_actions(Seq::empty(), fingerprint).len() == 0,
        boot_actions(rows.push(row), fingerprint) == boot_actions(rows, fingerprint)
            + row_actions(row, fingerprint),
        row.load_fingerprint is None && row.quarantined_reason is None ==> row_actions(
            row,
            fingerprint,
        ).len() == 0,
{
    assert(rows.push(row).drop_last() =~= rows);
}

/// The screen shows a plugin as it stands, and its button asks for the other state: a
/// plugin that is on can be switched off, one that is off on.
pub proof fn law_the_button_asks_for_the_other_state(row: PluginRowModel)
    ensures
        ({
            let v = plugin_view(row);
            &&& v.id == row.id
            &&& v.enabled == row.enabled
            &&& v.action_target != v.enabled
            &&& v.action_label == (if v.action_target {
                "Enable"@
            } else {
                "Disable"@
            })
            &&& v.quarantined <==> row.quarantined_reason is Some
            &&& row.quarantined_reason matches Some(why) ==> v.quarantined_reason == why
            &&& row.version matches Some(version) ==> v.version == version
            &&& row.version is None ==> v.version == "--"@
        }),
{
}

/// The roster records just the compiled plugins that are not recorded yet.
pub proof fn law_only_new_plugins_are_recorded(
    compiled: Seq<Seq<char>>,
    existing: Seq<Seq<char>>,
    id: Seq<char>,
)
    ensures
        unseen(compiled, existing).contains(id) <==> compiled.contains(id) && !existing.contains(
            id,
        ),
{
    let f = |x: Seq<char>|
        if existing.contains(x) {
            None::<Seq<char>>
        } else {
            Some(x)
        };
    lemma_kept(compiled, f, id);
    if compiled.contains(id) && !existing.contains(id) {
        assert(f(id) == Some(id));
    }
    if unseen(compiled, existing).contains(id) {
        let t = choose|t: Seq<char>| #[trigger] compiled.contains(t) && f(t) == Some(id);
        assert(t == id);
    }
}

/// An attempt to load is on record for the next boot: the row holds the binary it was made
/// under, which the journal reads, and nothing of a quarantine changes. The journal and
/// the plugins' screen are about every plugin.
pub proof fn law_an_attempt_is_on_record(
    row: StoredRow,
    fingerprint: Seq<char>,
    now: Seq<char>,
    id: Seq<char>,
)
    ensures
        ({
            let change = row_change(loading_values(fingerprint, now), id);
            let after = row_written(row, change.values);
            &&& text_in(after, "load_fingerprint"@) == Some(fingerprint)
            &&& text_in(after, "updated_at"@) == Some(now)
            &&& text_in(after, "quarantined_reason"@) == text_in(row, "quarantined_reason"@)
            &&& text_in(after, "plugin_id"@) == text_in(row, "plugin_id"@)
            &&& (among(after, disabled_read().rows) <==> among(row, disabled_read().rows))
        }),
        among(row, journal_read().rows),
        journal_read().tables == seq![TABLE@],
        journal_read().chosen.contains(ChosenModel::Column("plugin_id"@)),
        journal_read().chosen.contains(ChosenModel::Column("load_fingerprint"@)),
        journal_read().chosen.contains(ChosenModel::Column("quarantined_reason"@)),
        journal_read().chosen.contains(ChosenModel::Column("quarantined_fingerprint"@)),
        among(row, plugins_read().rows),
        plugins_read().tables == seq![TABLE@],
        plugins_read().chosen.contains(ChosenModel::Column("plugin_id"@)),
        plugins_read().chosen.contains(ChosenModel::Column("enabled"@)),
        plugins_read().chosen.contains(ChosenModel::Column("quarantined_reason"@)),
{
    lemma_names();
    let values = loading_values(fingerprint, now);
    let after = row_written(row, values);
    lemma_disabled(row);
    lemma_disabled(after);
    lemma_key_at(values, "enabled"@);
    lemma_key_at(values, "plugin_id"@);
    lemma_key_at(values, "updated_at"@);
    lemma_key_at(values, "load_fingerprint"@);
    lemma_key_at(values, "quarantined_reason"@);
    assert(values[0].0 == "load_fingerprint"@ && values[1].0 == "updated_at"@);
    let read = journal_read().chosen;
    assert(read[0] == ChosenModel::Column("plugin_id"@));
    assert(read[1] == ChosenModel::Column("load_fingerprint"@));
    assert(read[2] == ChosenModel::Column("quarantined_reason"@));
    assert(read[3] == ChosenModel::Column("quarantined_fingerprint"@));
    let shown = plugins_read().chosen;
    assert(shown[0] == ChosenModel::Column("plugin_id"@));
    assert(shown[1] == ChosenModel::Column("enabled"@));
    assert(shown[3] == ChosenModel::Column("quarantined_reason"@));
}

} // verus!
