//! Acting on selected list rows.
//!
//! A list marked `deletable` offers a checkbox per row and a Delete button. Each
//! selected record is deleted by itself rather than the whole selection at once: a
//! refusal then keeps what it refuses and nothing else, and the operator is told
//! what happened to each.

use vstd::prelude::*;

use crate::persist::{DeleteError, DeleteErrorModel};
use crate::reply::{saved, saved_response, Redirection};
use crate::session::{flash, FlashLevel, FlashModel, HandleModel, SessionHandle, SessionModel};
use crate::strs::{cat, same, trim, trimmed};
use crate::text::{counted, Text, TextModel};

verus! {

/// The ids a submitted selection holds, in order, without blanks.
pub open spec fn ticked(pairs: Seq<(Seq<char>, Seq<char>)>) -> Seq<Seq<char>> {
    pairs.filter_map(
        |p: (Seq<char>, Seq<char>)|
            if p.0 == "id"@ && trimmed(p.1).len() > 0 {
                Some(trimmed(p.1))
            } else {
                None::<Seq<char>>
            },
    )
}

/// The selected ids of the submitted pairs. A checkbox list arrives as one `id`
/// pair per ticked box.
pub fn selected(pairs: &Vec<(String, String)>) -> (r: Vec<String>)
    ensures
        r.deep_view() == ticked(pairs.deep_view()),
{
    let ghost all = pairs.deep_view();
    let ghost f = |p: (Seq<char>, Seq<char>)|
        if p.0 == "id"@ && trimmed(p.1).len() > 0 {
            Some(trimmed(p.1))
        } else {
            None::<Seq<char>>
        };
    let mut r: Vec<String> = Vec::new();
    let mut i: usize = 0;
    assert(r.deep_view() =~= all.take(0).filter_map(f));
    while i < pairs.len()
        invariant
            i <= pairs.len(),
            all == pairs.deep_view(),
            f == (|p: (Seq<char>, Seq<char>)|
                if p.0 == "id"@ && trimmed(p.1).len() > 0 {
                    Some(trimmed(p.1))
                } else {
                    None::<Seq<char>>
                }),
            r.deep_view() == all.take(i as int).filter_map(f),
        decreases pairs.len() - i,
    {
        let ghost before = r.deep_view();
        proof {
            all.lemma_filter_map_take_succ(f, i as int);
            assert(all[i as int] == pairs@[i as int].deep_view());
        }
        let value: &str = trim(pairs[i].1.as_str());
        if same(pairs[i].0.as_str(), "id") && !value.is_empty() {
            r.push(value.to_owned());
            assert(r.deep_view() =~= before + seq![value@]);
        }
        i = i + 1;
    }
    assert(all.take(all.len() as int) =~= all);
    r
}

// -------------------------------------------------------------------- outcome
/// What became of a selection.
pub struct Outcome {
    pub deleted: usize,
    /// One message per record that was refused, in selection order, so the
    /// operator learns why rather than that some failed.
    pub refused: Vec<Text>,
    pub failed: usize,
}

/// An [`Outcome`], over characters.
pub struct OutcomeModel {
    pub deleted: int,
    pub refused: Seq<TextModel>,
    pub failed: int,
}

impl DeepView for Outcome {
    type V = OutcomeModel;

    open spec fn deep_view(&self) -> OutcomeModel {
        OutcomeModel {
            deleted: self.deleted as int,
            refused: self.refused.deep_view(),
            failed: self.failed as int,
        }
    }
}

/// What became of a selection, given how each record's delete went: `None` is a
/// delete that succeeded.
pub open spec fn outcome_of(results: Seq<Option<DeleteErrorModel>>) -> OutcomeModel
    decreases results.len(),
{
    if results.len() == 0 {
        OutcomeModel { deleted: 0, refused: Seq::empty(), failed: 0 }
    } else {
        let before = outcome_of(results.drop_last());
        match results.last() {
            None => OutcomeModel { deleted: before.deleted + 1, ..before },
            Some(DeleteErrorModel::Refused(message)) => OutcomeModel {
                refused: before.refused.push(message),
                ..before
            },
            Some(DeleteErrorModel::Failed(_)) => OutcomeModel {
                failed: before.failed + 1,
                ..before
            },
        }
    }
}

/// Collects how each record's delete went.
pub fn delete_selected(results: &Vec<Option<DeleteError>>) -> (r: Outcome)
    ensures
        r.deep_view() == outcome_of(results.deep_view()),
        r.deleted <= results.len(),
{
    let ghost all = results.deep_view();
    let mut deleted: usize = 0;
    let mut failed: usize = 0;
    let mut refused: Vec<Text> = Vec::new();
    let mut i: usize = 0;
    assert(refused.deep_view() =~= Seq::<TextModel>::empty());
    while i < results.len()
        invariant
            i <= results.len(),
            all == results.deep_view(),
            deleted <= i,
            failed <= i,
            outcome_of(all.take(i as int)) == (OutcomeModel {
                deleted: deleted as int,
                refused: refused.deep_view(),
                failed: failed as int,
            }),
        decreases results.len() - i,
    {
        assert(all.take(i + 1).drop_last() =~= all.take(i as int));
        assert(all.take(i + 1).last() == results@[i as int].deep_view());
        let ghost before = refused.deep_view();
        match &results[i] {
            None => {
                deleted = deleted + 1;
            },
            Some(DeleteError::Refused(message)) => {
                refused.push(message.copy());
                assert(refused.deep_view() =~= before.push(message@));
            },
            Some(DeleteError::Failed(_)) => {
                failed = failed + 1;
            },
        }
        i = i + 1;
    }
    assert(all.take(all.len() as int) =~= all);
    Outcome { deleted, refused, failed }
}

/// Every record of a selection is accounted for once: deleted, refused with a
/// message, or failed.
pub proof fn law_every_record_is_accounted_for(results: Seq<Option<DeleteErrorModel>>)
    ensures
        outcome_of(results).deleted + outcome_of(results).refused.len() + outcome_of(results).failed
            == results.len(),
    decreases results.len(),
{
    if results.len() > 0 {
        law_every_record_is_accounted_for(results.drop_last());
    }
}

// ---------------------------------------------------------------------- screen
/// What the operator is told of an outcome. Each refusal carries its own reason,
/// so they are shown rather than counted.
pub open spec fn outcome_flashes(o: OutcomeModel) -> Seq<FlashModel> {
    let gone = if o.deleted > 0 {
        seq![
            FlashModel {
                level: FlashLevel::Success,
                text: counted("Deleted {n} record."@, "Deleted {n} records."@, o.deleted),
            },
        ]
    } else {
        Seq::empty()
    };
    let kept = o.refused.map_values(
        |message: TextModel| FlashModel { level: FlashLevel::Error, text: message },
    );
    let lost = if o.failed > 0 {
        seq![flash(FlashLevel::Error, "Some records could not be deleted."@)]
    } else {
        Seq::empty()
    };
    gone + kept + lost
}

/// A session with some more messages queued.
pub open spec fn queued(h: HandleModel, flashes: Seq<FlashModel>) -> HandleModel {
    HandleModel {
        data: SessionModel { flash: h.data.flash + flashes, ..h.data },
        dirty: h.dirty || flashes.len() > 0,
    }
}

/// What the Delete button leads to.
pub enum BulkStep {
    /// Nothing was selected: back to the list.
    Back(Redirection),
    /// Delete each of these, in order.
    Delete(Vec<String>),
}

/// The Delete button: the selected ids, or back to the list with a message where
/// nothing is selected. `base_path` is the list's path under the admin mount.
pub fn delete_submitted(
    session: &mut SessionHandle,
    pairs: &Vec<(String, String)>,
    htmx: bool,
    admin_path: &str,
    base_path: &str,
) -> (r: BulkStep)
    ensures
        ({
            let ids = ticked(pairs.deep_view());
            if ids.len() == 0 {
                &&& r matches BulkStep::Back(to) && to@ == saved(htmx, admin_path@ + base_path@)
                &&& final(session)@ == queued(
                    old(session)@,
                    seq![flash(FlashLevel::Error, "Select a record first."@)],
                )
            } else {
                &&& r matches BulkStep::Delete(list) && list.deep_view() == ids
                &&& final(session)@ == old(session)@
            }
        }),
{
    let ids: Vec<String> = selected(pairs);
    if ids.len() == 0 {
        let ghost before = session@.data.flash;
        session.push_flash(FlashLevel::Error, Text::new("Select a record first."));
        assert(session@.data.flash =~= before + seq![
            flash(FlashLevel::Error, "Select a record first."@),
        ]);
        return BulkStep::Back(saved_response(htmx, cat(admin_path, base_path).as_str()));
    }
    BulkStep::Delete(ids)
}

/// Tells the operator what happened to the selection, and goes back to the list.
pub fn delete_done(
    session: &mut SessionHandle,
    outcome: &Outcome,
    htmx: bool,
    admin_path: &str,
    base_path: &str,
) -> (r: Redirection)
    requires
        outcome.deleted <= i64::MAX,
    ensures
        r@ == saved(htmx, admin_path@ + base_path@),
        final(session)@ == queued(old(session)@, outcome_flashes(outcome.deep_view())),
{
    let ghost start = session@;
    let ghost want = outcome_flashes(outcome.deep_view());
    let ghost base = start.data.flash;
    let ghost kept = outcome.refused.deep_view().map_values(
        |message: TextModel| FlashModel { level: FlashLevel::Error, text: message },
    );
    let ghost mut sent: Seq<FlashModel> = Seq::empty();
    assert(base + sent =~= base);
    if outcome.deleted > 0 {
        session.push_flash(
            FlashLevel::Success,
            Text::counted("Deleted {n} record.", "Deleted {n} records.", outcome.deleted as i64),
        );
        proof {
            sent = seq![
                FlashModel {
                    level: FlashLevel::Success,
                    text: counted(
                        "Deleted {n} record."@,
                        "Deleted {n} records."@,
                        outcome.deleted as int,
                    ),
                },
            ];
        }
        assert(session@.data.flash =~= base + sent);
    }
    let mut i: usize = 0;
    assert(sent + kept.take(0) =~= sent);
    while i < outcome.refused.len()
        invariant
            i <= outcome.refused.len(),
            base == start.data.flash,
            kept == outcome.refused.deep_view().map_values(
                |message: TextModel| FlashModel { level: FlashLevel::Error, text: message },
            ),
            session@ == queued(start, sent + kept.take(i as int)),
        decreases outcome.refused.len() - i,
    {
        session.push_flash(FlashLevel::Error, outcome.refused[i].copy());
        assert(outcome.refused.deep_view()[i as int] == outcome.refused@[i as int]@);
        assert(base + (sent + kept.take(i + 1)) =~= (base + (sent + kept.take(i as int))).push(
            kept[i as int],
        ));
        i = i + 1;
    }
    assert(kept.take(kept.len() as int) =~= kept);
    if outcome.failed > 0 {
        session.push_flash(FlashLevel::Error, Text::new("Some records could not be deleted."));
        assert(want =~= (sent + kept).push(
            flash(FlashLevel::Error, "Some records could not be deleted."@),
        ));
        assert(session@.data.flash =~= base + want);
    } else {
        assert(want =~= sent + kept);
    }
    saved_response(htmx, cat(admin_path, base_path).as_str())
}

} // verus!
