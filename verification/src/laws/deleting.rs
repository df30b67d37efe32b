//! What deleting the selected records of a list promises.

use vstd::prelude::*;

use crate::bulk::{outcome_flashes, outcome_of, queued, ticked, OutcomeModel};
use crate::persist::DeleteErrorModel;
use crate::session::{FlashLevel, FlashModel, HandleModel};
use crate::strs::trimmed;
use crate::text::TextModel;

verus! {

/// Every ticked box is a record of the selection, in order; a blank one is none, and
/// nothing else that is submitted is.
pub proof fn law_every_ticked_box_is_selected(
    pairs: Seq<(Seq<char>, Seq<char>)>,
    name: Seq<char>,
    value: Seq<char>,
)
    ensures
        ticked(Seq::empty()).len() == 0,
        trimmed(value).len() > 0 ==> ticked(pairs.push(("id"@, value))) == ticked(pairs).push(
            trimmed(value),
        ),
        trimmed(value).len() == 0 ==> ticked(pairs.push(("id"@, value))) == ticked(pairs),
        name != "id"@ ==> ticked(pairs.push((name, value))) == ticked(pairs),
{
    reveal(Seq::filter_map);
    assert(pairs.push(("id"@, value)).drop_last() =~= pairs);
    assert(pairs.push((name, value)).drop_last() =~= pairs);
    assert(ticked(pairs) + seq![trimmed(value)] =~= ticked(pairs).push(trimmed(value)));
}

/// Each record's outcome counts as what it was: a delete as deleted, a refusal with its
/// own reason, a failure as failed.
pub proof fn law_each_outcome_counts_as_what_it_was(
    results: Seq<Option<DeleteErrorModel>>,
    message: TextModel,
    why: Seq<char>,
)
    ensures
        ({
            let before = outcome_of(results);
            let done = outcome_of(results.push(None));
            let refused = outcome_of(results.push(Some(DeleteErrorModel::Refused(message))));
            let failed = outcome_of(results.push(Some(DeleteErrorModel::Failed(why))));
            &&& done.deleted == before.deleted + 1 && done.refused == before.refused
                && done.failed == before.failed
            &&& refused.deleted == before.deleted && refused.refused == before.refused.push(
                message,
            ) && refused.failed == before.failed
            &&& failed.deleted == before.deleted && failed.refused == before.refused
                && failed.failed == before.failed + 1
        }),
        outcome_of(Seq::empty()) == (OutcomeModel { deleted: 0, refused: Seq::empty(), failed: 0 }),
{
    assert(results.push(None).drop_last() =~= results);
    assert(results.push(Some(DeleteErrorModel::Refused(message))).drop_last() =~= results);
    assert(results.push(Some(DeleteErrorModel::Failed(why))).drop_last() =~= results);
}

/// The operator is told all of it and nothing else: how many records went, where any
/// did, every refusal in its own words, and that some failed, where any did.
pub proof fn law_the_operator_is_told_what_became_of_each(o: OutcomeModel, i: int)
    requires
        o.deleted >= 0,
        o.failed >= 0,
    ensures
        ({
            let told = outcome_flashes(o);
            let head: int = if o.deleted > 0 {
                1
            } else {
                0
            };
            let tail: int = if o.failed > 0 {
                1
            } else {
                0
            };
            &&& told.len() == head + o.refused.len() + tail
            &&& o.deleted > 0 ==> told[0].level == FlashLevel::Success && told[0].text.count
                == o.deleted && told[0].text.source == "Deleted {n} record."@
                && told[0].text.plural == Some("Deleted {n} records."@)
            &&& 0 <= i < o.refused.len() ==> told[head + i].text == o.refused[i] && told[head
                + i].level == FlashLevel::Error
            &&& o.failed > 0 ==> told.last().level == FlashLevel::Error
                && told.last().text.source == "Some records could not be deleted."@
        }),
{
}

/// What is to be told is queued behind what is queued already, and a session that was
/// told something is stored.
pub proof fn law_messages_wait_in_order(h: HandleModel, told: Seq<FlashModel>, f: FlashModel)
    ensures
        queued(h, Seq::empty()).data.flash == h.data.flash,
        queued(h, Seq::empty()).dirty == h.dirty,
        queued(h, told.push(f)).data.flash == queued(h, told).data.flash.push(f),
        queued(h, told.push(f)).dirty,
        queued(h, told).data.csrf == h.data.csrf,
{
    assert(h.data.flash + Seq::<FlashModel>::empty() =~= h.data.flash);
    assert(h.data.flash + told.push(f) =~= (h.data.flash + told).push(f));
}

} // verus!
