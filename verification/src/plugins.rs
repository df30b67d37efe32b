//! The plugin registry: each plugin's operator enable/disable state, and the journal
//! that keeps one plugin's crash from stopping every boot.
//!
//! `enabled` is the operator's intent. The quarantine columns are the system's
//! verdict, set when a plugin fails to load, with the binary it failed under so a new
//! binary can lift it. The load marker is set to the running binary's fingerprint
//! just before a plugin's init runs and cleared right after it succeeds, so one still
//! present at the next boot means that plugin's init took the whole process down.

use vstd::prelude::*;

use crate::persist::{Bound, BoundModel};
use crate::session::{flash, Flash, FlashLevel};
use crate::statements::{
    each, empty_select, finish_select, insert_row, insert_text, named, select, select_column, select_from,
    select_order, select_parts, select_text, select_where_int, select_where_present, update_named,
    update_text, Backend, ChosenModel, InsertModel, ParamModel, SelectModel, Statement, TermModel,
    UpdateModel,
};
use crate::list::SortDir;
use crate::picker::text_or_blank;
use crate::strs::{cat, listed, same};
use crate::users::truth_or;

verus! {

/// Stable id of this built-in module.
pub const MODULE_ID: &'static str = "laterite.plugins";

/// The registry's table.
pub const TABLE: &'static str = "laterite_plugins";

/// Reason recorded when a plugin is quarantined because its init crashed the
/// previous boot.
pub const CRASH_REASON: &'static str = "init crashed the previous boot";

// ----------------------------------------------------------------------- roster
/// A plugin's registry row, for the admin screen.
#[derive(Debug)]
pub struct PluginRow {
    pub id: String,
    pub enabled: bool,
    pub version: Option<String>,
    pub quarantined_reason: Option<String>,
}

/// A [`PluginRow`], over characters.
pub struct PluginRowModel {
    pub id: Seq<char>,
    pub enabled: bool,
    pub version: Option<Seq<char>>,
    pub quarantined_reason: Option<Seq<char>>,
}

impl DeepView for PluginRow {
    type V = PluginRowModel;

    open spec fn deep_view(&self) -> PluginRowModel {
        PluginRowModel {
            id: self.id@,
            enabled: self.enabled,
            version: self.version.deep_view(),
            quarantined_reason: self.quarantined_reason.deep_view(),
        }
    }
}

impl PluginRow {
    /// A row as it was read. A plugin whose state cannot be read counts as enabled.
    pub fn read(
        id: Option<String>,
        enabled: Option<bool>,
        version: Option<String>,
        quarantined_reason: Option<String>,
    ) -> (r: PluginRow)
        ensures
            r.deep_view() == (PluginRowModel {
                id: text_or_blank(id.deep_view()),
                enabled: truth_or(enabled, true),
                version: version.deep_view(),
                quarantined_reason: quarantined_reason.deep_view(),
            }),
    {
        let id: String = match id {
            Some(s) => s,
            None => String::new(),
        };
        let enabled: bool = match enabled {
            Some(b) => b,
            None => true,
        };
        PluginRow { id, enabled, version, quarantined_reason }
    }
}

/// One plugin as the screen shows it. While a quarantine stands it outranks the
/// operator's intent: the plugin does not load, whatever `enabled` holds.
#[derive(Debug)]
pub struct PluginView {
    pub id: String,
    pub version: String,
    pub enabled: bool,
    pub quarantined: bool,
    pub quarantined_reason: String,
    /// The label the toggle button carries.
    pub action_label: &'static str,
    /// The state the toggle posts: the opposite of the current intent.
    pub action_target: bool,
}

/// A [`PluginView`], over characters.
pub struct PluginViewModel {
    pub id: Seq<char>,
    pub version: Seq<char>,
    pub enabled: bool,
    pub quarantined: bool,
    pub quarantined_reason: Seq<char>,
    pub action_label: Seq<char>,
    pub action_target: bool,
}

impl DeepView for PluginView {
    type V = PluginViewModel;

    open spec fn deep_view(&self) -> PluginViewModel {
        PluginViewModel {
            id: self.id@,
            version: self.version@,
            enabled: self.enabled,
            quarantined: self.quarantined,
            quarantined_reason: self.quarantined_reason@,
            action_label: self.action_label@,
            action_target: self.action_target,
        }
    }
}

/// One plugin as the screen shows it.
pub open spec fn plugin_view(row: PluginRowModel) -> PluginViewModel {
    PluginViewModel {
        id: row.id,
        version: match row.version {
            Some(v) => v,
            None => "--"@,
        },
        enabled: row.enabled,
        quarantined: row.quarantined_reason is Some,
        quarantined_reason: text_or_blank(row.quarantined_reason),
        action_label: if row.enabled {
            "Disable"@
        } else {
            "Enable"@
        },
        action_target: !row.enabled,
    }
}

impl PluginView {
    /// One plugin as the screen shows it.
    pub fn from_row(row: PluginRow) -> (r: PluginView)
        ensures
            r.deep_view() == plugin_view(row.deep_view()),
    {
        let version: String = match row.version {
            Some(v) => v,
            None => "--".to_owned(),
        };
        let (quarantined, quarantined_reason): (bool, String) = match row.quarantined_reason {
            Some(reason) => (true, reason),
            None => (false, String::new()),
        };
        let action_label: &'static str = if row.enabled {
            "Disable"
        } else {
            "Enable"
        };
        PluginView {
            id: row.id,
            version,
            enabled: row.enabled,
            quarantined,
            quarantined_reason,
            action_label,
            action_target: !row.enabled,
        }
    }
}

/// The compiled plugins that are not recorded yet, in order.
pub open spec fn unseen(compiled: Seq<Seq<char>>, existing: Seq<Seq<char>>) -> Seq<Seq<char>> {
    compiled.filter_map(
        |id: Seq<char>|
            if existing.contains(id) {
                None::<Seq<char>>
            } else {
                Some(id)
            },
    )
}

/// The compiled plugins to record: those not seen before. Existing rows, and their
/// operator state, are left untouched.
pub fn record_roster(compiled: &Vec<String>, existing: &Vec<String>) -> (r: Vec<String>)
    ensures
        r.deep_view() == unseen(compiled.deep_view(), existing.deep_view()),
{
    let ghost all = compiled.deep_view();
    let ghost known = existing.deep_view();
    let ghost f = |id: Seq<char>|
        if known.contains(id) {
            None::<Seq<char>>
        } else {
            Some(id)
        };
    let mut r: Vec<String> = Vec::new();
    let mut i: usize = 0;
    assert(r.deep_view() =~= all.take(0).filter_map(f));
    while i < compiled.len()
        invariant
            i <= compiled.len(),
            all == compiled.deep_view(),
            known == existing.deep_view(),
            f == (|id: Seq<char>|
                if known.contains(id) {
                    None::<Seq<char>>
                } else {
                    Some(id)
                }),
            r.deep_view() == all.take(i as int).filter_map(f),
        decreases compiled.len() - i,
    {
        let ghost before = r.deep_view();
        proof {
            all.lemma_filter_map_take_succ(f, i as int);
            assert(all[i as int] == compiled@[i as int]@);
        }
        if !listed(existing, compiled[i].as_str()) {
            r.push(compiled[i].clone());
            assert(r.deep_view() =~= before + seq![all[i as int]]);
        }
        i = i + 1;
    }
    assert(all.take(all.len() as int) =~= all);
    r
}

/// Recording the compiled plugins never touches one that has a row, and after it
/// every compiled plugin has one.
pub proof fn law_the_roster_keeps_what_stands(
    compiled: Seq<Seq<char>>,
    existing: Seq<Seq<char>>,
    id: Seq<char>,
)
    ensures
        existing.contains(id) ==> !unseen(compiled, existing).contains(id),
        compiled.contains(id) ==> existing.contains(id) || unseen(compiled, existing).contains(id),
{
    let f = |id: Seq<char>|
        if existing.contains(id) {
            None::<Seq<char>>
        } else {
            Some(id)
        };
    let out = unseen(compiled, existing);
    assert(out == compiled.filter_map(f));
    if out.contains(id) {
        compiled.lemma_filter_map_contains(f, id);
        let c = choose|c: Seq<char>| #[trigger] compiled.contains(c) && f(c) == Some(id);
        assert(c == id);
    }
    if compiled.contains(id) && !existing.contains(id) {
        lemma_unseen_kept(compiled, existing, id);
    }
}

/// A compiled plugin without a row is among those to record.
proof fn lemma_unseen_kept(compiled: Seq<Seq<char>>, existing: Seq<Seq<char>>, id: Seq<char>)
    requires
        compiled.contains(id),
        !existing.contains(id),
    ensures
        unseen(compiled, existing).contains(id),
    decreases compiled.len(),
{
    let rest = unseen(compiled.drop_last(), existing);
    let out = unseen(compiled, existing);
    if compiled.last() == id {
        assert(out == rest + seq![id]);
        assert(out[rest.len() as int] == id);
    } else {
        let k = choose|k: int| 0 <= k < compiled.len() && compiled[k] == id;
        assert(compiled.drop_last()[k] == id);
        lemma_unseen_kept(compiled.drop_last(), existing, id);
        let j = choose|j: int| 0 <= j < rest.len() && rest[j] == id;
        assert(out[j] == id);
    }
}

/// Whether a plugin still has to be inserted after an update that changed this many
/// rows.
pub fn needs_insert(rows_affected: u64) -> (r: bool)
    ensures
        r == (rows_affected == 0),
{
    rows_affected == 0
}

/// What the operator is told of a stored toggle: two whole messages rather than an
/// interpolated verb, since the state word must localize.
pub fn toggled(enable: i32) -> (r: Flash)
    ensures
        r.deep_view() == flash(
            FlashLevel::Success,
            if enable != 0 {
                "Plugin enabled. The change applies on the next restart."@
            } else {
                "Plugin disabled. The change applies on the next restart."@
            },
        ),
{
    if enable != 0 {
        Flash::say(
            FlashLevel::Success,
            "Plugin enabled. The change applies on the next restart.",
        )
    } else {
        Flash::say(
            FlashLevel::Success,
            "Plugin disabled. The change applies on the next restart.",
        )
    }
}

/// Where the plugins are listed.
pub fn index_path(admin_path: &str) -> (r: String)
    ensures
        r@ == admin_path@ + "/plugins"@,
{
    cat(admin_path, "/plugins")
}

/// Where a toggle is posted.
pub fn toggle_path(admin_path: &str) -> (r: String)
    ensures
        r@ == admin_path@ + "/plugins/toggle"@,
{
    cat(admin_path, "/plugins/toggle")
}

// ---------------------------------------------------------------------- journal
/// What the journal holds of a plugin at boot.
#[derive(Debug)]
pub struct JournalRow {
    pub id: String,
    pub load_fingerprint: Option<String>,
    pub quarantined_reason: Option<String>,
    pub quarantined_fingerprint: Option<String>,
}

/// A [`JournalRow`], over characters.
pub struct JournalModel {
    pub id: Seq<char>,
    pub load_fingerprint: Option<Seq<char>>,
    pub quarantined_reason: Option<Seq<char>>,
    pub quarantined_fingerprint: Option<Seq<char>>,
}

impl DeepView for JournalRow {
    type V = JournalModel;

    open spec fn deep_view(&self) -> JournalModel {
        JournalModel {
            id: self.id@,
            load_fingerprint: self.load_fingerprint.deep_view(),
            quarantined_reason: self.quarantined_reason.deep_view(),
            quarantined_fingerprint: self.quarantined_fingerprint.deep_view(),
        }
    }
}

/// One change to the journal.
#[derive(Debug)]
pub enum BootAction {
    /// Quarantine a plugin for a reason, under the running binary.
    Quarantine { id: String, reason: String, fingerprint: String },
    /// Clear a stale load marker.
    ClearLoading { id: String },
    /// Lift a quarantine.
    ClearQuarantine { id: String },
}

/// A [`BootAction`], over characters.
pub enum ActionModel {
    Quarantine { id: Seq<char>, reason: Seq<char>, fingerprint: Seq<char> },
    ClearLoading { id: Seq<char> },
    ClearQuarantine { id: Seq<char> },
}

impl DeepView for BootAction {
    type V = ActionModel;

    open spec fn deep_view(&self) -> ActionModel {
        match self {
            BootAction::Quarantine { id, reason, fingerprint } => ActionModel::Quarantine {
                id: id@,
                reason: reason@,
                fingerprint: fingerprint@,
            },
            BootAction::ClearLoading { id } => ActionModel::ClearLoading { id: id@ },
            BootAction::ClearQuarantine { id } => ActionModel::ClearQuarantine { id: id@ },
        }
    }
}

/// Whether a plugin's init took the process down under the running binary.
pub open spec fn crashed(row: JournalModel, fingerprint: Seq<char>) -> bool {
    row.load_fingerprint == Some(fingerprint)
}

/// Whether a plugin's quarantine was recorded under another binary than the running
/// one, which may have fixed the fault.
pub open spec fn outdated(row: JournalModel, fingerprint: Seq<char>) -> bool {
    !crashed(row, fingerprint) && row.quarantined_reason is Some && row.quarantined_fingerprint
        != Some(fingerprint)
}

/// What a boot changes of a plugin's journal.
pub open spec fn row_actions(row: JournalModel, fingerprint: Seq<char>) -> Seq<ActionModel> {
    if crashed(row, fingerprint) {
        seq![
            ActionModel::Quarantine { id: row.id, reason: CRASH_REASON@, fingerprint },
        ]
    } else {
        let stale = if row.load_fingerprint is Some {
            seq![ActionModel::ClearLoading { id: row.id }]
        } else {
            Seq::empty()
        };
        if outdated(row, fingerprint) {
            stale.push(ActionModel::ClearQuarantine { id: row.id })
        } else {
            stale
        }
    }
}

/// What a boot changes of the journal, row by row.
pub open spec fn boot_actions(rows: Seq<JournalModel>, fingerprint: Seq<char>) -> Seq<ActionModel>
    decreases rows.len(),
{
    if rows.len() == 0 {
        Seq::empty()
    } else {
        boot_actions(rows.drop_last(), fingerprint) + row_actions(rows.last(), fingerprint)
    }
}

/// The plugins whose init crashed the previous boot.
pub open spec fn crashed_ids(rows: Seq<JournalModel>, fingerprint: Seq<char>) -> Seq<Seq<char>> {
    rows.filter_map(
        |r: JournalModel|
            if crashed(r, fingerprint) {
                Some(r.id)
            } else {
                None::<Seq<char>>
            },
    )
}

/// The plugins whose quarantine is lifted.
pub open spec fn cleared_ids(rows: Seq<JournalModel>, fingerprint: Seq<char>) -> Seq<Seq<char>> {
    rows.filter_map(
        |r: JournalModel|
            if outdated(r, fingerprint) {
                Some(r.id)
            } else {
                None::<Seq<char>>
            },
    )
}

/// What a reconciliation changed, for the boot log.
#[derive(Debug)]
pub struct ReconcileReport {
    /// Plugins quarantined because their init crashed the previous boot.
    pub crashed: Vec<String>,
    /// Plugins whose quarantine was lifted because the binary changed.
    pub cleared: Vec<String>,
}

/// Whether an optional text is this one.
fn is_text(s: &Option<String>, text: &str) -> (r: bool)
    ensures
        r == (s.deep_view() == Some(text@)),
{
    match s {
        Some(t) => same(t.as_str(), text),
        None => false,
    }
}

/// Reconciles the journal against the running binary at boot, before deciding what
/// loads: the changes to make, in order, and what they amount to.
pub fn reconcile_boot(rows: &Vec<JournalRow>, fingerprint: &str) -> (r: (
    Vec<BootAction>,
    ReconcileReport,
))
    ensures
        r.0.deep_view() == boot_actions(rows.deep_view(), fingerprint@),
        r.1.crashed.deep_view() == crashed_ids(rows.deep_view(), fingerprint@),
        r.1.cleared.deep_view() == cleared_ids(rows.deep_view(), fingerprint@),
{
    let ghost all = rows.deep_view();
    let ghost fp = fingerprint@;
    let ghost f = |r: JournalModel|
        if crashed(r, fp) {
            Some(r.id)
        } else {
            None::<Seq<char>>
        };
    let ghost g = |r: JournalModel|
        if outdated(r, fp) {
            Some(r.id)
        } else {
            None::<Seq<char>>
        };
    let mut actions: Vec<BootAction> = Vec::new();
    let mut down: Vec<String> = Vec::new();
    let mut lifted: Vec<String> = Vec::new();
    let mut i: usize = 0;
    assert(actions.deep_view() =~= boot_actions(all.take(0), fp));
    assert(down.deep_view() =~= all.take(0).filter_map(f));
    assert(lifted.deep_view() =~= all.take(0).filter_map(g));
    while i < rows.len()
        invariant
            i <= rows.len(),
            all == rows.deep_view(),
            fp == fingerprint@,
            f == (|r: JournalModel|
                if crashed(r, fp) {
                    Some(r.id)
                } else {
                    None::<Seq<char>>
                }),
            g == (|r: JournalModel|
                if outdated(r, fp) {
                    Some(r.id)
                } else {
                    None::<Seq<char>>
                }),
            actions.deep_view() == boot_actions(all.take(i as int), fp),
            down.deep_view() == all.take(i as int).filter_map(f),
            lifted.deep_view() == all.take(i as int).filter_map(g),
        decreases rows.len() - i,
    {
        let row: &JournalRow = &rows[i];
        let ghost m = row.deep_view();
        let ghost done = actions.deep_view();
        let ghost fell = down.deep_view();
        let ghost rose = lifted.deep_view();
        proof {
            all.lemma_filter_map_take_succ(f, i as int);
            all.lemma_filter_map_take_succ(g, i as int);
            assert(all[i as int] == m);
            assert(all.take(i + 1).drop_last() =~= all.take(i as int));
            assert(all.take(i + 1).last() == m);
        }
        if is_text(&row.load_fingerprint, fingerprint) {
            actions.push(
                BootAction::Quarantine {
                    id: row.id.clone(),
                    reason: CRASH_REASON.to_owned(),
                    fingerprint: fingerprint.to_owned(),
                },
            );
            down.push(row.id.clone());
            assert(actions.deep_view() =~= done + row_actions(m, fp));
            assert(down.deep_view() =~= fell + seq![m.id]);
        } else {
            if row.load_fingerprint.is_some() {
                actions.push(BootAction::ClearLoading { id: row.id.clone() });
            }
            if row.quarantined_reason.is_some() && !is_text(
                &row.quarantined_fingerprint,
                fingerprint,
            ) {
                actions.push(BootAction::ClearQuarantine { id: row.id.clone() });
                lifted.push(row.id.clone());
                assert(lifted.deep_view() =~= rose + seq![m.id]);
            }
            assert(actions.deep_view() =~= done + row_actions(m, fp));
        }
        i = i + 1;
    }
    assert(all.take(all.len() as int) =~= all);
    (actions, ReconcileReport { crashed: down, cleared: lifted })
}

/// A plugin's journal after one change to it.
pub open spec fn applied(row: JournalModel, action: ActionModel) -> JournalModel {
    match action {
        ActionModel::Quarantine { id, reason, fingerprint } => JournalModel {
            load_fingerprint: None,
            quarantined_reason: Some(reason),
            quarantined_fingerprint: Some(fingerprint),
            ..row
        },
        ActionModel::ClearLoading { id } => JournalModel { load_fingerprint: None, ..row },
        ActionModel::ClearQuarantine { id } => JournalModel {
            quarantined_reason: None,
            quarantined_fingerprint: None,
            ..row
        },
    }
}

/// A plugin's journal after some changes to it, in order.
pub open spec fn after_actions(row: JournalModel, actions: Seq<ActionModel>) -> JournalModel
    decreases actions.len(),
{
    if actions.len() == 0 {
        row
    } else {
        applied(after_actions(row, actions.drop_last()), actions.last())
    }
}

/// A plugin's journal after a boot.
pub open spec fn after_boot(row: JournalModel, fingerprint: Seq<char>) -> JournalModel {
    after_actions(row, row_actions(row, fingerprint))
}

/// What a boot makes of each plugin's journal, in one piece.
pub proof fn lemma_after_boot(row: JournalModel, fingerprint: Seq<char>)
    ensures
        after_boot(row, fingerprint) == (if crashed(row, fingerprint) {
            JournalModel {
                load_fingerprint: None,
                quarantined_reason: Some(CRASH_REASON@),
                quarantined_fingerprint: Some(fingerprint),
                ..row
            }
        } else if outdated(row, fingerprint) {
            JournalModel {
                load_fingerprint: None,
                quarantined_reason: None,
                quarantined_fingerprint: None,
                ..row
            }
        } else {
            JournalModel { load_fingerprint: None, ..row }
        }),
{
    reveal_with_fuel(after_actions, 3);
    let actions = row_actions(row, fingerprint);
    if !crashed(row, fingerprint) {
        if row.load_fingerprint is Some {
            if outdated(row, fingerprint) {
                assert(actions.drop_last() =~= seq![ActionModel::ClearLoading { id: row.id }]);
                assert(actions.drop_last().drop_last() =~= Seq::empty());
            } else {
                assert(actions.drop_last() =~= Seq::empty());
            }
        } else if outdated(row, fingerprint) {
            assert(actions.drop_last() =~= Seq::empty());
        }
    } else {
        assert(actions.drop_last() =~= Seq::empty());
    }
}

/// Reconciling twice under one binary changes nothing the second time: no marker is
/// left to find, and a quarantine of this binary stands.
pub proof fn law_reconciling_settles(row: JournalModel, fingerprint: Seq<char>)
    ensures
        row_actions(after_boot(row, fingerprint), fingerprint).len() == 0,
        after_boot(after_boot(row, fingerprint), fingerprint) == after_boot(row, fingerprint),
{
    lemma_after_boot(row, fingerprint);
    lemma_after_boot(after_boot(row, fingerprint), fingerprint);
    let once = after_boot(row, fingerprint);
    assert(row_actions(once, fingerprint) =~= Seq::empty());
}

/// A plugin that crashed a boot is quarantined under that binary, and a boot of
/// another binary lifts it again.
pub proof fn law_a_new_binary_lifts_a_quarantine(
    row: JournalModel,
    old_binary: Seq<char>,
    new_binary: Seq<char>,
)
    requires
        crashed(row, old_binary),
        old_binary != new_binary,
    ensures
        after_boot(row, old_binary).quarantined_reason == Some(CRASH_REASON@),
        after_boot(after_boot(row, old_binary), new_binary).quarantined_reason is None,
{
    lemma_after_boot(row, old_binary);
    lemma_after_boot(after_boot(row, old_binary), new_binary);
}

/// A marker another binary left behind does not quarantine a plugin.
pub proof fn law_a_stale_marker_only_clears(row: JournalModel, fingerprint: Seq<char>)
    requires
        row.load_fingerprint is Some,
        !crashed(row, fingerprint),
        row.quarantined_reason is None,
    ensures
        after_boot(row, fingerprint) == (JournalModel { load_fingerprint: None, ..row }),
{
    lemma_after_boot(row, fingerprint);
}

// ------------------------------------------------------------------- statements
/// A text, or null.
fn text_or_null(s: Option<&str>) -> (r: Bound)
    ensures
        r.deep_view() == bound_text(s.deep_view()),
{
    match s {
        Some(t) => Bound::Text(t.to_owned()),
        None => Bound::Null,
    }
}

/// A text, or null.
pub open spec fn bound_text(s: Option<Seq<char>>) -> BoundModel {
    match s {
        Some(t) => BoundModel::Text(t),
        None => BoundModel::Null,
    }
}

/// A change to one plugin's row.
pub open spec fn row_change(values: Seq<(Seq<char>, BoundModel)>, id: Seq<char>) -> UpdateModel {
    UpdateModel { table: TABLE@, values, rows: named("plugin_id"@, id) }
}

/// What a quarantine stores. The attempt is resolved, so it clears any load marker.
pub open spec fn quarantine_values(
    reason: Option<Seq<char>>,
    at: Option<Seq<char>>,
    fingerprint: Option<Seq<char>>,
) -> Seq<(Seq<char>, BoundModel)> {
    seq![
        ("quarantined_reason"@, bound_text(reason)),
        ("quarantined_at"@, bound_text(at)),
        ("quarantined_fingerprint"@, bound_text(fingerprint)),
    ]
}

/// The statement of a change to the journal, stamped with the present time.
pub open spec fn action_change(action: ActionModel, now: Seq<char>) -> UpdateModel {
    match action {
        ActionModel::Quarantine { id, reason, fingerprint } => row_change(
            quarantine_values(Some(reason), Some(now), Some(fingerprint)).push(
                ("load_fingerprint"@, BoundModel::Null),
            ).push(("updated_at"@, BoundModel::Text(now))),
            id,
        ),
        ActionModel::ClearLoading { id } => row_change(
            seq![
                ("load_fingerprint"@, BoundModel::Null),
                ("updated_at"@, BoundModel::Text(now)),
            ],
            id,
        ),
        ActionModel::ClearQuarantine { id } => row_change(
            quarantine_values(None, None, None).push(("updated_at"@, BoundModel::Text(now))),
            id,
        ),
    }
}

/// Sets a plugin aside, with the reason and the binary it crashed under, and clears
/// its mark.
pub fn quarantine(id: &str, reason: &str, fingerprint: &str, now: &str, backend: Backend) -> (r:
    Statement)
    ensures
        r.deep_view() == update_text(
            action_change(
                ActionModel::Quarantine { id: id@, reason: reason@, fingerprint: fingerprint@ },
                now@,
            ),
            backend,
        ),
{
    let mut values: Vec<(String, Bound)> = quarantine_columns(
        Some(reason),
        Some(now),
        Some(fingerprint),
    );
    values.push(("load_fingerprint".to_owned(), Bound::Null));
    values.push(("updated_at".to_owned(), Bound::Text(now.to_owned())));
    let ghost action = ActionModel::Quarantine {
        id: id@,
        reason: reason@,
        fingerprint: fingerprint@,
    };
    assert(values.deep_view() =~= action_change(action, now@).values);
    update_named(TABLE, &values, "plugin_id", id, backend)
}

/// Clears the mark of a plugin whose init came back.
pub fn clear_loading(id: &str, now: &str, backend: Backend) -> (r: Statement)
    ensures
        r.deep_view() == update_text(
            action_change(ActionModel::ClearLoading { id: id@ }, now@),
            backend,
        ),
{
    let mut values: Vec<(String, Bound)> = Vec::new();
    values.push(("load_fingerprint".to_owned(), Bound::Null));
    values.push(("updated_at".to_owned(), Bound::Text(now.to_owned())));
    assert(values.deep_view() =~= action_change(
        ActionModel::ClearLoading { id: id@ },
        now@,
    ).values);
    update_named(TABLE, &values, "plugin_id", id, backend)
}

/// Takes a plugin back in.
pub fn clear_quarantine(id: &str, now: &str, backend: Backend) -> (r: Statement)
    ensures
        r.deep_view() == update_text(
            action_change(ActionModel::ClearQuarantine { id: id@ }, now@),
            backend,
        ),
{
    let mut values: Vec<(String, Bound)> = quarantine_columns(None, None, None);
    values.push(("updated_at".to_owned(), Bound::Text(now.to_owned())));
    assert(values.deep_view() =~= action_change(
        ActionModel::ClearQuarantine { id: id@ },
        now@,
    ).values);
    update_named(TABLE, &values, "plugin_id", id, backend)
}

/// What a quarantine stores.
fn quarantine_columns(reason: Option<&str>, at: Option<&str>, fingerprint: Option<&str>) -> (r: Vec<
    (String, Bound),
>)
    ensures
        r.deep_view() == quarantine_values(
            reason.deep_view(),
            at.deep_view(),
            fingerprint.deep_view(),
        ),
{
    let mut values: Vec<(String, Bound)> = Vec::new();
    values.push(("quarantined_reason".to_owned(), text_or_null(reason)));
    values.push(("quarantined_at".to_owned(), text_or_null(at)));
    values.push(("quarantined_fingerprint".to_owned(), text_or_null(fingerprint)));
    assert(values.deep_view() =~= quarantine_values(
        reason.deep_view(),
        at.deep_view(),
        fingerprint.deep_view(),
    ));
    values
}

/// The statement of a change to the journal, stamped with the present time.
pub fn action_statement(action: &BootAction, now: &str, backend: Backend) -> (r: Statement)
    ensures
        r.deep_view() == update_text(action_change(action.deep_view(), now@), backend),
{
    match action {
        BootAction::Quarantine { id, reason, fingerprint } => quarantine(
            id.as_str(),
            reason.as_str(),
            fingerprint.as_str(),
            now,
            backend,
        ),
        BootAction::ClearLoading { id } => clear_loading(id.as_str(), now, backend),
        BootAction::ClearQuarantine { id } => clear_quarantine(id.as_str(), now, backend),
    }
}

/// What is recorded as a plugin is about to load: the binary it loads under, and when.
pub open spec fn loading_values(fingerprint: Seq<char>, now: Seq<char>) -> Seq<
    (Seq<char>, BoundModel),
> {
    seq![
        ("load_fingerprint"@, BoundModel::Text(fingerprint)),
        ("updated_at"@, BoundModel::Text(now)),
    ]
}

/// The mark that a plugin's init is about to run under a binary. Written before the
/// plugin migrates or registers, so a hard crash leaves it for the next boot.
pub fn mark_loading(id: &str, fingerprint: &str, now: &str, backend: Backend) -> (r: Statement)
    ensures
        r.deep_view() == update_text(
            row_change(loading_values(fingerprint@, now@), id@),
            backend,
        ),
{
    let mut values: Vec<(String, Bound)> = Vec::new();
    values.push(("load_fingerprint".to_owned(), Bound::Text(fingerprint.to_owned())));
    values.push(("updated_at".to_owned(), Bound::Text(now.to_owned())));
    assert(values.deep_view() =~= seq![
        ("load_fingerprint"@, BoundModel::Text(fingerprint@)),
        ("updated_at"@, BoundModel::Text(now@)),
    ]);
    update_named(TABLE, &values, "plugin_id", id, backend)
}

/// A state as it is stored.
pub open spec fn flag(enabled: bool) -> BoundModel {
    BoundModel::Int(
        if enabled {
            1
        } else {
            0
        },
    )
}

/// A state as it is stored.
fn bound_flag(enabled: bool) -> (r: Bound)
    ensures
        r.deep_view() == flag(enabled),
{
    if enabled {
        Bound::Int(1)
    } else {
        Bound::Int(0)
    }
}

/// What a change of a plugin's operator state stores. Enabling a plugin takes it back
/// in where it was set aside; disabling it leaves the system's verdict alone.
pub open spec fn toggle_values(enabled: bool, now: Seq<char>) -> Seq<(Seq<char>, BoundModel)> {
    if enabled {
        seq![("enabled"@, flag(true))] + quarantine_values(None, None, None).push(
            ("updated_at"@, BoundModel::Text(now)),
        )
    } else {
        seq![("enabled"@, flag(false)), ("updated_at"@, BoundModel::Text(now))]
    }
}

/// The change of a plugin's operator state. A plugin that was set aside stays so until
/// it is enabled again, or the binary changes.
pub fn set_enabled(id: &str, enabled: bool, now: &str, backend: Backend) -> (r: Statement)
    ensures
        r.deep_view() == update_text(row_change(toggle_values(enabled, now@), id@), backend),
{
    let mut values: Vec<(String, Bound)> = Vec::new();
    values.push(("enabled".to_owned(), bound_flag(enabled)));
    if enabled {
        values.push(("quarantined_reason".to_owned(), Bound::Null));
        values.push(("quarantined_at".to_owned(), Bound::Null));
        values.push(("quarantined_fingerprint".to_owned(), Bound::Null));
    }
    values.push(("updated_at".to_owned(), Bound::Text(now.to_owned())));
    assert(values.deep_view() =~= toggle_values(enabled, now@));
    update_named(TABLE, &values, "plugin_id", id, backend)
}

/// What a column holds after a change: the value stored last, or what stood there.
pub open spec fn column_after(
    standing: Option<Seq<char>>,
    column: Seq<char>,
    values: Seq<(Seq<char>, BoundModel)>,
) -> Option<Seq<char>>
    decreases values.len(),
{
    if values.len() == 0 {
        standing
    } else if values.last().0 == column {
        match values.last().1 {
            BoundModel::Text(t) => Some(t),
            _ => None,
        }
    } else {
        column_after(standing, column, values.drop_last())
    }
}

/// A plugin's journal after a change to its row.
pub open spec fn row_after(row: JournalModel, values: Seq<(Seq<char>, BoundModel)>) -> JournalModel {
    JournalModel {
        id: row.id,
        load_fingerprint: column_after(row.load_fingerprint, "load_fingerprint"@, values),
        quarantined_reason: column_after(row.quarantined_reason, "quarantined_reason"@, values),
        quarantined_fingerprint: column_after(
            row.quarantined_fingerprint,
            "quarantined_fingerprint"@,
            values,
        ),
    }
}

/// The columns of the journal have names of their own.
proof fn lemma_columns_differ()
    ensures
        "enabled"@.len() == 7,
        "updated_at"@.len() == 10,
        "quarantined_at"@.len() == 14,
        "load_fingerprint"@.len() == 16,
        "quarantined_reason"@.len() == 18,
        "quarantined_fingerprint"@.len() == 23,
{
    reveal_strlit("enabled");
    reveal_strlit("updated_at");
    reveal_strlit("quarantined_at");
    reveal_strlit("load_fingerprint");
    reveal_strlit("quarantined_reason");
    reveal_strlit("quarantined_fingerprint");
}

/// A quarantine lasts until the plugin is enabled again: enabling it lifts the
/// quarantine, whatever the reason and the binary, and disabling it changes nothing of
/// the journal.
pub proof fn law_enabling_lifts_a_quarantine(row: JournalModel, now: Seq<char>)
    ensures
        row_after(row, toggle_values(true, now)) == (JournalModel {
            quarantined_reason: None,
            quarantined_fingerprint: None,
            ..row
        }),
        row_after(row, toggle_values(false, now)) == row,
{
    lemma_columns_differ();
    reveal_with_fuel(column_after, 6);
    let on = toggle_values(true, now);
    let off = toggle_values(false, now);
    assert(on.drop_last() =~= seq![on[0], on[1], on[2], on[3]]);
    assert(on.drop_last().drop_last() =~= seq![on[0], on[1], on[2]]);
    assert(on.drop_last().drop_last().drop_last() =~= seq![on[0], on[1]]);
    assert(on.drop_last().drop_last().drop_last().drop_last() =~= seq![on[0]]);
    assert(on.drop_last().drop_last().drop_last().drop_last().drop_last() =~= Seq::empty());
    assert(off.drop_last() =~= seq![off[0]]);
    assert(off.drop_last().drop_last() =~= Seq::empty());
}

/// The statements a boot runs do to a plugin's journal what reconciling counts on.
pub proof fn law_a_journal_change_does_what_it_says(
    row: JournalModel,
    action: ActionModel,
    now: Seq<char>,
)
    ensures
        row_after(row, action_change(action, now).values) == applied(row, action),
{
    lemma_columns_differ();
    reveal_with_fuel(column_after, 6);
    let values = action_change(action, now).values;
    match action {
        ActionModel::Quarantine { .. } => {
            assert(values.drop_last() =~= seq![values[0], values[1], values[2], values[3]]);
            assert(values.drop_last().drop_last() =~= seq![values[0], values[1], values[2]]);
            assert(values.drop_last().drop_last().drop_last() =~= seq![values[0], values[1]]);
            assert(values.drop_last().drop_last().drop_last().drop_last() =~= seq![values[0]]);
        },
        ActionModel::ClearLoading { .. } => {
            assert(values.drop_last() =~= seq![values[0]]);
            assert(values.drop_last().drop_last() =~= Seq::empty());
        },
        ActionModel::ClearQuarantine { .. } => {
            assert(values.drop_last() =~= seq![values[0], values[1], values[2]]);
            assert(values.drop_last().drop_last() =~= seq![values[0], values[1]]);
            assert(values.drop_last().drop_last().drop_last() =~= seq![values[0]]);
            assert(values.drop_last().drop_last().drop_last().drop_last() =~= Seq::empty());
        },
    }
}

/// What a newly recorded plugin's row holds.
pub open spec fn recorded_values(id: Seq<char>, enabled: bool, now: Seq<char>) -> Seq<
    (Seq<char>, BoundModel),
> {
    seq![
        ("plugin_id"@, BoundModel::Text(id)),
        ("enabled"@, flag(enabled)),
        ("created_at"@, BoundModel::Text(now)),
        ("updated_at"@, BoundModel::Text(now)),
    ]
}

/// The insert of a plugin's row.
pub fn insert_statement(id: &str, enabled: bool, now: &str, backend: Backend) -> (r: Statement)
    ensures
        r.deep_view() == insert_text(
            InsertModel {
                table: TABLE@,
                values: recorded_values(id@, enabled, now@),
                conflict: None,
                returning: None,
            },
            backend,
        ),
{
    let mut values: Vec<(String, Bound)> = Vec::new();
    values.push(("plugin_id".to_owned(), Bound::Text(id.to_owned())));
    values.push(("enabled".to_owned(), bound_flag(enabled)));
    values.push(("created_at".to_owned(), Bound::Text(now.to_owned())));
    values.push(("updated_at".to_owned(), Bound::Text(now.to_owned())));
    assert(values.deep_view() =~= recorded_values(id@, enabled, now@));
    insert_row(TABLE, &values, backend)
}

/// A read of some columns of every plugin's row.
pub open spec fn plugin_read(columns: Seq<Seq<char>>) -> SelectModel {
    SelectModel {
        chosen: columns.map_values(|c: Seq<char>| ChosenModel::Column(c)),
        tables: seq![TABLE@],
        ..empty_select()
    }
}

/// A read of some columns of every plugin's row.
fn read_columns(columns: &Vec<&'static str>) -> (r: sea_query::SelectStatement)
    ensures
        select_parts(r) == plugin_read(columns.deep_view()),
{
    let ghost all = columns.deep_view();
    let ghost want = plugin_read(all).chosen;
    let mut s = select();
    let mut i: usize = 0;
    assert(want.take(0) =~= Seq::<ChosenModel>::empty());
    while i < columns.len()
        invariant
            i <= columns.len(),
            all == columns.deep_view(),
            want == plugin_read(all).chosen,
            select_parts(s) == (SelectModel { chosen: want.take(i as int), ..empty_select() }),
        decreases columns.len() - i,
    {
        assert(all[i as int] == columns@[i as int]@);
        select_column(&mut s, columns[i]);
        assert(want.take(i + 1) =~= want.take(i as int).push(want[i as int]));
        i = i + 1;
    }
    assert(want.take(want.len() as int) =~= want);
    select_from(&mut s, TABLE);
    assert(select_parts(s).tables =~= seq![TABLE@]);
    s
}

/// The read of the ids an operator has disabled.
pub open spec fn disabled_read() -> SelectModel {
    SelectModel {
        rows: each(seq![TermModel::FieldIs { column: "enabled"@, value: ParamModel::Int(0) }]),
        ..plugin_read(seq!["plugin_id"@])
    }
}

/// The read of the quarantined plugins with their reasons, ordered by id.
pub open spec fn quarantined_read() -> SelectModel {
    SelectModel {
        rows: each(seq![TermModel::Present { column: "quarantined_reason"@ }]),
        orders: seq![("plugin_id"@, SortDir::Asc)],
        ..plugin_read(seq!["plugin_id"@, "quarantined_reason"@])
    }
}

/// The read of the ids an operator has disabled. An absent row means enabled, so a
/// fresh install disables nothing.
pub fn disabled_ids(backend: Backend) -> (r: Statement)
    ensures
        r.deep_view() == select_text(disabled_read(), backend),
{
    let columns: Vec<&'static str> = vec!["plugin_id"];
    assert(columns.deep_view() =~= seq!["plugin_id"@]);
    let mut s = read_columns(&columns);
    select_where_int(&mut s, "enabled", 0);
    finish_select(&s, backend)
}

/// The read of every recorded id.
pub fn recorded_ids(backend: Backend) -> (r: Statement)
    ensures
        r.deep_view() == select_text(plugin_read(seq!["plugin_id"@]), backend),
{
    let columns: Vec<&'static str> = vec!["plugin_id"];
    assert(columns.deep_view() =~= seq!["plugin_id"@]);
    finish_select(&read_columns(&columns), backend)
}

/// What the plugins' screen reads.
pub open spec fn plugins_read() -> SelectModel {
    SelectModel {
        orders: seq![("plugin_id"@, SortDir::Asc)],
        ..plugin_read(seq!["plugin_id"@, "enabled"@, "version"@, "quarantined_reason"@])
    }
}

/// The read of every plugin with its state, ordered by id, for the admin screen.
pub fn list_plugins(backend: Backend) -> (r: Statement)
    ensures
        r.deep_view() == select_text(plugins_read(), backend),
{
    let columns: Vec<&'static str> = vec![
        "plugin_id",
        "enabled",
        "version",
        "quarantined_reason",
    ];
    assert(columns.deep_view() =~= seq![
        "plugin_id"@,
        "enabled"@,
        "version"@,
        "quarantined_reason"@,
    ]);
    let mut s = read_columns(&columns);
    select_order(&mut s, "plugin_id", SortDir::Asc);
    assert(select_parts(s).orders =~= seq![("plugin_id"@, SortDir::Asc)]);
    finish_select(&s, backend)
}

/// The read of the quarantined plugins with their reasons, ordered by id.
pub fn quarantined(backend: Backend) -> (r: Statement)
    ensures
        r.deep_view() == select_text(quarantined_read(), backend),
{
    let columns: Vec<&'static str> = vec!["plugin_id", "quarantined_reason"];
    assert(columns.deep_view() =~= seq!["plugin_id"@, "quarantined_reason"@]);
    let mut s = read_columns(&columns);
    select_where_present(&mut s, "quarantined_reason");
    select_order(&mut s, "plugin_id", SortDir::Asc);
    assert(select_parts(s).orders =~= seq![("plugin_id"@, SortDir::Asc)]);
    finish_select(&s, backend)
}

/// What a boot reads of the plugins that were there before it.
pub open spec fn journal_read() -> SelectModel {
    plugin_read(
        seq![
            "plugin_id"@,
            "load_fingerprint"@,
            "quarantined_reason"@,
            "quarantined_fingerprint"@,
        ],
    )
}

/// The read of the journal, for a boot.
pub fn journal(backend: Backend) -> (r: Statement)
    ensures
        r.deep_view() == select_text(journal_read(), backend),
{
    let columns: Vec<&'static str> = vec![
        "plugin_id",
        "load_fingerprint",
        "quarantined_reason",
        "quarantined_fingerprint",
    ];
    assert(columns.deep_view() =~= seq![
        "plugin_id"@,
        "load_fingerprint"@,
        "quarantined_reason"@,
        "quarantined_fingerprint"@,
    ]);
    finish_select(&read_columns(&columns), backend)
}

/// The fingerprint of a binary of a size and modification time: stable across
/// restarts of the same executable, changed by a rebuild. A constant where the
/// executable cannot be inspected.
pub fn fingerprint_of(inspected: Option<(u64, u64)>) -> (r: String)
    ensures
        r@ == (match inspected {
            Some((size, seconds)) => crate::nums::decimal(size as nat) + "-"@
                + crate::nums::decimal(seconds as nat),
            None => "unknown"@,
        }),
{
    match inspected {
        Some((size, seconds)) => crate::strs::cat3(
            crate::nums::u64_text(size).as_str(),
            "-",
            crate::nums::u64_text(seconds).as_str(),
        ),
        None => "unknown".to_owned(),
    }
}

} // verus!
