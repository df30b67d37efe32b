//! The backend user screen's edit form: the per-user permission override editor.
//!
//! A user's roles set a base of permissions; this screen refines them per user with
//! a three-state control per permission: allow (`1`) forces it on, deny (`-1`)
//! forces it off, and inherit (absent) defers to the roles.
//!
//! Two safeguards: a superuser holds every permission unconditionally, so the editor
//! shows no controls for them; and an operator may only change permissions they
//! themselves hold, so the screen cannot be used to escalate beyond the editor's own
//! access.

use vstd::prelude::*;

use crate::access::{allowed, Permission, PermissionModel, PermissionSet, PermissionSetModel};
use crate::audit::{record, AuditEntry, AuditModel};
use crate::error::AdminError;
use crate::grouping::{add_item, grouped, Group, GroupModel};
use crate::json::{
    json_numbers_in, json_numbers_text, map_of, numbers_from_json, numbers_to_json,
};
use crate::nums::{decimal_int, i64_of, i64_text, parse_i64};
use crate::picker::text_or_blank;
use crate::roles::registered;
use crate::session::{flash, Flash, FlashLevel, FlashModel};
use crate::statements::{
    empty_select, finish_select, reading_as, select, select_column, select_from, select_parts,
    select_text, select_where_text, text_cast, Backend, ChosenModel, SelectModel, Statement,
};
use crate::strs::{cat, cat3, same, strip_prefix};
use crate::text::{localized, Translator};

verus! {

/// The permission that gates changing an account's state, the same one that gates
/// reaching this screen at all.
pub const MANAGE_USERS: &'static str = "backend.manage_users";

// ----------------------------------------------------------------------- states
/// Permission states by code: `1` allows, `-1` denies, and an absent code inherits.
#[derive(Debug)]
pub struct States {
    pairs: Vec<(String, i64)>,
}

impl View for States {
    type V = Map<Seq<char>, i64>;

    closed spec fn view(&self) -> Map<Seq<char>, i64> {
        map_of(self.pairs.deep_view())
    }
}

/// The state of a code.
pub open spec fn state_in(states: Map<Seq<char>, i64>, code: Seq<char>) -> Option<i64> {
    if states.contains_key(code) {
        Some(states[code])
    } else {
        None
    }
}

impl States {
    /// No states at all.
    pub fn new() -> (r: Self)
        ensures
            r@ == Map::<Seq<char>, i64>::empty(),
    {
        let pairs: Vec<(String, i64)> = Vec::new();
        assert(pairs.deep_view() =~= Seq::<(Seq<char>, i64)>::empty());
        States { pairs }
    }

    /// The state of a code.
    pub fn get(&self, code: &str) -> (r: Option<&i64>)
        ensures
            r == (match state_in(self@, code@) {
                Some(v) => Some(&v),
                None => None,
            }),
    {
        let ghost all = self.pairs.deep_view();
        let mut i: usize = self.pairs.len();
        assert(all.take(all.len() as int) =~= all);
        while i > 0
            invariant
                i <= self.pairs.len(),
                all == self.pairs.deep_view(),
                state_in(map_of(all), code@) == state_in(map_of(all.take(i as int)), code@),
            decreases i,
        {
            assert(all.take(i as int).drop_last() =~= all.take(i - 1));
            assert(all.take(i as int).last() == self.pairs@[i - 1].deep_view());
            if same(self.pairs[i - 1].0.as_str(), code) {
                return Some(&self.pairs[i - 1].1);
            }
            i = i - 1;
        }
        None
    }

    /// Sets the state of a code.
    pub fn insert(&mut self, code: &str, state: i64)
        ensures
            final(self)@ == old(self)@.insert(code@, state),
    {
        let ghost before = self.pairs.deep_view();
        self.pairs.push((code.to_owned(), state));
        assert(self.pairs.deep_view() =~= before.push((code@, state)));
        assert(before.push((code@, state)).drop_last() =~= before);
    }

    /// Leaves a code without a state.
    pub fn remove(&mut self, code: &str)
        ensures
            final(self)@ == old(self)@.remove(code@),
    {
        let ghost all = self.pairs.deep_view();
        let mut kept: Vec<(String, i64)> = Vec::new();
        let mut i: usize = 0;
        assert(kept.deep_view() =~= Seq::<(Seq<char>, i64)>::empty());
        assert(map_of(all.take(0)).remove(code@) =~= map_of(kept.deep_view()));
        while i < self.pairs.len()
            invariant
                i <= self.pairs.len(),
                all == self.pairs.deep_view(),
                map_of(kept.deep_view()) == map_of(all.take(i as int)).remove(code@),
            decreases self.pairs.len() - i,
        {
            assert(all.take(i + 1).drop_last() =~= all.take(i as int));
            assert(all.take(i + 1).last() == self.pairs@[i as int].deep_view());
            let ghost before = kept.deep_view();
            let ghost m = map_of(all.take(i as int));
            let ghost e = self.pairs@[i as int].deep_view();
            if !same(self.pairs[i].0.as_str(), code) {
                kept.push((self.pairs[i].0.clone(), self.pairs[i].1));
                assert(kept.deep_view() =~= before.push(e));
                assert(kept.deep_view().drop_last() =~= before);
                assert(m.insert(e.0, e.1).remove(code@) =~= m.remove(code@).insert(e.0, e.1));
            } else {
                assert(m.insert(e.0, e.1).remove(code@) =~= m.remove(code@));
            }
            i = i + 1;
        }
        assert(all.take(all.len() as int) =~= all);
        self.pairs = kept;
    }
}

/// The states a form submits: each control posts one `p:<code>` pair with a number.
pub open spec fn submitted_states(pairs: Seq<(Seq<char>, Seq<char>)>) -> Map<Seq<char>, i64>
    decreases pairs.len(),
{
    if pairs.len() == 0 {
        Map::empty()
    } else {
        let before = submitted_states(pairs.drop_last());
        let key = pairs.last().0;
        if "p:"@.is_prefix_of(key) {
            match i64_of(pairs.last().1) {
                Some(n) => before.insert(key.skip(2), n),
                None => before,
            }
        } else {
            before
        }
    }
}

/// The submitted permission states. Each control posts one `p:<code>` pair with
/// value `1`, `0`, or `-1`.
pub fn parse_states(pairs: &Vec<(String, String)>) -> (r: States)
    ensures
        r@ == submitted_states(pairs.deep_view()),
{
    let ghost all = pairs.deep_view();
    let mut r: States = States::new();
    let mut i: usize = 0;
    proof {
        reveal_strlit("p:");
    }
    while i < pairs.len()
        invariant
            i <= pairs.len(),
            all == pairs.deep_view(),
            "p:"@.len() == 2,
            r@ == submitted_states(all.take(i as int)),
        decreases pairs.len() - i,
    {
        assert(all.take(i + 1).drop_last() =~= all.take(i as int));
        assert(all.take(i + 1).last() == pairs@[i as int].deep_view());
        match strip_prefix(pairs[i].0.as_str(), "p:") {
            Some(code) => {
                match parse_i64(pairs[i].1.as_str()) {
                    Some(state) => {
                        r.insert(code, state);
                    },
                    None => {},
                }
            },
            None => {},
        }
        i = i + 1;
    }
    assert(all.take(all.len() as int) =~= all);
    r
}

/// The state a code has after an edit. Only a registered permission that the editor
/// holds is touched.
pub open spec fn edited_state(
    overrides: Map<Seq<char>, i64>,
    submitted: Map<Seq<char>, i64>,
    registry: Seq<PermissionModel>,
    editor: PermissionSetModel,
    code: Seq<char>,
) -> Option<i64> {
    if registered(registry, code) && allowed(editor, code) && submitted.contains_key(code) {
        if submitted[code] == 1 || submitted[code] == -1 {
            Some(submitted[code])
        } else {
            None
        }
    } else {
        state_in(overrides, code)
    }
}

/// The overrides after an edit.
pub open spec fn edited(
    overrides: Map<Seq<char>, i64>,
    submitted: Map<Seq<char>, i64>,
    registry: Seq<PermissionModel>,
    editor: PermissionSetModel,
) -> Map<Seq<char>, i64> {
    Map::new(
        |code: Seq<char>| edited_state(overrides, submitted, registry, editor, code) is Some,
        |code: Seq<char>| edited_state(overrides, submitted, registry, editor, code)->0,
    )
}

/// The overrides after an edit. A permission the editor cannot grant is left exactly
/// as it was.
pub fn apply_states(
    overrides: States,
    submitted: &States,
    registry: &Vec<Permission>,
    editor: &PermissionSet,
) -> (r: States)
    ensures
        r@ == edited(overrides@, submitted@, registry.deep_view(), editor@),
{
    let ghost start = overrides@;
    let ghost sent = submitted@;
    let ghost all = registry.deep_view();
    let ghost perms = editor@;
    let mut r: States = overrides;
    let mut i: usize = 0;
    assert(r@ =~= edited(start, sent, all.take(0), perms)) by {
        assert forall|c: Seq<char>| edited_state(start, sent, all.take(0), perms, c) == state_in(
            start,
            c,
        ) by {}
    }
    while i < registry.len()
        invariant
            i <= registry.len(),
            all == registry.deep_view(),
            sent == submitted@,
            perms == editor@,
            r@ == edited(start, sent, all.take(i as int), perms),
        decreases registry.len() - i,
    {
        let code: &str = registry[i].code.as_str();
        let ghost c = code@;
        let ghost before = r@;
        assert(all[i as int] == registry@[i as int].deep_view());
        proof {
            lemma_registered_next(all, i as int);
        }
        if editor.allows(code) {
            match submitted.get(code) {
                Some(state) => {
                    if *state == 1 {
                        r.insert(code, 1);
                    } else if *state == -1 {
                        r.insert(code, -1);
                    } else {
                        r.remove(code);
                    }
                },
                None => {},
            }
        }
        assert(r@ =~= edited(start, sent, all.take(i + 1), perms)) by {
            assert forall|d: Seq<char>|
                state_in(r@, d) == edited_state(start, sent, all.take(i + 1), perms, d) by {
                assert(state_in(before, d) == edited_state(
                    start,
                    sent,
                    all.take(i as int),
                    perms,
                    d,
                ));
            }
            assert forall|d: Seq<char>|
                r@.contains_key(d) == (edited_state(start, sent, all.take(i + 1), perms, d)
                    is Some) by {
                assert(state_in(r@, d) == edited_state(start, sent, all.take(i + 1), perms, d));
            }
            assert forall|d: Seq<char>| r@.contains_key(d) implies r@[d] == edited_state(
                start,
                sent,
                all.take(i + 1),
                perms,
                d,
            )->0 by {
                assert(state_in(r@, d) == edited_state(start, sent, all.take(i + 1), perms, d));
            }
        }
        i = i + 1;
    }
    assert(all.take(all.len() as int) =~= all);
    r
}

/// One more permission registers its own code and no other.
proof fn lemma_registered_next(all: Seq<PermissionModel>, i: int)
    requires
        0 <= i < all.len(),
    ensures
        forall|c: Seq<char>| #[trigger]
            registered(all.take(i + 1), c) == (registered(all.take(i), c) || c == all[i].code),
{
    assert forall|c: Seq<char>| #[trigger]
        registered(all.take(i + 1), c) == (registered(all.take(i), c) || c == all[i].code) by {
        let longer = all.take(i + 1);
        let shorter = all.take(i);
        if registered(longer, c) {
            let j = choose|j: int| 0 <= j < longer.len() && #[trigger] longer[j].code == c;
            if j < i {
                assert(shorter[j].code == c);
            }
        }
        if registered(shorter, c) {
            let j = choose|j: int| 0 <= j < shorter.len() && #[trigger] shorter[j].code == c;
            assert(longer[j].code == c);
        }
        if c == all[i].code {
            assert(longer[i].code == c);
        }
    }
}

/// The screen cannot escalate access beyond the editor's own: whatever is submitted,
/// a permission the editor lacks, and one nobody registered, stay as they were.
pub proof fn law_an_editor_changes_only_what_they_hold(
    overrides: Map<Seq<char>, i64>,
    submitted: Map<Seq<char>, i64>,
    registry: Seq<PermissionModel>,
    editor: PermissionSetModel,
    code: Seq<char>,
)
    requires
        !allowed(editor, code) || !registered(registry, code),
    ensures
        state_in(edited(overrides, submitted, registry, editor), code) == state_in(overrides, code),
{
}

/// An edit stores an allow, a deny, or nothing at all.
pub proof fn law_an_edited_state_allows_or_denies(
    overrides: Map<Seq<char>, i64>,
    submitted: Map<Seq<char>, i64>,
    registry: Seq<PermissionModel>,
    editor: PermissionSetModel,
    code: Seq<char>,
)
    requires
        registered(registry, code),
        allowed(editor, code),
        submitted.contains_key(code),
    ensures
        state_in(edited(overrides, submitted, registry, editor), code) == (if submitted[code] == 1
            || submitted[code] == -1 {
            Some(submitted[code])
        } else {
            None
        }),
{
}

// --------------------------------------------------------------------- the form
/// A user's name: first, then last where there is one.
pub open spec fn name_of(first: Seq<char>, last: Option<Seq<char>>) -> Seq<char> {
    match last {
        Some(l) => if l.len() > 0 {
            first + " "@ + l
        } else {
            first
        },
        None => first,
    }
}

/// A user's name: first, then last where there is one.
pub fn full_name(first: &str, last: Option<&str>) -> (r: String)
    ensures
        r@ == name_of(first@, last.deep_view()),
{
    match last {
        Some(l) => if !l.is_empty() {
            cat3(first, " ", l)
        } else {
            first.to_owned()
        },
        None => first.to_owned(),
    }
}

/// One permission's three-state control.
pub struct PermRowView {
    pub code: String,
    pub label: String,
    pub state: i32,
    pub changeable: bool,
}

/// A [`PermRowView`], over characters.
pub struct PermRowModel {
    pub code: Seq<char>,
    pub label: Seq<char>,
    pub state: i32,
    pub changeable: bool,
}

impl DeepView for PermRowView {
    type V = PermRowModel;

    open spec fn deep_view(&self) -> PermRowModel {
        PermRowModel {
            code: self.code@,
            label: self.label@,
            state: self.state,
            changeable: self.changeable,
        }
    }
}

/// What a control shows of a state: anything but an allow or a deny inherits.
pub open spec fn shown_state(state: Option<i64>) -> i32 {
    if state == Some(1i64) {
        1
    } else if state == Some(-1i64) {
        -1i32
    } else {
        0
    }
}

/// A permission's control, under its heading in the operator's language.
pub open spec fn perm_row(
    p: PermissionModel,
    overrides: Map<Seq<char>, i64>,
    editor: PermissionSetModel,
    table: Seq<(Seq<char>, Seq<char>)>,
) -> (Seq<char>, PermRowModel) {
    (
        localized(table, p.group),
        PermRowModel {
            code: p.code,
            label: localized(table, p.label),
            state: shown_state(state_in(overrides, p.code)),
            changeable: allowed(editor, p.code),
        },
    )
}

/// Every permission's control, in the registry's order.
pub open spec fn perm_rows(
    registry: Seq<PermissionModel>,
    overrides: Map<Seq<char>, i64>,
    editor: PermissionSetModel,
    table: Seq<(Seq<char>, Seq<char>)>,
) -> Seq<(Seq<char>, PermRowModel)> {
    registry.map_values(|p: PermissionModel| perm_row(p, overrides, editor, table))
}

/// Groups the registered permissions, each with the user's current state and whether
/// the editor may change it.
pub fn group_permissions(
    registry: &Vec<Permission>,
    overrides: &States,
    editor: &PermissionSet,
    tr: &Translator,
) -> (r: Vec<Group<PermRowView>>)
    ensures
        r.deep_view() == grouped(
            perm_rows(registry.deep_view(), overrides@, editor@, tr@),
        ),
{
    let ghost all = registry.deep_view();
    let ghost entries = perm_rows(all, overrides@, editor@, tr@);
    let mut r: Vec<Group<PermRowView>> = Vec::new();
    let mut i: usize = 0;
    assert(r.deep_view() =~= grouped(entries.take(0)));
    while i < registry.len()
        invariant
            i <= registry.len(),
            all == registry.deep_view(),
            entries == perm_rows(all, overrides@, editor@, tr@),
            r.deep_view() == grouped(entries.take(i as int)),
        decreases registry.len() - i,
    {
        let p: &Permission = &registry[i];
        assert(all[i as int] == p.deep_view());
        assert(entries.take(i + 1).drop_last() =~= entries.take(i as int));
        assert(entries.take(i + 1).last() == perm_row(all[i as int], overrides@, editor@, tr@));
        let state: i32 = match overrides.get(p.code.as_str()) {
            Some(n) => if *n == 1 {
                1
            } else if *n == -1 {
                -1
            } else {
                0
            },
            None => 0,
        };
        let row: PermRowView = PermRowView {
            code: p.code.clone(),
            label: tr.t(&p.label),
            state,
            changeable: editor.allows(p.code.as_str()),
        };
        r = add_item(r, tr.t(&p.group), row);
        i = i + 1;
    }
    assert(entries.take(entries.len() as int) =~= entries);
    r
}

/// A stored user as the screen reads it. What could not be read is absent.
pub struct UserRow {
    pub username: Option<String>,
    pub first_name: Option<String>,
    pub last_name: Option<String>,
    pub email: Option<String>,
    pub is_superuser: Option<bool>,
    pub is_active: Option<bool>,
    pub permissions: Option<String>,
}

/// A [`UserRow`], over characters.
pub struct UserRowModel {
    pub username: Option<Seq<char>>,
    pub first_name: Option<Seq<char>>,
    pub last_name: Option<Seq<char>>,
    pub email: Option<Seq<char>>,
    pub is_superuser: Option<bool>,
    pub is_active: Option<bool>,
    pub permissions: Option<Seq<char>>,
}

impl DeepView for UserRow {
    type V = UserRowModel;

    open spec fn deep_view(&self) -> UserRowModel {
        UserRowModel {
            username: self.username.deep_view(),
            first_name: self.first_name.deep_view(),
            last_name: self.last_name.deep_view(),
            email: self.email.deep_view(),
            is_superuser: self.is_superuser,
            is_active: self.is_active,
            permissions: self.permissions.deep_view(),
        }
    }
}

/// The user form as the page shows it.
pub struct UserForm {
    pub action: String,
    pub cancel_path: String,
    pub full_name: String,
    pub username: String,
    pub email: String,
    pub is_superuser: bool,
    /// Whether this account may sign in.
    pub is_active: bool,
    /// Whether the viewing operator may change that: not their own account, and they
    /// must hold the permission.
    pub can_change_state: bool,
    pub state_action: String,
    pub groups: Vec<Group<PermRowView>>,
}

/// A [`UserForm`], over characters.
pub struct UserFormModel {
    pub action: Seq<char>,
    pub cancel_path: Seq<char>,
    pub full_name: Seq<char>,
    pub username: Seq<char>,
    pub email: Seq<char>,
    pub is_superuser: bool,
    pub is_active: bool,
    pub can_change_state: bool,
    pub state_action: Seq<char>,
    pub groups: Seq<GroupModel<PermRowModel>>,
}

impl DeepView for UserForm {
    type V = UserFormModel;

    open spec fn deep_view(&self) -> UserFormModel {
        UserFormModel {
            action: self.action@,
            cancel_path: self.cancel_path@,
            full_name: self.full_name@,
            username: self.username@,
            email: self.email@,
            is_superuser: self.is_superuser,
            is_active: self.is_active,
            can_change_state: self.can_change_state,
            state_action: self.state_action@,
            groups: self.groups.deep_view(),
        }
    }
}

/// Where a user is edited.
pub open spec fn edit_path(admin: Seq<char>, id: Seq<char>) -> Seq<char> {
    admin + "/users/"@ + id + "/edit"@
}

/// Where an account's state is changed.
pub open spec fn active_path(admin: Seq<char>, id: Seq<char>) -> Seq<char> {
    admin + "/users/"@ + id + "/active"@
}

/// Where a user is edited.
pub fn user_path(admin_path: &str, id: &str) -> (r: String)
    ensures
        r@ == edit_path(admin_path@, id@),
{
    cat(cat3(admin_path, "/users/", id).as_str(), "/edit")
}

/// The overrides a stored text holds: none where it cannot be read.
pub open spec fn stored_overrides(text: Option<Seq<char>>) -> Map<Seq<char>, i64> {
    match json_numbers_in(text_or_blank(text)) {
        Some(members) => members,
        None => Map::empty(),
    }
}

/// The overrides that were read, or none where they could not be.
pub fn read_states(read: Option<Vec<(String, i64)>>) -> (r: States)
    ensures
        r@ == (match read {
            Some(pairs) => map_of(pairs.deep_view()),
            None => Map::<Seq<char>, i64>::empty(),
        }),
{
    match read {
        Some(pairs) => States { pairs },
        None => States::new(),
    }
}

/// The overrides a stored text holds.
pub fn overrides_of(text: &Option<String>) -> (r: States)
    ensures
        r@ == stored_overrides(text.deep_view()),
{
    let read: Option<Vec<(String, i64)>> = match text {
        Some(t) => numbers_from_json(t.as_str()),
        None => numbers_from_json(String::new().as_str()),
    };
    read_states(read)
}

/// A text that was read, or blank.
fn text_of(s: &Option<String>) -> (r: String)
    ensures
        r@ == text_or_blank(s.deep_view()),
{
    match s {
        Some(t) => t.clone(),
        None => String::new(),
    }
}

/// A truth value that was read, or another.
pub open spec fn truth_or(b: Option<bool>, other: bool) -> bool {
    match b {
        Some(v) => v,
        None => other,
    }
}

/// A truth value that was read, or another.
fn flag_or(b: Option<bool>, other: bool) -> (r: bool)
    ensures
        r == truth_or(b, other),
{
    match b {
        Some(v) => v,
        None => other,
    }
}

/// The form of a user, as an editor sees it.
pub open spec fn user_form(
    row: UserRowModel,
    id: Seq<char>,
    editor_id: i64,
    editor: PermissionSetModel,
    registry: Seq<PermissionModel>,
    overrides: Map<Seq<char>, i64>,
    admin: Seq<char>,
    table: Seq<(Seq<char>, Seq<char>)>,
) -> UserFormModel {
    let superuser = truth_or(row.is_superuser, false);
    UserFormModel {
        action: edit_path(admin, id),
        cancel_path: admin + "/users"@,
        full_name: name_of(text_or_blank(row.first_name), row.last_name),
        username: text_or_blank(row.username),
        email: text_or_blank(row.email),
        is_superuser: superuser,
        is_active: truth_or(row.is_active, true),
        can_change_state: decimal_int(editor_id as int) != id && allowed(editor, MANAGE_USERS@),
        state_action: active_path(admin, id),
        groups: if superuser {
            Seq::empty()
        } else {
            grouped(perm_rows(registry, overrides, editor, table))
        },
    }
}

/// The form of a user, given the overrides it currently has.
pub fn build(
    row: &UserRow,
    id: &str,
    editor_id: i64,
    editor: &PermissionSet,
    registry: &Vec<Permission>,
    overrides: &States,
    admin_path: &str,
    tr: &Translator,
) -> (r: UserForm)
    ensures
        r.deep_view() == user_form(
            row.deep_view(),
            id@,
            editor_id,
            editor@,
            registry.deep_view(),
            overrides@,
            admin_path@,
            tr@,
        ),
{
    let is_superuser: bool = flag_or(row.is_superuser, false);
    let mut groups: Vec<Group<PermRowView>> = Vec::new();
    assert(groups.deep_view() =~= Seq::<GroupModel<PermRowModel>>::empty());
    if !is_superuser {
        groups = group_permissions(registry, overrides, editor, tr);
    }
    let last: Option<&str> = match &row.last_name {
        Some(l) => Some(l.as_str()),
        None => None,
    };
    UserForm {
        action: user_path(admin_path, id),
        cancel_path: cat(admin_path, "/users"),
        full_name: full_name(text_of(&row.first_name).as_str(), last),
        username: text_of(&row.username),
        email: text_of(&row.email),
        is_superuser,
        is_active: flag_or(row.is_active, true),
        can_change_state: !same(i64_text(editor_id).as_str(), id) && editor.allows(MANAGE_USERS),
        state_action: cat(cat3(admin_path, "/users/", id).as_str(), "/active"),
        groups,
    }
}

/// The edit form of a stored user, or that there is none.
pub fn edit_form(
    row: Option<&UserRow>,
    id: &str,
    editor_id: i64,
    editor: &PermissionSet,
    registry: &Vec<Permission>,
    admin_path: &str,
    tr: &Translator,
) -> (r: Result<UserForm, AdminError>)
    ensures
        match row {
            Some(u) => r is Ok && (r->Ok_0).deep_view() == user_form(
                u.deep_view(),
                id@,
                editor_id,
                editor@,
                registry.deep_view(),
                stored_overrides(u.permissions.deep_view()),
                admin_path@,
                tr@,
            ),
            None => r is Err && r->Err_0 is NotFound,
        },
{
    match row {
        Some(u) => {
            let overrides: States = overrides_of(&u.permissions);
            Ok(build(u, id, editor_id, editor, registry, &overrides, admin_path, tr))
        },
        None => Err(AdminError::NotFound),
    }
}

// ----------------------------------------------------------------------- saving
/// What a submitted edit leads to.
pub enum UserStep {
    /// A superuser has no editable overrides; back to the form.
    Back(String),
    /// Store these overrides of the account.
    Store { id: i64, overrides: States },
}

/// What a submitted edit of a stored user leads to.
pub fn update(
    row: Option<&UserRow>,
    id: &str,
    pairs: &Vec<(String, String)>,
    registry: &Vec<Permission>,
    editor: &PermissionSet,
    admin_path: &str,
) -> (r: Result<UserStep, AdminError>)
    ensures
        match row {
            None => r is Err && r->Err_0 is NotFound,
            Some(u) => if truth_or(u.is_superuser, false) {
                r matches Ok(UserStep::Back(to)) && to@ == edit_path(admin_path@, id@)
            } else {
                match i64_of(id@) {
                    None => r is Err && r->Err_0 is NotFound,
                    Some(n) => r matches Ok(UserStep::Store { id: target, overrides }) && target
                        == n && overrides@ == edited(
                        stored_overrides(u.permissions.deep_view()),
                        submitted_states(pairs.deep_view()),
                        registry.deep_view(),
                        editor@,
                    ),
                }
            },
        },
{
    let u: &UserRow = match row {
        Some(u) => u,
        None => {
            return Err(AdminError::NotFound);
        },
    };
    if flag_or(u.is_superuser, false) {
        return Ok(UserStep::Back(user_path(admin_path, id)));
    }
    let target: i64 = match parse_i64(id) {
        Some(n) => n,
        None => {
            return Err(AdminError::NotFound);
        },
    };
    let submitted: States = parse_states(pairs);
    let overrides: States = apply_states(
        overrides_of(&u.permissions),
        &submitted,
        registry,
        editor,
    );
    Ok(UserStep::Store { id: target, overrides })
}

/// What follows a change of an account: the audit entry where one is due, the flash,
/// and where to go.
pub struct UserChanged {
    pub entry: Option<AuditEntry>,
    pub flash: Flash,
    pub to: String,
}

/// A [`UserChanged`], over characters.
pub struct UserChangedModel {
    pub entry: Option<AuditModel>,
    pub flash: FlashModel,
    pub to: Seq<char>,
}

impl DeepView for UserChanged {
    type V = UserChangedModel;

    open spec fn deep_view(&self) -> UserChangedModel {
        UserChangedModel {
            entry: self.entry.deep_view(),
            flash: self.flash.deep_view(),
            to: self.to@,
        }
    }
}

/// What follows stored overrides. Saving is not leaving: it goes back to the
/// operator being edited, not to the list.
pub fn updated(
    overrides: &States,
    editor_id: i64,
    editor_username: &str,
    id: &str,
    admin_path: &str,
) -> (r: UserChanged)
    ensures
        r.deep_view() == (UserChangedModel {
            entry: Some(
                AuditModel {
                    actor_user_id: Some(editor_id),
                    actor_username: editor_username@,
                    action: "backend.user.permissions.update"@,
                    target_type: Some("backend_user"@),
                    target_id: Some(id@),
                    detail: Some(json_numbers_text(overrides@)),
                },
            ),
            flash: flash(FlashLevel::Success, "Permissions updated."@),
            to: edit_path(admin_path@, id@),
        }),
{
    let detail: String = numbers_to_json(&overrides.pairs);
    UserChanged {
        entry: Some(
            record(
                editor_id,
                editor_username,
                "backend.user.permissions.update",
                Some("backend_user"),
                Some(id),
                Some(detail.as_str()),
            ),
        ),
        flash: Flash::say(FlashLevel::Success, "Permissions updated."),
        to: user_path(admin_path, id),
    }
}

/// The overrides as they are stored, which reading gives back.
pub fn stored_text(overrides: &States) -> (r: String)
    ensures
        r@ == json_numbers_text(overrides@),
        stored_overrides(Some(r@)) == overrides@,
{
    numbers_to_json(&overrides.pairs)
}

// ------------------------------------------------------------------------ state
/// The account to change and whether to activate it, where the editor may: `"1"`
/// activates, anything else deactivates.
pub fn set_active(editor: &PermissionSet, id: &str, active: &str) -> (r: Result<
    (i64, bool),
    AdminError,
>)
    ensures
        if !allowed(editor@, MANAGE_USERS@) {
            r is Err && r->Err_0 is Forbidden
        } else {
            match i64_of(id@) {
                None => r is Err && r->Err_0 is NotFound,
                Some(n) => r == Ok::<(i64, bool), AdminError>((n, active@ == "1"@)),
            }
        },
{
    if !editor.allows(MANAGE_USERS) {
        return Err(AdminError::Forbidden);
    }
    match parse_i64(id) {
        Some(n) => Ok((n, same(active, "1"))),
        None => Err(AdminError::NotFound),
    }
}

/// Why the account service did not change an account.
pub enum StateError {
    /// A rule stopped it: not yourself, not the last superuser.
    Refused(String),
    Failed,
}

/// What follows an attempt to change an account's state. A refusal is the operator's
/// to read: it names which rule stopped them.
pub open spec fn state_changed(
    outcome: Result<(), StateError>,
    active: bool,
    editor_id: i64,
    username: Seq<char>,
    id: Seq<char>,
    admin: Seq<char>,
) -> UserChangedModel {
    UserChangedModel {
        entry: match outcome {
            Ok(()) => Some(
                AuditModel {
                    actor_user_id: Some(editor_id),
                    actor_username: username,
                    action: if active {
                        "backend.user.activate"@
                    } else {
                        "backend.user.deactivate"@
                    },
                    target_type: Some("backend_user"@),
                    target_id: Some(id),
                    detail: None,
                },
            ),
            Err(_) => None,
        },
        flash: match outcome {
            Ok(()) => flash(
                FlashLevel::Success,
                if active {
                    "That account can sign in again."@
                } else {
                    "That account is deactivated and its sessions have ended."@
                },
            ),
            Err(StateError::Refused(reason)) => flash(FlashLevel::Error, reason@),
            Err(StateError::Failed) => flash(
                FlashLevel::Error,
                "That account could not be changed."@,
            ),
        },
        to: edit_path(admin, id),
    }
}

/// What follows an attempt to change an account's state.
pub fn active_done(
    outcome: Result<(), StateError>,
    active: bool,
    editor_id: i64,
    editor_username: &str,
    id: &str,
    admin_path: &str,
) -> (r: UserChanged)
    ensures
        r.deep_view() == state_changed(
            outcome,
            active,
            editor_id,
            editor_username@,
            id@,
            admin_path@,
        ),
{
    let to: String = user_path(admin_path, id);
    match outcome {
        Ok(()) => {
            let action: &str = if active {
                "backend.user.activate"
            } else {
                "backend.user.deactivate"
            };
            let said: &str = if active {
                "That account can sign in again."
            } else {
                "That account is deactivated and its sessions have ended."
            };
            UserChanged {
                entry: Some(
                    record(
                        editor_id,
                        editor_username,
                        action,
                        Some("backend_user"),
                        Some(id),
                        None,
                    ),
                ),
                flash: Flash::say(FlashLevel::Success, said),
                to,
            }
        },
        Err(StateError::Refused(reason)) => UserChanged {
            entry: None,
            flash: Flash::say(FlashLevel::Error, reason.as_str()),
            to,
        },
        Err(StateError::Failed) => UserChanged {
            entry: None,
            flash: Flash::say(FlashLevel::Error, "That account could not be changed."),
            to,
        },
    }
}

// ---------------------------------------------------------------------- storage
/// The read of a stored user.
pub open spec fn user_read(id: Seq<char>, backend: Backend) -> SelectModel {
    SelectModel {
        chosen: seq![
            ChosenModel::Column("username"@),
            ChosenModel::Column("first_name"@),
            ChosenModel::Column("last_name"@),
            ChosenModel::Column("email"@),
            ChosenModel::Column("is_superuser"@),
            ChosenModel::Column("is_active"@),
            ChosenModel::Column("permissions"@),
        ],
        tables: seq!["backend_users"@],
        rows: reading_as("id"@, id, backend),
        ..empty_select()
    }
}

/// The read of a stored user.
pub fn read_statement(id: &str, backend: Backend) -> (r: Statement)
    ensures
        r.deep_view() == select_text(user_read(id@, backend), backend),
{
    let mut s = select();
    select_column(&mut s, "username");
    select_column(&mut s, "first_name");
    select_column(&mut s, "last_name");
    select_column(&mut s, "email");
    select_column(&mut s, "is_superuser");
    select_column(&mut s, "is_active");
    select_column(&mut s, "permissions");
    select_from(&mut s, "backend_users");
    select_where_text(&mut s, "id", text_cast(backend), id);
    proof {
        let want = user_read(id@, backend);
        assert(select_parts(s).chosen =~= want.chosen);
        assert(select_parts(s).tables =~= want.tables);
    }
    finish_select(&s, backend)
}

} // verus!
