//! What editing roles, permissions and accounts promises.

use vstd::prelude::*;

use crate::access::{
    allowed, builtin_permission_models, held_by, meets, role_holds, system_role_models,
    PermissionModel, PermissionSetModel, ROLE_ADMIN, ROLE_EDITOR,
};
use crate::grouping::{entries_of, grouped, items_under};
use crate::json::{json_numbers_in, json_strings_in, json_strings_text};
use crate::laws::rows::{law_a_statement_is_about_the_row_it_names, row_written};
use crate::laws::values::{law_a_written_number_reads_back, lemma_kept};
use crate::nums::{decimal_int, i64_of};
use crate::roles::{
    kept_perms, lemma_role_columns, new_role_path, perm_check, perm_checks, registered,
    rejected_role, role_form, role_in, role_path, role_read, role_values, saved_role,
    submitted_perms, submitted_role, RoleModel,
};
use crate::session::FlashLevel;
use crate::statements::{Backend, ChosenModel};
use crate::strs::trimmed;
use crate::table::{among, text_in, StoredRow};
use crate::text::localized;
use crate::users::{
    edit_path, edited, name_of, perm_row, perm_rows, shown_state, state_changed, state_in,
    stored_overrides, submitted_states, user_form, user_read, StateError, UserRowModel,
    MANAGE_USERS,
};

verus! {

// ----------------------------------------------------------------------- access
/// An operator may do what their roles let them do, unless an override of their own says
/// otherwise: where nothing is overridden, just that. What needs no permission is open.
pub proof fn law_roles_decide_what_is_not_overridden(
    perms: PermissionSetModel,
    code: Seq<char>,
)
    requires
        !perms.superuser,
        !perms.allow.contains(code),
        !perms.deny.contains(code),
    ensures
        allowed(perms, code) <==> perms.roles.contains(code),
        meets(perms, Some(code)) <==> perms.roles.contains(code),
        meets(perms, None),
{
}

/// Letting someone do more never takes anything from them: one more role permission or
/// one more allowance keeps what was allowed, one more denial adds nothing.
pub proof fn law_more_grants_allow_no_less(
    perms: PermissionSetModel,
    granted: Seq<char>,
    code: Seq<char>,
)
    ensures
        allowed(perms, code) ==> allowed(
            PermissionSetModel { roles: perms.roles.push(granted), ..perms },
            code,
        ),
        allowed(perms, code) ==> allowed(
            PermissionSetModel { allow: perms.allow.push(granted), ..perms },
            code,
        ),
        allowed(PermissionSetModel { deny: perms.deny.push(granted), ..perms }, code) ==> allowed(
            perms,
            code,
        ),
        allowed(PermissionSetModel { allow: perms.allow.push(granted), ..perms }, granted),
{
    assert(perms.allow.push(granted).last() == granted);
    assert forall|list: Seq<Seq<char>>| list.contains(code) implies (#[trigger] list.push(
        granted,
    )).contains(code) by {
        let i = choose|i: int| 0 <= i < list.len() && list[i] == code;
        assert(list.push(granted)[i] == code);
    }
    assert(perms.allow.push(granted)[perms.allow.len() as int] == granted);
}

/// A built-in role holds just the permissions that name it; the administrator's also
/// holds those that name no role.
pub proof fn law_a_built_in_role_holds_what_names_it(
    contributed: Seq<PermissionModel>,
    p: PermissionModel,
    k: int,
)
    requires
        contributed.contains(p),
        0 <= k < system_role_models(contributed).len(),
    ensures
        ({
            let role = system_role_models(contributed)[k];
            let names = p.default_roles.contains(role.code) || (p.default_roles.len() == 0
                && role.code == ROLE_ADMIN@);
            names ==> role.permissions.contains(p.code)
        }),
        system_role_models(contributed).len() == 2,
        system_role_models(contributed)[0].code == ROLE_ADMIN@,
        system_role_models(contributed)[1].code == ROLE_EDITOR@,
{
    let all = builtin_permission_models() + contributed;
    let role = system_role_models(contributed)[k];
    let f = |x: PermissionModel|
        if role_holds(role.code, x) {
            Some(x.code)
        } else {
            None::<Seq<char>>
        };
    assert(role.permissions == all.filter_map(f)) by {
        assert(role.permissions == held_by(role.code, all));
    }
    lemma_kept(all, f, p.code);
    let i = choose|i: int| 0 <= i < contributed.len() && contributed[i] == p;
    assert(all[builtin_permission_models().len() + i] == p);
    assert(all.contains(p));
    if role_holds(role.code, p) {
        assert(f(p) == Some(p.code));
    }
}

// ------------------------------------------------------------------------ roles
/// A saved role reads back as it was entered: the columns of its row hold the code, the
/// name and the permissions of the draft, and reading the permissions gives them back
/// where the JSON they are stored as reads back. The change is about that role alone.
pub proof fn law_a_saved_role_reads_back(
    role: RoleModel,
    row: StoredRow,
    id: Seq<char>,
    backend: Backend,
)
    ensures
        text_in(row_written(row, role_values(role)), "code"@) == Some(role.code),
        text_in(row_written(row, role_values(role)), "name"@) == Some(role.name),
        text_in(row_written(row, role_values(role)), "permissions"@) == Some(
            json_strings_text(role.permissions),
        ),
        role_in(role_values(role)).code == role.code,
        role_in(role_values(role)).name == role.name,
        json_strings_in(json_strings_text(role.permissions)) == Some(role.permissions) ==> role_in(
            role_values(role),
        ) == role,
        ({
            let s = role_read(id, backend);
            &&& (among(row, s.rows) <==> text_in(row, "id"@) == Some(id))
            &&& s.tables == seq!["backend_roles"@]
            &&& s.chosen.contains(ChosenModel::Column("code"@))
            &&& s.chosen.contains(ChosenModel::Column("name"@))
            &&& s.chosen.contains(ChosenModel::Column("permissions"@))
        }),
{
    lemma_role_columns(role);
    reveal_strlit("code");
    reveal_strlit("name");
    reveal_strlit("permissions");
    assert("code"@[0] == 'c' && "name"@[0] == 'n' && "permissions"@[0] == 'p');
    let values = role_values(role);
    crate::attr::lemma_key_at(values, "code"@);
    crate::attr::lemma_key_at(values, "name"@);
    crate::attr::lemma_key_at(values, "permissions"@);
    assert(values[0].0 == "code"@ && values[1].0 == "name"@ && values[2].0 == "permissions"@);
    law_a_statement_is_about_the_row_it_names(row, "id"@, id, backend);
    let s = role_read(id, backend);
    assert(s.chosen[0] == ChosenModel::Column("code"@));
    assert(s.chosen[1] == ChosenModel::Column("name"@));
    assert(s.chosen[2] == ChosenModel::Column("permissions"@));
}

/// A role takes what its form submits: the code and the name without white space around
/// them, and each ticked permission that is registered, in order.
pub proof fn law_a_role_takes_what_was_submitted(
    pairs: Seq<(Seq<char>, Seq<char>)>,
    registry: Seq<PermissionModel>,
    value: Seq<char>,
)
    ensures
        submitted_role(pairs.push(("code"@, value)), registry).code == trimmed(value),
        submitted_role(pairs.push(("code"@, value)), registry).name == submitted_role(
            pairs,
            registry,
        ).name,
        submitted_role(pairs.push(("name"@, value)), registry).name == trimmed(value),
        submitted_role(pairs.push(("name"@, value)), registry).code == submitted_role(
            pairs,
            registry,
        ).code,
        submitted_role(pairs.push(("perm"@, value)), registry).permissions == submitted_role(
            pairs,
            registry,
        ).permissions + (if registered(registry, value) {
            seq![value]
        } else {
            Seq::empty()
        }),
        submitted_role(Seq::empty(), registry).permissions.len() == 0,
        submitted_role(Seq::empty(), registry).code.len() == 0,
        submitted_role(Seq::empty(), registry).name.len() == 0,
{
    reveal_strlit("code");
    reveal_strlit("name");
    reveal_strlit("perm");
    assert("code"@[0] == 'c' && "name"@[0] == 'n' && "perm"@[0] == 'p');
    let a = pairs.push(("code"@, value));
    let b = pairs.push(("name"@, value));
    let c = pairs.push(("perm"@, value));
    assert(a.drop_last() =~= pairs && b.drop_last() =~= pairs && c.drop_last() =~= pairs);
    reveal(Seq::filter_map);
    let before = submitted_perms(pairs);
    assert(submitted_perms(c) == before + seq![value]);
    assert((before + seq![value]).drop_last() =~= before);
    assert(kept_perms(before + seq![value], registry) =~= kept_perms(before, registry) + (
    if registered(registry, value) {
        seq![value]
    } else {
        Seq::empty()
    }));
    let none = Seq::<(Seq<char>, Seq<char>)>::empty();
    assert(submitted_perms(none).len() == 0);
}

/// The editor shows a checkbox for each registered permission, ticked where the role
/// holds it.
pub proof fn law_the_editor_ticks_what_the_role_holds(
    registry: Seq<PermissionModel>,
    role: RoleModel,
    admin: Seq<char>,
    action: Seq<char>,
    table: Seq<(Seq<char>, Seq<char>)>,
    p: PermissionModel,
)
    requires
        registry.contains(p),
    ensures
        ({
            let form = role_form(registry, admin, action, None, role, table);
            let shown = items_under(form.groups, localized(table, p.group));
            &&& form.code == role.code
            &&& form.name == role.name
            &&& form.action == action
            &&& form.error is None
            &&& exists|i: int|
                {
                    &&& 0 <= i < shown.len()
                    &&& (#[trigger] shown[i]).code == p.code
                    &&& shown[i].label == localized(table, p.label)
                    &&& (shown[i].checked <==> role.permissions.contains(p.code))
                }
        }),
{
    let checks = perm_checks(registry, role.permissions, table);
    let heading = localized(table, p.group);
    crate::grouping::law_grouping_keeps_every_item(checks, heading);
    let i = choose|i: int| 0 <= i < registry.len() && registry[i] == p;
    assert(checks[i] == perm_check(p, role.permissions, table));
    lemma_entry(checks, heading, i);
    let shown = items_under(grouped(checks), heading);
    let one = perm_check(p, role.permissions, table);
    assert(entries_of(checks, heading).contains(one.1));
    let k = choose|k: int| 0 <= k < shown.len() && shown[k] == one.1;
    let form = role_form(registry, admin, action, None, role, table);
    assert(form.groups == grouped(checks));
    assert(items_under(form.groups, heading)[k].code == p.code);
}

/// An entry stands under its heading.
proof fn lemma_entry<M>(entries: Seq<(Seq<char>, M)>, name: Seq<char>, i: int)
    requires
        0 <= i < entries.len(),
        entries[i].0 == name,
    ensures
        entries_of(entries, name).contains(entries[i].1),
    decreases entries.len(),
{
    let init = entries.drop_last();
    let now = entries_of(entries, name);
    if i < init.len() {
        lemma_entry(init, name, i);
        let before = entries_of(init, name);
        assert(init[i] == entries[i]);
        let k = choose|k: int| 0 <= k < before.len() && before[k] == entries[i].1;
        assert(now[k] == entries[i].1);
    } else {
        assert(now.last() == entries[i].1);
        assert(now[now.len() - 1] == entries[i].1);
    }
}

/// A stored role is put on record as what was done, by whom and to which role, is
/// announced so, and leads back to the list.
pub proof fn law_a_stored_role_is_put_on_record(
    created: bool,
    actor: i64,
    username: Seq<char>,
    id: Seq<char>,
    role: RoleModel,
    htmx: bool,
    admin: Seq<char>,
)
    ensures
        ({
            let after = saved_role(created, actor, username, id, role, htmx, admin);
            &&& after.entry.actor_user_id == Some(actor)
            &&& after.entry.actor_username == username
            &&& after.entry.target_type == Some("backend_role"@)
            &&& after.entry.target_id == Some(id)
            &&& created ==> after.entry.action == "backend.role.create"@
            &&& !created ==> after.entry.action == "backend.role.update"@
            &&& after.flash.level == FlashLevel::Success
            &&& after.flash.text.source == (if created {
                "Role created."@
            } else {
                "Role updated."@
            })
            &&& after.to.to == admin + "/roles"@
            &&& after.to.status == (if htmx {
                204u16
            } else {
                303u16
            })
        }),
        new_role_path(admin) == admin + "/roles/new"@,
        role_path(admin, id) == admin + "/roles/"@ + id + "/edit"@,
{
}

/// A role that is turned down is answered as not processable, with what was entered and
/// why, as a fragment where only the form was asked for.
pub proof fn law_a_rejected_role_keeps_what_was_entered(
    registry: Seq<PermissionModel>,
    admin: Seq<char>,
    action: Seq<char>,
    why: Seq<char>,
    role: RoleModel,
    htmx: bool,
    table: Seq<(Seq<char>, Seq<char>)>,
)
    ensures
        ({
            let reply = rejected_role(registry, admin, action, why, role, htmx, table);
            &&& reply.status == 422
            &&& reply.fragment == htmx
            &&& reply.form.code == role.code
            &&& reply.form.name == role.name
            &&& reply.form.action == action
            &&& reply.form.error == Some(localized(table, crate::text::plain(why)))
        }),
{
}

// ------------------------------------------------------------------------ users
/// A control submits the state of its own permission and of no other.
pub proof fn law_a_control_submits_its_own_permission(
    pairs: Seq<(Seq<char>, Seq<char>)>,
    code: Seq<char>,
    n: i64,
    key: Seq<char>,
    text: Seq<char>,
)
    ensures
        ({
            let after = submitted_states(pairs.push(("p:"@ + code, decimal_int(n as int))));
            &&& state_in(after, code) == Some(n)
            &&& forall|other: Seq<char>|
                other != code ==> #[trigger] state_in(after, other) == state_in(
                    submitted_states(pairs),
                    other,
                )
        }),
        !"p:"@.is_prefix_of(key) || i64_of(text) is None ==> submitted_states(
            pairs.push((key, text)),
        ) == submitted_states(pairs),
        submitted_states(Seq::empty()) == Map::<Seq<char>, i64>::empty(),
{
    reveal_strlit("p:");
    let whole = "p:"@ + code;
    let more = pairs.push((whole, decimal_int(n as int)));
    assert(more.drop_last() =~= pairs);
    assert(whole.skip(2) =~= code);
    assert("p:"@ =~= whole.subrange(0, 2));
    assert("p:"@.is_prefix_of(whole));
    law_a_written_number_reads_back(n);
    assert(pairs.push((key, text)).drop_last() =~= pairs);
}

/// A save of a user's permissions does what the screen showed: a permission that the
/// editor holds and the form submitted comes to what was submitted, one that was not
/// submitted stays as it was.
pub proof fn law_submitted_overrides_are_kept(
    overrides: Map<Seq<char>, i64>,
    submitted: Map<Seq<char>, i64>,
    registry: Seq<PermissionModel>,
    editor: PermissionSetModel,
    code: Seq<char>,
)
    ensures
        ({
            let after = edited(overrides, submitted, registry, editor);
            let may = registered(registry, code) && allowed(editor, code);
            &&& may && submitted.contains_key(code) && -1 <= submitted[code] <= 1 ==> shown_state(
                state_in(after, code),
            ) == submitted[code]
            &&& may && submitted.contains_key(code) && submitted[code] == 0 ==> !after.contains_key(
                code,
            )
            &&& !submitted.contains_key(code) ==> state_in(after, code) == state_in(
                overrides,
                code,
            )
            &&& !may ==> state_in(after, code) == state_in(overrides, code)
        }),
        shown_state(None) == 0,
        shown_state(Some(1i64)) == 1,
        shown_state(Some(-1i64)) == -1,
{
}

/// The screen shows each permission's own state, and lets an editor change just those
/// they hold themselves.
pub proof fn law_the_screen_offers_what_the_editor_holds(
    p: PermissionModel,
    overrides: Map<Seq<char>, i64>,
    editor: PermissionSetModel,
    table: Seq<(Seq<char>, Seq<char>)>,
)
    ensures
        ({
            let (heading, shown) = perm_row(p, overrides, editor, table);
            &&& heading == localized(table, p.group)
            &&& shown.code == p.code
            &&& shown.label == localized(table, p.label)
            &&& (shown.changeable <==> allowed(editor, p.code))
            &&& (shown.state == 1 <==> state_in(overrides, p.code) == Some(1i64))
            &&& (shown.state == -1 <==> state_in(overrides, p.code) == Some(-1i64))
            &&& -1 <= shown.state <= 1
        }),
{
}

/// A user's screen is about that user. Nobody changes the state of their own account,
/// nor without the permission; a superuser holds everything, so there is nothing to edit.
pub proof fn law_a_users_screen_is_about_them(
    row: UserRowModel,
    id: i64,
    editor_id: i64,
    editor: PermissionSetModel,
    registry: Seq<PermissionModel>,
    overrides: Map<Seq<char>, i64>,
    admin: Seq<char>,
    table: Seq<(Seq<char>, Seq<char>)>,
)
    ensures
        ({
            let path = decimal_int(id as int);
            let form = user_form(
                row,
                path,
                editor_id,
                editor,
                registry,
                overrides,
                admin,
                table,
            );
            &&& (form.can_change_state <==> id != editor_id && allowed(editor, MANAGE_USERS@))
            &&& row.is_superuser == Some(true) ==> form.is_superuser && form.groups.len() == 0
            &&& row.is_superuser != Some(true) ==> !form.is_superuser && form.groups == grouped(
                perm_rows(registry, overrides, editor, table),
            )
            &&& (form.is_active <==> row.is_active != Some(false))
            &&& row.username matches Some(name) ==> form.username == name
            &&& row.email matches Some(email) ==> form.email == email
            &&& form.action == admin + "/users/"@ + path + "/edit"@
            &&& form.state_action == admin + "/users/"@ + path + "/active"@
            &&& form.cancel_path == admin + "/users"@
        }),
{
    law_a_written_number_reads_back(id);
    law_a_written_number_reads_back(editor_id);
}

/// A name is the first name, with the last name behind it where there is one.
pub proof fn law_a_name_is_first_then_last(first: Seq<char>, last: Seq<char>)
    ensures
        last.len() > 0 ==> name_of(first, Some(last)) == first + " "@ + last,
        last.len() == 0 ==> name_of(first, Some(last)) == first,
        name_of(first, None) == first,
{
}

/// A change of an account's state is put on record only where it was made, as what was
/// done by whom and to whom; a refusal is told as it was given.
pub proof fn law_only_a_change_made_is_put_on_record(
    active: bool,
    editor_id: i64,
    username: Seq<char>,
    id: Seq<char>,
    admin: Seq<char>,
    reason: String,
)
    ensures
        ({
            let made = state_changed(Ok(()), active, editor_id, username, id, admin);
            let refused = state_changed(
                Err(StateError::Refused(reason)),
                active,
                editor_id,
                username,
                id,
                admin,
            );
            let failed = state_changed(
                Err(StateError::Failed),
                active,
                editor_id,
                username,
                id,
                admin,
            );
            &&& made.entry matches Some(e) && e.actor_user_id == Some(editor_id)
                && e.actor_username == username && e.target_type == Some("backend_user"@)
                && e.target_id == Some(id) && e.action == (if active {
                "backend.user.activate"@
            } else {
                "backend.user.deactivate"@
            })
            &&& made.flash.level == FlashLevel::Success
            &&& made.flash.text.source == (if active {
                "That account can sign in again."@
            } else {
                "That account is deactivated and its sessions have ended."@
            })
            &&& refused.entry is None && refused.flash.level == FlashLevel::Error
                && refused.flash.text.source == reason@
            &&& failed.entry is None && failed.flash.level == FlashLevel::Error
            &&& made.to == edit_path(admin, id) && refused.to == made.to && failed.to == made.to
        }),
{
}

/// A user's row is read by its id, with everything the screen shows; overrides that
/// cannot be read are none.
pub proof fn law_a_users_row_is_read_by_its_id(
    id: Seq<char>,
    backend: Backend,
    row: StoredRow,
    text: Seq<char>,
)
    ensures
        ({
            let s = user_read(id, backend);
            &&& (among(row, s.rows) <==> text_in(row, "id"@) == Some(id))
            &&& s.tables == seq!["backend_users"@]
            &&& s.chosen == seq![
                ChosenModel::Column("username"@),
                ChosenModel::Column("first_name"@),
                ChosenModel::Column("last_name"@),
                ChosenModel::Column("email"@),
                ChosenModel::Column("is_superuser"@),
                ChosenModel::Column("is_active"@),
                ChosenModel::Column("permissions"@),
            ]
        }),
        json_numbers_in(text) matches Some(members) ==> stored_overrides(Some(text)) == members,
        json_numbers_in(text) is None ==> stored_overrides(Some(text)) == Map::<
            Seq<char>,
            i64,
        >::empty(),
{
    law_a_statement_is_about_the_row_it_names(row, "id"@, id, backend);
}

} // verus!
