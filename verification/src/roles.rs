//! The roles screen's create and edit form: the permission editor.
//!
//! The registered permissions are shown as grouped checkboxes, ticked for the ones
//! the role holds. Only registered permissions are accepted, so a crafted
//! submission cannot grant a permission the deployment never declared.

use vstd::prelude::*;

use crate::access::{Permission, PermissionModel};
use crate::attr::{held, lemma_key_at};
use crate::audit::{record, AuditEntry, AuditModel};
use crate::error::AdminError;
use crate::grouping::{add_item, grouped, Group, GroupModel};
use crate::json::{
    json_object_text, json_strings_in, json_strings_text, object_to_json, strings_from_json,
    strings_to_json,
};
use crate::persist::{Bound, BoundModel};
use crate::reply::{saved, saved_response, Redirection, RedirectionModel};
use crate::session::{flash, Flash, FlashLevel, FlashModel};
use crate::statements::{
    empty_select, finish_select, reading_as, select, select_column, select_from, select_parts,
    select_text, select_where_text, text_cast, update_rows, update_text, Backend, ChosenModel,
    SelectModel, Statement, UpdateModel,
};
use crate::strs::{cat, cat3, listed, lookup, same, trim, trimmed};
use crate::text::{localized, plain, Text, TextModel, Translator};

verus! {

// ---------------------------------------------------------------------- parsing
/// The last value submitted for a name, without surrounding space; blank where none
/// was.
pub open spec fn last_trimmed(pairs: Seq<(Seq<char>, Seq<char>)>, name: Seq<char>) -> Seq<char> {
    match lookup(pairs, name) {
        Some(v) => trimmed(v),
        None => Seq::empty(),
    }
}

/// Every permission submitted, in order.
pub open spec fn submitted_perms(pairs: Seq<(Seq<char>, Seq<char>)>) -> Seq<Seq<char>> {
    pairs.filter_map(
        |p: (Seq<char>, Seq<char>)|
            if p.0 == "perm"@ {
                Some(p.1)
            } else {
                None::<Seq<char>>
            },
    )
}

/// The three names a role form submits are different names.
proof fn lemma_names_differ()
    ensures
        "code"@ != "name"@,
        "code"@ != "perm"@,
        "name"@ != "perm"@,
{
    reveal_strlit("code");
    reveal_strlit("name");
    reveal_strlit("perm");
    assert("code"@[0] != "name"@[0]);
    assert("code"@[0] != "perm"@[0]);
    assert("name"@[0] != "perm"@[0]);
}

/// The `code`, `name` and repeated `perm` values of the submitted pairs. A checkbox
/// list arrives as one `perm` pair per ticked box.
pub fn parse(pairs: &Vec<(String, String)>) -> (r: (String, String, Vec<String>))
    ensures
        r.0@ == last_trimmed(pairs.deep_view(), "code"@),
        r.1@ == last_trimmed(pairs.deep_view(), "name"@),
        r.2.deep_view() == submitted_perms(pairs.deep_view()),
{
    let ghost all = pairs.deep_view();
    let ghost f = |p: (Seq<char>, Seq<char>)|
        if p.0 == "perm"@ {
            Some(p.1)
        } else {
            None::<Seq<char>>
        };
    let mut code: String = String::new();
    let mut name: String = String::new();
    let mut perms: Vec<String> = Vec::new();
    let mut i: usize = 0;
    assert(perms.deep_view() =~= all.take(0).filter_map(f));
    proof {
        lemma_names_differ();
    }
    while i < pairs.len()
        invariant
            i <= pairs.len(),
            all == pairs.deep_view(),
            f == (|p: (Seq<char>, Seq<char>)|
                if p.0 == "perm"@ {
                    Some(p.1)
                } else {
                    None::<Seq<char>>
                }),
            "code"@ != "name"@,
            "code"@ != "perm"@,
            "name"@ != "perm"@,
            code@ == last_trimmed(all.take(i as int), "code"@),
            name@ == last_trimmed(all.take(i as int), "name"@),
            perms.deep_view() == all.take(i as int).filter_map(f),
        decreases pairs.len() - i,
    {
        let ghost before = perms.deep_view();
        proof {
            all.lemma_filter_map_take_succ(f, i as int);
            assert(all[i as int] == pairs@[i as int].deep_view());
            assert(all.take(i + 1).drop_last() =~= all.take(i as int));
            assert(all.take(i + 1).last() == all[i as int]);
        }
        let key: &str = pairs[i].0.as_str();
        let value: &str = pairs[i].1.as_str();
        if same(key, "code") {
            code = trim(value).to_owned();
        } else if same(key, "name") {
            name = trim(value).to_owned();
        } else if same(key, "perm") {
            perms.push(value.to_owned());
            assert(perms.deep_view() =~= before + seq![value@]);
        }
        i = i + 1;
    }
    assert(all.take(all.len() as int) =~= all);
    (code, name, perms)
}

/// Whether a permission is registered.
pub open spec fn registered(registry: Seq<PermissionModel>, code: Seq<char>) -> bool {
    exists|i: int| 0 <= i < registry.len() && #[trigger] registry[i].code == code
}

/// Whether a permission is registered.
pub fn is_registered(registry: &Vec<Permission>, code: &str) -> (r: bool)
    ensures
        r == registered(registry.deep_view(), code@),
{
    let ghost all = registry.deep_view();
    let mut i: usize = 0;
    while i < registry.len()
        invariant
            i <= registry.len(),
            all == registry.deep_view(),
            forall|j: int| 0 <= j < i ==> #[trigger] all[j].code != code@,
        decreases registry.len() - i,
    {
        assert(all[i as int] == registry@[i as int].deep_view());
        if same(registry[i].code.as_str(), code) {
            assert(all[i as int].code == code@);
            return true;
        }
        i = i + 1;
    }
    false
}

/// The submitted permissions that the deployment has registered.
pub open spec fn kept_perms(perms: Seq<Seq<char>>, registry: Seq<PermissionModel>) -> Seq<
    Seq<char>,
> {
    perms.filter_map(
        |p: Seq<char>|
            if registered(registry, p) {
                Some(p)
            } else {
                None::<Seq<char>>
            },
    )
}

/// Keeps only the submitted permissions that the deployment has registered.
pub fn registered_only(perms: Vec<String>, registry: &Vec<Permission>) -> (r: Vec<String>)
    ensures
        r.deep_view() == kept_perms(perms.deep_view(), registry.deep_view()),
{
    let ghost all = perms.deep_view();
    let ghost known = registry.deep_view();
    let ghost f = |p: Seq<char>|
        if registered(known, p) {
            Some(p)
        } else {
            None::<Seq<char>>
        };
    let mut r: Vec<String> = Vec::new();
    let mut i: usize = 0;
    assert(r.deep_view() =~= all.take(0).filter_map(f));
    while i < perms.len()
        invariant
            i <= perms.len(),
            all == perms.deep_view(),
            known == registry.deep_view(),
            f == (|p: Seq<char>|
                if registered(known, p) {
                    Some(p)
                } else {
                    None::<Seq<char>>
                }),
            r.deep_view() == all.take(i as int).filter_map(f),
        decreases perms.len() - i,
    {
        let ghost before = r.deep_view();
        proof {
            all.lemma_filter_map_take_succ(f, i as int);
            assert(all[i as int] == perms@[i as int]@);
        }
        if is_registered(registry, perms[i].as_str()) {
            r.push(perms[i].clone());
            assert(r.deep_view() =~= before + seq![all[i as int]]);
        }
        i = i + 1;
    }
    assert(all.take(all.len() as int) =~= all);
    r
}

/// A crafted submission cannot grant a permission the deployment never declared.
pub proof fn law_only_declared_permissions_are_granted(
    perms: Seq<Seq<char>>,
    registry: Seq<PermissionModel>,
    i: int,
)
    requires
        0 <= i < kept_perms(perms, registry).len(),
    ensures
        registered(registry, kept_perms(perms, registry)[i]),
        perms.contains(kept_perms(perms, registry)[i]),
{
    let f = |p: Seq<char>|
        if registered(registry, p) {
            Some(p)
        } else {
            None::<Seq<char>>
        };
    let out = kept_perms(perms, registry);
    assert(out == perms.filter_map(f));
    perms.lemma_filter_map_contains(f, out[i]);
    let p = choose|p: Seq<char>| #[trigger] perms.contains(p) && f(p) == Some(out[i]);
    assert(p == out[i]);
}

// --------------------------------------------------------------------- the form
/// One permission's checkbox.
pub struct PermCheckView {
    pub code: String,
    pub label: String,
    pub checked: bool,
}

/// A [`PermCheckView`], over characters.
pub struct PermCheckModel {
    pub code: Seq<char>,
    pub label: Seq<char>,
    pub checked: bool,
}

impl DeepView for PermCheckView {
    type V = PermCheckModel;

    open spec fn deep_view(&self) -> PermCheckModel {
        PermCheckModel { code: self.code@, label: self.label@, checked: self.checked }
    }
}

/// A permission's checkbox, under its heading in the operator's language.
pub open spec fn perm_check(
    p: PermissionModel,
    selected: Seq<Seq<char>>,
    table: Seq<(Seq<char>, Seq<char>)>,
) -> (Seq<char>, PermCheckModel) {
    (
        localized(table, p.group),
        PermCheckModel {
            code: p.code,
            label: localized(table, p.label),
            checked: selected.contains(p.code),
        },
    )
}

/// Every permission's checkbox, in the registry's order.
pub open spec fn perm_checks(
    registry: Seq<PermissionModel>,
    selected: Seq<Seq<char>>,
    table: Seq<(Seq<char>, Seq<char>)>,
) -> Seq<(Seq<char>, PermCheckModel)> {
    registry.map_values(|p: PermissionModel| perm_check(p, selected, table))
}

/// Groups the registered permissions by their heading in the operator's language, in
/// the registry's order, and marks the ones the role currently holds.
pub fn group_permissions(registry: &Vec<Permission>, selected: &Vec<String>, tr: &Translator) -> (r:
    Vec<Group<PermCheckView>>)
    ensures
        r.deep_view() == grouped(
            perm_checks(registry.deep_view(), selected.deep_view(), tr@),
        ),
{
    let ghost all = registry.deep_view();
    let ghost entries = perm_checks(all, selected.deep_view(), tr@);
    let mut r: Vec<Group<PermCheckView>> = Vec::new();
    let mut i: usize = 0;
    assert(r.deep_view() =~= grouped(entries.take(0)));
    while i < registry.len()
        invariant
            i <= registry.len(),
            all == registry.deep_view(),
            entries == perm_checks(all, selected.deep_view(), tr@),
            r.deep_view() == grouped(entries.take(i as int)),
        decreases registry.len() - i,
    {
        let p: &Permission = &registry[i];
        assert(all[i as int] == p.deep_view());
        assert(entries.take(i + 1).drop_last() =~= entries.take(i as int));
        assert(entries.take(i + 1).last() == perm_check(
            all[i as int],
            selected.deep_view(),
            tr@,
        ));
        let check: PermCheckView = PermCheckView {
            code: p.code.clone(),
            label: tr.t(&p.label),
            checked: listed(selected, p.code.as_str()),
        };
        r = add_item(r, tr.t(&p.group), check);
        i = i + 1;
    }
    assert(entries.take(entries.len() as int) =~= entries);
    r
}

/// The role form as the page shows it.
pub struct RoleForm {
    pub title: String,
    pub action: String,
    pub cancel_path: String,
    pub error: Option<String>,
    pub code: String,
    pub name: String,
    pub groups: Vec<Group<PermCheckView>>,
}

/// A [`RoleForm`], over characters.
pub struct RoleFormModel {
    pub title: Seq<char>,
    pub action: Seq<char>,
    pub cancel_path: Seq<char>,
    pub error: Option<Seq<char>>,
    pub code: Seq<char>,
    pub name: Seq<char>,
    pub groups: Seq<GroupModel<PermCheckModel>>,
}

impl DeepView for RoleForm {
    type V = RoleFormModel;

    open spec fn deep_view(&self) -> RoleFormModel {
        RoleFormModel {
            title: self.title@,
            action: self.action@,
            cancel_path: self.cancel_path@,
            error: self.error.deep_view(),
            code: self.code@,
            name: self.name@,
            groups: self.groups.deep_view(),
        }
    }
}

/// The form of a role, filled in.
pub open spec fn role_form(
    registry: Seq<PermissionModel>,
    admin: Seq<char>,
    action: Seq<char>,
    error: Option<TextModel>,
    draft: RoleModel,
    table: Seq<(Seq<char>, Seq<char>)>,
) -> RoleFormModel {
    RoleFormModel {
        title: localized(table, plain("Role"@)),
        action,
        cancel_path: admin + "/roles"@,
        error: match error {
            Some(e) => Some(localized(table, e)),
            None => None,
        },
        code: draft.code,
        name: draft.name,
        groups: grouped(perm_checks(registry, draft.permissions, table)),
    }
}

/// A role as it is entered or stored.
pub struct RoleDraft {
    pub code: String,
    pub name: String,
    pub permissions: Vec<String>,
}

/// A [`RoleDraft`], over characters.
pub struct RoleModel {
    pub code: Seq<char>,
    pub name: Seq<char>,
    pub permissions: Seq<Seq<char>>,
}

impl DeepView for RoleDraft {
    type V = RoleModel;

    open spec fn deep_view(&self) -> RoleModel {
        RoleModel {
            code: self.code@,
            name: self.name@,
            permissions: self.permissions.deep_view(),
        }
    }
}

/// Where a new role is submitted.
pub open spec fn new_role_path(admin: Seq<char>) -> Seq<char> {
    admin + "/roles/new"@
}

/// Where a role is edited.
pub open spec fn role_path(admin: Seq<char>, id: Seq<char>) -> Seq<char> {
    admin + "/roles/"@ + id + "/edit"@
}

/// Where a role is submitted: a new one, or the one with an id.
pub fn role_action(admin_path: &str, id: Option<&str>) -> (r: String)
    ensures
        r@ == (match id.deep_view() {
            Some(i) => role_path(admin_path@, i),
            None => new_role_path(admin_path@),
        }),
{
    match id {
        Some(i) => cat(cat3(admin_path, "/roles/", i).as_str(), "/edit"),
        None => cat(admin_path, "/roles/new"),
    }
}

/// The form of a role, filled in.
pub fn build(
    registry: &Vec<Permission>,
    admin_path: &str,
    action: &str,
    error: Option<&Text>,
    draft: &RoleDraft,
    tr: &Translator,
) -> (r: RoleForm)
    ensures
        r.deep_view() == role_form(
            registry.deep_view(),
            admin_path@,
            action@,
            error.deep_view(),
            draft.deep_view(),
            tr@,
        ),
{
    let error: Option<String> = match error {
        Some(e) => Some(tr.t(e)),
        None => None,
    };
    RoleForm {
        title: tr.t(&Text::new("Role")),
        action: action.to_owned(),
        cancel_path: cat(admin_path, "/roles"),
        error,
        code: draft.code.clone(),
        name: draft.name.clone(),
        groups: group_permissions(registry, &draft.permissions, tr),
    }
}

// ----------------------------------------------------------------------- saving
/// The role a submission describes.
pub open spec fn submitted_role(
    pairs: Seq<(Seq<char>, Seq<char>)>,
    registry: Seq<PermissionModel>,
) -> RoleModel {
    RoleModel {
        code: last_trimmed(pairs, "code"@),
        name: last_trimmed(pairs, "name"@),
        permissions: kept_perms(submitted_perms(pairs), registry),
    }
}

/// The role a submission describes, and what is wrong with it.
pub fn submitted(pairs: &Vec<(String, String)>, registry: &Vec<Permission>) -> (r: (
    RoleDraft,
    Option<Text>,
))
    ensures
        ({
            let role = submitted_role(pairs.deep_view(), registry.deep_view());
            &&& r.0.deep_view() == role
            &&& r.1.deep_view() == (if role.code.len() == 0 || role.name.len() == 0 {
                Some(plain("Code and name are required."@))
            } else {
                None
            })
        }),
{
    let (code, name, perms) = parse(pairs);
    let permissions: Vec<String> = registered_only(perms, registry);
    let error: Option<Text> = if code.as_str().is_empty() || name.as_str().is_empty() {
        Some(Text::new("Code and name are required."))
    } else {
        None
    };
    (RoleDraft { code, name, permissions }, error)
}

/// What the store's refusal of a role is shown as.
pub fn not_stored() -> (r: Text)
    ensures
        r@ == plain("Could not save. The code may already be in use."@),
{
    Text::new("Could not save. The code may already be in use.")
}

/// What follows a stored role: the audit entry, the flash, and where to go.
pub struct RoleSaved {
    pub entry: AuditEntry,
    pub flash: Flash,
    pub to: Redirection,
}

/// What follows a stored role.
pub struct RoleSavedModel {
    pub entry: AuditModel,
    pub flash: FlashModel,
    pub to: RedirectionModel,
}

impl DeepView for RoleSaved {
    type V = RoleSavedModel;

    open spec fn deep_view(&self) -> RoleSavedModel {
        RoleSavedModel {
            entry: self.entry.deep_view(),
            flash: self.flash.deep_view(),
            to: self.to@,
        }
    }
}

/// What an audit entry says of a role.
pub open spec fn role_detail(role: RoleModel) -> Seq<char> {
    json_object_text(seq![("code"@, role.code), ("name"@, role.name)])
}

/// What follows a stored role.
pub open spec fn saved_role(
    created: bool,
    actor: i64,
    username: Seq<char>,
    id: Seq<char>,
    role: RoleModel,
    htmx: bool,
    admin: Seq<char>,
) -> RoleSavedModel {
    RoleSavedModel {
        entry: AuditModel {
            actor_user_id: Some(actor),
            actor_username: username,
            action: if created {
                "backend.role.create"@
            } else {
                "backend.role.update"@
            },
            target_type: Some("backend_role"@),
            target_id: Some(id),
            detail: Some(role_detail(role)),
        },
        flash: flash(
            FlashLevel::Success,
            if created {
                "Role created."@
            } else {
                "Role updated."@
            },
        ),
        to: saved(htmx, admin + "/roles"@),
    }
}

/// What follows a stored role: `id` is the new role's, or the edited one's.
pub fn stored(
    created: bool,
    actor_id: i64,
    actor_username: &str,
    id: &str,
    draft: &RoleDraft,
    htmx: bool,
    admin_path: &str,
) -> (r: RoleSaved)
    ensures
        r.deep_view() == saved_role(
            created,
            actor_id,
            actor_username@,
            id@,
            draft.deep_view(),
            htmx,
            admin_path@,
        ),
{
    let mut members: Vec<(String, String)> = Vec::new();
    members.push(("code".to_owned(), draft.code.clone()));
    members.push(("name".to_owned(), draft.name.clone()));
    assert(members.deep_view() =~= seq![("code"@, draft.code@), ("name"@, draft.name@)]);
    let detail: String = object_to_json(&members);
    let action: &str = if created {
        "backend.role.create"
    } else {
        "backend.role.update"
    };
    let said: &str = if created {
        "Role created."
    } else {
        "Role updated."
    };
    RoleSaved {
        entry: record(
            actor_id,
            actor_username,
            action,
            Some("backend_role"),
            Some(id),
            Some(detail.as_str()),
        ),
        flash: Flash::say(FlashLevel::Success, said),
        to: saved_response(htmx, cat(admin_path, "/roles").as_str()),
    }
}

// ------------------------------------------------------------------- the screen
/// A role form as it is sent: the form alone where `fragment`, else the whole page.
pub struct RoleReply {
    pub status: u16,
    pub fragment: bool,
    pub form: RoleForm,
}

/// A [`RoleReply`], over characters.
pub struct RoleReplyModel {
    pub status: u16,
    pub fragment: bool,
    pub form: RoleFormModel,
}

impl DeepView for RoleReply {
    type V = RoleReplyModel;

    open spec fn deep_view(&self) -> RoleReplyModel {
        RoleReplyModel {
            status: self.status,
            fragment: self.fragment,
            form: self.form.deep_view(),
        }
    }
}

/// The answer to a rejected save: the form alone for htmx, the whole page otherwise,
/// so that the screen still works with scripting off.
pub fn invalid_response(htmx: bool, form: RoleForm) -> (r: RoleReply)
    ensures
        r.deep_view() == (RoleReplyModel {
            status: 422,
            fragment: htmx,
            form: form.deep_view(),
        }),
{
    RoleReply { status: 422, fragment: htmx, form }
}

/// The form of a role that is yet to be entered.
pub fn new_form(registry: &Vec<Permission>, admin_path: &str, tr: &Translator) -> (r: RoleForm)
    ensures
        r.deep_view() == role_form(
            registry.deep_view(),
            admin_path@,
            new_role_path(admin_path@),
            None,
            (RoleModel { code: Seq::empty(), name: Seq::empty(), permissions: Seq::empty() }),
            tr@,
        ),
{
    let blank: RoleDraft = RoleDraft {
        code: String::new(),
        name: String::new(),
        permissions: Vec::new(),
    };
    assert(blank.deep_view().code =~= Seq::<char>::empty());
    assert(blank.deep_view().name =~= Seq::<char>::empty());
    assert(blank.deep_view().permissions =~= Seq::<Seq<char>>::empty());
    build(registry, admin_path, role_action(admin_path, None).as_str(), None, &blank, tr)
}

/// The form of a stored role, where one has the id.
pub fn edit_form(
    role: Option<&RoleDraft>,
    id: &str,
    registry: &Vec<Permission>,
    admin_path: &str,
    tr: &Translator,
) -> (r: Result<RoleForm, AdminError>)
    ensures
        match role {
            Some(draft) => r is Ok && (r->Ok_0).deep_view() == role_form(
                registry.deep_view(),
                admin_path@,
                role_path(admin_path@, id@),
                None,
                draft.deep_view(),
                tr@,
            ),
            None => r == Err::<RoleForm, AdminError>(AdminError::NotFound),
        },
{
    match role {
        Some(draft) => Ok(
            build(
                registry,
                admin_path,
                role_action(admin_path, Some(id)).as_str(),
                None,
                draft,
                tr,
            ),
        ),
        None => Err(AdminError::NotFound),
    }
}

/// What a submitted role comes to: it is stored, or shown again with what is wrong.
pub enum RoleStep {
    Store(RoleDraft),
    Invalid(RoleReply),
}

/// The form of a role that was not saved, with why.
pub open spec fn rejected_role(
    registry: Seq<PermissionModel>,
    admin: Seq<char>,
    action: Seq<char>,
    why: Seq<char>,
    role: RoleModel,
    htmx: bool,
    table: Seq<(Seq<char>, Seq<char>)>,
) -> RoleReplyModel {
    RoleReplyModel {
        status: 422,
        fragment: htmx,
        form: role_form(registry, admin, action, Some(plain(why)), role, table),
    }
}

/// What a submission to `action` comes to.
pub open spec fn role_step(
    step: RoleStep,
    action: Seq<char>,
    pairs: Seq<(Seq<char>, Seq<char>)>,
    registry: Seq<PermissionModel>,
    htmx: bool,
    admin: Seq<char>,
    table: Seq<(Seq<char>, Seq<char>)>,
) -> bool {
    let role = submitted_role(pairs, registry);
    let blank = role.code.len() == 0 || role.name.len() == 0;
    match step {
        RoleStep::Store(draft) => !blank && draft.deep_view() == role,
        RoleStep::Invalid(reply) => blank && reply.deep_view() == rejected_role(
            registry,
            admin,
            action,
            "Code and name are required."@,
            role,
            htmx,
            table,
        ),
    }
}

/// What a submission to `action` comes to.
fn save(
    action: &str,
    pairs: &Vec<(String, String)>,
    registry: &Vec<Permission>,
    htmx: bool,
    admin_path: &str,
    tr: &Translator,
) -> (r: RoleStep)
    ensures
        role_step(
            r,
            action@,
            pairs.deep_view(),
            registry.deep_view(),
            htmx,
            admin_path@,
            tr@,
        ),
{
    let (draft, error) = submitted(pairs, registry);
    match error {
        Some(why) => RoleStep::Invalid(
            invalid_response(htmx, build(registry, admin_path, action, Some(&why), &draft, tr)),
        ),
        None => RoleStep::Store(draft),
    }
}

/// What a new role's submission comes to.
pub fn create(
    pairs: &Vec<(String, String)>,
    registry: &Vec<Permission>,
    htmx: bool,
    admin_path: &str,
    tr: &Translator,
) -> (r: RoleStep)
    ensures
        role_step(
            r,
            new_role_path(admin_path@),
            pairs.deep_view(),
            registry.deep_view(),
            htmx,
            admin_path@,
            tr@,
        ),
{
    save(role_action(admin_path, None).as_str(), pairs, registry, htmx, admin_path, tr)
}

/// What an edited role's submission comes to.
pub fn update(
    id: &str,
    pairs: &Vec<(String, String)>,
    registry: &Vec<Permission>,
    htmx: bool,
    admin_path: &str,
    tr: &Translator,
) -> (r: RoleStep)
    ensures
        role_step(
            r,
            role_path(admin_path@, id@),
            pairs.deep_view(),
            registry.deep_view(),
            htmx,
            admin_path@,
            tr@,
        ),
{
    save(role_action(admin_path, Some(id)).as_str(), pairs, registry, htmx, admin_path, tr)
}

/// The answer to a role the store would not take: its form again, with why.
pub fn refused(
    id: Option<&str>,
    draft: &RoleDraft,
    registry: &Vec<Permission>,
    htmx: bool,
    admin_path: &str,
    tr: &Translator,
) -> (r: RoleReply)
    ensures
        r.deep_view() == rejected_role(
            registry.deep_view(),
            admin_path@,
            match id.deep_view() {
                Some(i) => role_path(admin_path@, i),
                None => new_role_path(admin_path@),
            },
            "Could not save. The code may already be in use."@,
            draft.deep_view(),
            htmx,
            tr@,
        ),
{
    let action: String = role_action(admin_path, id);
    let why: Text = not_stored();
    invalid_response(
        htmx,
        build(registry, admin_path, action.as_str(), Some(&why), draft, tr),
    )
}

// ---------------------------------------------------------------------- storage
/// The read of a stored role.
pub open spec fn role_read(id: Seq<char>, backend: Backend) -> SelectModel {
    SelectModel {
        chosen: seq![
            ChosenModel::Column("code"@),
            ChosenModel::Column("name"@),
            ChosenModel::Column("permissions"@),
        ],
        tables: seq!["backend_roles"@],
        rows: reading_as("id"@, id, backend),
        ..empty_select()
    }
}

/// The read of a stored role.
pub fn read_statement(id: &str, backend: Backend) -> (r: Statement)
    ensures
        r.deep_view() == select_text(role_read(id@, backend), backend),
{
    let mut s = select();
    select_column(&mut s, "code");
    select_column(&mut s, "name");
    select_column(&mut s, "permissions");
    select_from(&mut s, "backend_roles");
    select_where_text(&mut s, "id", text_cast(backend), id);
    proof {
        let want = role_read(id@, backend);
        assert(select_parts(s).chosen =~= want.chosen);
        assert(select_parts(s).tables =~= want.tables);
    }
    finish_select(&s, backend)
}

/// What a stored role's permissions text holds: nothing where it cannot be read.
pub open spec fn stored_perms(text: Seq<char>) -> Seq<Seq<char>> {
    match json_strings_in(text) {
        Some(list) => list,
        None => Seq::empty(),
    }
}

/// The role a stored row describes. What could not be read is blank.
pub fn read_role(code: Option<String>, name: Option<String>, permissions: Option<String>) -> (r:
    RoleDraft)
    ensures
        r.deep_view() == (RoleModel {
            code: crate::picker::text_or_blank(code.deep_view()),
            name: crate::picker::text_or_blank(name.deep_view()),
            permissions: stored_perms(crate::picker::text_or_blank(permissions.deep_view())),
        }),
{
    let code: String = match code {
        Some(s) => s,
        None => String::new(),
    };
    let name: String = match name {
        Some(s) => s,
        None => String::new(),
    };
    let text: String = match permissions {
        Some(s) => s,
        None => String::new(),
    };
    let read: Option<Vec<String>> = strings_from_json(text.as_str());
    RoleDraft { code, name, permissions: held_or_none(read) }
}

/// The permissions that were read, or none where they could not be.
pub fn held_or_none(read: Option<Vec<String>>) -> (r: Vec<String>)
    ensures
        r.deep_view() == (match read.deep_view() {
            Some(list) => list,
            None => Seq::<Seq<char>>::empty(),
        }),
{
    match read {
        Some(list) => list,
        None => {
            let none: Vec<String> = Vec::new();
            assert(none.deep_view() =~= Seq::<Seq<char>>::empty());
            none
        },
    }
}

/// What a stored role's columns hold.
pub open spec fn role_values(role: RoleModel) -> Seq<(Seq<char>, BoundModel)> {
    seq![
        ("code"@, BoundModel::Text(role.code)),
        ("name"@, BoundModel::Text(role.name)),
        ("permissions"@, BoundModel::Text(json_strings_text(role.permissions))),
    ]
}

/// The text that stored columns hold under a name.
pub open spec fn text_under(values: Seq<(Seq<char>, BoundModel)>, column: Seq<char>) -> Seq<char> {
    match held(values, column) {
        Some(BoundModel::Text(t)) => t,
        _ => Seq::empty(),
    }
}

/// The role that stored columns describe.
pub open spec fn role_in(values: Seq<(Seq<char>, BoundModel)>) -> RoleModel {
    RoleModel {
        code: text_under(values, "code"@),
        name: text_under(values, "name"@),
        permissions: stored_perms(text_under(values, "permissions"@)),
    }
}

/// What is stored of a role is found under the role's columns.
pub proof fn lemma_role_columns(role: RoleModel)
    ensures
        text_under(role_values(role), "code"@) == role.code,
        text_under(role_values(role), "name"@) == role.name,
        text_under(role_values(role), "permissions"@) == json_strings_text(role.permissions),
{
    reveal_strlit("code");
    reveal_strlit("name");
    reveal_strlit("permissions");
    assert("code"@[0] == 'c' && "name"@[0] == 'n' && "permissions"@[0] == 'p');
    let values = role_values(role);
    lemma_key_at(values, "code"@);
    lemma_key_at(values, "name"@);
    lemma_key_at(values, "permissions"@);
    assert(values[0].0 == "code"@ && values[1].0 == "name"@ && values[2].0 == "permissions"@);
}

/// The update of the role with an id. What is stored reads back as the draft.
pub fn update_statement(id: &str, draft: &RoleDraft, backend: Backend) -> (r: Statement)
    ensures
        role_in(role_values(draft.deep_view())) == draft.deep_view(),
        r.deep_view() == update_text(
            UpdateModel {
                table: "backend_roles"@,
                values: role_values(draft.deep_view()),
                rows: reading_as("id"@, id@, backend),
            },
            backend,
        ),
{
    let mut values: Vec<(String, Bound)> = Vec::new();
    values.push(("code".to_owned(), Bound::Text(draft.code.clone())));
    values.push(("name".to_owned(), Bound::Text(draft.name.clone())));
    let perms: String = strings_to_json(&draft.permissions);
    values.push(("permissions".to_owned(), Bound::Text(perms)));
    assert(values.deep_view() =~= role_values(draft.deep_view()));
    proof {
        lemma_role_columns(draft.deep_view());
    }
    update_rows("backend_roles", &values, "id", id, backend)
}

/// The permissions of a role as they are stored.
pub fn stored_text(permissions: &Vec<String>) -> (r: String)
    ensures
        r@ == json_strings_text(permissions.deep_view()),
        stored_perms(r@) == permissions.deep_view(),
{
    strings_to_json(permissions)
}

} // verus!
