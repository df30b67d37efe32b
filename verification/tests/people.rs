//! Roles, users and their permissions.

use laterite_admin::access::{
    builtin_permissions, system_roles, with_builtin, Permission, PermissionSet,
};
use laterite_admin::audit::record;
use laterite_admin::error::AdminError;
use laterite_admin::reply::is_htmx;
use laterite_admin::roles::{self, not_stored, registered_only, RoleDraft, RoleStep};
use laterite_admin::session::FlashLevel;
use laterite_admin::statements::{Backend, Param};
use laterite_admin::text::Translator;
use laterite_admin::users::{
    self, active_done, apply_states, edit_form, full_name, overrides_of, parse_states, set_active,
    stored_text, update, updated, StateError, States, UserRow, UserStep,
};

fn registry() -> Vec<Permission> {
    vec![
        Permission::new("backend.manage_users", "Manage backend users", "Backend"),
        Permission::new("acme.publish", "Publish", "Content"),
    ]
}

fn tr() -> Translator {
    Translator::new("en")
}

fn holder(codes: &[&str]) -> PermissionSet {
    PermissionSet::new(false, codes.iter().map(|c| c.to_string()).collect())
}

fn pairs(all: &[(&str, &str)]) -> Vec<(String, String)> {
    all.iter().map(|(k, v)| (k.to_string(), v.to_string())).collect()
}

fn row() -> UserRow {
    UserRow {
        username: Some("ada".to_string()),
        first_name: Some("Ada".to_string()),
        last_name: Some("Lovelace".to_string()),
        email: Some("ada@example.test".to_string()),
        is_superuser: Some(false),
        is_active: Some(true),
        permissions: Some("{\"acme.publish\":-1}".to_string()),
    }
}

#[test]
fn parse_pulls_scalars_and_repeated_perms() {
    let pairs = vec![
        ("code".to_string(), "  editor ".to_string()),
        ("name".to_string(), "Editor".to_string()),
        ("perm".to_string(), "backend.manage_users".to_string()),
        ("perm".to_string(), "acme.publish".to_string()),
    ];
    let (code, name, perms) = roles::parse(&pairs);
    assert_eq!(code, "editor");
    assert_eq!(name, "Editor");
    assert_eq!(perms, ["backend.manage_users", "acme.publish"]);
}

#[test]
fn only_registered_permissions_survive() {
    let kept = registered_only(
        vec!["backend.manage_users".to_string(), "nope.invalid".to_string()],
        &registry(),
    );
    assert_eq!(kept, ["backend.manage_users"]);
}

#[test]
fn grouping_preserves_order_and_marks_selected() {
    let groups = roles::group_permissions(&registry(), &vec!["acme.publish".to_string()], &tr());
    assert_eq!(groups[0].name, "Backend");
    assert_eq!(groups[1].name, "Content");
    assert!(!groups[0].items[0].checked);
    assert!(groups[1].items[0].checked);
}

#[test]
fn a_role_without_a_code_is_refused() {
    let (draft, error) = roles::submitted(&pairs(&[("name", "Editor")]), &registry());
    assert_eq!(draft.name, "Editor");
    assert!(error.is_some());
    let (draft, error) =
        roles::submitted(&pairs(&[("code", "editor"), ("name", "Editor"), ("perm", "nope")]), &registry());
    assert!(error.is_none());
    assert!(draft.permissions.is_empty());
}

#[test]
fn a_stored_role_leads_back_to_the_list() {
    let draft = RoleDraft {
        code: "editor".to_string(),
        name: "Editor".to_string(),
        permissions: vec!["acme.publish".to_string()],
    };
    let done = roles::stored(true, 7, "root", "3", &draft, true, "/admin");
    assert_eq!((done.to.status, done.to.header.as_str()), (204, "HX-Redirect"));
    assert_eq!(done.to.to, "/admin/roles");
    assert_eq!(done.entry.actor_user_id, Some(7));
    assert_eq!(done.flash.level, FlashLevel::Success);
    let done = roles::stored(false, 7, "root", "3", &draft, false, "/admin");
    assert_eq!((done.to.status, done.to.header.as_str(), done.to.to.as_str()), (303, "location", "/admin/roles"));
}

#[test]
fn a_roles_permissions_are_stored_as_a_json_list() {
    let codes = vec!["a".to_string(), "b\"c".to_string()];
    let text = roles::stored_text(&codes);
    assert_eq!(text, "[\"a\",\"b\\\"c\"]");
    let read = roles::read_role(Some("x".to_string()), Some("X".to_string()), Some(text));
    assert_eq!(read.permissions, codes);
    let broken = roles::read_role(None, None, Some("not json".to_string()));
    assert_eq!(broken.code, "");
    assert!(broken.permissions.is_empty());
}

#[test]
fn a_role_is_read_and_changed_by_its_id() {
    let s = roles::read_statement("3", Backend::Sqlite);
    assert!(s.sql.contains("\"backend_roles\""), "{}", s.sql);
    assert!(matches!(&s.params[..], [Param::Text(_), ..] | [Param::Int(_), ..]));
    let draft = RoleDraft { code: "e".to_string(), name: "E".to_string(), permissions: vec![] };
    let s = roles::update_statement("3", &draft, Backend::Sqlite);
    assert!(s.sql.starts_with("UPDATE \"backend_roles\" SET"), "{}", s.sql);
}

#[test]
fn the_role_screen_shows_every_permission() {
    let draft = RoleDraft {
        code: "editor".to_string(),
        name: "Editor".to_string(),
        permissions: vec!["acme.publish".to_string()],
    };
    let action = roles::role_action("/admin", Some("3"));
    let form = roles::build(&registry(), "/admin", &action, None, &draft, &tr());
    assert_eq!(form.action, action);
    assert_eq!(form.cancel_path, "/admin/roles");
    assert_eq!(form.groups.len(), 2);
    assert!(form.error.is_none());
}

#[test]
fn parse_states_reads_prefixed_radio_values() {
    let pairs = vec![
        ("p:backend.manage_users".to_string(), "1".to_string()),
        ("p:acme.publish".to_string(), "-1".to_string()),
        ("other".to_string(), "ignored".to_string()),
    ];
    let states = parse_states(&pairs);
    assert_eq!(states.get("backend.manage_users"), Some(&1));
    assert_eq!(states.get("acme.publish"), Some(&-1));
    assert_eq!(states.get("other"), None);
}

#[test]
fn grouping_marks_state_and_changeability() {
    let editor = holder(&["backend.manage_users"]);
    let mut overrides = States::new();
    overrides.insert("acme.publish", -1);
    let groups = users::group_permissions(&registry(), &overrides, &editor, &tr());

    let backend = &groups[0].items[0];
    assert_eq!(backend.state, 0);
    assert!(backend.changeable);

    let content = &groups[1].items[0];
    assert_eq!(content.state, -1);
    assert!(!content.changeable);
}

#[test]
fn an_editor_changes_only_what_they_hold() {
    let editor = holder(&["backend.manage_users"]);
    let mut before = States::new();
    before.insert("acme.publish", -1);
    let submitted = parse_states(&pairs(&[("p:backend.manage_users", "1"), ("p:acme.publish", "1")]));
    let after = apply_states(before, &submitted, &registry(), &editor);
    assert_eq!(after.get("backend.manage_users"), Some(&1));
    assert_eq!(after.get("acme.publish"), Some(&-1));
    let cleared = apply_states(after, &parse_states(&pairs(&[("p:backend.manage_users", "0")])), &registry(), &editor);
    assert_eq!(cleared.get("backend.manage_users"), None);
}

#[test]
fn overrides_are_stored_as_a_json_object() {
    let mut states = States::new();
    states.insert("acme.publish", -1);
    let text = stored_text(&states);
    assert_eq!(text, "{\"acme.publish\":-1}");
    assert_eq!(overrides_of(&Some(text)).get("acme.publish"), Some(&-1));
    assert_eq!(overrides_of(&Some("broken".to_string())).get("acme.publish"), None);
    assert_eq!(overrides_of(&None).get("acme.publish"), None);
}

#[test]
fn a_missing_user_is_not_found() {
    let editor = holder(&["backend.manage_users"]);
    assert!(matches!(
        edit_form(None, "4", 1, &editor, &registry(), "/admin", &tr()),
        Err(AdminError::NotFound)
    ));
    assert!(matches!(
        update(None, "4", &vec![], &registry(), &editor, "/admin"),
        Err(AdminError::NotFound)
    ));
}

#[test]
fn a_users_screen_and_update_go_together() {
    let editor = holder(&["backend.manage_users", "acme.publish"]);
    let form = edit_form(Some(&row()), "4", 1, &editor, &registry(), "/admin", &tr()).ok().unwrap();
    assert_eq!(form.full_name, "Ada Lovelace");
    assert_eq!(form.username, "ada");
    assert!(form.is_active);
    assert!(form.can_change_state);
    assert_eq!(form.groups[1].items[0].state, -1);
    let step = update(Some(&row()), "4", &pairs(&[("p:acme.publish", "1")]), &registry(), &editor, "/admin");
    match step.ok().unwrap() {
        UserStep::Store { id, overrides } => {
            assert_eq!(id, 4);
            assert_eq!(overrides.get("acme.publish"), Some(&1));
            let done = updated(&overrides, 1, "root", "4", "/admin");
            assert_eq!(done.flash.level, FlashLevel::Success);
            assert!(done.entry.is_some());
        }
        UserStep::Back(_) => panic!("an ordinary user is stored"),
    }
    assert_eq!(full_name("Ada", None), "Ada");
    assert_eq!(full_name("Ada", Some("")), "Ada");
}

#[test]
fn changing_an_accounts_state_needs_the_permission() {
    assert!(matches!(
        set_active(&holder(&[]), "4", "1"),
        Err(AdminError::Forbidden)
    ));
    let (id, active) = set_active(&holder(&["backend.manage_users"]), "4", "1").ok().unwrap();
    assert_eq!((id, active), (4, true));
    let (_, active) = set_active(&holder(&["backend.manage_users"]), "4", "0").ok().unwrap();
    assert!(!active);
    let done = active_done(Ok(()), true, 1, "root", "4", "/admin");
    assert_eq!(done.flash.level, FlashLevel::Success);
    let refused = active_done(Err(StateError::Refused("The last one.".to_string())), false, 1, "root", "4", "/admin");
    assert_eq!(refused.flash.level, FlashLevel::Error);
    assert!(refused.entry.is_none());
    let failed = active_done(Err(StateError::Failed), false, 1, "root", "4", "/admin");
    assert_eq!(failed.flash.level, FlashLevel::Error);
}

#[test]
fn a_denial_outweighs_a_role() {
    let set = PermissionSet::with_overrides(
        false,
        vec!["a".to_string(), "b".to_string()],
        vec!["c".to_string()],
        vec!["b".to_string()],
    );
    assert!(set.allows("a"));
    assert!(!set.allows("b"));
    assert!(set.allows("c"));
    assert!(!set.allows("d"));
    assert!(PermissionSet::new(true, vec![]).allows("d"));
    assert!(set.meets(&None));
}

#[test]
fn system_roles_hold_what_was_declared_for_them() {
    let contributed = vec![
        Permission::new("acme.publish", "Publish", "Content").roles(vec!["editor".to_string()]),
    ];
    let roles = system_roles(&contributed);
    let editor = roles.iter().find(|r| r.code == "editor").unwrap();
    assert!(editor.permissions.contains(&"acme.publish".to_string()));
    let all = with_builtin(&contributed);
    assert_eq!(all.len(), builtin_permissions().len() + 1);
    assert_eq!(all.last().unwrap().code, "acme.publish");
}

#[test]
fn an_audit_entry_names_its_actor() {
    let entry = record(7, "root", "role.create", Some("role"), Some("3"), None);
    assert_eq!(entry.actor_user_id, Some(7));
    assert_eq!(entry.actor_username, "root");
    assert_eq!(entry.action, "role.create");
    assert_eq!(entry.target_id.as_deref(), Some("3"));
    assert_eq!(entry.detail, None);
}

#[test]
fn a_role_that_could_not_be_stored_says_so() {
    assert!(!not_stored().source().is_empty());
    assert!(is_htmx(Some("true")));
    assert!(!is_htmx(Some("false")));
    assert!(!is_htmx(None));
}

fn posted(fields: &[(&str, &str)], htmx: bool) -> RoleStep {
    roles::create(&pairs(fields), &registry(), htmx, "/admin", &tr())
}

#[test]
fn an_htmx_submit_that_fails_returns_the_form_alone() {
    match posted(&[("name", "Editor")], true) {
        RoleStep::Invalid(reply) => {
            assert_eq!(reply.status, 422);
            assert!(reply.fragment);
            assert_eq!(reply.form.action, "/admin/roles/new");
            assert_eq!(reply.form.error.as_deref(), Some("Code and name are required."));
            assert_eq!(reply.form.name, "Editor");
            assert!(!reply.form.groups.is_empty());
        }
        RoleStep::Store(_) => panic!("a role without a code was taken"),
    }
}

#[test]
fn a_plain_submit_that_fails_returns_the_whole_page() {
    match posted(&[("name", "Editor")], false) {
        RoleStep::Invalid(reply) => {
            assert_eq!(reply.status, 422);
            assert!(!reply.fragment);
            assert!(reply.form.error.is_some());
        }
        RoleStep::Store(_) => panic!("a role without a code was taken"),
    }
}

#[test]
fn an_htmx_submit_that_succeeds_redirects_by_header() {
    let draft = match posted(&[("code", "editor"), ("name", "Editor")], true) {
        RoleStep::Store(draft) => draft,
        RoleStep::Invalid(_) => panic!("a sound role was refused"),
    };
    let saved = roles::stored(true, 7, "root", "3", &draft, true, "/admin");
    assert_eq!(saved.to.status, 204);
    assert_eq!(saved.to.header.to_lowercase(), "hx-redirect");
    assert_eq!(saved.to.to, "/admin/roles");
}

#[test]
fn a_plain_submit_that_succeeds_redirects_normally() {
    let draft = match posted(&[("code", "editor"), ("name", "Editor")], false) {
        RoleStep::Store(draft) => draft,
        RoleStep::Invalid(_) => panic!("a sound role was refused"),
    };
    let saved = roles::stored(true, 7, "root", "3", &draft, false, "/admin");
    assert_eq!(saved.to.status, 303);
    assert_eq!(saved.to.header.to_lowercase(), "location");
    assert_eq!(saved.to.to, "/admin/roles");
}

#[test]
fn an_edited_role_is_shown_stored_or_refused() {
    let blank = roles::new_form(&registry(), "/admin", &tr());
    assert_eq!((blank.code.as_str(), blank.action.as_str()), ("", "/admin/roles/new"));
    let draft = roles::read_role(Some("editor".to_string()), Some("Editor".to_string()), None);
    let form = roles::edit_form(Some(&draft), "3", &registry(), "/admin", &tr()).unwrap();
    assert_eq!((form.code.as_str(), form.action.as_str()), ("editor", "/admin/roles/3/edit"));
    assert!(matches!(
        roles::edit_form(None, "9", &registry(), "/admin", &tr()),
        Err(AdminError::NotFound)
    ));
    match roles::update("3", &pairs(&[("code", " ")]), &registry(), false, "/admin", &tr()) {
        RoleStep::Invalid(reply) => assert_eq!(reply.form.action, "/admin/roles/3/edit"),
        RoleStep::Store(_) => panic!("a blank role was taken"),
    }
    let reply = roles::refused(Some("3"), &draft, &registry(), true, "/admin", &tr());
    assert_eq!((reply.status, reply.fragment), (422, true));
    assert_eq!(
        reply.form.error.as_deref(),
        Some("Could not save. The code may already be in use.")
    );
}
