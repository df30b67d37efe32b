//! Forms, settings, plugins and what they write.

use laterite_admin::attr::{AttrValue, ErrorBag, Record, Scalar};
use laterite_admin::contributed::{Answers, FieldTypes, StoredAnswer};
use laterite_admin::descriptor::{
    default_id_field, from_yaml, humanize, resource_of, ResourceFile,
};
use laterite_admin::field::{builtin_input_registry, Mode, Rule, SelectOption};
use laterite_admin::field_view::{FieldOptions, FieldValue, FieldVm};
use laterite_admin::field::LeafOptions;
use laterite_admin::form::{
    asked_of, build, has_required, merged_field_rules, record_of, secrets_of, FormConfig, FormField,
    FormStep, PersisterChoice, PreparedForm,
};
use laterite_admin::icons::{Icons, IconSet};
use laterite_admin::list::{ListColumn, ListConfig, SortDir};
use laterite_admin::persist::{
    bind, snapshot_failure, unsupported_delete, Bound, DefaultPersister, Delete, DeleteError, Op,
    Reply, Save, SaveError, Stage,
};
use laterite_admin::picker::{
    asked, clamp_limit, guard, invalid_body, resolve_answer, search_answer, PickerError, PickerNode,
    PickerSourceReg, TableSource, DEFAULT_LIMIT, MAX_LIMIT,
};
use laterite_admin::access::PermissionSet;
use laterite_admin::plugins::{
    action_statement, clear_loading, clear_quarantine, disabled_ids, fingerprint_of, index_path,
    list_plugins, mark_loading, needs_insert, quarantine, reconcile_boot, record_roster,
    recorded_ids, set_enabled, toggle_path, toggled, BootAction, JournalRow, PluginRow, PluginView,
    ReconcileReport, CRASH_REASON,
};
use laterite_admin::repeater::SubField;
use laterite_admin::resource::Resource;
use laterite_admin::session::FlashLevel;
use laterite_admin::settings::{
    self, brand_item, builtin_settings, collect, find_settings, is_checked, prefill_from_config,
    sidebar_groups, submitted_settings, written_settings, BrandCache, BrandSetting, SettingsField,
    SettingsItem, SettingsStep,
};
use laterite_admin::sources::descriptor_sources;
use laterite_admin::statements::{Backend, Param};
use laterite_admin::store;
use laterite_admin::text::{Text, Translator};

fn pairs(all: &[(&str, &str)]) -> Vec<(String, String)> {
    all.iter().map(|(k, v)| (k.to_string(), v.to_string())).collect()
}

fn config_with(fields: Vec<FormField>, persist: Option<&str>) -> FormConfig {
    FormConfig {
        entity: "samples".to_string(),
        title: Text::new("Sample"),
        base_path: "/admin/samples".to_string(),
        id_field: "id".to_string(),
        fields,
        persist: persist.map(String::from),
    }
}

fn builtin() -> FieldTypes {
    FieldTypes::builtin(builtin_input_registry())
}

fn unasked() -> Answers {
    Answers::of_hashes(vec![])
}

fn prepare(config: FormConfig) -> Result<PreparedForm, String> {
    PreparedForm::prepare(config, &builtin(), &vec![], &vec!["acme.save".to_string()])
}

fn sample() -> PreparedForm {
    let fields = vec![
        FormField::text("code", "Code").required().unique(),
        FormField::text("name", "Name").required(),
    ];
    prepare(config_with(fields, None)).ok().unwrap()
}

// ------------------------------------------------------------------------ forms
#[test]
fn prepare_rejects_an_unregistered_field_type() {
    let fields = vec![FormField::of("place", Text::new("Place"), "no.such.type")];
    let Err(err) = prepare(config_with(fields, None)) else {
        panic!("expected prepare to reject an unregistered type");
    };
    assert!(err.contains("no.such.type"), "{err}");
}

#[test]
fn prepare_rejects_a_malformed_option() {
    let mut leaf = LeafOptions::none();
    leaf.input = Some("7".to_string());
    let field = FormField::of("email", Text::new("Email"), "text")
        .options(FieldOptions { leaf, repeater: None });
    let Err(err) = prepare(config_with(vec![field], None)) else {
        panic!("expected prepare to reject a malformed option");
    };
    assert!(err.contains("`email`"), "{err}");
}

#[test]
fn prepare_rejects_an_unregistered_persister() {
    let Err(err) = prepare(config_with(vec![], Some("no.such.persister"))) else {
        panic!("expected prepare to reject an unregistered persister");
    };
    assert!(err.contains("no.such.persister"), "{err}");
    let named = prepare(config_with(vec![], Some("acme.save"))).ok().unwrap();
    assert!(matches!(named.persister, PersisterChoice::Named(n) if n == "acme.save"));
}

#[test]
fn a_form_rerenders_with_its_messages_and_writes_nothing() {
    let form = sample();
    let mut bag = ErrorBag::new();
    bag.add("code", Text::new("Code is required."));
    match form.create_validated(Some(bag)) {
        FormStep::Rerender { status, action, bag, .. } => {
            assert_eq!(status, 422);
            assert_eq!(action, "/admin/samples/new");
            let tr = Translator::new("en");
            let values = vec![("code".to_string(), FieldValue::Text(String::new()))];
            let view = build(&form, &action, None, &values, &bag, &tr, "/admin", &vec![], &vec![]);
            assert_eq!(view.fields[0].errors, ["Code is required."]);
            assert!(view.fields[0].required);
            assert_eq!(view.cancel_path, "/admin/samples");
        }
        _ => panic!("the form comes back"),
    }
    assert!(matches!(form.create_validated(Some(ErrorBag::new())), FormStep::Persist));
    assert!(matches!(form.submitted(), FormStep::Validate));
}

#[test]
fn a_stored_form_leads_back_to_the_list() {
    let form = sample();
    match form.create_persisted(Ok(42)) {
        FormStep::Saved { target_id, to, audit_action, .. } => {
            assert_eq!(target_id, "42");
            assert_eq!(to, "/admin/samples");
            assert!(!audit_action.is_empty());
        }
        _ => panic!("saved"),
    }
    match form.update_persisted("7", Err(SaveError::Failed("gone".to_string()))) {
        FormStep::Rerender { action, banner, .. } => {
            assert_eq!(action, "/admin/samples/7/edit");
            assert!(banner.is_some());
        }
        _ => panic!("a failed write shows the form again"),
    }
    let mut bag = ErrorBag::new();
    bag.add("name", Text::new("Taken."));
    match form.create_persisted(Err(SaveError::Invalid(bag))) {
        FormStep::Rerender { status, bag, .. } => {
            assert_eq!(status, 422);
            assert_eq!(bag.messages("name").len(), 1);
        }
        _ => panic!("a refused write shows its messages"),
    }
}

#[test]
fn a_submission_becomes_a_record() {
    let form = sample();
    let rec = record_of(&form, &pairs(&[("code", "A1"), ("name", "Chair")]), Mode::Create, &unasked())
        .ok()
        .unwrap();
    assert!(matches!(rec.get("code"), Some(AttrValue::Text(t)) if t == "A1"));
    assert!(secrets_of(&form, &pairs(&[("code", "A1")])).is_empty());
    let rules = merged_field_rules(&form);
    assert_eq!(rules.len(), 2);
    assert!(has_required(&rules[0].rules));
    assert!(rules[0].rules.contains(&Rule::Unique));
}

#[test]
fn an_edit_reads_its_row_by_id() {
    let form = sample();
    let read = form.edit_query("7").unwrap();
    let s = read.statement(Backend::Sqlite);
    assert!(s.sql.contains("FROM \"samples\" WHERE"), "{}", s.sql);
    assert!(s.sql.contains("CAST(\"code\" AS text) AS \"code\""), "{}", s.sql);
    assert!(matches!(&s.params[0], Param::Text(t) if t == "7"), "{:?}", s.params);
    let values = form.edit_values(&vec![Some("A1".to_string()), None]);
    assert!(matches!(&values[0].1, FieldValue::Text(t) if t == "A1"));
}

// -------------------------------------------------------------------- persisting
fn persister() -> DefaultPersister {
    DefaultPersister {
        entity: "samples".into(),
        id_field: "id".into(),
        columns: vec!["name".into()],
    }
}

#[test]
fn the_id_column_is_never_written() {
    let mut rec = Record::with_id("samples", 3);
    rec.set("name", AttrValue::Text("Chair".to_string()));
    rec.set("id", AttrValue::Int(3));
    assert_eq!(persister().write_columns(&rec), ["name"]);
}

#[test]
fn binding_maps_each_kind_to_its_storage_form() {
    assert!(matches!(bind(None), Bound::Null));
    assert!(matches!(bind(Some(&AttrValue::Null)), Bound::Null));
    assert!(matches!(bind(Some(&AttrValue::Text(String::new()))), Bound::Null));
    assert!(matches!(bind(Some(&AttrValue::Int(7))), Bound::Int(7)));
    assert!(matches!(bind(Some(&AttrValue::Bool(true))), Bound::Int(1)));
    assert!(matches!(bind(Some(&AttrValue::Text("Chair".into()))), Bound::Text(t) if t == "Chair"));
}

#[test]
fn rows_are_stored_as_json() {
    let rows = AttrValue::Rows(vec![vec![
        ("path".to_string(), Scalar::Text("/a".to_string())),
        ("allow".to_string(), Scalar::Bool(true)),
        ("n".to_string(), Scalar::Int(-2)),
        ("gone".to_string(), Scalar::Null),
    ]]);
    match bind(Some(&rows)) {
        Bound::Text(text) => {
            let parsed: serde_json::Value = serde_json::from_str(&text).unwrap();
            assert_eq!(parsed[0]["path"], "/a");
            assert_eq!(parsed[0]["allow"], true);
            assert_eq!(parsed[0]["n"], -2);
            assert!(parsed[0]["gone"].is_null());
        }
        other => panic!("text, got {other:?}"),
    }
}

#[test]
fn writes_are_built_for_each_backend() {
    let mut rec = Record::new("samples");
    rec.set("name", AttrValue::Text("Chair".to_string()));
    let s = persister().insert_statement(&rec, Backend::Postgres);
    assert_eq!(s.sql, "INSERT INTO \"samples\" (\"name\") VALUES ($1) RETURNING \"id\"");
    let plain = persister().insert_statement(&rec, Backend::MySql);
    assert_eq!(plain.sql, "INSERT INTO `samples` (`name`) VALUES (?)");
    assert!(matches!(&s.params[..], [Param::Text(t)] if t == "Chair"), "{:?}", s.params);
    let s = persister().update_statement("7", &rec, Backend::Sqlite);
    assert_eq!(s.sql, "UPDATE \"samples\" SET \"name\" = ? WHERE CAST(\"id\" AS text) = ?");
    let s = persister().update_statement("7", &rec, Backend::MySql);
    assert!(s.sql.contains("CAST(`id` AS char) = ?"), "{}", s.sql);
    let s = persister().delete_statement("7", Backend::Sqlite);
    assert_eq!(s.sql, "DELETE FROM \"samples\" WHERE CAST(\"id\" AS text) = ?");
    let s = persister().load_statement("7", Backend::Sqlite);
    assert!(s.sql.starts_with("SELECT CAST(\"name\" AS text) AS \"name\" FROM \"samples\""), "{}", s.sql);
}

#[test]
fn a_create_runs_its_listeners_around_the_write() {
    let mut rec = Record::new("samples");
    let mut save = Save::new(Op::Create, None, 1);
    let mut stages = vec![];
    while save.stage != Stage::Finished {
        stages.push(save.stage);
        let reply = match save.stage {
            Stage::Write => Reply::NewId(42),
            _ => Reply::Nothing,
        };
        save = save.advance(&mut rec, Ok(reply));
    }
    assert_eq!(stages, [Stage::Begin, Stage::Before(0), Stage::Write, Stage::Commit, Stage::After(0)]);
    assert_eq!(rec.id, Some(42));
    assert!(rec.original.is_none());
    assert!(save.result().is_ok());
}

#[test]
fn a_veto_undoes_the_write_and_returns_its_messages() {
    let mut rec = Record::new("samples");
    let mut save = Save::new(Op::Create, None, 1);
    save = save.advance(&mut rec, Ok(Reply::Nothing));
    let mut bag = ErrorBag::new();
    bag.add("name", Text::new("No."));
    save = save.advance(&mut rec, Err(SaveError::Invalid(bag)));
    assert_eq!(save.stage, Stage::Undo);
    save = save.advance(&mut rec, Ok(Reply::Nothing));
    assert_eq!(save.stage, Stage::Finished);
    match save.result() {
        Err(SaveError::Invalid(bag)) => assert_eq!(bag.messages("name")[0].source(), "No."),
        _ => panic!("the messages come back"),
    }
}

#[test]
fn an_update_shows_listeners_the_row_as_it_was() {
    let mut rec = Record::new("samples");
    let mut before = Record::new("samples");
    before.set("name", AttrValue::Text("Old".to_string()));
    let mut save = Save::new(Op::Update, Some("7".to_string()), 0);
    save = save.advance(&mut rec, Ok(Reply::Nothing));
    assert_eq!(save.stage, Stage::Load);
    save = save.advance(&mut rec, Ok(Reply::Snapshot(Some(before))));
    assert!(rec.original.is_some());
    assert_eq!(save.stage, Stage::Write);
    let mut save = Save::new(Op::Update, None, 0);
    while save.stage != Stage::Finished {
        save = save.advance(&mut rec, Ok(Reply::Nothing));
    }
    assert!(matches!(save.result(), Err(SaveError::Failed(e)) if e == "update without an id"));
}

#[test]
fn a_delete_returns_the_row_as_it_was() {
    let mut delete = Delete::new("samples", "7", 1);
    let mut stages = vec![];
    while delete.stage != Stage::Finished {
        stages.push(delete.stage);
        let reply = match delete.stage {
            Stage::Load => {
                let mut rec = Record::with_id("samples", 7);
                rec.set("code", AttrValue::Text("code-7".to_string()));
                Reply::Snapshot(Some(rec))
            }
            _ => Reply::Nothing,
        };
        delete = delete.advance(Ok(reply));
    }
    assert!(stages.contains(&Stage::Write));
    let rec = delete.result().ok().unwrap().unwrap();
    assert_eq!(rec.id, Some(7));
    assert!(matches!(rec.get("code"), Some(AttrValue::Text(t)) if t == "code-7"));
}

#[test]
fn a_persister_without_delete_refuses() {
    assert!(matches!(unsupported_delete(), DeleteError::Refused(_)));
    assert!(matches!(
        snapshot_failure(SaveError::Failed("gone".to_string())),
        DeleteError::Failed(e) if e == "gone"
    ));
    let mut delete = Delete::new("samples", "7", 1);
    delete = delete.advance(Ok(Reply::Nothing));
    while delete.stage != Stage::Finished {
        delete = delete.advance(Err(DeleteError::Refused(Text::new("In use."))));
    }
    assert!(matches!(delete.result(), Err(DeleteError::Refused(t)) if t.source() == "In use."));
}

/// Runs a save, noting its stages; the listener at `vetoing` refuses.
fn saved(op: Op, id: Option<&str>, listeners: usize, vetoing: Option<usize>, rec: &mut Record)
    -> (Vec<Stage>, Result<(), SaveError>) {
    let mut save = Save::new(op, id.map(String::from), listeners);
    let mut stages = vec![];
    while save.stage != Stage::Finished {
        stages.push(save.stage);
        let outcome = match save.stage {
            Stage::Before(k) if Some(k) == vetoing => {
                let mut bag = ErrorBag::new();
                bag.add("name", Text::new("Not allowed"));
                Err(SaveError::Invalid(bag))
            }
            Stage::Load => {
                let mut row = Record::with_id("samples", 1);
                row.set("name", AttrValue::Text("Chair".to_string()));
                Ok(Reply::Snapshot(Some(row)))
            }
            Stage::Write if op == Op::Create => Ok(Reply::NewId(42)),
            _ => Ok(Reply::Nothing),
        };
        save = save.advance(rec, outcome);
    }
    (stages, save.result())
}

#[test]
fn listeners_run_in_registration_order() {
    let mut rec = Record::new("samples");
    let (stages, result) = saved(Op::Create, None, 2, None, &mut rec);
    assert!(result.is_ok());
    let before: Vec<&Stage> = stages.iter().filter(|s| matches!(s, Stage::Before(_))).collect();
    assert_eq!(before, [&Stage::Before(0), &Stage::Before(1)]);
    let after: Vec<&Stage> = stages.iter().filter(|s| matches!(s, Stage::After(_))).collect();
    assert_eq!(after, [&Stage::After(0), &Stage::After(1)]);
}

#[test]
fn a_veto_stops_the_write_and_returns_field_messages() {
    let mut rec = Record::new("samples");
    let (stages, result) = saved(Op::Create, None, 1, Some(0), &mut rec);
    assert!(!stages.contains(&Stage::Write), "nothing reached the persister");
    match result {
        Err(SaveError::Invalid(bag)) => {
            assert_eq!(bag.messages("name").len(), 1);
            assert_eq!(bag.messages("name")[0].source(), "Not allowed");
        }
        _ => panic!("the messages come back"),
    }
}

#[test]
fn a_create_has_no_snapshot() {
    let mut rec = Record::new("samples");
    rec.set("name", AttrValue::Text("Chair".to_string()));
    let (stages, result) = saved(Op::Create, None, 1, None, &mut rec);
    assert!(result.is_ok());
    assert!(!stages.contains(&Stage::Load));
    assert!(rec.original.is_none());
}

#[test]
fn an_update_hands_listeners_the_pre_write_row() {
    let mut rec = Record::with_id("samples", 1);
    rec.set("name", AttrValue::Text("Stool".to_string()));
    let (stages, result) = saved(Op::Update, Some("1"), 1, None, &mut rec);
    assert!(result.is_ok());
    assert_eq!(stages[..3], [Stage::Begin, Stage::Load, Stage::Before(0)]);
    let original = rec.original.unwrap();
    assert!(matches!(&original[0], (k, AttrValue::Text(t)) if k == "name" && t == "Chair"));
}

#[test]
fn an_update_without_an_id_fails_rather_than_writing() {
    let mut rec = Record::new("samples");
    let (stages, result) = saved(Op::Update, None, 0, None, &mut rec);
    assert!(matches!(result, Err(SaveError::Failed(_))));
    assert!(!stages.contains(&Stage::Write), "nothing was written");
}

#[test]
fn a_listener_injected_attribute_is_written_not_dropped() {
    let mut rec = Record::new("samples");
    rec.set("name", AttrValue::Text("Chair".to_string()));
    rec.set("created_at", AttrValue::Text("now".to_string()));
    assert_eq!(persister().write_columns(&rec), ["name", "created_at"]);
}

#[test]
fn a_listener_can_refuse_a_delete() {
    let mut delete = Delete::new("samples", "7", 2);
    let mut stages = vec![];
    while delete.stage != Stage::Finished {
        stages.push(delete.stage);
        let outcome = match delete.stage {
            Stage::Load => Ok(Reply::Snapshot(Some(Record::with_id("samples", 7)))),
            Stage::Before(0) => Err(DeleteError::Refused(Text::new("still referenced"))),
            _ => Ok(Reply::Nothing),
        };
        delete = delete.advance(outcome);
    }
    assert!(!stages.contains(&Stage::Write), "nothing removed");
    assert!(!stages.iter().any(|s| matches!(s, Stage::After(_))), "no after-stage on a refusal");
    assert!(
        matches!(delete.result(), Err(DeleteError::Refused(m)) if m.source() == "still referenced")
    );
}

#[test]
fn a_delete_runs_the_listeners_around_the_persister() {
    let mut delete = Delete::new("samples", "7", 1);
    let mut stages = vec![];
    let mut deleted = vec![];
    let mut seen = vec![];
    while delete.stage != Stage::Finished {
        stages.push(delete.stage);
        let reply = match delete.stage {
            Stage::Load => {
                let mut row = Record::with_id("samples", 7);
                row.set("code", AttrValue::Text("code-7".to_string()));
                Reply::Snapshot(Some(row))
            }
            Stage::Write => {
                deleted.push(delete.id.clone());
                Reply::Nothing
            }
            Stage::After(_) => {
                let row = delete.record.as_ref().unwrap();
                match row.get("code") {
                    Some(AttrValue::Text(code)) => seen.push(code.clone()),
                    other => panic!("the row as it was, got {other:?}"),
                }
                Reply::Nothing
            }
            _ => Reply::Nothing,
        };
        delete = delete.advance(Ok(reply));
    }
    assert_eq!(deleted, ["7"]);
    assert_eq!(seen, ["code-7"]);
    let rec = delete.result().ok().expect("deleted").unwrap();
    assert!(matches!(rec.get("code"), Some(AttrValue::Text(t)) if t == "code-7"));
    assert_eq!(rec.id, Some(7));
    assert_eq!(
        stages,
        [
            Stage::Begin,
            Stage::Load,
            Stage::Before(0),
            Stage::Write,
            Stage::Commit,
            Stage::After(0)
        ]
    );
}

// ---------------------------------------------------------------------- settings
fn log_item() -> SettingsItem {
    SettingsItem::new("test.log", "Log Settings", vec![
        SettingsField::switch("log_events", "Log events").into_field(),
        SettingsField::switch("log_requests", "Log requests").into_field(),
        SettingsField::text("retention_days", "Retention (days)").into_field(),
    ])
    .description("What the log records.")
    .category("Logs")
    .order(10)
}

fn bare(code: &str, label: &str, category: &str, order: i32) -> SettingsItem {
    SettingsItem::new(code, label, vec![]).category(category).order(order)
}

fn groups(items: &Vec<SettingsItem>, active: Option<&str>) -> Vec<settings::CategoryView> {
    let set = IconSet { names: vec![] };
    let refs: Vec<&SettingsItem> = items.iter().collect();
    sidebar_groups(&refs, "/admin", active, &Translator::new("en"), &Icons::new(&set, "/s.svg"))
}

fn ordering() {
    let items = vec![
        bare("b", "Beta", "System", 20),
        bare("a", "Alpha", "System", 10),
        bare("l", "Logs", "Logs", 5),
    ];
    let groups = groups(&items, None);
    assert_eq!(groups[0].name, "Logs");
    assert_eq!(groups[1].name, "System");
    assert_eq!(groups[1].items[0].label, "Alpha");
    assert_eq!(groups[1].items[1].label, "Beta");
    assert!(groups.iter().flat_map(|g| &g.items).all(|i| !i.active));
}

fn active_item() {
    let items = vec![log_item()];
    let groups = groups(&items, Some("test.log"));
    let active: Vec<&str> = groups
        .iter()
        .flat_map(|g| &g.items)
        .filter(|i| i.active)
        .map(|i| i.label.as_str())
        .collect();
    assert_eq!(active, ["Log Settings"]);
}

fn link_item() {
    let all = builtin_settings();
    let admins = all.iter().find(|i| i.code == "backend.administrators").unwrap();
    assert_eq!(admins.category.source(), "Users");
    assert!(admins.link.is_some());
    assert!(admins.fields.is_empty());
    assert_eq!(admins.path("/admin"), "/admin/users");
    assert!(all.iter().any(|i| i.code == "backend.roles"));
}

#[test]
fn settings_group_orders_categories_then_items() {
    ordering();
}

#[test]
fn mod_group_orders_categories_then_items() {
    ordering();
}

#[test]
fn settings_group_marks_only_the_active_item() {
    active_item();
}

#[test]
fn mod_group_marks_only_the_active_item() {
    active_item();
}

#[test]
fn settings_settings_model_item_path_is_its_form() {
    assert_eq!(log_item().path("/admin"), "/admin/settings/test.log");
}

#[test]
fn mod_settings_model_item_path_is_its_form() {
    assert_eq!(log_item().path("/admin"), "/admin/settings/test.log");
    assert_eq!(log_item().path("/manage"), "/manage/settings/test.log");
}

#[test]
fn settings_link_item_path_follows_the_link() {
    link_item();
}

#[test]
fn mod_link_item_path_follows_the_link() {
    link_item();
}

fn collected(fields: Vec<FormField>, data: &[(&str, &str)]) -> Result<Vec<(String, AttrValue)>, Text> {
    let item = SettingsItem::new("acme.test", "", fields);
    collect(&item, &pairs(data), &unasked(), &builtin(), &vec![])
}

fn value<'a>(all: &'a [(String, AttrValue)], name: &str) -> &'a AttrValue {
    &all.iter().find(|(k, _)| k == name).unwrap().1
}

#[test]
fn settings_store_what_the_field_type_says() {
    let daily = SelectOption { value: "daily".to_string(), label: Some("Daily".to_string()) };
    let stored = collected(
        vec![
            FormField::text("name", "Name"),
            FormField::switch("enabled", "Enabled"),
            FormField::select("freq", "Frequency", vec![daily]),
            FormField::date("expires", "Expires"),
        ],
        &[("name", "Acme"), ("enabled", "on"), ("freq", "daily"), ("expires", "2026-12-31")],
    )
    .ok()
    .unwrap();
    assert!(matches!(value(&stored, "name"), AttrValue::Text(t) if t == "Acme"));
    assert!(matches!(value(&stored, "enabled"), AttrValue::Bool(true)));
    assert!(matches!(value(&stored, "freq"), AttrValue::Text(t) if t == "daily"));
    assert!(matches!(value(&stored, "expires"), AttrValue::Text(t) if t == "2026-12-31"));
}

#[test]
fn an_unticked_switch_clears() {
    let stored = collected(vec![FormField::switch("enabled", "Enabled")], &[]).ok().unwrap();
    assert!(matches!(value(&stored, "enabled"), AttrValue::Bool(false)));
}

fn sub(name: &str, label: &str, kind: &str) -> SubField {
    SubField {
        name: name.to_string(),
        label: Text::new(label),
        field_type: kind.to_string(),
        options: None,
    }
}

#[test]
fn a_repeater_works_in_settings() {
    let field = FormField::repeater(
        "rules",
        "Rules",
        vec![sub("path", "Path", "text"), sub("allow", "Allow", "switch")],
    );
    let stored = collected(
        vec![field],
        &[
            ("rules[0][path]", "/private"),
            ("rules[1][path]", "/public"),
            ("rules[1][allow]", "on"),
        ],
    )
    .ok()
    .unwrap();
    let AttrValue::Rows(rows) = value(&stored, "rules") else {
        panic!("rows are stored");
    };
    assert_eq!(rows.len(), 2);
    let cell = |i: usize, name: &str| &rows[i].iter().find(|(k, _)| k == name).unwrap().1;
    assert!(matches!(cell(0, "path"), Scalar::Text(t) if t == "/private"));
    assert!(matches!(cell(0, "allow"), Scalar::Bool(false)));
    assert!(matches!(cell(1, "allow"), Scalar::Bool(true)));
}

#[test]
fn a_screen_naming_an_unregistered_type_refuses_rather_than_rendering_blank() {
    let fields = vec![FormField::of("x", Text::new("X"), "acme.nope")];
    assert!(collected(fields, &[]).is_err());
}

#[test]
fn the_form_renders_each_control_through_its_type() {
    let item = SettingsItem::new("acme.test", "Test", vec![
        FormField::switch("enabled", "Enabled"),
        FormField::repeater("rules", "Rules", vec![sub("path", "Path", "text")]),
    ]);
    let mut stored = Record::new("settings");
    stored.set("enabled", AttrValue::Bool(true));
    stored.set(
        "rules",
        AttrValue::Rows(vec![vec![("path".to_string(), Scalar::Text("/a".to_string()))]]),
    );
    let form = settings::build(
        &item,
        None,
        &stored,
        &Translator::new("en"),
        "/admin",
        &builtin(),
        &vec![],
    );
    assert_eq!(form.fields.len(), 2);
    match form.fields[0].control.as_ref() {
        Some(FieldVm::Leaf(leaf)) => {
            assert_eq!(leaf.view_key, "switch");
            assert_eq!(leaf.value, "1");
        }
        _ => panic!("a switch"),
    }
    match form.fields[1].control.as_ref() {
        Some(FieldVm::Repeater { rows, .. }) => {
            assert_eq!(rows[0][0].control.name, "rules[0][path]");
            assert_eq!(rows[0][0].control.value, "/a");
        }
        _ => panic!("a repeater"),
    }
}

#[test]
fn brand_form_prefills_app_name_from_config_when_unset() {
    let brand = brand_item();
    let mut unset = Record::new("settings");
    prefill_from_config(&brand, &mut unset, "Configured Name");
    assert!(matches!(unset.get("app_name"), Some(AttrValue::Text(t)) if t == "Configured Name"));
    let mut set = Record::new("settings");
    set.set("app_name", AttrValue::Text("Acme".to_string()));
    prefill_from_config(&brand, &mut set, "Configured Name");
    assert!(matches!(set.get("app_name"), Some(AttrValue::Text(t)) if t == "Acme"));
    let mut other = Record::new("settings");
    prefill_from_config(&log_item(), &mut other, "Configured Name");
    assert!(other.get("app_name").is_none());
}

#[test]
fn settings_are_written_and_reported() {
    let stored = collect(
        &log_item(),
        &pairs(&[("log_events", "on"), ("retention_days", "30")]),
        &unasked(),
        &builtin(),
        &vec![],
    );
    match submitted_settings(stored) {
        SettingsStep::Write(all) => {
            assert!(matches!(value(&all, "log_events"), AttrValue::Bool(true)));
            assert!(matches!(value(&all, "log_requests"), AttrValue::Bool(false)));
            assert!(matches!(value(&all, "retention_days"), AttrValue::Text(t) if t == "30"));
        }
        _ => panic!("the values are written"),
    }
    match written_settings("laterite.brand", "/admin", true) {
        SettingsStep::Saved { forget_brand, flash, .. } => {
            assert!(forget_brand);
            assert_eq!(flash.level, FlashLevel::Success);
        }
        _ => panic!("saved"),
    }
    assert!(matches!(written_settings("test.log", "/admin", false), SettingsStep::Rerender(_)));
    assert!(matches!(submitted_settings(Err(Text::new("No."))), SettingsStep::Rerender(_)));
}

#[test]
fn brand_setting_overrides_config_and_blank_falls_back() {
    let mut cache = BrandCache::new();
    assert_eq!(cache.get(), None);
    assert_eq!(cache.fill(None, "Configured Name"), "Configured Name");
    assert_eq!(cache.get().as_deref(), Some("Configured Name"));
    cache.invalidate();
    assert_eq!(cache.get(), None);
    let named = Some(BrandSetting { app_name: "Acme Corp".to_string() });
    assert_eq!(cache.fill(named, "Configured Name"), "Acme Corp");
    assert_eq!(cache.get().as_deref(), Some("Acme Corp"));
    cache.invalidate();
    let blank = Some(BrandSetting { app_name: "   ".to_string() });
    assert_eq!(cache.fill(blank, "Configured Name"), "Configured Name");
    assert_eq!(BrandSetting::default().app_name, "");
}

#[test]
fn a_settings_form_is_found_only_where_it_may_be_seen() {
    let items = vec![log_item().permission("acme.logs"), bare("l", "Linked", "x", 1).link("/logs")];
    let none = PermissionSet::new(false, vec![]);
    let granted = PermissionSet::new(false, vec!["acme.logs".to_string()]);
    assert!(find_settings(&items, &none, "test.log").is_none());
    assert!(find_settings(&items, &granted, "test.log").is_some());
    assert!(find_settings(&items, &granted, "l").is_none());
    assert!(is_checked(Some(&"on".to_string())));
    assert!(!is_checked(None));
}

#[test]
fn settings_are_stored_under_their_code() {
    let s = store::get("test.log", Backend::Sqlite);
    assert!(s.sql.starts_with("SELECT \"value\" FROM"), "{}", s.sql);
    assert!(matches!(&s.params[0], Param::Text(t) if t == "test.log"));
    let s = store::set("test.log", "{}", "2026-01-01T00:00:00Z", Backend::Sqlite);
    assert!(s.sql.contains("ON CONFLICT (\"code\") DO UPDATE SET"), "{}", s.sql);
    let s = store::set("test.log", "{}", "2026-01-01T00:00:00Z", Backend::MySql);
    assert!(s.sql.contains("ON DUPLICATE KEY UPDATE"), "{}", s.sql);
}

// ------------------------------------------------------------------------ pickers
#[test]
fn table_source_searches_case_insensitively_and_resolves_by_id() {
    let places = [("1", "Kigali", "Rwanda"), ("2", "Kampala", "Uganda")];
    let source = TableSource::new("places", "id", "name").with_hint("region");
    let s = source.search("kig", 10, Backend::Sqlite).ok().unwrap();
    assert!(s.sql.contains("WHERE LOWER(\"name\") LIKE ? ESCAPE"), "{}", s.sql);
    let pattern = match &s.params[..] {
        [Param::Text(t), Param::Count(10)] => t.clone(),
        other => panic!("a pattern and a limit, got {other:?}"),
    };
    let inner = pattern.strip_prefix('%').and_then(|t| t.strip_suffix('%')).unwrap();
    let hits: Vec<PickerNode> = places
        .iter()
        .filter(|(_, name, _)| name.to_lowercase().contains(inner))
        .map(|(id, name, region)| {
            source.node(Some(id.to_string()), Some(name.to_string()), Some(region.to_string()))
        })
        .collect();
    assert_eq!(hits.len(), 1);
    assert_eq!(hits[0].label, "Kigali");
    assert_eq!(hits[0].hint.as_deref(), Some("Rwanda"));
    let s = source.resolve(&hits[0].id, Backend::Sqlite).ok().unwrap();
    assert!(matches!(&s.params[..], [Param::Text(t), Param::Count(1)] if t == "1"), "{:?}", s.params);
    assert!(matches!(resolve_answer(Ok(None)), Ok(None)));
    let bad = TableSource::new("places; drop", "id", "name");
    assert!(!bad.idents_valid());
    assert!(bad.search("x", 20, Backend::Sqlite).is_err());
}

#[test]
fn a_picker_is_guarded_and_bounded() {
    let sources =
        vec![PickerSourceReg::new("acme.place"), PickerSourceReg::new("acme.user").require("acme.see")];
    let none = PermissionSet::new(false, vec![]);
    assert!(guard("QUERY", &sources, &none, "acme.place").is_ok());
    assert_eq!(guard("QUERY", &sources, &none, "acme.user").err().unwrap().status, 403);
    assert_eq!(guard("QUERY", &sources, &none, "acme.gone").err().unwrap().status, 404);
    assert_eq!(guard("POST", &sources, &none, "acme.place").err().unwrap().status, 405);
    assert_eq!(clamp_limit(None), DEFAULT_LIMIT);
    assert_eq!(clamp_limit(Some(1000)), MAX_LIMIT);
    assert_eq!(asked(" x ", Some(5)), ("x", 5));
    assert_eq!(search_answer(Err(PickerError("x".to_string()))).err().unwrap().status, 500);
    let node = PickerNode { id: "1".to_string(), label: "One".to_string(), hint: None };
    assert!(resolve_answer(Ok(Some(node))).ok().unwrap().is_some());
}

// ------------------------------------------------------------------------ plugins
fn journal(id: &str, load: Option<&str>, reason: Option<&str>, under: Option<&str>) -> JournalRow {
    JournalRow {
        id: id.to_string(),
        load_fingerprint: load.map(String::from),
        quarantined_reason: reason.map(String::from),
        quarantined_fingerprint: under.map(String::from),
    }
}

/// Reconciles a journal, and leaves it as the actions do.
fn boot(rows: &mut Vec<JournalRow>, fingerprint: &str) -> ReconcileReport {
    let (actions, report) = reconcile_boot(rows, fingerprint);
    for action in actions {
        for row in rows.iter_mut() {
            match &action {
                BootAction::Quarantine { id, reason, fingerprint } if *id == row.id => {
                    row.load_fingerprint = None;
                    row.quarantined_reason = Some(reason.clone());
                    row.quarantined_fingerprint = Some(fingerprint.clone());
                }
                BootAction::ClearLoading { id } if *id == row.id => row.load_fingerprint = None,
                BootAction::ClearQuarantine { id } if *id == row.id => {
                    row.quarantined_reason = None;
                    row.quarantined_fingerprint = None;
                }
                _ => {}
            }
        }
    }
    report
}

/// What a journal lists as quarantined.
fn set_aside(rows: &[JournalRow]) -> Vec<(String, String)> {
    rows.iter()
        .filter_map(|r| r.quarantined_reason.clone().map(|reason| (r.id.clone(), reason)))
        .collect()
}

#[test]
fn a_load_marker_from_the_same_binary_quarantines_the_plugin() {
    let mut rows = vec![journal("acme.crash", Some("fp1"), None, None)];
    let report = boot(&mut rows, "fp1");
    assert_eq!(report.crashed, vec!["acme.crash".to_string()]);
    assert!(report.cleared.is_empty());
    assert_eq!(set_aside(&rows), vec![("acme.crash".to_string(), CRASH_REASON.to_string())]);
}

#[test]
fn a_cleanly_loaded_plugin_is_not_quarantined() {
    let mut rows = vec![journal("acme.ok", None, None, None)];
    let report = boot(&mut rows, "fp1");
    assert!(report.crashed.is_empty());
    assert!(set_aside(&rows).is_empty());
}

#[test]
fn a_load_marker_from_an_old_binary_is_cleared_not_quarantined() {
    let mut rows = vec![journal("acme.p", Some("old-fp"), None, None)];
    let report = boot(&mut rows, "new-fp");
    assert!(report.crashed.is_empty());
    assert!(set_aside(&rows).is_empty());
    assert!(rows[0].load_fingerprint.is_none());
    let again = boot(&mut rows, "new-fp");
    assert!(again.crashed.is_empty());
}

#[test]
fn quarantine_persists_under_the_same_binary_and_lifts_on_a_new_one() {
    let mut rows = vec![journal("acme.q", None, Some("boom"), Some("fp1"))];
    let same = boot(&mut rows, "fp1");
    assert!(same.cleared.is_empty());
    assert_eq!(set_aside(&rows).len(), 1);
    let changed = boot(&mut rows, "fp2");
    assert_eq!(changed.cleared, vec!["acme.q".to_string()]);
    assert!(set_aside(&rows).is_empty());
}

#[test]
fn enabling_a_plugin_takes_it_back_in() {
    let on = set_enabled("acme.q", true, "now", Backend::Sqlite);
    assert!(on.sql.contains("\"quarantined_reason\""), "{}", on.sql);
    assert!(on.sql.contains("\"quarantined_fingerprint\""), "{}", on.sql);
    let absent = on.params.iter().filter(|p| matches!(p, Param::Absent)).count();
    assert_eq!(absent, 3);
    let off = set_enabled("acme.q", false, "now", Backend::Sqlite);
    assert!(!off.sql.contains("quarantined"), "{}", off.sql);
}

#[test]
fn a_boot_action_is_one_update() {
    let action = BootAction::Quarantine {
        id: "acme.crash".to_string(),
        reason: CRASH_REASON.to_string(),
        fingerprint: "fp1".to_string(),
    };
    let s = action_statement(&action, "now", Backend::Sqlite);
    assert!(s.sql.starts_with("UPDATE \"laterite_plugins\" SET"), "{}", s.sql);
}

#[test]
fn record_roster_adds_new_enabled_and_preserves_state() {
    let compiled = vec!["acme.blog".to_string(), "acme.shop".to_string()];
    assert_eq!(record_roster(&compiled, &vec!["acme.blog".to_string()]), ["acme.shop"]);
    assert!(needs_insert(0));
    assert!(!needs_insert(1));
    let view = PluginView::from_row(PluginRow::read(Some("acme.blog".to_string()), Some(false), None, None));
    assert!(!view.enabled);
    assert!(view.action_target);
    assert_eq!(toggled(1).level, FlashLevel::Success);
    let s = set_enabled("acme.blog", false, "now", Backend::Sqlite);
    assert!(s.sql.starts_with("UPDATE \"laterite_plugins\" SET"), "{}", s.sql);
    assert!(mark_loading("acme.blog", "fp", "now", Backend::Sqlite).sql.contains("\"load_fingerprint\""));
    assert!(list_plugins(Backend::Sqlite).sql.contains("ORDER BY"));
    assert_ne!(fingerprint_of(Some((1, 2))), fingerprint_of(Some((1, 3))));
}

// -------------------------------------------------------------------- descriptors
fn posts(with_form: bool) -> ResourceFile {
    let mut title = ListColumn::new("title", "").searchable(true);
    title.label = Text::new("");
    let mut created = ListColumn::new("created_at", "").datetime();
    created.label = Text::new("");
    let list = ListConfig {
        creatable: true,
        order_by: "created_at".to_string(),
        order_dir: SortDir::Desc,
        columns: vec![title, created],
        ..Default::default()
    };
    let form = FormConfig {
        entity: String::new(),
        title: Text::new(""),
        base_path: String::new(),
        id_field: String::new(),
        fields: vec![FormField::text("title", "").required()],
        persist: None,
    };
    ResourceFile {
        entity: "posts".to_string(),
        path: "/posts".to_string(),
        title: Text::new("Posts"),
        permission: Some("acme.manage_posts".to_string()),
        id_field: "id".to_string(),
        list,
        form: if with_form { Some(form) } else { None },
    }
}

fn read() -> Resource {
    from_yaml(Ok(posts(true)), "posts.yaml").ok().expect("reads")
}

#[test]
fn a_file_describes_one_resource() {
    let resource = read();
    assert_eq!(resource.base_path, "/posts");
    assert_eq!(resource.permission.as_deref(), Some("acme.manage_posts"));
    assert_eq!(resource.list.entity, "posts");
    assert_eq!(resource.list.order_by, "created_at");
    assert!(resource.list.creatable);
}

#[test]
fn the_resource_level_keys_fill_both_screens() {
    let resource = read();
    let form = resource.form.as_ref().expect("a form");
    assert_eq!(form.entity, "posts");
    assert_eq!(form.base_path, "/posts");
    assert_eq!(form.id_field, "id");
    assert_eq!(resource.list.id_field, "id");
    assert_eq!(resource.list.edit_base.as_deref(), Some("/posts"));
}

#[test]
fn a_column_is_named_by_its_key_and_labelled_from_it() {
    let resource = read();
    let names: Vec<&str> = resource.list.columns.iter().map(|c| c.field.as_str()).collect();
    assert_eq!(names, ["title", "created_at"], "in the order written");
    assert_eq!(resource.list.columns[1].label.source(), "Created at");
    assert!(resource.list.columns[0].is_searchable());
    assert_eq!(humanize("created-at").source(), "Created at");
}

#[test]
fn a_file_that_does_not_read_is_named() {
    let err = from_yaml(Err("unknown field `searchabel`".to_string()), "posts.yaml")
        .err()
        .expect("a typo is an error");
    assert_eq!(err.source, "posts.yaml");
    assert!(err.message.contains("searchabel"), "and names it: {}", err.message);
    assert!(err.shown().contains("posts.yaml"));
}

#[test]
fn a_file_may_describe_a_list_with_no_form() {
    let resource = resource_of(posts(false));
    assert!(resource.form.is_none());
    assert!(resource.list.edit_base.is_none(), "and links no rows");
}

#[test]
fn descriptor_sources_are_listed_once_in_order() {
    let all = descriptor_sources();
    let mut sorted = all.clone();
    sorted.sort();
    sorted.dedup();
    assert_eq!(all, sorted);
    for source in ["Audit Log", "Branding", "Application name", "Manage plugins", "Backend"] {
        assert!(all.iter().any(|s| s == source), "{source}");
    }
    assert_eq!(default_id_field(), "id");
}

#[test]
fn field_rules_are_added_in_turn() {
    let field = FormField::text("name", "Name").required_on(Mode::Create).max_length(9).min_length(2);
    assert_eq!(field.rules, [Rule::RequiredOn(Mode::Create), Rule::MaxLength(9), Rule::MinLength(2)]);
    let form = sample();
    assert!(matches!(form.update_validated("7", Some(ErrorBag::new())), FormStep::Persist));
    assert!(matches!(form.update_validated("7", None), FormStep::ErrorPage));
    assert_eq!(invalid_body().status, 400);
}

#[test]
fn the_plugin_screen_reads_its_table() {
    assert_eq!(index_path("/admin"), "/admin/plugins");
    assert_eq!(toggle_path("/admin"), "/admin/plugins/toggle");
    let s = disabled_ids(Backend::Sqlite);
    assert_eq!(s.sql, "SELECT \"plugin_id\" FROM \"laterite_plugins\" WHERE \"enabled\" = ?");
    assert!(matches!(&s.params[..], [Param::Int(0)]), "{:?}", s.params);
    assert!(recorded_ids(Backend::Sqlite).sql.starts_with("SELECT \"plugin_id\" FROM"));
    let s = clear_loading("acme.blog", "now", Backend::Sqlite);
    assert_eq!(
        s.sql,
        "UPDATE \"laterite_plugins\" SET \"load_fingerprint\" = ?, \"updated_at\" = ? WHERE \"plugin_id\" = ?"
    );
    assert!(matches!(&s.params[..], [Param::Absent, Param::Text(_), Param::Text(_)]), "{:?}", s.params);
    let s = quarantine("acme.blog", CRASH_REASON, "fp", "now", Backend::Sqlite);
    assert!(matches!(&s.params[0], Param::Text(t) if t == CRASH_REASON), "{:?}", s.params);
    assert!(clear_quarantine("acme.blog", "now", Backend::Sqlite).sql.contains("\"quarantined_at\""));
}

#[test]
fn a_contributed_type_behaves_alike_on_forms_and_settings() {
    let mut types = builtin();
    types.names.push("acme.map".to_string());
    let fields = || vec![FormField::of("place", Text::new("Place"), "acme.map")];
    let data = pairs(&[("place", "1,2")]);
    let answers = || Answers {
        hashed: vec![],
        stored: vec![StoredAnswer {
            name: "place".to_string(),
            outcome: Ok(Some(Scalar::Int(12))),
        }],
    };
    let form = PreparedForm::prepare(config_with(fields(), None), &types, &vec![], &vec![])
        .ok()
        .unwrap();
    assert_eq!(asked_of(&form, &data).len(), 1);
    let rec = record_of(&form, &data, Mode::Create, &answers()).ok().unwrap();
    assert!(matches!(rec.get("place"), Some(AttrValue::Int(12))));

    let item = SettingsItem::new("acme.places", "Places", fields());
    assert_eq!(settings::asked_of(&item, &data, &types, &vec![]).len(), 1);
    let stored = collect(&item, &data, &answers(), &types, &vec![]).ok().unwrap();
    assert!(matches!(value(&stored, "place"), AttrValue::Int(12)));
    assert!(collect(&item, &data, &answers(), &builtin(), &vec![]).is_err());
    let shown = settings::build(
        &item,
        None,
        &Record::new("acme.places"),
        &Translator::new("en"),
        "/admin",
        &types,
        &vec![],
    );
    assert!(matches!(&shown.fields[0].control, Some(FieldVm::Leaf(l)) if l.view_key == "acme.map"));
}

#[test]
fn a_settings_form_names_its_secrets() {
    let fields = vec![
        FormField::text("host", "Host"),
        FormField::of("key", Text::new("Key"), "password"),
    ];
    let item = SettingsItem::new("acme.mail", "Mail", fields);
    let data = pairs(&[("host", "mail"), ("key", " s3cret ")]);
    assert_eq!(settings::secrets_of(&item, &data, &builtin(), &vec![]), ["s3cret"]);
    let blank = pairs(&[("host", "mail"), ("key", "")]);
    assert!(settings::secrets_of(&item, &blank, &builtin(), &vec![]).is_empty());
}

#[test]
fn a_picker_search_is_literal() {
    let s = TableSource::new("places", "id", "name").search("%", 10, Backend::Sqlite).ok().unwrap();
    assert!(s.sql.contains("ESCAPE"), "{}", s.sql);
    assert!(s.params.iter().any(|p| matches!(p, Param::Text(t) if t == "%\\%%")), "{:?}", s.params);
}
