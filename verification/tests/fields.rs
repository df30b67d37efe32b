//! Form fields: what they accept, store and show.

use laterite_admin::attr::{AttrValue, Scalar};
use laterite_admin::contributed::{Answers, FieldTypes, StoredAnswer, TypeAnswer, TypeResolved};
use laterite_admin::field::{
    builtin_input_registry, default_input, default_true, is_name, password_text, render_field,
    validate_contributions, Adornment, Chrome, Hashed, InputDef, InputType, LeafKind, LeafOptions,
    Mode, NoOverrides, OverrideError, OverrideScope, Placement, Rule, SelectOption,
    SubmittedField, Surface,
};
use laterite_admin::field_view::{
    field_type, find_type, FieldCx, FieldKind, FieldOptions, FieldValue, FieldVm, LeafData, ResolvedOptions,
};
use laterite_admin::html::Markup;
use laterite_admin::repeater::{cell_name, leaf_kind, RepeaterRaw, SubField};
use laterite_admin::text::Text;

fn builtin() -> FieldTypes {
    FieldTypes::builtin(builtin_input_registry())
}

fn unasked() -> Answers {
    Answers::of_hashes(vec![])
}

const TEXT: FieldKind = FieldKind::Leaf(LeafKind::Text);

fn input(key: &str) -> FieldOptions {
    let mut leaf = LeafOptions::none();
    leaf.input = Some(key.to_string());
    FieldOptions { leaf, repeater: None }
}

fn resolved(kind: FieldKind, raw: &FieldOptions) -> ResolvedOptions {
    kind.resolve_options(kind.view_key(), Some(raw), &builtin(), &vec!["acme.place".to_string()])
        .ok()
        .unwrap()
}

fn vm(kind: FieldKind, name: &str, value: &FieldValue, opts: &ResolvedOptions) -> FieldVm {
    kind.view_model(&FieldCx {
        name,
        id: name,
        label: "Label",
        value,
        required: true,
        opts,
        base: "/admin",
    })
}

fn text_parts(vm: FieldVm) -> (String, Vec<(String, String)>, Vec<Adornment>) {
    match vm {
        FieldVm::Leaf(leaf) => match leaf.data {
            LeafData::Text { input_type, attrs, adornments } => (input_type, attrs, adornments),
            other => panic!("a text control, got {other:?}"),
        },
        other => panic!("a leaf, got {other:?}"),
    }
}

fn submitted(all: &[(&str, &str)]) -> Vec<(String, String)> {
    all.iter().map(|(k, v)| (k.to_string(), v.to_string())).collect()
}

fn scope<'a>() -> OverrideScope<'a> {
    OverrideScope { surface: Surface::Field, view_key: "text", resource: None, field: None }
}

#[test]
fn no_overrides_uses_the_compiled_default() {
    let direct = Markup::raw_unchecked("<input>".to_string());
    let routed = render_field(
        NoOverrides.render_override(&scope()),
        Markup::raw_unchecked("<input>".to_string()),
    );
    assert_eq!(direct.as_str(), routed.as_str());
}

#[test]
fn an_override_takes_the_place_of_the_default_unless_it_fails() {
    let default = || Markup::raw_unchecked("<input>".to_string());
    let routed = render_field(Some(Ok("<x>".to_string())), default());
    assert_eq!(routed.as_str(), "<x>");
    let routed = render_field(Some(Err(OverrideError("boom".to_string()))), default());
    assert_eq!(routed.as_str(), "<input>");
}

#[test]
fn text_input_email_sets_the_type_and_contributes_the_email_rule() {
    let opts = resolved(TEXT, &input("email"));
    assert!(matches!(TEXT.intrinsic_rules(&opts).as_slice(), [Rule::Email]));
    let value = FieldValue::Text("a@b.test".to_string());
    assert_eq!(text_parts(vm(TEXT, "email", &value, &opts)).0, "email");
}

#[test]
fn text_default_input_is_plain_text_with_no_extra_rule() {
    let opts = TEXT.resolve_options("text", None, &builtin(), &vec![]).ok().unwrap();
    assert!(TEXT.intrinsic_rules(&opts).is_empty());
    let value = FieldValue::Text("hi".to_string());
    assert_eq!(text_parts(vm(TEXT, "name", &value, &opts)).0, "text");
    assert_eq!(default_input(), "text");
    assert!(default_true());
}

#[test]
fn text_number_input_sets_the_type_and_numeric_rule() {
    let opts = resolved(TEXT, &input("number"));
    assert!(matches!(TEXT.intrinsic_rules(&opts).as_slice(), [Rule::Numeric]));
    let value = FieldValue::Text("42".to_string());
    assert_eq!(text_parts(vm(TEXT, "qty", &value, &opts)).0, "number");
}

#[test]
fn text_tel_input_sets_the_type_with_no_rule() {
    let opts = resolved(TEXT, &input("tel"));
    assert!(TEXT.intrinsic_rules(&opts).is_empty());
    let value = FieldValue::Text(String::new());
    assert_eq!(text_parts(vm(TEXT, "phone", &value, &opts)).0, "tel");
}

#[test]
fn text_url_input_sets_the_type_url_rule_and_copy_button() {
    let opts = resolved(TEXT, &input("url"));
    assert!(matches!(TEXT.intrinsic_rules(&opts).as_slice(), [Rule::Url]));
    let value = FieldValue::Text("https://example.com".to_string());
    let (html_type, _, adornments) = text_parts(vm(TEXT, "site", &value, &opts));
    assert_eq!(html_type, "url");
    assert_eq!(adornments.len(), 1);
    assert_eq!(adornments[0].widget.as_deref(), Some("copy"));
    assert_eq!(adornments[0].placement, Placement::Trailing);
}

#[test]
fn text_url_input_copy_false_omits_the_button() {
    let mut raw = input("url");
    raw.leaf.copy = Some(false);
    let opts = resolved(TEXT, &raw);
    let value = FieldValue::Text("https://example.com".to_string());
    let (html_type, _, adornments) = text_parts(vm(TEXT, "site", &value, &opts));
    assert_eq!(html_type, "url");
    assert!(adornments.is_empty());
}

#[test]
fn text_number_input_emits_min_max_step_attributes() {
    let mut raw = input("number");
    raw.leaf.min = Some("0".to_string());
    raw.leaf.max = Some("10".to_string());
    raw.leaf.step = Some("2".to_string());
    let opts = resolved(TEXT, &raw);
    let value = FieldValue::Text("5".to_string());
    let (_, attrs, _) = text_parts(vm(TEXT, "qty", &value, &opts));
    for pair in [("min", "0"), ("max", "10"), ("step", "2")] {
        assert!(attrs.contains(&(pair.0.to_string(), pair.1.to_string())), "{attrs:?}");
    }
}

#[test]
fn text_input_reserved_attribute_name_aborts_resolve() {
    let mut inputs = builtin_input_registry();
    inputs.push(InputType::Custom(InputDef {
        key: "bad".to_string(),
        html_type: "text".to_string(),
        rules: vec![],
        attributes: vec![("class".to_string(), "x".to_string())],
        adornments: vec![],
        assets: vec![],
    }));
    let Err(e) = TEXT.resolve_options("text", Some(&input("bad")), &FieldTypes::builtin(inputs), &vec![]) else {
        panic!("expected a reserved-attribute rejection");
    };
    assert!(e.0.contains("class"), "{}", e.0);
}

#[test]
fn an_unregistered_input_is_refused() {
    let Err(e) = TEXT.resolve_options("text", Some(&input("colour")), &builtin(), &vec![]) else {
        panic!("no such input");
    };
    assert!(e.0.contains("colour"), "{}", e.0);
}

#[test]
fn attribute_and_widget_name_rules() {
    assert!(is_name("min", false));
    assert!(is_name("data-x", false));
    assert!(!is_name("Min", false));
    assert!(!is_name("min.x", false));
    assert!(is_name("vendor.copy", true));
    assert!(!is_name("", false));
    assert!(validate_contributions(&submitted(&[("class", "x")]), &vec![]).is_err());
    assert!(validate_contributions(&submitted(&[("data-x", "x")]), &vec![]).is_ok());
}

fn choices() -> FieldOptions {
    let mut leaf = LeafOptions::none();
    leaf.options = vec![
        SelectOption { value: "open".to_string(), label: Some("Open".to_string()) },
        SelectOption { value: "closed".to_string(), label: None },
    ];
    FieldOptions { leaf, repeater: None }
}

fn shown_choices(kind: LeafKind) -> Vec<(String, String, bool)> {
    let kind = FieldKind::Leaf(kind);
    let opts = resolved(kind, &choices());
    let value = FieldValue::Text("closed".to_string());
    match vm(kind, "status", &value, &opts) {
        FieldVm::Leaf(leaf) => match leaf.data {
            LeafData::Options(all) => {
                assert_eq!(leaf.name, "status");
                all.into_iter().map(|o| (o.value, o.label, o.selected)).collect()
            }
            other => panic!("choices, got {other:?}"),
        },
        other => panic!("a leaf, got {other:?}"),
    }
}

#[test]
fn select_renders_options_with_the_current_value_selected() {
    assert_eq!(shown_choices(LeafKind::Select), vec![
        ("open".to_string(), "Open".to_string(), false),
        ("closed".to_string(), "closed".to_string(), true),
    ]);
}

#[test]
fn radio_renders_the_same_options_with_the_current_one_checked() {
    assert_eq!(shown_choices(LeafKind::Radio), shown_choices(LeafKind::Select));
}

fn reference(source: &str) -> FieldOptions {
    let mut leaf = LeafOptions::none();
    leaf.source = Some(source.to_string());
    FieldOptions { leaf, repeater: None }
}

const REFERENCE: FieldKind = FieldKind::Leaf(LeafKind::Reference);

#[test]
fn reference_rejects_an_unknown_source() {
    let Err(e) = REFERENCE.resolve_options(
        "reference",
        Some(&reference("no.such")),
        &builtin(),
        &vec!["acme.place".to_string()],
    ) else {
        panic!("expected an unknown-source rejection");
    };
    assert!(e.0.contains("no.such"), "{}", e.0);
}

#[test]
fn reference_renders_a_preserved_hidden_id_and_the_combobox() {
    let opts = resolved(REFERENCE, &reference("acme.place"));
    let value = FieldValue::Text("42".to_string());
    match vm(REFERENCE, "place_id", &value, &opts) {
        FieldVm::Leaf(leaf) => match leaf.data {
            LeafData::Reference { search_url, resolve_url, value, .. } => {
                assert_eq!(leaf.name, "place_id");
                assert_eq!(value, "42");
                assert_eq!(search_url, "/admin/pickers/acme.place/search");
                assert_eq!(resolve_url, "/admin/pickers/acme.place/resolve");
            }
            other => panic!("a reference, got {other:?}"),
        },
        other => panic!("a leaf, got {other:?}"),
    }
}

#[test]
fn reference_declares_its_widget_assets() {
    let opts = resolved(REFERENCE, &reference("acme.place"));
    assert_eq!(REFERENCE.assets(&opts), vec!["fields/ref-picker.js", "fields/ref-picker.css"]);
}

fn sub(name: &str, label: &str, kind: &str) -> SubField {
    SubField {
        name: name.to_string(),
        label: Text::new(label),
        field_type: kind.to_string(),
        options: None,
    }
}

fn repeater(fields: Vec<SubField>, min_items: usize, max_items: Option<usize>) -> FieldOptions {
    FieldOptions {
        leaf: LeafOptions::none(),
        repeater: Some(RepeaterRaw { fields, min_items, max_items }),
    }
}

fn rules() -> ResolvedOptions {
    let fields = vec![sub("path", "Path", "text"), sub("allow", "Allow", "switch")];
    resolved(FieldKind::Repeater, &repeater(fields, 0, None))
}

fn stored(data: &[(&str, &str)]) -> Vec<Vec<(String, Scalar)>> {
    let data = submitted(data);
    let field = SubmittedField::new("rules", &data);
    match FieldKind::Repeater.to_attr(&field, &rules(), Mode::Create, &unasked()) {
        Ok(Some(AttrValue::Rows(rows))) => rows,
        other => panic!("expected rows, got {other:?}"),
    }
}

fn cell<'a>(row: &'a [(String, Scalar)], name: &str) -> &'a Scalar {
    &row.iter().find(|(k, _)| k == name).unwrap().1
}

#[test]
fn a_row_is_typed_by_its_sub_field_types() {
    let rows = stored(&[
        ("rules[0][path]", "/private"),
        ("rules[1][path]", "/public"),
        ("rules[1][allow]", "on"),
    ]);
    assert!(matches!(cell(&rows[0], "path"), Scalar::Text(t) if t == "/private"));
    assert!(matches!(cell(&rows[0], "allow"), Scalar::Bool(false)));
    assert!(matches!(cell(&rows[1], "allow"), Scalar::Bool(true)));
}

#[test]
fn rows_are_ordered_by_index_not_submission_order() {
    let rows = stored(&[("rules[7][path]", "/last"), ("rules[2][path]", "/first")]);
    assert_eq!(rows.len(), 2);
    assert!(matches!(cell(&rows[0], "path"), Scalar::Text(t) if t == "/first"));
    assert!(matches!(cell(&rows[1], "path"), Scalar::Text(t) if t == "/last"));
}

#[test]
fn a_row_left_blank_is_dropped() {
    let rows = stored(&[("rules[0][path]", "/kept"), ("rules[1][path]", "  ")]);
    assert_eq!(rows.len(), 1);
}

#[test]
fn nothing_submitted_stores_an_empty_list() {
    assert!(stored(&[]).is_empty());
}

#[test]
fn a_repeater_refuses_to_hold_a_repeater() {
    let raw = repeater(vec![sub("inner", "Inner", "repeater")], 0, None);
    let err = FieldKind::Repeater
        .resolve_options("repeater", Some(&raw), &builtin(), &vec![])
        .err()
        .expect("a nested repeater is refused");
    assert!(err.0.contains("cannot hold a repeater"), "{}", err.0);
}

#[test]
fn an_unregistered_sub_field_type_is_refused_at_boot() {
    let raw = repeater(vec![sub("x", "X", "acme.nope")], 0, None);
    let err = FieldKind::Repeater
        .resolve_options("repeater", Some(&raw), &builtin(), &vec![])
        .err()
        .expect("an unregistered type is refused");
    assert!(err.0.contains("acme.nope"), "{}", err.0);
}

#[test]
fn row_counts_are_bounded_when_asked() {
    let raw = repeater(vec![sub("path", "Path", "text")], 1, Some(2));
    let opts = resolved(FieldKind::Repeater, &raw);
    let empty = submitted(&[]);
    let too_few = SubmittedField::new("rules", &empty);
    assert!(FieldKind::Repeater.to_attr(&too_few, &opts, Mode::Create, &unasked()).is_err());

    let three = submitted(&[
        ("rules[0][path]", "/a"),
        ("rules[1][path]", "/b"),
        ("rules[2][path]", "/c"),
    ]);
    let field = SubmittedField::new("rules", &three);
    assert!(FieldKind::Repeater.to_attr(&field, &opts, Mode::Create, &unasked()).is_err());
}

#[test]
fn it_renders_a_row_per_stored_entry_plus_a_blank_to_clone() {
    let value = FieldValue::Rows(vec![vec![
        ("path".to_string(), Scalar::Text("/private".to_string())),
        ("allow".to_string(), Scalar::Bool(false)),
    ]]);
    let opts = rules();
    match vm(FieldKind::Repeater, "rules", &value, &opts) {
        FieldVm::Repeater { rows, blank, .. } => {
            assert_eq!(rows.len(), 1);
            assert_eq!(rows[0][0].control.name, "rules[0][path]");
            assert_eq!(rows[0][0].control.value, "/private");
            assert_eq!(blank[0].control.name, "rules[__index__][path]");
        }
        other => panic!("a repeater, got {other:?}"),
    }
    assert_eq!(cell_name("rules", "3", "path"), "rules[3][path]");
}

fn one(raw: Option<&str>) -> Vec<(String, String)> {
    raw.into_iter().map(|v| ("f".to_string(), v.to_string())).collect()
}

fn attr(kind: LeafKind, raw: Option<&str>, mode: Mode, answers: &Answers) -> Option<AttrValue> {
    let data = one(raw);
    FieldKind::Leaf(kind)
        .to_attr(&SubmittedField::new("f", &data), &ResolvedOptions::none(), mode, answers)
        .unwrap()
}

fn control(kind: LeafKind, stored: Option<&str>) -> String {
    FieldKind::Leaf(kind).to_control(stored, &ResolvedOptions::none())
}

#[test]
fn a_switch_stores_a_bool_and_absence_means_off() {
    assert!(matches!(
        attr(LeafKind::Switch, None, Mode::Update, &unasked()),
        Some(AttrValue::Bool(false))
    ));
    assert!(matches!(
        attr(LeafKind::Switch, Some("on"), Mode::Create, &unasked()),
        Some(AttrValue::Bool(true))
    ));
}

#[test]
fn a_switch_reads_back_whatever_the_backend_gave() {
    for on in ["1", "true", "t", "on"] {
        assert_eq!(control(LeafKind::Switch, Some(on)), "1", "{on} reads as on");
    }
    for off in ["0", "false", "f", ""] {
        assert!(control(LeafKind::Switch, Some(off)).is_empty(), "{off} is off");
    }
    assert!(control(LeafKind::Switch, None).is_empty());
}

#[test]
fn a_date_shows_only_the_date_part_of_a_stored_instant() {
    assert_eq!(control(LeafKind::Date, Some("2026-09-09T12:30:45.000000Z")), "2026-09-09");
    assert_eq!(control(LeafKind::Date, Some("2026-09-09 12:30:45")), "2026-09-09");
    assert_eq!(control(LeafKind::Date, Some("2026-09-09")), "2026-09-09");
    assert_eq!(control(LeafKind::Date, None), "");
}

#[test]
fn a_cleared_date_stores_null_not_an_empty_string() {
    assert!(matches!(
        attr(LeafKind::Date, Some(""), Mode::Update, &unasked()),
        Some(AttrValue::Null)
    ));
    assert!(matches!(
        attr(LeafKind::Date, Some("2026-09-09"), Mode::Create, &unasked()),
        Some(AttrValue::Text(t)) if t == "2026-09-09"
    ));
    let date = FieldKind::Leaf(LeafKind::Date);
    assert!(matches!(date.intrinsic_rules(&ResolvedOptions::none())[..], [Rule::Date]));
}

#[test]
fn a_password_hashes_and_never_echoes() {
    let data = one(Some("hunter2hunter2"));
    let field = SubmittedField::new("f", &data);
    let kind = FieldKind::Leaf(LeafKind::Password);
    assert_eq!(kind.secrets(&field, &ResolvedOptions::none()), ["hunter2hunter2"]);
    let hashes = Answers::of_hashes(vec![Hashed {
        plain: "hunter2hunter2".to_string(),
        outcome: Ok("$argon2id$hash".to_string()),
    }]);
    let stored = attr(LeafKind::Password, Some("hunter2hunter2"), Mode::Create, &hashes);
    match stored {
        Some(AttrValue::Text(hash)) => {
            assert!(hash.starts_with("$argon2"), "stored as a hash, not plaintext");
            assert_ne!(hash, "hunter2hunter2");
            assert_eq!(control(LeafKind::Password, Some(&hash)), "");
        }
        other => panic!("a hash, got {other:?}"),
    }
}

#[test]
fn a_password_that_cannot_be_hashed_stores_nothing() {
    let data = one(Some("pw"));
    let field = SubmittedField::new("f", &data);
    let kind = FieldKind::Leaf(LeafKind::Password);
    let hashes = Answers::of_hashes(vec![Hashed {
        plain: "pw".to_string(),
        outcome: Err("no entropy".to_string()),
    }]);
    assert!(kind.to_attr(&field, &ResolvedOptions::none(), Mode::Create, &hashes).is_err());
    assert_eq!(password_text(Some("  pw ")).as_deref(), Some("pw"));
}

#[test]
fn a_blank_password_on_an_edit_leaves_the_stored_one_alone() {
    for raw in [Some(""), Some("   "), None] {
        assert!(attr(LeafKind::Password, raw, Mode::Update, &unasked()).is_none());
    }
}

#[test]
fn a_plain_field_stores_and_shows_the_text_unchanged() {
    assert!(matches!(
        attr(LeafKind::Textarea, Some("hello"), Mode::Create, &unasked()),
        Some(AttrValue::Text(t)) if t == "hello"
    ));
    assert!(attr(LeafKind::Textarea, None, Mode::Update, &unasked()).is_none());
    assert_eq!(control(LeafKind::Textarea, Some("hello")), "hello");
}

#[test]
fn field_types_are_found_by_their_key() {
    assert_eq!(field_type("textarea"), Some(FieldKind::Leaf(LeafKind::Textarea)));
    assert_eq!(field_type("repeater"), Some(FieldKind::Repeater));
    assert_eq!(field_type("acme.nope"), None);
    assert_eq!(leaf_kind("switch"), Some(LeafKind::Switch));
    assert_eq!(TEXT.chrome(&ResolvedOptions::none()), Chrome::Wrapped);
    assert_eq!(FieldKind::Repeater.view_key(), "repeater");
}

const CONTRIBUTED: FieldKind = FieldKind::Leaf(LeafKind::Contributed);

fn written(options: &str) -> FieldOptions {
    let mut leaf = LeafOptions::none();
    leaf.written = Some(options.to_string());
    FieldOptions { leaf, repeater: None }
}

/// A deployment with a map field, which took one set of options and refused another.
fn with_map() -> FieldTypes {
    FieldTypes {
        inputs: builtin_input_registry(),
        names: vec!["acme.map".to_string()],
        answers: vec![
            TypeAnswer {
                field_type: "acme.map".to_string(),
                options: Some("{\"zoom\":3}".to_string()),
                outcome: Ok(TypeResolved {
                    rules: vec![Rule::Numeric],
                    assets: vec!["acme/map.js".to_string()],
                    chrome: Chrome::Bare,
                }),
            },
            TypeAnswer {
                field_type: "acme.map".to_string(),
                options: Some("{\"zoom\":\"far\"}".to_string()),
                outcome: Err("zoom is a number".to_string()),
            },
        ],
    }
}

#[test]
fn a_contributed_type_is_resolved_by_its_own_answer() {
    let types = with_map();
    assert_eq!(find_type("acme.map", &types), Some(CONTRIBUTED));
    assert_eq!(find_type("acme.map", &builtin()), None);
    assert_eq!(find_type("text", &types), Some(TEXT));
    let raw = written("{\"zoom\":3}");
    let opts = CONTRIBUTED.resolve_options("acme.map", Some(&raw), &types, &vec![]).ok().unwrap();
    assert!(matches!(CONTRIBUTED.intrinsic_rules(&opts)[..], [Rule::Numeric]));
    assert_eq!(CONTRIBUTED.assets(&opts), ["acme/map.js"]);
    assert_eq!(CONTRIBUTED.chrome(&opts), Chrome::Bare);
    match vm(CONTRIBUTED, "place", &FieldValue::Text("1,2".to_string()), &opts) {
        FieldVm::Leaf(leaf) => {
            assert_eq!(leaf.view_key, "acme.map");
            assert_eq!(leaf.value, "1,2");
            assert!(
                matches!(leaf.data, LeafData::Contributed(Some(o)) if o == "{\"zoom\":3}")
            );
        }
        other => panic!("a leaf, got {other:?}"),
    }
    let raw = written("{\"zoom\":\"far\"}");
    let e = CONTRIBUTED.resolve_options("acme.map", Some(&raw), &types, &vec![]).err().unwrap();
    assert_eq!(e.0, "zoom is a number");
    let opts = CONTRIBUTED.resolve_options("acme.map", None, &types, &vec![]).ok().unwrap();
    assert!(CONTRIBUTED.intrinsic_rules(&opts).is_empty());
    assert_eq!(CONTRIBUTED.chrome(&opts), Chrome::Wrapped);
}

#[test]
fn a_contributed_type_says_what_is_stored() {
    let types = with_map();
    let opts = CONTRIBUTED.resolve_options("acme.map", None, &types, &vec![]).ok().unwrap();
    let data = submitted(&[("place", "1,2")]);
    let field = SubmittedField::new("place", &data);
    let asked = CONTRIBUTED.asked(&field, &opts);
    assert_eq!(asked.len(), 1);
    assert_eq!((asked[0].name.as_str(), asked[0].field_type.as_str()), ("place", "acme.map"));
    assert_eq!(asked[0].value.as_deref(), Some("1,2"));
    let answered = |outcome| Answers {
        hashed: vec![],
        stored: vec![StoredAnswer { name: "place".to_string(), outcome }],
    };
    let store = |answers: &Answers| CONTRIBUTED.to_attr(&field, &opts, Mode::Create, answers);
    assert!(matches!(
        store(&answered(Ok(Some(Scalar::Int(12))))),
        Ok(Some(AttrValue::Int(12)))
    ));
    assert!(matches!(store(&answered(Ok(None))), Ok(None)));
    assert!(matches!(store(&answered(Err("no".to_string()))), Err(e) if e == "no"));
    assert!(matches!(store(&unasked()), Ok(Some(AttrValue::Text(t))) if t == "1,2"));
}

#[test]
fn a_repeater_holds_a_contributed_type() {
    let types = with_map();
    let raw = repeater(vec![sub("at", "At", "acme.map")], 0, None);
    let opts = FieldKind::Repeater
        .resolve_options("repeater", Some(&raw), &types, &vec![])
        .ok()
        .unwrap();
    let data = submitted(&[("rules[0][at]", "1,2"), ("rules[4][at]", "3,4")]);
    let field = SubmittedField::new("rules", &data);
    let asked = FieldKind::Repeater.asked(&field, &opts);
    let names: Vec<&str> = asked.iter().map(|a| a.name.as_str()).collect();
    assert_eq!(names, ["rules[0][at]", "rules[4][at]"]);
    let answers = Answers {
        hashed: vec![],
        stored: vec![StoredAnswer {
            name: "rules[4][at]".to_string(),
            outcome: Ok(Some(Scalar::Int(7))),
        }],
    };
    match FieldKind::Repeater.to_attr(&field, &opts, Mode::Create, &answers) {
        Ok(Some(AttrValue::Rows(rows))) => {
            assert!(matches!(cell(&rows[0], "at"), Scalar::Text(t) if t == "1,2"));
            assert!(matches!(cell(&rows[1], "at"), Scalar::Int(7)));
        }
        other => panic!("rows, got {other:?}"),
    }
}
