//! Descriptor-driven create and edit forms.
//!
//! A [`FormConfig`] describes a table and its editable fields. Its fields are
//! resolved once, at boot; a submission is validated, turned into a record by the
//! field types, and handed to a persister. A failure shows the form again with
//! per-field messages instead of writing.

use vstd::prelude::*;
use vstd::string::StringExecFns;

use crate::assets::{page_asset_models, page_assets, AdminAsset, AssetModel, PageAsset, PageAssetModel};
use crate::attr::{bare_record, messages_of, put, AttrModel, ErrorBag, Record, RecordModel};
use crate::contributed::{
    type_made, Answers, AnswersModel, Asked, AskedModel, FieldTypes, FieldTypesModel,
};
use crate::field::{
    copy_rules, intrinsic, LeafKind, LeafOptions, LeafOptionsModel, Mode, OptionsError, Rule, SelectOption,
    SubmittedField,
};
use crate::field_view::{
    attr_stored, control_shown, field_asked, field_secrets, field_vm, find_type, kind_assets, kind_in, kind_of,
    leaf_part, options_resolved, FieldCx, FieldKind, FieldOptions, FieldOptionsModel, FieldValue,
    FieldValueModel, FieldVm, FieldVmModel, OptionsModel, ResolvedOptions,
};
use crate::nums::{decimal_int, i64_text};
use crate::persist::{
    DefaultPersister, PersisterModel, SaveError, SaveErrorModel,
};
use crate::repeater::{RepeaterRaw, RepeaterRawModel, SubField};
use crate::sql::{is_ident, valid_ident};
use crate::strs::{cat, cat3, cat4, listed, same};
use crate::statements::{read_row, row_read, select_text, Backend, Statement};
use crate::text::{localized, plain, Text, TextModel, Translator};

verus! {

// ---------------------------------------------------------------- descriptors
/// One editable field: the column, its label, its field-type key, that type's
/// options, the validation rules it carries, and whether it holds translatable
/// content.
pub struct FormField {
    pub name: String,
    pub label: Text,
    pub field_type: String,
    pub options: Option<FieldOptions>,
    pub rules: Vec<Rule>,
    pub translatable: bool,
    /// Help shown beneath the control on a settings screen.
    pub help: Option<Text>,
}

/// A [`FormField`], over characters.
pub struct FormFieldModel {
    pub name: Seq<char>,
    pub label: TextModel,
    pub field_type: Seq<char>,
    pub options: Option<FieldOptionsModel>,
    pub rules: Seq<Rule>,
    pub translatable: bool,
    pub help: Option<TextModel>,
}

impl DeepView for FormField {
    type V = FormFieldModel;

    open spec fn deep_view(&self) -> FormFieldModel {
        FormFieldModel {
            name: self.name@,
            label: self.label@,
            field_type: self.field_type@,
            options: self.options.deep_view(),
            rules: self.rules@,
            translatable: self.translatable,
            help: self.help.deep_view(),
        }
    }
}

/// A field of a type, with nothing set.
pub open spec fn field_of(
    name: Seq<char>,
    label: TextModel,
    field_type: Seq<char>,
) -> FormFieldModel {
    FormFieldModel {
        name,
        label,
        field_type,
        options: None,
        rules: Seq::empty(),
        translatable: false,
        help: None,
    }
}

/// A field with one more rule.
pub open spec fn ruled(f: FormFieldModel, rule: Rule) -> FormFieldModel {
    FormFieldModel { rules: f.rules.push(rule), ..f }
}

impl FormField {
    /// A field of a registered type by key.
    pub fn of(name: &str, label: Text, field_type: &str) -> (r: Self)
        ensures
            r.deep_view() == field_of(name@, label@, field_type@),
    {
        FormField {
            name: name.to_owned(),
            label,
            field_type: field_type.to_owned(),
            options: None,
            rules: Vec::new(),
            translatable: false,
            help: None,
        }
    }

    pub fn text(name: &str, label: &str) -> (r: Self)
        ensures
            r.deep_view() == field_of(name@, plain(label@), "text"@),
    {
        FormField::of(name, Text::new(label), "text")
    }

    pub fn textarea(name: &str, label: &str) -> (r: Self)
        ensures
            r.deep_view() == field_of(name@, plain(label@), "textarea"@),
    {
        FormField::of(name, Text::new(label), "textarea")
    }

    /// A reference field: a picker over a registered picker source.
    pub fn reference(name: &str, label: &str, source: &str) -> (r: Self)
        ensures
            r.deep_view() == (FormFieldModel {
                options: Some(
                    FieldOptionsModel {
                        leaf: LeafOptionsModel {
                            source: Some(source@),
                            ..crate::field::no_leaf_options()
                        },
                        repeater: None,
                    },
                ),
                ..field_of(name@, plain(label@), "reference"@)
            }),
    {
        let mut leaf: LeafOptions = LeafOptions::none();
        leaf.source = Some(source.to_owned());
        FormField::of(name, Text::new(label), "reference").options(
            FieldOptions { leaf, repeater: None },
        )
    }

    /// Sets the field type's options (the type reads them at boot).
    pub fn options(self, options: FieldOptions) -> (r: Self)
        ensures
            r.deep_view() == (FormFieldModel {
                options: Some(options.deep_view()),
                ..self.deep_view()
            }),
    {
        FormField {
            name: self.name,
            label: self.label,
            field_type: self.field_type,
            options: Some(options),
            rules: self.rules,
            translatable: self.translatable,
            help: self.help,
        }
    }

    /// Adds a rule.
    fn rule(self, rule: Rule) -> (r: Self)
        ensures
            r.deep_view() == ruled(self.deep_view(), rule),
    {
        let mut rules: Vec<Rule> = self.rules;
        rules.push(rule);
        FormField {
            name: self.name,
            label: self.label,
            field_type: self.field_type,
            options: self.options,
            rules,
            translatable: self.translatable,
            help: self.help,
        }
    }

    /// Requires a non-empty value in every mode.
    pub fn required(self) -> (r: Self)
        ensures
            r.deep_view() == ruled(self.deep_view(), Rule::Required),
    {
        self.rule(Rule::Required)
    }

    /// Requires a non-empty value in one mode only.
    pub fn required_on(self, mode: Mode) -> (r: Self)
        ensures
            r.deep_view() == ruled(self.deep_view(), Rule::RequiredOn(mode)),
    {
        self.rule(Rule::RequiredOn(mode))
    }

    /// Requires the value to be unique in this field's column.
    pub fn unique(self) -> (r: Self)
        ensures
            r.deep_view() == ruled(self.deep_view(), Rule::Unique),
    {
        self.rule(Rule::Unique)
    }

    /// Caps the value's length.
    pub fn max_length(self, n: usize) -> (r: Self)
        ensures
            r.deep_view() == ruled(self.deep_view(), Rule::MaxLength(n)),
    {
        self.rule(Rule::MaxLength(n))
    }

    /// Requires at least `n` characters when the value is non-empty.
    pub fn min_length(self, n: usize) -> (r: Self)
        ensures
            r.deep_view() == ruled(self.deep_view(), Rule::MinLength(n)),
    {
        self.rule(Rule::MinLength(n))
    }

    /// Requires a syntactically valid email address.
    pub fn email(self) -> (r: Self)
        ensures
            r.deep_view() == ruled(self.deep_view(), Rule::Email),
    {
        self.rule(Rule::Email)
    }

    /// Marks this field as translatable content.
    pub fn translatable(self) -> (r: Self)
        ensures
            r.deep_view() == (FormFieldModel { translatable: true, ..self.deep_view() }),
    {
        FormField {
            name: self.name,
            label: self.label,
            field_type: self.field_type,
            options: self.options,
            rules: self.rules,
            translatable: true,
            help: self.help,
        }
    }

    /// Sets the help shown beneath the control.
    pub fn help(self, text: &str) -> (r: Self)
        ensures
            r.deep_view() == (FormFieldModel { help: Some(plain(text@)), ..self.deep_view() }),
    {
        FormField {
            name: self.name,
            label: self.label,
            field_type: self.field_type,
            options: self.options,
            rules: self.rules,
            translatable: self.translatable,
            help: Some(Text::new(text)),
        }
    }

    /// A boolean toggle.
    pub fn switch(name: &str, label: &str) -> (r: Self)
        ensures
            r.deep_view() == field_of(name@, plain(label@), "switch"@),
    {
        FormField::of(name, Text::new(label), "switch")
    }

    /// A calendar date.
    pub fn date(name: &str, label: &str) -> (r: Self)
        ensures
            r.deep_view() == field_of(name@, plain(label@), "date"@),
    {
        FormField::of(name, Text::new(label), "date")
    }

    /// A dropdown over a fixed option list.
    pub fn select(name: &str, label: &str, options: Vec<SelectOption>) -> (r: Self)
        ensures
            r.deep_view() == (FormFieldModel {
                options: Some(
                    FieldOptionsModel {
                        leaf: LeafOptionsModel {
                            options: options.deep_view(),
                            ..crate::field::no_leaf_options()
                        },
                        repeater: None,
                    },
                ),
                ..field_of(name@, plain(label@), "select"@)
            }),
    {
        let mut leaf: LeafOptions = LeafOptions::none();
        leaf.options = options;
        FormField::of(name, Text::new(label), "select").options(
            FieldOptions { leaf, repeater: None },
        )
    }

    /// A list of rows, each made of the given fields.
    pub fn repeater(name: &str, label: &str, fields: Vec<SubField>) -> (r: Self)
        ensures
            r.deep_view() == (FormFieldModel {
                options: Some(
                    FieldOptionsModel {
                        leaf: crate::field::no_leaf_options(),
                        repeater: Some(
                            RepeaterRawModel {
                                fields: fields.deep_view(),
                                min_items: 0,
                                max_items: None,
                            },
                        ),
                    },
                ),
                ..field_of(name@, plain(label@), "repeater"@)
            }),
    {
        FormField::of(name, Text::new(label), "repeater").options(
            FieldOptions {
                leaf: LeafOptions::none(),
                repeater: Some(RepeaterRaw { fields, min_items: 0, max_items: None }),
            },
        )
    }
}

/// A form descriptor: which table, its editable fields, the id column, and the
/// base path the form lives under (`{base_path}/new`, `{base_path}/{id}/edit`).
pub struct FormConfig {
    pub entity: String,
    pub title: Text,
    pub base_path: String,
    pub id_field: String,
    pub fields: Vec<FormField>,
    /// The registered persister that writes this form (a dotted `vendor.name`),
    /// or `None` for the built-in insert and update.
    pub persist: Option<String>,
}

/// A [`FormConfig`], over characters.
pub struct FormConfigModel {
    pub entity: Seq<char>,
    pub title: TextModel,
    pub base_path: Seq<char>,
    pub id_field: Seq<char>,
    pub fields: Seq<FormFieldModel>,
    pub persist: Option<Seq<char>>,
}

impl DeepView for FormConfig {
    type V = FormConfigModel;

    open spec fn deep_view(&self) -> FormConfigModel {
        FormConfigModel {
            entity: self.entity@,
            title: self.title@,
            base_path: self.base_path@,
            id_field: self.id_field@,
            fields: self.fields.deep_view(),
            persist: self.persist.deep_view(),
        }
    }
}

/// Whether everything a form names in a query is an identifier.
pub open spec fn form_idents_ok(config: FormConfigModel) -> bool {
    &&& is_ident(config.entity)
    &&& is_ident(config.id_field)
    &&& forall|i: int| 0 <= i < config.fields.len() ==> is_ident((#[trigger] config.fields[i]).name)
}

impl FormConfig {
    /// Whether everything the form names in a query is an identifier.
    pub fn idents_valid(&self) -> (r: bool)
        ensures
            r == form_idents_ok(self.deep_view()),
    {
        if !valid_ident(self.entity.as_str()) || !valid_ident(self.id_field.as_str()) {
            return false;
        }
        let ghost all = self.fields.deep_view();
        let mut i: usize = 0;
        while i < self.fields.len()
            invariant
                i <= self.fields.len(),
                all == self.fields.deep_view(),
                forall|j: int| 0 <= j < i ==> is_ident((#[trigger] all[j]).name),
            decreases self.fields.len() - i,
        {
            assert(all[i as int].name == self.fields@[i as int].name@);
            if !valid_ident(self.fields[i].name.as_str()) {
                return false;
            }
            i = i + 1;
        }
        true
    }
}

// ------------------------------------------------------------------- preparing
/// One field's boot-resolved state: its type, its options and its merged rules
/// (the type's own ahead of the descriptor's).
pub struct PreparedField {
    pub kind: FieldKind,
    pub opts: ResolvedOptions,
    pub rules: Vec<Rule>,
}

/// A [`PreparedField`], over characters.
pub struct PreparedFieldModel {
    pub kind: FieldKind,
    pub opts: Option<OptionsModel>,
    pub rules: Seq<Rule>,
}

impl DeepView for PreparedField {
    type V = PreparedFieldModel;

    open spec fn deep_view(&self) -> PreparedFieldModel {
        PreparedFieldModel { kind: self.kind, opts: self.opts@, rules: self.rules@ }
    }
}

/// Who writes a form.
pub enum PersisterChoice {
    Default(DefaultPersister),
    Named(String),
}

/// A [`PersisterChoice`], over characters.
pub enum ChoiceModel {
    Default(PersisterModel),
    Named(Seq<char>),
}

impl DeepView for PersisterChoice {
    type V = ChoiceModel;

    open spec fn deep_view(&self) -> ChoiceModel {
        match self {
            PersisterChoice::Default(p) => ChoiceModel::Default(p.deep_view()),
            PersisterChoice::Named(n) => ChoiceModel::Named(n@),
        }
    }
}

/// A [`FormConfig`] with each field resolved once, so a malformed option or an
/// unregistered type stops the boot rather than degrading silently.
pub struct PreparedForm {
    pub config: FormConfig,
    /// One per field of the descriptor, in its order.
    pub fields: Vec<PreparedField>,
    pub persister: PersisterChoice,
}

/// A [`PreparedForm`], over characters.
pub struct PreparedModel {
    pub config: FormConfigModel,
    pub fields: Seq<PreparedFieldModel>,
    pub persister: ChoiceModel,
}

impl DeepView for PreparedForm {
    type V = PreparedModel;

    open spec fn deep_view(&self) -> PreparedModel {
        PreparedModel {
            config: self.config.deep_view(),
            fields: self.fields.deep_view(),
            persister: self.persister.deep_view(),
        }
    }
}

/// The rules a field type always contributes.
pub open spec fn kind_rules(kind: FieldKind, opts: Option<OptionsModel>) -> Seq<Rule> {
    match kind {
        FieldKind::Leaf(k) => intrinsic(k, leaf_part(opts)),
        FieldKind::Repeater => Seq::empty(),
    }
}

/// What one field resolves to.
pub open spec fn field_prepared(
    f: FormFieldModel,
    types: FieldTypesModel,
    pickers: Seq<Seq<char>>,
) -> Result<PreparedFieldModel, Seq<char>> {
    match kind_in(f.field_type, types) {
        None => Err("field `"@ + f.name + "` uses unregistered type `"@ + f.field_type + "`"@),
        Some(kind) => match options_resolved(kind, f.field_type, f.options, types, pickers) {
            Err(e) => Err(
                "field `"@ + f.name + "` (`"@ + f.field_type + "`): invalid field options: "@ + e,
            ),
            Ok(opts) => Ok(
                PreparedFieldModel { kind, opts, rules: kind_rules(kind, opts) + f.rules },
            ),
        },
    }
}

/// A form takes a field of every registered type whose options the type takes, with the
/// type's rules ahead of the field's own.
pub proof fn law_a_registered_type_is_taken(
    f: FormFieldModel,
    types: FieldTypesModel,
    pickers: Seq<Seq<char>>,
)
    requires
        types.names.contains(f.field_type),
        kind_of(f.field_type) is None,
        type_made(types.answers, f.field_type, written_of(f.options)) is Ok,
    ensures
        field_prepared(f, types, pickers) matches Ok(p) && p.kind == FieldKind::Leaf(
            LeafKind::Contributed,
        ) && p.rules == type_made(types.answers, f.field_type, written_of(f.options))->Ok_0.rules
            + f.rules,
{
}

/// A field's options as they were written.
pub open spec fn written_of(options: Option<FieldOptionsModel>) -> Option<Seq<char>> {
    match options {
        Some(o) => o.leaf.written,
        None => None,
    }
}

/// What the fields resolve to: the first refusal where there is one.
pub open spec fn fields_prepared(
    fields: Seq<FormFieldModel>,
    types: FieldTypesModel,
    pickers: Seq<Seq<char>>,
) -> Result<Seq<PreparedFieldModel>, Seq<char>>
    decreases fields.len(),
{
    if fields.len() == 0 {
        Ok(Seq::empty())
    } else {
        match fields_prepared(fields.drop_last(), types, pickers) {
            Err(e) => Err(e),
            Ok(done) => match field_prepared(fields.last(), types, pickers) {
                Err(e) => Err(e),
                Ok(f) => Ok(done.push(f)),
            },
        }
    }
}

/// A refusal among the first fields is the refusal of them all.
proof fn lemma_fields_refused(
    fields: Seq<FormFieldModel>,
    types: FieldTypesModel,
    pickers: Seq<Seq<char>>,
    n: int,
)
    requires
        0 <= n <= fields.len(),
        fields_prepared(fields.take(n), types, pickers) is Err,
    ensures
        fields_prepared(fields, types, pickers) == fields_prepared(
            fields.take(n),
            types,
            pickers,
        ),
    decreases fields.len() - n,
{
    if n == fields.len() {
        assert(fields.take(n) =~= fields);
    } else {
        assert(fields.take(n + 1).drop_last() =~= fields.take(n));
        lemma_fields_refused(fields, types, pickers, n + 1);
    }
}

/// There is one resolved field per field of the descriptor.
proof fn lemma_prepared_len(
    fields: Seq<FormFieldModel>,
    types: FieldTypesModel,
    pickers: Seq<Seq<char>>,
)
    ensures
        fields_prepared(fields, types, pickers) matches Ok(done) ==> done.len() == fields.len(),
    decreases fields.len(),
{
    if fields.len() > 0 {
        lemma_prepared_len(fields.drop_last(), types, pickers);
    }
}

/// What a form resolves to.
pub open spec fn form_prepared(
    config: FormConfigModel,
    types: FieldTypesModel,
    pickers: Seq<Seq<char>>,
    persisters: Seq<Seq<char>>,
) -> Result<PreparedModel, Seq<char>> {
    match fields_prepared(config.fields, types, pickers) {
        Err(e) => Err(e),
        Ok(fields) => match config.persist {
            None => Ok(
                PreparedModel {
                    config,
                    fields,
                    persister: ChoiceModel::Default(
                        PersisterModel {
                            entity: config.entity,
                            id_field: config.id_field,
                            columns: config.fields.map_values(|f: FormFieldModel| f.name),
                        },
                    ),
                },
            ),
            Some(key) => if persisters.contains(key) {
                Ok(PreparedModel { config, fields, persister: ChoiceModel::Named(key) })
            } else {
                Err("form names unregistered persister `"@ + key + "`"@)
            },
        },
    }
}

/// The refusal of a field of an unregistered type.
fn unregistered(name: &str, field_type: &str) -> (r: String)
    ensures
        r@ == "field `"@ + name@ + "` uses unregistered type `"@ + field_type@ + "`"@,
{
    let mut r: String = cat4("field `", name, "` uses unregistered type `", field_type);
    r.append("`");
    r
}

/// The refusal of a field's options.
fn bad_options(name: &str, field_type: &str, e: &OptionsError) -> (r: String)
    ensures
        r@ == "field `"@ + name@ + "` (`"@ + field_type@ + "`): invalid field options: "@ + e.0@,
{
    let mut r: String = cat4("field `", name, "` (`", field_type);
    r.append("`): invalid field options: ");
    r.append(e.0.as_str());
    r
}

impl PreparedForm {
    /// Resolves every field against the field types. Gives the offending field
    /// and the reason where a type is unregistered or refuses its options.
    pub fn prepare(
        config: FormConfig,
        types: &FieldTypes,
        pickers: &Vec<String>,
        persisters: &Vec<String>,
    ) -> (r: Result<PreparedForm, String>)
        ensures
            match form_prepared(
                config.deep_view(),
                types@,
                pickers.deep_view(),
                persisters.deep_view(),
            ) {
                Ok(m) => r is Ok && (r->Ok_0).deep_view() == m && (r->Ok_0).wf(),
                Err(e) => r is Err && (r->Err_0)@ == e,
            },
    {
        let ghost all = config.fields.deep_view();
        let ghost known = pickers.deep_view();
        let mut fields: Vec<PreparedField> = Vec::new();
        let mut i: usize = 0;
        assert(fields.deep_view() =~= Seq::<PreparedFieldModel>::empty());
        while i < config.fields.len()
            invariant
                i <= config.fields.len(),
                all == config.fields.deep_view(),
                known == pickers.deep_view(),
                fields_prepared(all.take(i as int), types@, known) == Ok::<
                    Seq<PreparedFieldModel>,
                    Seq<char>,
                >(fields.deep_view()),
            decreases config.fields.len() - i,
        {
            let f: &FormField = &config.fields[i];
            let ghost before = fields.deep_view();
            assert(all.take(i + 1).drop_last() =~= all.take(i as int));
            assert(all.take(i + 1).last() == f.deep_view());
            let kind: FieldKind = match find_type(f.field_type.as_str(), types) {
                Some(k) => k,
                None => {
                    proof {
                        lemma_fields_refused(all, types@, known, i + 1);
                    }
                    return Err(unregistered(f.name.as_str(), f.field_type.as_str()));
                },
            };
            let opts: ResolvedOptions = match kind.resolve_options(
                f.field_type.as_str(),
                f.options.as_ref(),
                types,
                pickers,
            ) {
                Ok(o) => o,
                Err(e) => {
                    proof {
                        lemma_fields_refused(all, types@, known, i + 1);
                    }
                    return Err(bad_options(f.name.as_str(), f.field_type.as_str(), &e));
                },
            };
            let mut rules: Vec<Rule> = kind.intrinsic_rules(&opts);
            let mut own: Vec<Rule> = copy_rules(&f.rules);
            let ghost merged = rules@ + own@;
            rules.append(&mut own);
            assert(rules@ =~= merged);
            let done: PreparedField = PreparedField { kind, opts, rules };
            let ghost w = done.deep_view();
            fields.push(done);
            assert(fields.deep_view() =~= before.push(w));
            i = i + 1;
        }
        assert(all.take(all.len() as int) =~= all);
        proof {
            lemma_prepared_len(all, types@, known);
        }
        let persister: PersisterChoice = match &config.persist {
            Some(key) => if listed(persisters, key.as_str()) {
                PersisterChoice::Named(key.clone())
            } else {
                return Err(cat3("form names unregistered persister `", key.as_str(), "`"));
            },
            None => PersisterChoice::Default(DefaultPersister::from_config(&config)),
        };
        Ok(PreparedForm { config, fields, persister })
    }

    /// There is one resolved field per field of the descriptor.
    pub open spec fn wf(&self) -> bool {
        self.fields.len() == self.config.fields.len()
    }
}

/// One field's rules as validation takes them.
pub struct FieldRules {
    pub name: String,
    pub label: String,
    pub rules: Vec<Rule>,
}

/// [`FieldRules`], over characters.
pub struct FieldRulesModel {
    pub name: Seq<char>,
    pub label: Seq<char>,
    pub rules: Seq<Rule>,
}

impl DeepView for FieldRules {
    type V = FieldRulesModel;

    open spec fn deep_view(&self) -> FieldRulesModel {
        FieldRulesModel { name: self.name@, label: self.label@, rules: self.rules@ }
    }
}

/// The merged validation rules for every field, in order.
pub open spec fn merged_rules(form: PreparedModel) -> Seq<FieldRulesModel> {
    Seq::new(
        form.fields.len(),
        |i: int|
            FieldRulesModel {
                name: form.config.fields[i].name,
                label: form.config.fields[i].label.source,
                rules: form.fields[i].rules,
            },
    )
}

/// The merged validation rules for every field, in order. Each carries the
/// label's source string, which the message localizes like any other label.
pub fn merged_field_rules(form: &PreparedForm) -> (r: Vec<FieldRules>)
    requires
        form.wf(),
    ensures
        r.deep_view() == merged_rules(form.deep_view()),
{
    let ghost m = form.deep_view();
    let mut r: Vec<FieldRules> = Vec::new();
    let mut i: usize = 0;
    while i < form.fields.len()
        invariant
            form.wf(),
            m == form.deep_view(),
            i <= form.fields.len(),
            r.len() == i,
            forall|j: int|
                0 <= j < i ==> #[trigger] r@[j].deep_view() == (FieldRulesModel {
                    name: m.config.fields[j].name,
                    label: m.config.fields[j].label.source,
                    rules: m.fields[j].rules,
                }),
        decreases form.fields.len() - i,
    {
        assert(m.config.fields[i as int] == form.config.fields@[i as int].deep_view());
        assert(m.fields[i as int] == form.fields@[i as int].deep_view());
        r.push(
            FieldRules {
                name: form.config.fields[i].name.clone(),
                label: form.config.fields[i].label.source().to_owned(),
                rules: copy_rules(&form.fields[i].rules),
            },
        );
        i = i + 1;
    }
    assert(r.deep_view() =~= merged_rules(m));
    r
}

/// Whether a rule marks the field required.
pub open spec fn requires_value(rule: Rule) -> bool {
    rule == Rule::Required || rule is RequiredOn
}

/// Whether any rule marks the field required.
pub open spec fn required_by(rules: Seq<Rule>) -> bool {
    exists|i: int| 0 <= i < rules.len() && requires_value(#[trigger] rules[i])
}

/// Whether any rule marks the field required.
pub fn has_required(rules: &Vec<Rule>) -> (r: bool)
    ensures
        r == required_by(rules@),
{
    let mut i: usize = 0;
    while i < rules.len()
        invariant
            i <= rules.len(),
            forall|j: int| 0 <= j < i ==> !requires_value(#[trigger] rules@[j]),
        decreases rules.len() - i,
    {
        let mark: bool = match rules[i] {
            Rule::Required => true,
            Rule::RequiredOn(_) => true,
            _ => false,
        };
        if mark {
            assert(requires_value(rules@[i as int]));
            return true;
        }
        i = i + 1;
    }
    false
}

// -------------------------------------------------------------------- building
/// One field as the form template renders it. The framework owns the chrome
/// around the control.
pub struct FieldView {
    pub id: String,
    pub label: String,
    pub control: FieldVm,
    pub required: bool,
    pub errors: Vec<String>,
}

/// A [`FieldView`], over characters.
pub struct FieldViewModel {
    pub id: Seq<char>,
    pub label: Seq<char>,
    pub control: FieldVmModel,
    pub required: bool,
    pub errors: Seq<Seq<char>>,
}

impl DeepView for FieldView {
    type V = FieldViewModel;

    open spec fn deep_view(&self) -> FieldViewModel {
        FieldViewModel {
            id: self.id@,
            label: self.label@,
            control: self.control.deep_view(),
            required: self.required,
            errors: self.errors.deep_view(),
        }
    }
}

/// The form as its template renders it.
pub struct FormView {
    pub title: String,
    pub action: String,
    pub cancel_path: String,
    pub error: Option<String>,
    pub fields: Vec<FieldView>,
    pub assets: Vec<PageAsset>,
}

/// A [`FormView`], over characters.
pub struct FormViewModel {
    pub title: Seq<char>,
    pub action: Seq<char>,
    pub cancel_path: Seq<char>,
    pub error: Option<Seq<char>>,
    pub fields: Seq<FieldViewModel>,
    pub assets: Seq<PageAssetModel>,
}

impl DeepView for FormView {
    type V = FormViewModel;

    open spec fn deep_view(&self) -> FormViewModel {
        FormViewModel {
            title: self.title@,
            action: self.action@,
            cancel_path: self.cancel_path@,
            error: self.error.deep_view(),
            fields: self.fields.deep_view(),
            assets: self.assets.deep_view(),
        }
    }
}

/// The value a form shows for a field: the last one given under its name, empty
/// text where none is.
pub open spec fn value_for(
    values: Seq<(Seq<char>, FieldValueModel)>,
    name: Seq<char>,
) -> FieldValueModel
    decreases values.len(),
{
    if values.len() == 0 {
        FieldValueModel::Text(Seq::empty())
    } else if values.last().0 == name {
        values.last().1
    } else {
        value_for(values.drop_last(), name)
    }
}

/// Where the last value given under a name stands.
fn find_value_for(values: &Vec<(String, FieldValue)>, name: &str) -> (r: Option<usize>)
    ensures
        match r {
            Some(i) => i < values.len() && value_for(values.deep_view(), name@)
                == values@[i as int].1.deep_view(),
            None => value_for(values.deep_view(), name@) == FieldValueModel::Text(Seq::empty()),
        },
{
    let ghost all = values.deep_view();
    let mut k: usize = values.len();
    assert(all.take(all.len() as int) =~= all);
    while k > 0
        invariant
            k <= values.len(),
            all == values.deep_view(),
            value_for(all, name@) == value_for(all.take(k as int), name@),
        decreases k,
    {
        assert(all.take(k as int).drop_last() =~= all.take(k - 1));
        assert(all[k - 1] == values@[k - 1].deep_view());
        if same(values[k - 1].0.as_str(), name) {
            return Some(k - 1);
        }
        k = k - 1;
    }
    None
}

/// Some messages in the operator's language.
pub open spec fn all_localized(
    table: Seq<(Seq<char>, Seq<char>)>,
    messages: Seq<TextModel>,
) -> Seq<Seq<char>> {
    messages.map_values(|m: TextModel| localized(table, m))
}

/// Some messages in the operator's language.
pub fn localize_all(tr: &Translator, messages: &Vec<Text>) -> (r: Vec<String>)
    ensures
        r.deep_view() == all_localized(tr@, messages.deep_view()),
{
    let ghost all = messages.deep_view();
    let mut r: Vec<String> = Vec::new();
    let mut i: usize = 0;
    while i < messages.len()
        invariant
            i <= messages.len(),
            all == messages.deep_view(),
            r.len() == i,
            forall|j: int| 0 <= j < i ==> #[trigger] r@[j]@ == localized(tr@, all[j]),
        decreases messages.len() - i,
    {
        assert(all[i as int] == messages@[i as int]@);
        r.push(tr.t(&messages[i]));
        i = i + 1;
    }
    assert(r.deep_view() =~= all_localized(tr@, all));
    r
}

/// One field of the form. Its label is localized once: the field type sees it and
/// the chrome renders it.
pub open spec fn field_view(
    f: FormFieldModel,
    p: PreparedFieldModel,
    values: Seq<(Seq<char>, FieldValueModel)>,
    bag: Seq<(Seq<char>, TextModel)>,
    table: Seq<(Seq<char>, Seq<char>)>,
    base: Seq<char>,
) -> FieldViewModel {
    let label = localized(table, f.label);
    let required = required_by(p.rules);
    FieldViewModel {
        id: f.name,
        label,
        control: field_vm(
            p.kind,
            f.name,
            f.name,
            label,
            required,
            value_for(values, f.name),
            p.opts,
            base,
        ),
        required,
        errors: all_localized(table, messages_of(bag, f.name)),
    }
}

/// The widget assets the form's field types declare, in field order.
pub open spec fn form_asset_keys(fields: Seq<PreparedFieldModel>) -> Seq<Seq<char>>
    decreases fields.len(),
{
    if fields.len() == 0 {
        Seq::empty()
    } else {
        form_asset_keys(fields.drop_last()) + kind_assets(fields.last().kind, fields.last().opts)
    }
}

/// The form as its template renders it.
pub open spec fn form_view(
    form: PreparedModel,
    action: Seq<char>,
    error: Option<TextModel>,
    values: Seq<(Seq<char>, FieldValueModel)>,
    bag: Seq<(Seq<char>, TextModel)>,
    table: Seq<(Seq<char>, Seq<char>)>,
    base: Seq<char>,
    registry: Seq<AssetModel>,
    urls: Seq<(Seq<char>, Seq<char>)>,
) -> FormViewModel {
    FormViewModel {
        title: localized(table, form.config.title),
        action,
        cancel_path: form.config.base_path,
        error: match error {
            Some(m) => Some(localized(table, m)),
            None => None,
        },
        fields: Seq::new(
            form.fields.len(),
            |i: int|
                field_view(form.config.fields[i], form.fields[i], values, bag, table, base),
        ),
        assets: page_asset_models(form_asset_keys(form.fields), base, registry, urls),
    }
}

/// The widget assets the form's field types declare.
fn collect_asset_keys(fields: &Vec<PreparedField>) -> (r: Vec<String>)
    ensures
        r.deep_view() == form_asset_keys(fields.deep_view()),
{
    let ghost all = fields.deep_view();
    let mut r: Vec<String> = Vec::new();
    let mut i: usize = 0;
    assert(r.deep_view() =~= form_asset_keys(all.take(0)));
    while i < fields.len()
        invariant
            i <= fields.len(),
            all == fields.deep_view(),
            r.deep_view() == form_asset_keys(all.take(i as int)),
        decreases fields.len() - i,
    {
        let ghost before = r.deep_view();
        assert(all.take(i + 1).drop_last() =~= all.take(i as int));
        assert(all.take(i + 1).last() == fields@[i as int].deep_view());
        let mut more: Vec<String> = fields[i].kind.assets(&fields[i].opts);
        let ghost m = more.deep_view();
        r.append(&mut more);
        assert(r.deep_view() =~= before + m);
        i = i + 1;
    }
    assert(all.take(all.len() as int) =~= all);
    r
}

/// Builds the form: every field with its value and messages, and the assets the
/// rendered field types declare, each once.
pub fn build(
    form: &PreparedForm,
    action: &str,
    error: Option<&Text>,
    values: &Vec<(String, FieldValue)>,
    bag: &ErrorBag,
    tr: &Translator,
    base: &str,
    registry: &Vec<AdminAsset>,
    urls: &Vec<(String, String)>,
) -> (r: FormView)
    requires
        form.wf(),
    ensures
        r.deep_view() == form_view(
            form.deep_view(),
            action@,
            match error {
                Some(e) => Some(e@),
                None => None,
            },
            values.deep_view(),
            bag@,
            tr@,
            base@,
            registry.deep_view(),
            urls.deep_view(),
        ),
{
    let ghost m = form.deep_view();
    let ghost given = values.deep_view();
    let blank: FieldValue = FieldValue::Text(String::new());
    let mut fields: Vec<FieldView> = Vec::new();
    let mut i: usize = 0;
    while i < form.fields.len()
        invariant
            form.wf(),
            m == form.deep_view(),
            given == values.deep_view(),
            blank.deep_view() == FieldValueModel::Text(Seq::empty()),
            i <= form.fields.len(),
            fields.len() == i,
            forall|j: int|
                0 <= j < i ==> #[trigger] fields@[j].deep_view() == field_view(
                    m.config.fields[j],
                    m.fields[j],
                    given,
                    bag@,
                    tr@,
                    base@,
                ),
        decreases form.fields.len() - i,
    {
        let f: &FormField = &form.config.fields[i];
        let p: &PreparedField = &form.fields[i];
        assert(m.config.fields[i as int] == f.deep_view());
        assert(m.fields[i as int] == p.deep_view());
        let label: String = tr.t(&f.label);
        let required: bool = has_required(&p.rules);
        let value: &FieldValue = match find_value_for(values, f.name.as_str()) {
            Some(k) => &values[k].1,
            None => &blank,
        };
        let control: FieldVm = p.kind.view_model(
            &FieldCx {
                name: f.name.as_str(),
                id: f.name.as_str(),
                label: label.as_str(),
                value,
                required,
                opts: &p.opts,
                base,
            },
        );
        let errors: Vec<String> = localize_all(tr, &bag.messages(f.name.as_str()));
        fields.push(FieldView { id: f.name.clone(), label, control, required, errors });
        i = i + 1;
    }
    let keys: Vec<String> = collect_asset_keys(&form.fields);
    let banner: Option<String> = match error {
        Some(e) => Some(tr.t(e)),
        None => None,
    };
    let r: FormView = FormView {
        title: tr.t(&form.config.title),
        action: action.to_owned(),
        cancel_path: form.config.base_path.clone(),
        error: banner,
        fields,
        assets: page_assets(&keys, base, registry, urls),
    };
    assert(r.deep_view().fields =~= form_view(
        m,
        action@,
        match error {
            Some(e) => Some(e@),
            None => None,
        },
        given,
        bag@,
        tr@,
        base@,
        registry.deep_view(),
        urls.deep_view(),
    ).fields);
    r
}

// ---------------------------------------------------------------------- record
/// The attributes a submission comes to: only the descriptor's fields, each as
/// its field type stores it, or the first failure.
pub open spec fn submitted_attrs(
    form: PreparedModel,
    n: nat,
    data: Seq<(Seq<char>, Seq<char>)>,
    answers: AnswersModel,
) -> Result<Seq<(Seq<char>, AttrModel)>, Seq<char>>
    decreases n,
{
    if n == 0 {
        Ok(Seq::empty())
    } else {
        let i = n - 1;
        match submitted_attrs(form, (n - 1) as nat, data, answers) {
            Err(e) => Err(e),
            Ok(attrs) => match attr_stored(
                form.fields[i].kind,
                form.fields[i].opts,
                form.config.fields[i].name,
                data,
                answers,
            ) {
                Err(e) => Err(e),
                Ok(None) => Ok(attrs),
                Ok(Some(v)) => Ok(put(attrs, form.config.fields[i].name, v)),
            },
        }
    }
}

/// A failure among the first fields is the submission's.
proof fn lemma_submission_failed(
    form: PreparedModel,
    n: nat,
    m: nat,
    data: Seq<(Seq<char>, Seq<char>)>,
    answers: AnswersModel,
)
    requires
        n <= m,
        submitted_attrs(form, n, data, answers) is Err,
    ensures
        submitted_attrs(form, m, data, answers) == submitted_attrs(form, n, data, answers),
    decreases m - n,
{
    if n < m {
        lemma_submission_failed(form, n, (m - 1) as nat, data, answers);
    }
}

/// The record a submission comes to. Only the descriptor's fields reach it, so
/// nothing a request adds can reach a column the descriptor did not declare.
pub fn record_of(
    form: &PreparedForm,
    data: &Vec<(String, String)>,
    mode: Mode,
    answers: &Answers,
) -> (r: Result<Record, String>)
    requires
        form.wf(),
    ensures
        match submitted_attrs(
            form.deep_view(),
            form.fields.len() as nat,
            data.deep_view(),
            answers.deep_view(),
        ) {
            Ok(attrs) => r is Ok && (r->Ok_0)@ == (RecordModel {
                attrs,
                ..bare_record(form.deep_view().config.entity)
            }),
            Err(e) => r is Err && (r->Err_0)@ == e,
        },
{
    let ghost m = form.deep_view();
    let ghost given = data.deep_view();
    let ghost known = answers.deep_view();
    let mut rec: Record = Record::new(form.config.entity.as_str());
    let mut i: usize = 0;
    while i < form.fields.len()
        invariant
            form.wf(),
            m == form.deep_view(),
            given == data.deep_view(),
            known == answers.deep_view(),
            i <= form.fields.len(),
            rec@ == (RecordModel { attrs: rec@.attrs, ..bare_record(m.config.entity) }),
            submitted_attrs(m, i as nat, given, known) == Ok::<
                Seq<(Seq<char>, AttrModel)>,
                Seq<char>,
            >(rec@.attrs),
        decreases form.fields.len() - i,
    {
        let f: &FormField = &form.config.fields[i];
        let p: &PreparedField = &form.fields[i];
        assert(m.config.fields[i as int] == f.deep_view());
        assert(m.fields[i as int] == p.deep_view());
        let field: SubmittedField = SubmittedField::new(f.name.as_str(), data);
        match p.kind.to_attr(&field, &p.opts, mode, answers) {
            Err(e) => {
                proof {
                    lemma_submission_failed(
                        m,
                        (i + 1) as nat,
                        form.fields.len() as nat,
                        given,
                        known,
                    );
                }
                return Err(e);
            },
            Ok(Some(v)) => {
                rec.set(f.name.as_str(), v);
            },
            Ok(None) => {},
        }
        i = i + 1;
    }
    Ok(rec)
}

/// A submission reaches no column the descriptor did not declare.
pub proof fn law_only_declared_fields_are_stored(
    form: PreparedModel,
    n: nat,
    data: Seq<(Seq<char>, Seq<char>)>,
    answers: AnswersModel,
    key: Seq<char>,
)
    requires
        n <= form.config.fields.len(),
        forall|i: int| 0 <= i < n ==> (#[trigger] form.config.fields[i]).name != key,
    ensures
        submitted_attrs(form, n, data, answers) matches Ok(attrs) ==> crate::attr::held(attrs, key)
            is None,
    decreases n,
{
    if n > 0 {
        law_only_declared_fields_are_stored(form, (n - 1) as nat, data, answers, key);
        match submitted_attrs(form, (n - 1) as nat, data, answers) {
            Ok(attrs) => {
                let i = n - 1;
                match attr_stored(
                    form.fields[i].kind,
                    form.fields[i].opts,
                    form.config.fields[i].name,
                    data,
                    answers,
                ) {
                    Ok(Some(v)) => {
                        crate::attr::law_put_then_held(attrs, form.config.fields[i].name, v, key);
                    },
                    _ => {},
                }
            },
            Err(_) => {},
        }
    }
}

/// The texts a submission carries that have to be hashed before it can be stored.
pub open spec fn form_secrets(
    form: PreparedModel,
    n: nat,
    data: Seq<(Seq<char>, Seq<char>)>,
) -> Seq<Seq<char>>
    decreases n,
{
    if n == 0 {
        Seq::empty()
    } else {
        let i = n - 1;
        form_secrets(form, (n - 1) as nat, data) + field_secrets(
            form.fields[i].kind,
            form.fields[i].opts,
            form.config.fields[i].name,
            data,
        )
    }
}

/// The texts a submission carries that have to be hashed before it can be stored.
pub fn secrets_of(form: &PreparedForm, data: &Vec<(String, String)>) -> (r: Vec<String>)
    requires
        form.wf(),
    ensures
        r.deep_view() == form_secrets(
            form.deep_view(),
            form.fields.len() as nat,
            data.deep_view(),
        ),
{
    let ghost m = form.deep_view();
    let ghost given = data.deep_view();
    let mut r: Vec<String> = Vec::new();
    let mut i: usize = 0;
    assert(r.deep_view() =~= form_secrets(m, 0, given));
    while i < form.fields.len()
        invariant
            form.wf(),
            m == form.deep_view(),
            given == data.deep_view(),
            i <= form.fields.len(),
            r.deep_view() == form_secrets(m, i as nat, given),
        decreases form.fields.len() - i,
    {
        let f: &FormField = &form.config.fields[i];
        let p: &PreparedField = &form.fields[i];
        let ghost before = r.deep_view();
        assert(m.config.fields[i as int] == f.deep_view());
        assert(m.fields[i as int] == p.deep_view());
        let field: SubmittedField = SubmittedField::new(f.name.as_str(), data);
        let mut more: Vec<String> = p.kind.secrets(&field, &p.opts);
        let ghost w = more.deep_view();
        r.append(&mut more);
        assert(r.deep_view() =~= before + w);
        i = i + 1;
    }
    r
}

/// What the contributed types of a form are asked about a submission before it can be
/// stored.
pub open spec fn form_asked(
    form: PreparedModel,
    n: nat,
    data: Seq<(Seq<char>, Seq<char>)>,
) -> Seq<AskedModel>
    decreases n,
{
    if n == 0 {
        Seq::empty()
    } else {
        let i = n - 1;
        form_asked(form, (n - 1) as nat, data) + field_asked(
            form.fields[i].kind,
            form.fields[i].opts,
            form.config.fields[i].name,
            data,
        )
    }
}

/// What the contributed types of a form are asked about a submission before it can be
/// stored.
pub fn asked_of(form: &PreparedForm, data: &Vec<(String, String)>) -> (r: Vec<Asked>)
    requires
        form.wf(),
    ensures
        r.deep_view() == form_asked(
            form.deep_view(),
            form.fields.len() as nat,
            data.deep_view(),
        ),
{
    let ghost m = form.deep_view();
    let ghost given = data.deep_view();
    let mut r: Vec<Asked> = Vec::new();
    let mut i: usize = 0;
    assert(r.deep_view() =~= form_asked(m, 0, given));
    while i < form.fields.len()
        invariant
            form.wf(),
            m == form.deep_view(),
            given == data.deep_view(),
            i <= form.fields.len(),
            r.deep_view() == form_asked(m, i as nat, given),
        decreases form.fields.len() - i,
    {
        let f: &FormField = &form.config.fields[i];
        let p: &PreparedField = &form.fields[i];
        let ghost before = r.deep_view();
        assert(m.config.fields[i as int] == f.deep_view());
        assert(m.fields[i as int] == p.deep_view());
        let field: SubmittedField = SubmittedField::new(f.name.as_str(), data);
        let mut more: Vec<Asked> = p.kind.asked(&field, &p.opts);
        let ghost w = more.deep_view();
        r.append(&mut more);
        assert(r.deep_view() =~= before + w);
        i = i + 1;
    }
    r
}

// ----------------------------------------------------------------------- flows
/// What a form handler does next.
pub enum FormStep {
    /// Answer with the error page.
    ErrorPage,
    /// Answer that there is no such record.
    NotFound,
    /// Check the submission against the rules.
    Validate,
    /// Hand the record to the persister.
    Persist,
    /// Show the form again under `action` with a banner and per-field messages.
    Rerender { status: u16, action: String, banner: Option<Text>, bag: ErrorBag },
    /// Record the change in the audit log and go back to the list.
    Saved { audit_action: String, target_type: String, target_id: String, to: String },
}

/// A [`FormStep`], over characters.
pub enum FormStepModel {
    ErrorPage,
    NotFound,
    Validate,
    Persist,
    Rerender {
        status: u16,
        action: Seq<char>,
        banner: Option<TextModel>,
        bag: Seq<(Seq<char>, TextModel)>,
    },
    Saved {
        audit_action: Seq<char>,
        target_type: Seq<char>,
        target_id: Seq<char>,
        to: Seq<char>,
    },
}

impl DeepView for FormStep {
    type V = FormStepModel;

    open spec fn deep_view(&self) -> FormStepModel {
        match self {
            FormStep::ErrorPage => FormStepModel::ErrorPage,
            FormStep::NotFound => FormStepModel::NotFound,
            FormStep::Validate => FormStepModel::Validate,
            FormStep::Persist => FormStepModel::Persist,
            FormStep::Rerender { status, action, banner, bag } => FormStepModel::Rerender {
                status: *status,
                action: action@,
                banner: match banner {
                    Some(b) => Some(b@),
                    None => None,
                },
                bag: bag@,
            },
            FormStep::Saved { audit_action, target_type, target_id, to } => FormStepModel::Saved {
                audit_action: audit_action@,
                target_type: target_type@,
                target_id: target_id@,
                to: to@,
            },
        }
    }
}

/// Where a form posts to: the create form's own path.
pub open spec fn new_action(config: FormConfigModel) -> Seq<char> {
    config.base_path + "/new"@
}

/// Where a form posts to: the path of one record's edit form.
pub open spec fn edit_action(config: FormConfigModel, id: Seq<char>) -> Seq<char> {
    config.base_path + "/"@ + id + "/edit"@
}

/// The form again, as a validation failure.
pub open spec fn refused(action: Seq<char>, bag: Seq<(Seq<char>, TextModel)>) -> FormStepModel {
    FormStepModel::Rerender { status: 422, action, banner: None, bag }
}

/// The form again, after a write that failed.
pub open spec fn not_saved(action: Seq<char>) -> FormStepModel {
    FormStepModel::Rerender {
        status: 200,
        action,
        banner: Some(plain("Could not save. Check the values and try again."@)),
        bag: Seq::empty(),
    }
}

/// The way back after a save.
pub open spec fn saved_step(
    config: FormConfigModel,
    verb: Seq<char>,
    id: Seq<char>,
) -> FormStepModel {
    FormStepModel::Saved {
        audit_action: "backend."@ + config.entity + "."@ + verb,
        target_type: config.entity,
        target_id: id,
        to: config.base_path,
    }
}

/// What follows a submission: the rules are checked only where everything the
/// form names in a query is an identifier.
pub open spec fn submitted_step(config: FormConfigModel) -> FormStepModel {
    if form_idents_ok(config) {
        FormStepModel::Validate
    } else {
        FormStepModel::ErrorPage
    }
}

/// What follows validation. `bag` is absent where the check itself failed.
pub open spec fn validated_step(
    action: Seq<char>,
    bag: Option<Seq<(Seq<char>, TextModel)>>,
) -> FormStepModel {
    match bag {
        None => FormStepModel::ErrorPage,
        Some(b) => if b.len() == 0 {
            FormStepModel::Persist
        } else {
            refused(action, b)
        },
    }
}

/// What follows a write that did not go through.
pub open spec fn failed_step(action: Seq<char>, e: SaveErrorModel) -> FormStepModel {
    match e {
        SaveErrorModel::Invalid(bag) => refused(action, bag),
        SaveErrorModel::Failed(_) => not_saved(action),
    }
}

/// What follows validation.
fn after_validation(action: String, bag: Option<ErrorBag>) -> (r: FormStep)
    ensures
        r.deep_view() == validated_step(
            action@,
            match bag {
                Some(b) => Some(b@),
                None => None,
            },
        ),
{
    match bag {
        None => FormStep::ErrorPage,
        Some(b) => if b.is_empty() {
            FormStep::Persist
        } else {
            FormStep::Rerender { status: 422, action, banner: None, bag: b }
        },
    }
}

/// What follows a write that did not go through.
fn after_failure(action: String, e: SaveError) -> (r: FormStep)
    ensures
        r.deep_view() == failed_step(action@, e.deep_view()),
{
    match e {
        SaveError::Invalid(bag) => FormStep::Rerender { status: 422, action, banner: None, bag },
        SaveError::Failed(_) => FormStep::Rerender {
            status: 200,
            action,
            banner: Some(Text::new("Could not save. Check the values and try again.")),
            bag: ErrorBag::new(),
        },
    }
}

/// The way back after a save.
fn after_save(config: &FormConfig, verb: &str, id: &str) -> (r: FormStep)
    ensures
        r.deep_view() == saved_step(config.deep_view(), verb@, id@),
{
    FormStep::Saved {
        audit_action: cat4("backend.", config.entity.as_str(), ".", verb),
        target_type: config.entity.clone(),
        target_id: id.to_owned(),
        to: config.base_path.clone(),
    }
}

impl PreparedForm {
    /// Where the create form posts to.
    pub fn new_path(&self) -> (r: String)
        ensures
            r@ == new_action(self.deep_view().config),
    {
        cat(self.config.base_path.as_str(), "/new")
    }

    /// Where a record's edit form posts to.
    pub fn edit_path(&self, id: &str) -> (r: String)
        ensures
            r@ == edit_action(self.deep_view().config, id@),
    {
        cat4(self.config.base_path.as_str(), "/", id, "/edit")
    }

    /// What follows a submission, of a new record or an edited one.
    pub fn submitted(&self) -> (r: FormStep)
        ensures
            r.deep_view() == submitted_step(self.deep_view().config),
    {
        if self.config.idents_valid() {
            FormStep::Validate
        } else {
            FormStep::ErrorPage
        }
    }

    /// What follows the validation of a new record. `bag` is absent where the
    /// check itself failed.
    pub fn create_validated(&self, bag: Option<ErrorBag>) -> (r: FormStep)
        ensures
            r.deep_view() == validated_step(
                new_action(self.deep_view().config),
                match bag {
                    Some(b) => Some(b@),
                    None => None,
                },
            ),
    {
        after_validation(self.new_path(), bag)
    }

    /// What follows the write of a new record.
    pub fn create_persisted(&self, outcome: Result<i64, SaveError>) -> (r: FormStep)
        ensures
            r.deep_view() == (match outcome {
                Ok(id) => saved_step(self.deep_view().config, "create"@, decimal_int(id as int)),
                Err(e) => failed_step(new_action(self.deep_view().config), e.deep_view()),
            }),
    {
        match outcome {
            Ok(id) => after_save(&self.config, "create", i64_text(id).as_str()),
            Err(e) => after_failure(self.new_path(), e),
        }
    }

    /// What follows the validation of an edited record.
    pub fn update_validated(&self, id: &str, bag: Option<ErrorBag>) -> (r: FormStep)
        ensures
            r.deep_view() == validated_step(
                edit_action(self.deep_view().config, id@),
                match bag {
                    Some(b) => Some(b@),
                    None => None,
                },
            ),
    {
        after_validation(self.edit_path(id), bag)
    }

    /// What follows the write of an edited record.
    pub fn update_persisted(&self, id: &str, outcome: Result<(), SaveError>) -> (r: FormStep)
        ensures
            r.deep_view() == (match outcome {
                Ok(_) => saved_step(self.deep_view().config, "update"@, id@),
                Err(e) => failed_step(edit_action(self.deep_view().config, id@), e.deep_view()),
            }),
    {
        match outcome {
            Ok(_) => after_save(&self.config, "update", id),
            Err(e) => after_failure(self.edit_path(id), e),
        }
    }

    /// What an edit form reads: every field's column, from the row whose id reads
    /// as `id`. `None` where something it would name is no identifier.
    pub fn edit_query(&self, id: &str) -> (r: Option<RowQuery>)
        ensures
            match r {
                Some(q) => form_idents_ok(self.deep_view().config) && q.deep_view() == (
                RowQueryModel {
                    table: self.deep_view().config.entity,
                    columns: self.deep_view().config.fields.map_values(
                        |f: FormFieldModel| f.name,
                    ),
                    id_field: self.deep_view().config.id_field,
                    id: id@,
                }),
                None => !form_idents_ok(self.deep_view().config),
            },
    {
        if !self.config.idents_valid() {
            return None;
        }
        let p: DefaultPersister = DefaultPersister::from_config(&self.config);
        Some(
            RowQuery {
                table: p.entity,
                columns: p.columns,
                id_field: p.id_field,
                id: id.to_owned(),
            },
        )
    }

    /// What an edit form shows: each field's stored text as its control presents
    /// it. `row` has one entry per field, absent where the column was null or could
    /// not be read.
    pub fn edit_values(&self, row: &Vec<Option<String>>) -> (r: Vec<(String, FieldValue)>)
        requires
            self.wf(),
            row.len() == self.fields.len(),
        ensures
            r.deep_view() == edit_value_models(self.deep_view(), row.deep_view()),
    {
        let ghost m = self.deep_view();
        let ghost read = row.deep_view();
        let mut r: Vec<(String, FieldValue)> = Vec::new();
        let mut i: usize = 0;
        while i < self.fields.len()
            invariant
                self.wf(),
                row.len() == self.fields.len(),
                m == self.deep_view(),
                read == row.deep_view(),
                i <= self.fields.len(),
                r.len() == i,
                forall|j: int|
                    0 <= j < i ==> #[trigger] r@[j].deep_view() == (
                        m.config.fields[j].name,
                        FieldValueModel::Text(control_shown(m.fields[j].kind, read[j])),
                    ),
            decreases self.fields.len() - i,
        {
            assert(m.config.fields[i as int] == self.config.fields@[i as int].deep_view());
            assert(m.fields[i as int] == self.fields@[i as int].deep_view());
            assert(read[i as int] == row@[i as int].deep_view());
            let stored: Option<&str> = match &row[i] {
                Some(s) => Some(s.as_str()),
                None => None,
            };
            let shown: String = self.fields[i].kind.to_control(stored, &self.fields[i].opts);
            r.push((self.config.fields[i].name.clone(), FieldValue::Text(shown)));
            i = i + 1;
        }
        assert(r.deep_view() =~= edit_value_models(m, read));
        r
    }
}

/// What an edit form shows.
pub open spec fn edit_value_models(
    form: PreparedModel,
    row: Seq<Option<Seq<char>>>,
) -> Seq<(Seq<char>, FieldValueModel)> {
    Seq::new(
        form.fields.len(),
        |i: int|
            (
                form.config.fields[i].name,
                FieldValueModel::Text(control_shown(form.fields[i].kind, row[i])),
            ),
    )
}

/// A read of one row: these columns as text, where the id column reads as `id`.
#[derive(Debug)]
pub struct RowQuery {
    pub table: String,
    pub columns: Vec<String>,
    pub id_field: String,
    pub id: String,
}

/// A [`RowQuery`], over characters.
pub struct RowQueryModel {
    pub table: Seq<char>,
    pub columns: Seq<Seq<char>>,
    pub id_field: Seq<char>,
    pub id: Seq<char>,
}

impl RowQuery {
    /// The read, ready to run.
    pub fn statement(&self, backend: Backend) -> (r: Statement)
        ensures
            r.deep_view() == select_text(
                row_read(self.table@, self.columns.deep_view(), self.id_field@, self.id@, backend),
                backend,
            ),
    {
        read_row(
            self.table.as_str(),
            &self.columns,
            self.id_field.as_str(),
            self.id.as_str(),
            backend,
        )
    }
}

impl DeepView for RowQuery {
    type V = RowQueryModel;

    open spec fn deep_view(&self) -> RowQueryModel {
        RowQueryModel {
            table: self.table@,
            columns: self.columns.deep_view(),
            id_field: self.id_field@,
            id: self.id@,
        }
    }
}

/// A submission that breaks a rule is never written: only an empty bag leads to
/// the persister.
pub proof fn law_an_invalid_submission_is_not_written(
    action: Seq<char>,
    bag: Option<Seq<(Seq<char>, TextModel)>>,
)
    ensures
        validated_step(action, bag) is Persist <==> bag is Some && (bag->0).len() == 0,
{
}

} // verus!
