//! Field types as a form uses them: resolved, presented, and read back.

use vstd::prelude::*;

use crate::attr::{attr_of, from_scalar, get_scalar, held, AttrModel, AttrValue, Scalar, ScalarModel};
use crate::contributed::{
    ask_leaf, leaf_asked, leaf_made, leaf_stored, make_leaf, store_leaf, Answers, AnswersModel,
    Asked, AskedModel, FieldTypes, FieldTypesModel,
};
use crate::field::{
    copy_adornments, intrinsic, leaf_assets, leaf_control, leaf_key, password_plain, password_text,
    under_prefix, Adornment, AdornmentModel, Chrome, LeafKind, LeafOptions, LeafOptionsModel,
    LeafResolved, LeafResolvedModel, Mode, OptionsError, Rule, SelectOption, SelectOptionModel,
    SubmittedField,
};
use crate::list::copy_option;
use crate::nums::{decimal, decimal_int, i64_text, u64_text};
use crate::repeater::{
    cell_name, leaf_kind, leaf_of, repeated, repeater_asked, repeater_secrets, row_indices, row_key,
    subs_resolved, RepeaterModel, RepeaterOptions, RepeaterRaw, RepeaterRawModel, RepeaterSub, SubModel,
};
use crate::strs::{cat4, listed, lookup, same};
use crate::text::copy_pairs;

verus! {

// -------------------------------------------------------------------- options
/// A field's options, as its descriptor spells them: the keys of a field that
/// stands for one value, and those of a repeater where it gives any.
pub struct FieldOptions {
    pub leaf: LeafOptions,
    pub repeater: Option<RepeaterRaw>,
}

/// [`FieldOptions`], over characters.
pub struct FieldOptionsModel {
    pub leaf: LeafOptionsModel,
    pub repeater: Option<RepeaterRawModel>,
}

impl DeepView for FieldOptions {
    type V = FieldOptionsModel;

    open spec fn deep_view(&self) -> FieldOptionsModel {
        FieldOptionsModel { leaf: self.leaf.deep_view(), repeater: self.repeater.deep_view() }
    }
}

/// Options as a field type resolved them.
pub enum Options {
    Leaf(LeafResolved),
    Repeater(RepeaterOptions),
}

/// [`Options`], over characters.
pub enum OptionsModel {
    Leaf(LeafResolvedModel),
    Repeater(RepeaterModel),
}

impl DeepView for Options {
    type V = OptionsModel;

    open spec fn deep_view(&self) -> OptionsModel {
        match self {
            Options::Leaf(l) => OptionsModel::Leaf(l.deep_view()),
            Options::Repeater(r) => OptionsModel::Repeater(r.deep_view()),
        }
    }
}

/// Per-type options, resolved once at boot from the descriptor's options and kept
/// for rendering. A type without options has none.
pub struct ResolvedOptions(Option<Options>);

impl View for ResolvedOptions {
    type V = Option<OptionsModel>;

    closed spec fn view(&self) -> Option<OptionsModel> {
        self.0.deep_view()
    }
}

impl ResolvedOptions {
    /// No options (the default for optionless types).
    pub fn none() -> (r: Self)
        ensures
            r@ is None,
    {
        ResolvedOptions(None)
    }

    /// Wraps a resolved options value.
    pub fn new(value: Options) -> (r: Self)
        ensures
            r@ == Some(value.deep_view()),
    {
        ResolvedOptions(Some(value))
    }

    /// Borrows the options, if present.
    pub fn get(&self) -> (r: Option<&Options>)
        ensures
            match r {
                Some(o) => self@ == Some(o.deep_view()),
                None => self@ is None,
            },
    {
        match &self.0 {
            Some(o) => Some(o),
            None => None,
        }
    }
}

/// The options of a type that stands for one value, where that is what they are.
pub open spec fn leaf_part(opts: Option<OptionsModel>) -> Option<LeafResolvedModel> {
    match opts {
        Some(OptionsModel::Leaf(l)) => Some(l),
        _ => None,
    }
}

/// The options of a repeater, where that is what they are.
pub open spec fn repeater_part(opts: Option<OptionsModel>) -> Option<RepeaterModel> {
    match opts {
        Some(OptionsModel::Repeater(r)) => Some(r),
        _ => None,
    }
}

// ---------------------------------------------------------------------- kinds
/// A field type.
#[derive(Clone, Copy, Debug, PartialEq, Eq, Structural)]
pub enum FieldKind {
    Leaf(LeafKind),
    Repeater,
}

/// The registry key of a field type.
pub open spec fn kind_key(kind: FieldKind) -> Seq<char> {
    match kind {
        FieldKind::Leaf(k) => leaf_key(k),
        FieldKind::Repeater => "repeater"@,
    }
}

/// The built-in field type of a registry key.
pub open spec fn kind_of(key: Seq<char>) -> Option<FieldKind> {
    if key == "repeater"@ {
        Some(FieldKind::Repeater)
    } else {
        match leaf_of(key) {
            Some(k) => Some(FieldKind::Leaf(k)),
            None => None,
        }
    }
}

/// The field type of a registry key: a built-in one, or a contributed one that is
/// registered.
pub open spec fn kind_in(key: Seq<char>, types: FieldTypesModel) -> Option<FieldKind> {
    match kind_of(key) {
        Some(k) => Some(k),
        None => if types.names.contains(key) {
            Some(FieldKind::Leaf(LeafKind::Contributed))
        } else {
            None
        },
    }
}

/// The field type of a registry key.
pub fn find_type(key: &str, types: &FieldTypes) -> (r: Option<FieldKind>)
    ensures
        r == kind_in(key@, types@),
{
    match field_type(key) {
        Some(k) => Some(k),
        None => if listed(&types.names, key) {
            Some(FieldKind::Leaf(LeafKind::Contributed))
        } else {
            None
        },
    }
}

/// The built-in field type of a registry key.
pub fn field_type(key: &str) -> (r: Option<FieldKind>)
    ensures
        r == kind_of(key@),
{
    if same(key, "repeater") {
        Some(FieldKind::Repeater)
    } else {
        match leaf_kind(key) {
            Some(k) => Some(FieldKind::Leaf(k)),
            None => None,
        }
    }
}

/// The framework's built-in field types. A reference joins them once the picker
/// sources are known.
pub fn builtin_field_types() -> (r: Vec<FieldKind>)
    ensures
        r@ == seq![
            FieldKind::Leaf(LeafKind::Text),
            FieldKind::Leaf(LeafKind::Textarea),
            FieldKind::Repeater,
            FieldKind::Leaf(LeafKind::Select),
            FieldKind::Leaf(LeafKind::Switch),
            FieldKind::Leaf(LeafKind::Date),
            FieldKind::Leaf(LeafKind::Password),
            FieldKind::Leaf(LeafKind::Radio),
        ],
{
    let r: Vec<FieldKind> = vec![
        FieldKind::Leaf(LeafKind::Text),
        FieldKind::Leaf(LeafKind::Textarea),
        FieldKind::Repeater,
        FieldKind::Leaf(LeafKind::Select),
        FieldKind::Leaf(LeafKind::Switch),
        FieldKind::Leaf(LeafKind::Date),
        FieldKind::Leaf(LeafKind::Password),
        FieldKind::Leaf(LeafKind::Radio),
    ];
    assert(r@ =~= seq![
        FieldKind::Leaf(LeafKind::Text),
        FieldKind::Leaf(LeafKind::Textarea),
        FieldKind::Repeater,
        FieldKind::Leaf(LeafKind::Select),
        FieldKind::Leaf(LeafKind::Switch),
        FieldKind::Leaf(LeafKind::Date),
        FieldKind::Leaf(LeafKind::Password),
        FieldKind::Leaf(LeafKind::Radio),
    ]);
    r
}

/// Every built-in field type is found under its own key.
pub proof fn law_field_types_are_found_by_key(kind: FieldKind)
    requires
        kind != FieldKind::Leaf(LeafKind::Contributed),
    ensures
        kind_of(kind_key(kind)) == Some(kind),
{
    reveal_strlit("repeater");
    reveal_strlit("text");
    reveal_strlit("textarea");
    reveal_strlit("select");
    reveal_strlit("switch");
    reveal_strlit("date");
    reveal_strlit("password");
    reveal_strlit("radio");
    reveal_strlit("reference");
    assert("text"@[0] == 't' && "date"@[0] == 'd');
    assert("text"@ != "date"@);
    assert("select"@[1] == 'e' && "switch"@[1] == 'w');
    assert("select"@ != "switch"@);
    assert("textarea"@[0] == 't' && "password"@[0] == 'p' && "repeater"@[0] == 'r');
    assert("textarea"@ != "password"@ && "textarea"@ != "repeater"@ && "password"@ != "repeater"@);
    assert("text"@.len() == 4 && "date"@.len() == 4 && "radio"@.len() == 5);
    assert("select"@.len() == 6 && "switch"@.len() == 6 && "reference"@.len() == 9);
    assert("textarea"@.len() == 8 && "password"@.len() == 8 && "repeater"@.len() == 8);
}

/// What the options of a field, whose type is registered under a key, come to.
pub open spec fn options_resolved(
    kind: FieldKind,
    key: Seq<char>,
    raw: Option<FieldOptionsModel>,
    types: FieldTypesModel,
    pickers: Seq<Seq<char>>,
) -> Result<Option<OptionsModel>, Seq<char>> {
    match kind {
        FieldKind::Leaf(k) => match leaf_made(
            k,
            key,
            match raw {
                Some(o) => Some(o.leaf),
                None => None,
            },
            types,
            pickers,
        ) {
            Err(e) => Err(e),
            Ok(Some(l)) => Ok(Some(OptionsModel::Leaf(l))),
            Ok(None) => Ok(None),
        },
        FieldKind::Repeater => match raw {
            None => Err("invalid type: null, expected struct RepeaterOptionsRaw"@),
            Some(o) => match o.repeater {
                None => Err("missing field `fields`"@),
                Some(r) => match subs_resolved(r.fields, types, pickers) {
                    Err(e) => Err(e),
                    Ok(rows) => Ok(
                        Some(
                            OptionsModel::Repeater(
                                RepeaterModel {
                                    rows,
                                    min_items: r.min_items,
                                    max_items: r.max_items,
                                },
                            ),
                        ),
                    ),
                },
            },
        },
    }
}

/// How a submission becomes the attribute that is stored.
pub open spec fn attr_stored(
    kind: FieldKind,
    opts: Option<OptionsModel>,
    name: Seq<char>,
    data: Seq<(Seq<char>, Seq<char>)>,
    answers: AnswersModel,
) -> Result<Option<AttrModel>, Seq<char>> {
    match kind {
        FieldKind::Leaf(k) => match leaf_stored(k, name, lookup(data, name), answers) {
            Err(e) => Err(e),
            Ok(Some(v)) => Ok(Some(attr_of(v))),
            Ok(None) => Ok(None),
        },
        FieldKind::Repeater => match repeater_part(opts) {
            None => Ok(Some(AttrModel::Rows(Seq::empty()))),
            Some(r) => match repeated(r, name, data, answers) {
                Err(e) => Err(e),
                Ok(rows) => Ok(Some(AttrModel::Rows(rows))),
            },
        },
    }
}

/// Whether an outcome is the one a model states.
pub open spec fn attr_is(
    r: Result<Option<AttrValue>, String>,
    m: Result<Option<AttrModel>, Seq<char>>,
) -> bool {
    match (r, m) {
        (Ok(a), Ok(b)) => a.deep_view() == b,
        (Err(a), Err(b)) => a@ == b,
        _ => false,
    }
}

/// How a stored value is presented back in the control.
pub open spec fn control_shown(kind: FieldKind, stored: Option<Seq<char>>) -> Seq<char> {
    match kind {
        FieldKind::Leaf(k) => leaf_control(k, stored),
        FieldKind::Repeater => match stored {
            Some(s) => s,
            None => "[]"@,
        },
    }
}

/// What a submission carries that has to be hashed before it can be stored.
pub open spec fn field_secrets(
    kind: FieldKind,
    opts: Option<OptionsModel>,
    name: Seq<char>,
    data: Seq<(Seq<char>, Seq<char>)>,
) -> Seq<Seq<char>> {
    match kind {
        FieldKind::Leaf(LeafKind::Password) => match password_plain(lookup(data, name)) {
            Some(p) => seq![p],
            None => Seq::empty(),
        },
        FieldKind::Leaf(_) => Seq::empty(),
        FieldKind::Repeater => match repeater_part(opts) {
            None => Seq::empty(),
            Some(r) => repeater_secrets(
                name,
                row_indices(under_prefix(data, name + "["@)),
                r.rows,
                data,
            ),
        },
    }
}

/// What is asked about a field's contributed controls before a submission can be
/// stored.
pub open spec fn field_asked(
    kind: FieldKind,
    opts: Option<OptionsModel>,
    name: Seq<char>,
    data: Seq<(Seq<char>, Seq<char>)>,
) -> Seq<AskedModel> {
    match kind {
        FieldKind::Leaf(_) => match leaf_asked(leaf_part(opts), name, lookup(data, name)) {
            Some(a) => seq![a],
            None => Seq::empty(),
        },
        FieldKind::Repeater => match repeater_part(opts) {
            None => Seq::empty(),
            Some(r) => repeater_asked(
                name,
                row_indices(under_prefix(data, name + "["@)),
                r.rows,
                data,
            ),
        },
    }
}

impl FieldKind {
    /// The stable key for override resolution and template selection.
    pub fn view_key(self) -> (r: &'static str)
        ensures
            r@ == kind_key(self),
    {
        match self {
            FieldKind::Leaf(k) => k.view_key(),
            FieldKind::Repeater => "repeater",
        }
    }

    /// Types the descriptor's options once at boot.
    pub fn resolve_options(
        self,
        key: &str,
        raw: Option<&FieldOptions>,
        types: &FieldTypes,
        pickers: &Vec<String>,
    ) -> (r: Result<ResolvedOptions, OptionsError>)
        ensures
            match options_resolved(self, key@, raw.deep_view(), types@, pickers.deep_view()) {
                Ok(o) => r is Ok && (r->Ok_0)@ == o,
                Err(e) => r is Err && (r->Err_0).0@ == e,
            },
    {
        match self {
            FieldKind::Leaf(k) => {
                let leaf: Option<&LeafOptions> = match raw {
                    Some(o) => Some(&o.leaf),
                    None => None,
                };
                match make_leaf(k, key, leaf, types, pickers) {
                    Err(e) => Err(e),
                    Ok(Some(l)) => Ok(ResolvedOptions::new(Options::Leaf(l))),
                    Ok(None) => Ok(ResolvedOptions::none()),
                }
            },
            FieldKind::Repeater => match raw {
                None => Err(
                    OptionsError(
                        "invalid type: null, expected struct RepeaterOptionsRaw".to_owned(),
                    ),
                ),
                Some(o) => match &o.repeater {
                    None => Err(OptionsError("missing field `fields`".to_owned())),
                    Some(given) => match RepeaterOptions::resolve(given, types, pickers) {
                        Err(e) => Err(e),
                        Ok(resolved) => Ok(ResolvedOptions::new(Options::Repeater(resolved))),
                    },
                },
            },
        }
    }

    /// Rules this type always contributes, ahead of the descriptor's own.
    pub fn intrinsic_rules(self, opts: &ResolvedOptions) -> (r: Vec<Rule>)
        ensures
            r@ == (match self {
                FieldKind::Leaf(k) => intrinsic(k, leaf_part(opts@)),
                FieldKind::Repeater => Seq::empty(),
            }),
    {
        match self {
            FieldKind::Repeater => Vec::new(),
            FieldKind::Leaf(k) => match k {
                LeafKind::Text => match opts.get() {
                    Some(Options::Leaf(LeafResolved::Text(t))) => {
                        crate::field::copy_rules(&t.rules)
                    },
                    _ => Vec::new(),
                },
                LeafKind::Date => {
                    let r: Vec<Rule> = vec![Rule::Date];
                    assert(r@ =~= seq![Rule::Date]);
                    r
                },
                LeafKind::Contributed => match opts.get() {
                    Some(Options::Leaf(LeafResolved::Contributed(c))) => {
                        crate::field::copy_rules(&c.made.rules)
                    },
                    _ => Vec::new(),
                },
                _ => Vec::new(),
            },
        }
    }

    /// Asset keys this type's control needs on a page that renders it.
    pub fn assets(self, opts: &ResolvedOptions) -> (r: Vec<String>)
        ensures
            r.deep_view() == kind_assets(self, opts@),
    {
        let mut r: Vec<String> = Vec::new();
        match self {
            FieldKind::Leaf(LeafKind::Text) => match opts.get() {
                Some(Options::Leaf(LeafResolved::Text(t))) => {
                    r = crate::strs::copy_list(&t.assets);
                },
                _ => {},
            },
            FieldKind::Leaf(LeafKind::Contributed) => match opts.get() {
                Some(Options::Leaf(LeafResolved::Contributed(c))) => {
                    r = crate::strs::copy_list(&c.made.assets);
                },
                _ => {},
            },
            FieldKind::Leaf(LeafKind::Reference) => {
                r.push("fields/ref-picker.js".to_owned());
                r.push("fields/ref-picker.css".to_owned());
            },
            _ => {},
        }
        assert(r.deep_view() =~= kind_assets(self, opts@));
        r
    }

    /// Whether the framework wraps this field in standard chrome.
    pub fn chrome(self, opts: &ResolvedOptions) -> (r: Chrome)
        ensures
            r == (match leaf_part(opts@) {
                Some(LeafResolvedModel::Contributed(c)) => c.made.chrome,
                _ => Chrome::Wrapped,
            }),
    {
        match opts.get() {
            Some(Options::Leaf(LeafResolved::Contributed(c))) => c.made.chrome,
            _ => Chrome::Wrapped,
        }
    }

    /// How a submission becomes the attribute that is stored. `None` leaves the
    /// attribute out of the write, so the column keeps what it held. `answers` has
    /// what hashing gave for every text of [`secrets`](Self::secrets), and what every
    /// control of [`asked`](Self::asked) stores.
    pub fn to_attr(
        self,
        field: &SubmittedField<'_>,
        opts: &ResolvedOptions,
        _mode: Mode,
        answers: &Answers,
    ) -> (r: Result<Option<AttrValue>, String>)
        ensures
            attr_is(
                r,
                attr_stored(
                    self,
                    opts@,
                    field.name_model(),
                    field.data_model(),
                    answers.deep_view(),
                ),
            ),
    {
        match self {
            FieldKind::Leaf(k) => match store_leaf(k, field.name(), field.value(), answers) {
                Err(e) => Err(e),
                Ok(Some(v)) => Ok(Some(from_scalar(v))),
                Ok(None) => Ok(None),
            },
            FieldKind::Repeater => match opts.get() {
                Some(Options::Repeater(o)) => match o.to_rows(field, answers) {
                    Err(e) => Err(e),
                    Ok(rows) => Ok(Some(AttrValue::Rows(rows))),
                },
                _ => {
                    let rows: Vec<Vec<(String, Scalar)>> = Vec::new();
                    assert(rows.deep_view() =~= Seq::<Seq<(Seq<char>, ScalarModel)>>::empty());
                    Ok(Some(AttrValue::Rows(rows)))
                },
            },
        }
    }

    /// What a submission carries that has to be hashed before it can be stored.
    pub fn secrets(self, field: &SubmittedField<'_>, opts: &ResolvedOptions) -> (r: Vec<String>)
        ensures
            r.deep_view() == field_secrets(self, opts@, field.name_model(), field.data_model()),
    {
        let mut r: Vec<String> = Vec::new();
        match self {
            FieldKind::Leaf(LeafKind::Password) => match password_text(field.value()) {
                Some(p) => {
                    r.push(p);
                },
                None => {},
            },
            FieldKind::Leaf(_) => {},
            FieldKind::Repeater => match opts.get() {
                Some(Options::Repeater(o)) => {
                    return o.secrets(field);
                },
                _ => {},
            },
        }
        assert(r.deep_view() =~= field_secrets(
            self,
            opts@,
            field.name_model(),
            field.data_model(),
        ));
        r
    }

    /// What is asked about its contributed controls before a submission can be stored.
    pub fn asked(self, field: &SubmittedField<'_>, opts: &ResolvedOptions) -> (r: Vec<Asked>)
        ensures
            r.deep_view() == field_asked(self, opts@, field.name_model(), field.data_model()),
    {
        let mut r: Vec<Asked> = Vec::new();
        match self {
            FieldKind::Leaf(_) => {
                let leaf: Option<&LeafResolved> = match opts.get() {
                    Some(Options::Leaf(l)) => Some(l),
                    _ => None,
                };
                match ask_leaf(leaf, field.name(), field.value()) {
                    Some(a) => {
                        r.push(a);
                    },
                    None => {},
                }
            },
            FieldKind::Repeater => match opts.get() {
                Some(Options::Repeater(o)) => {
                    return o.asked(field);
                },
                _ => {},
            },
        }
        assert(r.deep_view() =~= field_asked(
            self,
            opts@,
            field.name_model(),
            field.data_model(),
        ));
        r
    }

    /// How a stored value is presented back in the control on an edit.
    pub fn to_control(self, stored: Option<&str>, _opts: &ResolvedOptions) -> (r: String)
        ensures
            r@ == control_shown(self, stored.deep_view()),
    {
        match self {
            FieldKind::Leaf(k) => k.to_control(stored),
            FieldKind::Repeater => match stored {
                Some(s) => s.to_owned(),
                None => "[]".to_owned(),
            },
        }
    }
}

/// The assets a type's control needs.
pub open spec fn kind_assets(kind: FieldKind, opts: Option<OptionsModel>) -> Seq<Seq<char>> {
    match kind {
        FieldKind::Leaf(k) => leaf_assets(k, leaf_part(opts)),
        FieldKind::Repeater => Seq::empty(),
    }
}

// ----------------------------------------------------------------- view models
/// A field's value: nothing, the text of a field that stands for one value, or
/// the rows of a repeater.
#[derive(Debug)]
pub enum FieldValue {
    Null,
    Text(String),
    Rows(Vec<Vec<(String, Scalar)>>),
}

/// A [`FieldValue`], over characters.
pub enum FieldValueModel {
    Null,
    Text(Seq<char>),
    Rows(Seq<Seq<(Seq<char>, ScalarModel)>>),
}

impl DeepView for FieldValue {
    type V = FieldValueModel;

    open spec fn deep_view(&self) -> FieldValueModel {
        match self {
            FieldValue::Null => FieldValueModel::Null,
            FieldValue::Text(s) => FieldValueModel::Text(s@),
            FieldValue::Rows(rows) => FieldValueModel::Rows(rows.deep_view()),
        }
    }
}

/// The value as text: empty unless it is text.
pub open spec fn value_text(v: FieldValueModel) -> Seq<char> {
    match v {
        FieldValueModel::Text(s) => s,
        _ => Seq::empty(),
    }
}

impl FieldValue {
    /// The value as text for a scalar field (empty for null or rows).
    pub fn as_text(&self) -> (r: &str)
        ensures
            r@ == value_text(self.deep_view()),
    {
        match self {
            FieldValue::Text(s) => s.as_str(),
            _ => {
                proof {
                    reveal_strlit("");
                }
                assert(""@ =~= Seq::<char>::empty());
                ""
            },
        }
    }
}

/// The resolved per-field state a field type renders from.
pub struct FieldCx<'a> {
    /// The submitted field name.
    pub name: &'a str,
    /// A DOM-safe id for the control and its label.
    pub id: &'a str,
    pub label: &'a str,
    pub value: &'a FieldValue,
    /// Derived from the merged (intrinsic and descriptor) rules.
    pub required: bool,
    pub opts: &'a ResolvedOptions,
    /// The admin mount path, so a type that calls an endpoint builds its URL.
    pub base: &'a str,
}

/// One rendered choice: label resolved, `selected` computed against the value.
#[derive(Debug)]
pub struct OptionView {
    pub value: String,
    pub label: String,
    pub selected: bool,
}

/// An [`OptionView`], over characters.
pub struct OptionViewModel {
    pub value: Seq<char>,
    pub label: Seq<char>,
    pub selected: bool,
}

impl DeepView for OptionView {
    type V = OptionViewModel;

    open spec fn deep_view(&self) -> OptionViewModel {
        OptionViewModel { value: self.value@, label: self.label@, selected: self.selected }
    }
}

/// A choice against the current value. A missing label falls back to the value.
pub open spec fn choice_view(o: SelectOptionModel, current: Seq<char>) -> OptionViewModel {
    OptionViewModel {
        value: o.value,
        label: match o.label {
            Some(l) => l,
            None => o.value,
        },
        selected: o.value == current,
    }
}

/// The choices against the current value.
pub fn choice_views(options: &Vec<SelectOption>, current: &str) -> (r: Vec<OptionView>)
    ensures
        r.deep_view() == options.deep_view().map_values(
            |o: SelectOptionModel| choice_view(o, current@),
        ),
{
    let ghost all = options.deep_view();
    let mut r: Vec<OptionView> = Vec::new();
    let mut i: usize = 0;
    while i < options.len()
        invariant
            i <= options.len(),
            all == options.deep_view(),
            r.len() == i,
            forall|j: int|
                0 <= j < i ==> #[trigger] r@[j].deep_view() == choice_view(all[j], current@),
        decreases options.len() - i,
    {
        let o: &SelectOption = &options[i];
        assert(all[i as int] == o.deep_view());
        let label: String = match &o.label {
            Some(l) => l.clone(),
            None => o.value.clone(),
        };
        r.push(OptionView { value: o.value.clone(), label, selected: same(o.value.as_str(), current) });
        i = i + 1;
    }
    assert(r.deep_view() =~= all.map_values(|o: SelectOptionModel| choice_view(o, current@)));
    r
}

/// The per-type data of a control, never HTML.
#[derive(Debug)]
pub enum LeafData {
    Plain,
    Text { input_type: String, attrs: Vec<(String, String)>, adornments: Vec<Adornment> },
    Options(Vec<OptionView>),
    /// The options of a contributed type, as they were written.
    Contributed(Option<String>),
    Reference {
        source: String,
        search_url: String,
        resolve_url: String,
        value: String,
        placeholder: String,
    },
}

/// [`LeafData`], over characters.
pub enum LeafDataModel {
    Plain,
    Text {
        input_type: Seq<char>,
        attrs: Seq<(Seq<char>, Seq<char>)>,
        adornments: Seq<AdornmentModel>,
    },
    Options(Seq<OptionViewModel>),
    Contributed(Option<Seq<char>>),
    Reference {
        source: Seq<char>,
        search_url: Seq<char>,
        resolve_url: Seq<char>,
        value: Seq<char>,
        placeholder: Seq<char>,
    },
}

impl DeepView for LeafData {
    type V = LeafDataModel;

    open spec fn deep_view(&self) -> LeafDataModel {
        match self {
            LeafData::Plain => LeafDataModel::Plain,
            LeafData::Text { input_type, attrs, adornments } => LeafDataModel::Text {
                input_type: input_type@,
                attrs: attrs.deep_view(),
                adornments: adornments.deep_view(),
            },
            LeafData::Options(o) => LeafDataModel::Options(o.deep_view()),
            LeafData::Contributed(o) => LeafDataModel::Contributed(o.deep_view()),
            LeafData::Reference { source, search_url, resolve_url, value, placeholder } => {
                LeafDataModel::Reference {
                    source: source@,
                    search_url: search_url@,
                    resolve_url: resolve_url@,
                    value: value@,
                    placeholder: placeholder@,
                }
            },
        }
    }
}

/// The key a control is presented under: its type's own.
pub open spec fn vm_key(kind: LeafKind, opts: Option<LeafResolvedModel>) -> Seq<char> {
    match opts {
        Some(LeafResolvedModel::Contributed(c)) => c.field_type,
        _ => leaf_key(kind),
    }
}

/// The key a control is presented under.
fn build_key(kind: LeafKind, opts: Option<&LeafResolved>) -> (r: String)
    ensures
        r@ == vm_key(kind, opts.deep_view()),
{
    match opts {
        Some(LeafResolved::Contributed(c)) => c.field_type.clone(),
        _ => kind.view_key().to_owned(),
    }
}

/// The data of a control that stands for one value.
pub open spec fn leaf_data(
    kind: LeafKind,
    opts: Option<LeafResolvedModel>,
    value: Seq<char>,
    base: Seq<char>,
) -> LeafDataModel {
    match kind {
        LeafKind::Text => match opts {
            Some(LeafResolvedModel::Text(c)) => LeafDataModel::Text {
                input_type: c.html_type,
                attrs: c.attributes,
                adornments: c.adornments,
            },
            _ => LeafDataModel::Text {
                input_type: "text"@,
                attrs: Seq::empty(),
                adornments: Seq::empty(),
            },
        },
        LeafKind::Select | LeafKind::Radio => LeafDataModel::Options(
            match opts {
                Some(LeafResolvedModel::Choices(c)) => c.map_values(
                    |o: SelectOptionModel| choice_view(o, value),
                ),
                _ => Seq::empty(),
            },
        ),
        LeafKind::Reference => {
            let source = match opts {
                Some(LeafResolvedModel::Reference(s)) => s,
                _ => Seq::empty(),
            };
            LeafDataModel::Reference {
                source,
                search_url: base + "/pickers/"@ + source + "/search"@,
                resolve_url: base + "/pickers/"@ + source + "/resolve"@,
                value,
                placeholder: "Search…"@,
            }
        },
        LeafKind::Contributed => LeafDataModel::Contributed(
            match opts {
                Some(LeafResolvedModel::Contributed(c)) => c.options,
                _ => None,
            },
        ),
        LeafKind::Textarea | LeafKind::Switch | LeafKind::Date | LeafKind::Password => {
            LeafDataModel::Plain
        },
    }
}

/// The data of a control that stands for one value.
fn build_leaf_data(
    kind: LeafKind,
    opts: Option<&LeafResolved>,
    value: &str,
    base: &str,
) -> (r: LeafData)
    ensures
        r.deep_view() == leaf_data(kind, opts.deep_view(), value@, base@),
{
    match kind {
        LeafKind::Text => match opts {
            Some(LeafResolved::Text(t)) => LeafData::Text {
                input_type: t.html_type.clone(),
                attrs: copy_pairs(&t.attrs),
                adornments: copy_adornments(&t.adornments),
            },
            _ => {
                let attrs: Vec<(String, String)> = Vec::new();
                let adornments: Vec<Adornment> = Vec::new();
                assert(attrs.deep_view() =~= Seq::<(Seq<char>, Seq<char>)>::empty());
                assert(adornments.deep_view() =~= Seq::<AdornmentModel>::empty());
                LeafData::Text { input_type: "text".to_owned(), attrs, adornments }
            },
        },
        LeafKind::Select | LeafKind::Radio => match opts {
            Some(LeafResolved::Choices(c)) => LeafData::Options(choice_views(c, value)),
            _ => {
                let none: Vec<OptionView> = Vec::new();
                assert(none.deep_view() =~= Seq::<OptionViewModel>::empty());
                LeafData::Options(none)
            },
        },
        LeafKind::Reference => {
            let source: String = match opts {
                Some(LeafResolved::Reference(s)) => s.clone(),
                _ => String::new(),
            };
            LeafData::Reference {
                search_url: cat4(base, "/pickers/", source.as_str(), "/search"),
                resolve_url: cat4(base, "/pickers/", source.as_str(), "/resolve"),
                source,
                value: value.to_owned(),
                placeholder: "Search…".to_owned(),
            }
        },
        LeafKind::Contributed => match opts {
            Some(LeafResolved::Contributed(c)) => LeafData::Contributed(copy_option(&c.options)),
            _ => LeafData::Contributed(None),
        },
        LeafKind::Textarea | LeafKind::Switch | LeafKind::Date | LeafKind::Password => {
            LeafData::Plain
        },
    }
}

/// The payload both the built-in template and an override render for a control
/// that stands for one value.
#[derive(Debug)]
pub struct LeafVm {
    pub view_key: String,
    pub name: String,
    pub id: String,
    pub label: String,
    pub required: bool,
    pub value: String,
    pub data: LeafData,
}

/// A [`LeafVm`], over characters.
pub struct LeafVmModel {
    pub view_key: Seq<char>,
    pub name: Seq<char>,
    pub id: Seq<char>,
    pub label: Seq<char>,
    pub required: bool,
    pub value: Seq<char>,
    pub data: LeafDataModel,
}

impl DeepView for LeafVm {
    type V = LeafVmModel;

    open spec fn deep_view(&self) -> LeafVmModel {
        LeafVmModel {
            view_key: self.view_key@,
            name: self.name@,
            id: self.id@,
            label: self.label@,
            required: self.required,
            value: self.value@,
            data: self.data.deep_view(),
        }
    }
}

/// One control of a repeated row, under its sub-field's label.
#[derive(Debug)]
pub struct RepeaterCell {
    pub label: String,
    pub control: LeafVm,
}

/// A [`RepeaterCell`], over characters.
pub struct RepeaterCellModel {
    pub label: Seq<char>,
    pub control: LeafVmModel,
}

impl DeepView for RepeaterCell {
    type V = RepeaterCellModel;

    open spec fn deep_view(&self) -> RepeaterCellModel {
        RepeaterCellModel { label: self.label@, control: self.control.deep_view() }
    }
}

/// The payload a field's presenter renders. A repeater's has a row per stored
/// entry, and a blank one for the browser to clone.
#[derive(Debug)]
pub enum FieldVm {
    Leaf(LeafVm),
    Repeater {
        name: String,
        id: String,
        label: String,
        required: bool,
        rows: Vec<Vec<RepeaterCell>>,
        blank: Vec<RepeaterCell>,
    },
}

/// A [`FieldVm`], over characters.
pub enum FieldVmModel {
    Leaf(LeafVmModel),
    Repeater {
        name: Seq<char>,
        id: Seq<char>,
        label: Seq<char>,
        required: bool,
        rows: Seq<Seq<RepeaterCellModel>>,
        blank: Seq<RepeaterCellModel>,
    },
}

impl DeepView for FieldVm {
    type V = FieldVmModel;

    open spec fn deep_view(&self) -> FieldVmModel {
        match self {
            FieldVm::Leaf(l) => FieldVmModel::Leaf(l.deep_view()),
            FieldVm::Repeater { name, id, label, required, rows, blank } => {
                FieldVmModel::Repeater {
                    name: name@,
                    id: id@,
                    label: label@,
                    required: *required,
                    rows: rows.deep_view(),
                    blank: blank.deep_view(),
                }
            },
        }
    }
}

/// What the control of one cell shows for a stored row.
pub open spec fn cell_value(
    sub: SubModel,
    row: Option<Seq<(Seq<char>, ScalarModel)>>,
) -> Seq<char> {
    match row {
        None => Seq::empty(),
        Some(r) => match held(r, sub.name) {
            None => Seq::empty(),
            Some(ScalarModel::Null) => Seq::empty(),
            Some(ScalarModel::Text(s)) => s,
            Some(ScalarModel::Bool(b)) => leaf_control(
                sub.kind,
                Some(
                    if b {
                        "true"@
                    } else {
                        "false"@
                    },
                ),
            ),
            Some(ScalarModel::Int(i)) => leaf_control(sub.kind, Some(decimal_int(i))),
        },
    }
}

/// One cell of a row.
pub open spec fn cell_vm(
    sub: SubModel,
    name: Seq<char>,
    label: Seq<char>,
    base: Seq<char>,
    index: Seq<char>,
    row: Option<Seq<(Seq<char>, ScalarModel)>>,
) -> RepeaterCellModel {
    let key = row_key(name, index, sub.name);
    let value = cell_value(sub, row);
    RepeaterCellModel {
        label: sub.label.source,
        control: LeafVmModel {
            view_key: vm_key(sub.kind, sub.opts),
            name: key,
            id: key,
            label,
            required: false,
            value,
            data: leaf_data(sub.kind, sub.opts, value, base),
        },
    }
}

/// The cells of one row.
pub open spec fn row_vm(
    subs: Seq<SubModel>,
    name: Seq<char>,
    label: Seq<char>,
    base: Seq<char>,
    index: Seq<char>,
    row: Option<Seq<(Seq<char>, ScalarModel)>>,
) -> Seq<RepeaterCellModel> {
    subs.map_values(|sub: SubModel| cell_vm(sub, name, label, base, index, row))
}

/// What the control of one cell shows.
fn shown_in_cell(sub: &RepeaterSub, row: Option<&Vec<(String, Scalar)>>) -> (r: String)
    ensures
        r@ == cell_value(sub.deep_view(), row.deep_view()),
{
    match row {
        None => String::new(),
        Some(cells) => match get_scalar(cells, sub.name.as_str()) {
            None => String::new(),
            Some(Scalar::Null) => String::new(),
            Some(Scalar::Text(s)) => s.clone(),
            Some(Scalar::Bool(b)) => if *b {
                sub.kind.to_control(Some("true"))
            } else {
                sub.kind.to_control(Some("false"))
            },
            Some(Scalar::Int(i)) => {
                let text: String = i64_text(*i);
                sub.kind.to_control(Some(text.as_str()))
            },
        },
    }
}

/// The cells of one row. `row` is absent for the blank row.
fn render_row(
    subs: &Vec<RepeaterSub>,
    name: &str,
    label: &str,
    base: &str,
    index: &str,
    row: Option<&Vec<(String, Scalar)>>,
) -> (r: Vec<RepeaterCell>)
    ensures
        r.deep_view() == row_vm(subs.deep_view(), name@, label@, base@, index@, row.deep_view()),
{
    let ghost all = subs.deep_view();
    let ghost given = row.deep_view();
    let mut r: Vec<RepeaterCell> = Vec::new();
    let mut i: usize = 0;
    while i < subs.len()
        invariant
            i <= subs.len(),
            all == subs.deep_view(),
            given == row.deep_view(),
            r.len() == i,
            forall|j: int|
                0 <= j < i ==> #[trigger] r@[j].deep_view() == cell_vm(
                    all[j],
                    name@,
                    label@,
                    base@,
                    index@,
                    given,
                ),
        decreases subs.len() - i,
    {
        let sub: &RepeaterSub = &subs[i];
        assert(all[i as int] == sub.deep_view());
        let key: String = cell_name(name, index, sub.name.as_str());
        let value: String = shown_in_cell(sub, row);
        let data: LeafData = build_leaf_data(sub.kind, sub.opts.as_ref(), value.as_str(), base);
        r.push(
            RepeaterCell {
                label: sub.label.source().to_owned(),
                control: LeafVm {
                    view_key: build_key(sub.kind, sub.opts.as_ref()),
                    name: key.clone(),
                    id: key,
                    label: label.to_owned(),
                    required: false,
                    value,
                    data,
                },
            },
        );
        i = i + 1;
    }
    assert(r.deep_view() =~= row_vm(all, name@, label@, base@, index@, given));
    r
}

/// The rows a repeater presents.
pub open spec fn rows_vm(
    opts: Option<RepeaterModel>,
    name: Seq<char>,
    label: Seq<char>,
    base: Seq<char>,
    value: FieldValueModel,
) -> Seq<Seq<RepeaterCellModel>> {
    match (opts, value) {
        (Some(o), FieldValueModel::Rows(rows)) => Seq::new(
            rows.len(),
            |i: int| row_vm(o.rows, name, label, base, decimal(i as nat), Some(rows[i])),
        ),
        _ => Seq::empty(),
    }
}

/// The payload of a field.
pub open spec fn field_vm(
    kind: FieldKind,
    name: Seq<char>,
    id: Seq<char>,
    label: Seq<char>,
    required: bool,
    value: FieldValueModel,
    opts: Option<OptionsModel>,
    base: Seq<char>,
) -> FieldVmModel {
    match kind {
        FieldKind::Leaf(k) => FieldVmModel::Leaf(
            LeafVmModel {
                view_key: vm_key(k, leaf_part(opts)),
                name,
                id,
                label,
                required,
                value: value_text(value),
                data: leaf_data(k, leaf_part(opts), value_text(value), base),
            },
        ),
        FieldKind::Repeater => FieldVmModel::Repeater {
            name,
            id,
            label,
            required,
            rows: rows_vm(repeater_part(opts), name, label, base, value),
            blank: match repeater_part(opts) {
                Some(o) => row_vm(o.rows, name, label, base, "__index__"@, None),
                None => Seq::empty(),
            },
        },
    }
}

impl FieldKind {
    /// Builds the presentation payload.
    pub fn view_model(self, cx: &FieldCx<'_>) -> (r: FieldVm)
        ensures
            r.deep_view() == field_vm(
                self,
                cx.name@,
                cx.id@,
                cx.label@,
                cx.required,
                cx.value.deep_view(),
                cx.opts@,
                cx.base@,
            ),
    {
        match self {
            FieldKind::Leaf(k) => {
                let opts: Option<&LeafResolved> = match cx.opts.get() {
                    Some(Options::Leaf(l)) => Some(l),
                    _ => None,
                };
                let value: &str = cx.value.as_text();
                FieldVm::Leaf(
                    LeafVm {
                        view_key: build_key(k, opts),
                        name: cx.name.to_owned(),
                        id: cx.id.to_owned(),
                        label: cx.label.to_owned(),
                        required: cx.required,
                        value: value.to_owned(),
                        data: build_leaf_data(k, opts, value, cx.base),
                    },
                )
            },
            FieldKind::Repeater => {
                let mut rows: Vec<Vec<RepeaterCell>> = Vec::new();
                let mut blank: Vec<RepeaterCell> = Vec::new();
                assert(rows.deep_view() =~= Seq::<Seq<RepeaterCellModel>>::empty());
                assert(blank.deep_view() =~= Seq::<RepeaterCellModel>::empty());
                match cx.opts.get() {
                    Some(Options::Repeater(o)) => {
                        blank = render_row(&o.rows, cx.name, cx.label, cx.base, "__index__", None);
                        match cx.value {
                            FieldValue::Rows(stored) => {
                                rows = render_rows(o, cx.name, cx.label, cx.base, stored);
                            },
                            _ => {},
                        }
                    },
                    _ => {},
                }
                FieldVm::Repeater {
                    name: cx.name.to_owned(),
                    id: cx.id.to_owned(),
                    label: cx.label.to_owned(),
                    required: cx.required,
                    rows,
                    blank,
                }
            },
        }
    }
}

/// The rows a repeater presents.
fn render_rows(
    opts: &RepeaterOptions,
    name: &str,
    label: &str,
    base: &str,
    stored: &Vec<Vec<(String, Scalar)>>,
) -> (rows: Vec<Vec<RepeaterCell>>)
    ensures
        rows.deep_view() == rows_vm(
            Some(opts.deep_view()),
            name@,
            label@,
            base@,
            FieldValueModel::Rows(stored.deep_view()),
        ),
{
    let ghost subs = opts.rows.deep_view();
    let ghost all = stored.deep_view();
    let mut rows: Vec<Vec<RepeaterCell>> = Vec::new();
    let mut i: usize = 0;
    while i < stored.len()
        invariant
            i <= stored.len(),
            subs == opts.rows.deep_view(),
            all == stored.deep_view(),
            rows.len() == i,
            forall|j: int|
                0 <= j < i ==> #[trigger] rows@[j].deep_view() == row_vm(
                    subs,
                    name@,
                    label@,
                    base@,
                    decimal(j as nat),
                    Some(all[j]),
                ),
        decreases stored.len() - i,
    {
        assert(all[i as int] == stored@[i as int].deep_view());
        let index: String = u64_text(i as u64);
        rows.push(render_row(&opts.rows, name, label, base, index.as_str(), Some(&stored[i])));
        i = i + 1;
    }
    assert(rows.deep_view() =~= rows_vm(
        Some(opts.deep_view()),
        name@,
        label@,
        base@,
        FieldValueModel::Rows(all),
    ));
    rows
}

} // verus!
