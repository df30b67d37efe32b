//! Form field types: what a field shows, and what it stores.
//!
//! A field descriptor is data (name, label, type key, options, rules); a field
//! type is behaviour keyed by that type. A type reads its options once at boot,
//! builds the payload a presenter renders, turns a submission into the attribute
//! that is stored, and turns a stored value back into what the control shows.

use vstd::prelude::*;

use crate::attr::{Scalar, ScalarModel};
use crate::contributed::{Contributed, ContributedModel};
use crate::html::Markup;
use crate::strs::{
    before_either, cat3, chars_of, either, get, is_ascii_lower, is_digit, listed, lookup, same,
    split_on, strip_prefix, trim, trimmed,
};

verus! {

// ---------------------------------------------------------------------- rules
/// Whether a form creates a record or edits one.
#[derive(Clone, Copy, Debug, PartialEq, Eq, Structural)]
pub enum Mode {
    Create,
    Update,
}

/// A validation rule a field carries.
#[derive(Clone, Copy, Debug, PartialEq, Eq, Structural)]
pub enum Rule {
    Required,
    RequiredOn(Mode),
    Unique,
    MaxLength(usize),
    MinLength(usize),
    Email,
    Url,
    Numeric,
    Date,
}

/// Whether the framework wraps a field in standard chrome (label, required
/// marker, error list) or the type renders bare.
#[derive(Debug, Clone, Copy, PartialEq, Eq, Structural)]
pub enum Chrome {
    Wrapped,
    Bare,
}

// ----------------------------------------------------------------- submission
/// What a field sees of the submission when it produces its stored value.
///
/// A scalar field wants [`value`](Self::value), the entry under its own name. A
/// field made of more than one control reads its own keys with
/// [`nested`](Self::nested).
pub struct SubmittedField<'a> {
    name: &'a str,
    data: &'a Vec<(String, String)>,
}

/// The entries whose key begins with a prefix, by the rest of the key.
pub open spec fn under_prefix(
    data: Seq<(Seq<char>, Seq<char>)>,
    prefix: Seq<char>,
) -> Seq<(Seq<char>, Seq<char>)> {
    data.filter_map(
        |e: (Seq<char>, Seq<char>)|
            if prefix.is_prefix_of(e.0) {
                Some((e.0.skip(prefix.len() as int), e.1))
            } else {
                None
            },
    )
}

impl<'a> SubmittedField<'a> {
    /// The field's name.
    pub closed spec fn name_model(&self) -> Seq<char> {
        self.name@
    }

    /// The submission.
    pub closed spec fn data_model(&self) -> Seq<(Seq<char>, Seq<char>)> {
        self.data.deep_view()
    }

    pub fn new(name: &'a str, data: &'a Vec<(String, String)>) -> (r: Self)
        ensures
            r.name_model() == name@,
            r.data_model() == data.deep_view(),
    {
        SubmittedField { name, data }
    }

    /// This field's submitted name, which a multi-value field uses as the prefix
    /// of its own keys.
    pub fn name(&self) -> (r: &str)
        ensures
            r@ == self.name_model(),
    {
        self.name
    }

    /// The value submitted under this field's own name. `None` when the
    /// submission omits the field, which is how an unchecked checkbox arrives.
    pub fn value(&self) -> (r: Option<&'a str>)
        ensures
            r.deep_view() == lookup(self.data_model(), self.name_model()),
    {
        get(self.data, self.name)
    }

    /// Every submitted key beginning `name[`, as its remainder and value.
    pub fn nested(&self) -> (r: Vec<(String, String)>)
        ensures
            r.deep_view() == under_prefix(self.data_model(), self.name_model() + "["@),
    {
        let prefix: String = crate::strs::cat(self.name, "[");
        let mut out: Vec<(String, String)> = Vec::new();
        let ghost all = self.data.deep_view();
        let ghost p = prefix@;
        let ghost f = |e: (Seq<char>, Seq<char>)|
            if p.is_prefix_of(e.0) {
                Some((e.0.skip(p.len() as int), e.1))
            } else {
                None
            };
        let mut i: usize = 0;
        assert(out.deep_view() =~= all.take(0).filter_map(f));
        while i < self.data.len()
            invariant
                i <= self.data.len(),
                all == self.data.deep_view(),
                p == prefix@,
                f == (|e: (Seq<char>, Seq<char>)|
                    if p.is_prefix_of(e.0) {
                        Some((e.0.skip(p.len() as int), e.1))
                    } else {
                        None
                    }),
                out.deep_view() == all.take(i as int).filter_map(f),
            decreases self.data.len() - i,
        {
            let ghost before = out.deep_view();
            proof {
                all.lemma_filter_map_take_succ(f, i as int);
            }
            assert(all[i as int] == self.data@[i as int].deep_view());
            match strip_prefix(self.data[i].0.as_str(), prefix.as_str()) {
                Some(rest) => {
                    let value: String = self.data[i].1.clone();
                    let ghost w = (rest@, value@);
                    out.push((rest.to_owned(), value));
                    assert(out.deep_view() =~= before + seq![w]);
                },
                None => {},
            }
            i = i + 1;
        }
        assert(all.take(all.len() as int) =~= all);
        out
    }

    /// The whole submission.
    pub fn all(&self) -> (r: &'a Vec<(String, String)>)
        ensures
            r.deep_view() == self.data_model(),
    {
        self.data
    }
}

// ------------------------------------------------------------------ overrides
/// A field type failed to type its options at boot.
#[derive(Debug)]
pub struct OptionsError(pub String);

/// The surface being rendered, for override resolution.
#[derive(Debug, Clone, Copy, PartialEq, Eq, Structural)]
pub enum Surface {
    Field,
    Column,
}

/// Where a render is happening, for override resolution (most specific first:
/// the resource's field, then the view key, then the compiled default).
pub struct OverrideScope<'a> {
    pub surface: Surface,
    pub view_key: &'a str,
    pub resource: Option<&'a str>,
    pub field: Option<&'a str>,
}

/// A runtime override failed to render.
#[derive(Debug)]
pub struct OverrideError(pub String);

/// The default resolver: no overrides, so the compiled path always runs.
pub struct NoOverrides;

impl NoOverrides {
    /// Nothing overrides anything.
    pub fn render_override(&self, _scope: &OverrideScope<'_>) -> (r: Option<
        Result<String, OverrideError>,
    >)
        ensures
            r is None,
    {
        None
    }
}

/// A field's markup: an override's where one rendered, the compiled default
/// otherwise. A failing override falls back rather than blank the field.
pub fn render_field(overridden: Option<Result<String, OverrideError>>, default: Markup) -> (r:
    Markup)
    ensures
        match overridden {
            Some(Ok(html)) => r@ == html@,
            _ => r == default,
        },
{
    match overridden {
        Some(Ok(html)) => Markup::from_override(html),
        Some(Err(_)) => default,
        None => default,
    }
}

// ------------------------------------------------------------------- controls
/// Where an adornment sits relative to the input.
#[derive(Debug, Clone, Copy, PartialEq, Eq, Structural)]
pub enum Placement {
    Leading,
    Trailing,
}

/// A control placed beside the input (a copy button, a currency symbol): data,
/// never HTML, so an override re-presents it.
#[derive(Debug)]
pub struct Adornment {
    pub placement: Placement,
    /// `true` renders a button (an action); `false` an inert affix.
    pub button: bool,
    /// Visible text and accessible label.
    pub label: String,
    /// The island wiring a button (bare like `copy` for core, dotted
    /// `vendor.name` for a plugin). `None` for an inert affix.
    pub widget: Option<String>,
}

/// An [`Adornment`], over characters.
pub struct AdornmentModel {
    pub placement: Placement,
    pub button: bool,
    pub label: Seq<char>,
    pub widget: Option<Seq<char>>,
}

impl DeepView for Adornment {
    type V = AdornmentModel;

    open spec fn deep_view(&self) -> AdornmentModel {
        AdornmentModel {
            placement: self.placement,
            button: self.button,
            label: self.label@,
            widget: self.widget.deep_view(),
        }
    }
}

impl Adornment {
    /// A copy of the adornment.
    pub fn copy(&self) -> (r: Adornment)
        ensures
            r.deep_view() == self.deep_view(),
    {
        Adornment {
            placement: self.placement,
            button: self.button,
            label: self.label.clone(),
            widget: match &self.widget {
                Some(w) => Some(w.clone()),
                None => None,
            },
        }
    }
}

/// A copy of some adornments.
pub fn copy_adornments(list: &Vec<Adornment>) -> (out: Vec<Adornment>)
    ensures
        out.deep_view() == list.deep_view(),
{
    let mut out: Vec<Adornment> = Vec::new();
    let mut i: usize = 0;
    while i < list.len()
        invariant
            i <= list.len(),
            out.len() == i,
            forall|j: int| 0 <= j < i ==> #[trigger] out@[j].deep_view() == list@[j].deep_view(),
        decreases list.len() - i,
    {
        out.push(list[i].copy());
        i = i + 1;
    }
    assert(out.deep_view() =~= list.deep_view());
    out
}

/// The adornments that sit on one side, in order.
pub open spec fn on_side(list: Seq<AdornmentModel>, side: Placement) -> Seq<AdornmentModel> {
    list.filter(|a: AdornmentModel| a.placement == side)
}

/// The adornments that sit on one side, in order.
pub fn placed(list: &Vec<Adornment>, side: Placement) -> (out: Vec<Adornment>)
    ensures
        out.deep_view() == on_side(list.deep_view(), side),
{
    let mut out: Vec<Adornment> = Vec::new();
    let ghost all = list.deep_view();
    let ghost p = |a: AdornmentModel| a.placement == side;
    let mut i: usize = 0;
    proof {
        reveal(Seq::filter);
    }
    assert(out.deep_view() =~= all.take(0).filter(p));
    while i < list.len()
        invariant
            i <= list.len(),
            all == list.deep_view(),
            p == (|a: AdornmentModel| a.placement == side),
            out.deep_view() == all.take(i as int).filter(p),
        decreases list.len() - i,
    {
        let ghost before = out.deep_view();
        assert(all.take(i + 1).drop_last() =~= all.take(i as int));
        assert(all[i as int] == list@[i as int].deep_view());
        if list[i].placement == side {
            let a: Adornment = list[i].copy();
            let ghost w = a.deep_view();
            out.push(a);
            assert(out.deep_view() =~= before.push(w));
        }
        proof {
            reveal(Seq::filter);
            assert(all.take(i + 1).last() == all[i as int]);
        }
        i = i + 1;
    }
    assert(all.take(all.len() as int) =~= all);
    out
}

/// Whether a character may stand inside an attribute or widget name.
pub open spec fn name_char(c: char, dotted: bool) -> bool {
    is_ascii_lower(c) || is_digit(c) || c == '-' || (dotted && c == '.')
}

/// Whether a text is a lowercase kebab name, with dots where `dotted`.
pub open spec fn named(s: Seq<char>, dotted: bool) -> bool {
    &&& s.len() > 0
    &&& is_ascii_lower(s[0])
    &&& forall|i: int| 0 <= i < s.len() ==> name_char(#[trigger] s[i], dotted)
}

/// `^[a-z][a-z0-9-]*$`, plus `.` when `dotted` (for a widget's `vendor.name`).
pub fn is_name(s: &str, dotted: bool) -> (r: bool)
    ensures
        r == named(s@, dotted),
{
    let chars: Vec<char> = chars_of(s);
    if chars.len() == 0 || !(chars[0] >= 'a' && chars[0] <= 'z') {
        return false;
    }
    let mut i: usize = 0;
    while i < chars.len()
        invariant
            chars@ == s@,
            chars.len() > 0,
            is_ascii_lower(s@[0]),
            i <= chars.len(),
            forall|j: int| 0 <= j < i ==> name_char(#[trigger] s@[j], dotted),
        decreases chars.len() - i,
    {
        let c: char = chars[i];
        assert(s@[i as int] == c);
        if !((c >= 'a' && c <= 'z') || (c >= '0' && c <= '9') || c == '-' || (dotted && c == '.')) {
            return false;
        }
        i = i + 1;
    }
    true
}

/// Attribute names the text control emits itself; an input may not declare them
/// again.
pub open spec fn reserved(name: Seq<char>) -> bool {
    name == "type"@ || name == "id"@ || name == "name"@ || name == "value"@ || name == "required"@
        || name == "class"@
}

/// What is wrong with one attribute name.
pub open spec fn attr_refusal(name: Seq<char>) -> Option<Seq<char>> {
    if !named(name, false) {
        Some("invalid attribute name `"@ + name + "`"@)
    } else if reserved(name) {
        Some("attribute `"@ + name + "` is reserved"@)
    } else {
        None
    }
}

/// What is wrong with the first bad attribute.
pub open spec fn attrs_refusal(attrs: Seq<(Seq<char>, Seq<char>)>) -> Option<Seq<char>>
    decreases attrs.len(),
{
    if attrs.len() == 0 {
        None
    } else {
        match attrs_refusal(attrs.drop_last()) {
            Some(e) => Some(e),
            None => attr_refusal(attrs.last().0),
        }
    }
}

/// What is wrong with the first bad widget.
pub open spec fn widgets_refusal(adornments: Seq<AdornmentModel>) -> Option<Seq<char>>
    decreases adornments.len(),
{
    if adornments.len() == 0 {
        None
    } else {
        match widgets_refusal(adornments.drop_last()) {
            Some(e) => Some(e),
            None => match adornments.last().widget {
                Some(w) => if named(w, true) {
                    None
                } else {
                    Some("invalid widget name `"@ + w + "`"@)
                },
                None => None,
            },
        }
    }
}

/// What is wrong with an input's contributions: its attributes come first.
pub open spec fn contribution_refusal(
    attrs: Seq<(Seq<char>, Seq<char>)>,
    adornments: Seq<AdornmentModel>,
) -> Option<Seq<char>> {
    match attrs_refusal(attrs) {
        Some(e) => Some(e),
        None => widgets_refusal(adornments),
    }
}

/// A refusal among the first attributes is the refusal of them all.
proof fn lemma_attrs_refusal_prefix(attrs: Seq<(Seq<char>, Seq<char>)>, n: int)
    requires
        0 <= n <= attrs.len(),
        attrs_refusal(attrs.take(n)) is Some,
    ensures
        attrs_refusal(attrs) == attrs_refusal(attrs.take(n)),
    decreases attrs.len() - n,
{
    if n == attrs.len() {
        assert(attrs.take(n) =~= attrs);
    } else {
        assert(attrs.take(n + 1).drop_last() =~= attrs.take(n));
        lemma_attrs_refusal_prefix(attrs, n + 1);
    }
}

/// A refusal among the first widgets is the refusal of them all.
proof fn lemma_widgets_refusal_prefix(adornments: Seq<AdornmentModel>, n: int)
    requires
        0 <= n <= adornments.len(),
        widgets_refusal(adornments.take(n)) is Some,
    ensures
        widgets_refusal(adornments) == widgets_refusal(adornments.take(n)),
    decreases adornments.len() - n,
{
    if n == adornments.len() {
        assert(adornments.take(n) =~= adornments);
    } else {
        assert(adornments.take(n + 1).drop_last() =~= adornments.take(n));
        lemma_widgets_refusal_prefix(adornments, n + 1);
    }
}

/// Checks an input's contributed attribute and widget names at boot. Names come
/// from plugin code, so a bad one is a wiring fault caught at boot.
pub fn validate_contributions(attrs: &Vec<(String, String)>, adornments: &Vec<Adornment>) -> (r:
    Result<(), OptionsError>)
    ensures
        match contribution_refusal(attrs.deep_view(), adornments.deep_view()) {
            Some(e) => r is Err && (r->Err_0).0@ == e,
            None => r is Ok,
        },
{
    let ghost all = attrs.deep_view();
    let mut i: usize = 0;
    while i < attrs.len()
        invariant
            i <= attrs.len(),
            all == attrs.deep_view(),
            attrs_refusal(all.take(i as int)) is None,
        decreases attrs.len() - i,
    {
        let name: &str = attrs[i].0.as_str();
        assert(all.take(i + 1).drop_last() =~= all.take(i as int));
        assert(all[i as int].0 == name@);
        if !is_name(name, false) {
            proof {
                lemma_attrs_refusal_prefix(all, i + 1);
            }
            return Err(OptionsError(cat3("invalid attribute name `", name, "`")));
        }
        if same(name, "type") || same(name, "id") || same(name, "name") || same(name, "value")
            || same(name, "required") || same(name, "class") {
            proof {
                lemma_attrs_refusal_prefix(all, i + 1);
            }
            return Err(OptionsError(cat3("attribute `", name, "` is reserved")));
        }
        i = i + 1;
    }
    assert(all.take(all.len() as int) =~= all);
    let ghost marks = adornments.deep_view();
    let mut k: usize = 0;
    while k < adornments.len()
        invariant
            k <= adornments.len(),
            all == attrs.deep_view(),
            attrs_refusal(all) is None,
            marks == adornments.deep_view(),
            widgets_refusal(marks.take(k as int)) is None,
        decreases adornments.len() - k,
    {
        assert(marks.take(k + 1).drop_last() =~= marks.take(k as int));
        assert(marks[k as int] == adornments@[k as int].deep_view());
        match &adornments[k].widget {
            Some(w) => {
                if !is_name(w.as_str(), true) {
                    proof {
                        lemma_widgets_refusal_prefix(marks, k + 1);
                    }
                    return Err(OptionsError(cat3("invalid widget name `", w.as_str(), "`")));
                }
            },
            None => {},
        }
        k = k + 1;
    }
    assert(marks.take(marks.len() as int) =~= marks);
    Ok(())
}

// --------------------------------------------------------------------- inputs
/// The option keys a field that is no repeater may carry, as its descriptor
/// spells them. Numbers are kept as their text.
pub struct LeafOptions {
    pub input: Option<String>,
    pub copy: Option<bool>,
    pub min: Option<String>,
    pub max: Option<String>,
    pub step: Option<String>,
    pub options: Vec<SelectOption>,
    pub source: Option<String>,
    /// All of it as it was written, for a type that a module contributes.
    pub written: Option<String>,
}

/// [`LeafOptions`], over characters.
pub struct LeafOptionsModel {
    pub input: Option<Seq<char>>,
    pub copy: Option<bool>,
    pub min: Option<Seq<char>>,
    pub max: Option<Seq<char>>,
    pub step: Option<Seq<char>>,
    pub options: Seq<SelectOptionModel>,
    pub source: Option<Seq<char>>,
    pub written: Option<Seq<char>>,
}

impl DeepView for LeafOptions {
    type V = LeafOptionsModel;

    open spec fn deep_view(&self) -> LeafOptionsModel {
        LeafOptionsModel {
            input: self.input.deep_view(),
            copy: self.copy,
            min: self.min.deep_view(),
            max: self.max.deep_view(),
            step: self.step.deep_view(),
            options: self.options.deep_view(),
            source: self.source.deep_view(),
            written: self.written.deep_view(),
        }
    }
}

/// Options that set nothing.
pub open spec fn no_leaf_options() -> LeafOptionsModel {
    LeafOptionsModel {
        input: None,
        copy: None,
        min: None,
        max: None,
        step: None,
        options: Seq::empty(),
        source: None,
        written: None,
    }
}

impl LeafOptions {
    /// Options that set nothing.
    pub fn none() -> (r: LeafOptions)
        ensures
            r.deep_view() == no_leaf_options(),
    {
        let options: Vec<SelectOption> = Vec::new();
        assert(options.deep_view() =~= Seq::<SelectOptionModel>::empty());
        LeafOptions {
            input: None,
            copy: None,
            min: None,
            max: None,
            step: None,
            options,
            source: None,
            written: None,
        }
    }
}

/// One choice of a `select` or `radio` field. The label defaults to the value.
#[derive(Debug)]
pub struct SelectOption {
    pub value: String,
    pub label: Option<String>,
}

/// A [`SelectOption`], over characters.
pub struct SelectOptionModel {
    pub value: Seq<char>,
    pub label: Option<Seq<char>>,
}

impl DeepView for SelectOption {
    type V = SelectOptionModel;

    open spec fn deep_view(&self) -> SelectOptionModel {
        SelectOptionModel { value: self.value@, label: self.label.deep_view() }
    }
}

/// A copy of some choices.
pub fn copy_choices(list: &Vec<SelectOption>) -> (out: Vec<SelectOption>)
    ensures
        out.deep_view() == list.deep_view(),
{
    let mut out: Vec<SelectOption> = Vec::new();
    let mut i: usize = 0;
    while i < list.len()
        invariant
            i <= list.len(),
            out.len() == i,
            forall|j: int| 0 <= j < i ==> #[trigger] out@[j].deep_view() == list@[j].deep_view(),
        decreases list.len() - i,
    {
        let label: Option<String> = match &list[i].label {
            Some(l) => Some(l.clone()),
            None => None,
        };
        out.push(SelectOption { value: list[i].value.clone(), label });
        i = i + 1;
    }
    assert(out.deep_view() =~= list.deep_view());
    out
}

/// An input variant of the text field that a plugin contributes: its registry
/// key, its HTML type, the rules it adds, and how it parameterises the control.
/// Its attributes stand in name order.
pub struct InputDef {
    pub key: String,
    pub html_type: String,
    pub rules: Vec<Rule>,
    pub attributes: Vec<(String, String)>,
    pub adornments: Vec<Adornment>,
    pub assets: Vec<String>,
}

/// What an input contributes, over characters.
pub struct InputModel {
    pub html_type: Seq<char>,
    pub rules: Seq<Rule>,
    pub attributes: Seq<(Seq<char>, Seq<char>)>,
    pub adornments: Seq<AdornmentModel>,
    pub assets: Seq<Seq<char>>,
}

/// An input variant of the text field.
pub enum InputType {
    Text,
    Email,
    Tel,
    Number,
    Url,
    Custom(InputDef),
}

/// The copy button.
pub open spec fn copy_button() -> AdornmentModel {
    AdornmentModel {
        placement: Placement::Trailing,
        button: true,
        label: "Copy"@,
        widget: Some("copy"@),
    }
}

/// A bound as an attribute, where it is set.
pub open spec fn bound_attr(name: Seq<char>, value: Option<Seq<char>>) -> Seq<
    (Seq<char>, Seq<char>),
> {
    match value {
        Some(v) => seq![(name, v)],
        None => Seq::empty(),
    }
}

impl InputType {
    /// The registry key naming this input.
    pub open spec fn key_model(&self) -> Seq<char> {
        match self {
            InputType::Text => "text"@,
            InputType::Email => "email"@,
            InputType::Tel => "tel"@,
            InputType::Number => "number"@,
            InputType::Url => "url"@,
            InputType::Custom(def) => def.key@,
        }
    }

    /// What this input contributes under the given options.
    pub open spec fn contributes(&self, raw: LeafOptionsModel) -> InputModel {
        match self {
            InputType::Text => InputModel {
                html_type: "text"@,
                rules: Seq::empty(),
                attributes: Seq::empty(),
                adornments: Seq::empty(),
                assets: Seq::empty(),
            },
            InputType::Email => InputModel {
                html_type: "email"@,
                rules: seq![Rule::Email],
                attributes: Seq::empty(),
                adornments: Seq::empty(),
                assets: Seq::empty(),
            },
            InputType::Tel => InputModel {
                html_type: "tel"@,
                rules: Seq::empty(),
                attributes: Seq::empty(),
                adornments: Seq::empty(),
                assets: Seq::empty(),
            },
            InputType::Number => InputModel {
                html_type: "number"@,
                rules: seq![Rule::Numeric],
                attributes: bound_attr("max"@, raw.max) + bound_attr("min"@, raw.min) + bound_attr(
                    "step"@,
                    raw.step,
                ),
                adornments: Seq::empty(),
                assets: Seq::empty(),
            },
            InputType::Url => InputModel {
                html_type: "url"@,
                rules: seq![Rule::Url],
                attributes: Seq::empty(),
                adornments: if raw.copy == Some(false) {
                    Seq::empty()
                } else {
                    seq![copy_button()]
                },
                assets: Seq::empty(),
            },
            InputType::Custom(def) => InputModel {
                html_type: def.html_type@,
                rules: def.rules@,
                attributes: def.attributes.deep_view(),
                adornments: def.adornments.deep_view(),
                assets: def.assets.deep_view(),
            },
        }
    }

    /// The registry key naming this input.
    pub fn key(&self) -> (r: &str)
        ensures
            r@ == self.key_model(),
    {
        match self {
            InputType::Text => "text",
            InputType::Email => "email",
            InputType::Tel => "tel",
            InputType::Number => "number",
            InputType::Url => "url",
            InputType::Custom(def) => def.key.as_str(),
        }
    }

    /// The HTML `type` attribute.
    pub fn html_type(&self) -> (r: &str)
        ensures
            forall|raw: LeafOptionsModel| r@ == #[trigger] self.contributes(raw).html_type,
    {
        match self {
            InputType::Text => "text",
            InputType::Email => "email",
            InputType::Tel => "tel",
            InputType::Number => "number",
            InputType::Url => "url",
            InputType::Custom(def) => def.html_type.as_str(),
        }
    }

    /// The rules this input contributes.
    pub fn rules(&self) -> (r: Vec<Rule>)
        ensures
            forall|raw: LeafOptionsModel| r@ == #[trigger] self.contributes(raw).rules,
    {
        match self {
            InputType::Text => Vec::new(),
            InputType::Email => {
                let r: Vec<Rule> = vec![Rule::Email];
                assert(r@ =~= seq![Rule::Email]);
                r
            },
            InputType::Tel => Vec::new(),
            InputType::Number => {
                let r: Vec<Rule> = vec![Rule::Numeric];
                assert(r@ =~= seq![Rule::Numeric]);
                r
            },
            InputType::Url => {
                let r: Vec<Rule> = vec![Rule::Url];
                assert(r@ =~= seq![Rule::Url]);
                r
            },
            InputType::Custom(def) => copy_rules(&def.rules),
        }
    }

    /// Extra attributes of the control (a number input's bounds and step).
    pub fn attributes(&self, raw: &LeafOptions) -> (r: Vec<(String, String)>)
        ensures
            r.deep_view() == self.contributes(raw.deep_view()).attributes,
    {
        match self {
            InputType::Number => {
                let mut r: Vec<(String, String)> = Vec::new();
                assert(r.deep_view() =~= Seq::<(Seq<char>, Seq<char>)>::empty());
                push_bound(&mut r, "max", &raw.max);
                push_bound(&mut r, "min", &raw.min);
                push_bound(&mut r, "step", &raw.step);
                assert(r.deep_view() =~= self.contributes(raw.deep_view()).attributes);
                r
            },
            InputType::Custom(def) => crate::text::copy_pairs(&def.attributes),
            _ => {
                let r: Vec<(String, String)> = Vec::new();
                assert(r.deep_view() =~= Seq::<(Seq<char>, Seq<char>)>::empty());
                r
            },
        }
    }

    /// Controls placed beside the input.
    pub fn adornments(&self, raw: &LeafOptions) -> (r: Vec<Adornment>)
        ensures
            r.deep_view() == self.contributes(raw.deep_view()).adornments,
    {
        match self {
            InputType::Url => {
                let mut r: Vec<Adornment> = Vec::new();
                let shown: bool = match raw.copy {
                    Some(c) => c,
                    None => default_true(),
                };
                if shown {
                    r.push(
                        Adornment {
                            placement: Placement::Trailing,
                            button: true,
                            label: "Copy".to_owned(),
                            widget: Some("copy".to_owned()),
                        },
                    );
                }
                assert(r.deep_view() =~= self.contributes(raw.deep_view()).adornments);
                r
            },
            InputType::Custom(def) => copy_adornments(&def.adornments),
            _ => {
                let r: Vec<Adornment> = Vec::new();
                assert(r.deep_view() =~= Seq::<AdornmentModel>::empty());
                r
            },
        }
    }

    /// Asset keys this input needs.
    pub fn assets(&self) -> (r: Vec<String>)
        ensures
            forall|raw: LeafOptionsModel| r.deep_view() == #[trigger] self.contributes(raw).assets,
    {
        match self {
            InputType::Custom(def) => crate::strs::copy_list(&def.assets),
            _ => {
                let r: Vec<String> = Vec::new();
                assert(r.deep_view() =~= Seq::<Seq<char>>::empty());
                r
            },
        }
    }
}

/// The copy button shows unless it is switched off.
pub fn default_true() -> (r: bool)
    ensures
        r,
{
    true
}

/// The input a text field renders unless its options name one.
pub fn default_input() -> (r: String)
    ensures
        r@ == "text"@,
{
    "text".to_owned()
}

/// Adds a bound as an attribute, where it is set.
fn push_bound(attrs: &mut Vec<(String, String)>, name: &str, value: &Option<String>)
    ensures
        final(attrs).deep_view() == old(attrs).deep_view() + bound_attr(name@, value.deep_view()),
{
    let ghost before = attrs.deep_view();
    match value {
        Some(v) => {
            attrs.push((name.to_owned(), v.clone()));
            assert(attrs.deep_view() =~= before + seq![(name@, v@)]);
        },
        None => {
            assert(before =~= before + Seq::<(Seq<char>, Seq<char>)>::empty());
        },
    }
}

/// A copy of some rules.
pub fn copy_rules(rules: &Vec<Rule>) -> (out: Vec<Rule>)
    ensures
        out@ == rules@,
{
    let mut out: Vec<Rule> = Vec::new();
    let mut i: usize = 0;
    while i < rules.len()
        invariant
            i <= rules.len(),
            out@ == rules@.take(i as int),
        decreases rules.len() - i,
    {
        out.push(rules[i]);
        i = i + 1;
    }
    assert(rules@.take(rules@.len() as int) =~= rules@);
    out
}

/// The framework's built-in inputs.
pub fn builtin_input_registry() -> (r: Vec<InputType>)
    ensures
        r@ == seq![
            InputType::Text,
            InputType::Email,
            InputType::Tel,
            InputType::Number,
            InputType::Url,
        ],
{
    let r: Vec<InputType> = vec![
        InputType::Text,
        InputType::Email,
        InputType::Tel,
        InputType::Number,
        InputType::Url,
    ];
    assert(r@ =~= seq![
        InputType::Text,
        InputType::Email,
        InputType::Tel,
        InputType::Number,
        InputType::Url,
    ]);
    r
}

/// Where the last input of a key stands in a registry.
pub open spec fn input_at(inputs: Seq<InputType>, key: Seq<char>) -> Option<int>
    decreases inputs.len(),
{
    if inputs.len() == 0 {
        None
    } else if inputs.last().key_model() == key {
        Some(inputs.len() - 1)
    } else {
        input_at(inputs.drop_last(), key)
    }
}

/// Where the last input of a key stands in a registry.
fn find_input(inputs: &Vec<InputType>, key: &str) -> (r: Option<usize>)
    ensures
        match r {
            Some(i) => i < inputs.len() && input_at(inputs@, key@) == Some(i as int),
            None => input_at(inputs@, key@) is None,
        },
{
    let mut k: usize = inputs.len();
    assert(inputs@.take(inputs@.len() as int) =~= inputs@);
    while k > 0
        invariant
            k <= inputs.len(),
            input_at(inputs@, key@) == input_at(inputs@.take(k as int), key@),
        decreases k,
    {
        assert(inputs@.take(k as int).drop_last() =~= inputs@.take(k - 1));
        if same(inputs[k - 1].key(), key) {
            return Some(k - 1);
        }
        k = k - 1;
    }
    None
}

// -------------------------------------------------------------------- options
/// What a text field renders and validates with, computed and name-checked once
/// at boot from the selected input.
pub struct TextResolved {
    pub html_type: String,
    pub attrs: Vec<(String, String)>,
    pub adornments: Vec<Adornment>,
    pub rules: Vec<Rule>,
    pub assets: Vec<String>,
}

/// The options of a field that is no repeater, resolved.
pub enum LeafResolved {
    Text(TextResolved),
    Choices(Vec<SelectOption>),
    Reference(String),
    Contributed(Contributed),
}

/// [`LeafResolved`], over characters.
pub enum LeafResolvedModel {
    Text(InputModel),
    Choices(Seq<SelectOptionModel>),
    Reference(Seq<char>),
    Contributed(ContributedModel),
}

impl DeepView for LeafResolved {
    type V = LeafResolvedModel;

    open spec fn deep_view(&self) -> LeafResolvedModel {
        match self {
            LeafResolved::Text(t) => LeafResolvedModel::Text(
                InputModel {
                    html_type: t.html_type@,
                    rules: t.rules@,
                    attributes: t.attrs.deep_view(),
                    adornments: t.adornments.deep_view(),
                    assets: t.assets.deep_view(),
                },
            ),
            LeafResolved::Choices(c) => LeafResolvedModel::Choices(c.deep_view()),
            LeafResolved::Reference(s) => LeafResolvedModel::Reference(s@),
            LeafResolved::Contributed(c) => LeafResolvedModel::Contributed(c.deep_view()),
        }
    }
}

/// The field types that stand for one value: the built-in ones, and any that a module
/// contributes.
#[derive(Clone, Copy, Debug, PartialEq, Eq, Structural)]
pub enum LeafKind {
    Text,
    Textarea,
    Select,
    Switch,
    Date,
    Password,
    Radio,
    Reference,
    Contributed,
}

/// The registry key of a field type.
pub open spec fn leaf_key(kind: LeafKind) -> Seq<char> {
    match kind {
        LeafKind::Text => "text"@,
        LeafKind::Textarea => "textarea"@,
        LeafKind::Select => "select"@,
        LeafKind::Switch => "switch"@,
        LeafKind::Date => "date"@,
        LeafKind::Password => "password"@,
        LeafKind::Radio => "radio"@,
        LeafKind::Reference => "reference"@,
        LeafKind::Contributed => "contributed"@,
    }
}

/// What a text field's options come to over a registry of inputs.
pub open spec fn text_resolved(
    inputs: Seq<InputType>,
    raw: LeafOptionsModel,
) -> Result<InputModel, Seq<char>> {
    let key = match raw.input {
        Some(k) => k,
        None => "text"@,
    };
    match input_at(inputs, key) {
        None => Err("unknown input type `"@ + key + "`"@),
        Some(i) => {
            let c = inputs[i].contributes(raw);
            match contribution_refusal(c.attributes, c.adornments) {
                Some(e) => Err(e),
                None => Ok(c),
            }
        },
    }
}

/// What a field's options come to. `raw` is absent where the descriptor gives
/// none, which only the types that need none take.
pub open spec fn leaf_resolved(
    kind: LeafKind,
    raw: Option<LeafOptionsModel>,
    inputs: Seq<InputType>,
    pickers: Seq<Seq<char>>,
) -> Result<Option<LeafResolvedModel>, Seq<char>> {
    match kind {
        LeafKind::Text => match text_resolved(
            inputs,
            match raw {
                Some(o) => o,
                None => no_leaf_options(),
            },
        ) {
            Ok(c) => Ok(Some(LeafResolvedModel::Text(c))),
            Err(e) => Err(e),
        },
        LeafKind::Select | LeafKind::Radio => match raw {
            Some(o) => Ok(Some(LeafResolvedModel::Choices(o.options))),
            None => Err("invalid type: null, expected struct SelectOptions"@),
        },
        LeafKind::Reference => match raw {
            None => Err("invalid type: null, expected struct RefOptions"@),
            Some(o) => match o.source {
                None => Err("missing field `source`"@),
                Some(s) => if pickers.contains(s) {
                    Ok(Some(LeafResolvedModel::Reference(s)))
                } else {
                    Err("unknown picker source `"@ + s + "`"@)
                },
            },
        },
        _ => Ok(None),
    }
}

/// Whether an outcome is the one a model states.
pub open spec fn resolves_to(
    r: Result<Option<LeafResolved>, OptionsError>,
    m: Result<Option<LeafResolvedModel>, Seq<char>>,
) -> bool {
    match (r, m) {
        (Ok(a), Ok(b)) => a.deep_view() == b,
        (Err(a), Err(b)) => a.0@ == b,
        _ => false,
    }
}

/// Resolves a text field's options.
fn resolve_text(inputs: &Vec<InputType>, raw: &LeafOptions) -> (r: Result<
    TextResolved,
    OptionsError,
>)
    ensures
        match text_resolved(inputs@, raw.deep_view()) {
            Ok(c) => r is Ok && LeafResolved::Text(r->Ok_0).deep_view() == LeafResolvedModel::Text(
                c,
            ),
            Err(e) => r is Err && (r->Err_0).0@ == e,
        },
{
    let key: String = match &raw.input {
        Some(k) => k.clone(),
        None => default_input(),
    };
    match find_input(inputs, key.as_str()) {
        None => Err(OptionsError(cat3("unknown input type `", key.as_str(), "`"))),
        Some(i) => {
            let input: &InputType = &inputs[i];
            let attrs: Vec<(String, String)> = input.attributes(raw);
            let adornments: Vec<Adornment> = input.adornments(raw);
            let html_type: String = input.html_type().to_owned();
            let rules: Vec<Rule> = input.rules();
            let assets: Vec<String> = input.assets();
            let ghost c = inputs@[i as int].contributes(raw.deep_view());
            assert(html_type@ == c.html_type && rules@ == c.rules && assets.deep_view() == c.assets);
            match validate_contributions(&attrs, &adornments) {
                Err(e) => Err(e),
                Ok(_) => Ok(TextResolved { html_type, attrs, adornments, rules, assets }),
            }
        },
    }
}

impl LeafKind {
    /// The registry key of a field type.
    pub fn view_key(self) -> (r: &'static str)
        ensures
            r@ == leaf_key(self),
    {
        match self {
            LeafKind::Text => "text",
            LeafKind::Textarea => "textarea",
            LeafKind::Select => "select",
            LeafKind::Switch => "switch",
            LeafKind::Date => "date",
            LeafKind::Password => "password",
            LeafKind::Radio => "radio",
            LeafKind::Reference => "reference",
            LeafKind::Contributed => "contributed",
        }
    }

    /// Types the descriptor's options once at boot.
    pub fn resolve_options(
        self,
        raw: Option<&LeafOptions>,
        inputs: &Vec<InputType>,
        pickers: &Vec<String>,
    ) -> (r: Result<Option<LeafResolved>, OptionsError>)
        ensures
            resolves_to(
                r,
                leaf_resolved(self, raw.deep_view(), inputs@, pickers.deep_view()),
            ),
    {
        match self {
            LeafKind::Text => {
                let resolved: Result<TextResolved, OptionsError> = match raw {
                    Some(o) => resolve_text(inputs, o),
                    None => resolve_text(inputs, &LeafOptions::none()),
                };
                match resolved {
                    Ok(t) => Ok(Some(LeafResolved::Text(t))),
                    Err(e) => Err(e),
                }
            },
            LeafKind::Select | LeafKind::Radio => match raw {
                Some(o) => Ok(Some(LeafResolved::Choices(copy_choices(&o.options)))),
                None => Err(
                    OptionsError("invalid type: null, expected struct SelectOptions".to_owned()),
                ),
            },
            LeafKind::Reference => match raw {
                None => Err(
                    OptionsError("invalid type: null, expected struct RefOptions".to_owned()),
                ),
                Some(o) => match &o.source {
                    None => Err(OptionsError("missing field `source`".to_owned())),
                    Some(s) => if listed(pickers, s.as_str()) {
                        Ok(Some(LeafResolved::Reference(s.clone())))
                    } else {
                        Err(OptionsError(cat3("unknown picker source `", s.as_str(), "`")))
                    },
                },
            },
            _ => Ok(None),
        }
    }

    /// Rules this type always contributes, ahead of the descriptor's own.
    pub fn intrinsic_rules(self, opts: &Option<LeafResolved>) -> (r: Vec<Rule>)
        ensures
            r@ == intrinsic(self, opts.deep_view()),
    {
        match self {
            LeafKind::Text => match opts {
                Some(LeafResolved::Text(t)) => copy_rules(&t.rules),
                _ => Vec::new(),
            },
            LeafKind::Date => {
                let r: Vec<Rule> = vec![Rule::Date];
                assert(r@ =~= seq![Rule::Date]);
                r
            },
            LeafKind::Contributed => match opts {
                Some(LeafResolved::Contributed(c)) => copy_rules(&c.made.rules),
                _ => Vec::new(),
            },
            _ => Vec::new(),
        }
    }

    /// Asset keys this type's control needs on a page that renders it.
    pub fn assets(self, opts: &Option<LeafResolved>) -> (r: Vec<String>)
        ensures
            r.deep_view() == leaf_assets(self, opts.deep_view()),
    {
        match self {
            LeafKind::Text => match opts {
                Some(LeafResolved::Text(t)) => crate::strs::copy_list(&t.assets),
                _ => {
                    let r: Vec<String> = Vec::new();
                    assert(r.deep_view() =~= Seq::<Seq<char>>::empty());
                    r
                },
            },
            LeafKind::Contributed => match opts {
                Some(LeafResolved::Contributed(c)) => crate::strs::copy_list(&c.made.assets),
                _ => {
                    let r: Vec<String> = Vec::new();
                    assert(r.deep_view() =~= Seq::<Seq<char>>::empty());
                    r
                },
            },
            LeafKind::Reference => {
                let mut r: Vec<String> = Vec::new();
                r.push("fields/ref-picker.js".to_owned());
                r.push("fields/ref-picker.css".to_owned());
                assert(r.deep_view() =~= seq!["fields/ref-picker.js"@, "fields/ref-picker.css"@]);
                r
            },
            _ => {
                let r: Vec<String> = Vec::new();
                assert(r.deep_view() =~= Seq::<Seq<char>>::empty());
                r
            },
        }
    }
}

/// The rules a type always contributes.
pub open spec fn intrinsic(kind: LeafKind, opts: Option<LeafResolvedModel>) -> Seq<Rule> {
    match kind {
        LeafKind::Text => match opts {
            Some(LeafResolvedModel::Text(c)) => c.rules,
            _ => Seq::empty(),
        },
        LeafKind::Date => seq![Rule::Date],
        LeafKind::Contributed => match opts {
            Some(LeafResolvedModel::Contributed(c)) => c.made.rules,
            _ => Seq::empty(),
        },
        _ => Seq::empty(),
    }
}

/// The assets a type's control needs.
pub open spec fn leaf_assets(kind: LeafKind, opts: Option<LeafResolvedModel>) -> Seq<Seq<char>> {
    match kind {
        LeafKind::Text => match opts {
            Some(LeafResolvedModel::Text(c)) => c.assets,
            _ => Seq::empty(),
        },
        LeafKind::Reference => seq!["fields/ref-picker.js"@, "fields/ref-picker.css"@],
        LeafKind::Contributed => match opts {
            Some(LeafResolvedModel::Contributed(c)) => c.made.assets,
            _ => Seq::empty(),
        },
        _ => Seq::empty(),
    }
}

// --------------------------------------------------------------------- values
/// Whether a stored value reads as true: what each backend gives back for a
/// boolean column as text.
pub open spec fn is_on(stored: Option<Seq<char>>) -> bool {
    match stored {
        None => false,
        Some(s) => {
            let t = trimmed(s);
            t == "1"@ || t == "true"@ || t == "TRUE"@ || t == "t"@ || t == "yes"@ || t == "on"@
        },
    }
}

/// Whether a stored value reads as true.
pub fn stored_is_on(stored: Option<&str>) -> (r: bool)
    ensures
        r == is_on(stored.deep_view()),
{
    match stored {
        None => false,
        Some(s) => {
            let t: &str = trim(s);
            same(t, "1") || same(t, "true") || same(t, "TRUE") || same(t, "t") || same(t, "yes")
                || same(t, "on")
        },
    }
}

/// A plaintext with what hashing it gave.
pub struct Hashed {
    pub plain: String,
    pub outcome: Result<String, String>,
}

/// [`Hashed`], over characters.
pub struct HashedModel {
    pub plain: Seq<char>,
    pub outcome: Result<Seq<char>, Seq<char>>,
}

impl DeepView for Hashed {
    type V = HashedModel;

    open spec fn deep_view(&self) -> HashedModel {
        HashedModel {
            plain: self.plain@,
            outcome: match self.outcome {
                Ok(h) => Ok(h@),
                Err(e) => Err(e@),
            },
        }
    }
}

/// What hashing a plaintext gave. One that was never hashed is a failure.
pub open spec fn hash_outcome(hashes: Seq<HashedModel>, plain: Seq<char>) -> Result<
    Seq<char>,
    Seq<char>,
>
    decreases hashes.len(),
{
    if hashes.len() == 0 {
        Err("the password was not hashed"@)
    } else if hashes[0].plain == plain {
        hashes[0].outcome
    } else {
        hash_outcome(hashes.drop_first(), plain)
    }
}

/// What hashing a plaintext gave.
fn find_hash(hashes: &Vec<Hashed>, plain: &str) -> (r: Result<String, String>)
    ensures
        match hash_outcome(hashes.deep_view(), plain@) {
            Ok(h) => r is Ok && (r->Ok_0)@ == h,
            Err(e) => r is Err && (r->Err_0)@ == e,
        },
{
    let ghost all = hashes.deep_view();
    let mut i: usize = 0;
    assert(all.skip(0) =~= all);
    while i < hashes.len()
        invariant
            i <= hashes.len(),
            all == hashes.deep_view(),
            hash_outcome(all, plain@) == hash_outcome(all.skip(i as int), plain@),
        decreases hashes.len() - i,
    {
        assert(all.skip(i as int).drop_first() =~= all.skip(i + 1));
        assert(all[i as int] == hashes@[i as int].deep_view());
        if same(hashes[i].plain.as_str(), plain) {
            return match &hashes[i].outcome {
                Ok(h) => Ok(h.clone()),
                Err(e) => Err(e.clone()),
            };
        }
        i = i + 1;
    }
    Err("the password was not hashed".to_owned())
}

/// The plaintext a password submission carries: nothing where it is blank, which
/// leaves the stored password alone.
pub open spec fn password_plain(submitted: Option<Seq<char>>) -> Option<Seq<char>> {
    match submitted {
        None => None,
        Some(s) => if trimmed(s).len() == 0 {
            None
        } else {
            Some(trimmed(s))
        },
    }
}

/// How a submitted value becomes the value that is stored. `None` leaves the
/// attribute out of the write, so the column keeps what it held.
pub open spec fn leaf_attr(
    kind: LeafKind,
    submitted: Option<Seq<char>>,
    hashes: Seq<HashedModel>,
) -> Result<Option<ScalarModel>, Seq<char>> {
    match kind {
        LeafKind::Switch => Ok(Some(ScalarModel::Bool(is_on(submitted)))),
        LeafKind::Date => match submitted {
            None => Ok(None),
            Some(s) => if trimmed(s).len() == 0 {
                Ok(Some(ScalarModel::Null))
            } else {
                Ok(Some(ScalarModel::Text(trimmed(s))))
            },
        },
        LeafKind::Password => match password_plain(submitted) {
            None => Ok(None),
            Some(plain) => match hash_outcome(hashes, plain) {
                Ok(h) => Ok(Some(ScalarModel::Text(h))),
                Err(e) => Err(e),
            },
        },
        _ => match submitted {
            None => Ok(None),
            Some(s) => Ok(Some(ScalarModel::Text(s))),
        },
    }
}

/// How a stored value is presented back in the control on an edit.
pub open spec fn leaf_control(kind: LeafKind, stored: Option<Seq<char>>) -> Seq<char> {
    let text = match stored {
        Some(s) => s,
        None => Seq::empty(),
    };
    match kind {
        LeafKind::Switch => if is_on(stored) {
            "1"@
        } else {
            Seq::empty()
        },
        LeafKind::Date => split_on(trimmed(text), either('T', ' '))[0],
        LeafKind::Password => Seq::empty(),
        _ => text,
    }
}

/// Whether an outcome is the one a model states.
pub open spec fn stores(
    r: Result<Option<Scalar>, String>,
    m: Result<Option<ScalarModel>, Seq<char>>,
) -> bool {
    match (r, m) {
        (Ok(a), Ok(b)) => a.deep_view() == b,
        (Err(a), Err(b)) => a@ == b,
        _ => false,
    }
}

impl LeafKind {
    /// How a submitted value becomes the value that is stored.
    pub fn to_attr(self, submitted: Option<&str>, hashes: &Vec<Hashed>) -> (r: Result<
        Option<Scalar>,
        String,
    >)
        ensures
            stores(r, leaf_attr(self, submitted.deep_view(), hashes.deep_view())),
    {
        match self {
            LeafKind::Switch => Ok(Some(Scalar::Bool(stored_is_on(submitted)))),
            LeafKind::Date => match submitted {
                None => Ok(None),
                Some(s) => {
                    let t: &str = trim(s);
                    if t.unicode_len() == 0 {
                        Ok(Some(Scalar::Null))
                    } else {
                        Ok(Some(Scalar::Text(t.to_owned())))
                    }
                },
            },
            LeafKind::Password => match password_text(submitted) {
                None => Ok(None),
                Some(plain) => match find_hash(hashes, plain.as_str()) {
                    Ok(h) => Ok(Some(Scalar::Text(h))),
                    Err(e) => Err(e),
                },
            },
            _ => match submitted {
                None => Ok(None),
                Some(s) => Ok(Some(Scalar::Text(s.to_owned()))),
            },
        }
    }

    /// How a stored value is presented back in the control on an edit.
    pub fn to_control(self, stored: Option<&str>) -> (r: String)
        ensures
            r@ == leaf_control(self, stored.deep_view()),
    {
        match self {
            LeafKind::Switch => if stored_is_on(stored) {
                "1".to_owned()
            } else {
                String::new()
            },
            LeafKind::Date => match stored {
                Some(s) => before_either(trim(s), 'T', ' ').to_owned(),
                None => before_either(trim(empty_str()), 'T', ' ').to_owned(),
            },
            LeafKind::Password => String::new(),
            _ => match stored {
                Some(s) => s.to_owned(),
                None => String::new(),
            },
        }
    }
}

/// The empty text.
fn empty_str() -> (s: &'static str)
    ensures
        s@ == Seq::<char>::empty(),
{
    proof {
        reveal_strlit("");
    }
    assert(""@ =~= Seq::<char>::empty());
    ""
}

/// The plaintext a password submission carries.
pub fn password_text(submitted: Option<&str>) -> (r: Option<String>)
    ensures
        r.deep_view() == password_plain(submitted.deep_view()),
{
    match submitted {
        None => None,
        Some(s) => {
            let t: &str = trim(s);
            if t.unicode_len() == 0 {
                None
            } else {
                Some(t.to_owned())
            }
        },
    }
}

// ----------------------------------------------------------------------- laws
/// A switch always writes: an unchecked box arrives as an absent field, and
/// leaving the attribute out would never clear it.
pub proof fn law_a_switch_always_writes(submitted: Option<Seq<char>>, hashes: Seq<HashedModel>)
    ensures
        leaf_attr(LeafKind::Switch, submitted, hashes) == Ok::<Option<ScalarModel>, Seq<char>>(
            Some(ScalarModel::Bool(is_on(submitted))),
        ),
        leaf_attr(LeafKind::Switch, None, hashes) == Ok::<Option<ScalarModel>, Seq<char>>(
            Some(ScalarModel::Bool(false)),
        ),
{
}

/// A password never reaches the page, whatever is stored.
pub proof fn law_a_password_is_never_echoed(stored: Option<Seq<char>>)
    ensures
        leaf_control(LeafKind::Password, stored).len() == 0,
{
}

/// A blank or absent password leaves the stored one alone.
pub proof fn law_a_blank_password_changes_nothing(
    submitted: Option<Seq<char>>,
    hashes: Seq<HashedModel>,
)
    requires
        submitted is Some ==> trimmed(submitted->0).len() == 0,
    ensures
        leaf_attr(LeafKind::Password, submitted, hashes) == Ok::<Option<ScalarModel>, Seq<char>>(
            None,
        ),
{
}

/// What a switch stores reads back as it was set: on shows as on, off as off.
pub proof fn law_a_switch_reads_back(submitted: Option<Seq<char>>)
    ensures
        is_on(submitted) <==> is_on(Some(leaf_control(LeafKind::Switch, submitted))),
{
    reveal_strlit("1");
    reveal_strlit("true");
    reveal_strlit("TRUE");
    reveal_strlit("t");
    reveal_strlit("yes");
    reveal_strlit("on");
    let one = "1"@;
    crate::strs::lemma_strip_start_at(one, crate::strs::spaces(), 0);
    crate::strs::lemma_strip_end_at(one, crate::strs::spaces(), 1);
    assert(one.skip(0) =~= one);
    assert(one.take(1) =~= one);
    assert(trimmed(one) == one);
    let none = Seq::<char>::empty();
    assert(trimmed(none) =~= none);
    assert(none.len() == 0);
}

/// What a field of plain text stores reads back as it was submitted.
pub proof fn law_plain_text_reads_back(kind: LeafKind, text: Seq<char>, hashes: Seq<HashedModel>)
    requires
        !(kind is Switch),
        !(kind is Date),
        !(kind is Password),
    ensures
        leaf_attr(kind, Some(text), hashes) == Ok::<Option<ScalarModel>, Seq<char>>(
            Some(ScalarModel::Text(text)),
        ),
        leaf_control(kind, Some(text)) == text,
{
}

/// What a date field stores reads back as it was submitted, without the white space
/// around it.
pub proof fn law_a_date_reads_back(date: Seq<char>, hashes: Seq<HashedModel>)
    requires
        trimmed(date).len() > 0,
        forall|i: int| 0 <= i < trimmed(date).len() ==> !either('T', ' ')(trimmed(date)[i]),
    ensures
        leaf_attr(LeafKind::Date, Some(date), hashes) == Ok::<Option<ScalarModel>, Seq<char>>(
            Some(ScalarModel::Text(trimmed(date))),
        ),
        leaf_control(LeafKind::Date, Some(trimmed(date))) == trimmed(date),
{
    crate::strs::lemma_strip_idempotent(date, crate::strs::spaces());
    crate::strs::lemma_split_single(trimmed(date), either('T', ' '));
}

} // verus!
