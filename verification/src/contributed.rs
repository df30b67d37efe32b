//! Field types that modules contribute.
//!
//! A contributed type is code of the module's own. What it makes of a field's options
//! is answered once, at boot; what it stores of a submission is answered when one
//! comes in. Both answers are handed in, looked up by what was asked, and used as a
//! built-in type's would be. A question that was not answered is answered as a type
//! does that says nothing of its own: no rules, no assets, the standard chrome, and the
//! submitted text as it is.

use vstd::prelude::*;

use crate::attr::{Scalar, ScalarModel};
use crate::field::{
    copy_rules, leaf_attr, leaf_resolved, stores, resolves_to, Chrome, Hashed, HashedModel,
    InputType, LeafKind, LeafOptions, LeafOptionsModel, LeafResolved, LeafResolvedModel,
    OptionsError, Rule,
};
use crate::list::copy_option;
use crate::repeater::{leaf_kind, leaf_of};
use crate::strs::{copy_list, listed, same};

verus! {

// --------------------------------------------------------------------- options
/// What a contributed type made of a field's options.
pub struct TypeResolved {
    pub rules: Vec<Rule>,
    pub assets: Vec<String>,
    pub chrome: Chrome,
}

/// A [`TypeResolved`], over characters.
pub struct TypeModel {
    pub rules: Seq<Rule>,
    pub assets: Seq<Seq<char>>,
    pub chrome: Chrome,
}

impl DeepView for TypeResolved {
    type V = TypeModel;

    open spec fn deep_view(&self) -> TypeModel {
        TypeModel {
            rules: self.rules@,
            assets: self.assets.deep_view(),
            chrome: self.chrome,
        }
    }
}

impl TypeResolved {
    /// What a type makes of any options where it says nothing of its own.
    pub fn plain() -> (r: Self)
        ensures
            r.deep_view() == plain_type(),
    {
        let r: TypeResolved = TypeResolved {
            rules: Vec::new(),
            assets: Vec::new(),
            chrome: Chrome::Wrapped,
        };
        assert(r.deep_view().rules =~= Seq::<Rule>::empty());
        assert(r.deep_view().assets =~= Seq::<Seq<char>>::empty());
        r
    }

    /// The same answer again.
    pub fn copy(&self) -> (r: Self)
        ensures
            r.deep_view() == self.deep_view(),
    {
        TypeResolved {
            rules: copy_rules(&self.rules),
            assets: copy_list(&self.assets),
            chrome: self.chrome,
        }
    }
}

/// What a type makes of any options where it says nothing of its own.
pub open spec fn plain_type() -> TypeModel {
    TypeModel { rules: Seq::empty(), assets: Seq::empty(), chrome: Chrome::Wrapped }
}

/// What a contributed type answered about some options, given as they were written.
pub struct TypeAnswer {
    pub field_type: String,
    pub options: Option<String>,
    pub outcome: Result<TypeResolved, String>,
}

/// A [`TypeAnswer`], over characters.
pub struct TypeAnswerModel {
    pub field_type: Seq<char>,
    pub options: Option<Seq<char>>,
    pub outcome: Result<TypeModel, Seq<char>>,
}

impl DeepView for TypeAnswer {
    type V = TypeAnswerModel;

    open spec fn deep_view(&self) -> TypeAnswerModel {
        TypeAnswerModel {
            field_type: self.field_type@,
            options: self.options.deep_view(),
            outcome: match self.outcome {
                Ok(t) => Ok(t.deep_view()),
                Err(e) => Err(e@),
            },
        }
    }
}

/// What a contributed type made of some options: its first answer about them.
pub open spec fn type_made(
    answers: Seq<TypeAnswerModel>,
    field_type: Seq<char>,
    options: Option<Seq<char>>,
) -> Result<TypeModel, Seq<char>>
    decreases answers.len(),
{
    if answers.len() == 0 {
        Ok(plain_type())
    } else if answers[0].field_type == field_type && answers[0].options == options {
        answers[0].outcome
    } else {
        type_made(answers.drop_first(), field_type, options)
    }
}

/// Whether two texts are the same, or both are absent.
fn same_option(a: &Option<String>, b: &Option<String>) -> (r: bool)
    ensures
        r == (a.deep_view() == b.deep_view()),
{
    match (a, b) {
        (Some(x), Some(y)) => same(x.as_str(), y.as_str()),
        (None, None) => true,
        _ => false,
    }
}

/// What a contributed type made of some options.
fn find_type(answers: &Vec<TypeAnswer>, field_type: &str, options: &Option<String>) -> (r: Result<
    TypeResolved,
    String,
>)
    ensures
        match type_made(answers.deep_view(), field_type@, options.deep_view()) {
            Ok(t) => r is Ok && (r->Ok_0).deep_view() == t,
            Err(e) => r is Err && (r->Err_0)@ == e,
        },
{
    let ghost all = answers.deep_view();
    let ghost asked = options.deep_view();
    let mut i: usize = 0;
    assert(all.skip(0) =~= all);
    while i < answers.len()
        invariant
            i <= answers.len(),
            all == answers.deep_view(),
            asked == options.deep_view(),
            type_made(all, field_type@, asked) == type_made(all.skip(i as int), field_type@, asked),
        decreases answers.len() - i,
    {
        assert(all.skip(i as int).drop_first() =~= all.skip(i + 1));
        assert(all[i as int] == answers@[i as int].deep_view());
        let answer: &TypeAnswer = &answers[i];
        if same(answer.field_type.as_str(), field_type) && same_option(&answer.options, options) {
            return match &answer.outcome {
                Ok(t) => Ok(t.copy()),
                Err(e) => Err(e.clone()),
            };
        }
        i = i + 1;
    }
    Ok(TypeResolved::plain())
}

/// A contributed field's options, resolved: its type, the options as they were
/// written, and what the type made of them.
pub struct Contributed {
    pub field_type: String,
    pub options: Option<String>,
    pub made: TypeResolved,
}

/// A [`Contributed`], over characters.
pub struct ContributedModel {
    pub field_type: Seq<char>,
    pub options: Option<Seq<char>>,
    pub made: TypeModel,
}

impl DeepView for Contributed {
    type V = ContributedModel;

    open spec fn deep_view(&self) -> ContributedModel {
        ContributedModel {
            field_type: self.field_type@,
            options: self.options.deep_view(),
            made: self.made.deep_view(),
        }
    }
}

/// The field types a deployment has besides the built-in ones, with what they made of
/// the options they were asked about, and the inputs of its text fields.
pub struct FieldTypes {
    pub inputs: Vec<InputType>,
    pub names: Vec<String>,
    pub answers: Vec<TypeAnswer>,
}

/// [`FieldTypes`], over characters.
pub struct FieldTypesModel {
    pub inputs: Seq<InputType>,
    pub names: Seq<Seq<char>>,
    pub answers: Seq<TypeAnswerModel>,
}

impl View for FieldTypes {
    type V = FieldTypesModel;

    open spec fn view(&self) -> FieldTypesModel {
        FieldTypesModel {
            inputs: self.inputs@,
            names: self.names.deep_view(),
            answers: self.answers.deep_view(),
        }
    }
}

impl FieldTypes {
    /// The built-in field types alone, over some inputs.
    pub fn builtin(inputs: Vec<InputType>) -> (r: Self)
        ensures
            r@ == (FieldTypesModel {
                inputs: inputs@,
                names: Seq::empty(),
                answers: Seq::empty(),
            }),
    {
        let r: FieldTypes = FieldTypes { inputs, names: Vec::new(), answers: Vec::new() };
        assert(r@.names =~= Seq::<Seq<char>>::empty());
        assert(r@.answers =~= Seq::<TypeAnswerModel>::empty());
        r
    }
}

/// The type of a key that stands for one value: a built-in one, or a contributed one
/// that is registered.
pub open spec fn leaf_in(key: Seq<char>, types: FieldTypesModel) -> Option<LeafKind> {
    match leaf_of(key) {
        Some(k) => Some(k),
        None => if types.names.contains(key) {
            Some(LeafKind::Contributed)
        } else {
            None
        },
    }
}

/// The type of a key that stands for one value.
pub fn find_leaf(key: &str, types: &FieldTypes) -> (r: Option<LeafKind>)
    ensures
        r == leaf_in(key@, types@),
{
    match leaf_kind(key) {
        Some(k) => Some(k),
        None => if listed(&types.names, key) {
            Some(LeafKind::Contributed)
        } else {
            None
        },
    }
}

/// What a field's options come to, where the field stands for one value and its type
/// is registered under a key.
pub open spec fn leaf_made(
    kind: LeafKind,
    key: Seq<char>,
    raw: Option<LeafOptionsModel>,
    types: FieldTypesModel,
    pickers: Seq<Seq<char>>,
) -> Result<Option<LeafResolvedModel>, Seq<char>> {
    if kind == LeafKind::Contributed {
        let options = match raw {
            Some(o) => o.written,
            None => None,
        };
        match type_made(types.answers, key, options) {
            Ok(made) => Ok(
                Some(
                    LeafResolvedModel::Contributed(
                        ContributedModel { field_type: key, options, made },
                    ),
                ),
            ),
            Err(e) => Err(e),
        }
    } else {
        leaf_resolved(kind, raw, types.inputs, pickers)
    }
}

/// What a field's options come to.
pub fn make_leaf(
    kind: LeafKind,
    key: &str,
    raw: Option<&LeafOptions>,
    types: &FieldTypes,
    pickers: &Vec<String>,
) -> (r: Result<Option<LeafResolved>, OptionsError>)
    ensures
        resolves_to(r, leaf_made(kind, key@, raw.deep_view(), types@, pickers.deep_view())),
{
    if kind == LeafKind::Contributed {
        let options: Option<String> = match raw {
            Some(o) => copy_option(&o.written),
            None => None,
        };
        match find_type(&types.answers, key, &options) {
            Ok(made) => Ok(
                Some(
                    LeafResolved::Contributed(
                        Contributed { field_type: key.to_owned(), options, made },
                    ),
                ),
            ),
            Err(e) => Err(OptionsError(e)),
        }
    } else {
        kind.resolve_options(raw, &types.inputs, pickers)
    }
}

/// A registered type serves as a built-in one does: where the type took the field's
/// options, the field is resolved, with the rules and assets the type gave; where it
/// refused them, that is the refusal.
pub proof fn law_a_contributed_type_serves(
    key: Seq<char>,
    raw: Option<LeafOptionsModel>,
    types: FieldTypesModel,
    pickers: Seq<Seq<char>>,
)
    requires
        leaf_of(key) is None,
        types.names.contains(key),
    ensures
        leaf_in(key, types) == Some(LeafKind::Contributed),
        ({
            let options = match raw {
                Some(o) => o.written,
                None => None,
            };
            match type_made(types.answers, key, options) {
                Ok(made) => {
                    let opts = leaf_made(LeafKind::Contributed, key, raw, types, pickers)->Ok_0;
                    &&& leaf_made(LeafKind::Contributed, key, raw, types, pickers) is Ok
                    &&& crate::field::intrinsic(LeafKind::Contributed, opts) == made.rules
                    &&& crate::field::leaf_assets(LeafKind::Contributed, opts) == made.assets
                },
                Err(e) => leaf_made(LeafKind::Contributed, key, raw, types, pickers) == Err::<
                    Option<LeafResolvedModel>,
                    Seq<char>,
                >(e),
            }
        }),
{
}

// ---------------------------------------------------------------------- values
/// What a contributed type stores of one control: the value, nothing where the column
/// keeps what it held, or why it cannot.
pub struct StoredAnswer {
    pub name: String,
    pub outcome: Result<Option<Scalar>, String>,
}

/// A [`StoredAnswer`], over characters.
pub struct StoredModel {
    pub name: Seq<char>,
    pub outcome: Result<Option<ScalarModel>, Seq<char>>,
}

impl DeepView for StoredAnswer {
    type V = StoredModel;

    open spec fn deep_view(&self) -> StoredModel {
        StoredModel {
            name: self.name@,
            outcome: match self.outcome {
                Ok(v) => Ok(v.deep_view()),
                Err(e) => Err(e@),
            },
        }
    }
}

/// What was answered about a submission: what hashing gave for each of its secrets,
/// and what each contributed control stores.
pub struct Answers {
    pub hashed: Vec<Hashed>,
    pub stored: Vec<StoredAnswer>,
}

/// [`Answers`], over characters.
pub struct AnswersModel {
    pub hashed: Seq<HashedModel>,
    pub stored: Seq<StoredModel>,
}

impl DeepView for Answers {
    type V = AnswersModel;

    open spec fn deep_view(&self) -> AnswersModel {
        AnswersModel { hashed: self.hashed.deep_view(), stored: self.stored.deep_view() }
    }
}

impl Answers {
    /// The answers about a submission with no contributed control.
    pub fn of_hashes(hashed: Vec<Hashed>) -> (r: Self)
        ensures
            r.deep_view() == (AnswersModel {
                hashed: hashed.deep_view(),
                stored: Seq::empty(),
            }),
    {
        let r: Answers = Answers { hashed, stored: Vec::new() };
        assert(r.deep_view().stored =~= Seq::<StoredModel>::empty());
        r
    }
}

/// What was answered about a control, where it was asked about.
pub open spec fn stored_answer(stored: Seq<StoredModel>, name: Seq<char>) -> Option<
    Result<Option<ScalarModel>, Seq<char>>,
>
    decreases stored.len(),
{
    if stored.len() == 0 {
        None
    } else if stored[0].name == name {
        Some(stored[0].outcome)
    } else {
        stored_answer(stored.drop_first(), name)
    }
}

/// What a control of a type stores of a submission: what the type answered where it is
/// a contributed one.
pub open spec fn leaf_stored(
    kind: LeafKind,
    name: Seq<char>,
    submitted: Option<Seq<char>>,
    answers: AnswersModel,
) -> Result<Option<ScalarModel>, Seq<char>> {
    match (kind, stored_answer(answers.stored, name)) {
        (LeafKind::Contributed, Some(outcome)) => outcome,
        _ => leaf_attr(kind, submitted, answers.hashed),
    }
}

/// What a control of a type stores of a submission.
pub fn store_leaf(kind: LeafKind, name: &str, submitted: Option<&str>, answers: &Answers) -> (r:
    Result<Option<Scalar>, String>)
    ensures
        stores(r, leaf_stored(kind, name@, submitted.deep_view(), answers.deep_view())),
{
    if kind != LeafKind::Contributed {
        return kind.to_attr(submitted, &answers.hashed);
    }
    let ghost all = answers.stored.deep_view();
    let mut i: usize = 0;
    assert(all.skip(0) =~= all);
    while i < answers.stored.len()
        invariant
            i <= answers.stored.len(),
            kind == LeafKind::Contributed,
            all == answers.stored.deep_view(),
            stored_answer(all, name@) == stored_answer(all.skip(i as int), name@),
        decreases answers.stored.len() - i,
    {
        assert(all.skip(i as int).drop_first() =~= all.skip(i + 1));
        assert(all[i as int] == answers.stored@[i as int].deep_view());
        let answer: &StoredAnswer = &answers.stored[i];
        if same(answer.name.as_str(), name) {
            return match &answer.outcome {
                Ok(Some(v)) => Ok(Some(v.copy())),
                Ok(None) => Ok(None),
                Err(e) => Err(e.clone()),
            };
        }
        i = i + 1;
    }
    kind.to_attr(submitted, &answers.hashed)
}

// --------------------------------------------------------------------- asking
/// A contributed control of a submission: what its type is to be asked about.
pub struct Asked {
    pub name: String,
    pub field_type: String,
    pub options: Option<String>,
    pub value: Option<String>,
}

/// An [`Asked`], over characters.
pub struct AskedModel {
    pub name: Seq<char>,
    pub field_type: Seq<char>,
    pub options: Option<Seq<char>>,
    pub value: Option<Seq<char>>,
}

impl DeepView for Asked {
    type V = AskedModel;

    open spec fn deep_view(&self) -> AskedModel {
        AskedModel {
            name: self.name@,
            field_type: self.field_type@,
            options: self.options.deep_view(),
            value: self.value.deep_view(),
        }
    }
}

/// What is asked about a control: nothing where its type is a built-in one.
pub open spec fn leaf_asked(
    opts: Option<LeafResolvedModel>,
    name: Seq<char>,
    submitted: Option<Seq<char>>,
) -> Option<AskedModel> {
    match opts {
        Some(LeafResolvedModel::Contributed(c)) => Some(
            AskedModel { name, field_type: c.field_type, options: c.options, value: submitted },
        ),
        _ => None,
    }
}

/// What is asked about a control.
pub fn ask_leaf(opts: Option<&LeafResolved>, name: &str, submitted: Option<&str>) -> (r: Option<
    Asked,
>)
    ensures
        r.deep_view() == leaf_asked(opts.deep_view(), name@, submitted.deep_view()),
{
    match opts {
        Some(LeafResolved::Contributed(c)) => {
            let value: Option<String> = match submitted {
                Some(s) => Some(s.to_owned()),
                None => None,
            };
            Some(
                Asked {
                    name: name.to_owned(),
                    field_type: c.field_type.clone(),
                    options: copy_option(&c.options),
                    value,
                },
            )
        },
        _ => None,
    }
}

} // verus!
