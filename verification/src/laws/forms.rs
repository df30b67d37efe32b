//! What forms and their fields promise.

use vstd::prelude::*;

use crate::attr::{attr_of, held, law_put_then_held, messages_of, AttrModel, ScalarModel};
use crate::contributed::{
    leaf_asked, leaf_stored, plain_type, type_made, AnswersModel, ContributedModel, FieldTypesModel,
    StoredModel, TypeAnswerModel, TypeModel,
};
use crate::field::{
    attr_refusal, attrs_refusal, input_at, intrinsic, is_on, leaf_attr, leaf_resolved, named,
    password_plain, reserved, text_resolved, under_prefix, HashedModel, InputType, LeafKind,
    LeafOptionsModel, LeafResolvedModel, SelectOptionModel, Rule,
};
use crate::field_view::{
    attr_stored, control_shown, field_secrets, kind_in, kind_key, leaf_data, options_resolved,
    value_text, FieldKind, FieldValueModel, FieldVmModel, LeafDataModel, OptionsModel,
};
use crate::form::{
    edit_action, edit_value_models, failed_step, field_prepared, field_view, fields_prepared,
    form_idents_ok, form_prepared, form_view, kind_rules, merged_rules, new_action, required_by,
    requires_value, saved_step, submitted_attrs, submitted_step, validated_step, value_for,
    ChoiceModel, FormConfigModel, FormFieldModel, FormStepModel, PreparedFieldModel, PreparedModel,
};
use crate::laws::saving::{
    law_a_stored_boolean_reads_back, law_a_stored_text_reads_back, reads_back,
};
use crate::laws::values::law_digits_stand_for_their_number;
use crate::nums::{decimal, usize_of};
use crate::persist::{bound, SaveErrorModel};
use crate::repeater::{
    blank_row, blank_value, row_index, row_key, row_of, rows_of, with_index, SubModel,
};
use crate::strs::{is_digit, lookup, only, split_on, trimmed};
use crate::text::{localized, TextModel};

verus! {

// ------------------------------------------------------------------- submission
/// A submission becomes the record it was entered as: where no field refuses, each field
/// stands in the record as its own type makes it of its own value, and a field that
/// stores nothing stands in it not at all. The first refusal is the whole form's.
pub proof fn law_a_form_stores_what_each_field_submits(
    form: PreparedModel,
    data: Seq<(Seq<char>, Seq<char>)>,
    answers: AnswersModel,
    n: nat,
    i: int,
)
    requires
        n <= form.fields.len(),
        form.fields.len() == form.config.fields.len(),
        0 <= i < n,
        forall|a: int, b: int|
            0 <= a < b < form.fields.len() ==> #[trigger] form.config.fields[a].name
                != #[trigger] form.config.fields[b].name,
    ensures
        ({
            let f = form.config.fields[i];
            let own = attr_stored(form.fields[i].kind, form.fields[i].opts, f.name, data, answers);
            &&& submitted_attrs(form, n, data, answers) matches Ok(attrs) ==> own == Ok::<
                Option<AttrModel>,
                Seq<char>,
            >(held(attrs, f.name))
            &&& own is Err ==> submitted_attrs(form, n, data, answers) is Err
        }),
    decreases n,
{
    let k = n - 1;
    let name = form.config.fields[k].name;
    let own = attr_stored(form.fields[k].kind, form.fields[k].opts, name, data, answers);
    let before = submitted_attrs(form, k as nat, data, answers);
    if i < k {
        law_a_form_stores_what_each_field_submits(form, data, answers, k as nat, i);
        assert(form.config.fields[i].name != form.config.fields[k].name);
        if before is Ok && own is Ok && own->Ok_0 is Some {
            law_put_then_held(before->Ok_0, name, own->Ok_0->0, form.config.fields[i].name);
        }
    } else {
        if before is Ok && own is Ok {
            if own->Ok_0 is Some {
                law_put_then_held(before->Ok_0, name, own->Ok_0->0, name);
            } else {
                lemma_not_held(form, data, answers, k as nat, name);
            }
        }
    }
}

/// A name that no earlier field has is not held yet.
proof fn lemma_not_held(
    form: PreparedModel,
    data: Seq<(Seq<char>, Seq<char>)>,
    answers: AnswersModel,
    n: nat,
    name: Seq<char>,
)
    requires
        n <= form.config.fields.len(),
        submitted_attrs(form, n, data, answers) is Ok,
        forall|a: int| 0 <= a < n ==> #[trigger] form.config.fields[a].name != name,
    ensures
        held(submitted_attrs(form, n, data, answers)->Ok_0, name) is None,
    decreases n,
{
    if n > 0 {
        let k = n - 1;
        lemma_not_held(form, data, answers, k as nat, name);
        let other = form.config.fields[k].name;
        let before = submitted_attrs(form, k as nat, data, answers)->Ok_0;
        let own = attr_stored(form.fields[k].kind, form.fields[k].opts, other, data, answers);
        assert(other != name);
        if own->Ok_0 is Some {
            law_put_then_held(before, other, own->Ok_0->0, name);
        }
    }
}

/// A field of plain text stores the text that was submitted last under its own name, and
/// nothing where none was; a switch is on just where a box that is on was submitted.
pub proof fn law_a_field_stores_its_own_value(
    kind: LeafKind,
    opts: Option<OptionsModel>,
    name: Seq<char>,
    data: Seq<(Seq<char>, Seq<char>)>,
    answers: AnswersModel,
    text: Seq<char>,
)
    requires
        kind is Text || kind is Textarea || kind is Select || kind is Radio || kind is Reference
            || kind is Switch,
    ensures
        ({
            let set = data.push((name, text));
            let stored = attr_stored(FieldKind::Leaf(kind), opts, name, set, answers);
            &&& stored is Ok
            &&& !(kind is Switch) ==> stored->Ok_0 == Some(AttrModel::Text(text))
            &&& kind is Switch ==> stored->Ok_0 == Some(AttrModel::Bool(is_on(Some(text))))
        }),
        lookup(data, name) is None ==> {
            let stored = attr_stored(FieldKind::Leaf(kind), opts, name, data, answers);
            &&& !(kind is Switch) ==> stored == Ok::<Option<AttrModel>, Seq<char>>(None)
            &&& kind is Switch ==> stored == Ok::<Option<AttrModel>, Seq<char>>(
                Some(AttrModel::Bool(false)),
            )
        },
{
    let set = data.push((name, text));
    assert(set.last() == (name, text));
    assert(lookup(set, name) == Some(text));
}

/// What was saved is what the form shows: plain text as it was entered, and a switch on
/// where it was set on and off where it was set off.
pub proof fn law_a_form_shows_what_was_saved(kind: LeafKind, text: Seq<char>, on: bool)
    requires
        !(kind is Switch) && !(kind is Date) && !(kind is Password) && !(kind is Contributed),
    ensures
        control_shown(
            FieldKind::Leaf(kind),
            reads_back(bound(Some(AttrModel::Text(text)))),
        ) == text,
        is_on(
            Some(
                control_shown(
                    FieldKind::Leaf(LeafKind::Switch),
                    reads_back(bound(Some(AttrModel::Bool(on)))),
                ),
            ),
        ) == on,
        control_shown(FieldKind::Leaf(LeafKind::Password), Some(text)).len() == 0,
        control_shown(FieldKind::Repeater, Some(text)) == text,
{
    law_a_stored_text_reads_back(text);
    if text.len() == 0 {
        assert(text =~= Seq::empty());
    }
    law_a_stored_boolean_reads_back(on);
    crate::field::law_a_switch_reads_back(reads_back(bound(Some(AttrModel::Bool(on)))));
}

/// A switch is on for one, true, yes and on, and for nothing that reads otherwise.
pub proof fn law_a_switch_is_on_where_it_says_so(s: Seq<char>)
    ensures
        is_on(Some(s)) <==> trimmed(s) == "1"@ || trimmed(s) == "true"@ || trimmed(s) == "TRUE"@
            || trimmed(s) == "t"@ || trimmed(s) == "yes"@ || trimmed(s) == "on"@,
        !is_on(None),
{
}

/// A password is stored as its hash and never as it was entered; where hashing fails, the
/// save fails.
pub proof fn law_a_password_is_stored_as_its_hash(
    plain: Seq<char>,
    hashes: Seq<HashedModel>,
    outcome: Result<Seq<char>, Seq<char>>,
)
    requires
        trimmed(plain).len() > 0,
    ensures
        ({
            let known = seq![HashedModel { plain: trimmed(plain), outcome }] + hashes;
            let stored = leaf_attr(LeafKind::Password, Some(plain), known);
            &&& outcome matches Ok(hash) ==> stored == Ok::<Option<ScalarModel>, Seq<char>>(
                Some(ScalarModel::Text(hash)),
            )
            &&& outcome matches Err(e) ==> stored == Err::<Option<ScalarModel>, Seq<char>>(e)
        }),
        password_plain(Some(plain)) == Some(trimmed(plain)),
        password_plain(None) is None,
        leaf_attr(LeafKind::Password, Some(plain), Seq::empty()) is Err,
{
    let known = seq![HashedModel { plain: trimmed(plain), outcome }] + hashes;
    assert(known[0].plain == trimmed(plain));
}

/// A blank date is stored as none, and a date that is not submitted is left as it is.
pub proof fn law_a_blank_date_is_cleared(s: Seq<char>, hashes: Seq<HashedModel>)
    ensures
        trimmed(s).len() == 0 ==> leaf_attr(LeafKind::Date, Some(s), hashes) == Ok::<
            Option<ScalarModel>,
            Seq<char>,
        >(Some(ScalarModel::Null)),
        trimmed(s).len() > 0 ==> leaf_attr(LeafKind::Date, Some(s), hashes) == Ok::<
            Option<ScalarModel>,
            Seq<char>,
        >(Some(ScalarModel::Text(trimmed(s)))),
        leaf_attr(LeafKind::Date, None, hashes) == Ok::<Option<ScalarModel>, Seq<char>>(None),
{
}

/// A value in a row is stored as it would be in a field of its own.
pub proof fn law_a_value_is_stored_as_itself(v: ScalarModel)
    ensures
        v is Null <==> attr_of(v) is Null,
        v matches ScalarModel::Int(i) ==> attr_of(v) == AttrModel::Int(i),
        v matches ScalarModel::Bool(b) ==> attr_of(v) == AttrModel::Bool(b),
        v matches ScalarModel::Text(t) ==> attr_of(v) == AttrModel::Text(t),
{
}

// ------------------------------------------------------------------- preparation
/// A form is prepared field by field: each by its own type and options, with the type's
/// own rules ahead of the descriptor's. It is refused where any of its fields is.
pub proof fn law_a_form_is_prepared_field_by_field(
    fields: Seq<FormFieldModel>,
    types: FieldTypesModel,
    pickers: Seq<Seq<char>>,
    i: int,
)
    requires
        0 <= i < fields.len(),
    ensures
        fields_prepared(fields, types, pickers) matches Ok(done) ==> {
            &&& done.len() == fields.len()
            &&& field_prepared(fields[i], types, pickers) == Ok::<PreparedFieldModel, Seq<char>>(
                done[i],
            )
        },
        field_prepared(fields[i], types, pickers) is Err ==> fields_prepared(
            fields,
            types,
            pickers,
        ) is Err,
    decreases fields.len(),
{
    let front = fields.drop_last();
    if front.len() > 0 {
        law_a_form_is_prepared_field_by_field(
            front,
            types,
            pickers,
            if i < front.len() {
                i
            } else {
                0
            },
        );
    } else {
        assert(fields_prepared(front, types, pickers) == Ok::<Seq<PreparedFieldModel>, Seq<char>>(
            Seq::empty(),
        ));
    }
    if i < front.len() {
        assert(front[i] == fields[i]);
    }
}

/// A prepared field keeps its own rules behind those of its type, and its type is the one
/// the descriptor names; a type that nobody registered is refused by name.
pub proof fn law_a_fields_rules_follow_its_types(
    f: FormFieldModel,
    types: FieldTypesModel,
    pickers: Seq<Seq<char>>,
)
    ensures
        field_prepared(f, types, pickers) matches Ok(p) ==> {
            &&& kind_in(f.field_type, types) == Some(p.kind)
            &&& p.rules == kind_rules(p.kind, p.opts) + f.rules
            &&& options_resolved(p.kind, f.field_type, f.options, types, pickers) == Ok::<
                Option<OptionsModel>,
                Seq<char>,
            >(p.opts)
        },
        kind_in(f.field_type, types) is None ==> field_prepared(f, types, pickers) is Err,
        forall|kind: FieldKind|
            kind != FieldKind::Leaf(LeafKind::Contributed) && f.field_type == #[trigger] kind_key(
                kind,
            ) ==> kind_in(f.field_type, types) == Some(kind),
{
    assert forall|kind: FieldKind|
        kind != FieldKind::Leaf(LeafKind::Contributed) && f.field_type == #[trigger] kind_key(
            kind,
        ) implies kind_in(f.field_type, types) == Some(kind) by {
        crate::field_view::law_field_types_are_found_by_key(kind);
    }
}

/// A prepared form writes its own table through the write it names, or the built-in one
/// over the columns of its fields.
pub proof fn law_a_form_writes_its_own_fields(
    config: FormConfigModel,
    types: FieldTypesModel,
    pickers: Seq<Seq<char>>,
    persisters: Seq<Seq<char>>,
    i: int,
)
    ensures
        form_prepared(config, types, pickers, persisters) matches Ok(form) ==> {
            &&& form.config == config
            &&& config.persist matches Some(key) ==> form.persister == ChoiceModel::Named(key)
                && persisters.contains(key)
            &&& config.persist is None ==> (form.persister matches ChoiceModel::Default(p)
                && p.entity == config.entity && p.id_field == config.id_field && p.columns.len()
                == config.fields.len() && (0 <= i < config.fields.len() ==> p.columns[i]
                == config.fields[i].name))
        },
        config.persist matches Some(key) ==> (!persisters.contains(key) ==> form_prepared(
            config,
            types,
            pickers,
            persisters,
        ) is Err),
{
}

/// Validation gets each field's own rules under its own name and label.
pub proof fn law_each_field_is_checked_by_its_own_rules(form: PreparedModel, i: int)
    requires
        0 <= i < form.fields.len(),
    ensures
        merged_rules(form).len() == form.fields.len(),
        merged_rules(form)[i].name == form.config.fields[i].name,
        merged_rules(form)[i].label == form.config.fields[i].label.source,
        merged_rules(form)[i].rules == form.fields[i].rules,
{
}

/// A field is marked as required where a rule asks for a value, always or in one mode.
pub proof fn law_a_required_field_is_marked(rules: Seq<Rule>, rule: Rule)
    ensures
        required_by(rules.push(Rule::Required)),
        required_by(Seq::empty()) == false,
        rule != Rule::Required && !(rule is RequiredOn) ==> required_by(rules.push(rule))
            == required_by(rules),
        rule is RequiredOn ==> required_by(rules.push(rule)),
{
    let more = rules.push(Rule::Required);
    assert(requires_value(more[rules.len() as int]));
    let other = rules.push(rule);
    assert(other[rules.len() as int] == rule);
    if required_by(rules) {
        let i = choose|i: int| 0 <= i < rules.len() && requires_value(rules[i]);
        assert(requires_value(other[i]));
    }
    if required_by(other) {
        let i = choose|i: int| 0 <= i < other.len() && requires_value(other[i]);
        if i < rules.len() {
            assert(requires_value(rules[i]));
        }
    }
}

// ------------------------------------------------------------------------- view
/// A form shows its fields in order, each with its own label, its own value and just the
/// messages that are about it.
pub proof fn law_a_form_shows_its_fields(
    form: PreparedModel,
    action: Seq<char>,
    error: Option<TextModel>,
    values: Seq<(Seq<char>, FieldValueModel)>,
    bag: Seq<(Seq<char>, TextModel)>,
    table: Seq<(Seq<char>, Seq<char>)>,
    base: Seq<char>,
    i: int,
)
    requires
        0 <= i < form.fields.len(),
    ensures
        ({
            let v = form_view(
                form,
                action,
                error,
                values,
                bag,
                table,
                base,
                Seq::empty(),
                Seq::empty(),
            );
            let f = form.config.fields[i];
            let shown = v.fields[i];
            &&& v.action == action
            &&& v.title == localized(table, form.config.title)
            &&& v.cancel_path == form.config.base_path
            &&& (v.error is Some <==> error is Some)
            &&& error matches Some(m) ==> v.error == Some(localized(table, m))
            &&& v.fields.len() == form.fields.len()
            &&& shown.id == f.name
            &&& shown.label == localized(table, f.label)
            &&& (shown.required <==> required_by(form.fields[i].rules))
            &&& shown.errors.len() == messages_of(bag, f.name).len()
            &&& form.fields[i].kind is Leaf ==> (shown.control matches FieldVmModel::Leaf(vm)
                && vm.name == f.name && vm.value == value_text(value_for(values, f.name))
                && vm.required == shown.required)
        }),
{
}

/// A message stands with the field it is about and with no other, in order.
pub proof fn law_a_message_stands_with_its_field(
    bag: Seq<(Seq<char>, TextModel)>,
    field: Seq<char>,
    m: TextModel,
    other: Seq<char>,
)
    ensures
        messages_of(bag.push((field, m)), field) == messages_of(bag, field).push(m),
        other != field ==> messages_of(bag.push((field, m)), other) == messages_of(bag, other),
        messages_of(Seq::empty(), field).len() == 0,
{
    reveal(Seq::filter_map);
    assert(bag.push((field, m)).drop_last() =~= bag);
    assert(messages_of(bag, field) + seq![m] =~= messages_of(bag, field).push(m));
}

/// A field shows the value it was given last, and nothing where it was given none.
pub proof fn law_a_field_shows_the_value_it_was_given(
    values: Seq<(Seq<char>, FieldValueModel)>,
    name: Seq<char>,
    value: FieldValueModel,
    other: Seq<char>,
)
    ensures
        value_for(values.push((name, value)), name) == value,
        other != name ==> value_for(values.push((name, value)), other) == value_for(values, other),
        value_text(value_for(Seq::empty(), name)).len() == 0,
{
    assert(values.push((name, value)).drop_last() =~= values);
}

/// An edited row shows in its own fields.
pub proof fn law_an_edited_row_shows_in_its_fields(
    form: PreparedModel,
    row: Seq<Option<Seq<char>>>,
    i: int,
)
    requires
        0 <= i < form.fields.len(),
    ensures
        edit_value_models(form, row).len() == form.fields.len(),
        edit_value_models(form, row)[i].0 == form.config.fields[i].name,
        edit_value_models(form, row)[i].1 == FieldValueModel::Text(
            control_shown(form.fields[i].kind, row[i]),
        ),
{
}

/// A choice offers every option under its label, or under its value where it has none,
/// and marks the one that is chosen.
pub proof fn law_a_choice_marks_the_chosen_option(
    options: Seq<SelectOptionModel>,
    value: Seq<char>,
    base: Seq<char>,
    kind: LeafKind,
    i: int,
)
    requires
        kind is Select || kind is Radio,
        0 <= i < options.len(),
    ensures
        leaf_data(kind, Some(LeafResolvedModel::Choices(options)), value, base) matches
            LeafDataModel::Options(shown) && {
            &&& shown.len() == options.len()
            &&& shown[i].value == options[i].value
            &&& (shown[i].selected <==> options[i].value == value)
            &&& options[i].label matches Some(l) ==> shown[i].label == l
            &&& options[i].label is None ==> shown[i].label == options[i].value
        },
{
}

/// A reference searches and resolves in its own source, below the panel.
pub proof fn law_a_reference_asks_its_own_source(
    source: Seq<char>,
    value: Seq<char>,
    base: Seq<char>,
)
    ensures
        leaf_data(
            LeafKind::Reference,
            Some(LeafResolvedModel::Reference(source)),
            value,
            base,
        ) matches LeafDataModel::Reference {
            source: s,
            search_url,
            resolve_url,
            value: v,
            placeholder,
        } && s == source && v == value && search_url == base + "/pickers/"@ + source + "/search"@
            && resolve_url == base + "/pickers/"@ + source + "/resolve"@,
{
}

// ------------------------------------------------------------------------ course
/// A form checks before it writes, and writes only what passes: a form that names
/// something unsafe is an error, what fails the check is shown again as not processable
/// with its messages, and what could not be written is shown again with a banner.
pub proof fn law_a_form_writes_what_passes(
    config: FormConfigModel,
    action: Seq<char>,
    bag: Seq<(Seq<char>, TextModel)>,
    why: Seq<char>,
)
    ensures
        form_idents_ok(config) ==> submitted_step(config) is Validate,
        !form_idents_ok(config) ==> submitted_step(config) is ErrorPage,
        validated_step(action, None) is ErrorPage,
        validated_step(action, Some(Seq::empty())) is Persist,
        bag.len() > 0 ==> validated_step(action, Some(bag)) == (FormStepModel::Rerender {
            status: 422,
            action,
            banner: None,
            bag,
        }),
        failed_step(action, SaveErrorModel::Invalid(bag)) == (FormStepModel::Rerender {
            status: 422,
            action,
            banner: None,
            bag,
        }),
        ({
            let step = failed_step(action, SaveErrorModel::Failed(why));
            &&& step is Rerender
            &&& step->status == 200
            &&& step->action == action
            &&& step->banner is Some
            &&& step->bag.len() == 0
        }),
{
}

/// A saved record is put on record under its entity, what was done and its id, and leads
/// back to where the form belongs; a form is submitted to where it stands.
pub proof fn law_a_saved_form_is_put_on_record(
    config: FormConfigModel,
    verb: Seq<char>,
    id: Seq<char>,
)
    ensures
        saved_step(config, verb, id) matches FormStepModel::Saved {
            audit_action,
            target_type,
            target_id,
            to,
        } && audit_action == "backend."@ + config.entity + "."@ + verb && target_type
            == config.entity && target_id == id && to == config.base_path,
        new_action(config) == config.base_path + "/new"@,
        edit_action(config, id) == config.base_path + "/"@ + id + "/edit"@,
{
}

// --------------------------------------------------------------------- repeaters
/// A row of a repeater is found by the index its controls carry.
pub proof fn law_a_row_is_found_by_its_index(
    name: Seq<char>,
    i: usize,
    sub: Seq<char>,
    value: Seq<char>,
)
    ensures
        ({
            let key = row_key(name, decimal(i as nat), sub);
            let prefix = name + "["@;
            let rest = key.skip(prefix.len() as int);
            &&& prefix.is_prefix_of(key)
            &&& row_index(rest) == Some(i)
            &&& under_prefix(seq![(key, value)], prefix) == seq![(rest, value)]
        }),
{
    let index = decimal(i as nat);
    let key = row_key(name, index, sub);
    let prefix = name + "["@;
    let tail = "]["@ + sub + "]"@;
    reveal_strlit("[");
    reveal_strlit("][");
    reveal_strlit("]");
    assert(key =~= prefix + (index + tail));
    assert(prefix =~= key.subrange(0, prefix.len() as int));
    assert(prefix.is_prefix_of(key));
    let rest = key.skip(prefix.len() as int);
    assert(rest =~= index + tail);
    assert(rest[index.len() as int] == ']');
    assert(rest.contains(']'));
    law_digits_stand_for_their_number(i as nat);
    assert forall|k: int| 0 <= k < index.len() implies !only(']')(#[trigger] rest[k]) by {
        assert(rest[k] == index[k]);
        assert(is_digit(index[k]));
    }
    crate::strs::lemma_split_first(rest, only(']'), index.len() as int);
    assert(rest.take(index.len() as int) =~= index);
    assert(split_on(rest, only(']'))[0] == index);
    assert(is_digit(index[0]));
    assert(usize_of(index) == Some(i));
    reveal(Seq::filter_map);
    let one = seq![(key, value)];
    assert(one.drop_last() =~= Seq::empty());
    reveal_with_fuel(Seq::filter_map, 2);
    assert(under_prefix(one, prefix) =~= seq![(rest, value)]);
}

/// An index that is seen joins the rows, once, and takes no other away.
pub proof fn law_an_index_joins_the_rows_once(indices: Seq<usize>, i: usize, j: usize)
    ensures
        with_index(indices, i).contains(j) <==> indices.contains(j) || j == i,
        indices.contains(i) && crate::repeater::ascending(indices) ==> with_index(indices, i)
            == indices,
    decreases indices.len(),
{
    let after = with_index(indices, i);
    if indices.len() == 0 {
        assert(after[0] == i);
    } else {
        let init = indices.drop_last();
        let last = indices.last();
        assert(indices[indices.len() - 1] == last);
        if last == i {
        } else if last < i {
            assert(after[indices.len() as int] == i);
            assert(forall|k: int| 0 <= k < indices.len() ==> #[trigger] after[k] == indices[k]);
            if indices.contains(j) {
                let k = choose|k: int| 0 <= k < indices.len() && indices[k] == j;
                assert(after[k] == j);
            }
            if after.contains(j) && j != i {
                let k = choose|k: int| 0 <= k < after.len() && after[k] == j;
                assert(indices[k] == j);
            }
            if indices.contains(i) && crate::repeater::ascending(indices) {
                let k = choose|k: int| 0 <= k < indices.len() && indices[k] == i;
                assert(indices[k] <= indices[indices.len() - 1]);
            }
        } else {
            law_an_index_joins_the_rows_once(init, i, j);
            let before = with_index(init, i);
            assert(after == before.push(last));
            if indices.contains(j) {
                let k = choose|k: int| 0 <= k < indices.len() && indices[k] == j;
                if k < init.len() {
                    assert(init[k] == j);
                    assert(init.contains(j));
                    let m = choose|m: int| 0 <= m < before.len() && before[m] == j;
                    assert(after[m] == j);
                } else {
                    assert(after[before.len() as int] == j);
                }
            }
            if j == i {
                let m = choose|m: int| 0 <= m < before.len() && before[m] == j;
                assert(after[m] == j);
            }
            if after.contains(j) {
                let m = choose|m: int| 0 <= m < after.len() && after[m] == j;
                if m < before.len() {
                    assert(before[m] == j);
                    assert(before.contains(j));
                    if init.contains(j) {
                        let k = choose|k: int| 0 <= k < init.len() && init[k] == j;
                        assert(indices[k] == j);
                    }
                }
            }
            if indices.contains(i) && crate::repeater::ascending(indices) {
                let k = choose|k: int| 0 <= k < indices.len() && indices[k] == i;
                assert(init[k] == i);
                assert(init.contains(i));
                assert forall|a: int, b: int| 0 <= a < b < init.len() implies init[a] < init[b] by {
                    assert(indices[a] < indices[b]);
                }
                assert(after =~= indices);
            }
        }
    }
}

/// A row is what its controls submit: each sub-field stores its own value under its own
/// name, by its own type.
pub proof fn law_a_row_stores_each_of_its_fields(
    name: Seq<char>,
    index: Seq<char>,
    subs: Seq<SubModel>,
    sub: SubModel,
    data: Seq<(Seq<char>, Seq<char>)>,
    answers: AnswersModel,
)
    ensures
        ({
            let key = row_key(name, index, sub.name);
            let own = leaf_stored(sub.kind, key, lookup(data, key), answers);
            let before = row_of(name, index, subs, data, answers);
            let after = row_of(name, index, subs.push(sub), data, answers);
            &&& before is Ok && own is Ok ==> after is Ok
            &&& after is Ok && own->Ok_0 is Some ==> held(after->Ok_0, sub.name) == own->Ok_0
            &&& before is Err || own is Err ==> after is Err
        }),
        row_of(name, index, Seq::empty(), data, answers) == Ok::<
            Seq<(Seq<char>, ScalarModel)>,
            Seq<char>,
        >(Seq::empty()),
{
    assert(subs.push(sub).drop_last() =~= subs);
    let key = row_key(name, index, sub.name);
    let own = leaf_stored(sub.kind, key, lookup(data, key), answers);
    let before = row_of(name, index, subs, data, answers);
    if before is Ok && own is Ok && own->Ok_0 is Some {
        law_put_then_held(before->Ok_0, sub.name, own->Ok_0->0, sub.name);
    }
}

/// The rows are stored in order of their indices, but for those that were left blank.
pub proof fn law_rows_are_stored_but_for_the_blank(
    name: Seq<char>,
    indices: Seq<usize>,
    i: usize,
    subs: Seq<SubModel>,
    data: Seq<(Seq<char>, Seq<char>)>,
    answers: AnswersModel,
    text: Seq<char>,
    number: int,
)
    ensures
        ({
            let row = row_of(name, decimal(i as nat), subs, data, answers);
            let before = rows_of(name, indices, subs, data, answers);
            let after = rows_of(name, indices.push(i), subs, data, answers);
            &&& before is Ok && row is Ok ==> after is Ok
            &&& after is Ok && blank_row(row->Ok_0) ==> after->Ok_0 == before->Ok_0
            &&& after is Ok && !blank_row(row->Ok_0) ==> after->Ok_0 == before->Ok_0.push(
                row->Ok_0,
            )
            &&& before is Err || row is Err ==> after is Err
        }),
        blank_value(ScalarModel::Bool(false)),
        !blank_value(ScalarModel::Bool(true)),
        blank_value(ScalarModel::Null),
        blank_value(ScalarModel::Text(Seq::empty())),
        blank_value(ScalarModel::Text(text)) <==> trimmed(text).len() == 0,
        !blank_value(ScalarModel::Int(number)),
{
    assert(indices.push(i).drop_last() =~= indices);
    let none = Seq::<char>::empty();
    assert(trimmed(none) =~= none);
}

/// A field asks for the hash of just the password that was entered in it.
pub proof fn law_a_password_field_asks_for_its_hash(
    kind: LeafKind,
    opts: Option<OptionsModel>,
    name: Seq<char>,
    data: Seq<(Seq<char>, Seq<char>)>,
    text: Seq<char>,
)
    ensures
        trimmed(text).len() > 0 ==> field_secrets(
            FieldKind::Leaf(LeafKind::Password),
            opts,
            name,
            data.push((name, text)),
        ) == seq![trimmed(text)],
        trimmed(text).len() == 0 ==> field_secrets(
            FieldKind::Leaf(LeafKind::Password),
            opts,
            name,
            data.push((name, text)),
        ).len() == 0,
        !(kind is Password) ==> field_secrets(FieldKind::Leaf(kind), opts, name, data).len() == 0,
{
    assert(data.push((name, text)).last() == (name, text));
}

// ------------------------------------------------------------------------ inputs
/// Each input checks what it takes: an email as an email, a number as a number, an
/// address as an address; a number carries its bounds, and an address its copy button
/// unless it is switched off.
pub proof fn law_an_input_checks_what_it_takes(raw: LeafOptionsModel, low: Seq<char>)
    ensures
        InputType::Email.contributes(raw).rules == seq![Rule::Email],
        InputType::Number.contributes(raw).rules == seq![Rule::Numeric],
        InputType::Url.contributes(raw).rules == seq![Rule::Url],
        InputType::Text.contributes(raw).rules.len() == 0,
        InputType::Tel.contributes(raw).rules.len() == 0,
        InputType::Email.contributes(raw).html_type == "email"@,
        InputType::Number.contributes(raw).html_type == "number"@,
        InputType::Url.contributes(raw).html_type == "url"@,
        InputType::Text.contributes(raw).html_type == "text"@,
        InputType::Tel.contributes(raw).html_type == "tel"@,
        InputType::Number.contributes(
            LeafOptionsModel { min: Some(low), ..raw },
        ).attributes.contains(("min"@, low)),
        InputType::Number.contributes(
            LeafOptionsModel { max: Some(low), ..raw },
        ).attributes.contains(("max"@, low)),
        InputType::Number.contributes(
            LeafOptionsModel { step: Some(low), ..raw },
        ).attributes.contains(("step"@, low)),
        (InputType::Url.contributes(raw).adornments.len() == 0) <==> raw.copy == Some(false),
        raw.copy != Some(false) ==> InputType::Url.contributes(raw).adornments[0].button
            && InputType::Url.contributes(raw).adornments[0].widget == Some("copy"@),
        InputType::Email.contributes(raw).adornments.len() == 0,
{
    let a = InputType::Number.contributes(LeafOptionsModel { min: Some(low), ..raw }).attributes;
    let b = InputType::Number.contributes(LeafOptionsModel { max: Some(low), ..raw }).attributes;
    let c = InputType::Number.contributes(LeafOptionsModel { step: Some(low), ..raw }).attributes;
    assert(b[0] == ("max"@, low));
    if raw.max is Some {
        assert(a[1] == ("min"@, low));
    } else {
        assert(a[0] == ("min"@, low));
    }
    assert(c.last() == ("step"@, low));
    assert(c[c.len() - 1] == ("step"@, low));
}

/// A text field takes the input it names, the last of that name that is registered, and
/// plain text where it names none; an input nobody registered is refused.
pub proof fn law_a_text_field_takes_the_input_it_names(
    inputs: Seq<InputType>,
    input: InputType,
    raw: LeafOptionsModel,
)
    requires
        raw.input is None || raw.input == Some(input.key_model()),
        raw.input is None ==> input.key_model() == "text"@,
    ensures
        text_resolved(inputs.push(input), raw) matches Ok(c) ==> c == input.contributes(raw),
        attrs_refusal(input.contributes(raw).attributes) is None
            && crate::field::widgets_refusal(input.contributes(raw).adornments) is None
            ==> text_resolved(inputs.push(input), raw) is Ok,
        text_resolved(Seq::empty(), raw) is Err,
{
    let more = inputs.push(input);
    assert(more.last() == input);
    assert(input_at(more, input.key_model()) == Some(inputs.len() as int));
    assert(more[inputs.len() as int] == input);
}

/// An attribute that a module adds has a name of lowercase letters, digits and hyphens,
/// and is none that the control writes itself.
pub proof fn law_an_added_attribute_is_well_named(name: Seq<char>)
    ensures
        attr_refusal(name) is None <==> named(name, false) && !reserved(name),
        reserved("type"@) && reserved("id"@) && reserved("name"@) && reserved("value"@)
            && reserved("required"@) && reserved("class"@),
        named(name, false) ==> name.len() > 0 && 'a' <= name[0] <= 'z' && forall|i: int|
            0 <= i < name.len() ==> ('a' <= #[trigger] name[i] <= 'z' || '0' <= name[i] <= '9'
                || name[i] == '-'),
        named(name, false) ==> named(name, true),
{
    if named(name, false) {
        assert forall|i: int| 0 <= i < name.len() implies ('a' <= #[trigger] name[i] <= 'z' || '0'
            <= name[i] <= '9' || name[i] == '-') by {
            assert(crate::field::name_char(name[i], false));
        }
        assert forall|i: int| 0 <= i < name.len() implies crate::field::name_char(
            #[trigger] name[i],
            true,
        ) by {
            assert(crate::field::name_char(name[i], false));
        }
    }
}

/// A date is checked as a date; a text field by its input's rules; no other built-in type
/// adds a rule.
pub proof fn law_a_type_adds_its_own_rules(
    kind: LeafKind,
    opts: Option<LeafResolvedModel>,
    rules: Seq<Rule>,
)
    ensures
        intrinsic(LeafKind::Date, opts) == seq![Rule::Date],
        kind is Textarea || kind is Select || kind is Switch || kind is Password || kind is Radio
            || kind is Reference ==> intrinsic(kind, opts).len() == 0,
        opts matches Some(LeafResolvedModel::Text(c)) ==> intrinsic(LeafKind::Text, opts)
            == c.rules,
        opts matches Some(LeafResolvedModel::Contributed(c)) ==> intrinsic(
            LeafKind::Contributed,
            opts,
        ) == c.made.rules,
{
}

/// A reference is refused unless it names a source that is registered.
pub proof fn law_a_reference_names_a_registered_source(
    options: LeafOptionsModel,
    inputs: Seq<InputType>,
    pickers: Seq<Seq<char>>,
    source: Seq<char>,
)
    ensures
        pickers.contains(source) ==> leaf_resolved(
            LeafKind::Reference,
            Some(LeafOptionsModel { source: Some(source), ..options }),
            inputs,
            pickers,
        ) == Ok::<Option<LeafResolvedModel>, Seq<char>>(
            Some(LeafResolvedModel::Reference(source)),
        ),
        !pickers.contains(source) ==> leaf_resolved(
            LeafKind::Reference,
            Some(LeafOptionsModel { source: Some(source), ..options }),
            inputs,
            pickers,
        ) is Err,
        leaf_resolved(
            LeafKind::Reference,
            Some(LeafOptionsModel { source: None, ..options }),
            inputs,
            pickers,
        ) is Err,
        leaf_resolved(LeafKind::Reference, None, inputs, pickers) is Err,
        leaf_resolved(LeafKind::Select, Some(options), inputs, pickers) == Ok::<
            Option<LeafResolvedModel>,
            Seq<char>,
        >(Some(LeafResolvedModel::Choices(options.options))),
        leaf_resolved(LeafKind::Select, None, inputs, pickers) is Err,
{
}

/// A type a module contributes answers for itself: what it made of its options is what is
/// used, and what it made of a value is what is stored.
pub proof fn law_a_contributed_type_answers_for_itself(
    answers: Seq<TypeAnswerModel>,
    a: TypeAnswerModel,
    stored: Seq<StoredModel>,
    s: StoredModel,
    hashed: Seq<HashedModel>,
    submitted: Option<Seq<char>>,
)
    ensures
        type_made(seq![a] + answers, a.field_type, a.options) == a.outcome,
        type_made(Seq::empty(), a.field_type, a.options) == Ok::<TypeModel, Seq<char>>(
            plain_type(),
        ),
        leaf_stored(
            LeafKind::Contributed,
            s.name,
            submitted,
            AnswersModel { hashed, stored: seq![s] + stored },
        ) == s.outcome,
        leaf_asked(
            Some(
                LeafResolvedModel::Contributed(
                    ContributedModel {
                        field_type: a.field_type,
                        options: a.options,
                        made: plain_type(),
                    },
                ),
            ),
            s.name,
            submitted,
        ) matches Some(asked) && asked.name == s.name && asked.field_type == a.field_type
            && asked.options == a.options && asked.value == submitted,
{
    assert((seq![a] + answers)[0] == a);
    assert((seq![s] + stored)[0] == s);
}

} // verus!
