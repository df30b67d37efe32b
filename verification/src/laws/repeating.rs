//! What repeaters promise, and what a form asks of others before it can save.

use vstd::prelude::*;

use crate::attr::{held, ScalarModel};
use crate::contributed::{leaf_asked, leaf_made, AskedModel, FieldTypesModel};
use crate::field::{is_on, law_a_switch_reads_back, leaf_assets, leaf_key, LeafKind, LeafResolvedModel};
use crate::field_view::{
    field_asked, field_secrets, field_vm, kind_assets, options_resolved, rows_vm, vm_key, FieldKind,
    FieldOptionsModel, FieldValueModel, FieldVmModel, OptionsModel,
};
use crate::form::{form_asked, form_asset_keys, form_secrets, PreparedFieldModel, PreparedModel};
use crate::laws::settings::lemma_truth_words;
use crate::nums::decimal;
use crate::repeater::{
    leaf_of, repeated, repeater_asked, repeater_secrets, row_asked, row_key, row_secrets,
    rows_of, sub_resolved, subs_resolved, RepeaterModel, RepeaterRawModel, SubFieldModel, SubModel,
};
use crate::settings::{setting_secrets, settings_secrets};
use crate::strs::{lookup, trimmed};

verus! {

// ----------------------------------------------------------------------- showing
/// Each stored row shows in a row of controls of its own, each value in the control of
/// its own field, under the name it is submitted by: a text as itself, a switch as it was
/// set, and nothing where nothing is stored.
pub proof fn law_stored_rows_show_in_their_controls(
    o: RepeaterModel,
    name: Seq<char>,
    label: Seq<char>,
    base: Seq<char>,
    rows: Seq<Seq<(Seq<char>, ScalarModel)>>,
    i: int,
    k: int,
    text: Seq<char>,
    on: bool,
)
    requires
        0 <= i < rows.len(),
        0 <= k < o.rows.len(),
    ensures
        ({
            let shown = rows_vm(Some(o), name, label, base, FieldValueModel::Rows(rows));
            let sub = o.rows[k];
            let cell = shown[i][k];
            &&& shown.len() == rows.len()
            &&& shown[i].len() == o.rows.len()
            &&& cell.label == sub.label.source
            &&& cell.control.name == row_key(name, decimal(i as nat), sub.name)
            &&& cell.control.id == cell.control.name
            &&& held(rows[i], sub.name) == Some(ScalarModel::Text(text)) ==> cell.control.value
                == text
            &&& sub.kind is Switch && held(rows[i], sub.name) == Some(ScalarModel::Bool(on))
                ==> is_on(Some(cell.control.value)) == on
            &&& held(rows[i], sub.name) is None ==> cell.control.value.len() == 0
        }),
{
    lemma_truth_words();
    law_a_switch_reads_back(Some("true"@));
    law_a_switch_reads_back(Some("false"@));
}

/// The row an operator adds is blank, and made of the same controls as the others.
pub proof fn law_an_added_row_is_blank(
    o: RepeaterModel,
    name: Seq<char>,
    id: Seq<char>,
    label: Seq<char>,
    required: bool,
    value: FieldValueModel,
    base: Seq<char>,
    k: int,
)
    requires
        0 <= k < o.rows.len(),
    ensures
        field_vm(
            FieldKind::Repeater,
            name,
            id,
            label,
            required,
            value,
            Some(OptionsModel::Repeater(o)),
            base,
        ) matches FieldVmModel::Repeater { name: n, id: d, label: l, required: q, rows, blank } && {
            &&& n == name
            &&& d == id
            &&& l == label
            &&& q == required
            &&& blank.len() == o.rows.len()
            &&& blank[k].control.value.len() == 0
            &&& blank[k].control.view_key == vm_key(o.rows[k].kind, o.rows[k].opts)
            &&& rows == rows_vm(Some(o), name, label, base, value)
        },
{
}

/// A control is drawn by its own type, a module's by the name the module gave it.
pub proof fn law_a_control_is_drawn_by_its_type(kind: LeafKind, opts: Option<LeafResolvedModel>)
    ensures
        !(opts matches Some(LeafResolvedModel::Contributed(_))) ==> vm_key(kind, opts) == leaf_key(
            kind,
        ),
        opts matches Some(LeafResolvedModel::Contributed(c)) ==> vm_key(kind, opts) == c.field_type,
        leaf_assets(LeafKind::Reference, opts).contains("fields/ref-picker.js"@),
        leaf_assets(LeafKind::Reference, opts).contains("fields/ref-picker.css"@),
        opts matches Some(LeafResolvedModel::Contributed(c)) ==> leaf_assets(
            LeafKind::Contributed,
            opts,
        ) == c.made.assets,
        opts matches Some(LeafResolvedModel::Text(c)) ==> leaf_assets(LeafKind::Text, opts)
            == c.assets,
{
    let both = leaf_assets(LeafKind::Reference, opts);
    assert(both[0] == "fields/ref-picker.js"@);
    assert(both[1] == "fields/ref-picker.css"@);
}

/// A form loads what each of its fields needs, in order.
pub proof fn law_a_form_loads_what_its_fields_need(
    fields: Seq<PreparedFieldModel>,
    f: PreparedFieldModel,
)
    ensures
        form_asset_keys(fields.push(f)) == form_asset_keys(fields) + kind_assets(f.kind, f.opts),
        form_asset_keys(Seq::empty()).len() == 0,
        f.kind matches FieldKind::Leaf(k) ==> (f.opts matches Some(OptionsModel::Leaf(l))
            ==> kind_assets(f.kind, f.opts) == leaf_assets(k, Some(l))),
{
    assert(fields.push(f).drop_last() =~= fields);
}

// --------------------------------------------------------------------- resolving
/// A row holds fields of registered types other than a repeater, each under its own name
/// and label; one field that is refused refuses the repeater.
pub proof fn law_a_row_is_made_of_registered_fields(
    fields: Seq<SubFieldModel>,
    types: FieldTypesModel,
    pickers: Seq<Seq<char>>,
    i: int,
)
    requires
        0 <= i < fields.len(),
    ensures
        subs_resolved(fields, types, pickers) matches Ok(subs) ==> {
            &&& subs.len() == fields.len()
            &&& subs[i].name == fields[i].name
            &&& subs[i].label == fields[i].label
            &&& fields[i].field_type != "repeater"@
            &&& leaf_of(fields[i].field_type) matches Some(k) ==> subs[i].kind == k
            &&& leaf_of(fields[i].field_type) is None ==> types.names.contains(
                fields[i].field_type,
            ) && subs[i].kind == LeafKind::Contributed
            &&& leaf_made(subs[i].kind, fields[i].field_type, fields[i].options, types, pickers)
                == Ok::<Option<LeafResolvedModel>, Seq<char>>(subs[i].opts)
        },
        sub_resolved(fields[i], types, pickers) is Err ==> subs_resolved(
            fields,
            types,
            pickers,
        ) is Err,
        fields[i].field_type == "repeater"@ ==> subs_resolved(fields, types, pickers) is Err,
    decreases fields.len(),
{
    let init = fields.drop_last();
    if init.len() > 0 {
        law_a_row_is_made_of_registered_fields(
            init,
            types,
            pickers,
            if i < init.len() {
                i
            } else {
                0
            },
        );
    } else {
        assert(subs_resolved(init, types, pickers) == Ok::<Seq<SubModel>, Seq<char>>(Seq::empty()));
    }
    if i < init.len() {
        assert(init[i] == fields[i]);
    }
}

/// A repeater keeps the bounds it declares and refuses to be without fields.
pub proof fn law_a_repeater_keeps_its_bounds(
    raw: RepeaterRawModel,
    o: FieldOptionsModel,
    key: Seq<char>,
    types: FieldTypesModel,
    pickers: Seq<Seq<char>>,
)
    ensures
        options_resolved(
            FieldKind::Repeater,
            key,
            Some(FieldOptionsModel { repeater: Some(raw), ..o }),
            types,
            pickers,
        ) matches Ok(made) ==> (made matches Some(OptionsModel::Repeater(r)) && r.min_items
            == raw.min_items && r.max_items == raw.max_items && subs_resolved(
            raw.fields,
            types,
            pickers,
        ) == Ok::<Seq<SubModel>, Seq<char>>(r.rows)),
        options_resolved(FieldKind::Repeater, key, None, types, pickers) is Err,
        options_resolved(
            FieldKind::Repeater,
            key,
            Some(FieldOptionsModel { repeater: None, ..o }),
            types,
            pickers,
        ) is Err,
{
}

/// Too few rows and too many are both refused; a number within the bounds is not.
pub proof fn law_rows_are_counted_against_the_bounds(
    opts: RepeaterModel,
    name: Seq<char>,
    data: Seq<(Seq<char>, Seq<char>)>,
    answers: crate::contributed::AnswersModel,
)
    ensures
        ({
            let indices = crate::repeater::row_indices(
                crate::field::under_prefix(data, name + "["@),
            );
            rows_of(name, indices, opts.rows, data, answers) matches Ok(rows) ==> {
                &&& (repeated(opts, name, data, answers) is Ok <==> opts.min_items <= rows.len()
                    && (opts.max_items matches Some(max) ==> rows.len() <= max))
                &&& repeated(opts, name, data, answers) is Ok ==> repeated(
                    opts,
                    name,
                    data,
                    answers,
                )->Ok_0 == rows
            }
        }),
{
}

// ------------------------------------------------------------------------ asking
/// Whatever is in either of two lists is in the two together.
proof fn lemma_joined_holds<T>(a: Seq<T>, b: Seq<T>, x: T)
    ensures
        (a + b).contains(x) <==> a.contains(x) || b.contains(x),
{
    let all = a + b;
    if a.contains(x) {
        let k = choose|k: int| 0 <= k < a.len() && a[k] == x;
        assert(all[k] == x);
    }
    if b.contains(x) {
        let k = choose|k: int| 0 <= k < b.len() && b[k] == x;
        assert(all[a.len() + k] == x);
    }
    if all.contains(x) {
        let k = choose|k: int| 0 <= k < all.len() && all[k] == x;
        if k < a.len() {
            assert(a[k] == x);
        } else {
            assert(b[k - a.len()] == x);
        }
    }
}

/// Every password entered in a form is hashed before the form is saved.
pub proof fn law_every_entered_password_is_hashed(
    form: PreparedModel,
    n: nat,
    data: Seq<(Seq<char>, Seq<char>)>,
    i: int,
    text: Seq<char>,
)
    requires
        0 <= i < n <= form.fields.len(),
        form.fields[i].kind == FieldKind::Leaf(LeafKind::Password),
        lookup(data, form.config.fields[i].name) == Some(text),
        trimmed(text).len() > 0,
    ensures
        form_secrets(form, n, data).contains(trimmed(text)),
    decreases n,
{
    let k = n - 1;
    let own = field_secrets(form.fields[k].kind, form.fields[k].opts, form.config.fields[k].name, data);
    lemma_joined_holds(form_secrets(form, k as nat, data), own, trimmed(text));
    if i < k {
        law_every_entered_password_is_hashed(form, k as nat, data, i, text);
    } else {
        assert(own[0] == trimmed(text));
    }
}

/// Every password entered in a row is hashed before the rows are saved.
pub proof fn law_every_password_of_a_row_is_hashed(
    name: Seq<char>,
    indices: Seq<usize>,
    subs: Seq<SubModel>,
    data: Seq<(Seq<char>, Seq<char>)>,
    i: int,
    k: int,
    text: Seq<char>,
)
    requires
        0 <= i < indices.len(),
        0 <= k < subs.len(),
        subs[k].kind == LeafKind::Password,
        lookup(data, row_key(name, decimal(indices[i] as nat), subs[k].name)) == Some(text),
        trimmed(text).len() > 0,
    ensures
        repeater_secrets(name, indices, subs, data).contains(trimmed(text)),
    decreases indices.len(),
{
    let init = indices.drop_last();
    let own = row_secrets(name, decimal(indices.last() as nat), subs, data);
    lemma_joined_holds(repeater_secrets(name, init, subs, data), own, trimmed(text));
    if i < init.len() {
        law_every_password_of_a_row_is_hashed(name, init, subs, data, i, k, text);
    } else {
        lemma_row_secret(name, decimal(indices.last() as nat), subs, data, k, text);
    }
}

proof fn lemma_row_secret(
    name: Seq<char>,
    index: Seq<char>,
    subs: Seq<SubModel>,
    data: Seq<(Seq<char>, Seq<char>)>,
    k: int,
    text: Seq<char>,
)
    requires
        0 <= k < subs.len(),
        subs[k].kind == LeafKind::Password,
        lookup(data, row_key(name, index, subs[k].name)) == Some(text),
        trimmed(text).len() > 0,
    ensures
        row_secrets(name, index, subs, data).contains(trimmed(text)),
    decreases subs.len(),
{
    let init = subs.drop_last();
    let before = row_secrets(name, index, init, data);
    let now = row_secrets(name, index, subs, data);
    if k < init.len() {
        lemma_row_secret(name, index, init, data, k, text);
        let at = choose|at: int| 0 <= at < before.len() && before[at] == trimmed(text);
        assert(now[at] == trimmed(text));
    } else {
        assert(now[before.len() as int] == trimmed(text));
    }
}

/// Every field of a module's own type is asked of the module, with its name, its options
/// and what was submitted, before the form is saved.
pub proof fn law_every_contributed_field_is_asked(
    form: PreparedModel,
    n: nat,
    data: Seq<(Seq<char>, Seq<char>)>,
    i: int,
    l: LeafResolvedModel,
    asked: AskedModel,
)
    requires
        0 <= i < n <= form.fields.len(),
        form.fields[i].kind is Leaf,
        form.fields[i].opts == Some(OptionsModel::Leaf(l)),
        leaf_asked(
            Some(l),
            form.config.fields[i].name,
            lookup(data, form.config.fields[i].name),
        ) == Some(asked),
    ensures
        form_asked(form, n, data).contains(asked),
    decreases n,
{
    let k = n - 1;
    let own = field_asked(form.fields[k].kind, form.fields[k].opts, form.config.fields[k].name, data);
    lemma_joined_holds(form_asked(form, k as nat, data), own, asked);
    if i < k {
        law_every_contributed_field_is_asked(form, k as nat, data, i, l, asked);
    } else {
        assert(own[0] == asked);
    }
}

/// Every field of a module's own type in a row is asked of the module under the row's own
/// name for it.
pub proof fn law_every_contributed_field_of_a_row_is_asked(
    name: Seq<char>,
    indices: Seq<usize>,
    subs: Seq<SubModel>,
    data: Seq<(Seq<char>, Seq<char>)>,
    i: int,
    k: int,
    asked: AskedModel,
)
    requires
        0 <= i < indices.len(),
        0 <= k < subs.len(),
        ({
            let key = row_key(name, decimal(indices[i] as nat), subs[k].name);
            leaf_asked(subs[k].opts, key, lookup(data, key)) == Some(asked)
        }),
    ensures
        repeater_asked(name, indices, subs, data).contains(asked),
    decreases indices.len(),
{
    let init = indices.drop_last();
    let own = row_asked(name, decimal(indices.last() as nat), subs, data);
    lemma_joined_holds(repeater_asked(name, init, subs, data), own, asked);
    if i < init.len() {
        law_every_contributed_field_of_a_row_is_asked(name, init, subs, data, i, k, asked);
    } else {
        lemma_row_asked(name, decimal(indices.last() as nat), subs, data, k, asked);
    }
}

proof fn lemma_row_asked(
    name: Seq<char>,
    index: Seq<char>,
    subs: Seq<SubModel>,
    data: Seq<(Seq<char>, Seq<char>)>,
    k: int,
    asked: AskedModel,
)
    requires
        0 <= k < subs.len(),
        ({
            let key = row_key(name, index, subs[k].name);
            leaf_asked(subs[k].opts, key, lookup(data, key)) == Some(asked)
        }),
    ensures
        row_asked(name, index, subs, data).contains(asked),
    decreases subs.len(),
{
    let init = subs.drop_last();
    let before = row_asked(name, index, init, data);
    let now = row_asked(name, index, subs, data);
    if k < init.len() {
        assert(init[k] == subs[k]);
        lemma_row_asked(name, index, init, data, k, asked);
        let at = choose|at: int| 0 <= at < before.len() && before[at] == asked;
        assert(now[at] == asked);
    } else {
        assert(now[before.len() as int] == asked);
    }
}

/// A settings screen asks for the hashes its fields ask for, in order.
pub proof fn law_a_settings_screen_asks_for_its_fields_hashes(
    fields: Seq<crate::form::FormFieldModel>,
    f: crate::form::FormFieldModel,
    data: Seq<(Seq<char>, Seq<char>)>,
    types: FieldTypesModel,
    pickers: Seq<Seq<char>>,
    text: Seq<char>,
)
    ensures
        settings_secrets(fields.push(f), data, types, pickers) == settings_secrets(
            fields,
            data,
            types,
            pickers,
        ) + setting_secrets(f, data, types, pickers),
        f.field_type == leaf_key(LeafKind::Password) && lookup(data, f.name) == Some(text)
            && trimmed(text).len() > 0 ==> setting_secrets(f, data, types, pickers) == seq![
            trimmed(text),
        ],
{
    assert(fields.push(f).drop_last() =~= fields);
    crate::field_view::law_field_types_are_found_by_key(FieldKind::Leaf(LeafKind::Password));
}

} // verus!
