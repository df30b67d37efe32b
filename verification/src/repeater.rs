//! The repeater: a list of rows, each made of ordinary fields.
//!
//! Row controls are named `field[index][subfield]`. The indices are read back
//! out of the submitted keys and sorted, so a row removed in the browser leaves
//! no hole. A row's sub-fields are ordinary field types, so a switch inside a row
//! stores a bool and a date inside a row is a date, exactly as at the top level.

use vstd::prelude::*;
use vstd::string::StringExecFns;

use crate::attr::{put, put_scalar, Scalar, ScalarModel};
use crate::contributed::{
    ask_leaf, find_leaf, leaf_asked, leaf_in, leaf_made, leaf_stored, make_leaf, store_leaf,
    Answers, AnswersModel, Asked, AskedModel, FieldTypes, FieldTypesModel,
};
use crate::field::{
    password_plain, password_text, under_prefix, LeafKind, LeafOptions, LeafOptionsModel,
    LeafResolved, LeafResolvedModel, OptionsError, SubmittedField,
};
use crate::nums::{decimal, parse_usize, u64_text, usize_of};
use crate::strs::{before, cat3, get, has_char, is_blank, lookup, only, same, split_on, trim};
use crate::text::{Text, TextModel};

verus! {

// -------------------------------------------------------------------- options
/// One field of a row, as the descriptor spells it.
pub struct SubField {
    pub name: String,
    pub label: Text,
    pub field_type: String,
    pub options: Option<LeafOptions>,
}

/// A [`SubField`], over characters.
pub struct SubFieldModel {
    pub name: Seq<char>,
    pub label: TextModel,
    pub field_type: Seq<char>,
    pub options: Option<LeafOptionsModel>,
}

impl DeepView for SubField {
    type V = SubFieldModel;

    open spec fn deep_view(&self) -> SubFieldModel {
        SubFieldModel {
            name: self.name@,
            label: self.label@,
            field_type: self.field_type@,
            options: self.options.deep_view(),
        }
    }
}

/// A repeater's options, as the descriptor spells them.
pub struct RepeaterRaw {
    pub fields: Vec<SubField>,
    pub min_items: usize,
    pub max_items: Option<usize>,
}

/// [`RepeaterRaw`], over characters.
pub struct RepeaterRawModel {
    pub fields: Seq<SubFieldModel>,
    pub min_items: usize,
    pub max_items: Option<usize>,
}

impl DeepView for RepeaterRaw {
    type V = RepeaterRawModel;

    open spec fn deep_view(&self) -> RepeaterRawModel {
        RepeaterRawModel {
            fields: self.fields.deep_view(),
            min_items: self.min_items,
            max_items: self.max_items,
        }
    }
}

/// One sub-field of a row, resolved once.
pub struct RepeaterSub {
    pub name: String,
    pub label: Text,
    pub kind: LeafKind,
    pub opts: Option<LeafResolved>,
}

/// A [`RepeaterSub`], over characters.
pub struct SubModel {
    pub name: Seq<char>,
    pub label: TextModel,
    pub kind: LeafKind,
    pub opts: Option<LeafResolvedModel>,
}

impl DeepView for RepeaterSub {
    type V = SubModel;

    open spec fn deep_view(&self) -> SubModel {
        SubModel {
            name: self.name@,
            label: self.label@,
            kind: self.kind,
            opts: self.opts.deep_view(),
        }
    }
}

/// A repeater's options: the fields one row holds, each resolved to its type and
/// its own options at boot, and how many rows there may be.
pub struct RepeaterOptions {
    pub rows: Vec<RepeaterSub>,
    pub min_items: usize,
    pub max_items: Option<usize>,
}

/// [`RepeaterOptions`], over characters.
pub struct RepeaterModel {
    pub rows: Seq<SubModel>,
    pub min_items: usize,
    pub max_items: Option<usize>,
}

impl DeepView for RepeaterOptions {
    type V = RepeaterModel;

    open spec fn deep_view(&self) -> RepeaterModel {
        RepeaterModel {
            rows: self.rows.deep_view(),
            min_items: self.min_items,
            max_items: self.max_items,
        }
    }
}

/// The field type of a key, where the key names one that stands for one value.
pub open spec fn leaf_of(key: Seq<char>) -> Option<LeafKind> {
    if key == "text"@ {
        Some(LeafKind::Text)
    } else if key == "textarea"@ {
        Some(LeafKind::Textarea)
    } else if key == "select"@ {
        Some(LeafKind::Select)
    } else if key == "switch"@ {
        Some(LeafKind::Switch)
    } else if key == "date"@ {
        Some(LeafKind::Date)
    } else if key == "password"@ {
        Some(LeafKind::Password)
    } else if key == "radio"@ {
        Some(LeafKind::Radio)
    } else if key == "reference"@ {
        Some(LeafKind::Reference)
    } else {
        None
    }
}

/// The field type of a key, where the key names one that stands for one value.
pub fn leaf_kind(key: &str) -> (r: Option<LeafKind>)
    ensures
        r == leaf_of(key@),
{
    if same(key, "text") {
        Some(LeafKind::Text)
    } else if same(key, "textarea") {
        Some(LeafKind::Textarea)
    } else if same(key, "select") {
        Some(LeafKind::Select)
    } else if same(key, "switch") {
        Some(LeafKind::Switch)
    } else if same(key, "date") {
        Some(LeafKind::Date)
    } else if same(key, "password") {
        Some(LeafKind::Password)
    } else if same(key, "radio") {
        Some(LeafKind::Radio)
    } else if same(key, "reference") {
        Some(LeafKind::Reference)
    } else {
        None
    }
}

/// What one sub-field resolves to.
pub open spec fn sub_resolved(
    f: SubFieldModel,
    types: FieldTypesModel,
    pickers: Seq<Seq<char>>,
) -> Result<SubModel, Seq<char>> {
    if f.field_type == "repeater"@ {
        Err("a repeater cannot hold a repeater"@)
    } else {
        match leaf_in(f.field_type, types) {
            None => Err("unregistered type `"@ + f.field_type + "`"@),
            Some(kind) => match leaf_made(kind, f.field_type, f.options, types, pickers) {
                Err(e) => Err(e),
                Ok(opts) => Ok(SubModel { name: f.name, label: f.label, kind, opts }),
            },
        }
    }
}

/// What the sub-fields resolve to: the first refusal where there is one.
pub open spec fn subs_resolved(
    fields: Seq<SubFieldModel>,
    types: FieldTypesModel,
    pickers: Seq<Seq<char>>,
) -> Result<Seq<SubModel>, Seq<char>>
    decreases fields.len(),
{
    if fields.len() == 0 {
        Ok(Seq::empty())
    } else {
        match subs_resolved(fields.drop_last(), types, pickers) {
            Err(e) => Err(e),
            Ok(subs) => match sub_resolved(fields.last(), types, pickers) {
                Err(e) => Err(e),
                Ok(sub) => Ok(subs.push(sub)),
            },
        }
    }
}

/// A refusal among the first sub-fields is the refusal of them all.
proof fn lemma_refused_prefix(
    fields: Seq<SubFieldModel>,
    types: FieldTypesModel,
    pickers: Seq<Seq<char>>,
    n: int,
)
    requires
        0 <= n <= fields.len(),
        subs_resolved(fields.take(n), types, pickers) is Err,
    ensures
        subs_resolved(fields, types, pickers) == subs_resolved(fields.take(n), types, pickers),
    decreases fields.len() - n,
{
    if n == fields.len() {
        assert(fields.take(n) =~= fields);
    } else {
        assert(fields.take(n + 1).drop_last() =~= fields.take(n));
        lemma_refused_prefix(fields, types, pickers, n + 1);
    }
}

impl RepeaterOptions {
    /// Resolves a repeater's options against the field types.
    pub fn resolve(raw: &RepeaterRaw, types: &FieldTypes, pickers: &Vec<String>) -> (r: Result<
        RepeaterOptions,
        OptionsError,
    >)
        ensures
            match subs_resolved(raw.fields.deep_view(), types@, pickers.deep_view()) {
                Ok(subs) => r is Ok && (r->Ok_0).deep_view() == (RepeaterModel {
                    rows: subs,
                    min_items: raw.min_items,
                    max_items: raw.max_items,
                }),
                Err(e) => r is Err && (r->Err_0).0@ == e,
            },
    {
        let ghost all = raw.fields.deep_view();
        let ghost known = pickers.deep_view();
        let mut rows: Vec<RepeaterSub> = Vec::new();
        let mut i: usize = 0;
        assert(rows.deep_view() =~= Seq::<SubModel>::empty());
        while i < raw.fields.len()
            invariant
                i <= raw.fields.len(),
                all == raw.fields.deep_view(),
                known == pickers.deep_view(),
                subs_resolved(all.take(i as int), types@, known) == Ok::<Seq<SubModel>, Seq<char>>(
                    rows.deep_view(),
                ),
            decreases raw.fields.len() - i,
        {
            let f: &SubField = &raw.fields[i];
            let ghost before = rows.deep_view();
            assert(all.take(i + 1).drop_last() =~= all.take(i as int));
            assert(all.take(i + 1).last() == f.deep_view());
            if same(f.field_type.as_str(), "repeater") {
                proof {
                    lemma_refused_prefix(all, types@, known, i + 1);
                }
                return Err(OptionsError("a repeater cannot hold a repeater".to_owned()));
            }
            let kind: LeafKind = match find_leaf(f.field_type.as_str(), types) {
                Some(k) => k,
                None => {
                    proof {
                        lemma_refused_prefix(all, types@, known, i + 1);
                    }
                    return Err(
                        OptionsError(cat3("unregistered type `", f.field_type.as_str(), "`")),
                    );
                },
            };
            let opts: Option<LeafResolved> = match make_leaf(
                kind,
                f.field_type.as_str(),
                f.options.as_ref(),
                types,
                pickers,
            ) {
                Ok(o) => o,
                Err(e) => {
                    proof {
                        lemma_refused_prefix(all, types@, known, i + 1);
                    }
                    return Err(e);
                },
            };
            let sub: RepeaterSub = RepeaterSub {
                name: f.name.clone(),
                label: f.label.copy(),
                kind,
                opts,
            };
            let ghost w = sub.deep_view();
            rows.push(sub);
            assert(rows.deep_view() =~= before.push(w));
            i = i + 1;
        }
        assert(all.take(all.len() as int) =~= all);
        Ok(RepeaterOptions { rows, min_items: raw.min_items, max_items: raw.max_items })
    }
}

// -------------------------------------------------------------------- indices
/// Ascending numbers with one more among them, in its place.
pub open spec fn with_index(indices: Seq<usize>, i: usize) -> Seq<usize>
    decreases indices.len(),
{
    if indices.len() == 0 {
        seq![i]
    } else if indices.last() == i {
        indices
    } else if indices.last() < i {
        indices.push(i)
    } else {
        with_index(indices.drop_last(), i).push(indices.last())
    }
}

/// Whether numbers ascend without a repeat.
pub open spec fn ascending(indices: Seq<usize>) -> bool {
    forall|a: int, b: int| 0 <= a < b < indices.len() ==> indices[a] < indices[b]
}

/// Adding a number keeps the order and adds that number alone.
pub proof fn lemma_with_index(indices: Seq<usize>, i: usize)
    requires
        ascending(indices),
    ensures
        ascending(with_index(indices, i)),
        forall|k: usize| #[trigger]
            with_index(indices, i).contains(k) <==> indices.contains(k) || k == i,
        with_index(indices, i).len() > 0,
        with_index(indices, i).last() >= i,
        indices.len() > 0 ==> with_index(indices, i).last() == if indices.last() > i {
            indices.last()
        } else {
            i
        },
    decreases indices.len(),
{
    if indices.len() == 0 {
        assert(seq![i].contains(i)) by {
            assert(seq![i][0] == i);
        }
    } else if indices.last() == i {
        assert(indices.contains(i)) by {
            assert(indices[indices.len() - 1] == i);
        }
    } else if indices.last() < i {
        let r = indices.push(i);
        assert forall|a: int, b: int| 0 <= a < b < r.len() implies r[a] < r[b] by {
            if b == indices.len() {
                if a < indices.len() - 1 {
                    assert(indices[a] < indices[indices.len() - 1]);
                }
            }
        }
        assert forall|k: usize| r.contains(k) <==> indices.contains(k) || k == i by {
            if indices.contains(k) {
                let j = choose|j: int| 0 <= j < indices.len() && indices[j] == k;
                assert(r[j] == k);
            }
            if k == i {
                assert(r[indices.len() as int] == k);
            }
        }
    } else {
        let init = indices.drop_last();
        let last = indices.last();
        lemma_with_index(init, i);
        let inner = with_index(init, i);
        let r = inner.push(last);
        if init.len() > 0 {
            assert(indices[init.len() - 1] < indices[init.len() as int]);
        }
        assert forall|a: int, b: int| 0 <= a < b < r.len() implies r[a] < r[b] by {
            if b == inner.len() && a < inner.len() - 1 {
                assert(inner[a] < inner[inner.len() - 1]);
            }
        }
        assert forall|k: usize| r.contains(k) <==> indices.contains(k) || k == i by {
            if r.contains(k) {
                let j = choose|j: int| 0 <= j < r.len() && r[j] == k;
                if j < inner.len() {
                    assert(inner[j] == k);
                    assert(inner.contains(k));
                    if init.contains(k) {
                        let m = choose|m: int| 0 <= m < init.len() && init[m] == k;
                        assert(indices[m] == k);
                    }
                } else {
                    assert(indices[init.len() as int] == k);
                }
            }
            if indices.contains(k) {
                let j = choose|j: int| 0 <= j < indices.len() && indices[j] == k;
                if j < init.len() {
                    assert(init[j] == k);
                    assert(inner.contains(k));
                    let m = choose|m: int| 0 <= m < inner.len() && inner[m] == k;
                    assert(r[m] == k);
                } else {
                    assert(r[inner.len() as int] == k);
                }
            }
            if k == i {
                assert(inner.contains(k));
                let m = choose|m: int| 0 <= m < inner.len() && inner[m] == k;
                assert(r[m] == k);
            }
        }
    }
}

/// Puts a number in its place among ascending ones.
fn insert_index(indices: &mut Vec<usize>, i: usize)
    ensures
        final(indices)@ == with_index(old(indices)@, i),
{
    let ghost was = indices@;
    let mut k: usize = indices.len();
    assert(was.take(was.len() as int) =~= was);
    assert(was =~= was + was.skip(was.len() as int));
    assert(with_index(was, i) =~= with_index(was.take(k as int), i) + was.skip(k as int));
    while k > 0
        invariant
            k <= indices.len(),
            indices@ == was,
            with_index(was, i) == with_index(was.take(k as int), i) + was.skip(k as int),
        ensures
            k <= indices.len(),
            indices@ == was,
            with_index(was, i) == was.take(k as int).push(i) + was.skip(k as int) || with_index(
                was,
                i,
            ) == was,
            with_index(was, i) == was || (k > 0 ==> was[k - 1] < i),
            (k > 0 && was[k - 1] == i) <==> with_index(was, i) == was,
        decreases k,
    {
        let last: usize = indices[k - 1];
        let ghost head = was.take(k as int);
        assert(head.last() == last);
        if last == i {
            assert(was.take(k as int) + was.skip(k as int) =~= was);
            break;
        }
        if last < i {
            assert(with_index(head, i) == head.push(i));
            assert((head.push(i) + was.skip(k as int)).len() == was.len() + 1);
            break;
        }
        assert(head.drop_last() =~= was.take(k - 1));
        assert(with_index(head, i) =~= with_index(was.take(k - 1), i).push(last));
        assert(with_index(was.take(k - 1), i).push(last) + was.skip(k as int) =~= with_index(
            was.take(k - 1),
            i,
        ) + was.skip(k - 1));
        k = k - 1;
        if k == 0 {
            assert(was.take(0) =~= Seq::<usize>::empty());
            assert(with_index(was.take(0), i) =~= seq![i]);
            assert(was.take(0).push(i) =~= seq![i]);
            assert((seq![i] + was.skip(0)).len() == was.len() + 1);
        }
    }
    if k > 0 && indices[k - 1] == i {
        return;
    }
    indices.insert(k, i);
    assert(indices@ =~= was.take(k as int).push(i) + was.skip(k as int));
}

/// The row a submitted key belongs to: what stands before the first `]` of the
/// rest of the key, where that is a number.
pub open spec fn row_index(rest: Seq<char>) -> Option<usize> {
    if rest.contains(']') {
        usize_of(split_on(rest, only(']'))[0])
    } else {
        None
    }
}

/// The rows some keys belong to, ascending.
pub open spec fn row_indices(entries: Seq<(Seq<char>, Seq<char>)>) -> Seq<usize>
    decreases entries.len(),
{
    if entries.len() == 0 {
        Seq::empty()
    } else {
        let before = row_indices(entries.drop_last());
        match row_index(entries.last().0) {
            Some(i) => with_index(before, i),
            None => before,
        }
    }
}

/// The rows of a submission ascend and repeat nothing, whatever order they were
/// submitted in, and each of them was submitted.
pub proof fn law_rows_are_read_in_order(entries: Seq<(Seq<char>, Seq<char>)>)
    ensures
        ascending(row_indices(entries)),
        forall|k: usize| #[trigger]
            row_indices(entries).contains(k) <==> exists|j: int|
                0 <= j < entries.len() && row_index((#[trigger] entries[j]).0) == Some(k),
    decreases entries.len(),
{
    if entries.len() > 0 {
        let init = entries.drop_last();
        law_rows_are_read_in_order(init);
        let was = row_indices(init);
        match row_index(entries.last().0) {
            Some(i) => lemma_with_index(was, i),
            None => {},
        }
        let now = row_indices(entries);
        assert forall|k: usize| #[trigger]
            now.contains(k) <==> exists|j: int|
                0 <= j < entries.len() && row_index((#[trigger] entries[j]).0) == Some(k) by {
            if now.contains(k) {
                if was.contains(k) {
                    let j = choose|j: int|
                        0 <= j < init.len() && row_index((#[trigger] init[j]).0) == Some(k);
                    assert(entries[j] == init[j]);
                } else {
                    assert(row_index(entries[init.len() as int].0) == Some(k));
                }
            }
            if exists|j: int|
                0 <= j < entries.len() && row_index((#[trigger] entries[j]).0) == Some(k) {
                let j = choose|j: int|
                    0 <= j < entries.len() && row_index((#[trigger] entries[j]).0) == Some(k);
                if j < init.len() {
                    assert(init[j] == entries[j]);
                    assert(was.contains(k));
                }
                assert(now.contains(k));
            }
        }
    }
}

/// The rows some keys belong to, ascending.
fn read_indices(entries: &Vec<(String, String)>) -> (r: Vec<usize>)
    ensures
        r@ == row_indices(entries.deep_view()),
{
    let ghost all = entries.deep_view();
    let mut r: Vec<usize> = Vec::new();
    let mut i: usize = 0;
    while i < entries.len()
        invariant
            i <= entries.len(),
            all == entries.deep_view(),
            r@ == row_indices(all.take(i as int)),
        decreases entries.len() - i,
    {
        assert(all.take(i + 1).drop_last() =~= all.take(i as int));
        assert(all.take(i + 1).last() == entries@[i as int].deep_view());
        let rest: &str = entries[i].0.as_str();
        if has_char(rest, ']') {
            match parse_usize(before(rest, ']')) {
                Some(index) => {
                    insert_index(&mut r, index);
                },
                None => {},
            }
        }
        i = i + 1;
    }
    assert(all.take(all.len() as int) =~= all);
    r
}

// ----------------------------------------------------------------------- rows
/// The name of one control of one row.
pub open spec fn row_key(name: Seq<char>, index: Seq<char>, sub: Seq<char>) -> Seq<char> {
    name + "["@ + index + "]["@ + sub + "]"@
}

/// The name of one control of one row.
pub fn cell_name(name: &str, index: &str, sub: &str) -> (r: String)
    ensures
        r@ == row_key(name@, index@, sub@),
{
    let mut r: String = cat3(name, "[", index);
    r.append("][");
    r.append(sub);
    r.append("]");
    r
}

/// What one row stores: each sub-field's value under its name, or the first
/// failure.
pub open spec fn row_of(
    name: Seq<char>,
    index: Seq<char>,
    subs: Seq<SubModel>,
    data: Seq<(Seq<char>, Seq<char>)>,
    answers: AnswersModel,
) -> Result<Seq<(Seq<char>, ScalarModel)>, Seq<char>>
    decreases subs.len(),
{
    if subs.len() == 0 {
        Ok(Seq::empty())
    } else {
        match row_of(name, index, subs.drop_last(), data, answers) {
            Err(e) => Err(e),
            Ok(row) => {
                let sub = subs.last();
                let key = row_key(name, index, sub.name);
                match leaf_stored(sub.kind, key, lookup(data, key), answers) {
                    Err(e) => Err(e),
                    Ok(None) => Ok(row),
                    Ok(Some(v)) => Ok(put(row, sub.name, v)),
                }
            },
        }
    }
}

/// A failure among a row's first sub-fields is the row's.
proof fn lemma_row_failed(
    name: Seq<char>,
    index: Seq<char>,
    subs: Seq<SubModel>,
    data: Seq<(Seq<char>, Seq<char>)>,
    answers: AnswersModel,
    n: int,
)
    requires
        0 <= n <= subs.len(),
        row_of(name, index, subs.take(n), data, answers) is Err,
    ensures
        row_of(name, index, subs, data, answers) == row_of(name, index, subs.take(n), data, answers),
    decreases subs.len() - n,
{
    if n == subs.len() {
        assert(subs.take(n) =~= subs);
    } else {
        assert(subs.take(n + 1).drop_last() =~= subs.take(n));
        lemma_row_failed(name, index, subs, data, answers, n + 1);
    }
}

/// Whether a value counts as left empty.
pub open spec fn blank_value(v: ScalarModel) -> bool {
    match v {
        ScalarModel::Null => true,
        ScalarModel::Bool(b) => !b,
        ScalarModel::Text(s) => is_blank(s),
        ScalarModel::Int(_) => false,
    }
}

/// Whether every value in a row is empty or false.
pub open spec fn blank_row(row: Seq<(Seq<char>, ScalarModel)>) -> bool {
    forall|i: int| 0 <= i < row.len() ==> blank_value((#[trigger] row[i]).1)
}

/// Whether every value in a row is empty or false.
fn is_blank_row(row: &Vec<(String, Scalar)>) -> (r: bool)
    ensures
        r == blank_row(row.deep_view()),
{
    let ghost all = row.deep_view();
    let mut i: usize = 0;
    while i < row.len()
        invariant
            i <= row.len(),
            all == row.deep_view(),
            forall|j: int| 0 <= j < i ==> blank_value((#[trigger] all[j]).1),
        decreases row.len() - i,
    {
        assert(all[i as int].1 == row@[i as int].1.deep_view());
        let empty: bool = match &row[i].1 {
            Scalar::Null => true,
            Scalar::Bool(b) => !*b,
            Scalar::Text(s) => trim(s.as_str()).unicode_len() == 0,
            Scalar::Int(_) => false,
        };
        if !empty {
            return false;
        }
        i = i + 1;
    }
    true
}

/// The rows a submission stores: a row the operator added and left empty is not
/// one. The first failure where there is one.
pub open spec fn rows_of(
    name: Seq<char>,
    indices: Seq<usize>,
    subs: Seq<SubModel>,
    data: Seq<(Seq<char>, Seq<char>)>,
    answers: AnswersModel,
) -> Result<Seq<Seq<(Seq<char>, ScalarModel)>>, Seq<char>>
    decreases indices.len(),
{
    if indices.len() == 0 {
        Ok(Seq::empty())
    } else {
        match rows_of(name, indices.drop_last(), subs, data, answers) {
            Err(e) => Err(e),
            Ok(rows) => match row_of(name, decimal(indices.last() as nat), subs, data, answers) {
                Err(e) => Err(e),
                Ok(row) => if blank_row(row) {
                    Ok(rows)
                } else {
                    Ok(rows.push(row))
                },
            },
        }
    }
}

/// A failure among the first rows is the submission's.
proof fn lemma_rows_failed(
    name: Seq<char>,
    indices: Seq<usize>,
    subs: Seq<SubModel>,
    data: Seq<(Seq<char>, Seq<char>)>,
    answers: AnswersModel,
    n: int,
)
    requires
        0 <= n <= indices.len(),
        rows_of(name, indices.take(n), subs, data, answers) is Err,
    ensures
        rows_of(name, indices, subs, data, answers) == rows_of(
            name,
            indices.take(n),
            subs,
            data,
            answers,
        ),
    decreases indices.len() - n,
{
    if n == indices.len() {
        assert(indices.take(n) =~= indices);
    } else {
        assert(indices.take(n + 1).drop_last() =~= indices.take(n));
        lemma_rows_failed(name, indices, subs, data, answers, n + 1);
    }
}

/// What a repeater stores: the submission's rows, refused where they are too few
/// or too many.
pub open spec fn repeated(
    opts: RepeaterModel,
    name: Seq<char>,
    data: Seq<(Seq<char>, Seq<char>)>,
    answers: AnswersModel,
) -> Result<Seq<Seq<(Seq<char>, ScalarModel)>>, Seq<char>> {
    let indices = row_indices(under_prefix(data, name + "["@));
    match rows_of(name, indices, opts.rows, data, answers) {
        Err(e) => Err(e),
        Ok(rows) => if rows.len() < opts.min_items {
            Err("at least "@ + decimal(opts.min_items as nat) + " required"@)
        } else if opts.max_items is Some && rows.len() > opts.max_items->0 {
            Err("at most "@ + decimal(opts.max_items->0 as nat) + " allowed"@)
        } else {
            Ok(rows)
        },
    }
}

/// What one row stores.
fn read_row(
    name: &str,
    index: &str,
    subs: &Vec<RepeaterSub>,
    data: &Vec<(String, String)>,
    answers: &Answers,
) -> (r: Result<Vec<(String, Scalar)>, String>)
    ensures
        match row_of(name@, index@, subs.deep_view(), data.deep_view(), answers.deep_view()) {
            Ok(row) => r is Ok && (r->Ok_0).deep_view() == row,
            Err(e) => r is Err && (r->Err_0)@ == e,
        },
{
    let ghost all = subs.deep_view();
    let ghost given = data.deep_view();
    let ghost known = answers.deep_view();
    let mut row: Vec<(String, Scalar)> = Vec::new();
    let mut i: usize = 0;
    assert(row.deep_view() =~= Seq::<(Seq<char>, ScalarModel)>::empty());
    while i < subs.len()
        invariant
            i <= subs.len(),
            all == subs.deep_view(),
            given == data.deep_view(),
            known == answers.deep_view(),
            row_of(name@, index@, all.take(i as int), given, known) == Ok::<
                Seq<(Seq<char>, ScalarModel)>,
                Seq<char>,
            >(row.deep_view()),
        decreases subs.len() - i,
    {
        let sub: &RepeaterSub = &subs[i];
        assert(all.take(i + 1).drop_last() =~= all.take(i as int));
        assert(all.take(i + 1).last() == sub.deep_view());
        let key: String = cell_name(name, index, sub.name.as_str());
        match store_leaf(sub.kind, key.as_str(), get(data, key.as_str()), answers) {
            Err(e) => {
                proof {
                    lemma_row_failed(name@, index@, all, given, known, i + 1);
                }
                return Err(e);
            },
            Ok(Some(v)) => {
                put_scalar(&mut row, sub.name.as_str(), v);
            },
            Ok(None) => {},
        }
        i = i + 1;
    }
    assert(all.take(all.len() as int) =~= all);
    Ok(row)
}

impl RepeaterOptions {
    /// How a submission becomes the rows that are stored.
    pub fn to_rows(&self, field: &SubmittedField<'_>, answers: &Answers) -> (r: Result<
        Vec<Vec<(String, Scalar)>>,
        String,
    >)
        ensures
            match repeated(
                self.deep_view(),
                field.name_model(),
                field.data_model(),
                answers.deep_view(),
            ) {
                Ok(rows) => r is Ok && (r->Ok_0).deep_view() == rows,
                Err(e) => r is Err && (r->Err_0)@ == e,
            },
    {
        let name: &str = field.name();
        let data: &Vec<(String, String)> = field.all();
        let indices: Vec<usize> = read_indices(&field.nested());
        let ghost subs = self.rows.deep_view();
        let ghost given = data.deep_view();
        let ghost known = answers.deep_view();
        let mut rows: Vec<Vec<(String, Scalar)>> = Vec::new();
        let mut i: usize = 0;
        assert(rows.deep_view() =~= Seq::<Seq<(Seq<char>, ScalarModel)>>::empty());
        while i < indices.len()
            invariant
                i <= indices.len(),
                subs == self.rows.deep_view(),
                given == data.deep_view(),
                known == answers.deep_view(),
                given == field.data_model(),
                name@ == field.name_model(),
                indices@ == row_indices(under_prefix(given, name@ + "["@)),
                rows_of(name@, indices@.take(i as int), subs, given, known) == Ok::<
                    Seq<Seq<(Seq<char>, ScalarModel)>>,
                    Seq<char>,
                >(rows.deep_view()),
            decreases indices.len() - i,
        {
            let ghost before = rows.deep_view();
            assert(indices@.take(i + 1).drop_last() =~= indices@.take(i as int));
            assert(indices@.take(i + 1).last() == indices@[i as int]);
            let index: String = u64_text(indices[i] as u64);
            match read_row(name, index.as_str(), &self.rows, data, answers) {
                Err(e) => {
                    proof {
                        lemma_rows_failed(name@, indices@, subs, given, known, i + 1);
                    }
                    return Err(e);
                },
                Ok(row) => {
                    if !is_blank_row(&row) {
                        let ghost w = row.deep_view();
                        rows.push(row);
                        assert(rows.deep_view() =~= before.push(w));
                    }
                },
            }
            i = i + 1;
        }
        assert(indices@.take(indices@.len() as int) =~= indices@);
        if rows.len() < self.min_items {
            return Err(cat3("at least ", u64_text(self.min_items as u64).as_str(), " required"));
        }
        match self.max_items {
            Some(max) => {
                if rows.len() > max {
                    return Err(cat3("at most ", u64_text(max as u64).as_str(), " allowed"));
                }
            },
            None => {},
        }
        Ok(rows)
    }
}

/// No stored row is blank, and there are as many as were asked for.
pub proof fn law_stored_rows_are_bounded_and_not_blank(
    opts: RepeaterModel,
    name: Seq<char>,
    data: Seq<(Seq<char>, Seq<char>)>,
    answers: AnswersModel,
)
    ensures
        repeated(opts, name, data, answers) matches Ok(rows) ==> {
            &&& opts.min_items <= rows.len()
            &&& opts.max_items matches Some(max) ==> rows.len() <= max
            &&& forall|i: int| 0 <= i < rows.len() ==> !blank_row(#[trigger] rows[i])
        },
{
    lemma_no_blank_row(
        name,
        row_indices(under_prefix(data, name + "["@)),
        opts.rows,
        data,
        answers,
    );
}

proof fn lemma_no_blank_row(
    name: Seq<char>,
    indices: Seq<usize>,
    subs: Seq<SubModel>,
    data: Seq<(Seq<char>, Seq<char>)>,
    answers: AnswersModel,
)
    ensures
        rows_of(name, indices, subs, data, answers) matches Ok(rows) ==> forall|i: int|
            0 <= i < rows.len() ==> !blank_row(#[trigger] rows[i]),
    decreases indices.len(),
{
    if indices.len() > 0 {
        lemma_no_blank_row(name, indices.drop_last(), subs, data, answers);
    }
}

// -------------------------------------------------------------------- secrets
/// The plaintexts one row's password fields carry.
pub open spec fn row_secrets(
    name: Seq<char>,
    index: Seq<char>,
    subs: Seq<SubModel>,
    data: Seq<(Seq<char>, Seq<char>)>,
) -> Seq<Seq<char>>
    decreases subs.len(),
{
    if subs.len() == 0 {
        Seq::empty()
    } else {
        let sub = subs.last();
        let before = row_secrets(name, index, subs.drop_last(), data);
        if sub.kind == LeafKind::Password {
            match password_plain(lookup(data, row_key(name, index, sub.name))) {
                Some(p) => before.push(p),
                None => before,
            }
        } else {
            before
        }
    }
}

/// The plaintexts a repeater's password fields carry, row by row: what has to be
/// hashed before the submission can be stored.
pub open spec fn repeater_secrets(
    name: Seq<char>,
    indices: Seq<usize>,
    subs: Seq<SubModel>,
    data: Seq<(Seq<char>, Seq<char>)>,
) -> Seq<Seq<char>>
    decreases indices.len(),
{
    if indices.len() == 0 {
        Seq::empty()
    } else {
        repeater_secrets(name, indices.drop_last(), subs, data) + row_secrets(
            name,
            decimal(indices.last() as nat),
            subs,
            data,
        )
    }
}

/// Adds the plaintexts one row's password fields carry.
fn read_row_secrets(
    out: &mut Vec<String>,
    name: &str,
    index: &str,
    subs: &Vec<RepeaterSub>,
    data: &Vec<(String, String)>,
)
    ensures
        final(out).deep_view() == old(out).deep_view() + row_secrets(
            name@,
            index@,
            subs.deep_view(),
            data.deep_view(),
        ),
{
    let ghost all = subs.deep_view();
    let ghost given = data.deep_view();
    let ghost had = out.deep_view();
    let mut i: usize = 0;
    assert(out.deep_view() =~= had + row_secrets(name@, index@, all.take(0), given));
    while i < subs.len()
        invariant
            i <= subs.len(),
            all == subs.deep_view(),
            given == data.deep_view(),
            out.deep_view() == had + row_secrets(name@, index@, all.take(i as int), given),
        decreases subs.len() - i,
    {
        let sub: &RepeaterSub = &subs[i];
        let ghost before = out.deep_view();
        assert(all.take(i + 1).drop_last() =~= all.take(i as int));
        assert(all.take(i + 1).last() == sub.deep_view());
        if sub.kind == LeafKind::Password {
            let key: String = cell_name(name, index, sub.name.as_str());
            match password_text(get(data, key.as_str())) {
                Some(p) => {
                    let ghost w = p@;
                    out.push(p);
                    assert(out.deep_view() =~= before.push(w));
                },
                None => {},
            }
        }
        assert(out.deep_view() =~= had + row_secrets(name@, index@, all.take(i + 1), given));
        i = i + 1;
    }
    assert(all.take(all.len() as int) =~= all);
}

impl RepeaterOptions {
    /// What has to be hashed before the submission can be stored.
    pub fn secrets(&self, field: &SubmittedField<'_>) -> (out: Vec<String>)
        ensures
            out.deep_view() == repeater_secrets(
                field.name_model(),
                row_indices(under_prefix(field.data_model(), field.name_model() + "["@)),
                self.deep_view().rows,
                field.data_model(),
            ),
    {
        let name: &str = field.name();
        let data: &Vec<(String, String)> = field.all();
        let indices: Vec<usize> = read_indices(&field.nested());
        let ghost subs = self.rows.deep_view();
        let ghost given = data.deep_view();
        let mut out: Vec<String> = Vec::new();
        let mut i: usize = 0;
        assert(out.deep_view() =~= repeater_secrets(name@, indices@.take(0), subs, given));
        while i < indices.len()
            invariant
                i <= indices.len(),
                subs == self.rows.deep_view(),
                given == data.deep_view(),
                out.deep_view() == repeater_secrets(name@, indices@.take(i as int), subs, given),
            decreases indices.len() - i,
        {
            assert(indices@.take(i + 1).drop_last() =~= indices@.take(i as int));
            assert(indices@.take(i + 1).last() == indices@[i as int]);
            let index: String = u64_text(indices[i] as u64);
            read_row_secrets(&mut out, name, index.as_str(), &self.rows, data);
            i = i + 1;
        }
        assert(indices@.take(indices@.len() as int) =~= indices@);
        out
    }
}

// --------------------------------------------------------------------- asking
/// What is asked about one row's contributed controls.
pub open spec fn row_asked(
    name: Seq<char>,
    index: Seq<char>,
    subs: Seq<SubModel>,
    data: Seq<(Seq<char>, Seq<char>)>,
) -> Seq<AskedModel>
    decreases subs.len(),
{
    if subs.len() == 0 {
        Seq::empty()
    } else {
        let sub = subs.last();
        let before = row_asked(name, index, subs.drop_last(), data);
        let key = row_key(name, index, sub.name);
        match leaf_asked(sub.opts, key, lookup(data, key)) {
            Some(a) => before.push(a),
            None => before,
        }
    }
}

/// What is asked about a repeater's contributed controls, row by row, before the
/// submission can be stored.
pub open spec fn repeater_asked(
    name: Seq<char>,
    indices: Seq<usize>,
    subs: Seq<SubModel>,
    data: Seq<(Seq<char>, Seq<char>)>,
) -> Seq<AskedModel>
    decreases indices.len(),
{
    if indices.len() == 0 {
        Seq::empty()
    } else {
        repeater_asked(name, indices.drop_last(), subs, data) + row_asked(
            name,
            decimal(indices.last() as nat),
            subs,
            data,
        )
    }
}

/// Adds what is asked about one row's contributed controls.
fn ask_row(
    out: &mut Vec<Asked>,
    name: &str,
    index: &str,
    subs: &Vec<RepeaterSub>,
    data: &Vec<(String, String)>,
)
    ensures
        final(out).deep_view() == old(out).deep_view() + row_asked(
            name@,
            index@,
            subs.deep_view(),
            data.deep_view(),
        ),
{
    let ghost all = subs.deep_view();
    let ghost given = data.deep_view();
    let ghost had = out.deep_view();
    let mut i: usize = 0;
    assert(out.deep_view() =~= had + row_asked(name@, index@, all.take(0), given));
    while i < subs.len()
        invariant
            i <= subs.len(),
            all == subs.deep_view(),
            given == data.deep_view(),
            out.deep_view() == had + row_asked(name@, index@, all.take(i as int), given),
        decreases subs.len() - i,
    {
        let sub: &RepeaterSub = &subs[i];
        let ghost before = out.deep_view();
        assert(all.take(i + 1).drop_last() =~= all.take(i as int));
        assert(all.take(i + 1).last() == sub.deep_view());
        let key: String = cell_name(name, index, sub.name.as_str());
        match ask_leaf(sub.opts.as_ref(), key.as_str(), get(data, key.as_str())) {
            Some(a) => {
                let ghost w = a.deep_view();
                out.push(a);
                assert(out.deep_view() =~= before.push(w));
            },
            None => {},
        }
        assert(out.deep_view() =~= had + row_asked(name@, index@, all.take(i + 1), given));
        i = i + 1;
    }
    assert(all.take(all.len() as int) =~= all);
}

impl RepeaterOptions {
    /// What is asked about its contributed controls before the submission can be
    /// stored.
    pub fn asked(&self, field: &SubmittedField<'_>) -> (out: Vec<Asked>)
        ensures
            out.deep_view() == repeater_asked(
                field.name_model(),
                row_indices(under_prefix(field.data_model(), field.name_model() + "["@)),
                self.deep_view().rows,
                field.data_model(),
            ),
    {
        let name: &str = field.name();
        let data: &Vec<(String, String)> = field.all();
        let indices: Vec<usize> = read_indices(&field.nested());
        let ghost subs = self.rows.deep_view();
        let ghost given = data.deep_view();
        let mut out: Vec<Asked> = Vec::new();
        let mut i: usize = 0;
        assert(out.deep_view() =~= repeater_asked(name@, indices@.take(0), subs, given));
        while i < indices.len()
            invariant
                i <= indices.len(),
                subs == self.rows.deep_view(),
                given == data.deep_view(),
                out.deep_view() == repeater_asked(name@, indices@.take(i as int), subs, given),
            decreases indices.len() - i,
        {
            assert(indices@.take(i + 1).drop_last() =~= indices@.take(i as int));
            assert(indices@.take(i + 1).last() == indices@[i as int]);
            let index: String = u64_text(indices[i] as u64);
            ask_row(&mut out, name, index.as_str(), &self.rows, data);
            i = i + 1;
        }
        assert(indices@.take(indices@.len() as int) =~= indices@);
        out
    }
}

} // verus!
