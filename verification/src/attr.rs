//! The values a record holds, and the record itself.

use vstd::prelude::*;

use crate::strs::same;
use crate::text::{Text, TextModel};

verus! {

/// One value inside a repeated row.
#[derive(Debug)]
pub enum Scalar {
    Null,
    Int(i64),
    Bool(bool),
    Text(String),
}

/// A [`Scalar`], over characters.
pub enum ScalarModel {
    Null,
    Int(int),
    Bool(bool),
    Text(Seq<char>),
}

impl DeepView for Scalar {
    type V = ScalarModel;

    open spec fn deep_view(&self) -> ScalarModel {
        match self {
            Scalar::Null => ScalarModel::Null,
            Scalar::Int(i) => ScalarModel::Int(*i as int),
            Scalar::Bool(b) => ScalarModel::Bool(*b),
            Scalar::Text(s) => ScalarModel::Text(s@),
        }
    }
}

impl Scalar {
    /// A copy of the value.
    pub fn copy(&self) -> (r: Scalar)
        ensures
            r.deep_view() == self.deep_view(),
    {
        match self {
            Scalar::Null => Scalar::Null,
            Scalar::Int(i) => Scalar::Int(*i),
            Scalar::Bool(b) => Scalar::Bool(*b),
            Scalar::Text(s) => Scalar::Text(s.clone()),
        }
    }
}

/// One attribute of a record. A list of rows is what a repeater stores.
#[derive(Debug)]
pub enum AttrValue {
    Null,
    Int(i64),
    Bool(bool),
    Text(String),
    Rows(Vec<Vec<(String, Scalar)>>),
}

/// An [`AttrValue`], over characters.
pub enum AttrModel {
    Null,
    Int(int),
    Bool(bool),
    Text(Seq<char>),
    Rows(Seq<Seq<(Seq<char>, ScalarModel)>>),
}

impl DeepView for AttrValue {
    type V = AttrModel;

    open spec fn deep_view(&self) -> AttrModel {
        match self {
            AttrValue::Null => AttrModel::Null,
            AttrValue::Int(i) => AttrModel::Int(*i as int),
            AttrValue::Bool(b) => AttrModel::Bool(*b),
            AttrValue::Text(s) => AttrModel::Text(s@),
            AttrValue::Rows(rows) => AttrModel::Rows(rows.deep_view()),
        }
    }
}

/// The attribute that is one value.
pub open spec fn attr_of(value: ScalarModel) -> AttrModel {
    match value {
        ScalarModel::Null => AttrModel::Null,
        ScalarModel::Int(i) => AttrModel::Int(i),
        ScalarModel::Bool(b) => AttrModel::Bool(b),
        ScalarModel::Text(s) => AttrModel::Text(s),
    }
}

/// The attribute that is one value.
pub fn from_scalar(value: Scalar) -> (r: AttrValue)
    ensures
        r.deep_view() == attr_of(value.deep_view()),
{
    match value {
        Scalar::Null => AttrValue::Null,
        Scalar::Int(i) => AttrValue::Int(i),
        Scalar::Bool(b) => AttrValue::Bool(b),
        Scalar::Text(s) => AttrValue::Text(s),
    }
}

// --------------------------------------------------------------------- keyed
/// Where a key stands in a list of pairs.
pub open spec fn key_at<V>(pairs: Seq<(Seq<char>, V)>, key: Seq<char>) -> Option<int>
    decreases pairs.len(),
{
    if pairs.len() == 0 {
        None
    } else {
        match key_at(pairs.drop_last(), key) {
            Some(i) => Some(i),
            None => if pairs.last().0 == key {
                Some(pairs.len() - 1)
            } else {
                None
            },
        }
    }
}

/// What a list of pairs holds under a key.
pub open spec fn held<V>(pairs: Seq<(Seq<char>, V)>, key: Seq<char>) -> Option<V> {
    match key_at(pairs, key) {
        Some(i) => Some(pairs[i].1),
        None => None,
    }
}

/// The pairs with a value put under a key: in the key's place where it has one,
/// at the end otherwise.
pub open spec fn put<V>(pairs: Seq<(Seq<char>, V)>, key: Seq<char>, value: V) -> Seq<
    (Seq<char>, V),
> {
    match key_at(pairs, key) {
        Some(i) => pairs.update(i, (key, value)),
        None => pairs.push((key, value)),
    }
}

/// A key that is found stands under its index.
pub proof fn lemma_key_at<V>(pairs: Seq<(Seq<char>, V)>, key: Seq<char>)
    ensures
        key_at(pairs, key) matches Some(i) ==> 0 <= i < pairs.len() && pairs[i].0 == key,
        key_at(pairs, key) is None ==> forall|i: int|
            0 <= i < pairs.len() ==> (#[trigger] pairs[i]).0 != key,
    decreases pairs.len(),
{
    if pairs.len() > 0 {
        let init = pairs.drop_last();
        lemma_key_at(init, key);
        if key_at(pairs, key) is None {
            assert forall|i: int| 0 <= i < pairs.len() implies (#[trigger] pairs[i]).0 != key by {
                if i < init.len() {
                    assert(init[i] == pairs[i]);
                }
            }
        }
    }
}

/// Looking in more pairs finds the same first key.
pub proof fn lemma_key_at_prefix<V>(pairs: Seq<(Seq<char>, V)>, key: Seq<char>, n: int)
    requires
        0 <= n <= pairs.len(),
        key_at(pairs.take(n), key) is Some,
    ensures
        key_at(pairs, key) == key_at(pairs.take(n), key),
    decreases pairs.len() - n,
{
    if n == pairs.len() {
        assert(pairs.take(n) =~= pairs);
    } else {
        assert(pairs.take(n + 1).drop_last() =~= pairs.take(n));
        lemma_key_at_prefix(pairs, key, n + 1);
    }
}

/// What was put is what is held, and nothing else changes.
pub proof fn law_put_then_held<V>(
    pairs: Seq<(Seq<char>, V)>,
    key: Seq<char>,
    value: V,
    other: Seq<char>,
)
    ensures
        held(put(pairs, key, value), key) == Some(value),
        other != key ==> held(put(pairs, key, value), other) == held(pairs, other),
{
    lemma_key_at(pairs, key);
    let after = put(pairs, key, value);
    match key_at(pairs, key) {
        Some(at) => {
            lemma_same_keys(pairs, after, key);
            lemma_same_keys(pairs, after, other);
            lemma_key_at(pairs, other);
        },
        None => {
            assert(after.drop_last() =~= pairs);
            lemma_key_at(pairs, other);
        },
    }
}

/// Two lists with the same keys find a key in the same place.
proof fn lemma_same_keys<V>(a: Seq<(Seq<char>, V)>, b: Seq<(Seq<char>, V)>, key: Seq<char>)
    requires
        a.len() == b.len(),
        forall|i: int| 0 <= i < a.len() ==> (#[trigger] a[i]).0 == b[i].0,
    ensures
        key_at(a, key) == key_at(b, key),
    decreases a.len(),
{
    if a.len() > 0 {
        lemma_same_keys(a.drop_last(), b.drop_last(), key);
    }
}

/// Where a key stands in a row.
fn scalar_at(pairs: &Vec<(String, Scalar)>, key: &str) -> (r: Option<usize>)
    ensures
        match r {
            Some(i) => key_at(pairs.deep_view(), key@) == Some(i as int) && i < pairs.len(),
            None => key_at(pairs.deep_view(), key@) is None,
        },
{
    let ghost all = pairs.deep_view();
    let mut i: usize = 0;
    while i < pairs.len()
        invariant
            i <= pairs.len(),
            all == pairs.deep_view(),
            key_at(all.take(i as int), key@) is None,
        decreases pairs.len() - i,
    {
        assert(all.take(i + 1).drop_last() =~= all.take(i as int));
        if same(pairs[i].0.as_str(), key) {
            proof {
                assert(all[i as int].0 == key@);
                lemma_key_at_prefix(all, key@, i + 1);
            }
            return Some(i);
        }
        assert(all[i as int].0 != key@);
        i = i + 1;
    }
    assert(all.take(all.len() as int) =~= all);
    None
}

/// What a row holds under a key.
pub fn get_scalar<'a>(pairs: &'a Vec<(String, Scalar)>, key: &str) -> (r: Option<&'a Scalar>)
    ensures
        match r {
            Some(v) => held(pairs.deep_view(), key@) == Some(v.deep_view()),
            None => held(pairs.deep_view(), key@) is None,
        },
{
    match scalar_at(pairs, key) {
        Some(i) => Some(&pairs[i].1),
        None => None,
    }
}

/// Puts a value under a key of a row.
pub fn put_scalar(pairs: &mut Vec<(String, Scalar)>, key: &str, value: Scalar)
    ensures
        final(pairs).deep_view() == put(old(pairs).deep_view(), key@, value.deep_view()),
{
    let ghost before = pairs.deep_view();
    match scalar_at(pairs, key) {
        Some(i) => {
            pairs.set(i, (key.to_owned(), value));
            assert(pairs.deep_view() =~= before.update(i as int, (key@, value.deep_view())));
        },
        None => {
            pairs.push((key.to_owned(), value));
            assert(pairs.deep_view() =~= before.push((key@, value.deep_view())));
        },
    }
}

/// Where a key stands among a record's attributes.
fn attr_at(pairs: &Vec<(String, AttrValue)>, key: &str) -> (r: Option<usize>)
    ensures
        match r {
            Some(i) => key_at(pairs.deep_view(), key@) == Some(i as int) && i < pairs.len(),
            None => key_at(pairs.deep_view(), key@) is None,
        },
{
    let ghost all = pairs.deep_view();
    let mut i: usize = 0;
    while i < pairs.len()
        invariant
            i <= pairs.len(),
            all == pairs.deep_view(),
            key_at(all.take(i as int), key@) is None,
        decreases pairs.len() - i,
    {
        assert(all.take(i + 1).drop_last() =~= all.take(i as int));
        if same(pairs[i].0.as_str(), key) {
            proof {
                assert(all[i as int].0 == key@);
                lemma_key_at_prefix(all, key@, i + 1);
            }
            return Some(i);
        }
        assert(all[i as int].0 != key@);
        i = i + 1;
    }
    assert(all.take(all.len() as int) =~= all);
    None
}

// -------------------------------------------------------------------- record
/// A record on its way to or from storage: the table it belongs to, its id once
/// it has one, its attributes in the order they were set, and the attributes it
/// had before an edit where those were read.
pub struct Record {
    pub entity: String,
    pub id: Option<i64>,
    pub attrs: Vec<(String, AttrValue)>,
    pub original: Option<Vec<(String, AttrValue)>>,
}

/// A [`Record`], over characters.
pub struct RecordModel {
    pub entity: Seq<char>,
    pub id: Option<i64>,
    pub attrs: Seq<(Seq<char>, AttrModel)>,
    pub original: Option<Seq<(Seq<char>, AttrModel)>>,
}

impl View for Record {
    type V = RecordModel;

    open spec fn view(&self) -> RecordModel {
        RecordModel {
            entity: self.entity@,
            id: self.id,
            attrs: self.attrs.deep_view(),
            original: self.original.deep_view(),
        }
    }
}

/// A record that holds nothing yet.
pub open spec fn bare_record(entity: Seq<char>) -> RecordModel {
    RecordModel { entity, id: None, attrs: Seq::empty(), original: None }
}

impl Record {
    /// A record that holds nothing yet.
    pub fn new(entity: &str) -> (r: Record)
        ensures
            r@ == bare_record(entity@),
    {
        let attrs: Vec<(String, AttrValue)> = Vec::new();
        assert(attrs.deep_view() =~= Seq::<(Seq<char>, AttrModel)>::empty());
        Record { entity: entity.to_owned(), id: None, attrs, original: None }
    }

    /// A record known by its id.
    pub fn with_id(entity: &str, id: i64) -> (r: Record)
        ensures
            r@ == (RecordModel { id: Some(id), ..bare_record(entity@) }),
    {
        let mut r: Record = Record::new(entity);
        r.id = Some(id);
        r
    }

    /// The attribute under a name.
    pub fn get(&self, key: &str) -> (r: Option<&AttrValue>)
        ensures
            match r {
                Some(v) => held(self@.attrs, key@) == Some(v.deep_view()),
                None => held(self@.attrs, key@) is None,
            },
    {
        match attr_at(&self.attrs, key) {
            Some(i) => Some(&self.attrs[i].1),
            None => None,
        }
    }

    /// Sets an attribute.
    pub fn set(&mut self, key: &str, value: AttrValue)
        ensures
            final(self)@ == (RecordModel {
                attrs: put(old(self)@.attrs, key@, value.deep_view()),
                ..old(self)@
            }),
    {
        let ghost before = self.attrs.deep_view();
        match attr_at(&self.attrs, key) {
            Some(i) => {
                self.attrs.set(i, (key.to_owned(), value));
                assert(self.attrs.deep_view() =~= before.update(
                    i as int,
                    (key@, value.deep_view()),
                ));
            },
            None => {
                self.attrs.push((key.to_owned(), value));
                assert(self.attrs.deep_view() =~= before.push((key@, value.deep_view())));
            },
        }
    }

    /// Gives the record its id.
    pub fn set_id(&mut self, id: i64)
        ensures
            final(self)@ == (RecordModel { id: Some(id), ..old(self)@ }),
    {
        self.id = Some(id);
    }

    /// Remembers what the record held before an edit.
    pub fn set_original(&mut self, previous: Record)
        ensures
            final(self)@ == (RecordModel { original: Some(previous@.attrs), ..old(self)@ }),
    {
        self.original = Some(previous.attrs);
    }
}

// -------------------------------------------------------------------- errors
/// Per-field messages, in the order they were added.
pub struct ErrorBag {
    pub entries: Vec<(String, Text)>,
}

impl View for ErrorBag {
    type V = Seq<(Seq<char>, TextModel)>;

    open spec fn view(&self) -> Seq<(Seq<char>, TextModel)> {
        self.entries.deep_view()
    }
}

/// The messages of one field.
pub open spec fn messages_of(
    bag: Seq<(Seq<char>, TextModel)>,
    field: Seq<char>,
) -> Seq<TextModel> {
    bag.filter_map(
        |e: (Seq<char>, TextModel)|
            if e.0 == field {
                Some(e.1)
            } else {
                None
            },
    )
}

impl ErrorBag {
    /// A bag without a message.
    pub fn new() -> (r: ErrorBag)
        ensures
            r@ == Seq::<(Seq<char>, TextModel)>::empty(),
    {
        let entries: Vec<(String, Text)> = Vec::new();
        assert(entries.deep_view() =~= Seq::<(Seq<char>, TextModel)>::empty());
        ErrorBag { entries }
    }

    /// Adds a message to a field.
    pub fn add(&mut self, field: &str, message: Text)
        ensures
            final(self)@ == old(self)@.push((field@, message@)),
    {
        let ghost before = self@;
        self.entries.push((field.to_owned(), message));
        assert(self.entries.deep_view() =~= before.push((field@, message@)));
    }

    /// Whether no field has a message.
    pub fn is_empty(&self) -> (r: bool)
        ensures
            r == (self@.len() == 0),
    {
        self.entries.len() == 0
    }

    /// The messages of one field.
    pub fn messages(&self, field: &str) -> (r: Vec<Text>)
        ensures
            r.deep_view() == messages_of(self@, field@),
    {
        let mut out: Vec<Text> = Vec::new();
        let ghost all = self@;
        let ghost f = |e: (Seq<char>, TextModel)|
            if e.0 == field@ {
                Some(e.1)
            } else {
                None
            };
        let mut i: usize = 0;
        assert(out.deep_view() =~= all.take(0).filter_map(f));
        while i < self.entries.len()
            invariant
                i <= self.entries.len(),
                all == self@,
                f == (|e: (Seq<char>, TextModel)|
                    if e.0 == field@ {
                        Some(e.1)
                    } else {
                        None
                    }),
                out.deep_view() == all.take(i as int).filter_map(f),
            decreases self.entries.len() - i,
        {
            let ghost before = out.deep_view();
            proof {
                all.lemma_filter_map_take_succ(f, i as int);
            }
            assert(all[i as int] == self.entries@[i as int].deep_view());
            if same(self.entries[i].0.as_str(), field) {
                let m: Text = self.entries[i].1.copy();
                let ghost w = m@;
                out.push(m);
                assert(out.deep_view() =~= before + seq![w]);
            }
            i = i + 1;
        }
        assert(all.take(all.len() as int) =~= all);
        out
    }
}

} // verus!
