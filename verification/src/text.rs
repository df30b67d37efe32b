//! Messages, carried untranslated until a screen renders them.
//!
//! A [`Text`] is a source string with the values of its `{name}` placeholders;
//! a [`Translator`] turns it into what the operator reads. A source that the
//! translator has no message for stands for itself.
//!
//! Assumed of the catalogs a deployment loads: a message has the same `{name}`
//! placeholders as its source, and one form besides the plural, used for a count of one.
//! A catalog whose language counts in more forms, or that transforms its text as the
//! pseudo-locale does, has to be loaded with its messages written out.

use vstd::prelude::*;

use crate::nums::{decimal_int, i64_text};
use crate::strs::{chars_of, get, lookup, same, string_of};
use vstd::string::StringExecFns;

verus! {

/// A message: its source string, the form used for any count but one where the
/// message counts something, and the values of its placeholders.
pub struct Text {
    pub source: String,
    pub plural: Option<String>,
    pub count: i64,
    pub args: Vec<(String, String)>,
}

/// What a [`Text`] says, over characters.
pub struct TextModel {
    pub source: Seq<char>,
    pub plural: Option<Seq<char>>,
    pub count: int,
    pub args: Seq<(Seq<char>, Seq<char>)>,
}

impl View for Text {
    type V = TextModel;

    open spec fn view(&self) -> TextModel {
        TextModel {
            source: self.source@,
            plural: self.plural.deep_view(),
            count: self.count as int,
            args: self.args.deep_view(),
        }
    }
}

impl DeepView for Text {
    type V = TextModel;

    open spec fn deep_view(&self) -> TextModel {
        self@
    }
}

/// The message that is its source string and nothing more.
pub open spec fn plain(source: Seq<char>) -> TextModel {
    TextModel { source, plural: None, count: 0, args: Seq::empty() }
}

/// The message that counts `n` of something, filled in as `{n}`.
pub open spec fn counted(one: Seq<char>, many: Seq<char>, n: int) -> TextModel {
    TextModel { source: one, plural: Some(many), count: n, args: seq![("n"@, decimal_int(n))] }
}

/// The source string a message is looked up by.
pub open spec fn chosen_source(text: TextModel) -> Seq<char> {
    match text.plural {
        Some(many) => if text.count == 1 {
            text.source
        } else {
            many
        },
        None => text.source,
    }
}

impl Text {
    /// The message that is its source string and nothing more.
    pub fn new(source: &str) -> (r: Text)
        ensures
            r@ == plain(source@),
    {
        let args: Vec<(String, String)> = Vec::new();
        assert(args.deep_view() =~= Seq::<(Seq<char>, Seq<char>)>::empty());
        Text { source: source.to_owned(), plural: None, count: 0, args }
    }

    /// The message that counts `n` of something.
    pub fn counted(one: &str, many: &str, n: i64) -> (r: Text)
        ensures
            r@ == counted(one@, many@, n as int),
    {
        let mut args: Vec<(String, String)> = Vec::new();
        args.push(("n".to_owned(), i64_text(n)));
        assert(args.deep_view() =~= seq![("n"@, decimal_int(n as int))]);
        Text { source: one.to_owned(), plural: Some(many.to_owned()), count: n, args }
    }

    /// The same message with one more placeholder filled.
    pub fn arg(self, name: &str, value: &str) -> (r: Text)
        ensures
            r@ == (TextModel { args: self@.args.push((name@, value@)), ..self@ }),
    {
        let mut args: Vec<(String, String)> = self.args;
        let ghost before = args.deep_view();
        args.push((name.to_owned(), value.to_owned()));
        assert(args.deep_view() =~= before.push((name@, value@)));
        Text { source: self.source, plural: self.plural, count: self.count, args }
    }

    /// The source string.
    pub fn source(&self) -> (r: &str)
        ensures
            r@ == self@.source,
    {
        self.source.as_str()
    }

    /// A copy of the message.
    pub fn copy(&self) -> (r: Text)
        ensures
            r@ == self@,
    {
        let args: Vec<(String, String)> = copy_pairs(&self.args);
        let plural: Option<String> = match &self.plural {
            Some(p) => Some(p.clone()),
            None => None,
        };
        Text { source: self.source.clone(), plural, count: self.count, args }
    }
}

/// A copy of a list of pairs.
pub fn copy_pairs(pairs: &Vec<(String, String)>) -> (out: Vec<(String, String)>)
    ensures
        out.deep_view() == pairs.deep_view(),
{
    let mut out: Vec<(String, String)> = Vec::new();
    let mut i: usize = 0;
    while i < pairs.len()
        invariant
            i <= pairs.len(),
            out.len() == i,
            forall|j: int| 0 <= j < i ==> #[trigger] out@[j].deep_view() == pairs@[j].deep_view(),
        decreases pairs.len() - i,
    {
        out.push((pairs[i].0.clone(), pairs[i].1.clone()));
        i = i + 1;
    }
    assert(out.deep_view() =~= pairs.deep_view());
    out
}

// ------------------------------------------------------------- placeholders
/// Where the first `}` at or after `i` stands, the length where there is none.
pub open spec fn closing(s: Seq<char>, i: int) -> int
    decreases s.len() - i,
{
    if i >= s.len() || i < 0 {
        s.len() as int
    } else if s[i] == '}' {
        i
    } else {
        closing(s, i + 1)
    }
}

/// `s` from position `i` on, with each `{name}` whose name has a value replaced
/// by that value. A brace that opens no known name stays as it is.
pub open spec fn filled_from(
    s: Seq<char>,
    args: Seq<(Seq<char>, Seq<char>)>,
    i: int,
) -> Seq<char>
    decreases s.len() - i,
{
    if i < 0 || i >= s.len() {
        Seq::empty()
    } else {
        let j = closing(s, i + 1);
        if s[i] == '{' && j < s.len() && j > i && lookup(args, s.subrange(i + 1, j)) is Some {
            lookup(args, s.subrange(i + 1, j))->0 + filled_from(s, args, j + 1)
        } else {
            seq![s[i]] + filled_from(s, args, i + 1)
        }
    }
}

/// `s` with its placeholders filled.
pub open spec fn filled(s: Seq<char>, args: Seq<(Seq<char>, Seq<char>)>) -> Seq<char> {
    filled_from(s, args, 0)
}

/// Fills the placeholders of `s`.
pub fn fill(s: &str, args: &Vec<(String, String)>) -> (out: String)
    ensures
        out@ == filled(s@, args.deep_view()),
{
    let chars: Vec<char> = chars_of(s);
    let mut out: String = String::new();
    let mut i: usize = 0;
    while i < chars.len()
        invariant
            chars@ == s@,
            i <= chars.len(),
            out@ + filled_from(s@, args.deep_view(), i as int) == filled(s@, args.deep_view()),
        decreases chars.len() - i,
    {
        let ghost before = out@;
        let mut j: usize = i + 1;
        while j < chars.len() && chars[j] != '}'
            invariant
                chars@ == s@,
                i < j <= chars.len(),
                closing(s@, i + 1) == closing(s@, j as int),
            decreases chars.len() - j,
        {
            j = j + 1;
        }
        assert(closing(s@, i + 1) == j);
        if chars[i] == '{' && j < chars.len() {
            let name: String = string_of(&chars, i + 1, j);
            match get(args, name.as_str()) {
                Some(value) => {
                    out.append(value);
                    assert(out@ + filled_from(s@, args.deep_view(), j + 1) =~= before
                        + filled_from(s@, args.deep_view(), i as int));
                    i = j + 1;
                    continue;
                },
                None => {},
            }
        }
        out.push(chars[i]);
        assert(out@ + filled_from(s@, args.deep_view(), i + 1) =~= before + filled_from(
            s@,
            args.deep_view(),
            i as int,
        ));
        i = i + 1;
    }
    assert(out@ + filled_from(s@, args.deep_view(), i as int) =~= out@);
    out
}

// --------------------------------------------------------------- translator
/// The messages of one request's locale: source strings with what they read as.
pub struct Translator {
    pub locale: String,
    pub messages: Vec<(String, String)>,
}

impl View for Translator {
    type V = Seq<(Seq<char>, Seq<char>)>;

    open spec fn view(&self) -> Seq<(Seq<char>, Seq<char>)> {
        self.messages.deep_view()
    }
}

/// What a source string reads as: its message, or itself where there is none.
pub open spec fn message(table: Seq<(Seq<char>, Seq<char>)>, source: Seq<char>) -> Seq<char> {
    match lookup(table, source) {
        Some(m) => m,
        None => source,
    }
}

/// What a text reads as.
pub open spec fn localized(table: Seq<(Seq<char>, Seq<char>)>, text: TextModel) -> Seq<char> {
    filled(message(table, chosen_source(text)), text.args)
}

/// The language the source strings are written in.
pub const SOURCE_LOCALE: &'static str = "en";

/// The messages one locale's catalog holds: none where no catalog is loaded.
pub open spec fn catalog_of(
    catalogs: Seq<(Seq<char>, Seq<(Seq<char>, Seq<char>)>)>,
    locale: Seq<char>,
) -> Seq<(Seq<char>, Seq<char>)>
    decreases catalogs.len(),
{
    if catalogs.len() == 0 {
        Seq::empty()
    } else if catalogs[0].0 == locale {
        catalogs[0].1
    } else {
        catalog_of(catalogs.drop_first(), locale)
    }
}

/// The messages a chain of locales reads from, the most specific locale's last,
/// so that its messages win. The chain is followed no further than the source
/// language, where a string reads as itself.
pub open spec fn chained(
    chain: Seq<Seq<char>>,
    catalogs: Seq<(Seq<char>, Seq<(Seq<char>, Seq<char>)>)>,
) -> Seq<(Seq<char>, Seq<char>)>
    decreases chain.len(),
{
    if chain.len() == 0 {
        Seq::empty()
    } else if chain[0] == SOURCE_LOCALE@ {
        catalog_of(catalogs, chain[0])
    } else {
        chained(chain.drop_first(), catalogs) + catalog_of(catalogs, chain[0])
    }
}

/// Adds the messages of one locale's catalog to a list.
fn add_catalog(
    out: &mut Vec<(String, String)>,
    catalogs: &Vec<(String, Vec<(String, String)>)>,
    locale: &str,
)
    ensures
        final(out).deep_view() == old(out).deep_view() + catalog_of(
            catalogs.deep_view(),
            locale@,
        ),
{
    let ghost all = catalogs.deep_view();
    let mut i: usize = 0;
    assert(all.skip(0) =~= all);
    while i < catalogs.len()
        invariant
            i <= catalogs.len(),
            all == catalogs.deep_view(),
            out.deep_view() == old(out).deep_view(),
            catalog_of(all, locale@) == catalog_of(all.skip(i as int), locale@),
        decreases catalogs.len() - i,
    {
        assert(all[i as int] == catalogs@[i as int].deep_view());
        assert(all.skip(i as int).drop_first() =~= all.skip(i + 1));
        if same(catalogs[i].0.as_str(), locale) {
            let mut copied: Vec<(String, String)> = copy_pairs(&catalogs[i].1);
            let ghost first = out.deep_view();
            let ghost then = copied.deep_view();
            out.append(&mut copied);
            assert(out.deep_view() =~= first + then);
            return ;
        }
        i = i + 1;
    }
    assert(out.deep_view() =~= old(out).deep_view() + Seq::<(Seq<char>, Seq<char>)>::empty());
}

impl Translator {
    /// A translator that reads each string in the first locale of a chain that has
    /// it. Its own locale is the most specific one.
    pub fn with_chain(
        chain: &Vec<String>,
        catalogs: &Vec<(String, Vec<(String, String)>)>,
    ) -> (r: Translator)
        ensures
            r@ == chained(chain.deep_view(), catalogs.deep_view()),
            r.locale@ == (if chain.deep_view().len() == 0 {
                SOURCE_LOCALE@
            } else {
                chain.deep_view()[0]
            }),
    {
        let ghost all = chain.deep_view();
        let mut k: usize = 0;
        while k < chain.len() && !same(chain[k].as_str(), SOURCE_LOCALE)
            invariant
                k <= chain.len(),
                all == chain.deep_view(),
                forall|j: int| 0 <= j < k ==> #[trigger] all[j] != SOURCE_LOCALE@,
            decreases chain.len() - k,
        {
            assert(all[k as int] == chain@[k as int]@);
            k = k + 1;
        }
        let mut messages: Vec<(String, String)> = Vec::new();
        assert(messages.deep_view() =~= Seq::<(Seq<char>, Seq<char>)>::empty());
        if k < chain.len() {
            assert(all[k as int] == chain@[k as int]@);
            add_catalog(&mut messages, catalogs, chain[k].as_str());
            assert(all.skip(k as int)[0] == all[k as int]);
        } else {
            assert(all.skip(k as int) =~= Seq::<Seq<char>>::empty());
        }
        assert(messages.deep_view() =~= chained(all.skip(k as int), catalogs.deep_view()));
        while k > 0
            invariant
                k <= chain.len(),
                all == chain.deep_view(),
                forall|j: int| 0 <= j < k ==> #[trigger] all[j] != SOURCE_LOCALE@,
                messages.deep_view() == chained(all.skip(k as int), catalogs.deep_view()),
            decreases k,
        {
            k = k - 1;
            assert(all[k as int] == chain@[k as int]@);
            assert(all.skip(k as int).drop_first() =~= all.skip(k + 1));
            assert(all.skip(k as int)[0] == all[k as int]);
            add_catalog(&mut messages, catalogs, chain[k].as_str());
        }
        assert(all.skip(0) =~= all);
        let locale: String = if chain.len() == 0 {
            SOURCE_LOCALE.to_owned()
        } else {
            chain[0].clone()
        };
        Translator { locale, messages }
    }

    /// A translator for a locale with no messages: every source reads as itself.
    pub fn new(locale: &str) -> (r: Translator)
        ensures
            r.locale@ == locale@,
            r@ == Seq::<(Seq<char>, Seq<char>)>::empty(),
    {
        let messages: Vec<(String, String)> = Vec::new();
        assert(messages.deep_view() =~= Seq::<(Seq<char>, Seq<char>)>::empty());
        Translator { locale: locale.to_owned(), messages }
    }

    /// What a text reads as in this locale.
    pub fn t(&self, text: &Text) -> (r: String)
        ensures
            r@ == localized(self@, text@),
    {
        let source: &str = match &text.plural {
            Some(many) => if text.count == 1 {
                text.source.as_str()
            } else {
                many.as_str()
            },
            None => text.source.as_str(),
        };
        let found: &str = match get(&self.messages, source) {
            Some(m) => m,
            None => source,
        };
        fill(found, &text.args)
    }

    /// The locale this translator serves.
    pub fn locale(&self) -> (r: &str)
        ensures
            r@ == self.locale@,
    {
        self.locale.as_str()
    }
}

/// A text without placeholders or braces reads as its message.
pub proof fn lemma_filled_plain(s: Seq<char>, i: int)
    requires
        0 <= i <= s.len(),
    ensures
        filled_from(s, Seq::empty(), i) == s.skip(i),
    decreases s.len() - i,
{
    if i < s.len() {
        lemma_filled_plain(s, i + 1);
        assert(filled_from(s, Seq::empty(), i) =~= s.skip(i));
    } else {
        assert(s.skip(i) =~= Seq::empty());
    }
}

/// A text without placeholder values reads as its message, and with no message
/// as its source.
pub proof fn law_untranslated_reads_as_source(table: Seq<(Seq<char>, Seq<char>)>, source: Seq<char>)
    ensures
        localized(table, plain(source)) == message(table, source),
        localized(Seq::empty(), plain(source)) == source,
{
    lemma_filled_plain(message(table, source), 0);
    lemma_filled_plain(source, 0);
    assert(message(table, source).skip(0) =~= message(table, source));
    assert(source.skip(0) =~= source);
}

/// What a list of pairs says of a key, where another list is put before it.
proof fn lemma_lookup_appended(
    a: Seq<(Seq<char>, Seq<char>)>,
    b: Seq<(Seq<char>, Seq<char>)>,
    key: Seq<char>,
)
    ensures
        lookup(a + b, key) == (match lookup(b, key) {
            Some(v) => Some(v),
            None => lookup(a, key),
        }),
    decreases b.len(),
{
    if b.len() == 0 {
        assert(a + b =~= a);
    } else {
        assert((a + b).drop_last() =~= a + b.drop_last());
        lemma_lookup_appended(a, b.drop_last(), key);
    }
}

/// A string reads as the most specific locale has it, where that one has it, and
/// as the rest of the chain has it otherwise; from the source language on it
/// reads as itself.
pub proof fn law_the_most_specific_message_wins(
    chain: Seq<Seq<char>>,
    catalogs: Seq<(Seq<char>, Seq<(Seq<char>, Seq<char>)>)>,
    source: Seq<char>,
)
    requires
        chain.len() > 0,
    ensures
        message(chained(chain, catalogs), source) == (match lookup(
            catalog_of(catalogs, chain[0]),
            source,
        ) {
            Some(m) => m,
            None => if chain[0] == SOURCE_LOCALE@ {
                source
            } else {
                message(chained(chain.drop_first(), catalogs), source)
            },
        }),
{
    if chain[0] != SOURCE_LOCALE@ {
        lemma_lookup_appended(
            chained(chain.drop_first(), catalogs),
            catalog_of(catalogs, chain[0]),
            source,
        );
    }
}

} // verus!
