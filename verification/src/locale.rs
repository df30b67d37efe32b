//! Which language a request is answered in.
//!
//! A request's locale chain is the operator's own choice, then what the browser
//! accepts, then the deployment default, and always the English source. A locale
//! counts only where the deployment can serve it.

use vstd::prelude::*;

use crate::order::{lemma_insert_at, sorted_by};
use crate::strs::{
    ascii_lowered, before_either, either, listed, only, same, split, split_on, strip_prefix,
    to_ascii_lowercase, trim, trimmed,
};

verus! {

/// The quality-assurance pseudo-locale: it can be asked for, and is never offered. Its
/// messages come from a catalog like any other locale's; without one, the source is
/// shown as it is.
pub const PSEUDO_LOCALE: &'static str = "qps";

/// The base language of a tag (`kn-IN` is `kn`), lowercased. Catalogs are keyed by
/// base language.
pub open spec fn base_of(tag: Seq<char>) -> Seq<char> {
    ascii_lowered(split_on(tag, either('-', '_'))[0])
}

/// The base language of a tag.
pub fn base_lang(tag: &str) -> (r: String)
    ensures
        r@ == base_of(tag@),
{
    to_ascii_lowercase(before_either(tag, '-', '_'))
}

/// Whether the deployment can serve a base language: English, the pseudo-locale,
/// or one with a loaded catalog.
pub open spec fn serves(base: Seq<char>, loaded: Seq<Seq<char>>) -> bool {
    base == "en"@ || base == PSEUDO_LOCALE@ || loaded.contains(base)
}

/// Whether the deployment can serve a base language.
pub fn is_serveable(base: &str, serveable: &Vec<String>) -> (r: bool)
    ensures
        r == serves(base@, serveable.deep_view()),
{
    same(base, "en") || same(base, PSEUDO_LOCALE) || listed(serveable, base)
}

/// The deployment default locale: the configured one where it can be served,
/// English otherwise.
pub fn default_locale(configured: &str, serveable: &Vec<String>) -> (r: String)
    ensures
        r@ == (if serves(base_of(configured@), serveable.deep_view()) {
            base_of(configured@)
        } else {
            "en"@
        }),
{
    let base: String = base_lang(configured);
    if is_serveable(base.as_str(), serveable) {
        base
    } else {
        "en".to_owned()
    }
}

/// The locales the language picker offers: English, then every locale with a
/// loaded catalog.
pub fn offered_locales(loaded: &Vec<String>) -> (r: Vec<String>)
    ensures
        r.deep_view() == seq!["en"@] + loaded.deep_view(),
{
    let mut r: Vec<String> = Vec::new();
    r.push("en".to_owned());
    let mut more: Vec<String> = crate::strs::copy_list(loaded);
    let ghost m = more.deep_view();
    r.append(&mut more);
    assert(r.deep_view() =~= seq!["en"@] + m);
    r
}

/// A locale's display name: the framework names only its own source language, and
/// every other locale shows by its tag.
pub open spec fn shown_locale(code: Seq<char>) -> Seq<char> {
    if code == "en"@ {
        "English"@
    } else {
        code
    }
}

/// A locale's display name.
pub fn locale_name(code: &str) -> (r: String)
    ensures
        r@ == shown_locale(code@),
{
    if same(code, "en") {
        "English".to_owned()
    } else {
        code.to_owned()
    }
}

// ------------------------------------------------------------- accept-language
/// The weight's text among the parameters of an entry.
pub open spec fn weight_text(bits: Seq<Seq<char>>) -> Option<Seq<char>>
    decreases bits.len(),
{
    if bits.len() == 0 {
        None
    } else if "q="@.is_prefix_of(trimmed(bits[0])) {
        Some(trimmed(bits[0]).skip("q="@.len() as int))
    } else {
        weight_text(bits.drop_first())
    }
}

/// One entry of the header: its tag and its weight's text. The wildcard is none.
pub open spec fn accept_entry(part: Seq<char>) -> Option<(Seq<char>, Option<Seq<char>>)> {
    let bits = split_on(part, only(';'));
    let tag = trimmed(bits[0]);
    if tag.len() == 0 || tag == "*"@ {
        None
    } else {
        Some((tag, weight_text(bits.drop_first())))
    }
}

/// The entries of an `Accept-Language` header, in header order.
pub open spec fn accept_entry_models(header: Seq<char>) -> Seq<(Seq<char>, Option<Seq<char>>)> {
    split_on(header, only(',')).filter_map(|part: Seq<char>| accept_entry(part))
}

/// The weight's text among the parameters of an entry, behind its tag.
fn find_weight(bits: &Vec<String>) -> (r: Option<String>)
    requires
        bits.len() > 0,
    ensures
        r.deep_view() == weight_text(bits.deep_view().drop_first()),
{
    let ghost all = bits.deep_view();
    let mut i: usize = 1;
    assert(all.skip(1) =~= all.drop_first());
    while i < bits.len()
        invariant
            1 <= i <= bits.len(),
            all == bits.deep_view(),
            weight_text(all.drop_first()) == weight_text(all.skip(i as int)),
        decreases bits.len() - i,
    {
        assert(all.skip(i as int).drop_first() =~= all.skip(i + 1));
        assert(all.skip(i as int)[0] == bits@[i as int]@);
        match strip_prefix(trim(bits[i].as_str()), "q=") {
            Some(q) => {
                return Some(q.to_owned());
            },
            None => {},
        }
        i = i + 1;
    }
    None
}

/// One entry of the header.
fn read_entry(part: &str) -> (r: Option<(String, Option<String>)>)
    ensures
        r.deep_view() == accept_entry(part@),
{
    let bits: Vec<String> = split(part, ';');
    proof {
        crate::strs::lemma_split_nonempty(part@, only(';'));
    }
    assert(bits.deep_view()[0] == bits@[0]@);
    let tag: &str = trim(bits[0].as_str());
    if tag.unicode_len() == 0 || same(tag, "*") {
        return None;
    }
    Some((tag.to_owned(), find_weight(&bits)))
}

/// The entries of an `Accept-Language` header, in header order: each tag with the
/// text of its weight where it has one.
pub fn accept_entries(header: &str) -> (out: Vec<(String, Option<String>)>)
    ensures
        out.deep_view() == accept_entry_models(header@),
{
    let parts: Vec<String> = split(header, ',');
    let ghost all = parts.deep_view();
    let ghost f = |part: Seq<char>| accept_entry(part);
    let mut out: Vec<(String, Option<String>)> = Vec::new();
    let mut i: usize = 0;
    assert(out.deep_view() =~= all.take(0).filter_map(f));
    while i < parts.len()
        invariant
            i <= parts.len(),
            all == parts.deep_view(),
            f == (|part: Seq<char>| accept_entry(part)),
            out.deep_view() == all.take(i as int).filter_map(f),
        decreases parts.len() - i,
    {
        let ghost before = out.deep_view();
        proof {
            all.lemma_filter_map_take_succ(f, i as int);
        }
        assert(all[i as int] == parts@[i as int]@);
        match read_entry(parts[i].as_str()) {
            Some(e) => {
                let ghost w = e.deep_view();
                out.push(e);
                assert(out.deep_view() =~= before + seq![w]);
            },
            None => {},
        }
        i = i + 1;
    }
    assert(all.take(all.len() as int) =~= all);
    out
}

/// Each entry's tag with its weight.
pub open spec fn weighted(
    entries: Seq<(Seq<char>, Option<Seq<char>>)>,
    weights: Seq<i32>,
) -> Seq<(Seq<char>, i32)> {
    Seq::new(entries.len(), |i: int| (entries[i].0, weights[i]))
}

/// Tags by weight, the heaviest first.
pub open spec fn heavier() -> spec_fn((Seq<char>, i32), (Seq<char>, i32)) -> bool {
    |a: (Seq<char>, i32), b: (Seq<char>, i32)| a.1 > b.1
}

/// The tags of weighted entries.
pub open spec fn tags_of(pairs: Seq<(Seq<char>, i32)>) -> Seq<Seq<char>> {
    pairs.map_values(|p: (Seq<char>, i32)| p.0)
}

/// The tags of an `Accept-Language` header, most preferred first: ordered by
/// weight, entries of equal weight in header order. `weights` has one entry's
/// weight each, as a number that orders as the weights do.
pub fn parse_accept_language(entries: &Vec<(String, Option<String>)>, weights: &Vec<i32>) -> (r:
    Vec<String>)
    requires
        weights.len() == entries.len(),
    ensures
        r.deep_view() == tags_of(sorted_by(weighted(entries.deep_view(), weights@), heavier())),
{
    let ghost pairs = weighted(entries.deep_view(), weights@);
    let mut kept: Vec<(String, i32)> = Vec::new();
    let mut i: usize = 0;
    assert(kept.deep_view() =~= sorted_by(pairs.take(0), heavier()));
    while i < entries.len()
        invariant
            i <= entries.len(),
            weights.len() == entries.len(),
            pairs == weighted(entries.deep_view(), weights@),
            kept.deep_view() == sorted_by(pairs.take(i as int), heavier()),
        decreases entries.len() - i,
    {
        let x: (String, i32) = (entries[i].0.clone(), weights[i]);
        let ghost list = kept.deep_view();
        let ghost m = x.deep_view();
        assert(entries.deep_view()[i as int] == entries@[i as int].deep_view());
        assert(pairs.take(i + 1).drop_last() =~= pairs.take(i as int));
        assert(pairs.take(i + 1).last() == m);
        let mut k: usize = kept.len();
        while k > 0 && x.1 > kept[k - 1].1
            invariant
                k <= kept.len(),
                list == kept.deep_view(),
                m == x.deep_view(),
                forall|j: int| k <= j < list.len() ==> heavier()(m, #[trigger] list[j]),
            decreases k,
        {
            assert(list[k - 1] == kept@[k - 1].deep_view());
            k = k - 1;
        }
        assert(k > 0 ==> list[k - 1] == kept@[k - 1].deep_view());
        kept.insert(k, x);
        proof {
            lemma_insert_at(list, m, heavier(), k as int);
        }
        assert(kept.deep_view() =~= list.insert(k as int, m));
        i = i + 1;
    }
    assert(pairs.take(pairs.len() as int) =~= pairs);
    let ghost all = kept.deep_view();
    let mut r: Vec<String> = Vec::new();
    let mut n: usize = 0;
    while n < kept.len()
        invariant
            n <= kept.len(),
            all == kept.deep_view(),
            r.len() == n,
            forall|j: int| 0 <= j < n ==> #[trigger] r@[j]@ == all[j].0,
        decreases kept.len() - n,
    {
        r.push(kept[n].0.clone());
        n = n + 1;
    }
    assert(r.deep_view() =~= tags_of(all));
    r
}

// ----------------------------------------------------------------------- chain
/// A chain with one more candidate considered.
pub open spec fn considered(
    chain: Seq<Seq<char>>,
    tag: Seq<char>,
    loaded: Seq<Seq<char>>,
) -> Seq<Seq<char>> {
    let base = base_of(tag);
    if serves(base, loaded) && !chain.contains(base) {
        chain.push(base)
    } else {
        chain
    }
}

/// The chain some candidates come to.
pub open spec fn chain_of(candidates: Seq<Seq<char>>, loaded: Seq<Seq<char>>) -> Seq<Seq<char>>
    decreases candidates.len(),
{
    if candidates.len() == 0 {
        Seq::empty()
    } else {
        considered(chain_of(candidates.drop_last(), loaded), candidates.last(), loaded)
    }
}

/// A request's candidates, in order: the operator's stored locale, what the
/// browser accepts, the deployment default, and the source language.
pub open spec fn candidates(
    preference: Option<Seq<char>>,
    accepted: Seq<Seq<char>>,
    default: Seq<char>,
) -> Seq<Seq<char>> {
    (match preference {
        Some(p) => seq![p],
        None => Seq::empty(),
    }) + accepted + seq![default, "en"@]
}

/// Considers one more candidate.
fn consider(chain: &mut Vec<String>, tag: &str, serveable: &Vec<String>)
    ensures
        final(chain).deep_view() == considered(
            old(chain).deep_view(),
            tag@,
            serveable.deep_view(),
        ),
{
    let ghost before = chain.deep_view();
    let base: String = base_lang(tag);
    if is_serveable(base.as_str(), serveable) && !listed(chain, base.as_str()) {
        let ghost w = base@;
        chain.push(base);
        assert(chain.deep_view() =~= before.push(w));
    }
}

/// The chain of one more candidate.
proof fn lemma_chain_push(c: Seq<Seq<char>>, tag: Seq<char>, loaded: Seq<Seq<char>>)
    ensures
        chain_of(c.push(tag), loaded) == considered(chain_of(c, loaded), tag, loaded),
{
    assert(c.push(tag).drop_last() =~= c);
}

/// Builds a request's locale fallback chain, most specific first. Each candidate
/// is normalized to a base language the deployment can serve; others are skipped
/// and none repeats.
pub fn resolve_locale_chain(
    preference: Option<&str>,
    accepted: &Vec<String>,
    default: &str,
    serveable: &Vec<String>,
) -> (chain: Vec<String>)
    ensures
        chain.deep_view() == chain_of(
            candidates(preference.deep_view(), accepted.deep_view(), default@),
            serveable.deep_view(),
        ),
{
    let ghost loaded = serveable.deep_view();
    let ghost tags = accepted.deep_view();
    let mut chain: Vec<String> = Vec::new();
    let ghost mut done: Seq<Seq<char>> = Seq::empty();
    assert(chain.deep_view() =~= chain_of(done, loaded));
    match preference {
        Some(p) => {
            consider(&mut chain, p, serveable);
            proof {
                lemma_chain_push(done, p@, loaded);
                done = done.push(p@);
            }
        },
        None => {},
    }
    let ghost first = done;
    let mut i: usize = 0;
    assert(first + tags.take(0) =~= first);
    while i < accepted.len()
        invariant
            i <= accepted.len(),
            loaded == serveable.deep_view(),
            tags == accepted.deep_view(),
            chain.deep_view() == chain_of(first + tags.take(i as int), loaded),
        decreases accepted.len() - i,
    {
        consider(&mut chain, accepted[i].as_str(), serveable);
        proof {
            lemma_chain_push(first + tags.take(i as int), tags[i as int], loaded);
        }
        assert((first + tags.take(i as int)).push(tags[i as int]) =~= first + tags.take(i + 1));
        i = i + 1;
    }
    assert(tags.take(tags.len() as int) =~= tags);
    let ghost most = first + tags;
    consider(&mut chain, default, serveable);
    consider(&mut chain, "en", serveable);
    proof {
        lemma_chain_push(most, default@, loaded);
        lemma_chain_push(most.push(default@), "en"@, loaded);
        let want = candidates(preference.deep_view(), tags, default@);
        assert(most.push(default@).push("en"@) =~= want);
    }
    chain
}

/// English is its own base language.
proof fn lemma_english()
    ensures
        base_of("en"@) == "en"@,
{
    reveal_strlit("en");
    let en = "en"@;
    assert forall|j: int| 0 <= j < en.len() implies !either('-', '_')(#[trigger] en[j]) by {}
    crate::strs::lemma_split_single(en, either('-', '_'));
    assert(split_on(en, either('-', '_'))[0] == en);
    assert(ascii_lowered(en) =~= en);
}

/// A chain's links can all be served, and none repeats.
proof fn lemma_chain(c: Seq<Seq<char>>, loaded: Seq<Seq<char>>)
    ensures
        forall|i: int|
            0 <= i < chain_of(c, loaded).len() ==> serves(#[trigger] chain_of(c, loaded)[i], loaded),
        chain_of(c, loaded).no_duplicates(),
    decreases c.len(),
{
    if c.len() > 0 {
        let init = c.drop_last();
        lemma_chain(init, loaded);
        let was = chain_of(init, loaded);
        let now = chain_of(c, loaded);
        assert forall|i: int| 0 <= i < now.len() implies serves(#[trigger] now[i], loaded) by {
            if i < was.len() {
                assert(now[i] == was[i]);
            }
        }
        assert(now.no_duplicates()) by {
            assert forall|i: int, j: int| 0 <= i < now.len() && 0 <= j < now.len() && i != j implies now[i]
                != now[j] by {
                if i < was.len() && j < was.len() {
                    assert(was[i] != was[j]);
                } else if i < was.len() {
                    assert(was.contains(was[i]));
                } else if j < was.len() {
                    assert(was.contains(was[j]));
                }
            }
        }
    }
}

/// Every request's chain reaches the source language, names only locales the
/// deployment can serve, and repeats none.
pub proof fn law_a_chain_always_reaches_the_source(
    preference: Option<Seq<char>>,
    accepted: Seq<Seq<char>>,
    default: Seq<char>,
    loaded: Seq<Seq<char>>,
)
    ensures
        ({
            let chain = chain_of(candidates(preference, accepted, default), loaded);
            &&& chain.contains("en"@)
            &&& chain.no_duplicates()
            &&& forall|i: int| 0 <= i < chain.len() ==> serves(#[trigger] chain[i], loaded)
        }),
{
    let all = candidates(preference, accepted, default);
    lemma_chain(all, loaded);
    lemma_english();
    assert(all.last() == "en"@);
    let was = chain_of(all.drop_last(), loaded);
    let now = chain_of(all, loaded);
    if !was.contains("en"@) {
        assert(now[was.len() as int] == "en"@);
    }
}

/// An operator's own choice comes first, where it can be served.
pub proof fn law_the_operators_choice_leads(
    preference: Seq<char>,
    accepted: Seq<Seq<char>>,
    default: Seq<char>,
    loaded: Seq<Seq<char>>,
)
    requires
        serves(base_of(preference), loaded),
    ensures
        ({
            let chain = chain_of(candidates(Some(preference), accepted, default), loaded);
            chain.len() > 0 && chain[0] == base_of(preference)
        }),
{
    let all = candidates(Some(preference), accepted, default);
    assert(all[0] == preference);
    lemma_first_stays(all, loaded, 1);
    assert(all.take(1) =~= seq![preference]);
    assert(seq![preference].drop_last() =~= Seq::<Seq<char>>::empty());
    assert(chain_of(Seq::<Seq<char>>::empty(), loaded) =~= Seq::<Seq<char>>::empty());
    assert(chain_of(all.take(1), loaded) =~= seq![base_of(preference)]);
}

/// What leads a chain keeps leading it.
proof fn lemma_first_stays(c: Seq<Seq<char>>, loaded: Seq<Seq<char>>, n: int)
    requires
        0 <= n <= c.len(),
        chain_of(c.take(n), loaded).len() > 0,
    ensures
        chain_of(c, loaded).len() > 0,
        chain_of(c, loaded)[0] == chain_of(c.take(n), loaded)[0],
    decreases c.len() - n,
{
    if n == c.len() {
        assert(c.take(n) =~= c);
    } else {
        assert(c.take(n + 1).drop_last() =~= c.take(n));
        lemma_first_stays(c, loaded, n + 1);
    }
}

} // verus!
