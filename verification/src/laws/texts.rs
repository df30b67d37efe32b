//! What texts promise: which words an operator reads, in which language, and in which
//! zone.

use vstd::prelude::*;

use crate::access::PermissionModel;
use crate::error::{kind_of_error, status_of, title_of, AdminError, ErrorKind};
use crate::form::FormFieldModel;
use crate::laws::values::{law_a_name_is_found_where_it_stands, lemma_kept};
use crate::list::{ButtonModel, ColumnModel, FilterModel};
use crate::locale::{
    accept_entry, accept_entry_models, base_of, candidates, chain_of, heavier, serves,
    shown_locale, tags_of, weight_text, PSEUDO_LOCALE,
};
use crate::nums::decimal_int;
use crate::order::{law_sorting_orders, orders, sorted_by};
use crate::resource::ResourceModel;
use crate::settings::ItemModel;
use crate::sources::{
    button_sources, column_sources, field_sources, filter_sources, item_sources, list_sources,
    one_field, one_filter, one_item, one_resource, permission_sources, resource_sources,
};
use crate::strs::{
    ascii_lowered, either, is_ascii_upper, lemma_split_first, lemma_split_single,
    lemma_split_tail, lemma_strip_shape, lookup, only, replaced, spaces, split_on, trimmed,
};
use crate::text::{
    catalog_of, chosen_source, closing, counted, filled, filled_from, lemma_filled_plain,
    message, plain,
};
use crate::zones::{
    date_locale_of, display_zone, is_date_locale, is_offered_zone, is_zone, shown_instant,
    zone_option_models, TzOptionModel,
};

verus! {

// ---------------------------------------------------------------------- messages
/// A counted text reads in the singular for one and in the plural for any other number,
/// and knows the number.
pub proof fn law_one_is_singular(one: Seq<char>, many: Seq<char>, n: int)
    ensures
        n == 1 ==> chosen_source(counted(one, many, n)) == one,
        n != 1 ==> chosen_source(counted(one, many, n)) == many,
        lookup(counted(one, many, n).args, "n"@) == Some(decimal_int(n)),
        chosen_source(plain(one)) == one,
{
    reveal_with_fuel(lookup, 2);
}

/// A message is read as the catalogue puts it, and as it was written where the catalogue
/// has none.
pub proof fn law_a_message_reads_as_the_catalogue_puts_it(
    table: Seq<(Seq<char>, Seq<char>)>,
    source: Seq<char>,
    put: Seq<char>,
    other: Seq<char>,
)
    ensures
        message(table.push((source, put)), source) == put,
        other != source ==> message(table.push((source, put)), other) == message(table, other),
        message(Seq::empty(), source) == source,
{
    law_a_name_is_found_where_it_stands(table, source, put, other);
}

/// The catalogue of a locale is the one that was loaded for it, the first where there are
/// several, and empty where there is none.
pub proof fn law_a_locale_has_its_own_catalogue(
    catalogs: Seq<(Seq<char>, Seq<(Seq<char>, Seq<char>)>)>,
    locale: Seq<char>,
    table: Seq<(Seq<char>, Seq<char>)>,
    other: Seq<char>,
)
    ensures
        catalog_of(seq![(locale, table)] + catalogs, locale) == table,
        other != locale ==> catalog_of(seq![(locale, table)] + catalogs, other) == catalog_of(
            catalogs,
            other,
        ),
        catalog_of(Seq::empty(), locale).len() == 0,
{
    let more = seq![(locale, table)] + catalogs;
    assert(more.drop_first() =~= catalogs);
    assert(more[0] == (locale, table));
}

/// From a place on, a text is filled as the text that starts there is.
proof fn lemma_filled_shift(
    s: Seq<char>,
    args: Seq<(Seq<char>, Seq<char>)>,
    from: int,
    i: int,
)
    requires
        0 <= from <= i <= s.len(),
    ensures
        filled_from(s, args, i) == filled_from(s.skip(from), args, i - from),
    decreases s.len() - i,
{
    let t = s.skip(from);
    if i < s.len() {
        let j = closing(s, i + 1);
        lemma_closing_shift(s, from, i + 1);
        lemma_closing_bounds(s, i + 1);
        assert(t[i - from] == s[i]);
        if s[i] == '{' && j < s.len() {
            assert(t.subrange(i - from + 1, j - from) =~= s.subrange(i + 1, j));
            lemma_filled_shift(s, args, from, j + 1);
        }
        lemma_filled_shift(s, args, from, i + 1);
    }
}

proof fn lemma_closing_bounds(s: Seq<char>, i: int)
    requires
        0 <= i <= s.len(),
    ensures
        i <= closing(s, i) <= s.len(),
        forall|k: int| i <= k < closing(s, i) ==> s[k] != '}',
        closing(s, i) < s.len() ==> s[closing(s, i)] == '}',
    decreases s.len() - i,
{
    if i < s.len() && s[i] != '}' {
        lemma_closing_bounds(s, i + 1);
    }
}

proof fn lemma_closing_shift(s: Seq<char>, from: int, i: int)
    requires
        0 <= from <= i <= s.len(),
    ensures
        closing(s.skip(from), i - from) == closing(s, i) - from,
    decreases s.len() - i,
{
    if i < s.len() {
        assert(s.skip(from)[i - from] == s[i]);
        if s[i] != '}' {
            lemma_closing_shift(s, from, i + 1);
        }
    }
}

/// A named gap in a text is filled with what was given under that name; text without a
/// gap stays as it is, and so does a gap that nothing was given for.
pub proof fn law_a_gap_is_filled_with_what_was_given(
    name: Seq<char>,
    value: Seq<char>,
    rest: Seq<char>,
    args: Seq<(Seq<char>, Seq<char>)>,
    c: char,
)
    requires
        !name.contains('}'),
        lookup(args, name) == Some(value),
    ensures
        filled("{"@ + name + "}"@ + rest, args) == value + filled(rest, args),
        c != '{' ==> filled(seq![c] + rest, args) == seq![c] + filled(rest, args),
        filled(Seq::empty(), args).len() == 0,
        filled("{"@ + name + "}"@, Seq::empty()) == "{"@ + name + "}"@,
{
    reveal_strlit("{");
    reveal_strlit("}");
    let s = "{"@ + name + "}"@ + rest;
    let j: int = name.len() as int + 1;
    assert(s[0] == '{');
    assert(s[j] == '}');
    lemma_closing_bounds(s, 1);
    assert forall|k: int| 1 <= k < j implies s[k] != '}' by {
        assert(s[k] == name[k - 1]);
        assert(name.contains(name[k - 1]));
    }
    assert(closing(s, 1) == j);
    assert(s.subrange(1, j) =~= name);
    lemma_filled_shift(s, args, j + 1, j + 1);
    assert(s.skip(j + 1) =~= rest);
    let t = seq![c] + rest;
    lemma_filled_shift(t, args, 1, 1);
    assert(t.skip(1) =~= rest);
    let open = "{"@ + name + "}"@;
    lemma_filled_plain(open, 0);
    assert(open.skip(0) =~= open);
}

// ----------------------------------------------------------------------- locales
/// A locale's language is what stands before its region, in lower case, however the two
/// are joined.
pub proof fn law_a_language_stands_before_its_region(
    language: Seq<char>,
    region: Seq<char>,
    i: int,
)
    requires
        !language.contains('-'),
        !language.contains('_'),
    ensures
        base_of(language + "-"@ + region) == ascii_lowered(language),
        base_of(language + "_"@ + region) == ascii_lowered(language),
        base_of(language) == ascii_lowered(language),
        0 <= i < language.len() && !is_ascii_upper(language[i]) ==> base_of(language)[i]
            == language[i],
{
    reveal_strlit("-");
    reveal_strlit("_");
    let p = either('-', '_');
    assert forall|k: int| 0 <= k < language.len() implies !p(#[trigger] language[k]) by {
        assert(language.contains(language[k]));
    }
    let n = language.len() as int;
    let a = language + "-"@ + region;
    let b = language + "_"@ + region;
    assert forall|k: int| 0 <= k < n implies !p(#[trigger] a[k]) by {
        assert(a[k] == language[k]);
    }
    assert forall|k: int| 0 <= k < n implies !p(#[trigger] b[k]) by {
        assert(b[k] == language[k]);
    }
    assert(p(a[n]));
    assert(p(b[n]));
    lemma_split_first(a, p, n);
    lemma_split_first(b, p, n);
    assert(a.take(n) =~= language);
    assert(b.take(n) =~= language);
    lemma_split_single(language, p);
}

/// A language is tried just where a catalogue was loaded for it, or it is the source's or
/// the pseudo one; what was asked for earlier is tried earlier.
pub proof fn law_what_was_asked_for_first_is_tried_first(
    asked: Seq<Seq<char>>,
    tag: Seq<char>,
    loaded: Seq<Seq<char>>,
)
    ensures
        chain_of(asked, loaded).is_prefix_of(chain_of(asked.push(tag), loaded)),
        loaded.contains(base_of(tag)) ==> chain_of(asked.push(tag), loaded).contains(base_of(tag)),
        serves("en"@, loaded),
        chain_of(asked.push(tag), loaded).len() <= chain_of(asked, loaded).len() + 1,
        !loaded.contains(base_of(tag)) && base_of(tag) != "en"@ && base_of(tag)
            != PSEUDO_LOCALE@ ==> chain_of(asked.push(tag), loaded) == chain_of(
            asked,
            loaded,
        ),
        chain_of(Seq::empty(), loaded).len() == 0,
{
    assert(asked.push(tag).drop_last() =~= asked);
    let before = chain_of(asked, loaded);
    let now = chain_of(asked.push(tag), loaded);
    assert(before =~= now.subrange(0, before.len() as int));
    if now.len() > before.len() {
        assert(now[before.len() as int] == base_of(tag));
    }
}

/// A preference is asked for ahead of what the browser accepts, which is asked for ahead
/// of the panel's default, and English last.
pub proof fn law_a_preference_is_asked_for_first(
    preference: Seq<char>,
    accepted: Seq<Seq<char>>,
    default: Seq<char>,
    i: int,
)
    ensures
        candidates(Some(preference), accepted, default)[0] == preference,
        0 <= i < accepted.len() ==> candidates(Some(preference), accepted, default)[1 + i]
            == accepted[i],
        0 <= i < accepted.len() ==> candidates(None, accepted, default)[i] == accepted[i],
        candidates(None, accepted, default)[accepted.len() as int] == default,
        candidates(None, accepted, default).last() == "en"@,
        candidates(Some(preference), accepted, default)[accepted.len() as int + 1] == default,
        candidates(Some(preference), accepted, default).last() == "en"@,
        candidates(None, accepted, default).len() == accepted.len() + 2,
{
}

/// A language of an accept header is read with the weight that stands behind it; a star
/// and nothing at all name no language.
pub proof fn law_an_accepted_language_has_its_weight(tag: Seq<char>, weight: Seq<char>)
    requires
        tag.len() > 0,
        trimmed(tag) == tag,
        tag != "*"@,
        !tag.contains(';'),
        !weight.contains(';'),
        trimmed("q="@ + weight) == "q="@ + weight,
    ensures
        accept_entry(tag + ";"@ + ("q="@ + weight)) == Some((tag, Some(weight))),
        accept_entry(tag) == Some((tag, None::<Seq<char>>)),
        accept_entry(Seq::empty()) is None,
        accept_entry("*"@) is None,
{
    reveal_strlit(";");
    reveal_strlit("q=");
    let p = only(';');
    let tail = "q="@ + weight;
    assert forall|k: int| 0 <= k < tag.len() implies !p(#[trigger] tag[k]) by {
        assert(tag.contains(tag[k]));
    }
    assert forall|k: int| 0 <= k < tail.len() implies !p(#[trigger] tail[k]) by {
        if k >= 2 {
            assert(tail[k] == weight[k - 2]);
            assert(weight.contains(weight[k - 2]));
        }
    }
    lemma_split_single(tag, p);
    lemma_split_single(tail, p);
    let whole = tag + ";"@ + tail;
    lemma_split_two(tag, ';', tail);
    assert(whole =~= tag.push(';') + tail);
    let bits = split_on(whole, p);
    assert(bits == seq![tag, tail]);
    assert(bits.drop_first() =~= seq![tail]);
    reveal_with_fuel(weight_text, 2);
    assert("q="@ =~= tail.subrange(0, 2));
    assert(tail.skip(2) =~= weight);
    assert(seq![tag].drop_first() =~= Seq::<Seq<char>>::empty());
    let none = Seq::<char>::empty();
    lemma_split_single(none, p);
    assert(trimmed(none) =~= none);
    assert("*"@.len() == 1 && "*"@[0] == '*') by {
        reveal_strlit("*");
    }
    let star = "*"@;
    assert forall|k: int| 0 <= k < star.len() implies !p(#[trigger] star[k]) by {}
    lemma_split_single(star, p);
    lemma_strip_shape(star, spaces());
}

/// A text of two parts splits into them.
proof fn lemma_split_two(a: Seq<char>, sep: char, b: Seq<char>)
    requires
        !a.contains(sep),
        !b.contains(sep),
    ensures
        split_on(a.push(sep) + b, only(sep)) == seq![a, b],
{
    lemma_split_tail(a, sep, b);
    assert forall|k: int| 0 <= k < a.len() implies !only(sep)(#[trigger] a[k]) by {
        assert(a.contains(a[k]));
    }
    lemma_split_single(a, only(sep));
    assert(a.push(sep) + b =~= a + seq![sep] + b);
    assert(seq![a].push(b) =~= seq![a, b]);
}

/// Every language of an accept header is considered.
pub proof fn law_every_accepted_language_is_considered(header: Seq<char>, part: Seq<char>)
    requires
        split_on(header, only(',')).contains(part),
    ensures
        accept_entry(part) matches Some(entry) ==> accept_entry_models(header).contains(entry),
{
    if accept_entry(part) is Some {
        lemma_kept(
            split_on(header, only(',')),
            |p: Seq<char>| accept_entry(p),
            accept_entry(part)->0,
        );
    }
}

/// The heavier of two languages is tried first, and none is lost.
pub proof fn law_the_heavier_language_leads(pairs: Seq<(Seq<char>, i32)>, i: int, j: int)
    requires
        0 <= i < j < pairs.len(),
    ensures
        ({
            let sorted = sorted_by(pairs, heavier());
            &&& sorted.len() == pairs.len()
            &&& sorted[i].1 >= sorted[j].1
            &&& sorted.to_multiset() == pairs.to_multiset()
            &&& tags_of(sorted).len() == pairs.len()
            &&& tags_of(sorted)[i] == sorted[i].0
        }),
{
    assert(orders(heavier())) by {
        assert forall|a: (Seq<char>, i32), b: (Seq<char>, i32)| #[trigger] heavier()(
            a,
            b,
        ) implies !heavier()(b, a) by {}
        assert forall|a: (Seq<char>, i32), b: (Seq<char>, i32), c: (Seq<char>, i32)|
            !(#[trigger] heavier()(b, a)) && !(#[trigger] heavier()(c, b)) implies !heavier()(
            c,
            a,
        ) by {}
    }
    law_sorting_orders(pairs, heavier());
    let sorted = sorted_by(pairs, heavier());
    assert(!heavier()(sorted[j], sorted[i]));
}

/// English is called by its name, and any other language by its code.
pub proof fn law_a_language_is_called_by_its_code(code: Seq<char>)
    ensures
        code != "en"@ ==> shown_locale(code) == code,
        shown_locale("en"@) == "English"@,
{
}

// ------------------------------------------------------------------------- zones
/// A time is shown as it reads in the zone, and as it was stored where it does not read.
pub proof fn law_a_time_that_does_not_read_is_shown_as_stored(raw: Seq<char>, text: Seq<char>)
    ensures
        shown_instant(raw, Some(text)) == text,
        shown_instant(raw, None) == raw,
{
}

/// Times are shown in the zone the operator chose where there is such a zone, and in the
/// panel's otherwise; dates in the operator's language where it is one dates are known
/// in, whether its region is joined with a hyphen or an underscore.
pub proof fn law_the_chosen_zone_is_used(name: Seq<char>, default: Seq<char>, tag: Seq<char>)
    ensures
        is_zone(name) ==> display_zone(Some(name), default) == name,
        !is_zone(name) ==> display_zone(Some(name), default) == default,
        display_zone(None, default) == default,
        is_date_locale(replaced(tag, '-', '_')) ==> date_locale_of(tag) == replaced(tag, '-', '_'),
        !is_date_locale(replaced(tag, '-', '_')) ==> date_locale_of(tag) == "en_US"@,
{
}

/// The picker offers each of the zones, but for those it leaves out, and marks the one
/// that is chosen.
pub proof fn law_the_picker_marks_the_chosen_zone(
    names: Seq<Seq<char>>,
    current: Option<Seq<char>>,
    name: Seq<char>,
)
    ensures
        names.contains(name) && name != "Asia/Jerusalem"@ && name != "Asia/Tel_Aviv"@
            ==> zone_option_models(names, current).contains(
            (TzOptionModel { name, selected: current == Some(name) }),
        ),
        forall|o: TzOptionModel| #[trigger]
            zone_option_models(names, current).contains(o) ==> names.contains(o.name) && (
            o.selected <==> current == Some(o.name)) && o.name != "Asia/Jerusalem"@ && o.name
                != "Asia/Tel_Aviv"@,
{
    let make = |n: Seq<char>|
        if is_offered_zone(n) {
            Some(TzOptionModel { name: n, selected: current == Some(n) })
        } else {
            None::<TzOptionModel>
        };
    assert(zone_option_models(names, current) == names.filter_map(make));
    let own = TzOptionModel { name, selected: current == Some(name) };
    lemma_kept(names, make, own);
    if names.contains(name) && is_offered_zone(name) {
        assert(make(name) == Some(own));
    }
    assert forall|o: TzOptionModel| #[trigger]
        zone_option_models(names, current).contains(o) implies names.contains(o.name) && (o.selected
        <==> current == Some(o.name)) && o.name != "Asia/Jerusalem"@ && o.name
        != "Asia/Tel_Aviv"@ by {
        lemma_kept(names, make, o);
        let t = choose|t: Seq<char>| #[trigger] names.contains(t) && make(t) == Some(o);
        assert(o.name == t);
    }
}

// ------------------------------------------------------------------------ errors
/// An error is answered as what it is: what is not there as not found, what is not
/// allowed as forbidden, what failed as the server's own; no two look alike.
pub proof fn law_an_error_is_answered_as_what_it_is(e: AdminError, a: ErrorKind, b: ErrorKind)
    ensures
        e is NotFound ==> status_of(kind_of_error(e)) == 404,
        e is Forbidden ==> status_of(kind_of_error(e)) == 403,
        e is Internal ==> status_of(kind_of_error(e)) == 500,
        a != b ==> status_of(a) != status_of(b),
        a != b ==> title_of(a) != title_of(b),
{
    assert("Not found"@.len() == 9 && "Forbidden"@.len() == 9 && "Not found"@[0] == 'N'
        && "Forbidden"@[0] == 'F') by {
        reveal_strlit("Not found");
        reveal_strlit("Forbidden");
    }
    assert("Something went wrong"@.len() == 20) by {
        reveal_strlit("Something went wrong");
    }
}

// ----------------------------------------------------------------------- sources
/// Where two lists of texts are joined, each text of either is there.
proof fn lemma_in_either(a: Seq<Seq<char>>, b: Seq<Seq<char>>, s: Seq<char>)
    ensures
        (a + b).contains(s) <==> a.contains(s) || b.contains(s),
{
    let all = a + b;
    if a.contains(s) {
        let k = choose|k: int| 0 <= k < a.len() && a[k] == s;
        assert(all[k] == s);
    }
    if b.contains(s) {
        let k = choose|k: int| 0 <= k < b.len() && b[k] == s;
        assert(all[a.len() + k] == s);
    }
    if all.contains(s) {
        let k = choose|k: int| 0 <= k < all.len() && all[k] == s;
        if k < a.len() {
            assert(a[k] == s);
        } else {
            assert(b[k - a.len()] == s);
        }
    }
}

/// The label of every column is among the texts to translate.
pub proof fn law_every_column_label_is_translated(
    columns: Seq<ColumnModel>,
    i: int,
)
    requires
        0 <= i < columns.len(),
    ensures
        column_sources(columns).contains(columns[i].label.source),
    decreases columns.len(),
{
    let init = columns.drop_last();
    let one = seq![columns.last().label.source];
    if i < init.len() {
        law_every_column_label_is_translated(init, i);
    } else {
        assert(one[0] == columns[i].label.source);
    }
    lemma_in_either(column_sources(init), one, columns[i].label.source);
}

/// The label and the help of every field are among the texts to translate.
pub proof fn law_every_field_label_is_translated(
    fields: Seq<FormFieldModel>,
    i: int,
)
    requires
        0 <= i < fields.len(),
    ensures
        field_sources(fields).contains(fields[i].label.source),
        fields[i].help matches Some(h) ==> field_sources(fields).contains(h.source),
    decreases fields.len(),
{
    let init = fields.drop_last();
    let own = one_field(fields[fields.len() - 1]);
    if i < init.len() {
        law_every_field_label_is_translated(init, i);
    } else {
        assert(own[0] == fields[i].label.source);
        if fields[i].help is Some {
            assert(own[1] == (fields[i].help->0).source);
        }
    }
    lemma_in_either(field_sources(init), own, fields[i].label.source);
    if fields[i].help is Some {
        lemma_in_either(field_sources(init), own, (fields[i].help->0).source);
    }
}

/// Every settings item's label, description and category are among the texts to
/// translate, and so is the label of each of its fields.
pub proof fn law_every_setting_is_translated(
    items: Seq<ItemModel>,
    i: int,
    k: int,
)
    requires
        0 <= i < items.len(),
    ensures
        item_sources(items).contains(items[i].label.source),
        item_sources(items).contains(items[i].description.source),
        item_sources(items).contains(items[i].category.source),
        0 <= k < items[i].fields.len() ==> item_sources(items).contains(
            items[i].fields[k].label.source,
        ),
    decreases items.len(),
{
    let init = items.drop_last();
    let own = one_item(items[items.len() - 1]);
    let item = items[i];
    if i < init.len() {
        law_every_setting_is_translated(init, i, k);
    } else {
        assert(own[0] == item.label.source);
        assert(own[1] == item.description.source);
        assert(own[2] == item.category.source);
        if 0 <= k < item.fields.len() {
            law_every_field_label_is_translated(item.fields, k);
            lemma_in_either(
                seq![item.label.source, item.description.source, item.category.source],
                field_sources(item.fields),
                item.fields[k].label.source,
            );
        }
    }
    lemma_in_either(item_sources(init), own, item.label.source);
    lemma_in_either(item_sources(init), own, item.description.source);
    lemma_in_either(item_sources(init), own, item.category.source);
    if 0 <= k < item.fields.len() {
        lemma_in_either(item_sources(init), own, item.fields[k].label.source);
    }
}

/// Every resource's label, its list's title and the label of each of its columns are
/// among the texts to translate, and so are its form's title and fields.
pub proof fn law_every_resource_is_translated(
    resources: Seq<ResourceModel>,
    i: int,
    k: int,
)
    requires
        0 <= i < resources.len(),
    ensures
        resource_sources(resources).contains(resources[i].nav_label.source),
        resource_sources(resources).contains(resources[i].list.title.source),
        0 <= k < resources[i].list.columns.len() ==> resource_sources(resources).contains(
            resources[i].list.columns[k].label.source,
        ),
        0 <= k < resources[i].list.filters.len() ==> resource_sources(resources).contains(
            resources[i].list.filters[k].label.source,
        ),
        0 <= k < resources[i].list.toolbar.len() ==> resource_sources(resources).contains(
            resources[i].list.toolbar[k].label.source,
        ),
        resources[i].form matches Some(f) ==> resource_sources(resources).contains(f.title.source)
            && (0 <= k < f.fields.len() ==> resource_sources(resources).contains(
            f.fields[k].label.source,
        )),
    decreases resources.len(),
{
    let init = resources.drop_last();
    let own = one_resource(resources[resources.len() - 1]);
    let r = resources[i];
    if i < init.len() {
        law_every_resource_is_translated(init, i, k);
    } else {
        lemma_one_resource(r, k);
    }
    let before = resource_sources(init);
    lemma_in_either(before, own, r.nav_label.source);
    lemma_in_either(before, own, r.list.title.source);
    if 0 <= k < r.list.columns.len() {
        lemma_in_either(before, own, r.list.columns[k].label.source);
    }
    if 0 <= k < r.list.filters.len() {
        lemma_in_either(before, own, r.list.filters[k].label.source);
    }
    if 0 <= k < r.list.toolbar.len() {
        lemma_in_either(before, own, r.list.toolbar[k].label.source);
    }
    if r.form is Some {
        let f = r.form->0;
        lemma_in_either(before, own, f.title.source);
        if 0 <= k < f.fields.len() {
            lemma_in_either(before, own, f.fields[k].label.source);
        }
    }
}

proof fn lemma_one_resource(r: ResourceModel, k: int)
    ensures
        one_resource(r).contains(r.nav_label.source),
        one_resource(r).contains(r.list.title.source),
        0 <= k < r.list.columns.len() ==> one_resource(r).contains(
            r.list.columns[k].label.source,
        ),
        0 <= k < r.list.filters.len() ==> one_resource(r).contains(
            r.list.filters[k].label.source,
        ),
        0 <= k < r.list.toolbar.len() ==> one_resource(r).contains(
            r.list.toolbar[k].label.source,
        ),
        r.form matches Some(f) ==> one_resource(r).contains(f.title.source) && (0 <= k
            < f.fields.len() ==> one_resource(r).contains(f.fields[k].label.source)),
{
    let head = seq![r.nav_label.source];
    let list = list_sources(r.list);
    let form = match r.form {
        Some(f) => seq![f.title.source] + field_sources(f.fields),
        None => Seq::empty(),
    };
    let title = seq![r.list.title.source];
    let columns = column_sources(r.list.columns);
    let filters = filter_sources(r.list.filters);
    let buttons = button_sources(r.list.toolbar);
    assert(head[0] == r.nav_label.source);
    assert(title[0] == r.list.title.source);
    lemma_in_three(head, list, form, r.nav_label.source);
    lemma_in_three(head, list, form, r.list.title.source);
    lemma_in_either(title, columns, r.list.title.source);
    lemma_in_three(title + columns, filters, buttons, r.list.title.source);
    if 0 <= k < r.list.columns.len() {
        let s = r.list.columns[k].label.source;
        law_every_column_label_is_translated(r.list.columns, k);
        lemma_in_either(title, columns, s);
        lemma_in_three(title + columns, filters, buttons, s);
        lemma_in_three(head, list, form, s);
    }
    if 0 <= k < r.list.filters.len() {
        let s = r.list.filters[k].label.source;
        lemma_filter_sources(r.list.filters, k);
        lemma_in_three(title + columns, filters, buttons, s);
        lemma_in_three(head, list, form, s);
    }
    if 0 <= k < r.list.toolbar.len() {
        let s = r.list.toolbar[k].label.source;
        lemma_button_sources(r.list.toolbar, k);
        lemma_in_three(title + columns, filters, buttons, s);
        lemma_in_three(head, list, form, s);
    }
    if r.form is Some {
        let f = r.form->0;
        let t = seq![f.title.source];
        assert(t[0] == f.title.source);
        lemma_in_either(t, field_sources(f.fields), f.title.source);
        lemma_in_three(head, list, form, f.title.source);
        if 0 <= k < f.fields.len() {
            let s = f.fields[k].label.source;
            law_every_field_label_is_translated(f.fields, k);
            lemma_in_either(t, field_sources(f.fields), s);
            lemma_in_three(head, list, form, s);
        }
    }
}

proof fn lemma_in_three(a: Seq<Seq<char>>, b: Seq<Seq<char>>, c: Seq<Seq<char>>, s: Seq<char>)
    ensures
        (a + b + c).contains(s) <==> a.contains(s) || b.contains(s) || c.contains(s),
{
    lemma_in_either(a, b, s);
    lemma_in_either(a + b, c, s);
}

proof fn lemma_filter_sources(filters: Seq<FilterModel>, k: int)
    requires
        0 <= k < filters.len(),
    ensures
        filter_sources(filters).contains(filters[k].label.source),
    decreases filters.len(),
{
    let init = filters.drop_last();
    let own = one_filter(filters[filters.len() - 1]);
    if k < init.len() {
        lemma_filter_sources(init, k);
    } else {
        assert(own[0] == filters[k].label.source);
    }
    lemma_in_either(filter_sources(init), own, filters[k].label.source);
}

proof fn lemma_button_sources(buttons: Seq<ButtonModel>, k: int)
    requires
        0 <= k < buttons.len(),
    ensures
        button_sources(buttons).contains(buttons[k].label.source),
    decreases buttons.len(),
{
    let init = buttons.drop_last();
    let own = seq![buttons[buttons.len() - 1].label.source];
    if k < init.len() {
        lemma_button_sources(init, k);
    } else {
        assert(own[0] == buttons[k].label.source);
    }
    lemma_in_either(button_sources(init), own, buttons[k].label.source);
}

/// A permission's label and its group are among the texts to translate.
pub proof fn law_every_permission_is_translated(
    permissions: Seq<PermissionModel>,
    i: int,
)
    requires
        0 <= i < permissions.len(),
    ensures
        permission_sources(permissions).contains(permissions[i].label.source),
        permission_sources(permissions).contains(permissions[i].group.source),
    decreases permissions.len(),
{
    let init = permissions.drop_last();
    let last = permissions[permissions.len() - 1];
    let own = seq![last.label.source, last.group.source];
    if i < init.len() {
        law_every_permission_is_translated(init, i);
    } else {
        assert(own[0] == last.label.source);
        assert(own[1] == last.group.source);
    }
    lemma_in_either(permission_sources(init), own, permissions[i].label.source);
    lemma_in_either(permission_sources(init), own, permissions[i].group.source);
}

} // verus!
