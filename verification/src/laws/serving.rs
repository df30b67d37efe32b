//! What serving promises: files and their caching, icons, pickers, and an operator's
//! preferences.

use vstd::prelude::*;

use crate::access::{allowed, PermissionSetModel};
use crate::assets::{
    asset_answer, asset_of, asset_url, page_asset, page_asset_models, AssetModel, PageAssetModel,
};
use crate::clientip::label_of;
use crate::http_cache::{
    bare_tag, conditional_answer, digest_of, entry_matches, holds_tag, served, strip_prefixes,
    weak_tag,
};
use crate::icons::{glyph, icon_markup, icon_refusal};
use crate::laws::rows::law_a_statement_is_about_the_row_it_names;
use crate::laws::values::law_a_name_is_found_where_it_stands;
use crate::locale::shown_locale;
use crate::picker::{
    endpoint_refusal, limit_of, node_columns, resolve_read, search_read, source_idents_ok,
    source_named, text_or_blank, SourceModel, TableModel, MAX_LIMIT,
};
use crate::preferences::{
    chosen, device_of, locale_option, preferences_refusal, revoke_flash, session_row,
    SessionInfoModel,
};
use crate::session::FlashLevel;
use crate::sql::{has_term, is_ident, law_a_search_finds_substrings};
use crate::statements::{Backend, ChosenModel};
use crate::strs::{lookup, occurs, occurs_at, only, split_on, trimmed};
use crate::table::{among, meets, meets_term, text_in, StoredRow};
use crate::unicode::lowercase_of;
use crate::zones::instant_text;

verus! {

// ----------------------------------------------------------------------- caching
/// A browser that still holds the content is told so and sent nothing; any other is sent
/// the whole of it, as what it is. Either way the answer names the content.
pub proof fn law_content_is_sent_unless_it_is_held(
    if_none_match: Option<Seq<char>>,
    content_type: Seq<char>,
    cache_control: Seq<char>,
    body: Seq<u8>,
)
    ensures
        ({
            let a = conditional_answer(if_none_match, content_type, cache_control, body);
            &&& a.etag == weak_tag(digest_of(body))
            &&& a.cache_control == cache_control
            &&& (a.status == 304 <==> holds_tag(if_none_match, digest_of(body)))
            &&& (a.status == 200 <==> !holds_tag(if_none_match, digest_of(body)))
            &&& a.status == 304 ==> a.body is None && a.content_type is None
            &&& a.status == 200 ==> a.body == Some(body) && a.content_type == Some(content_type)
        }),
        conditional_answer(None, content_type, cache_control, body).body == Some(body),
{
}

/// A tag is held where one of the tags that were sent is it, weak or not, quoted or not,
/// or is the star; where no tag was sent none is held.
pub proof fn law_a_tag_is_held_where_it_was_sent(header: Seq<char>, etag: Seq<char>, i: int)
    ensures
        !holds_tag(None, etag),
        holds_tag(Some(header), etag) <==> exists|k: int|
            {
                &&& 0 <= k < split_on(header, only(',')).len()
                &&& bare_tag(#[trigger] split_on(header, only(','))[k]) == etag || bare_tag(
                    split_on(header, only(','))[k],
                ) == "*"@
            },
{
    let parts = split_on(header, only(','));
    if holds_tag(Some(header), etag) {
        let k = choose|k: int| 0 <= k < parts.len() && #[trigger] entry_matches(parts[k], etag);
        assert(bare_tag(parts[k]) == etag || bare_tag(parts[k]) == "*"@);
    }
    if exists|k: int|
        {
            &&& 0 <= k < parts.len()
            &&& bare_tag(#[trigger] parts[k]) == etag || bare_tag(parts[k]) == "*"@
        } {
        let k = choose|k: int|
            {
                &&& 0 <= k < parts.len()
                &&& bare_tag(#[trigger] parts[k]) == etag || bare_tag(parts[k]) == "*"@
            };
        assert(entry_matches(parts[k], etag));
    }
}

/// A prefix is taken off, however often it stands there, and nothing else is.
pub proof fn law_a_prefix_is_taken_off(s: Seq<char>, prefix: Seq<char>)
    requires
        prefix.len() > 0,
    ensures
        strip_prefixes(prefix + s, prefix) == strip_prefixes(s, prefix),
        !prefix.is_prefix_of(s) ==> strip_prefixes(s, prefix) == s,
{
    let whole = prefix + s;
    assert(prefix =~= whole.subrange(0, prefix.len() as int));
    assert(whole.skip(prefix.len() as int) =~= s);
}

/// A file that is registered is answered with its own content as its own type, and a file
/// that is not is not answered.
pub proof fn law_a_registered_file_is_answered(
    registry: Seq<AssetModel>,
    path: Seq<char>,
    if_none_match: Option<Seq<char>>,
)
    ensures
        ({
            let key = served(path).0;
            let answer = asset_answer(registry, path, if_none_match);
            &&& (answer is Some <==> asset_of(registry, key) is Some)
            &&& answer matches Some(a) ==> {
                let own = asset_of(registry, key)->0;
                &&& a.body matches Some(b) ==> b == own.bytes
                &&& a.content_type matches Some(t) ==> t == own.mime
                &&& a.etag == weak_tag(digest_of(own.bytes))
                &&& if_none_match is None ==> a.status == 200 && a.body == Some(own.bytes)
            }
        }),
{
}

/// A link to a file leads below the panel to the name its content is served under, and to
/// its key where it has no such name.
pub proof fn law_a_link_names_the_content(
    urls: Seq<(Seq<char>, Seq<char>)>,
    base: Seq<char>,
    key: Seq<char>,
    path: Seq<char>,
)
    ensures
        asset_url(urls.push((key, path)), base, key) == base + "/assets/"@ + path,
        asset_url(Seq::empty(), base, key) == base + "/assets/"@ + key,
{
    law_a_name_is_found_where_it_stands(urls, key, path, key);
}

/// A page loads each file it asks for that is registered and linked, a style sheet as a
/// style sheet, in the order they were asked for.
pub proof fn law_a_page_loads_what_it_asks_for(
    keys: Seq<Seq<char>>,
    key: Seq<char>,
    base: Seq<char>,
    registry: Seq<AssetModel>,
    urls: Seq<(Seq<char>, Seq<char>)>,
)
    requires
        !keys.contains(key),
    ensures
        asset_of(registry, key) is Some && lookup(urls, key) is Some ==> page_asset_models(
            keys.push(key),
            base,
            registry,
            urls,
        ) == page_asset_models(keys, base, registry, urls).push(
            (PageAssetModel {
                url: asset_url(urls, base, key),
                css: occurs((asset_of(registry, key)->0).mime, "css"@),
            }),
        ),
        asset_of(registry, key) is None || lookup(urls, key) is None ==> page_asset_models(
            keys.push(key),
            base,
            registry,
            urls,
        ) == page_asset_models(keys, base, registry, urls),
{
    let more = keys.push(key);
    assert(more.drop_last() =~= keys);
    let own = page_asset(key, base, registry, urls);
    let before = page_asset_models(keys, base, registry, urls);
    if own.len() == 0 {
        assert(before + own =~= before);
    } else {
        assert(before + own =~= before.push(own[0]));
    }
}

// ------------------------------------------------------------------------- icons
/// An icon that is in the set is drawn from the sprite by its own name, one that is not
/// is drawn as missing, and where none is named none is drawn.
pub proof fn law_an_icon_is_drawn_by_its_name(
    names: Seq<Seq<char>>,
    sprite: Seq<char>,
    name: Seq<char>,
    other: Seq<char>,
)
    ensures
        icon_markup(names.push(name), sprite, Some(name)) == glyph(sprite, name),
        !names.contains(name) ==> icon_markup(names, sprite, Some(name)) == icon_markup(
            Seq::empty(),
            sprite,
            Some(other),
        ),
        icon_markup(names, sprite, None).len() == 0,
        name.len() == other.len() && name != other ==> glyph(sprite, name) != glyph(sprite, other),
        occurs(glyph(sprite, name), sprite + "#lat-"@ + name),
        occurs(icon_refusal(sprite, name, Seq::empty()), "`"@ + name + "`"@),
{
    assert(names.push(name)[names.len() as int] == name);
    let open =
        "<svg class=\"lat-icon\" aria-hidden=\"true\" focusable=\"false\"><use href=\""@;
    let close = "\"/></svg>"@;
    let head = open + sprite + "#lat-"@;
    if name.len() == other.len() && name != other {
        let a = glyph(sprite, name);
        let b = glyph(sprite, other);
        let n = head.len() as int;
        assert(a.subrange(n, n + name.len()) =~= name);
        assert(b.subrange(n, n + name.len()) =~= other);
    }
    let part = sprite + "#lat-"@ + name;
    let g = glyph(sprite, name);
    let at = open.len() as int;
    assert(g.subrange(at, at + part.len()) =~= part);
    assert(occurs_at(g, part, at));
    reveal_strlit(" names the icon `");
    reveal_strlit("`, which is not in the set");
    reveal_strlit("`");
    let word = "`"@ + name + "`"@;
    let refusal = icon_refusal(sprite, name, Seq::empty());
    let k = sprite.len() + " names the icon `"@.len() - 1;
    assert(refusal.subrange(k, k + word.len()) =~= word);
    assert(occurs_at(refusal, word, k));
}

// ----------------------------------------------------------------------- pickers
/// A search of a picker finds the rows whose label holds what was asked for, whatever the
/// case, out of its own table, and no more than were asked for.
pub proof fn law_a_picker_finds_by_label(
    s: TableModel,
    q: Seq<char>,
    limit: int,
    backend: Backend,
    row: StoredRow,
)
    ensures
        ({
            let read = search_read(s, q, limit, backend);
            &&& read.tables == seq![s.table]
            &&& read.limit == Some(limit)
            &&& read.offset is None
            &&& (among(row, read.rows) <==> row.lowered.contains_key(s.label_col) && has_term(
                row.lowered[s.label_col],
                lowercase_of(q),
            ))
        }),
{
    let read = search_read(s, q, limit, backend);
    reveal_with_fuel(meets, 2);
    reveal_with_fuel(meets_term, 2);
    let c = read.rows->Meeting_0;
    let term = c.terms[0];
    if row.lowered.contains_key(s.label_col) {
        law_a_search_finds_substrings(row.lowered[s.label_col], lowercase_of(q));
    }
    if meets(row, c) {
        assert(meets_term(row, term));
    }
    if meets_term(row, term) {
        assert forall|i: int| 0 <= i < c.terms.len() implies meets_term(
            row,
            #[trigger] c.terms[i],
        ) by {
            assert(c.terms[i] == term);
        }
    }
}

/// A picker resolves an id to the row that has it, out of its own table.
pub proof fn law_a_picker_resolves_by_id(
    s: TableModel,
    id: Seq<char>,
    backend: Backend,
    row: StoredRow,
)
    ensures
        ({
            let read = resolve_read(s, id, backend);
            &&& read.tables == seq![s.table]
            &&& (among(row, read.rows) <==> text_in(row, s.id_col) == Some(id))
            &&& read.limit == Some(1int)
        }),
{
    law_a_statement_is_about_the_row_it_names(row, s.id_col, id, backend);
}

/// What a picker reads of a row is its id, its label and, where it has one, its hint,
/// each under its own name.
pub proof fn law_a_picker_reads_id_label_and_hint(s: TableModel, cast: Seq<char>, i: int)
    ensures
        ({
            let read = node_columns(s, cast);
            &&& read[0] == (ChosenModel::AsText { column: s.id_col, cast, alias: "id"@ })
            &&& read[1] == (ChosenModel::AsText { column: s.label_col, cast, alias: "label"@ })
            &&& s.hint_col matches Some(h) ==> read.len() == 3 && read[2] == (
            ChosenModel::AsText { column: h, cast, alias: "hint"@ })
            &&& s.hint_col is None ==> read.len() == 2
        }),
        source_idents_ok(s) ==> is_ident(s.table) && is_ident(s.id_col) && is_ident(s.label_col),
{
}

/// No fewer than one and no more than the most are given at once; between them, as many
/// as were asked for.
pub proof fn law_a_picker_gives_as_many_as_asked(n: u32)
    ensures
        1 <= limit_of(Some(n)) <= MAX_LIMIT,
        1 <= n <= MAX_LIMIT ==> limit_of(Some(n)) == n,
        n > MAX_LIMIT ==> limit_of(Some(n)) == MAX_LIMIT,
        n == 0 ==> limit_of(Some(n)) == 1,
        1 <= limit_of(None) <= MAX_LIMIT,
{
}

/// A source is found by its name, the first of that name.
pub proof fn law_a_source_is_found_by_its_name(
    sources: Seq<SourceModel>,
    s: SourceModel,
    other: Seq<char>,
)
    ensures
        source_named(seq![s] + sources, s.name) == Some(s),
        other != s.name ==> source_named(seq![s] + sources, other) == source_named(sources, other),
        source_named(Seq::empty(), other) is None,
{
    let more = seq![s] + sources;
    assert(more.drop_first() =~= sources);
    assert(more[0] == s);
}

/// A picker answers a query of a source that is there to whom it admits; any other method
/// is not allowed, a source that is not there is not found, and whom it does not admit is
/// forbidden.
pub proof fn law_a_picker_answers_whom_its_source_admits(
    method: Seq<char>,
    sources: Seq<SourceModel>,
    perms: PermissionSetModel,
    name: Seq<char>,
)
    ensures
        ({
            let refusal = endpoint_refusal(method, sources, perms, name);
            let found = source_named(sources, name);
            &&& method != "QUERY"@ ==> (refusal matches Some(r) && r.0 == 405)
            &&& method == "QUERY"@ && found is None ==> (refusal matches Some(r) && r.0 == 404)
            &&& method == "QUERY"@ && found is Some ==> {
                &&& (found->0).permission is None ==> refusal is None
                &&& (found->0).permission matches Some(p) ==> {
                    &&& allowed(perms, p) ==> refusal is None
                    &&& !allowed(perms, p) ==> (refusal matches Some(r) && r.0 == 403)
                }
            }
        }),
        text_or_blank(Some(name)) == name,
        text_or_blank(None).len() == 0,
{
}

// ------------------------------------------------------------------- preferences
/// A preference is what was entered without the space around it; blank is none.
pub proof fn law_a_blank_preference_is_none(submitted: Seq<char>)
    ensures
        trimmed(submitted).len() == 0 ==> chosen(submitted) is None,
        trimmed(submitted).len() > 0 ==> chosen(submitted) == Some(trimmed(submitted)),
{
}

/// Preferences are refused just where the zone that was chosen is none or the language
/// that was chosen is not offered; the default for either is always taken.
pub proof fn law_only_what_cannot_be_served_is_refused(
    timezone: Seq<char>,
    known_zone: bool,
    locale: Seq<char>,
    offered: Seq<Seq<char>>,
)
    ensures
        preferences_refusal(timezone, known_zone, locale, offered) is Some <==> (trimmed(
            timezone,
        ).len() > 0 && !known_zone) || (trimmed(locale).len() > 0 && !offered.contains(
            trimmed(locale),
        )),
{
}

/// A session is shown as itself: by its own id, marked where it is the one in use, with
/// its device in words where they are known and as it was sent where they are not.
pub proof fn law_a_session_is_shown_as_itself(
    s: SessionInfoModel,
    zone: Seq<char>,
    locale: Seq<char>,
    agent: Seq<char>,
)
    ensures
        ({
            let row = session_row(s, zone, locale);
            &&& row.id == s.id
            &&& row.current == s.current
            &&& s.ip_address matches Some(a) ==> row.ip_address == a
            &&& s.ip_address is None ==> row.ip_address.len() == 0
            &&& instant_text(
                s.created_at,
                zone,
                locale,
                "%-d %b %Y, %H:%M"@,
            ) is None ==> row.started == s.created_at
            &&& instant_text(
                s.last_seen_at,
                zone,
                locale,
                "%-d %b %Y, %H:%M"@,
            ) matches Some(t) ==> row.last_seen == t
            &&& instant_text(
                s.expires_at,
                zone,
                locale,
                "%-d %b %Y, %H:%M"@,
            ) matches Some(t) ==> row.expires == t
            &&& instant_text(
                s.created_at,
                zone,
                locale,
                "%-d %b %Y, %H:%M"@,
            ) matches Some(t) ==> row.started == t
            &&& row.device == device_of(s.user_agent)
        }),
        label_of(agent) matches Some(name) ==> device_of(Some(agent)) == name,
        label_of(agent) is None ==> device_of(Some(agent)) == agent,
        device_of(None) == "-"@,
{
}

/// A language on offer is named, and marked where it is the operator's.
pub proof fn law_a_language_on_offer_is_marked(code: Seq<char>, current: Option<Seq<char>>)
    ensures
        locale_option(code, current).code == code,
        locale_option(code, current).selected <==> current == Some(code),
        locale_option(code, current).name == shown_locale(code),
{
}

/// Signing a session out tells what became of it: ended now, ended before, or not.
pub proof fn law_a_sign_out_tells_what_became_of_it()
    ensures
        revoke_flash(Some(true)).0 == FlashLevel::Success,
        revoke_flash(Some(false)).0 == FlashLevel::Info,
        revoke_flash(None).0 == FlashLevel::Error,
{
}

} // verus!
