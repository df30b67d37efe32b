//! Timezones and the timestamps rendered in them.

use vstd::prelude::*;

use crate::strs::{replace_char, replaced, same};

verus! {

/// Whether a name is an IANA timezone.
pub uninterp spec fn is_zone(name: Seq<char>) -> bool;

/// `<chrono_tz::Tz as FromStr>::from_str`: whether the name parses as a timezone.
#[verifier::external_body]
pub(crate) fn zone_known(name: &str) -> (r: bool)
    ensures
        r == is_zone(name@),
{
    name.parse::<chrono_tz::Tz>().is_ok()
}

/// Whether a list holds the name of every timezone, each once, and nothing else.
pub open spec fn lists_zones(names: Seq<Seq<char>>) -> bool {
    names.no_duplicates() && forall|n: Seq<char>| #[trigger] names.contains(n) <==> is_zone(n)
}

/// `chrono_tz::TZ_VARIANTS`, each by `Tz::name`: the names that parse as a
/// timezone, each once. Their order is the crate's own, and is not stated.
#[verifier::external_body]
fn zone_names() -> (r: Vec<String>)
    ensures
        lists_zones(r.deep_view()),
{
    chrono_tz::TZ_VARIANTS.iter().map(|tz| tz.name().to_string()).collect()
}

/// Whether a tag names a locale that dates can be written in.
pub uninterp spec fn is_date_locale(tag: Seq<char>) -> bool;

/// `<chrono::Locale as TryFrom<&str>>::try_from`: whether the tag names a locale,
/// a language with its territory.
#[verifier::external_body]
fn date_locale_known(tag: &str) -> (r: bool)
    ensures
        r == is_date_locale(tag@),
{
    chrono::Locale::try_from(tag).is_ok()
}

/// A timestamp in a zone and locale, where the three are ones.
pub uninterp spec fn instant_text(
    raw: Seq<char>,
    zone: Seq<char>,
    locale: Seq<char>,
    pattern: Seq<char>,
) -> Option<Seq<char>>;

/// The patterns cells are written with.
pub open spec fn is_pattern(p: Seq<char>) -> bool {
    p == "%-d %b %Y, %H:%M"@ || p == "%-d %b %Y"@ || p == "%H:%M"@
}

/// `chrono::DateTime::parse_from_rfc3339`, then `with_timezone` and
/// `format_localized`: an RFC 3339 timestamp written by the pattern in the named
/// zone, with month names in the named locale. Nothing where the timestamp, the
/// zone or the locale does not parse.
#[verifier::external_body]
fn instant(raw: &str, zone: &str, locale: &str, pattern: &str) -> (r: Option<String>)
    requires
        is_pattern(pattern@),
    ensures
        r.deep_view() == instant_text(raw@, zone@, locale@, pattern@),
{
    let at = chrono::DateTime::parse_from_rfc3339(raw).ok()?;
    let tz = zone.parse::<chrono_tz::Tz>().ok()?;
    let locale = chrono::Locale::try_from(locale).ok()?;
    Some(at.with_timezone(&tz).format_localized(pattern, locale).to_string())
}

/// What a cell shows of a stored timestamp: the rendered one, or the value as it
/// stands where there is none.
pub open spec fn shown_instant(raw: Seq<char>, rendered: Option<Seq<char>>) -> Seq<char> {
    match rendered {
        Some(text) => text,
        None => raw,
    }
}

/// What a cell shows of a stored timestamp, given what rendering it gave.
pub fn shown_or_raw(raw: &str, rendered: Option<String>) -> (r: String)
    ensures
        r@ == shown_instant(raw@, rendered.deep_view()),
{
    match rendered {
        Some(text) => text,
        None => raw.to_owned(),
    }
}

/// Formats a stored timestamp in a zone, with month names in a locale. A value
/// that is no timestamp passes through unchanged.
pub fn format_ts(raw: &str, zone: &str, locale: &str, pattern: &str) -> (r: String)
    requires
        is_pattern(pattern@),
    ensures
        r@ == shown_instant(raw@, instant_text(raw@, zone@, locale@, pattern@)),
{
    shown_or_raw(raw, instant(raw, zone, locale, pattern))
}

/// The locale dates are written in: the operator's own tag where it names one,
/// else neutral English.
pub open spec fn date_locale_of(tag: Seq<char>) -> Seq<char> {
    if is_date_locale(replaced(tag, '-', '_')) {
        replaced(tag, '-', '_')
    } else {
        "en_US"@
    }
}

/// The locale for month and day names, from the operator's locale tag. A tag with
/// no territory, or one that is not known, is neutral English.
pub fn date_locale(tag: &str) -> (r: String)
    ensures
        r@ == date_locale_of(tag@),
{
    let name: String = replace_char(tag, '-', '_');
    if date_locale_known(name.as_str()) {
        name
    } else {
        "en_US".to_owned()
    }
}

/// The zone an operator's timestamps render in: their own where it is one, else
/// the deployment's.
pub open spec fn display_zone(preference: Option<Seq<char>>, default: Seq<char>) -> Seq<char> {
    match preference {
        Some(name) => if is_zone(name) {
            name
        } else {
            default
        },
        None => default,
    }
}

/// The zone an operator's timestamps render in. An unknown stored value falls
/// back rather than failing.
pub fn resolve_display_tz(preference: Option<&str>, default_tz: &str) -> (r: String)
    ensures
        r@ == display_zone(preference.deep_view(), default_tz@),
{
    match preference {
        Some(name) => if zone_known(name) {
            name.to_owned()
        } else {
            default_tz.to_owned()
        },
        None => default_tz.to_owned(),
    }
}

/// The zone a deployment configures, or UTC where it names none.
pub fn configured_zone(name: &str) -> (r: String)
    ensures
        r@ == display_zone(Some(name@), "UTC"@),
{
    resolve_display_tz(Some(name), "UTC")
}

/// Whether a timezone is offered in the picker.
pub open spec fn is_offered_zone(name: Seq<char>) -> bool {
    name != "Asia/Jerusalem"@ && name != "Asia/Tel_Aviv"@
}

/// Whether a timezone is offered in the picker's zone list.
pub fn zone_offered(name: &str) -> (r: bool)
    ensures
        r == is_offered_zone(name@),
{
    !same(name, "Asia/Jerusalem") && !same(name, "Asia/Tel_Aviv")
}

/// One zone of the picker.
pub struct TzOption {
    pub name: String,
    pub selected: bool,
}

/// A [`TzOption`], over characters.
pub struct TzOptionModel {
    pub name: Seq<char>,
    pub selected: bool,
}

impl DeepView for TzOption {
    type V = TzOptionModel;

    open spec fn deep_view(&self) -> TzOptionModel {
        TzOptionModel { name: self.name@, selected: self.selected }
    }
}

/// The picker's zones: the offered ones in order, with the current one selected.
pub open spec fn zone_option_models(
    names: Seq<Seq<char>>,
    current: Option<Seq<char>>,
) -> Seq<TzOptionModel> {
    names.filter_map(
        |name: Seq<char>|
            if is_offered_zone(name) {
                Some(TzOptionModel { name, selected: current == Some(name) })
            } else {
                None::<TzOptionModel>
            },
    )
}

/// The picker's zones: the offered ones in order, with the current one selected.
pub fn zone_options(names: &Vec<String>, current: Option<&str>) -> (r: Vec<TzOption>)
    ensures
        r.deep_view() == zone_option_models(names.deep_view(), current.deep_view()),
{
    let mut r: Vec<TzOption> = Vec::new();
    let ghost all = names.deep_view();
    let ghost now = current.deep_view();
    let ghost f = |name: Seq<char>|
        if is_offered_zone(name) {
            Some(TzOptionModel { name, selected: now == Some(name) })
        } else {
            None::<TzOptionModel>
        };
    assert(r.deep_view() =~= all.take(0).filter_map(f));
    let mut i: usize = 0;
    while i < names.len()
        invariant
            i <= names.len(),
            all == names.deep_view(),
            now == current.deep_view(),
            f == (|name: Seq<char>|
                if is_offered_zone(name) {
                    Some(TzOptionModel { name, selected: now == Some(name) })
                } else {
                    None::<TzOptionModel>
                }),
            r.deep_view() == all.take(i as int).filter_map(f),
        decreases names.len() - i,
    {
        let name: &str = names[i].as_str();
        let ghost before = r.deep_view();
        proof {
            all.lemma_filter_map_take_succ(f, i as int);
            assert(all[i as int] == name@);
        }
        if zone_offered(name) {
            let selected: bool = match current {
                Some(c) => same(c, name),
                None => false,
            };
            let one = TzOption { name: name.to_owned(), selected };
            let ghost m = one.deep_view();
            r.push(one);
            assert(r.deep_view() =~= before + seq![m]);
        }
        i = i + 1;
    }
    assert(all.take(all.len() as int) =~= all);
    r
}

/// The picker's zones over every zone the database holds.
pub fn picker_zones(current: Option<&str>) -> (r: Vec<TzOption>)
    ensures
        exists|names: Seq<Seq<char>>|
            lists_zones(names) && r.deep_view() == #[trigger] zone_option_models(
                names,
                current.deep_view(),
            ),
{
    let names: Vec<String> = zone_names();
    let r: Vec<TzOption> = zone_options(&names, current);
    assert(lists_zones(names.deep_view()) && r.deep_view() == zone_option_models(
        names.deep_view(),
        current.deep_view(),
    ));
    r
}

} // verus!
