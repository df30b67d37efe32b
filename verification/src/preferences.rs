//! The self-service Preferences screen: an operator's own timezone and language, and
//! the sessions that are open on their account.

use vstd::prelude::*;

use crate::clientip::{describe, label_of};
use crate::cookies::{remember_removal, removal_model, Cookie, REMEMBER_COOKIE};
use crate::error::{masked_500, ErrorPage};
use crate::locale::{locale_name, shown_locale};
use crate::nav::Shell;
use crate::reply::{saved, saved_response, Redirection};
use crate::session::{flash, pushed, FlashLevel, SessionHandle};
use crate::signin::{failure, shown_error};
use crate::strs::{cat, listed, same, trim, trimmed};
use crate::text::{plain, Text, TextModel};
use crate::zones::{
    date_locale, date_locale_of, format_ts, instant_text, is_zone, lists_zones, picker_zones,
    shown_instant, zone_known, zone_option_models, TzOption,
};

verus! {

// ---------------------------------------------------------------------- sessions
/// A live session as the store gives it. Its instants are RFC 3339 text.
pub struct SessionInfo {
    pub id: String,
    pub created_at: String,
    pub last_seen_at: String,
    pub expires_at: String,
    pub user_agent: Option<String>,
    pub ip_address: Option<String>,
    pub current: bool,
}

/// A [`SessionInfo`], over characters.
pub struct SessionInfoModel {
    pub id: Seq<char>,
    pub created_at: Seq<char>,
    pub last_seen_at: Seq<char>,
    pub expires_at: Seq<char>,
    pub user_agent: Option<Seq<char>>,
    pub ip_address: Option<Seq<char>>,
    pub current: bool,
}

impl DeepView for SessionInfo {
    type V = SessionInfoModel;

    open spec fn deep_view(&self) -> SessionInfoModel {
        SessionInfoModel {
            id: self.id@,
            created_at: self.created_at@,
            last_seen_at: self.last_seen_at@,
            expires_at: self.expires_at@,
            user_agent: self.user_agent.deep_view(),
            ip_address: self.ip_address.deep_view(),
            current: self.current,
        }
    }
}

/// One of the account's live sessions, formatted for the page.
#[derive(Debug)]
pub struct SessionRow {
    pub id: String,
    pub started: String,
    pub last_seen: String,
    pub expires: String,
    /// "Chrome on macOS", or the raw agent where it is not one we name, or a dash
    /// where the request carried none.
    pub device: String,
    /// Where it signed in from, blank where no address was recorded.
    pub ip_address: String,
    pub current: bool,
}

/// A [`SessionRow`], over characters.
pub struct SessionRowModel {
    pub id: Seq<char>,
    pub started: Seq<char>,
    pub last_seen: Seq<char>,
    pub expires: Seq<char>,
    pub device: Seq<char>,
    pub ip_address: Seq<char>,
    pub current: bool,
}

impl DeepView for SessionRow {
    type V = SessionRowModel;

    open spec fn deep_view(&self) -> SessionRowModel {
        SessionRowModel {
            id: self.id@,
            started: self.started@,
            last_seen: self.last_seen@,
            expires: self.expires@,
            device: self.device@,
            ip_address: self.ip_address@,
            current: self.current,
        }
    }
}

/// An instant as the session list shows it.
pub open spec fn stamped(raw: Seq<char>, zone: Seq<char>, locale: Seq<char>) -> Seq<char> {
    shown_instant(raw, instant_text(raw, zone, locale, "%-d %b %Y, %H:%M"@))
}

/// What a session's device is shown as.
pub open spec fn device_of(agent: Option<Seq<char>>) -> Seq<char> {
    match agent {
        Some(raw) => match label_of(raw) {
            Some(name) => name,
            None => raw,
        },
        None => "-"@,
    }
}

/// A session as the page shows it, in a zone and a locale for dates.
pub open spec fn session_row(
    s: SessionInfoModel,
    zone: Seq<char>,
    locale: Seq<char>,
) -> SessionRowModel {
    SessionRowModel {
        id: s.id,
        started: stamped(s.created_at, zone, locale),
        last_seen: stamped(s.last_seen_at, zone, locale),
        expires: stamped(s.expires_at, zone, locale),
        device: device_of(s.user_agent),
        ip_address: match s.ip_address {
            Some(a) => a,
            None => Seq::empty(),
        },
        current: s.current,
    }
}

/// What a session's device is shown as.
pub fn device(agent: Option<&str>) -> (r: String)
    ensures
        r@ == device_of(agent.deep_view()),
{
    match describe(agent) {
        Some(name) => name,
        None => match agent {
            Some(raw) => raw.to_owned(),
            None => "-".to_owned(),
        },
    }
}

/// Formats one session in a zone and a locale for dates.
fn row(s: &SessionInfo, zone: &str, locale: &str) -> (r: SessionRow)
    ensures
        r.deep_view() == session_row(s.deep_view(), zone@, locale@),
{
    let agent: Option<&str> = match &s.user_agent {
        Some(a) => Some(a.as_str()),
        None => None,
    };
    let pattern: &str = "%-d %b %Y, %H:%M";
    SessionRow {
        id: s.id.clone(),
        started: format_ts(s.created_at.as_str(), zone, locale, pattern),
        last_seen: format_ts(s.last_seen_at.as_str(), zone, locale, pattern),
        expires: format_ts(s.expires_at.as_str(), zone, locale, pattern),
        device: device(agent),
        ip_address: match &s.ip_address {
            Some(a) => a.clone(),
            None => String::new(),
        },
        current: s.current,
    }
}

/// Formats the account's live sessions in the operator's own timezone and locale, as
/// list columns render a timestamp. There are none where they could not be read.
pub fn session_rows(sessions: Option<&Vec<SessionInfo>>, zone: &str, locale: &str) -> (r: Vec<
    SessionRow,
>)
    ensures
        r.deep_view() == (match sessions {
            Some(all) => all.deep_view().map_values(
                |s: SessionInfoModel| session_row(s, zone@, date_locale_of(locale@)),
            ),
            None => Seq::empty(),
        }),
{
    let mut r: Vec<SessionRow> = Vec::new();
    match sessions {
        Some(sessions) => {
            let dates: String = date_locale(locale);
            let ghost all = sessions.deep_view();
            let mut i: usize = 0;
            while i < sessions.len()
                invariant
                    i <= sessions.len(),
                    all == sessions.deep_view(),
                    r.len() == i,
                    forall|j: int|
                        0 <= j < i ==> #[trigger] r@[j].deep_view() == session_row(
                            all[j],
                            zone@,
                            dates@,
                        ),
                decreases sessions.len() - i,
            {
                assert(all[i as int] == sessions@[i as int].deep_view());
                r.push(row(&sessions[i], zone, dates.as_str()));
                i = i + 1;
            }
            assert(r.deep_view() =~= all.map_values(
                |s: SessionInfoModel| session_row(s, zone@, dates@),
            ));
        },
        None => {
            assert(r.deep_view() =~= Seq::<SessionRowModel>::empty());
        },
    }
    r
}

// --------------------------------------------------------------------- the screen
/// One language of the picker.
#[derive(Debug)]
pub struct LocaleOption {
    /// The base language tag (`en`, `kn`).
    pub code: String,
    /// The language's own name, shown untranslated.
    pub name: String,
    pub selected: bool,
}

/// A [`LocaleOption`], over characters.
pub struct LocaleModel {
    pub code: Seq<char>,
    pub name: Seq<char>,
    pub selected: bool,
}

impl DeepView for LocaleOption {
    type V = LocaleModel;

    open spec fn deep_view(&self) -> LocaleModel {
        LocaleModel { code: self.code@, name: self.name@, selected: self.selected }
    }
}

/// A language of the picker.
pub open spec fn locale_option(code: Seq<char>, current: Option<Seq<char>>) -> LocaleModel {
    LocaleModel { code, name: shown_locale(code), selected: current == Some(code) }
}

/// The picker's languages, the current one selected.
pub fn locale_options(offered: &Vec<String>, current: Option<&str>) -> (r: Vec<LocaleOption>)
    ensures
        r.deep_view() == offered.deep_view().map_values(
            |code: Seq<char>| locale_option(code, current.deep_view()),
        ),
{
    let ghost all = offered.deep_view();
    let ghost now = current.deep_view();
    let mut r: Vec<LocaleOption> = Vec::new();
    let mut i: usize = 0;
    while i < offered.len()
        invariant
            i <= offered.len(),
            all == offered.deep_view(),
            now == current.deep_view(),
            r.len() == i,
            forall|j: int| 0 <= j < i ==> #[trigger] r@[j].deep_view() == locale_option(all[j], now),
        decreases offered.len() - i,
    {
        assert(all[i as int] == offered@[i as int]@);
        let selected: bool = match current {
            Some(c) => same(c, offered[i].as_str()),
            None => false,
        };
        r.push(
            LocaleOption {
                code: offered[i].clone(),
                name: locale_name(offered[i].as_str()),
                selected,
            },
        );
        i = i + 1;
    }
    assert(r.deep_view() =~= all.map_values(|code: Seq<char>| locale_option(code, now)));
    r
}

/// The Preferences screen.
pub struct PreferencesScreen {
    pub zones: Vec<TzOption>,
    /// The timezone dates currently render in for this operator.
    pub effective_tz: String,
    /// The deployment default, named in the inherit option.
    pub default_tz: String,
    /// Whether the operator inherits the default (no preference set).
    pub inherits: bool,
    pub locales: Vec<LocaleOption>,
    /// The deployment default locale, named in the inherit option.
    pub default_locale: String,
    pub inherits_locale: bool,
    pub sessions: Vec<SessionRow>,
    pub error: Option<String>,
}

/// Builds the Preferences screen. The shell's timezone is the one in force; the
/// operator's stored preference selects the matching option, or the inherit option
/// where it is unset.
pub fn preferences_view(
    shell: &Shell<'_>,
    timezone: Option<&str>,
    locale: Option<&str>,
    default_tz: &str,
    default_locale: &str,
    offered: &Vec<String>,
    sessions: Vec<SessionRow>,
    error: Option<Text>,
) -> (r: PreferencesScreen)
    ensures
        exists|names: Seq<Seq<char>>|
            lists_zones(names) && r.zones.deep_view() == #[trigger] zone_option_models(
                names,
                timezone.deep_view(),
            ),
        r.effective_tz@ == shell.tz@,
        r.default_tz@ == default_tz@,
        r.inherits == (timezone is None),
        r.locales.deep_view() == offered.deep_view().map_values(
            |code: Seq<char>| locale_option(code, locale.deep_view()),
        ),
        r.default_locale@ == shown_locale(default_locale@),
        r.inherits_locale == (locale is None),
        r.sessions == sessions,
        r.error.deep_view() == shown_error(
            match error {
                Some(e) => Some(e@),
                None => None,
            },
            shell.i18n@,
        ),
{
    let error: Option<String> = match error {
        Some(e) => Some(shell.tt(&e)),
        None => None,
    };
    PreferencesScreen {
        zones: picker_zones(timezone),
        effective_tz: shell.tz.clone(),
        default_tz: default_tz.to_owned(),
        inherits: timezone.is_none(),
        locales: locale_options(offered, locale),
        default_locale: locale_name(default_locale),
        inherits_locale: locale.is_none(),
        sessions,
        error,
    }
}

// ---------------------------------------------------------------------- an update
/// The preferences to store: nothing for each the operator inherits.
#[derive(Debug)]
pub struct Preferences {
    pub timezone: Option<String>,
    pub locale: Option<String>,
}

/// A choice as it is stored: an empty one clears the preference.
pub open spec fn chosen(submitted: Seq<char>) -> Option<Seq<char>> {
    if trimmed(submitted).len() == 0 {
        None
    } else {
        Some(trimmed(submitted))
    }
}

/// What is wrong with submitted preferences. The zone is looked at first.
pub open spec fn preferences_refusal(
    timezone: Seq<char>,
    known_zone: bool,
    locale: Seq<char>,
    offered: Seq<Seq<char>>,
) -> Option<TextModel> {
    if chosen(timezone) is Some && !known_zone {
        Some(plain("That is not a recognised timezone."@))
    } else if chosen(locale) is Some && !offered.contains(trimmed(locale)) {
        Some(plain("That is not a supported language."@))
    } else {
        None
    }
}

/// Reads submitted preferences, given whether the zone they name is one.
pub fn vet_preferences(
    timezone: &str,
    known_zone: bool,
    locale: &str,
    offered: &Vec<String>,
) -> (r: Result<Preferences, Text>)
    ensures
        match preferences_refusal(timezone@, known_zone, locale@, offered.deep_view()) {
            Some(e) => r is Err && (r->Err_0)@ == e,
            None => r is Ok && (r->Ok_0).timezone.deep_view() == chosen(timezone@) && (
            r->Ok_0).locale.deep_view() == chosen(locale@),
        },
{
    let tz: &str = trim(timezone);
    let tz_stored: Option<String> = if tz.is_empty() {
        None
    } else if known_zone {
        Some(tz.to_owned())
    } else {
        return Err(Text::new("That is not a recognised timezone."));
    };
    let loc: &str = trim(locale);
    let loc_stored: Option<String> = if loc.is_empty() {
        None
    } else if listed(offered, loc) {
        Some(loc.to_owned())
    } else {
        return Err(Text::new("That is not a supported language."));
    };
    Ok(Preferences { timezone: tz_stored, locale: loc_stored })
}

/// Reads submitted preferences: what to store, or what to say is wrong. An empty
/// choice clears a preference, so that the operator inherits the default.
pub fn preferences_update(timezone: &str, locale: &str, offered: &Vec<String>) -> (r: Result<
    Preferences,
    Text,
>)
    ensures
        match preferences_refusal(
            timezone@,
            is_zone(trimmed(timezone@)),
            locale@,
            offered.deep_view(),
        ) {
            Some(e) => r is Err && (r->Err_0)@ == e,
            None => r is Ok && (r->Ok_0).timezone.deep_view() == chosen(timezone@) && (
            r->Ok_0).locale.deep_view() == chosen(locale@),
        },
{
    let known: bool = zone_known(trim(timezone));
    vet_preferences(timezone, known, locale, offered)
}

/// What is stored is a known zone and an offered language, or nothing.
pub proof fn law_stored_preferences_can_be_served(
    timezone: Seq<char>,
    locale: Seq<char>,
    offered: Seq<Seq<char>>,
)
    requires
        preferences_refusal(timezone, is_zone(trimmed(timezone)), locale, offered) is None,
    ensures
        chosen(timezone) matches Some(z) ==> is_zone(z),
        chosen(locale) matches Some(l) ==> offered.contains(l),
{
}

/// The Preferences screen's own path.
fn back(admin_path: &str) -> (r: Redirection)
    ensures
        r@ == saved(false, admin_path@ + "/preferences"@),
{
    saved_response(false, cat(admin_path, "/preferences").as_str())
}

/// The answer once the preferences were stored, or could not be.
pub fn preferences_done(session: &mut SessionHandle, stored: bool, admin_path: &str) -> (r: Result<
    Redirection,
    ErrorPage,
>)
    ensures
        if stored {
            &&& r is Ok
            &&& (r->Ok_0)@ == saved(false, admin_path@ + "/preferences"@)
            &&& final(session)@ == pushed(
                old(session)@,
                flash(FlashLevel::Success, "Preferences saved."@),
            )
        } else {
            &&& r is Err
            &&& (r->Err_0).deep_view() == failure()
            &&& final(session)@ == old(session)@
        },
{
    if stored {
        session.push_flash(FlashLevel::Success, Text::new("Preferences saved."));
        Ok(back(admin_path))
    } else {
        Err(masked_500())
    }
}

// ------------------------------------------------------------- ending sessions
/// What is said once a session was to be ended: it was, it had ended already, or it
/// could not be.
pub open spec fn revoke_flash(ended: Option<bool>) -> (FlashLevel, Seq<char>) {
    match ended {
        Some(true) => (FlashLevel::Success, "That session was signed out."@),
        Some(false) => (FlashLevel::Info, "That session had already ended."@),
        None => (FlashLevel::Error, "That session could not be signed out."@),
    }
}

/// The answer once one of the account's other sessions was to be ended.
pub fn session_revoke(session: &mut SessionHandle, ended: Option<bool>, admin_path: &str) -> (r:
    Redirection)
    ensures
        r@ == saved(false, admin_path@ + "/preferences"@),
        final(session)@ == pushed(
            old(session)@,
            flash(revoke_flash(ended).0, revoke_flash(ended).1),
        ),
{
    match ended {
        Some(was) => if was {
            session.push_flash(FlashLevel::Success, Text::new("That session was signed out."));
        } else {
            session.push_flash(FlashLevel::Info, Text::new("That session had already ended."));
        },
        None => {
            session.push_flash(
                FlashLevel::Error,
                Text::new("That session could not be signed out."),
            );
        },
    }
    back(admin_path)
}

/// The answer once every other session was to be ended. The credential this browser
/// holds went with the rest, so its cookie is cleared rather than left to fail.
pub fn session_revoke_others(session: &mut SessionHandle, ended: bool, admin_path: &str) -> (r: (
    Cookie,
    Redirection,
))
    ensures
        r.0.deep_view() == removal_model(REMEMBER_COOKIE@, admin_path@),
        r.1@ == saved(false, admin_path@ + "/preferences"@),
        final(session)@ == pushed(
            old(session)@,
            if ended {
                flash(FlashLevel::Success, "Every other session was signed out."@)
            } else {
                flash(FlashLevel::Error, "Those sessions could not be signed out."@)
            },
        ),
{
    if ended {
        session.push_flash(FlashLevel::Success, Text::new("Every other session was signed out."));
    } else {
        session.push_flash(
            FlashLevel::Error,
            Text::new("Those sessions could not be signed out."),
        );
    }
    (remember_removal(admin_path), back(admin_path))
}

} // verus!
