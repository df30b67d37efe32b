//! What stands in front of every signed-in screen: who the request comes from, whether
//! it may change anything, the chrome its page gets, and what is done once the
//! handler has answered.

use vstd::prelude::*;

use crate::access::{allowed, PermissionSet};
use crate::cookies::{
    remember_cookie, remember_cookie_model, remember_removal, removal_model, session_cookie,
    session_cookie_model, Cookie, CookieModel, REMEMBER_COOKIE,
};
use crate::error::{
    csrf_rejected, localized_error, localized_page, AdminError, ErrorKind, ErrorPage,
    ErrorPageModel,
};
use crate::icons::Icons;
use crate::locale::{candidates, chain_of, resolve_locale_chain};
use crate::nav::{
    active_nav, context_of, initial_of, nav_view, resolve_nav_context, FlashLineModel, NavModel,
    Shell,
};
use crate::panel::{loaded_locales, locales, Panel};
use crate::reply::{saved, saved_response, Redirection};
use crate::session::{
    emptied, form_pairs, is_multipart, is_safe_method, multipart, origin_ok, query_token,
    safe_method, same_origin, submitted_token, token_in, token_matches, token_ok, CsrfPending,
    Flash, FlashModel, SessionData, SessionHandle,
};
use crate::settings::{menu_model, sidebar, visible, CategoryView};
use crate::strs::cat;
use crate::text::{chained, localized, Translator, SOURCE_LOCALE};
use crate::zones::display_zone;

verus! {

// ----------------------------------------------------------------- who is asking
/// A stay-signed-in credential: what its cookie carries, and how many seconds it
/// still lasts.
pub struct Credential {
    pub cookie: String,
    pub seconds: i64,
}

/// A [`Credential`], over characters.
pub struct CredentialModel {
    pub cookie: Seq<char>,
    pub seconds: i64,
}

impl DeepView for Credential {
    type V = CredentialModel;

    open spec fn deep_view(&self) -> CredentialModel {
        CredentialModel { cookie: self.cookie@, seconds: self.seconds }
    }
}

/// Where the guard stands with finding out who asks. The first three name the
/// question it puts to the session store.
pub enum AuthStep {
    /// Resolve the session that the request presents.
    Resolve { token: String, fallback: Option<String> },
    /// Trade the presented stay-signed-in credential for a session.
    Consume { presented: String },
    /// Resolve the session that the trade gave.
    ResolveRecalled { minted: String, credential: Credential },
    /// The request is signed in, with the session's token and, where the credential
    /// was traded, the one that replaces it.
    SignedIn { session: String, recalled: Option<Credential> },
    /// Nobody is signed in.
    ToLogin,
}

/// An [`AuthStep`], over characters.
pub enum AuthStepModel {
    Resolve { token: Seq<char>, fallback: Option<Seq<char>> },
    Consume { presented: Seq<char> },
    ResolveRecalled { minted: Seq<char>, credential: CredentialModel },
    SignedIn { session: Seq<char>, recalled: Option<CredentialModel> },
    ToLogin,
}

impl DeepView for AuthStep {
    type V = AuthStepModel;

    open spec fn deep_view(&self) -> AuthStepModel {
        match self {
            AuthStep::Resolve { token, fallback } => AuthStepModel::Resolve {
                token: token@,
                fallback: fallback.deep_view(),
            },
            AuthStep::Consume { presented } => AuthStepModel::Consume { presented: presented@ },
            AuthStep::ResolveRecalled { minted, credential } => AuthStepModel::ResolveRecalled {
                minted: minted@,
                credential: credential.deep_view(),
            },
            AuthStep::SignedIn { session, recalled } => AuthStepModel::SignedIn {
                session: session@,
                recalled: recalled.deep_view(),
            },
            AuthStep::ToLogin => AuthStepModel::ToLogin,
        }
    }
}

/// What the session store answered.
pub enum AuthEvent {
    /// The session is live.
    Resolved,
    /// The credential was traded for this session and this credential.
    Recalled { minted: String, credential: Credential },
    /// Neither: the session or the credential is not valid, or the store failed.
    Refused,
}

/// An [`AuthEvent`], over characters.
pub enum AuthEventModel {
    Resolved,
    Recalled { minted: Seq<char>, credential: CredentialModel },
    Refused,
}

impl DeepView for AuthEvent {
    type V = AuthEventModel;

    open spec fn deep_view(&self) -> AuthEventModel {
        match self {
            AuthEvent::Resolved => AuthEventModel::Resolved,
            AuthEvent::Recalled { minted, credential } => AuthEventModel::Recalled {
                minted: minted@,
                credential: credential.deep_view(),
            },
            AuthEvent::Refused => AuthEventModel::Refused,
        }
    }
}

/// What is left once the presented session is no good.
pub open spec fn recalling(remember: Option<Seq<char>>) -> AuthStepModel {
    match remember {
        Some(presented) => AuthStepModel::Consume { presented },
        None => AuthStepModel::ToLogin,
    }
}

/// Where a request starts, by the cookies it carries.
pub open spec fn first_step(
    session: Option<Seq<char>>,
    remember: Option<Seq<char>>,
) -> AuthStepModel {
    match session {
        Some(token) => AuthStepModel::Resolve { token, fallback: remember },
        None => recalling(remember),
    }
}

/// The next step after an answer.
pub open spec fn next_step(step: AuthStepModel, event: AuthEventModel) -> AuthStepModel {
    match step {
        AuthStepModel::Resolve { token, fallback } => if event is Resolved {
            AuthStepModel::SignedIn { session: token, recalled: None }
        } else {
            recalling(fallback)
        },
        AuthStepModel::Consume { .. } => match event {
            AuthEventModel::Recalled {
                minted,
                credential,
            } => AuthStepModel::ResolveRecalled { minted, credential },
            _ => AuthStepModel::ToLogin,
        },
        AuthStepModel::ResolveRecalled { minted, credential } => if event is Resolved {
            AuthStepModel::SignedIn { session: minted, recalled: Some(credential) }
        } else {
            AuthStepModel::ToLogin
        },
        _ => step,
    }
}

/// What is left once the presented session is no good.
fn recall(remember: Option<String>) -> (r: AuthStep)
    ensures
        r.deep_view() == recalling(remember.deep_view()),
{
    match remember {
        Some(presented) => AuthStep::Consume { presented },
        None => AuthStep::ToLogin,
    }
}

/// Where a request starts, by the values of the session and stay-signed-in cookies
/// it carries. A live session is the ordinary path; a missing or expired one falls
/// back to the credential.
pub fn start(session: Option<String>, remember: Option<String>) -> (r: AuthStep)
    ensures
        r.deep_view() == first_step(session.deep_view(), remember.deep_view()),
{
    match session {
        Some(token) => AuthStep::Resolve { token, fallback: remember },
        None => recall(remember),
    }
}

/// The next step after the session store's answer.
pub fn advance(step: AuthStep, event: AuthEvent) -> (r: AuthStep)
    ensures
        r.deep_view() == next_step(step.deep_view(), event.deep_view()),
{
    match step {
        AuthStep::Resolve { token, fallback } => match event {
            AuthEvent::Resolved => AuthStep::SignedIn { session: token, recalled: None },
            _ => recall(fallback),
        },
        AuthStep::Consume { presented } => match event {
            AuthEvent::Recalled { minted, credential } => AuthStep::ResolveRecalled {
                minted,
                credential,
            },
            _ => AuthStep::ToLogin,
        },
        AuthStep::ResolveRecalled { minted, credential } => match event {
            AuthEvent::Resolved => AuthStep::SignedIn {
                session: minted,
                recalled: Some(credential),
            },
            _ => AuthStep::ToLogin,
        },
        other => other,
    }
}

/// A session store, as the guard sees it within one request: which tokens name a live
/// session, and what each credential is traded for.
pub struct StoreModel {
    pub live: spec_fn(Seq<char>) -> bool,
    pub traded: spec_fn(Seq<char>) -> Option<(Seq<char>, CredentialModel)>,
}

/// What the store answers to a step's question.
pub open spec fn answer(store: StoreModel, step: AuthStepModel) -> AuthEventModel {
    match step {
        AuthStepModel::Resolve { token, .. } => if (store.live)(token) {
            AuthEventModel::Resolved
        } else {
            AuthEventModel::Refused
        },
        AuthStepModel::Consume { presented } => match (store.traded)(presented) {
            Some((minted, credential)) => AuthEventModel::Recalled { minted, credential },
            None => AuthEventModel::Refused,
        },
        AuthStepModel::ResolveRecalled { minted, .. } => if (store.live)(minted) {
            AuthEventModel::Resolved
        } else {
            AuthEventModel::Refused
        },
        _ => AuthEventModel::Refused,
    }
}

/// One question and its answer.
pub open spec fn round(store: StoreModel, step: AuthStepModel) -> AuthStepModel {
    next_step(step, answer(store, step))
}

/// Who a request comes from: the session it presents where that is live, else the one
/// its credential is traded for where that is, else nobody.
pub open spec fn identified(
    store: StoreModel,
    session: Option<Seq<char>>,
    remember: Option<Seq<char>>,
) -> AuthStepModel {
    if session is Some && (store.live)(session->0) {
        AuthStepModel::SignedIn { session: session->0, recalled: None }
    } else if remember is Some && (store.traded)(remember->0) is Some && (store.live)(
        ((store.traded)(remember->0)->0).0,
    ) {
        let (minted, credential) = (store.traded)(remember->0)->0;
        AuthStepModel::SignedIn { session: minted, recalled: Some(credential) }
    } else {
        AuthStepModel::ToLogin
    }
}

/// Three rounds settle every request: it ends signed in exactly where the presented
/// session is live, or where the presented credential buys a live one; and a live
/// session is never replaced.
pub proof fn law_three_rounds_settle_who_asks(
    store: StoreModel,
    session: Option<Seq<char>>,
    remember: Option<Seq<char>>,
)
    ensures
        round(store, round(store, round(store, first_step(session, remember)))) == identified(
            store,
            session,
            remember,
        ),
        identified(store, session, remember) is SignedIn || identified(
            store,
            session,
            remember,
        ) is ToLogin,
{
}

/// Nobody is signed in on a refusal: an answer leads to a signed-in request only
/// where it says that a session is live.
pub proof fn law_only_a_live_session_signs_in(step: AuthStepModel, event: AuthEventModel)
    requires
        !(step is SignedIn),
        next_step(step, event) is SignedIn,
    ensures
        event is Resolved,
{
}

/// The answer to a request nobody is signed in for: off to the login screen, and the
/// credential cleared on the way, since one that failed once fails every time.
pub fn to_login(admin_path: &str) -> (r: (Cookie, Redirection))
    ensures
        r.0.deep_view() == removal_model(REMEMBER_COOKIE@, admin_path@),
        r.1@ == saved(false, admin_path@ + "/login"@),
{
    (remember_removal(admin_path), saved_response(false, cat(admin_path, "/login").as_str()))
}

// ------------------------------------------------------------- the request token
/// Ceiling on a form body that is read for its token.
pub const MAX_FORM_BYTES: usize = 1048576;

/// Whether a request's token lets it through.
#[derive(Clone, Copy, PartialEq, Eq, Structural, Debug)]
pub enum Verdict {
    Pass,
    /// The token travels inside an upload, where the handler has to check it.
    Deferred,
    Rejected,
}

/// Whether a request's token lets it through. A read-only method needs none. An
/// upload carries it beside the body, in a header or the query string, or else inside
/// it; any other request in a header or a form field.
pub open spec fn verdict(
    method: Seq<char>,
    content_type: Option<Seq<char>>,
    header: Option<Seq<char>>,
    in_query: Option<Seq<char>>,
    in_body: Option<Seq<char>>,
    expected: Seq<char>,
) -> Verdict {
    let submitted = match header {
        Some(t) => Some(t),
        None => if multipart(content_type) {
            in_query
        } else {
            in_body
        },
    };
    if safe_method(method) {
        Verdict::Pass
    } else if multipart(content_type) && submitted is None {
        Verdict::Deferred
    } else if token_ok(expected, submitted) {
        Verdict::Pass
    } else {
        Verdict::Rejected
    }
}

/// Whether the guard reads the body to find the token. An upload is never read: that
/// would hold a whole file in memory to see one field.
pub fn reads_body(method: &str, content_type: Option<&str>) -> (r: bool)
    ensures
        r == (!safe_method(method@) && !multipart(content_type.deep_view())),
{
    !is_safe_method(method) && !is_multipart(content_type)
}

/// Whether a request's token lets it through, by what stands in its header, query
/// string and body.
pub fn judge(
    method: &str,
    content_type: Option<&str>,
    header: Option<&str>,
    in_query: Option<&str>,
    in_body: Option<&str>,
    expected: &str,
) -> (r: Verdict)
    ensures
        r == verdict(
            method@,
            content_type.deep_view(),
            header.deep_view(),
            in_query.deep_view(),
            in_body.deep_view(),
            expected@,
        ),
{
    if is_safe_method(method) {
        return Verdict::Pass;
    }
    let upload: bool = is_multipart(content_type);
    let submitted: Option<&str> = match header {
        Some(t) => Some(t),
        None => if upload {
            in_query
        } else {
            in_body
        },
    };
    if upload && submitted.is_none() {
        return Verdict::Deferred;
    }
    if token_matches(expected, submitted) {
        Verdict::Pass
    } else {
        Verdict::Rejected
    }
}

/// Checks a request's token. `body` is what was read of it: nothing where it is
/// longer than [`MAX_FORM_BYTES`] or could not be read, which counts as empty.
pub fn check_token(
    method: &str,
    content_type: Option<&str>,
    header: Option<&str>,
    query: Option<&str>,
    body: &Vec<u8>,
    expected: &str,
) -> (r: Verdict)
    ensures
        r == verdict(
            method@,
            content_type.deep_view(),
            header.deep_view(),
            match query {
                Some(q) => token_in(form_pairs(vstd::utf8::encode_utf8(q@))),
                None => None,
            },
            token_in(form_pairs(body@)),
            expected@,
        ),
{
    let in_query: Option<String> = query_token(query);
    let in_body: Option<String> = submitted_token(None, body.as_slice());
    let q: Option<&str> = match &in_query {
        Some(t) => Some(t.as_str()),
        None => None,
    };
    let b: Option<&str> = match &in_body {
        Some(t) => Some(t.as_str()),
        None => None,
    };
    judge(method, content_type, header, q, b, expected)
}

/// The check on the whole panel, the signed-out screens included: a state-changing
/// request must come from our own origin.
pub fn enforce_origin(
    method: &str,
    sec_fetch_site: Option<&str>,
    origin: Option<&str>,
    host: Option<&str>,
    expected_origin: &str,
) -> (r: bool)
    ensures
        r == (safe_method(method@) || same_origin(
            sec_fetch_site.deep_view(),
            origin.deep_view(),
            host.deep_view(),
            expected_origin@,
        )),
{
    is_safe_method(method) || origin_ok(sec_fetch_site, origin, host, expected_origin)
}

/// Refuses an operator who lacks a permission.
pub fn guard_with_permission(operator: &PermissionSet, needed: &str) -> (r: Result<(), AdminError>)
    ensures
        r == (if allowed(operator@, needed@) {
            Ok(())
        } else {
            Err(AdminError::Forbidden)
        }),
{
    if operator.allows(needed) {
        Ok(())
    } else {
        Err(AdminError::Forbidden)
    }
}

// ------------------------------------------------------------------- the chrome
/// The signed-in operator, as far as the chrome and the guards read them.
pub struct Operator {
    pub id: i64,
    pub username: String,
    pub full_name: String,
    pub timezone: Option<String>,
    pub locale: Option<String>,
    pub permissions: PermissionSet,
}

/// The chain of locales a request is served in.
pub open spec fn request_chain(
    panel: Panel,
    preference: Option<Seq<char>>,
    accepted: Seq<Seq<char>>,
) -> Seq<Seq<char>> {
    chain_of(
        candidates(preference, accepted, panel.default_locale@),
        loaded_locales(panel.catalogs.deep_view()),
    )
}

/// The translator of a request: the operator's own locale first where there is one,
/// then what the browser accepts, then the deployment's default.
pub fn request_translator(panel: &Panel, preference: Option<&str>, accepted: &Vec<String>) -> (r:
    Translator)
    ensures
        ({
            let chain = request_chain(*panel, preference.deep_view(), accepted.deep_view());
            &&& r@ == chained(chain, panel.catalogs.deep_view())
            &&& r.locale@ == (if chain.len() == 0 {
                SOURCE_LOCALE@
            } else {
                chain[0]
            })
        }),
{
    let serveable: Vec<String> = locales(&panel.catalogs);
    let chain: Vec<String> = resolve_locale_chain(
        preference,
        accepted,
        panel.default_locale.as_str(),
        &serveable,
    );
    Translator::with_chain(&chain, &panel.catalogs)
}

/// The flash a page shows: everything queued on a full-page render, and nothing on a
/// mutation, which leaves it for the page it leads to.
pub open spec fn shown_flash(method: Seq<char>, queued: Seq<FlashModel>) -> Seq<FlashModel> {
    if safe_method(method) {
        queued
    } else {
        Seq::empty()
    }
}

/// Builds the chrome of a signed-in request, taking the queued flash out of the
/// session where the page will show it.
pub fn open_request<'a>(
    panel: &'a Panel,
    handle: &mut SessionHandle,
    operator: &Operator,
    method: &str,
    path: &str,
    accepted: &Vec<String>,
    brand: String,
) -> (r: Shell<'a>)
    ensures
        final(handle)@ == (if safe_method(method@) {
            emptied(old(handle)@)
        } else {
            old(handle)@
        }),
        ({
            let chain = request_chain(
                *panel,
                operator.locale.deep_view(),
                accepted.deep_view(),
            );
            let table = chained(chain, panel.catalogs.deep_view());
            let admin = panel.admin_path@;
            let seen = visible(panel.settings.deep_view(), operator.permissions@);
            let (in_context, active) = context_of(seen, admin, path@);
            let lit = active_nav(panel.nav.deep_view(), admin, in_context, path@);
            &&& r.base@ == admin
            &&& r.brand@ == brand@
            &&& r.nav.deep_view() == panel.nav.deep_view().map_values(
                |n: NavModel| nav_view(n, lit, table, panel.icons@, panel.sprite_url@),
            )
            &&& r.full_name@ == operator.full_name@
            &&& r.initial@ == initial_of(operator.full_name@)
            &&& r.tz@ == display_zone(operator.timezone.deep_view(), panel.timezone@)
            &&& r.i18n@ == table
            &&& r.i18n.locale@ == (if chain.len() == 0 {
                SOURCE_LOCALE@
            } else {
                chain[0]
            })
            &&& r.sidebar.deep_view() == (if in_context {
                sidebar(
                    menu_model(admin, active, table, panel.icons@, panel.sprite_url@),
                    seen,
                )
            } else {
                Seq::empty()
            })
            &&& *r.icon_set == panel.icons
            &&& r.sprite_url@ == panel.sprite_url@
            &&& r.site_url@ == panel.origin@
            &&& *r.asset_urls == panel.asset_urls
            &&& r.csrf_token@ == old(handle)@.data.csrf
            &&& r.flash.deep_view() == shown_flash(method@, old(handle)@.data.flash).map_values(
                |f: FlashModel| FlashLineModel { level: f.level, text: localized(table, f.text) },
            )
            &&& r.assets.len() == 0
        }),
{
    let mut flash: Vec<Flash> = Vec::new();
    assert(flash.deep_view() =~= Seq::<FlashModel>::empty());
    if is_safe_method(method) {
        flash = handle.take_flash();
    }
    let preference: Option<&str> = match &operator.locale {
        Some(l) => Some(l.as_str()),
        None => None,
    };
    let timezone: Option<&str> = match &operator.timezone {
        Some(z) => Some(z.as_str()),
        None => None,
    };
    let i18n: Translator = request_translator(panel, preference, accepted);
    let icons: Icons<'_> = Icons { set: &panel.icons, sprite: panel.sprite_url.as_str() };
    let (groups, lit): (Vec<CategoryView>, Option<String>) = resolve_nav_context(
        &panel.nav,
        &panel.settings,
        panel.admin_path.as_str(),
        &operator.permissions,
        path,
        &i18n,
        &icons,
    );
    let active: Option<&str> = match &lit {
        Some(p) => Some(p.as_str()),
        None => None,
    };
    let r: Shell<'a> = Shell::new(
        panel.admin_path.as_str(),
        brand,
        &panel.nav,
        operator.full_name.clone(),
        timezone,
        panel.timezone.as_str(),
        groups,
        active,
        handle.csrf_token(),
        &flash,
        i18n,
        &panel.asset_urls,
        panel.origin.clone(),
        &panel.icons,
        panel.sprite_url.as_str(),
    );
    assert(r.assets.deep_view().len() == r.assets.len());
    r
}

// --------------------------------------------------------------------- the answer
/// What the guard does with a handler's answer.
pub enum Finish<'a> {
    /// The answer is thrown away for this page, and nothing is stored.
    Blocked(ErrorPage),
    /// The answer goes out, with `page` in its place where it is an error page;
    /// `store` is written back to the session and the cookies are set.
    Answered { page: Option<ErrorPage>, store: Option<&'a SessionData>, cookies: Vec<Cookie> },
}

/// The cookies a recalled request sets: the session that the trade gave, and the
/// credential that replaces the one just spent.
pub open spec fn recalled_cookies(
    session: Seq<char>,
    recalled: Option<CredentialModel>,
    admin: Seq<char>,
    secure: bool,
) -> Seq<CookieModel> {
    match recalled {
        Some(c) => seq![
            session_cookie_model(session, admin, secure),
            remember_cookie_model(c.cookie, c.seconds, admin, secure),
        ],
        None => Seq::empty(),
    }
}

/// Whether a handler's answer is thrown away: its token check was left to it, and it
/// never made the check.
pub open spec fn withheld(pending: Option<bool>) -> bool {
    pending == Some(false)
}

/// What the guard does with a handler's answer. `pending` is the check it left to the
/// handler, and `error` the kind of error page the handler answered with.
pub fn finish<'a>(
    pending: Option<&CsrfPending>,
    error: Option<ErrorKind>,
    tr: &Translator,
    handle: &'a SessionHandle,
    session: String,
    recalled: Option<Credential>,
    admin_path: &str,
    secure: bool,
) -> (r: Finish<'a>)
    ensures
        match r {
            Finish::Blocked(page) => {
                &&& withheld(
                    match pending {
                        Some(p) => Some(p@),
                        None => None,
                    },
                )
                &&& page.deep_view() == rejection()
            },
            Finish::Answered { page, store, cookies } => {
                &&& !withheld(
                    match pending {
                        Some(p) => Some(p@),
                        None => None,
                    },
                )
                &&& page.deep_view() == (match error {
                    Some(kind) => Some(localized_page(kind, tr@)),
                    None => None,
                })
                &&& store == (if handle@.dirty {
                    Some(&handle.data)
                } else {
                    None
                })
                &&& cookies.deep_view() == recalled_cookies(
                    session@,
                    recalled.deep_view(),
                    admin_path@,
                    secure,
                )
            },
        },
{
    match pending {
        Some(p) => {
            if !p.was_satisfied() {
                return Finish::Blocked(csrf_rejected());
            }
        },
        None => {},
    }
    let page: Option<ErrorPage> = match error {
        Some(kind) => Some(localized_error(kind, tr)),
        None => None,
    };
    let ghost want = recalled_cookies(session@, recalled.deep_view(), admin_path@, secure);
    let mut cookies: Vec<Cookie> = Vec::new();
    match recalled {
        Some(c) => {
            cookies.push(session_cookie(session, admin_path, secure));
            cookies.push(remember_cookie(c.cookie, c.seconds, admin_path, secure));
        },
        None => {},
    }
    assert(cookies.deep_view() =~= want);
    Finish::Answered { page, store: handle.dirty_data(), cookies }
}

/// The page of a rejected mutation.
pub open spec fn rejection() -> ErrorPageModel {
    ErrorPageModel {
        kind: ErrorKind::Forbidden,
        status: 403,
        title: "Request blocked"@,
        message: "This form expired or its origin was not recognised. Go back, reload the page, and try again."@,
        detail: None,
    }
}

/// Whether the answer to a request reaches the browser: its token passed, or was
/// checked by the handler it was left to.
pub open spec fn lets_through(v: Verdict, checked_by_handler: bool) -> bool {
    match v {
        Verdict::Pass => true,
        Verdict::Deferred => !withheld(Some(checked_by_handler)),
        Verdict::Rejected => false,
    }
}

/// A state-changing request is answered only with the session's own token: one that
/// stands in its header, its query string or its form, or one that the handler of an
/// upload checked.
pub proof fn law_no_change_without_the_token(
    method: Seq<char>,
    content_type: Option<Seq<char>>,
    header: Option<Seq<char>>,
    in_query: Option<Seq<char>>,
    in_body: Option<Seq<char>>,
    expected: Seq<char>,
    checked_by_handler: bool,
)
    requires
        !safe_method(method),
        lets_through(
            verdict(method, content_type, header, in_query, in_body, expected),
            checked_by_handler,
        ),
    ensures
        header == Some(expected) || (if multipart(content_type) {
            in_query == Some(expected) || checked_by_handler
        } else {
            in_body == Some(expected)
        }),
{
}

/// A request that sends no token at all, and no upload either, is rejected.
pub proof fn law_a_form_without_a_token_is_rejected(
    method: Seq<char>,
    content_type: Option<Seq<char>>,
    in_query: Option<Seq<char>>,
    expected: Seq<char>,
)
    requires
        !safe_method(method),
        !multipart(content_type),
    ensures
        verdict(method, content_type, None, in_query, None, expected) is Rejected,
{
}

} // verus!
