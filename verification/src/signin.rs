//! The screens before anyone is signed in: login, first-run setup, and signing out.

use vstd::prelude::*;

use crate::assets::{asset_url, preauth_asset};
use crate::cookies::{
    remember_cookie, remember_cookie_model, remember_removal, removal_model, session_cookie,
    session_cookie_model, session_removal, Cookie, CookieModel, REMEMBER_COOKIE, SESSION_COOKIE,
};
use crate::error::{masked_500, ErrorKind, ErrorPage, ErrorPageModel};
use crate::guard::{request_chain, request_translator, Credential, CredentialModel};
use crate::panel::Panel;
use crate::reply::{saved, saved_response, Redirection};
use crate::strs::{cat, trim, trimmed};
use crate::text::{chained, localized, plain, Text, TextModel, Translator, SOURCE_LOCALE};
use crate::zones::{
    is_zone, lists_zones, picker_zones, zone_known, zone_option_models, TzOption,
};

verus! {

// ------------------------------------------------------------------- the screens
/// The translator of a screen before anyone is signed in: no operator's own locale
/// exists yet.
pub fn pre_auth_translator(panel: &Panel, accepted: &Vec<String>) -> (r: Translator)
    ensures
        r@ == signed_out_table(*panel, accepted.deep_view()),
        r.locale@ == signed_out_locale(*panel, accepted.deep_view()),
{
    request_translator(panel, None, accepted)
}

/// The messages a signed-out screen reads from.
pub open spec fn signed_out_table(panel: Panel, accepted: Seq<Seq<char>>) -> Seq<
    (Seq<char>, Seq<char>),
> {
    chained(request_chain(panel, None, accepted), panel.catalogs.deep_view())
}

/// The locale of a signed-out screen: the most specific of its chain.
pub open spec fn signed_out_locale(panel: Panel, accepted: Seq<Seq<char>>) -> Seq<char> {
    let chain = request_chain(panel, None, accepted);
    if chain.len() == 0 {
        SOURCE_LOCALE@
    } else {
        chain[0]
    }
}

/// What a screen says went wrong, in its language.
pub open spec fn shown_error(
    error: Option<TextModel>,
    table: Seq<(Seq<char>, Seq<char>)>,
) -> Option<Seq<char>> {
    match error {
        Some(e) => Some(localized(table, e)),
        None => None,
    }
}

/// The login screen.
pub struct LoginScreen<'a> {
    /// The admin mount path, so asset and form URLs match the panel.
    pub base: String,
    /// Each asset's content-named path.
    pub asset_urls: &'a Vec<(String, String)>,
    pub brand: String,
    pub error: Option<String>,
    pub i18n: Translator,
}

impl<'a> LoginScreen<'a> {
    /// The URL of an asset.
    pub fn asset(&self, key: &str) -> (r: String)
        ensures
            r@ == asset_url(self.asset_urls.deep_view(), self.base@, key@),
    {
        preauth_asset(self.asset_urls, self.base.as_str(), key)
    }

    /// A source string in the screen's language.
    pub fn t(&self, source: &str) -> (r: String)
        ensures
            r@ == localized(self.i18n@, plain(source@)),
    {
        self.i18n.t(&Text::new(source))
    }

    /// The screen's locale.
    pub fn locale(&self) -> (r: &str)
        ensures
            r@ == self.i18n.locale@,
    {
        self.i18n.locale()
    }
}

/// Whether a login screen is the panel's own, with an error or none.
pub open spec fn is_login_screen(
    s: LoginScreen,
    panel: Panel,
    brand: Seq<char>,
    accepted: Seq<Seq<char>>,
    error: Option<TextModel>,
) -> bool {
    let table = signed_out_table(panel, accepted);
    &&& s.base@ == panel.admin_path@
    &&& *s.asset_urls == panel.asset_urls
    &&& s.brand@ == brand
    &&& s.i18n@ == table
    &&& s.i18n.locale@ == signed_out_locale(panel, accepted)
    &&& s.error.deep_view() == shown_error(error, table)
}

/// The login screen, with an error or none.
fn login_screen<'a>(
    panel: &'a Panel,
    brand: String,
    accepted: &Vec<String>,
    error: Option<Text>,
) -> (r: LoginScreen<'a>)
    ensures
        is_login_screen(
            r,
            *panel,
            brand@,
            accepted.deep_view(),
            match error {
                Some(e) => Some(e@),
                None => None,
            },
        ),
{
    let i18n: Translator = pre_auth_translator(panel, accepted);
    let error: Option<String> = match error {
        Some(e) => Some(i18n.t(&e)),
        None => None,
    };
    LoginScreen {
        base: panel.admin_path.clone(),
        asset_urls: &panel.asset_urls,
        brand,
        error,
        i18n,
    }
}

/// The first-run setup screen.
pub struct SetupScreen<'a> {
    pub base: String,
    pub asset_urls: &'a Vec<(String, String)>,
    pub brand: String,
    pub zones: Vec<TzOption>,
    pub error: Option<String>,
    pub i18n: Translator,
}

impl<'a> SetupScreen<'a> {
    /// The URL of an asset.
    pub fn asset(&self, key: &str) -> (r: String)
        ensures
            r@ == asset_url(self.asset_urls.deep_view(), self.base@, key@),
    {
        preauth_asset(self.asset_urls, self.base.as_str(), key)
    }

    /// A source string in the screen's language.
    pub fn t(&self, source: &str) -> (r: String)
        ensures
            r@ == localized(self.i18n@, plain(source@)),
    {
        self.i18n.t(&Text::new(source))
    }

    /// The screen's locale.
    pub fn locale(&self) -> (r: &str)
        ensures
            r@ == self.i18n.locale@,
    {
        self.i18n.locale()
    }
}

/// Whether a setup screen is the panel's own, with an error or none. Its zones are
/// every offered one, the deployment's selected.
pub open spec fn is_setup_screen(
    s: SetupScreen,
    panel: Panel,
    brand: Seq<char>,
    accepted: Seq<Seq<char>>,
    error: Option<TextModel>,
) -> bool {
    let table = signed_out_table(panel, accepted);
    &&& s.base@ == panel.admin_path@
    &&& *s.asset_urls == panel.asset_urls
    &&& s.brand@ == brand
    &&& s.i18n@ == table
    &&& s.i18n.locale@ == signed_out_locale(panel, accepted)
    &&& s.error.deep_view() == shown_error(error, table)
    &&& exists|names: Seq<Seq<char>>|
        lists_zones(names) && s.zones.deep_view() == #[trigger] zone_option_models(
            names,
            Some(panel.timezone@),
        )
}

/// Builds the setup screen, its timezone select defaulting to the deployment's so that
/// the first administrator can accept or change it.
pub fn setup_view<'a>(
    panel: &'a Panel,
    brand: String,
    accepted: &Vec<String>,
    error: Option<Text>,
) -> (r: SetupScreen<'a>)
    ensures
        is_setup_screen(
            r,
            *panel,
            brand@,
            accepted.deep_view(),
            match error {
                Some(e) => Some(e@),
                None => None,
            },
        ),
{
    let i18n: Translator = pre_auth_translator(panel, accepted);
    let error: Option<String> = match error {
        Some(e) => Some(i18n.t(&e)),
        None => None,
    };
    SetupScreen {
        base: panel.admin_path.clone(),
        asset_urls: &panel.asset_urls,
        brand,
        zones: picker_zones(Some(panel.timezone.as_str())),
        error,
        i18n,
    }
}

/// The masked page of an unexpected failure.
pub open spec fn failure() -> ErrorPageModel {
    ErrorPageModel {
        kind: ErrorKind::Internal,
        status: 500,
        title: "Something went wrong"@,
        message: "The server hit an unexpected error."@,
        detail: None,
    }
}

// ------------------------------------------------------------------------- login
/// What a login request comes to.
pub enum LoginStep<'a> {
    Show(LoginScreen<'a>),
    /// Off to another screen.
    Go(Redirection),
    Failed(ErrorPage),
    /// Issue a stay-signed-in credential for the session that was just opened.
    IssueRemember { token: String },
    SignedIn { cookies: Vec<Cookie>, to: Redirection },
}

/// The login screen, or what stands in its place. `operators` is whether any operator
/// exists, or nothing where that could not be read: a fresh install goes to first-run
/// setup instead.
pub fn login_form<'a>(
    panel: &'a Panel,
    operators: Option<bool>,
    brand: String,
    accepted: &Vec<String>,
) -> (r: LoginStep<'a>)
    ensures
        match operators {
            Some(false) => r matches LoginStep::Go(to) && to@ == saved(
                false,
                panel.admin_path@ + "/setup"@,
            ),
            Some(true) => r matches LoginStep::Show(s) && is_login_screen(
                s,
                *panel,
                brand@,
                accepted.deep_view(),
                None,
            ),
            None => r matches LoginStep::Failed(page) && page.deep_view() == failure(),
        },
{
    match operators {
        Some(exist) => if exist {
            LoginStep::Show(login_screen(panel, brand, accepted, None))
        } else {
            LoginStep::Go(saved_response(false, cat(panel.admin_path.as_str(), "/setup").as_str()))
        },
        None => LoginStep::Failed(masked_500()),
    }
}

/// The cookies of a fresh sign-in: the session's, and the credential's where one was
/// asked for and issued.
pub open spec fn sign_in_cookies(
    token: Seq<char>,
    credential: Option<CredentialModel>,
    admin: Seq<char>,
    secure: bool,
) -> Seq<CookieModel> {
    match credential {
        Some(c) => seq![
            session_cookie_model(token, admin, secure),
            remember_cookie_model(c.cookie, c.seconds, admin, secure),
        ],
        None => seq![session_cookie_model(token, admin, secure)],
    }
}

/// Whether a step signs in with a token and leads to the panel's root.
pub open spec fn signs_in(
    step: LoginStep,
    panel: Panel,
    token: Seq<char>,
    credential: Option<CredentialModel>,
) -> bool {
    &&& step matches LoginStep::SignedIn { cookies, to }
    &&& cookies.deep_view() == sign_in_cookies(
        token,
        credential,
        panel.admin_path@,
        panel.secure_cookie,
    )
    &&& to@ == saved(false, panel.admin_path@)
}

/// Signs in with a token, and with a credential where there is one.
fn sign_in<'a>(panel: &'a Panel, token: String, credential: Option<Credential>) -> (r: LoginStep<
    'a,
>)
    ensures
        signs_in(r, *panel, token@, credential.deep_view()),
{
    let admin: &str = panel.admin_path.as_str();
    let ghost want = sign_in_cookies(
        token@,
        credential.deep_view(),
        admin@,
        panel.secure_cookie,
    );
    let mut cookies: Vec<Cookie> = Vec::new();
    cookies.push(session_cookie(token, admin, panel.secure_cookie));
    match credential {
        Some(c) => {
            cookies.push(remember_cookie(c.cookie, c.seconds, admin, panel.secure_cookie));
        },
        None => {},
    }
    assert(cookies.deep_view() =~= want);
    LoginStep::SignedIn { cookies, to: saved_response(false, admin) }
}

/// What a submitted login comes to, once the name and password were checked. `opened`
/// is the token of the session that was opened, or nothing where they were refused.
/// `remember` is the "Stay signed in" box, present only when ticked.
pub fn login_submit<'a>(
    panel: &'a Panel,
    opened: Option<String>,
    remember: Option<&str>,
    brand: String,
    accepted: &Vec<String>,
) -> (r: LoginStep<'a>)
    ensures
        match opened {
            None => r matches LoginStep::Show(s) && is_login_screen(
                s,
                *panel,
                brand@,
                accepted.deep_view(),
                Some(plain("Invalid username or password."@)),
            ),
            Some(t) => if remember is Some {
                r matches LoginStep::IssueRemember { token } && token@ == t@
            } else {
                signs_in(r, *panel, t@, None)
            },
        },
{
    match opened {
        None => LoginStep::Show(
            login_screen(
                panel,
                brand,
                accepted,
                Some(Text::new("Invalid username or password.")),
            ),
        ),
        Some(token) => match remember {
            Some(_) => LoginStep::IssueRemember { token },
            None => sign_in(panel, token, None),
        },
    }
}

/// What a login comes to once a credential was asked for. Where none was issued, the
/// session still stands; the box just did not take.
pub fn remember_issued<'a>(panel: &'a Panel, token: String, issued: Option<Credential>) -> (r:
    LoginStep<'a>)
    ensures
        signs_in(r, *panel, token@, issued.deep_view()),
{
    sign_in(panel, token, issued)
}

// ------------------------------------------------------------------------- setup
/// What the setup screen submits.
pub struct SetupForm {
    pub username: String,
    pub first_name: String,
    pub last_name: String,
    pub email: String,
    pub password: String,
    pub timezone: String,
}

/// A [`SetupForm`], over characters.
pub struct SetupModel {
    pub username: Seq<char>,
    pub first_name: Seq<char>,
    pub last_name: Seq<char>,
    pub email: Seq<char>,
    pub password: Seq<char>,
    pub timezone: Seq<char>,
}

impl View for SetupForm {
    type V = SetupModel;

    open spec fn view(&self) -> SetupModel {
        SetupModel {
            username: self.username@,
            first_name: self.first_name@,
            last_name: self.last_name@,
            email: self.email@,
            password: self.password@,
            timezone: self.timezone@,
        }
    }
}

/// An operator to create.
pub struct NewOperator {
    pub username: String,
    pub email: String,
    pub first_name: String,
    pub last_name: Option<String>,
    pub password: String,
    pub timezone: Option<String>,
}

/// A [`NewOperator`], over characters.
pub struct NewOperatorModel {
    pub username: Seq<char>,
    pub email: Seq<char>,
    pub first_name: Seq<char>,
    pub last_name: Option<Seq<char>>,
    pub password: Seq<char>,
    pub timezone: Option<Seq<char>>,
}

impl View for NewOperator {
    type V = NewOperatorModel;

    open spec fn view(&self) -> NewOperatorModel {
        NewOperatorModel {
            username: self.username@,
            email: self.email@,
            first_name: self.first_name@,
            last_name: self.last_name.deep_view(),
            password: self.password@,
            timezone: self.timezone.deep_view(),
        }
    }
}

/// What is wrong with a submitted setup. A password is taken as it stands; the rest
/// is trimmed first.
pub open spec fn setup_refusal(form: SetupModel, known_zone: bool) -> Option<TextModel> {
    if trimmed(form.username).len() == 0 || trimmed(form.email).len() == 0 || trimmed(
        form.first_name,
    ).len() == 0 || form.password.len() == 0 {
        Some(plain("Username, first name, email, and password are all required."@))
    } else if !known_zone {
        Some(plain("That is not a recognised timezone."@))
    } else {
        None
    }
}

/// The operator a submitted setup describes.
pub open spec fn described(form: SetupModel) -> NewOperatorModel {
    NewOperatorModel {
        username: trimmed(form.username),
        email: trimmed(form.email),
        first_name: trimmed(form.first_name),
        last_name: if trimmed(form.last_name).len() == 0 {
            None
        } else {
            Some(trimmed(form.last_name))
        },
        password: form.password,
        timezone: Some(trimmed(form.timezone)),
    }
}

/// Reads a submitted setup, given whether the zone it names is one: the operator to
/// create, or what is wrong with it.
pub fn vet_setup(form: &SetupForm, known_zone: bool) -> (r: Result<NewOperator, Text>)
    ensures
        match setup_refusal(form@, known_zone) {
            Some(e) => r is Err && (r->Err_0)@ == e,
            None => r is Ok && (r->Ok_0)@ == described(form@),
        },
{
    let username: &str = trim(form.username.as_str());
    let email: &str = trim(form.email.as_str());
    let first_name: &str = trim(form.first_name.as_str());
    let last_name: &str = trim(form.last_name.as_str());
    let tz: &str = trim(form.timezone.as_str());
    if username.is_empty() || email.is_empty() || first_name.is_empty()
        || form.password.as_str().is_empty() {
        return Err(Text::new("Username, first name, email, and password are all required."));
    }
    if !known_zone {
        return Err(Text::new("That is not a recognised timezone."));
    }
    let last_name: Option<String> = if last_name.is_empty() {
        None
    } else {
        Some(last_name.to_owned())
    };
    Ok(
        NewOperator {
            username: username.to_owned(),
            email: email.to_owned(),
            first_name: first_name.to_owned(),
            last_name,
            password: form.password.clone(),
            timezone: Some(tz.to_owned()),
        },
    )
}

/// What a setup request comes to.
pub enum SetupStep<'a> {
    Show(SetupScreen<'a>),
    /// Off to the login screen.
    ToLogin(Redirection),
    Failed(ErrorPage),
    /// Create this operator as a superuser.
    Create(NewOperator),
    /// The account stands: sign in with this name and password.
    Authenticate { username: String, password: String },
}

/// Whether a step leads to the login screen.
pub open spec fn leads_to_login(step: SetupStep, panel: Panel) -> bool {
    &&& step matches SetupStep::ToLogin(to)
    &&& to@ == saved(false, panel.admin_path@ + "/login"@)
}

/// Off to the login screen.
fn login_redirect(panel: &Panel) -> (r: Redirection)
    ensures
        r@ == saved(false, panel.admin_path@ + "/login"@),
{
    saved_response(false, cat(panel.admin_path.as_str(), "/login").as_str())
}

/// The first-run setup screen, shown only while no operator exists.
pub fn setup_form<'a>(
    panel: &'a Panel,
    operators: Option<bool>,
    brand: String,
    accepted: &Vec<String>,
) -> (r: SetupStep<'a>)
    ensures
        match operators {
            Some(true) => leads_to_login(r, *panel),
            Some(false) => r matches SetupStep::Show(s) && is_setup_screen(
                s,
                *panel,
                brand@,
                accepted.deep_view(),
                None,
            ),
            None => r matches SetupStep::Failed(page) && page.deep_view() == failure(),
        },
{
    match operators {
        Some(exist) => if exist {
            SetupStep::ToLogin(login_redirect(panel))
        } else {
            SetupStep::Show(setup_view(panel, brand, accepted, None))
        },
        None => SetupStep::Failed(masked_500()),
    }
}

/// What a submitted setup comes to. Setup only ever creates the first operator; once
/// one exists it is closed.
pub fn setup_submit<'a>(
    panel: &'a Panel,
    operators: Option<bool>,
    form: &SetupForm,
    brand: String,
    accepted: &Vec<String>,
) -> (r: SetupStep<'a>)
    ensures
        match operators {
            Some(true) => leads_to_login(r, *panel),
            None => r matches SetupStep::Failed(page) && page.deep_view() == failure(),
            Some(false) => match setup_refusal(form@, is_zone(trimmed(form@.timezone))) {
                Some(e) => r matches SetupStep::Show(s) && is_setup_screen(
                    s,
                    *panel,
                    brand@,
                    accepted.deep_view(),
                    Some(e),
                ),
                None => r matches SetupStep::Create(new) && new@ == described(form@),
            },
        },
{
    match operators {
        Some(exist) => if exist {
            return SetupStep::ToLogin(login_redirect(panel));
        },
        None => {
            return SetupStep::Failed(masked_500());
        },
    }
    let known: bool = zone_known(trim(form.timezone.as_str()));
    match vet_setup(form, known) {
        Ok(new) => SetupStep::Create(new),
        Err(e) => SetupStep::Show(setup_view(panel, brand, accepted, Some(e))),
    }
}

/// What a setup comes to once the account was created, or was refused.
pub fn setup_created<'a>(
    panel: &'a Panel,
    created: bool,
    form: &SetupForm,
    brand: String,
    accepted: &Vec<String>,
) -> (r: SetupStep<'a>)
    ensures
        if created {
            r matches SetupStep::Authenticate { username, password } && username@ == trimmed(
                form@.username,
            ) && password@ == form@.password
        } else {
            r matches SetupStep::Show(s) && is_setup_screen(
                s,
                *panel,
                brand@,
                accepted.deep_view(),
                Some(
                    plain(
                        "Could not create the account. The username or email may already be taken."@,
                    ),
                ),
            )
        },
{
    if created {
        SetupStep::Authenticate {
            username: trim(form.username.as_str()).to_owned(),
            password: form.password.clone(),
        }
    } else {
        let e: Text = Text::new(
            "Could not create the account. The username or email may already be taken.",
        );
        SetupStep::Show(setup_view(panel, brand, accepted, Some(e)))
    }
}

/// Signs the new administrator in, or leaves that to the login screen where no
/// session could be opened.
pub fn setup_done(panel: &Panel, opened: Option<String>) -> (r: (Vec<Cookie>, Redirection))
    ensures
        match opened {
            Some(token) => {
                &&& r.0.deep_view() == seq![
                    session_cookie_model(token@, panel.admin_path@, panel.secure_cookie),
                ]
                &&& r.1@ == saved(false, panel.admin_path@)
            },
            None => {
                &&& r.0.len() == 0
                &&& r.1@ == saved(false, panel.admin_path@ + "/login"@)
            },
        },
{
    let admin: &str = panel.admin_path.as_str();
    let mut cookies: Vec<Cookie> = Vec::new();
    match opened {
        Some(token) => {
            let ghost one = session_cookie_model(token@, admin@, panel.secure_cookie);
            cookies.push(session_cookie(token, admin, panel.secure_cookie));
            assert(cookies.deep_view() =~= seq![one]);
            (cookies, saved_response(false, admin))
        },
        None => (cookies, login_redirect(panel)),
    }
}

/// An account is created through setup only with a name, a first name, an email, a
/// password and a known zone; and a blank last name is none.
pub proof fn law_setup_creates_complete_accounts(form: SetupModel)
    requires
        setup_refusal(form, is_zone(trimmed(form.timezone))) is None,
    ensures
        described(form).username.len() > 0,
        described(form).email.len() > 0,
        described(form).first_name.len() > 0,
        described(form).password.len() > 0,
        described(form).timezone is Some && is_zone(described(form).timezone->0),
        described(form).last_name matches Some(l) ==> l.len() > 0,
{
}

// ---------------------------------------------------------------------- sign out
/// What signing out does: the session to end and the credential to revoke, where the
/// request carries them, the cookies to remove, and where it leads.
pub struct SignOut {
    pub end: Option<String>,
    pub revoke: Option<String>,
    pub removals: Vec<Cookie>,
    pub to: Redirection,
}

/// Signs out. The credential goes with the session: otherwise the next request would
/// present it and sign straight back in.
pub fn logout(panel: &Panel, session: Option<String>, remember: Option<String>) -> (r: SignOut)
    ensures
        r.end == session,
        r.revoke == remember,
        r.removals.deep_view() == seq![
            removal_model(SESSION_COOKIE@, panel.admin_path@),
            removal_model(REMEMBER_COOKIE@, panel.admin_path@),
        ],
        r.to@ == saved(false, panel.admin_path@ + "/login"@),
{
    let mut removals: Vec<Cookie> = Vec::new();
    removals.push(session_removal(panel.admin_path.as_str()));
    removals.push(remember_removal(panel.admin_path.as_str()));
    assert(removals.deep_view() =~= seq![
        removal_model(SESSION_COOKIE@, panel.admin_path@),
        removal_model(REMEMBER_COOKIE@, panel.admin_path@),
    ]);
    SignOut { end: session, revoke: remember, removals, to: login_redirect(panel) }
}

} // verus!
