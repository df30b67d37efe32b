//! The two cookies of a signed-in operator.
//!
//! The session cookie dies with the browser. What survives a closed browser is
//! the separate stay-signed-in credential, which can be rotated and revoked on
//! its own.

use vstd::prelude::*;

verus! {

pub const SESSION_COOKIE: &'static str = "laterite_session";

/// The long-lived stay-signed-in credential.
pub const REMEMBER_COOKIE: &'static str = "laterite_remember";

/// A cookie to set, or to remove where it carries no value. All are sent on
/// top-level navigation alone.
#[derive(Debug)]
pub struct Cookie {
    pub name: String,
    pub value: String,
    pub path: String,
    pub http_only: bool,
    pub secure: bool,
    pub same_site_lax: bool,
    /// Its lifetime in seconds; without one it lasts the browser session.
    pub max_age: Option<i64>,
}

/// A [`Cookie`], over characters.
pub struct CookieModel {
    pub name: Seq<char>,
    pub value: Seq<char>,
    pub path: Seq<char>,
    pub http_only: bool,
    pub secure: bool,
    pub same_site_lax: bool,
    pub max_age: Option<i64>,
}

impl DeepView for Cookie {
    type V = CookieModel;

    open spec fn deep_view(&self) -> CookieModel {
        CookieModel {
            name: self.name@,
            value: self.value@,
            path: self.path@,
            http_only: self.http_only,
            secure: self.secure,
            same_site_lax: self.same_site_lax,
            max_age: self.max_age,
        }
    }
}

/// The session cookie, scoped to the admin mount.
pub open spec fn session_cookie_model(
    token: Seq<char>,
    admin: Seq<char>,
    secure: bool,
) -> CookieModel {
    CookieModel {
        name: SESSION_COOKIE@,
        value: token,
        path: admin,
        http_only: true,
        secure,
        same_site_lax: true,
        max_age: None,
    }
}

/// The stay-signed-in cookie. It outlives the session deliberately, and never
/// lasts a negative time.
pub open spec fn remember_cookie_model(
    credential: Seq<char>,
    seconds: i64,
    admin: Seq<char>,
    secure: bool,
) -> CookieModel {
    CookieModel {
        name: REMEMBER_COOKIE@,
        value: credential,
        path: admin,
        http_only: true,
        secure,
        same_site_lax: true,
        max_age: Some(
            if seconds > 0 {
                seconds
            } else {
                0
            },
        ),
    }
}

/// A removal of a cookie: it has to match on path, or the browser keeps
/// the cookie.
pub open spec fn removal_model(name: Seq<char>, admin: Seq<char>) -> CookieModel {
    CookieModel {
        name,
        value: Seq::empty(),
        path: admin,
        http_only: false,
        secure: false,
        same_site_lax: false,
        max_age: None,
    }
}

/// The session cookie, scoped to the admin mount and flagged `Secure` behind
/// HTTPS. It lasts the browser session.
pub fn session_cookie(token: String, admin_path: &str, secure: bool) -> (r: Cookie)
    ensures
        r.deep_view() == session_cookie_model(token@, admin_path@, secure),
{
    Cookie {
        name: SESSION_COOKIE.to_owned(),
        value: token,
        path: admin_path.to_owned(),
        http_only: true,
        secure,
        same_site_lax: true,
        max_age: None,
    }
}

/// The stay-signed-in cookie. `seconds` is how long its credential still lasts.
pub fn remember_cookie(credential: String, seconds: i64, admin_path: &str, secure: bool) -> (r:
    Cookie)
    ensures
        r.deep_view() == remember_cookie_model(credential@, seconds, admin_path@, secure),
{
    let age: i64 = if seconds > 0 {
        seconds
    } else {
        0
    };
    Cookie {
        name: REMEMBER_COOKIE.to_owned(),
        value: credential,
        path: admin_path.to_owned(),
        http_only: true,
        secure,
        same_site_lax: true,
        max_age: Some(age),
    }
}

/// A removal of a cookie.
fn removal(name: &str, admin_path: &str) -> (r: Cookie)
    ensures
        r.deep_view() == removal_model(name@, admin_path@),
{
    Cookie {
        name: name.to_owned(),
        value: String::new(),
        path: admin_path.to_owned(),
        http_only: false,
        secure: false,
        same_site_lax: false,
        max_age: None,
    }
}

/// Clears the stay-signed-in cookie, for a sign-out or a credential that failed.
pub fn remember_removal(admin_path: &str) -> (r: Cookie)
    ensures
        r.deep_view() == removal_model(REMEMBER_COOKIE@, admin_path@),
{
    removal(REMEMBER_COOKIE, admin_path)
}

/// Clears the session cookie, for a sign-out.
pub fn session_removal(admin_path: &str) -> (r: Cookie)
    ensures
        r.deep_view() == removal_model(SESSION_COOKIE@, admin_path@),
{
    removal(SESSION_COOKIE, admin_path)
}

/// A removal stands under the name and path of the cookie it clears.
pub proof fn law_a_removal_matches_its_cookie(
    token: Seq<char>,
    seconds: i64,
    admin: Seq<char>,
    secure: bool,
)
    ensures
        removal_model(SESSION_COOKIE@, admin).name == session_cookie_model(
            token,
            admin,
            secure,
        ).name,
        removal_model(SESSION_COOKIE@, admin).path == session_cookie_model(
            token,
            admin,
            secure,
        ).path,
        removal_model(REMEMBER_COOKIE@, admin).name == remember_cookie_model(
            token,
            seconds,
            admin,
            secure,
        ).name,
        removal_model(REMEMBER_COOKIE@, admin).path == remember_cookie_model(
            token,
            seconds,
            admin,
            secure,
        ).path,
{
}

} // verus!
