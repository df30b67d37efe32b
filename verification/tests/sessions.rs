//! Sessions, their tokens and cookies, and who may pass the guard.

use laterite_admin::access::PermissionSet;
use laterite_admin::cookies::{
    remember_cookie, remember_removal, session_cookie, session_removal, REMEMBER_COOKIE,
    SESSION_COOKIE,
};
use laterite_admin::error::{AdminError, ErrorKind};
use laterite_admin::guard::{
    advance, check_token, enforce_origin, finish, guard_with_permission, judge, reads_body, start,
    to_login, AuthEvent, AuthStep, Credential, Finish, Verdict,
};
use laterite_admin::session::{
    ct_eq, generate_token, header_token, hex, is_multipart, is_safe_method, origin_ok,
    query_token, submitted_token, token_matches, CsrfPending, Flash, FlashLevel, SessionData,
    SessionHandle, MAX_BLOB, VERSION,
};
use laterite_admin::text::{Text, Translator};
use laterite_admin::upload::verify_first_field;

/// Reads a stored session as the panel's host does.
fn parse(raw: Option<&str>) -> SessionData {
    let decoded = SessionData::readable(raw).and_then(|text| {
        let value: serde_json::Value = serde_json::from_str(text).ok()?;
        let object = value.as_object()?;
        let v = match object.get("v") {
            Some(v) => v.as_u64()? as u8,
            None => VERSION,
        };
        let csrf = match object.get("csrf") {
            Some(c) => c.as_str()?.to_string(),
            None => String::new(),
        };
        Some(SessionData { v, csrf, flash: Vec::new() })
    });
    SessionData::restored(decoded)
}

fn from_blob(raw: Option<&str>) -> SessionHandle {
    SessionHandle::from_data(parse(raw))
}

fn credential() -> Credential {
    Credential { cookie: "next".to_string(), seconds: 60 }
}

#[test]
fn corrupt_blob_degrades_to_empty_session() {
    assert!(parse(Some("not json")).csrf.is_empty());
    assert!(parse(Some(&"x".repeat(MAX_BLOB + 1))).csrf.is_empty());
    assert!(parse(None).flash.is_empty());
}

#[test]
fn a_blob_up_to_the_limit_is_read() {
    let text = "x".repeat(MAX_BLOB);
    assert_eq!(SessionData::readable(Some(&text)), Some(text.as_str()));
    assert_eq!(SessionData::readable(Some(&"x".repeat(MAX_BLOB + 1))), None);
    assert_eq!(SessionData::readable(None), None);
}

#[test]
fn a_fresh_session_mints_a_token_and_is_dirty() {
    let h = from_blob(None);
    assert_eq!(h.csrf_token().len(), 64);
    assert!(h.dirty_data().is_some());
}

#[test]
fn an_existing_token_is_kept_and_clean() {
    let blob = format!(r#"{{"v":1,"csrf":"{}"}}"#, "a".repeat(64));
    let h = from_blob(Some(&blob));
    assert_eq!(h.csrf_token(), "a".repeat(64));
    assert!(h.dirty_data().is_none());
}

#[test]
fn flash_round_trips_and_marks_dirty() {
    let mut h = from_blob(Some(&format!(r#"{{"csrf":"{}"}}"#, "a".repeat(64))));
    h.push_flash(FlashLevel::Success, Text::new("Saved"));
    assert!(h.dirty_data().is_some());
    let taken = h.take_flash();
    assert_eq!(taken.len(), 1);
    assert_eq!(taken[0].text.source(), "Saved");
    assert!(h.take_flash().is_empty());
}

#[test]
fn a_flash_level_names_its_class() {
    assert_eq!(Flash::say(FlashLevel::Info, "x").text.source(), "x");
    assert_eq!(FlashLevel::Success.class(), "is-success");
    assert_eq!(FlashLevel::Error.class(), "is-error");
    assert_eq!(FlashLevel::Info.class(), "is-info");
}

#[test]
fn tokens_are_random_hex() {
    assert_eq!(hex(&vec![0, 255, 16]), "00ff10");
    let a = generate_token();
    assert_eq!(a.len(), 64);
    assert!(a.chars().all(|c| c.is_ascii_hexdigit()));
    assert_ne!(a, generate_token());
}

#[test]
fn token_match_is_exact_and_rejects_missing() {
    assert!(token_matches("abc", Some("abc")));
    assert!(!token_matches("abc", Some("abd")));
    assert!(!token_matches("abc", None));
    assert!(!token_matches("", Some("")));
    assert!(ct_eq(b"abc", b"abc"));
    assert!(!ct_eq(b"abc", b"abcd"));
}

#[test]
fn safe_methods_are_exempt() {
    assert!(is_safe_method("GET"));
    assert!(is_safe_method("QUERY"));
    assert!(!is_safe_method("POST"));
    assert!(!is_safe_method("DELETE"));
}

#[test]
fn an_upload_carries_its_token_beside_the_body() {
    let content_type = Some("multipart/form-data; boundary=x");
    assert!(is_multipart(content_type), "an upload must be recognised before buffering");
    assert_eq!(header_token(Some("tok")).as_deref(), Some("tok"));
    assert_eq!(query_token(Some("_csrf=tok&other=1")).as_deref(), Some("tok"));
    assert_eq!(query_token(Some("other=1")), None);
    assert_eq!(query_token(None), None);
}

#[test]
fn only_a_multipart_body_skips_buffering() {
    for (value, expected) in [
        ("multipart/form-data; boundary=abc", true),
        ("MULTIPART/FORM-DATA; boundary=abc", true),
        ("application/x-www-form-urlencoded", false),
        ("application/json", false),
        ("text/plain", false),
    ] {
        assert_eq!(is_multipart(Some(value)), expected, "{value}");
        assert_eq!(reads_body("POST", Some(value)), !expected);
    }
    assert!(!is_multipart(None), "no content type is not an upload");
    assert!(!reads_body("GET", None));
}

#[test]
fn origin_gate_accepts_same_origin_and_rejects_cross() {
    assert!(origin_ok(Some("same-origin"), None, None, "https://acme.test"));
    assert!(!origin_ok(Some("cross-site"), None, None, "https://acme.test"));
    let origin = Some("https://acme.test");
    assert!(origin_ok(None, origin, None, "https://acme.test"));
    assert!(!origin_ok(None, origin, None, "https://evil.test"));
    assert!(!origin_ok(None, None, None, "https://acme.test"));
}

#[test]
fn without_an_expected_origin_the_host_decides() {
    let origin = Some("https://acme.test/");
    assert!(origin_ok(None, origin, Some("acme.test"), ""));
    assert!(!origin_ok(None, origin, Some("evil.test"), ""));
    assert!(!origin_ok(None, origin, None, ""));
    assert!(enforce_origin("GET", None, None, None, ""));
    assert!(!enforce_origin("POST", None, None, None, ""));
    assert!(enforce_origin("POST", Some("none"), None, None, ""));
}

#[test]
fn submitted_token_reads_header_then_field() {
    assert_eq!(submitted_token(Some("from-header"), b"").as_deref(), Some("from-header"));
    let body = b"username=root&_csrf=from-field&x=1";
    assert_eq!(submitted_token(None, body).as_deref(), Some("from-field"));
    assert_eq!(submitted_token(None, b"a=b"), None);
}

#[test]
fn a_form_passes_only_with_the_sessions_token() {
    let form = Some("application/x-www-form-urlencoded");
    let check = |method, header, body: &[u8]| check_token(method, form, header, None, &body.to_vec(), "tok");
    assert_eq!(check("GET", None, b""), Verdict::Pass);
    assert_eq!(check("POST", None, b""), Verdict::Rejected);
    assert_eq!(check("POST", None, b"_csrf=tok"), Verdict::Pass);
    assert_eq!(check("POST", None, b"_csrf=tok%20"), Verdict::Rejected);
    assert_eq!(check("POST", Some("tok"), b""), Verdict::Pass);
    assert_eq!(check("POST", Some("wrong"), b"_csrf=tok"), Verdict::Rejected);
}

#[test]
fn an_upload_without_a_token_beside_it_is_left_to_its_handler() {
    let upload = Some("multipart/form-data; boundary=x");
    let body = b"_csrf=tok".to_vec();
    assert_eq!(check_token("POST", upload, None, None, &body, "tok"), Verdict::Deferred);
    assert_eq!(check_token("POST", upload, None, Some("_csrf=tok"), &body, "tok"), Verdict::Pass);
    assert_eq!(check_token("POST", upload, None, Some("_csrf=no"), &body, "tok"), Verdict::Rejected);
    assert_eq!(judge("POST", upload, Some("tok"), None, None, "tok"), Verdict::Pass);
}

#[test]
fn an_upload_leads_with_its_token() {
    let mut pending = CsrfPending::new();
    assert!(verify_first_field("tok", &mut pending, Some("file"), Some("tok")).is_err());
    assert!(verify_first_field("tok", &mut pending, Some("_csrf"), Some("no")).is_err());
    assert!(verify_first_field("tok", &mut pending, None, None).is_err());
    assert!(!pending.was_satisfied());
    assert!(verify_first_field("tok", &mut pending, Some("_csrf"), Some("tok")).is_ok());
    assert!(pending.was_satisfied());
}

#[test]
fn a_live_session_signs_in_at_once() {
    let step = start(Some("live".to_string()), Some("cred".to_string()));
    match advance(step, AuthEvent::Resolved) {
        AuthStep::SignedIn { session, recalled } => {
            assert_eq!(session, "live");
            assert!(recalled.is_none());
        }
        _ => panic!("a live session signs in"),
    }
}

#[test]
fn an_expired_session_falls_back_to_the_credential() {
    let step = start(Some("old".to_string()), Some("cred".to_string()));
    let step = advance(step, AuthEvent::Refused);
    match &step {
        AuthStep::Consume { presented } => assert_eq!(presented, "cred"),
        _ => panic!("the credential is next"),
    }
    let step = advance(
        step,
        AuthEvent::Recalled { minted: "fresh".to_string(), credential: credential() },
    );
    match advance(step, AuthEvent::Resolved) {
        AuthStep::SignedIn { session, recalled } => {
            assert_eq!(session, "fresh");
            assert_eq!(recalled.unwrap().cookie, "next");
        }
        _ => panic!("the traded session signs in"),
    }
}

#[test]
fn nobody_signs_in_without_a_session_or_a_credential() {
    assert!(matches!(start(None, None), AuthStep::ToLogin));
    let step = advance(start(Some("old".to_string()), None), AuthEvent::Refused);
    assert!(matches!(step, AuthStep::ToLogin));
    let step = advance(start(None, Some("cred".to_string())), AuthEvent::Refused);
    assert!(matches!(step, AuthStep::ToLogin));
    let (cookie, to) = to_login("/admin");
    assert_eq!(cookie.name, REMEMBER_COOKIE);
    assert_eq!(cookie.value, "");
    assert_eq!(to.to, "/admin/login");
}

#[test]
fn an_unchecked_upload_is_blocked_on_the_way_out() {
    let tr = Translator::new("en");
    let handle = from_blob(None);
    let pending = CsrfPending::new();
    match finish(Some(&pending), None, &tr, &handle, "t".to_string(), None, "/admin", false) {
        Finish::Blocked(page) => assert_eq!(page.status, 403),
        Finish::Answered { .. } => panic!("the token was never checked"),
    }
}

#[test]
fn a_recalled_request_is_answered_with_both_cookies() {
    let tr = Translator::new("en");
    let handle = from_blob(None);
    let done = finish(
        None,
        Some(ErrorKind::NotFound),
        &tr,
        &handle,
        "fresh".to_string(),
        Some(credential()),
        "/admin",
        true,
    );
    match done {
        Finish::Answered { page, store, cookies } => {
            assert_eq!(page.unwrap().status, 404);
            assert!(store.is_some(), "a token was minted");
            assert_eq!(cookies.len(), 2);
            assert_eq!((cookies[0].name.as_str(), cookies[0].value.as_str()), (SESSION_COOKIE, "fresh"));
            assert_eq!((cookies[1].value.as_str(), cookies[1].max_age), ("next", Some(60)));
        }
        Finish::Blocked(_) => panic!("nothing was deferred"),
    }
}

#[test]
fn a_missing_permission_is_forbidden() {
    let operator = PermissionSet::new(false, vec!["acme.read".to_string()]);
    assert!(guard_with_permission(&operator, "acme.read").is_ok());
    assert!(matches!(guard_with_permission(&operator, "acme.write"), Err(AdminError::Forbidden)));
}

#[test]
fn the_session_cookie_never_outlives_the_browser() {
    let cookie = session_cookie("tok".into(), "/admin", false);
    assert_eq!(cookie.max_age, None);
    assert!(cookie.http_only);
    assert_eq!(cookie.path, "/admin");
}

#[test]
fn the_remember_cookie_carries_its_own_lifetime() {
    let cookie = remember_cookie("sel:ver".into(), 14 * 24 * 60 * 60, "/admin", true);
    let age = cookie.max_age.expect("a remember cookie must persist");
    assert!((age - 14 * 24 * 60 * 60).abs() <= 1);
    assert!(cookie.http_only);
    assert!(cookie.secure);
    assert_eq!(cookie.value, "sel:ver");
    assert_eq!(remember_cookie("sel:ver".into(), -5, "/admin", true).max_age, Some(0));
}

#[test]
fn the_removal_matches_the_cookie_it_clears() {
    let removal = remember_removal("/admin");
    assert_eq!(removal.name, REMEMBER_COOKIE);
    assert_eq!(removal.path, "/admin");
    assert_eq!(session_removal("/admin").name, SESSION_COOKIE);
}
