//! Where a request comes from, and what a selection names.

use laterite_admin::bootstrap::{banner, Bootstrap, DEFAULT_ENV_PREFIX};
use laterite_admin::bulk::{
    delete_done, delete_selected, delete_submitted, selected, BulkStep, Outcome,
};
use laterite_admin::clientip::{
    client_ip, describe, header_text, parse_trusted, pick_client, user_agent, MAX_USER_AGENT,
};
use laterite_admin::persist::DeleteError;
use laterite_admin::session::{FlashLevel, SessionData, SessionHandle};
use laterite_admin::text::Text;

fn pairs(all: &[(&str, &str)]) -> Vec<(String, String)> {
    all.iter().map(|(k, v)| (k.to_string(), v.to_string())).collect()
}

fn nets(ranges: &[&str]) -> Vec<String> {
    parse_trusted(&ranges.iter().map(|s| s.to_string()).collect::<Vec<_>>())
}

fn handle() -> SessionHandle {
    SessionHandle::open(SessionData::empty(), "token".to_string())
}

#[test]
fn selection_reads_every_ticked_box() {
    let pairs = vec![
        ("csrf_token".to_string(), "t".to_string()),
        ("id".to_string(), "1".to_string()),
        ("id".to_string(), "2".to_string()),
        ("id".to_string(), "  ".to_string()),
    ];
    assert_eq!(selected(&pairs), ["1", "2"]);
}

#[test]
fn nothing_ticked_selects_nothing() {
    let pairs = vec![("csrf_token".to_string(), "t".to_string())];
    assert!(selected(&pairs).is_empty());
}

#[test]
fn an_empty_selection_goes_back_with_a_word() {
    let mut session = handle();
    let step = delete_submitted(&mut session, &pairs(&[("id", " ")]), false, "/admin", "/posts");
    match step {
        BulkStep::Back(to) => {
            assert_eq!(to.status, 303);
            assert_eq!(to.to, "/admin/posts");
        }
        BulkStep::Delete(_) => panic!("nothing was selected"),
    }
    assert_eq!(session.data.flash.len(), 1);
}

#[test]
fn a_selection_is_deleted_one_by_one() {
    let mut session = handle();
    let step = delete_submitted(
        &mut session,
        &pairs(&[("id", "4"), ("id", "9")]),
        true,
        "/admin",
        "/posts",
    );
    match step {
        BulkStep::Delete(ids) => assert_eq!(ids, ["4", "9"]),
        BulkStep::Back(_) => panic!("two were selected"),
    }
    assert!(session.data.flash.is_empty());
}

#[test]
fn every_outcome_of_a_bulk_delete_is_counted() {
    let outcome: Outcome = delete_selected(&vec![
        None,
        Some(DeleteError::Refused(Text::new("In use."))),
        Some(DeleteError::Failed("gone".to_string())),
        None,
    ]);
    assert_eq!(outcome.deleted, 2);
    assert_eq!(outcome.refused.len(), 1);
    assert_eq!(outcome.refused[0].source(), "In use.");
    assert_eq!(outcome.failed, 1);

    let mut session = handle();
    let to = delete_done(&mut session, &outcome, true, "/admin", "/posts");
    assert_eq!((to.status, to.header.as_str(), to.to.as_str()), (204, "HX-Redirect", "/admin/posts"));
    let levels: Vec<FlashLevel> = session.take_flash().iter().map(|f| f.level).collect();
    assert!(levels.contains(&FlashLevel::Success));
    assert!(levels.contains(&FlashLevel::Error));
}

#[test]
fn with_no_trusted_proxies_the_header_is_ignored() {
    let got = client_ip(Some("203.0.113.9"), Some("1.2.3.4"), &vec![]);
    assert_eq!(got.as_deref(), Some("203.0.113.9"));
}

#[test]
fn a_peer_outside_the_trusted_range_is_believed_over_its_header() {
    let got = client_ip(Some("203.0.113.9"), Some("1.2.3.4"), &nets(&["10.0.0.0/8"]));
    assert_eq!(got.as_deref(), Some("203.0.113.9"));
}

#[test]
fn a_trusted_proxy_hands_over_the_client() {
    let got = client_ip(Some("10.0.0.7"), Some("198.51.100.4"), &nets(&["10.0.0.0/8"]));
    assert_eq!(got.as_deref(), Some("198.51.100.4"));
}

#[test]
fn the_rightmost_untrusted_hop_wins() {
    let got = client_ip(
        Some("10.0.0.7"),
        Some("1.1.1.1, 198.51.100.4, 10.0.0.3"),
        &nets(&["10.0.0.0/8"]),
    );
    assert_eq!(got.as_deref(), Some("198.51.100.4"));
}

#[test]
fn a_chain_of_only_our_own_hops_falls_back_to_the_peer() {
    let got = client_ip(Some("10.0.0.7"), Some("10.0.0.3"), &nets(&["10.0.0.0/8"]));
    assert_eq!(got.as_deref(), Some("10.0.0.7"));
}

#[test]
fn an_unparseable_range_is_dropped_not_fatal() {
    let parsed = nets(&["10.0.0.0/8", "not-a-range"]);
    assert_eq!(parsed.len(), 1);
}

#[test]
fn a_hop_is_recorded_in_its_canonical_form() {
    let got = client_ip(Some("10.0.0.7"), Some("2001:DB8:0:0::1"), &nets(&["10.0.0.0/8"]));
    assert_eq!(got.as_deref(), Some("2001:db8::1"));
    assert_eq!(client_ip(None, Some("1.2.3.4"), &vec![]), None);
}

#[test]
fn a_forged_prefix_does_not_change_the_client() {
    let hops = vec![("198.51.100.4".to_string(), false), ("10.0.0.3".to_string(), true)];
    let forged = vec![
        ("9.9.9.9".to_string(), false),
        ("198.51.100.4".to_string(), false),
        ("10.0.0.3".to_string(), true),
    ];
    assert_eq!(pick_client("10.0.0.7", true, &hops), "198.51.100.4");
    assert_eq!(pick_client("10.0.0.7", true, &forged), "198.51.100.4");
    assert_eq!(pick_client("203.0.113.9", false, &hops), "203.0.113.9");
}

#[test]
fn a_long_user_agent_is_capped() {
    let got = user_agent(Some("A".repeat(4000).as_bytes())).unwrap();
    assert_eq!(got.len(), MAX_USER_AGENT);
}

#[test]
fn a_non_ascii_user_agent_is_declined_rather_than_mangled() {
    assert_eq!(user_agent(Some("é".repeat(400).as_bytes())), None);
}

#[test]
fn a_header_of_visible_text_reads_as_it_is() {
    assert_eq!(header_text(b"curl/8.0").as_deref(), Some("curl/8.0"));
    assert_eq!(header_text(b"a\x07b"), None);
    assert_eq!(user_agent(None), None);
}

#[test]
fn browsers_are_named_past_their_compatibility_tokens() {
    let edge = "Mozilla/5.0 (Windows NT 10.0) AppleWebKit/537.36 (KHTML, like Gecko) \
                Chrome/140.0.0.0 Safari/537.36 Edg/140.0.0.0";
    assert_eq!(describe(Some(edge)).as_deref(), Some("Edge on Windows"));

    let chrome = "Mozilla/5.0 (Macintosh; Intel Mac OS X 10_15_7) AppleWebKit/537.36 \
                  (KHTML, like Gecko) Chrome/140.0.0.0 Safari/537.36";
    assert_eq!(describe(Some(chrome)).as_deref(), Some("Chrome on macOS"));
}

#[test]
fn an_unrecognised_agent_is_not_guessed_at() {
    assert_eq!(describe(Some("something-bespoke/1.0")), None);
    assert_eq!(describe(None), None);
}

#[test]
fn env_prefix_defaults_and_overrides() {
    assert_eq!(Bootstrap::new("config").env_prefix, DEFAULT_ENV_PREFIX);
    assert_eq!(Bootstrap::new("config").env_prefix("HIVE").env_prefix, "HIVE");
}

#[test]
fn the_banner_says_where_the_panel_is() {
    assert_eq!(banner("Acme", "http://localhost:3000", "admin/"), "Acme on http://localhost:3000/admin");
}
