//! Paths: who owns which, and the links that follow them.

use laterite_admin::routemap::{
    check_collisions, check_public, check_segments, join as path_join, normalize, resolve,
};
use laterite_admin::routes::{join, PublicRouteReg, RouteCtx, ScreenReg};
use laterite_admin::screen::ScreenCtx;
use laterite_admin::text::Text;

const M: &str = "rainmill.location";

fn claims(all: &[(&str, &str)]) -> Vec<(String, String)> {
    all.iter().map(|(k, v)| (k.to_string(), v.to_string())).collect()
}

#[test]
#[should_panic(expected = "has a dotted segment")]
fn a_module_id_used_as_a_url_is_refused() {
    check_segments(&claims(&[("/settings/rainmill.discovery.robots", "rainmill.discovery")]))
        .unwrap();
}

#[test]
fn a_resolved_module_path_passes() {
    assert!(check_segments(&claims(&[("/rainmill/discovery/robots", "rainmill.discovery")])).is_ok());
}

#[test]
fn a_module_namespaces_its_paths_by_default() {
    assert_eq!(resolve(M, "/nodes", None, &vec![]), "/rainmill/location/nodes");
}

#[test]
fn a_declared_base_replaces_the_namespace() {
    assert_eq!(resolve(M, "/nodes", Some("/places"), &vec![]), "/places/nodes");
}

#[test]
fn a_deployment_override_beats_the_module() {
    let cfg = claims(&[("rainmill.location", "/geography")]);
    assert_eq!(resolve(M, "/nodes", Some("/places"), &cfg), "/geography/nodes");
}

#[test]
fn the_more_specific_override_wins() {
    let cfg = claims(&[
        ("rainmill.location", "/geography"),
        ("rainmill.location/nodes", "/places"),
    ]);
    assert_eq!(resolve(M, "/nodes", None, &cfg), "/places");
}

#[test]
fn a_missing_leading_slash_is_forgiven() {
    let cfg = claims(&[("rainmill.location", "geography")]);
    assert_eq!(resolve(M, "nodes", None, &cfg), "/geography/nodes");
}

#[test]
#[should_panic(expected = "claimed by both")]
fn two_modules_claiming_one_path_abort_the_boot() {
    check_collisions(&claims(&[("/places", "rainmill.location"), ("/places", "acme.places")]))
        .unwrap();
}

#[test]
#[should_panic(expected = "claimed by both")]
fn shadowing_a_framework_screen_aborts_the_boot() {
    check_collisions(&claims(&[("/roles", "laterite"), ("/roles", "acme.roles")])).unwrap();
}

#[test]
#[should_panic(expected = "inside the admin mount")]
fn a_public_route_may_not_shadow_the_panel() {
    check_public(&claims(&[("/admin/sneaky", "acme.evil")]), "/admin").unwrap();
}

#[test]
#[should_panic(expected = "inside the admin mount")]
fn a_public_route_may_not_claim_the_mount_itself() {
    check_public(&claims(&[("/admin", "acme.evil")]), "/admin").unwrap();
}

#[test]
fn an_ordinary_public_route_passes() {
    assert!(check_public(
        &claims(&[("/robots.txt", "acme.seo"), ("/sitemap.xml", "acme.seo")]),
        "/admin",
    )
    .is_ok());
}

#[test]
fn distinct_paths_pass() {
    assert!(check_collisions(&claims(&[("/roles", "laterite"), ("/places", "rainmill.location")]))
        .is_ok());
}

#[test]
fn a_path_is_normal_with_one_leading_slash() {
    assert_eq!(normalize(" nodes "), "/nodes");
    assert_eq!(normalize("/nodes"), "/nodes");
    assert_eq!(path_join("/places", "nodes"), "/places/nodes");
}

#[test]
fn routes_a_self_link_builds_from_where_the_screen_actually_mounted() {
    let base = "/admin/rainmill/location/import";
    assert_eq!(join(base, "/step2"), "/admin/rainmill/location/import/step2");
    assert_eq!(join(base, "step2"), "/admin/rainmill/location/import/step2");
    assert_eq!(join(base, ""), "/admin/rainmill/location/import");
}

#[test]
fn routes_a_moved_screen_moves_its_links_with_it() {
    assert_eq!(join("/admin/places", "/step2"), "/admin/places/step2");
    let ctx = RouteCtx::new("/admin/places", "/admin", "https://acme.test");
    assert_eq!(ctx.url("step2"), "/admin/places/step2");
    assert_eq!(ctx.base_url(), "https://acme.test");
    assert_eq!(ctx.base_path(), "/admin/places");
    assert_eq!(ctx.admin_path(), "/admin");
}

#[test]
fn routes_a_registration_defaults_to_no_menu_entry() {
    let reg = ScreenReg::new("/import", "acme.import");
    assert!(reg.nav_label.is_none());
    assert!(reg.in_menu(Text::new("Import")).nav_label.is_some());
    assert_eq!(PublicRouteReg::new("/robots.txt").path, "/robots.txt");
}

#[test]
fn screen_a_self_link_builds_from_where_the_screen_actually_mounted() {
    let ctx = ScreenCtx::new("/admin/rainmill/location/import");
    assert_eq!(ctx.url("/step2"), "/admin/rainmill/location/import/step2");
    assert_eq!(ctx.url("step2"), "/admin/rainmill/location/import/step2");
    assert_eq!(ctx.url(""), "/admin/rainmill/location/import");
    assert_eq!(ctx.base_path(), "/admin/rainmill/location/import");
}

#[test]
fn screen_a_moved_screen_moves_its_links_with_it() {
    assert_eq!(ScreenCtx::new("/admin/places").url("/step2"), "/admin/places/step2");
}

#[test]
fn screen_a_registration_defaults_to_no_menu_entry() {
    let reg = ScreenReg::new("/import", "acme.import");
    assert!(reg.nav_label.is_none());
    assert!(reg.in_menu(Text::new("Import")).nav_label.is_some());
}
