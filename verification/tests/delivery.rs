//! Errors, exports, caching and icons.

use laterite_admin::assets::{
    asset_urls, builtin_assets, find_asset, page_assets, preauth_asset, serve_asset, AdminAsset,
};
use laterite_admin::error::{
    csrf_rejected, localized_error, masked_500, panic_cause, AdminError, CoreError, ErrorKind,
};
use laterite_admin::export::{
    export_file, json_members, to_csv, to_json, Export, ExportStep, Format, MAX_ROWS, PAGE,
};
use laterite_admin::html::Markup;
use laterite_admin::http_cache::{
    conditional, digest, fingerprint, matches_etag, strip_fingerprint, IMMUTABLE, REVALIDATE,
};
use laterite_admin::icons::{require, svg, Icons, IconSet};
use laterite_admin::list::ListColumn;
use laterite_admin::list_query::{ListPage, RowView};
use laterite_admin::session::FlashLevel;
use laterite_admin::settings::{icon_svg, SHIELD_ICON, SLIDERS_ICON, USERS_ICON};
use laterite_admin::sql::{like_escape, valid_ident};
use laterite_admin::text::Translator;

fn rows() -> Vec<Vec<String>> {
    vec![
        vec!["ada".to_string(), "Yes".to_string()],
        vec!["b, comma".to_string(), "say \"hi\"".to_string()],
        vec!["line\nbreak".to_string(), "No".to_string()],
    ]
}

fn headers() -> Vec<String> {
    vec!["username".to_string(), "superuser".to_string()]
}

fn set() -> IconSet {
    IconSet { names: vec!["users".to_string(), "shield".to_string()] }
}

fn page_of(n: usize, total: i64) -> ListPage {
    let rows = (0..n)
        .map(|i| RowView { id: i.to_string(), cells: vec![format!("r{i}")] })
        .collect();
    ListPage { rows, total }
}

#[test]
fn client_errors_map_to_their_status() {
    assert_eq!(AdminError::NotFound.page(false).status, 404);
    assert_eq!(AdminError::Forbidden.page(false).status, 403);
}

#[test]
fn core_errors_keep_their_meaning() {
    assert!(matches!(
        AdminError::from_core(CoreError::NotFound("x".into())),
        AdminError::NotFound
    ));
    assert!(matches!(
        AdminError::from_core(CoreError::Forbidden("x".into())),
        AdminError::Forbidden
    ));
    assert!(matches!(
        AdminError::from_core(CoreError::Unauthorized),
        AdminError::Forbidden
    ));
    assert!(matches!(
        AdminError::from_core(CoreError::Conflict("x".into())),
        AdminError::Internal(_)
    ));
}

#[test]
fn internal_masks_the_cause_and_stamps_meta() {
    let error = AdminError::Internal("secret connection string".to_string());
    let page = error.page(false);
    assert_eq!(page.status, 500);
    assert_eq!(page.meta.kind, ErrorKind::Internal);
    assert!(!page.title.contains("secret connection string"));
    assert!(!page.message.contains("secret connection string"));
    assert_eq!(page.detail, None);
    assert_eq!(error.page(true).detail.as_deref(), Some("secret connection string"));
}

#[test]
fn an_error_is_rendered_again_in_the_requests_language() {
    let tr = Translator {
        locale: "nl".to_string(),
        messages: vec![("Something went wrong".to_string(), "Er ging iets mis".to_string())],
    };
    let page = localized_error(ErrorKind::Internal, &tr);
    assert_eq!(page.status, 500);
    assert_eq!(page.title, "Er ging iets mis");
    assert_eq!(masked_500().status, 500);
    assert_eq!(csrf_rejected().status, 403);
    assert_eq!(csrf_rejected().title, "Request blocked");
    assert_eq!(panic_cause(Some("boom")), "boom");
    assert_eq!(panic_cause(None), "unknown panic");
}

#[test]
fn csv_quotes_and_escapes_every_awkward_value() {
    let out = to_csv(&headers(), &rows()).ok().unwrap();
    assert!(out.starts_with("username,superuser\n"));
    assert!(out.contains("\"b, comma\""), "a comma is quoted: {out}");
    assert!(out.contains("\"say \"\"hi\"\"\""), "a quote is doubled: {out}");
    assert!(out.contains("\"line\nbreak\""), "a newline is quoted: {out}");
}

#[test]
fn a_short_row_is_no_csv() {
    let e = to_csv(&headers(), &vec![vec!["one".to_string()]]).err().unwrap();
    assert_eq!((e.expected, e.found), (2, 1));
}

#[test]
fn json_is_an_array_of_objects_keyed_by_column() {
    let out = to_json(&headers(), &rows());
    let parsed: serde_json::Value = serde_json::from_str(&out).unwrap();
    assert_eq!(parsed.as_array().unwrap().len(), 3);
    assert_eq!(parsed[0]["username"], "ada");
    assert_eq!(parsed[1]["superuser"], "say \"hi\"");
}

#[test]
fn a_json_object_pairs_each_column_with_its_cell() {
    let members = json_members(&headers(), &rows());
    assert_eq!(members.len(), 3);
    assert_eq!(members[0], vec![
        ("username".to_string(), "ada".to_string()),
        ("superuser".to_string(), "Yes".to_string()),
    ]);
}

#[test]
fn the_format_defaults_to_csv() {
    let mut raw: Vec<(String, String)> = Vec::new();
    assert!(Format::read(&raw) == Format::Csv);
    raw.push(("format".to_string(), "json".to_string()));
    assert!(Format::read(&raw) == Format::Json);
    raw = vec![("format".to_string(), "xlsx".to_string())];
    assert!(Format::read(&raw) == Format::Csv);
}

#[test]
fn an_export_file_is_named_and_headed() {
    let columns = vec![
        ListColumn::new("username", "Username"),
        ListColumn::new("is_superuser", "Superuser").yes_no(),
    ];
    let tr = Translator::new("en");
    let file = export_file(Format::Csv, "backend_users", &columns, &rows(), &tr).ok().unwrap();
    assert!(file.disposition.contains("backend_users.csv"), "{}", file.disposition);
    assert_eq!(file.body.lines().next(), Some("Username,Superuser"));
    let file = export_file(Format::Json, "backend_users", &columns, &rows(), &tr).ok().unwrap();
    assert!(file.disposition.contains("backend_users.json"), "{}", file.disposition);
    let parsed: serde_json::Value = serde_json::from_str(&file.body).unwrap();
    assert_eq!(parsed[0]["username"], "ada");
}

#[test]
fn an_export_collects_pages_until_one_is_short() {
    let step = Export::start().take(Some(page_of(PAGE as usize, 1001)));
    let export = match step {
        ExportStep::Continue(e) => e,
        _ => panic!("a full page asks for the next"),
    };
    assert_eq!(export.offset, PAGE);
    match export.take(Some(page_of(1, 1001))) {
        ExportStep::Done(all) => assert_eq!(all.len(), 1001),
        _ => panic!("a short page ends the export"),
    }
}

#[test]
fn an_export_too_large_or_failed_is_refused() {
    match Export::start().take(Some(page_of(3, MAX_ROWS + 1))) {
        ExportStep::Refused(flash) => assert_eq!(flash.level, FlashLevel::Error),
        _ => panic!("too many rows"),
    }
    match Export::start().take(None) {
        ExportStep::Refused(flash) => assert_eq!(flash.level, FlashLevel::Error),
        _ => panic!("nothing was read"),
    }
}

#[test]
fn a_digest_round_trips_through_a_url() {
    let d = digest(b"body");
    let url = fingerprint("laterite.css", &d);
    assert_eq!(url, format!("laterite.{d}.css"));
    assert_eq!(strip_fingerprint(&url), ("laterite.css".to_string(), true));
}

#[test]
fn a_digest_is_the_start_of_the_blake3_hash() {
    assert_eq!(digest(b"body"), blake3::hash(b"body").to_hex()[..8].to_string());
}

#[test]
fn a_nested_key_keeps_its_directory() {
    let url = fingerprint("fields/ref-picker.js", "a1b2c3d4");
    assert_eq!(url, "fields/ref-picker.a1b2c3d4.js");
    assert_eq!(strip_fingerprint(&url), ("fields/ref-picker.js".to_string(), true));
}

#[test]
fn an_unfingerprinted_path_is_reported_as_such() {
    assert_eq!(strip_fingerprint("laterite.css"), ("laterite.css".to_string(), false));
    assert_eq!(strip_fingerprint("mark.svg"), ("mark.svg".to_string(), false));
}

#[test]
fn a_hex_word_in_a_real_name_is_not_mistaken_for_a_digest() {
    assert_eq!(
        strip_fingerprint("vendor.deadbeefcafe.js"),
        ("vendor.deadbeefcafe.js".to_string(), false)
    );
}

#[test]
fn if_none_match_recognises_the_tag_among_several() {
    let header = Some("\"aaaaaaaa\", W/\"a1b2c3d4\"");
    assert!(matches_etag(header, "a1b2c3d4"));
    assert!(!matches_etag(header, "ffffffff"));
}

#[test]
fn an_absent_header_never_matches() {
    assert!(!matches_etag(None, "a1b2c3d4"));
}

#[test]
fn an_unchanged_body_comes_back_bodyless() {
    let body = b"h1 { color: red }".to_vec();
    let tag = digest(&body);
    let resp = conditional(Some(&format!("W/\"{tag}\"")), "text/css", REVALIDATE, body);
    assert_eq!(resp.status, 304);
    assert!(resp.body.is_none());
}

#[test]
fn a_changed_body_comes_back_whole() {
    let resp = conditional(Some("W/\"stale\""), "text/css", REVALIDATE, b"new".to_vec());
    assert_eq!(resp.status, 200);
    assert!(!resp.etag.is_empty());
    assert_eq!(resp.body.as_deref(), Some(&b"new"[..]));
}

#[test]
fn an_asset_is_served_by_its_content_name() {
    let assets = vec![AdminAsset {
        key: "laterite.css".to_string(),
        mime: "text/css".to_string(),
        bytes: b"h1 {}".to_vec(),
    }];
    let urls = asset_urls(&assets);
    assert_eq!(urls[0].1, format!("laterite.{}.css", digest(b"h1 {}")));
    assert_eq!(preauth_asset(&urls, "/admin", "laterite.css"), format!("/admin/assets/{}", urls[0].1));
    assert_eq!(preauth_asset(&urls, "/admin", "other.css"), "/admin/assets/other.css");
    let answer = serve_asset(&assets, &urls[0].1, None).unwrap();
    assert_eq!((answer.status, answer.cache_control.as_str()), (200, IMMUTABLE));
    let answer = serve_asset(&assets, "laterite.css", None).unwrap();
    assert_eq!((answer.status, answer.cache_control.as_str()), (200, REVALIDATE));
    let stale = serve_asset(&assets, "laterite.00000000.css", None).unwrap();
    assert_eq!((stale.status, stale.cache_control.as_str()), (200, REVALIDATE));
    assert!(serve_asset(&assets, "nothing.css", None).is_none());
    assert!(find_asset(&assets, "laterite.css").is_some());
}

#[test]
fn builtin_assets_take_their_bytes_from_the_files() {
    let all = builtin_assets(&vec![("laterite.css".to_string(), b"x".to_vec())]);
    let css = find_asset(&all, "laterite.css").unwrap();
    assert_eq!(css.bytes, b"x");
    assert!(css.mime.starts_with("text/css"));
}

#[test]
fn page_assets_dedupe_preserve_order_and_classify() {
    let registry = vec![
        AdminAsset {
            key: "a.js".to_string(),
            mime: "text/javascript; charset=utf-8".to_string(),
            bytes: b"//".to_vec(),
        },
        AdminAsset {
            key: "b.css".to_string(),
            mime: "text/css; charset=utf-8".to_string(),
            bytes: b"body{}".to_vec(),
        },
    ];
    let urls = asset_urls(&registry);
    let keys: Vec<String> = ["a.js", "b.css", "a.js"].iter().map(|k| k.to_string()).collect();
    let assets = page_assets(&keys, "/admin", &registry, &urls);
    assert_eq!(assets.len(), 2);
    assert_eq!(assets[0].url, format!("/admin/assets/a.{}.js", digest(b"//")));
    assert!(!assets[0].css);
    assert_eq!(assets[1].url, format!("/admin/assets/b.{}.css", digest(b"body{}")));
    assert!(assets[1].css);
    assert_ne!(assets[0].url, assets[1].url);
}

#[test]
fn a_known_name_renders_its_glyph() {
    let markup = svg(&set(), "/s.svg", Some("users"));
    assert!(markup.contains("<svg"));
    assert!(markup.contains("#lat-users"));
    assert!(!markup.contains("lat-icon--missing"));
}

#[test]
fn an_unknown_runtime_name_is_visibly_missing() {
    assert!(svg(&set(), "/s.svg", Some("no-such-icon")).contains("lat-icon--missing"));
    let set = set();
    assert!(Icons::new(&set, "/s.svg").render(Some("no-such-icon")).contains("lat-icon--missing"));
}

#[test]
fn no_icon_renders_nothing() {
    assert_eq!(svg(&set(), "/s.svg", None), "");
}

#[test]
#[should_panic(expected = "did you mean")]
fn a_descriptor_typo_stops_the_boot_with_a_suggestion() {
    let nearest = vec!["users".to_string()];
    require(&set(), "settings item `acme.blog`", Some("userss"), &nearest).unwrap();
}

#[test]
fn a_known_descriptor_name_passes() {
    assert!(require(&set(), "settings item `acme.blog`", Some("users"), &vec![]).is_ok());
    assert!(require(&set(), "settings item `acme.blog`", None, &vec![]).is_ok());
}

#[test]
fn icon_svg_maps_names_and_falls_back() {
    assert!(icon_svg(Some("users")).contains("<circle"));
    assert!(icon_svg(Some("shield")).starts_with("<svg"));
    assert_eq!(icon_svg(Some("no-such-icon")), icon_svg(None));
    assert_eq!(icon_svg(Some("users")), USERS_ICON);
    assert_eq!(icon_svg(Some("shield")), SHIELD_ICON);
    assert_eq!(icon_svg(None), SLIDERS_ICON);
}

#[test]
fn identifier_validation() {
    assert!(valid_ident("backend_users"));
    assert!(valid_ident("created_at"));
    assert!(!valid_ident("Users"));
    assert!(!valid_ident("drop table"));
    assert!(!valid_ident("a-b"));
    assert!(!valid_ident(""));
    assert!(!valid_ident("1col"));
}

#[test]
fn like_escaping() {
    assert_eq!(like_escape("plain"), "plain");
    assert_eq!(like_escape("50%_off"), r"50\%\_off");
    assert_eq!(like_escape(r"a\b"), r"a\\b");
    assert_eq!(like_escape("%%%"), r"\%\%\%");
}

#[test]
fn markup_is_put_together_in_order() {
    let mut m = Markup::empty();
    m.push(Markup::raw_unchecked("<b>".to_string()));
    m.push(Markup::from_override("x".to_string()));
    assert_eq!(m.as_str(), "<b>x");
    assert_eq!(m.into_string(), "<b>x");
}

#[test]
fn a_name_without_an_extension_takes_the_digest_as_a_suffix() {
    assert_eq!(fingerprint("LICENSE", "a1b2c3d4"), "LICENSE.a1b2c3d4");
    assert_eq!(strip_fingerprint("LICENSE.a1b2c3d4"), ("LICENSE".to_string(), true));
    assert_eq!(strip_fingerprint("LICENSE"), ("LICENSE".to_string(), false));
}
