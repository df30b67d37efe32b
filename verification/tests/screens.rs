//! The chrome, the signed-out screens, preferences and the panel's boot.

use laterite_admin::access::PermissionSet;
use laterite_admin::guard::{open_request, Credential, Operator};
use laterite_admin::icons::{Icons, IconSet};
use laterite_admin::list::{ListColumn, ListConfig};
use laterite_admin::locale::{
    accept_entries, default_locale, locale_name, offered_locales, parse_accept_language,
    resolve_locale_chain, PSEUDO_LOCALE,
};
use laterite_admin::form::{FormConfig, FormField};
use laterite_admin::mount::{mount_resource, permits, Guard, Handler, Registries};
use laterite_admin::nav::{active_nav_path, resolve_nav_context, NavLink, Shell};
use laterite_admin::panel::{
    normalize_path, register, router, AdminConfig, AdminRegistry, BootError, Contributions, Panel,
};
use laterite_admin::preferences::{
    device, preferences_done, preferences_update, preferences_view, session_revoke,
    session_revoke_others, session_rows, vet_preferences, SessionInfo,
};
use laterite_admin::resource::{
    backend_users_list_config, builtin_resources, prefix_resource, rebase_resource, Resource,
};
use laterite_admin::routes::{PublicRouteReg, ScreenReg};
use laterite_admin::session::{Flash, FlashLevel, SessionData, SessionHandle};
use laterite_admin::settings::{builtin_settings, visible_settings, SettingsItem};
use laterite_admin::signin::{
    login_form, login_submit, logout, remember_issued, setup_created, setup_done, setup_form,
    setup_submit, vet_setup, LoginStep, SetupForm, SetupStep,
};
use laterite_admin::cells::builtin_column_registry;
use laterite_admin::contributed::{FieldTypes, TypeAnswer};
use laterite_admin::field::builtin_input_registry;
use laterite_admin::text::{Text, Translator};
use laterite_admin::zones::{
    configured_zone, date_locale, format_ts, picker_zones, resolve_display_tz, zone_offered,
    zone_options,
};

fn icons() -> IconSet {
    let names = ["layout-dashboard", "settings", "users", "shield", "palette", "list", "puzzle",
        "history", "user-cog", "plug", "scroll-text", "paintbrush", "key", "image", "file-clock",
        "clipboard-list"];
    IconSet { names: names.iter().map(|n| n.to_string()).collect() }
}

/// Every icon the built-in descriptors name.
fn all_icons() -> IconSet {
    let mut set = icons();
    for item in builtin_settings() {
        if let Some(name) = item.icon {
            set.names.push(name);
        }
    }
    set
}

fn booted(contributions: Contributions, config: &AdminConfig) -> Result<Panel, BootError> {
    let catalogs = vec![(
        "nl".to_string(),
        vec![("Invalid username or password.".to_string(), "Onjuiste gegevens.".to_string())],
    )];
    router(contributions, config, catalogs, all_icons(), b"<svg/>".to_vec(), &vec![])
}

fn panel() -> Panel {
    booted(Contributions::default(), &AdminConfig::default()).unwrap_or_else(|e| {
        panic!("{}", e.message(&vec![]))
    })
}

fn handle() -> SessionHandle {
    SessionHandle::open(SessionData::empty(), "tok".to_string())
}

fn operator() -> Operator {
    Operator {
        id: 1,
        username: "ada".to_string(),
        full_name: "ada Lovelace".to_string(),
        timezone: Some("Asia/Kolkata".to_string()),
        locale: None,
        permissions: PermissionSet::new(true, vec![]),
    }
}

fn known() -> Registries {
    Registries {
        column_types: builtin_column_registry(),
        types: FieldTypes::builtin(builtin_input_registry()),
        pickers: vec![],
        persisters: vec![],
    }
}

/// The tags of a header, its weights as numbers that order as they do.
fn accepted(header: &str) -> Vec<String> {
    let entries = accept_entries(header);
    let weights: Vec<i32> = entries
        .iter()
        .map(|(_, q)| q.as_ref().and_then(|q| q.parse::<f32>().ok()).unwrap_or(1.0))
        .map(|w| {
            let bits = w.to_bits() as i32;
            bits ^ ((((bits >> 31) as u32) >> 1) as i32)
        })
        .collect();
    parse_accept_language(&entries, &weights)
}

fn chain(preference: Option<&str>, header: Option<&str>, default: &str, loaded: &[&str]) -> Vec<String> {
    let loaded: Vec<String> = loaded.iter().map(|l| l.to_string()).collect();
    let tags = header.map(accepted).unwrap_or_default();
    resolve_locale_chain(preference, &tags, default, &loaded)
}

fn write_form() -> FormConfig {
    FormConfig {
        entity: "widgets".to_string(),
        title: Text::new("Widgets"),
        base_path: "/widgets".to_string(),
        id_field: "id".to_string(),
        fields: vec![],
        persist: None,
    }
}

fn resource_with(form: Option<FormConfig>, permission: Option<&str>) -> Resource {
    let mut resource = Resource::new("/widgets", Text::new("Widgets"), backend_users_list_config());
    if let Some(form) = form {
        resource = resource.form(form);
    }
    if let Some(permission) = permission {
        resource = resource.permission(permission);
    }
    resource
}

#[test]
#[should_panic(expected = "must declare a permission")]
fn write_resource_without_permission_aborts_boot() {
    let resource = resource_with(Some(write_form()), None);
    if let Err(e) = mount_resource(resource, 0, &known()) {
        panic!("{e}");
    }
}

#[test]
#[should_panic(expected = "uses unregistered type `nope`")]
fn unregistered_column_type_aborts_boot() {
    let mut resource = resource_with(None, None);
    let mut score = ListColumn::new("score", "Score");
    score.column_type = "nope".into();
    resource.list.columns.push(score);
    if let Err(e) = mount_resource(resource, 0, &known()) {
        panic!("{e}");
    }
}

#[test]
fn read_only_resource_may_omit_permission() {
    assert!(mount_resource(resource_with(None, None), 0, &known()).is_ok());
}

#[test]
fn a_guarded_resource_mounts_its_form_behind_the_permission() {
    let mounted = mount_resource(resource_with(Some(write_form()), Some("acme.widgets")), 3, &known())
        .ok()
        .unwrap();
    let new = mounted.routes.iter().find(|r| r.handler == Handler::New(3)).unwrap();
    assert_eq!(new.path, "/widgets/new");
    let holder = PermissionSet::new(false, vec!["acme.widgets".to_string()]);
    assert!(permits(&new.guard, &holder));
    assert!(!permits(&new.guard, &PermissionSet::new(false, vec![])));
    assert!(mounted.routes.iter().all(|r| !matches!(r.guard, Guard::Open)));
}

fn shell<'a>(set: &'a IconSet, urls: &'a Vec<(String, String)>) -> Shell<'a> {
    Shell::new(
        "/admin",
        "Laterite".to_string(),
        &vec![NavLink { label: Text::new("Dashboard"), path: "/admin".to_string(), icon: None }],
        "ada".to_string(),
        None,
        "UTC",
        vec![],
        Some("/admin"),
        "tok".to_string(),
        &vec![Flash::say(FlashLevel::Info, "Hello")],
        Translator::new("en"),
        urls,
        "https://acme.test".to_string(),
        set,
        "/s.svg",
    )
}

#[test]
fn shell_localizes_through_the_translator_and_falls_back() {
    let (set, urls) = (icons(), vec![]);
    let shell = shell(&set, &urls);
    assert_eq!(shell.t("Save"), "Save");
    assert_eq!(shell.tt(&Text::new("Discard")), "Discard");
}

#[test]
fn shell_tf_interpolates_integer_arguments() {
    let (set, urls) = (icons(), vec![]);
    let shell = shell(&set, &urls);
    assert_eq!(
        shell.tf("Page {page} of {pages}", &vec![("page".to_string(), 2), ("pages".to_string(), 5)]),
        "Page 2 of 5"
    );
    assert_eq!(shell.tfs("Hello {name}", &vec![("name".to_string(), "Ada".to_string())]), "Hello Ada");
}

#[test]
fn a_shell_carries_the_requests_chrome() {
    let (set, urls) = (icons(), vec![("a.css".to_string(), "a.12345678.css".to_string())]);
    let shell = shell(&set, &urls);
    assert_eq!(shell.initial, "A");
    assert_eq!(shell.tz, "UTC");
    assert!(shell.nav[0].active);
    assert_eq!(shell.flash[0].text, "Hello");
    assert_eq!(shell.asset("a.css"), "/admin/assets/a.12345678.css");
    assert_eq!(shell.site_url(), "https://acme.test");
    assert!(shell.icon("users").contains("#lat-users"));
    assert_eq!(shell.locale(), "en");
}

#[test]
fn display_tz_prefers_a_valid_operator_preference() {
    assert_eq!(resolve_display_tz(Some("Asia/Kolkata"), "UTC"), "Asia/Kolkata");
}

#[test]
fn display_tz_falls_back_when_unset_or_invalid() {
    let default = "Europe/London";
    assert_eq!(resolve_display_tz(None, default), default);
    assert_eq!(resolve_display_tz(Some("Not/AZone"), default), default);
    assert_eq!(resolve_display_tz(Some(""), default), default);
    assert_eq!(configured_zone("Not/AZone"), "UTC");
}

#[test]
fn accept_language_orders_by_weight_and_drops_wildcard() {
    assert_eq!(accepted("en-US,en;q=0.9,kn;q=0.8"), vec!["en-US", "en", "kn"]);
    assert_eq!(accepted("en;q=0.5,kn,*;q=0.1"), vec!["kn", "en"]);
}

#[test]
fn locale_chain_prefers_operator_then_header_then_default() {
    let loaded = ["hi", "kn", "ta"];
    assert_eq!(
        chain(Some("kn"), Some("ta;q=0.9,hi;q=0.8"), "en", &loaded),
        vec!["kn", "ta", "hi", "en"]
    );
    assert_eq!(chain(Some("kn"), Some("en;q=0.9"), "ta", &loaded), vec!["kn", "en", "ta"]);
    assert_eq!(chain(Some("kn-IN"), None, "en", &loaded), vec!["kn", "en"]);
}

#[test]
fn locale_chain_skips_unserveable_and_defaults_to_en() {
    let loaded = ["hi"];
    assert_eq!(chain(Some("fr"), Some("de,es"), "zz", &loaded), vec!["en"]);
    assert_eq!(chain(None, None, "en", &loaded), vec!["en"]);
    assert_eq!(chain(Some("hi"), None, "en", &loaded), vec!["hi", "en"]);
    assert_eq!(chain(Some(PSEUDO_LOCALE), None, "en", &loaded), vec![PSEUDO_LOCALE, "en"]);
}

#[test]
fn locales_are_offered_and_named() {
    let loaded = vec!["kn".to_string()];
    assert_eq!(offered_locales(&loaded), ["en", "kn"]);
    assert_eq!(locale_name("en"), "English");
    assert_eq!(locale_name("kn"), "kn");
    assert_eq!(default_locale("kn-IN", &loaded), "kn");
    assert_eq!(default_locale("fr", &loaded), "en");
}

#[test]
fn the_most_specific_catalog_wins() {
    let catalogs = vec![
        ("nl".to_string(), vec![("Save".to_string(), "Opslaan".to_string())]),
        ("de".to_string(), vec![
            ("Save".to_string(), "Sichern".to_string()),
            ("Cancel".to_string(), "Abbrechen".to_string()),
        ]),
    ];
    let tr = Translator::with_chain(&vec!["nl".to_string(), "de".to_string(), "en".to_string()], &catalogs);
    assert_eq!(tr.t(&Text::new("Save")), "Opslaan");
    assert_eq!(tr.t(&Text::new("Cancel")), "Abbrechen");
    assert_eq!(tr.t(&Text::new("Other")), "Other");
    assert_eq!(tr.locale(), "nl");
    let counted = Text::counted("{n} row", "{n} rows", 2).arg("n", "2");
    assert_eq!(tr.t(&counted), "2 rows");
}

fn settings_item(code: &str, permission: Option<&str>) -> SettingsItem {
    let item = SettingsItem::new(code, code, vec![]).category("General").order(1);
    match permission {
        Some(p) => item.permission(p),
        None => item,
    }
}

#[test]
fn settings_visibility_respects_permissions() {
    let items = vec![
        settings_item("public", None),
        settings_item("gated", Some("backend.manage_users")),
    ];
    let none = PermissionSet::new(false, vec![]);
    let codes: Vec<String> = visible_settings(&items, &none).iter().map(|i| i.code.clone()).collect();
    assert_eq!(codes, ["public"]);
    let granted = PermissionSet::new(false, vec!["backend.manage_users".to_string()]);
    assert_eq!(visible_settings(&items, &granted).len(), 2);
    let superuser = PermissionSet::new(true, vec![]);
    assert_eq!(visible_settings(&items, &superuser).len(), 2);
}

#[test]
fn context_sidebar_follows_settings_links() {
    let items = builtin_settings();
    let superuser = PermissionSet::new(true, vec![]);
    let tr = Translator::new("en");
    let set = icons();
    let icons = Icons::new(&set, "/s.svg");
    let nav: Vec<NavLink> = vec![];
    let sidebar =
        |path: &str| resolve_nav_context(&nav, &items, "/admin", &superuser, path, &tr, &icons).0;
    let active_path = |path: &str| -> Option<String> {
        sidebar(path)
            .into_iter()
            .flat_map(|g| g.items)
            .find(|i| i.active)
            .map(|i| i.path)
    };
    assert_eq!(active_path("/admin/users").as_deref(), Some("/admin/users"));
    assert_eq!(active_path("/admin/roles/42/edit").as_deref(), Some("/admin/roles"));
    assert!(!sidebar("/admin/settings").is_empty());
    assert_eq!(active_path("/admin/settings"), None);
    assert_eq!(
        active_path("/admin/settings/branding").as_deref(),
        Some("/admin/settings/branding")
    );
    assert_eq!(active_path("/admin/settings/laterite.brand"), None);
    assert_eq!(active_path("/admin/settings/laterite/brand"), None);
    assert!(sidebar("/admin").is_empty());
}

#[test]
fn active_nav_lights_the_right_tab() {
    let nav = vec![
        NavLink {
            label: Text::new("Dashboard"),
            path: "/admin".to_string(),
            icon: Some("layout-dashboard".to_string()),
        },
        NavLink { label: Text::new("Pages"), path: "/admin/pages".to_string(), icon: None },
        NavLink {
            label: Text::new("Settings"),
            path: "/admin/settings".to_string(),
            icon: Some("settings".to_string()),
        },
    ];
    assert_eq!(active_nav_path(&nav, "/admin", false, "/admin").as_deref(), Some("/admin"));
    assert_eq!(
        active_nav_path(&nav, "/admin", false, "/admin/pages/7/edit").as_deref(),
        Some("/admin/pages")
    );
    assert_eq!(active_nav_path(&nav, "/admin", false, "/admin/pages-archive"), None);
    assert_eq!(active_nav_path(&nav, "/admin", false, "/admin/preferences"), None);
    assert_eq!(
        active_nav_path(&nav, "/admin", true, "/admin/users").as_deref(),
        Some("/admin/settings")
    );
    assert_eq!(
        active_nav_path(&nav, "/admin", true, "/admin/settings").as_deref(),
        Some("/admin/settings")
    );
}

#[test]
fn a_mount_path_is_normalised() {
    assert_eq!(normalize_path("admin"), "/admin");
    assert_eq!(normalize_path(" /manage/ "), "/manage");
    assert_eq!(normalize_path(""), "/admin");
}

#[test]
fn a_bare_panel_boots() {
    let panel = panel();
    assert_eq!(panel.admin_path, "/admin");
    assert_eq!(panel.timezone, "UTC");
    assert_eq!(panel.default_locale, "en");
    assert!(panel.sprite_url.starts_with("/admin/assets/icons."));
    assert!(panel.sprite_url.ends_with(".svg"));
    assert_eq!(panel.nav.first().unwrap().path, "/admin");
    assert_eq!(panel.nav.last().unwrap().path, "/admin/settings");
    assert_eq!(panel.mounts.len(), builtin_resources().len());
    assert!(panel.routes.iter().any(|r| r.path == "/admin/users"));
    for route in &panel.routes {
        let open = matches!(route.guard, Guard::Open);
        let public = matches!(
            route.handler,
            Handler::Login | Handler::Setup | Handler::Asset | Handler::PublicRoute(_)
        );
        assert!(!open || public, "{}", route.path);
    }
}

#[test]
fn contributions_take_their_place_in_the_panel() {
    let mut c = Contributions::default();
    c.add_resource(resource_with(Some(write_form()), Some("acme.widgets")));
    c.add_screen(ScreenReg::new("/import", "acme.import").in_menu(Text::new("Import")));
    c.add_public_route(PublicRouteReg::new("/robots.txt"));
    let mut config = AdminConfig::default();
    config.path = "manage/".to_string();
    config.app_name = "  ".to_string();
    let panel = booted(c, &config).ok().unwrap();
    assert_eq!(panel.admin_path, "/manage");
    assert_eq!(panel.app_name, "Laterite");
    let tabs: Vec<&str> = panel.nav.iter().map(|n| n.path.as_str()).collect();
    assert!(tabs.contains(&"/manage/widgets"));
    assert!(panel.routes.iter().any(|r| r.path == "/manage/widgets/new"));
    assert!(panel.routes.iter().any(|r| r.path == "/robots.txt"));
}

#[test]
fn a_bad_or_repeated_name_stops_the_boot() {
    let mut c = Contributions::default();
    c.add_persister("acme.save".to_string());
    c.add_persister("acme.save".to_string());
    match booted(c, &AdminConfig::default()) {
        Err(BootError::Refused(e)) => assert!(e.contains("acme.save"), "{e}"),
        _ => panic!("a repeated name is refused"),
    }
    assert!(register(vec!["a".to_string()], &vec!["b".to_string()], "persister").is_ok());
    assert!(register(vec!["a".to_string()], &vec!["a".to_string()], "persister").is_err());
}

#[test]
fn an_unknown_icon_stops_the_boot() {
    let mut c = Contributions::default();
    c.add_settings(SettingsItem::new("acme.blog", "Blog", vec![]).icon("userss"));
    match booted(c, &AdminConfig::default()) {
        Err(e) => {
            let message = e.message(&vec!["users".to_string()]);
            assert!(message.contains("userss"), "{message}");
            assert!(message.contains("did you mean users?"), "{message}");
        }
        Ok(_) => panic!("the icon is not in the set"),
    }
}

#[test]
fn a_resource_moves_with_its_base() {
    let moved = prefix_resource("/admin", resource_with(Some(write_form()), Some("p")));
    assert_eq!(moved.base_path, "/admin/widgets");
    assert_eq!(moved.form.unwrap().base_path, "/admin/widgets");
    let rebased = rebase_resource("/places", resource_with(Some(write_form()), Some("p")));
    assert_eq!(rebased.base_path, "/places");
}

#[test]
fn a_page_shows_its_flash_once() {
    let panel = panel();
    let mut session = handle();
    session.push_flash(FlashLevel::Success, Text::new("Saved."));
    let posted = open_request(&panel, &mut session, &operator(), "POST", "/admin/users", &vec![], "Acme".to_string());
    assert!(posted.flash.is_empty());
    let shown = open_request(&panel, &mut session, &operator(), "GET", "/admin/users", &vec![], "Acme".to_string());
    assert_eq!(shown.flash[0].text, "Saved.");
    assert_eq!(shown.brand, "Acme");
    assert_eq!(shown.initial, "A");
    assert_eq!(shown.tz, "Asia/Kolkata");
    assert_eq!(shown.csrf_token, "tok");
    assert!(!shown.sidebar.is_empty());
    assert!(session.data.flash.is_empty());
}

#[test]
fn the_login_screen_is_shown_once_an_operator_exists() {
    let panel = panel();
    match login_form(&panel, Some(true), "Acme".to_string(), &vec![]) {
        LoginStep::Show(s) => {
            assert_eq!(s.base, "/admin");
            assert!(s.error.is_none());
            assert_eq!(s.locale(), "en");
        }
        _ => panic!("the screen is shown"),
    }
    match login_form(&panel, Some(false), "Acme".to_string(), &vec![]) {
        LoginStep::Go(to) => assert_eq!(to.to, "/admin/setup"),
        _ => panic!("a fresh install sets up first"),
    }
    match login_form(&panel, None, "Acme".to_string(), &vec![]) {
        LoginStep::Failed(page) => assert_eq!(page.status, 500),
        _ => panic!("the store failed"),
    }
}

#[test]
fn a_refused_login_says_so_in_the_browsers_language() {
    let panel = panel();
    match login_submit(&panel, None, None, "Acme".to_string(), &vec!["nl-NL".to_string()]) {
        LoginStep::Show(s) => {
            assert_eq!(s.error.as_deref(), Some("Onjuiste gegevens."));
            assert_eq!(s.t("Username"), "Username");
        }
        _ => panic!("the screen is shown again"),
    }
}

#[test]
fn a_login_remembers_only_when_asked() {
    let panel = panel();
    match login_submit(&panel, Some("t".to_string()), None, "A".to_string(), &vec![]) {
        LoginStep::SignedIn { cookies, to } => {
            assert_eq!(cookies.len(), 1);
            assert_eq!(to.to, "/admin");
        }
        _ => panic!("signed in"),
    }
    match login_submit(&panel, Some("t".to_string()), Some("on"), "A".to_string(), &vec![]) {
        LoginStep::IssueRemember { token } => {
            let issued = Credential { cookie: "c".to_string(), seconds: 9 };
            match remember_issued(&panel, token, Some(issued)) {
                LoginStep::SignedIn { cookies, .. } => assert_eq!(cookies[1].value, "c"),
                _ => panic!("signed in"),
            }
        }
        _ => panic!("a credential is issued first"),
    }
}

fn setup(username: &str, password: &str, zone: &str) -> SetupForm {
    SetupForm {
        username: username.to_string(),
        first_name: " Ada ".to_string(),
        last_name: "  ".to_string(),
        email: "ada@example.test".to_string(),
        password: password.to_string(),
        timezone: zone.to_string(),
    }
}

#[test]
fn setup_creates_the_first_operator_only() {
    let panel = panel();
    match setup_submit(&panel, Some(false), &setup(" ada ", " pw ", "UTC"), "A".to_string(), &vec![]) {
        SetupStep::Create(new) => {
            assert_eq!(new.username, "ada");
            assert_eq!(new.first_name, "Ada");
            assert_eq!(new.last_name, None);
            assert_eq!(new.password, " pw ");
            assert_eq!(new.timezone.as_deref(), Some("UTC"));
        }
        _ => panic!("the account is created"),
    }
    match setup_submit(&panel, Some(true), &setup("ada", "pw", "UTC"), "A".to_string(), &vec![]) {
        SetupStep::ToLogin(to) => assert_eq!(to.to, "/admin/login"),
        _ => panic!("setup is closed"),
    }
    assert!(matches!(
        setup_submit(&panel, None, &setup("ada", "pw", "UTC"), "A".to_string(), &vec![]),
        SetupStep::Failed(_)
    ));
    assert!(matches!(setup_form(&panel, Some(true), "A".to_string(), &vec![]), SetupStep::ToLogin(_)));
}

#[test]
fn a_setup_with_something_missing_is_shown_again() {
    let panel = panel();
    let shown = |form: SetupForm| match setup_submit(&panel, Some(false), &form, "A".to_string(), &vec![]) {
        SetupStep::Show(s) => s.error.unwrap(),
        _ => panic!("the form is refused"),
    };
    let required = "Username, first name, email, and password are all required.";
    assert_eq!(shown(setup(" ", "pw", "UTC")), required);
    assert_eq!(shown(setup("ada", "", "UTC")), required);
    assert_eq!(shown(setup("ada", "pw", "Not/AZone")), "That is not a recognised timezone.");
    assert!(vet_setup(&setup("ada", "pw", "x"), true).is_ok());
    match setup_created(&panel, false, &setup("ada", "pw", "UTC"), "A".to_string(), &vec![]) {
        SetupStep::Show(s) => {
            assert!(s.error.unwrap().starts_with("Could not create the account."));
            assert!(s.zones.iter().any(|z| z.selected && z.name == "UTC"));
        }
        _ => panic!("the account was refused"),
    }
    match setup_created(&panel, true, &setup(" ada ", "pw", "UTC"), "A".to_string(), &vec![]) {
        SetupStep::Authenticate { username, password } => {
            assert_eq!((username.as_str(), password.as_str()), ("ada", "pw"));
        }
        _ => panic!("the new administrator signs in"),
    }
    let (cookies, to) = setup_done(&panel, Some("t".to_string()));
    assert_eq!((cookies.len(), to.to.as_str()), (1, "/admin"));
    let (cookies, to) = setup_done(&panel, None);
    assert_eq!((cookies.len(), to.to.as_str()), (0, "/admin/login"));
}

#[test]
fn signing_out_takes_the_credential_along() {
    let out = logout(&panel(), Some("t".to_string()), Some("c".to_string()));
    assert_eq!(out.end.as_deref(), Some("t"));
    assert_eq!(out.revoke.as_deref(), Some("c"));
    assert_eq!(out.removals.len(), 2);
    assert_eq!(out.to.to, "/admin/login");
}

#[test]
fn preferences_are_checked_before_they_are_stored() {
    let offered = vec!["en".to_string(), "nl".to_string()];
    let kept = preferences_update(" Asia/Kolkata ", "nl", &offered).ok().unwrap();
    assert_eq!(kept.timezone.as_deref(), Some("Asia/Kolkata"));
    assert_eq!(kept.locale.as_deref(), Some("nl"));
    let cleared = preferences_update(" ", "", &offered).ok().unwrap();
    assert!(cleared.timezone.is_none() && cleared.locale.is_none());
    let zone = preferences_update("Not/AZone", "xx", &offered).err().unwrap();
    assert_eq!(zone.source(), "That is not a recognised timezone.");
    let language = vet_preferences("UTC", true, "xx", &offered).err().unwrap();
    assert_eq!(language.source(), "That is not a supported language.");
}

#[test]
fn the_preferences_screen_selects_what_is_stored() {
    let (set, urls) = (icons(), vec![]);
    let shell = shell(&set, &urls);
    let offered = vec!["en".to_string(), "nl".to_string()];
    let screen = preferences_view(&shell, Some("Europe/London"), None, "UTC", "en", &offered, vec![], Some(Text::new("No.")));
    assert!(!screen.inherits);
    assert!(screen.inherits_locale);
    assert_eq!(screen.default_locale, "English");
    assert_eq!(screen.effective_tz, "UTC");
    assert_eq!(screen.error.as_deref(), Some("No."));
    assert!(screen.locales.iter().all(|l| !l.selected));
    let chosen: Vec<&str> = screen.zones.iter().filter(|z| z.selected).map(|z| z.name.as_str()).collect();
    assert_eq!(chosen, ["Europe/London"]);
}

#[test]
fn sessions_are_shown_in_the_operators_own_time() {
    let all = vec![SessionInfo {
        id: "7".to_string(),
        created_at: "2026-01-02T03:04:00+00:00".to_string(),
        last_seen_at: "2026-01-02T03:04:00+00:00".to_string(),
        expires_at: "not a time".to_string(),
        user_agent: None,
        ip_address: None,
        current: true,
    }];
    let rows = session_rows(Some(&all), "Asia/Kolkata", "en");
    assert_eq!(rows[0].started, "2 Jan 2026, 08:34");
    assert_eq!(rows[0].expires, "not a time");
    assert_eq!(rows[0].device, "-");
    assert_eq!(rows[0].ip_address, "");
    assert!(rows[0].current);
    assert!(session_rows(None, "UTC", "en").is_empty());
    assert_eq!(device(Some("something-bespoke/1.0")), "something-bespoke/1.0");
}

#[test]
fn ending_sessions_is_reported() {
    let mut session = handle();
    assert_eq!(session_revoke(&mut session, Some(true), "/admin").to, "/admin/preferences");
    session_revoke(&mut session, Some(false), "/admin");
    session_revoke(&mut session, None, "/admin");
    let (cookie, _) = session_revoke_others(&mut session, true, "/admin");
    assert_eq!(cookie.path, "/admin");
    session_revoke_others(&mut session, false, "/admin");
    assert!(preferences_done(&mut session, false, "/admin").is_err());
    assert_eq!(preferences_done(&mut session, true, "/admin").ok().unwrap().to, "/admin/preferences");
    let said: Vec<String> = session.take_flash().iter().map(|f| f.text.source().to_string()).collect();
    assert_eq!(said, [
        "That session was signed out.",
        "That session had already ended.",
        "That session could not be signed out.",
        "Every other session was signed out.",
        "Those sessions could not be signed out.",
        "Preferences saved.",
    ]);
}

#[test]
fn timestamps_read_in_a_zone_and_a_locale() {
    assert_eq!(format_ts("2026-01-02T03:04:00Z", "UTC", "fr_FR", "%-d %b %Y"), "2 janv. 2026");
    assert_eq!(date_locale("fr-FR"), "fr_FR");
    assert_eq!(date_locale("fr"), "en_US");
    assert!(!zone_offered("Asia/Tel_Aviv"));
    let zones = picker_zones(Some("UTC"));
    assert!(zones.iter().any(|z| z.name == "UTC" && z.selected));
    assert!(zones.iter().all(|z| z.name != "Asia/Jerusalem"));
    let two = zone_options(&vec!["UTC".to_string(), "Asia/Jerusalem".to_string()], None);
    assert_eq!(two.len(), 1);
}

#[test]
fn a_default_list_is_read_only() {
    let list = ListConfig::default();
    assert!(!list.creatable && !list.deletable && !list.exportable);
    assert_eq!(list.per_page, 25);
}

#[test]
fn a_form_with_a_contributed_field_boots() {
    let form = || {
        let mut form = write_form();
        form.fields.push(FormField::of("place", Text::new("Place"), "acme.map"));
        form
    };
    let resource = || resource_with(Some(form()), Some("acme.write"));
    let refused = mount_resource(resource(), 0, &known()).err().unwrap();
    assert!(refused.contains("unregistered type `acme.map`"), "{refused}");

    let mut registries = known();
    registries.types.names.push("acme.map".to_string());
    let mounted = mount_resource(resource(), 0, &registries).ok().unwrap();
    assert!(mounted.form.is_some());

    registries.types.answers.push(TypeAnswer {
        field_type: "acme.map".to_string(),
        options: None,
        outcome: Err("a map needs a zoom".to_string()),
    });
    let refused = mount_resource(resource(), 0, &registries).err().unwrap();
    assert!(refused.contains("a map needs a zoom"), "{refused}");

    let mut contributions = Contributions::default();
    contributions.resources.push(resource());
    contributions.field_types.push("acme.map".to_string());
    let panel = booted(contributions, &AdminConfig::default()).ok().unwrap();
    assert_eq!(panel.types.names, ["acme.map"]);
}
