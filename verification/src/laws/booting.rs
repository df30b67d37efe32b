//! What starting the panel promises, and what it says before anybody has signed in.

use vstd::prelude::*;

use crate::access::PermissionModel;
use crate::assets::{asset_path, AssetModel};
use crate::cells::{builtin_column_keys, column_key, BuiltinColumn};
use crate::clientip::{address_of, hops_of, trusts};
use crate::field::{leaf_resolved, named, LeafKind, LeafOptionsModel, LeafResolvedModel};
use crate::field_view::{kind_key, FieldKind};
use crate::guard::{request_chain, CredentialModel};
use crate::http_cache::{digest_of, is_digest, law_fingerprint_round_trips, served};
use crate::laws::routing::{
    law_a_registry_holds_each_name_once, law_each_resource_is_mounted,
    law_every_named_icon_is_in_the_set,
};
use crate::laws::values::lemma_kept;
use crate::list::ColumnModel;
use crate::list_screen::any_searchable;
use crate::list_view::{params_readable, values_named};
use crate::locale::{base_of, candidates, law_the_operators_choice_leads, serves};
use crate::mount::mounted;
use crate::panel::{
    all_resources, all_settings, boot_menu, boot_refusal, builtin_field_keys, known_names,
    loaded_locales, picker_names, source_names, ContributionsModel, Panel,
};
use crate::resource::{builtin_resource_models, prefixed};
use crate::roles::{role_step, submitted_role, RoleStep};
use crate::settings::builtin_settings_models;
use crate::signin::{leads_to_login, signed_out_locale, signs_in, LoginStep, SetupStep};
use crate::strs::{only, split_on, trimmed};

verus! {

/// Every built-in field type and column type is registered from the start, so a module
/// cannot take the name of one.
pub proof fn law_every_built_in_type_is_registered(kind: FieldKind, c: BuiltinColumn)
    ensures
        kind != FieldKind::Leaf(LeafKind::Contributed) ==> builtin_field_keys().contains(
            kind_key(kind),
        ),
        builtin_column_keys().contains(column_key(c)),
{
    let keys = builtin_field_keys();
    assert(keys[0] == kind_key(FieldKind::Leaf(LeafKind::Text)));
    assert(keys[1] == kind_key(FieldKind::Leaf(LeafKind::Textarea)));
    assert(keys[2] == kind_key(FieldKind::Repeater));
    assert(keys[3] == kind_key(FieldKind::Leaf(LeafKind::Select)));
    assert(keys[4] == kind_key(FieldKind::Leaf(LeafKind::Switch)));
    assert(keys[5] == kind_key(FieldKind::Leaf(LeafKind::Date)));
    assert(keys[6] == kind_key(FieldKind::Leaf(LeafKind::Password)));
    assert(keys[7] == kind_key(FieldKind::Leaf(LeafKind::Radio)));
    assert(keys[8] == kind_key(FieldKind::Leaf(LeafKind::Reference)));
    let columns = builtin_column_keys();
    assert(columns[0] == column_key(BuiltinColumn::Text));
    assert(columns[1] == column_key(BuiltinColumn::DateTime));
    assert(columns[2] == column_key(BuiltinColumn::Date));
    assert(columns[3] == column_key(BuiltinColumn::Time));
    assert(columns[4] == column_key(BuiltinColumn::Bool));
    assert(columns[5] == column_key(BuiltinColumn::StatusPill));
    match c {
        BuiltinColumn::Text => {},
        BuiltinColumn::DateTime => {},
        BuiltinColumn::Date => {},
        BuiltinColumn::Time => {},
        BuiltinColumn::Bool => {},
        BuiltinColumn::StatusPill => {},
    }
}

/// A panel that starts holds together: every field type and picker source a module brings
/// is well named and has its name to itself, no field type takes a built-in one's, every
/// icon that is named is in the set, and every resource is mounted.
pub proof fn law_a_panel_that_starts_holds_together(
    c: ContributionsModel,
    admin: Seq<char>,
    icons: Seq<Seq<char>>,
    i: int,
    j: int,
)
    requires
        boot_refusal(c, admin, icons) is None,
        c.resources.len() + builtin_resource_models().len() <= usize::MAX,
    ensures
        0 <= i < c.field_types.len() ==> named(c.field_types[i], true)
            && !builtin_field_keys().contains(c.field_types[i]),
        0 <= i < j < c.field_types.len() ==> c.field_types[i] != c.field_types[j],
        0 <= i < j < c.picker_sources.len() ==> c.picker_sources[i].name
            != c.picker_sources[j].name,
        0 <= i < j < c.persisters.len() ==> c.persisters[i] != c.persisters[j],
        0 <= i < c.column_types.len() ==> named(c.column_types[i], true)
            && !builtin_column_keys().contains(c.column_types[i]),
        0 <= i < c.settings.len() ==> (c.settings[i].icon matches Some(n) ==> icons.contains(n)),
        0 <= i < c.resources.len() ==> mounted(
            prefixed(admin, c.resources[i]),
            (builtin_resource_models().len() + i) as usize,
            known_names(c),
        ) is Ok,
{
    law_a_registry_holds_each_name_once(builtin_field_keys(), c.field_types, "field type"@, i, j);
    law_a_registry_holds_each_name_once(Seq::empty(), c.persisters, "persister"@, i, j);
    law_a_registry_holds_each_name_once(builtin_column_keys(), c.column_types, "column type"@, i, j);
    let names = source_names(c.picker_sources);
    law_a_registry_holds_each_name_once(Seq::empty(), names, "picker source"@, i, j);
    if 0 <= i < c.picker_sources.len() {
        assert(names[i] == c.picker_sources[i].name);
    }
    if 0 <= j < c.picker_sources.len() {
        assert(names[j] == c.picker_sources[j].name);
    }
    law_every_named_icon_is_in_the_set(all_settings(c), boot_menu(c, admin), icons);
    if 0 <= i < c.settings.len() {
        let at = builtin_settings_models().len() + i;
        assert(all_settings(c)[at] == c.settings[i]);
    }
    if 0 <= i < c.resources.len() {
        let all = all_resources(c, admin);
        let at = builtin_resource_models().len() + i;
        assert(all.len() == builtin_resource_models().len() + c.resources.len());
        assert(all[at] == prefixed(admin, c.resources[i]));
        law_each_resource_is_mounted(all, known_names(c), at);
    }
}

/// A panel does not start over a name that is taken, an icon that is not there, or a
/// resource that cannot be mounted.
pub proof fn law_what_does_not_hold_together_does_not_start(
    c: ContributionsModel,
    admin: Seq<char>,
    icons: Seq<Seq<char>>,
    kind: FieldKind,
    i: int,
    j: int,
)
    requires
        c.resources.len() + builtin_resource_models().len() <= usize::MAX,
    ensures
        0 <= i < c.field_types.len() && kind != FieldKind::Leaf(LeafKind::Contributed)
            && c.field_types[i] == kind_key(kind) ==> boot_refusal(c, admin, icons) is Some,
        0 <= i < j < c.picker_sources.len() && c.picker_sources[i].name
            == c.picker_sources[j].name ==> boot_refusal(c, admin, icons) is Some,
        0 <= i < c.settings.len() && c.settings[i].icon is Some && !icons.contains(
            c.settings[i].icon->0,
        ) ==> boot_refusal(c, admin, icons) is Some,
        0 <= i < c.resources.len() && mounted(
            prefixed(admin, c.resources[i]),
            (builtin_resource_models().len() + i) as usize,
            known_names(c),
        ) is Err ==> boot_refusal(c, admin, icons) is Some,
{
    law_every_built_in_type_is_registered(kind, BuiltinColumn::Text);
    if boot_refusal(c, admin, icons) is None {
        law_a_panel_that_starts_holds_together(c, admin, icons, i, j);
    }
}

/// What a module brings stands beside what the panel has, and takes nothing of it away.
pub proof fn law_contributions_stand_beside_the_built_in(
    c: ContributionsModel,
    admin: Seq<char>,
    i: int,
)
    ensures
        0 <= i < builtin_settings_models().len() ==> all_settings(c)[i]
            == builtin_settings_models()[i],
        0 <= i < c.settings.len() ==> all_settings(c)[builtin_settings_models().len() + i]
            == c.settings[i],
        all_settings(c).len() == builtin_settings_models().len() + c.settings.len(),
        0 <= i < builtin_resource_models().len() ==> all_resources(c, admin)[i].base_path == admin
            + builtin_resource_models()[i].base_path && all_resources(c, admin)[i].permission
            == builtin_resource_models()[i].permission,
        0 <= i < c.resources.len() ==> boot_menu(c, admin)[1 + i].path == admin
            + c.resources[i].base_path && boot_menu(c, admin)[1 + i].label
            == c.resources[i].nav_label,
        all_resources(c, admin).len() == builtin_resource_models().len() + c.resources.len(),
{
}

/// A source that a module brings can be referred to by its name.
pub proof fn law_a_contributed_source_can_be_referred_to(
    c: ContributionsModel,
    i: int,
    options: LeafOptionsModel,
)
    requires
        0 <= i < c.picker_sources.len(),
        picker_names(c) is Ok,
        options.source == Some(c.picker_sources[i].name),
    ensures
        leaf_resolved(
            LeafKind::Reference,
            Some(options),
            known_names(c).types.inputs,
            known_names(c).pickers,
        ) == Ok::<Option<LeafResolvedModel>, Seq<char>>(
            Some(LeafResolvedModel::Reference(c.picker_sources[i].name)),
        ),
{
    let names = source_names(c.picker_sources);
    law_a_registry_holds_each_name_once(Seq::empty(), names, "picker source"@, i, i);
    assert(names[i] == c.picker_sources[i].name);
    assert(Seq::<Seq<char>>::empty() + names =~= names);
    assert(known_names(c).pickers[i] == c.picker_sources[i].name);
    assert(known_names(c).pickers.contains(c.picker_sources[i].name));
}

/// A file is found under the address its content gives it.
pub proof fn law_a_file_is_found_under_its_address(a: AssetModel)
    ensures
        is_digest(digest_of(a.bytes)) ==> served(asset_path(a)) == (a.key, true),
{
    if is_digest(digest_of(a.bytes)) {
        law_fingerprint_round_trips(a.key, digest_of(a.bytes));
    }
}

// --------------------------------------------------------------------- languages
/// A request is answered in the operator's own language where the panel has it, and a
/// page for nobody in particular in the first language that is accepted and loaded.
pub proof fn law_a_request_is_answered_in_its_language(
    panel: Panel,
    preference: Seq<char>,
    accepted: Seq<Seq<char>>,
)
    ensures
        serves(base_of(preference), loaded_locales(panel.catalogs.deep_view())) ==> ({
            let chain = request_chain(panel, Some(preference), accepted);
            chain.len() > 0 && chain[0] == base_of(preference)
        }),
        serves(base_of(preference), loaded_locales(panel.catalogs.deep_view()))
            ==> signed_out_locale(panel, seq![preference] + accepted) == base_of(preference),
        loaded_locales(panel.catalogs.deep_view()).len() == panel.catalogs.len(),
{
    let loaded = loaded_locales(panel.catalogs.deep_view());
    if serves(base_of(preference), loaded) {
        law_the_operators_choice_leads(preference, accepted, panel.default_locale@, loaded);
        let asked = seq![preference] + accepted;
        assert(candidates(None, asked, panel.default_locale@) =~= candidates(
            Some(preference),
            accepted,
            panel.default_locale@,
        ));
    }
}

// ----------------------------------------------------------------------- sign-in
/// A sign-in hands over a session by its token and leads to the panel; one that is
/// remembered hands over the credential too. A panel that is set up leads to its login.
pub proof fn law_a_sign_in_hands_over_a_session(
    step: LoginStep,
    done: SetupStep,
    panel: Panel,
    token: Seq<char>,
    credential: Option<CredentialModel>,
)
    ensures
        signs_in(step, panel, token, credential) ==> (step matches LoginStep::SignedIn {
            cookies,
            to,
        } && {
            let sent = cookies.deep_view();
            &&& sent.len() > 0
            &&& sent[0].value == token
            &&& sent[0].path == panel.admin_path@
            &&& sent[0].http_only
            &&& sent[0].secure == panel.secure_cookie
            &&& (credential is None <==> sent.len() == 1)
            &&& credential matches Some(c) ==> sent.len() == 2 && sent[1].value == c.cookie
                && (c.seconds >= 0 ==> sent[1].max_age == Some(c.seconds))
            &&& to@.status == 303
            &&& to@.to == panel.admin_path@
        }),
        leads_to_login(done, panel) ==> (done matches SetupStep::ToLogin(to) && to@.to
            == panel.admin_path@ + "/login"@ && to@.status == 303),
{
}

/// A role is stored just where it has a code and a name, and then as it was submitted.
pub proof fn law_a_role_is_stored_as_submitted(
    step: RoleStep,
    action: Seq<char>,
    pairs: Seq<(Seq<char>, Seq<char>)>,
    registry: Seq<PermissionModel>,
    htmx: bool,
    admin: Seq<char>,
    table: Seq<(Seq<char>, Seq<char>)>,
)
    requires
        role_step(step, action, pairs, registry, htmx, admin, table),
    ensures
        step is Store <==> submitted_role(pairs, registry).code.len() > 0 && submitted_role(
            pairs,
            registry,
        ).name.len() > 0,
        step matches RoleStep::Store(draft) ==> draft.deep_view() == submitted_role(
            pairs,
            registry,
        ),
{
}

// ------------------------------------------------------------------------- lists
/// A list can be searched as soon as one of its columns can.
pub proof fn law_one_searchable_column_makes_a_search(columns: Seq<ColumnModel>, c: ColumnModel)
    ensures
        any_searchable(columns.push(c)) <==> any_searchable(columns) || c.searchable == Some(true)
            || (c.searchable is None && c.column_type == "text"@),
        !any_searchable(Seq::empty()),
{
    let more = columns.push(c);
    assert(more[columns.len() as int] == c);
    if any_searchable(columns) {
        let i = choose|i: int| 0 <= i < columns.len() && #[trigger] crate::list::searches(columns[i]);
        assert(crate::list::searches(more[i]));
    }
    if any_searchable(more) {
        let i = choose|i: int| 0 <= i < more.len() && #[trigger] crate::list::searches(more[i]);
        if i < columns.len() {
            assert(crate::list::searches(columns[i]));
        }
    }
    if c.searchable == Some(true) || (c.searchable is None && c.column_type == "text"@) {
        assert(crate::list::searches(more[columns.len() as int]));
    }
}

/// A request for a list that gives a page, an order or a search twice is not read.
pub proof fn law_a_parameter_is_given_once(
    pairs: Seq<(Seq<char>, Seq<char>)>,
    name: Seq<char>,
    a: Seq<char>,
    b: Seq<char>,
)
    requires
        name == "page"@ || name == "sort"@ || name == "dir"@ || name == "q"@,
    ensures
        !params_readable(pairs.push((name, a)).push((name, b))),
{
    reveal(Seq::filter_map);
    let one = pairs.push((name, a));
    let two = one.push((name, b));
    assert(one.drop_last() =~= pairs);
    assert(two.drop_last() =~= one);
    assert(values_named(one, name).len() == values_named(pairs, name).len() + 1);
    assert(values_named(two, name).len() == values_named(one, name).len() + 1);
}

// ---------------------------------------------------------------------- addresses
/// Every address a request was handed on by is considered, with whether it is trusted;
/// what is no address is passed over.
pub proof fn law_every_hop_is_considered(
    forwarded: Seq<char>,
    networks: Seq<Seq<char>>,
    part: Seq<char>,
    ip: Seq<char>,
)
    requires
        split_on(forwarded, only(',')).contains(part),
    ensures
        address_of(trimmed(part)) == Some(ip) ==> hops_of(forwarded, networks).contains(
            (ip, trusts(networks, ip)),
        ),
        forall|hop: (Seq<char>, bool)| #[trigger]
            hops_of(forwarded, networks).contains(hop) ==> hop.1 == trusts(networks, hop.0),
{
    let parts = split_on(forwarded, only(','));
    let make = |p: Seq<char>|
        match address_of(trimmed(p)) {
            Some(a) => Some((a, trusts(networks, a))),
            None => None::<(Seq<char>, bool)>,
        };
    assert(hops_of(forwarded, networks) == parts.filter_map(make));
    lemma_kept(parts, make, (ip, trusts(networks, ip)));
    if address_of(trimmed(part)) == Some(ip) {
        assert(make(part) == Some((ip, trusts(networks, ip))));
    }
    assert forall|hop: (Seq<char>, bool)| #[trigger]
        hops_of(forwarded, networks).contains(hop) implies hop.1 == trusts(networks, hop.0) by {
        lemma_kept(parts, make, hop);
    }
}

} // verus!
