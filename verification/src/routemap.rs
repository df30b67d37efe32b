//! Resolving where a module's admin screens mount, and refusing a clash.
//!
//! A contributed path passes through three layers, last winning: the module's own
//! namespace, a base the module declares, then a deployment override. The resolved
//! set is checked before any route is built, so a module cannot silently shadow
//! another or the panel's own screens.

use vstd::prelude::*;
use vstd::string::StringExecFns;

use crate::strs::{
    cat, cat3, cat4, get, has_char, lemma_strip_shape, lookup, only, replace_char, replaced, same,
    split, split_on, starts_with, strip_end, strip_start, trim, trim_end_matches,
    trim_start_matches, trimmed,
};

verus! {

// ------------------------------------------------------------------- resolving
/// A path without surrounding space and with a leading slash.
pub open spec fn normal(path: Seq<char>) -> Seq<char> {
    if "/"@.is_prefix_of(trimmed(path)) {
        trimmed(path)
    } else {
        "/"@ + trimmed(path)
    }
}

/// A declared path under a base.
pub open spec fn under(base: Seq<char>, declared: Seq<char>) -> Seq<char> {
    let b = strip_end(normal(base), only('/'));
    let d = strip_start(declared, only('/'));
    if d.len() == 0 {
        if b.len() == 0 {
            "/"@
        } else {
            b
        }
    } else {
        b + "/"@ + d
    }
}

/// The path a module's contribution mounts at, relative to the admin root.
pub open spec fn resolved(
    module: Seq<char>,
    declared: Seq<char>,
    base: Option<Seq<char>>,
    overrides: Seq<(Seq<char>, Seq<char>)>,
) -> Seq<char> {
    match lookup(overrides, module + declared) {
        Some(exact) => normal(exact),
        None => match lookup(overrides, module) {
            Some(moved) => under(moved, declared),
            None => match base {
                Some(b) => under(b, declared),
                None => under("/"@ + replaced(module, '.', '/'), declared),
            },
        },
    }
}

/// A path without surrounding space and with a leading slash.
pub fn normalize(path: &str) -> (r: String)
    ensures
        r@ == normal(path@),
{
    let trimmed: &str = trim(path);
    if starts_with(trimmed, "/") {
        trimmed.to_owned()
    } else {
        cat("/", trimmed)
    }
}

/// A declared path under a base.
pub fn join(base: &str, declared: &str) -> (r: String)
    ensures
        r@ == under(base@, declared@),
{
    let normalized: String = normalize(base);
    let base: &str = trim_end_matches(normalized.as_str(), '/');
    let declared: &str = trim_start_matches(declared, '/');
    if declared.is_empty() {
        if base.is_empty() {
            "/".to_owned()
        } else {
            base.to_owned()
        }
    } else {
        cat3(base, "/", declared)
    }
}

/// The path a module's contribution mounts at, relative to the admin root.
///
/// Precedence: an override naming the module and this exact path, then one naming
/// the module, then the module's declared base, then its namespace.
pub fn resolve(
    module: &str,
    declared: &str,
    module_base: Option<&str>,
    overrides: &Vec<(String, String)>,
) -> (r: String)
    ensures
        r@ == resolved(module@, declared@, module_base.deep_view(), overrides.deep_view()),
{
    match get(overrides, cat(module, declared).as_str()) {
        Some(exact) => {
            return normalize(exact);
        },
        None => {},
    }
    match get(overrides, module) {
        Some(base) => {
            return join(base, declared);
        },
        None => {},
    }
    match module_base {
        Some(base) => join(base, declared),
        // `rainmill.location` owns `/rainmill/location/...`, so two modules cannot
        // collide without one of them claiming a shorter path.
        None => join(cat("/", replace_char(module, '.', '/').as_str()).as_str(), declared),
    }
}

/// A path that has been given a leading slash starts with one.
proof fn lemma_normal_leads(path: Seq<char>)
    ensures
        normal(path).len() > 0,
        normal(path)[0] == '/',
{
    reveal_strlit("/");
    let t = trimmed(path);
    if "/"@.is_prefix_of(t) {
        assert(t[0] == "/"@[0]);
    }
}

/// Every resolved path starts at the root.
pub proof fn law_a_resolved_path_is_absolute(
    module: Seq<char>,
    declared: Seq<char>,
    base: Option<Seq<char>>,
    overrides: Seq<(Seq<char>, Seq<char>)>,
)
    ensures
        resolved(module, declared, base, overrides).len() > 0,
        resolved(module, declared, base, overrides)[0] == '/',
{
    let from = match lookup(overrides, module) {
        Some(moved) => moved,
        None => match base {
            Some(b) => b,
            None => "/"@ + replaced(module, '.', '/'),
        },
    };
    match lookup(overrides, module + declared) {
        Some(exact) => {
            lemma_normal_leads(exact);
        },
        None => {
            reveal_strlit("/");
            lemma_normal_leads(from);
            lemma_strip_shape(normal(from), only('/'));
            let b = strip_end(normal(from), only('/'));
            if b.len() > 0 {
                assert(b[0] == normal(from)[0]);
            }
        },
    }
}

/// A module that declares a path without dots, and that nothing moves, never
/// mounts at a dotted path, though its own name is dotted.
pub proof fn law_a_namespace_becomes_a_path(module: Seq<char>, declared: Seq<char>)
    requires
        !declared.contains('.'),
    ensures
        !resolved(module, declared, None, Seq::empty()).contains('.'),
{
    reveal_strlit("/");
    let name = replaced(module, '.', '/');
    let from = "/"@ + name;
    let t = trimmed(from);
    let p = crate::strs::spaces();
    let s1 = strip_start(from, p);
    lemma_strip_shape(from, p);
    lemma_strip_shape(s1, p);
    let n = normal(from);
    lemma_strip_shape(n, only('/'));
    lemma_strip_shape(declared, only('/'));
    assert forall|i: int| 0 <= i < from.len() implies from[i] != '.' by {
        if i > 0 {
            assert(from[i] == name[i - 1]);
        }
    }
    assert forall|i: int| 0 <= i < t.len() implies t[i] != '.' by {
        assert(t[i] == s1[i]);
        assert(s1[i] == from[from.len() - s1.len() + i]);
    }
    assert forall|i: int| 0 <= i < n.len() implies n[i] != '.' by {
        if !"/"@.is_prefix_of(t) && i > 0 {
            assert(n[i] == t[i - 1]);
        }
    }
    let b = strip_end(n, only('/'));
    let d = strip_start(declared, only('/'));
    let r = under(from, declared);
    assert forall|i: int| 0 <= i < d.len() implies d[i] != '.' by {
        assert(d[i] == declared[declared.len() - d.len() + i]);
        assert(declared.contains(declared[declared.len() - d.len() + i]));
    }
    assert forall|i: int| 0 <= i < r.len() implies r[i] != '.' by {
        if d.len() == 0 {
            if b.len() > 0 {
                assert(r[i] == n[i]);
            }
        } else if i < b.len() {
            assert(r[i] == n[i]);
        } else if i > b.len() {
            assert(r[i] == d[i - b.len() - 1]);
        }
    }
}

// ------------------------------------------------------------------ collisions
/// The refusal of a path two contributions claim.
pub open spec fn claimed_twice(
    path: Seq<char>,
    first: Seq<char>,
    claimant: Seq<char>,
) -> Seq<char> {
    "admin path `"@ + path + "` is claimed by both `"@ + first + "` and `"@ + claimant
        + "`; set [backend.paths] for one of them to move it"@
}

/// The first clash among claims, in order: a path with whoever claims it.
pub open spec fn collision(claims: Seq<(Seq<char>, Seq<char>)>) -> Option<Seq<char>>
    decreases claims.len(),
{
    if claims.len() == 0 {
        None
    } else {
        let before = claims.drop_last();
        match collision(before) {
            Some(refusal) => Some(refusal),
            None => match lookup(before, claims.last().0) {
                Some(first) => if first != claims.last().1 {
                    Some(claimed_twice(claims.last().0, first, claims.last().1))
                } else {
                    None
                },
                None => None,
            },
        }
    }
}

/// A clash among the first claims is a clash among all of them.
proof fn lemma_collision_stays(claims: Seq<(Seq<char>, Seq<char>)>, k: int)
    requires
        0 <= k <= claims.len(),
        collision(claims.take(k)) is Some,
    ensures
        collision(claims) == collision(claims.take(k)),
    decreases claims.len() - k,
{
    if k == claims.len() {
        assert(claims.take(k) =~= claims);
    } else {
        assert(claims.take(k + 1).drop_last() =~= claims.take(k));
        lemma_collision_stays(claims, k + 1);
    }
}

/// Who claims a path among the claims before position `n`, the latest of them.
fn claimant_before<'a>(claims: &'a Vec<(String, String)>, n: usize, path: &str) -> (r: Option<
    &'a str,
>)
    requires
        n <= claims.len(),
    ensures
        r.deep_view() == lookup(claims.deep_view().take(n as int), path@),
{
    let ghost all = claims.deep_view();
    let mut i: usize = n;
    while i > 0
        invariant
            i <= n <= claims.len(),
            all == claims.deep_view(),
            lookup(all.take(n as int), path@) == lookup(all.take(i as int), path@),
        decreases i,
    {
        assert(all.take(i as int).last() == claims@[i - 1].deep_view());
        assert(all.take(i as int).drop_last() =~= all.take(i - 1));
        if same(claims[i - 1].0.as_str(), path) {
            return Some(claims[i - 1].1.as_str());
        }
        i = i - 1;
    }
    None
}

/// Refuses a boot in which two contributions claim one path, naming both so the
/// fix is obvious. `claims` is each resolved path with whoever claims it, the
/// framework's own screens among them.
pub fn check_collisions(claims: &Vec<(String, String)>) -> (r: Result<(), String>)
    ensures
        match collision(claims.deep_view()) {
            Some(refusal) => r is Err && r->Err_0@ == refusal,
            None => r is Ok,
        },
{
    let ghost all = claims.deep_view();
    let mut i: usize = 0;
    while i < claims.len()
        invariant
            i <= claims.len(),
            all == claims.deep_view(),
            collision(all.take(i as int)) is None,
        decreases claims.len() - i,
    {
        let path: &str = claims[i].0.as_str();
        let claimant: &str = claims[i].1.as_str();
        assert(all.take(i + 1).drop_last() =~= all.take(i as int));
        assert(all.take(i + 1).last() == claims@[i as int].deep_view());
        match claimant_before(claims, i, path) {
            Some(first) => {
                if !same(first, claimant) {
                    let mut refusal: String = cat4(
                        "admin path `",
                        path,
                        "` is claimed by both `",
                        first,
                    );
                    refusal.append("` and `");
                    refusal.append(claimant);
                    refusal.append("`; set [backend.paths] for one of them to move it");
                    proof {
                        lemma_collision_stays(all, i + 1);
                    }
                    return Err(refusal);
                }
            },
            None => {},
        }
        i = i + 1;
    }
    assert(all.take(all.len() as int) =~= all);
    Ok(())
}

/// What a list of pairs gives for a key is the value of one of its pairs.
proof fn lemma_lookup_found(pairs: Seq<(Seq<char>, Seq<char>)>, i: int)
    requires
        0 <= i < pairs.len(),
    ensures
        lookup(pairs, pairs[i].0) is Some,
    decreases pairs.len(),
{
    if pairs.last().0 != pairs[i].0 {
        assert(pairs.drop_last()[i] == pairs[i]);
        lemma_lookup_found(pairs.drop_last(), i);
    }
}

/// Where the check passes, a path belongs to one contribution alone.
pub proof fn law_a_path_has_one_owner(claims: Seq<(Seq<char>, Seq<char>)>, i: int, j: int)
    requires
        collision(claims) is None,
        0 <= i < j < claims.len(),
        claims[i].0 == claims[j].0,
    ensures
        claims[i].1 == claims[j].1,
    decreases claims.len(),
{
    let before = claims.drop_last();
    assert(collision(before) is None);
    if j < before.len() {
        assert(before[i] == claims[i] && before[j] == claims[j]);
        law_a_path_has_one_owner(before, i, j);
    } else {
        assert(before[i] == claims[i]);
        lemma_lookup_found(before, i);
        lemma_one_claimant(before, i);
    }
}

/// Where no claims clash, the latest claimant of a path is every claimant of it.
proof fn lemma_one_claimant(claims: Seq<(Seq<char>, Seq<char>)>, i: int)
    requires
        collision(claims) is None,
        0 <= i < claims.len(),
    ensures
        lookup(claims, claims[i].0) == Some(claims[i].1),
    decreases claims.len(),
{
    let before = claims.drop_last();
    if i < before.len() {
        assert(before[i] == claims[i]);
        lemma_one_claimant(before, i);
    }
}

// -------------------------------------------------------------------- segments
/// The first segment with a dot in it.
pub open spec fn dotted_segment(segments: Seq<Seq<char>>) -> Option<Seq<char>>
    decreases segments.len(),
{
    if segments.len() == 0 {
        None
    } else if segments[0].contains('.') {
        Some(segments[0])
    } else {
        dotted_segment(segments.drop_first())
    }
}

/// The refusal of a path with a dotted segment.
pub open spec fn dotted_refusal(
    path: Seq<char>,
    claimant: Seq<char>,
    segment: Seq<char>,
) -> Seq<char> {
    "admin path `"@ + path + "` from `"@ + claimant
        + "` has a dotted segment                  `"@ + segment
        + "`; a module id is dotted but a URL is not, so resolve                  the path through the module's namespace instead of using its                  identifier or storage key as a URL"@
}

/// The first claim with a dotted segment, as it is refused.
pub open spec fn dotted_claim(claims: Seq<(Seq<char>, Seq<char>)>) -> Option<Seq<char>>
    decreases claims.len(),
{
    if claims.len() == 0 {
        None
    } else {
        match dotted_segment(split_on(claims[0].0, only('/'))) {
            Some(segment) => Some(dotted_refusal(claims[0].0, claims[0].1, segment)),
            None => dotted_claim(claims.drop_first()),
        }
    }
}

/// The first segment of a path with a dot in it.
fn find_dotted(path: &str) -> (r: Option<String>)
    ensures
        r.deep_view() == dotted_segment(split_on(path@, only('/'))),
{
    let segments: Vec<String> = split(path, '/');
    let ghost all = segments.deep_view();
    let mut i: usize = 0;
    assert(all.skip(0) =~= all);
    while i < segments.len()
        invariant
            i <= segments.len(),
            all == segments.deep_view(),
            all == split_on(path@, only('/')),
            dotted_segment(all) == dotted_segment(all.skip(i as int)),
        decreases segments.len() - i,
    {
        assert(all.skip(i as int)[0] == segments@[i as int]@);
        assert(all.skip(i as int).drop_first() =~= all.skip(i + 1));
        if has_char(segments[i].as_str(), '.') {
            return Some(segments[i].clone());
        }
        i = i + 1;
    }
    None
}

/// Refuses a boot in which a resolved path carries a dotted segment.
///
/// A module's identity is dotted (`rainmill.discovery`); a URL is not. A dot in a
/// segment is the signature of an identifier that reached the router without being
/// resolved into a path. Admin paths only: a public route may well name a file
/// (`/robots.txt`), where a dot is the extension.
pub fn check_segments(claims: &Vec<(String, String)>) -> (r: Result<(), String>)
    ensures
        match dotted_claim(claims.deep_view()) {
            Some(refusal) => r is Err && r->Err_0@ == refusal,
            None => r is Ok,
        },
{
    let ghost all = claims.deep_view();
    let mut i: usize = 0;
    assert(all.skip(0) =~= all);
    while i < claims.len()
        invariant
            i <= claims.len(),
            all == claims.deep_view(),
            dotted_claim(all) == dotted_claim(all.skip(i as int)),
        decreases claims.len() - i,
    {
        let path: &str = claims[i].0.as_str();
        assert(all.skip(i as int)[0] == claims@[i as int].deep_view());
        assert(all.skip(i as int).drop_first() =~= all.skip(i + 1));
        match find_dotted(path) {
            Some(segment) => {
                let mut refusal: String = cat4(
                    "admin path `",
                    path,
                    "` from `",
                    claims[i].1.as_str(),
                );
                refusal.append("` has a dotted segment                  `");
                refusal.append(segment.as_str());
                refusal.append(
                    "`; a module id is dotted but a URL is not, so resolve                  the path through the module's namespace instead of using its                  identifier or storage key as a URL",
                );
                return Err(refusal);
            },
            None => {},
        }
        i = i + 1;
    }
    Ok(())
}

// ---------------------------------------------------------------------- public
/// Whether a public path lies inside the admin mount.
pub open spec fn inside_mount(path: Seq<char>, admin: Seq<char>) -> bool {
    path == admin || (admin + "/"@).is_prefix_of(path)
}

/// The refusal of a public route inside the admin mount.
pub open spec fn inside_refusal(
    path: Seq<char>,
    claimant: Seq<char>,
    admin: Seq<char>,
) -> Seq<char> {
    "public route `"@ + path + "` from `"@ + claimant + "` is inside the admin mount `"@ + admin
        + "`; move it or move the panel with backend.path"@
}

/// The first public route inside the admin mount, as it is refused.
pub open spec fn inside_claim(claims: Seq<(Seq<char>, Seq<char>)>, admin: Seq<char>) -> Option<
    Seq<char>,
>
    decreases claims.len(),
{
    if claims.len() == 0 {
        None
    } else if inside_mount(claims[0].0, admin) {
        Some(inside_refusal(claims[0].0, claims[0].1, admin))
    } else {
        inside_claim(claims.drop_first(), admin)
    }
}

/// What refuses a set of public routes.
pub open spec fn public_refusal(
    claims: Seq<(Seq<char>, Seq<char>)>,
    admin: Seq<char>,
) -> Option<Seq<char>> {
    match collision(claims) {
        Some(refusal) => Some(refusal),
        None => inside_claim(claims, admin),
    }
}

/// Refuses a boot in which a public route clashes, either with another or with the
/// admin mount. Public paths are literal, so nothing namespaces them apart.
pub fn check_public(claims: &Vec<(String, String)>, admin_path: &str) -> (r: Result<(), String>)
    ensures
        match public_refusal(claims.deep_view(), admin_path@) {
            Some(refusal) => r is Err && r->Err_0@ == refusal,
            None => r is Ok,
        },
{
    match check_collisions(claims) {
        Err(refusal) => {
            return Err(refusal);
        },
        Ok(()) => {},
    }
    let below: String = cat(admin_path, "/");
    let ghost all = claims.deep_view();
    let mut i: usize = 0;
    assert(all.skip(0) =~= all);
    while i < claims.len()
        invariant
            i <= claims.len(),
            all == claims.deep_view(),
            below@ == admin_path@ + "/"@,
            collision(all) is None,
            inside_claim(all, admin_path@) == inside_claim(all.skip(i as int), admin_path@),
        decreases claims.len() - i,
    {
        let path: &str = claims[i].0.as_str();
        assert(all.skip(i as int)[0] == claims@[i as int].deep_view());
        assert(all.skip(i as int).drop_first() =~= all.skip(i + 1));
        if same(path, admin_path) || starts_with(path, below.as_str()) {
            let mut refusal: String = cat4(
                "public route `",
                path,
                "` from `",
                claims[i].1.as_str(),
            );
            refusal.append("` is inside the admin mount `");
            refusal.append(admin_path);
            refusal.append("`; move it or move the panel with backend.path");
            return Err(refusal);
        }
        i = i + 1;
    }
    Ok(())
}

/// Where the check passes, no public route reaches into the panel.
pub proof fn law_no_public_route_shadows_the_panel(
    claims: Seq<(Seq<char>, Seq<char>)>,
    admin: Seq<char>,
    i: int,
)
    requires
        public_refusal(claims, admin) is None,
        0 <= i < claims.len(),
    ensures
        !inside_mount(claims[i].0, admin),
{
    lemma_none_inside(claims, admin, i);
}

/// Where no claim is found inside the mount, none is.
proof fn lemma_none_inside(claims: Seq<(Seq<char>, Seq<char>)>, admin: Seq<char>, i: int)
    requires
        inside_claim(claims, admin) is None,
        0 <= i < claims.len(),
    ensures
        !inside_mount(claims[i].0, admin),
    decreases claims.len(),
{
    if i > 0 {
        assert(claims.drop_first()[i - 1] == claims[i]);
        lemma_none_inside(claims.drop_first(), admin, i - 1);
    }
}

} // verus!
