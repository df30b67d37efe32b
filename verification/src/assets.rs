//! The admin's own assets: named by their content, so a browser may keep them.
//!
//! A registry maps a key to its content type and bytes. Every page links an asset
//! by a path that carries a digest of its bytes, and the server holds that digest
//! against the bytes it is about to serve: a request that named the content may keep
//! it forever, one that did not, or that named other bytes, must revalidate.

use vstd::prelude::*;

use crate::http_cache::{
    conditional, conditional_answer, digest, digest_of, fingerprint, fingerprinted, is_digest,
    law_fingerprint_round_trips, served, strip_fingerprint, Answer, AnswerModel, IMMUTABLE, REVALIDATE,
};
use crate::strs::{cat3, contains, listed, occurs, same};

verus! {

/// The icon sprite's registry key.
pub const ICON_SPRITE: &'static str = "icons.svg";

/// One asset.
#[derive(Debug)]
pub struct AdminAsset {
    pub key: String,
    pub mime: String,
    pub bytes: Vec<u8>,
}

/// An [`AdminAsset`], over characters.
pub struct AssetModel {
    pub key: Seq<char>,
    pub mime: Seq<char>,
    pub bytes: Seq<u8>,
}

impl DeepView for AdminAsset {
    type V = AssetModel;

    open spec fn deep_view(&self) -> AssetModel {
        AssetModel { key: self.key@, mime: self.mime@, bytes: self.bytes@ }
    }
}

/// The last asset registered under a key.
pub open spec fn asset_of(registry: Seq<AssetModel>, key: Seq<char>) -> Option<AssetModel>
    decreases registry.len(),
{
    if registry.len() == 0 {
        None
    } else if registry.last().key == key {
        Some(registry.last())
    } else {
        asset_of(registry.drop_last(), key)
    }
}

/// The last asset registered under a key.
pub fn find_asset<'a>(registry: &'a Vec<AdminAsset>, key: &str) -> (r: Option<&'a AdminAsset>)
    ensures
        r.deep_view() == asset_of(registry.deep_view(), key@),
{
    let ghost all = registry.deep_view();
    let mut k: usize = registry.len();
    assert(all.take(all.len() as int) =~= all);
    while k > 0
        invariant
            k <= registry.len(),
            all == registry.deep_view(),
            asset_of(all, key@) == asset_of(all.take(k as int), key@),
        decreases k,
    {
        assert(all.take(k as int).drop_last() =~= all.take(k - 1));
        assert(all[k - 1] == registry@[k - 1].deep_view());
        if same(registry[k - 1].key.as_str(), key) {
            return Some(&registry[k - 1]);
        }
        k = k - 1;
    }
    None
}

/// The path an asset is served at, carrying a digest of its bytes.
pub open spec fn asset_path(asset: AssetModel) -> Seq<char> {
    fingerprinted(asset.key, digest_of(asset.bytes))
}

/// Names every registered asset by its content: each key with the path it is
/// served at.
pub fn asset_urls(registry: &Vec<AdminAsset>) -> (r: Vec<(String, String)>)
    ensures
        r.deep_view() == registry.deep_view().map_values(|a: AssetModel| (a.key, asset_path(a))),
{
    let ghost all = registry.deep_view();
    let mut r: Vec<(String, String)> = Vec::new();
    let mut i: usize = 0;
    while i < registry.len()
        invariant
            i <= registry.len(),
            all == registry.deep_view(),
            r.len() == i,
            forall|j: int|
                0 <= j < i ==> #[trigger] r@[j].deep_view() == (all[j].key, asset_path(all[j])),
        decreases registry.len() - i,
    {
        let a: &AdminAsset = &registry[i];
        assert(all[i as int] == a.deep_view());
        r.push((a.key.clone(), fingerprint(a.key.as_str(), digest(a.bytes.as_slice()).as_str())));
        i = i + 1;
    }
    assert(r.deep_view() =~= all.map_values(|a: AssetModel| (a.key, asset_path(a))));
    r
}

/// The URL of an asset: its content-named path where it is registered, its plain
/// key otherwise, which still serves (revalidating rather than immutable).
pub open spec fn asset_url(
    urls: Seq<(Seq<char>, Seq<char>)>,
    base: Seq<char>,
    key: Seq<char>,
) -> Seq<char> {
    base + "/assets/"@ + (match crate::strs::lookup(urls, key) {
        Some(path) => path,
        None => key,
    })
}

/// The URL of an asset, for the screens that render before anyone is signed in.
pub fn preauth_asset(urls: &Vec<(String, String)>, base: &str, key: &str) -> (r: String)
    ensures
        r@ == asset_url(urls.deep_view(), base@, key@),
{
    match crate::strs::get(urls, key) {
        Some(path) => cat3(base, "/assets/", path),
        None => cat3(base, "/assets/", key),
    }
}

/// One per-page asset to load: a URL and whether it is a stylesheet.
#[derive(Debug)]
pub struct PageAsset {
    pub url: String,
    pub css: bool,
}

/// A [`PageAsset`], over characters.
pub struct PageAssetModel {
    pub url: Seq<char>,
    pub css: bool,
}

impl DeepView for PageAsset {
    type V = PageAssetModel;

    open spec fn deep_view(&self) -> PageAssetModel {
        PageAssetModel { url: self.url@, css: self.css }
    }
}

/// What one key contributes to a page: nothing unless it is registered and named.
pub open spec fn page_asset(
    key: Seq<char>,
    base: Seq<char>,
    registry: Seq<AssetModel>,
    urls: Seq<(Seq<char>, Seq<char>)>,
) -> Seq<PageAssetModel> {
    match (asset_of(registry, key), crate::strs::lookup(urls, key)) {
        (Some(a), Some(path)) => seq![
            PageAssetModel { url: base + "/assets/"@ + path, css: occurs(a.mime, "css"@) },
        ],
        _ => Seq::empty(),
    }
}

/// The assets some keys contribute to a page: each key once, where it first
/// stands.
pub open spec fn page_asset_models(
    keys: Seq<Seq<char>>,
    base: Seq<char>,
    registry: Seq<AssetModel>,
    urls: Seq<(Seq<char>, Seq<char>)>,
) -> Seq<PageAssetModel>
    decreases keys.len(),
{
    if keys.len() == 0 {
        Seq::empty()
    } else {
        let before = page_asset_models(keys.drop_last(), base, registry, urls);
        if keys.drop_last().contains(keys.last()) {
            before
        } else {
            before + page_asset(keys.last(), base, registry, urls)
        }
    }
}

/// Resolves widget asset keys to the assets a page loads: in order, each once, a
/// stylesheet or a script by its content type. An unregistered key is skipped.
pub fn page_assets(
    keys: &Vec<String>,
    base: &str,
    registry: &Vec<AdminAsset>,
    urls: &Vec<(String, String)>,
) -> (out: Vec<PageAsset>)
    ensures
        out.deep_view() == page_asset_models(
            keys.deep_view(),
            base@,
            registry.deep_view(),
            urls.deep_view(),
        ),
{
    let ghost all = keys.deep_view();
    let ghost known = registry.deep_view();
    let ghost paths = urls.deep_view();
    let mut seen: Vec<String> = Vec::new();
    let mut out: Vec<PageAsset> = Vec::new();
    let mut i: usize = 0;
    assert(seen.deep_view() =~= all.take(0));
    assert(out.deep_view() =~= page_asset_models(all.take(0), base@, known, paths));
    while i < keys.len()
        invariant
            i <= keys.len(),
            all == keys.deep_view(),
            known == registry.deep_view(),
            paths == urls.deep_view(),
            seen.deep_view() == all.take(i as int),
            out.deep_view() == page_asset_models(all.take(i as int), base@, known, paths),
        decreases keys.len() - i,
    {
        let key: &str = keys[i].as_str();
        let ghost before = out.deep_view();
        assert(all.take(i + 1).drop_last() =~= all.take(i as int));
        assert(all.take(i + 1).last() == key@);
        if !listed(&seen, key) {
            match (find_asset(registry, key), crate::strs::get(urls, key)) {
                (Some(asset), Some(path)) => {
                    let css: bool = contains(asset.mime.as_str(), "css");
                    out.push(PageAsset { url: cat3(base, "/assets/", path), css });
                    assert(out.deep_view() =~= before + page_asset(key@, base@, known, paths));
                },
                _ => {
                    assert(before + Seq::<PageAssetModel>::empty() =~= before);
                },
            }
        }
        let ghost had = seen.deep_view();
        seen.push(keys[i].clone());
        assert(seen.deep_view() =~= had.push(key@));
        assert(had.push(key@) =~= all.take(i + 1));
        i = i + 1;
    }
    assert(all.take(all.len() as int) =~= all);
    out
}

/// Asking for a key again changes nothing about the page.
pub proof fn law_a_repeated_key_loads_once(
    keys: Seq<Seq<char>>,
    key: Seq<char>,
    base: Seq<char>,
    registry: Seq<AssetModel>,
    urls: Seq<(Seq<char>, Seq<char>)>,
)
    requires
        keys.contains(key),
    ensures
        page_asset_models(keys.push(key), base, registry, urls) == page_asset_models(
            keys,
            base,
            registry,
            urls,
        ),
{
    assert(keys.push(key).drop_last() =~= keys);
}

// -------------------------------------------------------------------- built in
/// The key and content type of each of the framework's own assets: the
/// stylesheet, the scripts, the brand marks and the webfonts.
pub open spec fn builtin_asset_types() -> Seq<(Seq<char>, Seq<char>)> {
    seq![
        ("laterite.css"@, "text/css; charset=utf-8"@),
        ("laterite.js"@, "text/javascript; charset=utf-8"@),
        ("vendor/htmx.min.js"@, "text/javascript; charset=utf-8"@),
        ("fields/ref-picker.js"@, "text/javascript; charset=utf-8"@),
        ("fields/ref-picker.css"@, "text/css; charset=utf-8"@),
        ("mark.svg"@, "image/svg+xml"@),
        ("mark.png"@, "image/png"@),
        ("fonts/space-grotesk-500.woff2"@, "font/woff2"@),
        ("fonts/space-grotesk-600.woff2"@, "font/woff2"@),
        ("fonts/space-grotesk-700.woff2"@, "font/woff2"@),
        ("fonts/ibm-plex-sans-400.woff2"@, "font/woff2"@),
        ("fonts/ibm-plex-sans-600.woff2"@, "font/woff2"@),
        ("fonts/ibm-plex-mono-400.woff2"@, "font/woff2"@),
        ("fonts/ibm-plex-mono-600.woff2"@, "font/woff2"@),
    ]
}

/// The key and content type of each of the framework's own assets.
fn builtin_types() -> (r: Vec<(&'static str, &'static str)>)
    ensures
        r.deep_view() == builtin_asset_types(),
{
    let r: Vec<(&'static str, &'static str)> = vec![
        ("laterite.css", "text/css; charset=utf-8"),
        ("laterite.js", "text/javascript; charset=utf-8"),
        ("vendor/htmx.min.js", "text/javascript; charset=utf-8"),
        ("fields/ref-picker.js", "text/javascript; charset=utf-8"),
        ("fields/ref-picker.css", "text/css; charset=utf-8"),
        ("mark.svg", "image/svg+xml"),
        ("mark.png", "image/png"),
        ("fonts/space-grotesk-500.woff2", "font/woff2"),
        ("fonts/space-grotesk-600.woff2", "font/woff2"),
        ("fonts/space-grotesk-700.woff2", "font/woff2"),
        ("fonts/ibm-plex-sans-400.woff2", "font/woff2"),
        ("fonts/ibm-plex-sans-600.woff2", "font/woff2"),
        ("fonts/ibm-plex-mono-400.woff2", "font/woff2"),
        ("fonts/ibm-plex-mono-600.woff2", "font/woff2"),
    ];
    assert(r.deep_view() =~= builtin_asset_types());
    r
}

/// The bytes given for a key, none where the key is not among the files.
pub open spec fn file_bytes(files: Seq<(Seq<char>, Seq<u8>)>, key: Seq<char>) -> Seq<u8>
    decreases files.len(),
{
    if files.len() == 0 {
        Seq::empty()
    } else if files.last().0 == key {
        files.last().1
    } else {
        file_bytes(files.drop_last(), key)
    }
}

/// The files, over characters and bytes.
pub open spec fn files_model(files: Seq<(String, Vec<u8>)>) -> Seq<(Seq<char>, Seq<u8>)> {
    files.map_values(|f: (String, Vec<u8>)| (f.0@, f.1@))
}

/// A copy of the bytes given for a key.
fn copy_file(files: &Vec<(String, Vec<u8>)>, key: &str) -> (r: Vec<u8>)
    ensures
        r@ == file_bytes(files_model(files@), key@),
{
    let ghost all = files_model(files@);
    let mut k: usize = files.len();
    assert(all.take(all.len() as int) =~= all);
    while k > 0
        invariant
            k <= files.len(),
            all == files_model(files@),
            file_bytes(all, key@) == file_bytes(all.take(k as int), key@),
        decreases k,
    {
        assert(all.take(k as int).drop_last() =~= all.take(k - 1));
        assert(all[k - 1] == (files@[k - 1].0@, files@[k - 1].1@));
        if same(files[k - 1].0.as_str(), key) {
            return copy_bytes(&files[k - 1].1);
        }
        k = k - 1;
    }
    Vec::new()
}

/// A copy of some bytes.
fn copy_bytes(bytes: &Vec<u8>) -> (r: Vec<u8>)
    ensures
        r@ == bytes@,
{
    let mut r: Vec<u8> = Vec::new();
    let mut i: usize = 0;
    while i < bytes.len()
        invariant
            i <= bytes.len(),
            r@ == bytes@.take(i as int),
        decreases bytes.len() - i,
    {
        r.push(bytes[i]);
        i = i + 1;
    }
    assert(bytes@.take(bytes@.len() as int) =~= bytes@);
    r
}

/// The framework's built-in assets over the files that hold their bytes. None of
/// them declares a cache policy: the URL each is asked for by decides it.
pub fn builtin_assets(files: &Vec<(String, Vec<u8>)>) -> (r: Vec<AdminAsset>)
    ensures
        r.deep_view() == builtin_asset_types().map_values(
            |t: (Seq<char>, Seq<char>)|
                AssetModel { key: t.0, mime: t.1, bytes: file_bytes(files_model(files@), t.0) },
        ),
{
    let types: Vec<(&'static str, &'static str)> = builtin_types();
    let ghost all = types.deep_view();
    let ghost given = files_model(files@);
    let mut r: Vec<AdminAsset> = Vec::new();
    let mut i: usize = 0;
    while i < types.len()
        invariant
            i <= types.len(),
            all == types.deep_view(),
            given == files_model(files@),
            r.len() == i,
            forall|j: int|
                0 <= j < i ==> #[trigger] r@[j].deep_view() == (AssetModel {
                    key: all[j].0,
                    mime: all[j].1,
                    bytes: file_bytes(given, all[j].0),
                }),
        decreases types.len() - i,
    {
        let (key, mime) = types[i];
        assert(all[i as int] == (key@, mime@));
        r.push(
            AdminAsset {
                key: key.to_owned(),
                mime: mime.to_owned(),
                bytes: copy_file(files, key),
            },
        );
        i = i + 1;
    }
    assert(r.deep_view() =~= builtin_asset_types().map_values(
        |t: (Seq<char>, Seq<char>)|
            AssetModel { key: t.0, mime: t.1, bytes: file_bytes(given, t.0) },
    ));
    r
}

// --------------------------------------------------------------------- serving
/// Whether a path names the content of the asset it is served: it is the path that a
/// digest of the asset's bytes makes.
pub open spec fn names_content(path: Seq<char>, a: AssetModel) -> bool {
    served(path).1 && path == fingerprinted(served(path).0, digest_of(a.bytes))
}

/// What a request for an asset is answered, where the asset is registered.
pub open spec fn asset_answer(
    registry: Seq<AssetModel>,
    path: Seq<char>,
    if_none_match: Option<Seq<char>>,
) -> Option<AnswerModel> {
    match asset_of(registry, served(path).0) {
        None => None,
        Some(a) => Some(
            conditional_answer(
                if_none_match,
                a.mime,
                if names_content(path, a) {
                    IMMUTABLE@
                } else {
                    REVALIDATE@
                },
                a.bytes,
            ),
        ),
    }
}

/// Serves an asset by path: immutable where the path named the content that is served,
/// to be revalidated otherwise. `None` where no asset is registered under the path.
pub fn serve_asset(registry: &Vec<AdminAsset>, path: &str, if_none_match: Option<&str>) -> (r:
    Option<Answer>)
    ensures
        r.deep_view() == asset_answer(registry.deep_view(), path@, if_none_match.deep_view()),
{
    let (key, named) = strip_fingerprint(path);
    match find_asset(registry, key.as_str()) {
        None => None,
        Some(a) => {
            let current: String = fingerprint(key.as_str(), digest(a.bytes.as_slice()).as_str());
            let policy: &str = if named && same(path, current.as_str()) {
                IMMUTABLE
            } else {
                REVALIDATE
            };
            Some(conditional(if_none_match, a.mime.as_str(), policy, copy_bytes(&a.bytes)))
        },
    }
}

/// An answer that may be kept forever is given only to a path that names the bytes it
/// serves: other bytes would have been served under another path.
pub proof fn law_only_named_content_is_kept(
    registry: Seq<AssetModel>,
    path: Seq<char>,
    if_none_match: Option<Seq<char>>,
)
    ensures
        asset_answer(registry, path, if_none_match) matches Some(r) ==> {
            let key = served(path).0;
            let bytes = (asset_of(registry, key)->0).bytes;
            r.cache_control == IMMUTABLE@ <==> served(path).1 && path == fingerprinted(
                key,
                digest_of(bytes),
            )
        },
{
    reveal_strlit("public, max-age=31536000, immutable");
    reveal_strlit("public, no-cache");
    assert(IMMUTABLE@.len() != REVALIDATE@.len());
}

/// Every page's link to an asset is answered so that it may be kept.
pub proof fn law_a_linked_asset_may_be_kept(
    registry: Seq<AssetModel>,
    key: Seq<char>,
    if_none_match: Option<Seq<char>>,
)
    requires
        asset_of(registry, key) is Some,
    ensures
        ({
            let a = asset_of(registry, key)->0;
            let answer = asset_answer(
                registry,
                fingerprinted(key, digest_of(a.bytes)),
                if_none_match,
            );
            is_digest(digest_of(a.bytes)) ==> answer is Some && (answer->0).cache_control
                == IMMUTABLE@
        }),
{
    let a = asset_of(registry, key)->0;
    if is_digest(digest_of(a.bytes)) {
        law_fingerprint_round_trips(key, digest_of(a.bytes));
    }
}

} // verus!
