//! Conditional responses and cache policy.
//!
//! A fingerprinted URL carries a digest of the bytes it serves, so a change
//! produces a different URL and the answer may be kept forever. A stable URL
//! keeps its name across changes, so it may only be stored with revalidation,
//! which an entity tag makes cheap: unchanged bytes come back as a bodyless 304.

use vstd::prelude::*;
use vstd::string::StringExecFns;
use vstd::string::StrSliceExecFns;

use crate::strs::{
    cat3, cat4, chars_of, is_hex, last_index, lemma_last_index, lemma_last_index_unique,
    lemma_split_single, lemma_strip_end_at, lemma_strip_start_at, only, rsplit_once, same, spaces,
    split, split_on, strip, strip_prefix, trim, trim_end_matches, trim_start_matches, trimmed,
};

verus! {

/// A fingerprinted URL's policy: the digest in the path is the version.
pub const IMMUTABLE: &'static str = "public, max-age=31536000, immutable";

/// A stable URL's policy: store it, but ask before reusing it.
pub const REVALIDATE: &'static str = "public, no-cache";

/// An authenticated screen's policy: nothing may keep it.
pub const PRIVATE_NO_STORE: &'static str = "private, no-store";

/// Length of the digest used in URLs and entity tags.
pub const DIGEST_LEN: usize = 8;

/// The hexadecimal form of the BLAKE3 hash of some bytes.
pub uninterp spec fn blake3_hex(bytes: Seq<u8>) -> Seq<char>;

/// `blake3::hash` followed by `Hash::to_hex`: the 32-byte hash of the bytes as 64
/// lower-case hexadecimal digits, the same for the same bytes.
#[verifier::external_body]
fn content_hex(bytes: &[u8]) -> (r: String)
    ensures
        r@ == blake3_hex(bytes@),
        r@.len() == 64,
        forall|i: int| 0 <= i < 64 ==> is_lower_hex(#[trigger] r@[i]),
{
    blake3::hash(bytes).to_hex().to_string()
}

/// A lower-case hexadecimal digit.
pub open spec fn is_lower_hex(c: char) -> bool {
    '0' <= c <= '9' || 'a' <= c <= 'f'
}

/// A digest as it stands in a URL: eight hexadecimal digits.
pub open spec fn is_digest(s: Seq<char>) -> bool {
    s.len() == DIGEST_LEN && forall|i: int| 0 <= i < s.len() ==> is_hex(#[trigger] s[i])
}

/// The short digest of some bytes.
pub open spec fn digest_of(bytes: Seq<u8>) -> Seq<char> {
    blake3_hex(bytes).take(DIGEST_LEN as int)
}

/// A short content digest, used both as the URL's version and as its entity tag.
pub fn digest(bytes: &[u8]) -> (r: String)
    ensures
        r@ == digest_of(bytes@),
        is_digest(r@),
{
    let full: String = content_hex(bytes);
    full.as_str().substring_char(0, DIGEST_LEN).to_owned()
}

// -------------------------------------------------------------- fingerprints
/// A key with a digest before its extension, or at its end where it has none.
pub open spec fn fingerprinted(key: Seq<char>, digest: Seq<char>) -> Seq<char> {
    match last_index(key, '.') {
        Some(k) => key.take(k) + "."@ + digest + "."@ + key.skip(k + 1),
        None => key + "."@ + digest,
    }
}

/// Inserts a digest before the extension: `laterite.css` becomes
/// `laterite.a1b2c3d4.css`. A name with no extension takes it as a suffix.
pub fn fingerprint(key: &str, digest: &str) -> (r: String)
    ensures
        r@ == fingerprinted(key@, digest@),
{
    match rsplit_once(key, '.') {
        Some((stem, ext)) => {
            let mut r: String = cat4(stem, ".", digest, ".");
            r.append(ext);
            r
        },
        None => cat3(key, ".", digest),
    }
}

/// What a served path names: the registry key, and whether the path carried a
/// digest of the content. That stands between the last two dots, or behind the only
/// one.
pub open spec fn served(path: Seq<char>) -> (Seq<char>, bool) {
    match last_index(path, '.') {
        Some(k) => match last_index(path.take(k), '.') {
            Some(m) => if is_digest(path.subrange(m + 1, k)) {
                (path.take(m) + "."@ + path.skip(k + 1), true)
            } else {
                (path, false)
            },
            None => if is_digest(path.skip(k + 1)) {
                (path.take(k), true)
            } else {
                (path, false)
            },
        },
        None => (path, false),
    }
}

/// Whether a text has the shape of a digest.
fn looks_like_digest(s: &str) -> (r: bool)
    ensures
        r == is_digest(s@),
{
    let chars: Vec<char> = chars_of(s);
    if chars.len() != DIGEST_LEN {
        return false;
    }
    let mut i: usize = 0;
    while i < chars.len()
        invariant
            chars@ == s@,
            i <= chars.len(),
            forall|j: int| 0 <= j < i ==> is_hex(#[trigger] s@[j]),
        decreases chars.len() - i,
    {
        let c: char = chars[i];
        if !(('0' <= c && c <= '9') || ('a' <= c && c <= 'f') || ('A' <= c && c <= 'F')) {
            assert(!is_hex(s@[i as int]));
            return false;
        }
        i = i + 1;
    }
    true
}

/// Recovers the registry key from a served path and reports whether the path
/// named its content. Only the exact shape [`fingerprint`] writes counts.
pub fn strip_fingerprint(path: &str) -> (r: (String, bool))
    ensures
        (r.0@, r.1) == served(path@),
{
    match rsplit_once(path, '.') {
        Some((rest, ext)) => {
            proof {
                lemma_last_index(path@, '.');
                lemma_last_index(rest@, '.');
            }
            match rsplit_once(rest, '.') {
                Some((stem, maybe)) => {
                    proof {
                        let k = last_index(path@, '.')->0;
                        let m = last_index(rest@, '.')->0;
                        assert(maybe@ =~= path@.subrange(m + 1, k));
                        assert(stem@ =~= path@.take(m));
                    }
                    if looks_like_digest(maybe) {
                        (cat3(stem, ".", ext), true)
                    } else {
                        (path.to_owned(), false)
                    }
                },
                None => if looks_like_digest(ext) {
                    (rest.to_owned(), true)
                } else {
                    (path.to_owned(), false)
                },
            }
        },
        None => (path.to_owned(), false),
    }
}

/// The last dot of a text that ends in a dot and something without one.
proof fn lemma_last_dot(head: Seq<char>, tail: Seq<char>)
    requires
        !tail.contains('.'),
    ensures
        last_index(head + "."@ + tail, '.') == Some(head.len() as int),
        (head + "."@ + tail).take(head.len() as int) == head,
        (head + "."@ + tail).skip(head.len() as int + 1) == tail,
{
    reveal_strlit(".");
    let s = head + "."@ + tail;
    assert forall|j: int| head.len() < j < s.len() implies #[trigger] s[j] != '.' by {
        assert(s[j] == tail[j - head.len() - 1]);
        assert(tail.contains(tail[j - head.len() - 1]));
    }
    lemma_last_index_unique(s, '.', head.len() as int);
    assert(s.take(head.len() as int) =~= head);
    assert(s.skip(head.len() as int + 1) =~= tail);
}

/// Stripping a fingerprint gives the key back, for every key and every digest.
pub proof fn law_fingerprint_round_trips(key: Seq<char>, digest: Seq<char>)
    requires
        is_digest(digest),
    ensures
        served(fingerprinted(key, digest)) == (key, true),
{
    assert(!digest.contains('.')) by {
        assert forall|j: int| 0 <= j < digest.len() implies digest[j] != '.' by {
            assert(is_hex(digest[j]));
        }
    }
    lemma_last_index(key, '.');
    reveal_strlit(".");
    let url = fingerprinted(key, digest);
    match last_index(key, '.') {
        Some(k) => {
            let stem = key.take(k);
            let ext = key.skip(k + 1);
            assert(!ext.contains('.')) by {
                assert forall|j: int| 0 <= j < ext.len() implies ext[j] != '.' by {
                    assert(ext[j] == key[j + k + 1]);
                }
            }
            let inner = stem + "."@ + digest;
            assert(url =~= inner + "."@ + ext);
            lemma_last_dot(inner, ext);
            lemma_last_dot(stem, digest);
            assert(url.subrange(stem.len() as int + 1, inner.len() as int) =~= digest);
            assert(url.take(stem.len() as int) =~= stem);
            assert(stem + "."@ + ext =~= key);
        },
        None => {
            lemma_last_dot(key, digest);
        },
    }
}

/// A path is only reported as naming its content where one written by
/// [`fingerprint`] would be: the key comes back with the digest taken out.
pub proof fn law_reported_content_was_named(path: Seq<char>)
    requires
        served(path).1,
    ensures
        exists|d: Seq<char>| is_digest(d) && #[trigger] fingerprinted(served(path).0, d) == path,
{
    lemma_last_index(path, '.');
    let k = last_index(path, '.')->0;
    lemma_last_index(path.take(k), '.');
    let ext = path.skip(k + 1);
    assert(!ext.contains('.')) by {
        assert forall|j: int| 0 <= j < ext.len() implies ext[j] != '.' by {
            assert(ext[j] == path[j + k + 1]);
        }
    }
    reveal_strlit(".");
    match last_index(path.take(k), '.') {
        Some(m) => {
            let d = path.subrange(m + 1, k);
            lemma_last_dot(path.take(m), ext);
            assert(fingerprinted(served(path).0, d) =~= path);
        },
        None => {
            assert(fingerprinted(served(path).0, ext) =~= path);
        },
    }
}

/// Different digests of one key are different URLs.
pub proof fn law_different_content_different_url(key: Seq<char>, a: Seq<char>, b: Seq<char>)
    requires
        is_digest(a),
        is_digest(b),
        a != b,
    ensures
        fingerprinted(key, a) != fingerprinted(key, b),
{
    reveal_strlit(".");
    let at: int = match last_index(key, '.') {
        Some(k) => k + 1,
        None => key.len() as int + 1,
    };
    lemma_last_index(key, '.');
    assert(fingerprinted(key, a).subrange(at, at + 8) =~= a);
    assert(fingerprinted(key, b).subrange(at, at + 8) =~= b);
}

// --------------------------------------------------------------- entity tags
/// `s` without the prefixes `pat` at its front, however often it is repeated.
pub open spec fn strip_prefixes(s: Seq<char>, pat: Seq<char>) -> Seq<char>
    decreases s.len(),
{
    if pat.len() > 0 && pat.is_prefix_of(s) {
        strip_prefixes(s.skip(pat.len() as int), pat)
    } else {
        s
    }
}

/// The bare tag of one entry of an `If-None-Match` header.
pub open spec fn bare_tag(entry: Seq<char>) -> Seq<char> {
    strip(strip_prefixes(trimmed(entry), "W/"@), only('"'))
}

/// Whether one entry of an `If-None-Match` header stands for the tag.
pub open spec fn entry_matches(entry: Seq<char>, etag: Seq<char>) -> bool {
    bare_tag(entry) == etag || bare_tag(entry) == "*"@
}

/// Whether any of the entries stands for the tag.
pub open spec fn any_matches(entries: Seq<Seq<char>>, etag: Seq<char>) -> bool {
    exists|i: int| 0 <= i < entries.len() && #[trigger] entry_matches(entries[i], etag)
}

/// Whether an `If-None-Match` header, where the request has one, holds the tag.
pub open spec fn holds_tag(header: Option<Seq<char>>, etag: Seq<char>) -> bool {
    match header {
        Some(raw) => any_matches(split_on(raw, only(',')), etag),
        None => false,
    }
}

/// `s` without the weak-tag markers at its front.
fn without_weak(s: &str) -> (r: &str)
    ensures
        r@ == strip_prefixes(s@, "W/"@),
    decreases s@.len(),
{
    proof {
        reveal_strlit("W/");
    }
    match strip_prefix(s, "W/") {
        Some(rest) => without_weak(rest),
        None => s,
    }
}

/// Whether the request already holds this exact entity. `if_none_match` is the
/// request's header of that name, where it has one.
pub fn matches_etag(if_none_match: Option<&str>, etag: &str) -> (r: bool)
    ensures
        r == holds_tag(if_none_match.deep_view(), etag@),
{
    let raw: &str = match if_none_match {
        Some(raw) => raw,
        None => {
            return false;
        },
    };
    let entries: Vec<String> = split(raw, ',');
    let ghost all = split_on(raw@, only(','));
    let mut i: usize = 0;
    while i < entries.len()
        invariant
            i <= entries.len(),
            entries.deep_view() == all,
            all == split_on(raw@, only(',')),
            if_none_match.deep_view() == Some(raw@),
            forall|j: int| 0 <= j < i ==> !#[trigger] entry_matches(all[j], etag@),
        decreases entries.len() - i,
    {
        let entry: &str = entries[i].as_str();
        assert(all[i as int] == entry@);
        let bare: &str = trim_end_matches(
            trim_start_matches(without_weak(trim(entry)), '"'),
            '"',
        );
        if same(bare, etag) || same(bare, "*") {
            assert(entry_matches(all[i as int], etag@));
            return true;
        }
        i = i + 1;
    }
    false
}

/// An answer with its validator: status, headers and body.
pub struct Answer {
    pub status: u16,
    pub content_type: Option<String>,
    pub etag: String,
    pub cache_control: String,
    pub body: Option<Vec<u8>>,
}

/// An [`Answer`], over characters and bytes.
pub struct AnswerModel {
    pub status: u16,
    pub content_type: Option<Seq<char>>,
    pub etag: Seq<char>,
    pub cache_control: Seq<char>,
    pub body: Option<Seq<u8>>,
}

impl DeepView for Answer {
    type V = AnswerModel;

    open spec fn deep_view(&self) -> AnswerModel {
        AnswerModel {
            status: self.status,
            content_type: self.content_type.deep_view(),
            etag: self.etag@,
            cache_control: self.cache_control@,
            body: match self.body {
                Some(b) => Some(b@),
                None => None,
            },
        }
    }
}

/// The weak entity tag header for a digest.
pub open spec fn weak_tag(digest: Seq<char>) -> Seq<char> {
    "W/\""@ + digest + "\""@
}

/// What a request for `body` is answered: a bodyless 304 when the client already
/// holds it, the whole of it otherwise.
pub open spec fn conditional_answer(
    if_none_match: Option<Seq<char>>,
    content_type: Seq<char>,
    cache_control: Seq<char>,
    body: Seq<u8>,
) -> AnswerModel {
    if holds_tag(if_none_match, digest_of(body)) {
        AnswerModel {
            status: 304,
            content_type: None,
            etag: weak_tag(digest_of(body)),
            cache_control,
            body: None,
        }
    } else {
        AnswerModel {
            status: 200,
            content_type: Some(content_type),
            etag: weak_tag(digest_of(body)),
            cache_control,
            body: Some(body),
        }
    }
}

/// Answers a request for `body` with its validator, or a bodyless 304 when the
/// client already holds it. The tag is weak: a layer above may compress the
/// bytes, and a strong tag would claim an identity the response does not have.
pub fn conditional(
    if_none_match: Option<&str>,
    content_type: &str,
    cache_control: &str,
    body: Vec<u8>,
) -> (r: Answer)
    ensures
        r.deep_view() == conditional_answer(
            if_none_match.deep_view(),
            content_type@,
            cache_control@,
            body@,
        ),
{
    let tag: String = digest(body.as_slice());
    let etag: String = cat3("W/\"", tag.as_str(), "\"");
    if matches_etag(if_none_match, tag.as_str()) {
        return Answer {
            status: 304,
            content_type: None,
            etag,
            cache_control: cache_control.to_owned(),
            body: None,
        };
    }
    Answer {
        status: 200,
        content_type: Some(content_type.to_owned()),
        etag,
        cache_control: cache_control.to_owned(),
        body: Some(body),
    }
}

/// A client that sends back the tag it was given is recognised.
pub proof fn law_returned_tag_is_recognised(digest: Seq<char>)
    requires
        is_digest(digest),
    ensures
        holds_tag(Some(weak_tag(digest)), digest),
{
    reveal_strlit("W/\"");
    reveal_strlit("W/");
    reveal_strlit("\"");
    let raw = weak_tag(digest);
    assert forall|j: int| 0 <= j < raw.len() implies !only(',')(#[trigger] raw[j]) by {
        if 3 <= j < 3 + digest.len() {
            assert(is_hex(digest[j - 3]));
        }
    }
    lemma_split_single(raw, only(','));
    lemma_strip_start_at(raw, spaces(), 0);
    assert(raw.skip(0) =~= raw);
    lemma_strip_end_at(raw, spaces(), raw.len() as int);
    assert(raw.take(raw.len() as int) =~= raw);
    assert(trimmed(raw) == raw);
    let quoted = "\""@ + digest + "\""@;
    assert("W/"@.is_prefix_of(raw));
    assert(raw.skip(2) =~= quoted);
    assert(!"W/"@.is_prefix_of(quoted)) by {
        assert(quoted[0] == '"');
    }
    assert(strip_prefixes(quoted, "W/"@) == quoted);
    assert(strip_prefixes(raw, "W/"@) == quoted);
    assert(is_hex(digest[0]));
    assert(is_hex(digest[digest.len() - 1]));
    assert forall|j: int| 0 <= j < 1 implies only('"')(#[trigger] quoted[j]) by {}
    lemma_strip_start_at(quoted, only('"'), 1);
    let open = digest + "\""@;
    assert(quoted.skip(1) =~= open);
    assert forall|j: int| digest.len() <= j < open.len() implies only('"')(#[trigger] open[j]) by {}
    lemma_strip_end_at(open, only('"'), digest.len() as int);
    assert(open.take(digest.len() as int) =~= digest);
    assert(bare_tag(raw) == digest);
    let parts = split_on(raw, only(','));
    assert(parts.len() == 1 && parts[0] == raw);
    assert(entry_matches(parts[0], digest));
}

} // verus!
