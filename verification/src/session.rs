//! The session's typed state and the checks against cross-site requests.
//!
//! The session store keeps one opaque string per session; this is the panel's
//! view of it: a request token and queued flash messages. A state-changing
//! request must come from our own origin ([`origin_ok`]) and carry the session's
//! token ([`token_matches`]); safe methods ([`is_safe_method`]) are exempt.

use vstd::prelude::*;
use vstd::string::StringExecFns;
use vstd::utf8::{encode_utf8, encode_utf8_decode_utf8};

use crate::strs::{
    ascii_lowered, cat, find_value, first_value, only, same, spaces, starts_with, strip_end,
    strip_start, to_ascii_lowercase, trim_end_matches, trim_start,
};
use crate::text::{Text, TextModel};

verus! {

/// Current schema version of the session blob.
pub const VERSION: u8 = 1;

/// A blob of more bytes than this is not ours and is ignored.
pub const MAX_BLOB: usize = 4096;

/// The request header that carries the token of a scripted request.
pub const CSRF_HEADER: &'static str = "x-csrf-token";

/// The form field that carries the token.
pub const CSRF_FIELD: &'static str = "_csrf";

// -------------------------------------------------------------------- flashes
/// The severity of a flash message.
#[derive(Clone, Copy, Debug, PartialEq, Eq, Structural)]
pub enum FlashLevel {
    Success,
    Error,
    Info,
}

/// The style class of a severity.
pub open spec fn level_class(level: FlashLevel) -> Seq<char> {
    match level {
        FlashLevel::Success => "is-success"@,
        FlashLevel::Error => "is-error"@,
        FlashLevel::Info => "is-info"@,
    }
}

impl FlashLevel {
    /// The CSS modifier the flash renders with.
    pub fn class(self) -> (r: &'static str)
        ensures
            r@ == level_class(self),
    {
        match self {
            FlashLevel::Success => "is-success",
            FlashLevel::Error => "is-error",
            FlashLevel::Info => "is-info",
        }
    }
}

/// A message shown once, on the next full-page render.
pub struct Flash {
    pub level: FlashLevel,
    pub text: Text,
}

/// A [`Flash`], over characters.
pub struct FlashModel {
    pub level: FlashLevel,
    pub text: TextModel,
}

impl DeepView for Flash {
    type V = FlashModel;

    open spec fn deep_view(&self) -> FlashModel {
        FlashModel { level: self.level, text: self.text@ }
    }
}

impl Flash {
    /// A flash of the given severity that says `source`.
    pub fn say(level: FlashLevel, source: &str) -> (r: Flash)
        ensures
            r.deep_view() == flash(level, source@),
    {
        Flash { level, text: Text::new(source) }
    }
}

/// A flash of the given severity that says `source`.
pub open spec fn flash(level: FlashLevel, source: Seq<char>) -> FlashModel {
    FlashModel { level, text: crate::text::plain(source) }
}

// --------------------------------------------------------------- session data
/// The panel's typed view of the session blob.
pub struct SessionData {
    pub v: u8,
    pub csrf: String,
    pub flash: Vec<Flash>,
}

/// A [`SessionData`], over characters.
pub struct SessionModel {
    pub v: u8,
    pub csrf: Seq<char>,
    pub flash: Seq<FlashModel>,
}

impl View for SessionData {
    type V = SessionModel;

    open spec fn view(&self) -> SessionModel {
        SessionModel { v: self.v, csrf: self.csrf@, flash: self.flash.deep_view() }
    }
}

/// The session of someone who has none yet.
pub open spec fn empty_session() -> SessionModel {
    SessionModel { v: VERSION, csrf: Seq::empty(), flash: Seq::empty() }
}

/// The version a blob without one is read as.
pub fn default_version() -> (r: u8)
    ensures
        r == VERSION,
{
    VERSION
}

impl SessionData {
    /// A session with no token and no messages.
    pub fn empty() -> (r: SessionData)
        ensures
            r@ == empty_session(),
    {
        let flash: Vec<Flash> = Vec::new();
        assert(flash.deep_view() =~= Seq::<FlashModel>::empty());
        SessionData { v: default_version(), csrf: String::new(), flash }
    }

    /// The part of a stored blob worth decoding: nothing where there is none, or
    /// where it is larger than any blob of ours.
    pub fn readable(raw: Option<&str>) -> (r: Option<&str>)
        ensures
            r == (match raw {
                Some(s) => if encode_utf8(s@).len() as usize <= MAX_BLOB {
                    Some(s)
                } else {
                    None
                },
                None => None,
            }),
    {
        match raw {
            Some(s) => {
                if s.len() <= MAX_BLOB {
                    Some(s)
                } else {
                    None
                }
            },
            None => None,
        }
    }

    /// The session a decoded blob stands for. A blob that could not be decoded is
    /// an empty session, never an error, so a corrupt one locks nobody out.
    pub fn restored(decoded: Option<SessionData>) -> (r: SessionData)
        ensures
            match decoded {
                Some(data) => r == data,
                None => r@ == empty_session(),
            },
    {
        match decoded {
            Some(data) => data,
            None => SessionData::empty(),
        }
    }
}

/// The current session's state, and whether it changed since it was read.
pub struct SessionHandle {
    pub data: SessionData,
    pub dirty: bool,
}

/// A [`SessionHandle`], over characters.
pub struct HandleModel {
    pub data: SessionModel,
    pub dirty: bool,
}

impl View for SessionHandle {
    type V = HandleModel;

    open spec fn view(&self) -> HandleModel {
        HandleModel { data: self.data@, dirty: self.dirty }
    }
}

/// A session as a request opens it: a fresh one takes the minted token, and has
/// changed by that.
pub open spec fn opened(data: SessionModel, minted: Seq<char>) -> HandleModel {
    if data.csrf.len() == 0 {
        HandleModel { data: SessionModel { csrf: minted, ..data }, dirty: true }
    } else {
        HandleModel { data, dirty: false }
    }
}

/// A session with one more message queued.
pub open spec fn pushed(h: HandleModel, f: FlashModel) -> HandleModel {
    HandleModel { data: SessionModel { flash: h.data.flash.push(f), ..h.data }, dirty: true }
}

/// A session with its messages taken out. It has changed only where there were
/// some.
pub open spec fn emptied(h: HandleModel) -> HandleModel {
    HandleModel {
        data: SessionModel { flash: Seq::empty(), ..h.data },
        dirty: h.dirty || h.data.flash.len() > 0,
    }
}

impl SessionHandle {
    /// Opens a session with `minted` as the token of one that has none.
    pub fn open(data: SessionData, minted: String) -> (r: SessionHandle)
        ensures
            r@ == opened(data@, minted@),
    {
        if data.csrf.as_str().is_empty() {
            let data = SessionData { v: data.v, csrf: minted, flash: data.flash };
            SessionHandle { data, dirty: true }
        } else {
            SessionHandle { data, dirty: false }
        }
    }

    /// Opens a session, minting a token for one that has none.
    pub fn from_data(data: SessionData) -> (r: SessionHandle)
        ensures
            exists|minted: Seq<char>| is_token(minted) && r@ == #[trigger] opened(data@, minted),
    {
        let minted: String = generate_token();
        let ghost m = minted@;
        let r: SessionHandle = SessionHandle::open(data, minted);
        assert(is_token(m) && r@ == opened(data@, m));
        r
    }

    /// The session's request token.
    pub fn csrf_token(&self) -> (r: String)
        ensures
            r@ == self@.data.csrf,
    {
        self.data.csrf.clone()
    }

    /// Queues a message for the next full-page render.
    pub fn push_flash(&mut self, level: FlashLevel, text: Text)
        ensures
            final(self)@ == pushed(old(self)@, (FlashModel { level, text: text@ })),
    {
        let ghost before = self.data.flash.deep_view();
        let ghost f = FlashModel { level, text: text@ };
        self.data.flash.push(Flash { level, text });
        self.dirty = true;
        assert(self.data.flash.deep_view() =~= before.push(f));
    }

    /// Takes and clears the queued messages.
    pub fn take_flash(&mut self) -> (r: Vec<Flash>)
        ensures
            r.deep_view() == old(self)@.data.flash,
            final(self)@ == emptied(old(self)@),
    {
        if self.data.flash.len() > 0 {
            self.dirty = true;
        }
        let mut taken: Vec<Flash> = Vec::new();
        std::mem::swap(&mut taken, &mut self.data.flash);
        assert(self.data.flash.deep_view() =~= Seq::<FlashModel>::empty());
        taken
    }

    /// What to store again, or nothing where the request changed nothing.
    pub fn dirty_data(&self) -> (r: Option<&SessionData>)
        ensures
            r == (if self@.dirty {
                Some(&self.data)
            } else {
                None
            }),
    {
        if self.dirty {
            Some(&self.data)
        } else {
            None
        }
    }
}

/// What is queued is delivered once: taking gives every message in the order it
/// was queued, and taking again gives none. Both leave the token alone.
pub proof fn law_flash_is_delivered_once(h: HandleModel, f: FlashModel)
    ensures
        pushed(h, f).data.flash == h.data.flash.push(f),
        pushed(h, f).dirty,
        emptied(pushed(h, f)).dirty,
        emptied(pushed(h, f)).data.flash.len() == 0,
        emptied(pushed(h, f)).data.csrf == h.data.csrf,
        emptied(emptied(pushed(h, f))) == emptied(pushed(h, f)),
{
}

/// Opening an existing session changes nothing, so nothing is written back.
pub proof fn law_existing_session_opens_clean(data: SessionModel, minted: Seq<char>)
    requires
        data.csrf.len() > 0,
    ensures
        opened(data, minted).data == data,
        !opened(data, minted).dirty,
{
}

/// A fresh session opens with a token and is written back.
pub proof fn law_fresh_session_gets_a_token(data: SessionModel, minted: Seq<char>)
    requires
        data.csrf.len() == 0,
        is_token(minted),
    ensures
        opened(data, minted).data.csrf.len() == 64,
        opened(data, minted).dirty,
{
}

// --------------------------------------------------------------------- tokens
/// One hexadecimal digit of a value below sixteen.
pub open spec fn hex_digit(n: int) -> char {
    if n < 10 {
        (n + 48) as char
    } else {
        (n + 87) as char
    }
}

/// The lower-case hexadecimal form of some bytes.
pub open spec fn hex_of(bytes: Seq<u8>) -> Seq<char>
    decreases bytes.len(),
{
    if bytes.len() == 0 {
        Seq::empty()
    } else {
        let b = bytes.last() as int;
        hex_of(bytes.drop_last()).push(hex_digit(b / 16)).push(hex_digit(b % 16))
    }
}

/// A token: 256 bits in lower-case hexadecimal.
pub open spec fn is_token(s: Seq<char>) -> bool {
    exists|bytes: Seq<u8>| bytes.len() == 32 && s == #[trigger] hex_of(bytes) && s.len() == 64
}

/// `rand::rngs::OsRng` through `RngCore::fill_bytes`: thirty-two bytes from the
/// operating system's source of randomness. Which bytes is not stated.
#[verifier::external_body]
fn random_bytes() -> (r: Vec<u8>)
    ensures
        r@.len() == 32,
{
    let mut bytes = [0u8; 32];
    rand::RngCore::fill_bytes(&mut rand::rngs::OsRng, &mut bytes);
    bytes.to_vec()
}

/// One hexadecimal digit of a value below sixteen.
fn digit(n: u8) -> (c: char)
    requires
        n < 16,
    ensures
        c == hex_digit(n as int),
{
    if n < 10 {
        (n + 48) as char
    } else {
        (n + 87) as char
    }
}

/// The lower-case hexadecimal form of some bytes.
pub fn hex(bytes: &Vec<u8>) -> (out: String)
    ensures
        out@ == hex_of(bytes@),
        out@.len() == 2 * bytes@.len(),
{
    let mut out: String = String::new();
    let mut i: usize = 0;
    while i < bytes.len()
        invariant
            i <= bytes.len(),
            out@ == hex_of(bytes@.take(i as int)),
            out@.len() == 2 * i,
        decreases bytes.len() - i,
    {
        let b: u8 = bytes[i];
        assert(bytes@.take(i + 1).drop_last() =~= bytes@.take(i as int));
        out.push(digit(b / 16));
        out.push(digit(b % 16));
        i = i + 1;
    }
    assert(bytes@.take(bytes@.len() as int) =~= bytes@);
    out
}

/// A fresh 256-bit token in lower-case hexadecimal.
pub fn generate_token() -> (r: String)
    ensures
        is_token(r@),
{
    let bytes: Vec<u8> = random_bytes();
    let r: String = hex(&bytes);
    assert(r@ == hex_of(bytes@));
    r
}

/// Whether the method is read-only and therefore exempt from the checks.
pub open spec fn safe_method(m: Seq<char>) -> bool {
    m == "GET"@ || m == "HEAD"@ || m == "OPTIONS"@ || m == "QUERY"@
}

/// Whether the method is read-only and therefore exempt from the checks: `GET`,
/// `HEAD`, `OPTIONS`, and `QUERY`, a read that carries a body.
pub fn is_safe_method(m: &str) -> (r: bool)
    ensures
        r == safe_method(m@),
{
    same(m, "GET") || same(m, "HEAD") || same(m, "OPTIONS") || same(m, "QUERY")
}

/// Equality of two byte slices in time that depends on their lengths alone.
pub fn ct_eq(a: &[u8], b: &[u8]) -> (r: bool)
    ensures
        r == (a@ == b@),
{
    if a.len() != b.len() {
        return false;
    }
    let mut diff: u8 = 0;
    let mut i: usize = 0;
    while i < a.len()
        invariant
            a.len() == b.len(),
            i <= a.len(),
            diff == 0 <==> (forall|j: int| 0 <= j < i ==> a@[j] == b@[j]),
        decreases a.len() - i,
    {
        let x: u8 = a[i];
        let y: u8 = b[i];
        let before: u8 = diff;
        diff = diff | (x ^ y);
        assert((before | (x ^ y)) == 0 <==> before == 0 && x == y) by (bit_vector);
        i = i + 1;
    }
    assert(diff == 0 ==> a@ =~= b@);
    diff == 0
}

/// Whether a submitted token is the session's. A missing one, or a session
/// without a token, never matches.
pub open spec fn token_ok(expected: Seq<char>, submitted: Option<Seq<char>>) -> bool {
    expected.len() > 0 && submitted == Some(expected)
}

/// Whether the submitted request token matches the session's.
pub fn token_matches(expected: &str, submitted: Option<&str>) -> (r: bool)
    ensures
        r == token_ok(expected@, submitted.deep_view()),
{
    match submitted {
        Some(t) => {
            if expected.is_empty() {
                return false;
            }
            proof {
                encode_utf8_decode_utf8(expected@);
                encode_utf8_decode_utf8(t@);
            }
            ct_eq(expected.as_bytes(), t.as_bytes())
        },
        None => false,
    }
}

/// A token matches itself and nothing else, and the empty token matches nothing.
pub proof fn law_token_match_is_exact(expected: Seq<char>, submitted: Seq<char>)
    ensures
        token_ok(expected, Some(submitted)) <==> expected == submitted && expected.len() > 0,
        !token_ok(expected, None),
        !token_ok(Seq::empty(), Some(submitted)),
{
}

// --------------------------------------------------------------------- origin
/// Whether a state-changing request comes from our own origin. The browser's own
/// verdict decides where it sent one; else the `Origin` header must name the
/// expected origin, or the request's host where none is configured.
pub open spec fn same_origin(
    sec_fetch_site: Option<Seq<char>>,
    origin: Option<Seq<char>>,
    host: Option<Seq<char>>,
    expected: Seq<char>,
) -> bool {
    match sec_fetch_site {
        Some(site) => site == "same-origin"@ || site == "none"@,
        None => match origin {
            None => false,
            Some(o) => {
                let sent = strip_end(o, only('/'));
                if expected.len() > 0 {
                    sent == strip_end(expected, only('/'))
                } else {
                    match host {
                        Some(h) => sent == "http://"@ + h || sent == "https://"@ + h,
                        None => false,
                    }
                }
            },
        },
    }
}

/// The primary gate for a state-changing request: it must come from our own
/// origin. The three headers are given as the request carries them.
pub fn origin_ok(
    sec_fetch_site: Option<&str>,
    origin: Option<&str>,
    host: Option<&str>,
    expected_origin: &str,
) -> (r: bool)
    ensures
        r == same_origin(
            sec_fetch_site.deep_view(),
            origin.deep_view(),
            host.deep_view(),
            expected_origin@,
        ),
{
    match sec_fetch_site {
        Some(site) => {
            return same(site, "same-origin") || same(site, "none");
        },
        None => {},
    }
    match origin {
        None => false,
        Some(o) => {
            let sent: &str = trim_end_matches(o, '/');
            if !expected_origin.is_empty() {
                return same(sent, trim_end_matches(expected_origin, '/'));
            }
            match host {
                Some(h) => {
                    same(sent, cat("http://", h).as_str()) || same(
                        sent,
                        cat("https://", h).as_str(),
                    )
                },
                None => false,
            }
        },
    }
}

/// A request that carries neither header is refused whatever the deployment
/// expects.
pub proof fn law_request_without_origin_is_refused(host: Option<Seq<char>>, expected: Seq<char>)
    ensures
        !same_origin(None, None, host, expected),
{
}

// ---------------------------------------------------------- submitted tokens
/// The pairs of a URL-encoded form body or query string, decoded, in order.
pub uninterp spec fn form_pairs(bytes: Seq<u8>) -> Seq<(Seq<char>, Seq<char>)>;

/// `form_urlencoded::parse`: the key and value pairs of a URL-encoded body, each
/// decoded, in the order they stand in it.
#[verifier::external_body]
pub(crate) fn parse_form(bytes: &[u8]) -> (r: Vec<(String, String)>)
    ensures
        r.deep_view() == form_pairs(bytes@),
{
    form_urlencoded::parse(bytes).into_owned().collect()
}

/// The token that stands among decoded pairs.
pub open spec fn token_in(pairs: Seq<(Seq<char>, Seq<char>)>) -> Option<Seq<char>> {
    first_value(pairs, CSRF_FIELD@)
}

/// The token that stands among decoded pairs: the first of its name.
pub fn field_token(pairs: &Vec<(String, String)>) -> (r: Option<String>)
    ensures
        r.deep_view() == token_in(pairs.deep_view()),
{
    find_value(pairs, CSRF_FIELD)
}

/// The token a scripted request sends in its header.
pub fn header_token(header: Option<&str>) -> (r: Option<String>)
    ensures
        r.deep_view() == header.deep_view(),
{
    match header {
        Some(token) => Some(token.to_owned()),
        None => None,
    }
}

/// The submitted token: the header where there is one, else the form field.
pub fn submitted_token(header: Option<&str>, body: &[u8]) -> (r: Option<String>)
    ensures
        r.deep_view() == (match header.deep_view() {
            Some(token) => Some(token),
            None => token_in(form_pairs(body@)),
        }),
{
    match header_token(header) {
        Some(token) => Some(token),
        None => field_token(&parse_form(body)),
    }
}

/// The token from the URL's query string: the fallback of a file upload with
/// scripting off.
pub fn query_token(query: Option<&str>) -> (r: Option<String>)
    ensures
        r.deep_view() == (match query {
            Some(q) => token_in(form_pairs(encode_utf8(q@))),
            None => None,
        }),
{
    match query {
        Some(q) => field_token(&parse_form(q.as_bytes())),
        None => None,
    }
}

/// A check the guard could not make itself, handed to the handler. It is
/// outstanding until the handler says otherwise.
pub struct CsrfPending {
    satisfied: bool,
}

impl View for CsrfPending {
    type V = bool;

    closed spec fn view(&self) -> bool {
        self.satisfied
    }
}

impl CsrfPending {
    /// An outstanding check.
    pub fn new() -> (r: CsrfPending)
        ensures
            !r@,
    {
        CsrfPending { satisfied: false }
    }

    /// Called once the token has been checked.
    pub fn satisfy(&mut self)
        ensures
            final(self)@,
    {
        self.satisfied = true;
    }

    /// Whether the check was made.
    pub fn was_satisfied(&self) -> (r: bool)
        ensures
            r == self@,
    {
        self.satisfied
    }
}

/// Whether a content type announces a file upload.
pub open spec fn multipart(content_type: Option<Seq<char>>) -> bool {
    match content_type {
        Some(ct) => "multipart/form-data"@.is_prefix_of(ascii_lowered(strip_start(ct, spaces()))),
        None => false,
    }
}

/// Whether this request carries a body that must not be buffered.
pub fn is_multipart(content_type: Option<&str>) -> (r: bool)
    ensures
        r == multipart(content_type.deep_view()),
{
    match content_type {
        Some(ct) => starts_with(to_ascii_lowercase(trim_start(ct)).as_str(), "multipart/form-data"),
        None => false,
    }
}

} // verus!
