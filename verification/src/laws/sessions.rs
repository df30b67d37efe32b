//! What signing in, sessions and the checks on a request promise.

use vstd::prelude::*;

use crate::clientip::{
    agent_of, first_named, header_text_of, is_network, label_of, networks, recorded, trusts,
    browsers, systems, network_holds,
};
use crate::cookies::{
    remember_cookie_model, removal_model, session_cookie_model, REMEMBER_COOKIE, SESSION_COOKIE,
};
use crate::error::ErrorKind;
use crate::guard::{
    first_step, lets_through, recalled_cookies, rejection, round, shown_flash, verdict, withheld,
    AuthStepModel, CredentialModel, StoreModel, Verdict,
};
use crate::laws::values::lemma_kept;
use crate::reply::saved;
use crate::session::{
    emptied, empty_session, flash, hex_digit, hex_of, level_class, multipart, opened, pushed,
    safe_method, same_origin, token_in, FlashLevel, FlashModel, HandleModel, SessionModel,
    CSRF_FIELD,
};
use crate::signin::{described, failure, setup_refusal, shown_error, sign_in_cookies, SetupModel};
use crate::strs::{is_digit, occurs, only, strip_end, trimmed};
use crate::text::{localized, TextModel};
use crate::upload::leading_token;

verus! {

// --------------------------------------------------------------------- sessions
/// A session that has a token keeps it and is not written; one that has none takes the
/// minted one and is. Either way it keeps its messages.
pub proof fn law_a_session_has_a_token(data: SessionModel, minted: Seq<char>)
    requires
        minted.len() > 0,
    ensures
        opened(data, minted).data.csrf.len() > 0,
        data.csrf.len() > 0 ==> opened(data, minted).data.csrf == data.csrf && !opened(
            data,
            minted,
        ).dirty,
        data.csrf.len() == 0 ==> opened(data, minted).data.csrf == minted && opened(
            data,
            minted,
        ).dirty,
        opened(data, minted).data.flash == data.flash,
        empty_session().csrf.len() == 0,
        empty_session().flash.len() == 0,
{
}

/// A message that is pushed is the last one delivered, behind those that wait; taking
/// the messages leaves none, and a session that changed is written.
pub proof fn law_a_pushed_message_is_delivered(h: HandleModel, f: FlashModel)
    ensures
        pushed(h, f).data.flash.len() == h.data.flash.len() + 1,
        pushed(h, f).data.flash.last() == f,
        pushed(h, f).data.flash.drop_last() == h.data.flash,
        pushed(h, f).dirty,
        pushed(h, f).data.csrf == h.data.csrf,
        emptied(pushed(h, f)).data.flash.len() == 0,
        emptied(pushed(h, f)).dirty,
        emptied(h).data.csrf == h.data.csrf,
        h.data.flash.len() == 0 ==> emptied(h) == h,
        h.data.flash.len() > 0 || h.dirty ==> emptied(h).dirty,
{
    assert(pushed(h, f).data.flash.drop_last() =~= h.data.flash);
    if h.data.flash.len() == 0 {
        assert(h.data.flash =~= Seq::empty());
    }
}

/// Each kind of message has a style of its own, and a message says what it was given.
pub proof fn law_a_message_has_its_own_style(a: FlashLevel, b: FlashLevel, source: Seq<char>)
    ensures
        level_class(a) == level_class(b) ==> a == b,
        flash(a, source).level == a,
        flash(a, source).text.source == source,
        level_class(FlashLevel::Error) == "is-error"@,
        level_class(FlashLevel::Success) == "is-success"@,
{
    reveal_strlit("is-success");
    reveal_strlit("is-error");
    reveal_strlit("is-info");
    assert(level_class(FlashLevel::Success).len() == 10);
    assert(level_class(FlashLevel::Error).len() == 8);
    assert(level_class(FlashLevel::Info).len() == 7);
}

/// The digits of a token are lowercase hexadecimal, two for each byte, and tell different
/// bytes apart.
pub proof fn law_a_token_tells_bytes_apart(bytes: Seq<u8>, i: int)
    requires
        0 <= i < bytes.len(),
    ensures
        hex_of(bytes).len() == 2 * bytes.len(),
        hex_of(bytes)[2 * i] == hex_digit(bytes[i] as int / 16),
        hex_of(bytes)[2 * i + 1] == hex_digit(bytes[i] as int % 16),
        forall|m: int, n: int|
            0 <= m < 16 && 0 <= n < 16 && hex_digit(m) == hex_digit(n) ==> m == n,
        forall|n: int|
            0 <= n < 16 ==> is_digit(#[trigger] hex_digit(n)) || 'a' <= hex_digit(n) <= 'f',
    decreases bytes.len(),
{
    assert forall|n: int| 0 <= n < 16 implies (is_digit(#[trigger] hex_digit(n)) || 'a'
        <= hex_digit(n) <= 'f') && hex_digit(n) as int == (if n < 10 {
        n + 48
    } else {
        n + 87
    }) by {}
    let init = bytes.drop_last();
    if init.len() > 0 {
        law_a_token_tells_bytes_apart(
            init,
            if i < init.len() {
                i
            } else {
                0
            },
        );
    } else {
        assert(hex_of(init).len() == 0);
    }
    if i < init.len() {
        assert(init[i] == bytes[i]);
    }
}

// ------------------------------------------------------------------ the request
/// A request that only reads needs no token; one that changes something does, whatever
/// its method is called.
pub proof fn law_only_reads_go_without_a_token(
    method: Seq<char>,
    content_type: Option<Seq<char>>,
    token: Option<Seq<char>>,
    expected: Seq<char>,
)
    ensures
        safe_method(method) <==> method == "GET"@ || method == "HEAD"@ || method == "OPTIONS"@
            || method == "QUERY"@,
        safe_method(method) ==> verdict(method, content_type, token, None, None, expected)
            is Pass,
        !safe_method(method) && !multipart(content_type) ==> (verdict(
            method,
            content_type,
            None,
            None,
            token,
            expected,
        ) is Pass <==> expected.len() > 0 && token == Some(expected)),
        !safe_method(method) && token is Some ==> (verdict(
            method,
            content_type,
            token,
            None,
            None,
            expected,
        ) is Pass <==> expected.len() > 0 && token == Some(expected)),
        !safe_method(method) && multipart(content_type) ==> (verdict(
            method,
            content_type,
            None,
            token,
            None,
            expected,
        ) is Pass <==> expected.len() > 0 && token == Some(expected)),
        !safe_method(method) && multipart(content_type) ==> verdict(
            method,
            content_type,
            None,
            None,
            token,
            expected,
        ) is Deferred,
{
}

/// A header's token counts before one in the body or the address.
pub proof fn law_a_headers_token_counts_first(
    method: Seq<char>,
    content_type: Option<Seq<char>>,
    header: Seq<char>,
    a: Option<Seq<char>>,
    b: Option<Seq<char>>,
    expected: Seq<char>,
)
    ensures
        verdict(method, content_type, Some(header), a, b, expected) == verdict(
            method,
            content_type,
            Some(header),
            None,
            None,
            expected,
        ),
        token_in(seq![(CSRF_FIELD@, header)]) == Some(header),
        leading_token(Some(CSRF_FIELD@), Some(header)) == Some(header),
        leading_token(None, Some(header)) is None,
        forall|name: Seq<char>|
            name != CSRF_FIELD@ ==> #[trigger] leading_token(Some(name), Some(header)) is None,
{
    let pairs = seq![(CSRF_FIELD@, header)];
    assert(pairs[0] == (CSRF_FIELD@, header));
}

/// A deferred check lets a request through only once the handler has made it; a rejected
/// request is never let through, and is told so as forbidden.
pub proof fn law_a_deferred_check_has_to_be_made(checked: bool)
    ensures
        lets_through(Verdict::Deferred, checked) <==> checked,
        lets_through(Verdict::Pass, checked),
        !lets_through(Verdict::Rejected, checked),
        withheld(Some(false)),
        !withheld(Some(true)),
        !withheld(None),
        rejection().status == 403,
        rejection().kind == ErrorKind::Forbidden,
        failure().status == 500,
        failure().detail is None,
{
}

/// A browser's own word on where a request comes from decides; without it the origin has
/// to be the panel's, by its configured address or else by the host it was sent to.
pub proof fn law_a_change_comes_from_the_panel(
    site: Seq<char>,
    origin: Option<Seq<char>>,
    host: Option<Seq<char>>,
    expected: Seq<char>,
    name: Seq<char>,
)
    ensures
        same_origin(Some(site), origin, host, expected) <==> site == "same-origin"@ || site
            == "none"@,
        !same_origin(None, None, host, expected),
        expected.len() > 0 && !only('/')(expected.last()) ==> same_origin(
            None,
            Some(expected),
            host,
            expected,
        ),
        expected.len() > 0 && origin is Some && same_origin(None, origin, host, expected)
            ==> strip_end(origin->0, only('/')) == strip_end(expected, only('/')),
        name.len() > 0 && name.last() != '/' ==> same_origin(
            None,
            Some("https://"@ + name),
            Some(name),
            Seq::empty(),
        ) && same_origin(None, Some("http://"@ + name), Some(name), Seq::empty()),
        !same_origin(None, origin, None, Seq::empty()),
{
    if name.len() > 0 && name.last() != '/' {
        assert(("https://"@ + name).last() == name.last());
        assert(("http://"@ + name).last() == name.last());
    }
}

/// Messages are shown where a page is rendered, and wait where it is not.
pub proof fn law_messages_wait_for_a_page(method: Seq<char>, queued: Seq<FlashModel>)
    ensures
        method == "GET"@ ==> shown_flash(method, queued) == queued,
        method == "POST"@ ==> shown_flash(method, queued).len() == 0,
{
    reveal_strlit("GET");
    reveal_strlit("HEAD");
    reveal_strlit("OPTIONS");
    reveal_strlit("QUERY");
    reveal_strlit("POST");
    assert("POST"@[0] == 'P' && "HEAD"@[0] == 'H');
}

// ------------------------------------------------------------------- signing in
/// Who asks is settled by the store alone: a live session signs in under its own token; a
/// dead or missing one falls back on the credential, which signs in under the session it
/// is traded for; and who has neither is asked to sign in.
pub proof fn law_the_store_settles_who_asks(
    store: StoreModel,
    session: Option<Seq<char>>,
    remember: Option<Seq<char>>,
)
    ensures
        ({
            let settled = round(store, round(store, round(store, first_step(session, remember))));
            let live = session is Some && (store.live)(session->0);
            &&& live ==> settled == AuthStepModel::SignedIn { session: session->0, recalled: None }
            &&& !live && remember is None ==> settled is ToLogin
            &&& !live && remember is Some && (store.traded)(remember->0) is None ==> settled
                is ToLogin
            &&& !live && remember is Some && (store.traded)(remember->0) is Some ==> {
                let (minted, credential) = (store.traded)(remember->0)->0;
                &&& (store.live)(minted) ==> settled == AuthStepModel::SignedIn {
                    session: minted,
                    recalled: Some(credential),
                }
                &&& !(store.live)(minted) ==> settled is ToLogin
            }
        }),
{
}

/// A recall replaces both halves, the session and the credential; an ordinary request
/// sets neither.
pub proof fn law_a_recall_replaces_both_cookies(
    session: Seq<char>,
    c: CredentialModel,
    admin: Seq<char>,
    secure: bool,
)
    ensures
        ({
            let set = recalled_cookies(session, Some(c), admin, secure);
            &&& set.len() == 2
            &&& set[0].name == SESSION_COOKIE@ && set[0].value == session
            &&& set[1].name == REMEMBER_COOKIE@ && set[1].value == c.cookie
        }),
        recalled_cookies(session, None, admin, secure).len() == 0,
        ({
            let kept = sign_in_cookies(session, Some(c), admin, secure);
            let brief = sign_in_cookies(session, None, admin, secure);
            &&& kept.len() == 2 && brief.len() == 1
            &&& kept[0] == brief[0] && brief[0].value == session && brief[0].name
                == SESSION_COOKIE@
            &&& kept[1].value == c.cookie && kept[1].name == REMEMBER_COOKIE@
        }),
{
}

/// Both cookies belong to the panel's own path, are out of a script's reach and go to the
/// panel's own site; they are secure where the panel is. The session's dies with the
/// browser; the credential's lives as long as the credential does.
pub proof fn law_a_cookie_is_the_panels_own(
    token: Seq<char>,
    seconds: i64,
    admin: Seq<char>,
    secure: bool,
    name: Seq<char>,
)
    ensures
        ({
            let s = session_cookie_model(token, admin, secure);
            let r = remember_cookie_model(token, seconds, admin, secure);
            &&& s.path == admin && r.path == admin
            &&& s.value == token && r.value == token
            &&& s.http_only && r.http_only
            &&& s.same_site_lax && r.same_site_lax
            &&& s.secure == secure && r.secure == secure
            &&& s.max_age is None
            &&& seconds >= 0 ==> r.max_age == Some(seconds)
            &&& seconds < 0 ==> r.max_age == Some(0i64)
            &&& s.name != r.name
        }),
        removal_model(name, admin).name == name,
        removal_model(name, admin).path == admin,
        removal_model(name, admin).value.len() == 0,
{
    reveal_strlit("laterite_session");
    reveal_strlit("laterite_remember");
    assert(SESSION_COOKIE@.len() == 16);
    assert(REMEMBER_COOKIE@.len() == 17);
}

/// The first account is created just as it was entered, without white space around its
/// parts; setup goes through where all that is needed is there and the zone is known.
pub proof fn law_setup_creates_what_was_entered(form: SetupModel, known_zone: bool)
    ensures
        ({
            let made = described(form);
            &&& made.username == trimmed(form.username)
            &&& made.email == trimmed(form.email)
            &&& made.first_name == trimmed(form.first_name)
            &&& made.password == form.password
            &&& made.timezone == Some(trimmed(form.timezone))
            &&& trimmed(form.last_name).len() > 0 ==> made.last_name == Some(
                trimmed(form.last_name),
            )
            &&& trimmed(form.last_name).len() == 0 ==> made.last_name is None
        }),
        ({
            let whole = trimmed(form.username).len() > 0 && trimmed(form.email).len() > 0
                && trimmed(form.first_name).len() > 0 && form.password.len() > 0;
            &&& (setup_refusal(form, known_zone) is None <==> whole && known_zone)
            &&& whole && !known_zone ==> (setup_refusal(form, known_zone)->0).source
                == "That is not a recognised timezone."@
            &&& !whole ==> (setup_refusal(form, known_zone)->0).source
                == "Username, first name, email, and password are all required."@
        }),
{
}

/// An error is shown in the visitor's own language, and none where there is none.
pub proof fn law_an_error_is_shown_in_words(
    e: TextModel,
    table: Seq<(Seq<char>, Seq<char>)>,
)
    ensures
        shown_error(Some(e), table) == Some(localized(table, e)),
        shown_error(None, table) is None,
{
}

/// After a save an ordinary request is redirected, and a scripted one is told where to
/// go; both lead to the same place.
pub proof fn law_a_save_leads_on(to: Seq<char>)
    ensures
        saved(false, to).to == to,
        saved(true, to).to == to,
        saved(false, to).status == 303,
        saved(false, to).header == "location"@,
        saved(true, to).status == 204,
        saved(true, to).header == "HX-Redirect"@,
{
}

// --------------------------------------------------------------- where it is from
/// Behind proxies that are ours, the address on record is the last one in the chain that
/// is not; a peer that is not ours is on record itself, whatever it says.
pub proof fn law_the_last_foreign_hop_is_recorded(
    peer: Seq<char>,
    hops: Seq<(Seq<char>, bool)>,
    ip: Seq<char>,
)
    ensures
        recorded(peer, false, hops) == peer,
        recorded(peer, true, hops.push((ip, false))) == ip,
        recorded(peer, true, hops.push((ip, true))) == recorded(peer, true, hops),
        recorded(peer, true, Seq::empty()) == peer,
{
    assert(hops.push((ip, true)).drop_last() =~= hops);
}

/// Only what names a network is trusted, and an address is where a trusted network holds
/// it.
pub proof fn law_only_networks_are_trusted(
    ranges: Seq<Seq<char>>,
    range: Seq<char>,
    address: Seq<char>,
)
    ensures
        networks(ranges).contains(range) <==> ranges.contains(range) && is_network(range),
        trusts(ranges, address) <==> exists|r: Seq<char>| #[trigger]
            ranges.contains(r) && network_holds(r, address),
{
    let f = |raw: Seq<char>|
        if is_network(raw) {
            Some(raw)
        } else {
            None::<Seq<char>>
        };
    lemma_kept(ranges, f, range);
    if ranges.contains(range) && is_network(range) {
        assert(f(range) == Some(range));
    }
    if networks(ranges).contains(range) {
        let t = choose|t: Seq<char>| #[trigger] ranges.contains(t) && f(t) == Some(range);
        assert(t == range);
    }
    if trusts(ranges, address) {
        let i = choose|i: int| 0 <= i < ranges.len() && network_holds(ranges[i], address);
        assert(ranges.contains(ranges[i]));
    }
    if exists|r: Seq<char>| #[trigger] ranges.contains(r) && network_holds(r, address) {
        let r = choose|r: Seq<char>| #[trigger] ranges.contains(r) && network_holds(r, address);
        let i = choose|i: int| 0 <= i < ranges.len() && ranges[i] == r;
        assert(network_holds(ranges[i], address));
    }
}

/// A header is read where every byte of it can be shown, byte for byte; an agent is the
/// start of what was sent, all of it where it is not too long.
pub proof fn law_an_agent_is_recorded_as_sent(bytes: Seq<u8>, i: int)
    ensures
        header_text_of(bytes) matches Some(t) ==> t.len() == bytes.len() && (0 <= i < bytes.len()
            ==> t[i] as int == bytes[i]),
        header_text_of(bytes) is Some <==> forall|k: int|
            0 <= k < bytes.len() ==> (32 <= #[trigger] bytes[k] < 127 || bytes[k] == 9),
        header_text_of(bytes) matches Some(t) ==> (agent_of(Some(bytes)) is Some <==> t.len() > 0),
        header_text_of(bytes) matches Some(t) ==> (0 < t.len() <= 512 ==> agent_of(Some(bytes))
            == Some(t)),
        header_text_of(bytes) matches Some(t) ==> (t.len() > 512 ==> agent_of(Some(bytes))
            == Some(t.take(512))),
        header_text_of(bytes) is None ==> agent_of(Some(bytes)) is None,
        agent_of(None) is None,
{
    if header_text_of(bytes) is Some {
        let t = header_text_of(bytes)->0;
        if 0 <= i < bytes.len() {
            assert(crate::clientip::header_byte(bytes[i]));
            assert(t[i] == bytes[i] as char);
        }
        assert forall|k: int| 0 <= k < bytes.len() implies (32 <= #[trigger] bytes[k] < 127
            || bytes[k] == 9) by {
            assert(crate::clientip::header_byte(bytes[k]));
        }
    }
    if forall|k: int| 0 <= k < bytes.len() ==> (32 <= #[trigger] bytes[k] < 127 || bytes[k] == 9) {
        assert forall|k: int| 0 <= k < bytes.len() implies crate::clientip::header_byte(
            #[trigger] bytes[k],
        ) by {}
    }
}

/// An agent is labelled by the first token it holds of the browsers and of the systems,
/// the most specific first; an agent that holds none has no label.
pub proof fn law_an_agent_is_labelled_by_its_first_token(
    table: Seq<(Seq<char>, Seq<char>)>,
    agent: Seq<char>,
    i: int,
)
    requires
        0 <= i < table.len(),
        occurs(agent, table[i].0),
        forall|k: int| 0 <= k < i ==> !occurs(agent, (#[trigger] table[k]).0),
    ensures
        first_named(table, agent) == Some(table[i].1),
    decreases i,
{
    if i > 0 {
        let rest = table.drop_first();
        assert(!occurs(agent, table[0].0));
        assert forall|k: int| 0 <= k < i - 1 implies !occurs(agent, (#[trigger] rest[k]).0) by {
            assert(rest[k] == table[k + 1]);
        }
        law_an_agent_is_labelled_by_its_first_token(rest, agent, i - 1);
    }
}

/// A label names the browser and the system it runs on, or whichever of the two is known.
pub proof fn law_a_label_names_browser_and_system(agent: Seq<char>)
    ensures
        ({
            let browser = first_named(browsers(), agent);
            let system = first_named(systems(), agent);
            &&& (label_of(agent) is None <==> browser is None && system is None)
            &&& browser is Some && system is Some ==> label_of(agent) == Some(
                browser->0 + " on "@ + system->0,
            )
            &&& browser is Some && system is None ==> label_of(agent) == browser
            &&& browser is None && system is Some ==> label_of(agent) == system
        }),
        occurs(agent, "Edg/"@) ==> first_named(browsers(), agent) == Some("Edge"@),
        occurs(agent, "iPhone"@) ==> first_named(systems(), agent) == Some("iPhone"@),
        !occurs(agent, "Edg/"@) && !occurs(agent, "OPR/"@) && !occurs(agent, "Vivaldi"@) && !occurs(
            agent,
            "Brave"@,
        ) ==> {
            &&& occurs(agent, "Firefox/"@) ==> first_named(browsers(), agent) == Some("Firefox"@)
            &&& !occurs(agent, "Firefox/"@) && occurs(agent, "Chrome/"@) ==> first_named(
                browsers(),
                agent,
            ) == Some("Chrome"@)
            &&& !occurs(agent, "Firefox/"@) && !occurs(agent, "Chrome/"@) && occurs(
                agent,
                "Safari/"@,
            ) ==> first_named(browsers(), agent) == Some("Safari"@)
        },
{
    let b = browsers();
    if occurs(agent, "Edg/"@) {
        law_an_agent_is_labelled_by_its_first_token(b, agent, 0);
    }
    if occurs(agent, "iPhone"@) {
        law_an_agent_is_labelled_by_its_first_token(systems(), agent, 0);
    }
    if !occurs(agent, "Edg/"@) && !occurs(agent, "OPR/"@) && !occurs(agent, "Vivaldi"@) && !occurs(
        agent,
        "Brave"@,
    ) {
        if occurs(agent, "Firefox/"@) {
            law_an_agent_is_labelled_by_its_first_token(b, agent, 4);
        } else if occurs(agent, "Chrome/"@) {
            law_an_agent_is_labelled_by_its_first_token(b, agent, 5);
        } else if occurs(agent, "Safari/"@) {
            law_an_agent_is_labelled_by_its_first_token(b, agent, 6);
        }
    }
}

} // verus!
