//! Resolving the client address behind proxies.
//!
//! The forwarding header is written by whoever is talking to us, so it is
//! evidence only when the peer is a proxy we chose to believe. A deployment names
//! those networks; anything else records the address it connected from.

use vstd::prelude::*;

use crate::strs::{cat3, contains, occurs, only, split, split_on, trim, trimmed};

verus! {

/// What a recorded user agent is capped at, since its text is the caller's and
/// has no useful upper bound of its own.
pub const MAX_USER_AGENT: usize = 512;

/// Where a request came from.
pub struct RequestContext {
    pub ip_address: Option<String>,
    pub user_agent: Option<String>,
}

// ------------------------------------------------------------------- networks
/// Whether a text is a network in address and prefix form.
pub uninterp spec fn is_network(text: Seq<char>) -> bool;

/// The address a text spells, in its canonical form.
pub uninterp spec fn address_of(text: Seq<char>) -> Option<Seq<char>>;

/// Whether an address lies in a network, both in their text form.
pub uninterp spec fn network_holds(network: Seq<char>, address: Seq<char>) -> bool;

/// `ipnet::IpNet` through `FromStr`: whether the text parses as a network.
#[verifier::external_body]
fn parses_as_network(text: &str) -> (r: bool)
    ensures
        r == is_network(text@),
{
    text.parse::<ipnet::IpNet>().is_ok()
}

/// The address that `ipnet::IpNet::new` takes and `IpNet::addr` gives back, read with
/// its own `FromStr` and shown with its own `Display`: the address the text spells, or
/// none where it spells none.
#[verifier::external_body]
fn parse_address(text: &str) -> (r: Option<String>)
    ensures
        r.deep_view() == address_of(text@),
{
    let host = ipnet::IpNet::new(text.parse().ok()?, 0).ok()?;
    Some(host.addr().to_string())
}

/// `ipnet::IpNet::contains`: whether the address lies between the network's first
/// and last. A network and an address of different families never match, and
/// neither does a text that is no network or no address.
#[verifier::external_body]
fn holds(network: &str, address: &str) -> (r: bool)
    ensures
        r == network_holds(network@, address@),
{
    let host = |text: &str| ipnet::IpNet::new(text.parse().ok()?, 0).ok();
    match (network.parse::<ipnet::IpNet>(), host(address)) {
        (Ok(net), Some(inside)) => net.contains(&inside.addr()),
        _ => false,
    }
}

/// The ranges that are networks, in order.
pub open spec fn networks(ranges: Seq<Seq<char>>) -> Seq<Seq<char>> {
    ranges.filter_map(
        |raw: Seq<char>|
            if is_network(raw) {
                Some(raw)
            } else {
                None::<Seq<char>>
            },
    )
}

/// The configured ranges, without the malformed ones: a typo in one does not stop
/// a boot.
pub fn parse_trusted(ranges: &Vec<String>) -> (r: Vec<String>)
    ensures
        r.deep_view() == networks(ranges.deep_view()),
{
    let ghost all = ranges.deep_view();
    let ghost f = |raw: Seq<char>|
        if is_network(raw) {
            Some(raw)
        } else {
            None::<Seq<char>>
        };
    let mut r: Vec<String> = Vec::new();
    let mut i: usize = 0;
    assert(r.deep_view() =~= all.take(0).filter_map(f));
    while i < ranges.len()
        invariant
            i <= ranges.len(),
            all == ranges.deep_view(),
            f == (|raw: Seq<char>|
                if is_network(raw) {
                    Some(raw)
                } else {
                    None::<Seq<char>>
                }),
            r.deep_view() == all.take(i as int).filter_map(f),
        decreases ranges.len() - i,
    {
        let ghost before = r.deep_view();
        proof {
            all.lemma_filter_map_take_succ(f, i as int);
            assert(all[i as int] == ranges@[i as int]@);
        }
        if parses_as_network(ranges[i].as_str()) {
            r.push(ranges[i].clone());
            assert(r.deep_view() =~= before + seq![all[i as int]]);
        }
        i = i + 1;
    }
    assert(all.take(all.len() as int) =~= all);
    r
}

/// Whether one of the networks holds an address.
pub open spec fn trusts(networks: Seq<Seq<char>>, address: Seq<char>) -> bool {
    exists|i: int| 0 <= i < networks.len() && #[trigger] network_holds(networks[i], address)
}

/// Whether one of the networks holds an address.
fn trusted(address: &str, trusted_proxies: &Vec<String>) -> (r: bool)
    ensures
        r == trusts(trusted_proxies.deep_view(), address@),
{
    let ghost all = trusted_proxies.deep_view();
    let mut i: usize = 0;
    while i < trusted_proxies.len()
        invariant
            i <= trusted_proxies.len(),
            all == trusted_proxies.deep_view(),
            forall|j: int| 0 <= j < i ==> !#[trigger] network_holds(all[j], address@),
        decreases trusted_proxies.len() - i,
    {
        assert(all[i as int] == trusted_proxies@[i as int]@);
        if holds(trusted_proxies[i].as_str(), address) {
            assert(network_holds(all[i as int], address@));
            return true;
        }
        i = i + 1;
    }
    false
}

// --------------------------------------------------------------------- client
/// The last hop that is not one of ours.
pub open spec fn last_foreign(hops: Seq<(Seq<char>, bool)>) -> Option<Seq<char>>
    decreases hops.len(),
{
    if hops.len() == 0 {
        None
    } else if !hops.last().1 {
        Some(hops.last().0)
    } else {
        last_foreign(hops.drop_last())
    }
}

/// The address to record of a peer that is or is not one of ours, and of the hops
/// it reports, each with whether it is one of ours.
pub open spec fn recorded(
    peer: Seq<char>,
    peer_ours: bool,
    hops: Seq<(Seq<char>, bool)>,
) -> Seq<char> {
    if !peer_ours {
        peer
    } else {
        match last_foreign(hops) {
            Some(ip) => ip,
            // Every hop in the chain is one of ours, so the peer is the best we have.
            None => peer,
        }
    }
}

/// The hops a forwarding header lists, each with whether it is one of ours. What
/// is no address is passed over.
pub open spec fn hops_of(
    forwarded: Seq<char>,
    networks: Seq<Seq<char>>,
) -> Seq<(Seq<char>, bool)> {
    split_on(forwarded, only(',')).filter_map(
        |part: Seq<char>|
            match address_of(trimmed(part)) {
                Some(ip) => Some((ip, trusts(networks, ip))),
                None => None::<(Seq<char>, bool)>,
            },
    )
}

/// The address to record: the rightmost hop that is not one of ours, behind a peer
/// that is. Walking from the right skips the hops we added and stops at the first
/// address we did not write.
pub fn pick_client(peer: &str, peer_ours: bool, hops: &Vec<(String, bool)>) -> (r: String)
    ensures
        r@ == recorded(peer@, peer_ours, hops.deep_view()),
{
    if !peer_ours {
        return peer.to_owned();
    }
    let ghost all = hops.deep_view();
    let mut i: usize = hops.len();
    assert(all.take(i as int) =~= all);
    while i > 0
        invariant
            i <= hops.len(),
            all == hops.deep_view(),
            peer_ours,
            last_foreign(all) == last_foreign(all.take(i as int)),
        decreases i,
    {
        assert(all.take(i as int).last() == hops@[i - 1].deep_view());
        assert(all.take(i as int).drop_last() =~= all.take(i - 1));
        if !hops[i - 1].1 {
            return hops[i - 1].0.clone();
        }
        i = i - 1;
    }
    peer.to_owned()
}

/// The hops a forwarding header lists, each with whether it is one of ours.
fn read_hops(forwarded: &str, trusted_proxies: &Vec<String>) -> (r: Vec<(String, bool)>)
    ensures
        r.deep_view() == hops_of(forwarded@, trusted_proxies.deep_view()),
{
    let parts: Vec<String> = split(forwarded, ',');
    let ghost all = parts.deep_view();
    let ghost nets = trusted_proxies.deep_view();
    let ghost f = |part: Seq<char>|
        match address_of(trimmed(part)) {
            Some(ip) => Some((ip, trusts(nets, ip))),
            None => None::<(Seq<char>, bool)>,
        };
    let mut r: Vec<(String, bool)> = Vec::new();
    let mut i: usize = 0;
    assert(r.deep_view() =~= all.take(0).filter_map(f));
    while i < parts.len()
        invariant
            i <= parts.len(),
            all == parts.deep_view(),
            nets == trusted_proxies.deep_view(),
            f == (|part: Seq<char>|
                match address_of(trimmed(part)) {
                    Some(ip) => Some((ip, trusts(nets, ip))),
                    None => None::<(Seq<char>, bool)>,
                }),
            r.deep_view() == all.take(i as int).filter_map(f),
        decreases parts.len() - i,
    {
        let ghost before = r.deep_view();
        proof {
            all.lemma_filter_map_take_succ(f, i as int);
            assert(all[i as int] == parts@[i as int]@);
        }
        match parse_address(trim(parts[i].as_str())) {
            Some(ip) => {
                let ours: bool = trusted(ip.as_str(), trusted_proxies);
                let ghost m = (ip@, ours);
                r.push((ip, ours));
                assert(r.deep_view() =~= before + seq![m]);
            },
            None => {},
        }
        i = i + 1;
    }
    assert(all.take(all.len() as int) =~= all);
    r
}

/// The address to record for a request.
///
/// With no trusted proxies, or a peer outside them, this is the peer's own.
/// Otherwise it is the rightmost hop of the forwarding header that is not itself a
/// trusted proxy.
pub fn client_ip(
    peer: Option<&str>,
    forwarded: Option<&str>,
    trusted_proxies: &Vec<String>,
) -> (r: Option<String>)
    ensures
        r.deep_view() == (match peer.deep_view() {
            None => None,
            Some(ip) => Some(
                recorded(
                    ip,
                    trusts(trusted_proxies.deep_view(), ip),
                    match forwarded.deep_view() {
                        Some(header) => hops_of(header, trusted_proxies.deep_view()),
                        None => Seq::empty(),
                    },
                ),
            ),
        }),
{
    match peer {
        None => None,
        Some(ip) => {
            let mut hops: Vec<(String, bool)> = Vec::new();
            assert(hops.deep_view() =~= Seq::<(Seq<char>, bool)>::empty());
            match forwarded {
                Some(header) => {
                    hops = read_hops(header, trusted_proxies);
                },
                None => {},
            }
            Some(pick_client(ip, trusted(ip, trusted_proxies), &hops))
        },
    }
}

/// An untrusted caller cannot choose what is recorded: with no trusted proxies,
/// whatever its header says, it is the peer's own address.
pub proof fn law_the_header_is_ignored_without_trusted_proxies(
    peer: Seq<char>,
    hops: Seq<(Seq<char>, bool)>,
)
    ensures
        recorded(peer, trusts(Seq::empty(), peer), hops) == peer,
{
}

/// What a caller puts at the front of a chain changes nothing behind a hop that is
/// not ours: the recorded address is the last one our own proxies did not write.
pub proof fn law_a_forged_prefix_changes_nothing(
    peer: Seq<char>,
    forged: Seq<(Seq<char>, bool)>,
    hops: Seq<(Seq<char>, bool)>,
)
    requires
        exists|i: int| 0 <= i < hops.len() && !(#[trigger] hops[i]).1,
    ensures
        recorded(peer, true, forged + hops) == recorded(peer, true, hops),
    decreases hops.len(),
{
    let i = choose|i: int| 0 <= i < hops.len() && !(#[trigger] hops[i]).1;
    assert((forged + hops).last() == hops.last());
    if hops.last().1 {
        assert((forged + hops).drop_last() =~= forged + hops.drop_last());
        assert(hops.drop_last()[i] == hops[i]);
        law_a_forged_prefix_changes_nothing(peer, forged, hops.drop_last());
        lemma_foreign_found(hops.drop_last(), i);
        lemma_foreign_found(forged + hops.drop_last(), forged.len() + i);
    }
}

/// A chain with a hop that is not ours has a last such hop.
proof fn lemma_foreign_found(hops: Seq<(Seq<char>, bool)>, i: int)
    requires
        0 <= i < hops.len(),
        !hops[i].1,
    ensures
        last_foreign(hops) is Some,
    decreases hops.len(),
{
    if hops.last().1 {
        lemma_foreign_found(hops.drop_last(), i);
    }
}

// ----------------------------------------------------------------- user agent
/// Whether a header byte is a visible ASCII character, a space or a tab.
pub open spec fn header_byte(b: u8) -> bool {
    32 <= b < 127 || b == 9
}

/// The text of a header value, where every byte of it can be shown.
pub open spec fn header_text_of(bytes: Seq<u8>) -> Option<Seq<char>> {
    if forall|i: int| 0 <= i < bytes.len() ==> header_byte(#[trigger] bytes[i]) {
        Some(bytes.map_values(|b: u8| b as char))
    } else {
        None
    }
}

/// The text of a header value, where every byte of it can be shown.
pub fn header_text(bytes: &[u8]) -> (r: Option<String>)
    ensures
        r.deep_view() == header_text_of(bytes@),
{
    let mut out: String = String::new();
    let mut i: usize = 0;
    while i < bytes.len()
        invariant
            i <= bytes.len(),
            forall|j: int| 0 <= j < i ==> header_byte(#[trigger] bytes@[j]),
            out@ == bytes@.take(i as int).map_values(|b: u8| b as char),
        decreases bytes.len() - i,
    {
        let b: u8 = bytes[i];
        if !((32 <= b && b < 127) || b == 9) {
            assert(!header_byte(bytes@[i as int]));
            return None;
        }
        out.push(b as char);
        i = i + 1;
        assert(out@ =~= bytes@.take(i as int).map_values(|b: u8| b as char));
    }
    assert(bytes@.take(bytes@.len() as int) =~= bytes@);
    Some(out)
}

/// The user agent to record of a header value.
pub open spec fn agent_of(bytes: Option<Seq<u8>>) -> Option<Seq<char>> {
    match bytes {
        Some(b) => match header_text_of(b) {
            Some(text) => if text.len() == 0 {
                None
            } else if text.len() > MAX_USER_AGENT {
                Some(text.take(MAX_USER_AGENT as int))
            } else {
                Some(text)
            },
            None => None,
        },
        None => None,
    }
}

/// The user agent of a request, capped. Every character of a header's text is one
/// byte, so the cap falls between characters.
pub fn user_agent(header: Option<&[u8]>) -> (r: Option<String>)
    ensures
        r.deep_view() == agent_of(
            match header {
                Some(b) => Some(b@),
                None => None,
            },
        ),
{
    match header {
        Some(bytes) => match header_text(bytes) {
            Some(text) => {
                let n: usize = text.as_str().unicode_len();
                if n == 0 {
                    None
                } else if n > MAX_USER_AGENT {
                    Some(text.as_str().substring_char(0, MAX_USER_AGENT).to_owned())
                } else {
                    Some(text)
                }
            },
            None => None,
        },
        None => None,
    }
}

/// A recorded user agent is never empty and never longer than the cap.
pub proof fn law_a_recorded_agent_is_bounded(bytes: Option<Seq<u8>>)
    ensures
        agent_of(bytes) matches Some(text) ==> 0 < text.len() <= MAX_USER_AGENT,
{
}

// --------------------------------------------------------------------- labels
/// The tokens a browser is known by, the most specific first: every Chromium
/// browser still claims to be Safari, and Edge claims to be Chrome.
pub open spec fn browsers() -> Seq<(Seq<char>, Seq<char>)> {
    seq![
        ("Edg/"@, "Edge"@),
        ("OPR/"@, "Opera"@),
        ("Vivaldi"@, "Vivaldi"@),
        ("Brave"@, "Brave"@),
        ("Firefox/"@, "Firefox"@),
        ("Chrome/"@, "Chrome"@),
        ("Safari/"@, "Safari"@),
        ("curl/"@, "curl"@),
    ]
}

/// The tokens a system is known by, the most specific first.
pub open spec fn systems() -> Seq<(Seq<char>, Seq<char>)> {
    seq![
        ("iPhone"@, "iPhone"@),
        ("iPad"@, "iPad"@),
        ("Android"@, "Android"@),
        ("Mac OS X"@, "macOS"@),
        ("Windows NT"@, "Windows"@),
        ("CrOS"@, "ChromeOS"@),
        ("Linux"@, "Linux"@),
    ]
}

/// The name of the first token that occurs in a text.
pub open spec fn first_named(table: Seq<(Seq<char>, Seq<char>)>, text: Seq<char>) -> Option<
    Seq<char>,
>
    decreases table.len(),
{
    if table.len() == 0 {
        None
    } else if occurs(text, table[0].0) {
        Some(table[0].1)
    } else {
        first_named(table.drop_first(), text)
    }
}

/// A short label for a user agent.
pub open spec fn label_of(agent: Seq<char>) -> Option<Seq<char>> {
    match (first_named(browsers(), agent), first_named(systems(), agent)) {
        (Some(b), Some(s)) => Some(b + " on "@ + s),
        (Some(b), None) => Some(b),
        (None, Some(s)) => Some(s),
        (None, None) => None,
    }
}

/// The name of the first token that occurs in a text.
fn find_named(table: &Vec<(&'static str, &'static str)>, text: &str) -> (r: Option<&'static str>)
    ensures
        r.deep_view() == first_named(table.deep_view(), text@),
{
    let ghost all = table.deep_view();
    let mut i: usize = 0;
    assert(all.skip(0) =~= all);
    while i < table.len()
        invariant
            i <= table.len(),
            all == table.deep_view(),
            first_named(all, text@) == first_named(all.skip(i as int), text@),
        decreases table.len() - i,
    {
        assert(all.skip(i as int)[0] == table@[i as int].deep_view());
        assert(all.skip(i as int).drop_first() =~= all.skip(i + 1));
        if contains(text, table[i].0) {
            return Some(table[i].1);
        }
        i = i + 1;
    }
    None
}

/// A short label for a user agent, such as "Chrome on macOS". Anything
/// unrecognised is reported as unknown rather than guessed at.
pub fn describe(user_agent: Option<&str>) -> (r: Option<String>)
    ensures
        r.deep_view() == (match user_agent.deep_view() {
            Some(agent) => label_of(agent),
            None => None,
        }),
{
    let agent: &str = match user_agent {
        Some(agent) => agent,
        None => {
            return None;
        },
    };
    let known: Vec<(&'static str, &'static str)> = vec![
        ("Edg/", "Edge"),
        ("OPR/", "Opera"),
        ("Vivaldi", "Vivaldi"),
        ("Brave", "Brave"),
        ("Firefox/", "Firefox"),
        ("Chrome/", "Chrome"),
        ("Safari/", "Safari"),
        ("curl/", "curl"),
    ];
    assert(known.deep_view() =~= browsers());
    let running: Vec<(&'static str, &'static str)> = vec![
        ("iPhone", "iPhone"),
        ("iPad", "iPad"),
        ("Android", "Android"),
        ("Mac OS X", "macOS"),
        ("Windows NT", "Windows"),
        ("CrOS", "ChromeOS"),
        ("Linux", "Linux"),
    ];
    assert(running.deep_view() =~= systems());
    match (find_named(&known, agent), find_named(&running, agent)) {
        (Some(b), Some(s)) => Some(cat3(b, " on ", s)),
        (Some(b), None) => Some(b.to_owned()),
        (None, Some(s)) => Some(s.to_owned()),
        (None, None) => None,
    }
}

} // verus!
