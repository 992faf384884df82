//! Direct addresses of peers that are otherwise reached through a tunnel.

use crate::dict::Dict;
use crate::json::{entries_model, jsons, opt_string, Json, JsonV};
use crate::registry::Registry;
use crate::text::{chars_of, digits_value, is_digit, lex_lt, lex_total, lex_transitive, owned, precedes, same, split, split_on, texts, trim_end_char, without_end};
use vstd::prelude::*;

verus! {

/// Where the tunnel's own service tells of its peers.
pub const TAILSCALE_LOCAL_API: &'static str = "http://[::1]:42711/localapi/v0/status?peers=1";

/// How long a direct connection may take, in seconds.
pub const DIRECT_CONNECT_TIMEOUT_SECS: u64 = 3;

/// How long the answer of a direct address may take to begin, in seconds.
pub const DIRECT_HEADERS_TIMEOUT_SECS: u64 = 5;

/// How long a list of peers counts, in seconds.
pub const PEERS_CACHE_TTL_SECS: u64 = 600;

/// How long a direct address counts, in seconds.
pub const RESOLVED_CACHE_TTL_SECS: u64 = 300;

/// How long a name may take to resolve, in seconds.
pub const DNS_RESOLVE_TIMEOUT_SECS: u64 = 2;

/// Four octets as one number.
pub open spec fn quad_number(a: u8, b: u8, c: u8, d: u8) -> int {
    ((a * 256 + b) * 256 + c) * 256 + d
}

/// The size of a network with so many bits for its hosts.
pub open spec fn hosts(bits: nat) -> int
    decreases bits,
{
    if bits == 0 {
        1
    } else {
        2 * hosts((bits - 1) as nat)
    }
}

/// `ipnet::Ipv4Net::contains` on a network and a single address: both lie in the same block
/// of the network's size.
#[verifier::external_body]
fn in_network(net: [u8; 4], prefix: u8, addr: [u8; 4]) -> (r: bool)
    requires
        prefix <= 32,
    ensures
        r == (quad_number(net[0], net[1], net[2], net[3]) / hosts((32 - prefix) as nat)
            == quad_number(addr[0], addr[1], addr[2], addr[3]) / hosts((32 - prefix) as nat)),
{
    match (ipnet::Ipv4Net::new(net.into(), prefix), ipnet::Ipv4Net::new(addr.into(), 32)) {
        (Ok(n), Ok(a)) => n.contains(&a),
        _ => false,
    }
}

/// The octet that a text denotes: one to three digits, none of them a needless zero, of a
/// value that fits.
pub open spec fn octet_of(s: Seq<char>) -> Option<u8> {
    if 1 <= s.len() <= 3 && (forall|i: int| 0 <= i < s.len() ==> is_digit(#[trigger] s[i])) && (
    s.len() == 1 || s[0] != '0') && digits_value(s) <= 255 {
        Some(digits_value(s) as u8)
    } else {
        None
    }
}

/// The four octets that a text denotes as an address.
pub open spec fn quad_of(s: Seq<char>) -> Option<(u8, u8, u8, u8)> {
    let p = split_on(s, '.');
    if p.len() == 4 && octet_of(p[0]) is Some && octet_of(p[1]) is Some && octet_of(p[2]) is Some
        && octet_of(p[3]) is Some {
        Some((octet_of(p[0])->0, octet_of(p[1])->0, octet_of(p[2])->0, octet_of(p[3])->0))
    } else {
        None
    }
}

fn octet(s: &str) -> (r: Option<u8>)
    ensures
        r == octet_of(s@),
{
    let c = chars_of(s);
    if c.len() < 1 || c.len() > 3 {
        return None;
    }
    let mut n: u32 = 0;
    let mut i: usize = 0;
    while i < c.len()
        invariant
            i <= c@.len() <= 3,
            c@ == s@,
            forall|k: int| 0 <= k < i ==> is_digit(#[trigger] s@[k]),
            n == digits_value(s@.take(i as int)),
            i == 0 ==> n == 0,
            i == 1 ==> n <= 9,
            i == 2 ==> n <= 99,
            i == 3 ==> n <= 999,
        decreases c@.len() - i,
    {
        let d = c[i];
        if !('0' <= d && d <= '9') {
            return None;
        }
        proof {
            assert(s@.take(i + 1).drop_last() =~= s@.take(i as int));
        }
        n = n * 10 + (d as u32 - 48);
        i += 1;
    }
    proof {
        assert(s@.take(i as int) =~= s@);
    }
    if c.len() > 1 && c[0] == '0' {
        return None;
    }
    if n > 255 {
        return None;
    }
    Some(n as u8)
}

/// The four octets that a text denotes as an address.
pub fn dotted_quad(s: &str) -> (r: Option<(u8, u8, u8, u8)>)
    ensures
        r == quad_of(s@),
{
    let parts = split(s, '.');
    let ghost p = split_on(s@, '.');
    if parts.len() != 4 {
        return None;
    }
    proof {
        assert(p[0] == parts@[0]@ && p[1] == parts@[1]@ && p[2] == parts@[2]@ && p[3]
            == parts@[3]@);
    }
    match (
        octet(parts[0].as_str()),
        octet(parts[1].as_str()),
        octet(parts[2].as_str()),
        octet(parts[3].as_str()),
    ) {
        (Some(a), Some(b), Some(c), Some(d)) => Some((a, b, c, d)),
        _ => None,
    }
}

/// The text is an address of the tunnel: from 100.64.0.0 to 100.127.255.255.
pub open spec fn in_tunnel(s: Seq<char>) -> bool {
    quad_of(s) matches Some((a, b, c, d)) && a == 100 && 64 <= b <= 127
}

proof fn hosts_22()
    ensures
        hosts(22) == 4194304,
{
    reveal_with_fuel(hosts, 24);
}

/// Whether a host is an address of the tunnel.
pub fn is_tailscale_ip(host: &str) -> (r: bool)
    ensures
        r == in_tunnel(host@),
{
    match dotted_quad(host) {
        Some((a, b, c, d)) => {
            proof {
                hosts_22();
                assert(quad_number(100, 64, 0, 0) / 4194304 == 401);
            }
            in_network([100, 64, 0, 0], 10, [a, b, c, d])
        },
        None => false,
    }
}

/// An address that a name resolved to.
#[derive(Debug, Clone, PartialEq)]
pub struct Address {
    pub is_ipv4: bool,
    pub text: String,
}

/// The first address of a version outside the tunnel.
pub open spec fn first_outside(addrs: Seq<Address>, v4: bool) -> Option<Seq<char>>
    decreases addrs.len(),
{
    if addrs.len() == 0 {
        None
    } else if addrs[0].is_ipv4 == v4 && !in_tunnel(addrs[0].text@) {
        Some(addrs[0].text@)
    } else {
        first_outside(addrs.skip(1), v4)
    }
}

/// The address to dial.
pub open spec fn dialled(addrs: Seq<Address>) -> Option<Seq<char>> {
    match first_outside(addrs, true) {
        Some(a) => Some(a),
        None => first_outside(addrs, false),
    }
}

/// The address to dial: the first of version 4 outside the tunnel, else the first of
/// version 6.
pub fn pick_direct_address(addrs: &Vec<Address>) -> (r: Option<String>)
    ensures
        opt_string(r) == dialled(addrs@),
{
    let mut v6: Option<String> = None;
    let mut i: usize = 0;
    proof {
        assert(addrs@.skip(0) =~= addrs@);
    }
    while i < addrs.len()
        invariant
            i <= addrs@.len(),
            first_outside(addrs@, true) == first_outside(addrs@.skip(i as int), true),
            first_outside(addrs@, false) == (match opt_string(v6) {
                Some(a) => Some(a),
                None => first_outside(addrs@.skip(i as int), false),
            }),
        decreases addrs@.len() - i,
    {
        proof {
            assert(addrs@.skip(i as int)[0] == addrs@[i as int]);
            assert(addrs@.skip(i as int).skip(1) =~= addrs@.skip(i + 1));
        }
        let a = &addrs[i];
        if !is_tailscale_ip(a.text.as_str()) {
            if a.is_ipv4 {
                return Some(a.text.clone());
            }
            if v6.is_none() {
                v6 = Some(a.text.clone());
            }
        }
        i += 1;
    }
    proof {
        assert(addrs@.skip(i as int) =~= Seq::empty());
    }
    v6
}

/// A peer of the tunnel.
#[derive(Debug, Clone, PartialEq)]
pub struct TailscalePeer {
    pub name: String,
    pub tailscale_ip: String,
    pub direct_ips: Vec<String>,
}

/// What a peer is.
#[verifier::ext_equal]
pub struct PeerV {
    pub name: Seq<char>,
    pub tailscale_ip: Seq<char>,
    pub direct_ips: Seq<Seq<char>>,
}

impl View for TailscalePeer {
    type V = PeerV;

    open spec fn view(&self) -> PeerV {
        PeerV {
            name: self.name@,
            tailscale_ip: self.tailscale_ip@,
            direct_ips: texts(self.direct_ips@),
        }
    }
}

/// The texts among the items, in order.
pub open spec fn item_texts(items: Seq<JsonV>) -> Seq<Seq<char>>
    decreases items.len(),
{
    if items.len() == 0 {
        Seq::empty()
    } else {
        let before = item_texts(items.drop_last());
        match items.last().text() {
            Some(t) => before.push(t),
            None => before,
        }
    }
}

/// The peer that an entry tells of, where it has a name and an address. The dot at the end
/// of a name is not part of it.
pub open spec fn peer_of(j: JsonV) -> Option<PeerV> {
    match (j.text_at("DNSName"@), j.at("TailscaleIPs"@)) {
        (Some(n), JsonV::Arr(items)) => {
            let name = without_end(n, '.');
            let ips = item_texts(items);
            if name.len() == 0 || ips.len() == 0 {
                None
            } else {
                Some(PeerV { name, tailscale_ip: ips[0], direct_ips: ips })
            }
        },
        _ => None,
    }
}

fn read_texts(items: &Vec<Json>) -> (r: Vec<String>)
    ensures
        texts(r@) == item_texts(jsons(items@)),
{
    let ghost all = jsons(items@);
    let mut out: Vec<String> = Vec::new();
    let mut i: usize = 0;
    proof {
        assert(texts(out@) =~= item_texts(all.take(0)));
    }
    while i < items.len()
        invariant
            i <= items@.len(),
            all == jsons(items@),
            texts(out@) == item_texts(all.take(i as int)),
        decreases items@.len() - i,
    {
        let ghost before = out@;
        proof {
            assert(all.take(i + 1).drop_last() =~= all.take(i as int));
            assert(all.take(i + 1).last() == items@[i as int]@);
        }
        match items[i].as_str() {
            Some(t) => {
                out.push(owned(t));
                proof {
                    assert(texts(out@) =~= texts(before).push(t@));
                }
            },
            None => {},
        }
        i += 1;
    }
    proof {
        assert(all.take(i as int) =~= all);
    }
    out
}

fn copy_texts(v: &Vec<String>) -> (r: Vec<String>)
    ensures
        texts(r@) == texts(v@),
{
    let mut out: Vec<String> = Vec::new();
    let mut i: usize = 0;
    while i < v.len()
        invariant
            i <= v@.len(),
            out@.len() == i,
            forall|k: int| 0 <= k < i ==> (#[trigger] out@[k])@ == v@[k]@,
        decreases v@.len() - i,
    {
        out.push(v[i].clone());
        i += 1;
    }
    proof {
        assert(texts(out@) =~= texts(v@));
    }
    out
}

fn read_peer(j: &Json) -> (r: Option<TailscalePeer>)
    ensures
        match r {
            Some(p) => peer_of(j@) == Some(p@),
            None => peer_of(j@) is None,
        },
{
    let name = match j.get_str("DNSName") {
        Some(n) => trim_end_char(n, '.'),
        None => return None,
    };
    let ips = match j.get_array("TailscaleIPs") {
        Some(items) => read_texts(items),
        None => return None,
    };
    if name.as_str().is_empty() || ips.len() == 0 {
        return None;
    }
    proof {
        assert(texts(ips@)[0] == ips@[0]@);
    }
    let first = ips[0].clone();
    Some(TailscalePeer { name, tailscale_ip: first, direct_ips: ips })
}

impl TailscalePeer {
    /// A copy of the peer.
    pub fn copy(&self) -> (r: TailscalePeer)
        ensures
            r@ == self@,
    {
        TailscalePeer {
            name: self.name.clone(),
            tailscale_ip: self.tailscale_ip.clone(),
            direct_ips: copy_texts(&self.direct_ips),
        }
    }
}

/// The peers that a status tells of, by their keys.
pub open spec fn told_peers(data: JsonV) -> Map<Seq<char>, JsonV> {
    match data.at("Peer"@) {
        JsonV::Obj(m) => m,
        _ => Map::empty(),
    }
}

/// The status tells of a peer under a key, with an address.
pub open spec fn tells(told: Map<Seq<char>, JsonV>, key: Seq<char>, ip: Seq<char>) -> bool {
    told.contains_key(key) && (peer_of(told[key]) matches Some(p) && p.direct_ips.contains(ip))
}

/// The status tells of a peer with an address under a key, and of no other with that address
/// under a later key.
pub open spec fn tells_last(told: Map<Seq<char>, JsonV>, key: Seq<char>, ip: Seq<char>) -> bool {
    tells(told, key, ip) && forall|k: Seq<char>| #[trigger]
        tells(told, k, ip) ==> !lex_lt(key, k)
}

proof fn not_after(a: Seq<char>, b: Seq<char>, c: Seq<char>)
    requires
        !lex_lt(a, b),
        !lex_lt(b, c),
    ensures
        !lex_lt(a, c),
{
    lex_total(a, b);
    lex_total(b, c);
    if lex_lt(b, a) && lex_lt(c, b) {
        lex_transitive(c, b, a);
        lex_total(a, c);
    }
}

/// The peers that a status tells of, under each of their addresses. Where two peers have
/// one address, the one with the later key has it.
pub fn parse_peers(data: &Json) -> (r: Dict<TailscalePeer>)
    ensures
        forall|ip: Seq<char>| #[trigger]
            r@.contains_key(ip) ==> exists|k: Seq<char>| #[trigger]
                tells_last(told_peers(data@), k, ip) && peer_of(told_peers(data@)[k]) == Some(
                    r@[ip]@,
                ),
        forall|k: Seq<char>, ip: Seq<char>| #[trigger]
            tells(told_peers(data@), k, ip) ==> r@.contains_key(ip),
{
    let mut peers: Dict<TailscalePeer> = Dict::new();
    let map = match data.get("Peer") {
        Some(m) => m,
        None => return peers,
    };
    let entries = match map {
        Json::Obj(v) => v,
        _ => return peers,
    };
    let ghost told = told_peers(data@);
    proof {
        assert(told == entries_model(*entries, entries@.len()));
    }
    let mut owners: Dict<String> = Dict::new();
    let mut i: usize = 0;
    while i < entries.len()
        invariant
            i <= entries@.len(),
            told == told_peers(data@),
            *map == Json::Obj(*entries),
            told == entries_model(*entries, entries@.len()),
            forall|ip: Seq<char>| #[trigger]
                peers@.contains_key(ip) ==> owned_by(told, owners@, ip, peers@[ip]@),
            forall|ip: Seq<char>| #[trigger] owners@.contains_key(ip) ==> peers@.contains_key(ip),
            forall|j: int, ip: Seq<char>|
                #![trigger tells(told, entries@[j].0@, ip)]
                0 <= j < i && tells(told, entries@[j].0@, ip) ==> peers@.contains_key(ip)
                    && !lex_lt(owners@[ip]@, entries@[j].0@),
        decreases entries@.len() - i,
    {
        let key = entries[i].0.as_str();
        let ghost at_start = owners@;
        proof {
            assert forall|x: Seq<char>| !#[trigger] lex_lt(x, x) by {
                lex_total(x, x);
            }
        }
        match map.get(key) {
            Some(j) => {
                match read_peer(j) {
                    Some(p) => {
                        let ghost pv = p@;
                        let mut k: usize = 0;
                        while k < p.direct_ips.len()
                            invariant
                                k <= p.direct_ips@.len(),
                                pv == p@,
                                told.contains_key(key@),
                                peer_of(told[key@]) == Some(pv),
                                forall|ip: Seq<char>| #[trigger]
                                    peers@.contains_key(ip) ==> owned_by(
                                        told,
                                        owners@,
                                        ip,
                                        peers@[ip]@,
                                    ),
                                forall|ip: Seq<char>| #[trigger]
                                    owners@.contains_key(ip) ==> peers@.contains_key(ip),
                                forall|ip: Seq<char>| #[trigger]
                                    at_start.contains_key(ip) ==> owners@.contains_key(ip)
                                        && !lex_lt(owners@[ip]@, at_start[ip]@),
                                forall|m: int|
                                    0 <= m < k ==> owners@.contains_key(
                                        (#[trigger] p.direct_ips@[m])@,
                                    ) && !lex_lt(owners@[p.direct_ips@[m]@]@, key@),
                            decreases p.direct_ips@.len() - k,
                        {
                            let ip = p.direct_ips[k].as_str();
                            let ghost before = owners@;
                            proof {
                                assert(pv.direct_ips[k as int] == ip@);
                                assert(tells(told, key@, ip@));
                                lex_total(key@, key@);
                            }
                            let takes = match owners.get(ip) {
                                Some(o) => !precedes(key, o.as_str()),
                                None => true,
                            };
                            if takes {
                                peers.insert(ip, p.copy());
                                owners.insert(ip, owned(key));
                            }
                            proof {
                                assert forall|x: Seq<char>| #[trigger]
                                    at_start.contains_key(x) implies owners@.contains_key(x)
                                    && !lex_lt(owners@[x]@, at_start[x]@) by {
                                    assert(before.contains_key(x));
                                    if takes && x == ip@ {
                                        not_after(key@, before[x]@, at_start[x]@);
                                    }
                                }
                                assert forall|m: int| 0 <= m < k + 1 implies owners@.contains_key(
                                    (#[trigger] p.direct_ips@[m])@,
                                ) && !lex_lt(owners@[p.direct_ips@[m]@]@, key@) by {
                                    if p.direct_ips@[m]@ == ip@ && !takes {
                                        lex_total(key@, before[ip@]@);
                                        if lex_lt(before[ip@]@, key@) {
                                            lex_transitive(key@, before[ip@]@, key@);
                                        }
                                    }
                                }
                            }
                            k += 1;
                        }
                        proof {
                            assert forall|ip: Seq<char>| pv.direct_ips.contains(
                                ip,
                            ) implies owners@.contains_key(ip) && !lex_lt(owners@[ip]@, key@) by {
                                let m = choose|m: int|
                                    0 <= m < pv.direct_ips.len() && pv.direct_ips[m] == ip;
                                assert(p.direct_ips@[m]@ == ip);
                            }
                        }
                    },
                    None => {},
                }
            },
            None => {},
        }
        proof {
            assert forall|j: int, ip: Seq<char>|
                #![trigger tells(told, entries@[j].0@, ip)]
                0 <= j < i + 1 && tells(told, entries@[j].0@, ip) implies peers@.contains_key(ip)
                && !lex_lt(owners@[ip]@, entries@[j].0@) by {
                if j < i {
                    assert(at_start.contains_key(ip));
                    assert(owners@.contains_key(ip));
                    not_after(owners@[ip]@, at_start[ip]@, entries@[j].0@);
                } else {
                    key_there(*entries, entries@.len(), j);
                    assert(owners@.contains_key(ip));
                }
            }
        }
        i += 1;
    }
    proof {
        assert forall|k: Seq<char>, ip: Seq<char>| #[trigger] tells(told, k, ip) implies peers@
            .contains_key(ip) && !lex_lt(owners@[ip]@, k) by {
            entry_there(*entries, entries@.len(), k);
            let j = choose|j: int| 0 <= j < entries@.len() && (#[trigger] entries@[j]).0@ == k;
            assert(tells(told, entries@[j].0@, ip));
        }
        assert forall|ip: Seq<char>| #[trigger] peers@.contains_key(ip) implies exists|
            k: Seq<char>,
        | #[trigger]
            tells_last(told, k, ip) && peer_of(told[k]) == Some(peers@[ip]@) by {
            assert(owned_by(told, owners@, ip, peers@[ip]@));
            assert(tells_last(told, owners@[ip]@, ip));
        }
    }
    peers
}

/// An address has its peer from the key that is noted for it.
spec fn owned_by(
    told: Map<Seq<char>, JsonV>,
    owners: Map<Seq<char>, String>,
    ip: Seq<char>,
    p: PeerV,
) -> bool {
    owners.contains_key(ip) && tells(told, owners[ip]@, ip) && peer_of(told[owners[ip]@]) == Some(p)
}

proof fn key_there(v: Vec<(String, Json)>, n: nat, i: int)
    requires
        0 <= i < n <= v@.len(),
    ensures
        entries_model(v, n).contains_key(v@[i].0@),
    decreases n,
{
    if i < n - 1 {
        key_there(v, (n - 1) as nat, i);
    }
}

proof fn entry_there(v: Vec<(String, Json)>, n: nat, k: Seq<char>)
    requires
        n <= v@.len(),
        entries_model(v, n).contains_key(k),
    ensures
        exists|j: int| 0 <= j < n && (#[trigger] v@[j]).0@ == k,
    decreases n,
{
    if n > 0 {
        if v@[n - 1].0@ == k {
            assert(v@[n - 1].0@ == k);
        } else {
            entry_there(v, (n - 1) as nat, k);
        }
    }
}

/// The host of an address, `None` where the address has none or is no URL.
pub uninterp spec fn url_host(url: Seq<char>) -> Option<Seq<char>>;

/// `Url::parse` and `Url::host_str`: the host depends on the address alone.
#[verifier::external_body]
fn host_of_url(url: &str) -> (r: Option<String>)
    ensures
        opt_string(r) == url_host(url@),
{
    reqwest::Url::parse(url).ok().and_then(|u| u.host_str().map(|h| h.to_string()))
}

/// The address with another host, `None` where it is no URL or the host does not fit.
pub uninterp spec fn url_with_host(url: Seq<char>, host: Seq<char>) -> Option<Seq<char>>;

/// The characters of an address, or of a host, at most: a URL keeps its offsets in 32 bits.
pub const MAX_URL_CHARS: usize = 16777216;

/// `Url::parse`, `Url::set_host` and the URL's text: it depends on the address and the host
/// alone. Texts are left out whose length a URL could not keep: `set_host` panics on them.
#[verifier::external_body]
fn rehosted_url(url: &str, host: &str) -> (r: Option<String>)
    requires
        url@.len() <= MAX_URL_CHARS,
        host@.len() <= MAX_URL_CHARS,
    ensures
        opt_string(r) == url_with_host(url@, host@),
{
    let mut parsed = reqwest::Url::parse(url).ok()?;
    parsed.set_host(Some(host)).ok()?;
    Some(parsed.to_string())
}

/// The host may have a direct address: it is an address of the tunnel.
pub open spec fn may_be_direct(host: Seq<char>) -> bool {
    host != "localhost"@ && host != "127.0.0.1"@ && host != "::1"@ && in_tunnel(host)
}

/// Whether a host may have a direct address.
pub fn is_candidate(host: &str) -> (r: bool)
    ensures
        r == may_be_direct(host@),
{
    !(same(host, "localhost") || same(host, "127.0.0.1") || same(host, "::1")) && is_tailscale_ip(
        host,
    )
}

/// A host for which a direct address is worth looking for.
pub open spec fn worth_looking(host: Option<Seq<char>>) -> Option<Seq<char>> {
    match host {
        Some(h) => if may_be_direct(h) {
            Some(h)
        } else {
            None
        },
        None => None,
    }
}

/// The answer of a direct address is used.
pub open spec fn counts(status: Option<u16>) -> bool {
    status is Some && 200 <= status->0 < 300
}

/// The host of an address for which a direct address is worth looking for.
pub fn tunnel_host(url: &str) -> (r: Option<String>)
    ensures
        opt_string(r) == worth_looking(url_host(url@)),
{
    match host_of_url(url) {
        Some(h) => if is_candidate(h.as_str()) {
            Some(h)
        } else {
            None
        },
        None => None,
    }
}

/// The address with the direct address of its host, where that is known and both can be held
/// in a URL. Without it the address is used as it is.
pub fn direct_url(url: &str, direct_ip: Option<&str>) -> (r: Option<String>)
    ensures
        opt_string(r) == (match direct_ip {
            Some(ip) => if url@.len() <= MAX_URL_CHARS && ip@.len() <= MAX_URL_CHARS {
                url_with_host(url@, ip@)
            } else {
                None
            },
            None => None,
        }),
{
    match direct_ip {
        Some(ip) => if url.unicode_len() <= MAX_URL_CHARS && ip.unicode_len() <= MAX_URL_CHARS {
            rehosted_url(url, ip)
        } else {
            None
        },
        None => None,
    }
}

/// Whether the answer of a direct address is used. `None` is no answer in time. Only a
/// success is: an address that was left behind may answer with anything, and the tunnel
/// decides.
pub fn direct_answer_counts(status: Option<u16>) -> (r: bool)
    ensures
        r == counts(status),
{
    match status {
        Some(code) => 200 <= code && code < 300,
        None => false,
    }
}

/// A direct address as it was found, and when.
pub struct Resolved {
    pub at_secs: u64,
    pub direct_ip: Option<String>,
}

/// What is needed to know the direct address of a host.
#[derive(Debug, PartialEq)]
pub enum ResolveStep {
    /// It is known, or it is known that there is none.
    Known(Option<String>),
    /// The list of peers has to be read.
    NeedPeers,
    /// The name of the peer has to be resolved.
    NeedLookup(String),
}

/// What is known of peers and their direct addresses.
pub struct TailscaleClient {
    peers: Option<(u64, Dict<TailscalePeer>)>,
    resolved: Registry<Resolved>,
    warned: bool,
}

/// When a list was read.
pub open spec fn when_listed(l: Option<(u64, Map<Seq<char>, TailscalePeer>)>) -> u64 {
    match l {
        Some((at, _)) => at,
        None => 0,
    }
}

/// Who stands on a list.
pub open spec fn who_listed(l: Option<(u64, Map<Seq<char>, TailscalePeer>)>) -> Map<
    Seq<char>,
    TailscalePeer,
> {
    match l {
        Some((_, m)) => m,
        None => Map::empty(),
    }
}

/// A time lies no more than so many seconds back.
pub open spec fn is_fresh(at_secs: u64, now_secs: u64, ttl: u64) -> bool {
    now_secs - at_secs < ttl
}

fn fresh(at_secs: u64, now_secs: u64, ttl: u64) -> (r: bool)
    requires
        ttl > 0,
    ensures
        r == is_fresh(at_secs, now_secs, ttl),
{
    now_secs < at_secs || now_secs - at_secs < ttl
}

/// What was found of a host still counts.
pub open spec fn is_known(found: Map<Seq<char>, Resolved>, host: Seq<char>, now_secs: u64) -> bool {
    found.contains_key(host) && is_fresh(found[host].at_secs, now_secs, RESOLVED_CACHE_TTL_SECS)
}

/// A list of peers still counts.
pub open spec fn is_current(
    list: Option<(u64, Map<Seq<char>, TailscalePeer>)>,
    now_secs: u64,
) -> bool {
    list is Some && is_fresh(when_listed(list), now_secs, PEERS_CACHE_TTL_SECS)
}

/// What is known of hosts after one was asked for: a host that left the list is forgotten.
pub open spec fn found_after(
    found: Map<Seq<char>, Resolved>,
    list: Option<(u64, Map<Seq<char>, TailscalePeer>)>,
    host: Seq<char>,
    now_secs: u64,
) -> Map<Seq<char>, Resolved> {
    if !is_known(found, host, now_secs) && is_current(list, now_secs) && !who_listed(
        list,
    ).contains_key(host) {
        found.remove(host)
    } else {
        found
    }
}

/// What is needed to know the direct address of a host.
pub open spec fn is_step(
    r: ResolveStep,
    found: Map<Seq<char>, Resolved>,
    list: Option<(u64, Map<Seq<char>, TailscalePeer>)>,
    host: Seq<char>,
    now_secs: u64,
) -> bool {
    if is_known(found, host, now_secs) {
        r matches ResolveStep::Known(ip) && opt_string(ip) == opt_string(found[host].direct_ip)
    } else if !is_current(list, now_secs) {
        r == ResolveStep::NeedPeers
    } else if !who_listed(list).contains_key(host) {
        r == ResolveStep::Known(None)
    } else {
        r matches ResolveStep::NeedLookup(name) && name@ == who_listed(list)[host].name@
    }
}

impl TailscaleClient {
    /// The table is sound.
    pub closed spec fn wf(&self) -> bool {
        self.resolved.wf()
    }

    /// The direct addresses as they were found.
    pub closed spec fn found(&self) -> Map<Seq<char>, Resolved> {
        self.resolved@
    }

    /// The peers as they were read, and when.
    pub closed spec fn listed(&self) -> Option<(u64, Map<Seq<char>, TailscalePeer>)> {
        match self.peers {
            Some((at, p)) => Some((at, p@)),
            None => None,
        }
    }

    /// Whether the user was warned that the list cannot be read.
    pub closed spec fn has_warned(&self) -> bool {
        self.warned
    }

    /// Nothing known yet.
    pub fn new() -> (r: TailscaleClient)
        ensures
            r.wf(),
            r.found() == Map::<Seq<char>, Resolved>::empty(),
            r.listed() is None,
            !r.has_warned(),
    {
        TailscaleClient { peers: None, resolved: Registry::new(), warned: false }
    }

    /// What is needed to know the direct address of a host. What was found counts for a
    /// time; then the list of peers decides, and a host that left it is forgotten.
    pub fn resolve_step(&mut self, host: &str, now_secs: u64) -> (r: ResolveStep)
        requires
            old(self).wf(),
        ensures
            final(self).wf(),
            final(self).listed() == old(self).listed(),
            final(self).has_warned() == old(self).has_warned(),
            final(self).found() == found_after(old(self).found(), old(self).listed(), host@, now_secs),
            is_step(r, old(self).found(), old(self).listed(), host@, now_secs),
    {
        match self.resolved.get(host) {
            Some(e) => {
                if fresh(e.at_secs, now_secs, RESOLVED_CACHE_TTL_SECS) {
                    return ResolveStep::Known(e.direct_ip.clone());
                }
            },
            None => {},
        }
        let gone = match &self.peers {
            Some((at, peers)) => {
                if !fresh(*at, now_secs, PEERS_CACHE_TTL_SECS) {
                    return ResolveStep::NeedPeers;
                }
                match peers.get(host) {
                    Some(p) => {
                        return ResolveStep::NeedLookup(p.name.clone());
                    },
                    None => true,
                }
            },
            None => {
                return ResolveStep::NeedPeers;
            },
        };
        if gone {
            let _ = self.resolved.remove(host);
        }
        ResolveStep::Known(None)
    }

    /// The list of peers was read.
    pub fn peers_read(&mut self, peers: Dict<TailscalePeer>, now_secs: u64)
        requires
            old(self).wf(),
        ensures
            final(self).wf(),
            final(self).listed() == Some((now_secs, peers@)),
            final(self).found() == old(self).found(),
            final(self).has_warned() == old(self).has_warned(),
    {
        self.peers = Some((now_secs, peers));
    }

    /// The direct address of a host was found, or that it has none.
    pub fn found_direct(&mut self, host: &str, direct_ip: Option<String>, now_secs: u64)
        requires
            old(self).wf(),
        ensures
            final(self).wf(),
            final(self).listed() == old(self).listed(),
            final(self).has_warned() == old(self).has_warned(),
            final(self).found() == old(self).found().insert(
                host@,
                (Resolved { at_secs: now_secs, direct_ip }),
            ),
    {
        self.resolved.insert(host, Resolved { at_secs: now_secs, direct_ip });
    }

    /// The list of peers could not be read: whether to warn of it, which is done once.
    pub fn warn_if_first(&mut self) -> (r: bool)
        requires
            old(self).wf(),
        ensures
            final(self).wf(),
            r == !old(self).has_warned(),
            final(self).has_warned(),
            final(self).listed() == old(self).listed(),
            final(self).found() == old(self).found(),
    {
        let first = !self.warned;
        self.warned = true;
        first
    }
}

/// An octet is one to three digits of a value up to 255, without a needless zero before it.
pub proof fn octets_are_short_numbers(a: char, b: char, c: char)
    requires
        '0' <= a <= '9',
        '0' <= b <= '9',
        '0' <= c <= '9',
    ensures
        ({
            let x = a as u32 as int - 48;
            let y = b as u32 as int - 48;
            let z = c as u32 as int - 48;
            &&& octet_of(seq![a]) == Some(x as u8)
            &&& octet_of(seq![a, b]) == (if a != '0' {
                Some((10 * x + y) as u8)
            } else {
                None
            })
            &&& octet_of(seq![a, b, c]) == (if a != '0' && 100 * x + 10 * y + z <= 255 {
                Some((100 * x + 10 * y + z) as u8)
            } else {
                None
            })
        }),
        octet_of(Seq::empty()) is None,
{
    let e = Seq::<char>::empty();
    assert(seq![a].drop_last() =~= e);
    assert(seq![a, b].drop_last() =~= seq![a]);
    assert(seq![a, b, c].drop_last() =~= seq![a, b]);
    assert(digits_value(e) == 0);
    assert(digits_value(seq![a]) == a as u32 as int - 48);
    assert(digits_value(seq![a, b]) == 10 * (a as u32 as int - 48) + (b as u32 as int - 48));
    assert(digits_value(seq![a, b, c]) == 100 * (a as u32 as int - 48) + 10 * (b as u32 as int - 48)
        + (c as u32 as int - 48));
}

proof fn split_at_the_first(p: Seq<char>, rest: Seq<char>, c: char)
    requires
        forall|i: int| 0 <= i < p.len() ==> #[trigger] p[i] != c,
    ensures
        split_on(p + seq![c] + rest, c) == seq![p] + split_on(rest, c),
    decreases rest.len(),
{
    let all = p + seq![c] + rest;
    if rest.len() == 0 {
        assert(all =~= p + seq![c]);
        assert(all.drop_last() =~= p);
        assert(all.last() == c);
        no_split(p, c);
        assert(rest =~= Seq::empty());
        assert(split_on(all, c) =~= seq![p] + split_on(rest, c));
    } else {
        let less = rest.drop_last();
        assert(all.drop_last() =~= p + seq![c] + less);
        assert(all.last() == rest.last());
        split_at_the_first(p, less, c);
        let a = split_on(less, c);
        assert(a.len() > 0) by {
            parts_are_there(less, c);
        }
        assert((seq![p] + a).last() == a.last());
        assert((seq![p] + a).drop_last() =~= seq![p] + a.drop_last());
        assert(split_on(all, c) =~= seq![p] + split_on(rest, c));
    }
}

proof fn parts_are_there(s: Seq<char>, c: char)
    ensures
        split_on(s, c).len() > 0,
    decreases s.len(),
{
    if s.len() > 0 {
        parts_are_there(s.drop_last(), c);
    }
}

proof fn no_split(p: Seq<char>, c: char)
    requires
        forall|i: int| 0 <= i < p.len() ==> #[trigger] p[i] != c,
    ensures
        split_on(p, c) == seq![p],
    decreases p.len(),
{
    if p.len() > 0 {
        let less = p.drop_last();
        assert(forall|i: int| 0 <= i < less.len() ==> #[trigger] less[i] == p[i]);
        no_split(less, c);
        assert(p.last() == p[p.len() - 1]);
        assert(less.push(p.last()) =~= p);
        assert(split_on(p, c) =~= seq![p]);
    } else {
        assert(p =~= Seq::empty());
        assert(split_on(p, c) =~= seq![p]);
    }
}

/// A part of an address: a text without dots.
pub open spec fn has_no_dot(s: Seq<char>) -> bool {
    forall|i: int| 0 <= i < s.len() ==> #[trigger] s[i] != '.'
}

/// Four octets with dots between them are an address; it is one of the tunnel just where it
/// begins with 100 and goes on with 64 to 127. Such a host may have a direct address, and no
/// other.
pub proof fn the_tunnel_has_its_addresses(a: Seq<char>, b: Seq<char>, c: Seq<char>, d: Seq<char>)
    requires
        has_no_dot(a),
        has_no_dot(b),
        has_no_dot(c),
        has_no_dot(d),
    ensures
        ({
            let dot = seq!['.'];
            let host = a + dot + (b + dot + (c + dot + d));
            &&& in_tunnel(host) <==> (octet_of(a) == Some(100u8) && (octet_of(b) matches Some(n)
                && 64 <= n <= 127) && octet_of(c) is Some && octet_of(d) is Some)
            &&& may_be_direct(host) ==> in_tunnel(host)
            &&& in_tunnel(host) && host != "127.0.0.1"@ && host != "localhost"@ && host != "::1"@
                ==> may_be_direct(host)
        }),
{
    let dot = seq!['.'];
    split_at_the_first(a, b + dot + (c + dot + d), '.');
    split_at_the_first(b, c + dot + d, '.');
    split_at_the_first(c, d, '.');
    no_split(d, '.');
    let p = split_on(a + dot + (b + dot + (c + dot + d)), '.');
    assert(p =~= seq![a, b, c, d]);
}

/// The address to dial is the first of its version that lies outside the tunnel.
pub proof fn the_first_address_outside_is_dialled(first: Address, rest: Seq<Address>, v4: bool)
    ensures
        first_outside(Seq::empty(), v4) is None,
        first_outside(seq![first] + rest, v4) == (if first.is_ipv4 == v4 && !in_tunnel(
            first.text@,
        ) {
            Some(first.text@)
        } else {
            first_outside(rest, v4)
        }),
{
    let all = seq![first] + rest;
    assert(all[0] == first);
    assert(all.skip(1) =~= rest);
}

/// A peer is known by its name, without the dots at its end, and by all its addresses, the
/// first of which is the tunnel's. Without a name or an address it is no peer.
pub proof fn peers_have_names_and_addresses(j: JsonV, name: Seq<char>, ips: Seq<JsonV>)
    requires
        j.at("DNSName"@) == JsonV::Str(name),
        j.at("TailscaleIPs"@) == JsonV::Arr(ips),
        forall|i: int| 0 <= i < ips.len() ==> (#[trigger] ips[i]) is Str,
    ensures
        without_end(name, '.').len() > 0 && ips.len() > 0 ==> (peer_of(j) matches Some(p) && p.name
            == without_end(name, '.') && p.tailscale_ip == ips[0].text()->0 && p.direct_ips.len()
            == ips.len() && forall|i: int|
            0 <= i < ips.len() ==> #[trigger] ips[i] == JsonV::Str(p.direct_ips[i])),
        without_end(name, '.').len() == 0 || ips.len() == 0 ==> peer_of(j) is None,
{
    texts_of_items(ips);
}

proof fn texts_of_items(items: Seq<JsonV>)
    requires
        forall|i: int| 0 <= i < items.len() ==> (#[trigger] items[i]) is Str,
    ensures
        item_texts(items).len() == items.len(),
        forall|i: int| 0 <= i < items.len() ==> #[trigger] items[i] == JsonV::Str(item_texts(items)[i]),
    decreases items.len(),
{
    if items.len() > 0 {
        let less = items.drop_last();
        assert(forall|i: int| 0 <= i < less.len() ==> #[trigger] less[i] == items[i]);
        texts_of_items(less);
        assert(items[items.len() - 1] is Str);
        assert forall|i: int| 0 <= i < items.len() implies #[trigger] items[i] == JsonV::Str(
            item_texts(items)[i],
        ) by {
            if i < less.len() {
                assert(less[i] == items[i]);
            }
        }
    }
}

/// The peers are those of the status; without a name or a list of addresses none is one.
pub proof fn peers_are_those_of_the_status(data: JsonV, m: Map<Seq<char>, JsonV>, j: JsonV)
    ensures
        data.at("Peer"@) == JsonV::Obj(m) ==> told_peers(data) == m,
        !(data.at("Peer"@) is Obj) ==> told_peers(data) == Map::<Seq<char>, JsonV>::empty(),
        !(j.at("DNSName"@) is Str) || !(j.at("TailscaleIPs"@) is Arr) ==> peer_of(j) is None,
{
}

/// What was found counts for five minutes, and a list of peers for ten.
pub proof fn what_was_found_counts_for_a_while(at_secs: u64, now_secs: u64)
    ensures
        is_fresh(at_secs, now_secs, RESOLVED_CACHE_TTL_SECS) <==> now_secs < at_secs + 300,
        is_fresh(at_secs, now_secs, PEERS_CACHE_TTL_SECS) <==> now_secs < at_secs + 600,
{
}

/// A list tells when it was read and who stands on it.
pub proof fn lists_tell_when_and_who(at_secs: u64, m: Map<Seq<char>, TailscalePeer>)
    ensures
        when_listed(Some((at_secs, m))) == at_secs,
        who_listed(Some((at_secs, m))) == m,
        who_listed(None) == Map::<Seq<char>, TailscalePeer>::empty(),
{
}

/// An address of version 4 outside the tunnel is dialled before any of version 6, and none
/// inside the tunnel ever is.
pub proof fn outside_addresses_are_dialled(addrs: Seq<Address>)
    ensures
        first_outside(addrs, true) matches Some(a) ==> dialled(addrs) == Some(a),
        first_outside(addrs, true) is None ==> dialled(addrs) == first_outside(addrs, false),
        dialled(addrs) matches Some(a) ==> !in_tunnel(a),
{
    outside_is_outside(addrs, true);
    outside_is_outside(addrs, false);
}

proof fn outside_is_outside(addrs: Seq<Address>, v4: bool)
    ensures
        first_outside(addrs, v4) matches Some(a) ==> !in_tunnel(a),
    decreases addrs.len(),
{
    if addrs.len() > 0 {
        outside_is_outside(addrs.skip(1), v4);
    }
}

/// A direct address is looked for where the host may have one, and its answer is used where it
/// is a success.
pub proof fn direct_addresses_are_tried(h: Seq<char>, status: u16)
    ensures
        may_be_direct(h) ==> worth_looking(Some(h)) == Some(h),
        !may_be_direct(h) ==> worth_looking(Some(h)) is None,
        worth_looking(None) is None,
        counts(Some(status)) <==> 200 <= status <= 299,
        !counts(None),
{
}

/// A host's address is the one that was found, for as long as that counts; then the peers are
/// read where their list is too old, the name of a listed host is looked up, and a host that is
/// not listed has none and is forgotten.
pub proof fn hosts_are_resolved_step_by_step(
    r: ResolveStep,
    found: Map<Seq<char>, Resolved>,
    at_secs: u64,
    peers: Map<Seq<char>, TailscalePeer>,
    host: Seq<char>,
    now_secs: u64,
)
    requires
        is_step(r, found, Some((at_secs, peers)), host, now_secs),
    ensures
        found.contains_key(host) && now_secs < found[host].at_secs + 300 ==> (r matches ResolveStep::Known(
            ip,
        ) && opt_string(ip) == opt_string(found[host].direct_ip)),
        !(found.contains_key(host) && now_secs < found[host].at_secs + 300) ==> {
            &&& now_secs >= at_secs + 600 ==> r == ResolveStep::NeedPeers
            &&& now_secs < at_secs + 600 && peers.contains_key(host) ==> (
            r matches ResolveStep::NeedLookup(name) && name@ == peers[host].name@)
            &&& now_secs < at_secs + 600 && !peers.contains_key(host) ==> r == ResolveStep::Known(
                None,
            ) && !found_after(found, Some((at_secs, peers)), host, now_secs).contains_key(host)
        },
{
}

/// An address is four numbers between dots, and each of them counts; the numbers of a network
/// are twice as many with each bit.
pub proof fn addresses_are_four_numbers(a: Seq<char>, b: Seq<char>, c: Seq<char>, d: Seq<char>)
    requires
        has_no_dot(a),
        has_no_dot(b),
        has_no_dot(c),
        has_no_dot(d),
    ensures
        ({
            let dot = seq!['.'];
            let host = a + dot + (b + dot + (c + dot + d));
            &&& quad_of(host) is Some <==> octet_of(a) is Some && octet_of(b) is Some && octet_of(
                c,
            ) is Some && octet_of(d) is Some
            &&& quad_of(host) is Some ==> quad_of(host) == Some(
                (octet_of(a)->0, octet_of(b)->0, octet_of(c)->0, octet_of(d)->0),
            )
        }),
{
    let dot = seq!['.'];
    split_at_the_first(a, b + dot + (c + dot + d), '.');
    split_at_the_first(b, c + dot + d, '.');
    split_at_the_first(c, d, '.');
    no_split(d, '.');
    let p = split_on(a + dot + (b + dot + (c + dot + d)), '.');
    assert(p =~= seq![a, b, c, d]);
}

/// The texts of a list are read one by one, and what is no text is passed over.
pub proof fn texts_are_read_one_by_one(items: Seq<JsonV>, t: Seq<char>, v: JsonV)
    requires
        !(v is Str),
    ensures
        item_texts(Seq::empty()) == Seq::<Seq<char>>::empty(),
        item_texts(items.push(JsonV::Str(t))) == item_texts(items).push(t),
        item_texts(items.push(v)) == item_texts(items),
{
    assert(items.push(JsonV::Str(t)).drop_last() =~= items);
    assert(items.push(v).drop_last() =~= items);
}

/// An address that several entries tell of belongs to the last of them, and to no other.
pub proof fn the_last_entry_owns_an_address(
    told: Map<Seq<char>, JsonV>,
    a: Seq<char>,
    b: Seq<char>,
    ip: Seq<char>,
)
    requires
        tells_last(told, a, ip),
    ensures
        told.contains_key(a) && peer_of(told[a]) is Some && peer_of(told[a])->0.direct_ips.contains(ip),
        told.contains_key(b) && peer_of(told[b]) is Some && peer_of(told[b])->0.direct_ips.contains(
            ip,
        ) && b != a ==> lex_lt(b, a),
{
    if tells(told, b, ip) && b != a {
        lex_total(a, b);
    }
}

} // verus!
