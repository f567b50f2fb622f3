//! Request screening: restricted addresses, outbound-URL (SSRF) checks and
//! the client address a request is attributed to.

use vstd::prelude::*;

use crate::status::HttpStatus;
use crate::text::{
    chars_of, find, find_chars, lemma_find, ends_with, ends_with_chars, lowercase, same_chars_str, string_of, string_of_range,
    to_lowercase, trim, trimmed,
};

verus! {

broadcast use vstd::string::group_string_axioms;

// ---------------------------------------------------------------------------
// Addresses
// ---------------------------------------------------------------------------

/// An IP address: four octets, or eight 16-bit segments.
#[derive(PartialEq, Eq, Structural, Clone, Copy, Debug)]
pub enum IpAddress {
    V4(u8, u8, u8, u8),
    V6(u16, u16, u16, u16, u16, u16, u16, u16),
}

/// Loopback, private, link-local, broadcast, documentation or
/// unspecified IPv4 address (the `Ipv4Addr` predicates of those names).
pub open spec fn v4_restricted(a: u8, b: u8, c: u8, d: u8) -> bool {
    ||| a == 127
    ||| a == 10
    ||| (a == 172 && 16 <= b && b <= 31)
    ||| (a == 192 && b == 168)
    ||| (a == 169 && b == 254)
    ||| (a == 255 && b == 255 && c == 255 && d == 255)
    ||| (a == 192 && b == 0 && c == 2)
    ||| (a == 198 && b == 51 && c == 100)
    ||| (a == 203 && b == 0 && c == 113)
    ||| (a == 0 && b == 0 && c == 0 && d == 0)
}

/// Loopback `::1`, unspecified `::`, unique-local `fc00::/7` or link-local
/// `fe80::/10` IPv6 address.
pub open spec fn v6_restricted(s: (u16, u16, u16, u16, u16, u16, u16, u16)) -> bool {
    let lead_zero = s.0 == 0 && s.1 == 0 && s.2 == 0 && s.3 == 0 && s.4 == 0 && s.5 == 0 && s.6
        == 0;
    ||| (lead_zero && s.7 == 1)
    ||| (lead_zero && s.7 == 0)
    ||| (s.0 & 0xfe00u16) == 0xfc00u16
    ||| (s.0 & 0xffc0u16) == 0xfe80u16
}

pub open spec fn ip_restricted(ip: IpAddress) -> bool {
    match ip {
        IpAddress::V4(a, b, c, d) => v4_restricted(a, b, c, d),
        IpAddress::V6(s0, s1, s2, s3, s4, s5, s6, s7) => v6_restricted(
            (s0, s1, s2, s3, s4, s5, s6, s7),
        ),
    }
}

/// Whether an address must not be fetched from on a client's behalf.
pub fn is_private_or_restricted_ip(ip: IpAddress) -> (r: bool)
    ensures
        r == ip_restricted(ip),
{
    match ip {
        IpAddress::V4(a, b, c, d) => {
            a == 127 || a == 10 || (a == 172 && 16 <= b && b <= 31) || (a == 192 && b == 168) || (
            a == 169 && b == 254) || (a == 255 && b == 255 && c == 255 && d == 255) || (a == 192
                && b == 0 && c == 2) || (a == 198 && b == 51 && c == 100) || (a == 203 && b == 0
                && c == 113) || (a == 0 && b == 0 && c == 0 && d == 0)
        },
        IpAddress::V6(s0, s1, s2, s3, s4, s5, s6, s7) => {
            let lead_zero = s0 == 0 && s1 == 0 && s2 == 0 && s3 == 0 && s4 == 0 && s5 == 0 && s6
                == 0;
            (lead_zero && s7 == 1) || (lead_zero && s7 == 0) || (s0 & 0xfe00u16) == 0xfc00u16 || (
            s0 & 0xffc0u16) == 0xfe80u16
        },
    }
}

// ---------------------------------------------------------------------------
// Outbound URLs
// ---------------------------------------------------------------------------

/// The parts of a parsed URL that the checks read: scheme, host text and
/// port (explicit or the scheme's default).
pub struct UrlParts {
    pub scheme: String,
    pub host: Option<String>,
    pub port: Option<u16>,
}

impl View for UrlParts {
    type V = (Seq<char>, Option<Seq<char>>, Option<u16>);

    open spec fn view(&self) -> (Seq<char>, Option<Seq<char>>, Option<u16>) {
        (
            self.scheme@,
            match self.host {
                Some(h) => Some(h@),
                None => None,
            },
            self.port,
        )
    }
}

/// The outcome of `Url::parse` on `s`: `None` when it fails, else the
/// URL's `scheme()`, `host_str()` and `port_or_known_default()`.
pub uninterp spec fn parsed_url(s: Seq<char>) -> Option<(Seq<char>, Option<Seq<char>>, Option<u16>)>;

/// `reqwest::Url::parse` (the `url` crate's WHATWG parser) and the three
/// accessors the checks read.
#[verifier::external_body]
fn parse_url(s: &str) -> (r: Option<UrlParts>)
    ensures
        match r {
            Some(p) => parsed_url(s@) == Some(p@),
            None => parsed_url(s@) is None,
        },
{
    match reqwest::Url::parse(s) {
        Ok(u) => Some(
            UrlParts {
                scheme: u.scheme().to_string(),
                host: match u.host_str() {
                    Some(h) => Some(h.to_string()),
                    None => None,
                },
                port: u.port_or_known_default(),
            },
        ),
        Err(_) => None,
    }
}

/// Host names never fetched from, compared after lower-casing.
pub open spec fn host_forbidden(lower: Seq<char>) -> bool {
    ||| lower == "localhost"@
    ||| ends_with(lower, ".local"@)
    ||| ends_with(lower, ".internal"@)
    ||| ends_with(lower, ".lan"@)
    ||| lower == "127.0.0.1"@
    ||| lower == "::1"@
}

/// The verdict on a URL before its host is resolved: the host and port
/// to resolve, or the refusal.
pub open spec fn ssrf_precheck(url: Seq<char>) -> Result<(Seq<char>, u16), HttpStatus> {
    match parsed_url(url) {
        None => Err(HttpStatus::BadRequest),
        Some(p) => if p.0 != "http"@ && p.0 != "https"@ {
            Err(HttpStatus::BadRequest)
        } else {
            match p.1 {
                None => Err(HttpStatus::BadRequest),
                Some(h) => if host_forbidden(lowercase(h)) {
                    Err(HttpStatus::Forbidden)
                } else {
                    Ok(
                        (
                            h,
                            match p.2 {
                                Some(port) => port,
                                None => 80u16,
                            },
                        ),
                    )
                },
            }
        },
    }
}

/// First half of the outbound-URL check: parses `url_str`, which must be
/// http(s) with a host that is not local; gives the host and port to
/// resolve.
pub fn check_url_target(url_str: &str) -> (r: Result<(String, u16), HttpStatus>)
    ensures
        match ssrf_precheck(url_str@) {
            Ok((h, port)) => r matches Ok((rh, rport)) && rh@ == h && rport == port,
            Err(e) => r == Err::<(String, u16), HttpStatus>(e),
        },
{
    let parts = match parse_url(url_str) {
        Some(p) => p,
        None => return Err(HttpStatus::BadRequest),
    };
    if !same_chars_str(parts.scheme.as_str(), "http") && !same_chars_str(parts.scheme.as_str(), "https") {
        return Err(HttpStatus::BadRequest);
    }
    let host = match parts.host {
        Some(h) => h,
        None => return Err(HttpStatus::BadRequest),
    };
    let lower = to_lowercase(host.as_str());
    let lc = chars_of(lower.as_str());
    let forbidden = same_chars_str(lower.as_str(), "localhost") || ends_with_chars(
        &lc,
        &chars_of(".local"),
    ) || ends_with_chars(&lc, &chars_of(".internal")) || ends_with_chars(&lc, &chars_of(".lan"))
        || same_chars_str(lower.as_str(), "127.0.0.1") || same_chars_str(lower.as_str(), "::1");
    if forbidden {
        return Err(HttpStatus::Forbidden);
    }
    let port = match parts.port {
        Some(p) => p,
        None => 80,
    };
    Ok((host, port))
}

/// The verdict on the addresses a host resolved to.
pub open spec fn resolved_verdict(addrs: Seq<IpAddress>) -> Result<(), HttpStatus> {
    if exists|i: int| 0 <= i < addrs.len() && ip_restricted(#[trigger] addrs[i]) {
        Err(HttpStatus::Forbidden)
    } else if addrs.len() == 0 {
        Err(HttpStatus::BadRequest)
    } else {
        Ok(())
    }
}

/// Second half of the outbound-URL check: the host must resolve, and to
/// no restricted address.
pub fn check_resolved_addresses(addrs: &Vec<IpAddress>) -> (r: Result<(), HttpStatus>)
    ensures
        r == resolved_verdict(addrs@),
{
    let mut i: usize = 0;
    while i < addrs.len()
        invariant
            i <= addrs.len(),
            forall|k: int| 0 <= k < i ==> !ip_restricted(#[trigger] addrs@[k]),
        decreases addrs.len() - i,
    {
        if is_private_or_restricted_ip(addrs[i]) {
            return Err(HttpStatus::Forbidden);
        }
        i = i + 1;
    }
    if addrs.len() == 0 {
        return Err(HttpStatus::BadRequest);
    }
    Ok(())
}

/// A URL resolving to any restricted address is refused, whatever else
/// it resolves to.
pub proof fn law_restricted_address_refused(addrs: Seq<IpAddress>, i: int)
    requires
        0 <= i < addrs.len(),
        ip_restricted(addrs[i]),
    ensures
        resolved_verdict(addrs) == Err::<(), HttpStatus>(HttpStatus::Forbidden),
{
}

// ---------------------------------------------------------------------------
// Client address
// ---------------------------------------------------------------------------

/// Whether a `TRUST_PROXY` value turns on trusting forwarding headers.
pub open spec fn proxy_trusted(v: Seq<char>) -> bool {
    v == "true"@ || v == "1"@
}

pub fn trust_proxy_enabled(value: Option<&str>) -> (r: bool)
    ensures
        r == (match value {
            Some(v) => proxy_trusted(v@),
            None => false,
        }),
{
    match value {
        Some(v) => same_chars_str(v, "true") || same_chars_str(v, "1"),
        None => false,
    }
}

/// The part of `s` before its first comma (all of `s` without one).
pub open spec fn first_field(s: Seq<char>) -> Seq<char> {
    match find(s, seq![',']) {
        Some(i) => s.take(i),
        None => s,
    }
}

/// The address a request is attributed to.
pub open spec fn client_ip_of(
    trust_proxy: bool,
    forwarded_for: Option<Seq<char>>,
    real_ip: Option<Seq<char>>,
    peer: Option<Seq<char>>,
) -> Seq<char> {
    if trust_proxy && forwarded_for is Some && trim(first_field(forwarded_for->0)).len() > 0 {
        trim(first_field(forwarded_for->0))
    } else if trust_proxy && real_ip is Some && trim(real_ip->0).len() > 0 {
        trim(real_ip->0)
    } else if peer is Some {
        peer->0
    } else {
        "127.0.0.1"@
    }
}

fn first_field_of(s: &str) -> (r: String)
    ensures
        r@ == first_field(s@),
{
    let cs = chars_of(s);
    let comma: Vec<char> = vec![','];
    assert(comma@ == seq![',']);
    match find_chars(&cs, &comma) {
        Some(i) => {
            proof {
                lemma_find(cs@, comma@);
            }
            let r = string_of_range(&cs, 0, i);
            assert(find(cs@, comma@) == Some(i as int));
            assert(cs@.subrange(0, i as int) == cs@.take(i as int));
            assert(r@ == s@.take(i as int));
            r
        },
        None => {
            assert(find(cs@, comma@) is None);
            string_of(&cs)
        },
    }
}

/// The client address: with `trust_proxy`, the first `X-Forwarded-For`
/// entry, else `X-Real-IP` (each trimmed, when not blank); otherwise the
/// peer address, or `127.0.0.1` when unknown.
pub fn get_client_ip(
    trust_proxy: bool,
    forwarded_for: Option<&str>,
    real_ip: Option<&str>,
    peer: Option<String>,
) -> (r: String)
    ensures
        r@ == client_ip_of(
            trust_proxy,
            match forwarded_for {
                Some(f) => Some(f@),
                None => None,
            },
            match real_ip {
                Some(v) => Some(v@),
                None => None,
            },
            match peer {
                Some(p) => Some(p@),
                None => None,
            },
        ),
{
    if trust_proxy {
        if let Some(f) = forwarded_for {
            let first = first_field_of(f);
            let t = trimmed(first.as_str());
            if !t.as_str().is_empty() {
                return t;
            }
        }
        if let Some(v) = real_ip {
            let t = trimmed(v);
            if !t.as_str().is_empty() {
                return t;
            }
        }
    }
    match peer {
        Some(p) => p,
        None => "127.0.0.1".to_owned(),
    }
}

/// Without proxy trust the forwarding headers never matter.
pub proof fn law_untrusted_headers_ignored(
    f1: Option<Seq<char>>,
    r1: Option<Seq<char>>,
    f2: Option<Seq<char>>,
    r2: Option<Seq<char>>,
    peer: Option<Seq<char>>,
)
    ensures
        client_ip_of(false, f1, r1, peer) == client_ip_of(false, f2, r2, peer),
{
}

} // verus!
