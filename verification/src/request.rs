//! What the proxy reads of an incoming request: its host, whether it came over
//! HTTPS, whether debug mode is on, and the visitor's address.
use vstd::prelude::*;
use crate::text::{chars_of, contains, contains_seq, split, split_seq, trim, trim_seq, string_of, same_chars};
use crate::headers::{Headers, HeaderEntry, entry_view, entries_named, header_text, first_entry};
use crate::models::opt_view;

verus! {

/// Whether the IP address written `address` lies in the network written
/// `cidr` (`ipnetwork::IpNetwork::contains`); false when either does not
/// parse.
pub uninterp spec fn in_block(cidr: Seq<char>, address: Seq<char>) -> bool;

/// The headers that carry the visitor's address as set by a CDN or a proxy.
pub open spec fn direct_ip_headers() -> Seq<Seq<char>> {
    seq![
        "x-client-ip"@,
        "cf-connecting-ip"@,
        "fastly-client-ip"@,
        "true-client-ip"@,
        "x-real-ip"@,
    ]
}

/// The headers that carry the chain of addresses a request went through.
pub open spec fn forwarded_headers() -> Seq<Seq<char>> {
    seq![
        "x-forwarded-for"@,
        "x-original-forwarded-for"@,
        "forwarded-for"@,
        "x-forwarded"@,
        "forwarded"@,
    ]
}

/// The private, loopback and link-local networks.
pub open spec fn private_blocks() -> Seq<Seq<char>> {
    seq![
        "127.0.0.1/8"@,
        "10.0.0.0/8"@,
        "172.16.0.0/12"@,
        "192.168.0.0/16"@,
        "169.254.0.0/16"@,
        "::1/128"@,
        "fc00::/7"@,
        "fe80::/10"@,
    ]
}

/// Whether an address is private.
pub open spec fn is_private(address: Seq<char>) -> bool {
    exists|i: int| 0 <= i < private_blocks().len() && #[trigger] in_block(private_blocks()[i], address)
}

/// The text of the first of the headers `names` that the request has as text.
pub open spec fn first_header(h: Seq<(Seq<char>, Seq<char>, bool)>, names: Seq<Seq<char>>) -> Option<
    Seq<char>,
>
    decreases names.len(),
{
    if names.len() == 0 {
        None
    } else {
        match header_text(h, names[0]) {
            Some(v) => Some(v),
            None => first_header(h, names.drop_first()),
        }
    }
}

/// The first public address of a comma-separated chain.
pub open spec fn first_public(items: Seq<Seq<char>>) -> Option<Seq<char>>
    decreases items.len(),
{
    if items.len() == 0 {
        None
    } else if !is_private(trim_seq(items[0])) {
        Some(trim_seq(items[0]))
    } else {
        first_public(items.drop_first())
    }
}

/// The first public address of the first forwarding header that has one.
pub open spec fn forwarded_ip(h: Seq<(Seq<char>, Seq<char>, bool)>, names: Seq<Seq<char>>) -> Option<
    Seq<char>,
>
    decreases names.len(),
{
    if names.len() == 0 {
        None
    } else {
        let here = match header_text(h, names[0]) {
            Some(v) => first_public(split_seq(v, ","@)),
            None => None,
        };
        match here {
            Some(ip) => Some(ip),
            None => forwarded_ip(h, names.drop_first()),
        }
    }
}

/// The visitor's address: from a CDN's header, else the first public address
/// a request was forwarded for, else the address of the connection.
pub open spec fn real_ip(h: Seq<(Seq<char>, Seq<char>, bool)>, remote_addr: Seq<char>) -> Seq<char> {
    match first_header(h, direct_ip_headers()) {
        Some(v) => v,
        None => match forwarded_ip(h, forwarded_headers()) {
            Some(ip) => ip,
            None => remote_addr,
        },
    }
}

/// `IpNetwork::from_str(cidr)`, the address parsed, and
/// `IpNetwork::contains`: named by `in_block`.
#[verifier::external_body]
fn block_contains(cidr: &str, address: &str) -> (r: bool)
    ensures
        r == in_block(cidr@, address@),
{
    match (cidr.parse::<ipnetwork::IpNetwork>(), address.parse()) {
        (Ok(network), Ok(ip)) => network.contains(ip),
        _ => false,
    }
}

fn blocks() -> (r: Vec<&'static str>)
    ensures
        r@.len() == private_blocks().len(),
        forall|i: int| 0 <= i < r@.len() ==> #[trigger] r@[i]@ == private_blocks()[i],
{
    vec![
        "127.0.0.1/8",
        "10.0.0.0/8",
        "172.16.0.0/12",
        "192.168.0.0/16",
        "169.254.0.0/16",
        "::1/128",
        "fc00::/7",
        "fe80::/10",
    ]
}

/// Whether an address is private.
pub fn is_private_address(address: &str) -> (r: bool)
    ensures
        r == is_private(address@),
{
    let bs = blocks();
    let mut i: usize = 0;
    while i < bs.len()
        invariant
            i <= bs@.len(),
            bs@.len() == private_blocks().len(),
            forall|k: int| 0 <= k < bs@.len() ==> #[trigger] bs@[k]@ == private_blocks()[k],
            forall|k: int| 0 <= k < i ==> !in_block(#[trigger] private_blocks()[k], address@),
        decreases bs@.len() - i,
    {
        if block_contains(bs[i], address) {
            return true;
        }
        i = i + 1;
    }
    false
}

fn first_public_exec(items: &Vec<Vec<char>>) -> (r: Option<String>)
    ensures
        opt_view(r) == first_public(items@.map_values(|v: Vec<char>| v@)),
{
    let ghost all = items@.map_values(|v: Vec<char>| v@);
    let mut i: usize = 0;
    proof {
        assert(all.subrange(0, all.len() as int) =~= all);
    }
    while i < items.len()
        invariant
            i <= items@.len(),
            all == items@.map_values(|v: Vec<char>| v@),
            first_public(all) == first_public(all.subrange(i as int, all.len() as int)),
        decreases items@.len() - i,
    {
        proof {
            let rest = all.subrange(i as int, all.len() as int);
            assert(rest.drop_first() =~= all.subrange(i + 1, all.len() as int));
            assert(rest[0] == items@[i as int]@);
        }
        let t = trim(items[i].as_slice());
        let s = string_of(&t);
        if !is_private_address(s.as_str()) {
            return Some(s);
        }
        i = i + 1;
    }
    None
}

/// The visitor's address (see `real_ip`).
pub fn get_real_ip(headers: &Headers, remote_addr: &str) -> (r: String)
    ensures
        r@ == real_ip(headers@, remote_addr@),
{
    let direct: Vec<&'static str> = vec![
        "x-client-ip",
        "cf-connecting-ip",
        "fastly-client-ip",
        "true-client-ip",
        "x-real-ip",
    ];
    let ghost dn = direct_ip_headers();
    proof {
        assert(dn.subrange(0, dn.len() as int) =~= dn);
    }
    let mut i: usize = 0;
    while i < direct.len()
        invariant
            i <= direct@.len(),
            direct@.len() == dn.len(),
            dn == direct_ip_headers(),
            forall|k: int| 0 <= k < direct@.len() ==> #[trigger] direct@[k]@ == dn[k],
            first_header(headers@, dn) == first_header(headers@, dn.subrange(i as int, dn.len() as int)),
        decreases direct@.len() - i,
    {
        proof {
            let rest = dn.subrange(i as int, dn.len() as int);
            assert(rest.drop_first() =~= dn.subrange(i + 1, dn.len() as int));
        }
        match headers.text(direct[i]) {
            Some(v) => {
                return v;
            },
            None => {},
        }
        i = i + 1;
    }
    let forwarded: Vec<&'static str> = vec![
        "x-forwarded-for",
        "x-original-forwarded-for",
        "forwarded-for",
        "x-forwarded",
        "forwarded",
    ];
    let ghost fw = forwarded_headers();
    let comma = chars_of(",");
    proof {
        assert(fw.subrange(0, fw.len() as int) =~= fw);
    }
    let mut j: usize = 0;
    while j < forwarded.len()
        invariant
            j <= forwarded@.len(),
            forwarded@.len() == fw.len(),
            fw == forwarded_headers(),
            comma@ == ","@,
            first_header(headers@, direct_ip_headers()) is None,
            forall|k: int| 0 <= k < forwarded@.len() ==> #[trigger] forwarded@[k]@ == fw[k],
            forwarded_ip(headers@, fw) == forwarded_ip(headers@, fw.subrange(j as int, fw.len() as int)),
        decreases forwarded@.len() - j,
    {
        proof {
            let rest = fw.subrange(j as int, fw.len() as int);
            assert(rest.drop_first() =~= fw.subrange(j + 1, fw.len() as int));
        }
        match headers.text(forwarded[j]) {
            Some(v) => {
                proof {
                    reveal_strlit(",");
                }
                let items = split(chars_of(v.as_str()).as_slice(), comma.as_slice());
                proof {
                    assert(items@.map_values(|x: Vec<char>| x@) =~= split_seq(v@, ","@));
                }
                match first_public_exec(&items) {
                    Some(ip) => {
                        return ip;
                    },
                    None => {},
                }
            },
            None => {},
        }
        j = j + 1;
    }
    remote_addr.to_string()
}

/// The host a request is for: the `Host` header, else the host of its URI,
/// without a port.
pub open spec fn request_host(h: Seq<(Seq<char>, Seq<char>, bool)>, uri_host: Option<Seq<char>>) -> Option<
    Seq<char>,
> {
    let full = match first_entry(h, "host"@) {
        Some(e) => Some(e.1),
        None => uri_host,
    };
    match full {
        Some(x) => Some(split_seq(x, ":"@)[0]),
        None => None,
    }
}

/// Whether the request came over HTTPS, itself or before a proxy that says so.
pub open spec fn came_over_https(h: Seq<(Seq<char>, Seq<char>, bool)>, proto: Seq<char>) -> bool {
    proto == "https"@ || header_text(h, "x-forwarded-proto"@) == Some("https"@)
}

/// Whether a cookie header turns debug mode on.
pub open spec fn debug_mode(h: Seq<(Seq<char>, Seq<char>, bool)>) -> bool {
    exists|i: int|
        0 <= i < entries_named(h, "cookie"@).len() && (#[trigger] entries_named(h, "cookie"@)[i]).2
            && contains_seq(entries_named(h, "cookie"@)[i].1, "_edgeedebug=true"@)
}

/// What the proxy reads of an incoming request.
pub struct IncomingContext {
    pub host: String,
    pub is_https: bool,
    pub is_debug_mode: bool,
    pub client_ip: String,
}

impl IncomingContext {
    /// Reads the request: its host (which it must have, as text where it is a
    /// header), whether it came over HTTPS, debug mode, and the visitor's
    /// address.
    pub fn new(headers: &Headers, uri_host: Option<&str>, proto: &str, remote_addr: &str) -> (r:
        IncomingContext)
        requires
            first_entry(headers@, "host"@) matches Some(e) ==> e.2,
            first_entry(headers@, "host"@) is Some || uri_host is Some,
        ensures
            Some(r.host@) == request_host(
                headers@,
                match uri_host {
                    Some(u) => Some(u@),
                    None => None,
                },
            ),
            r.is_https == came_over_https(headers@, proto@),
            r.is_debug_mode == debug_mode(headers@),
            r.client_ip@ == real_ip(headers@, remote_addr@),
    {
        let full = match headers.text("host") {
            Some(v) => v,
            None => {
                proof {
                    assert(first_entry(headers@, "host"@) is None);
                }
                uri_host.unwrap().to_string()
            },
        };
        let colon = chars_of(":");
        proof {
            reveal_strlit(":");
            crate::collect::lemma_split_nonempty(full@, ":"@);
        }
        let parts = split(chars_of(full.as_str()).as_slice(), colon.as_slice());
        let host = string_of(&parts[0]);
        let p = chars_of(proto);
        let https = chars_of("https");
        let mut is_https = same_chars(&p, &https);
        match headers.text("x-forwarded-proto") {
            Some(v) => {
                let vv = chars_of(v.as_str());
                if same_chars(&vv, &https) {
                    is_https = true;
                }
            },
            None => {},
        }
        let cookies = headers.all_named("cookie");
        let marker = chars_of("_edgeedebug=true");
        let ghost es = entries_named(headers@, "cookie"@);
        let mut debug = false;
        let mut i: usize = 0;
        while i < cookies.len()
            invariant
                i <= cookies@.len(),
                es == cookies@.map_values(|e: HeaderEntry| entry_view(e)),
                marker@ == "_edgeedebug=true"@,
                debug <==> exists|k: int|
                    0 <= k < i && (#[trigger] es[k]).2 && contains_seq(es[k].1, "_edgeedebug=true"@),
            decreases cookies@.len() - i,
        {
            proof {
                assert(es[i as int] == entry_view(cookies@[i as int]));
            }
            if cookies[i].text {
                let c = chars_of(cookies[i].value.as_str());
                if contains(c.as_slice(), marker.as_slice()) {
                    debug = true;
                }
            }
            i = i + 1;
        }
        let client_ip = get_real_ip(headers, remote_addr);
        IncomingContext { host, is_https, is_debug_mode: debug, client_ip }
    }
}


/// The parts of a request's URI.
#[derive(Debug, Clone)]
pub struct UriParts {
    pub scheme: Option<String>,
    pub authority: Option<String>,
    pub path_and_query: Option<String>,
}

/// What the proxy asks of a request's URI.
pub trait RequestExt {
    /// Whether the URI has a scheme.
    spec fn has_scheme(&self) -> bool;

    /// Whether the URI has an authority and a path.
    spec fn is_absolute(&self) -> bool;

    /// Whether the request came over plain HTTP.
    fn is_http(&self) -> bool
        requires
            self.has_scheme(),
    ;

    /// The same URI over HTTPS.
    fn https_uri(&self) -> String
        requires
            self.is_absolute(),
    ;
}

impl RequestExt for UriParts {
    open spec fn has_scheme(&self) -> bool {
        self.scheme is Some
    }

    open spec fn is_absolute(&self) -> bool {
        self.authority is Some && self.path_and_query is Some
    }

    fn is_http(&self) -> (r: bool)
        ensures
            r == (self.scheme.unwrap()@ == "http"@),
    {
        let s = chars_of(self.scheme.as_ref().unwrap().as_str());
        let http = chars_of("http");
        same_chars(&s, &http)
    }

    fn https_uri(&self) -> (r: String)
        ensures
            r@ == "https://"@ + self.authority.unwrap()@ + self.path_and_query.unwrap()@,
    {
        let mut r = String::new();
        crate::text::push_str(&mut r, "https://");
        crate::text::push_str(&mut r, self.authority.as_ref().unwrap().as_str());
        crate::text::push_str(&mut r, self.path_and_query.as_ref().unwrap().as_str());
        r
    }
}


/// The visitor's address, header by header, in order of trust: the first of
/// `X-Client-IP`, `CF-Connecting-IP`, `Fastly-Client-Ip`, `True-Client-Ip` and
/// `X-Real-IP` that the request has as text gives it; without any of them,
/// the first public address of `X-Forwarded-For` gives it; without any of
/// these nor of the other forwarding headers (`X-Original-Forwarded-For`,
/// `Forwarded-For`, `X-Forwarded`, `Forwarded`), it is the connection's
/// address.
pub proof fn lemma_real_ip_order(h: Seq<(Seq<char>, Seq<char>, bool)>, remote_addr: Seq<char>)
    ensures
        (header_text(h, "x-client-ip"@) is Some) ==> real_ip(h, remote_addr) == header_text(h, "x-client-ip"@).unwrap(),
        (header_text(h, "x-client-ip"@) is None && header_text(h, "cf-connecting-ip"@) is Some) ==> real_ip(h, remote_addr) == header_text(h, "cf-connecting-ip"@).unwrap(),
        (header_text(h, "x-client-ip"@) is None && header_text(h, "cf-connecting-ip"@) is None && header_text(h, "fastly-client-ip"@) is Some) ==> real_ip(h, remote_addr) == header_text(h, "fastly-client-ip"@).unwrap(),
        (header_text(h, "x-client-ip"@) is None && header_text(h, "cf-connecting-ip"@) is None && header_text(h, "fastly-client-ip"@) is None && header_text(h, "true-client-ip"@) is Some) ==> real_ip(h, remote_addr) == header_text(h, "true-client-ip"@).unwrap(),
        (header_text(h, "x-client-ip"@) is None && header_text(h, "cf-connecting-ip"@) is None && header_text(h, "fastly-client-ip"@) is None && header_text(h, "true-client-ip"@) is None && header_text(h, "x-real-ip"@) is Some) ==> real_ip(h, remote_addr) == header_text(h, "x-real-ip"@).unwrap(),
        (header_text(h, "x-client-ip"@) is None && header_text(h, "cf-connecting-ip"@) is None && header_text(h, "fastly-client-ip"@) is None && header_text(h, "true-client-ip"@) is None && header_text(h, "x-real-ip"@) is None && header_text(h, "x-forwarded-for"@) is Some && first_public(split_seq(header_text(h, "x-forwarded-for"@).unwrap(), ","@)) is Some) ==> real_ip(h, remote_addr) == first_public(split_seq(header_text(h, "x-forwarded-for"@).unwrap(), ","@)).unwrap(),
        (header_text(h, "x-client-ip"@) is None && header_text(h, "cf-connecting-ip"@) is None && header_text(h, "fastly-client-ip"@) is None && header_text(h, "true-client-ip"@) is None && header_text(h, "x-real-ip"@) is None && header_text(h, "x-forwarded-for"@) is None && header_text(h, "x-original-forwarded-for"@) is None && header_text(h, "forwarded-for"@) is None && header_text(h, "x-forwarded"@) is None && header_text(h, "forwarded"@) is None) ==> real_ip(h, remote_addr) == remote_addr,
{
    let d = direct_ip_headers();
    let f = forwarded_headers();
    assert(d.drop_first() =~= seq!["cf-connecting-ip"@, "fastly-client-ip"@, "true-client-ip"@, "x-real-ip"@]);
    assert(d.drop_first().drop_first() =~= seq!["fastly-client-ip"@, "true-client-ip"@, "x-real-ip"@]);
    assert(d.drop_first().drop_first().drop_first() =~= seq!["true-client-ip"@, "x-real-ip"@]);
    assert(d.drop_first().drop_first().drop_first().drop_first() =~= seq!["x-real-ip"@]);
    assert(d.drop_first().drop_first().drop_first().drop_first().drop_first() =~= Seq::<Seq<char>>::empty());
    assert(f.drop_first() =~= seq!["x-original-forwarded-for"@, "forwarded-for"@, "x-forwarded"@, "forwarded"@]);
    assert(f.drop_first().drop_first() =~= seq!["forwarded-for"@, "x-forwarded"@, "forwarded"@]);
    assert(f.drop_first().drop_first().drop_first() =~= seq!["x-forwarded"@, "forwarded"@]);
    assert(f.drop_first().drop_first().drop_first().drop_first() =~= seq!["forwarded"@]);
    assert(f.drop_first().drop_first().drop_first().drop_first().drop_first() =~= Seq::<Seq<char>>::empty());
    reveal_with_fuel(first_header, 6);
    reveal_with_fuel(forwarded_ip, 6);
}

} // verus!
