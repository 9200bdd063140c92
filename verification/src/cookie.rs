//! The visitor cookie of the proxy: finding it in a request, keeping its
//! session up to date, and what it records of the visitor's device.
use vstd::prelude::*;
use crate::headers::{Headers, HeaderEntry, entry_view, entries_named};
use crate::payload::{Instant, Payload, Client};
use crate::text::{chars_of, split, split_seq, trim, trim_seq, string_of, same_chars, contains_seq, occurs_at, first_occurrence, lemma_first_occurrence};
use crate::numbers::{i64_to_string, signed_decimal};
use crate::models::opt_view;

verus! {

/// Length of a session: a visit more than this after the last one starts a
/// new session (thirty minutes, in nanoseconds).
pub open spec fn session_nanos() -> int {
    1_800_000_000_000
}

/// The visitor cookie.
#[derive(Debug, Clone)]
pub struct EdgeeCookie {
    /// the visitor's id (a v4 UUID)
    pub id: String,
    /// first seen
    pub fs: Instant,
    /// last seen
    pub ls: Instant,
    /// session start
    pub ss: Instant,
    /// start of the previous session
    pub ps: Option<Instant>,
    /// session count
    pub sc: u32,
    /// screen size
    pub sz: Option<String>,
    /// user agent architecture
    pub uaa: Option<String>,
    /// user agent bitness
    pub uab: Option<String>,
    /// user agent model
    pub uam: Option<String>,
    /// user agent platform version
    pub uapv: Option<String>,
    /// user agent full version list
    pub uafvl: Option<String>,
    /// timezone
    pub tz: Option<String>,
}

/// The client of a payload, if it has one.
pub open spec fn payload_client(p: Payload) -> Option<Client> {
    match p.data_collection {
        Some(dc) => match dc.context {
            Some(c) => c.client,
            None => None,
        },
        None => None,
    }
}

/// `"{w}x{h}x{d}"`.
pub open spec fn screen_text(w: int, h: int, d: int) -> Seq<char> {
    signed_decimal(w) + seq!['x'] + signed_decimal(h) + seq!['x'] + signed_decimal(d)
}

/// What `set_screen_size` makes of the screen size.
pub open spec fn screen_size_after(sz: Option<Seq<char>>, p: Payload) -> Option<Seq<char>> {
    match payload_client(p) {
        Some(c) => match (c.screen_width, c.screen_height, c.screen_density) {
            (Some(w), Some(h), Some(d)) => Some(screen_text(w as int, h as int, d as int)),
            _ => sz,
        },
        None => sz,
    }
}

/// A hint replaces the recorded one when the client gives it.
pub open spec fn hint_after(old: Option<String>, new: Option<String>) -> Option<Seq<char>> {
    match new {
        Some(v) => Some(v@),
        None => opt_view(old),
    }
}

/// The client hints of `new` are those of `old`, each replaced by the one the
/// payload's client gives, if any; without a client they are unchanged.
pub open spec fn hints_recorded(old: EdgeeCookie, new: EdgeeCookie, payload: Payload) -> bool {
    match payload_client(payload) {
        Some(c) => {
            &&& opt_view(new.uaa) == hint_after(old.uaa, c.user_agent_architecture)
            &&& opt_view(new.uab) == hint_after(old.uab, c.user_agent_bitness)
            &&& opt_view(new.uam) == hint_after(old.uam, c.user_agent_model)
            &&& opt_view(new.uapv) == hint_after(old.uapv, c.os_version)
            &&& opt_view(new.uafvl) == hint_after(old.uafvl, c.user_agent_full_version_list)
            &&& opt_view(new.tz) == hint_after(old.tz, c.timezone)
        },
        None => {
            &&& new.uaa == old.uaa && new.uab == old.uab
            &&& new.uam == old.uam && new.uapv == old.uapv
            &&& new.uafvl == old.uafvl && new.tz == old.tz
        },
    }
}

/// The client hints of a new cookie: each the one the payload's client gives,
/// if any, else none.
pub open spec fn first_hints(r: EdgeeCookie, payload: Payload) -> bool {
    match payload_client(payload) {
        Some(c) => {
            &&& opt_view(r.uaa) == hint_after(None, c.user_agent_architecture)
            &&& opt_view(r.uab) == hint_after(None, c.user_agent_bitness)
            &&& opt_view(r.uam) == hint_after(None, c.user_agent_model)
            &&& opt_view(r.uapv) == hint_after(None, c.os_version)
            &&& opt_view(r.uafvl) == hint_after(None, c.user_agent_full_version_list)
            &&& opt_view(r.tz) == hint_after(None, c.timezone)
        },
        None => {
            &&& r.uaa is None && r.uab is None && r.uam is None
            &&& r.uapv is None && r.uafvl is None && r.tz is None
        },
    }
}

/// The nanoseconds from `a` to `b`.
pub open spec fn elapsed(a: Instant, b: Instant) -> int {
    b.total_nanos() - a.total_nanos()
}

impl EdgeeCookie {
    /// A cookie for a visitor first seen at `now`, with id `id`.
    pub fn new_at(id: String, now: Instant) -> (r: EdgeeCookie)
        ensures
            r.id == id,
            r.fs == now && r.ls == now && r.ss == now,
            r.ps is None,
            r.sc == 1,
            r.sz is None && r.uaa is None && r.uab is None && r.uam is None,
            r.uapv is None && r.uafvl is None && r.tz is None,
    {
        EdgeeCookie {
            id,
            fs: now,
            ls: now,
            ss: now,
            ps: None,
            sc: 1,
            sz: None,
            uaa: None,
            uab: None,
            uam: None,
            uapv: None,
            uafvl: None,
            tz: None,
        }
    }

    /// A cookie for a new visitor: a fresh v4 UUID, first seen now.
    pub fn new() -> (r: EdgeeCookie)
        ensures
            is_v4_uuid_text(r.id@),
            r.fs == r.ls && r.ls == r.ss,
            r.ps is None,
            r.sc == 1,
            r.sz is None && r.uaa is None && r.uab is None && r.uam is None,
            r.uapv is None && r.uafvl is None && r.tz is None,
    {
        let id = uuid_v4();
        let now = now();
        EdgeeCookie::new_at(id, now)
    }

    /// Records the screen size when the payload's client gives all three of
    /// its dimensions.
    pub fn set_screen_size(&mut self, payload: &Payload)
        ensures
            opt_view(final(self).sz) == screen_size_after(opt_view(old(self).sz), *payload),
            final(self).id == old(self).id && final(self).fs == old(self).fs,
            final(self).ls == old(self).ls && final(self).ss == old(self).ss,
            final(self).ps == old(self).ps && final(self).sc == old(self).sc,
            final(self).uaa == old(self).uaa && final(self).uab == old(self).uab,
            final(self).uam == old(self).uam && final(self).uapv == old(self).uapv,
            final(self).uafvl == old(self).uafvl && final(self).tz == old(self).tz,
    {
        let client = match &payload.data_collection {
            Some(dc) => match &dc.context {
                Some(c) => match &c.client {
                    Some(cl) => cl,
                    None => return
                },
                None => return
            },
            None => return
        };
        match (client.screen_width, client.screen_height, client.screen_density) {
            (Some(w), Some(h), Some(d)) => {
                let mut v = chars_of(i64_to_string(w as i64).as_str());
                v.push('x');
                let hv = chars_of(i64_to_string(h as i64).as_str());
                let dv = chars_of(i64_to_string(d as i64).as_str());
                let ghost v0 = v@;
                append_chars(&mut v, &hv);
                v.push('x');
                append_chars(&mut v, &dv);
                proof {
                    assert(v@ =~= screen_text(w as int, h as int, d as int));
                }
                self.sz = Some(string_of(&v));
            },
            _ => {},
        }
    }

    /// Records the client hints that the payload's client gives.
    pub fn set_client_hints(&mut self, payload: &Payload)
        ensures
            final(self).id == old(self).id && final(self).fs == old(self).fs,
            final(self).ls == old(self).ls && final(self).ss == old(self).ss,
            final(self).ps == old(self).ps && final(self).sc == old(self).sc,
            final(self).sz == old(self).sz,
            hints_recorded(*old(self), *final(self), *payload),
    {
        let client = match &payload.data_collection {
            Some(dc) => match &dc.context {
                Some(c) => match &c.client {
                    Some(cl) => cl,
                    None => return
                },
                None => return
            },
            None => return
        };
        self.uaa = keep_or_replace(&self.uaa, &client.user_agent_architecture);
        self.uab = keep_or_replace(&self.uab, &client.user_agent_bitness);
        self.uam = keep_or_replace(&self.uam, &client.user_agent_model);
        self.uapv = keep_or_replace(&self.uapv, &client.os_version);
        self.uafvl = keep_or_replace(&self.uafvl, &client.user_agent_full_version_list);
        self.tz = keep_or_replace(&self.tz, &client.timezone);
    }

    /// Whether a visit at `now` starts a new session: the last one was at
    /// least a session's length before.
    pub fn starts_new_session(&self, now: Instant) -> (r: bool)
        ensures
            r == (elapsed(self.ls, now) >= session_nanos()),
    {
        nanos_between(self.ls, now) >= 1_800_000_000_000
    }


    /// Brings the session up to date at `now`: within thirty minutes of the
    /// last visit the session goes on, after that a new one starts and the
    /// old one becomes the previous session.
    pub fn update_session(&mut self, now: Instant)
        requires
            elapsed(old(self).ls, now) >= session_nanos() ==> old(self).sc < u32::MAX,
        ensures
            elapsed(old(self).ls, now) < session_nanos() ==> {
                &&& final(self).ls == now
                &&& final(self).ss == old(self).ss
                &&& final(self).ps == old(self).ps
                &&& final(self).sc == old(self).sc
            },
            elapsed(old(self).ls, now) >= session_nanos() ==> {
                &&& final(self).ls == now
                &&& final(self).ss == now
                &&& final(self).ps == Some(old(self).ss)
                &&& final(self).sc == old(self).sc + 1
            },
            final(self).id == old(self).id && final(self).fs == old(self).fs,
            final(self).sz == old(self).sz && final(self).uaa == old(self).uaa,
            final(self).uab == old(self).uab && final(self).uam == old(self).uam,
            final(self).uapv == old(self).uapv && final(self).uafvl == old(self).uafvl,
            final(self).tz == old(self).tz,
    {
        if nanos_between(self.ls, now) < 1_800_000_000_000 {
            self.ls = now;
        }
        if nanos_between(self.ls, now) >= 1_800_000_000_000 {
            self.sc = self.sc + 1;
            self.ps = Some(self.ss);
            self.ls = now;
            self.ss = now;
        }
    }
}

fn nanos_between(a: Instant, b: Instant) -> (r: i128)
    ensures
        r == elapsed(a, b),
{
    let ta: i128 = (a.secs as i128) * 1_000_000_000 + (a.nanos as i128);
    let tb: i128 = (b.secs as i128) * 1_000_000_000 + (b.nanos as i128);
    tb - ta
}

fn keep_or_replace(old: &Option<String>, new: &Option<String>) -> (r: Option<String>)
    ensures
        opt_view(r) == hint_after(*old, *new),
{
    match new {
        Some(v) => Some(v.clone()),
        None => match old {
            Some(v) => Some(v.clone()),
            None => None,
        },
    }
}

fn append_chars(v: &mut Vec<char>, w: &Vec<char>)
    ensures
        final(v)@ == old(v)@ + w@,
{
    let mut i: usize = 0;
    while i < w.len()
        invariant
            i <= w@.len(),
            v@ == old(v)@ + w@.subrange(0, i as int),
        decreases w@.len() - i,
    {
        v.push(w[i]);
        i = i + 1;
        proof {
            assert(v@ =~= old(v)@ + w@.subrange(0, i as int));
        }
    }
    proof {
        assert(w@.subrange(0, w@.len() as int) =~= w@);
    }
}

/// A lowercase hexadecimal digit.
pub open spec fn is_lower_hex(c: char) -> bool {
    ('0' <= c && c <= '9') || ('a' <= c && c <= 'f')
}

/// The text of a version 4 UUID in its hyphenated, lowercase form: 36
/// characters, `-` at 8, 13, 18 and 23, the version `4` at 14, the variant
/// (one of `8 9 a b`) at 19, lowercase hexadecimal digits elsewhere.
pub open spec fn is_v4_uuid_text(s: Seq<char>) -> bool {
    &&& s.len() == 36
    &&& forall|i: int|
        0 <= i < 36 ==> if i == 8 || i == 13 || i == 18 || i == 23 {
            #[trigger] s[i] == '-'
        } else if i == 14 {
            s[i] == '4'
        } else if i == 19 {
            s[i] == '8' || s[i] == '9' || s[i] == 'a' || s[i] == 'b'
        } else {
            is_lower_hex(s[i])
        }
}

/// `Uuid::new_v4().to_string()`: a random v4 UUID (its version and variant
/// bits set, the rest random), written by its `Display` as lowercase
/// hyphenated hexadecimal.
#[verifier::external_body]
fn uuid_v4() -> (r: String)
    ensures
        is_v4_uuid_text(r@),
{
    uuid::Uuid::new_v4().to_string()
}

/// `chrono::Utc::now()`: the current instant; its nanoseconds are below two
/// seconds (they pass one second only within a leap second).
#[verifier::external_body]
fn now() -> (r: Instant)
    ensures
        r.nanos < 2_000_000_000,
{
    let t = chrono::Utc::now();
    Instant { secs: t.timestamp(), nanos: t.timestamp_subsec_nanos() }
}


// ---------------------------------------------------------------------------
// Finding the cookie in a request
// ---------------------------------------------------------------------------

/// The value of `name` in the map that the `key=value` items of `items` build
/// when each item is split at `sep` and kept only when it has exactly two
/// parts (keys and values trimmed when `trimmed`): a later item overwrites an
/// earlier one.
pub open spec fn last_value(items: Seq<Seq<char>>, sep: Seq<char>, name: Seq<char>, trimmed: bool) -> Option<
    Seq<char>,
>
    decreases items.len(),
{
    if items.len() == 0 {
        None
    } else {
        let parts = split_seq(items.last(), sep);
        let key = if trimmed {
            trim_seq(parts[0])
        } else {
            parts[0]
        };
        if parts.len() == 2 && key == name {
            Some(
                if trimmed {
                    trim_seq(parts[1])
                } else {
                    parts[1]
                },
            )
        } else {
            last_value(items.drop_last(), sep, name, trimmed)
        }
    }
}

pub open spec fn semicolon_space() -> Seq<char> {
    seq![';', ' ']
}

pub open spec fn equals_sign() -> Seq<char> {
    seq!['=']
}

/// The cookie `name` in the text of one `Cookie` header.
pub open spec fn cookie_in_value(v: Seq<char>, name: Seq<char>) -> Option<Seq<char>> {
    last_value(split_seq(v, semicolon_space()), equals_sign(), name, true)
}

/// The cookie `name` in the first of the `Cookie` headers that holds it.
pub open spec fn cookie_in_entries(es: Seq<(Seq<char>, Seq<char>, bool)>, name: Seq<char>) -> Option<
    Seq<char>,
>
    decreases es.len(),
{
    if es.len() == 0 {
        None
    } else {
        match cookie_in_value(es[0].1, name) {
            Some(v) => Some(v),
            None => cookie_in_entries(es.drop_first(), name),
        }
    }
}

pub open spec fn cookie_header() -> Seq<char> {
    seq!['c', 'o', 'o', 'k', 'i', 'e']
}

/// The path at which third-party SDKs send their events.
pub open spec fn third_party_event_path() -> Seq<char> {
    seq!['/', '_', 'e', 'd', 'g', 'e', 'e', '/', 'c', 's', 'e', 'v', 'e', 'n', 't']
}

pub open spec fn post_method() -> Seq<char> {
    seq!['P', 'O', 'S', 'T']
}

/// The cookie that a third-party SDK passes as parameter `e` of the query of
/// a POST to its event path.
pub open spec fn cookie_in_query(path: Seq<char>, method: Seq<char>, query: Seq<char>) -> Option<
    Seq<char>,
> {
    if path == third_party_event_path() && method == post_method() {
        last_value(split_seq(query, seq!['&']), equals_sign(), seq!['e'], false)
    } else {
        None
    }
}

/// Whether every `Cookie` header of `h` reads as text.
pub open spec fn cookies_are_text(h: Seq<(Seq<char>, Seq<char>, bool)>) -> bool {
    forall|i: int|
        0 <= i < entries_named(h, cookie_header()).len() ==> (#[trigger] entries_named(
            h,
            cookie_header(),
        )[i]).2
}

/// What `get_cookie` finds: the cookie in the headers, else in the query.
pub open spec fn request_cookie(
    h: Seq<(Seq<char>, Seq<char>, bool)>,
    name: Seq<char>,
    path: Seq<char>,
    method: Seq<char>,
    query: Seq<char>,
) -> Option<Seq<char>> {
    match cookie_in_entries(entries_named(h, cookie_header()), name) {
        Some(v) => Some(v),
        None => cookie_in_query(path, method, query),
    }
}

fn lookup_items(items: &Vec<Vec<char>>, sep: &Vec<char>, name: &Vec<char>, trimmed: bool) -> (r: Option<
    Vec<char>,
>)
    requires
        sep@.len() > 0,
    ensures
        match r {
            Some(v) => last_value(items@.map_values(|x: Vec<char>| x@), sep@, name@, trimmed)
                == Some(v@),
            None => last_value(items@.map_values(|x: Vec<char>| x@), sep@, name@, trimmed) is None,
        },
{
    let ghost all = items@.map_values(|x: Vec<char>| x@);
    let mut found: Option<Vec<char>> = None;
    let mut i: usize = 0;
    while i < items.len()
        invariant
            i <= items@.len(),
            sep@.len() > 0,
            all == items@.map_values(|x: Vec<char>| x@),
            match found {
                Some(v) => last_value(all.subrange(0, i as int), sep@, name@, trimmed) == Some(v@),
                None => last_value(all.subrange(0, i as int), sep@, name@, trimmed) is None,
            },
        decreases items@.len() - i,
    {
        let parts = split(items[i].as_slice(), sep.as_slice());
        proof {
            let p = all.subrange(0, i + 1);
            assert(p.drop_last() =~= all.subrange(0, i as int));
            assert(p.last() == items@[i as int]@);
        }
        if parts.len() == 2 {
            let key = if trimmed {
                trim(parts[0].as_slice())
            } else {
                parts[0].clone()
            };
            if same_chars(&key, name) {
                let val = if trimmed {
                    trim(parts[1].as_slice())
                } else {
                    parts[1].clone()
                };
                found = Some(val);
            }
        }
        i = i + 1;
    }
    proof {
        assert(all.subrange(0, items@.len() as int) =~= all);
    }
    found
}

fn literal_chars(s: &str) -> (r: Vec<char>)
    ensures
        r@ == s@,
{
    chars_of(s)
}

/// The cookie `name` in one `Cookie` header.
fn cookie_in_header(value: &String, name: &Vec<char>) -> (r: Option<Vec<char>>)
    ensures
        match r {
            Some(v) => cookie_in_value(value@, name@) == Some(v@),
            None => cookie_in_value(value@, name@) is None,
        },
{
    let sep = literal_chars("; ");
    let eq = literal_chars("=");
    proof {
        reveal_strlit("; ");
        reveal_strlit("=");
        assert(sep@ =~= semicolon_space());
        assert(eq@ =~= equals_sign());
    }
    let items = split(chars_of(value.as_str()).as_slice(), sep.as_slice());
    proof {
        assert(items@.map_values(|x: Vec<char>| x@) =~= split_seq(value@, semicolon_space()));
    }
    lookup_items(&items, &eq, name, true)
}

/// The cookie that a third-party SDK passes in the query of its events.
pub fn get_cookie_from_query_or_none(path: &str, method: &str, query: &str) -> (r: Option<String>)
    ensures
        opt_view(r) == cookie_in_query(path@, method@, query@),
{
    let p = chars_of(path);
    let m = chars_of(method);
    let expected_path = literal_chars("/_edgee/csevent");
    let post = literal_chars("POST");
    proof {
        reveal_strlit("/_edgee/csevent");
        reveal_strlit("POST");
        assert(expected_path@ =~= third_party_event_path());
        assert(post@ =~= post_method());
    }
    if same_chars(&p, &expected_path) && same_chars(&m, &post) {
        let amp = literal_chars("&");
        let eq = literal_chars("=");
        let e = literal_chars("e");
        proof {
            reveal_strlit("&");
            reveal_strlit("=");
            reveal_strlit("e");
            assert(amp@ =~= seq!['&']);
            assert(eq@ =~= equals_sign());
            assert(e@ =~= seq!['e']);
        }
        let items = split(chars_of(query).as_slice(), amp.as_slice());
        proof {
            assert(items@.map_values(|x: Vec<char>| x@) =~= split_seq(query@, seq!['&']));
        }
        match lookup_items(&items, &eq, &e, false) {
            Some(v) => Some(string_of(&v)),
            None => None,
        }
    } else {
        None
    }
}

/// The proxy's cookie in a request: the value of cookie `cookie_name` in the
/// first `Cookie` header that holds it, else what a third-party SDK passes in
/// the query.
pub fn get_cookie(headers: &Headers, cookie_name: &str, path: &str, method: &str, query: &str) -> (r:
    Option<String>)
    requires
        cookies_are_text(headers@),
    ensures
        opt_view(r) == request_cookie(headers@, cookie_name@, path@, method@, query@),
{
    let name = chars_of(cookie_name);
    let all = headers.all_named("cookie");
    proof {
        reveal_strlit("cookie");
        assert("cookie"@ =~= cookie_header());
    }
    let ghost es = entries_named(headers@, cookie_header());
    proof {
        assert(es.subrange(0, es.len() as int) =~= es);
    }
    let mut i: usize = 0;
    while i < all.len()
        invariant
            i <= all@.len(),
            es == all@.map_values(|e: HeaderEntry| entry_view(e)),
            es == entries_named(headers@, cookie_header()),
            name@ == cookie_name@,
            cookie_in_entries(es, name@) == cookie_in_entries(es.subrange(i as int, es.len() as int), name@),
        decreases all@.len() - i,
    {
        proof {
            let rest = es.subrange(i as int, es.len() as int);
            assert(rest.drop_first() =~= es.subrange(i + 1, es.len() as int));
            assert(rest[0] == entry_view(all@[i as int]));
        }
        match cookie_in_header(&all[i].value, &name) {
            Some(v) => {
                proof {
                    let rest = es.subrange(i as int, es.len() as int);
                    assert(cookie_in_entries(rest, name@) == Some(v@));
                }
                return Some(string_of(&v));
            },
            None => {},
        }
        i = i + 1;
    }
    proof {
        assert(es.subrange(i as int, es.len() as int).len() == 0);
    }
    get_cookie_from_query_or_none(path, method, query)
}

/// Whether a request carries the proxy's cookie.
pub fn has_cookie(headers: &Headers, cookie_name: &str, path: &str, method: &str, query: &str) -> (r:
    bool)
    requires
        cookies_are_text(headers@),
    ensures
        r == request_cookie(headers@, cookie_name@, path@, method@, query@) is Some,
{
    get_cookie(headers, cookie_name, path, method, query).is_some()
}


// ---------------------------------------------------------------------------
// Writing the cookie
// ---------------------------------------------------------------------------

/// The registrable part of the domain name `host` under the public suffix
/// list, `None` when `host` is not a domain name or is a public suffix.
pub uninterp spec fn registrable_domain(host: Seq<char>) -> Option<Seq<char>>;

/// The `Set-Cookie` text that `cookie::Cookie::build((name, value))` writes
/// with the given domain, path `/`, not `HttpOnly`, the given `Secure`,
/// `SameSite=Lax` and an expiry at `expires` seconds after the epoch.
pub uninterp spec fn set_cookie_text(cookie: CookieView, expires: int) -> Seq<char>;

/// Where a browser sends a cookie from other sites' pages.
#[derive(Debug, Clone, Copy, PartialEq, Eq, Structural)]
pub enum SameSite {
    Strict,
    Lax,
    /// sent from every site (`SameSite=None`)
    Unrestricted,
}

/// The attributes of a cookie to set.
pub struct CookieAttributes {
    pub name: String,
    pub value: String,
    pub domain: String,
    pub path: String,
    pub http_only: bool,
    pub secure: bool,
    pub same_site: SameSite,
}

/// The attributes of a cookie, as text and flags.
pub struct CookieView {
    pub name: Seq<char>,
    pub value: Seq<char>,
    pub domain: Seq<char>,
    pub path: Seq<char>,
    pub http_only: bool,
    pub secure: bool,
    pub same_site: SameSite,
}

impl View for CookieAttributes {
    type V = CookieView;

    open spec fn view(&self) -> CookieView {
        CookieView {
            name: self.name@,
            value: self.value@,
            domain: self.domain@,
            path: self.path@,
            http_only: self.http_only,
            secure: self.secure,
            same_site: self.same_site,
        }
    }
}

/// The visitor cookie's attributes: for the whole site (`/`), readable by the
/// page's scripts, sent from the site's own pages and links (`Lax`), and
/// `Secure` when HTTPS is forced.
pub open spec fn visitor_cookie(name: Seq<char>, value: Seq<char>, domain: Seq<char>, secure: bool) -> CookieView {
    CookieView {
        name,
        value,
        domain,
        path: "/"@,
        http_only: false,
        secure,
        same_site: SameSite::Lax,
    }
}

/// The domain the cookie is set for: the registrable part of `host`, or `host`
/// itself when it has none.
pub open spec fn root_domain(host: Seq<char>) -> Seq<char> {
    match registrable_domain(host) {
        Some(d) => d,
        None => host,
    }
}

/// A year, in seconds: how long the cookie lives.
pub open spec fn cookie_lifetime() -> int {
    31_536_000
}

/// Instants that the cookie's expiry date can be written for (years 1 to
/// 9999).
pub open spec fn expiry_in_range(secs: int) -> bool {
    -62_135_596_800 <= secs <= 253_402_300_799
}

/// The registrable domain of `host`, or `host` itself.
pub fn get_root_domain(host: &str) -> (r: String)
    ensures
        r@ == root_domain(host@),
{
    match domain_root(host) {
        Some(d) => d,
        None => host.to_string(),
    }
}

/// The `Set-Cookie` header that stores `value` as cookie `cookie_name` for
/// the root domain of `host`, for a year from `now`; `Secure` when the proxy
/// forces HTTPS.
pub fn set_cookie(value: &str, host: &str, cookie_name: &str, force_https: bool, now: Instant) -> (r:
    String)
    requires
        expiry_in_range(now.secs + cookie_lifetime()),
    ensures
        r@ == set_cookie_text(
            visitor_cookie(cookie_name@, value@, root_domain(host@), force_https),
            now.secs + cookie_lifetime(),
        ),
{
    let domain = get_root_domain(host);
    let expires = now.secs + 31_536_000;
    let attributes = CookieAttributes {
        name: cookie_name.to_string(),
        value: value.to_string(),
        domain,
        path: "/".to_string(),
        http_only: false,
        secure: force_https,
        same_site: SameSite::Lax,
    };
    proof {
        assert(attributes@ == visitor_cookie(cookie_name@, value@, root_domain(host@), force_https));
    }
    cookie_text(&attributes, expires)
}

/// The state of the cookie once read back: its session brought up to date at
/// `now` and what the payload tells of the device recorded.
pub fn refresh(cookie: &mut EdgeeCookie, payload: &Payload, now: Instant)
    requires
        elapsed(old(cookie).ls, now) >= session_nanos() ==> old(cookie).sc < u32::MAX,
    ensures
        final(cookie).id == old(cookie).id && final(cookie).fs == old(cookie).fs,
        final(cookie).ls == now,
        elapsed(old(cookie).ls, now) < session_nanos() ==> final(cookie).ss == old(cookie).ss
            && final(cookie).ps == old(cookie).ps && final(cookie).sc == old(cookie).sc,
        elapsed(old(cookie).ls, now) >= session_nanos() ==> final(cookie).ss == now
            && final(cookie).ps == Some(old(cookie).ss) && final(cookie).sc == old(cookie).sc + 1,
        opt_view(final(cookie).sz) == screen_size_after(opt_view(old(cookie).sz), *payload),
        hints_recorded(*old(cookie), *final(cookie), *payload),
{
    cookie.update_session(now);
    cookie.set_screen_size(payload);
    cookie.set_client_hints(payload);
}

/// The cookie of a visitor first seen at `now`, with what the payload tells of
/// the device.
pub fn fresh(id: String, payload: &Payload, now: Instant) -> (r: EdgeeCookie)
    ensures
        r.id == id && r.fs == now && r.ls == now && r.ss == now,
        r.ps is None && r.sc == 1,
        opt_view(r.sz) == screen_size_after(None, *payload),
        first_hints(r, *payload),
{
    let mut c = EdgeeCookie::new_at(id, now);
    c.set_screen_size(payload);
    c.set_client_hints(payload);
    c
}

/// `addr::parse_domain_name(host)` and `Name::root`: the registrable part of
/// the name, named by `registrable_domain`.
#[verifier::external_body]
fn domain_root(host: &str) -> (r: Option<String>)
    ensures
        opt_view(r) == registrable_domain(host@),
{
    match addr::parse_domain_name(host) {
        Ok(name) => name.root().map(|d| d.to_string()),
        Err(_) => None,
    }
}

/// `cookie::Cookie::build((name, value))` with the domain, path, `HttpOnly`,
/// `Secure`, `SameSite` policy and expiry (`expires` seconds after the epoch)
/// given, written out; the text is named by `set_cookie_text`.
#[verifier::external_body]
fn cookie_text(cookie: &CookieAttributes, expires: i64) -> (r: String)
    requires
        expiry_in_range(expires as int),
    ensures
        r@ == set_cookie_text(cookie.view(), expires as int),
{
    let same_site = match cookie.same_site {
        SameSite::Strict => cookie::SameSite::Strict,
        SameSite::Lax => cookie::SameSite::Lax,
        SameSite::Unrestricted => cookie::SameSite::None,
    };
    let when = cookie::time::OffsetDateTime::from_unix_timestamp(expires).unwrap();
    let c = cookie::Cookie::build((cookie.name.as_str(), cookie.value.as_str()));
    let c = c.domain(cookie.domain.as_str()).path(cookie.path.as_str()).http_only(cookie.http_only);
    c.secure(cookie.secure).same_site(same_site).expires(when).to_string()
}

proof fn lemma_split_absent(s: Seq<char>, sep: Seq<char>)
    requires
        sep.len() > 0,
        !contains_seq(s, sep),
    ensures
        split_seq(s, sep) == seq![s],
{
    lemma_first_occurrence(s, sep);
    if first_occurrence(s, sep) is Some {
        assert(occurs_at(s, sep, first_occurrence(s, sep).unwrap()));
    }
}

proof fn lemma_split_pair(a: Seq<char>, b: Seq<char>)
    requires
        !contains_seq(a, seq!['=']),
        !contains_seq(b, seq!['=']),
    ensures
        split_seq(a + seq!['='] + b, seq!['=']) == seq![a, b],
{
    let s = a + seq!['='] + b;
    let sep = seq!['='];
    assert(occurs_at(s, sep, a.len() as int)) by {
        assert(s.subrange(a.len() as int, a.len() + 1int) =~= sep);
    }
    lemma_first_occurrence(s, sep);
    let f = first_occurrence(s, sep);
    assert(f == Some(a.len() as int)) by {
        if f is None {
        } else {
            let j = f.unwrap();
            if j < a.len() {
                assert(s.subrange(j, j + 1) =~= a.subrange(j, j + 1));
                assert(occurs_at(a, sep, j));
            }
        }
    }
    assert(s.subrange(0, a.len() as int) =~= a);
    assert(s.subrange(a.len() + 1int, s.len() as int) =~= b);
    lemma_split_absent(b, sep);
}

/// A `Cookie` header that holds the single cookie `name=value` gives back its
/// value (trimmed), when the name is trimmed and neither holds `=` or `; `.
pub proof fn lemma_cookie_read_back(name: Seq<char>, value: Seq<char>)
    requires
        trim_seq(name) == name,
        !contains_seq(name, seq!['=']),
        !contains_seq(value, seq!['=']),
        !contains_seq(name + seq!['='] + value, semicolon_space()),
    ensures
        cookie_in_value(name + seq!['='] + value, name) == Some(trim_seq(value)),
{
    let v = name + seq!['='] + value;
    lemma_split_absent(v, semicolon_space());
    lemma_split_pair(name, value);
    let items = split_seq(v, semicolon_space());
    assert(items.last() == v);
    assert(items.drop_last() =~= Seq::<Seq<char>>::empty());
}

} // verus!
