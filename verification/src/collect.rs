//! Data collection: completing a payload with what the page, the request and
//! the visitor cookie tell.
use vstd::prelude::*;
use crate::text::{
    chars_of, split, split_seq, trim, trim_seq, string_of, replace, replace_seq, has_prefix,
    starts_with,
};
use crate::headers::{Headers, header_text, header_or_empty};
use crate::text::slice_chars;
use crate::models::opt_view;
use crate::payload::{Payload, DataCollection, Context, Page, User, Client, Campaign, Session, Instant, Event, EventType, context_copied};
use crate::cookie::EdgeeCookie;
use crate::html::Document;
use crate::numbers::{signed_text, signed_decimal, parse_i32, i64_to_string};

verus! {

// ---------------------------------------------------------------------------
// Names for what outside code computes
// ---------------------------------------------------------------------------

/// `str::to_lowercase`: the Unicode lower case of a text.
pub uninterp spec fn lowercase(s: Seq<char>) -> Seq<char>;

/// `html_escape::decode_html_entities`: a text with its HTML character
/// references decoded.
pub uninterp spec fn html_decoded(s: Seq<char>) -> Seq<char>;

/// `url::Url::parse(s)` followed by `Url::path`: the path of an absolute URL,
/// `None` when `s` does not parse.
pub uninterp spec fn url_path(s: Seq<char>) -> Option<Seq<char>>;

/// `url::form_urlencoded::parse` of the bytes of a query: its decoded
/// name/value pairs, in order.
pub uninterp spec fn form_pairs(query: Seq<char>) -> Seq<(Seq<char>, Seq<char>)>;

/// `str::to_lowercase`.
#[verifier::external_body]
fn to_lowercase(s: &str) -> (r: String)
    ensures
        r@ == lowercase(s@),
{
    s.to_lowercase()
}

/// `html_escape::decode_html_entities`.
#[verifier::external_body]
fn decode_html(s: &str) -> (r: String)
    ensures
        r@ == html_decoded(s@),
{
    html_escape::decode_html_entities(s).to_string()
}

/// `url::Url::parse(s)` and `Url::path`.
#[verifier::external_body]
fn path_of_url(s: &str) -> (r: Option<String>)
    ensures
        opt_view(r) == url_path(s@),
{
    match url::Url::parse(s) {
        Ok(u) => Some(u.path().to_string()),
        Err(_) => None,
    }
}

/// `url::form_urlencoded::parse(query.as_bytes()).into_owned()`.
#[verifier::external_body]
fn query_pairs(query: &str) -> (r: Vec<(String, String)>)
    ensures
        r@.map_values(|p: (String, String)| (p.0@, p.1@)) == form_pairs(query@),
{
    url::form_urlencoded::parse(query.as_bytes()).into_owned().collect()
}

// ---------------------------------------------------------------------------
// Brands of a `Sec-CH-UA` header
// ---------------------------------------------------------------------------

/// Where the run of characters other than `"` that starts at `j` ends: the
/// first `"` from `j` on, or the end of `s`.
pub open spec fn run_end(s: Seq<char>, j: int) -> int
    decreases s.len() - j,
{
    if j < 0 || j >= s.len() || s[j] == '"' {
        j
    } else {
        run_end(s, j + 1)
    }
}

/// The match of `"brand";v="version"` (each part at least one character
/// other than `"`) that starts at `i`, if any: where it ends, the brand and
/// the version.
pub open spec fn brand_match(s: Seq<char>, i: int) -> Option<(int, Seq<char>, Seq<char>)> {
    if 0 <= i < s.len() && s[i] == '"' {
        let e1 = run_end(s, i + 1);
        if e1 > i + 1 && e1 + 5 <= s.len() && s.subrange(e1, e1 + 5) == seq!['"', ';', 'v', '=', '"'] {
            let e2 = run_end(s, e1 + 5);
            if e2 > e1 + 5 && e2 < s.len() {
                Some((e2 + 1, s.subrange(i + 1, e1), s.subrange(e1 + 5, e2)))
            } else {
                None
            }
        } else {
            None
        }
    } else {
        None
    }
}

/// The brand/version pairs that `"([^"]+)";v="([^"]+)"` matches in `s` from
/// `from` on, leftmost first and without overlap.
pub open spec fn brand_pairs(s: Seq<char>, from: int) -> Seq<(Seq<char>, Seq<char>)>
    decreases s.len() - from,
{
    if from < 0 || from >= s.len() {
        seq![]
    } else {
        match brand_match(s, from) {
            Some(m) => if m.0 > from {
                seq![(m.1, m.2)] + brand_pairs(s, m.0)
            } else {
                seq![]
            },
            None => brand_pairs(s, from + 1),
        }
    }
}

/// The brand/version pairs of a `Sec-CH-UA` header.
pub open spec fn ua_brands(header: Seq<char>) -> Seq<(Seq<char>, Seq<char>)> {
    brand_pairs(header, 0)
}

fn run_end_exec(s: &[char], j: usize) -> (r: usize)
    requires
        j <= s@.len(),
    ensures
        r == run_end(s@, j as int),
        j <= r <= s@.len(),
{
    let mut k = j;
    while k < s.len() && s[k] != '"'
        invariant
            j <= k <= s@.len(),
            run_end(s@, j as int) == run_end(s@, k as int),
        decreases s@.len() - k,
    {
        k = k + 1;
    }
    k
}

fn brand_at(s: &[char], i: usize) -> (r: Option<(usize, Vec<char>, Vec<char>)>)
    requires
        i < s@.len(),
    ensures
        match brand_match(s@, i as int) {
            Some(m) => r matches Some(x) && x.0 == m.0 && x.1@ == m.1 && x.2@ == m.2 && i < x.0 <= s@.len(),
            None => r is None,
        },
{
    if s[i] != '"' {
        return None;
    }
    let e1 = run_end_exec(s, i + 1);
    if !(e1 > i + 1 && s.len() >= 5 && e1 <= s.len() - 5) {
        return None;
    }
    if !(s[e1] == '"' && s[e1 + 1] == ';' && s[e1 + 2] == 'v' && s[e1 + 3] == '=' && s[e1 + 4] == '"') {
        proof {
            let w = s@.subrange(e1 as int, e1 + 5);
            assert(w[0] == s@[e1 as int] && w[1] == s@[e1 + 1] && w[2] == s@[e1 + 2]);
            assert(w[3] == s@[e1 + 3] && w[4] == s@[e1 + 4]);
            if w == seq!['"', ';', 'v', '=', '"'] {
                assert(seq!['"', ';', 'v', '=', '"'][1] == ';');
            }
        }
        return None;
    }
    proof {
        assert(s@.subrange(e1 as int, e1 + 5) =~= seq!['"', ';', 'v', '=', '"']);
    }
    let e2 = run_end_exec(s, e1 + 5);
    if !(e2 > e1 + 5 && e2 < s.len()) {
        return None;
    }
    let brand = slice_chars(s, i + 1, e1);
    let version = slice_chars(s, e1 + 5, e2);
    Some((e2 + 1, brand, version))
}

/// The brand/version pairs of a `Sec-CH-UA` header, scanned left to right.
fn brands_of(header: &str) -> (r: Vec<(String, String)>)
    ensures
        r@.map_values(|p: (String, String)| (p.0@, p.1@)) == ua_brands(header@),
{
    let s = chars_of(header);
    let mut out: Vec<(String, String)> = Vec::new();
    let mut i: usize = 0;
    while i < s.len()
        invariant
            i <= s@.len(),
            out@.map_values(|p: (String, String)| (p.0@, p.1@)) + brand_pairs(s@, i as int) == brand_pairs(
                s@,
                0,
            ),
        decreases s@.len() - i,
    {
        let ghost before = out@.map_values(|p: (String, String)| (p.0@, p.1@));
        match brand_at(s.as_slice(), i) {
            Some((e, b, v)) => {
                out.push((string_of(&b), string_of(&v)));
                proof {
                    assert(out@.map_values(|p: (String, String)| (p.0@, p.1@)) =~= before.push((b@, v@)));
                    assert(before.push((b@, v@)) + brand_pairs(s@, e as int) =~= before + (seq![(b@, v@)]
                        + brand_pairs(s@, e as int)));
                }
                i = e;
            },
            None => {
                i = i + 1;
            },
        }
    }
    proof {
        assert(out@.map_values(|p: (String, String)| (p.0@, p.1@)) + Seq::<(Seq<char>, Seq<char>)>::empty()
            =~= out@.map_values(|p: (String, String)| (p.0@, p.1@)));
    }
    out
}

// ---------------------------------------------------------------------------
// Language
// ---------------------------------------------------------------------------

/// The first language of an `Accept-Language` list that is not empty once its
/// parameters and surrounding blanks are dropped.
pub open spec fn first_language(items: Seq<Seq<char>>) -> Option<Seq<char>>
    decreases items.len(),
{
    if items.len() == 0 {
        None
    } else {
        let lang = trim_seq(split_seq(items[0], seq![';'])[0]);
        if lang.len() > 0 {
            Some(lang)
        } else {
            first_language(items.drop_first())
        }
    }
}

pub open spec fn default_language() -> Seq<char> {
    seq!['e', 'n', '-', 'u', 's']
}

/// The visitor's preferred language: the first one of `accept`, in lower
/// case, or `en-us`.
pub open spec fn language_of(accept: Seq<char>) -> Seq<char> {
    match first_language(split_seq(accept, seq![','])) {
        Some(l) => lowercase(l),
        None => default_language(),
    }
}

pub open spec fn accept_language() -> Seq<char> {
    seq!['a', 'c', 'c', 'e', 'p', 't', '-', 'l', 'a', 'n', 'g', 'u', 'a', 'g', 'e']
}

pub proof fn lemma_split_nonempty(s: Seq<char>, sep: Seq<char>)
    requires
        sep.len() > 0,
    ensures
        split_seq(s, sep).len() > 0,
    decreases s.len(),
{
    reveal_with_fuel(split_seq, 1);
}

fn literal(s: &str) -> (r: Vec<char>)
    ensures
        r@ == s@,
{
    chars_of(s)
}

/// The preferred language of an `Accept-Language` value.
pub fn preferred_language(accept: &str) -> (r: String)
    ensures
        r@ == language_of(accept@),
{
    let comma = literal(",");
    let semi = literal(";");
    proof {
        reveal_strlit(",");
        reveal_strlit(";");
        assert(comma@ =~= seq![',']);
        assert(semi@ =~= seq![';']);
    }
    let items = split(chars_of(accept).as_slice(), comma.as_slice());
    let ghost all = split_seq(accept@, seq![',']);
    let mut i: usize = 0;
    proof {
        assert(all.subrange(0, all.len() as int) =~= all);
    }
    while i < items.len()
        invariant
            i <= items@.len(),
            items@.len() == all.len(),
            all == split_seq(accept@, seq![',']),
            semi@ == seq![';'],
            forall|k: int| 0 <= k < items@.len() ==> #[trigger] items@[k]@ == all[k],
            first_language(all) == first_language(all.subrange(i as int, all.len() as int)),
        decreases items@.len() - i,
    {
        let parts = split(items[i].as_slice(), semi.as_slice());
        proof {
            lemma_split_nonempty(all[i as int], seq![';']);
            let rest = all.subrange(i as int, all.len() as int);
            assert(rest.drop_first() =~= all.subrange(i + 1, all.len() as int));
            assert(rest[0] == all[i as int]);
        }
        let lang = trim(parts[0].as_slice());
        if lang.len() > 0 {
            let l = string_of(&lang);
            return to_lowercase(l.as_str());
        }
        i = i + 1;
    }
    let r = literal("en-us");
    proof {
        reveal_strlit("en-us");
        assert(r@ =~= default_language());
    }
    string_of(&r)
}

/// The preferred language of a request, from its `Accept-Language` header.
pub fn get_preferred_language(headers: &Headers) -> (r: String)
    ensures
        r@ == language_of(header_or_empty(headers@, accept_language())),
{
    proof {
        reveal_strlit("accept-language");
        assert("accept-language"@ =~= accept_language());
    }
    let accept = headers.text_or_empty("accept-language");
    preferred_language(accept.as_str())
}

// ---------------------------------------------------------------------------
// Client hints
// ---------------------------------------------------------------------------

/// The parts of `parts` separated by `sep`.
pub open spec fn join(parts: Seq<Seq<char>>, sep: Seq<char>) -> Seq<char>
    decreases parts.len(),
{
    if parts.len() == 0 {
        seq![]
    } else if parts.len() == 1 {
        parts[0]
    } else {
        join(parts.drop_last(), sep) + sep + parts.last()
    }
}

/// A version with at least four dot-separated parts: missing ones are `0`.
pub open spec fn padded_version(v: Seq<char>) -> Seq<char> {
    let parts = split_seq(v, seq!['.']);
    let padded = if parts.len() < 4 {
        parts + Seq::new((4 - parts.len()) as nat, |i: int| seq!['0'])
    } else {
        parts
    };
    join(padded, seq!['.'])
}

/// `brand;version`, with the version padded to four parts.
pub open spec fn brand_text(b: (Seq<char>, Seq<char>)) -> Seq<char> {
    b.0 + seq![';'] + padded_version(b.1)
}

/// The brands of a `Sec-CH-UA` header as `brand;version` items separated by
/// `|`.
pub open spec fn full_version_list(header: Seq<char>) -> Seq<char> {
    join(ua_brands(header).map_values(|b: (Seq<char>, Seq<char>)| brand_text(b)), seq!['|'])
}

fn append(v: &mut Vec<char>, w: &Vec<char>)
    ensures
        final(v)@ == old(v)@ + w@,
{
    let mut i: usize = 0;
    while i < w.len()
        invariant
            i <= w@.len(),
            v@ == old(v)@ + w@.subrange(0, i as int),
        decreases w@.len() - i,
    {
        v.push(w[i]);
        i = i + 1;
        proof {
            assert(v@ =~= old(v)@ + w@.subrange(0, i as int));
        }
    }
    proof {
        assert(w@.subrange(0, w@.len() as int) =~= w@);
    }
}

/// Joins character vectors with a separator.
fn join_exec(parts: &Vec<Vec<char>>, sep: &Vec<char>) -> (r: Vec<char>)
    ensures
        r@ == join(parts@.map_values(|p: Vec<char>| p@), sep@),
{
    let ghost all = parts@.map_values(|p: Vec<char>| p@);
    let mut out: Vec<char> = Vec::new();
    let mut i: usize = 0;
    while i < parts.len()
        invariant
            i <= parts@.len(),
            all == parts@.map_values(|p: Vec<char>| p@),
            out@ == join(all.subrange(0, i as int), sep@),
        decreases parts@.len() - i,
    {
        proof {
            let p = all.subrange(0, i + 1);
            assert(p.drop_last() =~= all.subrange(0, i as int));
            assert(p.last() == parts@[i as int]@);
        }
        if i > 0 {
            append(&mut out, sep);
        }
        append(&mut out, &parts[i]);
        i = i + 1;
        proof {
            if i == 1 {
                assert(all.subrange(0, 1).len() == 1);
            }
        }
    }
    proof {
        assert(all.subrange(0, parts@.len() as int) =~= all);
    }
    out
}

fn pad_version(version: &String) -> (r: Vec<char>)
    ensures
        r@ == padded_version(version@),
{
    let dot = literal(".");
    proof {
        reveal_strlit(".");
        assert(dot@ =~= seq!['.']);
    }
    let mut parts = split(chars_of(version.as_str()).as_slice(), dot.as_slice());
    let ghost orig = split_seq(version@, seq!['.']);
    proof {
        assert(parts@.map_values(|p: Vec<char>| p@) =~= orig);
    }
    while parts.len() < 4
        invariant
            parts@.len() <= 4 || parts@.len() == orig.len(),
            orig.len() <= parts@.len(),
            parts@.map_values(|p: Vec<char>| p@) == orig + Seq::new(
                (parts@.len() - orig.len()) as nat,
                |i: int| seq!['0'],
            ),
        decreases 4 - parts@.len(),
    {
        let ghost before = parts@.map_values(|p: Vec<char>| p@);
        let z: Vec<char> = vec!['0'];
        let ghost pv = parts@;
        parts.push(z);
        proof {
            assert(z@ =~= seq!['0']);
            assert(parts@ =~= pv.push(z));
            assert(parts@.map_values(|p: Vec<char>| p@) =~= before.push(seq!['0']));
            assert(parts@.map_values(|p: Vec<char>| p@) =~= orig + Seq::new(
                (parts@.len() - orig.len()) as nat,
                |i: int| seq!['0'],
            ));
        }
    }
    proof {
        if orig.len() >= 4 {
            assert(parts@.map_values(|p: Vec<char>| p@) =~= orig);
        }
    }
    join_exec(&parts, &dot)
}

/// The `Sec-CH-UA` header as the full version list of the payload: each brand
/// as `brand;version` with the version padded to four parts, separated by
/// `|`.
pub fn process_sec_ch_ua(header: &str) -> (r: String)
    ensures
        r@ == full_version_list(header@),
{
    let brands = brands_of(header);
    let ghost bs = ua_brands(header@);
    let mut items: Vec<Vec<char>> = Vec::new();
    let semi = literal(";");
    proof {
        reveal_strlit(";");
        assert(semi@ =~= seq![';']);
    }
    let mut i: usize = 0;
    while i < brands.len()
        invariant
            i <= brands@.len(),
            bs == brands@.map_values(|p: (String, String)| (p.0@, p.1@)),
            semi@ == seq![';'],
            items@.len() == i,
            forall|k: int| 0 <= k < i ==> #[trigger] items@[k]@ == brand_text(bs[k]),
        decreases brands@.len() - i,
    {
        let mut item = chars_of(brands[i].0.as_str());
        append(&mut item, &semi);
        let v = pad_version(&brands[i].1);
        append(&mut item, &v);
        items.push(item);
        i = i + 1;
    }
    let bar = literal("|");
    proof {
        reveal_strlit("|");
        assert(bar@ =~= seq!['|']);
        assert(items@.map_values(|p: Vec<char>| p@) =~= bs.map_values(
            |b: (Seq<char>, Seq<char>)| brand_text(b),
        ));
    }
    let out = join_exec(&items, &bar);
    string_of(&out)
}


// ---------------------------------------------------------------------------
// The shape of a payload
// ---------------------------------------------------------------------------

/// A payload whose data collection, context, page, user and client are there.
pub open spec fn prepared(p: Payload) -> bool {
    &&& p.data_collection matches Some(dc)
    &&& dc.context matches Some(c)
    &&& c.page is Some
    &&& c.user is Some
    &&& c.client is Some
}

/// A payload whose data collection, context and page are there.
pub open spec fn has_page(p: Payload) -> bool {
    &&& p.data_collection matches Some(dc)
    &&& dc.context matches Some(c)
    &&& c.page is Some
}

/// The client of a context, or an empty one where there is none.
pub open spec fn client_or_default(c: Option<Client>) -> Client {
    match c {
        Some(x) => x,
        None => Client {
            ip: None,
            x_forwarded_for: None,
            locale: None,
            timezone: None,
            user_agent: None,
            user_agent_architecture: None,
            user_agent_bitness: None,
            user_agent_full_version_list: None,
            user_agent_mobile: None,
            user_agent_model: None,
            os_name: None,
            os_version: None,
            screen_width: None,
            screen_height: None,
            screen_density: None,
            continent: None,
            country_code: None,
            country_name: None,
            region: None,
            city: None,
        },
    }
}

pub open spec fn collection_of(p: Payload) -> DataCollection {
    p.data_collection.unwrap()
}

pub open spec fn context_of(p: Payload) -> Context {
    collection_of(p).context.unwrap()
}

pub open spec fn page_of(p: Payload) -> Page {
    context_of(p).page.unwrap()
}

pub open spec fn user_of(p: Payload) -> User {
    context_of(p).user.unwrap()
}

pub open spec fn client_of(p: Payload) -> Client {
    context_of(p).client.unwrap()
}

pub open spec fn empty_page(p: Page) -> bool {
    p.name is None && p.category is None && p.keywords is None && p.title is None && p.url is None
        && p.path is None && p.search is None && p.referrer is None && p.properties is None
}

pub open spec fn empty_user(u: User) -> bool {
    u.user_id is None && u.anonymous_id is None && u.edgee_id@.len() == 0 && u.properties is None
}

pub open spec fn empty_client(c: Client) -> bool {
    c.ip is None && c.x_forwarded_for is None && c.locale is None && c.timezone is None
        && c.user_agent is None && c.user_agent_architecture is None && c.user_agent_bitness is None
        && c.user_agent_full_version_list is None && c.user_agent_mobile is None
        && c.user_agent_model is None && c.os_name is None && c.os_version is None
        && c.screen_width is None && c.screen_height is None && c.screen_density is None
        && c.continent is None && c.country_code is None && c.country_name is None
        && c.region is None && c.city is None
}

/// The context a payload had, if any.
pub open spec fn old_context(p: Payload) -> Option<Context> {
    match p.data_collection {
        Some(dc) => dc.context,
        None => None,
    }
}

/// `r` is `p` with its data collection, context, page, user and client
/// created where they were missing, and nothing else changed.
pub open spec fn prepared_from(r: Payload, p: Payload) -> bool {
    &&& prepared(r)
    &&& match p.data_collection {
        Some(dc) => collection_of(r).events == dc.events && collection_of(r).components
            == dc.components,
        None => collection_of(r).events is None && collection_of(r).components is None,
    }
    &&& match old_context(p) {
        Some(c) => {
            &&& (c.page matches Some(x) ==> page_of(r) == x)
            &&& (c.page is None ==> empty_page(page_of(r)))
            &&& (c.user matches Some(x) ==> user_of(r) == x)
            &&& (c.user is None ==> empty_user(user_of(r)))
            &&& (c.client matches Some(x) ==> client_of(r) == x)
            &&& (c.client is None ==> empty_client(client_of(r)))
            &&& context_of(r).campaign == c.campaign
            &&& context_of(r).session == c.session
        },
        None => {
            &&& empty_page(page_of(r))
            &&& empty_user(user_of(r))
            &&& empty_client(client_of(r))
            &&& context_of(r).campaign is None
            &&& context_of(r).session is None
        },
    }
}

/// Creates the parts of a payload that data collection fills in: its data
/// collection, context, client, page and user.
pub fn prepare_data_collection_payload(payload: Payload) -> (r: Payload)
    ensures
        prepared_from(r, payload),
{
    let Payload { data_collection } = payload;
    let dc = match data_collection {
        Some(dc) => dc,
        None => DataCollection::default(),
    };
    let DataCollection { events, context, components } = dc;
    let ctx = match context {
        Some(c) => c,
        None => Context::default(),
    };
    let Context { page, user, client, campaign, session } = ctx;
    let client = match client {
        Some(c) => c,
        None => Client::default(),
    };
    let page = match page {
        Some(p) => p,
        None => Page::default(),
    };
    let user = match user {
        Some(u) => u,
        None => User::default(),
    };
    Payload {
        data_collection: Some(
            DataCollection {
                events,
                context: Some(
                    Context {
                        page: Some(page),
                        user: Some(user),
                        client: Some(client),
                        campaign,
                        session,
                    },
                ),
                components,
            },
        ),
    }
}

// ---------------------------------------------------------------------------
// Session
// ---------------------------------------------------------------------------

/// The value of a decimal text when it fits an `i32`.
pub open spec fn i32_text(s: Seq<char>) -> Option<int> {
    match signed_text(s) {
        Some(v) => if i32::MIN <= v <= i32::MAX {
            Some(v)
        } else {
            None
        },
        None => None,
    }
}

/// The screen size `WxHxD` that the cookie records, when it has three parts
/// that are all `i32`.
pub open spec fn screen_of(sz: Option<Seq<char>>) -> Option<(int, int, int)> {
    match sz {
        Some(s) => {
            let parts = split_seq(s, seq!['x']);
            if parts.len() == 3 && i32_text(parts[0]) is Some && i32_text(parts[1]) is Some
                && i32_text(parts[2]) is Some {
                Some(
                    (
                        i32_text(parts[0]).unwrap(),
                        i32_text(parts[1]).unwrap(),
                        i32_text(parts[2]).unwrap(),
                    ),
                )
            } else {
                None
            }
        },
        None => None,
    }
}

/// The session that the cookie describes.
pub open spec fn session_matches(s: Session, c: EdgeeCookie) -> bool {
    &&& s.session_id@ == signed_decimal(c.ss.secs as int)
    &&& opt_view(s.previous_session_id) == match c.ps {
        Some(p) => Some(signed_decimal(p.secs as int)),
        None => None,
    }
    &&& s.session_count == c.sc
    &&& s.session_start == (c.ss == c.ls)
    &&& s.first_seen == c.fs
    &&& s.last_seen == c.ls
}

pub open spec fn session_added(r: Payload, payload: Payload, cookie: EdgeeCookie) -> bool {
    &&& prepared(r)
    &&& (collection_of(r).events == collection_of(payload).events)
    &&& (collection_of(r).components == collection_of(payload).components)
    &&& (page_of(r) == page_of(payload))
    &&& (context_of(r).campaign == context_of(payload).campaign)
    &&& (user_of(r).edgee_id@ == cookie.id@)
    &&& (user_of(r).user_id == user_of(payload).user_id)
    &&& (user_of(r).anonymous_id == user_of(payload).anonymous_id)
    &&& (user_of(r).properties == user_of(payload).properties)
    &&& (context_of(r).session matches Some(s) && session_matches(s, cookie))
    &&& (match screen_of(opt_view(cookie.sz)) {
        Some((w, h, d)) => client_of(r).screen_width == Some(w as i32) && client_of(
            r,
        ).screen_height == Some(h as i32) && client_of(r).screen_density == Some(d as i32),
        None => client_of(r).screen_width == client_of(payload).screen_width && client_of(
            r,
        ).screen_height == client_of(payload).screen_height && client_of(r).screen_density
            == client_of(payload).screen_density,
    })
    &&& (same_client_but_screen(client_of(r), client_of(payload)))
}

/// Records the visitor's id and session from the cookie in the payload, and
/// the screen size the cookie remembers.
pub fn add_session(payload: Payload, cookie: &EdgeeCookie) -> (r: Payload)
    requires
        prepared(payload),
    ensures
        prepared(r),
        session_added(r, payload, *cookie),
{
    let Payload { data_collection } = payload;
    let DataCollection { events, context, components } = data_collection.unwrap();
    let Context { page, user, client, campaign, session: _ } = context.unwrap();
    let mut user = user.unwrap();
    let mut client = client.unwrap();
    user.edgee_id = cookie.id.clone();
    let previous = match cookie.ps {
        Some(p) => Some(i64_to_string(p.secs)),
        None => None,
    };
    let session = Session {
        session_id: i64_to_string(cookie.ss.secs),
        previous_session_id: previous,
        session_count: cookie.sc,
        session_start: cookie.ss == cookie.ls,
        first_seen: cookie.fs,
        last_seen: cookie.ls,
    };
    match &cookie.sz {
        Some(sz) => {
            match screen_size(sz) {
                Some((w, h, d)) => {
                    client.screen_width = Some(w);
                    client.screen_height = Some(h);
                    client.screen_density = Some(d);
                },
                None => {},
            }
        },
        None => {},
    }
    Payload {
        data_collection: Some(
            DataCollection {
                events,
                context: Some(
                    Context {
                        page,
                        user: Some(user),
                        client: Some(client),
                        campaign,
                        session: Some(session),
                    },
                ),
                components,
            },
        ),
    }
}

/// Two clients that agree on everything but the screen.
pub open spec fn same_client_but_screen(a: Client, b: Client) -> bool {
    a.ip == b.ip && a.x_forwarded_for == b.x_forwarded_for && a.locale == b.locale && a.timezone
        == b.timezone && a.user_agent == b.user_agent && a.user_agent_architecture
        == b.user_agent_architecture && a.user_agent_bitness == b.user_agent_bitness
        && a.user_agent_full_version_list == b.user_agent_full_version_list && a.user_agent_mobile
        == b.user_agent_mobile && a.user_agent_model == b.user_agent_model && a.os_name == b.os_name
        && a.os_version == b.os_version && a.continent == b.continent && a.country_code
        == b.country_code && a.country_name == b.country_name && a.region == b.region && a.city
        == b.city
}

fn screen_size(sz: &String) -> (r: Option<(i32, i32, i32)>)
    ensures
        match screen_of(Some(sz@)) {
            Some((w, h, d)) => r == Some((w as i32, h as i32, d as i32)),
            None => r is None,
        },
{
    let x = literal("x");
    proof {
        reveal_strlit("x");
        assert(x@ =~= seq!['x']);
    }
    let parts = split(chars_of(sz.as_str()).as_slice(), x.as_slice());
    if parts.len() != 3 {
        return None;
    }
    let w = parse_i32(parts[0].as_slice());
    let h = parse_i32(parts[1].as_slice());
    let d = parse_i32(parts[2].as_slice());
    match (w, h, d) {
        (Some(w), Some(h), Some(d)) => Some((w, h, d)),
        _ => None,
    }
}


// ---------------------------------------------------------------------------
// What the page tells
// ---------------------------------------------------------------------------

pub open spec fn scheme_separator() -> Seq<char> {
    seq![':', '/', '/']
}

pub open spec fn http_prefix() -> Seq<char> {
    seq!['h', 't', 't', 'p']
}

/// The canonical URL of the page, made absolute with the request's protocol
/// and host when it is relative.
pub open spec fn canonical_url(canonical: Seq<char>, proto: Seq<char>, host: Seq<char>) -> Seq<char> {
    if canonical.len() > 0 && !starts_with(canonical, http_prefix()) {
        proto + scheme_separator() + host + canonical
    } else {
        canonical
    }
}

/// The path of the canonical URL, or nothing.
pub open spec fn canonical_path(url: Seq<char>) -> Seq<char> {
    if url.len() > 0 {
        match url_path(url) {
            Some(p) => p,
            None => seq![],
        }
    } else {
        seq![]
    }
}

/// The path and query of the request, as `PathAndQuery` writes it.
pub open spec fn path_and_query(path: Seq<char>, query: Option<Seq<char>>) -> Seq<char> {
    match query {
        Some(q) => path + seq!['?'] + q,
        None => path,
    }
}

/// The page URL: the data layer's (decoded), else the canonical URL, else the
/// request's.
pub open spec fn url_after(
    old: Option<Seq<char>>,
    canonical: Seq<char>,
    proto: Seq<char>,
    host: Seq<char>,
    incoming: Seq<char>,
) -> Seq<char> {
    match old {
        Some(u) => html_decoded(u),
        None => if canonical.len() > 0 {
            canonical
        } else {
            proto + scheme_separator() + host + incoming
        },
    }
}

/// The page path: the data layer's (decoded), else the canonical path, else
/// the request's.
pub open spec fn path_after(old: Option<Seq<char>>, canonical: Seq<char>, path: Seq<char>) -> Seq<
    char,
> {
    match old {
        Some(p) => html_decoded(p),
        None => if canonical.len() > 0 {
            canonical
        } else {
            path
        },
    }
}

/// The page search: the data layer's with a leading `?` (decoded), else the
/// request's query after `?`; nothing when that is empty or a lone `?`.
pub open spec fn search_after(old: Option<Seq<char>>, query: Option<Seq<char>>) -> Option<Seq<char>> {
    let s = match old {
        Some(x) => html_decoded(
            if starts_with(x, seq!['?']) {
                x
            } else {
                seq!['?'] + x
            },
        ),
        None => match query {
            Some(q) => seq!['?'] + q,
            None => seq![],
        },
    };
    if s == seq!['?'] || s.len() == 0 {
        None
    } else {
        Some(s)
    }
}

/// The page title: the data layer's (decoded), else the document's.
pub open spec fn title_after(old: Option<Seq<char>>, doc_title: Seq<char>) -> Seq<char> {
    match old {
        Some(t) => html_decoded(t),
        None => doc_title,
    }
}

/// The keywords of a list of strings.
pub open spec fn words(k: Seq<String>) -> Seq<Seq<char>> {
    k.map_values(|s: String| s@)
}

/// The page keywords: the data layer's, else the document's comma-separated
/// keywords, trimmed.
pub open spec fn keywords_after(old: Option<Vec<String>>, doc_keywords: Seq<char>) -> Seq<Seq<char>> {
    match old {
        Some(k) => words(k@),
        None => if doc_keywords.len() > 0 {
            split_seq(doc_keywords, seq![',']).map_values(|w: Seq<char>| trim_seq(w))
        } else {
            seq![]
        },
    }
}

/// The view of an optional string slice.
pub open spec fn opt_str(q: Option<&str>) -> Option<Seq<char>> {
    match q {
        Some(x) => Some(x@),
        None => None,
    }
}

fn decoded_opt(s: &Option<String>) -> (r: Option<String>)
    ensures
        opt_view(r) == match *s {
            Some(x) => Some(html_decoded(x@)),
            None => None,
        },
{
    match s {
        Some(x) => Some(decode_html(x.as_str())),
        None => None,
    }
}

fn concat(a: &str, b: &str) -> (r: String)
    ensures
        r@ == a@ + b@,
{
    let mut v = chars_of(a);
    let w = chars_of(b);
    append(&mut v, &w);
    string_of(&v)
}

pub open spec fn page_info_added(r: Payload, payload: Payload, document: Document, proto: Seq<char>, host: Seq<char>, path: Seq<char>, query: Option<Seq<char>>) -> bool {
    &&& has_page(r)
    &&& (collection_of(r).events == collection_of(payload).events)
    &&& (collection_of(r).components == collection_of(payload).components)
    &&& (context_of(r).user == context_of(payload).user)
    &&& (context_of(r).client == context_of(payload).client)
    &&& (context_of(r).campaign == context_of(payload).campaign)
    &&& (context_of(r).session == context_of(payload).session)
    &&& (({
        let old = page_of(payload);
        let new = page_of(r);
        let cu = canonical_url(document.canonical@, proto, host);
        let q = query;
        &&& opt_view(new.url) == Some(
            url_after(opt_view(old.url), cu, proto, host, path_and_query(path, q)),
        )
        &&& opt_view(new.path) == Some(path_after(opt_view(old.path), canonical_path(cu), path))
        &&& opt_view(new.search) == search_after(opt_view(old.search), q)
        &&& opt_view(new.title) == Some(title_after(opt_view(old.title), document.title@))
        &&& new.keywords matches Some(k) && words(k@) == keywords_after(
            old.keywords,
            document.keywords@,
        )
        &&& new.name == old.name && new.category == old.category
        &&& new.referrer == old.referrer && new.properties == old.properties
    }))
}

/// Completes the page of the payload with what the document and the request
/// tell: URL, path, search, title and keywords, each taken from the data
/// layer where it gives them.
pub fn add_more_info_from_html_or_request(
    document: &Document,
    payload: Payload,
    proto: &str,
    host: &str,
    path: &str,
    query: Option<&str>,
) -> (r: Payload)
    requires
        has_page(payload),
    ensures
        has_page(r),
        prepared(payload) ==> prepared(r),
        page_info_added(r, payload, *document, proto@, host@, path@, opt_str(query)),
{
    let ghost q = match query {
        Some(q) => Some(q@),
        None => None,
    };
    let Payload { data_collection } = payload;
    let DataCollection { events, context, components } = data_collection.unwrap();
    let Context { page, user, client, campaign, session } = context.unwrap();
    let mut page = page.unwrap();
    proof {
        reveal_strlit("http");
        reveal_strlit("://");
        reveal_strlit("?");
        reveal_strlit(",");
        assert("http"@ =~= http_prefix());
        assert("://"@ =~= scheme_separator());
        assert("?"@ =~= seq!['?']);
        assert(","@ =~= seq![',']);
    }
    // canonical url, absolute
    let canonical_chars = chars_of(document.canonical.as_str());
    let http = literal("http");
    let canonical = if canonical_chars.len() > 0 && !has_prefix(
        canonical_chars.as_slice(),
        http.as_slice(),
    ) {
        let a = concat(proto, "://");
        let b = concat(a.as_str(), host);
        concat(b.as_str(), document.canonical.as_str())
    } else {
        document.canonical.clone()
    };
    // canonical path
    let canonical_p = if !canonical.as_str().is_empty() {
        match path_of_url(canonical.as_str()) {
            Some(p) => p,
            None => String::new(),
        }
    } else {
        String::new()
    };
    // url
    let url = match decoded_opt(&page.url) {
        Some(u) => u,
        None => if !canonical.as_str().is_empty() {
            canonical.clone()
        } else {
            let a = concat(proto, "://");
            let b = concat(a.as_str(), host);
            let c = concat(b.as_str(), path);
            match query {
                Some(qs) => {
                    let d = concat(c.as_str(), "?");
                    concat(d.as_str(), qs)
                },
                None => c,
            }
        },
    };
    proof {
        assert(url@ == url_after(
            opt_view(page.url),
            canonical@,
            proto@,
            host@,
            path_and_query(path@, q),
        )) by {
            if page.url is None && canonical@.len() == 0 {
                assert(proto@ + scheme_separator() + host@ + path_and_query(path@, q) =~= match q {
                    Some(x) => proto@ + scheme_separator() + host@ + path@ + seq!['?'] + x,
                    None => proto@ + scheme_separator() + host@ + path@,
                });
            }
        }
    }
    page.url = Some(url);
    // path
    let p = match decoded_opt(&page.path) {
        Some(p) => p,
        None => if !canonical_p.as_str().is_empty() {
            canonical_p
        } else {
            path.to_string()
        },
    };
    page.path = Some(p);
    // search
    let search = match &page.search {
        Some(x) => {
            let xs = chars_of(x.as_str());
            let qm = literal("?");
            if has_prefix(xs.as_slice(), qm.as_slice()) {
                decode_html(x.as_str())
            } else {
                let y = concat("?", x.as_str());
                decode_html(y.as_str())
            }
        },
        None => match query {
            Some(qs) => concat("?", qs),
            None => String::new(),
        },
    };
    let sv = chars_of(search.as_str());
    if sv.len() == 0 || (sv.len() == 1 && sv[0] == '?') {
        proof {
            if sv@.len() == 1 {
                assert(sv@ =~= seq!['?']);
            }
        }
        page.search = None;
    } else {
        proof {
            if sv@.len() == 1 {
                assert(sv@ != seq!['?']);
            }
        }
        page.search = Some(search);
    }
    // title
    let title = match decoded_opt(&page.title) {
        Some(t) => t,
        None => document.title.clone(),
    };
    page.title = Some(title);
    // keywords
    let keywords: Vec<String> = match page.keywords {
        Some(k) => k,
        None => {
            if !document.keywords.as_str().is_empty() {
                proof {
                    assert(document.keywords@.len() > 0);
                }
                let comma = literal(",");
                let parts = split(chars_of(document.keywords.as_str()).as_slice(), comma.as_slice());
                let ghost ps = split_seq(document.keywords@, seq![',']);
                let mut out: Vec<String> = Vec::new();
                let mut i: usize = 0;
                while i < parts.len()
                    invariant
                        i <= parts@.len(),
                        parts@.len() == ps.len(),
                        forall|k: int| 0 <= k < parts@.len() ==> #[trigger] parts@[k]@ == ps[k],
                        out@.len() == i,
                        forall|k: int| 0 <= k < i ==> #[trigger] out@[k]@ == trim_seq(ps[k]),
                    decreases parts@.len() - i,
                {
                    let t = trim(parts[i].as_slice());
                    out.push(string_of(&t));
                    i = i + 1;
                }
                proof {
                    assert(words(out@) =~= ps.map_values(|w: Seq<char>| trim_seq(w)));
                }
                out
            } else {
                proof {
                    assert(document.keywords@.len() == 0);
                }
                let out: Vec<String> = Vec::new();
                proof {
                    assert(words(out@) =~= Seq::<Seq<char>>::empty());
                }
                out
            }
        },
    };
    page.keywords = Some(keywords);
    Payload {
        data_collection: Some(
            DataCollection {
                events,
                context: Some(Context { page: Some(page), user, client, campaign, session }),
                components,
            },
        ),
    }
}


// ---------------------------------------------------------------------------
// What the request tells
// ---------------------------------------------------------------------------

/// A client hint: the header's text with every `c` removed.
pub open spec fn hint(h: Seq<(Seq<char>, Seq<char>, bool)>, name: Seq<char>, c: char) -> Option<
    Seq<char>,
> {
    match header_text(h, name) {
        Some(v) => Some(replace_seq(v, seq![c], seq![])),
        None => None,
    }
}

/// A field that a hint replaces when the request gives it.
pub open spec fn hinted(old: Option<String>, hint: Option<Seq<char>>) -> Option<Seq<char>> {
    match hint {
        Some(v) => Some(v),
        None => opt_view(old),
    }
}

/// The referrer: the data layer's, else the request's `Referer`; nothing when
/// that is empty.
pub open spec fn referrer_after(old: Option<Seq<char>>, h: Seq<(Seq<char>, Seq<char>, bool)>) -> Option<
    Seq<char>,
> {
    let r = match old {
        Some(x) => x,
        None => header_or_empty(h, seq!['r', 'e', 'f', 'e', 'r', 'e', 'r']),
    };
    if r.len() == 0 {
        None
    } else {
        Some(r)
    }
}

/// The value of the last pair named `key`.
pub open spec fn last_pair(pairs: Seq<(Seq<char>, Seq<char>)>, key: Seq<char>) -> Option<Seq<char>>
    decreases pairs.len(),
{
    if pairs.len() == 0 {
        None
    } else if pairs.last().0 == key {
        Some(pairs.last().1)
    } else {
        last_pair(pairs.drop_last(), key)
    }
}

/// The query parameters that describe a campaign, in the order of the fields
/// of `Campaign`.
pub open spec fn utm_keys() -> Seq<Seq<char>> {
    seq![
        seq!['u', 't', 'm', '_', 'c', 'a', 'm', 'p', 'a', 'i', 'g', 'n'],
        seq!['u', 't', 'm', '_', 's', 'o', 'u', 'r', 'c', 'e'],
        seq!['u', 't', 'm', '_', 'm', 'e', 'd', 'i', 'u', 'm'],
        seq!['u', 't', 'm', '_', 't', 'e', 'r', 'm'],
        seq!['u', 't', 'm', '_', 'c', 'o', 'n', 't', 'e', 'n', 't'],
        seq!['u', 't', 'm', '_', 'c', 'r', 'e', 'a', 't', 'i', 'v', 'e', '_', 'f', 'o', 'r', 'm', 'a', 't'],
        seq!['u', 't', 'm', '_', 'm', 'a', 'r', 'k', 'e', 't', 'i', 'n', 'g', '_', 't', 'a', 'c', 't', 'i', 'c'],
    ]
}

/// The fields of a campaign, in order.
pub open spec fn campaign_fields(c: Campaign) -> Seq<Option<Seq<char>>> {
    seq![
        opt_view(c.name),
        opt_view(c.source),
        opt_view(c.medium),
        opt_view(c.term),
        opt_view(c.content),
        opt_view(c.creative_format),
        opt_view(c.marketing_tactic),
    ]
}

/// The campaign after the query: created when the query names one of the
/// campaign parameters, and each field the query gives replaced.
pub open spec fn campaign_after(old: Option<Campaign>, pairs: Seq<(Seq<char>, Seq<char>)>) -> Option<
    Seq<Option<Seq<char>>>,
> {
    let given = Seq::new(7, |i: int| last_pair(pairs, utm_keys()[i]));
    match old {
        Some(c) => Some(
            Seq::new(
                7,
                |i: int|
                    match given[i] {
                        Some(v) => Some(v),
                        None => campaign_fields(c)[i],
                    },
            ),
        ),
        None => if exists|i: int| 0 <= i < 7 && #[trigger] given[i] is Some {
            Some(given)
        } else {
            None
        },
    }
}

pub open spec fn user_agent_header() -> Seq<char> {
    seq!['u', 's', 'e', 'r', '-', 'a', 'g', 'e', 'n', 't']
}

pub open spec fn sec_ch_ua() -> Seq<char> {
    seq!['s', 'e', 'c', '-', 'c', 'h', '-', 'u', 'a']
}

/// `sec-ch-ua-` followed by `suffix`.
pub open spec fn sec_ch_ua_of(suffix: Seq<char>) -> Seq<char> {
    sec_ch_ua() + seq!['-'] + suffix
}

/// What the request tells of the client.
pub open spec fn client_after(
    old: Client,
    h: Seq<(Seq<char>, Seq<char>, bool)>,
    client_ip: Seq<char>,
    new: Client,
) -> bool {
    &&& opt_view(new.user_agent) == Some(header_or_empty(h, user_agent_header()))
    &&& opt_view(new.ip) == Some(client_ip)
    &&& opt_view(new.locale) == Some(language_of(header_or_empty(h, accept_language())))
    &&& opt_view(new.user_agent_architecture) == hinted(
        old.user_agent_architecture,
        hint(h, sec_ch_ua_of(seq!['a', 'r', 'c', 'h']), '"'),
    )
    &&& opt_view(new.user_agent_bitness) == hinted(
        old.user_agent_bitness,
        hint(h, sec_ch_ua_of(seq!['b', 'i', 't', 'n', 'e', 's', 's']), '"'),
    )
    &&& opt_view(new.user_agent_full_version_list) == hinted(
        old.user_agent_full_version_list,
        match header_text(h, sec_ch_ua()) {
            Some(v) => Some(full_version_list(v)),
            None => None,
        },
    )
    &&& opt_view(new.user_agent_mobile) == hinted(
        old.user_agent_mobile,
        hint(h, sec_ch_ua_of(seq!['m', 'o', 'b', 'i', 'l', 'e']), '?'),
    )
    &&& opt_view(new.user_agent_model) == hinted(
        old.user_agent_model,
        hint(h, sec_ch_ua_of(seq!['m', 'o', 'd', 'e', 'l']), '"'),
    )
    &&& opt_view(new.os_name) == hinted(
        old.os_name,
        hint(h, sec_ch_ua_of(seq!['p', 'l', 'a', 't', 'f', 'o', 'r', 'm']), '"'),
    )
    &&& opt_view(new.os_version) == hinted(
        old.os_version,
        hint(
            h,
            sec_ch_ua_of(
                seq!['p', 'l', 'a', 't', 'f', 'o', 'r', 'm', '-', 'v', 'e', 'r', 's', 'i', 'o', 'n'],
            ),
            '"',
        ),
    )
    &&& new.x_forwarded_for == old.x_forwarded_for && new.timezone == old.timezone
    &&& new.screen_width == old.screen_width && new.screen_height == old.screen_height
    &&& new.screen_density == old.screen_density
    &&& new.continent == old.continent && new.country_code == old.country_code
    &&& new.country_name == old.country_name && new.region == old.region && new.city == old.city
}

/// The hint header `name` of the request with every `c` removed, or the old
/// value when the header is missing or not text.
fn apply_hint(headers: &Headers, name: &str, c: char, old: Option<String>) -> (r: Option<String>)
    ensures
        opt_view(r) == hinted(old, hint(headers@, name@, c)),
{
    match headers.text(name) {
        Some(v) => {
            let from: Vec<char> = vec![c];
            let to: Vec<char> = Vec::new();
            proof {
                assert(from@ =~= seq![c]);
                assert(to@ =~= Seq::<char>::empty());
            }
            let w = replace(chars_of(v.as_str()).as_slice(), from.as_slice(), to.as_slice());
            Some(string_of(&w))
        },
        None => old,
    }
}

fn utm_lookup(pairs: &Vec<(String, String)>, key: &str) -> (r: Option<String>)
    ensures
        opt_view(r) == last_pair(pairs@.map_values(|p: (String, String)| (p.0@, p.1@)), key@),
{
    let ghost all = pairs@.map_values(|p: (String, String)| (p.0@, p.1@));
    let k = chars_of(key);
    let mut i: usize = pairs.len();
    proof {
        assert(all.subrange(0, all.len() as int) =~= all);
    }
    while i > 0
        invariant
            i <= pairs@.len(),
            all == pairs@.map_values(|p: (String, String)| (p.0@, p.1@)),
            k@ == key@,
            last_pair(all, key@) == last_pair(all.subrange(0, i as int), key@),
        decreases i,
    {
        proof {
            let pre = all.subrange(0, i as int);
            assert(pre.drop_last() =~= all.subrange(0, i - 1));
            assert(pre.last() == all[i - 1]);
        }
        let name = chars_of(pairs[i - 1].0.as_str());
        if crate::text::same_chars(&name, &k) {
            return Some(pairs[i - 1].1.clone());
        }
        i = i - 1;
    }
    None
}

pub open spec fn request_info_added(r: Payload, payload: Payload, headers: Seq<(Seq<char>, Seq<char>, bool)>, query: Option<Seq<char>>, client_ip: Seq<char>) -> bool {
    &&& has_page(r)
    &&& context_of(r).client is Some
    &&& (collection_of(r).events == collection_of(payload).events)
    &&& (collection_of(r).components == collection_of(payload).components)
    &&& (context_of(r).user == context_of(payload).user)
    &&& (context_of(r).session == context_of(payload).session)
    &&& (client_after(client_or_default(context_of(payload).client), headers, client_ip, client_of(r)))
    &&& (opt_view(page_of(r).referrer) == referrer_after(opt_view(page_of(payload).referrer), headers))
    &&& (({
        let old = page_of(payload);
        let new = page_of(r);
        &&& new.name == old.name && new.category == old.category
        &&& new.keywords == old.keywords && new.title == old.title
        &&& new.url == old.url && new.path == old.path && new.search == old.search
        &&& new.properties == old.properties
    }))
    &&& (({
        let pairs = form_pairs(
            match query {
                Some(q) => q,
                None => seq![],
            },
        );
        match campaign_after(context_of(payload).campaign, pairs) {
            Some(f) => context_of(r).campaign matches Some(c) && campaign_fields(c) == f,
            None => context_of(r).campaign is None,
        }
    }))
}

/// Completes the payload with what the request tells: the referrer, the
/// client's user agent, address, language and hints, and the campaign that
/// the query describes.
pub fn add_more_info_from_request(
    headers: &Headers,
    payload: Payload,
    query: Option<&str>,
    client_ip: &str,
) -> (r: Payload)
    requires
        has_page(payload),
    ensures
        has_page(r),
        context_of(r).client is Some,
        prepared(payload) ==> prepared(r),
        request_info_added(r, payload, headers@, opt_str(query), client_ip@),
{
    let Payload { data_collection } = payload;
    let DataCollection { events, context, components } = data_collection.unwrap();
    let Context { page, user, client, campaign, session } = context.unwrap();
    let mut page = page.unwrap();
    let mut client = match client {
        Some(c) => c,
        None => Client::default(),
    };
    proof {
        reveal_strlit("referer");
        reveal_strlit("user-agent");
        reveal_strlit("sec-ch-ua-arch");
        reveal_strlit("sec-ch-ua-bitness");
        reveal_strlit("sec-ch-ua");
        reveal_strlit("sec-ch-ua-mobile");
        reveal_strlit("sec-ch-ua-model");
        reveal_strlit("sec-ch-ua-platform");
        reveal_strlit("sec-ch-ua-platform-version");
        reveal_strlit("utm_campaign");
        reveal_strlit("utm_source");
        reveal_strlit("utm_medium");
        reveal_strlit("utm_term");
        reveal_strlit("utm_content");
        reveal_strlit("utm_creative_format");
        reveal_strlit("utm_marketing_tactic");
        reveal_strlit("");
        assert("referer"@ =~= seq!['r', 'e', 'f', 'e', 'r', 'e', 'r']);
        assert("user-agent"@ =~= user_agent_header());
        assert("sec-ch-ua-arch"@ =~= sec_ch_ua_of(seq!['a', 'r', 'c', 'h']));
        assert("sec-ch-ua-bitness"@ =~= sec_ch_ua_of(seq!['b', 'i', 't', 'n', 'e', 's', 's']));
        assert("sec-ch-ua"@ =~= sec_ch_ua());
        assert("sec-ch-ua-mobile"@ =~= sec_ch_ua_of(seq!['m', 'o', 'b', 'i', 'l', 'e']));
        assert("sec-ch-ua-model"@ =~= sec_ch_ua_of(seq!['m', 'o', 'd', 'e', 'l']));
        assert("sec-ch-ua-platform"@ =~= sec_ch_ua_of(seq!['p', 'l', 'a', 't', 'f', 'o', 'r', 'm']));
        assert("sec-ch-ua-platform-version"@ =~= sec_ch_ua_of(
            seq!['p', 'l', 'a', 't', 'f', 'o', 'r', 'm', '-', 'v', 'e', 'r', 's', 'i', 'o', 'n'],
        ));
        assert("utm_campaign"@ =~= utm_keys()[0]);
        assert("utm_source"@ =~= utm_keys()[1]);
        assert("utm_medium"@ =~= utm_keys()[2]);
        assert("utm_term"@ =~= utm_keys()[3]);
        assert("utm_content"@ =~= utm_keys()[4]);
        assert("utm_creative_format"@ =~= utm_keys()[5]);
        assert("utm_marketing_tactic"@ =~= utm_keys()[6]);
        assert(""@ =~= Seq::<char>::empty());
    }
    // referrer
    let referrer = match page.referrer {
        Some(r) => r,
        None => headers.text_or_empty("referer"),
    };
    if referrer.as_str().is_empty() {
        page.referrer = None;
    } else {
        page.referrer = Some(referrer);
    }
    // user agent, address, language
    client.user_agent = Some(headers.text_or_empty("user-agent"));
    client.ip = Some(client_ip.to_string());
    client.locale = Some(get_preferred_language(headers));
    // client hints
    client.user_agent_architecture = apply_hint(
        headers,
        "sec-ch-ua-arch",
        '"',
        client.user_agent_architecture,
    );
    client.user_agent_bitness = apply_hint(
        headers,
        "sec-ch-ua-bitness",
        '"',
        client.user_agent_bitness,
    );
    match headers.text("sec-ch-ua") {
        Some(v) => {
            client.user_agent_full_version_list = Some(process_sec_ch_ua(v.as_str()));
        },
        None => {},
    }
    client.user_agent_mobile = apply_hint(headers, "sec-ch-ua-mobile", '?', client.user_agent_mobile);
    client.user_agent_model = apply_hint(headers, "sec-ch-ua-model", '"', client.user_agent_model);
    client.os_name = apply_hint(headers, "sec-ch-ua-platform", '"', client.os_name);
    client.os_version = apply_hint(
        headers,
        "sec-ch-ua-platform-version",
        '"',
        client.os_version,
    );
    // campaign
    let q = match query {
        Some(q) => q,
        None => "",
    };
    let pairs = query_pairs(q);
    let ghost pv = pairs@.map_values(|p: (String, String)| (p.0@, p.1@));
    let name = utm_lookup(&pairs, "utm_campaign");
    let source = utm_lookup(&pairs, "utm_source");
    let medium = utm_lookup(&pairs, "utm_medium");
    let term = utm_lookup(&pairs, "utm_term");
    let content = utm_lookup(&pairs, "utm_content");
    let creative_format = utm_lookup(&pairs, "utm_creative_format");
    let marketing_tactic = utm_lookup(&pairs, "utm_marketing_tactic");
    let ghost given = Seq::new(7, |i: int| last_pair(pv, utm_keys()[i]));
    proof {
        assert(given[0] == opt_view(name));
        assert(given[1] == opt_view(source));
        assert(given[2] == opt_view(medium));
        assert(given[3] == opt_view(term));
        assert(given[4] == opt_view(content));
        assert(given[5] == opt_view(creative_format));
        assert(given[6] == opt_view(marketing_tactic));
    }
    let any = name.is_some() || source.is_some() || medium.is_some() || term.is_some()
        || content.is_some() || creative_format.is_some() || marketing_tactic.is_some();
    let campaign = match campaign {
        Some(c) => Some(
            Campaign {
                name: if name.is_some() { name } else { c.name },
                source: if source.is_some() { source } else { c.source },
                medium: if medium.is_some() { medium } else { c.medium },
                term: if term.is_some() { term } else { c.term },
                content: if content.is_some() { content } else { c.content },
                creative_format: if creative_format.is_some() { creative_format } else { c.creative_format },
                marketing_tactic: if marketing_tactic.is_some() { marketing_tactic } else { c.marketing_tactic },
            },
        ),
        None => if any {
            Some(
                Campaign {
                    name,
                    source,
                    medium,
                    term,
                    content,
                    creative_format,
                    marketing_tactic,
                },
            )
        } else {
            proof {
                assert(forall|i: int| 0 <= i < 7 ==> #[trigger] given[i] is None);
            }
            None
        },
    };
    proof {
        if campaign is Some {
            assert(campaign_fields(campaign.unwrap()) =~= campaign_after(
                context_of(payload).campaign,
                pv,
            ).unwrap());
        }
    }
    Payload {
        data_collection: Some(
            DataCollection {
                events,
                context: Some(
                    Context {
                        page: Some(page),
                        user,
                        client: Some(client),
                        campaign,
                        session,
                    },
                ),
                components,
            },
        ),
    }
}


// ---------------------------------------------------------------------------
// The whole pass
// ---------------------------------------------------------------------------

/// Completes the payload that a page's data layer gives: prepared, then the
/// session from the cookie, then what the document and the request tell.
pub fn collect_from_html(
    document: &Document,
    data_layer: Payload,
    cookie: &EdgeeCookie,
    headers: &Headers,
    proto: &str,
    host: &str,
    path: &str,
    query: Option<&str>,
    client_ip: &str,
) -> (r: Payload)
    ensures
        prepared(r),
        exists|a: Payload, b: Payload, c: Payload|
            #![trigger prepared_from(a, data_layer), session_added(b, a, *cookie), request_info_added(r, c, headers@, opt_str(query), client_ip@)]
            prepared_from(a, data_layer) && session_added(b, a, *cookie) && page_info_added(
                c,
                b,
                *document,
                proto@,
                host@,
                path@,
                opt_str(query),
            ) && request_info_added(r, c, headers@, opt_str(query), client_ip@),
{
    let a = prepare_data_collection_payload(data_layer);
    let ghost ga = a;
    let b = add_session(a, cookie);
    let ghost gb = b;
    let c = add_more_info_from_html_or_request(document, b, proto, host, path, query);
    let ghost gc = c;
    let r = add_more_info_from_request(headers, c, query, client_ip);
    proof {
        assert(prepared_from(ga, data_layer) && session_added(gb, ga, *cookie) && page_info_added(
            gc,
            gb,
            *document,
            proto@,
            host@,
            path@,
            opt_str(query),
        ) && request_info_added(r, gc, headers@, opt_str(query), client_ip@));
    }
    r
}

/// Completes the payload of a client event: prepared, then the session from
/// the cookie, then what the request tells.
pub fn collect_from_json(
    payload: Payload,
    cookie: &EdgeeCookie,
    headers: &Headers,
    query: Option<&str>,
    client_ip: &str,
) -> (r: Payload)
    ensures
        prepared(r),
        exists|a: Payload, b: Payload|
            #![trigger prepared_from(a, payload), session_added(b, a, *cookie)]
            prepared_from(a, payload) && session_added(b, a, *cookie) && request_info_added(
                r,
                b,
                headers@,
                opt_str(query),
                client_ip@,
            ),
{
    let a = prepare_data_collection_payload(payload);
    let ghost ga = a;
    let b = add_session(a, cookie);
    let ghost gb = b;
    let r = add_more_info_from_request(headers, b, query, client_ip);
    proof {
        assert(prepared_from(ga, payload) && session_added(gb, ga, *cookie) && request_info_added(
            r,
            gb,
            headers@,
            opt_str(query),
            client_ip@,
        ));
    }
    r
}

/// Gives a payload without events one page event, with id `uuid` at `now`,
/// in the payload's context; a payload with events is left as it is.
pub fn add_page_event(payload: Payload, uuid: String, now: Instant) -> (r: Payload)
    requires
        prepared(payload),
    ensures
        prepared(r),
        context_of(r) == context_of(payload),
        collection_of(r).components == collection_of(payload).components,
        collection_of(payload).events is Some ==> collection_of(r).events == collection_of(
            payload,
        ).events,
        collection_of(payload).events is None ==> (collection_of(r).events matches Some(es) && es@.len()
            == 1 && es@[0].uuid == uuid && es@[0].timestamp == now && es@[0].event_type
            == EventType::Page && es@[0].components is None && es@[0].context is Some
            && context_copied(context_of(payload), es@[0].context.unwrap())),
{
    let Payload { data_collection } = payload;
    let DataCollection { events, context, components } = data_collection.unwrap();
    let events = match events {
        Some(es) => Some(es),
        None => {
            let ctx = copy_context(&context);
            let e = Event {
                uuid,
                timestamp: now,
                event_type: EventType::Page,
                context: Some(ctx),
                components: None,
            };
            Some(vec![e])
        },
    };
    Payload { data_collection: Some(DataCollection { events, context, components }) }
}

/// A copy of the context, part by part.
fn copy_context(c: &Option<Context>) -> (r: Context)
    requires
        c is Some,
    ensures
        context_copied(c.unwrap(), r),
{
    crate::payload::copy_of_context(c.as_ref().unwrap())
}


/// Preparing a payload only creates what is missing: a payload that has all
/// its parts is left as it is.
pub proof fn lemma_prepare_keeps_prepared(r: Payload, p: Payload)
    requires
        prepared(p),
        prepared_from(r, p),
    ensures
        context_of(r) == context_of(p),
        collection_of(r).events == collection_of(p).events,
        collection_of(r).components == collection_of(p).components,
{
}


proof fn lemma_last_pair_at(pairs: Seq<(Seq<char>, Seq<char>)>, i: int)
    requires
        0 <= i < pairs.len(),
        forall|x: int| i < x < pairs.len() ==> (#[trigger] pairs[x]).0 != pairs[i].0,
    ensures
        last_pair(pairs, pairs[i].0) == Some(pairs[i].1),
    decreases pairs.len(),
{
    if i < pairs.len() - 1 {
        let t = pairs.drop_last();
        assert(pairs.last() == pairs[pairs.len() - 1]);
        assert forall|x: int| i < x < t.len() implies (#[trigger] t[x]).0 != t[i].0 by {
            assert(t[x] == pairs[x]);
        }
        lemma_last_pair_at(t, i);
    }
}

proof fn lemma_campaign_field(
    r: Payload,
    payload: Payload,
    headers: Seq<(Seq<char>, Seq<char>, bool)>,
    query: Seq<char>,
    client_ip: Seq<char>,
    i: int,
    n: int,
)
    requires
        request_info_added(r, payload, headers, Some(query), client_ip),
        0 <= i < form_pairs(query).len(),
        forall|x: int| i < x < form_pairs(query).len() ==> (#[trigger] form_pairs(query)[x]).0 != form_pairs(query)[i].0,
        0 <= n < 7,
        form_pairs(query)[i].0 == utm_keys()[n],
    ensures
        context_of(r).campaign matches Some(c) && campaign_fields(c)[n] == Some(form_pairs(query)[i].1),
{
    let pairs = form_pairs(query);
    lemma_last_pair_at(pairs, i);
    let given = Seq::new(7, |m: int| last_pair(pairs, utm_keys()[m]));
    assert(given[n] == Some(pairs[i].1));
    assert(given[n] is Some);
}

/// The campaign of the payload after the request's query: for the last
/// `name=value` pair of the query with a given name, the field that name
/// stands for takes the value: `utm_campaign` the name, `utm_source` the
/// source, `utm_medium` the medium, `utm_term` the term, `utm_content` the
/// content, `utm_creative_format` the creative format and
/// `utm_marketing_tactic` the marketing tactic.
pub proof fn lemma_campaign_from_query(
    r: Payload,
    payload: Payload,
    headers: Seq<(Seq<char>, Seq<char>, bool)>,
    query: Seq<char>,
    client_ip: Seq<char>,
    i: int,
)
    requires
        request_info_added(r, payload, headers, Some(query), client_ip),
        0 <= i < form_pairs(query).len(),
        forall|x: int| i < x < form_pairs(query).len() ==> (#[trigger] form_pairs(query)[x]).0 != form_pairs(query)[i].0,
    ensures
        form_pairs(query)[i].0 == "utm_campaign"@ ==> (context_of(r).campaign matches Some(c) && opt_view(c.name)
            == Some(form_pairs(query)[i].1)),
        form_pairs(query)[i].0 == "utm_source"@ ==> (context_of(r).campaign matches Some(c) && opt_view(c.source)
            == Some(form_pairs(query)[i].1)),
        form_pairs(query)[i].0 == "utm_medium"@ ==> (context_of(r).campaign matches Some(c) && opt_view(c.medium)
            == Some(form_pairs(query)[i].1)),
        form_pairs(query)[i].0 == "utm_term"@ ==> (context_of(r).campaign matches Some(c) && opt_view(c.term)
            == Some(form_pairs(query)[i].1)),
        form_pairs(query)[i].0 == "utm_content"@ ==> (context_of(r).campaign matches Some(c) && opt_view(c.content)
            == Some(form_pairs(query)[i].1)),
        form_pairs(query)[i].0 == "utm_creative_format"@ ==> (context_of(r).campaign matches Some(c) && opt_view(
            c.creative_format,
        ) == Some(form_pairs(query)[i].1)),
        form_pairs(query)[i].0 == "utm_marketing_tactic"@ ==> (context_of(r).campaign matches Some(c) && opt_view(
            c.marketing_tactic,
        ) == Some(form_pairs(query)[i].1)),
{
    let key = form_pairs(query)[i].0;
    reveal_strlit("utm_campaign");
    reveal_strlit("utm_source");
    reveal_strlit("utm_medium");
    reveal_strlit("utm_term");
    reveal_strlit("utm_content");
    reveal_strlit("utm_creative_format");
    reveal_strlit("utm_marketing_tactic");
    if key == "utm_campaign"@ {
        assert("utm_campaign"@ =~= utm_keys()[0]);
        lemma_campaign_field(r, payload, headers, query, client_ip, i, 0);
    }
    if key == "utm_source"@ {
        assert("utm_source"@ =~= utm_keys()[1]);
        lemma_campaign_field(r, payload, headers, query, client_ip, i, 1);
    }
    if key == "utm_medium"@ {
        assert("utm_medium"@ =~= utm_keys()[2]);
        lemma_campaign_field(r, payload, headers, query, client_ip, i, 2);
    }
    if key == "utm_term"@ {
        assert("utm_term"@ =~= utm_keys()[3]);
        lemma_campaign_field(r, payload, headers, query, client_ip, i, 3);
    }
    if key == "utm_content"@ {
        assert("utm_content"@ =~= utm_keys()[4]);
        lemma_campaign_field(r, payload, headers, query, client_ip, i, 4);
    }
    if key == "utm_creative_format"@ {
        assert("utm_creative_format"@ =~= utm_keys()[5]);
        lemma_campaign_field(r, payload, headers, query, client_ip, i, 5);
    }
    if key == "utm_marketing_tactic"@ {
        assert("utm_marketing_tactic"@ =~= utm_keys()[6]);
        lemma_campaign_field(r, payload, headers, query, client_ip, i, 6);
    }
}

} // verus!
