//! Decisions of the proxy on each request: where it goes, whether the
//! response is only passed through, the headers that report what was done,
//! and the page's SDK tag rewritten for data collection.
use vstd::prelude::*;
use crate::text::{chars_of, has_prefix, has_suffix, starts_with, ends_with, push_str, replace, replace_seq, string_of, same_chars};
use crate::headers::{Headers, HeaderEntry, header_text, inserted, is_valid_value, is_visible_text, first_entry, entries_named, entry_view, this_name};
use crate::text::{split, split_seq};
use crate::numbers::{parse_u16, unsigned_text};
use crate::models::opt_view;
use crate::numbers::{decimal, u128_to_string};
use crate::html::Document;
use crate::path::{validates, validate_requires, validate};
use crate::request::{UriParts, RequestExt};

verus! {

/// The path at which the SDK sends events.
pub open spec fn event_endpoint() -> Seq<char> {
    "/_edgee/event"@
}

/// The path at which third-party SDKs send events.
pub open spec fn third_party_endpoint() -> Seq<char> {
    "/_edgee/csevent"@
}

/// `{n}ms`.
pub open spec fn millis(n: int) -> Seq<char> {
    decimal(n as nat) + "ms"@
}

fn millis_text(n: u128) -> (r: String)
    ensures
        r@ == millis(n as int),
{
    let mut s = u128_to_string(n);
    push_str(&mut s, "ms");
    s
}

/// Sets the `x-edgee` header, which tells what the proxy did.
pub fn set_edgee_header(headers: &mut Headers, process: &str)
    requires
        is_valid_value(process@),
    ensures
        final(headers)@ == inserted(old(headers)@, "x-edgee"@, process@),
{
    headers.insert("x-edgee", process);
}

/// The headers after `set_duration_headers`.
pub open spec fn with_durations(
    h: Seq<(Seq<char>, Seq<char>, bool)>,
    debug: bool,
    full: int,
    compute: Option<u128>,
) -> Seq<(Seq<char>, Seq<char>, bool)> {
    let h1 = if debug {
        inserted(h, "x-edgee-full-duration"@, millis(full))
    } else {
        h
    };
    match compute {
        Some(d) => {
            let h2 = inserted(h1, "x-edgee-compute-duration"@, millis(d as int));
            if debug {
                inserted(h2, "x-edgee-proxy-duration"@, millis(full - d))
            } else {
                h2
            }
        },
        None => h1,
    }
}

/// Reports durations in milliseconds: the whole one in debug mode, the
/// compute one when there was a computation, and in debug mode the proxy one,
/// which is the rest.
pub fn set_duration_headers(
    headers: &mut Headers,
    is_debug_mode: bool,
    full_duration: u128,
    compute_duration: Option<u128>,
)
    requires
        is_debug_mode && compute_duration is Some ==> compute_duration.unwrap() <= full_duration,
    ensures
        final(headers)@ == with_durations(
            old(headers)@,
            is_debug_mode,
            full_duration as int,
            compute_duration,
        ),
{
    if is_debug_mode {
        let v = millis_text(full_duration);
        headers.insert("x-edgee-full-duration", v.as_str());
    }
    match compute_duration {
        Some(d) => {
            let v = millis_text(d);
            headers.insert("x-edgee-compute-duration", v.as_str());
            if is_debug_mode {
                let p = millis_text(full_duration - d);
                headers.insert("x-edgee-proxy-duration", p.as_str());
            }
        },
        None => {},
    }
}

/// The response's content encoding, as text: empty where there is none or it
/// is not text.
pub open spec fn encoding_of(h: Seq<(Seq<char>, Seq<char>, bool)>) -> Seq<char> {
    match header_text(h, "content-encoding"@) {
        Some(e) => e,
        None => Seq::empty(),
    }
}

/// The encodings that the proxy can read.
pub open spec fn is_supported_encoding(e: Seq<char>) -> bool {
    e == "gzip"@ || e == "deflate"@ || e == "identity"@ || e == "br"@ || e.len() == 0
}

/// The encodings that compress the body.
pub open spec fn is_compressing_encoding(e: Seq<char>) -> bool {
    e == "gzip"@ || e == "deflate"@ || e == "br"@
}

/// Why the proxy only passes a response through, if it does.
pub open spec fn proxy_only_reason(
    proxy_only: bool,
    method: Seq<char>,
    status: u16,
    h: Seq<(Seq<char>, Seq<char>, bool)>,
    body_len: nat,
    max_compressed_body_size: nat,
) -> Option<Seq<char>> {
    if proxy_only {
        Some("proxy-only(conf)"@)
    } else if method == "HEAD"@ || method == "OPTIONS"@ || method == "TRACE"@ || method
        == "CONNECT"@ {
        Some("proxy-only(method)"@)
    } else if 300 <= status <= 399 {
        Some("proxy-only(3xx)"@)
    } else if 100 <= status <= 199 {
        Some("proxy-only(1xx)"@)
    } else if header_text(h, "content-type"@) is None {
        Some("proxy-only(no-content-type)"@)
    } else if !starts_with(header_text(h, "content-type"@).unwrap(), "text/html"@) {
        Some("proxy-only(non-html)"@)
    } else if body_len == 0 {
        Some("proxy-only(no-body)"@)
    } else if !is_supported_encoding(encoding_of(h)) {
        Some("proxy-only(encoding-not-supported)"@)
    } else if is_compressing_encoding(encoding_of(h)) && body_len > max_compressed_body_size {
        Some("proxy-only(compressed-body-too-large)"@)
    } else {
        None
    }
}

fn same_as(s: &Vec<char>, lit: &str) -> (r: bool)
    ensures
        r == (s@ == lit@),
{
    let l = chars_of(lit);
    same_chars(s, &l)
}

/// Whether the proxy only passes the response through, and why: by
/// configuration, for a method without a page, a redirection or an
/// informational status, a response that is not HTML, an empty body, an
/// encoding the proxy cannot read, or a compressed body over the limit.
pub fn do_only_proxy(
    method: &str,
    status: u16,
    response_headers: &Headers,
    body_len: usize,
    proxy_only: bool,
    max_compressed_body_size: usize,
) -> (r: Result<bool, &'static str>)
    ensures
        match proxy_only_reason(
            proxy_only,
            method@,
            status,
            response_headers@,
            body_len as nat,
            max_compressed_body_size as nat,
        ) {
            Some(m) => r matches Err(e) && e@ == m,
            None => r == Ok::<bool, &'static str>(false),
        },
{
    if proxy_only {
        return Err("proxy-only(conf)");
    }
    let m = chars_of(method);
    if same_as(&m, "HEAD") || same_as(&m, "OPTIONS") || same_as(&m, "TRACE") || same_as(&m, "CONNECT") {
        return Err("proxy-only(method)");
    }
    if 300 <= status && status <= 399 {
        return Err("proxy-only(3xx)");
    }
    if 100 <= status && status <= 199 {
        return Err("proxy-only(1xx)");
    }
    let content_type = match response_headers.text("content-type") {
        Some(c) => c,
        None => return Err("proxy-only(no-content-type)"),
    };
    let ct = chars_of(content_type.as_str());
    let html = chars_of("text/html");
    if !has_prefix(ct.as_slice(), html.as_slice()) {
        return Err("proxy-only(non-html)");
    }
    if body_len == 0 {
        return Err("proxy-only(no-body)");
    }
    let enc = match response_headers.text("content-encoding") {
        Some(e) => chars_of(e.as_str()),
        None => Vec::new(),
    };
    proof {
        assert(enc@ == encoding_of(response_headers@));
    }
    let compressing = same_as(&enc, "gzip") || same_as(&enc, "deflate") || same_as(&enc, "br");
    if !(compressing || same_as(&enc, "identity") || enc.len() == 0) {
        return Err("proxy-only(encoding-not-supported)");
    }
    if compressing && body_len > max_compressed_body_size {
        return Err("proxy-only(compressed-body-too-large)");
    }
    Ok(false)
}

/// Where a request goes.
#[derive(Debug, Clone, Copy, PartialEq, Eq, Structural)]
pub enum Route {
    /// a redirection to the HTTPS address of the request
    RedirectToHttps,
    /// the SDK file at the path
    Sdk,
    /// an event of the SDK
    ClientEvent,
    /// the pre-flight answer of the third-party event endpoint
    ThirdPartyOptions,
    /// an event of a third-party SDK
    ThirdPartyEvent,
    /// the backend
    Backend,
}

/// Whether the path names an SDK file: `/_edgee/sdk.js` or
/// `/_edgee/libs/edgee.*.js`.
pub open spec fn is_sdk_path(path: Seq<char>) -> bool {
    path == "/_edgee/sdk.js"@ || (starts_with(path, "/_edgee/libs/edgee."@) && ends_with(
        path,
        ".js"@,
    ))
}

/// Where the request goes: plain HTTP is redirected when HTTPS is forced;
/// then the SDK files, the events of the SDK (at their endpoint or at a path
/// generated for the host), and the third-party endpoint are served by the
/// proxy; everything else goes to the backend.
pub open spec fn route_of(
    method: Seq<char>,
    path: Seq<char>,
    host: Seq<char>,
    content_type: Seq<char>,
    is_https: bool,
    force_https: bool,
) -> Route {
    if !is_https && force_https {
        Route::RedirectToHttps
    } else if method == "GET"@ && is_sdk_path(path) {
        Route::Sdk
    } else if method == "POST"@ && content_type == "application/json"@ && (path == event_endpoint()
        || validates(host, path)) {
        Route::ClientEvent
    } else if path == third_party_endpoint() && method == "OPTIONS"@ {
        Route::ThirdPartyOptions
    } else if path == third_party_endpoint() && method == "POST"@ && content_type
        == "application/json"@ {
        Route::ThirdPartyEvent
    } else {
        Route::Backend
    }
}

/// Where the request goes (see `route_of`).
pub fn route_request(
    method: &str,
    path: &str,
    host: &str,
    content_type: &str,
    is_https: bool,
    force_https: bool,
) -> (r: Route)
    requires
        method@ == "POST"@ && content_type@ == "application/json"@ ==> validate_requires(host@, path@),
    ensures
        r == route_of(method@, path@, host@, content_type@, is_https, force_https),
{
    if !is_https && force_https {
        return Route::RedirectToHttps;
    }
    let m = chars_of(method);
    let p = chars_of(path);
    let ct = chars_of(content_type);
    let sdk_prefix = chars_of("/_edgee/libs/edgee.");
    let js = chars_of(".js");
    if same_as(&m, "GET") && (same_as(&p, "/_edgee/sdk.js") || (has_prefix(p.as_slice(), sdk_prefix.as_slice())
        && has_suffix(p.as_slice(), js.as_slice()))) {
        return Route::Sdk;
    }
    if same_as(&m, "POST") && same_as(&ct, "application/json") {
        if same_as(&p, "/_edgee/event") || validate(host, path) {
            return Route::ClientEvent;
        }
    }
    if same_as(&p, "/_edgee/csevent") {
        if same_as(&m, "OPTIONS") {
            return Route::ThirdPartyOptions;
        }
        if same_as(&m, "POST") && same_as(&ct, "application/json") {
            return Route::ThirdPartyEvent;
        }
    }
    Route::Backend
}

/// The tag that replaces the page's SDK tag: the events collected on the
/// server (in debug mode), an empty data layer when the page has none, and
/// the SDK, inlined or by address, told whether events were collected and
/// where to send new ones.
pub open spec fn sdk_tag(doc: Document, event_path: Seq<char>, debug: bool) -> Seq<char> {
    let collected = doc.data_collection_events@.len() > 0;
    let debug_script = if collected && debug {
        "<script>var _edgee_events = "@ + doc.data_collection_events@ + "</script>"@
    } else {
        Seq::empty()
    };
    let client_side = if collected {
        " data-client-side=\"false\""@
    } else {
        " data-client-side=\"true\""@
    };
    let data_layer = if doc.data_layer@.len() == 0 {
        "<script id=\"__EDGEE_DATA_LAYER__\" type=\"application/json\">{}</script>"@
    } else {
        Seq::empty()
    };
    let event_param = " data-event-path=\""@ + event_path + "\""@;
    if doc.inlined_sdk@.len() > 0 {
        debug_script + data_layer + "<script"@ + client_side + event_param + ">"@
            + doc.inlined_sdk@ + "</script>"@
    } else {
        debug_script + data_layer + "<script"@ + client_side + event_param + " async src=\""@
            + doc.sdk_src@ + "\"></script>"@
    }
}

/// The page with its SDK tag replaced by `sdk_tag`.
pub fn inject_sdk(body: &str, document: &Document, event_path: &str, is_debug_mode: bool) -> (r:
    String)
    ensures
        r@ == replace_seq(body@, document.sdk_full_tag@, sdk_tag(*document, event_path@, is_debug_mode)),
{
    let collected = !document.data_collection_events.as_str().is_empty();
    let mut tag = String::new();
    if collected && is_debug_mode {
        push_str(&mut tag, "<script>var _edgee_events = ");
        push_str(&mut tag, document.data_collection_events.as_str());
        push_str(&mut tag, "</script>");
    }
    if document.data_layer.as_str().is_empty() {
        push_str(&mut tag, "<script id=\"__EDGEE_DATA_LAYER__\" type=\"application/json\">{}</script>");
    }
    push_str(&mut tag, "<script");
    if collected {
        push_str(&mut tag, " data-client-side=\"false\"");
    } else {
        push_str(&mut tag, " data-client-side=\"true\"");
    }
    push_str(&mut tag, " data-event-path=\"");
    push_str(&mut tag, event_path);
    push_str(&mut tag, "\"");
    if !document.inlined_sdk.as_str().is_empty() {
        push_str(&mut tag, ">");
        push_str(&mut tag, document.inlined_sdk.as_str());
        push_str(&mut tag, "</script>");
    } else {
        push_str(&mut tag, " async src=\"");
        push_str(&mut tag, document.sdk_src.as_str());
        push_str(&mut tag, "\"></script>");
    }
    proof {
        assert(tag@ =~= sdk_tag(*document, event_path@, is_debug_mode));
    }
    let b = chars_of(body);
    let from = chars_of(document.sdk_full_tag.as_str());
    let to = chars_of(tag.as_str());
    let out = replace(b.as_slice(), from.as_slice(), to.as_slice());
    string_of(&out)
}


// ---------------------------------------------------------------------------
// Hosts
// ---------------------------------------------------------------------------

/// The host of a request: its `Host` header, else the host of its URI.
pub fn extract_host(headers: &Headers, uri_host: Option<&str>) -> (r: Option<String>)
    requires
        first_entry(headers@, "host"@) matches Some(e) ==> e.2,
    ensures
        opt_view(r) == match first_entry(headers@, "host"@) {
            Some(e) => Some(e.1),
            None => match uri_host {
                Some(u) => Some(u@),
                None => None,
            },
        },
{
    match headers.text("host") {
        Some(v) => Some(v),
        None => match uri_host {
            Some(u) => Some(u.to_string()),
            None => None,
        },
    }
}

/// The port of a `host:port` location: the number after the first colon when
/// it reads as one, else the default port.
pub open spec fn port_of(location: Seq<char>, default_port: u16) -> u16 {
    let parts = split_seq(location, ":"@);
    if parts.len() > 1 {
        match unsigned_text(parts[1]) {
            Some(v) => if v <= u16::MAX {
                v as u16
            } else {
                default_port
            },
            None => default_port,
        }
    } else {
        default_port
    }
}

/// The host and port of a `host:port` location.
pub fn parse_host(location: &str, default_port: u16) -> (r: (String, u16))
    ensures
        r.0@ == split_seq(location@, ":"@)[0],
        r.1 == port_of(location@, default_port),
{
    let colon = chars_of(":");
    proof {
        reveal_strlit(":");
        crate::collect::lemma_split_nonempty(location@, ":"@);
    }
    let parts = split(chars_of(location).as_slice(), colon.as_slice());
    let host = string_of(&parts[0]);
    let port = if parts.len() > 1 {
        match parse_u16(parts[1].as_slice()) {
            Some(p) => p,
            None => default_port,
        }
    } else {
        default_port
    };
    (host, port)
}

/// The path of an event posted to the proxy: every POST is one.
pub fn custom_event(method: &str, path: &str) -> (r: Option<String>)
    ensures
        method@ != "POST"@ ==> r is None,
        method@ == "POST"@ ==> (r matches Some(p) && p@ == path@),
{
    let m = chars_of(method);
    if !same_as(&m, "POST") {
        return None;
    }
    Some(path.to_string())
}

/// Whether the request asks for the proxy's status.
pub fn is_status_request(method: &str, path: &str) -> (r: bool)
    ensures
        r == (method@ == "GET"@ && path@ == "/_edgee/status"@),
{
    let m = chars_of(method);
    let p = chars_of(path);
    same_as(&m, "GET") && same_as(&p, "/_edgee/status")
}


/// What the proxy does with a request made to one of its domains.
pub enum DomainAction {
    /// Answer with the proxy's status.
    ShowStatus,
    /// Redirect to this address over HTTPS.
    ForceHttps(String),
    /// Take the event posted at this path.
    CustomEvent(String),
    /// Forward the request over HTTP to the backend of this host.
    ForwardHttp(String),
    /// Forward the request over HTTPS to the backend of this host.
    ForwardHttps(String),
}

/// The path of a `path?query` text: what comes before the first `?`.
pub open spec fn path_part(path_and_query: Seq<char>) -> Seq<char> {
    split_seq(path_and_query, "?"@)[0]
}

/// What the proxy does with a request on one of its domains: the status page,
/// a redirect to HTTPS where that is forced, an event for every POST, else
/// forwarding to the backend of the request's host.
pub fn parse_request(
    method: &str,
    uri: &UriParts,
    headers: &Headers,
    uri_host: Option<&str>,
    force_https: bool,
) -> (r: DomainAction)
    requires
        uri.path_and_query is Some,
        !(method@ == "GET"@ && path_part(uri.path_and_query.unwrap()@) == "/_edgee/status"@) ==> {
            &&& uri.scheme is Some
            &&& (uri.scheme.unwrap()@ == "http"@ && force_https) ==> uri.authority is Some
            &&& (first_entry(headers@, "host"@) matches Some(e) ==> e.2)
            &&& !(uri.scheme.unwrap()@ == "http"@ && force_https) ==> (first_entry(headers@, "host"@) is Some
                || uri_host is Some)
        },
    ensures
        ({
            let pq = uri.path_and_query.unwrap()@;
            let path = path_part(pq);
            let is_http = uri.scheme.unwrap()@ == "http"@;
            let host = match first_entry(headers@, "host"@) {
                Some(e) => e.1,
                None => uri_host.unwrap()@,
            };
            if method@ == "GET"@ && path == "/_edgee/status"@ {
                r is ShowStatus
            } else if is_http && force_https {
                r matches DomainAction::ForceHttps(u) && u@ == "https://"@ + uri.authority.unwrap()@ + pq
            } else if method@ == "POST"@ {
                r matches DomainAction::CustomEvent(p) && p@ == path
            } else if is_http {
                r matches DomainAction::ForwardHttp(h) && h@ == host
            } else {
                r matches DomainAction::ForwardHttps(h) && h@ == host
            }
        }),
{
    let pq = chars_of(uri.path_and_query.as_ref().unwrap().as_str());
    let question = chars_of("?");
    proof {
        reveal_strlit("?");
        crate::collect::lemma_split_nonempty(pq@, question@);
    }
    let parts = split(pq.as_slice(), question.as_slice());
    let path = string_of(&parts[0]);
    if is_status_request(method, path.as_str()) {
        return DomainAction::ShowStatus;
    }
    let is_http = uri.is_http();
    if is_http && force_https {
        return DomainAction::ForceHttps(uri.https_uri());
    }
    let host = match extract_host(headers, uri_host) {
        Some(h) => h,
        None => {
            proof {
                assert(false);
            }
            String::new()
        },
    };
    match custom_event(method, path.as_str()) {
        Some(p) => DomainAction::CustomEvent(p),
        None => {
            if is_http {
                DomainAction::ForwardHttp(host)
            } else {
                DomainAction::ForwardHttps(host)
            }
        },
    }
}

// ---------------------------------------------------------------------------
// The request to the backend
// ---------------------------------------------------------------------------

/// The headers with the first entry named `name` given the value `value`.
pub open spec fn with_first_set(h: Seq<(Seq<char>, Seq<char>, bool)>, name: Seq<char>, value: Seq<char>) -> Seq<
    (Seq<char>, Seq<char>, bool),
>
    decreases h.len(),
{
    if h.len() == 0 {
        h
    } else if h[0].0 == name {
        seq![(name, value, is_visible_text(value))] + h.drop_first()
    } else {
        seq![h[0]] + with_first_set(h.drop_first(), name, value)
    }
}

/// The `name=value; ` items of one `Cookie` header, each name and value
/// trimmed.
pub open spec fn cookie_items_text(parts: Seq<Seq<char>>) -> Seq<char>
    decreases parts.len(),
{
    if parts.len() == 0 {
        Seq::empty()
    } else {
        let kv = split_seq(parts[0], "="@);
        crate::text::trim_seq(kv[0]) + "="@ + crate::text::trim_seq(kv[1]) + "; "@ + cookie_items_text(
            parts.drop_first(),
        )
    }
}

/// The cookies of all the `Cookie` headers, written again as one value.
pub open spec fn rebuilt_cookies(es: Seq<(Seq<char>, Seq<char>, bool)>) -> Seq<char>
    decreases es.len(),
{
    if es.len() == 0 {
        Seq::empty()
    } else {
        cookie_items_text(split_seq(es[0].1, "; "@)) + rebuilt_cookies(es.drop_first())
    }
}

/// Every item of every `Cookie` header has a value.
pub open spec fn cookies_have_values(h: Seq<(Seq<char>, Seq<char>, bool)>) -> bool {
    forall|i: int|
        0 <= i < entries_named(h, "cookie"@).len() ==> {
            let e = #[trigger] entries_named(h, "cookie"@)[i];
            &&& e.2
            &&& forall|j: int|
                0 <= j < split_seq(e.1, "; "@).len() ==> split_seq(
                    #[trigger] split_seq(e.1, "; "@)[j],
                    "="@,
                ).len() >= 2
        }
}

/// Each header once, with its last value, as a new map takes them in turn.
pub open spec fn reinserted(h: Seq<(Seq<char>, Seq<char>, bool)>) -> Seq<(Seq<char>, Seq<char>, bool)>
    decreases h.len(),
{
    if h.len() == 0 {
        Seq::empty()
    } else {
        inserted(reinserted(h.drop_last()), h.last().0, h.last().1)
    }
}

/// The headers of the request to the backend: the visitor's address added to
/// `X-Forwarded-For`, `X-Forwarded-Proto` and `X-Forwarded-Host` set where
/// missing, the cookies written again as one header, each header with its last
/// value, and `Host` set to the backend's address.
pub open spec fn backend_headers(
    h: Seq<(Seq<char>, Seq<char>, bool)>,
    client_ip: Seq<char>,
    proto: Seq<char>,
    host: Seq<char>,
    backend: Seq<char>,
) -> Seq<(Seq<char>, Seq<char>, bool)> {
    let h3 = backend_headers_h3(h, client_ip, proto, host);
    let cookies = rebuilt_cookies(entries_named(h3, "cookie"@));
    let h4 = if cookies.len() > 0 {
        inserted(h3, "cookie"@, cookies)
    } else {
        h3
    };
    inserted(reinserted(h4), "host"@, backend)
}

fn set_first(headers: &mut Headers, name: &str, value: &str)
    ensures
        final(headers)@ == with_first_set(old(headers)@, name@, value@),
{
    let n = chars_of(name);
    let v = chars_of(value);
    let text = crate::headers::visible_text(&v);
    let ghost h = headers@;
    let mut i: usize = 0;
    proof {
        assert(h.subrange(0, h.len() as int) =~= h);
    }
    while i < headers.entries.len()
        invariant
            i <= h.len(),
            h == headers@,
            headers@ == old(headers)@,
            headers.entries@.len() == h.len(),
            n@ == name@,
            v@ == value@,
            text == is_visible_text(value@),
            forall|k: int| 0 <= k < i ==> h[k].0 != name@,
            with_first_set(h, name@, value@) == h.subrange(0, i as int) + with_first_set(
                h.subrange(i as int, h.len() as int),
                name@,
                value@,
            ),
        decreases h.len() - i,
    {
        proof {
            let rest = h.subrange(i as int, h.len() as int);
            assert(rest.drop_first() =~= h.subrange(i + 1, h.len() as int));
            assert(rest[0] == h[i as int]);
            assert(h[i as int] == entry_view(headers.entries@[i as int]));
        }
        let en = chars_of(headers.entries[i].name.as_str());
        if same_chars(&en, &n) {
            let entry = HeaderEntry { name: headers.entries[i].name.clone(), value: value.to_string(), text };
            headers.entries.set(i, entry);
            proof {
                assert(headers@ =~= h.subrange(0, i as int) + (seq![(name@, value@, is_visible_text(value@))]
                    + h.subrange(i + 1, h.len() as int)));
                assert(h.subrange(0, i as int) + h.subrange(i as int, h.len() as int) =~= h);
            }
            return ;
        }
        proof {
            assert(h.subrange(0, i + 1) =~= h.subrange(0, i as int).push(h[i as int]));
            assert(h.subrange(0, i as int) + (seq![h[i as int]] + with_first_set(
                h.subrange(i + 1, h.len() as int),
                name@,
                value@,
            )) =~= h.subrange(0, i + 1) + with_first_set(h.subrange(i + 1, h.len() as int), name@, value@));
        }
        i = i + 1;
    }
    proof {
        assert(h.subrange(i as int, h.len() as int).len() == 0);
        assert(h.subrange(0, i as int) =~= h);
    }
}

fn cookie_items(value: &String) -> (r: Vec<char>)
    requires
        forall|j: int|
            0 <= j < split_seq(value@, "; "@).len() ==> split_seq(
                #[trigger] split_seq(value@, "; "@)[j],
                "="@,
            ).len() >= 2,
    ensures
        r@ == cookie_items_text(split_seq(value@, "; "@)),
{
    let sep = chars_of("; ");
    let eq = chars_of("=");
    proof {
        reveal_strlit("; ");
        reveal_strlit("=");
    }
    let parts = split(chars_of(value.as_str()).as_slice(), sep.as_slice());
    let ghost ps = split_seq(value@, "; "@);
    let mut out: Vec<char> = Vec::new();
    let mut i: usize = parts.len();
    let mut tail: Vec<char> = Vec::new();
    while i > 0
        invariant
            i <= parts@.len(),
            parts@.len() == ps.len(),
            eq@ == "="@,
            eq@.len() > 0,
            forall|k: int| 0 <= k < parts@.len() ==> #[trigger] parts@[k]@ == ps[k],
            forall|j: int| 0 <= j < ps.len() ==> split_seq(#[trigger] ps[j], "="@).len() >= 2,
            tail@ == cookie_items_text(ps.subrange(i as int, ps.len() as int)),
        decreases i,
    {
        let kv = split(parts[i - 1].as_slice(), eq.as_slice());
        proof {
            assert(split_seq(ps[i - 1], "="@).len() >= 2);
        }
        let key = crate::text::trim(kv[0].as_slice());
        let val = crate::text::trim(kv[1].as_slice());
        let mut item: Vec<char> = Vec::new();
        append_all(&mut item, &key);
        item.push('=');
        append_all(&mut item, &val);
        item.push(';');
        item.push(' ');
        append_all(&mut item, &tail);
        proof {
            let sub = ps.subrange(i - 1, ps.len() as int);
            assert(sub.drop_first() =~= ps.subrange(i as int, ps.len() as int));
            assert(sub[0] == ps[i - 1]);
            reveal_strlit("; ");
            reveal_strlit("=");
            assert(item@ =~= cookie_items_text(sub));
        }
        tail = item;
        i = i - 1;
    }
    proof {
        assert(ps.subrange(0, ps.len() as int) =~= ps);
    }
    out = tail;
    out
}

fn append_all(v: &mut Vec<char>, w: &Vec<char>)
    ensures
        final(v)@ == old(v)@ + w@,
{
    let mut i: usize = 0;
    while i < w.len()
        invariant
            i <= w@.len(),
            v@ == old(v)@ + w@.subrange(0, i as int),
        decreases w@.len() - i,
    {
        v.push(w[i]);
        i = i + 1;
        proof {
            assert(v@ =~= old(v)@ + w@.subrange(0, i as int));
        }
    }
    proof {
        assert(w@.subrange(0, w@.len() as int) =~= w@);
    }
}

/// The headers of the request to the backend (see `backend_headers`).
pub fn forward_headers(headers: &Headers, client_ip: &str, proto: &str, host: &str, backend_address: &str) -> (r:
    Headers)
    requires
        first_entry(headers@, "x-forwarded-for"@) matches Some(e) ==> e.2,
        cookies_have_values(backend_headers_h3(headers@, client_ip@, proto@, host@)),
    ensures
        r@ == backend_headers(headers@, client_ip@, proto@, host@, backend_address@),
{
    let mut h = copy_headers(headers);
    match headers.text("x-forwarded-for") {
        Some(existing) => {
            let mut v = existing;
            crate::text::push_str(&mut v, ", ");
            crate::text::push_str(&mut v, client_ip);
            set_first(&mut h, "x-forwarded-for", v.as_str());
        },
        None => h.insert("x-forwarded-for", client_ip),
    }
    if h.text("x-forwarded-proto").is_none() && !h.unreadable("x-forwarded-proto") {
        h.insert("x-forwarded-proto", proto);
    }
    if h.text("x-forwarded-host").is_none() && !h.unreadable("x-forwarded-host") {
        h.insert("x-forwarded-host", host);
    }
    proof {
        assert(h@ == backend_headers_h3(headers@, client_ip@, proto@, host@));
    }
    let cookies = h.all_named("cookie");
    let ghost es = entries_named(h@, "cookie"@);
    let mut text: Vec<char> = Vec::new();
    let mut i: usize = 0;
    proof {
        assert(es.subrange(0, es.len() as int) =~= es);
        assert(text@ + rebuilt_cookies(es) =~= rebuilt_cookies(es));
    }
    while i < cookies.len()
        invariant
            i <= cookies@.len(),
            es == cookies@.map_values(|e: HeaderEntry| entry_view(e)),
            cookies_have_values(h@),
            es == entries_named(h@, "cookie"@),
            rebuilt_cookies(es) == text@ + rebuilt_cookies(es.subrange(i as int, es.len() as int)),
        decreases cookies@.len() - i,
    {
        proof {
            let rest = es.subrange(i as int, es.len() as int);
            assert(rest.drop_first() =~= es.subrange(i + 1, es.len() as int));
            assert(rest[0] == es[i as int]);
            assert(es[i as int] == entry_view(cookies@[i as int]));
        }
        let items = cookie_items(&cookies[i].value);
        let ghost before = text@;
        append_all(&mut text, &items);
        proof {
            assert(before + (items@ + rebuilt_cookies(es.subrange(i + 1, es.len() as int))) =~= text@
                + rebuilt_cookies(es.subrange(i + 1, es.len() as int)));
        }
        i = i + 1;
    }
    proof {
        assert(es.subrange(i as int, es.len() as int).len() == 0);
        assert(text@ + Seq::<char>::empty() =~= text@);
    }
    if text.len() > 0 {
        let t = string_of(&text);
        h.insert("cookie", t.as_str());
    }
    let ghost h4 = h@;
    let mut out = Headers::new();
    let mut j: usize = 0;
    proof {
        assert(h4.subrange(0, 0) =~= Seq::<(Seq<char>, Seq<char>, bool)>::empty());
    }
    while j < h.entries.len()
        invariant
            j <= h4.len(),
            h4 == h@,
            h.entries@.len() == h4.len(),
            out@ == reinserted(h4.subrange(0, j as int)),
        decreases h4.len() - j,
    {
        proof {
            let p = h4.subrange(0, j + 1);
            assert(p.drop_last() =~= h4.subrange(0, j as int));
            assert(p.last() == h4[j as int]);
            assert(h4[j as int] == entry_view(h.entries@[j as int]));
        }
        out.insert(h.entries[j].name.as_str(), h.entries[j].value.as_str());
        j = j + 1;
    }
    proof {
        assert(h4.subrange(0, h4.len() as int) =~= h4);
    }
    out.insert("host", backend_address);
    out
}

/// The headers once the `X-Forwarded-*` ones are set (before the cookies).
pub open spec fn backend_headers_h3(
    h: Seq<(Seq<char>, Seq<char>, bool)>,
    client_ip: Seq<char>,
    proto: Seq<char>,
    host: Seq<char>,
) -> Seq<(Seq<char>, Seq<char>, bool)> {
    let h1 = match first_entry(h, "x-forwarded-for"@) {
        Some(e) => with_first_set(h, "x-forwarded-for"@, e.1 + ", "@ + client_ip),
        None => inserted(h, "x-forwarded-for"@, client_ip),
    };
    let h2 = if first_entry(h1, "x-forwarded-proto"@) is None {
        inserted(h1, "x-forwarded-proto"@, proto)
    } else {
        h1
    };
    if first_entry(h2, "x-forwarded-host"@) is None {
        inserted(h2, "x-forwarded-host"@, host)
    } else {
        h2
    }
}

fn copy_headers(h: &Headers) -> (r: Headers)
    ensures
        r@ == h@,
{
    let mut entries: Vec<HeaderEntry> = Vec::new();
    let mut i: usize = 0;
    while i < h.entries.len()
        invariant
            i <= h.entries@.len(),
            entries@.len() == i,
            forall|k: int| 0 <= k < i ==> entry_view(#[trigger] entries@[k]) == entry_view(h.entries@[k]),
        decreases h.entries@.len() - i,
    {
        let e = &h.entries[i];
        entries.push(HeaderEntry { name: e.name.clone(), value: e.value.clone(), text: e.text });
        i = i + 1;
    }
    let r = Headers { entries };
    proof {
        assert(r@ =~= h@);
    }
    r
}


/// `needle` occurs in `a + needle + b`.
proof fn lemma_contains_middle(a: Seq<char>, needle: Seq<char>, b: Seq<char>)
    ensures
        crate::text::contains_seq(a + needle + b, needle),
{
    let s = a + needle + b;
    assert(s.subrange(a.len() as int, (a.len() + needle.len()) as int) =~= needle);
    assert(crate::text::occurs_at(s, needle, a.len() as int));
}

/// The SDK tag tells the SDK whether the page's events were already collected
/// on the server: when the document holds collected events it says
/// `data-client-side="false"`, so that the browser does not collect them
/// again; when it holds none it says `data-client-side="true"`.
pub proof fn lemma_sdk_tag_client_side(doc: Document, event_path: Seq<char>, debug: bool)
    ensures
        doc.data_collection_events@.len() > 0 ==> crate::text::contains_seq(
            sdk_tag(doc, event_path, debug),
            "data-client-side=\"false\""@,
        ),
        doc.data_collection_events@.len() == 0 ==> crate::text::contains_seq(
            sdk_tag(doc, event_path, debug),
            "data-client-side=\"true\""@,
        ),
{
    let collected = doc.data_collection_events@.len() > 0;
    let debug_script = if collected && debug {
        "<script>var _edgee_events = "@ + doc.data_collection_events@ + "</script>"@
    } else {
        Seq::empty()
    };
    let data_layer = if doc.data_layer@.len() == 0 {
        "<script id=\"__EDGEE_DATA_LAYER__\" type=\"application/json\">{}</script>"@
    } else {
        Seq::empty()
    };
    let event_param = " data-event-path=\""@ + event_path + "\""@;
    let flag = if collected {
        "data-client-side=\"false\""@
    } else {
        "data-client-side=\"true\""@
    };
    let rest = if doc.inlined_sdk@.len() > 0 {
        event_param + ">"@ + doc.inlined_sdk@ + "</script>"@
    } else {
        event_param + " async src=\""@ + doc.sdk_src@ + "\"></script>"@
    };
    reveal_strlit(" data-client-side=\"false\"");
    reveal_strlit(" data-client-side=\"true\"");
    reveal_strlit("data-client-side=\"false\"");
    reveal_strlit("data-client-side=\"true\"");
    let head = debug_script + data_layer + "<script"@ + seq![' '];
    assert(sdk_tag(doc, event_path, debug) =~= head + flag + rest);
    lemma_contains_middle(head, flag, rest);
}

} // verus!
