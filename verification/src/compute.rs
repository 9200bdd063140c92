//! When the proxy computes on a page: whether a response may be cached, and
//! whether a request's data should be collected.
use vstd::prelude::*;
use crate::text::{chars_of, contains, contains_seq};
use crate::headers::{Headers, header_or_empty, header_unreadable};

verus! {

/// Whether the cache headers of a response say that a browser may cache it.
pub open spec fn browser_cacheable(cc: Seq<char>, expires: Seq<char>, last_modified: Seq<char>, etag: Seq<
    char,
>) -> bool {
    if contains_seq(cc, "private"@) && contains_seq(cc, "no-store"@) {
        false
    } else if etag.len() > 0 || last_modified.len() > 0 || expires.len() > 0 {
        true
    } else if contains_seq(cc, "public"@) && contains_seq(cc, "max-age=0"@) {
        false
    } else {
        contains_seq(cc, "public"@) || contains_seq(cc, "max-age"@) || contains_seq(cc, "no-cache"@)
    }
}

/// Whether the cache headers of a response say that a CDN or a browser may
/// cache it.
pub open spec fn cdn_or_browser_cacheable(
    cc: Seq<char>,
    surrogate: Seq<char>,
    expires: Seq<char>,
    last_modified: Seq<char>,
    etag: Seq<char>,
) -> bool {
    if contains_seq(surrogate, "private"@) && contains_seq(surrogate, "no-store"@) {
        false
    } else if contains_seq(cc, "private"@) && contains_seq(cc, "no-store"@) {
        false
    } else if etag.len() > 0 || last_modified.len() > 0 || expires.len() > 0 {
        true
    } else if contains_seq(cc, "public"@) && contains_seq(cc, "max-age=0"@) {
        false
    } else if contains_seq(cc, "private"@) && contains_seq(cc, "max-age=0"@) {
        false
    } else {
        true
    }
}

/// The cache headers that `is_cacheable_by_browser` reads are text where they
/// are present.
pub open spec fn browser_headers_readable(h: Seq<(Seq<char>, Seq<char>, bool)>) -> bool {
    !header_unreadable(h, "cache-control"@) && !header_unreadable(h, "expires"@)
        && !header_unreadable(h, "last-modified"@) && !header_unreadable(h, "etag"@)
}

/// The cache headers that `is_cacheable_by_cdn_or_browser` reads are text
/// where they are present.
pub open spec fn cdn_headers_readable(h: Seq<(Seq<char>, Seq<char>, bool)>) -> bool {
    browser_headers_readable(h) && !header_unreadable(h, "surrogate-control"@)
}

/// `browser_cacheable` of the headers of a response.
pub open spec fn browser_cacheable_headers(h: Seq<(Seq<char>, Seq<char>, bool)>) -> bool {
    browser_cacheable(
        header_or_empty(h, "cache-control"@),
        header_or_empty(h, "expires"@),
        header_or_empty(h, "last-modified"@),
        header_or_empty(h, "etag"@),
    )
}

/// `cdn_or_browser_cacheable` of the headers of a response.
pub open spec fn cdn_cacheable_headers(h: Seq<(Seq<char>, Seq<char>, bool)>) -> bool {
    cdn_or_browser_cacheable(
        header_or_empty(h, "cache-control"@),
        header_or_empty(h, "surrogate-control"@),
        header_or_empty(h, "expires"@),
        header_or_empty(h, "last-modified"@),
        header_or_empty(h, "etag"@),
    )
}

/// Whether the response may be cached, by a CDN or a browser when the proxy
/// stands behind a cache, else by a browser.
pub open spec fn cacheable(h: Seq<(Seq<char>, Seq<char>, bool)>, behind_proxy_cache: bool) -> bool {
    if behind_proxy_cache {
        cdn_cacheable_headers(h)
    } else {
        browser_cacheable_headers(h)
    }
}

fn has(hay: &String, needle: &str) -> (r: bool)
    ensures
        r == contains_seq(hay@, needle@),
{
    let h = chars_of(hay.as_str());
    let n = chars_of(needle);
    contains(h.as_slice(), n.as_slice())
}

/// Whether a browser may cache the response, from its `Cache-Control`,
/// `Expires`, `Last-Modified` and `Etag` headers.
pub fn is_cacheable_by_browser(response_headers: &Headers) -> (r: bool)
    requires
        browser_headers_readable(response_headers@),
    ensures
        r == browser_cacheable_headers(response_headers@),
{
    let cc = response_headers.text_or_empty("cache-control");
    let expires = response_headers.text_or_empty("expires");
    let last_modified = response_headers.text_or_empty("last-modified");
    let etag = response_headers.text_or_empty("etag");
    if has(&cc, "private") && has(&cc, "no-store") {
        return false;
    }
    if !etag.as_str().is_empty() || !last_modified.as_str().is_empty() || !expires.as_str().is_empty() {
        return true;
    }
    if has(&cc, "public") && has(&cc, "max-age=0") {
        return false;
    }
    has(&cc, "public") || has(&cc, "max-age") || has(&cc, "no-cache")
}

/// Whether a CDN or a browser may cache the response, from its
/// `Cache-Control`, `Surrogate-Control`, `Expires`, `Last-Modified` and `Etag`
/// headers.
pub fn is_cacheable_by_cdn_or_browser(response_headers: &Headers) -> (r: bool)
    requires
        cdn_headers_readable(response_headers@),
    ensures
        r == cdn_cacheable_headers(response_headers@),
{
    let cc = response_headers.text_or_empty("cache-control");
    let surrogate = response_headers.text_or_empty("surrogate-control");
    let expires = response_headers.text_or_empty("expires");
    let last_modified = response_headers.text_or_empty("last-modified");
    let etag = response_headers.text_or_empty("etag");
    if has(&surrogate, "private") && has(&surrogate, "no-store") {
        return false;
    }
    if has(&cc, "private") && has(&cc, "no-store") {
        return false;
    }
    if !etag.as_str().is_empty() || !last_modified.as_str().is_empty() || !expires.as_str().is_empty() {
        return true;
    }
    if has(&cc, "public") && has(&cc, "max-age=0") {
        return false;
    }
    if has(&cc, "private") && has(&cc, "max-age=0") {
        return false;
    }
    true
}

/// Whether the response may be cached, as the proxy's place in front of or
/// behind a cache decides.
pub fn is_cacheable(response_headers: &Headers, behind_proxy_cache: bool) -> (r: bool)
    requires
        if behind_proxy_cache {
            cdn_headers_readable(response_headers@)
        } else {
            browser_headers_readable(response_headers@)
        },
    ensures
        r == cacheable(response_headers@, behind_proxy_cache),
{
    if behind_proxy_cache {
        return is_cacheable_by_cdn_or_browser(response_headers);
    }
    is_cacheable_by_browser(response_headers)
}

/// Why the proxy does not collect a request's data, if it does not.
pub open spec fn process_refusal(
    query: Seq<char>,
    request: Seq<(Seq<char>, Seq<char>, bool)>,
    response: Seq<(Seq<char>, Seq<char>, bool)>,
    behind_proxy_cache: bool,
) -> Option<Seq<char>> {
    if contains_seq(query, "disableEdgeDataCollection"@) {
        Some("compute-aborted(disableEdgeDataCollection)"@)
    } else if cacheable(response, behind_proxy_cache) {
        Some("compute-aborted(cacheable)"@)
    } else if contains_seq(header_or_empty(request, "purpose"@), "prefetch"@) || contains_seq(
        header_or_empty(request, "sec-purpose"@),
        "prefetch"@,
    ) {
        Some("compute-aborted(prefetch)"@)
    } else {
        None
    }
}

/// Whether the proxy collects the data of a request: not when the query asks
/// it not to, when the response may be cached, or when the request is a
/// prefetch. The error names the reason.
pub fn do_process_payload(
    query: Option<&str>,
    request_headers: &Headers,
    response_headers: &Headers,
    behind_proxy_cache: bool,
) -> (r: Result<bool, &'static str>)
    requires
        if behind_proxy_cache {
            cdn_headers_readable(response_headers@)
        } else {
            browser_headers_readable(response_headers@)
        },
    ensures
        match process_refusal(
            match query {
                Some(q) => q@,
                None => ""@,
            },
            request_headers@,
            response_headers@,
            behind_proxy_cache,
        ) {
            Some(m) => r matches Err(e) && e@ == m,
            None => r == Ok::<bool, &'static str>(true),
        },
{
    let q = match query {
        Some(q) => q,
        None => "",
    };
    let qs = chars_of(q);
    let flag = chars_of("disableEdgeDataCollection");
    if contains(qs.as_slice(), flag.as_slice()) {
        return Err("compute-aborted(disableEdgeDataCollection)");
    }
    if is_cacheable(response_headers, behind_proxy_cache) {
        return Err("compute-aborted(cacheable)");
    }
    let purpose = request_headers.text_or_empty("purpose");
    let sec_purpose = request_headers.text_or_empty("sec-purpose");
    if has(&purpose, "prefetch") || has(&sec_purpose, "prefetch") {
        return Err("compute-aborted(prefetch)");
    }
    Ok(true)
}

/// Why the proxy does not compute on an HTML body, if it does not: the body is
/// larger than `max_size` bytes, or it has no SDK tag.
pub open spec fn html_refusal(body: Seq<char>, body_len: int, max_size: int) -> Option<Seq<char>> {
    if body_len > max_size {
        Some("compute-aborted(decompressed-body-too-large)"@)
    } else if !contains_seq(body, "id=\"__EDGEE_SDK__\""@) {
        Some("compute-aborted(no-sdk)"@)
    } else {
        None
    }
}

/// The checks before the proxy computes on an HTML body.
pub fn check_html_body(body: &str, max_decompressed_body_size: usize) -> (r: Result<(), &'static str>)
    ensures
        match html_refusal(body@, body.len() as int, max_decompressed_body_size as int) {
            Some(m) => r matches Err(e) && e@ == m,
            None => r is Ok,
        },
{
    if body.len() > max_decompressed_body_size {
        return Err("compute-aborted(decompressed-body-too-large)");
    }
    let b = chars_of(body);
    let tag = chars_of("id=\"__EDGEE_SDK__\"");
    if !contains(b.as_slice(), tag.as_slice()) {
        return Err("compute-aborted(no-sdk)");
    }
    Ok(())
}


/// The rules that the cache checks follow: a response marked both `private`
/// and `no-store` is never cacheable; otherwise one with an `Etag`,
/// `Last-Modified` or `Expires` header is; without those, one marked `public`
/// with `max-age=0` is not, nor, behind a cache, one marked `private` with
/// `max-age=0`.
pub proof fn lemma_cache_rules(
    cc: Seq<char>,
    surrogate: Seq<char>,
    expires: Seq<char>,
    last_modified: Seq<char>,
    etag: Seq<char>,
)
    ensures
        contains_seq(cc, "private"@) && contains_seq(cc, "no-store"@) ==> !browser_cacheable(
            cc,
            expires,
            last_modified,
            etag,
        ) && !cdn_or_browser_cacheable(cc, surrogate, expires, last_modified, etag),
        contains_seq(surrogate, "private"@) && contains_seq(surrogate, "no-store"@)
            ==> !cdn_or_browser_cacheable(cc, surrogate, expires, last_modified, etag),
        !(contains_seq(cc, "private"@) && contains_seq(cc, "no-store"@)) && (etag.len() > 0
            || last_modified.len() > 0 || expires.len() > 0) ==> browser_cacheable(
            cc,
            expires,
            last_modified,
            etag,
        ),
        !(contains_seq(cc, "private"@) && contains_seq(cc, "no-store"@)) && !(contains_seq(
            surrogate,
            "private"@,
        ) && contains_seq(surrogate, "no-store"@)) && (etag.len() > 0 || last_modified.len() > 0
            || expires.len() > 0) ==> cdn_or_browser_cacheable(cc, surrogate, expires, last_modified, etag),
        etag.len() == 0 && last_modified.len() == 0 && expires.len() == 0 && contains_seq(
            cc,
            "public"@,
        ) && contains_seq(cc, "max-age=0"@) ==> !browser_cacheable(cc, expires, last_modified, etag)
            && !cdn_or_browser_cacheable(cc, surrogate, expires, last_modified, etag),
        etag.len() == 0 && last_modified.len() == 0 && expires.len() == 0 && contains_seq(
            cc,
            "private"@,
        ) && contains_seq(cc, "max-age=0"@) ==> !cdn_or_browser_cacheable(
            cc,
            surrogate,
            expires,
            last_modified,
            etag,
        ),
{
}


/// Without `Etag`, `Last-Modified` and `Expires`, and unless `Cache-Control`
/// says `private` with `no-store` or `public` with `max-age=0`, a browser may
/// cache a response exactly when its `Cache-Control` says `public`,
/// `max-age` or `no-cache`; behind a cache, a CDN or a browser may cache it
/// unless `Surrogate-Control` says `private` with `no-store` or
/// `Cache-Control` says `private` with `max-age=0`.
pub proof fn lemma_cache_directives(
    cc: Seq<char>,
    surrogate: Seq<char>,
    expires: Seq<char>,
    last_modified: Seq<char>,
    etag: Seq<char>,
)
    requires
        etag.len() == 0 && last_modified.len() == 0 && expires.len() == 0,
        !(contains_seq(cc, "private"@) && contains_seq(cc, "no-store"@)),
        !(contains_seq(cc, "public"@) && contains_seq(cc, "max-age=0"@)),
    ensures
        browser_cacheable(cc, expires, last_modified, etag) <==> (contains_seq(cc, "public"@) || contains_seq(
            cc,
            "max-age"@,
        ) || contains_seq(cc, "no-cache"@)),
        !(contains_seq(surrogate, "private"@) && contains_seq(surrogate, "no-store"@)) && !(contains_seq(
            cc,
            "private"@,
        ) && contains_seq(cc, "max-age=0"@)) ==> cdn_or_browser_cacheable(cc, surrogate, expires, last_modified, etag),
{
}

} // verus!
