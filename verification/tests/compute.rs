use edgee::compute::{is_cacheable_by_browser, is_cacheable_by_cdn_or_browser, is_cacheable, do_process_payload, check_html_body};
use edgee::headers::Headers;

fn headers(pairs: &[(&str, &str)]) -> Headers {
    let mut h = Headers::new();
    for (n, v) in pairs {
        h.insert(n, v);
    }
    h
}

#[test]
fn browser_cacheability() {
    assert!(!is_cacheable_by_browser(&headers(&[])));
    assert!(is_cacheable_by_browser(&headers(&[("etag", "\"x\"")])));
    assert!(!is_cacheable_by_browser(&headers(&[("cache-control", "private, no-store"), ("etag", "x")])));
    assert!(!is_cacheable_by_browser(&headers(&[("cache-control", "public, max-age=0")])));
    assert!(is_cacheable_by_browser(&headers(&[("cache-control", "max-age=60")])));
    assert!(is_cacheable_by_browser(&headers(&[("cache-control", "no-cache")])));
}

#[test]
fn cdn_cacheability() {
    assert!(is_cacheable_by_cdn_or_browser(&headers(&[])));
    assert!(!is_cacheable_by_cdn_or_browser(&headers(&[("surrogate-control", "private, no-store")])));
    assert!(!is_cacheable_by_cdn_or_browser(&headers(&[("cache-control", "private, max-age=0")])));
    assert!(is_cacheable(&headers(&[]), true));
    assert!(!is_cacheable(&headers(&[]), false));
}

#[test]
fn data_collection_refusals() {
    let none = headers(&[]);
    assert_eq!(do_process_payload(Some("a=1&disableEdgeDataCollection"), &none, &none, false), Err("compute-aborted(disableEdgeDataCollection)"));
    assert_eq!(do_process_payload(None, &none, &headers(&[("expires", "tomorrow")]), false), Err("compute-aborted(cacheable)"));
    assert_eq!(do_process_payload(None, &headers(&[("sec-purpose", "prefetch;prerender")]), &none, false), Err("compute-aborted(prefetch)"));
    assert_eq!(do_process_payload(Some("x=1"), &none, &none, false), Ok(true));
}

#[test]
fn html_body_checks() {
    assert_eq!(check_html_body("<script id=\"__EDGEE_SDK__\"></script>", 100), Ok(()));
    assert_eq!(check_html_body("<p>no sdk</p>", 100), Err("compute-aborted(no-sdk)"));
    assert_eq!(check_html_body("0123456789", 5), Err("compute-aborted(decompressed-body-too-large)"));
}
