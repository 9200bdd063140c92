use edgee::proxy::{set_edgee_header, set_duration_headers, do_only_proxy, route_request, Route, inject_sdk, extract_host, parse_host, custom_event, is_status_request, forward_headers, parse_request, DomainAction};
use edgee::headers::{HeaderEntry, Headers};
use edgee::html::Document;
use edgee::request::UriParts;
use edgee::path::generate;

fn headers(pairs: &[(&str, &str)]) -> Headers {
    let mut h = Headers::new();
    for (n, v) in pairs {
        h.insert(n, v);
    }
    h
}

#[test]
fn edgee_and_duration_headers() {
    let mut h = Headers::new();
    set_edgee_header(&mut h, "compute");
    assert_eq!(h.text("x-edgee"), Some("compute".to_string()));
    set_duration_headers(&mut h, true, 120, Some(20));
    assert_eq!(h.text("x-edgee-full-duration"), Some("120ms".to_string()));
    assert_eq!(h.text("x-edgee-compute-duration"), Some("20ms".to_string()));
    assert_eq!(h.text("x-edgee-proxy-duration"), Some("100ms".to_string()));
    let mut g = Headers::new();
    set_duration_headers(&mut g, false, 120, None);
    assert!(g.entries.is_empty());
}

#[test]
fn only_proxy_reasons() {
    let html = headers(&[("content-type", "text/html; charset=utf-8")]);
    assert_eq!(do_only_proxy("GET", 200, &html, 13, true, 1000), Err("proxy-only(conf)"));
    assert_eq!(do_only_proxy("HEAD", 200, &html, 13, false, 1000), Err("proxy-only(method)"));
    assert_eq!(do_only_proxy("GET", 301, &html, 13, false, 1000), Err("proxy-only(3xx)"));
    assert_eq!(do_only_proxy("GET", 101, &html, 13, false, 1000), Err("proxy-only(1xx)"));
    assert_eq!(do_only_proxy("GET", 200, &headers(&[]), 13, false, 1000), Err("proxy-only(no-content-type)"));
    assert_eq!(do_only_proxy("GET", 200, &headers(&[("content-type", "application/json")]), 13, false, 1000), Err("proxy-only(non-html)"));
    assert_eq!(do_only_proxy("GET", 200, &html, 0, false, 1000), Err("proxy-only(no-body)"));
    assert_eq!(do_only_proxy("GET", 200, &html, 13, false, 1000), Ok(false));
    let zstd = headers(&[("content-type", "text/html"), ("content-encoding", "zstd")]);
    assert_eq!(do_only_proxy("GET", 200, &zstd, 13, false, 1000), Err("proxy-only(encoding-not-supported)"));
    let gzip = headers(&[("content-type", "text/html"), ("content-encoding", "gzip")]);
    assert_eq!(do_only_proxy("GET", 200, &gzip, 1000, false, 1000), Ok(false));
    assert_eq!(do_only_proxy("GET", 200, &gzip, 1001, false, 1000), Err("proxy-only(compressed-body-too-large)"));
    let identity = headers(&[("content-type", "text/html"), ("content-encoding", "identity")]);
    assert_eq!(do_only_proxy("GET", 200, &identity, 5000, false, 1000), Ok(false));
}

#[test]
fn routes_of_requests() {
    assert_eq!(route_request("GET", "/", "example.com", "", false, true), Route::RedirectToHttps);
    assert_eq!(route_request("GET", "/_edgee/sdk.js", "example.com", "", true, true), Route::Sdk);
    assert_eq!(route_request("GET", "/_edgee/libs/edgee.v1.1.0.js", "example.com", "", true, false), Route::Sdk);
    assert_eq!(route_request("POST", "/_edgee/event", "example.com", "application/json", true, false), Route::ClientEvent);
    let p = generate("example.com");
    assert_eq!(route_request("POST", &p, "example.com", "application/json", true, false), Route::ClientEvent);
    assert_eq!(route_request("OPTIONS", "/_edgee/csevent", "example.com", "", true, false), Route::ThirdPartyOptions);
    assert_eq!(route_request("POST", "/_edgee/csevent", "example.com", "application/json", true, false), Route::ThirdPartyEvent);
    assert_eq!(route_request("GET", "/page", "example.com", "", true, false), Route::Backend);
}

#[test]
fn sdk_tag_is_rewritten() {
    let d = Document {
        data_collection_events: String::new(),
        sdk_full_tag: "<script id=\"__EDGEE_SDK__\" src=\"/s.js\"></script>".to_string(),
        sdk_src: "/s.js".to_string(),
        inlined_sdk: String::new(),
        data_layer: "{}".to_string(),
        title: String::new(),
        canonical: String::new(),
        keywords: String::new(),
    };
    let body = format!("<head>{}</head>", d.sdk_full_tag);
    let out = inject_sdk(&body, &d, "/p", false);
    assert_eq!(out, "<head><script data-client-side=\"true\" data-event-path=\"/p\" async src=\"/s.js\"></script></head>");
    let mut inl = d.clone_for_test();
    inl.inlined_sdk = "X".to_string();
    inl.data_layer = String::new();
    let out = inject_sdk(&body, &inl, "/p", true);
    assert_eq!(out, "<head><script id=\"__EDGEE_DATA_LAYER__\" type=\"application/json\">{}</script><script data-client-side=\"true\" data-event-path=\"/p\">X</script></head>");
}

trait CloneForTest { fn clone_for_test(&self) -> Self; }
impl CloneForTest for Document {
    fn clone_for_test(&self) -> Self {
        Document {
            data_collection_events: self.data_collection_events.clone(),
            sdk_full_tag: self.sdk_full_tag.clone(),
            sdk_src: self.sdk_src.clone(),
            inlined_sdk: self.inlined_sdk.clone(),
            data_layer: self.data_layer.clone(),
            title: self.title.clone(),
            canonical: self.canonical.clone(),
            keywords: self.keywords.clone(),
        }
    }
}

#[test]
fn hosts_and_ports() {
    assert_eq!(extract_host(&headers(&[("host", "a.com:8080")]), Some("b.com")), Some("a.com:8080".to_string()));
    assert_eq!(extract_host(&headers(&[]), Some("b.com")), Some("b.com".to_string()));
    assert_eq!(extract_host(&headers(&[]), None), None);
    assert_eq!(parse_host("backend:8443", 443), ("backend".to_string(), 8443));
    assert_eq!(parse_host("backend", 80), ("backend".to_string(), 80));
    assert_eq!(parse_host("backend:x", 443), ("backend".to_string(), 443));
    assert_eq!(custom_event("POST", "/e"), Some("/e".to_string()));
    assert_eq!(custom_event("GET", "/e"), None);
    assert!(is_status_request("GET", "/_edgee/status"));
    assert!(!is_status_request("POST", "/_edgee/status"));
}

fn entry(name: &str, value: &str) -> HeaderEntry {
    HeaderEntry { name: name.to_string(), value: value.to_string(), text: true }
}

#[test]
fn forwarded_headers_extend_and_rebuild() {
    let mut h = Headers::new();
    h.entries.push(entry("x-forwarded-for", "1.1.1.1"));
    h.entries.push(entry("cookie", "a = 1; b=2"));
    h.entries.push(entry("cookie", "c=3"));
    h.entries.push(entry("accept", "text/html"));
    h.entries.push(entry("host", "example.com"));
    let r = forward_headers(&h, "2.2.2.2", "https", "example.com", "backend:8080");
    assert_eq!(r.text("x-forwarded-for"), Some("1.1.1.1, 2.2.2.2".to_string()));
    assert_eq!(r.text("x-forwarded-proto"), Some("https".to_string()));
    assert_eq!(r.text("x-forwarded-host"), Some("example.com".to_string()));
    assert_eq!(r.text("cookie"), Some("a=1; b=2; c=3; ".to_string()));
    assert_eq!(r.text("accept"), Some("text/html".to_string()));
    assert_eq!(r.text("host"), Some("backend:8080".to_string()));
    assert_eq!(r.entries.iter().filter(|e| e.name == "cookie").count(), 1);
    assert_eq!(r.entries.len(), 6);
}

#[test]
fn forwarded_headers_keep_given_proto_and_host() {
    let mut h = Headers::new();
    h.entries.push(entry("x-forwarded-proto", "http"));
    h.entries.push(entry("x-forwarded-host", "front.example"));
    let r = forward_headers(&h, "10.0.0.1", "https", "example.com", "backend");
    assert_eq!(r.text("x-forwarded-for"), Some("10.0.0.1".to_string()));
    assert_eq!(r.text("x-forwarded-proto"), Some("http".to_string()));
    assert_eq!(r.text("x-forwarded-host"), Some("front.example".to_string()));
    assert_eq!(r.text("cookie"), None);
    assert_eq!(r.text("host"), Some("backend".to_string()));
}

fn uri(scheme: &str, authority: &str, pq: &str) -> UriParts {
    UriParts { scheme: Some(scheme.to_string()), authority: Some(authority.to_string()), path_and_query: Some(pq.to_string()) }
}

#[test]
fn domain_requests_are_sorted() {
    let h = headers(&[("host", "example.com")]);
    let status = parse_request("GET", &uri("http", "example.com", "/_edgee/status?x=1"), &h, None, true);
    assert!(matches!(status, DomainAction::ShowStatus));
    let forced = parse_request("GET", &uri("http", "example.com", "/a?b=1"), &h, None, true);
    assert!(matches!(forced, DomainAction::ForceHttps(ref u) if u == "https://example.com/a?b=1"));
    let event = parse_request("POST", &uri("http", "example.com", "/collect?b=1"), &h, None, false);
    assert!(matches!(event, DomainAction::CustomEvent(ref p) if p == "/collect"));
    let http = parse_request("GET", &uri("http", "example.com", "/page"), &h, None, false);
    assert!(matches!(http, DomainAction::ForwardHttp(ref host) if host == "example.com"));
    let https = parse_request("GET", &uri("https", "u.example", "/page"), &Headers::new(), Some("u.example"), true);
    assert!(matches!(https, DomainAction::ForwardHttps(ref host) if host == "u.example"));
}
