use edgee::request::{IncomingContext, get_real_ip, is_private_address};
use edgee::headers::Headers;

fn headers(pairs: &[(&str, &str)]) -> Headers {
    let mut h = Headers::new();
    for (n, v) in pairs {
        h.insert(n, v);
    }
    h
}

#[test]
fn private_addresses() {
    assert!(is_private_address("10.1.2.3"));
    assert!(is_private_address("192.168.0.1"));
    assert!(is_private_address("::1"));
    assert!(!is_private_address("8.8.8.8"));
    assert!(!is_private_address("not an ip"));
}

#[test]
fn real_ip_prefers_cdn_then_forwarded_then_connection() {
    assert_eq!(get_real_ip(&headers(&[("cf-connecting-ip", "1.1.1.1"), ("x-forwarded-for", "2.2.2.2")]), "9.9.9.9:1"), "1.1.1.1");
    assert_eq!(get_real_ip(&headers(&[("x-forwarded-for", "10.0.0.1, 3.3.3.3 , 4.4.4.4")]), "9.9.9.9:1"), "3.3.3.3");
    assert_eq!(get_real_ip(&headers(&[("x-forwarded-for", "10.0.0.1"), ("forwarded", "5.5.5.5")]), "9.9.9.9:1"), "5.5.5.5");
    assert_eq!(get_real_ip(&headers(&[]), "9.9.9.9:1"), "9.9.9.9:1");
}

#[test]
fn incoming_context_reads_the_request() {
    let h = headers(&[("host", "shop.example.com:443"), ("x-forwarded-proto", "https"), ("cookie", "a=1; _edgeedebug=true")]);
    let c = IncomingContext::new(&h, None, "http", "7.7.7.7:5");
    assert_eq!(c.host, "shop.example.com");
    assert!(c.is_https);
    assert!(c.is_debug_mode);
    assert_eq!(c.client_ip, "7.7.7.7:5");
    let c = IncomingContext::new(&headers(&[]), Some("b.io"), "http", "1.2.3.4:1");
    assert_eq!(c.host, "b.io");
    assert!(!c.is_https && !c.is_debug_mode);
}
