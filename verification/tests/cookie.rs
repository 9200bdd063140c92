use edgee::cookie::{EdgeeCookie, get_cookie, get_cookie_from_query_or_none, has_cookie, get_root_domain, set_cookie, refresh, fresh};
use edgee::crypto::{encrypt, decrypt, decrypt_checked, DecryptError};
use edgee::headers::Headers;
use edgee::payload::{Instant, Payload, DataCollection, Context, Client};

fn headers(pairs: &[(&str, &str)]) -> Headers {
    let mut h = Headers::new();
    for (n, v) in pairs {
        h.entries.push(edgee::headers::HeaderEntry { name: n.to_string(), value: v.to_string(), text: v.is_ascii() });
    }
    h
}

#[test]
fn cookie_is_found_in_cookie_headers() {
    let h = headers(&[("cookie", "a=1; edgee=abc ; b=2"), ("cookie", "edgee=second")]);
    assert_eq!(get_cookie(&h, "edgee", "/", "GET", ""), Some("abc".to_string()));
    assert!(has_cookie(&h, "edgee", "/", "GET", ""));
    let h2 = headers(&[("cookie", "edgee=1; edgee=2")]);
    assert_eq!(get_cookie(&h2, "edgee", "/", "GET", ""), Some("2".to_string()));
    let h3 = headers(&[("cookie", "a=b=c; x=1")]);
    assert_eq!(get_cookie(&h3, "a", "/", "GET", ""), None);
}

#[test]
fn cookie_falls_back_to_third_party_query() {
    let h = headers(&[]);
    assert_eq!(get_cookie(&h, "edgee", "/_edgee/csevent", "POST", "x=1&e=tok&y=2"), Some("tok".to_string()));
    assert_eq!(get_cookie_from_query_or_none("/_edgee/csevent", "GET", "e=tok"), None);
    assert_eq!(get_cookie_from_query_or_none("/other", "POST", "e=tok"), None);
    assert!(!has_cookie(&h, "edgee", "/", "GET", "e=tok"));
}

fn at(secs: i64) -> Instant { Instant { secs, nanos: 0 } }

#[test]
fn session_goes_on_within_thirty_minutes() {
    let mut c = EdgeeCookie::new_at("id".to_string(), at(1000));
    c.update_session(at(1000 + 29 * 60));
    assert_eq!(c.ls, at(1000 + 29 * 60));
    assert_eq!(c.ss, at(1000));
    assert_eq!(c.sc, 1);
    assert_eq!(c.ps, None);
}

#[test]
fn new_session_after_thirty_minutes() {
    let mut c = EdgeeCookie::new_at("id".to_string(), at(1000));
    c.update_session(at(1000 + 30 * 60));
    assert_eq!(c.ss, at(1000 + 30 * 60));
    assert_eq!(c.ls, at(1000 + 30 * 60));
    assert_eq!(c.ps, Some(at(1000)));
    assert_eq!(c.sc, 2);
}

fn payload_with_client(client: Client) -> Payload {
    Payload { data_collection: Some(DataCollection { events: None, context: Some(Context { page: None, user: None, client: Some(client), campaign: None, session: None }), components: None }) }
}

#[test]
fn cookie_records_screen_and_hints() {
    let mut client = Client::default();
    client.screen_width = Some(1920);
    client.screen_height = Some(1080);
    client.screen_density = Some(2);
    client.timezone = Some("Europe/Paris".to_string());
    let p = payload_with_client(client);
    let c = fresh("id".to_string(), &p, at(5));
    assert_eq!(c.sz.as_deref(), Some("1920x1080x2"));
    assert_eq!(c.tz.as_deref(), Some("Europe/Paris"));
    let mut c2 = EdgeeCookie::new_at("id".to_string(), at(5));
    c2.sz = Some("1x1x1".to_string());
    let mut partial = Client::default();
    partial.screen_width = Some(3);
    refresh(&mut c2, &payload_with_client(partial), at(6));
    assert_eq!(c2.sz.as_deref(), Some("1x1x1"));
    assert_eq!(c2.ls, at(6));
}

#[test]
fn new_cookie_starts_a_session() {
    let c = EdgeeCookie::new();
    assert_eq!(c.sc, 1);
    assert_eq!(c.fs, c.ss);
    assert_eq!(c.id.len(), 36);
}

#[test]
fn root_domain_is_the_registrable_part() {
    assert_eq!(get_root_domain("www.example.co.uk"), "example.co.uk");
    assert_eq!(get_root_domain("a.b.example.com"), "example.com");
    assert_eq!(get_root_domain("localhost"), "localhost");
}

#[test]
fn set_cookie_for_a_year_on_the_root_domain() {
    let text = set_cookie("v", "www.example.com", "edgee", true, at(1_700_000_000));
    assert!(text.starts_with("edgee=v"));
    assert!(text.contains("Domain=example.com"));
    assert!(text.contains("Secure"));
    assert!(text.contains("SameSite=Lax"));
    assert!(text.contains("Path=/"));
    assert!(text.contains("2024"));
}

const KEY: &str = "_key.edgee.cloud";
const IV: &str = "__iv.edgee.cloud";

#[test]
fn decrypt_reads_back_what_encrypt_wrote() {
    let e = encrypt("{\"id\":\"x\"}", KEY, IV).unwrap();
    assert!(e.chars().all(|c| c.is_ascii_hexdigit() && !c.is_ascii_uppercase()));
    assert_eq!(e.len(), 32);
    assert_eq!(decrypt(&e, KEY, IV), Ok("{\"id\":\"x\"}".to_string()));
    assert_eq!(decrypt_checked(&e, KEY, IV), Some(Ok("{\"id\":\"x\"}".to_string())));
}

#[test]
fn crypto_errors() {
    assert!(encrypt("", KEY, IV).is_err());
    assert_eq!(decrypt("", KEY, IV), Err(DecryptError::Empty));
    assert_eq!(decrypt("zz", KEY, IV), Err(DecryptError::InvalidHex));
    assert_eq!(decrypt("abc", KEY, IV), Err(DecryptError::InvalidHex));
    let e = encrypt("{}", KEY, IV).unwrap();
    assert_eq!(decrypt(&e[..30], KEY, IV), Err(DecryptError::Failed));
    assert_eq!(DecryptError::InvalidHex.message(), "Invalid hex");
    assert_eq!(DecryptError::Empty.message(), "Empty string");
    assert_eq!(DecryptError::Failed.message(), "Failed to decrypt");
}

#[test]
fn new_cookie_id_is_a_v4_uuid() {
    for _ in 0..20 {
        let c = EdgeeCookie::new();
        let id: Vec<char> = c.id.chars().collect();
        assert_eq!(id.len(), 36);
        for (i, ch) in id.iter().enumerate() {
            match i {
                8 | 13 | 18 | 23 => assert_eq!(*ch, '-'),
                14 => assert_eq!(*ch, '4'),
                19 => assert!(matches!(ch, '8' | '9' | 'a' | 'b')),
                _ => assert!(ch.is_ascii_digit() || ('a'..='f').contains(ch)),
            }
        }
    }
}

#[test]
fn every_client_hint_is_recorded() {
    let mut cl = Client::default();
    cl.user_agent_architecture = Some("arm".to_string());
    cl.user_agent_bitness = Some("64".to_string());
    cl.user_agent_model = Some("Pixel".to_string());
    cl.os_version = Some("14".to_string());
    cl.user_agent_full_version_list = Some("A;1".to_string());
    cl.timezone = Some("Europe/Paris".to_string());
    let now = Instant { secs: 100, nanos: 0 };
    let c = fresh("id".to_string(), &payload_with_client(cl), now);
    assert_eq!(
        (c.uaa.as_deref(), c.uab.as_deref(), c.uam.as_deref(), c.uapv.as_deref(), c.uafvl.as_deref(), c.tz.as_deref()),
        (Some("arm"), Some("64"), Some("Pixel"), Some("14"), Some("A;1"), Some("Europe/Paris"))
    );
    let none = fresh("id".to_string(), &Payload::default(), now);
    assert!(none.uaa.is_none() && none.uab.is_none() && none.tz.is_none() && none.uafvl.is_none());
    let mut later = c.clone();
    let mut cl2 = Client::default();
    cl2.user_agent_bitness = Some("32".to_string());
    refresh(&mut later, &payload_with_client(cl2), Instant { secs: 101, nanos: 0 });
    assert_eq!((later.uab.as_deref(), later.uaa.as_deref(), later.uafvl.as_deref()), (Some("32"), Some("arm"), Some("A;1")));
}

#[test]
fn a_new_session_starts_after_thirty_minutes() {
    let c = EdgeeCookie::new_at("id".to_string(), Instant { secs: 1000, nanos: 0 });
    assert!(!c.starts_new_session(Instant { secs: 1000 + 1799, nanos: 999_999_999 }));
    assert!(c.starts_new_session(Instant { secs: 1000 + 1800, nanos: 0 }));
}
