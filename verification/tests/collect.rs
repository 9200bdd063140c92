use edgee::collect::{
    prepare_data_collection_payload, add_session, add_more_info_from_html_or_request, add_more_info_from_request,
    preferred_language, get_preferred_language, process_sec_ch_ua, collect_from_html, collect_from_json, add_page_event,
};
use edgee::cookie::EdgeeCookie;
use edgee::headers::Headers;
use edgee::html::Document;
use edgee::payload::{Instant, Payload, Page, Campaign, EventType, Context, DataCollection};

fn headers(pairs: &[(&str, &str)]) -> Headers {
    let mut h = Headers::new();
    for (n, v) in pairs {
        h.insert(n, v);
    }
    h
}

fn doc() -> Document {
    Document {
        data_collection_events: String::new(),
        sdk_full_tag: String::new(),
        sdk_src: String::new(),
        inlined_sdk: String::new(),
        data_layer: String::new(),
        title: "Title &amp; more".to_string(),
        canonical: "/canon".to_string(),
        keywords: " a , b,c ".to_string(),
    }
}

fn prepared() -> Payload {
    prepare_data_collection_payload(Payload::default())
}

fn page(p: &Payload) -> &Page {
    p.data_collection.as_ref().unwrap().context.as_ref().unwrap().page.as_ref().unwrap()
}

#[test]
fn preferred_language_is_the_first_one() {
    assert_eq!(preferred_language("fr-FR,fr;q=0.9,en;q=0.8"), "fr-fr");
    assert_eq!(preferred_language(" ;q=1, EN-GB;q=0.5"), "en-gb");
    assert_eq!(preferred_language(""), "en-us");
    assert_eq!(get_preferred_language(&headers(&[("accept-language", "de")])), "de");
    assert_eq!(get_preferred_language(&headers(&[])), "en-us");
}

#[test]
fn sec_ch_ua_versions_have_four_parts() {
    let h = r#""Chromium";v="112", "Google Chrome";v="112.0.5615.49", "Not:A-Brand";v="99""#;
    assert_eq!(process_sec_ch_ua(h), "Chromium;112.0.0.0|Google Chrome;112.0.5615.49|Not:A-Brand;99.0.0.0");
    assert_eq!(process_sec_ch_ua("nothing"), "");
}

#[test]
fn prepare_creates_the_missing_parts() {
    let p = prepared();
    let ctx = p.data_collection.as_ref().unwrap().context.as_ref().unwrap();
    assert!(ctx.page.is_some() && ctx.user.is_some() && ctx.client.is_some());
    assert!(ctx.campaign.is_none() && ctx.session.is_none());
}

#[test]
fn session_comes_from_the_cookie() {
    let mut c = EdgeeCookie::new_at("visitor".to_string(), Instant { secs: 1000, nanos: 0 });
    c.ps = Some(Instant { secs: 10, nanos: 0 });
    c.sz = Some("800x600x1".to_string());
    let p = add_session(prepared(), &c);
    let ctx = p.data_collection.as_ref().unwrap().context.as_ref().unwrap();
    let s = ctx.session.as_ref().unwrap();
    assert_eq!(s.session_id, "1000");
    assert_eq!(s.previous_session_id.as_deref(), Some("10"));
    assert!(s.session_start);
    assert_eq!(ctx.user.as_ref().unwrap().edgee_id, "visitor");
    let cl = ctx.client.as_ref().unwrap();
    assert_eq!((cl.screen_width, cl.screen_height, cl.screen_density), (Some(800), Some(600), Some(1)));
}

#[test]
fn page_info_from_document_and_request() {
    let p = add_more_info_from_html_or_request(&doc(), prepared(), "https", "example.com", "/a", Some("q=1"));
    let pg = page(&p);
    assert_eq!(pg.url.as_deref(), Some("https://example.com/canon"));
    assert_eq!(pg.path.as_deref(), Some("/canon"));
    assert_eq!(pg.search.as_deref(), Some("?q=1"));
    assert_eq!(pg.title.as_deref(), Some("Title &amp; more"));
    assert_eq!(pg.keywords.as_ref().unwrap(), &vec!["a".to_string(), "b".to_string(), "c".to_string()]);
}

#[test]
fn page_info_prefers_the_data_layer() {
    let mut p = prepared();
    {
        let pg = p.data_collection.as_mut().unwrap().context.as_mut().unwrap().page.as_mut().unwrap();
        pg.url = Some("https://x.io/a?b=1&amp;c=2".to_string());
        pg.search = Some("b=1".to_string());
        pg.title = Some("A &lt; B".to_string());
    }
    let mut d = doc();
    d.canonical = String::new();
    let p = add_more_info_from_html_or_request(&d, p, "http", "h", "/req", None);
    let pg = page(&p);
    assert_eq!(pg.url.as_deref(), Some("https://x.io/a?b=1&c=2"));
    assert_eq!(pg.path.as_deref(), Some("/req"));
    assert_eq!(pg.search.as_deref(), Some("?b=1"));
    assert_eq!(pg.title.as_deref(), Some("A < B"));
}

#[test]
fn request_info_fills_the_client_and_campaign() {
    let h = headers(&[
        ("referer", "https://ref.example/"),
        ("user-agent", "UA"),
        ("accept-language", "it"),
        ("sec-ch-ua-platform", "\"macOS\""),
        ("sec-ch-ua-mobile", "?0"),
    ]);
    let p = add_more_info_from_request(&h, prepared(), Some("utm_source=news&utm_campaign=spring&utm_source=mail"), "1.2.3.4");
    let ctx = p.data_collection.as_ref().unwrap().context.as_ref().unwrap();
    let cl = ctx.client.as_ref().unwrap();
    assert_eq!(cl.user_agent.as_deref(), Some("UA"));
    assert_eq!(cl.ip.as_deref(), Some("1.2.3.4"));
    assert_eq!(cl.locale.as_deref(), Some("it"));
    assert_eq!(cl.os_name.as_deref(), Some("macOS"));
    assert_eq!(cl.user_agent_mobile.as_deref(), Some("0"));
    assert_eq!(page(&p).referrer.as_deref(), Some("https://ref.example/"));
    let c: &Campaign = ctx.campaign.as_ref().unwrap();
    assert_eq!(c.name.as_deref(), Some("spring"));
    assert_eq!(c.source.as_deref(), Some("mail"));
    assert!(c.medium.is_none());
}

#[test]
fn no_campaign_without_utm_parameters() {
    let p = add_more_info_from_request(&headers(&[]), prepared(), Some("a=1"), "ip");
    let ctx = p.data_collection.as_ref().unwrap().context.as_ref().unwrap();
    assert!(ctx.campaign.is_none());
    assert!(page(&p).referrer.is_none());
}

#[test]
fn whole_pass_and_page_event() {
    let c = EdgeeCookie::new_at("v".to_string(), Instant { secs: 7, nanos: 0 });
    let h = headers(&[("user-agent", "UA")]);
    let p = collect_from_html(&doc(), Payload::default(), &c, &h, "https", "example.com", "/", None, "ip");
    assert_eq!(page(&p).url.as_deref(), Some("https://example.com/canon"));
    let p = add_page_event(p, "uuid-1".to_string(), Instant { secs: 8, nanos: 0 });
    let events = p.data_collection.as_ref().unwrap().events.as_ref().unwrap();
    assert_eq!(events.len(), 1);
    assert_eq!(events[0].event_type, EventType::Page);
    assert_eq!(events[0].uuid, "uuid-1");
    let ectx = events[0].context.as_ref().unwrap();
    let pctx = p.data_collection.as_ref().unwrap().context.as_ref().unwrap();
    assert_eq!(ectx.page.as_ref().unwrap().url.as_deref(), Some("https://example.com/canon"));
    assert_eq!(ectx.page.as_ref().unwrap().title, pctx.page.as_ref().unwrap().title);
    assert_eq!(ectx.user.as_ref().unwrap().edgee_id, pctx.user.as_ref().unwrap().edgee_id);
    assert_eq!(ectx.client.as_ref().unwrap().user_agent.as_deref(), Some("UA"));
    assert_eq!(ectx.session.as_ref().unwrap().session_id, pctx.session.as_ref().unwrap().session_id);
    let q = collect_from_json(Payload::default(), &c, &h, None, "ip");
    assert!(q.data_collection.unwrap().context.unwrap().session.is_some());
}

fn page_only() -> Payload {
    let context = Context { page: Some(Page::default()), user: None, client: None, campaign: None, session: None };
    Payload { data_collection: Some(DataCollection { events: None, context: Some(context), components: None }) }
}

#[test]
fn request_info_without_user_or_client() {
    let h = headers(&[("user-agent", "UA/1.0"), ("accept-language", "FR-fr,en;q=0.8"), ("sec-ch-ua-mobile", "?0")]);
    let p = add_more_info_from_request(&h, page_only(), Some("utm_source=news"), "203.0.113.7");
    let c = p.data_collection.unwrap().context.unwrap();
    assert!(c.user.is_none());
    let cl = c.client.unwrap();
    assert_eq!(c.page.unwrap().referrer, None);
    assert_eq!(cl.user_agent.as_deref(), Some("UA/1.0"));
    assert_eq!(cl.locale.as_deref(), Some("fr-fr"));
    assert_eq!(cl.user_agent_mobile.as_deref(), Some("0"));
    assert_eq!(cl.ip.as_deref(), Some("203.0.113.7"));
    assert_eq!(cl.os_name, None);
    let campaign = c.campaign.unwrap();
    assert_eq!(campaign.source.as_deref(), Some("news"));
    assert_eq!(campaign.name, None);
}

#[test]
fn page_info_without_user_or_client() {
    let p = add_more_info_from_html_or_request(&doc(), page_only(), "https", "example.com", "/a", Some("x=1"));
    let c = p.data_collection.unwrap().context.unwrap();
    assert!(c.user.is_none() && c.client.is_none());
    let pg = c.page.unwrap();
    assert_eq!(pg.url.as_deref(), Some("https://example.com/canon"));
    assert_eq!(pg.search.as_deref(), Some("?x=1"));
}
