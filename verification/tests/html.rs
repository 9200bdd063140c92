use edgee::html::{parse_html, get_sdk_from_url, sdk_bundle, data_layer_text, extract_href_value, extract_src_value, extract_content_value, SdkBundles};

fn bundles() -> SdkBundles {
    SdkBundles { latest: "console.log('latest')".to_string(), v1_1_0: "console.log('v1.1.0')".to_string() }
}

#[test]
fn extract_attribute_values() {
    assert_eq!(extract_href_value(r#"<a href="https://example.com">Example</a>"#), Some("https://example.com".to_string()));
    assert_eq!(extract_src_value(r#"<img src="https://example.com/image.jpg">"#), Some("https://example.com/image.jpg".to_string()));
    assert_eq!(extract_content_value(r#"<meta name="description" content="This is an example.">"#), Some("This is an example.".to_string()));
    assert_eq!(extract_href_value("<a>"), None);
}

#[test]
fn sdk_from_url_by_version() {
    let b = bundles();
    assert_eq!(sdk_bundle("https://x/sdk.js", &b), Ok("console.log('latest')".to_string()));
    assert_eq!(sdk_bundle("/_edgee/libs/edgee.v1.1.0.js", &b), Ok("console.log('v1.1.0')".to_string()));
    assert_eq!(sdk_bundle("/_edgee/libs/edgee.v9.9.9.js", &b), Err("Failed to read the JS SDK file"));
    assert_eq!(sdk_bundle("/nothing", &b), Err("Failed to read the JS SDK file"));
    assert_eq!(get_sdk_from_url("https://x/sdk.js", &b), Ok("<script>console.log('latest')</script>".to_string()));
    assert_eq!(get_sdk_from_url("/_edgee/libs/edgee.v1.1.0.js", &b), Ok("<script>console.log('v1.1.0')</script>".to_string()));
    assert!(get_sdk_from_url("https://example.com/sdk/v1.1.0.js", &b).is_ok());
    assert_eq!(get_sdk_from_url("/_edgee/libs/edgee.v9.9.9.js", &b), Err("Failed to read the JS SDK file"));
    assert_eq!(get_sdk_from_url("/nothing", &b), Err("Failed to read the JS SDK file"));
}

#[test]
fn parse_html_finds_the_page_fields() {
    let html = r#"<html><head><title>My page</title>
<link rel="canonical" href="/canonical/path">
<meta name="keywords" content="a, b,c">
<!-- <title>not this</title> -->
<script id="__EDGEE_DATA_LAYER__" type="application/json">{"x":1}</script>
<script id="__EDGEE_SDK__" src="/_edgee/libs/edgee.v1.1.0.js"></script>
</head></html>"#;
    let d = parse_html(html, &bundles());
    assert_eq!(d.title, "My page");
    assert_eq!(d.canonical, "/canonical/path");
    assert_eq!(d.keywords, "a, b,c");
    assert_eq!(d.data_layer, "{\"x\":1}");
    assert_eq!(d.sdk_src, "/_edgee/libs/edgee.v1.1.0.js");
    assert_eq!(d.inlined_sdk, "console.log('v1.1.0')");
    assert_eq!(d.sdk_full_tag, r#"<script id="__EDGEE_SDK__" src="/_edgee/libs/edgee.v1.1.0.js"></script>"#);
}

#[test]
fn parse_html_keeps_sdk_not_inlined_when_asked() {
    let html = r#"<script id="__EDGEE_SDK__" data-inline="false" src="/_edgee/sdk.js"></script>"#;
    let d = parse_html(html, &bundles());
    assert_eq!(d.sdk_src, "/_edgee/sdk.js");
    assert_eq!(d.inlined_sdk, "");
}

#[test]
fn data_layer_comments_are_stripped() {
    let mut d = parse_html("<html></html>", &bundles());
    assert_eq!(data_layer_text(&d), None);
    d.data_layer = "{\"a\": 1 /* note */} // end".to_string();
    let t = data_layer_text(&d).unwrap();
    assert_eq!(t, "{\"a\": 1           }       ");
    assert_eq!(serde_json::from_str::<serde_json::Value>(&t).unwrap()["a"], 1);
    d.data_layer = "{\"a\": \"open".to_string();
    assert_eq!(data_layer_text(&d), None);
}
