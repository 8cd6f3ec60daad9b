use matrix_sdk_rtc_livekit::details::{
    details_of_payload, extract_string, fetch_sfu_token, resolve_connection_details,
    LiveKitConnectionDetails, LiveKitDetailsError, OpenIdToken, ResolveStep, ServiceDiscovery,
    SfuLookup,
};
use matrix_sdk_rtc_livekit::service_url::{
    ensure_access_token_query, form_encoded_length, has_room, names_access_token,
};
use serde_json::Value;

fn json(text: &str) -> Value {
    serde_json::from_str(text).unwrap()
}

fn details(service_url: &str, token: &str) -> LiveKitConnectionDetails {
    LiveKitConnectionDetails { service_url: service_url.to_owned(), token: token.to_owned() }
}

fn openid_token() -> OpenIdToken {
    OpenIdToken {
        access_token: "SECRET".to_owned(),
        expires_in: 3600,
        matrix_server_name: "example.org".to_owned(),
        token_type: "Bearer".to_owned(),
    }
}

#[test]
fn token_is_appended_to_the_service_url() {
    let url = details("wss://sfu.example.org", "abc").authenticated_service_url().unwrap();
    assert_eq!(url, "wss://sfu.example.org/?access_token=abc");
}

#[test]
fn token_is_appended_after_other_pairs_and_before_the_fragment() {
    let url = details("wss://sfu.example.org/rtc?a=1#top", "a b&c=d")
        .authenticated_service_url()
        .unwrap();
    assert_eq!(url, "wss://sfu.example.org/rtc?a=1&access_token=a+b%26c%3Dd#top");
}

#[test]
fn token_that_is_there_stays() {
    let url = details("wss://sfu.example.org/?access_token=old", "new")
        .authenticated_service_url()
        .unwrap();
    assert_eq!(url, "wss://sfu.example.org/?access_token=old");
}

#[test]
fn encoded_name_of_the_token_counts() {
    let url = ensure_access_token_query("wss://h/?access%5Ftoken=old", "new").unwrap();
    assert_eq!(url, "wss://h/?access%5Ftoken=old");
}

#[test]
fn token_is_added_once() {
    let once = ensure_access_token_query("HTTPS://Example.org:443/x", "one").unwrap();
    assert_eq!(once, "https://example.org/x?access_token=one");
    assert_eq!(ensure_access_token_query(&once, "two").unwrap(), once);
}

#[test]
fn url_that_reads_differently_again_is_normalized_again() {
    let once = ensure_access_token_query("file://h//C:/x", "one").unwrap();
    assert_eq!(once, "file://h/C:/x?access_token=one");
    let twice = ensure_access_token_query(&once, "two").unwrap();
    assert_eq!(twice, "file:///C:/x?access_token=one");
}

#[test]
fn empty_token_that_is_there_stays() {
    let url = ensure_access_token_query("wss://h/p?a=1&access_token=&b=2#f", "new").unwrap();
    assert_eq!(url, "wss://h/p?a=1&access_token=&b=2#f");
}

#[test]
fn all_but_the_query_stays() {
    let url = ensure_access_token_query("wss://user:pw@h:8443/a%20b?#f?x", "t").unwrap();
    assert_eq!(url, "wss://user:pw@h:8443/a%20b?access_token=t#f?x");
    let opaque = ensure_access_token_query("mailto:x#f", "t").unwrap();
    assert_eq!(opaque, "mailto:x?access_token=t#f");
}

#[test]
fn relative_service_url_is_refused() {
    let result = details("sfu.example.org/x", "abc").authenticated_service_url();
    assert!(matches!(
        result,
        Err(LiveKitDetailsError::UrlParse(url::ParseError::RelativeUrlWithoutBase))
    ));
}

#[test]
fn service_url_of_any_length_is_tried() {
    let short = details("wss://sfu.example.org", "abc").try_authenticated_service_url();
    assert_eq!(short.unwrap().unwrap(), "wss://sfu.example.org/?access_token=abc");
    let refused = details("nowhere", "abc").try_authenticated_service_url();
    assert!(matches!(refused, Some(Err(LiveKitDetailsError::UrlParse(_)))));
    assert!(has_room("wss://sfu.example.org", "abc"));
    assert!(has_room("nowhere", "abc"));
    assert!(has_room("wss://sfu.example.org#top", "abc"));
    assert!(has_room("wss://sfu.example.org?access_token=x#top", "abc"));
}

#[test]
fn length_of_a_pair_is_counted_as_it_is_written() {
    let every_ascii: String = (0u8..128).map(|byte| byte as char).collect();
    for text in ["", "access_token", "a b&c=d", "*-._~+", "é\u{10ffff}", every_ascii.as_str()] {
        let written: String = url::form_urlencoded::byte_serialize(text.as_bytes()).collect();
        assert_eq!(form_encoded_length(text), written.len() as u128, "{text:?}");
        for url in ["wss://h/p#f", "wss://h/p?#f", "wss://h/p?a=1#f", "wss://h/p?a=1&#f"] {
            let query = url.trim_start_matches("wss://h/p").trim_end_matches("#f");
            let separator = if query == "?" { 0 } else { 1 };
            let added = separator + "access_token=".len() + written.len();
            let with_token = ensure_access_token_query(url, text).unwrap();
            assert_eq!(with_token.len(), url.len() + added, "{url} {text:?}");
        }
    }
}

#[test]
fn name_of_the_token_is_compared_whole() {
    let pair = |name: &str| (name.to_owned(), "v".to_owned());
    assert!(!names_access_token(&vec![]));
    assert!(!names_access_token(&vec![pair("Access_token"), pair("access_token2")]));
    assert!(names_access_token(&vec![pair("a"), pair("access_token")]));
}

#[test]
fn sfu_get_comes_before_static_values() {
    let step =
        resolve_connection_details(Some("@a:b"), Some("https://jwt/sfu/get"), Some("u"), Some("t"))
            .unwrap();
    match step {
        ResolveStep::RequestOpenIdToken(lookup) => {
            assert_eq!(lookup.user_id, "@a:b");
            assert_eq!(lookup.sfu_get_url, "https://jwt/sfu/get");
        }
        _ => panic!("an OpenID token is needed"),
    }
}

#[test]
fn sfu_get_needs_a_user_id() {
    let result = resolve_connection_details(None, Some("https://jwt/sfu/get"), None, Some("t"));
    assert!(matches!(result, Err(LiveKitDetailsError::MissingUserId)));
}

#[test]
fn static_values_need_a_token() {
    let result = resolve_connection_details(Some("@a:b"), None, Some("u"), None);
    assert!(matches!(result, Err(LiveKitDetailsError::MissingToken)));
}

#[test]
fn static_values_resolve_at_once() {
    match resolve_connection_details(None, None, Some("u"), Some("t")).unwrap() {
        ResolveStep::Resolved(details) => {
            assert_eq!(details.service_url, "u");
            assert_eq!(details.token, "t");
        }
        _ => panic!("nothing is left to do"),
    }
}

#[test]
fn missing_service_url_is_discovered() {
    match resolve_connection_details(None, None, None, Some("t")).unwrap() {
        ResolveStep::DiscoverServiceUrl(discovery) => {
            let details = discovery.resolve("wss://found".to_owned());
            assert_eq!(details.service_url, "wss://found");
            assert_eq!(details.token, "t");
        }
        _ => panic!("the service URL is needed"),
    }
    let details = ServiceDiscovery { token: "x".to_owned() }.resolve("y".to_owned());
    assert_eq!((details.token.as_str(), details.service_url.as_str()), ("x", "y"));
}

fn lookup() -> SfuLookup {
    SfuLookup { user_id: "@a:b".to_owned(), sfu_get_url: "https://jwt/sfu/get".to_owned() }
}

#[test]
fn sfu_request_holds_room_token_and_device() {
    let request = lookup().request("!r:b", Some("PHONE"), openid_token()).ok().unwrap();
    assert_eq!(request.url, "https://jwt/sfu/get");
    let expected = json(
        r#"{
            "room": "!r:b",
            "openid_token": {
                "access_token": "SECRET",
                "expires_in": 3600,
                "matrix_server_name": "example.org",
                "token_type": "Bearer"
            },
            "device_id": "PHONE"
        }"#,
    );
    assert_eq!(request.body(), expected);
}

#[test]
fn sfu_request_needs_a_device_id() {
    let result = lookup().request("!r:b", None, openid_token());
    assert!(matches!(result, Err(LiveKitDetailsError::MissingDeviceId)));
}

#[test]
fn first_key_with_a_string_wins() {
    let payload = json(r#"{"a": 1, "b": null, "c": "third", "d": "fourth"}"#);
    assert_eq!(extract_string(&payload, &["a", "b", "c", "d"]), Some("third".to_owned()));
    assert_eq!(extract_string(&payload, &["d", "c"]), Some("fourth".to_owned()));
    assert_eq!(extract_string(&payload, &["a", "b", "x"]), None);
    assert_eq!(extract_string(&payload, &[]), None);
    assert_eq!(extract_string(&json(r#"["a"]"#), &["a"]), None);
}

#[test]
fn sfu_response_is_read_under_any_of_its_names() {
    for url_key in
        ["service_url", "livekit_service_url", "livekit_url", "sfu_base_url", "sfu_url", "url"]
    {
        for token_key in ["token", "jwt", "access_token"] {
            let body = format!(r#"{{"{url_key}": "wss://x", "{token_key}": "T"}}"#);
            let details = fetch_sfu_token(body.as_bytes()).unwrap();
            assert_eq!(details.service_url, "wss://x");
            assert_eq!(details.token, "T");
        }
    }
}

#[test]
fn sfu_response_prefers_the_more_telling_names() {
    let body = br#"{"url": "u", "sfu_url": "s", "access_token": "a", "jwt": "j", "token": 5}"#;
    let details = fetch_sfu_token(body).unwrap();
    assert_eq!(details.service_url, "s");
    assert_eq!(details.token, "j");
}

#[test]
fn sfu_response_without_url_or_token_is_refused() {
    assert!(matches!(
        fetch_sfu_token(br#"{"token": "T"}"#),
        Err(LiveKitDetailsError::MissingSfuServiceUrl)
    ));
    assert!(matches!(fetch_sfu_token(b"{}"), Err(LiveKitDetailsError::MissingSfuServiceUrl)));
    assert!(matches!(
        details_of_payload(&json(r#"{"url": "u", "token": null}"#)),
        Err(LiveKitDetailsError::MissingSfuToken)
    ));
}

#[test]
fn sfu_response_that_is_no_json_is_refused() {
    assert!(matches!(
        fetch_sfu_token(b"<html>"),
        Err(LiveKitDetailsError::InvalidSfuResponse(_))
    ));
    assert!(matches!(fetch_sfu_token(b""), Err(LiveKitDetailsError::InvalidSfuResponse(_))));
}
