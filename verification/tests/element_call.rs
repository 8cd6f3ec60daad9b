use matrix_sdk_rtc_livekit::element_call::{
    element_call_capabilities, element_call_member_content, element_call_send_event_message,
    ActiveFocus, CallMemberEventContent, CallScope, Filter, LivekitFocus, MessageLikeEventFilter,
    StateEventFilter,
};
use matrix_sdk_rtc_livekit::identifiers::UserId;
use serde_json::Value;

const USER: &str = "@alice:example.org";

fn json(text: &str) -> Value {
    serde_json::from_str(text).unwrap()
}

fn shown(filters: &[Filter]) -> Vec<String> {
    filters
        .iter()
        .map(|filter| match filter {
            Filter::MessageLike(MessageLikeEventFilter::WithType(event_type)) => {
                format!("message {event_type}")
            }
            Filter::State(StateEventFilter::WithType(event_type)) => format!("state {event_type}"),
            Filter::State(StateEventFilter::WithTypeAndStateKey(event_type, state_key)) => {
                format!("state {event_type} {state_key}")
            }
            Filter::ToDevice(filter) => format!("device {}", filter.event_type),
        })
        .collect()
}

const SHARED: [&str; 7] = [
    "message org.matrix.rageshake_request",
    "device io.element.call.encryption_keys",
    "message io.element.call.encryption_keys",
    "message io.element.call.reaction",
    "message m.reaction",
    "message m.room.redaction",
    "message org.matrix.msc4310.rtc.decline",
];

#[test]
fn element_call_may_read_the_call_and_the_room() {
    let capabilities = element_call_capabilities(&UserId::parse(USER).unwrap(), "PHONE");
    let mut expected = vec![
        "state org.matrix.msc3401.call.member",
        "state m.room.name",
        "state m.room.member",
        "state m.room.encryption",
        "state m.room.create",
    ];
    expected.extend(SHARED);
    assert_eq!(shown(&capabilities.read), expected);
    assert!(capabilities.requires_client);
    assert!(capabilities.update_delayed_event);
    assert!(capabilities.send_delayed_event);
}

#[test]
fn element_call_may_send_only_its_own_memberships() {
    let capabilities = element_call_capabilities(&UserId::parse(USER).unwrap(), "PHONE");
    let mut expected = vec![
        "message org.matrix.msc4075.rtc.notification",
        "message org.matrix.msc4075.call.notify",
        "state org.matrix.msc3401.call.member @alice:example.org",
        "state org.matrix.msc3401.call.member @alice:example.org_PHONE",
        "state org.matrix.msc3401.call.member @alice:example.org_PHONE_m.call",
        "state org.matrix.msc3401.call.member @alice:example.org_PHONE_m.call",
        "state org.matrix.msc3401.call.member _@alice:example.org_PHONE",
        "state org.matrix.msc3401.call.member _@alice:example.org_PHONE_m.call",
    ];
    expected.extend(SHARED);
    assert_eq!(shown(&capabilities.send), expected);
}

#[test]
fn user_ids_are_parsed() {
    assert_eq!(UserId::parse(USER).unwrap().as_str(), USER);
    assert_eq!(UserId::parse(USER).unwrap().clone().as_str(), USER);
    assert!(UserId::parse("alice").is_none());
    assert!(UserId::parse("@alice").is_none());
    assert!(UserId::parse("").is_none());
    assert!(UserId::parse("alice:example.org").is_none());
    assert!(UserId::parse("@al_ice:example.org:8448").is_some());
    assert!(UserId::parse("@alice:[::1]:80").is_some());
    assert!(UserId::parse("@alice:exam_ple.org").is_none());
}

#[test]
fn users_share_no_state() {
    let states = |user_id: &str, device_id: &str| -> Vec<String> {
        let capabilities = element_call_capabilities(&UserId::parse(user_id).unwrap(), device_id);
        shown(&capabilities.send).into_iter().filter(|shown| shown.starts_with("state ")).collect()
    };
    let own = states("@a:b.c", "d_@a:b");
    for other in [states("@a:b", "c_d"), states("@a:b.cd", "d"), states("@a_:b.c", "d_@a:b")] {
        assert_eq!(other.len(), 6);
        assert!(other.iter().all(|state| !own.contains(state)));
    }
}

#[test]
fn member_content_prefers_the_given_service() {
    let content = element_call_member_content("!r:b", "PHONE", "https://jwt");
    assert_eq!(content.call_id, "");
    assert_eq!(content.scope, CallScope::Room);
    assert_eq!(content.device_id, "PHONE");
    assert_eq!(content.foci_preferred.len(), 1);
    assert_eq!(content.focus_active, ActiveFocus::Livekit);
    assert_eq!(content.created_ts, None);
    assert_eq!(content.expires_ms, None);
    let expected = json(
        r#"{
            "application": "m.call",
            "call_id": "",
            "scope": "m.room",
            "device_id": "PHONE",
            "expires": 14400000,
            "foci_preferred": [
                {
                    "type": "livekit",
                    "livekit_alias": "!r:b",
                    "livekit_service_url": "https://jwt"
                }
            ],
            "focus_active": { "type": "livekit", "focus_selection": "oldest_membership" }
        }"#,
    );
    assert_eq!(content.into_json(), expected);
}

#[test]
fn member_content_lists_every_focus() {
    let focus = |alias: &str| LivekitFocus {
        alias: alias.to_owned(),
        service_url: "https://jwt".to_owned(),
    };
    let content = CallMemberEventContent {
        call_id: "17".to_owned(),
        scope: CallScope::User,
        device_id: "PHONE".to_owned(),
        focus_active: ActiveFocus::Livekit,
        foci_preferred: vec![focus("a"), focus("b")],
        created_ts: Some(1_700_000_000_000),
        expires_ms: Some(0x1F_FFFF_FFFF_FFFF),
    }
    .into_json();
    assert_eq!(content["call_id"], json(r#""17""#));
    assert_eq!(content["scope"], json(r#""m.user""#));
    assert_eq!(content["foci_preferred"][0]["livekit_alias"], json(r#""a""#));
    assert_eq!(content["foci_preferred"][1]["livekit_alias"], json(r#""b""#));
    assert_eq!(content["foci_preferred"].as_array().unwrap().len(), 2);
    assert_eq!(content["created_ts"].as_u64(), Some(1_700_000_000_000));
    assert_eq!(content["expires"].as_u64(), Some(0x1F_FFFF_FFFF_FFFF));
}

#[test]
fn send_event_message_wraps_the_content() {
    let content = json(r#"{"a": [1, null]}"#);
    let message = element_call_send_event_message("w", "r", "_@a:b_D", content);
    let expected = json(
        r#"{
            "api": "fromWidget",
            "widgetId": "w",
            "requestId": "r",
            "action": "send_event",
            "data": {
                "type": "org.matrix.msc3401.call.member",
                "state_key": "_@a:b_D",
                "content": { "a": [1, null] }
            }
        }"#,
    );
    assert_eq!(message, expected);
}
