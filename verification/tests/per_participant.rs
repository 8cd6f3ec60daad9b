use std::sync::Arc;
use std::time::Duration;

use matrix_sdk_rtc_livekit::encoding::{pick_reading, read_key, write_key, write_key_as};
use matrix_sdk_rtc_livekit::per_participant::{
    build_per_participant_e2ee, derive_per_participant_key, deserialize_key_entries, identity_of,
    key_event_content, key_of_drawn_bytes, keys_to_install,
    per_participant_key_grace_period_from_env, per_participant_key_provider_options, read_keys,
    received_keys, resend_after, resend_keys, resend_step, send_per_participant_keys,
    start_per_participant_e2ee, Device, E2eeRoomOptionsProvider, IncomingKeyEntry,
    IncomingKeyToDeviceContent, IncomingKeyToDeviceEvent, IncomingKeys, KeyDerivation, KeyReading,
    KeyResend, KeySend, PerParticipantE2eeContext, PerParticipantE2eeError, ResendAction,
    ResendInput, RoomEvent,
};
use matrix_sdk_rtc_livekit::room_options::{EncryptionType, LiveKitRoomOptionsProvider};
use serde_json::Value;

const ROOM: &str = "!room:example.org";
const EVENT_TYPE: &str = "io.element.call.encryption_keys";

fn device(user_id: &str, device_id: &str, handle: u8) -> Device<u8> {
    Device { user_id: user_id.to_owned(), device_id: device_id.to_owned(), handle }
}

fn start(key: &[u8], target: Option<&str>) -> KeySend<u8> {
    let send =
        send_per_participant_keys(ROOM, Some("@alice:example.org"), Some("PHONE"), 3, key, target);
    send.unwrap().unwrap()
}

fn handles(send: &KeySend<u8>) -> Vec<u8> {
    send.recipients.iter().map(|device| device.handle).collect()
}

fn event(event_type: &str, room_id: &str, keys: Vec<(i32, &str)>) -> IncomingKeyToDeviceEvent {
    let keys = keys
        .into_iter()
        .map(|(index, key)| IncomingKeyEntry { index, key: key.to_owned() })
        .collect();
    IncomingKeyToDeviceEvent {
        event_type: event_type.to_owned(),
        sender: "@bob:example.org".to_owned(),
        content: IncomingKeyToDeviceContent {
            room_id: room_id.to_owned(),
            device_id: "LAPTOP".to_owned(),
            keys,
        },
    }
}

fn context(local_key: Vec<u8>) -> PerParticipantE2eeContext<u8> {
    PerParticipantE2eeContext { key_provider: Arc::new(9u8), key_index: 4, local_key }
}

#[test]
fn derive_per_participant_key_returns_expected_length() {
    let key = derive_per_participant_key();

    assert_eq!(key.len(), 16);
    assert!(key.iter().any(|byte| *byte != 0));
}

#[test]
fn room_options_provider_without_context_leaves_encryption_disabled() {
    let provider: E2eeRoomOptionsProvider<u8> = E2eeRoomOptionsProvider { e2ee: None };
    let options = provider.room_options();

    assert!(options.encryption.is_none());
}

#[test]
fn room_options_provider_with_context_encrypts_with_its_keys() {
    let provider = E2eeRoomOptionsProvider { e2ee: Some(context(vec![1])) };
    let options = provider.room_options();

    let encryption = options.encryption.unwrap();
    assert_eq!(encryption.encryption_type, EncryptionType::Gcm);
    assert_eq!(encryption.key_provider, 9);
    assert!(options.e2ee.is_none());
}

#[test]
fn per_participant_key_grace_period_from_env_uses_default_on_missing_or_invalid_values() {
    assert_eq!(
        Duration::from_millis(per_participant_key_grace_period_from_env(None, 500)),
        Duration::from_millis(500)
    );
    assert_eq!(
        Duration::from_millis(per_participant_key_grace_period_from_env(Some("not-a-number"), 750)),
        Duration::from_millis(750)
    );
}

#[test]
fn per_participant_key_grace_period_from_env_uses_valid_value() {
    assert_eq!(
        Duration::from_millis(per_participant_key_grace_period_from_env(Some("1200"), 300)),
        Duration::from_millis(1200)
    );
}

#[test]
fn grace_period_reads_what_the_standard_library_reads() {
    let texts = [
        "", "+", "-", "0", "-0", "+7", "007", "++7", "+-7", " 7", "7 ", "1_000", "0x10", "1.5",
        "18446744073709551615", "18446744073709551616", "99999999999999999999999", "٣", "4é",
        "+18446744073709551615", "00000000000000000000000000000001",
    ];
    for text in texts {
        let expected = text.parse::<u64>().ok().unwrap_or(42);
        assert_eq!(per_participant_key_grace_period_from_env(Some(text), 42), expected, "{text}");
    }
}

#[test]
fn key_provider_options_are_those_of_element_call() {
    let options = per_participant_key_provider_options();

    assert_eq!(options.ratchet_window_size, 10);
    assert_eq!(options.key_ring_size, 256);
    assert_eq!(options.key_derivation, KeyDerivation::Hkdf);
}

#[test]
fn build_sends_the_fresh_key_to_everyone() {
    let start = build_per_participant_e2ee::<u8, u8>(
        ROOM,
        Some("@alice:example.org"),
        Some("PHONE"),
        7,
    )
    .ok()
    .unwrap();

    assert_eq!(*start.context.key_provider, 7);
    assert_eq!(start.context.key_index, 0);
    assert_eq!(start.context.local_key.len(), 16);
    assert_eq!(start.send.share.key, start.context.local_key);
    assert_eq!(start.send.share.key_index, 0);
    assert_eq!(start.send.share.room_id, ROOM);
    assert_eq!(start.send.share.target_device_id, None);
    assert!(start.send.recipients.is_empty());
}

#[test]
fn build_without_device_id_fails() {
    let result = build_per_participant_e2ee::<u8, u8>(ROOM, Some("@alice:example.org"), None, 7);

    assert_eq!(result.err(), Some(PerParticipantE2eeError::MissingDeviceId));
}

#[test]
fn drawn_bytes_are_the_key() {
    let drawn: Vec<u8> = (0..16).collect();
    assert_eq!(key_of_drawn_bytes(drawn.clone()), drawn);
    let mut last = vec![0u8; 16];
    last[15] = 9;
    assert_eq!(key_of_drawn_bytes(last.clone()), last);
}

#[test]
fn zeros_are_no_key() {
    let mut expected = vec![0u8; 16];
    expected[0] = 1;
    assert_eq!(key_of_drawn_bytes(vec![0u8; 16]), expected);
}

#[test]
fn call_starts_with_the_given_key() {
    let key: Vec<u8> = (1..17).collect();
    let start =
        start_per_participant_e2ee::<u8, u8>(ROOM, Some("@a:b"), Some("PHONE"), 7, key.clone())
            .ok()
            .unwrap();
    assert_eq!(start.context.local_key, key);
    assert_eq!(start.context.key_index, 0);
    assert_eq!(*start.context.key_provider, 7);
    assert_eq!(start.send.share.key, key);
    assert_eq!(start.send.share.key_index, 0);
    assert_eq!(start.send.share.own_user_id.as_deref(), Some("@a:b"));
    assert_eq!(start.send.share.own_device_id, "PHONE");
    assert_eq!(start.send.share.target_device_id, None);

    let failed = start_per_participant_e2ee::<u8, u8>(ROOM, Some("@a:b"), None, 7, key);
    assert_eq!(failed.err(), Some(PerParticipantE2eeError::MissingDeviceId));
}

#[test]
fn two_fresh_keys_differ() {
    assert_ne!(derive_per_participant_key(), derive_per_participant_key());
}

#[test]
fn empty_key_is_not_sent() {
    let send = send_per_participant_keys::<u8>(ROOM, None, None, 0, &[], None);

    assert!(send.unwrap().is_none());
}

#[test]
fn key_without_device_id_is_not_sent() {
    let send = send_per_participant_keys::<u8>(ROOM, Some("@a:b"), None, 0, &[1], None);

    assert_eq!(send.err(), Some(PerParticipantE2eeError::MissingDeviceId));
}

#[test]
fn long_key_is_cut_and_short_key_is_not() {
    let long: Vec<u8> = (0..40).collect();
    assert_eq!(start(&long, None).share.key, long[..16].to_vec());
    assert_eq!(start(&long[..16], None).share.key, long[..16].to_vec());
    assert_eq!(start(&long[..15], None).share.key, long[..15].to_vec());
}

#[test]
fn own_device_gets_no_key() {
    let mut send = start(&[1], None);
    send.add_devices(vec![
        device("@alice:example.org", "PHONE", 1),
        device("@alice:example.org", "TABLET", 2),
        device("@bob:example.org", "PHONE", 3),
    ]);
    send.add_devices(vec![device("@carol:example.org", "DESK", 4)]);

    assert_eq!(handles(&send), vec![2, 3, 4]);
}

#[test]
fn target_alone_gets_the_key() {
    let mut send = start(&[1], Some("PHONE"));
    send.add_devices(vec![
        device("@alice:example.org", "PHONE", 1),
        device("@alice:example.org", "TABLET", 2),
        device("@bob:example.org", "PHONE", 3),
    ]);

    assert_eq!(handles(&send), vec![3]);
}

#[test]
fn unknown_own_user_counts_every_device_as_another() {
    let mut send = send_per_participant_keys(ROOM, None, Some("PHONE"), 0, &[1], None)
        .unwrap()
        .unwrap();
    send.add_devices(vec![device("@alice:example.org", "PHONE", 1)]);

    assert_eq!(handles(&send), vec![1]);
    assert_eq!(send.finish(5).err(), Some(PerParticipantE2eeError::MissingUserId));
}

#[test]
fn batches_add_up() {
    let all = || {
        vec![
            device("@alice:example.org", "TABLET", 1),
            device("@alice:example.org", "PHONE", 2),
            device("@bob:example.org", "LAPTOP", 3),
        ]
    };
    let mut at_once = start(&[1], None);
    at_once.add_devices(all());
    let mut one_by_one = start(&[1], None);
    for device in all() {
        one_by_one.add_devices(vec![device]);
    }

    assert_eq!(handles(&at_once), handles(&one_by_one));
}

#[test]
fn nothing_is_sent_without_recipients() {
    assert!(start(&[1], None).finish(5).unwrap().is_none());
}

#[test]
fn key_message_holds_what_receivers_look_for() {
    let mut send = start(&[0xfb, 0xff, 0x00], None);
    send.add_devices(vec![device("@bob:example.org", "LAPTOP", 8)]);
    let message = send.finish(1700).unwrap().unwrap();

    assert_eq!(message.event_type, EVENT_TYPE);
    assert_eq!(message.recipients.len(), 1);
    assert_eq!(message.recipients[0].handle, 8);
    let expected: Value = serde_json::from_str(
        r#"{
            "keys": { "index": 3, "key": "-_8A" },
            "device_id": "PHONE",
            "member": { "claimed_device_id": "PHONE", "id": "@alice:example.org:PHONE" },
            "room_id": "!room:example.org",
            "session": { "application": "m.call", "call_id": "", "scope": "m.room" },
            "sent_ts": 1700
        }"#,
    )
    .unwrap();
    assert_eq!(message.content, expected);
}

#[test]
fn key_content_takes_negative_indices() {
    let content = key_event_content(ROOM, "@a:b", "D", -2, "AA", u64::MAX);

    assert_eq!(content["keys"]["index"].as_i64(), Some(-2));
    assert_eq!(content["sent_ts"].as_u64(), Some(u64::MAX));
}

#[test]
fn keys_come_alone_or_in_a_list() {
    let one = deserialize_key_entries(IncomingKeys::One(IncomingKeyEntry {
        index: 2,
        key: "AA".to_owned(),
    }));
    assert_eq!(one.len(), 1);
    assert_eq!((one[0].index, one[0].key.as_str()), (2, "AA"));

    let many = deserialize_key_entries(IncomingKeys::Many(vec![
        IncomingKeyEntry { index: 0, key: "AA".to_owned() },
        IncomingKeyEntry { index: 1, key: "AQ".to_owned() },
    ]));
    assert_eq!(many.len(), 2);
    assert_eq!(many[1].index, 1);
}

#[test]
fn received_keys_are_installed_for_the_sending_device() {
    let keys = received_keys(&event(EVENT_TYPE, ROOM, vec![(5, "AQID"), (6, "BAUG")]), ROOM);

    assert_eq!(keys.len(), 2);
    assert_eq!(keys[0].identity, "@bob:example.org:LAPTOP");
    assert_eq!((keys[0].index, keys[0].key.clone()), (5, vec![1, 2, 3]));
    assert_eq!((keys[1].index, keys[1].key.clone()), (6, vec![4, 5, 6]));
}

#[test]
fn undecodable_key_is_passed_over() {
    let keys = received_keys(&event(EVENT_TYPE, ROOM, vec![(0, "%%"), (1, "AQID")]), ROOM);

    assert_eq!(keys.len(), 1);
    assert_eq!(keys[0].index, 1);
}

#[test]
fn other_events_and_rooms_install_nothing() {
    assert!(received_keys(&event("m.dummy", ROOM, vec![(0, "AQID")]), ROOM).is_empty());
    assert!(received_keys(&event(EVENT_TYPE, "!x:y", vec![(0, "AQID")]), ROOM).is_empty());
    assert!(received_keys(&event(EVENT_TYPE, ROOM, vec![]), ROOM).is_empty());
}

#[test]
fn sent_key_is_installed() {
    let key: Vec<u8> = (240..=255).collect();
    let mut send = start(&key, None);
    send.add_devices(vec![device("@bob:example.org", "LAPTOP", 8)]);
    let content = send.finish(1700).unwrap().unwrap().content;

    let text = |value: &Value| value.as_str().unwrap().to_owned();
    let received = IncomingKeyToDeviceEvent {
        event_type: EVENT_TYPE.to_owned(),
        sender: "@alice:example.org".to_owned(),
        content: IncomingKeyToDeviceContent {
            room_id: text(&content["room_id"]),
            device_id: text(&content["device_id"]),
            keys: vec![IncomingKeyEntry {
                index: content["keys"]["index"].as_i64().unwrap() as i32,
                key: text(&content["keys"]["key"]),
            }],
        },
    };
    let keys = received_keys(&received, ROOM);

    assert_eq!(keys.len(), 1);
    assert_eq!(keys[0].identity, "@alice:example.org:PHONE");
    assert_eq!(keys[0].identity, text(&content["member"]["id"]));
    assert_eq!(keys[0].index, 3);
    assert_eq!(keys[0].key, key);
}

#[test]
fn readings_tell_which_keys_failed() {
    let readings = read_keys(&event(EVENT_TYPE, ROOM, vec![(0, "%%"), (1, "AQID")]), ROOM);
    assert_eq!(readings.len(), 2);
    assert_eq!((readings[0].index, readings[0].key.clone()), (0, None));
    assert_eq!((readings[1].index, readings[1].key.clone()), (1, Some(vec![1, 2, 3])));
    assert!(read_keys(&event(EVENT_TYPE, "!x:y", vec![(0, "%%")]), ROOM).is_empty());
}

#[test]
fn keys_to_install_keeps_order() {
    let keys = keys_to_install(
        "@a:b:C",
        vec![
            KeyReading { index: 2, key: Some(vec![1]) },
            KeyReading { index: 1, key: None },
            KeyReading { index: 0, key: Some(vec![]) },
        ],
    );

    assert_eq!(keys.len(), 2);
    assert_eq!((keys[0].index, keys[1].index), (2, 0));
    assert!(keys[1].key.is_empty());
}

#[test]
fn keys_are_read_in_any_form_of_base64() {
    let bytes = Some(vec![0xfb, 0xff, 0x00, 0x01]);
    assert_eq!(read_key("+/8AAQ"), bytes);
    assert_eq!(read_key("+/8AAQ=="), bytes);
    assert_eq!(read_key("-_8AAQ"), bytes);
    assert_eq!(read_key("-_8AAQ=="), bytes);
    assert_eq!(read_key("-/8AAQ"), None);
    assert_eq!(read_key("+/8AAQ="), None);
    assert_eq!(read_key("+/8AAR"), None);
    assert_eq!(read_key(""), Some(vec![]));
}

#[test]
fn keys_are_written_url_safe_without_padding() {
    assert_eq!(write_key(&[0xfb, 0xff, 0x00, 0x01]), "-_8AAQ");
    assert_eq!(write_key(&[]), "");
}

#[test]
fn keys_are_written_in_four_forms() {
    let key = [0xfb, 0xff, 0x00, 0x01];
    assert_eq!(write_key_as(false, false, &key), "+/8AAQ");
    assert_eq!(write_key_as(false, true, &key), "+/8AAQ==");
    assert_eq!(write_key_as(true, false, &key), "-_8AAQ");
    assert_eq!(write_key_as(true, true, &key), "-_8AAQ==");
}

#[test]
fn written_key_is_read_back() {
    for length in 0..40u8 {
        let key: Vec<u8> = (0..length).map(|i| i.wrapping_mul(37).wrapping_add(length)).collect();
        assert_eq!(read_key(&write_key(&key)), Some(key.clone()));
        for url_safe in [false, true] {
            for padded in [false, true] {
                assert_eq!(read_key(&write_key_as(url_safe, padded, &key)), Some(key.clone()));
            }
        }
    }
}

#[test]
fn written_form_makes_no_difference() {
    let key: Vec<u8> = (240..=255).collect();
    for url_safe in [false, true] {
        for padded in [false, true] {
            let text = write_key_as(url_safe, padded, &key);
            let keys = received_keys(&event(EVENT_TYPE, ROOM, vec![(2, &text)]), ROOM);
            assert_eq!(keys.len(), 1);
            assert_eq!(keys[0].identity, "@bob:example.org:LAPTOP");
            assert_eq!((keys[0].index, &keys[0].key), (2, &key));
        }
    }
}

#[test]
fn first_reading_wins() {
    let reading = |byte: u8| Some(vec![byte]);
    assert_eq!(pick_reading(reading(1), reading(2), reading(3), reading(4)), reading(1));
    assert_eq!(pick_reading(None, reading(2), reading(3), reading(4)), reading(2));
    assert_eq!(pick_reading(None, None, reading(3), reading(4)), reading(3));
    assert_eq!(pick_reading(None, None, None, reading(4)), reading(4));
    assert_eq!(pick_reading(None, None, None, None), None);
}

fn target(event: RoomEvent) -> Option<Option<String>> {
    match resend_after(&event) {
        KeyResend::Nobody => None,
        KeyResend::Everyone => Some(None),
        KeyResend::Device(device_id) => Some(Some(device_id)),
    }
}

#[test]
fn keys_are_resent_on_selected_events() {
    let identity = || "@bob:example.org:LAPTOP".to_owned();
    let laptop = Some(Some("LAPTOP".to_owned()));
    assert_eq!(target(RoomEvent::Reconnected), Some(None));
    assert_eq!(target(RoomEvent::ParticipantConnected { identity: identity() }), laptop);
    assert_eq!(target(RoomEvent::TrackPublished { identity: identity() }), laptop);
    assert_eq!(target(RoomEvent::TrackSubscribed { identity: identity() }), laptop);
    assert_eq!(target(RoomEvent::Other), None);
}

#[test]
fn identity_without_device_resends_to_everyone() {
    let joined = |identity: &str| RoomEvent::ParticipantConnected { identity: identity.to_owned() };
    assert_eq!(target(joined("guest")), Some(None));
    assert_eq!(target(joined("guest:")), Some(Some("".to_owned())));
    assert_eq!(target(joined("é:ü:ß")), Some(Some("ß".to_owned())));
}

#[test]
fn newcomer_gets_the_key() {
    let identity = identity_of("@bob:example.org", "LAPTOP");
    assert_eq!(identity, "@bob:example.org:LAPTOP");
    let joined = RoomEvent::ParticipantConnected { identity };
    let mut send = resend_keys(
        &joined,
        &context(vec![1, 2]),
        ROOM,
        Some("@alice:example.org"),
        Some("PHONE"),
    )
    .unwrap();
    assert_eq!(send.share.key_index, 4);
    assert_eq!(send.share.key, vec![1, 2]);
    send.add_devices(vec![
        device("@bob:example.org", "LAPTOP", 1),
        device("@bob:example.org", "OTHER", 2),
    ]);
    assert_eq!(handles(&send), vec![1]);
}

#[test]
fn newcomer_whose_device_id_has_a_colon_is_missed() {
    let identity = identity_of("@bob:example.org", "LAP:TOP");
    let joined = RoomEvent::ParticipantConnected { identity };
    let mut send =
        resend_keys(&joined, &context(vec![1]), ROOM, Some("@a:b"), Some("PHONE")).unwrap();
    send.add_devices(vec![device("@bob:example.org", "LAP:TOP", 1)]);
    assert!(send.recipients.is_empty());
}

#[test]
fn nothing_is_resent_where_nothing_can_be() {
    let full = context(vec![1]);
    let again = RoomEvent::Reconnected;
    assert!(resend_keys::<u8, u8>(&RoomEvent::Other, &full, ROOM, None, Some("P")).is_none());
    assert!(resend_keys::<u8, u8>(&again, &context(vec![]), ROOM, None, Some("P")).is_none());
    assert!(resend_keys::<u8, u8>(&again, &full, ROOM, None, None).is_none());
    assert!(resend_keys::<u8, u8>(&again, &full, ROOM, None, Some("P")).is_some());
}

#[test]
fn every_selected_event_resends_once() {
    let identity = || "@bob:example.org:LAPTOP".to_owned();
    let context = context((0..20).collect());
    let events = vec![
        RoomEvent::Other,
        RoomEvent::Reconnected,
        RoomEvent::ParticipantConnected { identity: identity() },
        RoomEvent::Other,
        RoomEvent::TrackPublished { identity: "guest".to_owned() },
        RoomEvent::TrackSubscribed { identity: identity() },
    ];
    let mut targets = Vec::new();
    let step = |input: ResendInput| -> ResendAction<u8> {
        resend_step(&input, &context, ROOM, Some("@alice:example.org"), Some("PHONE"))
    };
    for event in events {
        match step(ResendInput::Event(event)) {
            ResendAction::Send(send) => {
                assert_eq!(send.share.key_index, 4);
                assert_eq!(send.share.key, (0..16).collect::<Vec<u8>>());
                targets.push(send.share.target_device_id);
                let succeeded = targets.len() % 2 == 0;
                assert!(matches!(step(ResendInput::Sent { succeeded }), ResendAction::AwaitEvent));
            }
            ResendAction::AwaitEvent => {}
            ResendAction::Stop => panic!("more events come"),
        }
    }
    let laptop = Some("LAPTOP".to_owned());
    assert_eq!(targets, vec![None, laptop.clone(), None, laptop]);
    assert!(matches!(step(ResendInput::EventsEnded), ResendAction::Stop));
}
