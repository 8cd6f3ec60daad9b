use std::sync::Arc;

use matrix_sdk_rtc_livekit::connection::{
    join, run_livekit_driver, update_connection, ConnectionStep, DriverAction, DriverEvent,
    LiveKitConnectionUpdate, LiveKitSdkConnection, LiveKitSdkConnector,
};
use matrix_sdk_rtc_livekit::matrix_keys::{
    export_room_keys, exports_session, room_olm_machine, MatrixKeyMaterialError,
    OlmMachineKeyMaterialProvider,
};
use matrix_sdk_rtc_livekit::room_options::{E2eeOptions, EncryptionType, RoomOptions};

type Step = ConnectionStep<&'static str, u8>;

fn options(encryption: Option<u8>, e2ee: Option<u8>) -> RoomOptions<u8> {
    let with = |encryption_type: EncryptionType| {
        move |key_provider: u8| E2eeOptions { encryption_type, key_provider }
    };
    RoomOptions {
        encryption: encryption.map(with(EncryptionType::Gcm)),
        e2ee: e2ee.map(with(EncryptionType::Custom)),
    }
}

#[test]
fn events_are_taken_once() {
    let mut connection = LiveKitSdkConnection::new("room", 7u8);
    assert_eq!(*connection.room(), "room");
    assert_eq!(connection.take_events(), Some(7));
    assert_eq!(connection.take_events(), None);
    assert_eq!(connection.into_room(), "room");
}

#[test]
fn connector_hands_out_its_providers() {
    let connector = LiveKitSdkConnector::new("tokens", "options");
    assert_eq!(*connector.token_provider(), "tokens");
    assert_eq!(*connector.room_options_provider(), "options");
}

#[test]
fn newer_encryption_setting_is_kept() {
    let connector = LiveKitSdkConnector::new((), || options(Some(1), Some(2)));
    let request = connector.connect("wss://x", "T".to_owned());
    assert_eq!(request.service_url, "wss://x");
    assert_eq!(request.token, "T");
    let encryption = request.options.encryption.unwrap();
    assert_eq!(encryption.key_provider, 1);
    assert_eq!(encryption.encryption_type, EncryptionType::Gcm);
    assert_eq!(request.options.e2ee.unwrap().key_provider, 2);
}

#[test]
fn older_encryption_setting_fills_in() {
    let connector = LiveKitSdkConnector::new((), || options(None, Some(2)));
    let request = connector.connect("wss://x", "T".to_owned());
    let encryption = request.options.encryption.unwrap();
    assert_eq!(encryption.key_provider, 2);
    assert_eq!(encryption.encryption_type, EncryptionType::Custom);
    assert!(request.options.e2ee.is_some());
}

#[test]
fn no_encryption_setting_leaves_media_unencrypted() {
    let connector = LiveKitSdkConnector::new((), || options(None, None));
    let request = connector.connect("wss://x", "T".to_owned());
    assert!(request.options.encryption.is_none());
}

#[test]
fn call_is_joined_when_it_begins() {
    let mut connection: Option<Arc<&'static str>> = None;
    let step: Step = update_connection(true, &mut connection);
    assert!(matches!(step, ConnectionStep::Connect));
    assert!(connection.is_none());

    let update = join(LiveKitSdkConnection::new("room", 7u8), &mut connection);
    match update {
        LiveKitConnectionUpdate::Joined { room, events } => {
            assert!(Arc::ptr_eq(&room, connection.as_ref().unwrap()));
            assert_eq!(*room, "room");
            assert_eq!(events, Some(7));
        }
        _ => panic!("the room was joined"),
    }
}

#[test]
fn call_is_left_when_it_ends() {
    let mut connection = Some(Arc::new("room"));
    let step: Step = update_connection(false, &mut connection);
    assert!(matches!(step, ConnectionStep::Done(LiveKitConnectionUpdate::Left)));
    assert!(connection.is_none());
}

#[test]
fn same_memberships_change_nothing() {
    let mut connection = Some(Arc::new("room"));
    let step: Step = update_connection(true, &mut connection);
    assert!(matches!(step, ConnectionStep::Done(LiveKitConnectionUpdate::Unchanged)));
    assert!(connection.is_some());

    let mut nothing = None;
    let step: Step = update_connection(false, &mut nothing);
    assert!(matches!(step, ConnectionStep::Done(LiveKitConnectionUpdate::Unchanged)));
    assert!(nothing.is_none());
}

#[test]
fn driver_follows_the_memberships() {
    let mut connection: Option<Arc<u8>> = None;
    let mut joins = 0;
    let mut leaves = 0;
    for has_memberships in [false, true, true, false, false, true, false, true] {
        let state: DriverEvent<u8, (), &str> = DriverEvent::RoomInfo { has_memberships };
        match run_livekit_driver(&mut connection, state) {
            DriverAction::Connect => {
                joins += 1;
                let joined = LiveKitSdkConnection::new(joins, ());
                let event: DriverEvent<u8, (), &str> = DriverEvent::Connected(joined);
                let action = run_livekit_driver(&mut connection, event);
                assert!(matches!(
                    action,
                    DriverAction::AwaitRoomInfo(LiveKitConnectionUpdate::Joined { .. })
                ));
                assert_eq!(connection.as_deref(), Some(&joins));
            }
            DriverAction::AwaitRoomInfo(LiveKitConnectionUpdate::Left) => leaves += 1,
            DriverAction::AwaitRoomInfo(_) => {}
            DriverAction::Stop(_) => panic!("more states come"),
        }
        assert_eq!(connection.is_some(), has_memberships);
        assert_eq!(joins - leaves, if has_memberships { 1 } else { 0 });
    }
    assert_eq!((joins, leaves), (3, 2));

    let action = run_livekit_driver::<u8, (), &str>(&mut connection, DriverEvent::InfoStreamEnded);
    assert!(matches!(action, DriverAction::Stop(Ok(()))));
    assert!(connection.is_none());
}

#[test]
fn failed_join_ends_the_driver() {
    let mut connection: Option<Arc<u8>> = None;
    let state: DriverEvent<u8, (), &str> = DriverEvent::RoomInfo { has_memberships: true };
    assert!(matches!(run_livekit_driver(&mut connection, state), DriverAction::Connect));
    let failed: DriverEvent<u8, (), &str> = DriverEvent::ConnectFailed("no route");
    let action = run_livekit_driver(&mut connection, failed);
    assert!(matches!(action, DriverAction::Stop(Err("no route"))));
    assert!(connection.is_none());
}

#[test]
fn updates_can_be_shown() {
    let update: LiveKitConnectionUpdate<u8, u8> =
        LiveKitConnectionUpdate::Joined { room: Arc::new(1), events: None };
    assert_eq!(format!("{update:?}"), "Joined { room: 1, events: None }");
}

#[test]
fn crypto_machine_is_handed_out_where_there_is_one() {
    let found: Result<u8, MatrixKeyMaterialError<()>> = room_olm_machine(Some(3u8));
    assert!(matches!(found, Ok(3)));
    let missing: Result<u8, MatrixKeyMaterialError<()>> = room_olm_machine(None);
    assert!(matches!(missing, Err(MatrixKeyMaterialError::NoOlmMachine)));
    assert_eq!(*OlmMachineKeyMaterialProvider::new("machine").olm_machine(), "machine");
}

#[test]
fn sessions_of_the_room_are_exported() {
    assert!(exports_session("!r:b", "!r:b"));
    assert!(!exports_session("!r:b", "!s:b"));
}

#[test]
fn export_passes_keys_and_errors_on() {
    let keys: Result<Vec<u8>, MatrixKeyMaterialError<&str>> = export_room_keys(Ok(vec![1, 2]));
    assert_eq!(keys.unwrap(), vec![1, 2]);
    let error: Result<Vec<u8>, MatrixKeyMaterialError<&str>> = export_room_keys(Err("store"));
    assert!(matches!(error, Err(MatrixKeyMaterialError::CryptoStore("store"))));
}
