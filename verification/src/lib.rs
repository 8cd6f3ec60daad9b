//! Joining LiveKit rooms for MatrixRTC calls: the decisions behind it, apart from all input and
//! output.
//!
//! A call in a Matrix room runs over a LiveKit room. The modules say where that room is and with
//! which token it is joined ([`details`], [`service_url`]), when it is joined and left
//! ([`connection`]), how its media is encrypted ([`room_options`], [`per_participant`],
//! [`matrix_keys`]), and what the Element Call widget may do and sends ([`element_call`]). Clients,
//! rooms, key providers and event streams are type parameters; whoever owns them performs the steps
//! that the functions here decide on.

pub mod connection;
pub mod details;
pub mod element_call;
pub mod encoding;
pub mod identifiers;
pub mod json;
pub mod matrix_keys;
pub mod per_participant;
pub mod room_options;
pub mod service_url;
pub mod text;

pub use connection::{
    run_livekit_driver, update_connection, LiveKitConnectionUpdate, LiveKitSdkConnection,
    LiveKitSdkConnector,
};
pub use details::{resolve_connection_details, LiveKitConnectionDetails, LiveKitDetailsError};
pub use room_options::{LiveKitRoomOptionsProvider, RoomOptions};
