//! Per-participant end-to-end encryption of a call: each device makes a media key of its own, sends
//! it to the devices of the room's members, and installs the keys that it receives.

use crate::encoding;
use crate::json::{self, Json};
use crate::room_options::{E2eeOptions, EncryptionType, LiveKitRoomOptionsProvider, RoomOptions};
use crate::text;
use std::sync::Arc;
use vstd::prelude::*;
use vstd::slice::{slice_subrange, slice_to_vec};

verus! {

/// Why keys could not be sent.
#[derive(Debug, PartialEq, Eq, Structural)]
pub enum PerParticipantE2eeError {
    /// The client knows no device id of its own.
    MissingDeviceId,
    /// The client knows no user id of its own.
    MissingUserId,
}

/// How a key is made into the keys that media is encrypted with.
#[derive(Debug, Clone, Copy, PartialEq, Eq, Structural)]
pub enum KeyDerivation {
    Pbkdf2,
    Hkdf,
}

/// The options of a key provider that a call sets; the others keep their defaults.
#[derive(Debug, Clone, Copy, PartialEq, Eq, Structural)]
pub struct KeyProviderOptions {
    pub ratchet_window_size: i32,
    pub key_ring_size: i32,
    pub key_derivation: KeyDerivation,
}

/// The options of the key provider of a call with per-participant keys.
pub fn per_participant_key_provider_options() -> (options: KeyProviderOptions)
    ensures
        options.ratchet_window_size == 10,
        options.key_ring_size == 256,
        options.key_derivation == KeyDerivation::Hkdf,
{
    KeyProviderOptions {
        ratchet_window_size: 10,
        key_ring_size: 256,
        key_derivation: KeyDerivation::Hkdf,
    }
}

/// Runtime context for per-participant LiveKit E2EE, over the type of the key provider.
#[derive(Clone)]
pub struct PerParticipantE2eeContext<P> {
    pub key_provider: Arc<P>,
    pub key_index: i32,
    pub local_key: Vec<u8>,
}

/// Calls `rand::RngCore::fill_bytes` on `rand::rngs::OsRng`: every byte of `buffer` is set to one
/// that the operating system draws. Which bytes come is chance; the length stays. It panics where the
/// operating system has no random bytes to give.
#[verifier::external_body]
fn fill_with_random_bytes(buffer: Vec<u8>) -> (filled: Vec<u8>)
    ensures
        filled@.len() == buffer@.len(),
{
    let mut filled = buffer;
    rand::RngCore::fill_bytes(&mut rand::rngs::OsRng, &mut filled);
    filled
}

/// `bytes` are what a call of `fill_with_random_bytes` gave: nothing else is known to be.
pub closed spec fn is_drawn(bytes: Seq<u8>) -> bool {
    exists|buffer: Vec<u8>, filled: Vec<u8>|
        #[trigger] call_ensures(fill_with_random_bytes, (buffer,), filled) && filled@ == bytes
}

/// `key` is the key that `drawn` makes: the same bytes, but that no key is all zeros.
pub open spec fn is_key_of(key: Seq<u8>, drawn: Seq<u8>) -> bool {
    ||| key == drawn && has_nonzero_byte(drawn)
    ||| key == drawn.update(0, 1) && !has_nonzero_byte(drawn)
}

/// Some byte of a key is not zero.
pub open spec fn has_nonzero_byte(key: Seq<u8>) -> bool {
    exists|i: int| 0 <= i < key.len() && #[trigger] key[i] != 0
}

/// The key that bytes drawn at random make: the bytes themselves, unless all of them are zero. Then
/// the first is made one, as no key is all zeros.
pub fn key_of_drawn_bytes(drawn: Vec<u8>) -> (key: Vec<u8>)
    requires
        drawn@.len() == 16,
    ensures
        key@ == if has_nonzero_byte(drawn@) {
            drawn@
        } else {
            drawn@.update(0, 1)
        },
        key@.len() == 16,
        has_nonzero_byte(key@),
        is_key_of(key@, drawn@),
{
    let mut at: usize = 0;
    while at < drawn.len()
        invariant
            at <= drawn@.len() == 16,
            forall|i: int| 0 <= i < at ==> drawn@[i] == 0,
        decreases drawn@.len() - at,
    {
        if drawn[at] != 0 {
            return drawn;
        }
        at = at + 1;
    }
    let mut key = drawn;
    key.set(0, 1);
    proof {
        assert(key@[0] != 0);
    }
    key
}

/// Generate local key material for per-participant media E2EE: 16 bytes that the operating system
/// draws at random, not all of them zero. That they are random is left unsaid.
pub fn derive_per_participant_key() -> (key: Vec<u8>)
    ensures
        key@.len() == 16,
        has_nonzero_byte(key@),
        exists|drawn: Seq<u8>| #[trigger]
            is_drawn(drawn) && drawn.len() == 16 && is_key_of(key@, drawn),
{
    let zeros: Vec<u8> = vec![0u8; 16];
    let drawn = fill_with_random_bytes(zeros);
    proof {
        assert(is_drawn(drawn@));
    }
    key_of_drawn_bytes(drawn)
}

/// A call with per-participant keys that has just begun: its context, and the sending of its first
/// key.
pub struct PerParticipantE2eeStart<P, H> {
    pub context: PerParticipantE2eeContext<P>,
    pub send: KeySend<H>,
}

/// The call that begins with `local_key`: the key goes under index 0, and is to be sent to everyone.
pub fn start_per_participant_e2ee<P, H>(
    room_id: &str,
    own_user_id: Option<&str>,
    own_device_id: Option<&str>,
    key_provider: P,
    local_key: Vec<u8>,
) -> (result: Result<PerParticipantE2eeStart<P, H>, PerParticipantE2eeError>)
    requires
        local_key@.len() == 16,
    ensures
        match result {
            Ok(start) => {
                &&& own_device_id is Some
                &&& *start.context.key_provider == key_provider
                &&& start.context.key_index == 0
                &&& start.context.local_key == local_key
                &&& start.send.share.shares(room_id@, own_user_id, own_device_id, 0, None)
                &&& start.send.share.key@ == local_key@
                &&& start.send.recipients@.len() == 0
            },
            Err(error) => {
                &&& own_device_id is None
                &&& error == PerParticipantE2eeError::MissingDeviceId
            },
        },
{
    proof {
        law_short_key_is_sent_whole(local_key@);
    }
    match send_per_participant_keys(
        room_id,
        own_user_id,
        own_device_id,
        0,
        local_key.as_slice(),
        None,
    )? {
        Some(send) => {
            let context = PerParticipantE2eeContext {
                key_provider: Arc::new(key_provider),
                key_index: 0,
                local_key,
            };
            Ok(PerParticipantE2eeStart { context, send })
        },
        None => Err(PerParticipantE2eeError::MissingDeviceId),
    }
}

/// Build the initial per-participant E2EE context for a Matrix room: a fresh local key, under index
/// 0, which is to be sent to everyone. Which key it is, is chance.
pub fn build_per_participant_e2ee<P, H>(
    room_id: &str,
    own_user_id: Option<&str>,
    own_device_id: Option<&str>,
    key_provider: P,
) -> (result: Result<PerParticipantE2eeStart<P, H>, PerParticipantE2eeError>)
    ensures
        match result {
            Ok(start) => {
                &&& own_device_id is Some
                &&& *start.context.key_provider == key_provider
                &&& start.context.key_index == 0
                &&& start.context.local_key@.len() == 16
                &&& has_nonzero_byte(start.context.local_key@)
                &&& call_ensures(derive_per_participant_key, (), start.context.local_key)
                &&& exists|drawn: Seq<u8>| #[trigger]
                    is_drawn(drawn) && drawn.len() == 16 && is_key_of(
                        start.context.local_key@,
                        drawn,
                    )
                &&& start.send.share.shares(room_id@, own_user_id, own_device_id, 0, None)
                &&& start.send.share.key@ == start.context.local_key@
                &&& start.send.recipients@.len() == 0
            },
            Err(error) => {
                &&& own_device_id is None
                &&& error == PerParticipantE2eeError::MissingDeviceId
            },
        },
{
    let local_key = derive_per_participant_key();
    start_per_participant_e2ee(room_id, own_user_id, own_device_id, key_provider, local_key)
}

/// LiveKit room options provider with optional per-participant E2EE.
#[derive(Clone)]
pub struct E2eeRoomOptionsProvider<P> {
    pub e2ee: Option<PerParticipantE2eeContext<P>>,
}

impl<P: Clone> LiveKitRoomOptionsProvider for E2eeRoomOptionsProvider<P> {
    type KeyProvider = P;

    open spec fn is_ready(&self) -> bool {
        true
    }

    /// With a context, media is encrypted with AES-GCM under the keys of the context's provider;
    /// without one it is not encrypted.
    open spec fn provides(&self, options: RoomOptions<P>) -> bool {
        &&& options.e2ee is None
        &&& match self.e2ee {
            Some(context) => {
                &&& options.encryption is Some
                &&& options.encryption->0.encryption_type == EncryptionType::Gcm
                &&& cloned::<P>(*context.key_provider, options.encryption->0.key_provider)
            },
            None => options.encryption is None,
        }
    }

    fn room_options(&self) -> (options: RoomOptions<P>) {
        let mut options = RoomOptions { encryption: None, e2ee: None };
        if let Some(context) = &self.e2ee {
            options.encryption = Some(
                E2eeOptions {
                    encryption_type: EncryptionType::Gcm,
                    key_provider: (*context.key_provider).clone(),
                },
            );
        }
        options
    }
}

/// The type of the event that carries keys from device to device.
pub open spec fn key_event_type() -> Seq<char> {
    "io.element.call.encryption_keys"@
}

/// How many bytes of a key are sent at most.
pub const SENT_KEY_LENGTH: usize = 16;

/// The part of `key` that is sent: its first 16 bytes, or all of it where it is shorter.
pub open spec fn sent_key(key: Seq<u8>) -> Seq<u8> {
    if key.len() >= SENT_KEY_LENGTH {
        key.take(SENT_KEY_LENGTH as int)
    } else {
        key
    }
}

/// Who a device of a user takes part in a call as: `user:device`.
pub open spec fn participant_identity(user_id: Seq<char>, device_id: Seq<char>) -> Seq<char> {
    user_id + ":"@ + device_id
}

/// A device that keys may be sent to. `handle` is what the caller sends through.
pub struct Device<H> {
    pub user_id: String,
    pub device_id: String,
    pub handle: H,
}

/// What is to be sent, by whom, and to which device alone if to one.
pub struct KeyShare {
    pub room_id: String,
    pub own_user_id: Option<String>,
    pub own_device_id: String,
    pub key_index: i32,
    pub key: Vec<u8>,
    pub target_device_id: Option<String>,
}

impl KeyShare {
    /// The room, the sender, the index and the target of the key are these.
    pub open spec fn shares(
        self,
        room_id: Seq<char>,
        own_user_id: Option<&str>,
        own_device_id: Option<&str>,
        key_index: i32,
        target_device_id: Option<Seq<char>>,
    ) -> bool {
        &&& self.room_id@ == room_id
        &&& text::owned_text_of(self.own_user_id) == text::text_of(own_user_id)
        &&& Some(self.own_device_id@) == text::text_of(own_device_id)
        &&& self.key_index == key_index
        &&& text::owned_text_of(self.target_device_id) == target_device_id
    }

    /// The sending device itself.
    pub open spec fn is_own<H>(self, device: Device<H>) -> bool {
        &&& text::owned_text_of(self.own_user_id) == Some(device.user_id@)
        &&& device.device_id@ == self.own_device_id@
    }

    /// A device that the key goes to: any but the sending one, or the target alone where there is a
    /// target.
    pub open spec fn goes_to<H>(self, device: Device<H>) -> bool {
        &&& !self.is_own(device)
        &&& match text::owned_text_of(self.target_device_id) {
            Some(target) => device.device_id@ == target,
            None => true,
        }
    }

    /// Those of `devices` that the key goes to, in their order.
    pub open spec fn recipients_among<H>(self, devices: Seq<Device<H>>) -> Seq<Device<H>> {
        devices.filter(|device: Device<H>| self.goes_to(device))
    }

    /// Whether the key goes to `device`.
    fn sends_to<H>(&self, device: &Device<H>) -> (yes: bool)
        ensures
            yes == self.goes_to(*device),
    {
        if let Some(own_user_id) = &self.own_user_id {
            if device.user_id == *own_user_id && device.device_id == self.own_device_id {
                return false;
            }
        }
        match &self.target_device_id {
            Some(target) => device.device_id == *target,
            None => true,
        }
    }
}

/// A sending of keys that is under way: the devices of the room's members are still being collected.
pub struct KeySend<H> {
    pub share: KeyShare,
    pub recipients: Vec<Device<H>>,
}

/// An event that is ready to be encrypted and sent to each of its recipients.
pub struct KeyMessage<H> {
    pub recipients: Vec<Device<H>>,
    pub event_type: String,
    pub content: serde_json::Value,
}

/// Starts to send `key` to the devices of the room's members, or to `target_device_id` alone.
///
/// `Ok(None)` says that there is nothing to send. Otherwise the caller hands the devices of each
/// joined member to [`KeySend::add_devices`], then ends with [`KeySend::finish`].
pub fn send_per_participant_keys<H>(
    room_id: &str,
    own_user_id: Option<&str>,
    own_device_id: Option<&str>,
    key_index: i32,
    key: &[u8],
    target_device_id: Option<&str>,
) -> (result: Result<Option<KeySend<H>>, PerParticipantE2eeError>)
    ensures
        match result {
            Ok(None) => key@.len() == 0,
            Err(error) => {
                &&& key@.len() > 0
                &&& own_device_id is None
                &&& error == PerParticipantE2eeError::MissingDeviceId
            },
            Ok(Some(send)) => {
                &&& key@.len() > 0
                &&& own_device_id is Some
                &&& send.share.shares(
                    room_id@,
                    own_user_id,
                    own_device_id,
                    key_index,
                    text::text_of(target_device_id),
                )
                &&& send.share.key@ == sent_key(key@)
                &&& send.recipients@.len() == 0
            },
        },
{
    if key.len() == 0 {
        return Ok(None);
    }
    let key = if key.len() >= SENT_KEY_LENGTH {
        slice_to_vec(slice_subrange(key, 0, SENT_KEY_LENGTH))
    } else {
        slice_to_vec(key)
    };
    match own_device_id {
        None => Err(PerParticipantE2eeError::MissingDeviceId),
        Some(own_device_id) => Ok(
            Some(
                KeySend {
                    share: KeyShare {
                        room_id: room_id.to_owned(),
                        own_user_id: text::owned(own_user_id),
                        own_device_id: own_device_id.to_owned(),
                        key_index,
                        key,
                        target_device_id: text::owned(target_device_id),
                    },
                    recipients: Vec::new(),
                },
            ),
        ),
    }
}

impl<H> KeySend<H> {
    /// Every recipient so far is one that the key goes to.
    pub open spec fn wf(self) -> bool {
        forall|i: int|
            0 <= i < self.recipients@.len() ==> self.share.goes_to(#[trigger] self.recipients@[i])
    }

    /// Collects, from the devices of one member, those that the key goes to.
    pub fn add_devices(&mut self, devices: Vec<Device<H>>)
        ensures
            final(self).share == old(self).share,
            final(self).recipients@ == old(self).recipients@ + old(self).share.recipients_among(
                devices@,
            ),
            old(self).wf() ==> final(self).wf(),
    {
        let ghost before = self.recipients@;
        let ghost all = devices@;
        let ghost share = self.share;
        proof {
            reveal(Seq::filter);
            assert(before + share.recipients_among(all.take(0)) =~= before);
        }
        for device in iter: devices
            invariant
                self.share == share,
                iter.seq() == all,
                self.recipients@ == before + share.recipients_among(all.take(iter.index())),
        {
            let ghost taken = all.take(iter.index() + 1);
            proof {
                reveal(Seq::filter);
                assert(taken.drop_last() =~= all.take(iter.index()));
                assert(taken.last() == device);
            }
            if self.share.sends_to(&device) {
                self.recipients.push(device);
            }
            proof {
                assert(self.recipients@ =~= before + share.recipients_among(taken));
            }
        }
        proof {
            assert(all.take(all.len() as int) =~= all);
            let added = share.recipients_among(all);
            assert forall|i: int| 0 <= i < self.recipients@.len() && old(self).wf() implies share.goes_to(
                #[trigger] self.recipients@[i],
            ) by {
                if i < before.len() {
                    assert(self.recipients@[i] == before[i]);
                } else {
                    all.lemma_filter_pred(
                        |device: Device<H>| share.goes_to(device),
                        i - before.len(),
                    );
                }
            }
        }
    }

    /// Ends the sending: the event to send, made at `sent_ts` milliseconds of Unix time, or `None`
    /// where no device is to get the key.
    pub fn finish(self, sent_ts: u64) -> (result: Result<
        Option<KeyMessage<H>>,
        PerParticipantE2eeError,
    >)
        ensures
            match result {
                Ok(None) => self.recipients@.len() == 0,
                Err(error) => {
                    &&& self.recipients@.len() > 0
                    &&& self.share.own_user_id is None
                    &&& error == PerParticipantE2eeError::MissingUserId
                },
                Ok(Some(message)) => {
                    &&& self.recipients@.len() > 0
                    &&& self.share.own_user_id is Some
                    &&& message.recipients@ == self.recipients@
                    &&& message.event_type@ == key_event_type()
                    &&& json::json_of(message.content) == key_content(
                        self.share.room_id@,
                        self.share.own_user_id->0@,
                        self.share.own_device_id@,
                        self.share.key_index as int,
                        encoding::base64_written(true, false, self.share.key@),
                        sent_ts as int,
                    )
                    &&& encoding::key_of_text(
                        encoding::base64_written(true, false, self.share.key@),
                    ) == Some(self.share.key@)
                },
            },
    {
        if self.recipients.len() == 0 {
            return Ok(None);
        }
        match self.share.own_user_id {
            None => Err(PerParticipantE2eeError::MissingUserId),
            Some(own_user_id) => {
                let key_text = encoding::write_key(self.share.key.as_slice());
                let content = key_event_content(
                    self.share.room_id.as_str(),
                    own_user_id.as_str(),
                    self.share.own_device_id.as_str(),
                    self.share.key_index,
                    key_text.as_str(),
                    sent_ts,
                );
                Ok(
                    Some(
                        KeyMessage {
                            recipients: self.recipients,
                            event_type: "io.element.call.encryption_keys".to_owned(),
                            content,
                        },
                    ),
                )
            },
        }
    }
}

/// The content of an event that carries a key, written as `key_text`, from a device of a user.
pub open spec fn key_content(
    room_id: Seq<char>,
    user_id: Seq<char>,
    device_id: Seq<char>,
    key_index: int,
    key_text: Seq<char>,
    sent_ts: int,
) -> Json {
    Json::Object(
        map![
            "keys"@ => Json::Object(map![
                "index"@ => Json::Whole(key_index),
                "key"@ => Json::Text(key_text),
            ]),
            "device_id"@ => Json::Text(device_id),
            "member"@ => Json::Object(map![
                "claimed_device_id"@ => Json::Text(device_id),
                "id"@ => Json::Text(participant_identity(user_id, device_id)),
            ]),
            "room_id"@ => Json::Text(room_id),
            "session"@ => Json::Object(map![
                "application"@ => Json::Text("m.call"@),
                "call_id"@ => Json::Text(""@),
                "scope"@ => Json::Text("m.room"@),
            ]),
            "sent_ts"@ => Json::Whole(sent_ts),
        ],
    )
}

/// Builds the content of an event that carries a key, written as `key_text`.
pub fn key_event_content(
    room_id: &str,
    user_id: &str,
    device_id: &str,
    key_index: i32,
    key_text: &str,
    sent_ts: u64,
) -> (content: serde_json::Value)
    ensures
        json::json_of(content) == key_content(
            room_id@,
            user_id@,
            device_id@,
            key_index as int,
            key_text@,
            sent_ts as int,
        ),
{
    let mut keys = json::json_object();
    json::json_set(&mut keys, "index", json::json_i32(key_index));
    json::json_set(&mut keys, "key", json::json_text(key_text));

    let member_id = identity_of(user_id, device_id);
    let mut member = json::json_object();
    json::json_set(&mut member, "claimed_device_id", json::json_text(device_id));
    json::json_set(&mut member, "id", json::json_text(member_id.as_str()));

    let mut session = json::json_object();
    json::json_set(&mut session, "application", json::json_text("m.call"));
    json::json_set(&mut session, "call_id", json::json_text(""));
    json::json_set(&mut session, "scope", json::json_text("m.room"));

    let mut content = json::json_object();
    json::json_set(&mut content, "keys", keys);
    json::json_set(&mut content, "device_id", json::json_text(device_id));
    json::json_set(&mut content, "member", member);
    json::json_set(&mut content, "room_id", json::json_text(room_id));
    json::json_set(&mut content, "session", session);
    json::json_set(&mut content, "sent_ts", json::json_u64(sent_ts));
    content
}

/// The identity that a device of a user takes part in a call as.
pub fn identity_of(user_id: &str, device_id: &str) -> (identity: String)
    ensures
        identity@ == participant_identity(user_id@, device_id@),
{
    text::joined(user_id, ":", device_id)
}

/// One key of a received event, under the index that it is installed at.
pub struct IncomingKeyEntry {
    pub index: i32,
    pub key: String,
}

/// The keys of a received event, which holds either one entry or a list of them.
pub enum IncomingKeys {
    One(IncomingKeyEntry),
    Many(Vec<IncomingKeyEntry>),
}

impl IncomingKeys {
    /// The entries, in their order.
    pub open spec fn entries(self) -> Seq<IncomingKeyEntry> {
        match self {
            IncomingKeys::One(entry) => seq![entry],
            IncomingKeys::Many(entries) => entries@,
        }
    }
}

/// The entries of either form, as a list.
pub fn deserialize_key_entries(keys: IncomingKeys) -> (entries: Vec<IncomingKeyEntry>)
    ensures
        entries@ == keys.entries(),
{
    match keys {
        IncomingKeys::One(entry) => {
            let mut entries: Vec<IncomingKeyEntry> = Vec::new();
            entries.push(entry);
            entries
        },
        IncomingKeys::Many(entries) => entries,
    }
}

/// What a received event that carries keys says.
pub struct IncomingKeyToDeviceContent {
    pub room_id: String,
    pub device_id: String,
    pub keys: Vec<IncomingKeyEntry>,
}

/// A received event that may carry keys.
pub struct IncomingKeyToDeviceEvent {
    pub event_type: String,
    pub sender: String,
    pub content: IncomingKeyToDeviceContent,
}

impl IncomingKeyToDeviceEvent {
    /// An event that carries keys for the call in `room_id`.
    pub open spec fn carries_keys_for(self, room_id: Seq<char>) -> bool {
        &&& self.event_type@ == key_event_type()
        &&& self.content.room_id@ == room_id
    }

    /// The participant that the keys are of.
    pub open spec fn identity(self) -> Seq<char> {
        participant_identity(self.sender@, self.content.device_id@)
    }
}

/// A key to install for a participant of the call, at an index of the participant's key ring.
pub struct KeyInstall {
    pub identity: String,
    pub index: i32,
    pub key: Vec<u8>,
}

impl View for KeyInstall {
    type V = (Seq<char>, int, Seq<u8>);

    open spec fn view(&self) -> (Seq<char>, int, Seq<u8>) {
        (self.identity@, self.index as int, self.key@)
    }
}

/// What the text of one entry was read as, if as any key.
pub struct KeyReading {
    pub index: i32,
    pub key: Option<Vec<u8>>,
}

impl View for KeyReading {
    type V = (int, Option<Seq<u8>>);

    open spec fn view(&self) -> (int, Option<Seq<u8>>) {
        (self.index as int, encoding::bytes_of(self.key))
    }
}

/// The keys to install for `identity`: one for each reading that is a key, in their order.
pub open spec fn installs(identity: Seq<char>, readings: Seq<(int, Option<Seq<u8>>)>) -> Seq<
    (Seq<char>, int, Seq<u8>),
>
    decreases readings.len(),
{
    if readings.len() == 0 {
        Seq::empty()
    } else {
        let before = installs(identity, readings.drop_last());
        match readings.last().1 {
            Some(key) => before.push((identity, readings.last().0, key)),
            None => before,
        }
    }
}

/// What `entries` are read as.
pub open spec fn readings_of(entries: Seq<IncomingKeyEntry>) -> Seq<(int, Option<Seq<u8>>)> {
    entries.map_values(
        |entry: IncomingKeyEntry| (entry.index as int, encoding::key_of_text(entry.key@)),
    )
}

/// The keys to install for `identity`. A text that was read as no key is passed over, and the
/// others are installed all the same.
pub fn keys_to_install(identity: &str, readings: Vec<KeyReading>) -> (keys: Vec<KeyInstall>)
    ensures
        keys@.map_values(|install: KeyInstall| install@) == installs(
            identity@,
            readings@.map_values(|reading: KeyReading| reading@),
        ),
{
    let ghost install_view = |install: KeyInstall| install@;
    let ghost all = readings@.map_values(|reading: KeyReading| reading@);
    let mut keys: Vec<KeyInstall> = Vec::new();
    proof {
        assert(keys@.map_values(install_view) =~= Seq::empty());
    }
    for reading in iter: readings
        invariant
            install_view == (|install: KeyInstall| install@),
            all == iter.seq().map_values(|reading: KeyReading| reading@),
            keys@.map_values(install_view) == installs(identity@, all.take(iter.index())),
    {
        let ghost taken = all.take(iter.index() + 1);
        let ghost before = keys@;
        proof {
            assert(taken.drop_last() =~= all.take(iter.index()));
            assert(taken.last() == reading@);
        }
        if let Some(key) = reading.key {
            keys.push(KeyInstall { identity: identity.to_owned(), index: reading.index, key });
            proof {
                assert(keys@.map_values(install_view) =~= before.map_values(install_view).push(
                    (identity@, reading.index as int, key@),
                ));
            }
        }
    }
    proof {
        assert(all.take(all.len() as int) =~= all);
    }
    keys
}

/// What the entries of a received event are read as: nothing, unless it carries keys for the call in
/// `room_id`.
pub fn read_keys(event: &IncomingKeyToDeviceEvent, room_id: &str) -> (readings: Vec<KeyReading>)
    ensures
        readings@.map_values(|reading: KeyReading| reading@) == if event.carries_keys_for(room_id@) {
            readings_of(event.content.keys@)
        } else {
            Seq::empty()
        },
        event.event_type@ != "io.element.call.encryption_keys"@ || event.content.room_id@ != room_id@
            ==> readings@.len() == 0,
{
    let ghost reading_view = |reading: KeyReading| reading@;
    let ghost entries = event.content.keys@;
    let mut readings: Vec<KeyReading> = Vec::new();
    proof {
        assert(readings@.map_values(reading_view) =~= Seq::empty());
        assert(readings_of(entries.take(0)) =~= Seq::empty());
    }
    if !text::same_text(event.event_type.as_str(), "io.element.call.encryption_keys")
        || !text::same_text(event.content.room_id.as_str(), room_id) {
        return readings;
    }
    let mut at: usize = 0;
    while at < event.content.keys.len()
        invariant
            at <= event.content.keys@.len(),
            entries == event.content.keys@,
            reading_view == (|reading: KeyReading| reading@),
            readings@.map_values(reading_view) == readings_of(entries.take(at as int)),
        decreases event.content.keys@.len() - at,
    {
        let entry = &event.content.keys[at];
        let ghost taken = entries.take(at + 1);
        let ghost before = readings@;
        let key = encoding::read_key(entry.key.as_str());
        readings.push(KeyReading { index: entry.index, key });
        proof {
            assert(readings_of(taken) =~= readings_of(entries.take(at as int)).push(
                (entry.index as int, encoding::key_of_text(entry.key@)),
            ));
            assert(readings@.map_values(reading_view) =~= before.map_values(reading_view).push(
                readings@.last()@,
            ));
        }
        at = at + 1;
    }
    proof {
        assert(entries.take(at as int) =~= entries);
    }
    readings
}

/// The keys to install for a received event: none, unless it carries keys for the call in `room_id`.
pub fn received_keys(event: &IncomingKeyToDeviceEvent, room_id: &str) -> (keys: Vec<KeyInstall>)
    ensures
        keys@.map_values(|install: KeyInstall| install@) == if event.carries_keys_for(room_id@) {
            installs(event.identity(), readings_of(event.content.keys@))
        } else {
            Seq::empty()
        },
        event.event_type@ != "io.element.call.encryption_keys"@ || event.content.room_id@ != room_id@
            ==> keys@.len() == 0,
{
    let identity = identity_of(event.sender.as_str(), event.content.device_id.as_str());
    let readings = read_keys(event, room_id);
    let ghost views = readings@.map_values(|reading: KeyReading| reading@);
    let keys = keys_to_install(identity.as_str(), readings);
    proof {
        assert(keys@.len() == keys@.map_values(|install: KeyInstall| install@).len());
        assert(readings@.len() == views.len());
    }
    keys
}

/// What happens in a LiveKit room, as far as keys depend on it. A participant is known by its
/// identity.
pub enum RoomEvent {
    Reconnected,
    ParticipantConnected { identity: String },
    TrackPublished { identity: String },
    TrackSubscribed { identity: String },
    Other,
}

/// Whom to send the own key to again.
pub enum KeyResend {
    Nobody,
    Everyone,
    Device(String),
}

impl View for KeyResend {
    type V = Option<Option<Seq<char>>>;

    /// Whether there is anything to send, and then the one device that it goes to, if it goes to
    /// one.
    open spec fn view(&self) -> Option<Option<Seq<char>>> {
        match self {
            KeyResend::Nobody => None,
            KeyResend::Everyone => Some(None),
            KeyResend::Device(device_id) => Some(Some(device_id@)),
        }
    }
}

/// The participant that an event is about.
pub open spec fn participant_of(event: RoomEvent) -> Option<Seq<char>> {
    match event {
        RoomEvent::ParticipantConnected { identity } => Some(identity@),
        RoomEvent::TrackPublished { identity } => Some(identity@),
        RoomEvent::TrackSubscribed { identity } => Some(identity@),
        RoomEvent::Reconnected => None,
        RoomEvent::Other => None,
    }
}

/// Whom to send the own key to again after `event`: everyone after a reconnect; the device that a
/// participant's identity ends in when one has joined or shows a track, or everyone where the
/// identity names no device; nobody otherwise.
pub open spec fn resend_target(event: RoomEvent) -> Option<Option<Seq<char>>> {
    match participant_of(event) {
        Some(identity) => Some(text::after_last(identity, ':')),
        None => if event is Reconnected {
            Some(None)
        } else {
            None
        },
    }
}

/// Decides whom to send the own key to again after `event`.
pub fn resend_after(event: &RoomEvent) -> (resend: KeyResend)
    ensures
        resend@ == resend_target(*event),
{
    match event {
        RoomEvent::Reconnected => KeyResend::Everyone,
        RoomEvent::ParticipantConnected { identity } => resend_to(identity.as_str()),
        RoomEvent::TrackPublished { identity } => resend_to(identity.as_str()),
        RoomEvent::TrackSubscribed { identity } => resend_to(identity.as_str()),
        RoomEvent::Other => KeyResend::Nobody,
    }
}

/// The device that an identity ends in, or everyone where it names none.
fn resend_to(identity: &str) -> (resend: KeyResend)
    ensures
        resend@ == Some(text::after_last(identity@, ':')),
{
    match text::text_after_last(identity, ':') {
        Some(device_id) => KeyResend::Device(device_id),
        None => KeyResend::Everyone,
    }
}

/// `send` is the sending of the own key that `event` calls for: to those that the event names, and
/// none where it calls for nobody, there is no key, or the client knows no device id of its own.
pub open spec fn resends<P, H>(
    event: RoomEvent,
    context: PerParticipantE2eeContext<P>,
    room_id: Seq<char>,
    own_user_id: Option<&str>,
    own_device_id: Option<&str>,
    send: Option<KeySend<H>>,
) -> bool {
    match send {
        Some(send) => {
            &&& resend_target(event) is Some
            &&& context.local_key@.len() > 0
            &&& own_device_id is Some
            &&& send.share.shares(
                room_id,
                own_user_id,
                own_device_id,
                context.key_index,
                resend_target(event)->0,
            )
            &&& send.share.key@ == sent_key(context.local_key@)
            &&& send.recipients@.len() == 0
        },
        None => resend_target(event) is None || context.local_key@.len() == 0
            || own_device_id is None,
    }
}

/// Starts to send the own key again after `event`, to those that the event calls for; `None` where
/// it calls for nobody, there is no key, or the client knows no device id of its own.
pub fn resend_keys<P, H>(
    event: &RoomEvent,
    context: &PerParticipantE2eeContext<P>,
    room_id: &str,
    own_user_id: Option<&str>,
    own_device_id: Option<&str>,
) -> (send: Option<KeySend<H>>)
    ensures
        resends(*event, *context, room_id@, own_user_id, own_device_id, send),
{
    let target = match resend_after(event) {
        KeyResend::Nobody => return None,
        KeyResend::Everyone => None,
        KeyResend::Device(device_id) => Some(device_id),
    };
    let target_device_id = match &target {
        Some(device_id) => Some(device_id.as_str()),
        None => None,
    };
    match send_per_participant_keys(
        room_id,
        own_user_id,
        own_device_id,
        context.key_index,
        context.local_key.as_slice(),
        target_device_id,
    ) {
        Ok(send) => send,
        Err(_) => None,
    }
}

/// What the resending of keys is told.
pub enum ResendInput {
    /// Something has happened in the LiveKit room.
    Event(RoomEvent),
    /// A sending is over, with success or without.
    Sent { succeeded: bool },
    /// Nothing more will happen in the LiveKit room.
    EventsEnded,
}

/// What the resending of keys asks for.
pub enum ResendAction<H> {
    /// Send the key, then tell how it went.
    Send(KeySend<H>),
    /// Wait for what happens next.
    AwaitEvent,
    /// The resending is done.
    Stop,
}

/// One step of the resending of keys, which runs until the events end. A sending that failed is let
/// be, and what happens next is handled all the same.
pub fn resend_step<P, H>(
    input: &ResendInput,
    context: &PerParticipantE2eeContext<P>,
    room_id: &str,
    own_user_id: Option<&str>,
    own_device_id: Option<&str>,
) -> (action: ResendAction<H>)
    ensures
        match *input {
            ResendInput::Event(event) => match action {
                ResendAction::Send(send) => resends(
                    event,
                    *context,
                    room_id@,
                    own_user_id,
                    own_device_id,
                    Some(send),
                ),
                ResendAction::AwaitEvent => resends::<P, H>(
                    event,
                    *context,
                    room_id@,
                    own_user_id,
                    own_device_id,
                    None,
                ),
                ResendAction::Stop => false,
            },
            ResendInput::Sent { succeeded } => action is AwaitEvent,
            ResendInput::EventsEnded => action is Stop,
        },
{
    match input {
        ResendInput::Event(event) => match resend_keys(
            event,
            context,
            room_id,
            own_user_id,
            own_device_id,
        ) {
            Some(send) => ResendAction::Send(send),
            None => ResendAction::AwaitEvent,
        },
        ResendInput::Sent { succeeded: _ } => ResendAction::AwaitEvent,
        ResendInput::EventsEnded => ResendAction::Stop,
    }
}

/// The grace period, in milliseconds, that `value` sets, or `default_ms` where there is no value or
/// it is no whole number of 64 bits.
pub fn per_participant_key_grace_period_from_env(value: Option<&str>, default_ms: u64) -> (ms: u64)
    ensures
        ms == match value {
            Some(value) => match text::decimal_u64(value@) {
                Some(number) => number,
                None => default_ms,
            },
            None => default_ms,
        },
{
    match value {
        Some(value) => match text::read_u64(value) {
            Some(number) => number,
            None => default_ms,
        },
        None => default_ms,
    }
}

/// The content of a received event says what the JSON `content` holds, where `keys` is one entry.
pub open spec fn reads_as(content: Json, received: IncomingKeyToDeviceContent) -> bool {
    &&& content.text_member("room_id"@) == Some(received.room_id@)
    &&& content.text_member("device_id"@) == Some(received.device_id@)
    &&& received.keys@.len() == 1
    &&& match content.member("keys"@) {
        Some(keys) => {
            &&& keys.member("index"@) == Some(Json::Whole(received.keys@[0].index as int))
            &&& keys.text_member("key"@) == Some(received.keys@[0].key@)
        },
        None => false,
    }
}

/// A key that a device sends is installed where it is received: for the sending device, at the
/// index that it was sent under, as the key that its text stands for, and nothing else is.
pub proof fn law_sent_key_is_installed(
    room_id: Seq<char>,
    user_id: Seq<char>,
    device_id: Seq<char>,
    key_index: int,
    key_text: Seq<char>,
    sent_ts: int,
    event: IncomingKeyToDeviceEvent,
)
    requires
        event.event_type@ == key_event_type(),
        event.sender@ == user_id,
        reads_as(
            key_content(room_id, user_id, device_id, key_index, key_text, sent_ts),
            event.content,
        ),
    ensures
        event.carries_keys_for(room_id),
        installs(event.identity(), readings_of(event.content.keys@)) == match encoding::key_of_text(
            key_text,
        ) {
            Some(key) => seq![(participant_identity(user_id, device_id), key_index, key)],
            None => Seq::empty(),
        },
{
    law_key_content_members(room_id, user_id, device_id, key_index, key_text, sent_ts);
    let readings = readings_of(event.content.keys@);
    assert(readings.drop_last() =~= Seq::empty());
    assert(installs(event.identity(), readings.drop_last()) == Seq::<
        (Seq<char>, int, Seq<u8>),
    >::empty());
    assert(readings.last() == (key_index, encoding::key_of_text(key_text)));
    assert(installs(event.identity(), readings) =~= match encoding::key_of_text(key_text) {
        Some(key) => seq![(participant_identity(user_id, device_id), key_index, key)],
        None => Seq::empty(),
    });
}

/// Entries are installed one by one: none hinders another, and one that is read as no key changes
/// nothing.
pub proof fn law_entries_do_not_hinder_each_other(
    identity: Seq<char>,
    first: Seq<(int, Option<Seq<u8>>)>,
    second: Seq<(int, Option<Seq<u8>>)>,
)
    ensures
        installs(identity, first + second) == installs(identity, first) + installs(
            identity,
            second,
        ),
        forall|index: int| #[trigger]
            installs(identity, first.push((index, None))) == installs(identity, first),
    decreases second.len(),
{
    assert forall|index: int| #[trigger]
        installs(identity, first.push((index, None))) == installs(identity, first) by {
        assert(first.push((index, None)).drop_last() =~= first);
    }
    if second.len() == 0 {
        assert(first + second =~= first);
        assert(installs(identity, first) + installs(identity, second) =~= installs(
            identity,
            first,
        ));
    } else {
        let all = first + second;
        assert(all.drop_last() =~= first + second.drop_last());
        assert(all.last() == second.last());
        law_entries_do_not_hinder_each_other(identity, first, second.drop_last());
        assert(installs(identity, all) =~= installs(identity, first) + installs(
            identity,
            second,
        ));
    }
}

/// The form that a sender writes a key in makes no difference: where the texts of two events stand
/// for the same keys, the same keys are installed.
pub proof fn law_written_form_makes_no_difference(
    event: IncomingKeyToDeviceEvent,
    other: IncomingKeyToDeviceEvent,
)
    requires
        event.event_type@ == other.event_type@,
        event.sender@ == other.sender@,
        event.content.room_id@ == other.content.room_id@,
        event.content.device_id@ == other.content.device_id@,
        event.content.keys@.len() == other.content.keys@.len(),
        forall|i: int|
            0 <= i < event.content.keys@.len() ==> (#[trigger] event.content.keys@[i]).index
                == other.content.keys@[i].index && encoding::key_of_text(
                event.content.keys@[i].key@,
            ) == encoding::key_of_text(other.content.keys@[i].key@),
    ensures
        forall|room_id: Seq<char>|
            event.carries_keys_for(room_id) == other.carries_keys_for(room_id),
        installs(event.identity(), readings_of(event.content.keys@)) == installs(
            other.identity(),
            readings_of(other.content.keys@),
        ),
{
    assert(readings_of(event.content.keys@) =~= readings_of(other.content.keys@));
}

/// One of the events after which keys are sent again.
pub open spec fn calls_for_keys(event: RoomEvent) -> bool {
    !(event is Other)
}

/// Over any run of events the own key is sent once for each event that calls for it, in the order of
/// the events, always the same key under the same index, to those that the event names. How one
/// sending ends changes no other.
pub proof fn law_one_resend_per_event<P, H>(
    events: Seq<RoomEvent>,
    context: PerParticipantE2eeContext<P>,
    room_id: Seq<char>,
    own_user_id: Option<&str>,
    own_device_id: Option<&str>,
    sends: Seq<Option<KeySend<H>>>,
)
    requires
        context.local_key@.len() > 0,
        own_device_id is Some,
        sends.len() == events.len(),
        forall|i: int|
            0 <= i < events.len() ==> resends(
                events[i],
                context,
                room_id,
                own_user_id,
                own_device_id,
                #[trigger] sends[i],
            ),
    ensures
        sends.filter(|send: Option<KeySend<H>>| send is Some).len() == events.filter(
            |event: RoomEvent| calls_for_keys(event),
        ).len(),
        forall|i: int|
            0 <= i < events.len() ==> ((#[trigger] sends[i]) is Some <==> calls_for_keys(
                events[i],
            )),
        forall|i: int|
            0 <= i < events.len() && (#[trigger] sends[i]) is Some ==> {
                &&& sends[i]->0.share.key_index == context.key_index
                &&& sends[i]->0.share.key@ == sent_key(context.local_key@)
                &&& text::owned_text_of(sends[i]->0.share.target_device_id) == resend_target(
                    events[i],
                )->0
            },
    decreases events.len(),
{
    reveal(Seq::filter);
    if events.len() > 0 {
        let last = events.len() - 1;
        assert(resends(
            events[last],
            context,
            room_id,
            own_user_id,
            own_device_id,
            sends[last],
        ));
        assert forall|i: int| 0 <= i < last implies resends(
            events.drop_last()[i],
            context,
            room_id,
            own_user_id,
            own_device_id,
            #[trigger] sends.drop_last()[i],
        ) by {
            assert(sends.drop_last()[i] == sends[i]);
        }
        law_one_resend_per_event(
            events.drop_last(),
            context,
            room_id,
            own_user_id,
            own_device_id,
            sends.drop_last(),
        );
        assert forall|i: int| 0 <= i < events.len() implies ((#[trigger] sends[i]) is Some
            <==> calls_for_keys(events[i])) by {
            assert(resends(
                events[i],
                context,
                room_id,
                own_user_id,
                own_device_id,
                sends[i],
            ));
        }
    }
}

/// Media is encrypted exactly where there is a context, and then with AES-GCM, also after the
/// encryption has been settled for joining.
pub proof fn law_context_decides_encryption<P: Clone>(
    provider: E2eeRoomOptionsProvider<P>,
    provided: RoomOptions<P>,
    chosen: RoomOptions<P>,
)
    requires
        provider.provides(provided),
        provided.resolves_to(chosen),
    ensures
        chosen.encryption is Some <==> provider.e2ee is Some,
        provider.e2ee matches Some(context) ==> chosen.encryption->0.encryption_type
            == EncryptionType::Gcm && cloned::<P>(
            *context.key_provider,
            chosen.encryption->0.key_provider,
        ),
{
}

/// The content of an event that carries a key holds these members and no others: the key under its
/// index, the device twice, the participant, the room, the call and the time.
pub proof fn law_key_content_members(
    room_id: Seq<char>,
    user_id: Seq<char>,
    device_id: Seq<char>,
    key_index: int,
    key_text: Seq<char>,
    sent_ts: int,
)
    ensures
        ({
            let content = key_content(room_id, user_id, device_id, key_index, key_text, sent_ts);
            &&& content.text_member("room_id"@) == Some(room_id)
            &&& content.text_member("device_id"@) == Some(device_id)
            &&& content.member("keys"@) matches Some(keys) && keys.member("index"@) == Some(
                Json::Whole(key_index),
            ) && keys.text_member("key"@) == Some(key_text)
            &&& content.member("member"@) matches Some(member) && member.text_member(
                "claimed_device_id"@,
            ) == Some(device_id) && member.text_member("id"@) == Some(
                user_id + seq![':'] + device_id,
            )
            &&& content.member("session"@) matches Some(session) && session.text_member(
                "application"@,
            ) == Some("m.call"@) && session.text_member("call_id"@) == Some(""@)
                && session.text_member("scope"@) == Some("m.room"@)
            &&& content.member("sent_ts"@) == Some(Json::Whole(sent_ts))
            &&& forall|name: Seq<char>| (#[trigger] content.member(name)) is Some ==> name == "keys"@
                || name == "device_id"@ || name == "member"@ || name == "room_id"@ || name
                == "session"@ || name == "sent_ts"@
        }),
{
    law_identity_is_user_and_device(user_id, device_id, user_id, device_id);
    reveal_strlit("claimed_device_id");
    reveal_strlit("id");
    reveal_strlit("application");
    reveal_strlit("call_id");
    reveal_strlit("scope");
    assert("claimed_device_id"@.len() == 17);
    assert("id"@.len() == 2);
    assert("application"@.len() == 11);
    assert("call_id"@.len() == 7);
    assert("scope"@.len() == 5);
    reveal_strlit("keys");
    reveal_strlit("index");
    reveal_strlit("key");
    reveal_strlit("device_id");
    reveal_strlit("member");
    reveal_strlit("room_id");
    reveal_strlit("session");
    reveal_strlit("sent_ts");
    assert("keys"@.len() == 4);
    assert("index"@.len() == 5);
    assert("key"@.len() == 3);
    assert("device_id"@.len() == 9);
    assert("member"@.len() == 6);
    assert("room_id"@.len() == 7 && "room_id"@[0] == 'r');
    assert("session"@.len() == 7 && "session"@[0] == 's' && "session"@[2] == 's');
    assert("sent_ts"@.len() == 7 && "sent_ts"@[2] == 'n');
}

/// The device of a participant that has joined or shows a track gets the own key again: the identity
/// that the device takes part as names it, and a sending to it alone goes to it, unless it is the
/// sending device. A device id with a colon in it is not found again in the identity.
pub proof fn law_newcomer_gets_key<H>(event: RoomEvent, share: KeyShare, device: Device<H>)
    requires
        participant_of(event) == Some(participant_identity(device.user_id@, device.device_id@)),
        !device.device_id@.contains(':'),
        resend_target(event) == Some(text::owned_text_of(share.target_device_id)),
    ensures
        text::owned_text_of(share.target_device_id) == Some(device.device_id@),
        share.goes_to(device) == !share.is_own(device),
{
    reveal_strlit(":");
    assert(":"@ =~= seq![':']);
    text::lemma_after_last_of_join(device.user_id@, ':', device.device_id@);
}

/// Which devices get a key does not depend on how the devices of the members are split up.
pub proof fn law_batches_add_up<H>(
    share: KeyShare,
    first: Seq<Device<H>>,
    second: Seq<Device<H>>,
)
    ensures
        share.recipients_among(first + second) == share.recipients_among(first)
            + share.recipients_among(second),
{
    Seq::filter_distributes_over_add(first, second, |device: Device<H>| share.goes_to(device));
}

/// A key is sent to every device that it goes to and to no other, the sending device never among
/// them, and with a target to devices of that id only.
pub proof fn law_recipients_are_exactly_those<H>(
    share: KeyShare,
    devices: Seq<Device<H>>,
    device: Device<H>,
)
    ensures
        share.recipients_among(devices).contains(device) <==> devices.contains(device)
            && share.goes_to(device),
        share.is_own(device) ==> !share.recipients_among(devices).contains(device),
{
    broadcast use vstd::seq_lib::group_filter_ensures;

    let goes = |device: Device<H>| share.goes_to(device);
    lemma_filter_within(devices, goes, device);
    if devices.contains(device) && share.goes_to(device) {
        let at = choose|at: int| 0 <= at < devices.len() && devices[at] == device;
        devices.lemma_filter_contains(goes, at);
    }
}

/// What a filter keeps was there before, and passes the filter.
proof fn lemma_filter_within<A>(all: Seq<A>, keep: spec_fn(A) -> bool, item: A)
    ensures
        all.filter(keep).contains(item) ==> all.contains(item) && keep(item),
    decreases all.len(),
{
    reveal(Seq::filter);
    if all.len() > 0 && all.filter(keep).contains(item) {
        let rest = all.drop_last();
        lemma_filter_within(rest, keep, item);
        if rest.filter(keep).contains(item) {
            let at = choose|at: int| 0 <= at < rest.len() && rest[at] == item;
            assert(all[at] == item);
        } else {
            let at = choose|at: int|
                0 <= at < all.filter(keep).len() && all.filter(keep)[at] == item;
            if at < rest.filter(keep).len() {
                assert(rest.filter(keep)[at] == item);
            }
            assert(all[all.len() - 1] == item);
        }
    }
}

/// A key of at most 16 bytes is sent whole, and what is sent of a key is sent whole again.
pub proof fn law_short_key_is_sent_whole(key: Seq<u8>)
    ensures
        key.len() <= SENT_KEY_LENGTH ==> sent_key(key) == key,
        sent_key(sent_key(key)) == sent_key(key),
{
    if key.len() == SENT_KEY_LENGTH {
        assert(key.take(SENT_KEY_LENGTH as int) =~= key);
    }
    assert(sent_key(sent_key(key)) =~= sent_key(key));
}

/// Drawn bytes come from the operating system: they are what a call of `fill_with_random_bytes` has
/// filled a buffer with.
proof fn law_drawn_bytes_come_from_the_system(bytes: Seq<u8>)
    requires
        is_drawn(bytes),
    ensures
        exists|buffer: Vec<u8>, filled: Vec<u8>|
            #[trigger] call_ensures(fill_with_random_bytes, (buffer,), filled) && filled@ == bytes
                && buffer@.len() == bytes.len(),
{
    let (buffer, filled) = choose|buffer: Vec<u8>, filled: Vec<u8>|
        #[trigger] call_ensures(fill_with_random_bytes, (buffer,), filled) && filled@ == bytes;
    assert(filled@.len() == buffer@.len());
}

/// Every key that [`derive_per_participant_key`] gives is made of 16 bytes drawn for it: byte by byte
/// it is what was drawn, but for the first byte where all that was drawn is zeros, which becomes one.
pub proof fn law_fresh_key_is_drawn(key: Vec<u8>)
    requires
        call_ensures(derive_per_participant_key, (), key),
    ensures
        exists|drawn: Seq<u8>| #[trigger]
            is_drawn(drawn) && drawn.len() == 16 && key@.len() == 16 && (forall|i: int|
                0 < i < 16 ==> #[trigger] key@[i] == drawn[i]) && (key@[0] == drawn[0] || (key@[0]
                == 1 && forall|i: int| 0 <= i < 16 ==> #[trigger] drawn[i] == 0)),
        exists|i: int| 0 <= i < 16 && #[trigger] key@[i] != 0,
{
    let drawn = choose|drawn: Seq<u8>| #[trigger]
        is_drawn(drawn) && drawn.len() == 16 && is_key_of(key@, drawn);
    assert(is_drawn(drawn));
}

/// A key without a nonzero byte is all zeros.
pub proof fn law_only_zeros_have_no_nonzero_byte(key: Seq<u8>)
    ensures
        has_nonzero_byte(key) <==> key != Seq::new(key.len(), |i: int| 0u8),
{
    let zeros = Seq::new(key.len(), |i: int| 0u8);
    if !has_nonzero_byte(key) {
        assert(key =~= zeros);
    }
}

/// A sending without a target goes to every device of the members but the sending one; a sending
/// with a target goes to those of them that have the id of the target.
pub proof fn law_every_other_device_gets_the_key<H>(
    share: KeyShare,
    devices: Seq<Device<H>>,
    device: Device<H>,
)
    ensures
        share.target_device_id is None ==> (share.recipients_among(devices).contains(device) <==> (
        devices.contains(device) && !(share.own_user_id is Some && share.own_user_id->0@
            == device.user_id@ && share.own_device_id@ == device.device_id@))),
        share.target_device_id is Some ==> (share.recipients_among(devices).contains(device) <==> (
        devices.contains(device) && device.device_id@ == share.target_device_id->0@ && !(
        share.own_user_id is Some && share.own_user_id->0@ == device.user_id@
            && share.own_device_id@ == device.device_id@))),
{
    law_recipients_are_exactly_those(share, devices, device);
}

/// One more device changes nothing for those before it: it is added behind them, or left out where it
/// is the sending one or not the target.
pub proof fn law_one_more_device<H>(share: KeyShare, devices: Seq<Device<H>>, device: Device<H>)
    ensures
        share.recipients_among(Seq::<Device<H>>::empty()) == Seq::<Device<H>>::empty(),
        share.own_user_id is Some && share.own_user_id->0@ == device.user_id@
            && share.own_device_id@ == device.device_id@ ==> share.recipients_among(
            devices.push(device),
        ) == share.recipients_among(devices),
        share.target_device_id is Some && share.target_device_id->0@ != device.device_id@
            ==> share.recipients_among(devices.push(device)) == share.recipients_among(devices),
        (share.own_user_id is None || share.own_user_id->0@ != device.user_id@
            || share.own_device_id@ != device.device_id@) && (share.target_device_id is None
            || share.target_device_id->0@ == device.device_id@) ==> share.recipients_among(
            devices.push(device),
        ) == share.recipients_among(devices).push(device),
{
    reveal(Seq::filter);
    assert(devices.push(device).drop_last() =~= devices);
    assert(devices.push(device).last() == device);
}

/// A sending tells its room, its sender, its index and its target as they were given.
pub proof fn law_share_is_as_given(
    share: KeyShare,
    room_id: Seq<char>,
    own_user_id: Option<&str>,
    own_device_id: Option<&str>,
    key_index: i32,
    target_device_id: Option<Seq<char>>,
)
    requires
        share.shares(room_id, own_user_id, own_device_id, key_index, target_device_id),
    ensures
        share.room_id@ == room_id,
        own_user_id is Some <==> share.own_user_id is Some,
        own_user_id matches Some(user_id) ==> share.own_user_id->0@ == user_id@,
        own_device_id is Some && share.own_device_id@ == own_device_id->0@,
        share.key_index == key_index,
        target_device_id is Some <==> share.target_device_id is Some,
        target_device_id matches Some(target) ==> share.target_device_id->0@ == target,
{
}

/// Of a key its first 16 bytes are sent, and all of a shorter one.
pub proof fn law_sent_part_of_a_key(key: Seq<u8>)
    ensures
        sent_key(key).is_prefix_of(key),
        sent_key(key).len() == 16 || (sent_key(key).len() == key.len() && key.len() < 16),
{
}

/// The identity of a participant is the user id, a colon and the device id, and so tells the two
/// apart as long as the device id has no colon.
pub proof fn law_identity_is_user_and_device(
    user_id: Seq<char>,
    device_id: Seq<char>,
    other_user_id: Seq<char>,
    other_device_id: Seq<char>,
)
    ensures
        participant_identity(user_id, device_id) == user_id + seq![':'] + device_id,
        !device_id.contains(':') && !other_device_id.contains(':') && participant_identity(
            user_id,
            device_id,
        ) == participant_identity(other_user_id, other_device_id) ==> user_id == other_user_id
            && device_id == other_device_id,
{
    reveal_strlit(":");
    assert(":"@ =~= seq![':']);
    let one = user_id + seq![':'] + device_id;
    let two = other_user_id + seq![':'] + other_device_id;
    if !device_id.contains(':') && !other_device_id.contains(':') && one == two {
        text::lemma_after_last_of_join(user_id, ':', device_id);
        text::lemma_after_last_of_join(other_user_id, ':', other_device_id);
        assert(user_id =~= one.take(user_id.len() as int));
        assert(other_user_id =~= two.take(other_user_id.len() as int));
    }
}

/// An event carries keys for a room exactly where it is of the type of key events and names that
/// room, so for no other room; its keys are of the device that it names, of the user that sent it.
pub proof fn law_keys_are_for_one_room(
    event: IncomingKeyToDeviceEvent,
    room_id: Seq<char>,
    other_room_id: Seq<char>,
)
    ensures
        event.event_type@ != "io.element.call.encryption_keys"@ ==> !event.carries_keys_for(
            room_id,
        ),
        event.content.room_id@ != room_id ==> !event.carries_keys_for(room_id),
        event.event_type@ == "io.element.call.encryption_keys"@ ==> event.carries_keys_for(
            event.content.room_id@,
        ),
        event.carries_keys_for(room_id) && event.carries_keys_for(other_room_id) ==> room_id
            == other_room_id,
        event.identity() == event.sender@ + seq![':'] + event.content.device_id@,
{
    law_identity_is_user_and_device(
        event.sender@,
        event.content.device_id@,
        event.sender@,
        event.content.device_id@,
    );
}

/// Keys are sent in events of the type that they are received in.
pub proof fn law_key_event_type()
    ensures
        key_event_type() == "io.element.call.encryption_keys"@,
{
}

/// A single entry stands for itself, and a list for its entries.
pub proof fn law_entries_of_either_form(entry: IncomingKeyEntry, entries: Vec<IncomingKeyEntry>)
    ensures
        IncomingKeys::One(entry).entries() == seq![entry],
        IncomingKeys::Many(entries).entries() == entries@,
{
}

/// Each entry is read by its own text, at its own index, and in its place.
pub proof fn law_entries_are_read_one_by_one(entries: Seq<IncomingKeyEntry>, i: int)
    requires
        0 <= i < entries.len(),
    ensures
        readings_of(entries).len() == entries.len(),
        readings_of(entries)[i].0 == entries[i].index,
        readings_of(entries)[i].1 == encoding::key_of_text(entries[i].key@),
{
}

/// One entry that is read as a key is installed as that key, at its index, for the participant.
pub proof fn law_readable_entry_is_installed(identity: Seq<char>, index: int, key: Seq<u8>)
    ensures
        installs(identity, Seq::empty()) == Seq::<(Seq<char>, int, Seq<u8>)>::empty(),
        installs(identity, seq![(index, Some(key))]) == seq![(identity, index, key)],
        installs(identity, seq![(index, None)]) == Seq::<(Seq<char>, int, Seq<u8>)>::empty(),
{
    let none = Seq::<(int, Option<Seq<u8>>)>::empty();
    assert(seq![(index, Some(key))].drop_last() =~= none);
    assert(seq![(index, None::<Seq<u8>>)].drop_last() =~= none);
    assert(installs(identity, none).push((identity, index, key)) =~= seq![(identity, index, key)]);
}

/// What is to be installed, and what was read, is told by all its fields.
pub proof fn law_views_hold_all_fields(install: KeyInstall, reading: KeyReading)
    ensures
        install@.0 == install.identity@ && install@.1 == install.index && install@.2
            == install.key@,
        reading@.0 == reading.index,
        reading.key is None ==> reading@.1 is None,
        reading.key matches Some(key) ==> reading@.1 == Some(key@),
{
}

/// After a reconnect everyone gets the own key again, and after anything that does not concern keys
/// nobody; when a participant joins or shows a track, its device does, or everyone where its
/// identity has no colon.
pub proof fn law_who_gets_the_key_again(
    event: RoomEvent,
    identity: String,
    user_id: Seq<char>,
    device_id: Seq<char>,
)
    requires
        event == (RoomEvent::ParticipantConnected { identity }) || event == (
        RoomEvent::TrackPublished { identity }) || event == (RoomEvent::TrackSubscribed {
            identity,
        }),
    ensures
        resend_target(RoomEvent::Reconnected) == Some(None::<Seq<char>>),
        resend_target(RoomEvent::Other) is None,
        !identity@.contains(':') ==> resend_target(event) == Some(None::<Seq<char>>),
        !device_id.contains(':') && identity@ == user_id + seq![':'] + device_id ==> resend_target(
            event,
        ) == Some(Some(device_id)),
{
    identity@.index_of_last_ensures(':');
    if !device_id.contains(':') {
        text::lemma_after_last_of_join(user_id, ':', device_id);
    }
}

/// Nobody, everyone and one device are told apart.
pub proof fn law_resends_are_told_apart(device_id: String)
    ensures
        KeyResend::Nobody@ is None,
        KeyResend::Everyone@ == Some(None::<Seq<char>>),
        KeyResend::Device(device_id)@ == Some(Some(device_id@)),
{
}

/// The provider of room options asks for encryption exactly where it has a context, in the newer of
/// the two settings, with AES-GCM and with the key provider of the context.
pub proof fn law_provider_asks_for_encryption<P: Clone>(
    provider: E2eeRoomOptionsProvider<P>,
    provided: RoomOptions<P>,
)
    requires
        provider.provides(provided),
    ensures
        provider.is_ready(),
        provided.e2ee is None,
        provided.encryption is Some <==> provider.e2ee is Some,
        provider.e2ee matches Some(context) ==> provided.encryption->0.encryption_type
            == EncryptionType::Gcm && cloned::<P>(
            *context.key_provider,
            provided.encryption->0.key_provider,
        ),
{
}

/// A call that begins has a key made of bytes drawn for it, under index 0, and sends that very key to
/// everyone; it fails only for want of a device.
pub proof fn law_call_begins_with_a_drawn_key<P, H>(
    room_id: &str,
    own_user_id: Option<&str>,
    own_device_id: Option<&str>,
    key_provider: P,
    result: Result<PerParticipantE2eeStart<P, H>, PerParticipantE2eeError>,
)
    requires
        call_ensures(
            build_per_participant_e2ee::<P, H>,
            (room_id, own_user_id, own_device_id, key_provider),
            result,
        ),
    ensures
        result is Ok <==> own_device_id is Some,
        result matches Ok(start) ==> {
            &&& exists|drawn: Seq<u8>| #[trigger]
                is_drawn(drawn) && drawn.len() == 16 && (start.context.local_key@ == drawn || (
                start.context.local_key@ == drawn.update(0, 1) && forall|i: int|
                    0 <= i < 16 ==> #[trigger] drawn[i] == 0))
            &&& start.context.key_index == 0
            &&& *start.context.key_provider == key_provider
            &&& start.send.share.key@ == start.context.local_key@
            &&& start.send.share.key_index == 0
            &&& start.send.share.room_id@ == room_id@
            &&& start.send.share.target_device_id is None
            &&& start.send.recipients@.len() == 0
        },
{
    if let Ok(start) = result {
        law_fresh_key_is_drawn(start.context.local_key);
        let drawn = choose|drawn: Seq<u8>| #[trigger]
            is_drawn(drawn) && drawn.len() == 16 && is_key_of(start.context.local_key@, drawn);
        assert(is_drawn(drawn));
    }
}

/// A call begins with the key that it is given.
pub proof fn law_call_begins_with_the_given_key<P, H>(
    room_id: &str,
    own_user_id: Option<&str>,
    own_device_id: Option<&str>,
    key_provider: P,
    local_key: Vec<u8>,
    result: Result<PerParticipantE2eeStart<P, H>, PerParticipantE2eeError>,
)
    requires
        call_ensures(
            start_per_participant_e2ee::<P, H>,
            (room_id, own_user_id, own_device_id, key_provider, local_key),
            result,
        ),
    ensures
        result is Ok <==> own_device_id is Some,
        result matches Ok(start) ==> start.context.local_key@ == local_key@
            && start.send.share.key@ == local_key@ && start.context.key_index == 0
            && start.send.share.key_index == 0 && start.send.share.target_device_id is None,
{
}

/// Bytes that are not all zeros are the key that they make.
pub proof fn law_drawn_bytes_are_the_key(drawn: Vec<u8>, key: Vec<u8>)
    requires
        call_ensures(key_of_drawn_bytes, (drawn,), key),
        drawn@.len() == 16,
    ensures
        (exists|i: int| 0 <= i < 16 && #[trigger] drawn@[i] != 0) ==> key@ == drawn@,
        exists|i: int| 0 <= i < 16 && #[trigger] key@[i] != 0,
        key@.len() == 16,
{
}

/// A sending fails only for want of a device, is empty only for want of a key, and otherwise sends at
/// most 16 bytes from the start of the key, in the room, under the index and to the target given.
pub proof fn law_sending_is_as_asked<H>(
    room_id: &str,
    own_user_id: Option<&str>,
    own_device_id: Option<&str>,
    key_index: i32,
    key: &[u8],
    target_device_id: Option<&str>,
    result: Result<Option<KeySend<H>>, PerParticipantE2eeError>,
)
    requires
        call_ensures(
            send_per_participant_keys::<H>,
            (room_id, own_user_id, own_device_id, key_index, key, target_device_id),
            result,
        ),
    ensures
        result is Err <==> key@.len() > 0 && own_device_id is None,
        result matches Err(error) ==> error == PerParticipantE2eeError::MissingDeviceId,
        (result is Ok && result->Ok_0 is None) <==> key@.len() == 0,
        result matches Ok(Some(send)) ==> {
            &&& send.share.key@.is_prefix_of(key@)
            &&& send.share.key@.len() == if key@.len() < 16 {
                key@.len()
            } else {
                16
            }
            &&& send.share.room_id@ == room_id@
            &&& send.share.key_index == key_index
            &&& send.share.own_device_id@ == own_device_id->0@
            &&& own_user_id is Some <==> send.share.own_user_id is Some
            &&& own_user_id matches Some(user_id) ==> send.share.own_user_id->0@ == user_id@
            &&& target_device_id is Some <==> send.share.target_device_id is Some
            &&& target_device_id matches Some(target) ==> send.share.target_device_id->0@ == target@
            &&& send.recipients@.len() == 0
        },
{
}

/// A finished sending goes to all recipients that were collected, as an event of the type of key
/// events that holds the room, the sender, the index and the key; it is empty only without
/// recipients and fails only for want of a user.
pub proof fn law_finished_sending_holds_the_key<H>(
    send: KeySend<H>,
    sent_ts: u64,
    result: Result<Option<KeyMessage<H>>, PerParticipantE2eeError>,
)
    requires
        call_ensures(KeySend::<H>::finish, (send, sent_ts), result),
    ensures
        (result is Ok && result->Ok_0 is None) <==> send.recipients@.len() == 0,
        result is Err <==> send.recipients@.len() > 0 && send.share.own_user_id is None,
        result matches Err(error) ==> error == PerParticipantE2eeError::MissingUserId,
        result matches Ok(Some(message)) ==> {
            let content = json::json_of(message.content);
            &&& message.recipients@ == send.recipients@
            &&& message.event_type@ == "io.element.call.encryption_keys"@
            &&& content.text_member("room_id"@) == Some(send.share.room_id@)
            &&& content.text_member("device_id"@) == Some(send.share.own_device_id@)
            &&& content.member("sent_ts"@) == Some(Json::Whole(sent_ts as int))
            &&& content.member("keys"@) matches Some(keys) && keys.member("index"@) == Some(
                Json::Whole(send.share.key_index as int),
            ) && keys.text_member("key"@) is Some && encoding::key_of_text(
                keys.text_member("key"@)->0,
            ) == Some(send.share.key@)
            &&& content.member("member"@) matches Some(member) && member.text_member("id"@)
                == Some(send.share.own_user_id->0@ + seq![':'] + send.share.own_device_id@)
        },
{
    if let Ok(Some(message)) = result {
        law_key_content_members(
            send.share.room_id@,
            send.share.own_user_id->0@,
            send.share.own_device_id@,
            send.share.key_index as int,
            encoding::base64_written(true, false, send.share.key@),
            sent_ts as int,
        );
    }
}

/// What is to be installed is exactly what was read as a key, at the same index.
proof fn lemma_installs_are_readings(
    identity: Seq<char>,
    readings: Seq<(int, Option<Seq<u8>>)>,
    install: (Seq<char>, int, Seq<u8>),
)
    ensures
        installs(identity, readings).contains(install) <==> install.0 == identity
            && readings.contains((install.1, Some(install.2))),
    decreases readings.len(),
{
    let all = installs(identity, readings);
    let reading = (install.1, Some(install.2));
    if readings.len() > 0 {
        let rest = readings.drop_last();
        let before = installs(identity, rest);
        lemma_installs_are_readings(identity, rest, install);
        if before.contains(install) {
            let at = before.index_of(install);
            assert(all[at] == install);
        }
        if rest.contains(reading) {
            let at = rest.index_of(reading);
            assert(readings[at] == reading);
        }
        if readings.contains(reading) && !rest.contains(reading) {
            let at = readings.index_of(reading);
            if at < rest.len() {
                assert(rest[at] == reading);
            }
            assert(readings.last() == reading);
            if install.0 == identity {
                assert(all[all.len() - 1] == install);
            }
        }
        if all.contains(install) && !before.contains(install) {
            let at = all.index_of(install);
            if at < before.len() {
                assert(before[at] == install);
            }
            assert(readings[readings.len() - 1] == reading);
        }
    }
}

/// Of an event of another type, or for another room, nothing is installed. Of a key event for the room
/// exactly those entries are that are read as keys: each for the device and the user that sent the
/// event, at its own index.
pub proof fn law_received_keys_are_those_of_the_event(
    event: &IncomingKeyToDeviceEvent,
    room_id: &str,
    keys: Vec<KeyInstall>,
)
    requires
        call_ensures(received_keys, (event, room_id), keys),
    ensures
        event.event_type@ != "io.element.call.encryption_keys"@ ==> keys@.len() == 0,
        event.content.room_id@ != room_id@ ==> keys@.len() == 0,
        forall|i: int|
            0 <= i < keys@.len() ==> (#[trigger] keys@[i]).identity@ == event.sender@ + seq![':']
                + event.content.device_id@ && exists|j: int|
                0 <= j < event.content.keys@.len() && (#[trigger] event.content.keys@[j]).index
                    == keys@[i].index && encoding::key_of_text(event.content.keys@[j].key@) == Some(
                    keys@[i].key@,
                ),
        event.event_type@ == "io.element.call.encryption_keys"@ && event.content.room_id@ == room_id@
            ==> forall|j: int|
            0 <= j < event.content.keys@.len() && encoding::key_of_text(
                (#[trigger] event.content.keys@[j]).key@,
            ) is Some ==> exists|i: int|
                0 <= i < keys@.len() && (#[trigger] keys@[i]).index == event.content.keys@[j].index
                    && keys@[i].key@ == encoding::key_of_text(event.content.keys@[j].key@)->0,
{
    law_identity_is_user_and_device(
        event.sender@,
        event.content.device_id@,
        event.sender@,
        event.content.device_id@,
    );
    let entries = event.content.keys@;
    let readings = readings_of(entries);
    let views = keys@.map_values(|install: KeyInstall| install@);
    assert(views.len() == keys@.len());
    if event.event_type@ == "io.element.call.encryption_keys"@ && event.content.room_id@ == room_id@ {
        assert(views == installs(event.identity(), readings));
        assert forall|i: int| 0 <= i < keys@.len() implies (#[trigger] keys@[i]).identity@
            == event.sender@ + seq![':'] + event.content.device_id@ && exists|j: int|
            0 <= j < entries.len() && (#[trigger] entries[j]).index == keys@[i].index
                && encoding::key_of_text(entries[j].key@) == Some(keys@[i].key@) by {
            let install = keys@[i]@;
            assert(views[i] == install);
            assert(views.contains(install));
            lemma_installs_are_readings(event.identity(), readings, install);
            let at = readings.index_of((install.1, Some(install.2)));
            assert(readings[at] == (install.1, Some(install.2)));
            assert(entries[at].index == keys@[i].index);
        }
        assert forall|j: int|
            0 <= j < entries.len() && encoding::key_of_text((#[trigger] entries[j]).key@) is Some
            implies exists|i: int|
            0 <= i < keys@.len() && (#[trigger] keys@[i]).index == entries[j].index && keys@[i].key@
                == encoding::key_of_text(entries[j].key@)->0 by {
            let key = encoding::key_of_text(entries[j].key@)->0;
            let install = (event.identity(), entries[j].index as int, key);
            assert(readings[j] == (entries[j].index as int, Some(key)));
            assert(readings.contains((install.1, Some(install.2))));
            lemma_installs_are_readings(event.identity(), readings, install);
            let at = views.index_of(install);
            assert(views[at] == install);
            assert(keys@[at]@ == install);
            assert(keys@[at].index == entries[j].index);
        }
    }
}

/// A key that was sent arrives: whoever receives the event of a finished sending, and is in the same
/// room, installs that key and nothing else, for the device that sent it, under the index that it was
/// sent under.
pub proof fn law_sent_key_arrives<H>(
    send: KeySend<H>,
    sent_ts: u64,
    message: KeyMessage<H>,
    event: &IncomingKeyToDeviceEvent,
    room_id: &str,
    keys: Vec<KeyInstall>,
)
    requires
        call_ensures(KeySend::<H>::finish, (send, sent_ts), Ok(Some(message))),
        event.event_type@ == message.event_type@,
        send.share.own_user_id is Some && event.sender@ == send.share.own_user_id->0@,
        reads_as(json::json_of(message.content), event.content),
        room_id@ == send.share.room_id@,
        call_ensures(received_keys, (event, room_id), keys),
    ensures
        keys@.len() == 1,
        keys@[0].identity@ == send.share.own_user_id->0@ + seq![':'] + send.share.own_device_id@,
        keys@[0].index == send.share.key_index,
        keys@[0].key@ == send.share.key@,
{
    let key_text = encoding::base64_written(true, false, send.share.key@);
    law_sent_key_is_installed(
        send.share.room_id@,
        send.share.own_user_id->0@,
        send.share.own_device_id@,
        send.share.key_index as int,
        key_text,
        sent_ts as int,
        *event,
    );
    law_identity_is_user_and_device(
        send.share.own_user_id->0@,
        send.share.own_device_id@,
        send.share.own_user_id->0@,
        send.share.own_device_id@,
    );
    let views = keys@.map_values(|install: KeyInstall| install@);
    assert(views.len() == keys@.len());
    assert(views[0] == keys@[0]@);
}

/// The own key is sent again exactly after events that call for it, where there is a key and a device
/// to send it from: after a reconnect to everyone, and otherwise to the device that the participant
/// names.
pub proof fn law_key_is_sent_again<P, H>(
    event: &RoomEvent,
    context: &PerParticipantE2eeContext<P>,
    room_id: &str,
    own_user_id: Option<&str>,
    own_device_id: Option<&str>,
    send: Option<KeySend<H>>,
)
    requires
        call_ensures(
            resend_keys::<P, H>,
            (event, context, room_id, own_user_id, own_device_id),
            send,
        ),
    ensures
        send is Some <==> !(*event is Other) && context.local_key@.len() > 0
            && own_device_id is Some,
        send matches Some(send) ==> {
            &&& send.share.key@.is_prefix_of(context.local_key@)
            &&& send.share.key@.len() == 16 || send.share.key@ == context.local_key@
            &&& send.share.key_index == context.key_index
            &&& send.share.room_id@ == room_id@
            &&& send.share.own_device_id@ == own_device_id->0@
            &&& own_user_id is Some <==> send.share.own_user_id is Some
            &&& own_user_id matches Some(user_id) ==> send.share.own_user_id->0@ == user_id@
            &&& *event is Reconnected ==> send.share.target_device_id is None
            &&& send.recipients@.len() == 0
        },
{
}

/// A grace period that is not set, or is set to no number, is the default; one that is set to a number
/// is that number.
pub proof fn law_grace_period_is_the_number_or_the_default(
    value: Option<&str>,
    default_ms: u64,
    ms: u64,
)
    requires
        call_ensures(per_participant_key_grace_period_from_env, (value, default_ms), ms),
    ensures
        value is None ==> ms == default_ms,
        value matches Some(value) ==> text::decimal_u64(value@) is None ==> ms == default_ms,
        value matches Some(value) ==> value@.len() > 0 && (forall|i: int|
            0 <= i < value@.len() ==> '0' <= #[trigger] value@[i] <= '9') && text::decimal(value@)
            <= 0xFFFF_FFFF_FFFF_FFFF ==> ms == text::decimal(value@),
        value matches Some(value) ==> (exists|i: int|
            0 < i < value@.len() && !('0' <= #[trigger] value@[i] <= '9')) ==> ms == default_ms,
{
    if let Some(value) = value {
        text::law_numbers_are_digits(value@);
    }
}

/// The identity that is computed for a user and a device is both, with a colon between them.
pub proof fn law_computed_identity(user_id: &str, device_id: &str, identity: String)
    requires
        call_ensures(identity_of, (user_id, device_id), identity),
    ensures
        identity@ == user_id@ + seq![':'] + device_id@,
{
    law_identity_is_user_and_device(user_id@, device_id@, user_id@, device_id@);
}

/// The entries of an event are all installed from, in either form.
pub proof fn law_deserialized_entries(keys: IncomingKeys, entries: Vec<IncomingKeyEntry>)
    requires
        call_ensures(deserialize_key_entries, (keys,), entries),
    ensures
        keys matches IncomingKeys::One(entry) ==> entries@ == seq![entry],
        keys matches IncomingKeys::Many(many) ==> entries@ == many@,
{
}

/// What is to be installed for a participant is installed for that participant, and is exactly what
/// was read as a key.
pub proof fn law_installs_are_of_the_participant(
    identity: &str,
    readings: Vec<KeyReading>,
    keys: Vec<KeyInstall>,
    i: int,
)
    requires
        call_ensures(keys_to_install, (identity, readings), keys),
        0 <= i < keys@.len(),
    ensures
        keys@[i].identity@ == identity@,
        exists|j: int|
            0 <= j < readings@.len() && (#[trigger] readings@[j]).index == keys@[i].index
                && readings@[j].key is Some && readings@[j].key->0@ == keys@[i].key@,
{
    let views = keys@.map_values(|install: KeyInstall| install@);
    let read = readings@.map_values(|reading: KeyReading| reading@);
    let install = keys@[i]@;
    assert(views[i] == install);
    assert(views.contains(install));
    lemma_installs_are_readings(identity@, read, install);
    let at = read.index_of((install.1, Some(install.2)));
    assert(read[at] == (install.1, Some(install.2)));
    assert(readings@[at]@ == read[at]);
    assert(readings@[at].index == keys@[i].index);
}

/// The key provider of a call keeps 256 keys, looks for ratcheted ones in a window of 10, and derives
/// with HKDF.
pub proof fn law_key_provider_options(options: KeyProviderOptions)
    requires
        call_ensures(per_participant_key_provider_options, (), options),
    ensures
        options.key_ring_size == 256,
        options.ratchet_window_size == 10,
        options.key_derivation == KeyDerivation::Hkdf,
{
}

/// The resending of keys waits after every sending, however it ended, stops only when the events end,
/// and after an event sends or waits.
pub proof fn law_resending_goes_on<P, H>(
    input: &ResendInput,
    context: &PerParticipantE2eeContext<P>,
    room_id: &str,
    own_user_id: Option<&str>,
    own_device_id: Option<&str>,
    action: ResendAction<H>,
)
    requires
        call_ensures(
            resend_step::<P, H>,
            (input, context, room_id, own_user_id, own_device_id),
            action,
        ),
    ensures
        action is Stop <==> *input is EventsEnded,
        *input is Sent ==> action is AwaitEvent,
        *input is Event ==> (action is Send <==> !((*input)->Event_0 is Other)
            && context.local_key@.len() > 0 && own_device_id is Some),
        action matches ResendAction::Send(send) ==> send.share.key_index == context.key_index
            && send.share.key@.is_prefix_of(context.local_key@) && send.share.room_id@ == room_id@,
{
}

/// Whom the own key goes to again after an event is what is decided: everyone after a reconnect,
/// nobody after what does not concern keys, and one device only after a participant that names it.
pub proof fn law_decided_resend(event: &RoomEvent, resend: KeyResend)
    requires
        call_ensures(resend_after, (event,), resend),
    ensures
        *event is Reconnected ==> resend is Everyone,
        *event is Other <==> resend is Nobody,
        resend matches KeyResend::Device(device_id) ==> participant_of(*event) is Some
            && participant_of(*event)->0.len() >= device_id@.len() + 1 && participant_of(
            *event,
        )->0.skip(participant_of(*event)->0.len() - device_id@.len()) == device_id@,
{
    if let Some(identity) = participant_of(*event) {
        identity.index_of_last_ensures(':');
    }
}

} // verus!
