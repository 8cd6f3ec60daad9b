//! Element Call specific widget helpers.

use crate::identifiers::{self, UserId};
use crate::json;
use crate::json::Json;
use crate::text;
use ruma::events::call::member;
use ruma::{MilliSecondsSinceUnixEpoch, UInt};
use std::time::Duration;
use vstd::prelude::*;

verus! {

/// A type of message-like events that is known by more than its text.
#[derive(Debug, Clone, Copy, PartialEq, Eq, Structural)]
pub enum MessageLikeEventType {
    Reaction,
    RoomRedaction,
    RtcDecline,
    RtcNotification,
    CallNotify,
}

impl MessageLikeEventType {
    /// The text of the type in an event.
    pub open spec fn wire_text(self) -> Seq<char> {
        match self {
            MessageLikeEventType::Reaction => "m.reaction"@,
            MessageLikeEventType::RoomRedaction => "m.room.redaction"@,
            MessageLikeEventType::RtcDecline => "org.matrix.msc4310.rtc.decline"@,
            MessageLikeEventType::RtcNotification => "org.matrix.msc4075.rtc.notification"@,
            MessageLikeEventType::CallNotify => "org.matrix.msc4075.call.notify"@,
        }
    }
}

/// A type of state events.
#[derive(Debug, Clone, Copy, PartialEq, Eq, Structural)]
pub enum StateEventType {
    CallMember,
    RoomName,
    RoomMember,
    RoomEncryption,
    RoomCreate,
}

impl StateEventType {
    /// The text of the type in an event.
    pub open spec fn wire_text(self) -> Seq<char> {
        match self {
            StateEventType::CallMember => "org.matrix.msc3401.call.member"@,
            StateEventType::RoomName => "m.room.name"@,
            StateEventType::RoomMember => "m.room.member"@,
            StateEventType::RoomEncryption => "m.room.encryption"@,
            StateEventType::RoomCreate => "m.room.create"@,
        }
    }
}

/// Writes a variant of `ruma::events::MessageLikeEventType` with `to_string`: the type as events
/// spell it.
#[verifier::external_body]
#[allow(deprecated)]
fn message_like_type_text(event_type: MessageLikeEventType) -> (text: String)
    ensures
        text@ == event_type.wire_text(),
{
    let event_type = match event_type {
        MessageLikeEventType::Reaction => ruma::events::MessageLikeEventType::Reaction,
        MessageLikeEventType::RoomRedaction => ruma::events::MessageLikeEventType::RoomRedaction,
        MessageLikeEventType::RtcDecline => ruma::events::MessageLikeEventType::RtcDecline,
        MessageLikeEventType::RtcNotification => ruma::events::MessageLikeEventType::RtcNotification,
        MessageLikeEventType::CallNotify => ruma::events::MessageLikeEventType::CallNotify,
    };
    event_type.to_string()
}

/// Writes a variant of `ruma::events::StateEventType` with `to_string`: the type as events spell it.
#[verifier::external_body]
fn state_type_text(event_type: StateEventType) -> (text: String)
    ensures
        text@ == event_type.wire_text(),
{
    let event_type = match event_type {
        StateEventType::CallMember => ruma::events::StateEventType::CallMember,
        StateEventType::RoomName => ruma::events::StateEventType::RoomName,
        StateEventType::RoomMember => ruma::events::StateEventType::RoomMember,
        StateEventType::RoomEncryption => ruma::events::StateEventType::RoomEncryption,
        StateEventType::RoomCreate => ruma::events::StateEventType::RoomCreate,
    };
    event_type.to_string()
}

/// `text` begins with `m.`, as the event types of Matrix itself do.
pub open spec fn is_standard_type(text: Seq<char>) -> bool {
    text.len() >= 2 && text[0] == 'm' && text[1] == '.'
}

/// Calls `ruma::events::MessageLikeEventType::from` and writes the type with `to_string`: a text
/// comes back as it was. Texts that the enum has under another name are left out; those are some
/// texts that begin with `m.`, and one more.
#[verifier::external_body]
fn custom_message_like_type(text: &str) -> (event_type: String)
    requires
        !is_standard_type(text@),
        text@ != "org.matrix.call.sdp_stream_metadata_changed"@,
    ensures
        event_type@ == text@,
{
    ruma::events::MessageLikeEventType::from(text).to_string()
}

/// Calls `ruma::events::ToDeviceEventType::from` and writes the type with `to_string`: a text comes
/// back as it was. Texts that the enum has under another name are left out; they begin with `m.`.
#[verifier::external_body]
fn custom_to_device_type(text: &str) -> (event_type: String)
    requires
        !is_standard_type(text@),
    ensures
        event_type@ == text@,
{
    ruma::events::ToDeviceEventType::from(text).to_string()
}

/// Events that a widget may read or send. Event types are known by their text.
pub enum Filter {
    MessageLike(MessageLikeEventFilter),
    State(StateEventFilter),
    ToDevice(ToDeviceEventFilter),
}

/// Message-like events of one type.
pub enum MessageLikeEventFilter {
    WithType(String),
}

/// State events of one type, under any state key or under one.
pub enum StateEventFilter {
    WithType(String),
    WithTypeAndStateKey(String, String),
}

/// Events from device to device of one type.
pub struct ToDeviceEventFilter {
    pub event_type: String,
}

/// What a filter lets through.
pub enum FilterSpec {
    MessageLike(Seq<char>),
    State(Seq<char>, Option<Seq<char>>),
    ToDevice(Seq<char>),
}

impl View for Filter {
    type V = FilterSpec;

    open spec fn view(&self) -> FilterSpec {
        match self {
            Filter::MessageLike(MessageLikeEventFilter::WithType(event_type)) => {
                FilterSpec::MessageLike(event_type@)
            },
            Filter::State(StateEventFilter::WithType(event_type)) => FilterSpec::State(
                event_type@,
                None,
            ),
            Filter::State(StateEventFilter::WithTypeAndStateKey(event_type, state_key)) => {
                FilterSpec::State(event_type@, Some(state_key@))
            },
            Filter::ToDevice(filter) => FilterSpec::ToDevice(filter.event_type@),
        }
    }
}

/// What filters let through, one by one.
pub open spec fn filter_specs(filters: Seq<Filter>) -> Seq<FilterSpec> {
    filters.map_values(|filter: Filter| filter@)
}

/// What a widget may do.
pub struct Capabilities {
    pub read: Vec<Filter>,
    pub send: Vec<Filter>,
    pub requires_client: bool,
    pub update_delayed_event: bool,
    pub send_delayed_event: bool,
}

/// What Element Call may both read and send.
pub open spec fn read_send_specs() -> Seq<FilterSpec> {
    seq![
        FilterSpec::MessageLike("org.matrix.rageshake_request"@),
        FilterSpec::ToDevice("io.element.call.encryption_keys"@),
        FilterSpec::MessageLike("io.element.call.encryption_keys"@),
        FilterSpec::MessageLike("io.element.call.reaction"@),
        FilterSpec::MessageLike(MessageLikeEventType::Reaction.wire_text()),
        FilterSpec::MessageLike(MessageLikeEventType::RoomRedaction.wire_text()),
        FilterSpec::MessageLike(MessageLikeEventType::RtcDecline.wire_text()),
    ]
}

/// What Element Call may read on top of that: the state of the room and of the call in it.
pub open spec fn read_only_specs() -> Seq<FilterSpec> {
    seq![
        FilterSpec::State(StateEventType::CallMember.wire_text(), None),
        FilterSpec::State(StateEventType::RoomName.wire_text(), None),
        FilterSpec::State(StateEventType::RoomMember.wire_text(), None),
        FilterSpec::State(StateEventType::RoomEncryption.wire_text(), None),
        FilterSpec::State(StateEventType::RoomCreate.wire_text(), None),
    ]
}

/// The state keys that a device of a user may publish its call membership under.
pub open spec fn membership_state_keys(user_id: Seq<char>, device_id: Seq<char>) -> Seq<
    Seq<char>,
> {
    seq![
        user_id,
        user_id + "_"@ + device_id,
        state_key_text(user_id, device_id + "_m.call"@, false),
        user_id + "_"@ + device_id + "_m.call"@,
        "_"@ + user_id + "_"@ + device_id,
        "_"@ + user_id + "_"@ + device_id + "_m.call"@,
    ]
}

/// What Element Call may send on top of that: notifications, and the own call membership.
pub open spec fn send_only_specs(user_id: Seq<char>, device_id: Seq<char>) -> Seq<FilterSpec> {
    seq![
        FilterSpec::MessageLike(MessageLikeEventType::RtcNotification.wire_text()),
        FilterSpec::MessageLike(MessageLikeEventType::CallNotify.wire_text()),
    ] + membership_state_keys(user_id, device_id).map_values(
        |state_key: Seq<char>|
            FilterSpec::State(StateEventType::CallMember.wire_text(), Some(state_key)),
    )
}

/// What Element Call may read.
pub open spec fn read_specs() -> Seq<FilterSpec> {
    read_only_specs() + read_send_specs()
}

/// What Element Call may send.
pub open spec fn send_specs(user_id: Seq<char>, device_id: Seq<char>) -> Seq<FilterSpec> {
    send_only_specs(user_id, device_id) + read_send_specs()
}

/// The state key of a call membership: the user, then what tells the memberships of a user apart,
/// after an underscore on request.
pub open spec fn state_key_text(
    user_id: Seq<char>,
    member_id: Seq<char>,
    underscore: bool,
) -> Seq<char> {
    if underscore {
        "_"@ + user_id + "_"@ + member_id
    } else {
        user_id + "_"@ + member_id
    }
}

/// Calls `ruma::events::call::member::CallMemberStateKey::new` and takes the text of the key. The
/// user id is parsed for it with `ruma::UserId::parse`, which keeps its text.
#[verifier::external_body]
fn call_member_state_key(user_id: &str, member_id: String, underscore: bool) -> (state_key: String)
    requires
        identifiers::user_id_parses(user_id@),
    ensures
        state_key@ == state_key_text(user_id@, member_id@, underscore),
{
    let user_id = ruma::UserId::parse(user_id).expect("a user id");
    member::CallMemberStateKey::new(user_id, Some(member_id), underscore).as_ref().to_owned()
}

/// A filter for message-like events of the type with text `event_type`.
fn message_like(event_type: String) -> (filter: Filter)
    ensures
        filter@ == FilterSpec::MessageLike(event_type@),
{
    Filter::MessageLike(MessageLikeEventFilter::WithType(event_type))
}

/// A filter for state events of a type, under any state key.
fn state(event_type: StateEventType) -> (filter: Filter)
    ensures
        filter@ == FilterSpec::State(event_type.wire_text(), None),
{
    Filter::State(StateEventFilter::WithType(state_type_text(event_type)))
}

/// A filter for call memberships under one state key.
fn membership(state_key: String) -> (filter: Filter)
    ensures
        filter@ == FilterSpec::State(StateEventType::CallMember.wire_text(), Some(state_key@)),
{
    Filter::State(
        StateEventFilter::WithTypeAndStateKey(
            state_type_text(StateEventType::CallMember),
            state_key,
        ),
    )
}

/// The filters for what Element Call may both read and send.
fn read_send() -> (filters: Vec<Filter>)
    ensures
        filter_specs(filters@) == read_send_specs(),
{
    proof {
        reveal_strlit("org.matrix.call.sdp_stream_metadata_changed");
        reveal_strlit("org.matrix.rageshake_request");
        reveal_strlit("io.element.call.encryption_keys");
        reveal_strlit("io.element.call.reaction");
        assert("org.matrix.call.sdp_stream_metadata_changed"@.len() == 43);
        assert("org.matrix.rageshake_request"@.len() < 43);
        assert("io.element.call.encryption_keys"@.len() < 43);
    }
    let filters: Vec<Filter> = vec![
        message_like(custom_message_like_type("org.matrix.rageshake_request")),
        Filter::ToDevice(
            ToDeviceEventFilter {
                event_type: custom_to_device_type("io.element.call.encryption_keys"),
            },
        ),
        message_like(custom_message_like_type("io.element.call.encryption_keys")),
        message_like(custom_message_like_type("io.element.call.reaction")),
        message_like(message_like_type_text(MessageLikeEventType::Reaction)),
        message_like(message_like_type_text(MessageLikeEventType::RoomRedaction)),
        message_like(message_like_type_text(MessageLikeEventType::RtcDecline)),
    ];
    proof {
        assert(filter_specs(filters@) =~= read_send_specs());
    }
    filters
}

/// Build the default Element Call capability set used by SDK-driven widgets.
pub fn element_call_capabilities(own_user_id: &UserId, own_device_id: &str) -> (capabilities:
    Capabilities)
    ensures
        filter_specs(capabilities.read@) == read_specs(),
        filter_specs(capabilities.send@) == send_specs(own_user_id@, own_device_id@),
        capabilities.requires_client,
        capabilities.update_delayed_event,
        capabilities.send_delayed_event,
{
    let user_id = own_user_id.as_str();
    let device_id = own_device_id;
    let user_and_device = text::joined(user_id, "_", device_id);
    let device_call = device_id.to_owned().concat("_m.call");
    let membership_state_key = call_member_state_key(user_id, device_call, false);
    let user_device_call = user_and_device.clone().concat("_m.call");
    let hidden_user_and_device = "_".to_owned().concat(user_id).concat("_").concat(device_id);
    let hidden_user_device_call = hidden_user_and_device.clone().concat("_m.call");

    let mut read: Vec<Filter> = vec![
        state(StateEventType::CallMember),
        state(StateEventType::RoomName),
        state(StateEventType::RoomMember),
        state(StateEventType::RoomEncryption),
        state(StateEventType::RoomCreate),
    ];
    let mut send: Vec<Filter> = vec![
        message_like(message_like_type_text(MessageLikeEventType::RtcNotification)),
        message_like(message_like_type_text(MessageLikeEventType::CallNotify)),
        membership(user_id.to_owned()),
        membership(user_and_device),
        membership(membership_state_key),
        membership(user_device_call),
        membership(hidden_user_and_device),
        membership(hidden_user_device_call),
    ];
    proof {
        assert(filter_specs(read@) =~= read_only_specs());
        assert(filter_specs(send@) =~= send_only_specs(own_user_id@, own_device_id@));
    }
    let ghost read_only = read@;
    let ghost send_only = send@;
    let mut also_read = read_send();
    let mut also_sent = read_send();
    let ghost both_read = also_read@;
    let ghost both_sent = also_sent@;
    read.append(&mut also_read);
    send.append(&mut also_sent);
    proof {
        assert(filter_specs(read@) =~= filter_specs(read_only) + filter_specs(both_read));
        assert(filter_specs(send@) =~= filter_specs(send_only) + filter_specs(both_sent));
    }
    Capabilities {
        read,
        send,
        requires_client: true,
        update_delayed_event: true,
        send_delayed_event: true,
    }
}

/// Whatever Element Call may exchange with others in both directions, it may both read and send.
pub proof fn law_shared_events_go_both_ways(
    user_id: Seq<char>,
    device_id: Seq<char>,
    filter: FilterSpec,
)
    requires
        read_send_specs().contains(filter),
    ensures
        read_specs().contains(filter),
        send_specs(user_id, device_id).contains(filter),
{
    let shared = read_send_specs();
    let at = shared.index_of(filter);
    let read_only = read_only_specs();
    let send_only = send_only_specs(user_id, device_id);
    assert((read_only + shared)[read_only.len() + at] == filter);
    assert((send_only + shared)[send_only.len() + at] == filter);
}

/// The only state that Element Call may send is a call membership under a state key of the own
/// device; under each of those it may.
pub proof fn law_only_own_memberships_are_sent(
    user_id: Seq<char>,
    device_id: Seq<char>,
    event_type: Seq<char>,
    state_key: Option<Seq<char>>,
)
    ensures
        send_specs(user_id, device_id).contains(FilterSpec::State(event_type, state_key)) <==> (
        event_type == StateEventType::CallMember.wire_text() && state_key is Some
            && membership_state_keys(user_id, device_id).contains(state_key->0)),
{
    let filter = FilterSpec::State(event_type, state_key);
    let keys = membership_state_keys(user_id, device_id);
    let send_only = send_only_specs(user_id, device_id);
    let filters = send_specs(user_id, device_id);
    if filters.contains(filter) {
        let at = filters.index_of(filter);
        assert(filters[at] == filter);
        assert(2 <= at < send_only.len());
        assert(filters[at] == send_only[at]);
        assert(state_key == Some(keys[at - 2]));
    }
    if event_type == StateEventType::CallMember.wire_text() && state_key is Some && keys.contains(
        state_key->0,
    ) {
        let at = keys.index_of(state_key->0);
        assert(send_only[at + 2] == filter);
        assert(filters[at + 2] == filter);
    }
}

/// A state key without the underscore that may stand before it.
pub open spec fn bare_state_key(state_key: Seq<char>) -> Seq<char> {
    if state_key.len() > 0 && state_key[0] == '_' {
        state_key.skip(1)
    } else {
        state_key
    }
}

/// `state_key` belongs to the user: after an underscore that may stand before it, it is the user id
/// alone or the user id and an underscore with more behind it.
pub open spec fn belongs_to_user(state_key: Seq<char>, user_id: Seq<char>) -> bool {
    let bare = bare_state_key(state_key);
    &&& user_id.is_prefix_of(bare)
    &&& bare.len() > user_id.len() ==> bare[user_id.len() as int] == '_'
}

/// The state that Element Call may send is call memberships under state keys that belong to the own
/// user.
pub proof fn law_sent_state_belongs_to_the_user(
    user_id: Seq<char>,
    device_id: Seq<char>,
    event_type: Seq<char>,
    state_key: Option<Seq<char>>,
)
    requires
        identifiers::has_user_id_form(user_id),
        send_specs(user_id, device_id).contains(FilterSpec::State(event_type, state_key)),
    ensures
        event_type == StateEventType::CallMember.wire_text(),
        state_key is Some,
        belongs_to_user(state_key->0, user_id),
{
    law_only_own_memberships_are_sent(user_id, device_id, event_type, state_key);
    reveal_strlit("_");
    assert("_"@ =~= seq!['_']);
    let key = state_key->0;
    let tail = "_"@ + device_id;
    let call_tail = "_"@ + device_id + "_m.call"@;
    let keys = membership_state_keys(user_id, device_id);
    assert(keys[1] =~= user_id + tail);
    assert(keys[2] =~= user_id + call_tail);
    assert(keys[3] =~= user_id + call_tail);
    assert(keys[4].skip(1) =~= user_id + tail);
    assert(keys[5].skip(1) =~= user_id + call_tail);
    let at = keys.index_of(key);
    assert(keys[at] == key);
    assert(key == user_id || bare_state_key(key) == user_id + tail || bare_state_key(key) == user_id
        + call_tail);
    assert(bare_state_key(key) == user_id || bare_state_key(key)[user_id.len() as int] == '_');
    assert(user_id.is_prefix_of(bare_state_key(key)));
}

/// A state key belongs to one user at most.
proof fn lemma_state_key_has_one_user(
    state_key: Seq<char>,
    user_id: Seq<char>,
    other_user_id: Seq<char>,
)
    requires
        identifiers::has_user_id_form(user_id),
        identifiers::has_user_id_form(other_user_id),
        belongs_to_user(state_key, user_id),
        belongs_to_user(state_key, other_user_id),
        user_id.len() <= other_user_id.len(),
    ensures
        user_id == other_user_id,
{
    let bare = bare_state_key(state_key);
    user_id.index_of_first_ensures(':');
    other_user_id.index_of_first_ensures(':');
    let colon = user_id.index_of_first(':')->0;
    let length = user_id.len() as int;
    assert forall|i: int| 0 <= i < length implies user_id[i] == other_user_id[i] by {
        assert(user_id[i] == bare[i]);
        assert(other_user_id[i] == bare[i]);
    }
    assert(other_user_id[colon] == ':');
    assert(other_user_id.index_of_first(':') == Some(colon));
    if length < other_user_id.len() {
        let server = identifiers::server_name(other_user_id);
        assert(other_user_id[length] == bare[length]);
        assert(server[length - colon - 1] == '_');
        assert(server.contains('_'));
    }
    assert(user_id =~= other_user_id);
}

/// Element Call may never send state of another user: no state that it may send for one user may be
/// sent for another.
pub proof fn law_users_share_no_state(
    user_id: Seq<char>,
    device_id: Seq<char>,
    other_user_id: Seq<char>,
    other_device_id: Seq<char>,
    event_type: Seq<char>,
    state_key: Option<Seq<char>>,
)
    requires
        identifiers::has_user_id_form(user_id),
        identifiers::has_user_id_form(other_user_id),
        user_id != other_user_id,
    ensures
        !(send_specs(user_id, device_id).contains(FilterSpec::State(event_type, state_key))
            && send_specs(other_user_id, other_device_id).contains(
            FilterSpec::State(event_type, state_key),
        )),
{
    let filter = FilterSpec::State(event_type, state_key);
    if send_specs(user_id, device_id).contains(filter) && send_specs(
        other_user_id,
        other_device_id,
    ).contains(filter) {
        law_sent_state_belongs_to_the_user(user_id, device_id, event_type, state_key);
        law_sent_state_belongs_to_the_user(other_user_id, other_device_id, event_type, state_key);
        if user_id.len() <= other_user_id.len() {
            lemma_state_key_has_one_user(state_key->0, user_id, other_user_id);
        } else {
            lemma_state_key_has_one_user(state_key->0, other_user_id, user_id);
        }
    }
}

/// The state key that a membership of a room call is published under is the user, the device and
/// `m.call`, joined by underscores, and Element Call may send a membership under it.
pub proof fn law_room_call_state_key(user_id: Seq<char>, device_id: Seq<char>)
    ensures
        state_key_text(user_id, device_id + "_m.call"@, false) == user_id + "_"@ + device_id
            + "_m.call"@,
        state_key_text(user_id, device_id + "_m.call"@, true) == "_"@ + user_id + "_"@ + device_id
            + "_m.call"@,
        membership_state_keys(user_id, device_id).contains(
            state_key_text(user_id, device_id + "_m.call"@, false),
        ),
        membership_state_keys(user_id, device_id).contains(
            state_key_text(user_id, device_id + "_m.call"@, true),
        ),
{
    let plain = state_key_text(user_id, device_id + "_m.call"@, false);
    let hidden = state_key_text(user_id, device_id + "_m.call"@, true);
    assert(plain =~= user_id + "_"@ + device_id + "_m.call"@);
    assert(hidden =~= "_"@ + user_id + "_"@ + device_id + "_m.call"@);
    let keys = membership_state_keys(user_id, device_id);
    assert(keys[2] == plain);
    assert(keys[5] == hidden);
}

/// Who owns a call.
#[derive(Debug, Clone, Copy, PartialEq, Eq, Structural)]
pub enum CallScope {
    /// Every user of the room can join and create it.
    Room,
    /// One user owns it.
    User,
}

impl CallScope {
    /// The text of the scope in an event.
    pub open spec fn wire_text(self) -> Seq<char> {
        match self {
            CallScope::Room => "m.room"@,
            CallScope::User => "m.user"@,
        }
    }
}

/// A LiveKit server that a call can run over.
#[derive(Debug)]
pub struct LivekitFocus {
    /// The name of the room at the server.
    pub alias: String,
    /// Where tokens for the server are given out.
    pub service_url: String,
}

impl LivekitFocus {
    /// What the focus holds in an event.
    pub open spec fn json(self) -> Json {
        Json::Object(
            map![
                "type"@ => Json::Text("livekit"@),
                "livekit_alias"@ => Json::Text(self.alias@),
                "livekit_service_url"@ => Json::Text(self.service_url@),
            ],
        )
    }
}

/// How the server that a call runs over is found.
#[derive(Debug, Clone, Copy, PartialEq, Eq, Structural)]
pub enum ActiveFocus {
    /// It is the LiveKit server of whichever membership is the oldest.
    Livekit,
}

impl ActiveFocus {
    /// What the focus holds in an event.
    pub open spec fn json(self) -> Json {
        match self {
            ActiveFocus::Livekit => Json::Object(
                map![
                    "type"@ => Json::Text("livekit"@),
                    "focus_selection"@ => Json::Text("oldest_membership"@),
                ],
            ),
        }
    }
}

/// The greatest number of milliseconds that an event can hold.
pub const MAX_MILLISECONDS: u64 = 0x1F_FFFF_FFFF_FFFF;

/// How long a membership lasts where it does not say, in milliseconds: four hours.
pub const DEFAULT_EXPIRES_MS: u64 = 14_400_000;

/// The membership of one device in a call.
#[derive(Debug)]
pub struct CallMemberEventContent {
    /// Which call it is; empty for the one call of a room.
    pub call_id: String,
    pub scope: CallScope,
    pub device_id: String,
    pub focus_active: ActiveFocus,
    pub foci_preferred: Vec<LivekitFocus>,
    /// When the membership was first published, in milliseconds of Unix time; `None` at the start.
    pub created_ts: Option<u64>,
    /// How long it lasts, in milliseconds.
    pub expires_ms: Option<u64>,
}

impl CallMemberEventContent {
    /// The times are such as an event can hold.
    pub open spec fn wf(self) -> bool {
        &&& self.created_ts matches Some(created_ts) ==> created_ts <= MAX_MILLISECONDS
        &&& self.expires_ms matches Some(expires_ms) ==> expires_ms <= MAX_MILLISECONDS
    }

    /// How long the membership lasts, in milliseconds.
    pub open spec fn lifetime(self) -> int {
        match self.expires_ms {
            Some(expires_ms) => expires_ms as int,
            None => DEFAULT_EXPIRES_MS as int,
        }
    }

    /// What the content of the event holds.
    pub open spec fn json(self) -> Json {
        let always = map![
            "application"@ => Json::Text("m.call"@),
            "call_id"@ => Json::Text(self.call_id@),
            "scope"@ => Json::Text(self.scope.wire_text()),
            "device_id"@ => Json::Text(self.device_id@),
            "foci_preferred"@ => Json::List(
                self.foci_preferred@.map_values(|focus: LivekitFocus| focus.json()),
            ),
            "focus_active"@ => self.focus_active.json(),
            "expires"@ => Json::Whole(self.lifetime()),
        ];
        Json::Object(
            match self.created_ts {
                Some(created_ts) => always.insert(
                    "created_ts"@,
                    Json::Whole(created_ts as int),
                ),
                None => always,
            },
        )
    }

    /// The content of the event.
    pub fn into_json(self) -> (content: serde_json::Value)
        requires
            self.wf(),
        ensures
            json::json_of(content) == self.json(),
    {
        session_membership(self)
    }
}

/// Calls `ruma::events::call::member::CallMemberEventContent::new` for a call over LiveKit, and hands
/// the content to `serde_json::to_value`. A duration that is not given, `ruma` makes four hours; a
/// time of creation that is not given is left out. Times are written in milliseconds, and beyond what
/// an event can hold they are cut or refused, so those are left out here.
#[verifier::external_body]
fn session_membership(content: CallMemberEventContent) -> (value: serde_json::Value)
    requires
        content.wf(),
    ensures
        json::json_of(value) == content.json(),
{
    let scope = match content.scope {
        CallScope::Room => member::CallScope::Room,
        CallScope::User => member::CallScope::User,
    };
    let call = member::CallApplicationContent::new(content.call_id, scope);
    let active = match content.focus_active {
        ActiveFocus::Livekit => member::ActiveFocus::Livekit(member::ActiveLivekitFocus::new()),
    };
    let foci = content.foci_preferred.into_iter().map(|focus| member::Focus::Livekit(
        member::LivekitFocus::new(focus.alias, focus.service_url))).collect();
    let created = content.created_ts.map(UInt::new_saturating).map(MilliSecondsSinceUnixEpoch);
    let expires = content.expires_ms.map(Duration::from_millis);
    serde_json::to_value(member::CallMemberEventContent::new(member::Application::Call(call),
        content.device_id.into(), active, foci, created, expires)).expect("a membership is JSON")
}

/// Build `m.call.member` content suitable for publishing through the widget API.
pub fn element_call_member_content(
    room_id: &str,
    own_device_id: &str,
    service_url: &str,
) -> (content: CallMemberEventContent)
    ensures
        content.call_id@ == Seq::<char>::empty(),
        content.scope == CallScope::Room,
        content.device_id@ == own_device_id@,
        content.foci_preferred@.len() == 1,
        content.foci_preferred@[0].alias@ == room_id@,
        content.foci_preferred@[0].service_url@ == service_url@,
        content.focus_active == ActiveFocus::Livekit,
        content.created_ts is None,
        content.expires_ms is None,
        content.wf(),
{
    let focus = LivekitFocus { alias: room_id.to_owned(), service_url: service_url.to_owned() };
    CallMemberEventContent {
        call_id: String::new(),
        scope: CallScope::Room,
        device_id: own_device_id.to_owned(),
        focus_active: ActiveFocus::Livekit,
        foci_preferred: vec![focus],
        created_ts: None,
        expires_ms: None,
    }
}

/// What a request of a widget to send a call membership holds.
pub open spec fn send_event_json(
    widget_id: Seq<char>,
    request_id: Seq<char>,
    state_key: Seq<char>,
    content: Json,
) -> Json {
    Json::Object(
        map![
            "api"@ => Json::Text("fromWidget"@),
            "widgetId"@ => Json::Text(widget_id),
            "requestId"@ => Json::Text(request_id),
            "action"@ => Json::Text("send_event"@),
            "data"@ => Json::Object(map![
                "type"@ => Json::Text("org.matrix.msc3401.call.member"@),
                "state_key"@ => Json::Text(state_key),
                "content"@ => content,
            ]),
        ],
    )
}

/// Build a `fromWidget` `send_event` request payload for `m.call.member`.
pub fn element_call_send_event_message(
    widget_id: &str,
    request_id: &str,
    state_key: &str,
    content: serde_json::Value,
) -> (message: serde_json::Value)
    ensures
        json::json_of(message) == send_event_json(
            widget_id@,
            request_id@,
            state_key@,
            json::json_of(content),
        ),
{
    let mut data = json::json_object();
    json::json_set(&mut data, "type", json::json_text("org.matrix.msc3401.call.member"));
    json::json_set(&mut data, "state_key", json::json_text(state_key));
    json::json_set(&mut data, "content", content);
    let mut message = json::json_object();
    json::json_set(&mut message, "api", json::json_text("fromWidget"));
    json::json_set(&mut message, "widgetId", json::json_text(widget_id));
    json::json_set(&mut message, "requestId", json::json_text(request_id));
    json::json_set(&mut message, "action", json::json_text("send_event"));
    json::json_set(&mut message, "data", data);
    message
}

/// What Element Call may read, one by one: the memberships, the name, the members, the encryption and
/// the creation of the room, and all that it may exchange.
pub proof fn law_what_may_be_read()
    ensures
        read_specs() == seq![
            FilterSpec::State("org.matrix.msc3401.call.member"@, None),
            FilterSpec::State("m.room.name"@, None),
            FilterSpec::State("m.room.member"@, None),
            FilterSpec::State("m.room.encryption"@, None),
            FilterSpec::State("m.room.create"@, None),
            FilterSpec::MessageLike("org.matrix.rageshake_request"@),
            FilterSpec::ToDevice("io.element.call.encryption_keys"@),
            FilterSpec::MessageLike("io.element.call.encryption_keys"@),
            FilterSpec::MessageLike("io.element.call.reaction"@),
            FilterSpec::MessageLike("m.reaction"@),
            FilterSpec::MessageLike("m.room.redaction"@),
            FilterSpec::MessageLike("org.matrix.msc4310.rtc.decline"@),
        ],
{
}

/// What Element Call may send, one by one: notifications, the memberships of the own device under
/// each of their state keys, and all that it may exchange.
pub proof fn law_what_may_be_sent(user_id: Seq<char>, device_id: Seq<char>)
    ensures
        send_specs(user_id, device_id) == seq![
            FilterSpec::MessageLike("org.matrix.msc4075.rtc.notification"@),
            FilterSpec::MessageLike("org.matrix.msc4075.call.notify"@),
            FilterSpec::State("org.matrix.msc3401.call.member"@, Some(user_id)),
            FilterSpec::State(
                "org.matrix.msc3401.call.member"@,
                Some(user_id + seq!['_'] + device_id),
            ),
            FilterSpec::State(
                "org.matrix.msc3401.call.member"@,
                Some(user_id + seq!['_'] + device_id + "_m.call"@),
            ),
            FilterSpec::State(
                "org.matrix.msc3401.call.member"@,
                Some(user_id + seq!['_'] + device_id + "_m.call"@),
            ),
            FilterSpec::State(
                "org.matrix.msc3401.call.member"@,
                Some(seq!['_'] + user_id + seq!['_'] + device_id),
            ),
            FilterSpec::State(
                "org.matrix.msc3401.call.member"@,
                Some(seq!['_'] + user_id + seq!['_'] + device_id + "_m.call"@),
            ),
            FilterSpec::MessageLike("org.matrix.rageshake_request"@),
            FilterSpec::ToDevice("io.element.call.encryption_keys"@),
            FilterSpec::MessageLike("io.element.call.encryption_keys"@),
            FilterSpec::MessageLike("io.element.call.reaction"@),
            FilterSpec::MessageLike("m.reaction"@),
            FilterSpec::MessageLike("m.room.redaction"@),
            FilterSpec::MessageLike("org.matrix.msc4310.rtc.decline"@),
        ],
{
    reveal_strlit("_");
    assert("_"@ =~= seq!['_']);
    let keys = membership_state_keys(user_id, device_id);
    assert(keys[2] =~= user_id + seq!['_'] + device_id + "_m.call"@);
    assert(keys[3] =~= keys[2]);
    assert(keys[4] =~= seq!['_'] + user_id + seq!['_'] + device_id);
    assert(keys[5] =~= seq!['_'] + user_id + seq!['_'] + device_id + "_m.call"@);
}

/// A filter lets through the type that it names, and the state key where it names one; filters keep
/// their order.
pub proof fn law_filters_say_what_they_name(
    event_type: String,
    state_key: String,
    filters: Seq<Filter>,
    i: int,
)
    requires
        0 <= i < filters.len(),
    ensures
        Filter::MessageLike(MessageLikeEventFilter::WithType(event_type))@
            == FilterSpec::MessageLike(event_type@),
        Filter::State(StateEventFilter::WithType(event_type))@ == FilterSpec::State(
            event_type@,
            None,
        ),
        Filter::State(StateEventFilter::WithTypeAndStateKey(event_type, state_key))@
            == FilterSpec::State(event_type@, Some(state_key@)),
        Filter::ToDevice(ToDeviceEventFilter { event_type })@ == FilterSpec::ToDevice(event_type@),
        filter_specs(filters).len() == filters.len(),
        filter_specs(filters)[i] == filters[i]@,
{
}

/// A focus is written with its alias and its service URL, each under its own name.
pub proof fn law_focus_members(focus: LivekitFocus)
    ensures
        focus.json().text_member("type"@) == Some("livekit"@),
        focus.json().text_member("livekit_alias"@) == Some(focus.alias@),
        focus.json().text_member("livekit_service_url"@) == Some(focus.service_url@),
        ActiveFocus::Livekit.json().text_member("type"@) == Some("livekit"@),
        ActiveFocus::Livekit.json().text_member("focus_selection"@) == Some("oldest_membership"@),
{
    reveal_strlit("type");
    reveal_strlit("livekit_alias");
    reveal_strlit("livekit_service_url");
    reveal_strlit("focus_selection");
    assert("type"@.len() == 4);
    assert("livekit_alias"@.len() == 13);
    assert("livekit_service_url"@.len() == 19);
    assert("focus_selection"@.len() == 15);
}

/// A membership is written with each of its fields under its own name, in a call of the room or of a
/// user, with the time of its creation only where it has one, and for four hours unless it says
/// otherwise.
pub proof fn law_membership_members(content: CallMemberEventContent)
    ensures
        content.json().text_member("application"@) == Some("m.call"@),
        content.json().text_member("call_id"@) == Some(content.call_id@),
        content.scope == CallScope::Room ==> content.json().text_member("scope"@) == Some(
            "m.room"@,
        ),
        content.scope == CallScope::User ==> content.json().text_member("scope"@) == Some(
            "m.user"@,
        ),
        content.json().text_member("device_id"@) == Some(content.device_id@),
        content.json().member("focus_active"@) == Some(content.focus_active.json()),
        content.json().member("foci_preferred"@) matches Some(Json::List(foci)) && foci.len()
            == content.foci_preferred@.len() && forall|i: int|
            0 <= i < foci.len() ==> #[trigger] foci[i] == content.foci_preferred@[i].json(),
        content.expires_ms is None ==> content.json().member("expires"@) == Some(
            Json::Whole(4int * 60 * 60 * 1000),
        ),
        content.expires_ms matches Some(expires) ==> content.json().member("expires"@) == Some(
            Json::Whole(expires as int),
        ),
        content.created_ts is None ==> content.json().member("created_ts"@) is None,
        content.created_ts matches Some(created) ==> content.json().member("created_ts"@) == Some(
            Json::Whole(created as int),
        ),
{
    reveal_strlit("application");
    reveal_strlit("call_id");
    reveal_strlit("scope");
    reveal_strlit("device_id");
    reveal_strlit("focus_active");
    reveal_strlit("foci_preferred");
    reveal_strlit("expires");
    reveal_strlit("created_ts");
    assert("application"@.len() == 11);
    assert("call_id"@.len() == 7 && "call_id"@[0] == 'c');
    assert("scope"@.len() == 5);
    assert("device_id"@.len() == 9);
    assert("focus_active"@.len() == 12);
    assert("foci_preferred"@.len() == 14);
    assert("expires"@.len() == 7 && "expires"@[0] == 'e');
    assert("created_ts"@.len() == 10);
}

/// A request of a widget names the widget and the request, and carries the membership with its type
/// and its state key, each under its own name, and nothing else.
pub proof fn law_widget_request_members(
    widget_id: Seq<char>,
    request_id: Seq<char>,
    state_key: Seq<char>,
    content: Json,
)
    ensures
        ({
            let message = send_event_json(widget_id, request_id, state_key, content);
            &&& message.text_member("api"@) == Some("fromWidget"@)
            &&& message.text_member("widgetId"@) == Some(widget_id)
            &&& message.text_member("requestId"@) == Some(request_id)
            &&& message.text_member("action"@) == Some("send_event"@)
            &&& message.member("data"@) matches Some(data) && data.text_member("type"@) == Some(
                "org.matrix.msc3401.call.member"@,
            ) && data.text_member("state_key"@) == Some(state_key) && data.member("content"@)
                == Some(content)
            &&& forall|name: Seq<char>| (#[trigger] message.member(name)) is Some ==> name
                == "api"@ || name == "widgetId"@ || name == "requestId"@ || name == "action"@
                || name == "data"@
        }),
{
    reveal_strlit("api");
    reveal_strlit("widgetId");
    reveal_strlit("requestId");
    reveal_strlit("action");
    reveal_strlit("data");
    reveal_strlit("type");
    reveal_strlit("state_key");
    reveal_strlit("content");
    assert("api"@.len() == 3);
    assert("widgetId"@.len() == 8);
    assert("requestId"@.len() == 9);
    assert("action"@.len() == 6);
    assert("data"@.len() == 4);
    assert("type"@.len() == 4);
    assert("state_key"@.len() == 9);
    assert("content"@.len() == 7);
}

/// The capabilities are those of the given user and device: all that may be read and sent, and all
/// three permissions.
pub proof fn law_capabilities_are_granted(
    own_user_id: &UserId,
    own_device_id: &str,
    capabilities: Capabilities,
)
    requires
        call_ensures(element_call_capabilities, (own_user_id, own_device_id), capabilities),
    ensures
        filter_specs(capabilities.read@) == read_specs(),
        filter_specs(capabilities.send@) == send_specs(own_user_id@, own_device_id@),
        capabilities.read@.len() == 12,
        capabilities.send@.len() == 15,
        capabilities.requires_client && capabilities.update_delayed_event
            && capabilities.send_delayed_event,
{
    law_what_may_be_read();
    law_what_may_be_sent(own_user_id@, own_device_id@);
    assert(filter_specs(capabilities.read@).len() == capabilities.read@.len());
    assert(filter_specs(capabilities.send@).len() == capabilities.send@.len());
}

/// The membership of a device in the call of a room names the device, and the room at the given
/// service as the one focus that it prefers; it has only now begun and runs for the usual time.
pub proof fn law_membership_of_a_room_call(
    room_id: &str,
    own_device_id: &str,
    service_url: &str,
    content: CallMemberEventContent,
)
    requires
        call_ensures(element_call_member_content, (room_id, own_device_id, service_url), content),
    ensures
        content.json().text_member("call_id"@) == Some(Seq::<char>::empty()),
        content.json().text_member("scope"@) == Some("m.room"@),
        content.json().text_member("device_id"@) == Some(own_device_id@),
        content.json().member("created_ts"@) is None,
        content.json().member("expires"@) == Some(Json::Whole(4int * 60 * 60 * 1000)),
        content.json().member("foci_preferred"@) matches Some(Json::List(foci)) && foci.len() == 1
            && foci[0].text_member("livekit_alias"@) == Some(room_id@) && foci[0].text_member(
            "livekit_service_url"@,
        ) == Some(service_url@),
{
    law_membership_members(content);
    law_focus_members(content.foci_preferred@[0]);
}

/// A request of a widget carries what it is given, unchanged.
pub proof fn law_widget_request_carries_the_content(
    widget_id: &str,
    request_id: &str,
    state_key: &str,
    content: serde_json::Value,
    message: serde_json::Value,
)
    requires
        call_ensures(
            element_call_send_event_message,
            (widget_id, request_id, state_key, content),
            message,
        ),
    ensures
        json::json_of(message).text_member("widgetId"@) == Some(widget_id@),
        json::json_of(message).text_member("requestId"@) == Some(request_id@),
        json::json_of(message).text_member("action"@) == Some("send_event"@),
        json::json_of(message).member("data"@) matches Some(data) && data.text_member("type"@)
            == Some("org.matrix.msc3401.call.member"@) && data.text_member("state_key"@) == Some(
            state_key@,
        ) && data.member("content"@) == Some(json::json_of(content)),
{
    law_widget_request_members(widget_id@, request_id@, state_key@, json::json_of(content));
}

} // verus!
