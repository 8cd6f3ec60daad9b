//! The connection to a LiveKit room, and how it follows the call memberships of a Matrix room.
//!
//! The LiveKit room and its event stream are type parameters: the decisions are the same for all.

use crate::room_options::{LiveKitRoomOptionsProvider, RoomOptions};
use std::sync::Arc;
use vstd::prelude::*;

verus! {

/// A LiveKit connection: the room, and its event stream until that is taken.
#[derive(Debug)]
pub struct LiveKitSdkConnection<R, E> {
    room: R,
    events: Option<E>,
}

impl<R, E> LiveKitSdkConnection<R, E> {
    /// The room.
    pub closed spec fn spec_room(self) -> R {
        self.room
    }

    /// The event stream, if it has not been taken.
    pub closed spec fn spec_events(self) -> Option<E> {
        self.events
    }

    /// A connection to `room`, with its event stream.
    pub fn new(room: R, events: E) -> (connection: Self)
        ensures
            connection.spec_room() == room,
            connection.spec_events() == Some(events),
    {
        LiveKitSdkConnection { room, events: Some(events) }
    }

    /// Access the underlying LiveKit room handle.
    pub fn room(&self) -> (room: &R)
        ensures
            *room == self.spec_room(),
    {
        &self.room
    }

    /// Consume and return the LiveKit room event stream.
    ///
    /// Returns `None` if the stream has already been taken.
    pub fn take_events(&mut self) -> (events: Option<E>)
        ensures
            events == old(self).spec_events(),
            final(self).spec_events() is None,
            final(self).spec_room() == old(self).spec_room(),
    {
        self.events.take()
    }

    /// Consume this connection and return the underlying LiveKit room.
    pub fn into_room(self) -> (room: R)
        ensures
            room == self.spec_room(),
    {
        self.room
    }
}

/// What joins rooms: a token provider, and a provider of room options.
#[derive(Debug)]
pub struct LiveKitSdkConnector<T, O> {
    token_provider: T,
    room_options: O,
}

impl<T, O> LiveKitSdkConnector<T, O> {
    /// The token provider.
    pub closed spec fn spec_token_provider(self) -> T {
        self.token_provider
    }

    /// The provider of room options.
    pub closed spec fn spec_room_options_provider(self) -> O {
        self.room_options
    }

    /// Create a new connector using the provided token provider and room options.
    pub fn new(token_provider: T, room_options: O) -> (connector: Self)
        ensures
            connector.spec_token_provider() == token_provider,
            connector.spec_room_options_provider() == room_options,
    {
        LiveKitSdkConnector { token_provider, room_options }
    }

    /// Access the configured token provider.
    pub fn token_provider(&self) -> (token_provider: &T)
        ensures
            *token_provider == self.spec_token_provider(),
    {
        &self.token_provider
    }

    /// Access the configured room options provider.
    pub fn room_options_provider(&self) -> (room_options: &O)
        ensures
            *room_options == self.spec_room_options_provider(),
    {
        &self.room_options
    }
}

/// What a LiveKit room is joined with.
pub struct ConnectRequest<P> {
    pub service_url: String,
    pub token: String,
    pub options: RoomOptions<P>,
}

impl<T, O: LiveKitRoomOptionsProvider> LiveKitSdkConnector<T, O> where O::KeyProvider: Clone {
    /// What to join the LiveKit room at `service_url` with, once the token provider has given
    /// `token`: the options are what the options provider answers, with the encryption settled.
    pub fn connect(&self, service_url: &str, token: String) -> (request: ConnectRequest<
        O::KeyProvider,
    >)
        requires
            self.spec_room_options_provider().is_ready(),
        ensures
            request.service_url@ == service_url@,
            request.token@ == token@,
            exists|provided: RoomOptions<O::KeyProvider>|
                #![trigger provided.resolves_to(request.options)]
                self.spec_room_options_provider().provides(provided) && provided.resolves_to(
                    request.options,
                ),
    {
        let options = self.room_options_provider().room_options().resolve_encryption();
        ConnectRequest { service_url: service_url.to_owned(), token, options }
    }
}

/// Update event emitted by [`update_connection`].
#[derive(Debug)]
pub enum LiveKitConnectionUpdate<R, E> {
    Joined { room: Arc<R>, events: Option<E> },
    Left,
    Unchanged,
}

/// What to do after a look at the call memberships of the room.
pub enum ConnectionStep<R, E> {
    /// Join the LiveKit room, then hand the connection to [`join`].
    Connect,
    /// Nothing is left to do.
    Done(LiveKitConnectionUpdate<R, E>),
}

/// How a connection changes.
#[derive(Debug, Clone, Copy, PartialEq, Eq, Structural)]
pub enum Change {
    Join,
    Leave,
    Stay,
}

/// How a connection changes after a look at the call memberships: join when there are some and there
/// is no connection, leave when there are none and there is a connection.
pub open spec fn change(has_memberships: bool, connected: bool) -> Change {
    if has_memberships && !connected {
        Change::Join
    } else if !has_memberships && connected {
        Change::Leave
    } else {
        Change::Stay
    }
}

/// Update an existing LiveKit connection based on room call memberships. To join is left to the
/// caller; until then there is no connection.
pub fn update_connection<R, E>(
    has_memberships: bool,
    connection: &mut Option<Arc<R>>,
) -> (step: ConnectionStep<R, E>)
    ensures
        match change(has_memberships, *old(connection) is Some) {
            Change::Join => step is Connect && *final(connection) is None,
            Change::Leave => step matches ConnectionStep::Done(LiveKitConnectionUpdate::Left)
                && *final(connection) is None,
            Change::Stay => step matches ConnectionStep::Done(LiveKitConnectionUpdate::Unchanged)
                && *final(connection) == *old(connection),
        },
{
    if has_memberships {
        if connection.is_none() {
            return ConnectionStep::Connect;
        }
    } else if connection.take().is_some() {
        return ConnectionStep::Done(LiveKitConnectionUpdate::Left);
    }
    ConnectionStep::Done(LiveKitConnectionUpdate::Unchanged)
}

/// Keeps a new connection, and hands its room and its event stream on.
pub fn join<R, E>(
    new_connection: LiveKitSdkConnection<R, E>,
    connection: &mut Option<Arc<R>>,
) -> (update: LiveKitConnectionUpdate<R, E>)
    ensures
        update matches LiveKitConnectionUpdate::Joined { room, events } && *room
            == new_connection.spec_room() && events == new_connection.spec_events()
            && *final(connection) == Some(room),
{
    let mut new_connection = new_connection;
    let events = new_connection.take_events();
    let room = Arc::new(new_connection.into_room());
    *connection = Some(Arc::clone(&room));
    LiveKitConnectionUpdate::Joined { room, events }
}

/// What the driver of a room is told.
pub enum DriverEvent<R, E, F> {
    /// The state of the Matrix room, at the start and after each change.
    RoomInfo { has_memberships: bool },
    /// The LiveKit room has been joined, as the driver asked.
    Connected(LiveKitSdkConnection<R, E>),
    /// The LiveKit room could not be joined.
    ConnectFailed(F),
    /// No more states of the Matrix room will come.
    InfoStreamEnded,
}

/// What the driver of a room asks for.
pub enum DriverAction<R, E, F> {
    /// Join the LiveKit room and tell the driver.
    Connect,
    /// Wait for the next state of the Matrix room. The connection has changed as the update says.
    AwaitRoomInfo(LiveKitConnectionUpdate<R, E>),
    /// The driver is done, with this result, and there is no connection.
    Stop(Result<(), F>),
}

/// One step of the LiveKit room driver, which runs until the room info stream ends. A room that
/// could not be joined ends it too, with the error, and then there is no connection.
pub fn run_livekit_driver<R, E, F>(
    connection: &mut Option<Arc<R>>,
    event: DriverEvent<R, E, F>,
) -> (action: DriverAction<R, E, F>)
    ensures
        match event {
            DriverEvent::RoomInfo { has_memberships } => match change(
                has_memberships,
                *old(connection) is Some,
            ) {
                Change::Join => action is Connect && *final(connection) is None,
                Change::Leave => action matches DriverAction::AwaitRoomInfo(
                    LiveKitConnectionUpdate::Left,
                ) && *final(connection) is None,
                Change::Stay => action matches DriverAction::AwaitRoomInfo(
                    LiveKitConnectionUpdate::Unchanged,
                ) && *final(connection) == *old(connection),
            },
            DriverEvent::Connected(joined) => action matches DriverAction::AwaitRoomInfo(
                LiveKitConnectionUpdate::Joined { room, events },
            ) && *room == joined.spec_room() && events == joined.spec_events()
                && *final(connection) == Some(room),
            DriverEvent::ConnectFailed(error) => action == DriverAction::<R, E, F>::Stop(Err(error))
                && *final(connection) is None,
            DriverEvent::InfoStreamEnded => action == DriverAction::<R, E, F>::Stop(Ok(()))
                && *final(connection) is None,
        },
{
    match event {
        DriverEvent::RoomInfo { has_memberships } => {
            match update_connection(has_memberships, connection) {
                ConnectionStep::Connect => DriverAction::Connect,
                ConnectionStep::Done(update) => DriverAction::AwaitRoomInfo(update),
            }
        },
        DriverEvent::Connected(joined) => DriverAction::AwaitRoomInfo(join(joined, connection)),
        DriverEvent::ConnectFailed(error) => {
            *connection = None;
            DriverAction::Stop(Err(error))
        },
        DriverEvent::InfoStreamEnded => {
            *connection = None;
            DriverAction::Stop(Ok(()))
        },
    }
}

/// Whether there is a connection after a change, where joining succeeds.
pub open spec fn connected_by(change: Change, connected: bool) -> bool {
    match change {
        Change::Join => true,
        Change::Leave => false,
        Change::Stay => connected,
    }
}

/// Whether there is a connection after a run of looks at the call memberships, each `true` where
/// there are some, from no connection on and where joining succeeds.
pub open spec fn connected_after(looks: Seq<bool>) -> bool
    decreases looks.len(),
{
    if looks.len() == 0 {
        false
    } else {
        let before = connected_after(looks.drop_last());
        connected_by(change(looks.last(), before), before)
    }
}

/// How often a run of looks at the call memberships brings `kind` about.
pub open spec fn times(kind: Change, looks: Seq<bool>) -> int
    decreases looks.len(),
{
    if looks.len() == 0 {
        0
    } else {
        times(kind, looks.drop_last()) + if change(
            looks.last(),
            connected_after(looks.drop_last()),
        ) == kind {
            1int
        } else {
            0int
        }
    }
}

/// The connection follows the call: after any run of looks there is one exactly when the last look
/// found memberships.
pub proof fn law_connection_follows_memberships(looks: Seq<bool>)
    requires
        looks.len() > 0,
    ensures
        connected_after(looks) == looks.last(),
{
}

/// Rooms are joined and left in turn, a join first: there is never more than one join without a
/// leave, and never a leave without a join.
pub proof fn law_joins_and_leaves_alternate(looks: Seq<bool>)
    ensures
        times(Change::Join, looks) - times(Change::Leave, looks) == if connected_after(looks) {
            1int
        } else {
            0int
        },
    decreases looks.len(),
{
    if looks.len() > 0 {
        law_joins_and_leaves_alternate(looks.drop_last());
    }
}

/// A look that finds what the one before found changes nothing.
pub proof fn law_same_memberships_change_nothing(looks: Seq<bool>)
    requires
        looks.len() > 0,
    ensures
        change(looks.last(), connected_after(looks)) == Change::Stay,
        connected_after(looks.push(looks.last())) == connected_after(looks),
{
    assert(looks.push(looks.last()).drop_last() =~= looks);
}

/// A connection changes exactly where it does not fit the memberships: a room is joined only for
/// memberships and left only without them, and after the change the two fit.
pub proof fn law_change_fits_memberships(has_memberships: bool, connected: bool)
    ensures
        change(has_memberships, connected) == Change::Stay <==> has_memberships == connected,
        change(has_memberships, connected) == Change::Join ==> has_memberships,
        change(has_memberships, connected) == Change::Leave ==> !has_memberships,
        connected_by(change(has_memberships, connected), connected) == has_memberships,
{
}

/// A room is joined at the URL and with the token given, and with options that the provider answered:
/// encrypted wherever either of their settings asks for it, as the newer one says where it is there
/// and else as the older one says.
pub proof fn law_room_is_joined_as_provided<T, O: LiveKitRoomOptionsProvider>(
    connector: &LiveKitSdkConnector<T, O>,
    service_url: &str,
    token: String,
    request: ConnectRequest<O::KeyProvider>,
) where O::KeyProvider: Clone
    requires
        call_ensures(LiveKitSdkConnector::<T, O>::connect, (connector, service_url, token), request),
    ensures
        request.service_url@ == service_url@,
        request.token@ == token@,
        exists|provided: RoomOptions<O::KeyProvider>| #[trigger]
            connector.spec_room_options_provider().provides(provided) && request.options.e2ee
                == provided.e2ee && (request.options.encryption is Some
                <==> provided.encryption is Some || provided.e2ee is Some) && (
            provided.encryption is Some ==> request.options.encryption == provided.encryption) && (
            provided.encryption is None && provided.e2ee is Some
                ==> request.options.encryption->0.encryption_type
                == provided.e2ee->0.encryption_type && cloned::<O::KeyProvider>(
                provided.e2ee->0.key_provider,
                request.options.encryption->0.key_provider,
            )),
{
    let provided = choose|provided: RoomOptions<O::KeyProvider>|
        #![trigger provided.resolves_to(request.options)]
        connector.spec_room_options_provider().provides(provided) && provided.resolves_to(
            request.options,
        );
    assert(connector.spec_room_options_provider().provides(provided));
}

/// A connector hands out the two providers that it was made of, each in its place.
pub proof fn law_connector_keeps_its_providers<T, O>(
    token_provider: T,
    room_options: O,
    connector: LiveKitSdkConnector<T, O>,
    found_tokens: &T,
    found_options: &O,
)
    requires
        call_ensures(LiveKitSdkConnector::<T, O>::new, (token_provider, room_options), connector),
        call_ensures(LiveKitSdkConnector::<T, O>::token_provider, (&connector,), found_tokens),
        call_ensures(
            LiveKitSdkConnector::<T, O>::room_options_provider,
            (&connector,),
            found_options,
        ),
    ensures
        *found_tokens == token_provider,
        *found_options == room_options,
{
}

/// A connection is to the room that it was made for.
pub proof fn law_connection_keeps_its_room<R, E>(
    room: R,
    events: E,
    connection: LiveKitSdkConnection<R, E>,
    found: &R,
    taken: R,
)
    requires
        call_ensures(LiveKitSdkConnection::<R, E>::new, (room, events), connection),
        call_ensures(LiveKitSdkConnection::<R, E>::room, (&connection,), found),
        call_ensures(LiveKitSdkConnection::<R, E>::into_room, (connection,), taken),
    ensures
        *found == room,
        taken == room,
        connection.spec_events() == Some(events),
{
}

} // verus!
