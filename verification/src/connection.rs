//! The life of one native connection: how it opens, what each thing that happens
//! to it leads to, and how it ends.

use vstd::prelude::*;

use crate::client_binding_bootstrap;
use crate::client_binding_bootstrap::CLIENT_BINDING_EPOCH_HEADER;
use crate::client_binding_status_session;
use crate::client_binding_status_session::{
    is_reserved_text, ClientBindingStatusSession, ProjectionUpdate, ReservedChannel, ScopeView,
    SessionStep, SessionView, StatusOutcome, StepView, TrackerScope, UpdateView,
};
use crate::counter;
use crate::event;
use crate::event::{Event, EventView};
use crate::json;
use crate::messages;
use crate::messages::{
    guarded_message, outbound_message, write_result, CloseFramePayload, ConnectFailure,
    MessageView, OutboundMessage, SendProgress, SocketMessage, WebSocketMessage, WriteOutcome,
};
use crate::projection;
use crate::projection::{ProjectionState, ProjectionView};
use crate::registry;
use crate::registry::{ConnectionRegistry, RegistryView};
use crate::rounds::ConnectRounds;
use crate::text;

verus! {

/// What the socket gave.
pub enum Incoming {
    Message(SocketMessage),
    /// It failed, for this reason.
    Failed(String),
    /// It ended.
    End,
}

/// What happens to a connection.
pub enum ConnectionEvent {
    /// The time of the projection has come.
    Expired,
    /// The connection is to end.
    Cancelled,
    /// A message is to be sent; `None`: there will be no more.
    Requested(Option<SocketMessage>),
    /// The write of a requested message is over.
    Written(WriteOutcome),
    /// The socket gave something.
    Received(Incoming),
    /// The tracker has an outcome for the event that it was handed.
    Outcome(StatusOutcome),
}

/// What is to be done about it.
pub enum ConnectionAction {
    /// Nothing.
    Continue,
    /// Report this change of the projection.
    Apply(ProjectionUpdate),
    /// Ask the tracker for its presentation at this time, which lets it see its
    /// expiry, and report this change of the projection.
    ApplyExpired(ProjectionUpdate),
    /// Open the status tracker with this scope.
    OpenTracker(TrackerScope),
    /// Hand this event to the tracker.
    TrackStatus(Event),
    /// Write this to the socket.
    Write(SocketMessage),
    /// Reply this to the request, and end the connection if it is an error.
    Reply(Result<(), String>),
    /// Give this to the webview, and go on.
    Deliver(OutboundMessage),
    /// Give this to the webview, and end the connection.
    DeliverLast(OutboundMessage),
    /// Write this to the socket, and end the connection.
    WriteLast(SocketMessage),
    /// End the connection.
    End,
}

/// What happens to a connection.
pub enum ConnectionEventView {
    Expired,
    Cancelled,
    Requested(Option<MessageView>),
    /// The error of the write, where it has one.
    Written(Option<Seq<char>>),
    Message(MessageView),
    Failed(Seq<char>),
    End,
    Outcome(StatusOutcome),
}

impl View for ConnectionEvent {
    type V = ConnectionEventView;

    open spec fn view(&self) -> ConnectionEventView {
        match self {
            ConnectionEvent::Expired => ConnectionEventView::Expired,
            ConnectionEvent::Cancelled => ConnectionEventView::Cancelled,
            ConnectionEvent::Requested(None) => ConnectionEventView::Requested(None),
            ConnectionEvent::Requested(Some(message)) => ConnectionEventView::Requested(
                Some(message@),
            ),
            ConnectionEvent::Written(outcome) => ConnectionEventView::Written(
                messages::write_error(*outcome),
            ),
            ConnectionEvent::Received(Incoming::Message(message)) => ConnectionEventView::Message(
                message@,
            ),
            ConnectionEvent::Received(Incoming::Failed(reason)) => ConnectionEventView::Failed(
                reason@,
            ),
            ConnectionEvent::Received(Incoming::End) => ConnectionEventView::End,
            ConnectionEvent::Outcome(outcome) => ConnectionEventView::Outcome(*outcome),
        }
    }
}

/// What is to be done about what happens.
pub enum ActionView {
    Continue,
    Apply(UpdateView),
    ApplyExpired(UpdateView),
    OpenTracker(ScopeView),
    TrackStatus(EventView),
    Write(MessageView),
    /// The error that is replied, where there is one.
    Reply(Option<Seq<char>>),
    Deliver(MessageView),
    DeliverLast(MessageView),
    WriteLast(MessageView),
    End,
}

impl View for ConnectionAction {
    type V = ActionView;

    open spec fn view(&self) -> ActionView {
        match self {
            ConnectionAction::Continue => ActionView::Continue,
            ConnectionAction::Apply(update) => ActionView::Apply(update@),
            ConnectionAction::ApplyExpired(update) => ActionView::ApplyExpired(update@),
            ConnectionAction::OpenTracker(scope) => ActionView::OpenTracker(scope@),
            ConnectionAction::TrackStatus(event) => ActionView::TrackStatus(event@),
            ConnectionAction::Write(message) => ActionView::Write(message@),
            ConnectionAction::Reply(result) => ActionView::Reply(messages::error_view(*result)),
            ConnectionAction::Deliver(message) => ActionView::Deliver(message@),
            ConnectionAction::DeliverLast(message) => ActionView::DeliverLast(message@),
            ConnectionAction::WriteLast(message) => ActionView::WriteLast(message@),
            ConnectionAction::End => ActionView::End,
        }
    }
}

/// The connection ends with this action.
pub open spec fn is_last(action: ActionView) -> bool {
    match action {
        ActionView::Reply(error) => error is Some,
        ActionView::DeliverLast(_) => true,
        ActionView::WriteLast(_) => true,
        ActionView::End => true,
        _ => false,
    }
}

/// The text of a message that can hold a reserved frame: a text message, or a
/// binary message that is UTF-8.
pub open spec fn frame_text(message: MessageView) -> Option<Seq<char>> {
    match message {
        MessageView::Text(value) => Some(value),
        MessageView::Binary(value) => if vstd::utf8::valid_utf8(value) {
            Some(vstd::utf8::decode_utf8(value))
        } else {
            None
        },
        _ => None,
    }
}

/// The reserved frame of a message.
pub open spec fn reserved_frame_of(message: MessageView) -> Option<
    client_binding_status_session::FrameView,
> {
    match frame_text(message) {
        Some(characters) => client_binding_status_session::frame_in(characters),
        None => None,
    }
}

/// What a session asks for, as an action of its connection.
pub open spec fn step_action(step: StepView) -> ActionView {
    match step {
        StepView::Project(update) => ActionView::Apply(update),
        StepView::OpenTracker(scope) => ActionView::OpenTracker(scope),
        StepView::FoldStatus(event) => ActionView::TrackStatus(event),
    }
}

/// What a message that is not reserved leads to: the webview is given it.
pub open spec fn delivery(message: MessageView) -> ActionView {
    let given = messages::outbound(message);
    if messages::is_terminal(given) {
        ActionView::DeliverLast(given)
    } else {
        ActionView::Deliver(given)
    }
}

/// What happens to a connection leads to this. A connection without a session
/// swallows reserved frames too.
pub open spec fn connection_step(
    session: Option<SessionView>,
    event: ConnectionEventView,
    now: u64,
) -> (Option<SessionView>, ActionView) {
    match event {
        ConnectionEventView::Expired => match session {
            Some(state) => {
                let (next, update) = client_binding_status_session::expiry(state, now);
                if client_binding_status_session::is_expired(state, now) {
                    (Some(next), ActionView::ApplyExpired(update))
                } else {
                    (Some(next), ActionView::Apply(update))
                }
            },
            None => (session, ActionView::Continue),
        },
        ConnectionEventView::Cancelled => (
            session,
            ActionView::WriteLast(MessageView::Close(Some((1000, "disconnect"@)))),
        ),
        ConnectionEventView::Requested(Some(message)) => (session, ActionView::Write(message)),
        ConnectionEventView::Requested(None) => (session, ActionView::End),
        ConnectionEventView::Written(error) => (session, ActionView::Reply(error)),
        ConnectionEventView::Message(message) => match (reserved_frame_of(message), session) {
            (Some(frame), Some(state)) => {
                let (next, step) = client_binding_status_session::frame_step(
                    state,
                    frame,
                    client_binding_status_session::is_authentic(frame),
                    now,
                );
                (Some(next), step_action(step))
            },
            (Some(_), None) => (session, ActionView::Continue),
            (None, _) => (session, delivery(message)),
        },
        ConnectionEventView::Failed(reason) => (
            session,
            ActionView::DeliverLast(MessageView::Error(reason)),
        ),
        ConnectionEventView::End => (session, ActionView::DeliverLast(MessageView::Close(None))),
        ConnectionEventView::Outcome(outcome) => match session {
            Some(state) => {
                let (next, update) = client_binding_status_session::status_fold(state, outcome);
                (Some(next), ActionView::Apply(update))
            },
            None => (session, ActionView::Continue),
        },
    }
}

/// `std::str::from_utf8`: the characters of bytes that are UTF-8, and nothing for
/// others.
#[verifier::external_body]
fn utf8_text(bytes: &[u8]) -> (characters: Option<&str>)
    ensures
        characters.is_some() == vstd::utf8::valid_utf8(bytes@),
        characters matches Some(decoded) ==> decoded@ == vstd::utf8::decode_utf8(bytes@),
{
    std::str::from_utf8(bytes).ok()
}

/// The text of a message that can hold a reserved frame.
fn text_of(message: &SocketMessage) -> (characters: Option<&str>)
    ensures
        characters.is_some() == frame_text(message@).is_some(),
        characters matches Some(found) ==> frame_text(message@) == Some(found@),
{
    match message {
        SocketMessage::Text(value) => Some(value.as_str()),
        SocketMessage::Binary(value) => utf8_text(value.as_slice()),
        _ => None,
    }
}

/// The session of a connection, where it has one.
pub open spec fn optional_session(session: Option<ClientBindingStatusSession>) -> Option<
    SessionView,
> {
    match session {
        Some(state) => Some(state@),
        None => None,
    }
}

/// An open connection.
pub struct Connection {
    session: Option<ClientBindingStatusSession>,
}

impl View for Connection {
    type V = Option<SessionView>;

    closed spec fn view(&self) -> Option<SessionView> {
        optional_session(self.session)
    }
}

/// The action for what a session asks for.
fn action_of(step: SessionStep) -> (action: ConnectionAction)
    ensures
        action@ == step_action(step@),
{
    match step {
        SessionStep::Project(update) => ConnectionAction::Apply(update),
        SessionStep::OpenTracker(scope) => ConnectionAction::OpenTracker(scope),
        SessionStep::FoldStatus(event) => ConnectionAction::TrackStatus(event),
    }
}

/// The action that gives a message to the webview.
fn deliver(message: OutboundMessage) -> (action: ConnectionAction)
    ensures
        action@ == if messages::is_terminal(message@) {
            ActionView::DeliverLast(message@)
        } else {
            ActionView::Deliver(message@)
        },
{
    if message.is_terminal() {
        ConnectionAction::DeliverLast(message)
    } else {
        ConnectionAction::Deliver(message)
    }
}

impl Connection {
    /// A connection that has just opened.
    pub fn new(session: Option<ClientBindingStatusSession>) -> (connection: Self)
        ensures
            connection@ == optional_session(session),
    {
        Connection { session }
    }

    /// The session of the connection.
    pub fn session(&self) -> (session: Option<&ClientBindingStatusSession>)
        ensures
            session.is_some() == self@.is_some(),
            session matches Some(state) ==> self@ == Some(state@)
                && client_binding_status_session::is_consistent(state@),
    {
        match &self.session {
            Some(state) => {
                proof {
                    use_type_invariant(state);
                }
            },
            None => {},
        }
        self.session.as_ref()
    }

    /// How many seconds are left until the time of the projection comes.
    pub fn expiry_delay(&self, now: u64) -> (delay: Option<u64>)
        ensures
            delay == match self@ {
                Some(state) => match state.fresh_until {
                    Some(fresh_until) => Some(
                        if fresh_until > now {
                            (fresh_until - now) as u64
                        } else {
                            0
                        },
                    ),
                    None => None,
                },
                None => None,
            },
    {
        match &self.session {
            Some(state) => match state.projected_fresh_until() {
                Some(fresh_until) => Some(fresh_until.saturating_sub(now)),
                None => None,
            },
            None => None,
        }
    }

    /// What happens to the connection, and what is to be done about it.
    pub fn on_event(&mut self, event: ConnectionEvent, now: u64) -> (action: ConnectionAction)
        ensures
            (final(self)@, action@) == connection_step(old(self)@, event@, now),
            action@ is ApplyExpired ==> (final(self)@ matches Some(state) && state.tracker
                is Some),
    {
        match event {
            ConnectionEvent::Expired => match &mut self.session {
                Some(state) => if state.is_expired(now) {
                    ConnectionAction::ApplyExpired(state.expire(now))
                } else {
                    ConnectionAction::Apply(state.expire(now))
                },
                None => ConnectionAction::Continue,
            },
            ConnectionEvent::Cancelled => ConnectionAction::WriteLast(
                SocketMessage::Close(
                    Some(CloseFramePayload { code: 1000, reason: "disconnect".to_owned() }),
                ),
            ),
            ConnectionEvent::Requested(Some(message)) => ConnectionAction::Write(message),
            ConnectionEvent::Requested(None) => ConnectionAction::End,
            ConnectionEvent::Written(outcome) => ConnectionAction::Reply(write_result(outcome)),
            ConnectionEvent::Received(Incoming::Message(message)) => self.on_message(message, now),
            ConnectionEvent::Received(Incoming::Failed(reason)) => ConnectionAction::DeliverLast(
                OutboundMessage::Error(reason),
            ),
            ConnectionEvent::Received(Incoming::End) => ConnectionAction::DeliverLast(
                OutboundMessage::Close(None),
            ),
            ConnectionEvent::Outcome(outcome) => match &mut self.session {
                Some(state) => ConnectionAction::Apply(state.fold_status(outcome)),
                None => ConnectionAction::Continue,
            },
        }
    }

    fn on_message(&mut self, message: SocketMessage, now: u64) -> (action: ConnectionAction)
        ensures
            (final(self)@, action@) == connection_step(
                old(self)@,
                ConnectionEventView::Message(message@),
                now,
            ),
    {
        if let Some(characters) = text_of(&message) {
            if is_reserved_text(characters) {
                return match &mut self.session {
                    Some(state) => match state.consume_text(characters, now) {
                        Some(step) => action_of(step),
                        None => ConnectionAction::Continue,
                    },
                    None => ConnectionAction::Continue,
                };
            }
        }
        deliver(outbound_message(message))
    }

    /// What the end of the connection changes in the projection. Afterwards the
    /// connection gives up the projection and its registration.
    pub fn finish(&mut self) -> (update: Option<ProjectionUpdate>)
        ensures
            update.is_some() == old(self)@.is_some(),
            update matches Some(change) ==> change@ == UpdateView::Clear,
            final(self)@ == match old(self)@ {
                Some(state) => Some(client_binding_status_session::cleared(state)),
                None => None,
            },
    {
        match &mut self.session {
            Some(state) => Some(state.disconnect()),
            None => None,
        }
    }
}

/// The header that a connection with a session asks to be upgraded with: its
/// epoch.
pub fn upgrade_header(session: &Option<ClientBindingStatusSession>) -> (header: Option<
    (&'static str, &str),
>)
    ensures
        header.is_some() == session.is_some(),
        header matches Some((name, value)) ==> {
            &&& name@ == CLIENT_BINDING_EPOCH_HEADER@
            &&& Some(value@) == match optional_session(*session) {
                Some(state) => Some(state.epoch),
                None => None,
            }
        },
{
    match session {
        Some(state) => Some((CLIENT_BINDING_EPOCH_HEADER, state.connection_epoch().as_str())),
        None => None,
    }
}

/// A new connection asks for the projection: it has a session, a channel and the
/// generation of its attempt.
pub open spec fn asks_for_projection<C>(
    session: Option<SessionView>,
    channel: Option<C>,
    generation: Option<u64>,
) -> bool {
    session is Some && channel is Some && generation is Some
}

/// A new connection gets the projection that it asks for: its attempt is the
/// latest.
pub open spec fn gets_projection<C>(
    state: ProjectionView<C>,
    session: Option<SessionView>,
    channel: Option<C>,
    generation: Option<u64>,
) -> bool {
    asks_for_projection(session, channel, generation) && generation == Some(state.generation)
}

/// The session that a new connection keeps: it needs the projection.
pub open spec fn kept_session<C>(
    state: ProjectionView<C>,
    session: Option<SessionView>,
    channel: Option<C>,
    generation: Option<u64>,
) -> Option<SessionView> {
    if gets_projection(state, session, channel, generation) {
        session
    } else {
        None
    }
}

/// The projection after a connection was opened.
pub open spec fn projection_with<C>(
    state: ProjectionView<C>,
    id: u32,
    session: Option<SessionView>,
    channel: Option<C>,
    generation: Option<u64>,
) -> ProjectionView<C> {
    match (session, channel, generation) {
        (Some(opened), Some(channel), Some(generation)) => if state.generation == generation {
            projection::owned_by(state, id, opened.epoch, channel)
        } else {
            state
        },
        _ => state,
    }
}

/// A registered connection takes up its session.
pub struct Opened {
    /// The connection, with its session if it owns the projection.
    pub connection: Connection,
    /// The channel of the new connection is to be told that nothing is shown.
    pub tell_channel: bool,
}

/// Opens a registered connection. It keeps its session only if it becomes the
/// owner of the projection.
pub fn open_connection<C>(
    projection: &mut ProjectionState<C>,
    id: u32,
    session: Option<ClientBindingStatusSession>,
    channel: Option<C>,
    generation: Option<u64>,
) -> (opened: Opened)
    ensures
        opened.tell_channel == asks_for_projection(
            optional_session(session),
            channel,
            generation,
        ),
        opened.connection@ == kept_session(
            old(projection)@,
            optional_session(session),
            channel,
            generation,
        ),
        final(projection)@ == projection_with(
            old(projection)@,
            id,
            optional_session(session),
            channel,
            generation,
        ),
{
    match (session, channel, generation) {
        (Some(state), Some(channel), Some(generation)) => {
            let epoch = state.connection_epoch().clone();
            let activated = projection.activate_projection(generation, id, epoch, channel);
            let kept = if activated {
                Some(state)
            } else {
                None
            };
            Opened { connection: Connection::new(kept), tell_channel: true }
        },
        _ => Opened { connection: Connection::new(None), tell_channel: false },
    }
}

/// What a connection that is being opened brings with it.
pub struct OpenRequest<H, C> {
    /// How to reach the connection.
    pub handle: H,
    pub session: Option<ClientBindingStatusSession>,
    /// Where the projection is to be shown.
    pub channel: Option<C>,
    /// The generation of the attempt to own the projection.
    pub generation: Option<u64>,
}

/// A connection that was registered and opened.
pub struct Registered {
    pub id: u32,
    /// The token of the registration.
    pub token: u64,
    pub opened: Opened,
}

/// What comes of opening a connection.
pub enum OpenOutcome<H, C> {
    /// It does not open, for this reason.
    Refused(String),
    /// No free identifier was drawn: the request is given back for another draw.
    Redraw(OpenRequest<H, C>),
    Registered(Registered),
}

/// Why a connection does not open, if it does not: its handshake failed, or all
/// connections were ended since it began.
pub open spec fn opening_error(
    current: u64,
    round: u64,
    handshake: Result<(), ConnectFailure>,
) -> Option<Seq<char>> {
    match handshake {
        Err(failure) => Some(messages::connect_error(failure)),
        Ok(_) => if current != round {
            Some(messages::connect_error(ConnectFailure::Cancelled))
        } else {
            None
        },
    }
}

/// What is registered and opened under an identifier that was free.
pub open spec fn is_opened_as<H, C>(
    registered: Registered,
    id: u32,
    request: OpenRequest<H, C>,
    registry_before: RegistryView<H>,
    registry_after: RegistryView<H>,
    projection_before: ProjectionView<C>,
    projection_after: ProjectionView<C>,
) -> bool {
    let session = optional_session(request.session);
    &&& registered.id == id
    &&& !registry_before.connections.contains_key(id)
    &&& registered.token == registry_before.next_token
    &&& registry_after == registry::registered(registry_before, id, request.handle)
    &&& registered.opened.tell_channel == asks_for_projection(
        session,
        request.channel,
        request.generation,
    )
    &&& registered.opened.connection@ == kept_session(
        projection_before,
        session,
        request.channel,
        request.generation,
    )
    &&& projection_after == projection_with(
        projection_before,
        id,
        session,
        request.channel,
        request.generation,
    )
}

/// Opens a connection after its handshake, under the identifier that was drawn.
/// Where it is refused, or the identifier is not free, nothing is registered and
/// the projection stays.
pub fn register_connection<H, C>(
    rounds: &ConnectRounds,
    round: u64,
    registry: &mut ConnectionRegistry<H>,
    projection: &mut ProjectionState<C>,
    handshake: Result<(), ConnectFailure>,
    candidate: Option<u32>,
    request: OpenRequest<H, C>,
) -> (outcome: OpenOutcome<H, C>)
    ensures
        match opening_error(rounds@, round, handshake) {
            Some(error) => {
                &&& outcome matches OpenOutcome::Refused(message) && message@ == error
                &&& final(registry)@ == old(registry)@
                &&& final(projection)@ == old(projection)@
            },
            None => match candidate {
                Some(id) if !old(registry)@.connections.contains_key(id) => {
                    outcome matches OpenOutcome::Registered(registered) && is_opened_as(
                        registered,
                        id,
                        request,
                        old(registry)@,
                        final(registry)@,
                        old(projection)@,
                        final(projection)@,
                    )
                },
                _ => {
                    &&& outcome == OpenOutcome::<H, C>::Redraw(request)
                    &&& final(registry)@ == old(registry)@
                    &&& final(projection)@ == old(projection)@
                },
            },
        },
{
    if let Err(failure) = handshake {
        return OpenOutcome::Refused(failure.into_message());
    }
    if rounds.is_over(round) {
        return OpenOutcome::Refused(ConnectFailure::Cancelled.into_message());
    }
    let id: u32 = match candidate {
        Some(id) => id,
        None => return OpenOutcome::Redraw(request),
    };
    if registry.contains(id) {
        return OpenOutcome::Redraw(request);
    }
    let token = registry.insert(id, request.handle);
    let opened = open_connection(
        projection,
        id,
        request.session,
        request.channel,
        request.generation,
    );
    OpenOutcome::Registered(Registered { id, token, opened })
}

/// Opens a connection after its handshake, under an identifier that is drawn at
/// random, `attempts` times at most.
pub fn open_after_handshake<H, C>(
    rounds: &ConnectRounds,
    round: u64,
    registry: &mut ConnectionRegistry<H>,
    projection: &mut ProjectionState<C>,
    handshake: Result<(), ConnectFailure>,
    attempts: u32,
    request: OpenRequest<H, C>,
) -> (outcome: OpenOutcome<H, C>)
    ensures
        outcome is Refused == (opening_error(rounds@, round, handshake) is Some),
        match outcome {
            OpenOutcome::Refused(message) => {
                &&& opening_error(rounds@, round, handshake) == Some(message@)
                &&& final(registry)@ == old(registry)@
                &&& final(projection)@ == old(projection)@
            },
            OpenOutcome::Redraw(back) => {
                &&& back == request
                &&& final(registry)@ == old(registry)@
                &&& final(projection)@ == old(projection)@
            },
            OpenOutcome::Registered(registered) => is_opened_as(
                registered,
                registered.id,
                request,
                old(registry)@,
                final(registry)@,
                old(projection)@,
                final(projection)@,
            ),
        },
        attempts > 0 && (forall|taken: u32| !old(registry)@.connections.contains_key(taken))
            ==> !(outcome is Redraw),
{
    let candidate = if handshake.is_ok() && !rounds.is_over(round) {
        registry.draw_connection_id(attempts)
    } else {
        None
    };
    register_connection(rounds, round, registry, projection, handshake, candidate, request)
}

/// Ends all connections: their handles, to be shut down. Those that are being
/// opened are refused from now on.
pub fn disconnect_all<H>(rounds: &mut ConnectRounds, registry: &mut ConnectionRegistry<H>) -> (handles:
    Vec<(u32, H)>)
    ensures
        final(rounds)@ == counter::next_number(old(rounds)@),
        final(registry)@ == (RegistryView::<H> {
            connections: registry::no_connections(),
            next_token: old(registry)@.next_token,
        }),
        handles@.len() == old(registry)@.connections.len(),
        forall|i: int|
            0 <= i < handles@.len() ==> registry::handle_of(
                old(registry)@,
                (#[trigger] handles@[i]).0,
            ) == Some(handles@[i].1),
        forall|i: int, j: int|
            0 <= i < j < handles@.len() ==> (#[trigger] handles@[i]).0 != (#[trigger] handles@[j]).0,
        forall|id: u32|
            old(registry)@.connections.contains_key(id) ==> exists|i: int|
                0 <= i < handles@.len() && (#[trigger] handles@[i]).0 == id,
{
    rounds.end();
    registry.drain()
}

/// What the end of a connection asks for.
pub struct Closed<C> {
    /// The channel of the projection that the connection owned. It is to be told
    /// that nothing is shown, once for the report and once for the release.
    pub channel: Option<C>,
    /// The tracker is to be told that the connection has ended.
    pub tell_tracker: bool,
}

/// The projection after a connection with this session has ended.
pub open spec fn projection_closed<C>(
    state: ProjectionView<C>,
    id: u32,
    session: Option<SessionView>,
) -> ProjectionView<C> {
    match session {
        Some(ended) => projection::released(
            projection::updated(state, id, ended.epoch, UpdateView::Clear),
            id,
            ended.epoch,
        ),
        None => state,
    }
}

/// Ends a connection from inside: it finishes its session, reports that nothing
/// is shown, gives up the projection and removes its registration, unless that is
/// no longer its own.
pub fn close_connection<H, C>(
    connection: &mut Connection,
    registry: &mut ConnectionRegistry<H>,
    projection: &mut ProjectionState<C>,
    id: u32,
    token: u64,
) -> (closed: Closed<C>)
    ensures
        final(connection)@ == match old(connection)@ {
            Some(state) => Some(client_binding_status_session::cleared(state)),
            None => None,
        },
        final(registry)@ == registry::removed_if_current(old(registry)@, id, token),
        final(projection)@ == projection_closed(old(projection)@, id, old(connection)@),
        closed.channel == match old(connection)@ {
            Some(state) if projection::is_owner(old(projection)@, id, state.epoch) => {
                projection::channel_of(old(projection)@)
            },
            _ => None,
        },
        closed.tell_tracker == (old(connection)@ matches Some(state) && state.tracker is Some),
{
    registry.remove_if_current(id, token);
    let tell_tracker = match connection.session() {
        Some(state) => state.has_tracker(),
        None => false,
    };
    let epoch = match connection.session() {
        Some(state) => Some(state.connection_epoch().clone()),
        None => None,
    };
    match (connection.finish(), epoch) {
        (Some(update), Some(epoch)) => {
            let _ = projection.apply_projection_update(id, &epoch, update);
            let channel = projection.clear_projection_if_owner(id, &epoch);
            Closed { channel, tell_tracker }
        },
        _ => Closed { channel: None, tell_tracker },
    }
}

/// Where a message of the webview goes, by what the guard found in it: to the
/// handle of its connection. What the guard refuses is not looked up.
pub fn dispatch_message<'a, H>(
    registry: &'a ConnectionRegistry<H>,
    id: u32,
    message: WebSocketMessage,
    verdict: Result<(), String>,
) -> (dispatch: Result<(&'a H, SocketMessage), SendProgress>)
    ensures
        match verdict {
            Err(reason) => dispatch matches Err(progress) && progress == SendProgress::Refused(
                reason,
            ),
            Ok(_) => match registry::handle_of(registry@, id) {
                Some(handle) => dispatch matches Ok((found, carried)) && *found == handle
                    && carried@ == message@,
                None => dispatch matches Err(SendProgress::NotFound(reason)) && reason@
                    == registry::not_found_text(id),
            },
        },
{
    let carried = match guarded_message(message, verdict) {
        Ok(carried) => carried,
        Err(progress) => return Err(progress),
    };
    match registry.find(id) {
        Ok(handle) => Ok((handle, carried)),
        Err(reason) => Err(SendProgress::NotFound(reason)),
    }
}

/// The projection after the connection `id` was ended from outside.
pub open spec fn projection_without<C>(state: ProjectionView<C>, id: u32) -> ProjectionView<C> {
    if state.owner matches Some(owner) && owner.id == id {
        ProjectionView { owner: None, current: None, ..state }
    } else {
        state
    }
}

/// Ends a connection from outside: its handle, to be shut down, and the channel
/// that is to be told. An identifier that is not registered changes nothing.
pub fn disconnect<H, C>(
    registry: &mut ConnectionRegistry<H>,
    projection: &mut ProjectionState<C>,
    id: u32,
) -> (ended: (Option<H>, Option<C>))
    ensures
        ended.0 == registry::handle_of(old(registry)@, id),
        final(registry)@ == registry::removed(old(registry)@, id),
        ended.0 is None ==> ended.1 is None && final(projection)@ == old(projection)@,
        ended.0 is Some ==> final(projection)@ == projection_without(old(projection)@, id),
        ended.0 is Some ==> ended.1 == if old(projection)@.owner matches Some(owner) && owner.id
            == id {
            projection::channel_of(old(projection)@)
        } else {
            None
        },
{
    match registry.remove(id) {
        None => (None, None),
        Some(handle) => match projection.owner_epoch(id) {
            Some(epoch) => {
                let channel = projection.clear_projection_if_owner(id, &epoch);
                (Some(handle), channel)
            },
            None => (Some(handle), None),
        },
    }
}

/// A connection that began before all connections were ended and finished its
/// handshake after it is refused as cancelled, however often that happened.
pub proof fn ending_all_refuses_pending_openings(round: u64, endings: nat)
    requires
        0 < endings <= u64::MAX,
    ensures
        opening_error(counter::number_after(round, endings), round, Ok(())) == Some(
            "WebSocket connection cancelled"@,
        ),
{
    counter::later_number_differs(round, endings);
}

/// A connection that opens is registered, under an identifier that was free, and
/// no other registration is touched.
pub proof fn opening_registers_one_connection<H, C>(
    registered: Registered,
    id: u32,
    request: OpenRequest<H, C>,
    registry_before: RegistryView<H>,
    registry_after: RegistryView<H>,
    projection_before: ProjectionView<C>,
    projection_after: ProjectionView<C>,
)
    requires
        is_opened_as(
            registered,
            id,
            request,
            registry_before,
            registry_after,
            projection_before,
            projection_after,
        ),
    ensures
        registry::handle_of(registry_before, id) is None,
        registry::handle_of(registry_after, id) == Some(request.handle),
        registry::is_current(registry_after, id, registered.token),
        forall|other: u32|
            other != id ==> registry::handle_of(registry_after, other)
                == #[trigger] registry::handle_of(registry_before, other),
{
}

/// What opens and then ends leaves the registry as it was, but for its count, and
/// does not own the projection.
pub proof fn closing_undoes_opening<H, C>(
    registered: Registered,
    id: u32,
    request: OpenRequest<H, C>,
    registry_before: RegistryView<H>,
    registry_after: RegistryView<H>,
    projection_before: ProjectionView<C>,
    projection_after: ProjectionView<C>,
)
    requires
        is_opened_as(
            registered,
            id,
            request,
            registry_before,
            registry_after,
            projection_before,
            projection_after,
        ),
    ensures
        registry::removed_if_current(registry_after, id, registered.token).connections
            == registry_before.connections,
        registered.opened.connection@ matches Some(session) ==> ({
            let ended = projection_closed(projection_after, id, Some(session));
            ended.owner is None && ended.current is None
        }),
        registered.opened.connection@ is None ==> projection_after == projection_before,
{
    assert(registry_after.connections.remove(id) =~= registry_before.connections);
}

/// At expiry the tracker is told exactly if the time of the projection has come,
/// and the projection ends with it.
pub proof fn tracker_is_told_at_expiry(session: SessionView, now: u64)
    requires
        client_binding_status_session::is_consistent(session),
    ensures
        ({
            let (next, action) = connection_step(
                Some(session),
                ConnectionEventView::Expired,
                now,
            );
            &&& action is ApplyExpired == (session.fresh_until matches Some(fresh_until) && now
                >= fresh_until)
            &&& action is ApplyExpired ==> session.tracker is Some && action
                == ActionView::ApplyExpired(UpdateView::Clear)
            &&& !(action is ApplyExpired) ==> next == Some(session) && action
                == ActionView::Apply(UpdateView::Unchanged)
        }),
{
}

/// A reserved frame is never given to the webview, with a session or without.
pub proof fn reserved_frame_is_swallowed(
    session: Option<SessionView>,
    message: MessageView,
    now: u64,
)
    requires
        reserved_frame_of(message) is Some,
    ensures
        ({
            let action = connection_step(session, ConnectionEventView::Message(message), now).1;
            &&& !(action is Deliver)
            &&& !(action is DeliverLast)
            &&& !is_last(action)
        }),
        session is None ==> connection_step(session, ConnectionEventView::Message(message), now)
            == (session, ActionView::Continue),
{
}

/// A message that holds, in the exact shape, the bootstrap that the relay signed
/// for this connection binds its session and opens the tracker for the domain
/// that was signed.
pub proof fn signed_bootstrap_opens_tracker(
    message: MessageView,
    event: EventView,
    input: client_binding_bootstrap::BootstrapView,
    now: u64,
)
    requires
        client_binding_bootstrap::is_bindable(input),
        client_binding_bootstrap::is_signable(input),
        client_binding_bootstrap::is_signed_from(event, input),
        input.issued_at <= now,
        reserved_frame_of(message) == Some(
            (client_binding_status_session::FrameView {
                channel: ReservedChannel::Bootstrap,
                event: Some(event),
                exact_outer_shape: true,
            }),
        ),
    ensures
        ({
            let session = client_binding_status_session::fresh_session(
                event.pubkey,
                input.event_author_pubkey,
                input.connection_epoch,
            );
            connection_step(Some(session), ConnectionEventView::Message(message), now) == (
                Some(
                    client_binding_status_session::bound(
                        session,
                        event.id,
                        input.authorization_domain,
                    ),
                ),
                ActionView::OpenTracker(
                    ScopeView {
                        relay: event.pubkey,
                        domain: input.authorization_domain,
                        author: input.event_author_pubkey,
                    },
                ),
            )
        }),
{
    client_binding_status_session::signed_bootstrap_binds_session(
        event.pubkey,
        event,
        input,
        now,
    );
}

/// A message that is not reserved is given to the webview as it is, and changes
/// nothing; only a close message, or a raw frame, ends the connection.
pub proof fn ordinary_message_is_delivered(
    session: Option<SessionView>,
    message: MessageView,
    now: u64,
)
    requires
        reserved_frame_of(message) is None,
        !(message is Error),
    ensures
        ({
            let (next, action) = connection_step(
                session,
                ConnectionEventView::Message(message),
                now,
            );
            &&& next == session
            &&& is_last(action) == (message is Close || message is Frame)
            &&& !(message is Frame) ==> action == (if message is Close {
                ActionView::DeliverLast(message)
            } else {
                ActionView::Deliver(message)
            })
        }),
{
}

/// A ping, a pong and a close message are never reserved.
pub proof fn control_message_is_not_reserved(message: MessageView)
    requires
        !(message is Text) && !(message is Binary),
    ensures
        reserved_frame_of(message) is None,
{
}

/// Nothing that happens gives a session to a connection or takes it away, and a
/// session stays consistent.
pub proof fn connection_keeps_its_session(
    session: Option<SessionView>,
    event: ConnectionEventView,
    now: u64,
)
    ensures
        connection_step(session, event, now).0 is Some == session is Some,
        (session matches Some(state) && client_binding_status_session::is_consistent(state)) ==> (
        connection_step(session, event, now).0 matches Some(next)
            && client_binding_status_session::is_consistent(next)),
{
}

/// A failed write, the end of the requests and the end of the socket end the
/// connection; a message that was written does not.
pub proof fn connection_ends_when_it_cannot_go_on(session: Option<SessionView>, now: u64)
    ensures
        forall|error: Option<Seq<char>>|
            is_last(
                #[trigger] connection_step(session, ConnectionEventView::Written(error), now).1,
            ) == (error is Some),
        is_last(connection_step(session, ConnectionEventView::Requested(None), now).1),
        is_last(connection_step(session, ConnectionEventView::End, now).1),
        is_last(connection_step(session, ConnectionEventView::Cancelled, now).1),
        forall|reason: Seq<char>|
            is_last(
                #[trigger] connection_step(session, ConnectionEventView::Failed(reason), now).1,
            ),
{
}

/// When a connection has ended, it shows nothing: it has reported that the
/// projection is over and given up ownership. What another connection shows
/// stays.
pub proof fn ended_connection_shows_nothing<C>(
    state: ProjectionView<C>,
    id: u32,
    epoch: Seq<char>,
)
    ensures
        ({
            let cleared = projection::updated(state, id, epoch, UpdateView::Clear);
            let ended = projection::released(cleared, id, epoch);
            &&& !projection::is_owner(ended, id, epoch)
            &&& projection::is_owner(state, id, epoch) ==> ended.owner is None && ended.current
                is None
            &&& !projection::is_owner(state, id, epoch) ==> ended == state
        }),
{
}

/// Ending a connection a second time changes nothing.
pub proof fn repeated_disconnect_changes_nothing<H, C>(
    registry: RegistryView<H>,
    state: ProjectionView<C>,
    id: u32,
)
    ensures
        registry::handle_of(registry::removed(registry, id), id) is None,
        projection_without(projection_without(state, id), id) == projection_without(state, id),
{
}

/// Whatever a connection is asked to send, it writes exactly that, with a session
/// or without, and its session stays.
pub proof fn requested_message_is_written(
    session: Option<SessionView>,
    message: MessageView,
    now: u64,
)
    ensures
        connection_step(session, ConnectionEventView::Requested(Some(message)), now) == (
            session,
            ActionView::Write(message),
        ),
{
}

/// What came of a write is replied as it is, with a session or without; an error
/// ends the connection, a success does not.
pub proof fn write_is_answered(session: Option<SessionView>, error: Option<Seq<char>>, now: u64)
    ensures
        ({
            let (next, action) = connection_step(session, ConnectionEventView::Written(error), now);
            next == session && action == ActionView::Reply(error) && is_last(action) == (error
                is Some)
        }),
{
}

/// The end of a connection, with a session or without: a connection that is to end
/// writes a normal close; one whose socket failed or ended tells the webview; one
/// without further requests just ends. None of it changes the session.
pub proof fn connection_ends_as_it_should(
    session: Option<SessionView>,
    reason: Seq<char>,
    now: u64,
)
    ensures
        connection_step(session, ConnectionEventView::Cancelled, now) == (
            session,
            ActionView::WriteLast(MessageView::Close(Some((1000u16, "disconnect"@)))),
        ),
        connection_step(session, ConnectionEventView::Failed(reason), now) == (
            session,
            ActionView::DeliverLast(MessageView::Error(reason)),
        ),
        connection_step(session, ConnectionEventView::End, now) == (
            session,
            ActionView::DeliverLast(MessageView::Close(None)),
        ),
        connection_step(session, ConnectionEventView::Requested(None), now) == (
            session,
            ActionView::End,
        ),
{
}

/// The connection ends with an action exactly if it is an error reply, a last
/// delivery, a last write, or the end itself.
pub proof fn last_actions_end_connection(
    message: MessageView,
    update: UpdateView,
    scope: ScopeView,
    event: EventView,
    error: Seq<char>,
)
    ensures
        is_last(ActionView::End),
        is_last(ActionView::DeliverLast(message)),
        is_last(ActionView::WriteLast(message)),
        is_last(ActionView::Reply(Some(error))),
        !is_last(ActionView::Reply(None)),
        !is_last(ActionView::Deliver(message)),
        !is_last(ActionView::Write(message)),
        !is_last(ActionView::Apply(update)),
        !is_last(ActionView::ApplyExpired(update)),
        !is_last(ActionView::OpenTracker(scope)),
        !is_last(ActionView::TrackStatus(event)),
        !is_last(ActionView::Continue),
{
}

/// A text is given to the webview as it is unless it is a JSON array whose first
/// element is the string `EVENT` and whose second is one of the two reserved
/// subscriptions. So is a binary message, whose text counts where it is UTF-8. The
/// session stays.
pub proof fn relay_message_reaches_webview(
    session: Option<SessionView>,
    characters: Seq<char>,
    bytes: Seq<u8>,
    now: u64,
)
    requires
        json::serde_array(vstd::utf8::encode_utf8(characters)) matches Some(elements) ==> {
            ||| elements.len() < 2
            ||| elements[0].0 != Some("EVENT"@)
            ||| elements[1].0 != Some("__buzz_client_binding_bootstrap_v1__"@) && elements[1].0
                != Some("__buzz_client_binding_status_v1__"@)
        },
        vstd::utf8::valid_utf8(bytes) ==> vstd::utf8::decode_utf8(bytes) == characters,
    ensures
        connection_step(
            session,
            ConnectionEventView::Message(MessageView::Text(characters)),
            now,
        ) == (session, ActionView::Deliver(MessageView::Text(characters))),
        connection_step(
            session,
            ConnectionEventView::Message(MessageView::Binary(bytes)),
            now,
        ) == (session, ActionView::Deliver(MessageView::Binary(bytes))),
{
    client_binding_status_session::ordinary_text_is_not_reserved(characters);
}

/// A text that is a JSON array whose first element is the string `EVENT` and whose
/// second is one of the two reserved subscriptions is never given to the webview,
/// neither as text nor as the same text in binary. Without a session it does
/// nothing; with one both do the same.
pub proof fn reserved_text_stays_native(
    session: Option<SessionView>,
    characters: Seq<char>,
    bytes: Seq<u8>,
    now: u64,
)
    requires
        json::serde_array(vstd::utf8::encode_utf8(characters)) matches Some(elements) && {
            &&& elements.len() >= 2
            &&& elements[0].0 == Some("EVENT"@)
            &&& elements[1].0 == Some("__buzz_client_binding_bootstrap_v1__"@) || elements[1].0
                == Some("__buzz_client_binding_status_v1__"@)
        },
        vstd::utf8::valid_utf8(bytes),
        vstd::utf8::decode_utf8(bytes) == characters,
    ensures
        ({
            let text = connection_step(
                session,
                ConnectionEventView::Message(MessageView::Text(characters)),
                now,
            );
            let binary = connection_step(
                session,
                ConnectionEventView::Message(MessageView::Binary(bytes)),
                now,
            );
            &&& text == binary
            &&& !(text.1 is Deliver) && !(text.1 is DeliverLast)
            &&& session is None ==> text == (session, ActionView::Continue)
        }),
{
    client_binding_status_session::text_is_reserved_exactly_by_its_first_elements(characters);
}

/// What a reserved text does to a connection with a session is what the session
/// does with its frame: a change is reported, a scope opens the tracker, an event
/// goes to the tracker.
pub proof fn reserved_text_is_folded(session: SessionView, characters: Seq<char>, now: u64)
    requires
        client_binding_status_session::frame_in(characters) is Some,
    ensures
        ({
            let frame = client_binding_status_session::frame_in(characters).unwrap();
            let authentic = frame.event matches Some(event) && event::nostr_verifies(event);
            let (folded, step) = client_binding_status_session::frame_step(
                session,
                frame,
                authentic,
                now,
            );
            let (next, action) = connection_step(
                Some(session),
                ConnectionEventView::Message(MessageView::Text(characters)),
                now,
            );
            &&& next == Some(folded)
            &&& step matches StepView::Project(update) ==> action == ActionView::Apply(update)
            &&& step matches StepView::OpenTracker(scope) ==> action == ActionView::OpenTracker(
                scope,
            )
            &&& step matches StepView::FoldStatus(event) ==> action == ActionView::TrackStatus(
                event,
            )
        }),
{
}

/// Ping and pong reach the webview as they are, a close reaches it last, and a raw
/// frame reaches it as an error, last. None of it changes the session.
pub proof fn control_message_reaches_webview(
    session: Option<SessionView>,
    bytes: Seq<u8>,
    close: Option<(u16, Seq<char>)>,
    now: u64,
)
    ensures
        connection_step(session, ConnectionEventView::Message(MessageView::Ping(bytes)), now) == (
            session,
            ActionView::Deliver(MessageView::Ping(bytes)),
        ),
        connection_step(session, ConnectionEventView::Message(MessageView::Pong(bytes)), now) == (
            session,
            ActionView::Deliver(MessageView::Pong(bytes)),
        ),
        connection_step(session, ConnectionEventView::Message(MessageView::Close(close)), now) == (
            session,
            ActionView::DeliverLast(MessageView::Close(close)),
        ),
        connection_step(session, ConnectionEventView::Message(MessageView::Frame), now) == (
            session,
            ActionView::DeliverLast(MessageView::Error("unexpected raw WebSocket frame"@)),
        ),
{
}

/// An outcome of the tracker that is accepted until some time, on a connection
/// whose session is bound and not latched, is reported as what is shown: the
/// author, that time and the epoch. Every outcome is reported; a connection
/// without a session has nothing to report.
pub proof fn tracker_outcome_is_reported(
    session: SessionView,
    outcome: StatusOutcome,
    fresh_until: u64,
    now: u64,
)
    ensures
        ({
            let (next, action) = connection_step(
                Some(session),
                ConnectionEventView::Outcome(outcome),
                now,
            );
            &&& next is Some
            &&& action is Apply
            &&& session.tracker is Some && !session.latched_invalid && outcome
                == StatusOutcome::Accepted(Some(fresh_until)) ==> {
                &&& next matches Some(state) && state.fresh_until == Some(fresh_until)
                &&& action matches ActionView::Apply(UpdateView::Current(shown)) && {
                    &&& shown.event_author_pubkey == text::hex_lower(session.author)
                    &&& shown.fresh_until == fresh_until
                    &&& shown.connection_epoch == session.epoch
                }
            }
        }),
        connection_step(None, ConnectionEventView::Outcome(outcome), now) == (
            None::<SessionView>,
            ActionView::Continue,
        ),
{
}

/// When the time of what is shown has come, that it ends is reported, and the
/// tracker is asked; before that, and where nothing is shown, nothing changes.
pub proof fn expiry_is_reported_in_time(session: SessionView, now: u64)
    ensures
        ({
            let (next, action) = connection_step(Some(session), ConnectionEventView::Expired, now);
            &&& (session.fresh_until matches Some(fresh_until) && now >= fresh_until) ==> {
                &&& next == Some(SessionView { fresh_until: None, ..session })
                &&& action == ActionView::ApplyExpired(UpdateView::Clear)
            }
            &&& !(session.fresh_until matches Some(fresh_until) && now >= fresh_until) ==> {
                &&& next == Some(session)
                &&& action == ActionView::Apply(UpdateView::Unchanged)
            }
        }),
        connection_step(None, ConnectionEventView::Expired, now) == (
            None::<SessionView>,
            ActionView::Continue,
        ),
{
}

/// Ending a connection that does not own the projection leaves all of it as it
/// was: generation, owner and what is shown. Ending the owner leaves no owner and
/// nothing shown, and the generation stays.
pub proof fn disconnect_ends_only_its_own_projection<C>(state: ProjectionView<C>, id: u32)
    ensures
        ({
            let next = projection_without(state, id);
            &&& state.owner is None ==> next == state
            &&& state.owner matches Some(owner) ==> {
                &&& owner.id != id ==> next == state
                &&& owner.id == id ==> next.owner is None && next.current is None
            }
            &&& next.generation == state.generation
        }),
{
}

/// A connection that ends by itself takes with it what it owns, and nothing that
/// another connection, or its own in another epoch, owns.
pub proof fn closing_ends_only_its_own_projection<C>(
    state: ProjectionView<C>,
    id: u32,
    session: Option<SessionView>,
)
    ensures
        ({
            let next = projection_closed(state, id, session);
            let owns = session matches Some(ended) && {
                &&& state.owner matches Some(owner) && owner.id == id && owner.epoch == ended.epoch
            };
            &&& owns ==> next.owner is None && next.current is None
            &&& !owns ==> next == state
            &&& next.generation == state.generation
        }),
{
}

/// A new connection with a session and a channel, whose attempt has the present
/// generation, becomes the owner under its identifier and epoch and keeps its
/// session. Any other keeps no session and leaves the projection as it was.
pub proof fn opening_takes_projection_by_generation<C>(
    state: ProjectionView<C>,
    id: u32,
    session: Option<SessionView>,
    channel: Option<C>,
    generation: Option<u64>,
)
    ensures
        ({
            let next = projection_with(state, id, session, channel, generation);
            let kept = kept_session(state, session, channel, generation);
            &&& session is Some && channel is Some && generation == Some(state.generation) ==> {
                &&& kept == session
                &&& next.owner matches Some(owner) && {
                    &&& owner.id == id
                    &&& session matches Some(opened) && owner.epoch == opened.epoch
                    &&& Some(owner.channel) == channel
                }
                &&& next.current is None
            }
            &&& session is None || channel is None || generation != Some(state.generation) ==> {
                &&& kept is None
                &&& next == state
            }
            &&& next.generation == state.generation
            &&& asks_for_projection(session, channel, generation) == (session is Some && channel
                is Some && generation is Some)
        }),
{
}

/// A connection is refused exactly if its handshake failed, with the text of that
/// failure, or if its round is over, as cancelled.
pub proof fn opening_is_refused_exactly_if(
    current: u64,
    round: u64,
    handshake: Result<(), ConnectFailure>,
)
    ensures
        ({
            let error = opening_error(current, round, handshake);
            &&& handshake matches Err(failure) ==> error == Some(messages::connect_error(failure))
            &&& handshake is Ok && current != round ==> error == Some(
                "WebSocket connection cancelled"@,
            )
            &&& handshake is Ok && current == round ==> error is None
        }),
{
}

/// A connection that opens is registered with its handle and a token of its own
/// under an identifier that was free, and takes the projection by its generation.
pub proof fn opened_connection_is_as_requested<H, C>(
    registered: Registered,
    id: u32,
    request: OpenRequest<H, C>,
    registry_before: RegistryView<H>,
    registry_after: RegistryView<H>,
    projection_before: ProjectionView<C>,
    projection_after: ProjectionView<C>,
)
    requires
        is_opened_as(
            registered,
            id,
            request,
            registry_before,
            registry_after,
            projection_before,
            projection_after,
        ),
    ensures
        registered.id == id,
        !registry_before.connections.contains_key(id),
        registered.token == registry_before.next_token,
        registry_after.connections.contains_key(id),
        registry_after.connections[id].handle == request.handle,
        registry_after.connections[id].token == registered.token,
        registry_after.next_token != registry_before.next_token,
        forall|other: u32|
            other != id ==> (#[trigger] registry_after.connections.contains_key(other)
                == registry_before.connections.contains_key(other)) && (
            registry_before.connections.contains_key(other) ==> registry_after.connections[other]
                == registry_before.connections[other]),
        registered.opened.tell_channel == (request.session is Some && request.channel is Some
            && request.generation is Some),
        request.session is Some && request.channel is Some && request.generation == Some(
            projection_before.generation,
        ) ==> {
            &&& registered.opened.connection@ == optional_session(request.session)
            &&& projection_after.owner matches Some(owner) && {
                &&& owner.id == id
                &&& Some(owner.channel) == request.channel
                &&& optional_session(request.session) matches Some(session) && owner.epoch
                    == session.epoch
            }
            &&& projection_after.current is None
            &&& projection_after.generation == projection_before.generation
        },
        request.session is None || request.channel is None || request.generation != Some(
            projection_before.generation,
        ) ==> registered.opened.connection@ is None && projection_after == projection_before,
{
}

/// The event and the action of a connection are seen with all that they hold.
pub proof fn events_and_actions_are_seen_whole(
    message: SocketMessage,
    given: OutboundMessage,
    reason: String,
    update: ProjectionUpdate,
    scope: TrackerScope,
    event: Event,
    outcome: StatusOutcome,
)
    ensures
        ConnectionEvent::Requested(Some(message))@ == ConnectionEventView::Requested(
            Some(message@),
        ),
        ConnectionEvent::Requested(None)@ == ConnectionEventView::Requested(None),
        ConnectionEvent::Received(Incoming::Message(message))@ == ConnectionEventView::Message(
            message@,
        ),
        ConnectionEvent::Received(Incoming::Failed(reason))@ == ConnectionEventView::Failed(
            reason@,
        ),
        ConnectionEvent::Received(Incoming::End)@ == ConnectionEventView::End,
        ConnectionEvent::Written(WriteOutcome::Written)@ == ConnectionEventView::Written(None),
        ConnectionEvent::Written(WriteOutcome::Failed(reason))@ == ConnectionEventView::Written(
            Some(reason@),
        ),
        ConnectionEvent::Written(WriteOutcome::TimedOut)@ == ConnectionEventView::Written(
            Some("WebSocket send timed out"@),
        ),
        ConnectionEvent::Outcome(outcome)@ == ConnectionEventView::Outcome(outcome),
        ConnectionEvent::Expired@ == ConnectionEventView::Expired,
        ConnectionEvent::Cancelled@ == ConnectionEventView::Cancelled,
        ConnectionAction::Write(message)@ == ActionView::Write(message@),
        ConnectionAction::WriteLast(message)@ == ActionView::WriteLast(message@),
        ConnectionAction::Deliver(given)@ == ActionView::Deliver(given@),
        ConnectionAction::DeliverLast(given)@ == ActionView::DeliverLast(given@),
        ConnectionAction::Apply(update)@ == ActionView::Apply(update@),
        ConnectionAction::ApplyExpired(update)@ == ActionView::ApplyExpired(update@),
        ConnectionAction::OpenTracker(scope)@ == ActionView::OpenTracker(scope@),
        ConnectionAction::TrackStatus(event)@ == ActionView::TrackStatus(event@),
        ConnectionAction::Reply(Ok(()))@ == ActionView::Reply(None),
        ConnectionAction::Reply(Err(reason))@ == ActionView::Reply(Some(reason@)),
        ConnectionAction::Continue@ == ActionView::Continue,
        ConnectionAction::End@ == ActionView::End,
{
}

} // verus!
