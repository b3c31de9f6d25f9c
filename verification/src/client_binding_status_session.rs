//! Native-only relay binding status validation and projection.
//!
//! A session folds the reserved frames of one connection. It decides which
//! frame counts, what a frame means for the projection, and when the projection
//! ends. The status tracker that a bound session opens is run outside: the
//! session says with which scope to open it and which event to hand to it, and
//! is told what came of it.

use vstd::prelude::*;
use vstd::string::StringExecFns;

use crate::client_binding_bootstrap;
use crate::client_binding_bootstrap::{
    validate_bootstrap_with_verification, ClientBindingEpoch, CLIENT_BINDING_BOOTSTRAP_SUB_ID,
    CLIENT_BINDING_STATUS_SUB_ID,
};
use crate::community::CommunityId;
use crate::event;
use crate::event::{Event, EventView, PublicKey};
use crate::json;
use crate::json::JsonElement;
use crate::text;

verus! {

/// Current-only data permitted to cross the native IPC boundary.
#[derive(Debug, PartialEq, Eq)]
pub struct CurrentProjection {
    pub event_author_pubkey: String,
    pub fresh_until: u64,
    pub connection_epoch: String,
}

/// What a projection shows.
pub struct CurrentProjectionView {
    pub event_author_pubkey: Seq<char>,
    pub fresh_until: u64,
    pub connection_epoch: Seq<char>,
}

impl View for CurrentProjection {
    type V = CurrentProjectionView;

    open spec fn view(&self) -> CurrentProjectionView {
        CurrentProjectionView {
            event_author_pubkey: self.event_author_pubkey@,
            fresh_until: self.fresh_until,
            connection_epoch: self.connection_epoch@,
        }
    }
}

impl Clone for CurrentProjection {
    fn clone(&self) -> (copy: Self)
        ensures
            copy@ == self@,
    {
        CurrentProjection {
            event_author_pubkey: self.event_author_pubkey.clone(),
            fresh_until: self.fresh_until,
            connection_epoch: self.connection_epoch.clone(),
        }
    }
}

/// One change produced by the serialized native fold.
pub enum ProjectionUpdate {
    Unchanged,
    Clear,
    Current(CurrentProjection),
}

/// A change of the projection.
pub enum UpdateView {
    Unchanged,
    Clear,
    Current(CurrentProjectionView),
}

impl View for ProjectionUpdate {
    type V = UpdateView;

    open spec fn view(&self) -> UpdateView {
        match self {
            ProjectionUpdate::Unchanged => UpdateView::Unchanged,
            ProjectionUpdate::Clear => UpdateView::Clear,
            ProjectionUpdate::Current(current) => UpdateView::Current(current@),
        }
    }
}

/// The two reserved exact-connection channels.
#[derive(Clone, Copy, PartialEq, Eq, Debug)]
pub enum ReservedChannel {
    Bootstrap,
    Status,
}

/// What a reserved frame carries.
pub struct ReservedEvent {
    /// The event of the frame, where it holds one.
    pub event: Option<Event>,
    /// The frame has three elements.
    pub exact_outer_shape: bool,
}

/// A frame on a reserved channel.
pub struct ReservedFrame {
    pub channel: ReservedChannel,
    pub reserved: ReservedEvent,
}

/// A frame on a reserved channel.
pub struct FrameView {
    pub channel: ReservedChannel,
    pub event: Option<EventView>,
    pub exact_outer_shape: bool,
}

impl View for ReservedFrame {
    type V = FrameView;

    open spec fn view(&self) -> FrameView {
        FrameView {
            channel: self.channel,
            event: event::optional_event(self.reserved.event),
            exact_outer_shape: self.reserved.exact_outer_shape,
        }
    }
}

/// The reserved channel that a frame with these elements is on: its first
/// element is `"EVENT"`, its second the subscription of the channel.
pub open spec fn channel_of(elements: Seq<(Option<Seq<char>>, Seq<char>)>) -> Option<
    ReservedChannel,
> {
    if elements.len() < 2 || elements[0].0 != Some("EVENT"@) {
        None
    } else if elements[1].0 == Some(CLIENT_BINDING_BOOTSTRAP_SUB_ID@) {
        Some(ReservedChannel::Bootstrap)
    } else if elements[1].0 == Some(CLIENT_BINDING_STATUS_SUB_ID@) {
        Some(ReservedChannel::Status)
    } else {
        None
    }
}

/// The reserved frame that a text holds.
pub open spec fn frame_in(characters: Seq<char>) -> Option<FrameView> {
    match json::serde_array(vstd::utf8::encode_utf8(characters)) {
        Some(elements) => match channel_of(elements) {
            Some(channel) => Some(
                FrameView {
                    channel,
                    event: if elements.len() > 2 {
                        event::nostr_event(elements[2].1)
                    } else {
                        None
                    },
                    exact_outer_shape: elements.len() == 3,
                },
            ),
            None => None,
        },
        None => None,
    }
}

/// Whether a text is there and holds these characters.
fn is_text(element: &Option<String>, expected: &str) -> (same: bool)
    ensures
        same == (text::optional_view(*element) == Some(expected@)),
{
    match element {
        Some(characters) => text::same_text(characters.as_str(), expected),
        None => false,
    }
}

/// The reserved channel that a frame with these elements is on.
pub fn reserved_channel(elements: &Vec<JsonElement>) -> (channel: Option<ReservedChannel>)
    ensures
        channel == channel_of(elements@.map_values(|element: JsonElement| element@)),
{
    if elements.len() < 2 || !is_text(&elements[0].string, "EVENT") {
        return None;
    }
    if is_text(&elements[1].string, CLIENT_BINDING_BOOTSTRAP_SUB_ID) {
        Some(ReservedChannel::Bootstrap)
    } else if is_text(&elements[1].string, CLIENT_BINDING_STATUS_SUB_ID) {
        Some(ReservedChannel::Status)
    } else {
        None
    }
}

/// The reserved frame that a text holds.
pub fn reserved_frame(characters: &str) -> (frame: Option<ReservedFrame>)
    ensures
        frame.is_some() == frame_in(characters@).is_some(),
        frame matches Some(held) ==> frame_in(characters@) == Some(held@),
{
    let elements = match json::read_array(characters.as_bytes()) {
        Some(elements) => elements,
        None => return None,
    };
    let channel = match reserved_channel(&elements) {
        Some(channel) => channel,
        None => return None,
    };
    let event = if elements.len() > 2 {
        Event::from_json(elements[2].json.as_str())
    } else {
        None
    };
    Some(
        ReservedFrame {
            channel,
            reserved: ReservedEvent { event, exact_outer_shape: elements.len() == 3 },
        },
    )
}

/// Classify the reserved exact-connection channels without requiring an
/// eligible presentation session. Every native socket uses this to prevent
/// bootstrap and status frames from reaching raw browser delivery.
pub fn is_reserved_text(characters: &str) -> (reserved: bool)
    ensures
        reserved == frame_in(characters@).is_some(),
{
    reserved_frame(characters).is_some()
}

/// What a status tracker is opened with.
#[derive(Clone, Copy, PartialEq, Eq)]
pub struct TrackerScope {
    pub trusted_relay_pubkey: PublicKey,
    pub authorization_domain: CommunityId,
    pub event_author_pubkey: PublicKey,
}

/// What a status tracker is opened with.
pub struct ScopeView {
    pub relay: Seq<u8>,
    pub domain: Seq<u8>,
    pub author: Seq<u8>,
}

impl View for TrackerScope {
    type V = ScopeView;

    open spec fn view(&self) -> ScopeView {
        ScopeView {
            relay: self.trusted_relay_pubkey@,
            domain: self.authorization_domain@,
            author: self.event_author_pubkey@,
        }
    }
}

/// What came of handing a status event to the tracker.
#[derive(Clone, Copy, PartialEq, Eq, Debug)]
pub enum StatusOutcome {
    /// The tracker has this status already.
    Duplicate,
    /// The tracker took the status, and presents it until then, or presents none.
    Accepted(Option<u64>),
    /// The tracker refused the event.
    Rejected,
}

/// What a reserved frame asks for.
pub enum SessionStep {
    /// Apply this to the projection.
    Project(ProjectionUpdate),
    /// The connection is bound: open a tracker with this scope. The projection
    /// is unchanged.
    OpenTracker(TrackerScope),
    /// Hand this event to the tracker, and its outcome to
    /// [`ClientBindingStatusSession::fold_status`].
    FoldStatus(Event),
}

/// What a reserved frame asks for.
pub enum StepView {
    Project(UpdateView),
    OpenTracker(ScopeView),
    FoldStatus(EventView),
}

impl View for SessionStep {
    type V = StepView;

    open spec fn view(&self) -> StepView {
        match self {
            SessionStep::Project(update) => StepView::Project(update@),
            SessionStep::OpenTracker(scope) => StepView::OpenTracker(scope@),
            SessionStep::FoldStatus(event) => StepView::FoldStatus(event@),
        }
    }
}

/// The state of a session.
pub struct SessionView {
    pub relay: Seq<u8>,
    pub author: Seq<u8>,
    pub epoch: Seq<char>,
    pub bootstrap_event_id: Option<Seq<u8>>,
    pub latched_invalid: bool,
    pub tracker: Option<ScopeView>,
    pub fresh_until: Option<u64>,
}

/// A session before its first frame.
pub open spec fn fresh_session(relay: Seq<u8>, author: Seq<u8>, epoch: Seq<char>) -> SessionView {
    SessionView {
        relay,
        author,
        epoch,
        bootstrap_event_id: None,
        latched_invalid: false,
        tracker: None,
        fresh_until: None,
    }
}

/// What holds of every session: it has a tracker, for its own relay and author,
/// exactly if it is bound, and projects only if it is bound and not latched.
pub open spec fn is_consistent(session: SessionView) -> bool {
    &&& session.tracker.is_some() == session.bootstrap_event_id.is_some()
    &&& session.tracker matches Some(scope) ==> scope.relay == session.relay && scope.author
        == session.author
    &&& session.fresh_until.is_some() ==> session.tracker.is_some() && !session.latched_invalid
}

/// The session without a projection.
pub open spec fn cleared(session: SessionView) -> SessionView {
    SessionView { fresh_until: None, ..session }
}

/// The session that takes nothing any more.
pub open spec fn latched(session: SessionView) -> SessionView {
    SessionView { latched_invalid: true, fresh_until: None, ..session }
}

/// The session bound by a bootstrap.
pub open spec fn bound(session: SessionView, id: Seq<u8>, domain: Seq<u8>) -> SessionView {
    SessionView {
        bootstrap_event_id: Some(id),
        tracker: Some(ScopeView { relay: session.relay, domain, author: session.author }),
        ..session
    }
}

/// The event comes from the relay of the session.
pub open spec fn is_trusted(session: SessionView, event: EventView, authenticated: bool) -> bool {
    authenticated && event.pubkey == session.relay
}

/// What a frame on the bootstrap channel does.
pub open spec fn bootstrap_step(
    session: SessionView,
    event: EventView,
    exact_outer_shape: bool,
    authenticated: bool,
    now: u64,
) -> (SessionView, StepView) {
    if !is_trusted(session, event, authenticated) {
        (session, StepView::Project(UpdateView::Unchanged))
    } else if !exact_outer_shape || session.latched_invalid {
        (latched(session), StepView::Project(UpdateView::Clear))
    } else {
        match client_binding_bootstrap::bootstrap_outcome(
            event,
            authenticated,
            session.relay,
            session.epoch,
            session.author,
            now,
        ) {
            Err(_) => (latched(session), StepView::Project(UpdateView::Clear)),
            Ok(bootstrap) => match session.bootstrap_event_id {
                Some(id) => if id == event.id {
                    (session, StepView::Project(UpdateView::Unchanged))
                } else {
                    (latched(session), StepView::Project(UpdateView::Clear))
                },
                None => (
                    bound(session, event.id, bootstrap.authorization_domain),
                    StepView::OpenTracker(
                        ScopeView {
                            relay: session.relay,
                            domain: bootstrap.authorization_domain,
                            author: session.author,
                        },
                    ),
                ),
            },
        }
    }
}

/// What a frame on the status channel does.
pub open spec fn status_step(
    session: SessionView,
    event: EventView,
    exact_outer_shape: bool,
    authenticated: bool,
) -> (SessionView, StepView) {
    if !is_trusted(session, event, authenticated) {
        (session, StepView::Project(UpdateView::Unchanged))
    } else if session.tracker is None {
        (latched(session), StepView::Project(UpdateView::Clear))
    } else if session.latched_invalid || !exact_outer_shape {
        (cleared(session), StepView::Project(UpdateView::Clear))
    } else {
        (session, StepView::FoldStatus(event))
    }
}

/// What a reserved frame does. `authenticated`: the identifier and the signature
/// of its event hold. A frame without an event does nothing.
pub open spec fn frame_step(
    session: SessionView,
    frame: FrameView,
    authenticated: bool,
    now: u64,
) -> (SessionView, StepView) {
    match (frame.event, frame.channel) {
        (None, _) => (session, StepView::Project(UpdateView::Unchanged)),
        (Some(event), ReservedChannel::Bootstrap) => bootstrap_step(
            session,
            event,
            frame.exact_outer_shape,
            authenticated,
            now,
        ),
        (Some(event), ReservedChannel::Status) => status_step(
            session,
            event,
            frame.exact_outer_shape,
            authenticated,
        ),
    }
}

/// Whether the event of a frame is authentic.
pub open spec fn is_authentic(frame: FrameView) -> bool {
    match frame.event {
        Some(event) => event::nostr_verifies(event),
        None => false,
    }
}

/// The projection of a session until `fresh_until`.
pub open spec fn projection_of(session: SessionView, fresh_until: u64) -> CurrentProjectionView {
    CurrentProjectionView {
        event_author_pubkey: text::hex_lower(session.author),
        fresh_until,
        connection_epoch: session.epoch,
    }
}

/// What the outcome of a status event does. Without a tracker, or once latched,
/// nothing is projected.
pub open spec fn status_fold(session: SessionView, outcome: StatusOutcome) -> (
    SessionView,
    UpdateView,
) {
    if session.latched_invalid || session.tracker is None {
        (cleared(session), UpdateView::Clear)
    } else {
        match outcome {
            StatusOutcome::Duplicate => (session, UpdateView::Unchanged),
            StatusOutcome::Accepted(Some(fresh_until)) => (
                SessionView { fresh_until: Some(fresh_until), ..session },
                UpdateView::Current(projection_of(session, fresh_until)),
            ),
            StatusOutcome::Accepted(None) => (cleared(session), UpdateView::Clear),
            StatusOutcome::Rejected => (cleared(session), UpdateView::Clear),
        }
    }
}

/// The time of the projection has come.
pub open spec fn is_expired(session: SessionView, now: u64) -> bool {
    session.fresh_until matches Some(fresh_until) && now >= fresh_until
}

/// What the passing of time does: a projection ends at its time.
pub open spec fn expiry(session: SessionView, now: u64) -> (SessionView, UpdateView) {
    if is_expired(session, now) {
        (cleared(session), UpdateView::Clear)
    } else {
        (session, UpdateView::Unchanged)
    }
}

/// How a value is shown that may be there or not.
pub open spec fn redacted(present: bool) -> Seq<char> {
    if present {
        "Some(\"[redacted]\")"@
    } else {
        "None"@
    }
}

/// How a value is shown that may be there or not.
fn redacted_text(present: bool) -> (shown: &'static str)
    ensures
        shown@ == redacted(present),
{
    if present {
        "Some(\"[redacted]\")"
    } else {
        "None"
    }
}

/// The text of a session for diagnostics.
pub open spec fn session_debug_text(bound: bool, latched: bool, tracking: bool) -> Seq<char> {
    "ClientBindingStatusSession { trusted_relay_pubkey: \"[redacted]\", expected_event_author_pubkey: \"[redacted]\", connection_epoch: \"[redacted]\", bootstrap_event_id: "@
        + redacted(bound) + ", bootstrap_latched_invalid: "@ + (if latched {
        "true"@
    } else {
        "false"@
    }) + ", tracker: "@ + redacted(tracking) + ", projected_fresh_until: \"[redacted]\" }"@
}

/// What a bootstrap has bound a session to.
#[derive(Clone, Copy)]
struct Binding {
    bootstrap_event_id: [u8; 32],
    tracker: TrackerScope,
}

/// Connection-scoped fold of authenticated bootstrap and status frames.
pub struct ClientBindingStatusSession {
    trusted_relay_pubkey: PublicKey,
    expected_event_author_pubkey: PublicKey,
    connection_epoch: ClientBindingEpoch,
    binding: Option<Binding>,
    bootstrap_latched_invalid: bool,
    projected_fresh_until: Option<u64>,
}

impl View for ClientBindingStatusSession {
    type V = SessionView;

    closed spec fn view(&self) -> SessionView {
        SessionView {
            relay: self.trusted_relay_pubkey@,
            author: self.expected_event_author_pubkey@,
            epoch: self.connection_epoch@,
            bootstrap_event_id: match self.binding {
                Some(binding) => Some(binding.bootstrap_event_id@),
                None => None,
            },
            latched_invalid: self.bootstrap_latched_invalid,
            tracker: match self.binding {
                Some(binding) => Some(binding.tracker@),
                None => None,
            },
            fresh_until: self.projected_fresh_until,
        }
    }
}

impl ClientBindingStatusSession {
    /// Every session is consistent.
    #[verifier::type_invariant]
    pub open spec fn is_consistent_session(self) -> bool {
        is_consistent(self@)
    }

    pub fn new(
        trusted_relay_pubkey: PublicKey,
        expected_event_author_pubkey: PublicKey,
        connection_epoch: ClientBindingEpoch,
    ) -> (session: Self)
        ensures
            session@ == fresh_session(
                trusted_relay_pubkey@,
                expected_event_author_pubkey@,
                connection_epoch@,
            ),
            is_consistent(session@),
    {
        ClientBindingStatusSession {
            trusted_relay_pubkey,
            expected_event_author_pubkey,
            connection_epoch,
            binding: None,
            bootstrap_latched_invalid: false,
            projected_fresh_until: None,
        }
    }

    pub fn connection_epoch(&self) -> (epoch: &ClientBindingEpoch)
        ensures
            epoch@ == self@.epoch,
            is_consistent(self@),
    {
        proof {
            use_type_invariant(self);
        }
        &self.connection_epoch
    }

    pub fn projected_fresh_until(&self) -> (fresh_until: Option<u64>)
        ensures
            fresh_until == self@.fresh_until,
            is_consistent(self@),
    {
        proof {
            use_type_invariant(self);
        }
        self.projected_fresh_until
    }

    /// Whether the session has a tracker. When the connection ends, the tracker is
    /// to be told so.
    pub fn has_tracker(&self) -> (present: bool)
        ensures
            present == (self@.tracker is Some),
            is_consistent(self@),
    {
        proof {
            use_type_invariant(self);
        }
        self.binding.is_some()
    }

    /// Whether the time of the projection has come. If so, the tracker is to be
    /// asked for its presentation at this time, which lets it see its expiry.
    pub fn is_expired(&self, now: u64) -> (expired: bool)
        ensures
            expired == is_expired(self@, now),
            expired ==> self@.tracker is Some,
            is_consistent(self@),
    {
        proof {
            use_type_invariant(self);
        }
        match self.projected_fresh_until {
            Some(fresh_until) => now >= fresh_until,
            None => false,
        }
    }

    /// Swallow and fold an exact reserved EVENT frame. All other frames return
    /// `None` and must be delivered to the webview unchanged.
    pub fn consume_text(&mut self, characters: &str, now: u64) -> (step: Option<SessionStep>)
        ensures
            match frame_in(characters@) {
                None => step is None && final(self)@ == old(self)@,
                Some(frame) => step matches Some(taken) && (final(self)@, taken@) == frame_step(
                    old(self)@,
                    frame,
                    is_authentic(frame),
                    now,
                ),
            },
            is_consistent(final(self)@),
    {
        proof {
            use_type_invariant(&*self);
        }
        match reserved_frame(characters) {
            None => None,
            Some(frame) => {
                let authenticated = match &frame.reserved.event {
                    Some(event) => event.verify(),
                    None => false,
                };
                Some(self.accept_frame(frame, authenticated, now))
            },
        }
    }

    /// Folds a reserved frame, given whether the identifier and the signature of
    /// its event hold.
    pub fn accept_frame(&mut self, frame: ReservedFrame, authenticated: bool, now: u64) -> (step:
        SessionStep)
        ensures
            (final(self)@, step@) == frame_step(old(self)@, frame@, authenticated, now),
            is_consistent(final(self)@),
    {
        proof {
            use_type_invariant(&*self);
        }
        match frame.reserved.event {
            None => SessionStep::Project(ProjectionUpdate::Unchanged),
            Some(event) => match frame.channel {
                ReservedChannel::Bootstrap => self.accept_bootstrap(
                    event,
                    frame.reserved.exact_outer_shape,
                    authenticated,
                    now,
                ),
                ReservedChannel::Status => self.accept_status(
                    event,
                    frame.reserved.exact_outer_shape,
                    authenticated,
                ),
            },
        }
    }

    fn accept_bootstrap(
        &mut self,
        event: Event,
        exact_outer_shape: bool,
        authenticated: bool,
        now: u64,
    ) -> (step: SessionStep)
        ensures
            (final(self)@, step@) == bootstrap_step(
                old(self)@,
                event@,
                exact_outer_shape,
                authenticated,
                now,
            ),
            is_consistent(final(self)@),
    {
        proof {
            use_type_invariant(&*self);
        }
        if !authenticated || !event.pubkey.is_same(&self.trusted_relay_pubkey) {
            return SessionStep::Project(ProjectionUpdate::Unchanged);
        }
        if !exact_outer_shape || self.bootstrap_latched_invalid {
            return SessionStep::Project(self.latch());
        }
        let bootstrap = match validate_bootstrap_with_verification(
            &event,
            authenticated,
            &self.trusted_relay_pubkey,
            &self.connection_epoch,
            &self.expected_event_author_pubkey,
            now,
        ) {
            Ok(bootstrap) => bootstrap,
            Err(_) => {
                return SessionStep::Project(self.latch());
            },
        };
        if let Some(binding) = self.binding {
            return if text::same_bytes(&binding.bootstrap_event_id, &event.id) {
                SessionStep::Project(ProjectionUpdate::Unchanged)
            } else {
                SessionStep::Project(self.latch())
            };
        }
        let scope = TrackerScope {
            trusted_relay_pubkey: self.trusted_relay_pubkey,
            authorization_domain: bootstrap.authorization_domain(),
            event_author_pubkey: self.expected_event_author_pubkey,
        };
        self.binding = Some(Binding { bootstrap_event_id: event.id, tracker: scope });
        SessionStep::OpenTracker(scope)
    }

    fn accept_status(&mut self, event: Event, exact_outer_shape: bool, authenticated: bool) -> (step:
        SessionStep)
        ensures
            (final(self)@, step@) == status_step(
                old(self)@,
                event@,
                exact_outer_shape,
                authenticated,
            ),
            is_consistent(final(self)@),
    {
        proof {
            use_type_invariant(&*self);
        }
        if !authenticated || !event.pubkey.is_same(&self.trusted_relay_pubkey) {
            return SessionStep::Project(ProjectionUpdate::Unchanged);
        }
        if self.bootstrap_latched_invalid {
            return SessionStep::Project(self.clear_trusted_invalid());
        }
        if self.binding.is_none() {
            return SessionStep::Project(self.latch());
        }
        if !exact_outer_shape {
            return SessionStep::Project(self.clear_trusted_invalid());
        }
        SessionStep::FoldStatus(event)
    }

    /// Folds what came of the event of a [`SessionStep::FoldStatus`].
    pub fn fold_status(&mut self, outcome: StatusOutcome) -> (update: ProjectionUpdate)
        ensures
            (final(self)@, update@) == status_fold(old(self)@, outcome),
            is_consistent(final(self)@),
    {
        proof {
            use_type_invariant(&*self);
        }
        if self.bootstrap_latched_invalid || self.binding.is_none() {
            return self.clear_trusted_invalid();
        }
        match outcome {
            StatusOutcome::Duplicate => ProjectionUpdate::Unchanged,
            StatusOutcome::Accepted(presentation) => {
                let fresh_until: u64 = match presentation {
                    Some(fresh_until) => fresh_until,
                    None => {
                        return self.clear_trusted_invalid();
                    },
                };
                self.projected_fresh_until = Some(fresh_until);
                ProjectionUpdate::Current(
                    CurrentProjection {
                        event_author_pubkey: self.expected_event_author_pubkey.to_hex(),
                        fresh_until,
                        connection_epoch: self.connection_epoch.as_str().to_owned(),
                    },
                )
            },
            StatusOutcome::Rejected => self.clear_trusted_invalid(),
        }
    }

    /// Ends a projection whose time has come. The tracker is told by the rule of
    /// [`Self::is_expired`].
    pub fn expire(&mut self, now: u64) -> (update: ProjectionUpdate)
        ensures
            (final(self)@, update@) == expiry(old(self)@, now),
            is_consistent(final(self)@),
    {
        if !self.is_expired(now) {
            return ProjectionUpdate::Unchanged;
        }
        self.clear_trusted_invalid()
    }

    /// Ends the projection with the connection. The tracker is told by the rule of
    /// [`Self::has_tracker`].
    pub fn disconnect(&mut self) -> (update: ProjectionUpdate)
        ensures
            final(self)@ == cleared(old(self)@),
            update@ == UpdateView::Clear,
            is_consistent(final(self)@),
    {
        self.clear_trusted_invalid()
    }

    /// The text for diagnostics: whether the session is bound and whether it is
    /// latched, and no value.
    pub fn debug_text(&self) -> (shown: String)
        ensures
            shown@ == session_debug_text(
                self@.bootstrap_event_id is Some,
                self@.latched_invalid,
                self@.tracker is Some,
            ),
    {
        let mut shown: String = "ClientBindingStatusSession { trusted_relay_pubkey: \"[redacted]\", expected_event_author_pubkey: \"[redacted]\", connection_epoch: \"[redacted]\", bootstrap_event_id: ".to_owned();
        shown.append(redacted_text(self.binding.is_some()));
        shown.append(", bootstrap_latched_invalid: ");
        shown.append(
            if self.bootstrap_latched_invalid {
                "true"
            } else {
                "false"
            },
        );
        shown.append(", tracker: ");
        shown.append(redacted_text(self.binding.is_some()));
        shown.append(", projected_fresh_until: \"[redacted]\" }");
        shown
    }

    fn latch(&mut self) -> (update: ProjectionUpdate)
        ensures
            final(self)@ == latched(old(self)@),
            update@ == UpdateView::Clear,
            is_consistent(final(self)@),
    {
        let update = self.clear_trusted_invalid();
        self.bootstrap_latched_invalid = true;
        update
    }

    fn clear_trusted_invalid(&mut self) -> (update: ProjectionUpdate)
        ensures
            final(self)@ == cleared(old(self)@),
            update@ == UpdateView::Clear,
            is_consistent(final(self)@),
    {
        proof {
            use_type_invariant(&*self);
        }
        self.projected_fresh_until = None;
        ProjectionUpdate::Clear
    }
}

/// What can happen to a session.
pub enum SessionEvent {
    /// A reserved frame arrives; its event is authentic or not; the time.
    Frame(FrameView, bool, u64),
    /// The tracker has an outcome.
    Outcome(StatusOutcome),
    /// Time passes.
    Expire(u64),
    /// The connection ends.
    Disconnect,
}

/// What a session does on one event: its next state and what it asks for.
pub open spec fn session_step(session: SessionView, event: SessionEvent) -> (
    SessionView,
    StepView,
) {
    match event {
        SessionEvent::Frame(frame, authenticated, now) => frame_step(
            session,
            frame,
            authenticated,
            now,
        ),
        SessionEvent::Outcome(outcome) => {
            let (next, update) = status_fold(session, outcome);
            (next, StepView::Project(update))
        },
        SessionEvent::Expire(now) => {
            let (next, update) = expiry(session, now);
            (next, StepView::Project(update))
        },
        SessionEvent::Disconnect => (cleared(session), StepView::Project(UpdateView::Clear)),
    }
}

/// The session after a number of events.
pub open spec fn session_after(session: SessionView, events: Seq<SessionEvent>) -> SessionView
    decreases events.len(),
{
    if events.len() == 0 {
        session
    } else {
        session_step(session_after(session, events.drop_last()), events.last()).0
    }
}

/// Whatever happens, a consistent session stays consistent.
pub proof fn session_stays_consistent(session: SessionView, events: Seq<SessionEvent>)
    requires
        is_consistent(session),
    ensures
        is_consistent(session_after(session, events)),
    decreases events.len(),
{
    if events.len() > 0 {
        session_stays_consistent(session, events.drop_last());
    }
}

/// A new session is consistent, and shows nothing whatever went before it.
pub proof fn new_session_is_consistent(relay: Seq<u8>, author: Seq<u8>, epoch: Seq<char>)
    ensures
        is_consistent(fresh_session(relay, author, epoch)),
        fresh_session(relay, author, epoch).fresh_until is None,
{
}

/// What a session expects never changes: its relay, its author and its epoch.
pub proof fn session_authority_is_fixed(session: SessionView, events: Seq<SessionEvent>)
    ensures
        session_after(session, events).relay == session.relay,
        session_after(session, events).author == session.author,
        session_after(session, events).epoch == session.epoch,
    decreases events.len(),
{
    if events.len() > 0 {
        session_authority_is_fixed(session, events.drop_last());
    }
}

/// Once latched, a session stays latched whatever happens, has no projection,
/// and asks neither to project, nor to open a tracker, nor to fold a status.
pub proof fn latched_session_stays_latched(
    session: SessionView,
    events: Seq<SessionEvent>,
    event: SessionEvent,
)
    requires
        is_consistent(session),
        session.latched_invalid,
    ensures
        session_after(session, events).latched_invalid,
        session_after(session, events).fresh_until is None,
        session_step(session_after(session, events), event).1 matches StepView::Project(update)
            && !(update is Current),
    decreases events.len(),
{
    session_stays_consistent(session, events);
    if events.len() > 0 {
        latched_session_stays_latched(session, events.drop_last(), event);
    }
}

/// A bootstrap binds once: whatever happens, a bound session keeps the event and
/// the scope that it was bound with.
pub proof fn bound_session_stays_bound(session: SessionView, events: Seq<SessionEvent>)
    requires
        is_consistent(session),
        session.bootstrap_event_id is Some,
    ensures
        session_after(session, events).bootstrap_event_id == session.bootstrap_event_id,
        session_after(session, events).tracker == session.tracker,
    decreases events.len(),
{
    if events.len() > 0 {
        bound_session_stays_bound(session, events.drop_last());
    }
}

/// A frame that holds no event, or one that is not authentic or not from the
/// relay of the session, changes nothing.
pub proof fn untrusted_frame_changes_nothing(
    session: SessionView,
    frame: FrameView,
    authenticated: bool,
    now: u64,
)
    requires
        frame.event matches Some(event) ==> !is_trusted(session, event, authenticated),
    ensures
        frame_step(session, frame, authenticated, now) == (
            session,
            StepView::Project(UpdateView::Unchanged),
        ),
{
}

/// A status of the relay before any bootstrap latches the session.
pub proof fn status_before_bootstrap_latches(
    session: SessionView,
    event: EventView,
    exact_outer_shape: bool,
    now: u64,
)
    requires
        session.tracker is None,
        event.pubkey == session.relay,
    ensures
        frame_step(
            session,
            FrameView { channel: ReservedChannel::Status, event: Some(event), exact_outer_shape },
            true,
            now,
        ) == (latched(session), StepView::Project(UpdateView::Clear)),
{
}

/// A bootstrap of the relay that does not have the exact shape, or that does not
/// validate, latches the session.
pub proof fn invalid_bootstrap_latches(
    session: SessionView,
    event: EventView,
    exact_outer_shape: bool,
    now: u64,
)
    requires
        event.pubkey == session.relay,
        !exact_outer_shape || client_binding_bootstrap::bootstrap_outcome(
            event,
            true,
            session.relay,
            session.epoch,
            session.author,
            now,
        ) is Err,
    ensures
        frame_step(
            session,
            FrameView { channel: ReservedChannel::Bootstrap, event: Some(event), exact_outer_shape },
            true,
            now,
        ) == (latched(session), StepView::Project(UpdateView::Clear)),
{
}

/// Two bootstraps that both validate but are not the same event latch the
/// session; the same event a second time changes nothing.
pub proof fn second_bootstrap_repeats_or_latches(
    session: SessionView,
    first: EventView,
    second: EventView,
    now: u64,
    later: u64,
)
    requires
        is_consistent(session),
        !session.latched_invalid,
        session.bootstrap_event_id is None,
        client_binding_bootstrap::bootstrap_outcome(
            first,
            true,
            session.relay,
            session.epoch,
            session.author,
            now,
        ) is Ok,
        client_binding_bootstrap::bootstrap_outcome(
            second,
            true,
            session.relay,
            session.epoch,
            session.author,
            later,
        ) is Ok,
    ensures
        ({
            let one = frame_step(
                session,
                FrameView {
                    channel: ReservedChannel::Bootstrap,
                    event: Some(first),
                    exact_outer_shape: true,
                },
                true,
                now,
            );
            let two = frame_step(
                one.0,
                FrameView {
                    channel: ReservedChannel::Bootstrap,
                    event: Some(second),
                    exact_outer_shape: true,
                },
                true,
                later,
            );
            &&& one.0.bootstrap_event_id == Some(first.id)
            &&& one.1 is OpenTracker
            &&& second.id == first.id ==> two == (
                one.0,
                StepView::Project(UpdateView::Unchanged),
            )
            &&& second.id != first.id ==> two == (
                latched(one.0),
                StepView::Project(UpdateView::Clear),
            )
        }),
{
}

/// The bootstrap that a relay signs for a connection binds its session, with the
/// domain that was signed.
pub proof fn signed_bootstrap_binds_session(
    relay: Seq<u8>,
    event: EventView,
    input: client_binding_bootstrap::BootstrapView,
    now: u64,
)
    requires
        client_binding_bootstrap::is_bindable(input),
        client_binding_bootstrap::is_signable(input),
        client_binding_bootstrap::is_signed_from(event, input),
        event.pubkey == relay,
        input.issued_at <= now,
    ensures
        ({
            let session = fresh_session(relay, input.event_author_pubkey, input.connection_epoch);
            let frame = FrameView {
                channel: ReservedChannel::Bootstrap,
                event: Some(event),
                exact_outer_shape: true,
            };
            frame_step(session, frame, is_authentic(frame), now) == (
                bound(session, event.id, input.authorization_domain),
                StepView::OpenTracker(
                    ScopeView {
                        relay,
                        domain: input.authorization_domain,
                        author: input.event_author_pubkey,
                    },
                ),
            )
        }),
{
    client_binding_bootstrap::signed_bootstrap_binds_one_connection(
        event,
        input,
        relay,
        input.connection_epoch,
        input.event_author_pubkey,
        now,
    );
}

/// A projection appears only by an accepted outcome on a session that is bound
/// and not latched, and shows the author and the epoch of that session.
pub proof fn projection_needs_bound_session(session: SessionView, event: SessionEvent)
    requires
        is_consistent(session),
        session_step(session, event).1 matches StepView::Project(UpdateView::Current(_)),
    ensures
        session.tracker is Some && !session.latched_invalid,
        event matches SessionEvent::Outcome(StatusOutcome::Accepted(Some(fresh_until))) && session_step(
            session,
            event,
        ) == (
            SessionView { fresh_until: Some(fresh_until), ..session },
            StepView::Project(UpdateView::Current(projection_of(session, fresh_until))),
        ),
{
}

/// Each outcome directly follows a frame whose event was handed to the tracker.
pub open spec fn outcomes_follow_frames(session: SessionView, events: Seq<SessionEvent>) -> bool {
    forall|i: int|
        0 <= i < events.len() && (#[trigger] events[i]) is Outcome ==> i > 0 && session_step(
            session_after(session, events.take(i - 1)),
            events[i - 1],
        ).1 is FoldStatus
}

/// In every run in which the tracker answers only what it was handed, a projection
/// comes from a status frame: the event before the answer was a frame on the
/// status channel, of the exact shape, with an authentic event of the relay of the
/// session, and the session was bound and not latched.
pub proof fn projection_comes_from_trusted_status(
    session: SessionView,
    events: Seq<SessionEvent>,
)
    requires
        is_consistent(session),
        outcomes_follow_frames(session, events),
        events.len() > 0,
        session_step(session_after(session, events.drop_last()), events.last()).1
            matches StepView::Project(UpdateView::Current(_)),
    ensures
        events.len() >= 2,
        ({
            let before = session_after(session, events.take(events.len() - 2));
            &&& before.tracker is Some
            &&& !before.latched_invalid
            &&& events[events.len() - 2] matches SessionEvent::Frame(frame, authenticated, _) && {
                &&& authenticated
                &&& frame.channel == ReservedChannel::Status
                &&& frame.exact_outer_shape
                &&& frame.event matches Some(event) && event.pubkey == session.relay
            }
        }),
        events.last() matches SessionEvent::Outcome(StatusOutcome::Accepted(Some(fresh_until)))
            && session_step(session_after(session, events.drop_last()), events.last()).1
            == StepView::Project(UpdateView::Current(projection_of(session, fresh_until))),
{
    let n = events.len() as int;
    session_stays_consistent(session, events.drop_last());
    session_authority_is_fixed(session, events.drop_last());
    projection_needs_bound_session(session_after(session, events.drop_last()), events.last());
    assert(events[n - 1] is Outcome);
    session_authority_is_fixed(session, events.take(n - 2));
}

/// A status that the tracker has already keeps the projection of a bound session;
/// one that it refuses, or presents nothing for, ends it.
pub proof fn duplicate_keeps_and_refusal_ends_projection(session: SessionView)
    requires
        session.tracker is Some,
        !session.latched_invalid,
    ensures
        status_fold(session, StatusOutcome::Duplicate) == (session, UpdateView::Unchanged),
        status_fold(session, StatusOutcome::Rejected) == (cleared(session), UpdateView::Clear),
        status_fold(session, StatusOutcome::Accepted(None)) == (
            cleared(session),
            UpdateView::Clear,
        ),
{
}

/// After expiry no projection is left whose time has come, and a second expiry
/// at the same time changes nothing.
pub proof fn projection_does_not_outlive_its_time(session: SessionView, now: u64)
    ensures
        expiry(session, now).0.fresh_until matches Some(fresh_until) ==> now < fresh_until,
        expiry(expiry(session, now).0, now) == (expiry(session, now).0, UpdateView::Unchanged),
{
}

/// A trusted frame that is refused, whatever the reason, ends the projection.
pub proof fn refusal_clears_projection(
    session: SessionView,
    frame: FrameView,
    authenticated: bool,
    now: u64,
)
    requires
        frame_step(session, frame, authenticated, now).1 == StepView::Project(UpdateView::Clear),
    ensures
        frame_step(session, frame, authenticated, now).0.fresh_until is None,
{
}

/// Whatever a bound session that is not latched shows already, a status that the
/// tracker accepts and presents until `fresh_until` is shown until then: with the
/// author of the session in lowercase digits and with its epoch. Nothing else of
/// the session changes.
pub proof fn accepted_status_is_shown(session: SessionView, fresh_until: u64)
    requires
        session.tracker is Some,
        !session.latched_invalid,
    ensures
        ({
            let (next, update) = status_fold(session, StatusOutcome::Accepted(Some(fresh_until)));
            &&& next.fresh_until == Some(fresh_until)
            &&& next.relay == session.relay
            &&& next.author == session.author
            &&& next.epoch == session.epoch
            &&& next.bootstrap_event_id == session.bootstrap_event_id
            &&& next.latched_invalid == session.latched_invalid
            &&& next.tracker == session.tracker
            &&& update matches UpdateView::Current(shown) && {
                &&& shown.event_author_pubkey == text::hex_lower(session.author)
                &&& shown.fresh_until == fresh_until
                &&& shown.connection_epoch == session.epoch
            }
        }),
{
}

/// Of two statuses that are accepted one after the other, the second alone counts:
/// it leads where it would have led without the first.
pub proof fn latest_accepted_status_counts(session: SessionView, first: u64, second: u64)
    ensures
        ({
            let between = status_fold(session, StatusOutcome::Accepted(Some(first))).0;
            status_fold(between, StatusOutcome::Accepted(Some(second))) == status_fold(
                session,
                StatusOutcome::Accepted(Some(second)),
            )
        }),
{
}

/// A status that the tracker refuses, or presents nothing for, leaves nothing
/// shown; one that it has already changes nothing. The rest of a bound session
/// stays as it is.
pub proof fn other_outcomes_keep_or_end(session: SessionView, outcome: StatusOutcome)
    requires
        session.tracker is Some,
        !session.latched_invalid,
    ensures
        ({
            let (next, update) = status_fold(session, outcome);
            &&& outcome is Duplicate ==> next == session && update is Unchanged
            &&& outcome is Rejected ==> next.fresh_until is None && update is Clear
            &&& outcome == StatusOutcome::Accepted(None) ==> next.fresh_until is None
                && update is Clear
            &&& (SessionView { fresh_until: session.fresh_until, ..next }) == session
        }),
{
}

/// No outcome makes a session project that is not bound or is latched: nothing is
/// shown, and the rest of the session stays as it is.
pub proof fn unbound_or_latched_session_shows_nothing(
    session: SessionView,
    outcome: StatusOutcome,
)
    requires
        session.tracker is None || session.latched_invalid,
    ensures
        status_fold(session, outcome).1 is Clear,
        status_fold(session, outcome).0.fresh_until is None,
        (SessionView { fresh_until: session.fresh_until, ..status_fold(session, outcome).0 })
            == session,
{
}

/// Every authentic status of the relay, in the exact shape, reaches the tracker of
/// a bound session that is not latched, as it came, and the session waits for the
/// outcome unchanged.
pub proof fn trusted_status_reaches_tracker(
    session: SessionView,
    event: EventView,
    now: u64,
)
    requires
        session.tracker is Some,
        !session.latched_invalid,
        event.pubkey == session.relay,
    ensures
        ({
            let frame = FrameView {
                channel: ReservedChannel::Status,
                event: Some(event),
                exact_outer_shape: true,
            };
            let (next, step) = frame_step(session, frame, true, now);
            next == session && step == StepView::FoldStatus(event)
        }),
{
}

/// Every other authentic frame of the relay on the status channel ends what is
/// shown. It latches a session that is not bound, and changes nothing else.
pub proof fn other_trusted_status_ends_projection(
    session: SessionView,
    event: EventView,
    exact_outer_shape: bool,
    now: u64,
)
    requires
        event.pubkey == session.relay,
        session.tracker is None || session.latched_invalid || !exact_outer_shape,
    ensures
        ({
            let frame = FrameView {
                channel: ReservedChannel::Status,
                event: Some(event),
                exact_outer_shape,
            };
            let (next, step) = frame_step(session, frame, true, now);
            &&& step matches StepView::Project(update) && update is Clear
            &&& next.fresh_until is None
            &&& next.latched_invalid == (session.latched_invalid || session.tracker is None)
            &&& (SessionView {
                fresh_until: session.fresh_until,
                latched_invalid: session.latched_invalid,
                ..next
            }) == session
        }),
{
}

/// A frame without an event, with an event that is not authentic, or with one of
/// another author than the relay, changes nothing, on either channel.
pub proof fn frame_of_another_author_changes_nothing(
    session: SessionView,
    frame: FrameView,
    authenticated: bool,
    now: u64,
)
    requires
        frame.event matches Some(event) ==> !authenticated || event.pubkey != session.relay,
    ensures
        frame_step(session, frame, authenticated, now).0 == session,
        frame_step(session, frame, authenticated, now).1 matches StepView::Project(update)
            && update is Unchanged,
{
}

/// The first bootstrap that validates binds a session that is not latched, to its
/// event and to its domain, for the relay and the author of the session, and opens
/// the tracker with just that. What is shown stays.
pub proof fn first_valid_bootstrap_binds(session: SessionView, event: EventView, now: u64)
    requires
        event.pubkey == session.relay,
        !session.latched_invalid,
        session.bootstrap_event_id is None,
        client_binding_bootstrap::bootstrap_outcome(
            event,
            true,
            session.relay,
            session.epoch,
            session.author,
            now,
        ) is Ok,
    ensures
        ({
            let frame = FrameView {
                channel: ReservedChannel::Bootstrap,
                event: Some(event),
                exact_outer_shape: true,
            };
            let (next, step) = frame_step(session, frame, true, now);
            let valid = client_binding_bootstrap::bootstrap_outcome(
                event,
                true,
                session.relay,
                session.epoch,
                session.author,
                now,
            );
            &&& next.bootstrap_event_id == Some(event.id)
            &&& next.tracker matches Some(scope) && step == StepView::OpenTracker(scope) && {
                &&& scope.relay == session.relay
                &&& scope.author == session.author
                &&& valid matches Ok(bootstrap) && scope.domain == bootstrap.authorization_domain
            }
            &&& !next.latched_invalid
            &&& next.fresh_until == session.fresh_until
            &&& next.relay == session.relay
            &&& next.author == session.author
            &&& next.epoch == session.epoch
        }),
{
}

/// The bootstrap that a session is bound to changes nothing when it comes again,
/// as long as it validates and the session is not latched.
pub proof fn bound_bootstrap_can_repeat(session: SessionView, event: EventView, now: u64)
    requires
        event.pubkey == session.relay,
        !session.latched_invalid,
        session.bootstrap_event_id == Some(event.id),
        client_binding_bootstrap::bootstrap_outcome(
            event,
            true,
            session.relay,
            session.epoch,
            session.author,
            now,
        ) is Ok,
    ensures
        ({
            let frame = FrameView {
                channel: ReservedChannel::Bootstrap,
                event: Some(event),
                exact_outer_shape: true,
            };
            let (next, step) = frame_step(session, frame, true, now);
            next == session && step == StepView::Project(UpdateView::Unchanged)
        }),
{
}

/// Every other authentic frame of the relay on the bootstrap channel latches the
/// session and ends what is shown: one of another shape, one on a latched session,
/// one that does not validate, and one that is not the event that the session is
/// bound to. The binding stays.
pub proof fn other_trusted_bootstrap_latches(
    session: SessionView,
    event: EventView,
    exact_outer_shape: bool,
    now: u64,
)
    requires
        event.pubkey == session.relay,
        ({
            ||| !exact_outer_shape
            ||| session.latched_invalid
            ||| client_binding_bootstrap::bootstrap_outcome(
                event,
                true,
                session.relay,
                session.epoch,
                session.author,
                now,
            ) is Err
            ||| session.bootstrap_event_id matches Some(id) && id != event.id
        }),
    ensures
        ({
            let frame = FrameView {
                channel: ReservedChannel::Bootstrap,
                event: Some(event),
                exact_outer_shape,
            };
            let (next, step) = frame_step(session, frame, true, now);
            &&& step matches StepView::Project(update) && update is Clear
            &&& next.latched_invalid
            &&& next.fresh_until is None
            &&& (SessionView {
                fresh_until: session.fresh_until,
                latched_invalid: session.latched_invalid,
                ..next
            }) == session
        }),
{
}

/// Time ends what is shown exactly when the time that was given has come, and
/// changes nothing else.
pub proof fn projection_lasts_until_its_time(session: SessionView, now: u64)
    ensures
        ({
            let (next, update) = expiry(session, now);
            &&& session.fresh_until is None ==> next == session && update is Unchanged
            &&& session.fresh_until matches Some(fresh_until) ==> {
                &&& now < fresh_until ==> next == session && update is Unchanged
                &&& now >= fresh_until ==> next.fresh_until is None && update is Clear
            }
            &&& (SessionView { fresh_until: session.fresh_until, ..next }) == session
        }),
{
}

/// The end of the connection ends what is shown and changes nothing else.
pub proof fn disconnection_ends_projection_only(session: SessionView)
    ensures
        cleared(session).fresh_until is None,
        (SessionView { fresh_until: session.fresh_until, ..cleared(session) }) == session,
{
}

/// A new session has what it was made for, is not bound, not latched, and shows
/// nothing.
pub proof fn new_session_is_empty(relay: Seq<u8>, author: Seq<u8>, epoch: Seq<char>)
    ensures
        ({
            let session = fresh_session(relay, author, epoch);
            &&& session.relay == relay
            &&& session.author == author
            &&& session.epoch == epoch
            &&& session.bootstrap_event_id is None
            &&& session.tracker is None
            &&& !session.latched_invalid
            &&& session.fresh_until is None
        }),
{
}

/// A text is on a reserved channel exactly if it is a JSON array whose first
/// element is the string `EVENT` and whose second is the subscription of that
/// channel.
pub proof fn text_is_reserved_exactly_by_its_first_elements(characters: Seq<char>)
    ensures
        ({
            let array = json::serde_array(vstd::utf8::encode_utf8(characters));
            let event_on = |subscription: Seq<char>| {
                &&& array matches Some(elements) && {
                    &&& elements.len() >= 2
                    &&& elements[0].0 == Some("EVENT"@)
                    &&& elements[1].0 == Some(subscription)
                }
            };
            &&& (frame_in(characters) matches Some(frame) && frame.channel
                == ReservedChannel::Bootstrap) == event_on(
                "__buzz_client_binding_bootstrap_v1__"@,
            )
            &&& (frame_in(characters) matches Some(frame) && frame.channel
                == ReservedChannel::Status) == event_on("__buzz_client_binding_status_v1__"@)
        }),
{
    reveal_strlit("__buzz_client_binding_bootstrap_v1__");
    reveal_strlit("__buzz_client_binding_status_v1__");
    assert("__buzz_client_binding_bootstrap_v1__"@.len()
        != "__buzz_client_binding_status_v1__"@.len());
}

/// A text whose first element is another string than `EVENT`, or no string, is not
/// reserved, whatever else it holds; nor is one whose second element is neither of
/// the two subscriptions; nor one that is no array.
pub proof fn ordinary_text_is_not_reserved(characters: Seq<char>)
    requires
        json::serde_array(vstd::utf8::encode_utf8(characters)) matches Some(elements) ==> {
            ||| elements.len() < 2
            ||| elements[0].0 != Some("EVENT"@)
            ||| elements[1].0 != Some("__buzz_client_binding_bootstrap_v1__"@) && elements[1].0
                != Some("__buzz_client_binding_status_v1__"@)
        },
    ensures
        frame_in(characters) is None,
{
}

/// A reserved frame carries the event of its third element, where it has one, and
/// has the exact shape exactly with three elements.
pub proof fn reserved_frame_carries_third_element(characters: Seq<char>)
    requires
        frame_in(characters) is Some,
    ensures
        json::serde_array(vstd::utf8::encode_utf8(characters)) matches Some(elements)
            && frame_in(characters) matches Some(frame) && {
            &&& elements.len() == 2 ==> frame.event is None
            &&& elements.len() > 2 ==> frame.event == event::nostr_event(elements[2].1)
            &&& frame.exact_outer_shape == (elements.len() == 3)
        },
{
}

/// A frame is authentic exactly if it holds an event that verifies.
pub proof fn frame_is_authentic_by_its_event(frame: FrameView)
    ensures
        is_authentic(frame) == (frame.event matches Some(event) && event::nostr_verifies(event)),
{
}

/// Steps, updates, frames and scopes are seen with all that they hold.
pub proof fn steps_and_frames_are_seen_whole(
    update: ProjectionUpdate,
    current: CurrentProjection,
    scope: TrackerScope,
    event: Event,
    channel: ReservedChannel,
    exact_outer_shape: bool,
)
    ensures
        SessionStep::Project(update)@ == StepView::Project(update@),
        SessionStep::OpenTracker(scope)@ == StepView::OpenTracker(scope@),
        SessionStep::FoldStatus(event)@ == StepView::FoldStatus(event@),
        ProjectionUpdate::Unchanged@ == UpdateView::Unchanged,
        ProjectionUpdate::Clear@ == UpdateView::Clear,
        ProjectionUpdate::Current(current)@ == UpdateView::Current(current@),
        current@.event_author_pubkey == current.event_author_pubkey@,
        current@.fresh_until == current.fresh_until,
        current@.connection_epoch == current.connection_epoch@,
        scope@.relay == scope.trusted_relay_pubkey@,
        scope@.domain == scope.authorization_domain@,
        scope@.author == scope.event_author_pubkey@,
        (ReservedFrame {
            channel,
            reserved: ReservedEvent { event: Some(event), exact_outer_shape },
        })@ == (FrameView { channel, event: Some(event@), exact_outer_shape }),
        (ReservedFrame { channel, reserved: ReservedEvent { event: None, exact_outer_shape } })@
            == (FrameView { channel, event: None, exact_outer_shape }),
{
}

} // verus!
