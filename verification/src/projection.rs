//! Which connection owns the browser-visible projection, and what it shows.
//!
//! Every attempt to own the projection takes a new generation; an attempt of an
//! older generation can no longer become the owner. Only the owner changes what
//! is shown. The channel of an owner is carried through: where an operation
//! hands a channel back, that channel is to be told that nothing is shown.

use vstd::prelude::*;

use crate::client_binding_bootstrap::ClientBindingEpoch;
use crate::client_binding_status_session;
use crate::client_binding_status_session::{
    CurrentProjection, CurrentProjectionView, ProjectionUpdate, UpdateView,
};
use crate::counter;

verus! {

/// The connection that owns the projection.
pub struct ProjectionOwner<C> {
    id: u32,
    epoch: ClientBindingEpoch,
    channel: C,
}

/// The connection that owns the projection.
pub struct OwnerView<C> {
    pub id: u32,
    pub epoch: Seq<char>,
    pub channel: C,
}

impl<C> View for ProjectionOwner<C> {
    type V = OwnerView<C>;

    closed spec fn view(&self) -> OwnerView<C> {
        OwnerView { id: self.id, epoch: self.epoch@, channel: self.channel }
    }
}

/// The projection and its owner.
pub struct ProjectionState<C> {
    generation: u64,
    owner: Option<ProjectionOwner<C>>,
    current: Option<CurrentProjection>,
}

/// The projection and its owner.
pub struct ProjectionView<C> {
    pub generation: u64,
    pub owner: Option<OwnerView<C>>,
    pub current: Option<CurrentProjectionView>,
}

impl<C> View for ProjectionState<C> {
    type V = ProjectionView<C>;

    closed spec fn view(&self) -> ProjectionView<C> {
        ProjectionView {
            generation: self.generation,
            owner: match self.owner {
                Some(owner) => Some(owner@),
                None => None,
            },
            current: projection_view(self.current),
        }
    }
}

/// What is shown, where something is.
pub open spec fn projection_view(current: Option<CurrentProjection>) -> Option<
    CurrentProjectionView,
> {
    match current {
        Some(shown) => Some(shown@),
        None => None,
    }
}

/// Nothing is shown without an owner.
pub open spec fn is_owned<C>(state: ProjectionView<C>) -> bool {
    state.current is Some ==> state.owner is Some
}

/// Whether this connection, in this epoch, owns the projection.
pub open spec fn is_owner<C>(state: ProjectionView<C>, id: u32, epoch: Seq<char>) -> bool {
    state.owner matches Some(owner) && owner.id == id && owner.epoch == epoch
}

/// The channel of the owner.
pub open spec fn channel_of<C>(state: ProjectionView<C>) -> Option<C> {
    match state.owner {
        Some(owner) => Some(owner.channel),
        None => None,
    }
}

/// The state of the next generation, without an owner.
pub open spec fn revoked<C>(state: ProjectionView<C>) -> ProjectionView<C> {
    ProjectionView {
        generation: counter::next_number(state.generation),
        owner: None,
        current: None,
    }
}

/// The state with a new owner that shows nothing yet.
pub open spec fn owned_by<C>(
    state: ProjectionView<C>,
    id: u32,
    epoch: Seq<char>,
    channel: C,
) -> ProjectionView<C> {
    ProjectionView {
        owner: Some(OwnerView { id, epoch, channel }),
        current: None,
        ..state
    }
}

/// The state after a connection has reported a change: only the owner changes
/// what is shown.
pub open spec fn updated<C>(
    state: ProjectionView<C>,
    id: u32,
    epoch: Seq<char>,
    update: UpdateView,
) -> ProjectionView<C> {
    if update is Unchanged || !is_owner(state, id, epoch) {
        state
    } else {
        ProjectionView {
            current: match update {
                UpdateView::Current(shown) => Some(shown),
                _ => None,
            },
            ..state
        }
    }
}

/// The state after an owner has given up.
pub open spec fn released<C>(state: ProjectionView<C>, id: u32, epoch: Seq<char>) -> ProjectionView<
    C,
> {
    if is_owner(state, id, epoch) {
        ProjectionView { owner: None, current: None, ..state }
    } else {
        state
    }
}

/// What is shown has come to its time.
pub open spec fn is_stale<C>(state: ProjectionView<C>, now: u64) -> bool {
    state.current matches Some(shown) && now >= shown.fresh_until
}

/// The state without what has come to its time.
pub open spec fn current_at<C>(state: ProjectionView<C>, now: u64) -> ProjectionView<C> {
    if is_stale(state, now) {
        ProjectionView { current: None, ..state }
    } else {
        state
    }
}

impl<C> ProjectionState<C> {
    /// Nothing is shown without an owner.
    #[verifier::type_invariant]
    pub open spec fn is_owned_state(self) -> bool {
        is_owned(self@)
    }

    /// No generation yet, no owner, nothing shown.
    pub fn new() -> (state: Self)
        ensures
            state@ == (ProjectionView::<C> { generation: 0, owner: None, current: None }),
            is_owned(state@),
    {
        ProjectionState { generation: 0, owner: None, current: None }
    }

    /// Starts an attempt to own the projection: the generation of the attempt,
    /// and the channel of the owner that it puts out.
    pub fn begin_projection_attempt(&mut self) -> (attempt: (u64, Option<C>))
        ensures
            final(self)@ == revoked(old(self)@),
            attempt.0 == final(self)@.generation,
            attempt.1 == channel_of(old(self)@),
            is_owned(final(self)@),
    {
        let previous = self.invalidate_projection();
        (self.generation, previous)
    }

    /// Makes a connection the owner, unless its attempt is out of date. Its
    /// channel is to be told that nothing is shown in either case.
    pub fn activate_projection(
        &mut self,
        generation: u64,
        id: u32,
        epoch: ClientBindingEpoch,
        channel: C,
    ) -> (activated: bool)
        ensures
            activated == (old(self)@.generation == generation),
            final(self)@ == if activated {
                owned_by(old(self)@, id, epoch@, channel)
            } else {
                old(self)@
            },
            is_owned(final(self)@),
    {
        proof {
            use_type_invariant(&*self);
        }
        if self.generation != generation {
            return false;
        }
        self.current = None;
        self.owner = Some(ProjectionOwner { id, epoch, channel });
        true
    }

    /// Whether this connection, in this epoch, owns the projection.
    pub fn is_owner(&self, id: u32, epoch: &ClientBindingEpoch) -> (owns: bool)
        ensures
            owns == is_owner(self@, id, epoch@),
            is_owned(self@),
    {
        proof {
            use_type_invariant(self);
        }
        match &self.owner {
            Some(owner) => owner.id == id && owner.epoch.is_same(epoch),
            None => false,
        }
    }

    /// Takes a change that a connection reports. `Some`: the channel of the owner
    /// is to be told what is shown now.
    pub fn apply_projection_update(
        &mut self,
        id: u32,
        epoch: &ClientBindingEpoch,
        update: ProjectionUpdate,
    ) -> (notice: Option<Option<CurrentProjection>>)
        ensures
            final(self)@ == updated(old(self)@, id, epoch@, update@),
            notice.is_some() == (!(update@ is Unchanged) && is_owner(old(self)@, id, epoch@)),
            notice matches Some(shown) ==> projection_view(shown) == final(self)@.current,
            is_owned(final(self)@),
    {
        proof {
            use_type_invariant(&*self);
        }
        if !self.is_owner(id, epoch) {
            return None;
        }
        match update {
            ProjectionUpdate::Unchanged => None,
            ProjectionUpdate::Clear => {
                self.current = None;
                Some(None)
            },
            ProjectionUpdate::Current(shown) => {
                self.current = Some(shown.clone());
                Some(Some(shown))
            },
        }
    }

    /// Ends the ownership of a connection: the channel to be told.
    pub fn clear_projection_if_owner(&mut self, id: u32, epoch: &ClientBindingEpoch) -> (channel:
        Option<C>)
        ensures
            final(self)@ == released(old(self)@, id, epoch@),
            channel == if is_owner(old(self)@, id, epoch@) {
                channel_of(old(self)@)
            } else {
                None
            },
            is_owned(final(self)@),
    {
        if !self.is_owner(id, epoch) {
            return None;
        }
        self.take_channel()
    }

    /// Invalidate all browser-visible status and revoke the current socket's
    /// ownership. Late work from that socket is rejected by the owner fence.
    pub fn invalidate_projection(&mut self) -> (channel: Option<C>)
        ensures
            final(self)@ == revoked(old(self)@),
            channel == channel_of(old(self)@),
            is_owned(final(self)@),
    {
        proof {
            use_type_invariant(&*self);
        }
        self.generation = counter::advance(self.generation);
        self.take_channel()
    }

    /// What is shown at this time, and whether the channel of the owner is to be
    /// told that it has ended.
    pub fn current_projection(&mut self, now: u64) -> (reading: (Option<CurrentProjection>, bool))
        ensures
            final(self)@ == current_at(old(self)@, now),
            projection_view(reading.0) == final(self)@.current,
            reading.1 == is_stale(old(self)@, now),
            reading.0 is Some ==> final(self)@.owner is Some,
            reading.1 ==> final(self)@.owner is Some,
            is_owned(final(self)@),
    {
        proof {
            use_type_invariant(&*self);
        }
        let stale = match &self.current {
            Some(shown) => now >= shown.fresh_until,
            None => false,
        };
        if stale {
            self.current = None;
            return (None, true);
        }
        match &self.current {
            Some(shown) => (Some(shown.clone()), false),
            None => (None, false),
        }
    }

    /// Ends all ownership: the channel of the owner.
    fn take_channel(&mut self) -> (channel: Option<C>)
        ensures
            final(self)@ == (ProjectionView { owner: None, current: None, ..old(self)@ }),
            channel == channel_of(old(self)@),
            is_owned(final(self)@),
    {
        self.current = None;
        let mut previous: Option<ProjectionOwner<C>> = None;
        core::mem::swap(&mut self.owner, &mut previous);
        match previous {
            Some(owner) => Some(owner.channel),
            None => None,
        }
    }

    /// The epoch in which this connection owns the projection.
    pub fn owner_epoch(&self, id: u32) -> (epoch: Option<ClientBindingEpoch>)
        ensures
            epoch.is_some() == (self@.owner matches Some(owner) && owner.id == id),
            epoch matches Some(owned) ==> is_owner(self@, id, owned@),
            is_owned(self@),
    {
        proof {
            use_type_invariant(self);
        }
        match &self.owner {
            Some(owner) => if owner.id == id {
                Some(owner.epoch.clone())
            } else {
                None
            },
            None => None,
        }
    }

    /// The channel of the owner.
    pub fn owner_channel(&self) -> (channel: Option<&C>)
        ensures
            channel.is_some() == channel_of(self@).is_some(),
            channel matches Some(held) ==> channel_of(self@) == Some(*held),
            is_owned(self@),
    {
        proof {
            use_type_invariant(self);
        }
        match &self.owner {
            Some(owner) => Some(&owner.channel),
            None => None,
        }
    }
}

/// What can happen to the projection.
pub enum ProjectionEvent<C> {
    Begin,
    Activate(u64, u32, Seq<char>, C),
    Update(u32, Seq<char>, UpdateView),
    Release(u32, Seq<char>),
    Invalidate,
    Read(u64),
}

/// The projection after one event.
pub open spec fn projection_step<C>(
    state: ProjectionView<C>,
    event: ProjectionEvent<C>,
) -> ProjectionView<C> {
    match event {
        ProjectionEvent::Begin => revoked(state),
        ProjectionEvent::Invalidate => revoked(state),
        ProjectionEvent::Activate(generation, id, epoch, channel) => if state.generation
            == generation {
            owned_by(state, id, epoch, channel)
        } else {
            state
        },
        ProjectionEvent::Update(id, epoch, update) => updated(state, id, epoch, update),
        ProjectionEvent::Release(id, epoch) => released(state, id, epoch),
        ProjectionEvent::Read(now) => current_at(state, now),
    }
}

/// The projection after a number of events.
pub open spec fn projection_after<C>(
    state: ProjectionView<C>,
    events: Seq<ProjectionEvent<C>>,
) -> ProjectionView<C>
    decreases events.len(),
{
    if events.len() == 0 {
        state
    } else {
        projection_step(projection_after(state, events.drop_last()), events.last())
    }
}

/// Begins or invalidates.
pub open spec fn is_revocation<C>(event: ProjectionEvent<C>) -> bool {
    event is Begin || event is Invalidate
}

/// How many of the events begin an attempt or invalidate the projection.
pub open spec fn revocations<C>(events: Seq<ProjectionEvent<C>>) -> nat
    decreases events.len(),
{
    if events.len() == 0 {
        0
    } else {
        revocations(events.drop_last()) + if is_revocation(events.last()) {
            1nat
        } else {
            0
        }
    }
}

/// Nothing is ever shown without an owner.
pub proof fn projection_stays_owned<C>(
    state: ProjectionView<C>,
    events: Seq<ProjectionEvent<C>>,
)
    requires
        is_owned(state),
    ensures
        is_owned(projection_after(state, events)),
    decreases events.len(),
{
    if events.len() > 0 {
        projection_stays_owned(state, events.drop_last());
    }
}

/// The generation counts the revocations.
pub proof fn generation_counts_revocations<C>(
    state: ProjectionView<C>,
    events: Seq<ProjectionEvent<C>>,
)
    ensures
        projection_after(state, events).generation == counter::number_after(
            state.generation,
            revocations(events),
        ),
    decreases events.len(),
{
    if events.len() > 0 {
        generation_counts_revocations(state, events.drop_last());
    }
}

/// An attempt cannot become the owner once a later attempt has begun or the
/// projection was invalidated, whatever else happened in between.
pub proof fn stale_attempt_cannot_activate<C>(
    state: ProjectionView<C>,
    events: Seq<ProjectionEvent<C>>,
    id: u32,
    epoch: Seq<char>,
    channel: C,
)
    requires
        0 < revocations(events) <= u64::MAX,
    ensures
        projection_step(
            projection_after(state, events),
            ProjectionEvent::Activate(state.generation, id, epoch, channel),
        ) == projection_after(state, events),
{
    generation_counts_revocations(state, events);
    counter::later_number_differs(state.generation, revocations(events));
}

/// An attempt becomes the owner as long as no later attempt has begun and the
/// projection was not invalidated.
pub proof fn latest_attempt_activates<C>(
    state: ProjectionView<C>,
    events: Seq<ProjectionEvent<C>>,
    id: u32,
    epoch: Seq<char>,
    channel: C,
)
    requires
        revocations(events) == 0,
    ensures
        is_owner(
            projection_step(
                projection_after(state, events),
                ProjectionEvent::Activate(state.generation, id, epoch, channel),
            ),
            id,
            epoch,
        ),
{
    generation_counts_revocations(state, events);
}

/// What a connection reports that is not the owner, or is the owner in another
/// epoch, changes nothing.
pub proof fn late_update_is_fenced<C>(
    state: ProjectionView<C>,
    id: u32,
    epoch: Seq<char>,
    update: UpdateView,
)
    requires
        !is_owner(state, id, epoch),
    ensures
        updated(state, id, epoch, update) == state,
        released(state, id, epoch) == state,
{
}

/// After a revocation nothing is shown, and no report changes that before a new
/// attempt becomes the owner.
pub proof fn revoked_projection_stays_empty<C>(
    state: ProjectionView<C>,
    events: Seq<ProjectionEvent<C>>,
)
    requires
        forall|i: int| 0 <= i < events.len() ==> !(#[trigger] events[i] is Activate),
    ensures
        projection_after(revoked(state), events).owner is None,
        projection_after(revoked(state), events).current is None,
    decreases events.len(),
{
    if events.len() > 0 {
        revoked_projection_stays_empty(state, events.drop_last());
        assert(!(events[events.len() - 1] is Activate));
    }
}

/// What is read has not come to its time.
pub proof fn read_projection_is_fresh<C>(state: ProjectionView<C>, now: u64)
    ensures
        current_at(state, now).current matches Some(shown) ==> now < shown.fresh_until,
        current_at(current_at(state, now), now) == current_at(state, now),
{
}

/// What a session reports is shown only under the epoch of the owner.
pub proof fn shown_epoch_is_owner_epoch<C>(
    state: ProjectionView<C>,
    id: u32,
    session: client_binding_status_session::SessionView,
    fresh_until: u64,
)
    requires
        is_owner(state, id, session.epoch),
    ensures
        updated(
            state,
            id,
            session.epoch,
            UpdateView::Current(
                client_binding_status_session::projection_of(session, fresh_until),
            ),
        ).current matches Some(shown) && state.owner matches Some(owner) && shown.connection_epoch
            == owner.epoch,
{
}

/// When the owner, in its epoch, reports that nothing is shown, nothing is shown,
/// whatever was before; when it reports a status, exactly that is shown; when it
/// reports no change, what is shown stays. The owner and the generation stay.
pub proof fn owner_decides_what_is_shown<C>(
    state: ProjectionView<C>,
    owner: OwnerView<C>,
    update: UpdateView,
)
    requires
        state.owner == Some(owner),
    ensures
        ({
            let next = updated(state, owner.id, owner.epoch, update);
            &&& update is Clear ==> next.current is None
            &&& update matches UpdateView::Current(shown) ==> next.current == Some(shown)
            &&& update is Unchanged ==> next.current == state.current
            &&& next.owner == state.owner
            &&& next.generation == state.generation
        }),
{
}

/// Of two reports of the owner that change something, the second alone counts.
pub proof fn latest_report_counts<C>(
    state: ProjectionView<C>,
    id: u32,
    epoch: Seq<char>,
    first: UpdateView,
    second: UpdateView,
)
    requires
        !(second is Unchanged),
    ensures
        updated(updated(state, id, epoch, first), id, epoch, second) == updated(
            state,
            id,
            epoch,
            second,
        ),
{
}

/// What any other connection reports or gives up, or the owner's connection in
/// another epoch, changes nothing.
pub proof fn only_owner_changes_projection<C>(
    state: ProjectionView<C>,
    id: u32,
    epoch: Seq<char>,
    update: UpdateView,
)
    requires
        state.owner matches Some(owner) ==> owner.id != id || owner.epoch != epoch,
    ensures
        updated(state, id, epoch, update) == state,
        released(state, id, epoch) == state,
        !is_owner(state, id, epoch),
{
}

/// A connection owns the projection exactly if it is the owner, in the owner's
/// epoch, and the channel that is told is the owner's.
pub proof fn owner_is_known_by_id_and_epoch<C>(state: ProjectionView<C>, owner: OwnerView<C>)
    requires
        state.owner == Some(owner),
    ensures
        is_owner(state, owner.id, owner.epoch),
        channel_of(state) == Some(owner.channel),
        forall|id: u32, epoch: Seq<char>|
            is_owner(state, id, epoch) ==> id == owner.id && epoch == owner.epoch,
{
}

/// When the owner gives up, there is no owner and nothing is shown; the generation
/// stays.
pub proof fn released_projection_is_empty<C>(state: ProjectionView<C>, owner: OwnerView<C>)
    requires
        state.owner == Some(owner),
    ensures
        ({
            let next = released(state, owner.id, owner.epoch);
            next.owner is None && next.current is None && next.generation == state.generation
        }),
{
}

/// A new attempt, or an invalidation, takes another generation and leaves no owner
/// and nothing shown.
pub proof fn revocation_empties_projection<C>(state: ProjectionView<C>)
    ensures
        revoked(state).generation != state.generation,
        revoked(state).generation == counter::number_after(state.generation, 1),
        revoked(state).owner is None,
        revoked(state).current is None,
        state.owner is None ==> channel_of(state) is None,
{
    reveal_with_fuel(counter::number_after, 2);
}

/// A new owner is the connection that was activated, with its epoch and its
/// channel; nothing is shown yet, and the generation stays.
pub proof fn activated_connection_owns<C>(
    state: ProjectionView<C>,
    id: u32,
    epoch: Seq<char>,
    channel: C,
)
    ensures
        ({
            let next = owned_by(state, id, epoch, channel);
            &&& next.owner matches Some(owner) && {
                &&& owner.id == id
                &&& owner.epoch == epoch
                &&& owner.channel == channel
            }
            &&& next.current is None
            &&& next.generation == state.generation
        }),
{
}

/// Reading gives what is shown, until its time has come, and nothing from then on.
/// Owner and generation stay.
pub proof fn projection_is_read_until_its_time<C>(state: ProjectionView<C>, now: u64)
    ensures
        ({
            let next = current_at(state, now);
            &&& state.current is None ==> next.current is None && !is_stale(state, now)
            &&& state.current matches Some(shown) ==> {
                &&& now < shown.fresh_until ==> next.current == state.current && !is_stale(
                    state,
                    now,
                )
                &&& now >= shown.fresh_until ==> next.current is None && is_stale(state, now)
            }
            &&& next.owner == state.owner
            &&& next.generation == state.generation
        }),
{
}

} // verus!
