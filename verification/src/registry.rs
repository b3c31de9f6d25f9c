//! The open connections, by identifier.
//!
//! An identifier can be used again. Each registration therefore has a token, and
//! a task that ends removes the registration only if the token is still its own.

use std::collections::HashMap;
use vstd::prelude::*;
use vstd::string::StringExecFns;

use crate::counter;
use crate::json;
use crate::text;

verus! {

/// A registered connection.
pub struct Registration<H> {
    /// Tells this registration from another with the same identifier.
    pub token: u64,
    /// How to reach the connection.
    pub handle: H,
}

/// The open connections.
pub struct ConnectionRegistry<H> {
    connections: HashMap<u32, Registration<H>>,
    next_token: u64,
}

/// The open connections.
pub struct RegistryView<H> {
    pub connections: Map<u32, Registration<H>>,
    pub next_token: u64,
}

impl<H> View for ConnectionRegistry<H> {
    type V = RegistryView<H>;

    closed spec fn view(&self) -> RegistryView<H> {
        RegistryView { connections: self.connections@, next_token: self.next_token }
    }
}

/// No connection at all.
pub open spec fn no_connections<H>() -> Map<u32, Registration<H>> {
    Map::empty()
}

/// The registry with one more registration.
pub open spec fn registered<H>(state: RegistryView<H>, id: u32, handle: H) -> RegistryView<H> {
    RegistryView {
        connections: state.connections.insert(
            id,
            Registration { token: state.next_token, handle },
        ),
        next_token: counter::next_number(state.next_token),
    }
}

/// The registry without an identifier.
pub open spec fn removed<H>(state: RegistryView<H>, id: u32) -> RegistryView<H> {
    RegistryView { connections: state.connections.remove(id), ..state }
}

/// The registration of `id` is the one with this token.
pub open spec fn is_current<H>(state: RegistryView<H>, id: u32, token: u64) -> bool {
    state.connections.contains_key(id) && state.connections[id].token == token
}

/// The registry after a task has ended.
pub open spec fn removed_if_current<H>(state: RegistryView<H>, id: u32, token: u64) -> RegistryView<
    H,
> {
    if is_current(state, id, token) {
        removed(state, id)
    } else {
        state
    }
}

/// The handle of an identifier.
pub open spec fn handle_of<H>(state: RegistryView<H>, id: u32) -> Option<H> {
    if state.connections.contains_key(id) {
        Some(state.connections[id].handle)
    } else {
        None
    }
}

/// The identifier that a random number gives: its lowest 32 bits.
pub open spec fn identifier_of(draw: u128) -> u32 {
    (draw % 0x1_0000_0000) as u32
}

/// What is said of an identifier that is not registered.
pub open spec fn not_found_text(id: u32) -> Seq<char> {
    "WebSocket connection "@ + text::decimal(id as nat) + " not found"@
}

/// `std::collections::HashMap::drain`, collected: every entry once, in no stated
/// order, and an empty map is left.
#[verifier::external_body]
fn drain_map<H>(map: &mut HashMap<u32, Registration<H>>) -> (entries: Vec<(u32, Registration<H>)>)
    ensures
        final(map)@ == no_connections::<H>(),
        entries@.len() == old(map)@.len(),
        forall|i: int|
            0 <= i < entries@.len() ==> old(map)@.contains_key((#[trigger] entries@[i]).0)
                && old(map)@[entries@[i].0] == entries@[i].1,
        forall|i: int, j: int|
            0 <= i < j < entries@.len() ==> (#[trigger] entries@[i]).0 != (#[trigger] entries@[j]).0,
        forall|id: u32|
            old(map)@.contains_key(id) ==> exists|i: int|
                0 <= i < entries@.len() && (#[trigger] entries@[i]).0 == id,
{
    map.drain().collect()
}

/// `uuid::Uuid::new_v4`, as a number. It is drawn at random: nothing is stated
/// of it.
#[verifier::external_body]
fn random_number() -> u128 {
    uuid::Uuid::new_v4().as_u128()
}

/// The identifier that a random number gives: its lowest 32 bits.
pub fn candidate_id(draw: u128) -> (id: u32)
    ensures
        id == identifier_of(draw),
{
    (draw % 0x1_0000_0000) as u32
}

impl<H> ConnectionRegistry<H> {
    /// No connection.
    pub fn new() -> (registry: Self)
        ensures
            registry@ == (RegistryView::<H> { connections: no_connections(), next_token: 0 }),
    {
        ConnectionRegistry { connections: HashMap::new(), next_token: 0 }
    }

    /// Registers a connection, in place of one with the same identifier: the
    /// token of the registration.
    pub fn insert(&mut self, id: u32, handle: H) -> (token: u64)
        ensures
            token == old(self)@.next_token,
            final(self)@ == registered(old(self)@, id, handle),
    {
        broadcast use vstd::std_specs::hash::group_hash_axioms;

        let token: u64 = self.next_token;
        self.next_token = counter::advance(token);
        let _ = self.connections.insert(id, Registration { token, handle });
        token
    }

    /// Whether the identifier is registered.
    pub fn contains(&self, id: u32) -> (present: bool)
        ensures
            present == self@.connections.contains_key(id),
    {
        broadcast use vstd::std_specs::hash::group_hash_axioms;

        self.connections.contains_key(&id)
    }

    /// The handle of an identifier, or that it is not registered.
    pub fn find(&self, id: u32) -> (found: Result<&H, String>)
        ensures
            match handle_of(self@, id) {
                Some(handle) => found matches Ok(held) && *held == handle,
                None => found matches Err(error) && error@ == not_found_text(id),
            },
    {
        broadcast use vstd::std_specs::hash::group_hash_axioms;

        match self.connections.get(&id) {
            Some(registration) => Ok(&registration.handle),
            None => {
                let mut error: String = "WebSocket connection ".to_owned();
                error.append(text::decimal_text(id as u64).as_str());
                error.append(" not found");
                Err(error)
            },
        }
    }

    /// Removes the registration of an identifier.
    pub fn remove(&mut self, id: u32) -> (handle: Option<H>)
        ensures
            handle == handle_of(old(self)@, id),
            final(self)@ == removed(old(self)@, id),
    {
        broadcast use vstd::std_specs::hash::group_hash_axioms;

        match self.connections.remove(&id) {
            Some(registration) => Some(registration.handle),
            None => None,
        }
    }

    /// Removes the registration of an identifier if its token is this one.
    pub fn remove_if_current(&mut self, id: u32, token: u64)
        ensures
            final(self)@ == removed_if_current(old(self)@, id, token),
    {
        broadcast use vstd::std_specs::hash::group_hash_axioms;

        let current = match self.connections.get(&id) {
            Some(registration) => registration.token == token,
            None => false,
        };
        if current {
            let _ = self.connections.remove(&id);
        }
    }

    /// Removes every registration: the identifiers and handles, in no stated
    /// order.
    pub fn drain(&mut self) -> (handles: Vec<(u32, H)>)
        ensures
            final(self)@ == (RegistryView::<H> {
                connections: no_connections(),
                next_token: old(self)@.next_token,
            }),
            handles@.len() == old(self)@.connections.len(),
            forall|i: int|
                0 <= i < handles@.len() ==> handle_of(
                    old(self)@,
                    (#[trigger] handles@[i]).0,
                ) == Some(handles@[i].1),
            forall|i: int, j: int|
                0 <= i < j < handles@.len() ==> (#[trigger] handles@[i]).0 != (
                #[trigger] handles@[j]).0,
            forall|id: u32|
                old(self)@.connections.contains_key(id) ==> exists|i: int|
                    0 <= i < handles@.len() && (#[trigger] handles@[i]).0 == id,
    {
        let mut entries = drain_map(&mut self.connections);
        let ghost all = entries@;
        let mut handles: Vec<(u32, H)> = Vec::new();
        while entries.len() > 0
            invariant
                entries@.len() + handles@.len() == all.len(),
                entries@ == all.take(entries@.len() as int),
                forall|i: int|
                    0 <= i < handles@.len() ==> {
                        let entry = all[all.len() - 1 - i];
                        (#[trigger] handles@[i]).0 == entry.0 && handles@[i].1 == entry.1.handle
                    },
            decreases entries@.len(),
        {
            let ghost before = entries@;
            if let Some((id, registration)) = entries.pop() {
                assert(before.last() == all[before.len() - 1]);
                handles.push((id, registration.handle));
                assert(entries@ =~= all.take(entries@.len() as int));
            }
        }
        proof {
            assert forall|id: u32| old(self)@.connections.contains_key(id) implies exists|i: int|
                0 <= i < handles@.len() && (#[trigger] handles@[i]).0 == id by {
                let k = choose|k: int| 0 <= k < all.len() && (#[trigger] all[k]).0 == id;
                assert(handles@[all.len() - 1 - k].0 == id);
            }
        }
        handles
    }

    /// The identifier that a random number gives, if it is free.
    pub fn free_candidate(&self, draw: u128) -> (id: Option<u32>)
        ensures
            id == if self@.connections.contains_key(identifier_of(draw)) {
                None
            } else {
                Some(identifier_of(draw))
            },
    {
        let candidate = candidate_id(draw);
        if self.contains(candidate) {
            None
        } else {
            Some(candidate)
        }
    }

    /// Draws identifiers at random until one is free, `attempts` times at most.
    pub fn draw_connection_id(&self, attempts: u32) -> (id: Option<u32>)
        ensures
            id matches Some(free) ==> !self@.connections.contains_key(free),
            attempts == 0 ==> id is None,
            attempts > 0 && (forall|taken: u32| !self@.connections.contains_key(taken))
                ==> id is Some,
    {
        let mut left: u32 = attempts;
        while left > 0
            invariant
                left <= attempts,
                left < attempts ==> exists|taken: u32| self@.connections.contains_key(taken),
            decreases left,
        {
            if let Some(free) = self.free_candidate(random_number()) {
                return Some(free);
            }
            left -= 1;
        }
        None
    }
}

/// What can happen to the registry.
pub enum RegistryEvent<H> {
    Insert(u32, H),
    Remove(u32),
    RemoveIfCurrent(u32, u64),
    Drain,
}

/// The registry after one event.
pub open spec fn registry_step<H>(
    state: RegistryView<H>,
    event: RegistryEvent<H>,
) -> RegistryView<H> {
    match event {
        RegistryEvent::Insert(id, handle) => registered(state, id, handle),
        RegistryEvent::Remove(id) => removed(state, id),
        RegistryEvent::RemoveIfCurrent(id, token) => removed_if_current(state, id, token),
        RegistryEvent::Drain => RegistryView { connections: no_connections(), ..state },
    }
}

/// The registry after a number of events.
pub open spec fn registry_after<H>(
    state: RegistryView<H>,
    events: Seq<RegistryEvent<H>>,
) -> RegistryView<H>
    decreases events.len(),
{
    if events.len() == 0 {
        state
    } else {
        registry_step(registry_after(state, events.drop_last()), events.last())
    }
}

/// How many of the events register a connection.
pub open spec fn insertions<H>(events: Seq<RegistryEvent<H>>) -> nat
    decreases events.len(),
{
    if events.len() == 0 {
        0
    } else {
        insertions(events.drop_last()) + if events.last() is Insert {
            1nat
        } else {
            0
        }
    }
}

/// The next token counts the registrations.
proof fn lemma_token_counts_insertions<H>(
    state: RegistryView<H>,
    events: Seq<RegistryEvent<H>>,
)
    ensures
        registry_after(state, events).next_token == counter::number_after(
            state.next_token,
            insertions(events),
        ),
    decreases events.len(),
{
    if events.len() > 0 {
        lemma_token_counts_insertions(state, events.drop_last());
    }
}

/// Where an identifier is registered a second time, whatever happened since the
/// first, the task of the first registration does not remove the second.
pub proof fn stale_task_cannot_remove_reused_id<H>(
    state: RegistryView<H>,
    id: u32,
    first: H,
    events: Seq<RegistryEvent<H>>,
    second: H,
)
    requires
        insertions(events) < u64::MAX,
    ensures
        ({
            let opened = registered(state, id, first);
            let reused = registered(registry_after(opened, events), id, second);
            removed_if_current(reused, id, state.next_token) == reused
        }),
{
    let opened = registered(state, id, first);
    lemma_token_counts_insertions(opened, events);
    let steps = insertions(events);
    lemma_number_after_next(state.next_token, steps);
    counter::later_number_differs(state.next_token, steps + 1);
}

/// One step and then `steps` more are `steps + 1` steps.
proof fn lemma_number_after_next(n: u64, steps: nat)
    ensures
        counter::number_after(counter::next_number(n), steps) == counter::number_after(
            n,
            steps + 1,
        ),
    decreases steps,
{
    if steps > 0 {
        lemma_number_after_next(n, (steps - 1) as nat);
    } else {
        assert(counter::number_after(n, 0) == n);
    }
}

/// A task removes its own registration, and then finds nothing to remove.
pub proof fn ended_task_removes_its_registration<H>(state: RegistryView<H>, id: u32, handle: H)
    ensures
        ({
            let opened = registered(state, id, handle);
            let ended = removed_if_current(opened, id, state.next_token);
            &&& !ended.connections.contains_key(id)
            &&& removed_if_current(ended, id, state.next_token) == ended
            &&& forall|other: u32|
                other != id ==> handle_of(ended, other) == #[trigger] handle_of(state, other)
        }),
{
}

/// Removing an identifier that is not registered changes nothing.
pub proof fn repeated_removal_changes_nothing<H>(state: RegistryView<H>, id: u32)
    ensures
        removed(removed(state, id), id) == removed(state, id),
        handle_of(removed(state, id), id) is None,
{
    assert(state.connections.remove(id).remove(id) =~= state.connections.remove(id));
}

/// A registration is found under its identifier, with its handle and a token that
/// no later registration of the next many has; no other identifier is touched.
pub proof fn registration_is_found<H>(state: RegistryView<H>, id: u32, handle: H, other: u32)
    ensures
        ({
            let next = registered(state, id, handle);
            &&& handle_of(next, id) == Some(handle)
            &&& is_current(next, id, state.next_token)
            &&& other != id ==> handle_of(next, other) == handle_of(state, other)
            &&& other != id ==> (next.connections.contains_key(other)
                == state.connections.contains_key(other))
            &&& other != id && state.connections.contains_key(other) ==> next.connections[other]
                == state.connections[other]
            &&& next.next_token != state.next_token
        }),
{
}

/// Removing an identifier removes it alone, and its token is not given again for
/// that.
pub proof fn removal_removes_one<H>(state: RegistryView<H>, id: u32, other: u32)
    ensures
        ({
            let next = removed(state, id);
            &&& !next.connections.contains_key(id)
            &&& handle_of(next, id) is None
            &&& other != id ==> handle_of(next, other) == handle_of(state, other)
            &&& other != id ==> (next.connections.contains_key(other)
                == state.connections.contains_key(other))
            &&& other != id && state.connections.contains_key(other) ==> next.connections[other]
                == state.connections[other]
            &&& next.next_token == state.next_token
        }),
{
}

/// A task that ends removes the registration under its identifier exactly if that
/// carries its token; otherwise nothing changes.
pub proof fn ended_task_removes_by_token<H>(state: RegistryView<H>, id: u32, token: u64)
    ensures
        ({
            let next = removed_if_current(state, id, token);
            &&& state.connections.contains_key(id) && state.connections[id].token == token
                ==> next.connections == state.connections.remove(id) && next.next_token
                == state.next_token
            &&& !state.connections.contains_key(id) || state.connections[id].token != token
                ==> next == state
        }),
{
}

/// The handle of an identifier is the one that it is registered with.
pub proof fn handle_is_the_registered_one<H>(state: RegistryView<H>, id: u32)
    ensures
        state.connections.contains_key(id) ==> handle_of(state, id) == Some(
            state.connections[id].handle,
        ),
        !state.connections.contains_key(id) ==> handle_of(state, id) is None,
        forall|taken: u32| !(#[trigger] no_connections::<H>().contains_key(taken)),
{
}

/// The identifier of a draw is what is left of it after its higher bits.
pub proof fn identifier_is_the_low_bits(high: nat, low: u32)
    requires
        high * 0x1_0000_0000 + low <= u128::MAX,
    ensures
        identifier_of((high * 0x1_0000_0000 + low) as u128) == low,
{
    assert((high * 0x1_0000_0000 + low) % 0x1_0000_0000 == low as int) by (nonlinear_arith)
        requires
            0 <= low < 0x1_0000_0000,
    ;
}

/// The text for an identifier that is not registered names that identifier.
pub proof fn not_found_text_names_the_identifier(id: u32)
    ensures
        exists|digits: Seq<char>|
            #[trigger] json::digits_value(json::ascii_bytes(digits)) == id && not_found_text(id)
                == "WebSocket connection "@ + digits + " not found"@,
{
    json::lemma_decimal(id as nat);
    assert(json::digits_value(json::ascii_bytes(text::decimal(id as nat))) == id);
}

} // verus!
