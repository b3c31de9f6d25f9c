//! Rounds of connections: ending all connections ends the round, and with it every
//! connection that is still being opened.

use vstd::prelude::*;

use crate::counter;

verus! {

/// Counts how often all connections were ended.
pub struct ConnectRounds {
    round: u64,
}

impl View for ConnectRounds {
    type V = u64;

    closed spec fn view(&self) -> u64 {
        self.round
    }
}

impl ConnectRounds {
    /// The first round.
    pub fn new() -> (rounds: Self)
        ensures
            rounds@ == 0,
    {
        ConnectRounds { round: 0 }
    }

    /// The round to which a connection belongs that is being opened now.
    pub fn current(&self) -> (round: u64)
        ensures
            round == self@,
    {
        self.round
    }

    /// Ends the round and begins the next.
    pub fn end(&mut self)
        ensures
            final(self)@ == counter::next_number(old(self)@),
    {
        self.round = counter::advance(self.round);
    }

    /// Whether a round is over.
    pub fn is_over(&self, round: u64) -> (over: bool)
        ensures
            over == (self@ != round),
    {
        self.round != round
    }
}

} // verus!
