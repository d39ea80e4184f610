//! The clock of the polling service.

use vstd::prelude::*;

verus! {

/// The seconds between two rounds of polling.
pub const POLL_INTERVAL_SECS: u64 = 1;

/// After how many rounds of polling the histories are pruned.
pub const ROUNDS_PER_PRUNE: u64 = 60;

/// Counts a round of polling, `rounds` being those before it; tells the new count and whether the
/// histories are to be pruned now.
pub fn count_round(rounds: u64) -> (r: (u64, bool))
    requires
        rounds < u64::MAX,
    ensures
        r.0 == rounds + 1,
        r.1 == ((rounds + 1) % 60 == 0),
{
    let rounds: u64 = rounds + 1;
    (rounds, rounds % ROUNDS_PER_PRUNE == 0)
}

/// How often the histories have been pruned in the first `rounds` rounds.
pub open spec fn prunes(rounds: nat) -> nat
    decreases rounds,
{
    if rounds == 0 {
        0
    } else {
        prunes((rounds - 1) as nat) + (if rounds % ROUNDS_PER_PRUNE as nat == 0 {
            1nat
        } else {
            0
        })
    }
}

/// The histories are pruned once in every sixty rounds, and rounds are a second apart.
pub proof fn pruned_every_sixty_rounds(rounds: nat)
    ensures
        POLL_INTERVAL_SECS == 1,
        prunes(rounds) == rounds / 60,
    decreases rounds,
{
    if rounds > 0 {
        pruned_every_sixty_rounds((rounds - 1) as nat);
    }
}

} // verus!
