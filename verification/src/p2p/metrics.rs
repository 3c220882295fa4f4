//! How many peers count as connected.
use vstd::prelude::*;

verus! {

/// A peer whose last ping came at `ping` counts as connected at `now`: it
/// pinged within the last 20 seconds.
pub open spec fn is_connected(ping: Option<u64>, now: u64) -> bool {
    match ping {
        Some(p) => p > now - 20,
        None => false,
    }
}

/// The number of peers among the first `n` that count as connected.
pub open spec fn connected_count(pings: Seq<Option<u64>>, now: u64, n: nat) -> nat
    decreases n,
{
    if n == 0 {
        0
    } else {
        connected_count(pings, now, (n - 1) as nat) + if is_connected(pings[n - 1], now) {
            1nat
        } else {
            0nat
        }
    }
}

/// The number of peers, given their last pings, that count as connected at
/// `now`.
pub fn connected_peers(last_pings: &Vec<Option<u64>>, now: u64) -> (r: usize)
    requires
        now >= 20,
    ensures
        r == connected_count(last_pings@, now, last_pings@.len()),
{
    let mut count: usize = 0;
    let mut i: usize = 0;
    while i < last_pings.len()
        invariant
            i <= last_pings@.len(),
            now >= 20,
            count == connected_count(last_pings@, now, i as nat),
            count <= i,
        decreases last_pings@.len() - i,
    {
        match last_pings[i] {
            Some(ping) => {
                if ping > now - 20 {
                    count = count + 1;
                }
            },
            None => {},
        }
        i = i + 1;
    }
    count
}

} // verus!
