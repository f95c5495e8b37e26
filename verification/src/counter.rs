//! The message id counter: process-scoped, seeded from wall-clock high bits
//! and random low bits, and strictly increasing within one counter instance
//! however the wall clock later behaves.

use vstd::prelude::*;

verus! {

/// Low bits of the seed drawn at random.
pub const RANDOM_MASK: u64 = 0xFFF;

/// How much of the wall-clock milliseconds the seed keeps.
pub const TIMESTAMP_MASK: u64 = 0xFFFF_FFFF_FFFF;

/// The largest seed a fresh counter can hold.
pub const SEED_MAX: u64 = 0xFFFF_FFFF_FFFF_0FFF;

/// Relies on std::time::SystemTime::now, read as whole milliseconds since the
/// Unix epoch; a clock before the epoch reads as zero. Nothing is promised of
/// the value: it is the machine's clock.
#[verifier::external_body]
fn now_unix_millis() -> u64 {
    match std::time::SystemTime::now().duration_since(std::time::SystemTime::UNIX_EPOCH) {
        Ok(d) => d.as_millis() as u64,
        Err(_) => 0,
    }
}

/// Relies on rand::random: a random value. Nothing is promised of it.
#[verifier::external_body]
fn random_u16() -> u16 {
    rand::random::<u16>()
}

/// Compose a seed from a clock reading and a random salt: the clock's low 48
/// bits go to the high positions, the salt's low 12 bits sit at the bottom,
/// and bits 12 to 15 stay clear — so the seed keeps headroom below u64::MAX
/// for the ids to come.
pub fn seed_from(timestamp: u64, salt: u16) -> (r: u64)
    ensures
        r == ((timestamp & TIMESTAMP_MASK) << 16) | ((salt as u64) & RANDOM_MASK),
        r <= SEED_MAX,
{
    let high: u64 = timestamp & TIMESTAMP_MASK;
    let low: u64 = (salt as u64) & RANDOM_MASK;
    let value = (high << 16) | low;
    proof {
        assert((high << 16) | low <= 0xFFFF_FFFF_FFFF_0FFFu64) by (bit_vector)
            requires
                high == timestamp & 0xFFFF_FFFF_FFFFu64,
                low == (salt as u64) & 0xFFFu64,
        ;
    }
    value
}

/// A fresh seed: the wall clock's milliseconds in the high bits, a random
/// salt in the low bits — collision-resistant across process restarts, and
/// with headroom left below u64::MAX.
pub(crate) fn seed_value() -> (r: u64)
    ensures
        r <= SEED_MAX,
{
    seed_from(now_unix_millis(), random_u16())
}

/// A message id counter. Ids start at a seed built from the wall clock and a
/// random salt — collision-resistant across process restarts — and from then
/// on only count up: the clock is never consulted again.
pub struct RngMsgIdCounter {
    value: u64,
}

impl RngMsgIdCounter {
    /// The id most recently handed out (or the seed, before the first one).
    pub closed spec fn current(self) -> u64 {
        self.value
    }

    /// Seed a fresh counter from the wall clock's high bits and random low
    /// bits. The seed leaves headroom below u64::MAX for the ids to come.
    pub fn new() -> (r: Self)
        ensures
            r.current() <= SEED_MAX,
    {
        RngMsgIdCounter { value: seed_value() }
    }

    /// The id most recently handed out (or the seed, before the first one).
    pub fn current_value(&self) -> (r: u64)
        ensures
            r == self.current(),
    {
        self.value
    }

    /// Hand out the next id: one more than the last. Ids from one counter
    /// strictly increase whatever the wall clock does, since the clock is
    /// only read at construction.
    pub fn next(&mut self) -> (id: u64)
        requires
            old(self).current() < u64::MAX,
        ensures
            final(self).current() == old(self).current() + 1,
            id == final(self).current(),
            id > old(self).current(),
    {
        self.value = self.value + 1;
        self.value
    }
}

/// After any run of ids handed out one by one, the k-th id exceeds the j-th
/// whenever k comes later: ids from one counter instance strictly increase.
pub proof fn lemma_ids_strictly_increase(seed: u64, j: nat, k: nat)
    requires
        j < k,
        seed + k <= u64::MAX,
    ensures
        seed + j < seed + k,
{
}

} // verus!
