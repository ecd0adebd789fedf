//! Identifier generation: the monotonic timestamp-sequencing rule, a
//! deterministic generator whose state is owned by the caller, and a shared
//! generator whose counter is a lock-free atomic for concurrent use.
use crate::uuid7::is_uuid_v7;
use crate::uuid7::spec_pack;
use crate::uuid7::spec_timestamp_of;
use crate::uuid7::UuidV7;
use core::sync::atomic::AtomicU64;
use rand::Rng;
use vstd::prelude::*;

verus! {

/// The effective timestamp chosen for a new identifier, given the candidate
/// read from the wall clock and the last timestamp the generator committed:
/// a candidate at or below the committed value is bumped to one past it,
/// a later candidate is taken as it is.
pub open spec fn spec_effective(candidate: u64, last: u64) -> int {
    if candidate <= last {
        last + 1
    } else {
        candidate as int
    }
}

/// Every committed counter value lies strictly above the value it replaced
/// and at or above the wall-clock candidate. Committed values therefore form
/// a strictly increasing sequence: the shared counter never decreases, and no
/// two commits install the same value.
pub proof fn lemma_commit_strictly_advances(candidate: u64, observed: u64)
    requires
        observed < u64::MAX,
    ensures
        spec_effective(candidate, observed) > observed,
        spec_effective(candidate, observed) >= candidate,
{
}

/// Relies on chrono's `Utc::now` and `DateTime::timestamp_millis`: the current
/// wall-clock time as milliseconds since the Unix epoch, reinterpreted as an
/// unsigned 64-bit value. Nothing is assumed of the clock's reading.
#[verifier::external_body]
fn now_millis() -> u64 {
    chrono::Utc::now().timestamp_millis() as u64
}

/// Relies on rand's `thread_rng` and `Rng::gen`: ten bytes drawn from the
/// thread's general-purpose random source. Nothing is assumed of their values.
#[verifier::external_body]
fn random_bytes() -> [u8; 10] {
    let mut rng = rand::thread_rng();
    rng.gen::<[u8; 10]>()
}

/// A generator whose counter is owned by the caller: one instance per
/// sequence, deterministic given the candidates and random bytes handed in.
pub struct LocalGenerator {
    pub last_timestamp: u64,
}

impl LocalGenerator {
    /// A fresh generator, its counter at zero as at process start.
    pub fn new() -> (g: LocalGenerator)
        ensures
            g.last_timestamp == 0,
    {
        LocalGenerator { last_timestamp: 0 }
    }

    /// Commits and returns the effective timestamp for one identifier. The
    /// counter bound is a machine limit: the effective timestamp must fit in
    /// 64 bits.
    pub fn next_timestamp(&mut self, candidate: u64) -> (ts: u64)
        requires
            old(self).last_timestamp < u64::MAX,
        ensures
            ts == spec_effective(candidate, old(self).last_timestamp),
            final(self).last_timestamp == ts,
            ts > old(self).last_timestamp,
            ts >= candidate,
    {
        let ts: u64 = if candidate <= self.last_timestamp {
            self.last_timestamp + 1
        } else {
            candidate
        };
        self.last_timestamp = ts;
        ts
    }

    /// One identifier from a given wall-clock candidate and given random
    /// bytes: the effective timestamp is committed and packed with the bytes.
    pub fn generate_with(&mut self, candidate: u64, random: &[u8; 10]) -> (r: UuidV7)
        requires
            old(self).last_timestamp < u64::MAX,
        ensures
            r.value == spec_pack(
                spec_effective(candidate, old(self).last_timestamp) as u64,
                random@,
            ),
            final(self).last_timestamp == spec_effective(candidate, old(self).last_timestamp),
            final(self).last_timestamp > old(self).last_timestamp,
            is_uuid_v7(r.value),
            spec_timestamp_of(r.value) == (final(self).last_timestamp & 0xffff_ffff_ffff),
    {
        let ts = self.next_timestamp(candidate);
        UuidV7::from_parts(ts, random)
    }

    /// One identifier from the wall clock and the thread's random source. The
    /// committed timestamp strictly advances, and the identifier is the
    /// packing of that timestamp with some ten random bytes.
    pub fn generate(&mut self) -> (r: UuidV7)
        requires
            old(self).last_timestamp < u64::MAX,
        ensures
            final(self).last_timestamp > old(self).last_timestamp,
            is_uuid_v7(r.value),
            spec_timestamp_of(r.value) == (final(self).last_timestamp & 0xffff_ffff_ffff),
            exists|rnd: Seq<u8>|
                rnd.len() == 10 && r.value == spec_pack(final(self).last_timestamp, rnd),
    {
        let candidate = now_millis();
        let random = random_bytes();
        let r = self.generate_with(candidate, &random);
        proof {
            assert(random@.len() == 10 && r.value == spec_pack(self.last_timestamp, random@));
        }
        r
    }
}

/// A generator whose counter is a process-shared atomic, callable from any
/// number of threads at once. The counter is updated only by compare-and-swap
/// or atomic-maximum steps, so it never decreases.
pub struct SharedGenerator {
    last_timestamp: AtomicU64,
}

impl SharedGenerator {
    /// A fresh shared generator, its counter at zero as at process start.
    pub fn new() -> SharedGenerator {
        SharedGenerator { last_timestamp: AtomicU64::new(0) }
    }

    /// Commits and returns an effective timestamp at or above the candidate.
    ///
    /// Lock-free retry: load the counter, bump the candidate to one past any
    /// value at or above it, and install it by compare-and-swap; on a lost
    /// race, reload and recompute from the fresh value — the candidate is
    /// never resampled, so no attempt can regress. The retry count is bounded
    /// only by the number of concurrently competing writers; the fallback
    /// after the (unreachable) last retry raises the counter to the candidate
    /// by an atomic maximum, which cannot lower it.
    pub fn next_timestamp(&self, candidate: u64) -> (ts: u64)
        ensures
            ts >= candidate,
    {
        let mut attempts: u64 = 0;
        while attempts < u64::MAX
            invariant
                attempts <= u64::MAX,
            decreases u64::MAX - attempts,
        {
            let observed = self.last_timestamp.load(core::sync::atomic::Ordering::SeqCst);
            let proposal: u64 = if candidate <= observed {
                if observed < u64::MAX {
                    observed + 1
                } else {
                    u64::MAX
                }
            } else {
                candidate
            };
            proof {
                if observed < u64::MAX {
                    assert(proposal == spec_effective(candidate, observed));
                }
            }
            let swapped = self.last_timestamp.compare_exchange(
                observed,
                proposal,
                core::sync::atomic::Ordering::SeqCst,
                core::sync::atomic::Ordering::SeqCst,
            );
            if swapped.is_ok() {
                return proposal;
            }
            attempts = attempts + 1;
        }
        self.last_timestamp.fetch_max(candidate, core::sync::atomic::Ordering::SeqCst);
        candidate
    }

    /// One identifier from the wall clock and the thread's random source,
    /// callable concurrently: the packing of some effective timestamp with
    /// some ten random bytes.
    pub fn generate(&self) -> (r: UuidV7)
        ensures
            is_uuid_v7(r.value),
            exists|ts: u64, rnd: Seq<u8>| rnd.len() == 10 && r.value == spec_pack(ts, rnd),
    {
        let candidate = now_millis();
        let ts = self.next_timestamp(candidate);
        let random = random_bytes();
        let r = UuidV7::from_parts(ts, &random);
        proof {
            assert(random@.len() == 10 && r.value == spec_pack(ts, random@));
        }
        r
    }
}

} // verus!
