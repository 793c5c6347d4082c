//! The access guard and the audit trail.

use crate::clock::{nanos_since, MAX_ELAPSED_NANOS, NANOS_PER_SECOND};
use crate::crypto::{generate_salt, CryptoError};
use crate::text::{hex_encode, hex_of_bytes, hex_of_bytes_len};
use vstd::prelude::*;

pub mod audit;
pub mod event;
pub mod utils;

pub use audit::{AuditAction, AuditLog, SecurityReport, ThreatDetector, ThreatInfo, ThreatPattern};
pub use event::{SecurityEvent, SecurityEventType, SecuritySeverity};

verus! {

/// Failed attempts after which the vault is locked out.
pub const MAX_FAILED_ATTEMPTS: u32 = 5;

/// Length of a lock-out in seconds.
pub const LOCKOUT_SECONDS: u64 = 300;

/// What an access guard holds. Times are nanoseconds on the guard's own
/// monotonic clock, which starts when the guard is made.
pub struct LockState {
    /// The last successful access.
    pub last_access: nat,
    /// The idle time after which the vault locks.
    pub timeout: nat,
    /// Failed attempts since the last successful access.
    pub failed_attempts: nat,
    /// The end of the lock-out, once one was triggered.
    pub lockout_until: Option<nat>,
    /// Failed attempts that trigger a lock-out.
    pub max_failed_attempts: nat,
    /// Length of a lock-out.
    pub lockout_duration: nat,
}

impl LockState {
    /// A lock-out is in force at `now`.
    pub open spec fn locked_out_at(self, now: nat) -> bool {
        self.lockout_until matches Some(until) && now < until
    }

    /// The time that has passed at `now` since the last access.
    pub open spec fn idle_time(self, now: nat) -> nat {
        if now > self.last_access {
            (now - self.last_access) as nat
        } else {
            0
        }
    }

    /// More than the idle time-out has passed since the last access.
    pub open spec fn idle_at(self, now: nat) -> bool {
        self.idle_time(now) > self.timeout
    }

    /// The vault is locked at `now`: locked out, or idle for too long.
    pub open spec fn locked_at(self, now: nat) -> bool {
        self.locked_out_at(now) || self.idle_at(now)
    }

    /// The state after a successful access at `now`.
    pub open spec fn refreshed(self, now: nat) -> LockState {
        LockState { last_access: now, failed_attempts: 0, ..self }
    }

    /// A failure now would reach the threshold.
    pub open spec fn next_failure_locks(self) -> bool {
        self.failed_attempts + 1 >= self.max_failed_attempts
    }

    /// The state after a failed attempt at `now`.
    pub open spec fn after_failure(self, now: nat) -> LockState {
        LockState {
            failed_attempts: self.failed_attempts + 1,
            lockout_until: if self.next_failure_locks() {
                Some(now + self.lockout_duration)
            } else {
                self.lockout_until
            },
            ..self
        }
    }

    /// The state after failed attempts at each of `times`, in turn.
    pub open spec fn after_failures(self, times: Seq<nat>) -> LockState
        decreases times.len(),
    {
        if times.len() == 0 {
            self
        } else {
            self.after_failures(times.drop_last()).after_failure(times.last())
        }
    }

    /// Time left until the vault locks for idleness; 0 once it has.
    pub open spec fn time_until_lock(self, now: nat) -> nat {
        if self.idle_time(now) >= self.timeout {
            0
        } else {
            (self.timeout - self.idle_time(now)) as nat
        }
    }

    /// Time left of the lock-out in force at `now`, if any.
    pub open spec fn lockout_remaining(self, now: nat) -> Option<nat> {
        match self.lockout_until {
            Some(until) => if now < until {
                Some((until - now) as nat)
            } else {
                None
            },
            None => None,
        }
    }
}

/// Failed attempts add up: without a successful access in between, nothing
/// resets the counter.
pub proof fn failures_accumulate(state: LockState, times: Seq<nat>)
    ensures
        state.after_failures(times).failed_attempts == state.failed_attempts + times.len(),
        state.after_failures(times).last_access == state.last_access,
        state.after_failures(times).timeout == state.timeout,
        state.after_failures(times).max_failed_attempts == state.max_failed_attempts,
        state.after_failures(times).lockout_duration == state.lockout_duration,
    decreases times.len(),
{
    if times.len() > 0 {
        failures_accumulate(state, times.drop_last());
    }
}

/// Once consecutive failures reach the threshold, the vault is locked from
/// the last failure until the lock-out has run, however recent the last
/// access; after that it is locked only if it has been idle for too long.
pub proof fn lockout_after_repeated_failures(state: LockState, times: Seq<nat>, now: nat)
    requires
        times.len() > 0,
        state.failed_attempts + times.len() >= state.max_failed_attempts,
    ensures
        ({
            let locked = state.after_failures(times);
            let until = times.last() + state.lockout_duration;
            &&& locked.lockout_until == Some(until)
            &&& now < until ==> locked.locked_at(now)
            &&& now >= until ==> (locked.locked_at(now) <==> state.idle_at(now))
        }),
{
    failures_accumulate(state, times.drop_last());
}

/// A successful access opens an idle vault again and clears the counter; it
/// does not end a lock-out.
pub proof fn refresh_resets_idle_timer(state: LockState, now: nat)
    ensures
        !state.refreshed(now).idle_at(now),
        state.refreshed(now).failed_attempts == 0,
        state.refreshed(now).locked_at(now) == state.locked_out_at(now),
{
}

/// The access guard: an idle timer and a counter of failed attempts.
#[derive(Debug)]
pub struct VaultLock {
    origin: std::time::Instant,
    last_access: u128,
    timeout: u128,
    failed_attempts: u32,
    lockout_until: Option<u128>,
    max_failed_attempts: u32,
    lockout_duration: u128,
}

impl View for VaultLock {
    type V = LockState;

    closed spec fn view(&self) -> LockState {
        LockState {
            last_access: self.last_access as nat,
            timeout: self.timeout as nat,
            failed_attempts: self.failed_attempts as nat,
            lockout_until: match self.lockout_until {
                Some(until) => Some(until as nat),
                None => None,
            },
            max_failed_attempts: self.max_failed_attempts as nat,
            lockout_duration: self.lockout_duration as nat,
        }
    }
}

impl VaultLock {
    #[verifier::type_invariant]
    spec fn inv(self) -> bool {
        &&& self.lockout_duration == LOCKOUT_SECONDS as nat * 1_000_000_000
        &&& self.max_failed_attempts == MAX_FAILED_ATTEMPTS
    }

    /// The state of a guard that was just made: just accessed, no failed
    /// attempt, no lock-out, 5 attempts allowed, lock-outs of 300 seconds.
    pub open spec fn new_state(timeout_secs: u64) -> LockState {
        LockState {
            last_access: 0,
            timeout: timeout_secs as nat * 1_000_000_000,
            failed_attempts: 0,
            lockout_until: None,
            max_failed_attempts: 5,
            lockout_duration: 300_000_000_000,
        }
    }

    /// A guard whose clock starts now.
    pub fn new(timeout_secs: u64) -> (lock: Self)
        ensures
            lock@ == VaultLock::new_state(timeout_secs),
    {
        Self {
            origin: std::time::Instant::now(),
            last_access: 0,
            timeout: (timeout_secs as u128) * NANOS_PER_SECOND,
            failed_attempts: 0,
            lockout_until: None,
            max_failed_attempts: MAX_FAILED_ATTEMPTS,
            lockout_duration: (LOCKOUT_SECONDS as u128) * NANOS_PER_SECOND,
        }
    }

    /// The time on the guard's clock.
    pub fn now(&self) -> (now: u128)
        ensures
            now <= MAX_ELAPSED_NANOS,
    {
        nanos_since(&self.origin)
    }

    /// Records a successful access now.
    pub fn refresh(&mut self)
        ensures
            exists|now: nat|
                now <= MAX_ELAPSED_NANOS && final(self)@ == #[trigger] old(self)@.refreshed(now),
    {
        let now = self.now();
        self.refresh_at(now);
        assert(self@ == old(self)@.refreshed(now as nat));
    }

    /// Records a successful access at `now`: the idle timer starts again and
    /// the failed attempts are forgotten.
    pub fn refresh_at(&mut self, now: u128)
        ensures
            final(self)@ == old(self)@.refreshed(now as nat),
    {
        proof {
            use_type_invariant(&*self);
        }
        self.last_access = now;
        self.failed_attempts = 0;
    }

    /// Tells whether the vault is locked now.
    pub fn is_locked(&self) -> (locked: bool)
        ensures
            exists|now: nat| now <= MAX_ELAPSED_NANOS && locked == #[trigger] self@.locked_at(now),
    {
        let now = self.now();
        let locked = self.is_locked_at(now);
        assert(locked == self@.locked_at(now as nat));
        locked
    }

    /// Tells whether the vault is locked at `now`: within a lock-out, which
    /// comes first, or idle for longer than the time-out.
    pub fn is_locked_at(&self, now: u128) -> (locked: bool)
        ensures
            locked == self@.locked_at(now as nat),
    {
        match self.lockout_until {
            Some(until) => {
                if now < until {
                    return true;
                }
            },
            None => {},
        }
        now > self.last_access && now - self.last_access > self.timeout
    }

    /// Tells whether a lock-out is in force at `now`.
    pub fn is_locked_out_at(&self, now: u128) -> (locked_out: bool)
        ensures
            locked_out == self@.locked_out_at(now as nat),
    {
        match self.lockout_until {
            Some(until) => now < until,
            None => false,
        }
    }

    /// The nanoseconds left now until the vault locks for idleness.
    pub fn time_until_lock(&self) -> (left: u128)
        ensures
            exists|now: nat|
                now <= MAX_ELAPSED_NANOS && left == #[trigger] self@.time_until_lock(now),
    {
        let now = self.now();
        let left = self.time_until_lock_at(now);
        assert(left == self@.time_until_lock(now as nat));
        left
    }

    /// The nanoseconds left at `now` until the vault locks for idleness.
    pub fn time_until_lock_at(&self, now: u128) -> (left: u128)
        ensures
            left == self@.time_until_lock(now as nat),
    {
        let elapsed: u128 = if now > self.last_access {
            now - self.last_access
        } else {
            0
        };
        if elapsed >= self.timeout {
            0
        } else {
            self.timeout - elapsed
        }
    }

    /// Records a failed attempt now, and tells whether it triggered a
    /// lock-out.
    pub fn record_failed_attempt(&mut self) -> (triggered: bool)
        requires
            old(self)@.failed_attempts < u32::MAX,
        ensures
            triggered == old(self)@.next_failure_locks(),
            exists|now: nat|
                now <= MAX_ELAPSED_NANOS && final(self)@ == #[trigger] old(self)@.after_failure(
                    now,
                ),
    {
        let now = self.now();
        let triggered = self.record_failed_attempt_at(now);
        assert(self@ == old(self)@.after_failure(now as nat));
        triggered
    }

    /// Records a failed attempt at `now`. At the threshold the vault is
    /// locked out for the lock-out's length from `now`.
    pub fn record_failed_attempt_at(&mut self, now: u128) -> (triggered: bool)
        requires
            old(self)@.failed_attempts < u32::MAX,
            now + 300_000_000_000 <= u128::MAX,
        ensures
            triggered == old(self)@.next_failure_locks(),
            final(self)@ == old(self)@.after_failure(now as nat),
    {
        proof {
            use_type_invariant(&*self);
        }
        self.failed_attempts = self.failed_attempts + 1;
        if self.failed_attempts >= self.max_failed_attempts {
            self.lockout_until = Some(now + self.lockout_duration);
            true
        } else {
            false
        }
    }

    /// The failed attempts since the last successful access.
    pub fn get_failed_attempts(&self) -> (attempts: u32)
        ensures
            attempts == self@.failed_attempts,
    {
        self.failed_attempts
    }

    /// The nanoseconds left now of a lock-out in force.
    pub fn get_lockout_remaining(&self) -> (left: Option<u128>)
        ensures
            exists|now: nat|
                now <= MAX_ELAPSED_NANOS && (match left {
                    Some(nanos) => Some(nanos as nat),
                    None => None,
                }) == #[trigger] self@.lockout_remaining(now),
    {
        let now = self.now();
        let left = self.get_lockout_remaining_at(now);
        assert((match left {
            Some(nanos) => Some(nanos as nat),
            None => None,
        }) == self@.lockout_remaining(now as nat));
        left
    }

    /// The nanoseconds left at `now` of a lock-out in force.
    pub fn get_lockout_remaining_at(&self, now: u128) -> (left: Option<u128>)
        ensures
            (match left {
                Some(nanos) => Some(nanos as nat),
                None => None,
            }) == self@.lockout_remaining(now as nat),
    {
        match self.lockout_until {
            Some(until) => {
                if now < until {
                    Some(until - now)
                } else {
                    None
                }
            },
            None => None,
        }
    }
}

/// Draws a session identifier: 16 random bytes in hexadecimal.
pub fn generate_session_id() -> (r: Result<String, CryptoError>)
    ensures
        match r {
            Ok(id) => {
                &&& id@.len() == 32
                &&& exists|bytes: Seq<u8>| bytes.len() == 16 && id@ == #[trigger] hex_of_bytes(bytes)
            },
            Err(e) => e is RandomSource,
        },
{
    let bytes = generate_salt(16)?;
    proof {
        hex_of_bytes_len(bytes@);
    }
    Ok(hex_encode(bytes.as_slice()))
}

} // verus!
