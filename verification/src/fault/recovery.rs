//! Recovery of faults: a recommended strategy per fault type, and per-fault state that counts
//! retries against a limit.

use crate::fault::processing::clock_micros;
use crate::types::{FaultRecord, FaultType};
use std::collections::HashMap;
use vstd::prelude::*;

verus! {

broadcast use vstd::std_specs::hash::group_hash_axioms;

/// How to try to recover from a fault.
#[derive(Debug, Clone, Copy, PartialEq, Eq, Structural)]
pub enum RecoveryStrategy {
    /// Retry the translation, at most `max_attempts` times.
    Retry { max_attempts: u32 },
    /// Ask for the page to be remapped.
    Remap,
    /// Terminate the transaction.
    Terminate,
}

/// Outcome of a recovery attempt.
#[derive(Debug, Clone, Copy, PartialEq, Eq, Structural)]
pub enum RecoveryResult {
    /// The fault was recovered.
    Recovered,
    /// The transaction should be retried.
    Retry,
    /// The fault cannot be recovered.
    Unrecoverable,
}

/// What is remembered of the recovery of one fault.
#[derive(Debug, Clone, Copy, PartialEq, Eq, Structural)]
pub struct RecoveryState {
    retry_count: u32,
    first_fault_time: u64,
    last_strategy: Option<RecoveryStrategy>,
}

impl View for RecoveryState {
    type V = (u32, u64, Option<RecoveryStrategy>);

    /// Retries made, time of the first attempt, and the last strategy tried.
    closed spec fn view(&self) -> (u32, u64, Option<RecoveryStrategy>) {
        (self.retry_count, self.first_fault_time, self.last_strategy)
    }
}

impl RecoveryState {
    /// No retries, time 0, no strategy tried.
    pub fn new() -> (r: RecoveryState)
        ensures
            r@ == (0u32, 0u64, None::<RecoveryStrategy>),
    {
        RecoveryState { retry_count: 0, first_fault_time: 0, last_strategy: None }
    }

    /// Retries made.
    pub fn retry_count(&self) -> (r: u32)
        ensures
            r == self@.0,
    {
        self.retry_count
    }

    /// Time of the first recovery attempt.
    pub fn first_fault_time(&self) -> (r: u64)
        ensures
            r == self@.1,
    {
        self.first_fault_time
    }

    /// The last strategy tried.
    pub fn last_strategy(&self) -> (r: Option<RecoveryStrategy>)
        ensures
            r == self@.2,
    {
        self.last_strategy
    }
}

impl Default for RecoveryState {
    /// No retries, time 0, no strategy tried.
    fn default() -> (r: RecoveryState)
        ensures
            r@ == (0u32, 0u64, None::<RecoveryStrategy>),
    {
        RecoveryState::new()
    }
}

/// The key under which the state of a fault is kept: its stream, PASID and address packed into
/// one number (stream in bits 96..127, PASID in bits 64..95, address in bits 0..63).
pub open spec fn fault_key_of(fault: FaultRecord) -> u128 {
    (fault.stream_id@ * 0x1_0000_0000_0000_0000_0000_0000 + fault.pasid@ * 0x1_0000_0000_0000_0000
        + fault.address@) as u128
}

/// The strategy recommended for each fault type.
pub open spec fn recommended_for(t: FaultType) -> RecoveryStrategy {
    match t {
        FaultType::TranslationFault => RecoveryStrategy::Retry { max_attempts: 3 },
        FaultType::AccessFlagFault => RecoveryStrategy::Remap,
        _ => RecoveryStrategy::Terminate,
    }
}

/// The state a recovery attempt starts from: the stored one, or a fresh one first seen at `now`.
pub open spec fn state_before(states: Map<u128, RecoveryState>, key: u128, now: u64) -> (u32, u64, Option<
    RecoveryStrategy,
>) {
    if states.contains_key(key) {
        states[key]@
    } else {
        (0u32, now, None::<RecoveryStrategy>)
    }
}

/// Tracks recovery attempts per fault.
#[derive(Debug)]
pub struct FaultRecovery {
    state_map: HashMap<u128, RecoveryState>,
}

impl View for FaultRecovery {
    type V = Map<u128, RecoveryState>;

    /// The stored states, by fault key.
    closed spec fn view(&self) -> Map<u128, RecoveryState> {
        self.state_map@
    }
}

impl FaultRecovery {
    /// No state stored.
    pub fn new() -> (r: FaultRecovery)
        ensures
            r@ == Map::<u128, RecoveryState>::empty(),
    {
        FaultRecovery { state_map: HashMap::new() }
    }

    /// Retry (up to 3 attempts) for a translation fault, remap for an access flag fault, terminate
    /// for anything else.
    pub fn get_recommended_strategy(&self, fault: &FaultRecord) -> (r: RecoveryStrategy)
        ensures
            r == recommended_for(fault.fault_type),
    {
        match fault.fault_type() {
            FaultType::TranslationFault => RecoveryStrategy::Retry { max_attempts: 3 },
            FaultType::AccessFlagFault => RecoveryStrategy::Remap,
            FaultType::PermissionFault => RecoveryStrategy::Terminate,
            FaultType::AddressSizeFault => RecoveryStrategy::Terminate,
            _ => RecoveryStrategy::Terminate,
        }
    }

    /// Attempts recovery of `fault` as `attempt_recovery_at` does, with the current time as `now`.
    pub fn attempt_recovery(&mut self, fault: &FaultRecord, strategy: RecoveryStrategy) -> (r: RecoveryResult)
        requires
            strategy is Retry && old(self)@.contains_key(fault_key_of(*fault)) ==> old(self)@[fault_key_of(
                *fault,
            )]@.0 < u32::MAX,
        ensures
            exists|now: u64| Self::attempted(old(self)@, *fault, strategy, now, final(self)@, r),
    {
        let now = clock_micros();
        self.attempt_recovery_at(fault, strategy, now)
    }

    /// What one recovery attempt of `fault` with `strategy` at time `now` does: the fault's state
    /// (a fresh one first seen at `now` if none was stored) records the strategy; a retry counts
    /// one more attempt and gives up once the count reaches its limit; a remap asks for a retry;
    /// termination is unrecoverable.
    pub open spec fn attempted(
        before: Map<u128, RecoveryState>,
        fault: FaultRecord,
        strategy: RecoveryStrategy,
        now: u64,
        after: Map<u128, RecoveryState>,
        r: RecoveryResult,
    ) -> bool {
        let key = fault_key_of(fault);
        let s = state_before(before, key, now);
        &&& after.dom() == before.dom().insert(key)
        &&& forall|k: u128| k != key && #[trigger] before.contains_key(k) ==> after[k] == before[k]
        &&& match strategy {
            RecoveryStrategy::Retry { max_attempts } => {
                &&& after[key]@ == ((s.0 + 1) as u32, s.1, Some(strategy))
                &&& r == if s.0 + 1 >= max_attempts {
                    RecoveryResult::Unrecoverable
                } else {
                    RecoveryResult::Retry
                }
            },
            RecoveryStrategy::Remap => {
                &&& after[key]@ == (s.0, s.1, Some(strategy))
                &&& r == RecoveryResult::Retry
            },
            RecoveryStrategy::Terminate => {
                &&& after[key]@ == (s.0, s.1, Some(strategy))
                &&& r == RecoveryResult::Unrecoverable
            },
        }
    }

    /// Makes one recovery attempt of `fault` with `strategy`; a fault seen for the first time is
    /// remembered as first seen at `now`.
    pub fn attempt_recovery_at(&mut self, fault: &FaultRecord, strategy: RecoveryStrategy, now: u64) -> (r:
        RecoveryResult)
        requires
            strategy is Retry && old(self)@.contains_key(fault_key_of(*fault)) ==> old(self)@[fault_key_of(
                *fault,
            )]@.0 < u32::MAX,
        ensures
            Self::attempted(old(self)@, *fault, strategy, now, final(self)@, r),
    {
        let key = Self::fault_key(fault);
        let mut state = match self.state_map.get(&key) {
            Some(s) => *s,
            None => RecoveryState { retry_count: 0, first_fault_time: now, last_strategy: None },
        };
        state.last_strategy = Some(strategy);
        let result = match strategy {
            RecoveryStrategy::Retry { max_attempts } => {
                state.retry_count = state.retry_count + 1;
                if state.retry_count >= max_attempts {
                    RecoveryResult::Unrecoverable
                } else {
                    RecoveryResult::Retry
                }
            },
            RecoveryStrategy::Remap => RecoveryResult::Retry,
            RecoveryStrategy::Terminate => RecoveryResult::Unrecoverable,
        };
        self.state_map.insert(key, state);
        result
    }

    /// The stored state of `fault`, or a fresh one if none is stored.
    pub fn save_state(&self, fault: &FaultRecord) -> (r: RecoveryState)
        ensures
            self@.contains_key(fault_key_of(*fault)) ==> r == self@[fault_key_of(*fault)],
            !self@.contains_key(fault_key_of(*fault)) ==> r@ == (0u32, 0u64, None::<RecoveryStrategy>),
    {
        let key = Self::fault_key(fault);
        match self.state_map.get(&key) {
            Some(s) => *s,
            None => RecoveryState::new(),
        }
    }

    /// Stores `state` as the state of `fault`.
    pub fn restore_state(&mut self, fault: &FaultRecord, state: RecoveryState) -> (r: Result<(), String>)
        ensures
            r is Ok,
            final(self)@ == old(self)@.insert(fault_key_of(*fault), state),
    {
        let key = Self::fault_key(fault);
        self.state_map.insert(key, state);
        Ok(())
    }

    /// Forgets the state of `fault`.
    pub fn clear_state(&mut self, fault: &FaultRecord)
        ensures
            final(self)@ == old(self)@.remove(fault_key_of(*fault)),
    {
        let key = Self::fault_key(fault);
        self.state_map.remove(&key);
    }

    /// Forgets every state.
    pub fn clear_all(&mut self)
        ensures
            final(self)@ == Map::<u128, RecoveryState>::empty(),
    {
        self.state_map.clear();
    }

    /// The key of `fault`.
    fn fault_key(fault: &FaultRecord) -> (r: u128)
        ensures
            r == fault_key_of(*fault),
    {
        let s = fault.stream_id().as_u32() as u128;
        let p = fault.pasid().as_u32() as u128;
        let a = fault.address().as_u64() as u128;
        assert((s << 96u128) | (p << 64u128) | a == s * 0x1_0000_0000_0000_0000_0000_0000 + p
            * 0x1_0000_0000_0000_0000 + a) by (bit_vector)
            requires
                s < 0x1_0000_0000,
                p < 0x1_0000_0000,
                a < 0x1_0000_0000_0000_0000,
        ;
        (s << 96u128) | (p << 64u128) | a
    }
}

impl Default for FaultRecovery {
    /// No state stored.
    fn default() -> (r: FaultRecovery)
        ensures
            r@ == Map::<u128, RecoveryState>::empty(),
    {
        FaultRecovery::new()
    }
}


/// Each retry attempt counts one more retry for the fault, and the attempt gives up exactly
/// when that count reaches the limit; the states of other faults are untouched.
pub proof fn lemma_retry_limit(
    before: Map<u128, RecoveryState>,
    fault: FaultRecord,
    max_attempts: u32,
    now: u64,
    after: Map<u128, RecoveryState>,
    r: RecoveryResult,
)
    requires
        FaultRecovery::attempted(before, fault, RecoveryStrategy::Retry { max_attempts }, now, after, r),
        state_before(before, fault_key_of(fault), now).0 < u32::MAX,
    ensures
        after[fault_key_of(fault)]@.0 == state_before(before, fault_key_of(fault), now).0 + 1,
        r == RecoveryResult::Retry <==> after[fault_key_of(fault)]@.0 < max_attempts,
        r == RecoveryResult::Unrecoverable <==> after[fault_key_of(fault)]@.0 >= max_attempts,
        forall|k: u128| k != fault_key_of(fault) && #[trigger] before.contains_key(k) ==> after[k] == before[k],
{
}

/// Restoring a saved state and saving again gives back the same state.
pub proof fn lemma_restore_then_save(states: Map<u128, RecoveryState>, fault: FaultRecord, state: RecoveryState)
    ensures
        states.insert(fault_key_of(fault), state).contains_key(fault_key_of(fault)),
        states.insert(fault_key_of(fault), state)[fault_key_of(fault)] == state,
{
}

/// The recommendation table: a retry of at most three attempts exactly for translation faults,
/// a remap exactly for access flag faults, and termination for every other fault class.
pub proof fn lemma_recommendation_table(t: FaultType)
    ensures
        (recommended_for(t) == RecoveryStrategy::Retry { max_attempts: 3 }) == (t == FaultType::TranslationFault),
        (recommended_for(t) == RecoveryStrategy::Remap) == (t == FaultType::AccessFlagFault),
        (recommended_for(t) == RecoveryStrategy::Terminate) == (t != FaultType::TranslationFault && t
            != FaultType::AccessFlagFault),
        recommended_for(FaultType::AccessFlagFault) == RecoveryStrategy::Remap,
        recommended_for(FaultType::PermissionFault) == RecoveryStrategy::Terminate,
        recommended_for(FaultType::AddressSizeFault) == RecoveryStrategy::Terminate,
{
}

} // verus!
