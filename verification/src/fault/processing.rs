//! Fault processing: in terminate mode a fault is recorded and the transaction aborted, in stall
//! mode it is recorded and queued for software; statistics and an event log are kept either way.

use crate::fault::codec::{decode, decode_events, encode, encode_events};
use crate::fault::queue::FaultQueue;
use crate::types::{FaultMode, FaultRecord, FaultType, PASID, StreamID};
use std::time::Duration;
use vstd::prelude::*;

verus! {

/// Message of the error for bytes that do not hold a valid event list.
pub const MALFORMED_EVENTS: &'static str = "malformed fault event data";

/// Most events kept in the log; older ones are dropped first.
pub const DEFAULT_MAX_EVENTS: usize = 10000;

/// Stall queue size used by `FaultProcessor::new`.
pub const DEFAULT_MAX_STALL_QUEUE: usize = 1000;

/// Why processing a fault did not let the transaction proceed.
#[derive(Debug, Clone, PartialEq, Eq)]
pub enum FaultProcessingError {
    /// The fault was recorded and the transaction terminated.
    Terminated(FaultRecord),
    /// The stall queue was full.
    QueueFull,
    /// No stalled fault was waiting.
    NoStalledFault,
    /// A resume was asked of a processor that does not stall.
    InvalidResume,
    /// Events could not be (de)serialized.
    SerializationError(String),
}

/// The fault as it is recorded: stamped with `now` unless it carries a timestamp already.
pub open spec fn stamped(fault: FaultRecord, now: u64) -> FaultRecord {
    if fault.timestamp == 0 {
        FaultRecord { timestamp: now, ..fault }
    } else {
        fault
    }
}

/// The last `n` elements of `s` (all of them when there are fewer).
pub open spec fn keep_last(s: Seq<FaultRecord>, n: usize) -> Seq<FaultRecord> {
    if s.len() > n {
        s.subrange(s.len() - n, s.len() as int)
    } else {
        s
    }
}

/// Fault counters: total, translation, permission, access flag and address size faults.
pub struct FaultCounts {
    pub total: u64,
    pub translation: u64,
    pub permission: u64,
    pub access_flag: u64,
    pub address_size: u64,
}

/// The counters after one more fault of type `t` (counters wrap).
pub open spec fn counted(c: FaultCounts, t: FaultType) -> FaultCounts {
    FaultCounts {
        total: c.total.wrapping_add(1),
        translation: if t == FaultType::TranslationFault {
            c.translation.wrapping_add(1)
        } else {
            c.translation
        },
        permission: if t == FaultType::PermissionFault {
            c.permission.wrapping_add(1)
        } else {
            c.permission
        },
        access_flag: if t == FaultType::AccessFlagFault {
            c.access_flag.wrapping_add(1)
        } else {
            c.access_flag
        },
        address_size: if t == FaultType::AddressSizeFault {
            c.address_size.wrapping_add(1)
        } else {
            c.address_size
        },
    }
}

/// Selects events of the log.
#[derive(Clone, Copy)]
enum EventFilter {
    Stream(StreamID),
    Pasid(PASID),
    Type(FaultType),
    Window(u64, u64),
}

/// Whether event `e` passes filter `f`.
spec fn passes(f: EventFilter, e: FaultRecord) -> bool {
    match f {
        EventFilter::Stream(s) => e.stream_id == s,
        EventFilter::Pasid(p) => e.pasid == p,
        EventFilter::Type(t) => e.fault_type == t,
        EventFilter::Window(lo, hi) => lo <= e.timestamp <= hi,
    }
}

/// `SystemTime::now().duration_since(UNIX_EPOCH)`, with its error turned into `None`: the time
/// since the epoch as the system clock reads it, or `None` when the clock reads a time before
/// the epoch. Nothing is stated of the value: it is whatever the clock reads.
#[verifier::external_body]
fn clock_since_epoch() -> Option<Duration> {
    std::time::SystemTime::now().duration_since(std::time::UNIX_EPOCH).ok()
}

/// Microseconds since the Unix epoch as the system clock reads them (truncated to 64 bits), or
/// 0 when the clock reads a time before the epoch.
pub(crate) fn clock_micros() -> u64 {
    match clock_since_epoch() {
        Some(d) => micros_of(d),
        None => 0,
    }
}

/// Whole microseconds of a duration, truncated to 64 bits.
pub uninterp spec fn duration_micros(d: Duration) -> u64;

/// `Duration::as_micros`, truncated to 64 bits: the total number of whole microseconds.
#[verifier::external_body]
fn micros_of(d: Duration) -> (r: u64)
    ensures
        r == duration_micros(d),
{
    d.as_micros() as u64
}

/// Handles faults in terminate or stall mode, keeping an event log and counters.
#[derive(Debug)]
pub struct FaultProcessor {
    mode: FaultMode,
    events: Vec<FaultRecord>,
    stall_queue: Option<FaultQueue>,
    total_faults: u64,
    translation_faults: u64,
    permission_faults: u64,
    access_faults: u64,
    address_size_faults: u64,
    max_events: usize,
    max_stall_queue: usize,
}

impl FaultProcessor {
    /// The fault handling mode.
    pub closed spec fn mode(&self) -> FaultMode {
        self.mode
    }

    /// The event log, oldest first.
    pub closed spec fn events(&self) -> Seq<FaultRecord> {
        self.events@
    }

    /// The stall queue (its faults and capacity); only a stalling processor has one.
    pub closed spec fn stall_queue(&self) -> Option<(Seq<FaultRecord>, usize)> {
        match self.stall_queue {
            Some(q) => Some(q@),
            None => None,
        }
    }

    /// The fault counters.
    pub closed spec fn counts(&self) -> FaultCounts {
        FaultCounts {
            total: self.total_faults,
            translation: self.translation_faults,
            permission: self.permission_faults,
            access_flag: self.access_faults,
            address_size: self.address_size_faults,
        }
    }

    /// Most events kept in the log.
    pub closed spec fn max_events(&self) -> usize {
        self.max_events
    }

    /// A processor with the default stall queue size.
    pub fn new(mode: FaultMode) -> (r: FaultProcessor)
        ensures
            r.mode() == mode,
            r.events() == Seq::<FaultRecord>::empty(),
            r.stall_queue() == if mode == FaultMode::Stall {
                Some((Seq::<FaultRecord>::empty(), DEFAULT_MAX_STALL_QUEUE))
            } else {
                None
            },
            r.counts() == (FaultCounts { total: 0, translation: 0, permission: 0, access_flag: 0, address_size: 0 }),
            r.max_events() == DEFAULT_MAX_EVENTS,
    {
        Self::with_config(mode, DEFAULT_MAX_STALL_QUEUE)
    }

    /// A processor whose stall queue, in stall mode, holds at most `max_stall_queue` faults.
    pub fn with_config(mode: FaultMode, max_stall_queue: usize) -> (r: FaultProcessor)
        ensures
            r.mode() == mode,
            r.events() == Seq::<FaultRecord>::empty(),
            r.stall_queue() == if mode == FaultMode::Stall {
                Some((Seq::<FaultRecord>::empty(), max_stall_queue))
            } else {
                None
            },
            r.counts() == (FaultCounts { total: 0, translation: 0, permission: 0, access_flag: 0, address_size: 0 }),
            r.max_events() == DEFAULT_MAX_EVENTS,
    {
        let stall_queue = if mode == FaultMode::Stall {
            Some(FaultQueue::new(max_stall_queue))
        } else {
            None
        };
        FaultProcessor {
            mode,
            events: Vec::new(),
            stall_queue,
            total_faults: 0,
            translation_faults: 0,
            permission_faults: 0,
            access_faults: 0,
            address_size_faults: 0,
            max_events: DEFAULT_MAX_EVENTS,
            max_stall_queue,
        }
    }

    /// Processes `fault` as `process_fault_at` does, with the current time as `now`.
    pub fn process_fault(&mut self, fault: FaultRecord) -> (r: Result<(), FaultProcessingError>)
        ensures
            exists|now: u64| Self::processed(*old(self), fault, now, *final(self), r),
    {
        let now = self.get_current_timestamp();
        self.process_fault_at(fault, now)
    }

    /// What processing `fault` at time `now` does: the stamped fault is counted and logged (the
    /// log keeps its last `max_events` entries); in terminate mode the result is
    /// `Terminated(fault)`; in stall mode the fault is queued, or `QueueFull` returned when the
    /// queue is full.
    pub open spec fn processed(
        before: FaultProcessor,
        fault: FaultRecord,
        now: u64,
        after: FaultProcessor,
        r: Result<(), FaultProcessingError>,
    ) -> bool {
        let f = stamped(fault, now);
        &&& after.mode() == before.mode()
        &&& after.max_events() == before.max_events()
        &&& after.counts() == counted(before.counts(), f.fault_type)
        &&& after.events() == keep_last(before.events().push(f), before.max_events())
        &&& match before.mode() {
            FaultMode::Terminate => {
                &&& r == Err::<(), FaultProcessingError>(FaultProcessingError::Terminated(f))
                &&& after.stall_queue() == before.stall_queue()
            },
            FaultMode::Stall => match before.stall_queue() {
                Some((q, cap)) => if q.len() >= cap {
                    &&& r == Err::<(), FaultProcessingError>(FaultProcessingError::QueueFull)
                    &&& after.stall_queue() == before.stall_queue()
                } else {
                    &&& r == Ok::<(), FaultProcessingError>(())
                    &&& after.stall_queue() == Some((q.push(f), cap))
                },
                None => {
                    &&& r == Err::<(), FaultProcessingError>(FaultProcessingError::Terminated(f))
                    &&& after.stall_queue() == before.stall_queue()
                },
            },
        }
    }

    /// Processes `fault`, stamping it with `now` when it carries no timestamp.
    pub fn process_fault_at(&mut self, fault: FaultRecord, now: u64) -> (r: Result<(), FaultProcessingError>)
        ensures
            Self::processed(*old(self), fault, now, *final(self), r),
    {
        let fault = if fault.timestamp() == 0 {
            FaultRecord::builder().stream_id(fault.stream_id()).pasid(fault.pasid()).address(fault.address()).fault_type(
                fault.fault_type(),
            ).access_type(fault.access_type()).security_state(fault.security_state()).syndrome(
                *fault.syndrome(),
            ).timestamp(now).build()
        } else {
            fault
        };
        self.update_statistics(&fault);
        self.record_event(fault);
        match self.mode {
            FaultMode::Terminate => Err(FaultProcessingError::Terminated(fault)),
            FaultMode::Stall => {
                match &mut self.stall_queue {
                    Some(queue) => {
                        match queue.push(fault) {
                            Ok(()) => Ok(()),
                            Err(_) => Err(FaultProcessingError::QueueFull),
                        }
                    },
                    None => Err(FaultProcessingError::Terminated(fault)),
                }
            },
        }
    }

    /// Removes and returns the oldest stalled fault; a processor without stall queue has none.
    pub fn get_next_stalled_fault(&mut self) -> (r: Option<FaultRecord>)
        ensures
            final(self).mode() == old(self).mode(),
            final(self).events() == old(self).events(),
            final(self).counts() == old(self).counts(),
            final(self).max_events() == old(self).max_events(),
            match old(self).stall_queue() {
                Some((q, cap)) => if q.len() == 0 {
                    r == None::<FaultRecord> && final(self).stall_queue() == old(self).stall_queue()
                } else {
                    r == Some(q[0]) && final(self).stall_queue() == Some((q.drop_first(), cap))
                },
                None => r == None::<FaultRecord> && final(self).stall_queue() == old(self).stall_queue(),
            },
    {
        match &mut self.stall_queue {
            Some(q) => q.pop(),
            None => None,
        }
    }

    /// Accepts the resumption of a stalled fault; only a stalling processor accepts it.
    pub fn resume_stalled_fault(&self, fault: FaultRecord, success: bool) -> (r: Result<(), FaultProcessingError>)
        ensures
            self.mode() == FaultMode::Stall ==> r == Ok::<(), FaultProcessingError>(()),
            self.mode() != FaultMode::Stall ==> r == Err::<(), FaultProcessingError>(
                FaultProcessingError::InvalidResume,
            ),
    {
        if self.mode != FaultMode::Stall {
            return Err(FaultProcessingError::InvalidResume);
        }
        Ok(())
    }

    /// The event log, oldest first.
    pub fn get_events(&self) -> (r: Vec<FaultRecord>)
        ensures
            r@ == self.events(),
    {
        let mut out: Vec<FaultRecord> = Vec::new();
        let mut i: usize = 0;
        while i < self.events.len()
            invariant
                i <= self.events@.len(),
                out@ == self.events@.take(i as int),
            decreases self.events@.len() - i,
        {
            out.push(self.events[i]);
            assert(out@ =~= self.events@.take(i + 1));
            i = i + 1;
        }
        assert(out@ =~= self.events@);
        out
    }

    /// The logged events that pass `filter`, oldest first.
    fn select(&self, filter: EventFilter) -> (r: Vec<FaultRecord>)
        ensures
            r@ == self.events().filter(|e: FaultRecord| passes(filter, e)),
    {
        let ghost pred = |e: FaultRecord| passes(filter, e);
        let mut out: Vec<FaultRecord> = Vec::new();
        let mut i: usize = 0;
        while i < self.events.len()
            invariant
                i <= self.events@.len(),
                pred == (|e: FaultRecord| passes(filter, e)),
                out@ == self.events@.take(i as int).filter(pred),
            decreases self.events@.len() - i,
        {
            let e = self.events[i];
            proof {
                self.events@.take(i as int).lemma_filter_push(e, pred);
                assert(self.events@.take(i + 1) =~= self.events@.take(i as int).push(e));
            }
            let keep = match filter {
                EventFilter::Stream(s) => e.stream_id() == s,
                EventFilter::Pasid(p) => e.pasid() == p,
                EventFilter::Type(t) => e.fault_type() == t,
                EventFilter::Window(lo, hi) => e.timestamp() >= lo && e.timestamp() <= hi,
            };
            if keep {
                out.push(e);
            }
            i = i + 1;
        }
        assert(self.events@.take(self.events@.len() as int) =~= self.events@);
        out
    }

    /// The logged events of `stream_id`, oldest first.
    pub fn get_events_by_stream(&self, stream_id: StreamID) -> (r: Vec<FaultRecord>)
        ensures
            r@ == self.events().filter(|e: FaultRecord| e.stream_id == stream_id),
    {
        let r = self.select(EventFilter::Stream(stream_id));
        assert((|e: FaultRecord| passes(EventFilter::Stream(stream_id), e)) =~= (|e: FaultRecord|
            e.stream_id == stream_id));
        r
    }

    /// The logged events of `pasid`, oldest first.
    pub fn get_events_by_pasid(&self, pasid: PASID) -> (r: Vec<FaultRecord>)
        ensures
            r@ == self.events().filter(|e: FaultRecord| e.pasid == pasid),
    {
        let r = self.select(EventFilter::Pasid(pasid));
        assert((|e: FaultRecord| passes(EventFilter::Pasid(pasid), e)) =~= (|e: FaultRecord| e.pasid == pasid));
        r
    }

    /// The logged events of type `fault_type`, oldest first.
    pub fn get_events_by_type(&self, fault_type: FaultType) -> (r: Vec<FaultRecord>)
        ensures
            r@ == self.events().filter(|e: FaultRecord| e.fault_type == fault_type),
    {
        let r = self.select(EventFilter::Type(fault_type));
        assert((|e: FaultRecord| passes(EventFilter::Type(fault_type), e)) =~= (|e: FaultRecord|
            e.fault_type == fault_type));
        r
    }

    /// The logged events stamped within `window_us` microseconds up to `current_time`
    /// (inclusive at both ends; the window starts at 0 when it reaches back further).
    pub fn get_events_in_window_us(&self, current_time: u64, window_us: u64) -> (r: Vec<FaultRecord>)
        ensures
            r@ == self.events().filter(
                |e: FaultRecord|
                    current_time.saturating_sub(window_us) <= e.timestamp && e.timestamp <= current_time,
            ),
    {
        let start_time = current_time.saturating_sub(window_us);
        let r = self.select(EventFilter::Window(start_time, current_time));
        assert((|e: FaultRecord| passes(EventFilter::Window(start_time, current_time), e)) =~= (|e: FaultRecord|
            current_time.saturating_sub(window_us) <= e.timestamp && e.timestamp <= current_time));
        r
    }

    /// The logged events stamped within `window` up to `current_time` (microseconds), as
    /// `get_events_in_window_us` selects them.
    pub fn get_events_in_window(&self, current_time: u64, window: Duration) -> (r: Vec<FaultRecord>)
        ensures
            r@ == self.events().filter(
                |e: FaultRecord|
                    current_time.saturating_sub(duration_micros(window)) <= e.timestamp && e.timestamp
                        <= current_time,
            ),
    {
        let window_us = micros_of(window);
        self.get_events_in_window_us(current_time, window_us)
    }

    /// The stalled faults, oldest first, left in the queue.
    pub fn get_queued_faults(&self) -> (r: Vec<FaultRecord>)
        ensures
            match self.stall_queue() {
                Some((q, cap)) => r@ == q,
                None => r@ == Seq::<FaultRecord>::empty(),
            },
    {
        match &self.stall_queue {
            Some(q) => q.get_all(),
            None => Vec::new(),
        }
    }

    /// Number of stalled faults.
    pub fn get_queued_fault_count(&self) -> (r: usize)
        ensures
            match self.stall_queue() {
                Some((q, cap)) => r == q.len(),
                None => r == 0,
            },
    {
        match &self.stall_queue {
            Some(q) => q.len(),
            None => 0,
        }
    }

    /// Number of logged events.
    pub fn get_fault_count(&self) -> (r: usize)
        ensures
            r == self.events().len(),
    {
        self.events.len()
    }

    /// Faults processed so far (wrapping).
    pub fn get_total_fault_count(&self) -> (r: u64)
        ensures
            r == self.counts().total,
    {
        self.total_faults
    }

    /// Translation faults processed so far (wrapping).
    pub fn get_translation_fault_count(&self) -> (r: u64)
        ensures
            r == self.counts().translation,
    {
        self.translation_faults
    }

    /// Permission faults processed so far (wrapping).
    pub fn get_permission_fault_count(&self) -> (r: u64)
        ensures
            r == self.counts().permission,
    {
        self.permission_faults
    }

    /// Number of logged events of type `fault_type`.
    pub fn get_fault_count_by_type(&self, fault_type: FaultType) -> (r: usize)
        ensures
            r == self.events().filter(|e: FaultRecord| e.fault_type == fault_type).len(),
    {
        let selected = self.get_events_by_type(fault_type);
        selected.len()
    }

    /// `events` in the byte format of `fault::codec`: each record's bytes, one after another.
    pub fn serialize_events(&self, events: &[FaultRecord]) -> (r: Vec<u8>)
        ensures
            r@ == encode_events(events@),
    {
        encode(events)
    }

    /// The events that `data` holds in the byte format of `fault::codec`; a
    /// `SerializationError` when its length is not a whole number of records or a record holds
    /// an invalid enumeration or flag byte. Deserializing serialized events gives them back
    /// (`lemma_events_round_trip`).
    pub fn deserialize_events(&self, data: &[u8]) -> (r: Result<Vec<FaultRecord>, FaultProcessingError>)
        ensures
            match decode_events(data@) {
                Some(s) => r is Ok && r->Ok_0@ == s,
                None => r is Err && r->Err_0 is SerializationError && r->Err_0->SerializationError_0@
                    == MALFORMED_EVENTS@,
            },
    {
        match decode(data) {
            Some(events) => Ok(events),
            None => Err(FaultProcessingError::SerializationError(String::from_str(MALFORMED_EVENTS))),
        }
    }

    /// Microseconds since the Unix epoch, as the system clock reads them (0 when the clock
    /// reads a time before the epoch).
    pub fn get_current_timestamp(&self) -> u64 {
        clock_micros()
    }

    /// Appends `fault` to the log, dropping the oldest entries beyond `max_events`.
    fn record_event(&mut self, fault: FaultRecord)
        ensures
            final(self).events() == keep_last(old(self).events().push(fault), old(self).max_events()),
            final(self).mode() == old(self).mode(),
            final(self).max_events() == old(self).max_events(),
            final(self).counts() == old(self).counts(),
            final(self).stall_queue() == old(self).stall_queue(),
    {
        let ghost all = self.events@.push(fault);
        self.events.push(fault);
        let ghost mut dropped: int = 0;
        while self.events.len() > self.max_events
            invariant
                0 <= dropped <= all.len(),
                self.events@ == all.subrange(dropped, all.len() as int),
                self.max_events == old(self).max_events,
                self.mode == old(self).mode,
                self.counts() == old(self).counts(),
                self.stall_queue() == old(self).stall_queue(),
                dropped > 0 ==> all.len() - dropped >= self.max_events,
            decreases self.events@.len(),
        {
            self.events.remove(0);
            proof {
                dropped = dropped + 1;
            }
            assert(self.events@ =~= all.subrange(dropped, all.len() as int));
        }
        assert(self.events@ =~= keep_last(all, self.max_events));
    }

    /// Counts `fault` in the statistics.
    fn update_statistics(&mut self, fault: &FaultRecord)
        ensures
            final(self).counts() == counted(old(self).counts(), fault.fault_type),
            final(self).events() == old(self).events(),
            final(self).mode() == old(self).mode(),
            final(self).max_events() == old(self).max_events(),
            final(self).stall_queue() == old(self).stall_queue(),
    {
        self.total_faults = self.total_faults.wrapping_add(1);
        match fault.fault_type() {
            FaultType::TranslationFault => {
                self.translation_faults = self.translation_faults.wrapping_add(1);
            },
            FaultType::PermissionFault => {
                self.permission_faults = self.permission_faults.wrapping_add(1);
            },
            FaultType::AccessFlagFault => {
                self.access_faults = self.access_faults.wrapping_add(1);
            },
            FaultType::AddressSizeFault => {
                self.address_size_faults = self.address_size_faults.wrapping_add(1);
            },
            _ => {},
        }
    }
}


/// The event log never holds more than `max_events` entries, and a processed fault is always
/// its newest entry (as long as the log keeps anything at all); the stall queue never holds
/// more than its capacity.
pub proof fn lemma_processing_bounded(
    before: FaultProcessor,
    fault: FaultRecord,
    now: u64,
    after: FaultProcessor,
    r: Result<(), FaultProcessingError>,
)
    requires
        FaultProcessor::processed(before, fault, now, after, r),
        match before.stall_queue() {
            Some((q, cap)) => q.len() <= cap,
            None => true,
        },
    ensures
        after.events().len() <= after.max_events(),
        after.max_events() > 0 ==> after.events().last() == stamped(fault, now),
        match after.stall_queue() {
            Some((q, cap)) => q.len() <= cap,
            None => true,
        },
{
}

} // verus!
