//! Events: immutable snapshots of a process's clocks at one occurrence.

use vstd::prelude::*;
use crate::evc::Evc;
use crate::logclock::lc_clone;

verus! {

/// What kind of occurrence an event records.
#[derive(Debug, Clone, Copy, PartialEq, Eq, Structural)]
pub enum EventType {
    Internal,
    Send,
    Receive,
}

/// One occurrence: its bookkeeping id, the process it happened at, and
/// snapshots of that process's three clocks at the time.
#[derive(Debug)]
pub struct Event {
    pub id: usize,
    pub process_id: u64,
    pub vec_clock: Vec<u64>,
    pub encoded_clock: Evc,
    pub log_encoded_clock: astro_float::BigFloat,
    pub event_type: EventType,
}

/// The two events agree on everything but possibly the bookkeeping of the
/// moment: all clocks (the log clock as an opaque value), id, origin and
/// kind.
pub open spec fn same_core(a: Event, b: Event) -> bool {
    &&& a.id == b.id
    &&& a.process_id == b.process_id
    &&& a.vec_clock@ == b.vec_clock@
    &&& a.encoded_clock@ == b.encoded_clock@
    &&& a.log_encoded_clock == b.log_encoded_clock
    &&& a.event_type == b.event_type
}

/// `b` is `a` relabelled with event type `t`, clocks and id untouched.
pub open spec fn relabelled(a: Event, b: Event, t: EventType) -> bool {
    &&& a.id == b.id
    &&& a.process_id == b.process_id
    &&& a.vec_clock@ == b.vec_clock@
    &&& a.encoded_clock@ == b.encoded_clock@
    &&& a.log_encoded_clock == b.log_encoded_clock
    &&& b.event_type == t
}

impl Event {
    /// A fresh snapshot of the given clocks.
    pub fn new(
        event_type: EventType,
        event_id: usize,
        clock: &[u64],
        evc: &Evc,
        log_evc: &astro_float::BigFloat,
        process_id: u64,
    ) -> (r: Event)
        ensures
            r.id == event_id,
            r.process_id == process_id,
            r.vec_clock@ == clock@,
            r.encoded_clock@ == evc@,
            r.log_encoded_clock == *log_evc,
            r.event_type == event_type,
    {
        Event {
            process_id,
            id: event_id,
            vec_clock: vstd::slice::slice_to_vec(clock),
            encoded_clock: evc.clone(),
            log_encoded_clock: lc_clone(log_evc),
            event_type,
        }
    }

    /// The same snapshot under another event type.
    pub fn with_type(&self, t: EventType) -> (r: Event)
        ensures
            relabelled(*self, r, t),
    {
        Event {
            process_id: self.process_id,
            id: self.id,
            vec_clock: crate::copy_vec(&self.vec_clock),
            encoded_clock: self.encoded_clock.clone(),
            log_encoded_clock: lc_clone(&self.log_encoded_clock),
            event_type: t,
        }
    }
}

impl Clone for Event {
    /// Cloning keeps everything the verified logic reads.
    fn clone(&self) -> (r: Self)
        ensures
            same_core(*self, r),
    {
        self.with_type(self.event_type)
    }
}

/// Hands out the globally unique, strictly increasing event ids; the
/// running system owns exactly one, shared by every process.
pub struct EventIdSource {
    pub next_id: usize,
}

impl EventIdSource {
    /// Ids start from zero.
    pub fn new() -> (r: EventIdSource)
        ensures
            r.next_id == 0,
    {
        EventIdSource { next_id: 0 }
    }
}

/// The next unique event id.
pub fn next_event_id(ids: &mut EventIdSource) -> (r: usize)
    requires
        old(ids).next_id < usize::MAX,
    ensures
        r == old(ids).next_id,
        final(ids).next_id == old(ids).next_id + 1,
{
    let r = ids.next_id;
    ids.next_id = ids.next_id + 1;
    r
}

} // verus!
