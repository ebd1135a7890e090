//! The per-process clock engine and event generator.
//!
//! A process owns a vector clock, an encoded clock (the product of one
//! prime per tick, merged by lcm) and a log-domain approximation of the
//! encoded clock. Each step — an internal tick, a send, or a merge on
//! receive — updates all three and says which events to publish; the
//! channels that carry them belong to the caller.

use vstd::prelude::*;
use crate::collector::Message;
use crate::collector::ToPair;
use crate::config::Config;
use crate::evc::Evc;
use crate::evc::evc_gcd;
use crate::evc::evc_lcm;
use crate::evc::evc_mul_u64;
use crate::event::Event;
use crate::event::EventIdSource;
use crate::event::EventType;
use crate::event::next_event_id;
use crate::event::relabelled;
use crate::logclock::lc_add;
use crate::logclock::lc_exp2;
use crate::logclock::lc_round_to_evc;
use crate::logclock::lc_log2_evc;
use crate::logclock::lc_sub;
use crate::logclock::lc_zero;
use crate::numbers::lcm;
use crate::numbers::lemma_lcm_bounds;
use crate::numbers::lemma_tick_grows;
use crate::pick::choose_index;

verus! {

/// What one step asks the caller to do: forward an event to the
/// dispatcher, and hand messages to the collector.
pub struct Output {
    pub to_dispatch: Option<Event>,
    pub to_collector: Vec<Message>,
}

/// Pointwise comparison of vector clocks: no component of `a` exceeds the
/// matching component of `b`.
pub open spec fn vc_le(a: Seq<u64>, b: Seq<u64>) -> bool {
    a.len() == b.len() && forall|k: int| 0 <= k < a.len() ==> a[k] <= b[k]
}

/// A vector-clock tick at index `i`: that component steps by one, the
/// rest stay.
pub open spec fn vc_ticked(pre: Seq<u64>, post: Seq<u64>, i: int) -> bool {
    &&& post.len() == pre.len()
    &&& post[i] == pre[i] + 1
    &&& forall|k: int| 0 <= k < pre.len() && k != i ==> post[k] == pre[k]
}

/// A vector-clock merge at index `i`: pointwise maximum with the incoming
/// snapshot `inc`, then a step of component `i`.
pub open spec fn vc_merged(pre: Seq<u64>, inc: Seq<u64>, post: Seq<u64>, i: int) -> bool {
    &&& post.len() == pre.len()
    &&& post[i] == vstd::math::max(pre[i] as int, inc[i] as int) + 1
    &&& forall|k: int|
        0 <= k < pre.len() && k != i ==> post[k] == vstd::math::max(pre[k] as int, inc[k] as int)
}

/// Vector-clock time only moves forward: chaining any two non-decreasing
/// transitions is again non-decreasing, so along every sequence of ticks
/// and merges each component of a process's vector clock is
/// non-decreasing.
pub proof fn lemma_vc_le_transitive(a: Seq<u64>, b: Seq<u64>, c: Seq<u64>)
    requires
        vc_le(a, b),
        vc_le(b, c),
    ensures
        vc_le(a, c),
{
}

/// One simulated process: its identity, its assigned prime, its three
/// clocks, and the run configuration.
#[derive(Debug)]
pub struct Process {
    pub id: u64,
    pub prime: u64,
    pub vec_clock: Vec<u64>,
    pub evc: Evc,
    pub log_evc: astro_float::BigFloat,
    pub config: Config,
}

impl Process {
    /// A healthy process: a valid configuration, an id inside the process
    /// range, a vector clock of full width, a real prime, and a positive
    /// encoded clock.
    pub open spec fn wf(self) -> bool {
        &&& self.config.valid()
        &&& (self.id as int) < self.config.num_processes as int
        &&& self.vec_clock@.len() == self.config.num_processes as nat
        &&& self.prime >= 2
        &&& self.evc@ >= 1
    }

    /// Identity, prime and configuration never change after construction.
    pub open spec fn frame(pre: Process, post: Process) -> bool {
        &&& post.id == pre.id
        &&& post.prime == pre.prime
        &&& post.config == pre.config
    }

    /// A local tick: the own component of the vector clock steps by one,
    /// the rest stay, and the encoded clock is multiplied by the own
    /// prime.
    pub open spec fn clocks_ticked(pre: Process, post: Process) -> bool {
        &&& vc_ticked(pre.vec_clock@, post.vec_clock@, pre.id as int)
        &&& post.evc@ == pre.evc@ * pre.prime as nat
    }

    /// A merge on receive: pointwise maximum with the incoming snapshot,
    /// then a step of the own component; the encoded clock becomes the lcm
    /// of the two encoded clocks.
    pub open spec fn clocks_merged(pre: Process, inc: Event, post: Process) -> bool {
        &&& vc_merged(pre.vec_clock@, inc.vec_clock@, post.vec_clock@, pre.id as int)
        &&& post.evc@ == lcm(pre.evc@, inc.encoded_clock@)
    }

    /// `e` is a snapshot of this process's clocks under event type `t`
    /// with event id `eid`.
    pub open spec fn snapshot_of(self, e: Event, t: EventType, eid: int) -> bool {
        &&& e.process_id == self.id
        &&& e.vec_clock@ == self.vec_clock@
        &&& e.encoded_clock@ == self.evc@
        &&& e.log_encoded_clock == self.log_evc
        &&& e.event_type == t
        &&& e.id == eid
    }

    /// What an internal tick publishes: one `Data` snapshot to the
    /// collector, nothing to the dispatcher.
    pub open spec fn internal_output(self, o: Output, eid: int) -> bool {
        &&& o.to_dispatch is None
        &&& o.to_collector@.len() == 1
        &&& o.to_collector@[0] matches Message::Data(e) && self.snapshot_of(
            e,
            EventType::Internal,
            eid,
        )
    }

    /// What a send publishes: the same snapshot to the dispatcher and as
    /// `Data` to the collector.
    pub open spec fn send_output(self, o: Output, eid: int) -> bool {
        &&& o.to_dispatch matches Some(d) && self.snapshot_of(d, EventType::Send, eid)
        &&& o.to_collector@.len() == 1
        &&& o.to_collector@[0] matches Message::Data(e) && self.snapshot_of(
            e,
            EventType::Send,
            eid,
        )
    }

    /// What a receive publishes: the send-side reconstruction of the
    /// incoming event paired with a fresh receive snapshot, plus the
    /// reconstruction as `Data`.
    pub open spec fn receive_output(self, inc: Event, o: Output, eid: int) -> bool {
        &&& o.to_dispatch is None
        &&& o.to_collector@.len() == 2
        &&& o.to_collector@[0] matches Message::Pair(p) && relabelled(inc, p.send, EventType::Send)
            && self.snapshot_of(p.receive, EventType::Receive, eid)
        &&& o.to_collector@[1] matches Message::Data(e) && relabelled(inc, e, EventType::Send)
    }

    /// A process starts with vector clock 1 at its own index and 0
    /// elsewhere, encoded clock 1, and log clock 0.
    pub fn new(id: u64, prime: u64, config: Config) -> (r: Process)
        requires
            config.valid(),
            (id as int) < config.num_processes as int,
            prime >= 2,
        ensures
            r.wf(),
            r.id == id,
            r.prime == prime,
            r.config == config,
            r.evc@ == 1,
            r.vec_clock@.len() == config.num_processes as nat,
            r.vec_clock@[id as int] == 1,
            forall|k: int|
                0 <= k < config.num_processes as int && k != id as int ==> r.vec_clock@[k] == 0,
    {
        let mut vec_clock: Vec<u64> = Vec::new();
        let mut j: usize = 0;
        while j < config.num_processes
            invariant
                0 <= j <= config.num_processes,
                vec_clock@.len() == j as nat,
                forall|k: int| 0 <= k < j ==> vec_clock@[k] == 0,
            decreases config.num_processes - j,
        {
            vec_clock.push(0);
            j += 1;
        }
        vec_clock[id as usize] = 1;
        Process {
            id,
            prime,
            vec_clock,
            evc: Evc::one(),
            log_evc: lc_zero(config.float_precision),
            config,
        }
    }

    /// A fresh snapshot of the current clocks, with the next unique id.
    pub fn create_event(&self, event_type: EventType, ids: &mut EventIdSource) -> (r: Event)
        requires
            old(ids).next_id < usize::MAX,
        ensures
            self.snapshot_of(r, event_type, old(ids).next_id as int),
            final(ids).next_id == old(ids).next_id + 1,
    {
        let eid = next_event_id(ids);
        Event::new(event_type, eid, self.vec_clock.as_slice(), &self.evc, &self.log_evc, self.id)
    }

    /// The vector-clock transition: a tick of the own component, after a
    /// pointwise maximum with the incoming snapshot when the event is a
    /// receive. Every component is non-decreasing and the own component
    /// strictly grows.
    pub fn update_vector_clock(&mut self, event: &Event)
        requires
            old(self).wf(),
            old(self).vec_clock@[old(self).id as int] < u64::MAX,
            event.event_type == EventType::Receive ==> event.vec_clock@.len() == old(
                self,
            ).vec_clock@.len() && event.vec_clock@[old(self).id as int] < u64::MAX,
        ensures
            Process::frame(*old(self), *final(self)),
            final(self).evc == old(self).evc,
            final(self).log_evc == old(self).log_evc,
            final(self).wf(),
            event.event_type == EventType::Receive ==> vc_merged(
                old(self).vec_clock@,
                event.vec_clock@,
                final(self).vec_clock@,
                old(self).id as int,
            ),
            event.event_type != EventType::Receive ==> vc_ticked(
                old(self).vec_clock@,
                final(self).vec_clock@,
                old(self).id as int,
            ),
            vc_le(old(self).vec_clock@, final(self).vec_clock@),
            final(self).vec_clock@[old(self).id as int] > old(self).vec_clock@[old(self).id as int],
    {
        let i = self.id as usize;
        match event.event_type {
            EventType::Receive => {
                let ghost pre = *self;
                let mut k: usize = 0;
                while k < self.vec_clock.len()
                    invariant
                        0 <= k <= self.vec_clock@.len(),
                        self.vec_clock@.len() == pre.vec_clock@.len(),
                        event.vec_clock@.len() == pre.vec_clock@.len(),
                        self.id == pre.id,
                        self.prime == pre.prime,
                        self.config == pre.config,
                        self.evc == pre.evc,
                        self.log_evc == pre.log_evc,
                        forall|j: int|
                            0 <= j < k ==> self.vec_clock@[j] == vstd::math::max(
                                pre.vec_clock@[j] as int,
                                event.vec_clock@[j] as int,
                            ),
                        forall|j: int|
                            k <= j < pre.vec_clock@.len() ==> self.vec_clock@[j]
                                == pre.vec_clock@[j],
                    decreases self.vec_clock@.len() - k,
                {
                    if event.vec_clock[k] > self.vec_clock[k] {
                        self.vec_clock[k] = event.vec_clock[k];
                    }
                    k += 1;
                }
                self.vec_clock[i] = self.vec_clock[i] + 1;
            },
            _ => {
                self.vec_clock[i] = self.vec_clock[i] + 1;
            },
        }
    }

    /// The encoded-clock transition: multiply by the own prime on a tick,
    /// take the least common multiple on a receive. The clock never
    /// shrinks, and strictly grows on a tick.
    pub fn update_encoded_clock(&self, event: &Event) -> (r: Evc)
        requires
            self.wf(),
            event.event_type == EventType::Receive ==> event.encoded_clock@ >= 1,
        ensures
            event.event_type == EventType::Receive ==> r@ == lcm(self.evc@, event.encoded_clock@)
                && r@ >= self.evc@ && r@ >= event.encoded_clock@,
            event.event_type != EventType::Receive ==> r@ == self.evc@ * self.prime as nat && r@
                > self.evc@,
            r@ >= 1,
    {
        match event.event_type {
            EventType::Receive => {
                let r = evc_lcm(&self.evc, &event.encoded_clock);
                proof {
                    lemma_lcm_bounds(self.evc@, event.encoded_clock@);
                }
                r
            },
            _ => {
                let r = evc_mul_u64(&self.evc, self.prime);
                proof {
                    lemma_tick_grows(self.evc@, self.prime as nat);
                }
                r
            },
        }
    }

    /// The log-encoded-clock transition: add `log2(prime)` on a tick; on a
    /// receive, add the incoming log clock and subtract the log of the gcd
    /// of the two rounded anti-logarithms. The float is approximate by
    /// design, so nothing is claimed of its value; `None` reports a
    /// breakdown of the anti-logarithm (a non-finite float), which the
    /// caller treats as fatal.
    pub fn update_log_encoded_clock(&self, event: &Event) -> (r: Option<astro_float::BigFloat>)
        requires
            self.wf(),
        ensures
            event.event_type != EventType::Receive ==> r is Some,
    {
        let prec = self.config.float_precision;
        match event.event_type {
            EventType::Receive => {
                let a = match lc_round_to_evc(&lc_exp2(&self.log_evc, prec)) {
                    Some(x) => x,
                    None => {
                        return None;
                    },
                };
                let b = match lc_round_to_evc(&lc_exp2(&event.log_encoded_clock, prec)) {
                    Some(x) => x,
                    None => {
                        return None;
                    },
                };
                let g = evc_gcd(&a, &b);
                if g.is_zero() {
                    return None;
                }
                let lg = lc_log2_evc(&g, prec);
                let sum = lc_add(&self.log_evc, &event.log_encoded_clock, prec);
                Some(lc_sub(&sum, &lg, prec))
            },
            _ => {
                let p = Evc::from_u64(self.prime);
                let lp = lc_log2_evc(&p, prec);
                Some(lc_add(&self.log_evc, &lp, prec))
            },
        }
    }

    /// The main transition: update all three clocks for the given event,
    /// then publish the matching snapshots. `None` reports a log-clock
    /// breakdown (possible only on a receive) and leaves everything
    /// untouched.
    pub fn handle_event(&mut self, event: Event, ids: &mut EventIdSource) -> (out: Option<Output>)
        requires
            old(self).wf(),
            old(self).vec_clock@[old(self).id as int] < u64::MAX,
            old(ids).next_id < usize::MAX,
            event.event_type == EventType::Receive ==> event.vec_clock@.len() == old(
                self,
            ).vec_clock@.len() && event.vec_clock@[old(self).id as int] < u64::MAX
                && event.encoded_clock@ >= 1,
        ensures
            final(self).wf(),
            Process::frame(*old(self), *final(self)),
            vc_le(old(self).vec_clock@, final(self).vec_clock@),
            event.event_type != EventType::Receive ==> out is Some,
            out is None ==> *final(self) == *old(self) && *final(ids) == *old(ids),
            out matches Some(o) ==> final(ids).next_id == old(ids).next_id + 1 && (
            match event.event_type {
                EventType::Internal => Process::clocks_ticked(*old(self), *final(self)) && final(self).internal_output(o, old(ids).next_id as int),
                EventType::Send => Process::clocks_ticked(*old(self), *final(self)) && final(self).send_output(o, old(ids).next_id as int),
                EventType::Receive => Process::clocks_merged(*old(self), event, *final(self))
                    && final(self).receive_output(event, o, old(ids).next_id as int),
            }),
    {
        let new_log = match self.update_log_encoded_clock(&event) {
            Some(l) => l,
            None => {
                return None;
            },
        };
        let new_evc = self.update_encoded_clock(&event);
        self.update_vector_clock(&event);
        self.evc = new_evc;
        self.log_evc = new_log;
        match event.event_type {
            EventType::Internal => Some(self.handle_internal(ids)),
            EventType::Send => Some(self.handle_message(ids)),
            EventType::Receive => Some(self.handle_receive(event, ids)),
        }
    }

    /// Publish an internal event: a snapshot to the collector only.
    fn handle_internal(&self, ids: &mut EventIdSource) -> (o: Output)
        requires
            old(ids).next_id < usize::MAX,
        ensures
            self.internal_output(o, old(ids).next_id as int),
            final(ids).next_id == old(ids).next_id + 1,
    {
        let e = self.create_event(EventType::Internal, ids);
        let mut msgs: Vec<Message> = Vec::new();
        msgs.push(Message::Data(e));
        Output { to_dispatch: None, to_collector: msgs }
    }

    /// Publish a send event: the snapshot goes to the dispatcher for
    /// routing and to the collector as data.
    fn handle_message(&self, ids: &mut EventIdSource) -> (o: Output)
        requires
            old(ids).next_id < usize::MAX,
        ensures
            self.send_output(o, old(ids).next_id as int),
            final(ids).next_id == old(ids).next_id + 1,
    {
        let e = self.create_event(EventType::Send, ids);
        let d = e.clone();
        let mut msgs: Vec<Message> = Vec::new();
        msgs.push(Message::Data(e));
        Output { to_dispatch: Some(d), to_collector: msgs }
    }

    /// Publish a receive: reconstruct the send side of the pairing from
    /// the incoming event, snapshot the merged clocks as the receive side,
    /// and hand the pair plus the reconstruction to the collector.
    fn handle_receive(&self, event: Event, ids: &mut EventIdSource) -> (o: Output)
        requires
            old(ids).next_id < usize::MAX,
        ensures
            self.receive_output(event, o, old(ids).next_id as int),
            final(ids).next_id == old(ids).next_id + 1,
    {
        let send_recon = event.with_type(EventType::Send);
        let receive_event = self.create_event(EventType::Receive, ids);
        let pair = send_recon.clone().make_pair(receive_event);
        let mut msgs: Vec<Message> = Vec::new();
        msgs.push(Message::Pair(pair));
        msgs.push(Message::Data(send_recon));
        Output { to_dispatch: None, to_collector: msgs }
    }

    /// When no message arrived in time, flip a fair coin between a send
    /// and an internal event and perform that tick. Two event ids are
    /// consumed: one by the pre-update snapshot that seeds the transition,
    /// one by the published event.
    fn generate_event(&mut self, ids: &mut EventIdSource) -> (out: Output)
        requires
            old(self).wf(),
            old(self).vec_clock@[old(self).id as int] < u64::MAX,
            old(ids).next_id + 2 <= usize::MAX,
        ensures
            final(self).wf(),
            Process::frame(*old(self), *final(self)),
            Process::clocks_ticked(*old(self), *final(self)),
            vc_le(old(self).vec_clock@, final(self).vec_clock@),
            final(ids).next_id == old(ids).next_id + 2,
            final(self).internal_output(out, old(ids).next_id + 1) || final(self).send_output(
                out,
                old(ids).next_id + 1,
            ),
    {
        let c = choose_index(2);
        let t = if c == 0 {
            EventType::Send
        } else {
            EventType::Internal
        };
        let pre_event = self.create_event(t, ids);
        match self.handle_event(pre_event, ids) {
            Some(o) => o,
            None => {
                proof {
                    assert(false);
                }
                vstd::pervasive::unreached()
            },
        }
    }

    /// One turn of the process's run loop: merge a delivered event, or
    /// generate one on timeout. The caller performs the publishing that
    /// the returned `Output` asks for; `None` reports a log-clock
    /// breakdown on a merge, on which the caller aborts as on a defect.
    pub fn handle_dispatch(&mut self, inbound: Option<Event>, ids: &mut EventIdSource) -> (out:
        Option<Output>)
        requires
            old(self).wf(),
            old(self).vec_clock@[old(self).id as int] < u64::MAX,
            old(ids).next_id + 2 <= usize::MAX,
            inbound matches Some(ev) ==> ev.vec_clock@.len() == old(self).vec_clock@.len()
                && ev.vec_clock@[old(self).id as int] < u64::MAX && ev.encoded_clock@ >= 1,
        ensures
            final(self).wf(),
            Process::frame(*old(self), *final(self)),
            vc_le(old(self).vec_clock@, final(self).vec_clock@),
            inbound is None ==> out is Some,
            out is None ==> *final(self) == *old(self) && *final(ids) == *old(ids),
            inbound is None ==> Process::clocks_ticked(*old(self), *final(self)) && (
            out matches Some(o) ==> final(ids).next_id == old(ids).next_id + 2 && (final(self).internal_output(o, old(ids).next_id + 1) || final(self).send_output(
                o,
                old(ids).next_id + 1,
            ))),
            inbound matches Some(ev) ==> (out matches Some(o) ==> final(ids).next_id == old(
                ids,
            ).next_id + 1 && Process::clocks_merged(*old(self), ev, *final(self)) && final(self).receive_output(ev, o, old(ids).next_id as int)),
    {
        match inbound {
            Some(ev) => {
                let mut received = ev;
                received.event_type = EventType::Receive;
                self.handle_event(received, ids)
            },
            None => Some(self.generate_event(ids)),
        }
    }
}

} // verus!
