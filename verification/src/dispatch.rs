//! The dispatcher: routes every send event to a uniformly random process
//! other than its sender, and watches for the encoded-clock bit threshold
//! that ends the whole run.

use vstd::prelude::*;
use crate::config::Config;
use crate::evc::evc_bits;
use crate::event::Event;
use crate::event::EventType;
use crate::event::same_core;
use crate::numbers::bit_len;
use crate::pick::choose_index;

verus! {

/// No process id occurs twice.
pub open spec fn distinct_ids(s: Seq<u64>) -> bool {
    forall|i: int, j: int| 0 <= i < j < s.len() ==> s[i] != s[j]
}

/// What the dispatcher decides for one incoming event.
pub enum DispatchAction {
    /// The encoded clock has reached the bit threshold: signal the
    /// collector that the run ends, and route nothing any more.
    Terminate,
    /// Forward the event to process `to`'s inbound channel.
    Deliver { to: u64, event: Event },
    /// Not a send event: nothing to route.
    Ignore,
    /// No eligible recipient remains (possible only with a single
    /// process): stop routing for good.
    Failed,
}

/// The dispatcher's state: the registry of live process ids and the run
/// configuration. The channels it serves belong to the caller.
pub struct Dispatch {
    pub process_ids: Vec<u64>,
    pub config: Config,
}

impl Dispatch {
    /// The registry holds each process once.
    pub open spec fn wf(self) -> bool {
        distinct_ids(self.process_ids@)
    }

    /// A dispatcher over the given process registry.
    pub fn new(process_ids: Vec<u64>, config: Config) -> (r: Dispatch)
        requires
            distinct_ids(process_ids@),
        ensures
            r.wf(),
            r.process_ids@ == process_ids@,
            r.config == config,
    {
        Dispatch { process_ids, config }
    }

    /// Decide one incoming event. A clock past `max_bits` ends the run;
    /// otherwise a send event is forwarded to a uniformly random process
    /// that is never its own sender, briefly taking the sender out of the
    /// candidate list and restoring it afterwards.
    pub fn handle_dispatch(&mut self, event: Event) -> (r: DispatchAction)
        requires
            old(self).wf(),
            event.event_type == EventType::Send ==> old(self).process_ids@.contains(
                event.process_id,
            ),
        ensures
            final(self).wf(),
            final(self).config == old(self).config,
            bit_len(event.encoded_clock@) >= old(self).config.max_bits as nat ==> r is Terminate
                && final(self).process_ids@ == old(self).process_ids@,
            bit_len(event.encoded_clock@) < old(self).config.max_bits as nat
                && event.event_type != EventType::Send ==> r is Ignore && final(self).process_ids@
                == old(self).process_ids@,
            bit_len(event.encoded_clock@) < old(self).config.max_bits as nat
                && event.event_type == EventType::Send && old(self).process_ids@.len() == 1 ==> r
                is Failed && final(self).process_ids@.len() == 0,
            bit_len(event.encoded_clock@) < old(self).config.max_bits as nat
                && event.event_type == EventType::Send && old(self).process_ids@.len() != 1 ==> (
            r matches DispatchAction::Deliver { to, event: e } && to != event.process_id
                && old(self).process_ids@.contains(to) && same_core(e, event)
                && final(self).process_ids@.to_multiset() == old(self).process_ids@.to_multiset()),
    {
        let bits = evc_bits(&event.encoded_clock);
        if bits >= self.config.max_bits as u64 {
            return DispatchAction::Terminate;
        }
        match event.event_type {
            EventType::Send => {},
            _ => {
                return DispatchAction::Ignore;
            },
        }
        // Take the sender out of the candidate list.
        let mut pos: usize = 0;
        while pos < self.process_ids.len() && self.process_ids[pos] != event.process_id
            invariant
                0 <= pos <= self.process_ids@.len(),
                forall|j: int| 0 <= j < pos ==> self.process_ids@[j] != event.process_id,
                self.process_ids@.contains(event.process_id),
            decreases self.process_ids@.len() - pos,
        {
            pos += 1;
        }
        proof {
            if pos as int == self.process_ids@.len() {
                let w = choose|w: int|
                    0 <= w < self.process_ids@.len() && self.process_ids@[w] == event.process_id;
                assert(false);
            }
        }
        let sending = self.process_ids.remove(pos);
        if self.process_ids.len() == 0 {
            return DispatchAction::Failed;
        }
        // Pick a recipient uniformly among the others.
        let ridx = choose_index(self.process_ids.len());
        let to = self.process_ids[ridx];
        proof {
            let ghost pre = old(self).process_ids@;
            // Uniqueness: every remaining candidate differs from the sender.
            assert forall|j: int| 0 <= j < self.process_ids@.len() implies self.process_ids@[j]
                != event.process_id by {
                if j < pos {
                    assert(self.process_ids@[j] == pre[j]);
                } else {
                    assert(self.process_ids@[j] == pre[j + 1]);
                }
            }
            assert(self.process_ids@.contains(self.process_ids@[ridx as int]));
            // The candidate came from the original registry.
            if ridx < pos {
                assert(pre[ridx as int] == self.process_ids@[ridx as int]);
            } else {
                assert(pre[ridx as int + 1] == self.process_ids@[ridx as int]);
            }
        }
        // Restore the sender for the next routing decision.
        self.process_ids.push(sending);
        proof {
            let ghost pre = old(self).process_ids@;
            pre.to_multiset_ensures();
            pre.remove(pos as int).to_multiset_ensures();
            assert(pre.remove(pos as int).to_multiset() =~= pre.to_multiset().remove(sending));
            assert(self.process_ids@ == pre.remove(pos as int).push(sending));
            assert(self.process_ids@.to_multiset() =~= pre.to_multiset().remove(sending).insert(
                sending,
            ));
            assert(pre.contains(sending));
            assert(pre.to_multiset().count(sending) > 0);
            assert(pre.to_multiset().remove(sending).insert(sending) =~= pre.to_multiset());
            // Distinctness survives the remove/restore dance.
            assert forall|i: int, j: int|
                0 <= i < j < self.process_ids@.len() implies self.process_ids@[i]
                != self.process_ids@[j] by {
                let s = pre.remove(pos as int);
                if j < s.len() {
                    if i < pos && j < pos {
                    } else if i < pos {
                        assert(s[j] == pre[j + 1]);
                    } else {
                        assert(s[i] == pre[i + 1] && s[j] == pre[j + 1]);
                    }
                } else {
                    // The restored sender differs from every remaining id.
                    assert(self.process_ids@[j] == sending);
                    if i < pos {
                        assert(self.process_ids@[i] == pre[i]);
                    } else {
                        assert(self.process_ids@[i] == pre[i + 1]);
                    }
                }
            }
        }
        DispatchAction::Deliver { to, event }
    }
}

} // verus!
