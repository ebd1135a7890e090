//! The collector: aggregates every event and send/receive pair the run
//! produces and, once every producer has signalled the end, measures how
//! faithfully the log-domain approximation reproduces the exact
//! divisibility ground truth.

use vstd::prelude::*;
use vstd::multiset::Multiset;
use crate::config::Config;
use crate::event::Event;
use crate::event::same_core;
use crate::evc::evc_is_divisible;
use crate::logclock::approx_pow_test;
use crate::logclock::log_approx_lt;
use crate::logclock::log_int_test;
use crate::logclock::log_lt_test;
use crate::numbers::divides;

verus! {

/// Anything that can stand as the send side of a send/receive pairing.
pub trait ToPair {
    /// Pairs `self` as the send side with `receiver`.
    fn make_pair(self, receiver: Event) -> Pair;
}

/// A send event matched with the receive event it caused (or is a
/// candidate cause of).
#[derive(Debug)]
pub struct Pair {
    pub send: Event,
    pub receive: Event,
}

impl Clone for Pair {
    /// Cloning keeps everything the verified logic reads of both sides.
    fn clone(&self) -> (r: Self)
        ensures
            same_core(r.send, self.send),
            same_core(r.receive, self.receive),
    {
        Pair { send: self.send.clone(), receive: self.receive.clone() }
    }
}

impl ToPair for Event {
    fn make_pair(self, receiver: Event) -> (r: Pair)
        ensures
            same_core(r.send, self),
            same_core(r.receive, receiver),
    {
        Pair { send: self, receive: receiver }
    }
}

/// What flows into the collector: a recorded event, an explicit pairing,
/// or an end-of-stream signal from one producer.
#[derive(Debug)]
pub enum Message {
    Data(Event),
    Pair(Pair),
    End,
}

/// Aggregate classification counts over all examined pairs.
#[derive(Debug, Clone, Copy, PartialEq, Eq, Structural)]
pub struct Metrics {
    pub false_negatives: u32,
    pub false_positives: u32,
    pub true_negatives: u32,
    pub true_positives: u32,
}

/// The per-pair classification, over the two encoded-clock values `s`
/// (send side) and `r` (receive side). The rule, stated once and used
/// everywhere:
///  - true negative: the clocks divide each other both ways and both
///    log-domain tests under ties-to-nearest rounding report an integer;
///  - false positive: they divide both ways yet exactly one of the two
///    nearest-rounding tests reports an integer — the approximation
///    reports a one-way order where the ground truth has none;
///  - true positive: a direction divides exactly and the matching
///    directional test under rounding-up agrees;
///  - false negative: a direction divides exactly but the matching
///    directional rounding-up test misses it.
pub open spec fn classify_spec(s: nat, r: nat, prec: nat) -> Metrics {
    let left = log_int_test(s, r, prec, false);
    let right = log_int_test(r, s, prec, false);
    let up_left = log_int_test(s, r, prec, true);
    let up_right = log_int_test(r, s, prec, true);
    let send_div = divides(r, s);
    let recv_div = divides(s, r);
    Metrics {
        false_negatives: if (recv_div && !up_left) || (send_div && !up_right) {
            1u32
        } else {
            0u32
        },
        false_positives: if send_div && recv_div && (left != right) {
            1u32
        } else {
            0u32
        },
        true_negatives: if send_div && recv_div && left && right {
            1u32
        } else {
            0u32
        },
        true_positives: if (recv_div && up_left) || (send_div && up_right) {
            1u32
        } else {
            0u32
        },
    }
}

/// The classification does not depend on which way round a pair is
/// framed: swapping send and receive swaps both divisibility directions
/// and both log-test directions in step, leaving every bucket unchanged.
pub proof fn lemma_classification_framing_symmetric(s: nat, r: nat, prec: nat)
    ensures
        classify_spec(s, r, prec) == classify_spec(r, s, prec),
{
}

/// Classify one pair: exact divisibility both ways against the
/// log-domain integrality tests at precision `prec` — ties to nearest for
/// the symmetric buckets, rounding-up for the directional ones.
pub fn count_false_positives(pair: &Pair, prec: u32) -> (m: Metrics)
    requires
        pair.send.encoded_clock@ >= 1,
        pair.receive.encoded_clock@ >= 1,
        prec >= 2,
    ensures
        m == classify_spec(pair.send.encoded_clock@, pair.receive.encoded_clock@, prec as nat),
{
    let mut false_negatives: u32 = 0;
    let mut false_positives: u32 = 0;
    let mut true_negatives: u32 = 0;
    let mut true_positives: u32 = 0;

    let left_int = approx_pow_test(&pair.send.encoded_clock, &pair.receive.encoded_clock, prec, false);
    let right_int = approx_pow_test(&pair.receive.encoded_clock, &pair.send.encoded_clock, prec, false);
    let up_left = approx_pow_test(&pair.send.encoded_clock, &pair.receive.encoded_clock, prec, true);
    let up_right = approx_pow_test(&pair.receive.encoded_clock, &pair.send.encoded_clock, prec, true);
    let send_div = evc_is_divisible(&pair.send.encoded_clock, &pair.receive.encoded_clock);
    let recv_div = evc_is_divisible(&pair.receive.encoded_clock, &pair.send.encoded_clock);

    if send_div && recv_div {
        if left_int != right_int {
            false_positives += 1;
        }
        if left_int && right_int {
            true_negatives += 1;
        }
    }
    if (recv_div && up_left) || (send_div && up_right) {
        true_positives += 1;
    }
    if (recv_div && !up_left) || (send_div && !up_right) {
        false_negatives += 1;
    }
    Metrics { false_negatives, false_positives, true_negatives, true_positives }
}

/// The vector-clock comparison the directional statistics branch on:
/// `a`'s own component is no later than `b`'s view of it.
pub open spec fn less_than_spec(a: Event, b: Event) -> bool {
    a.vec_clock@[a.process_id as int] <= b.vec_clock@[a.process_id as int]
}

/// Runtime form of `less_than_spec`.
pub fn less_than(first: &Event, other: &Event) -> (r: bool)
    requires
        (first.process_id as int) < first.vec_clock@.len(),
        (first.process_id as int) < other.vec_clock@.len(),
    ensures
        r == less_than_spec(*first, *other),
{
    let n = first.vec_clock.len();
    proof {
        assert((first.process_id as int) < (n as int));
    }
    let i = first.process_id as usize;
    first.vec_clock[i] <= other.vec_clock[i]
}

/// The directional (rounding-up) statistics for one pair: a false
/// negative when the vector clocks order the pair but the directional
/// log-domain test misses it, a false positive when they do not order it
/// yet the test reports an order.
pub open spec fn false_values_spec(send: Event, recv: Event, prec: nat) -> (u32, u32) {
    let s = send.encoded_clock@;
    let r = recv.encoded_clock@;
    if less_than_spec(send, recv) {
        if log_approx_lt(s, r, prec) && log_int_test(s, r, prec, true) {
            (0u32, 0u32)
        } else {
            (1u32, 0u32)
        }
    } else if less_than_spec(recv, send) {
        if log_approx_lt(r, s, prec) && log_int_test(r, s, prec, true) {
            (0u32, 0u32)
        } else {
            (1u32, 0u32)
        }
    } else {
        if log_approx_lt(s, r, prec) && log_int_test(s, r, prec, true) {
            (0u32, 1u32)
        } else {
            (0u32, 0u32)
        }
    }
}

/// Count the directional misses for one pair: `(false_negatives,
/// false_positives)`.
pub fn count_false_values(pair: &Pair, prec: u32) -> (c: (u32, u32))
    requires
        pair.send.encoded_clock@ >= 1,
        pair.receive.encoded_clock@ >= 1,
        prec >= 2,
        (pair.send.process_id as int) < pair.send.vec_clock@.len(),
        (pair.send.process_id as int) < pair.receive.vec_clock@.len(),
        (pair.receive.process_id as int) < pair.send.vec_clock@.len(),
        (pair.receive.process_id as int) < pair.receive.vec_clock@.len(),
    ensures
        c == false_values_spec(pair.send, pair.receive, prec as nat),
{
    let mut false_negatives: u32 = 0;
    let mut false_positives: u32 = 0;

    if less_than(&pair.send, &pair.receive) {
        let ordered = log_lt_test(&pair.send.encoded_clock, &pair.receive.encoded_clock, prec);
        let up_int = approx_pow_test(
            &pair.send.encoded_clock,
            &pair.receive.encoded_clock,
            prec,
            true,
        );
        if !(ordered && up_int) {
            false_negatives += 1;
        }
    } else if less_than(&pair.receive, &pair.send) {
        let ordered = log_lt_test(&pair.receive.encoded_clock, &pair.send.encoded_clock, prec);
        let up_int = approx_pow_test(
            &pair.receive.encoded_clock,
            &pair.send.encoded_clock,
            prec,
            true,
        );
        if !(ordered && up_int) {
            false_negatives += 1;
        }
    } else {
        let ordered = log_lt_test(&pair.send.encoded_clock, &pair.receive.encoded_clock, prec);
        let up_int = approx_pow_test(
            &pair.send.encoded_clock,
            &pair.receive.encoded_clock,
            prec,
            true,
        );
        if ordered && up_int {
            false_positives += 1;
        }
    }
    (false_negatives, false_positives)
}

/// The four classification totals over a sequence of pairs, as unbounded
/// counts: `(false_negatives, false_positives, true_negatives,
/// true_positives)`.
pub open spec fn metrics_sum(pairs: Seq<Pair>, prec: nat) -> (nat, nat, nat, nat)
    decreases pairs.len(),
{
    if pairs.len() == 0 {
        (0, 0, 0, 0)
    } else {
        let rest = metrics_sum(pairs.drop_last(), prec);
        let m = classify_spec(
            pairs.last().send.encoded_clock@,
            pairs.last().receive.encoded_clock@,
            prec,
        );
        (
            rest.0 + m.false_negatives as nat,
            rest.1 + m.false_positives as nat,
            rest.2 + m.true_negatives as nat,
            rest.3 + m.true_positives as nat,
        )
    }
}

/// Each classification total is at most the number of pairs: every pair
/// contributes at most one to each bucket.
pub proof fn lemma_metrics_sum_bounds(pairs: Seq<Pair>, prec: nat)
    ensures
        metrics_sum(pairs, prec).0 <= pairs.len(),
        metrics_sum(pairs, prec).1 <= pairs.len(),
        metrics_sum(pairs, prec).2 <= pairs.len(),
        metrics_sum(pairs, prec).3 <= pairs.len(),
    decreases pairs.len(),
{
    if pairs.len() > 0 {
        lemma_metrics_sum_bounds(pairs.drop_last(), prec);
    }
}

/// Every pair's encoded clocks are positive, as every healthy clock is.
pub open spec fn pairs_wf(pairs: Seq<Pair>) -> bool {
    forall|k: int|
        0 <= k < pairs.len() ==> #[trigger] pairs[k].send.encoded_clock@ >= 1
            && pairs[k].receive.encoded_clock@ >= 1
}

/// Fold the per-pair classification over all pairs.
pub fn check_log_metrics(pairs: &Vec<Pair>, prec: u32) -> (m: Metrics)
    requires
        pairs_wf(pairs@),
        pairs@.len() <= u32::MAX as nat,
        prec >= 2,
    ensures
        (m.false_negatives as nat, m.false_positives as nat, m.true_negatives as nat,
        m.true_positives as nat) == metrics_sum(pairs@, prec as nat),
        m.false_positives as nat <= pairs@.len(),
{
    let mut acc = Metrics { false_negatives: 0, false_positives: 0, true_negatives: 0, true_positives: 0 };
    let mut k: usize = 0;
    while k < pairs.len()
        invariant
            0 <= k <= pairs@.len(),
            pairs@.len() <= u32::MAX as nat,
            pairs_wf(pairs@),
            prec >= 2,
            (acc.false_negatives as nat, acc.false_positives as nat, acc.true_negatives as nat,
            acc.true_positives as nat) == metrics_sum(pairs@.subrange(0, k as int), prec as nat),
            acc.false_negatives <= k,
            acc.false_positives <= k,
            acc.true_negatives <= k,
            acc.true_positives <= k,
        decreases pairs@.len() - k,
    {
        let m = count_false_positives(&pairs[k], prec);
        proof {
            let sub1 = pairs@.subrange(0, k as int + 1);
            assert(sub1.drop_last() =~= pairs@.subrange(0, k as int));
            assert(sub1.last() == pairs@[k as int]);
        }
        acc = Metrics {
            false_negatives: acc.false_negatives + m.false_negatives,
            false_positives: acc.false_positives + m.false_positives,
            true_negatives: acc.true_negatives + m.true_negatives,
            true_positives: acc.true_positives + m.true_positives,
        };
        k += 1;
    }
    proof {
        assert(pairs@.subrange(0, pairs@.len() as int) =~= pairs@);
        lemma_metrics_sum_bounds(pairs@, prec as nat);
    }
    acc
}

/// The two directional totals over a sequence of pairs:
/// `(false_negatives, false_positives)`.
pub open spec fn values_sum(pairs: Seq<Pair>, prec: nat) -> (nat, nat)
    decreases pairs.len(),
{
    if pairs.len() == 0 {
        (0, 0)
    } else {
        let rest = values_sum(pairs.drop_last(), prec);
        let c = false_values_spec(pairs.last().send, pairs.last().receive, prec);
        (rest.0 + c.0 as nat, rest.1 + c.1 as nat)
    }
}

/// The process ids named by both sides of every pair index into both
/// vector clocks.
pub open spec fn pairs_indexable(pairs: Seq<Pair>) -> bool {
    forall|k: int|
        0 <= k < pairs.len() ==> (#[trigger] pairs[k].send.process_id as int)
            < pairs[k].send.vec_clock@.len() && (pairs[k].send.process_id as int)
            < pairs[k].receive.vec_clock@.len() && (pairs[k].receive.process_id as int)
            < pairs[k].send.vec_clock@.len() && (pairs[k].receive.process_id as int)
            < pairs[k].receive.vec_clock@.len()
}

/// Fold the directional statistics over all pairs:
/// `(false_negatives, false_positives)`.
pub fn check_log_clocks(pairs: &Vec<Pair>, prec: u32) -> (c: (u32, u32))
    requires
        pairs_wf(pairs@),
        pairs_indexable(pairs@),
        pairs@.len() <= u32::MAX as nat,
        prec >= 2,
    ensures
        (c.0 as nat, c.1 as nat) == values_sum(pairs@, prec as nat),
{
    let mut false_negatives: u32 = 0;
    let mut false_positives: u32 = 0;
    let mut k: usize = 0;
    while k < pairs.len()
        invariant
            0 <= k <= pairs@.len(),
            pairs@.len() <= u32::MAX as nat,
            pairs_wf(pairs@),
            pairs_indexable(pairs@),
            prec >= 2,
            (false_negatives as nat, false_positives as nat) == values_sum(
                pairs@.subrange(0, k as int),
                prec as nat,
            ),
            false_negatives <= k,
            false_positives <= k,
        decreases pairs@.len() - k,
    {
        let c = count_false_values(&pairs[k], prec);
        proof {
            let sub1 = pairs@.subrange(0, k as int + 1);
            assert(sub1.drop_last() =~= pairs@.subrange(0, k as int));
            assert(sub1.last() == pairs@[k as int]);
        }
        false_negatives = false_negatives + c.0;
        false_positives = false_positives + c.1;
        k += 1;
    }
    proof {
        assert(pairs@.subrange(0, pairs@.len() as int) =~= pairs@);
    }
    (false_negatives, false_positives)
}

/// How many unordered pairs `n` events give: `n * (n - 1) / 2`, as the
/// sum `(n-1) + (n-2) + ... + 0`.
pub open spec fn pair_count(n: nat) -> nat
    decreases n,
{
    if n == 0 {
        0
    } else {
        (n - 1) as nat + pair_count((n - 1) as nat)
    }
}

/// The position in the generated pair list at which events `a < b` are
/// paired: all of `a`'s predecessors' rows, then `b`'s offset in `a`'s
/// row.
pub open spec fn pair_index(n: nat, a: int, b: int) -> int {
    pair_count(n) - pair_count((n - a) as nat) + (b - a - 1)
}

/// `r` holds, at `pair_index`, the pairing of events `a < b`.
pub open spec fn pair_at(r: Seq<Pair>, events: Seq<Event>, a: int, b: int) -> bool {
    &&& 0 <= pair_index(events.len(), a, b) < r.len()
    &&& same_core(r[pair_index(events.len(), a, b)].send, events[a])
    &&& same_core(r[pair_index(events.len(), a, b)].receive, events[b])
}

/// `r` pairs each `a < b` below the given bounds: every `a` strictly
/// below `hi_a`, and `a == hi_a` itself for `b` strictly below `hi_b`.
pub open spec fn pairs_complete_below(
    r: Seq<Pair>,
    events: Seq<Event>,
    hi_a: int,
    hi_b: int,
) -> bool {
    forall|a: int, b: int|
        0 <= a < b < events.len() && (a < hi_a || (a == hi_a && b < hi_b)) ==> #[trigger] pair_at(
            r,
            events,
            a,
            b,
        )
}

/// Componentwise sum of two count quadruples.
pub open spec fn add_counts(x: (nat, nat, nat, nat), y: (nat, nat, nat, nat)) -> (
    nat,
    nat,
    nat,
    nat,
) {
    (x.0 + y.0, x.1 + y.1, x.2 + y.2, x.3 + y.3)
}

/// Classification totals of event `i` paired with each event strictly
/// between `i` and `j`.
pub open spec fn row_pairs_metrics(events: Seq<Event>, i: int, j: int, prec: nat) -> (
    nat,
    nat,
    nat,
    nat,
)
    decreases j,
{
    if i < 0 || j <= i + 1 {
        (0, 0, 0, 0)
    } else {
        let rest = row_pairs_metrics(events, i, j - 1, prec);
        let m = classify_spec(events[i].encoded_clock@, events[j - 1].encoded_clock@, prec);
        (
            rest.0 + m.false_negatives as nat,
            rest.1 + m.false_positives as nat,
            rest.2 + m.true_negatives as nat,
            rest.3 + m.true_positives as nat,
        )
    }
}

/// Classification totals of every pair `a < b` of events with `a` below
/// `i` (the full first `i` rows of the pair table).
pub open spec fn all_pairs_metrics(events: Seq<Event>, i: int, prec: nat) -> (nat, nat, nat, nat)
    decreases i,
{
    if i <= 0 {
        (0, 0, 0, 0)
    } else {
        add_counts(
            all_pairs_metrics(events, i - 1, prec),
            row_pairs_metrics(events, i - 1, events.len() as int, prec),
        )
    }
}

/// Every unordered pair of recorded events, each event `i` paired as the
/// send side with every later event `j`: the pair of `a < b` stands at
/// position `pair_index(n, a, b)`, and nothing else is in the list.
pub fn generate_permutations(events: &[Event]) -> (r: Vec<Pair>)
    ensures
        r@.len() == pair_count(events@.len()),
        forall|k: int|
            #![trigger r@[k]]
            0 <= k < r@.len() ==> exists|a: int, b: int|
                #![trigger events@[a], events@[b]]
                0 <= a < b < events@.len() && same_core(r@[k].send, events@[a]) && same_core(
                    r@[k].receive,
                    events@[b],
                ),
        pairs_complete_below(r@, events@, events@.len() as int, 0),
        forall|q: nat|
            #![trigger metrics_sum(r@, q)]
            metrics_sum(r@, q) == all_pairs_metrics(events@, events@.len() as int, q),
{
    let mut result_vec: Vec<Pair> = Vec::new();
    let n = events.len();
    let ghost mut idxs = Seq::<(int, int)>::empty();
    let mut i: usize = 0;
    while i < n
        invariant
            0 <= i <= n,
            n == events@.len(),
            result_vec@.len() + pair_count((n - i) as nat) == pair_count(n as nat),
            idxs.len() == result_vec@.len(),
            forall|k: int|
                #![trigger idxs[k]]
                0 <= k < idxs.len() ==> 0 <= idxs[k].0 < idxs[k].1 < n as int && same_core(
                    result_vec@[k].send,
                    events@[idxs[k].0],
                ) && same_core(result_vec@[k].receive, events@[idxs[k].1]),
            pairs_complete_below(result_vec@, events@, i as int, 0),
            forall|q: nat|
                #![trigger metrics_sum(result_vec@, q)]
                metrics_sum(result_vec@, q) == all_pairs_metrics(events@, i as int, q),
        decreases n - i,
    {
        let mut j: usize = i + 1;
        proof {
            assert forall|a: int, b: int|
                0 <= a < b < events@.len() && (a < i as int || (a == i as int && b < j as int))
                    implies #[trigger] pair_at(result_vec@, events@, a, b) by {
                assert(a < i as int);
            }
        }
        while j < n
            invariant
                0 <= i < j <= n,
                n == events@.len(),
                result_vec@.len() + pair_count((n - i) as nat) == pair_count(n as nat) + (j - i
                    - 1),
                idxs.len() == result_vec@.len(),
                forall|k: int|
                    #![trigger idxs[k]]
                    0 <= k < idxs.len() ==> 0 <= idxs[k].0 < idxs[k].1 < n as int && same_core(
                        result_vec@[k].send,
                        events@[idxs[k].0],
                    ) && same_core(result_vec@[k].receive, events@[idxs[k].1]),
                pairs_complete_below(result_vec@, events@, i as int, j as int),
                forall|q: nat|
                    #![trigger metrics_sum(result_vec@, q)]
                    metrics_sum(result_vec@, q) == add_counts(
                        all_pairs_metrics(events@, i as int, q),
                        row_pairs_metrics(events@, i as int, j as int, q),
                    ),
            decreases n - j,
        {
            let ei = vstd::slice::slice_index_get(events, i);
            let ej = vstd::slice::slice_index_get(events, j);
            let p = ei.clone().make_pair(ej.clone());
            let ghost pre = result_vec@;
            proof {
                assert(pair_index(n as nat, i as int, j as int) == pre.len());
                idxs = idxs.push((i as int, j as int));
            }
            result_vec.push(p);
            proof {
                assert(same_core(p.send, events@[i as int]));
                assert(same_core(p.receive, events@[j as int]));
                assert forall|a: int, b: int|
                    0 <= a < b < events@.len() && (a < i as int || (a == i as int && b < j + 1))
                        implies #[trigger] pair_at(result_vec@, events@, a, b) by {
                    if a == i as int && b == j as int {
                        assert(result_vec@[pair_index(events@.len(), a, b)] == p);
                    } else {
                        assert(pair_at(pre, events@, a, b));
                        assert(result_vec@[pair_index(events@.len(), a, b)] == pre[pair_index(
                            events@.len(),
                            a,
                            b,
                        )]);
                    }
                }
                assert(result_vec@.drop_last() =~= pre);
                assert(p.send.encoded_clock@ == events@[i as int].encoded_clock@);
                assert(p.receive.encoded_clock@ == events@[j as int].encoded_clock@);
                assert forall|q: nat| #![trigger metrics_sum(result_vec@, q)] metrics_sum(
                    result_vec@,
                    q,
                ) == add_counts(
                    all_pairs_metrics(events@, i as int, q),
                    row_pairs_metrics(events@, i as int, j + 1, q),
                ) by {
                    assert(metrics_sum(pre, q) == add_counts(
                        all_pairs_metrics(events@, i as int, q),
                        row_pairs_metrics(events@, i as int, j as int, q),
                    ));
                }
            }
            j += 1;
        }
        proof {
            assert(pair_count((n - i) as nat) == (n - i - 1) + pair_count((n - i - 1) as nat));
            assert forall|a: int, b: int|
                0 <= a < b < events@.len() && (a < i + 1 || (a == i + 1 && b < 0)) implies #[trigger] pair_at(
                result_vec@,
                events@,
                a,
                b,
            ) by {
                assert(a < i as int || (a == i as int && b < j as int));
            }
            assert forall|q: nat| #![trigger metrics_sum(result_vec@, q)] metrics_sum(
                result_vec@,
                q,
            ) == all_pairs_metrics(events@, i as int + 1, q) by {
                assert(all_pairs_metrics(events@, i as int + 1, q) == add_counts(
                    all_pairs_metrics(events@, i as int, q),
                    row_pairs_metrics(events@, i as int, n as int, q),
                ));
                assert(metrics_sum(result_vec@, q) == add_counts(
                    all_pairs_metrics(events@, i as int, q),
                    row_pairs_metrics(events@, i as int, j as int, q),
                ));
            }
        }
        i += 1;
    }
    proof {
        assert forall|k: int| #![trigger result_vec@[k]] 0 <= k < result_vec@.len() implies exists|
            a: int,
            b: int,
        |
            #![trigger events@[a], events@[b]]
            0 <= a < b < events@.len() && same_core(result_vec@[k].send, events@[a]) && same_core(
                result_vec@[k].receive,
                events@[b],
            ) by {
            let a = idxs[k].0;
            let b = idxs[k].1;
            assert(0 <= a < b < events@.len() && same_core(result_vec@[k].send, events@[a])
                && same_core(result_vec@[k].receive, events@[b]));
        }
    }
    result_vec
}

/// The floor of the false-positive rate as a percentage. `None` exactly
/// when there are no pairs at all — with zero or one event (one process
/// alone) the rate is undefined rather than a division by zero.
pub fn false_positive_rate_percent(false_positives: u32, total_pairs: u64) -> (r: Option<u64>)
    requires
        false_positives as u64 <= total_pairs,
    ensures
        r is None <==> total_pairs == 0,
        r matches Some(v) ==> v == 100 * (false_positives as int) / (total_pairs as int) && v
            <= 100,
{
    if total_pairs == 0 {
        return None;
    }
    let rate = 100 * (false_positives as u64) / total_pairs;
    proof {
        let f = false_positives as int;
        let t = total_pairs as int;
        vstd::arithmetic::div_mod::lemma_div_is_ordered(100 * f, 100 * t, t);
        vstd::arithmetic::div_mod::lemma_div_multiples_vanish(100, t);
    }
    Some(rate)
}

/// How many `End` signals a message sequence carries.
pub open spec fn end_count(msgs: Seq<Message>) -> nat
    decreases msgs.len(),
{
    if msgs.len() == 0 {
        0
    } else {
        end_count(msgs.drop_last()) + if msgs.last() is End {
            1nat
        } else {
            0nat
        }
    }
}

/// The number of `End` signals is a function of the multiset of messages
/// alone.
proof fn lemma_end_count_is_multiset_count(msgs: Seq<Message>)
    ensures
        end_count(msgs) == msgs.to_multiset().count(Message::End),
    decreases msgs.len(),
{
    msgs.to_multiset_ensures();
    if msgs.len() == 0 {
        assert(msgs.to_multiset() =~= Multiset::<Message>::empty());
    } else {
        let rest = msgs.drop_last();
        lemma_end_count_is_multiset_count(rest);
        rest.to_multiset_ensures();
        assert(rest.push(msgs.last()) =~= msgs);
        assert(msgs.to_multiset() =~= rest.to_multiset().insert(msgs.last()));
    }
}

/// The collector's shutdown quorum does not depend on arrival order: two
/// runs whose inbound messages are permutations of each other observe the
/// same number of `End` signals, so they reach the quorum
/// `num_processes + 1` together, whatever the interleaving.
pub proof fn lemma_quorum_order_independent(m1: Seq<Message>, m2: Seq<Message>)
    requires
        m1.to_multiset() == m2.to_multiset(),
    ensures
        end_count(m1) == end_count(m2),
{
    lemma_end_count_is_multiset_count(m1);
    lemma_end_count_is_multiset_count(m2);
}

/// One producer's worth of messages is well formed: recorded clocks are
/// positive.
pub open spec fn message_wf(m: Message) -> bool {
    match m {
        Message::Data(e) => e.encoded_clock@ >= 1,
        Message::Pair(p) => p.send.encoded_clock@ >= 1 && p.receive.encoded_clock@ >= 1,
        Message::End => true,
    }
}

/// The collector's state: every event seen, every explicit pairing, how
/// many producers have finished, and the run configuration.
#[derive(Debug)]
pub struct Collector {
    pub events: Vec<Event>,
    pub config: Config,
    pub end_counter: u64,
    pub event_pairs: Vec<Pair>,
}

impl Collector {
    /// A healthy collector: valid configuration and positive recorded
    /// clocks.
    pub open spec fn wf(self) -> bool {
        &&& self.config.valid()
        &&& forall|k: int|
            0 <= k < self.events@.len() ==> #[trigger] self.events@[k].encoded_clock@ >= 1
        &&& pairs_wf(self.event_pairs@)
    }

    /// An empty collector for the given run.
    pub fn new(config: Config) -> (r: Collector)
        requires
            config.valid(),
        ensures
            r.wf(),
            r.events@.len() == 0,
            r.event_pairs@.len() == 0,
            r.end_counter == 0,
            r.config == config,
    {
        Collector { events: Vec::new(), config, end_counter: 0, event_pairs: Vec::new() }
    }

    /// Consume one message: record data events, record a pairing's receive
    /// side plus the pairing itself, and count `End` signals. The result
    /// is true — stop consuming, the analysis may begin — exactly when
    /// this message completes the quorum of `num_processes + 1` `End`
    /// signals (every process's shutdown plus the dispatcher's), whatever
    /// order the messages arrived in.
    pub fn handle_dispatch(&mut self, message: Message) -> (done: bool)
        requires
            old(self).wf(),
            old(self).end_counter < u64::MAX,
            message_wf(message),
        ensures
            final(self).wf(),
            final(self).config == old(self).config,
            message matches Message::Data(e) ==> final(self).events@ == old(self).events@.push(e)
                && final(self).event_pairs@ == old(self).event_pairs@ && final(self).end_counter
                == old(self).end_counter && !done,
            message matches Message::Pair(p) ==> final(self).events@.len() == old(self).events@.len() + 1 && final(self).events@.subrange(0, old(self).events@.len() as int)
                == old(self).events@ && same_core(final(self).events@.last(), p.receive) && final(self).event_pairs@ == old(self).event_pairs@.push(p) && final(self).end_counter == old(self).end_counter && !done,
            message is End ==> final(self).events@ == old(self).events@ && final(self).event_pairs@ == old(self).event_pairs@ && final(self).end_counter == old(self).end_counter + 1,
            done <==> (message is End && final(self).end_counter == old(self).config.num_processes as u64 + 1),
    {
        match message {
            Message::Data(e) => {
                self.events.push(e);
                proof {
                    assert forall|k: int| 0 <= k < self.events@.len() implies #[trigger] self.events@[k].encoded_clock@
                        >= 1 by {
                        if k < old(self).events@.len() {
                            assert(self.events@[k] == old(self).events@[k]);
                        }
                    }
                }
                false
            },
            Message::Pair(p) => {
                let recv_copy = p.receive.clone();
                self.events.push(recv_copy);
                proof {
                    assert(self.events@.subrange(0, old(self).events@.len() as int) =~= old(self).events@);
                }
                self.event_pairs.push(p);
                proof {
                    assert forall|k: int| 0 <= k < self.events@.len() implies #[trigger] self.events@[k].encoded_clock@
                        >= 1 by {
                        if k < old(self).events@.len() {
                            assert(self.events@[k] == old(self).events@[k]);
                        }
                    }
                    assert forall|k: int|
                        0 <= k < self.event_pairs@.len() implies #[trigger] self.event_pairs@[k].send.encoded_clock@
                        >= 1 && self.event_pairs@[k].receive.encoded_clock@ >= 1 by {
                        if k < old(self).event_pairs@.len() {
                            assert(self.event_pairs@[k] == old(self).event_pairs@[k]);
                        }
                    }
                }
                false
            },
            Message::End => {
                self.end_counter = self.end_counter + 1;
                self.end_counter - 1 == self.config.num_processes as u64
            },
        }
    }

    /// The run's summary, from the exhaustively generated set of all
    /// unordered event pairs: the aggregate metrics and the
    /// false-positive rate. `None` when no pair exists (fewer than two
    /// events) or the pair count does not fit the counters.
    #[verifier::rlimit(50)]
    pub fn summarize(&self) -> (r: Option<(Metrics, u64)>)
        requires
            self.wf(),
        ensures
            r matches Some((m, rate)) ==> rate == 100 * (m.false_positives as int) / (pair_count(
                self.events@.len(),
            ) as int) && rate <= 100,
            r matches Some((m, rate)) ==> (m.false_negatives as nat, m.false_positives as nat,
            m.true_negatives as nat, m.true_positives as nat) == all_pairs_metrics(
                self.events@,
                self.events@.len() as int,
                self.config.float_precision as nat,
            ),
            r is Some <==> 1 <= pair_count(self.events@.len()) <= u32::MAX as nat,
    {
        let pairs = generate_permutations(self.events.as_slice());
        if pairs.len() == 0 {
            return None;
        }
        if pairs.len() > u32::MAX as usize {
            return None;
        }
        proof {
            assert forall|k: int| 0 <= k < pairs@.len() implies #[trigger] pairs@[k].send.encoded_clock@
                >= 1 && pairs@[k].receive.encoded_clock@ >= 1 by {
                let (a, b) = choose|a: int, b: int|
                    0 <= a < b < self.events@.len() && same_core(pairs@[k].send, self.events@[a])
                        && same_core(pairs@[k].receive, self.events@[b]);
            }
        }
        let m = check_log_metrics(&pairs, self.config.float_precision);
        match false_positive_rate_percent(m.false_positives, pairs.len() as u64) {
            Some(rate) => Some((m, rate)),
            None => None,
        }
    }
}

} // verus!
