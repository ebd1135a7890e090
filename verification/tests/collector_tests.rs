use rust_evc::collector::Collector;
use rust_evc::collector::Message;
use rust_evc::collector::Metrics;
use rust_evc::collector::Pair;
use rust_evc::collector::ToPair;
use rust_evc::collector::count_false_positives;
use rust_evc::collector::count_false_values;
use rust_evc::collector::check_log_metrics;
use rust_evc::collector::check_log_clocks;
use rust_evc::collector::false_positive_rate_percent;
use rust_evc::collector::generate_permutations;
use rust_evc::collector::less_than;
use rust_evc::config::Config;
use rust_evc::evc::Evc;
use rust_evc::event::Event;
use rust_evc::event::EventType;

fn test_config() -> Config {
    Config { num_processes: 2, max_bits: 64, float_precision: 128, timeout: 10 }
}

fn event(id: usize, process_id: u64, clock: &[u64], evc: u64, t: EventType) -> Event {
    Event::new(t, id, clock, &Evc::from_u64(evc), &astro_float::BigFloat::new(64), process_id)
}

fn fixture_pair() -> Pair {
    // The canonical two-process scenario: process 0 owns prime 2 and
    // ticked twice (EVC 4); process 1 owns prime 3, ticked once and then
    // merged process 0's clock (EVC = lcm(3, 4) = 12).
    let send = event(0, 0, &[3, 0], 4, EventType::Send);
    let recv = event(1, 1, &[3, 3], 12, EventType::Receive);
    send.make_pair(recv)
}

#[test]
fn fixture_pair_is_a_true_positive() {
    // 4 divides 12 and at this precision the directional rounding-up
    // test sees the integer ratio 3, so the pair contributes exactly one
    // true positive and nothing else.
    let m = count_false_positives(&fixture_pair(), 128);
    assert_eq!(
        m,
        Metrics { false_negatives: 0, false_positives: 0, true_negatives: 0, true_positives: 1 },
    );
}

#[test]
fn unrelated_pair_contributes_nothing() {
    // 5 and 9 divide each other in neither direction.
    let send = event(0, 0, &[1, 0], 5, EventType::Send);
    let recv = event(1, 1, &[0, 1], 9, EventType::Receive);
    let m = count_false_positives(&send.make_pair(recv), 128);
    assert_eq!(
        m,
        Metrics { false_negatives: 0, false_positives: 0, true_negatives: 0, true_positives: 0 },
    );
}

#[test]
fn equal_clocks_are_a_true_negative() {
    let send = event(0, 0, &[2, 0], 6, EventType::Send);
    let recv = event(1, 1, &[0, 2], 6, EventType::Receive);
    let m = count_false_positives(&send.make_pair(recv), 128);
    // Both nearest-rounding directions see the integer 1, so this is a
    // true negative and not a false positive (which needs exactly one
    // direction to test integer); the zero log-difference also passes
    // both directional tests exactly.
    assert_eq!(
        m,
        Metrics { false_negatives: 0, false_positives: 0, true_negatives: 1, true_positives: 1 },
    );
}

#[test]
fn directional_counts_for_ordered_fixture() {
    let pair = fixture_pair();
    assert!(less_than(&pair.send, &pair.receive));
    // At a generous precision the rounded-up log test lands on the
    // integer ratio: no directional misses.
    assert_eq!(count_false_values(&pair, 128), (0, 0));
    // At a coarser precision the same test misses the ratio and the
    // ordered pair is recorded as a false negative — never as a false
    // positive.
    assert_eq!(count_false_values(&pair, 64), (1, 0));
}

#[test]
fn fold_over_pairs_sums_each_bucket() {
    let pairs = vec![fixture_pair(), fixture_pair(), fixture_pair()];
    let m = check_log_metrics(&pairs, 128);
    assert_eq!(
        m,
        Metrics { false_negatives: 0, false_positives: 0, true_negatives: 0, true_positives: 3 },
    );
    let (fns, fps) = check_log_clocks(&pairs, 128);
    assert_eq!((fns, fps), (0, 0));
}

#[test]
fn permutations_enumerate_all_unordered_pairs() {
    let events = vec![
        event(0, 0, &[1, 0], 2, EventType::Internal),
        event(1, 0, &[2, 0], 4, EventType::Internal),
        event(2, 1, &[0, 1], 3, EventType::Internal),
        event(3, 1, &[0, 2], 9, EventType::Internal),
    ];
    let pairs = generate_permutations(&events);
    assert_eq!(pairs.len(), 6);
    assert_eq!(pairs[0].send.id, 0);
    assert_eq!(pairs[0].receive.id, 1);
    assert_eq!(pairs[5].send.id, 2);
    assert_eq!(pairs[5].receive.id, 3);
    for p in &pairs {
        assert!(p.send.id < p.receive.id);
    }
    assert!(generate_permutations(&[]).is_empty());
}

#[test]
fn quorum_is_reached_exactly_at_process_count_plus_one() {
    let mut c = Collector::new(test_config());
    assert!(!c.handle_dispatch(Message::Data(event(0, 0, &[1, 0], 2, EventType::Internal))));
    assert!(!c.handle_dispatch(Message::End));
    assert!(!c.handle_dispatch(Message::Pair(fixture_pair())));
    assert!(!c.handle_dispatch(Message::End));
    assert!(c.handle_dispatch(Message::End));
    assert_eq!(c.end_counter, 3);
    assert_eq!(c.events.len(), 2);
    assert_eq!(c.event_pairs.len(), 1);
}

#[test]
fn quorum_does_not_depend_on_arrival_order() {
    // The same multiset of messages in two different interleavings: the
    // third End completes the quorum in both.
    let make = |order: [u8; 5]| {
        let mut c = Collector::new(test_config());
        let mut done_at = None;
        for (i, tag) in order.iter().enumerate() {
            let msg = match tag {
                0 => Message::Data(event(0, 0, &[1, 0], 2, EventType::Internal)),
                1 => Message::Pair(fixture_pair()),
                _ => Message::End,
            };
            if c.handle_dispatch(msg) && done_at.is_none() {
                done_at = Some(i);
            }
        }
        (c.end_counter, done_at)
    };
    let (ends_a, done_a) = make([0, 2, 1, 2, 2]);
    let (ends_b, done_b) = make([2, 2, 0, 1, 2]);
    assert_eq!(ends_a, 3);
    assert_eq!(ends_b, 3);
    assert_eq!(done_a, Some(4));
    assert_eq!(done_b, Some(4));
}

#[test]
fn rate_is_bounded_and_undefined_only_without_pairs() {
    assert_eq!(false_positive_rate_percent(0, 0), None);
    assert_eq!(false_positive_rate_percent(1, 2), Some(50));
    assert_eq!(false_positive_rate_percent(0, 7), Some(0));
    assert_eq!(false_positive_rate_percent(7, 7), Some(100));
    assert_eq!(false_positive_rate_percent(1, 3), Some(33));
}

#[test]
fn summary_of_a_small_run() {
    let mut c = Collector::new(test_config());
    c.handle_dispatch(Message::Data(event(0, 0, &[2, 0], 2, EventType::Internal)));
    c.handle_dispatch(Message::Data(event(1, 0, &[3, 0], 4, EventType::Send)));
    c.handle_dispatch(Message::Data(event(2, 1, &[3, 2], 12, EventType::Receive)));
    let (m, rate) = c.summarize().expect("three events give three pairs");
    assert!(rate <= 100);
    assert_eq!(m.false_positives, 0);
    // (2,4), (2,12) and (4,12) all divide in one direction.
    assert_eq!(m.true_positives + m.false_negatives, 3);
    let mut empty = Collector::new(test_config());
    assert!(empty.summarize().is_none());
    empty.handle_dispatch(Message::Data(event(0, 0, &[1, 0], 2, EventType::Internal)));
    assert!(empty.summarize().is_none());
}

#[test]
fn summary_with_exactly_one_pair() {
    let mut c = Collector::new(test_config());
    c.handle_dispatch(Message::Data(event(0, 0, &[3, 0], 4, EventType::Send)));
    c.handle_dispatch(Message::Data(event(1, 1, &[3, 3], 12, EventType::Receive)));
    let (m, rate) = c.summarize().expect("one pair");
    assert_eq!(
        m,
        Metrics { false_negatives: 0, false_positives: 0, true_negatives: 0, true_positives: 1 },
    );
    assert_eq!(rate, 0);
}

#[test]
fn recorded_pairings_can_be_analysed_directly() {
    // The alternative analysis source: the explicitly recorded
    // send/receive pairings rather than the exhaustive pair table.
    let mut c = Collector::new(test_config());
    c.handle_dispatch(Message::Pair(fixture_pair()));
    c.handle_dispatch(Message::Pair(fixture_pair()));
    let m = check_log_metrics(&c.event_pairs, 128);
    assert_eq!(m.true_positives, 2);
    let (fns, fps) = check_log_clocks(&c.event_pairs, 128);
    assert_eq!((fns, fps), (0, 0));
}

#[test]
fn single_process_configuration_is_rejected() {
    let alone = Config { num_processes: 1, max_bits: 64, float_precision: 128, timeout: 10 };
    assert!(!alone.is_valid());
    assert!(test_config().is_valid());
}
