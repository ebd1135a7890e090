use rust_evc::config::Config;
use rust_evc::collector::Message;
use rust_evc::evc::Evc;
use rust_evc::event::EventIdSource;
use rust_evc::event::EventType;
use rust_evc::event::next_event_id;
use rust_evc::process::Process;

fn test_config() -> Config {
    Config { num_processes: 2, max_bits: 64, float_precision: 64, timeout: 10 }
}

/// Drive one autonomous tick of the given kind through the clock engine.
fn tick(p: &mut Process, t: EventType, ids: &mut EventIdSource) {
    let seed = p.create_event(t, ids);
    let out = p.handle_event(seed, ids).expect("a tick never fails");
    match t {
        EventType::Internal => assert!(out.to_dispatch.is_none()),
        EventType::Send => assert!(out.to_dispatch.is_some()),
        EventType::Receive => unreachable!(),
    }
}

#[test]
fn initial_state() {
    let p = Process::new(0, 2, test_config());
    assert_eq!(p.vec_clock, vec![1, 0]);
    assert_eq!(p.evc, Evc::from_u64(1));
}

#[test]
fn internal_tick_updates_clocks() {
    let mut ids = EventIdSource::new();
    let mut p = Process::new(0, 2, test_config());
    tick(&mut p, EventType::Internal, &mut ids);
    assert_eq!(p.vec_clock, vec![2, 0]);
    assert_eq!(p.evc, Evc::from_u64(2));
    tick(&mut p, EventType::Internal, &mut ids);
    assert_eq!(p.vec_clock, vec![3, 0]);
    assert_eq!(p.evc, Evc::from_u64(4));
}

#[test]
fn send_then_receive_merges_clocks() {
    // Process 0 owns prime 2 and ticks twice: EVC = 4. Process 1 owns
    // prime 3 and ticks once: EVC = 3. Process 1 then merges process 0's
    // clock: EVC = lcm(3, 4) = 12, vector clock the pointwise max plus a
    // step of its own component.
    let mut ids = EventIdSource::new();
    let mut p0 = Process::new(0, 2, test_config());
    let mut p1 = Process::new(1, 3, test_config());
    tick(&mut p0, EventType::Internal, &mut ids);
    tick(&mut p0, EventType::Send, &mut ids);
    assert_eq!(p0.evc, Evc::from_u64(4));
    assert_eq!(p0.vec_clock, vec![3, 0]);
    tick(&mut p1, EventType::Internal, &mut ids);
    assert_eq!(p1.evc, Evc::from_u64(3));

    let send_event = p0.create_event(EventType::Send, &mut ids);
    let out = p1.handle_dispatch(Some(send_event), &mut ids).expect("merge");
    assert_eq!(p1.evc, Evc::from_u64(12));
    // The log clock follows: log2(3) + log2(4) - log2(gcd(3, 4)) = log2(12).
    let log_now: f64 = format!("{}", p1.log_evc).parse().expect("parse log clock");
    assert!((log_now - 12f64.log2()).abs() < 1e-9, "{}", log_now);
    // Pointwise max [3, 2], then the receiver's own component steps.
    assert_eq!(p1.vec_clock, vec![3, 3]);
    assert!(out.to_dispatch.is_none());
    assert_eq!(out.to_collector.len(), 2);
    match &out.to_collector[0] {
        Message::Pair(pair) => {
            assert_eq!(pair.send.encoded_clock, Evc::from_u64(4));
            assert_eq!(pair.send.event_type, EventType::Send);
            assert_eq!(pair.receive.encoded_clock, Evc::from_u64(12));
            assert_eq!(pair.receive.event_type, EventType::Receive);
        },
        other => panic!("expected a pair, got {:?}", other),
    }
    match &out.to_collector[1] {
        Message::Data(e) => {
            assert_eq!(e.encoded_clock, Evc::from_u64(4));
            assert_eq!(e.event_type, EventType::Send);
        },
        other => panic!("expected data, got {:?}", other),
    }
}

#[test]
fn vector_clock_components_never_decrease() {
    let mut ids = EventIdSource::new();
    let mut p0 = Process::new(0, 2, test_config());
    let mut p1 = Process::new(1, 3, test_config());
    let mut last = p1.vec_clock.clone();
    for round in 0..20 {
        if round % 3 == 2 {
            let ev = p0.create_event(EventType::Send, &mut ids);
            p1.handle_dispatch(Some(ev), &mut ids).expect("merge");
            tick(&mut p0, EventType::Internal, &mut ids);
        } else {
            tick(&mut p1, EventType::Internal, &mut ids);
        }
        for k in 0..last.len() {
            assert!(p1.vec_clock[k] >= last[k]);
        }
        assert!(p1.vec_clock[1] > last[1]);
        last = p1.vec_clock.clone();
    }
}

#[test]
fn encoded_clock_never_decreases() {
    let mut ids = EventIdSource::new();
    let mut p0 = Process::new(0, 2, test_config());
    let mut p1 = Process::new(1, 3, test_config());
    let mut last = num_bigint::BigUint::from(1u32);
    for round in 0..15 {
        if round % 4 == 3 {
            let ev = p0.create_event(EventType::Send, &mut ids);
            p1.handle_dispatch(Some(ev), &mut ids).expect("merge");
            tick(&mut p0, EventType::Internal, &mut ids);
        } else {
            tick(&mut p1, EventType::Internal, &mut ids);
        }
        let now = num_bigint::BigUint::from_slice(&p1.evc.limbs);
        assert!(now >= last);
        last = now;
    }
}

#[test]
fn log_clock_tracks_log2_of_encoded_clock() {
    // An isolated process performing only internal ticks: the log clock
    // must equal log2(EVC) = ticks * log2(prime) up to rounding error.
    let mut ids = EventIdSource::new();
    let mut p = Process::new(0, 5, test_config());
    let ticks = 12u32;
    for _ in 0..ticks {
        tick(&mut p, EventType::Internal, &mut ids);
    }
    assert_eq!(p.evc, Evc::from_u64(5u64.pow(ticks)));
    let shown = format!("{}", p.log_evc);
    let approx: f64 = shown.parse().expect("parse log clock");
    let exact = (ticks as f64) * (5f64).log2();
    assert!((approx - exact).abs() < 1e-9, "{} vs {}", approx, exact);
}

#[test]
fn timeout_step_generates_a_tick() {
    // With no inbound delivery the process flips a coin between a send
    // and an internal event; either way its own clock ticks.
    let mut ids = EventIdSource::new();
    let mut p = Process::new(0, 2, test_config());
    for round in 1..=10u32 {
        let before = p.vec_clock[0];
        let out = p.handle_dispatch(None, &mut ids).expect("ticks never fail");
        assert_eq!(p.vec_clock[0], before + 1);
        assert_eq!(p.evc, Evc::from_u64(1u64 << round));
        match &out.to_dispatch {
            Some(ev) => assert_eq!(ev.event_type, EventType::Send),
            None => {},
        }
        assert_eq!(out.to_collector.len(), 1);
    }
}

#[test]
fn event_ids_are_unique_and_increasing() {
    let mut ids = EventIdSource::new();
    let a = next_event_id(&mut ids);
    let b = next_event_id(&mut ids);
    let c = next_event_id(&mut ids);
    assert_eq!((a, b, c), (0, 1, 2));
}
