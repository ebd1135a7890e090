use rust_evc::config::Config;
use rust_evc::dispatch::Dispatch;
use rust_evc::dispatch::DispatchAction;
use rust_evc::evc::Evc;
use rust_evc::event::Event;
use rust_evc::event::EventType;

fn test_config(max_bits: u32) -> Config {
    Config { num_processes: 5, max_bits, float_precision: 64, timeout: 10 }
}

fn send_event(sender: u64, evc: u64) -> Event {
    Event::new(
        EventType::Send,
        0,
        &[1, 1, 1, 1, 1],
        &Evc::from_u64(evc),
        &astro_float::BigFloat::new(64),
        sender,
    )
}

#[test]
fn never_routes_to_sender() {
    // Exhaust every sender, many randomized trials each: the recipient is
    // never the sender and always a registered process.
    let mut d = Dispatch::new(vec![0, 1, 2, 3, 4], test_config(1000));
    for sender in 0..5u64 {
        for _ in 0..50 {
            match d.handle_dispatch(send_event(sender, 6)) {
                DispatchAction::Deliver { to, event } => {
                    assert_ne!(to, sender);
                    assert!(to < 5);
                    assert_eq!(event.process_id, sender);
                },
                other_kind => panic!("expected delivery, got something else: {}", kind_of(&other_kind)),
            }
        }
    }
}

fn kind_of(a: &DispatchAction) -> &'static str {
    match a {
        DispatchAction::Terminate => "terminate",
        DispatchAction::Deliver { .. } => "deliver",
        DispatchAction::Ignore => "ignore",
        DispatchAction::Failed => "failed",
    }
}

#[test]
fn terminates_once_bit_threshold_reached() {
    // 8 has four significant bits, meeting a threshold of 4.
    let mut d = Dispatch::new(vec![0, 1, 2, 3, 4], test_config(4));
    match d.handle_dispatch(send_event(2, 8)) {
        DispatchAction::Terminate => {},
        other => panic!("expected terminate, got {}", kind_of(&other)),
    }
    // 7 has three significant bits and is still routed.
    match d.handle_dispatch(send_event(2, 7)) {
        DispatchAction::Deliver { .. } => {},
        other => panic!("expected delivery, got {}", kind_of(&other)),
    }
}

#[test]
fn ignores_non_send_events() {
    let mut d = Dispatch::new(vec![0, 1, 2, 3, 4], test_config(1000));
    let mut ev = send_event(3, 6);
    ev.event_type = EventType::Internal;
    match d.handle_dispatch(ev) {
        DispatchAction::Ignore => {},
        other => panic!("expected ignore, got {}", kind_of(&other)),
    }
}

#[test]
fn fails_when_alone() {
    let config = Config { num_processes: 2, max_bits: 1000, float_precision: 64, timeout: 10 };
    let mut d = Dispatch::new(vec![0], config);
    let ev = Event::new(
        EventType::Send,
        0,
        &[1, 1],
        &Evc::from_u64(6),
        &astro_float::BigFloat::new(64),
        0,
    );
    match d.handle_dispatch(ev) {
        DispatchAction::Failed => {},
        other => panic!("expected failure, got {}", kind_of(&other)),
    }
}
