use superloop::bus::{BusError, BusOp, SharedBus};
use superloop::gate::ActionState;
use superloop::sched::Scheduler;
use superloop::tick::{elapsed, tick_add};
use superloop::transport::TransportEndpoint;

#[test]
fn elapsed_exact_values() {
    assert_eq!(elapsed(10, 3), 7);
    assert_eq!(elapsed(5, 5), 0);
    // 3 - 10 modulo 2^64
    assert_eq!(elapsed(3, 10), u64::MAX - 6);
    assert_eq!(elapsed(0, u64::MAX), 1);
}

#[test]
fn wraparound_elapsed_recovers_duration() {
    // A reading just before overflow, advanced past the wrap point.
    let a = u64::MAX - 5;
    let b = tick_add(a, 10);
    assert_eq!(b, 4);
    assert_eq!(elapsed(b, a), 10);

    // The decision matches plain arithmetic across the wrap.
    let mut s = ActionState::new(10, a);
    assert!(s.due(b));
    let mut t = ActionState::new(11, a);
    assert!(!t.due(b));
}

#[test]
fn scenario_one_microsecond_interval() {
    // interval = 1,000,000 ticks at 1 us per tick: readings 0, 999_999,
    // 1_000_000 yield false, false, true.
    let mut s = ActionState::new(1_000_000, 0);
    assert!(!s.due(0));
    assert!(!s.due(999_999));
    assert!(s.due(1_000_000));
    assert_eq!(s.last_fired, 1_000_000);
    // Not due again until another full interval has passed.
    assert!(!s.due(1_999_999));
    assert!(s.due(2_000_000));
}

#[test]
fn zero_interval_fires_every_call() {
    let mut s = ActionState::new(0, 7);
    assert!(s.due(7));
    assert!(s.due(7));
    assert!(s.due(8));
    assert!(s.due(3));
    assert!(s.due(u64::MAX));
}

#[test]
fn minimum_spacing_over_run() {
    // Whatever readings are fed in, consecutive firings are at least
    // one interval apart under wraparound-safe subtraction.
    let interval = 3;
    let mut s = ActionState::new(interval, 0);
    let nows: Vec<u64> = vec![0, 1, 2, 3, 4, 5, 6, 8, 9, 10, 11, 15, 16, 17, 18, 19, 20];
    let mut fire_times: Vec<u64> = Vec::new();
    for &now in &nows {
        if s.due(now) {
            fire_times.push(now);
        }
    }
    assert_eq!(fire_times, vec![3, 6, 9, 15, 18]);
    for pair in fire_times.windows(2) {
        assert!(elapsed(pair[1], pair[0]) >= interval);
    }
}

#[test]
fn scenario_two_actions_same_iteration() {
    // Intervals 1,000,000 and 5,000,000, registered in that order at
    // boot. After 5,000,000 ticks both fire in the same iteration, the
    // first action before the second.
    let mut sched = Scheduler::new();
    assert_eq!(sched.register(1_000_000, 0), 0);
    assert_eq!(sched.register(5_000_000, 0), 1);
    for k in 1..5u64 {
        let due = sched.step(k * 1_000_000);
        assert_eq!(due, vec![0]);
    }
    let due = sched.step(5_000_000);
    assert_eq!(due, vec![0, 1]);
}

#[test]
fn idle_iteration_fires_nothing() {
    let mut sched = Scheduler::new();
    sched.register(1_000_000, 0);
    sched.register(5_000_000, 0);
    let due = sched.step(999_999);
    assert!(due.is_empty());
    assert_eq!(sched.actions[0].last_fired, 0);
    assert_eq!(sched.actions[1].last_fired, 0);
}

#[test]
fn overlapping_transactions_serialized() {
    // Two logical devices want the bus at once; the multiplexer makes
    // device 2 wait until device 1's transaction is over, so the trace
    // shows no interleaved byte-level exchange.
    let rate = 1_000_000;
    let mut bus = SharedBus::new(rate);

    bus.begin_transaction(1);
    // Device 2's request arrives here; the bus is owned, so it waits.
    assert_eq!(bus.owner, Some(1));
    bus.transfer(1);
    bus.transfer(1);
    assert_eq!(bus.end_transaction(1, Ok(())), Ok(()));

    // Only now can device 2 run.
    assert_eq!(bus.owner, None);
    assert_eq!(bus.transaction(2, 1, Ok(())), Ok(()));

    assert_eq!(
        bus.trace,
        vec![
            BusOp::Select(1),
            BusOp::Transfer(1, rate),
            BusOp::Transfer(1, rate),
            BusOp::Deselect(1),
            BusOp::Select(2),
            BusOp::Transfer(2, rate),
            BusOp::Deselect(2),
        ]
    );
}

#[test]
fn failed_transaction_deselects() {
    // A transaction that fails mid-flight still ends with the device's
    // chip select released before control returns.
    let mut bus = SharedBus::new(400_000);
    let r = bus.transaction(3, 1, Err(BusError::Timeout));
    assert_eq!(r, Err(BusError::Timeout));
    assert_eq!(bus.owner, None);
    assert_eq!(bus.trace.last(), Some(&BusOp::Deselect(3)));

    let r = bus.transaction(3, 0, Err(BusError::NoAcknowledge));
    assert_eq!(r, Err(BusError::NoAcknowledge));
    assert_eq!(bus.owner, None);
    assert_eq!(bus.trace.last(), Some(&BusOp::Deselect(3)));
}

#[test]
fn reconfiguration_between_transactions() {
    // A clock-rate change issued between two transactions never alters
    // the rate observed during either one.
    let mut bus = SharedBus::new(1_000_000);
    assert_eq!(bus.transaction(1, 2, Ok(())), Ok(()));
    bus.set_clock_rate(1_100_000);
    assert_eq!(bus.transaction(1, 2, Ok(())), Ok(()));

    // Every exchange of the first transaction saw the old rate, every
    // exchange of the second the new one, and no reconfiguration fell
    // inside a transaction.
    let mut selected = false;
    let mut rates: Vec<u32> = Vec::new();
    for op in &bus.trace {
        match *op {
            BusOp::Select(_) => selected = true,
            BusOp::Deselect(_) => selected = false,
            BusOp::Transfer(_, r) => rates.push(r),
            BusOp::Configure(_) => assert!(!selected),
        }
    }
    assert_eq!(rates, vec![1_000_000, 1_000_000, 1_100_000, 1_100_000]);
}

#[test]
fn best_effort_send_truncates() {
    let mut t = TransportEndpoint::new(8);
    let accepted = t.send_best_effort(&vec![1, 2, 3, 4, 5, 6]);
    assert_eq!(accepted, 6);
    // Only two slots remain: the tail of the message is dropped.
    let accepted = t.send_best_effort(&vec![7, 8, 9, 10]);
    assert_eq!(accepted, 2);
    assert_eq!(t.pending, vec![1, 2, 3, 4, 5, 6, 7, 8]);
    // A full buffer accepts nothing, and never blocks.
    let accepted = t.send_best_effort(&vec![11]);
    assert_eq!(accepted, 0);
    assert_eq!(t.delivered, Vec::<u8>::new());
}

#[test]
fn poll_delivers_in_order() {
    let mut t = TransportEndpoint::new(32);
    t.send_best_effort(&b"hello ".to_vec());
    t.poll();
    assert!(t.pending.is_empty());
    t.send_best_effort(&b"world\r\n".to_vec());
    t.poll();
    assert_eq!(t.delivered, b"hello world\r\n".to_vec());
    // Polling with nothing pending is harmless.
    t.poll();
    assert_eq!(t.delivered, b"hello world\r\n".to_vec());
}

#[test]
fn diagnostic_loop_reports_every_firing() {
    // A miniature super-loop: one periodic action that runs a bus
    // transaction and reports on the transport, which is polled every
    // iteration whether or not the action fired.
    let mut sched = Scheduler::new();
    let card = sched.register(1_000, 0);
    let mut bus = SharedBus::new(400_000);
    let mut endpoint = TransportEndpoint::new(64);

    let mut now: u64 = 0;
    for _ in 0..10 {
        now = tick_add(now, 250);
        let due = sched.step(now);
        for &idx in &due {
            assert_eq!(idx, card);
            let outcome = bus.transaction(1, 1, Ok(()));
            let line: Vec<u8> = match outcome {
                Ok(()) => b"ok\r\n".to_vec(),
                Err(_) => b"bus error\r\n".to_vec(),
            };
            endpoint.send_best_effort(&line);
        }
        endpoint.poll();
    }
    // Ten iterations of 250 ticks with a 1,000-tick interval: firings
    // at 1,000 and 2,000 only.
    assert_eq!(endpoint.delivered, b"ok\r\nok\r\n".to_vec());
    assert_eq!(bus.trace.len(), 6);
}
