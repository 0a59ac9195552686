use nimble_port::chan::EVENT_CHANNEL_DEPTH;
use nimble_port::npl::ble_npl_event;
use nimble_port::npl::ble_npl_event_get_arg;
use nimble_port::npl::ble_npl_event_init;
use nimble_port::npl::ble_npl_event_is_queued;
use nimble_port::npl::ble_npl_event_run;
use nimble_port::npl::ble_npl_event_set_arg;
use nimble_port::npl::ble_npl_eventq_get;
use nimble_port::npl::ble_npl_eventq_get_after_wait;
use nimble_port::npl::ble_npl_eventq_init;
use nimble_port::npl::ble_npl_eventq_put;
use nimble_port::npl::ble_npl_eventq_remove;
use nimble_port::npl::ble_npl_mutex;
use nimble_port::npl::ble_npl_sem;
use nimble_port::npl::BLE_NPL_TIME_FOREVER;
use nimble_port::npl::EVENT_QUEUE_POOL_SIZE;
use nimble_port::npl::GetOutcome;
use nimble_port::npl::nimble_port_run;
use nimble_port::npl::PortLayer;
use nimble_port::npl::RunStep;

fn drain(npl: &mut PortLayer, q: usize) -> Vec<usize> {
    let mut seen = Vec::new();
    while let GetOutcome::Event(ev) = ble_npl_eventq_get(npl, q, 0) {
        seen.push(ev);
    }
    seen
}

#[test]
fn put_then_get_is_fifo() {
    let mut npl = PortLayer::new();
    let q = ble_npl_eventq_init(&mut npl);
    let a = ble_npl_event_init(&mut npl, Some(0x100), 1);
    let b = ble_npl_event_init(&mut npl, Some(0x200), 2);
    let c = ble_npl_event_init(&mut npl, None, 3);
    ble_npl_eventq_put(&mut npl, q, a);
    ble_npl_eventq_put(&mut npl, q, b);
    ble_npl_eventq_put(&mut npl, q, c);
    assert_eq!(ble_npl_eventq_get(&mut npl, q, 0), GetOutcome::Event(a));
    assert_eq!(ble_npl_eventq_get(&mut npl, q, 0), GetOutcome::Event(b));
    assert_eq!(ble_npl_eventq_get(&mut npl, q, 0), GetOutcome::Event(c));
    assert_eq!(ble_npl_eventq_get(&mut npl, q, 0), GetOutcome::Null);
}

#[test]
fn fifo_holds_across_interleaved_puts_and_gets() {
    let mut npl = PortLayer::new();
    let q = ble_npl_eventq_init(&mut npl);
    let evs: Vec<usize> = (0..5).map(|i| ble_npl_event_init(&mut npl, None, i)).collect();
    ble_npl_eventq_put(&mut npl, q, evs[0]);
    ble_npl_eventq_put(&mut npl, q, evs[1]);
    assert_eq!(ble_npl_eventq_get(&mut npl, q, 0), GetOutcome::Event(evs[0]));
    ble_npl_eventq_put(&mut npl, q, evs[2]);
    ble_npl_eventq_put(&mut npl, q, evs[0]);
    assert_eq!(drain(&mut npl, q), vec![evs[1], evs[2], evs[0]]);
}

#[test]
fn get_with_timeout_zero_on_empty_queue_is_null() {
    let mut npl = PortLayer::new();
    let q = ble_npl_eventq_init(&mut npl);
    assert_eq!(ble_npl_eventq_get(&mut npl, q, 0), GetOutcome::Null);
    assert_eq!(npl.eventq_len(q), 0);
}

#[test]
fn get_forever_on_empty_queue_suspends_without_limit() {
    let mut npl = PortLayer::new();
    let q = ble_npl_eventq_init(&mut npl);
    assert_eq!(
        ble_npl_eventq_get(&mut npl, q, BLE_NPL_TIME_FOREVER),
        GetOutcome::Suspend { timeout_ms: None }
    );
}

#[test]
fn get_with_bounded_timeout_on_empty_queue_suspends_for_that_time() {
    let mut npl = PortLayer::new();
    let q = ble_npl_eventq_init(&mut npl);
    assert_eq!(
        ble_npl_eventq_get(&mut npl, q, 250),
        GetOutcome::Suspend { timeout_ms: Some(250) }
    );
    assert_eq!(
        ble_npl_eventq_get(&mut npl, q, 1),
        GetOutcome::Suspend { timeout_ms: Some(1) }
    );
    assert_eq!(
        ble_npl_eventq_get(&mut npl, q, BLE_NPL_TIME_FOREVER - 1),
        GetOutcome::Suspend { timeout_ms: Some(0xffff_fffe) }
    );
}

#[test]
fn get_with_any_timeout_returns_a_waiting_event_at_once() {
    let mut npl = PortLayer::new();
    let q = ble_npl_eventq_init(&mut npl);
    let a = ble_npl_event_init(&mut npl, None, 0);
    let b = ble_npl_event_init(&mut npl, None, 0);
    ble_npl_eventq_put(&mut npl, q, a);
    ble_npl_eventq_put(&mut npl, q, b);
    assert_eq!(ble_npl_eventq_get(&mut npl, q, BLE_NPL_TIME_FOREVER), GetOutcome::Event(a));
    assert_eq!(ble_npl_eventq_get(&mut npl, q, 40), GetOutcome::Event(b));
}

#[test]
fn put_sets_and_get_clears_the_queued_flag() {
    let mut npl = PortLayer::new();
    let q = ble_npl_eventq_init(&mut npl);
    let a = ble_npl_event_init(&mut npl, Some(7), 9);
    assert!(!ble_npl_event_is_queued(&npl, a));
    ble_npl_eventq_put(&mut npl, q, a);
    assert!(ble_npl_event_is_queued(&npl, a));
    assert_eq!(npl.eventq_len(q), 1);
    assert_eq!(ble_npl_eventq_get(&mut npl, q, 0), GetOutcome::Event(a));
    assert!(!ble_npl_event_is_queued(&npl, a));
    assert_eq!(npl.eventq_len(q), 0);
}

#[test]
fn remove_takes_one_event_out_and_keeps_the_order_of_the_rest() {
    let mut npl = PortLayer::new();
    let q = ble_npl_eventq_init(&mut npl);
    let evs: Vec<usize> = (0..4).map(|i| ble_npl_event_init(&mut npl, None, i)).collect();
    for ev in &evs {
        ble_npl_eventq_put(&mut npl, q, *ev);
    }
    ble_npl_eventq_remove(&mut npl, q, evs[1]);
    assert!(!ble_npl_event_is_queued(&npl, evs[1]));
    assert!(ble_npl_event_is_queued(&npl, evs[0]));
    assert_eq!(npl.eventq_len(q), 3);
    assert_eq!(drain(&mut npl, q), vec![evs[0], evs[2], evs[3]]);
}

#[test]
fn remove_of_the_first_and_of_the_last_event() {
    let mut npl = PortLayer::new();
    let q = ble_npl_eventq_init(&mut npl);
    let evs: Vec<usize> = (0..3).map(|i| ble_npl_event_init(&mut npl, None, i)).collect();
    for ev in &evs {
        ble_npl_eventq_put(&mut npl, q, *ev);
    }
    ble_npl_eventq_remove(&mut npl, q, evs[0]);
    ble_npl_eventq_remove(&mut npl, q, evs[2]);
    assert_eq!(drain(&mut npl, q), vec![evs[1]]);
}

#[test]
fn remove_of_an_event_that_is_not_queued_changes_nothing() {
    let mut npl = PortLayer::new();
    let q = ble_npl_eventq_init(&mut npl);
    let a = ble_npl_event_init(&mut npl, None, 0);
    let b = ble_npl_event_init(&mut npl, None, 0);
    ble_npl_eventq_put(&mut npl, q, a);
    ble_npl_eventq_remove(&mut npl, q, b);
    assert_eq!(npl.eventq_len(q), 1);
    assert!(ble_npl_event_is_queued(&npl, a));
    assert!(!ble_npl_event_is_queued(&npl, b));
    assert_eq!(drain(&mut npl, q), vec![a]);
}

#[test]
fn remove_on_an_empty_queue_changes_nothing() {
    let mut npl = PortLayer::new();
    let q = ble_npl_eventq_init(&mut npl);
    let a = ble_npl_event_init(&mut npl, None, 0);
    ble_npl_eventq_remove(&mut npl, q, a);
    assert_eq!(npl.eventq_len(q), 0);
    assert_eq!(ble_npl_eventq_get(&mut npl, q, 0), GetOutcome::Null);
}

#[test]
fn remove_takes_every_occurrence_out() {
    let mut npl = PortLayer::new();
    let q = ble_npl_eventq_init(&mut npl);
    let a = ble_npl_event_init(&mut npl, None, 0);
    let b = ble_npl_event_init(&mut npl, None, 0);
    ble_npl_eventq_put(&mut npl, q, a);
    ble_npl_eventq_put(&mut npl, q, b);
    ble_npl_eventq_put(&mut npl, q, a);
    ble_npl_eventq_remove(&mut npl, q, a);
    assert_eq!(npl.eventq_len(q), 1);
    assert_eq!(drain(&mut npl, q), vec![b]);
}

#[test]
fn remove_on_a_full_queue_keeps_the_other_fifteen() {
    let mut npl = PortLayer::new();
    let q = ble_npl_eventq_init(&mut npl);
    let evs: Vec<usize> = (0..EVENT_CHANNEL_DEPTH).map(|i| ble_npl_event_init(&mut npl, None, i)).collect();
    for ev in &evs {
        ble_npl_eventq_put(&mut npl, q, *ev);
    }
    assert!(npl.eventq_is_full(q));
    ble_npl_eventq_remove(&mut npl, q, evs[7]);
    assert!(!npl.eventq_is_full(q));
    let mut expected = evs.clone();
    expected.remove(7);
    assert_eq!(drain(&mut npl, q), expected);
}

#[test]
fn queues_do_not_share_events() {
    let mut npl = PortLayer::new();
    let q1 = ble_npl_eventq_init(&mut npl);
    let q2 = ble_npl_eventq_init(&mut npl);
    let a = ble_npl_event_init(&mut npl, None, 0);
    let b = ble_npl_event_init(&mut npl, None, 0);
    ble_npl_eventq_put(&mut npl, q1, a);
    ble_npl_eventq_put(&mut npl, q2, b);
    ble_npl_eventq_remove(&mut npl, q1, b);
    assert_eq!(drain(&mut npl, q2), vec![b]);
    assert_eq!(drain(&mut npl, q1), vec![a]);
}

#[test]
fn the_pool_gives_eight_queues_and_no_more() {
    let mut npl = PortLayer::new();
    for expected in 0..EVENT_QUEUE_POOL_SIZE {
        assert!(!npl.pool_exhausted());
        assert_eq!(ble_npl_eventq_init(&mut npl), expected);
    }
    assert!(npl.pool_exhausted());
}

#[test]
fn a_queue_is_full_after_sixteen_puts() {
    let mut npl = PortLayer::new();
    let q = ble_npl_eventq_init(&mut npl);
    for i in 0..EVENT_CHANNEL_DEPTH {
        assert!(!npl.eventq_is_full(q));
        let ev = ble_npl_event_init(&mut npl, None, i);
        ble_npl_eventq_put(&mut npl, q, ev);
    }
    assert!(npl.eventq_is_full(q));
    assert_eq!(npl.eventq_len(q), 16);
}

#[test]
fn event_init_stores_handler_and_argument() {
    let mut npl = PortLayer::new();
    let a = ble_npl_event_init(&mut npl, Some(0xdead), 0xbeef);
    assert_eq!(a, 0);
    assert_eq!(
        npl.event(a),
        ble_npl_event { event_fn: Some(0xdead), arg_ptr: 0xbeef, queued: false }
    );
    assert_eq!(ble_npl_event_run(&npl, a), Some(0xdead));
    assert_eq!(ble_npl_event_get_arg(&npl, a), 0xbeef);
    let b = ble_npl_event_init(&mut npl, None, 1);
    assert_eq!(b, 1);
    assert_eq!(ble_npl_event_run(&npl, b), None);
}

#[test]
fn set_arg_replaces_only_the_argument() {
    let mut npl = PortLayer::new();
    let q = ble_npl_eventq_init(&mut npl);
    let a = ble_npl_event_init(&mut npl, Some(5), 1);
    ble_npl_eventq_put(&mut npl, q, a);
    ble_npl_event_set_arg(&mut npl, a, 77);
    assert_eq!(npl.event(a), ble_npl_event { event_fn: Some(5), arg_ptr: 77, queued: true });
}

#[test]
fn the_event_loop_runs_the_oldest_event_or_suspends() {
    let mut npl = PortLayer::new();
    let q = ble_npl_eventq_init(&mut npl);
    assert_eq!(nimble_port_run(&mut npl, q), RunStep::Suspend);
    let a = ble_npl_event_init(&mut npl, Some(0x40), 0);
    let b = ble_npl_event_init(&mut npl, None, 0);
    ble_npl_eventq_put(&mut npl, q, a);
    ble_npl_eventq_put(&mut npl, q, b);
    assert_eq!(nimble_port_run(&mut npl, q), RunStep::Run { ev: a, handler: Some(0x40) });
    assert_eq!(nimble_port_run(&mut npl, q), RunStep::Run { ev: b, handler: None });
    assert_eq!(nimble_port_run(&mut npl, q), RunStep::Suspend);
}

#[test]
fn mutex_and_semaphore_are_plain_records() {
    let m = ble_npl_mutex { dummy: () };
    let s = ble_npl_sem { dummy: () };
    assert_eq!(m, ble_npl_mutex { dummy: () });
    assert_eq!(s, ble_npl_sem { dummy: () });
}

#[test]
fn the_queued_flag_tells_whether_an_event_is_in_a_queue() {
    let mut npl = PortLayer::new();
    let q1 = ble_npl_eventq_init(&mut npl);
    let q2 = ble_npl_eventq_init(&mut npl);
    let evs: Vec<usize> = (0..6).map(|i| ble_npl_event_init(&mut npl, None, i)).collect();
    ble_npl_eventq_put(&mut npl, q1, evs[0]);
    ble_npl_eventq_put(&mut npl, q2, evs[1]);
    ble_npl_eventq_put(&mut npl, q1, evs[2]);
    ble_npl_eventq_put(&mut npl, q2, evs[3]);
    ble_npl_eventq_put(&mut npl, q1, evs[4]);
    ble_npl_eventq_remove(&mut npl, q1, evs[2]);
    ble_npl_eventq_remove(&mut npl, q1, evs[3]);
    assert_eq!(ble_npl_eventq_get(&mut npl, q2, 0), GetOutcome::Event(evs[1]));
    let flags: Vec<bool> = evs.iter().map(|ev| ble_npl_event_is_queued(&npl, *ev)).collect();
    assert_eq!(flags, vec![true, false, false, true, true, false]);
    assert_eq!(drain(&mut npl, q1), vec![evs[0], evs[4]]);
    assert_eq!(drain(&mut npl, q2), vec![evs[3]]);
    for ev in &evs {
        assert!(!ble_npl_event_is_queued(&npl, *ev));
    }
}

#[test]
fn a_wake_without_an_event_does_not_end_a_bounded_wait() {
    let mut npl = PortLayer::new();
    let q = ble_npl_eventq_init(&mut npl);
    assert_eq!(
        ble_npl_eventq_get_after_wait(&mut npl, q, false, 120),
        GetOutcome::Suspend { timeout_ms: Some(120) }
    );
    assert_eq!(
        ble_npl_eventq_get_after_wait(&mut npl, q, false, 1),
        GetOutcome::Suspend { timeout_ms: Some(1) }
    );
    assert_eq!(npl.eventq_len(q), 0);
}

#[test]
fn a_bounded_wait_ends_with_null_once_its_time_is_up() {
    let mut npl = PortLayer::new();
    let q = ble_npl_eventq_init(&mut npl);
    assert_eq!(ble_npl_eventq_get_after_wait(&mut npl, q, true, 0), GetOutcome::Null);
    assert_eq!(ble_npl_eventq_get_after_wait(&mut npl, q, true, 50), GetOutcome::Null);
    assert_eq!(ble_npl_eventq_get_after_wait(&mut npl, q, false, 0), GetOutcome::Null);
    assert_eq!(npl.eventq_len(q), 0);
}

#[test]
fn a_consumer_that_has_waited_takes_an_event_that_is_there() {
    let mut npl = PortLayer::new();
    let q = ble_npl_eventq_init(&mut npl);
    let a = ble_npl_event_init(&mut npl, None, 0);
    let b = ble_npl_event_init(&mut npl, None, 0);
    ble_npl_eventq_put(&mut npl, q, a);
    ble_npl_eventq_put(&mut npl, q, b);
    assert_eq!(ble_npl_eventq_get_after_wait(&mut npl, q, false, 10), GetOutcome::Event(a));
    assert!(!ble_npl_event_is_queued(&npl, a));
    assert_eq!(ble_npl_eventq_get_after_wait(&mut npl, q, true, 0), GetOutcome::Event(b));
    assert_eq!(ble_npl_eventq_get_after_wait(&mut npl, q, true, 0), GetOutcome::Null);
}

#[test]
fn each_queue_claims_the_first_free_slot_for_itself() {
    let mut npl = PortLayer::new();
    let mut queues = Vec::new();
    for _ in 0..EVENT_QUEUE_POOL_SIZE {
        queues.push(ble_npl_eventq_init(&mut npl));
    }
    assert_eq!(queues, vec![0, 1, 2, 3, 4, 5, 6, 7]);
    let ev = ble_npl_event_init(&mut npl, None, 0);
    ble_npl_eventq_put(&mut npl, queues[3], ev);
    for q in &queues {
        assert_eq!(npl.eventq_len(*q), if *q == queues[3] { 1 } else { 0 });
    }
}
