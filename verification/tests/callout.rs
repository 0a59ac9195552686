use nimble_port::npl::ble_npl_callout;
use nimble_port::npl::ble_npl_callout_get_ticks;
use nimble_port::npl::ble_npl_callout_init;
use nimble_port::npl::ble_npl_callout_is_active;
use nimble_port::npl::ble_npl_callout_remaining_ticks;
use nimble_port::npl::ble_npl_callout_reset;
use nimble_port::npl::ble_npl_callout_reset_at;
use nimble_port::npl::ble_npl_callout_stop;
use nimble_port::npl::BLE_NPL_ENOENT;
use nimble_port::npl::ble_npl_event;
use nimble_port::npl::ble_npl_event_is_queued;
use nimble_port::npl::ble_npl_eventq_get;
use nimble_port::npl::ble_npl_eventq_init;
use nimble_port::npl::ble_npl_eventq_remove;
use nimble_port::npl::callout_cb;
use nimble_port::npl::CalloutWaker;
use nimble_port::npl::clone_waker;
use nimble_port::npl::GetOutcome;
use nimble_port::npl::PortLayer;
use nimble_port::npl::WakeRequest;

fn layer_with_callout() -> (PortLayer, usize, usize) {
    let mut npl = PortLayer::new();
    let q = ble_npl_eventq_init(&mut npl);
    let c = ble_npl_callout_init(&mut npl, q, Some(0x1234), 0x55);
    (npl, q, c)
}

#[test]
fn callout_init_is_idle_and_owns_a_new_event() {
    let (npl, q, c) = layer_with_callout();
    assert_eq!(c, 0);
    let co = npl.callout(c);
    assert_eq!(co, ble_npl_callout { active: false, expires_at: 0, event_queue: q, event: 0 });
    assert_eq!(
        npl.event(co.event),
        ble_npl_event { event_fn: Some(0x1234), arg_ptr: 0x55, queued: false }
    );
    assert!(!ble_npl_callout_is_active(&npl, c));
}

#[test]
fn reset_at_arms_with_the_sum_of_now_and_ticks() {
    let (mut npl, _q, c) = layer_with_callout();
    let (status, wake) = ble_npl_callout_reset_at(&mut npl, c, 1_000, 250);
    assert_eq!(status, BLE_NPL_ENOENT);
    assert_eq!(status, 10);
    assert_eq!(wake, WakeRequest { at: 1_250, waker: CalloutWaker { data: c } });
    assert!(ble_npl_callout_is_active(&npl, c));
    assert_eq!(ble_npl_callout_get_ticks(&npl, c), 1_250);
}

#[test]
fn reset_at_keeps_the_low_32_bits_of_now() {
    let (mut npl, _q, c) = layer_with_callout();
    let (_, wake) = ble_npl_callout_reset_at(&mut npl, c, 0x5_0000_0010, 0x20);
    assert_eq!(wake.at, 0x30);
    assert_eq!(ble_npl_callout_get_ticks(&npl, c), 0x30);
}

#[test]
fn reset_at_wraps_on_the_tick_counter() {
    let (mut npl, _q, c) = layer_with_callout();
    let (_, wake) = ble_npl_callout_reset_at(&mut npl, c, 0xffff_fff0, 0x20);
    assert_eq!(wake.at, 0x10);
    let (_, wake) = ble_npl_callout_reset_at(&mut npl, c, 0xffff_ffff, 0xffff_ffff);
    assert_eq!(wake.at, 0xffff_fffe);
    let (_, wake) = ble_npl_callout_reset_at(&mut npl, c, 0xffff_ffff, 0);
    assert_eq!(wake.at, 0xffff_ffff);
    let (_, wake) = ble_npl_callout_reset_at(&mut npl, c, 0xffff_ffff, 1);
    assert_eq!(wake.at, 0);
}

#[test]
fn reset_reads_the_tick_counter() {
    let (mut npl, _q, c) = layer_with_callout();
    let (status, wake) = ble_npl_callout_reset(&mut npl, c, 0);
    assert_eq!(status, BLE_NPL_ENOENT);
    assert_eq!(wake.waker, CalloutWaker { data: c });
    assert!(ble_npl_callout_is_active(&npl, c));
    assert_eq!(wake.at, ble_npl_callout_get_ticks(&npl, c) as u64);
    assert!(wake.at <= 0xffff_ffff);
}

#[test]
fn a_wake_of_an_armed_callout_posts_its_event_once() {
    let (mut npl, q, c) = layer_with_callout();
    ble_npl_callout_reset_at(&mut npl, c, 0, 10);
    callout_cb(&mut npl, c);
    assert!(!ble_npl_callout_is_active(&npl, c));
    let event = npl.callout(c).event;
    assert!(ble_npl_event_is_queued(&npl, event));
    assert_eq!(npl.eventq_len(q), 1);
    callout_cb(&mut npl, c);
    assert_eq!(npl.eventq_len(q), 1);
    assert_eq!(ble_npl_eventq_get(&mut npl, q, 0), GetOutcome::Event(event));
    assert_eq!(ble_npl_eventq_get(&mut npl, q, 0), GetOutcome::Null);
}

#[test]
fn reset_then_stop_never_posts() {
    let (mut npl, q, c) = layer_with_callout();
    ble_npl_callout_reset_at(&mut npl, c, 100, 50);
    ble_npl_callout_stop(&mut npl, c);
    assert!(!ble_npl_callout_is_active(&npl, c));
    callout_cb(&mut npl, c);
    assert_eq!(npl.eventq_len(q), 0);
    assert!(!ble_npl_event_is_queued(&npl, npl.callout(c).event));
    assert_eq!(ble_npl_eventq_get(&mut npl, q, 0), GetOutcome::Null);
    assert_eq!(ble_npl_callout_get_ticks(&npl, c), 150);
}

#[test]
fn two_resets_in_a_row_post_once_with_the_later_deadline() {
    let (mut npl, q, c) = layer_with_callout();
    let (_, first) = ble_npl_callout_reset_at(&mut npl, c, 100, 50);
    let (_, second) = ble_npl_callout_reset_at(&mut npl, c, 110, 500);
    assert_eq!(first.at, 150);
    assert_eq!(second.at, 610);
    assert_eq!(ble_npl_callout_get_ticks(&npl, c), 610);
    callout_cb(&mut npl, c);
    callout_cb(&mut npl, c);
    assert_eq!(npl.eventq_len(q), 1);
    assert_eq!(ble_npl_eventq_get(&mut npl, q, 0), GetOutcome::Event(npl.callout(c).event));
    assert_eq!(ble_npl_eventq_get(&mut npl, q, 0), GetOutcome::Null);
}

#[test]
fn stop_of_an_idle_callout_keeps_it_idle() {
    let (mut npl, _q, c) = layer_with_callout();
    ble_npl_callout_stop(&mut npl, c);
    assert!(!ble_npl_callout_is_active(&npl, c));
    assert_eq!(ble_npl_callout_get_ticks(&npl, c), 0);
}

#[test]
fn a_posted_callout_event_can_be_removed_again() {
    let (mut npl, q, c) = layer_with_callout();
    ble_npl_callout_reset_at(&mut npl, c, 0, 1);
    callout_cb(&mut npl, c);
    let event = npl.callout(c).event;
    ble_npl_eventq_remove(&mut npl, q, event);
    assert!(!ble_npl_event_is_queued(&npl, event));
    assert_eq!(ble_npl_eventq_get(&mut npl, q, 0), GetOutcome::Null);
}

#[test]
fn remaining_ticks_is_the_deadline_less_the_time() {
    let (mut npl, _q, c) = layer_with_callout();
    ble_npl_callout_reset_at(&mut npl, c, 1_000, 500);
    assert_eq!(ble_npl_callout_remaining_ticks(&npl, c, 1_000), 500);
    assert_eq!(ble_npl_callout_remaining_ticks(&npl, c, 1_300), 200);
    assert_eq!(ble_npl_callout_remaining_ticks(&npl, c, 1_499), 1);
    assert_eq!(ble_npl_callout_remaining_ticks(&npl, c, 1_500), 0);
    assert_eq!(ble_npl_callout_remaining_ticks(&npl, c, 0), 1_500);
}

#[test]
fn remaining_ticks_past_the_deadline_goes_round_the_tick_counter() {
    let (mut npl, _q, c) = layer_with_callout();
    ble_npl_callout_reset_at(&mut npl, c, 1_000, 500);
    assert_eq!(ble_npl_callout_remaining_ticks(&npl, c, 1_501), 0xffff_ffff);
    assert_eq!(ble_npl_callout_remaining_ticks(&npl, c, 1_700), 0xffff_ffffu32 - 199);
    assert_eq!(ble_npl_callout_remaining_ticks(&npl, c, 0xffff_ffff), 1_501);
}

#[test]
fn remaining_ticks_to_a_deadline_beyond_the_wrap_of_the_counter() {
    let (mut npl, _q, c) = layer_with_callout();
    ble_npl_callout_reset_at(&mut npl, c, 0xffff_fff0, 0x20);
    assert_eq!(ble_npl_callout_get_ticks(&npl, c), 0x10);
    assert_eq!(ble_npl_callout_remaining_ticks(&npl, c, 0xffff_fff0), 0x20);
    assert_eq!(ble_npl_callout_remaining_ticks(&npl, c, 0xffff_ffff), 0x11);
    assert_eq!(ble_npl_callout_remaining_ticks(&npl, c, 0x0), 0x10);
    assert_eq!(ble_npl_callout_remaining_ticks(&npl, c, 0x10), 0);
}

#[test]
fn clone_waker_wakes_the_same_callout() {
    assert_eq!(clone_waker(3), CalloutWaker { data: 3 });
    assert_eq!(clone_waker(0), CalloutWaker { data: 0 });
    let w = clone_waker(usize::MAX);
    assert_eq!(clone_waker(w.data), w);
}

#[test]
fn callouts_of_one_queue_post_in_the_order_of_their_wakes() {
    let mut npl = PortLayer::new();
    let q = ble_npl_eventq_init(&mut npl);
    let c1 = ble_npl_callout_init(&mut npl, q, None, 1);
    let c2 = ble_npl_callout_init(&mut npl, q, None, 2);
    ble_npl_callout_reset_at(&mut npl, c1, 0, 10);
    ble_npl_callout_reset_at(&mut npl, c2, 0, 5);
    callout_cb(&mut npl, c2);
    callout_cb(&mut npl, c1);
    assert_eq!(ble_npl_eventq_get(&mut npl, q, 0), GetOutcome::Event(npl.callout(c2).event));
    assert_eq!(ble_npl_eventq_get(&mut npl, q, 0), GetOutcome::Event(npl.callout(c1).event));
}
