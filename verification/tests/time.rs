use nimble_port::npl::BLE_NPL_OK;
use nimble_port::time::ble_npl_time_get;
use nimble_port::time::ble_npl_time_ms_to_ticks32;
use nimble_port::time::ble_npl_time_ms_to_ticks;
use nimble_port::time::ble_npl_time_ticks_to_ms32;
use nimble_port::time::ble_npl_time_ticks_to_ms;
use nimble_port::time::tick_count;
use nimble_port::time::TICKS_PER_MILLI;

#[test]
fn the_time_driver_ticks_once_a_microsecond() {
    assert_eq!(embassy_time::TICK_HZ, 1_000_000);
    assert_eq!(TICKS_PER_MILLI, 1_000);
    assert_eq!(embassy_time::TICK_HZ, TICKS_PER_MILLI * 1_000);
}

#[test]
fn milliseconds_become_ticks_at_the_tick_rate() {
    assert_eq!(ble_npl_time_ms_to_ticks32(0), 0);
    assert_eq!(ble_npl_time_ms_to_ticks32(1), 1_000);
    assert_eq!(ble_npl_time_ms_to_ticks32(5), 5_000);
    assert_eq!(ble_npl_time_ms_to_ticks32(4_294_967), 4_294_967_000);
}

#[test]
fn milliseconds_to_ticks_keeps_the_low_32_bits() {
    assert_eq!(ble_npl_time_ms_to_ticks32(4_294_968), 704);
    assert_eq!(ble_npl_time_ms_to_ticks32(0xffff_ffff), 0xffff_fc18);
}

#[test]
fn ticks_become_milliseconds_rounded_down() {
    assert_eq!(ble_npl_time_ticks_to_ms32(0), 0);
    assert_eq!(ble_npl_time_ticks_to_ms32(999), 0);
    assert_eq!(ble_npl_time_ticks_to_ms32(1_000), 1);
    assert_eq!(ble_npl_time_ticks_to_ms32(5_999), 5);
    assert_eq!(ble_npl_time_ticks_to_ms32(0xffff_ffff), 4_294_967);
}

#[test]
fn conversions_through_out_parameters_report_success() {
    let mut ticks = 7u32;
    assert_eq!(ble_npl_time_ms_to_ticks(20, &mut ticks), BLE_NPL_OK);
    assert_eq!(ticks, 20_000);
    let mut ms = 7u32;
    assert_eq!(ble_npl_time_ticks_to_ms(20_000, &mut ms), BLE_NPL_OK);
    assert_eq!(ms, 20);
    assert_eq!(BLE_NPL_OK, 0);
}

#[test]
fn tick_count_keeps_the_low_32_bits() {
    assert_eq!(tick_count(0), 0);
    assert_eq!(tick_count(0xffff_ffff), 0xffff_ffff);
    assert_eq!(tick_count(0x1_0000_0000), 0);
    assert_eq!(tick_count(0x1234_5678_9abc_def0), 0x9abc_def0);
}

#[test]
fn the_tick_counter_can_be_read() {
    let first = ble_npl_time_get();
    let second = ble_npl_time_get();
    assert!(second.wrapping_sub(first) < 0x8000_0000);
}
