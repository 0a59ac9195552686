//! The tick counter of the time driver and the conversions between
//! milliseconds and ticks, which `embassy_time` does at the tick rate that
//! this crate builds it with: one tick per microsecond.
use crate::npl::BLE_NPL_OK;
use embassy_time::Instant;
use vstd::prelude::*;

verus! {

/// The ticks of the time driver in one millisecond.
pub const TICKS_PER_MILLI: u64 = 1000;

/// The ticks that `ms` milliseconds take.
pub open spec fn ticks_of_millis(ms: u32) -> u64 {
    (ms * TICKS_PER_MILLI) as u64
}

/// The whole milliseconds that `ticks` ticks take.
pub open spec fn millis_of_ticks(ticks: u32) -> u64 {
    (ticks as int / TICKS_PER_MILLI as int) as u64
}

/// Calls `embassy_time_driver::now`: the ticks since the driver's start. The
/// value depends on when it is read, so nothing is said of it.
#[verifier::external_body]
pub(crate) fn driver_now() -> (now: u64) {
    embassy_time_driver::now()
}

/// Calls `embassy_time::Instant::from_millis` and reads the ticks of the
/// instant: the milliseconds times the tick rate, divided by 1000. At the
/// tick rate of 1 000 000 that the crate's features fix, that is a thousand
/// ticks for each millisecond.
#[verifier::external_body]
pub(crate) fn instant_ticks_of_millis(ms: u32) -> (ticks: u64)
    ensures
        ticks == ticks_of_millis(ms),
{
    Instant::from_millis(ms as u64).as_ticks()
}

/// Calls `embassy_time::Instant::from_ticks` and reads the milliseconds of the
/// instant: the ticks times 1000, divided by the tick rate and rounded down.
/// At the tick rate of 1 000 000 that the crate's features fix, that is the
/// ticks divided by a thousand.
#[verifier::external_body]
pub(crate) fn instant_millis_of_ticks(ticks: u32) -> (ms: u64)
    ensures
        ms == millis_of_ticks(ticks),
{
    Instant::from_ticks(ticks as u64).as_millis()
}

/// The 32-bit tick count of a reading of the tick counter: its low 32 bits.
pub fn tick_count(now: u64) -> (ticks: u32)
    ensures
        ticks == now as u32,
        ticks == now % 0x1_0000_0000,
{
    assert((now as u32) as u64 == now % 0x1_0000_0000u64) by (bit_vector);
    #[verifier::truncate]
    (now as u32)
}

/// The current 32-bit tick count.
pub fn ble_npl_time_get() -> (ticks: u32) {
    tick_count(driver_now())
}

/// Converts milliseconds to ticks, kept to 32 bits, into `out_ticks`.
pub fn ble_npl_time_ms_to_ticks(ms: u32, out_ticks: &mut u32) -> (status: u32)
    ensures
        status == BLE_NPL_OK,
        *final(out_ticks) == (ms * TICKS_PER_MILLI) % 0x1_0000_0000,
{
    *out_ticks = ble_npl_time_ms_to_ticks32(ms);
    BLE_NPL_OK
}

/// Converts ticks to whole milliseconds into `out_ms`.
pub fn ble_npl_time_ticks_to_ms(ticks: u32, out_ms: &mut u32) -> (status: u32)
    ensures
        status == BLE_NPL_OK,
        *final(out_ms) == ticks as int / TICKS_PER_MILLI as int,
{
    *out_ms = ble_npl_time_ticks_to_ms32(ticks);
    BLE_NPL_OK
}

/// Converts milliseconds to ticks, kept to 32 bits.
pub fn ble_npl_time_ms_to_ticks32(ms: u32) -> (ticks: u32)
    ensures
        ticks == (ms * TICKS_PER_MILLI) % 0x1_0000_0000,
{
    let ticks: u64 = instant_ticks_of_millis(ms);
    assert((ticks as u32) as u64 == ticks % 0x1_0000_0000u64) by (bit_vector);
    #[verifier::truncate]
    (ticks as u32)
}

/// Converts ticks to whole milliseconds.
pub fn ble_npl_time_ticks_to_ms32(ticks: u32) -> (ms: u32)
    ensures
        ms == ticks as int / TICKS_PER_MILLI as int,
{
    let ms: u64 = instant_millis_of_ticks(ticks);
    ms as u32
}

} // verus!
