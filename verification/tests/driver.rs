use nimble_port::driver::acquire;
use nimble_port::driver::ble_npl_hw_enter_critical;
use nimble_port::driver::ble_npl_hw_exit_critical;
use nimble_port::driver::ble_npl_hw_is_in_critical;
use nimble_port::driver::ble_npl_hw_set_isr;
use nimble_port::driver::CriticalSection;
use nimble_port::driver::is_primask_active;
use nimble_port::driver::isr_handler;
use nimble_port::driver::Nrf5x;
use nimble_port::driver::release;
use nimble_port::driver::RESERVED_IRQS;
use nimble_port::driver::reserved_irqs;
use nimble_port::driver::ReservedIrq;
use nimble_port::driver::set_isr;
use nimble_port::driver::with_fn;

#[test]
fn after_reset_interrupts_are_taken() {
    let d = Nrf5x::new();
    assert!(is_primask_active(&d));
    assert!(!ble_npl_hw_is_in_critical(&d));
    assert_eq!(isr_handler(&d, ReservedIrq::Radio), None);
}

#[test]
fn primask_is_read_from_bit_zero() {
    let mut d = Nrf5x::new();
    d.primask = 1;
    assert!(!is_primask_active(&d));
    d.primask = 2;
    assert!(is_primask_active(&d));
    d.primask = 3;
    assert!(!is_primask_active(&d));
}

#[test]
fn enter_and_exit_mask_and_unmask() {
    let mut d = Nrf5x::new();
    let token = acquire(&mut d);
    assert!(token);
    assert!(!is_primask_active(&d));
    assert!(ble_npl_hw_is_in_critical(&d));
    release(&mut d, token);
    assert!(is_primask_active(&d));
    assert!(!ble_npl_hw_is_in_critical(&d));
    assert_eq!(d, Nrf5x::new());
}

#[test]
fn only_the_outermost_exit_restores_interrupts() {
    let mut d = Nrf5x::new();
    let outer = acquire(&mut d);
    let inner = acquire(&mut d);
    let innermost = acquire(&mut d);
    assert_eq!((outer, inner, innermost), (true, false, false));
    release(&mut d, innermost);
    assert!(!is_primask_active(&d));
    assert!(ble_npl_hw_is_in_critical(&d));
    release(&mut d, inner);
    assert!(!is_primask_active(&d));
    assert!(ble_npl_hw_is_in_critical(&d));
    release(&mut d, outer);
    assert!(is_primask_active(&d));
    assert!(!ble_npl_hw_is_in_critical(&d));
}

#[test]
fn the_engine_gets_one_for_the_outermost_entry_and_zero_inside() {
    let mut d = Nrf5x::new();
    let outer = ble_npl_hw_enter_critical(&mut d);
    let inner = ble_npl_hw_enter_critical(&mut d);
    assert_eq!(outer, 1);
    assert_eq!(inner, 0);
    ble_npl_hw_exit_critical(&mut d, inner);
    assert!(!is_primask_active(&d));
    assert!(ble_npl_hw_is_in_critical(&d));
    ble_npl_hw_exit_critical(&mut d, outer);
    assert!(is_primask_active(&d));
    assert!(!ble_npl_hw_is_in_critical(&d));
}

#[test]
fn an_exit_with_any_value_but_one_changes_nothing() {
    let mut d = Nrf5x::new();
    ble_npl_hw_enter_critical(&mut d);
    let held = d;
    ble_npl_hw_exit_critical(&mut d, 0);
    assert_eq!(d, held);
    ble_npl_hw_exit_critical(&mut d, 2);
    assert_eq!(d, held);
}

#[test]
fn an_entry_with_interrupts_masked_from_outside_is_not_the_outermost() {
    let mut d = Nrf5x::new();
    d.primask = 1;
    let token = acquire(&mut d);
    assert!(!token);
    assert!(ble_npl_hw_is_in_critical(&d));
    release(&mut d, token);
    assert!(!is_primask_active(&d));
    assert!(ble_npl_hw_is_in_critical(&d));
}

#[test]
fn with_fn_runs_inside_the_section_and_leaves_it() {
    let mut d = Nrf5x::new();
    let r = with_fn(&mut d, || 41 + 1);
    assert_eq!(r, 42);
    assert_eq!(d, Nrf5x::new());
    let token = acquire(&mut d);
    let held = d;
    assert_eq!(with_fn(&mut d, || "inside"), "inside");
    assert_eq!(d, held);
    release(&mut d, token);
    assert_eq!(d, Nrf5x::new());
}

#[test]
fn the_reserved_lines_are_radio_rtc0_and_rng() {
    assert_eq!(reserved_irqs(), RESERVED_IRQS);
    assert_eq!(reserved_irqs(), (1 << 1) | (1 << 11) | (1 << 13));
}

#[test]
fn the_reserved_section_parks_all_other_lines_and_restores_them() {
    let mut d = Nrf5x::new();
    d.enabled0 = 0xffff_0f0f;
    d.enabled1 = 0x0000_00ff;
    let before = d;
    let nested = CriticalSection::acquire(&mut d);
    assert!(!nested);
    assert!(d.reserved_cs_flag);
    assert_eq!(d.enabled0, 0xffff_0f0f & 0x2802);
    assert_eq!(d.enabled0, 0x0802);
    assert_eq!(d.enabled1, 0);
    assert_eq!((d.cs_mask0, d.cs_mask1), (0xffff_0f0f, 0x0000_00ff));
    assert!(is_primask_active(&d));
    assert!(!ble_npl_hw_is_in_critical(&d));

    CriticalSection::release(&mut d, nested);
    assert!(!d.reserved_cs_flag);
    assert_eq!(d.enabled0, before.enabled0);
    assert_eq!(d.enabled1, before.enabled1);
    assert!(is_primask_active(&d));
}

#[test]
fn a_nested_reserved_section_is_inert() {
    let mut d = Nrf5x::new();
    d.enabled0 = 0x0000_ffff;
    let outer = CriticalSection::acquire(&mut d);
    let held = d;
    let inner = CriticalSection::acquire(&mut d);
    assert!(!outer);
    assert!(inner);
    assert_eq!(d, held);
    CriticalSection::release(&mut d, inner);
    assert_eq!(d, held);
    CriticalSection::release(&mut d, outer);
    assert_eq!(d.enabled0, 0x0000_ffff);
    assert!(!d.reserved_cs_flag);
}

#[test]
fn the_reserved_section_inside_the_inner_one_leaves_the_lines_alone() {
    let mut d = Nrf5x::new();
    d.enabled0 = 0x00ff_00ff;
    let token = acquire(&mut d);
    let held = d;
    let nested = CriticalSection::acquire(&mut d);
    assert!(!nested);
    assert_eq!(d, held);
    CriticalSection::release(&mut d, nested);
    assert_eq!(d, held);
    release(&mut d, token);
    assert_eq!(d.enabled0, 0x00ff_00ff);
    assert!(is_primask_active(&d));
}

#[test]
fn the_inner_section_nests_inside_the_reserved_one() {
    let mut d = Nrf5x::new();
    d.enabled0 = 0xffff_ffff;
    let nested = CriticalSection::acquire(&mut d);
    let token = acquire(&mut d);
    assert!(token);
    assert!(!is_primask_active(&d));
    release(&mut d, token);
    assert!(is_primask_active(&d));
    assert_eq!(d.enabled0, 0x2802);
    CriticalSection::release(&mut d, nested);
    assert_eq!(d.enabled0, 0xffff_ffff);
}

#[test]
fn set_isr_fills_the_slot_of_a_reserved_line() {
    let mut d = Nrf5x::new();
    set_isr(&mut d, 1, Some(0x1000));
    set_isr(&mut d, 13, Some(0x2000));
    set_isr(&mut d, 11, Some(0x3000));
    assert_eq!(isr_handler(&d, ReservedIrq::Radio), Some(0x1000));
    assert_eq!(isr_handler(&d, ReservedIrq::Rng), Some(0x2000));
    assert_eq!(isr_handler(&d, ReservedIrq::Rtc0), Some(0x3000));
    set_isr(&mut d, 13, None);
    assert_eq!(isr_handler(&d, ReservedIrq::Rng), None);
    assert_eq!(isr_handler(&d, ReservedIrq::Radio), Some(0x1000));
}

#[test]
fn set_isr_ignores_every_other_line() {
    let mut d = Nrf5x::new();
    for irqn in [0, 2, 10, 12, 14, 47, -1, 257, 269, i32::MAX, i32::MIN] {
        ble_npl_hw_set_isr(&mut d, irqn, Some(0x4000));
    }
    assert_eq!(d, Nrf5x::new());
    ble_npl_hw_set_isr(&mut d, 1, Some(0x4000));
    assert_eq!(isr_handler(&d, ReservedIrq::Radio), Some(0x4000));
}
