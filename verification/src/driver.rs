//! The interrupt hardware as the layer drives it: the global interrupt mask,
//! the per-line enables, the two nestable critical sections, and the table
//! that redirects the three reserved interrupts to handlers of the engine.
use nrf52840_pac::Interrupt;
use vstd::prelude::*;

verus! {

/// An interrupt line that the engine keeps for itself.
#[derive(Debug, Clone, Copy, PartialEq, Eq, Structural)]
pub enum ReservedIrq {
    Radio,
    Rng,
    Rtc0,
}

/// The enable bits of the reserved lines among the first 32 lines.
pub const RESERVED_IRQS: u32 = 0x2802;

/// The state of the interrupt hardware and of the layer's bookkeeping on it.
#[derive(Debug, Clone, Copy, PartialEq, Eq, Structural)]
pub struct Nrf5x {
    /// The global mask register: with bit 0 set no maskable interrupt is
    /// taken.
    pub primask: u32,
    /// The enable bits of lines 0 to 31.
    pub enabled0: u32,
    /// The enable bits of lines 32 to 63.
    pub enabled1: u32,
    /// Whether the inner critical section has been entered.
    pub cs_flag: bool,
    /// Whether the reserved-interrupt critical section has been entered.
    pub reserved_cs_flag: bool,
    /// The enable bits of lines 0 to 31 that the reserved-interrupt section
    /// saved.
    pub cs_mask0: u32,
    /// The enable bits of lines 32 to 63 that it saved.
    pub cs_mask1: u32,
    /// The handler of the radio interrupt.
    pub radio_handler: Option<usize>,
    /// The handler of the random-number interrupt.
    pub rng_handler: Option<usize>,
    /// The handler of the real-time-counter interrupt.
    pub rtc0_handler: Option<usize>,
}

/// The reserved-interrupt critical section, for application code.
pub struct CriticalSection;

impl ReservedIrq {
    /// The number of the line.
    pub open spec fn number(self) -> u8 {
        match self {
            ReservedIrq::Radio => 1,
            ReservedIrq::Rng => 13,
            ReservedIrq::Rtc0 => 11,
        }
    }
}

/// Reads the line numbers of the three reserved interrupts from the device
/// crate's `Interrupt` enumeration: 1 for the radio, 13 for the random-number
/// generator, 11 for the real-time counter 0.
#[verifier::external_body]
pub(crate) fn irq_number(line: ReservedIrq) -> (n: u8)
    ensures
        n == line.number(),
{
    match line {
        ReservedIrq::Radio => Interrupt::RADIO as u8,
        ReservedIrq::Rng => Interrupt::RNG as u8,
        ReservedIrq::Rtc0 => Interrupt::RTC0 as u8,
    }
}

impl Nrf5x {
    /// Whether maskable interrupts are taken.
    pub open spec fn interrupts_enabled(self) -> bool {
        self.primask & 1 == 0
    }

    /// The state after entering the inner critical section: interrupts are
    /// masked and the flag is set.
    pub open spec fn entered(self) -> Nrf5x {
        Nrf5x { primask: 1, cs_flag: true, ..self }
    }

    /// The state after leaving the inner critical section with the token
    /// `active`: only the outermost leave clears the flag and unmasks.
    pub open spec fn left(self, active: bool) -> Nrf5x {
        if active {
            Nrf5x { primask: 0, cs_flag: false, ..self }
        } else {
            self
        }
    }

    /// The state after saving the line enables and disabling every line but
    /// the reserved ones.
    pub open spec fn lines_parked(self) -> Nrf5x {
        Nrf5x {
            reserved_cs_flag: true,
            cs_mask0: self.enabled0,
            cs_mask1: self.enabled1,
            enabled0: self.enabled0 & RESERVED_IRQS,
            enabled1: 0,
            ..self
        }
    }

    /// The state after enabling again the saved lines that are not reserved.
    pub open spec fn lines_restored(self) -> Nrf5x {
        Nrf5x {
            reserved_cs_flag: false,
            enabled0: self.enabled0 | (self.cs_mask0 & !RESERVED_IRQS),
            enabled1: self.enabled1 | self.cs_mask1,
            ..self
        }
    }

    /// The state after entering the reserved-interrupt section. A nested entry
    /// changes nothing. An outermost one passes through the inner section,
    /// and parks the lines unless the inner section was entered before.
    pub open spec fn reserved_entered(self) -> Nrf5x {
        if self.reserved_cs_flag {
            self
        } else if self.cs_flag {
            self.entered().left(self.interrupts_enabled())
        } else {
            self.entered().lines_parked().left(self.interrupts_enabled())
        }
    }

    /// The state after leaving the reserved-interrupt section with the token
    /// `nested`: the mirror image of entering it.
    pub open spec fn reserved_left(self, nested: bool) -> Nrf5x {
        if nested {
            self
        } else if self.cs_flag {
            self.entered().left(self.interrupts_enabled())
        } else {
            self.entered().lines_restored().left(self.interrupts_enabled())
        }
    }

    /// The state after the handler of a line was set; a line that is not
    /// reserved is ignored.
    pub open spec fn with_isr(self, irqn: i32, addr: Option<usize>) -> Nrf5x {
        if irqn == ReservedIrq::Radio.number() {
            Nrf5x { radio_handler: addr, ..self }
        } else if irqn == ReservedIrq::Rng.number() {
            Nrf5x { rng_handler: addr, ..self }
        } else if irqn == ReservedIrq::Rtc0.number() {
            Nrf5x { rtc0_handler: addr, ..self }
        } else {
            self
        }
    }

    /// The handler of a reserved line.
    pub open spec fn handler(self, line: ReservedIrq) -> Option<usize> {
        match line {
            ReservedIrq::Radio => self.radio_handler,
            ReservedIrq::Rng => self.rng_handler,
            ReservedIrq::Rtc0 => self.rtc0_handler,
        }
    }

    /// The hardware after reset: interrupts taken, no line enabled, no section
    /// entered, no handler set.
    pub fn new() -> (d: Nrf5x)
        ensures
            d == (Nrf5x {
                primask: 0,
                enabled0: 0,
                enabled1: 0,
                cs_flag: false,
                reserved_cs_flag: false,
                cs_mask0: 0,
                cs_mask1: 0,
                radio_handler: None,
                rng_handler: None,
                rtc0_handler: None,
            }),
    {
        Nrf5x {
            primask: 0,
            enabled0: 0,
            enabled1: 0,
            cs_flag: false,
            reserved_cs_flag: false,
            cs_mask0: 0,
            cs_mask1: 0,
            radio_handler: None,
            rng_handler: None,
            rtc0_handler: None,
        }
    }
}

/// Sets or clears the handler of an interrupt line. A line that is not
/// reserved is ignored.
pub fn set_isr(d: &mut Nrf5x, irqn: i32, addr: Option<usize>)
    ensures
        *final(d) == old(d).with_isr(irqn, addr),
{
    if irqn == irq_number(ReservedIrq::Radio) as i32 {
        d.radio_handler = addr;
    } else if irqn == irq_number(ReservedIrq::Rng) as i32 {
        d.rng_handler = addr;
    } else if irqn == irq_number(ReservedIrq::Rtc0) as i32 {
        d.rtc0_handler = addr;
    }
}

/// The handler that the entry point of a reserved line calls, if one is set.
pub fn isr_handler(d: &Nrf5x, line: ReservedIrq) -> (handler: Option<usize>)
    ensures
        handler == d.handler(line),
{
    match line {
        ReservedIrq::Radio => d.radio_handler,
        ReservedIrq::Rng => d.rng_handler,
        ReservedIrq::Rtc0 => d.rtc0_handler,
    }
}

/// The enable bits of the reserved lines, from their numbers.
pub fn reserved_irqs() -> (bits: u32)
    ensures
        bits == RESERVED_IRQS,
{
    let radio: u8 = irq_number(ReservedIrq::Radio);
    let rtc0: u8 = irq_number(ReservedIrq::Rtc0);
    let rng: u8 = irq_number(ReservedIrq::Rng);
    assert((1u32 << 1u8) | (1u32 << 11u8) | (1u32 << 13u8) == 0x2802u32) by (bit_vector);
    (1u32 << radio) | (1u32 << rtc0) | (1u32 << rng)
}

/// Whether maskable interrupts are taken.
pub fn is_primask_active(d: &Nrf5x) -> (active: bool)
    ensures
        active == d.interrupts_enabled(),
{
    d.primask & 1 == 0
}

/// Enters the inner critical section. The token tells whether interrupts were
/// taken before, that is whether this entry is the outermost.
pub fn acquire(d: &mut Nrf5x) -> (active: bool)
    ensures
        active == old(d).interrupts_enabled(),
        *final(d) == old(d).entered(),
{
    let active: bool = is_primask_active(d);
    d.primask = 1;
    d.cs_flag = true;
    active
}

/// Leaves the inner critical section with the token of the matching entry.
pub fn release(d: &mut Nrf5x, active: bool)
    ensures
        *final(d) == old(d).left(active),
{
    if active {
        d.cs_flag = false;
        d.primask = 0;
    }
}

/// Runs `f` inside the inner critical section.
pub fn with_fn<R, F: FnOnce() -> R>(d: &mut Nrf5x, f: F) -> (r: R)
    requires
        f.requires(()),
    ensures
        f.ensures((), r),
        *final(d) == old(d).entered().left(old(d).interrupts_enabled()),
{
    let active: bool = acquire(d);
    let r: R = f();
    release(d, active);
    r
}

/// Enters the inner critical section for the engine: 1 for the outermost
/// entry, 0 for a nested one.
pub fn ble_npl_hw_enter_critical(d: &mut Nrf5x) -> (ctx: u32)
    ensures
        ctx == (if old(d).interrupts_enabled() {
            1u32
        } else {
            0u32
        }),
        *final(d) == old(d).entered(),
{
    if acquire(d) {
        1
    } else {
        0
    }
}

/// Leaves the inner critical section for the engine, with the value that the
/// matching entry returned.
pub fn ble_npl_hw_exit_critical(d: &mut Nrf5x, ctx: u32)
    ensures
        *final(d) == old(d).left(ctx == 1),
{
    release(d, ctx == 1);
}

/// Whether the inner critical section has been entered.
pub fn ble_npl_hw_is_in_critical(d: &Nrf5x) -> (inside: bool)
    ensures
        inside == d.cs_flag,
{
    d.cs_flag
}

/// Sets the handler of an interrupt line for the engine.
pub fn ble_npl_hw_set_isr(d: &mut Nrf5x, irqn: i32, addr: Option<usize>)
    ensures
        *final(d) == old(d).with_isr(irqn, addr),
{
    set_isr(d, irqn, addr);
}

/// The state after `depth` nested entries into the inner critical section and
/// their exits in reverse order, each exit with the token of its entry.
pub open spec fn nested(s: Nrf5x, depth: nat) -> Nrf5x
    decreases depth,
{
    if depth == 0 {
        s
    } else {
        nested(s.entered(), (depth - 1) as nat).left(s.interrupts_enabled())
    }
}

/// After an entry interrupts are masked, so the token of any entry inside it
/// is false, and the exit with that token changes nothing.
pub proof fn lemma_inner_pair_is_inert(s: Nrf5x)
    ensures
        !s.entered().interrupts_enabled(),
        s.entered().entered() == s.entered(),
        s.entered().entered().left(s.entered().interrupts_enabled()) == s.entered(),
{
    assert(1u32 & 1 != 0) by (bit_vector);
}

/// Pairs of entry and exit that nest inside a masked state never unmask:
/// after any number of them the state is the one after a single entry.
pub proof fn lemma_nested_pairs_stay_masked(s: Nrf5x, depth: nat)
    requires
        !s.interrupts_enabled(),
    ensures
        !nested(s, depth).interrupts_enabled(),
        depth > 0 ==> nested(s, depth) == s.entered(),
    decreases depth,
{
    assert(1u32 & 1 != 0) by (bit_vector);
    if depth > 0 {
        lemma_nested_pairs_stay_masked(s.entered(), (depth - 1) as nat);
    }
}

/// Only the outermost exit restores interrupts: pairs that start where
/// interrupts are taken end with interrupts taken and the flag clear, and
/// everything inside the outermost pair runs masked.
pub proof fn lemma_outermost_exit_restores(s: Nrf5x, depth: nat)
    requires
        s.interrupts_enabled(),
        depth > 0,
    ensures
        nested(s, depth) == (Nrf5x { primask: 0, cs_flag: false, ..s }),
        nested(s, depth).interrupts_enabled(),
        !nested(s.entered(), (depth - 1) as nat).interrupts_enabled(),
{
    assert(1u32 & 1 != 0) by (bit_vector);
    assert(0u32 & 1 == 0) by (bit_vector);
    lemma_nested_pairs_stay_masked(s.entered(), (depth - 1) as nat);
}

/// A pair of the reserved-interrupt section that starts outside both sections,
/// with interrupts taken, leaves the reserved lines as they were while it is
/// held, disables every other line, treats a nested pair as inert, and
/// restores all line enables at its exit.
pub proof fn lemma_reserved_pair_restores_lines(s: Nrf5x)
    requires
        !s.reserved_cs_flag,
        !s.cs_flag,
        s.interrupts_enabled(),
    ensures
        s.reserved_entered().enabled0 & RESERVED_IRQS == s.enabled0 & RESERVED_IRQS,
        s.reserved_entered().enabled0 & !RESERVED_IRQS == 0,
        s.reserved_entered().enabled1 == 0,
        s.reserved_entered().interrupts_enabled(),
        s.reserved_entered().reserved_entered() == s.reserved_entered(),
        s.reserved_entered().reserved_left(true) == s.reserved_entered(),
        s.reserved_entered().reserved_left(false).enabled0 == s.enabled0,
        s.reserved_entered().reserved_left(false).enabled1 == s.enabled1,
        !s.reserved_entered().reserved_left(false).reserved_cs_flag,
        s.reserved_entered().reserved_left(false).interrupts_enabled(),
{
    let e0 = s.enabled0;
    let e1 = s.enabled1;
    assert(0u32 & 1 == 0) by (bit_vector);
    assert((e0 & 0x2802u32) & 0x2802u32 == e0 & 0x2802u32) by (bit_vector);
    assert((e0 & 0x2802u32) & !0x2802u32 == 0) by (bit_vector);
    assert((e0 & 0x2802u32) | (e0 & !0x2802u32) == e0) by (bit_vector);
    assert(0u32 | e1 == e1) by (bit_vector);
}

impl CriticalSection {
    /// Enters the reserved-interrupt critical section. The token tells whether
    /// the section had been entered already.
    pub fn acquire(d: &mut Nrf5x) -> (nested_cs: bool)
        ensures
            nested_cs == old(d).reserved_cs_flag,
            *final(d) == old(d).reserved_entered(),
    {
        let nested_cs: bool = d.reserved_cs_flag;
        if !nested_cs {
            let in_internal_cs: bool = d.cs_flag;
            let active: bool = self::acquire(d);
            if !in_internal_cs {
                d.reserved_cs_flag = true;
                d.cs_mask0 = d.enabled0;
                d.cs_mask1 = d.enabled1;
                d.enabled0 = d.enabled0 & reserved_irqs();
                d.enabled1 = 0;
            }
            self::release(d, active);
        }
        nested_cs
    }

    /// Leaves the reserved-interrupt critical section with the token of the
    /// matching entry.
    pub fn release(d: &mut Nrf5x, nested_cs: bool)
        ensures
            *final(d) == old(d).reserved_left(nested_cs),
    {
        if !nested_cs {
            let in_internal_cs: bool = d.cs_flag;
            let active: bool = self::acquire(d);
            if !in_internal_cs {
                d.reserved_cs_flag = false;
                d.enabled0 = d.enabled0 | (d.cs_mask0 & !reserved_irqs());
                d.enabled1 = d.enabled1 | d.cs_mask1;
            }
            self::release(d, active);
        }
    }
}

} // verus!
