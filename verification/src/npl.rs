//! Events, event queues drawn from a fixed pool, and callouts.
//!
//! The engine names an event, a queue or a callout by a handle: the position
//! at which the layer keeps its record.
use crate::chan::EVENT_CHANNEL_DEPTH;
use crate::chan::event_channel_items;
use crate::chan::event_channel_new;
use crate::chan::event_channel_try_receive;
use crate::chan::event_channel_try_send;
use crate::chan::EventChannel;
use vstd::prelude::*;

verus! {

/// How many event queues can exist.
pub const EVENT_QUEUE_POOL_SIZE: usize = 8;

/// The timeout that waits without limit.
pub const BLE_NPL_TIME_FOREVER: u32 = 0xffff_ffff;

/// The status of a successful operation.
pub const BLE_NPL_OK: u32 = 0;

/// The status "no such entry".
pub const BLE_NPL_ENOENT: u32 = 10;

/// An event: a handler, its argument, and whether the event is in a queue.
#[derive(Debug, Clone, Copy, PartialEq, Eq, Structural)]
pub struct ble_npl_event {
    pub event_fn: Option<usize>,
    pub arg_ptr: usize,
    pub queued: bool,
}

/// An event queue: the pool slot that backs it, and how many events it holds.
#[derive(Debug, Clone, Copy, PartialEq, Eq, Structural)]
pub struct ble_npl_eventq {
    pub ch: usize,
    pub len: u8,
}

/// A callout: whether it is armed, its deadline in ticks, the queue that its
/// event goes to, and its event.
#[derive(Debug, Clone, Copy, PartialEq, Eq, Structural)]
pub struct ble_npl_callout {
    pub active: bool,
    pub expires_at: u32,
    pub event_queue: usize,
    pub event: usize,
}

/// A mutex of the engine. The layer offers no operation on it.
#[derive(Debug, Clone, Copy, PartialEq, Eq)]
pub struct ble_npl_mutex {
    pub dummy: (),
}

/// A semaphore of the engine. The layer offers no operation on it.
#[derive(Debug, Clone, Copy, PartialEq, Eq)]
pub struct ble_npl_sem {
    pub dummy: (),
}

/// One slot of the pool: a backing channel, and whether a queue has claimed it.
pub struct EventQueueState {
    q: EventChannel,
    taken: bool,
}

/// What wakes a callout: the handle of the callout.
#[derive(Debug, Clone, Copy, PartialEq, Eq, Structural)]
pub struct CalloutWaker {
    pub data: usize,
}

/// A wake to schedule with the time driver.
#[derive(Debug, Clone, Copy, PartialEq, Eq, Structural)]
pub struct WakeRequest {
    /// The tick at which to wake.
    pub at: u64,
    /// What to wake.
    pub waker: CalloutWaker,
}

/// How a consumer waits for an event.
#[derive(Debug, Clone, Copy, PartialEq, Eq, Structural)]
pub enum GetOutcome {
    /// This event left the queue.
    Event(usize),
    /// The queue is empty and the caller does not wait: the null event.
    Null,
    /// The queue is empty: suspend until an event is put, for at most
    /// `timeout_ms` milliseconds if given, then get again or, once the time is
    /// up, take the null event.
    Suspend { timeout_ms: Option<u64> },
}

/// One turn of an event loop.
#[derive(Debug, Clone, Copy, PartialEq, Eq, Structural)]
pub enum RunStep {
    /// This event left the queue: call its handler, if it has one, with it.
    Run { ev: usize, handler: Option<usize> },
    /// The queue is empty: suspend until an event is put.
    Suspend,
}

/// The state of the port layer: the pool, and the records of all queues,
/// events and callouts.
pub struct PortLayer {
    pool: Vec<EventQueueState>,
    queues: Vec<ble_npl_eventq>,
    events: Vec<ble_npl_event>,
    callouts: Vec<ble_npl_callout>,
}

/// What a port layer holds.
pub struct PortView {
    /// For each queue the handles of its events, oldest first.
    pub queues: Seq<Seq<usize>>,
    /// For each queue the slot of the pool that it claimed.
    pub slots: Seq<usize>,
    /// For each slot of the pool whether a queue has claimed it.
    pub taken: Seq<bool>,
    /// The record of each event.
    pub events: Seq<ble_npl_event>,
    /// The record of each callout.
    pub callouts: Seq<ble_npl_callout>,
}

/// The test that holds of every handle but `ev`.
pub open spec fn other_than(ev: usize) -> spec_fn(usize) -> bool {
    |x: usize| x != ev
}

/// `s` without every occurrence of `ev`, the rest in its order.
pub open spec fn without(s: Seq<usize>, ev: usize) -> Seq<usize> {
    s.filter(other_than(ev))
}

/// The deadline of a callout armed at tick `now` for `ticks` ticks: their sum
/// on the 32-bit tick counter.
pub open spec fn deadline(now: u64, ticks: u32) -> u32 {
    wrapping_sum(now as u32, ticks)
}

/// The sum of two tick counts on the 32-bit tick counter.
pub open spec fn wrapping_sum(a: u32, b: u32) -> u32 {
    if a + b > u32::MAX {
        (a + b - 0x1_0000_0000) as u32
    } else {
        (a + b) as u32
    }
}

/// The difference of two tick counts on the 32-bit tick counter.
pub open spec fn wrapping_diff(a: u32, b: u32) -> u32 {
    if a < b {
        (a - b + 0x1_0000_0000) as u32
    } else {
        (a - b) as u32
    }
}

/// Whether `slot` is the first slot of the pool that no queue has claimed.
pub open spec fn is_first_free(taken: Seq<bool>, slot: int) -> bool {
    &&& 0 <= slot < taken.len()
    &&& !taken[slot]
    &&& forall|j: int| 0 <= j < slot ==> #[trigger] taken[j]
}

/// How a consumer that has waited is answered by an empty queue: with the
/// null event once its time is up, else by asking it to suspend for the rest
/// of its time.
pub open spec fn rewait_plan(timed_out: bool, remaining_ms: u64) -> GetOutcome {
    if timed_out || remaining_ms == 0 {
        GetOutcome::Null
    } else {
        GetOutcome::Suspend { timeout_ms: Some(remaining_ms) }
    }
}

/// How an empty queue answers a consumer with timeout `tmo`.
pub open spec fn wait_plan(tmo: u32) -> GetOutcome {
    if tmo == 0 {
        GetOutcome::Null
    } else if tmo == BLE_NPL_TIME_FOREVER {
        GetOutcome::Suspend { timeout_ms: None }
    } else {
        GetOutcome::Suspend { timeout_ms: Some(tmo as u64) }
    }
}

impl PortView {
    /// Every queue owns a claimed slot of the pool and no two queues share
    /// one; handles point at records; no queue holds more than a channel can.
    pub open spec fn valid(self) -> bool {
        &&& self.queues.len() <= EVENT_QUEUE_POOL_SIZE
        &&& self.taken.len() == EVENT_QUEUE_POOL_SIZE
        &&& self.slots.len() == self.queues.len()
        &&& forall|q: int|
            0 <= q < self.slots.len() ==> (#[trigger] self.slots[q]) < EVENT_QUEUE_POOL_SIZE
                && self.taken[self.slots[q] as int]
        &&& forall|q1: int, q2: int|
            0 <= q1 < self.slots.len() && 0 <= q2 < self.slots.len() && q1 != q2 ==> (
            #[trigger] self.slots[q1]) != (#[trigger] self.slots[q2])
        &&& forall|q: int|
            0 <= q < self.queues.len() ==> (#[trigger] self.queues[q]).len() <= EVENT_CHANNEL_DEPTH
        &&& forall|q: int, k: int|
            0 <= q < self.queues.len() && 0 <= k < self.queues[q].len() ==> (
            #[trigger] self.queues[q][k]) < self.events.len()
        &&& forall|c: int|
            0 <= c < self.callouts.len() ==> (#[trigger] self.callouts[c]).event_queue
                < self.queues.len() && self.callouts[c].event < self.events.len()
    }

    /// The record of event `ev` with its queued flag set to `queued`.
    pub open spec fn flagged(self, ev: int, queued: bool) -> ble_npl_event {
        ble_npl_event { queued, ..self.events[ev] }
    }

    /// The layer after event `ev` went to the back of queue `evq`.
    pub open spec fn put(self, evq: int, ev: usize) -> PortView {
        PortView {
            queues: self.queues.update(evq, self.queues[evq].push(ev)),
            events: self.events.update(ev as int, self.flagged(ev as int, true)),
            ..self
        }
    }

    /// The layer after the oldest event of queue `evq` left it.
    pub open spec fn take(self, evq: int) -> PortView
        recommends
            self.queues[evq].len() > 0,
    {
        let ev = self.queues[evq][0];
        PortView {
            queues: self.queues.update(evq, self.queues[evq].drop_first()),
            events: self.events.update(ev as int, self.flagged(ev as int, false)),
            ..self
        }
    }

    /// The layer after event `ev` was taken out of queue `evq`, wherever it
    /// stood in it.
    pub open spec fn remove(self, evq: int, ev: usize) -> PortView {
        PortView {
            queues: self.queues.update(evq, without(self.queues[evq], ev)),
            events: if self.queues[evq].contains(ev) {
                self.events.update(ev as int, self.flagged(ev as int, false))
            } else {
                self.events
            },
            ..self
        }
    }

    /// The layer after callout `c` was armed at tick `now` for `ticks` ticks.
    pub open spec fn arm(self, c: int, now: u64, ticks: u32) -> PortView {
        PortView {
            callouts: self.callouts.update(
                c,
                ble_npl_callout {
                    active: true,
                    expires_at: deadline(now, ticks),
                    ..self.callouts[c]
                },
            ),
            ..self
        }
    }

    /// The layer after callout `c` was stopped.
    pub open spec fn stop(self, c: int) -> PortView {
        PortView {
            callouts: self.callouts.update(
                c,
                ble_npl_callout { active: false, ..self.callouts[c] },
            ),
            ..self
        }
    }

    /// The layer after a wake of callout `c`: an armed callout posts its event
    /// to its queue and is idle again, an idle one does nothing.
    pub open spec fn fire(self, c: int) -> PortView {
        if self.callouts[c].active {
            self.put(self.callouts[c].event_queue as int, self.callouts[c].event).stop(c)
        } else {
            self
        }
    }
}

impl View for PortLayer {
    type V = PortView;

    closed spec fn view(&self) -> PortView {
        PortView {
            queues: Seq::new(
                self.queues@.len(),
                |i: int| event_channel_items(self.pool@[self.queues@[i].ch as int].q),
            ),
            slots: Seq::new(self.queues@.len(), |i: int| self.queues@[i].ch),
            taken: Seq::new(self.pool@.len(), |j: int| self.pool@[j].taken),
            events: self.events@,
            callouts: self.callouts@,
        }
    }
}

impl PortLayer {
    /// The pool has its eight slots, the queues have claimed the first of them
    /// in order, and each queue counts what its channel holds.
    pub closed spec fn pool_ok(&self) -> bool {
        &&& self.pool@.len() == EVENT_QUEUE_POOL_SIZE
        &&& self.queues@.len() <= EVENT_QUEUE_POOL_SIZE
        &&& forall|j: int|
            0 <= j < self.pool@.len() ==> (#[trigger] self.pool@[j]).taken == (j
                < self.queues@.len())
        &&& forall|j: int|
            self.queues@.len() <= j < self.pool@.len() ==> event_channel_items(
                (#[trigger] self.pool@[j]).q,
            ).len() == 0
        &&& forall|i: int|
            0 <= i < self.queues@.len() ==> (#[trigger] self.queues@[i]).ch == i
                && self.queues@[i].len == event_channel_items(self.pool@[i].q).len()
    }

    /// The layer is consistent.
    pub open spec fn wf(&self) -> bool {
        self.pool_ok() && self@.valid()
    }

    /// A layer without queues, events or callouts.
    pub fn new() -> (npl: PortLayer)
        ensures
            npl.wf(),
            npl@.queues.len() == 0,
            npl@.events.len() == 0,
            npl@.callouts.len() == 0,
            forall|j: int| 0 <= j < EVENT_QUEUE_POOL_SIZE ==> !(#[trigger] npl@.taken[j]),
    {
        let mut pool: Vec<EventQueueState> = Vec::new();
        let mut i: usize = 0;
        while i < EVENT_QUEUE_POOL_SIZE
            invariant
                i <= EVENT_QUEUE_POOL_SIZE,
                pool@.len() == i,
                forall|j: int| 0 <= j < i ==> !(#[trigger] pool@[j]).taken,
                forall|j: int| 0 <= j < i ==> event_channel_items((#[trigger] pool@[j]).q).len() == 0,
            decreases EVENT_QUEUE_POOL_SIZE - i,
        {
            pool.push(EventQueueState { q: event_channel_new(), taken: false });
            i = i + 1;
        }
        PortLayer { pool, queues: Vec::new(), events: Vec::new(), callouts: Vec::new() }
    }

    /// How many queues exist.
    pub fn queue_count(&self) -> (n: usize)
        ensures
            n == self@.queues.len(),
    {
        self.queues.len()
    }

    /// How many events exist.
    pub fn event_count(&self) -> (n: usize)
        ensures
            n == self@.events.len(),
    {
        self.events.len()
    }

    /// How many callouts exist.
    pub fn callout_count(&self) -> (n: usize)
        ensures
            n == self@.callouts.len(),
    {
        self.callouts.len()
    }

    /// Whether every slot of the pool has been claimed.
    pub fn pool_exhausted(&self) -> (full: bool)
        requires
            self.wf(),
        ensures
            full == (self@.queues.len() == EVENT_QUEUE_POOL_SIZE),
    {
        self.queues.len() >= EVENT_QUEUE_POOL_SIZE
    }

    /// How many events a queue holds.
    pub fn eventq_len(&self, evq: usize) -> (n: u8)
        requires
            self.wf(),
            evq < self@.queues.len(),
        ensures
            n == self@.queues[evq as int].len(),
    {
        self.queues[evq].len
    }

    /// Whether a queue holds as many events as its channel can.
    pub fn eventq_is_full(&self, evq: usize) -> (full: bool)
        requires
            self.wf(),
            evq < self@.queues.len(),
        ensures
            full == (self@.queues[evq as int].len() == EVENT_CHANNEL_DEPTH),
    {
        self.queues[evq].len as usize >= EVENT_CHANNEL_DEPTH
    }

    /// The record of an event.
    pub fn event(&self, ev: usize) -> (e: ble_npl_event)
        requires
            ev < self@.events.len(),
        ensures
            e == self@.events[ev as int],
    {
        self.events[ev]
    }

    /// The record of a callout.
    pub fn callout(&self, c: usize) -> (co: ble_npl_callout)
        requires
            c < self@.callouts.len(),
        ensures
            co == self@.callouts[c as int],
    {
        self.callouts[c]
    }
}

/// Creates an event queue on the first free slot of the pool, claims the slot
/// for good, and returns the queue's handle, which is also the number of its
/// slot. The pool must not be exhausted.
pub fn ble_npl_eventq_init(npl: &mut PortLayer) -> (evq: usize)
    requires
        old(npl).wf(),
        old(npl)@.queues.len() < EVENT_QUEUE_POOL_SIZE,
    ensures
        final(npl).wf(),
        evq == old(npl)@.queues.len(),
        is_first_free(old(npl)@.taken, evq as int),
        final(npl)@ == (PortView {
            queues: old(npl)@.queues.push(Seq::<usize>::empty()),
            slots: old(npl)@.slots.push(evq),
            taken: old(npl)@.taken.update(evq as int, true),
            ..old(npl)@
        }),
{
    let mut slot: usize = 0;
    while slot < EVENT_QUEUE_POOL_SIZE && npl.pool[slot].taken
        invariant
            slot <= EVENT_QUEUE_POOL_SIZE,
            *npl == *old(npl),
            npl.pool@.len() == EVENT_QUEUE_POOL_SIZE,
            forall|j: int| 0 <= j < slot ==> (#[trigger] npl.pool@[j]).taken,
        decreases EVENT_QUEUE_POOL_SIZE - slot,
    {
        slot = slot + 1;
    }
    assert(slot == npl.queues@.len()) by {
        if slot < npl.queues@.len() {
            assert(npl.pool@[slot as int].taken);
        }
        if slot > npl.queues@.len() {
            assert(npl.pool@[npl.queues@.len() as int].taken);
        }
    }
    npl.pool[slot].taken = true;
    npl.queues.push(ble_npl_eventq { ch: slot, len: 0 });
    proof {
        assert forall|j: int| 0 <= j < npl.pool@.len() implies (#[trigger] npl.pool@[j]).q == old(
            npl,
        ).pool@[j].q && npl.pool@[j].taken == (j < npl.queues@.len()) by {
            if j != slot {
                assert(npl.pool@[j] == old(npl).pool@[j]);
            }
        }
        assert forall|i: int| 0 <= i < old(npl).queues@.len() implies npl@.queues[i] == old(
            npl,
        )@.queues[i] by {
            assert(npl.queues@[i] == old(npl).queues@[i]);
            assert(old(npl).queues@[i].ch == i);
        }
        assert(npl@.queues[slot as int] =~= Seq::<usize>::empty());
        assert(npl@.queues =~= old(npl)@.queues.push(Seq::<usize>::empty()));
        assert(npl@.slots =~= old(npl)@.slots.push(slot)) by {
            assert forall|i: int| 0 <= i < old(npl).queues@.len() implies npl.queues@[i].ch == old(
                npl,
            ).queues@[i].ch by {
                assert(npl.queues@[i] == old(npl).queues@[i]);
            }
        }
        assert(npl@.taken =~= old(npl)@.taken.update(slot as int, true));
        assert(is_first_free(old(npl)@.taken, slot as int)) by {
            assert forall|j: int| 0 <= j < slot implies #[trigger] old(npl)@.taken[j] by {
                assert(old(npl).pool@[j].taken);
            }
            assert(!old(npl).pool@[slot as int].taken);
        }
        lemma_pool_claims(*npl);
        lemma_records_stay_valid(old(npl)@, npl@);
    }
    slot
}

/// In a layer with a consistent pool the queues have claimed the first slots
/// in order: each queue owns the slot of its own number, and a slot is taken
/// exactly where a queue has that number.
proof fn lemma_pool_claims(npl: PortLayer)
    requires
        npl.pool_ok(),
    ensures
        npl@.taken.len() == EVENT_QUEUE_POOL_SIZE,
        npl@.slots.len() == npl@.queues.len(),
        npl@.queues.len() <= EVENT_QUEUE_POOL_SIZE,
        forall|q: int| 0 <= q < npl@.slots.len() ==> (#[trigger] npl@.slots[q]) == q,
        forall|j: int| 0 <= j < npl@.taken.len() ==> (#[trigger] npl@.taken[j]) == (j
            < npl@.queues.len()),
{
    assert forall|q: int| 0 <= q < npl@.slots.len() implies (#[trigger] npl@.slots[q]) == q by {
        assert(npl.queues@[q].ch == q);
    }
    assert forall|j: int| 0 <= j < npl@.taken.len() implies (#[trigger] npl@.taken[j]) == (j
        < npl@.queues.len()) by {
        assert(npl.pool@[j].taken == (j < npl.queues@.len()));
    }
}

/// A layer that differs from `before` only in the channel and the count of
/// queue `evq` is consistent in its pool, and holds in that queue what the
/// channel holds.
proof fn lemma_queue_changed(before: PortLayer, after: PortLayer, evq: int)
    requires
        before.pool_ok(),
        0 <= evq < before.queues@.len(),
        after.pool@.len() == before.pool@.len(),
        after.queues@.len() == before.queues@.len(),
        forall|j: int| 0 <= j < before.pool@.len() && j != evq ==> after.pool@[j] == before.pool@[j],
        after.pool@[evq].taken == before.pool@[evq].taken,
        forall|i: int|
            0 <= i < before.queues@.len() && i != evq ==> after.queues@[i] == before.queues@[i],
        after.queues@[evq].ch == evq,
        after.queues@[evq].len == event_channel_items(after.pool@[evq].q).len(),
    ensures
        after.pool_ok(),
        after@.queues == before@.queues.update(evq, event_channel_items(after.pool@[evq].q)),
        after@.slots == before@.slots,
        after@.taken == before@.taken,
{
    assert(after@.slots =~= before@.slots) by {
        assert forall|i: int| 0 <= i < after.queues@.len() implies after.queues@[i].ch
            == before.queues@[i].ch by {
            assert(before.queues@[i].ch == i);
        }
    }
    assert(after@.taken =~= before@.taken) by {
        assert forall|j: int| 0 <= j < after.pool@.len() implies after.pool@[j].taken
            == before.pool@[j].taken by {}
    }
    assert forall|i: int| 0 <= i < after.queues@.len() implies (#[trigger] after.queues@[i]).ch == i
        && after.queues@[i].len == event_channel_items(after.pool@[i].q).len() by {
        if i != evq {
            assert(before.queues@[i].ch == i);
        }
    }
    assert forall|j: int| 0 <= j < after.pool@.len() implies (#[trigger] after.pool@[j]).taken == (j
        < after.queues@.len()) by {
        assert(before.pool@[j].taken == (j < before.queues@.len()));
    }
    assert forall|j: int| after.queues@.len() <= j < after.pool@.len() implies event_channel_items(
        (#[trigger] after.pool@[j]).q,
    ).len() == 0 by {
        assert(event_channel_items(before.pool@[j].q).len() == 0);
    }
    assert forall|i: int| 0 <= i < after.queues@.len() implies after@.queues[i]
        == before@.queues.update(evq, event_channel_items(after.pool@[evq].q))[i] by {
        if i != evq {
            assert(before.queues@[i].ch == i);
        }
    }
    assert(after@.queues =~= before@.queues.update(evq, event_channel_items(after.pool@[evq].q)));
}

/// Takes the oldest event of a queue, if it holds one, and clears the event's
/// queued flag. An empty queue is left as it is and answers as `wait_plan`
/// says for the timeout: at once with the null event for timeout zero, else
/// by asking the caller to suspend.
pub fn ble_npl_eventq_get(npl: &mut PortLayer, evq: usize, tmo: u32) -> (r: GetOutcome)
    requires
        old(npl).wf(),
        evq < old(npl)@.queues.len(),
    ensures
        final(npl).wf(),
        old(npl)@.queues[evq as int].len() > 0 ==> r == GetOutcome::Event(
            old(npl)@.queues[evq as int][0],
        ) && final(npl)@ == old(npl)@.take(evq as int),
        old(npl)@.queues[evq as int].len() == 0 ==> r == wait_plan(tmo) && final(npl)@ == old(
            npl,
        )@,
{
    let slot: usize = npl.queues[evq].ch;
    assert(slot == evq);
    match event_channel_try_receive(&mut npl.pool[slot].q) {
        Some(ev) => {
            assert(ev == old(npl)@.queues[evq as int][0]);
            assert(ev < npl.events@.len());
            npl.events[ev].queued = false;
            npl.queues[evq].len = npl.queues[evq].len - 1;
            proof {
                lemma_queue_changed(*old(npl), *npl, evq as int);
                let items = old(npl)@.queues[evq as int];
                assert forall|k: int| 0 <= k < items.drop_first().len() implies (
                #[trigger] items.drop_first()[k]) < npl.events@.len() by {
                    assert(items.drop_first()[k] == items[k + 1]);
                }
                assert(npl@.events =~= old(npl)@.take(evq as int).events);
            }
            GetOutcome::Event(ev)
        },
        None => {
            proof {
                lemma_queue_changed(*old(npl), *npl, evq as int);
                assert(npl@.queues =~= old(npl)@.queues);
            }
            if tmo == 0 {
                GetOutcome::Null
            } else if tmo == BLE_NPL_TIME_FOREVER {
                GetOutcome::Suspend { timeout_ms: None }
            } else {
                GetOutcome::Suspend { timeout_ms: Some(tmo as u64) }
            }
        },
    }
}

/// Answers a consumer that has waited on a queue with a bounded timeout and
/// was woken or ran out of time. An event that waits is taken as by
/// `ble_npl_eventq_get`. On an empty queue the consumer gets the null event
/// once its time is up, and is asked to suspend for the rest of its time
/// otherwise, so that a wake without an event does not end the wait early.
pub fn ble_npl_eventq_get_after_wait(
    npl: &mut PortLayer,
    evq: usize,
    timed_out: bool,
    remaining_ms: u64,
) -> (r: GetOutcome)
    requires
        old(npl).wf(),
        evq < old(npl)@.queues.len(),
    ensures
        final(npl).wf(),
        old(npl)@.queues[evq as int].len() > 0 ==> r == GetOutcome::Event(
            old(npl)@.queues[evq as int][0],
        ) && final(npl)@ == old(npl)@.take(evq as int),
        old(npl)@.queues[evq as int].len() == 0 ==> final(npl)@ == old(npl)@ && r == rewait_plan(
            timed_out,
            remaining_ms,
        ),
{
    match ble_npl_eventq_get(npl, evq, 0) {
        GetOutcome::Event(ev) => GetOutcome::Event(ev),
        _ => {
            if timed_out || remaining_ms == 0 {
                GetOutcome::Null
            } else {
                GetOutcome::Suspend { timeout_ms: Some(remaining_ms) }
            }
        },
    }
}

/// One turn of the host's event loop on its default queue: the oldest event
/// leaves the queue to be run, or the loop waits without limit.
pub fn nimble_port_run(npl: &mut PortLayer, evq: usize) -> (step: RunStep)
    requires
        old(npl).wf(),
        evq < old(npl)@.queues.len(),
    ensures
        final(npl).wf(),
        old(npl)@.queues[evq as int].len() > 0 ==> final(npl)@ == old(npl)@.take(evq as int)
            && step == (RunStep::Run {
            ev: old(npl)@.queues[evq as int][0],
            handler: old(npl)@.events[old(npl)@.queues[evq as int][0] as int].event_fn,
        }),
        old(npl)@.queues[evq as int].len() == 0 ==> final(npl)@ == old(npl)@ && step
            == RunStep::Suspend,
{
    match ble_npl_eventq_get(npl, evq, BLE_NPL_TIME_FOREVER) {
        GetOutcome::Event(ev) => {
            assert(old(npl)@.queues[evq as int][0] < old(npl)@.events.len());
            RunStep::Run { ev, handler: ble_npl_event_run(npl, ev) }
        },
        _ => RunStep::Suspend,
    }
}

/// Puts an event at the back of a queue and sets its queued flag. The queue
/// must have room.
pub fn ble_npl_eventq_put(npl: &mut PortLayer, evq: usize, ev: usize)
    requires
        old(npl).wf(),
        evq < old(npl)@.queues.len(),
        ev < old(npl)@.events.len(),
        old(npl)@.queues[evq as int].len() < EVENT_CHANNEL_DEPTH,
    ensures
        final(npl).wf(),
        final(npl)@ == old(npl)@.put(evq as int, ev),
{
    npl.events[ev].queued = true;
    npl.queues[evq].len = npl.queues[evq].len + 1;
    let slot: usize = npl.queues[evq].ch;
    assert(slot == evq);
    let sent: bool = event_channel_try_send(&mut npl.pool[slot].q, ev);
    proof {
        lemma_queue_changed(*old(npl), *npl, evq as int);
        assert(npl@.events =~= old(npl)@.put(evq as int, ev).events);
    }
}

/// Takes every occurrence of an event out of a queue, keeps the other events
/// in their order, and clears the event's queued flag if it was in the queue.
pub fn ble_npl_eventq_remove(npl: &mut PortLayer, evq: usize, ev: usize)
    requires
        old(npl).wf(),
        evq < old(npl)@.queues.len(),
    ensures
        final(npl).wf(),
        final(npl)@ == old(npl)@.remove(evq as int, ev),
{
    let slot: usize = npl.queues[evq].ch;
    assert(slot == evq);
    let n: u8 = npl.queues[evq].len;
    let ghost items = old(npl)@.queues[evq as int];
    let mut i: u8 = 0;
    proof {
        assert(items.subrange(0, 0) =~= Seq::<usize>::empty());
        reveal_with_fuel(Seq::filter, 1);
        assert(without(items.subrange(0, 0), ev) =~= Seq::<usize>::empty());
        assert(items.subrange(0, n as int) =~= items);
    }
    while i < n
        invariant
            i <= n,
            n == items.len(),
            slot == evq,
            old(npl).wf(),
            evq < old(npl)@.queues.len(),
            items == old(npl)@.queues[evq as int],
            npl.pool@.len() == old(npl).pool@.len(),
            npl.queues@.len() == old(npl).queues@.len(),
            forall|j: int|
                0 <= j < npl.pool@.len() && j != evq ==> npl.pool@[j] == old(npl).pool@[j],
            npl.pool@[evq as int].taken == old(npl).pool@[evq as int].taken,
            forall|k: int|
                0 <= k < npl.queues@.len() && k != evq ==> npl.queues@[k] == old(npl).queues@[k],
            npl.queues@[evq as int].ch == evq,
            npl.queues@[evq as int].len == event_channel_items(npl.pool@[evq as int].q).len(),
            event_channel_items(npl.pool@[evq as int].q) == items.subrange(i as int, n as int)
                + without(items.subrange(0, i as int), ev),
            npl.callouts == old(npl).callouts,
            npl.events@ == (if items.subrange(0, i as int).contains(ev) {
                old(npl).events@.update(ev as int, old(npl)@.flagged(ev as int, false))
            } else {
                old(npl).events@
            }),
        decreases n - i,
    {
        let ghost before = event_channel_items(npl.pool@[evq as int].q);
        let ghost done = items.subrange(0, i as int);
        proof {
            items.subrange(0, i as int).lemma_filter_len(other_than(ev));
            assert(before[0] == items[i as int]);
            assert(items.subrange(0, i as int + 1) =~= done.push(items[i as int]));
            done.lemma_filter_push(items[i as int], other_than(ev));
            assert(before.drop_first() =~= items.subrange(i as int + 1, n as int) + without(
                done,
                ev,
            ));
        }
        let pulled: Option<usize> = event_channel_try_receive(&mut npl.pool[slot].q);
        let pulled: usize = pulled.unwrap();
        if pulled == ev {
            assert(ev < npl.events@.len());
            npl.events[ev].queued = false;
            npl.queues[evq].len = npl.queues[evq].len - 1;
            proof {
                assert(done.push(ev).contains(ev)) by {
                    assert(done.push(ev)[done.len() as int] == ev);
                }
                assert(npl.events@ =~= old(npl).events@.update(
                    ev as int,
                    old(npl)@.flagged(ev as int, false),
                ));
            }
        } else {
            let sent: bool = event_channel_try_send(&mut npl.pool[slot].q, pulled);
            proof {
                assert(sent);
                assert(event_channel_items(npl.pool@[evq as int].q) =~= items.subrange(
                    i as int + 1,
                    n as int,
                ) + without(done.push(pulled), ev));
                assert(done.push(pulled).contains(ev) == done.contains(ev)) by {
                    if done.contains(ev) {
                        let k = choose|k: int| 0 <= k < done.len() && done[k] == ev;
                        assert(done.push(pulled)[k] == ev);
                    }
                    if done.push(pulled).contains(ev) {
                        let k = choose|k: int|
                            0 <= k < done.push(pulled).len() && done.push(pulled)[k] == ev;
                        assert(done[k] == ev);
                    }
                }
            }
        }
        i = i + 1;
    }
    proof {
        assert(items.subrange(0, n as int) =~= items);
        assert(items.subrange(n as int, n as int) =~= Seq::<usize>::empty());
        assert(event_channel_items(npl.pool@[evq as int].q) =~= without(items, ev));
        lemma_queue_changed(*old(npl), *npl, evq as int);
        assert forall|k: int| 0 <= k < without(items, ev).len() implies (#[trigger] without(
            items,
            ev,
        )[k]) < npl.events@.len() by {
            items.lemma_filter_contains_rev(other_than(ev), without(items, ev)[k]);
            let j = choose|j: int| 0 <= j < items.len() && items[j] == without(items, ev)[k];
            assert(items[j] < old(npl)@.events.len());
        }
        items.lemma_filter_len(other_than(ev));
        assert(npl@.events.len() == old(npl)@.events.len());
        assert forall|q: int, k: int|
            0 <= q < npl@.queues.len() && 0 <= k < npl@.queues[q].len() implies (
        #[trigger] npl@.queues[q][k]) < npl@.events.len() by {
            if q == evq {
                assert(npl@.queues[q][k] == without(items, ev)[k]);
            } else {
                assert(npl@.queues[q][k] == old(npl)@.queues[q][k]);
            }
        }
        assert forall|q: int| 0 <= q < npl@.queues.len() implies (#[trigger] npl@.queues[q]).len()
            <= EVENT_CHANNEL_DEPTH by {
            if q != evq {
                assert(npl@.queues[q] == old(npl)@.queues[q]);
            }
        }
        assert forall|c: int| 0 <= c < npl@.callouts.len() implies (#[trigger] npl@.callouts[c]).event_queue
            < npl@.queues.len() && npl@.callouts[c].event < npl@.events.len() by {
            assert(npl@.callouts[c] == old(npl)@.callouts[c]);
        }
    }
}

/// A valid layer stays valid where its queues hold what they held or hold
/// valid handles, its events are no fewer, its slots are claimed as before or
/// by one queue more on a slot that was free, and each callout keeps its
/// handles or is new with handles that point at records.
proof fn lemma_records_stay_valid(before: PortView, after: PortView)
    requires
        before.valid(),
        after.events.len() >= before.events.len(),
        after.queues.len() <= EVENT_QUEUE_POOL_SIZE,
        after.queues.len() >= before.queues.len(),
        forall|q: int|
            0 <= q < after.queues.len() ==> (#[trigger] after.queues[q]).len()
                <= EVENT_CHANNEL_DEPTH,
        forall|q: int, k: int|
            0 <= q < after.queues.len() && 0 <= k < after.queues[q].len() ==> (
            #[trigger] after.queues[q][k]) < after.events.len(),
        (after.slots == before.slots && after.taken == before.taken && after.queues.len()
            == before.queues.len()) || (after.queues.len() == before.queues.len() + 1
            && !before.taken[before.queues.len() as int] && after.slots == before.slots.push(
            before.queues.len() as usize,
        ) && after.taken == before.taken.update(before.queues.len() as int, true)),
        forall|c: int|
            0 <= c < after.callouts.len() ==> (#[trigger] after.callouts[c]).event_queue
                < after.queues.len() && after.callouts[c].event < after.events.len(),
    ensures
        after.valid(),
{
    if after.queues.len() == before.queues.len() + 1 && after.slots != before.slots {
        let n = before.queues.len() as int;
        assert forall|q: int| 0 <= q < after.slots.len() implies (#[trigger] after.slots[q])
            < EVENT_QUEUE_POOL_SIZE && after.taken[after.slots[q] as int] by {
            if q < n {
                assert(before.taken[before.slots[q] as int]);
            }
        }
        assert forall|q1: int, q2: int|
            0 <= q1 < after.slots.len() && 0 <= q2 < after.slots.len() && q1 != q2 implies (
        #[trigger] after.slots[q1]) != (#[trigger] after.slots[q2]) by {
            if q1 < n {
                assert(before.taken[before.slots[q1] as int]);
            }
            if q2 < n {
                assert(before.taken[before.slots[q2] as int]);
            }
        }
    }
}

/// Callouts that keep their handles, with at most new ones whose handles point
/// at records, point at records of a layer that has lost no queue and no
/// event.
proof fn lemma_callouts_stay_valid(before: PortView, after: PortView)
    requires
        before.valid(),
        after.queues == before.queues,
        after.slots == before.slots,
        after.taken == before.taken,
        after.events.len() >= before.events.len(),
        forall|c: int|
            0 <= c < after.callouts.len() ==> if c < before.callouts.len() {
                (#[trigger] after.callouts[c]).event_queue == before.callouts[c].event_queue
                    && after.callouts[c].event == before.callouts[c].event
            } else {
                after.callouts[c].event_queue < after.queues.len() && after.callouts[c].event
                    < after.events.len()
            },
    ensures
        after.valid(),
{
    assert forall|q: int, k: int|
        0 <= q < after.queues.len() && 0 <= k < after.queues[q].len() implies (
    #[trigger] after.queues[q][k]) < after.events.len() by {
        assert(before.queues[q][k] < before.events.len());
    }
    assert forall|c: int| 0 <= c < after.callouts.len() implies (#[trigger] after.callouts[c]).event_queue
        < after.queues.len() && after.callouts[c].event < after.events.len() by {
        if c < before.callouts.len() {
            assert(before.callouts[c].event < before.events.len());
        }
    }
    lemma_records_stay_valid(before, after);
}

/// The view of a layer whose pool and queues are those of `before`.
proof fn lemma_same_queues(before: PortLayer, after: PortLayer)
    requires
        before.pool_ok(),
        after.pool == before.pool,
        after.queues == before.queues,
    ensures
        after.pool_ok(),
        after@.queues == before@.queues,
        after@.slots == before@.slots,
        after@.taken == before@.taken,
{
    assert(after@.queues =~= before@.queues);
    assert(after@.slots =~= before@.slots);
    assert(after@.taken =~= before@.taken);
}

/// Creates an event with a handler and an argument, not queued, and returns
/// its handle.
pub fn ble_npl_event_init(npl: &mut PortLayer, fn_: Option<usize>, arg: usize) -> (ev: usize)
    requires
        old(npl).wf(),
    ensures
        final(npl).wf(),
        ev == old(npl)@.events.len(),
        final(npl)@ == (PortView {
            events: old(npl)@.events.push(
                ble_npl_event { event_fn: fn_, arg_ptr: arg, queued: false },
            ),
            ..old(npl)@
        }),
{
    let ev: usize = npl.events.len();
    npl.events.push(ble_npl_event { event_fn: fn_, arg_ptr: arg, queued: false });
    proof {
        lemma_same_queues(*old(npl), *npl);
        lemma_callouts_stay_valid(old(npl)@, npl@);
    }
    ev
}

/// The handler that running an event calls with the event, if it has one.
pub fn ble_npl_event_run(npl: &PortLayer, ev: usize) -> (handler: Option<usize>)
    requires
        ev < npl@.events.len(),
    ensures
        handler == npl@.events[ev as int].event_fn,
{
    npl.events[ev].event_fn
}

/// Whether an event is in a queue.
pub fn ble_npl_event_is_queued(npl: &PortLayer, ev: usize) -> (queued: bool)
    requires
        ev < npl@.events.len(),
    ensures
        queued == npl@.events[ev as int].queued,
{
    npl.events[ev].queued
}

/// The argument of an event.
pub fn ble_npl_event_get_arg(npl: &PortLayer, ev: usize) -> (arg: usize)
    requires
        ev < npl@.events.len(),
    ensures
        arg == npl@.events[ev as int].arg_ptr,
{
    npl.events[ev].arg_ptr
}

/// Gives an event a new argument.
pub fn ble_npl_event_set_arg(npl: &mut PortLayer, ev: usize, arg: usize)
    requires
        old(npl).wf(),
        ev < old(npl)@.events.len(),
    ensures
        final(npl).wf(),
        final(npl)@ == (PortView {
            events: old(npl)@.events.update(
                ev as int,
                ble_npl_event { arg_ptr: arg, ..old(npl)@.events[ev as int] },
            ),
            ..old(npl)@
        }),
{
    npl.events[ev].arg_ptr = arg;
    proof {
        lemma_same_queues(*old(npl), *npl);
        assert(npl@.events =~= old(npl)@.events.update(
            ev as int,
            ble_npl_event { arg_ptr: arg, ..old(npl)@.events[ev as int] },
        ));
        lemma_callouts_stay_valid(old(npl)@, npl@);
    }
}

/// Creates an idle callout bound to a queue, with a new event that carries the
/// handler and the argument, and returns the callout's handle.
pub fn ble_npl_callout_init(
    npl: &mut PortLayer,
    evq: usize,
    ev_cb: Option<usize>,
    ev_arg: usize,
) -> (c: usize)
    requires
        old(npl).wf(),
        evq < old(npl)@.queues.len(),
    ensures
        final(npl).wf(),
        c == old(npl)@.callouts.len(),
        final(npl)@ == (PortView {
            events: old(npl)@.events.push(
                ble_npl_event { event_fn: ev_cb, arg_ptr: ev_arg, queued: false },
            ),
            callouts: old(npl)@.callouts.push(
                ble_npl_callout {
                    active: false,
                    expires_at: 0,
                    event_queue: evq,
                    event: old(npl)@.events.len() as usize,
                },
            ),
            ..old(npl)@
        }),
{
    let event: usize = ble_npl_event_init(npl, ev_cb, ev_arg);
    let c: usize = npl.callouts.len();
    let ghost mid = *npl;
    npl.callouts.push(ble_npl_callout { active: false, expires_at: 0, event_queue: evq, event });
    proof {
        lemma_same_queues(mid, *npl);
        lemma_callouts_stay_valid(mid@, npl@);
    }
    c
}

/// Arms a callout at tick `now` for `ticks` ticks: the deadline is their sum on
/// the 32-bit tick counter, and a wake is to be scheduled for it. The status
/// is always "no such entry".
pub fn ble_npl_callout_reset_at(npl: &mut PortLayer, c: usize, now: u64, ticks: u32) -> (r: (
    u32,
    WakeRequest,
))
    requires
        old(npl).wf(),
        c < old(npl)@.callouts.len(),
    ensures
        final(npl).wf(),
        final(npl)@ == old(npl)@.arm(c as int, now, ticks),
        r.0 == BLE_NPL_ENOENT,
        r.1 == (WakeRequest { at: deadline(now, ticks) as u64, waker: CalloutWaker { data: c } }),
{
    let base: u32 = #[verifier::truncate]
    (now as u32);
    let expires_at: u32 = if ticks > u32::MAX - base {
        ticks - (u32::MAX - base) - 1
    } else {
        base + ticks
    };
    npl.callouts[c].expires_at = expires_at;
    npl.callouts[c].active = true;
    proof {
        lemma_same_queues(*old(npl), *npl);
        assert(npl@.callouts =~= old(npl)@.arm(c as int, now, ticks).callouts);
        lemma_callouts_stay_valid(old(npl)@, npl@);
    }
    (BLE_NPL_ENOENT, WakeRequest { at: expires_at as u64, waker: clone_waker(c) })
}

/// Arms a callout for `ticks` ticks from the current reading of the tick
/// counter, as `ble_npl_callout_reset_at` does for that reading.
pub fn ble_npl_callout_reset(npl: &mut PortLayer, c: usize, ticks: u32) -> (r: (u32, WakeRequest))
    requires
        old(npl).wf(),
        c < old(npl)@.callouts.len(),
    ensures
        final(npl).wf(),
        exists|now: u64|
            final(npl)@ == old(npl)@.arm(c as int, now, ticks) && r.1.at == deadline(now, ticks),
        r.0 == BLE_NPL_ENOENT,
        r.1.waker == (CalloutWaker { data: c }),
{
    let now: u64 = crate::time::driver_now();
    ble_npl_callout_reset_at(npl, c, now, ticks)
}

/// Stops a callout, armed or not.
pub fn ble_npl_callout_stop(npl: &mut PortLayer, co: usize)
    requires
        old(npl).wf(),
        co < old(npl)@.callouts.len(),
    ensures
        final(npl).wf(),
        final(npl)@ == old(npl)@.stop(co as int),
{
    npl.callouts[co].active = false;
    proof {
        lemma_same_queues(*old(npl), *npl);
        assert(npl@.callouts =~= old(npl)@.stop(co as int).callouts);
        lemma_callouts_stay_valid(old(npl)@, npl@);
    }
}

/// Whether a callout is armed.
pub fn ble_npl_callout_is_active(npl: &PortLayer, c: usize) -> (active: bool)
    requires
        c < npl@.callouts.len(),
    ensures
        active == npl@.callouts[c as int].active,
{
    npl.callouts[c].active
}

/// The deadline of a callout.
pub fn ble_npl_callout_get_ticks(npl: &PortLayer, co: usize) -> (ticks: u32)
    requires
        co < npl@.callouts.len(),
    ensures
        ticks == npl@.callouts[co as int].expires_at,
{
    npl.callouts[co].expires_at
}

/// The ticks that are left from `time` to the deadline of a callout. Up to the
/// deadline that is the deadline less `time`. Past it the count goes on round
/// the 32-bit tick counter, as for a deadline that lies beyond the counter's
/// wrap.
pub fn ble_npl_callout_remaining_ticks(npl: &PortLayer, co: usize, time: u32) -> (ticks: u32)
    requires
        co < npl@.callouts.len(),
    ensures
        ticks == wrapping_diff(npl@.callouts[co as int].expires_at, time),
        time <= npl@.callouts[co as int].expires_at ==> ticks == npl@.callouts[co as int].expires_at
            - time,
        time > npl@.callouts[co as int].expires_at ==> ticks == 0x1_0000_0000
            + npl@.callouts[co as int].expires_at - time,
{
    let expires_at: u32 = npl.callouts[co].expires_at;
    if time <= expires_at {
        expires_at - time
    } else {
        u32::MAX - (time - expires_at) + 1
    }
}

/// A waker for the same callout.
pub fn clone_waker(data: usize) -> (waker: CalloutWaker)
    ensures
        waker == (CalloutWaker { data }),
{
    CalloutWaker { data }
}

/// The wake of a callout: if it is still armed, its event goes to its queue;
/// in any case the callout is idle afterwards. The queue of an armed callout
/// must have room.
pub fn callout_cb(npl: &mut PortLayer, ctx: usize)
    requires
        old(npl).wf(),
        ctx < old(npl)@.callouts.len(),
        old(npl)@.callouts[ctx as int].active ==> old(npl)@.queues[old(npl)@.callouts[ctx as int].event_queue as int].len()
            < EVENT_CHANNEL_DEPTH,
    ensures
        final(npl).wf(),
        final(npl)@ == old(npl)@.fire(ctx as int),
{
    let co: ble_npl_callout = npl.callouts[ctx];
    if co.active {
        ble_npl_eventq_put(npl, co.event_queue, co.event);
    }
    ble_npl_callout_stop(npl, ctx);
    proof {
        if !co.active {
            assert(npl@.callouts =~= old(npl)@.callouts);
        }
    }
}

impl PortView {
    /// The layer after the events `evs` were put into queue `evq`, one after the
    /// other.
    pub open spec fn put_all(self, evq: int, evs: Seq<usize>) -> PortView
        decreases evs.len(),
    {
        if evs.len() == 0 {
            self
        } else {
            self.put_all(evq, evs.drop_last()).put(evq, evs.last())
        }
    }

    /// The events that `n` gets in a row take from queue `evq`, in the order in
    /// which they are returned.
    pub open spec fn observed(self, evq: int, n: nat) -> Seq<usize>
        decreases n,
    {
        if n == 0 {
            Seq::<usize>::empty()
        } else {
            seq![self.queues[evq][0]] + self.take(evq).observed(evq, (n - 1) as nat)
        }
    }
}

/// Gets return the events of a queue from the oldest on.
pub proof fn lemma_gets_follow_queue(v: PortView, evq: int, n: nat)
    requires
        0 <= evq < v.queues.len(),
        n <= v.queues[evq].len(),
    ensures
        v.observed(evq, n) == v.queues[evq].take(n as int),
    decreases n,
{
    if n > 0 {
        lemma_gets_follow_queue(v.take(evq), evq, (n - 1) as nat);
        assert(v.take(evq).queues[evq] == v.queues[evq].drop_first());
        assert(v.queues[evq].take(n as int) =~= seq![v.queues[evq][0]] + v.queues[evq].drop_first().take(
            n - 1,
        ));
    } else {
        assert(v.queues[evq].take(0) =~= Seq::<usize>::empty());
    }
}

/// Puts append to a queue in the order in which they are made.
pub proof fn lemma_puts_append(v: PortView, evq: int, evs: Seq<usize>)
    requires
        0 <= evq < v.queues.len(),
    ensures
        v.put_all(evq, evs).queues.len() == v.queues.len(),
        v.put_all(evq, evs).queues[evq] == v.queues[evq] + evs,
    decreases evs.len(),
{
    if evs.len() > 0 {
        lemma_puts_append(v, evq, evs.drop_last());
        assert(evs =~= evs.drop_last().push(evs.last()));
        assert(v.put_all(evq, evs).queues[evq] =~= v.queues[evq] + evs);
    } else {
        assert(v.queues[evq] + evs =~= v.queues[evq]);
    }
}

/// First in, first out: after any sequence of puts into a queue, with no
/// removal between them, gets return what the queue held before and then the
/// events that were put, each in the order of its put.
pub proof fn lemma_fifo(v: PortView, evq: int, evs: Seq<usize>)
    requires
        0 <= evq < v.queues.len(),
    ensures
        v.put_all(evq, evs).observed(evq, v.queues[evq].len() + evs.len()) == v.queues[evq] + evs,
{
    lemma_puts_append(v, evq, evs);
    let w = v.put_all(evq, evs);
    lemma_gets_follow_queue(w, evq, v.queues[evq].len() + evs.len());
    assert(w.queues[evq].take((v.queues[evq].len() + evs.len()) as int) =~= w.queues[evq]);
}

/// After an event was removed from a queue no get returns it, and the gets
/// return all other events of the queue in the order in which they stood.
pub proof fn lemma_removed_event_is_gone(v: PortView, evq: int, ev: usize)
    requires
        0 <= evq < v.queues.len(),
    ensures
        !v.remove(evq, ev).queues[evq].contains(ev),
        forall|x: usize|
            x != ev && v.queues[evq].contains(x) ==> #[trigger] v.remove(evq, ev).queues[evq].contains(
                x,
            ),
        v.remove(evq, ev).observed(evq, v.remove(evq, ev).queues[evq].len()) == without(
            v.queues[evq],
            ev,
        ),
        forall|n: nat|
            n <= v.remove(evq, ev).queues[evq].len() ==> !(#[trigger] v.remove(evq, ev).observed(
                evq,
                n,
            )).contains(ev),
        v.valid() && v.queues[evq].contains(ev) ==> !v.remove(evq, ev).events[ev as int].queued,
{
    let items = v.queues[evq];
    let w = v.remove(evq, ev);
    let kept = without(items, ev);
    assert(w.queues[evq] == kept);
    if v.valid() && items.contains(ev) {
        let j = choose|j: int| 0 <= j < items.len() && items[j] == ev;
        assert(v.queues[evq][j] < v.events.len());
    }
    if kept.contains(ev) {
        let k = choose|k: int| 0 <= k < kept.len() && kept[k] == ev;
        items.lemma_filter_pred(other_than(ev), k);
    }
    assert forall|x: usize| x != ev && items.contains(x) implies #[trigger] kept.contains(x) by {
        let j = choose|j: int| 0 <= j < items.len() && items[j] == x;
        items.lemma_filter_contains(other_than(ev), j);
    }
    lemma_gets_follow_queue(w, evq, kept.len());
    assert(kept.take(kept.len() as int) =~= kept);
    assert forall|n: nat| n <= kept.len() implies !(#[trigger] w.observed(evq, n)).contains(ev) by {
        lemma_gets_follow_queue(w, evq, n);
        if kept.take(n as int).contains(ev) {
            let k = choose|k: int| 0 <= k < kept.take(n as int).len() && kept.take(n as int)[k] == ev;
            assert(kept[k] == ev);
        }
    }
}

/// A callout that is armed and stopped before its wake never posts its
/// event: the wake changes nothing, and the queues and events are as they
/// were before the callout was armed.
pub proof fn lemma_stop_cancels(v: PortView, c: int, now: u64, ticks: u32)
    requires
        0 <= c < v.callouts.len(),
    ensures
        v.arm(c, now, ticks).stop(c).fire(c) == v.arm(c, now, ticks).stop(c),
        v.arm(c, now, ticks).stop(c).fire(c).queues == v.queues,
        v.arm(c, now, ticks).stop(c).fire(c).events == v.events,
{
}

/// A callout that is armed twice in a row carries the later deadline, and its
/// event is posted once: the first wake after the second arming posts it,
/// every further wake does nothing.
pub proof fn lemma_rearm_posts_once(
    v: PortView,
    c: int,
    now1: u64,
    ticks1: u32,
    now2: u64,
    ticks2: u32,
)
    requires
        0 <= c < v.callouts.len(),
        0 <= v.callouts[c].event_queue < v.queues.len(),
    ensures
        v.arm(c, now1, ticks1).arm(c, now2, ticks2) == v.arm(c, now2, ticks2),
        v.arm(c, now1, ticks1).arm(c, now2, ticks2).callouts[c].expires_at == deadline(
            now2,
            ticks2,
        ),
        v.arm(c, now2, ticks2).fire(c).queues[v.callouts[c].event_queue as int]
            == v.queues[v.callouts[c].event_queue as int].push(v.callouts[c].event),
        !v.arm(c, now2, ticks2).fire(c).callouts[c].active,
        v.arm(c, now2, ticks2).fire(c).fire(c) == v.arm(c, now2, ticks2).fire(c),
{
    assert(v.arm(c, now1, ticks1).arm(c, now2, ticks2).callouts =~= v.arm(
        c,
        now2,
        ticks2,
    ).callouts);
}

} // verus!
