//! The queued flag of an event says whether the event is in a queue, as long
//! as no event is put while it is queued.
use crate::npl::ble_npl_event;
use crate::npl::other_than;
use crate::npl::PortView;
use crate::npl::without;
use vstd::prelude::*;

verus! {

/// Whether event `ev` is in some queue of the layer.
pub open spec fn linked(v: PortView, ev: usize) -> bool {
    exists|q: int, k: int| #[trigger] occurs(v, q, k, ev)
}

/// Whether event `ev` stands at position `k` of queue `q`.
pub open spec fn occurs(v: PortView, q: int, k: int, ev: usize) -> bool {
    0 <= q < v.queues.len() && 0 <= k < v.queues[q].len() && v.queues[q][k] == ev
}

/// Every event is in at most one place of one queue, and its queued flag is
/// set exactly while it is there.
pub open spec fn flags_agree(v: PortView) -> bool {
    &&& forall|e: usize| e < v.events.len() ==> v.events[e as int].queued == #[trigger] linked(v, e)
    &&& forall|e: usize, q1: int, k1: int, q2: int, k2: int|
        #[trigger] occurs(v, q1, k1, e) && #[trigger] occurs(v, q2, k2, e) ==> q1 == q2 && k1 == k2
}

/// A layer without events in its queues and without set flags agrees.
pub proof fn lemma_empty_layer_agrees(v: PortView)
    requires
        forall|q: int| 0 <= q < v.queues.len() ==> (#[trigger] v.queues[q]).len() == 0,
        forall|e: int| 0 <= e < v.events.len() ==> !(#[trigger] v.events[e]).queued,
    ensures
        flags_agree(v),
{
    assert forall|e: usize| e < v.events.len() implies v.events[e as int].queued == #[trigger] linked(v, e) by {
        if linked(v, e) {
            let (q, k) = choose|q: int, k: int| #[trigger] occurs(v, q, k, e);
            assert(v.queues[q].len() == 0);
        }
    }
}

/// A new queue or a new event that is not queued keeps the agreement.
pub proof fn lemma_growth_keeps_agreement(v: PortView, w: PortView, fresh: ble_npl_event)
    requires
        v.valid(),
        flags_agree(v),
        !fresh.queued,
        w.queues == v.queues || w.queues == v.queues.push(Seq::<usize>::empty()),
        w.events == v.events || w.events == v.events.push(fresh),
    ensures
        flags_agree(w),
{
    assert forall|e: usize, q: int, k: int| #[trigger] occurs(w, q, k, e) == occurs(v, q, k, e) by {
        if 0 <= q < v.queues.len() {
            assert(w.queues[q] == v.queues[q]);
        }
    }
    assert forall|e: usize| e < w.events.len() implies w.events[e as int].queued == #[trigger] linked(w, e) by {
        if linked(w, e) {
            let (q, k) = choose|q: int, k: int| #[trigger] occurs(w, q, k, e);
            assert(occurs(v, q, k, e));
            assert(v.queues[q][k] < v.events.len());
        }
        if e < v.events.len() {
            assert(w.events[e as int] == v.events[e as int]);
            if linked(v, e) {
                let (q, k) = choose|q: int, k: int| #[trigger] occurs(v, q, k, e);
                assert(occurs(w, q, k, e));
            }
        }
    }
    assert forall|e: usize, q1: int, k1: int, q2: int, k2: int|
        #[trigger] occurs(w, q1, k1, e) && #[trigger] occurs(w, q2, k2, e) implies q1 == q2 && k1
        == k2 by {
        assert(occurs(v, q1, k1, e) && occurs(v, q2, k2, e));
    }
}

/// Putting an event that is not queued keeps the agreement.
pub proof fn lemma_put_keeps_agreement(v: PortView, evq: int, ev: usize)
    requires
        v.valid(),
        flags_agree(v),
        0 <= evq < v.queues.len(),
        ev < v.events.len(),
        !v.events[ev as int].queued,
    ensures
        flags_agree(v.put(evq, ev)),
{
    let w = v.put(evq, ev);
    let last = v.queues[evq].len() as int;
    assert(!linked(v, ev));
    assert(occurs(w, evq, last, ev));
    assert forall|e: usize, q: int, k: int| #[trigger] occurs(w, q, k, e) == (occurs(v, q, k, e) || (q == evq
        && k == last && e == ev)) by {
        if 0 <= q < v.queues.len() && q != evq {
            assert(w.queues[q] == v.queues[q]);
        }
    }
    assert forall|e: usize| e < w.events.len() implies w.events[e as int].queued == #[trigger] linked(w, e) by {
        if e == ev {
            assert(occurs(w, evq, last, ev));
        } else {
            assert(w.events[e as int] == v.events[e as int]);
            if linked(v, e) {
                let (q, k) = choose|q: int, k: int| #[trigger] occurs(v, q, k, e);
                assert(occurs(w, q, k, e));
            }
            if linked(w, e) {
                let (q, k) = choose|q: int, k: int| #[trigger] occurs(w, q, k, e);
                assert(occurs(v, q, k, e));
            }
        }
    }
    assert forall|e: usize, q1: int, k1: int, q2: int, k2: int|
        #[trigger] occurs(w, q1, k1, e) && #[trigger] occurs(w, q2, k2, e) implies q1 == q2 && k1
        == k2 by {
        if occurs(v, q1, k1, e) && occurs(v, q2, k2, e) {
        } else if occurs(v, q1, k1, e) {
            assert(linked(v, ev));
        } else if occurs(v, q2, k2, e) {
            assert(linked(v, ev));
        }
    }
}

/// Taking the oldest event of a queue keeps the agreement.
pub proof fn lemma_take_keeps_agreement(v: PortView, evq: int)
    requires
        v.valid(),
        flags_agree(v),
        0 <= evq < v.queues.len(),
        v.queues[evq].len() > 0,
    ensures
        flags_agree(v.take(evq)),
{
    let w = v.take(evq);
    let ev = v.queues[evq][0];
    assert(occurs(v, evq, 0, ev));
    assert(ev < v.events.len());
    assert forall|e: usize, q: int, k: int| #[trigger] occurs(w, q, k, e) == (if q == evq {
        occurs(v, q, k + 1, e) && k >= 0
    } else {
        occurs(v, q, k, e)
    }) by {
        if 0 <= q < v.queues.len() && q != evq {
            assert(w.queues[q] == v.queues[q]);
        }
    }
    assert forall|e: usize| e < w.events.len() implies w.events[e as int].queued == #[trigger] linked(w, e) by {
        if linked(w, e) {
            let (q, k) = choose|q: int, k: int| #[trigger] occurs(w, q, k, e);
            if q == evq {
                assert(occurs(v, q, k + 1, e));
            } else {
                assert(occurs(v, q, k, e));
            }
            assert(linked(v, e));
            assert(e != ev);
        }
        if e != ev {
            assert(w.events[e as int] == v.events[e as int]);
            if linked(v, e) {
                let (q, k) = choose|q: int, k: int| #[trigger] occurs(v, q, k, e);
                if q == evq {
                    assert(k > 0);
                    assert(occurs(w, q, k - 1, e));
                } else {
                    assert(occurs(w, q, k, e));
                }
            }
        }
    }
    assert forall|e: usize, q1: int, k1: int, q2: int, k2: int|
        #[trigger] occurs(w, q1, k1, e) && #[trigger] occurs(w, q2, k2, e) implies q1 == q2 && k1
        == k2 by {
        let j1 = if q1 == evq {
            k1 + 1
        } else {
            k1
        };
        let j2 = if q2 == evq {
            k2 + 1
        } else {
            k2
        };
        assert(occurs(v, q1, j1, e) && occurs(v, q2, j2, e));
    }
}

/// What is left of a sequence without duplicates has no duplicates, and each
/// of its items stood in the sequence.
proof fn lemma_without_is_sparse(s: Seq<usize>, ev: usize)
    requires
        s.no_duplicates(),
    ensures
        without(s, ev).no_duplicates(),
        forall|x: usize| #[trigger] without(s, ev).contains(x) <==> s.contains(x) && x != ev,
    decreases s.len(),
{
    reveal(Seq::filter);
    let kept = without(s, ev);
    if s.len() > 0 {
        let rest = s.drop_last();
        lemma_without_is_sparse(rest, ev);
        assert forall|x: usize| #[trigger] kept.contains(x) <==> s.contains(x) && x != ev by {
            if kept.contains(x) {
                s.lemma_filter_contains_rev(other_than(ev), x);
                let k = choose|k: int| 0 <= k < kept.len() && kept[k] == x;
                s.lemma_filter_pred(other_than(ev), k);
            }
            if s.contains(x) && x != ev {
                let j = choose|j: int| 0 <= j < s.len() && s[j] == x;
                s.lemma_filter_contains(other_than(ev), j);
            }
        }
        if s.last() != ev {
            assert(kept == without(rest, ev).push(s.last()));
            if without(rest, ev).contains(s.last()) {
                assert(rest.contains(s.last()));
                let j = choose|j: int| 0 <= j < rest.len() && rest[j] == s.last();
                assert(s[j] == rest[j]);
                assert(s[j] == s[s.len() - 1]);
            }
            assert(without(rest, ev).push(s.last()).no_duplicates()) by {
                let t = without(rest, ev);
                assert forall|i: int, j: int|
                    0 <= i < t.len() + 1 && 0 <= j < t.len() + 1 && i != j implies t.push(
                    s.last(),
                )[i] != t.push(s.last())[j] by {
                    if i < t.len() && j < t.len() {
                    } else if i < t.len() {
                        assert(t.contains(t[i]));
                    } else {
                        assert(t.contains(t[j]));
                    }
                }
            }
        } else {
            assert(kept == without(rest, ev));
        }
    } else {
        assert forall|x: usize| #[trigger] kept.contains(x) <==> s.contains(x) && x != ev by {}
    }
}

/// Removing an event from a queue keeps the agreement.
pub proof fn lemma_remove_keeps_agreement(v: PortView, evq: int, ev: usize)
    requires
        v.valid(),
        flags_agree(v),
        0 <= evq < v.queues.len(),
    ensures
        flags_agree(v.remove(evq, ev)),
{
    let w = v.remove(evq, ev);
    let items = v.queues[evq];
    let kept = without(items, ev);
    assert(items.no_duplicates()) by {
        assert forall|i: int, j: int| 0 <= i < items.len() && 0 <= j < items.len() && i != j implies items[i]
            != items[j] by {
            if items[i] == items[j] {
                assert(occurs(v, evq, i, items[i]) && occurs(v, evq, j, items[i]));
            }
        }
    }
    lemma_without_is_sparse(items, ev);
    assert forall|e: usize| #[trigger]
        linked(w, e) == (linked(v, e) && !(e == ev && items.contains(ev))) by {
        if linked(w, e) {
            let (q, k) = choose|q: int, k: int| #[trigger] occurs(w, q, k, e);
            if q == evq {
                assert(kept.contains(e));
                let j = choose|j: int| 0 <= j < items.len() && items[j] == e;
                assert(occurs(v, evq, j, e));
            } else {
                assert(w.queues[q] == v.queues[q]);
                assert(occurs(v, q, k, e));
                if e == ev && items.contains(ev) {
                    let j = choose|j: int| 0 <= j < items.len() && items[j] == ev;
                    assert(occurs(v, evq, j, ev));
                }
            }
        }
        if linked(v, e) && !(e == ev && items.contains(ev)) {
            let (q, k) = choose|q: int, k: int| #[trigger] occurs(v, q, k, e);
            if q == evq {
                assert(items.contains(e));
                assert(kept.contains(e));
                let j = choose|j: int| 0 <= j < kept.len() && kept[j] == e;
                assert(occurs(w, evq, j, e));
            } else {
                assert(w.queues[q] == v.queues[q]);
                assert(occurs(w, q, k, e));
            }
        }
    }
    assert forall|e: usize| e < w.events.len() implies w.events[e as int].queued == #[trigger] linked(w, e) by {
        if items.contains(ev) {
            let j = choose|j: int| 0 <= j < items.len() && items[j] == ev;
            assert(occurs(v, evq, j, ev));
            assert(v.queues[evq][j] < v.events.len());
        }
    }
    assert forall|e: usize, q1: int, k1: int, q2: int, k2: int|
        #[trigger] occurs(w, q1, k1, e) && #[trigger] occurs(w, q2, k2, e) implies q1 == q2 && k1
        == k2 by {
        if q1 != evq {
            assert(w.queues[q1] == v.queues[q1]);
        }
        if q2 != evq {
            assert(w.queues[q2] == v.queues[q2]);
        }
        if q1 == evq && q2 == evq {
        } else if q1 == evq {
            assert(kept.contains(e));
            let j = choose|j: int| 0 <= j < items.len() && items[j] == e;
            assert(occurs(v, evq, j, e) && occurs(v, q2, k2, e));
        } else if q2 == evq {
            assert(kept.contains(e));
            let j = choose|j: int| 0 <= j < items.len() && items[j] == e;
            assert(occurs(v, evq, j, e) && occurs(v, q1, k1, e));
        } else {
            assert(occurs(v, q1, k1, e) && occurs(v, q2, k2, e));
        }
    }
}

/// Arming or stopping a callout keeps the agreement, and so does its wake
/// unless it is armed while its event is queued.
pub proof fn lemma_callout_keeps_agreement(v: PortView, c: int, now: u64, ticks: u32)
    requires
        v.valid(),
        flags_agree(v),
        0 <= c < v.callouts.len(),
    ensures
        flags_agree(v.arm(c, now, ticks)),
        flags_agree(v.stop(c)),
        !(v.callouts[c].active && v.events[v.callouts[c].event as int].queued) ==> flags_agree(
            v.fire(c),
        ),
{
    lemma_same_queues_agree(v, v.arm(c, now, ticks));
    lemma_same_queues_agree(v, v.stop(c));
    if v.callouts[c].active && !v.events[v.callouts[c].event as int].queued {
        let evq = v.callouts[c].event_queue as int;
        let ev = v.callouts[c].event;
        lemma_put_keeps_agreement(v, evq, ev);
        lemma_same_queues_agree(v.put(evq, ev), v.fire(c));
    }
}

/// The agreement speaks of queues and events only.
proof fn lemma_same_queues_agree(v: PortView, w: PortView)
    requires
        flags_agree(v),
        w.queues == v.queues,
        w.events == v.events,
    ensures
        flags_agree(w),
{
    assert forall|e: usize, q: int, k: int| #[trigger] occurs(w, q, k, e) == occurs(v, q, k, e) by {}
    assert forall|e: usize| e < w.events.len() implies w.events[e as int].queued == #[trigger] linked(w, e) by {
        if linked(v, e) {
            let (q, k) = choose|q: int, k: int| #[trigger] occurs(v, q, k, e);
            assert(occurs(w, q, k, e));
        }
        if linked(w, e) {
            let (q, k) = choose|q: int, k: int| #[trigger] occurs(w, q, k, e);
            assert(occurs(v, q, k, e));
        }
    }
    assert forall|e: usize, q1: int, k1: int, q2: int, k2: int|
        #[trigger] occurs(w, q1, k1, e) && #[trigger] occurs(w, q2, k2, e) implies q1 == q2 && k1
        == k2 by {
        assert(occurs(v, q1, k1, e) && occurs(v, q2, k2, e));
    }
}

} // verus!
