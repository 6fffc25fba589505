//! What holds of every tracker whose values have a lawful equality and a
//! faithful duplication, proved from the contracts of the tracker and its
//! guard.
use crate::model::{
    announced, fanned_out, lemma_fan_out_keeps_distinct, lemma_fan_out_traces_back, released,
    took_event, Subscription, TrackerView,
};
use vstd::prelude::*;
use vstd::std_specs::cmp::PartialEqSpec;

verus! {

/// The values of type `T` compare and duplicate as a tracker needs them to:
/// `==` computes the equality that contracts speak of, that equality is
/// reflexive, symmetric and transitive, and a clone equals the value it was
/// made from.
pub open spec fn lawful<T: Clone + PartialEq>() -> bool {
    &&& T::obeys_eq_spec()
    &&& forall|a: T| #[trigger] a.eq_spec(&a)
    &&& forall|a: T, b: T| #[trigger] a.eq_spec(&b) ==> b.eq_spec(&a)
    &&& forall|a: T, b: T, c: T| #[trigger] a.eq_spec(&b) && #[trigger] b.eq_spec(&c) ==> a.eq_spec(&c)
    &&& forall|a: T, b: T| #[trigger] cloned(a, b) ==> a.eq_spec(&b)
}

/// One pass through a guard. The guard is acquired on the tracker `before`
/// and takes the copy `snapshot`; the value is set to `value`; the release
/// reports `changed` and leaves the tracker `after`.
pub open spec fn guarded_change<T: Clone + PartialEq>(
    before: TrackerView<T>,
    snapshot: T,
    value: T,
    changed: bool,
    after: TrackerView<T>,
) -> bool {
    &&& cloned(before.value, snapshot)
    &&& released(before.holding(value), snapshot, changed, after)
}

/// `after` is the subscription `before` once it has received one more event,
/// and that event reads `(old_value, new_value)`.
pub open spec fn received<T: PartialEq>(
    before: Subscription<T>,
    after: Subscription<T>,
    old_value: T,
    new_value: T,
) -> bool {
    &&& after.id == before.id
    &&& after.taken.len() == before.taken.len() + 1
    &&& after.taken.drop_last() == before.taken
    &&& after.taken.last().0.eq_spec(&old_value)
    &&& after.taken.last().1.eq_spec(&new_value)
}

/// `sub` is one of the subscriptions `before` once it has received the event
/// `(old_value, new_value)`, and nothing else.
pub open spec fn served<T: PartialEq>(
    before: Seq<Subscription<T>>,
    sub: Subscription<T>,
    old_value: T,
    new_value: T,
) -> bool {
    exists|i: int| 0 <= i < before.len() && received(#[trigger] before[i], sub, old_value, new_value)
}

/// One of the subscriptions `listeners` is registered under the number `id`.
pub open spec fn registered<T>(listeners: Seq<Subscription<T>>, id: nat) -> bool {
    exists|i: int| 0 <= i < listeners.len() && (#[trigger] listeners[i]).id == id
}

/// A subscription that took one copy of an event has received an event that
/// reads as the change did, whatever copies lay between.
proof fn lemma_took_is_received<T: Clone + PartialEq>(
    before: Subscription<T>,
    after: Subscription<T>,
    event: (T, T),
    snapshot: T,
    old_value: T,
    new_value: T,
)
    requires
        lawful::<T>(),
        took_event(before, after, event.0, event.1),
        cloned(old_value, snapshot),
        cloned(snapshot, event.0),
        cloned(new_value, event.1),
    ensures
        received(before, after, old_value, new_value),
{
    let got = after.taken.last();
    assert(old_value.eq_spec(&snapshot));
    assert(snapshot.eq_spec(&event.0));
    assert(event.0.eq_spec(&got.0));
    assert(old_value.eq_spec(&event.0));
    assert(old_value.eq_spec(&got.0));
    assert(got.0.eq_spec(&old_value));
    assert(new_value.eq_spec(&event.1));
    assert(event.1.eq_spec(&got.1));
    assert(new_value.eq_spec(&got.1));
    assert(got.1.eq_spec(&new_value));
}

/// Where the value changed under a guard, the release reports the change and
/// every subscription that is left has received exactly one event since: the
/// pair of the value from before and the value from after.
pub proof fn law_change_reaches_every_listener<T: Clone + PartialEq>(
    before: TrackerView<T>,
    snapshot: T,
    value: T,
    changed: bool,
    after: TrackerView<T>,
)
    requires
        lawful::<T>(),
        guarded_change(before, snapshot, value, changed, after),
        !before.value.eq_spec(&value),
    ensures
        changed,
        after.value == value,
        after.listeners.len() <= before.listeners.len(),
        forall|j: int|
            0 <= j < after.listeners.len() ==> served(
                before.listeners,
                #[trigger] after.listeners[j],
                before.value,
                value,
            ),
{
    assert(before.value.eq_spec(&snapshot));
    assert(!snapshot.eq_spec(&value));
    let held = before.holding(value);
    assert(announced(held.listeners, after.listeners, snapshot, value));
    let event = choose|event: (T, T)|
        {
            &&& cloned(snapshot, event.0)
            &&& cloned(value, event.1)
            &&& #[trigger] fanned_out(before.listeners, after.listeners, event.0, event.1)
        };
    let src = lemma_fan_out_traces_back(before.listeners, after.listeners, event.0, event.1);
    assert forall|j: int| 0 <= j < after.listeners.len() implies served(
        before.listeners,
        #[trigger] after.listeners[j],
        before.value,
        value,
    ) by {
        lemma_took_is_received(
            before.listeners[src[j]],
            after.listeners[j],
            event,
            snapshot,
            before.value,
            value,
        );
    }
    lemma_ascending_is_short(src, before.listeners.len() as int);
}

/// A sequence of ascending places below `bound` has at most `bound` entries,
/// and none of its places lies below its own index.
proof fn lemma_ascending_is_short(src: Seq<int>, bound: int)
    requires
        forall|j: int| 0 <= j < src.len() ==> 0 <= #[trigger] src[j] < bound,
        forall|j: int, k: int| 0 <= j < k < src.len() ==> #[trigger] src[j] < #[trigger] src[k],
    ensures
        src.len() <= bound || src.len() == 0,
        forall|j: int| 0 <= j < src.len() ==> j <= #[trigger] src[j],
    decreases src.len(),
{
    if src.len() > 0 {
        let rest = src.drop_last();
        lemma_ascending_is_short(rest, bound);
        let n = src.len() - 1;
        if n > 0 {
            assert(rest[n - 1] == src[n - 1]);
            assert(src[n - 1] < src[n]);
        }
        assert forall|j: int| 0 <= j < src.len() implies j <= #[trigger] src[j] by {
            if j < n {
                assert(rest[j] == src[j]);
            }
        }
    }
}

/// Where the value under a guard is the same at the release as it was at the
/// acquisition, the release reports no change and leaves every subscription
/// as it was: no listener receives an event.
pub proof fn law_no_change_is_silent<T: Clone + PartialEq>(
    before: TrackerView<T>,
    snapshot: T,
    value: T,
    changed: bool,
    after: TrackerView<T>,
)
    requires
        lawful::<T>(),
        guarded_change(before, snapshot, value, changed, after),
        before.value.eq_spec(&value),
    ensures
        !changed,
        after == before.holding(value),
{
    assert(before.value.eq_spec(&snapshot));
    assert(snapshot.eq_spec(&before.value));
    assert(snapshot.eq_spec(&value));
}

/// However many times a guard is acquired and released with the value left
/// as it is, the tracker stays as it was: no listener receives an event.
/// `states` holds the tracker before the first pass and after each pass.
pub proof fn law_idle_passes_are_silent<T: Clone + PartialEq>(
    states: Seq<TrackerView<T>>,
    snapshots: Seq<T>,
    changed: Seq<bool>,
)
    requires
        lawful::<T>(),
        states.len() == snapshots.len() + 1,
        changed.len() == snapshots.len(),
        forall|k: int|
            0 <= k < snapshots.len() ==> guarded_change(
                states[k],
                #[trigger] snapshots[k],
                states[k].value,
                changed[k],
                states[k + 1],
            ),
    ensures
        states.last() == states[0],
        forall|k: int| 0 <= k < changed.len() ==> !#[trigger] changed[k],
    decreases snapshots.len(),
{
    if snapshots.len() > 0 {
        let n = snapshots.len() - 1;
        assert forall|k: int| 0 <= k < n implies guarded_change(
            states.drop_last()[k],
            #[trigger] snapshots.drop_last()[k],
            states.drop_last()[k].value,
            changed.drop_last()[k],
            states.drop_last()[k + 1],
        ) by {
            assert(snapshots.drop_last()[k] == snapshots[k]);
        }
        law_idle_passes_are_silent(states.drop_last(), snapshots.drop_last(), changed.drop_last());
        assert(states.drop_last().last() == states[n]);
        assert(states[n].value.eq_spec(&states[n].value));
        assert(guarded_change(states[n], snapshots[n], states[n].value, changed[n], states[n + 1]));
        law_no_change_is_silent(states[n], snapshots[n], states[n].value, changed[n], states[n + 1]);
        assert forall|k: int| 0 <= k < changed.len() implies !#[trigger] changed[k] by {
            if k < n {
                assert(changed.drop_last()[k] == changed[k]);
            }
        }
    }
}

/// Where a change leaves as many subscriptions as there were, each of them
/// has received exactly one event, the pair of the value from before and the
/// value from after, and stands where it stood.
pub proof fn law_fan_out_serves_each_listener<T: Clone + PartialEq>(
    before: TrackerView<T>,
    snapshot: T,
    value: T,
    changed: bool,
    after: TrackerView<T>,
)
    requires
        lawful::<T>(),
        guarded_change(before, snapshot, value, changed, after),
        !before.value.eq_spec(&value),
        after.listeners.len() == before.listeners.len(),
    ensures
        forall|i: int|
            0 <= i < before.listeners.len() ==> received(
                #[trigger] before.listeners[i],
                after.listeners[i],
                before.value,
                value,
            ),
{
    assert(before.value.eq_spec(&snapshot));
    assert(!snapshot.eq_spec(&value));
    let held = before.holding(value);
    assert(announced(held.listeners, after.listeners, snapshot, value));
    let event = choose|event: (T, T)|
        {
            &&& cloned(snapshot, event.0)
            &&& cloned(value, event.1)
            &&& #[trigger] fanned_out(before.listeners, after.listeners, event.0, event.1)
        };
    let src = lemma_fan_out_traces_back(before.listeners, after.listeners, event.0, event.1);
    lemma_ascending_onto_is_identity(src, before.listeners.len() as int);
    assert forall|i: int| 0 <= i < before.listeners.len() implies received(
        #[trigger] before.listeners[i],
        after.listeners[i],
        before.value,
        value,
    ) by {
        assert(src[i] == i);
        lemma_took_is_received(
            before.listeners[i],
            after.listeners[i],
            event,
            snapshot,
            before.value,
            value,
        );
    }
}

/// `bound` ascending places below `bound` are the places 0, 1, 2 and so on.
proof fn lemma_ascending_onto_is_identity(src: Seq<int>, bound: int)
    requires
        src.len() == bound,
        forall|j: int| 0 <= j < src.len() ==> 0 <= #[trigger] src[j] < bound,
        forall|j: int, k: int| 0 <= j < k < src.len() ==> #[trigger] src[j] < #[trigger] src[k],
    ensures
        forall|j: int| 0 <= j < src.len() ==> #[trigger] src[j] == j,
    decreases bound,
{
    if bound > 0 {
        lemma_ascending_is_short(src, bound);
        let n = bound - 1;
        assert(src[n] == n);
        let rest = src.drop_last();
        assert forall|j: int| 0 <= j < rest.len() implies 0 <= #[trigger] rest[j] < n by {
            assert(rest[j] == src[j]);
            assert(src[j] < src[n]);
        }
        assert forall|j: int, k: int| 0 <= j < k < rest.len() implies #[trigger] rest[j]
            < #[trigger] rest[k] by {
            assert(rest[j] == src[j]);
            assert(rest[k] == src[k]);
        }
        lemma_ascending_onto_is_identity(rest, n);
        assert forall|j: int| 0 <= j < src.len() implies #[trigger] src[j] == j by {
            if j < n {
                assert(rest[j] == src[j]);
            }
        }
    }
}

/// A change either serves a subscription or drops it, and serves none twice.
/// Of the subscriptions that a sound tracker had before a change, each one
/// whose number is still registered afterwards has received exactly one
/// event, the pair of the value from before and the value from after; a
/// subscription that was dropped has no entry left that could receive
/// anything; and the tracker that is left is sound.
pub proof fn law_dropped_listener_is_left_out<T: Clone + PartialEq>(
    before: TrackerView<T>,
    snapshot: T,
    value: T,
    changed: bool,
    after: TrackerView<T>,
)
    requires
        lawful::<T>(),
        before.wf(),
        guarded_change(before, snapshot, value, changed, after),
        !before.value.eq_spec(&value),
    ensures
        after.wf(),
        forall|i: int, j: int|
            0 <= i < before.listeners.len() && 0 <= j < after.listeners.len() && (
            #[trigger] after.listeners[j]).id == (#[trigger] before.listeners[i]).id ==> received(
                before.listeners[i],
                after.listeners[j],
                before.value,
                value,
            ),
        forall|j: int|
            0 <= j < after.listeners.len() ==> registered(
                before.listeners,
                (#[trigger] after.listeners[j]).id,
            ),
{
    assert(before.value.eq_spec(&snapshot));
    assert(!snapshot.eq_spec(&value));
    let held = before.holding(value);
    assert(announced(held.listeners, after.listeners, snapshot, value));
    let event = choose|event: (T, T)|
        {
            &&& cloned(snapshot, event.0)
            &&& cloned(value, event.1)
            &&& #[trigger] fanned_out(before.listeners, after.listeners, event.0, event.1)
        };
    let src = lemma_fan_out_traces_back(before.listeners, after.listeners, event.0, event.1);
    lemma_fan_out_keeps_distinct(
        before.listeners,
        after.listeners,
        event.0,
        event.1,
        before.issued,
    );
    assert forall|i: int, j: int|
        0 <= i < before.listeners.len() && 0 <= j < after.listeners.len() && (
        #[trigger] after.listeners[j]).id == (#[trigger] before.listeners[i]).id implies received(
        before.listeners[i],
        after.listeners[j],
        before.value,
        value,
    ) by {
        assert(before.listeners[src[j]].id == after.listeners[j].id);
        assert(src[j] == i);
        lemma_took_is_received(
            before.listeners[i],
            after.listeners[j],
            event,
            snapshot,
            before.value,
            value,
        );
    }
    assert forall|j: int| 0 <= j < after.listeners.len() implies registered(
        before.listeners,
        (#[trigger] after.listeners[j]).id,
    ) by {
        assert(before.listeners[src[j]].id == after.listeners[j].id);
    }
}

} // verus!
