//! The mathematical model that the contracts of this crate speak of.
use vstd::prelude::*;
use vstd::std_specs::cmp::PartialEqSpec;

verus! {

/// One subscription as the contracts see it.
pub struct Subscription<T> {
    /// The number under which the subscription was registered. A tracker
    /// gives each subscription a number that it never uses again.
    pub id: nat,
    /// The change events that the subscription's channel has taken, oldest
    /// first. Each event is a pair of the value before and after a change.
    pub taken: Seq<(T, T)>,
}

impl<T> Subscription<T> {
    /// The subscription registered under `id` before it has taken any event.
    pub open spec fn fresh(id: nat) -> Subscription<T> {
        Subscription { id, taken: Seq::empty() }
    }
}

/// A tracker as the contracts see it.
pub struct TrackerView<T> {
    /// The tracked value.
    pub value: T,
    /// The registered subscriptions, in the order of their registration.
    pub listeners: Seq<Subscription<T>>,
    /// How many subscriptions the tracker has registered so far.
    pub issued: nat,
}

impl<T> TrackerView<T> {
    /// A tracker that holds `value` and has registered no subscription yet.
    pub open spec fn fresh(value: T) -> TrackerView<T> {
        TrackerView { value, listeners: Seq::empty(), issued: 0 }
    }

    /// This tracker once it has registered one more subscription.
    pub open spec fn subscribed(self) -> TrackerView<T> {
        TrackerView {
            value: self.value,
            listeners: self.listeners.push(Subscription::fresh(self.issued)),
            issued: self.issued + 1,
        }
    }

    /// This tracker with `value` in place of its value.
    pub open spec fn holding(self, value: T) -> TrackerView<T> {
        TrackerView { value, listeners: self.listeners, issued: self.issued }
    }

    /// The registry is sound: every subscription was registered under a
    /// number below `issued`, and no two under the same number.
    pub open spec fn wf(self) -> bool {
        distinct_below(self.listeners, self.issued)
    }
}

/// Every subscription in `listeners` was registered under a number below
/// `issued`, and no two of them under the same number.
pub open spec fn distinct_below<T>(listeners: Seq<Subscription<T>>, issued: nat) -> bool {
    &&& forall|i: int| 0 <= i < listeners.len() ==> (#[trigger] listeners[i]).id < issued
    &&& forall|i: int, j: int|
        0 <= i < j < listeners.len() ==> (#[trigger] listeners[i]).id != (#[trigger] listeners[j]).id
}

/// `after` is the subscription `before` once its channel has taken one more
/// event, made of a copy of `old_value` and a copy of `new_value`.
pub open spec fn took_event<T: Clone>(
    before: Subscription<T>,
    after: Subscription<T>,
    old_value: T,
    new_value: T,
) -> bool {
    &&& after.id == before.id
    &&& after.taken.len() == before.taken.len() + 1
    &&& after.taken.drop_last() == before.taken
    &&& cloned(old_value, after.taken.last().0)
    &&& cloned(new_value, after.taken.last().1)
}

/// `after` is what is left of the subscriptions `before` once the event
/// `(old_value, new_value)` has been sent to each of them: every subscription
/// either took one copy of the event and stayed, or was dropped, and those
/// that stayed are in the order they had.
pub open spec fn fanned_out<T: Clone>(
    before: Seq<Subscription<T>>,
    after: Seq<Subscription<T>>,
    old_value: T,
    new_value: T,
) -> bool
    decreases before.len(),
{
    if before.len() == 0 {
        after.len() == 0
    } else {
        ||| fanned_out(before.drop_last(), after, old_value, new_value)
        ||| {
            &&& after.len() > 0
            &&& took_event(before.last(), after.last(), old_value, new_value)
            &&& fanned_out(before.drop_last(), after.drop_last(), old_value, new_value)
        }
    }
}

/// `after` is what is left of the subscriptions `before` once a change from
/// `old_value` to `new_value` has been announced to them: an event was made of
/// a copy of each value, and fanned out.
pub open spec fn announced<T: Clone>(
    before: Seq<Subscription<T>>,
    after: Seq<Subscription<T>>,
    old_value: T,
    new_value: T,
) -> bool {
    exists|event: (T, T)|
        {
            &&& cloned(old_value, event.0)
            &&& cloned(new_value, event.1)
            &&& #[trigger] fanned_out(before, after, event.0, event.1)
        }
}

/// What the release of a guard does to a tracker. The guard held the tracker
/// `held` and the copy `snapshot` of the value from before; `changed` says
/// whether the release found the two values different, and `after` is the
/// tracker it leaves.
///
/// The value stays. Where the values differ, the change is announced to the
/// listeners; where they do not, the listeners stay as they are.
pub open spec fn released<T: Clone + PartialEq>(
    held: TrackerView<T>,
    snapshot: T,
    changed: bool,
    after: TrackerView<T>,
) -> bool {
    &&& T::obeys_eq_spec() ==> changed == !snapshot.eq_spec(&held.value)
    &&& after.value == held.value
    &&& after.issued == held.issued
    &&& if changed {
        announced(held.listeners, after.listeners, snapshot, held.value)
    } else {
        after.listeners == held.listeners
    }
}

/// `src` says, for each subscription left after a fan-out, where it stood
/// before: the places ascend, and each subscription took one copy of the event
/// since.
pub open spec fn traces_back<T: Clone>(
    src: Seq<int>,
    before: Seq<Subscription<T>>,
    after: Seq<Subscription<T>>,
    old_value: T,
    new_value: T,
) -> bool {
    &&& src.len() == after.len()
    &&& forall|j: int|
        0 <= j < after.len() ==> {
            &&& 0 <= #[trigger] src[j] < before.len()
            &&& took_event(before[src[j]], after[j], old_value, new_value)
        }
    &&& forall|j: int, k: int| 0 <= j < k < after.len() ==> #[trigger] src[j] < #[trigger] src[k]
}

/// A fan-out invents nothing and reorders nothing: each subscription that is
/// left stood at some place before, has taken one copy of the event since, and
/// the subscriptions that are left stand in the order they had.
pub proof fn lemma_fan_out_traces_back<T: Clone>(
    before: Seq<Subscription<T>>,
    after: Seq<Subscription<T>>,
    old_value: T,
    new_value: T,
) -> (src: Seq<int>)
    requires
        fanned_out(before, after, old_value, new_value),
    ensures
        traces_back(src, before, after, old_value, new_value),
    decreases before.len(),
{
    if before.len() == 0 {
        Seq::empty()
    } else if fanned_out(before.drop_last(), after, old_value, new_value) {
        lemma_fan_out_traces_back(before.drop_last(), after, old_value, new_value)
    } else {
        let rest = lemma_fan_out_traces_back(
            before.drop_last(),
            after.drop_last(),
            old_value,
            new_value,
        );
        rest.push(before.len() - 1)
    }
}

/// A fan-out keeps the registry sound: the subscriptions that are left still
/// carry distinct numbers below `issued`.
pub proof fn lemma_fan_out_keeps_distinct<T: Clone>(
    before: Seq<Subscription<T>>,
    after: Seq<Subscription<T>>,
    old_value: T,
    new_value: T,
    issued: nat,
)
    requires
        fanned_out(before, after, old_value, new_value),
        distinct_below(before, issued),
    ensures
        distinct_below(after, issued),
{
    let src = lemma_fan_out_traces_back(before, after, old_value, new_value);
    assert forall|j: int| 0 <= j < after.len() implies (#[trigger] after[j]).id < issued by {
        assert(after[j].id == before[src[j]].id);
    }
    assert forall|j: int, k: int| 0 <= j < k < after.len() implies (#[trigger] after[j]).id != (
    #[trigger] after[k]).id by {
        assert(src[j] < src[k]);
        assert(after[j].id == before[src[j]].id);
        assert(after[k].id == before[src[k]].id);
    }
}

} // verus!
