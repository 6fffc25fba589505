//! The tracker, its container and the scoped guard that changes the value.
//!
//! A [`DataTracker`] owns a value. [`DataTracker::add_listener`] registers a
//! listener and hands out the receiving end of its channel.
//! [`DataTracker::as_tracked_mut`] hands out a [`Modifier`], which keeps a copy
//! of the value as it was, gives free access to the live value, and on
//! [`Modifier::release`] compares the two: where they differ, every listener
//! is sent the pair of the old and the new value.
//!
//! The value's type must compare and duplicate lawfully: its `==` is an
//! equivalence, and a clone equals the value it was made from. With a type
//! that does not, a release may report changes that did not happen or miss
//! some that did.
use crate::listener::{views, Listener};
use crate::model::{fanned_out, lemma_fan_out_keeps_distinct, released, TrackerView};
use futures::sync::mpsc::Receiver;
use vstd::prelude::*;
use vstd::std_specs::cmp::PartialEqSpec;

verus! {

/// Holds the tracked value and the listeners to notify when it changes.
///
/// A tracker owns one container, and a guard borrows it. Nothing outside this
/// crate can make one or look into one.
#[verifier::reject_recursive_types(T)]
pub struct Inner<T> {
    value: T,
    tx_map: Vec<Listener<T>>,
    issued: Ghost<nat>,
}

impl<T> View for Inner<T> {
    type V = TrackerView<T>;

    closed spec fn view(&self) -> TrackerView<T> {
        TrackerView { value: self.value, listeners: views(self.tx_map@), issued: self.issued@ }
    }
}

impl<T: Clone + PartialEq> Inner<T> {
    /// Sends a copy of the event `(orig_value, new_value)` to every listener,
    /// in the order of their registration, and drops the listeners whose
    /// receiver is gone. The listeners that stay keep their order.
    ///
    /// A listener whose queue is full holds the call up until its receiver
    /// takes an event out or goes away.
    fn notify_listeners(&mut self, orig_value: T, new_value: T)
        ensures
            final(self)@.value == old(self)@.value,
            final(self)@.issued == old(self)@.issued,
            fanned_out(old(self)@.listeners, final(self)@.listeners, orig_value, new_value),
            old(self)@.wf() ==> final(self)@.wf(),
    {
        let ghost before = self@.listeners;
        let mut orig_map: Vec<Listener<T>> = Vec::new();
        std::mem::swap(&mut self.tx_map, &mut orig_map);
        assert(self@.listeners =~= Seq::empty());
        for listener in it: orig_map.into_iter()
            invariant
                self@.value == old(self)@.value,
                self@.issued == old(self)@.issued,
                views(it.seq()) == before,
                fanned_out(before.take(it.index()), self@.listeners, orig_value, new_value),
        {
            let ghost i = it.index();
            let ghost kept = self@.listeners;
            assert(before.take(i + 1).drop_last() =~= before.take(i));
            assert(before.take(i + 1).last() == listener@);
            match listener.deliver(&orig_value, &new_value) {
                Some(l) => {
                    self.tx_map.push(l);
                    assert(self@.listeners.drop_last() =~= kept);
                },
                None => {},
            }
        }
        proof {
            assert(before.take(before.len() as int) =~= before);
            if old(self)@.wf() {
                lemma_fan_out_keeps_distinct(
                    before,
                    self@.listeners,
                    orig_value,
                    new_value,
                    self@.issued,
                );
            }
        }
    }
}

/// Allow viewing and modifying data owned by a `DataTracker`.
///
/// A guard borrows its tracker for as long as it lives, so a tracker has at
/// most one guard at a time. Create one by calling
/// [`DataTracker::as_tracked_mut`], and end it by calling
/// [`Modifier::release`], which notifies the listeners if the value changed.
/// A guard that is dropped without a release leaves the value as it was set
/// and the listeners unnotified.
///
/// The view of a guard is the tracker as it stands under the guard. What the
/// tracker will be once the guard is gone is `*final(guard.inner_ref)`; the
/// fields are public so that contracts can say so.
#[verifier::reject_recursive_types(T)]
#[must_use]
pub struct Modifier<'a, T> {
    /// The value as it was when the guard was made.
    pub orig_copy: T,
    /// The container of the tracker that the guard was made from.
    pub inner_ref: &'a mut Inner<T>,
}

impl<'a, T> View for Modifier<'a, T> {
    type V = TrackerView<T>;

    closed spec fn view(&self) -> TrackerView<T> {
        (*self.inner_ref)@
    }
}

impl<'a, T: Clone + PartialEq> Modifier<'a, T> {
    /// A guard on `inner`, with a copy of the value as it is now.
    fn new(inner: &'a mut Inner<T>) -> (guard: Modifier<'a, T>)
        ensures
            guard@ == old(inner)@,
            cloned(old(inner)@.value, guard.orig_copy),
            (*final(guard.inner_ref))@ == final(inner)@,
    {
        let orig_copy: T = inner.value.clone();
        Modifier { orig_copy, inner_ref: inner }
    }

    /// The live value, to read and to write. Whatever is written through the
    /// reference is the tracker's value from then on; the listeners and the
    /// copy of the value from before stay as they are.
    pub fn deref_mut(&mut self) -> (value: &mut T)
        ensures
            *value == old(self)@.value,
            final(self)@ == old(self)@.holding(*final(value)),
            final(self).orig_copy == old(self).orig_copy,
            *final(final(self).inner_ref) == *final(old(self).inner_ref),
    {
        &mut self.inner_ref.value
    }

    /// Ends the guard. Compares the value as it was when the guard was made
    /// with the value as it is now. Where they differ, sends the pair of the
    /// two to every listener of the tracker, drops the listeners whose
    /// receiver is gone, and returns `true`. Where they are equal, sends
    /// nothing and returns `false`.
    ///
    /// Only the difference between the two ends counts: a value that was
    /// changed and set back under the guard has not changed.
    ///
    /// A listener whose queue is full holds the call up until its receiver
    /// takes an event out or goes away.
    pub fn release(self) -> (changed: bool)
        ensures
            released(self@, self.orig_copy, changed, (*final(self.inner_ref))@),
            self@.wf() ==> (*final(self.inner_ref))@.wf(),
    {
        let Modifier { orig_copy, inner_ref } = self;
        let changed = orig_copy != inner_ref.value;
        if changed {
            let new_value = inner_ref.value.clone();
            let ghost event = (orig_copy, new_value);
            inner_ref.notify_listeners(orig_copy, new_value);
            assert(fanned_out(self@.listeners, inner_ref@.listeners, event.0, event.1));
        }
        changed
    }
}

impl<'a, T> std::ops::Deref for Modifier<'a, T> {
    type Target = T;

    /// The live value, to read.
    fn deref(&self) -> (value: &T)
        ensures
            *value == self@.value,
    {
        &self.inner_ref.value
    }
}

/// The buffer size that a listener's channel is opened with.
pub const LISTENER_BUFFER: usize = 1;

/// Tracks changes to data and notifies listeners.
///
/// The data to be tracked is type `T`. Subscribe to changes by calling
/// `add_listener`.
#[verifier::reject_recursive_types(T)]
pub struct DataTracker<T> {
    inner: Inner<T>,
}

impl<T> View for DataTracker<T> {
    type V = TrackerView<T>;

    closed spec fn view(&self) -> TrackerView<T> {
        self.inner@
    }
}

impl<T: Clone + PartialEq> DataTracker<T> {
    /// Create a new `DataTracker` which takes ownership of the data of type
    /// `T`. It has no listener yet.
    pub fn new(value: T) -> (tracker: DataTracker<T>)
        ensures
            tracker@ == TrackerView::fresh(value),
            tracker@.wf(),
    {
        let tracker = DataTracker { inner: Inner { value, tx_map: Vec::new(), issued: Ghost(0) } };
        assert(tracker@.listeners =~= Seq::empty());
        tracker
    }

    /// Add a listener that is sent the old and the new value just after each
    /// change of the data.
    ///
    /// Returns the receiving end of the listener's channel. To remove the
    /// listener, drop the receiver: the tracker forgets the listener at the
    /// next change.
    pub fn add_listener(&mut self) -> (rx: Receiver<(T, T)>)
        ensures
            final(self)@ == old(self)@.subscribed(),
            old(self)@.wf() ==> final(self)@.wf(),
    {
        let (tx, rx) = futures::sync::mpsc::channel(LISTENER_BUFFER);
        let listener = Listener::new(tx, Ghost(self.inner.issued@));
        self.inner.tx_map.push(listener);
        self.inner.issued = Ghost(self.inner.issued@ + 1);
        assert(self@.listeners =~= old(self)@.subscribed().listeners);
        rx
    }

    /// Return a `Modifier` which can be used to modify the owned data. The
    /// guard holds a copy of the data as it is now, and the tracker will be
    /// what the guard leaves of it.
    pub fn as_tracked_mut(&mut self) -> (guard: Modifier<'_, T>)
        ensures
            guard@ == old(self)@,
            cloned(old(self)@.value, guard.orig_copy),
            (*final(guard.inner_ref))@ == final(self)@,
    {
        Modifier::new(&mut self.inner)
    }

    /// The data as it is now. Reading changes nothing and notifies nobody.
    pub fn as_ref(&self) -> (value: &T)
        ensures
            *value == self@.value,
    {
        &self.inner.value
    }
}

} // verus!
