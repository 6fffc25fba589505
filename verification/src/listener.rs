//! One entry of a tracker's listener registry.
use crate::channel::send_and_wait;
use crate::model::{took_event, Subscription};
use futures::sync::mpsc::{SendError, Sender};
use vstd::prelude::*;

verus! {

/// One registered listener: the sending half of its channel, and what the
/// contracts record of the subscription.
#[verifier::reject_recursive_types(T)]
pub(crate) struct Listener<T> {
    tx: Sender<(T, T)>,
    id: Ghost<nat>,
    taken: Ghost<Seq<(T, T)>>,
}

impl<T> View for Listener<T> {
    type V = Subscription<T>;

    closed spec fn view(&self) -> Subscription<T> {
        Subscription { id: self.id@, taken: self.taken@ }
    }
}

/// The subscriptions that the listeners `listeners` stand for.
pub(crate) open spec fn views<T>(listeners: Seq<Listener<T>>) -> Seq<Subscription<T>> {
    listeners.map_values(|l: Listener<T>| l@)
}

impl<T: Clone> Listener<T> {
    /// A listener that sends through `tx` and has taken no event yet.
    pub(crate) fn new(tx: Sender<(T, T)>, id: Ghost<nat>) -> (listener: Listener<T>)
        ensures
            listener@ == Subscription::<T>::fresh(id@),
    {
        Listener { tx, id, taken: Ghost(Seq::empty()) }
    }

    /// What becomes of a listener once its channel has answered the sending
    /// of `event`: it stays, with the event on its record, where the channel
    /// took the event, and it is dropped where the receiver was gone.
    fn after_send(
        id: Ghost<nat>,
        taken: Ghost<Seq<(T, T)>>,
        event: Ghost<(T, T)>,
        outcome: Result<Sender<(T, T)>, SendError<(T, T)>>,
    ) -> (survivor: Option<Listener<T>>)
        ensures
            match outcome {
                Ok(tx) => survivor == Some(
                    (Listener { tx, id, taken: Ghost(taken@.push(event@)) }),
                ),
                Err(_) => survivor is None,
            },
    {
        match outcome {
            Ok(tx) => Some(Listener { tx, id, taken: Ghost(taken@.push(event@)) }),
            Err(_) => None,
        }
    }

    /// Sends a copy of the event `(old_value, new_value)` to this listener.
    /// The listener comes back if its channel took the event.
    pub(crate) fn deliver(self, old_value: &T, new_value: &T) -> (survivor: Option<Listener<T>>)
        ensures
            survivor matches Some(l) ==> took_event(self@, l@, *old_value, *new_value),
    {
        let Listener { tx, id, taken } = self;
        let event = (old_value.clone(), new_value.clone());
        let ghost sent = event;
        let outcome = send_and_wait(tx, event);
        let survivor = Listener::after_send(id, taken, Ghost(sent), outcome);
        assert(survivor matches Some(l) ==> l@.taken.drop_last() =~= self@.taken);
        survivor
    }
}

} // verus!
