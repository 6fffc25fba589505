//! Track changes to data and notify listeners.
//!
//! The main API feature is the [`DataTracker`] struct, which takes ownership
//! of a value. To listen for changes, call [`DataTracker::add_listener`],
//! which returns the receiving end of a channel of the `futures` crate. The
//! channel is sent the previous and the new value just after each change.
//!
//! To change the value, call [`DataTracker::as_tracked_mut`], which returns a
//! [`Modifier`]: a scoped guard that keeps a copy of the value as it was and
//! gives access to the live value. [`Modifier::release`] ends the guard and
//! compares the two; if they differ, it notifies the listeners.
//! [`DataTracker::as_ref`] returns a reference to the value for cases when
//! only read-only access is needed.
//!
//! The contracts speak of a tracker through the model in [`model`], and
//! [`laws`] proves from them what holds of every tracker.
pub mod channel;
pub mod laws;
mod listener;
pub mod model;
pub mod tracker;

pub use tracker::{DataTracker, Modifier};
