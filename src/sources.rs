use vstd::prelude::*;

use crate::sys::Readiness;

verus! {

/// The junction between an event source and its user callback: it turns
/// the readiness of the source into the source's events and hands each of
/// them to the callback, with the data shared by all callbacks.
pub trait EventDispatcher<Data> {
    /// The source has a readiness event.
    fn ready(&mut self, ready: Readiness, data: &mut Data);
}

} // verus!
