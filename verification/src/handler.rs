use vstd::prelude::*;

verus! {

/// A handler is a state machine fed one event at a time.
///
/// `on_next` consumes one event and updates the internal state; it must
/// not block.  `next` reports the handler's pending lifecycle command,
/// when it has one cached.
pub trait Handler<In, Out> {
    fn on_next(&mut self, event: In);

    fn next(&mut self) -> Out;
}

/// Per-slot state that can be returned to its fresh state when a slot is
/// reclaimed and later reused.
pub trait Reset {
    fn reset(&mut self);
}

} // verus!
