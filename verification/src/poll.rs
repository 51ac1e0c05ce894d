use vstd::prelude::*;

use crate::handler::Handler;

verus! {

// The epoll event flag bits, as the kernel defines them.
pub const EPOLLIN: u32 = 0x001;
pub const EPOLLPRI: u32 = 0x002;
pub const EPOLLOUT: u32 = 0x004;
pub const EPOLLERR: u32 = 0x008;
pub const EPOLLHUP: u32 = 0x010;
pub const EPOLLRDHUP: u32 = 0x2000;
pub const EPOLLEXCLUSIVE: u32 = 0x10000000;
pub const EPOLLWAKEUP: u32 = 0x20000000;
pub const EPOLLONESHOT: u32 = 0x40000000;
pub const EPOLLET: u32 = 0x80000000;

/// One readiness notification: a set of event flag bits together with
/// the 64-bit user data that was registered for the file descriptor.
#[derive(Clone, Copy, Debug, PartialEq, Eq, Structural)]
pub struct EpollEvent {
    pub events: u32,
    pub data: u64,
}

/// What a root handler asks of its reactor after an event: keep polling,
/// or shut the event loop down.
#[derive(Clone, Copy, Debug, PartialEq, Eq, Structural)]
pub enum EpollCmd {
    Shutdown,
    Poll,
}

/// Configuration of one reactor: the wait timeout in milliseconds, where
/// a negative value blocks until an event arrives, and the size of the
/// per-wake event batch.
#[derive(Clone, Copy, Debug, PartialEq, Eq, Structural)]
pub struct EpollConfig {
    pub loop_ms: isize,
    pub buffer_capacity: usize,
}

impl Default for EpollConfig {
    fn default() -> (r: EpollConfig)
        ensures
            r.loop_ms == -1,
            r.buffer_capacity == 256,
    {
        EpollConfig { loop_ms: -1, buffer_capacity: 256 }
    }
}

/// A root handler declares the epoll interests it is to be registered
/// with, and can be rebound to a fresh epoll fd when it is cloned for
/// another worker.
pub trait EpollHandler {
    fn interests() -> u32;

    fn with_epfd(&mut self, epfd: i32);
}

/// Delivers a batch of events to the root handler in order, one
/// `on_next` and one `next` per event, and stops at the first event
/// after which the handler asks to shut down.
///
/// Returns how many events were delivered together with the final
/// command: on `Shutdown` the events after the one that triggered it are
/// not delivered, on `Poll` the whole batch was.
pub fn dispatch_events<H: Handler<EpollEvent, EpollCmd>>(
    handler: &mut H,
    events: &[EpollEvent],
) -> (r: (usize, EpollCmd))
    ensures
        r.0 <= events@.len(),
        r.1 is Poll ==> r.0 == events@.len(),
        r.1 is Shutdown ==> 1 <= r.0 <= events@.len(),
{
    let mut i: usize = 0;
    while i < events.len()
        invariant
            i <= events@.len(),
        decreases events@.len() - i,
    {
        let ev = events[i];
        handler.on_next(ev);
        i = i + 1;
        match handler.next() {
            EpollCmd::Shutdown => {
                return (i, EpollCmd::Shutdown);
            },
            EpollCmd::Poll => {},
        }
    }
    (i, EpollCmd::Poll)
}

} // verus!
