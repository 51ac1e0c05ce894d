use vstd::prelude::*;

use crate::action::Action;
use crate::handler::Reset;
use crate::poll::{EpollEvent, EpollHandler, EPOLLEXCLUSIVE, EPOLLIN, EPOLLWAKEUP};

verus! {

/// The command a per-connection handler returns after an event: keep the
/// connection, or close it and free its slot.
#[derive(Clone, Copy, Debug, PartialEq, Eq, Structural)]
pub enum MuxCmd {
    Close,
    Keep,
}

impl Default for MuxCmd {
    fn default() -> (r: MuxCmd)
        ensures
            r is Keep,
    {
        MuxCmd::Keep
    }
}

/// The event handed to a per-connection handler: the client fd and the
/// readiness flags.  The per-slot resource travels alongside, as a
/// separate mutable borrow.
#[derive(Clone, Copy, Debug, PartialEq, Eq, Structural)]
pub struct MuxEvent {
    pub fd: i32,
    pub events: u32,
}

/// A per-connection handler driven by the mux: one `on_next` per event,
/// with exclusive use of the slot's resource for the duration of the
/// call, then one `next` to learn whether the connection stays open.
pub trait MuxHandler<R> {
    fn on_next(&mut self, event: MuxEvent, resource: &mut R);

    fn next(&mut self) -> MuxCmd;
}

/// Creates the per-slot handlers and resources of a mux.
pub trait HandlerFactory<H, R> {
    fn new_handler(&mut self, epfd: i32, sockfd: i32) -> H;

    fn new_resource(&self) -> R;
}

/// What the reactor runtime must do after [`SyncMux::on_next`].
#[derive(Clone, Copy, Debug, PartialEq, Eq, Structural)]
pub enum MuxStep {
    /// Accept one connection on this listening socket, then report the
    /// outcome with [`SyncMux::on_accepted`].
    Accept(i32),
    /// Unregister this fd from the reactor and close it exactly once;
    /// its slot has just been freed.
    CloseFd(i32),
    /// Nothing to do.
    Idle,
}

/// What the reactor runtime must do after [`SyncMux::on_accepted`].
#[derive(Clone, Copy, Debug, PartialEq, Eq, Structural)]
pub enum AcceptStep {
    /// Register the accepted fd with the reactor under this token and
    /// the mux's interests; report a registration failure with
    /// [`SyncMux::on_register_failed`].
    Register(usize, u64),
    /// The slot table is full: close the just-accepted fd.
    Reject,
}

/// How many slots of an occupancy sequence are taken.
pub open spec fn occupied_in(s: Seq<bool>) -> int
    decreases s.len(),
{
    if s.len() == 0 {
        0
    } else {
        occupied_in(s.drop_last()) + if s.last() {
            1int
        } else {
            0int
        }
    }
}

pub proof fn lemma_occupied_in_bounds(s: Seq<bool>)
    ensures
        0 <= occupied_in(s) <= s.len(),
    decreases s.len(),
{
    if s.len() > 0 {
        lemma_occupied_in_bounds(s.drop_last());
    }
}

pub proof fn lemma_occupied_in_update(s: Seq<bool>, i: int, b: bool)
    requires
        0 <= i < s.len(),
    ensures
        occupied_in(s.update(i, b)) == occupied_in(s) - (if s[i] {
            1int
        } else {
            0int
        }) + (if b {
            1int
        } else {
            0int
        }),
    decreases s.len(),
{
    if i == s.len() - 1 {
        assert(s.update(i, b).drop_last() =~= s.drop_last());
    } else {
        assert(s.update(i, b).drop_last() =~= s.drop_last().update(i, b));
        lemma_occupied_in_update(s.drop_last(), i, b);
    }
}

pub proof fn lemma_occupied_in_full(s: Seq<bool>)
    requires
        occupied_in(s) == s.len(),
    ensures
        forall|i: int| 0 <= i < s.len() ==> s[i],
    decreases s.len(),
{
    if s.len() > 0 {
        lemma_occupied_in_bounds(s.drop_last());
        lemma_occupied_in_full(s.drop_last());
        assert forall|i: int| 0 <= i < s.len() implies s[i] by {
            if i < s.len() - 1 {
                assert(s.drop_last()[i]);
            }
        }
    }
}

pub proof fn lemma_occupied_in_all(s: Seq<bool>)
    requires
        forall|i: int| 0 <= i < s.len() ==> s[i],
    ensures
        occupied_in(s) == s.len(),
    decreases s.len(),
{
    if s.len() > 0 {
        lemma_occupied_in_all(s.drop_last());
    }
}

pub proof fn lemma_occupied_in_none(s: Seq<bool>)
    requires
        forall|i: int| 0 <= i < s.len() ==> !s[i],
    ensures
        occupied_in(s) == 0,
    decreases s.len(),
{
    if s.len() > 0 {
        lemma_occupied_in_none(s.drop_last());
    }
}

/// The root handler of one worker reactor.
///
/// It owns a fixed-capacity slot table: each slot is either vacant or
/// holds the handler of one live connection, with a per-slot resource in
/// a parallel table.  Events on the listening socket become accepts;
/// events for a slot are routed to its handler; a handler that answers
/// `Close` has its slot reclaimed at once.
pub struct SyncMux<H, R, P> {
    pub epfd: i32,
    pub handlers: Vec<Option<H>>,
    pub resources: Vec<R>,
    pub factory: P,
    pub interests: u32,
}

impl<H, R, P> SyncMux<H, R, P> {
    /// The slot table and the resource table have the same fixed
    /// capacity, small enough for a slot index to fit the sixteen bits
    /// of a routing token.
    pub open spec fn wf(self) -> bool {
        &&& self.handlers@.len() == self.resources@.len()
        &&& self.handlers@.len() <= 0x10000
    }

    pub open spec fn occupied(self, i: int) -> bool {
        self.handlers@[i] is Some
    }

    /// Which slots are taken, as a sequence of one flag per slot.
    pub open spec fn occupancy(self) -> Seq<bool> {
        Seq::new(self.handlers@.len(), |i: int| self.handlers@[i] is Some)
    }
}

/// The size of a slot table for a requested connection limit: capped
/// so that every index fits the sixteen-bit slot field of a routing
/// token.
pub fn slot_capacity(max_conn: usize) -> (r: usize)
    ensures
        r == (if max_conn <= 0x10000 {
            max_conn as int
        } else {
            0x10000int
        }),
        r <= 0x10000,
{
    if max_conn <= 0x10000 {
        max_conn
    } else {
        0x10000
    }
}

/// Builds `n` vacant slots and `n` fresh resources.
fn fresh_slots<H, R, P: HandlerFactory<H, R>>(factory: &P, n: usize) -> (r: (
    Vec<Option<H>>,
    Vec<R>,
))
    ensures
        r.0@.len() == n,
        r.1@.len() == n,
        forall|i: int| 0 <= i < n ==> r.0@[i] is None,
{
    let mut handlers: Vec<Option<H>> = Vec::new();
    let mut resources: Vec<R> = Vec::new();
    while handlers.len() < n
        invariant
            handlers@.len() <= n,
            resources@.len() == handlers@.len(),
            forall|i: int| 0 <= i < handlers@.len() ==> handlers@[i] is None,
        decreases n - handlers@.len(),
    {
        handlers.push(None);
        resources.push(factory.new_resource());
    }
    (handlers, resources)
}

impl<H, R, P> SyncMux<H, R, P> where
    H: MuxHandler<R> + EpollHandler,
    R: Reset,
    P: HandlerFactory<H, R>,
 {
    pub fn new(max_handlers: usize, epfd: i32, factory: P) -> (r: SyncMux<H, R, P>)
        requires
            max_handlers <= 0x10000,
        ensures
            r.wf(),
            r.epfd == epfd,
            r.handlers@.len() == max_handlers,
            forall|i: int| 0 <= i < max_handlers ==> !r.occupied(i),
            r.factory == factory,
    {
        let interests = H::interests();
        let (handlers, resources) = fresh_slots(&factory, max_handlers);
        SyncMux { epfd, handlers, resources, factory, interests }
    }

    /// The index of the first vacant slot, or the table size when every
    /// slot is taken.
    fn find_vacant(&self) -> (r: usize)
        ensures
            r <= self.handlers@.len(),
            r < self.handlers@.len() ==> !self.occupied(r as int),
            r == self.handlers@.len() ==> forall|j: int|
                0 <= j < self.handlers@.len() ==> self.occupied(j),
    {
        let n = self.handlers.len();
        let mut i: usize = 0;
        while i < n
            invariant
                i <= n,
                n == self.handlers@.len(),
                forall|j: int| 0 <= j < i ==> self.occupied(j),
            decreases n - i,
        {
            if self.handlers[i].is_none() {
                return i;
            }
            i = i + 1;
        }
        n
    }

    /// Routes one kernel event.
    ///
    /// An event on the listening socket asks the runtime to accept; an
    /// event for a vacant slot is stale and changes nothing; an event
    /// for an occupied slot runs that slot's handler on the event and
    /// the slot's resource, and when the handler answers `Close` the
    /// slot is freed, the resource reset, and the runtime asked to
    /// unregister and close the fd.
    pub fn on_next(&mut self, event: EpollEvent) -> (step: MuxStep)
        requires
            old(self).wf(),
        ensures
            final(self).wf(),
            final(self).epfd == old(self).epfd,
            final(self).interests == old(self).interests,
            final(self).handlers@.len() == old(self).handlers@.len(),
            final(self).resources@.len() == old(self).resources@.len(),
            match Action::spec_decode(event.data) {
                Action::New(data) => {
                    &&& final(self).handlers@ == old(self).handlers@
                    &&& final(self).resources@ == old(self).resources@
                    &&& final(self).factory == old(self).factory
                    &&& step == MuxStep::Accept(data as i32)
                },
                Action::Notify(i, fd) => {
                    if i >= old(self).handlers@.len() || !old(self).occupied(i as int) {
                        &&& final(self).handlers@ == old(self).handlers@
                        &&& final(self).resources@ == old(self).resources@
                        &&& final(self).factory == old(self).factory
                        &&& step is Idle
                    } else {
                        &&& (step is Idle || step == MuxStep::CloseFd(fd))
                        &&& (step is Idle ==> final(self).occupied(i as int))
                        &&& (step is CloseFd ==> !final(self).occupied(i as int))
                        &&& forall|j: int|
                            0 <= j < old(self).handlers@.len() && j != i
                                ==> final(self).handlers@[j] == old(self).handlers@[j]
                        &&& forall|j: int|
                            0 <= j < old(self).resources@.len() && j != i
                                ==> final(self).resources@[j] == old(self).resources@[j]
                        &&& final(self).factory == old(self).factory
                    }
                },
            },
    {
        match Action::decode(event.data) {
            Action::New(data) => MuxStep::Accept(data as i32),
            Action::Notify(i, fd) => {
                if i >= self.handlers.len() {
                    return MuxStep::Idle;
                }
                let close: bool;
                let stale: bool;
                {
                    let hopt = &mut self.handlers[i];
                    match hopt {
                        Some(h) => {
                            let resource = &mut self.resources[i];
                            h.on_next(MuxEvent { fd, events: event.events }, resource);
                            stale = false;
                            close = match h.next() {
                                MuxCmd::Close => true,
                                MuxCmd::Keep => false,
                            };
                        },
                        None => {
                            stale = true;
                            close = false;
                        },
                    }
                }
                if stale {
                    assert(self.handlers@ =~= old(self).handlers@);
                    assert(self.resources@ =~= old(self).resources@);
                    return MuxStep::Idle;
                }
                if close {
                    self.handlers[i] = None;
                    let resource = &mut self.resources[i];
                    resource.reset();
                    MuxStep::CloseFd(fd)
                } else {
                    MuxStep::Idle
                }
            },
        }
    }

    /// Takes a slot for a just-accepted connection.
    ///
    /// When a vacant slot exists, a fresh handler is built and installed
    /// there and the runtime is told under which token to register the
    /// fd; exactly one more slot is occupied afterwards.  When the table
    /// is full — and only then — the accept is rejected and the table is
    /// left unchanged.
    pub fn on_accepted(&mut self, clifd: i32) -> (step: AcceptStep)
        requires
            old(self).wf(),
            0 <= clifd < 0x8000_0000,
        ensures
            final(self).wf(),
            final(self).epfd == old(self).epfd,
            final(self).interests == old(self).interests,
            final(self).handlers@.len() == old(self).handlers@.len(),
            final(self).resources@ == old(self).resources@,
            step is Reject <==> occupied_in(old(self).occupancy()) == old(self).handlers@.len(),
            step is Reject ==> final(self).handlers@ == old(self).handlers@ && final(self).factory
                == old(self).factory,
            step matches AcceptStep::Register(slot, token) ==> {
                &&& 0 <= (slot as int) < old(self).handlers@.len()
                &&& !old(self).occupied(slot as int)
                &&& final(self).occupied(slot as int)
                &&& forall|j: int|
                    0 <= j < old(self).handlers@.len() && j != slot
                        ==> final(self).handlers@[j] == old(self).handlers@[j]
                &&& token == Action::Notify(slot, clifd).spec_encode()
                &&& final(self).occupancy() == old(self).occupancy().update(slot as int, true)
                &&& occupied_in(final(self).occupancy()) == occupied_in(old(self).occupancy()) + 1
            },
    {
        let n = self.handlers.len();
        let slot = self.find_vacant();
        if slot == n {
            proof {
                assert forall|j: int| 0 <= j < self.occupancy().len() implies self.occupancy()[j] by {
                    assert(self.occupied(j));
                }
                lemma_occupied_in_all(self.occupancy());
            }
            AcceptStep::Reject
        } else {
            proof {
                if occupied_in(self.occupancy()) == self.handlers@.len() {
                    lemma_occupied_in_full(self.occupancy());
                }
            }
            let h = self.factory.new_handler(self.epfd, clifd);
            let token = Action::encode(Action::Notify(slot, clifd));
            self.handlers[slot] = Some(h);
            proof {
                assert(final(self).occupancy() =~= old(self).occupancy().update(slot as int, true));
                lemma_occupied_in_update(old(self).occupancy(), slot as int, true);
            }
            AcceptStep::Register(slot, token)
        }
    }

    /// Reclaims the slot of a connection whose registration with the
    /// reactor failed; the runtime closes the fd.
    pub fn on_register_failed(&mut self, slot: usize)
        requires
            old(self).wf(),
            slot < old(self).handlers@.len(),
        ensures
            final(self).wf(),
            final(self).epfd == old(self).epfd,
            final(self).interests == old(self).interests,
            final(self).handlers@.len() == old(self).handlers@.len(),
            final(self).resources@.len() == old(self).resources@.len(),
            final(self).factory == old(self).factory,
            !final(self).occupied(slot as int),
            forall|j: int|
                0 <= j < old(self).handlers@.len() && j != slot ==> final(self).handlers@[j] == old(
                    self,
                ).handlers@[j],
            forall|j: int|
                0 <= j < old(self).resources@.len() && j != slot ==> final(self).resources@[j]
                    == old(self).resources@[j],
    {
        self.handlers[slot] = None;
        let resource = &mut self.resources[slot];
        resource.reset();
    }
}

/// As a root handler, a mux is registered on the listening socket with
/// exclusive wakeups, so that the kernel wakes one worker per pending
/// connection, and with the wakeup flag that keeps the system awake
/// while connections are pending.
impl<H, R, P> EpollHandler for SyncMux<H, R, P> {
    fn interests() -> u32 {
        EPOLLIN | EPOLLEXCLUSIVE | EPOLLWAKEUP
    }

    fn with_epfd(&mut self, epfd: i32) {
        self.epfd = epfd;
    }
}

impl<H, R, P> Clone for SyncMux<H, R, P> where
    H: MuxHandler<R> + EpollHandler,
    R: Reset,
    P: HandlerFactory<H, R> + Clone,
 {
    /// A worker's copy: the same factory and interests, but a fresh,
    /// fully vacant slot table of the same capacity.
    fn clone(&self) -> (r: Self)
        ensures
            r.handlers@.len() == self.handlers@.len(),
            r.resources@.len() == self.handlers@.len(),
            forall|i: int| 0 <= i < r.handlers@.len() ==> !r.occupied(i),
            r.epfd == self.epfd,
            r.interests == self.interests,
            self.wf() ==> r.wf(),
    {
        let n = self.handlers.len();
        let factory = self.factory.clone();
        let (handlers, resources) = fresh_slots(&factory, n);
        SyncMux { epfd: self.epfd, handlers, resources, factory, interests: self.interests }
    }
}

/// One accept on a slot table, seen on its occupancy alone: some vacant
/// slot becomes occupied, as [`SyncMux::on_accepted`] ensures.
pub open spec fn accept_step(pre: Seq<bool>, post: Seq<bool>, slot: int) -> bool {
    &&& 0 <= slot < pre.len()
    &&& !pre[slot]
    &&& post == pre.update(slot, true)
}

/// All tables along a chain of accepts have the same size.
proof fn lemma_trace_lengths(states: Seq<Seq<bool>>, slots: Seq<int>, k: int)
    requires
        states.len() == slots.len() + 1,
        forall|t: int| 0 <= t < slots.len() ==> accept_step(states[t], states[t + 1], slots[t]),
        0 <= k <= slots.len(),
    ensures
        states[k].len() == states[0].len(),
    decreases k,
{
    if k > 0 {
        lemma_trace_lengths(states, slots, k - 1);
        assert(accept_step(states[k - 1], states[k], slots[k - 1]));
    }
}

/// A slot taken at step `j` of a chain of accepts is still taken at
/// every later point `k` of the chain.
proof fn lemma_occupied_persists(states: Seq<Seq<bool>>, slots: Seq<int>, j: int, k: int)
    requires
        states.len() == slots.len() + 1,
        forall|t: int| 0 <= t < slots.len() ==> accept_step(states[t], states[t + 1], slots[t]),
        0 <= j < slots.len(),
        j < k <= slots.len(),
    ensures
        states[k][slots[j]],
    decreases k,
{
    assert(accept_step(states[j], states[j + 1], slots[j]));
    if k == j + 1 {
        assert(states[k] == states[j].update(slots[j], true));
    } else {
        lemma_occupied_persists(states, slots, j, k - 1);
        lemma_trace_lengths(states, slots, j);
        lemma_trace_lengths(states, slots, k - 1);
        assert(accept_step(states[k - 1], states[k], slots[k - 1]));
        assert(states[k] == states[k - 1].update(slots[k - 1], true));
    }
}

/// After the first `k` accepts of a chain that starts from an empty
/// table, exactly `k` slots are taken.
proof fn lemma_count_after_accepts(states: Seq<Seq<bool>>, slots: Seq<int>, k: int)
    requires
        states.len() == slots.len() + 1,
        forall|i: int| 0 <= i < states[0].len() ==> !states[0][i],
        forall|t: int| 0 <= t < slots.len() ==> accept_step(states[t], states[t + 1], slots[t]),
        0 <= k <= slots.len(),
    ensures
        occupied_in(states[k]) == k,
    decreases k,
{
    if k == 0 {
        lemma_occupied_in_none(states[0]);
    } else {
        lemma_count_after_accepts(states, slots, k - 1);
        assert(accept_step(states[k - 1], states[k], slots[k - 1]));
        lemma_occupied_in_update(states[k - 1], slots[k - 1], true);
    }
}

/// Law: starting from an empty table, a chain of accepts — each taking a
/// vacant slot, as [`SyncMux::on_accepted`] ensures — takes pairwise
/// distinct slots, and after `k` of them exactly `k` slots are occupied.
pub proof fn lemma_accepts_fill_distinct_slots(states: Seq<Seq<bool>>, slots: Seq<int>)
    requires
        states.len() == slots.len() + 1,
        forall|i: int| 0 <= i < states[0].len() ==> !states[0][i],
        forall|k: int| 0 <= k < slots.len() ==> accept_step(states[k], states[k + 1], slots[k]),
    ensures
        forall|k1: int, k2: int| 0 <= k1 < k2 < slots.len() ==> slots[k1] != slots[k2],
        occupied_in(states.last()) == slots.len(),
{
    let n = slots.len() as int;
    assert forall|k1: int, k2: int| 0 <= k1 < k2 < n implies slots[k1] != slots[k2] by {
        lemma_occupied_persists(states, slots, k1, k2);
        assert(accept_step(states[k2], states[k2 + 1], slots[k2]));
    }
    lemma_count_after_accepts(states, slots, n);
    assert(states.last() == states[n]);
}

} // verus!
