use rux::action::Action;
use rux::buf::ByteBuffer;
use rux::mux::{AcceptStep, HandlerFactory, MuxCmd, MuxEvent, MuxHandler, MuxStep, SyncMux};
use rux::poll::{EpollEvent, EpollHandler, EPOLLHUP, EPOLLIN};

struct TestHandler {
    fd: i32,
    saw_hup: bool,
}

impl MuxHandler<ByteBuffer> for TestHandler {
    fn on_next(&mut self, event: MuxEvent, resource: &mut ByteBuffer) {
        assert_eq!(event.fd, self.fd);
        resource.write(&[1]).unwrap();
        if event.events & EPOLLHUP != 0 {
            self.saw_hup = true;
        }
    }

    fn next(&mut self) -> MuxCmd {
        if self.saw_hup {
            MuxCmd::Close
        } else {
            MuxCmd::Keep
        }
    }
}

impl EpollHandler for TestHandler {
    fn interests() -> u32 {
        EPOLLIN
    }

    fn with_epfd(&mut self, _epfd: i32) {}
}

#[derive(Clone)]
struct TestFactory;

impl HandlerFactory<TestHandler, ByteBuffer> for TestFactory {
    fn new_handler(&mut self, _epfd: i32, sockfd: i32) -> TestHandler {
        TestHandler { fd: sockfd, saw_hup: false }
    }

    fn new_resource(&self) -> ByteBuffer {
        ByteBuffer::with_capacity(8)
    }
}

fn new_mux(max_conn: usize) -> SyncMux<TestHandler, ByteBuffer, TestFactory> {
    SyncMux::new(max_conn, 3, TestFactory)
}

#[test]
fn listen_event_requests_accept() {
    let mut mux = new_mux(4);
    let srvfd = 7;
    let step = mux.on_next(EpollEvent { events: EPOLLIN, data: srvfd as u64 });
    assert_eq!(step, MuxStep::Accept(srvfd));
}

#[test]
fn accepts_fill_distinct_slots_and_full_table_rejects() {
    let mut mux = new_mux(4);

    let mut slots = Vec::new();
    for fd in 10..14 {
        match mux.on_accepted(fd) {
            AcceptStep::Register(slot, token) => {
                assert!(mux.handlers[slot].is_some());
                if let Action::Notify(s, f) = Action::decode(token) {
                    assert_eq!(s, slot);
                    assert_eq!(f, fd);
                } else {
                    panic!("token does not decode as a Notify action");
                }
                slots.push(slot);
            },
            AcceptStep::Reject => panic!("table rejected an accept before it was full"),
        }
    }

    let mut sorted = slots.clone();
    sorted.sort();
    sorted.dedup();
    assert_eq!(sorted.len(), 4);

    assert_eq!(mux.on_accepted(14), AcceptStep::Reject);
    assert_eq!(mux.handlers.iter().filter(|h| h.is_some()).count(), 4);
}

#[test]
fn close_frees_slot_on_next_dispatch() {
    let mut mux = new_mux(4);

    let (slot, token) = match mux.on_accepted(10) {
        AcceptStep::Register(slot, token) => (slot, token),
        AcceptStep::Reject => panic!("table rejected an accept before it was full"),
    };

    let keep = mux.on_next(EpollEvent { events: EPOLLIN, data: token });
    assert_eq!(keep, MuxStep::Idle);
    assert!(mux.handlers[slot].is_some());

    let close = mux.on_next(EpollEvent { events: EPOLLIN | EPOLLHUP, data: token });
    assert_eq!(close, MuxStep::CloseFd(10));
    assert!(mux.handlers[slot].is_none());
    assert_eq!(mux.resources[slot].readable(), 0);
}

#[test]
fn stale_notify_for_freed_slot_is_noop() {
    let mut mux = new_mux(4);

    let (slot, token) = match mux.on_accepted(10) {
        AcceptStep::Register(slot, token) => (slot, token),
        AcceptStep::Reject => panic!("table rejected an accept before it was full"),
    };

    mux.on_next(EpollEvent { events: EPOLLHUP, data: token });
    assert!(mux.handlers[slot].is_none());

    let stale = mux.on_next(EpollEvent { events: EPOLLIN, data: token });
    assert_eq!(stale, MuxStep::Idle);
    assert!(mux.handlers.iter().all(|h| h.is_none()));
}

#[test]
fn stale_notify_for_out_of_range_slot_is_noop() {
    let mut mux = new_mux(2);
    let token = Action::encode(Action::Notify(7, 10));
    assert_eq!(mux.on_next(EpollEvent { events: EPOLLIN, data: token }), MuxStep::Idle);
}

#[test]
fn register_failure_frees_the_slot() {
    let mut mux = new_mux(1);

    let slot = match mux.on_accepted(10) {
        AcceptStep::Register(slot, _) => slot,
        AcceptStep::Reject => panic!("table rejected an accept before it was full"),
    };
    mux.on_register_failed(slot);
    assert!(mux.handlers[slot].is_none());

    match mux.on_accepted(11) {
        AcceptStep::Register(slot2, _) => assert_eq!(slot2, slot),
        AcceptStep::Reject => panic!("slot was not reclaimed"),
    }
}

#[test]
fn clone_starts_with_a_vacant_table() {
    let mut mux = new_mux(2);
    mux.on_accepted(10);
    mux.on_accepted(11);
    assert_eq!(mux.on_accepted(12), AcceptStep::Reject);

    let mut worker = mux.clone();
    assert!(worker.handlers.iter().all(|h| h.is_none()));
    assert!(matches!(worker.on_accepted(12), AcceptStep::Register(_, _)));
}

#[test]
fn slot_capacity_caps_at_the_token_field() {
    assert_eq!(rux::mux::slot_capacity(100), 100);
    assert_eq!(rux::mux::slot_capacity(65536), 65536);
    assert_eq!(rux::mux::slot_capacity(70000), 65536);
}
