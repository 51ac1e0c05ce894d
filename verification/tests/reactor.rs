use rux::daemon::{Daemon, DaemonCmd, DefaultSigHandler, Reload, SchedOpt, SIGCHLD, SIGHUP, SIGINT, SIGTERM};
use rux::handler::Handler;
use rux::poll::{dispatch_events, EpollCmd, EpollConfig, EpollEvent, EPOLLIN};
use rux::server::{ServerConfig, SockAddr, SockType, IPPROTO_TCP, IPPROTO_UDP, SOCK_NONBLOCK};

struct CountingHandler {
    seen: usize,
    shutdown_after: usize,
}

impl Handler<EpollEvent, EpollCmd> for CountingHandler {
    fn on_next(&mut self, _event: EpollEvent) {
        self.seen += 1;
    }

    fn next(&mut self) -> EpollCmd {
        if self.seen >= self.shutdown_after {
            EpollCmd::Shutdown
        } else {
            EpollCmd::Poll
        }
    }
}

fn batch(n: usize) -> Vec<EpollEvent> {
    (0..n).map(|i| EpollEvent { events: EPOLLIN, data: i as u64 }).collect()
}

#[test]
fn dispatch_stops_batch_at_shutdown() {
    let mut handler = CountingHandler { seen: 0, shutdown_after: 2 };
    let events = batch(5);
    let (delivered, cmd) = dispatch_events(&mut handler, &events);
    assert_eq!(delivered, 2);
    assert_eq!(cmd, EpollCmd::Shutdown);
    assert_eq!(handler.seen, 2);
}

#[test]
fn dispatch_delivers_whole_batch_without_shutdown() {
    let mut handler = CountingHandler { seen: 0, shutdown_after: 100 };
    let events = batch(5);
    let (delivered, cmd) = dispatch_events(&mut handler, &events);
    assert_eq!(delivered, 5);
    assert_eq!(cmd, EpollCmd::Poll);
    assert_eq!(handler.seen, 5);
}

#[test]
fn epoll_config_defaults_block_forever_with_batch_of_256() {
    let config: EpollConfig = Default::default();
    assert_eq!(config.loop_ms, -1);
    assert_eq!(config.buffer_capacity, 256);
}

#[test]
fn default_sig_handler_maps_signals() {
    let mut h = DefaultSigHandler::new();

    h.on_signal(SIGTERM);
    assert_eq!(h.take_cmd(), DaemonCmd::Shutdown);
    assert_eq!(h.take_cmd(), DaemonCmd::Continue);

    h.on_signal(SIGHUP);
    assert_eq!(h.take_cmd(), DaemonCmd::Reload);

    h.on_signal(SIGINT);
    assert_eq!(h.take_cmd(), DaemonCmd::Continue);
}

struct TestProp {
    reloads: usize,
}

impl Reload for TestProp {
    fn reload(&mut self) {
        self.reloads += 1;
    }
}

#[test]
fn daemon_shuts_down_on_sigterm() {
    let mut daemon = Daemon::new(5, DefaultSigHandler::new(), TestProp { reloads: 0 });

    assert!(!daemon.wants(EpollEvent { events: EPOLLIN, data: 4 }));
    assert!(daemon.wants(EpollEvent { events: EPOLLIN, data: 5 }));

    assert_eq!(daemon.next(), EpollCmd::Poll);
    daemon.on_signal(SIGTERM);
    assert_eq!(daemon.next(), EpollCmd::Shutdown);
    assert_eq!(daemon.prop.reloads, 0);

    // A terminating daemon stays terminating, whatever arrives next.
    daemon.on_signal(SIGCHLD);
    assert_eq!(daemon.next(), EpollCmd::Shutdown);
}

#[test]
fn daemon_reloads_on_sighup() {
    let mut daemon = Daemon::new(5, DefaultSigHandler::new(), TestProp { reloads: 0 });

    daemon.on_signal(SIGHUP);
    assert_eq!(daemon.next(), EpollCmd::Poll);
    assert_eq!(daemon.prop.reloads, 1);

    daemon.on_signal(SIGCHLD);
    assert_eq!(daemon.next(), EpollCmd::Poll);
    assert_eq!(daemon.prop.reloads, 1);
}

#[test]
fn daemon_builder_defaults_and_overrides() {
    let builder = Daemon::build(TestProp { reloads: 0 });
    assert_eq!(builder.sig_mask, vec![SIGTERM, SIGHUP]);
    assert!(builder.sched_opt.is_none());

    let builder = builder.with_sig_mask(vec![SIGINT, SIGTERM]).with_sched(1, Some(50));
    assert_eq!(builder.sig_mask, vec![SIGINT, SIGTERM]);
    assert_eq!(builder.sched_opt, Some(SchedOpt { policy: 1, priority: Some(50) }));

    let builder = builder.with_sig_handler(DefaultSigHandler::new());
    assert!(builder.sig_h.next.is_none());
}

#[test]
fn tcp_config_defaults() {
    let addr = SockAddr::V4([127, 0, 0, 1], 0);
    let config = ServerConfig::tcp(addr).unwrap();

    assert_eq!(config.sockaddr, addr);
    assert_eq!(config.socktype, SockType::Stream);
    assert_eq!(config.sockproto, IPPROTO_TCP);
    assert_eq!(config.sockflag, SOCK_NONBLOCK);
    assert!(config.max_conn >= 5000);
    assert!(config.io_threads >= 1);
    assert_eq!(config.epoll_config.loop_ms, -1);
    assert_eq!(config.epoll_config.buffer_capacity, 256);
}

#[test]
fn udp_config_defaults() {
    let addr = SockAddr::V6([0, 0, 0, 0, 0, 0, 0, 1], 53);
    let config = ServerConfig::udp(addr).unwrap();

    assert_eq!(config.socktype, SockType::Datagram);
    assert_eq!(config.sockproto, IPPROTO_UDP);
}

#[test]
fn config_builders_replace_single_fields() {
    let addr = SockAddr::V4([0, 0, 0, 0], 8080);
    let config = ServerConfig::tcp(addr)
        .unwrap()
        .max_conn(16)
        .io_threads(1)
        .sockflag(0)
        .epoll_config(EpollConfig { loop_ms: 10, buffer_capacity: 4 });

    assert_eq!(config.max_conn, 16);
    assert_eq!(config.io_threads, 1);
    assert_eq!(config.sockflag, 0);
    assert_eq!(config.epoll_config.loop_ms, 10);
    assert_eq!(config.epoll_config.buffer_capacity, 4);
    assert_eq!(config.sockaddr, addr);
    assert_eq!(config.sockproto, IPPROTO_TCP);
}

#[test]
fn worker_affinity_wraps_around_cpus() {
    assert_eq!(rux::server::worker_affinity(0, 4), 0);
    assert_eq!(rux::server::worker_affinity(5, 4), 1);
    assert_eq!(rux::server::worker_affinity(3, 1), 0);
}

#[test]
fn default_limits_follow_the_cpu_count() {
    assert_eq!(rux::server::default_limits(1), (5000, 1));
    assert_eq!(rux::server::default_limits(4), (20000, 3));
}
