use vstd::prelude::*;

use crate::error::ErrorKind;
use crate::poll::EpollConfig;

verus! {

/// Socket type of the listener.
#[derive(Clone, Copy, Debug, PartialEq, Eq, Structural)]
pub enum SockType {
    Stream,
    Datagram,
}

#[derive(Clone, Copy, Debug, PartialEq, Eq, Structural)]
pub enum AddressFamily {
    Inet,
    Inet6,
}

/// A bind address held as plain values: the address bytes or groups and
/// the port.
#[derive(Clone, Copy, Debug, PartialEq, Eq)]
pub enum SockAddr {
    V4([u8; 4], u16),
    V6([u16; 8], u16),
}

impl SockAddr {
    pub open spec fn spec_family(self) -> AddressFamily {
        match self {
            SockAddr::V4(_, _) => AddressFamily::Inet,
            SockAddr::V6(_, _) => AddressFamily::Inet6,
        }
    }

    pub fn family(&self) -> (r: AddressFamily)
        ensures
            r == self.spec_family(),
    {
        match self {
            SockAddr::V4(_, _) => AddressFamily::Inet,
            SockAddr::V6(_, _) => AddressFamily::Inet6,
        }
    }
}

// Protocol numbers and the non-blocking creation flag, as Linux defines
// them.
pub const IPPROTO_TCP: i32 = 6;
pub const IPPROTO_UDP: i32 = 17;
pub const SOCK_NONBLOCK: i32 = 0o4000;

/// Everything the server bootstrap needs to know: where to bind, what
/// kind of socket to listen on, how many worker reactors to run, and
/// how large each worker's slot table is.
#[derive(Clone, Copy, Debug, PartialEq, Eq)]
pub struct ServerConfig {
    pub sockaddr: SockAddr,
    pub socktype: SockType,
    pub family: AddressFamily,
    pub sockflag: i32,
    pub sockproto: i32,
    pub max_conn: usize,
    pub io_threads: usize,
    pub epoll_config: EpollConfig,
}

/// Relies on num_cpus::get: the number of CPUs available to this
/// process, at least one.
#[verifier::external_body]
fn cpu_count() -> (r: usize)
    ensures
        1 <= r,
{
    num_cpus::get()
}

/// The default slot count for a machine with `cpus` CPUs: five
/// thousand per CPU, saturating at the machine word.
pub open spec fn spec_default_max_conn(cpus: usize) -> int {
    if cpus <= usize::MAX / 5000 {
        5000 * cpus
    } else {
        usize::MAX as int
    }
}

/// The default worker count for a machine with `cpus` CPUs: one per CPU
/// beyond the first, at least one.
pub open spec fn spec_default_io_threads(cpus: usize) -> int {
    if cpus > 1 {
        cpus - 1
    } else {
        1
    }
}

/// The machine-derived limits from a drawn CPU count: the default slot
/// count and the default worker count.
pub fn default_limits(cpus: usize) -> (r: (usize, usize))
    requires
        1 <= cpus,
    ensures
        r.0 == spec_default_max_conn(cpus),
        r.1 == spec_default_io_threads(cpus),
        r.0 >= 5000,
        r.1 >= 1,
{
    let max_conn = if cpus <= usize::MAX / 5000 {
        5000 * cpus
    } else {
        usize::MAX
    };
    let io_threads = if cpus > 1 {
        cpus - 1
    } else {
        1
    };
    (max_conn, io_threads)
}

impl ServerConfig {
    /// The machine-derived defaults: five thousand slots per CPU and one
    /// worker per CPU beyond the first, at least one.
    pub fn new(
        sockaddr: SockAddr,
        socktype: SockType,
        family: AddressFamily,
        sockflag: i32,
        sockproto: i32,
    ) -> (r: Result<ServerConfig, ErrorKind>)
        ensures
            r matches Ok(c) && {
                &&& c.sockaddr == sockaddr
                &&& c.socktype == socktype
                &&& c.family == family
                &&& c.sockflag == sockflag
                &&& c.sockproto == sockproto
                &&& c.max_conn >= 5000
                &&& c.io_threads >= 1
                &&& c.epoll_config.loop_ms == -1
                &&& c.epoll_config.buffer_capacity == 256
                &&& (exists|cpus: usize|
                    1 <= cpus && c.max_conn == #[trigger] spec_default_max_conn(cpus)
                        && c.io_threads == spec_default_io_threads(cpus))
            },
    {
        let cpus = cpu_count();
        let (max_conn, io_threads) = default_limits(cpus);
        Ok(
            ServerConfig {
                sockaddr,
                socktype,
                family,
                sockflag,
                sockproto,
                max_conn,
                io_threads,
                epoll_config: Default::default(),
            },
        )
    }

    /// A TCP listener at `addr`: a non-blocking stream socket of the
    /// address's family, with the machine-derived defaults.
    pub fn tcp(addr: SockAddr) -> (r: Result<ServerConfig, ErrorKind>)
        ensures
            r matches Ok(c) && {
                &&& c.sockaddr == addr
                &&& c.socktype is Stream
                &&& c.family == addr.spec_family()
                &&& c.sockflag == SOCK_NONBLOCK
                &&& c.sockproto == IPPROTO_TCP
                &&& c.max_conn >= 5000
                &&& c.io_threads >= 1
                &&& (exists|cpus: usize|
                    1 <= cpus && c.max_conn == #[trigger] spec_default_max_conn(cpus)
                        && c.io_threads == spec_default_io_threads(cpus))
            },
    {
        let family = addr.family();
        ServerConfig::new(addr, SockType::Stream, family, SOCK_NONBLOCK, IPPROTO_TCP)
    }

    /// A UDP listener at `addr`: a non-blocking datagram socket of the
    /// address's family, with the machine-derived defaults.
    pub fn udp(addr: SockAddr) -> (r: Result<ServerConfig, ErrorKind>)
        ensures
            r matches Ok(c) && {
                &&& c.sockaddr == addr
                &&& c.socktype is Datagram
                &&& c.family == addr.spec_family()
                &&& c.sockflag == SOCK_NONBLOCK
                &&& c.sockproto == IPPROTO_UDP
                &&& c.max_conn >= 5000
                &&& c.io_threads >= 1
                &&& (exists|cpus: usize|
                    1 <= cpus && c.max_conn == #[trigger] spec_default_max_conn(cpus)
                        && c.io_threads == spec_default_io_threads(cpus))
            },
    {
        let family = addr.family();
        ServerConfig::new(addr, SockType::Datagram, family, SOCK_NONBLOCK, IPPROTO_UDP)
    }

    pub fn max_conn(self, max_conn: usize) -> (r: ServerConfig)
        ensures
            r == (ServerConfig { max_conn, ..self }),
    {
        ServerConfig { max_conn, ..self }
    }

    pub fn sockflag(self, sockflag: i32) -> (r: ServerConfig)
        ensures
            r == (ServerConfig { sockflag, ..self }),
    {
        ServerConfig { sockflag, ..self }
    }

    pub fn io_threads(self, io_threads: usize) -> (r: ServerConfig)
        requires
            io_threads > 0,
        ensures
            r == (ServerConfig { io_threads, ..self }),
    {
        ServerConfig { io_threads, ..self }
    }

    pub fn epoll_config(self, epoll_config: EpollConfig) -> (r: ServerConfig)
        ensures
            r == (ServerConfig { epoll_config, ..self }),
    {
        ServerConfig { epoll_config, ..self }
    }
}

/// The CPU a worker is pinned to: workers wrap around the available
/// CPUs.
pub fn worker_affinity(worker: usize, ncpus: usize) -> (r: usize)
    requires
        ncpus >= 1,
    ensures
        r == worker % ncpus,
        r < ncpus,
{
    worker % ncpus
}

} // verus!
