use vstd::prelude::*;

use crate::handler::Handler;
use crate::poll::{EpollCmd, EpollEvent};

verus! {

// The signal numbers the daemon deals in, as Linux defines them.
pub const SIGHUP: i32 = 1;
pub const SIGINT: i32 = 2;
pub const SIGTERM: i32 = 15;
pub const SIGCHLD: i32 = 17;

/// The lifecycle command derived from one delivered signal.
#[derive(Clone, Copy, Debug, PartialEq, Eq, Structural)]
pub enum DaemonCmd {
    Shutdown,
    Reload,
    Continue,
}

/// Application state that can be asked to re-read its configuration on a
/// reload command.
pub trait Reload {
    fn reload(&mut self);
}

/// Scheduling policy and priority the daemon may apply to itself at
/// start-up; a missing priority means the policy's maximum.
#[derive(Clone, Copy, Debug, PartialEq, Eq, Structural)]
pub struct SchedOpt {
    pub policy: i32,
    pub priority: Option<i32>,
}

/// The default signal policy: a termination signal asks for shutdown, a
/// hangup for a reload, and any other signal is ignored.
pub struct DefaultSigHandler {
    pub next: Option<DaemonCmd>,
}

impl DefaultSigHandler {
    /// The command one signal maps to under the default policy.
    pub open spec fn cmd_for(sig: i32) -> DaemonCmd {
        if sig == SIGHUP {
            DaemonCmd::Reload
        } else if sig == SIGTERM {
            DaemonCmd::Shutdown
        } else {
            DaemonCmd::Continue
        }
    }

    pub fn new() -> (r: DefaultSigHandler)
        ensures
            r.next is None,
    {
        DefaultSigHandler { next: None }
    }

    /// Records the command for one delivered signal.
    pub fn on_signal(&mut self, sig: i32)
        ensures
            final(self).next == Some(DefaultSigHandler::cmd_for(sig)),
    {
        if sig == SIGHUP {
            self.next = Some(DaemonCmd::Reload);
        } else if sig == SIGTERM {
            self.next = Some(DaemonCmd::Shutdown);
        } else {
            self.next = Some(DaemonCmd::Continue);
        }
    }

    /// Hands out the pending command, clearing it; without one, the
    /// answer is to continue.
    pub fn take_cmd(&mut self) -> (r: DaemonCmd)
        ensures
            final(self).next is None,
            r == match old(self).next {
                Some(cmd) => cmd,
                None => DaemonCmd::Continue,
            },
    {
        match self.next.take() {
            Some(cmd) => cmd,
            None => DaemonCmd::Continue,
        }
    }
}

impl Handler<i32, DaemonCmd> for DefaultSigHandler {
    fn on_next(&mut self, sig: i32) {
        self.on_signal(sig);
    }

    fn next(&mut self) -> DaemonCmd {
        self.take_cmd()
    }
}

/// The decision core of the auxiliary signal loop.
///
/// The runtime owns the signalfd and the epoll instance; this type
/// decides which events belong to the signalfd, turns each signal into
/// a lifecycle command through the signal handler, applies the command,
/// and reports shutdown to the reactor once a shutdown command was seen.
pub struct Daemon<S, P> {
    pub sigfd: i32,
    pub sig_h: S,
    pub prop: P,
    pub terminating: bool,
}

impl<S, P> Daemon<S, P> where S: Handler<i32, DaemonCmd>, P: Reload {
    pub fn new(sigfd: i32, sig_h: S, prop: P) -> (r: Daemon<S, P>)
        ensures
            r.sigfd == sigfd,
            r.sig_h == sig_h,
            r.prop == prop,
            !r.terminating,
    {
        Daemon { sigfd, sig_h, prop, terminating: false }
    }

    /// Whether a readiness event belongs to the daemon's signalfd.
    pub fn wants(&self, ev: EpollEvent) -> (r: bool)
        requires
            self.sigfd >= 0,
        ensures
            r == (ev.data == self.sigfd as u64),
    {
        ev.data == self.sigfd as u64
    }

    /// Applies one lifecycle command: shutdown marks the daemon as
    /// terminating, reload forwards to the application, continue does
    /// nothing.  A terminating daemon never becomes live again.
    pub fn apply_cmd(&mut self, cmd: DaemonCmd)
        ensures
            final(self).sigfd == old(self).sigfd,
            final(self).sig_h == old(self).sig_h,
            final(self).terminating == (old(self).terminating || cmd is Shutdown),
            !(cmd is Reload) ==> final(self).prop == old(self).prop,
    {
        match cmd {
            DaemonCmd::Reload => self.prop.reload(),
            DaemonCmd::Shutdown => self.terminating = true,
            DaemonCmd::Continue => {},
        }
    }

    /// Feeds one signal read from the signalfd through the signal
    /// handler and applies whatever command it returns.  Whatever that
    /// is, a daemon already terminating stays terminating.
    pub fn on_signal(&mut self, sig: i32)
        ensures
            final(self).sigfd == old(self).sigfd,
            old(self).terminating ==> final(self).terminating,
    {
        self.sig_h.on_next(sig);
        let cmd = self.sig_h.next();
        self.apply_cmd(cmd);
    }

    /// The command for the reactor: shut down exactly when a shutdown
    /// signal has been seen.
    pub fn next(&mut self) -> (r: EpollCmd)
        ensures
            *final(self) == *old(self),
            r is Shutdown <==> old(self).terminating,
    {
        if self.terminating {
            EpollCmd::Shutdown
        } else {
            EpollCmd::Poll
        }
    }
}

/// Gathers what the daemon runtime needs before it starts: the
/// application, the signal handler, the signal mask, and an optional
/// scheduling request.
pub struct DaemonBuilder<S, P> {
    pub prop: P,
    pub sig_h: S,
    pub sig_mask: Vec<i32>,
    pub sched_opt: Option<SchedOpt>,
}

impl<S, P> DaemonBuilder<S, P> where S: Handler<i32, DaemonCmd>, P: Reload {
    pub fn with_sig_handler(self, handler: S) -> (r: DaemonBuilder<S, P>)
        ensures
            r.sig_h == handler,
            r.prop == self.prop,
            r.sig_mask == self.sig_mask,
            r.sched_opt == self.sched_opt,
    {
        DaemonBuilder { sig_h: handler, ..self }
    }

    pub fn with_sig_mask(self, mask: Vec<i32>) -> (r: DaemonBuilder<S, P>)
        ensures
            r.sig_mask == mask,
            r.prop == self.prop,
            r.sig_h == self.sig_h,
            r.sched_opt == self.sched_opt,
    {
        DaemonBuilder { sig_mask: mask, ..self }
    }

    pub fn with_sched(self, policy: i32, priority: Option<i32>) -> (r: DaemonBuilder<S, P>)
        ensures
            r.sched_opt == Some(SchedOpt { policy, priority }),
            r.prop == self.prop,
            r.sig_h == self.sig_h,
            r.sig_mask == self.sig_mask,
    {
        DaemonBuilder { sched_opt: Some(SchedOpt { policy, priority }), ..self }
    }
}

impl<P> Daemon<DefaultSigHandler, P> where P: Reload {
    /// A builder with the default signal policy and the default mask of
    /// termination and hangup.
    pub fn build(prop: P) -> (r: DaemonBuilder<DefaultSigHandler, P>)
        ensures
            r.prop == prop,
            r.sig_h.next is None,
            r.sig_mask@ == seq![SIGTERM, SIGHUP],
            r.sched_opt is None,
    {
        let mut mask: Vec<i32> = Vec::new();
        mask.push(SIGTERM);
        mask.push(SIGHUP);
        assert(mask@ =~= seq![SIGTERM, SIGHUP]);
        DaemonBuilder {
            sig_mask: mask,
            sig_h: DefaultSigHandler::new(),
            prop,
            sched_opt: None,
        }
    }
}

} // verus!
