//! Coordination of graceful shutdown.
//!
//! The coordinator is a state machine `Running -> ShuttingDown -> Stopped`.
//! The surrounding runtime feeds it events: the first termination signal it
//! observes (interrupt and terminate are treated identically), and one
//! confirmation per concurrent unit (each listener, plus the telemetry loop)
//! that has fully stopped.

use vstd::prelude::*;

verus! {

/// Which termination signal arrived. Both kinds trigger the same
/// transition; the kind is kept only so the caller can log which one fired.
#[derive(Clone, Copy, Debug, PartialEq, Eq, Structural)]
pub enum ExitType {
    Termination,
    Interrupt,
}

/// The phase of the shutdown protocol.
#[derive(Clone, Copy, Debug, PartialEq, Eq, Structural)]
pub enum Phase {
    /// All listeners and the telemetry loop are active.
    Running,
    /// Every unit has been asked to stop; confirmations are being counted.
    ShuttingDown,
    /// Every unit has confirmed termination; the process may exit with
    /// success status.
    Stopped,
}

/// Tracks the shutdown protocol across all concurrent units.
#[derive(Clone, Copy, Debug, PartialEq, Eq, Structural)]
pub struct ShutdownCoordinator {
    /// The phase of the protocol.
    pub phase: Phase,
    /// How many units have not yet confirmed termination.
    pub pending: u64,
}

impl ShutdownCoordinator {
    /// The current phase, as contracts see it.
    pub open spec fn spec_phase(self) -> Phase {
        self.phase
    }

    /// How many units have not yet confirmed termination, as contracts see it.
    pub open spec fn spec_pending(self) -> u64 {
        self.pending
    }

    /// The transition taken on the first termination signal. It does not
    /// depend on which signal kind arrived: interrupt and terminate are
    /// treated identically, and any signal after the first changes nothing.
    pub open spec fn signal_step(self) -> ShutdownCoordinator {
        if self.spec_phase() is Running {
            if self.spec_pending() == 0 {
                ShutdownCoordinator { phase: Phase::Stopped, pending: 0 }
            } else {
                ShutdownCoordinator { phase: Phase::ShuttingDown, pending: self.spec_pending() }
            }
        } else {
            self
        }
    }

    /// The transition taken when one unit confirms that it has stopped.
    pub open spec fn unit_stopped_step(self) -> ShutdownCoordinator {
        if self.spec_pending() == 0 {
            self
        } else if self.spec_pending() == 1 && self.spec_phase() is ShuttingDown {
            ShutdownCoordinator { phase: Phase::Stopped, pending: 0 }
        } else {
            ShutdownCoordinator {
                phase: self.spec_phase(),
                pending: (self.spec_pending() - 1) as u64,
            }
        }
    }

    /// A coordinator for `units` concurrent units, all running.
    pub fn new(units: u64) -> (r: ShutdownCoordinator)
        ensures
            r.spec_phase() is Running,
            r.spec_pending() == units,
    {
        ShutdownCoordinator { phase: Phase::Running, pending: units }
    }

    /// Feeds one termination signal. Returns true exactly when this was the
    /// first signal, i.e. when every unit must now be asked to stop,
    /// concurrently. The signal kind does not influence the transition.
    #[allow(unused_variables)]
    pub fn on_signal(&mut self, kind: ExitType) -> (stop_all: bool)
        ensures
            *final(self) == old(self).signal_step(),
            stop_all == (old(self).spec_phase() is Running),
    {
        match self.phase {
            Phase::Running => {
                if self.pending == 0 {
                    self.phase = Phase::Stopped;
                } else {
                    self.phase = Phase::ShuttingDown;
                }
                true
            },
            _ => false,
        }
    }

    /// Feeds one unit's confirmation that it has fully stopped. Once the
    /// last pending unit confirms during shutdown, the protocol reaches
    /// `Stopped`.
    pub fn on_unit_stopped(&mut self)
        ensures
            *final(self) == old(self).unit_stopped_step(),
    {
        if self.pending == 0 {
        } else if self.pending == 1 && matches!(self.phase, Phase::ShuttingDown) {
            self.phase = Phase::Stopped;
            self.pending = 0;
        } else {
            self.pending = self.pending - 1;
        }
    }

    /// Whether every unit has confirmed termination.
    pub fn is_stopped(&self) -> (r: bool)
        ensures
            r == (self.spec_phase() is Stopped),
    {
        matches!(self.phase, Phase::Stopped)
    }

    /// The process exit status once shutdown has completed: graceful
    /// shutdown always exits with success.
    pub fn exit_code(&self) -> (r: i32)
        requires
            self.spec_phase() is Stopped,
        ensures
            r == 0,
    {
        0
    }
}

/// The state after `n` units have confirmed termination, one after another.
pub open spec fn after_confirmations(s: ShutdownCoordinator, n: nat) -> ShutdownCoordinator
    decreases n,
{
    if n == 0 {
        s
    } else {
        after_confirmations(s.unit_stopped_step(), (n - 1) as nat)
    }
}

/// Termination drains every unit: if a signal arrives while `n` units are
/// still running, then after that signal and all `n` confirmations the
/// coordinator is `Stopped` with nothing pending, whichever signal kind
/// fired first.
pub proof fn lemma_shutdown_drains_all(s: ShutdownCoordinator)
    requires
        s.spec_phase() is Running,
    ensures
        after_confirmations(s.signal_step(), s.spec_pending() as nat).spec_phase() is Stopped,
        after_confirmations(s.signal_step(), s.spec_pending() as nat).spec_pending() == 0,
{
    lemma_confirmations_drain(s.signal_step(), s.spec_pending() as nat);
}

/// During shutdown, each confirmation lowers the pending count by one until
/// the protocol reaches `Stopped`.
proof fn lemma_confirmations_drain(s: ShutdownCoordinator, n: nat)
    requires
        s.spec_pending() == n,
        if n == 0 {
            s.spec_phase() is Stopped
        } else {
            s.spec_phase() is ShuttingDown
        },
    ensures
        after_confirmations(s, n).spec_phase() is Stopped,
        after_confirmations(s, n).spec_pending() == 0,
    decreases n,
{
    if n > 0 {
        lemma_confirmations_drain(s.unit_stopped_step(), (n - 1) as nat);
    }
}

} // verus!
