use vstd::prelude::*;

verus! {

/// The phases that a menu passes through before it can raise commands.
#[derive(Clone, Copy, Debug, PartialEq, Eq, Structural)]
pub enum Phase {
    /// The nodes of the menu are not known yet.
    Uninitialized,
    /// The nodes are known, their signals are not connected yet.
    NodesBound,
    /// The signals are connected: the menu is ready.
    SignalsConnected,
}

impl Phase {
    /// How far the phase is from the start.
    pub open spec fn step(self) -> nat {
        match self {
            Phase::Uninitialized => 0,
            Phase::NodesBound => 1,
            Phase::SignalsConnected => 2,
        }
    }

    /// The nodes are still to be found: the discovery phase is due.
    pub open spec fn is_uninitialized(self) -> bool {
        self == Phase::Uninitialized
    }

    /// The nodes are known and their signals are still to be connected: the
    /// connection phase is due.
    pub open spec fn needs_signal_connection(self) -> bool {
        self == Phase::NodesBound
    }

    /// The menu is ready: the dispatch phase is due.
    pub open spec fn is_ready(self) -> bool {
        self == Phase::SignalsConnected
    }

    /// The phase after a discovery that found the nodes.
    pub open spec fn after_discovery(self) -> Phase {
        if self == Phase::Uninitialized {
            Phase::NodesBound
        } else {
            self
        }
    }

    /// The phase after the signals were connected.
    pub open spec fn after_connection(self) -> Phase {
        if self == Phase::NodesBound {
            Phase::SignalsConnected
        } else {
            self
        }
    }
}

/// Keeps the phase of one menu. The phase only moves forward, one step at a
/// time, until a reset takes it back to the start.
#[derive(Clone, Copy, Debug)]
pub struct ReadinessTracker {
    phase: Phase,
}

impl View for ReadinessTracker {
    type V = Phase;

    closed spec fn view(&self) -> Phase {
        self.phase
    }
}

impl ReadinessTracker {
    /// A tracker at the start.
    pub fn new() -> (tracker: Self)
        ensures
            tracker@ == Phase::Uninitialized,
    {
        ReadinessTracker { phase: Phase::Uninitialized }
    }

    /// The phase that the menu is in.
    pub fn phase(&self) -> (phase: Phase)
        ensures
            phase == self@,
    {
        self.phase
    }

    /// Whether the nodes are still to be found.
    pub fn is_uninitialized(&self) -> (b: bool)
        ensures
            b == self@.is_uninitialized(),
    {
        self.phase == Phase::Uninitialized
    }

    /// Whether the nodes are known and their signals are still to be connected.
    pub fn needs_signal_connection(&self) -> (b: bool)
        ensures
            b == self@.needs_signal_connection(),
    {
        self.phase == Phase::NodesBound
    }

    /// Whether the menu is ready to raise commands.
    pub fn is_ready(&self) -> (b: bool)
        ensures
            b == self@.is_ready(),
    {
        self.phase == Phase::SignalsConnected
    }

    /// Records that the nodes were found. Has an effect only at the start.
    pub fn nodes_bound(&mut self)
        ensures
            final(self)@ == old(self)@.after_discovery(),
    {
        if self.phase == Phase::Uninitialized {
            self.phase = Phase::NodesBound;
        }
    }

    /// Records that the signals were connected. Has an effect only when the
    /// nodes are known and the signals are not connected yet.
    pub fn signals_wired(&mut self)
        ensures
            final(self)@ == old(self)@.after_connection(),
    {
        if self.phase == Phase::NodesBound {
            self.phase = Phase::SignalsConnected;
        }
    }

    /// Takes the menu back to the start.
    pub fn reset(&mut self)
        ensures
            final(self)@ == Phase::Uninitialized,
    {
        self.phase = Phase::Uninitialized;
    }
}

} // verus!
