//! The kill planes of a level: areas that end the life of the player who enters them.

use crate::handle::NodeHandle;
use crate::signal::{requests, Connection, ConnectionView, SignalEvent};
use crate::state::GameState;
use vstd::prelude::*;

verus! {

/// The signal that an area fires when a body enters it.
pub const BODY_ENTERED: &'static str = "body_entered";

/// Whether the signals of the kill planes of the level are connected.
#[derive(Clone, Copy, Debug, PartialEq, Eq, Structural)]
pub struct RKillplanes(bool);

impl View for RKillplanes {
    type V = bool;

    closed spec fn view(&self) -> bool {
        self.0
    }
}

impl Default for RKillplanes {
    /// The signals are not connected.
    fn default() -> (killplane_assets: Self)
        ensures
            !killplane_assets@,
    {
        RKillplanes(false)
    }
}

/// What the connection of the kill planes asks of the bridge: the signal
/// `body_entered` of every kill plane, in the order given, once.
pub open spec fn killplane_connections(
    killplanes: Seq<NodeHandle>,
    connected: bool,
) -> Seq<ConnectionView> {
    if connected {
        Seq::empty()
    } else {
        Seq::new(
            killplanes.len(),
            |i: int| ConnectionView { target: killplanes[i], signal: BODY_ENTERED@, grab_focus: false },
        )
    }
}

/// Some event says that a body entered one of the kill planes.
pub open spec fn entered(killplanes: Seq<NodeHandle>, signal_events: Seq<SignalEvent>) -> bool {
    exists|i: int, j: int|
        #![trigger killplanes[i], signal_events[j]]
        0 <= i < killplanes.len() && 0 <= j < signal_events.len() && signal_events[j].name@
            == BODY_ENTERED@ && signal_events[j].target == killplanes[i]
}

/// Forgets that the signals were connected, as when a level is entered.
pub fn reset(killplane_assets: &mut RKillplanes)
    ensures
        !final(killplane_assets)@,
{
    killplane_assets.0 = false;
}

/// Whether the signals of the kill planes are still to be connected.
pub fn not_init(killplane_assets: &RKillplanes) -> (due: bool)
    ensures
        due == !killplane_assets@,
{
    !killplane_assets.0
}

/// Whether the signals of the kill planes are connected.
pub fn initialized(killplane_assets: &RKillplanes) -> (done: bool)
    ensures
        done == killplane_assets@,
{
    killplane_assets.0
}

/// Returns what to ask of the bridge so that the kill planes report the
/// bodies that enter them, and records that it was asked. Once that is
/// recorded, nothing more is asked for until a reset.
pub fn connect_signals(killplanes: &Vec<NodeHandle>, killplane_assets: &mut RKillplanes) -> (plan:
    Vec<Connection>)
    ensures
        requests(plan@) == killplane_connections(killplanes@, old(killplane_assets)@),
        final(killplane_assets)@,
{
    let mut plan: Vec<Connection> = Vec::new();
    if killplane_assets.0 {
        assert(requests(plan@) == killplane_connections(killplanes@, true));
        return plan;
    }
    let n: usize = killplanes.len();
    let mut i: usize = 0;
    while i < n
        invariant
            n == killplanes@.len(),
            i <= n,
            plan@.len() == i,
            forall|j: int|
                #![trigger plan@[j]]
                0 <= j < i ==> plan@[j]@ == (ConnectionView {
                    target: killplanes@[j],
                    signal: BODY_ENTERED@,
                    grab_focus: false,
                }),
        decreases n - i,
    {
        plan.push(Connection::new(killplanes[i], BODY_ENTERED, false));
        i = i + 1;
    }
    assert(requests(plan@) == killplane_connections(killplanes@, false));
    killplane_assets.0 = true;
    plan
}

/// Whether the events of this pass say that a body entered a kill plane:
/// then the player dies.
pub fn detect_collision(killplanes: &Vec<NodeHandle>, signal_events: &Vec<SignalEvent>) -> (hit:
    bool)
    ensures
        hit == entered(killplanes@, signal_events@),
{
    let wanted: String = BODY_ENTERED.to_owned();
    let n: usize = signal_events.len();
    let m: usize = killplanes.len();
    let mut j: usize = 0;
    while j < n
        invariant
            n == signal_events@.len(),
            m == killplanes@.len(),
            j <= n,
            wanted@ == BODY_ENTERED@,
            forall|i: int, k: int|
                #![trigger killplanes@[i], signal_events@[k]]
                0 <= i < m && 0 <= k < j ==> !(signal_events@[k].name@ == BODY_ENTERED@
                    && signal_events@[k].target == killplanes@[i]),
        decreases n - j,
    {
        if signal_events[j].name == wanted {
            let mut i: usize = 0;
            while i < m
                invariant
                    m == killplanes@.len(),
                    j < signal_events@.len(),
                    i <= m,
                    signal_events@[j as int].name@ == BODY_ENTERED@,
                    forall|l: int|
                        #![trigger killplanes@[l]]
                        0 <= l < i ==> signal_events@[j as int].target != killplanes@[l],
                decreases m - i,
            {
                if killplanes[i] == signal_events[j].target {
                    assert(signal_events@[j as int].target == killplanes@[i as int]);
                    return true;
                }
                i = i + 1;
            }
        }
        j = j + 1;
    }
    false
}

/// Whether the timer that runs between the death of the player and the
/// reload of the level is running.
#[derive(Clone, Copy, Debug, PartialEq, Eq, Structural)]
pub struct RKillTimer {
    active: bool,
}

impl View for RKillTimer {
    type V = bool;

    closed spec fn view(&self) -> bool {
        self.active
    }
}

impl Default for RKillTimer {
    /// The timer does not run.
    fn default() -> (kill_timer: Self)
        ensures
            !kill_timer@,
    {
        RKillTimer { active: false }
    }
}

/// Starts the timer where the player died in this pass, `deaths` times.
/// Returns whether time is to be slowed down: it is, where the player died.
pub fn activate_timer(kill_timer: &mut RKillTimer, deaths: usize) -> (slow_down: bool)
    ensures
        slow_down == (deaths > 0),
        final(kill_timer)@ == (old(kill_timer)@ || deaths > 0),
{
    if deaths > 0 {
        kill_timer.active = true;
        true
    } else {
        false
    }
}

/// Whether the timer advances in this pass: it does while it is running.
pub fn tick_timer(kill_timer: &RKillTimer) -> (advance: bool)
    ensures
        advance == kill_timer@,
{
    kill_timer.active
}

/// What follows where the timer has just run out: the timer stops, and the
/// application goes back to loading, which reloads the level. Otherwise
/// nothing changes.
pub fn kill(kill_timer: &mut RKillTimer, just_finished: bool) -> (next: Option<GameState>)
    ensures
        next == if just_finished {
            Some(GameState::Loading)
        } else {
            None
        },
        final(kill_timer)@ == (old(kill_timer)@ && !just_finished),
{
    if just_finished {
        kill_timer.active = false;
        Some(GameState::Loading)
    } else {
        None
    }
}

} // verus!
