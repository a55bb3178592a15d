use crate::handle::NodeHandle;
use vstd::prelude::*;

verus! {

/// The signal that a button fires when it is pressed.
pub const PRESSED: &'static str = "pressed";

/// A signal that fired in the engine, as the bridge hands it on: the name of
/// the signal, the node that fired it, and what came with it.
#[derive(Clone, Debug)]
pub struct SignalEvent {
    pub name: String,
    pub target: NodeHandle,
    pub args: Vec<String>,
}

/// A request to the bridge: from now on, hand on every firing of `signal` on
/// the node `target`. Where `grab_focus` is set, the node also takes the focus.
#[derive(Clone, Debug)]
pub struct Connection {
    pub target: NodeHandle,
    pub signal: String,
    pub grab_focus: bool,
}

/// A request to the bridge, with the name of the signal as a sequence of characters.
pub struct ConnectionView {
    pub target: NodeHandle,
    pub signal: Seq<char>,
    pub grab_focus: bool,
}

impl View for Connection {
    type V = ConnectionView;

    open spec fn view(&self) -> ConnectionView {
        ConnectionView { target: self.target, signal: self.signal@, grab_focus: self.grab_focus }
    }
}

/// The requests of a plan, each by its view.
pub open spec fn requests(plan: Seq<Connection>) -> Seq<ConnectionView> {
    plan.map_values(|c: Connection| c@)
}

impl Connection {
    /// The request to hand on `signal` of `target`.
    pub fn new(target: NodeHandle, signal: &str, grab_focus: bool) -> (c: Connection)
        ensures
            c@ == (ConnectionView { target, signal: signal@, grab_focus }),
    {
        Connection { target, signal: signal.to_owned(), grab_focus }
    }
}

} // verus!
