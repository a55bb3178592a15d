use crate::handle::NodeHandle;
use crate::key::EventKey;
use crate::readiness::{Phase, ReadinessTracker};
use crate::registry::{has_node, ordered, register, register_all, resolve, ButtonRegistry};
use crate::signal::{requests, Connection, ConnectionView, SignalEvent, PRESSED};
use vstd::prelude::*;

verus! {

/// The state of one menu: its name, its buttons in the order of their keys,
/// and the phase it is in.
pub struct MenuView<E> {
    pub name: Seq<char>,
    pub buttons: Seq<(E, NodeHandle)>,
    pub phase: Phase,
}

impl<E: EventKey> MenuView<E> {
    /// The buttons are in the order of their keys, each key once.
    pub open spec fn wf(self) -> bool {
        ordered(self.buttons)
    }

    /// The state in which a menu is created: no name, no buttons, at the start.
    pub open spec fn fresh() -> Self {
        MenuView { name: Seq::empty(), buttons: Seq::empty(), phase: Phase::Uninitialized }
    }

    /// The nodes of the menu were found.
    pub open spec fn initialized(self) -> bool {
        self.phase != Phase::Uninitialized
    }

    /// The signal of every button was connected.
    pub open spec fn signals_connected(self) -> bool {
        self.phase == Phase::SignalsConnected
    }

    /// The same menu under the name `name`.
    pub open spec fn named(self, name: Seq<char>) -> Self {
        MenuView { name, ..self }
    }

    /// The menu taken back to the start: the buttons are gone, the name stays.
    pub open spec fn reset(self) -> Self {
        MenuView { buttons: Seq::empty(), phase: Phase::Uninitialized, ..self }
    }

    /// The menu with one more button, unless its key is taken.
    pub open spec fn with_button(self, key: E, handle: NodeHandle) -> Self {
        MenuView { buttons: register(self.buttons, key, handle), ..self }
    }

    /// The menu after a pass of the discovery phase in which the scene lookup
    /// gave `found`. The phase runs only at the start. A lookup that failed
    /// (`None`) changes nothing, so that the phase runs again on a later pass.
    pub open spec fn discover(self, found: Option<Seq<(E, NodeHandle)>>) -> Self {
        match found {
            Some(pairs) if self.phase == Phase::Uninitialized => MenuView {
                buttons: register_all(self.buttons, pairs),
                phase: Phase::NodesBound,
                ..self
            },
            _ => self,
        }
    }

    /// What a pass of the connection phase asks of the bridge: the signal
    /// `pressed` of every button, in the order of the keys, and the focus for
    /// the first of them. The phase runs only when the nodes are known and
    /// their signals are not connected yet.
    pub open spec fn connections(self) -> Seq<ConnectionView> {
        if self.phase == Phase::NodesBound {
            Seq::new(
                self.buttons.len(),
                |i: int|
                    ConnectionView {
                        target: self.buttons[i].1,
                        signal: PRESSED@,
                        grab_focus: i == 0,
                    },
            )
        } else {
            Seq::empty()
        }
    }

    /// The menu after a pass of the connection phase.
    pub open spec fn connect(self) -> Self {
        MenuView { phase: self.phase.after_connection(), ..self }
    }

    /// The commands that a pass of the dispatch phase raises for `events`: for
    /// each event whose node belongs to a button, in the order of the events,
    /// the key of that button. The phase runs only when the menu is ready.
    pub open spec fn commands(self, events: Seq<SignalEvent>) -> Seq<E> {
        if self.phase == Phase::SignalsConnected {
            events.filter_map(|e: SignalEvent| resolve(self.buttons, e.target))
        } else {
            Seq::empty()
        }
    }
}

/// What the plugin of a menu asks of the resource that holds the menu.
pub trait MenuGetSet: Sized + Default {
    /// The keys of the buttons of the menu.
    type Key: EventKey;

    /// The state of the menu.
    spec fn model(&self) -> MenuView<Self::Key>;

    /// The default of the resource is a menu as it is created.
    proof fn default_is_fresh(menu: Self)
        requires
            call_ensures(Self::default, (), menu),
        ensures
            menu.model() == MenuView::<Self::Key>::fresh(),
    ;

    /// Whether the discovery phase is due.
    fn not_init(&self) -> (due: bool)
        ensures
            due == self.model().phase.is_uninitialized(),
    ;

    /// Whether the connection phase is due.
    fn no_connections(&self) -> (due: bool)
        ensures
            due == self.model().phase.needs_signal_connection(),
    ;

    /// Whether the dispatch phase is due.
    fn full_init(&self) -> (due: bool)
        ensures
            due == self.model().phase.is_ready(),
    ;

    /// Gives the menu its name.
    fn set_name(&mut self, name: String)
        ensures
            final(self).model() == old(self).model().named(name@),
    ;

    /// Runs a pass of the connection phase and returns what to ask of the
    /// bridge, in the order in which to ask it.
    fn connect_signals(&mut self) -> (plan: Vec<Connection>)
        ensures
            requests(plan@) == old(self).model().connections(),
            final(self).model() == old(self).model().connect(),
    ;

    /// Runs a pass of the dispatch phase on the events of this pass and
    /// returns the commands to raise, in the order in which to raise them.
    fn handle_events(&self, events: &Vec<SignalEvent>) -> (commands: Vec<Self::Key>)
        ensures
            commands@ == self.model().commands(events@),
    ;

    /// Takes the menu back to the start, as when the application enters the
    /// state that owns the menu.
    fn reset(&mut self)
        ensures
            final(self).model() == old(self).model().reset(),
    ;
}

/// A menu: its name, its buttons, and how far it has come in binding itself
/// to the scene.
pub struct MenuAssets<E: EventKey> {
    name: String,
    buttons: ButtonRegistry<E>,
    readiness: ReadinessTracker,
}

impl<E: EventKey> View for MenuAssets<E> {
    type V = MenuView<E>;

    closed spec fn view(&self) -> MenuView<E> {
        MenuView { name: self.name@, buttons: self.buttons@, phase: self.readiness@ }
    }
}

impl<E: EventKey> Default for MenuAssets<E> {
    /// A menu without a name and without buttons, at the start.
    fn default() -> (menu: Self)
        ensures
            menu@ == MenuView::<E>::fresh(),
    {
        MenuAssets {
            name: String::new(),
            buttons: ButtonRegistry::new(),
            readiness: ReadinessTracker::new(),
        }
    }
}

impl<E: EventKey> MenuAssets<E> {
    /// The name of the menu.
    pub fn name(&self) -> (name: &str)
        ensures
            name@ == self@.name,
    {
        self.name.as_str()
    }

    /// The phase that the menu is in.
    pub fn phase(&self) -> (phase: Phase)
        ensures
            phase == self@.phase,
    {
        self.readiness.phase()
    }

    /// Whether the nodes of the menu were found.
    pub fn initialized(&self) -> (b: bool)
        ensures
            b == self@.initialized(),
    {
        !self.readiness.is_uninitialized()
    }

    /// Whether the signals of the buttons were connected.
    pub fn signals_connected(&self) -> (b: bool)
        ensures
            b == self@.signals_connected(),
    {
        self.readiness.is_ready()
    }

    /// The buttons of the menu.
    pub fn buttons(&self) -> (buttons: &ButtonRegistry<E>)
        ensures
            buttons@ == self@.buttons,
            self@.wf(),
    {
        proof {
            use_type_invariant(&self.buttons);
        }
        &self.buttons
    }

    /// Registers the node `node_handle` as the button for `event`, unless a
    /// button for `event` is registered already: then nothing changes.
    pub fn register_button(&mut self, event: E, node_handle: NodeHandle)
        ensures
            final(self)@ == old(self)@.with_button(event, node_handle),
            final(self)@.wf(),
    {
        self.buttons.register(event, node_handle);
    }

    /// The key of the button whose node is `handle`, if there is one.
    pub fn lookup_by_handle(&self, handle: NodeHandle) -> (key: Option<E>)
        ensures
            key == resolve(self@.buttons, handle),
            key is Some <==> has_node(self@.buttons, handle),
    {
        self.buttons.lookup_by_handle(handle)
    }

    /// Runs a pass of the discovery phase, given what the scene lookup found:
    /// `None` where it could not resolve the nodes of the menu.
    pub fn discover(&mut self, found: Option<Vec<(E, NodeHandle)>>)
        ensures
            final(self)@ == old(self)@.discover(
                match found {
                    Some(pairs) => Some(pairs@),
                    None => None,
                },
            ),
            final(self)@.wf(),
    {
        proof {
            use_type_invariant(&self.buttons);
        }
        if !self.readiness.is_uninitialized() {
            return ;
        }
        match found {
            None => {},
            Some(pairs) => {
                let n: usize = pairs.len();
                let mut i: usize = 0;
                while i < n
                    invariant
                        n == pairs@.len(),
                        i <= n,
                        self.name == old(self).name,
                        self.readiness == old(self).readiness,
                        self.buttons@ == register_all(old(self).buttons@, pairs@.take(i as int)),
                        ordered(self.buttons@),
                    decreases n - i,
                {
                    assert(pairs@.take(i + 1).drop_last() == pairs@.take(i as int));
                    self.buttons.register(pairs[i].0, pairs[i].1);
                    i = i + 1;
                }
                assert(pairs@.take(n as int) == pairs@);
                self.readiness.nodes_bound();
            },
        }
    }
}

impl<E: EventKey> MenuGetSet for MenuAssets<E> {
    type Key = E;

    open spec fn model(&self) -> MenuView<E> {
        self@
    }

    proof fn default_is_fresh(menu: Self) {
    }

    fn not_init(&self) -> (due: bool) {
        self.readiness.is_uninitialized()
    }

    fn no_connections(&self) -> (due: bool) {
        self.readiness.needs_signal_connection()
    }

    fn full_init(&self) -> (due: bool) {
        self.readiness.is_ready()
    }

    fn set_name(&mut self, name: String) {
        self.name = name;
    }

    fn connect_signals(&mut self) -> (plan: Vec<Connection>) {
        let mut plan: Vec<Connection> = Vec::new();
        if !self.readiness.needs_signal_connection() {
            assert(requests(plan@) == self@.connections());
            return plan;
        }
        let n: usize = self.buttons.len();
        let mut i: usize = 0;
        while i < n
            invariant
                n == self.buttons@.len(),
                i <= n,
                plan@.len() == i,
                forall|j: int|
                    #![trigger plan@[j]]
                    0 <= j < i ==> plan@[j]@ == (ConnectionView {
                        target: self.buttons@[j].1,
                        signal: PRESSED@,
                        grab_focus: j == 0,
                    }),
            decreases n - i,
        {
            match self.buttons.entry(i) {
                Some(entry) => {
                    plan.push(Connection::new(entry.1, PRESSED, i == 0));
                },
                None => {},
            }
            i = i + 1;
        }
        assert(requests(plan@) == self@.connections());
        self.readiness.signals_wired();
        plan
    }

    fn handle_events(&self, events: &Vec<SignalEvent>) -> (commands: Vec<E>) {
        let mut commands: Vec<E> = Vec::new();
        if !self.readiness.is_ready() {
            return commands;
        }
        let ghost key_of = |e: SignalEvent| resolve(self.buttons@, e.target);
        let n: usize = events.len();
        let mut i: usize = 0;
        while i < n
            invariant
                n == events@.len(),
                i <= n,
                key_of == |e: SignalEvent| resolve(self.buttons@, e.target),
                commands@ == events@.take(i as int).filter_map(key_of),
            decreases n - i,
        {
            proof {
                events@.lemma_filter_map_take_succ(key_of, i as int);
            }
            match self.buttons.lookup_by_handle(events[i].target) {
                Some(key) => {
                    commands.push(key);
                },
                None => {},
            }
            i = i + 1;
        }
        assert(events@.take(n as int) == events@);
        commands
    }

    fn reset(&mut self) {
        self.buttons = ButtonRegistry::new();
        self.readiness.reset();
    }
}

} // verus!
