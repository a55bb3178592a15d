//! What holds of every menu, whatever its buttons and whatever happens to it.

use crate::handle::NodeHandle;
use crate::key::EventKey;
use crate::menu::MenuView;
use crate::readiness::Phase;
use crate::registry::{
    has_key, has_node, keys, lemma_node_of_is_entry, lemma_preceding_splits,
    lemma_register_all_keeps_order, lemma_register_all_keys, lemma_register_all_taken,
    lemma_register_keeps_order, lemma_resolve_is_first_match, node_of, ordered, preceding,
    register, register_all, resolve,
};
use crate::signal::SignalEvent;
use vstd::prelude::*;

verus! {

/// In every phase exactly one of the three phases of a pass is due.
pub proof fn exactly_one_phase_is_due(phase: Phase)
    ensures
        phase.is_uninitialized() || phase.needs_signal_connection() || phase.is_ready(),
        !(phase.is_uninitialized() && phase.needs_signal_connection()),
        !(phase.is_uninitialized() && phase.is_ready()),
        !(phase.needs_signal_connection() && phase.is_ready()),
{
}

/// Discovery and connection move a menu forward by one phase or leave it
/// where it is; only a reset takes it back, and it takes it to the start.
pub proof fn phases_only_move_forward<E: EventKey>(
    menu: MenuView<E>,
    found: Option<Seq<(E, NodeHandle)>>,
)
    ensures
        menu.phase.step() <= menu.discover(found).phase.step() <= menu.phase.step() + 1,
        menu.phase.step() <= menu.connect().phase.step() <= menu.phase.step() + 1,
        menu.reset().phase.step() == 0,
{
}

/// A menu at the start is ready after a discovery that succeeds and a
/// connection, in this order, and not before.
pub proof fn readiness_takes_discovery_then_connection<E: EventKey>(
    menu: MenuView<E>,
    found: Seq<(E, NodeHandle)>,
)
    requires
        menu.phase == Phase::Uninitialized,
    ensures
        !menu.connect().phase.is_ready(),
        !menu.discover(Some(found)).phase.is_ready(),
        menu.discover(Some(found)).connect().phase.is_ready(),
{
}

/// A menu whose signals are connected knows its nodes.
pub proof fn connected_signals_need_known_nodes<E: EventKey>(menu: MenuView<E>)
    ensures
        menu.signals_connected() ==> menu.initialized(),
{
}

/// The first registration of a key wins: registering gives the key its node
/// only where the key had none, and never changes the node of another key.
pub proof fn first_registration_wins<E: EventKey>(
    buttons: Seq<(E, NodeHandle)>,
    key: E,
    handle: NodeHandle,
    other: E,
)
    requires
        ordered(buttons),
    ensures
        node_of(register(buttons, key, handle), other) == if other == key && !has_key(
            buttons,
            key,
        ) {
            Some(handle)
        } else {
            node_of(buttons, other)
        },
{
    let after = register(buttons, key, handle);
    lemma_register_keeps_order(buttons, key, handle);
    lemma_node_of_is_entry(buttons, other);
    lemma_node_of_is_entry(after, other);
    if !has_key(buttons, key) {
        lemma_preceding_splits(buttons, key);
        let at = preceding(buttons, key) as int;
        assert(after[at] == (key, handle));
        if other != key {
            match node_of(buttons, other) {
                Some(node) => {
                    let i = choose|i: int|
                        #![trigger buttons[i]]
                        0 <= i < buttons.len() && buttons[i] == (other, node);
                    if i < at {
                        assert(after[i] == buttons[i]);
                    } else {
                        assert(after[i + 1] == buttons[i]);
                    }
                },
                None => {
                    if has_key(after, other) {
                        let i = choose|i: int|
                            #![trigger after[i]]
                            0 <= i < after.len() && after[i].0 == other;
                        if i < at {
                            assert(after[i] == buttons[i]);
                        } else {
                            assert(after[i] == buttons[i - 1]);
                        }
                    }
                },
            }
        }
    }
}

/// A discovery that succeeds at the start adds the keys that were found to the
/// keys of the menu, and leaves the menu with its nodes known and its signals
/// not connected.
pub proof fn discovery_adds_the_found_keys<E: EventKey>(
    menu: MenuView<E>,
    found: Seq<(E, NodeHandle)>,
)
    requires
        menu.wf(),
        menu.phase == Phase::Uninitialized,
    ensures
        menu.discover(Some(found)).wf(),
        keys(menu.discover(Some(found)).buttons) == keys(menu.buttons).union(keys(found)),
        menu.discover(Some(found)).initialized(),
        !menu.discover(Some(found)).signals_connected(),
{
    lemma_register_all_keeps_order(menu.buttons, found);
    lemma_register_all_keys(menu.buttons, found);
}

/// A discovery that succeeds on a menu without buttons leaves the menu with
/// exactly the keys that were found, its nodes known and its signals not
/// connected.
pub proof fn discovery_binds_exactly_the_found_keys<E: EventKey>(
    menu: MenuView<E>,
    found: Seq<(E, NodeHandle)>,
)
    requires
        menu.phase == Phase::Uninitialized,
        menu.buttons.len() == 0,
    ensures
        keys(menu.discover(Some(found)).buttons) == keys(found),
        menu.discover(Some(found)).initialized(),
        !menu.discover(Some(found)).signals_connected(),
{
    discovery_adds_the_found_keys(menu, found);
    assert(keys(menu.buttons).union(keys(found)) =~= keys(found));
}

/// A discovery that fails changes nothing: the phase is due again on the next pass.
pub proof fn failed_discovery_is_tried_again<E: EventKey>(menu: MenuView<E>)
    ensures
        menu.discover(None) == menu,
{
}

/// Registering what was found a second time changes no button: none is added
/// twice and none gets another node.
pub proof fn registering_again_changes_nothing<E: EventKey>(
    buttons: Seq<(E, NodeHandle)>,
    found: Seq<(E, NodeHandle)>,
)
    requires
        ordered(buttons),
    ensures
        register_all(register_all(buttons, found), found) == register_all(buttons, found),
{
    let once = register_all(buttons, found);
    lemma_register_all_keys(buttons, found);
    assert forall|i: int| 0 <= i < found.len() implies has_key(once, #[trigger] found[i].0) by {
        assert(has_key(found, found[i].0));
        assert(keys(found).contains(found[i].0));
        assert(keys(once).contains(found[i].0));
    }
    lemma_register_all_taken(once, found);
}

/// Running the discovery phase twice on the same scene leaves the menu as
/// running it once does.
pub proof fn discovery_is_idempotent<E: EventKey>(
    menu: MenuView<E>,
    found: Option<Seq<(E, NodeHandle)>>,
)
    ensures
        menu.discover(found).discover(found) == menu.discover(found),
{
}

/// Once the signals are connected, the connection phase asks for nothing
/// more: in one activation every signal is connected once.
pub proof fn signals_are_connected_once<E: EventKey>(menu: MenuView<E>)
    ensures
        menu.connect().connections() == Seq::<crate::signal::ConnectionView>::empty(),
        menu.connect().connect() == menu.connect(),
{
}

/// The connection phase asks for one connection for each button, in the
/// order of the keys, and for the focus on the first button only.
pub proof fn connection_covers_every_button<E: EventKey>(menu: MenuView<E>)
    requires
        menu.phase == Phase::NodesBound,
    ensures
        menu.connections().len() == menu.buttons.len(),
        forall|i: int|
            #![trigger menu.connections()[i]]
            0 <= i < menu.buttons.len() ==> {
                &&& menu.connections()[i].target == menu.buttons[i].1
                &&& menu.connections()[i].grab_focus == (i == 0)
            },
        menu.connect().phase == Phase::SignalsConnected,
{
}

/// An event whose node belongs to a button raises one command, the key of
/// that button. An event whose node belongs to no button raises none.
pub proof fn dispatch_of_one_event<E: EventKey>(menu: MenuView<E>, event: SignalEvent)
    requires
        menu.phase == Phase::SignalsConnected,
    ensures
        menu.commands(seq![event]) == match resolve(menu.buttons, event.target) {
            Some(key) => seq![key],
            None => Seq::empty(),
        },
{
    Seq::lemma_filter_map_singleton(
        event,
        |e: SignalEvent| resolve(menu.buttons, e.target),
    );
}

/// The events of a pass are dispatched one by one, in their order: what a
/// sequence of events raises is what its parts raise, one after the other.
pub proof fn dispatch_goes_event_by_event<E: EventKey>(
    menu: MenuView<E>,
    first: Seq<SignalEvent>,
    then: Seq<SignalEvent>,
)
    ensures
        menu.commands(first + then) == menu.commands(first) + menu.commands(then),
    decreases then.len(),
{
    if menu.phase == Phase::SignalsConnected {
        let key_of = |e: SignalEvent| resolve(menu.buttons, e.target);
        if then.len() == 0 {
            assert(first + then == first);
            assert(menu.commands(first) + menu.commands(then) == menu.commands(first));
        } else {
            let all = first + then;
            assert(all.drop_last() == first + then.drop_last());
            assert(all.last() == then.last());
            dispatch_goes_event_by_event(menu, first, then.drop_last());
            let head = first.filter_map(key_of);
            let tail = then.drop_last().filter_map(key_of);
            match key_of(then.last()) {
                Some(key) => {
                    assert((head + tail) + seq![key] == head + (tail + seq![key]));
                },
                None => {},
            }
        }
    } else {
        assert(Seq::<E>::empty() + Seq::<E>::empty() == Seq::<E>::empty());
    }
}

/// A pass of the dispatch phase raises as many commands as there are events
/// whose node is the node of a button; outside the dispatch phase none is
/// raised.
pub proof fn dispatch_raises_one_command_per_match<E: EventKey>(
    menu: MenuView<E>,
    events: Seq<SignalEvent>,
)
    ensures
        menu.phase == Phase::SignalsConnected ==> menu.commands(events).len() == events.filter(
            |e: SignalEvent| has_node(menu.buttons, e.target),
        ).len(),
        menu.phase != Phase::SignalsConnected ==> menu.commands(events).len() == 0,
    decreases events.len(),
{
    if menu.phase == Phase::SignalsConnected {
        reveal(Seq::filter);
        if events.len() > 0 {
            dispatch_raises_one_command_per_match(menu, events.drop_last());
            lemma_resolve_is_first_match(menu.buttons, events.last().target);
        }
    }
}

/// Every command that a pass of the dispatch phase raises is the key of a
/// button of the menu.
pub proof fn dispatch_raises_keys_of_buttons<E: EventKey>(
    menu: MenuView<E>,
    events: Seq<SignalEvent>,
    i: int,
)
    requires
        0 <= i < menu.commands(events).len(),
    ensures
        has_key(menu.buttons, menu.commands(events)[i]),
{
    let key_of = |e: SignalEvent| resolve(menu.buttons, e.target);
    let key = menu.commands(events)[i];
    assert(events.filter_map(key_of).contains(key));
    events.lemma_filter_map_contains(key_of, key);
    let event = choose|event: SignalEvent| #[trigger] events.contains(event) && key_of(event) == Some(key);
    lemma_resolve_is_first_match(menu.buttons, event.target);
}

/// A reset takes every menu to the same state, but for its name: no buttons,
/// at the start. A second reset changes nothing.
pub proof fn reset_is_idempotent<E: EventKey>(menu: MenuView<E>)
    ensures
        menu.reset().buttons.len() == 0,
        menu.reset().phase == Phase::Uninitialized,
        menu.reset().name == menu.name,
        menu.reset().reset() == menu.reset(),
{
}

/// After a reset, a discovery that succeeds leaves the menu with exactly the
/// keys that were found: the buttons of the activation before are gone.
pub proof fn rediscovery_starts_from_scratch<E: EventKey>(
    menu: MenuView<E>,
    found: Seq<(E, NodeHandle)>,
)
    ensures
        keys(menu.reset().discover(Some(found)).buttons) == keys(found),
        menu.reset().discover(Some(found)).buttons == register_all(Seq::empty(), found),
        menu.reset().discover(Some(found)).phase == Phase::NodesBound,
{
    discovery_binds_exactly_the_found_keys(menu.reset(), found);
}

} // verus!
