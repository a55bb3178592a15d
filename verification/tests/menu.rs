use menu_plugin::main_menu::EMainMenu;
use menu_plugin::{
    Connection, MenuAssets, MenuGetSet, NodeHandle, Phase, SignalEvent, PRESSED,
};

fn node(id: i64) -> NodeHandle {
    NodeHandle::new(id).unwrap()
}

fn pressed(target: NodeHandle) -> SignalEvent {
    SignalEvent { name: String::from("pressed"), target, args: Vec::new() }
}

fn start_and_quit() -> Vec<(EMainMenu, NodeHandle)> {
    vec![(EMainMenu::Start, node(1)), (EMainMenu::Quit, node(2))]
}

fn ready_menu() -> MenuAssets<EMainMenu> {
    let mut menu: MenuAssets<EMainMenu> = MenuAssets::default();
    menu.discover(Some(start_and_quit()));
    menu.connect_signals();
    menu
}

fn due(menu: &MenuAssets<EMainMenu>) -> (bool, bool, bool) {
    (menu.not_init(), menu.no_connections(), menu.full_init())
}

fn assert_connection(connection: &Connection, target: NodeHandle, signal: &str, grab_focus: bool) {
    assert_eq!(connection.target, target);
    assert_eq!(connection.signal, signal);
    assert_eq!(connection.grab_focus, grab_focus);
}

#[test]
fn the_signal_of_a_button_is_pressed() {
    assert_eq!(PRESSED, "pressed");
}

#[test]
fn default_menu_is_at_the_start() {
    let menu: MenuAssets<EMainMenu> = MenuAssets::default();
    assert_eq!(menu.name(), "");
    assert_eq!(menu.buttons().len(), 0);
    assert_eq!(menu.phase(), Phase::Uninitialized);
    assert!(!menu.initialized());
    assert!(!menu.signals_connected());
}

#[test]
fn set_name_changes_the_name_only() {
    let mut menu = ready_menu();
    menu.set_name(String::from("Pause"));
    assert_eq!(menu.name(), "Pause");
    assert_eq!(menu.phase(), Phase::SignalsConnected);
    assert_eq!(menu.buttons().len(), 2);
}

#[test]
fn discovery_binds_exactly_the_keys_found() {
    let mut menu: MenuAssets<EMainMenu> = MenuAssets::default();
    menu.discover(Some(start_and_quit()));
    assert_eq!(menu.buttons().len(), 2);
    assert_eq!(menu.buttons().get(EMainMenu::Start), Some(node(1)));
    assert_eq!(menu.buttons().get(EMainMenu::Quit), Some(node(2)));
    assert!(menu.initialized());
    assert!(!menu.signals_connected());
    assert_eq!(menu.phase(), Phase::NodesBound);
}

#[test]
fn discovery_of_one_key_binds_one_button() {
    let mut menu: MenuAssets<EMainMenu> = MenuAssets::default();
    menu.discover(Some(vec![(EMainMenu::Quit, node(8))]));
    assert_eq!(menu.buttons().len(), 1);
    assert_eq!(menu.buttons().entry(0), Some((EMainMenu::Quit, node(8))));
    assert!(menu.initialized());
    assert!(!menu.signals_connected());
}

#[test]
fn discovery_keeps_the_first_node_of_a_key_found_twice() {
    let mut menu: MenuAssets<EMainMenu> = MenuAssets::default();
    menu.discover(Some(vec![
        (EMainMenu::Quit, node(2)),
        (EMainMenu::Start, node(1)),
        (EMainMenu::Quit, node(3)),
    ]));
    assert_eq!(menu.buttons().len(), 2);
    assert_eq!(menu.buttons().entry(0), Some((EMainMenu::Start, node(1))));
    assert_eq!(menu.buttons().entry(1), Some((EMainMenu::Quit, node(2))));
}

#[test]
fn failed_discovery_changes_nothing_and_is_due_again() {
    let mut menu: MenuAssets<EMainMenu> = MenuAssets::default();
    menu.discover(None);
    assert_eq!(menu.phase(), Phase::Uninitialized);
    assert_eq!(menu.buttons().len(), 0);
    assert!(menu.not_init());
    menu.discover(Some(start_and_quit()));
    assert_eq!(menu.phase(), Phase::NodesBound);
    assert_eq!(menu.buttons().len(), 2);
}

#[test]
fn discovery_twice_gives_the_same_buttons() {
    let mut menu: MenuAssets<EMainMenu> = MenuAssets::default();
    menu.discover(Some(start_and_quit()));
    menu.discover(Some(start_and_quit()));
    assert_eq!(menu.buttons().len(), 2);
    assert_eq!(menu.buttons().entry(0), Some((EMainMenu::Start, node(1))));
    assert_eq!(menu.buttons().entry(1), Some((EMainMenu::Quit, node(2))));
    assert_eq!(menu.phase(), Phase::NodesBound);
}

#[test]
fn discovery_runs_only_at_the_start() {
    let mut menu: MenuAssets<EMainMenu> = MenuAssets::default();
    menu.discover(Some(vec![(EMainMenu::Start, node(1))]));
    menu.discover(Some(vec![(EMainMenu::Quit, node(2))]));
    assert_eq!(menu.buttons().len(), 1);
    assert_eq!(menu.buttons().get(EMainMenu::Quit), None);
    let mut ready = ready_menu();
    ready.discover(Some(vec![(EMainMenu::Start, node(5))]));
    assert_eq!(ready.phase(), Phase::SignalsConnected);
    assert_eq!(ready.buttons().get(EMainMenu::Start), Some(node(1)));
}

#[test]
fn register_button_ignores_a_key_that_is_taken() {
    let mut menu: MenuAssets<EMainMenu> = MenuAssets::default();
    menu.register_button(EMainMenu::Start, node(1));
    menu.register_button(EMainMenu::Start, node(2));
    assert_eq!(menu.buttons().len(), 1);
    assert_eq!(menu.buttons().get(EMainMenu::Start), Some(node(1)));
    assert_eq!(menu.phase(), Phase::Uninitialized);
}

#[test]
fn discovery_adds_to_buttons_registered_before() {
    let mut menu: MenuAssets<EMainMenu> = MenuAssets::default();
    menu.register_button(EMainMenu::Start, node(7));
    menu.discover(Some(start_and_quit()));
    assert_eq!(menu.buttons().len(), 2);
    assert_eq!(menu.buttons().get(EMainMenu::Start), Some(node(7)));
    assert_eq!(menu.buttons().get(EMainMenu::Quit), Some(node(2)));
}

#[test]
fn connection_connects_both_buttons_and_focuses_the_first() {
    let mut menu: MenuAssets<EMainMenu> = MenuAssets::default();
    menu.discover(Some(vec![(EMainMenu::Quit, node(2)), (EMainMenu::Start, node(1))]));
    let plan = menu.connect_signals();
    assert_eq!(plan.len(), 2);
    assert_connection(&plan[0], node(1), "pressed", true);
    assert_connection(&plan[1], node(2), "pressed", false);
    assert!(menu.signals_connected());
    assert_eq!(menu.phase(), Phase::SignalsConnected);
}

#[test]
fn connection_does_not_run_before_discovery() {
    let mut menu: MenuAssets<EMainMenu> = MenuAssets::default();
    menu.register_button(EMainMenu::Start, node(1));
    let plan = menu.connect_signals();
    assert!(plan.is_empty());
    assert_eq!(menu.phase(), Phase::Uninitialized);
    assert!(!menu.signals_connected());
}

#[test]
fn connection_runs_once_in_an_activation() {
    let mut menu = ready_menu();
    let again = menu.connect_signals();
    assert!(again.is_empty());
    assert_eq!(menu.phase(), Phase::SignalsConnected);
}

#[test]
fn connection_of_a_menu_without_buttons_asks_for_nothing() {
    let mut menu: MenuAssets<EMainMenu> = MenuAssets::default();
    menu.discover(Some(Vec::new()));
    assert_eq!(menu.phase(), Phase::NodesBound);
    let plan = menu.connect_signals();
    assert!(plan.is_empty());
    assert_eq!(menu.phase(), Phase::SignalsConnected);
    assert!(menu.full_init());
}

#[test]
fn dispatch_raises_one_command_per_matching_event() {
    let menu = ready_menu();
    let events = vec![
        pressed(node(2)),
        pressed(node(1)),
        pressed(node(3)),
        pressed(node(2)),
        pressed(node(4)),
    ];
    assert_eq!(
        menu.handle_events(&events),
        vec![EMainMenu::Quit, EMainMenu::Start, EMainMenu::Quit]
    );
}

#[test]
fn dispatch_drops_events_of_unknown_nodes() {
    let menu = ready_menu();
    let events = vec![pressed(node(2)), pressed(node(3))];
    assert_eq!(menu.handle_events(&events), vec![EMainMenu::Quit]);
}

#[test]
fn dispatch_of_no_events_raises_nothing() {
    let menu = ready_menu();
    assert!(menu.handle_events(&Vec::new()).is_empty());
}

#[test]
fn dispatch_goes_by_the_node_whatever_the_signal() {
    let menu = ready_menu();
    let events = vec![SignalEvent {
        name: String::from("mouse_entered"),
        target: node(1),
        args: vec![String::from("1")],
    }];
    assert_eq!(menu.handle_events(&events), vec![EMainMenu::Start]);
}

#[test]
fn dispatch_does_not_run_before_the_menu_is_ready() {
    let mut menu: MenuAssets<EMainMenu> = MenuAssets::default();
    let events = vec![pressed(node(1))];
    assert!(menu.handle_events(&events).is_empty());
    menu.discover(Some(start_and_quit()));
    assert!(menu.handle_events(&events).is_empty());
    menu.connect_signals();
    assert_eq!(menu.handle_events(&events), vec![EMainMenu::Start]);
}

#[test]
fn dispatch_leaves_the_events_to_other_readers() {
    let menu = ready_menu();
    let other = ready_menu();
    let events = vec![pressed(node(1))];
    assert_eq!(menu.handle_events(&events), vec![EMainMenu::Start]);
    assert_eq!(other.handle_events(&events), vec![EMainMenu::Start]);
    assert_eq!(events.len(), 1);
}

#[test]
fn lookup_by_handle_of_a_menu_resolves_its_buttons() {
    let menu = ready_menu();
    assert_eq!(menu.lookup_by_handle(node(1)), Some(EMainMenu::Start));
    assert_eq!(menu.lookup_by_handle(node(2)), Some(EMainMenu::Quit));
    assert_eq!(menu.lookup_by_handle(node(3)), None);
}

#[test]
fn reset_clears_buttons_and_phase_and_keeps_the_name() {
    let mut menu = ready_menu();
    menu.set_name(String::from("Main Menu"));
    menu.reset();
    assert_eq!(menu.name(), "Main Menu");
    assert_eq!(menu.buttons().len(), 0);
    assert_eq!(menu.phase(), Phase::Uninitialized);
    assert!(!menu.initialized());
    assert!(!menu.signals_connected());
}

#[test]
fn reset_twice_is_reset_once() {
    let mut once = ready_menu();
    once.reset();
    let mut twice = ready_menu();
    twice.reset();
    twice.reset();
    assert_eq!(once.name(), twice.name());
    assert_eq!(once.buttons().len(), twice.buttons().len());
    assert_eq!(twice.buttons().len(), 0);
    assert_eq!(once.phase(), twice.phase());
    assert_eq!(twice.phase(), Phase::Uninitialized);
}

#[test]
fn exactly_one_phase_is_due_in_every_state() {
    let mut menu: MenuAssets<EMainMenu> = MenuAssets::default();
    assert_eq!(due(&menu), (true, false, false));
    menu.discover(Some(start_and_quit()));
    assert_eq!(due(&menu), (false, true, false));
    menu.connect_signals();
    assert_eq!(due(&menu), (false, false, true));
    menu.reset();
    assert_eq!(due(&menu), (true, false, false));
}

#[test]
fn reentering_resets_and_rediscovery_starts_from_scratch() {
    let mut menu = ready_menu();
    assert_eq!(menu.phase(), Phase::SignalsConnected);
    menu.reset();
    assert_eq!(menu.phase(), Phase::Uninitialized);
    assert!(menu.not_init());
    menu.discover(Some(vec![(EMainMenu::Quit, node(20))]));
    assert_eq!(menu.buttons().len(), 1);
    assert_eq!(menu.buttons().get(EMainMenu::Quit), Some(node(20)));
    assert_eq!(menu.buttons().get(EMainMenu::Start), None);
    assert_eq!(menu.lookup_by_handle(node(1)), None);
    assert_eq!(menu.lookup_by_handle(node(2)), None);
    assert_eq!(menu.phase(), Phase::NodesBound);
    let plan = menu.connect_signals();
    assert_eq!(plan.len(), 1);
    assert_connection(&plan[0], node(20), "pressed", true);
}
