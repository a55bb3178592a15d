use menu_plugin::main_menu::EMainMenu;
use menu_plugin::{ButtonRegistry, EventKey, NodeHandle};

fn node(id: i64) -> NodeHandle {
    NodeHandle::new(id).unwrap()
}

#[test]
fn zero_names_no_node() {
    assert!(NodeHandle::new(0).is_none());
}

#[test]
fn handle_keeps_its_instance_number() {
    assert_eq!(node(42).id(), 42);
    assert_eq!(node(-7).id(), -7);
    assert_eq!(NodeHandle::new(i64::MIN).unwrap().id(), i64::MIN);
}

#[test]
fn handles_are_equal_by_identity() {
    assert_eq!(node(5), node(5));
    assert_ne!(node(5), node(6));
}

#[test]
fn keys_of_the_main_menu_are_ordered_start_then_quit() {
    assert_eq!(EMainMenu::Start.ordinal(), 0);
    assert_eq!(EMainMenu::Quit.ordinal(), 1);
    assert!(EMainMenu::Start < EMainMenu::Quit);
}

#[test]
fn new_registry_is_empty() {
    let registry: ButtonRegistry<EMainMenu> = ButtonRegistry::new();
    assert_eq!(registry.len(), 0);
    assert_eq!(registry.entry(0), None);
    assert_eq!(registry.get(EMainMenu::Start), None);
    assert_eq!(registry.lookup_by_handle(node(1)), None);
}

#[test]
fn register_inserts_an_absent_key() {
    let mut registry: ButtonRegistry<EMainMenu> = ButtonRegistry::new();
    registry.register(EMainMenu::Start, node(1));
    assert_eq!(registry.len(), 1);
    assert_eq!(registry.get(EMainMenu::Start), Some(node(1)));
    assert_eq!(registry.get(EMainMenu::Quit), None);
}

#[test]
fn register_keeps_the_first_node_of_a_key() {
    let mut registry: ButtonRegistry<EMainMenu> = ButtonRegistry::new();
    registry.register(EMainMenu::Quit, node(2));
    registry.register(EMainMenu::Quit, node(3));
    assert_eq!(registry.len(), 1);
    assert_eq!(registry.get(EMainMenu::Quit), Some(node(2)));
    assert_eq!(registry.lookup_by_handle(node(3)), None);
}

#[test]
fn register_is_idempotent_under_the_same_pair() {
    let mut registry: ButtonRegistry<EMainMenu> = ButtonRegistry::new();
    registry.register(EMainMenu::Start, node(1));
    registry.register(EMainMenu::Start, node(1));
    assert_eq!(registry.len(), 1);
    assert_eq!(registry.entry(0), Some((EMainMenu::Start, node(1))));
}

#[test]
fn entries_come_in_the_order_of_the_keys() {
    let mut registry: ButtonRegistry<EMainMenu> = ButtonRegistry::new();
    registry.register(EMainMenu::Quit, node(2));
    registry.register(EMainMenu::Start, node(1));
    assert_eq!(registry.len(), 2);
    assert_eq!(registry.entry(0), Some((EMainMenu::Start, node(1))));
    assert_eq!(registry.entry(1), Some((EMainMenu::Quit, node(2))));
    assert_eq!(registry.entry(2), None);
}

#[test]
fn lookup_by_handle_finds_the_key_of_a_node() {
    let mut registry: ButtonRegistry<EMainMenu> = ButtonRegistry::new();
    registry.register(EMainMenu::Start, node(1));
    registry.register(EMainMenu::Quit, node(2));
    assert_eq!(registry.lookup_by_handle(node(1)), Some(EMainMenu::Start));
    assert_eq!(registry.lookup_by_handle(node(2)), Some(EMainMenu::Quit));
    assert_eq!(registry.lookup_by_handle(node(3)), None);
}

#[test]
fn lookup_by_handle_takes_the_first_key_of_a_shared_node() {
    let mut registry: ButtonRegistry<EMainMenu> = ButtonRegistry::new();
    registry.register(EMainMenu::Quit, node(9));
    registry.register(EMainMenu::Start, node(9));
    assert_eq!(registry.lookup_by_handle(node(9)), Some(EMainMenu::Start));
}
