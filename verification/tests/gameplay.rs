use menu_plugin::killplane::{
    activate_timer, connect_signals, detect_collision, initialized, kill, not_init, reset,
    tick_timer, RKillTimer, RKillplanes, BODY_ENTERED,
};
use menu_plugin::player::{set_animation, EPlayerMovement, IDLE, JUMP, RUN};
use menu_plugin::{GameState, NodeHandle, SignalEvent};

fn node(id: i64) -> NodeHandle {
    NodeHandle::new(id).unwrap()
}

fn event(name: &str, target: NodeHandle) -> SignalEvent {
    SignalEvent { name: String::from(name), target, args: Vec::new() }
}

#[test]
fn kill_planes_start_unconnected() {
    let killplanes = RKillplanes::default();
    assert!(not_init(&killplanes));
    assert!(!initialized(&killplanes));
}

#[test]
fn kill_planes_are_connected_to_body_entered() {
    let mut killplanes = RKillplanes::default();
    let plan = connect_signals(&vec![node(4), node(5)], &mut killplanes);
    assert_eq!(BODY_ENTERED, "body_entered");
    assert_eq!(plan.len(), 2);
    assert_eq!(plan[0].target, node(4));
    assert_eq!(plan[0].signal, "body_entered");
    assert!(!plan[0].grab_focus);
    assert_eq!(plan[1].target, node(5));
    assert_eq!(plan[1].signal, "body_entered");
    assert!(!plan[1].grab_focus);
    assert!(initialized(&killplanes));
    assert!(!not_init(&killplanes));
}

#[test]
fn kill_planes_are_connected_once() {
    let mut killplanes = RKillplanes::default();
    connect_signals(&vec![node(4)], &mut killplanes);
    let again = connect_signals(&vec![node(4)], &mut killplanes);
    assert!(again.is_empty());
    assert!(initialized(&killplanes));
}

#[test]
fn a_level_without_kill_planes_counts_as_connected() {
    let mut killplanes = RKillplanes::default();
    let plan = connect_signals(&Vec::new(), &mut killplanes);
    assert!(plan.is_empty());
    assert!(initialized(&killplanes));
}

#[test]
fn reset_of_the_kill_planes_makes_the_connection_due_again() {
    let mut killplanes = RKillplanes::default();
    connect_signals(&vec![node(4)], &mut killplanes);
    reset(&mut killplanes);
    assert!(not_init(&killplanes));
    reset(&mut killplanes);
    assert!(not_init(&killplanes));
    let plan = connect_signals(&vec![node(6)], &mut killplanes);
    assert_eq!(plan.len(), 1);
    assert_eq!(plan[0].target, node(6));
}

#[test]
fn a_body_that_enters_a_kill_plane_is_detected() {
    let killplanes = vec![node(4), node(5)];
    assert!(detect_collision(&killplanes, &vec![event("body_entered", node(5))]));
    assert!(detect_collision(
        &killplanes,
        &vec![event("pressed", node(1)), event("body_entered", node(9)), event("body_entered", node(4))]
    ));
}

#[test]
fn other_signals_and_other_nodes_are_no_collision() {
    let killplanes = vec![node(4), node(5)];
    assert!(!detect_collision(&killplanes, &Vec::new()));
    assert!(!detect_collision(&Vec::new(), &vec![event("body_entered", node(4))]));
    assert!(!detect_collision(&killplanes, &vec![event("body_exited", node(4))]));
    assert!(!detect_collision(&killplanes, &vec![event("body_entered", node(6))]));
    assert!(!detect_collision(
        &killplanes,
        &vec![event("pressed", node(4)), event("body_entered", node(7))]
    ));
}

#[test]
fn the_kill_timer_starts_when_the_player_dies() {
    let mut timer = RKillTimer::default();
    assert!(!tick_timer(&timer));
    assert!(!activate_timer(&mut timer, 0));
    assert!(!tick_timer(&timer));
    assert!(activate_timer(&mut timer, 1));
    assert!(tick_timer(&timer));
    assert!(!activate_timer(&mut timer, 0));
    assert!(tick_timer(&timer));
    assert!(activate_timer(&mut timer, 3));
    assert!(tick_timer(&timer));
}

#[test]
fn the_level_is_reloaded_when_the_kill_timer_runs_out() {
    let mut timer = RKillTimer::default();
    activate_timer(&mut timer, 1);
    assert_eq!(kill(&mut timer, false), None);
    assert!(tick_timer(&timer));
    assert_eq!(kill(&mut timer, true), Some(GameState::Loading));
    assert!(!tick_timer(&timer));
    assert_eq!(timer, RKillTimer::default());
}

#[test]
fn a_player_in_the_air_jumps() {
    let airborne = EPlayerMovement { is_moving: true, grounded: false, facing_left: true };
    let animation = set_animation(&airborne);
    assert_eq!(animation.name, "jump");
    assert_eq!(animation.name, JUMP);
    assert_eq!(animation.flip_h, None);
}

#[test]
fn a_player_on_the_ground_runs_the_way_it_faces() {
    let left = EPlayerMovement { is_moving: true, grounded: true, facing_left: true };
    let right = EPlayerMovement { is_moving: true, grounded: true, facing_left: false };
    assert_eq!(set_animation(&left).name, "run");
    assert_eq!(set_animation(&left).name, RUN);
    assert_eq!(set_animation(&left).flip_h, Some(true));
    assert_eq!(set_animation(&right).name, "run");
    assert_eq!(set_animation(&right).flip_h, Some(false));
}

#[test]
fn a_player_who_stands_idles() {
    let standing = EPlayerMovement { is_moving: false, grounded: true, facing_left: true };
    let animation = set_animation(&standing);
    assert_eq!(animation.name, "idle");
    assert_eq!(animation.name, IDLE);
    assert_eq!(animation.flip_h, None);
}
