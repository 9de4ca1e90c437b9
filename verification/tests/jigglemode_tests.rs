use tractyl_core::events::{Action, KeyAction, KeyboardEvent, LayerChangeEvent};
use tractyl_core::jigglemode::{JiggleController, JiggleEvent};

fn toggle_press() -> KeyboardEvent {
    KeyboardEvent {
        pressed: true,
        action: KeyAction::Single(Action::User(0)),
    }
}

#[test]
fn toggle_twice_restores_state() {
    let mut c = JiggleController::new();
    let original = c;
    let first = c.on_keyboard_event(toggle_press());
    assert_eq!(first, Some(JiggleEvent(true)));
    assert!(c.active);
    let second = c.on_keyboard_event(toggle_press());
    assert_eq!(second, Some(JiggleEvent(false)));
    assert_eq!(c, original);
}

#[test]
fn release_of_toggle_key_is_ignored() {
    let mut c = JiggleController::new();
    let release = KeyboardEvent {
        pressed: false,
        action: KeyAction::Single(Action::User(0)),
    };
    assert_eq!(c.on_keyboard_event(release), None);
    assert!(!c.active);
}

#[test]
fn other_keys_are_ignored() {
    let mut c = JiggleController::new();
    let other_user = KeyboardEvent {
        pressed: true,
        action: KeyAction::Single(Action::User(1)),
    };
    let plain = KeyboardEvent {
        pressed: true,
        action: KeyAction::Other,
    };
    assert_eq!(c.on_keyboard_event(other_user), None);
    assert_eq!(c.on_keyboard_event(plain), None);
    assert!(!c.active);
}

#[test]
fn active_ticks_alternate_direction() {
    let mut c = JiggleController::new();
    c.on_keyboard_event(toggle_press());
    let r1 = c.poll().expect("active tick must report");
    let r2 = c.poll().expect("active tick must report");
    let r3 = c.poll().expect("active tick must report");
    assert_eq!(r1.x, -20);
    assert_eq!(r1.y, -20);
    assert_eq!(r2.x, 20);
    assert_eq!(r2.y, 20);
    assert_eq!(r1.x + r2.x, 0);
    assert_eq!(r1.y + r2.y, 0);
    assert_eq!(r3.x, -20);
    assert_eq!(r1.buttons, 0);
    assert_eq!(r1.wheel, 0);
    assert_eq!(r1.pan, 0);
}

#[test]
fn inactive_ticks_emit_nothing() {
    let mut c = JiggleController::new();
    for _ in 0..5 {
        assert_eq!(c.poll(), None);
    }
    assert_eq!(c, JiggleController::new());
}

#[test]
fn toggling_off_silences_ticks() {
    let mut c = JiggleController::new();
    c.on_keyboard_event(toggle_press());
    assert!(c.poll().is_some());
    c.on_keyboard_event(toggle_press());
    assert_eq!(c.poll(), None);
}

#[test]
fn layer_change_updates_recorded_layer() {
    let mut c = JiggleController::new();
    c.on_layer_change_event(LayerChangeEvent { layer: 3 });
    assert_eq!(c.current_layer, 3);
    assert!(!c.active);
    assert!(!c.tick_tock);
}
