use game_engine::test_helpers::{InputEvent, InputSimulator, KeyCode};

#[test]
fn test_input_simulator_basic_operations() {
    let mut input = InputSimulator::new();

    // Initially no keys pressed
    assert!(!input.is_key_pressed(KeyCode::W));
    assert!(!input.is_key_pressed(KeyCode::Space));
    assert_eq!(input.event_count(), 0);

    // Press W
    input.press_key(KeyCode::W);
    assert!(input.is_key_pressed(KeyCode::W));
    assert_eq!(input.event_count(), 1);

    // Check event
    let event = input.pop_event().unwrap();
    assert_eq!(event.key, KeyCode::W);
    assert!(event.pressed);
    assert_eq!(input.event_count(), 0);

    // Release W
    input.release_key(KeyCode::W);
    assert!(!input.is_key_pressed(KeyCode::W));
    assert_eq!(input.event_count(), 1);
}

#[test]
fn test_input_simulator_get_movement_state() {
    let mut input = InputSimulator::new();

    // Initial state - all false
    let state = input.get_movement_state();
    assert_eq!(state, (false, false, false, false, false));

    // Press WASD and Space
    input.press_key(KeyCode::W);
    input.press_key(KeyCode::A);
    input.press_key(KeyCode::S);
    input.press_key(KeyCode::D);
    input.press_key(KeyCode::Space);

    let state = input.get_movement_state();
    assert_eq!(state, (true, true, true, true, true));

    // Release W and Space
    input.release_key(KeyCode::W);
    input.release_key(KeyCode::Space);

    let state = input.get_movement_state();
    assert_eq!(state, (false, true, true, true, false));
}

#[test]
fn test_input_simulator_clear() {
    let mut input = InputSimulator::new();

    input.press_key(KeyCode::W);
    input.press_key(KeyCode::Space);
    assert!(input.is_key_pressed(KeyCode::W));
    assert!(input.is_key_pressed(KeyCode::Space));
    assert_eq!(input.event_count(), 2);

    input.clear();

    assert!(!input.is_key_pressed(KeyCode::W));
    assert!(!input.is_key_pressed(KeyCode::Space));
    assert_eq!(input.event_count(), 0);
}

#[test]
fn events_come_out_first_in_first_out() {
    let mut input = InputSimulator::default();
    input.press_key(KeyCode::A);
    input.release_key(KeyCode::D);
    input.press_key(KeyCode::Space);
    assert_eq!(input.pop_event(), Some(InputEvent::new(KeyCode::A, true)));
    assert_eq!(input.pop_event(), Some(InputEvent::new(KeyCode::D, false)));
    assert_eq!(input.pop_event(), Some(InputEvent::new(KeyCode::Space, true)));
    assert_eq!(input.pop_event(), None);
    assert_eq!(input.event_count(), 0);
}

#[test]
fn pressing_one_key_leaves_others_alone() {
    let mut input = InputSimulator::new();
    input.press_key(KeyCode::S);
    input.press_key(KeyCode::D);
    input.release_key(KeyCode::S);
    assert!(!input.is_key_pressed(KeyCode::S));
    assert!(input.is_key_pressed(KeyCode::D));
    assert!(!input.is_key_pressed(KeyCode::W));
    // popping events does not change which keys are held
    while input.pop_event().is_some() {}
    assert!(input.is_key_pressed(KeyCode::D));
}

#[test]
fn key_state_and_queue_follow_the_calls_since_clear() {
    let mut input = InputSimulator::new();
    input.press_key(KeyCode::W);
    input.release_key(KeyCode::W);
    input.press_key(KeyCode::W);
    input.press_key(KeyCode::D);
    assert!(input.pop_event().is_some());
    // the latest call for W was a press; popping does not change it
    assert!(input.is_key_pressed(KeyCode::W));
    assert!(input.is_key_pressed(KeyCode::D));
    assert_eq!(input.event_count(), 3);
    input.clear();
    input.press_key(KeyCode::A);
    input.release_key(KeyCode::S);
    assert!(!input.is_key_pressed(KeyCode::W));
    assert!(!input.is_key_pressed(KeyCode::D));
    assert!(input.is_key_pressed(KeyCode::A));
    assert!(!input.is_key_pressed(KeyCode::S));
    assert_eq!(input.event_count(), 2);
    assert!(input.pop_event().is_some());
    assert!(input.pop_event().is_some());
    assert!(input.pop_event().is_none());
    assert_eq!(input.event_count(), 0);
}
