use shade::input::{InputState, Message, MouseButton, ScreenPoint};

#[test]
fn mouse_button_slots() {
    assert_eq!(MouseButton::Left.as_usize(), 0);
    assert_eq!(MouseButton::Right.as_usize(), 1);
    assert_eq!(MouseButton::Middle.as_usize(), 2);
}

#[test]
fn fresh_state_is_running_with_nothing_pressed() {
    let s = InputState::new();
    assert!(s.is_running);
    assert_eq!(s.mouse.button, vec![false; 3]);
    assert_eq!(s.keyboard.key.len(), 512);
    assert!(s.keyboard.key.iter().all(|k| !k));
    assert_eq!(s.mouse.point, ScreenPoint { x: 0, y: 0 });
}

#[test]
fn quit_stops_the_loop() {
    let mut s = InputState::new();
    s.process_input(Message::Quit);
    assert!(!s.is_running);
}

#[test]
fn silence_changes_nothing() {
    let mut s = InputState::new();
    s.process_input(Message::Silence);
    assert!(s.is_running);
    assert_eq!(s.mouse.point, ScreenPoint { x: 0, y: 0 });
}

#[test]
fn key_events_toggle_the_key_slot() {
    let mut s = InputState::new();
    s.process_input(Message::KeyDown(65));
    assert!(s.keyboard.key[65]);
    s.process_input(Message::KeyUp(65));
    assert!(!s.keyboard.key[65]);
}

#[test]
fn mouse_press_records_position_and_drag_start() {
    let mut s = InputState::new();
    s.process_input(Message::MouseDown(MouseButton::Left, 10, 20));
    assert!(s.mouse.button[0]);
    assert_eq!(s.mouse.point, ScreenPoint { x: 10, y: 20 });
    assert_eq!(s.mouse_start, ScreenPoint { x: 10, y: 20 });
    s.process_input(Message::MouseMove(30, 40));
    assert_eq!(s.mouse.point, ScreenPoint { x: 30, y: 40 });
    assert_eq!(s.mouse_start, ScreenPoint { x: 10, y: 20 });
    s.process_input(Message::MouseUp(MouseButton::Left, 31, 41));
    assert!(!s.mouse.button[0]);
    assert_eq!(s.mouse.point, ScreenPoint { x: 31, y: 41 });
    assert_eq!(s.mouse_start, ScreenPoint { x: 10, y: 20 });
}
