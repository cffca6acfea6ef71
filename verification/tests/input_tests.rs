use engine::input::{handle_event, Event, InputHandler, Key, Reaction};

#[test]
fn nothing_is_held_at_first() {
    let input = InputHandler::new((10, 20));
    assert_eq!(input.forward(), 0);
    assert_eq!(input.right(), 0);
    assert_eq!(input.mouse_diff_x(), 0);
    assert_eq!(input.mouse_diff_y(), 0);
}

#[test]
fn mouse_movement_is_measured_from_the_last_position() {
    let mut input = InputHandler::new((10, 20));
    input.handle_mouse((13, 15));
    assert_eq!((input.mouse_diff_x(), input.mouse_diff_y()), (3, -5));
    input.handle_mouse((13, 15));
    assert_eq!((input.mouse_diff_x(), input.mouse_diff_y()), (0, 0));
    input.handle_mouse((-7, 0));
    assert_eq!((input.mouse_diff_x(), input.mouse_diff_y()), (-20, -15));
}

#[test]
fn last_pressed_key_wins() {
    let mut input = InputHandler::new((0, 0));
    input.handle_key_press(Key::W);
    assert_eq!(input.forward(), 1);
    input.handle_key_press(Key::S);
    assert_eq!(input.forward(), -1);
    input.handle_key_press(Key::D);
    assert_eq!(input.right(), 1);
    input.handle_key_press(Key::A);
    assert_eq!(input.right(), -1);
    assert_eq!(input.forward(), -1);
}

#[test]
fn releasing_falls_back_to_the_opposite_key() {
    let mut input = InputHandler::new((0, 0));
    input.handle_key_press(Key::W);
    input.handle_key_press(Key::S);
    input.handle_key_release(Key::S);
    assert_eq!(input.forward(), 1);
    input.handle_key_release(Key::W);
    assert_eq!(input.forward(), 0);
    input.handle_key_press(Key::S);
    input.handle_key_press(Key::W);
    input.handle_key_release(Key::W);
    assert_eq!(input.forward(), -1);
    input.handle_key_press(Key::A);
    input.handle_key_press(Key::D);
    input.handle_key_release(Key::D);
    assert_eq!(input.right(), -1);
    input.handle_key_release(Key::A);
    assert_eq!(input.right(), 0);
    input.handle_key_press(Key::D);
    input.handle_key_press(Key::A);
    input.handle_key_release(Key::A);
    assert_eq!(input.right(), 1);
}

#[test]
fn releasing_a_key_that_was_not_held() {
    let mut input = InputHandler::new((0, 0));
    input.handle_key_release(Key::W);
    assert_eq!(input.forward(), 0);
    input.handle_key_press(Key::S);
    input.handle_key_release(Key::W);
    assert_eq!(input.forward(), -1);
}

#[test]
fn other_keys_steer_nothing() {
    let mut input = InputHandler::new((0, 0));
    for key in [Key::Space, Key::Escape, Key::E, Key::T, Key::Other] {
        input.handle_key_press(key);
        assert_eq!((input.forward(), input.right()), (0, 0));
        input.handle_key_release(key);
        assert_eq!((input.forward(), input.right()), (0, 0));
    }
}

#[test]
fn command_keys_do_not_reach_the_input_state() {
    let mut input = InputHandler::new((0, 0));
    assert_eq!(handle_event(Event::KeyPress(Key::Escape), &mut input), Reaction::Stop);
    assert_eq!(handle_event(Event::KeyPress(Key::T), &mut input), Reaction::CenterMouse);
    assert_eq!(handle_event(Event::KeyPress(Key::E), &mut input), Reaction::UncenterMouse);
    assert_eq!((input.forward(), input.right()), (0, 0));
}

#[test]
fn movement_keys_reach_the_input_state() {
    let mut input = InputHandler::new((0, 0));
    assert_eq!(handle_event(Event::KeyPress(Key::W), &mut input), Reaction::Nothing);
    assert_eq!(input.forward(), 1);
    assert_eq!(handle_event(Event::KeyPress(Key::A), &mut input), Reaction::Nothing);
    assert_eq!(input.right(), -1);
    assert_eq!(handle_event(Event::KeyRelease(Key::W), &mut input), Reaction::Nothing);
    assert_eq!(input.forward(), 0);
    assert_eq!(handle_event(Event::KeyRelease(Key::Escape), &mut input), Reaction::Nothing);
    assert_eq!(input.right(), -1);
}

#[test]
fn resize_is_passed_on_and_the_rest_is_ignored() {
    let mut input = InputHandler::new((3, 4));
    assert_eq!(
        handle_event(Event::WindowResize(1280, 720), &mut input),
        Reaction::Resize(1280, 720)
    );
    assert_eq!(handle_event(Event::MouseMove(50, 60), &mut input), Reaction::Nothing);
    assert_eq!(handle_event(Event::Ignored, &mut input), Reaction::Nothing);
    assert_eq!((input.mouse_diff_x(), input.mouse_diff_y()), (0, 0));
    assert_eq!((input.forward(), input.right()), (0, 0));
}
