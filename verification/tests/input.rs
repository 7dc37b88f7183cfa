use yamengine::input::{ElementState, Input, InputEvent};

fn key(keycode: u32, state: ElementState) -> InputEvent {
    InputEvent::KeyboardInput { keycode, state }
}

fn button(button: u32, state: ElementState) -> InputEvent {
    InputEvent::MouseInput { button, state }
}

#[test]
fn key_goes_through_its_states() {
    let mut input = Input::new();
    assert!(input.keyboard.released(7));
    assert!(!input.keyboard.pressed(7));

    input.apply(&vec![key(7, ElementState::Pressed)]);
    assert!(input.keyboard.just_pressed(7));
    assert!(!input.keyboard.pressed(7));

    input.apply(&vec![]);
    assert!(input.keyboard.pressed(7));
    assert!(!input.keyboard.just_pressed(7));

    // A repeated press of a held key keeps it held.
    input.apply(&vec![key(7, ElementState::Pressed)]);
    assert!(input.keyboard.pressed(7));
    assert!(!input.keyboard.just_pressed(7));

    input.apply(&vec![key(7, ElementState::Released)]);
    assert!(input.keyboard.just_released(7));
    assert!(!input.keyboard.released(7));

    input.apply(&vec![]);
    assert!(input.keyboard.released(7));
    assert!(!input.keyboard.just_released(7));
}

#[test]
fn press_and_release_in_one_frame_reads_as_just_released() {
    let mut input = Input::new();
    input.apply(&vec![key(3, ElementState::Pressed), key(3, ElementState::Released)]);
    assert!(input.keyboard.just_released(3));
    assert!(!input.keyboard.just_pressed(3));
}

#[test]
fn mouse_buttons_and_cursor() {
    let mut input = Input::new();
    assert!(input.mouse.cursor_left());
    input.apply(&vec![button(1, ElementState::Pressed), InputEvent::CursorEntered]);
    assert!(input.mouse.just_pressed(1));
    assert!(input.mouse.cursor_just_entered());
    assert!(!input.mouse.cursor_entered());

    input.apply(&vec![]);
    assert!(input.mouse.pressed(1));
    assert!(input.mouse.cursor_entered());

    // A mouse press always reads as a new press.
    input.apply(&vec![button(1, ElementState::Pressed)]);
    assert!(input.mouse.just_pressed(1));

    input.apply(&vec![button(1, ElementState::Released), InputEvent::CursorLeft]);
    assert!(input.mouse.just_released(1));
    assert!(input.mouse.cursor_just_left());

    input.apply(&vec![]);
    assert!(input.mouse.released(1));
    assert!(input.mouse.cursor_left());
    assert!(input.mouse.released(2));
    assert!(!input.mouse.pressed(2));
}

#[test]
fn untouched_keys_only_settle() {
    let mut input = Input::new();
    input.apply(&vec![key(1, ElementState::Pressed), key(2, ElementState::Released)]);
    input.apply(&vec![key(5, ElementState::Pressed)]);
    assert!(input.keyboard.pressed(1));
    assert!(input.keyboard.released(2));
    assert!(input.keyboard.just_pressed(5));
}

#[test]
fn release_all_releases_every_known_button() {
    let mut input = Input::new();
    input.apply(&vec![
        key(4, ElementState::Pressed),
        button(0, ElementState::Pressed),
        InputEvent::CursorEntered,
    ]);
    input.release_all();
    assert!(input.keyboard.released(4));
    assert!(input.mouse.released(0));
    assert!(!input.keyboard.just_pressed(4));
    assert!(input.mouse.cursor_just_entered());
}

#[test]
fn the_last_event_of_a_frame_decides() {
    let mut input = Input::new();
    input.apply(&vec![key(9, ElementState::Pressed)]);
    input.apply(&vec![]);
    assert!(input.keyboard.pressed(9));
    // Presses of a held key are repeats.
    input.apply(&vec![key(9, ElementState::Pressed), key(9, ElementState::Pressed)]);
    assert!(input.keyboard.pressed(9));
    // Once it went up in the frame, a later press is a new press.
    input.apply(&vec![key(9, ElementState::Released), key(9, ElementState::Pressed)]);
    assert!(input.keyboard.just_pressed(9));
    input.apply(&vec![
        button(2, ElementState::Pressed),
        button(2, ElementState::Released),
        InputEvent::CursorEntered,
        InputEvent::CursorLeft,
        button(5, ElementState::Released),
        button(5, ElementState::Pressed),
    ]);
    assert!(input.mouse.just_released(2));
    assert!(input.mouse.just_pressed(5));
    assert!(input.mouse.cursor_just_left());
    // Keys without events only settle.
    assert!(input.keyboard.pressed(9));
}
