use openterm_rdp::input::{
    keyboard_input, mouse_button_input, mouse_wheel_input, FastPathInput, InputBatcher, InputEvent, KBD_EXTENDED,
    KBD_RELEASE, PTR_DOWN, PTR_LEFT_BUTTON, PTR_MIDDLE_BUTTON, PTR_MOVE, PTR_RIGHT_BUTTON, PTR_VERTICAL_WHEEL,
    PTR_WHEEL_NEGATIVE,
};

#[test]
fn many_moves_leave_one_move() {
    let mut b = InputBatcher::new(0);
    for i in 0..25u16 {
        b.add_event(InputEvent::MouseMove { x: i, y: i }, 1);
    }
    let out = b.flush(2);
    assert_eq!(out, vec![InputEvent::MouseMove { x: 24, y: 24 }]);
}

#[test]
fn moves_keep_other_events_in_order() {
    let mut b = InputBatcher::new(0);
    b.add_event(InputEvent::MouseMove { x: 1, y: 1 }, 0);
    b.add_event(InputEvent::MouseWheel { delta: 3, x: 1, y: 1 }, 0);
    b.add_event(InputEvent::MouseMove { x: 2, y: 2 }, 0);
    let out = b.flush(0);
    assert_eq!(out, vec![InputEvent::MouseWheel { delta: 3, x: 1, y: 1 }, InputEvent::MouseMove { x: 2, y: 2 }]);
}

#[test]
fn button_flushes_at_once() {
    let mut b = InputBatcher::new(100);
    assert!(!b.add_event(InputEvent::MouseMove { x: 1, y: 1 }, 100));
    assert!(b.add_event(InputEvent::MouseButton { button: 1, down: true, x: 1, y: 1 }, 100));
    assert!(b.should_flush(100));
}

#[test]
fn key_flushes_at_once() {
    let mut b = InputBatcher::new(0);
    assert!(b.add_event(InputEvent::Keyboard { scancode: 0x1e, down: true }, 0));
}

#[test]
fn full_queue_flushes() {
    let mut b = InputBatcher::new(0);
    for i in 0..9i16 {
        assert!(!b.add_event(InputEvent::MouseWheel { delta: i, x: 0, y: 0 }, 0));
    }
    assert!(b.add_event(InputEvent::MouseWheel { delta: 9, x: 0, y: 0 }, 0));
}

#[test]
fn waiting_long_enough_flushes() {
    let mut b = InputBatcher::new(1000);
    assert!(!b.add_event(InputEvent::MouseMove { x: 5, y: 5 }, 1015));
    assert!(b.should_flush(1016));
}

#[test]
fn empty_queue_never_flushes() {
    let b = InputBatcher::new(0);
    assert!(!b.should_flush(1_000_000));
}

#[test]
fn maybe_flush_hands_out_only_when_due() {
    let mut b = InputBatcher::new(0);
    b.add_event(InputEvent::MouseMove { x: 5, y: 5 }, 0);
    assert!(b.maybe_flush(3).is_empty());
    assert_eq!(b.maybe_flush(20), vec![InputEvent::MouseMove { x: 5, y: 5 }]);
    assert!(b.flush(21).is_empty());
}

#[test]
fn fast_path_button_flags() {
    assert_eq!(
        mouse_button_input(1, true, 3, 4),
        FastPathInput::Mouse { flags: PTR_DOWN | PTR_LEFT_BUTTON, wheel_rotation_units: 0, x: 3, y: 4 }
    );
    assert_eq!(
        mouse_button_input(2, false, 0, 0),
        FastPathInput::Mouse { flags: PTR_RIGHT_BUTTON, wheel_rotation_units: 0, x: 0, y: 0 }
    );
    assert_eq!(
        mouse_button_input(3, true, 0, 0),
        FastPathInput::Mouse { flags: PTR_DOWN | PTR_MIDDLE_BUTTON, wheel_rotation_units: 0, x: 0, y: 0 }
    );
    assert_eq!(
        mouse_button_input(9, false, 0, 0),
        FastPathInput::Mouse { flags: PTR_LEFT_BUTTON, wheel_rotation_units: 0, x: 0, y: 0 }
    );
}

#[test]
fn fast_path_wheel_and_move() {
    assert_eq!(
        mouse_wheel_input(-120, 1, 2),
        FastPathInput::Mouse { flags: PTR_VERTICAL_WHEEL | PTR_WHEEL_NEGATIVE, wheel_rotation_units: -120, x: 1, y: 2 }
    );
    assert_eq!(
        mouse_wheel_input(120, 1, 2),
        FastPathInput::Mouse { flags: PTR_VERTICAL_WHEEL, wheel_rotation_units: 120, x: 1, y: 2 }
    );
    assert_eq!(
        InputEvent::MouseMove { x: 7, y: 8 }.to_fastpath(),
        FastPathInput::Mouse { flags: PTR_MOVE, wheel_rotation_units: 0, x: 7, y: 8 }
    );
}

#[test]
fn fast_path_keyboard_flags() {
    assert_eq!(keyboard_input(0x1e, true), FastPathInput::Keyboard { key_flags: 0, scancode: 0x1e });
    assert_eq!(keyboard_input(0x1e, false), FastPathInput::Keyboard { key_flags: KBD_RELEASE, scancode: 0x1e });
    assert_eq!(
        keyboard_input(0x148, false),
        FastPathInput::Keyboard { key_flags: KBD_RELEASE | KBD_EXTENDED, scancode: 0x48 }
    );
}
