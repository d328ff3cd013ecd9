use keyboard_types::Modifiers;
use scope_arena::geometry::{ClientPoint, Coordinates, ElementPoint, PagePoint, ScreenPoint};
use scope_arena::input_data::{
    decode_mouse_button_set, encode_mouse_button_set, MouseButton, MouseButtonSet,
};
use scope_arena::mouse::MouseEvent;

fn somewhere() -> Coordinates {
    Coordinates::new(
        ScreenPoint { x: 1, y: 2 },
        ClientPoint { x: 3, y: 4 },
        ElementPoint { x: 5, y: 6 },
        PagePoint { x: -7, y: 8 },
    )
}

fn buttons(list: &[MouseButton]) -> MouseButtonSet {
    let mut set = MouseButtonSet::empty();
    for button in list {
        set.insert(*button);
    }
    set
}

#[test]
fn event_keeps_its_coordinates() {
    let event = MouseEvent::new(somewhere(), None, MouseButtonSet::empty(), Modifiers::empty());
    assert_eq!(event.screen_coordinates(), ScreenPoint { x: 1, y: 2 });
    assert_eq!(event.client_coordinates(), ClientPoint { x: 3, y: 4 });
    assert_eq!(event.element_coordinates(), ElementPoint { x: 5, y: 6 });
    assert_eq!(event.page_coordinates(), PagePoint { x: -7, y: 8 });
    assert_eq!(event.coordinates(), somewhere());
    assert_eq!((event.client_x, event.client_y), (3, 4));
    assert_eq!((event.offset_x, event.offset_y), (5, 6));
    assert_eq!((event.page_x, event.page_y), (-7, 8));
    assert_eq!((event.screen_x, event.screen_y), (1, 2));
}

#[test]
fn event_records_the_four_modifiers() {
    let held = Modifiers::ALT | Modifiers::SHIFT | Modifiers::CAPS_LOCK;
    let event = MouseEvent::new(somewhere(), None, MouseButtonSet::empty(), held);
    assert!(event.alt_key);
    assert!(!event.ctrl_key);
    assert!(!event.meta_key);
    assert!(event.shift_key);
    assert_eq!(event.modifiers(), Modifiers::ALT | Modifiers::SHIFT);
    assert_eq!(event.modifiers().bits(), 0x201);
}

#[test]
fn each_modifier_is_told_apart() {
    let all = [Modifiers::ALT, Modifiers::CONTROL, Modifiers::META, Modifiers::SHIFT];
    for flag in all {
        let event = MouseEvent::new(somewhere(), None, MouseButtonSet::empty(), flag);
        assert_eq!(event.alt_key, flag == Modifiers::ALT);
        assert_eq!(event.ctrl_key, flag == Modifiers::CONTROL);
        assert_eq!(event.meta_key, flag == Modifiers::META);
        assert_eq!(event.shift_key, flag == Modifiers::SHIFT);
        assert_eq!(event.modifiers(), flag);
    }
    let none = MouseEvent::new(somewhere(), None, MouseButtonSet::empty(), Modifiers::empty());
    assert_eq!(none.modifiers(), Modifiers::empty());
    let every = MouseEvent::new(somewhere(), None, MouseButtonSet::empty(), Modifiers::all());
    assert_eq!(
        every.modifiers(),
        Modifiers::ALT | Modifiers::CONTROL | Modifiers::META | Modifiers::SHIFT
    );
    assert_eq!(every.modifiers().bits(), 0x249);
}

#[test]
fn trigger_button_goes_through_its_web_code() {
    let cases = [
        (MouseButton::Primary, 0),
        (MouseButton::Auxiliary, 1),
        (MouseButton::Secondary, 2),
        (MouseButton::Fourth, 3),
        (MouseButton::Fifth, 4),
        (MouseButton::Unknown, -1),
    ];
    for (button, code) in cases {
        assert_eq!(button.into_web_code(), code);
        assert_eq!(MouseButton::from_web_code(code), button);
        let event =
            MouseEvent::new(somewhere(), Some(button), MouseButtonSet::empty(), Modifiers::empty());
        assert_eq!(event.button, code);
        assert_eq!(event.trigger_button(), Some(button));
    }
    assert_eq!(MouseButton::from_web_code(5), MouseButton::Unknown);
    assert_eq!(MouseButton::from_web_code(i16::MIN), MouseButton::Unknown);
    let none = MouseEvent::new(somewhere(), None, MouseButtonSet::empty(), Modifiers::empty());
    assert_eq!(none.button, 0);
    assert_eq!(none.trigger_button(), Some(MouseButton::Primary));
}

#[test]
fn held_buttons_go_through_their_bits() {
    let set = buttons(&[MouseButton::Secondary, MouseButton::Auxiliary]);
    assert_eq!(encode_mouse_button_set(set), 6);
    let event = MouseEvent::new(somewhere(), None, set, Modifiers::empty());
    assert_eq!(event.buttons, 6);
    assert_eq!(event.held_buttons(), set);
    assert!(event.held_buttons().contains(MouseButton::Secondary));
    assert!(!event.held_buttons().contains(MouseButton::Primary));

    assert_eq!(encode_mouse_button_set(MouseButtonSet::empty()), 0);
    assert_eq!(encode_mouse_button_set(buttons(&[MouseButton::Primary])), 1);
    assert_eq!(encode_mouse_button_set(buttons(&[MouseButton::Fourth])), 8);
    assert_eq!(encode_mouse_button_set(buttons(&[MouseButton::Fifth])), 16);
    assert_eq!(encode_mouse_button_set(buttons(&[MouseButton::Unknown])), 32);
    let all = buttons(&[
        MouseButton::Primary,
        MouseButton::Secondary,
        MouseButton::Auxiliary,
        MouseButton::Fourth,
        MouseButton::Fifth,
        MouseButton::Unknown,
    ]);
    assert_eq!(encode_mouse_button_set(all), 63);
    assert_eq!(decode_mouse_button_set(63), all);
}

#[test]
fn high_bits_decode_to_an_unknown_button() {
    assert_eq!(decode_mouse_button_set(0), MouseButtonSet::empty());
    assert_eq!(decode_mouse_button_set(0b100000), buttons(&[MouseButton::Unknown]));
    assert_eq!(decode_mouse_button_set(0x8000), buttons(&[MouseButton::Unknown]));
    assert_eq!(
        decode_mouse_button_set(0b1000101),
        buttons(&[MouseButton::Primary, MouseButton::Auxiliary, MouseButton::Unknown])
    );
    assert_eq!(decode_mouse_button_set(0b11000), buttons(&[MouseButton::Fourth, MouseButton::Fifth]));
}
