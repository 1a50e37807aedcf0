use gyromouse::backend::keys::{find_device_index, sdl_to_sys, trigger_pressed, JoyKey, PadButton};

const ALL: [PadButton; 21] = [
    PadButton::A,
    PadButton::B,
    PadButton::X,
    PadButton::Y,
    PadButton::Back,
    PadButton::Guide,
    PadButton::Start,
    PadButton::LeftStick,
    PadButton::RightStick,
    PadButton::LeftShoulder,
    PadButton::RightShoulder,
    PadButton::DPadUp,
    PadButton::DPadDown,
    PadButton::DPadLeft,
    PadButton::DPadRight,
    PadButton::Misc1,
    PadButton::Paddle1,
    PadButton::Paddle2,
    PadButton::Paddle3,
    PadButton::Paddle4,
    PadButton::Touchpad,
];

#[test]
fn sdl_to_sys_covers_every_button_without_panicking() {
    for b in ALL {
        let _ = sdl_to_sys(b);
    }
}

#[test]
fn sdl_to_sys_maps_switch_extras() {
    assert!(matches!(sdl_to_sys(PadButton::Misc1), Some(JoyKey::Capture)));
    assert!(matches!(sdl_to_sys(PadButton::Paddle1), Some(JoyKey::SL)));
    assert!(matches!(sdl_to_sys(PadButton::Paddle2), Some(JoyKey::SL)));
    assert!(matches!(sdl_to_sys(PadButton::Paddle3), Some(JoyKey::SR)));
    assert!(matches!(sdl_to_sys(PadButton::Paddle4), Some(JoyKey::SR)));
    assert!(sdl_to_sys(PadButton::Touchpad).is_none());
}

#[test]
fn every_button_has_its_key() {
    let expected = [
        Some(JoyKey::S),
        Some(JoyKey::E),
        Some(JoyKey::W),
        Some(JoyKey::N),
        Some(JoyKey::Minus),
        Some(JoyKey::Home),
        Some(JoyKey::Plus),
        Some(JoyKey::L3),
        Some(JoyKey::R3),
        Some(JoyKey::L),
        Some(JoyKey::R),
        Some(JoyKey::Up),
        Some(JoyKey::Down),
        Some(JoyKey::Left),
        Some(JoyKey::Right),
        Some(JoyKey::Capture),
        Some(JoyKey::SL),
        Some(JoyKey::SL),
        Some(JoyKey::SR),
        Some(JoyKey::SR),
        None,
    ];
    for (b, key) in ALL.iter().zip(expected.iter()) {
        assert_eq!(sdl_to_sys(*b), *key);
    }
}

#[test]
fn triggers_are_pressed_from_half_way() {
    for axis in i16::MIN..=i16::MAX {
        assert_eq!(trigger_pressed(axis), axis as f64 / i16::MAX as f64 >= 0.5);
    }
    assert!(!trigger_pressed(16383));
    assert!(trigger_pressed(16384));
}

#[test]
fn device_index_is_the_first_match() {
    let ids = vec![7, -1, 3, 3];
    assert_eq!(find_device_index(&ids, 7), Some(0));
    assert_eq!(find_device_index(&ids, 3), Some(2));
    assert_eq!(find_device_index(&ids, 4), None);
    assert_eq!(find_device_index(&Vec::new(), 7), None);
    // an id beyond the signed range is looked for as its wrapped value
    assert_eq!(find_device_index(&ids, u32::MAX), Some(1));
}
