//! Controller buttons, trigger axes and device indices.
use vstd::prelude::*;

verus! {

/// A controller button as the game-controller subsystem names it.
#[derive(Debug, Clone, Copy, PartialEq, Eq, Structural)]
pub enum PadButton {
    A,
    B,
    X,
    Y,
    Back,
    Guide,
    Start,
    LeftStick,
    RightStick,
    LeftShoulder,
    RightShoulder,
    DPadUp,
    DPadDown,
    DPadLeft,
    DPadRight,
    Misc1,
    Paddle1,
    Paddle2,
    Paddle3,
    Paddle4,
    Touchpad,
}

/// A controller key as mappings name it.
#[derive(Debug, Clone, Copy, PartialEq, Eq, Structural)]
pub enum JoyKey {
    Up,
    Down,
    Left,
    Right,
    N,
    S,
    E,
    W,
    L,
    R,
    ZL,
    ZR,
    SL,
    SR,
    L3,
    R3,
    Minus,
    Plus,
    Capture,
    Home,
}

/// The key that a button stands for. The touchpad click stands for none.
pub open spec fn key_of(button: PadButton) -> Option<JoyKey> {
    match button {
        PadButton::A => Some(JoyKey::S),
        PadButton::B => Some(JoyKey::E),
        PadButton::X => Some(JoyKey::W),
        PadButton::Y => Some(JoyKey::N),
        PadButton::Back => Some(JoyKey::Minus),
        PadButton::Guide => Some(JoyKey::Home),
        PadButton::Start => Some(JoyKey::Plus),
        PadButton::LeftStick => Some(JoyKey::L3),
        PadButton::RightStick => Some(JoyKey::R3),
        PadButton::LeftShoulder => Some(JoyKey::L),
        PadButton::RightShoulder => Some(JoyKey::R),
        PadButton::DPadUp => Some(JoyKey::Up),
        PadButton::DPadDown => Some(JoyKey::Down),
        PadButton::DPadLeft => Some(JoyKey::Left),
        PadButton::DPadRight => Some(JoyKey::Right),
        PadButton::Misc1 => Some(JoyKey::Capture),
        PadButton::Paddle1 | PadButton::Paddle2 => Some(JoyKey::SL),
        PadButton::Paddle3 | PadButton::Paddle4 => Some(JoyKey::SR),
        PadButton::Touchpad => None,
    }
}

/// The key that a button stands for. The capture button arrives as `Misc1`. The
/// rail buttons arrive as paddles whose number depends on the side, so the
/// upper pair is taken for one of them and the lower pair for the other.
pub fn sdl_to_sys(button: PadButton) -> (key: Option<JoyKey>)
    ensures
        key == key_of(button),
{
    match button {
        PadButton::A => Some(JoyKey::S),
        PadButton::B => Some(JoyKey::E),
        PadButton::X => Some(JoyKey::W),
        PadButton::Y => Some(JoyKey::N),
        PadButton::Back => Some(JoyKey::Minus),
        PadButton::Guide => Some(JoyKey::Home),
        PadButton::Start => Some(JoyKey::Plus),
        PadButton::LeftStick => Some(JoyKey::L3),
        PadButton::RightStick => Some(JoyKey::R3),
        PadButton::LeftShoulder => Some(JoyKey::L),
        PadButton::RightShoulder => Some(JoyKey::R),
        PadButton::DPadUp => Some(JoyKey::Up),
        PadButton::DPadDown => Some(JoyKey::Down),
        PadButton::DPadLeft => Some(JoyKey::Left),
        PadButton::DPadRight => Some(JoyKey::Right),
        PadButton::Misc1 => Some(JoyKey::Capture),
        PadButton::Paddle1 => Some(JoyKey::SL),
        PadButton::Paddle2 => Some(JoyKey::SL),
        PadButton::Paddle3 => Some(JoyKey::SR),
        PadButton::Paddle4 => Some(JoyKey::SR),
        PadButton::Touchpad => None,
    }
}

/// A trigger axis at half its range or more counts as pressed.
pub open spec fn pulled(axis: i16) -> bool {
    2 * axis >= i16::MAX
}

pub fn trigger_pressed(axis: i16) -> (r: bool)
    ensures
        r == pulled(axis),
{
    2 * axis as i32 >= i16::MAX as i32
}

/// The index of the device with the given instance id, among the instance ids
/// of the devices in order of their index. None where no device has it.
pub fn find_device_index(ids: &Vec<i32>, instance_id: u32) -> (index: Option<u32>)
    requires
        ids@.len() <= u32::MAX,
    ensures
        match index {
            Some(i) => i < ids@.len() && ids@[i as int] == instance_id as i32 && (forall|k: int|
                0 <= k < i ==> #[trigger] ids@[k] != instance_id as i32),
            None => forall|k: int| 0 <= k < ids@.len() ==> #[trigger] ids@[k] != instance_id as i32,
        },
{
    let wanted: i32 = #[verifier::truncate]
    (instance_id as i32);
    let mut i: usize = 0;
    while i < ids.len()
        invariant
            i <= ids@.len() <= u32::MAX,
            wanted == instance_id as i32,
            forall|k: int| 0 <= k < i ==> #[trigger] ids@[k] != wanted,
        decreases ids@.len() - i,
    {
        if ids[i] == wanted {
            return Some(i as u32);
        }
        i = i + 1;
    }
    None
}

/// Every button but the touchpad stands for a key.
pub proof fn law_every_button_but_touchpad_has_a_key(button: PadButton)
    ensures
        key_of(button) is None <==> button == PadButton::Touchpad,
{
}

/// Two buttons stand for the same key only where both are of the upper or both of
/// the lower pair of paddles.
pub proof fn law_keys_tell_buttons_apart(a: PadButton, b: PadButton)
    requires
        key_of(a) is Some,
        key_of(a) == key_of(b),
    ensures
        ({
            ||| a == b
            ||| (a is Paddle1 || a is Paddle2) && (b is Paddle1 || b is Paddle2)
            ||| (a is Paddle3 || a is Paddle4) && (b is Paddle3 || b is Paddle4)
        }),
{
}

/// Buttons stand for keys of their own kind: the pad for directions, the four
/// buttons for the four points of the compass as they lie, shoulders and sticks
/// for those of their side.
pub proof fn law_buttons_keep_their_place()
    ensures
        key_of(PadButton::A) == Some(JoyKey::S) && key_of(PadButton::Y) == Some(JoyKey::N),
        key_of(PadButton::B) == Some(JoyKey::E) && key_of(PadButton::X) == Some(JoyKey::W),
        key_of(PadButton::DPadUp) == Some(JoyKey::Up),
        key_of(PadButton::DPadDown) == Some(JoyKey::Down),
        key_of(PadButton::DPadLeft) == Some(JoyKey::Left),
        key_of(PadButton::DPadRight) == Some(JoyKey::Right),
        key_of(PadButton::LeftShoulder) == Some(JoyKey::L),
        key_of(PadButton::RightShoulder) == Some(JoyKey::R),
        key_of(PadButton::LeftStick) == Some(JoyKey::L3),
        key_of(PadButton::RightStick) == Some(JoyKey::R3),
        key_of(PadButton::Back) == Some(JoyKey::Minus),
        key_of(PadButton::Start) == Some(JoyKey::Plus),
        key_of(PadButton::Guide) == Some(JoyKey::Home),
        key_of(PadButton::Misc1) == Some(JoyKey::Capture),
        key_of(PadButton::Paddle1) == Some(JoyKey::SL),
        key_of(PadButton::Paddle2) == Some(JoyKey::SL),
        key_of(PadButton::Paddle3) == Some(JoyKey::SR),
        key_of(PadButton::Paddle4) == Some(JoyKey::SR),
        key_of(PadButton::Touchpad) is None,
{
}

/// A trigger counts as pressed from half its range on, and pulling it further never
/// lets it go.
pub proof fn law_trigger_is_pressed_from_half_way(axis: i16, further: i16)
    ensures
        pulled(axis) && further >= axis ==> pulled(further),
        pulled(axis) <==> axis > 16383,
{
}

} // verus!
