//! Input codes shared with scripts: mouse and gamepad buttons by ordinal.
use vstd::prelude::*;

verus! {

/// A mouse button, with the variants of `winit`'s `MouseButton`.
#[derive(Debug, Clone, Copy, PartialEq, Eq, Structural, Hash)]
pub enum MouseButton {
    Left,
    Right,
    Middle,
    Back,
    Forward,
    Other(u16),
}

/// The mouse button scripts mean by `ordinal`: 0 to 4 are the named buttons, any other
/// non-negative ordinal is an `Other` button (its low 16 bits), a negative one is none.
pub fn map_ordinal_to_mouse_button(ordinal: i32) -> (r: Option<MouseButton>)
    ensures
        r == (if ordinal == 0 {
            Some(MouseButton::Left)
        } else if ordinal == 1 {
            Some(MouseButton::Right)
        } else if ordinal == 2 {
            Some(MouseButton::Middle)
        } else if ordinal == 3 {
            Some(MouseButton::Back)
        } else if ordinal == 4 {
            Some(MouseButton::Forward)
        } else if ordinal >= 0 {
            Some(MouseButton::Other(ordinal as u16))
        } else {
            None
        }),
{
    match ordinal {
        0 => Some(MouseButton::Left),
        1 => Some(MouseButton::Right),
        2 => Some(MouseButton::Middle),
        3 => Some(MouseButton::Back),
        4 => Some(MouseButton::Forward),
        o if o >= 0 => Some(MouseButton::Other(o as u16)),
        _ => None,
    }
}

/// A gamepad button, with the variants of `gilrs`'s `Button` that scripts can name.
#[derive(Debug, Clone, Copy, PartialEq, Eq, Structural, Hash)]
pub enum GamepadButton {
    Unknown,
    South,
    East,
    North,
    West,
    C,
    Z,
    LeftTrigger,
    RightTrigger,
    LeftTrigger2,
    RightTrigger2,
    Select,
    Start,
    Mode,
    LeftThumb,
    RightThumb,
    DPadUp,
    DPadDown,
    DPadLeft,
    DPadRight,
}

/// The gamepad button with the given ordinal (0 to 19, in the order of [`GamepadButton`]).
pub open spec fn gamepad_button_at(ordinal: int) -> Option<GamepadButton> {
    if ordinal == 0 {
        Some(GamepadButton::Unknown)
    } else if ordinal == 1 {
        Some(GamepadButton::South)
    } else if ordinal == 2 {
        Some(GamepadButton::East)
    } else if ordinal == 3 {
        Some(GamepadButton::North)
    } else if ordinal == 4 {
        Some(GamepadButton::West)
    } else if ordinal == 5 {
        Some(GamepadButton::C)
    } else if ordinal == 6 {
        Some(GamepadButton::Z)
    } else if ordinal == 7 {
        Some(GamepadButton::LeftTrigger)
    } else if ordinal == 8 {
        Some(GamepadButton::RightTrigger)
    } else if ordinal == 9 {
        Some(GamepadButton::LeftTrigger2)
    } else if ordinal == 10 {
        Some(GamepadButton::RightTrigger2)
    } else if ordinal == 11 {
        Some(GamepadButton::Select)
    } else if ordinal == 12 {
        Some(GamepadButton::Start)
    } else if ordinal == 13 {
        Some(GamepadButton::Mode)
    } else if ordinal == 14 {
        Some(GamepadButton::LeftThumb)
    } else if ordinal == 15 {
        Some(GamepadButton::RightThumb)
    } else if ordinal == 16 {
        Some(GamepadButton::DPadUp)
    } else if ordinal == 17 {
        Some(GamepadButton::DPadDown)
    } else if ordinal == 18 {
        Some(GamepadButton::DPadLeft)
    } else if ordinal == 19 {
        Some(GamepadButton::DPadRight)
    } else {
        None
    }
}

/// The position of a button in the declaration of [`GamepadButton`], counting from zero.
pub open spec fn declaration_position(b: GamepadButton) -> int {
    match b {
        GamepadButton::Unknown => 0,
        GamepadButton::South => 1,
        GamepadButton::East => 2,
        GamepadButton::North => 3,
        GamepadButton::West => 4,
        GamepadButton::C => 5,
        GamepadButton::Z => 6,
        GamepadButton::LeftTrigger => 7,
        GamepadButton::RightTrigger => 8,
        GamepadButton::LeftTrigger2 => 9,
        GamepadButton::RightTrigger2 => 10,
        GamepadButton::Select => 11,
        GamepadButton::Start => 12,
        GamepadButton::Mode => 13,
        GamepadButton::LeftThumb => 14,
        GamepadButton::RightThumb => 15,
        GamepadButton::DPadUp => 16,
        GamepadButton::DPadDown => 17,
        GamepadButton::DPadLeft => 18,
        GamepadButton::DPadRight => 19,
    }
}

/// Law: ordinal `k` names the button declared `k`-th, for every `k` from 0 to 19, and no other
/// ordinal names a button; so every button has exactly one ordinal.
pub proof fn law_gamepad_ordinal_is_declaration_position(k: int, b: GamepadButton)
    ensures
        (0 <= k < 20) <==> gamepad_button_at(k) is Some,
        gamepad_button_at(k) == Some(b) ==> declaration_position(b) == k,
        gamepad_button_at(declaration_position(b)) == Some(b),
{
}

/// The gamepad button scripts mean by `ordinal`; `None` outside 0 to 19.
pub fn map_int_to_gamepad_button(ordinal: i32) -> (r: Option<GamepadButton>)
    ensures
        r == gamepad_button_at(ordinal as int),
{
    match ordinal {
        0 => Some(GamepadButton::Unknown),
        1 => Some(GamepadButton::South),
        2 => Some(GamepadButton::East),
        3 => Some(GamepadButton::North),
        4 => Some(GamepadButton::West),
        5 => Some(GamepadButton::C),
        6 => Some(GamepadButton::Z),
        7 => Some(GamepadButton::LeftTrigger),
        8 => Some(GamepadButton::RightTrigger),
        9 => Some(GamepadButton::LeftTrigger2),
        10 => Some(GamepadButton::RightTrigger2),
        11 => Some(GamepadButton::Select),
        12 => Some(GamepadButton::Start),
        13 => Some(GamepadButton::Mode),
        14 => Some(GamepadButton::LeftThumb),
        15 => Some(GamepadButton::RightThumb),
        16 => Some(GamepadButton::DPadUp),
        17 => Some(GamepadButton::DPadDown),
        18 => Some(GamepadButton::DPadLeft),
        19 => Some(GamepadButton::DPadRight),
        _ => None,
    }
}

/// The gamepad button for `ordinal`, or `Err(())` outside 0 to 19.
pub fn button_from_ordinal(ordinal: i32) -> (r: Result<GamepadButton, ()>)
    ensures
        match gamepad_button_at(ordinal as int) {
            Some(b) => r == Ok::<GamepadButton, ()>(b),
            None => r is Err,
        },
{
    match map_int_to_gamepad_button(ordinal) {
        Some(b) => Ok(b),
        None => Err(()),
    }
}

} // verus!
