//! Gamepad slots, buttons and the state a gamepad reports.

use vstd::prelude::*;

verus! {

/// The four controller ports.
#[derive(Clone, Copy, Debug)]
pub enum GamepadSlot {
    SlotA,
    SlotB,
    SlotC,
    SlotD,
}

impl GamepadSlot {
    /// The code of each slot: they count up from zero.
    pub open spec fn spec_code(self) -> int {
        match self {
            GamepadSlot::SlotA => 0,
            GamepadSlot::SlotB => 1,
            GamepadSlot::SlotC => 2,
            GamepadSlot::SlotD => 3,
        }
    }

    /// The numeric code handed to the console.
    pub fn code(self) -> (code: i32)
        ensures
            code == self.spec_code(),
    {
        match self {
            GamepadSlot::SlotA => 0,
            GamepadSlot::SlotB => 1,
            GamepadSlot::SlotC => 2,
            GamepadSlot::SlotD => 3,
        }
    }
}

/// One button of a gamepad.
#[derive(Clone, Copy, Debug)]
pub enum GamepadButton {
    A,
    B,
    X,
    Y,
    Up,
    Down,
    Left,
    Right,
    L1,
    L2,
    L3,
    R1,
    R2,
    R3,
    Select,
    Start,
}

impl GamepadButton {
    /// Position of the button's bit in a button mask: `A` is bit 0, `Start`
    /// is bit 15.
    pub open spec fn spec_index(self) -> int {
        match self {
            GamepadButton::A => 0,
            GamepadButton::B => 1,
            GamepadButton::X => 2,
            GamepadButton::Y => 3,
            GamepadButton::Up => 4,
            GamepadButton::Down => 5,
            GamepadButton::Left => 6,
            GamepadButton::Right => 7,
            GamepadButton::L1 => 8,
            GamepadButton::L2 => 9,
            GamepadButton::L3 => 10,
            GamepadButton::R1 => 11,
            GamepadButton::R2 => 12,
            GamepadButton::R3 => 13,
            GamepadButton::Select => 14,
            GamepadButton::Start => 15,
        }
    }

    /// The button's flag: a `u16` with exactly the button's bit set.
    pub open spec fn spec_bit(self) -> u16 {
        1u16 << (self.spec_index() as u16)
    }

    /// The button's flag in a button mask.
    pub fn bit(self) -> (flag: u16)
        ensures
            flag == self.spec_bit(),
    {
        let flag: u16 = match self {
            GamepadButton::A => 1,
            GamepadButton::B => 1 << 1,
            GamepadButton::X => 1 << 2,
            GamepadButton::Y => 1 << 3,
            GamepadButton::Up => 1 << 4,
            GamepadButton::Down => 1 << 5,
            GamepadButton::Left => 1 << 6,
            GamepadButton::Right => 1 << 7,
            GamepadButton::L1 => 1 << 8,
            GamepadButton::L2 => 1 << 9,
            GamepadButton::L3 => 1 << 10,
            GamepadButton::R1 => 1 << 11,
            GamepadButton::R2 => 1 << 12,
            GamepadButton::R3 => 1 << 13,
            GamepadButton::Select => 1 << 14,
            GamepadButton::Start => 1 << 15,
        };
        assert(1u16 << 0u16 == 1u16) by (bit_vector);
        flag
    }
}

/// A set of buttons, one bit per button.
#[derive(Clone, Copy, Debug)]
pub struct GamepadButtonMask {
    pub mask: u16,
}

impl GamepadButtonMask {
    /// The mask with no button set.
    pub fn none() -> (m: GamepadButtonMask)
        ensures
            m.mask == 0,
    {
        GamepadButtonMask { mask: 0 }
    }

    /// Whether the button's bit is set in the mask.
    pub open spec fn spec_contains(self, button: GamepadButton) -> bool {
        self.mask & button.spec_bit() == button.spec_bit()
    }

    /// Whether the mask holds the button.
    pub fn contains(self, button: GamepadButton) -> (held: bool)
        ensures
            held == self.spec_contains(button),
    {
        let flag = button.bit();
        self.mask & flag == flag
    }
}

/// What a gamepad reports: the buttons held and both analog sticks.
#[derive(Clone, Copy, Debug)]
pub struct GamepadState {
    pub button_mask: GamepadButtonMask,
    pub left_stick_x: i16,
    pub left_stick_y: i16,
    pub right_stick_x: i16,
    pub right_stick_y: i16,
}

impl GamepadState {
    /// Check if the given button is pressed.
    pub fn is_pressed(self, button: GamepadButton) -> (pressed: bool)
        ensures
            pressed == self.button_mask.spec_contains(button),
    {
        self.button_mask.contains(button)
    }
}

/// A handle on the gamepad in one slot.
#[derive(Clone, Copy, Debug)]
pub struct Gamepad {
    pub slot: GamepadSlot,
}

impl Gamepad {
    /// Construct a new Gamepad for the given slot.
    pub fn new(slot: GamepadSlot) -> (pad: Gamepad)
        ensures
            pad.slot == slot,
    {
        Gamepad { slot }
    }
}

} // verus!
