//! Gamepads: which one is in use, what its buttons mean, and when it rumbles.
//! Gamepads go by numbers that the caller gives them.

use vstd::prelude::*;

verus! {

/// Result of polling the gamepad.
#[derive(Clone, Copy, PartialEq, Eq, Structural)]
pub struct GamepadState {
    /// Bit mask of the Game Boy buttons held.
    pub buttons: u8,
    /// The left shoulder is pressed.
    pub rewind: bool,
    /// The right shoulder is pressed.
    pub fast_forward: bool,
}

/// One of two opposite directions of a stick, beyond its dead zone.
#[derive(Clone, Copy, PartialEq, Eq, Structural)]
pub enum Tilt {
    Rest,
    /// Left or down.
    Negative,
    /// Right or up.
    Positive,
}

/// What is pressed on a gamepad. The buttons are those for A, B, start, select,
/// up, down, left and right.
#[derive(Clone, Copy)]
pub struct Pressed {
    pub buttons: [bool; 8],
    pub stick_x: Tilt,
    pub stick_y: Tilt,
    pub left_shoulder: bool,
    pub right_shoulder: bool,
}

/// The button is held, by itself or by the stick.
pub open spec fn held(p: Pressed, k: int) -> bool {
    ||| p.buttons@[k]
    ||| k == 4 && p.stick_y == Tilt::Positive
    ||| k == 5 && p.stick_y == Tilt::Negative
    ||| k == 6 && p.stick_x == Tilt::Negative
    ||| k == 7 && p.stick_x == Tilt::Positive
}

/// The bits of the held ones among the first `n` buttons, together.
pub open spec fn held_bits(p: Pressed, bits: Seq<u8>, n: nat) -> u8
    decreases n,
{
    if n == 0 {
        0
    } else if held(p, n - 1) {
        held_bits(p, bits, (n - 1) as nat) | bits[n - 1]
    } else {
        held_bits(p, bits, (n - 1) as nat)
    }
}

/// The state of a gamepad; `bits` are the masks of the eight buttons.
pub fn gamepad_state(p: &Pressed, bits: &[u8; 8]) -> (r: GamepadState)
    ensures
        r.buttons == held_bits(*p, bits@, 8),
        r.rewind == p.left_shoulder,
        r.fast_forward == p.right_shoulder,
{
    let mut buttons: u8 = 0;
    let mut k: usize = 0;
    while k < 8
        invariant
            k <= 8,
            buttons == held_bits(*p, bits@, k as nat),
        decreases 8 - k,
    {
        let on: bool = p.buttons[k] || (k == 4 && p.stick_y == Tilt::Positive) || (k == 5
            && p.stick_y == Tilt::Negative) || (k == 6 && p.stick_x == Tilt::Negative) || (k == 7
            && p.stick_x == Tilt::Positive);
        if on {
            buttons = buttons | bits[k];
        }
        k += 1;
    }
    GamepadState { buttons, rewind: p.left_shoulder, fast_forward: p.right_shoulder }
}

/// The state without a gamepad.
pub fn no_gamepad() -> (r: GamepadState)
    ensures
        r == (GamepadState { buttons: 0, rewind: false, fast_forward: false }),
{
    GamepadState { buttons: 0, rewind: false, fast_forward: false }
}

/// The gamepad in use and its rumble.
#[derive(Clone, Copy, PartialEq, Eq, Structural)]
pub struct GamepadSlot {
    pub active: Option<usize>,
    /// The gamepad that a rumble effect was made for.
    pub effect: Option<usize>,
    pub rumble_on: bool,
}

/// What to do with the rumble effect.
#[derive(Clone, Copy, PartialEq, Eq, Structural)]
pub enum Rumble {
    Leave,
    Play,
    Stop,
}

impl GamepadSlot {
    pub fn new() -> (r: Self)
        ensures
            r == (GamepadSlot { active: None, effect: None, rumble_on: false }),
    {
        GamepadSlot { active: None, effect: None, rumble_on: false }
    }

    /// A gamepad was connected. It is taken into use if none is; gives whether
    /// it was.
    pub fn connected(&mut self, id: usize) -> (r: bool)
        ensures
            r == (old(self).active is None),
            *final(self) == if old(self).active is None {
                GamepadSlot { active: Some(id), ..*old(self) }
            } else {
                *old(self)
            },
    {
        match self.active {
            None => {
                self.active = Some(id);
                true
            },
            Some(_) => false,
        }
    }

    /// A gamepad was disconnected. If it is the one in use, nothing is in use
    /// and nothing rumbles; gives whether it was.
    pub fn disconnected(&mut self, id: usize) -> (r: bool)
        ensures
            r == (old(self).active == Some(id)),
            *final(self) == if r {
                GamepadSlot { active: None, effect: None, rumble_on: false }
            } else {
                *old(self)
            },
    {
        match self.active {
            Some(a) => {
                if a == id {
                    self.active = None;
                    self.effect = None;
                    self.rumble_on = false;
                    true
                } else {
                    false
                }
            },
            None => false,
        }
    }

    /// The gamepad that a rumble effect has to be made for, if one has to. An
    /// effect for another gamepad is dropped.
    pub fn ensure_rumble(&mut self) -> (r: Option<usize>)
        ensures
            r == if old(self).effect == old(self).active {
                None
            } else {
                old(self).active
            },
            *final(self) == if r is Some {
                GamepadSlot { active: old(self).active, effect: None, rumble_on: false }
            } else {
                *old(self)
            },
    {
        match self.active {
            None => None,
            Some(a) => {
                if let Some(e) = self.effect {
                    if e == a {
                        return None;
                    }
                }
                self.effect = None;
                self.rumble_on = false;
                Some(a)
            },
        }
    }

    /// A rumble effect was made.
    pub fn effect_made(&mut self, id: usize)
        ensures
            *final(self) == (GamepadSlot { effect: Some(id), ..*old(self) }),
    {
        self.effect = Some(id);
    }

    /// Start or stop the rumble. Nothing is done if that changes nothing or
    /// there is no effect.
    pub fn set_rumble(&mut self, on: bool) -> (r: Rumble)
        ensures
            *final(self) == (GamepadSlot { rumble_on: on, ..*old(self) }),
            r == if on == old(self).rumble_on || old(self).effect is None {
                Rumble::Leave
            } else if on {
                Rumble::Play
            } else {
                Rumble::Stop
            },
    {
        if on == self.rumble_on {
            return Rumble::Leave;
        }
        self.rumble_on = on;
        match self.effect {
            None => Rumble::Leave,
            Some(_) => if on {
                Rumble::Play
            } else {
                Rumble::Stop
            },
        }
    }
}

} // verus!
