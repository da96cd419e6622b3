//! The input state of the HID gadget controller and the 8-byte report it
//! sends: buttons in the low 16 bits of a word, the hat in bits 16 to 19,
//! and the two sticks.

use vstd::prelude::*;
use crate::controller_values::{Button, DPad, StickPosition};

verus! {

/// The button word of a button: its bits, within the 14 buttons of the report.
pub open spec fn button_word(b: Button) -> u32 {
    (b.bits() as u32) & 0x3FFF
}

/// The button word with the hat cleared and set to neutral.
pub open spec fn neutral_hat(w: u32) -> u32 {
    (w & 0xFFF0_FFFF) | 0x0008_0000
}

/// The report of a state: the two low bytes of the button word, the hat,
/// the left then right stick, and a zero byte.
pub open spec fn report_of(s: ControllerInputState) -> [u8; 8] {
    [
        (s.buttons & 0xFF) as u8,
        ((s.buttons >> 8u32) & 0xFF) as u8,
        ((s.buttons >> 16u32) & 0x0F) as u8,
        s.left_stick_x,
        s.left_stick_y,
        s.right_stick_x,
        s.right_stick_y,
        0u8,
    ]
}

/// What the gadget controller currently holds down.
#[derive(Debug, Clone, Copy, PartialEq, Eq, Structural)]
pub struct ControllerInputState {
    pub buttons: u32,
    pub left_stick_x: u8,
    pub left_stick_y: u8,
    pub right_stick_x: u8,
    pub right_stick_y: u8,
}

impl ControllerInputState {
    /// Nothing pressed, the hat neutral, both sticks centred.
    pub fn neutral() -> (s: Self)
        ensures
            s == (ControllerInputState {
                buttons: 0x0008_0000,
                left_stick_x: 0x80,
                left_stick_y: 0x80,
                right_stick_x: 0x80,
                right_stick_y: 0x80,
            }),
    {
        let hat = DPad::NEUTRAL().value() as u32;
        assert(hat << 16u32 == 0x0008_0000) by (bit_vector)
            requires
                hat == 8,
        ;
        ControllerInputState {
            buttons: hat << 16,
            left_stick_x: 0x80,
            left_stick_y: 0x80,
            right_stick_x: 0x80,
            right_stick_y: 0x80,
        }
    }

    /// The bits a button sets in the button word: the 14 buttons of the
    /// report keep their bit positions; see `button_word`.
    pub fn button_to_bits(button: &Button) -> (r: u32)
        ensures
            r == button_word(*button),
    {
        (button.value() as u32) & 0x3FFF
    }

    /// The bits a hat position sets in the button word.
    pub fn dpad_to_bits(dpad: &DPad) -> (r: u32)
        ensures
            r == (dpad.bits() as u32) << 16u32,
    {
        (dpad.value() as u32) << 16
    }

    /// The 8-byte report of the state; see `report_of`.
    pub fn report(&self) -> (r: [u8; 8])
        ensures
            r == report_of(*self),
    {
        [
            (self.buttons & 0xFF) as u8,
            ((self.buttons >> 8) & 0xFF) as u8,
            ((self.buttons >> 16) & 0x0F) as u8,
            self.left_stick_x,
            self.left_stick_y,
            self.right_stick_x,
            self.right_stick_y,
            0x00,
        ]
    }

    /// Presses a button: the hat goes back to neutral and the button's bits
    /// are set; the sticks are kept.
    pub fn press(&mut self, button: &Button)
        ensures
            *final(self) == (ControllerInputState {
                buttons: neutral_hat(old(self).buttons) | button_word(*button),
                ..*old(self)
            }),
    {
        let bits = Self::button_to_bits(button);
        let w = self.buttons;
        assert(((w & 0xFFF0_FFFF) | (8u32 << 16u32)) == neutral_hat(w)) by (bit_vector);
        self.buttons = (w & 0xFFF0_FFFF) | ((DPad::NEUTRAL().value() as u32) << 16) | bits;
    }

    /// Releases a button: its bits are cleared and the hat goes back to
    /// neutral; the sticks are kept.
    pub fn release(&mut self, button: &Button)
        ensures
            *final(self) == (ControllerInputState {
                buttons: neutral_hat(old(self).buttons & !button_word(*button)),
                ..*old(self)
            }),
    {
        let bits = Self::button_to_bits(button);
        let w = self.buttons;
        assert((((w & !bits) & 0xFFF0_FFFF) | (8u32 << 16u32)) == neutral_hat(w & !bits)) by (bit_vector);
        self.buttons = ((w & !bits) & 0xFFF0_FFFF) | ((DPad::NEUTRAL().value() as u32) << 16);
    }

    /// Sets the hat; buttons and sticks are kept.
    pub fn set_dpad(&mut self, dpad: &DPad)
        ensures
            *final(self) == (ControllerInputState {
                buttons: (old(self).buttons & 0xFFF0_FFFF) | ((dpad.bits() as u32) << 16u32),
                ..*old(self)
            }),
    {
        self.buttons = (self.buttons & 0xFFF0_FFFF) | Self::dpad_to_bits(dpad);
    }

    /// Moves the left stick.
    pub fn move_left_stick(&mut self, position: StickPosition)
        ensures
            *final(self) == (ControllerInputState {
                left_stick_x: position.x,
                left_stick_y: position.y,
                ..*old(self)
            }),
    {
        self.left_stick_x = position.x;
        self.left_stick_y = position.y;
    }

    /// Brings the left stick back to the centre after a move away from it;
    /// says whether it had to.
    pub fn recenter_left_stick(&mut self, position: StickPosition) -> (r: bool)
        ensures
            r == (position.x != 128 || position.y != 128),
            r ==> *final(self) == (ControllerInputState { left_stick_x: 128, left_stick_y: 128, ..*old(self) }),
            !r ==> *final(self) == *old(self),
    {
        if position.x != 128 || position.y != 128 {
            self.left_stick_x = 128;
            self.left_stick_y = 128;
            true
        } else {
            false
        }
    }

    /// Moves the right stick.
    pub fn move_right_stick(&mut self, position: StickPosition)
        ensures
            *final(self) == (ControllerInputState {
                right_stick_x: position.x,
                right_stick_y: position.y,
                ..*old(self)
            }),
    {
        self.right_stick_x = position.x;
        self.right_stick_y = position.y;
    }
}

/// Pressing a button and releasing it again leaves that button up and the
/// hat neutral, with every other button as it was before the press.
pub proof fn lemma_press_then_release(buttons: u32, b: u32)
    requires
        b & 0xFFFF_C000 == 0,
    ensures
        neutral_hat((neutral_hat(buttons) | b) & !b) & b == 0,
        neutral_hat((neutral_hat(buttons) | b) & !b) & 0xFFFF & !b == buttons & 0xFFFF & !b,
        ((neutral_hat((neutral_hat(buttons) | b) & !b) >> 16u32) & 0x0F) == 8,
{
    assert(((((buttons & 0xFFF0_FFFF) | 0x0008_0000 | b) & !b) & 0xFFF0_FFFF | 0x0008_0000) & b == 0) by (bit_vector)
        requires
            b & 0xFFFF_C000 == 0,
    ;
    assert(((((buttons & 0xFFF0_FFFF) | 0x0008_0000 | b) & !b) & 0xFFF0_FFFF | 0x0008_0000) & 0xFFFF & !b
        == buttons & 0xFFFF & !b) by (bit_vector)
        requires
            b & 0xFFFF_C000 == 0,
    ;
    assert((((((buttons & 0xFFF0_FFFF) | 0x0008_0000 | b) & !b) & 0xFFF0_FFFF | 0x0008_0000) >> 16u32) & 0x0F == 8)
        by (bit_vector)
        requires
            b & 0xFFFF_C000 == 0,
    ;
}

/// The report of the neutral state: no button, the hat at 8, sticks centred.
pub proof fn lemma_neutral_report()
    ensures
        report_of(ControllerInputState {
            buttons: 0x0008_0000,
            left_stick_x: 0x80,
            left_stick_y: 0x80,
            right_stick_x: 0x80,
            right_stick_y: 0x80,
        })@ == seq![0u8, 0u8, 8u8, 0x80u8, 0x80u8, 0x80u8, 0x80u8, 0u8],
{
    assert((0x0008_0000u32 & 0xFF) as u8 == 0) by (bit_vector);
    assert(((0x0008_0000u32 >> 8u32) & 0xFF) as u8 == 0) by (bit_vector);
    assert(((0x0008_0000u32 >> 16u32) & 0x0F) as u8 == 8) by (bit_vector);
    assert(report_of(ControllerInputState {
        buttons: 0x0008_0000,
        left_stick_x: 0x80,
        left_stick_y: 0x80,
        right_stick_x: 0x80,
        right_stick_y: 0x80,
    })@ =~= seq![0u8, 0u8, 8u8, 0x80u8, 0x80u8, 0x80u8, 0x80u8, 0u8]);
}

/// A report with the given buttons and hat and both sticks centred, as the
/// gadget test tool sends it: the buttons little-endian, the hat, the four
/// stick bytes at 128, and a zero byte.
pub fn centred_report(buttons: u16, hat: u8) -> (r: [u8; 8])
    ensures
        r@ == seq![(buttons & 0xFF) as u8, ((buttons >> 8u16) & 0xFF) as u8, hat, 128u8, 128u8, 128u8, 128u8, 0u8],
{
    let r: [u8; 8] = [(buttons & 0xFF) as u8, ((buttons >> 8u16) & 0xFF) as u8, hat, 128, 128, 128, 128, 0];
    assert(r@ =~= seq![(buttons & 0xFF) as u8, ((buttons >> 8u16) & 0xFF) as u8, hat, 128u8, 128u8, 128u8, 128u8, 0u8]);
    r
}

} // verus!
