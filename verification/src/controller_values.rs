//! Value objects of the emulated controller: buttons, the directional pad,
//! sticks, input reports and the commands that drive them.

use vstd::prelude::*;

verus! {

/// A controller button, as its bit in the button word.
#[derive(Debug, Clone, Copy, PartialEq, Eq, Hash, Structural)]
pub struct Button {
    value: u16,
}

impl Button {
    #[allow(non_snake_case)]
    pub fn Y() -> (r: Button)
        ensures
            r.bits() == 0x0001,
    {
        Button { value: 0x0001 }
    }
    #[allow(non_snake_case)]
    pub fn B() -> (r: Button)
        ensures
            r.bits() == 0x0002,
    {
        Button { value: 0x0002 }
    }
    #[allow(non_snake_case)]
    pub fn A() -> (r: Button)
        ensures
            r.bits() == 0x0004,
    {
        Button { value: 0x0004 }
    }
    #[allow(non_snake_case)]
    pub fn X() -> (r: Button)
        ensures
            r.bits() == 0x0008,
    {
        Button { value: 0x0008 }
    }
    #[allow(non_snake_case)]
    pub fn L() -> (r: Button)
        ensures
            r.bits() == 0x0010,
    {
        Button { value: 0x0010 }
    }
    #[allow(non_snake_case)]
    pub fn R() -> (r: Button)
        ensures
            r.bits() == 0x0020,
    {
        Button { value: 0x0020 }
    }
    #[allow(non_snake_case)]
    pub fn ZL() -> (r: Button)
        ensures
            r.bits() == 0x0040,
    {
        Button { value: 0x0040 }
    }
    #[allow(non_snake_case)]
    pub fn ZR() -> (r: Button)
        ensures
            r.bits() == 0x0080,
    {
        Button { value: 0x0080 }
    }
    #[allow(non_snake_case)]
    pub fn MINUS() -> (r: Button)
        ensures
            r.bits() == 0x0100,
    {
        Button { value: 0x0100 }
    }
    #[allow(non_snake_case)]
    pub fn PLUS() -> (r: Button)
        ensures
            r.bits() == 0x0200,
    {
        Button { value: 0x0200 }
    }
    #[allow(non_snake_case)]
    pub fn L_STICK() -> (r: Button)
        ensures
            r.bits() == 0x0400,
    {
        Button { value: 0x0400 }
    }
    #[allow(non_snake_case)]
    pub fn R_STICK() -> (r: Button)
        ensures
            r.bits() == 0x0800,
    {
        Button { value: 0x0800 }
    }
    #[allow(non_snake_case)]
    pub fn HOME() -> (r: Button)
        ensures
            r.bits() == 0x1000,
    {
        Button { value: 0x1000 }
    }
    #[allow(non_snake_case)]
    pub fn CAPTURE() -> (r: Button)
        ensures
            r.bits() == 0x2000,
    {
        Button { value: 0x2000 }
    }

    /// The bit value of the button.
    pub closed spec fn bits(self) -> u16 {
        self.value
    }

    /// The button with these bits.
    pub closed spec fn new_spec(value: u16) -> Button {
        Button { value }
    }

    pub proof fn lemma_new(value: u16)
        ensures
            Self::new_spec(value).bits() == value,
            forall|b: Button| b.bits() == value ==> b == Self::new_spec(value),
    {
    }

    pub fn new(value: u16) -> (b: Self)
        ensures
            b.bits() == value,
    {
        Button { value }
    }

    pub fn value(&self) -> (v: u16)
        ensures
            v == self.bits(),
    {
        self.value
    }
}

/// A directional-pad position, as the hat value of the report.
#[derive(Debug, Clone, Copy, PartialEq, Eq, Hash, Structural)]
pub struct DPad {
    value: u8,
}

impl DPad {
    #[allow(non_snake_case)]
    pub fn NEUTRAL() -> (r: DPad)
        ensures
            r.bits() == 0x08,
    {
        DPad { value: 0x08 }
    }
    #[allow(non_snake_case)]
    pub fn UP() -> (r: DPad)
        ensures
            r.bits() == 0x00,
    {
        DPad { value: 0x00 }
    }
    #[allow(non_snake_case)]
    pub fn UP_RIGHT() -> (r: DPad)
        ensures
            r.bits() == 0x01,
    {
        DPad { value: 0x01 }
    }
    #[allow(non_snake_case)]
    pub fn RIGHT() -> (r: DPad)
        ensures
            r.bits() == 0x02,
    {
        DPad { value: 0x02 }
    }
    #[allow(non_snake_case)]
    pub fn DOWN_RIGHT() -> (r: DPad)
        ensures
            r.bits() == 0x03,
    {
        DPad { value: 0x03 }
    }
    #[allow(non_snake_case)]
    pub fn DOWN() -> (r: DPad)
        ensures
            r.bits() == 0x04,
    {
        DPad { value: 0x04 }
    }
    #[allow(non_snake_case)]
    pub fn DOWN_LEFT() -> (r: DPad)
        ensures
            r.bits() == 0x05,
    {
        DPad { value: 0x05 }
    }
    #[allow(non_snake_case)]
    pub fn LEFT() -> (r: DPad)
        ensures
            r.bits() == 0x06,
    {
        DPad { value: 0x06 }
    }
    #[allow(non_snake_case)]
    pub fn UP_LEFT() -> (r: DPad)
        ensures
            r.bits() == 0x07,
    {
        DPad { value: 0x07 }
    }

    /// The hat value.
    pub closed spec fn bits(self) -> u8 {
        self.value
    }

    pub fn new(value: u8) -> (d: Self)
        ensures
            d.bits() == value,
    {
        DPad { value }
    }

    pub fn value(&self) -> (v: u8)
        ensures
            v == self.bits(),
    {
        self.value
    }
}

/// An analogue stick position; 128 is the centre on each axis.
#[derive(Debug, Clone, Copy, PartialEq, Eq, Hash, Structural)]
pub struct StickPosition {
    pub x: u8,
    pub y: u8,
}

impl StickPosition {
    #[allow(non_snake_case)]
    pub fn CENTER() -> (r: StickPosition)
        ensures
            r == (StickPosition { x: 128, y: 128 }),
    {
        StickPosition { x: 128, y: 128 }
    }

    pub const MIN: u8 = 0;
    pub const MAX: u8 = 255;

    pub fn new(x: u8, y: u8) -> (p: Self)
        ensures
            p.x == x,
            p.y == y,
    {
        StickPosition { x, y }
    }

    /// Whether the stick rests at the centre.
    pub fn is_centered(&self) -> (r: bool)
        ensures
            r == (self.x == 128 && self.y == 128),
    {
        self.x == 128 && self.y == 128
    }
}

impl Default for StickPosition {
    fn default() -> (p: Self)
        ensures
            p == (StickPosition { x: 128, y: 128 }),
    {
        StickPosition::CENTER()
    }
}

/// The set of pressed buttons, one bit per button.
#[derive(Debug, Clone, Copy, PartialEq, Eq, Hash, Structural)]
pub struct ButtonState {
    pressed: u16,
}

/// The button with bit `i` (`0 <= i < 14`), in the order Y, B, A, X, L, R,
/// ZL, ZR, MINUS, PLUS, L_STICK, R_STICK, HOME, CAPTURE.
pub open spec fn button_bit(i: int) -> u16 {
    if i == 0 { 0x0001 }
    else if i == 1 { 0x0002 }
    else if i == 2 { 0x0004 }
    else if i == 3 { 0x0008 }
    else if i == 4 { 0x0010 }
    else if i == 5 { 0x0020 }
    else if i == 6 { 0x0040 }
    else if i == 7 { 0x0080 }
    else if i == 8 { 0x0100 }
    else if i == 9 { 0x0200 }
    else if i == 10 { 0x0400 }
    else if i == 11 { 0x0800 }
    else if i == 12 { 0x1000 }
    else { 0x2000 }
}

/// The named buttons among the first `n` bits that are set in `word`, in bit order.
pub open spec fn pressed_prefix(word: u16, n: nat) -> Seq<u16>
    decreases n,
{
    if n == 0 {
        Seq::empty()
    } else {
        let rest = pressed_prefix(word, (n - 1) as nat);
        let bit = button_bit(n - 1);
        if word & bit != 0 { rest.push(bit) } else { rest }
    }
}

impl ButtonState {
    /// The button word.
    pub closed spec fn word(self) -> u16 {
        self.pressed
    }

    /// Whether `button` is down in this state.
    pub open spec fn holds(self, button: Button) -> bool {
        self.word() & button.bits() != 0
    }

    /// No button pressed.
    pub fn new() -> (s: Self)
        ensures
            s.word() == 0,
    {
        ButtonState { pressed: 0 }
    }

    /// A state with the given button word.
    pub fn from_word(word: u16) -> (s: Self)
        ensures
            s.word() == word,
    {
        ButtonState { pressed: word }
    }

    /// Sets the button's bits.
    pub fn press(&mut self, button: Button)
        ensures
            final(self).word() == old(self).word() | button.bits(),
    {
        self.pressed = self.pressed | button.value();
    }

    /// Clears the button's bits.
    pub fn release(&mut self, button: Button)
        ensures
            final(self).word() == old(self).word() & !button.bits(),
    {
        self.pressed = self.pressed & !button.value();
    }

    /// Whether any of the button's bits is set.
    pub fn is_pressed(&self, button: Button) -> (r: bool)
        ensures
            r == self.holds(button),
    {
        (self.pressed & button.value()) != 0
    }

    /// The pressed named buttons, in bit order.
    pub fn pressed_buttons(&self) -> (v: Vec<Button>)
        ensures
            v@.map_values(|b: Button| b.bits()) == pressed_prefix(self.word(), 14),
    {
        let order: [u16; 14] = [
            0x0001, 0x0002, 0x0004, 0x0008, 0x0010, 0x0020, 0x0040, 0x0080, 0x0100, 0x0200,
            0x0400, 0x0800, 0x1000, 0x2000,
        ];
        assert(forall|i: int| 0 <= i < 14 ==> order@[i] == button_bit(i));
        let mut v: Vec<Button> = Vec::new();
        let mut i: usize = 0;
        while i < 14
            invariant
                i <= 14,
                forall|j: int| 0 <= j < 14 ==> order@[j] == button_bit(j),
                v@.map_values(|b: Button| b.bits()) == pressed_prefix(self.word(), i as nat),
            decreases 14 - i,
        {
            let bit = order[i];
            let ghost old_v = v@;
            if self.pressed & bit != 0 {
                v.push(Button { value: bit });
                assert(v@.map_values(|b: Button| b.bits()) =~= old_v.map_values(|b: Button| b.bits()).push(bit));
            }
            i = i + 1;
        }
        v
    }

    /// The button word.
    pub fn raw_value(&self) -> (r: u16)
        ensures
            r == self.word(),
    {
        self.pressed
    }
}

impl Default for ButtonState {
    fn default() -> (s: Self)
        ensures
            s.word() == 0,
    {
        ButtonState::new()
    }
}

/// The input state carried by one report: buttons, hat and both sticks.
#[derive(Debug, Clone, Copy, PartialEq, Eq, Structural)]
pub struct HidReport {
    pub buttons: ButtonState,
    pub dpad: DPad,
    pub left_stick: StickPosition,
    pub right_stick: StickPosition,
}

/// The fields of a full Pro Controller input report.
#[derive(Debug, Clone, Copy, PartialEq, Eq)]
pub struct ProControllerReport {
    pub report_id: u8,
    pub timer: u8,
    pub battery_connection: u8,
    pub button_status: [u8; 3],
    pub left_stick: [u8; 3],
    pub right_stick: [u8; 3],
    pub vibrator_report: u8,
}

/// The eight bytes `HidReport::to_bytes` writes.
pub open spec fn report_bytes(r: HidReport) -> Seq<u8> {
    let w = r.buttons.word();
    seq![(w % 256) as u8, (w / 256) as u8, r.left_stick.x, r.left_stick.y, r.right_stick.x,
        r.right_stick.y, r.dpad.bits(), 0u8]
}

/// The report `HidReport::from_bytes` reads from at least eight bytes.
pub open spec fn report_from_bytes(b: Seq<u8>) -> HidReport {
    HidReport {
        buttons: ButtonState::from_word_spec((b[0] as nat + b[1] as nat * 256) as u16),
        dpad: DPad::from_bits_spec(b[2]),
        left_stick: StickPosition { x: b[3], y: b[4] },
        right_stick: StickPosition { x: b[5], y: b[6] },
    }
}

impl ButtonState {
    /// The state with this button word.
    pub closed spec fn from_word_spec(word: u16) -> ButtonState {
        ButtonState { pressed: word }
    }

    pub proof fn lemma_from_word(word: u16)
        ensures
            Self::from_word_spec(word).word() == word,
            forall|s: ButtonState| s.word() == word ==> s == Self::from_word_spec(word),
    {
    }
}

impl DPad {
    /// The position with this hat value.
    pub closed spec fn from_bits_spec(value: u8) -> DPad {
        DPad { value }
    }

    pub proof fn lemma_from_bits(value: u8)
        ensures
            Self::from_bits_spec(value).bits() == value,
            forall|d: DPad| d.bits() == value ==> d == Self::from_bits_spec(value),
    {
    }
}

/// The 12-bit stick value the full report carries for an 8-bit axis value:
/// `v * 4095 / 255`, so 0 stays 0, 255 becomes 4095 and the centre 128 becomes 2055.
pub open spec fn stick12(v: u8) -> u16 {
    (v as nat * 4095 / 255) as u16
}

/// Byte 3 of the full report: Y, X, B, A, -, -, R, ZR.
pub open spec fn pro_byte3(w: u16) -> u8 {
    ((if w & 0x0001 != 0 { 0x01u8 } else { 0 }) | (if w & 0x0008 != 0 { 0x02u8 } else { 0 })
        | (if w & 0x0002 != 0 { 0x04u8 } else { 0 }) | (if w & 0x0004 != 0 { 0x08u8 } else { 0 })
        | (if w & 0x0020 != 0 { 0x40u8 } else { 0 }) | (if w & 0x0080 != 0 { 0x80u8 } else { 0 })) as u8
}

/// Byte 4 of the full report: MINUS, PLUS, R_STICK, L_STICK, HOME, CAPTURE.
pub open spec fn pro_byte4(w: u16) -> u8 {
    ((if w & 0x0100 != 0 { 0x01u8 } else { 0 }) | (if w & 0x0200 != 0 { 0x02u8 } else { 0 })
        | (if w & 0x0800 != 0 { 0x04u8 } else { 0 }) | (if w & 0x0400 != 0 { 0x08u8 } else { 0 })
        | (if w & 0x1000 != 0 { 0x10u8 } else { 0 }) | (if w & 0x2000 != 0 { 0x20u8 } else { 0 })) as u8
}

/// The hat bits of byte 5 of the full report.
pub open spec fn pro_hat_bits(hat: u8) -> u8 {
    if hat == 0 { 0x02 }
    else if hat == 1 { 0x06 }
    else if hat == 2 { 0x04 }
    else if hat == 3 { 0x05 }
    else if hat == 4 { 0x01 }
    else if hat == 5 { 0x09 }
    else if hat == 6 { 0x08 }
    else if hat == 7 { 0x0A }
    else { 0x00 }
}

/// Byte 5 of the full report: the hat, then L and ZL.
pub open spec fn pro_byte5(w: u16, hat: u8) -> u8 {
    (pro_hat_bits(hat) | (if w & 0x0010 != 0 { 0x40u8 } else { 0 }) | (if w & 0x0040 != 0 { 0x80u8 } else { 0 })) as u8
}

/// The 64 bytes of the full Pro Controller report for `r` with timer byte `timer`.
pub open spec fn pro_report_bytes(r: HidReport, timer: u8) -> Seq<u8> {
    let w = r.buttons.word();
    let lx = stick12(r.left_stick.x);
    let ly = stick12(r.left_stick.y);
    let rx = stick12(r.right_stick.x);
    let ry = stick12(r.right_stick.y);
    seq![0x30u8, timer, 0x90u8, pro_byte3(w), pro_byte4(w), pro_byte5(w, r.dpad.bits()),
        (lx % 256) as u8, ((lx / 256) % 16 + (ly % 16) * 16) as u8, ((ly / 16) % 256) as u8,
        (rx % 256) as u8, ((rx / 256) % 16 + (ry % 16) * 16) as u8, ((ry / 16) % 256) as u8]
        + Seq::new(52, |i: int| 0u8)
}

fn flag(w: u16, bit: u16, out: u8) -> (r: u8)
    ensures
        r == (if w & bit != 0 { out } else { 0u8 }),
{
    if w & bit != 0 { out } else { 0 }
}

fn pro_b3(w: u16) -> (r: u8)
    ensures
        r == pro_byte3(w),
{
    flag(w, 0x0001, 0x01) | flag(w, 0x0008, 0x02) | flag(w, 0x0002, 0x04) | flag(w, 0x0004, 0x08)
        | flag(w, 0x0020, 0x40) | flag(w, 0x0080, 0x80)
}

fn pro_b4(w: u16) -> (r: u8)
    ensures
        r == pro_byte4(w),
{
    flag(w, 0x0100, 0x01) | flag(w, 0x0200, 0x02) | flag(w, 0x0800, 0x04) | flag(w, 0x0400, 0x08)
        | flag(w, 0x1000, 0x10) | flag(w, 0x2000, 0x20)
}

fn pro_b5(w: u16, hat: u8) -> (r: u8)
    ensures
        r == pro_byte5(w, hat),
{
    let hat_bits: u8 = if hat == 0 { 0x02 }
        else if hat == 1 { 0x06 }
        else if hat == 2 { 0x04 }
        else if hat == 3 { 0x05 }
        else if hat == 4 { 0x01 }
        else if hat == 5 { 0x09 }
        else if hat == 6 { 0x08 }
        else if hat == 7 { 0x0A }
        else { 0x00 };
    hat_bits | flag(w, 0x0010, 0x40) | flag(w, 0x0040, 0x80)
}

fn stick_to_12(v: u8) -> (r: u16)
    ensures
        r == stick12(v),
        r < 4096,
{
    let p: u32 = (v as u32) * 4095;
    (p / 255) as u16
}

impl HidReport {
    /// No button, hat neutral, both sticks centred.
    pub fn new() -> (r: Self)
        ensures
            r.buttons.word() == 0,
            r.dpad.bits() == 8,
            r.left_stick == (StickPosition { x: 128, y: 128 }),
            r.right_stick == (StickPosition { x: 128, y: 128 }),
    {
        HidReport {
            buttons: ButtonState::new(),
            dpad: DPad::NEUTRAL(),
            left_stick: StickPosition::CENTER(),
            right_stick: StickPosition::CENTER(),
        }
    }

    /// The 8-byte report: button word (little endian), left stick, right stick,
    /// hat, and a zero vendor byte.
    pub fn to_bytes(&self) -> (b: [u8; 8])
        ensures
            b@ == report_bytes(*self),
    {
        let w = self.buttons.raw_value();
        let lo = (w & 0xFF) as u8;
        let hi = (w >> 8) as u8;
        assert(lo == w % 256 && hi == w / 256) by (bit_vector)
            requires lo == (w & 0xFF) as u8, hi == (w >> 8) as u8;
        let b = [lo, hi, self.left_stick.x, self.left_stick.y, self.right_stick.x,
            self.right_stick.y, self.dpad.value(), 0x00];
        assert(b@ =~= report_bytes(*self));
        b
    }

    /// The full 64-byte Pro Controller input report, with `timer` as its timer byte.
    pub fn to_pro_controller_bytes(&self, timer: u8) -> (b: [u8; 64])
        ensures
            b@ == pro_report_bytes(*self, timer),
    {
        let mut report = [0u8; 64];
        report[0] = 0x30;
        report[1] = timer;
        report[2] = 0x90;
        let w = self.buttons.raw_value();
        report[3] = pro_b3(w);
        report[4] = pro_b4(w);
        report[5] = pro_b5(w, self.dpad.value());
        let lx = stick_to_12(self.left_stick.x);
        let ly = stick_to_12(self.left_stick.y);
        let rx = stick_to_12(self.right_stick.x);
        let ry = stick_to_12(self.right_stick.y);
        report[6] = lx as u8;
        report[7] = ((lx >> 8) & 0x0F) as u8 | ((ly & 0x0F) << 4) as u8;
        report[8] = (ly >> 4) as u8;
        report[9] = rx as u8;
        report[10] = ((rx >> 8) & 0x0F) as u8 | ((ry & 0x0F) << 4) as u8;
        report[11] = (ry >> 4) as u8;
        report[12] = 0x00;
        proof {
            lemma_stick_bytes(lx, ly);
            lemma_stick_bytes(rx, ry);
        }
        assert(report@ =~= pro_report_bytes(*self, timer));
        report
    }

    /// Reads a report from at least eight bytes: button word (little endian),
    /// hat, left stick, right stick.
    pub fn from_bytes(bytes: &[u8]) -> (r: Result<Self, String>)
        ensures
            bytes@.len() < 8 <==> r is Err,
            r matches Err(e) ==> e@ == "Invalid HID report size"@,
            r matches Ok(rep) ==> rep == report_from_bytes(bytes@),
    {
        if bytes.len() < 8 {
            return Err(crate::text::owned("Invalid HID report size"));
        }
        let b0 = bytes[0];
        let b1 = bytes[1];
        let w: u16 = (b0 as u16) | ((b1 as u16) << 8);
        assert(w == b0 as nat + b1 as nat * 256) by (bit_vector)
            requires w == (b0 as u16) | ((b1 as u16) << 8);
        proof {
            ButtonState::lemma_from_word(w);
            DPad::lemma_from_bits(bytes@[2]);
        }
        Ok(HidReport {
            buttons: ButtonState::from_word(w),
            dpad: DPad::new(bytes[2]),
            left_stick: StickPosition::new(bytes[3], bytes[4]),
            right_stick: StickPosition::new(bytes[5], bytes[6]),
        })
    }
}

proof fn lemma_stick_bytes(x: u16, y: u16)
    ensures
        x as u8 == x % 256,
        ((x >> 8) & 0x0F) as u8 | ((y & 0x0F) << 4) as u8 == ((x / 256) % 16 + (y % 16) * 16) as u8,
        (y >> 4) as u8 == ((y / 16) % 256) as u8,
{
    assert(x as u8 == x % 256) by (bit_vector);
    assert(((x >> 8) & 0x0F) as u8 | ((y & 0x0F) << 4) as u8 == ((x / 256) % 16 + (y % 16) * 16) as u8) by (bit_vector);
    assert((y >> 4) as u8 == ((y / 16) % 256) as u8) by (bit_vector);
}

impl Default for HidReport {
    fn default() -> (r: Self)
        ensures
            r.buttons.word() == 0,
            r.dpad.bits() == 8,
            r.left_stick == (StickPosition { x: 128, y: 128 }),
            r.right_stick == (StickPosition { x: 128, y: 128 }),
    {
        HidReport::new()
    }
}

/// The kinds of controller the gadget can pose as.
#[derive(Debug, Clone, Copy, PartialEq, Eq, Hash, Structural)]
pub enum ControllerType {
    ProController,
    JoyConLeft,
    JoyConRight,
    JoyConPair,
}

pub open spec fn product_id_of(t: ControllerType) -> u16 {
    match t {
        ControllerType::ProController => 0x2009,
        ControllerType::JoyConLeft => 0x2006,
        ControllerType::JoyConRight => 0x2007,
        ControllerType::JoyConPair => 0x2008,
    }
}

pub open spec fn product_name_of(t: ControllerType) -> Seq<char> {
    match t {
        ControllerType::ProController => "Pro Controller"@,
        ControllerType::JoyConLeft => "Joy-Con (L)"@,
        ControllerType::JoyConRight => "Joy-Con (R)"@,
        ControllerType::JoyConPair => "Joy-Con L/R"@,
    }
}

impl ControllerType {
    /// The USB product id.
    pub fn product_id(&self) -> (r: u16)
        ensures
            r == product_id_of(*self),
    {
        match self {
            ControllerType::ProController => 0x2009,
            ControllerType::JoyConLeft => 0x2006,
            ControllerType::JoyConRight => 0x2007,
            ControllerType::JoyConPair => 0x2008,
        }
    }

    /// The product name.
    pub fn product_name(&self) -> (r: &'static str)
        ensures
            r@ == product_name_of(*self),
    {
        match self {
            ControllerType::ProController => "Pro Controller",
            ControllerType::JoyConLeft => "Joy-Con (L)",
            ControllerType::JoyConRight => "Joy-Con (R)",
            ControllerType::JoyConPair => "Joy-Con L/R",
        }
    }

    /// The text the type's `Display` writes: the product name.
    pub fn display_string(&self) -> (s: String)
        ensures
            s@ == product_name_of(*self),
    {
        crate::text::owned(self.product_name())
    }
}

/// What one step of a command does.
#[derive(Debug, Clone, Copy, PartialEq, Eq, Structural)]
pub enum ActionType {
    PressButton(Button),
    ReleaseButton(Button),
    SetDPad(DPad),
    MoveLeftStick(StickPosition),
    MoveRightStick(StickPosition),
    SetReport(HidReport),
    Wait,
}

/// One step of a command, held for `duration_ms` milliseconds.
#[derive(Debug, Clone, Copy, PartialEq, Eq, Structural)]
pub struct ControllerAction {
    pub action_type: ActionType,
    pub duration_ms: u32,
}

impl ControllerAction {
    pub fn press_button(button: Button, duration_ms: u32) -> (a: Self)
        ensures
            a == (ControllerAction { action_type: ActionType::PressButton(button), duration_ms }),
    {
        ControllerAction { action_type: ActionType::PressButton(button), duration_ms }
    }

    pub fn release_button(button: Button, duration_ms: u32) -> (a: Self)
        ensures
            a == (ControllerAction { action_type: ActionType::ReleaseButton(button), duration_ms }),
    {
        ControllerAction { action_type: ActionType::ReleaseButton(button), duration_ms }
    }

    pub fn set_dpad(dpad: DPad, duration_ms: u32) -> (a: Self)
        ensures
            a == (ControllerAction { action_type: ActionType::SetDPad(dpad), duration_ms }),
    {
        ControllerAction { action_type: ActionType::SetDPad(dpad), duration_ms }
    }

    pub fn move_left_stick(position: StickPosition, duration_ms: u32) -> (a: Self)
        ensures
            a == (ControllerAction { action_type: ActionType::MoveLeftStick(position), duration_ms }),
    {
        ControllerAction { action_type: ActionType::MoveLeftStick(position), duration_ms }
    }

    pub fn move_right_stick(position: StickPosition, duration_ms: u32) -> (a: Self)
        ensures
            a == (ControllerAction { action_type: ActionType::MoveRightStick(position), duration_ms }),
    {
        ControllerAction { action_type: ActionType::MoveRightStick(position), duration_ms }
    }

    pub fn wait(duration_ms: u32) -> (a: Self)
        ensures
            a == (ControllerAction { action_type: ActionType::Wait, duration_ms }),
    {
        ControllerAction { action_type: ActionType::Wait, duration_ms }
    }
}

/// Total duration of a sequence of actions.
pub open spec fn actions_duration(s: Seq<ControllerAction>) -> nat
    decreases s.len(),
{
    if s.len() == 0 { 0 } else { actions_duration(s.drop_last()) + s.last().duration_ms as nat }
}

/// All the actions of the commands, one command after another.
pub open spec fn all_actions(cmds: Seq<ControllerCommand>) -> Seq<ControllerAction>
    decreases cmds.len(),
{
    if cmds.len() == 0 {
        Seq::empty()
    } else {
        all_actions(cmds.drop_last()) + cmds.last().sequence@
    }
}

/// A named sequence of actions.
#[derive(Debug, Clone, PartialEq)]
pub struct ControllerCommand {
    pub sequence: Vec<ControllerAction>,
    pub name: String,
    pub description: Option<String>,
}

impl ControllerCommand {
    /// An empty command.
    pub fn new(name: &str) -> (c: Self)
        ensures
            c.sequence@ == Seq::<ControllerAction>::empty(),
            c.name@ == name@,
            c.description is None,
    {
        ControllerCommand { sequence: Vec::new(), name: crate::text::owned(name), description: None }
    }

    /// The command with a description.
    pub fn with_description(self, description: &str) -> (c: Self)
        ensures
            c.sequence@ == self.sequence@,
            c.name == self.name,
            c.description matches Some(d) && d@ == description@,
    {
        ControllerCommand {
            sequence: self.sequence,
            name: self.name,
            description: Some(crate::text::owned(description)),
        }
    }

    /// The command with one more action at the end.
    pub fn add_action(self, action: ControllerAction) -> (c: Self)
        ensures
            c.sequence@ == self.sequence@.push(action),
            c.name == self.name,
            c.description == self.description,
    {
        let mut c = self;
        c.sequence.push(action);
        c
    }

    /// Sum of the action durations.
    pub fn total_duration_ms(&self) -> (r: u32)
        requires
            actions_duration(self.sequence@) <= u32::MAX,
        ensures
            r == actions_duration(self.sequence@),
    {
        sum_durations(&self.sequence)
    }
}

pub proof fn lemma_actions_duration_prefix(s: Seq<ControllerAction>, i: int)
    requires
        0 <= i <= s.len(),
    ensures
        actions_duration(s.take(i)) <= actions_duration(s),
    decreases s.len() - i,
{
    if i < s.len() {
        lemma_actions_duration_prefix(s, i + 1);
        assert(s.take(i + 1).drop_last() =~= s.take(i));
    } else {
        assert(s.take(i) =~= s);
    }
}

/// Sum of the durations of `actions`.
pub fn sum_durations(actions: &Vec<ControllerAction>) -> (r: u32)
    requires
        actions_duration(actions@) <= u32::MAX,
    ensures
        r == actions_duration(actions@),
{
    let mut total: u32 = 0;
    let mut i: usize = 0;
    while i < actions.len()
        invariant
            i <= actions@.len(),
            total == actions_duration(actions@.take(i as int)),
            actions_duration(actions@) <= u32::MAX,
        decreases actions@.len() - i,
    {
        proof {
            assert(actions@.take(i + 1).drop_last() =~= actions@.take(i as int));
            lemma_actions_duration_prefix(actions@, i + 1);
        }
        total = total + actions[i].duration_ms;
        i = i + 1;
    }
    assert(actions@.take(i as int) =~= actions@);
    total
}

proof fn lemma_pressed_prefix_bits(word: u16, n: nat)
    requires
        n <= 14,
    ensures
        forall|i: int| 0 <= i < pressed_prefix(word, n).len() ==> word & #[trigger] pressed_prefix(word, n)[i] != 0
            && pressed_prefix(word, n)[i] < (if n == 0 { 1 } else { button_bit(n - 1) + 1 }),
        forall|i: int, j: int| 0 <= i < j < pressed_prefix(word, n).len()
            ==> pressed_prefix(word, n)[i] < pressed_prefix(word, n)[j],
        forall|k: int| 0 <= k < n && word & button_bit(k) != 0 ==> pressed_prefix(word, n).contains(button_bit(k)),
    decreases n,
{
    if n > 0 {
        let m = (n - 1) as nat;
        lemma_pressed_prefix_bits(word, m);
        let rest = pressed_prefix(word, m);
        let bit = button_bit(m as int);
        assert((if m == 0 { 1 } else { button_bit(m - 1) + 1 }) <= bit);
        if word & bit != 0 {
            let p = rest.push(bit);
            assert forall|k: int| 0 <= k < n && word & button_bit(k) != 0 implies p.contains(button_bit(k)) by {
                if k == m {
                    assert(p[rest.len() as int] == bit);
                } else {
                    assert(rest.contains(button_bit(k)));
                    let i = choose|i: int| 0 <= i < rest.len() && rest[i] == button_bit(k);
                    assert(p[i] == rest[i]);
                }
            }
        }
    }
}

/// The pressed buttons come in strictly increasing bit order, so none twice;
/// each is a pressed named button (never one of the two unnamed top bits
/// `0x4000` and `0x8000`); and no pressed named button is missing.
pub proof fn lemma_pressed_buttons_in_bit_order(s: ButtonState)
    ensures
        forall|i: int, j: int| 0 <= i < j < pressed_prefix(s.word(), 14).len()
            ==> pressed_prefix(s.word(), 14)[i] < pressed_prefix(s.word(), 14)[j],
        forall|i: int| 0 <= i < pressed_prefix(s.word(), 14).len() ==> s.word() & #[trigger] pressed_prefix(s.word(), 14)[i] != 0
            && pressed_prefix(s.word(), 14)[i] != 0x4000 && pressed_prefix(s.word(), 14)[i] != 0x8000,
        forall|k: int| 0 <= k < 14 && s.word() & #[trigger] button_bit(k) != 0 ==> pressed_prefix(s.word(), 14).contains(button_bit(k)),
{
    lemma_pressed_prefix_bits(s.word(), 14);
}

proof fn lemma_pro_button_bits(w: u16)
    ensures
        (pro_byte3(w) & 0x01 != 0) == (w & 0x0001 != 0),
        (pro_byte3(w) & 0x02 != 0) == (w & 0x0008 != 0),
        (pro_byte3(w) & 0x04 != 0) == (w & 0x0002 != 0),
        (pro_byte3(w) & 0x08 != 0) == (w & 0x0004 != 0),
        (pro_byte3(w) & 0x40 != 0) == (w & 0x0020 != 0),
        (pro_byte3(w) & 0x80 != 0) == (w & 0x0080 != 0),
        pro_byte3(w) & 0x30 == 0,
        (pro_byte4(w) & 0x01 != 0) == (w & 0x0100 != 0),
        (pro_byte4(w) & 0x02 != 0) == (w & 0x0200 != 0),
        (pro_byte4(w) & 0x04 != 0) == (w & 0x0800 != 0),
        (pro_byte4(w) & 0x08 != 0) == (w & 0x0400 != 0),
        (pro_byte4(w) & 0x10 != 0) == (w & 0x1000 != 0),
        (pro_byte4(w) & 0x20 != 0) == (w & 0x2000 != 0),
        pro_byte4(w) & 0xC0 == 0,
{
    let b3 = pro_byte3(w);
    let b4 = pro_byte4(w);
    assert(
        (b3 & 0x01 != 0) == (w & 0x0001 != 0) && (b3 & 0x02 != 0) == (w & 0x0008 != 0)
        && (b3 & 0x04 != 0) == (w & 0x0002 != 0) && (b3 & 0x08 != 0) == (w & 0x0004 != 0)
        && (b3 & 0x40 != 0) == (w & 0x0020 != 0) && (b3 & 0x80 != 0) == (w & 0x0080 != 0) && b3 & 0x30 == 0
    ) by (bit_vector)
        requires
            b3 == ((if w & 0x0001 != 0 { 0x01u8 } else { 0 }) | (if w & 0x0008 != 0 { 0x02u8 } else { 0 })
                | (if w & 0x0002 != 0 { 0x04u8 } else { 0 }) | (if w & 0x0004 != 0 { 0x08u8 } else { 0 })
                | (if w & 0x0020 != 0 { 0x40u8 } else { 0 }) | (if w & 0x0080 != 0 { 0x80u8 } else { 0 })) as u8;
    assert(
        (b4 & 0x01 != 0) == (w & 0x0100 != 0) && (b4 & 0x02 != 0) == (w & 0x0200 != 0)
        && (b4 & 0x04 != 0) == (w & 0x0800 != 0) && (b4 & 0x08 != 0) == (w & 0x0400 != 0)
        && (b4 & 0x10 != 0) == (w & 0x1000 != 0) && (b4 & 0x20 != 0) == (w & 0x2000 != 0) && b4 & 0xC0 == 0
    ) by (bit_vector)
        requires
            b4 == ((if w & 0x0100 != 0 { 0x01u8 } else { 0 }) | (if w & 0x0200 != 0 { 0x02u8 } else { 0 })
                | (if w & 0x0800 != 0 { 0x04u8 } else { 0 }) | (if w & 0x0400 != 0 { 0x08u8 } else { 0 })
                | (if w & 0x1000 != 0 { 0x10u8 } else { 0 }) | (if w & 0x2000 != 0 { 0x20u8 } else { 0 })) as u8;
}

proof fn lemma_pro_byte5_bits(w: u16, hat: u8)
    ensures
        (pro_byte5(w, hat) & 0x40 != 0) == (w & 0x0010 != 0),
        (pro_byte5(w, hat) & 0x80 != 0) == (w & 0x0040 != 0),
        pro_byte5(w, hat) & 0x30 == 0,
        (pro_byte5(w, hat) & 0x02 != 0) == (hat == 0 || hat == 1 || hat == 7),
        (pro_byte5(w, hat) & 0x04 != 0) == (hat == 1 || hat == 2 || hat == 3),
        (pro_byte5(w, hat) & 0x01 != 0) == (hat == 3 || hat == 4 || hat == 5),
        (pro_byte5(w, hat) & 0x08 != 0) == (hat == 5 || hat == 6 || hat == 7),
{
    let h = pro_hat_bits(hat);
    let b5 = pro_byte5(w, hat);
    assert((0x02u8 & 0x01) == 0 && (0x02u8 & 0x02) != 0 && (0x02u8 & 0x04) == 0 && (0x02u8 & 0x08) == 0
        && (0x06u8 & 0x01) == 0 && (0x06u8 & 0x02) != 0 && (0x06u8 & 0x04) != 0 && (0x06u8 & 0x08) == 0
        && (0x04u8 & 0x01) == 0 && (0x04u8 & 0x02) == 0 && (0x04u8 & 0x04) != 0 && (0x04u8 & 0x08) == 0
        && (0x05u8 & 0x01) != 0 && (0x05u8 & 0x02) == 0 && (0x05u8 & 0x04) != 0 && (0x05u8 & 0x08) == 0
        && (0x01u8 & 0x01) != 0 && (0x01u8 & 0x02) == 0 && (0x01u8 & 0x04) == 0 && (0x01u8 & 0x08) == 0
        && (0x09u8 & 0x01) != 0 && (0x09u8 & 0x02) == 0 && (0x09u8 & 0x04) == 0 && (0x09u8 & 0x08) != 0
        && (0x08u8 & 0x01) == 0 && (0x08u8 & 0x02) == 0 && (0x08u8 & 0x04) == 0 && (0x08u8 & 0x08) != 0
        && (0x0Au8 & 0x01) == 0 && (0x0Au8 & 0x02) != 0 && (0x0Au8 & 0x04) == 0 && (0x0Au8 & 0x08) != 0
        && (0x00u8 & 0x01) == 0 && (0x00u8 & 0x02) == 0 && (0x00u8 & 0x04) == 0 && (0x00u8 & 0x08) == 0
        && (0x02u8 & 0xF0) == 0 && (0x06u8 & 0xF0) == 0 && (0x04u8 & 0xF0) == 0 && (0x05u8 & 0xF0) == 0
        && (0x01u8 & 0xF0) == 0 && (0x09u8 & 0xF0) == 0 && (0x08u8 & 0xF0) == 0 && (0x0Au8 & 0xF0) == 0
        && (0x00u8 & 0xF0) == 0) by (bit_vector);
    assert(
        (b5 & 0x40 != 0) == (w & 0x0010 != 0) && (b5 & 0x80 != 0) == (w & 0x0040 != 0) && b5 & 0x30 == 0
        && (b5 & 0x0F) == (h & 0x0F)
    ) by (bit_vector)
        requires
            h & 0xF0 == 0,
            b5 == (h | (if w & 0x0010 != 0 { 0x40u8 } else { 0 }) | (if w & 0x0040 != 0 { 0x80u8 } else { 0 })) as u8;
    assert(h & 0x0F == h) by (bit_vector)
        requires h & 0xF0 == 0;
    assert((b5 & 0x0F) & 0x01 == b5 & 0x01 && (b5 & 0x0F) & 0x02 == b5 & 0x02
        && (b5 & 0x0F) & 0x04 == b5 & 0x04 && (b5 & 0x0F) & 0x08 == b5 & 0x08) by (bit_vector);
}

/// What the full Pro Controller report says, byte by byte: the report id
/// `0x30`, the timer, the battery byte `0x90`; each pressed button sets its own
/// bit (byte 3: Y 0x01, X 0x02, B 0x04, A 0x08, R 0x40, ZR 0x80; byte 4: MINUS
/// 0x01, PLUS 0x02, R_STICK 0x04, L_STICK 0x08, HOME 0x10, CAPTURE 0x20; byte
/// 5: L 0x40, ZL 0x80) and no other bit is set there; the hat sets Down 0x01,
/// Up 0x02, Right 0x04 and Left 0x08 of byte 5 for the directions it points to;
/// each stick axis is scaled from 0..=255 to 0..=4095 and packed as two 12-bit
/// values, x in the low 12 bits of bytes 6..9 and y in the high 12 (likewise
/// bytes 9..12 for the right stick); the rest of the report is zero.
pub proof fn lemma_pro_report_meaning(r: HidReport, timer: u8)
    ensures
        pro_report_bytes(r, timer).len() == 64,
        pro_report_bytes(r, timer)[0] == 0x30,
        pro_report_bytes(r, timer)[1] == timer,
        pro_report_bytes(r, timer)[2] == 0x90,
        (pro_report_bytes(r, timer)[3] & 0x01 != 0) == (r.buttons.word() & 0x0001 != 0),
        (pro_report_bytes(r, timer)[3] & 0x02 != 0) == (r.buttons.word() & 0x0008 != 0),
        (pro_report_bytes(r, timer)[3] & 0x04 != 0) == (r.buttons.word() & 0x0002 != 0),
        (pro_report_bytes(r, timer)[3] & 0x08 != 0) == (r.buttons.word() & 0x0004 != 0),
        (pro_report_bytes(r, timer)[3] & 0x40 != 0) == (r.buttons.word() & 0x0020 != 0),
        (pro_report_bytes(r, timer)[3] & 0x80 != 0) == (r.buttons.word() & 0x0080 != 0),
        pro_report_bytes(r, timer)[3] & 0x30 == 0,
        (pro_report_bytes(r, timer)[4] & 0x01 != 0) == (r.buttons.word() & 0x0100 != 0),
        (pro_report_bytes(r, timer)[4] & 0x02 != 0) == (r.buttons.word() & 0x0200 != 0),
        (pro_report_bytes(r, timer)[4] & 0x04 != 0) == (r.buttons.word() & 0x0800 != 0),
        (pro_report_bytes(r, timer)[4] & 0x08 != 0) == (r.buttons.word() & 0x0400 != 0),
        (pro_report_bytes(r, timer)[4] & 0x10 != 0) == (r.buttons.word() & 0x1000 != 0),
        (pro_report_bytes(r, timer)[4] & 0x20 != 0) == (r.buttons.word() & 0x2000 != 0),
        pro_report_bytes(r, timer)[4] & 0xC0 == 0,
        (pro_report_bytes(r, timer)[5] & 0x40 != 0) == (r.buttons.word() & 0x0010 != 0),
        (pro_report_bytes(r, timer)[5] & 0x80 != 0) == (r.buttons.word() & 0x0040 != 0),
        pro_report_bytes(r, timer)[5] & 0x30 == 0,
        (pro_report_bytes(r, timer)[5] & 0x02 != 0) == (r.dpad.bits() == 0 || r.dpad.bits() == 1 || r.dpad.bits() == 7),
        (pro_report_bytes(r, timer)[5] & 0x04 != 0) == (r.dpad.bits() == 1 || r.dpad.bits() == 2 || r.dpad.bits() == 3),
        (pro_report_bytes(r, timer)[5] & 0x01 != 0) == (r.dpad.bits() == 3 || r.dpad.bits() == 4 || r.dpad.bits() == 5),
        (pro_report_bytes(r, timer)[5] & 0x08 != 0) == (r.dpad.bits() == 5 || r.dpad.bits() == 6 || r.dpad.bits() == 7),
        pro_report_bytes(r, timer)[6] as int + (pro_report_bytes(r, timer)[7] as int % 16) * 256
            == r.left_stick.x as int * 4095 / 255,
        pro_report_bytes(r, timer)[7] as int / 16 + pro_report_bytes(r, timer)[8] as int * 16
            == r.left_stick.y as int * 4095 / 255,
        pro_report_bytes(r, timer)[9] as int + (pro_report_bytes(r, timer)[10] as int % 16) * 256
            == r.right_stick.x as int * 4095 / 255,
        pro_report_bytes(r, timer)[10] as int / 16 + pro_report_bytes(r, timer)[11] as int * 16
            == r.right_stick.y as int * 4095 / 255,
        forall|i: int| 12 <= i < 64 ==> pro_report_bytes(r, timer)[i] == 0,
{
    let w = r.buttons.word();
    lemma_pro_button_bits(w);
    lemma_pro_byte5_bits(w, r.dpad.bits());
    lemma_stick_packing(r.left_stick.x, r.left_stick.y);
    lemma_stick_packing(r.right_stick.x, r.right_stick.y);
}

proof fn lemma_stick_packing(x: u8, y: u8)
    ensures
        ({
            let lx = stick12(x);
            let ly = stick12(y);
            let b0 = (lx % 256) as u8;
            let b1 = ((lx / 256) % 16 + (ly % 16) * 16) as u8;
            let b2 = ((ly / 16) % 256) as u8;
            &&& b0 as int + (b1 as int % 16) * 256 == x as int * 4095 / 255
            &&& b1 as int / 16 + b2 as int * 16 == y as int * 4095 / 255
        }),
{
    assert(x as int * 4095 / 255 < 4096) by (nonlinear_arith)
        requires 0 <= x < 256;
    assert(y as int * 4095 / 255 < 4096) by (nonlinear_arith)
        requires 0 <= y < 256;
}

/// Pressing a button holds it; releasing it lets it go; neither touches a
/// button with other bits; and releasing a button that was up before it was
/// pressed gives back the state before the press.
pub proof fn lemma_press_release(w: u16, b: u16, other: u16)
    ensures
        b != 0 ==> (w | b) & b != 0,
        (w & !b) & b == 0,
        other & b == 0 ==> (w | b) & other == w & other && (w & !b) & other == w & other,
        w & b == 0 ==> (w | b) & !b == w,
{
    assert(b != 0 ==> (w | b) & b != 0) by (bit_vector);
    assert((w & !b) & b == 0) by (bit_vector);
    assert(other & b == 0 ==> (w | b) & other == w & other && (w & !b) & other == w & other) by (bit_vector);
    assert(w & b == 0 ==> (w | b) & !b == w) by (bit_vector);
}

/// Reading back the eight bytes of a report: the buttons always come back;
/// the whole report comes back exactly when both sticks and the hat carry one
/// and the same value, because the hat is written after the sticks but read
/// before them.
pub proof fn lemma_report_bytes_round_trip(r: HidReport)
    ensures
        report_from_bytes(report_bytes(r)).buttons == r.buttons,
        report_from_bytes(report_bytes(r)) == r <==> (r.left_stick.x == r.dpad.bits()
            && r.left_stick.y == r.dpad.bits() && r.right_stick.x == r.dpad.bits()
            && r.right_stick.y == r.dpad.bits()),
{
    let w = r.buttons.word();
    assert((((w % 256) as u8) as nat + ((w / 256) as u8) as nat * 256) as u16 == w) by (bit_vector);
    ButtonState::lemma_from_word(w);
    DPad::lemma_from_bits(r.left_stick.x);
    DPad::lemma_from_bits(r.dpad.bits());
    let back = report_from_bytes(report_bytes(r));
    if back == r {
        assert(back.dpad.bits() == r.left_stick.x);
    }
}

/// The actions of commands, the first command's first.
pub proof fn lemma_all_actions_first(cmds: Seq<ControllerCommand>)
    requires
        cmds.len() > 0,
    ensures
        all_actions(cmds) == cmds[0].sequence@ + all_actions(cmds.drop_first()),
    decreases cmds.len(),
{
    if cmds.len() == 1 {
        assert(cmds.drop_first() =~= Seq::<ControllerCommand>::empty());
        assert(cmds.drop_last() =~= Seq::<ControllerCommand>::empty());
        assert(all_actions(cmds) =~= cmds[0].sequence@ + all_actions(cmds.drop_first()));
    } else {
        lemma_all_actions_first(cmds.drop_last());
        assert(cmds.drop_last().drop_first() =~= cmds.drop_first().drop_last());
        assert(cmds.drop_first().last() == cmds.last());
        assert(all_actions(cmds) =~= cmds[0].sequence@ + all_actions(cmds.drop_first()));
    }
}

} // verus!
