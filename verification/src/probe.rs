//! What the program reads back from the system (`/proc/cpuinfo`, `lsmod`,
//! the gadget's files under configfs) and the values it writes there.

use vstd::prelude::*;
use crate::boot_config::{split_on, split_text, starts_with, text_starts_with, texts, trimmed};
use crate::hardware::{UsbGadget, UsbGadgetState, is_pro_controller_descriptor};
use crate::text::{self, digit_char, has_substring, trailing_ws, trim};

verus! {

/// Lower-case hexadecimal digit for `d` (`d < 16`).
pub open spec fn hex_digit_lower(d: nat) -> char {
    if d < 10 {
        digit_char(d)
    } else {
        (('a' as nat) + (d - 10)) as char
    }
}

/// A 16-bit USB identifier as configfs takes it: `0x` and four lower-case
/// hexadecimal digits (`format!("0x{:04x}", v)`).
pub open spec fn usb_id_chars(v: u16) -> Seq<char> {
    "0x"@ + seq![
        hex_digit_lower((v / 4096) as nat),
        hex_digit_lower(((v / 256) % 16) as nat),
        hex_digit_lower(((v / 16) % 16) as nat),
        hex_digit_lower((v % 16) as nat),
    ]
}

fn lower_hex_digit(d: u16) -> (c: char)
    requires
        d < 16,
    ensures
        c == hex_digit_lower(d as nat),
{
    if d < 10 {
        text::digit(d as u64)
    } else if d == 10 { 'a' }
    else if d == 11 { 'b' }
    else if d == 12 { 'c' }
    else if d == 13 { 'd' }
    else if d == 14 { 'e' }
    else { 'f' }
}

/// A USB identifier as written to configfs; see `usb_id_chars`.
pub fn usb_id_text(v: u16) -> (r: String)
    ensures
        r@ == usb_id_chars(v),
{
    let mut s = text::owned("0x");
    text::push_char(&mut s, lower_hex_digit(v / 4096));
    text::push_char(&mut s, lower_hex_digit((v / 256) % 16));
    text::push_char(&mut s, lower_hex_digit((v / 16) % 16));
    text::push_char(&mut s, lower_hex_digit(v % 16));
    proof {
        reveal_strlit("0x");
    }
    assert(s@ =~= usb_id_chars(v));
    s
}

/// The controller a gadget is bound to, from the content of its `UDC` file:
/// the content trimmed, or none when that is empty (the gadget is unbound).
pub fn udc_binding(content: &str) -> (r: Option<String>)
    ensures
        trim(content@).len() == 0 ==> r is None,
        trim(content@).len() > 0 ==> (r matches Some(s) && s@ == trim(content@)),
{
    let t = trimmed(content);
    if t.as_str().is_empty() {
        None
    } else {
        Some(t)
    }
}

/// The gadget `id` as configfs shows it: active and bound to the controller
/// named in its `UDC` file, or configured when that file is empty.
pub fn gadget_from_udc(id: &str, udc_content: &str) -> (g: UsbGadget)
    ensures
        g.id@ == id@,
        is_pro_controller_descriptor(g.descriptor),
        g.gadget_path@ == "/sys/kernel/config/usb_gadget"@,
        trim(udc_content@).len() == 0 ==> g.state == UsbGadgetState::Configured && g.udc_name is None,
        trim(udc_content@).len() > 0 ==> g.state == UsbGadgetState::Active
            && (g.udc_name matches Some(n) && n@ == trim(udc_content@)),
{
    let mut g = UsbGadget::new(id);
    match udc_binding(udc_content) {
        Some(name) => {
            g.state = UsbGadgetState::Active;
            g.udc_name = Some(name);
        },
        None => {
            g.state = UsbGadgetState::Configured;
        },
    }
    g
}

/// The device numbers of the HID function, from its `dev` file
/// (`major:minor`): the two pieces of the trimmed content around its one
/// colon, or `236` and `0` when it is not of that form.
pub open spec fn device_numbers_of(content: Seq<char>) -> (Seq<char>, Seq<char>) {
    let parts = split_on(trim(content), ':');
    if parts.len() == 2 {
        (parts[0], parts[1])
    } else {
        ("236"@, "0"@)
    }
}

/// The device numbers of the HID function; see `device_numbers_of`.
pub fn device_numbers(content: &str) -> (r: (String, String))
    ensures
        r.0@ == device_numbers_of(content@).0,
        r.1@ == device_numbers_of(content@).1,
{
    let t = trimmed(content);
    let parts = split_text(t.as_str(), ':');
    if parts.len() == 2 {
        assert(texts(parts@)[0] == parts@[0]@);
        assert(texts(parts@)[1] == parts@[1]@);
        (parts[0].clone(), parts[1].clone())
    } else {
        (text::owned("236"), text::owned("0"))
    }
}

/// Whether a module is loaded, from the lines `lsmod` prints: some line
/// begins with its name.
pub fn module_listed(lines: &Vec<String>, module: &str) -> (r: bool)
    ensures
        r == exists|i: int| 0 <= i < lines@.len() && starts_with(#[trigger] lines@[i]@, module@),
{
    let mut i: usize = 0;
    while i < lines.len()
        invariant
            i <= lines@.len(),
            forall|j: int| 0 <= j < i ==> !starts_with(#[trigger] lines@[j]@, module@),
        decreases lines@.len() - i,
    {
        if text_starts_with(lines[i].as_str(), module) {
            return true;
        }
        i = i + 1;
    }
    false
}

/// The value of a `key : value` line of `/proc/cpuinfo`: the text between
/// its first and second colon, trimmed, or nothing when it has no colon.
pub open spec fn field_value(line: Seq<char>) -> Seq<char> {
    let parts = split_on(line, ':');
    if parts.len() > 1 {
        trim(parts[1])
    } else {
        Seq::empty()
    }
}

/// The model and the hardware named by the lines of `/proc/cpuinfo`: the
/// value of the last line beginning with `Model` or `model name`, and of
/// the last one beginning with `Hardware` (nothing where there is none).
pub open spec fn cpu_fields(lines: Seq<Seq<char>>) -> (Seq<char>, Seq<char>)
    decreases lines.len(),
{
    if lines.len() == 0 {
        (Seq::empty(), Seq::empty())
    } else {
        let before = cpu_fields(lines.drop_last());
        let l = lines.last();
        if starts_with(l, "Model"@) || starts_with(l, "model name"@) {
            (field_value(l), before.1)
        } else if starts_with(l, "Hardware"@) {
            (before.0, field_value(l))
        } else {
            before
        }
    }
}

fn field_value_text(line: &str) -> (r: String)
    ensures
        r@ == field_value(line@),
{
    let parts = split_text(line, ':');
    if parts.len() > 1 {
        assert(texts(parts@)[1] == parts@[1]@);
        trimmed(parts[1].as_str())
    } else {
        String::new()
    }
}

/// The model and the hardware named by `/proc/cpuinfo`; see `cpu_fields`.
pub fn cpu_info_fields(lines: &Vec<String>) -> (r: (String, String))
    ensures
        r.0@ == cpu_fields(texts(lines@)).0,
        r.1@ == cpu_fields(texts(lines@)).1,
{
    let mut model = String::new();
    let mut hardware = String::new();
    let mut i: usize = 0;
    while i < lines.len()
        invariant
            i <= lines@.len(),
            model@ == cpu_fields(texts(lines@.take(i as int))).0,
            hardware@ == cpu_fields(texts(lines@.take(i as int))).1,
        decreases lines@.len() - i,
    {
        proof {
            let t = texts(lines@.take(i + 1));
            assert(t.drop_last() =~= texts(lines@.take(i as int)));
            assert(t.last() == lines@[i as int]@);
        }
        let l = lines[i].as_str();
        if text_starts_with(l, "Model") || text_starts_with(l, "model name") {
            model = field_value_text(l);
        } else if text_starts_with(l, "Hardware") {
            hardware = field_value_text(l);
        }
        i = i + 1;
    }
    assert(lines@.take(i as int) =~= lines@);
    (model, hardware)
}

/// `s` without its trailing white space (`str::trim_end`).
pub open spec fn trim_end(s: Seq<char>) -> Seq<char> {
    s.take(s.len() - trailing_ws(s))
}

fn trim_end_text(s: &str) -> (r: String)
    ensures
        r@ == trim_end(s@),
{
    let v = text::chars_of(s);
    let mut b = v.len();
    assert(v@.take(b as int) =~= v@);
    while b > 0 && text::char_is_white_space(v[b - 1])
        invariant
            b <= v@.len(),
            v@ == s@,
            trailing_ws(v@) == (v@.len() - b) + trailing_ws(v@.take(b as int)),
        decreases b,
    {
        assert(v@.take(b as int).drop_last() =~= v@.take(b - 1));
        b = b - 1;
    }
    assert(trailing_ws(v@.take(b as int)) == 0);
    assert(v@.subrange(0, b as int) =~= trim_end(s@));
    text::string_from_range(v.as_slice(), 0, b)
}

/// The boot configuration with `line` appended, or none when the file
/// already mentions it: its text without trailing white space, then the
/// line, each followed by a newline.
pub open spec fn config_with_line(content: Seq<char>, line: Seq<char>) -> Option<Seq<char>> {
    if has_substring(content, line) {
        None
    } else {
        Some(trim_end(content) + seq!['\n'] + line + seq!['\n'])
    }
}

/// The boot configuration with `line` appended; see `config_with_line`.
pub fn config_with_overlay(content: &str, line: &str) -> (r: Option<String>)
    ensures
        match config_with_line(content@, line@) {
            Some(t) => r matches Some(s) && s@ == t,
            None => r is None,
        },
{
    if text::contains_str(content, line) {
        None
    } else {
        let mut s = trim_end_text(content);
        text::push_char(&mut s, '\n');
        text::push_str(&mut s, line);
        text::push_char(&mut s, '\n');
        Some(s)
    }
}

/// The HID report descriptor of the Pro Controller gadget that the gadget
/// repository configures: a game pad with 16 buttons, a hat switch and four
/// 8-bit axes (X, Y, Rx, Ry).
pub fn pro_controller_report_descriptor() -> (r: [u8; 64])
    ensures
        r@ == seq![
            0x05u8, 0x01, 0x09, 0x05, 0xA1, 0x01, 0x05, 0x09, 0x19, 0x01, 0x29, 0x10, 0x15, 0x00,
            0x25, 0x01, 0x75, 0x01, 0x95, 0x10, 0x81, 0x02, 0x05, 0x01, 0x09, 0x39, 0x15, 0x00,
            0x25, 0x07, 0x75, 0x04, 0x95, 0x01, 0x81, 0x42, 0x75, 0x04, 0x95, 0x01, 0x81, 0x01,
            0x05, 0x01, 0x09, 0x30, 0x09, 0x31, 0x09, 0x33, 0x09, 0x34, 0x15, 0x00, 0x26, 0xFF,
            0x00, 0x75, 0x08, 0x95, 0x04, 0x81, 0x02, 0xC0,
        ],
{
    let r: [u8; 64] = [
        0x05, 0x01, 0x09, 0x05, 0xA1, 0x01, 0x05, 0x09, 0x19, 0x01, 0x29, 0x10, 0x15, 0x00,
        0x25, 0x01, 0x75, 0x01, 0x95, 0x10, 0x81, 0x02, 0x05, 0x01, 0x09, 0x39, 0x15, 0x00,
        0x25, 0x07, 0x75, 0x04, 0x95, 0x01, 0x81, 0x42, 0x75, 0x04, 0x95, 0x01, 0x81, 0x01,
        0x05, 0x01, 0x09, 0x30, 0x09, 0x31, 0x09, 0x33, 0x09, 0x34, 0x15, 0x00, 0x26, 0xFF,
        0x00, 0x75, 0x08, 0x95, 0x04, 0x81, 0x02, 0xC0,
    ];
    r
}

/// The HID report descriptor of the Pokken Tournament DX Pro Pad that the
/// gadget manager presents: 16 buttons, a hat switch, four 8-bit axes (X, Y,
/// Z, Rz), a vendor byte and an 8-byte output report.
pub fn pokken_report_descriptor() -> (r: [u8; 86])
    ensures
        r@ == seq![
            0x05u8, 0x01, 0x09, 0x05, 0xA1, 0x01, 0x15, 0x00, 0x25, 0x01, 0x35, 0x00, 0x45, 0x01,
            0x75, 0x01, 0x95, 0x10, 0x05, 0x09, 0x19, 0x01, 0x29, 0x10, 0x81, 0x02, 0x05, 0x01,
            0x25, 0x07, 0x46, 0x3B, 0x01, 0x75, 0x04, 0x95, 0x01, 0x65, 0x14, 0x09, 0x39, 0x81,
            0x42, 0x65, 0x00, 0x95, 0x01, 0x81, 0x01, 0x26, 0xFF, 0x00, 0x46, 0xFF, 0x00, 0x09,
            0x30, 0x09, 0x31, 0x09, 0x32, 0x09, 0x35, 0x75, 0x08, 0x95, 0x04, 0x81, 0x02, 0x06,
            0x00, 0xFF, 0x09, 0x20, 0x95, 0x01, 0x81, 0x02, 0x0A, 0x21, 0x26, 0x95, 0x08, 0x91,
            0x02, 0xC0,
        ],
{
    let r: [u8; 86] = [
        0x05, 0x01, 0x09, 0x05, 0xA1, 0x01, 0x15, 0x00, 0x25, 0x01, 0x35, 0x00, 0x45, 0x01,
        0x75, 0x01, 0x95, 0x10, 0x05, 0x09, 0x19, 0x01, 0x29, 0x10, 0x81, 0x02, 0x05, 0x01,
        0x25, 0x07, 0x46, 0x3B, 0x01, 0x75, 0x04, 0x95, 0x01, 0x65, 0x14, 0x09, 0x39, 0x81,
        0x42, 0x65, 0x00, 0x95, 0x01, 0x81, 0x01, 0x26, 0xFF, 0x00, 0x46, 0xFF, 0x00, 0x09,
        0x30, 0x09, 0x31, 0x09, 0x32, 0x09, 0x35, 0x75, 0x08, 0x95, 0x04, 0x81, 0x02, 0x06,
        0x00, 0xFF, 0x09, 0x20, 0x95, 0x01, 0x81, 0x02, 0x0A, 0x21, 0x26, 0x95, 0x08, 0x91,
        0x02, 0xC0,
    ];
    r
}

} // verus!
