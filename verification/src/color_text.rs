//! Reading a colour from text: `#RRGGBB[AA]`, `rgb(r, g, b)`,
//! `rgba(r, g, b, a)` or a colour name.

use vstd::prelude::*;
use crate::boot_config::{split_on, split_text, starts_with, text_starts_with, texts, trimmed};
use crate::shared::{Color, color_from_hex, color_text, hex_body, hex_color_cuts_char};
use crate::text::{self, lowercase, parse_unsigned, trim, ViewEq};

verus! {

/// A decimal colour component (its text trimmed, `u8::from_str`).
pub open spec fn component_value(p: Seq<char>) -> Option<u8> {
    match parse_unsigned(trim(p), 255) {
        Some(n) => Some(n as u8),
        None => None,
    }
}

/// The colour of three (or, with `alpha`, four) decimal components; the
/// first that does not read gives its error.
pub open spec fn color_from_components(parts: Seq<Seq<char>>, alpha: bool) -> Result<Color, Seq<char>> {
    if component_value(parts[0]) is None {
        Err("Invalid red component"@)
    } else if component_value(parts[1]) is None {
        Err("Invalid green component"@)
    } else if component_value(parts[2]) is None {
        Err("Invalid blue component"@)
    } else if !alpha {
        Ok(Color {
            r: component_value(parts[0])->0,
            g: component_value(parts[1])->0,
            b: component_value(parts[2])->0,
            a: 255,
        })
    } else if component_value(parts[3]) is None {
        Err("Invalid alpha component"@)
    } else {
        Ok(Color {
            r: component_value(parts[0])->0,
            g: component_value(parts[1])->0,
            b: component_value(parts[2])->0,
            a: component_value(parts[3])->0,
        })
    }
}

/// The colour named by lower-case text, if it is one of the six names.
pub open spec fn named_color(l: Seq<char>) -> Option<Color> {
    if l == "black"@ {
        Some(Color { r: 0, g: 0, b: 0, a: 255 })
    } else if l == "white"@ {
        Some(Color { r: 255, g: 255, b: 255, a: 255 })
    } else if l == "red"@ {
        Some(Color { r: 255, g: 0, b: 0, a: 255 })
    } else if l == "green"@ {
        Some(Color { r: 0, g: 255, b: 0, a: 255 })
    } else if l == "blue"@ {
        Some(Color { r: 0, g: 0, b: 255, a: 255 })
    } else if l == "transparent"@ {
        Some(Color { r: 0, g: 0, b: 0, a: 0 })
    } else {
        None
    }
}

/// Whether text is of the functional form `<prefix>...)`.
pub open spec fn functional(t: Seq<char>, prefix: Seq<char>) -> bool {
    starts_with(t, prefix) && t.len() > 0 && t.last() == ')'
}

/// The reading of a colour from text, trimmed: `#` starts hexadecimal
/// notation (`color_from_hex`); `rgb(...)` holds three comma-separated
/// decimal components and `rgba(...)` four; anything else is a colour name,
/// compared in lower case. An error carries its message.
pub open spec fn color_from_text(s: Seq<char>) -> Result<Color, Seq<char>> {
    let t = trim(s);
    if t.len() > 0 && t[0] == '#' {
        color_from_hex(hex_body(t))
    } else if functional(t, "rgb("@) {
        let parts = split_on(t.subrange(4, t.len() - 1), ',');
        if parts.len() != 3 { Err("Invalid RGB format"@) } else { color_from_components(parts, false) }
    } else if functional(t, "rgba("@) {
        let parts = split_on(t.subrange(5, t.len() - 1), ',');
        if parts.len() != 4 { Err("Invalid RGBA format"@) } else { color_from_components(parts, true) }
    } else {
        match named_color(lowercase(t)) {
            Some(c) => Ok(c),
            None => Err("Unknown color name: "@ + t),
        }
    }
}

/// Whether reading the text is defined: hexadecimal notation whose
/// components would be cut inside a character has no reading.
pub open spec fn color_text_readable(s: Seq<char>) -> bool {
    let t = trim(s);
    t.len() > 0 && t[0] == '#' ==> !hex_color_cuts_char(hex_body(t))
}

fn component(p: &String) -> (r: Option<u8>)
    ensures
        r == component_value(p@),
{
    let w = text::chars_of(p.as_str());
    let (a, b) = text::trim_range(w.as_slice(), 0, w.len());
    assert(w@.subrange(0, w@.len() as int) =~= w@);
    match text::parse_unsigned_range(w.as_slice(), a, b, 255) {
        Some(n) => Some(n as u8),
        None => None,
    }
}

fn components(parts: &Vec<String>, alpha: bool) -> (r: Result<Color, String>)
    requires
        parts@.len() == (if alpha { 4int } else { 3int }),
    ensures
        match color_from_components(texts(parts@), alpha) {
            Ok(c) => r == Ok::<Color, String>(c),
            Err(m) => r matches Err(e) && e@ == m,
        },
{
    let ghost t = texts(parts@);
    assert(t[0] == parts@[0]@ && t[1] == parts@[1]@ && t[2] == parts@[2]@);
    let r = match component(&parts[0]) {
        Some(v) => v,
        None => return Err(text::owned("Invalid red component")),
    };
    let g = match component(&parts[1]) {
        Some(v) => v,
        None => return Err(text::owned("Invalid green component")),
    };
    let b = match component(&parts[2]) {
        Some(v) => v,
        None => return Err(text::owned("Invalid blue component")),
    };
    if !alpha {
        return Ok(Color::from_rgb(r, g, b));
    }
    assert(t[3] == parts@[3]@);
    let a = match component(&parts[3]) {
        Some(v) => v,
        None => return Err(text::owned("Invalid alpha component")),
    };
    Ok(Color::new(r, g, b, a))
}

fn named(l: &str) -> (r: Option<Color>)
    ensures
        r == named_color(l@),
{
    if l.view_eq("black") {
        Some(Color::black())
    } else if l.view_eq("white") {
        Some(Color::white())
    } else if l.view_eq("red") {
        Some(Color::red())
    } else if l.view_eq("green") {
        Some(Color::green())
    } else if l.view_eq("blue") {
        Some(Color::blue())
    } else if l.view_eq("transparent") {
        Some(Color::transparent())
    } else {
        None
    }
}

impl Color {
    /// Reads a colour from text; see `color_from_text`.
    pub fn parse(s: &str) -> (r: Result<Color, String>)
        requires
            color_text_readable(s@),
        ensures
            match color_from_text(s@) {
                Ok(c) => r == Ok::<Color, String>(c),
                Err(m) => r matches Err(e) && e@ == m,
            },
    {
        let t = trimmed(s);
        let v = text::chars_of(t.as_str());
        if v.len() > 0 && v[0] == '#' {
            return Color::from_hex(t.as_str());
        }
        proof {
            reveal_strlit("rgb(");
            reveal_strlit("rgba(");
        }
        if text_starts_with(t.as_str(), "rgb(") && v.len() > 0 && v[v.len() - 1] == ')' {
            assert(v@.take(4)[3] == v@[3]);
            assert("rgb("@[3] == '(');
            let inner = text::string_from_range(v.as_slice(), 4, v.len() - 1);
            let parts = split_text(inner.as_str(), ',');
            if parts.len() != 3 {
                return Err(text::owned("Invalid RGB format"));
            }
            return components(&parts, false);
        }
        if text_starts_with(t.as_str(), "rgba(") && v.len() > 0 && v[v.len() - 1] == ')' {
            assert(v@.take(5)[4] == v@[4]);
            assert("rgba("@[4] == '(');
            let inner = text::string_from_range(v.as_slice(), 5, v.len() - 1);
            let parts = split_text(inner.as_str(), ',');
            if parts.len() != 4 {
                return Err(text::owned("Invalid RGBA format"));
            }
            return components(&parts, true);
        }
        let l = text::to_lowercase(t.as_str());
        match named(l.as_str()) {
            Some(c) => Ok(c),
            None => {
                let mut m = text::owned("Unknown color name: ");
                text::push_str(&mut m, t.as_str());
                Err(m)
            },
        }
    }
}

/// Text without the separator is one piece.
proof fn lemma_split_single(x: Seq<char>, c: char)
    requires
        forall|i: int| 0 <= i < x.len() ==> x[i] != c,
    ensures
        split_on(x, c) == seq![x],
    decreases x.len(),
{
    if x.len() > 0 {
        lemma_split_single(x.drop_last(), c);
        assert(x.drop_last().push(x.last()) =~= x);
    } else {
        assert(x =~= Seq::<char>::empty());
    }
}

/// Splitting at a separator between two texts splits each of them.
proof fn lemma_split_concat(x: Seq<char>, y: Seq<char>, c: char)
    ensures
        split_on(x + seq![c] + y, c) == split_on(x, c) + split_on(y, c),
        split_on(y, c).len() >= 1,
    decreases y.len(),
{
    let xc = x + seq![c];
    if y.len() == 0 {
        assert(xc + y =~= xc);
        assert(xc.drop_last() =~= x);
        assert(split_on(y, c) == seq![Seq::<char>::empty()]);
        assert(split_on(x, c).push(Seq::<char>::empty()) =~= split_on(x, c) + split_on(y, c));
    } else {
        let y0 = y.drop_last();
        lemma_split_concat(x, y0, c);
        assert((xc + y).drop_last() =~= xc + y0);
        assert((xc + y).last() == y.last());
        let a = split_on(x, c);
        let b = split_on(y0, c);
        if y.last() == c {
            assert((a + b).push(Seq::<char>::empty()) =~= a + b.push(Seq::<char>::empty()));
        } else {
            let ab = a + b;
            assert(ab.update(ab.len() - 1, ab.last().push(y.last()))
                =~= a + b.update(b.len() - 1, b.last().push(y.last())));
        }
    }
}

/// A byte value written in decimal, alone or after a space, reads back as
/// a colour component.
proof fn lemma_component_decimal(n: u8)
    ensures
        component_value(text::decimal(n as nat)) == Some(n),
        component_value(seq![' '] + text::decimal(n as nat)) == Some(n),
{
    let d = text::decimal(n as nat);
    text::lemma_decimal(n as nat);
    text::lemma_decimal_no_space(n as nat);
    text::lemma_trim_unchanged(d);
    text::lemma_parse_decimal(n as nat, 255);
    let w = seq![' '] + d;
    assert(w.drop_first() =~= d);
    assert(text::leading_ws(d) == 0);
    assert(text::leading_ws(w) == 1);
    assert(w.skip(1) =~= d);
    assert(text::trailing_ws(d) == 0);
    assert(d.take(d.len() as int) =~= d);
    assert(trim(w) == d);
}

/// Whether a text holds no comma.
pub open spec fn comma_free(x: Seq<char>) -> bool {
    forall|i: int| 0 <= i < x.len() ==> x[i] != ','
}

/// Three comma-free texts joined by commas split back into the three.
proof fn lemma_split_three(x: Seq<char>, y: Seq<char>, z: Seq<char>)
    requires
        comma_free(x),
        comma_free(y),
        comma_free(z),
    ensures
        split_on(x + seq![','] + (y + seq![','] + z), ',') == seq![x, y, z],
{
    lemma_split_single(x, ',');
    lemma_split_single(y, ',');
    lemma_split_single(z, ',');
    lemma_split_concat(y, z, ',');
    lemma_split_concat(x, y + seq![','] + z, ',');
    assert(seq![x] + (seq![y] + seq![z]) =~= seq![x, y, z]);
}

/// Four comma-free texts joined by commas split back into the four.
proof fn lemma_split_four(w: Seq<char>, x: Seq<char>, y: Seq<char>, z: Seq<char>)
    requires
        comma_free(w),
        comma_free(x),
        comma_free(y),
        comma_free(z),
    ensures
        split_on(w + seq![','] + (x + seq![','] + (y + seq![','] + z)), ',') == seq![w, x, y, z],
{
    lemma_split_single(w, ',');
    lemma_split_three(x, y, z);
    lemma_split_concat(w, x + seq![','] + (y + seq![','] + z), ',');
    assert(seq![w] + seq![x, y, z] =~= seq![w, x, y, z]);
}

/// Decimal notation, alone or after a space, holds no comma.
proof fn lemma_decimal_comma_free(n: nat)
    ensures
        comma_free(text::decimal(n)),
        comma_free(seq![' '] + text::decimal(n)),
{
    let d = text::decimal(n);
    text::lemma_decimal(n);
    assert forall|i: int| 0 <= i < d.len() implies d[i] != ',' by {
        assert(text::is_ascii_digit(d[i]));
    }
    let w = seq![' '] + d;
    assert forall|i: int| 0 <= i < w.len() implies w[i] != ',' by {
        if i > 0 {
            assert(w[i] == d[i - 1]);
        }
    }
}

/// The first steps of reading a colour's text: it is its own trim and does
/// not start with `#`.
proof fn lemma_color_text_trimmed(c: Color)
    ensures
        trim(color_text(c)) == color_text(c),
        color_text(c)[0] == 'r',
        color_text(c).last() == ')',
{
    let s = color_text(c);
    assert(s[0] == 'r' && s.last() == ')');
    text::lemma_trim_unchanged(s);
}

/// Reading back the text `Display` writes for a colour (`rgb(r, g, b)`, or
/// `rgba(r, g, b, a)` when it is not opaque) gives the same colour, and that
/// text can always be read: `c.to_string().parse() == Ok(c)`.
#[verifier::rlimit(40)]
pub proof fn lemma_color_text_round_trip(c: Color)
    ensures
        color_text_readable(color_text(c)),
        color_from_text(color_text(c)) == Ok::<Color, Seq<char>>(c),
{
    let s = color_text(c);
    let dr = text::decimal(c.r as nat);
    let g1 = seq![' '] + text::decimal(c.g as nat);
    let b1 = seq![' '] + text::decimal(c.b as nat);
    let a1 = seq![' '] + text::decimal(c.a as nat);
    lemma_component_decimal(c.r);
    lemma_component_decimal(c.g);
    lemma_component_decimal(c.b);
    lemma_component_decimal(c.a);
    lemma_decimal_comma_free(c.r as nat);
    lemma_decimal_comma_free(c.g as nat);
    lemma_decimal_comma_free(c.b as nat);
    lemma_decimal_comma_free(c.a as nat);
    lemma_color_text_trimmed(c);
    reveal_strlit("rgb(");
    reveal_strlit("rgba(");
    if c.a == 255 {
        assert(s.take(4) =~= "rgb("@);
        let inner = s.subrange(4, s.len() - 1);
        assert(inner =~= dr + seq![','] + (g1 + seq![','] + b1));
        lemma_split_three(dr, g1, b1);
    } else {
        assert(s.take(4)[3] != "rgb("@[3]);
        assert(s.take(5) =~= "rgba("@);
        let inner = s.subrange(5, s.len() - 1);
        assert(inner =~= dr + seq![','] + (g1 + seq![','] + (b1 + seq![','] + a1)));
        lemma_split_four(dr, g1, b1, a1);
    }
}

} // verus!
