//! Value objects shared by the aggregates: grid coordinates, colours and
//! timestamps.

use vstd::prelude::*;
use crate::text;
use crate::calendar;

verus! {

/// An entity exposes an identifier.
pub trait Entity {
    type Id;

    fn id(&self) -> &Self::Id;
}

/// A point on the drawing grid.
#[derive(Debug, Clone, Copy, PartialEq, Eq, Hash, Structural)]
pub struct Coordinates {
    pub x: u16,
    pub y: u16,
}

/// Absolute difference of two integers.
pub open spec fn abs_diff(a: int, b: int) -> nat {
    if a >= b { (a - b) as nat } else { (b - a) as nat }
}

/// Manhattan distance between two grid points.
pub open spec fn manhattan(a: Coordinates, b: Coordinates) -> nat {
    abs_diff(a.x as int, b.x as int) + abs_diff(a.y as int, b.y as int)
}

/// A Manhattan distance between two points fits in 17 bits.
pub proof fn lemma_manhattan_bound(a: Coordinates, b: Coordinates)
    ensures
        manhattan(a, b) <= 131070,
{
}

/// The characters of `(x, y)`.
pub open spec fn coordinates_text(c: Coordinates) -> Seq<char> {
    seq!['('] + text::decimal(c.x as nat) + seq![',', ' '] + text::decimal(c.y as nat) + seq![')']
}

/// Why text could not be read as coordinates.
#[derive(Debug, Clone, Copy, PartialEq, Eq, Structural)]
pub enum CoordinatesParseError {
    /// Not exactly two comma-separated parts.
    Format,
    /// The first part is not a `u16`.
    X,
    /// The second part is not a `u16`.
    Y,
}

/// Number of leading copies of `c` in `s`.
pub open spec fn leading_count(s: Seq<char>, c: char) -> nat
    decreases s.len(),
{
    if s.len() > 0 && s[0] == c { 1 + leading_count(s.drop_first(), c) } else { 0 }
}

/// Number of trailing copies of `c` in `s`.
pub open spec fn trailing_count(s: Seq<char>, c: char) -> nat
    decreases s.len(),
{
    if s.len() > 0 && s.last() == c { 1 + trailing_count(s.drop_last(), c) } else { 0 }
}

/// `s` without its leading `(`s and then its trailing `)`s.
pub open spec fn strip_parens(s: Seq<char>) -> Seq<char> {
    let t = s.skip(leading_count(s, '(') as int);
    t.take(t.len() - trailing_count(t, ')'))
}

/// Positions of `c` in `s`.
pub open spec fn occurrences(s: Seq<char>, c: char) -> Set<int> {
    Set::new(|i: int| 0 <= i < s.len() && s[i] == c)
}

/// Reading of text as `(x, y)`: parentheses are optional and repeatable,
/// the two parts are separated by the only comma and may carry white space.
pub open spec fn parse_coordinates(s: Seq<char>) -> Result<Coordinates, CoordinatesParseError> {
    let t = strip_parens(s);
    if !(exists|k: int| occurrences(t, ',') == set![k]) {
        Err(CoordinatesParseError::Format)
    } else {
        let k = choose|k: int| occurrences(t, ',') == set![k];
        match text::parse_unsigned(text::trim(t.take(k)), 0xFFFF) {
            None => Err(CoordinatesParseError::X),
            Some(x) => match text::parse_unsigned(text::trim(t.skip(k + 1)), 0xFFFF) {
                None => Err(CoordinatesParseError::Y),
                Some(y) => Ok(Coordinates { x: x as u16, y: y as u16 }),
            },
        }
    }
}

impl Coordinates {
    pub fn new(x: u16, y: u16) -> (r: Self)
        ensures
            r.x == x,
            r.y == y,
    {
        Coordinates { x, y }
    }

    /// The origin `(0, 0)`.
    pub fn origin() -> (r: Self)
        ensures
            r.x == 0,
            r.y == 0,
    {
        Self::new(0, 0)
    }

    /// Whether the point lies in a `width` x `height` grid anchored at the origin.
    pub fn is_within_bounds(&self, width: u16, height: u16) -> (r: bool)
        ensures
            r == (self.x < width && self.y < height),
    {
        self.x < width && self.y < height
    }

    /// Manhattan distance to `other`.
    pub fn manhattan_distance_to(&self, other: &Coordinates) -> (r: u32)
        ensures
            r as nat == manhattan(*self, *other),
    {
        let dx: u16 = if self.x >= other.x { self.x - other.x } else { other.x - self.x };
        let dy: u16 = if self.y >= other.y { self.y - other.y } else { other.y - self.y };
        (dx as u32) + (dy as u32)
    }

    /// The point moved by `(dx, dy)`, or `None` when it would leave the `u16` range.
    pub fn move_by(&self, dx: i16, dy: i16) -> (r: Option<Coordinates>)
        ensures
            ({
                let nx = self.x as int + dx as int;
                let ny = self.y as int + dy as int;
                if 0 <= nx <= u16::MAX && 0 <= ny <= u16::MAX {
                    r == Some(Coordinates { x: nx as u16, y: ny as u16 })
                } else {
                    r is None
                }
            }),
    {
        let new_x: i32 = (self.x as i32) + (dx as i32);
        let new_y: i32 = (self.y as i32) + (dy as i32);
        if new_x >= 0 && new_y >= 0 && new_x <= 65535 && new_y <= 65535 {
            Some(Coordinates::new(new_x as u16, new_y as u16))
        } else {
            None
        }
    }

    /// The smallest box holding all points: `(min corner, max corner)`.
    pub fn bounding_box(coords: &[Coordinates]) -> (r: Option<(Coordinates, Coordinates)>)
        ensures
            coords@.len() == 0 <==> r is None,
            r matches Some((lo, hi)) ==> {
                &&& (forall|i: int| 0 <= i < coords@.len() ==> lo.x <= #[trigger] coords@[i].x
                    && lo.y <= coords@[i].y && coords@[i].x <= hi.x && coords@[i].y <= hi.y)
                &&& exists|i: int| 0 <= i < coords@.len() && #[trigger] coords@[i].x == lo.x
                &&& exists|i: int| 0 <= i < coords@.len() && #[trigger] coords@[i].y == lo.y
                &&& exists|i: int| 0 <= i < coords@.len() && #[trigger] coords@[i].x == hi.x
                &&& exists|i: int| 0 <= i < coords@.len() && #[trigger] coords@[i].y == hi.y
            },
    {
        if coords.len() == 0 {
            return None;
        }
        let mut min_x = coords[0].x;
        let mut min_y = coords[0].y;
        let mut max_x = coords[0].x;
        let mut max_y = coords[0].y;
        let ghost mut ix: int = 0;
        let ghost mut iy: int = 0;
        let ghost mut ax: int = 0;
        let ghost mut ay: int = 0;
        let mut i: usize = 1;
        while i < coords.len()
            invariant
                1 <= i <= coords@.len(),
                forall|j: int| 0 <= j < i ==> min_x <= #[trigger] coords@[j].x
                    && min_y <= coords@[j].y && coords@[j].x <= max_x && coords@[j].y <= max_y,
                0 <= ix < i && coords@[ix].x == min_x,
                0 <= iy < i && coords@[iy].y == min_y,
                0 <= ax < i && coords@[ax].x == max_x,
                0 <= ay < i && coords@[ay].y == max_y,
            decreases coords@.len() - i,
        {
            let c = coords[i];
            if c.x < min_x {
                min_x = c.x;
                proof { ix = i as int; }
            }
            if c.y < min_y {
                min_y = c.y;
                proof { iy = i as int; }
            }
            if c.x > max_x {
                max_x = c.x;
                proof { ax = i as int; }
            }
            if c.y > max_y {
                max_y = c.y;
                proof { ay = i as int; }
            }
            i = i + 1;
        }
        Some((Coordinates::new(min_x, min_y), Coordinates::new(max_x, max_y)))
    }

    /// The text `(x, y)`, as the type's `Display` writes it.
    pub fn display_string(&self) -> (s: String)
        ensures
            s@ == coordinates_text(*self),
    {
        let mut s = String::new();
        text::push_char(&mut s, '(');
        text::push_decimal(&mut s, self.x as u64);
        text::push_char(&mut s, ',');
        text::push_char(&mut s, ' ');
        text::push_decimal(&mut s, self.y as u64);
        text::push_char(&mut s, ')');
        assert(s@ =~= coordinates_text(*self));
        s
    }
}

/// Bounds of `v[lo..hi]` after dropping leading `(`s and then trailing `)`s.
fn strip_parens_range(v: &[char], lo: usize, hi: usize) -> (r: (usize, usize))
    requires
        lo <= hi <= v@.len(),
    ensures
        lo <= r.0 <= r.1 <= hi,
        v@.subrange(r.0 as int, r.1 as int) == strip_parens(v@.subrange(lo as int, hi as int)),
{
    let ghost s = v@.subrange(lo as int, hi as int);
    let mut a = lo;
    while a < hi && v[a] == '('
        invariant
            lo <= a <= hi <= v@.len(),
            s == v@.subrange(lo as int, hi as int),
            leading_count(s, '(') == (a - lo) + leading_count(v@.subrange(a as int, hi as int), '('),
        decreases hi - a,
    {
        assert(v@.subrange(a as int, hi as int).drop_first() =~= v@.subrange(a + 1, hi as int));
        a = a + 1;
    }
    let ghost t = s.skip(leading_count(s, '(') as int);
    assert(t =~= v@.subrange(a as int, hi as int));
    let mut b = hi;
    while b > a && v[b - 1] == ')'
        invariant
            lo <= a <= b <= hi <= v@.len(),
            t == v@.subrange(a as int, hi as int),
            trailing_count(t, ')') == (hi - b) + trailing_count(v@.subrange(a as int, b as int), ')'),
        decreases b - a,
    {
        assert(v@.subrange(a as int, b as int).drop_last() =~= v@.subrange(a as int, b - 1));
        b = b - 1;
    }
    assert(t.take(t.len() - trailing_count(t, ')')) =~= v@.subrange(a as int, b as int));
    (a, b)
}

/// Finds the position of `c` in `v[lo..hi]` when it occurs there exactly once.
pub fn sole_occurrence(v: &[char], lo: usize, hi: usize, c: char) -> (r: Option<usize>)
    requires
        lo <= hi <= v@.len(),
    ensures
        ({
            let t = v@.subrange(lo as int, hi as int);
            match r {
                Some(k) => lo <= k < hi && occurrences(t, c) == set![k - lo],
                None => !(exists|k: int| occurrences(t, c) == set![k]),
            }
        }),
{
    let ghost t = v@.subrange(lo as int, hi as int);
    let mut first: Option<usize> = None;
    let mut i = lo;
    while i < hi
        invariant
            lo <= i <= hi <= v@.len(),
            t == v@.subrange(lo as int, hi as int),
            match first {
                None => forall|j: int| lo <= j < i ==> v@[j] != c,
                Some(k) => lo <= k < i && v@[k as int] == c && forall|j: int|
                    lo <= j < i && j != k ==> v@[j] != c,
            },
        decreases hi - i,
    {
        if v[i] == c {
            match first {
                None => {
                    first = Some(i);
                },
                Some(k) => {
                    assert(t[k - lo] == c && t[i - lo] == c);
                    assert forall|m: int| occurrences(t, c) != set![m] by {
                        if occurrences(t, c) == set![m] {
                            assert(occurrences(t, c).contains(k - lo));
                            assert(occurrences(t, c).contains(i - lo));
                        }
                    }
                    return None;
                },
            }
        }
        i = i + 1;
    }
    match first {
        None => {
            assert forall|m: int| occurrences(t, c) != set![m] by {
                if occurrences(t, c) == set![m] {
                    assert(occurrences(t, c).contains(m));
                    assert(t[m] == v@[lo + m]);
                }
            }
            None
        },
        Some(k) => {
            assert(occurrences(t, c) =~= set![k - lo]);
            Some(k)
        },
    }
}

impl Coordinates {
    /// Reads `(x, y)`; see `parse_coordinates`.
    pub fn parse(s: &str) -> (r: Result<Coordinates, CoordinatesParseError>)
        ensures
            r == parse_coordinates(s@),
    {
        let v = text::chars_of(s);
        let (a, b) = strip_parens_range(v.as_slice(), 0, v.len());
        let ghost t = v@.subrange(a as int, b as int);
        assert(v@.subrange(0, v@.len() as int) =~= s@);
        match sole_occurrence(v.as_slice(), a, b, ',') {
            None => Err(CoordinatesParseError::Format),
            Some(k) => {
                let ghost kk = k - a;
                assert(occurrences(t, ',') == set![kk]);
                assert(exists|m: int| occurrences(t, ',') == set![m]);
                let ghost ch = choose|m: int| occurrences(t, ',') == set![m];
                assert(ch == kk) by {
                    assert(set![ch].contains(ch));
                    assert(set![kk].contains(ch));
                }
                let (xa, xb) = text::trim_range(v.as_slice(), a, k);
                assert(v@.subrange(a as int, k as int) =~= t.take(kk));
                match text::parse_unsigned_range(v.as_slice(), xa, xb, 0xFFFF) {
                    None => Err(CoordinatesParseError::X),
                    Some(x) => {
                        let (ya, yb) = text::trim_range(v.as_slice(), k + 1, b);
                        assert(v@.subrange(k + 1, b as int) =~= t.skip(kk + 1));
                        match text::parse_unsigned_range(v.as_slice(), ya, yb, 0xFFFF) {
                            None => Err(CoordinatesParseError::Y),
                            Some(y) => Ok(Coordinates::new(x as u16, y as u16)),
                        }
                    },
                }
            },
        }
    }
}

impl core::str::FromStr for Coordinates {
    type Err = String;

    fn from_str(s: &str) -> Result<Self, Self::Err> {
        match Coordinates::parse(s) {
            Ok(c) => Ok(c),
            Err(CoordinatesParseError::Format) => Err(
                text::owned("Invalid format. Expected (x, y)"),
            ),
            Err(CoordinatesParseError::X) => Err(text::owned("Invalid x coordinate")),
            Err(CoordinatesParseError::Y) => Err(text::owned("Invalid y coordinate")),
        }
    }
}

/// An RGBA colour.
#[derive(Debug, Clone, Copy, PartialEq, Eq, Hash, Structural)]
pub struct Color {
    pub r: u8,
    pub g: u8,
    pub b: u8,
    pub a: u8,
}

/// `#RRGGBB` for opaque colours, `#RRGGBBAA` otherwise.
pub open spec fn color_hex_text(c: Color) -> Seq<char> {
    let rgb = seq!['#'] + text::hex_byte(c.r) + text::hex_byte(c.g) + text::hex_byte(c.b);
    if c.a == 255 { rgb } else { rgb + text::hex_byte(c.a) }
}

/// `rgb(r, g, b)` for opaque colours, `rgba(r, g, b, a)` otherwise.
pub open spec fn color_text(c: Color) -> Seq<char> {
    let sep = seq![',', ' '];
    if c.a == 255 {
        seq!['r', 'g', 'b', '('] + text::decimal(c.r as nat) + sep + text::decimal(c.g as nat) + sep
            + text::decimal(c.b as nat) + seq![')']
    } else {
        seq!['r', 'g', 'b', 'a', '('] + text::decimal(c.r as nat) + sep + text::decimal(c.g as nat)
            + sep + text::decimal(c.b as nat) + sep + text::decimal(c.a as nat) + seq![')']
    }
}

/// Number of leading `#` bytes.
pub open spec fn leading_hashes(b: Seq<u8>) -> nat
    decreases b.len(),
{
    if b.len() > 0 && b[0] == 0x23 { 1 + leading_hashes(b.drop_first()) } else { 0 }
}

/// The UTF-8 bytes of hexadecimal colour text after its leading `#`s.
pub open spec fn hex_body(s: Seq<char>) -> Seq<u8> {
    let b = vstd::utf8::encode_utf8(s);
    b.skip(leading_hashes(b) as int)
}

/// Value of a hexadecimal digit byte, either case.
pub open spec fn hex_byte_value(c: u8) -> Option<nat> {
    if 0x30 <= c <= 0x39 {
        Some((c - 0x30) as nat)
    } else if 0x61 <= c <= 0x66 {
        Some((c - 0x61 + 10) as nat)
    } else if 0x41 <= c <= 0x46 {
        Some((c - 0x41 + 10) as nat)
    } else {
        None
    }
}

/// What `u8::from_str_radix(_, 16)` gives for a two-byte text: a `+` and one
/// digit, or two digits.
pub open spec fn parse_hex_pair(b0: u8, b1: u8) -> Option<u8> {
    if b0 == 0x2b {
        match hex_byte_value(b1) {
            Some(v) => Some(v as u8),
            None => None,
        }
    } else {
        match (hex_byte_value(b0), hex_byte_value(b1)) {
            (Some(h), Some(l)) => Some((h * 16 + l) as u8),
            _ => None,
        }
    }
}

/// The `k`-th two-byte component of `t`.
pub open spec fn hex_component(t: Seq<u8>, k: int) -> Option<u8> {
    parse_hex_pair(t[2 * k], t[2 * k + 1])
}

/// Whether cutting the body of hexadecimal colour text into two-byte
/// components would split a character: the components are string slices by
/// byte position, taken one after the other until one fails to parse.
pub open spec fn hex_color_cuts_char(t: Seq<u8>) -> bool {
    &&& (t.len() == 6 || t.len() == 8)
    &&& {
        ||| vstd::utf8::is_continuation_byte(t[2])
        ||| (hex_component(t, 0) is Some && vstd::utf8::is_continuation_byte(t[4]))
        ||| (t.len() == 8 && hex_component(t, 0) is Some && hex_component(t, 1) is Some
            && vstd::utf8::is_continuation_byte(t[6]))
    }
}

/// Reading of hexadecimal colour text (`RRGGBB` or `RRGGBBAA` after any `#`s),
/// from its body; an error carries its message.
pub open spec fn color_from_hex(t: Seq<u8>) -> Result<Color, Seq<char>> {
    if t.len() != 6 && t.len() != 8 {
        Err("Invalid hex color format"@)
    } else if hex_component(t, 0) is None {
        Err("Invalid red component"@)
    } else if hex_component(t, 1) is None {
        Err("Invalid green component"@)
    } else if hex_component(t, 2) is None {
        Err("Invalid blue component"@)
    } else if t.len() == 6 {
        Ok(Color { r: hex_component(t, 0)->0, g: hex_component(t, 1)->0, b: hex_component(t, 2)->0, a: 255 })
    } else if hex_component(t, 3) is None {
        Err("Invalid alpha component"@)
    } else {
        Ok(Color {
            r: hex_component(t, 0)->0,
            g: hex_component(t, 1)->0,
            b: hex_component(t, 2)->0,
            a: hex_component(t, 3)->0,
        })
    }
}

proof fn lemma_leading_hashes(b: Seq<u8>, k: int)
    requires
        0 <= k <= b.len(),
        forall|j: int| 0 <= j < k ==> b[j] == 0x23,
    ensures
        leading_hashes(b) == k + leading_hashes(b.skip(k)),
    decreases k,
{
    if k > 0 {
        lemma_leading_hashes(b.drop_first(), k - 1);
        assert(b.drop_first().skip(k - 1) =~= b.skip(k));
    } else {
        assert(b.skip(0) =~= b);
    }
}

/// The value of a hexadecimal digit byte.
fn hex_byte_val(c: u8) -> (r: Option<u8>)
    ensures
        match hex_byte_value(c) {
            Some(v) => r == Some(v as u8),
            None => r is None,
        },
{
    if 0x30 <= c && c <= 0x39 {
        Some(c - 0x30)
    } else if 0x61 <= c && c <= 0x66 {
        Some(c - 0x61 + 10)
    } else if 0x41 <= c && c <= 0x46 {
        Some(c - 0x41 + 10)
    } else {
        None
    }
}

/// A two-byte hexadecimal component; see `parse_hex_pair`.
fn hex_pair(b0: u8, b1: u8) -> (r: Option<u8>)
    ensures
        r == parse_hex_pair(b0, b1),
{
    if b0 == 0x2b {
        hex_byte_val(b1)
    } else {
        match (hex_byte_val(b0), hex_byte_val(b1)) {
            (Some(h), Some(l)) => Some(h * 16 + l),
            _ => None,
        }
    }
}

impl Color {
    pub fn new(r: u8, g: u8, b: u8, a: u8) -> (c: Self)
        ensures
            c == (Color { r, g, b, a }),
    {
        Color { r, g, b, a }
    }

    /// An opaque colour.
    pub fn from_rgb(r: u8, g: u8, b: u8) -> (c: Self)
        ensures
            c == (Color { r, g, b, a: 255 }),
    {
        Self::new(r, g, b, 255)
    }

    pub fn black() -> (c: Self)
        ensures
            c == (Color { r: 0, g: 0, b: 0, a: 255 }),
    {
        Self::from_rgb(0, 0, 0)
    }

    pub fn white() -> (c: Self)
        ensures
            c == (Color { r: 255, g: 255, b: 255, a: 255 }),
    {
        Self::from_rgb(255, 255, 255)
    }

    pub fn red() -> (c: Self)
        ensures
            c == (Color { r: 255, g: 0, b: 0, a: 255 }),
    {
        Self::from_rgb(255, 0, 0)
    }

    pub fn green() -> (c: Self)
        ensures
            c == (Color { r: 0, g: 255, b: 0, a: 255 }),
    {
        Self::from_rgb(0, 255, 0)
    }

    pub fn blue() -> (c: Self)
        ensures
            c == (Color { r: 0, g: 0, b: 255, a: 255 }),
    {
        Self::from_rgb(0, 0, 255)
    }

    /// Fully transparent black.
    pub fn transparent() -> (c: Self)
        ensures
            c == (Color { r: 0, g: 0, b: 0, a: 0 }),
    {
        Self::new(0, 0, 0, 0)
    }

    /// The complementary colour, alpha unchanged.
    pub fn invert(&self) -> (c: Color)
        ensures
            c == (Color { r: (255 - self.r) as u8, g: (255 - self.g) as u8, b: (255 - self.b) as u8, a: self.a }),
    {
        Color::new(255 - self.r, 255 - self.g, 255 - self.b, self.a)
    }

    /// Reads `RRGGBB` or `RRGGBBAA` after any number of `#`s; see
    /// `color_from_hex`. The components are cut by byte position, so text
    /// whose cuts would fall inside a character is not accepted.
    pub fn from_hex(hex: &str) -> (r: Result<Color, String>)
        requires
            !hex_color_cuts_char(hex_body(hex@)),
        ensures
            match color_from_hex(hex_body(hex@)) {
                Ok(c) => r == Ok::<Color, String>(c),
                Err(m) => r matches Err(e) && e@ == m,
            },
    {
        let b = hex.as_bytes();
        let mut k: usize = 0;
        while k < b.len() && b[k] == 0x23
            invariant
                k <= b@.len(),
                forall|j: int| 0 <= j < k ==> b@[j] == 0x23,
            decreases b@.len() - k,
        {
            k = k + 1;
        }
        proof {
            lemma_leading_hashes(b@, k as int);
            if k < b@.len() {
                assert(b@.skip(k as int)[0] == b@[k as int]);
            }
            assert(leading_hashes(b@.skip(k as int)) == 0);
        }
        let ghost t = b@.skip(k as int);
        assert(t == hex_body(hex@));
        let n = b.len() - k;
        if n != 6 && n != 8 {
            return Err(text::owned("Invalid hex color format"));
        }
        let r = match hex_pair(b[k], b[k + 1]) {
            Some(v) => v,
            None => return Err(text::owned("Invalid red component")),
        };
        let g = match hex_pair(b[k + 2], b[k + 3]) {
            Some(v) => v,
            None => return Err(text::owned("Invalid green component")),
        };
        let bl = match hex_pair(b[k + 4], b[k + 5]) {
            Some(v) => v,
            None => return Err(text::owned("Invalid blue component")),
        };
        if n == 6 {
            return Ok(Color::from_rgb(r, g, bl));
        }
        let a = match hex_pair(b[k + 6], b[k + 7]) {
            Some(v) => v,
            None => return Err(text::owned("Invalid alpha component")),
        };
        Ok(Color::new(r, g, bl, a))
    }

    /// Upper-case hexadecimal notation; see `color_hex_text`.
    pub fn to_hex(&self) -> (s: String)
        ensures
            s@ == color_hex_text(*self),
    {
        let mut s = String::new();
        text::push_char(&mut s, '#');
        text::push_hex_byte(&mut s, self.r);
        text::push_hex_byte(&mut s, self.g);
        text::push_hex_byte(&mut s, self.b);
        if self.a != 255 {
            text::push_hex_byte(&mut s, self.a);
        }
        assert(s@ =~= color_hex_text(*self));
        s
    }

    /// The text the type's `Display` writes; see `color_text`.
    pub fn display_string(&self) -> (s: String)
        ensures
            s@ == color_text(*self),
    {
        let mut s = String::new();
        text::push_char(&mut s, 'r');
        text::push_char(&mut s, 'g');
        text::push_char(&mut s, 'b');
        if self.a != 255 {
            text::push_char(&mut s, 'a');
        }
        text::push_char(&mut s, '(');
        text::push_decimal(&mut s, self.r as u64);
        text::push_char(&mut s, ',');
        text::push_char(&mut s, ' ');
        text::push_decimal(&mut s, self.g as u64);
        text::push_char(&mut s, ',');
        text::push_char(&mut s, ' ');
        text::push_decimal(&mut s, self.b as u64);
        if self.a != 255 {
            text::push_char(&mut s, ',');
            text::push_char(&mut s, ' ');
            text::push_decimal(&mut s, self.a as u64);
        }
        text::push_char(&mut s, ')');
        assert(s@ =~= color_text(*self));
        s
    }
}

/// A point in time, in milliseconds since the Unix epoch.
#[derive(Debug, Clone, Copy, PartialEq, Eq, PartialOrd, Ord, Hash, Structural)]
pub struct Timestamp {
    pub epoch_millis: u64,
}

/// Reads the system clock (`SystemTime::now`) as whole milliseconds since the
/// Unix epoch, 0 when the clock is before the epoch. Nothing is stated of the
/// value: it depends on the time of the call.
#[verifier::external_body]
pub fn system_clock_millis() -> u64 {
    std::time::SystemTime::now().duration_since(std::time::UNIX_EPOCH).unwrap_or_default().as_millis() as u64
}

/// The ISO 8601 UTC date-time `YYYY-MM-DDTHH:MM:SS.mmmZ` of the instant `millis`
/// milliseconds after the Unix epoch, in the proleptic Gregorian calendar.
pub open spec fn iso8601_text(millis: u64) -> Seq<char> {
    let (y, mo, d) = calendar::civil_date(millis as nat / 86_400_000);
    let t = millis as nat % 86_400_000;
    text::decimal_padded(y, 4) + seq!['-'] + text::decimal_padded(mo, 2) + seq!['-']
        + text::decimal_padded(d, 2) + seq!['T'] + text::decimal_padded(t / 3_600_000, 2) + seq![':']
        + text::decimal_padded(t / 60_000 % 60, 2) + seq![':'] + text::decimal_padded(t / 1000 % 60, 2)
        + seq!['.'] + text::decimal_padded(millis as nat % 1000, 3) + seq!['Z']
}

/// How long ago an event happened, for `elapsed` seconds, in Japanese.
pub open spec fn human_elapsed_text(elapsed: u64) -> Seq<char> {
    if elapsed < 60 {
        text::decimal(elapsed as nat) + "秒前"@
    } else if elapsed < 3600 {
        text::decimal((elapsed / 60) as nat) + "分前"@
    } else if elapsed < 86400 {
        text::decimal((elapsed / 3600) as nat) + "時間前"@
    } else {
        text::decimal((elapsed / 86400) as nat) + "日前"@
    }
}

/// The text for an elapsed time of `elapsed` seconds; see `human_elapsed_text`.
pub fn human_elapsed(elapsed: u64) -> (s: String)
    ensures
        s@ == human_elapsed_text(elapsed),
{
    let mut s = String::new();
    if elapsed < 60 {
        text::push_decimal(&mut s, elapsed);
        text::push_str(&mut s, "秒前");
    } else if elapsed < 3600 {
        text::push_decimal(&mut s, elapsed / 60);
        text::push_str(&mut s, "分前");
    } else if elapsed < 86400 {
        text::push_decimal(&mut s, elapsed / 3600);
        text::push_str(&mut s, "時間前");
    } else {
        text::push_decimal(&mut s, elapsed / 86400);
        text::push_str(&mut s, "日前");
    }
    s
}

impl Timestamp {
    /// The current time; nothing is stated of it.
    pub fn now() -> (t: Self) {
        Timestamp { epoch_millis: system_clock_millis() }
    }

    pub fn from_millis(millis: u64) -> (t: Self)
        ensures
            t.epoch_millis == millis,
    {
        Timestamp { epoch_millis: millis }
    }

    pub fn from_secs(secs: u64) -> (t: Self)
        requires
            secs * 1000 <= u64::MAX,
        ensures
            t.epoch_millis == secs * 1000,
    {
        Timestamp { epoch_millis: secs * 1000 }
    }

    /// Whole seconds since the epoch.
    pub fn as_secs(&self) -> (r: u64)
        ensures
            r == self.epoch_millis / 1000,
    {
        self.epoch_millis / 1000
    }

    /// Milliseconds from this timestamp to `now`, 0 when `now` is earlier.
    pub fn millis_until(&self, now: u64) -> (r: u64)
        ensures
            r == (if now >= self.epoch_millis { now - self.epoch_millis } else { 0 }),
    {
        now.saturating_sub(self.epoch_millis)
    }

    /// Milliseconds elapsed since this timestamp, 0 if it lies in the future.
    pub fn elapsed_millis(&self) -> u64 {
        self.millis_until(system_clock_millis())
    }

    /// Seconds elapsed since this timestamp.
    pub fn elapsed_secs(&self) -> u64 {
        self.elapsed_millis() / 1000
    }

    /// The timestamp `millis` later, saturating at the largest value.
    pub fn add_millis(&self, millis: u64) -> (t: Self)
        ensures
            t.epoch_millis == (if self.epoch_millis + millis <= u64::MAX { self.epoch_millis + millis } else { u64::MAX as int }),
    {
        Timestamp { epoch_millis: self.epoch_millis.saturating_add(millis) }
    }

    /// The timestamp `secs` seconds later, saturating at the largest value.
    pub fn add_secs(&self, secs: u64) -> (t: Self)
        requires
            secs * 1000 <= u64::MAX,
        ensures
            t.epoch_millis == (if self.epoch_millis + secs * 1000 <= u64::MAX { self.epoch_millis + secs * 1000 } else { u64::MAX as int }),
    {
        self.add_millis(secs * 1000)
    }

    /// The ISO 8601 UTC date-time, `YYYY-MM-DDTHH:MM:SS.mmmZ`; see `iso8601_text`.
    pub fn to_iso8601(&self) -> (s: String)
        ensures
            s@ == iso8601_text(self.epoch_millis),
    {
        let millis = self.epoch_millis;
        let (y, mo, d) = calendar::civil_from_days(millis / 86_400_000);
        let t = millis % 86_400_000;
        let mut s = String::new();
        text::push_decimal_padded(&mut s, y, 4);
        text::push_char(&mut s, '-');
        text::push_decimal_padded(&mut s, mo, 2);
        text::push_char(&mut s, '-');
        text::push_decimal_padded(&mut s, d, 2);
        text::push_char(&mut s, 'T');
        text::push_decimal_padded(&mut s, t / 3_600_000, 2);
        text::push_char(&mut s, ':');
        text::push_decimal_padded(&mut s, t / 60_000 % 60, 2);
        text::push_char(&mut s, ':');
        text::push_decimal_padded(&mut s, t / 1000 % 60, 2);
        text::push_char(&mut s, '.');
        text::push_decimal_padded(&mut s, millis % 1000, 3);
        text::push_char(&mut s, 'Z');
        assert(s@ =~= iso8601_text(self.epoch_millis));
        s
    }

    /// How long ago this timestamp was, in Japanese; see `human_elapsed_text`.
    pub fn to_human_readable(&self) -> (s: String)
        ensures
            exists|elapsed: u64| s@ == human_elapsed_text(elapsed),
    {
        human_elapsed(self.elapsed_secs())
    }

    /// The text the type's `Display` writes: the milliseconds in decimal.
    pub fn display_string(&self) -> (s: String)
        ensures
            s@ == text::decimal(self.epoch_millis as nat),
    {
        let mut s = String::new();
        text::push_decimal(&mut s, self.epoch_millis);
        assert(s@ =~= text::decimal(self.epoch_millis as nat));
        s
    }

    /// Reads a decimal millisecond count (as the type's `FromStr` does).
    pub fn parse(s: &str) -> (r: Option<Timestamp>)
        ensures
            match text::parse_unsigned(s@, u64::MAX as nat) {
                Some(n) => r == Some(Timestamp { epoch_millis: n as u64 }),
                None => r is None,
            },
    {
        let v = text::chars_of(s);
        assert(v@.subrange(0, v@.len() as int) =~= s@);
        match text::parse_unsigned_range(v.as_slice(), 0, v.len(), u64::MAX) {
            Some(n) => Some(Timestamp::from_millis(n)),
            None => None,
        }
    }
}

impl core::str::FromStr for Timestamp {
    type Err = String;

    fn from_str(s: &str) -> Result<Self, Self::Err> {
        match Timestamp::parse(s) {
            Some(t) => Ok(t),
            None => Err(text::owned("Invalid timestamp format")),
        }
    }
}

/// Reading back what `Display` writes for coordinates gives the same
/// coordinates: `parse(c.to_string()) == Ok(c)`.
pub proof fn lemma_coordinates_text_round_trip(c: Coordinates)
    ensures
        parse_coordinates(coordinates_text(c)) == Ok::<Coordinates, CoordinatesParseError>(c),
{
    let dx = text::decimal(c.x as nat);
    let dy = text::decimal(c.y as nat);
    text::lemma_decimal(c.x as nat);
    text::lemma_decimal(c.y as nat);
    text::lemma_decimal_no_space(c.x as nat);
    text::lemma_decimal_no_space(c.y as nat);
    let s = coordinates_text(c);
    let t = s.skip(1);
    let u = dx + seq![',', ' '] + dy;
    assert(text::is_ascii_digit(dx[0]) && text::is_ascii_digit(dy.last()));
    assert(leading_count(s.drop_first(), '(') == 0);
    assert(leading_count(s, '(') == 1);
    assert(t =~= u + seq![')']);
    assert(trailing_count(t.drop_last(), ')') == 0);
    assert(trailing_count(t, ')') == 1);
    assert(strip_parens(s) =~= u);
    let k = dx.len() as int;
    assert(occurrences(u, ',') =~= set![k]) by {
        assert forall|i: int| occurrences(u, ',').contains(i) <==> i == k by {
            if 0 <= i < dx.len() {
                assert(u[i] == dx[i]);
                assert(text::is_ascii_digit(dx[i]));
            } else if dx.len() + 2 <= i < u.len() {
                assert(u[i] == dy[i - dx.len() - 2]);
                assert(text::is_ascii_digit(dy[i - dx.len() - 2]));
            }
        }
    }
    assert(u.take(k) =~= dx);
    assert(u.skip(k + 1) =~= seq![' '] + dy);
    text::lemma_trim_unchanged(dx);
    let w = seq![' '] + dy;
    assert(text::leading_ws(w.drop_first()) == 0) by {
        assert(w.drop_first() =~= dy);
    }
    assert(text::leading_ws(w) == 1);
    assert(w.skip(1) =~= dy);
    text::lemma_trim_unchanged(dy);
    assert(text::trim(w) == dy) by {
        assert(text::trailing_ws(dy) == 0);
        assert(dy.take(dy.len() as int) =~= dy);
    }
    text::lemma_parse_decimal(c.x as nat, 0xFFFF);
    text::lemma_parse_decimal(c.y as nat, 0xFFFF);
    assert(exists|kk: int| occurrences(u, ',') == set![kk]);
    let kk = choose|kk: int| occurrences(u, ',') == set![kk];
    assert(occurrences(u, ',').contains(kk));
    assert(kk == k);
    assert(text::parse_unsigned(text::trim(u.take(k)), 0xFFFF) == Some(c.x as nat));
    assert(text::parse_unsigned(text::trim(u.skip(k + 1)), 0xFFFF) == Some(c.y as nat));
}

/// A hexadecimal digit of `to_hex` reads back as its value.
proof fn lemma_hex_digit_value(d: nat)
    requires
        d < 16,
    ensures
        (text::hex_digit_upper(d) as nat) < 128,
        hex_byte_value(text::hex_digit_upper(d) as u8) == Some(d),
        text::hex_digit_upper(d) as u8 != 0x2b,
        text::hex_digit_upper(d) as u8 != 0x23,
{
}

/// Reading back the hexadecimal notation of a colour gives the same colour:
/// `from_hex(c.to_hex()) == Ok(c)`, and that text is always accepted.
pub proof fn lemma_color_hex_round_trip(c: Color)
    ensures
        !hex_color_cuts_char(hex_body(color_hex_text(c))),
        color_from_hex(hex_body(color_hex_text(c))) == Ok::<Color, Seq<char>>(c),
{
    let s = color_hex_text(c);
    lemma_hex_digit_value((c.r / 16) as nat);
    lemma_hex_digit_value((c.r % 16) as nat);
    lemma_hex_digit_value((c.g / 16) as nat);
    lemma_hex_digit_value((c.g % 16) as nat);
    lemma_hex_digit_value((c.b / 16) as nat);
    lemma_hex_digit_value((c.b % 16) as nat);
    lemma_hex_digit_value((c.a / 16) as nat);
    lemma_hex_digit_value((c.a % 16) as nat);
    assert(vstd::utf8::is_ascii_chars(s));
    vstd::utf8::is_ascii_chars_encode_utf8(s);
    let b = vstd::utf8::encode_utf8(s);
    assert(b[0] == 0x23);
    assert(b[1] == s[1] as u8);
    assert(leading_hashes(b.drop_first()) == 0);
    assert(leading_hashes(b) == 1);
    let t = b.skip(1);
    assert(t.len() == s.len() - 1);
    assert forall|i: int| 0 <= i < t.len() implies #[trigger] t[i] == s[i + 1] as u8 && (s[i + 1] as nat) < 128 by {
        assert(t[i] == b[i + 1]);
    }
    assert(hex_component(t, 0) == Some(c.r));
    assert(hex_component(t, 1) == Some(c.g));
    assert(hex_component(t, 2) == Some(c.b));
    if c.a != 255 {
        assert(hex_component(t, 3) == Some(c.a));
    }
}

/// Reading back the text `Display` writes for a timestamp gives the same
/// timestamp.
pub proof fn lemma_timestamp_text_round_trip(t: Timestamp)
    ensures
        text::parse_unsigned(text::decimal(t.epoch_millis as nat), u64::MAX as nat) == Some(t.epoch_millis as nat),
{
    text::lemma_parse_decimal(t.epoch_millis as nat, u64::MAX as nat);
}

} // verus!
