//! Identifiers of artworks and events: UUIDs, held as their 128-bit value.

use vstd::prelude::*;
use crate::text;

verus! {

/// UUIDs of the `uuid` crate.
#[verifier::external_type_specification]
#[verifier::external_body]
pub struct ExUuid(uuid::Uuid);

/// What `uuid::Uuid::parse_str` reads from a text, as the 128-bit value
/// (`Uuid::as_u128`) of the UUID; `None` where it refuses the text.
pub uninterp spec fn parsed_uuid(s: Seq<char>) -> Option<u128>;

/// The message of the error `uuid::Uuid::parse_str` gives for a text it refuses.
pub uninterp spec fn uuid_error_text(s: Seq<char>) -> Seq<char>;

/// A random version-4 UUID (`uuid::Uuid::new_v4`), as its 128-bit value. The
/// value depends on chance; what holds of every one is the layout `new_v4`
/// sets: version nibble 4 and variant bits `10`.
#[verifier::external_body]
fn random_uuid_bits() -> (r: u128)
    ensures
        (r >> 76u128) & 0xf == 4,
        (r >> 62u128) & 0x3 == 2,
{
    uuid::Uuid::new_v4().as_u128()
}

/// The 128-bit value of a UUID, as `uuid::Uuid::as_u128` gives it.
pub uninterp spec fn uuid_value(u: uuid::Uuid) -> u128;

/// `uuid::Uuid::as_u128`: the 128-bit value of a UUID, named `uuid_value`.
#[verifier::external_body]
fn uuid_bits(u: &uuid::Uuid) -> (r: u128)
    ensures
        r == uuid_value(*u),
{
    u.as_u128()
}

/// `uuid::Uuid::from_u128`: the UUID whose 128-bit value (`as_u128`, named
/// `uuid_value`) is `v`.
#[verifier::external_body]
fn uuid_from_bits(v: u128) -> (r: uuid::Uuid)
    ensures
        uuid_value(r) == v,
{
    uuid::Uuid::from_u128(v)
}

/// `uuid::Uuid::parse_str`, giving the value of the UUID it reads or the
/// message of its error; both are named by the text (`parsed_uuid`,
/// `uuid_error_text`).
#[verifier::external_body]
fn parse_uuid_bits(s: &str) -> (r: Result<u128, String>)
    ensures
        match r {
            Ok(v) => parsed_uuid(s@) == Some(v),
            Err(e) => parsed_uuid(s@) is None && e@ == uuid_error_text(s@),
        },
{
    uuid::Uuid::parse_str(s).map(|u| u.as_u128()).map_err(|e| e.to_string())
}

/// The lower-case hexadecimal digit for `d < 16`.
pub open spec fn lower_hex_digit(d: u128) -> char {
    if d < 10 {
        (('0' as nat) + d) as char
    } else {
        (('a' as nat) + (d - 10)) as char
    }
}

/// Hexadecimal digit `i` (from the most significant) of a 128-bit value.
pub open spec fn uuid_digit(v: u128, i: int) -> char {
    lower_hex_digit((v >> ((4 * (31 - i)) as u128)) & 0xf)
}

/// The 32 hexadecimal digits of a 128-bit value, most significant first.
pub open spec fn uuid_digits(v: u128) -> Seq<char> {
    Seq::new(32, |i: int| uuid_digit(v, i))
}

/// The hyphenated lower-case text of a UUID (its `Display`): digits 8-4-4-4-12.
pub open spec fn uuid_text(v: u128) -> Seq<char> {
    let d = uuid_digits(v);
    d.subrange(0, 8) + seq!['-'] + d.subrange(8, 12) + seq!['-'] + d.subrange(12, 16) + seq!['-']
        + d.subrange(16, 20) + seq!['-'] + d.subrange(20, 32)
}

/// The hyphenated text of the UUID with value `v`; see `uuid_text`.
fn format_uuid(v: u128) -> (s: String)
    ensures
        s@ == uuid_text(v),
{
    let mut s = String::new();
    let mut i: u32 = 0;
    while i < 32
        invariant
            i <= 32,
            s@ == (if i <= 8 {
                uuid_digits(v).subrange(0, i as int)
            } else if i <= 12 {
                uuid_digits(v).subrange(0, 8) + seq!['-'] + uuid_digits(v).subrange(8, i as int)
            } else if i <= 16 {
                uuid_digits(v).subrange(0, 8) + seq!['-'] + uuid_digits(v).subrange(8, 12) + seq!['-']
                    + uuid_digits(v).subrange(12, i as int)
            } else if i <= 20 {
                uuid_digits(v).subrange(0, 8) + seq!['-'] + uuid_digits(v).subrange(8, 12) + seq!['-']
                    + uuid_digits(v).subrange(12, 16) + seq!['-'] + uuid_digits(v).subrange(16, i as int)
            } else {
                uuid_digits(v).subrange(0, 8) + seq!['-'] + uuid_digits(v).subrange(8, 12) + seq!['-']
                    + uuid_digits(v).subrange(12, 16) + seq!['-'] + uuid_digits(v).subrange(16, 20) + seq!['-']
                    + uuid_digits(v).subrange(20, i as int)
            }),
        decreases 32 - i,
    {
        if i == 8 || i == 12 || i == 16 || i == 20 {
            text::push_char(&mut s, '-');
        }
        let shift: u128 = (4 * (31 - i)) as u128;
        let d: u128 = (v >> shift) & 0xf;
        assert(d < 16) by (bit_vector)
            requires d == (v >> shift) & 0xf;
        let c = lower_hex(d);
        assert(c == uuid_digit(v, i as int));
        text::push_char(&mut s, c);
        let ghost d0 = uuid_digits(v);
        assert(d0.subrange(0, i + 1) =~= d0.subrange(0, i as int).push(c));
        assert(i >= 8 ==> d0.subrange(8, i + 1) =~= d0.subrange(8, i as int).push(c));
        assert(i >= 12 ==> d0.subrange(12, i + 1) =~= d0.subrange(12, i as int).push(c));
        assert(i >= 16 ==> d0.subrange(16, i + 1) =~= d0.subrange(16, i as int).push(c));
        assert(i >= 20 ==> d0.subrange(20, i + 1) =~= d0.subrange(20, i as int).push(c));
        i = i + 1;
    }
    assert(s@ =~= uuid_text(v));
    s
}

/// The lower-case hexadecimal digit for `d`.
fn lower_hex(d: u128) -> (c: char)
    requires
        d < 16,
    ensures
        c == lower_hex_digit(d),
{
    match d {
        0 => '0', 1 => '1', 2 => '2', 3 => '3', 4 => '4', 5 => '5', 6 => '6', 7 => '7',
        8 => '8', 9 => '9', 10 => 'a', 11 => 'b', 12 => 'c', 13 => 'd', 14 => 'e', _ => 'f',
    }
}

/// The identifier of an artwork: a UUID.
#[derive(Debug, Clone, Copy, PartialEq, Eq, Hash, Structural)]
pub struct ArtworkId {
    value: u128,
}

/// The identifier of a domain event: a UUID.
#[derive(Debug, Clone, Copy, PartialEq, Eq, Hash, Structural)]
pub struct EventId {
    value: u128,
}

impl ArtworkId {
    /// The 128-bit value of the UUID.
    pub closed spec fn bits(self) -> u128 {
        self.value
    }

    /// A new random (version 4) identifier.
    pub fn generate() -> (id: Self)
        ensures
            (id.bits() >> 76u128) & 0xf == 4,
            (id.bits() >> 62u128) & 0x3 == 2,
    {
        ArtworkId { value: random_uuid_bits() }
    }

    /// The identifier with this UUID.
    pub fn from_uuid(uuid: uuid::Uuid) -> (id: Self)
        ensures
            id.bits() == uuid_value(uuid),
    {
        ArtworkId { value: uuid_bits(&uuid) }
    }

    /// Reads a UUID text; a refused text gives `Invalid UUID format: ` and
    /// the message of the UUID parser.
    pub fn parse(s: &str) -> (r: Result<Self, String>)
        ensures
            match parsed_uuid(s@) {
                Some(v) => r matches Ok(id) && id.bits() == v,
                None => r matches Err(e) && e@ == "Invalid UUID format: "@ + uuid_error_text(s@),
            },
    {
        match parse_uuid_bits(s) {
            Ok(v) => Ok(ArtworkId { value: v }),
            Err(e) => {
                let mut m = text::owned("Invalid UUID format: ");
                text::push_str(&mut m, e.as_str());
                Err(m)
            },
        }
    }

    /// The UUID of the identifier.
    pub fn as_uuid(&self) -> (r: uuid::Uuid)
        ensures
            uuid_value(r) == self.bits(),
    {
        uuid_from_bits(self.value)
    }

    /// The hyphenated text of the UUID (also what `Display` writes).
    pub fn as_str(&self) -> (s: String)
        ensures
            s@ == uuid_text(self.bits()),
    {
        format_uuid(self.value)
    }
}

impl EventId {
    /// The 128-bit value of the UUID.
    pub closed spec fn bits(self) -> u128 {
        self.value
    }

    /// A new random (version 4) identifier.
    pub fn generate() -> (id: Self)
        ensures
            (id.bits() >> 76u128) & 0xf == 4,
            (id.bits() >> 62u128) & 0x3 == 2,
    {
        EventId { value: random_uuid_bits() }
    }

    /// The identifier with this UUID.
    pub fn from_uuid(uuid: uuid::Uuid) -> (id: Self)
        ensures
            id.bits() == uuid_value(uuid),
    {
        EventId { value: uuid_bits(&uuid) }
    }

    /// Reads a UUID text; a refused text gives `Invalid UUID format: ` and
    /// the message of the UUID parser.
    pub fn parse(s: &str) -> (r: Result<Self, String>)
        ensures
            match parsed_uuid(s@) {
                Some(v) => r matches Ok(id) && id.bits() == v,
                None => r matches Err(e) && e@ == "Invalid UUID format: "@ + uuid_error_text(s@),
            },
    {
        match parse_uuid_bits(s) {
            Ok(v) => Ok(EventId { value: v }),
            Err(e) => {
                let mut m = text::owned("Invalid UUID format: ");
                text::push_str(&mut m, e.as_str());
                Err(m)
            },
        }
    }

    /// The UUID of the identifier.
    pub fn as_uuid(&self) -> (r: uuid::Uuid)
        ensures
            uuid_value(r) == self.bits(),
    {
        uuid_from_bits(self.value)
    }

    /// The hyphenated text of the UUID (also what `Display` writes).
    pub fn as_str(&self) -> (s: String)
        ensures
            s@ == uuid_text(self.bits()),
    {
        format_uuid(self.value)
    }
}

impl core::str::FromStr for ArtworkId {
    type Err = String;

    fn from_str(s: &str) -> Result<Self, Self::Err> {
        ArtworkId::parse(s)
    }
}

impl core::str::FromStr for EventId {
    type Err = String;

    fn from_str(s: &str) -> Result<Self, Self::Err> {
        EventId::parse(s)
    }
}

} // verus!
