//! Value objects describing images: formats, resolutions and padding.

use vstd::prelude::*;
use crate::text;
use crate::shared;

verus! {

/// An image file format.
#[derive(Debug, Clone, Copy, PartialEq, Eq, Hash, Structural)]
pub enum ImageFormat {
    Png,
    Jpeg,
    Gif,
    Bmp,
    Webp,
    Svg,
    Ico,
    Tiff,
    Raw,
}

/// The format named by a lower-case file extension.
pub open spec fn format_of_extension(s: Seq<char>) -> Option<ImageFormat> {
    if s == "png"@ {
        Some(ImageFormat::Png)
    } else if s == "jpg"@ || s == "jpeg"@ {
        Some(ImageFormat::Jpeg)
    } else if s == "gif"@ {
        Some(ImageFormat::Gif)
    } else if s == "bmp"@ {
        Some(ImageFormat::Bmp)
    } else if s == "webp"@ {
        Some(ImageFormat::Webp)
    } else if s == "svg"@ {
        Some(ImageFormat::Svg)
    } else if s == "ico"@ {
        Some(ImageFormat::Ico)
    } else if s == "tiff"@ || s == "tif"@ {
        Some(ImageFormat::Tiff)
    } else if s == "raw"@ {
        Some(ImageFormat::Raw)
    } else {
        None
    }
}

/// The format named by a MIME type.
pub open spec fn format_of_mime(s: Seq<char>) -> Option<ImageFormat> {
    if s == "image/png"@ {
        Some(ImageFormat::Png)
    } else if s == "image/jpeg"@ {
        Some(ImageFormat::Jpeg)
    } else if s == "image/gif"@ {
        Some(ImageFormat::Gif)
    } else if s == "image/bmp"@ {
        Some(ImageFormat::Bmp)
    } else if s == "image/webp"@ {
        Some(ImageFormat::Webp)
    } else if s == "image/svg+xml"@ {
        Some(ImageFormat::Svg)
    } else if s == "image/x-icon"@ || s == "image/vnd.microsoft.icon"@ {
        Some(ImageFormat::Ico)
    } else if s == "image/tiff"@ {
        Some(ImageFormat::Tiff)
    } else {
        None
    }
}

/// The canonical extension of a format.
pub open spec fn extension_text(f: ImageFormat) -> Seq<char> {
    match f {
        ImageFormat::Png => "png"@,
        ImageFormat::Jpeg => "jpg"@,
        ImageFormat::Gif => "gif"@,
        ImageFormat::Bmp => "bmp"@,
        ImageFormat::Webp => "webp"@,
        ImageFormat::Svg => "svg"@,
        ImageFormat::Ico => "ico"@,
        ImageFormat::Tiff => "tiff"@,
        ImageFormat::Raw => "raw"@,
    }
}

/// The MIME type of a format.
pub open spec fn mime_text(f: ImageFormat) -> Seq<char> {
    match f {
        ImageFormat::Png => "image/png"@,
        ImageFormat::Jpeg => "image/jpeg"@,
        ImageFormat::Gif => "image/gif"@,
        ImageFormat::Bmp => "image/bmp"@,
        ImageFormat::Webp => "image/webp"@,
        ImageFormat::Svg => "image/svg+xml"@,
        ImageFormat::Ico => "image/x-icon"@,
        ImageFormat::Tiff => "image/tiff"@,
        ImageFormat::Raw => "application/octet-stream"@,
    }
}

/// The part of `s` after its last `c` (all of `s` when `c` does not occur).
pub open spec fn after_last(s: Seq<char>, c: char) -> Seq<char>
    decreases s.len(),
{
    if s.len() == 0 {
        s
    } else if s.last() == c {
        Seq::empty()
    } else {
        after_last(s.drop_last(), c).push(s.last())
    }
}

impl ImageFormat {
    /// The format for a file extension that is already in lower case.
    pub fn from_lowercase_extension(ext: &str) -> (r: Option<Self>)
        ensures
            r == format_of_extension(ext@),
    {
        let v = text::chars_of(ext);
        let v = v.as_slice();
        if text::chars_eq_str(v, "png") {
            Some(ImageFormat::Png)
        } else if text::chars_eq_str(v, "jpg") || text::chars_eq_str(v, "jpeg") {
            Some(ImageFormat::Jpeg)
        } else if text::chars_eq_str(v, "gif") {
            Some(ImageFormat::Gif)
        } else if text::chars_eq_str(v, "bmp") {
            Some(ImageFormat::Bmp)
        } else if text::chars_eq_str(v, "webp") {
            Some(ImageFormat::Webp)
        } else if text::chars_eq_str(v, "svg") {
            Some(ImageFormat::Svg)
        } else if text::chars_eq_str(v, "ico") {
            Some(ImageFormat::Ico)
        } else if text::chars_eq_str(v, "tiff") || text::chars_eq_str(v, "tif") {
            Some(ImageFormat::Tiff)
        } else if text::chars_eq_str(v, "raw") {
            Some(ImageFormat::Raw)
        } else {
            None
        }
    }

    /// The format for a file extension, compared case-insensitively.
    pub fn from_extension(ext: &str) -> (r: Option<Self>)
        ensures
            r == format_of_extension(text::lowercase(ext@)),
            text::all_ascii(ext@) ==> r == format_of_extension(ext@.map_values(|c: char| text::ascii_lower(c))),
    {
        let lower = text::to_lowercase(ext);
        Self::from_lowercase_extension(lower.as_str())
    }

    /// The format for a file name, by the text after its last dot.
    pub fn from_filename(filename: &str) -> (r: Option<Self>)
        ensures
            r == format_of_extension(text::lowercase(after_last(filename@, '.'))),
    {
        let v = text::chars_of(filename);
        let mut i = v.len();
        assert(v@.take(i as int) =~= v@);
        assert(v@.skip(i as int) =~= Seq::<char>::empty());
        assert(after_last(v@, '.') =~= after_last(v@, '.') + Seq::<char>::empty());
        while i > 0 && v[i - 1] != '.'
            invariant
                i <= v@.len(),
                v@ == filename@,
                after_last(v@, '.') == after_last(v@.take(i as int), '.') + v@.skip(i as int),
            decreases i,
        {
            assert(v@.take(i as int).drop_last() =~= v@.take(i - 1));
            assert(v@.skip(i - 1) =~= seq![v@[i - 1]] + v@.skip(i as int));
            assert(after_last(v@.take(i as int), '.') =~= after_last(v@.take(i - 1), '.').push(v@[i - 1]));
            i = i - 1;
        }
        assert(after_last(v@.take(i as int), '.') =~= Seq::<char>::empty());
        let tail = text::string_from_range(v.as_slice(), i, v.len());
        assert(tail@ =~= after_last(filename@, '.'));
        Self::from_extension(tail.as_str())
    }

    /// The format for a MIME type.
    pub fn from_mime_type(mime: &str) -> (r: Option<Self>)
        ensures
            r == format_of_mime(mime@),
    {
        let v = text::chars_of(mime);
        let v = v.as_slice();
        if text::chars_eq_str(v, "image/png") {
            Some(ImageFormat::Png)
        } else if text::chars_eq_str(v, "image/jpeg") {
            Some(ImageFormat::Jpeg)
        } else if text::chars_eq_str(v, "image/gif") {
            Some(ImageFormat::Gif)
        } else if text::chars_eq_str(v, "image/bmp") {
            Some(ImageFormat::Bmp)
        } else if text::chars_eq_str(v, "image/webp") {
            Some(ImageFormat::Webp)
        } else if text::chars_eq_str(v, "image/svg+xml") {
            Some(ImageFormat::Svg)
        } else if text::chars_eq_str(v, "image/x-icon") || text::chars_eq_str(v, "image/vnd.microsoft.icon") {
            Some(ImageFormat::Ico)
        } else if text::chars_eq_str(v, "image/tiff") {
            Some(ImageFormat::Tiff)
        } else {
            None
        }
    }

    /// The canonical file extension.
    pub fn extension(&self) -> (r: &'static str)
        ensures
            r@ == extension_text(*self),
    {
        match self {
            ImageFormat::Png => "png",
            ImageFormat::Jpeg => "jpg",
            ImageFormat::Gif => "gif",
            ImageFormat::Bmp => "bmp",
            ImageFormat::Webp => "webp",
            ImageFormat::Svg => "svg",
            ImageFormat::Ico => "ico",
            ImageFormat::Tiff => "tiff",
            ImageFormat::Raw => "raw",
        }
    }

    /// The MIME type.
    pub fn mime_type(&self) -> (r: &'static str)
        ensures
            r@ == mime_text(*self),
    {
        match self {
            ImageFormat::Png => "image/png",
            ImageFormat::Jpeg => "image/jpeg",
            ImageFormat::Gif => "image/gif",
            ImageFormat::Bmp => "image/bmp",
            ImageFormat::Webp => "image/webp",
            ImageFormat::Svg => "image/svg+xml",
            ImageFormat::Ico => "image/x-icon",
            ImageFormat::Tiff => "image/tiff",
            ImageFormat::Raw => "application/octet-stream",
        }
    }

    /// Whether the format compresses without loss.
    pub fn is_lossless(&self) -> (r: bool)
        ensures
            r == (*self is Png || *self is Gif || *self is Bmp || *self is Tiff || *self is Raw),
    {
        matches!(self, ImageFormat::Png | ImageFormat::Gif | ImageFormat::Bmp | ImageFormat::Tiff | ImageFormat::Raw)
    }

    /// Whether the format can hold animations.
    pub fn supports_animation(&self) -> (r: bool)
        ensures
            r == (*self is Gif || *self is Webp),
    {
        matches!(self, ImageFormat::Gif | ImageFormat::Webp)
    }

    /// Whether the format can hold transparency.
    pub fn supports_transparency(&self) -> (r: bool)
        ensures
            r == (*self is Png || *self is Gif || *self is Webp || *self is Svg || *self is Ico),
    {
        matches!(self, ImageFormat::Png | ImageFormat::Gif | ImageFormat::Webp | ImageFormat::Svg | ImageFormat::Ico)
    }

    /// Whether the format can hold metadata.
    pub fn supports_metadata(&self) -> (r: bool)
        ensures
            r == (*self is Png || *self is Jpeg || *self is Tiff),
    {
        matches!(self, ImageFormat::Png | ImageFormat::Jpeg | ImageFormat::Tiff)
    }

    /// The recommended quality (1-100) for lossy formats.
    pub fn recommended_quality(&self) -> (r: Option<u8>)
        ensures
            r == (match *self {
                ImageFormat::Jpeg => Some(85u8),
                ImageFormat::Webp => Some(80u8),
                _ => None,
            }),
    {
        match self {
            ImageFormat::Jpeg => Some(85),
            ImageFormat::Webp => Some(80),
            _ => None,
        }
    }

    /// Every format, in declaration order.
    pub fn all_formats() -> (r: Vec<Self>)
        ensures
            r@ == seq![ImageFormat::Png, ImageFormat::Jpeg, ImageFormat::Gif, ImageFormat::Bmp,
                ImageFormat::Webp, ImageFormat::Svg, ImageFormat::Ico, ImageFormat::Tiff, ImageFormat::Raw],
    {
        vec![
            ImageFormat::Png,
            ImageFormat::Jpeg,
            ImageFormat::Gif,
            ImageFormat::Bmp,
            ImageFormat::Webp,
            ImageFormat::Svg,
            ImageFormat::Ico,
            ImageFormat::Tiff,
            ImageFormat::Raw,
        ]
    }

    /// Whether browsers display the format.
    pub fn is_web_compatible(&self) -> (r: bool)
        ensures
            r == (*self is Png || *self is Jpeg || *self is Gif || *self is Webp || *self is Svg),
    {
        matches!(self, ImageFormat::Png | ImageFormat::Jpeg | ImageFormat::Gif | ImageFormat::Webp | ImageFormat::Svg)
    }
}

/// A width and height in pixels.
#[derive(Debug, Clone, Copy, PartialEq, Eq, Hash, Structural)]
pub struct Resolution {
    pub width: u32,
    pub height: u32,
}

/// Why a resolution was refused.
#[derive(Debug, Clone, Copy, PartialEq, Eq, Structural)]
pub enum ResolutionError {
    ZeroDimension,
    TooLarge,
    InvalidScale,
    InvalidFormat,
}

/// Named resolutions.
#[derive(Debug, Clone, Copy, PartialEq, Eq, Structural)]
pub enum ResolutionPreset {
    Splatoon3,
    Qvga,
    Vga,
    Svga,
    Xga,
    Hd,
    FullHd,
    UltraHd,
}

/// Size classes by pixel count.
#[derive(Debug, Clone, Copy, PartialEq, Eq, Structural)]
pub enum ResolutionClass {
    Low,
    Medium,
    High,
    VeryHigh,
}

/// Margins that centre a smaller image in a larger frame.
#[derive(Debug, Clone, Copy, PartialEq, Eq, Structural)]
pub struct PaddingInfo {
    pub left: u32,
    pub right: u32,
    pub top: u32,
    pub bottom: u32,
}

/// The outcome of `Resolution::new`.
pub open spec fn checked_resolution(width: u32, height: u32) -> Result<Resolution, ResolutionError> {
    if width == 0 || height == 0 {
        Err(ResolutionError::ZeroDimension)
    } else if width > 65535 || height > 65535 {
        Err(ResolutionError::TooLarge)
    } else {
        Ok(Resolution { width, height })
    }
}

/// The dimensions of a preset.
pub open spec fn preset_dims(p: ResolutionPreset) -> (u32, u32) {
    match p {
        ResolutionPreset::Splatoon3 => (320, 120),
        ResolutionPreset::Qvga => (320, 240),
        ResolutionPreset::Vga => (640, 480),
        ResolutionPreset::Svga => (800, 600),
        ResolutionPreset::Xga => (1024, 768),
        ResolutionPreset::Hd => (1280, 720),
        ResolutionPreset::FullHd => (1920, 1080),
        ResolutionPreset::UltraHd => (3840, 2160),
    }
}

/// Greatest common divisor by Euclid's algorithm.
pub open spec fn gcd(a: nat, b: nat) -> nat
    decreases b,
{
    if b == 0 { a } else { gcd(b, a % b) }
}

/// Whether `d` divides `n`.
pub open spec fn divides(d: nat, n: nat) -> bool {
    exists|k: nat| #[trigger] (d * k) == n
}

/// The size class for a pixel count.
pub open spec fn class_of_pixels(pixels: nat) -> ResolutionClass {
    if pixels <= 320 * 240 {
        ResolutionClass::Low
    } else if pixels <= 1280 * 720 {
        ResolutionClass::Medium
    } else if pixels <= 1920 * 1080 {
        ResolutionClass::High
    } else {
        ResolutionClass::VeryHigh
    }
}

/// `WxH`.
pub open spec fn resolution_short_text(r: Resolution) -> Seq<char> {
    text::decimal(r.width as nat) + seq!['x'] + text::decimal(r.height as nat)
}

/// `W x H (N pixels)`.
pub open spec fn resolution_text(r: Resolution) -> Seq<char> {
    text::decimal(r.width as nat) + seq![' ', 'x', ' '] + text::decimal(r.height as nat) + seq![' ', '(']
        + text::decimal(r.width as nat * r.height as nat) + " pixels)"@
}

/// Reading of text as `WxH`: exactly one `x`, each side a `u32` with optional
/// surrounding white space, then the checks of `Resolution::new`.
pub open spec fn parse_resolution(s: Seq<char>) -> Result<Resolution, ResolutionError> {
    if !(exists|k: int| shared::occurrences(s, 'x') == set![k]) {
        Err(ResolutionError::InvalidFormat)
    } else {
        let k = choose|k: int| shared::occurrences(s, 'x') == set![k];
        match text::parse_unsigned(text::trim(s.take(k)), u32::MAX as nat) {
            None => Err(ResolutionError::InvalidFormat),
            Some(w) => match text::parse_unsigned(text::trim(s.skip(k + 1)), u32::MAX as nat) {
                None => Err(ResolutionError::InvalidFormat),
                Some(h) => checked_resolution(w as u32, h as u32),
            },
        }
    }
}

/// The padding `Resolution::pad_to` computes.
pub open spec fn padding_between(src: Resolution, target: Resolution) -> PaddingInfo {
    let x = if target.width > src.width { (target.width - src.width) / 2 } else { 0 };
    let y = if target.height > src.height { (target.height - src.height) / 2 } else { 0 };
    PaddingInfo {
        left: x as u32,
        right: (if target.width >= src.width + x { target.width - (src.width + x) } else { 0 }) as u32,
        top: y as u32,
        bottom: (if target.height >= src.height + y { target.height - (src.height + y) } else { 0 }) as u32,
    }
}

fn gcd_u32(a: u32, b: u32) -> (r: u32)
    ensures
        r as nat == gcd(a as nat, b as nat),
    decreases b,
{
    if b == 0 {
        a
    } else {
        gcd_u32(b, a % b)
    }
}

impl Resolution {
    /// A resolution with both sides in `1..=65535`.
    pub fn new(width: u32, height: u32) -> (r: Result<Self, ResolutionError>)
        ensures
            r == checked_resolution(width, height),
    {
        if width == 0 || height == 0 {
            return Err(ResolutionError::ZeroDimension);
        }
        if width > 65535 || height > 65535 {
            return Err(ResolutionError::TooLarge);
        }
        Ok(Resolution { width, height })
    }

    /// A square resolution.
    pub fn square(size: u32) -> (r: Result<Self, ResolutionError>)
        ensures
            r == checked_resolution(size, size),
    {
        Self::new(size, size)
    }

    /// The 320x120 canvas of the game.
    pub fn splatoon3_standard() -> (r: Self)
        ensures
            r == (Resolution { width: 320, height: 120 }),
    {
        Resolution { width: 320, height: 120 }
    }

    /// The resolution of a preset.
    pub fn preset(preset: ResolutionPreset) -> (r: Self)
        ensures
            (r.width, r.height) == preset_dims(preset),
    {
        match preset {
            ResolutionPreset::Splatoon3 => Self::splatoon3_standard(),
            ResolutionPreset::Qvga => Resolution { width: 320, height: 240 },
            ResolutionPreset::Vga => Resolution { width: 640, height: 480 },
            ResolutionPreset::Svga => Resolution { width: 800, height: 600 },
            ResolutionPreset::Xga => Resolution { width: 1024, height: 768 },
            ResolutionPreset::Hd => Resolution { width: 1280, height: 720 },
            ResolutionPreset::FullHd => Resolution { width: 1920, height: 1080 },
            ResolutionPreset::UltraHd => Resolution { width: 3840, height: 2160 },
        }
    }

    /// Width times height.
    pub fn total_pixels(&self) -> (r: u64)
        ensures
            r == self.width as nat * self.height as nat,
    {
        assert(self.width as nat * self.height as nat <= u64::MAX) by (nonlinear_arith)
            requires self.width <= u32::MAX, self.height <= u32::MAX;
        (self.width as u64) * (self.height as u64)
    }

    /// The aspect ratio in lowest terms.
    pub fn simplified_aspect_ratio(&self) -> (r: (u32, u32))
        requires
            self.width != 0 || self.height != 0,
        ensures
            gcd(self.width as nat, self.height as nat) > 0,
            r.0 == self.width as nat / gcd(self.width as nat, self.height as nat),
            r.1 == self.height as nat / gcd(self.width as nat, self.height as nat),
    {
        let g = gcd_u32(self.width, self.height);
        proof {
            lemma_gcd_positive(self.width as nat, self.height as nat);
        }
        (self.width / g, self.height / g)
    }

    pub fn is_landscape(&self) -> (r: bool)
        ensures
            r == (self.width > self.height),
    {
        self.width > self.height
    }

    pub fn is_portrait(&self) -> (r: bool)
        ensures
            r == (self.height > self.width),
    {
        self.height > self.width
    }

    pub fn is_square(&self) -> (r: bool)
        ensures
            r == (self.width == self.height),
    {
        self.width == self.height
    }

    /// Width and height swapped.
    pub fn rotate_90(&self) -> (r: Self)
        ensures
            r == (Resolution { width: self.height, height: self.width }),
    {
        Resolution { width: self.height, height: self.width }
    }

    /// Whether both sides are at most those of `other`.
    pub fn fits_in(&self, other: &Resolution) -> (r: bool)
        ensures
            r == (self.width <= other.width && self.height <= other.height),
    {
        self.width <= other.width && self.height <= other.height
    }

    /// The margins that centre this resolution in `target`, the odd pixel going
    /// to the right and bottom.
    pub fn pad_to(&self, target: &Resolution) -> (r: PaddingInfo)
        ensures
            r == padding_between(*self, *target),
    {
        let x_padding: u32 = if target.width > self.width { (target.width - self.width) / 2 } else { 0 };
        let y_padding: u32 = if target.height > self.height { (target.height - self.height) / 2 } else { 0 };
        PaddingInfo {
            left: x_padding,
            right: target.width.saturating_sub(self.width + x_padding),
            top: y_padding,
            bottom: target.height.saturating_sub(self.height + y_padding),
        }
    }

    /// `WxH`.
    pub fn to_string_short(&self) -> (s: String)
        ensures
            s@ == resolution_short_text(*self),
    {
        let mut s = String::new();
        text::push_decimal(&mut s, self.width as u64);
        text::push_char(&mut s, 'x');
        text::push_decimal(&mut s, self.height as u64);
        assert(s@ =~= resolution_short_text(*self));
        s
    }

    /// The size class of the resolution.
    pub fn classification(&self) -> (r: ResolutionClass)
        ensures
            r == class_of_pixels(self.width as nat * self.height as nat),
    {
        let pixels = self.total_pixels();
        if pixels <= 320 * 240 {
            ResolutionClass::Low
        } else if pixels <= 1280 * 720 {
            ResolutionClass::Medium
        } else if pixels <= 1920 * 1080 {
            ResolutionClass::High
        } else {
            ResolutionClass::VeryHigh
        }
    }

    /// The text the type's `Display` writes; see `resolution_text`.
    pub fn display_string(&self) -> (s: String)
        ensures
            s@ == resolution_text(*self),
    {
        let mut s = String::new();
        text::push_decimal(&mut s, self.width as u64);
        text::push_char(&mut s, ' ');
        text::push_char(&mut s, 'x');
        text::push_char(&mut s, ' ');
        text::push_decimal(&mut s, self.height as u64);
        text::push_char(&mut s, ' ');
        text::push_char(&mut s, '(');
        text::push_decimal(&mut s, self.total_pixels());
        text::push_str(&mut s, " pixels)");
        assert(s@ =~= resolution_text(*self));
        s
    }

    /// Reads `WxH`; see `parse_resolution`.
    pub fn parse(s: &str) -> (r: Result<Self, ResolutionError>)
        ensures
            r == parse_resolution(s@),
    {
        let v = text::chars_of(s);
        assert(v@.subrange(0, v@.len() as int) =~= s@);
        match shared::sole_occurrence(v.as_slice(), 0, v.len(), 'x') {
            None => Err(ResolutionError::InvalidFormat),
            Some(k) => {
                let ghost t = s@;
                assert(shared::occurrences(t, 'x') == set![k as int]);
                let ghost ch = choose|m: int| shared::occurrences(t, 'x') == set![m];
                assert(ch == k) by {
                    assert(set![ch].contains(ch));
                    assert(set![k as int].contains(ch));
                }
                let (wa, wb) = text::trim_range(v.as_slice(), 0, k);
                assert(v@.subrange(0, k as int) =~= t.take(k as int));
                match text::parse_unsigned_range(v.as_slice(), wa, wb, u32::MAX as u64) {
                    None => Err(ResolutionError::InvalidFormat),
                    Some(w) => {
                        let (ha, hb) = text::trim_range(v.as_slice(), k + 1, v.len());
                        assert(v@.subrange(k + 1, v@.len() as int) =~= t.skip(k + 1));
                        match text::parse_unsigned_range(v.as_slice(), ha, hb, u32::MAX as u64) {
                            None => Err(ResolutionError::InvalidFormat),
                            Some(h) => Resolution::new(w as u32, h as u32),
                        }
                    },
                }
            },
        }
    }
}

impl core::str::FromStr for Resolution {
    type Err = ResolutionError;

    fn from_str(s: &str) -> Result<Self, Self::Err> {
        Resolution::parse(s)
    }
}

impl PaddingInfo {
    /// Whether any margin is non-zero.
    pub fn is_needed(&self) -> (r: bool)
        ensures
            r == (self.left > 0 || self.right > 0 || self.top > 0 || self.bottom > 0),
    {
        self.left > 0 || self.right > 0 || self.top > 0 || self.bottom > 0
    }

    /// The sum of the margins.
    pub fn total_padding(&self) -> (r: u32)
        requires
            self.left + self.right + self.top + self.bottom <= u32::MAX,
        ensures
            r == self.left + self.right + self.top + self.bottom,
    {
        self.left + self.right + self.top + self.bottom
    }
}

/// How colours are reduced.
#[derive(Debug, Clone, Copy, PartialEq, Eq, Structural)]
pub enum ColorReduction {
    /// At most this many levels per channel.
    Palette(u8),
    /// Grey levels only.
    Grayscale,
    /// Black and white, split at this grey level.
    Binary(u8),
}

/// Why conversion parameters were refused.
#[derive(Debug, Clone, PartialEq, Eq)]
pub enum ConversionError {
    InvalidQuality,
    InvalidResolution,
    InvalidColorCount,
    InvalidAdjustments(String),
}

pub proof fn lemma_gcd_positive(a: nat, b: nat)
    requires
        a != 0 || b != 0,
    ensures
        gcd(a, b) > 0,
    decreases b,
{
    if b != 0 {
        lemma_gcd_positive(b, a % b);
    }
}

/// The greatest common divisor divides both numbers.
proof fn lemma_gcd_divides(a: nat, b: nat)
    requires
        a != 0 || b != 0,
    ensures
        gcd(a, b) > 0,
        a % gcd(a, b) == 0,
        b % gcd(a, b) == 0,
    decreases b,
{
    lemma_gcd_positive(a, b);
    if b != 0 {
        lemma_gcd_divides(b, a % b);
        let g = gcd(a, b);
        let q = a / b;
        let r = a % b;
        let m = b / g;
        let n = r / g;
        vstd::arithmetic::div_mod::lemma_fundamental_div_mod(a as int, b as int);
        vstd::arithmetic::div_mod::lemma_fundamental_div_mod(b as int, g as int);
        vstd::arithmetic::div_mod::lemma_fundamental_div_mod(r as int, g as int);
        assert(a == q * b + r);
        assert(b == g * m);
        assert(r == g * n);
        assert(a == g * (q * m + n)) by (nonlinear_arith)
            requires a == q * b + r, b == g * m, r == g * n;
        let qq: int = (q * m + n) as int;
        vstd::arithmetic::div_mod::lemma_mod_multiples_basic(qq, g as int);
        assert(qq * (g as int) == a as int) by (nonlinear_arith)
            requires a == g * (q * m + n), qq == q * m + n;
        assert((a as int) % (g as int) == 0);
    }
}

/// Scaling both numbers scales their greatest common divisor.
proof fn lemma_gcd_scale(a: nat, b: nat, k: nat)
    requires
        k > 0,
    ensures
        gcd(a * k, b * k) == gcd(a, b) * k,
    decreases b,
{
    if b != 0 {
        let q = a / b;
        let r = a % b;
        vstd::arithmetic::div_mod::lemma_fundamental_div_mod(a as int, b as int);
        assert(a * k == q * (b * k) + r * k && 0 <= r * k < b * k) by (nonlinear_arith)
            requires a == q * b + r, 0 <= r < b, k > 0;
        vstd::arithmetic::div_mod::lemma_fundamental_div_mod_converse((a * k) as int, (b * k) as int, q as int, (r * k) as int);
        assert((a * k) % (b * k) == r * k);
        assert(b * k != 0) by (nonlinear_arith) requires b != 0, k > 0;
        lemma_gcd_scale(b, r, k);
    }
}

/// The simplified aspect ratio of a resolution describes the same shape and is
/// in lowest terms: `w' * h == h' * w` and `gcd(w', h') == 1`.
pub proof fn lemma_aspect_ratio_lowest_terms(r: Resolution)
    requires
        r.width != 0 || r.height != 0,
    ensures
        ({
            let w = r.width as nat;
            let h = r.height as nat;
            let g = gcd(w, h);
            &&& (w / g) * h == (h / g) * w
            &&& gcd(w / g, h / g) == 1
        }),
{
    let w = r.width as nat;
    let h = r.height as nat;
    lemma_gcd_divides(w, h);
    let g = gcd(w, h);
    let a = w / g;
    let b = h / g;
    assert(w == a * g && h == b * g) by (nonlinear_arith)
        requires g > 0, w % g == 0, h % g == 0, a == w / g, b == h / g;
    assert(a * h == b * w) by (nonlinear_arith)
        requires w == a * g, h == b * g;
    lemma_gcd_scale(a, b, g);
    assert(gcd(a, b) * g == g * 1);
    assert(gcd(a, b) == 1) by (nonlinear_arith)
        requires gcd(a, b) * g == g * 1, g > 0;
}

/// Reading back the short text of a resolution gives the same resolution.
pub proof fn lemma_resolution_text_round_trip(r: Resolution)
    requires
        checked_resolution(r.width, r.height) is Ok,
    ensures
        parse_resolution(resolution_short_text(r)) == Ok::<Resolution, ResolutionError>(r),
{
    let dw = text::decimal(r.width as nat);
    let dh = text::decimal(r.height as nat);
    text::lemma_decimal(r.width as nat);
    text::lemma_decimal(r.height as nat);
    text::lemma_decimal_no_space(r.width as nat);
    text::lemma_decimal_no_space(r.height as nat);
    let s = resolution_short_text(r);
    let k = dw.len() as int;
    assert(shared::occurrences(s, 'x') =~= set![k]) by {
        assert forall|i: int| shared::occurrences(s, 'x').contains(i) <==> i == k by {
            if 0 <= i < dw.len() {
                assert(s[i] == dw[i]);
                assert(text::is_ascii_digit(dw[i]));
            } else if dw.len() < i < s.len() {
                assert(s[i] == dh[i - dw.len() - 1]);
                assert(text::is_ascii_digit(dh[i - dw.len() - 1]));
            }
        }
    }
    assert(s.take(k) =~= dw);
    assert(s.skip(k + 1) =~= dh);
    text::lemma_trim_unchanged(dw);
    text::lemma_trim_unchanged(dh);
    text::lemma_parse_decimal(r.width as nat, u32::MAX as nat);
    text::lemma_parse_decimal(r.height as nat, u32::MAX as nat);
    let kk = choose|kk: int| shared::occurrences(s, 'x') == set![kk];
    assert(shared::occurrences(s, 'x').contains(kk));
    assert(kk == k);
}

/// The canonical extension of every format names that format again, also
/// when read case-insensitively: it is lower-case ASCII, so `from_extension`
/// gives the format back.
pub proof fn lemma_extension_round_trip(f: ImageFormat)
    ensures
        format_of_extension(extension_text(f)) == Some(f),
        text::all_ascii(extension_text(f)),
        format_of_extension(extension_text(f).map_values(|c: char| text::ascii_lower(c))) == Some(f),
{
    reveal_strlit("png");
    reveal_strlit("jpg");
    reveal_strlit("jpeg");
    reveal_strlit("gif");
    reveal_strlit("bmp");
    reveal_strlit("webp");
    reveal_strlit("svg");
    reveal_strlit("ico");
    reveal_strlit("tiff");
    reveal_strlit("tif");
    reveal_strlit("raw");
    assert("png"@[0] == 'p' && "jpg"@[0] == 'j' && "jpeg"@[0] == 'j' && "gif"@[0] == 'g');
    assert("bmp"@[0] == 'b' && "webp"@[0] == 'w' && "svg"@[0] == 's' && "ico"@[0] == 'i');
    assert("tiff"@[0] == 't' && "tif"@[0] == 't' && "raw"@[0] == 'r');
    let e = extension_text(f);
    assert(e.map_values(|c: char| text::ascii_lower(c)) =~= e);
}

/// The MIME type of every format but `Raw` names that format again; the MIME
/// type of `Raw` (`application/octet-stream`) names none.
pub proof fn lemma_mime_round_trip(f: ImageFormat)
    ensures
        f != ImageFormat::Raw ==> format_of_mime(mime_text(f)) == Some(f),
        f == ImageFormat::Raw ==> format_of_mime(mime_text(f)) is None,
{
    reveal_strlit("image/png");
    reveal_strlit("image/jpeg");
    reveal_strlit("image/gif");
    reveal_strlit("image/bmp");
    reveal_strlit("image/webp");
    reveal_strlit("image/svg+xml");
    reveal_strlit("image/x-icon");
    reveal_strlit("image/vnd.microsoft.icon");
    reveal_strlit("image/tiff");
    reveal_strlit("application/octet-stream");
    assert("image/png"@[6] == 'p' && "image/jpeg"@[6] == 'j' && "image/gif"@[6] == 'g');
    assert("image/bmp"@[6] == 'b' && "image/webp"@[6] == 'w' && "image/svg+xml"@[6] == 's');
    assert("image/x-icon"@[6] == 'x' && "image/vnd.microsoft.icon"@[6] == 'v' && "image/tiff"@[6] == 't');
    assert("application/octet-stream"@[0] == 'a' && "image/png"@[0] == 'i' && "image/jpeg"@[0] == 'i');
    assert("image/gif"@[0] == 'i' && "image/bmp"@[0] == 'i' && "image/webp"@[0] == 'i');
    assert("image/svg+xml"@[0] == 'i' && "image/x-icon"@[0] == 'i' && "image/vnd.microsoft.icon"@[0] == 'i');
    assert("image/tiff"@[0] == 'i');
}

} // verus!
