//! Image conversion settings: the target of a conversion and the tone
//! adjustments applied on the way. The two real-valued settings, exposure
//! and gamma, are held as the bits of their `f32`; their range checks and
//! clamps are decided on those bits, which order as the values do.

use vstd::prelude::*;
use crate::image_values::{ColorReduction, ConversionError, ImageFormat, Resolution};
use crate::shared::Color;
use crate::text;

verus! {

/// The bits of the `f32` 2.0.
pub open spec fn f32_two() -> u32 { 0x4000_0000 }

/// The bits of the `f32` -2.0.
pub open spec fn f32_minus_two() -> u32 { 0xC000_0000 }

/// The bits of the `f32` nearest 0.1.
pub open spec fn f32_tenth() -> u32 { 0x3DCC_CCCD }

/// The bits of the `f32` 10.0.
pub open spec fn f32_ten() -> u32 { 0x4120_0000 }

/// The bits of `f32` infinity; magnitudes above it are NaN.
pub open spec fn f32_infinity() -> u32 { 0x7F80_0000 }

/// Whether an `f32` lies in [-2, 2]: its magnitude bits are at most those of
/// 2.0 (a NaN's are larger, and compares false).
pub open spec fn exposure_in_range(bits: u32) -> bool {
    (bits & 0x7FFF_FFFF) <= f32_two()
}

/// Whether an `f32` lies in [0.1, 10]: positive, with bits between those of
/// 0.1 and 10.0 (negative values and NaNs fall outside).
pub open spec fn gamma_in_range(bits: u32) -> bool {
    f32_tenth() <= bits <= f32_ten()
}

/// Tone adjustments applied before an image is reduced to dots.
#[derive(Debug, Clone, Copy, PartialEq, Eq, Structural)]
pub struct ImageAdjustments {
    /// Exposure correction, -2.0 to 2.0 (bits of the `f32`).
    pub exposure_bits: u32,
    /// Contrast, -100 to 100.
    pub contrast: i8,
    pub black_point: u8,
    pub white_point: u8,
    /// Gamma, 0.1 to 10.0 (bits of the `f32`).
    pub gamma_bits: u32,
    pub highlights: i8,
    pub shadows: i8,
    pub brightness: i8,
    /// The grey level that splits black from white.
    pub threshold: u8,
    pub adaptive_threshold: bool,
    /// Side of the neighbourhood of adaptive thresholding: odd, at least 3.
    pub adaptive_block_size: u16,
    pub adaptive_constant: i8,
}

/// The first rule the adjustments break, with its message, or none.
pub open spec fn adjustments_error(a: ImageAdjustments) -> Option<Seq<char>> {
    if !exposure_in_range(a.exposure_bits) {
        Some("露出は-2.0から+2.0の範囲で指定してください"@)
    } else if !gamma_in_range(a.gamma_bits) {
        Some("ガンマは0.1から10.0の範囲で指定してください"@)
    } else if !(a.black_point < a.white_point) {
        Some("ブラックポイントはホワイトポイントより小さくする必要があります"@)
    } else if a.adaptive_threshold && !(a.adaptive_block_size >= 3 && a.adaptive_block_size % 2 == 1) {
        Some("適応的2値化のブロックサイズは3以上の奇数である必要があります"@)
    } else {
        None
    }
}

/// No change: exposure 0, gamma 1, the full range of levels, threshold 128.
pub open spec fn default_adjustments() -> ImageAdjustments {
    ImageAdjustments {
        exposure_bits: 0, contrast: 0, black_point: 0, white_point: 255, gamma_bits: 0x3F80_0000,
        highlights: 0, shadows: 0, brightness: 0, threshold: 128, adaptive_threshold: false,
        adaptive_block_size: 11, adaptive_constant: 2,
    }
}

impl Default for ImageAdjustments {
    /// See `default_adjustments`.
    fn default() -> (a: Self)
        ensures
            a == default_adjustments(),
    {
        ImageAdjustments {
            exposure_bits: 0, contrast: 0, black_point: 0, white_point: 255, gamma_bits: 0x3F80_0000,
            highlights: 0, shadows: 0, brightness: 0, threshold: 128, adaptive_threshold: false,
            adaptive_block_size: 11, adaptive_constant: 2,
        }
    }
}

impl ImageAdjustments {
    /// The settings recommended for Splatoon 3: exposure 0.2, gamma 1.2,
    /// adaptive thresholding.
    pub open spec fn splatoon3_recommended_spec() -> ImageAdjustments {
        ImageAdjustments {
            exposure_bits: 0x3E4C_CCCD, contrast: 20, black_point: 10, white_point: 245, gamma_bits: 0x3F99_999A,
            highlights: -10i8, shadows: 10, brightness: 0, threshold: 120, adaptive_threshold: true,
            adaptive_block_size: 15, adaptive_constant: 5,
        }
    }

    /// See `splatoon3_recommended_spec`.
    pub fn splatoon3_recommended() -> (a: Self)
        ensures
            a == Self::splatoon3_recommended_spec(),
    {
        ImageAdjustments {
            exposure_bits: 0x3E4C_CCCD, contrast: 20, black_point: 10, white_point: 245, gamma_bits: 0x3F99_999A,
            highlights: -10i8, shadows: 10, brightness: 0, threshold: 120, adaptive_threshold: true,
            adaptive_block_size: 15, adaptive_constant: 5,
        }
    }

    /// High contrast: gamma 0.8, contrast 50.
    pub fn high_contrast() -> (a: Self)
        ensures
            a == (ImageAdjustments {
                exposure_bits: 0, contrast: 50, black_point: 20, white_point: 235, gamma_bits: 0x3F4C_CCCD,
                highlights: -20i8, shadows: 20, brightness: 0, threshold: 110, adaptive_threshold: false,
                adaptive_block_size: 11, adaptive_constant: 2,
            }),
    {
        ImageAdjustments {
            exposure_bits: 0, contrast: 50, black_point: 20, white_point: 235, gamma_bits: 0x3F4C_CCCD,
            highlights: -20i8, shadows: 20, brightness: 0, threshold: 110, adaptive_threshold: false,
            adaptive_block_size: 11, adaptive_constant: 2,
        }
    }

    /// Soft, keeping fine lines: exposure -0.2, gamma 1.5.
    pub fn soft_detail() -> (a: Self)
        ensures
            a == (ImageAdjustments {
                exposure_bits: 0xBE4C_CCCD, contrast: -10i8, black_point: 5, white_point: 250, gamma_bits: 0x3FC0_0000,
                highlights: 10, shadows: -10i8, brightness: 5, threshold: 135, adaptive_threshold: true,
                adaptive_block_size: 21, adaptive_constant: 8,
            }),
    {
        ImageAdjustments {
            exposure_bits: 0xBE4C_CCCD, contrast: -10i8, black_point: 5, white_point: 250, gamma_bits: 0x3FC0_0000,
            highlights: 10, shadows: -10i8, brightness: 5, threshold: 135, adaptive_threshold: true,
            adaptive_block_size: 21, adaptive_constant: 8,
        }
    }

    /// Whether the exposure is within -2.0 to 2.0; see `exposure_in_range`.
    pub fn validate_exposure(&self) -> (r: bool)
        ensures
            r == exposure_in_range(self.exposure_bits),
    {
        (self.exposure_bits & 0x7FFF_FFFF) <= 0x4000_0000
    }

    /// Whether the gamma is within 0.1 to 10.0; see `gamma_in_range`.
    pub fn validate_gamma(&self) -> (r: bool)
        ensures
            r == gamma_in_range(self.gamma_bits),
    {
        0x3DCC_CCCD <= self.gamma_bits && self.gamma_bits <= 0x4120_0000
    }

    /// Whether the black point is below the white point.
    pub fn validate_points(&self) -> (r: bool)
        ensures
            r == (self.black_point < self.white_point),
    {
        self.black_point < self.white_point
    }

    /// Whether the block size of adaptive thresholding is odd and at least 3.
    pub fn validate_adaptive(&self) -> (r: bool)
        ensures
            r == (self.adaptive_block_size >= 3 && self.adaptive_block_size % 2 == 1),
    {
        self.adaptive_block_size >= 3 && self.adaptive_block_size % 2 == 1
    }

    /// Checks every setting; the first rule broken gives the error; see
    /// `adjustments_error`.
    pub fn validate(&self) -> (r: Result<(), String>)
        ensures
            match adjustments_error(*self) {
                None => r is Ok,
                Some(m) => r matches Err(e) && e@ == m,
            },
    {
        if !self.validate_exposure() {
            return Err(text::owned("露出は-2.0から+2.0の範囲で指定してください"));
        }
        if !self.validate_gamma() {
            return Err(text::owned("ガンマは0.1から10.0の範囲で指定してください"));
        }
        if !self.validate_points() {
            return Err(text::owned("ブラックポイントはホワイトポイントより小さくする必要があります"));
        }
        if self.adaptive_threshold && !self.validate_adaptive() {
            return Err(text::owned("適応的2値化のブロックサイズは3以上の奇数である必要があります"));
        }
        Ok(())
    }
}

/// `f32::clamp(-2.0, 2.0)` on the bits of an `f32`: a value beyond 2 in
/// magnitude becomes ±2 with its sign; NaN and the rest are kept.
pub open spec fn clamp_exposure_bits(bits: u32) -> u32 {
    let m = bits & 0x7FFF_FFFF;
    if m > f32_infinity() || m <= f32_two() {
        bits
    } else if bits >= 0x8000_0000 {
        f32_minus_two()
    } else {
        f32_two()
    }
}

/// `f32::clamp(0.1, 10.0)` on the bits of an `f32`: NaN is kept; values
/// below 0.1 (negatives and zeros too) become 0.1, values above 10 become 10.
pub open spec fn clamp_gamma_bits(bits: u32) -> u32 {
    let m = bits & 0x7FFF_FFFF;
    if m > f32_infinity() {
        bits
    } else if bits >= 0x8000_0000 || bits < f32_tenth() {
        f32_tenth()
    } else if bits > f32_ten() {
        f32_ten()
    } else {
        bits
    }
}

/// The settings of an image conversion.
#[derive(Debug, Clone, Copy)]
pub struct ConversionParameters {
    pub target_format: ImageFormat,
    pub target_resolution: Resolution,
    /// Quality of lossy formats, 1 to 100.
    pub quality: Option<u8>,
    pub preserve_aspect_ratio: bool,
    pub background_color: Option<Color>,
    pub dithering: bool,
    pub color_reduction: Option<ColorReduction>,
    pub adjustments: ImageAdjustments,
}

impl ConversionParameters {
    /// Converting to `target_format` at `target_resolution`: the format's
    /// recommended quality, aspect ratio kept, no background, dithering or
    /// colour reduction, default adjustments.
    pub fn new(target_format: ImageFormat, target_resolution: Resolution) -> (p: Self)
        ensures
            p.target_format == target_format,
            p.target_resolution == target_resolution,
            p.quality == (match target_format {
                ImageFormat::Jpeg => Some(85u8),
                ImageFormat::Webp => Some(80u8),
                _ => None,
            }),
            p.preserve_aspect_ratio,
            p.background_color is None,
            !p.dithering,
            p.color_reduction is None,
            p.adjustments == default_adjustments(),
    {
        ConversionParameters {
            target_format,
            target_resolution,
            quality: target_format.recommended_quality(),
            preserve_aspect_ratio: true,
            background_color: None,
            dithering: false,
            color_reduction: None,
            adjustments: ImageAdjustments::default(),
        }
    }

    /// The parameters for Splatoon 3: PNG at 320 x 120 on white, dithered
    /// to a 16-colour palette, with the recommended adjustments.
    pub fn for_splatoon3() -> (p: Self)
        ensures
            p.target_format == ImageFormat::Png,
            p.target_resolution == (Resolution { width: 320, height: 120 }),
            p.quality is None,
            p.preserve_aspect_ratio,
            p.background_color == Some(Color { r: 255, g: 255, b: 255, a: 255 }),
            p.dithering,
            p.color_reduction == Some(ColorReduction::Palette(16)),
            p.adjustments == ImageAdjustments::splatoon3_recommended_spec(),
    {
        ConversionParameters {
            target_format: ImageFormat::Png,
            target_resolution: Resolution::splatoon3_standard(),
            quality: None,
            preserve_aspect_ratio: true,
            background_color: Some(Color::white()),
            dithering: true,
            color_reduction: Some(ColorReduction::Palette(16)),
            adjustments: ImageAdjustments::splatoon3_recommended(),
        }
    }

    /// With this quality, at most 100.
    pub fn with_quality(self, quality: u8) -> (p: Self)
        ensures
            p == (ConversionParameters { quality: Some(if quality > 100 { 100u8 } else { quality }), ..self }),
    {
        let q = if quality > 100 { 100 } else { quality };
        ConversionParameters { quality: Some(q), ..self }
    }

    pub fn with_aspect_ratio_preservation(self, preserve: bool) -> (p: Self)
        ensures
            p == (ConversionParameters { preserve_aspect_ratio: preserve, ..self }),
    {
        ConversionParameters { preserve_aspect_ratio: preserve, ..self }
    }

    pub fn with_background_color(self, color: Color) -> (p: Self)
        ensures
            p == (ConversionParameters { background_color: Some(color), ..self }),
    {
        ConversionParameters { background_color: Some(color), ..self }
    }

    pub fn with_dithering(self, enabled: bool) -> (p: Self)
        ensures
            p == (ConversionParameters { dithering: enabled, ..self }),
    {
        ConversionParameters { dithering: enabled, ..self }
    }

    pub fn with_color_reduction(self, reduction: ColorReduction) -> (p: Self)
        ensures
            p == (ConversionParameters { color_reduction: Some(reduction), ..self }),
    {
        ConversionParameters { color_reduction: Some(reduction), ..self }
    }

    pub fn with_adjustments(self, adjustments: ImageAdjustments) -> (p: Self)
        ensures
            p == (ConversionParameters { adjustments, ..self }),
    {
        ConversionParameters { adjustments, ..self }
    }

    /// With the exposure (bits of an `f32`) clamped to -2.0 to 2.0; see
    /// `clamp_exposure_bits`.
    pub fn with_exposure(self, exposure_bits: u32) -> (p: Self)
        ensures
            p == (ConversionParameters {
                adjustments: ImageAdjustments { exposure_bits: clamp_exposure_bits(exposure_bits), ..self.adjustments },
                ..self
            }),
    {
        let m = exposure_bits & 0x7FFF_FFFF;
        let e = if m > 0x7F80_0000 || m <= 0x4000_0000 {
            exposure_bits
        } else if exposure_bits >= 0x8000_0000 {
            0xC000_0000
        } else {
            0x4000_0000
        };
        ConversionParameters { adjustments: ImageAdjustments { exposure_bits: e, ..self.adjustments }, ..self }
    }

    /// With the contrast clamped to -100 to 100.
    pub fn with_contrast(self, contrast: i8) -> (p: Self)
        ensures
            p == (ConversionParameters {
                adjustments: ImageAdjustments {
                    contrast: if contrast < -100 { -100i8 } else if contrast > 100 { 100i8 } else { contrast },
                    ..self.adjustments
                },
                ..self
            }),
    {
        let c = if contrast < -100 { -100 } else if contrast > 100 { 100 } else { contrast };
        ConversionParameters { adjustments: ImageAdjustments { contrast: c, ..self.adjustments }, ..self }
    }

    pub fn with_points(self, black_point: u8, white_point: u8) -> (p: Self)
        ensures
            p == (ConversionParameters {
                adjustments: ImageAdjustments { black_point, white_point, ..self.adjustments },
                ..self
            }),
    {
        ConversionParameters { adjustments: ImageAdjustments { black_point, white_point, ..self.adjustments }, ..self }
    }

    /// With the gamma (bits of an `f32`) clamped to 0.1 to 10.0; see
    /// `clamp_gamma_bits`.
    pub fn with_gamma(self, gamma_bits: u32) -> (p: Self)
        ensures
            p == (ConversionParameters {
                adjustments: ImageAdjustments { gamma_bits: clamp_gamma_bits(gamma_bits), ..self.adjustments },
                ..self
            }),
    {
        let m = gamma_bits & 0x7FFF_FFFF;
        let g = if m > 0x7F80_0000 {
            gamma_bits
        } else if gamma_bits >= 0x8000_0000 || gamma_bits < 0x3DCC_CCCD {
            0x3DCC_CCCD
        } else if gamma_bits > 0x4120_0000 {
            0x4120_0000
        } else {
            gamma_bits
        };
        ConversionParameters { adjustments: ImageAdjustments { gamma_bits: g, ..self.adjustments }, ..self }
    }

    pub fn with_threshold(self, threshold: u8) -> (p: Self)
        ensures
            p == (ConversionParameters { adjustments: ImageAdjustments { threshold, ..self.adjustments }, ..self }),
    {
        ConversionParameters { adjustments: ImageAdjustments { threshold, ..self.adjustments }, ..self }
    }

    /// Turns adaptive thresholding on or off; turning it on also sets the
    /// block size, made odd by adding one, and the constant, clamped to
    /// -100 to 100.
    pub fn with_adaptive_threshold(self, enable: bool, block_size: u16, constant: i8) -> (p: Self)
        ensures
            !enable ==> p == (ConversionParameters {
                adjustments: ImageAdjustments { adaptive_threshold: false, ..self.adjustments },
                ..self
            }),
            enable ==> p == (ConversionParameters {
                adjustments: ImageAdjustments {
                    adaptive_threshold: true,
                    adaptive_block_size: if block_size % 2 == 0 { (block_size + 1) as u16 } else { block_size },
                    adaptive_constant: if constant < -100 { -100i8 } else if constant > 100 { 100i8 } else { constant },
                    ..self.adjustments
                },
                ..self
            }),
    {
        if !enable {
            return ConversionParameters {
                adjustments: ImageAdjustments { adaptive_threshold: false, ..self.adjustments },
                ..self
            };
        }
        let b = if block_size % 2 == 0 { block_size + 1 } else { block_size };
        let c = if constant < -100 { -100 } else if constant > 100 { 100 } else { constant };
        ConversionParameters {
            adjustments: ImageAdjustments {
                adaptive_threshold: true,
                adaptive_block_size: b,
                adaptive_constant: c,
                ..self.adjustments
            },
            ..self
        }
    }

    /// Checks the parameters; the first rule broken gives the error: a
    /// quality of 0 or above 100, an empty resolution, a palette of fewer than
    /// two colours, then the adjustments' own rules (`adjustments_error`).
    pub fn validate(&self) -> (r: Result<(), ConversionError>)
        ensures
            (self.quality matches Some(q) && (q == 0 || q > 100))
                ==> r == Err::<(), ConversionError>(ConversionError::InvalidQuality),
            !(self.quality matches Some(q) && (q == 0 || q > 100))
                && self.target_resolution.width as nat * self.target_resolution.height as nat == 0
                ==> r == Err::<(), ConversionError>(ConversionError::InvalidResolution),
            !(self.quality matches Some(q) && (q == 0 || q > 100))
                && self.target_resolution.width as nat * self.target_resolution.height as nat != 0
                && (self.color_reduction matches Some(ColorReduction::Palette(n)) && n < 2)
                ==> r == Err::<(), ConversionError>(ConversionError::InvalidColorCount),
            !(self.quality matches Some(q) && (q == 0 || q > 100))
                && self.target_resolution.width as nat * self.target_resolution.height as nat != 0
                && !(self.color_reduction matches Some(ColorReduction::Palette(n)) && n < 2)
                ==> match adjustments_error(self.adjustments) {
                    None => r is Ok,
                    Some(m) => r matches Err(ConversionError::InvalidAdjustments(e)) && e@ == m,
                },
    {
        if let Some(q) = self.quality {
            if q == 0 || q > 100 {
                return Err(ConversionError::InvalidQuality);
            }
        }
        if self.target_resolution.total_pixels() == 0 {
            return Err(ConversionError::InvalidResolution);
        }
        if let Some(ColorReduction::Palette(n)) = self.color_reduction {
            if n < 2 {
                return Err(ConversionError::InvalidColorCount);
            }
        }
        match self.adjustments.validate() {
            Ok(()) => Ok(()),
            Err(e) => Err(ConversionError::InvalidAdjustments(e)),
        }
    }
}

/// The message of a conversion error, as its `Display` writes it.
pub open spec fn conversion_error_text(e: ConversionError) -> Seq<char> {
    match e {
        ConversionError::InvalidQuality => "Invalid quality value"@,
        ConversionError::InvalidResolution => "Invalid resolution"@,
        ConversionError::InvalidColorCount => "Invalid color count"@,
        ConversionError::InvalidAdjustments(m) => "Invalid adjustments: "@ + m@,
    }
}

impl ConversionError {
    /// The message of the error; see `conversion_error_text`.
    pub fn display_string(&self) -> (s: String)
        ensures
            s@ == conversion_error_text(*self),
    {
        match self {
            ConversionError::InvalidQuality => text::owned("Invalid quality value"),
            ConversionError::InvalidResolution => text::owned("Invalid resolution"),
            ConversionError::InvalidColorCount => text::owned("Invalid color count"),
            ConversionError::InvalidAdjustments(m) => {
                let mut s = text::owned("Invalid adjustments: ");
                text::push_str(&mut s, m.as_str());
                s
            },
        }
    }
}

} // verus!
