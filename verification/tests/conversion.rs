use splatoon3_ghost_drawer::conversion::{ConversionParameters, ImageAdjustments};
use splatoon3_ghost_drawer::image_processing::ImageProcessingService;
use splatoon3_ghost_drawer::image_values::{ColorReduction, ConversionError, ImageFormat, Resolution};
use splatoon3_ghost_drawer::shared::Color;

#[test]
fn test_conversion_parameters() {
    let params = ConversionParameters::for_splatoon3();
    assert_eq!(params.target_format, ImageFormat::Png);
    assert_eq!(params.target_resolution, Resolution::splatoon3_standard());
    assert!(params.dithering);
    assert!(params.color_reduction.is_some());

    assert!(params.validate().is_ok());
}

#[test]
fn adjustment_presets_hold_their_floats_as_bits() {
    let d = ImageAdjustments::default();
    assert_eq!(f32::from_bits(d.exposure_bits), 0.0);
    assert_eq!(f32::from_bits(d.gamma_bits), 1.0);
    let r = ImageAdjustments::splatoon3_recommended();
    assert_eq!(f32::from_bits(r.exposure_bits), 0.2);
    assert_eq!(f32::from_bits(r.gamma_bits), 1.2);
    assert_eq!(f32::from_bits(ImageAdjustments::high_contrast().gamma_bits), 0.8);
    let s = ImageAdjustments::soft_detail();
    assert_eq!(f32::from_bits(s.exposure_bits), -0.2);
    assert_eq!(f32::from_bits(s.gamma_bits), 1.5);
    assert!(d.validate().is_ok() && r.validate().is_ok() && s.validate().is_ok());
}

#[test]
fn exposure_and_gamma_ranges_match_float_comparisons() {
    let mut a = ImageAdjustments::default();
    for x in [-3.0f32, -2.0, -1.5, -0.0, 0.0, 1.0, 2.0, 2.0001, 100.0, f32::NAN, f32::INFINITY, f32::NEG_INFINITY] {
        a.exposure_bits = x.to_bits();
        assert_eq!(a.validate_exposure(), x >= -2.0 && x <= 2.0, "exposure {x}");
    }
    for g in [-1.0f32, 0.0, 0.05, 0.1, 0.2, 1.0, 10.0, 10.5, f32::NAN, f32::INFINITY] {
        a.gamma_bits = g.to_bits();
        assert_eq!(a.validate_gamma(), g >= 0.1 && g <= 10.0, "gamma {g}");
    }
}

#[test]
fn adjustments_report_the_first_broken_rule() {
    let mut a = ImageAdjustments::default();
    a.exposure_bits = 3.0f32.to_bits();
    a.gamma_bits = 20.0f32.to_bits();
    assert_eq!(a.validate().unwrap_err(), "露出は-2.0から+2.0の範囲で指定してください");
    a.exposure_bits = 0;
    assert_eq!(a.validate().unwrap_err(), "ガンマは0.1から10.0の範囲で指定してください");
    a.gamma_bits = 1.0f32.to_bits();
    a.black_point = 200;
    a.white_point = 100;
    assert_eq!(a.validate().unwrap_err(), "ブラックポイントはホワイトポイントより小さくする必要があります");
    a.black_point = 0;
    a.adaptive_threshold = true;
    a.adaptive_block_size = 4;
    assert_eq!(a.validate().unwrap_err(), "適応的2値化のブロックサイズは3以上の奇数である必要があります");
    a.adaptive_block_size = 5;
    assert!(a.validate().is_ok());
}

#[test]
fn conversion_parameters_errors_in_order() {
    let p = ConversionParameters::new(ImageFormat::Jpeg, Resolution { width: 10, height: 10 });
    assert_eq!(p.quality, Some(85));
    assert!(p.validate().is_ok());
    let q = p.with_quality(0);
    assert_eq!(q.validate(), Err(ConversionError::InvalidQuality));
    assert_eq!(p.with_quality(250).quality, Some(100));
    let e = ConversionParameters::new(ImageFormat::Png, Resolution { width: 0, height: 5 });
    assert_eq!(e.validate(), Err(ConversionError::InvalidResolution));
    let c = p.with_color_reduction(ColorReduction::Palette(1));
    assert_eq!(c.validate(), Err(ConversionError::InvalidColorCount));
    let g = p.with_adaptive_threshold(true, 4, 120);
    assert_eq!(g.adjustments.adaptive_block_size, 5);
    assert_eq!(g.adjustments.adaptive_constant, 100);
    let bad = p.with_points(10, 5);
    assert!(matches!(bad.validate(), Err(ConversionError::InvalidAdjustments(_))));
    assert_eq!(bad.validate().unwrap_err().display_string(),
        "Invalid adjustments: ブラックポイントはホワイトポイントより小さくする必要があります");
    assert_eq!(ConversionError::InvalidQuality.display_string(), "Invalid quality value");
}

#[test]
fn clamps_of_exposure_gamma_and_contrast() {
    let p = ConversionParameters::for_splatoon3();
    assert_eq!(f32::from_bits(p.with_exposure(5.0f32.to_bits()).adjustments.exposure_bits), 2.0);
    assert_eq!(f32::from_bits(p.with_exposure((-5.0f32).to_bits()).adjustments.exposure_bits), -2.0);
    assert_eq!(f32::from_bits(p.with_exposure(1.25f32.to_bits()).adjustments.exposure_bits), 1.25);
    assert!(f32::from_bits(p.with_exposure(f32::NAN.to_bits()).adjustments.exposure_bits).is_nan());
    assert_eq!(f32::from_bits(p.with_gamma(0.0f32.to_bits()).adjustments.gamma_bits), 0.1);
    assert_eq!(f32::from_bits(p.with_gamma((-3.0f32).to_bits()).adjustments.gamma_bits), 0.1);
    assert_eq!(f32::from_bits(p.with_gamma(50.0f32.to_bits()).adjustments.gamma_bits), 10.0);
    assert_eq!(f32::from_bits(p.with_gamma(2.5f32.to_bits()).adjustments.gamma_bits), 2.5);
    assert_eq!(p.with_contrast(-128).adjustments.contrast, -100);
    assert_eq!(p.with_contrast(127).adjustments.contrast, 100);
    assert_eq!(p.with_contrast(-5).adjustments.contrast, -5);
    let off = p.with_adaptive_threshold(false, 8, 50);
    assert!(!off.adjustments.adaptive_threshold);
    assert_eq!(off.adjustments.adaptive_block_size, 15);
}

#[test]
fn binarize_and_adaptive_level() {
    assert_eq!(ImageProcessingService::binarize(128, 128), Color::white());
    assert_eq!(ImageProcessingService::binarize(127, 128), Color::black());
    assert_eq!(ImageProcessingService::adaptive_threshold_level(250, 10), 255);
    assert_eq!(ImageProcessingService::adaptive_threshold_level(5, -10), 0);
    assert_eq!(ImageProcessingService::adaptive_threshold_level(100, 7), 107);
}
