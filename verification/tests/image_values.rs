use splatoon3_ghost_drawer::image_values::{
    ImageFormat, PaddingInfo, Resolution, ResolutionClass, ResolutionError, ResolutionPreset,
};

#[test]
fn test_image_format() {
    assert_eq!(ImageFormat::from_extension("png"), Some(ImageFormat::Png));
    assert_eq!(ImageFormat::from_extension("jpg"), Some(ImageFormat::Jpeg));
    assert_eq!(ImageFormat::from_extension("unknown"), None);

    assert_eq!(ImageFormat::Png.extension(), "png");
    assert_eq!(ImageFormat::Jpeg.mime_type(), "image/jpeg");

    assert!(ImageFormat::Png.is_lossless());
    assert!(!ImageFormat::Jpeg.is_lossless());

    assert!(ImageFormat::Png.supports_transparency());
    assert!(!ImageFormat::Jpeg.supports_transparency());
}

#[test]
fn image_format_lookup() {
    assert_eq!(ImageFormat::from_extension("JPEG"), Some(ImageFormat::Jpeg));
    assert_eq!(ImageFormat::from_filename("photo.final.TIF"), Some(ImageFormat::Tiff));
    assert_eq!(ImageFormat::from_filename("gif"), Some(ImageFormat::Gif));
    assert_eq!(ImageFormat::from_filename("archive."), None);
    assert_eq!(ImageFormat::from_mime_type("image/vnd.microsoft.icon"), Some(ImageFormat::Ico));
    assert_eq!(ImageFormat::from_mime_type("application/octet-stream"), None);
    assert_eq!(ImageFormat::Webp.recommended_quality(), Some(80));
    assert_eq!(ImageFormat::Png.recommended_quality(), None);
    assert_eq!(ImageFormat::all_formats().len(), 9);
    assert!(ImageFormat::Svg.is_web_compatible());
    assert!(!ImageFormat::Tiff.is_web_compatible());
    assert!(ImageFormat::Gif.supports_animation());
    assert!(ImageFormat::Tiff.supports_metadata());
}

#[test]
fn test_resolution_parsing() {
    let res = "1920x1080".parse::<Resolution>().unwrap();
    assert_eq!(res.width, 1920);
    assert_eq!(res.height, 1080);

    assert!("invalid".parse::<Resolution>().is_err());
    assert!("1920".parse::<Resolution>().is_err());
}

#[test]
fn test_resolution_classification() {
    let low_res = Resolution::new(320, 240).unwrap();
    assert_eq!(low_res.classification(), ResolutionClass::Low);

    let hd_res = Resolution::new(1280, 720).unwrap();
    assert_eq!(hd_res.classification(), ResolutionClass::Medium);

    let full_hd = Resolution::new(1920, 1080).unwrap();
    assert_eq!(full_hd.classification(), ResolutionClass::High);
}

#[test]
fn test_padding_info() {
    let source = Resolution::new(100, 100).unwrap();
    let target = Resolution::new(120, 140).unwrap();
    let padding = source.pad_to(&target);

    assert_eq!(padding.left, 10);
    assert_eq!(padding.right, 10);
    assert_eq!(padding.top, 20);
    assert_eq!(padding.bottom, 20);
    assert!(padding.is_needed());
}

#[test]
fn resolution_values() {
    assert_eq!(Resolution::new(0, 5), Err(ResolutionError::ZeroDimension));
    assert_eq!(Resolution::new(70000, 5), Err(ResolutionError::TooLarge));
    assert_eq!(Resolution::square(4).unwrap().total_pixels(), 16);
    let r = Resolution::new(1920, 1080).unwrap();
    assert_eq!(r.total_pixels(), 2073600);
    assert_eq!(r.simplified_aspect_ratio(), (16, 9));
    assert!(r.is_landscape() && !r.is_portrait() && !r.is_square());
    assert_eq!(r.rotate_90(), Resolution::new(1080, 1920).unwrap());
    assert!(Resolution::splatoon3_standard().fits_in(&r));
    assert_eq!(r.to_string_short(), "1920x1080");
    assert_eq!(r.display_string(), "1920 x 1080 (2073600 pixels)");
    assert_eq!(Resolution::preset(ResolutionPreset::UltraHd).classification(), ResolutionClass::VeryHigh);
    assert_eq!(" 3 x 4 ".parse::<Resolution>(), Ok(Resolution::new(3, 4).unwrap()));
    assert_eq!("0x4".parse::<Resolution>(), Err(ResolutionError::ZeroDimension));
    assert_eq!("3x4x5".parse::<Resolution>(), Err(ResolutionError::InvalidFormat));
    let p = Resolution::new(101, 100).unwrap().pad_to(&Resolution::new(120, 90).unwrap());
    assert_eq!(p, PaddingInfo { left: 9, right: 10, top: 0, bottom: 0 });
    assert_eq!(p.total_padding(), 19);
    assert!(!PaddingInfo { left: 0, right: 0, top: 0, bottom: 0 }.is_needed());
}

#[test]
fn resolution_and_format_round_trips() {
    for (w, h) in [(1u32, 1u32), (1920, 1080), (65535, 3)] {
        let r = Resolution::new(w, h).unwrap();
        assert_eq!(r.to_string_short().parse::<Resolution>().unwrap(), r);
    }
    for f in ImageFormat::all_formats() {
        assert_eq!(ImageFormat::from_extension(f.extension()), Some(f));
        if f != ImageFormat::Raw {
            assert_eq!(ImageFormat::from_mime_type(f.mime_type()), Some(f));
        }
    }
    assert_eq!(Resolution::new(1920, 1080).unwrap().simplified_aspect_ratio(), (16, 9));
    assert_eq!(Resolution::new(320, 120).unwrap().simplified_aspect_ratio(), (8, 3));
    assert_eq!(Resolution::preset(ResolutionPreset::Splatoon3), Resolution::splatoon3_standard());
}
