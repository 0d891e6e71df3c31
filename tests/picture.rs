use badlopo::picture::{parse_u32, ImageFormat, ImageImpl, ImageSize};

#[test]
fn main_t() {
    let size = ImageSize::from("100x");
    assert_eq!(size, ImageSize::Width(100));
}

#[test]
fn size_text_forms() {
    assert_eq!(ImageSize::from("100x200"), ImageSize::Both(100, 200));
    assert_eq!(ImageSize::from("x50"), ImageSize::Height(50));
    assert_eq!(ImageSize::from("x"), ImageSize::Neither);
    assert_eq!(ImageSize::from("1x2x3"), ImageSize::Neither);
    assert_eq!(ImageSize::from("100"), ImageSize::Neither);
    assert_eq!(ImageSize::from("ax+7"), ImageSize::Height(7));
    assert_eq!(ImageSize::parse("4294967296x1"), ImageSize::Height(1));
}

#[test]
fn number_reading() {
    assert_eq!(parse_u32("0"), Some(0));
    assert_eq!(parse_u32("+42"), Some(42));
    assert_eq!(parse_u32("4294967295"), Some(u32::MAX));
    assert_eq!(parse_u32("4294967296"), None);
    assert_eq!(parse_u32(""), None);
    assert_eq!(parse_u32("+"), None);
    assert_eq!(parse_u32("-1"), None);
    assert_eq!(parse_u32("1 "), None);
    for text in ["7", "+007", "123456", "99999999999", "12a"] {
        assert_eq!(parse_u32(text), text.parse::<u32>().ok());
    }
}

#[test]
fn size_keeps_aspect_ratio() {
    assert_eq!(ImageSize::Width(256).to_wh(24, 24), Some((256, 256)));
    assert_eq!(ImageSize::Height(100).to_wh(200, 100), Some((200, 100)));
    assert_eq!(ImageSize::Width(10).to_wh(3, 1), Some((10, 3)));
    assert_eq!(ImageSize::Width(100).to_wh(400, 300), Some((100, 75)));
    assert_eq!(ImageSize::Both(5, 6).to_wh(1, 1), Some((5, 6)));
    assert_eq!(ImageSize::Neither.to_wh(1, 1), None);
    assert_eq!(ImageSize::Width(4_000_000_000).to_wh(1, 2), Some((4_000_000_000, u32::MAX)));
    assert_eq!(ImageSize::Width(5).to_wh(0, 3), Some((5, u32::MAX)));
    assert_eq!(ImageSize::Width(0).to_wh(0, 3), Some((0, 0)));
    assert_eq!(ImageSize::Height(5).to_wh(3, 0), Some((u32::MAX, 5)));
}

#[test]
fn conversion_decisions() {
    assert!(ImageImpl::needs_output(Some(ImageFormat::Png), None));
    assert!(ImageImpl::needs_output(None, Some(ImageSize::Width(3))));
    assert!(!ImageImpl::needs_output(None, Some(ImageSize::Neither)));
    assert!(!ImageImpl::needs_output(None, None));
    assert_eq!(ImageImpl::target_format(Some(ImageFormat::Jpg), ImageFormat::Png), ImageFormat::Jpeg);
    assert_eq!(ImageImpl::target_format(None, ImageFormat::FF), ImageFormat::Farbfeld);
    assert_eq!(ImageImpl::output_size(Some(ImageSize::Width(256)), 24, 12), Some((256, 128)));
    assert_eq!(ImageImpl::output_size(None, 24, 12), None);
}

#[test]
fn codec_formats() {
    assert_eq!(ImageFormat::Jpg.to_codec(), image::ImageFormat::Jpeg);
    assert_eq!(ImageFormat::Exr.to_codec(), image::ImageFormat::OpenExr);
    assert_eq!(ImageFormat::FF.canonical(), ImageFormat::Farbfeld);
    assert_eq!(ImageFormat::from_codec(image::ImageFormat::OpenExr), Some(ImageFormat::OpenEXR));
    assert_eq!(ImageFormat::from_codec(image::ImageFormat::Dds), None);
    assert_eq!(ImageFormat::from_codec(image::ImageFormat::Avif), None);
}

#[test]
fn parse_reports_format_faults() {
    match ImageImpl::parse(&[1, 2, 3, 4]) {
        Err(m) => assert_eq!(m, "unknown format"),
        Ok(_) => panic!("garbage must not decode"),
    }
    match ImageImpl::parse(b"DDS \x7c\x00\x00\x00") {
        Err(m) => assert_eq!(m, "unsupported format"),
        Ok(_) => panic!("DDS is not a target format"),
    }
    match ImageImpl::parse(b"farbfeld\x00\x00") {
        Err(m) => assert!(!m.is_empty()),
        Ok(_) => panic!("a truncated image must not decode"),
    }
}

#[test]
fn parse_reads_metadata() {
    let mut bytes = b"farbfeld".to_vec();
    bytes.extend_from_slice(&[0, 0, 0, 2, 0, 0, 0, 1]);
    bytes.extend_from_slice(&[0xff; 16]);
    match ImageImpl::parse(&bytes) {
        Ok(meta) => {
            assert_eq!(meta.format, ImageFormat::Farbfeld);
            assert_eq!(meta.width, 2);
            assert_eq!(meta.height, 1);
            assert_eq!(meta.color_type, image::ColorType::Rgba16);
            assert_eq!(meta.bit_depth, 8);
        }
        Err(m) => panic!("a farbfeld image must decode: {m}"),
    }
}

#[test]
fn resized_names() {
    assert_eq!(ImageImpl::resized_file_name("logo", 256, 0), "logo@256x0");
    assert_eq!(ImageImpl::resized_file_name("a.b", 4294967295, 10), "a.b@4294967295x10");
    assert_eq!(ImageImpl::resized_file_name("", 7, 1200), "@7x1200");
}
