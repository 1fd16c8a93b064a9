use galaxy_image::loaders::png_loader::{
    image_from_png, png_layout, PngColor, PngDepth, PngHeader,
};
use galaxy_image::loaders::{load_png, save_png};
use galaxy_image::{ComponentType, Image, ImageError, PixelFormat};

fn pattern(n: usize) -> Vec<u8> {
    (0..n).map(|i| (i * 37 + 11) as u8).collect()
}

#[test]
fn png_round_trip_for_every_native_pair() {
    let formats = [PixelFormat::R, PixelFormat::RG, PixelFormat::RGB, PixelFormat::RGBA];
    let kinds = [ComponentType::U8, ComponentType::U16];
    for format in formats {
        for kind in kinds {
            let n = 5 * 3 * format.channel_count() * kind.size_bytes();
            let image = Image::from_raw(pattern(n), 5, 3, format, kind);
            let bytes = save_png(&image).unwrap();
            assert_eq!(&bytes[..8], &[0x89, 0x50, 0x4E, 0x47, 0x0D, 0x0A, 0x1A, 0x0A]);
            let back = load_png(&bytes).unwrap();
            assert_eq!(back.width(), 5);
            assert_eq!(back.height(), 3);
            assert_eq!(back.pixel_format(), format);
            assert_eq!(back.component_type(), kind);
            assert_eq!(back.data(), image.data());
        }
    }
}

#[test]
fn png_turns_blue_first_red_first() {
    let bgr = Image::from_raw(vec![1, 2, 3, 4, 5, 6], 2, 1, PixelFormat::BGR, ComponentType::U8);
    let rgb = Image::from_raw(vec![3, 2, 1, 6, 5, 4], 2, 1, PixelFormat::RGB, ComponentType::U8);
    let bytes = save_png(&bgr).unwrap();
    assert_eq!(bytes, save_png(&rgb).unwrap());
    let back = load_png(&bytes).unwrap();
    assert_eq!(back.pixel_format(), PixelFormat::RGB);
    assert_eq!(back.data(), &[3, 2, 1, 6, 5, 4]);
    // The image that was saved is untouched.
    assert_eq!(bgr.data(), &[1, 2, 3, 4, 5, 6]);

    let bgra =
        Image::from_raw(vec![1, 2, 3, 4, 5, 6, 7, 8], 2, 1, PixelFormat::BGRA, ComponentType::U8);
    let back = load_png(&save_png(&bgra).unwrap()).unwrap();
    assert_eq!(back.pixel_format(), PixelFormat::RGBA);
    assert_eq!(back.data(), &[3, 2, 1, 4, 7, 6, 5, 8]);
}

#[test]
fn png_rejects_float_samples() {
    for kind in [ComponentType::F16, ComponentType::F32] {
        let image = Image::new(2, 2, PixelFormat::RGB, kind);
        match save_png(&image) {
            Err(ImageError::UnsupportedFormat(m)) => {
                assert_eq!(m, "PNG only supports U8 and U16 component types")
            }
            other => panic!("unexpected: {:?}", other.map(|b| b.len())),
        }
    }
}

#[test]
fn png_rejects_empty_image() {
    let image = Image::new(0, 0, PixelFormat::RGB, ComponentType::U8);
    assert!(matches!(save_png(&image), Err(ImageError::PngEncodingError(_))));
}

#[test]
fn png_load_reports_decoder_errors() {
    assert!(matches!(load_png(&[]), Err(ImageError::PngDecodingError(_))));
    assert!(matches!(load_png(&[1, 2, 3, 4, 5, 6, 7, 8, 9]), Err(ImageError::PngDecodingError(_))));
    let image = Image::from_raw(pattern(48), 4, 4, PixelFormat::RGB, ComponentType::U8);
    let bytes = save_png(&image).unwrap();
    let cut = &bytes[..bytes.len() / 2];
    assert!(matches!(load_png(cut), Err(ImageError::PngDecodingError(_))));
}

#[test]
fn png_indexed_is_not_supported() {
    let mut bytes = Vec::new();
    {
        let mut encoder = png::Encoder::new(&mut bytes, 2, 2);
        encoder.set_color(png::ColorType::Indexed);
        encoder.set_depth(png::BitDepth::Eight);
        encoder.set_palette(vec![0, 0, 0, 255, 255, 255]);
        let mut writer = encoder.write_header().unwrap();
        writer.write_image_data(&[0, 1, 1, 0]).unwrap();
    }
    match load_png(&bytes) {
        Err(ImageError::UnsupportedFormat(m)) => assert_eq!(m, "PNG indexed color not supported"),
        other => panic!("unexpected: {:?}", other.map(|i| i.size_bytes())),
    }
}

#[test]
fn png_low_bit_depth_is_not_supported() {
    let mut bytes = Vec::new();
    {
        let mut encoder = png::Encoder::new(&mut bytes, 8, 1);
        encoder.set_color(png::ColorType::Grayscale);
        encoder.set_depth(png::BitDepth::One);
        let mut writer = encoder.write_header().unwrap();
        writer.write_image_data(&[0b1010_1010]).unwrap();
    }
    match load_png(&bytes) {
        Err(ImageError::UnsupportedFormat(m)) => assert_eq!(m, "PNG bit depth One not supported"),
        other => panic!("unexpected: {:?}", other.map(|i| i.size_bytes())),
    }
}

#[test]
fn png_layout_of_headers() {
    let header = |color, depth| PngHeader { width: 1, height: 1, color, depth };
    assert!(matches!(
        png_layout(header(PngColor::Grayscale, PngDepth::Eight)),
        Ok((PixelFormat::R, ComponentType::U8))
    ));
    assert!(matches!(
        png_layout(header(PngColor::GrayscaleAlpha, PngDepth::Sixteen)),
        Ok((PixelFormat::RG, ComponentType::U16))
    ));
    assert!(matches!(
        png_layout(header(PngColor::Rgb, PngDepth::Eight)),
        Ok((PixelFormat::RGB, ComponentType::U8))
    ));
    assert!(matches!(
        png_layout(header(PngColor::Rgba, PngDepth::Sixteen)),
        Ok((PixelFormat::RGBA, ComponentType::U16))
    ));
    // The palette is reported before the depth.
    match png_layout(header(PngColor::Indexed, PngDepth::Two)) {
        Err(ImageError::UnsupportedFormat(m)) => assert_eq!(m, "PNG indexed color not supported"),
        _ => panic!("unexpected"),
    }
    match png_layout(header(PngColor::Grayscale, PngDepth::Two)) {
        Err(ImageError::UnsupportedFormat(m)) => assert_eq!(m, "PNG bit depth Two not supported"),
        _ => panic!("unexpected"),
    }
    match png_layout(header(PngColor::Grayscale, PngDepth::Four)) {
        Err(ImageError::UnsupportedFormat(m)) => assert_eq!(m, "PNG bit depth Four not supported"),
        _ => panic!("unexpected"),
    }
}

#[test]
fn png_frame_of_wrong_length_is_rejected() {
    let header =
        PngHeader { width: 2, height: 2, color: PngColor::Rgb, depth: PngDepth::Eight };
    let image = image_from_png(header, vec![7; 12]).unwrap();
    assert_eq!(image.data(), &[7; 12]);
    assert_eq!(image.pixel_format(), PixelFormat::RGB);
    assert!(matches!(
        image_from_png(header, vec![7; 11]),
        Err(ImageError::InvalidDimensions { width: 2, height: 2 })
    ));
    assert!(matches!(
        image_from_png(header, vec![7; 24]),
        Err(ImageError::InvalidDimensions { width: 2, height: 2 })
    ));
}
