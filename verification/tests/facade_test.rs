use galaxy_image::error::decimal;
use galaxy_image::galaxy_image::DEFAULT_JPEG_QUALITY;
use galaxy_image::{ComponentType, GalaxyImage, Image, ImageError, ImageFormat, PixelFormat};

fn gradient() -> Image {
    let mut image = Image::new(16, 16, PixelFormat::RGB, ComponentType::U8);
    {
        let data = image.data_mut();
        for y in 0..16 {
            for x in 0..16 {
                let at = (y * 16 + x) * 3;
                data[at] = (x * 16) as u8;
                data[at + 1] = (y * 16) as u8;
                data[at + 2] = 128;
            }
        }
    }
    image
}

#[test]
fn saved_files_are_detected_and_loaded() {
    let image = gradient();
    for format in [ImageFormat::Png, ImageFormat::Bmp, ImageFormat::Jpeg] {
        let bytes = GalaxyImage::save_to_bytes(&image, format, 90).unwrap();
        assert_eq!(ImageFormat::detect_from_bytes(&bytes), format);
        let back = GalaxyImage::load_from_bytes_auto(&bytes).unwrap();
        assert_eq!(back.width(), 16);
        assert_eq!(back.height(), 16);
        assert_eq!(back.pixel_format(), PixelFormat::RGB);
        let same = GalaxyImage::load_from_bytes(&bytes, format).unwrap();
        assert_eq!(same.data(), back.data());
        if format != ImageFormat::Jpeg {
            assert_eq!(back.data(), image.data());
        }
    }
}

#[test]
fn exr_goes_through_the_facade() {
    let mut image = Image::new(4, 4, PixelFormat::RGB, ComponentType::F32);
    for (i, sample) in image.data_mut().chunks_exact_mut(4).enumerate() {
        sample.copy_from_slice(&(i as f32 * 0.25).to_le_bytes());
    }
    let bytes = GalaxyImage::save_to_bytes(&image, ImageFormat::Exr, 90).unwrap();
    assert_eq!(ImageFormat::detect_from_bytes(&bytes), ImageFormat::Exr);
    let back = GalaxyImage::load_from_bytes_auto(&bytes).unwrap();
    assert_eq!(back.component_type(), ComponentType::F32);
    assert_eq!(back.data(), image.data());
    let same = GalaxyImage::load_from_bytes(&bytes, ImageFormat::Exr).unwrap();
    assert_eq!(same.data(), image.data());
}

#[test]
fn unknown_format_is_an_error() {
    match GalaxyImage::load_from_bytes(&[1, 2, 3], ImageFormat::Unknown) {
        Err(ImageError::UnsupportedFormat(m)) => assert_eq!(m, "Unknown format"),
        _ => panic!("unexpected"),
    }
    match GalaxyImage::load_from_bytes_auto(&[0; 64]) {
        Err(ImageError::UnsupportedFormat(m)) => assert_eq!(m, "Unknown format"),
        _ => panic!("unexpected"),
    }
    match GalaxyImage::save_to_bytes(&gradient(), ImageFormat::Unknown, 90) {
        Err(ImageError::UnsupportedFormat(m)) => assert_eq!(m, "Unknown format"),
        _ => panic!("unexpected"),
    }
}

#[test]
fn explicit_format_is_not_detected_again() {
    let bytes = GalaxyImage::save_to_bytes(&gradient(), ImageFormat::Png, 90).unwrap();
    assert!(matches!(
        GalaxyImage::load_from_bytes(&bytes, ImageFormat::Bmp),
        Err(ImageError::BmpError(_))
    ));
    assert!(matches!(
        GalaxyImage::load_from_bytes(&bytes, ImageFormat::Jpeg),
        Err(ImageError::JpegDecodeError(_))
    ));
}

#[test]
fn quality_is_clamped() {
    let image = gradient();
    let at = |q: u8| GalaxyImage::save_to_bytes(&image, ImageFormat::Jpeg, q).unwrap();
    assert_eq!(at(0), at(1));
    assert_eq!(at(101), at(100));
    assert_eq!(at(255), at(100));
    assert_ne!(at(1), at(100));
    assert_ne!(at(50), at(90));
    assert_eq!(DEFAULT_JPEG_QUALITY, 90);
}

#[test]
fn quality_counts_for_jpeg_alone() {
    let image = gradient();
    for format in [ImageFormat::Png, ImageFormat::Bmp] {
        let low = GalaxyImage::save_to_bytes(&image, format, 1).unwrap();
        let high = GalaxyImage::save_to_bytes(&image, format, 100).unwrap();
        assert_eq!(low, high);
    }
}

#[test]
fn unsupported_combinations_are_errors() {
    let floats = Image::new(2, 2, PixelFormat::RGB, ComponentType::F32);
    for format in [ImageFormat::Png, ImageFormat::Bmp, ImageFormat::Jpeg] {
        assert!(matches!(
            GalaxyImage::save_to_bytes(&floats, format, 90),
            Err(ImageError::UnsupportedFormat(_))
        ));
    }
    let bytes = Image::new(2, 2, PixelFormat::RGB, ComponentType::U8);
    assert!(matches!(
        GalaxyImage::save_to_bytes(&bytes, ImageFormat::Exr, 90),
        Err(ImageError::UnsupportedFormat(_))
    ));
}

#[test]
fn error_messages() {
    assert_eq!(ImageError::EmptyData.message(), "Empty image data");
    assert_eq!(ImageError::Other("plain".to_string()).message(), "plain");
    assert_eq!(
        ImageError::UnsupportedFormat("Unknown format".to_string()).message(),
        "Unsupported format: Unknown format"
    );
    assert_eq!(
        ImageError::InvalidPixelFormat("RG".to_string()).message(),
        "Invalid pixel format: RG"
    );
    assert_eq!(
        ImageError::JpegEncodeError("bad".to_string()).message(),
        "JPEG encode error: bad"
    );
    assert_eq!(
        ImageError::InvalidDimensions { width: 640, height: 0 }.message(),
        "Invalid dimensions: 640x0"
    );
    assert_eq!(
        ImageError::InvalidDimensions { width: u32::MAX, height: 7 }.message(),
        "Invalid dimensions: 4294967295x7"
    );
}

#[test]
fn messages_of_carried_errors() {
    let error = GalaxyImage::load_from_bytes(&[], ImageFormat::Png).unwrap_err();
    assert!(error.message().starts_with("PNG decoding error: "));
    assert!(error.message().len() > "PNG decoding error: ".len());
    let error = GalaxyImage::load_from_bytes(&[], ImageFormat::Bmp).unwrap_err();
    assert!(error.message().starts_with("BMP error: "));
    let error = GalaxyImage::load_from_bytes(&[], ImageFormat::Jpeg).unwrap_err();
    assert!(error.message().starts_with("JPEG decode error: "));
    let error = GalaxyImage::load_from_bytes(&[], ImageFormat::Exr).unwrap_err();
    assert!(error.message().starts_with("EXR error: "));
    let empty = Image::new(0, 0, PixelFormat::RGB, ComponentType::U8);
    let error = GalaxyImage::save_to_bytes(&empty, ImageFormat::Png, 90).unwrap_err();
    assert!(error.message().starts_with("PNG encoding error: "));
    let error = ImageError::from(std::io::Error::new(std::io::ErrorKind::NotFound, "gone"));
    assert_eq!(error.message(), "I/O error: gone");
}

#[test]
fn outside_errors_convert() {
    let error: ImageError = std::io::Error::new(std::io::ErrorKind::Other, "x").into();
    assert!(matches!(error, ImageError::IoError(_)));
    let error: ImageError = png::Decoder::new(&[][..]).read_info().err().unwrap().into();
    assert!(matches!(error, ImageError::PngDecodingError(_)));
    let error: ImageError = bmp::from_reader(&mut &[][..]).err().unwrap().into();
    assert!(matches!(error, ImageError::BmpError(_)));
    let error: ImageError =
        jpeg_decoder::Decoder::new(&[][..]).decode().err().unwrap().into();
    assert!(matches!(error, ImageError::JpegDecodeError(_)));
}

#[test]
fn decimal_numbers() {
    assert_eq!(decimal(0), "0");
    assert_eq!(decimal(7), "7");
    assert_eq!(decimal(10), "10");
    assert_eq!(decimal(905), "905");
    assert_eq!(decimal(4_294_967_295), "4294967295");
}
