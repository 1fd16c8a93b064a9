use galaxy_image::loaders::jpeg_loader::{image_from_jpeg, JpegInfo, JpegPixelFormat};
use galaxy_image::loaders::{load_jpeg, save_jpeg};
use galaxy_image::{ComponentType, Image, ImageError, PixelFormat};

fn flat(width: u32, height: u32, format: PixelFormat, pixel: &[u8]) -> Image {
    let mut data = Vec::new();
    for _ in 0..width * height {
        data.extend_from_slice(pixel);
    }
    Image::from_raw(data, width, height, format, ComponentType::U8)
}

fn close(a: u8, b: u8) -> bool {
    (a as i32 - b as i32).abs() <= 6
}

#[test]
fn jpeg_round_trip_rgb() {
    let image = flat(16, 8, PixelFormat::RGB, &[200, 100, 50]);
    let bytes = save_jpeg(&image, 95).unwrap();
    assert_eq!(&bytes[..2], &[0xFF, 0xD8]);
    let back = load_jpeg(&bytes).unwrap();
    assert_eq!(back.width(), 16);
    assert_eq!(back.height(), 8);
    assert_eq!(back.pixel_format(), PixelFormat::RGB);
    assert_eq!(back.component_type(), ComponentType::U8);
    assert_eq!(back.size_bytes(), 16 * 8 * 3);
    for pixel in back.data().chunks_exact(3) {
        assert!(close(pixel[0], 200) && close(pixel[1], 100) && close(pixel[2], 50));
    }
}

#[test]
fn jpeg_round_trip_luma() {
    let image = flat(8, 8, PixelFormat::R, &[77]);
    let back = load_jpeg(&save_jpeg(&image, 90).unwrap()).unwrap();
    assert_eq!(back.pixel_format(), PixelFormat::R);
    assert_eq!(back.size_bytes(), 64);
    assert!(back.data().iter().all(|b| close(*b, 77)));
}

#[test]
fn jpeg_drops_alpha_and_keeps_order() {
    let rgba = flat(8, 8, PixelFormat::RGBA, &[200, 100, 50, 7]);
    let rgb = flat(8, 8, PixelFormat::RGB, &[200, 100, 50]);
    assert_eq!(save_jpeg(&rgba, 90).unwrap(), save_jpeg(&rgb, 90).unwrap());
}

#[test]
fn jpeg_bgra_equals_converted_rgba() {
    let bytes: Vec<u8> = (0..8 * 8 * 4).map(|i| (i * 13 + 3) as u8).collect();
    let bgra = Image::from_raw(bytes.clone(), 8, 8, PixelFormat::BGRA, ComponentType::U8);
    let mut rgba = Image::from_raw(bytes, 8, 8, PixelFormat::BGRA, ComponentType::U8);
    rgba.bgr_to_rgb();
    assert_eq!(save_jpeg(&bgra, 80).unwrap(), save_jpeg(&rgba, 80).unwrap());
}

#[test]
fn jpeg_bgr_is_swapped() {
    let bgr = flat(8, 8, PixelFormat::BGR, &[50, 100, 200]);
    let rgb = flat(8, 8, PixelFormat::RGB, &[200, 100, 50]);
    assert_eq!(save_jpeg(&bgr, 90).unwrap(), save_jpeg(&rgb, 90).unwrap());
}

#[test]
fn jpeg_takes_first_channel_of_two() {
    let rg = flat(8, 8, PixelFormat::RG, &[77, 200]);
    let r = flat(8, 8, PixelFormat::R, &[77]);
    assert_eq!(save_jpeg(&rg, 90).unwrap(), save_jpeg(&r, 90).unwrap());
}

#[test]
fn jpeg_quality_changes_the_file() {
    let bytes: Vec<u8> = (0..32 * 32 * 3).map(|i| ((i * i) % 251) as u8).collect();
    let image = Image::from_raw(bytes, 32, 32, PixelFormat::RGB, ComponentType::U8);
    let low = save_jpeg(&image, 10).unwrap();
    let high = save_jpeg(&image, 100).unwrap();
    assert!(low.len() < high.len());
}

#[test]
fn jpeg_rejects_wide_samples() {
    for kind in [ComponentType::U16, ComponentType::F16, ComponentType::F32] {
        let image = Image::new(2, 2, PixelFormat::RGB, kind);
        match save_jpeg(&image, 90) {
            Err(ImageError::UnsupportedFormat(m)) => {
                assert_eq!(m, "JPEG only supports U8 component type")
            }
            other => panic!("unexpected: {:?}", other.map(|b| b.len())),
        }
    }
}

#[test]
fn jpeg_rejects_empty_image() {
    let image = Image::new(0, 4, PixelFormat::RGB, ComponentType::U8);
    match save_jpeg(&image, 90) {
        Err(ImageError::JpegEncodeError(m)) => {
            assert_eq!(m, "ZeroImageDimensions { width: 0, height: 4 }")
        }
        other => panic!("unexpected: {:?}", other.map(|b| b.len())),
    }
}

#[test]
fn jpeg_load_reports_decoder_errors() {
    assert!(matches!(load_jpeg(&[]), Err(ImageError::JpegDecodeError(_))));
    assert!(matches!(load_jpeg(&[0xFF, 0xD8, 0, 0, 0, 0, 0, 0]), Err(ImageError::JpegDecodeError(_))));
}

#[test]
fn jpeg_frame_without_metadata() {
    match image_from_jpeg(vec![1, 2, 3], None) {
        Err(ImageError::Other(m)) => assert_eq!(m, "Failed to get JPEG metadata"),
        _ => panic!("unexpected"),
    }
}

#[test]
fn jpeg_frame_of_cmyk_is_rejected() {
    let info = JpegInfo { width: 1, height: 1, format: JpegPixelFormat::CMYK32 };
    match image_from_jpeg(vec![1, 2, 3, 4], Some(info)) {
        Err(ImageError::UnsupportedFormat(m)) => assert_eq!(m, "JPEG CMYK format not supported"),
        _ => panic!("unexpected"),
    }
}

#[test]
fn jpeg_frames_become_images() {
    let info = JpegInfo { width: 2, height: 1, format: JpegPixelFormat::L8 };
    let image = image_from_jpeg(vec![5, 6], Some(info)).unwrap();
    assert_eq!(image.pixel_format(), PixelFormat::R);
    assert_eq!(image.component_type(), ComponentType::U8);
    assert_eq!(image.width(), 2);
    assert_eq!(image.data(), &[5, 6]);
    let info = JpegInfo { width: 1, height: 2, format: JpegPixelFormat::RGB24 };
    let image = image_from_jpeg(vec![1, 2, 3, 4, 5, 6], Some(info)).unwrap();
    assert_eq!(image.pixel_format(), PixelFormat::RGB);
    assert_eq!(image.height(), 2);
    assert_eq!(image.data(), &[1, 2, 3, 4, 5, 6]);
}

#[test]
fn jpeg_frame_of_wrong_length_is_rejected() {
    let info = JpegInfo { width: 2, height: 1, format: JpegPixelFormat::RGB24 };
    assert!(matches!(
        image_from_jpeg(vec![1, 2, 3], Some(info)),
        Err(ImageError::InvalidDimensions { width: 2, height: 1 })
    ));
    // Sixteen-bit luminance holds two bytes per pixel.
    let info = JpegInfo { width: 2, height: 1, format: JpegPixelFormat::L16 };
    assert!(matches!(
        image_from_jpeg(vec![1, 2, 3, 4], Some(info)),
        Err(ImageError::InvalidDimensions { width: 2, height: 1 })
    ));
}

#[test]
fn jpeg_loaded_image_has_no_zero_side() {
    let image = flat(1, 1, PixelFormat::R, &[9]);
    let back = load_jpeg(&save_jpeg(&image, 90).unwrap()).unwrap();
    assert_eq!((back.width(), back.height()), (1, 1));
    assert_eq!(back.component_type(), ComponentType::U8);
}
