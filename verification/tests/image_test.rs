use galaxy_image::image::required_len;
use galaxy_image::{ComponentType, Image, PixelFormat};

#[test]
fn component_sizes() {
    assert_eq!(ComponentType::U8.size_bytes(), 1);
    assert_eq!(ComponentType::U16.size_bytes(), 2);
    assert_eq!(ComponentType::F16.size_bytes(), 2);
    assert_eq!(ComponentType::F32.size_bytes(), 4);
}

#[test]
fn channel_counts_and_alpha() {
    let all = [
        (PixelFormat::R, 1, false),
        (PixelFormat::RG, 2, true),
        (PixelFormat::RGB, 3, false),
        (PixelFormat::RGBA, 4, true),
        (PixelFormat::BGR, 3, false),
        (PixelFormat::BGRA, 4, true),
    ];
    for (format, channels, alpha) in all {
        assert_eq!(format.channel_count(), channels);
        assert_eq!(format.has_alpha(), alpha);
    }
}

#[test]
fn new_image_is_zero_filled() {
    let image = Image::new(3, 2, PixelFormat::RGBA, ComponentType::U16);
    assert_eq!(image.width(), 3);
    assert_eq!(image.height(), 2);
    assert_eq!(image.pixel_format(), PixelFormat::RGBA);
    assert_eq!(image.component_type(), ComponentType::U16);
    assert_eq!(image.bytes_per_pixel(), 8);
    assert_eq!(image.size_bytes(), 3 * 2 * 4 * 2);
    assert!(image.data().iter().all(|b| *b == 0));
}

#[test]
fn size_invariant_for_every_shape() {
    let formats = [
        PixelFormat::R,
        PixelFormat::RG,
        PixelFormat::RGB,
        PixelFormat::RGBA,
        PixelFormat::BGR,
        PixelFormat::BGRA,
    ];
    let kinds = [ComponentType::U8, ComponentType::U16, ComponentType::F16, ComponentType::F32];
    for format in formats {
        for kind in kinds {
            let image = Image::new(5, 7, format, kind);
            let expected = 5 * 7 * format.channel_count() * kind.size_bytes();
            assert_eq!(image.size_bytes(), expected);
            assert_eq!(image.data().len(), expected);
            assert_eq!(required_len(5, 7, format, kind), Some(expected));
        }
    }
}

#[test]
fn empty_image_is_allowed() {
    let image = Image::new(0, 0, PixelFormat::RGB, ComponentType::U8);
    assert_eq!(image.size_bytes(), 0);
    let image = Image::new(0, 9, PixelFormat::RGB, ComponentType::U8);
    assert_eq!(image.size_bytes(), 0);
    assert_eq!(image.height(), 9);
}

#[test]
fn from_raw_keeps_the_bytes() {
    let image = Image::from_raw(vec![1, 2, 3, 4, 5, 6], 2, 1, PixelFormat::RGB, ComponentType::U8);
    assert_eq!(image.data(), &[1, 2, 3, 4, 5, 6]);
    assert_eq!(image.into_data(), vec![1, 2, 3, 4, 5, 6]);
}

#[test]
fn try_from_raw_checks_the_length() {
    let ok = Image::try_from_raw(vec![0; 12], 2, 2, PixelFormat::RGB, ComponentType::U8);
    assert!(ok.is_some());
    let short = Image::try_from_raw(vec![0; 11], 2, 2, PixelFormat::RGB, ComponentType::U8);
    assert!(short.is_none());
    let long = Image::try_from_raw(vec![0; 13], 2, 2, PixelFormat::RGB, ComponentType::U8);
    assert!(long.is_none());
    let wide = Image::try_from_raw(vec![0; 12], 2, 2, PixelFormat::RGB, ComponentType::U16);
    assert!(wide.is_none());
}

#[test]
fn data_mut_writes_in_place() {
    let mut image = Image::new(2, 1, PixelFormat::RG, ComponentType::U8);
    image.data_mut()[3] = 9;
    assert_eq!(image.data(), &[0, 0, 0, 9]);
    assert_eq!(image.size_bytes(), 4);
}

#[test]
fn clone_has_a_buffer_of_its_own() {
    let mut image = Image::from_raw(vec![1, 2, 3], 1, 1, PixelFormat::RGB, ComponentType::U8);
    let copy = image.clone();
    image.data_mut()[0] = 7;
    assert_eq!(copy.data(), &[1, 2, 3]);
    assert_eq!(copy.pixel_format(), PixelFormat::RGB);
}

#[test]
fn bgr_to_rgb_swaps_first_and_third() {
    let mut image =
        Image::from_raw(vec![1, 2, 3, 4, 5, 6], 2, 1, PixelFormat::BGR, ComponentType::U8);
    image.bgr_to_rgb();
    assert_eq!(image.pixel_format(), PixelFormat::RGB);
    assert_eq!(image.data(), &[3, 2, 1, 6, 5, 4]);
    assert_eq!(image.size_bytes(), 6);
}

#[test]
fn bgra_to_rgba_keeps_alpha() {
    let mut image = Image::from_raw(
        vec![1, 2, 3, 4, 5, 6, 7, 8],
        1,
        2,
        PixelFormat::BGRA,
        ComponentType::U8,
    );
    image.bgr_to_rgb();
    assert_eq!(image.pixel_format(), PixelFormat::RGBA);
    assert_eq!(image.data(), &[3, 2, 1, 4, 7, 6, 5, 8]);
}

#[test]
fn rgb_to_bgr_swaps_first_and_third() {
    let mut image =
        Image::from_raw(vec![1, 2, 3, 4, 5, 6], 2, 1, PixelFormat::RGB, ComponentType::U8);
    image.rgb_to_bgr();
    assert_eq!(image.pixel_format(), PixelFormat::BGR);
    assert_eq!(image.data(), &[3, 2, 1, 6, 5, 4]);
    let mut image =
        Image::from_raw(vec![1, 2, 3, 4], 1, 1, PixelFormat::RGBA, ComponentType::U8);
    image.rgb_to_bgr();
    assert_eq!(image.pixel_format(), PixelFormat::BGRA);
    assert_eq!(image.data(), &[3, 2, 1, 4]);
}

#[test]
fn conversions_leave_other_layouts_alone() {
    let mut image =
        Image::from_raw(vec![1, 2, 3, 4, 5, 6], 2, 1, PixelFormat::RGB, ComponentType::U8);
    image.bgr_to_rgb();
    assert_eq!(image.pixel_format(), PixelFormat::RGB);
    assert_eq!(image.data(), &[1, 2, 3, 4, 5, 6]);
    let mut image =
        Image::from_raw(vec![1, 2, 3, 4, 5, 6], 2, 1, PixelFormat::BGR, ComponentType::U8);
    image.rgb_to_bgr();
    assert_eq!(image.pixel_format(), PixelFormat::BGR);
    assert_eq!(image.data(), &[1, 2, 3, 4, 5, 6]);
    let mut image = Image::from_raw(vec![1, 2, 3, 4], 2, 1, PixelFormat::RG, ComponentType::U8);
    image.swap_blue_red();
    assert_eq!(image.pixel_format(), PixelFormat::RG);
    assert_eq!(image.data(), &[1, 2, 3, 4]);
}

#[test]
fn swap_blue_red_twice_is_identity() {
    let formats = [PixelFormat::RGB, PixelFormat::RGBA, PixelFormat::BGR, PixelFormat::BGRA];
    for format in formats {
        let n = 3 * 2 * format.channel_count();
        let bytes: Vec<u8> = (0..n).map(|i| i as u8).collect();
        let mut image = Image::from_raw(bytes.clone(), 3, 2, format, ComponentType::U8);
        image.swap_blue_red();
        assert_ne!(image.pixel_format(), format);
        assert_ne!(image.data(), &bytes[..]);
        image.swap_blue_red();
        assert_eq!(image.pixel_format(), format);
        assert_eq!(image.data(), &bytes[..]);
    }
}

#[test]
fn swap_works_on_groups_of_channel_count_bytes() {
    // Two-byte samples: the groups are still three bytes long.
    let mut image =
        Image::from_raw(vec![1, 2, 3, 4, 5, 6], 1, 1, PixelFormat::BGR, ComponentType::U16);
    image.bgr_to_rgb();
    assert_eq!(image.data(), &[3, 2, 1, 6, 5, 4]);
    assert_eq!(image.size_bytes(), 6);
}
