use galaxy_image::loaders::exr_loader::{decode_layer, encode_layer};
use galaxy_image::loaders::exr_model::{ExrChannel, ExrLayer, ExrSamples};
use galaxy_image::loaders::{load_exr, save_exr};
use exr::image::write::WritableImage;
use exr::image::{AnyChannel, AnyChannels, Encoding, FlatSamples, Layer};
use exr::math::Vec2;
use exr::meta::attribute::Text;
use exr::meta::header::LayerAttributes;
use galaxy_image::{ComponentType, Image, ImageError, PixelFormat};

fn f32_image(width: u32, height: u32, format: PixelFormat, values: &[f32]) -> Image {
    let mut data = Vec::new();
    for v in values {
        data.extend_from_slice(&v.to_le_bytes());
    }
    Image::from_raw(data, width, height, format, ComponentType::F32)
}

fn f32_at(image: &Image, index: usize) -> f32 {
    let d = image.data();
    f32::from_le_bytes([d[index * 4], d[index * 4 + 1], d[index * 4 + 2], d[index * 4 + 3]])
}

fn channel(name: &str, samples: ExrSamples) -> ExrChannel {
    ExrChannel { name: name.as_bytes().to_vec(), samples }
}

fn layer(width: usize, height: usize, channels: Vec<ExrChannel>) -> ExrLayer {
    ExrLayer { width, height, channels }
}

#[test]
fn exr_round_trip_f32_keeps_hdr_values() {
    let values = [0.0f32, 0.5, 2.5, 1.0, 0.25, 2.5, -3.0, 1e20, 2.5, 0.1, 0.2, 2.5];
    let image = f32_image(2, 2, PixelFormat::RGB, &values);
    let bytes = save_exr(&image).unwrap();
    assert_eq!(&bytes[..4], &[0x76, 0x2F, 0x31, 0x01]);
    let back = load_exr(&bytes).unwrap();
    assert_eq!(back.width(), 2);
    assert_eq!(back.height(), 2);
    assert_eq!(back.pixel_format(), PixelFormat::RGB);
    assert_eq!(back.component_type(), ComponentType::F32);
    assert_eq!(back.data(), image.data());
    assert!((f32_at(&back, 2) - 2.5).abs() < 0.001);
}

#[test]
fn exr_round_trip_f16_rgba() {
    let mut data = Vec::new();
    for _ in 0..64 * 64 {
        // red 1.0, green 0.0, blue 1.0, alpha 1.0
        data.extend_from_slice(&[0x00, 0x3C, 0x00, 0x00, 0x00, 0x3C, 0x00, 0x3C]);
    }
    let image = Image::from_raw(data, 64, 64, PixelFormat::RGBA, ComponentType::F16);
    let back = load_exr(&save_exr(&image).unwrap()).unwrap();
    assert_eq!(back.pixel_format(), PixelFormat::RGBA);
    assert_eq!(back.component_type(), ComponentType::F16);
    assert_eq!(back.width(), 64);
    assert_eq!(back.height(), 64);
    assert_eq!(back.data(), image.data());
    assert_eq!(&back.data()[..2], &[0x00, 0x3C]);
}

#[test]
fn exr_round_trip_for_every_native_pair() {
    let formats = [PixelFormat::R, PixelFormat::RG, PixelFormat::RGB, PixelFormat::RGBA];
    let kinds = [ComponentType::F16, ComponentType::F32];
    for format in formats {
        for kind in kinds {
            let n = 3 * 5 * format.channel_count() * kind.size_bytes();
            // avoid the bit patterns of NaN: keep the high byte of a sample small
            let data: Vec<u8> = (0..n).map(|i| ((i * 7 + 1) % 60) as u8).collect();
            let image = Image::from_raw(data, 3, 5, format, kind);
            let back = load_exr(&save_exr(&image).unwrap()).unwrap();
            assert_eq!(back.width(), 3);
            assert_eq!(back.height(), 5);
            assert_eq!(back.pixel_format(), format);
            assert_eq!(back.component_type(), kind);
            assert_eq!(back.data(), image.data());
        }
    }
}

#[test]
fn exr_blue_first_comes_back_red_first() {
    let bgr = f32_image(1, 2, PixelFormat::BGR, &[1.0, 2.0, 3.0, 4.0, 5.0, 6.0]);
    let back = load_exr(&save_exr(&bgr).unwrap()).unwrap();
    assert_eq!(back.pixel_format(), PixelFormat::RGB);
    let values: Vec<f32> = (0..6).map(|i| f32_at(&back, i)).collect();
    assert_eq!(values, vec![3.0, 2.0, 1.0, 6.0, 5.0, 4.0]);

    let bgra = f32_image(1, 1, PixelFormat::BGRA, &[1.0, 2.0, 3.0, 0.5]);
    let back = load_exr(&save_exr(&bgra).unwrap()).unwrap();
    assert_eq!(back.pixel_format(), PixelFormat::RGBA);
    let values: Vec<f32> = (0..4).map(|i| f32_at(&back, i)).collect();
    assert_eq!(values, vec![3.0, 2.0, 1.0, 0.5]);
}

#[test]
fn exr_rejects_integer_samples() {
    let image = Image::new(2, 2, PixelFormat::RGB, ComponentType::U8);
    match save_exr(&image) {
        Err(ImageError::UnsupportedFormat(m)) => {
            assert_eq!(m, "EXR does not support U8 component type, use F16 or F32")
        }
        other => panic!("unexpected: {:?}", other.map(|b| b.len())),
    }
    let image = Image::new(2, 2, PixelFormat::RGB, ComponentType::U16);
    match save_exr(&image) {
        Err(ImageError::UnsupportedFormat(m)) => {
            assert_eq!(m, "EXR does not support U16 component type, use F16 or F32")
        }
        other => panic!("unexpected: {:?}", other.map(|b| b.len())),
    }
}

#[test]
fn exr_rejects_empty_image() {
    let image = Image::new(0, 3, PixelFormat::RGB, ComponentType::F32);
    assert!(matches!(
        save_exr(&image),
        Err(ImageError::InvalidDimensions { width: 0, height: 3 })
    ));
    let image = Image::new(0, 0, PixelFormat::R, ComponentType::F16);
    assert!(matches!(
        save_exr(&image),
        Err(ImageError::InvalidDimensions { width: 0, height: 0 })
    ));
}

#[test]
fn exr_load_reports_codec_errors() {
    assert!(matches!(load_exr(&[]), Err(ImageError::ExrError(_))));
    assert!(matches!(load_exr(&[0x76, 0x2F, 0x31, 0x01, 2, 0, 0, 0]), Err(ImageError::ExrError(_))));
    assert!(matches!(load_exr(&[7; 64]), Err(ImageError::ExrError(_))));
}

#[test]
fn written_channels_are_sorted_by_name() {
    let image = f32_image(1, 1, PixelFormat::RGBA, &[1.0, 2.0, 3.0, 4.0]);
    let written = encode_layer(&image).unwrap();
    let names: Vec<&[u8]> = written.channels.iter().map(|c| &c.name[..]).collect();
    assert_eq!(names, vec![b"A", b"B", b"G", b"R"]);
    let first = |i: usize| match &written.channels[i].samples {
        ExrSamples::F32(v) => f32::from_bits(v[0]),
        _ => panic!("unexpected kind"),
    };
    assert_eq!((first(0), first(1), first(2), first(3)), (4.0, 3.0, 2.0, 1.0));

    let image = f32_image(1, 1, PixelFormat::BGRA, &[1.0, 2.0, 3.0, 4.0]);
    let written = encode_layer(&image).unwrap();
    let names: Vec<&[u8]> = written.channels.iter().map(|c| &c.name[..]).collect();
    assert_eq!(names, vec![b"A", b"B", b"G", b"R"]);
    let first = |i: usize| match &written.channels[i].samples {
        ExrSamples::F32(v) => f32::from_bits(v[0]),
        _ => panic!("unexpected kind"),
    };
    assert_eq!((first(0), first(1), first(2), first(3)), (4.0, 1.0, 2.0, 3.0));

    let image = Image::from_raw(vec![0x00, 0x3C, 0x00, 0x38], 1, 1, PixelFormat::RG, ComponentType::F16);
    let written = encode_layer(&image).unwrap();
    let names: Vec<&[u8]> = written.channels.iter().map(|c| &c.name[..]).collect();
    assert_eq!(names, vec![b"A", b"Y"]);
    assert!(matches!(&written.channels[0].samples, ExrSamples::F16(v) if v[..] == [0x3800]));
    assert!(matches!(&written.channels[1].samples, ExrSamples::F16(v) if v[..] == [0x3C00]));
}

#[test]
fn rgba_wins_even_beside_luminance() {
    let one = |v: f32| ExrSamples::F32(vec![v.to_bits()]);
    let source = layer(
        1,
        1,
        vec![
            channel("A", one(4.0)),
            channel("B", one(3.0)),
            channel("G", one(2.0)),
            channel("R", one(1.0)),
            channel("Y", one(9.0)),
        ],
    );
    let image = decode_layer(&source).unwrap();
    assert_eq!(image.pixel_format(), PixelFormat::RGBA);
    assert_eq!(image.component_type(), ComponentType::F32);
    let values: Vec<f32> = (0..4).map(|i| f32_at(&image, i)).collect();
    assert_eq!(values, vec![1.0, 2.0, 3.0, 4.0]);
}

#[test]
fn channel_patterns_in_order() {
    let one = |v: f32| ExrSamples::F32(vec![v.to_bits()]);
    let decode = |names: &[&str]| {
        let channels =
            names.iter().enumerate().map(|(i, n)| channel(n, one(i as f32 + 1.0))).collect();
        decode_layer(&layer(1, 1, channels))
    };
    let values = |image: &Image| -> Vec<f32> {
        (0..image.pixel_format().channel_count()).map(|i| f32_at(image, i)).collect()
    };

    let image = decode(&["B", "G", "R"]).unwrap();
    assert_eq!(image.pixel_format(), PixelFormat::RGB);
    assert_eq!(values(&image), vec![3.0, 2.0, 1.0]);

    let image = decode(&["B", "G", "R", "Y"]).unwrap();
    assert_eq!(image.pixel_format(), PixelFormat::RGB);

    let image = decode(&["A", "Y"]).unwrap();
    assert_eq!(image.pixel_format(), PixelFormat::RG);
    assert_eq!(values(&image), vec![2.0, 1.0]);

    // luminance and alpha go before red and alpha
    let image = decode(&["A", "R", "Y"]).unwrap();
    assert_eq!(image.pixel_format(), PixelFormat::RG);
    assert_eq!(values(&image), vec![3.0, 1.0]);

    let image = decode(&["Y"]).unwrap();
    assert_eq!(image.pixel_format(), PixelFormat::R);
    assert_eq!(values(&image), vec![1.0]);

    let image = decode(&["A", "R"]).unwrap();
    assert_eq!(image.pixel_format(), PixelFormat::RG);
    assert_eq!(values(&image), vec![2.0, 1.0]);

    let image = decode(&["R"]).unwrap();
    assert_eq!(image.pixel_format(), PixelFormat::R);
    assert_eq!(values(&image), vec![1.0]);

    // channels that are no colour, alpha or luminance do not count
    let image = decode(&["R", "Z"]).unwrap();
    assert_eq!(image.pixel_format(), PixelFormat::R);
    let image = decode(&["Y", "depth"]).unwrap();
    assert_eq!(image.pixel_format(), PixelFormat::R);

    // the first channel of a name is the one that counts
    let image = decode(&["Y", "Y"]).unwrap();
    assert_eq!(values(&image), vec![1.0]);

    let none: [&[&str]; 14] = [
        &["G"],
        &["A"],
        &["B", "G"],
        &["Z"],
        &["r"],
        &["RG"],
        // no channel that is there is passed over to make a layout fit
        &["A", "G", "R"],
        &["G", "R"],
        &["B", "R"],
        &["A", "B", "R"],
        &["R", "Y"],
        &["G", "Y"],
        &["B", "Y"],
        &["B", "G", "Y"],
    ];
    for names in none {
        match decode(names) {
            Err(ImageError::UnsupportedFormat(m)) => {
                assert_eq!(m, "No recognized channels (R/G/B/A/Y) in EXR file")
            }
            _ => panic!("unexpected"),
        }
    }
}

#[test]
fn layer_without_channels_is_an_error() {
    for (w, h) in [(0, 0), (4, 4)] {
        match decode_layer(&layer(w, h, vec![])) {
            Err(ImageError::Other(m)) => assert_eq!(m, "EXR file contains no channels"),
            _ => panic!("unexpected"),
        }
    }
}

#[test]
fn half_samples_stay_halves() {
    let source = layer(2, 1, vec![channel("Y", ExrSamples::F16(vec![0x3C00, 0xC000]))]);
    let image = decode_layer(&source).unwrap();
    assert_eq!(image.component_type(), ComponentType::F16);
    assert_eq!(image.pixel_format(), PixelFormat::R);
    assert_eq!(image.data(), &[0x00, 0x3C, 0x00, 0xC0]);
}

#[test]
fn integer_samples_become_singles() {
    let source = layer(3, 1, vec![channel("Y", ExrSamples::U32(vec![0, 3, 16_777_217]))]);
    let image = decode_layer(&source).unwrap();
    assert_eq!(image.component_type(), ComponentType::F32);
    assert_eq!(f32_at(&image, 0), 0.0);
    assert_eq!(f32_at(&image, 1), 3.0);
    // 2^24 + 1 is not a single: it is rounded to 2^24
    assert_eq!(f32_at(&image, 2), 16_777_216.0);
    assert_eq!(&image.data()[4..8], &0x4040_0000u32.to_le_bytes());
}

#[test]
fn mixed_kinds_become_singles() {
    let source = layer(
        1,
        2,
        vec![
            channel("R", ExrSamples::F16(vec![0x3C00, 0x4100])),
            channel("G", ExrSamples::F32(vec![0.5f32.to_bits(), 7.25f32.to_bits()])),
            channel("B", ExrSamples::U32(vec![2, 1000])),
        ],
    );
    let image = decode_layer(&source).unwrap();
    assert_eq!(image.pixel_format(), PixelFormat::RGB);
    assert_eq!(image.component_type(), ComponentType::F32);
    assert_eq!(image.size_bytes(), 2 * 3 * 4);
    let values: Vec<f32> = (0..6).map(|i| f32_at(&image, i)).collect();
    assert_eq!(values, vec![1.0, 0.5, 2.0, 2.5, 7.25, 1000.0]);
    // the half with bits 0x3C00 is exactly 1.0
    assert_eq!(&image.data()[..4], &0x3F80_0000u32.to_le_bytes());
}

#[test]
fn unpicked_channels_do_not_count() {
    // The kinds of R, G and B agree; the integer channel is not picked.
    let source = layer(
        1,
        1,
        vec![
            channel("B", ExrSamples::F16(vec![0x4200])),
            channel("G", ExrSamples::F16(vec![0x4000])),
            channel("R", ExrSamples::F16(vec![0x3C00])),
            channel("Z", ExrSamples::U32(vec![5, 6, 7])),
        ],
    );
    let image = decode_layer(&source).unwrap();
    assert_eq!(image.component_type(), ComponentType::F16);
    assert_eq!(image.data(), &[0x00, 0x3C, 0x00, 0x40, 0x00, 0x42]);
}

#[test]
fn sample_count_must_match_the_size() {
    let source = layer(2, 2, vec![channel("Y", ExrSamples::F32(vec![0; 3]))]);
    assert!(matches!(
        decode_layer(&source),
        Err(ImageError::InvalidDimensions { width: 2, height: 2 })
    ));
    let source = layer(
        2,
        1,
        vec![channel("A", ExrSamples::F32(vec![0; 1])), channel("Y", ExrSamples::F32(vec![0; 2]))],
    );
    assert!(matches!(
        decode_layer(&source),
        Err(ImageError::InvalidDimensions { width: 2, height: 1 })
    ));
}

#[test]
fn layer_round_trip_without_the_codec() {
    let image = f32_image(2, 1, PixelFormat::RGBA, &[1.0, 2.0, 3.0, 4.0, 5.0, 6.0, 7.0, 8.0]);
    let back = decode_layer(&encode_layer(&image).unwrap()).unwrap();
    assert_eq!(back.pixel_format(), PixelFormat::RGBA);
    assert_eq!(back.data(), image.data());
}

#[test]
fn integer_samples_have_no_layer() {
    let image = Image::new(1, 1, PixelFormat::RGB, ComponentType::U16);
    match encode_layer(&image) {
        Err(ImageError::UnsupportedFormat(m)) => {
            assert_eq!(m, "EXR does not support U16 component type, use F16 or F32")
        }
        _ => panic!("unexpected"),
    }
}

#[test]
fn red_green_alpha_is_not_made_to_fit() {
    let one = |v: f32| ExrSamples::F32(vec![v.to_bits()]);
    let source = layer(
        1,
        1,
        vec![channel("A", one(1.0)), channel("G", one(2.0)), channel("R", one(3.0))],
    );
    match decode_layer(&source) {
        Err(ImageError::UnsupportedFormat(m)) => {
            assert_eq!(m, "No recognized channels (R/G/B/A/Y) in EXR file")
        }
        _ => panic!("unexpected"),
    }
    // through the codec too
    let written = {
        let make = |name: &str, v: u32| AnyChannel {
            name: Text::new_or_panic(name),
            sample_data: FlatSamples::U32(vec![v]),
            quantize_linearly: false,
            sampling: Vec2(1, 1),
        };
        let list = vec![make("A", 1), make("G", 2), make("R", 3)];
        let layer = Layer::new(
            Vec2(1, 1),
            LayerAttributes::named(Text::new_or_panic("main")),
            Encoding::FAST_LOSSLESS,
            AnyChannels { list: list.into_iter().collect() },
        );
        let mut cursor = std::io::Cursor::new(Vec::new());
        exr::image::Image::from_layer(layer).write().to_buffered(&mut cursor).unwrap();
        cursor.into_inner()
    };
    assert!(matches!(load_exr(&written), Err(ImageError::UnsupportedFormat(_))));
}

fn widened(bits: u16) -> u32 {
    let sign = (bits as u32 >> 15) << 31;
    let exponent = (bits as u32 >> 10) & 0x1f;
    let fraction = bits as u32 & 0x3ff;
    let magnitude = if exponent == 0x1f {
        if fraction == 0 {
            0x7f80_0000
        } else {
            0x7fc0_0000 | (fraction << 13)
        }
    } else if exponent == 0 {
        if fraction == 0 {
            0
        } else {
            let top = 31 - fraction.leading_zeros();
            ((103 + top) << 23) + ((fraction - (1 << top)) << (23 - top))
        }
    } else {
        ((exponent + 112) << 23) + (fraction << 13)
    };
    sign | magnitude
}

#[test]
fn every_half_widens_to_the_single_of_its_value() {
    let halves: Vec<u16> = (0..=u16::MAX).collect();
    let source = layer(
        halves.len(),
        1,
        vec![
            channel("A", ExrSamples::F32(vec![0; halves.len()])),
            channel("Y", ExrSamples::F16(halves.clone())),
        ],
    );
    let image = decode_layer(&source).unwrap();
    assert_eq!(image.pixel_format(), PixelFormat::RG);
    assert_eq!(image.component_type(), ComponentType::F32);
    for (i, half) in halves.iter().enumerate() {
        let at = i * 8;
        let d = image.data();
        let single = u32::from_le_bytes([d[at], d[at + 1], d[at + 2], d[at + 3]]);
        assert_eq!(single, widened(*half), "half {:#06x}", half);
        // the value is kept
        let exponent = (*half as i32 >> 10) & 0x1f;
        let fraction = (*half & 0x3ff) as f64;
        if exponent != 0x1f {
            let value = if exponent == 0 {
                fraction * 2f64.powi(-24)
            } else {
                (1024.0 + fraction) * 2f64.powi(exponent - 25)
            };
            let signed = if half >> 15 == 1 { -value } else { value };
            assert_eq!(f32::from_bits(single) as f64, signed, "half {:#06x}", half);
        }
    }
    assert_eq!(widened(0x3C00), 0x3F80_0000);
    assert_eq!(widened(0x0001), 0x3380_0000);
    assert_eq!(widened(0x7C01), 0x7FC0_2000);
    assert_eq!(widened(0xFE00), 0xFFC0_0000);
}

#[test]
fn saved_file_begins_with_the_signature() {
    let image = f32_image(1, 1, PixelFormat::R, &[0.5]);
    let bytes = save_exr(&image).unwrap();
    assert!(bytes.len() >= 8);
    assert_eq!(&bytes[..4], &[0x76, 0x2F, 0x31, 0x01]);
    assert_eq!(galaxy_image::ImageFormat::detect_from_bytes(&bytes), galaxy_image::ImageFormat::Exr);
}

#[test]
fn loaded_layers_have_a_channel() {
    // what the codec reads never lacks channels: the error for none is the library's own
    let image = f32_image(2, 1, PixelFormat::RG, &[1.0, 2.0, 3.0, 4.0]);
    let back = load_exr(&save_exr(&image).unwrap()).unwrap();
    assert_eq!(back.pixel_format(), PixelFormat::RG);
    assert_eq!(back.data(), image.data());
}
