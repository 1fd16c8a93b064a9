use vstd::string::StringSliceAdditionalSpecFns;
use vstd::prelude::*;

verus! {

/// File format of an encoded image.
#[derive(Debug, Clone, Copy, PartialEq, Eq, Hash, Structural)]
pub enum ImageFormat {
    /// Portable Network Graphics.
    Png,
    /// Windows bitmap.
    Bmp,
    /// JPEG.
    Jpeg,
    /// OpenEXR (high dynamic range).
    Exr,
    /// Unknown or unsupported format.
    Unknown,
}

/// Number of leading bytes that detection asks for, whatever the format.
pub const SIGNATURE_WINDOW: usize = 8;

/// The signature of a PNG file.
pub open spec fn png_signature() -> Seq<u8> {
    seq![0x89u8, 0x50u8, 0x4eu8, 0x47u8, 0x0du8, 0x0au8, 0x1au8, 0x0au8]
}

/// The signature of a BMP file.
pub open spec fn bmp_signature() -> Seq<u8> {
    seq![0x42u8, 0x4du8]
}

/// The signature of a JPEG file.
pub open spec fn jpeg_signature() -> Seq<u8> {
    seq![0xffu8, 0xd8u8]
}

/// The signature of an OpenEXR file.
pub open spec fn exr_signature() -> Seq<u8> {
    seq![0x76u8, 0x2fu8, 0x31u8, 0x01u8]
}

/// Whether `data` begins with `prefix`.
pub open spec fn has_prefix(data: Seq<u8>, prefix: Seq<u8>) -> bool {
    data.len() >= prefix.len() && data.subrange(0, prefix.len() as int) == prefix
}

/// The format that the leading bytes of a buffer announce. A buffer of fewer
/// than eight bytes announces none, whatever it begins with.
pub open spec fn detected_format(data: Seq<u8>) -> ImageFormat {
    if data.len() < SIGNATURE_WINDOW {
        ImageFormat::Unknown
    } else if has_prefix(data, png_signature()) {
        ImageFormat::Png
    } else if has_prefix(data, bmp_signature()) {
        ImageFormat::Bmp
    } else if has_prefix(data, jpeg_signature()) {
        ImageFormat::Jpeg
    } else if has_prefix(data, exr_signature()) {
        ImageFormat::Exr
    } else {
        ImageFormat::Unknown
    }
}

/// A byte with an upper-case ASCII letter turned lower-case.
pub open spec fn fold_ascii(byte: u8) -> u8 {
    if 0x41 <= byte <= 0x5a {
        (byte + 0x20) as u8
    } else {
        byte
    }
}

/// Whether `path` ends with `suffix` when the case of ASCII letters is
/// ignored; `suffix` is given in lower case.
pub open spec fn ends_with_folded(path: Seq<u8>, suffix: Seq<u8>) -> bool {
    path.len() >= suffix.len() && forall|i: int|
        0 <= i < suffix.len() ==> fold_ascii(#[trigger] path[path.len() - suffix.len() + i])
            == suffix[i]
}

/// The bytes of ".png".
pub open spec fn png_suffix() -> Seq<u8> {
    seq![0x2eu8, 0x70u8, 0x6eu8, 0x67u8]
}

/// The bytes of ".bmp".
pub open spec fn bmp_suffix() -> Seq<u8> {
    seq![0x2eu8, 0x62u8, 0x6du8, 0x70u8]
}

/// The bytes of ".jpg".
pub open spec fn jpg_suffix() -> Seq<u8> {
    seq![0x2eu8, 0x6au8, 0x70u8, 0x67u8]
}

/// The bytes of ".jpeg".
pub open spec fn jpeg_suffix() -> Seq<u8> {
    seq![0x2eu8, 0x6au8, 0x70u8, 0x65u8, 0x67u8]
}

/// The bytes of ".exr".
pub open spec fn exr_suffix() -> Seq<u8> {
    seq![0x2eu8, 0x65u8, 0x78u8, 0x72u8]
}

/// The format that the end of a path, given as its bytes, announces.
pub open spec fn format_of_extension(path: Seq<u8>) -> ImageFormat {
    if ends_with_folded(path, png_suffix()) {
        ImageFormat::Png
    } else if ends_with_folded(path, bmp_suffix()) {
        ImageFormat::Bmp
    } else if ends_with_folded(path, jpg_suffix()) || ends_with_folded(path, jpeg_suffix()) {
        ImageFormat::Jpeg
    } else if ends_with_folded(path, exr_suffix()) {
        ImageFormat::Exr
    } else {
        ImageFormat::Unknown
    }
}

/// The format of a file from its leading bytes, or from the end of its path
/// where the bytes announce none.
pub open spec fn resolved_format(data: Seq<u8>, path: Seq<u8>) -> ImageFormat {
    if detected_format(data) != ImageFormat::Unknown {
        detected_format(data)
    } else {
        format_of_extension(path)
    }
}

/// Whether `data` begins with the bytes of `prefix`.
fn starts_with(data: &[u8], prefix: &[u8]) -> (yes: bool)
    ensures
        yes == has_prefix(data@, prefix@),
{
    if data.len() < prefix.len() {
        return false;
    }
    let mut i: usize = 0;
    while i < prefix.len()
        invariant
            i <= prefix@.len() <= data@.len(),
            forall|j: int| 0 <= j < i ==> data@[j] == prefix@[j],
        decreases prefix@.len() - i,
    {
        if data[i] != prefix[i] {
            assert(data@.subrange(0, prefix@.len() as int)[i as int] != prefix@[i as int]);
            return false;
        }
        i = i + 1;
    }
    assert(data@.subrange(0, prefix@.len() as int) =~= prefix@);
    true
}

/// A byte with an upper-case ASCII letter turned lower-case.
fn fold(byte: u8) -> (folded: u8)
    ensures
        folded == fold_ascii(byte),
{
    if 0x41 <= byte && byte <= 0x5a {
        byte + 0x20
    } else {
        byte
    }
}

/// Whether `path` ends with `suffix`, the case of ASCII letters ignored.
fn ends_with(path: &[u8], suffix: &[u8]) -> (yes: bool)
    ensures
        yes == ends_with_folded(path@, suffix@),
{
    if path.len() < suffix.len() {
        return false;
    }
    let start = path.len() - suffix.len();
    let mut i: usize = 0;
    while i < suffix.len()
        invariant
            i <= suffix@.len() <= path@.len(),
            path@.len() <= usize::MAX,
            start == path@.len() - suffix@.len(),
            forall|j: int|
                0 <= j < i ==> fold_ascii(#[trigger] path@[path@.len() - suffix@.len() + j])
                    == suffix@[j],
        decreases suffix@.len() - i,
    {
        if fold(path[start + i]) != suffix[i] {
            assert(fold_ascii(path@[path@.len() - suffix@.len() + i]) != suffix@[i as int]);
            return false;
        }
        i = i + 1;
    }
    true
}

impl ImageFormat {
    /// Detects the format from the leading bytes of a file.
    ///
    /// PNG is known by its eight-byte signature, BMP by `42 4D`, JPEG by
    /// `FF D8`, OpenEXR by `76 2F 31 01`. Fewer than eight bytes are never
    /// enough, whatever they are.
    pub fn detect_from_bytes(data: &[u8]) -> (format: ImageFormat)
        ensures
            format == detected_format(data@),
    {
        if data.len() < SIGNATURE_WINDOW {
            return ImageFormat::Unknown;
        }
        let png: [u8; 8] = [0x89, 0x50, 0x4e, 0x47, 0x0d, 0x0a, 0x1a, 0x0a];
        let bmp: [u8; 2] = [0x42, 0x4d];
        let jpeg: [u8; 2] = [0xff, 0xd8];
        let exr: [u8; 4] = [0x76, 0x2f, 0x31, 0x01];
        assert(png@ =~= png_signature());
        assert(bmp@ =~= bmp_signature());
        assert(jpeg@ =~= jpeg_signature());
        assert(exr@ =~= exr_signature());
        if starts_with(data, png.as_slice()) {
            ImageFormat::Png
        } else if starts_with(data, bmp.as_slice()) {
            ImageFormat::Bmp
        } else if starts_with(data, jpeg.as_slice()) {
            ImageFormat::Jpeg
        } else if starts_with(data, exr.as_slice()) {
            ImageFormat::Exr
        } else {
            ImageFormat::Unknown
        }
    }

    /// Detects the format from the end of a path given as bytes: `.png`,
    /// `.bmp`, `.jpg` or `.jpeg`, `.exr`, in any case of the letters.
    pub fn from_extension_bytes(path: &[u8]) -> (format: ImageFormat)
        ensures
            format == format_of_extension(path@),
    {
        let png: [u8; 4] = [0x2e, 0x70, 0x6e, 0x67];
        let bmp: [u8; 4] = [0x2e, 0x62, 0x6d, 0x70];
        let jpg: [u8; 4] = [0x2e, 0x6a, 0x70, 0x67];
        let jpeg: [u8; 5] = [0x2e, 0x6a, 0x70, 0x65, 0x67];
        let exr: [u8; 4] = [0x2e, 0x65, 0x78, 0x72];
        assert(png@ =~= png_suffix());
        assert(bmp@ =~= bmp_suffix());
        assert(jpg@ =~= jpg_suffix());
        assert(jpeg@ =~= jpeg_suffix());
        assert(exr@ =~= exr_suffix());
        if ends_with(path, png.as_slice()) {
            ImageFormat::Png
        } else if ends_with(path, bmp.as_slice()) {
            ImageFormat::Bmp
        } else if ends_with(path, jpg.as_slice()) || ends_with(path, jpeg.as_slice()) {
            ImageFormat::Jpeg
        } else if ends_with(path, exr.as_slice()) {
            ImageFormat::Exr
        } else {
            ImageFormat::Unknown
        }
    }

    /// Detects the format from the extension of a path: `.png`, `.bmp`,
    /// `.jpg` or `.jpeg`, `.exr`, in any case of the letters. The path is
    /// read as its UTF-8 bytes.
    pub fn from_extension(path: &str) -> (format: ImageFormat)
        ensures
            format == format_of_extension(path.spec_bytes()),
    {
        ImageFormat::from_extension_bytes(path.as_bytes())
    }

    /// The format of a file: by its leading bytes, and by the extension of
    /// its path only where the bytes announce no format.
    pub fn resolve(data: &[u8], path: &str) -> (format: ImageFormat)
        ensures
            format == resolved_format(data@, path.spec_bytes()),
    {
        match ImageFormat::detect_from_bytes(data) {
            ImageFormat::Unknown => ImageFormat::from_extension(path),
            format => format,
        }
    }

    /// The usual file extension of the format, without the dot; empty for
    /// the unknown format.
    pub fn extension(&self) -> (text: &'static str)
        ensures
            text@ == (match *self {
                ImageFormat::Png => "png"@,
                ImageFormat::Bmp => "bmp"@,
                ImageFormat::Jpeg => "jpg"@,
                ImageFormat::Exr => "exr"@,
                ImageFormat::Unknown => ""@,
            }),
    {
        match self {
            ImageFormat::Png => "png",
            ImageFormat::Bmp => "bmp",
            ImageFormat::Jpeg => "jpg",
            ImageFormat::Exr => "exr",
            ImageFormat::Unknown => "",
        }
    }
}

/// A buffer of at least eight bytes that begins with a format's signature is
/// detected as that format, whatever follows the signature; a shorter buffer
/// is detected as none.
pub proof fn lemma_detection(data: Seq<u8>)
    ensures
        data.len() < 8 ==> detected_format(data) == ImageFormat::Unknown,
        data.len() >= 8 && has_prefix(data, png_signature()) ==> detected_format(data)
            == ImageFormat::Png,
        data.len() >= 8 && has_prefix(data, bmp_signature()) ==> detected_format(data)
            == ImageFormat::Bmp,
        data.len() >= 8 && has_prefix(data, jpeg_signature()) ==> detected_format(data)
            == ImageFormat::Jpeg,
        data.len() >= 8 && has_prefix(data, exr_signature()) ==> detected_format(data)
            == ImageFormat::Exr,
{
    if data.len() >= 8 {
        let first = data.subrange(0, 8)[0];
        assert(first == data[0]);
        assert(data.subrange(0, 2)[0] == data[0]);
        assert(data.subrange(0, 4)[0] == data[0]);
        assert(png_signature()[0] == 0x89);
        assert(bmp_signature()[0] == 0x42);
        assert(jpeg_signature()[0] == 0xff);
        assert(exr_signature()[0] == 0x76);
    }
}

/// A path that ends with an extension, in any case of its letters, is
/// given the extension's format, whatever stands before the extension.
pub proof fn lemma_extension(path: Seq<u8>)
    ensures
        ends_with_folded(path, png_suffix()) ==> format_of_extension(path) == ImageFormat::Png,
        ends_with_folded(path, bmp_suffix()) ==> format_of_extension(path) == ImageFormat::Bmp,
        ends_with_folded(path, jpg_suffix()) ==> format_of_extension(path) == ImageFormat::Jpeg,
        ends_with_folded(path, jpeg_suffix()) ==> format_of_extension(path) == ImageFormat::Jpeg,
        ends_with_folded(path, exr_suffix()) ==> format_of_extension(path) == ImageFormat::Exr,
{
    let n = path.len() as int;
    if n >= 4 {
        // The third byte from the end tells the four-letter extensions apart,
        // and the last byte tells them from ".jpeg".
        assert(png_suffix()[1] == 0x70 && bmp_suffix()[1] == 0x62 && jpg_suffix()[1] == 0x6a
            && exr_suffix()[1] == 0x65);
        assert(png_suffix()[3] == 0x67 && bmp_suffix()[3] == 0x70 && exr_suffix()[3] == 0x72);
        assert(fold_ascii(path[n - 4 + 1]) == fold_ascii(path[n - 3]));
        assert(fold_ascii(path[n - 4 + 3]) == fold_ascii(path[n - 1]));
        assert(png_suffix()[2] == 0x6e);
        assert(fold_ascii(path[n - 4 + 2]) == fold_ascii(path[n - 2]));
        if n >= 5 {
            assert(jpeg_suffix()[4] == 0x67 && jpeg_suffix()[3] == 0x65);
            assert(fold_ascii(path[n - 5 + 4]) == fold_ascii(path[n - 1]));
            assert(fold_ascii(path[n - 5 + 3]) == fold_ascii(path[n - 2]));
        }
    }
}

/// The extension decides only where the leading bytes announce no format.
pub proof fn lemma_signature_first(data: Seq<u8>, path: Seq<u8>)
    ensures
        detected_format(data) != ImageFormat::Unknown ==> resolved_format(data, path)
            == detected_format(data),
        detected_format(data) == ImageFormat::Unknown ==> resolved_format(data, path)
            == format_of_extension(path),
{
}

} // verus!
