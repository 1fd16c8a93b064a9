use vstd::prelude::*;
use vstd::string::StringExecFns;

verus! {

/// The error of `std::io`, carried through unread.
#[verifier::external_type_specification]
#[verifier::external_body]
pub struct ExIoError(std::io::Error);

/// The PNG decoder's error, carried through unread.
#[verifier::external_type_specification]
#[verifier::external_body]
pub struct ExPngDecodingError(png::DecodingError);

/// The PNG encoder's error, carried through unread.
#[verifier::external_type_specification]
#[verifier::external_body]
pub struct ExPngEncodingError(png::EncodingError);

/// The BMP decoder's error, carried through unread.
#[verifier::external_type_specification]
#[verifier::external_body]
pub struct ExBmpError(bmp::BmpError);

/// The JPEG decoder's error, carried through unread.
#[verifier::external_type_specification]
#[verifier::external_body]
pub struct ExJpegError(jpeg_decoder::Error);

/// The OpenEXR codec's error, carried through unread.
#[verifier::external_type_specification]
#[verifier::external_body]
pub struct ExExrError(exr::error::Error);

/// What can go wrong while an image is loaded or saved.
#[derive(Debug)]
pub enum ImageError {
    /// Reading or writing the underlying stream failed.
    IoError(std::io::Error),
    /// The PNG decoder rejected the bytes.
    PngDecodingError(png::DecodingError),
    /// The PNG encoder rejected the image.
    PngEncodingError(png::EncodingError),
    /// The BMP decoder rejected the bytes.
    BmpError(bmp::BmpError),
    /// The JPEG decoder rejected the bytes.
    JpegDecodeError(jpeg_decoder::Error),
    /// The JPEG encoder rejected the image; the text is the encoder's.
    JpegEncodeError(String),
    /// The OpenEXR codec rejected the bytes or the image.
    ExrError(exr::error::Error),
    /// The file format, or a combination of format, layout and sample kind,
    /// is not supported.
    UnsupportedFormat(String),
    /// The pixel layout is not valid here.
    InvalidPixelFormat(String),
    /// The dimensions do not go with the pixel data or with the file format.
    InvalidDimensions { width: u32, height: u32 },
    /// There is no image data.
    EmptyData,
    /// Any other failure, with its message.
    Other(String),
}

/// Result of the operations of this crate.
pub type ImageResult<T> = Result<T, ImageError>;

impl From<std::io::Error> for ImageError {
    /// An I/O error becomes the variant that carries it.
    fn from(error: std::io::Error) -> (res: ImageError) {
        ImageError::IoError(error)
    }
}

impl vstd::std_specs::convert::FromSpecImpl<std::io::Error> for ImageError {
    open spec fn obeys_from_spec() -> bool {
        true
    }

    open spec fn from_spec(error: std::io::Error) -> ImageError {
        ImageError::IoError(error)
    }
}

impl From<png::DecodingError> for ImageError {
    /// A PNG decoding error becomes the variant that carries it.
    fn from(error: png::DecodingError) -> (res: ImageError) {
        ImageError::PngDecodingError(error)
    }
}

impl vstd::std_specs::convert::FromSpecImpl<png::DecodingError> for ImageError {
    open spec fn obeys_from_spec() -> bool {
        true
    }

    open spec fn from_spec(error: png::DecodingError) -> ImageError {
        ImageError::PngDecodingError(error)
    }
}

impl From<png::EncodingError> for ImageError {
    /// A PNG encoding error becomes the variant that carries it.
    fn from(error: png::EncodingError) -> (res: ImageError) {
        ImageError::PngEncodingError(error)
    }
}

impl vstd::std_specs::convert::FromSpecImpl<png::EncodingError> for ImageError {
    open spec fn obeys_from_spec() -> bool {
        true
    }

    open spec fn from_spec(error: png::EncodingError) -> ImageError {
        ImageError::PngEncodingError(error)
    }
}

impl From<bmp::BmpError> for ImageError {
    /// A BMP error becomes the variant that carries it.
    fn from(error: bmp::BmpError) -> (res: ImageError) {
        ImageError::BmpError(error)
    }
}

impl vstd::std_specs::convert::FromSpecImpl<bmp::BmpError> for ImageError {
    open spec fn obeys_from_spec() -> bool {
        true
    }

    open spec fn from_spec(error: bmp::BmpError) -> ImageError {
        ImageError::BmpError(error)
    }
}

impl From<jpeg_decoder::Error> for ImageError {
    /// A JPEG decoding error becomes the variant that carries it.
    fn from(error: jpeg_decoder::Error) -> (res: ImageError) {
        ImageError::JpegDecodeError(error)
    }
}

impl vstd::std_specs::convert::FromSpecImpl<jpeg_decoder::Error> for ImageError {
    open spec fn obeys_from_spec() -> bool {
        true
    }

    open spec fn from_spec(error: jpeg_decoder::Error) -> ImageError {
        ImageError::JpegDecodeError(error)
    }
}

impl From<exr::error::Error> for ImageError {
    /// An OpenEXR error becomes the variant that carries it.
    fn from(error: exr::error::Error) -> (res: ImageError) {
        ImageError::ExrError(error)
    }
}

impl vstd::std_specs::convert::FromSpecImpl<exr::error::Error> for ImageError {
    open spec fn obeys_from_spec() -> bool {
        true
    }

    open spec fn from_spec(error: exr::error::Error) -> ImageError {
        ImageError::ExrError(error)
    }
}

/// The character of a decimal digit.
pub open spec fn digit_char(digit: nat) -> char {
    if digit == 0 {
        '0'
    } else if digit == 1 {
        '1'
    } else if digit == 2 {
        '2'
    } else if digit == 3 {
        '3'
    } else if digit == 4 {
        '4'
    } else if digit == 5 {
        '5'
    } else if digit == 6 {
        '6'
    } else if digit == 7 {
        '7'
    } else if digit == 8 {
        '8'
    } else {
        '9'
    }
}

/// A number written in decimal, without leading zeros.
pub open spec fn decimal_text(n: nat) -> Seq<char>
    decreases n,
{
    if n < 10 {
        seq![digit_char(n)]
    } else {
        decimal_text(n / 10).push(digit_char(n % 10))
    }
}

/// The text of an error whose message is fixed or carried by the error
/// itself; `None` for the variants that carry an error of a codec or of the
/// system, whose text is theirs.
pub open spec fn own_message(error: ImageError) -> Option<Seq<char>> {
    match error {
        ImageError::JpegEncodeError(m) => Some("JPEG encode error: "@ + m@),
        ImageError::UnsupportedFormat(m) => Some("Unsupported format: "@ + m@),
        ImageError::InvalidPixelFormat(m) => Some("Invalid pixel format: "@ + m@),
        ImageError::InvalidDimensions { width, height } => Some(
            "Invalid dimensions: "@ + decimal_text(width as nat) + "x"@ + decimal_text(
                height as nat,
            ),
        ),
        ImageError::EmptyData => Some("Empty image data"@),
        ImageError::Other(m) => Some(m@),
        _ => None,
    }
}

/// What the text of an error that carries an outside error begins with.
pub open spec fn message_prefix(error: ImageError) -> Seq<char> {
    match error {
        ImageError::IoError(_) => "I/O error: "@,
        ImageError::PngDecodingError(_) => "PNG decoding error: "@,
        ImageError::PngEncodingError(_) => "PNG encoding error: "@,
        ImageError::BmpError(_) => "BMP error: "@,
        ImageError::JpegDecodeError(_) => "JPEG decode error: "@,
        ImageError::ExrError(_) => "EXR error: "@,
        _ => Seq::empty(),
    }
}

/// The display text of an I/O error. Trusted only to return: the body
/// formats the error with `{}`, and nothing is claimed of the text.
#[verifier::external_body]
fn io_text(error: &std::io::Error) -> (text: String) {
    format!("{}", error)
}

/// The debug text of a PNG decoding error. Trusted only to return: the body
/// formats the error with `{:?}`, and nothing is claimed of the text.
#[verifier::external_body]
fn png_decoding_text(error: &png::DecodingError) -> (text: String) {
    format!("{:?}", error)
}

/// The debug text of a PNG encoding error. Trusted only to return: the body
/// formats the error with `{:?}`, and nothing is claimed of the text.
#[verifier::external_body]
fn png_encoding_text(error: &png::EncodingError) -> (text: String) {
    format!("{:?}", error)
}

/// The debug text of a BMP error. Trusted only to return: the body formats
/// the error with `{:?}`, and nothing is claimed of the text.
#[verifier::external_body]
fn bmp_text(error: &bmp::BmpError) -> (text: String) {
    format!("{:?}", error)
}

/// The debug text of a JPEG decoding error. Trusted only to return: the
/// body formats the error with `{:?}`, and nothing is claimed of the text.
#[verifier::external_body]
fn jpeg_text(error: &jpeg_decoder::Error) -> (text: String) {
    format!("{:?}", error)
}

/// The debug text of an OpenEXR error. Trusted only to return: the body
/// formats the error with `{:?}`, and nothing is claimed of the text.
#[verifier::external_body]
fn exr_text(error: &exr::error::Error) -> (text: String) {
    format!("{:?}", error)
}

/// The text of one decimal digit.
fn digit_text(digit: u32) -> (text: &'static str)
    requires
        digit < 10,
    ensures
        text@ == seq![digit_char(digit as nat)],
{
    proof {
        reveal_strlit("0");
        reveal_strlit("1");
        reveal_strlit("2");
        reveal_strlit("3");
        reveal_strlit("4");
        reveal_strlit("5");
        reveal_strlit("6");
        reveal_strlit("7");
        reveal_strlit("8");
        reveal_strlit("9");
    }
    let text = if digit == 0 {
        "0"
    } else if digit == 1 {
        "1"
    } else if digit == 2 {
        "2"
    } else if digit == 3 {
        "3"
    } else if digit == 4 {
        "4"
    } else if digit == 5 {
        "5"
    } else if digit == 6 {
        "6"
    } else if digit == 7 {
        "7"
    } else if digit == 8 {
        "8"
    } else {
        "9"
    };
    assert(text@ =~= seq![digit_char(digit as nat)]);
    text
}

/// Writes a number in decimal.
pub fn decimal(n: u32) -> (text: String)
    ensures
        text@ == decimal_text(n as nat),
    decreases n,
{
    if n < 10 {
        String::from_str(digit_text(n))
    } else {
        let mut text = decimal(n / 10);
        text.append(digit_text(n % 10));
        assert(text@ =~= decimal_text(n as nat));
        text
    }
}

impl ImageError {
    /// The text that describes the error to a reader.
    ///
    /// An error of this crate's own has the text that [`own_message`] gives;
    /// one that carries an outside error has that error's text behind the
    /// words that say where it came from.
    pub fn message(&self) -> (text: String)
        ensures
            match own_message(*self) {
                Some(wanted) => text@ == wanted,
                None => text@.len() >= message_prefix(*self).len() && text@.subrange(
                    0,
                    message_prefix(*self).len() as int,
                ) == message_prefix(*self),
            },
    {
        match self {
            ImageError::IoError(error) => after("I/O error: ", io_text(error)),
            ImageError::PngDecodingError(error) => after(
                "PNG decoding error: ",
                png_decoding_text(error),
            ),
            ImageError::PngEncodingError(error) => after(
                "PNG encoding error: ",
                png_encoding_text(error),
            ),
            ImageError::BmpError(error) => after("BMP error: ", bmp_text(error)),
            ImageError::JpegDecodeError(error) => after("JPEG decode error: ", jpeg_text(error)),
            ImageError::ExrError(error) => after("EXR error: ", exr_text(error)),
            ImageError::JpegEncodeError(m) => after("JPEG encode error: ", m.clone()),
            ImageError::UnsupportedFormat(m) => after("Unsupported format: ", m.clone()),
            ImageError::InvalidPixelFormat(m) => after("Invalid pixel format: ", m.clone()),
            ImageError::InvalidDimensions { width, height } => {
                let mut text = after("Invalid dimensions: ", decimal(*width));
                text.append("x");
                text.append(decimal(*height).as_str());
                text
            },
            ImageError::EmptyData => String::from_str("Empty image data"),
            ImageError::Other(m) => m.clone(),
        }
    }
}

/// `tail` behind `head`.
fn after(head: &str, tail: String) -> (text: String)
    ensures
        text@ == head@ + tail@,
{
    let mut text = String::from_str(head);
    text.append(tail.as_str());
    text
}

} // verus!
