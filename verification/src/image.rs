use crate::component_type::ComponentType;
use crate::pixel_format::{lemma_swapped_layout, PixelFormat};
use vstd::prelude::*;

verus! {

/// What an [`Image`] is, as a mathematical value.
pub ghost struct ImageView {
    pub width: nat,
    pub height: nat,
    pub pixel_format: PixelFormat,
    pub component_type: ComponentType,
    pub data: Seq<u8>,
}

/// Number of bytes that an image of the given shape occupies.
pub open spec fn buffer_len(
    width: nat,
    height: nat,
    pixel_format: PixelFormat,
    component_type: ComponentType,
) -> nat {
    width * height * pixel_format.channels() * component_type.byte_width()
}

/// The bytes of `data` with positions 0 and 2 exchanged inside every complete
/// group of `group` bytes; bytes of a trailing incomplete group stay.
pub open spec fn swap_first_third(data: Seq<u8>, group: int) -> Seq<u8> {
    Seq::new(
        data.len(),
        |i: int|
            if group >= 3 && i - i % group + group <= data.len() {
                if i % group == 0 {
                    data[i + 2]
                } else if i % group == 2 {
                    data[i - 2]
                } else {
                    data[i]
                }
            } else {
                data[i]
            },
    )
}

impl ImageView {
    /// The size invariant: the buffer is exactly as long as the shape asks,
    /// and sides and length are within the machine's ranges.
    pub open spec fn wf(self) -> bool {
        &&& self.width <= u32::MAX
        &&& self.height <= u32::MAX
        &&& self.data.len() <= usize::MAX
        &&& self.data.len() == buffer_len(
            self.width,
            self.height,
            self.pixel_format,
            self.component_type,
        )
    }

    /// The image with red and blue exchanged: the layout becomes its
    /// counterpart and bytes 0 and 2 of every group of `channels` bytes change
    /// places. Layouts without red and blue are left as they are.
    pub open spec fn swap_blue_red(self) -> ImageView {
        if self.pixel_format.red_first() || self.pixel_format.blue_first() {
            ImageView {
                pixel_format: self.pixel_format.swapped(),
                data: swap_first_third(self.data, self.pixel_format.channels() as int),
                ..self
            }
        } else {
            self
        }
    }
}

/// Raster pixel data in the canonical in-memory layout.
///
/// The buffer is interleaved, row-major, top row first; its length is
/// `width * height * channels * byte width`.
#[derive(Debug)]
pub struct Image {
    data: Vec<u8>,
    width: u32,
    height: u32,
    pixel_format: PixelFormat,
    component_type: ComponentType,
}

impl View for Image {
    type V = ImageView;

    closed spec fn view(&self) -> ImageView {
        ImageView {
            width: self.width as nat,
            height: self.height as nat,
            pixel_format: self.pixel_format,
            component_type: self.component_type,
            data: self.data@,
        }
    }
}

impl Clone for Image {
    /// A copy with a buffer of its own.
    fn clone(&self) -> (copy: Image)
        ensures
            copy@ == self@,
    {
        let data = self.data.clone();
        assert(data@ =~= self.data@);
        Image {
            data,
            width: self.width,
            height: self.height,
            pixel_format: self.pixel_format,
            component_type: self.component_type,
        }
    }
}

/// The buffer length of an image of the given shape, or `None` where it
/// does not fit the machine's address range.
pub fn required_len(
    width: u32,
    height: u32,
    pixel_format: PixelFormat,
    component_type: ComponentType,
) -> (len: Option<usize>)
    ensures
        len matches Some(n) ==> n == buffer_len(
            width as nat,
            height as nat,
            pixel_format,
            component_type,
        ),
        len is None <==> buffer_len(width as nat, height as nat, pixel_format, component_type)
            > usize::MAX,
{
    let per_pixel: u64 = (pixel_format.channel_count() * component_type.size_bytes()) as u64;
    assert(width as nat * height as nat <= 0xffff_ffff * 0xffff_ffff) by (nonlinear_arith)
        requires
            width <= 0xffff_ffff,
            height <= 0xffff_ffff,
    ;
    let pixels: u64 = (width as u64) * (height as u64);
    assert(buffer_len(width as nat, height as nat, pixel_format, component_type) == pixels
        * per_pixel) by (nonlinear_arith)
        requires
            pixels == width as nat * height as nat,
            per_pixel == pixel_format.channels() * component_type.byte_width(),
    ;
    match pixels.checked_mul(per_pixel) {
        None => None,
        Some(total) => if total > usize::MAX as u64 {
            None
        } else {
            Some(total as usize)
        },
    }
}

impl Image {
    /// The size invariant of the image; every image that this crate builds
    /// satisfies it.
    pub open spec fn wf(&self) -> bool {
        self@.wf()
    }

    /// A zero-filled image of the given shape.
    pub fn new(
        width: u32,
        height: u32,
        pixel_format: PixelFormat,
        component_type: ComponentType,
    ) -> (image: Image)
        requires
            buffer_len(width as nat, height as nat, pixel_format, component_type) <= usize::MAX,
        ensures
            image.wf(),
            image@.width == width,
            image@.height == height,
            image@.pixel_format == pixel_format,
            image@.component_type == component_type,
            forall|i: int| 0 <= i < image@.data.len() ==> image@.data[i] == 0,
    {
        let total = match required_len(width, height, pixel_format, component_type) {
            Some(n) => n,
            None => 0,
        };
        let mut data: Vec<u8> = Vec::new();
        data.resize(total, 0u8);
        Image { data, width, height, pixel_format, component_type }
    }

    /// An image over the given bytes. The caller answers for the size
    /// invariant; [`Image::try_from_raw`] checks it instead.
    pub fn from_raw(
        data: Vec<u8>,
        width: u32,
        height: u32,
        pixel_format: PixelFormat,
        component_type: ComponentType,
    ) -> (image: Image)
        requires
            data@.len() == buffer_len(width as nat, height as nat, pixel_format, component_type),
        ensures
            image.wf(),
            image@ == (ImageView {
                width: width as nat,
                height: height as nat,
                pixel_format,
                component_type,
                data: data@,
            }),
    {
        let _ = data.len();
        Image { data, width, height, pixel_format, component_type }
    }

    /// An image over the given bytes, or `None` where their number is not
    /// what the shape asks for.
    pub fn try_from_raw(
        data: Vec<u8>,
        width: u32,
        height: u32,
        pixel_format: PixelFormat,
        component_type: ComponentType,
    ) -> (image: Option<Image>)
        ensures
            image is Some <==> data@.len() == buffer_len(
                width as nat,
                height as nat,
                pixel_format,
                component_type,
            ),
            image matches Some(img) ==> img.wf() && img@ == (ImageView {
                width: width as nat,
                height: height as nat,
                pixel_format,
                component_type,
                data: data@,
            }),
    {
        let len = data.len();
        match required_len(width, height, pixel_format, component_type) {
            Some(n) => if len == n {
                Some(Image { data, width, height, pixel_format, component_type })
            } else {
                None
            },
            None => None,
        }
    }

    /// Image width in pixels.
    pub fn width(&self) -> (w: u32)
        ensures
            w == self@.width,
    {
        self.width
    }

    /// Image height in pixels.
    pub fn height(&self) -> (h: u32)
        ensures
            h == self@.height,
    {
        self.height
    }

    /// Channel layout.
    pub fn pixel_format(&self) -> (format: PixelFormat)
        ensures
            format == self@.pixel_format,
    {
        self.pixel_format
    }

    /// Storage kind of the samples.
    pub fn component_type(&self) -> (kind: ComponentType)
        ensures
            kind == self@.component_type,
    {
        self.component_type
    }

    /// The pixel bytes.
    pub fn data(&self) -> (bytes: &[u8])
        ensures
            bytes@ == self@.data,
    {
        self.data.as_slice()
    }

    /// The pixel bytes, for writing in place. The shape stays; only the
    /// contents of the buffer can change.
    pub fn data_mut(&mut self) -> (bytes: &mut [u8])
        ensures
            bytes@ == old(self)@.data,
            final(self)@ == (ImageView { data: final(bytes)@, ..old(self)@ }),
    {
        self.data.as_mut_slice()
    }

    /// The pixel bytes, by value.
    pub fn into_data(self) -> (bytes: Vec<u8>)
        ensures
            bytes@ == self@.data,
    {
        self.data
    }

    /// Bytes per pixel: channels times sample width.
    pub fn bytes_per_pixel(&self) -> (n: usize)
        ensures
            n == self@.pixel_format.channels() * self@.component_type.byte_width(),
    {
        self.pixel_format.channel_count() * self.component_type.size_bytes()
    }

    /// Total size of the buffer in bytes.
    pub fn size_bytes(&self) -> (n: usize)
        ensures
            n == self@.data.len(),
    {
        self.data.len()
    }

    /// Exchanges red and blue in place. Layouts without red and blue are left
    /// untouched.
    pub fn swap_blue_red(&mut self)
        ensures
            final(self)@ == old(self)@.swap_blue_red(),
            old(self).wf() ==> final(self).wf(),
    {
        let group: usize = match self.pixel_format {
            PixelFormat::RGB | PixelFormat::BGR => 3,
            PixelFormat::RGBA | PixelFormat::BGRA => 4,
            _ => { return ; },
        };
        let n = self.data.len();
        let ghost before = self.data@;
        let mut i: usize = 0;
        while n - i >= group
            invariant
                group == 3 || group == 4,
                n == before.len(),
                self.data@.len() == n,
                i <= n,
                i % group == 0,
                forall|j: int| 0 <= j < i ==> self.data@[j] == swap_first_third(before, group as int)[j],
                forall|j: int| i <= j < n ==> self.data@[j] == before[j],
                self.width == old(self).width,
                self.height == old(self).height,
                self.pixel_format == old(self).pixel_format,
                self.component_type == old(self).component_type,
            decreases n - i,
        {
            let first = self.data[i];
            let third = self.data[i + 2];
            self.data.set(i, third);
            self.data.set(i + 2, first);
            proof {
                let g = group as int;
                assert forall|j: int| i <= j < i + g implies self.data@[j] == swap_first_third(
                    before,
                    g,
                )[j] by {
                    lemma_group_index(i as int, j, g);
                }
                lemma_next_group(i as int, g);
            }
            i = i + group;
        }
        proof {
            let g = group as int;
            assert forall|j: int| i <= j < n implies self.data@[j] == swap_first_third(before, g)[j] by {
                lemma_tail_index(i as int, j, g, n as int);
            }
            assert(self.data@ =~= swap_first_third(before, g));
        }
        self.pixel_format = match self.pixel_format {
            PixelFormat::RGB => PixelFormat::BGR,
            PixelFormat::BGR => PixelFormat::RGB,
            PixelFormat::RGBA => PixelFormat::BGRA,
            _ => PixelFormat::RGBA,
        };
    }

    /// Turns a blue-first image (BGR, BGRA) into its red-first counterpart in
    /// place; any other image is left untouched.
    pub fn bgr_to_rgb(&mut self)
        ensures
            final(self)@ == (if old(self)@.pixel_format.blue_first() {
                old(self)@.swap_blue_red()
            } else {
                old(self)@
            }),
            old(self).wf() ==> final(self).wf(),
    {
        match self.pixel_format {
            PixelFormat::BGR | PixelFormat::BGRA => self.swap_blue_red(),
            _ => {},
        }
    }

    /// Turns a red-first image (RGB, RGBA) into its blue-first counterpart in
    /// place; any other image is left untouched.
    pub fn rgb_to_bgr(&mut self)
        ensures
            final(self)@ == (if old(self)@.pixel_format.red_first() {
                old(self)@.swap_blue_red()
            } else {
                old(self)@
            }),
            old(self).wf() ==> final(self).wf(),
    {
        match self.pixel_format {
            PixelFormat::RGB | PixelFormat::RGBA => self.swap_blue_red(),
            _ => {},
        }
    }
}

/// An index inside the group that starts at the multiple `start` of `g` has
/// `start` as its group's first index.
proof fn lemma_group_index(start: int, j: int, g: int)
    requires
        g == 3 || g == 4,
        start >= 0,
        start % g == 0,
        start <= j < start + g,
    ensures
        j % g == j - start,
        j - j % g == start,
{
    if g == 3 {
        assert(j % 3 == j - start);
    } else {
        assert(j % 4 == j - start);
    }
}

/// The index after a group that starts at a multiple of `g` is a multiple.
proof fn lemma_next_group(start: int, g: int)
    requires
        g == 3 || g == 4,
        start >= 0,
        start % g == 0,
    ensures
        (start + g) % g == 0,
{
    if g == 3 {
        assert((start + 3) % 3 == 0);
    } else {
        assert((start + 4) % 4 == 0);
    }
}

/// An index behind the last complete group lies in an incomplete one.
proof fn lemma_tail_index(start: int, j: int, g: int, n: int)
    requires
        g == 3 || g == 4,
        start >= 0,
        start % g == 0,
        start <= j < n,
        n - start < g,
    ensures
        j - j % g + g > n,
{
    lemma_group_index(start, j, g);
}

/// Exchanging red and blue twice gives the image back: the layout and every
/// byte of the buffer are as before.
pub proof fn lemma_swap_blue_red_twice(image: ImageView)
    ensures
        image.swap_blue_red().swap_blue_red() == image,
{
    let once = image.swap_blue_red();
    if image.pixel_format.red_first() || image.pixel_format.blue_first() {
        let g = image.pixel_format.channels() as int;
        let twice = swap_first_third(once.data, g);
        assert(once.data.len() == image.data.len());
        assert forall|i: int| 0 <= i < image.data.len() implies twice[i] == image.data[i] by {
            lemma_swap_partner(i, g);
        }
        assert(twice =~= image.data);
    }
}

/// Inside one group, the partner of position 0 is position 2 and the other
/// way round; both lie in the same group.
proof fn lemma_swap_partner(i: int, g: int)
    requires
        g == 3 || g == 4,
        i >= 0,
    ensures
        i % g == 0 ==> (i + 2) % g == 2 && (i + 2) - (i + 2) % g == i - i % g,
        i % g == 2 ==> (i - 2) % g == 0 && (i - 2) - (i - 2) % g == i - i % g,
{
    if g == 3 {
        assert(i % 3 == 0 ==> (i + 2) % 3 == 2);
        assert(i % 3 == 2 ==> (i - 2) % 3 == 0);
    } else {
        assert(i % 4 == 0 ==> (i + 2) % 4 == 2);
        assert(i % 4 == 2 ==> (i - 2) % 4 == 0);
    }
}

/// The size invariant, in full: an image that has it holds one byte for
/// every byte of every sample of every channel of every pixel, no more and
/// no fewer. Every constructor of [`Image`] gives an image that has it
/// ([`Image::from_raw`] takes the matching length from its caller as a
/// precondition, [`Image::try_from_raw`] gives no image where the length
/// differs) and every operation keeps it.
pub proof fn lemma_size_invariant(image: Image)
    requires
        image.wf(),
    ensures
        image@.data.len() == image@.width * image@.height * image@.pixel_format.channels()
            * image@.component_type.byte_width(),
        image@.width <= u32::MAX,
        image@.height <= u32::MAX,
        image@.data.len() <= usize::MAX,
{
}

/// Exchanging red and blue keeps the size invariant: the shape is the same
/// and so is the length of the buffer.
pub proof fn lemma_swap_blue_red_keeps_size(image: ImageView)
    requires
        image.wf(),
    ensures
        image.swap_blue_red().wf(),
        image.swap_blue_red().data.len() == image.data.len(),
        image.swap_blue_red().width == image.width,
        image.swap_blue_red().height == image.height,
        image.swap_blue_red().component_type == image.component_type,
{
    lemma_swapped_layout(image.pixel_format);
}

} // verus!
