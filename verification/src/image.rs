//! The captured image: an owned byte buffer and the numbers that say how to read it.

use vstd::prelude::*;

verus! {

/// What a capture hands back: the image, or a fixed sentence naming the step that failed.
pub type ScreenResult = Result<Screenshot, &'static str>;

/// One picture element, channel by channel.
#[derive(Clone, Copy)]
pub struct Pixel {
    pub a: u8,
    pub r: u8,
    pub g: u8,
    pub b: u8,
}

/// The numbers that describe a buffer of pixels: its size in pixels, the bytes from the
/// start of one scanline to the start of the next, and the bytes of one pixel.
#[derive(Clone, Copy)]
pub struct Layout {
    pub width: usize,
    pub height: usize,
    pub row_len: usize,
    pub pixel_width: usize,
}

impl Layout {
    /// The bytes that `width` x `height` pixels of `pixel_width` bytes take.
    pub open spec fn pixels_len(self) -> int {
        self.width * self.height * self.pixel_width
    }

    /// The bytes that `height` scanlines of `row_len` bytes take.
    pub open spec fn rows_len(self) -> int {
        self.row_len * self.height
    }

    /// A scanline is long enough for `width` pixels.
    pub open spec fn spec_rows_hold_pixels(&self) -> bool {
        self.row_len >= self.width * self.pixel_width
    }

    /// The image that reads `data` under this layout.
    pub open spec fn holding(self, data: Seq<u8>) -> ScreenshotView {
        ScreenshotView {
            data,
            height: self.height as nat,
            width: self.width as nat,
            row_len: self.row_len as nat,
            pixel_width: self.pixel_width as nat,
        }
    }

    /// `pixels_len`, where a `usize` can hold it.
    pub fn checked_pixels_len(&self) -> (n: Option<usize>)
        ensures
            self.pixels_len() <= usize::MAX ==> n == Some(self.pixels_len() as usize),
            self.pixels_len() > usize::MAX ==> n is None,
    {
        if self.width == 0 || self.height == 0 || self.pixel_width == 0 {
            assert(self.pixels_len() == 0) by (nonlinear_arith)
                requires
                    self.width == 0 || self.height == 0 || self.pixel_width == 0,
                    self.pixels_len() == self.width * self.height * self.pixel_width,
            ;
            return Some(0);
        }
        match self.width.checked_mul(self.height) {
            None => {
                assert(self.pixels_len() > usize::MAX) by (nonlinear_arith)
                    requires
                        self.width * self.height > usize::MAX,
                        self.pixel_width >= 1,
                        self.pixels_len() == self.width * self.height * self.pixel_width,
                ;
                None
            },
            Some(area) => area.checked_mul(self.pixel_width),
        }
    }

    /// `rows_len`, where a `usize` can hold it.
    pub fn checked_rows_len(&self) -> (n: Option<usize>)
        ensures
            self.rows_len() <= usize::MAX ==> n == Some(self.rows_len() as usize),
            self.rows_len() > usize::MAX ==> n is None,
    {
        self.row_len.checked_mul(self.height)
    }

    /// Whether a scanline is long enough for `width` pixels.
    #[verifier::when_used_as_spec(spec_rows_hold_pixels)]
    pub fn rows_hold_pixels(&self) -> (b: bool)
        ensures
            b == self.spec_rows_hold_pixels(),
    {
        match self.width.checked_mul(self.pixel_width) {
            Some(needed) => needed <= self.row_len,
            None => false,
        }
    }
}

/// A screenshot as a mathematical value.
pub struct ScreenshotView {
    pub data: Seq<u8>,
    pub height: nat,
    pub width: nat,
    pub row_len: nat,
    pub pixel_width: nat,
}

impl ScreenshotView {
    /// Where the pixel at (`row`, `col`) starts in the buffer.
    pub open spec fn offset(self, row: nat, col: nat) -> int {
        (row * self.row_len + col * self.pixel_width) as int
    }

    /// The buffer holds the whole pixel at (`row`, `col`): its `pixel_width` bytes, and the
    /// four bytes that are read as its channels.
    pub open spec fn has_pixel(self, row: nat, col: nat) -> bool {
        &&& self.offset(row, col) + self.pixel_width <= self.data.len()
        &&& self.offset(row, col) + 4 <= self.data.len()
    }

    /// The pixel at (`row`, `col`): blue, green, red and alpha lie in that order from its
    /// offset upwards.
    pub open spec fn pixel(self, row: nat, col: nat) -> Pixel {
        let at = self.offset(row, col);
        Pixel { a: self.data[at + 3], r: self.data[at + 2], g: self.data[at + 1], b: self.data[at] }
    }

    /// A scanline is long enough for `width` pixels.
    pub open spec fn rows_hold_pixels(self) -> bool {
        self.row_len >= self.width * self.pixel_width
    }

    /// The buffer is `height` scanlines of `row_len` bytes.
    pub open spec fn rows_fill_buffer(self) -> bool {
        self.data.len() == self.row_len * self.height
    }

    /// The buffer is the `width * height` pixels and nothing else.
    pub open spec fn pixels_fill_buffer(self) -> bool {
        self.data.len() == self.width * self.height * self.pixel_width
    }

    /// What every capture yields: scanlines long enough for the pixels, in a buffer that is
    /// all the scanlines or, where the length of the data was held against the size in
    /// pixels, all the pixels.
    pub open spec fn valid(self) -> bool {
        self.rows_hold_pixels() && (self.rows_fill_buffer() || self.pixels_fill_buffer())
    }

    /// Width, height, scanline length and pixel width.
    pub open spec fn layout(self) -> (nat, nat, nat, nat) {
        (self.width, self.height, self.row_len, self.pixel_width)
    }
}

/// An image buffer containing the screenshot. Pixels are stored as four bytes each, blue
/// first and alpha last.
pub struct Screenshot {
    data: Vec<u8>,
    height: usize,
    width: usize,
    row_len: usize,
    pixel_width: usize,
}

impl View for Screenshot {
    type V = ScreenshotView;

    closed spec fn view(&self) -> ScreenshotView {
        ScreenshotView {
            data: self.data@,
            height: self.height as nat,
            width: self.width as nat,
            row_len: self.row_len as nat,
            pixel_width: self.pixel_width as nat,
        }
    }
}

impl Screenshot {
    /// Wraps a buffer that is as long as `layout` says.
    pub(crate) fn new(layout: Layout, data: Vec<u8>) -> (img: Screenshot)
        requires
            layout.holding(data@).valid(),
        ensures
            img@ == layout.holding(data@),
    {
        Screenshot {
            data,
            height: layout.height,
            width: layout.width,
            row_len: layout.row_len,
            pixel_width: layout.pixel_width,
        }
    }

    /// Height of image in pixels.
    pub fn height(&self) -> (h: usize)
        ensures
            h == self@.height,
    {
        self.height
    }

    /// Width of image in pixels.
    pub fn width(&self) -> (w: usize)
        ensures
            w == self@.width,
    {
        self.width
    }

    /// Number of bytes in one row of bitmap.
    pub fn row_len(&self) -> (n: usize)
        ensures
            n == self@.row_len,
    {
        self.row_len
    }

    /// Width of pixel in bytes.
    pub fn pixel_width(&self) -> (n: usize)
        ensures
            n == self@.pixel_width,
    {
        self.pixel_width
    }

    /// Raw bitmap.
    pub fn raw_data(&self) -> (bytes: &[u8])
        ensures
            bytes@ == self@.data,
    {
        self.data.as_slice()
    }

    /// Raw bitmap, for work on the bytes in place. Whatever the caller writes through the
    /// slice is the image's data afterwards; the layout stays.
    pub fn raw_data_mut(&mut self) -> (bytes: &mut [u8])
        ensures
            bytes@ == old(self)@.data,
            final(self)@.data == final(bytes)@,
            final(self)@.layout() == old(self)@.layout(),
    {
        self.data.as_mut_slice()
    }

    /// Number of bytes in bitmap
    pub fn raw_len(&self) -> (n: usize)
        ensures
            n == self@.data.len(),
    {
        self.data.len()
    }

    /// Whether the buffer holds the whole pixel at (row, col).
    pub fn has_pixel(&self, row: usize, col: usize) -> (b: bool)
        ensures
            b == self@.has_pixel(row as nat, col as nat),
    {
        let len: usize = self.data.len();
        proof {
            lemma_products_nonnegative(row as int, self.row_len as int);
            lemma_products_nonnegative(col as int, self.pixel_width as int);
        }
        let down: usize = match row.checked_mul(self.row_len) {
            Some(n) => n,
            None => { return false; },
        };
        let across: usize = match col.checked_mul(self.pixel_width) {
            Some(n) => n,
            None => { return false; },
        };
        let at: usize = match down.checked_add(across) {
            Some(n) => n,
            None => { return false; },
        };
        at <= len && self.pixel_width <= len - at && 4 <= len - at
    }

    /// Gets pixel at (row, col)
    pub fn get_pixel(&self, row: usize, col: usize) -> (p: Pixel)
        requires
            self@.has_pixel(row as nat, col as nat),
        ensures
            p == self@.pixel(row as nat, col as nat),
    {
        let len: usize = self.data.len();
        proof {
            lemma_products_nonnegative(row as int, self.row_len as int);
            lemma_products_nonnegative(col as int, self.pixel_width as int);
            assert(row * self.row_len + col * self.pixel_width + 4 <= len);
        }
        let idx: usize = row * self.row_len + col * self.pixel_width;
        Pixel {
            a: self.data[idx + 3],
            r: self.data[idx + 2],
            g: self.data[idx + 1],
            b: self.data[idx],
        }
    }
}

impl AsRef<[u8]> for Screenshot {
    fn as_ref(&self) -> (bytes: &[u8])
        ensures
            bytes@ == self@.data,
    {
        self.data.as_slice()
    }
}

proof fn lemma_products_nonnegative(x: int, y: int)
    by (nonlinear_arith)
    requires
        0 <= x,
        0 <= y,
    ensures
        0 <= x * y,
{
}

/// A buffer that is all the pixels is also all the scanlines exactly when the scanlines
/// carry no padding, or when there is no scanline at all.
pub proof fn lemma_rows_fill_buffer(img: ScreenshotView)
    requires
        img.pixels_fill_buffer(),
        img.rows_hold_pixels(),
    ensures
        img.rows_fill_buffer() <==> (img.row_len == img.width * img.pixel_width || img.height == 0),
{
    let tight = img.width * img.pixel_width;
    assert(img.width * img.height * img.pixel_width == tight * img.height) by (nonlinear_arith)
        requires
            tight == img.width * img.pixel_width,
    ;
    if img.height > 0 && img.row_len != tight {
        assert(img.row_len * img.height != tight * img.height) by (nonlinear_arith)
            requires
                img.height > 0,
                img.row_len != tight,
        ;
    }
    if img.height == 0 {
        assert(img.row_len * img.height == 0) by (nonlinear_arith)
            requires
                img.height == 0,
        ;
    }
}

/// In an image of four-byte pixels whose scanlines fill the buffer, every pixel inside the
/// frame can be read.
pub proof fn lemma_frame_is_addressable(img: ScreenshotView, row: nat, col: nat)
    requires
        img.rows_fill_buffer(),
        img.rows_hold_pixels(),
        img.pixel_width == 4,
        row < img.height,
        col < img.width,
    ensures
        img.has_pixel(row, col),
{
    assert(col * img.pixel_width + img.pixel_width <= img.width * img.pixel_width)
        by (nonlinear_arith)
        requires
            col < img.width,
    ;
    assert(row * img.row_len + img.row_len <= img.row_len * img.height) by (nonlinear_arith)
        requires
            row < img.height,
    ;
}

} // verus!
