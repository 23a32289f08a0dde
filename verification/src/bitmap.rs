//! RGBA bitmaps backed by `image::RgbaImage`, and their mathematical model.

use vstd::prelude::*;

verus! {

/// An RGBA colour with eight bits per channel.
#[derive(Clone, Copy, Debug, PartialEq, Eq, Structural)]
pub struct Color {
    pub r: u8,
    pub g: u8,
    pub b: u8,
    pub a: u8,
}

/// The mathematical model of a bitmap: its size and the colour of each pixel,
/// keyed by `(x, y)` with `y` counted from the top row down.
pub struct Raster {
    pub width: nat,
    pub height: nat,
    pub pixels: Map<(int, int), Color>,
}

impl Raster {
    /// Whether `(x, y)` names a pixel of a raster of this size.
    pub open spec fn contains(self, x: int, y: int) -> bool {
        0 <= x < self.width && 0 <= y < self.height
    }

    /// The colour at `(x, y)`.
    pub open spec fn at(self, x: int, y: int) -> Color {
        self.pixels[(x, y)]
    }

    /// This raster with the pixel at `(x, y)` replaced by `color`.
    pub open spec fn put(self, x: int, y: int, color: Color) -> Raster {
        Raster { width: self.width, height: self.height, pixels: self.pixels.insert((x, y), color) }
    }

    /// The pixel map holds exactly the pixels inside the bounds.
    pub open spec fn wf(self) -> bool {
        forall|x: int, y: int| #[trigger] self.pixels.dom().contains((x, y)) <==> self.contains(x, y)
    }
}

/// The colour stored in four consecutive bytes of an RGBA byte buffer.
pub open spec fn color_at(data: Seq<u8>, offset: int) -> Color {
    Color { r: data[offset], g: data[offset + 1], b: data[offset + 2], a: data[offset + 3] }
}

/// The offset of pixel `(x, y)` in the row-major RGBA byte buffer of an image
/// that is `width` pixels wide.
pub open spec fn byte_offset(width: nat, x: int, y: int) -> int {
    4 * (y * width + x)
}

/// A bitmap with four 8-bit channels per pixel. The pixels live in an
/// `image::RgbaImage`; nothing of its layout is visible to proofs, which see
/// the bitmap through its view, a [`Raster`].
#[verifier::external_body]
pub struct Bitmap {
    buffer: image::RgbaImage,
}

/// Width of the underlying image buffer, in pixels.
pub uninterp spec fn bitmap_width(bitmap: Bitmap) -> nat;

/// Height of the underlying image buffer, in pixels.
pub uninterp spec fn bitmap_height(bitmap: Bitmap) -> nat;

/// The colours held by the underlying image buffer, keyed by `(x, y)`.
pub uninterp spec fn bitmap_pixels(bitmap: Bitmap) -> Map<(int, int), Color>;

impl View for Bitmap {
    type V = Raster;

    open spec fn view(&self) -> Raster {
        let width = bitmap_width(*self);
        let height = bitmap_height(*self);
        Raster {
            width,
            height,
            pixels: Map::new(
                |k: (int, int)| 0 <= k.0 < width && 0 <= k.1 < height,
                |k: (int, int)| bitmap_pixels(*self)[k],
            ),
        }
    }
}

/// Calls `ImageBuffer::from_raw`. That function accepts the buffer exactly when
/// four bytes per pixel fit in it, keeps the given width and height, and reads
/// pixel `(x, y)` from the four bytes at `4 * (y * width + x)`.
#[verifier::external_body]
fn buffer_from_raw(width: u32, height: u32, data: Vec<u8>) -> (r: Option<Bitmap>)
    ensures
        r is Some <==> 4 * width * height <= data@.len(),
        r matches Some(b) ==> {
            &&& bitmap_width(b) == width
            &&& bitmap_height(b) == height
            &&& forall|x: int, y: int|
                0 <= x < width && 0 <= y < height ==> #[trigger] bitmap_pixels(b)[(x, y)]
                    == color_at(data@, byte_offset(width as nat, x, y))
        },
{
    match image::RgbaImage::from_raw(width, height, data) {
        Some(buffer) => Some(Bitmap { buffer }),
        None => None,
    }
}

/// Calls `ImageBuffer::into_raw`, which hands back the byte buffer: at least
/// four bytes per pixel, row by row, each pixel as red, green, blue, alpha.
#[verifier::external_body]
fn buffer_into_raw(bitmap: Bitmap) -> (data: Vec<u8>)
    ensures
        4 * bitmap_width(bitmap) * bitmap_height(bitmap) <= data@.len(),
        forall|x: int, y: int|
            0 <= x < bitmap_width(bitmap) && 0 <= y < bitmap_height(bitmap) ==> color_at(
                data@,
                #[trigger] byte_offset(bitmap_width(bitmap), x, y),
            ) == bitmap_pixels(bitmap)[(x, y)],
{
    bitmap.buffer.into_raw()
}

/// Calls `ImageBuffer::width`.
#[verifier::external_body]
fn buffer_width(bitmap: &Bitmap) -> (w: u32)
    ensures
        w == bitmap_width(*bitmap),
    no_unwind
{
    bitmap.buffer.width()
}

/// Calls `ImageBuffer::height`.
#[verifier::external_body]
fn buffer_height(bitmap: &Bitmap) -> (h: u32)
    ensures
        h == bitmap_height(*bitmap),
    no_unwind
{
    bitmap.buffer.height()
}

/// Calls `ImageBuffer::get_pixel`, which panics outside the bounds and returns
/// the stored pixel inside them.
#[verifier::external_body]
fn buffer_get_pixel(bitmap: &Bitmap, x: u32, y: u32) -> (c: Color)
    requires
        x < bitmap_width(*bitmap),
        y < bitmap_height(*bitmap),
    ensures
        c == bitmap_pixels(*bitmap)[(x as int, y as int)],
    no_unwind
{
    let p = bitmap.buffer.get_pixel(x, y);
    Color { r: p.0[0], g: p.0[1], b: p.0[2], a: p.0[3] }
}

/// Calls `ImageBuffer::put_pixel`, which panics outside the bounds and inside
/// them overwrites that one pixel, leaving the size and every other pixel as
/// they were.
#[verifier::external_body]
fn buffer_put_pixel(bitmap: &mut Bitmap, x: u32, y: u32, c: Color)
    requires
        x < bitmap_width(*old(bitmap)),
        y < bitmap_height(*old(bitmap)),
    ensures
        bitmap_width(*final(bitmap)) == bitmap_width(*old(bitmap)),
        bitmap_height(*final(bitmap)) == bitmap_height(*old(bitmap)),
        bitmap_pixels(*final(bitmap)) == bitmap_pixels(*old(bitmap)).insert((x as int, y as int), c),
    no_unwind
{
    bitmap.buffer.put_pixel(x, y, image::Rgba([c.r, c.g, c.b, c.a]));
}

impl Bitmap {
    /// Builds a bitmap from a row-major RGBA byte buffer. Returns `None` when
    /// the buffer is shorter than `4 * width * height` bytes.
    pub fn from_raw(width: u32, height: u32, data: Vec<u8>) -> (r: Option<Bitmap>)
        ensures
            r is Some <==> 4 * width * height <= data@.len(),
            r matches Some(b) ==> {
                &&& b@.wf()
                &&& b@.width == width
                &&& b@.height == height
                &&& forall|x: int, y: int|
                    0 <= x < width && 0 <= y < height ==> #[trigger] b@.at(x, y) == color_at(
                        data@,
                        byte_offset(width as nat, x, y),
                    )
            },
    {
        buffer_from_raw(width, height, data)
    }

    /// Gives up the bitmap for its row-major RGBA byte buffer.
    pub fn into_raw(self) -> (data: Vec<u8>)
        ensures
            4 * self@.width * self@.height <= data@.len(),
            forall|x: int, y: int|
                0 <= x < self@.width && 0 <= y < self@.height ==> color_at(
                    data@,
                    #[trigger] byte_offset(self@.width, x, y),
                ) == self@.at(x, y),
    {
        buffer_into_raw(self)
    }

    /// Width in pixels.
    pub fn width(&self) -> (w: u32)
        ensures
            w == self@.width,
        no_unwind
    {
        buffer_width(self)
    }

    /// Height in pixels.
    pub fn height(&self) -> (h: u32)
        ensures
            h == self@.height,
        no_unwind
    {
        buffer_height(self)
    }

    /// The colour at `(x, y)`, or `None` outside the bitmap.
    pub fn pixel(&self, x: u32, y: u32) -> (r: Option<Color>)
        ensures
            r == if self@.contains(x as int, y as int) {
                Some(self@.at(x as int, y as int))
            } else {
                None
            },
    {
        if x < buffer_width(self) && y < buffer_height(self) {
            Some(buffer_get_pixel(self, x, y))
        } else {
            None
        }
    }

    /// The colour at `(x, y)`, which must lie inside the bitmap.
    pub fn get(&self, x: u32, y: u32) -> (c: Color)
        requires
            self@.contains(x as int, y as int),
        ensures
            c == self@.at(x as int, y as int),
        no_unwind
    {
        buffer_get_pixel(self, x, y)
    }

    /// Overwrites the pixel at `(x, y)`, which must lie inside the bitmap.
    pub fn put(&mut self, x: u32, y: u32, color: Color)
        requires
            old(self)@.contains(x as int, y as int),
        ensures
            final(self)@ == old(self)@.put(x as int, y as int, color),
        no_unwind
    {
        buffer_put_pixel(self, x, y, color);
        assert(self@.pixels =~= old(self)@.put(x as int, y as int, color).pixels);
    }

    /// Overwrites the pixel at `(x, y)` and returns `true`; outside the bitmap
    /// nothing changes and the result is `false`.
    pub fn set_pixel(&mut self, x: u32, y: u32, color: Color) -> (written: bool)
        ensures
            written == old(self)@.contains(x as int, y as int),
            final(self)@ == if written {
                old(self)@.put(x as int, y as int, color)
            } else {
                old(self)@
            },
    {
        if x < buffer_width(self) && y < buffer_height(self) {
            self.put(x, y, color);
            true
        } else {
            false
        }
    }
}

/// Every bitmap's view is well formed.
pub proof fn lemma_view_wf(bitmap: Bitmap)
    ensures
        bitmap@.wf(),
{
}

} // verus!
