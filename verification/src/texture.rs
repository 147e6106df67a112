use vstd::prelude::*;
use vstd::std_specs::cmp::{PartialOrdIs, PartialOrdSpec};

verus! {

/// `this` limited to the range from `lo` to `hi`: `lo` if `this < lo`,
/// else `hi` if `this > hi`, else `this`. What `<` and `>` mean is stated
/// for the types whose comparison follows its specification (the integer
/// types among them); for any type the result is one of the three values.
pub fn clamp<T: PartialOrd>(this: T, lo: T, hi: T) -> (r: T)
    ensures
        r == this || r == lo || r == hi,
        T::obeys_partial_cmp_spec() ==> r == (if this.is_lt(&lo) {
            lo
        } else if this.is_gt(&hi) {
            hi
        } else {
            this
        }),
{
    if this < lo {
        lo
    } else if this > hi {
        hi
    } else {
        this
    }
}

/// Textures read from image files.
#[derive(Clone, Copy, Debug)]
pub struct ImageTexture;

/// An image of 8-bit red, green and blue components, stored row by row
/// from the top, three bytes per pixel.
#[derive(Debug)]
pub struct Rgb8Image {
    pub width: u32,
    pub height: u32,
    pub data: Vec<u8>,
}

impl Rgb8Image {
    /// `data` holds exactly three bytes for every pixel.
    pub open spec fn wf(&self) -> bool {
        self.data@.len() == 3 * self.width * self.height
    }

    /// Where the red component of pixel `(x, y)` is stored.
    pub open spec fn offset(&self, x: int, y: int) -> int {
        3 * (y * self.width + x)
    }

    /// The components of pixel `(x, y)`: column `x`, row `y` from the top.
    pub fn pixel(&self, x: u32, y: u32) -> (r: (u8, u8, u8))
        requires
            self.wf(),
            x < self.width,
            y < self.height,
        ensures
            r == (
                self.data@[self.offset(x as int, y as int)],
                self.data@[self.offset(x as int, y as int) + 1],
                self.data@[self.offset(x as int, y as int) + 2],
            ),
    {
        proof {
            lemma_pixel_in_image(x as int, y as int, self.width as int, self.height as int);
        }
        let n: usize = self.data.len();
        assert(3 * (self.width * self.height) == n);
        let row: usize = (y as usize) * (self.width as usize);
        let i: usize = 3 * (row + (x as usize));
        (self.data[i], self.data[i + 1], self.data[i + 2])
    }
}

/// The red component of a pixel inside the image is followed by its two
/// other components, all inside the image's data.
proof fn lemma_pixel_in_image(x: int, y: int, w: int, h: int)
    requires
        0 <= x < w,
        0 <= y < h,
    ensures
        0 <= y * w,
        y * w + x < w * h,
        3 * w * h == 3 * (w * h),
{
    assert(y * w + x < w * h) by (nonlinear_arith)
        requires
            0 <= x < w,
            0 <= y < h,
    ;
    assert(0 <= y * w) by (nonlinear_arith)
        requires
            0 <= y,
            0 <= x < w,
    ;
    assert(3 * w * h == 3 * (w * h)) by (nonlinear_arith);
}

/// What the `image` crate decodes from the bytes of a file at `path`, in
/// the format named by the path's extension, converted to 8-bit RGB: the
/// width, the height and the components; `None` where the extension names
/// no format or the bytes do not decode.
pub uninterp spec fn decoded_rgb8(path: Seq<char>, bytes: Seq<u8>) -> Option<(u32, u32, Seq<u8>)>;

/// `image::ImageFormat::from_path` then `image::load_from_memory_with_format`
/// and `DynamicImage::to_rgb8` of the `image` crate: the format comes from
/// the path's extension and the bytes are decoded in it (as `image::open`
/// does after reading the file). The converted buffer is made by
/// `ImageBuffer::new`, which allocates exactly three bytes per pixel.
#[verifier::external_body]
pub(crate) fn decode_rgb8(path: &str, bytes: &[u8]) -> (r: Option<Rgb8Image>)
    ensures
        r is None <==> decoded_rgb8(path@, bytes@) is None,
        r matches Some(img) ==> decoded_rgb8(path@, bytes@) == Some(
            (img.width, img.height, img.data@),
        ),
        r matches Some(img) ==> img.wf(),
{
    let format = image::ImageFormat::from_path(path).ok()?;
    let rgb = image::load_from_memory_with_format(bytes, format).ok()?.to_rgb8();
    Some(Rgb8Image { width: rgb.width(), height: rgb.height(), data: rgb.into_raw() })
}

impl ImageTexture {
    /// The image read from the file at `path`, whose bytes are `bytes`,
    /// decoded to 8-bit RGB. Bytes that do not decode are left out: loading
    /// them is an error of the caller (`try_load` tests for it).
    pub fn load(path: &str, bytes: &[u8]) -> (r: Rgb8Image)
        requires
            decoded_rgb8(path@, bytes@) is Some,
        ensures
            decoded_rgb8(path@, bytes@) == Some((r.width, r.height, r.data@)),
            r.wf(),
    {
        decode_rgb8(path, bytes).unwrap()
    }

    /// `load` where the bytes decode, `None` where they do not.
    pub fn try_load(path: &str, bytes: &[u8]) -> (r: Option<Rgb8Image>)
        ensures
            r is None <==> decoded_rgb8(path@, bytes@) is None,
            r matches Some(img) ==> decoded_rgb8(path@, bytes@) == Some(
                (img.width, img.height, img.data@),
            ) && img.wf(),
    {
        match decode_rgb8(path, bytes) {
            Some(_) => Some(Self::load(path, bytes)),
            None => None,
        }
    }
}

} // verus!
