use vstd::prelude::*;
use image::RgbaImage;

verus! {

/// An RGBA image of the screen, held by the `image` crate.
#[verifier::external_body]
pub struct ScreenImage {
    img: RgbaImage,
}

/// The pixel bytes, four per pixel and row after row, that an image holds.
pub uninterp spec fn image_bytes(img: ScreenImage) -> Seq<u8>;

/// The width and height that an image was made with.
pub uninterp spec fn image_size(img: ScreenImage) -> (u32, u32);

/// Calls `image::ImageBuffer::from_raw` for an image of 8-bit RGBA pixels.
/// The crate's source returns an image exactly when the buffer holds at
/// least four bytes for each of the `width * height` pixels (the product
/// taken without overflow), and keeps the buffer and the size as they were
/// given.
#[verifier::external_body]
fn rgba_image_from_raw(width: u32, height: u32, buf: Vec<u8>) -> (img: Option<ScreenImage>)
    ensures
        img is Some <==> 4 * width * height <= buf@.len(),
        img matches Some(i) ==> image_bytes(i) == buf@ && image_size(i) == (width, height),
{
    RgbaImage::from_raw(width, height, buf).map(|img| ScreenImage { img })
}

/// Position in the RGBA output of channel `c` of the pixel in row `y` and
/// column `x` of an image `width` pixels wide.
pub open spec fn pixel_index(width: int, y: int, x: int, c: int) -> int {
    4 * (y * width + x) + c
}

/// Position in the captured rows of byte `c` of the pixel in row `y` and
/// column `x`, with rows `stride` bytes apart.
pub open spec fn source_index(stride: int, y: int, x: int, c: int) -> int {
    y * stride + 4 * x + c
}

/// Channel `c` (red, green, blue, alpha) of the pixel in row `y` and column
/// `x`, taken from captured blue-green-red-unused pixels; alpha is opaque.
pub open spec fn rgba_byte(bgra: Seq<u8>, stride: int, y: int, x: int, c: int) -> u8 {
    if c == 3 {
        255
    } else {
        bgra[source_index(stride, y, x, 2 - c)]
    }
}

/// `rgba` holds, row after row, the `width` by `height` pixels of the
/// capture `bgra` as red, green, blue and opaque alpha.
pub open spec fn is_rgba_of(rgba: Seq<u8>, bgra: Seq<u8>, width: int, height: int, stride: int) -> bool {
    &&& rgba.len() == 4 * width * height
    &&& forall|y: int, x: int, c: int|
        0 <= y < height && 0 <= x < width && 0 <= c < 4 ==> #[trigger] rgba[pixel_index(
            width,
            y,
            x,
            c,
        )] == rgba_byte(bgra, stride, y, x, c)
}

/// In a converted image, each pixel in range is the captured pixel's red,
/// green and blue bytes (the capture stores them as blue, green, red) with
/// an alpha of 255, whatever the capture's fourth byte holds.
pub proof fn lemma_rgba_pixel(
    rgba: Seq<u8>,
    bgra: Seq<u8>,
    width: int,
    height: int,
    stride: int,
    y: int,
    x: int,
)
    requires
        is_rgba_of(rgba, bgra, width, height, stride),
        0 <= y < height,
        0 <= x < width,
    ensures
        rgba[4 * (y * width + x)] == bgra[y * stride + 4 * x + 2],
        rgba[4 * (y * width + x) + 1] == bgra[y * stride + 4 * x + 1],
        rgba[4 * (y * width + x) + 2] == bgra[y * stride + 4 * x],
        rgba[4 * (y * width + x) + 3] == 255,
        rgba.len() == 4 * width * height,
{
    assert(rgba[pixel_index(width, y, x, 0)] == rgba_byte(bgra, stride, y, x, 0));
    assert(rgba[pixel_index(width, y, x, 1)] == rgba_byte(bgra, stride, y, x, 1));
    assert(rgba[pixel_index(width, y, x, 2)] == rgba_byte(bgra, stride, y, x, 2));
    assert(rgba[pixel_index(width, y, x, 3)] == rgba_byte(bgra, stride, y, x, 3));
}

proof fn lemma_row_bound(y: int, height: int, stride: int)
    by (nonlinear_arith)
    requires
        0 <= y < height,
        0 <= stride,
    ensures
        y * stride + stride <= height * stride,
        0 <= y * stride,
        height * stride == stride * height,
{
}

proof fn lemma_linear_index_unique(yy: int, xx: int, y: int, x: int, width: int)
    by (nonlinear_arith)
    requires
        0 <= xx < width,
        0 <= x < width,
        0 <= yy,
        0 <= y,
        yy * width + xx == y * width + x,
    ensures
        yy == y,
        xx == x,
{
    if yy < y {
        assert(yy * width + width <= y * width);
    } else if yy > y {
        assert(y * width + width <= yy * width);
    }
}

proof fn lemma_linear_index_bound(y: int, x: int, width: int, height: int)
    by (nonlinear_arith)
    requires
        0 <= y < height,
        0 <= x < width,
    ensures
        y * width + x < height * width,
        0 <= y * width + x,
{
    assert(y * width + width <= height * width);
}

proof fn lemma_next_row(y: int, width: int)
    by (nonlinear_arith)
    ensures
        y * width + width == (y + 1) * width,
{
}

/// Rebuilds captured pixels, rows `stride` bytes apart with four bytes
/// (blue, green, red, unused) per pixel, as tightly packed red, green, blue
/// and opaque alpha bytes, row after row.
pub fn bgra_to_rgba(pixels: &Vec<u8>, width: u32, height: u32, stride: u32) -> (rgba: Vec<u8>)
    requires
        4 * width <= stride,
        stride * height <= pixels@.len(),
        4 * width * height <= u32::MAX,
    ensures
        is_rgba_of(rgba@, pixels@, width as int, height as int, stride as int),
{
    let ghost w = width as int;
    let ghost s = stride as int;
    assert(width * height * 4 <= u32::MAX) by (nonlinear_arith)
        requires
            4 * width * height <= u32::MAX,
    ;
    let mut out: Vec<u8> = Vec::with_capacity((width * height * 4) as usize);
    let total = pixels.len();
    let rows = height as usize;
    let cols = width as usize;
    let step = stride as usize;
    let mut y: usize = 0;
    while y < rows
        invariant
            rows == height,
            cols == width,
            step == stride,
            w == width,
            s == stride,
            4 * width <= stride,
            stride * height <= pixels@.len(),
            total == pixels@.len(),
            y <= rows,
            out@.len() == 4 * (y * w),
            forall|yy: int, xx: int, c: int|
                0 <= yy && 0 <= xx < w && 0 <= c < 4 && yy * w + xx < y * w ==> #[trigger] out@[pixel_index(
                    w,
                    yy,
                    xx,
                    c,
                )] == rgba_byte(pixels@, s, yy, xx, c),
        decreases rows - y,
    {
        proof {
            lemma_row_bound(y as int, height as int, s);
        }
        let row_start = y * step;
        let mut x: usize = 0;
        while x < cols
            invariant
                rows == height,
                cols == width,
                step == stride,
                w == width,
                s == stride,
                4 * width <= stride,
                stride * height <= pixels@.len(),
                total == pixels@.len(),
                y < rows,
                x <= cols,
                row_start == y * s,
                out@.len() == 4 * (y * w + x),
                forall|yy: int, xx: int, c: int|
                    0 <= yy && 0 <= xx < w && 0 <= c < 4 && yy * w + xx < y * w + x
                        ==> #[trigger] out@[pixel_index(w, yy, xx, c)] == rgba_byte(
                        pixels@,
                        s,
                        yy,
                        xx,
                        c,
                    ),
            decreases cols - x,
        {
            proof {
                lemma_row_bound(y as int, height as int, s);
            }
            let offset = row_start + x * 4;
            let ghost before = out@;
            out.push(pixels[offset + 2]);
            out.push(pixels[offset + 1]);
            out.push(pixels[offset]);
            out.push(255u8);
            let ghost cur = y * w + x;
            assert forall|yy: int, xx: int, c: int|
                0 <= yy && 0 <= xx < w && 0 <= c < 4 && yy * w + xx < cur + 1
                    implies #[trigger] out@[pixel_index(w, yy, xx, c)] == rgba_byte(
                    pixels@,
                    s,
                    yy,
                    xx,
                    c,
                ) by {
                if yy * w + xx < cur {
                    assert(out@[pixel_index(w, yy, xx, c)] == before[pixel_index(w, yy, xx, c)]);
                } else {
                    lemma_linear_index_unique(yy, xx, y as int, x as int, w);
                }
            }
            x = x + 1;
        }
        proof {
            lemma_next_row(y as int, w);
        }
        y = y + 1;
    }
    assert forall|yy: int, xx: int, c: int|
        0 <= yy < height && 0 <= xx < w && 0 <= c < 4 implies #[trigger] out@[pixel_index(
        w,
        yy,
        xx,
        c,
    )] == rgba_byte(pixels@, s, yy, xx, c) by {
        lemma_linear_index_bound(yy, xx, w, height as int);
    }
    assert(4 * (height * w) == 4 * w * height) by (nonlinear_arith);
    out
}

/// The length in bytes of one row of a capture `width` pixels wide at four
/// bytes per pixel, rounded up to a multiple of four bytes.
pub fn dib_stride(width: u32) -> (stride: u32)
    requires
        4 * width + 3 <= u32::MAX,
    ensures
        stride == ((4 * width + 3) / 4) * 4,
        stride == 4 * width,
{
    ((width * 4 + 3) / 4) * 4
}

/// Turns a screen capture into an RGBA image. `lines_copied` is the number
/// of rows the capture reported; when it is zero the capture failed and
/// there is no image. Otherwise the image has the capture's size and holds
/// its pixels as red, green, blue and opaque alpha, row after row.
pub fn screenshot_image(
    pixels: &Vec<u8>,
    width: u32,
    height: u32,
    stride: u32,
    lines_copied: i32,
) -> (img: Option<ScreenImage>)
    requires
        4 * width <= stride,
        stride * height <= pixels@.len(),
        4 * width * height <= u32::MAX,
    ensures
        img is Some <==> lines_copied != 0,
        img matches Some(i) ==> image_size(i) == (width, height) && is_rgba_of(
            image_bytes(i),
            pixels@,
            width as int,
            height as int,
            stride as int,
        ),
{
    if lines_copied == 0 {
        return None;
    }
    let rgba = bgra_to_rgba(pixels, width, height, stride);
    let img = rgba_image_from_raw(width, height, rgba);
    assert(img is Some);
    img
}

} // verus!
