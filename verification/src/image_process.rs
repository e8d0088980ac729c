//! Image preprocessing: an RGBA frame of any size becomes a square,
//! letterboxed, channel-first tensor of bytes.
//!
//! The frame is reduced to three channels, scaled by one factor so that all
//! of it fits the target, centred on a black canvas and laid out channel by
//! channel. Scaling a byte to a number between zero and one is left to the
//! caller, who feeds the vision encoder.

use vstd::prelude::*;
use crate::error::FastVLMError;

verus! {

/// Side of the square the vision encoder takes.
pub const TARGET_SIZE: u32 = 1024;

/// An interleaved RGBA frame.
#[derive(Debug, Clone)]
pub struct PixelImage {
    pub width: u32,
    pub height: u32,
    pub data: Vec<u8>,
}

/// An interleaved RGB frame.
#[derive(Debug, Clone)]
pub struct RgbFrame {
    pub width: u32,
    pub height: u32,
    pub data: Vec<u8>,
}

/// A `[1, 3, height, width]` tensor of bytes: the red plane, the green
/// plane, the blue plane, each row by row.
#[derive(Debug, Clone)]
pub struct PixelTensor {
    pub height: u32,
    pub width: u32,
    pub data: Vec<u8>,
}

/// What the image processor hands to the vision encoder.
#[derive(Debug, Clone)]
pub struct FastVLMBatchFeature {
    pub pixel_values: PixelTensor,
}

/// Index of channel `c` of the pixel at column `x` of row `y`, in an
/// interleaved frame of `channels` channels and the given width.
pub open spec fn interleaved_index(x: int, y: int, c: int, width: int, channels: int) -> int {
    (y * width + x) * channels + c
}

/// Index of the pixel at column `x` of row `y` in plane `c` of a
/// channel-first tensor.
pub open spec fn planar_index(x: int, y: int, c: int, width: int, height: int) -> int {
    (c * height + y) * width + x
}

/// Row `a` with an offset below the width comes before every later row.
proof fn lemma_row_major_order(a: int, x: int, b: int, width: int)
    requires
        0 <= a < b,
        0 <= x < width,
    ensures
        0 <= a * width,
        a * width + x < b * width,
{
    assert(a * width + width <= b * width && 0 <= a * width) by (nonlinear_arith)
        requires
            0 <= a,
            a + 1 <= b,
            0 < width,
    ;
}

/// The RGB bytes of an RGBA buffer: of every four bytes the first three.
pub open spec fn without_alpha(rgba: Seq<u8>) -> Seq<u8> {
    Seq::new(((rgba.len() / 4) * 3) as nat, |k: int| rgba[(k / 3) * 4 + k % 3])
}

impl PixelImage {
    /// The buffer holds four bytes for each pixel.
    pub open spec fn wf(&self) -> bool {
        self.data@.len() == self.width * self.height * 4
    }

    /// Whether the buffer holds four bytes for each pixel.
    pub fn is_well_formed(&self) -> (ok: bool)
        ensures
            ok == self.wf(),
    {
        let len: usize = self.data.len();
        assert(self.width * self.height * 4 <= 0xFFFF_FFFF * 0xFFFF_FFFF * 4) by (nonlinear_arith)
            requires
                0 <= self.width <= 0xFFFF_FFFF,
                0 <= self.height <= 0xFFFF_FFFF,
        ;
        len as u128 == (self.width as u128) * (self.height as u128) * 4
    }

    /// Takes a raw buffer as a frame of the given size. A buffer that is too
    /// long is cut to `width * height * 4` bytes; one that is too short is
    /// refused.
    pub fn from_rgba(data: Vec<u8>, width: u32, height: u32) -> (r: Result<PixelImage, FastVLMError>)
        ensures
            data@.len() < width * height * 4 ==> r == Err::<PixelImage, FastVLMError>(
                FastVLMError::ImageShape { actual: data@.len() as usize, expected: (width * height * 4) as u128 },
            ),
            data@.len() >= width * height * 4 ==> r is Ok && r->Ok_0.wf() && r->Ok_0.width == width
                && r->Ok_0.height == height && r->Ok_0.data@ == data@.subrange(0, width * height * 4),
    {
        let mut data = data;
        let actual: usize = data.len();
        assert(width * height * 4 <= 0xFFFF_FFFF * 0xFFFF_FFFF * 4) by (nonlinear_arith)
            requires
                0 <= width <= 0xFFFF_FFFF,
                0 <= height <= 0xFFFF_FFFF,
        ;
        let expected: u128 = (width as u128) * (height as u128) * 4;
        if (actual as u128) < expected {
            return Err(FastVLMError::ImageShape { actual, expected });
        }
        data.truncate(expected as usize);
        Ok(PixelImage { width, height, data })
    }

    /// Drops the alpha channel.
    pub fn to_rgb(&self) -> (rgb: RgbFrame)
        requires
            self.wf(),
        ensures
            rgb.wf(),
            rgb.width == self.width,
            rgb.height == self.height,
            rgb.data@ == without_alpha(self.data@),
    {
        let len: usize = self.data.len();
        let pixels: usize = len / 4;
        let mut data: Vec<u8> = Vec::new();
        let mut p: usize = 0;
        while p < pixels
            invariant
                p <= pixels,
                pixels * 4 == len == self.data@.len(),
                data@.len() == p * 3,
                forall|k: int| 0 <= k < p * 3 ==> #[trigger] data@[k] == self.data@[(k / 3) * 4 + k % 3],
            decreases pixels - p,
        {
            data.push(self.data[p * 4]);
            data.push(self.data[p * 4 + 1]);
            data.push(self.data[p * 4 + 2]);
            p = p + 1;
        }
        RgbFrame { width: self.width, height: self.height, data }
    }
}

impl RgbFrame {
    /// The buffer holds three bytes for each pixel.
    pub open spec fn wf(&self) -> bool {
        self.data@.len() == self.width * self.height * 3
    }

    /// Whether the buffer holds three bytes for each pixel.
    pub fn is_well_formed(&self) -> (ok: bool)
        ensures
            ok == self.wf(),
    {
        let len: usize = self.data.len();
        assert(self.width * self.height * 3 <= 0xFFFF_FFFF * 0xFFFF_FFFF * 3) by (nonlinear_arith)
            requires
                0 <= self.width <= 0xFFFF_FFFF,
                0 <= self.height <= 0xFFFF_FFFF,
        ;
        len as u128 == (self.width as u128) * (self.height as u128) * 3
    }
}

impl PixelTensor {
    /// The buffer holds three planes of `height` rows of `width` bytes.
    pub open spec fn wf(&self) -> bool {
        self.data@.len() == 3 * self.height * self.width
    }

    /// The shape of the tensor: one image, three channels, rows, columns.
    pub open spec fn shape_of(&self) -> Seq<int> {
        seq![1int, 3int, self.height as int, self.width as int]
    }

    /// The shape of the tensor: one image, three channels, rows, columns.
    pub fn shape(&self) -> (shape: [usize; 4])
        ensures
            shape@.len() == 4,
            forall|i: int| 0 <= i < 4 ==> shape@[i] == self.shape_of()[i],
    {
        [1, 3, self.height as usize, self.width as usize]
    }
}

/// The size to which a frame of `width` by `height` is scaled so that it
/// fits a target of `target_width` by `target_height` whole: both sides are
/// scaled by the smaller of the two ratios of target to frame, and the side
/// that does not fill the target is rounded down to whole pixels. A frame
/// without pixels stays empty.
pub open spec fn fitted_size(width: int, height: int, target_width: int, target_height: int) -> (int, int) {
    if width == 0 || height == 0 {
        (0, 0)
    } else if target_width * height <= target_height * width {
        (target_width, (height * target_width) / width)
    } else {
        ((width * target_height) / height, target_height)
    }
}

/// The padding on the near side (left or top) when `size` pixels are
/// centred in `target`; the far side gets the rest.
pub open spec fn near_padding(target: int, size: int) -> int {
    (target - size) / 2
}

/// Letterboxing never crops. The scaled frame fits the target and fills it
/// in one direction; its aspect ratio is that of the frame, up to the
/// rounding down of the other side; and the padding on the two sides of
/// either direction differs by at most one pixel.
pub proof fn lemma_letterbox_never_crops(width: int, height: int, target_width: int, target_height: int)
    requires
        0 < width,
        0 < height,
        0 <= target_width,
        0 <= target_height,
    ensures
        ({
            let (w, h) = fitted_size(width, height, target_width, target_height);
            let left = near_padding(target_width, w);
            let top = near_padding(target_height, h);
            &&& 0 <= w <= target_width
            &&& 0 <= h <= target_height
            &&& w == target_width || h == target_height
            &&& w == target_width ==> h * width <= height * w < (h + 1) * width
            &&& w != target_width ==> w * height <= width * h < (w + 1) * height
            &&& 0 <= left <= (target_width - w) - left <= left + 1
            &&& 0 <= top <= (target_height - h) - top <= top + 1
        }),
{
    let (w, h) = fitted_size(width, height, target_width, target_height);
    if target_width * height <= target_height * width {
        lemma_floor_div(height * target_width, width);
        assert(h <= target_height) by (nonlinear_arith)
            requires
                h * width <= target_height * width,
                width > 0,
        ;
        assert(0 <= height * target_width) by (nonlinear_arith)
            requires
                0 < height,
                0 <= target_width,
        ;
        assert(h >= 0) by (nonlinear_arith)
            requires
                0 <= height * target_width < (h + 1) * width,
                width > 0,
        ;
    } else {
        lemma_floor_div(width * target_height, height);
        assert(w * height < target_width * height) by (nonlinear_arith)
            requires
                w * height <= width * target_height,
                target_height * width < target_width * height,
        ;
        assert(w < target_width) by (nonlinear_arith)
            requires
                w * height < target_width * height,
                height > 0,
        ;
        assert(0 <= width * target_height) by (nonlinear_arith)
            requires
                0 < width,
                0 <= target_height,
        ;
        assert(w >= 0) by (nonlinear_arith)
            requires
                0 <= width * target_height < (w + 1) * height,
                height > 0,
        ;
    }
}

/// Division rounds down: the quotient is the largest whole number of
/// divisors that fit.
proof fn lemma_floor_div(x: int, d: int)
    requires
        0 < d,
    ensures
        (x / d) * d <= x < (x / d + 1) * d,
{
    vstd::arithmetic::div_mod::lemma_fundamental_div_mod(x, d);
    vstd::arithmetic::div_mod::lemma_mod_bound(x, d);
    assert((x / d) * d == d * (x / d) && (x / d + 1) * d == d * (x / d) + d) by (nonlinear_arith);
}

/// Computes the size to which a frame is scaled to fit the target.
pub fn fit_within(width: u32, height: u32, target_width: u32, target_height: u32) -> (size: (u32, u32))
    ensures
        size.0 == fitted_size(width as int, height as int, target_width as int, target_height as int).0,
        size.1 == fitted_size(width as int, height as int, target_width as int, target_height as int).1,
        size.0 <= target_width,
        size.1 <= target_height,
{
    if width == 0 || height == 0 {
        return (0, 0);
    }
    proof {
        lemma_letterbox_never_crops(width as int, height as int, target_width as int, target_height as int);
        assert(target_width * height <= 0xFFFF_FFFF * 0xFFFF_FFFF && target_height * width <= 0xFFFF_FFFF
            * 0xFFFF_FFFF && 0 <= target_width * height && 0 <= target_height * width) by (nonlinear_arith)
            requires
                0 <= width <= 0xFFFF_FFFF,
                0 <= height <= 0xFFFF_FFFF,
                0 <= target_width <= 0xFFFF_FFFF,
                0 <= target_height <= 0xFFFF_FFFF,
        ;
        assert(height * target_width == target_width * height && width * target_height == target_height
            * width) by (nonlinear_arith);
    }
    let by_width: u64 = (target_width as u64) * (height as u64);
    let by_height: u64 = (target_height as u64) * (width as u64);
    if by_width <= by_height {
        (target_width, (by_width / (width as u64)) as u32)
    } else {
        ((by_height / (height as u64)) as u32, target_height)
    }
}

/// Sides from this on are not resampled. The resampling places pixels by
/// single-precision numbers, which hold every whole and every half number
/// below this limit and not above it.
pub const SIDE_LIMIT: u32 = 8_388_608;

/// Whether a frame can be scaled and padded. The canvas and the working
/// buffer of the resampling, which holds sixteen bytes for each pixel of the
/// frame's width by the scaled height, must be allocatable; and where there
/// is anything to resample, the sides of the frame and of the scaled frame
/// must lie below `SIDE_LIMIT`.
pub open spec fn can_be_resized(width: int, height: int, target_width: int, target_height: int) -> bool {
    let (w, h) = fitted_size(width, height, target_width, target_height);
    &&& target_width * target_height * 3 <= isize::MAX
    &&& width * h * 16 <= isize::MAX
    &&& w > 0 && h > 0 ==> width < SIDE_LIMIT && height < SIDE_LIMIT && w < SIDE_LIMIT && h < SIDE_LIMIT
}

/// Where a buffer may take `2^63 - 1` bytes, every frame with sides below
/// `SIDE_LIMIT` can be scaled to the square of side `TARGET_SIZE`.
pub proof fn lemma_target_square_always_fits(width: u32, height: u32)
    requires
        isize::MAX >= 0x7FFF_FFFF_FFFF_FFFF,
        width < SIDE_LIMIT,
        height < SIDE_LIMIT,
    ensures
        can_be_resized(width as int, height as int, TARGET_SIZE as int, TARGET_SIZE as int),
{
    let (w, h) = fitted_size(width as int, height as int, TARGET_SIZE as int, TARGET_SIZE as int);
    if width > 0 && height > 0 {
        lemma_letterbox_never_crops(width as int, height as int, TARGET_SIZE as int, TARGET_SIZE as int);
    }
    assert(width * h * 16 <= 0xFFFF_FFFF * 1024 * 16) by (nonlinear_arith)
        requires
            0 <= width <= 0xFFFF_FFFF,
            0 <= h <= 1024,
    ;
}

/// The interleaved RGB bytes that `image::DynamicImage::resize_exact`
/// returns, with the Lanczos filter of window three, for the frame `pixels`
/// of `width` by `height` and the new size `new_width` by `new_height`.
pub uninterp spec fn lanczos3_resampled(
    pixels: Seq<u8>,
    width: u32,
    height: u32,
    new_width: u32,
    new_height: u32,
) -> Seq<u8>;

/// The frame `source` scaled to fit the target whole: resampled to the
/// fitted size, and empty where that size has no pixels.
pub open spec fn scaled_frame(
    source: Seq<u8>,
    width: int,
    height: int,
    target_width: int,
    target_height: int,
) -> Seq<u8> {
    let (w, h) = fitted_size(width, height, target_width, target_height);
    if w == 0 || h == 0 {
        Seq::empty()
    } else {
        lanczos3_resampled(source, width as u32, height as u32, w as u32, h as u32)
    }
}

/// The byte of channel `c` at column `x` of row `y` of the canvas: a byte of
/// the scaled frame where the centred frame covers the pixel, zero elsewhere.
pub open spec fn letterbox_byte(
    resized: Seq<u8>,
    new_width: int,
    new_height: int,
    target_width: int,
    target_height: int,
    x: int,
    y: int,
    c: int,
) -> u8 {
    let left = near_padding(target_width, new_width);
    let top = near_padding(target_height, new_height);
    if left <= x < left + new_width && top <= y < top + new_height {
        resized[interleaved_index(x - left, y - top, c, new_width, 3)]
    } else {
        0u8
    }
}

/// Whether `canvas` is the target-sized frame that holds `resized` in its
/// centre and black around it.
pub open spec fn is_letterbox_of(
    canvas: Seq<u8>,
    resized: Seq<u8>,
    new_width: int,
    new_height: int,
    target_width: int,
    target_height: int,
) -> bool {
    &&& canvas.len() == target_width * target_height * 3
    &&& forall|x: int, y: int, c: int|
        0 <= x < target_width && 0 <= y < target_height && 0 <= c < 3 ==> canvas[#[trigger] interleaved_index(
            x,
            y,
            c,
            target_width,
            3,
        )] == letterbox_byte(resized, new_width, new_height, target_width, target_height, x, y, c)
}

/// Whether `planes` holds the pixels of the interleaved RGB frame `frame`
/// channel by channel.
pub open spec fn is_planar_of(planes: Seq<u8>, frame: Seq<u8>, width: int, height: int) -> bool {
    &&& planes.len() == 3 * height * width
    &&& forall|x: int, y: int, c: int|
        0 <= x < width && 0 <= y < height && 0 <= c < 3 ==> planes[#[trigger] planar_index(
            x,
            y,
            c,
            width,
            height,
        )] == frame[interleaved_index(x, y, c, width, 3)]
}

/// Whether `planes` is the channel-first tensor of the letterboxed `resized`.
pub open spec fn is_letterboxed_tensor_of(
    planes: Seq<u8>,
    resized: Seq<u8>,
    new_width: int,
    new_height: int,
    target_width: int,
    target_height: int,
) -> bool {
    &&& planes.len() == 3 * target_height * target_width
    &&& forall|x: int, y: int, c: int|
        0 <= x < target_width && 0 <= y < target_height && 0 <= c < 3 ==> planes[#[trigger] planar_index(
            x,
            y,
            c,
            target_width,
            target_height,
        )] == letterbox_byte(resized, new_width, new_height, target_width, target_height, x, y, c)
}

/// Resamples an 8-bit RGB frame to a new size with the Lanczos filter of
/// window three, by `image::DynamicImage::resize_exact`. Trusted: the result
/// depends on the frame and the two sizes alone and is written
/// `lanczos3_resampled`; it has the new size; and a frame that already has
/// it comes back as it is. The preconditions keep the frame and both
/// buffers of the resampling non-empty and allocatable, and every side
/// below `SIDE_LIMIT`, so that no two pixels share a coordinate.
#[verifier::external_body]
fn resize_exact_lanczos3(pixels: &Vec<u8>, width: u32, height: u32, new_width: u32, new_height: u32) -> (resized: Vec<u8>)
    requires
        0 < width < SIDE_LIMIT,
        0 < height < SIDE_LIMIT,
        0 < new_width < SIDE_LIMIT,
        0 < new_height < SIDE_LIMIT,
        pixels@.len() == width * height * 3,
        width * new_height * 16 <= isize::MAX,
        new_width * new_height * 3 <= isize::MAX,
    ensures
        resized@ == lanczos3_resampled(pixels@, width, height, new_width, new_height),
        resized@.len() == new_width * new_height * 3,
        new_width == width && new_height == height ==> resized@ == pixels@,
{
    let frame = image::RgbImage::from_raw(width, height, pixels.clone()).unwrap();
    image::DynamicImage::ImageRgb8(frame).resize_exact(
        new_width,
        new_height,
        image::imageops::FilterType::Lanczos3,
    ).into_rgb8().into_raw()
}

/// Centres a scaled frame on a black canvas of the target size.
pub fn letterbox(resized: &Vec<u8>, new_width: u32, new_height: u32, target_width: u32, target_height: u32) -> (canvas: Vec<u8>)
    requires
        resized@.len() == new_width * new_height * 3,
        new_width <= target_width,
        new_height <= target_height,
    ensures
        is_letterbox_of(
            canvas@,
            resized@,
            new_width as int,
            new_height as int,
            target_width as int,
            target_height as int,
        ),
{
    let left: u32 = (target_width - new_width) / 2;
    let top: u32 = (target_height - new_height) / 2;
    let row_bytes: usize = resized.len();
    let mut canvas: Vec<u8> = Vec::new();
    let mut y: u32 = 0;
    while y < target_height
        invariant
            y <= target_height,
            new_width <= target_width,
            new_height <= target_height,
            left == near_padding(target_width as int, new_width as int),
            top == near_padding(target_height as int, new_height as int),
            row_bytes == resized@.len() == new_width * new_height * 3,
            canvas@.len() == y * target_width * 3,
            forall|xx: int, yy: int, cc: int|
                0 <= xx < target_width && 0 <= yy < y && 0 <= cc < 3 ==> canvas@[#[trigger] interleaved_index(
                    xx,
                    yy,
                    cc,
                    target_width as int,
                    3,
                )] == letterbox_byte(
                    resized@,
                    new_width as int,
                    new_height as int,
                    target_width as int,
                    target_height as int,
                    xx,
                    yy,
                    cc,
                ),
        decreases target_height - y,
    {
        let mut x: u32 = 0;
        while x < target_width
            invariant
                x <= target_width,
                y < target_height,
                new_width <= target_width,
                new_height <= target_height,
                left == near_padding(target_width as int, new_width as int),
                top == near_padding(target_height as int, new_height as int),
                row_bytes == resized@.len() == new_width * new_height * 3,
                canvas@.len() == (y * target_width + x) * 3,
                forall|xx: int, yy: int, cc: int|
                    0 <= xx < target_width && 0 <= cc < 3 && (0 <= yy < y || (yy == y && xx < x))
                        ==> canvas@[#[trigger] interleaved_index(xx, yy, cc, target_width as int, 3)]
                        == letterbox_byte(
                        resized@,
                        new_width as int,
                        new_height as int,
                        target_width as int,
                        target_height as int,
                        xx,
                        yy,
                        cc,
                    ),
            decreases target_width - x,
        {
            if left <= x && x - left < new_width && top <= y && y - top < new_height {
                proof {
                    let dx = (x - left) as int;
                    let dy = (y - top) as int;
                    assert(0 <= dy * new_width && dy * new_width + dx < new_height * new_width && new_height
                        * new_width == new_width * new_height) by (nonlinear_arith)
                        requires
                            0 <= dx < new_width,
                            0 <= dy < new_height,
                    ;
                }
                let source: usize = ((y - top) as usize * new_width as usize + (x - left) as usize) * 3;
                canvas.push(resized[source]);
                canvas.push(resized[source + 1]);
                canvas.push(resized[source + 2]);
            } else {
                canvas.push(0u8);
                canvas.push(0u8);
                canvas.push(0u8);
            }
            proof {
                assert forall|xx: int, yy: int, cc: int|
                    0 <= xx < target_width && 0 <= cc < 3 && (0 <= yy < y || (yy == y && xx < x + 1))
                    implies canvas@[#[trigger] interleaved_index(xx, yy, cc, target_width as int, 3)]
                    == letterbox_byte(
                    resized@,
                    new_width as int,
                    new_height as int,
                    target_width as int,
                    target_height as int,
                    xx,
                    yy,
                    cc,
                ) by {
                    if yy < y {
                        lemma_row_major_order(yy, xx, y as int, target_width as int);
                    }
                }
            }
            x = x + 1;
        }
        assert((y * target_width + target_width) * 3 == (y + 1) * target_width * 3) by (nonlinear_arith);
        y = y + 1;
    }
    assert(target_height * target_width * 3 == target_width * target_height * 3) by (nonlinear_arith);
    canvas
}

/// Lays an interleaved RGB frame out channel by channel.
pub fn to_tensor(frame: &RgbFrame) -> (tensor: PixelTensor)
    requires
        frame.wf(),
    ensures
        tensor.wf(),
        tensor.width == frame.width,
        tensor.height == frame.height,
        is_planar_of(tensor.data@, frame.data@, frame.width as int, frame.height as int),
{
    let width: u32 = frame.width;
    let height: u32 = frame.height;
    let len: usize = frame.data.len();
    let mut data: Vec<u8> = Vec::new();
    let mut c: usize = 0;
    assert(0 * height * width == 0) by (nonlinear_arith);
    while c < 3
        invariant
            c <= 3,
            len == frame.data@.len() == width * height * 3,
            width == frame.width,
            height == frame.height,
            data@.len() == c * height * width,
            forall|xx: int, yy: int, cc: int|
                0 <= xx < width && 0 <= yy < height && 0 <= cc < c ==> data@[#[trigger] planar_index(
                    xx,
                    yy,
                    cc,
                    width as int,
                    height as int,
                )] == frame.data@[interleaved_index(xx, yy, cc, width as int, 3)],
        decreases 3 - c,
    {
        let mut y: u32 = 0;
        while y < height
            invariant
                c < 3,
                y <= height,
                len == frame.data@.len() == width * height * 3,
                width == frame.width,
                height == frame.height,
                data@.len() == (c * height + y) * width,
                forall|xx: int, yy: int, cc: int|
                    0 <= xx < width && 0 <= yy < height && 0 <= cc <= c && (cc < c || yy < y)
                        ==> data@[#[trigger] planar_index(xx, yy, cc, width as int, height as int)]
                        == frame.data@[interleaved_index(xx, yy, cc, width as int, 3)],
            decreases height - y,
        {
            let mut x: u32 = 0;
            while x < width
                invariant
                    c < 3,
                    y < height,
                    x <= width,
                    len == frame.data@.len() == width * height * 3,
                    width == frame.width,
                    height == frame.height,
                    data@.len() == (c * height + y) * width + x,
                    forall|xx: int, yy: int, cc: int|
                        0 <= xx < width && 0 <= yy < height && 0 <= cc <= c && (cc < c || yy < y || (yy == y
                            && xx < x)) ==> data@[#[trigger] planar_index(
                            xx,
                            yy,
                            cc,
                            width as int,
                            height as int,
                        )] == frame.data@[interleaved_index(xx, yy, cc, width as int, 3)],
                decreases width - x,
            {
                proof {
                    assert(0 <= y * width && y * width + x < height * width && height * width == width
                        * height) by (nonlinear_arith)
                        requires
                            0 <= x < width,
                            0 <= y < height,
                    ;
                }
                let source: usize = (y as usize * width as usize + x as usize) * 3 + c;
                data.push(frame.data[source]);
                proof {
                    assert forall|xx: int, yy: int, cc: int|
                        0 <= xx < width && 0 <= yy < height && 0 <= cc <= c && (cc < c || yy < y || (yy == y
                            && xx < x + 1)) implies data@[#[trigger] planar_index(
                        xx,
                        yy,
                        cc,
                        width as int,
                        height as int,
                    )] == frame.data@[interleaved_index(xx, yy, cc, width as int, 3)] by {
                        if cc < c {
                            lemma_row_major_order(cc, yy, c as int, height as int);
                            lemma_row_major_order(cc * height + yy, xx, c * height + y, width as int);
                        } else if yy < y {
                            lemma_row_major_order(c * height + yy, xx, c * height + y, width as int);
                        }
                    }
                }
                x = x + 1;
            }
            assert((c * height + y) * width + width == (c * height + (y + 1)) * width) by (nonlinear_arith);
            y = y + 1;
        }
        assert((c * height + height) * width == (c + 1) * height * width) by (nonlinear_arith);
        c = c + 1;
    }
    PixelTensor { height, width, data }
}

/// Scales `image` by one factor so that all of it fits the target, and
/// centres it on a black canvas of the target size. Fails when the frame
/// cannot be resized: see `can_be_resized`.
pub fn resize_with_padding(image: &RgbFrame, target_width: u32, target_height: u32) -> (r: Result<RgbFrame, FastVLMError>)
    requires
        image.wf(),
    ensures
        !can_be_resized(image.width as int, image.height as int, target_width as int, target_height as int)
            ==> r is Err && r->Err_0 == FastVLMError::ImageTooLarge,
        can_be_resized(image.width as int, image.height as int, target_width as int, target_height as int)
            ==> r is Ok && r->Ok_0.wf() && r->Ok_0.width == target_width && r->Ok_0.height == target_height
            && is_letterbox_of(
            r->Ok_0.data@,
            scaled_frame(
                image.data@,
                image.width as int,
                image.height as int,
                target_width as int,
                target_height as int,
            ),
            fitted_size(image.width as int, image.height as int, target_width as int, target_height as int).0,
            fitted_size(image.width as int, image.height as int, target_width as int, target_height as int).1,
            target_width as int,
            target_height as int,
        ),
        can_be_resized(image.width as int, image.height as int, target_width as int, target_height as int)
            ==> scaled_frame(
            image.data@,
            image.width as int,
            image.height as int,
            target_width as int,
            target_height as int,
        ).len() == fitted_size(
            image.width as int,
            image.height as int,
            target_width as int,
            target_height as int,
        ).0 * fitted_size(image.width as int, image.height as int, target_width as int, target_height as int).1
            * 3,
        can_be_resized(image.width as int, image.height as int, target_width as int, target_height as int)
            && fitted_size(image.width as int, image.height as int, target_width as int, target_height as int)
            == (image.width as int, image.height as int) ==> scaled_frame(
            image.data@,
            image.width as int,
            image.height as int,
            target_width as int,
            target_height as int,
        ) == image.data@,
{
    let (new_width, new_height) = fit_within(image.width, image.height, target_width, target_height);
    assert(target_width * target_height * 3 <= 0xFFFF_FFFF * 0xFFFF_FFFF * 3 && image.width * new_height * 16
        <= 0xFFFF_FFFF * 0xFFFF_FFFF * 16 && 0 <= new_width * new_height * 3 <= target_width * target_height
        * 3) by (nonlinear_arith)
        requires
            0 <= target_width <= 0xFFFF_FFFF,
            0 <= target_height <= 0xFFFF_FFFF,
            0 <= image.width <= 0xFFFF_FFFF,
            0 <= new_width <= target_width,
            0 <= new_height <= target_height,
    ;
    let canvas_bytes: u128 = (target_width as u128) * (target_height as u128) * 3;
    let working_bytes: u128 = (image.width as u128) * (new_height as u128) * 16;
    if canvas_bytes > isize::MAX as u128 || working_bytes > isize::MAX as u128 {
        return Err(FastVLMError::ImageTooLarge);
    }
    let resized: Vec<u8> = if new_width == 0 || new_height == 0 {
        assert(new_width * new_height * 3 == 0) by (nonlinear_arith)
            requires
                new_width == 0 || new_height == 0,
        ;
        Vec::new()
    } else {
        if image.width >= SIDE_LIMIT || image.height >= SIDE_LIMIT || new_width >= SIDE_LIMIT || new_height
            >= SIDE_LIMIT {
            return Err(FastVLMError::ImageTooLarge);
        }
        resize_exact_lanczos3(&image.data, image.width, image.height, new_width, new_height)
    };
    assert(resized@ =~= scaled_frame(
        image.data@,
        image.width as int,
        image.height as int,
        target_width as int,
        target_height as int,
    ));
    if new_width == image.width && new_height == image.height {
        assert(resized@ =~= image.data@);
    }
    let data: Vec<u8> = letterbox(&resized, new_width, new_height, target_width, target_height);
    Ok(RgbFrame { width: target_width, height: target_height, data })
}

/// Turns frames into the tensor the vision encoder takes.
#[derive(Debug, Clone, Copy)]
pub struct FastVLMImageProcessor {
    /// Width and height of the tensor.
    pub crop_size: (u32, u32),
}

impl FastVLMImageProcessor {
    /// A processor for the square of side `TARGET_SIZE`.
    pub fn new() -> (processor: Self)
        ensures
            processor.crop_size == (TARGET_SIZE, TARGET_SIZE),
    {
        FastVLMImageProcessor { crop_size: (TARGET_SIZE, TARGET_SIZE) }
    }

    /// Preprocesses one frame: drops alpha, scales the frame to fit the
    /// target whole, pads it with black to the target size and lays it out
    /// channel by channel. The tensor always has the shape
    /// `[1, 3, crop_size.1, crop_size.0]`, whatever the size of the frame.
    /// Fails when the frame cannot be resized: see `can_be_resized`.
    pub fn preprocess(&self, image: &PixelImage) -> (r: Result<FastVLMBatchFeature, FastVLMError>)
        requires
            image.wf(),
        ensures
            !can_be_resized(
                image.width as int,
                image.height as int,
                self.crop_size.0 as int,
                self.crop_size.1 as int,
            ) ==> r is Err && r->Err_0 == FastVLMError::ImageTooLarge,
            can_be_resized(
                image.width as int,
                image.height as int,
                self.crop_size.0 as int,
                self.crop_size.1 as int,
            ) ==> r is Ok && r->Ok_0.pixel_values.wf() && r->Ok_0.pixel_values.shape_of() == seq![
                1int,
                3int,
                self.crop_size.1 as int,
                self.crop_size.0 as int,
            ] && is_preprocessed(
                r->Ok_0.pixel_values.data@,
                image.data@,
                image.width as int,
                image.height as int,
                self.crop_size,
            ),
    {
        let rgb_image: RgbFrame = image.to_rgb();
        let processed: RgbFrame = match resize_with_padding(&rgb_image, self.crop_size.0, self.crop_size.1) {
            Ok(processed) => processed,
            Err(e) => {
                return Err(e);
            },
        };
        let pixel_values: PixelTensor = to_tensor(&processed);
        Ok(FastVLMBatchFeature { pixel_values })
    }
}

/// Whether `planes` is the tensor that preprocessing makes of the RGBA
/// frame `rgba` of `width` by `height` for the target `crop_size`: the
/// channel-first layout of the frame without alpha, scaled to fit and
/// centred on black.
pub open spec fn is_preprocessed(planes: Seq<u8>, rgba: Seq<u8>, width: int, height: int, crop_size: (u32, u32)) -> bool {
    is_letterboxed_tensor_of(
        planes,
        scaled_frame(without_alpha(rgba), width, height, crop_size.0 as int, crop_size.1 as int),
        fitted_size(width, height, crop_size.0 as int, crop_size.1 as int).0,
        fitted_size(width, height, crop_size.0 as int, crop_size.1 as int).1,
        crop_size.0 as int,
        crop_size.1 as int,
    )
}

impl Default for FastVLMImageProcessor {
    fn default() -> (processor: Self)
        ensures
            processor.crop_size == (TARGET_SIZE, TARGET_SIZE),
    {
        FastVLMImageProcessor::new()
    }
}

} // verus!
