//! Decoded video frames: when the pixel converter has to be rebuilt, what it
//! converts to, and how a converted frame becomes a pixel buffer.

use crate::pixels::{
    image_from_rgb_buffer, image_pixels, new_rgb_buffer, opaque, rgb_bytes_mut, rgb_pixels,
    PixelGrid,
};
use vstd::arithmetic::div_mod::{
    lemma_div_is_ordered, lemma_div_multiples_vanish, lemma_div_pos_is_pos,
    lemma_fundamental_div_mod, lemma_fundamental_div_mod_converse, lemma_mod_bound,
    lemma_multiply_divide_lt,
};
use vstd::arithmetic::mul::lemma_mul_is_commutative;
use vstd::prelude::*;

verus! {

/// A video frame of packed RGB pixels: `stride` bytes of `data` for each row,
/// of which the first three per pixel are shown.
pub struct VideoFrame<'a> {
    pub width: u32,
    pub height: u32,
    pub stride: usize,
    pub data: &'a [u8],
}

impl<'a> VideoFrame<'a> {
    /// The bytes of one row that are shown.
    pub open spec fn row_len(self) -> int {
        self.width * 3
    }

    /// The rows that `data` holds in full.
    pub open spec fn rows(self) -> int {
        self.data@.len() as int / self.stride as int
    }

    /// There are pixels in a row, each row that is shown holds as many as the
    /// frame is wide, and a buffer of the frame's size can be had.
    pub open spec fn valid(self) -> bool {
        &&& self.width > 0
        &&& self.stride > 0
        &&& self.row_len() <= self.stride || self.height == 0 || self.rows() == 0
        &&& self.row_len() <= usize::MAX
        &&& self.width * self.height * 3 + 64 <= isize::MAX
    }

    /// The byte at `i` of the rows one after the other without what lies
    /// between them; zero for a row that `data` does not hold in full.
    pub open spec fn packed_byte(self, i: int) -> u8 {
        let row = i / self.row_len();
        let column = i % self.row_len();
        if row < self.rows() {
            self.data@[row * self.stride + column]
        } else {
            0
        }
    }

    /// The frame as a rectangle of pixels.
    pub open spec fn packed(self) -> PixelGrid {
        PixelGrid {
            width: self.width,
            height: self.height,
            bytes: Seq::new(
                (self.width * self.height * 3) as nat,
                |i: int| self.packed_byte(i),
            ),
        }
    }

    /// Whether a buffer of the frame's pixels can be made.
    pub fn is_valid(&self) -> (valid: bool)
        ensures
            valid == self.valid(),
            valid <==> self.width > 0 && self.stride > 0 && self.width * 3 <= usize::MAX && self.width
                * self.height * 3 + 64 <= isize::MAX && (self.height > 0 && self.stride
                <= self.data@.len() ==> self.width * 3 <= self.stride),
    {
        proof {
            law_frames_that_can_be_shown(*self);
        }
        let width = self.width as u128;
        let height = self.height as u128;
        assert(width * height * 3 <= 0x3_0000_0000 * 0x1_0000_0000) by (nonlinear_arith)
            requires
                width <= u32::MAX,
                height <= u32::MAX,
        ;
        self.width > 0 && self.stride > 0 && (width * 3 <= self.stride as u128 || self.height == 0
            || self.data.len() / self.stride == 0) && width * 3 <= usize::MAX as u128 && width
            * height * 3 + 64 <= isize::MAX as u128
    }
}

/// Copies `len` bytes of `source` to `target`.
fn copy_bytes(source: &[u8], from: usize, target: &mut [u8], to: usize, len: usize)
    requires
        from + len <= source@.len(),
        to + len <= old(target)@.len(),
    ensures
        final(target)@ == Seq::new(
            old(target)@.len(),
            |i: int|
                if to <= i < to + len {
                    source@[from + i - to]
                } else {
                    old(target)@[i]
                },
        ),
{
    let ghost before = target@;
    let mut i: usize = 0;
    while i < len
        invariant
            i <= len,
            from + len <= source.len(),
            to + len <= target.len(),
            target@ == Seq::new(
                before.len(),
                |j: int|
                    if to <= j < to + i {
                        source@[from + j - to]
                    } else {
                        before[j]
                    },
            ),
        decreases len - i,
    {
        target[to + i] = source[from + i];
        i = i + 1;
    }
}

/// Byte `row * row_len + column` of the packed rows is byte `column` of that
/// row.
proof fn lemma_packed_row(frame: VideoFrame<'_>, row: int, i: int)
    requires
        frame.width > 0,
        0 <= row,
        row * frame.row_len() <= i < (row + 1) * frame.row_len(),
    ensures
        frame.packed_byte(i) == if row < frame.rows() {
            frame.data@[row * frame.stride + (i - row * frame.row_len())]
        } else {
            0
        },
{
    let len = frame.row_len();
    assert((row + 1) * len == row * len + len) by (nonlinear_arith);
    lemma_fundamental_div_mod_converse(i, len, row, i - row * len);
}

/// A byte past the rows that the data holds in full is zero.
proof fn lemma_missing_row(frame: VideoFrame<'_>, i: int)
    requires
        frame.width > 0,
        frame.rows() * frame.row_len() <= i,
    ensures
        frame.packed_byte(i) == 0,
{
    lemma_div_multiples_vanish(frame.rows(), frame.row_len());
    lemma_mul_is_commutative(frame.rows(), frame.row_len());
    lemma_div_is_ordered(frame.rows() * frame.row_len(), i, frame.row_len());
}

/// A row that is held in full ends within the data.
proof fn lemma_row_end(row: int, stride: int, len: int)
    requires
        0 < stride,
        0 <= len,
        row < len / stride,
    ensures
        row * stride + stride <= len,
{
    lemma_fundamental_div_mod(len, stride);
    assert(row * stride + stride <= stride * (len / stride)) by (nonlinear_arith)
        requires
            row + 1 <= len / stride,
            0 < stride,
    ;
}

/// The data holds a row in full exactly when the row ends within it.
proof fn lemma_row_held(row: int, stride: int, len: int)
    requires
        0 < stride,
        0 <= len,
        0 <= row,
    ensures
        (row + 1) * stride <= len <==> row < len / stride,
{
    assert((row + 1) * stride == row * stride + stride) by (nonlinear_arith);
    if row < len / stride {
        lemma_row_end(row, stride, len);
    }
    if (row + 1) * stride <= len {
        lemma_div_multiples_vanish(row + 1, stride);
        lemma_mul_is_commutative(row + 1, stride);
        lemma_div_is_ordered((row + 1) * stride, len, stride);
    }
}

/// A frame can be shown exactly when it has columns, its rows can be told
/// apart, a buffer of its size can be had, and a row that is to be shown is
/// not longer than the stride.
pub proof fn law_frames_that_can_be_shown(frame: VideoFrame<'_>)
    ensures
        frame.valid() <==> {
            &&& frame.width > 0
            &&& frame.stride > 0
            &&& frame.width * 3 <= usize::MAX
            &&& frame.width * frame.height * 3 + 64 <= isize::MAX
            &&& frame.height > 0 && frame.stride <= frame.data@.len() ==> frame.width * 3
                <= frame.stride
        },
{
    if frame.stride > 0 {
        lemma_row_held(0, frame.stride as int, frame.data@.len() as int);
        lemma_div_pos_is_pos(frame.data@.len() as int, frame.stride as int);
    }
}

/// Writes the rows of a frame into a zeroed buffer of its size.
fn copy_rows(frame: &VideoFrame<'_>, target: &mut [u8])
    requires
        frame.valid(),
        old(target)@ == Seq::new((frame.width * frame.height * 3) as nat, |i: int| 0u8),
    ensures
        final(target)@ == frame.packed().bytes,
{
    let len: usize = frame.width as usize * 3;
    let available: usize = frame.data.len();
    let rows: usize = available / frame.stride;
    let height: usize = frame.height as usize;
    let mut row: usize = 0;
    let mut from: usize = 0;
    let mut to: usize = 0;
    assert(frame.width * frame.height * 3 == height * len) by (nonlinear_arith)
        requires
            height == frame.height,
            len == frame.width * 3,
    ;
    while row < rows && row < height
        invariant
            frame.valid(),
            len == frame.row_len(),
            available == frame.data@.len(),
            rows == frame.rows(),
            height == frame.height,
            row <= rows,
            row <= height,
            from == row * frame.stride,
            to == row * len,
            target@.len() == height * len,
            target.len() == height * len,
            forall|i: int| 0 <= i < to ==> #[trigger] target@[i] == frame.packed_byte(i),
            forall|i: int| to <= i < target@.len() ==> #[trigger] target@[i] == 0,
        decreases height - row,
    {
        proof {
            lemma_row_end(row as int, frame.stride as int, frame.data@.len() as int);
            assert((row + 1) * len == row * len + len) by (nonlinear_arith);
            assert((row + 1) * frame.stride == row * frame.stride + frame.stride)
                by (nonlinear_arith);
            assert((row + 1) * len <= height * len) by (nonlinear_arith)
                requires
                    row + 1 <= height,
                    0 <= len,
            ;
            assert forall|i: int| to <= i < to + len implies frame.packed_byte(i)
                == frame.data@[from + i - to] by {
                lemma_packed_row(*frame, row as int, i);
            }
        }
        copy_bytes(frame.data, from, target, to, len);
        row = row + 1;
        from = from + frame.stride;
        to = to + len;
    }
    proof {
        assert forall|i: int| to <= i < target@.len() implies frame.packed_byte(i) == 0 by {
            lemma_missing_row(*frame, i);
        }
        assert(target@ =~= frame.packed().bytes);
    }
}

/// The pixel buffer that shows a frame: its rows, top first, without the bytes
/// that pad each row to the stride. A row that the data does not hold in full
/// stays black.
pub fn video_frame_to_pixel_buffer(frame: &VideoFrame<'_>) -> (buffer: slint::SharedPixelBuffer<
    slint::Rgb8Pixel,
>)
    requires
        frame.valid(),
    ensures
        rgb_pixels(buffer) == frame.packed(),
        rgb_pixels(buffer).width == frame.width,
        rgb_pixels(buffer).height == frame.height,
        rgb_pixels(buffer).bytes.len() == frame.width * frame.height * 3,
        forall|x: int, y: int, c: int|
            #![trigger frame.data@[y * frame.stride + x * 3 + c]]
            0 <= x < frame.width && 0 <= y < frame.height && 0 <= c < 3 && (y + 1) * frame.stride
                <= frame.data@.len() ==> rgb_pixels(buffer).bytes[(y * frame.width + x) * 3 + c]
                == frame.data@[y * frame.stride + x * 3 + c],
{
    let mut buffer = new_rgb_buffer(frame.width, frame.height);
    copy_rows(frame, rgb_bytes_mut(&mut buffer));
    proof {
        assert forall|x: int, y: int, c: int|
            #![trigger frame.data@[y * frame.stride + x * 3 + c]]
            0 <= x < frame.width && 0 <= y < frame.height && 0 <= c < 3 && (y + 1) * frame.stride
                <= frame.data@.len() implies rgb_pixels(buffer).bytes[(y * frame.width + x) * 3 + c]
            == frame.data@[y * frame.stride + x * 3 + c] by {
            law_pixels_keep_their_place(*frame, x, y, c);
        }
        law_buffer_has_the_size_of_the_frame(*frame);
    }
    buffer
}

/// The picture of a frame's pixel buffer.
pub fn video_image(buffer: slint::SharedPixelBuffer<slint::Rgb8Pixel>) -> (image: slint::Image)
    ensures
        image_pixels(image) == opaque(rgb_pixels(buffer)),
{
    image_from_rgb_buffer(buffer)
}

/// The buffer of a frame is as wide and as high as the frame, with three bytes
/// for each pixel.
pub proof fn law_buffer_has_the_size_of_the_frame(frame: VideoFrame<'_>)
    ensures
        frame.packed().width == frame.width,
        frame.packed().height == frame.height,
        frame.packed().bytes.len() == frame.width * frame.height * 3,
{
    assert(0 <= frame.width * frame.height * 3) by (nonlinear_arith)
        requires
            0 <= frame.width,
            0 <= frame.height,
    ;
}

/// Channel `c` of the pixel in column `x` and row `y` is shown as the frame
/// holds it, for every row that ends within the data. A row that does not is
/// black.
pub proof fn law_pixels_keep_their_place(frame: VideoFrame<'_>, x: int, y: int, c: int)
    requires
        0 < frame.stride,
        0 <= x < frame.width,
        0 <= y < frame.height,
        0 <= c < 3,
    ensures
        0 <= (y * frame.width + x) * 3 + c < frame.packed().bytes.len(),
        (y + 1) * frame.stride <= frame.data@.len() ==> frame.packed().bytes[(y * frame.width + x)
            * 3 + c] == frame.data@[y * frame.stride + x * 3 + c],
        (y + 1) * frame.stride > frame.data@.len() ==> frame.packed().bytes[(y * frame.width + x)
            * 3 + c] == 0,
{
    let w = frame.width as int;
    let i = (y * w + x) * 3 + c;
    assert(i == y * (w * 3) + (x * 3 + c)) by (nonlinear_arith)
        requires
            i == (y * w + x) * 3 + c,
    ;
    assert((y + 1) * (w * 3) == y * (w * 3) + w * 3) by (nonlinear_arith);
    assert((y + 1) * (w * 3) <= w * frame.height * 3) by (nonlinear_arith)
        requires
            y + 1 <= frame.height,
            0 <= w,
    ;
    assert(0 <= y * (w * 3)) by (nonlinear_arith)
        requires
            0 <= y,
            0 <= w,
    ;
    lemma_packed_row(frame, y, i);
    lemma_row_held(y, frame.stride as int, frame.data@.len() as int);
}

/// The picture of a frame shows each pixel of every row that ends within the
/// data as the frame holds it, every other pixel black, and all of them
/// opaque.
pub proof fn law_video_image_shows_the_frame(frame: VideoFrame<'_>, x: int, y: int, c: int)
    requires
        0 < frame.stride,
        0 <= x < frame.width,
        0 <= y < frame.height,
        0 <= c < 4,
    ensures
        opaque(frame.packed()).width == frame.width,
        opaque(frame.packed()).height == frame.height,
        0 <= (y * frame.width + x) * 4 + c < opaque(frame.packed()).bytes.len(),
        opaque(frame.packed()).bytes[(y * frame.width + x) * 4 + c] == if c == 3 {
            255
        } else if (y + 1) * frame.stride <= frame.data@.len() {
            frame.data@[y * frame.stride + x * 3 + c]
        } else {
            0
        },
{
    let w = frame.width as int;
    let pixel = y * w + x;
    assert(0 <= pixel < w * frame.height) by (nonlinear_arith)
        requires
            pixel == y * w + x,
            0 <= x < w,
            0 <= y < frame.height,
    ;
    if c < 3 {
        law_pixels_keep_their_place(frame, x, y, c);
    }
}

/// Bytes that pad a row to the stride are not shown, nor is what follows the
/// last row: frames that agree on all other bytes give the same pixels,
/// however far apart their rows lie.
pub proof fn law_padding_is_not_shown(one: VideoFrame<'_>, other: VideoFrame<'_>)
    requires
        0 < one.stride,
        0 < other.stride,
        one.width == other.width,
        one.height == other.height,
        forall|y: int|
            0 <= y < one.height ==> ((#[trigger] ((y + 1) * one.stride)) <= one.data@.len() <==> (y
                + 1) * other.stride <= other.data@.len()),
        forall|y: int, column: int|
            #![trigger one.data@[y * one.stride + column]]
            0 <= y < one.height && (y + 1) * one.stride <= one.data@.len() && 0 <= column < one.width
                * 3 ==> one.data@[y * one.stride + column] == other.data@[y * other.stride + column],
    ensures
        one.packed() == other.packed(),
{
    law_buffer_has_the_size_of_the_frame(one);
    let len = one.width * 3;
    assert forall|i: int| 0 <= i < one.width * one.height * 3 implies one.packed_byte(i)
        == other.packed_byte(i) by {
        let row = i / len;
        let column = i % len;
        assert(one.width > 0) by (nonlinear_arith)
            requires
                0 <= i < one.width * one.height * 3,
                0 <= one.width,
        ;
        lemma_div_pos_is_pos(i, len);
        lemma_mod_bound(i, len);
        assert(one.width * one.height * 3 == one.height * len) by (nonlinear_arith)
            requires
                len == one.width * 3,
        ;
        lemma_mul_is_commutative(one.height as int, len);
        lemma_multiply_divide_lt(i, len, one.height as int);
        lemma_row_held(row, one.stride as int, one.data@.len() as int);
        lemma_row_held(row, other.stride as int, other.data@.len() as int);
        assert((row + 1) * one.stride <= one.data@.len() <==> (row + 1) * other.stride
            <= other.data@.len());
        if (row + 1) * one.stride <= one.data@.len() {
            assert(one.data@[row * one.stride + column] == other.data@[row * other.stride
                + column]);
        }
    }
    assert(one.packed() =~= other.packed());
}

/// A frame without padding is shown byte for byte.
pub proof fn law_unpadded_frame_is_its_data(frame: VideoFrame<'_>)
    requires
        frame.width > 0,
        frame.stride == frame.width * 3,
        frame.data@.len() == frame.height * frame.stride,
    ensures
        frame.packed().bytes == frame.data@,
{
    let len = frame.width * 3;
    lemma_div_multiples_vanish(frame.height as int, len);
    lemma_mul_is_commutative(frame.height as int, len);
    assert(frame.width * frame.height * 3 == frame.height * (frame.width * 3)) by (nonlinear_arith);
    assert forall|i: int| 0 <= i < frame.data@.len() implies frame.packed_byte(i) == frame.data@[i] by {
        lemma_fundamental_div_mod(i, len);
        lemma_mul_is_commutative(i / len, len);
        lemma_multiply_divide_lt(i, len, frame.height as int);
    }
    assert(frame.packed().bytes =~= frame.data@);
}

/// Format and size of a frame. The format is the decoder's own number for it.
#[derive(Clone, Copy, Debug, PartialEq, Eq, Structural)]
pub struct FrameShape {
    pub format: i32,
    pub width: u32,
    pub height: u32,
}

/// Pixel layouts that frames are converted to.
#[derive(Clone, Copy, Debug, PartialEq, Eq, Structural)]
pub enum TargetFormat {
    /// One byte each of red, green and blue.
    Rgb24,
}

/// How a converter resamples.
#[derive(Clone, Copy, Debug, PartialEq, Eq, Structural)]
pub enum Resampling {
    Bilinear,
}

/// What a pixel converter is built for.
#[derive(Clone, Copy, Debug, PartialEq, Eq, Structural)]
pub struct RescalerSetup {
    pub input: FrameShape,
    pub output_format: TargetFormat,
    pub output_width: u32,
    pub output_height: u32,
    pub resampling: Resampling,
}

/// The converter for a frame: to RGB bytes of the same size.
pub open spec fn rescaler_setup(frame: FrameShape) -> RescalerSetup {
    RescalerSetup {
        input: frame,
        output_format: TargetFormat::Rgb24,
        output_width: frame.width,
        output_height: frame.height,
        resampling: Resampling::Bilinear,
    }
}

/// What the converter for a frame is built for.
pub fn rgb_rescaler_for_frame(frame: FrameShape) -> (setup: RescalerSetup)
    ensures
        setup == rescaler_setup(frame),
        setup.input.format == frame.format,
        setup.input.width == frame.width,
        setup.input.height == frame.height,
        setup.output_format == TargetFormat::Rgb24,
        setup.output_width == frame.width,
        setup.output_height == frame.height,
        setup.resampling == Resampling::Bilinear,
{
    RescalerSetup {
        input: frame,
        output_format: TargetFormat::Rgb24,
        output_width: frame.width,
        output_height: frame.height,
        resampling: Resampling::Bilinear,
    }
}

/// Whether a frame needs a new converter: there is none yet, or the one in use
/// takes another format or size. `existing` is the input of the one in use.
pub fn needs_rescaler(existing: Option<FrameShape>, frame: FrameShape) -> (rebuild: bool)
    ensures
        rebuild == (existing != Some(frame)),
{
    match existing {
        Some(input) => input.format != frame.format || input.width != frame.width || input.height
            != frame.height,
        None => true,
    }
}

/// A converter takes frames of exactly the shape it was built for, and gives
/// RGB bytes of the same width and height, whatever they are.
pub proof fn law_frames_are_converted_at_their_own_size(frame: FrameShape)
    ensures
        rescaler_setup(frame).input.format == frame.format,
        rescaler_setup(frame).input.width == frame.width,
        rescaler_setup(frame).input.height == frame.height,
        rescaler_setup(frame).output_format == TargetFormat::Rgb24,
        rescaler_setup(frame).output_width == frame.width,
        rescaler_setup(frame).output_height == frame.height,
        rescaler_setup(frame).resampling == Resampling::Bilinear,
{
}

/// Two frames differ in format or size.
pub open spec fn different(one: FrameShape, other: FrameShape) -> bool {
    one.format != other.format || one.width != other.width || one.height != other.height
}

/// The input that the converter in use takes after a run of frames.
pub open spec fn rescaler_input(existing: Option<FrameShape>, frames: Seq<FrameShape>) -> Option<
    FrameShape,
>
    decreases frames.len(),
{
    if frames.len() == 0 {
        existing
    } else if rescaler_input(existing, frames.drop_last()) != Some(frames.last()) {
        Some(rescaler_setup(frames.last()).input)
    } else {
        rescaler_input(existing, frames.drop_last())
    }
}

/// After any run of frames the converter in use fits the last one and keeps
/// its size, and the next frame needs a new one exactly when its format or
/// size is another.
pub proof fn law_rescaler_fits_the_frame(existing: Option<FrameShape>, frames: Seq<FrameShape>)
    requires
        frames.len() > 0,
    ensures
        rescaler_input(existing, frames) == Some(frames.last()),
        rescaler_setup(rescaler_input(existing, frames)->0).output_width == frames.last().width,
        rescaler_setup(rescaler_input(existing, frames)->0).output_height == frames.last().height,
        forall|next: FrameShape|
            (rescaler_input(existing, frames) != Some(next)) <==> #[trigger] different(
                frames.last(),
                next,
            ),
        forall|next: FrameShape|
            #[trigger] different(frames.last(), next) <==> next.format
                != frames.last().format || next.width != frames.last().width || next.height
                != frames.last().height,
{
}

} // verus!
