//! Pixel buffers and pictures of the UI toolkit, and what they hold.

use vstd::prelude::*;

verus! {

/// A rectangle of pixels, row by row from the top, each pixel as its channel
/// bytes in order.
#[verifier::ext_equal]
pub struct PixelGrid {
    pub width: u32,
    pub height: u32,
    pub bytes: Seq<u8>,
}

/// `slint::SharedPixelBuffer`, a reference-counted container of pixels.
#[verifier::external_type_specification]
#[verifier::external_body]
#[verifier::reject_recursive_types(Pixel)]
pub struct ExSharedPixelBuffer<Pixel>(slint::SharedPixelBuffer<Pixel>);

/// `rgb::Rgb`, the pixel type behind `slint::Rgb8Pixel`.
#[verifier::external_type_specification]
#[verifier::external_body]
#[verifier::reject_recursive_types(T)]
pub struct ExRgb<T>(rgb::Rgb<T>);

/// What a buffer of red, green and blue bytes holds.
pub uninterp spec fn rgb_pixels(buffer: slint::SharedPixelBuffer<slint::Rgb8Pixel>) -> PixelGrid;

/// `slint::SharedPixelBuffer::new` for RGB pixels: a buffer of the given size
/// in which every byte is zero, the default of each channel. The size in
/// bytes has to leave room for the buffer's header within one allocation.
#[verifier::external_body]
pub(crate) fn new_rgb_buffer(width: u32, height: u32) -> (buffer: slint::SharedPixelBuffer<
    slint::Rgb8Pixel,
>)
    requires
        width * height * 3 + 64 <= isize::MAX,
    ensures
        rgb_pixels(buffer).width == width,
        rgb_pixels(buffer).height == height,
        rgb_pixels(buffer).bytes == Seq::new((width * height * 3) as nat, |i: int| 0u8),
{
    slint::SharedPixelBuffer::<slint::Rgb8Pixel>::new(width, height)
}

/// `slint::SharedPixelBuffer::make_mut_bytes` for RGB pixels: the bytes of the
/// buffer, to be written in place. The size stays as it is.
#[verifier::external_body]
pub(crate) fn rgb_bytes_mut(buffer: &mut slint::SharedPixelBuffer<slint::Rgb8Pixel>) -> (bytes:
    &mut [u8])
    ensures
        bytes@ == rgb_pixels(*old(buffer)).bytes,
        rgb_pixels(*final(buffer)).bytes == final(bytes)@,
        rgb_pixels(*final(buffer)).width == rgb_pixels(*old(buffer)).width,
        rgb_pixels(*final(buffer)).height == rgb_pixels(*old(buffer)).height,
{
    buffer.make_mut_bytes()
}

/// `rgb::Rgba`, the pixel type behind `slint::Rgba8Pixel`.
#[verifier::external_type_specification]
#[verifier::external_body]
#[verifier::reject_recursive_types(T)]
#[verifier::reject_recursive_types(A)]
pub struct ExRgba<T, A>(rgb::Rgba<T, A>);

/// What a buffer of red, green, blue and alpha bytes holds.
pub uninterp spec fn rgba_pixels(buffer: slint::SharedPixelBuffer<slint::Rgba8Pixel>) -> PixelGrid;

/// `slint::SharedPixelBuffer::clone_from_slice` from bytes to RGBA pixels: a
/// buffer of the given size that holds the bytes as they are. There have to be
/// exactly four for each pixel.
#[verifier::external_body]
pub(crate) fn rgba_buffer_from_bytes(bytes: &[u8], width: u32, height: u32) -> (buffer:
    slint::SharedPixelBuffer<slint::Rgba8Pixel>)
    requires
        bytes@.len() == width * height * 4,
    ensures
        rgba_pixels(buffer).width == width,
        rgba_pixels(buffer).height == height,
        rgba_pixels(buffer).bytes == bytes@,
{
    slint::SharedPixelBuffer::<slint::Rgba8Pixel>::clone_from_slice(bytes, width, height)
}

/// `slint::Image`, a reference-counted picture.
#[verifier::external_type_specification]
#[verifier::external_body]
pub struct ExImage(slint::Image);

/// The pixels that a picture holds, as RGBA bytes; none for a picture without
/// any.
pub uninterp spec fn image_pixels(image: slint::Image) -> PixelGrid;

/// `slint::Image::from_rgba8`: the picture that holds the buffer's pixels.
#[verifier::external_body]
pub(crate) fn image_from_rgba_buffer(buffer: slint::SharedPixelBuffer<slint::Rgba8Pixel>) -> (image:
    slint::Image)
    ensures
        image_pixels(image) == rgba_pixels(buffer),
{
    slint::Image::from_rgba8(buffer)
}

/// RGB pixels as RGBA pixels that hide what is behind them.
pub open spec fn opaque(rgb: PixelGrid) -> PixelGrid {
    PixelGrid {
        width: rgb.width,
        height: rgb.height,
        bytes: Seq::new(
            (rgb.width * rgb.height * 4) as nat,
            |i: int|
                if i % 4 == 3 {
                    255
                } else {
                    rgb.bytes[i / 4 * 3 + i % 4]
                },
        ),
    }
}

/// Opaque pixels keep their size and their colours, pixel by pixel.
pub proof fn law_opaque_keeps_colours(rgb: PixelGrid, pixel: int, c: int)
    requires
        0 <= pixel < rgb.width * rgb.height,
        0 <= c < 3,
    ensures
        opaque(rgb).width == rgb.width,
        opaque(rgb).height == rgb.height,
        opaque(rgb).bytes.len() == rgb.width * rgb.height * 4,
        opaque(rgb).bytes[pixel * 4 + c] == rgb.bytes[pixel * 3 + c],
        opaque(rgb).bytes[pixel * 4 + 3] == 255,
{
}

/// `slint::Image::from_rgb8`: the picture that holds the buffer's pixels, each
/// fully opaque.
#[verifier::external_body]
pub(crate) fn image_from_rgb_buffer(buffer: slint::SharedPixelBuffer<slint::Rgb8Pixel>) -> (image:
    slint::Image)
    ensures
        image_pixels(image) == opaque(rgb_pixels(buffer)),
{
    slint::Image::from_rgb8(buffer)
}

/// The size and contents of a picture without pixels.
pub open spec fn no_pixels() -> PixelGrid {
    PixelGrid { width: 0, height: 0, bytes: Seq::empty() }
}

/// A picture without pixels has no width, no height and no bytes.
pub proof fn law_no_pixels_is_empty()
    ensures
        no_pixels().width == 0,
        no_pixels().height == 0,
        no_pixels().bytes.len() == 0,
{
}

/// `slint::Image::default`: a picture without pixels, of width and height
/// zero.
pub assume_specification[ <slint::Image as Default>::default ]() -> (image: slint::Image)
    ensures
        image_pixels(image) == no_pixels(),
;

/// `slint::Image::clone`: a picture that holds the same pixels.
pub assume_specification[ <slint::Image as Clone>::clone ](image: &slint::Image) -> (copy:
    slint::Image)
    ensures
        image_pixels(copy) == image_pixels(*image),
;

} // verus!
