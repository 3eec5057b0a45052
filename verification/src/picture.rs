//! Snapshot pictures, from encoded bytes to what the screen shows.

use crate::pixels::{
    image_from_rgba_buffer, image_pixels, no_pixels, rgba_buffer_from_bytes, PixelGrid,
};
use vstd::prelude::*;

verus! {

/// `image::ImageError`, why bytes could not be decoded.
#[verifier::external_type_specification]
#[verifier::external_body]
pub struct ExImageError(image::ImageError);

/// A decoded picture: four bytes (red, green, blue, alpha) for each pixel, row
/// by row from the top.
pub struct RgbaPicture {
    pub width: u32,
    pub height: u32,
    pub bytes: Vec<u8>,
}

impl RgbaPicture {
    /// There are four bytes for each pixel.
    pub open spec fn valid(self) -> bool {
        self.bytes@.len() == self.width * self.height * 4
    }

    /// The picture as a rectangle of pixels.
    pub open spec fn pixels(self) -> PixelGrid {
        PixelGrid { width: self.width, height: self.height, bytes: self.bytes@ }
    }

    /// The picture as the screen shows it.
    pub fn to_image(&self) -> (image: slint::Image)
        requires
            self.valid(),
        ensures
            image_pixels(image) == self.pixels(),
            image_pixels(image).width == self.width,
            image_pixels(image).height == self.height,
            image_pixels(image).bytes == self.bytes@,
    {
        let buffer = rgba_buffer_from_bytes(self.bytes.as_slice(), self.width, self.height);
        image_from_rgba_buffer(buffer)
    }
}

/// A picture has the size it says and the bytes it holds, and it is whole
/// exactly when there are four of them for each pixel.
pub proof fn law_picture_shows_its_bytes(picture: RgbaPicture)
    ensures
        picture.pixels().width == picture.width,
        picture.pixels().height == picture.height,
        picture.pixels().bytes == picture.bytes@,
        picture.valid() <==> picture.bytes@.len() == picture.width * picture.height * 4,
{
}

/// The picture that encoded bytes decode to, with its pixels as RGBA bytes, or
/// `None` where they decode to none.
pub uninterp spec fn decoded_pixels(encoded: Seq<u8>) -> Option<PixelGrid>;

/// `image::load_from_memory`, then `into_rgba8`: guesses the format of the
/// bytes, decodes them and converts the picture to RGBA. What comes out, and
/// whether anything does, is a function of the bytes, as the program registers
/// no decoder of its own. The buffer holds exactly four bytes for each pixel.
/// What the error says is left open.
#[verifier::external_body]
fn decode_rgba8(encoded: &[u8]) -> (decoded: Result<RgbaPicture, image::ImageError>)
    ensures
        match decoded {
            Ok(picture) => picture.valid() && decoded_pixels(encoded@) == Some(picture.pixels()),
            Err(_) => decoded_pixels(encoded@) is None,
        },
{
    let rgba = image::load_from_memory(encoded)?.into_rgba8();
    Ok(RgbaPicture { width: rgba.width(), height: rgba.height(), bytes: rgba.into_raw() })
}

/// Why a snapshot cannot be shown.
#[derive(Debug)]
pub struct DecodeError {
    /// What the decoder said.
    pub cause: image::ImageError,
}

/// What is shown of a decoder's answer.
pub fn shown_picture(decoded: Result<RgbaPicture, image::ImageError>) -> (shown: Result<
    slint::Image,
    DecodeError,
>)
    requires
        decoded matches Ok(picture) ==> picture.valid(),
    ensures
        match decoded {
            Ok(picture) => shown matches Ok(image) && image_pixels(image) == picture.pixels()
                && image_pixels(image).width == picture.width && image_pixels(image).height
                == picture.height && image_pixels(image).bytes == picture.bytes@,
            Err(error) => shown matches Err(reason) && reason.cause == error,
        },
{
    match decoded {
        Ok(picture) => Ok(picture.to_image()),
        Err(error) => Err(DecodeError { cause: error }),
    }
}

/// Decodes a picture: the image holds the pixels that the bytes decode to, and
/// there is an error where they decode to none.
pub fn decode_image_bytes(bytes: &[u8]) -> (shown: Result<slint::Image, DecodeError>)
    ensures
        match decoded_pixels(bytes@) {
            Some(pixels) => shown matches Ok(image) && image_pixels(image) == pixels,
            None => shown is Err,
        },
{
    shown_picture(decode_rgba8(bytes))
}

/// The snapshot to show: the picture that was loaded, or one without pixels
/// where that failed.
pub fn snapshot_or_empty<E>(loaded: Result<slint::Image, E>) -> (snapshot: slint::Image)
    ensures
        match loaded {
            Ok(image) => snapshot == image,
            Err(_) => image_pixels(snapshot) == no_pixels() && image_pixels(snapshot).width == 0
                && image_pixels(snapshot).height == 0 && image_pixels(snapshot).bytes.len() == 0,
        },
{
    match loaded {
        Ok(image) => image,
        Err(_) => Default::default(),
    }
}

} // verus!
