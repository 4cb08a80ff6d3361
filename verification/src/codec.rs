//! The calls into the `image` and `mime_guess` crates: sampling a grid of
//! pixels down, and guessing a media type from a path. Nothing here is
//! proved: each contract is read off the crate's source.

use vstd::prelude::*;

verus! {

/// Number of samples of an RGBA grid of `width` by `height` pixels.
pub open spec fn grid_len(width: int, height: int) -> int {
    4 * width * height
}

/// The samples of the image of `new_width` by `new_height` pixels that
/// `image::imageops::thumbnail` makes of an RGBA grid of `width` by `height`
/// pixels.
pub uninterp spec fn thumbnail_pixels(
    width: u32,
    height: u32,
    pixels: Seq<u8>,
    new_width: u32,
    new_height: u32,
) -> Seq<u8>;

/// The top-level type ("image", "text", ...) of the media type that
/// `mime_guess::MimeGuess::from_path` has first for the extension of `path`;
/// `None` where it has no guess.
pub uninterp spec fn guessed_media_type(path: Seq<char>) -> Option<Seq<char>>;

/// How many pixels the rounding of the `f32` coordinates inside
/// `image::imageops::thumbnail` can add to one side of a block: the
/// coordinates along a side of fewer than 2^24 pixels are exact to a few
/// units in the last place, those along a longer side to a few hundred
/// pixels.
pub open spec fn slack(len: int) -> int {
    if len < 0x100_0000 {
        8
    } else {
        2048
    }
}

/// The most source pixels along one side that `image::imageops::thumbnail`
/// gathers into one block when it takes a side of `len` pixels down to
/// `new_len`: the reduction factor and the slack, and never more than the
/// side has.
pub open spec fn span(len: int, new_len: int) -> int {
    let widest = len / new_len + slack(len);
    if widest < len {
        widest
    } else {
        len
    }
}

/// Sizes between which `image::imageops::thumbnail` can be asked to sample:
/// a reduction, or no change, on each axis, with blocks of fewer than 2^24
/// source pixels, so that the sum of a block's samples stays inside the
/// 32-bit counter that the crate adds them up in.
pub open spec fn samplable(width: int, height: int, new_width: int, new_height: int) -> bool {
    &&& 1 <= new_width <= width <= u32::MAX
    &&& 1 <= new_height <= height <= u32::MAX
    &&& span(width, new_width) * span(height, new_height) < 0x100_0000
}

/// Samples an RGBA grid down with `image::imageops::thumbnail`.
///
/// Trusted: the result depends on the arguments alone and holds exactly
/// `new_width` by `new_height` pixels. The crate never reads outside the
/// grid; the `requires` keeps the call to sizes on which it cannot overflow
/// the sum of a block either.
#[verifier::external_body]
pub(crate) fn shrink_rgba8(
    width: u32,
    height: u32,
    pixels: &[u8],
    new_width: u32,
    new_height: u32,
) -> (res: Vec<u8>)
    requires
        pixels@.len() == grid_len(width as int, height as int),
        samplable(width as int, height as int, new_width as int, new_height as int),
    ensures
        res@ == thumbnail_pixels(width, height, pixels@, new_width, new_height),
        res@.len() == grid_len(new_width as int, new_height as int),
{
    let source = image::ImageBuffer::<image::Rgba<u8>, &[u8]>::from_raw(width, height, pixels)
        .expect("the grid holds width * height pixels");
    image::imageops::thumbnail(&source, new_width, new_height).into_raw()
}

/// Asks `mime_guess::MimeGuess::from_path(path).first()` and hands out the
/// top-level type of the answer, `Mime::type_`, as text.
///
/// Trusted: the guess depends on `path` alone.
#[verifier::external_body]
pub(crate) fn guess_media_type(path: &str) -> (res: Option<String>)
    ensures
        match res {
            Some(name) => guessed_media_type(path@) == Some(name@),
            None => guessed_media_type(path@) is None,
        },
{
    match mime_guess::MimeGuess::from_path(path).first() {
        Some(mime) => Some(mime.type_().as_str().to_owned()),
        None => None,
    }
}

} // verus!
