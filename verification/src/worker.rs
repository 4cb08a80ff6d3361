//! The thumbnail worker: from the decoded image of one file to a bitmap
//! that fits the envelope, or to the reason why there is none.

use crate::codec::{grid_len, samplable, shrink_rgba8, span, thumbnail_pixels};
use crate::error::Error;
use crate::geometry::{fitted, lemma_fitted, lemma_product_fits, Envelope};
use vstd::prelude::*;

verus! {

/// Why a file gave no thumbnail.
#[derive(Clone, Copy, Debug, PartialEq, Eq, Structural)]
pub enum FailureKind {
    /// The file could not be read.
    Unreadable,
    /// The contents are in no format that is supported, or are corrupt.
    InvalidImage,
    /// The decoded image has no pixels.
    EmptyImage,
}

/// A decoded image as 8-bit RGBA samples, row by row from the top left. The
/// samples of the image are the first `4 * width * height` of `pixels`.
#[derive(Debug, Clone)]
pub struct RawImage {
    pub width: u32,
    pub height: u32,
    pub pixels: Vec<u8>,
}

/// A thumbnail: 8-bit RGBA samples, row by row from the top left, tightly
/// packed.
#[derive(Debug, Clone)]
pub struct Bitmap {
    pub width: u32,
    pub height: u32,
    pub pixels: Vec<u8>,
}

/// A `Bitmap` as a mathematical value.
pub struct BitmapView {
    pub width: int,
    pub height: int,
    pub pixels: Seq<u8>,
}

impl BitmapView {
    /// The bitmap has pixels, and exactly four samples for each.
    pub open spec fn wf(self) -> bool {
        &&& 1 <= self.width
        &&& 1 <= self.height
        &&& self.pixels.len() == grid_len(self.width, self.height)
    }

    /// The bitmap lies inside `envelope`.
    pub open spec fn within(self, envelope: Envelope) -> bool {
        self.width <= envelope.width_limit() && self.height <= envelope.height_limit()
    }
}

impl View for Bitmap {
    type V = BitmapView;

    open spec fn view(&self) -> BitmapView {
        BitmapView { width: self.width as int, height: self.height as int, pixels: self.pixels@ }
    }
}

/// What the worker made of one file.
#[derive(Debug, Clone)]
pub enum ThumbnailOutcome {
    Bitmap(Bitmap),
    Failed(FailureKind),
}

/// A `ThumbnailOutcome` as a mathematical value.
pub enum OutcomeView {
    Bitmap(BitmapView),
    Failed(FailureKind),
}

impl View for ThumbnailOutcome {
    type V = OutcomeView;

    open spec fn view(&self) -> OutcomeView {
        match self {
            ThumbnailOutcome::Bitmap(bitmap) => OutcomeView::Bitmap(bitmap@),
            ThumbnailOutcome::Failed(kind) => OutcomeView::Failed(*kind),
        }
    }
}

/// The length that one step of sampling takes a side of `len` pixels to on
/// its way down to `target`: a good thousandth of the side, or `target`
/// where that is already as long.
pub open spec fn step_len(len: int, target: int) -> int {
    let part = len / 1024 + 1;
    if part < target {
        target
    } else {
        part
    }
}

/// The samples of a grid of `width` by `height` pixels, sampled down to
/// `new_width` by `new_height`.
///
/// Where the sizes are `samplable` that is one call of
/// `image::imageops::thumbnail`. Where the blocks of one call would be too
/// large to sum, the grid is first taken down by a factor of up to 1024 on
/// each axis, and the result is sampled down in turn. Such a step always
/// makes the grid smaller (`lemma_step_is_samplable`), so the last branch
/// is never taken.
pub open spec fn sampled(
    width: int,
    height: int,
    pixels: Seq<u8>,
    new_width: int,
    new_height: int,
) -> Seq<u8>
    decreases width + height,
{
    if samplable(width, height, new_width, new_height) {
        thumbnail_pixels(width as u32, height as u32, pixels, new_width as u32, new_height as u32)
    } else {
        let mid_width = step_len(width, new_width);
        let mid_height = step_len(height, new_height);
        if 0 <= mid_width + mid_height < width + height {
            sampled(
                mid_width,
                mid_height,
                thumbnail_pixels(
                    width as u32,
                    height as u32,
                    pixels,
                    mid_width as u32,
                    mid_height as u32,
                ),
                new_width,
                new_height,
            )
        } else {
            pixels
        }
    }
}

/// The thumbnail of a decoded grid of `width` by `height` pixels.
///
/// A grid without pixels and a grid with fewer samples than its size asks
/// for give a failure. A grid that fits the envelope is the thumbnail, as it
/// is. Any other is sampled down to its fitted size.
pub open spec fn thumbnail_outcome(
    width: u32,
    height: u32,
    pixels: Seq<u8>,
    envelope: Envelope,
) -> OutcomeView {
    if width == 0 || height == 0 {
        OutcomeView::Failed(FailureKind::EmptyImage)
    } else if pixels.len() < grid_len(width as int, height as int) {
        OutcomeView::Failed(FailureKind::InvalidImage)
    } else {
        let grid = pixels.take(grid_len(width as int, height as int));
        let size = fitted(
            width as int,
            height as int,
            envelope.width_limit(),
            envelope.height_limit(),
        );
        if size == (width as int, height as int) {
            OutcomeView::Bitmap(
                BitmapView { width: width as int, height: height as int, pixels: grid },
            )
        } else {
            OutcomeView::Bitmap(
                BitmapView {
                    width: size.0,
                    height: size.1,
                    pixels: sampled(width as int, height as int, grid, size.0, size.1),
                },
            )
        }
    }
}

/// What the worker makes of one file, given what reading and decoding it
/// gave: a file that could not be read is unreadable, a file that could not
/// be decoded fails the way the decoding failed, and a decoded image gives
/// its thumbnail.
pub open spec fn processed(
    decoded: Result<Result<RawImage, FailureKind>, Error>,
    envelope: Envelope,
) -> OutcomeView {
    match decoded {
        Err(_) => OutcomeView::Failed(FailureKind::Unreadable),
        Ok(Err(kind)) => OutcomeView::Failed(kind),
        Ok(Ok(image)) => thumbnail_outcome(image.width, image.height, image.pixels@, envelope),
    }
}

/// Every grid that has pixels and all its samples gives a bitmap, whatever
/// its size, and only such a grid does. The bitmap has the grid's fitted
/// size: it lies inside the envelope and is never larger than the grid. A
/// grid that fits the envelope comes out with the samples it came in with.
pub proof fn lemma_thumbnail_size(width: u32, height: u32, pixels: Seq<u8>, envelope: Envelope)
    requires
        envelope.wf(),
    ensures
        thumbnail_outcome(width, height, pixels, envelope) is Bitmap <==> 1 <= width && 1
            <= height && grid_len(width as int, height as int) <= pixels.len(),
        thumbnail_outcome(width, height, pixels, envelope) matches OutcomeView::Bitmap(bitmap) ==> {
            &&& (bitmap.width, bitmap.height) == fitted(
                width as int,
                height as int,
                envelope.width_limit(),
                envelope.height_limit(),
            )
            &&& bitmap.within(envelope)
            &&& 1 <= bitmap.width <= width
            &&& 1 <= bitmap.height <= height
            &&& (width <= envelope.width_limit() && height <= envelope.height_limit()
                ==> bitmap.width == width && bitmap.height == height && bitmap.pixels
                == pixels.take(grid_len(width as int, height as int)) && bitmap.wf())
        },
{
    if width >= 1 && height >= 1 {
        lemma_fitted(width as int, height as int, envelope.width_limit(), envelope.height_limit());
    }
}

/// Which grids give which failure: one without pixels is empty, and one with
/// too few samples is invalid. No grid gives any other failure.
pub proof fn lemma_thumbnail_failures(
    width: u32,
    height: u32,
    pixels: Seq<u8>,
    envelope: Envelope,
)
    ensures
        ({
            let out = thumbnail_outcome(width, height, pixels, envelope);
            let complete = pixels.len() >= grid_len(width as int, height as int);
            &&& out == OutcomeView::Failed(FailureKind::EmptyImage) <==> width == 0 || height == 0
            &&& out == OutcomeView::Failed(FailureKind::InvalidImage) <==> width > 0 && height > 0
                && !complete
            &&& out != OutcomeView::Failed(FailureKind::Unreadable)
        }),
{
}

/// One step of sampling can always be asked of the crate, ends no lower than
/// the target, and makes the grid smaller wherever the target cannot be
/// reached in one call.
pub proof fn lemma_step_is_samplable(width: int, height: int, new_width: int, new_height: int)
    requires
        1 <= new_width <= width <= u32::MAX,
        1 <= new_height <= height <= u32::MAX,
    ensures
        new_width <= step_len(width, new_width) <= width,
        new_height <= step_len(height, new_height) <= height,
        samplable(width, height, step_len(width, new_width), step_len(height, new_height)),
        !samplable(width, height, new_width, new_height) ==> step_len(width, new_width)
            + step_len(height, new_height) < width + height,
{
    let mid_width = step_len(width, new_width);
    let mid_height = step_len(height, new_height);
    lemma_span_of_step(width, new_width);
    lemma_span_of_step(height, new_height);
    let across = span(width, mid_width);
    let down = span(height, mid_height);
    assert(across * down <= 3071 * 3071) by (nonlinear_arith)
        requires
            0 <= across <= 3071,
            0 <= down <= 3071,
    ;
    if mid_width == width && mid_height == height {
        assert(new_width == width && new_height == height);
        let whole_across = span(width, new_width);
        let whole_down = span(height, new_height);
        assert(width / width == 1 && height / height == 1) by (nonlinear_arith)
            requires
                1 <= width,
                1 <= height,
        ;
        assert(whole_across * whole_down <= 2049 * 2049) by (nonlinear_arith)
            requires
                0 <= whole_across <= 2049,
                0 <= whole_down <= 2049,
        ;
    }
}

/// A step takes a side down by a factor below 1024, so its blocks are at
/// most 3071 pixels long.
proof fn lemma_span_of_step(len: int, target: int)
    requires
        1 <= target <= len <= u32::MAX,
    ensures
        target <= step_len(len, target) <= len,
        1 <= span(len, step_len(len, target)) <= 3071,
{
    let mid = step_len(len, target);
    assert(0 <= len / mid <= 1023) by (nonlinear_arith)
        requires
            1 <= mid,
            0 <= len,
            len < 1024 * mid,
    ;
}

/// `span(len, new_len)`.
fn span_of(len: u32, new_len: u32) -> (most: u32)
    requires
        1 <= new_len <= len,
    ensures
        most == span(len as int, new_len as int),
        1 <= most <= len,
{
    let slack: u64 = if len < 0x100_0000 {
        8
    } else {
        2048
    };
    let widest: u64 = (len / new_len) as u64 + slack;
    if widest < len as u64 {
        widest as u32
    } else {
        len
    }
}

/// Whether `shrink_rgba8` may be asked for this reduction in one call.
fn can_sample(width: u32, height: u32, new_width: u32, new_height: u32) -> (ok: bool)
    requires
        1 <= new_width <= width,
        1 <= new_height <= height,
    ensures
        ok == samplable(width as int, height as int, new_width as int, new_height as int),
{
    let across = span_of(width, new_width);
    let down = span_of(height, new_height);
    proof {
        lemma_product_fits(across, down);
    }
    (across as u64) * (down as u64) < 0x100_0000
}

/// `step_len(len, target)`.
fn step_of(len: u32, target: u32) -> (mid: u32)
    requires
        1 <= target <= len,
    ensures
        mid == step_len(len as int, target as int),
{
    let part = len / 1024 + 1;
    if part < target {
        target
    } else {
        part
    }
}

/// Samples a grid down to `new_width` by `new_height` pixels, in as many
/// calls of `shrink_rgba8` as the size of its blocks asks for.
fn sample_down(width: u32, height: u32, pixels: Vec<u8>, new_width: u32, new_height: u32) -> (out:
    Vec<u8>)
    requires
        1 <= new_width <= width,
        1 <= new_height <= height,
        pixels@.len() == grid_len(width as int, height as int),
    ensures
        out@ == sampled(
            width as int,
            height as int,
            pixels@,
            new_width as int,
            new_height as int,
        ),
        out@.len() == grid_len(new_width as int, new_height as int),
{
    let ghost whole = sampled(
        width as int,
        height as int,
        pixels@,
        new_width as int,
        new_height as int,
    );
    let mut across = width;
    let mut down = height;
    let mut grid = pixels;
    while !can_sample(across, down, new_width, new_height)
        invariant
            1 <= new_width <= across,
            1 <= new_height <= down,
            grid@.len() == grid_len(across as int, down as int),
            sampled(across as int, down as int, grid@, new_width as int, new_height as int)
                == whole,
        decreases across + down,
    {
        proof {
            lemma_step_is_samplable(
                across as int,
                down as int,
                new_width as int,
                new_height as int,
            );
        }
        let mid_width = step_of(across, new_width);
        let mid_height = step_of(down, new_height);
        grid = shrink_rgba8(across, down, grid.as_slice(), mid_width, mid_height);
        across = mid_width;
        down = mid_height;
    }
    shrink_rgba8(across, down, grid.as_slice(), new_width, new_height)
}

/// The thumbnail of a decoded image: a bitmap for every image that has
/// pixels and all its samples, of whatever size.
pub fn thumbnail_of(image: RawImage, envelope: &Envelope) -> (out: ThumbnailOutcome)
    ensures
        out@ == thumbnail_outcome(image.width, image.height, image.pixels@, *envelope),
        out@ is Bitmap <==> 1 <= image.width && 1 <= image.height && grid_len(
            image.width as int,
            image.height as int,
        ) <= image.pixels@.len(),
        out@ matches OutcomeView::Bitmap(bitmap) ==> bitmap.wf() && bitmap.within(*envelope)
            && bitmap.width <= image.width && bitmap.height <= image.height,
{
    let RawImage { width, height, pixels } = image;
    let mut pixels = pixels;
    if width == 0 || height == 0 {
        return ThumbnailOutcome::Failed(FailureKind::EmptyImage);
    }
    proof {
        lemma_product_fits(width, height);
    }
    let area: u128 = (width as u128) * (height as u128);
    let needed: u128 = 4 * area;
    assert(needed == grid_len(width as int, height as int)) by (nonlinear_arith)
        requires
            needed == 4 * ((width as int) * (height as int)),
    ;
    if (pixels.len() as u128) < needed {
        return ThumbnailOutcome::Failed(FailureKind::InvalidImage);
    }
    pixels.truncate(needed as usize);
    let (new_width, new_height) = envelope.fit(width, height);
    if new_width == width && new_height == height {
        ThumbnailOutcome::Bitmap(Bitmap { width, height, pixels })
    } else {
        let pixels = sample_down(width, height, pixels, new_width, new_height);
        ThumbnailOutcome::Bitmap(Bitmap { width: new_width, height: new_height, pixels })
    }
}

/// Makes the thumbnail of one file from what reading and decoding it gave.
/// Every failure is an outcome of its own, and every decoded image that has
/// pixels and all its samples gives a bitmap inside `envelope`.
pub fn process(decoded: Result<Result<RawImage, FailureKind>, Error>, envelope: &Envelope) -> (out:
    ThumbnailOutcome)
    ensures
        out@ == processed(decoded, *envelope),
        out@ is Bitmap <==> (decoded matches Ok(Ok(image)) && 1 <= image.width && 1
            <= image.height && grid_len(image.width as int, image.height as int)
            <= image.pixels@.len()),
        out@ matches OutcomeView::Bitmap(bitmap) ==> bitmap.wf() && bitmap.within(*envelope),
{
    match decoded {
        Err(_) => ThumbnailOutcome::Failed(FailureKind::Unreadable),
        Ok(Err(kind)) => ThumbnailOutcome::Failed(kind),
        Ok(Ok(image)) => thumbnail_of(image, envelope),
    }
}

} // verus!
