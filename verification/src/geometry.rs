//! The envelope that every thumbnail has to fit into, and the size an image
//! is given so that it fits.

use vstd::prelude::*;

verus! {

/// Width of the envelope that thumbnails are fitted into, in pixels.
pub const THUMBNAIL_WIDTH: u32 = 500;

/// Height of the envelope that thumbnails are fitted into, in pixels.
pub const THUMBNAIL_HEIGHT: u32 = 500;

/// `len * num / den` rounded to the nearest integer, halves upward, and
/// never below one pixel.
pub open spec fn scaled(len: int, num: int, den: int) -> int {
    let nearest = (2 * len * num + den) / (2 * den);
    if nearest < 1 {
        1
    } else {
        nearest
    }
}

/// Whether `max_width / width` is the smaller of the two scale factors
/// `max_width / width` and `max_height / height` (or equal to the other).
pub open spec fn width_limits(width: int, height: int, max_width: int, max_height: int) -> bool {
    max_width * height <= max_height * width
}

/// The size at which an image of `width` by `height` pixels is shown inside
/// an envelope of `max_width` by `max_height`.
///
/// An image that fits keeps its size. Any other is scaled by the smaller of
/// the two factors `max_width / width` and `max_height / height`: the side
/// that the factor belongs to takes the envelope's length exactly, the other
/// side is rounded to the nearest pixel.
pub open spec fn fitted(width: int, height: int, max_width: int, max_height: int) -> (int, int) {
    if width <= max_width && height <= max_height {
        (width, height)
    } else if width_limits(width, height, max_width, max_height) {
        (max_width, scaled(height, max_width, width))
    } else {
        (scaled(width, max_height, height), max_height)
    }
}

/// A scaled length is at least one, at most the length it came from, and
/// at most `bound` wherever the exact quotient is.
pub proof fn lemma_scaled_bounds(len: int, num: int, den: int, bound: int)
    requires
        1 <= len,
        1 <= num <= den,
        1 <= bound,
        len * num <= bound * den,
    ensures
        1 <= scaled(len, num, den) <= len,
        scaled(len, num, den) <= bound,
{
    let nearest = (2 * len * num + den) / (2 * den);
    assert(nearest <= len && nearest <= bound) by (nonlinear_arith)
        requires
            nearest == (2 * len * num + den) / (2 * den),
            1 <= len,
            1 <= num <= den,
            1 <= bound,
            len * num <= bound * den,
    ;
}

/// A scaled length is the integer nearest to the exact quotient, unless the
/// quotient is below half a pixel, where it is one.
pub proof fn lemma_scaled_is_nearest(len: int, num: int, den: int)
    requires
        0 <= len,
        0 <= num,
        1 <= den,
    ensures
        ({
            let s = scaled(len, num, den);
            ||| (s == 1 && 2 * len * num < den)
            ||| (2 * len * num - den < 2 * s * den <= 2 * len * num + den)
        }),
{
    let nearest = (2 * len * num + den) / (2 * den);
    assert(0 <= nearest && 2 * nearest * den <= 2 * len * num + den < 2 * nearest * den + 2 * den)
        by (nonlinear_arith)
        requires
            nearest == (2 * len * num + den) / (2 * den),
            0 <= len,
            0 <= num,
            1 <= den,
    ;
    if nearest < 1 {
        assert(2 * len * num < den) by (nonlinear_arith)
            requires
                nearest <= 0,
                1 <= den,
                2 * len * num + den < 2 * nearest * den + 2 * den,
        ;
    }
}

/// What holds of every fitted size: it lies inside the envelope, it is never
/// larger than the image, no side vanishes, an image that fits is left as it
/// is, and an image that does not fit touches the envelope on one side.
pub proof fn lemma_fitted(width: int, height: int, max_width: int, max_height: int)
    requires
        1 <= width,
        1 <= height,
        1 <= max_width,
        1 <= max_height,
    ensures
        ({
            let (w, h) = fitted(width, height, max_width, max_height);
            &&& 1 <= w <= width
            &&& 1 <= h <= height
            &&& w <= max_width
            &&& h <= max_height
            &&& (width <= max_width && height <= max_height ==> w == width && h == height)
            &&& (!(width <= max_width && height <= max_height) ==> w == max_width || h == max_height)
        }),
{
    if width <= max_width && height <= max_height {
    } else if width_limits(width, height, max_width, max_height) {
        assert(max_width <= width) by (nonlinear_arith)
            requires
                max_width * height <= max_height * width,
                !(width <= max_width && height <= max_height),
                1 <= width,
                1 <= height,
                1 <= max_width,
                1 <= max_height,
        ;
        lemma_scaled_bounds(height, max_width, width, max_height);
    } else {
        assert(max_height <= height && width * max_height <= max_width * height)
            by (nonlinear_arith)
            requires
                max_width * height > max_height * width,
                !(width <= max_width && height <= max_height),
                1 <= width,
                1 <= height,
                1 <= max_width,
                1 <= max_height,
        ;
        lemma_scaled_bounds(width, max_height, height, max_width);
    }
}

/// Fitting keeps the aspect ratio as far as whole pixels allow: the side
/// that the smaller factor belongs to takes the envelope's length, and the
/// other side is within half a pixel of its exact length, or is the one
/// pixel that no side goes below.
pub proof fn lemma_fitted_keeps_ratio(width: int, height: int, max_width: int, max_height: int)
    requires
        1 <= width,
        1 <= height,
        1 <= max_width,
        1 <= max_height,
        !(width <= max_width && height <= max_height),
    ensures
        ({
            let (w, h) = fitted(width, height, max_width, max_height);
            if width_limits(width, height, max_width, max_height) {
                &&& w == max_width
                &&& (h == 1 || 2 * height * max_width - width < 2 * h * width <= 2 * height
                    * max_width + width)
            } else {
                &&& h == max_height
                &&& (w == 1 || 2 * width * max_height - height < 2 * w * height <= 2 * width
                    * max_height + height)
            }
        }),
{
    if width_limits(width, height, max_width, max_height) {
        lemma_scaled_is_nearest(height, max_width, width);
    } else {
        lemma_scaled_is_nearest(width, max_height, height);
    }
}

/// The product of two 32-bit lengths fits in 64 bits.
pub proof fn lemma_product_fits(a: u32, b: u32)
    ensures
        0 <= (a as int) * (b as int) <= 0xffff_fffe_0000_0001,
{
    assert(0 <= (a as int) * (b as int) <= 0xffff_ffff * 0xffff_ffff) by (nonlinear_arith)
        requires
            0 <= a <= 0xffff_ffff,
            0 <= b <= 0xffff_ffff,
    ;
}

/// `scaled(len, num, den)` for a factor `num / den` of at most one.
fn scale(len: u32, num: u32, den: u32) -> (r: u32)
    requires
        1 <= len,
        1 <= num <= den,
    ensures
        r == scaled(len as int, num as int, den as int),
{
    proof {
        lemma_product_fits(len, num);
    }
    let product: u64 = (len as u64) * (num as u64);
    let nearest: u128 = (2 * (product as u128) + (den as u128)) / (2 * (den as u128));
    proof {
        assert(product == (len as int) * (num as int));
        assert(2 * (len as int) * (num as int) == 2 * product) by (nonlinear_arith)
            requires
                product == (len as int) * (num as int),
        ;
        assert((len as int) * (num as int) <= (len as int) * (den as int)) by (nonlinear_arith)
            requires
                1 <= len,
                num <= den,
        ;
        lemma_scaled_bounds(len as int, num as int, den as int, len as int);
    }
    if nearest < 1 {
        1
    } else {
        nearest as u32
    }
}

/// The largest size a thumbnail may have: at least one pixel each way.
#[derive(Clone, Copy, Debug)]
pub struct Envelope {
    max_width: u32,
    max_height: u32,
}

impl Envelope {
    /// The largest width a thumbnail may have.
    pub closed spec fn width_limit(self) -> int {
        self.max_width as int
    }

    /// The largest height a thumbnail may have.
    pub closed spec fn height_limit(self) -> int {
        self.max_height as int
    }

    /// No side of an envelope is empty.
    #[verifier::type_invariant]
    pub open spec fn wf(self) -> bool {
        1 <= self.width_limit() && 1 <= self.height_limit()
    }

    /// An envelope of the given size, unless one of its sides would be empty.
    pub fn new(max_width: u32, max_height: u32) -> (res: Option<Envelope>)
        ensures
            res is Some <==> 1 <= max_width && 1 <= max_height,
            res matches Some(e) ==> e.wf() && e.width_limit() == max_width && e.height_limit()
                == max_height,
    {
        if max_width >= 1 && max_height >= 1 {
            Some(Envelope { max_width, max_height })
        } else {
            None
        }
    }

    /// The envelope of `THUMBNAIL_WIDTH` by `THUMBNAIL_HEIGHT` pixels.
    pub fn thumbnail() -> (e: Envelope)
        ensures
            e.wf(),
            e.width_limit() == THUMBNAIL_WIDTH,
            e.height_limit() == THUMBNAIL_HEIGHT,
    {
        Envelope { max_width: THUMBNAIL_WIDTH, max_height: THUMBNAIL_HEIGHT }
    }

    /// The largest width a thumbnail may have, in pixels.
    pub fn max_width(&self) -> (w: u32)
        ensures
            w == self.width_limit(),
            1 <= w,
    {
        proof {
            use_type_invariant(self);
        }
        self.max_width
    }

    /// The largest height a thumbnail may have, in pixels.
    pub fn max_height(&self) -> (h: u32)
        ensures
            h == self.height_limit(),
            1 <= h,
    {
        proof {
            use_type_invariant(self);
        }
        self.max_height
    }

    /// The size at which an image of `width` by `height` pixels is shown
    /// inside this envelope.
    pub fn fit(&self, width: u32, height: u32) -> (size: (u32, u32))
        requires
            1 <= width,
            1 <= height,
        ensures
            (size.0 as int, size.1 as int) == fitted(
                width as int,
                height as int,
                self.width_limit(),
                self.height_limit(),
            ),
            1 <= size.0 <= width,
            1 <= size.1 <= height,
            size.0 <= self.width_limit(),
            size.1 <= self.height_limit(),
    {
        proof {
            use_type_invariant(self);
            lemma_fitted(width as int, height as int, self.width_limit(), self.height_limit());
            lemma_product_fits(self.max_width, height);
            lemma_product_fits(self.max_height, width);
        }
        if width <= self.max_width && height <= self.max_height {
            (width, height)
        } else if (self.max_width as u64) * (height as u64) <= (self.max_height as u64) * (
        width as u64) {
            assert(self.max_width <= width) by (nonlinear_arith)
                requires
                    (self.max_width as int) * (height as int) <= (self.max_height as int) * (
                    width as int),
                    !(width <= self.max_width && height <= self.max_height),
                    1 <= height,
                    1 <= self.max_width,
            ;
            (self.max_width, scale(height, self.max_width, width))
        } else {
            assert(self.max_height <= height) by (nonlinear_arith)
                requires
                    (self.max_width as int) * (height as int) > (self.max_height as int) * (
                    width as int),
                    !(width <= self.max_width && height <= self.max_height),
                    1 <= width,
                    1 <= self.max_height,
            ;
            (scale(width, self.max_height, height), self.max_height)
        }
    }
}

} // verus!
