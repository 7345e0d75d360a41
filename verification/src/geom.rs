//! Integer plane geometry and colour helpers: pixel points, rectangles, and
//! the RGBA colour with the gradient blend the sound visualiser uses.

use vstd::prelude::*;

verus! {

/// A pixel-space point.
#[derive(Clone, Copy, Debug, PartialEq, Eq, Structural)]
pub struct Point {
    pub x: i32,
    pub y: i32,
}

impl Point {
    /// The origin.
    pub fn zero() -> (r: Point)
        ensures
            r.x == 0 && r.y == 0,
    {
        Point { x: 0, y: 0 }
    }

    /// Whether both coordinates are zero.
    pub fn is_zero(&self) -> (r: bool)
        ensures
            r == (self.x == 0 && self.y == 0),
    {
        self.x == 0 && self.y == 0
    }

    /// The point itself, unless it is the origin.
    pub fn nonzero(self) -> (r: Option<Point>)
        ensures
            r is Some <==> !(self.x == 0 && self.y == 0),
            r is Some ==> r->0 == self,
    {
        if self.is_zero() {
            None
        } else {
            Some(self)
        }
    }

    /// Componentwise checked addition; `None` exactly when either coordinate
    /// escapes the machine range.
    pub fn checked_add(self, rhs: Point) -> (r: Option<Point>)
        ensures
            r is Some <==> (i32::MIN as int <= self.x + rhs.x <= i32::MAX as int
                && i32::MIN as int <= self.y + rhs.y <= i32::MAX as int),
            r is Some ==> (r->0).x == self.x + rhs.x && (r->0).y == self.y + rhs.y,
    {
        match self.x.checked_add(rhs.x) {
            Some(x) => match self.y.checked_add(rhs.y) {
                Some(y) => Some(Point { x, y }),
                None => None,
            },
            None => None,
        }
    }

    /// Componentwise checked subtraction.
    pub fn checked_sub(self, rhs: Point) -> (r: Option<Point>)
        ensures
            r is Some <==> (i32::MIN as int <= self.x - rhs.x <= i32::MAX as int
                && i32::MIN as int <= self.y - rhs.y <= i32::MAX as int),
            r is Some ==> (r->0).x == self.x - rhs.x && (r->0).y == self.y - rhs.y,
    {
        match self.x.checked_sub(rhs.x) {
            Some(x) => match self.y.checked_sub(rhs.y) {
                Some(y) => Some(Point { x, y }),
                None => None,
            },
            None => None,
        }
    }

    /// Componentwise checked negation.
    pub fn checked_neg(self) -> (r: Option<Point>)
        ensures
            r is Some <==> (self.x != i32::MIN && self.y != i32::MIN),
            r is Some ==> (r->0).x == -self.x && (r->0).y == -self.y,
    {
        if self.x == i32::MIN || self.y == i32::MIN {
            None
        } else {
            Some(Point { x: -self.x, y: -self.y })
        }
    }

    /// Maps the point from one pixel space into another: each coordinate is
    /// scaled by the ratio of the spaces' extents and re-based, truncated.
    pub fn normalise(self, old_space: Rect, new_space: Rect) -> (r: Point)
        requires
            old_space.0.x < old_space.1.x,
            old_space.0.y < old_space.1.y,
            old_space.0.x <= self.x <= old_space.1.x,
            old_space.0.y <= self.y <= old_space.1.y,
            0 <= new_space.1.x - new_space.0.x,
            0 <= new_space.1.y - new_space.0.y,
        ensures
            r.x as int == (self.x - old_space.0.x) * (new_space.1.x - new_space.0.x) / (
            old_space.1.x - old_space.0.x) + new_space.0.x,
            r.y as int == (self.y - old_space.0.y) * (new_space.1.y - new_space.0.y) / (
            old_space.1.y - old_space.0.y) + new_space.0.y,
    {
        let x = Self::scale_axis(
            self.x,
            old_space.0.x,
            old_space.1.x,
            new_space.0.x,
            new_space.1.x,
        );
        let y = Self::scale_axis(
            self.y,
            old_space.0.y,
            old_space.1.y,
            new_space.0.y,
            new_space.1.y,
        );
        Point { x, y }
    }

    /// One axis of [`Point::normalise`].
    fn scale_axis(v: i32, o0: i32, o1: i32, n0: i32, n1: i32) -> (r: i32)
        requires
            o0 < o1,
            o0 <= v <= o1,
            0 <= n1 - n0,
        ensures
            r as int == (v - o0) * (n1 - n0) / (o1 - o0) + n0,
    {
        proof {
            vstd::arithmetic::mul::lemma_mul_nonnegative(v - o0, n1 - n0);
            vstd::arithmetic::mul::lemma_mul_upper_bound(
                v - o0,
                0x1_0000_0000,
                n1 - n0,
                0x1_0000_0000,
            );
        }
        let num: i128 = (v as i128 - o0 as i128) * (n1 as i128 - n0 as i128);
        let den: i128 = o1 as i128 - o0 as i128;
        proof {
            vstd::arithmetic::mul::lemma_mul_nonnegative(v - o0, n1 - n0);
            vstd::arithmetic::div_mod::lemma_div_pos_is_pos((v - o0) * (n1 - n0), o1 - o0);
            vstd::arithmetic::mul::lemma_mul_inequality(v - o0, o1 - o0, n1 - n0);
            vstd::arithmetic::div_mod::lemma_div_is_ordered(
                (v - o0) * (n1 - n0),
                (o1 - o0) * (n1 - n0),
                o1 - o0,
            );
            vstd::arithmetic::div_mod::lemma_div_multiples_vanish(n1 - n0, o1 - o0);
            vstd::arithmetic::mul::lemma_mul_is_commutative(o1 - o0, n1 - n0);
        }
        let scaled: i128 = num / den;
        (scaled + n0 as i128) as i32
    }
}

/// A pixel-space rectangle between two corner points.
#[derive(Clone, Copy, Debug, PartialEq, Eq, Structural)]
pub struct Rect(pub Point, pub Point);

impl Rect {
    /// The left edge.
    pub fn left(&self) -> (r: i32)
        ensures
            r == self.0.x,
    {
        self.0.x
    }

    /// The bottom edge.
    pub fn bottom(&self) -> (r: i32)
        ensures
            r == self.1.y,
    {
        self.1.y
    }

    /// The horizontal extent.
    pub fn width(&self) -> (r: i32)
        requires
            i32::MIN as int <= self.1.x - self.0.x <= i32::MAX as int,
        ensures
            r == self.1.x - self.0.x,
    {
        self.1.x - self.0.x
    }

    /// The vertical extent.
    pub fn height(&self) -> (r: i32)
        requires
            i32::MIN as int <= self.1.y - self.0.y <= i32::MAX as int,
        ensures
            r == self.1.y - self.0.y,
    {
        self.1.y - self.0.y
    }
}

/// A colour with alpha, one byte per channel.
#[derive(Clone, Copy, Debug, PartialEq, Eq, Structural)]
pub struct Rgba {
    pub r: u8,
    pub g: u8,
    pub b: u8,
    pub a: u8,
}

impl Rgba {
    /// Unpacks a colour from its `0xRRGGBBAA` form.
    pub fn from_u32(val: u32) -> (c: Rgba)
        ensures
            c.r == val / 0x1000000,
            c.g == val / 0x10000 % 0x100,
            c.b == val / 0x100 % 0x100,
            c.a == val % 0x100,
    {
        Rgba {
            r: (val / 0x1000000) as u8,
            g: (val / 0x10000 % 0x100) as u8,
            b: (val / 0x100 % 0x100) as u8,
            a: (val % 0x100) as u8,
        }
    }

    /// Packs the colour into its `0xRRGGBBAA` form.
    pub fn to_u32(self) -> (val: u32)
        ensures
            val == self.r * 0x1000000 + self.g * 0x10000 + self.b * 0x100 + self.a,
    {
        self.r as u32 * 0x1000000 + self.g as u32 * 0x10000 + self.b as u32 * 0x100
            + self.a as u32
    }
}

/// One channel of the gradient blend: the two endpoint channels weighted by
/// `w` out of 255, truncated.
pub open spec fn blend_channel(lo: int, hi: int, w: int) -> int {
    (lo * (255 - w) + hi * w) / 255
}

/// Picks the colour a fraction `index / 255` of the way along the gradient:
/// the two nearest stops of the `colours` list, blended by the fractional
/// position between them.
pub fn interp(colours: &Vec<Rgba>, index: u8) -> (c: Rgba)
    requires
        1 <= colours@.len() <= 1_000_000,
    ensures
        ({
            let m = colours@.len() - 1;
            let pos = index * m;
            let lo_i = if pos / 255 < m {
                pos / 255
            } else {
                m
            };
            let hi_i = if (pos + 254) / 255 < m {
                (pos + 254) / 255
            } else {
                m
            };
            let w = index % 255;
            let lo = colours@[lo_i];
            let hi = colours@[hi_i];
            &&& c.r == blend_channel(lo.r as int, hi.r as int, w as int)
            &&& c.g == blend_channel(lo.g as int, hi.g as int, w as int)
            &&& c.b == blend_channel(lo.b as int, hi.b as int, w as int)
            &&& c.a == blend_channel(lo.a as int, hi.a as int, w as int)
        }),
{
    let m: u64 = colours.len() as u64 - 1;
    proof {
        vstd::arithmetic::mul::lemma_mul_nonnegative(index as int, m as int);
        vstd::arithmetic::mul::lemma_mul_upper_bound(index as int, 255, m as int, 1_000_000);
    }
    let pos: u64 = index as u64 * m;
    let lo_idx: usize = if pos / 255 < m {
        (pos / 255) as usize
    } else {
        m as usize
    };
    let hi_idx: usize = if (pos + 254) / 255 < m {
        ((pos + 254) / 255) as usize
    } else {
        m as usize
    };
    let w: u32 = (index % 255) as u32;
    let lo = colours[lo_idx];
    let hi = colours[hi_idx];
    proof {
        lemma_blend_in_byte(lo.r as int, hi.r as int, w as int);
        lemma_blend_in_byte(lo.g as int, hi.g as int, w as int);
        lemma_blend_in_byte(lo.b as int, hi.b as int, w as int);
        lemma_blend_in_byte(lo.a as int, hi.a as int, w as int);
    }
    Rgba {
        r: ((lo.r as u32 * (255 - w) + hi.r as u32 * w) / 255) as u8,
        g: ((lo.g as u32 * (255 - w) + hi.g as u32 * w) / 255) as u8,
        b: ((lo.b as u32 * (255 - w) + hi.b as u32 * w) / 255) as u8,
        a: ((lo.a as u32 * (255 - w) + hi.a as u32 * w) / 255) as u8,
    }
}

/// Scrolls the spectrogram one column and paints the fresh one: the pixel
/// buffer shifts by `height` pixels toward its end, and then the first pixel
/// of each row — every `width`-th position — takes the gradient entry of the
/// matching analyser byte.
pub fn paint_spectrum(
    out: &mut Vec<Rgba>,
    in_data: &Vec<u8>,
    gradient: &Vec<Rgba>,
    width: usize,
    height: usize,
)
    requires
        gradient@.len() == 256,
        1 <= width,
        old(out)@.len() + 2 * width <= usize::MAX,
        height <= old(out)@.len(),
        in_data@.len() * width <= old(out)@.len(),
    ensures
        final(out)@.len() == old(out)@.len(),
        forall|i: int|
            0 <= i < final(out)@.len() ==> #[trigger] final(out)@[i] == (if i % (width as int) == 0
                && i / (width as int) < in_data@.len() {
                gradient@[in_data@[i / (width as int)] as int]
            } else if i >= height {
                old(out)@[i - height]
            } else {
                old(out)@[i]
            }),
{
    let ghost orig = out@;
    let len = out.len();
    // scroll: highest positions first, so every source still holds its
    // original pixel when it is read
    let mut i: usize = len;
    while i > height
        invariant
            height <= i <= len,
            out@.len() == len,
            orig.len() == len,
            forall|j: int| 0 <= j < i ==> #[trigger] out@[j] == orig[j],
            forall|j: int| i <= j < len ==> #[trigger] out@[j] == orig[j - height],
        decreases i,
    {
        i -= 1;
        let shifted = out[i - height];
        out.set(i, shifted);
    }
    let ghost mid = out@;
    // paint the fresh column through the gradient
    let mut walker = crate::utils::EveryNthMut::new(len, width);
    let mut k: usize = 0;
    while k < in_data.len()
        invariant
            0 <= k <= in_data@.len(),
            in_data@.len() * width <= len,
            1 <= width,
            gradient@.len() == 256,
            out@.len() == len,
            mid.len() == len,
            walker.wf(),
            walker.len == len,
            walker.n == width,
            walker.off == 0,
            walker.state == k * width,
            forall|j: int|
                0 <= j < len && !(j % (width as int) == 0 && j / (width as int) < k)
                    ==> #[trigger] out@[j] == mid[j],
            forall|j: int|
                0 <= j < len && j % (width as int) == 0 && j / (width as int) < k
                    ==> #[trigger] out@[j] == gradient@[in_data@[j / (width as int)] as int],
        decreases in_data@.len() - k,
    {
        proof {
            vstd::arithmetic::mul::lemma_mul_inequality(
                k as int + 1,
                in_data@.len() as int,
                width as int,
            );
            assert((k + 1) * width == k * width + width) by (nonlinear_arith);
            vstd::arithmetic::mul::lemma_mul_nonnegative(k as int, width as int);
        }
        let pos = match walker.next_index() {
            Some(pos) => pos,
            None => {
                proof {
                    assert(false);
                }
                0
            },
        };
        let colour = gradient[in_data[k] as usize];
        out.set(pos, colour);
        proof {
            assert(pos == k * width);
            vstd::arithmetic::div_mod::lemma_fundamental_div_mod_converse(
                pos as int,
                width as int,
                k as int,
                0,
            );
        }
        k += 1;
        proof {
            assert forall|j: int|
                0 <= j < len && j % (width as int) == 0 && j / (width as int) < k implies #[trigger] out@[j]
                == gradient@[in_data@[j / (width as int)] as int] by {
                if j / (width as int) < k - 1 {
                    assert(j != pos) by {
                        if j == pos {
                            assert(j / (width as int) == k - 1);
                        }
                    }
                } else {
                    assert(j / (width as int) == k - 1);
                    vstd::arithmetic::div_mod::lemma_fundamental_div_mod(j, width as int);
                    vstd::arithmetic::mul::lemma_mul_is_commutative(width as int, k - 1);
                    assert(j == (k - 1) * (width as int));
                }
            }
        }
    }
    proof {
        assert forall|i: int|
            0 <= i < out@.len() implies #[trigger] out@[i] == (if i % (width as int) == 0 && i
            / (width as int) < in_data@.len() {
            gradient@[in_data@[i / (width as int)] as int]
        } else if i >= height {
            orig[i - height]
        } else {
            orig[i]
        }) by {
            if !(i % (width as int) == 0 && i / (width as int) < in_data@.len()) {
                assert(out@[i] == mid[i]);
            }
        }
    }
}

/// A blend of two byte channels stays a byte.
proof fn lemma_blend_in_byte(lo: int, hi: int, w: int)
    requires
        0 <= lo <= 255,
        0 <= hi <= 255,
        0 <= w <= 255,
    ensures
        0 <= blend_channel(lo, hi, w) <= 255,
{
    assert(lo * (255 - w) + hi * w <= 255 * 255) by (nonlinear_arith)
        requires
            0 <= lo <= 255,
            0 <= hi <= 255,
            0 <= w <= 255,
    ;
    assert(lo * (255 - w) + hi * w >= 0) by (nonlinear_arith)
        requires
            0 <= lo <= 255,
            0 <= hi <= 255,
            0 <= w <= 255,
    ;
    vstd::arithmetic::div_mod::lemma_div_pos_is_pos(lo * (255 - w) + hi * w, 255);
    vstd::arithmetic::div_mod::lemma_div_is_ordered(lo * (255 - w) + hi * w, 65025int, 255);
}

} // verus!
