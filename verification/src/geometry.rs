//! Pixel rectangles and the sets of pixels that they cover.
use vstd::prelude::*;

verus! {

/// A rectangle of pixels. The right and the bottom edge lie outside of it.
#[derive(Clone, Copy, Debug, PartialEq, Eq, Structural)]
pub struct Rect {
    pub left: i32,
    pub top: i32,
    pub right: i32,
    pub bottom: i32,
}

/// The pixels with `left <= x < right` and `top <= y < bottom`.
pub open spec fn block(left: int, top: int, right: int, bottom: int) -> Set<(int, int)> {
    Set::new(|p: (int, int)| left <= p.0 < right && top <= p.1 < bottom)
}

/// The larger of two coordinates.
pub open spec fn larger(a: i32, b: i32) -> i32 {
    if a >= b {
        a
    } else {
        b
    }
}

/// The smaller of two coordinates.
pub open spec fn smaller(a: i32, b: i32) -> i32 {
    if a <= b {
        a
    } else {
        b
    }
}

impl Rect {
    /// Whether the pixel `p` lies in the rectangle.
    pub open spec fn covers(self, p: (int, int)) -> bool {
        self.left <= p.0 < self.right && self.top <= p.1 < self.bottom
    }

    /// The pixels of the rectangle. There are none where an edge pair is inverted.
    pub open spec fn points(self) -> Set<(int, int)> {
        block(self.left as int, self.top as int, self.right as int, self.bottom as int)
    }

    /// Whether the rectangle covers at least one pixel.
    pub open spec fn has_pixels(self) -> bool {
        self.left < self.right && self.top < self.bottom
    }

    /// Whether neither edge pair is inverted.
    pub open spec fn ordered(self) -> bool {
        self.left <= self.right && self.top <= self.bottom
    }

    /// Whether width and height can be held in an `i32`.
    pub open spec fn extents_fit(self) -> bool {
        &&& i32::MIN <= self.right - self.left <= i32::MAX
        &&& i32::MIN <= self.bottom - self.top <= i32::MAX
    }

    /// Width times height. Negative where one edge pair is inverted.
    pub open spec fn signed_area(self) -> int {
        (self.right - self.left) * (self.bottom - self.top)
    }

    /// The rectangle between the inner edges of two rectangles.
    pub open spec fn overlap(self, other: Rect) -> Rect {
        Rect {
            left: larger(self.left, other.left),
            top: larger(self.top, other.top),
            right: smaller(self.right, other.right),
            bottom: smaller(self.bottom, other.bottom),
        }
    }

    /// Width times height, in pixels.
    pub fn area(&self) -> (area: i64)
        requires
            self.extents_fit(),
        ensures
            area == self.signed_area(),
    {
        let width: i32 = self.right - self.left;
        let height: i32 = self.bottom - self.top;
        proof {
            lemma_product_bounds(width as int, height as int);
        }
        (width as i64) * (height as i64)
    }

    /// The common part of two rectangles, or `None` where they share no pixel.
    pub fn intersect(&self, other: &Rect) -> (common: Option<Rect>)
        ensures
            common == (if self.overlap(*other).has_pixels() && self.has_pixels()
                && other.has_pixels() {
                Some(self.overlap(*other))
            } else {
                None
            }),
            match common {
                Some(r) => r.has_pixels() && r.points() == self.points().intersect(other.points()),
                None => self.points().disjoint(other.points()),
            },
    {
        let left: i32 = if self.left >= other.left { self.left } else { other.left };
        let top: i32 = if self.top >= other.top { self.top } else { other.top };
        let right: i32 = if self.right <= other.right { self.right } else { other.right };
        let bottom: i32 = if self.bottom <= other.bottom { self.bottom } else { other.bottom };
        if left < right && top < bottom {
            let common = Rect { left, top, right, bottom };
            proof {
                assert(common.points() =~= self.points().intersect(other.points()));
            }
            Some(common)
        } else {
            None
        }
    }
}

/// A product of two `i32` values fits into an `i64`.
pub proof fn lemma_product_bounds(width: int, height: int)
    requires
        i32::MIN <= width <= i32::MAX,
        i32::MIN <= height <= i32::MAX,
    ensures
        -0x4000_0000_0000_0000 <= width * height <= 0x4000_0000_0000_0000,
{
    assert(-0x4000_0000_0000_0000 <= width * height <= 0x4000_0000_0000_0000) by (nonlinear_arith)
        requires
            -0x8000_0000 <= width <= 0x7fff_ffff,
            -0x8000_0000 <= height <= 0x7fff_ffff,
    ;
}

/// One column of a block holds as many pixels as it is high.
proof fn lemma_column_len(x: int, top: int, bottom: int)
    requires
        top <= bottom,
    ensures
        block(x, top, x + 1, bottom).finite(),
        block(x, top, x + 1, bottom).len() == bottom - top,
    decreases bottom - top,
{
    let column = block(x, top, x + 1, bottom);
    if top == bottom {
        assert(column =~= Set::empty());
    } else {
        lemma_column_len(x, top, bottom - 1);
        assert(column =~= block(x, top, x + 1, bottom - 1).insert((x, bottom - 1)));
    }
}

/// A block holds width times height pixels.
pub proof fn lemma_block_len(left: int, top: int, right: int, bottom: int)
    requires
        left <= right,
        top <= bottom,
    ensures
        block(left, top, right, bottom).finite(),
        block(left, top, right, bottom).len() == (right - left) * (bottom - top),
    decreases right - left,
{
    let all = block(left, top, right, bottom);
    if left == right {
        assert(all =~= Set::empty());
    } else {
        let rest = block(left, top, right - 1, bottom);
        let column = block(right - 1, top, right, bottom);
        lemma_block_len(left, top, right - 1, bottom);
        lemma_column_len(right - 1, top, bottom);
        assert(all =~= rest.union(column));
        vstd::set_lib::lemma_set_disjoint_lens(rest, column);
        assert((right - left) * (bottom - top) == (right - 1 - left) * (bottom - top) + (bottom
            - top)) by (nonlinear_arith);
    }
}

impl Rect {
    /// An ordered rectangle covers width times height pixels.
    pub proof fn lemma_points_len(self)
        requires
            self.ordered(),
        ensures
            self.points().finite(),
            self.points().len() == self.signed_area(),
    {
        lemma_block_len(self.left as int, self.top as int, self.right as int, self.bottom as int);
    }
}

/// The area of a rectangle is its width times its height.
pub proof fn law_area_is_width_times_height(rect: Rect, area: i64)
    requires
        call_ensures(Rect::area, (&rect,), area),
    ensures
        area == (rect.right - rect.left) * (rect.bottom - rect.top),
{
}

/// The common part of two rectangles covers a pixel exactly where both of them do. There is a
/// common part only where there is such a pixel.
pub proof fn law_intersection_is_what_both_cover(
    a: Rect,
    b: Rect,
    common: Option<Rect>,
    x: int,
    y: int,
)
    requires
        call_ensures(Rect::intersect, (&a, &b), common),
    ensures
        (a.left <= x < a.right && a.top <= y < a.bottom && b.left <= x < b.right && b.top <= y
            < b.bottom) <==> (common matches Some(c) && c.left <= x < c.right && c.top <= y
            < c.bottom),
        common matches Some(c) ==> c.left < c.right && c.top < c.bottom,
{
}

/// The order of the two rectangles does not matter for their common part.
pub proof fn law_intersection_is_symmetric(a: Rect, b: Rect, ab: Option<Rect>, ba: Option<Rect>)
    requires
        call_ensures(Rect::intersect, (&a, &b), ab),
        call_ensures(Rect::intersect, (&b, &a), ba),
    ensures
        ab == ba,
{
}

/// A rectangle can be measured exactly where no edge pair is inverted and where its width and its
/// height can be held in an `i32`.
pub proof fn law_measurable_rectangles(rect: Rect)
    ensures
        rect.ordered() <==> rect.left <= rect.right && rect.top <= rect.bottom,
        rect.extents_fit() <==> -0x8000_0000 <= rect.right - rect.left <= 0x7fff_ffff
            && -0x8000_0000 <= rect.bottom - rect.top <= 0x7fff_ffff,
{
}

} // verus!
