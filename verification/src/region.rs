//! Regions: sets of pixels held as rectangles that do not overlap.
use vstd::prelude::*;

use crate::geometry::{lemma_product_bounds, Rect};

verus! {

/// A set of pixels inside a bounding rectangle.
pub struct Region {
    bounds: Rect,
    rects: Vec<Rect>,
}

/// Whether some rectangle of the list covers the pixel.
pub open spec fn any_covers(rects: Seq<Rect>, p: (int, int)) -> bool {
    exists|i: int| 0 <= i < rects.len() && (#[trigger] rects[i]).covers(p)
}

/// The pixels that a list of rectangles covers.
pub open spec fn union_points(rects: Seq<Rect>) -> Set<(int, int)> {
    Set::new(|p: (int, int)| any_covers(rects, p))
}

/// The areas of a list of rectangles, added up.
pub open spec fn area_sum(rects: Seq<Rect>) -> int
    decreases rects.len(),
{
    if rects.len() == 0 {
        0
    } else {
        area_sum(rects.drop_last()) + rects.last().signed_area()
    }
}

/// No rectangle is empty and no two of them share a pixel.
pub open spec fn is_partition(rects: Seq<Rect>) -> bool {
    &&& forall|i: int| 0 <= i < rects.len() ==> (#[trigger] rects[i]).has_pixels()
    &&& forall|i: int, j: int|
        0 <= i < j < rects.len() ==> !(#[trigger] rects[i]).overlap(#[trigger] rects[j]).has_pixels()
}

/// Every rectangle of the list lies within `bounds`.
pub open spec fn all_within(rects: Seq<Rect>, bounds: Rect) -> bool {
    forall|i: int| 0 <= i < rects.len() ==> within(#[trigger] rects[i], bounds)
}

/// Non-overlapping rectangles cover as many pixels as their areas add up to.
proof fn lemma_area_sum_is_len(rects: Seq<Rect>)
    requires
        is_partition(rects),
    ensures
        union_points(rects).finite(),
        union_points(rects).len() == area_sum(rects),
    decreases rects.len(),
{
    if rects.len() == 0 {
        assert(union_points(rects) =~= Set::empty());
    } else {
        let front = rects.drop_last();
        let last = rects.last();
        lemma_area_sum_is_len(front);
        last.lemma_points_len();
        assert forall|p: (int, int)| union_points(rects).contains(p) implies union_points(
            front,
        ).union(last.points()).contains(p) by {
            let i = choose|i: int| 0 <= i < rects.len() && (#[trigger] rects[i]).covers(p);
            if i < front.len() {
                assert(front[i].covers(p));
            }
        }
        assert forall|p: (int, int)|
            union_points(front).union(last.points()).contains(p) implies union_points(
            rects,
        ).contains(p) by {
            if union_points(front).contains(p) {
                let i = choose|i: int| 0 <= i < front.len() && (#[trigger] front[i]).covers(p);
                assert(rects[i].covers(p));
            } else {
                assert(rects[rects.len() - 1].covers(p));
            }
        }
        assert(union_points(rects) =~= union_points(front).union(last.points()));
        assert(union_points(front).disjoint(last.points())) by {
            assert forall|p: (int, int)| union_points(front).contains(p) implies !last.points().contains(
                p,
            ) by {
                let i = choose|i: int| 0 <= i < front.len() && (#[trigger] front[i]).covers(p);
                assert(!rects[i].overlap(rects[rects.len() - 1]).has_pixels());
            }
        }
        vstd::set_lib::lemma_set_disjoint_lens(union_points(front), last.points());
    }
}

/// A prefix of a list of non-empty rectangles has at most the area of the whole list.
proof fn lemma_area_sum_prefix(rects: Seq<Rect>, n: int)
    requires
        is_partition(rects),
        0 <= n <= rects.len(),
    ensures
        0 <= area_sum(rects.take(n)) <= area_sum(rects),
    decreases rects.len(), n,
{
    let prefix = rects.take(n);
    if n == rects.len() {
        assert(prefix =~= rects);
        if n > 0 {
            lemma_area_sum_prefix(rects, n - 1);
        }
    } else {
        let front = rects.drop_last();
        assert(front.take(n) =~= prefix);
        lemma_area_sum_prefix(front, n);
        rects.last().lemma_points_len();
    }
}

/// Whether `inner` lies within `outer`.
pub open spec fn within(inner: Rect, outer: Rect) -> bool {
    &&& outer.left <= inner.left
    &&& inner.right <= outer.right
    &&& outer.top <= inner.top
    &&& inner.bottom <= outer.bottom
}

/// Appending a rectangle adds its pixels to those that the list covers.
proof fn lemma_any_covers_push(rects: Seq<Rect>, rect: Rect, p: (int, int))
    ensures
        any_covers(rects.push(rect), p) <==> any_covers(rects, p) || rect.covers(p),
{
    let longer = rects.push(rect);
    if any_covers(rects, p) {
        let i = choose|i: int| 0 <= i < rects.len() && (#[trigger] rects[i]).covers(p);
        assert(longer[i].covers(p));
    }
    if rect.covers(p) {
        assert(longer[rects.len() as int].covers(p));
    }
    if any_covers(longer, p) {
        let i = choose|i: int| 0 <= i < longer.len() && (#[trigger] longer[i]).covers(p);
        if i < rects.len() {
            assert(rects[i].covers(p));
        }
    }
}

/// Appends a rectangle that shares no pixel with those before it.
fn push_piece(kept: &mut Vec<Rect>, piece: Rect)
    requires
        is_partition(old(kept)@),
        piece.has_pixels(),
        forall|k: int|
            0 <= k < old(kept)@.len() ==> !(#[trigger] old(kept)@[k]).overlap(piece).has_pixels(),
    ensures
        is_partition(final(kept)@),
        final(kept)@ == old(kept)@.push(piece),
        forall|p: (int, int)| #[trigger]
            any_covers(final(kept)@, p) <==> any_covers(old(kept)@, p) || piece.covers(p),
{
    kept.push(piece);
    proof {
        assert forall|p: (int, int)| #[trigger]
            any_covers(kept@, p) <==> any_covers(old(kept)@, p) || piece.covers(p) by {
            lemma_any_covers_push(old(kept)@, piece, p);
        }
    }
}

/// Appends what is left of `rect` when the pixels of `hole` are taken out of it: the whole
/// rectangle where they share none, else up to four strips round the common part.
fn push_remainder(kept: &mut Vec<Rect>, rect: Rect, hole: &Rect)
    requires
        is_partition(old(kept)@),
        rect.has_pixels(),
        forall|k: int|
            0 <= k < old(kept)@.len() ==> !(#[trigger] old(kept)@[k]).overlap(rect).has_pixels(),
    ensures
        is_partition(final(kept)@),
        old(kept)@.len() <= final(kept)@.len(),
        forall|k: int|
            0 <= k < old(kept)@.len() ==> #[trigger] final(kept)@[k] == old(kept)@[k],
        forall|k: int|
            old(kept)@.len() <= k < final(kept)@.len() ==> within(#[trigger] final(kept)@[k], rect),
        forall|p: (int, int)| #[trigger]
            any_covers(final(kept)@, p) <==> any_covers(old(kept)@, p) || (rect.covers(p)
                && !hole.covers(p)),
{
    match rect.intersect(hole) {
        None => {
            assert forall|p: (int, int)| rect.covers(p) implies !hole.covers(p) by {
                assert(rect.points().contains(p));
                assert(!hole.points().contains(p));
            }
            push_piece(kept, rect);
        },
        Some(common) => {
            if rect.top < common.top {
                push_piece(
                    kept,
                    Rect {
                        left: rect.left,
                        top: rect.top,
                        right: rect.right,
                        bottom: common.top,
                    },
                );
            }
            if common.bottom < rect.bottom {
                push_piece(
                    kept,
                    Rect {
                        left: rect.left,
                        top: common.bottom,
                        right: rect.right,
                        bottom: rect.bottom,
                    },
                );
            }
            if rect.left < common.left {
                push_piece(
                    kept,
                    Rect {
                        left: rect.left,
                        top: common.top,
                        right: common.left,
                        bottom: common.bottom,
                    },
                );
            }
            if common.right < rect.right {
                push_piece(
                    kept,
                    Rect {
                        left: common.right,
                        top: common.top,
                        right: rect.right,
                        bottom: common.bottom,
                    },
                );
            }
        },
    }
}

/// A rectangle of a partition shares no pixel with what is kept of the rectangles before it.
proof fn lemma_disjoint_from_next(rects: Seq<Rect>, n: int, kept: Seq<Rect>)
    requires
        is_partition(rects),
        is_partition(kept),
        0 <= n < rects.len(),
        forall|p: (int, int)| #[trigger] any_covers(kept, p) ==> any_covers(rects.take(n), p),
    ensures
        forall|k: int|
            0 <= k < kept.len() ==> !(#[trigger] kept[k]).overlap(rects[n]).has_pixels(),
{
    assert forall|k: int| 0 <= k < kept.len() implies !(#[trigger] kept[k]).overlap(
        rects[n],
    ).has_pixels() by {
        let common = kept[k].overlap(rects[n]);
        if common.has_pixels() {
            let p = (common.left as int, common.top as int);
            assert(kept[k].covers(p));
            assert(any_covers(kept, p));
            let prefix = rects.take(n);
            let i = choose|i: int| 0 <= i < prefix.len() && (#[trigger] prefix[i]).covers(p);
            assert(rects[i].covers(p) && rects[n].covers(p));
            assert(!rects[i].overlap(rects[n]).has_pixels());
        }
    }
}

impl View for Region {
    type V = Set<(int, int)>;

    closed spec fn view(&self) -> Set<(int, int)> {
        union_points(self.rects@)
    }
}

impl Region {
    /// The bounds have a width and a height, and the rectangles are a partition of what they
    /// cover within the bounds.
    pub closed spec fn wf(&self) -> bool {
        &&& self.bounds.ordered()
        &&& self.bounds.extents_fit()
        &&& is_partition(self.rects@)
        &&& all_within(self.rects@, self.bounds)
    }

    /// The rectangle that the region was made from.
    pub closed spec fn spec_bounds(&self) -> Rect {
        self.bounds
    }

    /// The pixels of a region lie in its bounds, of which there are finitely many.
    proof fn lemma_within_bounds(&self)
        requires
            self.wf(),
        ensures
            self@.subset_of(self.bounds.points()),
            self@.finite(),
            self@.len() == area_sum(self.rects@),
            self@.len() <= self.bounds.signed_area(),
            self@.len() <= 0x4000_0000_0000_0000,
    {
        self.bounds.lemma_points_len();
        lemma_area_sum_is_len(self.rects@);
        lemma_product_bounds(
            self.bounds.right - self.bounds.left,
            self.bounds.bottom - self.bounds.top,
        );
        assert forall|p: (int, int)| self@.contains(p) implies self.bounds.points().contains(p) by {
            let i = choose|i: int| 0 <= i < self.rects@.len() && (#[trigger] self.rects@[i]).covers(p);
        }
        vstd::set_lib::lemma_len_subset(self@, self.bounds.points());
    }

    /// The region of all pixels of a rectangle.
    pub fn from_rect(rect: &Rect) -> (region: Region)
        requires
            rect.ordered(),
            rect.extents_fit(),
        ensures
            region.wf(),
            region.spec_bounds() == *rect,
            region@ == rect.points(),
    {
        let mut rects: Vec<Rect> = Vec::new();
        if rect.left < rect.right && rect.top < rect.bottom {
            rects.push(*rect);
            proof {
                assert(rects@[0].covers((rect.left as int, rect.top as int)));
                assert forall|p: (int, int)| rect.points().contains(p) implies union_points(
                    rects@,
                ).contains(p) by {
                    assert(rects@[0].covers(p));
                }
            }
        }
        let region = Region { bounds: *rect, rects };
        assert(region@ =~= rect.points());
        region
    }

    /// Takes the pixels of `hole` out of the region.
    pub fn subtract(&mut self, hole: &Rect)
        requires
            old(self).wf(),
        ensures
            final(self).wf(),
            final(self).spec_bounds() == old(self).spec_bounds(),
            final(self)@ == old(self)@.difference(hole.points()),
    {
        let mut kept: Vec<Rect> = Vec::new();
        let ghost before = self.rects@;
        let mut i: usize = 0;
        while i < self.rects.len()
            invariant
                i <= self.rects.len(),
                *self == *old(self),
                before == self.rects@,
                old(self).wf(),
                is_partition(kept@),
                all_within(kept@, self.bounds),
                forall|p: (int, int)| #[trigger]
                    any_covers(kept@, p) <==> any_covers(before.take(i as int), p) && !hole.covers(
                        p,
                    ),
            decreases self.rects.len() - i,
        {
            let rect = self.rects[i];
            let ghost kept_before = kept@;
            proof {
                lemma_disjoint_from_next(before, i as int, kept@);
            }
            push_remainder(&mut kept, rect, hole);
            proof {
                assert(before.take(i + 1) =~= before.take(i as int).push(rect));
                assert forall|p: (int, int)| #[trigger]
                    any_covers(kept@, p) <==> any_covers(before.take(i + 1), p) && !hole.covers(
                        p,
                    ) by {
                    lemma_any_covers_push(before.take(i as int), rect, p);
                    assert(any_covers(kept_before, p) <==> any_covers(before.take(i as int), p)
                        && !hole.covers(p));
                }
                assert forall|k: int| 0 <= k < kept@.len() implies within(
                    #[trigger] kept@[k],
                    self.bounds,
                ) by {
                    if k < kept_before.len() {
                        assert(within(kept_before[k], self.bounds));
                    } else {
                        assert(within(before[i as int], self.bounds));
                    }
                }
            }
            i = i + 1;
        }
        assert(before.take(i as int) =~= before);
        self.rects = kept;
        assert(self@ =~= old(self)@.difference(hole.points()));
    }
}

/// How many pixels a region holds: the areas of its rectangles, added up.
pub fn compute_region_area(region: &Region) -> (area: i64)
    requires
        region.wf(),
    ensures
        region@.finite(),
        area == region@.len(),
{
    proof {
        region.lemma_within_bounds();
    }
    let mut area: i64 = 0;
    let mut i: usize = 0;
    while i < region.rects.len()
        invariant
            i <= region.rects.len(),
            region.wf(),
            area == area_sum(region.rects@.take(i as int)),
            area_sum(region.rects@) <= 0x4000_0000_0000_0000,
        decreases region.rects.len() - i,
    {
        let rect = region.rects[i];
        proof {
            let rects = region.rects@;
            assert(rects.take(i + 1).drop_last() =~= rects.take(i as int));
            assert(rects.take(i + 1).last() == rect);
            lemma_area_sum_prefix(rects, i + 1);
            assert(within(rects[i as int], region.bounds));
        }
        area = area + rect.area();
        i = i + 1;
    }
    assert(region.rects@.take(i as int) =~= region.rects@);
    area
}

/// The region of a rectangle holds the pixels from the left and top edge up to, and without, the
/// right and bottom edge.
pub proof fn law_region_of_a_rectangle(rect: Rect, region: Region, x: int, y: int)
    requires
        call_ensures(Region::from_rect, (&rect,), region),
    ensures
        region@.contains((x, y)) <==> rect.left <= x < rect.right && rect.top <= y < rect.bottom,
{
    assert(rect.points().contains((x, y)) <==> rect.covers((x, y)));
}

/// Taking a rectangle out of a region takes out the pixels of the rectangle and no others.
pub proof fn law_subtracting_takes_out_the_hole(region: &mut Region, hole: Rect, x: int, y: int)
    requires
        call_ensures(Region::subtract, (region, &hole), ()),
    ensures
        final(region)@.contains((x, y)) <==> old(region)@.contains((x, y)) && !(hole.left <= x
            < hole.right && hole.top <= y < hole.bottom),
{
    assert(hole.points().contains((x, y)) <==> hole.covers((x, y)));
}

/// The region of a rectangle has the area of the rectangle.
pub proof fn law_region_area_is_width_times_height(rect: Rect, region: Region, area: i64)
    requires
        rect.left <= rect.right,
        rect.top <= rect.bottom,
        call_ensures(Region::from_rect, (&rect,), region),
        call_ensures(compute_region_area, (&region,), area),
    ensures
        area == (rect.right - rect.left) * (rect.bottom - rect.top),
{
    rect.lemma_points_len();
}

/// A hole that lies within a rectangle leaves the difference of their areas.
pub proof fn law_hole_leaves_the_difference(
    rect: Rect,
    hole: Rect,
    region: &mut Region,
    area: i64,
)
    requires
        rect.left <= hole.left <= hole.right <= rect.right,
        rect.top <= hole.top <= hole.bottom <= rect.bottom,
        call_ensures(Region::from_rect, (&rect,), *old(region)),
        call_ensures(Region::subtract, (region, &hole), ()),
        call_ensures(compute_region_area, (final(region),), area),
    ensures
        area == (rect.right - rect.left) * (rect.bottom - rect.top) - (hole.right - hole.left) * (
        hole.bottom - hole.top),
{
    rect.lemma_points_len();
    hole.lemma_points_len();
    let all = rect.points();
    let out = hole.points();
    assert forall|p: (int, int)| out.contains(p) implies all.contains(p) by {}
    let left = all.difference(out);
    assert(all =~= left.union(out));
    vstd::set_lib::lemma_set_disjoint_lens(left, out);
}

} // verus!
