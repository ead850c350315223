//! Rectangles in screen space.
use crate::num::{saturate_i32, to_i32_range};
use vstd::prelude::*;

verus! {

/// An axis-aligned rectangle in screen space, used for window and monitor bounds.
///
/// It covers the points from `(x, y)` up to, and without, `(x + width, y + height)`.
#[derive(Debug, Clone, Copy, PartialEq, Eq, Structural)]
pub struct Rect {
    pub x: i32,
    pub y: i32,
    pub width: u32,
    pub height: u32,
}

impl Default for Rect {
    fn default() -> (r: Self)
        ensures
            r == (Rect { x: 0, y: 0, width: 0, height: 0 }),
    {
        Rect { x: 0, y: 0, width: 0, height: 0 }
    }
}

pub open spec fn int_min(a: int, b: int) -> int {
    if a <= b { a } else { b }
}

pub open spec fn int_max(a: int, b: int) -> int {
    if a >= b { a } else { b }
}

/// Whether some rectangle of `rects` covers the point.
pub open spec fn any_covers(rects: Seq<Rect>, px: int, py: int) -> bool {
    exists|i: int| 0 <= i < rects.len() && (#[trigger] rects[i]).covers(px, py)
}

/// Whether no point lies in two rectangles of `rects`.
pub open spec fn pairwise_disjoint(rects: Seq<Rect>) -> bool {
    forall|i: int, j: int, px: int, py: int|
        0 <= i < j < rects.len() ==> !(#[trigger] rects[i].covers(px, py) && #[trigger] rects[j].covers(px, py))
}

/// What is left of every rectangle of `rects`, in order, without `other`.
pub open spec fn minus_each(rects: Seq<Rect>, other: Rect) -> Seq<Rect>
    decreases rects.len(),
{
    if rects.len() == 0 {
        Seq::empty()
    } else {
        minus_each(rects.drop_last(), other) + rects.last().minus(other)
    }
}

/// What is left of the rectangles of `rects` without any rectangle of `occluders`.
pub open spec fn minus_all(rects: Seq<Rect>, occluders: Seq<Rect>) -> Seq<Rect>
    decreases occluders.len(),
{
    if occluders.len() == 0 {
        rects
    } else {
        minus_each(minus_all(rects, occluders.drop_last()), occluders.last())
    }
}

impl Rect {
    /// The column just past the right edge.
    pub open spec fn right_edge(self) -> int {
        self.x + self.width
    }

    /// The row just past the bottom edge.
    pub open spec fn bottom_edge(self) -> int {
        self.y + self.height
    }

    /// Whether both far edges are `i32` coordinates.
    pub open spec fn fits(self) -> bool {
        self.right_edge() <= i32::MAX && self.bottom_edge() <= i32::MAX
    }

    /// Whether the point lies in the rectangle.
    pub open spec fn covers(self, px: int, py: int) -> bool {
        self.x <= px < self.right_edge() && self.y <= py < self.bottom_edge()
    }

    /// Whether every point of the rectangle lies in `outer`.
    pub open spec fn within(self, outer: Rect) -> bool {
        outer.x <= self.x && self.right_edge() <= outer.right_edge() && outer.y <= self.y
            && self.bottom_edge() <= outer.bottom_edge()
    }

    /// Whether the two rectangles overlap by more than an edge or a corner.
    pub open spec fn meets(self, other: Rect) -> bool {
        self.right_edge() > other.x && other.right_edge() > self.x && self.bottom_edge() > other.y
            && other.bottom_edge() > self.y
    }

    /// The region that both rectangles cover, if they meet.
    pub open spec fn common(self, other: Rect) -> Rect {
        let x = int_max(self.x as int, other.x as int);
        let y = int_max(self.y as int, other.y as int);
        let right = int_min(self.right_edge(), other.right_edge());
        let bottom = int_min(self.bottom_edge(), other.bottom_edge());
        Rect { x: x as i32, y: y as i32, width: (right - x) as u32, height: (bottom - y) as u32 }
    }

    /// The slivers of `self` above, below, left and right of what `other` covers.
    pub open spec fn minus(self, other: Rect) -> Seq<Rect> {
        if !self.meets(other) {
            seq![self]
        } else {
            let ix = self.common(other);
            let above = Rect { height: (ix.y - self.y) as u32, ..self };
            let below = Rect {
                y: ix.bottom_edge() as i32,
                height: (self.bottom_edge() - ix.bottom_edge()) as u32,
                ..self
            };
            let left = Rect { x: self.x, y: ix.y, width: (ix.x - self.x) as u32, height: ix.height };
            let right = Rect {
                x: ix.right_edge() as i32,
                y: ix.y,
                width: (self.right_edge() - ix.right_edge()) as u32,
                height: ix.height,
            };
            (if ix.y > self.y { seq![above] } else { Seq::empty() })
                + (if ix.bottom_edge() < self.bottom_edge() { seq![below] } else { Seq::empty() })
                + (if ix.x > self.x { seq![left] } else { Seq::empty() })
                + (if ix.right_edge() < self.right_edge() { seq![right] } else { Seq::empty() })
        }
    }

    /// Where [`Rect::clamped_into`] puts the rectangle.
    pub open spec fn moved_into(self, bounds: Rect) -> Rect {
        let width = int_min(self.width as int, bounds.width as int);
        let height = int_min(self.height as int, bounds.height as int);
        let x = int_max(int_min(self.x as int, bounds.right_edge() - width), bounds.x as int);
        let y = int_max(int_min(self.y as int, bounds.bottom_edge() - height), bounds.y as int);
        Rect { x: x as i32, y: y as i32, width: width as u32, height: height as u32 }
    }

    pub fn new(x: i32, y: i32, width: u32, height: u32) -> (r: Self)
        ensures
            r == (Rect { x, y, width, height }),
    {
        Rect { x, y, width, height }
    }

    /// The column just past the right edge.
    pub fn right(&self) -> (r: i32)
        requires
            self.right_edge() <= i32::MAX,
        ensures
            r == self.right_edge(),
            r == self.x + self.width,
    {
        (self.x as i64 + self.width as i64) as i32
    }

    /// The row just past the bottom edge.
    pub fn bottom(&self) -> (r: i32)
        requires
            self.bottom_edge() <= i32::MAX,
        ensures
            r == self.bottom_edge(),
            r == self.y + self.height,
    {
        (self.y as i64 + self.height as i64) as i32
    }

    /// The right edge, as a number that holds it wherever the rectangle is.
    pub(crate) fn right_wide(&self) -> (r: i64)
        ensures
            r == self.right_edge(),
    {
        self.x as i64 + self.width as i64
    }

    /// The bottom edge, as a number that holds it wherever the rectangle is.
    pub(crate) fn bottom_wide(&self) -> (r: i64)
        ensures
            r == self.bottom_edge(),
    {
        self.y as i64 + self.height as i64
    }

    pub fn contains_point(&self, x: i32, y: i32) -> (r: bool)
        ensures
            r == self.covers(x as int, y as int),
            r == (self.x <= x && x < self.x + self.width && self.y <= y && y < self.y + self.height),
    {
        x >= self.x && (x as i64) < self.right_wide() && y >= self.y && (y as i64) < self.bottom_wide()
    }

    pub fn overlaps(&self, other: &Rect) -> (r: bool)
        ensures
            r == self.meets(*other),
            r == (self.x < other.x + other.width && other.x < self.x + self.width && self.y < other.y + other.height
                && other.y < self.y + self.height),
    {
        !(self.right_wide() <= other.x as i64 || other.right_wide() <= self.x as i64 || self.bottom_wide()
            <= other.y as i64 || other.bottom_wide() <= self.y as i64)
    }

    /// The overlapping region of two rects, or `None` if they don't overlap
    /// at all: a rect that only touches another along an edge or corner does
    /// not count.
    pub fn intersection(&self, other: &Rect) -> (r: Option<Rect>)
        ensures
            r == (if self.meets(*other) { Some(self.common(*other)) } else { None }),
            // The points of both, and no others.
            r matches Some(c) ==> forall|px: int, py: int|
                (c.x <= px < c.x + c.width && c.y <= py < c.y + c.height) <==> (#[trigger] self.covers(px, py)
                    && #[trigger] other.covers(px, py)),
    {
        if !self.overlaps(other) {
            return None;
        }
        let x: i32 = if self.x >= other.x { self.x } else { other.x };
        let y: i32 = if self.y >= other.y { self.y } else { other.y };
        let right: i64 = if self.right_wide() <= other.right_wide() { self.right_wide() } else { other.right_wide() };
        let bottom: i64 = if self.bottom_wide() <= other.bottom_wide() {
            self.bottom_wide()
        } else {
            other.bottom_wide()
        };
        Some(Rect::new(x, y, (right - x as i64) as u32, (bottom - y as i64) as u32))
    }

    /// `self` minus `other`, as the (up to 4) axis-aligned pieces left over.
    /// An empty `Vec` means `other` fully covers `self`; a one-element `Vec`
    /// equal to `self` means they don't overlap at all.
    fn subtract_one(&self, other: &Rect) -> (out: Vec<Rect>)
        requires
            self.fits(),
        ensures
            out@ == self.minus(*other),
    {
        let ix = match self.intersection(other) {
            Some(ix) => ix,
            None => {
                let mut whole: Vec<Rect> = Vec::new();
                whole.push(*self);
                return whole;
            },
        };
        let mut out: Vec<Rect> = Vec::new();
        if ix.y > self.y {
            out.push(Rect::new(self.x, self.y, self.width, (ix.y as i64 - self.y as i64) as u32));
        }
        if ix.bottom_wide() < self.bottom_wide() {
            out.push(
                Rect::new(self.x, ix.bottom(), self.width, (self.bottom_wide() - ix.bottom_wide()) as u32),
            );
        }
        // The slivers at the sides keep to the rows of the intersection, so
        // that the ones above and below are not counted twice at the corners.
        if ix.x > self.x {
            out.push(Rect::new(self.x, ix.y, (ix.x as i64 - self.x as i64) as u32, ix.height));
        }
        if ix.right_wide() < self.right_wide() {
            out.push(Rect::new(ix.right(), ix.y, (self.right_wide() - ix.right_wide()) as u32, ix.height));
        }
        out
    }

    /// `self` minus every rect in `occluders` that overlaps it, as the
    /// disjoint pieces still left over. An empty result means `occluders`
    /// between them fully cover `self`.
    pub fn subtract_all(&self, occluders: &[Rect]) -> (out: Vec<Rect>)
        requires
            self.fits(),
        ensures
            out@ == minus_all(seq![*self], occluders@),
            forall|px: int, py: int|
                #![trigger any_covers(out@, px, py)]
                any_covers(out@, px, py) <==> self.covers(px, py) && !any_covers(occluders@, px, py),
            pairwise_disjoint(out@),
    {
        let mut remaining: Vec<Rect> = Vec::new();
        remaining.push(*self);
        let mut i: usize = 0;
        while i < occluders.len()
            invariant
                i <= occluders.len(),
                remaining@ == minus_all(seq![*self], occluders@.subrange(0, i as int)),
                forall|k: int| 0 <= k < remaining.len() ==> (#[trigger] remaining[k]).fits(),
            decreases occluders.len() - i,
        {
            let occluder = occluders[i];
            let mut next: Vec<Rect> = Vec::new();
            let mut j: usize = 0;
            while j < remaining.len()
                invariant
                    j <= remaining.len(),
                    next@ == minus_each(remaining@.subrange(0, j as int), occluder),
                    forall|k: int| 0 <= k < remaining.len() ==> (#[trigger] remaining[k]).fits(),
                    forall|k: int| 0 <= k < next.len() ==> (#[trigger] next[k]).fits(),
                decreases remaining.len() - j,
            {
                let mut pieces = remaining[j].subtract_one(&occluder);
                proof {
                    assert(remaining@.subrange(0, j + 1).drop_last() =~= remaining@.subrange(0, j as int));
                    lemma_minus_fits(remaining[j as int], occluder);
                }
                next.append(&mut pieces);
                j += 1;
            }
            proof {
                assert(remaining@.subrange(0, remaining.len() as int) =~= remaining@);
                assert(occluders@.subrange(0, i + 1).drop_last() =~= occluders@.subrange(0, i as int));
            }
            remaining = next;
            i += 1;
        }
        proof {
            assert(occluders@.subrange(0, occluders.len() as int) =~= occluders@);
            lemma_minus_all(*self, occluders@);
        }
        remaining
    }

    /// Where [`Rect::inset`] puts the rectangle.
    pub open spec fn shrunk(self, margin: u32) -> Rect {
        Rect {
            x: to_i32_range(self.x + margin) as i32,
            y: to_i32_range(self.y + margin) as i32,
            width: int_max(self.width - 2 * margin, 0) as u32,
            height: int_max(self.height - 2 * margin, 0) as u32,
        }
    }

    /// Shrinks the rect on all sides by `margin`, saturating at zero size. An
    /// origin past the last coordinate stays on it.
    pub fn inset(&self, margin: u32) -> (r: Rect)
        ensures
            r == self.shrunk(margin),
            self.x + margin <= i32::MAX ==> r.x == self.x + margin,
            self.y + margin <= i32::MAX ==> r.y == self.y + margin,
            r.width == (if self.width > 2 * margin { self.width - 2 * margin } else { 0 }),
            r.height == (if self.height > 2 * margin { self.height - 2 * margin } else { 0 }),
    {
        let both: u64 = margin as u64 * 2;
        Rect {
            x: saturate_i32(self.x as i64 + margin as i64),
            y: saturate_i32(self.y as i64 + margin as i64),
            width: if self.width as u64 > both { (self.width as u64 - both) as u32 } else { 0 },
            height: if self.height as u64 > both { (self.height as u64 - both) as u32 } else { 0 },
        }
    }

    pub fn center(&self) -> (r: (i32, i32))
        requires
            self.x + self.width / 2 <= i32::MAX,
            self.y + self.height / 2 <= i32::MAX,
        ensures
            r.0 == self.x + self.width / 2,
            r.1 == self.y + self.height / 2,
    {
        ((self.x as i64 + (self.width / 2) as i64) as i32, (self.y as i64 + (self.height / 2) as i64) as i32)
    }

    /// Moves this rect so it lies inside `bounds`, shrinking it only if it is
    /// genuinely larger than `bounds`. Position is adjusted in preference to
    /// size, so a window keeps the dimensions the user gave it.
    pub fn clamped_into(&self, bounds: Rect) -> (r: Rect)
        requires
            bounds.fits(),
        ensures
            r == self.moved_into(bounds),
            r.within(bounds),
            r.fits(),
            // As large as there is room for, and moved only up to the edge
            // that it stood out over.
            r.width == (if self.width <= bounds.width { self.width } else { bounds.width }),
            r.height == (if self.height <= bounds.height { self.height } else { bounds.height }),
            bounds.x <= r.x && r.x + r.width <= bounds.x + bounds.width,
            bounds.y <= r.y && r.y + r.height <= bounds.y + bounds.height,
            r.x > self.x ==> r.x == bounds.x,
            r.x < self.x ==> r.x + r.width == bounds.x + bounds.width,
            r.y > self.y ==> r.y == bounds.y,
            r.y < self.y ==> r.y + r.height == bounds.y + bounds.height,
    {
        let width: u32 = if self.width <= bounds.width { self.width } else { bounds.width };
        let height: u32 = if self.height <= bounds.height { self.height } else { bounds.height };
        let last_x: i32 = (bounds.right_wide() - width as i64) as i32;
        let last_y: i32 = (bounds.bottom_wide() - height as i64) as i32;
        // The origin of `bounds` comes last, so that it wins where the rect is larger.
        let x: i32 = if self.x <= last_x { self.x } else { last_x };
        let y: i32 = if self.y <= last_y { self.y } else { last_y };
        Rect {
            x: if x >= bounds.x { x } else { bounds.x },
            y: if y >= bounds.y { y } else { bounds.y },
            width,
            height,
        }
    }
}

/// The pieces of a rectangle that fits are rectangles that fit.
proof fn lemma_minus_fits(r: Rect, other: Rect)
    requires
        r.fits(),
    ensures
        forall|k: int| 0 <= k < r.minus(other).len() ==> (#[trigger] r.minus(other)[k]).fits(),
{
}

/// Subtracting one rectangle leaves exactly the points outside it, each in one piece.
pub proof fn lemma_minus(r: Rect, other: Rect)
    requires
        r.fits(),
    ensures
        forall|px: int, py: int|
            #![trigger any_covers(r.minus(other), px, py)]
            any_covers(r.minus(other), px, py) <==> r.covers(px, py) && !other.covers(px, py),
        pairwise_disjoint(r.minus(other)),
        forall|k: int| 0 <= k < r.minus(other).len() ==> (#[trigger] r.minus(other)[k]).fits(),
{
    let pieces = r.minus(other);
    lemma_minus_fits(r, other);
    if r.meets(other) {
        let ix = r.common(other);
        let a = if ix.y > r.y { 1int } else { 0 };
        let b = if ix.bottom_edge() < r.bottom_edge() { 1int } else { 0 };
        let c = if ix.x > r.x { 1int } else { 0 };
        let d = if ix.right_edge() < r.right_edge() { 1int } else { 0 };
        assert(pieces.len() == a + b + c + d);
        assert forall|px: int, py: int| #![trigger any_covers(pieces, px, py)]
            any_covers(pieces, px, py) <==> r.covers(px, py) && !other.covers(px, py) by {
            if any_covers(pieces, px, py) {
                let i = choose|i: int| 0 <= i < pieces.len() && (#[trigger] pieces[i]).covers(px, py);
                assert(pieces[i].covers(px, py));
            }
            if r.covers(px, py) && !other.covers(px, py) {
                if py < ix.y {
                    assert(pieces[0].covers(px, py));
                } else if py >= ix.bottom_edge() {
                    assert(pieces[a].covers(px, py));
                } else if px < ix.x {
                    assert(pieces[a + b].covers(px, py));
                } else {
                    assert(px >= ix.right_edge());
                    assert(pieces[a + b + c].covers(px, py));
                }
            }
        }
    } else {
        assert forall|px: int, py: int| #![trigger any_covers(pieces, px, py)]
            any_covers(pieces, px, py) <==> r.covers(px, py) && !other.covers(px, py) by {
            if r.covers(px, py) {
                assert(pieces[0].covers(px, py));
            }
        }
    }
}

/// [`lemma_minus`] for a list of pieces.
proof fn lemma_minus_each(rects: Seq<Rect>, other: Rect)
    requires
        forall|k: int| 0 <= k < rects.len() ==> (#[trigger] rects[k]).fits(),
    ensures
        forall|px: int, py: int|
            #![trigger any_covers(minus_each(rects, other), px, py)]
            any_covers(minus_each(rects, other), px, py) <==> any_covers(rects, px, py) && !other.covers(px, py),
        pairwise_disjoint(rects) ==> pairwise_disjoint(minus_each(rects, other)),
        forall|k: int|
            0 <= k < minus_each(rects, other).len() ==> (#[trigger] minus_each(rects, other)[k]).fits(),
    decreases rects.len(),
{
    if rects.len() > 0 {
        let head = rects.drop_last();
        let last = rects.last();
        let a = minus_each(head, other);
        let b = last.minus(other);
        lemma_minus_each(head, other);
        lemma_minus(last, other);
        let out = minus_each(rects, other);
        assert(out =~= a + b);
        assert forall|px: int, py: int| #![trigger any_covers(out, px, py)]
            any_covers(out, px, py) <==> any_covers(rects, px, py) && !other.covers(px, py) by {
            lemma_any_covers_concat(a, b, px, py);
            assert(rects =~= head + seq![last]);
            lemma_any_covers_concat(head, seq![last], px, py);
            assert(any_covers(seq![last], px, py) <==> last.covers(px, py)) by {
                assert(seq![last][0] == last);
            }
        }
        if pairwise_disjoint(rects) {
            assert(pairwise_disjoint(head)) by {
                assert forall|i: int, j: int, px: int, py: int| 0 <= i < j < head.len() implies !(#[trigger] head[i].covers(
                    px,
                    py,
                ) && #[trigger] head[j].covers(px, py)) by {
                    assert(head[i] == rects[i] && head[j] == rects[j]);
                }
            }
            assert forall|i: int, j: int, px: int, py: int| 0 <= i < j < out.len() implies !(#[trigger] out[i].covers(
                px,
                py,
            ) && #[trigger] out[j].covers(px, py)) by {
                if j < a.len() {
                    assert(out[i] == a[i] && out[j] == a[j]);
                } else if i >= a.len() {
                    assert(out[i] == b[i - a.len()] && out[j] == b[j - a.len()]);
                } else {
                    assert(out[i] == a[i] && out[j] == b[j - a.len()]);
                    if a[i].covers(px, py) && b[j - a.len()].covers(px, py) {
                        assert(any_covers(a, px, py));
                        assert(any_covers(b, px, py));
                        let m = choose|m: int| 0 <= m < head.len() && (#[trigger] head[m]).covers(px, py);
                        assert(rects[m].covers(px, py) && rects[rects.len() - 1].covers(px, py));
                    }
                }
            }
        }
    }
}

proof fn lemma_any_covers_concat(a: Seq<Rect>, b: Seq<Rect>, px: int, py: int)
    ensures
        any_covers(a + b, px, py) <==> any_covers(a, px, py) || any_covers(b, px, py),
{
    if any_covers(a, px, py) {
        let i = choose|i: int| 0 <= i < a.len() && (#[trigger] a[i]).covers(px, py);
        assert((a + b)[i].covers(px, py));
    }
    if any_covers(b, px, py) {
        let i = choose|i: int| 0 <= i < b.len() && (#[trigger] b[i]).covers(px, py);
        assert((a + b)[a.len() + i].covers(px, py));
    }
    if any_covers(a + b, px, py) {
        let i = choose|i: int| 0 <= i < (a + b).len() && (#[trigger] (a + b)[i]).covers(px, py);
        if i < a.len() {
            assert(a[i].covers(px, py));
        } else {
            assert(b[i - a.len()].covers(px, py));
        }
    }
}

/// What is left of a rectangle without its occluders is covered point for
/// point: a point stays exactly where `r` covers it and no occluder does, and
/// it stays in one piece only.
pub proof fn lemma_minus_all(r: Rect, occluders: Seq<Rect>)
    requires
        r.fits(),
    ensures
        forall|px: int, py: int|
            #![trigger any_covers(minus_all(seq![r], occluders), px, py)]
            any_covers(minus_all(seq![r], occluders), px, py) <==> r.covers(px, py) && !any_covers(
                occluders,
                px,
                py,
            ),
        pairwise_disjoint(minus_all(seq![r], occluders)),
        forall|k: int|
            0 <= k < minus_all(seq![r], occluders).len() ==> (#[trigger] minus_all(seq![r], occluders)[k]).fits(),
    decreases occluders.len(),
{
    let out = minus_all(seq![r], occluders);
    if occluders.len() == 0 {
        assert forall|px: int, py: int| #![trigger any_covers(out, px, py)]
            any_covers(out, px, py) <==> r.covers(px, py) && !any_covers(occluders, px, py) by {
            assert(out[0] == r);
        }
    } else {
        let front = occluders.drop_last();
        let last = occluders.last();
        lemma_minus_all(r, front);
        lemma_minus_each(minus_all(seq![r], front), last);
        assert forall|px: int, py: int| #![trigger any_covers(out, px, py)]
            any_covers(out, px, py) <==> r.covers(px, py) && !any_covers(occluders, px, py) by {
            assert(any_covers(minus_all(seq![r], front), px, py) <==> r.covers(px, py) && !any_covers(front, px, py));
            assert(occluders =~= front + seq![last]);
            lemma_any_covers_concat(front, seq![last], px, py);
            assert(any_covers(seq![last], px, py) <==> last.covers(px, py)) by {
                assert(seq![last][0] == last);
            }
        }
    }
}

/// Two rectangles meet exactly if some point lies in both, and their common
/// region covers exactly those points.
pub proof fn lemma_common(a: Rect, b: Rect)
    ensures
        a.meets(b) && a.width > 0 && a.height > 0 && b.width > 0 && b.height > 0 ==> exists|px: int, py: int|
            #[trigger] a.covers(px, py) && b.covers(px, py),
        a.meets(b) == b.meets(a),
        a.meets(b) ==> a.common(b) == b.common(a),
        forall|px: int, py: int|
            #![trigger a.covers(px, py), b.covers(px, py)]
            a.covers(px, py) && b.covers(px, py) <==> a.meets(b) && a.common(b).covers(px, py),
{
    if a.meets(b) && a.width > 0 && a.height > 0 && b.width > 0 && b.height > 0 {
        let c = a.common(b);
        assert(a.covers(c.x as int, c.y as int) && b.covers(c.x as int, c.y as int));
    }
}

} // verus!
