//! A rectangular grid of sRGB colors, stored row by row.

use vstd::prelude::*;
use crate::color::StraightRgba;
use crate::helpers::{Rect, Size};

verus! {

pub struct Bitmap {
    pub data: Vec<Vec<StraightRgba>>,
    pub size: Size,
}

/// What one cell becomes when `color` is blended over it, if it lies
/// `inside` the blended region: nothing for a fully transparent color, the
/// color itself when opaque, the source-over composite otherwise.
pub open spec fn spec_blend_cell(cell: StraightRgba, color: StraightRgba, inside: bool) -> StraightRgba {
    if inside && color.spec_alpha() != 0 {
        if color.spec_alpha() == 255 {
            color
        } else {
            cell.spec_blend_over(color)
        }
    } else {
        cell
    }
}

/// How a bitmap changes under `blend(target, color)`: nothing when the color
/// is fully transparent; otherwise every cell in the clipped target is
/// overwritten (opaque color) or composed source-over, and every other cell
/// keeps its value.
pub open spec fn blend_rel(pre: Bitmap, post: Bitmap, target: Rect, color: StraightRgba) -> bool {
    &&& post.size == pre.size
    &&& (color.spec_alpha() == 0 ==> post == pre)
    &&& forall|x: int, y: int|
        0 <= x < pre.size.width && 0 <= y < pre.size.height ==> #[trigger] post.cell(x, y)
            == spec_blend_cell(pre.cell(x, y), color, pre.in_clip(target, x, y))
}

/// How two equal-sized bitmaps change when their cells inside the clipped
/// `target` are exchanged.
pub open spec fn swap_rel(
    pre_a: Bitmap,
    pre_b: Bitmap,
    post_a: Bitmap,
    post_b: Bitmap,
    target: Rect,
) -> bool {
    &&& post_a.size == pre_a.size
    &&& post_b.size == pre_b.size
    &&& forall|x: int, y: int|
        0 <= x < pre_a.size.width && 0 <= y < pre_a.size.height ==> #[trigger] post_a.cell(x, y)
            == if pre_a.in_clip(target, x, y) {
            pre_b.cell(x, y)
        } else {
            pre_a.cell(x, y)
        }
    &&& forall|x: int, y: int|
        0 <= x < pre_a.size.width && 0 <= y < pre_a.size.height ==> #[trigger] post_b.cell(x, y)
            == if pre_a.in_clip(target, x, y) {
            pre_a.cell(x, y)
        } else {
            pre_b.cell(x, y)
        }
}

/// Blending a fully transparent color changes nothing: the bitmap after the
/// call is the bitmap before it.
pub proof fn lemma_blend_transparent_noop(
    pre: Bitmap,
    post: Bitmap,
    target: Rect,
    color: StraightRgba,
)
    requires
        blend_rel(pre, post, target, color),
        color.spec_alpha() == 0,
    ensures
        post == pre,
{
}

/// Exchanging the two planes inside the same rectangle twice restores every
/// cell of both planes.
pub proof fn lemma_swap_involution(
    a0: Bitmap,
    b0: Bitmap,
    a1: Bitmap,
    b1: Bitmap,
    a2: Bitmap,
    b2: Bitmap,
    target: Rect,
)
    requires
        a1.size == a0.size,
        swap_rel(a0, b0, a1, b1, target),
        swap_rel(a1, b1, a2, b2, target),
    ensures
        forall|x: int, y: int|
            0 <= x < a0.size.width && 0 <= y < a0.size.height ==> #[trigger] a2.cell(x, y)
                == a0.cell(x, y),
        forall|x: int, y: int|
            0 <= x < a0.size.width && 0 <= y < a0.size.height ==> #[trigger] b2.cell(x, y)
                == b0.cell(x, y),
{
    assert forall|x: int, y: int|
        0 <= x < a0.size.width && 0 <= y < a0.size.height implies #[trigger] a2.cell(x, y)
        == a0.cell(x, y) && b2.cell(x, y) == b0.cell(x, y) by {
        assert(a1.in_clip(target, x, y) == a0.in_clip(target, x, y));
    }
}

/// Whether two color rows hold the same cells.
pub fn color_rows_eq(a: &Vec<StraightRgba>, b: &Vec<StraightRgba>) -> (r: bool)
    ensures
        r == (a@ == b@),
{
    if a.len() != b.len() {
        proof {
            assert(a@.len() != b@.len() ==> a@ != b@);
        }
        return false;
    }
    let mut i: usize = 0;
    while i < a.len()
        invariant
            i <= a@.len(),
            a@.len() == b@.len(),
            forall|j: int| 0 <= j < i ==> a@[j] == b@[j],
        decreases a@.len() - i,
    {
        if a[i] != b[i] {
            return false;
        }
        i = i + 1;
    }
    proof {
        assert(a@ =~= b@);
    }
    true
}

/// A row of `w` copies of `color`.
pub open spec fn spec_fill_row(w: int, color: StraightRgba) -> Seq<StraightRgba> {
    Seq::new(if w >= 0 { w as nat } else { 0 }, |i: int| color)
}

/// Builds a row of `w` copies of `color`.
pub fn make_fill_row(w: usize, color: StraightRgba) -> (r: Vec<StraightRgba>)
    ensures
        r@ == spec_fill_row(w as int, color),
{
    let mut r: Vec<StraightRgba> = Vec::new();
    let mut i: usize = 0;
    while i < w
        invariant
            i <= w,
            r@.len() == i,
            forall|j: int| 0 <= j < i ==> r@[j] == color,
        decreases w - i,
    {
        r.push(color);
        i = i + 1;
    }
    proof {
        assert(r@ =~= spec_fill_row(w as int, color));
    }
    r
}

/// One row after blending `color` over the column span `[l, r)`.
fn blend_row(row: &Vec<StraightRgba>, l: usize, r: usize, color: StraightRgba) -> (res: Vec<
    StraightRgba,
>)
    requires
        l <= r <= row@.len(),
    ensures
        res@.len() == row@.len(),
        forall|x: int| #![trigger res@[x]]
            0 <= x < row@.len() ==> res@[x] == if l <= x < r {
                if color.spec_alpha() == 255 {
                    color
                } else {
                    row@[x].spec_blend_over(color)
                }
            } else {
                row@[x]
            },
{
    let mut res: Vec<StraightRgba> = Vec::new();
    let opaque = color.alpha() == 255;
    let mut x: usize = 0;
    while x < row.len()
        invariant
            x <= row@.len(),
            res@.len() == x,
            l <= r <= row@.len(),
            opaque == (color.spec_alpha() == 255),
            forall|j: int| #![trigger res@[j]]
                0 <= j < x ==> res@[j] == if l <= j < r {
                    if color.spec_alpha() == 255 {
                        color
                    } else {
                        row@[j].spec_blend_over(color)
                    }
                } else {
                    row@[j]
                },
        decreases row@.len() - x,
    {
        if l <= x && x < r {
            if opaque {
                res.push(color);
            } else {
                res.push(row[x].blend_over(color));
            }
        } else {
            res.push(row[x]);
        }
        x = x + 1;
    }
    res
}

/// The two rows with their column span `[l, r)` exchanged.
fn swap_row(ra: &Vec<StraightRgba>, rb: &Vec<StraightRgba>, l: usize, r: usize) -> (res: (Vec<
    StraightRgba,
>, Vec<StraightRgba>))
    requires
        l <= r <= ra@.len(),
        ra@.len() == rb@.len(),
    ensures
        res.0@.len() == ra@.len(),
        res.1@.len() == ra@.len(),
        forall|x: int| #![trigger res.0@[x]]
            0 <= x < ra@.len() ==> res.0@[x] == if l <= x < r {
                rb@[x]
            } else {
                ra@[x]
            },
        forall|x: int| #![trigger res.1@[x]]
            0 <= x < ra@.len() ==> res.1@[x] == if l <= x < r {
                ra@[x]
            } else {
                rb@[x]
            },
{
    let mut na: Vec<StraightRgba> = Vec::new();
    let mut nb: Vec<StraightRgba> = Vec::new();
    let mut x: usize = 0;
    while x < ra.len()
        invariant
            x <= ra@.len(),
            ra@.len() == rb@.len(),
            l <= r <= ra@.len(),
            na@.len() == x,
            nb@.len() == x,
            forall|j: int| #![trigger na@[j]]
                0 <= j < x ==> na@[j] == if l <= j < r {
                    rb@[j]
                } else {
                    ra@[j]
                },
            forall|j: int| #![trigger nb@[j]]
                0 <= j < x ==> nb@[j] == if l <= j < r {
                    ra@[j]
                } else {
                    rb@[j]
                },
        decreases ra@.len() - x,
    {
        if l <= x && x < r {
            na.push(rb[x]);
            nb.push(ra[x]);
        } else {
            na.push(ra[x]);
            nb.push(rb[x]);
        }
        x = x + 1;
    }
    (na, nb)
}

/// Exchanges the cells of two equal-sized bitmaps inside `target`, clipped to
/// their bounds; cells outside keep their values.
pub fn swap_rect(a: &mut Bitmap, b: &mut Bitmap, target: Rect)
    requires
        old(a).wf(),
        old(b).wf(),
        old(a).size == old(b).size,
    ensures
        final(a).wf(),
        final(b).wf(),
        swap_rel(*old(a), *old(b), *final(a), *final(b), target),
{
    let c = target.intersect(a.size.as_rect());
    if c.is_empty() {
        return ;
    }
    let top = c.top as usize;
    let bottom = c.bottom as usize;
    let left = c.left as usize;
    let right = c.right as usize;
    let mut y = top;
    while y < bottom
        invariant
            top <= y <= bottom,
            a.size == old(a).size,
            b.size == old(b).size,
            old(a).wf(),
            old(b).wf(),
            old(a).size == old(b).size,
            a.data@.len() == old(a).data@.len(),
            b.data@.len() == old(b).data@.len(),
            c == target.spec_intersect(old(a).size.spec_as_rect()),
            !c.spec_is_empty(),
            0 <= c.left < c.right <= old(a).size.width,
            0 <= c.top < c.bottom <= old(a).size.height,
            top == c.top && bottom == c.bottom && left == c.left && right == c.right,
            forall|i: int|
                0 <= i < a.data@.len() && !(top <= i < y) ==> a.data@[i] == old(a).data@[i],
            forall|i: int|
                0 <= i < b.data@.len() && !(top <= i < y) ==> b.data@[i] == old(b).data@[i],
            forall|i: int|
                top <= i < y ==> (#[trigger] a.data@[i]@).len() == old(a).size.width,
            forall|i: int|
                top <= i < y ==> (#[trigger] b.data@[i]@).len() == old(a).size.width,
            forall|i: int, x: int| #![trigger a.data@[i]@[x]]
                top <= i < y && 0 <= x < old(a).size.width ==> a.data@[i]@[x] == if left <= x
                    < right {
                    old(b).data@[i]@[x]
                } else {
                    old(a).data@[i]@[x]
                },
            forall|i: int, x: int| #![trigger b.data@[i]@[x]]
                top <= i < y && 0 <= x < old(a).size.width ==> b.data@[i]@[x] == if left <= x
                    < right {
                    old(a).data@[i]@[x]
                } else {
                    old(b).data@[i]@[x]
                },
        decreases bottom - y,
    {
        let pair = swap_row(&a.data[y], &b.data[y], left, right);
        a.data[y] = pair.0;
        b.data[y] = pair.1;
        y = y + 1;
    }
}

impl Bitmap {
    /// One row per line, each of exactly `width` cells.
    pub open spec fn wf(self) -> bool {
        &&& 0 <= self.size.width
        &&& 0 <= self.size.height
        &&& self.data@.len() == self.size.height
        &&& forall|y: int|
            0 <= y < self.data@.len() ==> (#[trigger] self.data@[y]@).len() == self.size.width
    }

    /// The cell at column `x` of row `y`.
    pub open spec fn cell(self, x: int, y: int) -> StraightRgba {
        self.data@[y]@[x]
    }

    /// All cells hold `color`.
    pub open spec fn all_filled(self, color: StraightRgba) -> bool {
        forall|y: int|
            0 <= y < self.data@.len() ==> #[trigger] self.data@[y]@ == spec_fill_row(
                self.size.width as int,
                color,
            )
    }

    /// A bitmap of zero (sentinel) cells.
    pub fn new(size: Size) -> (r: Bitmap)
        requires
            0 <= size.width,
            0 <= size.height,
        ensures
            r.wf(),
            r.size == size,
            r.all_filled(StraightRgba { bits: 0 }),
    {
        let mut data: Vec<Vec<StraightRgba>> = Vec::new();
        let mut y: usize = 0;
        while y < size.height as usize
            invariant
                y <= size.height,
                0 <= size.width,
                data@.len() == y,
                forall|i: int|
                    0 <= i < y ==> #[trigger] data@[i]@ == spec_fill_row(
                        size.width as int,
                        StraightRgba { bits: 0 },
                    ),
            decreases size.height - y,
        {
            data.push(make_fill_row(size.width as usize, StraightRgba { bits: 0 }));
            y = y + 1;
        }
        Bitmap { data, size }
    }

    /// Sets every cell to `color`.
    pub fn fill(&mut self, color: StraightRgba)
        requires
            old(self).wf(),
        ensures
            final(self).wf(),
            final(self).size == old(self).size,
            final(self).all_filled(color),
    {
        let h = self.data.len();
        let mut y: usize = 0;
        while y < h
            invariant
                y <= h,
                h == self.data@.len(),
                self.size == old(self).size,
                0 <= self.size.width,
                0 <= self.size.height,
                self.data@.len() == self.size.height,
                forall|i: int|
                    0 <= i < y ==> #[trigger] self.data@[i]@ == spec_fill_row(
                        self.size.width as int,
                        color,
                    ),
                forall|i: int|
                    y <= i < self.data@.len() ==> (#[trigger] self.data@[i]@).len()
                        == self.size.width,
            decreases h - y,
        {
            let row = make_fill_row(self.size.width as usize, color);
            self.data[y] = row;
            y = y + 1;
        }
    }

    /// Whether `(x, y)` lies in the part of `target` that intersects this
    /// bitmap.
    pub open spec fn in_clip(self, target: Rect, x: int, y: int) -> bool {
        let c = target.spec_intersect(self.size.spec_as_rect());
        c.left <= x < c.right && c.top <= y < c.bottom
    }

    /// Blends `color` over the cells of `target`, clipped to the bitmap.
    /// A fully transparent color leaves the bitmap untouched; a fully opaque
    /// one overwrites; anything else composes source-over per cell.
    pub fn blend(&mut self, target: Rect, color: StraightRgba)
        requires
            old(self).wf(),
        ensures
            final(self).wf(),
            blend_rel(*old(self), *final(self), target, color),
    {
        if color.alpha() == 0 {
            return ;
        }
        let c = target.intersect(self.size.as_rect());
        if c.is_empty() {
            return ;
        }
        let top = c.top as usize;
        let bottom = c.bottom as usize;
        let left = c.left as usize;
        let right = c.right as usize;
        let mut y = top;
        while y < bottom
            invariant
                top <= y <= bottom,
                self.size == old(self).size,
                old(self).wf(),
                self.data@.len() == old(self).data@.len(),
                c == target.spec_intersect(old(self).size.spec_as_rect()),
                !c.spec_is_empty(),
                0 <= c.left < c.right <= old(self).size.width,
                0 <= c.top < c.bottom <= old(self).size.height,
                top == c.top && bottom == c.bottom && left == c.left && right == c.right,
                color.spec_alpha() != 0,
                forall|i: int|
                    0 <= i < self.data@.len() && !(top <= i < y) ==> self.data@[i]
                        == old(self).data@[i],
                forall|i: int|
                    top <= i < y ==> (#[trigger] self.data@[i]@).len() == old(self).size.width,
                forall|i: int, x: int| #![trigger self.data@[i]@[x]]
                    top <= i < y && 0 <= x < old(self).size.width ==> self.data@[i]@[x] == if left
                        <= x < right {
                        if color.spec_alpha() == 255 {
                            color
                        } else {
                            old(self).data@[i]@[x].spec_blend_over(color)
                        }
                    } else {
                        old(self).data@[i]@[x]
                    },
            decreases bottom - y,
        {
            let row = blend_row(&self.data[y], left, right, color);
            self.data[y] = row;
            y = y + 1;
        }
    }
}

} // verus!
