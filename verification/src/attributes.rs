//! VT text attributes: an 8-bit bitfield per cell, and the grid holding one
//! per cell. A bitfield diffs with XOR and tests presence with AND.

use vstd::prelude::*;
use crate::helpers::{Rect, Size};

verus! {

/// A bitfield of VT text attributes. Bit 0 is italic, bit 1 is underlined.
#[derive(Clone, Copy, PartialEq, Eq, Structural, Debug)]
pub struct Attributes {
    pub bits: u8,
}

impl Attributes {
    /// No attribute set.
    pub fn none() -> (r: Attributes)
        ensures
            r.bits == 0,
    {
        Attributes { bits: 0 }
    }

    pub fn italic() -> (r: Attributes)
        ensures
            r.bits == 1,
    {
        Attributes { bits: 1 }
    }

    pub fn underlined() -> (r: Attributes)
        ensures
            r.bits == 2,
    {
        Attributes { bits: 2 }
    }

    /// The mask of every defined attribute bit.
    pub fn all() -> (r: Attributes)
        ensures
            r.bits == 3,
    {
        Attributes { bits: 3 }
    }

    /// Whether every bit of `attr` is set in `self`.
    pub fn is(self, attr: Attributes) -> (r: bool)
        ensures
            r == ((self.bits & attr.bits) == attr.bits),
    {
        (self.bits & attr.bits) == attr.bits
    }

    pub fn bitor(self, rhs: Attributes) -> (r: Attributes)
        ensures
            r.bits == (self.bits | rhs.bits),
    {
        Attributes { bits: self.bits | rhs.bits }
    }

    pub fn bitxor(self, rhs: Attributes) -> (r: Attributes)
        ensures
            r.bits == (self.bits ^ rhs.bits),
    {
        Attributes { bits: self.bits ^ rhs.bits }
    }
}

/// The value a cell takes under a masked replace: the bits of `mask` are
/// cleared and the bits of `attr` are set. With the full mask this is plain
/// assignment.
pub open spec fn spec_masked(cell: Attributes, mask: Attributes, attr: Attributes) -> Attributes {
    if mask.bits == 3 {
        attr
    } else {
        Attributes { bits: (cell.bits & !mask.bits) | attr.bits }
    }
}

/// A row of `w` copies of `attr`.
pub open spec fn spec_attr_row(w: int, attr: Attributes) -> Seq<Attributes> {
    Seq::new(if w >= 0 { w as nat } else { 0 }, |i: int| attr)
}

fn make_attr_row(w: usize, attr: Attributes) -> (r: Vec<Attributes>)
    ensures
        r@ == spec_attr_row(w as int, attr),
{
    let mut r: Vec<Attributes> = Vec::new();
    let mut i: usize = 0;
    while i < w
        invariant
            i <= w,
            r@.len() == i,
            forall|j: int| 0 <= j < i ==> r@[j] == attr,
        decreases w - i,
    {
        r.push(attr);
        i = i + 1;
    }
    proof {
        assert(r@ =~= spec_attr_row(w as int, attr));
    }
    r
}

/// One row after the masked replace over the column span `[l, r)`.
fn replace_row(row: &Vec<Attributes>, l: usize, r: usize, mask: Attributes, attr: Attributes) -> (
    res: Vec<Attributes>)
    requires
        l <= r <= row@.len(),
    ensures
        res@.len() == row@.len(),
        forall|x: int| #![trigger res@[x]]
            0 <= x < row@.len() ==> res@[x] == if l <= x < r {
                spec_masked(row@[x], mask, attr)
            } else {
                row@[x]
            },
{
    let mut res: Vec<Attributes> = Vec::new();
    let mut x: usize = 0;
    while x < row.len()
        invariant
            x <= row@.len(),
            res@.len() == x,
            l <= r <= row@.len(),
            forall|j: int| #![trigger res@[j]]
                0 <= j < x ==> res@[j] == if l <= j < r {
                    spec_masked(row@[j], mask, attr)
                } else {
                    row@[j]
                },
        decreases row@.len() - x,
    {
        if l <= x && x < r {
            if mask.bits == 3 {
                res.push(attr);
            } else {
                let cell = row[x];
                res.push(Attributes { bits: (cell.bits & !mask.bits) | attr.bits });
            }
        } else {
            res.push(row[x]);
        }
        x = x + 1;
    }
    res
}

/// How the attribute plane changes under `replace(target, mask, attr)`:
/// every cell in the clipped target takes its masked value, every other cell
/// keeps its value.
pub open spec fn replace_rel(
    pre: AttributeBuffer,
    post: AttributeBuffer,
    target: Rect,
    mask: Attributes,
    attr: Attributes,
) -> bool {
    &&& post.size == pre.size
    &&& forall|x: int, y: int|
        0 <= x < pre.size.width && 0 <= y < pre.size.height ==> #[trigger] post.cell(x, y)
            == if pre.in_clip(target, x, y) {
            spec_masked(pre.cell(x, y), mask, attr)
        } else {
            pre.cell(x, y)
        }
}

/// Whether two attribute rows hold the same cells.
pub fn attr_rows_eq(a: &Vec<Attributes>, b: &Vec<Attributes>) -> (r: bool)
    ensures
        r == (a@ == b@),
{
    if a.len() != b.len() {
        proof {
            assert(a@.len() != b@.len() ==> a@ != b@);
        }
        return false;
    }
    let mut i: usize = 0;
    while i < a.len()
        invariant
            i <= a@.len(),
            a@.len() == b@.len(),
            forall|j: int| 0 <= j < i ==> a@[j] == b@[j],
        decreases a@.len() - i,
    {
        if a[i] != b[i] {
            return false;
        }
        i = i + 1;
    }
    proof {
        assert(a@ =~= b@);
    }
    true
}

/// Replacing with the full mask assigns `attr` to every cell of the clipped
/// target: a read after `replace(target, all, attr)` yields exactly `attr`
/// there.
pub proof fn lemma_replace_attr_all(
    pre: AttributeBuffer,
    post: AttributeBuffer,
    target: Rect,
    attr: Attributes,
)
    requires
        replace_rel(pre, post, target, Attributes { bits: 3 }, attr),
    ensures
        forall|x: int, y: int|
            0 <= x < pre.size.width && 0 <= y < pre.size.height && pre.in_clip(target, x, y)
                ==> #[trigger] post.cell(x, y) == attr,
{
}

/// The attribute plane of a frame buffer.
pub struct AttributeBuffer {
    pub data: Vec<Vec<Attributes>>,
    pub size: Size,
}

impl AttributeBuffer {
    pub open spec fn wf(self) -> bool {
        &&& 0 <= self.size.width
        &&& 0 <= self.size.height
        &&& self.data@.len() == self.size.height
        &&& forall|y: int|
            0 <= y < self.data@.len() ==> (#[trigger] self.data@[y]@).len() == self.size.width
    }

    pub open spec fn cell(self, x: int, y: int) -> Attributes {
        self.data@[y]@[x]
    }

    /// All cells hold no attribute.
    pub open spec fn all_clear(self) -> bool {
        forall|y: int|
            0 <= y < self.data@.len() ==> #[trigger] self.data@[y]@ == spec_attr_row(
                self.size.width as int,
                Attributes { bits: 0 },
            )
    }

    pub fn new(size: Size) -> (r: AttributeBuffer)
        requires
            0 <= size.width,
            0 <= size.height,
        ensures
            r.wf(),
            r.size == size,
            r.all_clear(),
    {
        let mut data: Vec<Vec<Attributes>> = Vec::new();
        let mut y: usize = 0;
        while y < size.height as usize
            invariant
                y <= size.height,
                0 <= size.width,
                data@.len() == y,
                forall|i: int|
                    0 <= i < y ==> #[trigger] data@[i]@ == spec_attr_row(
                        size.width as int,
                        Attributes { bits: 0 },
                    ),
            decreases size.height - y,
        {
            data.push(make_attr_row(size.width as usize, Attributes { bits: 0 }));
            y = y + 1;
        }
        AttributeBuffer { data, size }
    }

    /// Clears every cell.
    pub fn reset(&mut self)
        requires
            old(self).wf(),
        ensures
            final(self).wf(),
            final(self).size == old(self).size,
            final(self).all_clear(),
    {
        let h = self.data.len();
        let mut y: usize = 0;
        while y < h
            invariant
                y <= h,
                h == self.data@.len(),
                self.size == old(self).size,
                0 <= self.size.width,
                0 <= self.size.height,
                self.data@.len() == self.size.height,
                forall|i: int|
                    0 <= i < y ==> #[trigger] self.data@[i]@ == spec_attr_row(
                        self.size.width as int,
                        Attributes { bits: 0 },
                    ),
                forall|i: int|
                    y <= i < self.data@.len() ==> (#[trigger] self.data@[i]@).len()
                        == self.size.width,
            decreases h - y,
        {
            let row = make_attr_row(self.size.width as usize, Attributes { bits: 0 });
            self.data[y] = row;
            y = y + 1;
        }
    }

    pub open spec fn in_clip(self, target: Rect, x: int, y: int) -> bool {
        let c = target.spec_intersect(self.size.spec_as_rect());
        c.left <= x < c.right && c.top <= y < c.bottom
    }

    /// Per cell inside the clipped `target`: clears the bits of `mask`, then
    /// sets the bits of `attr`. With `mask` covering every defined bit this is
    /// plain assignment of `attr`'s bits over cleared cells.
    pub fn replace(&mut self, target: Rect, mask: Attributes, attr: Attributes)
        requires
            old(self).wf(),
        ensures
            final(self).wf(),
            replace_rel(*old(self), *final(self), target, mask, attr),
    {
        let c = target.intersect(self.size.as_rect());
        if c.is_empty() {
            return ;
        }
        let top = c.top as usize;
        let bottom = c.bottom as usize;
        let left = c.left as usize;
        let right = c.right as usize;
        let mut y = top;
        while y < bottom
            invariant
                top <= y <= bottom,
                self.size == old(self).size,
                old(self).wf(),
                self.data@.len() == old(self).data@.len(),
                c == target.spec_intersect(old(self).size.spec_as_rect()),
                !c.spec_is_empty(),
                0 <= c.left < c.right <= old(self).size.width,
                0 <= c.top < c.bottom <= old(self).size.height,
                top == c.top && bottom == c.bottom && left == c.left && right == c.right,
                forall|i: int|
                    0 <= i < self.data@.len() && !(top <= i < y) ==> self.data@[i]
                        == old(self).data@[i],
                forall|i: int|
                    top <= i < y ==> (#[trigger] self.data@[i]@).len() == old(self).size.width,
                forall|i: int, x: int| #![trigger self.data@[i]@[x]]
                    top <= i < y && 0 <= x < old(self).size.width ==> self.data@[i]@[x] == if left
                        <= x < right {
                        spec_masked(old(self).data@[i]@[x], mask, attr)
                    } else {
                        old(self).data@[i]@[x]
                    },
            decreases bottom - y,
        {
            let row = replace_row(&self.data[y], left, right, mask, attr);
            self.data[y] = row;
            y = y + 1;
        }
    }
}

} // verus!
