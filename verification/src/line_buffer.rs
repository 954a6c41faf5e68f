//! The text plane of the framebuffer: one row of characters per screen line.
//!
//! Invariant: every row covers exactly `width` visual columns (`cols`).
//! `replace_text` overwrites a visual column range of one row with the prefix
//! of a new text that fits, padding with spaces where the edit cuts a
//! two-column character in half, so the invariant is preserved by every edit.

use vstd::prelude::*;
use crate::helpers::{CoordType, Size};
use crate::strutil::{copy_chars, push_range, push_spaces, str_to_chars};
use crate::unicode::{char_cols, char_cols_spec, cols, lemma_cols_split, lemma_spaces_cols,
    lemma_walk_props, spec_spaces, spec_walk, walk};

verus! {

/// The row that results from replacing the visual column range
/// `[origin_x, clip_right)` of `row` with the prefix of `text` that fits.
///
/// Mirrors the executable algorithm exactly:
/// 1. `clip_right` is clamped to `[0, width]`; nothing happens when the
///    target range or the text is empty.
/// 2. A negative `origin_x` first consumes the off-screen prefix of `text`;
///    a two-column character cut by the left edge is skipped whole.
/// 3. The consumed prefix of `text` that fits before `clip_right` is measured,
///    the covered span of `row` is located, and a two-column character cut at
///    either end of that span is replaced by padding spaces.
pub open spec fn replaced_row(
    row: Seq<char>,
    width: int,
    origin_x: int,
    clip_right: int,
    text: Seq<char>,
) -> Seq<char> {
    let cr = if clip_right < 0 {
        0
    } else if clip_right > width {
        width
    } else {
        clip_right
    };
    let layout_width = cr - origin_x;
    if layout_width <= 0 || text.len() == 0 {
        row
    } else {
        let p1 = if origin_x < 0 {
            spec_walk(text, 0, 0, -origin_x)
        } else {
            (0, 0)
        };
        let p = if origin_x < 0 && origin_x + p1.1 < 0 && p1.0 < text.len() {
            (p1.0 + 1, p1.1 + char_cols_spec(text[p1.0]))
        } else {
            p1
        };
        let left = origin_x + p.1;
        if left < 0 || left >= cr {
            row
        } else {
            let e = spec_walk(text, p.0, p.1, layout_width);
            let right = left + (e.1 - p.1);
            let b = spec_walk(row, 0, 0, left);
            let e0 = spec_walk(row, b.0, b.1, right);
            let eo = if e0.1 < right && e0.0 < row.len() {
                (e0.0 + 1, e0.1 + char_cols_spec(row[e0.0]))
            } else {
                e0
            };
            row.subrange(0, b.0) + spec_spaces(left - b.1) + text.subrange(p.0, e.0) + spec_spaces(
                eo.1 - right,
            ) + row.subrange(eo.0, row.len() as int)
        }
    }
}

/// Replacing a column range never changes the total column count of a row.
pub proof fn lemma_replaced_row_cols(
    row: Seq<char>,
    width: int,
    origin_x: int,
    clip_right: int,
    text: Seq<char>,
)
    requires
        cols(row) == width,
        width >= 0,
    ensures
        cols(replaced_row(row, width, origin_x, clip_right, text)) == width,
{
    let cr = if clip_right < 0 {
        0
    } else if clip_right > width {
        width
    } else {
        clip_right
    };
    let layout_width = cr - origin_x;
    if layout_width <= 0 || text.len() == 0 {
    } else {
        let p1 = if origin_x < 0 {
            spec_walk(text, 0, 0, -origin_x)
        } else {
            (0, 0)
        };
        if origin_x < 0 {
            lemma_walk_props(text, 0, 0, -origin_x);
        }
        let p = if origin_x < 0 && origin_x + p1.1 < 0 && p1.0 < text.len() {
            (p1.0 + 1, p1.1 + char_cols_spec(text[p1.0]))
        } else {
            p1
        };
        let left = origin_x + p.1;
        if left < 0 || left >= cr {
        } else {
            let e = spec_walk(text, p.0, p.1, layout_width);
            lemma_walk_props(text, p.0, p.1, layout_width);
            let right = left + (e.1 - p.1);
            let b = spec_walk(row, 0, 0, left);
            lemma_walk_props(row, 0, 0, left);
            let e0 = spec_walk(row, b.0, b.1, right);
            lemma_walk_props(row, b.0, b.1, right);
            let eo = if e0.1 < right && e0.0 < row.len() {
                (e0.0 + 1, e0.1 + char_cols_spec(row[e0.0]))
            } else {
                e0
            };
            // Column counts of the five concatenated pieces.
            assert(row.subrange(0, row.len() as int) =~= row);
            lemma_cols_split(row, 0, b.0, row.len() as int);
            lemma_cols_split(row, b.0, e0.0, row.len() as int);
            if eo.0 == e0.0 + 1 {
                lemma_cols_split(row, e0.0, eo.0, row.len() as int);
                assert(row.subrange(e0.0, e0.0 + 1) =~= seq![row[e0.0]]);
                crate::unicode::lemma_cols_single(row[e0.0]);
            } else {
                // The walk ran to the end of the row or reached `right` exactly.
                if e0.0 == row.len() && e0.1 < right {
                    // Impossible: the row covers `width >= right` columns.
                    assert(row.subrange(0, row.len() as int) =~= row);
                    lemma_cols_split(row, 0, b.0, row.len() as int);
                    assert(false);
                }
            }
            lemma_spaces_cols(left - b.1);
            lemma_spaces_cols(eo.1 - right);
            let piece1 = row.subrange(0, b.0);
            let piece2 = spec_spaces(left - b.1);
            let piece3 = text.subrange(p.0, e.0);
            let piece4 = spec_spaces(eo.1 - right);
            let piece5 = row.subrange(eo.0, row.len() as int);
            crate::unicode::lemma_cols_append(piece1, piece2);
            crate::unicode::lemma_cols_append(piece1 + piece2, piece3);
            crate::unicode::lemma_cols_append(piece1 + piece2 + piece3, piece4);
            crate::unicode::lemma_cols_append(piece1 + piece2 + piece3 + piece4, piece5);
            assert(cols(piece1) == b.1);
            assert(cols(piece3) == e.1 - p.1);
            assert(cols(piece5) == width - eo.1);
        }
    }
}

/// Replacing with `origin_x >= clip_right` leaves the row unchanged: the
/// target column range is empty.
pub proof fn lemma_replace_text_noop(
    row: Seq<char>,
    width: int,
    origin_x: int,
    clip_right: int,
    text: Seq<char>,
)
    requires
        origin_x >= clip_right,
    ensures
        replaced_row(row, width, origin_x, clip_right, text) == row,
{
}

/// The executable replacement: a fresh row equal to `replaced_row`.
#[verifier::rlimit(60)]
fn compute_replaced(row: &Vec<char>, width: i32, origin_x: i32, clip_right: i32, text: &Vec<char>)
    -> (r: Vec<char>)
    requires
        0 <= width,
        cols(row@) == width,
    ensures
        r@ == replaced_row(row@, width as int, origin_x as int, clip_right as int, text@),
{
    let ghost rs = row@;
    let ghost ts = text@;
    let ghost spec_cr: int = if clip_right < 0 {
        0
    } else if clip_right > width {
        width as int
    } else {
        clip_right as int
    };
    let cr: i32 = if clip_right < 0 {
        0
    } else if clip_right > width {
        width
    } else {
        clip_right
    };
    let layout_width: i64 = cr as i64 - origin_x as i64;
    proof {
        assert(cr as int == spec_cr);
        assert(layout_width as int == spec_cr - origin_x);
        assert(layout_width <= 0xffff_ffffi64);
    }
    if layout_width <= 0 || text.len() == 0 {
        return copy_chars(row);
    }
    proof {
        assert(0 < layout_width <= 0xffff_ffffi64);
    }
    // Off-screen prefix of the text for a negative origin.
    let ghost spec_p1: (int, int) = if origin_x < 0 {
        spec_walk(ts, 0, 0, -(origin_x as int))
    } else {
        (0, 0)
    };
    let ghost spec_p: (int, int) = if origin_x < 0 && origin_x + spec_p1.1 < 0 && spec_p1.0
        < ts.len() {
        (spec_p1.0 + 1, spec_p1.1 + char_cols_spec(ts[spec_p1.0]))
    } else {
        spec_p1
    };
    let mut ti: usize = 0;
    let mut tv: usize = 0;
    if origin_x < 0 {
        let neg: i64 = -(origin_x as i64);
        proof {
            assert(0 < neg <= 0x8000_0000i64);
        }
        let w1 = walk(text, 0, 0, neg as usize);
        ti = w1.0;
        tv = w1.1;
        proof {
            lemma_walk_props(ts, 0, 0, neg as int);
            assert((ti as int, tv as int) == spec_p1);
        }
        if (origin_x as i64) + (tv as i64) < 0 && ti < text.len() {
            let wc = char_cols(text[ti]);
            tv = tv + wc;
            ti = ti + 1;
        }
    }
    proof {
        assert((ti as int, tv as int) == spec_p);
    }
    let left: i64 = (origin_x as i64) + (tv as i64);
    if left < 0 || left >= cr as i64 {
        return copy_chars(row);
    }
    proof {
        assert(tv <= layout_width);
    }
    // Measure the span of `text` that fits before `cr`.
    let e = walk(text, ti, tv, layout_width as usize);
    proof {
        lemma_walk_props(ts, ti as int, tv as int, layout_width as int);
    }
    let tend = e.0;
    let tvend = e.1;
    proof {
        assert((tend as int, tvend as int) == spec_walk(ts, spec_p.0, spec_p.1, layout_width as int));
        assert((left as int) + (tvend as int - tv as int) == origin_x + tvend);
        assert(origin_x + tvend <= spec_cr);
    }
    let right: usize = (left as usize) + (tvend - tv);

    // Locate the covered span of the row.
    let b = walk(row, 0, 0, left as usize);
    proof {
        lemma_walk_props(rs, 0, 0, left as int);
    }
    let bi = b.0;
    let bvis = b.1;
    proof {
        assert(bvis <= right);
    }
    let e0 = walk(row, bi, bvis, right);
    proof {
        lemma_walk_props(rs, bi as int, bvis as int, right as int);
    }
    let mut ei = e0.0;
    let mut evis = e0.1;
    proof {
        // The end walk cannot run out of row short of `right`: the row covers
        // `width >= right` columns.
        if e0.0 == rs.len() && e0.1 < right {
            assert(rs.subrange(0, rs.len() as int) =~= rs);
            lemma_cols_split(rs, 0, bi as int, rs.len() as int);
            assert(false);
        }
    }
    if evis < right && ei < row.len() {
        let wc = char_cols(row[ei]);
        evis = evis + wc;
        ei = ei + 1;
    }
    let ghost spec_eo: (int, int) = {
        let e0s = spec_walk(rs, bi as int, bvis as int, right as int);
        if e0s.1 < right && e0s.0 < rs.len() {
            (e0s.0 + 1, e0s.1 + char_cols_spec(rs[e0s.0]))
        } else {
            e0s
        }
    };
    proof {
        assert((ei as int, evis as int) == spec_eo);
        assert(evis >= right);
    }

    let mut out: Vec<char> = Vec::new();
    push_range(&mut out, row, 0, bi);
    push_spaces(&mut out, (left as usize) - bvis);
    push_range(&mut out, text, ti, tend);
    push_spaces(&mut out, evis - right);
    push_range(&mut out, row, ei, row.len());
    proof {
        let spec_res = replaced_row(rs, width as int, origin_x as int, clip_right as int, ts);
        assert(spec_res == rs.subrange(0, bi as int) + spec_spaces(left as int - bvis as int)
            + ts.subrange(ti as int, tend as int) + spec_spaces(evis as int - right as int)
            + rs.subrange(ei as int, rs.len() as int));
        assert(out@ =~= spec_res);
    }
    out
}

/// How the text plane changes under `replace_text(y, origin_x, clip_right,
/// text)`: row `y` becomes its `replaced_row`, every other row keeps its
/// characters, and a `y` outside the buffer changes nothing.
pub open spec fn replace_text_rel(
    pre: LineBuffer,
    post: LineBuffer,
    y: int,
    origin_x: int,
    clip_right: int,
    text: Seq<char>,
) -> bool {
    &&& post.size == pre.size
    &&& post.lines@.len() == pre.lines@.len()
    &&& (0 <= y < pre.lines@.len() ==> post.lines@[y]@ == replaced_row(
        pre.lines@[y]@,
        pre.size.width as int,
        origin_x,
        clip_right,
        text,
    ))
    &&& forall|i: int| 0 <= i < pre.lines@.len() && i != y ==> post.lines@[i] == pre.lines@[i]
    &&& (!(0 <= y < pre.lines@.len()) ==> post.lines@ == pre.lines@)
}

/// The text rows of a frame buffer.
pub struct LineBuffer {
    pub lines: Vec<Vec<char>>,
    pub size: Size,
}

impl LineBuffer {
    /// Every row covers exactly `width` columns and there is one row per line.
    pub open spec fn wf(self) -> bool {
        &&& 0 <= self.size.width
        &&& 0 <= self.size.height
        &&& self.lines@.len() == self.size.height
        &&& forall|y: int|
            0 <= y < self.lines@.len() ==> cols(#[trigger] self.lines@[y]@) == self.size.width
    }

    /// All rows are all-space.
    pub open spec fn all_blank(self) -> bool {
        forall|y: int|
            0 <= y < self.lines@.len() ==> #[trigger] self.lines@[y]@ == spec_spaces(
                self.size.width as int,
            )
    }

    /// A buffer of `size.height` rows of `size.width` spaces each.
    pub fn new(size: Size) -> (r: LineBuffer)
        requires
            0 <= size.width,
            0 <= size.height,
        ensures
            r.wf(),
            r.all_blank(),
            r.size == size,
    {
        let mut lines: Vec<Vec<char>> = Vec::new();
        let mut y: usize = 0;
        while y < size.height as usize
            invariant
                y <= size.height,
                0 <= size.width,
                lines@.len() == y,
                forall|i: int|
                    0 <= i < y ==> #[trigger] lines@[i]@ == spec_spaces(size.width as int),
            decreases size.height - y,
        {
            let mut row: Vec<char> = Vec::new();
            push_spaces(&mut row, size.width as usize);
            proof {
                assert(row@ =~= spec_spaces(size.width as int));
            }
            lines.push(row);
            y = y + 1;
        }
        proof {
            lemma_spaces_cols(size.width as int);
        }
        LineBuffer { lines, size }
    }

    /// Resets every row to spaces.
    pub fn fill_whitespace(&mut self)
        requires
            old(self).wf(),
        ensures
            final(self).wf(),
            final(self).all_blank(),
            final(self).size == old(self).size,
    {
        let h = self.lines.len();
        let mut y: usize = 0;
        while y < h
            invariant
                y <= h,
                h == self.lines@.len(),
                self.size == old(self).size,
                0 <= self.size.width,
                0 <= self.size.height,
                self.lines@.len() == self.size.height,
                forall|i: int|
                    0 <= i < y ==> #[trigger] self.lines@[i]@ == spec_spaces(self.size.width as int),
                forall|i: int|
                    y <= i < self.lines@.len() ==> cols(#[trigger] self.lines@[i]@)
                        == self.size.width,
            decreases h - y,
        {
            let mut row: Vec<char> = Vec::new();
            push_spaces(&mut row, self.size.width as usize);
            proof {
                assert(row@ =~= spec_spaces(self.size.width as int));
            }
            self.lines[y] = row;
            y = y + 1;
        }
        proof {
            lemma_spaces_cols(self.size.width as int);
        }
    }

    /// Replaces the visual column range `[origin_x, clip_right)` of row `y`
    /// with the prefix of `text` that fits; rows keep their column count.
    /// A `y` outside the buffer leaves it unchanged.
    pub fn replace_text(&mut self, y: CoordType, origin_x: CoordType, clip_right: CoordType,
        text: &Vec<char>)
        requires
            old(self).wf(),
        ensures
            final(self).wf(),
            replace_text_rel(
                *old(self),
                *final(self),
                y as int,
                origin_x as int,
                clip_right as int,
                text@,
            ),
    {
        if y < 0 {
            return ;
        }
        let yu = y as usize;
        if yu >= self.lines.len() {
            return ;
        }
        let new_row = compute_replaced(
            &self.lines[yu],
            self.size.width,
            origin_x,
            clip_right,
            text,
        );
        proof {
            lemma_replaced_row_cols(
                self.lines@[y as int]@,
                self.size.width as int,
                origin_x as int,
                clip_right as int,
                text@,
            );
        }
        self.lines[yu] = new_row;
    }
}

} // verus!
