//! Visual-column measurement over character sequences.
//!
//! Every character occupies a fixed number of terminal columns: 0 for
//! combining and other invisible code points, 2 for the common East-Asian
//! wide and fullwidth blocks, and 1 otherwise. The classification is the
//! crate's own, stated exactly by `char_cols_spec`; rows of the framebuffer
//! keep their total column count invariant under every edit.
//!
//! `walk` advances a cursor through a sequence towards a target column and is
//! the executable counterpart of `spec_walk`: it stops at the last position
//! whose column is still at or before the target, never inside a wide
//! character.

use vstd::prelude::*;

verus! {

/// Code points drawn two columns wide: the common East-Asian wide and
/// fullwidth blocks.
pub open spec fn is_wide_cp(u: u32) -> bool {
    (0x1100 <= u && u <= 0x115F) || (0x2E80 <= u && u <= 0x303E) || (0x3041 <= u && u <= 0x33FF)
        || (0x3400 <= u && u <= 0x4DBF) || (0x4E00 <= u && u <= 0x9FFF) || (0xA000 <= u && u
        <= 0xA4CF) || (0xAC00 <= u && u <= 0xD7A3) || (0xF900 <= u && u <= 0xFAFF) || (0xFE30 <= u
        && u <= 0xFE4F) || (0xFF00 <= u && u <= 0xFF60) || (0xFFE0 <= u && u <= 0xFFE6) || (0x1F300
        <= u && u <= 0x1F64F) || (0x1F900 <= u && u <= 0x1F9FF) || (0x20000 <= u && u <= 0x2FFFD)
        || (0x30000 <= u && u <= 0x3FFFD)
}

/// Code points that occupy no column of their own: combining marks,
/// zero-width separators and variation selectors.
pub open spec fn is_zero_cp(u: u32) -> bool {
    (0x0300 <= u && u <= 0x036F) || (0x200B <= u && u <= 0x200F) || (0xFE00 <= u && u <= 0xFE0F)
}

/// Number of terminal columns a character occupies.
pub open spec fn char_cols_spec(c: char) -> int {
    if is_zero_cp(c as u32) {
        0
    } else if is_wide_cp(c as u32) {
        2
    } else {
        1
    }
}

/// Executable column count of one character, exactly `char_cols_spec`.
pub fn char_cols(c: char) -> (w: usize)
    ensures
        w == char_cols_spec(c),
        w <= 2,
{
    let u = c as u32;
    if (0x0300 <= u && u <= 0x036F) || (0x200B <= u && u <= 0x200F) || (0xFE00 <= u && u <= 0xFE0F) {
        0
    } else if (0x1100 <= u && u <= 0x115F) || (0x2E80 <= u && u <= 0x303E) || (0x3041 <= u && u
        <= 0x33FF) || (0x3400 <= u && u <= 0x4DBF) || (0x4E00 <= u && u <= 0x9FFF) || (0xA000 <= u
        && u <= 0xA4CF) || (0xAC00 <= u && u <= 0xD7A3) || (0xF900 <= u && u <= 0xFAFF) || (0xFE30
        <= u && u <= 0xFE4F) || (0xFF00 <= u && u <= 0xFF60) || (0xFFE0 <= u && u <= 0xFFE6) || (
    0x1F300 <= u && u <= 0x1F64F) || (0x1F900 <= u && u <= 0x1F9FF) || (0x20000 <= u && u
        <= 0x2FFFD) || (0x30000 <= u && u <= 0x3FFFD) {
        2
    } else {
        1
    }
}

/// Total column count of a character sequence.
pub open spec fn cols(s: Seq<char>) -> int
    decreases s.len(),
{
    if s.len() == 0 {
        0
    } else {
        char_cols_spec(s[0]) + cols(s.drop_first())
    }
}

pub proof fn lemma_cols_append(a: Seq<char>, b: Seq<char>)
    ensures
        cols(a + b) == cols(a) + cols(b),
    decreases a.len(),
{
    if a.len() == 0 {
        assert(a + b =~= b);
    } else {
        lemma_cols_append(a.drop_first(), b);
        assert((a + b).drop_first() =~= a.drop_first() + b);
    }
}

pub proof fn lemma_cols_single(c: char)
    ensures
        cols(seq![c]) == char_cols_spec(c),
{
    assert(seq![c].drop_first() =~= Seq::<char>::empty());
    assert(cols(seq![c]) == char_cols_spec(seq![c][0]) + cols(seq![c].drop_first()));
}

/// Splitting a subrange at an interior index splits its column count.
pub proof fn lemma_cols_split(s: Seq<char>, i: int, j: int, k: int)
    requires
        0 <= i <= j <= k <= s.len(),
    ensures
        cols(s.subrange(i, k)) == cols(s.subrange(i, j)) + cols(s.subrange(j, k)),
{
    lemma_cols_append(s.subrange(i, j), s.subrange(j, k));
    assert(s.subrange(i, j) + s.subrange(j, k) =~= s.subrange(i, k));
}

/// A sequence of `n` spaces covers `n` columns.
pub proof fn lemma_cols_spaces(s: Seq<char>)
    requires
        forall|i: int| 0 <= i < s.len() ==> s[i] == ' ',
    ensures
        cols(s) == s.len(),
    decreases s.len(),
{
    if s.len() > 0 {
        lemma_cols_spaces(s.drop_first());
    }
}

/// A sequence of `n` ASCII spaces (empty when `n` is negative).
pub open spec fn spec_spaces(n: int) -> Seq<char> {
    Seq::new(if n >= 0 { n as nat } else { 0 }, |i: int| ' ')
}

pub proof fn lemma_spaces_cols(n: int)
    requires
        n >= 0,
    ensures
        spec_spaces(n).len() == n,
        cols(spec_spaces(n)) == n,
{
    lemma_cols_spaces(spec_spaces(n));
}

/// Cursor advance: starting at index `i` and column `vis`, consume characters
/// while the next one still fits at or before `target` columns. Returns the
/// index and column reached. A wide character that would cross the target is
/// not consumed; zero-width characters are always consumed.
pub open spec fn spec_walk(s: Seq<char>, i: int, vis: int, target: int) -> (int, int)
    decreases s.len() - i,
{
    if i < 0 || i >= s.len() || vis + char_cols_spec(s[i]) > target {
        (i, vis)
    } else {
        spec_walk(s, i + 1, vis + char_cols_spec(s[i]), target)
    }
}

pub proof fn lemma_walk_props(s: Seq<char>, i: int, vis: int, target: int)
    requires
        0 <= i <= s.len(),
        vis <= target,
    ensures
        i <= spec_walk(s, i, vis, target).0 <= s.len(),
        vis <= spec_walk(s, i, vis, target).1 <= target,
        spec_walk(s, i, vis, target).1 - vis == cols(
            s.subrange(i, spec_walk(s, i, vis, target).0),
        ),
        spec_walk(s, i, vis, target).0 < s.len() ==> spec_walk(s, i, vis, target).1
            + char_cols_spec(s[spec_walk(s, i, vis, target).0]) > target,
    decreases s.len() - i,
{
    if i < s.len() && vis + char_cols_spec(s[i]) <= target {
        lemma_walk_props(s, i + 1, vis + char_cols_spec(s[i]), target);
        let j = spec_walk(s, i, vis, target).0;
        assert(s.subrange(i, j).drop_first() =~= s.subrange(i + 1, j));
    } else {
        assert(s.subrange(i, i) =~= Seq::<char>::empty());
    }
}

/// Executable cursor advance, exactly `spec_walk`.
pub fn walk(chars: &Vec<char>, i0: usize, vis0: usize, target: usize) -> (r: (usize, usize))
    requires
        i0 <= chars@.len(),
        vis0 <= target,
        target <= 0xffff_ffff,
    ensures
        (r.0 as int, r.1 as int) == spec_walk(chars@, i0 as int, vis0 as int, target as int),
        i0 <= r.0 <= chars@.len(),
        vis0 <= r.1 <= target,
{
    let ghost s = chars@;
    let mut i = i0;
    let mut vis = vis0;
    proof {
        lemma_walk_props(s, i0 as int, vis0 as int, target as int);
    }
    loop
        invariant
            i0 <= i <= s.len(),
            vis0 <= vis <= target,
            chars@ == s,
            target <= 0xffff_ffff,
            spec_walk(s, i as int, vis as int, target as int) == spec_walk(
                s,
                i0 as int,
                vis0 as int,
                target as int,
            ),
        ensures
            i0 <= i <= s.len(),
            vis0 <= vis <= target,
            (i as int, vis as int) == spec_walk(s, i0 as int, vis0 as int, target as int),
        decreases s.len() - i,
    {
        if i >= chars.len() {
            proof {
                assert(spec_walk(s, i as int, vis as int, target as int) == (i as int, vis as int));
            }
            break ;
        }
        let w = char_cols(chars[i]);
        if w > target - vis {
            proof {
                assert(vis + char_cols_spec(s[i as int]) > target);
                assert(spec_walk(s, i as int, vis as int, target as int) == (i as int, vis as int));
            }
            break ;
        }
        proof {
            assert(spec_walk(s, i as int, vis as int, target as int) == spec_walk(
                s,
                i as int + 1,
                vis as int + char_cols_spec(s[i as int]),
                target as int,
            ));
        }
        vis = vis + w;
        i = i + 1;
    }
    proof {
        lemma_walk_props(s, i0 as int, vis0 as int, target as int);
    }
    (i, vis)
}

} // verus!
