//! A double-buffered framebuffer for terminal applications.
//!
//! Clients begin a frame with [`Framebuffer::flip`], draw text, colors and
//! attributes into the back buffer, and call [`Framebuffer::render`], which
//! diffs the back buffer against the front buffer (what the terminal already
//! shows) and returns the VT escape-sequence stream that transforms one into
//! the other.

pub use crate::attributes::Attributes;
pub use crate::attributes::AttributeBuffer;
pub use crate::bitmap::Bitmap;
pub use crate::cursor::Cursor;
pub use crate::line_buffer::LineBuffer;

use vstd::prelude::*;
use crate::attributes::{attr_rows_eq, replace_rel};
use crate::bitmap::{blend_rel, color_rows_eq, spec_blend_cell, swap_rect, swap_rel};
use crate::color::{spec_from_be, StraightRgba, LIGHTNESS_MAX};
use crate::helpers::{CoordType, Point, Rect, Size};
use crate::line_buffer::{replace_text_rel, replaced_row};
use crate::sgr::{push_dec, spec_dec};
use crate::strutil::{chars_eq, chars_to_string, push_range, str_to_chars};
use crate::unicode::{spec_walk, walk};

verus! {

/// Number of palette entries: the 16 standard VT colors, then the default
/// background and foreground.
pub const INDEXED_COLORS_COUNT: usize = 18;

/// Standard 16 VT colors and the default background/foreground.
#[derive(Clone, Copy, PartialEq, Eq, Structural, Debug)]
pub enum IndexedColor {
    Black,
    Red,
    Green,
    Yellow,
    Blue,
    Magenta,
    Cyan,
    White,
    BrightBlack,
    BrightRed,
    BrightGreen,
    BrightYellow,
    BrightBlue,
    BrightMagenta,
    BrightCyan,
    BrightWhite,
    Background,
    Foreground,
}

impl IndexedColor {
    /// Position of this color in the palette array.
    pub open spec fn spec_index(self) -> int {
        match self {
            IndexedColor::Black => 0,
            IndexedColor::Red => 1,
            IndexedColor::Green => 2,
            IndexedColor::Yellow => 3,
            IndexedColor::Blue => 4,
            IndexedColor::Magenta => 5,
            IndexedColor::Cyan => 6,
            IndexedColor::White => 7,
            IndexedColor::BrightBlack => 8,
            IndexedColor::BrightRed => 9,
            IndexedColor::BrightGreen => 10,
            IndexedColor::BrightYellow => 11,
            IndexedColor::BrightBlue => 12,
            IndexedColor::BrightMagenta => 13,
            IndexedColor::BrightCyan => 14,
            IndexedColor::BrightWhite => 15,
            IndexedColor::Background => 16,
            IndexedColor::Foreground => 17,
        }
    }

    pub fn index_of(self) -> (i: usize)
        ensures
            i == self.spec_index(),
            i < 18,
    {
        match self {
            IndexedColor::Black => 0,
            IndexedColor::Red => 1,
            IndexedColor::Green => 2,
            IndexedColor::Yellow => 3,
            IndexedColor::Blue => 4,
            IndexedColor::Magenta => 5,
            IndexedColor::Cyan => 6,
            IndexedColor::White => 7,
            IndexedColor::BrightBlack => 8,
            IndexedColor::BrightRed => 9,
            IndexedColor::BrightGreen => 10,
            IndexedColor::BrightYellow => 11,
            IndexedColor::BrightBlue => 12,
            IndexedColor::BrightMagenta => 13,
            IndexedColor::BrightCyan => 14,
            IndexedColor::BrightWhite => 15,
            IndexedColor::Background => 16,
            IndexedColor::Foreground => 17,
        }
    }
}

/// The fallback palette, as big-endian `rgba` literals.
pub open spec fn spec_default_theme() -> Seq<StraightRgba> {
    seq![
        StraightRgba { bits: spec_from_be(0x000000ff) },
        StraightRgba { bits: spec_from_be(0xbe2c21ff) },
        StraightRgba { bits: spec_from_be(0x3fae3aff) },
        StraightRgba { bits: spec_from_be(0xbe9a4aff) },
        StraightRgba { bits: spec_from_be(0x204dbeff) },
        StraightRgba { bits: spec_from_be(0xbb54beff) },
        StraightRgba { bits: spec_from_be(0x00a7b2ff) },
        StraightRgba { bits: spec_from_be(0xbebebeff) },
        StraightRgba { bits: spec_from_be(0x808080ff) },
        StraightRgba { bits: spec_from_be(0xff3e30ff) },
        StraightRgba { bits: spec_from_be(0x58ea51ff) },
        StraightRgba { bits: spec_from_be(0xffc944ff) },
        StraightRgba { bits: spec_from_be(0x2f6affff) },
        StraightRgba { bits: spec_from_be(0xfc74ffff) },
        StraightRgba { bits: spec_from_be(0x00e1f0ff) },
        StraightRgba { bits: spec_from_be(0xffffffff) },
        StraightRgba { bits: spec_from_be(0x000000ff) },
        StraightRgba { bits: spec_from_be(0xbebebeff) },
    ]
}

/// Builds the fallback palette.
pub fn default_theme() -> (r: Vec<StraightRgba>)
    ensures
        r@ == spec_default_theme(),
{
    let mut r: Vec<StraightRgba> = Vec::new();
    r.push(StraightRgba::from_be(0x000000ff));
    r.push(StraightRgba::from_be(0xbe2c21ff));
    r.push(StraightRgba::from_be(0x3fae3aff));
    r.push(StraightRgba::from_be(0xbe9a4aff));
    r.push(StraightRgba::from_be(0x204dbeff));
    r.push(StraightRgba::from_be(0xbb54beff));
    r.push(StraightRgba::from_be(0x00a7b2ff));
    r.push(StraightRgba::from_be(0xbebebeff));
    r.push(StraightRgba::from_be(0x808080ff));
    r.push(StraightRgba::from_be(0xff3e30ff));
    r.push(StraightRgba::from_be(0x58ea51ff));
    r.push(StraightRgba::from_be(0xffc944ff));
    r.push(StraightRgba::from_be(0x2f6affff));
    r.push(StraightRgba::from_be(0xfc74ffff));
    r.push(StraightRgba::from_be(0x00e1f0ff));
    r.push(StraightRgba::from_be(0xffffffff));
    r.push(StraightRgba::from_be(0x000000ff));
    r.push(StraightRgba::from_be(0xbebebeff));
    proof {
        assert(r@ =~= spec_default_theme());
    }
    r
}

/// One of the two frame states: text, the two color planes, attributes and a
/// cursor, all of one size.
pub struct Buffer {
    pub text: LineBuffer,
    pub bg_bitmap: Bitmap,
    pub fg_bitmap: Bitmap,
    pub attributes: AttributeBuffer,
    pub cursor: Cursor,
}

impl Buffer {
    /// All four grids share `size`; the cursor position leaves room for the
    /// 1-based coordinates the renderer emits.
    pub open spec fn wf(self, size: Size) -> bool {
        &&& self.text.wf()
        &&& self.text.size == size
        &&& self.bg_bitmap.wf()
        &&& self.bg_bitmap.size == size
        &&& self.fg_bitmap.wf()
        &&& self.fg_bitmap.size == size
        &&& self.attributes.wf()
        &&& self.attributes.size == size
        &&& self.cursor.pos.x < i32::MAX
        &&& self.cursor.pos.y < i32::MAX
    }

    /// A blank buffer: spaces, sentinel colors, no attributes, disabled
    /// cursor.
    pub fn new(size: Size) -> (r: Buffer)
        requires
            0 <= size.width,
            0 <= size.height,
        ensures
            r.wf(size),
            r.text.all_blank(),
            r.bg_bitmap.all_filled(StraightRgba { bits: 0 }),
            r.fg_bitmap.all_filled(StraightRgba { bits: 0 }),
            r.attributes.all_clear(),
            r.cursor == (Cursor { pos: Point { x: -1i32, y: -1i32 }, overtype: false }),
    {
        Buffer {
            text: LineBuffer::new(size),
            bg_bitmap: Bitmap::new(size),
            fg_bitmap: Bitmap::new(size),
            attributes: AttributeBuffer::new(size),
            cursor: Cursor::new_disabled(),
        }
    }
}

/// The color a contrast query answers with: the light auto color for a dark
/// input, the dark one for a light input.
pub open spec fn spec_contrast(color: StraightRgba, threshold: u32, auto: Seq<StraightRgba>)
    -> StraightRgba {
    if color.spec_lightness() < threshold {
        auto[1]
    } else {
        auto[0]
    }
}

/// Slot index of a color in the contrast cache: the top 8 bits of the color
/// word multiplied by a 64-bit MMIX-class constant.
fn hash_idx(color: StraightRgba) -> (i: usize)
    ensures
        i < 256,
{
    let x: u64 = ((color.bits as u128) * 0x5851_f42d_4c95_7f2du128) as u64;
    let i = (x >> 56) as usize;
    proof {
        assert(x >> 56 < 256) by (bit_vector);
    }
    i
}

pub struct Framebuffer {
    /// The color palette.
    pub indexed_colors: Vec<StraightRgba>,
    /// The two frame states. Which one is the back buffer follows the parity
    /// of `frame_counter`.
    pub buf0: Buffer,
    pub buf1: Buffer,
    /// Increments on every `flip`, wrapping.
    pub frame_counter: usize,
    /// `[dark, light]` contrast colors drawn from the palette.
    pub auto_colors: Vec<StraightRgba>,
    /// Lightness at or above which a color counts as light.
    pub auto_color_threshold: u32,
    /// Direct-mapped cache of contrast queries; empty slots hold `None`.
    pub contrast_colors: Vec<Option<(StraightRgba, StraightRgba)>>,
    /// Colors the back buffer is primed with on `flip`.
    pub background_fill: StraightRgba,
    pub foreground_fill: StraightRgba,
    /// When set, colors are emitted as 256-color approximations instead of
    /// 24-bit RGB.
    pub disable_true_color: bool,
}

impl Framebuffer {
    /// The current frame size.
    pub open spec fn size(self) -> Size {
        self.buf0.bg_bitmap.size
    }

    /// Whether `buf0` is the back buffer.
    pub open spec fn back_is_0(self) -> bool {
        self.frame_counter % 2 == 0
    }

    /// The buffer being drawn into.
    pub open spec fn spec_back(self) -> Buffer {
        if self.back_is_0() {
            self.buf0
        } else {
            self.buf1
        }
    }

    /// The buffer the terminal currently shows.
    pub open spec fn spec_front(self) -> Buffer {
        if self.back_is_0() {
            self.buf1
        } else {
            self.buf0
        }
    }

    /// `self` with its back buffer replaced.
    pub open spec fn with_back(self, b: Buffer) -> Framebuffer {
        if self.back_is_0() {
            Framebuffer { buf0: b, ..self }
        } else {
            Framebuffer { buf1: b, ..self }
        }
    }

    /// Everything but the two frame states agrees, the front buffer too.
    pub open spec fn same_except_back(self, other: Framebuffer) -> bool {
        &&& self.indexed_colors == other.indexed_colors
        &&& self.frame_counter == other.frame_counter
        &&& self.auto_colors == other.auto_colors
        &&& self.auto_color_threshold == other.auto_color_threshold
        &&& self.contrast_colors == other.contrast_colors
        &&& self.background_fill == other.background_fill
        &&& self.foreground_fill == other.foreground_fill
        &&& self.disable_true_color == other.disable_true_color
        &&& self.spec_front() == other.spec_front()
    }

    pub open spec fn wf(self) -> bool {
        &&& self.indexed_colors@.len() == 18
        &&& self.auto_colors@.len() == 2
        &&& self.contrast_colors@.len() == 256
        &&& self.buf0.wf(self.size())
        &&& self.buf1.wf(self.size())
        &&& forall|i: int|
            0 <= i < 256 && (#[trigger] self.contrast_colors@[i]) is Some ==> (
            self.contrast_colors@[i]->0).1 == spec_contrast(
                (self.contrast_colors@[i]->0).0,
                self.auto_color_threshold,
                self.auto_colors@,
            )
    }

    /// A fresh framebuffer: fallback palette, zero-sized buffers, empty
    /// cache, fills drawn from the palette's background and foreground.
    pub fn new() -> (r: Framebuffer)
        ensures
            r.wf(),
            r.size() == (Size { width: 0, height: 0 }),
            r.frame_counter == 0,
            r.indexed_colors@ == spec_default_theme(),
            r.auto_colors@ == seq![
                spec_default_theme()[0],
                spec_default_theme()[15],
            ],
            r.auto_color_threshold == LIGHTNESS_MAX / 2,
            r.background_fill == spec_default_theme()[16],
            r.foreground_fill == spec_default_theme()[17],
            !r.disable_true_color,
            forall|i: int| 0 <= i < 256 ==> (#[trigger] r.contrast_colors@[i]) is None,
    {
        let theme = default_theme();
        let size = Size { width: 0, height: 0 };
        let mut auto: Vec<StraightRgba> = Vec::new();
        auto.push(theme[0]);
        auto.push(theme[15]);
        let mut cache: Vec<Option<(StraightRgba, StraightRgba)>> = Vec::new();
        let mut i: usize = 0;
        while i < 256
            invariant
                i <= 256,
                cache@.len() == i,
                forall|j: int| 0 <= j < i ==> (#[trigger] cache@[j]) is None,
            decreases 256 - i,
        {
            cache.push(Option::None);
            i = i + 1;
        }
        let background_fill = theme[16];
        let foreground_fill = theme[17];
        proof {
            assert(auto@ =~= seq![spec_default_theme()[0], spec_default_theme()[15]]);
        }
        Framebuffer {
            indexed_colors: theme,
            buf0: Buffer::new(size),
            buf1: Buffer::new(size),
            frame_counter: 0,
            auto_colors: auto,
            auto_color_threshold: LIGHTNESS_MAX / 2,
            contrast_colors: cache,
            background_fill,
            foreground_fill,
            disable_true_color: false,
        }
    }

    /// Switches between 24-bit RGB and 256-color output.
    pub fn set_disable_true_color(&mut self, disable: bool)
        requires
            old(self).wf(),
        ensures
            final(self).wf(),
            *final(self) == (Framebuffer { disable_true_color: disable, ..*old(self) }),
    {
        self.disable_true_color = disable;
    }

    /// Installs a palette. The prime fills become the all-zero sentinel (the
    /// terminal's own default colors), the contrast colors are drawn from the
    /// palette's Black and BrightWhite — darker first, whatever the theme —
    /// and the threshold sits midway between their lightness values. The
    /// contrast cache is emptied, since its entries answered for the old
    /// palette.
    pub fn set_indexed_colors(&mut self, colors: [StraightRgba; 18])
        requires
            old(self).wf(),
        ensures
            final(self).wf(),
            final(self).indexed_colors@ == colors@,
            final(self).background_fill.bits == 0,
            final(self).foreground_fill.bits == 0,
            final(self).auto_color_threshold == (colors@[0].spec_lightness()
                + colors@[15].spec_lightness()) / 2,
            final(self).auto_colors@ == if colors@[0].spec_lightness()
                > colors@[15].spec_lightness() {
                seq![colors@[15], colors@[0]]
            } else {
                seq![colors@[0], colors@[15]]
            },
            final(self).auto_colors@[0].spec_lightness()
                <= final(self).auto_colors@[1].spec_lightness(),
            forall|i: int| 0 <= i < 256 ==> (#[trigger] final(self).contrast_colors@[i]) is None,
            final(self).buf0 == old(self).buf0,
            final(self).buf1 == old(self).buf1,
            final(self).frame_counter == old(self).frame_counter,
            final(self).disable_true_color == old(self).disable_true_color,
    {
        let mut v: Vec<StraightRgba> = Vec::new();
        let mut i: usize = 0;
        while i < 18
            invariant
                i <= 18,
                v@.len() == i,
                forall|j: int| 0 <= j < i ==> v@[j] == colors@[j],
            decreases 18 - i,
        {
            v.push(colors[i]);
            i = i + 1;
        }
        proof {
            assert(v@ =~= colors@);
        }
        self.indexed_colors = v;
        self.background_fill = StraightRgba::zero();
        self.foreground_fill = StraightRgba::zero();

        let dark = colors[0];
        let light = colors[15];
        let l0 = dark.lightness();
        let l1 = light.lightness();
        self.auto_color_threshold = (l0 + l1) / 2;
        let mut auto: Vec<StraightRgba> = Vec::new();
        if l0 > l1 {
            auto.push(light);
            auto.push(dark);
            proof {
                assert(auto@ =~= seq![colors@[15], colors@[0]]);
            }
        } else {
            auto.push(dark);
            auto.push(light);
            proof {
                assert(auto@ =~= seq![colors@[0], colors@[15]]);
            }
        }
        self.auto_colors = auto;

        let mut cache: Vec<Option<(StraightRgba, StraightRgba)>> = Vec::new();
        let mut k: usize = 0;
        while k < 256
            invariant
                k <= 256,
                cache@.len() == k,
                forall|j: int| 0 <= j < k ==> (#[trigger] cache@[j]) is None,
            decreases 256 - k,
        {
            cache.push(Option::None);
            k = k + 1;
        }
        self.contrast_colors = cache;
    }

    /// The back buffer, for mutation.
    fn back_mut(&mut self) -> (b: &mut Buffer)
        ensures
            *b == old(self).spec_back(),
            *final(self) == old(self).with_back(*final(b)),
    {
        if self.frame_counter % 2 == 0 {
            &mut self.buf0
        } else {
            &mut self.buf1
        }
    }

    /// Begins a new frame. On a size change both buffers are rebuilt and the
    /// front one is staged for a full redraw: its foreground plane takes a
    /// sentinel no prime fill ever takes, and its cursor becomes invalid.
    /// The buffers then swap roles and the new back buffer is primed: spaces,
    /// the prime fills, no attributes, a disabled cursor.
    pub fn flip(&mut self, size: Size)
        requires
            old(self).wf(),
            0 <= size.width,
            0 <= size.height,
        ensures
            final(self).wf(),
            final(self).size() == size,
            final(self).frame_counter == (if old(self).frame_counter == usize::MAX {
                0usize
            } else {
                (old(self).frame_counter + 1) as usize
            }),
            final(self).indexed_colors == old(self).indexed_colors,
            final(self).auto_colors == old(self).auto_colors,
            final(self).auto_color_threshold == old(self).auto_color_threshold,
            final(self).contrast_colors == old(self).contrast_colors,
            final(self).background_fill == old(self).background_fill,
            final(self).foreground_fill == old(self).foreground_fill,
            final(self).disable_true_color == old(self).disable_true_color,
            final(self).spec_back().text.all_blank(),
            final(self).spec_back().bg_bitmap.all_filled(old(self).background_fill),
            final(self).spec_back().fg_bitmap.all_filled(old(self).foreground_fill),
            final(self).spec_back().attributes.all_clear(),
            final(self).spec_back().cursor == (Cursor {
                pos: Point { x: -1i32, y: -1i32 },
                overtype: false,
            }),
            old(self).size() == size ==> final(self).spec_front() == old(self).spec_back(),
            old(self).size() != size ==> {
                &&& final(self).spec_front().fg_bitmap.all_filled(StraightRgba { bits: 1 })
                &&& final(self).spec_front().cursor == (Cursor {
                    pos: Point { x: i32::MIN, y: i32::MIN },
                    overtype: false,
                })
                &&& final(self).spec_front().text.all_blank()
                &&& final(self).spec_front().bg_bitmap.all_filled(StraightRgba { bits: 0 })
                &&& final(self).spec_front().attributes.all_clear()
            },
    {
        if size != self.buf0.bg_bitmap.size {
            self.buf0 = Buffer::new(size);
            self.buf1 = Buffer::new(size);
            // Stage the buffer that is about to become the front for a full
            // redraw.
            let b = self.back_mut();
            b.fg_bitmap.fill(StraightRgba::from_le(1));
            b.cursor = Cursor::new_invalid();
        }
        self.frame_counter = if self.frame_counter == usize::MAX {
            0
        } else {
            self.frame_counter + 1
        };
        let bgf = self.background_fill;
        let fgf = self.foreground_fill;
        let b = self.back_mut();
        b.text.fill_whitespace();
        b.bg_bitmap.fill(bgf);
        b.fg_bitmap.fill(fgf);
        b.attributes.reset();
        b.cursor = Cursor::new_disabled();
    }

    /// The palette color at `index`.
    pub fn indexed(&self, index: IndexedColor) -> (r: StraightRgba)
        requires
            self.wf(),
        ensures
            r == self.indexed_colors@[index.spec_index()],
    {
        self.indexed_colors[index.index_of()]
    }

    /// The palette color at `index` with its alpha replaced by
    /// `255 * numerator / denominator`.
    pub fn indexed_alpha(&self, index: IndexedColor, numerator: u32, denominator: u32) -> (r:
        StraightRgba)
        requires
            self.wf(),
            0 < denominator,
            numerator <= denominator,
            numerator <= 0xffffff,
        ensures
            r.bits == ((((255 * numerator) / (denominator as int)) as u32) << 24) | (
            self.indexed_colors@[index.spec_index()].bits & 0xffffff),
    {
        let c = self.indexed_colors[index.index_of()].to_le();
        let a = 255 * numerator / denominator;
        proof {
            assert(a <= 255) by (nonlinear_arith)
                requires
                    a as int == (255 * numerator) / (denominator as int) && numerator
                        <= denominator && 0 < denominator,
            ;
            assert(a <= 255 ==> (a << 24) <= 0xff00_0000u32) by (bit_vector);
            let cb = c;
            assert(cb & 0xffffff <= 0xffffff) by (bit_vector);
        }
        StraightRgba::from_le((a << 24) | (c & 0xffffff))
    }

    /// A color contrasting with `color`: the light auto color for dark
    /// inputs, the dark one for light inputs. Answers come from a
    /// direct-mapped cache when the slot holds this color; the slow path is
    /// the source of truth and refills the slot.
    pub fn contrasted(&mut self, color: StraightRgba) -> (r: StraightRgba)
        requires
            old(self).wf(),
        ensures
            final(self).wf(),
            r == spec_contrast(color, old(self).auto_color_threshold, old(self).auto_colors@),
            final(self).indexed_colors == old(self).indexed_colors,
            final(self).buf0 == old(self).buf0,
            final(self).buf1 == old(self).buf1,
            final(self).frame_counter == old(self).frame_counter,
            final(self).auto_colors == old(self).auto_colors,
            final(self).auto_color_threshold == old(self).auto_color_threshold,
            final(self).background_fill == old(self).background_fill,
            final(self).foreground_fill == old(self).foreground_fill,
            final(self).disable_true_color == old(self).disable_true_color,
    {
        let idx = hash_idx(color);
        let slot = self.contrast_colors[idx];
        match slot {
            Some(p) => {
                if p.0 == color {
                    p.1
                } else {
                    self.contrasted_slow(color)
                }
            },
            None => self.contrasted_slow(color),
        }
    }

    /// The uncached contrast computation; stores its answer in the cache.
    fn contrasted_slow(&mut self, color: StraightRgba) -> (r: StraightRgba)
        requires
            old(self).wf(),
        ensures
            final(self).wf(),
            r == spec_contrast(color, old(self).auto_color_threshold, old(self).auto_colors@),
            final(self).indexed_colors == old(self).indexed_colors,
            final(self).buf0 == old(self).buf0,
            final(self).buf1 == old(self).buf1,
            final(self).frame_counter == old(self).frame_counter,
            final(self).auto_colors == old(self).auto_colors,
            final(self).auto_color_threshold == old(self).auto_color_threshold,
            final(self).background_fill == old(self).background_fill,
            final(self).foreground_fill == old(self).foreground_fill,
            final(self).disable_true_color == old(self).disable_true_color,
    {
        let idx = hash_idx(color);
        let is_dark = color.lightness() < self.auto_color_threshold;
        let value = if is_dark {
            self.auto_colors[1]
        } else {
            self.auto_colors[0]
        };
        self.contrast_colors[idx] = Some((color, value));
        value
    }

    /// Blends `bg` onto the back buffer's background plane.
    pub fn blend_bg(&mut self, target: Rect, bg: StraightRgba)
        requires
            old(self).wf(),
        ensures
            final(self).wf(),
            final(self).same_except_back(*old(self)),
            blend_rel(
                old(self).spec_back().bg_bitmap,
                final(self).spec_back().bg_bitmap,
                target,
                bg,
            ),
            final(self).spec_back().text == old(self).spec_back().text,
            final(self).spec_back().fg_bitmap == old(self).spec_back().fg_bitmap,
            final(self).spec_back().attributes == old(self).spec_back().attributes,
            final(self).spec_back().cursor == old(self).spec_back().cursor,
    {
        let b = self.back_mut();
        b.bg_bitmap.blend(target, bg);
    }

    /// Blends `fg` onto the back buffer's foreground plane.
    pub fn blend_fg(&mut self, target: Rect, fg: StraightRgba)
        requires
            old(self).wf(),
        ensures
            final(self).wf(),
            final(self).same_except_back(*old(self)),
            blend_rel(
                old(self).spec_back().fg_bitmap,
                final(self).spec_back().fg_bitmap,
                target,
                fg,
            ),
            final(self).spec_back().text == old(self).spec_back().text,
            final(self).spec_back().bg_bitmap == old(self).spec_back().bg_bitmap,
            final(self).spec_back().attributes == old(self).spec_back().attributes,
            final(self).spec_back().cursor == old(self).spec_back().cursor,
    {
        let b = self.back_mut();
        b.fg_bitmap.blend(target, fg);
    }

    /// Exchanges foreground and background colors inside `target`.
    pub fn reverse(&mut self, target: Rect)
        requires
            old(self).wf(),
        ensures
            final(self).wf(),
            final(self).same_except_back(*old(self)),
            swap_rel(
                old(self).spec_back().bg_bitmap,
                old(self).spec_back().fg_bitmap,
                final(self).spec_back().bg_bitmap,
                final(self).spec_back().fg_bitmap,
                target,
            ),
            final(self).spec_back().text == old(self).spec_back().text,
            final(self).spec_back().attributes == old(self).spec_back().attributes,
            final(self).spec_back().cursor == old(self).spec_back().cursor,
    {
        let b = self.back_mut();
        swap_rect(&mut b.bg_bitmap, &mut b.fg_bitmap, target);
    }

    /// Masked attribute replace on the back buffer.
    pub fn replace_attr(&mut self, target: Rect, mask: Attributes, attr: Attributes)
        requires
            old(self).wf(),
        ensures
            final(self).wf(),
            final(self).same_except_back(*old(self)),
            replace_rel(
                old(self).spec_back().attributes,
                final(self).spec_back().attributes,
                target,
                mask,
                attr,
            ),
            final(self).spec_back().text == old(self).spec_back().text,
            final(self).spec_back().bg_bitmap == old(self).spec_back().bg_bitmap,
            final(self).spec_back().fg_bitmap == old(self).spec_back().fg_bitmap,
            final(self).spec_back().cursor == old(self).spec_back().cursor,
    {
        let b = self.back_mut();
        b.attributes.replace(target, mask, attr);
    }

    /// Replaces text in one row of the back buffer; see
    /// [`crate::line_buffer::replaced_row`] for the exact result.
    pub fn replace_text(&mut self, y: CoordType, origin_x: CoordType, clip_right: CoordType,
        text: &str)
        requires
            old(self).wf(),
        ensures
            final(self).wf(),
            final(self).same_except_back(*old(self)),
            replace_text_rel(
                old(self).spec_back().text,
                final(self).spec_back().text,
                y as int,
                origin_x as int,
                clip_right as int,
                text@,
            ),
            final(self).spec_back().bg_bitmap == old(self).spec_back().bg_bitmap,
            final(self).spec_back().fg_bitmap == old(self).spec_back().fg_bitmap,
            final(self).spec_back().attributes == old(self).spec_back().attributes,
            final(self).spec_back().cursor == old(self).spec_back().cursor,
    {
        let chars = str_to_chars(text);
        let b = self.back_mut();
        b.text.replace_text(y, origin_x, clip_right, &chars);
    }

    /// Sets the back buffer's cursor.
    pub fn set_cursor(&mut self, pos: Point, overtype: bool)
        requires
            old(self).wf(),
            pos.x < i32::MAX,
            pos.y < i32::MAX,
        ensures
            final(self).wf(),
            final(self).same_except_back(*old(self)),
            final(self).spec_back().cursor == (Cursor { pos, overtype }),
            final(self).spec_back().text == old(self).spec_back().text,
            final(self).spec_back().bg_bitmap == old(self).spec_back().bg_bitmap,
            final(self).spec_back().fg_bitmap == old(self).spec_back().fg_bitmap,
            final(self).spec_back().attributes == old(self).spec_back().attributes,
    {
        let b = self.back_mut();
        b.cursor = Cursor { pos, overtype };
    }

    /// Index of the back buffer (0 for `buf0`, 1 for `buf1`); lets callers
    /// inspect the frame being drawn.
    pub fn back_index(&self) -> (i: usize)
        ensures
            i == if self.back_is_0() {
                0int
            } else {
                1int
            },
    {
        self.frame_counter % 2
    }
}

/// The output starts with the SGR reset `ESC [ m`.
pub open spec fn starts_reset(s: Seq<char>) -> bool {
    s.len() >= 3 && s[0] == '\u{1b}' && s[1] == '[' && s[2] == 'm'
}

/// Row `y` shows the same text, colors and attributes in both buffers.
pub open spec fn row_clean(front: Buffer, back: Buffer, y: int) -> bool {
    &&& front.text.lines@[y]@ == back.text.lines@[y]@
    &&& front.bg_bitmap.data@[y]@ == back.bg_bitmap.data@[y]@
    &&& front.fg_bitmap.data@[y]@ == back.fg_bitmap.data@[y]@
    &&& front.attributes.data@[y]@ == back.attributes.data@[y]@
}

/// Every row shows the same content in both buffers.
pub open spec fn frames_clean(front: Buffer, back: Buffer, h: int) -> bool {
    forall|y: int| 0 <= y < h ==> #[trigger] row_clean(front, back, y)
}

/// The cursor sequence the renderer ends with: CUP + DECSCUSR + show for a
/// visible cursor, hide otherwise.
pub open spec fn spec_cursor_seq(c: Cursor) -> Seq<char> {
    if c.pos.x >= 0 && c.pos.y >= 0 {
        seq!['\u{1b}', '['] + spec_dec(c.pos.y + 1) + seq![';'] + spec_dec(c.pos.x + 1) + seq![
            'H',
            '\u{1b}',
            '[',
        ] + seq![if c.overtype {
            '1'
        } else {
            '5'
        }] + seq![' ', 'q', '\u{1b}', '[', '?', '2', '5', 'h']
    } else {
        seq!['\u{1b}', '[', '?', '2', '5', 'l']
    }
}

/// Appends the cursor sequence for `c`.
#[verifier::rlimit(60)]
fn push_cursor_seq(out: &mut Vec<char>, c: Cursor)
    requires
        c.pos.x < i32::MAX,
        c.pos.y < i32::MAX,
    ensures
        final(out)@ == old(out)@ + spec_cursor_seq(c),
{
    if c.pos.x >= 0 && c.pos.y >= 0 {
        out.push('\u{1b}');
        out.push('[');
        push_dec(out, (c.pos.y + 1) as u32);
        out.push(';');
        push_dec(out, (c.pos.x + 1) as u32);
        out.push('H');
        out.push('\u{1b}');
        out.push('[');
        if c.overtype {
            out.push('1');
        } else {
            out.push('5');
        }
        out.push(' ');
        out.push('q');
        out.push('\u{1b}');
        out.push('[');
        out.push('?');
        out.push('2');
        out.push('5');
        out.push('h');
        proof {
            assert(out@ =~= old(out)@ + spec_cursor_seq(c));
        }
    } else {
        out.push('\u{1b}');
        out.push('[');
        out.push('?');
        out.push('2');
        out.push('5');
        out.push('l');
        proof {
            assert(out@ =~= old(out)@ + spec_cursor_seq(c));
        }
    }
}

/// The SGR sequence that selects `color` as foreground (`fg`) or background.
///
/// The all-zero sentinel selects the terminal's default color. A color with
/// partial alpha is first composed over the palette's default foreground or
/// background. With true color disabled, the color is approximated in the
/// xterm-256 6x6x6 cube.
pub open spec fn spec_format_color(
    bg_base: StraightRgba,
    fg_base: StraightRgba,
    disable_true_color: bool,
    fg: bool,
    color: StraightRgba,
) -> Seq<char> {
    let typ = if fg {
        '3'
    } else {
        '4'
    };
    if color.bits == 0 {
        seq!['\u{1b}', '[', typ, '9', 'm']
    } else {
        let c = if color.spec_alpha() != 255 {
            if fg {
                fg_base.spec_blend_over(color)
            } else {
                bg_base.spec_blend_over(color)
            }
        } else {
            color
        };
        if disable_true_color {
            let ri = if c.spec_red() * 6 / 256 < 5 {
                c.spec_red() * 6 / 256
            } else {
                5
            };
            let gi = if c.spec_green() * 6 / 256 < 5 {
                c.spec_green() * 6 / 256
            } else {
                5
            };
            let bi = if c.spec_blue() * 6 / 256 < 5 {
                c.spec_blue() * 6 / 256
            } else {
                5
            };
            seq!['\u{1b}', '[', typ, '8', ';', '5', ';'] + spec_dec(16 + 36 * ri + 6 * gi + bi)
                + seq!['m']
        } else {
            seq!['\u{1b}', '[', typ, '8', ';', '2', ';'] + spec_dec(c.spec_red() as int) + seq![';']
                + spec_dec(c.spec_green() as int) + seq![';'] + spec_dec(c.spec_blue() as int)
                + seq!['m']
        }
    }
}

/// The style state the renderer carries through a pass: the last background,
/// foreground and attribute set it emitted, unknown at the start of the pass.
#[derive(Clone, Copy)]
pub struct SgrState {
    pub last_bg: Option<StraightRgba>,
    pub last_fg: Option<StraightRgba>,
    pub last_attr: Attributes,
}

/// The attribute SGRs emitted when moving from attribute set `last` to `at`:
/// for each changed defined bit, its set or reset sequence (italic `3`/`23`,
/// underline `4`/`24`).
pub open spec fn spec_attr_seq(last: Attributes, at: Attributes) -> Seq<char> {
    if last == at {
        Seq::<char>::empty()
    } else {
        (if (last.bits ^ at.bits) & 1 == 1 {
            if at.bits & 1 == 1 {
                seq!['\u{1b}', '[', '3', 'm']
            } else {
                seq!['\u{1b}', '[', '2', '3', 'm']
            }
        } else {
            Seq::<char>::empty()
        }) + (if (last.bits ^ at.bits) & 2 == 2 {
            if at.bits & 2 == 2 {
                seq!['\u{1b}', '[', '4', 'm']
            } else {
                seq!['\u{1b}', '[', '2', '4', 'm']
            }
        } else {
            Seq::<char>::empty()
        })
    }
}

/// The SGRs emitted at the start of a run showing background `bg`,
/// foreground `fg` and attributes `at`, given the carried style state:
/// a color sequence for each plane that differs from the last one emitted,
/// then the attribute diff.
pub open spec fn spec_style_seq(
    st: SgrState,
    bg: StraightRgba,
    fg: StraightRgba,
    at: Attributes,
    bg_base: StraightRgba,
    fg_base: StraightRgba,
    disable_true_color: bool,
) -> Seq<char> {
    (if st.last_bg == Some(bg) {
        Seq::<char>::empty()
    } else {
        spec_format_color(bg_base, fg_base, disable_true_color, false, bg)
    }) + (if st.last_fg == Some(fg) {
        Seq::<char>::empty()
    } else {
        spec_format_color(bg_base, fg_base, disable_true_color, true, fg)
    }) + spec_attr_seq(st.last_attr, at)
}

/// The stream one row contributes from column `x` on, walking the row's
/// characters from index `ci` at visual column `cvis`: at each run start (a
/// column whose cell triple differs from its left neighbour) the style
/// sequences, then the characters that complete by the next column.
/// Returns the stream and the carried-out style state.
pub open spec fn spec_row_cells(
    bg: Seq<StraightRgba>,
    fg: Seq<StraightRgba>,
    at: Seq<Attributes>,
    row: Seq<char>,
    bg_base: StraightRgba,
    fg_base: StraightRgba,
    disable_true_color: bool,
    x: int,
    ci: int,
    cvis: int,
    st: SgrState,
) -> (Seq<char>, SgrState)
    decreases bg.len() - x,
{
    if x < 0 || x >= bg.len() {
        (Seq::<char>::empty(), st)
    } else {
        let start = x == 0 || !(bg[x] == bg[x - 1] && fg[x] == fg[x - 1] && at[x] == at[x - 1]);
        let styles = if start {
            spec_style_seq(st, bg[x], fg[x], at[x], bg_base, fg_base, disable_true_color)
        } else {
            Seq::<char>::empty()
        };
        let st1 = if start {
            SgrState { last_bg: Some(bg[x]), last_fg: Some(fg[x]), last_attr: at[x] }
        } else {
            st
        };
        let wk = spec_walk(row, ci, cvis, x + 1);
        let rest = spec_row_cells(
            bg,
            fg,
            at,
            row,
            bg_base,
            fg_base,
            disable_true_color,
            x + 1,
            wk.0,
            wk.1,
            st1,
        );
        (styles + row.subrange(ci, wk.0) + rest.0, rest.1)
    }
}

/// The stream the row loop emits from row `y` on: clean rows contribute
/// nothing; a dirty row contributes the SGR reset (first dirty row of the
/// frame only), the CUP to its first column, and its cell stream.
pub open spec fn spec_rows_output(
    front: Buffer,
    back: Buffer,
    bg_base: StraightRgba,
    fg_base: StraightRgba,
    disable_true_color: bool,
    h: int,
    y: int,
    started: bool,
    st: SgrState,
) -> (Seq<char>, SgrState)
    decreases h - y,
{
    if y < 0 || y >= h {
        (Seq::<char>::empty(), st)
    } else if row_clean(front, back, y) {
        spec_rows_output(front, back, bg_base, fg_base, disable_true_color, h, y + 1, started, st)
    } else {
        let header = (if started {
            Seq::<char>::empty()
        } else {
            seq!['\u{1b}', '[', 'm']
        }) + seq!['\u{1b}', '['] + spec_dec(y + 1) + seq![';', '1', 'H'];
        let cells = spec_row_cells(
            back.bg_bitmap.data@[y]@,
            back.fg_bitmap.data@[y]@,
            back.attributes.data@[y]@,
            back.text.lines@[y]@,
            bg_base,
            fg_base,
            disable_true_color,
            0,
            0,
            0,
            st,
        );
        let rest = spec_rows_output(
            front,
            back,
            bg_base,
            fg_base,
            disable_true_color,
            h,
            y + 1,
            true,
            cells.1,
        );
        (header + cells.0 + rest.0, rest.1)
    }
}

/// The entire stream `render` returns: the row streams, then — whenever
/// anything was emitted or the cursor changed — the cursor sequence.
pub open spec fn spec_render(fb: Framebuffer) -> Seq<char> {
    let rows = spec_rows_output(
        fb.spec_front(),
        fb.spec_back(),
        fb.indexed_colors@[16],
        fb.indexed_colors@[17],
        fb.disable_true_color,
        fb.size().height as int,
        0,
        false,
        SgrState { last_bg: Option::None, last_fg: Option::None, last_attr: Attributes { bits: 0 } },
    ).0;
    if rows.len() > 0 || fb.spec_back().cursor != fb.spec_front().cursor {
        rows + spec_cursor_seq(fb.spec_back().cursor)
    } else {
        rows
    }
}

impl Framebuffer {
    /// Appends the SGR color sequence for a run start and hands back the
    /// updated style state; see `spec_style_seq`.
    #[verifier::rlimit(100)]
    fn push_styles(&self, out: &mut Vec<char>, st: SgrState, bg: StraightRgba, fgc: StraightRgba,
        at: Attributes) -> (r: SgrState)
        requires
            self.wf(),
        ensures
            final(out)@ == old(out)@ + spec_style_seq(
                st,
                bg,
                fgc,
                at,
                self.indexed_colors@[16],
                self.indexed_colors@[17],
                self.disable_true_color,
            ),
            r == (SgrState { last_bg: Some(bg), last_fg: Some(fgc), last_attr: at }),
    {
        let ghost sbg: Seq<char> = if st.last_bg == Some(bg) {
            Seq::<char>::empty()
        } else {
            spec_format_color(
                self.indexed_colors@[16],
                self.indexed_colors@[17],
                self.disable_true_color,
                false,
                bg,
            )
        };
        let ghost sfg: Seq<char> = if st.last_fg == Some(fgc) {
            Seq::<char>::empty()
        } else {
            spec_format_color(
                self.indexed_colors@[16],
                self.indexed_colors@[17],
                self.disable_true_color,
                true,
                fgc,
            )
        };
        let ghost satt: Seq<char> = spec_attr_seq(st.last_attr, at);
        let bg_hit = match st.last_bg {
            Some(p) => p == bg,
            None => false,
        };
        if !bg_hit {
            self.format_color(out, false, bg);
        }
        proof {
            assert(out@ =~= old(out)@ + sbg);
        }
        let fg_hit = match st.last_fg {
            Some(p) => p == fgc,
            None => false,
        };
        if !fg_hit {
            self.format_color(out, true, fgc);
        }
        proof {
            assert(out@ =~= old(out)@ + sbg + sfg);
        }
        if !(st.last_attr == at) {
            let diff = st.last_attr.bitxor(at);
            if diff.is(Attributes::italic()) {
                out.push('\u{1b}');
                out.push('[');
                if at.is(Attributes::italic()) {
                    out.push('3');
                } else {
                    out.push('2');
                    out.push('3');
                }
                out.push('m');
            }
            if diff.is(Attributes::underlined()) {
                out.push('\u{1b}');
                out.push('[');
                if at.is(Attributes::underlined()) {
                    out.push('4');
                } else {
                    out.push('2');
                    out.push('4');
                }
                out.push('m');
            }
        }
        proof {
            assert(out@ =~= old(out)@ + sbg + sfg + satt);
            assert(spec_style_seq(
                st,
                bg,
                fgc,
                at,
                self.indexed_colors@[16],
                self.indexed_colors@[17],
                self.disable_true_color,
            ) == sbg + sfg + satt);
            assert(out@ =~= old(out)@ + (sbg + sfg + satt));
        }
        SgrState { last_bg: Some(bg), last_fg: Some(fgc), last_attr: at }
    }

    /// Appends the SGR color sequence for `color`; see `spec_format_color`.
    fn format_color(&self, out: &mut Vec<char>, fg: bool, color: StraightRgba)
        requires
            self.wf(),
        ensures
            final(out)@ == old(out)@ + spec_format_color(
                self.indexed_colors@[16],
                self.indexed_colors@[17],
                self.disable_true_color,
                fg,
                color,
            ),
    {
        let typ = if fg {
            '3'
        } else {
            '4'
        };
        if color.to_ne() == 0 {
            out.push('\u{1b}');
            out.push('[');
            out.push(typ);
            out.push('9');
            out.push('m');
            proof {
                assert(out@ =~= old(out)@ + spec_format_color(
                    self.indexed_colors@[16],
                    self.indexed_colors@[17],
                    self.disable_true_color,
                    fg,
                    color,
                ));
            }
            return ;
        }
        let c = if color.alpha() != 255 {
            let base = if fg {
                self.indexed_colors[17]
            } else {
                self.indexed_colors[16]
            };
            base.blend_over(color)
        } else {
            color
        };
        let r = c.red();
        let g = c.green();
        let b = c.blue();
        if self.disable_true_color {
            let r_index = if r * 6 / 256 < 5 {
                r * 6 / 256
            } else {
                5
            };
            let g_index = if g * 6 / 256 < 5 {
                g * 6 / 256
            } else {
                5
            };
            let b_index = if b * 6 / 256 < 5 {
                b * 6 / 256
            } else {
                5
            };
            let color_index = 16 + 36 * r_index + 6 * g_index + b_index;
            out.push('\u{1b}');
            out.push('[');
            out.push(typ);
            out.push('8');
            out.push(';');
            out.push('5');
            out.push(';');
            push_dec(out, color_index);
            out.push('m');
            proof {
                assert(out@ =~= old(out)@ + spec_format_color(
                    self.indexed_colors@[16],
                    self.indexed_colors@[17],
                    self.disable_true_color,
                    fg,
                    color,
                ));
            }
        } else {
            out.push('\u{1b}');
            out.push('[');
            out.push(typ);
            out.push('8');
            out.push(';');
            out.push('2');
            out.push(';');
            push_dec(out, r);
            out.push(';');
            push_dec(out, g);
            out.push(';');
            push_dec(out, b);
            out.push('m');
            proof {
                assert(out@ =~= old(out)@ + spec_format_color(
                    self.indexed_colors@[16],
                    self.indexed_colors@[17],
                    self.disable_true_color,
                    fg,
                    color,
                ));
            }
        }
    }

    /// Serializes the difference between the front buffer (what the terminal
    /// shows) and the back buffer (this frame's content) as VT sequences;
    /// the returned stream is exactly `spec_render`.
    ///
    /// When the two frames agree everywhere, the result is empty if the
    /// cursors also agree, and exactly the cursor sequence otherwise. When
    /// any row differs, the stream opens with the SGR reset, each dirty row
    /// is addressed with CUP and rewritten whole, and the stream ends with a
    /// cursor update.
    #[verifier::rlimit(100)]
    pub fn render(&self) -> (r: String)
        requires
            self.wf(),
        ensures
            r@ == spec_render(*self),
            frames_clean(self.spec_front(), self.spec_back(), self.size().height as int)
                && self.spec_back().cursor == self.spec_front().cursor ==> r@ == Seq::<
                char,
            >::empty(),
            frames_clean(self.spec_front(), self.spec_back(), self.size().height as int)
                && self.spec_back().cursor != self.spec_front().cursor ==> r@ == spec_cursor_seq(
                self.spec_back().cursor,
            ),
            !frames_clean(self.spec_front(), self.spec_back(), self.size().height as int)
                ==> starts_reset(r@),
            !frames_clean(self.spec_front(), self.spec_back(), self.size().height as int) ==> (
            exists|rows: Seq<char>| r@ == rows + spec_cursor_seq(self.spec_back().cursor)),
    {
        let back: &Buffer;
        let front: &Buffer;
        if self.frame_counter % 2 == 0 {
            back = &self.buf0;
            front = &self.buf1;
        } else {
            back = &self.buf1;
            front = &self.buf0;
        }
        let w = back.bg_bitmap.size.width as usize;
        let h = back.bg_bitmap.size.height as usize;
        let ghost gh = h as int;
        let ghost b16 = self.indexed_colors@[16];
        let ghost b17 = self.indexed_colors@[17];
        let ghost dtc = self.disable_true_color;
        let ghost st_init = SgrState {
            last_bg: Option::None,
            last_fg: Option::None,
            last_attr: Attributes { bits: 0 },
        };
        let ghost full = spec_rows_output(*front, *back, b16, b17, dtc, gh, 0, false, st_init);

        let mut out: Vec<char> = Vec::new();
        let mut st = SgrState {
            last_bg: Option::None,
            last_fg: Option::None,
            last_attr: Attributes::none(),
        };
        let ghost mut started: bool = false;

        let mut y: usize = 0;
        while y < h
            invariant
                y <= h,
                self.wf(),
                *back == self.spec_back(),
                *front == self.spec_front(),
                w == self.size().width,
                h == self.size().height,
                gh == h as int,
                b16 == self.indexed_colors@[16],
                b17 == self.indexed_colors@[17],
                dtc == self.disable_true_color,
                full == spec_rows_output(*front, *back, b16, b17, dtc, gh, 0, false, st_init),
                started == (out@.len() > 0),
                out@ + spec_rows_output(*front, *back, b16, b17, dtc, gh, y as int, started, st).0
                    == full.0,
                (forall|i: int| 0 <= i < y ==> #[trigger] row_clean(*front, *back, i))
                    ==> out@.len() == 0,
                !(forall|i: int| 0 <= i < y ==> #[trigger] row_clean(*front, *back, i))
                    ==> starts_reset(out@),
            decreases h - y,
        {
            let ghost y0 = y as int;
            let ghost st_row = st;
            let ghost started0 = started;
            let ghost out0 = out@;
            let t_eq = chars_eq(&back.text.lines[y], &front.text.lines[y]);
            let bg_eq = color_rows_eq(&back.bg_bitmap.data[y], &front.bg_bitmap.data[y]);
            let fg_eq = color_rows_eq(&back.fg_bitmap.data[y], &front.fg_bitmap.data[y]);
            let at_eq = attr_rows_eq(&back.attributes.data[y], &front.attributes.data[y]);
            if !(t_eq && bg_eq && fg_eq && at_eq) {
                proof {
                    assert(!row_clean(*front, *back, y0));
                }
                if out.len() == 0 {
                    out.push('\u{1b}');
                    out.push('[');
                    out.push('m');
                }
                proof {
                    assert(starts_reset(out@));
                }
                out.push('\u{1b}');
                out.push('[');
                push_dec(&mut out, (y + 1) as u32);
                out.push(';');
                out.push('1');
                out.push('H');
                let ghost header = (if started0 {
                    Seq::<char>::empty()
                } else {
                    seq!['\u{1b}', '[', 'm']
                }) + seq!['\u{1b}', '['] + spec_dec(y0 + 1) + seq![';', '1', 'H'];
                proof {
                    assert(out@ =~= out0 + header);
                }

                let row_chars = &back.text.lines[y];
                let bg_row = &back.bg_bitmap.data[y];
                let fg_row = &back.fg_bitmap.data[y];
                let at_row = &back.attributes.data[y];
                let ghost gbg = bg_row@;
                let ghost gfg = fg_row@;
                let ghost gat = at_row@;
                let ghost grow = row_chars@;
                let ghost out_hdr = out@;
                let ghost cellsfull = spec_row_cells(
                    gbg,
                    gfg,
                    gat,
                    grow,
                    b16,
                    b17,
                    dtc,
                    0,
                    0,
                    0,
                    st_row,
                );
                let mut x: usize = 0;
                let mut ci: usize = 0;
                let mut cvis: usize = 0;
                while x < w
                    invariant
                        x <= w,
                        cvis <= x,
                        w <= 0x7fff_ffff,
                        gbg.len() == w,
                        gfg.len() == w,
                        gat.len() == w,
                        bg_row@ == gbg,
                        fg_row@ == gfg,
                        at_row@ == gat,
                        row_chars@ == grow,
                        ci <= grow.len(),
                        starts_reset(out@),
                        self.wf(),
                        b16 == self.indexed_colors@[16],
                        b17 == self.indexed_colors@[17],
                        dtc == self.disable_true_color,
                        cellsfull == spec_row_cells(gbg, gfg, gat, grow, b16, b17, dtc, 0, 0, 0, st_row),
                        out@ + spec_row_cells(
                            gbg,
                            gfg,
                            gat,
                            grow,
                            b16,
                            b17,
                            dtc,
                            x as int,
                            ci as int,
                            cvis as int,
                            st,
                        ).0 == out_hdr + cellsfull.0,
                        spec_row_cells(
                            gbg,
                            gfg,
                            gat,
                            grow,
                            b16,
                            b17,
                            dtc,
                            x as int,
                            ci as int,
                            cvis as int,
                            st,
                        ).1 == cellsfull.1,
                    decreases w - x,
                {
                    let ghost pre = spec_row_cells(
                        gbg,
                        gfg,
                        gat,
                        grow,
                        b16,
                        b17,
                        dtc,
                        x as int,
                        ci as int,
                        cvis as int,
                        st,
                    );
                    let ghost out_pre = out@;
                    let is_start = x == 0 || !(bg_row[x] == bg_row[x - 1] && fg_row[x] == fg_row[x
                        - 1] && at_row[x] == at_row[x - 1]);
                    let ghost styles = if is_start {
                        spec_style_seq(st, gbg[x as int], gfg[x as int], gat[x as int], b16, b17, dtc)
                    } else {
                        Seq::<char>::empty()
                    };
                    if is_start {
                        st = self.push_styles(&mut out, st, bg_row[x], fg_row[x], at_row[x]);
                    }
                    let wres = walk(row_chars, ci, cvis, x + 1);
                    push_range(&mut out, row_chars, ci, wres.0);
                    proof {
                        assert(pre.0 == styles + grow.subrange(ci as int, wres.0 as int)
                            + spec_row_cells(
                            gbg,
                            gfg,
                            gat,
                            grow,
                            b16,
                            b17,
                            dtc,
                            x as int + 1,
                            wres.0 as int,
                            wres.1 as int,
                            st,
                        ).0);
                        assert(out@ =~= out_pre + styles + grow.subrange(ci as int, wres.0 as int));
                        assert(out@ + spec_row_cells(
                            gbg,
                            gfg,
                            gat,
                            grow,
                            b16,
                            b17,
                            dtc,
                            x as int + 1,
                            wres.0 as int,
                            wres.1 as int,
                            st,
                        ).0 =~= out_pre + pre.0);
                    }
                    ci = wres.0;
                    cvis = wres.1;
                    x = x + 1;
                }
                proof {
                    assert(out@ =~= out_hdr + cellsfull.0);
                    assert(st == cellsfull.1);
                    started = true;
                    assert(spec_rows_output(*front, *back, b16, b17, dtc, gh, y0, started0, st_row).0
                        == header + cellsfull.0 + spec_rows_output(
                        *front,
                        *back,
                        b16,
                        b17,
                        dtc,
                        gh,
                        y0 + 1,
                        true,
                        cellsfull.1,
                    ).0);
                    assert(out@ + spec_rows_output(*front, *back, b16, b17, dtc, gh, y0 + 1, true, st).0
                        =~= out0 + spec_rows_output(*front, *back, b16, b17, dtc, gh, y0, started0, st_row).0);
                }
            } else {
                proof {
                    assert(row_clean(*front, *back, y0));
                    assert(spec_rows_output(*front, *back, b16, b17, dtc, gh, y0, started0, st_row)
                        == spec_rows_output(*front, *back, b16, b17, dtc, gh, y0 + 1, started0, st_row));
                }
            }
            y = y + 1;
        }

        proof {
            assert(out@ =~= full.0);
        }
        let ghost rows_done = out@;
        if !out.is_empty() || !cursors_eq(back.cursor, front.cursor) {
            push_cursor_seq(&mut out, back.cursor);
        }
        proof {
            assert(rows_done == full.0);
            if rows_done.len() > 0 || self.spec_back().cursor != self.spec_front().cursor {
                assert(out@ == rows_done + spec_cursor_seq(self.spec_back().cursor));
            } else {
                assert(out@ == rows_done);
            }
            assert(out@ == spec_render(*self));
            if frames_clean(self.spec_front(), self.spec_back(), gh) {
                assert(forall|i: int| 0 <= i < h ==> #[trigger] row_clean(*front, *back, i));
                assert(rows_done.len() == 0);
                if self.spec_back().cursor == self.spec_front().cursor {
                    assert(out@ =~= Seq::<char>::empty());
                } else {
                    assert(out@ =~= spec_cursor_seq(self.spec_back().cursor));
                }
            } else {
                assert(!(forall|i: int| 0 <= i < h ==> #[trigger] row_clean(*front, *back, i)));
                assert(starts_reset(rows_done));
                assert(starts_reset(out@));
                assert(out@ == rows_done + spec_cursor_seq(self.spec_back().cursor));
            }
        }
        chars_to_string(&out)
    }
}

/// Two buffers that are both freshly primed with the same fills show the same
/// content in every row. With `render`'s contract this gives the frame-to-
/// frame idempotence of rendering: after a `flip` whose front buffer was
/// itself primed and never drawn on, `render` returns nothing beyond a
/// possible cursor sequence.
pub proof fn lemma_primed_frames_clean(
    front: Buffer,
    back: Buffer,
    size: Size,
    bg_fill: StraightRgba,
    fg_fill: StraightRgba,
)
    requires
        front.wf(size),
        back.wf(size),
        front.text.all_blank(),
        back.text.all_blank(),
        front.bg_bitmap.all_filled(bg_fill),
        back.bg_bitmap.all_filled(bg_fill),
        front.fg_bitmap.all_filled(fg_fill),
        back.fg_bitmap.all_filled(fg_fill),
        front.attributes.all_clear(),
        back.attributes.all_clear(),
    ensures
        frames_clean(front, back, size.height as int),
{
    assert forall|y: int| 0 <= y < size.height implies #[trigger] row_clean(front, back, y) by {
        assert(front.text.lines@[y]@ == back.text.lines@[y]@);
        assert(front.bg_bitmap.data@[y]@ == back.bg_bitmap.data@[y]@);
        assert(front.fg_bitmap.data@[y]@ == back.fg_bitmap.data@[y]@);
        assert(front.attributes.data@[y]@ == back.attributes.data@[y]@);
    }
}

/// In a well-formed framebuffer every row of both frames covers exactly
/// `width` visual columns — and every drawing operation keeps it so, since
/// each one ensures well-formedness.
pub proof fn lemma_rows_keep_width(fb: Framebuffer)
    requires
        fb.wf(),
    ensures
        forall|y: int|
            0 <= y < fb.size().height ==> crate::unicode::cols(
                #[trigger] fb.spec_back().text.lines@[y]@,
            ) == fb.size().width,
        forall|y: int|
            0 <= y < fb.size().height ==> crate::unicode::cols(
                #[trigger] fb.spec_front().text.lines@[y]@,
            ) == fb.size().width,
{
}

/// Whether two cursors agree in position and style.
fn cursors_eq(a: Cursor, b: Cursor) -> (r: bool)
    ensures
        r == (a == b),
{
    a.pos.x == b.pos.x && a.pos.y == b.pos.y && a.overtype == b.overtype
}

/// The whole-row height `draw_scrollbar` reports: zero when the track is
/// clipped away or the content fits, otherwise the thumb height in 1/8-row
/// units — `viewport^2 / content`, rounded, at least one row — rounded to
/// whole rows.
pub open spec fn spec_scrollbar_height(
    clip_rect: Rect,
    track: Rect,
    content_height: int,
) -> int {
    let clipped = track.spec_intersect(clip_rect);
    if clipped.spec_is_empty() {
        0
    } else {
        let vh = track.bottom - track.top;
        let ch = if content_height > vh {
            content_height
        } else {
            vh as int
        };
        if ch - vh == 0 {
            0
        } else {
            let q = ((vh * 8) * (vh * 8) + (ch * 8) / 2) / (ch * 8);
            let th = if q > 8 {
                q
            } else {
                8
            };
            (th + 4) / 8
        }
    }
}

/// The lower partial block covering `8 - k` eighths of a cell, `U+2588 - k`.
pub open spec fn spec_lower_block(k: int) -> char {
    if k == 1 {
        '\u{2587}'
    } else if k == 2 {
        '\u{2586}'
    } else if k == 3 {
        '\u{2585}'
    } else if k == 4 {
        '\u{2584}'
    } else if k == 5 {
        '\u{2583}'
    } else if k == 6 {
        '\u{2582}'
    } else {
        '\u{2581}'
    }
}

fn lower_block(k: u64) -> (c: char)
    requires
        1 <= k <= 7,
    ensures
        c == spec_lower_block(k as int),
{
    if k == 1 {
        '\u{2587}'
    } else if k == 2 {
        '\u{2586}'
    } else if k == 3 {
        '\u{2585}'
    } else if k == 4 {
        '\u{2584}'
    } else if k == 5 {
        '\u{2583}'
    } else if k == 6 {
        '\u{2582}'
    } else {
        '\u{2581}'
    }
}

/// Where `draw_scrollbar` draws, in 1/8-row ("eighth") units resolved to
/// whole rows: the clipped track, whether a thumb is visible, its whole-block
/// row range `[tt_row, tb_row)`, and the fractional eighths cut off at its
/// top and bottom cells.
pub struct ScrollbarLayout {
    pub drawn: bool,
    pub clipped: Rect,
    pub thumb: bool,
    pub tt_row: int,
    pub tb_row: int,
    pub top_fract: int,
    pub bottom_fract: int,
    pub height_rows: int,
}

/// The scrollbar geometry for the given track, clip rectangle and content
/// position; mirrors the drawing arithmetic exactly (all divisions floor,
/// which agrees with the machine division on the non-negative values the
/// drawing uses).
pub open spec fn spec_scrollbar_layout(
    clip_rect: Rect,
    track: Rect,
    content_offset: int,
    content_height: int,
) -> ScrollbarLayout {
    let clipped = track.spec_intersect(clip_rect);
    let vh = track.bottom - track.top;
    let ch = if content_height > vh {
        content_height
    } else {
        vh as int
    };
    let omax = ch - vh;
    if clipped.spec_is_empty() || omax == 0 {
        ScrollbarLayout {
            drawn: false,
            clipped,
            thumb: false,
            tt_row: 0,
            tb_row: 0,
            top_fract: 0,
            bottom_fract: 0,
            height_rows: 0,
        }
    } else {
        let off = if content_offset < 0 {
            0
        } else if content_offset > omax {
            omax
        } else {
            content_offset
        };
        let vh8 = vh * 8;
        let ch8 = ch * 8;
        let omax8 = omax * 8;
        let off8 = off * 8;
        let q = (vh8 * vh8 + ch8 / 2) / ch8;
        let th8 = if q > 8 {
            q
        } else {
            8
        };
        let ttop = ((vh8 - th8) * off8 + omax8 / 2) / omax8;
        let tt0 = ttop + track.top * 8;
        let tb0 = tt0 + th8;
        let tt1 = if tt0 >= clipped.top * 8 {
            tt0
        } else {
            clipped.top * 8
        };
        let tb1 = if tb0 <= clipped.bottom * 8 {
            tb0
        } else {
            clipped.bottom * 8
        };
        ScrollbarLayout {
            drawn: true,
            clipped,
            thumb: tt1 <= tb1,
            tt_row: (tt1 + 7) / 8,
            tb_row: tb1 / 8,
            top_fract: tt1 % 8,
            bottom_fract: tb1 % 8,
            height_rows: (th8 + 4) / 8,
        }
    }
}

/// What one text row shows after the scrollbar is drawn: the full-block
/// glyph across the clipped columns on the thumb's whole rows, the partial
/// glyphs on its fractional top and bottom cells, each applied by the same
/// column replacement as `replace_text`.
pub open spec fn spec_scrollbar_text_row(
    row: Seq<char>,
    width: int,
    l: ScrollbarLayout,
    y: int,
) -> Seq<char> {
    if !l.drawn || !l.thumb {
        row
    } else {
        let r1 = if l.tt_row <= y < l.tb_row {
            replaced_row(row, width, l.clipped.left as int, l.clipped.right as int, seq!['\u{2588}'])
        } else {
            row
        };
        let r2 = if l.top_fract != 0 && y == l.tt_row - 1 {
            replaced_row(
                r1,
                width,
                l.clipped.left as int,
                l.clipped.right as int,
                seq![spec_lower_block(l.top_fract)],
            )
        } else {
            r1
        };
        if l.bottom_fract != 0 && y == l.tb_row {
            replaced_row(
                r2,
                width,
                l.clipped.left as int,
                l.clipped.right as int,
                seq![spec_lower_block(l.bottom_fract)],
            )
        } else {
            r2
        }
    }
}

/// Whether `(x, y)` lies in the thumb's fractional bottom cell row, where the
/// scrollbar blends inverse colors.
pub open spec fn in_scrollbar_bottom_cell(l: ScrollbarLayout, x: int, y: int) -> bool {
    l.thumb && l.bottom_fract != 0 && l.clipped.left <= x < l.clipped.right && y == l.tb_row
}

/// Floor division and remainder by 8 are unchanged by shifting the dividend
/// by a multiple of 8.
proof fn lemma_div_shift8(a: int, k: int)
    requires
        k >= 0,
    ensures
        (a + 8 * k) / 8 == a / 8 + k,
        (a + 8 * k) % 8 == a % 8,
{
    vstd::arithmetic::div_mod::lemma_fundamental_div_mod(a, 8);
    assert(a + 8 * k == 8 * (a / 8 + k) + a % 8);
    vstd::arithmetic::div_mod::lemma_div_multiples_vanish_fancy(a / 8 + k, a % 8, 8);
    vstd::arithmetic::div_mod::lemma_mod_multiples_vanish(k, a, 8);
}

impl Framebuffer {
    /// Draws a vertical scrollbar into the back buffer and returns the thumb
    /// height in whole rows, exactly `spec_scrollbar_height`.
    ///
    /// The drawing is pinned by `spec_scrollbar_layout`: when anything is
    /// drawn, the clipped track is blended BrightBlack background /
    /// BrightWhite foreground; every text row equals
    /// `spec_scrollbar_text_row` (full blocks on the thumb's whole rows,
    /// partial glyphs on its fractional cells); the fractional bottom cell is
    /// blended in inverse colors; attributes, the cursor, cells outside the
    /// clipped track, and the front buffer are untouched.
    #[verifier::rlimit(100)]
    pub fn draw_scrollbar(&mut self, clip_rect: Rect, track: Rect, content_offset: CoordType,
        content_height: CoordType) -> (r: CoordType)
        requires
            old(self).wf(),
            -0x100_0000 <= clip_rect.left <= 0x100_0000,
            -0x100_0000 <= clip_rect.top <= 0x100_0000,
            -0x100_0000 <= clip_rect.right <= 0x100_0000,
            -0x100_0000 <= clip_rect.bottom <= 0x100_0000,
            -0x100_0000 <= track.left <= 0x100_0000,
            -0x100_0000 <= track.top <= 0x100_0000,
            -0x100_0000 <= track.right <= 0x100_0000,
            -0x100_0000 <= track.bottom <= 0x100_0000,
            0 <= content_height <= 0x100_0000,
        ensures
            final(self).wf(),
            final(self).same_except_back(*old(self)),
            final(self).spec_back().cursor == old(self).spec_back().cursor,
            r == spec_scrollbar_height(clip_rect, track, content_height as int),
            ({
                let l = spec_scrollbar_layout(
                    clip_rect,
                    track,
                    content_offset as int,
                    content_height as int,
                );
                let bb = old(self).indexed_colors@[8];
                let bw = old(self).indexed_colors@[15];
                let b0 = old(self).spec_back();
                let b1 = final(self).spec_back();
                let w = old(self).size().width as int;
                let h = old(self).size().height as int;
                &&& (!l.drawn ==> b1 == b0)
                &&& b1.attributes == b0.attributes
                &&& (l.drawn ==> forall|y: int|
                    0 <= y < h ==> #[trigger] b1.text.lines@[y]@ == spec_scrollbar_text_row(
                        b0.text.lines@[y]@,
                        w,
                        l,
                        y,
                    ))
                &&& (l.drawn ==> forall|x: int, y: int|
                    0 <= x < w && 0 <= y < h ==> #[trigger] b1.bg_bitmap.cell(x, y)
                        == spec_blend_cell(
                        spec_blend_cell(
                            b0.bg_bitmap.cell(x, y),
                            bb,
                            b0.bg_bitmap.in_clip(l.clipped, x, y),
                        ),
                        bw,
                        in_scrollbar_bottom_cell(l, x, y),
                    ))
                &&& (l.drawn ==> forall|x: int, y: int|
                    0 <= x < w && 0 <= y < h ==> #[trigger] b1.fg_bitmap.cell(x, y)
                        == spec_blend_cell(
                        spec_blend_cell(
                            b0.fg_bitmap.cell(x, y),
                            bw,
                            b0.fg_bitmap.in_clip(l.clipped, x, y),
                        ),
                        bb,
                        in_scrollbar_bottom_cell(l, x, y),
                    ))
            }),
    {
        let ghost l = spec_scrollbar_layout(
            clip_rect,
            track,
            content_offset as int,
            content_height as int,
        );
        let track_clipped = track.intersect(clip_rect);
        if track_clipped.is_empty() {
            return 0;
        }
        let viewport_height = track.bottom - track.top;
        let ch = if content_height > viewport_height {
            content_height
        } else {
            viewport_height
        };
        let content_offset_max = ch - viewport_height;
        if content_offset_max == 0 {
            return 0;
        }
        proof {
            assert(l.drawn && l.clipped == track_clipped);
        }
        let co = if content_offset < 0 {
            0
        } else if content_offset > content_offset_max {
            content_offset_max
        } else {
            content_offset
        };

        proof {
            // The clipped track is non-empty, so the track itself has rows.
            assert(1 <= viewport_height <= 0x200_0000);
        }
        // Work in 1/8-row units so the thumb can start and end mid-cell.
        let vh8: u64 = (viewport_height as u64) * 8;
        let ch8: u64 = (ch as u64) * 8;
        let omax8: u64 = (content_offset_max as u64) * 8;
        let off8: u64 = (co as u64) * 8;
        proof {
            assert(vh8 as int * vh8 as int <= 0x1000_0000 * 0x1000_0000) by (nonlinear_arith)
                requires
                    0 <= vh8 as int <= 0x1000_0000,
            ;
        }
        let q: u64 = (vh8 * vh8 + ch8 / 2) / ch8;
        let th8: u64 = if q > 8 {
            q
        } else {
            8
        };
        proof {
            assert((vh8 as int * vh8 as int + ch8 as int / 2) / (ch8 as int) <= vh8 as int)
                by (nonlinear_arith)
                requires
                    0 < vh8 as int <= ch8 as int,
            ;
            assert(th8 <= vh8);
            assert((vh8 as int - th8 as int) * off8 as int <= vh8 as int * omax8 as int && vh8
                as int * omax8 as int <= 0x1000_0000 * 0x1000_0000) by (nonlinear_arith)
                requires
                    th8 as int <= vh8 as int && off8 as int <= omax8 as int && 0 <= off8 as int
                        && 0 <= vh8 as int <= 0x1000_0000 && 0 <= omax8 as int <= 0x1000_0000,
            ;
        }
        let ttop_rel: u64 = ((vh8 - th8) * off8 + omax8 / 2) / omax8;
        proof {
            assert(((vh8 as int - th8 as int) * off8 as int + omax8 as int / 2) / (omax8 as int)
                <= vh8 as int) by (nonlinear_arith)
                requires
                    0 < omax8 as int && (vh8 as int - th8 as int) * off8 as int <= vh8 as int
                        * omax8 as int,
            ;
        }
        let tbot_rel: u64 = ttop_rel + th8;

        // Absolute 1/8-row coordinates, clamped to the visible track.
        let tt0: i64 = (ttop_rel as i64) + (track.top as i64) * 8;
        let tb0: i64 = (tbot_rel as i64) + (track.top as i64) * 8;
        let ctop8: i64 = (track_clipped.top as i64) * 8;
        let cbot8: i64 = (track_clipped.bottom as i64) * 8;
        let tt1: i64 = if tt0 >= ctop8 {
            tt0
        } else {
            ctop8
        };
        let tb1: i64 = if tb0 <= cbot8 {
            tb0
        } else {
            cbot8
        };

        let track_bg = self.indexed(IndexedColor::BrightBlack);
        let track_fg = self.indexed(IndexedColor::BrightWhite);
        self.blend_bg(track_clipped, track_bg);
        self.blend_fg(track_clipped, track_fg);
        let ghost mid = *self;
        let ghost w = old(self).size().width as int;
        let ghost h = old(self).size().height as int;
        proof {
            assert(mid.spec_back().text == old(self).spec_back().text);
            assert(l.thumb == (tt1 <= tb1));
        }

        // A thumb that falls entirely outside the visible track draws nothing.
        if tt1 <= tb1 {
            proof {
                assert(-0x800_0000 <= tt1 <= tb1 <= 0x800_0000);
                lemma_div_shift8(tt1 as int, 0x100_0000);
                lemma_div_shift8(tt1 as int + 7, 0x100_0000);
                lemma_div_shift8(tb1 as int, 0x100_0000);
            }
            // Shift into non-negative range (by a multiple of 8, so rows and
            // eighths are unchanged) to divide with machine semantics.
            let ttn: u64 = (tt1 + 0x800_0000) as u64;
            let tbn: u64 = (tb1 + 0x800_0000) as u64;
            let top_fract: u64 = ttn % 8;
            let bottom_fract: u64 = tbn % 8;
            let tt_row: i64 = ((ttn + 7) / 8) as i64 - 0x100_0000;
            let tb_row: i64 = (tbn / 8) as i64 - 0x100_0000;
            proof {
                assert(top_fract as int == l.top_fract);
                assert(bottom_fract as int == l.bottom_fract);
                assert(tt_row as int == l.tt_row);
                assert(tb_row as int == l.tb_row);
                assert(-0x100_0001 <= tt_row <= 0x100_0001);
                assert(-0x100_0000 <= tb_row <= 0x100_0000);
            }

            let mut blocks: Vec<char> = Vec::new();
            blocks.push('\u{2588}');
            proof {
                assert(blocks@ =~= seq!['\u{2588}']);
            }
            let mut yy: i64 = tt_row;
            while yy < tb_row
                invariant
                    tt_row <= yy <= tb_row || (yy == tt_row && tb_row < tt_row),
                    -0x100_0001 <= tt_row,
                    tb_row <= 0x100_0000,
                    blocks@ == seq!['\u{2588}'],
                    self.wf(),
                    self.same_except_back(*old(self)),
                    self.spec_back().cursor == old(self).spec_back().cursor,
                    self.size() == mid.size(),
                    w == mid.size().width as int,
                    h == mid.size().height as int,
                    self.spec_back().bg_bitmap == mid.spec_back().bg_bitmap,
                    self.spec_back().fg_bitmap == mid.spec_back().fg_bitmap,
                    self.spec_back().attributes == mid.spec_back().attributes,
                    mid.wf(),
                    l.clipped == track_clipped,
                    forall|y: int|
                        0 <= y < h ==> #[trigger] self.spec_back().text.lines@[y]@ == if tt_row
                            <= y < yy {
                            replaced_row(
                                mid.spec_back().text.lines@[y]@,
                                w,
                                l.clipped.left as int,
                                l.clipped.right as int,
                                seq!['\u{2588}'],
                            )
                        } else {
                            mid.spec_back().text.lines@[y]@
                        },
                decreases tb_row - yy,
            {
                let b = self.back_mut();
                b.text.replace_text(
                    yy as i32,
                    track_clipped.left,
                    track_clipped.right,
                    &blocks,
                );
                yy = yy + 1;
            }
            let ghost t1 = self.spec_back().text;

            if top_fract != 0 {
                let mut glyph: Vec<char> = Vec::new();
                glyph.push(lower_block(top_fract));
                proof {
                    assert(glyph@ =~= seq![spec_lower_block(l.top_fract)]);
                }
                let b = self.back_mut();
                b.text.replace_text(
                    (tt_row - 1) as i32,
                    track_clipped.left,
                    track_clipped.right,
                    &glyph,
                );
            }
            let ghost t2 = self.spec_back().text;

            if bottom_fract != 0 {
                let mut glyph: Vec<char> = Vec::new();
                glyph.push(lower_block(bottom_fract));
                proof {
                    assert(glyph@ =~= seq![spec_lower_block(l.bottom_fract)]);
                }
                let b = self.back_mut();
                b.text.replace_text(
                    tb_row as i32,
                    track_clipped.left,
                    track_clipped.right,
                    &glyph,
                );
                // Inverse colors on the partial bottom cell so the glyph
                // reads as the top part of the cell.
                let rect = Rect {
                    left: track_clipped.left,
                    top: tb_row as i32,
                    right: track_clipped.right,
                    bottom: (tb_row + 1) as i32,
                };
                self.blend_bg(rect, track_fg);
                self.blend_fg(rect, track_bg);
                proof {
                    assert forall|x: int, y: int| 0 <= x < w && 0 <= y < h implies
                        mid.spec_back().bg_bitmap.in_clip(rect, x, y) == in_scrollbar_bottom_cell(
                        l,
                        x,
                        y,
                    ) by {}
                }
            }

            proof {
                // Every row matches the layered text description.
                assert forall|y: int| 0 <= y < h implies #[trigger] self.spec_back().text.lines@[y]@
                    == spec_scrollbar_text_row(
                    old(self).spec_back().text.lines@[y]@,
                    w,
                    l,
                    y,
                ) by {
                    let base = mid.spec_back().text.lines@[y]@;
                    assert(t1.lines@[y]@ == if l.tt_row <= y < l.tb_row {
                        replaced_row(
                            base,
                            w,
                            l.clipped.left as int,
                            l.clipped.right as int,
                            seq!['\u{2588}'],
                        )
                    } else {
                        base
                    });
                }
                // The bottom-cell blend composes over the track blend.
                assert forall|x: int, y: int| 0 <= x < w && 0 <= y < h implies #[trigger] self.spec_back().bg_bitmap.cell(
                    x,
                    y,
                ) == spec_blend_cell(
                    spec_blend_cell(
                        old(self).spec_back().bg_bitmap.cell(x, y),
                        old(self).indexed_colors@[8],
                        old(self).spec_back().bg_bitmap.in_clip(l.clipped, x, y),
                    ),
                    old(self).indexed_colors@[15],
                    in_scrollbar_bottom_cell(l, x, y),
                ) by {}
                assert forall|x: int, y: int| 0 <= x < w && 0 <= y < h implies #[trigger] self.spec_back().fg_bitmap.cell(
                    x,
                    y,
                ) == spec_blend_cell(
                    spec_blend_cell(
                        old(self).spec_back().fg_bitmap.cell(x, y),
                        old(self).indexed_colors@[15],
                        old(self).spec_back().fg_bitmap.in_clip(l.clipped, x, y),
                    ),
                    old(self).indexed_colors@[8],
                    in_scrollbar_bottom_cell(l, x, y),
                ) by {}
            }
        } else {
            proof {
                assert(!l.thumb);
                assert forall|y: int| 0 <= y < h implies #[trigger] self.spec_back().text.lines@[y]@
                    == spec_scrollbar_text_row(
                    old(self).spec_back().text.lines@[y]@,
                    w,
                    l,
                    y,
                ) by {}
            }
        }

        ((th8 + 4) / 8) as CoordType
    }
}

} // verus!
