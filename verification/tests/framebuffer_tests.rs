use edit::framebuffer::{Framebuffer, IndexedColor};
use edit::attributes::Attributes;
use edit::color::StraightRgba;
use edit::helpers::{Point, Rect, Size};
use edit::unicode::char_cols;

fn back_row_string(fb: &Framebuffer, y: usize) -> String {
    let b = if fb.back_index() == 0 { &fb.buf0 } else { &fb.buf1 };
    b.text.lines[y].iter().collect()
}

fn row_width(fb: &Framebuffer, y: usize) -> usize {
    let b = if fb.back_index() == 0 { &fb.buf0 } else { &fb.buf1 };
    b.text.lines[y].iter().map(|c| char_cols(*c)).sum()
}

fn full_rect(w: i32, h: i32) -> Rect {
    Rect { left: 0, top: 0, right: w, bottom: h }
}

#[test]
fn empty_diff_first_frame() {
    let mut fb = Framebuffer::new();
    fb.flip(Size { width: 4, height: 1 });
    let out = fb.render();
    assert_eq!(
        out,
        "\u{1b}[m\u{1b}[1;1H\u{1b}[48;2;0;0;0m\u{1b}[38;2;190;190;190m    \u{1b}[?25l"
    );
}

#[test]
fn identical_frames_render_empty() {
    let mut fb = Framebuffer::new();
    fb.flip(Size { width: 4, height: 1 });
    let _ = fb.render();
    fb.flip(Size { width: 4, height: 1 });
    let out = fb.render();
    assert_eq!(out, "");
}

#[test]
fn wide_glyph_clobber() {
    let mut fb = Framebuffer::new();
    fb.flip(Size { width: 6, height: 1 });
    fb.replace_text(0, 0, 6, "a\u{4f60}b");
    assert_eq!(back_row_string(&fb, 0), "a\u{4f60}b  ");
    assert_eq!(row_width(&fb, 0), 6);
    fb.replace_text(0, 1, 3, "XY");
    assert_eq!(back_row_string(&fb, 0), "aXYb  ");
    assert_eq!(row_width(&fb, 0), 6);
}

#[test]
fn wide_glyph_left_overhang() {
    let mut fb = Framebuffer::new();
    fb.flip(Size { width: 6, height: 1 });
    fb.replace_text(0, 0, 2, "\u{4f60}");
    assert_eq!(back_row_string(&fb, 0), "\u{4f60}    ");
    fb.replace_text(0, 1, 6, "Z");
    assert_eq!(back_row_string(&fb, 0), " Z    ");
    assert_eq!(row_width(&fb, 0), 6);
}

#[test]
fn replace_text_outside_clip_is_noop() {
    let mut fb = Framebuffer::new();
    fb.flip(Size { width: 6, height: 1 });
    fb.replace_text(0, 0, 6, "hello!");
    let before = back_row_string(&fb, 0);
    fb.replace_text(0, 5, 3, "ab");
    assert_eq!(back_row_string(&fb, 0), before);
}

#[test]
fn replace_text_negative_origin_clips() {
    let mut fb = Framebuffer::new();
    fb.flip(Size { width: 4, height: 1 });
    fb.replace_text(0, -2, 4, "abcdef");
    assert_eq!(back_row_string(&fb, 0), "cdef");
    assert_eq!(row_width(&fb, 0), 4);
}

#[test]
fn rows_keep_width_and_utf8_under_draws() {
    let mut fb = Framebuffer::new();
    fb.flip(Size { width: 8, height: 2 });
    fb.replace_text(0, 0, 8, "\u{4f60}\u{4f60}\u{4f60}\u{4f60}");
    fb.replace_text(1, -1, 8, "x\u{4f60}y\u{4f60}z");
    fb.replace_text(0, 3, 6, "q");
    fb.replace_text(1, 2, 100, "\u{4f60}");
    for y in 0..2 {
        assert_eq!(row_width(&fb, y), 8);
        let s = back_row_string(&fb, y);
        assert_eq!(String::from_utf8(s.clone().into_bytes()).unwrap(), s);
    }
}

#[test]
fn blend_transparent_is_noop() {
    let mut fb = Framebuffer::new();
    fb.flip(Size { width: 3, height: 3 });
    let red = fb.indexed(IndexedColor::Red);
    fb.blend_bg(full_rect(3, 3), red);
    let before: Vec<Vec<StraightRgba>> = if fb.back_index() == 0 {
        fb.buf0.bg_bitmap.data.clone()
    } else {
        fb.buf1.bg_bitmap.data.clone()
    };
    let transparent = StraightRgba::from_le(0x00123456);
    fb.blend_bg(full_rect(3, 3), transparent);
    let after = if fb.back_index() == 0 { &fb.buf0.bg_bitmap.data } else { &fb.buf1.bg_bitmap.data };
    assert_eq!(&before, after);
}

#[test]
fn blend_semitransparent_composes_channels() {
    let mut fb = Framebuffer::new();
    fb.flip(Size { width: 1, height: 1 });
    // Back bg is the theme background, opaque black. Blend half-transparent
    // white over it: each channel becomes (0*127 + 255*128 + 127)/255 = 128.
    let half_white = StraightRgba::from_le(0x80ffffff);
    fb.blend_bg(full_rect(1, 1), half_white);
    let cell = if fb.back_index() == 0 { fb.buf0.bg_bitmap.data[0][0] } else { fb.buf1.bg_bitmap.data[0][0] };
    let bits = cell.to_ne();
    assert_eq!(bits & 0xff, 128);
    assert_eq!((bits >> 8) & 0xff, 128);
    assert_eq!((bits >> 16) & 0xff, 128);
}

#[test]
fn reverse_is_involution() {
    let mut fb = Framebuffer::new();
    fb.flip(Size { width: 4, height: 2 });
    let red = fb.indexed(IndexedColor::Red);
    let blue = fb.indexed(IndexedColor::Blue);
    fb.blend_bg(Rect { left: 1, top: 0, right: 3, bottom: 2 }, red);
    fb.blend_fg(Rect { left: 0, top: 1, right: 4, bottom: 2 }, blue);
    let (bg0, fg0) = if fb.back_index() == 0 {
        (fb.buf0.bg_bitmap.data.clone(), fb.buf0.fg_bitmap.data.clone())
    } else {
        (fb.buf1.bg_bitmap.data.clone(), fb.buf1.fg_bitmap.data.clone())
    };
    let r = Rect { left: 1, top: 0, right: 3, bottom: 2 };
    fb.reverse(r);
    fb.reverse(r);
    let (bg2, fg2) = if fb.back_index() == 0 {
        (fb.buf0.bg_bitmap.data.clone(), fb.buf0.fg_bitmap.data.clone())
    } else {
        (fb.buf1.bg_bitmap.data.clone(), fb.buf1.fg_bitmap.data.clone())
    };
    assert_eq!(bg0, bg2);
    assert_eq!(fg0, fg2);
}

#[test]
fn replace_attr_all_assigns_exactly() {
    let mut fb = Framebuffer::new();
    fb.flip(Size { width: 4, height: 1 });
    let italic = Attributes { bits: 1 };
    let underlined = Attributes { bits: 2 };
    fb.replace_attr(full_rect(4, 1), Attributes { bits: 3 }, italic);
    fb.replace_attr(Rect { left: 1, top: 0, right: 3, bottom: 1 }, Attributes { bits: 3 }, underlined);
    let attrs = if fb.back_index() == 0 { &fb.buf0.attributes.data } else { &fb.buf1.attributes.data };
    assert_eq!(attrs[0][0], italic);
    assert_eq!(attrs[0][1], underlined);
    assert_eq!(attrs[0][2], underlined);
    assert_eq!(attrs[0][3], italic);
}

#[test]
fn attribute_diff_across_frames() {
    let mut fb = Framebuffer::new();
    fb.flip(Size { width: 4, height: 1 });
    let red = fb.indexed(IndexedColor::Red);
    let white = fb.indexed(IndexedColor::White);
    fb.blend_bg(full_rect(4, 1), red);
    fb.blend_fg(full_rect(4, 1), white);
    fb.replace_attr(full_rect(4, 1), Attributes { bits: 3 }, Attributes { bits: 1 });
    let out1 = fb.render();
    assert_eq!(
        out1,
        "\u{1b}[m\u{1b}[1;1H\u{1b}[48;2;190;44;33m\u{1b}[38;2;190;190;190m\u{1b}[3m    \u{1b}[?25l"
    );
    fb.flip(Size { width: 4, height: 1 });
    fb.blend_bg(full_rect(4, 1), red);
    fb.blend_fg(full_rect(4, 1), white);
    fb.replace_attr(full_rect(4, 1), Attributes { bits: 3 }, Attributes { bits: 3 });
    let out2 = fb.render();
    // Only the underline bit changed between the frames, so the attribute
    // part of the stream never turns italic off.
    assert!(out2.contains("\u{1b}[4m"));
    assert!(!out2.contains("\u{1b}[23m"));
    assert!(!out2.contains("\u{1b}[24m"));
    assert_eq!(
        out2,
        "\u{1b}[m\u{1b}[1;1H\u{1b}[48;2;190;44;33m\u{1b}[38;2;190;190;190m\u{1b}[3m\u{1b}[4m    \u{1b}[?25l"
    );
}

#[test]
fn default_color_sentinel_after_palette_install() {
    let mut fb = Framebuffer::new();
    let theme: [StraightRgba; 18] = edit::framebuffer::default_theme().try_into().unwrap();
    fb.set_indexed_colors(theme);
    fb.flip(Size { width: 2, height: 1 });
    let back = if fb.back_index() == 0 { &fb.buf0 } else { &fb.buf1 };
    for row in &back.bg_bitmap.data {
        for cell in row {
            assert_eq!(cell.to_ne(), 0);
        }
    }
    let out = fb.render();
    assert_eq!(out, "\u{1b}[m\u{1b}[1;1H\u{1b}[49m\u{1b}[39m  \u{1b}[?25l");
}

#[test]
fn scrollbar_minimum_thumb() {
    let mut fb = Framebuffer::new();
    fb.flip(Size { width: 1, height: 20 });
    let clip = Rect { left: 0, top: 0, right: 1, bottom: 20 };
    let track = Rect { left: 0, top: 0, right: 1, bottom: 20 };
    let rows = fb.draw_scrollbar(clip, track, 0, 1000);
    assert_eq!(rows, 1);
    assert_eq!(back_row_string(&fb, 0), "\u{2588}");
    assert_eq!(back_row_string(&fb, 1), " ");
}

#[test]
fn scrollbar_empty_track_or_fitting_content() {
    let mut fb = Framebuffer::new();
    fb.flip(Size { width: 1, height: 20 });
    let clip = Rect { left: 0, top: 0, right: 1, bottom: 20 };
    let empty = Rect { left: 0, top: 5, right: 1, bottom: 5 };
    assert_eq!(fb.draw_scrollbar(clip, empty, 0, 1000), 0);
    let track = Rect { left: 0, top: 0, right: 1, bottom: 20 };
    assert_eq!(fb.draw_scrollbar(clip, track, 0, 10), 0);
}

#[test]
fn scrollbar_fractional_thumb() {
    let mut fb = Framebuffer::new();
    fb.flip(Size { width: 1, height: 10 });
    let clip = Rect { left: 0, top: 0, right: 1, bottom: 10 };
    let track = Rect { left: 0, top: 0, right: 1, bottom: 10 };
    let rows = fb.draw_scrollbar(clip, track, 16, 30);
    // viewport 10, content 30: thumb is 27 eighths tall, spanning rows 5..=8
    // with a 6/8 top cell and a 3/8 bottom cell.
    assert_eq!(rows, 3);
    assert_eq!(back_row_string(&fb, 4), " ");
    assert_eq!(back_row_string(&fb, 5), "\u{2586}");
    assert_eq!(back_row_string(&fb, 6), "\u{2588}");
    assert_eq!(back_row_string(&fb, 7), "\u{2588}");
    assert_eq!(back_row_string(&fb, 8), "\u{2583}");
    assert_eq!(back_row_string(&fb, 9), " ");
    // The partial bottom cell is drawn in inverse colors.
    let back = if fb.back_index() == 0 { &fb.buf0 } else { &fb.buf1 };
    assert_eq!(back.bg_bitmap.data[8][0].to_ne(), 0xffffffff);
    assert_eq!(back.fg_bitmap.data[8][0].to_ne(), 0xff808080);
    assert_eq!(back.bg_bitmap.data[7][0].to_ne(), 0xff808080);
}

#[test]
fn scrollbar_accepts_negative_clip_coordinates() {
    let mut fb = Framebuffer::new();
    fb.flip(Size { width: 1, height: 10 });
    let clip = Rect { left: 0, top: -5, right: 1, bottom: 10 };
    let track = Rect { left: 0, top: -10, right: 1, bottom: 10 };
    // The thumb sits in the off-screen part of the track: the track is
    // blended but no glyph lands on a visible row.
    let rows = fb.draw_scrollbar(clip, track, 0, 1000);
    assert_eq!(rows, 1);
    for y in 0..10 {
        assert_eq!(back_row_string(&fb, y), " ");
    }
    let back = if fb.back_index() == 0 { &fb.buf0 } else { &fb.buf1 };
    assert_eq!(back.bg_bitmap.data[0][0].to_ne(), 0xff808080);
    // Scrolled to the bottom, the thumb reaches the visible rows.
    let rows2 = fb.draw_scrollbar(clip, track, 980, 1000);
    assert_eq!(rows2, 1);
    assert_eq!(back_row_string(&fb, 9), "\u{2588}");
}

#[test]
fn drawing_clips_against_the_grid() {
    let mut fb = Framebuffer::new();
    fb.flip(Size { width: 2, height: 1 });
    let red = fb.indexed(IndexedColor::Red);
    fb.blend_bg(Rect { left: -5, top: -5, right: 1, bottom: 9 }, red);
    fb.replace_text(7, 0, 2, "no");
    fb.replace_text(0, 0, 2, "");
    let back = if fb.back_index() == 0 { &fb.buf0 } else { &fb.buf1 };
    assert_eq!(back.bg_bitmap.data[0][0].to_ne(), red.to_ne());
    assert_ne!(back.bg_bitmap.data[0][1].to_ne(), red.to_ne());
    assert_eq!(back_row_string(&fb, 0), "  ");
}

#[test]
fn contrast_cache_matches_slow_path() {
    let mut fb = Framebuffer::new();
    let black = StraightRgba::from_be(0x000000ff);
    let white = StraightRgba::from_be(0xffffffff);
    let bright_white = fb.indexed(IndexedColor::BrightWhite);
    let theme_black = fb.indexed(IndexedColor::Black);
    // Dark input: the light auto color. Light input: the dark one.
    assert_eq!(fb.contrasted(black).to_ne(), bright_white.to_ne());
    assert_eq!(fb.contrasted(white).to_ne(), theme_black.to_ne());
    // A second query answers from the cache with the same value.
    assert_eq!(fb.contrasted(black).to_ne(), bright_white.to_ne());
    assert_eq!(fb.contrasted(white).to_ne(), theme_black.to_ne());
    // The all-zero sentinel behaves like any other dark color.
    assert_eq!(fb.contrasted(StraightRgba::zero()).to_ne(), bright_white.to_ne());
}

#[test]
fn inverted_theme_orders_auto_colors() {
    let mut fb = Framebuffer::new();
    let mut theme: [StraightRgba; 18] = edit::framebuffer::default_theme().try_into().unwrap();
    // An inverted theme: "Black" is light, "BrightWhite" is dark.
    theme[0] = StraightRgba::from_be(0xe5eff5ff);
    theme[15] = StraightRgba::from_be(0x35424cff);
    fb.set_indexed_colors(theme);
    assert_eq!(fb.auto_colors[0].to_ne(), StraightRgba::from_be(0x35424cff).to_ne());
    assert_eq!(fb.auto_colors[1].to_ne(), StraightRgba::from_be(0xe5eff5ff).to_ne());
}

#[test]
fn cursor_sequences() {
    let mut fb = Framebuffer::new();
    fb.flip(Size { width: 2, height: 1 });
    let _ = fb.render();
    fb.flip(Size { width: 2, height: 1 });
    fb.set_cursor(Point { x: 1, y: 0 }, false);
    let out = fb.render();
    // Nothing was drawn, so only the cursor changed: CUP, bar style, show.
    assert_eq!(out, "\u{1b}[1;2H\u{1b}[5 q\u{1b}[?25h");
    fb.flip(Size { width: 2, height: 1 });
    fb.set_cursor(Point { x: 1, y: 0 }, true);
    let out2 = fb.render();
    assert_eq!(out2, "\u{1b}[1;2H\u{1b}[1 q\u{1b}[?25h");
}

#[test]
fn true_color_disabled_uses_cube() {
    let mut fb = Framebuffer::new();
    fb.set_disable_true_color(true);
    fb.flip(Size { width: 1, height: 1 });
    let red = fb.indexed(IndexedColor::Red);
    fb.blend_bg(full_rect(1, 1), red);
    let out = fb.render();
    // 0xbe2c21: r=190 -> 4, g=44 -> 1, b=33 -> 0; 16 + 144 + 6 = 166.
    assert!(out.contains("\u{1b}[48;5;166m"));
}

#[test]
fn indexed_alpha_packs_fraction() {
    let fb = Framebuffer::new();
    let c = fb.indexed_alpha(IndexedColor::Red, 1, 2);
    let base = fb.indexed(IndexedColor::Red).to_le() & 0x00ffffff;
    assert_eq!(c.to_le(), (127 << 24) | base);
}
