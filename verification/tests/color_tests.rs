use edit::color::StraightRgba;
use edit::unicode::char_cols;

#[test]
fn byte_order_constructors() {
    let c = StraightRgba::from_be(0xbe2c21ff);
    assert_eq!(c.red(), 0xbe);
    assert_eq!(c.green(), 0x2c);
    assert_eq!(c.blue(), 0x21);
    assert_eq!(c.alpha(), 0xff);
    assert_eq!(c.to_le(), 0xff212cbe);
    assert_eq!(c.to_ne(), StraightRgba::from_le(0xff212cbe).to_ne());
    assert_eq!(StraightRgba::zero().to_ne(), 0);
}

#[test]
fn blend_over_extremes() {
    let dst = StraightRgba::from_le(0xff102030);
    let opaque = StraightRgba::from_le(0xffaabbcc);
    assert_eq!(dst.blend_over(opaque).to_ne(), 0xffaabbcc);
    let transparent = StraightRgba::from_le(0x00aabbcc);
    assert_eq!(dst.blend_over(transparent).to_ne(), dst.to_ne());
}

#[test]
fn blend_over_midpoint() {
    let dst = StraightRgba::from_le(0xff000000);
    let half = StraightRgba::from_le(0x80ffffff);
    let out = dst.blend_over(half);
    assert_eq!(out.red(), 128);
    assert_eq!(out.green(), 128);
    assert_eq!(out.blue(), 128);
    assert_eq!(out.alpha(), 255);
}

#[test]
fn lightness_orders_black_and_white() {
    let black = StraightRgba::from_be(0x000000ff);
    let white = StraightRgba::from_be(0xffffffff);
    assert_eq!(black.lightness(), 0);
    assert_eq!(white.lightness(), 2_550_000);
    let grey = StraightRgba::from_be(0x808080ff);
    assert!(black.lightness() < grey.lightness() && grey.lightness() < white.lightness());
}

#[test]
fn char_widths() {
    assert_eq!(char_cols(' '), 1);
    assert_eq!(char_cols('a'), 1);
    assert_eq!(char_cols('\u{4f60}'), 2);
    assert_eq!(char_cols('\u{2588}'), 1);
    assert_eq!(char_cols('\u{0301}'), 0);
}
