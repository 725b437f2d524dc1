use microbit_bsp::font::{Font, Glyph};
use microbit_bsp::frame::Frame;

fn bar(x: usize) -> Frame<5, 5> {
    let mut frame = Frame::empty();
    for y in 0..5 {
        frame.set(x, y);
    }
    frame
}

#[test]
fn a_glyph_keeps_its_frame_and_width() {
    let glyph = Glyph::new(bar(4), 3);
    assert_eq!(glyph.frame(), bar(4));
    assert_eq!(glyph.width(), 3);
}

#[test]
fn a_glyph_is_no_wider_than_the_matrix() {
    assert_eq!(Glyph::new(bar(0), 5).width(), 5);
    assert_eq!(Glyph::new(bar(0), 6).width(), 5);
    assert_eq!(Glyph::new(bar(0), usize::MAX).width(), 5);
    assert_eq!(Glyph::new(bar(0), 0).width(), 0);
}

#[test]
fn the_blank_glyph_is_as_wide_as_the_matrix() {
    let blank = Glyph::<5, 5>::blank();
    assert_eq!(blank.width(), 5);
    assert_eq!(blank.frame(), Frame::empty());
}

#[test]
fn a_narrow_glyph_stands_at_the_right_of_its_frame() {
    let mut frame = Frame::<5, 5>::empty();
    frame.set(2, 0);
    frame.set(4, 1);
    frame.set(0, 2);
    let glyph = Glyph::new(frame, 3);
    assert!(glyph.col_is_set(0, 0));
    assert!(!glyph.col_is_set(1, 0));
    assert!(glyph.col_is_set(2, 1));
    assert!(!glyph.col_is_set(0, 2));
}

#[test]
fn an_empty_font_gives_blank_glyphs() {
    let font = Font::<5, 5>::new();
    assert_eq!(font.glyph_for('A'), Glyph::blank());
    assert_eq!(font.glyph_for('\u{e9}'), Glyph::blank());
}

#[test]
fn a_font_gives_the_glyph_it_was_given() {
    let mut font = Font::<5, 5>::new();
    font.insert('I', Glyph::new(bar(4), 1));
    font.insert('l', Glyph::new(bar(3), 2));
    assert_eq!(font.glyph_for('I'), Glyph::new(bar(4), 1));
    assert_eq!(font.glyph_for('l'), Glyph::new(bar(3), 2));
    assert_eq!(font.glyph_for('L'), Glyph::blank());
}

#[test]
fn a_later_glyph_replaces_an_earlier_one() {
    let mut font = Font::<5, 5>::new();
    font.insert('I', Glyph::new(bar(4), 1));
    font.insert('J', Glyph::new(bar(2), 3));
    font.insert('I', Glyph::new(bar(3), 2));
    assert_eq!(font.glyph_for('I'), Glyph::new(bar(3), 2));
    assert_eq!(font.glyph_for('J'), Glyph::new(bar(2), 3));
}

#[test]
fn glyphs_for_follows_the_text() {
    let mut font = Font::<5, 5>::new();
    font.insert('a', Glyph::new(bar(4), 1));
    font.insert('\u{e9}', Glyph::new(bar(3), 2));
    let glyphs = font.glyphs_for("a\u{e9}?a");
    assert_eq!(
        glyphs,
        vec![
            Glyph::new(bar(4), 1),
            Glyph::new(bar(3), 2),
            Glyph::blank(),
            Glyph::new(bar(4), 1),
        ]
    );
    assert!(font.glyphs_for("").is_empty());
}
