use microbit_bsp::font::{Font, Glyph};
use microbit_bsp::frame::Frame;
use microbit_bsp::scroll::{count_frames, frame_at, scroll, scroll_frames, wide_cell};

fn from_rows(rows: [&str; 5]) -> Frame<5, 5> {
    let mut frame = Frame::empty();
    for (y, row) in rows.iter().enumerate() {
        for (x, cell) in row.chars().enumerate() {
            if cell == '#' {
                frame.set(x, y);
            }
        }
    }
    frame
}

fn letter_a() -> Glyph<5, 5> {
    Glyph::new(from_rows([".###.", "#...#", "#####", "#...#", "#...#"]), 5)
}

fn letter_i() -> Glyph<5, 5> {
    Glyph::new(from_rows(["..###", "...#.", "...#.", "...#.", "..###"]), 3)
}

fn font() -> Font<5, 5> {
    let mut font = Font::new();
    font.insert('A', letter_a());
    font.insert('I', letter_i());
    font
}

#[test]
fn the_empty_text_gives_no_frame() {
    assert_eq!(scroll(&font(), ""), Some(Vec::new()));
    assert_eq!(scroll_frames::<5, 5>(&Vec::new()), Some(Vec::new()));
    assert_eq!(count_frames::<5, 5>(&Vec::new()), Some(0));
}

#[test]
fn one_letter_as_wide_as_the_matrix_gives_eleven_frames() {
    let frames = scroll(&font(), "A").unwrap();
    assert_eq!(frames.len(), 11);
    assert_eq!(frames[0], Frame::empty());
    assert_eq!(frames[5], letter_a().frame());
    assert_eq!(frames[10], Frame::empty());
    assert_eq!(frames[1], from_rows([".....", "....#", "....#", "....#", "....#"]));
    assert_eq!(frames[4], from_rows(["..###", ".#...", ".####", ".#...", ".#..."]));
    assert_eq!(frames[6], from_rows(["###..", "...#.", "####.", "...#.", "...#."]));
    assert_eq!(frames[9], from_rows([".....", "#....", "#....", "#....", "#...."]));
}

#[test]
fn scrolling_is_reproducible() {
    assert_eq!(scroll(&font(), "AIA"), scroll(&font(), "AIA"));
}

#[test]
fn each_frame_is_the_one_before_moved_one_column_left() {
    let frames = scroll(&font(), "AI A").unwrap();
    for pair in frames.windows(2) {
        for y in 0..5 {
            for x in 0..4 {
                assert_eq!(pair[1].is_set(x, y), pair[0].is_set(x + 1, y));
            }
        }
    }
}

#[test]
fn glyphs_stand_one_column_apart() {
    let glyphs = vec![letter_i(), letter_a()];
    assert_eq!(count_frames(&glyphs), Some(3 + 1 + 5 + 5 + 1));
    let top: Vec<bool> = (0..10).map(|c| wide_cell(&glyphs, c, 0)).collect();
    assert_eq!(top, vec![true, true, true, false, false, true, true, true, false, false]);
    let middle: Vec<bool> = (0..10).map(|c| wide_cell(&glyphs, c, 2)).collect();
    assert_eq!(middle, vec![false, true, false, false, true, true, true, true, true, false]);
    assert!(!wide_cell(&glyphs, 4, 5));
}

#[test]
fn a_narrow_letter_enters_and_leaves_like_any_other() {
    let frames = scroll(&font(), "I").unwrap();
    assert_eq!(frames.len(), 5 + 3 + 1);
    assert_eq!(frames[0], Frame::empty());
    assert_eq!(frames[8], Frame::empty());
    assert_eq!(frames[3], letter_i().frame());
    assert_eq!(frames[5], from_rows(["###..", ".#...", ".#...", ".#...", "###.."]));
}

#[test]
fn an_unknown_character_scrolls_as_a_blank() {
    let frames = scroll(&font(), "?").unwrap();
    assert_eq!(frames.len(), 11);
    for frame in frames {
        assert_eq!(frame, Frame::empty());
    }
    assert_eq!(scroll(&font(), "A?").unwrap().len(), 5 + 1 + 5 + 5 + 1);
}

#[test]
fn frame_at_agrees_with_scroll_frames() {
    let glyphs = vec![letter_a(), letter_i(), letter_a()];
    let frames = scroll_frames(&glyphs).unwrap();
    assert_eq!(frames.len(), 5 + 1 + 3 + 1 + 5 + 5 + 1);
    for (k, frame) in frames.iter().enumerate() {
        assert_eq!(*frame, frame_at(&glyphs, k));
    }
    assert_eq!(frame_at(&glyphs, 1_000), Frame::empty());
}

#[test]
fn glyphs_of_no_width_take_their_gap_only() {
    let nothing = Glyph::new(Frame::<5, 5>::empty(), 0);
    assert_eq!(count_frames(&vec![nothing]), Some(5 + 1));
    assert_eq!(count_frames(&vec![nothing, nothing]), Some(1 + 5 + 1));
    assert_eq!(count_frames(&vec![nothing, letter_a(), nothing]), Some(1 + 5 + 1 + 5 + 1));
}
