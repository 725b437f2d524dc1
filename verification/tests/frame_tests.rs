use microbit_bsp::frame::Frame;

#[test]
fn empty_frame_has_no_lit_cell() {
    let frame = Frame::<5, 5>::empty();
    for y in 0..5 {
        for x in 0..5 {
            assert!(!frame.is_set(x, y));
        }
    }
}

#[test]
fn set_lights_one_cell_only() {
    for y0 in 0..5 {
        for x0 in 0..5 {
            let mut frame = Frame::<5, 5>::empty();
            frame.set(x0, y0);
            for y in 0..5 {
                for x in 0..5 {
                    assert_eq!(frame.is_set(x, y), x == x0 && y == y0);
                }
            }
        }
    }
}

#[test]
fn set_twice_is_set_once() {
    let mut once = Frame::<5, 5>::empty();
    once.set(3, 1);
    let mut twice = once;
    twice.set(3, 1);
    assert_eq!(once, twice);
}

#[test]
fn unset_undoes_set() {
    let mut frame = Frame::<5, 5>::empty();
    frame.set(0, 4);
    frame.set(4, 0);
    frame.unset(0, 4);
    assert!(!frame.is_set(0, 4));
    assert!(frame.is_set(4, 0));
    frame.unset(4, 0);
    assert_eq!(frame, Frame::<5, 5>::empty());
}

#[test]
fn clear_gives_the_empty_frame() {
    let mut frame = Frame::<5, 5>::empty();
    frame.set(2, 2);
    frame.set(1, 3);
    frame.clear();
    assert_eq!(frame, Frame::<5, 5>::empty());
}

#[test]
fn overlay_is_the_union() {
    let mut left = Frame::<5, 5>::empty();
    left.set(0, 0);
    left.set(2, 2);
    let mut right = Frame::<5, 5>::empty();
    right.set(2, 2);
    right.set(4, 4);
    let mut both = left;
    both.overlay(&right);
    for y in 0..5 {
        for x in 0..5 {
            assert_eq!(both.is_set(x, y), left.is_set(x, y) || right.is_set(x, y));
        }
    }
    assert!(both.is_set(0, 0) && both.is_set(2, 2) && both.is_set(4, 4));
}

#[test]
fn row_gives_the_cells_of_one_row() {
    let mut frame = Frame::<5, 5>::empty();
    frame.set(1, 2);
    frame.set(4, 2);
    frame.set(0, 3);
    assert_eq!(frame.row(2), [false, true, false, false, true]);
    assert_eq!(frame.row(3), [true, false, false, false, false]);
    assert_eq!(frame.row(0), [false; 5]);
}

#[test]
fn frames_need_not_be_square() {
    let mut frame = Frame::<3, 2>::empty();
    frame.set(2, 1);
    assert!(frame.is_set(2, 1));
    assert!(!frame.is_set(2, 0));
    assert_eq!(frame.row(1), [false, false, true]);
}

#[test]
fn frames_are_copied_by_value() {
    let mut first = Frame::<5, 5>::empty();
    let copy = first;
    first.set(1, 1);
    assert!(!copy.is_set(1, 1));
    assert_ne!(first, copy);
}

#[test]
fn from_bits_reads_the_lowest_bit_as_the_rightmost_column() {
    let frame = Frame::<5, 5>::from_bits(&[0b00001, 0b10000, 0b01110, 0b00000, 0b1110_0100]);
    assert_eq!(frame.row(0), [false, false, false, false, true]);
    assert_eq!(frame.row(1), [true, false, false, false, false]);
    assert_eq!(frame.row(2), [false, true, true, true, false]);
    assert_eq!(frame.row(3), [false; 5]);
    assert_eq!(frame.row(4), [false, false, true, false, false]);
}

#[test]
fn from_bits_leaves_columns_beyond_eight_unlit() {
    let frame = Frame::<10, 1>::from_bits(&[0xff]);
    assert_eq!(
        frame.row(0),
        [false, false, true, true, true, true, true, true, true, true]
    );
}
