use microbit_bsp::brightness::Brightness;
use microbit_bsp::display::{Action, DisplayEngine};
use microbit_bsp::font::{Font, Glyph};
use microbit_bsp::frame::Frame;
use microbit_bsp::scan::Step;
use microbit_bsp::scroll::{scroll, STEP_MICROS};

fn frame_a() -> Frame<5, 5> {
    let mut frame = Frame::empty();
    for i in 0..5 {
        frame.set(i, i);
    }
    frame
}

fn frame_b() -> Frame<5, 5> {
    let mut frame = Frame::empty();
    for i in 0..5 {
        frame.set(4 - i, i);
    }
    frame
}

/// Runs one display to its end on a clock that the steps alone move, and gives the steps
/// and the time at which the display finished.
fn run(
    engine: &mut DisplayEngine<5, 5>,
    frame: Frame<5, 5>,
    duration: u64,
    start: u64,
) -> (Vec<Step<5>>, u64) {
    let mut now = start;
    let mut steps = Vec::new();
    engine.display(frame, duration, now);
    loop {
        match engine.poll(now) {
            Action::Show(step) => {
                now += step.hold_micros;
                steps.push(step);
            }
            Action::Finish => return (steps, now),
        }
    }
}

#[test]
fn a_fresh_engine_has_nothing_on_show() {
    let mut engine = DisplayEngine::<5, 5>::new();
    assert!(!engine.is_active());
    assert_eq!(engine.frame(), Frame::empty());
    assert_eq!(engine.brightness(), Brightness::default());
    assert_eq!(engine.poll(0), Action::Finish);
}

#[test]
fn a_display_of_no_duration_finishes_at_once() {
    let mut engine = DisplayEngine::<5, 5>::new();
    engine.display(frame_a(), 0, 1_000);
    assert!(engine.is_active());
    assert_eq!(engine.poll(1_000), Action::Finish);
    assert!(!engine.is_active());
}

#[test]
fn a_display_lasts_exactly_as_long_as_asked() {
    let mut engine = DisplayEngine::<5, 5>::new();
    let (steps, end) = run(&mut engine, frame_a(), 100_000, 7);
    assert_eq!(end, 100_007);
    assert_eq!(steps.len(), 100);
    let total: u64 = steps.iter().map(|step| step.hold_micros).sum();
    assert_eq!(total, 100_000);
    assert!(!engine.is_active());
}

#[test]
fn the_last_step_is_cut_short_at_the_deadline() {
    let mut engine = DisplayEngine::<5, 5>::new();
    let (steps, end) = run(&mut engine, frame_a(), 2_500, 0);
    assert_eq!(end, 2_500);
    let holds: Vec<u64> = steps.iter().map(|step| step.hold_micros).collect();
    assert_eq!(holds, vec![600, 1400, 500]);
    assert_eq!(steps[2].row, Some(1));
}

#[test]
fn a_late_poll_finishes_the_display() {
    let mut engine = DisplayEngine::<5, 5>::new();
    engine.display(frame_a(), 10_000, 50);
    assert!(matches!(engine.poll(50), Action::Show(_)));
    assert_eq!(engine.poll(1_000_000), Action::Finish);
    assert_eq!(engine.poll(1_000_001), Action::Finish);
}

#[test]
fn the_deadline_stops_at_the_end_of_the_clock() {
    let mut engine = DisplayEngine::<5, 5>::new();
    engine.display(frame_a(), u64::MAX, 10);
    assert!(matches!(engine.poll(u64::MAX - 1), Action::Show(_)));
    assert_eq!(engine.poll(u64::MAX), Action::Finish);
}

#[test]
fn two_displays_in_a_row_never_mix_their_frames() {
    let mut engine = DisplayEngine::<5, 5>::new();
    let (first, end) = run(&mut engine, frame_a(), 100_000, 0);
    let (second, _) = run(&mut engine, frame_b(), 100_000, end);
    for (steps, frame) in [(first, frame_a()), (second, frame_b())] {
        assert!(!steps.is_empty());
        for step in steps {
            match step.row {
                Some(row) => assert_eq!(step.cols, frame.row(row)),
                None => assert_eq!(step.cols, [false; 5]),
            }
        }
    }
}

#[test]
fn a_display_starts_with_the_first_row() {
    let mut engine = DisplayEngine::<5, 5>::new();
    run(&mut engine, frame_a(), 4_500, 0);
    engine.display(frame_b(), 10_000, 4_500);
    match engine.poll(4_500) {
        Action::Show(step) => {
            assert_eq!(step.row, Some(0));
            assert_eq!(step.cols, frame_b().row(0));
        }
        Action::Finish => panic!("the display has only begun"),
    }
}

#[test]
fn brightness_changes_the_time_a_row_is_driven_and_not_the_columns() {
    let mut engine = DisplayEngine::<5, 5>::new();
    engine.set_brightness(Brightness::min());
    let (dim, end) = run(&mut engine, frame_a(), 1_000_000, 0);
    engine.set_brightness(Brightness::max());
    let (bright, _) = run(&mut engine, frame_a(), 1_000_000, end);
    assert_eq!(dim.len(), 1_000);
    assert_eq!(bright.len(), 999);
    for (a, b) in dim.iter().zip(bright.iter()) {
        assert_eq!(a.row, b.row);
        assert_eq!(a.cols, b.cols);
        if a.row.is_some() {
            assert_eq!(a.hold_micros, 60);
            assert_eq!(b.hold_micros, 2_000);
        } else {
            assert_eq!(a.hold_micros, 1_940);
            assert_eq!(b.hold_micros, 0);
        }
    }
    let rows: Vec<usize> = dim.iter().filter_map(|step| step.row).take(10).collect();
    assert_eq!(rows, vec![0, 1, 2, 3, 4, 0, 1, 2, 3, 4]);
}

#[test]
fn set_brightness_keeps_the_frame_and_the_deadline() {
    let mut engine = DisplayEngine::<5, 5>::new();
    engine.display(frame_a(), 10_000, 0);
    engine.set_brightness(Brightness::new(4));
    assert_eq!(engine.brightness().level(), 4);
    assert_eq!(engine.frame(), frame_a());
    assert!(engine.is_active());
    match engine.poll(0) {
        Action::Show(step) => assert_eq!(step.hold_micros, 1_200),
        Action::Finish => panic!("the display has only begun"),
    }
}

fn letter_a() -> Frame<5, 5> {
    Frame::from_bits(&[0b01110, 0b10001, 0b11111, 0b10001, 0b10001])
}

fn font() -> Font<5, 5> {
    let mut font = Font::new();
    font.insert('A', Glyph::new(letter_a(), 5));
    font.insert('i', Glyph::new(Frame::from_bits(&[0b1, 0b0, 0b1, 0b1, 0b1]), 1));
    font
}

/// Polls the engine to its end on a clock that the steps alone move. Gives each frame
/// that was put on show with the time at which it was, and the time of the end.
fn play(engine: &mut DisplayEngine<5, 5>, start: u64) -> (Vec<(Frame<5, 5>, u64)>, u64) {
    let mut now = start;
    let mut shown = Vec::new();
    let mut waiting = engine.waiting() + usize::from(engine.is_active());
    if engine.is_active() {
        shown.push((engine.frame(), now));
    }
    loop {
        match engine.poll(now) {
            Action::Show(step) => {
                let left = engine.waiting() + 1;
                if left != waiting {
                    assert_eq!(left + 1, waiting);
                    assert_eq!(step.row, Some(0));
                    waiting = left;
                    shown.push((engine.frame(), now));
                }
                match step.row {
                    Some(row) => assert_eq!(step.cols, engine.frame().row(row)),
                    None => assert_eq!(step.cols, [false; 5]),
                }
                now += step.hold_micros;
            }
            Action::Finish => return (shown, now),
        }
    }
}

#[test]
fn scrolling_the_empty_text_shows_nothing() {
    let mut engine = DisplayEngine::<5, 5>::new();
    assert!(engine.scroll(&font(), "", 500));
    assert!(!engine.is_active());
    assert_eq!(engine.waiting(), 0);
    assert_eq!(engine.poll(500), Action::Finish);
}

#[test]
fn scrolling_one_letter_shows_eleven_frames_in_order() {
    let mut engine = DisplayEngine::<5, 5>::new();
    assert!(engine.scroll(&font(), "A", 1_000));
    assert!(engine.is_active());
    assert_eq!(engine.waiting(), 10);
    let (shown, end) = play(&mut engine, 1_000);
    let frames = scroll(&font(), "A").unwrap();
    assert_eq!(shown.len(), 11);
    for (k, (frame, at)) in shown.iter().enumerate() {
        assert_eq!(*frame, frames[k]);
        assert_eq!(*at, 1_000 + k as u64 * STEP_MICROS);
    }
    assert_eq!(shown[5].0, letter_a());
    assert_eq!(end, 1_000 + 11 * STEP_MICROS);
    assert!(!engine.is_active());
}

#[test]
fn scrolling_twice_gives_the_same_frames() {
    let mut engine = DisplayEngine::<5, 5>::new();
    assert!(engine.scroll(&font(), "Ai?A", 0));
    let (first, end) = play(&mut engine, 0);
    assert!(engine.scroll(&font(), "Ai?A", end));
    let (second, _) = play(&mut engine, end);
    let frames_of = |shown: &Vec<(Frame<5, 5>, u64)>| -> Vec<Frame<5, 5>> {
        shown.iter().map(|(frame, _)| *frame).collect()
    };
    assert_eq!(frames_of(&first), frames_of(&second));
    assert_eq!(first.len(), 5 + 1 + 1 + 1 + 5 + 1 + 5 + 5 + 1);
}

#[test]
fn show_all_gives_each_frame_its_time() {
    let mut engine = DisplayEngine::<5, 5>::new();
    engine.show_all(vec![frame_a(), frame_b(), frame_a()], 4_500, 100);
    let (shown, end) = play(&mut engine, 100);
    assert_eq!(shown, vec![(frame_a(), 100), (frame_b(), 4_600), (frame_a(), 9_100)]);
    assert_eq!(end, 13_600);
}

#[test]
fn show_all_of_nothing_leaves_nothing_on_show() {
    let mut engine = DisplayEngine::<5, 5>::new();
    engine.display(frame_a(), 1_000_000, 0);
    engine.show_all(Vec::new(), 1_000, 10);
    assert!(!engine.is_active());
    assert_eq!(engine.poll(10), Action::Finish);
}

#[test]
fn frames_of_no_time_still_get_their_turn() {
    let mut engine = DisplayEngine::<5, 5>::new();
    engine.show_all(vec![frame_a(), frame_b()], 0, 7);
    assert_eq!(engine.waiting(), 1);
    match engine.poll(7) {
        Action::Show(step) => {
            assert_eq!(step.row, Some(0));
            assert_eq!(step.cols, frame_b().row(0));
            assert_eq!(step.hold_micros, 0);
        }
        Action::Finish => panic!("a frame waits"),
    }
    assert_eq!(engine.poll(7), Action::Finish);
}

#[test]
fn a_display_takes_the_place_of_a_scroll() {
    let mut engine = DisplayEngine::<5, 5>::new();
    assert!(engine.scroll(&font(), "AAA", 0));
    assert!(engine.waiting() > 0);
    engine.display(frame_b(), 2_000, 50);
    assert_eq!(engine.waiting(), 0);
    let (shown, end) = play(&mut engine, 50);
    assert_eq!(shown, vec![(frame_b(), 50)]);
    assert_eq!(end, 2_050);
}
