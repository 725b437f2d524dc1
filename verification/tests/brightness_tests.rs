use microbit_bsp::brightness::{Brightness, DEFAULT_LEVEL, MAX_LEVEL, MIN_LEVEL, SLOT_MICROS};

#[test]
fn levels_are_clamped() {
    assert_eq!(Brightness::new(0).level(), MIN_LEVEL);
    assert_eq!(Brightness::new(1).level(), 1);
    assert_eq!(Brightness::new(3).level(), 3);
    assert_eq!(Brightness::new(5).level(), 5);
    assert_eq!(Brightness::new(6).level(), MAX_LEVEL);
    assert_eq!(Brightness::new(255).level(), MAX_LEVEL);
}

#[test]
fn named_levels() {
    assert_eq!(Brightness::min().level(), 1);
    assert_eq!(Brightness::max().level(), 5);
    assert_eq!(Brightness::default().level(), DEFAULT_LEVEL);
    assert_eq!(Brightness::default().level(), 3);
}

#[test]
fn duty_of_each_level() {
    assert_eq!(Brightness::new(1).on_micros(), 60);
    assert_eq!(Brightness::new(2).on_micros(), 250);
    assert_eq!(Brightness::new(3).on_micros(), 600);
    assert_eq!(Brightness::new(4).on_micros(), 1200);
    assert_eq!(Brightness::new(5).on_micros(), 2000);
    assert_eq!(SLOT_MICROS, 2000);
}

#[test]
fn duty_never_falls_as_the_level_rises() {
    for low in MIN_LEVEL..=MAX_LEVEL {
        for high in low..=MAX_LEVEL {
            assert!(Brightness::new(low).on_micros() <= Brightness::new(high).on_micros());
        }
    }
    assert!(Brightness::min().on_micros() > 0);
    assert!(Brightness::max().on_micros() <= SLOT_MICROS);
}

#[test]
fn on_and_off_fill_the_slot() {
    for level in MIN_LEVEL..=MAX_LEVEL {
        let brightness = Brightness::new(level);
        assert_eq!(brightness.on_micros() + brightness.off_micros(), SLOT_MICROS);
    }
    assert_eq!(Brightness::max().off_micros(), 0);
    assert_eq!(Brightness::min().off_micros(), 1940);
}

#[test]
fn brighter_and_dimmer_stop_at_the_ends() {
    assert_eq!(Brightness::new(2).brighter().level(), 3);
    assert_eq!(Brightness::new(2).dimmer().level(), 1);
    assert_eq!(Brightness::max().brighter().level(), MAX_LEVEL);
    assert_eq!(Brightness::min().dimmer().level(), MIN_LEVEL);
}
