use microbit_bsp::motion::DataRate;

#[test]
fn the_period_of_each_rate() {
    assert_eq!(DataRate::Hz1.sample_period_micros(), 1_000_000);
    assert_eq!(DataRate::Hz10.sample_period_micros(), 100_000);
    assert_eq!(DataRate::Hz25.sample_period_micros(), 40_000);
    assert_eq!(DataRate::Hz50.sample_period_micros(), 20_000);
    assert_eq!(DataRate::Hz100.sample_period_micros(), 10_000);
    assert_eq!(DataRate::Hz200.sample_period_micros(), 5_000);
    assert_eq!(DataRate::Hz400.sample_period_micros(), 2_500);
    assert_eq!(DataRate::Khz1_344.sample_period_micros(), 744);
    assert_eq!(DataRate::Khz1_620LowPower.sample_period_micros(), 617);
    assert_eq!(DataRate::Khz5_376LowPower.sample_period_micros(), 186);
}

#[test]
fn the_period_is_a_second_divided_by_the_rate() {
    let rates = [
        DataRate::Hz1,
        DataRate::Hz10,
        DataRate::Hz25,
        DataRate::Hz50,
        DataRate::Hz100,
        DataRate::Hz200,
        DataRate::Hz400,
        DataRate::Khz1_344,
        DataRate::Khz1_620LowPower,
        DataRate::Khz5_376LowPower,
    ];
    for rate in rates {
        assert_eq!(rate.sample_period_micros(), 1_000_000 / u64::from(rate.frequency()));
    }
    for pair in rates.windows(2) {
        assert!(pair[0].frequency() < pair[1].frequency());
        assert!(pair[0].sample_period_micros() > pair[1].sample_period_micros());
    }
}
