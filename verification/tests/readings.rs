use lpd8_monitor::brightness::Brightness;

fn unit(value: f32) -> u32 {
    Brightness::from_reading(value.to_bits(), 1).level()
}

fn percent(value: f32) -> u32 {
    Brightness::from_reading(value.to_bits(), 100).level()
}

#[test]
fn a_reading_between_zero_and_one_is_taken_as_it_is() {
    assert_eq!(unit(0.0), 0);
    assert_eq!(unit(0.5), 500_000);
    assert_eq!(unit(0.25), 250_000);
    assert_eq!(unit(0.75), 750_000);
    assert_eq!(unit(1.0), 1_000_000);
    assert_eq!(unit(0.125), 125_000);
}

#[test]
fn a_reading_is_rounded_to_the_nearest_millionth() {
    // The nearest single-precision number to one tenth lies a little above it.
    assert_eq!(unit(0.1), 100_000);
    assert_eq!(unit(0.333_333_34), 333_333);
    assert_eq!(unit(0.999_999_9), 1_000_000);
    assert_eq!(unit(0.000_000_4), 0);
    assert_eq!(unit(0.000_000_6), 1);
    // Exactly half a millionth is not a single-precision number; its neighbours are.
    assert_eq!(unit(f32::from_bits(0.000_000_5f32.to_bits() + 1)), 1);
    assert_eq!(unit(f32::from_bits(0.000_000_5f32.to_bits() - 1)), 0);
}

#[test]
fn a_percentage_is_divided_by_its_ceiling() {
    assert_eq!(percent(0.0), 0);
    assert_eq!(percent(50.0), 500_000);
    assert_eq!(percent(12.5), 125_000);
    assert_eq!(percent(100.0), 1_000_000);
    assert_eq!(percent(99.9999), 999_999);
    assert_eq!(percent(33.0), 330_000);
    assert_eq!(percent(0.0001), 1);
}

#[test]
fn a_reading_above_its_ceiling_is_fully_on() {
    assert_eq!(unit(1.000_000_1), 1_000_000);
    assert_eq!(unit(2.0), 1_000_000);
    assert_eq!(percent(100.5), 1_000_000);
    assert_eq!(percent(250.0), 1_000_000);
    assert_eq!(percent(8_388_608.0), 1_000_000);
    assert_eq!(percent(1.0e9), 1_000_000);
    assert_eq!(unit(f32::MAX), 1_000_000);
    assert_eq!(Brightness::from_reading(f32::MAX.to_bits(), u32::MAX).level(), 1_000_000);
}

#[test]
fn a_large_reading_against_a_large_ceiling() {
    // 2^24 against a ceiling of 2^25, and 2^31 against 2^32 - 1.
    assert_eq!(Brightness::from_reading(16_777_216.0f32.to_bits(), 33_554_432).level(), 500_000);
    assert_eq!(
        Brightness::from_reading(2_147_483_648.0f32.to_bits(), u32::MAX).level(),
        500_000
    );
    assert_eq!(
        Brightness::from_reading(4_294_967_296.0f32.to_bits(), u32::MAX).level(),
        1_000_000
    );
}

#[test]
fn an_infinite_reading_is_fully_on() {
    assert_eq!(unit(f32::INFINITY), 1_000_000);
    assert_eq!(percent(f32::INFINITY), 1_000_000);
}

#[test]
fn a_negative_reading_is_off() {
    assert_eq!(unit(-0.0), 0);
    assert_eq!(unit(-0.5), 0);
    assert_eq!(percent(-40.0), 0);
    assert_eq!(unit(f32::NEG_INFINITY), 0);
    assert_eq!(unit(f32::MIN), 0);
}

#[test]
fn what_is_not_a_number_is_off() {
    assert_eq!(unit(f32::NAN), 0);
    assert_eq!(percent(f32::NAN), 0);
    assert_eq!(Brightness::from_reading(0x7fc0_0001, 1).level(), 0);
    assert_eq!(Brightness::from_reading(0xffc0_0000, 1).level(), 0);
}

#[test]
fn a_tiny_reading_is_off() {
    assert_eq!(unit(f32::MIN_POSITIVE), 0);
    assert_eq!(unit(f32::from_bits(1)), 0);
    assert_eq!(unit(f32::from_bits(0x007f_ffff)), 0);
    assert_eq!(unit(1.0e-20), 0);
    assert_eq!(percent(0.000_04), 0);
}

#[test]
fn without_a_ceiling_every_reading_is_off() {
    assert_eq!(Brightness::from_reading(1.0f32.to_bits(), 0).level(), 0);
    assert_eq!(Brightness::from_reading(0.0f32.to_bits(), 0).level(), 0);
    assert_eq!(Brightness::from_reading(f32::INFINITY.to_bits(), 0).level(), 0);
}

#[test]
fn readings_agree_with_floating_point_division() {
    let mut value: f32 = 0.0;
    while value <= 100.0 {
        let expected = (f64::from(value) * 10_000.0 + 0.5).floor() as u32;
        assert_eq!(percent(value), expected, "at {}", value);
        value += 0.37;
    }
}

#[test]
fn a_higher_reading_is_never_dimmer() {
    let mut previous = 0;
    for step in 0..=2_000u32 {
        let now = unit(step as f32 / 2_000.0);
        assert!(previous <= now);
        previous = now;
    }
    assert_eq!(previous, 1_000_000);
}
