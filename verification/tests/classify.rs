use sensorem::binary64::{gt, INFINITY, SIGN_BIT};
use sensorem::color::{
    color_for_temperature, Celsius, Color, BLUE_ABOVE, GREEN_ABOVE, MAGENTA_ABOVE, RED_ABOVE,
    YELLOW_ABOVE,
};

fn classify(degrees: f64) -> Color {
    color_for_temperature(Celsius::from_bits(degrees.to_bits()))
}

fn samples() -> Vec<f64> {
    vec![
        f64::NEG_INFINITY,
        f64::MIN,
        -1.0e300,
        -273.15,
        -85.0,
        -5.0,
        -1.0,
        -f64::MIN_POSITIVE,
        -5e-324,
        -0.0,
        0.0,
        5e-324,
        f64::MIN_POSITIVE / 2.0,
        f64::MIN_POSITIVE,
        1.0e-10,
        0.5,
        1.0,
        19.999999999999996,
        20.0,
        20.000000000000004,
        39.99999999999999,
        40.0,
        40.00000000000001,
        64.99999999999999,
        65.0,
        65.00000000000001,
        72.5,
        84.99999999999999,
        85.0,
        85.00000000000001,
        99.9,
        1.0e19,
        1.0e300,
        f64::MAX,
        f64::INFINITY,
    ]
}

#[test]
fn threshold_words_are_the_words_of_the_thresholds() {
    assert_eq!(RED_ABOVE, 85.0f64.to_bits());
    assert_eq!(YELLOW_ABOVE, 65.0f64.to_bits());
    assert_eq!(GREEN_ABOVE, 40.0f64.to_bits());
    assert_eq!(BLUE_ABOVE, 20.0f64.to_bits());
    assert_eq!(MAGENTA_ABOVE, 0.0f64.to_bits());
    assert_eq!(SIGN_BIT, (-0.0f64).to_bits());
    assert_eq!(INFINITY, f64::INFINITY.to_bits());
}

#[test]
fn boundaries_fall_into_the_lower_bucket() {
    assert_eq!(classify(85.0), Color::BrightYellow);
    assert_eq!(classify(65.0), Color::BrightGreen);
    assert_eq!(classify(40.0), Color::BrightBlue);
    assert_eq!(classify(20.0), Color::BrightMagenta);
    assert_eq!(classify(0.0), Color::White);
    assert_eq!(classify(-5.0), Color::White);
}

#[test]
fn just_above_a_boundary_is_promoted() {
    assert_eq!(classify(85.00000000000001), Color::BrightRed);
    assert_eq!(classify(65.00000000000001), Color::BrightYellow);
    assert_eq!(classify(40.00000000000001), Color::BrightGreen);
    assert_eq!(classify(20.000000000000004), Color::BrightBlue);
    assert_eq!(classify(5e-324), Color::BrightMagenta);
}

#[test]
fn each_bucket_has_its_colour() {
    assert_eq!(classify(99.9), Color::BrightRed);
    assert_eq!(classify(72.5), Color::BrightYellow);
    assert_eq!(classify(50.0), Color::BrightGreen);
    assert_eq!(classify(30.0), Color::BrightBlue);
    assert_eq!(classify(10.0), Color::BrightMagenta);
    assert_eq!(classify(-10.0), Color::White);
}

#[test]
fn what_is_no_number_is_neutral() {
    assert_eq!(classify(f64::NAN), Color::White);
    assert_eq!(classify(-f64::NAN), Color::White);
    assert_eq!(color_for_temperature(Celsius::from_bits(0x7ff0_0000_0000_0001)), Color::White);
    assert_eq!(color_for_temperature(Celsius::from_bits(0xffff_ffff_ffff_ffff)), Color::White);
}

#[test]
fn infinities_and_zeros() {
    assert_eq!(classify(f64::INFINITY), Color::BrightRed);
    assert_eq!(classify(f64::NEG_INFINITY), Color::White);
    assert_eq!(classify(-0.0), Color::White);
    assert_eq!(classify(f64::MAX), Color::BrightRed);
    assert_eq!(classify(f64::MIN), Color::White);
}

#[test]
fn alert_levels_run_from_neutral_to_red() {
    assert_eq!(Color::White.alert_level(), 0);
    assert_eq!(Color::BrightMagenta.alert_level(), 1);
    assert_eq!(Color::BrightBlue.alert_level(), 2);
    assert_eq!(Color::BrightGreen.alert_level(), 3);
    assert_eq!(Color::BrightYellow.alert_level(), 4);
    assert_eq!(Color::BrightRed.alert_level(), 5);
}

#[test]
fn colour_never_gets_more_alarming_as_the_temperature_falls() {
    let values = samples();
    for i in 0..values.len() {
        for j in 0..values.len() {
            if values[i] <= values[j] {
                assert!(
                    classify(values[i]).alert_level() <= classify(values[j]).alert_level(),
                    "{} against {}",
                    values[i],
                    values[j]
                );
            }
        }
    }
}

#[test]
fn classification_agrees_with_the_comparisons_of_the_machine() {
    for v in samples() {
        let expected = if v > 85.0 {
            Color::BrightRed
        } else if v > 65.0 {
            Color::BrightYellow
        } else if v > 40.0 {
            Color::BrightGreen
        } else if v > 20.0 {
            Color::BrightBlue
        } else if v > 0.0 {
            Color::BrightMagenta
        } else {
            Color::White
        };
        assert_eq!(classify(v), expected, "{}", v);
    }
}

#[test]
fn gt_agrees_with_the_comparisons_of_the_machine() {
    let mut values = samples();
    values.push(f64::NAN);
    values.push(-f64::NAN);
    for a in &values {
        for b in &values {
            assert_eq!(gt(a.to_bits(), b.to_bits()), a > b, "{} > {}", a, b);
        }
    }
}

#[test]
fn gt_orders_neighbouring_words() {
    assert!(gt(0x4055_4000_0000_0001, 0x4055_4000_0000_0000));
    assert!(!gt(0x4055_4000_0000_0000, 0x4055_4000_0000_0001));
    assert!(!gt(0x4055_4000_0000_0000, 0x4055_4000_0000_0000));
    assert!(gt(0xc055_4000_0000_0000, 0xc055_4000_0000_0001));
    assert!(!gt(0x0000_0000_0000_0000, 0x8000_0000_0000_0000));
    assert!(!gt(0x8000_0000_0000_0000, 0x0000_0000_0000_0000));
    assert!(gt(0x0000_0000_0000_0001, 0x8000_0000_0000_0000));
    assert!(gt(0x7ff0_0000_0000_0000, 0x7fef_ffff_ffff_ffff));
    assert!(!gt(0x7ff0_0000_0000_0001, 0x0000_0000_0000_0000));
}
