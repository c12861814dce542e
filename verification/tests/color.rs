use twinkle::color::Rgb;
use twinkle::color::gamma_correct;
use twinkle::color::scale_rgb;
use twinkle::color::temperature_to_rgb;
use twinkle::SCALE;

fn rgb(red: u8, green: u8, blue: u8) -> Rgb {
    Rgb { red, green, blue }
}

#[test]
fn gamma_fixed_point_black() {
    assert_eq!(gamma_correct(&rgb(0, 0, 0)), rgb(0, 0, 0));
}

#[test]
fn gamma_fixed_point_white() {
    assert_eq!(gamma_correct(&rgb(255, 255, 255)), rgb(255, 255, 255));
}

#[test]
fn gamma_crushes_midtones() {
    // round(255 * (c/255)^2.2) for 128, 64, 200: well below the inputs.
    assert_eq!(gamma_correct(&rgb(128, 64, 200)), rgb(56, 12, 149));
}

#[test]
fn gamma_darkens_low_values_to_zero() {
    assert_eq!(gamma_correct(&rgb(10, 20, 30)), rgb(0, 1, 2));
}

#[test]
fn temperature_6600_is_neutral_white() {
    let c = temperature_to_rgb(6600);
    assert_eq!(c, rgb(255, 255, 255));
    assert!(c.red.abs_diff(c.green) < 10 && c.green.abs_diff(c.blue) < 10);
}

#[test]
fn temperature_2700_is_warm() {
    let c = temperature_to_rgb(2700);
    assert_eq!(c, rgb(255, 167, 87));
    assert!(c.blue < c.green && c.green < c.red);
    assert!(c.blue < 100);
}

#[test]
fn temperature_5500_still_warmish() {
    let c = temperature_to_rgb(5500);
    assert_eq!(c, rgb(255, 237, 222));
}

#[test]
fn scale_full_intensity_is_identity() {
    assert_eq!(scale_rgb(&rgb(10, 20, 30), SCALE, SCALE), rgb(10, 20, 30));
}

#[test]
fn scale_zero_intensity_is_black() {
    assert_eq!(scale_rgb(&rgb(200, 100, 50), 0, SCALE), rgb(0, 0, 0));
}

#[test]
fn scale_rounds_to_nearest() {
    // 3 * 0.5 * 0.9 = 1.35 rounds down; 1 * 0.5 * 1.0 = 0.5 rounds up.
    assert_eq!(scale_rgb(&rgb(3, 3, 3), 500_000, 900_000), rgb(1, 1, 1));
    assert_eq!(scale_rgb(&rgb(1, 1, 1), 500_000, SCALE), rgb(1, 1, 1));
}

#[test]
fn scale_half_of_limit() {
    // 255 * 0.5 * 0.8 = 102 exactly.
    assert_eq!(scale_rgb(&rgb(255, 255, 255), 500_000, 800_000), rgb(102, 102, 102));
}
