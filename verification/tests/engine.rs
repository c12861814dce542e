use twinkle::SCALE;
use twinkle::color::Rgb;
use twinkle::engine::Config;
use twinkle::engine::ConfigError;
use twinkle::engine::Draw;
use twinkle::engine::intensity_from_byte;
use twinkle::engine::Pixel;
use twinkle::engine::new_lights;
use twinkle::engine::step_pixel;
use twinkle::engine::tick;
use twinkle::engine::tick_pixel;

fn cfg(decay: u32, threshold: u32, max_intensity: u32) -> Config {
    Config::new(decay, threshold, max_intensity, 20, Some(300_000)).unwrap()
}

fn rgb(red: u8, green: u8, blue: u8) -> Rgb {
    Rgb { red, green, blue }
}

#[test]
fn config_accepts_valid_values() {
    let c = Config::new(2_000, 1_000, 800_000, 20, Some(300_000)).unwrap();
    assert_eq!(c.decay, 2_000);
    assert_eq!(c.threshold, 1_000);
    assert_eq!(c.max_intensity, 800_000);
    assert_eq!(c.tick_millis, 20);
    assert_eq!(c.run_millis, Some(300_000));
}

#[test]
fn brightness_byte_converts_to_fraction() {
    assert_eq!(intensity_from_byte(0), 0);
    assert_eq!(intensity_from_byte(255), SCALE);
    assert_eq!(intensity_from_byte(204), 800_000);
    // round(128 * 1_000_000 / 255) = round(501960.78...)
    assert_eq!(intensity_from_byte(128), 501_961);
}

#[test]
fn config_rejects_threshold_above_one() {
    let r = Config::new(2_000, SCALE + 1, 800_000, 20, None);
    assert_eq!(r.unwrap_err(), ConfigError::ThresholdOutOfRange);
}

#[test]
fn config_rejects_max_intensity_above_one() {
    let r = Config::new(2_000, 1_000, SCALE + 1, 20, None);
    assert_eq!(r.unwrap_err(), ConfigError::MaxIntensityOutOfRange);
}

#[test]
fn config_rejects_zero_tick_interval() {
    let r = Config::new(2_000, 1_000, 800_000, 0, None);
    assert_eq!(r.unwrap_err(), ConfigError::ZeroTickInterval);
}

#[test]
fn certain_threshold_ignites_immediately() {
    // When every gate draw lands under the threshold, a single step takes a
    // dark fixture to a freshly rendered lit state.
    let c = cfg(2_000, SCALE, 800_000);
    let d = Draw { gate: 0, level: 500_000, kelvin: 3000 };
    let p = step_pixel(Pixel::Dark, &c, d);
    assert_eq!(
        p,
        Pixel::Lit { intensity: 500_000, age: 1, temperature: 3000, color: rgb(102, 71, 44) }
    );
    match p {
        Pixel::Lit { age, color, .. } => {
            assert_eq!(age, 1);
            assert_ne!(color, rgb(0, 0, 0));
        },
        Pixel::Dark => panic!("pixel stayed dark under a forced gate"),
    }
}

#[test]
fn ignition_intensity_is_clamped_at_ceiling() {
    let c = cfg(2_000, SCALE, 800_000);
    let d = Draw { gate: 0, level: 900_000, kelvin: 3000 };
    match step_pixel(Pixel::Dark, &c, d) {
        Pixel::Lit { intensity, .. } => assert_eq!(intensity, 800_000),
        Pixel::Dark => panic!("pixel stayed dark under a forced gate"),
    }
}

#[test]
fn dark_pixel_stays_dark_when_gate_misses() {
    let c = cfg(2_000, 1_000, 800_000);
    let d = Draw { gate: 1_000, level: 500_000, kelvin: 3000 };
    assert_eq!(step_pixel(Pixel::Dark, &c, d), Pixel::Dark);
}

#[test]
fn overdriven_fall_resets_to_exact_dark_state() {
    // decay 2.0 with a large draw drives the subtraction past zero: the
    // pixel must land exactly in the dark state on that same tick.
    let c = cfg(2 * SCALE, 1_000, 800_000);
    let lit = Pixel::Lit { intensity: 100, age: 2, temperature: 3000, color: rgb(102, 71, 44) };
    let d = Draw { gate: 999_999, level: 999_999, kelvin: 3000 };
    assert_eq!(step_pixel(lit, &c, d), Pixel::Dark);
}

#[test]
fn near_black_color_extinguishes() {
    // gamma of (10,20,30) sums to 3, under the near-black floor of 20, so a
    // falling pixel resets even while its intensity is still positive.
    let c = cfg(2_000, 1_000, 800_000);
    let lit = Pixel::Lit { intensity: 500_000, age: 2, temperature: 3000, color: rgb(10, 20, 30) };
    let d = Draw { gate: 999_999, level: 500_000, kelvin: 3000 };
    assert_eq!(step_pixel(lit, &c, d), Pixel::Dark);
}

#[test]
fn two_dark_channels_extinguish() {
    // gamma of (200,10,10) is (149,0,0): bright enough in sum, but two
    // channels rounded to zero, so the lone-channel guard resets the pixel.
    let c = cfg(2_000, 1_000, 800_000);
    let lit = Pixel::Lit { intensity: 500_000, age: 2, temperature: 3000, color: rgb(200, 10, 10) };
    let d = Draw { gate: 999_999, level: 500_000, kelvin: 3000 };
    assert_eq!(step_pixel(lit, &c, d), Pixel::Dark);
}

#[test]
fn healthy_fall_keeps_color_and_ages() {
    let c = cfg(2_000, 1_000, 800_000);
    let lit = Pixel::Lit { intensity: 500_000, age: 2, temperature: 3000, color: rgb(102, 71, 44) };
    let d = Draw { gate: 999_999, level: 500_000, kelvin: 4000 };
    assert_eq!(
        step_pixel(lit, &c, d),
        Pixel::Lit { intensity: 499_000, age: 3, temperature: 3000, color: rgb(102, 71, 44) }
    );
}

#[test]
fn rise_approaches_ceiling_and_rerenders() {
    // age 1 always rises; the step covers half the gap at decay 1.0 and a
    // 0.5 draw, and the color is re-rendered at the new intensity.
    let c = cfg(SCALE, 1_000, 800_000);
    let lit = Pixel::Lit { intensity: 100_000, age: 1, temperature: 3000, color: rgb(13, 9, 6) };
    let d = Draw { gate: 999_999, level: 500_000, kelvin: 4000 };
    assert_eq!(
        step_pixel(lit, &c, d),
        Pixel::Lit { intensity: 450_000, age: 2, temperature: 3000, color: rgb(92, 64, 40) }
    );
}

#[test]
fn rise_is_clamped_at_ceiling() {
    let c = cfg(2 * SCALE, 1_000, 800_000);
    let lit = Pixel::Lit { intensity: 700_000, age: 1, temperature: 3000, color: rgb(92, 64, 40) };
    let d = Draw { gate: 0, level: 999_999, kelvin: 4000 };
    match step_pixel(lit, &c, d) {
        Pixel::Lit { intensity, age, .. } => {
            assert_eq!(intensity, 800_000);
            assert_eq!(age, 2);
        },
        Pixel::Dark => panic!("rising pixel went dark"),
    }
}

#[test]
fn new_lights_are_all_dark() {
    let lights = new_lights(7);
    assert_eq!(lights.len(), 7);
    assert!(lights.iter().all(|p| *p == Pixel::Dark));
}

#[test]
fn ticking_preserves_the_invariant_and_lights_up() {
    // With threshold 1.0 each dark pixel ignites unless its intensity draw
    // lands on exactly zero; over 40 pixels and 30 ticks at least one must
    // be lit, and every pixel must satisfy the invariant throughout.
    let c = cfg(2_000, SCALE, SCALE);
    let mut lights = new_lights(40);
    for _ in 0..30 {
        tick(&mut lights, &c);
        assert_eq!(lights.len(), 40);
        for p in lights.iter() {
            match *p {
                Pixel::Dark => {},
                Pixel::Lit { intensity, age, temperature, .. } => {
                    assert!(0 < intensity && intensity <= c.max_intensity);
                    assert!(age >= 1);
                    assert!((2700..=5500).contains(&temperature));
                },
            }
        }
    }
    assert!(lights.iter().any(|p| *p != Pixel::Dark));
}

#[test]
fn tick_pixel_keeps_the_invariant() {
    let c = cfg(2_000, SCALE, 800_000);
    let mut p = Pixel::Dark;
    for _ in 0..20 {
        tick_pixel(&mut p, &c);
        if let Pixel::Lit { intensity, age, temperature, .. } = p {
            assert!(0 < intensity && intensity <= 800_000);
            assert!(age >= 1);
            assert!((2700..=5500).contains(&temperature));
        }
    }
}
