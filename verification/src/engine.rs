//! The per-fixture stochastic lighting state machine: every tick each fixture
//! independently ignites, brightens toward the configured ceiling, or fades
//! and eventually extinguishes, driven by uniform random draws.
use vstd::prelude::*;

verus! {

use crate::SCALE;
use crate::color::Rgb;
use crate::color::black;
use crate::color::gamma_correct;
use crate::color::gamma_of;
use crate::color::scale_rgb;
use crate::color::scaled_rgb;
use crate::color::temp_rgb;
use crate::color::temperature_to_rgb;
use vstd::pervasive::VecAdditionalExecFns;

/// The engine's configuration. Fractional quantities are in micro-units
/// (`SCALE` = 1.0): `decay` scales each tick's intensity change, `threshold`
/// is the per-tick probability that a dark fixture ignites, `max_intensity`
/// is the intensity ceiling as a fraction of full brightness. `tick_millis`
/// is the wall-clock pause between ticks; `run_millis` is the total run time,
/// absent meaning run forever.
#[derive(Clone, Copy, Debug)]
pub struct Config {
    pub decay: u32,
    pub threshold: u32,
    pub max_intensity: u32,
    pub tick_millis: u64,
    pub run_millis: Option<u64>,
}

/// A configuration the engine accepts: `threshold` is a probability (at most
/// 1.0), `max_intensity` is a fraction (at most 1.0), and the tick interval
/// is not zero.
pub open spec fn config_wf(cfg: Config) -> bool {
    &&& cfg.threshold <= SCALE
    &&& cfg.max_intensity <= SCALE
    &&& cfg.tick_millis > 0
}

/// Why a configuration was rejected.
#[derive(Clone, Copy, Debug, PartialEq, Eq, Structural)]
pub enum ConfigError {
    /// `threshold` is not a probability: it exceeds `SCALE` (1.0).
    ThresholdOutOfRange,
    /// `max_intensity` is not a fraction: it exceeds `SCALE` (1.0).
    MaxIntensityOutOfRange,
    /// `tick_millis` is zero.
    ZeroTickInterval,
}

impl Config {
    /// Validate and build a configuration. Values out of range are rejected
    /// here, before the loop runs: a threshold above 1.0, a ceiling above
    /// full brightness, or a zero tick interval.
    pub fn new(
        decay: u32,
        threshold: u32,
        max_intensity: u32,
        tick_millis: u64,
        run_millis: Option<u64>,
    ) -> (r: Result<Config, ConfigError>)
        ensures
            r is Ok <==> (threshold <= SCALE && max_intensity <= SCALE && tick_millis > 0),
            r is Ok ==> r->Ok_0 == (Config { decay, threshold, max_intensity, tick_millis, run_millis }),
            r is Ok ==> config_wf(r->Ok_0),
            threshold > SCALE ==> r == Result::<Config, ConfigError>::Err(ConfigError::ThresholdOutOfRange),
            threshold <= SCALE && max_intensity > SCALE
                ==> r == Result::<Config, ConfigError>::Err(ConfigError::MaxIntensityOutOfRange),
            threshold <= SCALE && max_intensity <= SCALE && tick_millis == 0
                ==> r == Result::<Config, ConfigError>::Err(ConfigError::ZeroTickInterval),
    {
        if threshold > SCALE {
            Err(ConfigError::ThresholdOutOfRange)
        } else if max_intensity > SCALE {
            Err(ConfigError::MaxIntensityOutOfRange)
        } else if tick_millis == 0 {
            Err(ConfigError::ZeroTickInterval)
        } else {
            Ok(Config { decay, threshold, max_intensity, tick_millis, run_millis })
        }
    }
}

/// A brightness byte (0..=255) as a micro-unit fraction of full brightness:
/// round(max * SCALE / 255), never exceeding `SCALE`.
pub open spec fn fraction_of_byte(max: u8) -> int {
    (2 * max * 1_000_000 + 255) / 510
}

/// Convert a 0..=255 brightness setting to the micro-unit fraction the
/// engine's `max_intensity` expects.
pub fn intensity_from_byte(max: u8) -> (r: u32)
    ensures
        r == fraction_of_byte(max),
        r <= SCALE,
{
    let r: u64 = (2 * (max as u64) * 1_000_000 + 255) / 510;
    r as u32
}

/// One fixture. The tagged state makes the dark invariant hold by
/// construction: a dark fixture has no age, temperature or color at all.
#[derive(Clone, Copy, Debug, PartialEq, Eq, Structural)]
pub enum Pixel {
    Dark,
    Lit { intensity: u32, age: u32, temperature: u16, color: Rgb },
}

/// The per-pixel invariant: a lit fixture's intensity is positive and at most
/// the ceiling, it is at least one tick old, and its temperature lies in the
/// valid warm-white range.
pub open spec fn pixel_wf(p: Pixel, cfg: Config) -> bool {
    match p {
        Pixel::Dark => true,
        Pixel::Lit { intensity, age, temperature, color } => {
            &&& 0 < intensity <= cfg.max_intensity
            &&& age >= 1
            &&& 2700 <= temperature <= 5500
        },
    }
}

/// The intensity a pixel shows: 0 when dark.
pub open spec fn intensity_of(p: Pixel) -> u32 {
    match p {
        Pixel::Dark => 0,
        Pixel::Lit { intensity, .. } => intensity,
    }
}

/// Ticks since the pixel last ignited: 0 when dark.
pub open spec fn age_of(p: Pixel) -> u32 {
    match p {
        Pixel::Dark => 0,
        Pixel::Lit { age, .. } => age,
    }
}

/// The pixel's color temperature in Kelvin: 0 when dark.
pub open spec fn temperature_of(p: Pixel) -> u16 {
    match p {
        Pixel::Dark => 0,
        Pixel::Lit { temperature, .. } => temperature,
    }
}

/// The color the pixel currently shows: black when dark.
pub open spec fn color_of(p: Pixel) -> Rgb {
    match p {
        Pixel::Dark => black(),
        Pixel::Lit { color, .. } => color,
    }
}

/// Every pixel satisfying the invariant keeps its intensity within
/// [0, max_intensity]; a pixel of intensity 0 is dark, with no age, no
/// temperature and a black color; a lit pixel is at least one tick old.
pub proof fn lemma_pixel_invariant(p: Pixel, cfg: Config)
    requires
        pixel_wf(p, cfg),
    ensures
        intensity_of(p) <= cfg.max_intensity,
        intensity_of(p) == 0 ==> age_of(p) == 0 && temperature_of(p) == 0 && color_of(p) == black(),
        intensity_of(p) > 0 ==> age_of(p) >= 1,
{
}

/// The three uniform draws one pixel consumes in one tick: `gate` decides
/// whether a dark pixel ignites or a lit one keeps rising, `level` sizes the
/// intensity change (or the ignition intensity), `kelvin` is a fresh color
/// temperature. `gate` and `level` are micro-unit samples from [0, 1).
#[derive(Clone, Copy, Debug, PartialEq, Eq, Structural)]
pub struct Draw {
    pub gate: u32,
    pub level: u32,
    pub kelvin: u16,
}

pub open spec fn draw_wf(d: Draw) -> bool {
    &&& d.gate < SCALE
    &&& d.level < SCALE
    &&& 2700 <= d.kelvin <= 5500
}

/// `age + 1`, stopping at the type's ceiling (after which the fixture is
/// already overwhelmingly biased toward falling).
pub open spec fn bump(age: u32) -> u32 {
    if age == u32::MAX {
        age
    } else {
        (age + 1) as u32
    }
}

/// How far intensity falls in one falling tick: level * decay, in micro-units.
pub open spec fn fall_amount(level: u32, decay: u32) -> int {
    (level * decay) / 1_000_000
}

/// The intensity after a falling tick, clamped at zero.
pub open spec fn fallen_intensity(intensity: u32, level: u32, decay: u32) -> int {
    if intensity > fall_amount(level, decay) {
        intensity - fall_amount(level, decay)
    } else {
        0
    }
}

/// How far intensity rises in one rising tick: level * decay * gap, where gap
/// is the room left below the ceiling: an exponential approach that slows
/// near the ceiling.
pub open spec fn rise_amount(level: u32, decay: u32, gap: int) -> int {
    (level * decay * gap) / 1_000_000_000_000
}

/// The intensity after a rising tick, clamped at the ceiling.
pub open spec fn risen_intensity(intensity: u32, level: u32, decay: u32, max_intensity: u32) -> int {
    let i2 = intensity + rise_amount(level, decay, max_intensity - intensity);
    if i2 > max_intensity {
        max_intensity as int
    } else {
        i2
    }
}

/// The intensity a dark pixel ignites at: the drawn level, clamped at the
/// ceiling.
pub open spec fn ignite_intensity(level: u32, max_intensity: u32) -> u32 {
    if level > max_intensity {
        max_intensity
    } else {
        level
    }
}

/// Sum of the gamma-corrected channels: the near-black luminance measure.
pub open spec fn gamma_sum(c: Rgb) -> int {
    gamma_of(c.red) + gamma_of(c.green) + gamma_of(c.blue)
}

/// How many of the three gamma-corrected channels have rounded to zero.
pub open spec fn dark_channels(c: Rgb) -> int {
    (if gamma_of(c.red) == 0 { 1int } else { 0 })
    + (if gamma_of(c.green) == 0 { 1int } else { 0 })
    + (if gamma_of(c.blue) == 0 { 1int } else { 0 })
}

/// The luminance sum under which a falling pixel is snapped to dark.
pub const NEAR_BLACK_SUM: u32 = 20;

/// The extinguish policy for a falling pixel: reset to dark when the new
/// intensity has reached zero, when the post-gamma rendering of the color it
/// still shows is nearly black (channel sum under `NEAR_BLACK_SUM`), or when
/// at least two of its three gamma-corrected channels have rounded to zero
/// (the guard against a lone-channel artifact).
pub open spec fn extinguishes(new_intensity: int, color: Rgb) -> bool {
    ||| new_intensity <= 0
    ||| gamma_sum(color) < NEAR_BLACK_SUM
    ||| dark_channels(color) >= 2
}

/// One tick of one pixel, as a pure function of the pixel, the configuration
/// and the tick's random draws.
///
/// A dark pixel ignites when `gate` lands under `threshold`: it takes the
/// drawn intensity (clamped at the ceiling), age 1, the drawn temperature,
/// and the freshly rendered scaled color. A lit pixel keeps rising while
/// `gate <= 1/age` (in micro-units: gate * age <= SCALE), so older pixels
/// fall ever more probably; rising re-renders the color at the new intensity,
/// falling keeps the old color and extinguishes per `extinguishes`.
pub open spec fn step_spec(p: Pixel, cfg: Config, d: Draw) -> Pixel {
    match p {
        Pixel::Dark => {
            let i = ignite_intensity(d.level, cfg.max_intensity);
            if d.gate < cfg.threshold && i > 0 {
                Pixel::Lit {
                    intensity: i,
                    age: 1,
                    temperature: d.kelvin,
                    color: scaled_rgb(temp_rgb(d.kelvin), i, cfg.max_intensity),
                }
            } else {
                Pixel::Dark
            }
        },
        Pixel::Lit { intensity, age, temperature, color } => {
            if d.gate * age > SCALE {
                let i2 = fallen_intensity(intensity, d.level, cfg.decay);
                if extinguishes(i2, color) {
                    Pixel::Dark
                } else {
                    Pixel::Lit { intensity: i2 as u32, age: bump(age), temperature, color }
                }
            } else {
                let i2 = risen_intensity(intensity, d.level, cfg.decay, cfg.max_intensity) as u32;
                Pixel::Lit {
                    intensity: i2,
                    age: bump(age),
                    temperature,
                    color: scaled_rgb(temp_rgb(temperature), i2, cfg.max_intensity),
                }
            }
        },
    }
}

/// The step function preserves the pixel invariant: however the draws land,
/// a valid pixel ticks to a valid pixel.
pub proof fn lemma_step_preserves_invariant(p: Pixel, cfg: Config, d: Draw)
    requires
        config_wf(cfg),
        pixel_wf(p, cfg),
        draw_wf(d),
    ensures
        pixel_wf(step_spec(p, cfg, d), cfg),
{
    match p {
        Pixel::Dark => {},
        Pixel::Lit { intensity, age, temperature, color } => {
            assert(d.level * cfg.decay >= 0) by (nonlinear_arith)
                requires
                    d.level >= 0,
                    cfg.decay >= 0,
            ;
            assert((d.level * cfg.decay) / 1_000_000 >= 0) by (nonlinear_arith)
                requires
                    d.level * cfg.decay >= 0,
            ;
            let gap = cfg.max_intensity - intensity;
            assert(d.level * cfg.decay * gap >= 0) by (nonlinear_arith)
                requires
                    d.level * cfg.decay >= 0,
                    gap >= 0,
            ;
            assert((d.level * cfg.decay * gap) / 1_000_000_000_000 >= 0) by (nonlinear_arith)
                requires
                    d.level * cfg.decay * gap >= 0,
            ;
        },
    }
}

/// Bump a pixel's age by one tick, saturating at the type's ceiling.
fn bump_age(age: u32) -> (r: u32)
    ensures
        r == bump(age),
{
    if age == u32::MAX {
        age
    } else {
        age + 1
    }
}

/// One tick of one pixel from given draws: the executable step function,
/// exactly the transition `step_spec` describes.
pub fn step_pixel(p: Pixel, cfg: &Config, d: Draw) -> (r: Pixel)
    requires
        config_wf(*cfg),
        pixel_wf(p, *cfg),
        draw_wf(d),
    ensures
        r == step_spec(p, *cfg, d),
        pixel_wf(r, *cfg),
{
    proof {
        lemma_step_preserves_invariant(p, *cfg, d);
    }
    match p {
        Pixel::Dark => {
            let i = if d.level > cfg.max_intensity {
                cfg.max_intensity
            } else {
                d.level
            };
            if d.gate < cfg.threshold && i > 0 {
                let base = temperature_to_rgb(d.kelvin);
                let color = scale_rgb(&base, i, cfg.max_intensity);
                Pixel::Lit { intensity: i, age: 1, temperature: d.kelvin, color }
            } else {
                Pixel::Dark
            }
        },
        Pixel::Lit { intensity, age, temperature, color } => {
            assert(d.gate * age <= 999_999 * 4_294_967_295) by (nonlinear_arith)
                requires
                    d.gate <= 999_999,
                    age <= 4_294_967_295,
            ;
            let gate_age: u64 = (d.gate as u64) * (age as u64);
            if gate_age > 1_000_000 {
                assert(d.level * cfg.decay <= 999_999 * 4_294_967_295) by (nonlinear_arith)
                    requires
                        d.level <= 999_999,
                        cfg.decay <= 4_294_967_295,
                ;
                let dropped: u64 = (d.level as u64) * (cfg.decay as u64) / 1_000_000;
                let i2: u32 = if (intensity as u64) > dropped {
                    (intensity as u64 - dropped) as u32
                } else {
                    0
                };
                let g = gamma_correct(&color);
                let sum: u32 = g.red as u32 + g.green as u32 + g.blue as u32;
                let zeros: u32 = (if g.red == 0 { 1u32 } else { 0 })
                    + (if g.green == 0 { 1 } else { 0 })
                    + (if g.blue == 0 { 1 } else { 0 });
                if i2 == 0 || sum < NEAR_BLACK_SUM || zeros >= 2 {
                    Pixel::Dark
                } else {
                    Pixel::Lit { intensity: i2, age: bump_age(age), temperature, color }
                }
            } else {
                let gap: u32 = cfg.max_intensity - intensity;
                assert(0 <= d.level * cfg.decay <= 999_999 * 4_294_967_295) by (nonlinear_arith)
                    requires
                        0 <= d.level <= 999_999,
                        0 <= cfg.decay <= 4_294_967_295,
                ;
                assert(0 <= d.level * cfg.decay * gap <= 999_999 * 4_294_967_295 * 1_000_000)
                    by (nonlinear_arith)
                    requires
                        0 <= d.level * cfg.decay <= 999_999 * 4_294_967_295,
                        0 <= gap <= 1_000_000,
                ;
                let raw: u128 = (d.level as u128) * (cfg.decay as u128) * (gap as u128);
                let amount: u128 = raw / 1_000_000_000_000;
                proof {
                    vstd::arithmetic::div_mod::lemma_div_is_ordered(
                        raw as int,
                        4_294_963_000_032_705_000_000,
                        1_000_000_000_000,
                    );
                }
                assert(amount <= 4_294_963_000);
                let i2u: u64 = intensity as u64 + (amount as u64);
                let i2: u32 = if i2u > cfg.max_intensity as u64 {
                    cfg.max_intensity
                } else {
                    i2u as u32
                };
                let base = temperature_to_rgb(temperature);
                let color2 = scale_rgb(&base, i2, cfg.max_intensity);
                Pixel::Lit { intensity: i2, age: bump_age(age), temperature, color: color2 }
            }
        },
    }
}

/// The color a pixel currently shows: black when dark.
pub fn current_color(p: &Pixel) -> (c: Rgb)
    ensures
        c == color_of(*p),
{
    match p {
        Pixel::Dark => Rgb::black(),
        Pixel::Lit { color, .. } => *color,
    }
}

/// Some valid draw takes `before` to `after` in one step: what a caller knows
/// of one random tick of one pixel.
pub open spec fn stepped(before: Pixel, cfg: Config, after: Pixel) -> bool {
    exists|d: Draw| draw_wf(d) && after == step_spec(before, cfg, d)
}

/// Relies on rand: `thread_rng().gen_range(0..bound)` returns a uniform value
/// below `bound`. Nothing more is assumed of the draw than its range.
#[verifier::external_body]
fn sample_below(bound: u32) -> (r: u32)
    requires
        bound > 0,
    ensures
        r < bound,
{
    rand::Rng::gen_range(&mut rand::thread_rng(), 0..bound)
}

/// Draw the three uniform samples one pixel consumes in one tick.
fn sample_draw() -> (d: Draw)
    ensures
        draw_wf(d),
{
    let gate = sample_below(SCALE);
    let level = sample_below(SCALE);
    let kelvin: u16 = 2700 + (sample_below(2801) as u16);
    Draw { gate, level, kelvin }
}

/// Advance one pixel by one tick with fresh random draws. Whatever the draws,
/// the new pixel is the step function of the old one under some valid draw.
pub fn tick_pixel(p: &mut Pixel, cfg: &Config)
    requires
        config_wf(*cfg),
        pixel_wf(*old(p), *cfg),
    ensures
        pixel_wf(*final(p), *cfg),
        stepped(*old(p), *cfg, *final(p)),
{
    let d = sample_draw();
    let q = step_pixel(*p, cfg, d);
    assert(draw_wf(d) && q == step_spec(*old(p), *cfg, d));
    *p = q;
}

/// Allocate the fixture array: `count` pixels, all dark.
pub fn new_lights(count: usize) -> (v: Vec<Pixel>)
    ensures
        v@.len() == count,
        forall|i: int| 0 <= i < count ==> v@[i] == Pixel::Dark,
{
    let mut v: Vec<Pixel> = Vec::new();
    let mut k: usize = 0;
    while k < count
        invariant
            k <= count,
            v@.len() == k,
            forall|i: int| 0 <= i < k ==> v@[i] == Pixel::Dark,
        decreases count - k,
    {
        v.push(Pixel::Dark);
        k = k + 1;
    }
    v
}

/// Advance every pixel by one tick, in place, each with its own independent
/// draws. The array's length never changes, the invariant holds of every
/// pixel afterward, and each new pixel is the step function of its old value
/// under some valid draw.
pub fn tick(lights: &mut Vec<Pixel>, cfg: &Config)
    requires
        config_wf(*cfg),
        forall|i: int| 0 <= i < old(lights).len() ==> pixel_wf(#[trigger] old(lights)[i], *cfg),
    ensures
        final(lights).len() == old(lights).len(),
        forall|i: int| 0 <= i < final(lights).len() ==> pixel_wf(#[trigger] final(lights)[i], *cfg),
        forall|i: int| 0 <= i < final(lights).len()
            ==> stepped(old(lights)[i], *cfg, #[trigger] final(lights)[i]),
{
    let n = lights.len();
    let ghost orig = lights@;
    let mut k: usize = 0;
    while k < n
        invariant
            k <= n,
            n == lights.len(),
            lights.len() == orig.len(),
            config_wf(*cfg),
            forall|i: int| 0 <= i < orig.len() ==> pixel_wf(#[trigger] orig[i], *cfg),
            forall|i: int| k <= i < orig.len() ==> #[trigger] lights[i] == orig[i],
            forall|i: int| 0 <= i < k ==> pixel_wf(#[trigger] lights[i], *cfg),
            forall|i: int| 0 <= i < k ==> stepped(orig[i], *cfg, #[trigger] lights[i]),
        decreases n - k,
    {
        let d = sample_draw();
        let p = lights[k];
        let q = step_pixel(p, cfg, d);
        assert(draw_wf(d) && q == step_spec(orig[k as int], *cfg, d));
        lights.set(k, q);
        k = k + 1;
    }
    assert(orig == old(lights)@);
}

} // verus!
