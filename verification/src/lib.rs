//! A twinkle-light controller core: a stochastic per-fixture lighting state
//! machine, an integer color pipeline (black-body temperature to RGB, gamma
//! correction, intensity scaling), and a frame packetizer that lays rendered
//! colors out over physical zones and splits the stream into fixed-size
//! transmission chunks.
//!
//! All fractional quantities (intensity, decay, probabilities) are carried in
//! fixed-point micro-units: the value `SCALE` stands for 1.0.
use vstd::prelude::*;

pub mod color;
pub mod engine;
pub mod packet;

verus! {

use crate::engine::Config;
use crate::engine::Pixel;
use crate::engine::config_wf;
use crate::engine::pixel_wf;
use crate::engine::stepped;
use crate::engine::tick;
use crate::packet::Chunk;
use crate::packet::Zone;
use crate::packet::chunk_frame;
use crate::packet::chunks_wf;
use crate::packet::frame_colors;
use crate::packet::packet_bytes;
use crate::packet::render_frame;

/// Fixed-point unit: `SCALE` micro-units represent the real value 1.0.
pub const SCALE: u32 = 1_000_000;

/// One full tick of the pipeline: advance every pixel with fresh random
/// draws, render the gamma-corrected frame over the zones, and split it into
/// transmission chunks for the output sink, identified 1 upward in order.
pub fn run_tick(lights: &mut Vec<Pixel>, zones: &Vec<Zone>, cfg: &Config) -> (chunks: Vec<Chunk>)
    requires
        config_wf(*cfg),
        forall|i: int| 0 <= i < old(lights).len() ==> pixel_wf(#[trigger] old(lights)[i], *cfg),
    ensures
        final(lights).len() == old(lights).len(),
        forall|i: int| 0 <= i < final(lights).len() ==> pixel_wf(#[trigger] final(lights)[i], *cfg),
        forall|i: int| 0 <= i < final(lights).len()
            ==> stepped(old(lights)[i], *cfg, #[trigger] final(lights)[i]),
        chunks_wf(packet_bytes(frame_colors(final(lights)@), zones@, 0), chunks@),
{
    tick(lights, cfg);
    let frame = render_frame(&*lights, zones);
    chunk_frame(&frame)
}

} // verus!
