//! The frame packetizer: lays the rendered pixel colors out over the ordered
//! physical zones (padding before and after each zone's addressable run) and
//! splits the flat byte stream into fixed-size transmission chunks.
use vstd::prelude::*;

verus! {

use crate::color::Rgb;
use crate::color::gamma_correct;
use crate::color::gamma_rgb;
use crate::engine::Pixel;
use crate::engine::color_of;
use crate::engine::current_color;

/// One physical segment: `head` padding slots, then `body` addressable
/// fixture slots, then `tail` padding slots. The name is display-only.
#[derive(Debug)]
pub struct Zone {
    pub head: u16,
    pub body: u16,
    pub tail: u16,
    pub name: String,
}

/// Slots a zone occupies on the wire, padding included.
pub open spec fn zone_slots(z: Zone) -> int {
    z.head + z.body + z.tail
}

/// Slots all zones occupy together.
pub open spec fn total_slots(zones: Seq<Zone>) -> int
    decreases zones.len(),
{
    if zones.len() == 0 {
        0
    } else {
        zone_slots(zones[0]) + total_slots(zones.drop_first())
    }
}

/// Addressable slots of all zones together: how many pixels the zone list
/// consumes.
pub open spec fn total_body(zones: Seq<Zone>) -> int
    decreases zones.len(),
{
    if zones.len() == 0 {
        0
    } else {
        zones[0].body + total_body(zones.drop_first())
    }
}

pub proof fn lemma_total_body_nonneg(zones: Seq<Zone>)
    ensures
        total_body(zones) >= 0,
    decreases zones.len(),
{
    if zones.len() > 0 {
        lemma_total_body_nonneg(zones.drop_first());
    }
}

/// `n` dark bytes.
pub open spec fn zeros(n: int) -> Seq<u8> {
    Seq::new(n as nat, |i: int| 0u8)
}

/// A triple flattened to three bytes, in R, G, B order.
pub open spec fn rgb_bytes(c: Rgb) -> Seq<u8> {
    seq![c.red, c.green, c.blue]
}

/// A run of triples flattened to bytes.
pub open spec fn flat_rgb(colors: Seq<Rgb>) -> Seq<u8>
    decreases colors.len(),
{
    if colors.len() == 0 {
        Seq::empty()
    } else {
        rgb_bytes(colors[0]) + flat_rgb(colors.drop_first())
    }
}

pub proof fn lemma_flat_rgb_len(colors: Seq<Rgb>)
    ensures
        flat_rgb(colors).len() == 3 * colors.len(),
    decreases colors.len(),
{
    if colors.len() > 0 {
        lemma_flat_rgb_len(colors.drop_first());
    }
}

proof fn lemma_flat_rgb_snoc(colors: Seq<Rgb>, a: int, b: int)
    requires
        0 <= a <= b < colors.len(),
    ensures
        flat_rgb(colors.subrange(a, b + 1)) == flat_rgb(colors.subrange(a, b)) + rgb_bytes(
            colors[b],
        ),
    decreases b - a,
{
    if a == b {
        assert(colors.subrange(a, a) =~= Seq::<Rgb>::empty());
        assert(colors.subrange(a, a + 1).drop_first() =~= Seq::<Rgb>::empty());
        assert(flat_rgb(colors.subrange(a, b)) + rgb_bytes(colors[b]) =~= flat_rgb(
            colors.subrange(a, b + 1),
        ));
    } else {
        lemma_flat_rgb_snoc(colors, a + 1, b);
        assert(colors.subrange(a, b + 1).drop_first() =~= colors.subrange(a + 1, b + 1));
        assert(colors.subrange(a, b).drop_first() =~= colors.subrange(a + 1, b));
        assert(flat_rgb(colors.subrange(a, b)) + rgb_bytes(colors[b]) =~= rgb_bytes(
            colors.subrange(a, b)[0],
        ) + (flat_rgb(colors.subrange(a + 1, b)) + rgb_bytes(colors[b])));
    }
}

/// How many pixels a zone's body actually takes, starting at `start` in an
/// array of `len` pixels: the full body count, or whatever remains.
pub open spec fn body_take(z: Zone, len: int, start: int) -> int {
    if start >= len {
        0
    } else if z.body <= len - start {
        z.body as int
    } else {
        len - start
    }
}

/// The bytes one zone lays on the wire: `head` dark triples, then its body's
/// share of the pixel stream (cut short if the stream runs out), then `tail`
/// dark triples.
pub open spec fn zone_bytes(colors: Seq<Rgb>, z: Zone, start: int) -> Seq<u8> {
    let take = body_take(z, colors.len() as int, start);
    zeros(3 * z.head) + flat_rgb(colors.subrange(start, start + take)) + zeros(3 * z.tail)
}

/// The whole frame, zone after zone in list order; each zone consumes the
/// next `body_take` pixels of the single sequential stream.
pub open spec fn packet_bytes(colors: Seq<Rgb>, zones: Seq<Zone>, start: int) -> Seq<u8>
    decreases zones.len(),
{
    if zones.len() == 0 {
        Seq::empty()
    } else {
        zone_bytes(colors, zones[0], start) + packet_bytes(
            colors,
            zones.drop_first(),
            start + body_take(zones[0], colors.len() as int, start),
        )
    }
}

/// The packetizer byte-count law: when the zone bodies exactly consume the
/// pixel stream from `start` on, the frame holds 3 bytes for every slot,
/// padding included: 3 * sum(head + body + tail).
pub proof fn lemma_packet_length(colors: Seq<Rgb>, zones: Seq<Zone>, start: int)
    requires
        0 <= start <= colors.len(),
        total_body(zones) == colors.len() - start,
    ensures
        packet_bytes(colors, zones, start).len() == 3 * total_slots(zones),
    decreases zones.len(),
{
    if zones.len() == 0 {
    } else {
        let z = zones[0];
        lemma_total_body_nonneg(zones.drop_first());
        let take = body_take(z, colors.len() as int, start);
        assert(take == z.body);
        lemma_flat_rgb_len(colors.subrange(start, start + take));
        lemma_packet_length(colors, zones.drop_first(), start + take);
    }
}

/// Append `n` dark bytes.
fn push_zeros(out: &mut Vec<u8>, n: usize)
    ensures
        final(out)@ == old(out)@ + zeros(n as int),
{
    let ghost base = out@;
    let mut j: usize = 0;
    while j < n
        invariant
            j <= n,
            out@ == base + zeros(j as int),
        decreases n - j,
    {
        out.push(0);
        assert(out@ =~= base + zeros(j as int + 1));
        j = j + 1;
    }
}

/// Append the triples `colors[start .. start + take]`, flattened.
fn push_colors(out: &mut Vec<u8>, colors: &Vec<Rgb>, start: usize, take: usize)
    requires
        start + take <= colors@.len(),
    ensures
        final(out)@ == old(out)@ + flat_rgb(colors@.subrange(start as int, start as int + take)),
{
    let ghost base = out@;
    let clen = colors.len();
    let mut j: usize = 0;
    assert(colors@.subrange(start as int, start as int) =~= Seq::<Rgb>::empty());
    assert(out@ =~= base + flat_rgb(colors@.subrange(start as int, start as int)));
    while j < take
        invariant
            j <= take,
            clen == colors@.len(),
            start + take <= clen,
            out@ == base + flat_rgb(colors@.subrange(start as int, start as int + j)),
        decreases take - j,
    {
        let c = colors[start + j];
        out.push(c.red);
        out.push(c.green);
        out.push(c.blue);
        proof {
            lemma_flat_rgb_snoc(colors@, start as int, start as int + j);
            assert(out@ =~= base + (flat_rgb(
                colors@.subrange(start as int, start as int + j),
            ) + rgb_bytes(colors@[start as int + j])));
        }
        j = j + 1;
    }
}

/// Lay the pixel colors out over the zones, in list order: for each zone,
/// `head` dark triples, then its body's share of the single sequential pixel
/// stream (stopping early if the stream runs out rather than reading past the
/// end), then `tail` dark triples. When the bodies sum to the pixel count the
/// frame holds exactly 3 * sum(head + body + tail) bytes.
pub fn packetize(colors: &Vec<Rgb>, zones: &Vec<Zone>) -> (out: Vec<u8>)
    ensures
        out@ == packet_bytes(colors@, zones@, 0),
        total_body(zones@) == colors@.len() ==> out@.len() == 3 * total_slots(zones@),
{
    let mut out: Vec<u8> = Vec::new();
    let mut next: usize = 0;
    let n = zones.len();
    let mut z: usize = 0;
    proof {
        assert(zones@.skip(0) =~= zones@);
    }
    while z < n
        invariant
            z <= n,
            n == zones@.len(),
            next <= colors@.len(),
            packet_bytes(colors@, zones@, 0) == out@ + packet_bytes(
                colors@,
                zones@.skip(z as int),
                next as int,
            ),
        decreases n - z,
    {
        let ghost out0 = out@;
        let ghost next0 = next as int;
        let zone = &zones[z];
        push_zeros(&mut out, 3 * (zone.head as usize));
        let remaining = colors.len() - next;
        let take = if (zone.body as usize) <= remaining {
            zone.body as usize
        } else {
            remaining
        };
        assert(take == body_take(zones@[z as int], colors@.len() as int, next as int));
        push_colors(&mut out, colors, next, take);
        next = next + take;
        push_zeros(&mut out, 3 * (zone.tail as usize));
        proof {
            assert(zones@.skip(z as int)[0] == zones@[z as int]);
            assert(zones@.skip(z as int).drop_first() =~= zones@.skip(z as int + 1));
            assert(out@ =~= out0 + zone_bytes(colors@, zones@[z as int], next0));
            assert(out@ + packet_bytes(colors@, zones@.skip(z as int + 1), next as int) =~= out0
                + packet_bytes(colors@, zones@.skip(z as int), next0));
        }
        z = z + 1;
    }
    proof {
        assert(zones@.skip(n as int) =~= Seq::<Zone>::empty());
        assert(out@ =~= packet_bytes(colors@, zones@, 0));
        if total_body(zones@) == colors@.len() {
            lemma_packet_length(colors@, zones@, 0);
        }
    }
    out
}

/// The largest payload one transmission chunk carries.
pub const CHUNK_SIZE: usize = 510;

/// One transmission unit: an ascending identifier (starting at 1) and at most
/// `CHUNK_SIZE` bytes of payload.
#[derive(Debug)]
pub struct Chunk {
    pub id: usize,
    pub data: Vec<u8>,
}

/// ceil(n / 510): how many chunks an n-byte frame needs.
pub open spec fn chunk_count(n: int) -> int {
    (n + 509) / 510
}

/// The k-th chunk's payload: bytes 510k up to 510(k+1), the tail cut at the
/// frame's end.
pub open spec fn chunk_slice(bytes: Seq<u8>, k: int) -> Seq<u8> {
    let end = if 510 * (k + 1) <= bytes.len() {
        510 * (k + 1)
    } else {
        bytes.len() as int
    };
    bytes.subrange(510 * k, end)
}

/// The chunking law: the chunks are exactly the consecutive 510-byte slices
/// of the frame, numbered 1 upward in order.
pub open spec fn chunks_wf(bytes: Seq<u8>, chunks: Seq<Chunk>) -> bool {
    &&& chunks.len() == chunk_count(bytes.len() as int)
    &&& forall|k: int| 0 <= k < chunks.len() ==> (#[trigger] chunks[k]).id == k + 1
    &&& forall|k: int| 0 <= k < chunks.len() ==> (#[trigger] chunks[k]).data@ == chunk_slice(
        bytes,
        k,
    )
}

/// For an n-byte frame there are ceil(n/510) chunks; every chunk but the last
/// holds exactly 510 bytes, and the last holds the remainder, between 1 and
/// 510 bytes.
pub proof fn lemma_chunk_sizes(bytes: Seq<u8>, chunks: Seq<Chunk>)
    requires
        chunks_wf(bytes, chunks),
    ensures
        chunks.len() == chunk_count(bytes.len() as int),
        forall|k: int| 0 <= k < chunks.len() - 1 ==> (#[trigger] chunks[k]).data@.len() == 510,
        chunks.len() > 0 ==> chunks[chunks.len() - 1].data@.len() == bytes.len() - 510 * (
        chunks.len() - 1),
        chunks.len() > 0 ==> 1 <= chunks[chunks.len() - 1].data@.len() <= 510,
{
    let n = bytes.len() as int;
    let count = chunk_count(n);
    vstd::arithmetic::div_mod::lemma_fundamental_div_mod(n + 509, 510);
    assert forall|k: int| 0 <= k < count - 1 implies (#[trigger] chunks[k]).data@.len()
        == 510 by {
        assert(510 * (k + 1) <= 510 * (count - 1)) by (nonlinear_arith)
            requires
                k + 1 <= count - 1,
        ;
    }
}

/// Split a frame into consecutive chunks of at most 510 bytes, identified
/// 1 upward in order; every chunk but the last holds exactly 510 bytes.
pub fn chunk_frame(bytes: &Vec<u8>) -> (chunks: Vec<Chunk>)
    ensures
        chunks_wf(bytes@, chunks@),
{
    let mut chunks: Vec<Chunk> = Vec::new();
    let mut pos: usize = 0;
    let n = bytes.len();
    while pos < n
        invariant
            n == bytes@.len(),
            pos <= n,
            pos == 510 * chunks@.len() || (pos == n && chunks@.len() == chunk_count(n as int)),
            pos == 510 * chunks@.len() ==> chunks@.len() == chunk_count(pos as int),
            forall|k: int| 0 <= k < chunks@.len() ==> (#[trigger] chunks@[k]).id == k + 1,
            forall|k: int| 0 <= k < chunks@.len() ==> (#[trigger] chunks@[k]).data@
                == chunk_slice(bytes@, k),
        decreases n - pos,
    {
        let end = if n - pos >= CHUNK_SIZE {
            pos + CHUNK_SIZE
        } else {
            n
        };
        let mut data: Vec<u8> = Vec::new();
        let mut j = pos;
        assert(bytes@.subrange(pos as int, pos as int) =~= Seq::<u8>::empty());
        assert(data@ =~= bytes@.subrange(pos as int, pos as int));
        while j < end
            invariant
                pos <= j <= end,
                end <= n,
                n == bytes@.len(),
                data@ == bytes@.subrange(pos as int, j as int),
            decreases end - j,
        {
            data.push(bytes[j]);
            assert(data@ =~= bytes@.subrange(pos as int, j as int + 1));
            j = j + 1;
        }
        let id = chunks.len() + 1;
        proof {
            let ghost count0 = chunks@.len() as int;
            assert(pos == 510 * count0);
            assert(data@ == chunk_slice(bytes@, count0));
            if end == pos + 510 {
                assert(chunk_count(end as int) == count0 + 1) by (nonlinear_arith)
                    requires
                        end == 510 * count0 + 510,
                        count0 >= 0,
                ;
            } else {
                assert(chunk_count(n as int) == count0 + 1) by (nonlinear_arith)
                    requires
                        510 * count0 < n < 510 * count0 + 510,
                        count0 >= 0,
                ;
            }
        }
        chunks.push(Chunk { id, data });
        pos = end;
    }
    proof {
        if pos == 510 * chunks@.len() {
            assert(chunks@.len() == chunk_count(n as int));
        }
    }
    chunks
}

/// The triples a frame shows: every pixel's current color, gamma-corrected at
/// render time only (the stored color itself is never gamma-corrected in
/// place).
pub open spec fn frame_colors(lights: Seq<Pixel>) -> Seq<Rgb> {
    Seq::new(lights.len(), |i: int| gamma_rgb(color_of(lights[i])))
}

/// Render one frame: gamma-correct each pixel's current color and lay the
/// triples out over the zones.
pub fn render_frame(lights: &Vec<Pixel>, zones: &Vec<Zone>) -> (out: Vec<u8>)
    ensures
        out@ == packet_bytes(frame_colors(lights@), zones@, 0),
        total_body(zones@) == lights@.len() ==> out@.len() == 3 * total_slots(zones@),
{
    let mut colors: Vec<Rgb> = Vec::new();
    let n = lights.len();
    let mut k: usize = 0;
    while k < n
        invariant
            k <= n,
            n == lights@.len(),
            colors@.len() == k,
            forall|i: int| 0 <= i < k ==> colors@[i] == frame_colors(lights@)[i],
        decreases n - k,
    {
        let c = current_color(&lights[k]);
        colors.push(gamma_correct(&c));
        k = k + 1;
    }
    proof {
        assert(colors@ =~= frame_colors(lights@));
    }
    packetize(&colors, zones)
}

} // verus!
