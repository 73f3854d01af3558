//! Progressive accumulation of traced radiance into a display image.
//!
//! Radiance is held in fixed point: a channel value of [`RADIANCE_ONE`]
//! stands for 1.0, so values above it are brighter than the display can
//! show. Each frame the tracer hands over one radiance value per pixel;
//! the renderer adds it to that pixel's running sum, divides the sum by the
//! number of frames accumulated so far, clamps to [0, 1] and converts the
//! result to one RGBA byte quadruple per pixel.
use vstd::prelude::*;

verus! {

/// The fixed-point value that stands for a radiance of 1.0.
pub const RADIANCE_ONE: u32 = 0x1_0000;

/// Linear RGBA radiance of one pixel for one frame, in fixed point.
#[derive(Clone, Copy, Debug, PartialEq, Eq, Structural)]
pub struct Radiance {
    pub r: u32,
    pub g: u32,
    pub b: u32,
    pub a: u32,
}

/// The running sum of a pixel's radiance over the frames accumulated so far.
#[derive(Clone, Copy, Debug, PartialEq, Eq, Structural)]
pub struct RadianceSum {
    pub r: u64,
    pub g: u64,
    pub b: u64,
    pub a: u64,
}

/// Channel `k` (0 red, 1 green, 2 blue, 3 alpha) of a radiance value.
pub open spec fn radiance_channel(c: Radiance, k: int) -> u32 {
    if k == 0 {
        c.r
    } else if k == 1 {
        c.g
    } else if k == 2 {
        c.b
    } else {
        c.a
    }
}

/// Channel `k` (0 red, 1 green, 2 blue, 3 alpha) of a running sum.
pub open spec fn sum_channel(s: RadianceSum, k: int) -> u64 {
    if k == 0 {
        s.r
    } else if k == 1 {
        s.g
    } else if k == 2 {
        s.b
    } else {
        s.a
    }
}

/// `s + x`, or `u64::MAX` where that does not fit.
pub open spec fn add_channel_spec(s: u64, x: u32) -> u64 {
    if s + x > u64::MAX {
        u64::MAX
    } else {
        (s + x) as u64
    }
}

/// The display byte for a channel whose running sum over `samples` frames
/// is `sum`: the mean, clamped to [0, 1] and scaled to 0..=255, rounding
/// down.
pub open spec fn channel_byte_spec(sum: u64, samples: nat) -> u8 {
    let mean = sum as nat / samples;
    let clamped = if mean > RADIANCE_ONE { RADIANCE_ONE as nat } else { mean };
    (clamped * 255 / RADIANCE_ONE as nat) as u8
}

/// The running sum of one pixel after adding `c` to `s`, channel by channel.
pub open spec fn add_radiance_spec(s: RadianceSum, c: Radiance) -> RadianceSum {
    RadianceSum {
        r: add_channel_spec(s.r, c.r),
        g: add_channel_spec(s.g, c.g),
        b: add_channel_spec(s.b, c.b),
        a: add_channel_spec(s.a, c.a),
    }
}

/// The display pixel of a running sum over `samples` frames.
pub open spec fn display_pixel_spec(s: RadianceSum, samples: nat) -> [u8; 4] {
    [
        channel_byte_spec(s.r, samples),
        channel_byte_spec(s.g, samples),
        channel_byte_spec(s.b, samples),
        channel_byte_spec(s.a, samples),
    ]
}

fn add_channel(s: u64, x: u32) -> (r: u64)
    ensures
        r == add_channel_spec(s, x),
{
    s.saturating_add(x as u64)
}

fn channel_byte(sum: u64, samples: usize) -> (r: u8)
    requires
        samples >= 1,
    ensures
        r == channel_byte_spec(sum, samples as nat),
{
    let mean = sum / samples as u64;
    let clamped = if mean > RADIANCE_ONE as u64 { RADIANCE_ONE as u64 } else { mean };
    assert(clamped * 255 / 0x1_0000 <= 255) by (nonlinear_arith)
        requires
            clamped <= 0x1_0000,
    ;
    (clamped * 255 / RADIANCE_ONE as u64) as u8
}

fn add_radiance(s: RadianceSum, c: Radiance) -> (r: RadianceSum)
    ensures
        r == add_radiance_spec(s, c),
{
    RadianceSum {
        r: add_channel(s.r, c.r),
        g: add_channel(s.g, c.g),
        b: add_channel(s.b, c.b),
        a: add_channel(s.a, c.a),
    }
}

fn display_pixel(s: RadianceSum, samples: usize) -> (r: [u8; 4])
    requires
        samples >= 1,
    ensures
        r == display_pixel_spec(s, samples as nat),
{
    [
        channel_byte(s.r, samples),
        channel_byte(s.g, samples),
        channel_byte(s.b, samples),
        channel_byte(s.a, samples),
    ]
}


/// The exact total of channel `k` over a pixel's rays.
pub open spec fn ray_total(rays: Seq<Radiance>, k: int) -> int
    decreases rays.len(),
{
    if rays.len() == 0 {
        0
    } else {
        ray_total(rays.drop_last(), k) + radiance_channel(rays.last(), k)
    }
}

proof fn lemma_ray_total_bound(rays: Seq<Radiance>, k: int)
    ensures
        0 <= ray_total(rays, k) <= rays.len() * 0xffff_ffff,
    decreases rays.len(),
{
    if rays.len() > 0 {
        lemma_ray_total_bound(rays.drop_last(), k);
    }
}

/// The mean of a non-empty run of radiance values, channel by channel,
/// rounding down.
pub open spec fn mean_radiance(rays: Seq<Radiance>) -> Radiance {
    Radiance {
        r: (ray_total(rays, 0) / rays.len() as int) as u32,
        g: (ray_total(rays, 1) / rays.len() as int) as u32,
        b: (ray_total(rays, 2) / rays.len() as int) as u32,
        a: (ray_total(rays, 3) / rays.len() as int) as u32,
    }
}

/// The mean radiance of the rays traced for one pixel in one frame.
pub fn average_rays(rays: &Vec<Radiance>) -> (r: Radiance)
    requires
        1 <= rays@.len() <= 0x1_0000_0000,
    ensures
        r == mean_radiance(rays@),
        forall|k: int| 0 <= k < 4 ==> #[trigger] radiance_channel(r, k) == ray_total(rays@, k) / rays@.len() as int,
{
    let mut sum = zero_sum();
    let mut i: usize = 0;
    while i < rays.len()
        invariant
            i <= rays@.len() <= 0x1_0000_0000,
            forall|k: int| 0 <= k < 4 ==> #[trigger] sum_channel(sum, k) == ray_total(rays@.take(i as int), k),
        decreases rays@.len() - i,
    {
        proof {
            assert forall|k: int| 0 <= k < 4 implies #[trigger] sum_channel(sum, k) + radiance_channel(rays@[i as int], k) <= u64::MAX && ray_total(rays@.take(i + 1), k) == sum_channel(sum, k) + radiance_channel(rays@[i as int], k) by {
                assert(rays@.take(i + 1).drop_last() =~= rays@.take(i as int));
                lemma_ray_total_bound(rays@.take(i as int), k);
                let t = ray_total(rays@.take(i as int), k);
                assert(t + 0xffff_ffff <= 0x1_0000_0000 * 0xffff_ffff) by (nonlinear_arith)
                    requires
                        t <= i * 0xffff_ffff,
                        i < 0x1_0000_0000,
                ;
            }
            assert(sum_channel(sum, 0) == sum.r && sum_channel(sum, 1) == sum.g);
            assert(sum_channel(sum, 2) == sum.b && sum_channel(sum, 3) == sum.a);
        }
        sum = add_radiance(sum, rays[i]);
        i += 1;
    }
    assert(rays@.take(rays@.len() as int) =~= rays@);
    let n = rays.len() as u64;
    proof {
        assert forall|k: int| 0 <= k < 4 implies (#[trigger] sum_channel(sum, k)) as int / (n as int) <= 0xffff_ffff by {
            lemma_ray_total_bound(rays@, k);
            let t = sum_channel(sum, k) as int;
            assert(t / (n as int) <= 0xffff_ffff) by (nonlinear_arith)
                requires
                    0 <= t <= n * 0xffff_ffff,
                    n >= 1,
            ;
        }
        assert(sum_channel(sum, 0) == sum.r && sum_channel(sum, 1) == sum.g);
        assert(sum_channel(sum, 2) == sum.b && sum_channel(sum, 3) == sum.a);
    }
    Radiance {
        r: (sum.r / n) as u32,
        g: (sum.g / n) as u32,
        b: (sum.b / n) as u32,
        a: (sum.a / n) as u32,
    }
}

/// A running sum with every channel zero.
pub open spec fn zero_sum_spec() -> RadianceSum {
    RadianceSum { r: 0, g: 0, b: 0, a: 0 }
}

/// The running sums after one frame: each pixel's sum plus its radiance in
/// `frame`, where the sums start again from zero when `first` holds.
pub open spec fn accumulated(acc: Seq<RadianceSum>, frame: Seq<Radiance>, first: bool) -> Seq<
    RadianceSum,
> {
    Seq::new(
        frame.len(),
        |i: int| add_radiance_spec(if first { zero_sum_spec() } else { acc[i] }, frame[i]),
    )
}

/// The display image of running sums over `samples` frames.
pub open spec fn displayed(acc: Seq<RadianceSum>, samples: nat) -> Seq<[u8; 4]> {
    Seq::new(acc.len(), |i: int| display_pixel_spec(acc[i], samples))
}

/// The sample counter after a frame: one more while accumulating, else
/// back to one.
pub open spec fn next_samples(samples: nat, accumulate: bool) -> nat {
    if accumulate {
        samples + 1
    } else {
        1
    }
}

/// The progressive renderer's state: the display image, the running sums it
/// is computed from, and the number of the frame about to be accumulated.
pub struct Renderer {
    pub image_data: Vec<[u8; 4]>,
    pub accumulation_data: Vec<RadianceSum>,
    pub width: usize,
    pub height: usize,
    /// The number of the next frame to accumulate; 1 starts afresh.
    pub samples: usize,
    /// Whether frames are averaged; otherwise each frame stands alone.
    pub accumulate: bool,
    /// The most bounces a path takes.
    pub bounces: u8,
    /// The primary rays traced per pixel each frame.
    pub rays_per_pixel: u8,
}

fn zero_sum() -> (r: RadianceSum)
    ensures
        r == zero_sum_spec(),
{
    RadianceSum { r: 0, g: 0, b: 0, a: 0 }
}

/// `n` black pixels and `n` zero sums.
fn cleared_buffers(n: usize) -> (r: (Vec<[u8; 4]>, Vec<RadianceSum>))
    ensures
        r.0@ == Seq::new(n as nat, |i: int| [0u8, 0u8, 0u8, 0u8]),
        r.1@ == Seq::new(n as nat, |i: int| zero_sum_spec()),
{
    let mut image: Vec<[u8; 4]> = Vec::new();
    let mut acc: Vec<RadianceSum> = Vec::new();
    let mut i: usize = 0;
    while i < n
        invariant
            i <= n,
            image@ == Seq::new(i as nat, |j: int| [0u8, 0u8, 0u8, 0u8]),
            acc@ == Seq::new(i as nat, |j: int| zero_sum_spec()),
        decreases n - i,
    {
        image.push([0, 0, 0, 0]);
        acc.push(zero_sum());
        i += 1;
        assert(image@ =~= Seq::new(i as nat, |j: int| [0u8, 0u8, 0u8, 0u8]));
        assert(acc@ =~= Seq::new(i as nat, |j: int| zero_sum_spec()));
    }
    (image, acc)
}

impl Renderer {
    /// Buffers that match the resolution, and a sample counter of at least one.
    pub open spec fn wf(&self) -> bool {
        &&& self.image_data@.len() == self.width * self.height
        &&& self.accumulation_data@.len() == self.width * self.height
        &&& self.samples >= 1
    }

    /// A renderer for `width` by `height` pixels with black buffers, ready to
    /// accumulate from its first frame, tracing five rays of up to five
    /// bounces per pixel.
    pub fn new(width: usize, height: usize) -> (r: Self)
        requires
            width * height <= usize::MAX,
        ensures
            r.wf(),
            r.width == width,
            r.height == height,
            r.image_data@ == Seq::new((width * height) as nat, |i: int| [0u8, 0u8, 0u8, 0u8]),
            r.accumulation_data@ == Seq::new((width * height) as nat, |i: int| zero_sum_spec()),
            r.samples == 1,
            r.accumulate,
            r.bounces == 5,
            r.rays_per_pixel == 5,
    {
        let (image_data, accumulation_data) = cleared_buffers(width * height);
        Renderer {
            image_data,
            accumulation_data,
            width,
            height,
            samples: 1,
            accumulate: true,
            bounces: 5,
            rays_per_pixel: 5,
        }
    }

    /// Changes the resolution: both buffers are cleared to the new pixel
    /// count and accumulation starts afresh.
    pub fn resize(&mut self, width: usize, height: usize)
        requires
            width * height <= usize::MAX,
        ensures
            final(self).wf(),
            final(self).width == width,
            final(self).height == height,
            final(self).image_data@ == Seq::new(
                (width * height) as nat,
                |i: int| [0u8, 0u8, 0u8, 0u8],
            ),
            final(self).accumulation_data@ == Seq::new(
                (width * height) as nat,
                |i: int| zero_sum_spec(),
            ),
            final(self).samples == 1,
            final(self).accumulate == old(self).accumulate,
            final(self).bounces == old(self).bounces,
            final(self).rays_per_pixel == old(self).rays_per_pixel,
    {
        let (image_data, accumulation_data) = cleared_buffers(width * height);
        self.width = width;
        self.height = height;
        self.image_data = image_data;
        self.accumulation_data = accumulation_data;
        self.reset_frame_index();
    }

    /// Restarts accumulation: the next frame is the first of a new average.
    pub fn reset_frame_index(&mut self)
        ensures
            final(self).samples == 1,
            final(self).image_data == old(self).image_data,
            final(self).accumulation_data == old(self).accumulation_data,
            final(self).width == old(self).width,
            final(self).height == old(self).height,
            final(self).accumulate == old(self).accumulate,
            final(self).bounces == old(self).bounces,
            final(self).rays_per_pixel == old(self).rays_per_pixel,
    {
        self.samples = 1;
    }

    /// The display image as one byte buffer for presentation: four bytes,
    /// red, green, blue and alpha, per pixel, row-major from the top-left.
    pub fn image_bytes(&self) -> (r: Vec<u8>)
        requires
            self.image_data@.len() * 4 <= usize::MAX,
        ensures
            r@.len() == 4 * self.image_data@.len(),
            forall|i: int, k: int|
                0 <= i < self.image_data@.len() && 0 <= k < 4 ==> r@[4 * i + k]
                    == #[trigger] self.image_data@[i]@[k],
    {
        let mut bytes: Vec<u8> = Vec::new();
        let mut i: usize = 0;
        while i < self.image_data.len()
            invariant
                i <= self.image_data@.len(),
                self.image_data@.len() * 4 <= usize::MAX,
                bytes@.len() == 4 * i,
                forall|j: int, k: int|
                    0 <= j < i && 0 <= k < 4 ==> bytes@[4 * j + k] == #[trigger] self.image_data@[j]@[k],
            decreases self.image_data@.len() - i,
        {
            let pixel = self.image_data[i];
            bytes.push(pixel[0]);
            bytes.push(pixel[1]);
            bytes.push(pixel[2]);
            bytes.push(pixel[3]);
            i += 1;
        }
        bytes
    }

    /// Accumulates one traced frame, `frame[i]` being the radiance of pixel
    /// `i` (row-major, top-left first), and recomputes the display image
    /// as the clamped mean of every frame since accumulation last started.
    pub fn render(&mut self, frame: &Vec<Radiance>)
        requires
            old(self).wf(),
            frame@.len() == old(self).width * old(self).height,
            old(self).samples < usize::MAX,
        ensures
            final(self).wf(),
            final(self).accumulation_data@ == accumulated(
                old(self).accumulation_data@,
                frame@,
                old(self).samples == 1,
            ),
            final(self).image_data@ == displayed(
                final(self).accumulation_data@,
                old(self).samples as nat,
            ),
            final(self).samples == next_samples(old(self).samples as nat, old(self).accumulate),
            final(self).width == old(self).width,
            final(self).height == old(self).height,
            final(self).accumulate == old(self).accumulate,
            final(self).bounces == old(self).bounces,
            final(self).rays_per_pixel == old(self).rays_per_pixel,
    {
        let n = frame.len();
        let first = self.samples == 1;
        let samples = self.samples;
        let mut i: usize = 0;
        while i < n
            invariant
                i <= n,
                n == frame@.len(),
                self.image_data@.len() == n,
                self.accumulation_data@.len() == n,
                self.width == old(self).width,
                self.height == old(self).height,
                self.samples == samples,
                samples == old(self).samples,
                samples >= 1,
                first == (samples == 1),
                self.accumulate == old(self).accumulate,
                self.bounces == old(self).bounces,
                self.rays_per_pixel == old(self).rays_per_pixel,
                forall|j: int|
                    0 <= j < i ==> self.accumulation_data@[j] == accumulated(
                        old(self).accumulation_data@,
                        frame@,
                        first,
                    )[j],
                forall|j: int|
                    0 <= j < i ==> self.image_data@[j] == display_pixel_spec(
                        self.accumulation_data@[j],
                        samples as nat,
                    ),
                forall|j: int|
                    i <= j < n ==> self.accumulation_data@[j] == old(self).accumulation_data@[j],
            decreases n - i,
        {
            let base = if first {
                zero_sum()
            } else {
                self.accumulation_data[i]
            };
            let sum = add_radiance(base, frame[i]);
            self.accumulation_data.set(i, sum);
            self.image_data.set(i, display_pixel(sum, samples));
            i += 1;
        }
        assert(self.accumulation_data@ =~= accumulated(
            old(self).accumulation_data@,
            frame@,
            first,
        ));
        assert(self.image_data@ =~= displayed(self.accumulation_data@, samples as nat));
        if self.accumulate {
            self.samples = samples + 1;
        } else {
            self.samples = 1;
        }
    }
}


/// The running sums after a run of frames rendered from a fresh start with
/// accumulation on: the first frame starts the sums from zero, each later
/// one adds to them.
pub open spec fn accumulate_run(acc: Seq<RadianceSum>, frames: Seq<Seq<Radiance>>) -> Seq<
    RadianceSum,
>
    decreases frames.len(),
{
    if frames.len() == 0 {
        acc
    } else {
        accumulated(accumulate_run(acc, frames.drop_last()), frames.last(), frames.len() == 1)
    }
}

/// The exact total of channel `k` of pixel `i` over a run of frames.
pub open spec fn channel_total(frames: Seq<Seq<Radiance>>, i: int, k: int) -> int
    decreases frames.len(),
{
    if frames.len() == 0 {
        0
    } else {
        channel_total(frames.drop_last(), i, k) + radiance_channel(frames.last()[i], k)
    }
}

/// A run of frames that all cover `n` pixels.
pub open spec fn frames_cover(frames: Seq<Seq<Radiance>>, n: nat) -> bool {
    forall|f: int| 0 <= f < frames.len() ==> #[trigger] frames[f].len() == n
}

/// With accumulation off the counter is back to one after every frame, so
/// the next frame starts afresh; and a frame that starts afresh leaves no
/// trace of what was accumulated before it: any two histories give the
/// same sums, and so the same image.
pub proof fn lemma_accumulation_off_forgets_history(
    samples: nat,
    acc1: Seq<RadianceSum>,
    acc2: Seq<RadianceSum>,
    frame: Seq<Radiance>,
)
    ensures
        next_samples(samples, false) == 1,
        accumulated(acc1, frame, true) == accumulated(acc2, frame, true),
{
    assert(accumulated(acc1, frame, true) =~= accumulated(acc2, frame, true));
}

/// A first frame in which every pixel sees the same radiance `c` (a scene
/// with nothing in it, under a sky of one color) shows `c`, clamped and
/// converted to bytes, at every pixel.
pub proof fn lemma_flat_frame_fills_image(acc: Seq<RadianceSum>, frame: Seq<Radiance>, c: Radiance)
    requires
        forall|i: int| 0 <= i < frame.len() ==> #[trigger] frame[i] == c,
    ensures
        displayed(accumulated(acc, frame, true), 1).len() == frame.len(),
        forall|i: int|
            0 <= i < frame.len() ==> #[trigger] displayed(accumulated(acc, frame, true), 1)[i]
                == [
                channel_byte_spec(c.r as u64, 1),
                channel_byte_spec(c.g as u64, 1),
                channel_byte_spec(c.b as u64, 1),
                channel_byte_spec(c.a as u64, 1),
            ],
{
}

/// Accumulating a run of `N` frames from a fresh start keeps, for every
/// pixel and channel, the exact total of the run, so the image shows each
/// pixel's mean over the run. `N` is at most 2^32, which no sum of `N` 32-bit
/// values can overflow.
pub proof fn lemma_accumulate_run_totals(
    acc: Seq<RadianceSum>,
    frames: Seq<Seq<Radiance>>,
    n: nat,
)
    requires
        1 <= frames.len() <= 0x1_0000_0000,
        frames_cover(frames, n),
    ensures
        accumulate_run(acc, frames).len() == n,
        forall|i: int, k: int|
            0 <= i < n && 0 <= k < 4 ==> #[trigger] sum_channel(accumulate_run(acc, frames)[i], k)
                == channel_total(frames, i, k),
        forall|i: int|
            0 <= i < n ==> #[trigger] displayed(accumulate_run(acc, frames), frames.len())[i]
                == [
                channel_byte_spec(channel_total(frames, i, 0) as u64, frames.len()),
                channel_byte_spec(channel_total(frames, i, 1) as u64, frames.len()),
                channel_byte_spec(channel_total(frames, i, 2) as u64, frames.len()),
                channel_byte_spec(channel_total(frames, i, 3) as u64, frames.len()),
            ],
    decreases frames.len(),
{
    let len = frames.len();
    assert(frames[len - 1].len() == n);
    if len > 1 {
        let prev = frames.drop_last();
        assert forall|f: int| 0 <= f < prev.len() implies #[trigger] prev[f].len() == n by {
            assert(prev[f] == frames[f]);
        }
        lemma_accumulate_run_totals(acc, prev, n);
    }
    assert forall|i: int, k: int|
        0 <= i < n && 0 <= k < 4 implies #[trigger] sum_channel(accumulate_run(acc, frames)[i], k)
        == channel_total(frames, i, k) by {
        lemma_channel_total_bound(frames.drop_last(), i, k);
        let x = radiance_channel(frames.last()[i], k);
        let prev_total = channel_total(frames.drop_last(), i, k);
        let prev_run = accumulate_run(acc, frames.drop_last());
        let base = if len == 1 { zero_sum_spec() } else { prev_run[i] };
        assert(accumulate_run(acc, frames)[i] == add_radiance_spec(base, frames.last()[i]));
        assert(sum_channel(base, k) == prev_total);
        assert(sum_channel(add_radiance_spec(base, frames.last()[i]), k) == add_channel_spec(
            sum_channel(base, k),
            x,
        ));
        assert(prev_total + x <= len * 0xffff_ffff) by (nonlinear_arith)
            requires
                prev_total <= (len - 1) * 0xffff_ffff,
                x <= 0xffff_ffff,
        ;
        assert(len * 0xffff_ffff <= 0x1_0000_0000 * 0xffff_ffff) by (nonlinear_arith)
            requires
                len <= 0x1_0000_0000,
        ;
    }
    assert forall|i: int| 0 <= i < n implies #[trigger] displayed(accumulate_run(acc, frames), len)[i]
        == [
        channel_byte_spec(channel_total(frames, i, 0) as u64, len),
        channel_byte_spec(channel_total(frames, i, 1) as u64, len),
        channel_byte_spec(channel_total(frames, i, 2) as u64, len),
        channel_byte_spec(channel_total(frames, i, 3) as u64, len),
    ] by {
        let run = accumulate_run(acc, frames);
        assert(sum_channel(run[i], 0) == channel_total(frames, i, 0));
        assert(sum_channel(run[i], 1) == channel_total(frames, i, 1));
        assert(sum_channel(run[i], 2) == channel_total(frames, i, 2));
        assert(sum_channel(run[i], 3) == channel_total(frames, i, 3));
    }
}

/// Accumulating `N` copies of one frame shows the same image as that frame
/// alone after a fresh start: the mean of equal samples is the sample.
pub proof fn lemma_repeated_frame_converges(
    acc: Seq<RadianceSum>,
    frames: Seq<Seq<Radiance>>,
    frame: Seq<Radiance>,
)
    requires
        1 <= frames.len() <= 0x1_0000_0000,
        forall|f: int| 0 <= f < frames.len() ==> #[trigger] frames[f] == frame,
    ensures
        displayed(accumulate_run(acc, frames), frames.len()) == displayed(
            accumulated(acc, frame, true),
            1,
        ),
{
    let len = frames.len();
    let n = frame.len();
    assert(frames_cover(frames, n));
    lemma_accumulate_run_totals(acc, frames, n);
    let run = accumulate_run(acc, frames);
    let single = accumulated(acc, frame, true);
    assert forall|i: int| 0 <= i < n implies #[trigger] displayed(run, len)[i] == displayed(
        single,
        1,
    )[i] by {
        assert forall|k: int| 0 <= k < 4 implies channel_byte_spec(
            #[trigger] sum_channel(run[i], k),
            len,
        ) == channel_byte_spec(sum_channel(single[i], k), 1) by {
            lemma_repeated_total(frames, frame, i, k);
            let c = radiance_channel(frame[i], k) as int;
            assert(sum_channel(single[i], k) == c);
            assert((len * c) / len as int == c) by (nonlinear_arith)
                requires
                    len >= 1,
            ;
        }
        assert(sum_channel(run[i], 0) == run[i].r);
        assert(sum_channel(run[i], 1) == run[i].g);
        assert(sum_channel(run[i], 2) == run[i].b);
        assert(sum_channel(run[i], 3) == run[i].a);
    }
    assert(displayed(run, len) =~= displayed(single, 1));
}

/// The radiance of pixel `i` in each frame of a run, in order.
pub open spec fn pixel_column(frames: Seq<Seq<Radiance>>, i: int) -> Seq<Radiance> {
    Seq::new(frames.len(), |f: int| frames[f][i])
}

/// The frame whose pixel `i` is the mean of pixel `i` over a run.
pub open spec fn mean_frame(frames: Seq<Seq<Radiance>>, n: nat) -> Seq<Radiance> {
    Seq::new(n, |i: int| mean_radiance(pixel_column(frames, i)))
}

/// Accumulating `N` frames shows exactly the image of one frame, after a
/// fresh start, whose every pixel is the mean of that pixel over the `N`
/// frames: averaging over frames and averaging over rays per pixel give the
/// same estimate.
pub proof fn lemma_accumulation_matches_ray_average(
    acc: Seq<RadianceSum>,
    frames: Seq<Seq<Radiance>>,
    n: nat,
)
    requires
        1 <= frames.len() <= 0x1_0000_0000,
        frames_cover(frames, n),
    ensures
        displayed(accumulate_run(acc, frames), frames.len()) == displayed(
            accumulated(acc, mean_frame(frames, n), true),
            1,
        ),
{
    let len = frames.len();
    lemma_accumulate_run_totals(acc, frames, n);
    let run = accumulate_run(acc, frames);
    let single = accumulated(acc, mean_frame(frames, n), true);
    assert forall|i: int| 0 <= i < n implies #[trigger] displayed(run, len)[i] == displayed(
        single,
        1,
    )[i] by {
        assert forall|k: int| 0 <= k < 4 implies channel_byte_spec(
            channel_total(frames, i, k) as u64,
            len,
        ) == channel_byte_spec(#[trigger] sum_channel(single[i], k), 1) by {
            lemma_column_total(frames, i, k);
            lemma_channel_total_bound(frames, i, k);
            let t = channel_total(frames, i, k);
            assert(t / (len as int) <= 0xffff_ffff) by (nonlinear_arith)
                requires
                    0 <= t <= len * 0xffff_ffff,
                    len >= 1,
            ;
            assert(t <= 0x1_0000_0000 * 0xffff_ffff) by (nonlinear_arith)
                requires
                    0 <= t <= len * 0xffff_ffff,
                    len <= 0x1_0000_0000,
            ;
            assert(radiance_channel(mean_radiance(pixel_column(frames, i)), k) == t / (len as int));
            assert(sum_channel(single[i], k) == t / (len as int));
        }
        assert(sum_channel(single[i], 0) == single[i].r);
        assert(sum_channel(single[i], 1) == single[i].g);
        assert(sum_channel(single[i], 2) == single[i].b);
        assert(sum_channel(single[i], 3) == single[i].a);
    }
    assert(displayed(run, len) =~= displayed(single, 1));
}

/// The total of a pixel's column over a run is its channel total.
proof fn lemma_column_total(frames: Seq<Seq<Radiance>>, i: int, k: int)
    ensures
        ray_total(pixel_column(frames, i), k) == channel_total(frames, i, k),
    decreases frames.len(),
{
    if frames.len() > 0 {
        assert(pixel_column(frames, i).drop_last() =~= pixel_column(frames.drop_last(), i));
        lemma_column_total(frames.drop_last(), i, k);
    }
}

/// Over `N` copies of one frame, a channel's total is `N` times its value.
proof fn lemma_repeated_total(frames: Seq<Seq<Radiance>>, frame: Seq<Radiance>, i: int, k: int)
    requires
        forall|f: int| 0 <= f < frames.len() ==> #[trigger] frames[f] == frame,
    ensures
        channel_total(frames, i, k) == frames.len() * radiance_channel(frame[i], k),
    decreases frames.len(),
{
    if frames.len() > 0 {
        let prev = frames.drop_last();
        assert forall|f: int| 0 <= f < prev.len() implies #[trigger] prev[f] == frame by {
            assert(prev[f] == frames[f]);
        }
        lemma_repeated_total(prev, frame, i, k);
        assert(frames.last() == frame);
        assert(prev.len() * radiance_channel(frame[i], k) + radiance_channel(frame[i], k)
            == frames.len() * radiance_channel(frame[i], k)) by (nonlinear_arith)
            requires
                prev.len() + 1 == frames.len(),
        ;
    }
}

/// A channel's total over `N` frames is at most `N` times the largest
/// 32-bit value.
proof fn lemma_channel_total_bound(frames: Seq<Seq<Radiance>>, i: int, k: int)
    ensures
        0 <= channel_total(frames, i, k) <= frames.len() * 0xffff_ffff,
    decreases frames.len(),
{
    if frames.len() > 0 {
        lemma_channel_total_bound(frames.drop_last(), i, k);
    }
}

} // verus!
