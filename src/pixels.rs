//! Sequential assembly of an RGBA8 frame from per-pixel escape samples.
//!
//! A sample is either classified interior by a shortcut test, or the result
//! of iterating `z <- z^2 + c`: the escape count and the bit pattern of the
//! final `|z|^2`. Interior pixels and pixels that reached the iteration bound
//! are black; every other pixel is shaded by a caller-supplied function of
//! `(iter, norm_sqr_bits)`, either for each pixel or once per escape count.

use vstd::prelude::*;
use crate::frame::Frame;

verus! {

/// An RGB color; pixels are written with alpha 255.
#[derive(Clone, Copy, Debug, PartialEq, Eq, Structural)]
pub struct Rgb {
    pub r: u8,
    pub g: u8,
    pub b: u8,
}

/// The color of interior points.
pub open spec fn black() -> Rgb {
    Rgb { r: 0, g: 0, b: 0 }
}

/// The outcome of evaluating one pixel's sample point.
#[derive(Clone, Copy, Debug, PartialEq, Eq, Structural)]
pub enum Sample {
    /// Inside the main cardioid or the period-2 bulb; not iterated.
    Shortcut,
    /// Iterated: the escape count, and the bit pattern of `|z|^2` at loop exit.
    Iterated { iter: u32, norm_sqr_bits: u64 },
}

/// How escaped pixels are shaded.
#[derive(Clone, Copy, Debug, PartialEq, Eq, Structural)]
pub enum ColorPolicy {
    /// Every escaped pixel is shaded from its own sample.
    Exact,
    /// Shaded once per escape count, from the first pixel that escapes at it;
    /// later pixels with that count reuse the color.
    CachedByIter,
}

pub open spec fn iter_of(s: Sample) -> u32 {
    match s {
        Sample::Shortcut => 0,
        Sample::Iterated { iter, .. } => iter,
    }
}

pub open spec fn norm_bits_of(s: Sample) -> u64 {
    match s {
        Sample::Shortcut => 0,
        Sample::Iterated { norm_sqr_bits, .. } => norm_sqr_bits,
    }
}

/// The sample escaped before the iteration bound; otherwise the pixel is
/// taken to be inside the set.
pub open spec fn escapes(s: Sample, max_iter: u32) -> bool {
    match s {
        Sample::Shortcut => false,
        Sample::Iterated { iter, .. } => iter < max_iter,
    }
}

/// No pixel before `k` escaped at the escape count of pixel `k`.
pub open spec fn first_at_count(s: Seq<Sample>, max_iter: u32, k: int) -> bool {
    forall|j: int| 0 <= j < k ==> !(escapes(#[trigger] s[j], max_iter) && iter_of(s[j]) == iter_of(s[k]))
}

/// The RGB channels of pixel `k` of an RGBA8 buffer.
pub open spec fn pixel_rgb(px: Seq<u8>, k: int) -> Rgb {
    Rgb { r: px[4 * k], g: px[4 * k + 1], b: px[4 * k + 2] }
}

/// Whether a sample is shown black: classified by a shortcut, or iterated up
/// to the bound.
pub fn is_interior(sample: Sample, max_iter: u32) -> (r: bool)
    ensures
        r == !escapes(sample, max_iter),
{
    match sample {
        Sample::Shortcut => true,
        Sample::Iterated { iter, .. } => iter >= max_iter,
    }
}

/// Colors memoized by escape count, for counts below the iteration bound.
pub struct ColorCache {
    entries: Vec<Option<Rgb>>,
}

impl View for ColorCache {
    type V = Seq<Option<Rgb>>;

    closed spec fn view(&self) -> Seq<Option<Rgb>> {
        self.entries@
    }
}

impl ColorCache {
    /// An empty cache for escape counts below `max_iter`.
    pub fn new(max_iter: u32) -> (r: ColorCache)
        ensures
            r@.len() == max_iter,
            forall|t: int| 0 <= t < max_iter ==> #[trigger] r@[t] is None,
    {
        let mut entries: Vec<Option<Rgb>> = Vec::new();
        let mut t: u32 = 0;
        while t < max_iter
            invariant
                t <= max_iter,
                entries@.len() == t,
                forall|i: int| 0 <= i < t ==> #[trigger] entries@[i] is None,
            decreases max_iter - t,
        {
            entries.push(None);
            t = t + 1;
        }
        ColorCache { entries }
    }

    /// The color stored for escape count `iter`, if any.
    pub fn get(&self, iter: u32) -> (r: Option<Rgb>)
        requires
            iter < self@.len(),
        ensures
            r == self@[iter as int],
    {
        self.entries[iter as usize]
    }

    /// Stores `c` for escape count `iter`.
    pub fn put(&mut self, iter: u32, c: Rgb)
        requires
            iter < old(self)@.len(),
        ensures
            final(self)@ == old(self)@.update(iter as int, Some(c)),
    {
        self.entries.set(iter as usize, Some(c));
    }
}

/// Appends one opaque pixel.
fn push_pixel(out: &mut Vec<u8>, c: Rgb)
    requires
        old(out)@.len() % 4 == 0,
    ensures
        final(out)@.len() == old(out)@.len() + 4,
        forall|i: int| 0 <= i < old(out)@.len() ==> final(out)@[i] == old(out)@[i],
        pixel_rgb(final(out)@, old(out)@.len() as int / 4) == c,
        final(out)@[old(out)@.len() as int + 3] == 255,
{
    out.push(c.r);
    out.push(c.g);
    out.push(c.b);
    out.push(255u8);
}

/// Every pixel before `k` keeps its channels from `a` to `b`.
proof fn lemma_pixels_kept(a: Seq<u8>, b: Seq<u8>, k: int)
    requires
        0 <= k,
        a.len() == 4 * k,
        b.len() >= a.len(),
        forall|i: int| 0 <= i < a.len() ==> b[i] == a[i],
    ensures
        forall|j: int| 0 <= j < k ==> #[trigger] pixel_rgb(b, j) == pixel_rgb(a, j) && b[4 * j + 3] == a[4 * j + 3],
{
    assert forall|j: int| 0 <= j < k implies #[trigger] pixel_rgb(b, j) == pixel_rgb(a, j) && b[4 * j + 3] == a[4 * j + 3] by {
        assert(b[4 * j] == a[4 * j]);
        assert(b[4 * j + 1] == a[4 * j + 1]);
        assert(b[4 * j + 2] == a[4 * j + 2]);
        assert(b[4 * j + 3] == a[4 * j + 3]);
    }
}

/// Renders with `ColorPolicy::Exact`.
fn render_exact<F: Fn(u32, u64) -> Rgb>(max_iter: u32, samples: &[Sample], shade: &F) -> (r: Vec<u8>)
    requires
        samples@.len() * 4 <= usize::MAX,
        forall|i: u32, b: u64| shade.requires((i, b)),
    ensures
        r@.len() == 4 * samples@.len(),
        forall|k: int| 0 <= k < samples@.len() ==> #[trigger] r@[4 * k + 3] == 255,
        forall|k: int|
            0 <= k < samples@.len() && !escapes(samples@[k], max_iter) ==> #[trigger] pixel_rgb(r@, k) == black(),
        forall|k: int|
            0 <= k < samples@.len() && escapes(samples@[k], max_iter) ==> shade.ensures(
                (iter_of(samples@[k]), norm_bits_of(samples@[k])),
                #[trigger] pixel_rgb(r@, k),
            ),
{
    let n: usize = samples.len();
    let mut out: Vec<u8> = Vec::new();
    let mut k: usize = 0;
    while k < n
        invariant
            n == samples@.len(),
            n * 4 <= usize::MAX,
            k <= n,
            out@.len() == 4 * k,
            forall|i: u32, b: u64| shade.requires((i, b)),
            forall|j: int| 0 <= j < k ==> #[trigger] out@[4 * j + 3] == 255,
            forall|j: int| 0 <= j < k && !escapes(samples@[j], max_iter) ==> #[trigger] pixel_rgb(out@, j) == black(),
            forall|j: int|
                0 <= j < k && escapes(samples@[j], max_iter) ==> shade.ensures(
                    (iter_of(samples@[j]), norm_bits_of(samples@[j])),
                    #[trigger] pixel_rgb(out@, j),
                ),
        decreases n - k,
    {
        let ghost prev = out@;
        let c: Rgb = match samples[k] {
            Sample::Shortcut => Rgb { r: 0, g: 0, b: 0 },
            Sample::Iterated { iter, norm_sqr_bits } => {
                if iter < max_iter {
                    shade(iter, norm_sqr_bits)
                } else {
                    Rgb { r: 0, g: 0, b: 0 }
                }
            },
        };
        push_pixel(&mut out, c);
        proof {
            lemma_pixels_kept(prev, out@, k as int);
            assert(out@[4 * (k as int) + 3] == 255);
        }
        k = k + 1;
    }
    out
}

/// Renders with `ColorPolicy::CachedByIter`.
fn render_cached<F: Fn(u32, u64) -> Rgb>(max_iter: u32, samples: &[Sample], shade: &F) -> (r: Vec<u8>)
    requires
        samples@.len() * 4 <= usize::MAX,
        forall|i: u32, b: u64| shade.requires((i, b)),
    ensures
        r@.len() == 4 * samples@.len(),
        forall|k: int| 0 <= k < samples@.len() ==> #[trigger] r@[4 * k + 3] == 255,
        forall|k: int|
            0 <= k < samples@.len() && !escapes(samples@[k], max_iter) ==> #[trigger] pixel_rgb(r@, k) == black(),
        forall|k: int|
            0 <= k < samples@.len() && escapes(samples@[k], max_iter) && first_at_count(samples@, max_iter, k)
                ==> shade.ensures(
                (iter_of(samples@[k]), norm_bits_of(samples@[k])),
                #[trigger] pixel_rgb(r@, k),
            ),
        forall|k: int, j: int|
            0 <= k < samples@.len() && 0 <= j < samples@.len() && escapes(samples@[k], max_iter) && escapes(
                samples@[j],
                max_iter,
            ) && iter_of(samples@[k]) == iter_of(samples@[j]) ==> #[trigger] pixel_rgb(r@, k) == #[trigger] pixel_rgb(
                r@,
                j,
            ),
{
    let n: usize = samples.len();
    let mut cache = ColorCache::new(max_iter);
    let mut out: Vec<u8> = Vec::new();
    let mut k: usize = 0;
    while k < n
        invariant
            n == samples@.len(),
            n * 4 <= usize::MAX,
            k <= n,
            out@.len() == 4 * k,
            cache@.len() == max_iter,
            forall|i: u32, b: u64| shade.requires((i, b)),
            forall|j: int| 0 <= j < k ==> #[trigger] out@[4 * j + 3] == 255,
            forall|j: int| 0 <= j < k && !escapes(samples@[j], max_iter) ==> #[trigger] pixel_rgb(out@, j) == black(),
            forall|t: int|
                0 <= t < max_iter && #[trigger] cache@[t] is Some ==> exists|j: int|
                    0 <= j < k && escapes(#[trigger] samples@[j], max_iter) && iter_of(samples@[j]) == t,
            forall|j: int|
                0 <= j < k && escapes(samples@[j], max_iter) ==> cache@[iter_of(samples@[j]) as int] == Some(
                    #[trigger] pixel_rgb(out@, j),
                ),
            forall|j: int|
                0 <= j < k && escapes(samples@[j], max_iter) && first_at_count(samples@, max_iter, j) ==> shade.ensures(
                    (iter_of(samples@[j]), norm_bits_of(samples@[j])),
                    #[trigger] pixel_rgb(out@, j),
                ),
        decreases n - k,
    {
        let ghost prev = out@;
        let ghost prev_cache = cache@;
        let c: Rgb = match samples[k] {
            Sample::Shortcut => Rgb { r: 0, g: 0, b: 0 },
            Sample::Iterated { iter, norm_sqr_bits } => {
                if iter < max_iter {
                    match cache.get(iter) {
                        Some(hit) => hit,
                        None => {
                            let fresh = shade(iter, norm_sqr_bits);
                            cache.put(iter, fresh);
                            proof {
                                assert forall|j: int| 0 <= j < k implies !(escapes(#[trigger] samples@[j], max_iter)
                                    && iter_of(samples@[j]) == iter_of(samples@[k as int])) by {
                                    if escapes(samples@[j], max_iter) && iter_of(samples@[j]) == iter {
                                        assert(prev_cache[iter as int] == Some(pixel_rgb(prev, j)));
                                    }
                                }
                            }
                            fresh
                        },
                    }
                } else {
                    Rgb { r: 0, g: 0, b: 0 }
                }
            },
        };
        push_pixel(&mut out, c);
        proof {
            let ki = k as int;
            lemma_pixels_kept(prev, out@, ki);
            assert(out@[4 * ki + 3] == 255);
            assert forall|j: int| 0 <= j < k + 1 && escapes(samples@[j], max_iter) implies cache@[iter_of(
                samples@[j],
            ) as int] == Some(#[trigger] pixel_rgb(out@, j)) by {
                if j < ki {
                    assert(prev_cache[iter_of(samples@[j]) as int] == Some(pixel_rgb(prev, j)));
                    assert(cache@[iter_of(samples@[j]) as int] == prev_cache[iter_of(samples@[j]) as int]);
                }
            }
            assert forall|j: int|
                0 <= j < k + 1 && escapes(samples@[j], max_iter) && first_at_count(samples@, max_iter, j) implies shade.ensures(
                (iter_of(samples@[j]), norm_bits_of(samples@[j])),
                #[trigger] pixel_rgb(out@, j),
            ) by {
                if j == ki {
                    let t = iter_of(samples@[j]) as int;
                    if prev_cache[t] is Some {
                        let w = choose|w: int|
                            0 <= w < ki && escapes(#[trigger] samples@[w], max_iter) && iter_of(samples@[w]) == t;
                        assert(!(escapes(samples@[w], max_iter) && iter_of(samples@[w]) == iter_of(samples@[ki])));
                    }
                }
            }
            assert forall|t: int| 0 <= t < max_iter && #[trigger] cache@[t] is Some implies exists|j: int|
                0 <= j < k + 1 && escapes(#[trigger] samples@[j], max_iter) && iter_of(samples@[j]) == t by {
                if prev_cache[t] is Some {
                    let w = choose|w: int|
                        0 <= w < ki && escapes(#[trigger] samples@[w], max_iter) && iter_of(samples@[w]) == t;
                    assert(0 <= w < k + 1 && escapes(samples@[w], max_iter) && iter_of(samples@[w]) == t);
                } else {
                    assert(escapes(samples@[ki], max_iter) && iter_of(samples@[ki]) == t);
                }
            }
        }
        k = k + 1;
    }
    out
}

/// `shade` gives one color for each argument pair.
pub open spec fn deterministic<F: Fn(u32, u64) -> Rgb>(shade: F) -> bool {
    forall|i: u32, b: u64, c1: Rgb, c2: Rgb|
        shade.ensures((i, b), c1) && shade.ensures((i, b), c2) ==> c1 == c2
}

/// `px` is the RGBA8 buffer of `samples` rendered under `policy`: four bytes
/// per sample, opaque; black where the sample does not escape; an escaped
/// pixel shaded from its own sample under `Exact`; under `CachedByIter`,
/// the first pixel at each escape count shaded from its own sample and all
/// pixels with one count sharing a color.
pub open spec fn rendered<F: Fn(u32, u64) -> Rgb>(
    max_iter: u32,
    samples: Seq<Sample>,
    policy: ColorPolicy,
    shade: F,
    px: Seq<u8>,
) -> bool {
    &&& px.len() == 4 * samples.len()
    &&& forall|k: int| 0 <= k < samples.len() ==> #[trigger] px[4 * k + 3] == 255
    &&& forall|k: int|
        0 <= k < samples.len() && !escapes(samples[k], max_iter) ==> #[trigger] pixel_rgb(px, k) == black()
    &&& policy == ColorPolicy::Exact ==> forall|k: int|
        0 <= k < samples.len() && escapes(samples[k], max_iter) ==> shade.ensures(
            (iter_of(samples[k]), norm_bits_of(samples[k])),
            #[trigger] pixel_rgb(px, k),
        )
    &&& policy == ColorPolicy::CachedByIter ==> forall|k: int|
        0 <= k < samples.len() && escapes(samples[k], max_iter) && first_at_count(samples, max_iter, k)
            ==> shade.ensures((iter_of(samples[k]), norm_bits_of(samples[k])), #[trigger] pixel_rgb(px, k))
    &&& policy == ColorPolicy::CachedByIter ==> forall|k: int, j: int|
        0 <= k < samples.len() && 0 <= j < samples.len() && escapes(samples[k], max_iter) && escapes(
            samples[j],
            max_iter,
        ) && iter_of(samples[k]) == iter_of(samples[j]) ==> #[trigger] pixel_rgb(px, k) == #[trigger] pixel_rgb(
            px,
            j,
        )
}

/// Assembles a frame's RGBA8 buffer from its samples, given in row-major
/// order (rows top to bottom, pixels left to right within a row).
///
/// Interior samples give black pixels. Escaped samples are shaded by
/// `shade(iter, norm_sqr_bits)`: each on its own under `Exact`; under
/// `CachedByIter`, the first pixel to escape at a count is shaded from its
/// own sample and every later pixel with that count gets the same color.
/// Alpha is always 255.
pub fn render_samples<F: Fn(u32, u64) -> Rgb>(
    frame: &Frame,
    samples: &[Sample],
    policy: ColorPolicy,
    shade: F,
) -> (r: Vec<u8>)
    requires
        frame.wf(),
        samples@.len() == frame.pixels(),
        frame.bytes() <= usize::MAX,
        forall|i: u32, b: u64| shade.requires((i, b)),
    ensures
        r@.len() == frame.bytes(),
        rendered(frame.max_iter, samples@, policy, shade, r@),
{
    match policy {
        ColorPolicy::Exact => render_exact(frame.max_iter, samples, &shade),
        ColorPolicy::CachedByIter => render_cached(frame.max_iter, samples, &shade),
    }
}

/// A pixel classified interior by a shortcut test is opaque black, under
/// either policy.
pub proof fn lemma_shortcut_pixel_black<F: Fn(u32, u64) -> Rgb>(
    max_iter: u32,
    samples: Seq<Sample>,
    policy: ColorPolicy,
    shade: F,
    px: Seq<u8>,
    k: int,
)
    requires
        rendered(max_iter, samples, policy, shade, px),
        0 <= k < samples.len(),
        samples[k] == Sample::Shortcut,
    ensures
        pixel_rgb(px, k) == black(),
        px[4 * k + 3] == 255,
{
}

/// A pixel whose iteration reached the bound is opaque black, whatever its
/// final magnitude, under either policy.
pub proof fn lemma_bound_pixel_black<F: Fn(u32, u64) -> Rgb>(
    max_iter: u32,
    samples: Seq<Sample>,
    policy: ColorPolicy,
    shade: F,
    px: Seq<u8>,
    k: int,
)
    requires
        rendered(max_iter, samples, policy, shade, px),
        0 <= k < samples.len(),
        samples[k] is Iterated,
        iter_of(samples[k]) == max_iter,
    ensures
        pixel_rgb(px, k) == black(),
        px[4 * k + 3] == 255,
{
}

/// With a deterministic shading function, two pixels with identical samples
/// get identical colors, under either policy.
pub proof fn lemma_same_sample_same_color<F: Fn(u32, u64) -> Rgb>(
    max_iter: u32,
    samples: Seq<Sample>,
    policy: ColorPolicy,
    shade: F,
    px: Seq<u8>,
    k: int,
    j: int,
)
    requires
        rendered(max_iter, samples, policy, shade, px),
        deterministic(shade),
        0 <= k < samples.len(),
        0 <= j < samples.len(),
        samples[k] == samples[j],
    ensures
        pixel_rgb(px, k) == pixel_rgb(px, j),
{
    if escapes(samples[k], max_iter) && policy == ColorPolicy::Exact {
        assert(shade.ensures((iter_of(samples[k]), norm_bits_of(samples[k])), pixel_rgb(px, k)));
        assert(shade.ensures((iter_of(samples[j]), norm_bits_of(samples[j])), pixel_rgb(px, j)));
    }
}

/// With a deterministic shading function, the two policies give the same
/// pixel wherever the cache is not consulted: on interior pixels and on the
/// first pixel to escape at each count. Elsewhere the cached policy repeats
/// that first pixel's color.
pub proof fn lemma_policies_agree_uncached<F: Fn(u32, u64) -> Rgb>(
    max_iter: u32,
    samples: Seq<Sample>,
    shade: F,
    exact: Seq<u8>,
    cached: Seq<u8>,
    k: int,
)
    requires
        rendered(max_iter, samples, ColorPolicy::Exact, shade, exact),
        rendered(max_iter, samples, ColorPolicy::CachedByIter, shade, cached),
        deterministic(shade),
        0 <= k < samples.len(),
        !escapes(samples[k], max_iter) || first_at_count(samples, max_iter, k),
    ensures
        pixel_rgb(exact, k) == pixel_rgb(cached, k),
        exact[4 * k + 3] == cached[4 * k + 3],
{
    if escapes(samples[k], max_iter) {
        assert(shade.ensures((iter_of(samples[k]), norm_bits_of(samples[k])), pixel_rgb(exact, k)));
        assert(shade.ensures((iter_of(samples[k]), norm_bits_of(samples[k])), pixel_rgb(cached, k)));
    }
}

} // verus!
