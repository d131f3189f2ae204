//! Colour sampling: per-channel medians of a window around a pixel or of
//! the pixels a mask selects, with the counts and sums a region sample
//! reports.

use vstd::prelude::*;
use crate::raster::{SceneAssetRaster, light_fringe, is_light_fringe_pixel};
use crate::asset::SceneAssetEditError;

verus! {

/// How many values of `s` are at most `m`.
pub open spec fn count_le(s: Seq<u8>, m: int) -> nat
    decreases s.len(),
{
    if s.len() == 0 {
        0
    } else {
        count_le(s.drop_last(), m) + if s.last() <= m { 1nat } else { 0nat }
    }
}

/// How many values of `s` equal `v`.
pub open spec fn count_eq(s: Seq<u8>, v: int) -> nat
    decreases s.len(),
{
    if s.len() == 0 {
        0
    } else {
        count_eq(s.drop_last(), v) + if s.last() == v { 1nat } else { 0nat }
    }
}

/// `m` stands at position `k` (from zero) once `s` is sorted ascending:
/// at most `k` values lie below it and more than `k` at or below it.
pub open spec fn order_stat(s: Seq<u8>, k: int, m: u8) -> bool {
    count_le(s, m - 1) <= k < count_le(s, m as int)
}

/// The median a sample takes: the value at position `len / 2` of the
/// sorted values.
pub open spec fn is_median(s: Seq<u8>, m: u8) -> bool {
    order_stat(s, (s.len() / 2) as int, m)
}

proof fn lemma_count_le_step(s: Seq<u8>, m: int)
    ensures
        count_le(s, m) == count_le(s, m - 1) + count_eq(s, m),
    decreases s.len(),
{
    if s.len() > 0 {
        lemma_count_le_step(s.drop_last(), m);
    }
}

proof fn lemma_count_le_bounds(s: Seq<u8>, m: int)
    ensures
        count_le(s, m) <= s.len(),
        m < 0 ==> count_le(s, m) == 0,
        m >= 255 ==> count_le(s, m) == s.len(),
    decreases s.len(),
{
    if s.len() > 0 {
        lemma_count_le_bounds(s.drop_last(), m);
    }
}

proof fn lemma_count_eq_bound(s: Seq<u8>, v: int)
    ensures
        count_eq(s, v) <= s.len(),
    decreases s.len(),
{
    if s.len() > 0 {
        lemma_count_eq_bound(s.drop_last(), v);
    }
}

proof fn lemma_count_le_monotone(s: Seq<u8>, a: int, b: int)
    requires
        a <= b,
    ensures
        count_le(s, a) <= count_le(s, b),
    decreases s.len(),
{
    if s.len() > 0 {
        lemma_count_le_monotone(s.drop_last(), a, b);
    }
}

proof fn lemma_count_eq_positive(s: Seq<u8>, v: int)
    requires
        count_eq(s, v) > 0,
    ensures
        s.contains(v as u8),
        0 <= v <= 255,
    decreases s.len(),
{
    if s.last() == v {
        assert(s[s.len() - 1] == v);
    } else {
        lemma_count_eq_positive(s.drop_last(), v);
        let j = choose|j: int| 0 <= j < s.drop_last().len() && s.drop_last()[j] == v as u8;
        assert(s[j] == v as u8);
    }
}

/// A position of a sorted sample names one value, and that value occurs in
/// the sample.
pub proof fn law_order_stat_unique(s: Seq<u8>, k: int, m1: u8, m2: u8)
    requires
        order_stat(s, k, m1),
        order_stat(s, k, m2),
    ensures
        m1 == m2,
        s.contains(m1),
{
    if m1 < m2 {
        lemma_count_le_monotone(s, m1 as int, m2 - 1);
    } else if m2 < m1 {
        lemma_count_le_monotone(s, m2 as int, m1 - 1);
    }
    lemma_count_le_step(s, m1 as int);
    lemma_count_eq_positive(s, m1 as int);
}

/// The value at position `len / 2` of the values once sorted.
pub fn median_value(values: &[u8]) -> (m: u8)
    requires
        values@.len() > 0,
    ensures
        is_median(values@, m),
{
    let n = values.len();
    let k = n / 2;
    let mut hist: Vec<usize> = Vec::new();
    let mut c: usize = 0;
    while c < 256
        invariant
            c <= 256,
            hist@.len() == c,
            forall|v: int| 0 <= v < c ==> #[trigger] hist@[v] == 0,
        decreases 256 - c,
    {
        hist.push(0);
        c = c + 1;
    }
    let mut i: usize = 0;
    while i < n
        invariant
            n == values@.len(),
            i <= n,
            hist@.len() == 256,
            forall|v: int| 0 <= v < 256 ==> #[trigger] hist@[v] == count_eq(values@.take(i as int), v),
        decreases n - i,
    {
        proof {
            assert(values@.take(i + 1).drop_last() =~= values@.take(i as int));
            lemma_count_eq_bound(values@.take(i as int), values@[i as int] as int);
        }
        let v = values[i] as usize;
        let cur = hist[v];
        hist.set(v, cur + 1);
        i = i + 1;
    }
    proof {
        assert(values@.take(n as int) =~= values@);
        lemma_count_le_bounds(values@, -1);
        lemma_count_le_bounds(values@, 255);
    }
    let mut acc: usize = 0;
    let mut m: usize = 0;
    while m < 256
        invariant
            n == values@.len(),
            k == n / 2,
            n > 0,
            m <= 256,
            hist@.len() == 256,
            forall|v: int| 0 <= v < 256 ==> #[trigger] hist@[v] == count_eq(values@, v),
            acc == count_le(values@, m - 1),
            acc <= k,
        decreases 256 - m,
    {
        proof {
            lemma_count_le_step(values@, m as int);
            lemma_count_le_bounds(values@, m as int);
        }
        acc = acc + hist[m];
        if acc > k {
            return m as u8;
        }
        m = m + 1;
    }
    proof {
        lemma_count_le_bounds(values@, 255);
    }
    0
}

/// The column or row range `[lo, end)` of a window of `radius` around
/// `c` clipped to `[0, limit)`.
pub open spec fn window_lo(c: int, radius: int) -> int {
    if c - radius < 0 {
        0
    } else {
        c - radius
    }
}

pub open spec fn window_end(c: int, radius: int, limit: int) -> int {
    if c + radius + 1 > limit {
        limit
    } else {
        c + radius + 1
    }
}

/// The pixels of rows `y0..y_end` and columns `x0..x_end` in row-major
/// order; with `foreground` only those opaque enough (alpha at least 220)
/// and not light fringe.
pub open spec fn window_pixels(
    image: SceneAssetRaster,
    x0: int,
    x_end: int,
    y0: int,
    y_end: int,
    foreground: bool,
) -> Seq<Seq<u8>>
    decreases y_end - y0, x_end - x0,
{
    if y_end <= y0 || x_end <= x0 {
        seq![]
    } else {
        window_pixels(image, x0, x_end, y0, y_end - 1, foreground) + row_pixels(image, x0, x_end, y_end - 1, foreground)
    }
}

pub open spec fn row_pixels(image: SceneAssetRaster, x0: int, x_end: int, y: int, foreground: bool) -> Seq<Seq<u8>>
    decreases x_end - x0,
{
    if x_end <= x0 {
        seq![]
    } else {
        let p = image.pix_at(x_end - 1, y);
        let rest = row_pixels(image, x0, x_end - 1, y, foreground);
        if !foreground || (p[3] >= 220 && !light_fringe(p)) {
            rest.push(p)
        } else {
            rest
        }
    }
}

/// Channel `c` of each pixel.
pub open spec fn channel_values(ps: Seq<Seq<u8>>, c: int) -> Seq<u8> {
    ps.map_values(|p: Seq<u8>| p[c])
}

/// The median of channel `c` over a list of pixels.
fn median_channel(pixels: &Vec<[u8; 4]>, c: usize) -> (m: u8)
    requires
        pixels@.len() > 0,
        c < 4,
    ensures
        is_median(channel_values(pixels@.map_values(|p: [u8; 4]| p@), c as int), m),
{
    let ghost ps = pixels@.map_values(|p: [u8; 4]| p@);
    let mut values: Vec<u8> = Vec::new();
    let mut i: usize = 0;
    while i < pixels.len()
        invariant
            c < 4,
            ps == pixels@.map_values(|p: [u8; 4]| p@),
            i <= pixels@.len(),
            values@ =~= channel_values(ps, c as int).take(i as int),
        decreases pixels.len() - i,
    {
        let p = pixels[i];
        values.push(p[c]);
        i = i + 1;
    }
    proof {
        assert(channel_values(ps, c as int).take(pixels@.len() as int) =~= channel_values(ps, c as int));
    }
    median_value(values.as_slice())
}

impl SceneAssetRaster {
    /// The pixels of a clipped window, gathered row by row.
    fn gather_window(&self, x0: u32, x_end: u32, y0: u32, y_end: u32, foreground: bool) -> (v: Vec<[u8; 4]>)
        requires
            self.wf(),
            x0 <= x_end <= self.width,
            y0 <= y_end <= self.height,
        ensures
            v@.map_values(|p: [u8; 4]| p@) == window_pixels(*self, x0 as int, x_end as int, y0 as int, y_end as int, foreground),
    {
        let mut v: Vec<[u8; 4]> = Vec::new();
        let mut y: u32 = y0;
        while y < y_end
            invariant
                self.wf(),
                x0 <= x_end <= self.width,
                y0 <= y <= y_end,
                y_end <= self.height,
                v@.map_values(|p: [u8; 4]| p@) =~= window_pixels(*self, x0 as int, x_end as int, y0 as int, y as int, foreground),
            decreases y_end - y,
        {
            let ghost before = v@.map_values(|p: [u8; 4]| p@);
            let mut x: u32 = x0;
            while x < x_end
                invariant
                    self.wf(),
                    x0 <= x <= x_end,
                    x_end <= self.width,
                    y < self.height,
                    v@.map_values(|p: [u8; 4]| p@) =~= before + row_pixels(*self, x0 as int, x as int, y as int, foreground),
                decreases x_end - x,
            {
                let ghost vb = v@;
                let p = self.get_pixel(x, y);
                let keep = !foreground || (p[3] >= 220 && !is_light_fringe_pixel(p));
                if keep {
                    v.push(p);
                }
                proof {
                    let rp = row_pixels(*self, x0 as int, x as int, y as int, foreground);
                    assert(row_pixels(*self, x0 as int, x + 1, y as int, foreground) == (if keep {
                        rp.push(p@)
                    } else {
                        rp
                    }));
                    if keep {
                        assert(v@ == vb.push(p));
                        assert(v@.map_values(|q: [u8; 4]| q@) =~= vb.map_values(|q: [u8; 4]| q@).push(p@));
                    }
                }
                x = x + 1;
            }
            proof {
                if x0 < x_end {
                    assert(window_pixels(*self, x0 as int, x_end as int, y0 as int, y + 1, foreground) == window_pixels(
                        *self,
                        x0 as int,
                        x_end as int,
                        y0 as int,
                        y as int,
                        foreground,
                    ) + row_pixels(*self, x0 as int, x_end as int, y as int, foreground));
                } else {
                    assert(row_pixels(*self, x0 as int, x_end as int, y as int, foreground) =~= seq![]);
                }
            }
            y = y + 1;
        }
        v
    }

    /// The per-channel median (red, green, blue, alpha) of the window of
    /// `radius` around `(x, y)`, clipped to the image.
    pub fn median_sample_color(&self, x: u32, y: u32, radius: u32) -> (c: [u8; 4])
        requires
            self.wf(),
            x < self.width,
            y < self.height,
        ensures
            forall|k: int|
                0 <= k < 4 ==> is_median(
                    channel_values(
                        window_pixels(
                            *self,
                            window_lo(x as int, radius as int),
                            window_end(x as int, radius as int, self.width as int),
                            window_lo(y as int, radius as int),
                            window_end(y as int, radius as int, self.height as int),
                            false,
                        ),
                        k,
                    ),
                    #[trigger] c@[k],
                ),
    {
        let x0: u32 = if x >= radius { x - radius } else { 0 };
        let y0: u32 = if y >= radius { y - radius } else { 0 };
        let x_end: u32 = if (x as u64) + (radius as u64) + 1 > self.width as u64 { self.width } else { x + radius + 1 };
        let y_end: u32 = if (y as u64) + (radius as u64) + 1 > self.height as u64 { self.height } else { y + radius + 1 };
        let pixels = self.gather_window(x0, x_end, y0, y_end, false);
        proof {
            assert(row_pixels(*self, x0 as int, x + 1, y as int, false).len() > 0);
            lemma_window_nonempty(*self, x0 as int, x_end as int, y0 as int, y_end as int, x as int, y as int);
        }
        let r = median_channel(&pixels, 0);
        let g = median_channel(&pixels, 1);
        let b = median_channel(&pixels, 2);
        let a = median_channel(&pixels, 3);
        let out = [r, g, b, a];
        proof {
            assert forall|k: int| 0 <= k < 4 implies is_median(
                channel_values(window_pixels(*self, x0 as int, x_end as int, y0 as int, y_end as int, false), k),
                #[trigger] out@[k],
            ) by {
                if k == 0 {
                } else if k == 1 {
                } else if k == 2 {
                } else {
                }
            }
        }
        out
    }
}

/// A window holding `(x, y)` has at least one pixel.
proof fn lemma_window_nonempty(image: SceneAssetRaster, x0: int, x_end: int, y0: int, y_end: int, x: int, y: int)
    requires
        x0 <= x < x_end,
        y0 <= y < y_end,
    ensures
        window_pixels(image, x0, x_end, y0, y_end, false).len() > 0,
    decreases y_end - y0,
{
    lemma_row_len(image, x0, x_end, y_end - 1);
}

proof fn lemma_row_len(image: SceneAssetRaster, x0: int, x_end: int, y: int)
    requires
        x0 <= x_end,
    ensures
        row_pixels(image, x0, x_end, y, false).len() == x_end - x0,
    decreases x_end - x0,
{
    if x0 < x_end {
        lemma_row_len(image, x0, x_end - 1, y);
    }
}

impl SceneAssetRaster {
    /// The per-channel median (red, green, blue) of the opaque, non-fringe
    /// pixels within `radius` of `(x, y)`, or `None` when there are none.
    pub fn nearby_foreground_median(&self, x: u32, y: u32, radius: u32) -> (r: Option<[u8; 3]>)
        requires
            self.wf(),
            x < self.width,
            y < self.height,
            radius <= i32::MAX,
        ensures
            ({
                let ps = window_pixels(
                    *self,
                    window_lo(x as int, radius as int),
                    window_end(x as int, radius as int, self.width as int),
                    window_lo(y as int, radius as int),
                    window_end(y as int, radius as int, self.height as int),
                    true,
                );
                &&& (r is None <==> ps.len() == 0)
                &&& (r matches Some(c) ==> forall|k: int|
                    0 <= k < 3 ==> is_median(channel_values(ps, k), #[trigger] c@[k]))
            }),
    {
        let x0: u32 = if x >= radius { x - radius } else { 0 };
        let y0: u32 = if y >= radius { y - radius } else { 0 };
        let x_end: u32 = if (x as u64) + (radius as u64) + 1 > self.width as u64 { self.width } else { x + radius + 1 };
        let y_end: u32 = if (y as u64) + (radius as u64) + 1 > self.height as u64 { self.height } else { y + radius + 1 };
        let pixels = self.gather_window(x0, x_end, y0, y_end, true);
        if pixels.len() == 0 {
            return None;
        }
        let r = median_channel(&pixels, 0);
        let g = median_channel(&pixels, 1);
        let b = median_channel(&pixels, 2);
        let out = [r, g, b];
        proof {
            let ps = window_pixels(*self, x0 as int, x_end as int, y0 as int, y_end as int, true);
            assert forall|k: int| 0 <= k < 3 implies is_median(channel_values(ps, k), #[trigger] out@[k]) by {
                if k == 0 {
                } else if k == 1 {
                } else {
                }
            }
        }
        Some(out)
    }
}

/// The pixels among the first `k` that the mask selects, in order.
pub open spec fn masked_pixels(image: SceneAssetRaster, mask: Seq<bool>, k: int) -> Seq<Seq<u8>>
    decreases k,
{
    if k <= 0 {
        seq![]
    } else {
        let rest = masked_pixels(image, mask, k - 1);
        if mask[k - 1] {
            rest.push(image.pix(k - 1))
        } else {
            rest
        }
    }
}

/// The sum of channel `c` over a list of pixels.
pub open spec fn channel_sum(ps: Seq<Seq<u8>>, c: int) -> nat
    decreases ps.len(),
{
    if ps.len() == 0 {
        0
    } else {
        channel_sum(ps.drop_last(), c) + ps.last()[c] as nat
    }
}

/// How many pixels of a list are not fully transparent.
pub open spec fn opaque_count(ps: Seq<Seq<u8>>) -> nat
    decreases ps.len(),
{
    if ps.len() == 0 {
        0
    } else {
        opaque_count(ps.drop_last()) + if ps.last()[3] > 0 { 1nat } else { 0nat }
    }
}

/// What sampling a masked region counts: the pixels, the sum and median of
/// each channel (red, green, blue, alpha), and the pixels that are not
/// fully transparent.
#[derive(Debug, Clone, Copy)]
pub struct SceneAssetRegionTally {
    pub pixel_count: usize,
    pub sum_rgba: [u64; 4],
    pub median_rgba: [u8; 4],
    pub opaque_pixels: usize,
}

impl SceneAssetRaster {
    /// Samples the pixels the mask selects: their count, per-channel sums
    /// and medians, and how many are not fully transparent. A mask that
    /// selects nothing is an error.
    pub fn sample_masked_region(&self, mask: &[bool]) -> (r: Result<SceneAssetRegionTally, SceneAssetEditError>)
        requires
            self.wf(),
            mask@.len() == self.count(),
            self.count() * 255 <= u64::MAX,
        ensures
            ({
                let ps = masked_pixels(*self, mask@, self.count());
                &&& ps.len() == 0 ==> (r matches Err(SceneAssetEditError::InvalidOperation(m))
                    && m@ == "sample region selected zero pixels"@)
                &&& ps.len() > 0 ==> (r matches Ok(t) && {
                    &&& t.pixel_count == ps.len()
                    &&& t.opaque_pixels == opaque_count(ps)
                    &&& forall|k: int| 0 <= k < 4 ==> #[trigger] t.sum_rgba@[k] == channel_sum(ps, k)
                    &&& forall|k: int| 0 <= k < 4 ==> is_median(channel_values(ps, k), #[trigger] t.median_rgba@[k])
                })
            }),
    {
        let n = self.pixel_len();
        let mut pixels: Vec<[u8; 4]> = Vec::new();
        let mut s0: u64 = 0;
        let mut s1: u64 = 0;
        let mut s2: u64 = 0;
        let mut s3: u64 = 0;
        let mut opaque: usize = 0;
        let mut i: usize = 0;
        while i < n
            invariant
                self.wf(),
                n == self.count(),
                n * 255 <= u64::MAX,
                mask@.len() == n,
                i <= n,
                pixels@.map_values(|p: [u8; 4]| p@) =~= masked_pixels(*self, mask@, i as int),
                pixels@.len() <= i,
                s0 == channel_sum(masked_pixels(*self, mask@, i as int), 0),
                s1 == channel_sum(masked_pixels(*self, mask@, i as int), 1),
                s2 == channel_sum(masked_pixels(*self, mask@, i as int), 2),
                s3 == channel_sum(masked_pixels(*self, mask@, i as int), 3),
                s0 <= 255 * pixels@.len(),
                s1 <= 255 * pixels@.len(),
                s2 <= 255 * pixels@.len(),
                s3 <= 255 * pixels@.len(),
                opaque == opaque_count(masked_pixels(*self, mask@, i as int)),
                opaque <= pixels@.len(),
            decreases n - i,
        {
            if mask[i] {
                let p = self.pixel(i);
                let ghost before = pixels@;
                proof {
                    assert(255 * (pixels@.len() + 1) <= 255 * n) by (nonlinear_arith)
                        requires
                            pixels@.len() + 1 <= n,
                    ;
                }
                s0 = s0 + p[0] as u64;
                s1 = s1 + p[1] as u64;
                s2 = s2 + p[2] as u64;
                s3 = s3 + p[3] as u64;
                if p[3] > 0 {
                    opaque = opaque + 1;
                }
                pixels.push(p);
                proof {
                    assert(pixels@.map_values(|q: [u8; 4]| q@) =~= before.map_values(|q: [u8; 4]| q@).push(p@));
                    let ps = masked_pixels(*self, mask@, i + 1);
                    assert(ps.drop_last() == masked_pixels(*self, mask@, i as int));
                }
            }
            i = i + 1;
        }
        if pixels.len() == 0 {
            return Err(SceneAssetEditError::InvalidOperation(String::from_str("sample region selected zero pixels")));
        }
        let m0 = median_channel(&pixels, 0);
        let m1 = median_channel(&pixels, 1);
        let m2 = median_channel(&pixels, 2);
        let m3 = median_channel(&pixels, 3);
        let t = SceneAssetRegionTally {
            pixel_count: pixels.len(),
            sum_rgba: [s0, s1, s2, s3],
            median_rgba: [m0, m1, m2, m3],
            opaque_pixels: opaque,
        };
        proof {
            let ps = masked_pixels(*self, mask@, n as int);
            assert(ps.len() == pixels@.len());
            assert forall|k: int| 0 <= k < 4 implies #[trigger] t.sum_rgba@[k] == channel_sum(ps, k) by {
                if k == 0 {
                } else if k == 1 {
                } else if k == 2 {
                } else {
                }
            }
            assert forall|k: int| 0 <= k < 4 implies is_median(channel_values(ps, k), #[trigger] t.median_rgba@[k]) by {
                if k == 0 {
                } else if k == 1 {
                } else if k == 2 {
                } else {
                }
            }
        }
        Ok(t)
    }
}

} // verus!
