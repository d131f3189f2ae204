//! RGBA rasters held as plain bytes, four per pixel in row-major order, and
//! the integer pixel logic of the asset editor over them: colour matching,
//! selection masks, flood fills, bounds, comparisons and previews.

use vstd::prelude::*;
use crate::mask::{
    lemma_xy_of_index, SceneAssetMask, SceneAssetPixelRect, index_of, in_bounds, px, adjacent, seed_ok, grown_step, grown_from,
    flood_region, neighbor_seq, count_false, lemma_index_in_range, lemma_index_unique, lemma_neighbor_seq,
    lemma_count_false_set, mask_neighbors, all_false,
};
use crate::asset::{
    SceneAssetBackgroundSample, SceneAssetEditError, SceneAssetRestoreFilter, SceneAssetCutoutQualityReport,
    SceneAssetProtectedRegionChange, SceneAssetProtectedRegionReport,
};
use crate::mask::{near, selection_bounds, mask_selection_bounds, selected_pixel_count, count_true};
use crate::text::{dec, u32_text};

verus! {

/// An RGBA image: `data` holds four bytes (red, green, blue, alpha) per
/// pixel, row by row, the layout of the image crate's `RgbaImage`.
#[derive(Debug, Clone)]
pub struct SceneAssetRaster {
    pub width: u32,
    pub height: u32,
    pub data: Vec<u8>,
}

/// Channel `c` of the pixel at flat index `i`.
pub open spec fn chan(data: Seq<u8>, i: int, c: int) -> u8 {
    data[4 * i + c]
}

/// The four channels of the pixel at flat index `i`.
pub open spec fn pixel_seq(data: Seq<u8>, i: int) -> Seq<u8> {
    seq![chan(data, i, 0), chan(data, i, 1), chan(data, i, 2), chan(data, i, 3)]
}

/// The two pixels hold the same four channels.
pub open spec fn same_pixel(a: Seq<u8>, i: int, b: Seq<u8>, j: int) -> bool {
    &&& chan(a, i, 0) == chan(b, j, 0)
    &&& chan(a, i, 1) == chan(b, j, 1)
    &&& chan(a, i, 2) == chan(b, j, 2)
    &&& chan(a, i, 3) == chan(b, j, 3)
}

pub open spec fn abs_diff(a: u8, b: u8) -> int {
    if a >= b {
        a - b
    } else {
        b - a
    }
}

/// Red, green and blue each lie within `tolerance` of the sample's; alpha
/// is not compared.
pub open spec fn color_close(p: Seq<u8>, s: Seq<u8>, tolerance: u8) -> bool {
    &&& abs_diff(p[0], s[0]) <= tolerance
    &&& abs_diff(p[1], s[1]) <= tolerance
    &&& abs_diff(p[2], s[2]) <= tolerance
}

/// The colour is close to one of the samples.
pub open spec fn close_to_any(p: Seq<u8>, samples: Seq<Seq<u8>>, tolerance: u8) -> bool {
    exists|k: int| 0 <= k < samples.len() && color_close(p, #[trigger] samples[k], tolerance)
}

/// The channels of each colour.
pub open spec fn views4(colors: Seq<[u8; 4]>) -> Seq<Seq<u8>> {
    colors.map_values(|c: [u8; 4]| c@)
}

impl SceneAssetRaster {
    /// The byte buffer holds exactly four bytes per pixel.
    pub open spec fn wf(&self) -> bool {
        self.data@.len() == 4 * (self.width * self.height)
    }

    /// How many pixels the raster has.
    pub open spec fn count(&self) -> int {
        self.width * self.height
    }

    /// The pixel at flat index `i`.
    pub open spec fn pix(&self, i: int) -> Seq<u8> {
        pixel_seq(self.data@, i)
    }

    /// A raster of `width` x `height` pixels all of colour `color`.
    pub fn filled(width: u32, height: u32, color: [u8; 4]) -> (r: Self)
        requires
            4 * (width * height) <= usize::MAX,
        ensures
            r.width == width,
            r.height == height,
            r.wf(),
            forall|i: int| 0 <= i < width * height ==> #[trigger] r.pix(i) == color@,
    {
        let n: usize = (width as usize) * (height as usize);
        let mut data: Vec<u8> = Vec::new();
        let mut i: usize = 0;
        while i < n
            invariant
                n == width * height,
                4 * n <= usize::MAX,
                i <= n,
                data@.len() == 4 * i,
                forall|j: int| 0 <= j < i ==> #[trigger] pixel_seq(data@, j) == color@,
            decreases n - i,
        {
            let ghost before = data@;
            data.push(color[0]);
            data.push(color[1]);
            data.push(color[2]);
            data.push(color[3]);
            proof {
                assert forall|j: int| 0 <= j < i + 1 implies #[trigger] pixel_seq(data@, j) == color@ by {
                    if j < i {
                        assert(pixel_seq(before, j) == color@);
                        assert(pixel_seq(data@, j) =~= pixel_seq(before, j));
                    } else {
                        assert(pixel_seq(data@, j) =~= color@);
                    }
                }
            }
            i = i + 1;
        }
        SceneAssetRaster { width, height, data }
    }

    /// How many pixels the raster has.
    pub fn pixel_len(&self) -> (n: usize)
        requires
            self.wf(),
        ensures
            n == self.count(),
    {
        self.data.len() / 4
    }

    /// The pixel at flat index `i`.
    pub fn pixel(&self, i: usize) -> (p: [u8; 4])
        requires
            self.wf(),
            i < self.count(),
        ensures
            p@ == self.pix(i as int),
    {
        let len = self.data.len();
        assert(4 * i + 3 < len);
        let b = 4 * i;
        let p = [self.data[b], self.data[b + 1], self.data[b + 2], self.data[b + 3]];
        proof {
            assert(p@ =~= self.pix(i as int));
        }
        p
    }

    /// Overwrites the pixel at flat index `i`.
    pub fn set_pixel(&mut self, i: usize, p: [u8; 4])
        requires
            old(self).wf(),
            i < old(self).count(),
        ensures
            final(self).wf(),
            final(self).width == old(self).width,
            final(self).height == old(self).height,
            final(self).pix(i as int) == p@,
            forall|j: int| 0 <= j < old(self).count() && j != i ==> #[trigger] final(self).pix(j) == old(self).pix(j),
    {
        let len = self.data.len();
        assert(4 * i + 3 < len);
        let b = 4 * i;
        self.data.set(b, p[0]);
        self.data.set(b + 1, p[1]);
        self.data.set(b + 2, p[2]);
        self.data.set(b + 3, p[3]);
        proof {
            assert(self.pix(i as int) =~= p@);
            assert forall|j: int| 0 <= j < old(self).count() && j != i implies #[trigger] self.pix(j) == old(self).pix(j) by {
                assert(self.pix(j) =~= old(self).pix(j));
            }
        }
    }
}

/// Red, green and blue each lie within `tolerance` of the sample's.
pub fn pixel_matches(pixel: [u8; 4], sample: [u8; 4], tolerance: u8) -> (b: bool)
    ensures
        b == color_close(pixel@, sample@, tolerance),
{
    let t = tolerance as i16;
    let d0 = pixel[0] as i16 - sample[0] as i16;
    let d1 = pixel[1] as i16 - sample[1] as i16;
    let d2 = pixel[2] as i16 - sample[2] as i16;
    let a0 = if d0 < 0 { -d0 } else { d0 };
    let a1 = if d1 < 0 { -d1 } else { d1 };
    let a2 = if d2 < 0 { -d2 } else { d2 };
    a0 <= t && a1 <= t && a2 <= t
}

/// The colour is close to one of the samples.
pub fn pixel_matches_any(pixel: [u8; 4], sample_colors: &[[u8; 4]], tolerance: u8) -> (b: bool)
    ensures
        b == close_to_any(pixel@, views4(sample_colors@), tolerance),
{
    let mut k: usize = 0;
    while k < sample_colors.len()
        invariant
            k <= sample_colors@.len(),
            forall|j: int| 0 <= j < k ==> !color_close(pixel@, #[trigger] views4(sample_colors@)[j], tolerance),
        decreases sample_colors.len() - k,
    {
        if pixel_matches(pixel, sample_colors[k], tolerance) {
            proof {
                assert(views4(sample_colors@)[k as int] == sample_colors@[k as int]@);
            }
            return true;
        }
        k = k + 1;
    }
    false
}

pub open spec fn min3(a: u8, b: u8, c: u8) -> u8 {
    if a <= b && a <= c {
        a
    } else if b <= c {
        b
    } else {
        c
    }
}

pub open spec fn max3(a: u8, b: u8, c: u8) -> u8 {
    if a >= b && a >= c {
        a
    } else if b >= c {
        b
    } else {
        c
    }
}

/// The mean of red, green and blue, rounded down.
pub open spec fn rgb_average(p: Seq<u8>) -> int {
    (p[0] + p[1] + p[2]) / 3
}

/// Light and nearly grey: a channel matte keeps it.
pub open spec fn matte_selected(p: Seq<u8>, threshold: u8, neutrality: u8) -> bool {
    &&& rgb_average(p) >= threshold
    &&& max3(p[0], p[1], p[2]) - min3(p[0], p[1], p[2]) <= neutrality
}

/// Near-white and nearly grey: a light fringe left by a pale background.
pub open spec fn light_fringe(p: Seq<u8>) -> bool {
    &&& min3(p[0], p[1], p[2]) >= 200
    &&& rgb_average(p) >= 220
    &&& max3(p[0], p[1], p[2]) - min3(p[0], p[1], p[2]) <= 60
}

fn min3_u8(a: u8, b: u8, c: u8) -> (m: u8)
    ensures
        m == min3(a, b, c),
{
    if a <= b && a <= c {
        a
    } else if b <= c {
        b
    } else {
        c
    }
}

fn max3_u8(a: u8, b: u8, c: u8) -> (m: u8)
    ensures
        m == max3(a, b, c),
{
    if a >= b && a >= c {
        a
    } else if b >= c {
        b
    } else {
        c
    }
}

fn average3(p: [u8; 4]) -> (a: u16)
    ensures
        a == rgb_average(p@),
{
    (p[0] as u16 + p[1] as u16 + p[2] as u16) / 3
}

/// Whether the channel matte keeps the colour.
pub fn matte_pixel(pixel: [u8; 4], threshold: u8, neutrality: u8) -> (b: bool)
    ensures
        b == matte_selected(pixel@, threshold, neutrality),
{
    let mn = min3_u8(pixel[0], pixel[1], pixel[2]);
    let mx = max3_u8(pixel[0], pixel[1], pixel[2]);
    average3(pixel) >= threshold as u16 && mx - mn <= neutrality
}

/// Whether the colour is a light fringe.
pub fn is_light_fringe_pixel(pixel: [u8; 4]) -> (b: bool)
    ensures
        b == light_fringe(pixel@),
{
    let mn = min3_u8(pixel[0], pixel[1], pixel[2]);
    let mx = max3_u8(pixel[0], pixel[1], pixel[2]);
    mn >= 200 && average3(pixel) >= 220 && mx - mn <= 60
}

impl SceneAssetRaster {
    /// One flag per pixel: whether its colour is close to `sample_color`.
    pub fn global_magic_mask(&self, sample_color: [u8; 4], tolerance: u8) -> (m: Vec<bool>)
        requires
            self.wf(),
        ensures
            m@.len() == self.count(),
            forall|i: int| 0 <= i < self.count() ==> #[trigger] m@[i] == color_close(self.pix(i), sample_color@, tolerance),
    {
        let n = self.pixel_len();
        let mut m: Vec<bool> = Vec::new();
        let mut i: usize = 0;
        while i < n
            invariant
                self.wf(),
                n == self.count(),
                i <= n,
                m@.len() == i,
                forall|j: int| 0 <= j < i ==> #[trigger] m@[j] == color_close(self.pix(j), sample_color@, tolerance),
            decreases n - i,
        {
            let p = self.pixel(i);
            m.push(pixel_matches(p, sample_color, tolerance));
            i = i + 1;
        }
        m
    }

    /// One flag per pixel: whether its colour is close to one of the samples.
    pub fn matching_mask(&self, sample_colors: &[[u8; 4]], tolerance: u8) -> (m: Vec<bool>)
        requires
            self.wf(),
        ensures
            m@.len() == self.count(),
            forall|i: int| 0 <= i < self.count() ==> #[trigger] m@[i] == close_to_any(self.pix(i), views4(sample_colors@), tolerance),
    {
        let n = self.pixel_len();
        let mut m: Vec<bool> = Vec::new();
        let mut i: usize = 0;
        while i < n
            invariant
                self.wf(),
                n == self.count(),
                i <= n,
                m@.len() == i,
                forall|j: int| 0 <= j < i ==> #[trigger] m@[j] == close_to_any(self.pix(j), views4(sample_colors@), tolerance),
            decreases n - i,
        {
            let p = self.pixel(i);
            m.push(pixel_matches_any(p, sample_colors, tolerance));
            i = i + 1;
        }
        m
    }

    /// One flag per pixel: whether a channel matte keeps it.
    pub fn channel_matte_mask(&self, threshold: u8, neutrality: u8) -> (m: Vec<bool>)
        requires
            self.wf(),
        ensures
            m@.len() == self.count(),
            forall|i: int| 0 <= i < self.count() ==> #[trigger] m@[i] == matte_selected(self.pix(i), threshold, neutrality),
    {
        let n = self.pixel_len();
        let mut m: Vec<bool> = Vec::new();
        let mut i: usize = 0;
        while i < n
            invariant
                self.wf(),
                n == self.count(),
                i <= n,
                m@.len() == i,
                forall|j: int| 0 <= j < i ==> #[trigger] m@[j] == matte_selected(self.pix(j), threshold, neutrality),
            decreases n - i,
        {
            let p = self.pixel(i);
            m.push(matte_pixel(p, threshold, neutrality));
            i = i + 1;
        }
        m
    }
}

// ---------------------------------------------------------------- edges and samples

/// The top and bottom rows, column by column up to `columns`: `(x, 0)`,
/// then `(x, max_y)` when the image has more than one row.
pub open spec fn top_bottom_points(columns: int, max_y: u32) -> Seq<(u32, u32)>
    decreases columns,
{
    if columns <= 0 {
        seq![]
    } else {
        top_bottom_points(columns - 1, max_y) + if max_y > 0 {
            seq![((columns - 1) as u32, 0u32), ((columns - 1) as u32, max_y)]
        } else {
            seq![((columns - 1) as u32, 0u32)]
        }
    }
}

/// The left and right columns, row by row from row 1 up to `rows_end`:
/// `(0, y)`, then `(max_x, y)` when the image has more than one column.
pub open spec fn side_points(rows_end: int, max_x: u32) -> Seq<(u32, u32)>
    decreases rows_end,
{
    if rows_end <= 1 {
        seq![]
    } else {
        side_points(rows_end - 1, max_x) + if max_x > 0 {
            seq![(0u32, (rows_end - 1) as u32), (max_x, (rows_end - 1) as u32)]
        } else {
            seq![(0u32, (rows_end - 1) as u32)]
        }
    }
}

/// The border pixels in the order the background sampler visits them.
pub open spec fn edge_point_seq(width: u32, height: u32) -> Seq<(u32, u32)> {
    if width == 0 || height == 0 {
        seq![]
    } else {
        top_bottom_points(width as int, (height - 1) as u32) + side_points((height - 1) as int, (width - 1) as u32)
    }
}

proof fn lemma_top_bottom_in_bounds(columns: int, width: u32, height: u32)
    requires
        height > 0,
        columns <= width,
    ensures
        forall|k: int| 0 <= k < top_bottom_points(columns, (height - 1) as u32).len() ==> in_bounds(
            width,
            height,
            (#[trigger] top_bottom_points(columns, (height - 1) as u32)[k]).0 as int,
            top_bottom_points(columns, (height - 1) as u32)[k].1 as int,
        ),
    decreases columns,
{
    if columns > 0 {
        lemma_top_bottom_in_bounds(columns - 1, width, height);
        let a = top_bottom_points(columns - 1, (height - 1) as u32);
        let s = top_bottom_points(columns, (height - 1) as u32);
        assert forall|k: int| 0 <= k < s.len() implies in_bounds(width, height, (#[trigger] s[k]).0 as int, s[k].1 as int) by {
            if k < a.len() {
                assert(s[k] == a[k]);
            }
        }
    }
}

proof fn lemma_side_in_bounds(rows_end: int, width: u32, height: u32)
    requires
        width > 0,
        rows_end <= height,
    ensures
        forall|k: int| 0 <= k < side_points(rows_end, (width - 1) as u32).len() ==> in_bounds(
            width,
            height,
            (#[trigger] side_points(rows_end, (width - 1) as u32)[k]).0 as int,
            side_points(rows_end, (width - 1) as u32)[k].1 as int,
        ),
    decreases rows_end,
{
    if rows_end > 1 {
        lemma_side_in_bounds(rows_end - 1, width, height);
        let a = side_points(rows_end - 1, (width - 1) as u32);
        let s = side_points(rows_end, (width - 1) as u32);
        assert forall|k: int| 0 <= k < s.len() implies in_bounds(width, height, (#[trigger] s[k]).0 as int, s[k].1 as int) by {
            if k < a.len() {
                assert(s[k] == a[k]);
            }
        }
    }
}

/// Every border point lies inside the image.
pub proof fn lemma_edge_points_in_bounds(width: u32, height: u32)
    ensures
        forall|k: int| 0 <= k < edge_point_seq(width, height).len() ==> in_bounds(
            width,
            height,
            (#[trigger] edge_point_seq(width, height)[k]).0 as int,
            edge_point_seq(width, height)[k].1 as int,
        ),
{
    if width > 0 && height > 0 {
        lemma_top_bottom_in_bounds(width as int, width, height);
        lemma_side_in_bounds((height - 1) as int, width, height);
        let a = top_bottom_points(width as int, (height - 1) as u32);
        let b = side_points((height - 1) as int, (width - 1) as u32);
        assert forall|k: int| 0 <= k < edge_point_seq(width, height).len() implies in_bounds(
            width,
            height,
            (#[trigger] edge_point_seq(width, height)[k]).0 as int,
            edge_point_seq(width, height)[k].1 as int,
        ) by {
            if k < a.len() {
                assert(edge_point_seq(width, height)[k] == a[k]);
            } else {
                assert(edge_point_seq(width, height)[k] == b[k - a.len()]);
            }
        }
    }
}

/// The border pixels of a `width` x `height` image: the top and bottom rows
/// column by column, then the left and right columns row by row.
pub fn edge_points(width: u32, height: u32) -> (points: Vec<(u32, u32)>)
    ensures
        points@ == edge_point_seq(width, height),
{
    let mut points: Vec<(u32, u32)> = Vec::new();
    if width == 0 || height == 0 {
        return points;
    }
    let max_x = width - 1;
    let max_y = height - 1;
    let mut x: u32 = 0;
    while x < width
        invariant
            x <= width,
            max_y == height - 1,
            points@ == top_bottom_points(x as int, max_y),
        decreases width - x,
    {
        points.push((x, 0));
        if max_y > 0 {
            points.push((x, max_y));
        }
        proof {
            assert(points@ =~= top_bottom_points(x + 1, max_y));
        }
        x = x + 1;
    }
    let ghost top = points@;
    let mut y: u32 = 1;
    while y < max_y
        invariant
            1 <= y,
            y <= max_y || max_y == 0,
            max_y == 0 ==> y == 1,
            max_x == width - 1,
            max_y == height - 1,
            top == top_bottom_points(width as int, max_y),
            points@ == top + side_points(y as int, max_x),
        decreases max_y - y,
    {
        points.push((0, y));
        if max_x > 0 {
            points.push((max_x, y));
        }
        proof {
            assert(points@ =~= top + side_points(y + 1, max_x));
        }
        y = y + 1;
    }
    proof {
        if max_y == 0 {
            assert(side_points(y as int, max_x) =~= side_points(max_y as int, max_x));
        }
    }
    points
}

impl SceneAssetRaster {
    /// The pixel at `(x, y)`.
    pub open spec fn pix_at(&self, x: int, y: int) -> Seq<u8> {
        self.pix(index_of(self.width, x, y))
    }

    /// The colours the background is sampled from: the four corners, or
    /// every border pixel in `edge_point_seq` order; none for an empty
    /// image.
    pub open spec fn background_samples(&self, sample: SceneAssetBackgroundSample) -> Seq<Seq<u8>> {
        if self.width == 0 || self.height == 0 {
            seq![]
        } else {
            let mx = self.width - 1;
            let my = self.height - 1;
            match sample {
                SceneAssetBackgroundSample::Corners => seq![
                    self.pix_at(0, 0),
                    self.pix_at(mx, 0),
                    self.pix_at(0, my),
                    self.pix_at(mx, my),
                ],
                SceneAssetBackgroundSample::Edges => edge_point_seq(self.width, self.height).map_values(
                    |p: (u32, u32)| self.pix_at(p.0 as int, p.1 as int),
                ),
            }
        }
    }

    /// The flat index of pixel `(x, y)`.
    pub fn flat_index(&self, x: u32, y: u32) -> (i: usize)
        requires
            self.wf(),
            x < self.width,
            y < self.height,
        ensures
            i == index_of(self.width, x as int, y as int),
            i < self.count(),
    {
        proof {
            lemma_index_in_range(self.width, self.height, x as int, y as int);
        }
        let len = self.data.len();
        assert(y * self.width <= y * self.width + x);
        (y as usize) * (self.width as usize) + (x as usize)
    }

    /// The pixel at `(x, y)`.
    pub fn get_pixel(&self, x: u32, y: u32) -> (p: [u8; 4])
        requires
            self.wf(),
            x < self.width,
            y < self.height,
        ensures
            p@ == self.pix_at(x as int, y as int),
    {
        proof {
            lemma_index_in_range(self.width, self.height, x as int, y as int);
        }
        let i = self.flat_index(x, y);
        self.pixel(i)
    }

    /// The colours the background is sampled from.
    pub fn background_sample_colors(&self, sample: SceneAssetBackgroundSample) -> (colors: Vec<[u8; 4]>)
        requires
            self.wf(),
        ensures
            views4(colors@) == self.background_samples(sample),
    {
        if self.width == 0 || self.height == 0 {
            let v: Vec<[u8; 4]> = Vec::new();
            proof {
                assert(views4(v@) =~= self.background_samples(sample));
            }
            return v;
        }
        let max_x = self.width - 1;
        let max_y = self.height - 1;
        match sample {
            SceneAssetBackgroundSample::Corners => {
                let mut v: Vec<[u8; 4]> = Vec::new();
                v.push(self.get_pixel(0, 0));
                v.push(self.get_pixel(max_x, 0));
                v.push(self.get_pixel(0, max_y));
                v.push(self.get_pixel(max_x, max_y));
                proof {
                    assert(views4(v@) =~= self.background_samples(sample));
                }
                v
            },
            SceneAssetBackgroundSample::Edges => {
                let points = edge_points(self.width, self.height);
                proof {
                    lemma_edge_points_in_bounds(self.width, self.height);
                }
                let ghost want = self.background_samples(sample);
                let mut v: Vec<[u8; 4]> = Vec::new();
                let mut k: usize = 0;
                while k < points.len()
                    invariant
                        self.wf(),
                        self.width > 0,
                        self.height > 0,
                        points@ == edge_point_seq(self.width, self.height),
                        want == edge_point_seq(self.width, self.height).map_values(
                            |p: (u32, u32)| self.pix_at(p.0 as int, p.1 as int),
                        ),
                        forall|j: int| 0 <= j < points@.len() ==> in_bounds(
                            self.width,
                            self.height,
                            (#[trigger] points@[j]).0 as int,
                            points@[j].1 as int,
                        ),
                        k <= points@.len(),
                        views4(v@) =~= want.take(k as int),
                    decreases points.len() - k,
                {
                    let (px_, py_) = points[k];
                    proof {
                        assert(in_bounds(self.width, self.height, points@[k as int].0 as int, points@[k as int].1 as int));
                    }
                    let ghost before = v@;
                    proof {
                        assert(views4(before).len() == before.len());
                        assert(before.len() == k);
                    }
                    v.push(self.get_pixel(px_, py_));
                    proof {
                        assert(v@.len() == k + 1);
                        assert(views4(v@).len() == k + 1);
                        assert(want[k as int] == self.pix_at(points@[k as int].0 as int, points@[k as int].1 as int));
                        assert(views4(v@)[k as int] == v@[k as int]@);
                        assert forall|j: int| 0 <= j < k implies views4(v@)[j] == views4(before)[j] by {}
                        assert(views4(v@) =~= want.take(k + 1));
                    }
                    k = k + 1;
                }
                proof {
                    assert(want.take(points@.len() as int) =~= want);
                }
                v
            },
        }
    }
}

// ---------------------------------------------------------------- flood fill

impl SceneAssetRaster {
    /// One flag per pixel: its colour is close to one of the samples.
    pub open spec fn match_flags(&self, samples: Seq<Seq<u8>>, tolerance: u8) -> Seq<bool> {
        Seq::new(self.count() as nat, |i: int| close_to_any(self.pix(i), samples, tolerance))
    }

    /// The pixels reached from the seeds (those inside the image whose
    /// colour is close to a sample) through 4-neighbours whose colour is
    /// close to a sample; nothing when there is no sample.
    pub fn contiguous_magic_mask_with_samples(
        &self,
        seeds: &[(u32, u32)],
        sample_colors: &[[u8; 4]],
        tolerance: u8,
    ) -> (m: Vec<bool>)
        requires
            self.wf(),
        ensures
            m@.len() == self.count(),
            sample_colors@.len() == 0 ==> forall|i: int| 0 <= i < self.count() ==> !#[trigger] m@[i],
            sample_colors@.len() > 0 ==> flood_region(
                self.width,
                self.height,
                seeds@,
                self.match_flags(views4(sample_colors@), tolerance),
                m@,
            ),
    {
        let w = self.width;
        let h = self.height;
        let n = self.pixel_len();
        let mut selected = all_false(n);
        if sample_colors.len() == 0 {
            return selected;
        }
        let ghost allowed = self.match_flags(views4(sample_colors@), tolerance);
        let mut queue: Vec<(u32, u32)> = Vec::new();
        let ghost mut parent: Seq<int> = Seq::empty();
        let ghost c0 = count_false(selected@);
        proof {
            assert forall|x: int, y: int|
                in_bounds(w, h, x, y) && #[trigger] px(selected@, w, x, y) implies exists|q: int|
                    0 <= q < queue@.len() && #[trigger] queue@[q] == (x as u32, y as u32) by {
                lemma_index_in_range(w, h, x, y);
            }
        }
        let mut k: usize = 0;
        while k < seeds.len()
            invariant
                self.wf(),
                w == self.width,
                h == self.height,
                n == self.count(),
                selected@.len() == n,
                k <= seeds@.len(),
                allowed == self.match_flags(views4(sample_colors@), tolerance),
                parent.len() == queue@.len(),
                forall|q: int| 0 <= q < queue@.len() ==> #[trigger] grown_step(w, h, seeds@, allowed, selected@, queue@, parent, q),
                forall|x: int, y: int|
                    in_bounds(w, h, x, y) && #[trigger] px(selected@, w, x, y) ==> exists|q: int|
                        0 <= q < queue@.len() && #[trigger] queue@[q] == (x as u32, y as u32),
                forall|j: int|
                    0 <= j < k && #[trigger] seed_ok(w, h, allowed, seeds@[j]) ==> px(
                        selected@,
                        w,
                        seeds@[j].0 as int,
                        seeds@[j].1 as int,
                    ),
                queue@.len() + count_false(selected@) == c0,
            decreases seeds.len() - k,
        {
            let (x, y) = seeds[k];
            if x < w && y < h {
                let p = self.get_pixel(x, y);
                let idx = self.flat_index(x, y);
                if pixel_matches_any(p, sample_colors, tolerance) && !selected[idx] {
                    let ghost old_sel = selected@;
                    let ghost old_q = queue@;
                    let ghost old_parent = parent;
                    proof {
                        lemma_count_false_set(selected@, idx as int);
                    }
                    selected.set(idx, true);
                    queue.push((x, y));
                    proof {
                        parent = parent.push(-1);
                        assert(seeds@.contains((x, y))) by {
                            assert(seeds@[k as int] == (x, y));
                        }
                        assert forall|q: int| 0 <= q < queue@.len() implies #[trigger] grown_step(w, h, seeds@, allowed, selected@, queue@, parent, q) by {
                            if q < old_q.len() {
                                assert(grown_step(w, h, seeds@, allowed, old_sel, old_q, old_parent, q));
                                assert(old_parent[q] == parent[q]);
                                assert(queue@[q] == old_q[q]);
                                lemma_index_in_range(w, h, old_q[q].0 as int, old_q[q].1 as int);
                                if parent[q] >= 0 {
                                    assert(queue@[parent[q]] == old_q[parent[q]]);
                                }
                            } else {
                                assert(queue@[q] == (x, y));
                                assert(allowed[idx as int] == close_to_any(self.pix(idx as int), views4(sample_colors@), tolerance));
                            }
                        }
                        assert forall|xx: int, yy: int|
                            in_bounds(w, h, xx, yy) && #[trigger] px(selected@, w, xx, yy) implies exists|q: int|
                                0 <= q < queue@.len() && #[trigger] queue@[q] == (xx as u32, yy as u32) by {
                            lemma_index_in_range(w, h, xx, yy);
                            if index_of(w, xx, yy) == idx {
                                lemma_index_unique(w, xx, yy, x as int, y as int);
                                assert(queue@[old_q.len() as int] == (xx as u32, yy as u32));
                            } else {
                                assert(px(old_sel, w, xx, yy));
                                let q = choose|q: int| 0 <= q < old_q.len() && #[trigger] old_q[q] == (xx as u32, yy as u32);
                                assert(queue@[q] == old_q[q]);
                            }
                        }
                    }
                }
            }
            proof {
                assert forall|j: int|
                    0 <= j < k + 1 && #[trigger] seed_ok(w, h, allowed, seeds@[j]) implies px(
                        selected@,
                        w,
                        seeds@[j].0 as int,
                        seeds@[j].1 as int,
                    ) by {
                    lemma_index_in_range(w, h, seeds@[j].0 as int, seeds@[j].1 as int);
                    let ii = index_of(w, seeds@[j].0 as int, seeds@[j].1 as int);
                    assert(allowed[ii] == close_to_any(self.pix(ii), views4(sample_colors@), tolerance));
                }
            }
            k = k + 1;
        }
        let mut head: usize = 0;
        while head < queue.len()
            invariant
                self.wf(),
                w == self.width,
                h == self.height,
                n == self.count(),
                selected@.len() == n,
                head <= queue@.len(),
                allowed == self.match_flags(views4(sample_colors@), tolerance),
                parent.len() == queue@.len(),
                forall|q: int| 0 <= q < queue@.len() ==> #[trigger] grown_step(w, h, seeds@, allowed, selected@, queue@, parent, q),
                forall|x: int, y: int|
                    in_bounds(w, h, x, y) && #[trigger] px(selected@, w, x, y) ==> exists|q: int|
                        0 <= q < queue@.len() && #[trigger] queue@[q] == (x as u32, y as u32),
                forall|j: int|
                    0 <= j < seeds@.len() && #[trigger] seed_ok(w, h, allowed, seeds@[j]) ==> px(
                        selected@,
                        w,
                        seeds@[j].0 as int,
                        seeds@[j].1 as int,
                    ),
                forall|q: int, nx: int, ny: int|
                    #![trigger adjacent(queue@[q].0 as int, queue@[q].1 as int, nx, ny)]
                    0 <= q < head && in_bounds(w, h, nx, ny) && adjacent(queue@[q].0 as int, queue@[q].1 as int, nx, ny)
                        && px(allowed, w, nx, ny) ==> px(selected@, w, nx, ny),
                queue@.len() + count_false(selected@) == c0,
            decreases c0 - head,
        {
            let (x, y) = queue[head];
            proof {
                assert(grown_step(w, h, seeds@, allowed, selected@, queue@, parent, head as int));
                lemma_neighbor_seq(w, h, x, y);
            }
            let nbs = mask_neighbors(w, h, x, y);
            let mut j: usize = 0;
            while j < nbs.len()
                invariant
                    self.wf(),
                    w == self.width,
                    h == self.height,
                    n == self.count(),
                    x < w,
                    y < h,
                    selected@.len() == n,
                    head < queue@.len(),
                    queue@[head as int] == (x, y),
                    nbs@ == neighbor_seq(w, h, x, y),
                    j <= nbs@.len(),
                    allowed == self.match_flags(views4(sample_colors@), tolerance),
                    parent.len() == queue@.len(),
                    forall|q: int| 0 <= q < queue@.len() ==> #[trigger] grown_step(w, h, seeds@, allowed, selected@, queue@, parent, q),
                    forall|xx: int, yy: int|
                        in_bounds(w, h, xx, yy) && #[trigger] px(selected@, w, xx, yy) ==> exists|q: int|
                            0 <= q < queue@.len() && #[trigger] queue@[q] == (xx as u32, yy as u32),
                    forall|jj: int|
                        0 <= jj < seeds@.len() && #[trigger] seed_ok(w, h, allowed, seeds@[jj]) ==> px(
                            selected@,
                            w,
                            seeds@[jj].0 as int,
                            seeds@[jj].1 as int,
                        ),
                    forall|q: int, nx: int, ny: int|
                        #![trigger adjacent(queue@[q].0 as int, queue@[q].1 as int, nx, ny)]
                        0 <= q < head && in_bounds(w, h, nx, ny) && adjacent(queue@[q].0 as int, queue@[q].1 as int, nx, ny)
                            && px(allowed, w, nx, ny) ==> px(selected@, w, nx, ny),
                    forall|jj: int|
                        0 <= jj < j && #[trigger] px(allowed, w, nbs@[jj].0 as int, nbs@[jj].1 as int) ==> px(
                            selected@,
                            w,
                            nbs@[jj].0 as int,
                            nbs@[jj].1 as int,
                        ),
                    queue@.len() + count_false(selected@) == c0,
                decreases nbs.len() - j,
            {
                let (nx, ny) = nbs[j];
                proof {
                    let q = nbs@[j as int];
                    assert(in_bounds(w, h, q.0 as int, q.1 as int) && adjacent(x as int, y as int, q.0 as int, q.1 as int));
                }
                let idx = self.flat_index(nx, ny);
                if !selected[idx] {
                    let p = self.get_pixel(nx, ny);
                    if pixel_matches_any(p, sample_colors, tolerance) {
                        let ghost old_sel = selected@;
                        let ghost old_q = queue@;
                        let ghost old_parent = parent;
                        proof {
                            lemma_count_false_set(selected@, idx as int);
                        }
                        selected.set(idx, true);
                        queue.push((nx, ny));
                        proof {
                            parent = parent.push(head as int);
                            assert forall|q: int| 0 <= q < queue@.len() implies #[trigger] grown_step(w, h, seeds@, allowed, selected@, queue@, parent, q) by {
                                if q < old_q.len() {
                                    assert(grown_step(w, h, seeds@, allowed, old_sel, old_q, old_parent, q));
                                    assert(old_parent[q] == parent[q]);
                                    assert(queue@[q] == old_q[q]);
                                    lemma_index_in_range(w, h, old_q[q].0 as int, old_q[q].1 as int);
                                    if parent[q] >= 0 {
                                        assert(queue@[parent[q]] == old_q[parent[q]]);
                                    }
                                } else {
                                    assert(queue@[q] == (nx, ny));
                                    assert(queue@[head as int] == (x, y));
                                    assert(allowed[idx as int] == close_to_any(self.pix(idx as int), views4(sample_colors@), tolerance));
                                }
                            }
                            assert forall|xx: int, yy: int|
                                in_bounds(w, h, xx, yy) && #[trigger] px(selected@, w, xx, yy) implies exists|q: int|
                                    0 <= q < queue@.len() && #[trigger] queue@[q] == (xx as u32, yy as u32) by {
                                lemma_index_in_range(w, h, xx, yy);
                                if index_of(w, xx, yy) == idx {
                                    lemma_index_unique(w, xx, yy, nx as int, ny as int);
                                    assert(queue@[old_q.len() as int] == (xx as u32, yy as u32));
                                } else {
                                    assert(px(old_sel, w, xx, yy));
                                    let q = choose|q: int| 0 <= q < old_q.len() && #[trigger] old_q[q] == (xx as u32, yy as u32);
                                    assert(queue@[q] == old_q[q]);
                                }
                            }
                            assert forall|q: int, ax: int, ay: int|
                                #![trigger adjacent(queue@[q].0 as int, queue@[q].1 as int, ax, ay)]
                                0 <= q < head && in_bounds(w, h, ax, ay) && adjacent(queue@[q].0 as int, queue@[q].1 as int, ax, ay)
                                    && px(allowed, w, ax, ay) implies px(selected@, w, ax, ay) by {
                                assert(queue@[q] == old_q[q]);
                                assert(adjacent(old_q[q].0 as int, old_q[q].1 as int, ax, ay));
                                lemma_index_in_range(w, h, ax, ay);
                            }
                            assert forall|jj: int|
                                0 <= jj < j + 1 && #[trigger] px(allowed, w, nbs@[jj].0 as int, nbs@[jj].1 as int) implies px(
                                    selected@,
                                    w,
                                    nbs@[jj].0 as int,
                                    nbs@[jj].1 as int,
                                ) by {
                                let q = nbs@[jj];
                                assert(in_bounds(w, h, q.0 as int, q.1 as int));
                                lemma_index_in_range(w, h, q.0 as int, q.1 as int);
                            }
                            assert forall|jj: int|
                                0 <= jj < seeds@.len() && #[trigger] seed_ok(w, h, allowed, seeds@[jj]) implies px(
                                    selected@,
                                    w,
                                    seeds@[jj].0 as int,
                                    seeds@[jj].1 as int,
                                ) by {
                                lemma_index_in_range(w, h, seeds@[jj].0 as int, seeds@[jj].1 as int);
                            }
                        }
                    } else {
                        proof {
                            lemma_index_in_range(w, h, nx as int, ny as int);
                            assert(!px(allowed, w, nx as int, ny as int));
                        }
                    }
                }
                j = j + 1;
            }
            proof {
                assert forall|q: int, ax: int, ay: int|
                    #![trigger adjacent(queue@[q].0 as int, queue@[q].1 as int, ax, ay)]
                    0 <= q < head + 1 && in_bounds(w, h, ax, ay) && adjacent(queue@[q].0 as int, queue@[q].1 as int, ax, ay)
                        && px(allowed, w, ax, ay) implies px(selected@, w, ax, ay) by {
                    if q == head {
                        assert(adjacent(x as int, y as int, ax, ay));
                        let jj = choose|jj: int| 0 <= jj < nbs@.len() && #[trigger] nbs@[jj] == (ax as u32, ay as u32);
                        assert(nbs@[jj] == (ax as u32, ay as u32));
                        assert(px(allowed, w, nbs@[jj].0 as int, nbs@[jj].1 as int));
                    }
                }
            }
            head = head + 1;
        }
        proof {
            assert forall|xx: int, yy: int, ax: int, ay: int|
                #![trigger adjacent(xx, yy, ax, ay), px(selected@, w, xx, yy)]
                in_bounds(w, h, xx, yy) && in_bounds(w, h, ax, ay) && adjacent(xx, yy, ax, ay) && px(selected@, w, xx, yy)
                    && px(allowed, w, ax, ay) implies px(selected@, w, ax, ay) by {
                let q = choose|q: int| 0 <= q < queue@.len() && #[trigger] queue@[q] == (xx as u32, yy as u32);
                assert(queue@[q] == (xx as u32, yy as u32));
                assert(adjacent(queue@[q].0 as int, queue@[q].1 as int, ax, ay));
            }
            assert(grown_from(w, h, seeds@, allowed, selected@, queue@, parent));
        }
        selected
    }
}

impl SceneAssetRaster {
    /// The colours at the seeds that lie inside the image, in seed order.
    pub open spec fn seed_samples(&self, seeds: Seq<(u32, u32)>) -> Seq<Seq<u8>>
        decreases seeds.len(),
    {
        if seeds.len() == 0 {
            seq![]
        } else {
            let rest = self.seed_samples(seeds.drop_last());
            let s = seeds.last();
            if s.0 < self.width && s.1 < self.height {
                rest.push(self.pix_at(s.0 as int, s.1 as int))
            } else {
                rest
            }
        }
    }

    /// The points whose colour is close to one of the samples, in order.
    pub open spec fn points_matching(&self, points: Seq<(u32, u32)>, samples: Seq<Seq<u8>>, tolerance: u8) -> Seq<(u32, u32)>
        decreases points.len(),
    {
        if points.len() == 0 {
            seq![]
        } else {
            let rest = self.points_matching(points.drop_last(), samples, tolerance);
            let p = points.last();
            if close_to_any(self.pix_at(p.0 as int, p.1 as int), samples, tolerance) {
                rest.push(p)
            } else {
                rest
            }
        }
    }

    /// The region of colours close to the seeds' own colours, grown from the
    /// seeds: the magic wand.
    pub fn contiguous_magic_mask(&self, seeds: &[(u32, u32)], tolerance: u8) -> (m: Vec<bool>)
        requires
            self.wf(),
        ensures
            m@.len() == self.count(),
            self.seed_samples(seeds@).len() == 0 ==> forall|i: int| 0 <= i < self.count() ==> !#[trigger] m@[i],
            self.seed_samples(seeds@).len() > 0 ==> flood_region(
                self.width,
                self.height,
                seeds@,
                self.match_flags(self.seed_samples(seeds@), tolerance),
                m@,
            ),
    {
        let mut samples: Vec<[u8; 4]> = Vec::new();
        let mut k: usize = 0;
        while k < seeds.len()
            invariant
                self.wf(),
                k <= seeds@.len(),
                views4(samples@) == self.seed_samples(seeds@.take(k as int)),
            decreases seeds.len() - k,
        {
            let (x, y) = seeds[k];
            proof {
                assert(seeds@.take(k + 1).drop_last() =~= seeds@.take(k as int));
            }
            if x < self.width && y < self.height {
                let p = self.get_pixel(x, y);
                let ghost before = samples@;
                samples.push(p);
                proof {
                    assert(views4(samples@) =~= views4(before).push(p@));
                }
            }
            k = k + 1;
        }
        proof {
            assert(seeds@.take(seeds@.len() as int) =~= seeds@);
        }
        self.contiguous_magic_mask_with_samples(seeds, samples.as_slice(), tolerance)
    }

    /// The border points whose colour is close to one of the samples.
    pub fn edge_seed_points_matching_samples(&self, sample_colors: &[[u8; 4]], tolerance: u8) -> (points: Vec<(u32, u32)>)
        requires
            self.wf(),
        ensures
            points@ == self.points_matching(edge_point_seq(self.width, self.height), views4(sample_colors@), tolerance),
    {
        let edges = edge_points(self.width, self.height);
        proof {
            lemma_edge_points_in_bounds(self.width, self.height);
        }
        let mut points: Vec<(u32, u32)> = Vec::new();
        let mut k: usize = 0;
        while k < edges.len()
            invariant
                self.wf(),
                edges@ == edge_point_seq(self.width, self.height),
                forall|j: int| 0 <= j < edges@.len() ==> in_bounds(
                    self.width,
                    self.height,
                    (#[trigger] edges@[j]).0 as int,
                    edges@[j].1 as int,
                ),
                k <= edges@.len(),
                points@ == self.points_matching(edges@.take(k as int), views4(sample_colors@), tolerance),
            decreases edges.len() - k,
        {
            let (x, y) = edges[k];
            proof {
                assert(edges@.take(k + 1).drop_last() =~= edges@.take(k as int));
                assert(in_bounds(self.width, self.height, edges@[k as int].0 as int, edges@[k as int].1 as int));
            }
            let p = self.get_pixel(x, y);
            if pixel_matches_any(p, sample_colors, tolerance) {
                points.push((x, y));
            }
            k = k + 1;
        }
        proof {
            assert(edges@.take(edges@.len() as int) =~= edges@);
        }
        points
    }

    /// The background: the region grown from the border pixels whose colour
    /// is close to a background sample, through colours close to a sample.
    pub fn background_magic_mask(&self, tolerance: u8, sample: SceneAssetBackgroundSample) -> (m: Vec<bool>)
        requires
            self.wf(),
        ensures
            m@.len() == self.count(),
            self.background_samples(sample).len() == 0 ==> forall|i: int| 0 <= i < self.count() ==> !#[trigger] m@[i],
            self.background_samples(sample).len() > 0 ==> flood_region(
                self.width,
                self.height,
                self.points_matching(edge_point_seq(self.width, self.height), self.background_samples(sample), tolerance),
                self.match_flags(self.background_samples(sample), tolerance),
                m@,
            ),
    {
        let samples = self.background_sample_colors(sample);
        let seeds = self.edge_seed_points_matching_samples(samples.as_slice(), tolerance);
        proof {
            assert(samples@.len() == views4(samples@).len());
        }
        self.contiguous_magic_mask_with_samples(seeds.as_slice(), samples.as_slice(), tolerance)
    }

    /// One flag per pixel: whether its colour is close to a background
    /// sample, wherever it lies.
    pub fn color_range_mask(&self, tolerance: u8, sample: SceneAssetBackgroundSample) -> (m: Vec<bool>)
        requires
            self.wf(),
        ensures
            m@.len() == self.count(),
            forall|i: int| 0 <= i < self.count() ==> #[trigger] m@[i] == close_to_any(self.pix(i), self.background_samples(sample), tolerance),
    {
        let samples = self.background_sample_colors(sample);
        self.matching_mask(samples.as_slice(), tolerance)
    }
}

// ---------------------------------------------------------------- bounds and comparisons

/// What comparing two rasters pixel by pixel found.
#[derive(Debug, Clone, Copy, PartialEq, Eq, Structural)]
pub struct SceneAssetPixelDiff {
    pub same_dimensions: bool,
    pub changed_pixels: usize,
    pub alpha_changed_pixels: usize,
    pub changed_bounds: Option<SceneAssetPixelRect>,
}

/// One flag per pixel: some channel differs between the two rasters.
pub open spec fn changed_flags(a: Seq<u8>, b: Seq<u8>, n: int) -> Seq<bool> {
    Seq::new(n as nat, |i: int| !same_pixel(a, i, b, i))
}

/// One flag per pixel: alpha differs between the two rasters.
pub open spec fn alpha_changed_flags(a: Seq<u8>, b: Seq<u8>, n: int) -> Seq<bool> {
    Seq::new(n as nat, |i: int| chan(a, i, 3) != chan(b, i, 3))
}

impl SceneAssetRaster {
    /// One flag per pixel: it is not fully transparent.
    pub open spec fn opaque_flags(&self) -> Seq<bool> {
        Seq::new(self.count() as nat, |i: int| chan(self.data@, i, 3) != 0)
    }

    /// The smallest rectangle holding every pixel that is not fully
    /// transparent, or `None` when all are.
    pub fn content_bounds(&self) -> (r: Option<SceneAssetPixelRect>)
        requires
            self.wf(),
        ensures
            selection_bounds(self.width, self.height, self.opaque_flags(), r),
    {
        let n = self.pixel_len();
        let mut flags: Vec<bool> = Vec::new();
        let mut i: usize = 0;
        while i < n
            invariant
                self.wf(),
                n == self.count(),
                i <= n,
                flags@ =~= self.opaque_flags().take(i as int),
            decreases n - i,
        {
            let p = self.pixel(i);
            flags.push(p[3] != 0);
            i = i + 1;
        }
        proof {
            assert(self.opaque_flags().take(n as int) =~= self.opaque_flags());
        }
        mask_selection_bounds(self.width, self.height, flags.as_slice())
    }
}

/// The flags of `changed_flags` and `alpha_changed_flags`, computed.
fn change_flags(a: &SceneAssetRaster, b: &SceneAssetRaster) -> (r: (Vec<bool>, Vec<bool>))
    requires
        a.wf(),
        b.wf(),
        a.width == b.width,
        a.height == b.height,
    ensures
        r.0@ == changed_flags(a.data@, b.data@, a.count()),
        r.1@ == alpha_changed_flags(a.data@, b.data@, a.count()),
{
    let n = a.pixel_len();
    let mut changed: Vec<bool> = Vec::new();
    let mut alpha: Vec<bool> = Vec::new();
    let mut i: usize = 0;
    while i < n
        invariant
            a.wf(),
            b.wf(),
            a.width == b.width,
            a.height == b.height,
            n == a.count(),
            i <= n,
            changed@ =~= changed_flags(a.data@, b.data@, a.count()).take(i as int),
            alpha@ =~= alpha_changed_flags(a.data@, b.data@, a.count()).take(i as int),
        decreases n - i,
    {
        let p = a.pixel(i);
        let q = b.pixel(i);
        changed.push(!(p[0] == q[0] && p[1] == q[1] && p[2] == q[2] && p[3] == q[3]));
        alpha.push(p[3] != q[3]);
        i = i + 1;
    }
    proof {
        assert(changed_flags(a.data@, b.data@, a.count()).take(n as int) =~= changed_flags(a.data@, b.data@, a.count()));
        assert(alpha_changed_flags(a.data@, b.data@, a.count()).take(n as int) =~= alpha_changed_flags(a.data@, b.data@, a.count()));
    }
    (changed, alpha)
}

/// How many pixels differ; every pixel of `a` when the sizes differ.
pub fn changed_pixel_count(a: &SceneAssetRaster, b: &SceneAssetRaster) -> (n: usize)
    requires
        a.wf(),
        b.wf(),
    ensures
        (a.width != b.width || a.height != b.height) ==> n == a.count(),
        (a.width == b.width && a.height == b.height) ==> n == count_true(changed_flags(a.data@, b.data@, a.count())),
{
    if a.width != b.width || a.height != b.height {
        return a.pixel_len();
    }
    let (changed, _alpha) = change_flags(a, b);
    selected_pixel_count(changed.as_slice())
}

/// Compares two rasters pixel by pixel: how many pixels changed, how many
/// changed alpha, and the smallest rectangle holding the changes. Rasters of
/// different sizes count as wholly changed, the larger pixel count.
pub fn compare_pixels(before: &SceneAssetRaster, after: &SceneAssetRaster) -> (d: SceneAssetPixelDiff)
    requires
        before.wf(),
        after.wf(),
    ensures
        d.same_dimensions == (before.width == after.width && before.height == after.height),
        !d.same_dimensions ==> {
            &&& d.changed_pixels == (if before.count() >= after.count() { before.count() } else { after.count() })
            &&& d.alpha_changed_pixels == 0
            &&& d.changed_bounds is None
        },
        d.same_dimensions ==> {
            &&& d.changed_pixels == count_true(changed_flags(before.data@, after.data@, before.count()))
            &&& d.alpha_changed_pixels == count_true(alpha_changed_flags(before.data@, after.data@, before.count()))
            &&& selection_bounds(before.width, before.height, changed_flags(before.data@, after.data@, before.count()), d.changed_bounds)
        },
{
    if before.width != after.width || before.height != after.height {
        let a = before.pixel_len();
        let b = after.pixel_len();
        return SceneAssetPixelDiff {
            same_dimensions: false,
            changed_pixels: if a >= b { a } else { b },
            alpha_changed_pixels: 0,
            changed_bounds: None,
        };
    }
    let (changed, alpha) = change_flags(before, after);
    let changed_pixels = selected_pixel_count(changed.as_slice());
    let alpha_changed_pixels = selected_pixel_count(alpha.as_slice());
    let changed_bounds = mask_selection_bounds(before.width, before.height, changed.as_slice());
    SceneAssetPixelDiff { same_dimensions: true, changed_pixels, alpha_changed_pixels, changed_bounds }
}

// ---------------------------------------------------------------- previews and mask images

/// The raw-diff marker colour.
pub open spec fn diff_marker() -> Seq<u8> {
    seq![255u8, 48u8, 96u8, 255u8]
}

/// A transparent pixel.
pub open spec fn clear_pixel() -> Seq<u8> {
    seq![0u8, 0u8, 0u8, 0u8]
}

/// The alpha-diff preview of one pixel.
pub open spec fn alpha_diff_pixel(a: Seq<u8>, i: int, b: Seq<u8>) -> Seq<u8> {
    if chan(a, i, 3) != chan(b, i, 3) {
        seq![64u8, 220u8, 255u8, 255u8]
    } else if !same_pixel(a, i, b, i) {
        seq![255u8, 48u8, 96u8, 180u8]
    } else {
        clear_pixel()
    }
}

/// Builds a raster pixel by pixel from the preview rule `which`: 0 marks
/// changed pixels, 1 marks alpha and colour changes apart.
fn diff_preview(before: &SceneAssetRaster, after: &SceneAssetRaster, which: u8) -> (r: SceneAssetRaster)
    requires
        before.wf(),
        after.wf(),
        before.width == after.width,
        before.height == after.height,
    ensures
        r.wf(),
        r.width == after.width,
        r.height == after.height,
        forall|i: int|
            0 <= i < after.count() ==> #[trigger] r.pix(i) == (if which == 0 {
                if same_pixel(before.data@, i, after.data@, i) {
                    clear_pixel()
                } else {
                    diff_marker()
                }
            } else {
                alpha_diff_pixel(before.data@, i, after.data@)
            }),
{
    let n = after.pixel_len();
    let len = after.data.len();
    let mut data: Vec<u8> = Vec::new();
    let mut i: usize = 0;
    while i < n
        invariant
            before.wf(),
            after.wf(),
            before.width == after.width,
            before.height == after.height,
            n == after.count(),
            len == 4 * n,
            i <= n,
            data@.len() == 4 * i,
            forall|j: int|
                0 <= j < i ==> #[trigger] pixel_seq(data@, j) == (if which == 0 {
                    if same_pixel(before.data@, j, after.data@, j) {
                        clear_pixel()
                    } else {
                        diff_marker()
                    }
                } else {
                    alpha_diff_pixel(before.data@, j, after.data@)
                }),
        decreases n - i,
    {
        let p = before.pixel(i);
        let q = after.pixel(i);
        let same = p[0] == q[0] && p[1] == q[1] && p[2] == q[2] && p[3] == q[3];
        let out: [u8; 4] = if which == 0 {
            if same {
                [0, 0, 0, 0]
            } else {
                [255, 48, 96, 255]
            }
        } else if p[3] != q[3] {
            [64, 220, 255, 255]
        } else if !same {
            [255, 48, 96, 180]
        } else {
            [0, 0, 0, 0]
        };
        let ghost before_data = data@;
        data.push(out[0]);
        data.push(out[1]);
        data.push(out[2]);
        data.push(out[3]);
        proof {
            assert forall|j: int| 0 <= j < i + 1 implies #[trigger] pixel_seq(data@, j) == (if which == 0 {
                if same_pixel(before.data@, j, after.data@, j) {
                    clear_pixel()
                } else {
                    diff_marker()
                }
            } else {
                alpha_diff_pixel(before.data@, j, after.data@)
            }) by {
                if j < i {
                    assert(pixel_seq(data@, j) =~= pixel_seq(before_data, j));
                } else {
                    assert(pixel_seq(data@, j) =~= out@);
                }
            }
        }
        i = i + 1;
    }
    SceneAssetRaster { width: after.width, height: after.height, data }
}

/// Marks every changed pixel in the diff colour on a transparent raster.
pub fn raw_diff_preview_image(before: &SceneAssetRaster, after: &SceneAssetRaster) -> (r: SceneAssetRaster)
    requires
        before.wf(),
        after.wf(),
        before.width == after.width,
        before.height == after.height,
    ensures
        r.wf(),
        r.width == after.width,
        r.height == after.height,
        forall|i: int|
            0 <= i < after.count() ==> #[trigger] r.pix(i) == (if same_pixel(before.data@, i, after.data@, i) {
                clear_pixel()
            } else {
                diff_marker()
            }),
{
    diff_preview(before, after, 0)
}

/// Marks alpha changes in cyan and other changes in translucent red on a
/// transparent raster.
pub fn alpha_diff_preview_image(before: &SceneAssetRaster, after: &SceneAssetRaster) -> (r: SceneAssetRaster)
    requires
        before.wf(),
        after.wf(),
        before.width == after.width,
        before.height == after.height,
    ensures
        r.wf(),
        r.width == after.width,
        r.height == after.height,
        forall|i: int| 0 <= i < after.count() ==> #[trigger] r.pix(i) == alpha_diff_pixel(before.data@, i, after.data@),
{
    diff_preview(before, after, 1)
}

/// The mask as an opaque black-and-white image: white where selected.
pub fn mask_export_image(mask: &SceneAssetMask) -> (r: SceneAssetRaster)
    requires
        mask.wf(),
        4 * (mask.width * mask.height) <= usize::MAX,
    ensures
        r.wf(),
        r.width == mask.width,
        r.height == mask.height,
        forall|i: int|
            0 <= i < r.count() ==> #[trigger] r.pix(i) == (if mask.pixels@[i] {
                seq![255u8, 255u8, 255u8, 255u8]
            } else {
                seq![0u8, 0u8, 0u8, 255u8]
            }),
{
    let n = mask.pixels.len();
    let mut data: Vec<u8> = Vec::new();
    let mut i: usize = 0;
    while i < n
        invariant
            mask.wf(),
            n == mask.width * mask.height,
            4 * n <= usize::MAX,
            i <= n,
            data@.len() == 4 * i,
            forall|j: int|
                0 <= j < i ==> #[trigger] pixel_seq(data@, j) == (if mask.pixels@[j] {
                    seq![255u8, 255u8, 255u8, 255u8]
                } else {
                    seq![0u8, 0u8, 0u8, 255u8]
                }),
        decreases n - i,
    {
        let v: u8 = if mask.pixels[i] { 255 } else { 0 };
        let ghost before_data = data@;
        data.push(v);
        data.push(v);
        data.push(v);
        data.push(255);
        proof {
            assert forall|j: int| 0 <= j < i + 1 implies #[trigger] pixel_seq(data@, j) == (if mask.pixels@[j] {
                seq![255u8, 255u8, 255u8, 255u8]
            } else {
                seq![0u8, 0u8, 0u8, 255u8]
            }) by {
                if j < i {
                    assert(pixel_seq(data@, j) =~= pixel_seq(before_data, j));
                } else {
                    assert(pixel_seq(data@, j) =~= (if mask.pixels@[j] {
                        seq![255u8, 255u8, 255u8, 255u8]
                    } else {
                        seq![0u8, 0u8, 0u8, 255u8]
                    }));
                }
            }
        }
        i = i + 1;
    }
    SceneAssetRaster { width: mask.width, height: mask.height, data }
}

/// A mask image pixel counts as selected: not transparent, and bright, or
/// mostly opaque with some colour.
pub open spec fn mask_pixel_selected(p: Seq<u8>) -> bool {
    &&& p[3] > 0
    &&& (rgb_average(p) >= 128 || (p[3] >= 128 && (p[0] != 0 || p[1] != 0 || p[2] != 0)))
}

pub open spec fn mask_size_message(w: u32, h: u32, ew: u32, eh: u32) -> Seq<char> {
    "mask dimensions differ from source: "@ + dec(w as nat) + "x"@ + dec(h as nat) + " vs "@ + dec(ew as nat) + "x"@
        + dec(eh as nat)
}

/// Reads a selection mask from a mask image of the source's size.
pub fn scene_asset_mask_from_image(image: &SceneAssetRaster, expected_width: u32, expected_height: u32) -> (r: Result<SceneAssetMask, SceneAssetEditError>)
    requires
        image.wf(),
    ensures
        (image.width != expected_width || image.height != expected_height) ==> (r matches Err(
            SceneAssetEditError::InvalidOperation(m),
        ) && m@ == mask_size_message(image.width, image.height, expected_width, expected_height)),
        (image.width == expected_width && image.height == expected_height) ==> (r matches Ok(mask) && {
            &&& mask.width == expected_width
            &&& mask.height == expected_height
            &&& mask.wf()
            &&& forall|i: int| 0 <= i < image.count() ==> #[trigger] mask.pixels@[i] == mask_pixel_selected(image.pix(i))
        }),
{
    if image.width != expected_width || image.height != expected_height {
        let mut m = String::from_str("mask dimensions differ from source: ");
        m.append(&u32_text(image.width));
        m.append("x");
        m.append(&u32_text(image.height));
        m.append(" vs ");
        m.append(&u32_text(expected_width));
        m.append("x");
        m.append(&u32_text(expected_height));
        return Err(SceneAssetEditError::InvalidOperation(m));
    }
    let n = image.pixel_len();
    let mut flags: Vec<bool> = Vec::new();
    let mut i: usize = 0;
    while i < n
        invariant
            image.wf(),
            n == image.count(),
            i <= n,
            flags@.len() == i,
            forall|j: int| 0 <= j < i ==> #[trigger] flags@[j] == mask_pixel_selected(image.pix(j)),
        decreases n - i,
    {
        let p = image.pixel(i);
        let has_color = p[0] != 0 || p[1] != 0 || p[2] != 0;
        flags.push(p[3] > 0 && (average3(p) >= 128 || (p[3] >= 128 && has_color)));
        i = i + 1;
    }
    Ok(SceneAssetMask::from_pixels(expected_width, expected_height, flags))
}

// ---------------------------------------------------------------- crops and copies

impl SceneAssetRaster {
    /// Pixel `(x, y)` of the crop of `rect`: the source pixel under it, or
    /// transparent where the rectangle leaves the image.
    pub open spec fn crop_pixel(&self, rect: SceneAssetPixelRect, x: int, y: int) -> Seq<u8> {
        let sx = rect.x + x;
        let sy = rect.y + y;
        if sx < self.width && sy < self.height {
            self.pix_at(sx, sy)
        } else {
            clear_pixel()
        }
    }

    /// The part of the image under `rect`, as a raster of the rectangle's
    /// size; what lies outside the image is transparent.
    pub fn crop_region(&self, rect: SceneAssetPixelRect) -> (r: SceneAssetRaster)
        requires
            self.wf(),
            4 * (rect.w * rect.h) <= usize::MAX,
            rect.x + rect.w <= u32::MAX + 1,
            rect.y + rect.h <= u32::MAX + 1,
        ensures
            r.wf(),
            r.width == rect.w,
            r.height == rect.h,
            forall|x: int, y: int| in_bounds(rect.w, rect.h, x, y) ==> #[trigger] r.pix_at(x, y) == self.crop_pixel(rect, x, y),
    {
        let zero: [u8; 4] = [0, 0, 0, 0];
        let mut out = SceneAssetRaster::filled(rect.w, rect.h, zero);
        proof {
            assert(zero@ =~= clear_pixel());
            assert forall|xx: int, yy: int| in_bounds(rect.w, rect.h, xx, yy) implies #[trigger] out.pix_at(xx, yy)
                == clear_pixel() by {
                lemma_index_in_range(rect.w, rect.h, xx, yy);
            }
        }
        let mut y: u32 = 0;
        while y < rect.h
            invariant
                self.wf(),
                out.wf(),
                out.width == rect.w,
                out.height == rect.h,
                rect.x + rect.w <= u32::MAX + 1,
                rect.y + rect.h <= u32::MAX + 1,
                y <= rect.h,
                forall|xx: int, yy: int|
                    in_bounds(rect.w, rect.h, xx, yy) ==> #[trigger] out.pix_at(xx, yy) == (if yy < y {
                        self.crop_pixel(rect, xx, yy)
                    } else {
                        clear_pixel()
                    }),
            decreases rect.h - y,
        {
            let mut x: u32 = 0;
            while x < rect.w
                invariant
                    self.wf(),
                    out.wf(),
                    out.width == rect.w,
                    out.height == rect.h,
                    rect.x + rect.w <= u32::MAX + 1,
                    rect.y + rect.h <= u32::MAX + 1,
                    y < rect.h,
                    x <= rect.w,
                    forall|xx: int, yy: int|
                        in_bounds(rect.w, rect.h, xx, yy) ==> #[trigger] out.pix_at(xx, yy) == (if yy < y || (yy == y
                            && xx < x) {
                            self.crop_pixel(rect, xx, yy)
                        } else {
                            clear_pixel()
                        }),
                decreases rect.w - x,
            {
                let sx = rect.x + x;
                let sy = rect.y + y;
                if sx < self.width && sy < self.height {
                    let p = self.get_pixel(sx, sy);
                    let i = out.flat_index(x, y);
                    let ghost prev = out;
                    out.set_pixel(i, p);
                    proof {
                        assert forall|xx: int, yy: int| in_bounds(rect.w, rect.h, xx, yy) implies #[trigger] out.pix_at(xx, yy)
                            == (if yy < y || (yy == y && xx < x + 1) {
                            self.crop_pixel(rect, xx, yy)
                        } else {
                            clear_pixel()
                        }) by {
                            lemma_index_in_range(rect.w, rect.h, xx, yy);
                            if index_of(rect.w, xx, yy) == i {
                                lemma_index_unique(rect.w, xx, yy, x as int, y as int);
                            } else {
                                assert(out.pix_at(xx, yy) == prev.pix_at(xx, yy));
                            }
                        }
                    }
                }
                x = x + 1;
            }
            y = y + 1;
        }
        out
    }
}

/// Pixel `(tx, ty)` of `target` once `source` is copied onto it with its
/// top-left corner at `(ox, oy)`.
pub open spec fn copied_pixel(
    source: SceneAssetRaster,
    target: SceneAssetRaster,
    ox: u32,
    oy: u32,
    tx: int,
    ty: int,
) -> Seq<u8> {
    if ox <= tx < ox + source.width && oy <= ty < oy + source.height {
        source.pix_at(tx - ox, ty - oy)
    } else {
        target.pix_at(tx, ty)
    }
}

/// Copies `source` onto `target` with its top-left corner at
/// `(offset_x, offset_y)`; what falls outside `target` is dropped.
pub fn copy_image_at(source: &SceneAssetRaster, target: &mut SceneAssetRaster, offset_x: u32, offset_y: u32)
    requires
        source.wf(),
        old(target).wf(),
    ensures
        final(target).wf(),
        final(target).width == old(target).width,
        final(target).height == old(target).height,
        forall|tx: int, ty: int|
            in_bounds(old(target).width, old(target).height, tx, ty) ==> #[trigger] final(target).pix_at(tx, ty)
                == copied_pixel(*source, *old(target), offset_x, offset_y, tx, ty),
{
    let ghost t0 = *target;
    let tw = target.width;
    let th = target.height;
    let mut y: u32 = 0;
    while y < source.height
        invariant
            source.wf(),
            target.wf(),
            t0.wf(),
            target.width == tw,
            target.height == th,
            t0.width == tw,
            t0.height == th,
            y <= source.height,
            forall|tx: int, ty: int|
                in_bounds(tw, th, tx, ty) ==> #[trigger] target.pix_at(tx, ty) == (if offset_x <= tx < offset_x
                    + source.width && offset_y <= ty < offset_y + y {
                    source.pix_at(tx - offset_x, ty - offset_y)
                } else {
                    t0.pix_at(tx, ty)
                }),
        decreases source.height - y,
    {
        let mut x: u32 = 0;
        while x < source.width
            invariant
                source.wf(),
                target.wf(),
                t0.wf(),
                target.width == tw,
                target.height == th,
                t0.width == tw,
                t0.height == th,
                y < source.height,
                x <= source.width,
                forall|tx: int, ty: int|
                    in_bounds(tw, th, tx, ty) ==> #[trigger] target.pix_at(tx, ty) == (if (offset_x <= tx < offset_x
                        + source.width && offset_y <= ty < offset_y + y) || (ty == offset_y + y && offset_x <= tx
                        < offset_x + x) {
                        source.pix_at(tx - offset_x, ty - offset_y)
                    } else {
                        t0.pix_at(tx, ty)
                    }),
            decreases source.width - x,
        {
            let tx = offset_x.saturating_add(x);
            let ty = offset_y.saturating_add(y);
            if tx < tw && ty < th {
                let p = source.get_pixel(x, y);
                let i = target.flat_index(tx, ty);
                let ghost prev = *target;
                target.set_pixel(i, p);
                proof {
                    assert forall|ax: int, ay: int| in_bounds(tw, th, ax, ay) implies #[trigger] target.pix_at(ax, ay) == (if (
                    offset_x <= ax < offset_x + source.width && offset_y <= ay < offset_y + y) || (ay == offset_y + y
                        && offset_x <= ax < offset_x + x + 1) {
                        source.pix_at(ax - offset_x, ay - offset_y)
                    } else {
                        t0.pix_at(ax, ay)
                    }) by {
                        lemma_index_in_range(tw, th, ax, ay);
                        if index_of(tw, ax, ay) == i {
                            lemma_index_unique(tw, ax, ay, tx as int, ty as int);
                        } else {
                            assert(target.pix_at(ax, ay) == prev.pix_at(ax, ay));
                        }
                    }
                }
            }
            x = x + 1;
        }
        y = y + 1;
    }
}

/// Three panels side by side: `before`, `after` and their raw diff.
pub fn contact_sheet_preview_image(before: &SceneAssetRaster, after: &SceneAssetRaster) -> (r: SceneAssetRaster)
    requires
        before.wf(),
        after.wf(),
        before.width == after.width,
        before.height == after.height,
        3 * before.width <= u32::MAX,
        4 * (3 * before.width * before.height) <= usize::MAX,
    ensures
        r.wf(),
        r.width == 3 * before.width,
        r.height == before.height,
        forall|x: int, y: int|
            in_bounds(r.width, r.height, x, y) ==> #[trigger] r.pix_at(x, y) == (if x < before.width {
                before.pix_at(x, y)
            } else if x < 2 * before.width {
                after.pix_at(x - before.width, y)
            } else {
                let i = index_of(before.width, x - 2 * before.width, y);
                if same_pixel(before.data@, i, after.data@, i) {
                    clear_pixel()
                } else {
                    diff_marker()
                }
            }),
{
    let raw_diff = raw_diff_preview_image(before, after);
    let bw = before.width;
    let bh = before.height;
    proof {
        assert(4 * ((3 * bw) * bh) == 4 * (3 * bw * bh)) by (nonlinear_arith);
    }
    let mut sheet = SceneAssetRaster::filled(bw * 3, bh, [0, 0, 0, 0]);
    let ghost s0 = sheet;
    copy_image_at(before, &mut sheet, 0, 0);
    let ghost s1 = sheet;
    copy_image_at(after, &mut sheet, bw, 0);
    let ghost s2 = sheet;
    copy_image_at(&raw_diff, &mut sheet, bw * 2, 0);
    proof {
        assert forall|x: int, y: int| in_bounds(sheet.width, sheet.height, x, y) implies #[trigger] sheet.pix_at(x, y) == (
        if x < bw {
            before.pix_at(x, y)
        } else if x < 2 * bw {
            after.pix_at(x - bw, y)
        } else {
            let i = index_of(bw, x - 2 * bw, y);
            if same_pixel(before.data@, i, after.data@, i) {
                clear_pixel()
            } else {
                diff_marker()
            }
        }) by {
            assert(sheet.pix_at(x, y) == copied_pixel(raw_diff, s2, (2 * bw) as u32, 0, x, y));
            assert(s2.pix_at(x, y) == copied_pixel(*after, s1, bw, 0, x, y));
            assert(s1.pix_at(x, y) == copied_pixel(*before, s0, 0, 0, x, y));
            if x >= 2 * bw {
                lemma_index_in_range(bw, bh, x - 2 * bw, y);
                assert(raw_diff.pix_at(x - 2 * bw, y) == raw_diff.pix(index_of(bw, x - 2 * bw, y)));
            }
        }
    }
    sheet
}

// ---------------------------------------------------------------- lines, rectangles and restores

impl SceneAssetRaster {
    /// Paints column `x` from top to bottom; a column outside the image
    /// changes nothing.
    pub fn draw_vertical_line(&mut self, x: u32, color: [u8; 4])
        requires
            old(self).wf(),
        ensures
            final(self).wf(),
            final(self).width == old(self).width,
            final(self).height == old(self).height,
            forall|xx: int, yy: int|
                in_bounds(old(self).width, old(self).height, xx, yy) ==> #[trigger] final(self).pix_at(xx, yy) == (if xx
                    == x {
                    color@
                } else {
                    old(self).pix_at(xx, yy)
                }),
    {
        self.paint_rect(SceneAssetPixelRect { x, y: 0, w: 1, h: self.height }, color);
    }

    /// Paints row `y` from left to right; a row outside the image changes
    /// nothing.
    pub fn draw_horizontal_line(&mut self, y: u32, color: [u8; 4])
        requires
            old(self).wf(),
        ensures
            final(self).wf(),
            final(self).width == old(self).width,
            final(self).height == old(self).height,
            forall|xx: int, yy: int|
                in_bounds(old(self).width, old(self).height, xx, yy) ==> #[trigger] final(self).pix_at(xx, yy) == (if yy
                    == y {
                    color@
                } else {
                    old(self).pix_at(xx, yy)
                }),
    {
        self.paint_rect(SceneAssetPixelRect { x: 0, y, w: self.width, h: 1 }, color);
    }

    /// Sets every pixel of `rect` inside the image to `color`.
    fn paint_rect(&mut self, rect: SceneAssetPixelRect, color: [u8; 4])
        requires
            old(self).wf(),
        ensures
            final(self).wf(),
            final(self).width == old(self).width,
            final(self).height == old(self).height,
            forall|xx: int, yy: int|
                in_bounds(old(self).width, old(self).height, xx, yy) ==> #[trigger] final(self).pix_at(xx, yy) == (if rect.x
                    <= xx < rect.x + rect.w && rect.y <= yy < rect.y + rect.h {
                    color@
                } else {
                    old(self).pix_at(xx, yy)
                }),
    {
        let ghost s0 = *self;
        let w = self.width;
        let h = self.height;
        let x_end: u32 = if (rect.x as u64) + (rect.w as u64) < (w as u64) { rect.x + rect.w } else { w };
        let y_end: u32 = if (rect.y as u64) + (rect.h as u64) < (h as u64) { rect.y + rect.h } else { h };
        let mut y: u32 = rect.y;
        while y < y_end
            invariant
                self.wf(),
                s0.wf(),
                self.width == w,
                self.height == h,
                s0.width == w,
                s0.height == h,
                x_end <= w,
                y_end <= h,
                (rect.x + rect.w >= w && x_end == w) || (rect.x + rect.w < w && x_end == rect.x + rect.w),
                (rect.y + rect.h >= h && y_end == h) || (rect.y + rect.h < h && y_end == rect.y + rect.h),
                rect.y <= y,
                y <= y_end || y == rect.y,
                forall|xx: int, yy: int|
                    in_bounds(w, h, xx, yy) ==> #[trigger] self.pix_at(xx, yy) == (if rect.x <= xx < rect.x + rect.w
                        && rect.y <= yy < y {
                        color@
                    } else {
                        s0.pix_at(xx, yy)
                    }),
            decreases y_end - y,
        {
            let mut x: u32 = rect.x;
            while x < x_end
                invariant
                    self.wf(),
                    s0.wf(),
                    self.width == w,
                    self.height == h,
                    s0.width == w,
                    s0.height == h,
                    x_end <= w,
                    (rect.x + rect.w >= w && x_end == w) || (rect.x + rect.w < w && x_end == rect.x + rect.w),
                    y < y_end <= h,
                    rect.x <= x,
                    x <= x_end || x == rect.x,
                    rect.y <= y,
                    forall|xx: int, yy: int|
                        in_bounds(w, h, xx, yy) ==> #[trigger] self.pix_at(xx, yy) == (if (rect.x <= xx < rect.x + rect.w
                            && rect.y <= yy < y) || (yy == y && rect.x <= xx < x) {
                            color@
                        } else {
                            s0.pix_at(xx, yy)
                        }),
                decreases x_end - x,
            {
                let i = self.flat_index(x, y);
                let ghost prev = *self;
                self.set_pixel(i, color);
                proof {
                    assert forall|xx: int, yy: int| in_bounds(w, h, xx, yy) implies #[trigger] self.pix_at(xx, yy) == (if (
                    rect.x <= xx < rect.x + rect.w && rect.y <= yy < y) || (yy == y && rect.x <= xx < x + 1) {
                        color@
                    } else {
                        s0.pix_at(xx, yy)
                    }) by {
                        lemma_index_in_range(w, h, xx, yy);
                        if index_of(w, xx, yy) == i {
                            lemma_index_unique(w, xx, yy, x as int, y as int);
                        } else {
                            assert(self.pix_at(xx, yy) == prev.pix_at(xx, yy));
                        }
                    }
                }
                x = x + 1;
            }
            proof {
                assert forall|xx: int, yy: int| in_bounds(w, h, xx, yy) implies #[trigger] self.pix_at(xx, yy) == (if rect.x
                    <= xx < rect.x + rect.w && rect.y <= yy < y + 1 {
                    color@
                } else {
                    s0.pix_at(xx, yy)
                }) by {
                    if yy == y && rect.x <= xx {
                        assert((xx < x) == (xx < rect.x + rect.w));
                    }
                }
            }
            y = y + 1;
        }
    }

    /// Copies back, from `original`, every pixel of `rect` inside the image.
    pub fn restore_rect_from(&mut self, original: &SceneAssetRaster, rect: SceneAssetPixelRect)
        requires
            old(self).wf(),
            original.wf(),
            original.width == old(self).width,
            original.height == old(self).height,
        ensures
            final(self).wf(),
            final(self).width == old(self).width,
            final(self).height == old(self).height,
            forall|xx: int, yy: int|
                in_bounds(old(self).width, old(self).height, xx, yy) ==> #[trigger] final(self).pix_at(xx, yy) == (if rect.x
                    <= xx < rect.x + rect.w && rect.y <= yy < rect.y + rect.h {
                    original.pix_at(xx, yy)
                } else {
                    old(self).pix_at(xx, yy)
                }),
    {
        let ghost s0 = *self;
        let w = self.width;
        let h = self.height;
        let x_end: u32 = if (rect.x as u64) + (rect.w as u64) < (w as u64) { rect.x + rect.w } else { w };
        let y_end: u32 = if (rect.y as u64) + (rect.h as u64) < (h as u64) { rect.y + rect.h } else { h };
        let mut y: u32 = rect.y;
        while y < y_end
            invariant
                self.wf(),
                s0.wf(),
                original.wf(),
                original.width == w,
                original.height == h,
                self.width == w,
                self.height == h,
                s0.width == w,
                s0.height == h,
                x_end <= w,
                y_end <= h,
                (rect.x + rect.w >= w && x_end == w) || (rect.x + rect.w < w && x_end == rect.x + rect.w),
                (rect.y + rect.h >= h && y_end == h) || (rect.y + rect.h < h && y_end == rect.y + rect.h),
                rect.y <= y,
                y <= y_end || y == rect.y,
                forall|xx: int, yy: int|
                    in_bounds(w, h, xx, yy) ==> #[trigger] self.pix_at(xx, yy) == (if rect.x <= xx < rect.x + rect.w
                        && rect.y <= yy < y {
                        original.pix_at(xx, yy)
                    } else {
                        s0.pix_at(xx, yy)
                    }),
            decreases y_end - y,
        {
            let mut x: u32 = rect.x;
            while x < x_end
                invariant
                    self.wf(),
                    s0.wf(),
                    original.wf(),
                    original.width == w,
                    original.height == h,
                    self.width == w,
                    self.height == h,
                    s0.width == w,
                    s0.height == h,
                    x_end <= w,
                    (rect.x + rect.w >= w && x_end == w) || (rect.x + rect.w < w && x_end == rect.x + rect.w),
                    y < y_end <= h,
                    rect.x <= x,
                    x <= x_end || x == rect.x,
                    rect.y <= y,
                    forall|xx: int, yy: int|
                        in_bounds(w, h, xx, yy) ==> #[trigger] self.pix_at(xx, yy) == (if (rect.x <= xx < rect.x + rect.w
                            && rect.y <= yy < y) || (yy == y && rect.x <= xx < x) {
                            original.pix_at(xx, yy)
                        } else {
                            s0.pix_at(xx, yy)
                        }),
                decreases x_end - x,
            {
                let p = original.get_pixel(x, y);
                let i = self.flat_index(x, y);
                let ghost prev = *self;
                self.set_pixel(i, p);
                proof {
                    assert forall|xx: int, yy: int| in_bounds(w, h, xx, yy) implies #[trigger] self.pix_at(xx, yy) == (if (
                    rect.x <= xx < rect.x + rect.w && rect.y <= yy < y) || (yy == y && rect.x <= xx < x + 1) {
                        original.pix_at(xx, yy)
                    } else {
                        s0.pix_at(xx, yy)
                    }) by {
                        lemma_index_in_range(w, h, xx, yy);
                        if index_of(w, xx, yy) == i {
                            lemma_index_unique(w, xx, yy, x as int, y as int);
                        } else {
                            assert(self.pix_at(xx, yy) == prev.pix_at(xx, yy));
                        }
                    }
                }
                x = x + 1;
            }
            proof {
                assert forall|xx: int, yy: int| in_bounds(w, h, xx, yy) implies #[trigger] self.pix_at(xx, yy) == (if rect.x
                    <= xx < rect.x + rect.w && rect.y <= yy < y + 1 {
                    original.pix_at(xx, yy)
                } else {
                    s0.pix_at(xx, yy)
                }) by {
                    if yy == y && rect.x <= xx {
                        assert((xx < x) == (xx < rect.x + rect.w));
                    }
                }
            }
            y = y + 1;
        }
    }
}

/// Whether pixel `i` comes back from the source: it is selected, and, when
/// only non-background pixels are restored, its colour is not close to a
/// background sample of the source.
pub open spec fn restored_flag(
    source: SceneAssetRaster,
    mask: Seq<bool>,
    filter: SceneAssetRestoreFilter,
    tolerance: u8,
    sample: SceneAssetBackgroundSample,
    i: int,
) -> bool {
    &&& mask[i]
    &&& !(filter == SceneAssetRestoreFilter::NonBackground && close_to_any(
        source.pix(i),
        source.background_samples(sample),
        tolerance,
    ))
}

pub open spec fn restore_size_message(sw: u32, sh: u32, tw: u32, th: u32) -> Seq<char> {
    "restore source dimensions "@ + dec(sw as nat) + "x"@ + dec(sh as nat) + " must match cutout dimensions "@ + dec(
        tw as nat,
    ) + "x"@ + dec(th as nat)
}

/// Copies the selected pixels of `source` into `target` (with the
/// non-background filter, only those whose colour is not close to the
/// source's background samples) and counts them. Source and target must be
/// of one size.
pub fn restore_pixels_with_mask(
    source: &SceneAssetRaster,
    target: &mut SceneAssetRaster,
    mask: &SceneAssetMask,
    filter: SceneAssetRestoreFilter,
    tolerance: u8,
    sample: SceneAssetBackgroundSample,
) -> (r: Result<usize, SceneAssetEditError>)
    requires
        source.wf(),
        old(target).wf(),
        mask.wf(),
        source.width == old(target).width && source.height == old(target).height ==> mask.width == source.width
            && mask.height == source.height,
    ensures
        final(target).width == old(target).width,
        final(target).height == old(target).height,
        final(target).wf(),
        (source.width != old(target).width || source.height != old(target).height) ==> {
            &&& r matches Err(SceneAssetEditError::InvalidOperation(m)) && m@ == restore_size_message(
                source.width,
                source.height,
                old(target).width,
                old(target).height,
            )
            &&& final(target).data@ == old(target).data@
        },
        (source.width == old(target).width && source.height == old(target).height) ==> {
            &&& r matches Ok(n) && n == count_true(
                Seq::new(source.count() as nat, |i: int| restored_flag(*source, mask.pixels@, filter, tolerance, sample, i)),
            )
            &&& forall|i: int|
                0 <= i < source.count() ==> #[trigger] final(target).pix(i) == (if restored_flag(
                    *source,
                    mask.pixels@,
                    filter,
                    tolerance,
                    sample,
                    i,
                ) {
                    source.pix(i)
                } else {
                    old(target).pix(i)
                })
        },
{
    if source.width != target.width || source.height != target.height {
        let mut m = String::from_str("restore source dimensions ");
        m.append(&u32_text(source.width));
        m.append("x");
        m.append(&u32_text(source.height));
        m.append(" must match cutout dimensions ");
        m.append(&u32_text(target.width));
        m.append("x");
        m.append(&u32_text(target.height));
        return Err(SceneAssetEditError::InvalidOperation(m));
    }
    let ghost t0 = *target;
    let ghost flags = Seq::new(source.count() as nat, |i: int| restored_flag(*source, mask.pixels@, filter, tolerance, sample, i));
    let samples: Vec<[u8; 4]> = match filter {
        SceneAssetRestoreFilter::All => Vec::new(),
        SceneAssetRestoreFilter::NonBackground => source.background_sample_colors(sample),
    };
    let n = source.pixel_len();
    let mut restored: usize = 0;
    let mut i: usize = 0;
    while i < n
        invariant
            source.wf(),
            target.wf(),
            t0.wf(),
            mask.wf(),
            target.width == t0.width,
            target.height == t0.height,
            source.width == t0.width,
            source.height == t0.height,
            mask.width == source.width,
            mask.height == source.height,
            n == source.count(),
            i <= n,
            filter == SceneAssetRestoreFilter::NonBackground ==> views4(samples@) == source.background_samples(sample),
            flags == Seq::new(source.count() as nat, |j: int| restored_flag(*source, mask.pixels@, filter, tolerance, sample, j)),
            restored == count_true(flags.take(i as int)),
            restored <= i,
            forall|j: int|
                0 <= j < n ==> #[trigger] target.pix(j) == (if j < i && flags[j] {
                    source.pix(j)
                } else {
                    t0.pix(j)
                }),
        decreases n - i,
    {
        proof {
            assert(flags.take(i + 1).drop_last() =~= flags.take(i as int));
        }
        if mask.pixels[i] {
            let p = source.pixel(i);
            let skip = match filter {
                SceneAssetRestoreFilter::All => false,
                SceneAssetRestoreFilter::NonBackground => pixel_matches_any(p, samples.as_slice(), tolerance),
            };
            if !skip {
                let ghost prev = *target;
                target.set_pixel(i, p);
                restored = restored + 1;
                proof {
                    assert forall|j: int| 0 <= j < n implies #[trigger] target.pix(j) == (if j < i + 1 && flags[j] {
                        source.pix(j)
                    } else {
                        t0.pix(j)
                    }) by {
                        if j != i {
                            assert(target.pix(j) == prev.pix(j));
                        }
                    }
                }
            }
        }
        i = i + 1;
    }
    proof {
        assert(flags.take(n as int) =~= flags);
    }
    Ok(restored)
}

impl SceneAssetRaster {
    /// Some other pixel within `radius` of `(x, y)` on both axes is nearly
    /// transparent (alpha below 32).
    pub open spec fn low_alpha_near(&self, x: int, y: int, radius: int) -> bool {
        exists|nx: int, ny: int| #[trigger] self.low_alpha_other(x, y, nx, ny, radius)
    }

    /// `(nx, ny)` is another pixel within `radius` of `(x, y)` and nearly
    /// transparent.
    pub open spec fn low_alpha_other(&self, x: int, y: int, nx: int, ny: int, radius: int) -> bool {
        near(x, y, nx, ny, radius) && in_bounds(self.width, self.height, nx, ny) && !(nx == x && ny == y)
            && self.pix_at(nx, ny)[3] < 32
    }

    /// Whether some other pixel within `radius` of `(x, y)` is nearly
    /// transparent.
    pub fn has_low_alpha_neighbor(&self, x: u32, y: u32, radius: u32) -> (b: bool)
        requires
            self.wf(),
            x < self.width,
            y < self.height,
        ensures
            b == self.low_alpha_near(x as int, y as int, radius as int),
    {
        let w = self.width;
        let h = self.height;
        let r = radius;
        let lo_y: u32 = if y >= r { y - r } else { 0 };
        let hi_y: u32 = if (y as u64) + (r as u64) < (h as u64) { y + r } else { h - 1 };
        let lo_x: u32 = if x >= r { x - r } else { 0 };
        let hi_x: u32 = if (x as u64) + (r as u64) < (w as u64) { x + r } else { w - 1 };
        let mut ny: u32 = lo_y;
        while ny <= hi_y
            invariant
                self.wf(),
                w == self.width,
                h == self.height,
                x < w,
                y < h,
                lo_x <= x <= hi_x,
                lo_y <= y <= hi_y,
                x - r <= lo_x,
                hi_x <= x + r,
                y - r <= lo_y,
                hi_y <= y + r,
                lo_y <= ny <= hi_y + 1,
                hi_y < h,
                hi_x < w,
                r == radius,
                forall|nx: int, yy: int|
                    #![trigger self.pix_at(nx, yy)]
                    lo_y <= yy < ny && lo_x <= nx <= hi_x && !(nx == x && yy == y) ==> self.pix_at(nx, yy)[3] >= 32,
            decreases hi_y + 1 - ny,
        {
            let mut nx: u32 = lo_x;
            while nx <= hi_x
                invariant
                    self.wf(),
                    w == self.width,
                    h == self.height,
                    x < w,
                    y < h,
                    lo_x <= x <= hi_x,
                    x - r <= lo_x,
                    hi_x <= x + r,
                    y - r <= lo_y,
                    hi_y <= y + r,
                    lo_y <= ny <= hi_y,
                    hi_y < h,
                    hi_x < w,
                    lo_x <= nx <= hi_x + 1,
                    r == radius,
                    forall|xx: int, yy: int|
                        #![trigger self.pix_at(xx, yy)]
                        ((lo_y <= yy < ny && lo_x <= xx <= hi_x) || (yy == ny && lo_x <= xx < nx)) && !(xx == x
                            && yy == y) ==> self.pix_at(xx, yy)[3] >= 32,
                decreases hi_x + 1 - nx,
            {
                if !(nx == x && ny == y) {
                    let p = self.get_pixel(nx, ny);
                    if p[3] < 32 {
                        proof {
                            let ax = nx as int;
                            let ay = ny as int;
                            assert(near(x as int, y as int, ax, ay, r as int));
                            assert(self.pix_at(ax, ay)[3] < 32);
                            assert(in_bounds(w, h, ax, ay));
                            assert(!(ax == x && ay == y));
                            assert(self.low_alpha_other(x as int, y as int, ax, ay, radius as int));
                        }
                        return true;
                    }
                }
                nx = nx + 1;
            }
            ny = ny + 1;
        }
        proof {
            assert forall|ax: int, ay: int| !#[trigger] self.low_alpha_other(x as int, y as int, ax, ay, radius as int) by {
                if near(x as int, y as int, ax, ay, r as int) && in_bounds(w, h, ax, ay) {
                    assert(lo_y <= ay <= hi_y && lo_x <= ax <= hi_x);
                }
            }
        }
        false
    }
}

// ---------------------------------------------------------------- cutout quality

impl SceneAssetRaster {
    /// A visible light-fringe pixel next to nearly transparent ones.
    pub open spec fn light_edge_at(&self, x: int, y: int) -> bool {
        &&& self.pix_at(x, y)[3] > 0
        &&& self.low_alpha_near(x, y, 2)
        &&& light_fringe(self.pix_at(x, y))
    }

    /// One flag per pixel: it is a light edge.
    pub open spec fn light_edge_flags(&self) -> Seq<bool> {
        Seq::new(
            self.count() as nat,
            |i: int| self.light_edge_at(i % (self.width as int), i / (self.width as int)),
        )
    }

    /// One flag per pixel: alpha is `lo` or more and `hi` or less.
    pub open spec fn alpha_flags(&self, lo: int, hi: int) -> Seq<bool> {
        Seq::new(self.count() as nat, |i: int| lo <= chan(self.data@, i, 3) <= hi)
    }

    /// How clean a cutout is: its fully transparent pixels, its partly
    /// transparent ones, and its light-fringe pixels next to transparency.
    pub fn cutout_quality_report(&self, protected_regions: usize) -> (r: SceneAssetCutoutQualityReport)
        requires
            self.wf(),
        ensures
            r.protected_regions == protected_regions,
            r.transparent_pixels == count_true(self.alpha_flags(0, 0)),
            r.partial_alpha_pixels == count_true(self.alpha_flags(1, 254)),
            r.light_edge_pixels == count_true(self.light_edge_flags()),
    {
        let w = self.width;
        let h = self.height;
        let mut transparent: Vec<bool> = Vec::new();
        let mut partial: Vec<bool> = Vec::new();
        let mut edge: Vec<bool> = Vec::new();
        let mut y: u32 = 0;
        while y < h
            invariant
                self.wf(),
                w == self.width,
                h == self.height,
                y <= h,
                transparent@.len() == y * w,
                transparent@ =~= self.alpha_flags(0, 0).take(y * w),
                partial@ =~= self.alpha_flags(1, 254).take(y * w),
                edge@ =~= self.light_edge_flags().take(y * w),
            decreases h - y,
        {
            let mut x: u32 = 0;
            while x < w
                invariant
                    self.wf(),
                    w == self.width,
                    h == self.height,
                    y < h,
                    x <= w,
                    transparent@.len() == y * w + x,
                    transparent@ =~= self.alpha_flags(0, 0).take(y * w + x),
                    partial@ =~= self.alpha_flags(1, 254).take(y * w + x),
                    edge@ =~= self.light_edge_flags().take(y * w + x),
                decreases w - x,
            {
                let i = self.flat_index(x, y);
                let p = self.pixel(i);
                proof {
                    lemma_index_in_range(w, h, x as int, y as int);
                    lemma_xy_of_index(w, h, i as int);
                    lemma_index_unique(w, (i as int) % (w as int), (i as int) / (w as int), x as int, y as int);
                    assert(self.light_edge_flags()[i as int] == self.light_edge_at(x as int, y as int));
                }
                transparent.push(p[3] == 0);
                partial.push(p[3] > 0 && p[3] < 255);
                let e = p[3] > 0 && self.has_low_alpha_neighbor(x, y, 2) && is_light_fringe_pixel(p);
                edge.push(e);
                x = x + 1;
            }
            proof {
                assert(y * w + w == (y + 1) * w) by (nonlinear_arith);
            }
            y = y + 1;
        }
        proof {
            assert(self.alpha_flags(0, 0).take(h * w) =~= self.alpha_flags(0, 0)) by {
                assert(h * w == w * h) by (nonlinear_arith);
            }
            assert(self.alpha_flags(1, 254).take(h * w) =~= self.alpha_flags(1, 254)) by {
                assert(h * w == w * h) by (nonlinear_arith);
            }
            assert(self.light_edge_flags().take(h * w) =~= self.light_edge_flags()) by {
                assert(h * w == w * h) by (nonlinear_arith);
            }
        }
        SceneAssetCutoutQualityReport {
            protected_regions,
            transparent_pixels: selected_pixel_count(transparent.as_slice()),
            partial_alpha_pixels: selected_pixel_count(partial.as_slice()),
            light_edge_pixels: selected_pixel_count(edge.as_slice()),
        }
    }
}

// ---------------------------------------------------------------- protected regions

/// How many pixels of row `y`, columns `x0` up to `x_end`, differ.
pub open spec fn row_changes(a: Seq<u8>, b: Seq<u8>, width: u32, y: int, x0: int, x_end: int) -> nat
    decreases x_end - x0,
{
    if x_end <= x0 {
        0
    } else {
        row_changes(a, b, width, y, x0, x_end - 1) + if same_pixel(a, index_of(width, x_end - 1, y), b, index_of(width, x_end - 1, y)) {
            0nat
        } else {
            1nat
        }
    }
}

/// How many pixels of rows `y0` up to `y_end`, columns `x0` up to `x_end`,
/// differ.
pub open spec fn rect_changes(a: Seq<u8>, b: Seq<u8>, width: u32, x0: int, x_end: int, y0: int, y_end: int) -> nat
    decreases y_end - y0,
{
    if y_end <= y0 {
        0
    } else {
        rect_changes(a, b, width, x0, x_end, y0, y_end - 1) + row_changes(a, b, width, y_end - 1, x0, x_end)
    }
}

/// The end of a rectangle's span clipped to the image.
pub open spec fn clip_end(start: u32, len: u32, limit: u32) -> int {
    if start + len < limit {
        start + len
    } else {
        limit as int
    }
}

/// How many pixels of `rect` inside the image differ.
pub open spec fn region_changes(a: SceneAssetRaster, b: SceneAssetRaster, rect: SceneAssetPixelRect) -> nat {
    rect_changes(
        a.data@,
        b.data@,
        a.width,
        rect.x as int,
        clip_end(rect.x, rect.w, a.width),
        rect.y as int,
        clip_end(rect.y, rect.h, a.height),
    )
}

proof fn lemma_row_changes_bound(a: Seq<u8>, b: Seq<u8>, width: u32, y: int, x0: int, x_end: int)
    ensures
        row_changes(a, b, width, y, x0, x_end) <= if x_end > x0 { x_end - x0 } else { 0 },
    decreases x_end - x0,
{
    if x_end > x0 {
        lemma_row_changes_bound(a, b, width, y, x0, x_end - 1);
    }
}

/// Counts the differing pixels of one rectangle.
fn count_region_changes(before: &SceneAssetRaster, after: &SceneAssetRaster, rect: SceneAssetPixelRect) -> (n: usize)
    requires
        before.wf(),
        after.wf(),
        before.width == after.width,
        before.height == after.height,
    ensures
        n == region_changes(*before, *after, rect),
        n <= before.count(),
{
    let w = before.width;
    let h = before.height;
    let x_end: u32 = if (rect.x as u64) + (rect.w as u64) < (w as u64) { rect.x + rect.w } else { w };
    let y_end: u32 = if (rect.y as u64) + (rect.h as u64) < (h as u64) { rect.y + rect.h } else { h };
    let len = before.data.len();
    let mut total: usize = 0;
    let mut y: u32 = rect.y;
    while y < y_end
        invariant
            before.wf(),
            after.wf(),
            w * h <= usize::MAX,
            before.width == w,
            after.width == w,
            before.height == h,
            after.height == h,
            x_end <= w,
            y_end <= h,
            x_end == clip_end(rect.x, rect.w, w),
            y_end == clip_end(rect.y, rect.h, h),
            rect.y <= y,
            y <= y_end || y == rect.y,
            total == rect_changes(before.data@, after.data@, w, rect.x as int, x_end as int, rect.y as int, y as int),
            total <= (y - rect.y) * w,
        decreases y_end - y,
    {
        let mut row: usize = 0;
        let mut x: u32 = rect.x;
        while x < x_end
            invariant
                before.wf(),
                after.wf(),
                before.width == w,
                after.width == w,
                before.height == h,
                after.height == h,
                x_end <= w,
                y < y_end <= h,
                rect.x <= x,
                x <= x_end || x == rect.x,
                row == row_changes(before.data@, after.data@, w, y as int, rect.x as int, x as int),
                row <= x - rect.x,
            decreases x_end - x,
        {
            let i = before.flat_index(x, y);
            let p = before.pixel(i);
            let q = after.pixel(i);
            if !(p[0] == q[0] && p[1] == q[1] && p[2] == q[2] && p[3] == q[3]) {
                row = row + 1;
            }
            x = x + 1;
        }
        proof {
            lemma_row_changes_bound(before.data@, after.data@, w, y as int, rect.x as int, x_end as int);
            if x_end <= rect.x {
                assert(row_changes(before.data@, after.data@, w, y as int, rect.x as int, x as int) == 0);
            }
            assert((y - rect.y) * w + w == (y + 1 - rect.y) * w) by (nonlinear_arith);
            assert((y + 1 - rect.y) * w <= h * w) by (nonlinear_arith)
                requires
                    y + 1 <= h,
                    rect.y <= y;
            assert(h * w == w * h) by (nonlinear_arith);
            assert(row <= w);
        }
        total = total + row;
        y = y + 1;
    }
    proof {
        if y_end <= rect.y {
            assert(rect_changes(before.data@, after.data@, w, rect.x as int, x_end as int, rect.y as int, y as int) == 0);
        }
        assert((y - rect.y) * w <= h * w) by (nonlinear_arith)
            requires
                y <= h || y == rect.y,
                rect.y <= y;
        assert(h * w == w * h) by (nonlinear_arith);
    }
    total
}

/// The changes of each named rectangle that changed, in order.
pub open spec fn changed_regions_of(a: SceneAssetRaster, b: SceneAssetRaster, regions: Seq<(String, SceneAssetPixelRect)>) -> Seq<(Seq<char>, nat)>
    decreases regions.len(),
{
    if regions.len() == 0 {
        seq![]
    } else {
        let rest = changed_regions_of(a, b, regions.drop_last());
        let n = region_changes(a, b, regions.last().1);
        if n > 0 {
            rest.push((regions.last().0@, n))
        } else {
            rest
        }
    }
}

/// The changed pixels of all the rectangles together.
pub open spec fn total_region_changes(a: SceneAssetRaster, b: SceneAssetRaster, regions: Seq<(String, SceneAssetPixelRect)>) -> nat
    decreases regions.len(),
{
    if regions.len() == 0 {
        0
    } else {
        total_region_changes(a, b, regions.drop_last()) + region_changes(a, b, regions.last().1)
    }
}

pub open spec fn protected_size_message(bw: u32, bh: u32, aw: u32, ah: u32) -> Seq<char> {
    "protected-region compare dimensions differ: "@ + dec(bw as nat) + "x"@ + dec(bh as nat) + " vs "@ + dec(aw as nat)
        + "x"@ + dec(ah as nat)
}

/// Compares two rasters inside named rectangles (already mapped to
/// pixels): the changed pixels in all of them, and each rectangle that
/// changed with its count. Rasters of different sizes are an error.
pub fn compare_protected_rects(
    before: &SceneAssetRaster,
    after: &SceneAssetRaster,
    regions: &[(String, SceneAssetPixelRect)],
) -> (r: Result<SceneAssetProtectedRegionReport, SceneAssetEditError>)
    requires
        before.wf(),
        after.wf(),
        regions@.len() * before.count() <= usize::MAX,
    ensures
        (before.width != after.width || before.height != after.height) ==> (r matches Err(
            SceneAssetEditError::InvalidOperation(m),
        ) && m@ == protected_size_message(before.width, before.height, after.width, after.height)),
        (before.width == after.width && before.height == after.height) ==> (r matches Ok(report) && {
            &&& report.checked_regions@.map_values(|n: String| n@) == regions@.map_values(
                |e: (String, SceneAssetPixelRect)| e.0@,
            )
            &&& report.changed_pixels == total_region_changes(*before, *after, regions@)
            &&& report.changed_regions@.map_values(|c: SceneAssetProtectedRegionChange| (c.region@, c.changed_pixels as nat))
                == changed_regions_of(*before, *after, regions@)
        }),
{
    if before.width != after.width || before.height != after.height {
        let mut m = String::from_str("protected-region compare dimensions differ: ");
        m.append(&u32_text(before.width));
        m.append("x");
        m.append(&u32_text(before.height));
        m.append(" vs ");
        m.append(&u32_text(after.width));
        m.append("x");
        m.append(&u32_text(after.height));
        return Err(SceneAssetEditError::InvalidOperation(m));
    }
    let mut checked: Vec<String> = Vec::new();
    let mut changed: Vec<SceneAssetProtectedRegionChange> = Vec::new();
    let mut total: usize = 0;
    let mut k: usize = 0;
    while k < regions.len()
        invariant
            before.wf(),
            after.wf(),
            before.width == after.width,
            before.height == after.height,
            regions@.len() * before.count() <= usize::MAX,
            k <= regions@.len(),
            checked@.map_values(|n: String| n@) =~= regions@.take(k as int).map_values(
                |e: (String, SceneAssetPixelRect)| e.0@,
            ),
            total == total_region_changes(*before, *after, regions@.take(k as int)),
            total <= k * before.count(),
            changed@.map_values(|c: SceneAssetProtectedRegionChange| (c.region@, c.changed_pixels as nat))
                == changed_regions_of(*before, *after, regions@.take(k as int)),
        decreases regions.len() - k,
    {
        let name = regions[k].0.clone();
        let rect = regions[k].1;
        let n = count_region_changes(before, after, rect);
        proof {
            assert(regions@.take(k + 1).drop_last() =~= regions@.take(k as int));
            assert(k * before.count() + before.count() == (k + 1) * before.count()) by (nonlinear_arith);
            assert((k + 1) * before.count() <= regions@.len() * before.count()) by (nonlinear_arith)
                requires
                    k + 1 <= regions@.len(),
                    before.count() >= 0;
        }
        let ghost checked_before = checked@;
        checked.push(name.clone());
        proof {
            assert(checked@.map_values(|x: String| x@) =~= checked_before.map_values(|x: String| x@).push(name@));
        }
        total = total + n;
        if n > 0 {
            let ghost changed_before = changed@;
            changed.push(SceneAssetProtectedRegionChange { region: name, changed_pixels: n });
            proof {
                assert(changed@.map_values(|c: SceneAssetProtectedRegionChange| (c.region@, c.changed_pixels as nat))
                    =~= changed_before.map_values(
                    |c: SceneAssetProtectedRegionChange| (c.region@, c.changed_pixels as nat),
                ).push((regions@[k as int].0@, n as nat)));
            }
        }
        k = k + 1;
    }
    proof {
        assert(regions@.take(regions@.len() as int) =~= regions@);
    }
    Ok(SceneAssetProtectedRegionReport { checked_regions: checked, changed_pixels: total, changed_regions: changed })
}

/// Exporting a mask as an image and reading that image back as a mask of
/// the same size gives the mask that was exported: white pixels read as
/// selected and opaque black ones as not.
pub proof fn law_mask_export_round_trip(mask: SceneAssetMask, image: SceneAssetRaster, back: SceneAssetMask)
    requires
        mask.wf(),
        image.wf(),
        image.width == mask.width,
        image.height == mask.height,
        forall|i: int|
            0 <= i < image.count() ==> #[trigger] image.pix(i) == (if mask.pixels@[i] {
                seq![255u8, 255u8, 255u8, 255u8]
            } else {
                seq![0u8, 0u8, 0u8, 255u8]
            }),
        back.wf(),
        back.width == image.width,
        back.height == image.height,
        forall|i: int| 0 <= i < image.count() ==> #[trigger] back.pixels@[i] == mask_pixel_selected(image.pix(i)),
    ensures
        back.pixels@ == mask.pixels@,
{
    assert forall|i: int| 0 <= i < mask.pixels@.len() implies back.pixels@[i] == mask.pixels@[i] by {
        assert(back.pixels@[i] == mask_pixel_selected(image.pix(i)));
        if mask.pixels@[i] {
            assert(image.pix(i) == seq![255u8, 255u8, 255u8, 255u8]);
            assert(rgb_average(image.pix(i)) == 255);
        } else {
            assert(image.pix(i) == seq![0u8, 0u8, 0u8, 255u8]);
            assert(rgb_average(image.pix(i)) == 0);
        }
    }
}

/// Fewer flags set pointwise, no more counted.
pub proof fn lemma_count_true_monotone(a: Seq<bool>, b: Seq<bool>)
    requires
        a.len() == b.len(),
        forall|i: int| 0 <= i < a.len() && #[trigger] a[i] ==> b[i],
    ensures
        count_true(a) <= count_true(b),
    decreases a.len(),
{
    if a.len() > 0 {
        lemma_count_true_monotone(a.drop_last(), b.drop_last());
    }
}

/// A count of set flags is positive exactly when some flag is set.
pub proof fn lemma_count_true_positive(a: Seq<bool>)
    ensures
        count_true(a) > 0 <==> exists|i: int| 0 <= i < a.len() && #[trigger] a[i],
    decreases a.len(),
{
    if a.len() > 0 {
        lemma_count_true_positive(a.drop_last());
        if exists|i: int| 0 <= i < a.drop_last().len() && #[trigger] a.drop_last()[i] {
            let i = choose|i: int| 0 <= i < a.drop_last().len() && #[trigger] a.drop_last()[i];
            assert(a[i]);
        }
        if exists|i: int| 0 <= i < a.len() && #[trigger] a[i] {
            let i = choose|i: int| 0 <= i < a.len() && #[trigger] a[i];
            if i < a.len() - 1 {
                assert(a.drop_last()[i]);
            }
        }
    }
}

/// What a comparison counts holds together: no more pixels change alpha
/// than change at all, there are change bounds exactly when the rasters
/// have the same size and some pixel changed, and identical rasters show no
/// change.
pub proof fn law_compare_counts_agree(before: SceneAssetRaster, after: SceneAssetRaster, d: SceneAssetPixelDiff)
    requires
        before.wf(),
        after.wf(),
        d.same_dimensions == (before.width == after.width && before.height == after.height),
        !d.same_dimensions ==> {
            &&& d.changed_pixels == (if before.count() >= after.count() { before.count() } else { after.count() })
            &&& d.alpha_changed_pixels == 0
            &&& d.changed_bounds is None
        },
        d.same_dimensions ==> {
            &&& d.changed_pixels == count_true(changed_flags(before.data@, after.data@, before.count()))
            &&& d.alpha_changed_pixels == count_true(alpha_changed_flags(before.data@, after.data@, before.count()))
            &&& selection_bounds(before.width, before.height, changed_flags(before.data@, after.data@, before.count()), d.changed_bounds)
        },
    ensures
        d.alpha_changed_pixels <= d.changed_pixels,
        d.changed_bounds is Some <==> (d.same_dimensions && d.changed_pixels > 0),
        before.width == after.width && before.height == after.height && before.data@ == after.data@ ==> d.changed_pixels == 0
            && d.alpha_changed_pixels == 0 && d.changed_bounds is None,
{
    if d.same_dimensions {
        let n = before.count();
        let c = changed_flags(before.data@, after.data@, n);
        let a = alpha_changed_flags(before.data@, after.data@, n);
        assert forall|i: int| 0 <= i < a.len() && #[trigger] a[i] implies c[i] by {
            if same_pixel(before.data@, i, after.data@, i) {
                assert(chan(before.data@, i, 3) == chan(after.data@, i, 3));
            }
        }
        lemma_count_true_monotone(a, c);
        lemma_count_true_positive(c);
        if before.data@ == after.data@ {
            assert forall|i: int| 0 <= i < c.len() implies !#[trigger] c[i] by {
                assert(same_pixel(before.data@, i, after.data@, i));
            }
        }
        if d.changed_pixels > 0 {
            let i = choose|i: int| 0 <= i < c.len() && #[trigger] c[i];
            lemma_xy_of_index(before.width, before.height, i);
            let x = i % (before.width as int);
            let y = i / (before.width as int);
            assert(px(c, before.width, x, y));
        }
        if d.changed_bounds is Some {
            let (x, y) = choose|x: int, y: int|
                #![trigger px(c, before.width, x, y)]
                in_bounds(before.width, before.height, x, y) && px(c, before.width, x, y);
            lemma_index_in_range(before.width, before.height, x, y);
            assert(c[index_of(before.width, x, y)]);
        }
    }
}

/// A pixel matches a sample exactly when each of red, green and blue
/// differs from the sample's by at most the tolerance; alpha plays no part.
/// So a pixel that differs from the sample in one colour channel by more
/// than the tolerance never matches.
pub proof fn law_colour_match_is_within_tolerance_per_channel(p: Seq<u8>, s: Seq<u8>, tolerance: u8, alpha: u8)
    requires
        p.len() == 4,
        s.len() == 4,
    ensures
        color_close(p, s, tolerance) <==> forall|k: int|
            0 <= k < 3 ==> -(tolerance as int) <= #[trigger] p[k] - s[k] <= tolerance as int,
        color_close(p, s, tolerance) == color_close(p.update(3, alpha), s, tolerance),
        color_close(p, s, tolerance) ==> p[0] - s[0] <= tolerance && s[0] - p[0] <= tolerance
            && p[1] - s[1] <= tolerance && s[1] - p[1] <= tolerance
            && p[2] - s[2] <= tolerance && s[2] - p[2] <= tolerance,
{
    let q = p.update(3, alpha);
    assert(q[0] == p[0] && q[1] == p[1] && q[2] == p[2]);
    if forall|k: int| 0 <= k < 3 ==> -(tolerance as int) <= #[trigger] p[k] - s[k] <= tolerance as int {
        assert(-(tolerance as int) <= p[0] - s[0] <= tolerance as int);
        assert(-(tolerance as int) <= p[1] - s[1] <= tolerance as int);
        assert(-(tolerance as int) <= p[2] - s[2] <= tolerance as int);
    }
}

/// A pixel counts as changed exactly when one of its four bytes differs,
/// and as alpha-changed exactly when its fourth byte does.
pub proof fn law_changed_pixels_are_those_with_a_differing_byte(a: Seq<u8>, b: Seq<u8>, n: int, i: int)
    requires
        0 <= i < n,
    ensures
        changed_flags(a, b, n)[i] <==> exists|k: int| 0 <= k < 4 && #[trigger] a[4 * i + k] != b[4 * i + k],
        alpha_changed_flags(a, b, n)[i] <==> a[4 * i + 3] != b[4 * i + 3],
{
    if exists|k: int| 0 <= k < 4 && #[trigger] a[4 * i + k] != b[4 * i + k] {
        let k = choose|k: int| 0 <= k < 4 && #[trigger] a[4 * i + k] != b[4 * i + k];
        assert(k == 0 || k == 1 || k == 2 || k == 3);
    }
    if changed_flags(a, b, n)[i] {
        if a[4 * i + 0] != b[4 * i + 0] {
            assert(a[4 * i + 0] != b[4 * i + 0]);
        } else if a[4 * i + 1] != b[4 * i + 1] {
            assert(a[4 * i + 1] != b[4 * i + 1]);
        } else if a[4 * i + 2] != b[4 * i + 2] {
            assert(a[4 * i + 2] != b[4 * i + 2]);
        } else {
            assert(a[4 * i + 3] != b[4 * i + 3]);
        }
    }
}

} // verus!
