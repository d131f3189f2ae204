//! Selection masks over an image: one flag per pixel in row-major order,
//! with set operations, morphology (erosion, dilation, opening, closing),
//! rectangle edits and cleanup of small components and holes.

use vstd::prelude::*;

verus! {

/// A pixel rectangle; its far edges saturate at the top of `u32`.
#[derive(Debug, Clone, Copy, PartialEq, Eq, Structural)]
pub struct SceneAssetPixelRect {
    pub x: u32,
    pub y: u32,
    pub w: u32,
    pub h: u32,
}

pub open spec fn sat_add_u32(a: u32, b: u32) -> u32 {
    if a + b > u32::MAX { u32::MAX } else { (a + b) as u32 }
}

impl SceneAssetPixelRect {
    /// The column just past the rectangle.
    pub fn right(self) -> (r: u32)
        ensures
            r == sat_add_u32(self.x, self.w),
    {
        self.x.saturating_add(self.w)
    }

    /// The row just past the rectangle.
    pub fn bottom(self) -> (r: u32)
        ensures
            r == sat_add_u32(self.y, self.h),
    {
        self.y.saturating_add(self.h)
    }
}

#[derive(Debug, Clone)]
pub struct SceneAssetMask {
    pub width: u32,
    pub height: u32,
    pub pixels: Vec<bool>,
}

/// The flat index of pixel `(x, y)`.
pub open spec fn index_of(width: u32, x: int, y: int) -> int {
    y * width + x
}

/// The flag at pixel `(x, y)`.
pub open spec fn px(p: Seq<bool>, width: u32, x: int, y: int) -> bool {
    p[index_of(width, x, y)]
}

pub open spec fn in_bounds(width: u32, height: u32, x: int, y: int) -> bool {
    0 <= x < width && 0 <= y < height
}

/// `(nx, ny)` lies within `r` of `(x, y)` on both axes.
pub open spec fn near(x: int, y: int, nx: int, ny: int, r: int) -> bool {
    x - r <= nx <= x + r && y - r <= ny <= y + r
}

/// Erosion keeps a selected pixel only when every pixel of its window that
/// lies inside the image is selected.
pub open spec fn eroded_px(p: Seq<bool>, width: u32, height: u32, r: int, x: int, y: int) -> bool {
    px(p, width, x, y) && forall|nx: int, ny: int|
        #![trigger px(p, width, nx, ny)]
        near(x, y, nx, ny, r) && in_bounds(width, height, nx, ny) ==> px(p, width, nx, ny)
}

/// Dilation selects a pixel when some pixel of its window inside the image
/// is selected.
pub open spec fn dilated_px(p: Seq<bool>, width: u32, height: u32, r: int, x: int, y: int) -> bool {
    exists|nx: int, ny: int|
        #![trigger px(p, width, nx, ny)]
        near(x, y, nx, ny, r) && in_bounds(width, height, nx, ny) && px(p, width, nx, ny)
}

pub open spec fn erosion(p: Seq<bool>, width: u32, height: u32, r: int) -> spec_fn(int, int) -> bool {
    |x: int, y: int| eroded_px(p, width, height, r, x, y)
}

pub open spec fn dilation(p: Seq<bool>, width: u32, height: u32, r: int) -> spec_fn(int, int) -> bool {
    |x: int, y: int| dilated_px(p, width, height, r, x, y)
}

/// `q` holds, at every pixel, what `f` says of that pixel.
pub open spec fn pixelwise(q: Seq<bool>, width: u32, height: u32, f: spec_fn(int, int) -> bool) -> bool {
    &&& q.len() == width * height
    &&& forall|x: int, y: int|
        #![trigger px(q, width, x, y)]
        in_bounds(width, height, x, y) ==> px(q, width, x, y) == f(x, y)
}

/// How many flags are set.
pub open spec fn count_true(p: Seq<bool>) -> nat
    decreases p.len(),
{
    if p.len() == 0 {
        0
    } else {
        count_true(p.drop_last()) + if p.last() { 1nat } else { 0nat }
    }
}

pub proof fn lemma_index_in_range(width: u32, height: u32, x: int, y: int)
    requires
        in_bounds(width, height, x, y),
    ensures
        0 <= index_of(width, x, y) < width * height,
{
    assert(y * width + x < width * height) by (nonlinear_arith)
        requires
            0 <= x < width,
            0 <= y < height,
    ;
    assert(0 <= y * width) by (nonlinear_arith)
        requires
            0 <= y,
            0 <= width,
    ;
}

pub proof fn lemma_index_unique(width: u32, x1: int, y1: int, x2: int, y2: int)
    requires
        0 <= x1 < width,
        0 <= x2 < width,
        0 <= y1,
        0 <= y2,
        index_of(width, x1, y1) == index_of(width, x2, y2),
    ensures
        x1 == x2 && y1 == y2,
{
    if y1 < y2 {
        assert(y1 * width + x1 < y2 * width + x2) by (nonlinear_arith)
            requires
                0 <= x1 < width,
                0 <= x2,
                y1 < y2,
        ;
    } else if y2 < y1 {
        assert(y2 * width + x2 < y1 * width + x1) by (nonlinear_arith)
            requires
                0 <= x2 < width,
                0 <= x1,
                y2 < y1,
        ;
    }
}

/// Every flat index is the index of the pixel `index_to_xy` names.
pub proof fn lemma_xy_of_index(width: u32, height: u32, i: int)
    requires
        0 <= i < width * height,
    ensures
        in_bounds(width, height, i % (width as int), i / (width as int)),
        index_of(width, i % (width as int), i / (width as int)) == i,
{
    assert(width > 0) by (nonlinear_arith)
        requires
            0 <= i < width * height,
            width >= 0,
            height >= 0,
    ;
    assert(i / (width as int) < height) by (nonlinear_arith)
        requires
            0 <= i < width * height,
            width > 0,
    ;
    assert((i / (width as int)) * width + i % (width as int) == i) by (nonlinear_arith)
        requires
            width > 0,
    ;
}

/// The flat index of pixel `(x, y)` in a mask `width` wide.
pub fn mask_index(width: u32, x: u32, y: u32) -> (i: usize)
    requires
        y as int * width as int + x as int <= usize::MAX,
    ensures
        i == index_of(width, x as int, y as int),
{
    (y as usize) * (width as usize) + (x as usize)
}

/// The pixel at flat index `index` in a mask `width` wide.
pub fn mask_xy(width: u32, index: usize) -> (r: (u32, u32))
    requires
        width > 0,
        (index as int) / (width as int) <= u32::MAX,
    ensures
        r.0 == (index as int) % (width as int),
        r.1 == (index as int) / (width as int),
{
    ((index % (width as usize)) as u32, (index / (width as usize)) as u32)
}

/// The pixels left, above, right and below `(x, y)` that lie in the image,
/// in that order.
pub open spec fn neighbor_seq(width: u32, height: u32, x: u32, y: u32) -> Seq<(u32, u32)> {
    seq![(0u32, 0u32); 0] + (if x > 0 { seq![((x - 1) as u32, y)] } else { seq![] }) + (
    if y > 0 { seq![(x, (y - 1) as u32)] } else { seq![] }) + (if x + 1 < width {
        seq![((x + 1) as u32, y)]
    } else {
        seq![]
    }) + (if y + 1 < height { seq![(x, (y + 1) as u32)] } else { seq![] })
}

/// `(nx, ny)` is one step left, right, up or down from `(x, y)`.
pub open spec fn adjacent(x: int, y: int, nx: int, ny: int) -> bool {
    ||| (x == nx && (y + 1 == ny || ny + 1 == y))
    ||| (y == ny && (x + 1 == nx || nx + 1 == x))
}

/// The neighbour list holds exactly the in-image pixels next to `(x, y)`.
pub proof fn lemma_neighbor_seq(width: u32, height: u32, x: u32, y: u32)
    requires
        x < width,
        y < height,
    ensures
        forall|k: int| 0 <= k < neighbor_seq(width, height, x, y).len() ==> {
            let q = #[trigger] neighbor_seq(width, height, x, y)[k];
            in_bounds(width, height, q.0 as int, q.1 as int) && adjacent(x as int, y as int, q.0 as int, q.1 as int)
        },
        forall|nx: int, ny: int|
            in_bounds(width, height, nx, ny) && #[trigger] adjacent(x as int, y as int, nx, ny) ==> exists|k: int|
                0 <= k < neighbor_seq(width, height, x, y).len() && #[trigger] neighbor_seq(width, height, x, y)[k] == (
                nx as u32,
                ny as u32,
            ),
{
    let s = neighbor_seq(width, height, x, y);
    let a = if x > 0 { seq![((x - 1) as u32, y)] } else { seq![] };
    let b = if y > 0 { seq![(x, (y - 1) as u32)] } else { seq![] };
    let c = if x + 1 < width { seq![((x + 1) as u32, y)] } else { seq![] };
    let d = if y + 1 < height { seq![(x, (y + 1) as u32)] } else { seq![] };
    assert(s =~= a + b + c + d);
    assert forall|nx: int, ny: int|
        in_bounds(width, height, nx, ny) && #[trigger] adjacent(x as int, y as int, nx, ny) implies exists|k: int|
            0 <= k < s.len() && #[trigger] s[k] == (nx as u32, ny as u32) by {
        if nx + 1 == x && ny == y {
            assert(s[0] == (nx as u32, ny as u32));
        } else if ny + 1 == y && nx == x {
            assert(s[a.len() as int] == (nx as u32, ny as u32));
        } else if nx == x + 1 && ny == y {
            assert(s[(a.len() + b.len()) as int] == (nx as u32, ny as u32));
        } else {
            assert(s[(a.len() + b.len() + c.len()) as int] == (nx as u32, ny as u32));
        }
    }
}

/// The point lies in the image and may be selected.
pub open spec fn seed_ok(width: u32, height: u32, allowed: Seq<bool>, p: (u32, u32)) -> bool {
    in_bounds(width, height, p.0 as int, p.1 as int) && px(allowed, width, p.0 as int, p.1 as int)
}

/// Entry `k` of `order` is a selected, allowed pixel that is a seed or lies
/// next to the earlier entry `parent[k]`.
pub open spec fn grown_step(
    width: u32,
    height: u32,
    seeds: Seq<(u32, u32)>,
    allowed: Seq<bool>,
    sel: Seq<bool>,
    order: Seq<(u32, u32)>,
    parent: Seq<int>,
    k: int,
) -> bool {
    let p = order[k];
    &&& in_bounds(width, height, p.0 as int, p.1 as int)
    &&& px(sel, width, p.0 as int, p.1 as int)
    &&& px(allowed, width, p.0 as int, p.1 as int)
    &&& ((parent[k] == -1 && seeds.contains(p)) || (0 <= parent[k] < k && adjacent(
        order[parent[k]].0 as int,
        order[parent[k]].1 as int,
        p.0 as int,
        p.1 as int,
    )))
}

/// `order` lists every selected pixel, each reached from a seed through a
/// chain of earlier entries that are 4-neighbours.
pub open spec fn grown_from(
    width: u32,
    height: u32,
    seeds: Seq<(u32, u32)>,
    allowed: Seq<bool>,
    sel: Seq<bool>,
    order: Seq<(u32, u32)>,
    parent: Seq<int>,
) -> bool {
    &&& parent.len() == order.len()
    &&& forall|k: int| 0 <= k < order.len() ==> #[trigger] grown_step(width, height, seeds, allowed, sel, order, parent, k)
    &&& forall|x: int, y: int|
        in_bounds(width, height, x, y) && #[trigger] px(sel, width, x, y) ==> exists|k: int|
            0 <= k < order.len() && #[trigger] order[k] == (x as u32, y as u32)
}

/// `sel` is the region grown from the allowed seeds through allowed
/// 4-neighbours: it holds those seeds, is closed under stepping to an
/// allowed neighbour, and holds nothing that such steps do not reach.
pub open spec fn flood_region(width: u32, height: u32, seeds: Seq<(u32, u32)>, allowed: Seq<bool>, sel: Seq<bool>) -> bool {
    &&& sel.len() == width * height
    &&& forall|k: int|
        0 <= k < seeds.len() && #[trigger] seed_ok(width, height, allowed, seeds[k]) ==> px(
            sel,
            width,
            seeds[k].0 as int,
            seeds[k].1 as int,
        )
    &&& forall|x: int, y: int, nx: int, ny: int|
        #![trigger adjacent(x, y, nx, ny), px(sel, width, x, y)]
        in_bounds(width, height, x, y) && in_bounds(width, height, nx, ny) && adjacent(x, y, nx, ny) && px(sel, width, x, y)
            && px(allowed, width, nx, ny) ==> px(sel, width, nx, ny)
    &&& exists|order: Seq<(u32, u32)>, parent: Seq<int>| grown_from(width, height, seeds, allowed, sel, order, parent)
}

proof fn lemma_order_prefix_in(
    width: u32,
    height: u32,
    seeds: Seq<(u32, u32)>,
    allowed: Seq<bool>,
    a: Seq<bool>,
    b: Seq<bool>,
    order: Seq<(u32, u32)>,
    parent: Seq<int>,
    k: int,
)
    requires
        0 <= k <= order.len(),
        grown_from(width, height, seeds, allowed, a, order, parent),
        flood_region(width, height, seeds, allowed, b),
    ensures
        forall|j: int| 0 <= j < k ==> px(b, width, (#[trigger] order[j]).0 as int, order[j].1 as int),
    decreases k,
{
    if k > 0 {
        lemma_order_prefix_in(width, height, seeds, allowed, a, b, order, parent, k - 1);
        let j = k - 1;
        assert(grown_step(width, height, seeds, allowed, a, order, parent, j));
        let p = order[j];
        if parent[j] == -1 && seeds.contains(p) {
            let s = choose|s: int| 0 <= s < seeds.len() && seeds[s] == p;
            assert(seed_ok(width, height, allowed, seeds[s]));
        } else {
            let q = order[parent[j]];
            assert(px(b, width, q.0 as int, q.1 as int));
            assert(in_bounds(width, height, q.0 as int, q.1 as int)) by {
                assert(grown_step(width, height, seeds, allowed, a, order, parent, parent[j]));
            }
            assert(adjacent(q.0 as int, q.1 as int, p.0 as int, p.1 as int));
        }
    }
}

/// Every pixel of one grown region lies in any other region grown from the
/// same seeds through the same allowed pixels.
proof fn lemma_flood_within(width: u32, height: u32, seeds: Seq<(u32, u32)>, allowed: Seq<bool>, a: Seq<bool>, b: Seq<bool>)
    requires
        flood_region(width, height, seeds, allowed, a),
        flood_region(width, height, seeds, allowed, b),
    ensures
        forall|x: int, y: int| in_bounds(width, height, x, y) && #[trigger] px(a, width, x, y) ==> px(b, width, x, y),
{
    let (order, parent) = choose|order: Seq<(u32, u32)>, parent: Seq<int>| grown_from(width, height, seeds, allowed, a, order, parent);
    lemma_order_prefix_in(width, height, seeds, allowed, a, b, order, parent, order.len() as int);
    assert forall|x: int, y: int| in_bounds(width, height, x, y) && #[trigger] px(a, width, x, y) implies px(b, width, x, y) by {
        let k = choose|k: int| 0 <= k < order.len() && #[trigger] order[k] == (x as u32, y as u32);
        assert(px(b, width, order[k].0 as int, order[k].1 as int));
    }
}

/// A grown region is determined by its image size, seeds and allowed
/// pixels: two regions grown from the same seeds through the same allowed
/// pixels are equal.
pub proof fn law_flood_region_unique(
    width: u32,
    height: u32,
    seeds: Seq<(u32, u32)>,
    allowed: Seq<bool>,
    a: Seq<bool>,
    b: Seq<bool>,
)
    requires
        flood_region(width, height, seeds, allowed, a),
        flood_region(width, height, seeds, allowed, b),
    ensures
        a == b,
{
    lemma_flood_within(width, height, seeds, allowed, a, b);
    lemma_flood_within(width, height, seeds, allowed, b, a);
    assert forall|i: int| 0 <= i < a.len() implies a[i] == b[i] by {
        lemma_xy_of_index(width, height, i);
        let x = i % (width as int);
        let y = i / (width as int);
        assert(px(a, width, x, y) == a[i]);
        assert(px(b, width, x, y) == b[i]);
    }
    assert(a =~= b);
}

/// Only allowed pixels are selected by a grown region.
pub proof fn law_flood_region_allowed(width: u32, height: u32, seeds: Seq<(u32, u32)>, allowed: Seq<bool>, sel: Seq<bool>)
    requires
        flood_region(width, height, seeds, allowed, sel),
    ensures
        forall|x: int, y: int| in_bounds(width, height, x, y) && #[trigger] px(sel, width, x, y) ==> px(allowed, width, x, y),
{
    let (order, parent) = choose|order: Seq<(u32, u32)>, parent: Seq<int>| grown_from(width, height, seeds, allowed, sel, order, parent);
    assert forall|x: int, y: int| in_bounds(width, height, x, y) && #[trigger] px(sel, width, x, y) implies px(allowed, width, x, y) by {
        let k = choose|k: int| 0 <= k < order.len() && #[trigger] order[k] == (x as u32, y as u32);
        assert(grown_step(width, height, seeds, allowed, sel, order, parent, k));
    }
}

pub fn mask_neighbors(width: u32, height: u32, x: u32, y: u32) -> (r: Vec<(u32, u32)>)
    ensures
        x < width && y < height ==> forall|k: int| 0 <= k < r@.len() ==> (#[trigger] r@[k]).0 < width && r@[k].1 < height,
        r@ == neighbor_seq(width, height, x, y),
{
    let mut r: Vec<(u32, u32)> = Vec::new();
    let ghost s0 = r@;
    if x > 0 {
        r.push((x - 1, y));
    }
    let ghost s1 = r@;
    if y > 0 {
        r.push((x, y - 1));
    }
    let ghost s2 = r@;
    if x < width && x + 1 < width {
        r.push((x + 1, y));
    }
    let ghost s3 = r@;
    if y < height && y + 1 < height {
        r.push((x, y + 1));
    }
    proof {
        assert(r@ =~= seq![(0u32, 0u32); 0] + (if x > 0 { seq![((x - 1) as u32, y)] } else { seq![] })
            + (if y > 0 { seq![(x, (y - 1) as u32)] } else { seq![] }) + (if x + 1 < width {
            seq![((x + 1) as u32, y)]
        } else {
            seq![]
        }) + (if y + 1 < height { seq![(x, (y + 1) as u32)] } else { seq![] }));
    }
    r
}

/// How many flags are set.
pub fn selected_pixel_count(mask: &[bool]) -> (n: usize)
    ensures
        n == count_true(mask@),
{
    let mut n: usize = 0;
    let mut i: usize = 0;
    while i < mask.len()
        invariant
            i <= mask@.len(),
            n == count_true(mask@.take(i as int)),
            n <= i,
        decreases mask.len() - i,
    {
        proof {
            assert(mask@.take(i + 1).drop_last() =~= mask@.take(i as int));
        }
        if mask[i] {
            n = n + 1;
        }
        i = i + 1;
    }
    proof {
        assert(mask@.take(mask@.len() as int) =~= mask@);
    }
    n
}

impl SceneAssetMask {
    /// The mask is as large as its image.
    pub open spec fn wf(&self) -> bool {
        self.pixels@.len() == self.width * self.height
    }

    pub fn from_pixels(width: u32, height: u32, pixels: Vec<bool>) -> (m: Self)
        requires
            pixels@.len() == width * height,
        ensures
            m.width == width,
            m.height == height,
            m.pixels@ == pixels@,
            m.wf(),
    {
        SceneAssetMask { width, height, pixels }
    }

    pub fn pixels(&self) -> (p: &[bool])
        ensures
            p@ == self.pixels@,
    {
        self.pixels.as_slice()
    }

    pub fn len(&self) -> (n: usize)
        ensures
            n == self.pixels@.len(),
    {
        self.pixels.len()
    }

    pub fn selected_count(&self) -> (n: usize)
        ensures
            n == count_true(self.pixels@),
    {
        selected_pixel_count(self.pixels.as_slice())
    }

    pub(crate) fn copy(&self) -> (m: Self)
        ensures
            m.width == self.width,
            m.height == self.height,
            m.pixels@ == self.pixels@,
    {
        SceneAssetMask { width: self.width, height: self.height, pixels: self.pixels.clone() }
    }

    /// Adds the pixels selected in `pixels`; a list of another size is
    /// ignored.
    pub fn union_pixels(&mut self, pixels: &[bool])
        ensures
            final(self).width == old(self).width,
            final(self).height == old(self).height,
            pixels@.len() != old(self).pixels@.len() ==> final(self).pixels@ == old(self).pixels@,
            pixels@.len() == old(self).pixels@.len() ==> final(self).pixels@ == Seq::new(
                pixels@.len(),
                |i: int| old(self).pixels@[i] || pixels@[i],
            ),
    {
        if pixels.len() != self.pixels.len() {
            return;
        }
        let mut i: usize = 0;
        while i < pixels.len()
            invariant
                pixels@.len() == old(self).pixels@.len(),
                self.pixels@.len() == pixels@.len(),
                self.width == old(self).width,
                self.height == old(self).height,
                i <= pixels@.len(),
                forall|k: int|
                    0 <= k < pixels@.len() ==> #[trigger] self.pixels@[k] == (if k < i {
                        old(self).pixels@[k] || pixels@[k]
                    } else {
                        old(self).pixels@[k]
                    }),
            decreases pixels.len() - i,
        {
            let v = self.pixels[i] || pixels[i];
            let ghost pre = self.pixels@;
            self.pixels.set(i, v);
            proof {
                assert(self.pixels@ == pre.update(i as int, v));
            }
            i = i + 1;
        }
        proof {
            assert(self.pixels@ =~= Seq::new(
                pixels@.len(),
                |i: int| old(self).pixels@[i] || pixels@[i],
            ));
        }
    }

    /// Keeps only the pixels also selected in `pixels`; a list of another
    /// size is ignored.
    pub fn intersect_pixels(&mut self, pixels: &[bool])
        ensures
            final(self).width == old(self).width,
            final(self).height == old(self).height,
            pixels@.len() != old(self).pixels@.len() ==> final(self).pixels@ == old(self).pixels@,
            pixels@.len() == old(self).pixels@.len() ==> final(self).pixels@ == Seq::new(
                pixels@.len(),
                |i: int| old(self).pixels@[i] && pixels@[i],
            ),
    {
        if pixels.len() != self.pixels.len() {
            return;
        }
        let mut i: usize = 0;
        while i < pixels.len()
            invariant
                pixels@.len() == old(self).pixels@.len(),
                self.pixels@.len() == pixels@.len(),
                self.width == old(self).width,
                self.height == old(self).height,
                i <= pixels@.len(),
                forall|k: int|
                    0 <= k < pixels@.len() ==> #[trigger] self.pixels@[k] == (if k < i {
                        old(self).pixels@[k] && pixels@[k]
                    } else {
                        old(self).pixels@[k]
                    }),
            decreases pixels.len() - i,
        {
            let v = self.pixels[i] && pixels[i];
            let ghost pre = self.pixels@;
            self.pixels.set(i, v);
            proof {
                assert(self.pixels@ == pre.update(i as int, v));
            }
            i = i + 1;
        }
        proof {
            assert(self.pixels@ =~= Seq::new(
                pixels@.len(),
                |i: int| old(self).pixels@[i] && pixels@[i],
            ));
        }
    }
}


/// Whether every (or, with `any`, some) pixel inside the image within `r`
/// of `(x, y)` is selected.
fn window_check(p: &Vec<bool>, width: u32, height: u32, x: u32, y: u32, r: u32, any: bool) -> (b: bool)
    requires
        p@.len() == width * height,
        x < width,
        y < height,
    ensures
        !any ==> b == (forall|nx: int, ny: int|
            #![trigger px(p@, width, nx, ny)]
            near(x as int, y as int, nx, ny, r as int) && in_bounds(width, height, nx, ny) ==> px(
                p@,
                width,
                nx,
                ny,
            )),
        any ==> b == (exists|nx: int, ny: int|
            #![trigger px(p@, width, nx, ny)]
            near(x as int, y as int, nx, ny, r as int) && in_bounds(width, height, nx, ny) && px(
                p@,
                width,
                nx,
                ny,
            )),
{
    let lo_y: u32 = if y >= r {
        y - r
    } else {
        0
    };
    let hi_y: u32 = if (y as u64) + (r as u64) < (height as u64) {
        y + r
    } else {
        height - 1
    };
    let lo_x: u32 = if x >= r {
        x - r
    } else {
        0
    };
    let hi_x: u32 = if (x as u64) + (r as u64) < (width as u64) {
        x + r
    } else {
        width - 1
    };
    let n = p.len();
    let mut ny: u32 = lo_y;
    while ny <= hi_y
        invariant
            p@.len() == width * height,
            n == p@.len(),
            x < width,
            y < height,
            lo_x <= x <= hi_x,
            lo_y <= y <= hi_y,
            x - r <= lo_x,
            hi_x <= x + r,
            y - r <= lo_y,
            hi_y <= y + r,
            lo_y <= ny <= hi_y + 1,
            hi_y < height,
            hi_x < width,
            forall|nx: int, yy: int|
                #![trigger px(p@, width, nx, yy)]
                lo_y <= yy < ny && lo_x <= nx <= hi_x ==> px(p@, width, nx, yy) == !any,
        decreases hi_y + 1 - ny,
    {
        let mut nx: u32 = lo_x;
        while nx <= hi_x
            invariant
                p@.len() == width * height,
                n == p@.len(),
                x < width,
                y < height,
                lo_x <= x <= hi_x,
                x - r <= lo_x,
                hi_x <= x + r,
                y - r <= lo_y,
                hi_y <= y + r,
                lo_y <= ny <= hi_y,
                hi_y < height,
                hi_x < width,
                lo_x <= nx <= hi_x + 1,
                forall|xx: int, yy: int|
                    #![trigger px(p@, width, xx, yy)]
                    (lo_y <= yy < ny && lo_x <= xx <= hi_x) || (yy == ny && lo_x <= xx < nx)
                        ==> px(p@, width, xx, yy) == !any,
            decreases hi_x + 1 - nx,
        {
            proof {
                lemma_index_in_range(width, height, nx as int, ny as int);
            }
            let v = p[mask_index(width, nx, ny)];
            if v == any {
                proof {
                    assert(px(p@, width, nx as int, ny as int) == any);
                    assert(near(x as int, y as int, nx as int, ny as int, r as int));
                    assert(in_bounds(width, height, nx as int, ny as int));
                }
                return any;
            }
            nx = nx + 1;
        }
        ny = ny + 1;
    }
    proof {
        if !any {
            assert forall|nx: int, ny: int|
                near(x as int, y as int, nx, ny, r as int) && in_bounds(width, height, nx, ny)
                    implies #[trigger] px(p@, width, nx, ny) by {
                assert(lo_y <= ny <= hi_y && lo_x <= nx <= hi_x);
            }
        } else {
            assert forall|nx: int, ny: int|
                near(x as int, y as int, nx, ny, r as int) && in_bounds(width, height, nx, ny)
                    implies !#[trigger] px(p@, width, nx, ny) by {
                assert(lo_y <= ny <= hi_y && lo_x <= nx <= hi_x);
            }
        }
    }
    !any
}

/// `n` unset flags.
pub fn all_false(n: usize) -> (v: Vec<bool>)
    ensures
        v@.len() == n,
        forall|i: int| 0 <= i < n ==> !#[trigger] v@[i],
{
    let mut v: Vec<bool> = Vec::new();
    let mut i: usize = 0;
    while i < n
        invariant
            i <= n,
            v@.len() == i,
            forall|k: int| 0 <= k < i ==> !#[trigger] v@[k],
        decreases n - i,
    {
        v.push(false);
        i = i + 1;
    }
    v
}

impl SceneAssetMask {
    /// The morphology of one pass: erosion, or dilation when `dilate`.
    fn morph(&self, radius: u32, dilate: bool) -> (m: Self)
        requires
            self.wf(),
        ensures
            m.width == self.width,
            m.height == self.height,
            m.wf(),
            !dilate ==> pixelwise(
                m.pixels@,
                self.width,
                self.height,
                erosion(self.pixels@, self.width, self.height, radius as int),
            ),
            dilate ==> pixelwise(
                m.pixels@,
                self.width,
                self.height,
                dilation(self.pixels@, self.width, self.height, radius as int),
            ),
    {
        let w = self.width;
        let h = self.height;
        let ghost f = if dilate {
            dilation(self.pixels@, w, h, radius as int)
        } else {
            erosion(self.pixels@, w, h, radius as int)
        };
        let n = self.pixels.len();
        let mut out = all_false(n);
        let mut y: u32 = 0;
        while y < h
            invariant
                self.wf(),
                n == self.pixels@.len(),
                w == self.width,
                h == self.height,
                y <= h,
                out@.len() == w * h,
                f == (if dilate {
                    dilation(self.pixels@, w, h, radius as int)
                } else {
                    erosion(self.pixels@, w, h, radius as int)
                }),
                forall|xx: int, yy: int|
                    #![trigger px(out@, w, xx, yy)]
                    0 <= xx < w && 0 <= yy < y ==> px(out@, w, xx, yy) == f(xx, yy),
            decreases h - y,
        {
            let mut x: u32 = 0;
            while x < w
                invariant
                    self.wf(),
                    n == self.pixels@.len(),
                    w == self.width,
                    h == self.height,
                    y < h,
                    x <= w,
                    out@.len() == w * h,
                    f == (if dilate {
                        dilation(self.pixels@, w, h, radius as int)
                    } else {
                        erosion(self.pixels@, w, h, radius as int)
                    }),
                    forall|xx: int, yy: int|
                        #![trigger px(out@, w, xx, yy)]
                        (0 <= xx < w && 0 <= yy < y) || (yy == y && 0 <= xx < x) ==> px(
                            out@,
                            w,
                            xx,
                            yy,
                        ) == f(xx, yy),
                decreases w - x,
            {
                proof {
                    lemma_index_in_range(w, h, x as int, y as int);
                }
                let index = mask_index(w, x, y);
                let v = if dilate {
                    window_check(&self.pixels, w, h, x, y, radius, true)
                } else {
                    self.pixels[index] && window_check(&self.pixels, w, h, x, y, radius, false)
                };
                let ghost pre = out@;
                out.set(index, v);
                proof {
                    assert forall|xx: int, yy: int|
                        (0 <= xx < w && 0 <= yy < y) || (yy == y && 0 <= xx < x + 1) implies #[trigger] px(
                            out@,
                            w,
                            xx,
                            yy,
                        ) == f(xx, yy) by {
                        lemma_index_in_range(w, h, xx, yy);
                        if xx == x && yy == y {
                        } else {
                            if index_of(w, xx, yy) == index_of(w, x as int, y as int) {
                                lemma_index_unique(w, xx, yy, x as int, y as int);
                            }
                            assert(px(pre, w, xx, yy) == f(xx, yy));
                        }
                    }
                }
                x = x + 1;
            }
            y = y + 1;
        }
        SceneAssetMask { width: w, height: h, pixels: out }
    }

    /// Erosion: a pixel stays selected when its whole window of `radius`
    /// inside the image is selected; radius 0 leaves the mask as it is.
    pub fn eroded(&self, radius: u32) -> (m: Self)
        requires
            self.wf(),
        ensures
            m.width == self.width,
            m.height == self.height,
            m.wf(),
            radius == 0 ==> m.pixels@ == self.pixels@,
            radius > 0 ==> pixelwise(
                m.pixels@,
                self.width,
                self.height,
                erosion(self.pixels@, self.width, self.height, radius as int),
            ),
    {
        if radius == 0 {
            return self.copy();
        }
        self.morph(radius, false)
    }

    /// Dilation: a pixel becomes selected when some pixel of its window of
    /// `radius` inside the image is selected; radius 0 leaves it as it is.
    pub fn dilated(&self, radius: u32) -> (m: Self)
        requires
            self.wf(),
        ensures
            m.width == self.width,
            m.height == self.height,
            m.wf(),
            radius == 0 ==> m.pixels@ == self.pixels@,
            radius > 0 ==> pixelwise(
                m.pixels@,
                self.width,
                self.height,
                dilation(self.pixels@, self.width, self.height, radius as int),
            ),
    {
        if radius == 0 {
            return self.copy();
        }
        self.morph(radius, true)
    }

    /// Opening: erosion, then dilation with the same radius.
    pub fn opened(&self, radius: u32) -> (m: Self)
        requires
            self.wf(),
        ensures
            m.width == self.width,
            m.height == self.height,
            m.wf(),
            radius == 0 ==> m.pixels@ == self.pixels@,
            radius > 0 ==> exists|e: Seq<bool>|
                #[trigger] pixelwise(
                    e,
                    self.width,
                    self.height,
                    erosion(self.pixels@, self.width, self.height, radius as int),
                ) && pixelwise(
                    m.pixels@,
                    self.width,
                    self.height,
                    dilation(e, self.width, self.height, radius as int),
                ),
    {
        let e = self.eroded(radius);
        let m = e.dilated(radius);
        proof {
            if radius > 0 {
                assert(pixelwise(
                    e.pixels@,
                    self.width,
                    self.height,
                    erosion(self.pixels@, self.width, self.height, radius as int),
                ));
            }
        }
        m
    }

    /// Closing: dilation, then erosion with the same radius.
    pub fn closed(&self, radius: u32) -> (m: Self)
        requires
            self.wf(),
        ensures
            m.width == self.width,
            m.height == self.height,
            m.wf(),
            radius == 0 ==> m.pixels@ == self.pixels@,
            radius > 0 ==> exists|d: Seq<bool>|
                #[trigger] pixelwise(
                    d,
                    self.width,
                    self.height,
                    dilation(self.pixels@, self.width, self.height, radius as int),
                ) && pixelwise(
                    m.pixels@,
                    self.width,
                    self.height,
                    erosion(d, self.width, self.height, radius as int),
                ),
    {
        let d = self.dilated(radius);
        let m = d.eroded(radius);
        proof {
            if radius > 0 {
                assert(pixelwise(
                    d.pixels@,
                    self.width,
                    self.height,
                    dilation(self.pixels@, self.width, self.height, radius as int),
                ));
            }
        }
        m
    }

    /// Sets every pixel of `rect` inside the image to `value`.
    fn fill_rect(&mut self, rect: SceneAssetPixelRect, value: bool)
        requires
            old(self).wf(),
        ensures
            final(self).width == old(self).width,
            final(self).height == old(self).height,
            final(self).wf(),
            pixelwise(
                final(self).pixels@,
                old(self).width,
                old(self).height,
                |x: int, y: int|
                    if rect.x <= x < sat_add_u32(rect.x, rect.w) && rect.y <= y < sat_add_u32(rect.y, rect.h) {
                        value
                    } else {
                        px(old(self).pixels@, old(self).width, x, y)
                    },
            ),
    {
        let w = self.width;
        let h = self.height;
        let right = rect.right();
        let bottom = rect.bottom();
        let x_end = if right < w {
            right
        } else {
            w
        };
        let y_end = if bottom < h {
            bottom
        } else {
            h
        };
        let ghost f = |x: int, y: int|
            if rect.x <= x < sat_add_u32(rect.x, rect.w) && rect.y <= y < sat_add_u32(rect.y, rect.h) {
                value
            } else {
                px(old(self).pixels@, w, x, y)
            };
        let n = self.pixels.len();
        let mut y: u32 = rect.y;
        while y < y_end
            invariant
                self.wf(),
                n == self.pixels@.len(),
                w == self.width,
                h == self.height,
                w == old(self).width,
                h == old(self).height,
                y_end <= h,
                x_end <= w,
                rect.y <= y,
                y <= y_end || y == rect.y,
                y_end == (if bottom < h { bottom } else { h }),
                x_end == (if right < w { right } else { w }),
                bottom == sat_add_u32(rect.y, rect.h),
                right == sat_add_u32(rect.x, rect.w),
                f == (|x: int, yy: int|
                    if rect.x <= x < sat_add_u32(rect.x, rect.w) && rect.y <= yy < sat_add_u32(rect.y, rect.h) {
                        value
                    } else {
                        px(old(self).pixels@, w, x, yy)
                    }),
                forall|xx: int, yy: int|
                    #![trigger px(self.pixels@, w, xx, yy)]
                    in_bounds(w, h, xx, yy) ==> px(self.pixels@, w, xx, yy) == (if rect.x <= xx
                        < x_end && rect.y <= yy < y {
                        value
                    } else {
                        px(old(self).pixels@, w, xx, yy)
                    }),
            decreases y_end - y,
        {
            let mut x: u32 = rect.x;
            while x < x_end
                invariant
                    self.wf(),
                    n == self.pixels@.len(),
                    w == self.width,
                    h == self.height,
                    w == old(self).width,
                    h == old(self).height,
                    y < y_end <= h,
                    x_end <= w,
                    rect.x <= x,
                    x <= x_end || x == rect.x,
                    rect.y <= y,
                    forall|xx: int, yy: int|
                        #![trigger px(self.pixels@, w, xx, yy)]
                        in_bounds(w, h, xx, yy) ==> px(self.pixels@, w, xx, yy) == (if (rect.x
                            <= xx < x_end && rect.y <= yy < y) || (yy == y && rect.x <= xx < x) {
                            value
                        } else {
                            px(old(self).pixels@, w, xx, yy)
                        }),
                decreases x_end - x,
            {
                proof {
                    lemma_index_in_range(w, h, x as int, y as int);
                }
                let index = mask_index(w, x, y);
                let ghost pre = self.pixels@;
                self.pixels.set(index, value);
                proof {
                    assert forall|xx: int, yy: int| in_bounds(w, h, xx, yy) implies #[trigger] px(
                        self.pixels@,
                        w,
                        xx,
                        yy,
                    ) == (if (rect.x <= xx < x_end && rect.y <= yy < y) || (yy == y && rect.x <= xx
                        < x + 1) {
                        value
                    } else {
                        px(old(self).pixels@, w, xx, yy)
                    }) by {
                        lemma_index_in_range(w, h, xx, yy);
                        if index_of(w, xx, yy) == index_of(w, x as int, y as int) {
                            lemma_index_unique(w, xx, yy, x as int, y as int);
                        }
                        assert(px(pre, w, xx, yy) == (if (rect.x <= xx < x_end && rect.y <= yy < y)
                            || (yy == y && rect.x <= xx < x) {
                            value
                        } else {
                            px(old(self).pixels@, w, xx, yy)
                        }));
                    }
                }
                x = x + 1;
            }
            y = y + 1;
        }
        proof {
            assert forall|xx: int, yy: int| in_bounds(w, h, xx, yy) implies #[trigger] px(
                self.pixels@,
                w,
                xx,
                yy,
            ) == f(xx, yy) by {
                assert(px(self.pixels@, w, xx, yy) == (if rect.x <= xx < x_end && rect.y <= yy < y {
                    value
                } else {
                    px(old(self).pixels@, w, xx, yy)
                }));
            }
        }
    }

    /// Deselects every pixel of `rect` inside the image.
    pub fn protect_rect(&mut self, rect: SceneAssetPixelRect)
        requires
            old(self).wf(),
        ensures
            final(self).width == old(self).width,
            final(self).height == old(self).height,
            final(self).wf(),
            pixelwise(
                final(self).pixels@,
                old(self).width,
                old(self).height,
                |x: int, y: int|
                    if rect.x <= x < sat_add_u32(rect.x, rect.w) && rect.y <= y < sat_add_u32(rect.y, rect.h) {
                        false
                    } else {
                        px(old(self).pixels@, old(self).width, x, y)
                    },
            ),
    {
        self.fill_rect(rect, false);
    }

    /// Selects every pixel of `rect` inside the image.
    pub fn select_rect(&mut self, rect: SceneAssetPixelRect)
        requires
            old(self).wf(),
        ensures
            final(self).width == old(self).width,
            final(self).height == old(self).height,
            final(self).wf(),
            pixelwise(
                final(self).pixels@,
                old(self).width,
                old(self).height,
                |x: int, y: int|
                    if rect.x <= x < sat_add_u32(rect.x, rect.w) && rect.y <= y < sat_add_u32(rect.y, rect.h) {
                        true
                    } else {
                        px(old(self).pixels@, old(self).width, x, y)
                    },
            ),
    {
        self.fill_rect(rect, true);
    }
}


// ---------------------------------------------------------------- components

/// How many flags are unset.
pub open spec fn count_false(v: Seq<bool>) -> nat
    decreases v.len(),
{
    if v.len() == 0 {
        0
    } else {
        count_false(v.drop_last()) + if v.last() { 0nat } else { 1nat }
    }
}

pub proof fn lemma_count_false_set(v: Seq<bool>, i: int)
    requires
        0 <= i < v.len(),
        !v[i],
    ensures
        count_false(v.update(i, true)) + 1 == count_false(v),
    decreases v.len(),
{
    let u = v.update(i, true);
    if i == v.len() - 1 {
        assert(u.drop_last() =~= v.drop_last());
    } else {
        assert(u.drop_last() =~= v.drop_last().update(i, true));
        lemma_count_false_set(v.drop_last(), i);
    }
}

/// `r` is the smallest rectangle holding every selected pixel, or `None`
/// when no pixel is selected.
pub open spec fn selection_bounds(width: u32, height: u32, p: Seq<bool>, r: Option<SceneAssetPixelRect>) -> bool {
    &&& (r is None <==> !exists|x: int, y: int|
        #![trigger px(p, width, x, y)]
        in_bounds(width, height, x, y) && px(p, width, x, y))
    &&& (r matches Some(b) ==> {
        &&& forall|x: int, y: int|
            #![trigger px(p, width, x, y)]
            in_bounds(width, height, x, y) && px(p, width, x, y) ==> b.x <= x < b.x + b.w && b.y <= y < b.y + b.h
        &&& exists|x: int, y: int|
            #![trigger px(p, width, x, y)]
            in_bounds(width, height, x, y) && px(p, width, x, y) && x == b.x
        &&& exists|x: int, y: int|
            #![trigger px(p, width, x, y)]
            in_bounds(width, height, x, y) && px(p, width, x, y) && y == b.y
        &&& exists|x: int, y: int|
            #![trigger px(p, width, x, y)]
            in_bounds(width, height, x, y) && px(p, width, x, y) && x == b.x + b.w - 1
        &&& exists|x: int, y: int|
            #![trigger px(p, width, x, y)]
            in_bounds(width, height, x, y) && px(p, width, x, y) && y == b.y + b.h - 1
    })
}

/// The smallest rectangle holding every selected pixel, or `None` when no
/// pixel is selected.
pub fn mask_selection_bounds(width: u32, height: u32, pixels: &[bool]) -> (r: Option<SceneAssetPixelRect>)
    requires
        pixels@.len() == width * height,
    ensures
        selection_bounds(width, height, pixels@, r),
{
    let n = pixels.len();
    let mut min_x: u32 = width;
    let mut min_y: u32 = height;
    let mut max_x: u32 = 0;
    let mut max_y: u32 = 0;
    let mut found = false;
    let ghost mut wx1: int = 0;
    let ghost mut wy1: int = 0;
    let ghost mut wx2: int = 0;
    let ghost mut wy2: int = 0;
    let ghost mut wx3: int = 0;
    let ghost mut wy3: int = 0;
    let ghost mut wx4: int = 0;
    let ghost mut wy4: int = 0;
    let mut y: u32 = 0;
    while y < height
        invariant
            n == pixels@.len(),
            pixels@.len() == width * height,
            y <= height,
            found ==> min_x <= max_x < width && min_y <= max_y < height,
            !found ==> forall|xx: int, yy: int|
                #![trigger px(pixels@, width, xx, yy)]
                in_bounds(width, height, xx, yy) && yy < y ==> !px(pixels@, width, xx, yy),
            found ==> forall|xx: int, yy: int|
                #![trigger px(pixels@, width, xx, yy)]
                in_bounds(width, height, xx, yy) && yy < y && px(pixels@, width, xx, yy) ==> min_x
                    <= xx <= max_x && min_y <= yy <= max_y,
            found ==> in_bounds(width, height, wx1, wy1) && px(pixels@, width, wx1, wy1) && wx1 == min_x,
            found ==> in_bounds(width, height, wx2, wy2) && px(pixels@, width, wx2, wy2) && wy2 == min_y,
            found ==> in_bounds(width, height, wx3, wy3) && px(pixels@, width, wx3, wy3) && wx3 == max_x,
            found ==> in_bounds(width, height, wx4, wy4) && px(pixels@, width, wx4, wy4) && wy4 == max_y,
        decreases height - y,
    {
        let mut x: u32 = 0;
        while x < width
            invariant
                n == pixels@.len(),
                pixels@.len() == width * height,
                y < height,
                x <= width,
                found ==> min_x <= max_x < width && min_y <= max_y < height,
                !found ==> forall|xx: int, yy: int|
                    #![trigger px(pixels@, width, xx, yy)]
                    in_bounds(width, height, xx, yy) && (yy < y || (yy == y && xx < x)) ==> !px(
                        pixels@,
                        width,
                        xx,
                        yy,
                    ),
                found ==> forall|xx: int, yy: int|
                    #![trigger px(pixels@, width, xx, yy)]
                    in_bounds(width, height, xx, yy) && (yy < y || (yy == y && xx < x)) && px(
                        pixels@,
                        width,
                        xx,
                        yy,
                    ) ==> min_x <= xx <= max_x && min_y <= yy <= max_y,
                found ==> in_bounds(width, height, wx1, wy1) && px(pixels@, width, wx1, wy1) && wx1 == min_x,
                found ==> in_bounds(width, height, wx2, wy2) && px(pixels@, width, wx2, wy2) && wy2 == min_y,
                found ==> in_bounds(width, height, wx3, wy3) && px(pixels@, width, wx3, wy3) && wx3 == max_x,
                found ==> in_bounds(width, height, wx4, wy4) && px(pixels@, width, wx4, wy4) && wy4 == max_y,
            decreases width - x,
        {
            proof {
                lemma_index_in_range(width, height, x as int, y as int);
            }
            if pixels[mask_index(width, x, y)] {
                if !found || x < min_x {
                    min_x = x;
                    proof {
                        wx1 = x as int;
                        wy1 = y as int;
                    }
                }
                if !found || y < min_y {
                    min_y = y;
                    proof {
                        wx2 = x as int;
                        wy2 = y as int;
                    }
                }
                if !found || x > max_x {
                    max_x = x;
                    proof {
                        wx3 = x as int;
                        wy3 = y as int;
                    }
                }
                if !found || y > max_y {
                    max_y = y;
                    proof {
                        wx4 = x as int;
                        wy4 = y as int;
                    }
                }
                found = true;
            }
            x = x + 1;
        }
        y = y + 1;
    }
    if !found {
        return None;
    }
    Some(SceneAssetPixelRect { x: min_x, y: min_y, w: max_x - min_x + 1, h: max_y - min_y + 1 })
}

/// Opening never selects a pixel: what erosion then dilation by the same
/// radius leaves lies within the selection it started from.
pub proof fn law_opening_only_deselects(width: u32, height: u32, p: Seq<bool>, e: Seq<bool>, q: Seq<bool>, r: int)
    requires
        pixelwise(e, width, height, erosion(p, width, height, r)),
        pixelwise(q, width, height, dilation(e, width, height, r)),
    ensures
        forall|x: int, y: int| in_bounds(width, height, x, y) && #[trigger] px(q, width, x, y) ==> px(p, width, x, y),
{
    assert forall|x: int, y: int| in_bounds(width, height, x, y) && #[trigger] px(q, width, x, y) implies px(
        p,
        width,
        x,
        y,
    ) by {
        assert(dilated_px(e, width, height, r, x, y));
        let (nx, ny) = choose|nx: int, ny: int|
            #![trigger px(e, width, nx, ny)]
            near(x, y, nx, ny, r) && in_bounds(width, height, nx, ny) && px(e, width, nx, ny);
        assert(eroded_px(p, width, height, r, nx, ny));
        assert(near(nx, ny, x, y, r));
    }
}

/// Closing never deselects a pixel: the selection it started from lies
/// within what dilation then erosion by the same radius leaves.
pub proof fn law_closing_only_selects(width: u32, height: u32, p: Seq<bool>, d: Seq<bool>, q: Seq<bool>, r: int)
    requires
        r >= 0,
        pixelwise(d, width, height, dilation(p, width, height, r)),
        pixelwise(q, width, height, erosion(d, width, height, r)),
    ensures
        forall|x: int, y: int| in_bounds(width, height, x, y) && #[trigger] px(p, width, x, y) ==> px(q, width, x, y),
{
    assert forall|x: int, y: int| in_bounds(width, height, x, y) && #[trigger] px(p, width, x, y) implies px(
        q,
        width,
        x,
        y,
    ) by {
        assert(near(x, y, x, y, r));
        assert(dilated_px(p, width, height, r, x, y));
        assert forall|nx: int, ny: int|
            near(x, y, nx, ny, r) && in_bounds(width, height, nx, ny) implies #[trigger] px(d, width, nx, ny) by {
            assert(near(nx, ny, x, y, r));
            assert(dilated_px(p, width, height, r, nx, ny));
        }
        assert(eroded_px(d, width, height, r, x, y));
    }
}

/// Dilation by `r` selects exactly the pixels within `r` steps on both axes
/// of a selected pixel; erosion by `r` keeps a pixel exactly when it and
/// every pixel of the image within `r` steps on both axes are selected.
pub proof fn law_morphology_reaches_radius(
    p: Seq<bool>,
    width: u32,
    height: u32,
    r: int,
    x: int,
    y: int,
    sx: int,
    sy: int,
)
    ensures
        in_bounds(width, height, sx, sy) && px(p, width, sx, sy) && -r <= sx - x <= r && -r <= sy - y <= r
            ==> dilated_px(p, width, height, r, x, y),
        dilated_px(p, width, height, r, x, y) ==> exists|nx: int, ny: int|
            #![trigger px(p, width, nx, ny)]
            in_bounds(width, height, nx, ny) && px(p, width, nx, ny) && -r <= nx - x <= r && -r <= ny - y <= r,
        eroded_px(p, width, height, r, x, y) && in_bounds(width, height, sx, sy) && -r <= sx - x <= r && -r
            <= sy - y <= r ==> px(p, width, sx, sy),
        eroded_px(p, width, height, r, x, y) ==> px(p, width, x, y),
{
    if in_bounds(width, height, sx, sy) && px(p, width, sx, sy) && -r <= sx - x <= r && -r <= sy - y <= r {
        assert(near(x, y, sx, sy, r));
    }
    if eroded_px(p, width, height, r, x, y) && in_bounds(width, height, sx, sy) && -r <= sx - x <= r && -r <= sy - y
        <= r {
        assert(near(x, y, sx, sy, r));
    }
}

/// Flood fills spread between pixels that share an edge: the pixels one
/// step apart along exactly one axis, never diagonal ones.
pub proof fn law_flood_fill_spreads_across_edges(x: int, y: int, nx: int, ny: int)
    ensures
        adjacent(x, y, nx, ny) <==> ((x == nx && (ny - y == 1 || y - ny == 1)) || (y == ny && (nx - x == 1
            || x - nx == 1))),
        adjacent(x, y, nx, ny) ==> !(nx != x && ny != y),
        adjacent(x, y, nx, ny) == adjacent(nx, ny, x, y),
{
}

} // verus!
