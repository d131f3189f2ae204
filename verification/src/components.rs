//! Connected components of a selection mask: each is the region grown from
//! one pixel through 4-neighbours of the same colour. Small selected
//! components are removed, small enclosed holes are filled.

use vstd::prelude::*;
use crate::mask::{
    SceneAssetMask, adjacent, all_false, count_false, count_true, flood_region, grown_from, grown_step, in_bounds,
    index_of, lemma_count_false_set, lemma_index_in_range, lemma_index_unique, lemma_neighbor_seq, lemma_xy_of_index,
    mask_neighbors, neighbor_seq, px, seed_ok,
};

verus! {

/// One flag per pixel: it has colour `color`.
pub open spec fn color_flags(p: Seq<bool>, color: bool) -> Seq<bool> {
    Seq::new(p.len(), |i: int| p[i] == color)
}

/// The visited pixels all have colour `color`, and every neighbour of a
/// visited pixel that has that colour is visited too.
pub open spec fn closed_visited(width: u32, height: u32, p: Seq<bool>, color: bool, visited: Seq<bool>) -> bool {
    &&& forall|i: int| 0 <= i < visited.len() && #[trigger] visited[i] ==> p[i] == color
    &&& forall|x: int, y: int, nx: int, ny: int|
        #![trigger adjacent(x, y, nx, ny), px(visited, width, x, y)]
        in_bounds(width, height, x, y) && in_bounds(width, height, nx, ny) && adjacent(x, y, nx, ny) && px(
            visited,
            width,
            x,
            y,
        ) && px(p, width, nx, ny) == color ==> px(visited, width, nx, ny)
}

/// The pixel `(x, y)` lies on the image border.
pub open spec fn border_pixel(width: u32, height: u32, x: int, y: int) -> bool {
    x == 0 || y == 0 || x + 1 == width || y + 1 == height
}

/// Some pixel of the region lies on the image border.
pub open spec fn region_on_border(width: u32, height: u32, r: Seq<bool>) -> bool {
    exists|x: int, y: int| #[trigger] px(r, width, x, y) && in_bounds(width, height, x, y) && border_pixel(width, height, x, y)
}

/// Whether a component is cleaned away: a selected one smaller than
/// `limit`, or an unselected one of at most `limit` pixels that does not
/// touch the border.
pub open spec fn small_component(width: u32, height: u32, color: bool, limit: int, r: Seq<bool>) -> bool {
    if color {
        count_true(r) < limit
    } else {
        !region_on_border(width, height, r) && count_true(r) <= limit
    }
}

/// `regions` are components of colour `color` (each grown from its start),
/// every pixel of that colour lies in one, and `out` flips exactly the
/// pixels of the small ones; other pixels keep their value.
pub open spec fn cleaned(
    width: u32,
    height: u32,
    p: Seq<bool>,
    color: bool,
    limit: int,
    regions: Seq<Seq<bool>>,
    starts: Seq<(u32, u32)>,
    out: Seq<bool>,
) -> bool {
    &&& out.len() == p.len()
    &&& regions.len() == starts.len()
    &&& forall|k: int|
        0 <= k < regions.len() ==> flood_region(width, height, seq![starts[k]], color_flags(p, color), #[trigger] regions[k])
    &&& forall|i: int| 0 <= i < p.len() && p[i] != color ==> #[trigger] out[i] == p[i]
    &&& forall|i: int| 0 <= i < p.len() && p[i] == color ==> exists|k: int| 0 <= k < regions.len() && #[trigger] regions[k][i]
    &&& forall|i: int, k: int|
        0 <= i < p.len() && 0 <= k < regions.len() && #[trigger] regions[k][i] ==> out[i] == (if small_component(
            width,
            height,
            color,
            limit,
            regions[k],
        ) {
            !color
        } else {
            color
        })
}

pub proof fn lemma_count_true_set(v: Seq<bool>, i: int)
    requires
        0 <= i < v.len(),
        !v[i],
    ensures
        count_true(v.update(i, true)) == count_true(v) + 1,
    decreases v.len(),
{
    let u = v.update(i, true);
    if i == v.len() - 1 {
        assert(u.drop_last() =~= v.drop_last());
    } else {
        assert(u.drop_last() =~= v.drop_last().update(i, true));
        lemma_count_true_set(v.drop_last(), i);
    }
}

proof fn lemma_count_true_none(v: Seq<bool>)
    requires
        forall|i: int| 0 <= i < v.len() ==> !#[trigger] v[i],
    ensures
        count_true(v) == 0,
    decreases v.len(),
{
    if v.len() > 0 {
        lemma_count_true_none(v.drop_last());
    }
}

impl SceneAssetMask {
    /// Grows the component of colour `color` from `(sx, sy)` breadth-first
    /// through unvisited 4-neighbours of that colour, marking it visited.
    /// Returns its pixels' flat indices in visiting order, whether it
    /// touches the border, and the component's flags.
    fn grow_component(&self, sx: u32, sy: u32, color: bool, visited: &mut Vec<bool>) -> (r: (
        Vec<usize>,
        bool,
        Ghost<Seq<bool>>,
    ))
        requires
            self.wf(),
            old(visited)@.len() == self.pixels@.len(),
            sx < self.width,
            sy < self.height,
            px(self.pixels@, self.width, sx as int, sy as int) == color,
            !px(old(visited)@, self.width, sx as int, sy as int),
            closed_visited(self.width, self.height, self.pixels@, color, old(visited)@),
        ensures
            final(visited)@.len() == self.pixels@.len(),
            forall|i: int| 0 <= i < self.pixels@.len() && old(visited)@[i] ==> #[trigger] final(visited)@[i],
            closed_visited(self.width, self.height, self.pixels@, color, final(visited)@),
            r.2@.len() == self.pixels@.len(),
            flood_region(
                self.width,
                self.height,
                seq![(sx, sy)],
                color_flags(self.pixels@, color),
                r.2@,
            ),
            forall|i: int|
                0 <= i < self.pixels@.len() ==> (#[trigger] r.2@[i] == (final(visited)@[i] && !old(visited)@[i])),
            r.0@.len() == count_true(r.2@),
            forall|k: int| 0 <= k < r.0@.len() ==> (#[trigger] r.0@[k]) < self.pixels@.len() && r.2@[r.0@[k] as int],
            forall|i: int| 0 <= i < self.pixels@.len() && #[trigger] r.2@[i] ==> exists|k: int| 0 <= k < r.0@.len() && #[trigger] r.0@[k] == i,
            r.1 == region_on_border(self.width, self.height, r.2@),
    {
        let w = self.width;
        let h = self.height;
        let n = self.pixels.len();
        let ghost p = self.pixels@;
        let ghost allowed = color_flags(p, color);
        let ghost v0 = visited@;
        let ghost seeds = seq![(sx, sy)];
        let ghost mut region: Seq<bool> = Seq::new(n as nat, |i: int| false);
        let ghost mut parent: Seq<int> = Seq::empty();
        let mut queue: Vec<(u32, u32)> = Vec::new();
        let mut comp: Vec<usize> = Vec::new();
        proof {
            lemma_index_in_range(w, h, sx as int, sy as int);
            lemma_count_true_none(region);
        }
        let start = mask_index_checked(w, h, n, sx, sy);
        let ghost c0 = count_false(visited@);
        proof {
            lemma_count_false_set(visited@, start as int);
            lemma_count_true_set(region, start as int);
        }
        visited.set(start, true);
        queue.push((sx, sy));
        proof {
            region = region.update(start as int, true);
            parent = parent.push(-1);
            assert(seeds.contains((sx, sy))) by {
                assert(seeds[0] == (sx, sy));
            }
            assert forall|x: int, y: int|
                in_bounds(w, h, x, y) && #[trigger] px(region, w, x, y) implies exists|q: int|
                    0 <= q < queue@.len() && #[trigger] queue@[q] == (x as u32, y as u32) by {
                lemma_index_in_range(w, h, x, y);
                lemma_index_unique(w, x, y, sx as int, sy as int);
                assert(queue@[0] == (x as u32, y as u32));
            }
            assert forall|i: int| 0 <= i < n implies (#[trigger] region[i] == (visited@[i] && !v0[i])) by {}
            assert(grown_step(w, h, seeds, allowed, region, queue@, parent, 0));
        }
        let mut touches = false;
        let mut head: usize = 0;
        while head < queue.len()
            invariant
                self.wf(),
                w == self.width,
                h == self.height,
                n == self.pixels@.len(),
                p == self.pixels@,
                allowed == color_flags(p, color),
                seeds == seq![(sx, sy)],
                sx < w,
                sy < h,
                visited@.len() == n,
                region.len() == n,
                head <= queue@.len(),
                parent.len() == queue@.len(),
                queue@.len() > 0 && queue@[0] == (sx, sy),
                closed_visited(w, h, p, color, v0),
                v0.len() == n,
                forall|i: int| 0 <= i < n ==> (#[trigger] region[i] == (visited@[i] && !v0[i])),
                forall|i: int| 0 <= i < n && v0[i] ==> #[trigger] visited@[i],
                forall|q: int| 0 <= q < queue@.len() ==> #[trigger] grown_step(w, h, seeds, allowed, region, queue@, parent, q),
                forall|x: int, y: int|
                    in_bounds(w, h, x, y) && #[trigger] px(region, w, x, y) ==> exists|q: int|
                        0 <= q < queue@.len() && #[trigger] queue@[q] == (x as u32, y as u32),
                forall|q: int, nx: int, ny: int|
                    #![trigger adjacent(queue@[q].0 as int, queue@[q].1 as int, nx, ny)]
                    0 <= q < head && in_bounds(w, h, nx, ny) && adjacent(queue@[q].0 as int, queue@[q].1 as int, nx, ny)
                        && px(p, w, nx, ny) == color ==> px(visited@, w, nx, ny),
                queue@.len() == count_true(region),
                queue@.len() + count_false(visited@) == c0,
                comp@.len() == head,
                forall|k: int| 0 <= k < head ==> #[trigger] comp@[k] == index_of(w, queue@[k].0 as int, queue@[k].1 as int),
                touches == exists|k: int| 0 <= k < head && #[trigger] border_pixel(w, h, queue@[k].0 as int, queue@[k].1 as int),
            decreases c0 - head,
        {
            let (x, y) = queue[head];
            proof {
                assert(grown_step(w, h, seeds, allowed, region, queue@, parent, head as int));
                lemma_neighbor_seq(w, h, x, y);
                lemma_index_in_range(w, h, x as int, y as int);
            }
            let here = mask_index_checked(w, h, n, x, y);
            comp.push(here);
            let edge = x == 0 || y == 0 || x + 1 == w || y + 1 == h;
            proof {
                assert(edge == border_pixel(w, h, queue@[head as int].0 as int, queue@[head as int].1 as int));
                if touches {
                    let k = choose|k: int| 0 <= k < head && #[trigger] border_pixel(w, h, queue@[k].0 as int, queue@[k].1 as int);
                    assert(0 <= k < head + 1);
                }
            }
            touches = touches || edge;
            let nbs = mask_neighbors(w, h, x, y);
            let ghost q_head = queue@.take(head + 1);
            proof {
                assert forall|k: int| 0 <= k < head + 1 implies #[trigger] comp@[k] == index_of(
                    w,
                    q_head[k].0 as int,
                    q_head[k].1 as int,
                ) by {}
                assert(touches == exists|k: int|
                    0 <= k < head + 1 && #[trigger] border_pixel(w, h, q_head[k].0 as int, q_head[k].1 as int)) by {
                    if touches && !edge {
                        let k = choose|k: int| 0 <= k < head && #[trigger] border_pixel(w, h, queue@[k].0 as int, queue@[k].1 as int);
                        assert(q_head[k] == queue@[k]);
                    }
                    if edge {
                        assert(q_head[head as int] == queue@[head as int]);
                    }
                    if exists|k: int| 0 <= k < head + 1 && #[trigger] border_pixel(w, h, q_head[k].0 as int, q_head[k].1 as int) {
                        let k = choose|k: int| 0 <= k < head + 1 && #[trigger] border_pixel(w, h, q_head[k].0 as int, q_head[k].1 as int);
                        assert(q_head[k] == queue@[k]);
                    }
                }
            }
            let mut j: usize = 0;
            while j < nbs.len()
                invariant
                    q_head == queue@.take(head + 1),
                    comp@.len() == head + 1,
                    forall|k: int| 0 <= k < head + 1 ==> #[trigger] comp@[k] == index_of(w, q_head[k].0 as int, q_head[k].1 as int),
                    touches == exists|k: int| 0 <= k < head + 1 && #[trigger] border_pixel(w, h, q_head[k].0 as int, q_head[k].1 as int),
                    self.wf(),
                    w == self.width,
                    h == self.height,
                    n == self.pixels@.len(),
                    p == self.pixels@,
                    allowed == color_flags(p, color),
                    seeds == seq![(sx, sy)],
                    x < w,
                    y < h,
                    visited@.len() == n,
                    region.len() == n,
                    head < queue@.len(),
                    queue@[head as int] == (x, y),
                    parent.len() == queue@.len(),
                    queue@.len() > 0 && queue@[0] == (sx, sy),
                    nbs@ == neighbor_seq(w, h, x, y),
                    j <= nbs@.len(),
                    closed_visited(w, h, p, color, v0),
                    v0.len() == n,
                    forall|i: int| 0 <= i < n ==> (#[trigger] region[i] == (visited@[i] && !v0[i])),
                    forall|i: int| 0 <= i < n && v0[i] ==> #[trigger] visited@[i],
                    forall|q: int| 0 <= q < queue@.len() ==> #[trigger] grown_step(w, h, seeds, allowed, region, queue@, parent, q),
                    forall|xx: int, yy: int|
                        in_bounds(w, h, xx, yy) && #[trigger] px(region, w, xx, yy) ==> exists|q: int|
                            0 <= q < queue@.len() && #[trigger] queue@[q] == (xx as u32, yy as u32),
                    forall|q: int, nx: int, ny: int|
                        #![trigger adjacent(queue@[q].0 as int, queue@[q].1 as int, nx, ny)]
                        0 <= q < head && in_bounds(w, h, nx, ny) && adjacent(queue@[q].0 as int, queue@[q].1 as int, nx, ny)
                            && px(p, w, nx, ny) == color ==> px(visited@, w, nx, ny),
                    forall|jj: int|
                        0 <= jj < j && #[trigger] px(p, w, nbs@[jj].0 as int, nbs@[jj].1 as int) == color ==> px(
                            visited@,
                            w,
                            nbs@[jj].0 as int,
                            nbs@[jj].1 as int,
                        ),
                    queue@.len() == count_true(region),
                    queue@.len() + count_false(visited@) == c0,
                decreases nbs.len() - j,
            {
                let (nx, ny) = nbs[j];
                proof {
                    let q = nbs@[j as int];
                    assert(in_bounds(w, h, q.0 as int, q.1 as int) && adjacent(x as int, y as int, q.0 as int, q.1 as int));
                    lemma_index_in_range(w, h, nx as int, ny as int);
                }
                let ni = mask_index_checked(w, h, n, nx, ny);
                if self.pixels[ni] == color && !visited[ni] {
                    let ghost old_vis = visited@;
                    let ghost old_q = queue@;
                    let ghost old_parent = parent;
                    let ghost old_region = region;
                    proof {
                        lemma_count_false_set(visited@, ni as int);
                        lemma_count_true_set(region, ni as int);
                    }
                    visited.set(ni, true);
                    queue.push((nx, ny));
                    proof {
                        assert(queue@.take(head + 1) =~= old_q.take(head + 1));
                        region = region.update(ni as int, true);
                        parent = parent.push(head as int);
                        assert forall|i: int| 0 <= i < n implies (#[trigger] region[i] == (visited@[i] && !v0[i])) by {
                            if i != ni {
                                assert(old_region[i] == (old_vis[i] && !v0[i]));
                            }
                        }
                        assert forall|q: int| 0 <= q < queue@.len() implies #[trigger] grown_step(w, h, seeds, allowed, region, queue@, parent, q) by {
                            if q < old_q.len() {
                                assert(grown_step(w, h, seeds, allowed, old_region, old_q, old_parent, q));
                                assert(old_parent[q] == parent[q]);
                                assert(queue@[q] == old_q[q]);
                                lemma_index_in_range(w, h, old_q[q].0 as int, old_q[q].1 as int);
                                if parent[q] >= 0 {
                                    assert(queue@[parent[q]] == old_q[parent[q]]);
                                }
                            } else {
                                assert(queue@[q] == (nx, ny));
                                assert(queue@[head as int] == (x, y));
                            }
                        }
                        assert forall|xx: int, yy: int|
                            in_bounds(w, h, xx, yy) && #[trigger] px(region, w, xx, yy) implies exists|q: int|
                                0 <= q < queue@.len() && #[trigger] queue@[q] == (xx as u32, yy as u32) by {
                            lemma_index_in_range(w, h, xx, yy);
                            if index_of(w, xx, yy) == ni {
                                lemma_index_unique(w, xx, yy, nx as int, ny as int);
                                assert(queue@[old_q.len() as int] == (xx as u32, yy as u32));
                            } else {
                                assert(px(old_region, w, xx, yy));
                                let q = choose|q: int| 0 <= q < old_q.len() && #[trigger] old_q[q] == (xx as u32, yy as u32);
                                assert(queue@[q] == old_q[q]);
                            }
                        }
                        assert forall|q: int, ax: int, ay: int|
                            #![trigger adjacent(queue@[q].0 as int, queue@[q].1 as int, ax, ay)]
                            0 <= q < head && in_bounds(w, h, ax, ay) && adjacent(queue@[q].0 as int, queue@[q].1 as int, ax, ay)
                                && px(p, w, ax, ay) == color implies px(visited@, w, ax, ay) by {
                            assert(queue@[q] == old_q[q]);
                            assert(adjacent(old_q[q].0 as int, old_q[q].1 as int, ax, ay));
                            lemma_index_in_range(w, h, ax, ay);
                        }
                        assert forall|jj: int|
                            0 <= jj < j + 1 && #[trigger] px(p, w, nbs@[jj].0 as int, nbs@[jj].1 as int) == color implies px(
                                visited@,
                                w,
                                nbs@[jj].0 as int,
                                nbs@[jj].1 as int,
                            ) by {
                            let q = nbs@[jj];
                            assert(in_bounds(w, h, q.0 as int, q.1 as int));
                            lemma_index_in_range(w, h, q.0 as int, q.1 as int);
                        }
                        assert forall|i: int| 0 <= i < n && v0[i] implies #[trigger] visited@[i] by {
                            assert(old_vis[i]);
                        }
                    }
                }
                j = j + 1;
            }
            proof {
                assert forall|q: int, ax: int, ay: int|
                    #![trigger adjacent(queue@[q].0 as int, queue@[q].1 as int, ax, ay)]
                    0 <= q < head + 1 && in_bounds(w, h, ax, ay) && adjacent(queue@[q].0 as int, queue@[q].1 as int, ax, ay)
                        && px(p, w, ax, ay) == color implies px(visited@, w, ax, ay) by {
                    if q == head {
                        assert(adjacent(x as int, y as int, ax, ay));
                        let jj = choose|jj: int| 0 <= jj < nbs@.len() && #[trigger] nbs@[jj] == (ax as u32, ay as u32);
                        assert(nbs@[jj] == (ax as u32, ay as u32));
                        assert(px(p, w, nbs@[jj].0 as int, nbs@[jj].1 as int) == color);
                    }
                }
                assert forall|k: int| 0 <= k < head + 1 implies #[trigger] comp@[k] == index_of(
                    w,
                    queue@[k].0 as int,
                    queue@[k].1 as int,
                ) by {
                    assert(q_head[k] == queue@[k]);
                }
                assert(touches == exists|k: int|
                    0 <= k < head + 1 && #[trigger] border_pixel(w, h, queue@[k].0 as int, queue@[k].1 as int)) by {
                    if touches {
                        let k = choose|k: int| 0 <= k < head + 1 && #[trigger] border_pixel(w, h, q_head[k].0 as int, q_head[k].1 as int);
                        assert(q_head[k] == queue@[k]);
                    }
                    if exists|k: int| 0 <= k < head + 1 && #[trigger] border_pixel(w, h, queue@[k].0 as int, queue@[k].1 as int) {
                        let k = choose|k: int| 0 <= k < head + 1 && #[trigger] border_pixel(w, h, queue@[k].0 as int, queue@[k].1 as int);
                        assert(q_head[k] == queue@[k]);
                    }
                }
            }
            head = head + 1;
        }
        proof {
            // The grown region avoids the pixels visited before: their
            // same-coloured neighbours were visited already.
            assert forall|xx: int, yy: int, ax: int, ay: int|
                #![trigger adjacent(xx, yy, ax, ay), px(region, w, xx, yy)]
                in_bounds(w, h, xx, yy) && in_bounds(w, h, ax, ay) && adjacent(xx, yy, ax, ay) && px(region, w, xx, yy)
                    && px(allowed, w, ax, ay) implies px(region, w, ax, ay) by {
                lemma_index_in_range(w, h, xx, yy);
                lemma_index_in_range(w, h, ax, ay);
                let q = choose|q: int| 0 <= q < queue@.len() && #[trigger] queue@[q] == (xx as u32, yy as u32);
                assert(adjacent(queue@[q].0 as int, queue@[q].1 as int, ax, ay));
                assert(px(p, w, ax, ay) == color);
                assert(px(visited@, w, ax, ay));
                if px(v0, w, ax, ay) {
                    assert(adjacent(ax, ay, xx, yy));
                    assert(grown_step(w, h, seeds, allowed, region, queue@, parent, q));
                    assert(px(p, w, xx, yy) == color);
                    assert(px(v0, w, xx, yy));
                    assert(false);
                }
            }
            assert(grown_from(w, h, seeds, allowed, region, queue@, parent));
            assert forall|k: int| 0 <= k < seeds.len() && #[trigger] seed_ok(w, h, allowed, seeds[k]) implies px(
                region,
                w,
                seeds[k].0 as int,
                seeds[k].1 as int,
            ) by {
                assert(grown_step(w, h, seeds, allowed, region, queue@, parent, 0));
            }
            assert(flood_region(w, h, seeds, allowed, region));
            assert forall|i: int| 0 <= i < n && #[trigger] visited@[i] implies p[i] == color by {
                if !v0[i] {
                    lemma_xy_of_index(w, h, i);
                    let xx = i % (w as int);
                    let yy = i / (w as int);
                    assert(px(region, w, xx, yy));
                    let q = choose|q: int| 0 <= q < queue@.len() && #[trigger] queue@[q] == (xx as u32, yy as u32);
                    assert(grown_step(w, h, seeds, allowed, region, queue@, parent, q));
                }
            }
            assert forall|xx: int, yy: int, ax: int, ay: int|
                #![trigger adjacent(xx, yy, ax, ay), px(visited@, w, xx, yy)]
                in_bounds(w, h, xx, yy) && in_bounds(w, h, ax, ay) && adjacent(xx, yy, ax, ay) && px(visited@, w, xx, yy)
                    && px(p, w, ax, ay) == color implies px(visited@, w, ax, ay) by {
                lemma_index_in_range(w, h, xx, yy);
                lemma_index_in_range(w, h, ax, ay);
                if px(v0, w, xx, yy) {
                    assert(px(v0, w, ax, ay));
                } else {
                    assert(px(region, w, xx, yy));
                    let q = choose|q: int| 0 <= q < queue@.len() && #[trigger] queue@[q] == (xx as u32, yy as u32);
                    assert(adjacent(queue@[q].0 as int, queue@[q].1 as int, ax, ay));
                }
            }
            assert forall|i: int| 0 <= i < n && #[trigger] region[i] implies exists|k: int|
                0 <= k < comp@.len() && #[trigger] comp@[k] == i by {
                lemma_xy_of_index(w, h, i);
                let xx = i % (w as int);
                let yy = i / (w as int);
                assert(px(region, w, xx, yy));
                let q = choose|q: int| 0 <= q < queue@.len() && #[trigger] queue@[q] == (xx as u32, yy as u32);
                assert(comp@[q] == index_of(w, queue@[q].0 as int, queue@[q].1 as int));
            }
            assert forall|k: int| 0 <= k < comp@.len() implies (#[trigger] comp@[k]) < n && region[comp@[k] as int] by {
                assert(grown_step(w, h, seeds, allowed, region, queue@, parent, k));
                lemma_index_in_range(w, h, queue@[k].0 as int, queue@[k].1 as int);
            }
            if touches {
                let k = choose|k: int| 0 <= k < head && #[trigger] border_pixel(w, h, queue@[k].0 as int, queue@[k].1 as int);
                assert(grown_step(w, h, seeds, allowed, region, queue@, parent, k));
                assert(px(region, w, queue@[k].0 as int, queue@[k].1 as int));
            }
            if region_on_border(w, h, region) {
                let (xx, yy) = choose|xx: int, yy: int| #[trigger] px(region, w, xx, yy) && in_bounds(w, h, xx, yy)
                    && border_pixel(w, h, xx, yy);
                let q = choose|q: int| 0 <= q < queue@.len() && #[trigger] queue@[q] == (xx as u32, yy as u32);
                assert(border_pixel(w, h, queue@[q].0 as int, queue@[q].1 as int));
            }
        }
        proof {
            assert forall|i: int| 0 <= i < n && #[trigger] region[i] implies exists|k: int|
                0 <= k < comp@.len() && #[trigger] comp@[k] == i by {
                lemma_xy_of_index(w, h, i);
                let xx = i % (w as int);
                let yy = i / (w as int);
                assert(px(region, w, xx, yy));
                let q = choose|q: int| 0 <= q < queue@.len() && #[trigger] queue@[q] == (xx as u32, yy as u32);
                assert(comp@[q] == index_of(w, queue@[q].0 as int, queue@[q].1 as int));
                assert(comp@[q] == i);
            }
            assert(forall|i: int| 0 <= i < self.pixels@.len() && #[trigger] region[i] ==> exists|k: int|
                0 <= k < comp@.len() && #[trigger] comp@[k] == i);
        }
        let res = (comp, touches, Ghost(region));
        proof {
            assert(res.2@ == region);
            assert(res.0@ == comp@);
            assert(forall|i: int| 0 <= i < self.pixels@.len() && #[trigger] res.2@[i] ==> exists|k: int|
                0 <= k < res.0@.len() && #[trigger] res.0@[k] == i);
        }
        res
    }
}

/// The flat index of `(x, y)` in a `width` x `height` mask of `n` flags.
fn mask_index_checked(width: u32, height: u32, n: usize, x: u32, y: u32) -> (i: usize)
    requires
        n == width * height,
        x < width,
        y < height,
    ensures
        i == index_of(width, x as int, y as int),
        i < n,
{
    proof {
        lemma_index_in_range(width, height, x as int, y as int);
    }
    assert(y * width <= y * width + x);
    (y as usize) * (width as usize) + (x as usize)
}

impl SceneAssetMask {
    /// Grows the component of every pixel of colour `color` not yet
    /// visited, in row-major order, and flips the pixels of each small
    /// component to `!color`.
    fn clean_components(&self, color: bool, limit: usize) -> (m: Self)
        requires
            self.wf(),
        ensures
            m.width == self.width,
            m.height == self.height,
            m.wf(),
            exists|regions: Seq<Seq<bool>>, starts: Seq<(u32, u32)>|
                cleaned(self.width, self.height, self.pixels@, color, limit as int, regions, starts, m.pixels@),
    {
        let w = self.width;
        let h = self.height;
        let n = self.pixels.len();
        let ghost p = self.pixels@;
        let mut visited = all_false(n);
        let mut out = self.pixels.clone();
        let ghost mut regions: Seq<Seq<bool>> = Seq::empty();
        let ghost mut starts: Seq<(u32, u32)> = Seq::empty();
        proof {
            assert forall|xx: int, yy: int, ax: int, ay: int|
                #![trigger adjacent(xx, yy, ax, ay), px(visited@, w, xx, yy)]
                in_bounds(w, h, xx, yy) && in_bounds(w, h, ax, ay) && adjacent(xx, yy, ax, ay) && px(visited@, w, xx, yy)
                    && px(p, w, ax, ay) == color implies px(visited@, w, ax, ay) by {
                lemma_index_in_range(w, h, xx, yy);
            }
        }
        let mut y: u32 = 0;
        while y < h
            invariant
                self.wf(),
                w == self.width,
                h == self.height,
                n == self.pixels@.len(),
                p == self.pixels@,
                y <= h,
                visited@.len() == n,
                out@.len() == n,
                closed_visited(w, h, p, color, visited@),
                regions.len() == starts.len(),
                forall|k: int|
                    0 <= k < regions.len() ==> flood_region(w, h, seq![starts[k]], color_flags(p, color), #[trigger] regions[k]),
                forall|k: int| 0 <= k < regions.len() ==> (#[trigger] regions[k]).len() == n,
                forall|i: int| 0 <= i < n ==> (#[trigger] visited@[i] <==> exists|k: int| 0 <= k < regions.len() && #[trigger] regions[k][i]),
                forall|i: int| 0 <= i < n && !visited@[i] ==> #[trigger] out@[i] == p[i],
                forall|i: int, k: int|
                    0 <= i < n && 0 <= k < regions.len() && #[trigger] regions[k][i] ==> out@[i] == (if small_component(
                        w,
                        h,
                        color,
                        limit as int,
                        regions[k],
                    ) {
                        !color
                    } else {
                        color
                    }),
                forall|xx: int, yy: int|
                    in_bounds(w, h, xx, yy) && yy < y && px(p, w, xx, yy) == color ==> #[trigger] px(visited@, w, xx, yy),
            decreases h - y,
        {
            let mut x: u32 = 0;
            while x < w
                invariant
                    self.wf(),
                    w == self.width,
                    h == self.height,
                    n == self.pixels@.len(),
                    p == self.pixels@,
                    y < h,
                    x <= w,
                    visited@.len() == n,
                    out@.len() == n,
                    closed_visited(w, h, p, color, visited@),
                    regions.len() == starts.len(),
                    forall|k: int|
                        0 <= k < regions.len() ==> flood_region(w, h, seq![starts[k]], color_flags(p, color), #[trigger] regions[k]),
                    forall|k: int| 0 <= k < regions.len() ==> (#[trigger] regions[k]).len() == n,
                    forall|i: int| 0 <= i < n ==> (#[trigger] visited@[i] <==> exists|k: int| 0 <= k < regions.len() && #[trigger] regions[k][i]),
                    forall|i: int| 0 <= i < n && !visited@[i] ==> #[trigger] out@[i] == p[i],
                    forall|i: int, k: int|
                        0 <= i < n && 0 <= k < regions.len() && #[trigger] regions[k][i] ==> out@[i] == (if small_component(
                            w,
                            h,
                            color,
                            limit as int,
                            regions[k],
                        ) {
                            !color
                        } else {
                            color
                        }),
                    forall|xx: int, yy: int|
                        in_bounds(w, h, xx, yy) && (yy < y || (yy == y && xx < x)) && px(p, w, xx, yy) == color
                            ==> #[trigger] px(visited@, w, xx, yy),
                decreases w - x,
            {
                let idx = mask_index_checked(w, h, n, x, y);
                let ghost vis_start = visited@;
                if self.pixels[idx] == color && !visited[idx] {
                    let ghost old_vis = visited@;
                    let ghost old_out = out@;
                    let ghost old_regions = regions;
                    let (comp, touches, Ghost(r)) = self.grow_component(x, y, color, &mut visited);
                    let small = if color {
                        comp.len() < limit
                    } else {
                        !touches && comp.len() <= limit
                    };
                    proof {
                        assert(seed_ok(w, h, color_flags(p, color), seq![(x, y)][0]));
                        assert(px(r, w, x as int, y as int));
                        assert(px(visited@, w, x as int, y as int));
                        assert(small == small_component(w, h, color, limit as int, r));
                        assert forall|i: int| 0 <= i < n && #[trigger] r[i] implies p[i] == color by {
                            assert(visited@[i]);
                        }
                    }
                    if small {
                        let mut k: usize = 0;
                        while k < comp.len()
                            invariant
                                n == self.pixels@.len(),
                                out@.len() == n,
                                forall|kk: int| 0 <= kk < comp@.len() ==> (#[trigger] comp@[kk]) < n && r[comp@[kk] as int],
                                k <= comp@.len(),
                                forall|i: int|
                                    0 <= i < n ==> #[trigger] out@[i] == (if exists|kk: int| 0 <= kk < k && comp@[kk] == i {
                                        !color
                                    } else {
                                        old_out[i]
                                    }),
                            decreases comp.len() - k,
                        {
                            let ghost before = out@;
                            out.set(comp[k], !color);
                            proof {
                                assert forall|i: int| 0 <= i < n implies #[trigger] out@[i] == (if exists|kk: int|
                                    0 <= kk < k + 1 && comp@[kk] == i {
                                    !color
                                } else {
                                    old_out[i]
                                }) by {
                                    if i == comp@[k as int] {
                                        assert(0 <= k < k + 1 && comp@[k as int] == i);
                                    } else {
                                        assert(before[i] == out@[i]);
                                        if exists|kk: int| 0 <= kk < k + 1 && comp@[kk] == i {
                                            let kk = choose|kk: int| 0 <= kk < k + 1 && comp@[kk] == i;
                                            assert(kk < k);
                                        }
                                    }
                                }
                            }
                            k = k + 1;
                        }
                    }
                    proof {
                        regions = regions.push(r);
                        starts = starts.push((x, y));
                        let kr = old_regions.len() as int;
                        assert(regions[kr] == r);
                        assert forall|kk: int| 0 <= kk < old_regions.len() implies #[trigger] regions[kk] == old_regions[kk] by {}
                        assert forall|i: int| 0 <= i < n implies (#[trigger] visited@[i] <==> exists|k: int|
                            0 <= k < regions.len() && #[trigger] regions[k][i]) by {
                            if visited@[i] {
                                if old_vis[i] {
                                    let k = choose|k: int| 0 <= k < old_regions.len() && #[trigger] old_regions[k][i];
                                    assert(regions[k] == old_regions[k]);
                                } else {
                                    assert(r[i]);
                                    assert(regions[kr][i]);
                                }
                            } else {
                                if exists|k: int| 0 <= k < regions.len() && #[trigger] regions[k][i] {
                                    let k = choose|k: int| 0 <= k < regions.len() && #[trigger] regions[k][i];
                                    if k < kr {
                                        assert(old_regions[k][i]);
                                        assert(old_vis[i]);
                                    }
                                }
                            }
                        }
                        assert forall|i: int| 0 <= i < n && !visited@[i] implies #[trigger] out@[i] == p[i] by {
                            assert(!old_vis[i]);
                            assert(!r[i]);
                            if small {
                                if exists|kk: int| 0 <= kk < comp@.len() && comp@[kk] == i {
                                    let kk = choose|kk: int| 0 <= kk < comp@.len() && comp@[kk] == i;
                                    assert(r[comp@[kk] as int]);
                                }
                            }
                        }
                        assert forall|i: int, k: int|
                            0 <= i < n && 0 <= k < regions.len() && #[trigger] regions[k][i] implies out@[i] == (
                            if small_component(w, h, color, limit as int, regions[k]) {
                                !color
                            } else {
                                color
                            }) by {
                            if k < kr {
                                assert(old_regions[k][i]);
                                assert(old_vis[i]);
                                assert(!r[i]);
                                if small {
                                    if exists|kk: int| 0 <= kk < comp@.len() && comp@[kk] == i {
                                        let kk = choose|kk: int| 0 <= kk < comp@.len() && comp@[kk] == i;
                                        assert(r[comp@[kk] as int]);
                                    }
                                }
                            } else {
                                assert(r[i]);
                                assert(!old_vis[i]);
                                if small {
                                    let kk = choose|kk: int| 0 <= kk < comp@.len() && #[trigger] comp@[kk] == i;
                                    assert(0 <= kk < comp@.len() && comp@[kk] == i);
                                }
                            }
                        }
                        assert forall|k: int|
                            0 <= k < regions.len() implies flood_region(w, h, seq![starts[k]], color_flags(p, color), #[trigger] regions[k]) by {
                            if k < kr {
                                assert(regions[k] == old_regions[k]);
                            }
                        }
                    }
                }
                proof {
                    assert(px(p, w, x as int, y as int) == color ==> px(visited@, w, x as int, y as int));
                    assert(forall|i: int| 0 <= i < n && vis_start[i] ==> #[trigger] visited@[i]);
                    assert forall|xx: int, yy: int|
                        in_bounds(w, h, xx, yy) && (yy < y || (yy == y && xx < x + 1)) && px(p, w, xx, yy) == color
                            implies #[trigger] px(visited@, w, xx, yy) by {
                        lemma_index_in_range(w, h, xx, yy);
                        lemma_index_in_range(w, h, x as int, y as int);
                        if !(xx == x && yy == y) {
                            assert(px(vis_start, w, xx, yy));
                        }
                    }
                }
                x = x + 1;
            }
            y = y + 1;
        }
        proof {
            assert(cleaned(w, h, p, color, limit as int, regions, starts, out@)) by {
                assert forall|i: int| 0 <= i < p.len() && p[i] != color implies #[trigger] out@[i] == p[i] by {
                    if visited@[i] {
                        assert(p[i] == color);
                    }
                }
                assert forall|i: int| 0 <= i < p.len() && p[i] == color implies exists|k: int|
                    0 <= k < regions.len() && #[trigger] regions[k][i] by {
                    lemma_xy_of_index(w, h, i);
                    let xx = i % (w as int);
                    let yy = i / (w as int);
                    assert(px(visited@, w, xx, yy));
                }
            }
        }
        let m = SceneAssetMask { width: w, height: h, pixels: out };
        proof {
            assert(m.pixels@ == out@);
            assert(cleaned(self.width, self.height, self.pixels@, color, limit as int, regions, starts, m.pixels@));
        }
        m
    }

    /// Deselects every 4-connected selected component smaller than
    /// `min_size` pixels; 0 leaves the mask as it is.
    pub fn without_small_components(&self, min_size: usize) -> (m: Self)
        requires
            self.wf(),
        ensures
            m.width == self.width,
            m.height == self.height,
            m.wf(),
            min_size == 0 ==> m.pixels@ == self.pixels@,
            min_size > 0 ==> exists|regions: Seq<Seq<bool>>, starts: Seq<(u32, u32)>|
                cleaned(self.width, self.height, self.pixels@, true, min_size as int, regions, starts, m.pixels@),
    {
        if min_size == 0 {
            return self.copy();
        }
        self.clean_components(true, min_size)
    }

    /// Selects every 4-connected unselected region of at most `max_size`
    /// pixels that does not touch the border; 0 leaves the mask as it is.
    pub fn with_filled_small_holes(&self, max_size: usize) -> (m: Self)
        requires
            self.wf(),
        ensures
            m.width == self.width,
            m.height == self.height,
            m.wf(),
            max_size == 0 ==> m.pixels@ == self.pixels@,
            max_size > 0 ==> exists|regions: Seq<Seq<bool>>, starts: Seq<(u32, u32)>|
                cleaned(self.width, self.height, self.pixels@, false, max_size as int, regions, starts, m.pixels@),
    {
        if max_size == 0 {
            return self.copy();
        }
        self.clean_components(false, max_size)
    }
}

/// Removing small selected components never selects a pixel: the result
/// lies within the selection it started from.
pub proof fn law_component_removal_only_deselects(
    width: u32,
    height: u32,
    p: Seq<bool>,
    limit: int,
    regions: Seq<Seq<bool>>,
    starts: Seq<(u32, u32)>,
    out: Seq<bool>,
)
    requires
        cleaned(width, height, p, true, limit, regions, starts, out),
    ensures
        forall|i: int| 0 <= i < p.len() && #[trigger] out[i] ==> p[i],
{
    assert forall|i: int| 0 <= i < p.len() && #[trigger] out[i] implies p[i] by {
        if !p[i] {
            assert(out[i] == p[i]);
        }
    }
}

/// Filling small holes never deselects a pixel: the starting selection
/// stays within the result.
pub proof fn law_hole_filling_only_selects(
    width: u32,
    height: u32,
    p: Seq<bool>,
    limit: int,
    regions: Seq<Seq<bool>>,
    starts: Seq<(u32, u32)>,
    out: Seq<bool>,
)
    requires
        cleaned(width, height, p, false, limit, regions, starts, out),
    ensures
        forall|i: int| 0 <= i < p.len() && #[trigger] p[i] ==> out[i],
{
    assert forall|i: int| 0 <= i < p.len() && #[trigger] p[i] implies out[i] by {
        assert(out[i] == p[i]);
    }
}

} // verus!
