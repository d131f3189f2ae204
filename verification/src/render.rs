//! Row queries over a render snapshot: which tiles and entities a renderer
//! draws on one row, within a window of columns.

use std::ops::Range;
use vstd::prelude::*;

use crate::scene_model::{VisualRenderEntity, VisualRenderSnapshot, VisualRenderTile};

verus! {

/// The window `columns`, with both ends clamped to `width`.
pub open spec fn clipped(columns: Range<usize>, width: usize) -> Range<usize> {
    Range {
        start: if columns.start <= width { columns.start } else { width },
        end: if columns.end <= width { columns.end } else { width },
    }
}

/// A cell `(x, y)` lies on `row` and inside the window.
pub open spec fn in_window(x: usize, y: usize, row: usize, cols: Range<usize>) -> bool {
    y == row && cols.start <= x && x < cols.end
}

pub open spec fn tile_shown(row: usize, cols: Range<usize>) -> spec_fn(VisualRenderTile) -> bool {
    |t: VisualRenderTile| in_window(t.position.x, t.position.y, row, cols)
}

pub open spec fn entity_shown(row: usize, cols: Range<usize>) -> spec_fn(VisualRenderEntity) -> bool {
    |e: VisualRenderEntity| in_window(e.position.x, e.position.y, row, cols)
}

/// The records a row query returns: none below the snapshot, else those
/// on the row inside the clamped window, in their original order.
pub open spec fn row_records<T>(
    s: Seq<T>,
    height: usize,
    row: usize,
    keep: spec_fn(T) -> bool,
) -> Seq<T> {
    if row >= height {
        Seq::empty()
    } else {
        s.filter(keep)
    }
}

pub open spec fn deref_all<T>(s: Seq<&T>) -> Seq<T> {
    s.map_values(|x: &T| *x)
}

/// Clamps both ends of a column window to the snapshot width.
pub fn clipped_columns(columns: Range<usize>, width: usize) -> (r: Range<usize>)
    ensures
        r == clipped(columns, width),
{
    let start = if columns.start <= width {
        columns.start
    } else {
        width
    };
    let end = if columns.end <= width {
        columns.end
    } else {
        width
    };
    start..end
}

/// The tiles drawn on `row` inside the window, in snapshot order.
pub fn visible_tiles_for_row<'a>(
    snapshot: &'a VisualRenderSnapshot,
    row: usize,
    columns: Range<usize>,
) -> (r: Vec<&'a VisualRenderTile>)
    ensures
        deref_all(r@) == row_records(
            snapshot.tiles@,
            snapshot.height,
            row,
            tile_shown(row, clipped(columns, snapshot.width)),
        ),
{
    let mut out: Vec<&'a VisualRenderTile> = Vec::new();
    if row >= snapshot.height {
        proof {
            assert(deref_all(out@) =~= Seq::<VisualRenderTile>::empty());
        }
        return out;
    }
    let cols = clipped_columns(columns, snapshot.width);
    let ghost keep = tile_shown(row, cols);
    let mut i: usize = 0;
    while i < snapshot.tiles.len()
        invariant
            i <= snapshot.tiles@.len(),
            keep == tile_shown(row, cols),
            deref_all(out@) == snapshot.tiles@.take(i as int).filter(keep),
        decreases snapshot.tiles.len() - i,
    {
        let t = &snapshot.tiles[i];
        proof {
            reveal(Seq::filter);
            assert(snapshot.tiles@.take(i + 1).drop_last() =~= snapshot.tiles@.take(i as int));
        }
        if t.position.y == row && cols.start <= t.position.x && t.position.x < cols.end {
            out.push(t);
            proof {
                assert(deref_all(out@) =~= snapshot.tiles@.take(i + 1).filter(keep));
            }
        } else {
            proof {
                assert(deref_all(out@) =~= snapshot.tiles@.take(i + 1).filter(keep));
            }
        }
        i = i + 1;
    }
    proof {
        assert(snapshot.tiles@.take(i as int) =~= snapshot.tiles@);
    }
    out
}

/// The entities drawn on `row` inside the window, in snapshot order.
pub fn intersecting_entities_for_row<'a>(
    snapshot: &'a VisualRenderSnapshot,
    row: usize,
    columns: Range<usize>,
) -> (r: Vec<&'a VisualRenderEntity>)
    ensures
        deref_all(r@) == row_records(
            snapshot.entities@,
            snapshot.height,
            row,
            entity_shown(row, clipped(columns, snapshot.width)),
        ),
{
    let mut out: Vec<&'a VisualRenderEntity> = Vec::new();
    if row >= snapshot.height {
        proof {
            assert(deref_all(out@) =~= Seq::<VisualRenderEntity>::empty());
        }
        return out;
    }
    let cols = clipped_columns(columns, snapshot.width);
    let ghost keep = entity_shown(row, cols);
    let mut i: usize = 0;
    while i < snapshot.entities.len()
        invariant
            i <= snapshot.entities@.len(),
            keep == entity_shown(row, cols),
            deref_all(out@) == snapshot.entities@.take(i as int).filter(keep),
        decreases snapshot.entities.len() - i,
    {
        let e = &snapshot.entities[i];
        proof {
            reveal(Seq::filter);
            assert(snapshot.entities@.take(i + 1).drop_last() =~= snapshot.entities@.take(
                i as int,
            ));
        }
        if e.position.y == row && cols.start <= e.position.x && e.position.x < cols.end {
            out.push(e);
            proof {
                assert(deref_all(out@) =~= snapshot.entities@.take(i + 1).filter(keep));
            }
        } else {
            proof {
                assert(deref_all(out@) =~= snapshot.entities@.take(i + 1).filter(keep));
            }
        }
        i = i + 1;
    }
    proof {
        assert(snapshot.entities@.take(i as int) =~= snapshot.entities@);
    }
    out
}

} // verus!
