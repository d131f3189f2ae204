//! Painting through selection masks: filling, alpha painting, clone
//! stamping and patch compositing over rasters, each counting the pixels it
//! changed.

use vstd::prelude::*;
use crate::mask::{SceneAssetPixelRect, count_true, selection_bounds, mask_selection_bounds, selected_pixel_count, in_bounds, lemma_xy_of_index, mask_xy};
use crate::raster::{SceneAssetRaster, pixel_seq, same_pixel, changed_flags};
use crate::asset::SceneAssetEditError;
use crate::text::{dec, u32_text};

verus! {

/// Two pixels hold the same channels exactly when their channel sequences
/// are equal.
pub proof fn lemma_same_pixel(a: Seq<u8>, i: int, b: Seq<u8>, j: int)
    ensures
        same_pixel(a, i, b, j) <==> pixel_seq(a, i) == pixel_seq(b, j),
{
    if same_pixel(a, i, b, j) {
        assert(pixel_seq(a, i) =~= pixel_seq(b, j));
    }
    if pixel_seq(a, i) == pixel_seq(b, j) {
        assert(pixel_seq(a, i)[0] == pixel_seq(b, j)[0]);
        assert(pixel_seq(a, i)[1] == pixel_seq(b, j)[1]);
        assert(pixel_seq(a, i)[2] == pixel_seq(b, j)[2]);
        assert(pixel_seq(a, i)[3] == pixel_seq(b, j)[3]);
    }
}

/// The changed-pixel flags of two equally sized rasters, given that pixel
/// `j` differs exactly when `f(j)` holds.
proof fn lemma_changed_flags_are(a: SceneAssetRaster, b: SceneAssetRaster, flags: Seq<bool>)
    requires
        a.wf(),
        b.wf(),
        a.width == b.width,
        a.height == b.height,
        flags.len() == a.count(),
        forall|j: int| 0 <= j < a.count() ==> #[trigger] flags[j] == (a.pix(j) != b.pix(j)),
    ensures
        flags == changed_flags(a.data@, b.data@, a.count()),
{
    assert forall|j: int| 0 <= j < a.count() implies #[trigger] flags[j] == changed_flags(a.data@, b.data@, a.count())[j] by {
        lemma_same_pixel(a.data@, j, b.data@, j);
    }
    assert(flags =~= changed_flags(a.data@, b.data@, a.count()));
}

/// What alpha painting leaves of a pixel: its colour, with alpha `alpha`.
pub open spec fn with_alpha(p: Seq<u8>, alpha: u8) -> Seq<u8> {
    p.update(3, alpha)
}

impl SceneAssetRaster {
    /// Sets every selected pixel to `color`. Returns how many pixels changed.
    pub fn fill_masked_pixels(&mut self, mask: &[bool], color: [u8; 4]) -> (n: usize)
        requires
            old(self).wf(),
            mask@.len() == old(self).count(),
        ensures
            final(self).wf(),
            final(self).width == old(self).width,
            final(self).height == old(self).height,
            forall|i: int|
                0 <= i < old(self).count() ==> #[trigger] final(self).pix(i) == (if mask@[i] {
                    color@
                } else {
                    old(self).pix(i)
                }),
            n == count_true(changed_flags(old(self).data@, final(self).data@, old(self).count())),
    {
        let ghost s0 = *self;
        let n = self.pixel_len();
        let mut flags: Vec<bool> = Vec::new();
        let mut i: usize = 0;
        while i < n
            invariant
                self.wf(),
                s0.wf(),
                self.width == s0.width,
                self.height == s0.height,
                n == s0.count(),
                mask@.len() == n,
                i <= n,
                forall|j: int| 0 <= j < i ==> #[trigger] self.pix(j) == (if mask@[j] { color@ } else { s0.pix(j) }),
                forall|j: int| i <= j < n ==> #[trigger] self.pix(j) == s0.pix(j),
                flags@.len() == i,
                forall|j: int| 0 <= j < i ==> #[trigger] flags@[j] == (s0.pix(j) != self.pix(j)),
            decreases n - i,
        {
            let p = self.pixel(i);
            let same = p[0] == color[0] && p[1] == color[1] && p[2] == color[2] && p[3] == color[3];
            proof {
                assert(same <==> p@ =~= color@);
            }
            if mask[i] {
                self.set_pixel(i, color);
            }
            flags.push(mask[i] && !same);
            i = i + 1;
        }
        proof {
            lemma_changed_flags_are(s0, *self, flags@);
        }
        selected_pixel_count(flags.as_slice())
    }

    /// Sets the alpha of every selected pixel to `alpha`, keeping its
    /// colour. Returns how many pixels changed.
    pub fn alpha_paint_masked_pixels(&mut self, mask: &[bool], alpha: u8) -> (n: usize)
        requires
            old(self).wf(),
            mask@.len() == old(self).count(),
        ensures
            final(self).wf(),
            final(self).width == old(self).width,
            final(self).height == old(self).height,
            forall|i: int|
                0 <= i < old(self).count() ==> #[trigger] final(self).pix(i) == (if mask@[i] {
                    with_alpha(old(self).pix(i), alpha)
                } else {
                    old(self).pix(i)
                }),
            n == count_true(changed_flags(old(self).data@, final(self).data@, old(self).count())),
    {
        let ghost s0 = *self;
        let n = self.pixel_len();
        let mut flags: Vec<bool> = Vec::new();
        let mut i: usize = 0;
        while i < n
            invariant
                self.wf(),
                s0.wf(),
                self.width == s0.width,
                self.height == s0.height,
                n == s0.count(),
                mask@.len() == n,
                i <= n,
                forall|j: int|
                    0 <= j < i ==> #[trigger] self.pix(j) == (if mask@[j] {
                        with_alpha(s0.pix(j), alpha)
                    } else {
                        s0.pix(j)
                    }),
                forall|j: int| i <= j < n ==> #[trigger] self.pix(j) == s0.pix(j),
                flags@.len() == i,
                forall|j: int| 0 <= j < i ==> #[trigger] flags@[j] == (s0.pix(j) != self.pix(j)),
            decreases n - i,
        {
            let p = self.pixel(i);
            let q = [p[0], p[1], p[2], alpha];
            proof {
                assert(q@ =~= with_alpha(p@, alpha));
                assert(p[3] == alpha <==> p@ =~= q@) by {
                    if p@ =~= q@ {
                        assert(p@[3] == q@[3]);
                    }
                }
            }
            let differs = mask[i] && p[3] != alpha;
            if mask[i] {
                self.set_pixel(i, q);
            }
            flags.push(differs);
            i = i + 1;
        }
        proof {
            lemma_changed_flags_are(s0, *self, flags@);
        }
        selected_pixel_count(flags.as_slice())
    }
}

/// What clone stamping leaves at flat index `i`: for a selected pixel whose
/// source, `(dx, dy)` away, lies in the image, the source pixel of the
/// original; any other pixel unchanged.
pub open spec fn stamped_pixel(image: SceneAssetRaster, mask: Seq<bool>, dx: int, dy: int, i: int) -> Seq<u8> {
    let x = i % (image.width as int);
    let y = i / (image.width as int);
    if mask[i] && in_bounds(image.width, image.height, x + dx, y + dy) {
        image.pix_at(x + dx, y + dy)
    } else {
        image.pix(i)
    }
}

impl SceneAssetRaster {
    /// Clone stamping: every selected pixel takes the pixel of the unedited
    /// image that lies as far from it as `sample` lies from `target`, where
    /// that pixel is inside the image. Returns how many pixels changed.
    pub fn clone_stamp_pixels(&mut self, mask: &[bool], sample: (u32, u32), target: (u32, u32)) -> (n: usize)
        requires
            old(self).wf(),
            mask@.len() == old(self).count(),
        ensures
            final(self).wf(),
            final(self).width == old(self).width,
            final(self).height == old(self).height,
            forall|i: int|
                0 <= i < old(self).count() ==> #[trigger] final(self).pix(i) == stamped_pixel(
                    *old(self),
                    mask@,
                    sample.0 - target.0,
                    sample.1 - target.1,
                    i,
                ),
            n == count_true(changed_flags(old(self).data@, final(self).data@, old(self).count())),
    {
        let ghost s0 = *self;
        let ghost dxi: int = sample.0 - target.0;
        let ghost dyi: int = sample.1 - target.1;
        let dx: i64 = sample.0 as i64 - target.0 as i64;
        let dy: i64 = sample.1 as i64 - target.1 as i64;
        let source_data = self.data.clone();
        let source = SceneAssetRaster { width: self.width, height: self.height, data: source_data };
        proof {
            assert(source.data@ =~= s0.data@);
        }
        let w = self.width;
        let h = self.height;
        let n = self.pixel_len();
        let mut flags: Vec<bool> = Vec::new();
        let mut i: usize = 0;
        while i < n
            invariant
                self.wf(),
                s0.wf(),
                source.data@ == s0.data@,
                source.width == w,
                source.height == h,
                -0x1_0000_0000 < dx < 0x1_0000_0000,
                -0x1_0000_0000 < dy < 0x1_0000_0000,
                self.width == w,
                self.height == h,
                s0.width == w,
                s0.height == h,
                dx == dxi,
                dy == dyi,
                n == s0.count(),
                mask@.len() == n,
                i <= n,
                forall|j: int| 0 <= j < i ==> #[trigger] self.pix(j) == stamped_pixel(s0, mask@, dxi, dyi, j),
                forall|j: int| i <= j < n ==> #[trigger] self.pix(j) == s0.pix(j),
                flags@.len() == i,
                forall|j: int| 0 <= j < i ==> #[trigger] flags@[j] == (s0.pix(j) != self.pix(j)),
            decreases n - i,
        {
            proof {
                lemma_xy_of_index(w, h, i as int);
            }
            let (x, y) = mask_xy(w, i);
            let sx: i64 = x as i64 + dx;
            let sy: i64 = y as i64 + dy;
            let p = self.pixel(i);
            let mut differs = false;
            if mask[i] && sx >= 0 && sy >= 0 && sx < w as i64 && sy < h as i64 {
                let q = source.get_pixel(sx as u32, sy as u32);
                differs = !(p[0] == q[0] && p[1] == q[1] && p[2] == q[2] && p[3] == q[3]);
                proof {
                    assert(!differs <==> p@ =~= q@) by {
                        if p@ =~= q@ {
                            assert(p@[0] == q@[0] && p@[1] == q@[1] && p@[2] == q@[2] && p@[3] == q@[3]);
                        }
                    }
                }
                self.set_pixel(i, q);
            }
            flags.push(differs);
            i = i + 1;
        }
        proof {
            lemma_changed_flags_are(s0, *self, flags@);
        }
        selected_pixel_count(flags.as_slice())
    }
}

pub open spec fn composite_size_message(sw: u32, sh: u32, pw: u32, ph: u32) -> Seq<char> {
    "mask-composite source and patch dimensions differ: "@ + dec(sw as nat) + "x"@ + dec(sh as nat) + " vs "@
        + dec(pw as nat) + "x"@ + dec(ph as nat)
}

/// What compositing a patch through a mask leaves at flat index `i`.
pub open spec fn composited_pixel(image: SceneAssetRaster, patch: SceneAssetRaster, mask: Seq<bool>, i: int) -> Seq<u8> {
    if mask[i] {
        patch.pix(i)
    } else {
        image.pix(i)
    }
}

impl SceneAssetRaster {
    /// Copies the patch's pixel into every selected pixel. Returns how many
    /// pixels changed and the smallest rectangle holding them. A patch of
    /// another size is an error and leaves the image as it was.
    pub fn composite_masked_patch(&mut self, patch: &SceneAssetRaster, mask: &[bool]) -> (r: Result<
        (usize, Option<SceneAssetPixelRect>),
        SceneAssetEditError,
    >)
        requires
            old(self).wf(),
            patch.wf(),
            mask@.len() == old(self).count(),
        ensures
            (old(self).width != patch.width || old(self).height != patch.height) ==> {
                &&& r matches Err(SceneAssetEditError::InvalidOperation(m))
                &&& m@ == composite_size_message(old(self).width, old(self).height, patch.width, patch.height)
                &&& *final(self) == *old(self)
            },
            (old(self).width == patch.width && old(self).height == patch.height) ==> (r matches Ok(res) && {
                &&& final(self).wf()
                &&& final(self).width == old(self).width
                &&& final(self).height == old(self).height
                &&& forall|i: int|
                    0 <= i < old(self).count() ==> #[trigger] final(self).pix(i) == composited_pixel(
                        *old(self),
                        *patch,
                        mask@,
                        i,
                    )
                &&& res.0 == count_true(changed_flags(old(self).data@, final(self).data@, old(self).count()))
                &&& selection_bounds(
                    old(self).width,
                    old(self).height,
                    changed_flags(old(self).data@, final(self).data@, old(self).count()),
                    res.1,
                )
            }),
    {
        if self.width != patch.width || self.height != patch.height {
            let mut m = String::from_str("mask-composite source and patch dimensions differ: ");
            m.append(&u32_text(self.width));
            m.append("x");
            m.append(&u32_text(self.height));
            m.append(" vs ");
            m.append(&u32_text(patch.width));
            m.append("x");
            m.append(&u32_text(patch.height));
            return Err(SceneAssetEditError::InvalidOperation(m));
        }
        let ghost s0 = *self;
        let n = self.pixel_len();
        let mut flags: Vec<bool> = Vec::new();
        let mut i: usize = 0;
        while i < n
            invariant
                self.wf(),
                s0.wf(),
                patch.wf(),
                self.width == s0.width,
                self.height == s0.height,
                patch.width == s0.width,
                patch.height == s0.height,
                n == s0.count(),
                mask@.len() == n,
                i <= n,
                forall|j: int| 0 <= j < i ==> #[trigger] self.pix(j) == composited_pixel(s0, *patch, mask@, j),
                forall|j: int| i <= j < n ==> #[trigger] self.pix(j) == s0.pix(j),
                flags@.len() == i,
                forall|j: int| 0 <= j < i ==> #[trigger] flags@[j] == (s0.pix(j) != self.pix(j)),
            decreases n - i,
        {
            let p = self.pixel(i);
            let mut differs = false;
            if mask[i] {
                let q = patch.pixel(i);
                differs = !(p[0] == q[0] && p[1] == q[1] && p[2] == q[2] && p[3] == q[3]);
                proof {
                    assert(!differs <==> p@ =~= q@) by {
                        if p@ =~= q@ {
                            assert(p@[0] == q@[0] && p@[1] == q@[1] && p@[2] == q@[2] && p@[3] == q@[3]);
                        }
                    }
                }
                self.set_pixel(i, q);
            }
            flags.push(differs);
            i = i + 1;
        }
        proof {
            lemma_changed_flags_are(s0, *self, flags@);
        }
        let changed = selected_pixel_count(flags.as_slice());
        let bounds = mask_selection_bounds(self.width, self.height, flags.as_slice());
        Ok((changed, bounds))
    }
}

impl SceneAssetRaster {
    /// Copies `source`'s pixel into every selected pixel.
    pub fn copy_masked_pixels(&mut self, source: &SceneAssetRaster, mask: &[bool])
        requires
            old(self).wf(),
            source.wf(),
            source.width == old(self).width,
            source.height == old(self).height,
            mask@.len() == old(self).count(),
        ensures
            final(self).wf(),
            final(self).width == old(self).width,
            final(self).height == old(self).height,
            forall|i: int|
                0 <= i < old(self).count() ==> #[trigger] final(self).pix(i) == composited_pixel(
                    *old(self),
                    *source,
                    mask@,
                    i,
                ),
    {
        let ghost s0 = *self;
        let n = self.pixel_len();
        let mut i: usize = 0;
        while i < n
            invariant
                self.wf(),
                s0.wf(),
                source.wf(),
                self.width == s0.width,
                self.height == s0.height,
                source.width == s0.width,
                source.height == s0.height,
                n == s0.count(),
                mask@.len() == n,
                i <= n,
                forall|j: int| 0 <= j < i ==> #[trigger] self.pix(j) == composited_pixel(s0, *source, mask@, j),
                forall|j: int| i <= j < n ==> #[trigger] self.pix(j) == s0.pix(j),
            decreases n - i,
        {
            if mask[i] {
                let q = source.pixel(i);
                self.set_pixel(i, q);
            }
            i = i + 1;
        }
    }
}

/// Filling is idempotent: filling the same pixels with the same colour a
/// second time leaves the image as it was and changes no pixel.
pub proof fn law_fill_is_idempotent(
    first: SceneAssetRaster,
    second: SceneAssetRaster,
    third: SceneAssetRaster,
    mask: Seq<bool>,
    color: Seq<u8>,
)
    requires
        first.wf(),
        second.wf(),
        third.wf(),
        second.width == first.width && second.height == first.height,
        third.width == first.width && third.height == first.height,
        mask.len() == first.count(),
        forall|i: int| 0 <= i < first.count() ==> #[trigger] second.pix(i) == (if mask[i] { color } else { first.pix(i) }),
        forall|i: int| 0 <= i < first.count() ==> #[trigger] third.pix(i) == (if mask[i] { color } else { second.pix(i) }),
    ensures
        forall|i: int| 0 <= i < first.count() ==> #[trigger] third.pix(i) == second.pix(i),
        count_true(changed_flags(second.data@, third.data@, first.count())) == 0,
{
    assert forall|i: int| 0 <= i < first.count() implies !#[trigger] changed_flags(second.data@, third.data@, first.count())[i] by {
        assert(third.pix(i) == second.pix(i));
        lemma_same_pixel(second.data@, i, third.data@, i);
    }
    lemma_no_flags(changed_flags(second.data@, third.data@, first.count()));
}

/// Compositing the untouched source back through the same mask undoes an
/// alpha paint: every pixel is again the source's pixel.
pub proof fn law_composite_from_source_undoes_alpha_paint(
    source: SceneAssetRaster,
    painted: SceneAssetRaster,
    restored: SceneAssetRaster,
    mask: Seq<bool>,
    alpha: u8,
)
    requires
        source.wf(),
        painted.wf(),
        restored.wf(),
        painted.width == source.width && painted.height == source.height,
        restored.width == source.width && restored.height == source.height,
        mask.len() == source.count(),
        forall|i: int|
            0 <= i < source.count() ==> #[trigger] painted.pix(i) == (if mask[i] {
                with_alpha(source.pix(i), alpha)
            } else {
                source.pix(i)
            }),
        forall|i: int|
            0 <= i < source.count() ==> #[trigger] restored.pix(i) == composited_pixel(painted, source, mask, i),
    ensures
        forall|i: int| 0 <= i < source.count() ==> #[trigger] restored.pix(i) == source.pix(i),
{
    assert forall|i: int| 0 <= i < source.count() implies #[trigger] restored.pix(i) == source.pix(i) by {
        assert(restored.pix(i) == composited_pixel(painted, source, mask, i));
        if !mask[i] {
            assert(painted.pix(i) == source.pix(i));
        }
    }
}

proof fn lemma_no_flags(v: Seq<bool>)
    requires
        forall|i: int| 0 <= i < v.len() ==> !#[trigger] v[i],
    ensures
        count_true(v) == 0,
    decreases v.len(),
{
    if v.len() > 0 {
        lemma_no_flags(v.drop_last());
    }
}

} // verus!
