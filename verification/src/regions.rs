//! Selection masks built from a feature map's named regions and from
//! polygons: the bounds a paint operation may touch, the regions a cutout
//! restores, and the polish applied to a selection.
//!
//! A feature map names rectangles in normalised coordinates; here they are
//! held already mapped to the pixels of one image. Polygons arrive already
//! rasterised, each as one flag per pixel or as the error that refused it.

use vstd::prelude::*;
use crate::mask::{
    SceneAssetMask, SceneAssetPixelRect, sat_add_u32, px, pixelwise, index_of, in_bounds, all_false,
    erosion, dilation, lemma_index_in_range,
};
use crate::components::cleaned;
use crate::mask::flood_region;
use crate::raster::{
    SceneAssetRaster, edge_point_seq, close_to_any, matte_selected, row_changes, rect_changes, clip_end, region_changes,
};
use crate::paint::lemma_same_pixel;
use crate::asset::{
    SceneAssetEditError, SceneAssetBackgroundSample, SceneAssetDefringeMode, SceneAssetMaskPreviewMode, default_magic_tolerance,
    default_background_sample, default_defringe_mode,
};
use crate::pipeline_args::{
    SceneAssetArgValue, bounded_arg, string_list_arg, choice_text, bad_choice, background_sample_named, defringe_named,
    pipeline_u8_arg, pipeline_u32_arg, pipeline_usize_arg, pipeline_background_sample_arg, pipeline_defringe_arg,
    pipeline_string_list_arg,
};
use crate::text::{blank, is_blank, trim, trim_seq, lemma_trim_blank, str_equal};

verus! {

/// A feature map's named regions, each mapped to the pixel rectangle it
/// covers in one image, in the map's order.
#[derive(Debug, Clone)]
pub struct SceneAssetPixelRegions {
    pub regions: Vec<(String, SceneAssetPixelRect)>,
}

/// The rectangle of the first region called `name`.
pub open spec fn region_rect(regions: Seq<(String, SceneAssetPixelRect)>, name: Seq<char>) -> Option<SceneAssetPixelRect>
    decreases regions.len(),
{
    if regions.len() == 0 {
        None
    } else if regions[0].0@ == name {
        Some(regions[0].1)
    } else {
        region_rect(regions.drop_first(), name)
    }
}

/// `(x, y)` lies in the rectangle.
pub open spec fn in_rect(r: SceneAssetPixelRect, x: int, y: int) -> bool {
    r.x <= x < sat_add_u32(r.x, r.w) && r.y <= y < sat_add_u32(r.y, r.h)
}

/// The first name that is not blank and whose trimmed text names no
/// region, trimmed.
pub open spec fn first_unknown(regions: Seq<(String, SceneAssetPixelRect)>, names: Seq<String>) -> Option<Seq<char>>
    decreases names.len(),
{
    if names.len() == 0 {
        None
    } else if !blank(names[0]@) && region_rect(regions, trim_seq(names[0]@)) is None {
        Some(trim_seq(names[0]@))
    } else {
        first_unknown(regions, names.drop_first())
    }
}

/// Some non-blank name's region covers `(x, y)`.
pub open spec fn named_cover(regions: Seq<(String, SceneAssetPixelRect)>, names: Seq<String>, x: int, y: int) -> bool {
    exists|k: int|
        #![trigger names[k]]
        0 <= k < names.len() && !blank(names[k]@) && region_rect(regions, trim_seq(names[k]@)) is Some && in_rect(
            region_rect(regions, trim_seq(names[k]@)).unwrap(),
            x,
            y,
        )
}

/// The error of the first polygon that was refused.
pub open spec fn first_polygon_error(polys: Seq<Result<Vec<bool>, SceneAssetEditError>>) -> Option<SceneAssetEditError>
    decreases polys.len(),
{
    if polys.len() == 0 {
        None
    } else if polys[0] is Err {
        Some(polys[0]->Err_0)
    } else {
        first_polygon_error(polys.drop_first())
    }
}

/// Some polygon covers `(x, y)`.
pub open spec fn polygon_cover(polys: Seq<Result<Vec<bool>, SceneAssetEditError>>, width: u32, x: int, y: int) -> bool {
    exists|k: int| 0 <= k < polys.len() && (#[trigger] polys[k]) is Ok && polys[k]->Ok_0@[index_of(width, x, y)]
}

/// Each rasterised polygon has one flag per pixel.
pub open spec fn polygons_fit(polys: Seq<Result<Vec<bool>, SceneAssetEditError>>, width: u32, height: u32) -> bool {
    forall|k: int| 0 <= k < polys.len() && (#[trigger] polys[k]) is Ok ==> polys[k]->Ok_0@.len() == width * height
}

pub open spec fn is_invalid(e: SceneAssetEditError, text: Seq<char>) -> bool {
    e matches SceneAssetEditError::InvalidOperation(m) && m@ == text
}

pub open spec fn is_unknown_region(e: SceneAssetEditError, name: Seq<char>) -> bool {
    e matches SceneAssetEditError::UnknownRegion(n) && n@ == name
}

/// Selecting the named regions and the polygons fails: names without a
/// feature map, a name the map lacks, or a refused polygon.
pub open spec fn select_fails(
    map: Option<&SceneAssetPixelRegions>,
    names: Seq<String>,
    polys: Seq<Result<Vec<bool>, SceneAssetEditError>>,
) -> bool {
    ||| names.len() > 0 && map is None
    ||| names.len() > 0 && map is Some && first_unknown(map.unwrap().regions@, names) is Some
    ||| first_polygon_error(polys) is Some
}

/// The error that selecting fails with, checked in that order; `no_map`
/// is the message for names without a feature map.
pub open spec fn select_error(
    map: Option<&SceneAssetPixelRegions>,
    names: Seq<String>,
    polys: Seq<Result<Vec<bool>, SceneAssetEditError>>,
    no_map: Seq<char>,
    e: SceneAssetEditError,
) -> bool {
    if names.len() > 0 && map is None {
        is_invalid(e, no_map)
    } else if names.len() > 0 && map is Some && first_unknown(map.unwrap().regions@, names) is Some {
        is_unknown_region(e, first_unknown(map.unwrap().regions@, names).unwrap())
    } else {
        first_polygon_error(polys) == Some(e)
    }
}

/// What the named regions (with a map) and the polygons cover.
pub open spec fn select_cover(
    map: Option<&SceneAssetPixelRegions>,
    names: Seq<String>,
    polys: Seq<Result<Vec<bool>, SceneAssetEditError>>,
    width: u32,
    x: int,
    y: int,
) -> bool {
    (map is Some && named_cover(map.unwrap().regions@, names, x, y)) || polygon_cover(polys, width, x, y)
}

/// A copy of an error, equal to it.
pub fn copy_error(e: &SceneAssetEditError) -> (r: SceneAssetEditError)
    ensures
        r == *e,
{
    match e {
        SceneAssetEditError::ImageFile { path, message } => SceneAssetEditError::ImageFile {
            path: path.clone(),
            message: message.clone(),
        },
        SceneAssetEditError::JsonFile { path, message } => SceneAssetEditError::JsonFile {
            path: path.clone(),
            message: message.clone(),
        },
        SceneAssetEditError::JsonParse { path, message } => SceneAssetEditError::JsonParse {
            path: path.clone(),
            message: message.clone(),
        },
        SceneAssetEditError::UnknownRegion(s) => SceneAssetEditError::UnknownRegion(s.clone()),
        SceneAssetEditError::InvalidFeatureMap(s) => SceneAssetEditError::InvalidFeatureMap(s.clone()),
        SceneAssetEditError::InvalidColor(s) => SceneAssetEditError::InvalidColor(s.clone()),
        SceneAssetEditError::UnknownExpression(s) => SceneAssetEditError::UnknownExpression(s.clone()),
        SceneAssetEditError::UnknownAnimation(s) => SceneAssetEditError::UnknownAnimation(s.clone()),
        SceneAssetEditError::InvalidOperation(s) => SceneAssetEditError::InvalidOperation(s.clone()),
        SceneAssetEditError::OutputExists(s) => SceneAssetEditError::OutputExists(s.clone()),
    }
}

impl SceneAssetPixelRegions {
    /// The rectangle of region `region`; a name the map lacks is an error.
    pub fn pixel_region(&self, region: &str) -> (r: Result<SceneAssetPixelRect, SceneAssetEditError>)
        ensures
            region_rect(self.regions@, region@) matches Some(rect) ==> r == Ok::<
                SceneAssetPixelRect,
                SceneAssetEditError,
            >(rect),
            region_rect(self.regions@, region@) is None ==> (r matches Err(e) && is_unknown_region(e, region@)),
    {
        let mut k: usize = 0;
        proof {
            assert(self.regions@.skip(0) =~= self.regions@);
        }
        while k < self.regions.len()
            invariant
                k <= self.regions@.len(),
                region_rect(self.regions@, region@) == region_rect(self.regions@.skip(k as int), region@),
            decreases self.regions.len() - k,
        {
            proof {
                assert(self.regions@.skip(k as int).drop_first() =~= self.regions@.skip(k + 1));
                assert(self.regions@.skip(k as int)[0] == self.regions@[k as int]);
            }
            if str_equal(self.regions[k].0.as_str(), region) {
                return Ok(self.regions[k].1);
            }
            k = k + 1;
        }
        proof {
            assert(self.regions@.skip(k as int).len() == 0);
        }
        Err(SceneAssetEditError::UnknownRegion(region.to_string()))
    }
}

proof fn lemma_named_cover_step(regions: Seq<(String, SceneAssetPixelRect)>, names: Seq<String>, k: int, x: int, y: int)
    requires
        0 <= k < names.len(),
    ensures
        named_cover(regions, names.take(k + 1), x, y) == (named_cover(regions, names.take(k), x, y) || (!blank(
            names[k]@,
        ) && region_rect(regions, trim_seq(names[k]@)) is Some && in_rect(
            region_rect(regions, trim_seq(names[k]@)).unwrap(),
            x,
            y,
        ))),
{
    let a = names.take(k + 1);
    let b = names.take(k);
    if named_cover(regions, a, x, y) {
        let j = choose|j: int|
            #![trigger a[j]]
            0 <= j < a.len() && !blank(a[j]@) && region_rect(regions, trim_seq(a[j]@)) is Some && in_rect(
                region_rect(regions, trim_seq(a[j]@)).unwrap(),
                x,
                y,
            );
        if j < k {
            assert(b[j] == a[j]);
        }
    }
    if named_cover(regions, b, x, y) {
        let j = choose|j: int|
            #![trigger b[j]]
            0 <= j < b.len() && !blank(b[j]@) && region_rect(regions, trim_seq(b[j]@)) is Some && in_rect(
                region_rect(regions, trim_seq(b[j]@)).unwrap(),
                x,
                y,
            );
        assert(a[j] == b[j]);
    }
    if !blank(names[k]@) && region_rect(regions, trim_seq(names[k]@)) is Some && in_rect(
        region_rect(regions, trim_seq(names[k]@)).unwrap(),
        x,
        y,
    ) {
        assert(a[k] == names[k]);
    }
}

proof fn lemma_polygon_cover_step(polys: Seq<Result<Vec<bool>, SceneAssetEditError>>, width: u32, k: int, x: int, y: int)
    requires
        0 <= k < polys.len(),
    ensures
        polygon_cover(polys.take(k + 1), width, x, y) == (polygon_cover(polys.take(k), width, x, y) || (polys[k] is Ok
            && polys[k]->Ok_0@[index_of(width, x, y)])),
{
    let a = polys.take(k + 1);
    let b = polys.take(k);
    if polygon_cover(a, width, x, y) {
        let j = choose|j: int| 0 <= j < a.len() && (#[trigger] a[j]) is Ok && a[j]->Ok_0@[index_of(width, x, y)];
        if j < k {
            assert(b[j] == a[j]);
        }
    }
    if polygon_cover(b, width, x, y) {
        let j = choose|j: int| 0 <= j < b.len() && (#[trigger] b[j]) is Ok && b[j]->Ok_0@[index_of(width, x, y)];
        assert(a[j] == b[j]);
    }
    if polys[k] is Ok && polys[k]->Ok_0@[index_of(width, x, y)] {
        assert(a[k] == polys[k]);
    }
}

impl SceneAssetMask {
    /// Adds the named regions and the polygons to the selection. Names need
    /// a feature map (`no_map` is the error without one); blank names are
    /// skipped and the others trimmed.
    fn select_named_and_polygons(
        &mut self,
        names: &[String],
        polys: &[Result<Vec<bool>, SceneAssetEditError>],
        map: Option<&SceneAssetPixelRegions>,
        no_map: &str,
    ) -> (r: Result<(), SceneAssetEditError>)
        requires
            old(self).wf(),
            polygons_fit(polys@, old(self).width, old(self).height),
        ensures
            final(self).wf(),
            final(self).width == old(self).width,
            final(self).height == old(self).height,
            r is Err <==> select_fails(map, names@, polys@),
            r matches Err(e) ==> select_error(map, names@, polys@, no_map@, e),
            r is Ok ==> pixelwise(
                final(self).pixels@,
                old(self).width,
                old(self).height,
                |x: int, y: int|
                    px(old(self).pixels@, old(self).width, x, y) || select_cover(
                        map,
                        names@,
                        polys@,
                        old(self).width,
                        x,
                        y,
                    ),
            ),
    {
        let ghost p0 = self.pixels@;
        let w = self.width;
        let h = self.height;
        if names.len() > 0 {
            match map {
                None => {
                    return Err(SceneAssetEditError::InvalidOperation(no_map.to_string()));
                },
                Some(f) => {
                    let mut k: usize = 0;
                    proof {
                        assert(names@.skip(0) =~= names@);
                        assert forall|x: int, y: int| in_bounds(w, h, x, y) implies #[trigger] px(self.pixels@, w, x, y) == (px(
                            p0,
                            w,
                            x,
                            y,
                        ) || named_cover(f.regions@, names@.take(0), x, y)) by {}
                    }
                    while k < names.len()
                        invariant
                            self.wf(),
                            self.width == w,
                            self.height == h,
                            w == old(self).width,
                            h == old(self).height,
                            map == Some(f),
                            p0.len() == w * h,
                            k <= names@.len(),
                            first_unknown(f.regions@, names@) == first_unknown(f.regions@, names@.skip(k as int)),
                            forall|x: int, y: int|
                                in_bounds(w, h, x, y) ==> #[trigger] px(self.pixels@, w, x, y) == (px(p0, w, x, y) || named_cover(
                                    f.regions@,
                                    names@.take(k as int),
                                    x,
                                    y,
                                )),
                        decreases names.len() - k,
                    {
                        proof {
                            assert(names@.skip(k as int).drop_first() =~= names@.skip(k + 1));
                            assert(names@.skip(k as int)[0] == names@[k as int]);
                        }
                        if !is_blank(names[k].as_str()) {
                            let key = trim(names[k].as_str());
                            proof {
                                lemma_trim_blank(names@[k as int]@);
                            }
                            match f.pixel_region(key.as_str()) {
                                Ok(rect) => {
                                    let ghost before = self.pixels@;
                                    self.select_rect(rect);
                                    proof {
                                        assert forall|x: int, y: int| in_bounds(w, h, x, y) implies #[trigger] px(
                                            self.pixels@,
                                            w,
                                            x,
                                            y,
                                        ) == (px(p0, w, x, y) || named_cover(f.regions@, names@.take(k + 1), x, y)) by {
                                            lemma_named_cover_step(f.regions@, names@, k as int, x, y);
                                        }
                                    }
                                },
                                Err(e) => {
                                    proof {
                                        assert(region_rect(f.regions@, key@) is None);
                                        assert(first_unknown(f.regions@, names@.skip(k as int)) == Some(
                                            trim_seq(names@[k as int]@),
                                        ));
                                    }
                                    return Err(e);
                                },
                            }
                        } else {
                            proof {
                                assert forall|x: int, y: int| in_bounds(w, h, x, y) implies #[trigger] px(
                                    self.pixels@,
                                    w,
                                    x,
                                    y,
                                ) == (px(p0, w, x, y) || named_cover(f.regions@, names@.take(k + 1), x, y)) by {
                                    lemma_named_cover_step(f.regions@, names@, k as int, x, y);
                                }
                            }
                        }
                        k = k + 1;
                    }
                    proof {
                        assert(names@.take(names@.len() as int) =~= names@);
                        assert(names@.skip(names@.len() as int).len() == 0);
                    }
                },
            }
        }
        let ghost p1 = self.pixels@;
        proof {
            if names@.len() == 0 {
                assert forall|x: int, y: int| in_bounds(w, h, x, y) implies #[trigger] px(p1, w, x, y) == (px(p0, w, x, y) || (
                map is Some && named_cover(map.unwrap().regions@, names@, x, y))) by {}
            }
        }
        let mut k: usize = 0;
        proof {
            assert(polys@.skip(0) =~= polys@);
        }
        while k < polys.len()
            invariant
                self.wf(),
                self.width == w,
                self.height == h,
                w == old(self).width,
                h == old(self).height,
                p1.len() == w * h,
                names@.len() > 0 ==> (map is Some && first_unknown(map.unwrap().regions@, names@) is None),
                forall|x: int, y: int|
                    in_bounds(w, h, x, y) ==> #[trigger] px(p1, w, x, y) == (px(p0, w, x, y) || (map is Some
                        && named_cover(map.unwrap().regions@, names@, x, y))),
                polygons_fit(polys@, w, h),
                k <= polys@.len(),
                first_polygon_error(polys@) == first_polygon_error(polys@.skip(k as int)),
                forall|x: int, y: int|
                    in_bounds(w, h, x, y) ==> #[trigger] px(self.pixels@, w, x, y) == (px(p1, w, x, y) || polygon_cover(
                        polys@.take(k as int),
                        w,
                        x,
                        y,
                    )),
            decreases polys.len() - k,
        {
            proof {
                assert(polys@.skip(k as int).drop_first() =~= polys@.skip(k + 1));
                assert(polys@.skip(k as int)[0] == polys@[k as int]);
            }
            match &polys[k] {
                Ok(v) => {
                    let ghost before = self.pixels@;
                    self.union_pixels(v.as_slice());
                    proof {
                        assert forall|x: int, y: int| in_bounds(w, h, x, y) implies #[trigger] px(self.pixels@, w, x, y) == (px(
                            p1,
                            w,
                            x,
                            y,
                        ) || polygon_cover(polys@.take(k + 1), w, x, y)) by {
                            lemma_index_in_range(w, h, x, y);
                            lemma_polygon_cover_step(polys@, w, k as int, x, y);
                            assert(px(before, w, x, y) == (px(p1, w, x, y) || polygon_cover(polys@.take(k as int), w, x, y)));
                        }
                    }
                },
                Err(e) => {
                    return Err(copy_error(e));
                },
            }
            k = k + 1;
        }
        proof {
            assert(polys@.take(polys@.len() as int) =~= polys@);
            assert(polys@.skip(polys@.len() as int).len() == 0);
        }
        Ok(())
    }

    /// Deselects the pixels of the named regions; blank names are skipped
    /// and the others trimmed. A name the map lacks is an error.
    pub fn protect_feature_regions(&mut self, map: &SceneAssetPixelRegions, region_names: &[String]) -> (r: Result<
        (),
        SceneAssetEditError,
    >)
        requires
            old(self).wf(),
        ensures
            final(self).wf(),
            final(self).width == old(self).width,
            final(self).height == old(self).height,
            r is Err <==> first_unknown(map.regions@, region_names@) is Some,
            r matches Err(e) ==> is_unknown_region(e, first_unknown(map.regions@, region_names@).unwrap()),
            r is Ok ==> pixelwise(
                final(self).pixels@,
                old(self).width,
                old(self).height,
                |x: int, y: int|
                    px(old(self).pixels@, old(self).width, x, y) && !named_cover(map.regions@, region_names@, x, y),
            ),
    {
        let ghost p0 = self.pixels@;
        let w = self.width;
        let h = self.height;
        let names = region_names;
        let mut k: usize = 0;
        proof {
            assert(names@.skip(0) =~= names@);
            assert forall|x: int, y: int| in_bounds(w, h, x, y) implies #[trigger] px(self.pixels@, w, x, y) == (px(
                p0,
                w,
                x,
                y,
            ) && !named_cover(map.regions@, names@.take(0), x, y)) by {}
        }
        while k < names.len()
            invariant
                self.wf(),
                self.width == w,
                self.height == h,
                w == old(self).width,
                h == old(self).height,
                names@ == region_names@,
                p0.len() == w * h,
                k <= names@.len(),
                first_unknown(map.regions@, names@) == first_unknown(map.regions@, names@.skip(k as int)),
                forall|x: int, y: int|
                    in_bounds(w, h, x, y) ==> #[trigger] px(self.pixels@, w, x, y) == (px(p0, w, x, y) && !named_cover(
                        map.regions@,
                        names@.take(k as int),
                        x,
                        y,
                    )),
            decreases names.len() - k,
        {
            proof {
                assert(names@.skip(k as int).drop_first() =~= names@.skip(k + 1));
                assert(names@.skip(k as int)[0] == names@[k as int]);
            }
            if !is_blank(names[k].as_str()) {
                let key = trim(names[k].as_str());
                proof {
                    lemma_trim_blank(names@[k as int]@);
                }
                match map.pixel_region(key.as_str()) {
                    Ok(rect) => {
                        self.protect_rect(rect);
                        proof {
                            assert forall|x: int, y: int| in_bounds(w, h, x, y) implies #[trigger] px(self.pixels@, w, x, y)
                                == (px(p0, w, x, y) && !named_cover(map.regions@, names@.take(k + 1), x, y)) by {
                                lemma_named_cover_step(map.regions@, names@, k as int, x, y);
                            }
                        }
                    },
                    Err(e) => {
                        proof {
                            assert(region_rect(map.regions@, key@) is None);
                            assert(first_unknown(map.regions@, names@.skip(k as int)) == Some(trim_seq(names@[k as int]@)));
                        }
                        return Err(e);
                    },
                }
            } else {
                proof {
                    assert forall|x: int, y: int| in_bounds(w, h, x, y) implies #[trigger] px(self.pixels@, w, x, y) == (px(
                        p0,
                        w,
                        x,
                        y,
                    ) && !named_cover(map.regions@, names@.take(k + 1), x, y)) by {
                        lemma_named_cover_step(map.regions@, names@, k as int, x, y);
                    }
                }
            }
            k = k + 1;
        }
        proof {
            assert(names@.take(names@.len() as int) =~= names@);
            assert(names@.skip(names@.len() as int).len() == 0);
        }
        Ok(())
    }
}

/// A mask of `width` x `height` with nothing selected.
fn empty_mask(width: u32, height: u32) -> (m: SceneAssetMask)
    requires
        width * height <= usize::MAX,
    ensures
        m.wf(),
        m.width == width,
        m.height == height,
        forall|x: int, y: int| in_bounds(width, height, x, y) ==> !#[trigger] px(m.pixels@, width, x, y),
{
    let n: usize = (width as usize) * (height as usize);
    let pixels = all_false(n);
    proof {
        assert forall|x: int, y: int| in_bounds(width, height, x, y) implies !#[trigger] px(pixels@, width, x, y) by {
            lemma_index_in_range(width, height, x, y);
        }
    }
    SceneAssetMask::from_pixels(width, height, pixels)
}

/// What building the paint bounds gives: its errors in order of checking,
/// or the mask of the whole image or the regions and polygons, less the
/// protected regions.
pub open spec fn paint_bounds_outcome(
    width: u32,
    height: u32,
    whole_image: bool,
    within_regions: Seq<String>,
    within_polygons: Seq<Result<Vec<bool>, SceneAssetEditError>>,
    protect_regions: Seq<String>,
    feature_map: Option<&SceneAssetPixelRegions>,
    r: Result<SceneAssetMask, SceneAssetEditError>,
) -> bool {
    &&& (!whole_image && within_regions.len() == 0 && within_polygons.len() == 0 ==> (r matches Err(e) && is_invalid(
        e,
        "paint operations require --within-regions, --within-polygon, or --whole-image"@,
    )))
    &&& ((whole_image || within_regions.len() > 0 || within_polygons.len() > 0) ==> {
        &&& select_fails(feature_map, within_regions, within_polygons) ==> (r matches Err(e) && select_error(
            feature_map,
            within_regions,
            within_polygons,
            "--within-regions requires --protect or --feature-map"@,
            e,
        ))
        &&& !select_fails(feature_map, within_regions, within_polygons) && protect_regions.len() > 0 && feature_map is None
            ==> (r matches Err(e) && is_invalid(e, "--protect-regions requires --protect or --feature-map"@))
        &&& !select_fails(feature_map, within_regions, within_polygons) && feature_map is Some && first_unknown(
            feature_map.unwrap().regions@,
            protect_regions,
        ) is Some ==> (r matches Err(e) && is_unknown_region(
            e,
            first_unknown(feature_map.unwrap().regions@, protect_regions).unwrap(),
        ))
        &&& !select_fails(feature_map, within_regions, within_polygons) && (protect_regions.len() == 0 || (feature_map is Some
            && first_unknown(feature_map.unwrap().regions@, protect_regions) is None)) ==> (r matches Ok(m) && m.wf()
            && m.width == width && m.height == height && pixelwise(
            m.pixels@,
            width,
            height,
            |x: int, y: int|
                (whole_image || select_cover(feature_map, within_regions, within_polygons, width, x, y)) && !(feature_map is Some
                    && named_cover(feature_map.unwrap().regions@, protect_regions, x, y)),
        ))
    })
}

/// The pixels a paint operation may change: the whole image, or the named
/// regions and polygons it is kept within, less the protected regions.
/// Some bound must be given; region names need a feature map.
pub fn paint_bounds_mask(
    width: u32,
    height: u32,
    whole_image: bool,
    within_regions: &[String],
    within_polygons: &[Result<Vec<bool>, SceneAssetEditError>],
    protect_regions: &[String],
    feature_map: Option<&SceneAssetPixelRegions>,
) -> (r: Result<SceneAssetMask, SceneAssetEditError>)
    requires
        width * height <= usize::MAX,
        polygons_fit(within_polygons@, width, height),
    ensures
        paint_bounds_outcome(
            width,
            height,
            whole_image,
            within_regions@,
            within_polygons@,
            protect_regions@,
            feature_map,
            r,
        ),
{
    if !whole_image && within_regions.len() == 0 && within_polygons.len() == 0 {
        return Err(
            SceneAssetEditError::InvalidOperation(
                String::from_str("paint operations require --within-regions, --within-polygon, or --whole-image"),
            ),
        );
    }
    let mut mask = empty_mask(width, height);
    if whole_image {
        mask.select_rect(SceneAssetPixelRect { x: 0, y: 0, w: width, h: height });
    }
    let ghost p0 = mask.pixels@;
    match mask.select_named_and_polygons(
        within_regions,
        within_polygons,
        feature_map,
        "--within-regions requires --protect or --feature-map",
    ) {
        Ok(()) => {},
        Err(e) => {
            return Err(e);
        },
    }
    let ghost p1 = mask.pixels@;
    if protect_regions.len() > 0 {
        match feature_map {
            None => {
                return Err(
                    SceneAssetEditError::InvalidOperation(
                        String::from_str("--protect-regions requires --protect or --feature-map"),
                    ),
                );
            },
            Some(f) => {
                match mask.protect_feature_regions(f, protect_regions) {
                    Ok(()) => {},
                    Err(e) => {
                        return Err(e);
                    },
                }
            },
        }
    }
    proof {
        assert forall|x: int, y: int| in_bounds(width, height, x, y) implies #[trigger] px(mask.pixels@, width, x, y) == ((
        whole_image || select_cover(feature_map, within_regions@, within_polygons@, width, x, y)) && !(feature_map is Some
            && named_cover(feature_map.unwrap().regions@, protect_regions@, x, y))) by {
            assert(px(p1, width, x, y) == (px(p0, width, x, y) || select_cover(
                feature_map,
                within_regions@,
                within_polygons@,
                width,
                x,
                y,
            )));
        }
    }
    Ok(mask)
}

/// The pixels a polished selection is kept within: the named regions and
/// the polygons. Region names need a feature map.
pub fn selection_bounds_mask(
    width: u32,
    height: u32,
    within_regions: &[String],
    within_polygons: &[Result<Vec<bool>, SceneAssetEditError>],
    feature_map: Option<&SceneAssetPixelRegions>,
) -> (r: Result<SceneAssetMask, SceneAssetEditError>)
    requires
        width * height <= usize::MAX,
        polygons_fit(within_polygons@, width, height),
    ensures
        r is Err <==> select_fails(feature_map, within_regions@, within_polygons@),
        r matches Err(e) ==> select_error(
            feature_map,
            within_regions@,
            within_polygons@,
            "--within-regions requires --feature-map or --protect"@,
            e,
        ),
        r matches Ok(m) ==> m.wf() && m.width == width && m.height == height && pixelwise(
            m.pixels@,
            width,
            height,
            |x: int, y: int| select_cover(feature_map, within_regions@, within_polygons@, width, x, y),
        ),
{
    let mut mask = empty_mask(width, height);
    match mask.select_named_and_polygons(
        within_regions,
        within_polygons,
        feature_map,
        "--within-regions requires --feature-map or --protect",
    ) {
        Ok(()) => Ok(mask),
        Err(e) => Err(e),
    }
}

/// The pixels restored from a source image: the named regions and the
/// polygons. Some must be given; region names need a feature map.
pub fn restore_mask(
    width: u32,
    height: u32,
    regions: &[String],
    polygons: &[Result<Vec<bool>, SceneAssetEditError>],
    feature_map: Option<&SceneAssetPixelRegions>,
) -> (r: Result<SceneAssetMask, SceneAssetEditError>)
    requires
        width * height <= usize::MAX,
        polygons_fit(polygons@, width, height),
    ensures
        regions@.len() == 0 && polygons@.len() == 0 ==> (r matches Err(e) && is_invalid(
            e,
            "restore-from-source requires --restore-regions or --polygon"@,
        )),
        regions@.len() > 0 || polygons@.len() > 0 ==> {
            &&& r is Err <==> select_fails(feature_map, regions@, polygons@)
            &&& r matches Err(e) ==> select_error(
                feature_map,
                regions@,
                polygons@,
                "--restore-regions requires --feature-map or --protect"@,
                e,
            )
            &&& r matches Ok(m) ==> m.wf() && m.width == width && m.height == height && pixelwise(
                m.pixels@,
                width,
                height,
                |x: int, y: int| select_cover(feature_map, regions@, polygons@, width, x, y),
            )
        },
{
    if regions.len() == 0 && polygons.len() == 0 {
        return Err(
            SceneAssetEditError::InvalidOperation(
                String::from_str("restore-from-source requires --restore-regions or --polygon"),
            ),
        );
    }
    let mut mask = empty_mask(width, height);
    match mask.select_named_and_polygons(
        regions,
        polygons,
        feature_map,
        "--restore-regions requires --feature-map or --protect",
    ) {
        Ok(()) => Ok(mask),
        Err(e) => Err(e),
    }
}

/// The settings of a mask polish that do not need floating point: the
/// background match, feathering and defringing the caller applies, the
/// morphology radii and component limits, and the region names a selection
/// is kept within or protected from. Polygons a selection is kept within
/// come rasterised, beside these options.
#[derive(Debug, Clone)]
pub struct SceneAssetMaskPolishOptions {
    pub tolerance: u8,
    pub feather: u32,
    pub sample: SceneAssetBackgroundSample,
    pub erode: u32,
    pub dilate: u32,
    pub open: u32,
    pub close: u32,
    pub remove_small: usize,
    pub fill_holes: usize,
    pub defringe: SceneAssetDefringeMode,
    pub protect_regions: Vec<String>,
    pub within_regions: Vec<String>,
}

impl Default for SceneAssetMaskPolishOptions {
    fn default() -> (o: Self)
        ensures
            o.tolerance == 24,
            o.feather == 0,
            o.sample == SceneAssetBackgroundSample::Corners,
            o.erode == 0 && o.dilate == 0 && o.open == 0 && o.close == 0,
            o.remove_small == 0 && o.fill_holes == 0,
            o.defringe == SceneAssetDefringeMode::Off,
            o.protect_regions@.len() == 0,
            o.within_regions@.len() == 0,
    {
        SceneAssetMaskPolishOptions {
            tolerance: default_magic_tolerance(),
            feather: 0,
            sample: default_background_sample(),
            erode: 0,
            dilate: 0,
            open: 0,
            close: 0,
            remove_small: 0,
            fill_holes: 0,
            defringe: default_defringe_mode(),
            protect_regions: Vec::new(),
            within_regions: Vec::new(),
        }
    }
}

/// Erosion by `r`; radius 0 keeps the mask.
pub open spec fn erode_step(w: u32, h: u32, p: Seq<bool>, r: u32, q: Seq<bool>) -> bool {
    if r == 0 {
        q == p
    } else {
        pixelwise(q, w, h, erosion(p, w, h, r as int))
    }
}

/// Dilation by `r`; radius 0 keeps the mask.
pub open spec fn dilate_step(w: u32, h: u32, p: Seq<bool>, r: u32, q: Seq<bool>) -> bool {
    if r == 0 {
        q == p
    } else {
        pixelwise(q, w, h, dilation(p, w, h, r as int))
    }
}

/// Opening by `r`: erosion, then dilation; radius 0 keeps the mask.
pub open spec fn open_step(w: u32, h: u32, p: Seq<bool>, r: u32, q: Seq<bool>) -> bool {
    if r == 0 {
        q == p
    } else {
        exists|e: Seq<bool>|
            #[trigger] pixelwise(e, w, h, erosion(p, w, h, r as int)) && pixelwise(q, w, h, dilation(e, w, h, r as int))
    }
}

/// Closing by `r`: dilation, then erosion; radius 0 keeps the mask.
pub open spec fn close_step(w: u32, h: u32, p: Seq<bool>, r: u32, q: Seq<bool>) -> bool {
    if r == 0 {
        q == p
    } else {
        exists|d: Seq<bool>|
            #[trigger] pixelwise(d, w, h, dilation(p, w, h, r as int)) && pixelwise(q, w, h, erosion(d, w, h, r as int))
    }
}

/// Removing selected components smaller than `limit`; 0 keeps the mask.
pub open spec fn remove_step(w: u32, h: u32, p: Seq<bool>, limit: usize, q: Seq<bool>) -> bool {
    if limit == 0 {
        q == p
    } else {
        exists|regions: Seq<Seq<bool>>, starts: Seq<(u32, u32)>| cleaned(w, h, p, true, limit as int, regions, starts, q)
    }
}

/// Filling enclosed holes of at most `limit` pixels; 0 keeps the mask.
pub open spec fn fill_step(w: u32, h: u32, p: Seq<bool>, limit: usize, q: Seq<bool>) -> bool {
    if limit == 0 {
        q == p
    } else {
        exists|regions: Seq<Seq<bool>>, starts: Seq<(u32, u32)>| cleaned(w, h, p, false, limit as int, regions, starts, q)
    }
}

/// The morphology of a polish, in order: erode, dilate, open, close,
/// remove small components, fill small holes.
pub open spec fn polish_morphology(w: u32, h: u32, p: Seq<bool>, o: SceneAssetMaskPolishOptions, q: Seq<bool>) -> bool {
    exists|p1: Seq<bool>, p2: Seq<bool>, p3: Seq<bool>, p4: Seq<bool>, p5: Seq<bool>|
        #![trigger erode_step(w, h, p, o.erode, p1), dilate_step(w, h, p1, o.dilate, p2), open_step(w, h, p2, o.open, p3), close_step(w, h, p3, o.close, p4), remove_step(w, h, p4, o.remove_small, p5)]
        erode_step(w, h, p, o.erode, p1) && dilate_step(w, h, p1, o.dilate, p2) && open_step(w, h, p2, o.open, p3)
            && close_step(w, h, p3, o.close, p4) && remove_step(w, h, p4, o.remove_small, p5) && fill_step(
            w,
            h,
            p5,
            o.fill_holes,
            q,
        )
}

/// What polishing the selection `p` gives: the errors of the bounds and of
/// the protected regions, in that order, or the mask that the morphology
/// leaves, kept within the bounds (when any are given) and less the
/// protected regions (when there is a feature map).
pub open spec fn polish_outcome(
    w: u32,
    h: u32,
    p: Seq<bool>,
    o: SceneAssetMaskPolishOptions,
    polys: Seq<Result<Vec<bool>, SceneAssetEditError>>,
    map: Option<&SceneAssetPixelRegions>,
    r: Result<SceneAssetMask, SceneAssetEditError>,
) -> bool {
    let within = o.within_regions@.len() > 0 || polys.len() > 0;
    let bounds_fail = within && select_fails(map, o.within_regions@, polys);
    let protect_fail = map is Some && first_unknown(map.unwrap().regions@, o.protect_regions@) is Some;
    &&& bounds_fail ==> (r matches Err(e) && select_error(
        map,
        o.within_regions@,
        polys,
        "--within-regions requires --feature-map or --protect"@,
        e,
    ))
    &&& !bounds_fail && protect_fail ==> (r matches Err(e) && is_unknown_region(
        e,
        first_unknown(map.unwrap().regions@, o.protect_regions@).unwrap(),
    ))
    &&& !bounds_fail && !protect_fail ==> (r matches Ok(m) && m.wf() && m.width == w && m.height == h && exists|q: Seq<bool>|
        #[trigger] polish_morphology(w, h, p, o, q) && pixelwise(
            m.pixels@,
            w,
            h,
            |x: int, y: int|
                px(q, w, x, y) && (!within || select_cover(map, o.within_regions@, polys, w, x, y)) && !(map is Some
                    && named_cover(map.unwrap().regions@, o.protect_regions@, x, y)),
        ))
}

/// Polishes a selection: erodes, dilates, opens, closes, removes small
/// components and fills small holes as the options ask, keeps it within
/// the given regions and polygons, and, with a feature map, takes out the
/// protected regions.
pub fn apply_mask_polish(
    mask: SceneAssetMask,
    options: &SceneAssetMaskPolishOptions,
    within_polygons: &[Result<Vec<bool>, SceneAssetEditError>],
    feature_map: Option<&SceneAssetPixelRegions>,
) -> (r: Result<SceneAssetMask, SceneAssetEditError>)
    requires
        mask.wf(),
        polygons_fit(within_polygons@, mask.width, mask.height),
    ensures
        polish_outcome(mask.width, mask.height, mask.pixels@, *options, within_polygons@, feature_map, r),
{
    let w = mask.width;
    let h = mask.height;
    let ghost p0 = mask.pixels@;
    let m1 = mask.eroded(options.erode);
    let m2 = m1.dilated(options.dilate);
    let m3 = m2.opened(options.open);
    let m4 = m3.closed(options.close);
    let m5 = m4.without_small_components(options.remove_small);
    let mut m = m5.with_filled_small_holes(options.fill_holes);
    let ghost q = m.pixels@;
    proof {
        assert(erode_step(w, h, p0, options.erode, m1.pixels@));
        assert(dilate_step(w, h, m1.pixels@, options.dilate, m2.pixels@));
        assert(open_step(w, h, m2.pixels@, options.open, m3.pixels@));
        assert(close_step(w, h, m3.pixels@, options.close, m4.pixels@));
        assert(remove_step(w, h, m4.pixels@, options.remove_small, m5.pixels@));
        assert(fill_step(w, h, m5.pixels@, options.fill_holes, q));
        assert(polish_morphology(w, h, p0, *options, q));
    }
    let within = options.within_regions.len() > 0 || within_polygons.len() > 0;
    if within {
        let n = m.len();
        assert(w * h == n);
        let bounds = match selection_bounds_mask(w, h, options.within_regions.as_slice(), within_polygons, feature_map) {
            Ok(b) => b,
            Err(e) => {
                return Err(e);
            },
        };
        m.intersect_pixels(bounds.pixels());
        proof {
            assert forall|x: int, y: int| in_bounds(w, h, x, y) implies #[trigger] px(m.pixels@, w, x, y) == (px(q, w, x, y)
                && select_cover(feature_map, options.within_regions@, within_polygons@, w, x, y)) by {
                lemma_index_in_range(w, h, x, y);
                assert(px(bounds.pixels@, w, x, y) == select_cover(
                    feature_map,
                    options.within_regions@,
                    within_polygons@,
                    w,
                    x,
                    y,
                ));
            }
        }
    }
    let ghost q2 = m.pixels@;
    match feature_map {
        Some(f) => {
            match m.protect_feature_regions(f, options.protect_regions.as_slice()) {
                Ok(()) => {},
                Err(e) => {
                    return Err(e);
                },
            }
        },
        None => {},
    }
    proof {
        assert forall|x: int, y: int| in_bounds(w, h, x, y) implies #[trigger] px(m.pixels@, w, x, y) == (px(q, w, x, y) && (
        !within || select_cover(feature_map, options.within_regions@, within_polygons@, w, x, y)) && !(feature_map is Some
            && named_cover(feature_map.unwrap().regions@, options.protect_regions@, x, y))) by {
            assert(px(q2, w, x, y) == (px(q, w, x, y) && (!within || select_cover(
                feature_map,
                options.within_regions@,
                within_polygons@,
                w,
                x,
                y,
            ))));
        }
    }
    Ok(m)
}

/// `m` is the background selection of the image: the region grown from the
/// border pixels close to a background sample.
pub open spec fn background_selection(image: SceneAssetRaster, tolerance: u8, sample: SceneAssetBackgroundSample, m: Seq<
    bool,
>) -> bool {
    &&& m.len() == image.count()
    &&& image.background_samples(sample).len() == 0 ==> forall|i: int| 0 <= i < image.count() ==> !#[trigger] m[i]
    &&& image.background_samples(sample).len() > 0 ==> flood_region(
        image.width,
        image.height,
        image.points_matching(edge_point_seq(image.width, image.height), image.background_samples(sample), tolerance),
        image.match_flags(image.background_samples(sample), tolerance),
        m,
    )
}

/// `m` is what the magic wand selects from the single seed `p`.
pub open spec fn seed_selection(image: SceneAssetRaster, p: (u32, u32), tolerance: u8, m: Seq<bool>) -> bool {
    &&& m.len() == image.count()
    &&& image.seed_samples(seq![p]).len() == 0 ==> forall|i: int| 0 <= i < image.count() ==> !#[trigger] m[i]
    &&& image.seed_samples(seq![p]).len() > 0 ==> flood_region(
        image.width,
        image.height,
        seq![p],
        image.match_flags(image.seed_samples(seq![p]), tolerance),
        m,
    )
}

/// The error of the first seed that could not be placed.
pub open spec fn first_seed_error(seeds: Seq<Result<(u32, u32), SceneAssetEditError>>) -> Option<SceneAssetEditError>
    decreases seeds.len(),
{
    if seeds.len() == 0 {
        None
    } else if seeds[0] is Err {
        Some(seeds[0]->Err_0)
    } else {
        first_seed_error(seeds.drop_first())
    }
}

/// Pixel `i` is selected in one of the parts.
pub open spec fn in_some_part(parts: Seq<Seq<bool>>, i: int) -> bool {
    exists|j: int| 0 <= j < parts.len() && (#[trigger] parts[j])[i]
}

/// `m` is the union of the magic-wand selections of each seed.
pub open spec fn seeds_union(image: SceneAssetRaster, seeds: Seq<Result<(u32, u32), SceneAssetEditError>>, tolerance: u8, m: Seq<
    bool,
>) -> bool {
    exists|parts: Seq<Seq<bool>>|
        #![trigger parts.len()]
        parts.len() == seeds.len() && (forall|k: int|
            0 <= k < seeds.len() ==> seeds[k] is Ok && seed_selection(image, seeds[k]->Ok_0, tolerance, #[trigger] parts[k]))
            && forall|i: int| 0 <= i < image.count() ==> #[trigger] m[i] == in_some_part(parts, i)
}

proof fn lemma_in_some_part_push(parts: Seq<Seq<bool>>, q: Seq<bool>, i: int)
    ensures
        in_some_part(parts.push(q), i) == (in_some_part(parts, i) || q[i]),
{
    let a = parts.push(q);
    if in_some_part(a, i) {
        let j = choose|j: int| 0 <= j < a.len() && (#[trigger] a[j])[i];
        if j < parts.len() {
            assert(parts[j] == a[j]);
        }
    }
    if in_some_part(parts, i) {
        let j = choose|j: int| 0 <= j < parts.len() && (#[trigger] parts[j])[i];
        assert(a[j] == parts[j]);
    }
    if q[i] {
        assert(a[parts.len() as int] == q);
    }
}

impl SceneAssetRaster {
    /// The union of the magic-wand selections grown from each seed. At
    /// least one seed must be given; a seed that could not be placed is an
    /// error.
    pub fn multi_seed_contiguous_mask(&self, seeds: &[Result<(u32, u32), SceneAssetEditError>], tolerance: u8) -> (r: Result<
        SceneAssetMask,
        SceneAssetEditError,
    >)
        requires
            self.wf(),
        ensures
            seeds@.len() == 0 ==> (r matches Err(e) && is_invalid(e, "magic_erase_add requires at least one --seed"@)),
            seeds@.len() > 0 && first_seed_error(seeds@) is Some ==> r == Err::<SceneAssetMask, SceneAssetEditError>(
                first_seed_error(seeds@).unwrap(),
            ),
            seeds@.len() > 0 && first_seed_error(seeds@) is None ==> (r matches Ok(m) && m.wf() && m.width == self.width
                && m.height == self.height && seeds_union(*self, seeds@, tolerance, m.pixels@)),
    {
        if seeds.len() == 0 {
            return Err(
                SceneAssetEditError::InvalidOperation(String::from_str("magic_erase_add requires at least one --seed")),
            );
        }
        let n = self.pixel_len();
        let mut output = SceneAssetMask::from_pixels(self.width, self.height, all_false(n));
        let ghost mut parts: Seq<Seq<bool>> = seq![];
        let mut k: usize = 0;
        proof {
            assert(seeds@.skip(0) =~= seeds@);
        }
        while k < seeds.len()
            invariant
                self.wf(),
                n == self.count(),
                output.wf(),
                output.width == self.width,
                output.height == self.height,
                k <= seeds@.len(),
                first_seed_error(seeds@) == first_seed_error(seeds@.skip(k as int)),
                parts.len() == k,
                forall|j: int| 0 <= j < k ==> (#[trigger] seeds@[j]) is Ok,
                forall|j: int| 0 <= j < k ==> seed_selection(*self, seeds@[j]->Ok_0, tolerance, #[trigger] parts[j]),
                forall|i: int| 0 <= i < n ==> #[trigger] output.pixels@[i] == in_some_part(parts, i),
            decreases seeds.len() - k,
        {
            proof {
                assert(seeds@.skip(k as int).drop_first() =~= seeds@.skip(k + 1));
                assert(seeds@.skip(k as int)[0] == seeds@[k as int]);
            }
            let p: (u32, u32) = match &seeds[k] {
                Ok(p) => *p,
                Err(e) => {
                    return Err(copy_error(e));
                },
            };
            let one = [p];
            proof {
                assert(one@ =~= seq![p]);
            }
            let part = self.contiguous_magic_mask(one.as_slice(), tolerance);
            output.union_pixels(part.as_slice());
            proof {
                assert(seeds@[k as int] is Ok && seeds@[k as int]->Ok_0 == p);
                assert(seed_selection(*self, p, tolerance, part@));
                assert forall|i: int| 0 <= i < n implies #[trigger] output.pixels@[i] == in_some_part(parts.push(part@), i) by {
                    lemma_in_some_part_push(parts, part@, i);
                }
                let old_parts = parts;
                parts = parts.push(part@);
                assert forall|j: int| 0 <= j < k + 1 implies seeds@[j] is Ok && seed_selection(
                    *self,
                    seeds@[j]->Ok_0,
                    tolerance,
                    #[trigger] parts[j],
                ) by {
                    assert(parts[j] == old_parts.push(part@)[j]);
                    if j < k {
                        assert(old_parts.push(part@)[j] == old_parts[j]);
                    }
                }
            }
            k = k + 1;
        }
        proof {
            assert(seeds@.skip(seeds@.len() as int).len() == 0);
            assert(parts.len() == seeds@.len());
            assert(seeds_union(*self, seeds@, tolerance, output.pixels@));
        }
        Ok(output)
    }

    /// The polished background selection: the background mask, polished.
    pub fn polished_background_mask(
        &self,
        options: &SceneAssetMaskPolishOptions,
        within_polygons: &[Result<Vec<bool>, SceneAssetEditError>],
        feature_map: Option<&SceneAssetPixelRegions>,
    ) -> (r: Result<SceneAssetMask, SceneAssetEditError>)
        requires
            self.wf(),
            polygons_fit(within_polygons@, self.width, self.height),
        ensures
            exists|b: Seq<bool>|
                #[trigger] background_selection(*self, options.tolerance, options.sample, b) && polish_outcome(
                    self.width,
                    self.height,
                    b,
                    *options,
                    within_polygons@,
                    feature_map,
                    r,
                ),
    {
        let b = self.background_magic_mask(options.tolerance, options.sample);
        let mask = SceneAssetMask::from_pixels(self.width, self.height, b);
        let r = apply_mask_polish(mask, options, within_polygons, feature_map);
        proof {
            assert(background_selection(*self, options.tolerance, options.sample, b@));
        }
        r
    }

    /// The selection a mask preview shows: the background, the colour
    /// range of the background samples, the union of magic-wand selections
    /// from the seeds, or the channel matte; then polished.
    pub fn preview_selection_mask(
        &self,
        mode: SceneAssetMaskPreviewMode,
        seeds: &[Result<(u32, u32), SceneAssetEditError>],
        threshold: u8,
        neutrality: u8,
        options: &SceneAssetMaskPolishOptions,
        within_polygons: &[Result<Vec<bool>, SceneAssetEditError>],
        feature_map: Option<&SceneAssetPixelRegions>,
    ) -> (r: Result<SceneAssetMask, SceneAssetEditError>)
        requires
            self.wf(),
            polygons_fit(within_polygons@, self.width, self.height),
        ensures
            mode == SceneAssetMaskPreviewMode::MagicAdd && seeds@.len() == 0 ==> (r matches Err(e) && is_invalid(
                e,
                "magic_erase_add requires at least one --seed"@,
            )),
            mode == SceneAssetMaskPreviewMode::MagicAdd && seeds@.len() > 0 && first_seed_error(seeds@) is Some ==> r
                == Err::<SceneAssetMask, SceneAssetEditError>(first_seed_error(seeds@).unwrap()),
            !(mode == SceneAssetMaskPreviewMode::MagicAdd && (seeds@.len() == 0 || first_seed_error(seeds@) is Some))
                ==> exists|b: Seq<bool>|
                #![trigger polish_outcome(self.width, self.height, b, *options, within_polygons@, feature_map, r)]
                polish_outcome(self.width, self.height, b, *options, within_polygons@, feature_map, r) && match mode {
                    SceneAssetMaskPreviewMode::Background => background_selection(
                        *self,
                        options.tolerance,
                        options.sample,
                        b,
                    ),
                    SceneAssetMaskPreviewMode::ColorRange => b.len() == self.count() && forall|i: int|
                        0 <= i < self.count() ==> #[trigger] b[i] == close_to_any(
                            self.pix(i),
                            self.background_samples(options.sample),
                            options.tolerance,
                        ),
                    SceneAssetMaskPreviewMode::MagicAdd => seeds_union(*self, seeds@, options.tolerance, b),
                    SceneAssetMaskPreviewMode::ChannelMatte => b.len() == self.count() && forall|i: int|
                        0 <= i < self.count() ==> #[trigger] b[i] == matte_selected(self.pix(i), threshold, neutrality),
                },
    {
        let mask = match mode {
            SceneAssetMaskPreviewMode::Background => {
                let b = self.background_magic_mask(options.tolerance, options.sample);
                proof {
                    assert(background_selection(*self, options.tolerance, options.sample, b@));
                }
                SceneAssetMask::from_pixels(self.width, self.height, b)
            },
            SceneAssetMaskPreviewMode::ColorRange => {
                let b = self.color_range_mask(options.tolerance, options.sample);
                SceneAssetMask::from_pixels(self.width, self.height, b)
            },
            SceneAssetMaskPreviewMode::MagicAdd => {
                match self.multi_seed_contiguous_mask(seeds, options.tolerance) {
                    Ok(m) => m,
                    Err(e) => {
                        return Err(e);
                    },
                }
            },
            SceneAssetMaskPreviewMode::ChannelMatte => {
                let b = self.channel_matte_mask(threshold, neutrality);
                SceneAssetMask::from_pixels(self.width, self.height, b)
            },
        };
        let ghost b = mask.pixels@;
        let r = apply_mask_polish(mask, options, within_polygons, feature_map);
        proof {
            assert(polish_outcome(self.width, self.height, b, *options, within_polygons@, feature_map, r));
        }
        r
    }
}

/// The first name, taken as written, that names no region.
pub open spec fn first_unnamed(regions: Seq<(String, SceneAssetPixelRect)>, names: Seq<String>) -> Option<Seq<char>>
    decreases names.len(),
{
    if names.len() == 0 {
        None
    } else if region_rect(regions, names[0]@) is None {
        Some(names[0]@)
    } else {
        first_unnamed(regions, names.drop_first())
    }
}

/// Some name's region, the name taken as written, covers `(x, y)`.
pub open spec fn raw_cover(regions: Seq<(String, SceneAssetPixelRect)>, names: Seq<String>, x: int, y: int) -> bool {
    exists|k: int|
        #![trigger names[k]]
        0 <= k < names.len() && region_rect(regions, names[k]@) is Some && in_rect(
            region_rect(regions, names[k]@).unwrap(),
            x,
            y,
        )
}

proof fn lemma_raw_cover_step(regions: Seq<(String, SceneAssetPixelRect)>, names: Seq<String>, k: int, x: int, y: int)
    requires
        0 <= k < names.len(),
    ensures
        raw_cover(regions, names.take(k + 1), x, y) == (raw_cover(regions, names.take(k), x, y) || (region_rect(
            regions,
            names[k]@,
        ) is Some && in_rect(region_rect(regions, names[k]@).unwrap(), x, y))),
{
    let a = names.take(k + 1);
    let b = names.take(k);
    if raw_cover(regions, a, x, y) {
        let j = choose|j: int|
            #![trigger a[j]]
            0 <= j < a.len() && region_rect(regions, a[j]@) is Some && in_rect(region_rect(regions, a[j]@).unwrap(), x, y);
        if j < k {
            assert(b[j] == a[j]);
        }
    }
    if raw_cover(regions, b, x, y) {
        let j = choose|j: int|
            #![trigger b[j]]
            0 <= j < b.len() && region_rect(regions, b[j]@) is Some && in_rect(region_rect(regions, b[j]@).unwrap(), x, y);
        assert(a[j] == b[j]);
    }
    if region_rect(regions, names[k]@) is Some && in_rect(region_rect(regions, names[k]@).unwrap(), x, y) {
        assert(a[k] == names[k]);
    }
}

impl SceneAssetRaster {
    /// Copies back, from `original`, the pixels of each protected region
    /// (names taken as written). Names need a feature map, and a name the
    /// map lacks is an error; on an error the image is left as it was.
    pub fn restore_protected_regions(
        &mut self,
        original: &SceneAssetRaster,
        feature_map: Option<&SceneAssetPixelRegions>,
        protect_regions: &[String],
    ) -> (r: Result<(), SceneAssetEditError>)
        requires
            old(self).wf(),
            original.wf(),
            original.width == old(self).width,
            original.height == old(self).height,
        ensures
            protect_regions@.len() > 0 && feature_map is None ==> (r matches Err(e) && is_invalid(
                e,
                "--protect-regions requires --protect or --feature-map"@,
            ) && *final(self) == *old(self)),
            protect_regions@.len() > 0 && feature_map is Some && first_unnamed(feature_map.unwrap().regions@, protect_regions@)
                is Some ==> (r matches Err(e) && is_unknown_region(
                e,
                first_unnamed(feature_map.unwrap().regions@, protect_regions@).unwrap(),
            ) && *final(self) == *old(self)),
            protect_regions@.len() == 0 || (feature_map is Some && first_unnamed(
                feature_map.unwrap().regions@,
                protect_regions@,
            ) is None) ==> {
                &&& r is Ok
                &&& final(self).wf()
                &&& final(self).width == old(self).width
                &&& final(self).height == old(self).height
                &&& forall|x: int, y: int|
                    in_bounds(old(self).width, old(self).height, x, y) ==> #[trigger] final(self).pix_at(x, y) == (if protect_regions@.len()
                        > 0 && raw_cover(feature_map.unwrap().regions@, protect_regions@, x, y) {
                        original.pix_at(x, y)
                    } else {
                        old(self).pix_at(x, y)
                    })
            },
    {
        if protect_regions.len() == 0 {
            return Ok(());
        }
        let f = match feature_map {
            None => {
                return Err(
                    SceneAssetEditError::InvalidOperation(
                        String::from_str("--protect-regions requires --protect or --feature-map"),
                    ),
                );
            },
            Some(f) => f,
        };
        let mut rects: Vec<SceneAssetPixelRect> = Vec::new();
        let mut k: usize = 0;
        proof {
            assert(protect_regions@.skip(0) =~= protect_regions@);
        }
        while k < protect_regions.len()
            invariant
                feature_map == Some(f),
                k <= protect_regions@.len(),
                rects@.len() == k,
                first_unnamed(f.regions@, protect_regions@) == first_unnamed(f.regions@, protect_regions@.skip(k as int)),
                forall|j: int| 0 <= j < k ==> region_rect(f.regions@, protect_regions@[j]@) == Some(#[trigger] rects@[j]),
            decreases protect_regions.len() - k,
        {
            proof {
                assert(protect_regions@.skip(k as int).drop_first() =~= protect_regions@.skip(k + 1));
                assert(protect_regions@.skip(k as int)[0] == protect_regions@[k as int]);
            }
            match f.pixel_region(protect_regions[k].as_str()) {
                Ok(rect) => {
                    rects.push(rect);
                },
                Err(e) => {
                    return Err(e);
                },
            }
            k = k + 1;
        }
        proof {
            assert(protect_regions@.skip(protect_regions@.len() as int).len() == 0);
        }
        let ghost s0 = *self;
        let w = self.width;
        let h = self.height;
        let mut k: usize = 0;
        while k < rects.len()
            invariant
                self.wf(),
                s0.wf(),
                original.wf(),
                self.width == w,
                self.height == h,
                s0.width == w,
                s0.height == h,
                original.width == w,
                original.height == h,
                rects@.len() == protect_regions@.len(),
                k <= rects@.len(),
                forall|j: int|
                    0 <= j < rects@.len() ==> region_rect(f.regions@, protect_regions@[j]@) == Some(#[trigger] rects@[j]),
                forall|x: int, y: int|
                    in_bounds(w, h, x, y) ==> #[trigger] self.pix_at(x, y) == (if raw_cover(
                        f.regions@,
                        protect_regions@.take(k as int),
                        x,
                        y,
                    ) {
                        original.pix_at(x, y)
                    } else {
                        s0.pix_at(x, y)
                    }),
            decreases rects.len() - k,
        {
            let rect = rects[k];
            let ghost before = *self;
            self.restore_rect_from(original, rect);
            proof {
                assert forall|x: int, y: int| in_bounds(w, h, x, y) implies #[trigger] self.pix_at(x, y) == (if raw_cover(
                    f.regions@,
                    protect_regions@.take(k + 1),
                    x,
                    y,
                ) {
                    original.pix_at(x, y)
                } else {
                    s0.pix_at(x, y)
                }) by {
                    lemma_raw_cover_step(f.regions@, protect_regions@, k as int, x, y);
                    assert(region_rect(f.regions@, protect_regions@[k as int]@) == Some(rects@[k as int]));
                    assert(before.pix_at(x, y) == (if raw_cover(f.regions@, protect_regions@.take(k as int), x, y) {
                        original.pix_at(x, y)
                    } else {
                        s0.pix_at(x, y)
                    }));
                }
            }
            k = k + 1;
        }
        proof {
            assert(protect_regions@.take(protect_regions@.len() as int) =~= protect_regions@);
        }
        Ok(())
    }
}

/// The pixels an adjustment changes: the whole image when no region or
/// polygon bounds it, less the protected regions.
pub fn adjustment_mask(
    width: u32,
    height: u32,
    within_regions: &[String],
    within_polygons: &[Result<Vec<bool>, SceneAssetEditError>],
    protect_regions: &[String],
    feature_map: Option<&SceneAssetPixelRegions>,
) -> (r: Result<SceneAssetMask, SceneAssetEditError>)
    requires
        width * height <= usize::MAX,
        polygons_fit(within_polygons@, width, height),
    ensures
        paint_bounds_outcome(
            width,
            height,
            within_regions@.len() == 0 && within_polygons@.len() == 0,
            within_regions@,
            within_polygons@,
            protect_regions@,
            feature_map,
            r,
        ),
{
    let whole_image = within_regions.len() == 0 && within_polygons.len() == 0;
    paint_bounds_mask(width, height, whole_image, within_regions, within_polygons, protect_regions, feature_map)
}

/// The background sample argument `key` as the reader takes it.
pub open spec fn sample_choice(args: Seq<(String, SceneAssetArgValue)>, key: Seq<char>) -> Result<
    SceneAssetBackgroundSample,
    Seq<char>,
> {
    match choice_text(args, key, "corners"@) {
        Err(m) => Err(m),
        Ok(t) => match background_sample_named(t) {
            Some(v) => Ok(v),
            None => Err(bad_choice(key, t, "; expected corners or edges"@)),
        },
    }
}

/// The `defringe` argument as the reader takes it.
pub open spec fn defringe_choice(args: Seq<(String, SceneAssetArgValue)>) -> Result<SceneAssetDefringeMode, Seq<char>> {
    match choice_text(args, "defringe"@, "none"@) {
        Err(m) => Err(m),
        Ok(t) => match defringe_named(t) {
            Some(v) => Ok(v),
            None => Err(bad_choice("defringe"@, t, ""@)),
        },
    }
}

pub open spec fn u8_arg(args: Seq<(String, SceneAssetArgValue)>, key: Seq<char>, default: int) -> Result<int, Seq<char>> {
    bounded_arg(args, key, default, u8::MAX as int, "u8"@)
}

pub open spec fn u32_arg(args: Seq<(String, SceneAssetArgValue)>, key: Seq<char>) -> Result<int, Seq<char>> {
    bounded_arg(args, key, 0, u32::MAX as int, "u32"@)
}

pub open spec fn usize_arg(args: Seq<(String, SceneAssetArgValue)>, key: Seq<char>) -> Result<int, Seq<char>> {
    bounded_arg(args, key, 0, usize::MAX as int, "usize"@)
}

/// The message of the first polish argument that is refused, read in the
/// order tolerance, feather, sample, erode, dilate, open, close,
/// remove_small, fill_holes, defringe, protect_regions, within_regions.
pub open spec fn polish_args_error(args: Seq<(String, SceneAssetArgValue)>) -> Option<Seq<char>> {
    if u8_arg(args, "tolerance"@, 24) is Err {
        Some(u8_arg(args, "tolerance"@, 24)->Err_0)
    } else if u32_arg(args, "feather"@) is Err {
        Some(u32_arg(args, "feather"@)->Err_0)
    } else if sample_choice(args, "sample"@) is Err {
        Some(sample_choice(args, "sample"@)->Err_0)
    } else if u32_arg(args, "erode"@) is Err {
        Some(u32_arg(args, "erode"@)->Err_0)
    } else if u32_arg(args, "dilate"@) is Err {
        Some(u32_arg(args, "dilate"@)->Err_0)
    } else if u32_arg(args, "open"@) is Err {
        Some(u32_arg(args, "open"@)->Err_0)
    } else if u32_arg(args, "close"@) is Err {
        Some(u32_arg(args, "close"@)->Err_0)
    } else if usize_arg(args, "remove_small"@) is Err {
        Some(usize_arg(args, "remove_small"@)->Err_0)
    } else if usize_arg(args, "fill_holes"@) is Err {
        Some(usize_arg(args, "fill_holes"@)->Err_0)
    } else if defringe_choice(args) is Err {
        Some(defringe_choice(args)->Err_0)
    } else if string_list_arg(args, "protect_regions"@) is Err {
        Some(string_list_arg(args, "protect_regions"@)->Err_0)
    } else if string_list_arg(args, "within_regions"@) is Err {
        Some(string_list_arg(args, "within_regions"@)->Err_0)
    } else {
        None
    }
}

/// Reads a pipeline step's mask polish options, each argument with its
/// default; the first refused argument is the error.
pub fn pipeline_mask_polish_options(args: &[(String, SceneAssetArgValue)]) -> (r: Result<
    SceneAssetMaskPolishOptions,
    SceneAssetEditError,
>)
    ensures
        polish_args_error(args@) matches Some(m) ==> (r matches Err(e) && is_invalid(e, m)),
        polish_args_error(args@) is None ==> (r matches Ok(o) && {
            &&& o.tolerance == u8_arg(args@, "tolerance"@, 24)->Ok_0
            &&& o.feather == u32_arg(args@, "feather"@)->Ok_0
            &&& o.sample == sample_choice(args@, "sample"@)->Ok_0
            &&& o.erode == u32_arg(args@, "erode"@)->Ok_0
            &&& o.dilate == u32_arg(args@, "dilate"@)->Ok_0
            &&& o.open == u32_arg(args@, "open"@)->Ok_0
            &&& o.close == u32_arg(args@, "close"@)->Ok_0
            &&& o.remove_small == usize_arg(args@, "remove_small"@)->Ok_0
            &&& o.fill_holes == usize_arg(args@, "fill_holes"@)->Ok_0
            &&& o.defringe == defringe_choice(args@)->Ok_0
            &&& o.protect_regions@.map_values(|s: String| s@) == string_list_arg(args@, "protect_regions"@)->Ok_0
            &&& o.within_regions@.map_values(|s: String| s@) == string_list_arg(args@, "within_regions"@)->Ok_0
        }),
{
    let tolerance = match pipeline_u8_arg(args, "tolerance", 24) {
        Ok(v) => v,
        Err(e) => return Err(e),
    };
    let feather = match pipeline_u32_arg(args, "feather", 0) {
        Ok(v) => v,
        Err(e) => return Err(e),
    };
    let sample = match pipeline_background_sample_arg(args, "sample") {
        Ok(v) => v,
        Err(e) => return Err(e),
    };
    let erode = match pipeline_u32_arg(args, "erode", 0) {
        Ok(v) => v,
        Err(e) => return Err(e),
    };
    let dilate = match pipeline_u32_arg(args, "dilate", 0) {
        Ok(v) => v,
        Err(e) => return Err(e),
    };
    let open = match pipeline_u32_arg(args, "open", 0) {
        Ok(v) => v,
        Err(e) => return Err(e),
    };
    let close = match pipeline_u32_arg(args, "close", 0) {
        Ok(v) => v,
        Err(e) => return Err(e),
    };
    let remove_small = match pipeline_usize_arg(args, "remove_small", 0) {
        Ok(v) => v,
        Err(e) => return Err(e),
    };
    let fill_holes = match pipeline_usize_arg(args, "fill_holes", 0) {
        Ok(v) => v,
        Err(e) => return Err(e),
    };
    let defringe = match pipeline_defringe_arg(args) {
        Ok(v) => v,
        Err(e) => return Err(e),
    };
    let protect_regions = match pipeline_string_list_arg(args, "protect_regions") {
        Ok(v) => v,
        Err(e) => return Err(e),
    };
    let within_regions = match pipeline_string_list_arg(args, "within_regions") {
        Ok(v) => v,
        Err(e) => return Err(e),
    };
    Ok(
        SceneAssetMaskPolishOptions {
            tolerance,
            feather,
            sample,
            erode,
            dilate,
            open,
            close,
            remove_small,
            fill_holes,
            defringe,
            protect_regions,
            within_regions,
        },
    )
}

proof fn lemma_row_unchanged(a: SceneAssetRaster, b: SceneAssetRaster, y: int, x0: int, x_end: int)
    requires
        a.wf(),
        b.wf(),
        a.width == b.width,
        forall|x: int| x0 <= x < x_end ==> #[trigger] a.pix_at(x, y) == b.pix_at(x, y),
    ensures
        row_changes(a.data@, b.data@, a.width, y, x0, x_end) == 0,
    decreases x_end - x0,
{
    if x_end > x0 {
        lemma_row_unchanged(a, b, y, x0, x_end - 1);
        assert(a.pix_at(x_end - 1, y) == b.pix_at(x_end - 1, y));
        lemma_same_pixel(a.data@, index_of(a.width, x_end - 1, y), b.data@, index_of(a.width, x_end - 1, y));
    }
}

proof fn lemma_rect_unchanged(a: SceneAssetRaster, b: SceneAssetRaster, x0: int, x_end: int, y0: int, y_end: int)
    requires
        a.wf(),
        b.wf(),
        a.width == b.width,
        forall|x: int, y: int| x0 <= x < x_end && y0 <= y < y_end ==> #[trigger] a.pix_at(x, y) == b.pix_at(x, y),
    ensures
        rect_changes(a.data@, b.data@, a.width, x0, x_end, y0, y_end) == 0,
    decreases y_end - y0,
{
    if y_end > y0 {
        lemma_rect_unchanged(a, b, x0, x_end, y0, y_end - 1);
        assert forall|x: int| x0 <= x < x_end implies #[trigger] a.pix_at(x, y_end - 1) == b.pix_at(x, y_end - 1) by {}
        lemma_row_unchanged(a, b, y_end - 1, x0, x_end);
    }
}

/// A region copied back from an earlier image compares unchanged against
/// it: after the protected regions are restored, each of them shows no
/// changed pixel between that image and the result.
pub proof fn law_restored_regions_compare_unchanged(
    original: SceneAssetRaster,
    before: SceneAssetRaster,
    after: SceneAssetRaster,
    regions: Seq<(String, SceneAssetPixelRect)>,
    names: Seq<String>,
    k: int,
)
    requires
        original.wf(),
        after.wf(),
        original.width == after.width,
        original.height == after.height,
        0 <= k < names.len(),
        region_rect(regions, names[k]@) is Some,
        forall|x: int, y: int|
            in_bounds(after.width, after.height, x, y) ==> #[trigger] after.pix_at(x, y) == (if raw_cover(
                regions,
                names,
                x,
                y,
            ) {
                original.pix_at(x, y)
            } else {
                before.pix_at(x, y)
            }),
    ensures
        region_changes(original, after, region_rect(regions, names[k]@).unwrap()) == 0,
{
    let r = region_rect(regions, names[k]@).unwrap();
    let x_end = clip_end(r.x, r.w, original.width);
    let y_end = clip_end(r.y, r.h, original.height);
    assert forall|x: int, y: int| r.x <= x < x_end && r.y <= y < y_end implies #[trigger] original.pix_at(x, y)
        == after.pix_at(x, y) by {
        assert(in_bounds(after.width, after.height, x, y));
        assert(in_rect(r, x, y));
        assert(raw_cover(regions, names, x, y));
    }
    lemma_rect_unchanged(original, after, r.x as int, x_end, r.y as int, y_end);
}

/// Protected regions are never painted: a pixel that a protected region
/// covers is left out of the paint bounds.
pub proof fn law_protected_pixels_are_outside_paint_bounds(
    width: u32,
    height: u32,
    whole_image: bool,
    within_regions: Seq<String>,
    within_polygons: Seq<Result<Vec<bool>, SceneAssetEditError>>,
    protect_regions: Seq<String>,
    feature_map: Option<&SceneAssetPixelRegions>,
    r: Result<SceneAssetMask, SceneAssetEditError>,
    x: int,
    y: int,
)
    requires
        paint_bounds_outcome(width, height, whole_image, within_regions, within_polygons, protect_regions, feature_map, r),
        r is Ok,
        feature_map is Some,
        named_cover(feature_map.unwrap().regions@, protect_regions, x, y),
        in_bounds(width, height, x, y),
    ensures
        !px(r->Ok_0.pixels@, width, x, y),
{
}

} // verus!
