use gameterm_visual::asset::{protected_region_expectation_failure, SceneAssetBackgroundSample, SceneAssetEditError, SceneAssetMaskPreviewMode};
use gameterm_visual::mask::{mask_selection_bounds, SceneAssetMask, SceneAssetPixelRect};
use gameterm_visual::raster::{compare_protected_rects, mask_export_image, scene_asset_mask_from_image, SceneAssetRaster};
use gameterm_visual::regions::{
    adjustment_mask, apply_mask_polish, paint_bounds_mask, restore_mask, selection_bounds_mask,
    SceneAssetMaskPolishOptions, SceneAssetPixelRegions,
};
use gameterm_visual::sample::median_value;

fn put(image: &mut SceneAssetRaster, x: u32, y: u32, color: [u8; 4]) {
    let i = (y * image.width + x) as usize;
    image.set_pixel(i, color);
}

fn at(image: &SceneAssetRaster, x: u32, y: u32) -> [u8; 4] {
    image.get_pixel(x, y)
}

/// Rasterises a polygon of normalised points the way the asset editor
/// does: a pixel is inside when its centre is.
fn polygon(width: u32, height: u32, points: &[(f32, f32)]) -> Result<Vec<bool>, SceneAssetEditError> {
    let mut flags = vec![false; (width * height) as usize];
    for y in 0..height {
        for x in 0..width {
            let px = (x as f32 + 0.5) / width.max(1) as f32;
            let py = (y as f32 + 0.5) / height.max(1) as f32;
            let mut inside = false;
            let mut previous = points[points.len() - 1];
            for &current in points {
                if (current.1 > py) != (previous.1 > py) {
                    let slope = (previous.0 - current.0) / (previous.1 - current.1);
                    if px < slope * (py - current.1) + current.0 {
                        inside = !inside;
                    }
                }
                previous = current;
            }
            if inside {
                flags[(y * width + x) as usize] = true;
            }
        }
    }
    Ok(flags)
}

fn left_half() -> Vec<(f32, f32)> {
    vec![(0.0, 0.0), (0.5, 0.0), (0.5, 1.0), (0.0, 1.0)]
}

fn regions(entries: &[(&str, SceneAssetPixelRect)]) -> SceneAssetPixelRegions {
    SceneAssetPixelRegions { regions: entries.iter().map(|(n, r)| (n.to_string(), *r)).collect() }
}

fn rect(x: u32, y: u32, w: u32, h: u32) -> SceneAssetPixelRect {
    SceneAssetPixelRect { x, y, w, h }
}

fn invalid_message(e: SceneAssetEditError) -> String {
    match e {
        SceneAssetEditError::InvalidOperation(m) => m,
        other => panic!("unexpected error {:?}", other),
    }
}

fn selected(mask: &SceneAssetMask, x: u32, y: u32) -> bool {
    mask.pixels()[(y * mask.width + x) as usize]
}

#[test]
fn fill_region_paints_only_bounded_polygon() {
    let mut image = SceneAssetRaster::filled(4, 4, [0, 0, 0, 255]);
    let mask = paint_bounds_mask(4, 4, false, &[], &[polygon(4, 4, &left_half())], &[], None).unwrap();
    let changed = image.fill_masked_pixels(mask.pixels(), [200, 100, 50, 255]);
    assert_eq!(changed, 8);
    assert_eq!(at(&image, 0, 0), [200, 100, 50, 255]);
    assert_eq!(at(&image, 3, 0), [0, 0, 0, 255]);
}

#[test]
fn sample_fill_uses_median_sample_color() {
    let mut image = SceneAssetRaster::filled(4, 4, [0, 0, 0, 255]);
    put(&mut image, 0, 0, [80, 90, 100, 255]);
    let color = image.median_sample_color(0, 0, 0);
    let right_half = vec![(0.5, 0.0), (1.0, 0.0), (1.0, 1.0), (0.5, 1.0)];
    let mask = paint_bounds_mask(4, 4, false, &[], &[polygon(4, 4, &right_half)], &[], None).unwrap();
    image.fill_masked_pixels(mask.pixels(), color);
    assert_eq!(at(&image, 3, 0), [80, 90, 100, 255]);
    assert_eq!(at(&image, 0, 0), [80, 90, 100, 255]);
    assert_eq!(at(&image, 1, 0), [0, 0, 0, 255]);
}

#[test]
fn alpha_paint_changes_alpha_without_changing_rgb() {
    let mut image = SceneAssetRaster::filled(4, 4, [20, 40, 60, 255]);
    let mask = paint_bounds_mask(4, 4, false, &[], &[polygon(4, 4, &left_half())], &[], None).unwrap();
    let changed = image.alpha_paint_masked_pixels(mask.pixels(), 80);
    assert_eq!(changed, 8);
    assert_eq!(at(&image, 0, 0), [20, 40, 60, 80]);
    assert_eq!(at(&image, 3, 0), [20, 40, 60, 255]);
}

#[test]
fn clone_stamp_copies_source_offset_into_bounded_target() {
    let mut image = SceneAssetRaster::filled(4, 4, [0, 0, 0, 255]);
    put(&mut image, 0, 0, [200, 40, 60, 255]);
    let corner = vec![(0.75, 0.75), (1.0, 0.75), (1.0, 1.0), (0.75, 1.0)];
    let mask = paint_bounds_mask(4, 4, false, &[], &[polygon(4, 4, &corner)], &[], None).unwrap();
    let changed = image.clone_stamp_pixels(mask.pixels(), (0, 0), (3, 3));
    assert_eq!(changed, 1);
    assert_eq!(at(&image, 3, 3), [200, 40, 60, 255]);
    assert_eq!(at(&image, 0, 0), [200, 40, 60, 255]);
}

#[test]
fn clone_stamp_skips_sources_outside_the_image() {
    let mut image = SceneAssetRaster::filled(3, 1, [1, 2, 3, 255]);
    put(&mut image, 2, 0, [9, 9, 9, 255]);
    let changed = image.clone_stamp_pixels(&[true, true, true], (1, 0), (0, 0));
    assert_eq!(changed, 1);
    assert_eq!(at(&image, 0, 0), [1, 2, 3, 255]);
    assert_eq!(at(&image, 1, 0), [9, 9, 9, 255]);
    assert_eq!(at(&image, 2, 0), [9, 9, 9, 255]);
}

#[test]
fn mask_export_roundtrips_through_apply_alpha_and_composite() {
    let mut source = SceneAssetRaster::filled(4, 4, [0, 0, 0, 255]);
    for y in 0..2 {
        for x in 0..2 {
            put(&mut source, x, y, [255, 255, 255, 255]);
        }
    }
    let options = SceneAssetMaskPolishOptions { tolerance: 0, ..SceneAssetMaskPolishOptions::default() };
    let mask = source
        .preview_selection_mask(SceneAssetMaskPreviewMode::MagicAdd, &[Ok((0, 0))], 238, 28, &options, &[], None)
        .unwrap();
    assert_eq!(mask.selected_count(), 4);
    assert_eq!(mask_selection_bounds(4, 4, mask.pixels()), Some(rect(0, 0, 2, 2)));

    let exported = mask_export_image(&mask);
    let reloaded = scene_asset_mask_from_image(&exported, 4, 4).unwrap();
    assert_eq!(reloaded.selected_count(), 4);

    let mut alpha = source.clone();
    let changed = alpha.alpha_paint_masked_pixels(reloaded.pixels(), 0);
    assert_eq!(changed, 4);
    assert_eq!(at(&alpha, 0, 0)[3], 0);
    assert_eq!(at(&alpha, 3, 3)[3], 255);

    let patch = SceneAssetRaster::filled(4, 4, [255, 0, 0, 255]);
    let mut composite = source.clone();
    let (changed, bounds) = composite.composite_masked_patch(&patch, reloaded.pixels()).unwrap();
    assert_eq!(changed, 4);
    assert_eq!(bounds, Some(rect(0, 0, 2, 2)));
    assert_eq!(at(&composite, 0, 0), [255, 0, 0, 255]);
    assert_eq!(at(&composite, 3, 3), [0, 0, 0, 255]);
}

#[test]
fn mask_composite_rejects_dimension_mismatch() {
    let mut source = SceneAssetRaster::filled(4, 4, [0, 0, 0, 255]);
    let patch = SceneAssetRaster::filled(3, 4, [255, 0, 0, 255]);
    let mask = vec![true; 16];
    let err = source.composite_masked_patch(&patch, &mask).unwrap_err();
    let message = invalid_message(err);
    assert!(message.contains("dimensions differ"));
    assert_eq!(message, "mask-composite source and patch dimensions differ: 4x4 vs 3x4");
    assert_eq!(at(&source, 0, 0), [0, 0, 0, 255]);
}

#[test]
fn magic_erase_add_unions_clicked_regions_without_selecting_unclicked_island() {
    let mut image = SceneAssetRaster::filled(12, 6, [60, 60, 60, 255]);
    for &(sx, sy) in &[(1, 1), (5, 1), (9, 1)] {
        for y in sy..sy + 3 {
            for x in sx..sx + 2 {
                put(&mut image, x, y, [30, 80, 220, 255]);
            }
        }
    }
    let options = SceneAssetMaskPolishOptions { tolerance: 4, ..SceneAssetMaskPolishOptions::default() };
    let seeds = image.multi_seed_contiguous_mask(&[Ok((2, 2)), Ok((6, 2))], options.tolerance).unwrap();
    let mask = apply_mask_polish(seeds, &options, &[], None).unwrap();
    image.alpha_paint_masked_pixels(mask.pixels(), 0);
    assert_eq!(at(&image, 2, 2)[3], 0);
    assert_eq!(at(&image, 6, 2)[3], 0);
    assert_eq!(at(&image, 10, 2)[3], 255);
}

#[test]
fn magic_erase_add_needs_a_seed_and_reports_a_misplaced_one() {
    let image = SceneAssetRaster::filled(2, 2, [0, 0, 0, 255]);
    let err = image.multi_seed_contiguous_mask(&[], 0).unwrap_err();
    assert_eq!(invalid_message(err), "magic_erase_add requires at least one --seed");
    let refused = SceneAssetEditError::InvalidOperation("seed point must be finite and inside 0..1".to_string());
    let err = image.multi_seed_contiguous_mask(&[Ok((0, 0)), Err(refused.clone())], 0).unwrap_err();
    assert_eq!(err, refused);
}

#[test]
fn channel_matte_erase_selects_bright_neutral_pockets_not_saturated_hair() {
    let mut image = SceneAssetRaster::filled(6, 4, [240, 150, 170, 255]);
    put(&mut image, 1, 1, [250, 250, 250, 255]);
    put(&mut image, 4, 2, [245, 245, 245, 255]);
    let options = SceneAssetMaskPolishOptions::default();
    let mask = image
        .preview_selection_mask(SceneAssetMaskPreviewMode::ChannelMatte, &[], 238, 16, &options, &[], None)
        .unwrap();
    image.alpha_paint_masked_pixels(mask.pixels(), 0);
    assert_eq!(at(&image, 1, 1)[3], 0);
    assert_eq!(at(&image, 4, 2)[3], 0);
    assert_eq!(at(&image, 2, 2)[3], 255);
}

#[test]
fn polished_background_protects_feature_map_regions() {
    let mut image = SceneAssetRaster::filled(8, 8, [255, 255, 255, 255]);
    for y in 3..5 {
        for x in 3..5 {
            put(&mut image, x, y, [250, 250, 250, 255]);
        }
    }
    let map = regions(&[("face", rect(3, 3, 2, 2))]);
    let options = SceneAssetMaskPolishOptions {
        tolerance: 10,
        protect_regions: vec!["face".to_string()],
        ..SceneAssetMaskPolishOptions::default()
    };
    let mask = image.polished_background_mask(&options, &[], Some(&map)).unwrap();
    assert_eq!(mask.selected_count(), 60);
    image.alpha_paint_masked_pixels(mask.pixels(), 0);
    assert_eq!(at(&image, 0, 0)[3], 0);
    assert_eq!(at(&image, 3, 3)[3], 255);
}

#[test]
fn color_range_erase_selects_disconnected_white_pockets() {
    let mut image = SceneAssetRaster::filled(8, 8, [255, 255, 255, 255]);
    for y in 2..6 {
        for x in 2..6 {
            put(&mut image, x, y, [230, 120, 150, 255]);
        }
    }
    put(&mut image, 4, 4, [255, 255, 255, 255]);
    let options = SceneAssetMaskPolishOptions { tolerance: 0, ..SceneAssetMaskPolishOptions::default() };
    let mask = image
        .preview_selection_mask(SceneAssetMaskPreviewMode::ColorRange, &[], 238, 28, &options, &[], None)
        .unwrap();
    image.alpha_paint_masked_pixels(mask.pixels(), 0);
    assert_eq!(at(&image, 0, 0)[3], 0);
    assert_eq!(at(&image, 4, 4)[3], 0);
    assert_eq!(at(&image, 3, 3)[3], 255);
}

#[test]
fn color_range_erase_within_region_does_not_select_outside_pixels() {
    let mut image = SceneAssetRaster::filled(8, 8, [255, 255, 255, 255]);
    let map = regions(&[("left", rect(0, 0, 4, 8))]);
    let options = SceneAssetMaskPolishOptions {
        tolerance: 0,
        within_regions: vec!["left".to_string()],
        ..SceneAssetMaskPolishOptions::default()
    };
    let mask = image
        .preview_selection_mask(SceneAssetMaskPreviewMode::ColorRange, &[], 238, 28, &options, &[], Some(&map))
        .unwrap();
    assert_eq!(mask.selected_count(), 32);
    image.alpha_paint_masked_pixels(mask.pixels(), 0);
    assert_eq!(at(&image, 1, 1)[3], 0);
    assert_eq!(at(&image, 6, 1)[3], 255);
}

#[test]
fn mask_preview_renders_bounded_selection_without_erasing_source() {
    let image = SceneAssetRaster::filled(8, 8, [255, 255, 255, 255]);
    let options = SceneAssetMaskPolishOptions { tolerance: 0, ..SceneAssetMaskPolishOptions::default() };
    let mask = image
        .preview_selection_mask(
            SceneAssetMaskPreviewMode::ColorRange,
            &[],
            238,
            28,
            &options,
            &[polygon(8, 8, &left_half())],
            None,
        )
        .unwrap();
    assert_eq!(mask.selected_count(), 32);
    assert!(selected(&mask, 1, 1));
    assert!(!selected(&mask, 6, 1));
    assert_eq!(at(&image, 6, 1), [255, 255, 255, 255]);
}

#[test]
fn paint_bounds_report_each_missing_input() {
    let err = paint_bounds_mask(2, 2, false, &[], &[], &[], None).unwrap_err();
    assert_eq!(invalid_message(err), "paint operations require --within-regions, --within-polygon, or --whole-image");
    let err = paint_bounds_mask(2, 2, false, &["face".to_string()], &[], &[], None).unwrap_err();
    assert_eq!(invalid_message(err), "--within-regions requires --protect or --feature-map");
    let err = paint_bounds_mask(2, 2, true, &[], &[], &["face".to_string()], None).unwrap_err();
    assert_eq!(invalid_message(err), "--protect-regions requires --protect or --feature-map");
    let map = regions(&[("face", rect(0, 0, 1, 1))]);
    let err = paint_bounds_mask(2, 2, false, &[" hair ".to_string()], &[], &[], Some(&map)).unwrap_err();
    assert_eq!(err, SceneAssetEditError::UnknownRegion("hair".to_string()));
    let err = paint_bounds_mask(2, 2, true, &[], &[], &["hat".to_string()], Some(&map)).unwrap_err();
    assert_eq!(err, SceneAssetEditError::UnknownRegion("hat".to_string()));
}

#[test]
fn paint_bounds_cover_whole_image_less_protected_regions() {
    let map = regions(&[("face", rect(0, 0, 1, 1)), ("body", rect(1, 1, 5, 5))]);
    let mask =
        paint_bounds_mask(2, 2, true, &[], &[], &["face".to_string(), "  ".to_string()], Some(&map)).unwrap();
    assert!(!selected(&mask, 0, 0));
    assert!(selected(&mask, 1, 0));
    assert!(selected(&mask, 0, 1));
    assert!(selected(&mask, 1, 1));
    let mask = paint_bounds_mask(2, 2, false, &[" body".to_string()], &[], &[], Some(&map)).unwrap();
    assert_eq!(mask.selected_count(), 1);
    assert!(selected(&mask, 1, 1));
}

#[test]
fn a_refused_polygon_is_reported_after_the_regions() {
    let refused = SceneAssetEditError::InvalidOperation("restore polygon requires at least three points".to_string());
    let err = paint_bounds_mask(2, 2, false, &[], &[Ok(vec![true; 4]), Err(refused.clone())], &[], None).unwrap_err();
    assert_eq!(err, refused);
    let err = selection_bounds_mask(2, 2, &["x".to_string()], &[Err(refused.clone())], None).unwrap_err();
    assert_eq!(invalid_message(err), "--within-regions requires --feature-map or --protect");
}

#[test]
fn adjustments_cover_the_whole_image_unless_bounded() {
    let mask = adjustment_mask(2, 2, &[], &[], &[], None).unwrap();
    assert_eq!(mask.selected_count(), 4);
    let map = regions(&[("top", rect(0, 0, 2, 1))]);
    let mask = adjustment_mask(2, 2, &["top".to_string()], &[], &[], Some(&map)).unwrap();
    assert_eq!(mask.selected_count(), 2);
}

#[test]
fn restore_mask_needs_regions_or_polygons() {
    let err = restore_mask(2, 2, &[], &[], None).unwrap_err();
    assert_eq!(invalid_message(err), "restore-from-source requires --restore-regions or --polygon");
    let err = restore_mask(2, 2, &["face".to_string()], &[], None).unwrap_err();
    assert_eq!(invalid_message(err), "--restore-regions requires --feature-map or --protect");
    let map = regions(&[("face", rect(1, 0, 1, 2))]);
    let mask = restore_mask(2, 2, &["face".to_string()], &[], Some(&map)).unwrap();
    assert!(selected(&mask, 1, 0) && selected(&mask, 1, 1));
    assert!(!selected(&mask, 0, 0));
}

#[test]
fn restore_from_source_region_copies_base_pixels_into_cutout() {
    let base = SceneAssetRaster::filled(4, 4, [10, 20, 30, 255]);
    let mut cutout = SceneAssetRaster::filled(4, 4, [0, 0, 0, 0]);
    let map = regions(&[("mouth", rect(1, 2, 2, 1))]);
    let mask = restore_mask(4, 4, &["mouth".to_string()], &[], Some(&map)).unwrap();
    let restored = gameterm_visual::raster::restore_pixels_with_mask(
        &base,
        &mut cutout,
        &mask,
        gameterm_visual::asset::SceneAssetRestoreFilter::All,
        24,
        SceneAssetBackgroundSample::Corners,
    )
    .unwrap();
    assert_eq!(restored, 2);
    assert_eq!(at(&cutout, 1, 2), [10, 20, 30, 255]);
    assert_eq!(at(&cutout, 0, 0), [0, 0, 0, 0]);
}

#[test]
fn protected_regions_are_copied_back_from_the_original() {
    let original = SceneAssetRaster::filled(3, 3, [1, 1, 1, 255]);
    let mut image = SceneAssetRaster::filled(3, 3, [9, 9, 9, 255]);
    let map = regions(&[("eye", rect(2, 2, 4, 4))]);
    let err = image.restore_protected_regions(&original, None, &["eye".to_string()]).unwrap_err();
    assert_eq!(invalid_message(err), "--protect-regions requires --protect or --feature-map");
    let err = image.restore_protected_regions(&original, Some(&map), &["eye".to_string(), " eye".to_string()]).unwrap_err();
    assert_eq!(err, SceneAssetEditError::UnknownRegion(" eye".to_string()));
    assert_eq!(at(&image, 2, 2), [9, 9, 9, 255]);
    image.restore_protected_regions(&original, Some(&map), &["eye".to_string()]).unwrap();
    assert_eq!(at(&image, 2, 2), [1, 1, 1, 255]);
    assert_eq!(at(&image, 1, 1), [9, 9, 9, 255]);
}

#[test]
fn polish_erodes_then_protects() {
    let mut pixels = vec![false; 25];
    for y in 1..4 {
        for x in 1..4 {
            pixels[y * 5 + x] = true;
        }
    }
    let mask = SceneAssetMask::from_pixels(5, 5, pixels);
    let options = SceneAssetMaskPolishOptions { erode: 1, ..SceneAssetMaskPolishOptions::default() };
    let polished = apply_mask_polish(mask.clone(), &options, &[], None).unwrap();
    assert_eq!(polished.selected_count(), 1);
    assert!(selected(&polished, 2, 2));
    let map = regions(&[("centre", rect(2, 2, 1, 1))]);
    let options = SceneAssetMaskPolishOptions { protect_regions: vec!["centre".to_string()], ..SceneAssetMaskPolishOptions::default() };
    let polished = apply_mask_polish(mask.clone(), &options, &[], Some(&map)).unwrap();
    assert_eq!(polished.selected_count(), 8);
    let options = SceneAssetMaskPolishOptions { protect_regions: vec!["gone".to_string()], ..SceneAssetMaskPolishOptions::default() };
    let err = apply_mask_polish(mask.clone(), &options, &[], Some(&map)).unwrap_err();
    assert_eq!(err, SceneAssetEditError::UnknownRegion("gone".to_string()));
    let polished = apply_mask_polish(mask, &options, &[], None).unwrap();
    assert_eq!(polished.selected_count(), 9);
}

#[test]
fn protecting_feature_regions_skips_blank_names() {
    let mut mask = SceneAssetMask::from_pixels(2, 1, vec![true, true]);
    let map = regions(&[("a", rect(0, 0, 1, 1))]);
    mask.protect_feature_regions(&map, &["".to_string(), " a ".to_string()]).unwrap();
    assert!(!selected(&mask, 0, 0));
    assert!(selected(&mask, 1, 0));
    assert_eq!(map.pixel_region("b"), Err(SceneAssetEditError::UnknownRegion("b".to_string())));
    assert_eq!(map.pixel_region("a"), Ok(rect(0, 0, 1, 1)));
}

#[test]
fn medians_take_the_middle_of_the_sorted_values() {
    assert_eq!(median_value(&[5]), 5);
    assert_eq!(median_value(&[3, 1, 2]), 2);
    assert_eq!(median_value(&[4, 1, 3, 2]), 3);
    assert_eq!(median_value(&[0, 255, 255, 0, 7]), 7);
}

#[test]
fn window_medians_and_region_samples() {
    let mut image = SceneAssetRaster::filled(3, 3, [10, 10, 10, 255]);
    put(&mut image, 0, 0, [200, 0, 0, 0]);
    put(&mut image, 1, 0, [100, 0, 0, 0]);
    assert_eq!(image.median_sample_color(1, 1, 1), [10, 10, 10, 255]);
    assert_eq!(image.median_sample_color(0, 0, 1), [100, 10, 10, 255]);
    let mask = vec![true, true, false, false, true, false, false, false, false];
    let tally = image.sample_masked_region(&mask).unwrap();
    assert_eq!(tally.pixel_count, 3);
    assert_eq!(tally.sum_rgba, [310, 10, 10, 255]);
    assert_eq!(tally.median_rgba, [100, 0, 0, 0]);
    assert_eq!(tally.opaque_pixels, 1);
    let err = image.sample_masked_region(&vec![false; 9]).unwrap_err();
    assert_eq!(invalid_message(err), "sample region selected zero pixels");
}

#[test]
fn foreground_median_skips_transparent_and_fringe_pixels() {
    let mut image = SceneAssetRaster::filled(3, 1, [0, 0, 0, 0]);
    assert_eq!(image.nearby_foreground_median(1, 0, 1), None);
    put(&mut image, 0, 0, [250, 250, 250, 255]);
    put(&mut image, 2, 0, [170, 40, 60, 230]);
    assert_eq!(image.nearby_foreground_median(1, 0, 1), Some([170, 40, 60]));
}

#[test]
fn copying_masked_pixels_takes_only_selected_ones() {
    let source = SceneAssetRaster::filled(2, 1, [7, 7, 7, 7]);
    let mut target = SceneAssetRaster::filled(2, 1, [0, 0, 0, 0]);
    target.copy_masked_pixels(&source, &[false, true]);
    assert_eq!(at(&target, 0, 0), [0, 0, 0, 0]);
    assert_eq!(at(&target, 1, 0), [7, 7, 7, 7]);
}

#[test]
fn filling_twice_changes_nothing_the_second_time() {
    let mut image = SceneAssetRaster::filled(3, 3, [1, 2, 3, 4]);
    let mask = vec![true, false, true, false, true, false, true, false, true];
    assert_eq!(image.fill_masked_pixels(&mask, [9, 9, 9, 9]), 5);
    let once = image.clone();
    assert_eq!(image.fill_masked_pixels(&mask, [9, 9, 9, 9]), 0);
    assert_eq!(image.data, once.data);
}

#[test]
fn restored_regions_compare_unchanged_against_the_original() {
    let original = SceneAssetRaster::filled(4, 4, [10, 20, 30, 255]);
    let mut edited = SceneAssetRaster::filled(4, 4, [200, 0, 0, 255]);
    let map = regions(&[("mouth", rect(1, 2, 2, 1))]);
    let listed = map.regions.clone();
    let before = compare_protected_rects(&original, &edited, &listed).unwrap();
    assert_eq!(before.changed_pixels, 2);
    edited.restore_protected_regions(&original, Some(&map), &["mouth".to_string()]).unwrap();
    let after = compare_protected_rects(&original, &edited, &listed).unwrap();
    assert_eq!(after.changed_pixels, 0);
    assert!(after.changed_regions.is_empty());
}

#[test]
fn protected_region_assertion_passes_when_region_is_restored() {
    let source = SceneAssetRaster::filled(4, 4, [0, 0, 0, 255]);
    let map = regions(&[("face", rect(0, 0, 2, 4))]);
    let mut filled = source.clone();
    let mask = paint_bounds_mask(4, 4, true, &[], &[], &["face".to_string()], Some(&map)).unwrap();
    let changed = filled.fill_masked_pixels(mask.pixels(), [255, 0, 0, 255]);
    assert_eq!(changed, 8);
    let report = compare_protected_rects(&source, &filled, &[("face".to_string(), rect(0, 0, 2, 4))]).unwrap();
    let failure = protected_region_expectation_failure(&vec!["face".to_string()], Some(0), Some(&report));
    assert_eq!(report.changed_pixels, 0);
    assert!(report.changed_regions.is_empty());
    assert_eq!(failure, None);
}

#[test]
fn protected_region_assertion_fails_when_region_changes() {
    let source = SceneAssetRaster::filled(4, 4, [0, 0, 0, 255]);
    let mut filled = source.clone();
    let mask = paint_bounds_mask(4, 4, true, &[], &[], &[], None).unwrap();
    filled.fill_masked_pixels(mask.pixels(), [255, 0, 0, 255]);
    let report = compare_protected_rects(&source, &filled, &[("face".to_string(), rect(0, 0, 2, 4))]).unwrap();
    let failure = protected_region_expectation_failure(&vec!["face".to_string()], Some(0), Some(&report));
    assert_eq!(report.changed_pixels, 8);
    assert_eq!(report.changed_regions[0].region, "face");
    assert!(failure.unwrap().contains("protected regions changed"));
}

/// Maps a normalised point to a pixel the way the asset editor does.
fn point_pixel(x: f32, y: f32, width: u32, height: u32) -> (u32, u32) {
    (
        (x * width.saturating_sub(1) as f32).round() as u32,
        (y * height.saturating_sub(1) as f32).round() as u32,
    )
}

fn two_matching_islands() -> SceneAssetRaster {
    let mut image = SceneAssetRaster::filled(16, 8, [240, 240, 240, 255]);
    for y in 2..6 {
        for x in 2..5 {
            put(&mut image, x, y, [30, 80, 220, 255]);
        }
        for x in 11..14 {
            put(&mut image, x, y, [30, 80, 220, 255]);
        }
    }
    image
}

#[test]
fn magic_erase_contiguous_seed_does_not_remove_separate_matching_island() {
    let mut image = two_matching_islands();
    let seed = point_pixel(0.19, 0.50, 16, 8);
    let mask = image.contiguous_magic_mask(&[seed], 4);
    let selected_pixels = mask.iter().filter(|s| **s).count();
    image.alpha_paint_masked_pixels(&mask, 0);
    assert_eq!(selected_pixels, 12);
    assert_eq!(at(&image, 3, 3)[3], 0);
    assert_eq!(at(&image, 12, 3)[3], 255);
}

#[test]
fn magic_erase_global_removes_all_matching_pixels() {
    let mut image = two_matching_islands();
    let seed = point_pixel(0.19, 0.50, 16, 8);
    let mask = image.global_magic_mask(at(&image, seed.0, seed.1), 4);
    let selected_pixels = mask.iter().filter(|s| **s).count();
    image.alpha_paint_masked_pixels(&mask, 0);
    assert_eq!(selected_pixels, 24);
    assert_eq!(at(&image, 3, 3)[3], 0);
    assert_eq!(at(&image, 12, 3)[3], 0);
}

#[test]
fn remove_background_makes_edge_color_transparent_and_keeps_subject() {
    let mut image = SceneAssetRaster::filled(16, 16, [245, 245, 240, 255]);
    for y in 5..11 {
        for x in 6..10 {
            put(&mut image, x, y, [180, 40, 70, 255]);
        }
    }
    let mask = image.background_magic_mask(8, SceneAssetBackgroundSample::Corners);
    let selected_pixels = mask.iter().filter(|s| **s).count();
    image.alpha_paint_masked_pixels(&mask, 0);
    assert!(selected_pixels > 0);
    assert_eq!(at(&image, 0, 0)[3], 0);
    assert_eq!(at(&image, 8, 8)[3], 255);
}

#[test]
fn sample_report_summarizes_bounded_region() {
    let mut image = SceneAssetRaster::filled(4, 4, [0, 0, 0, 0]);
    for y in 0..4 {
        for x in 0..2 {
            put(&mut image, x, y, [10, 20, 30, 255]);
        }
    }
    let point = point_pixel(0.0, 0.0, 4, 4);
    let mask = paint_bounds_mask(4, 4, false, &[], &[polygon(4, 4, &left_half())], &[], None).unwrap();
    let region = image.sample_masked_region(mask.pixels()).unwrap();
    let mean: Vec<f32> = region.sum_rgba.iter().map(|s| *s as f32 / region.pixel_count as f32).collect();
    assert_eq!(at(&image, point.0, point.1), [10, 20, 30, 255]);
    assert_eq!(region.pixel_count, 8);
    assert_eq!(region.median_rgba, [10, 20, 30, 255]);
    assert_eq!(mean, vec![10.0, 20.0, 30.0, 255.0]);
    assert_eq!(region.opaque_pixels as f32 / region.pixel_count as f32, 1.0);
}

#[test]
fn restore_from_source_polygon_copies_traced_shape() {
    let base = SceneAssetRaster::filled(8, 8, [180, 60, 80, 255]);
    let mut cutout = SceneAssetRaster::filled(8, 8, [0, 0, 0, 0]);
    let square = vec![(0.0, 0.0), (0.5, 0.0), (0.5, 0.5), (0.0, 0.5)];
    let mask = restore_mask(8, 8, &[], &[polygon(8, 8, &square)], None).unwrap();
    gameterm_visual::raster::restore_pixels_with_mask(
        &base,
        &mut cutout,
        &mask,
        gameterm_visual::asset::SceneAssetRestoreFilter::All,
        24,
        SceneAssetBackgroundSample::Corners,
    )
    .unwrap();
    assert_eq!(at(&cutout, 1, 1)[3], 255);
    assert_eq!(at(&cutout, 6, 6)[3], 0);
}

#[test]
fn restore_from_source_non_background_filter_skips_white_pixels() {
    let mut base = SceneAssetRaster::filled(8, 8, [255, 255, 255, 255]);
    put(&mut base, 3, 3, [180, 60, 80, 255]);
    let mut cutout = SceneAssetRaster::filled(8, 8, [0, 0, 0, 0]);
    let whole = vec![(0.0, 0.0), (1.0, 0.0), (1.0, 1.0), (0.0, 1.0)];
    let mask = restore_mask(8, 8, &[], &[polygon(8, 8, &whole)], None).unwrap();
    let restored_pixels = gameterm_visual::raster::restore_pixels_with_mask(
        &base,
        &mut cutout,
        &mask,
        gameterm_visual::asset::SceneAssetRestoreFilter::NonBackground,
        4,
        SceneAssetBackgroundSample::Corners,
    )
    .unwrap();
    assert_eq!(restored_pixels, 1);
    assert_eq!(at(&cutout, 0, 0)[3], 0);
    assert_eq!(at(&cutout, 3, 3), [180, 60, 80, 255]);
}

#[test]
fn grid_preview_draws_reference_lines() {
    let mut image = SceneAssetRaster::filled(5, 5, [0, 0, 0, 255]);
    let step = 0.5f32;
    let (line, bold_line) = ([255, 64, 64, 220], [255, 220, 64, 255]);
    let mut value = 0.0f32;
    let mut index = 0usize;
    while value <= 1.0 + f32::EPSILON {
        let (x, y) = point_pixel(value.min(1.0), value.min(1.0), 5, 5);
        let color = if index == 0 || (value - 0.5).abs() < step / 2.0 { bold_line } else { line };
        image.draw_vertical_line(x, color);
        image.draw_horizontal_line(y, color);
        value += step;
        index += 1;
    }
    assert_eq!(at(&image, 0, 0), [255, 220, 64, 255]);
    assert_eq!(at(&image, 2, 2), [255, 220, 64, 255]);
    assert_eq!(at(&image, 4, 2), [255, 64, 64, 220]);
}

#[test]
fn compositing_the_source_back_undoes_an_alpha_paint() {
    let mut source = SceneAssetRaster::filled(4, 4, [0, 0, 0, 255]);
    put(&mut source, 1, 1, [255, 255, 255, 255]);
    let mask = paint_bounds_mask(4, 4, false, &[], &[polygon(4, 4, &left_half())], &[], None).unwrap();
    let mut image = source.clone();
    assert_eq!(image.alpha_paint_masked_pixels(mask.pixels(), 0), 8);
    assert_eq!(at(&image, 1, 1), [255, 255, 255, 0]);
    let (changed, bounds) = image.composite_masked_patch(&source, mask.pixels()).unwrap();
    assert_eq!(changed, 8);
    assert_eq!(bounds, Some(rect(0, 0, 2, 4)));
    assert_eq!((image.width, image.height, &image.data), (source.width, source.height, &source.data));
}
