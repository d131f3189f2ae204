use gameterm_visual::asset::{SceneAssetBackgroundSample, SceneAssetEditError, SceneAssetRestoreFilter};
use gameterm_visual::asset_io::{decode_rgba_raster, image_facts_of, DecodedImage, hex_lower, scene_asset_image_facts, sha256_hex};
use gameterm_visual::mask::{mask_index, SceneAssetMask, SceneAssetPixelRect};
use gameterm_visual::raster::{
    compare_protected_rects, alpha_diff_preview_image, changed_pixel_count, compare_pixels, contact_sheet_preview_image, copy_image_at,
    edge_points, mask_export_image, pixel_matches, raw_diff_preview_image, restore_pixels_with_mask,
    scene_asset_mask_from_image, SceneAssetRaster,
};

fn put(image: &mut SceneAssetRaster, x: u32, y: u32, color: [u8; 4]) {
    let i = (y * image.width + x) as usize;
    image.set_pixel(i, color);
}

fn at(image: &SceneAssetRaster, x: u32, y: u32) -> [u8; 4] {
    image.get_pixel(x, y)
}

fn two_matching_islands() -> SceneAssetRaster {
    let mut image = SceneAssetRaster::filled(16, 8, [240, 240, 240, 255]);
    for y in 2..6 {
        for x in 2..5 {
            put(&mut image, x, y, [30, 80, 220, 255]);
        }
        for x in 11..14 {
            put(&mut image, x, y, [30, 80, 220, 255]);
        }
    }
    image
}

fn subject_on_background() -> SceneAssetRaster {
    let mut image = SceneAssetRaster::filled(16, 16, [245, 245, 240, 255]);
    for y in 5..11 {
        for x in 6..10 {
            put(&mut image, x, y, [180, 40, 70, 255]);
        }
    }
    image
}

fn count(flags: &[bool]) -> usize {
    flags.iter().filter(|f| **f).count()
}

#[test]
fn contiguous_magic_mask_selects_only_the_seeded_island() {
    let image = two_matching_islands();
    let mask = image.contiguous_magic_mask(&[(3, 4)], 4);
    assert_eq!(count(&mask), 12);
    assert!(mask[mask_index(16, 3, 3)]);
    assert!(!mask[mask_index(16, 12, 3)]);
}

#[test]
fn global_magic_mask_selects_every_matching_pixel() {
    let image = two_matching_islands();
    let mask = image.global_magic_mask(at(&image, 3, 4), 4);
    assert_eq!(count(&mask), 24);
    assert!(mask[mask_index(16, 3, 3)]);
    assert!(mask[mask_index(16, 12, 3)]);
}

#[test]
fn contiguous_magic_mask_ignores_seeds_outside_the_image() {
    let image = two_matching_islands();
    let mask = image.contiguous_magic_mask(&[(99, 99)], 4);
    assert_eq!(count(&mask), 0);
}

#[test]
fn background_magic_mask_selects_edge_colour_and_keeps_subject() {
    let image = subject_on_background();
    let mask = image.background_magic_mask(8, SceneAssetBackgroundSample::Corners);
    assert_eq!(count(&mask), 256 - 24);
    assert!(mask[mask_index(16, 0, 0)]);
    assert!(!mask[mask_index(16, 8, 8)]);
}

#[test]
fn color_range_mask_selects_disconnected_white_pockets() {
    let mut image = SceneAssetRaster::filled(8, 8, [255, 255, 255, 255]);
    for y in 2..6 {
        for x in 2..6 {
            put(&mut image, x, y, [230, 120, 150, 255]);
        }
    }
    put(&mut image, 4, 4, [255, 255, 255, 255]);
    let mask = image.color_range_mask(0, SceneAssetBackgroundSample::Corners);
    assert!(mask[mask_index(8, 0, 0)]);
    assert!(mask[mask_index(8, 4, 4)]);
    assert!(!mask[mask_index(8, 3, 3)]);
    let flood = image.background_magic_mask(0, SceneAssetBackgroundSample::Corners);
    assert!(!flood[mask_index(8, 4, 4)]);
}

#[test]
fn channel_matte_selects_bright_neutral_pixels_only() {
    let mut image = SceneAssetRaster::filled(6, 4, [240, 150, 170, 255]);
    put(&mut image, 1, 1, [250, 250, 250, 255]);
    put(&mut image, 4, 2, [245, 245, 245, 255]);
    let mask = image.channel_matte_mask(238, 16);
    assert!(mask[mask_index(6, 1, 1)]);
    assert!(mask[mask_index(6, 4, 2)]);
    assert!(!mask[mask_index(6, 2, 2)]);
    assert_eq!(count(&mask), 2);
}

#[test]
fn pixel_matching_compares_colour_within_tolerance_and_ignores_alpha() {
    assert!(pixel_matches([10, 20, 30, 0], [14, 16, 30, 255], 4));
    assert!(!pixel_matches([10, 20, 30, 255], [15, 20, 30, 255], 4));
}

#[test]
fn edge_points_walk_rows_then_columns() {
    assert_eq!(edge_points(3, 3), vec![(0, 0), (0, 2), (1, 0), (1, 2), (2, 0), (2, 2), (0, 1), (2, 1)]);
    assert_eq!(edge_points(2, 1), vec![(0, 0), (1, 0)]);
    assert_eq!(edge_points(0, 5), Vec::<(u32, u32)>::new());
}

#[test]
fn background_samples_come_from_corners_or_edges() {
    let mut image = SceneAssetRaster::filled(2, 2, [1, 1, 1, 255]);
    put(&mut image, 1, 1, [9, 9, 9, 255]);
    assert_eq!(
        image.background_sample_colors(SceneAssetBackgroundSample::Corners),
        vec![[1, 1, 1, 255], [1, 1, 1, 255], [1, 1, 1, 255], [9, 9, 9, 255]]
    );
    assert_eq!(image.background_sample_colors(SceneAssetBackgroundSample::Edges).len(), 4);
}

#[test]
fn compare_report_counts_changed_pixels_and_bounds() {
    let before = SceneAssetRaster::filled(4, 4, [0, 0, 0, 255]);
    let mut after = before.clone();
    put(&mut after, 1, 1, [255, 0, 0, 255]);
    put(&mut after, 2, 3, [0, 0, 0, 0]);
    let diff = compare_pixels(&before, &after);
    assert!(diff.same_dimensions);
    assert_eq!(diff.changed_pixels, 2);
    assert_eq!(diff.alpha_changed_pixels, 1);
    assert_eq!(diff.changed_pixels as f32 / 16.0, 0.125);
    assert_eq!(diff.changed_bounds, Some(SceneAssetPixelRect { x: 1, y: 1, w: 2, h: 3 }));
    assert_eq!(changed_pixel_count(&before, &after), 2);
}

#[test]
fn compare_pixels_of_different_sizes_counts_every_pixel() {
    let before = SceneAssetRaster::filled(2, 2, [0, 0, 0, 255]);
    let after = SceneAssetRaster::filled(3, 2, [0, 0, 0, 255]);
    let diff = compare_pixels(&before, &after);
    assert!(!diff.same_dimensions);
    assert_eq!(diff.changed_pixels, 6);
    assert_eq!(diff.changed_bounds, None);
    assert_eq!(changed_pixel_count(&before, &after), 4);
}

#[test]
fn diff_preview_highlights_color_and_alpha_changes() {
    let before = SceneAssetRaster::filled(2, 2, [0, 0, 0, 255]);
    let mut after = before.clone();
    put(&mut after, 1, 0, [255, 0, 0, 255]);
    put(&mut after, 0, 1, [0, 0, 0, 0]);
    let raw = raw_diff_preview_image(&before, &after);
    assert_eq!(at(&raw, 0, 0)[3], 0);
    assert_eq!(at(&raw, 1, 0), [255, 48, 96, 255]);
    let alpha = alpha_diff_preview_image(&before, &after);
    assert_eq!(at(&alpha, 0, 1), [64, 220, 255, 255]);
    assert_eq!(at(&alpha, 1, 0), [255, 48, 96, 180]);
    assert_eq!(at(&alpha, 1, 1), [0, 0, 0, 0]);
}

#[test]
fn review_contact_sheet_preserves_dimensions() {
    let before = SceneAssetRaster::filled(2, 3, [0, 0, 0, 255]);
    let after = SceneAssetRaster::filled(2, 3, [255, 0, 0, 255]);
    let sheet = contact_sheet_preview_image(&before, &after);
    assert_eq!(sheet.width, 6);
    assert_eq!(sheet.height, 3);
    assert_eq!(at(&sheet, 0, 0), [0, 0, 0, 255]);
    assert_eq!(at(&sheet, 2, 1), [255, 0, 0, 255]);
    assert_eq!(at(&sheet, 5, 2), [255, 48, 96, 255]);
}

#[test]
fn copy_image_at_drops_what_falls_outside() {
    let source = SceneAssetRaster::filled(2, 2, [7, 7, 7, 255]);
    let mut target = SceneAssetRaster::filled(3, 3, [0, 0, 0, 0]);
    copy_image_at(&source, &mut target, 2, 2);
    assert_eq!(at(&target, 2, 2), [7, 7, 7, 255]);
    assert_eq!(at(&target, 1, 1), [0, 0, 0, 0]);
}

#[test]
fn crop_region_copies_inside_and_clears_outside() {
    let mut image = SceneAssetRaster::filled(3, 3, [1, 2, 3, 255]);
    put(&mut image, 2, 2, [9, 9, 9, 9]);
    let crop = image.crop_region(SceneAssetPixelRect { x: 2, y: 2, w: 2, h: 2 });
    assert_eq!((crop.width, crop.height), (2, 2));
    assert_eq!(at(&crop, 0, 0), [9, 9, 9, 9]);
    assert_eq!(at(&crop, 1, 1), [0, 0, 0, 0]);
}

#[test]
fn content_bounds_cover_visible_pixels() {
    let mut image = SceneAssetRaster::filled(32, 32, [0, 0, 0, 0]);
    for y in 4..28 {
        for x in 8..24 {
            put(&mut image, x, y, [220, 180, 170, 255]);
        }
    }
    assert_eq!(image.content_bounds(), Some(SceneAssetPixelRect { x: 8, y: 4, w: 16, h: 24 }));
    assert_eq!(SceneAssetRaster::filled(2, 2, [0, 0, 0, 0]).content_bounds(), None);
}

#[test]
fn mask_export_and_reimport_roundtrip() {
    let mut pixels = vec![false; 6];
    pixels[4] = true;
    let mask = SceneAssetMask::from_pixels(3, 2, pixels.clone());
    let image = mask_export_image(&mask);
    assert_eq!(image.pixel(4), [255, 255, 255, 255]);
    assert_eq!(image.pixel(0), [0, 0, 0, 255]);
    let back = scene_asset_mask_from_image(&image, 3, 2).unwrap();
    assert_eq!(back.pixels(), &pixels[..]);
}

#[test]
fn mask_image_of_another_size_is_refused() {
    let image = SceneAssetRaster::filled(2, 2, [255, 255, 255, 255]);
    match scene_asset_mask_from_image(&image, 3, 2) {
        Err(SceneAssetEditError::InvalidOperation(m)) => {
            assert_eq!(m, "mask dimensions differ from source: 2x2 vs 3x2");
        }
        _ => panic!("expected a size error"),
    }
}

#[test]
fn restore_with_non_background_filter_skips_white_pixels() {
    let mut base = SceneAssetRaster::filled(8, 8, [255, 255, 255, 255]);
    put(&mut base, 3, 3, [180, 60, 80, 255]);
    let mut cutout = SceneAssetRaster::filled(8, 8, [0, 0, 0, 0]);
    let mask = SceneAssetMask::from_pixels(8, 8, vec![true; 64]);
    let restored = restore_pixels_with_mask(
        &base,
        &mut cutout,
        &mask,
        SceneAssetRestoreFilter::NonBackground,
        4,
        SceneAssetBackgroundSample::Corners,
    )
    .unwrap();
    assert_eq!(restored, 1);
    assert_eq!(at(&cutout, 0, 0)[3], 0);
    assert_eq!(at(&cutout, 3, 3), [180, 60, 80, 255]);
}

#[test]
fn restore_refuses_rasters_of_different_sizes() {
    let base = SceneAssetRaster::filled(2, 2, [255, 255, 255, 255]);
    let mut cutout = SceneAssetRaster::filled(3, 2, [0, 0, 0, 0]);
    let mask = SceneAssetMask::from_pixels(2, 2, vec![true; 4]);
    let r = restore_pixels_with_mask(&base, &mut cutout, &mask, SceneAssetRestoreFilter::All, 0, SceneAssetBackgroundSample::Corners);
    match r {
        Err(SceneAssetEditError::InvalidOperation(m)) => {
            assert_eq!(m, "restore source dimensions 2x2 must match cutout dimensions 3x2")
        }
        _ => panic!("expected a size error"),
    }
}

#[test]
fn cutout_quality_counts_transparency_and_light_edges() {
    let mut image = SceneAssetRaster::filled(3, 1, [0, 0, 0, 0]);
    put(&mut image, 1, 0, [250, 250, 250, 255]);
    put(&mut image, 2, 0, [10, 10, 10, 128]);
    let report = image.cutout_quality_report(2);
    assert_eq!(report.protected_regions, 2);
    assert_eq!(report.transparent_pixels, 1);
    assert_eq!(report.partial_alpha_pixels, 1);
    assert_eq!(report.light_edge_pixels, 1);
    assert!(image.has_low_alpha_neighbor(1, 0, 1));
    assert!(!image.has_low_alpha_neighbor(0, 0, 0));
}

#[test]
fn lines_and_restored_rectangles_touch_only_their_pixels() {
    let original = SceneAssetRaster::filled(4, 4, [5, 5, 5, 255]);
    let mut image = original.clone();
    image.draw_vertical_line(1, [1, 2, 3, 4]);
    image.draw_horizontal_line(2, [9, 9, 9, 9]);
    image.draw_vertical_line(7, [1, 1, 1, 1]);
    assert_eq!(at(&image, 1, 0), [1, 2, 3, 4]);
    assert_eq!(at(&image, 3, 2), [9, 9, 9, 9]);
    assert_eq!(at(&image, 0, 0), [5, 5, 5, 255]);
    image.restore_rect_from(&original, SceneAssetPixelRect { x: 0, y: 2, w: 2, h: 9 });
    assert_eq!(at(&image, 1, 3), [5, 5, 5, 255]);
    assert_eq!(at(&image, 3, 2), [9, 9, 9, 9]);
}

#[test]
fn hex_and_digest_are_lower_case_text() {
    assert_eq!(hex_lower(&[0x00, 0xab, 0x0f]), "00ab0f");
    assert_eq!(
        sha256_hex(b"abc"),
        "ba7816bf8f01cfea414140de5dae2223b00361a396177a9cb410ff61f20015ad"
    );
    assert_eq!(sha256_hex(b"").len(), 64);
}

#[test]
fn image_facts_of_bytes_that_do_not_decode_are_an_image_file_error() {
    match scene_asset_image_facts("broken.png", b"not an image") {
        Err(SceneAssetEditError::ImageFile { path, .. }) => assert_eq!(path, "broken.png"),
        _ => panic!("expected an image-file error"),
    }
}

#[test]
fn asset_image_inspect_reports_bounds_and_checksum() {
    let mut image = image::RgbaImage::from_pixel(32, 32, image::Rgba([0u8, 0, 0, 0]));
    for y in 4..28 {
        for x in 8..24 {
            image.put_pixel(x, y, image::Rgba([220u8, 180, 170, 255]));
        }
    }
    let mut bytes: Vec<u8> = Vec::new();
    image.write_to(&mut std::io::Cursor::new(&mut bytes), image::ImageFormat::Png).unwrap();

    let facts = scene_asset_image_facts("kiki.png", &bytes).unwrap();
    assert_eq!(facts.width, 32);
    assert_eq!(facts.height, 32);
    assert_eq!(facts.content_bounds, Some(SceneAssetPixelRect { x: 8, y: 4, w: 16, h: 24 }));
    assert_eq!(facts.sha256.len(), 64);
    assert_eq!(facts.sha256, sha256_hex(&bytes));
    assert_eq!(facts.color_type, "Png:Rgba8");
    assert!(facts.has_alpha);
    assert_eq!(facts.pixel_count, 1024);
    assert_eq!(facts.transparent_pixels, 1024 - 16 * 24);
}

#[test]
fn protected_rectangles_report_only_changed_regions() {
    let before = SceneAssetRaster::filled(4, 4, [0, 0, 0, 255]);
    let mut after = before.clone();
    put(&mut after, 1, 1, [9, 9, 9, 255]);
    put(&mut after, 3, 3, [9, 9, 9, 255]);
    let regions = vec![
        ("mouth".to_string(), SceneAssetPixelRect { x: 0, y: 0, w: 2, h: 2 }),
        ("eyes".to_string(), SceneAssetPixelRect { x: 2, y: 0, w: 2, h: 2 }),
        ("all".to_string(), SceneAssetPixelRect { x: 0, y: 0, w: 99, h: 99 }),
    ];
    let report = compare_protected_rects(&before, &after, &regions).unwrap();
    assert_eq!(report.checked_regions, vec!["mouth".to_string(), "eyes".to_string(), "all".to_string()]);
    assert_eq!(report.changed_pixels, 3);
    assert_eq!(report.changed_regions.len(), 2);
    assert_eq!(report.changed_regions[0].region, "mouth");
    assert_eq!(report.changed_regions[1].changed_pixels, 2);
    let other = SceneAssetRaster::filled(2, 4, [0, 0, 0, 255]);
    match compare_protected_rects(&before, &other, &regions) {
        Err(SceneAssetEditError::InvalidOperation(m)) => {
            assert_eq!(m, "protected-region compare dimensions differ: 4x4 vs 2x4")
        }
        _ => panic!("expected a size error"),
    }
}

#[test]
fn rasters_decode_in_the_format_their_extension_names() {
    let image = image::RgbaImage::from_pixel(3, 2, image::Rgba([10u8, 20, 30, 40]));
    let mut bytes: Vec<u8> = Vec::new();
    image.write_to(&mut std::io::Cursor::new(&mut bytes), image::ImageFormat::Png).unwrap();
    let raster = decode_rgba_raster("a.png", &bytes, "png").unwrap();
    assert_eq!((raster.width, raster.height), (3, 2));
    assert_eq!(at(&raster, 2, 1), [10, 20, 30, 40]);
    assert!(decode_rgba_raster("A.PNG", &bytes, "PNG").is_ok());
    assert!(matches!(decode_rgba_raster("a.txt", &bytes, "txt"), Err(SceneAssetEditError::ImageFile { path, .. }) if path == "a.txt"));
    assert!(matches!(decode_rgba_raster("a.jpg", &bytes, "jpg"), Err(SceneAssetEditError::ImageFile { .. })));
}

#[test]
fn image_facts_come_from_the_decoded_image() {
    let mut raster = SceneAssetRaster::filled(3, 2, [0, 0, 0, 0]);
    put(&mut raster, 1, 1, [9, 9, 9, 255]);
    let decoded = DecodedImage { raster, color_type: "Rgba8".to_string(), has_alpha: true };
    let facts = image_facts_of(Some("Png".to_string()), &decoded, "ab".to_string());
    assert_eq!((facts.width, facts.height), (3, 2));
    assert_eq!(facts.color_type, "Png:Rgba8");
    assert!(facts.has_alpha);
    assert_eq!(facts.transparent_pixels, 5);
    assert_eq!(facts.pixel_count, 6);
    assert_eq!(facts.content_bounds, Some(SceneAssetPixelRect { x: 1, y: 1, w: 1, h: 1 }));
    assert_eq!(facts.sha256, "ab");
    let empty = DecodedImage { raster: SceneAssetRaster::filled(0, 0, [0, 0, 0, 0]), color_type: "L8".to_string(), has_alpha: false };
    let facts = image_facts_of(None, &empty, String::new());
    assert_eq!(facts.color_type, "unknown:L8");
    assert_eq!(facts.pixel_count, 1);
    assert_eq!(facts.content_bounds, None);
}
