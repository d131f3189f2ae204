use gameterm_visual::mask::{mask_index, SceneAssetMask};

#[test]
fn mask_component_cleanup_removes_noise_and_fills_holes() {
    let mut pixels = vec![false; 49];
    for y in 1..6 {
        for x in 1..6 {
            pixels[mask_index(7, x, y)] = true;
        }
    }
    pixels[mask_index(7, 3, 3)] = false;
    pixels[mask_index(7, 0, 0)] = true;
    let mask = SceneAssetMask::from_pixels(7, 7, pixels)
        .without_small_components(2)
        .with_filled_small_holes(1);

    assert!(!mask.pixels()[mask_index(7, 0, 0)]);
    assert!(mask.pixels()[mask_index(7, 3, 3)]);
}

#[test]
fn mask_morphology_grows_shrinks_opens_and_closes_selection() {
    let mut pixels = vec![false; 25];
    pixels[mask_index(5, 2, 2)] = true;
    let mask = SceneAssetMask::from_pixels(5, 5, pixels);

    let dilated = mask.dilated(1);
    assert_eq!(dilated.selected_count(), 9);
    assert!(dilated.pixels()[mask_index(5, 1, 1)]);
    assert!(dilated.pixels()[mask_index(5, 3, 3)]);

    let eroded = dilated.eroded(1);
    assert_eq!(eroded.selected_count(), 1);
    assert!(eroded.pixels()[mask_index(5, 2, 2)]);

    let mut noisy = dilated.clone();
    noisy.pixels[mask_index(5, 0, 0)] = true;
    let opened = noisy.opened(1);
    assert!(!opened.pixels()[mask_index(5, 0, 0)]);
    assert!(opened.pixels()[mask_index(5, 2, 2)]);

    let mut holed = vec![true; 25];
    holed[mask_index(5, 2, 2)] = false;
    let closed = SceneAssetMask::from_pixels(5, 5, holed).closed(1);
    assert!(closed.pixels()[mask_index(5, 2, 2)]);
}

#[test]
fn small_component_removal_keeps_large_regions_and_zero_is_identity() {
    let mut pixels = vec![false; 36];
    for y in 0..3 {
        for x in 0..3 {
            pixels[mask_index(6, x, y)] = true;
        }
    }
    pixels[mask_index(6, 5, 5)] = true;
    let mask = SceneAssetMask::from_pixels(6, 6, pixels.clone());
    let cleaned = mask.without_small_components(2);
    assert_eq!(cleaned.selected_count(), 9);
    assert!(!cleaned.pixels()[mask_index(6, 5, 5)]);
    let same = mask.without_small_components(0);
    assert_eq!(same.pixels(), &pixels[..]);
}

#[test]
fn hole_filling_leaves_border_touching_gaps_open() {
    let mut pixels = vec![true; 25];
    pixels[mask_index(5, 0, 2)] = false;
    pixels[mask_index(5, 2, 2)] = false;
    let filled = SceneAssetMask::from_pixels(5, 5, pixels).with_filled_small_holes(1);
    assert!(!filled.pixels()[mask_index(5, 0, 2)]);
    assert!(filled.pixels()[mask_index(5, 2, 2)]);
}

#[test]
fn opening_stays_within_and_closing_covers_the_selection() {
    let mut pixels = vec![false; 36];
    for (x, y) in [(1, 1), (2, 1), (1, 2), (2, 2), (4, 4), (5, 1), (3, 2)] {
        pixels[mask_index(6, x, y)] = true;
    }
    let mask = SceneAssetMask::from_pixels(6, 6, pixels.clone());
    let opened = mask.opened(1);
    let closed = mask.closed(1);
    for i in 0..36 {
        assert!(!opened.pixels()[i] || pixels[i]);
        assert!(!pixels[i] || closed.pixels()[i]);
    }
}
