use gameterm_visual::asset::{
    continuity_dimension_checks, protected_region_expectation_failure, SceneAssetProtectedRegionReport, scene_asset_operation_error_report, validate_operation_header, validate_pipeline_version, SceneAssetContinuityStatus, SceneAssetDimensions,
    SceneAssetEditError,
};

#[test]
fn operation_error_report_uses_stable_codes_and_hints() {
    let report = scene_asset_operation_error_report(&SceneAssetEditError::UnknownRegion("hair".into()));

    assert_eq!(report.status, "error");
    assert_eq!(report.code, "unknown_region");
    assert!(report.hint.unwrap().contains("map-template"));
}

#[test]
fn continuity_dimension_checks_fail_each_frame_of_another_size() {
    let d = |width: u32, height: u32| SceneAssetDimensions { width, height };
    let (dims, checks) = continuity_dimension_checks(&[("a.png".to_string(), d(4, 4)), ("b.png".to_string(), d(4, 4))]);
    assert_eq!(dims, Some(d(4, 4)));
    assert_eq!(checks.len(), 1);
    assert_eq!(checks[0].status, SceneAssetContinuityStatus::Pass);
    assert_eq!(checks[0].detail, "all frames have matching dimensions");
    let (_, checks) = continuity_dimension_checks(&[
        ("a.png".to_string(), d(4, 4)),
        ("b.png".to_string(), d(5, 4)),
        ("c.png".to_string(), d(4, 2)),
    ]);
    assert_eq!(checks.len(), 2);
    assert_eq!(checks[0].status, SceneAssetContinuityStatus::Fail);
    assert_eq!(checks[0].detail, "b.png is 5x4, expected 4x4");
    assert_eq!(checks[1].detail, "c.png is 4x2, expected 4x4");
    let (dims, checks) = continuity_dimension_checks(&[]);
    assert_eq!(dims, None);
    assert_eq!(checks[0].name, "dimensions");
}

fn invalid(e: SceneAssetEditError) -> String {
    match e {
        SceneAssetEditError::InvalidOperation(m) => m,
        other => panic!("unexpected error {other:?}"),
    }
}

#[test]
fn operation_headers_are_checked_in_order() {
    assert!(validate_operation_header(1, "op", "out.png", "fill-region").is_ok());
    assert_eq!(
        invalid(validate_operation_header(2, "", "", "nope").unwrap_err()),
        "unsupported asset_operation_version 2; expected 1"
    );
    assert_eq!(invalid(validate_operation_header(1, "  ", "", "nope").unwrap_err()), "asset operation id is required");
    assert_eq!(invalid(validate_operation_header(1, "op", " ", "nope").unwrap_err()), "asset operation output is required");
    assert_eq!(
        invalid(validate_operation_header(1, "op", "out.png", "nope").unwrap_err()),
        "unsupported pipeline command `nope`"
    );
    assert!(validate_pipeline_version(1).is_ok());
    assert_eq!(invalid(validate_pipeline_version(7).unwrap_err()), "unsupported asset_pipeline_version 7; expected 1");
}

#[test]
fn protected_region_expectations_compare_changed_pixels_with_the_limit() {
    let regions = vec!["face".to_string()];
    let report = |changed_pixels: usize| SceneAssetProtectedRegionReport {
        checked_regions: regions.clone(),
        changed_pixels,
        changed_regions: Vec::new(),
    };
    assert_eq!(protected_region_expectation_failure(&Vec::new(), None, None), None);
    assert_eq!(
        protected_region_expectation_failure(&regions, Some(3), None).as_deref(),
        Some("must_preserve_regions requires a feature map and comparable output")
    );
    assert_eq!(protected_region_expectation_failure(&regions, Some(3), Some(&report(3))), None);
    assert_eq!(
        protected_region_expectation_failure(&regions, None, Some(&report(2))).as_deref(),
        Some("protected regions changed 2 pixels, exceeding max_changed_pixels_in_protected_regions 0")
    );
}
