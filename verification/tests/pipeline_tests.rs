use gameterm_visual::asset::{SceneAssetEditError, SceneAssetPipelineRoots};
use gameterm_visual::pipeline::{
    operation_checks_protected_regions, operation_compares_output, operation_status, operation_step_output,
    plan_pipeline_step,
};

fn roots() -> SceneAssetPipelineRoots {
    SceneAssetPipelineRoots {
        input_root: "/work/Input".to_string(),
        transformation_root: "/work/Transformation".to_string(),
        output_root: "/work/Output".to_string(),
    }
}

#[test]
fn dry_run_plans_report_paths_without_running_the_step() {
    let plan = plan_pipeline_step(2, "fill-region", Some("01-filled.png"), &roots(), "/work/Input/a.png", true, false, false, Ok(()))
        .unwrap();
    assert_eq!(plan.index, 2);
    assert_eq!(plan.command, "fill-region");
    assert_eq!(plan.source, "/work/Input/a.png");
    assert_eq!(plan.output_path.as_deref(), Some("/work/Transformation/01-filled.png"));
    assert_eq!(plan.report_path.as_deref(), Some("/work/Transformation/01-filled.report.json"));
    assert!(plan.advanced_source);
    assert!(plan.dry_run);
}

#[test]
fn dry_run_refuses_in_order_command_arguments_output_and_existing_output() {
    let bad_args = Err(SceneAssetEditError::InvalidOperation("bad".to_string()));
    assert_eq!(
        plan_pipeline_step(0, "explode", None, &roots(), "a.png", true, false, false, bad_args.clone()),
        Err(SceneAssetEditError::InvalidOperation("unsupported pipeline command `explode`".to_string()))
    );
    assert_eq!(plan_pipeline_step(0, "crop", None, &roots(), "a.png", true, false, false, bad_args.clone()), Err(SceneAssetEditError::InvalidOperation("bad".to_string())));
    assert_eq!(
        plan_pipeline_step(0, "crop", None, &roots(), "a.png", true, false, false, Ok(())),
        Err(SceneAssetEditError::InvalidOperation("pipeline step `crop` requires an output".to_string()))
    );
    assert_eq!(
        plan_pipeline_step(0, "crop", Some("c.png"), &roots(), "a.png", true, false, true, Ok(())),
        Err(SceneAssetEditError::OutputExists("/work/Transformation/c.png".to_string()))
    );
    assert!(plan_pipeline_step(0, "crop", Some("c.png"), &roots(), "a.png", true, true, true, Ok(())).is_ok());
}

#[test]
fn real_runs_report_sample_output_as_its_own_report() {
    let plan = plan_pipeline_step(0, "sample", Some("s.json"), &roots(), "a.png", false, false, true, Ok(())).unwrap();
    assert_eq!(plan.report_path.as_deref(), Some("/work/Transformation/s.json"));
    assert!(!plan.advanced_source);
    assert!(!plan.dry_run);
    assert_eq!(
        plan_pipeline_step(0, "sample", None, &roots(), "a.png", false, false, false, Ok(())),
        Err(SceneAssetEditError::InvalidOperation("pipeline step `sample` requires an output".to_string()))
    );
}

#[test]
fn operation_status_is_validated_ok_or_expectation_failed() {
    assert_eq!(operation_status(true, &["x".to_string()]), "validated");
    assert_eq!(operation_status(false, &[]), "ok");
    assert_eq!(operation_status(false, &["x".to_string()]), "expectation_failed");
    assert_eq!(operation_step_output(false, "id", "out.png"), "out.png");
    assert!(operation_step_output(true, "fill one", "out.png").contains("preview"));
    assert!(operation_compares_output(false, true));
    assert!(!operation_compares_output(true, true));
    assert!(!operation_checks_protected_regions(false, true, &[]));
    assert!(operation_checks_protected_regions(false, true, &["face".to_string()]));
}
