use gameterm_visual::scene_model::{VisualSpriteDefinition, VisualSpriteManifest};
use gameterm_visual::asset::SceneAssetPipelineRoots;
use gameterm_visual::asset_paths::{
    operation_diff_preview_output, operation_preview_output, operation_review_output, pipeline_report_path,
    resolve_asset_accept_output_path, resolve_asset_accept_source_path, resolve_asset_operation_source_path,
    resolve_asset_prefixed_path, resolve_pipeline_input_path, resolve_pipeline_output_path, resolve_recipe_path,
};

fn roots() -> SceneAssetPipelineRoots {
    SceneAssetPipelineRoots {
        input_root: "/work/Input".to_string(),
        transformation_root: "/work/Transformation".to_string(),
        output_root: "/work/Output".to_string(),
    }
}

#[test]
fn paths_resolve_against_their_roots() {
    let r = roots();
    assert_eq!(resolve_pipeline_input_path(&r, "a.png"), "/work/Input/a.png");
    assert_eq!(resolve_pipeline_input_path(&r, "/abs/a.png"), "/abs/a.png");
    assert_eq!(resolve_asset_operation_source_path(&r, "Transformation/t.png"), "/work/Transformation/t.png");
    assert_eq!(resolve_asset_operation_source_path(&r, "Output/o.png"), "/work/Output/o.png");
    assert_eq!(resolve_asset_operation_source_path(&r, "i.png"), "/work/Input/i.png");
    assert_eq!(resolve_asset_prefixed_path(&r, "Input/m.png", "/x"), "/work/Input/m.png");
    assert_eq!(resolve_asset_prefixed_path(&r, "m.png", "/x"), "/x/m.png");
    assert_eq!(resolve_asset_accept_source_path(&r, "m.png"), "/work/Transformation/m.png");
    assert_eq!(resolve_asset_accept_output_path(&r, "Output/final.png"), "/work/Output/final.png");
    assert_eq!(resolve_asset_accept_output_path(&r, "final.png"), "/work/Output/final.png");
    assert_eq!(resolve_pipeline_output_path(&r, "step.png"), "/work/Transformation/step.png");
    assert_eq!(resolve_pipeline_output_path(&r, "Output/step.png"), "/work/Output/step.png");
    assert_eq!(resolve_recipe_path("frame.png", Some("/recipes")), "/recipes/frame.png");
    assert_eq!(resolve_recipe_path("frame.png", None), "frame.png");
}

#[test]
fn reports_sit_beside_outputs_and_review_files_use_sanitized_ids() {
    assert_eq!(pipeline_report_path("/work/Transformation/step.png"), "/work/Transformation/step.report.json");
    assert_eq!(operation_preview_output("fix mouth!"), "fix-mouth.preview.png");
    assert_eq!(operation_diff_preview_output("a_b"), "a_b.diff.png");
    assert_eq!(operation_review_output("", "alpha"), "operation.alpha.png");
}

#[test]
fn sprite_paths_resolve_against_the_manifest_parent_directory() {
    let manifest = VisualSpriteManifest {
        sprites: vec![
            VisualSpriteDefinition { id: "a".to_string(), path: "x.png".to_string() },
            VisualSpriteDefinition { id: "b".to_string(), path: "/abs/y.png".to_string() },
        ],
    };
    let status = manifest.resolve_against("assets/sprites.json");
    assert_eq!(status.manifest_path.as_deref(), Some("assets/sprites.json"));
    assert!(status.warnings.is_empty());
    assert_eq!(status.sprites[0].path, "assets/x.png");
    assert_eq!(status.sprites[1].path, "/abs/y.png");
    assert_eq!(manifest.resolve_against("dir/").sprites[0].path, "x.png");
    assert_eq!(manifest.resolve_against("/").sprites[0].path, "x.png");
    assert_eq!(manifest.resolve_against("sprites.json").sprites[0].path, "x.png");
}
