use gameterm_visual::regions::pipeline_mask_polish_options;
use gameterm_visual::pipeline::validate_pipeline_step_args;
use gameterm_visual::asset::{
    validate_operation_header,
    SceneAssetBackgroundSample, SceneAssetColorChannel, SceneAssetDefringeMode, SceneAssetDrawShapeKind,
    SceneAssetEditError, SceneAssetMaskPreviewMode, SceneAssetPadAnchor, SceneAssetResampleFilter,
};
use gameterm_visual::pipeline_args::{
    parse_rgba, pipeline_arg, pipeline_background_sample_arg, pipeline_bool_arg, pipeline_channel_arg,
    pipeline_color_arg, pipeline_defringe_arg, pipeline_draw_shape_arg, pipeline_mask_preview_mode_arg,
    pipeline_optional_color_arg, pipeline_pad_anchor_arg, pipeline_resample_arg, pipeline_string_arg,
    pipeline_string_list_arg, pipeline_translate_arg, pipeline_u32_arg, pipeline_u32_required_arg, pipeline_u8_arg,
    pipeline_usize_arg, split_list, validate_pipeline_region_names, SceneAssetArgNumber, SceneAssetArgValue,
};

fn text(s: &str) -> SceneAssetArgValue {
    SceneAssetArgValue::Text(s.to_string())
}

fn num(n: u64) -> SceneAssetArgValue {
    SceneAssetArgValue::Number(SceneAssetArgNumber::PosInt(n))
}

fn arg(key: &str, v: SceneAssetArgValue) -> (String, SceneAssetArgValue) {
    (key.to_string(), v)
}

fn message(e: SceneAssetEditError) -> String {
    match e {
        SceneAssetEditError::InvalidOperation(m) => m,
        other => panic!("unexpected error {other:?}"),
    }
}

#[test]
fn arguments_are_found_by_name_or_in_kebab_case() {
    let args = vec![arg("within-regions", text("mouth")), arg("tolerance", num(3))];
    assert!(pipeline_arg(&args, "within_regions").is_some());
    assert!(pipeline_arg(&args, "tolerance").is_some());
    assert!(pipeline_arg(&args, "feather").is_none());
}

#[test]
fn string_arguments_must_be_strings() {
    let args = vec![arg("name", text("kiki")), arg("count", num(2))];
    assert_eq!(pipeline_string_arg(&args, "name").unwrap(), Some("kiki".to_string()));
    assert_eq!(pipeline_string_arg(&args, "missing").unwrap(), None);
    assert_eq!(message(pipeline_string_arg(&args, "count").unwrap_err()), "pipeline arg `count` must be a string");
}

#[test]
fn string_lists_split_commas_trim_and_drop_empty_pieces() {
    assert_eq!(split_list(" mouth, ,eyes ,"), vec!["mouth".to_string(), "eyes".to_string()]);
    assert_eq!(split_list(""), Vec::<String>::new());
    let args = vec![
        arg("a", text("x,y")),
        arg("b", SceneAssetArgValue::List(vec![text("p"), text("q")])),
        arg("c", SceneAssetArgValue::List(vec![text("p"), num(1)])),
        arg("d", SceneAssetArgValue::Bool(true)),
    ];
    assert_eq!(pipeline_string_list_arg(&args, "a").unwrap(), vec!["x".to_string(), "y".to_string()]);
    assert_eq!(pipeline_string_list_arg(&args, "b").unwrap(), vec!["p".to_string(), "q".to_string()]);
    assert_eq!(pipeline_string_list_arg(&args, "z").unwrap(), Vec::<String>::new());
    assert_eq!(message(pipeline_string_list_arg(&args, "c").unwrap_err()), "pipeline arg `c` entries must be strings");
    assert_eq!(
        message(pipeline_string_list_arg(&args, "d").unwrap_err()),
        "pipeline arg `d` must be a string or string array"
    );
}

#[test]
fn unsigned_arguments_check_type_and_range() {
    let args = vec![
        arg("small", num(200)),
        arg("big", num(300)),
        arg("neg", SceneAssetArgValue::Number(SceneAssetArgNumber::NegInt(-1))),
        arg("frac", SceneAssetArgValue::Number(SceneAssetArgNumber::Float)),
    ];
    assert_eq!(pipeline_u8_arg(&args, "small", 7).unwrap(), 200);
    assert_eq!(pipeline_u8_arg(&args, "none", 7).unwrap(), 7);
    assert_eq!(message(pipeline_u8_arg(&args, "big", 0).unwrap_err()), "pipeline arg `big` must fit in u8");
    assert_eq!(message(pipeline_u8_arg(&args, "neg", 0).unwrap_err()), "pipeline arg `neg` must be a number");
    assert_eq!(message(pipeline_u32_arg(&args, "frac", 0).unwrap_err()), "pipeline arg `frac` must be a number");
    assert_eq!(pipeline_u32_arg(&args, "big", 0).unwrap(), 300);
    assert_eq!(pipeline_usize_arg(&args, "big", 0).unwrap(), 300);
    assert_eq!(message(pipeline_u32_required_arg(&args, "width").unwrap_err()), "pipeline arg `width` is required");
    assert_eq!(pipeline_u32_required_arg(&args, "small").unwrap(), 200);
}

#[test]
fn boolean_arguments_must_be_booleans() {
    let args = vec![arg("fill", SceneAssetArgValue::Bool(true)), arg("closed", text("yes"))];
    assert!(pipeline_bool_arg(&args, "fill", false).unwrap());
    assert!(!pipeline_bool_arg(&args, "other", false).unwrap());
    assert_eq!(message(pipeline_bool_arg(&args, "closed", false).unwrap_err()), "pipeline arg `closed` must be a boolean");
}

#[test]
fn colours_read_six_or_eight_hex_digits() {
    assert_eq!(parse_rgba("#ff8000").unwrap(), [255, 128, 0, 255]);
    assert_eq!(parse_rgba(" 10203040 ").unwrap(), [16, 32, 48, 64]);
    assert!(matches!(parse_rgba("#12345"), Err(SceneAssetEditError::InvalidColor(c)) if c == "#12345"));
    assert!(matches!(parse_rgba("#gg0000"), Err(SceneAssetEditError::InvalidColor(_))));
    let args = vec![arg("color", text("#000000")), arg("bad", text("nope"))];
    assert_eq!(pipeline_color_arg(&args, "color").unwrap(), [0, 0, 0, 255]);
    assert_eq!(message(pipeline_color_arg(&args, "fill").unwrap_err()), "pipeline arg `fill` is required");
    assert_eq!(pipeline_optional_color_arg(&args, "fill", [1, 2, 3, 4]).unwrap(), [1, 2, 3, 4]);
    assert!(matches!(pipeline_optional_color_arg(&args, "bad", [0; 4]), Err(SceneAssetEditError::InvalidColor(_))));
}

#[test]
fn choice_arguments_map_names_and_refuse_others() {
    let args = vec![
        arg("sample", text("edges")),
        arg("anchor", text("bottom_center")),
        arg("resample", text("nearest")),
        arg("channel", text("a")),
        arg("shape", text("circle")),
        arg("selection_mode", text("magic-add")),
        arg("defringe", text("white")),
        arg("odd", text("sideways")),
    ];
    assert_eq!(pipeline_background_sample_arg(&args, "sample").unwrap(), SceneAssetBackgroundSample::Edges);
    assert_eq!(pipeline_background_sample_arg(&args, "missing").unwrap(), SceneAssetBackgroundSample::Corners);
    assert_eq!(
        message(pipeline_background_sample_arg(&args, "odd").unwrap_err()),
        "pipeline arg `odd` value `sideways` is invalid; expected corners or edges"
    );
    assert_eq!(pipeline_pad_anchor_arg(&args).unwrap(), SceneAssetPadAnchor::BottomCenter);
    assert_eq!(pipeline_resample_arg(&args).unwrap(), SceneAssetResampleFilter::Nearest);
    assert_eq!(pipeline_channel_arg(&args).unwrap(), SceneAssetColorChannel::A);
    assert_eq!(pipeline_draw_shape_arg(&args).unwrap(), SceneAssetDrawShapeKind::Ellipse);
    assert_eq!(pipeline_mask_preview_mode_arg(&args).unwrap(), SceneAssetMaskPreviewMode::MagicAdd);
    assert_eq!(pipeline_defringe_arg(&args).unwrap(), SceneAssetDefringeMode::White);
    let empty: Vec<(String, SceneAssetArgValue)> = Vec::new();
    assert_eq!(pipeline_pad_anchor_arg(&empty).unwrap(), SceneAssetPadAnchor::Center);
    assert_eq!(pipeline_draw_shape_arg(&empty).unwrap(), SceneAssetDrawShapeKind::Line);
    let bad = vec![arg("shape", text("star"))];
    assert_eq!(message(pipeline_draw_shape_arg(&bad).unwrap_err()), "pipeline arg `shape` value `star` is invalid");
}

#[test]
fn translation_reads_text_pairs_and_number_arrays() {
    let empty: Vec<(String, SceneAssetArgValue)> = Vec::new();
    assert_eq!(pipeline_translate_arg(&empty).unwrap(), (0, 0));
    assert_eq!(pipeline_translate_arg(&[arg("translate", text("3,-4"))]).unwrap(), (3, -4));
    let list = SceneAssetArgValue::List(vec![num(5), SceneAssetArgValue::Number(SceneAssetArgNumber::NegInt(-2))]);
    assert_eq!(pipeline_translate_arg(&[arg("translate", list)]).unwrap(), (5, -2));
    let bad = SceneAssetArgValue::List(vec![text("x"), num(1)]);
    assert_eq!(
        message(pipeline_translate_arg(&[arg("translate", bad)]).unwrap_err()),
        "pipeline translate x must be a number"
    );
    assert_eq!(
        message(pipeline_translate_arg(&[arg("translate", SceneAssetArgValue::Null)]).unwrap_err()),
        "pipeline translate must be `X,Y` or [X,Y]"
    );
}

#[test]
fn region_names_need_a_feature_map_that_knows_them() {
    let names = vec!["mouth".to_string(), "torso".to_string()];
    assert!(validate_pipeline_region_names(None, &[]).is_ok());
    assert!(validate_pipeline_region_names(Some(&names), &["torso".to_string()]).is_ok());
    assert_eq!(
        message(validate_pipeline_region_names(None, &["mouth".to_string()]).unwrap_err()),
        "feature map is required when using named regions"
    );
    assert!(matches!(
        validate_pipeline_region_names(Some(&names), &["mouth".to_string(), "hair".to_string(), "tail".to_string()]),
        Err(SceneAssetEditError::UnknownRegion(r)) if r == "hair"
    ));
}

#[test]
fn mask_polish_options_read_each_argument_with_its_default() {
    let options = pipeline_mask_polish_options(&[]).unwrap();
    assert_eq!(options.tolerance, 24);
    assert_eq!(options.feather, 0);
    assert_eq!(options.sample, SceneAssetBackgroundSample::Corners);
    assert_eq!(options.defringe, SceneAssetDefringeMode::Off);
    assert!(options.protect_regions.is_empty() && options.within_regions.is_empty());
    let args = vec![
        arg("tolerance", num(9)),
        arg("sample", text("edges")),
        arg("remove-small", num(12)),
        arg("defringe", text("white")),
        arg("within_regions", text("face, hair")),
    ];
    let options = pipeline_mask_polish_options(&args).unwrap();
    assert_eq!(options.tolerance, 9);
    assert_eq!(options.sample, SceneAssetBackgroundSample::Edges);
    assert_eq!(options.remove_small, 12);
    assert_eq!(options.defringe, SceneAssetDefringeMode::White);
    assert_eq!(options.within_regions, vec!["face".to_string(), "hair".to_string()]);
}

#[test]
fn mask_polish_options_report_the_first_refused_argument() {
    let args = vec![arg("defringe", text("grey")), arg("tolerance", num(300))];
    let err = pipeline_mask_polish_options(&args).unwrap_err();
    assert!(message(err).contains("tolerance"));
    let args = vec![arg("defringe", text("grey"))];
    let err = pipeline_mask_polish_options(&args).unwrap_err();
    assert_eq!(message(err), "pipeline arg `defringe` value `grey` is invalid");
}

#[test]
fn fill_region_operation_header_and_arguments_pass_validation() {
    let args = vec![arg("color", text("#ff0000ff")), arg("whole_image", SceneAssetArgValue::Bool(true))];
    assert_eq!(validate_operation_header(1, "validate-fill", "01-filled.png", "fill-region"), Ok(()));
    assert_eq!(validate_pipeline_step_args("fill-region", &args, None, &[]), Ok(()));
}

#[test]
fn fill_region_arguments_naming_a_region_the_map_lacks_are_refused() {
    let args = vec![
        arg("protect", text("map.json")),
        arg("protect_regions", SceneAssetArgValue::List(vec![text("eyes")])),
        arg("color", text("#ff0000ff")),
        arg("whole_image", SceneAssetArgValue::Bool(true)),
    ];
    let map_regions = vec!["face".to_string()];
    let err = validate_pipeline_step_args("fill-region", &args, Some(&map_regions), &[]).unwrap_err();
    assert!(matches!(err, SceneAssetEditError::UnknownRegion(region) if region == "eyes"));
}

#[test]
fn step_arguments_are_checked_in_the_order_each_command_reads_them() {
    let bad_seed = SceneAssetEditError::InvalidOperation("pipeline point `seeds` value `x` is invalid; expected X,Y".to_string());
    assert_eq!(
        validate_pipeline_step_args("magic-erase-add", &[], None, &[]),
        Err(SceneAssetEditError::InvalidOperation("magic-erase-add requires at least one seed".to_string()))
    );
    assert_eq!(
        validate_pipeline_step_args("magic-erase-add", &[arg("tolerance", text("x"))], None, &[("seeds".to_string(), Err(bad_seed.clone()))]),
        Err(bad_seed)
    );
    assert_eq!(
        validate_pipeline_step_args("mask-preview", &[arg("selection_mode", text("magic-add"))], None, &[]),
        Err(SceneAssetEditError::InvalidOperation("magic-add mask preview requires at least one seed".to_string()))
    );
    assert_eq!(validate_pipeline_step_args("mask-preview", &[], None, &[]), Ok(()));
    assert_eq!(
        message(validate_pipeline_step_args("hsl", &[arg("hue", text("10"))], None, &[]).unwrap_err()),
        "pipeline arg `hue` must be a number"
    );
    assert_eq!(validate_pipeline_step_args("blur", &[arg("radius", num(2))], None, &[]), Ok(()));
    assert_eq!(
        message(validate_pipeline_step_args("mask-composite", &[arg("mask", text("m.png"))], None, &[]).unwrap_err()),
        "pipeline arg `patch` is required"
    );
    assert_eq!(
        message(validate_pipeline_step_args("pad", &[arg("width", num(4))], None, &[]).unwrap_err()),
        "pipeline arg `height` is required"
    );
    assert_eq!(
        validate_pipeline_step_args("fill-region", &[arg("color", text("nope"))], None, &[]),
        Err(SceneAssetEditError::InvalidColor("nope".to_string()))
    );
    assert_eq!(
        message(validate_pipeline_step_args("hair-cleanup", &[arg("hair_region", text("hair"))], None, &[]).unwrap_err()),
        "feature map is required when using named regions"
    );
    assert_eq!(
        message(validate_pipeline_step_args("explode", &[], None, &[]).unwrap_err()),
        "unsupported pipeline command `explode`"
    );
}
