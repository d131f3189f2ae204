//! The decisions of an asset pipeline run: what a step will write and
//! report before any image work, which arguments each command accepts, and
//! the status an asset operation ends with.

use vstd::prelude::*;

use crate::asset::{
    pipeline_command_advances_source, supported_command, validate_pipeline_command_name,
    SceneAssetEditError, SceneAssetPipelineRoots,
};
use crate::asset_paths::{pipeline_output_path, pipeline_report_path, report_path, resolve_pipeline_output_path};
use crate::conditions::{first_index, lemma_first_index};
use crate::pipeline_args::{
    arg_error, arg_error_text, arg_value, bad_choice, lemma_first_from_is, lemma_first_from_none, bool_arg, bounded_arg, choice_text, pipeline_arg, pipeline_background_sample_arg,
    pipeline_bool_arg, pipeline_channel_arg, pipeline_color_arg, pipeline_draw_shape_arg, pipeline_mask_preview_mode_arg,
    pipeline_optional_color_arg, pipeline_pad_anchor_arg, pipeline_resample_arg, pipeline_string_arg,
    pipeline_string_list_arg, pipeline_translate_arg, pipeline_u32_arg, pipeline_u32_required_arg, pipeline_u8_arg,
    preview_mode_named, resample_named, rgba_of, shape_named, channel_named, pad_anchor_named, string_arg,
    string_list_arg, text_is, translate_arg, unknown_in, validate_pipeline_region_names, SceneAssetArgValue,
};
use crate::asset::SceneAssetMaskPreviewMode;
use crate::regions::{copy_error, pipeline_mask_polish_options, polish_args_error, sample_choice};
use crate::text::str_equal;

verus! {

/// What a pipeline step reports of itself: its place in the pipeline, its
/// command, the source it read, the files it writes, whether the next step
/// reads its output, and whether it was a dry run. The command's own report
/// is attached by the runner that performs the step.
#[derive(Debug, Clone, PartialEq, Eq)]
pub struct SceneAssetPipelineStepReport {
    pub index: usize,
    pub command: String,
    pub source: String,
    pub output_path: Option<String>,
    pub report_path: Option<String>,
    pub advanced_source: bool,
    pub dry_run: bool,
}

pub open spec fn missing_output_message(command: Seq<char>) -> Seq<char> {
    "pipeline step `"@ + command + "` requires an output"@
}

pub open spec fn advances(command: Seq<char>) -> bool {
    !(command == "sample"@ || command == "mask-preview"@ || command == "mask-export"@)
}

/// The report of a planned step whose output resolves to `out`.
pub open spec fn planned_report(
    r: SceneAssetPipelineStepReport,
    index: usize,
    command: Seq<char>,
    source: Seq<char>,
    out: Seq<char>,
    report: Seq<char>,
    dry_run: bool,
) -> bool {
    &&& r.index == index
    &&& r.command@ == command
    &&& r.source@ == source
    &&& r.output_path matches Some(o) && o@ == out
    &&& r.report_path matches Some(p) && p@ == report
    &&& r.advanced_source == advances(command)
    &&& r.dry_run == dry_run
}

/// Plans step `index` of a pipeline before any image work.
///
/// A dry run checks, in this order, that the command is supported, that its
/// arguments are valid (`args_ok`, the outcome of validating them), that the
/// step names an output, and that the output does not exist unless `force`
/// is set (`output_exists` tells whether the resolved output path exists);
/// it then reports the step without running it, with the report file beside
/// the output. A real run only needs an output; its report file is the
/// output itself for `sample`, which writes its report there, and the file
/// beside the output for every other command.
pub fn plan_pipeline_step(
    index: usize,
    command: &str,
    output: Option<&str>,
    roots: &SceneAssetPipelineRoots,
    current_source: &str,
    dry_run: bool,
    force: bool,
    output_exists: bool,
    args_ok: Result<(), SceneAssetEditError>,
) -> (r: Result<SceneAssetPipelineStepReport, SceneAssetEditError>)
    ensures
        dry_run && !supported_command(command@) ==> (r matches Err(SceneAssetEditError::InvalidOperation(m))
            && m@ == "unsupported pipeline command `"@ + command@ + "`"@),
        dry_run && supported_command(command@) && args_ok is Err ==> (r matches Err(e) && args_ok == Err::<(), SceneAssetEditError>(e)),
        dry_run && supported_command(command@) && args_ok is Ok && output is None ==> (r matches Err(
            SceneAssetEditError::InvalidOperation(m),
        ) && m@ == missing_output_message(command@)),
        dry_run && supported_command(command@) && args_ok is Ok && output is Some && output_exists && !force
            ==> (r matches Err(SceneAssetEditError::OutputExists(p)) && p@ == pipeline_output_path(
            *roots,
            output.unwrap()@,
        )),
        dry_run && supported_command(command@) && args_ok is Ok && output is Some && (!output_exists || force)
            ==> (r matches Ok(rep) && planned_report(
            rep,
            index,
            command@,
            current_source@,
            pipeline_output_path(*roots, output.unwrap()@),
            report_path(pipeline_output_path(*roots, output.unwrap()@)),
            true,
        )),
        !dry_run && output is None ==> (r matches Err(SceneAssetEditError::InvalidOperation(m)) && m@
            == missing_output_message(command@)),
        !dry_run && output is Some ==> (r matches Ok(rep) && planned_report(
            rep,
            index,
            command@,
            current_source@,
            pipeline_output_path(*roots, output.unwrap()@),
            if command@ == "sample"@ {
                pipeline_output_path(*roots, output.unwrap()@)
            } else {
                report_path(pipeline_output_path(*roots, output.unwrap()@))
            },
            false,
        )),
{
    let advanced = pipeline_command_advances_source(command);
    if dry_run {
        validate_pipeline_command_name(command)?;
        if let Err(e) = args_ok {
            return Err(e);
        }
    }
    let out = match output {
        Some(o) => resolve_pipeline_output_path(roots, o),
        None => {
            let mut m = String::from_str("pipeline step `");
            m.append(command);
            m.append("` requires an output");
            return Err(SceneAssetEditError::InvalidOperation(m));
        },
    };
    if dry_run && output_exists && !force {
        return Err(SceneAssetEditError::OutputExists(out));
    }
    let report = if !dry_run && str_equal(command, "sample") {
        out.clone()
    } else {
        pipeline_report_path(out.as_str())
    };
    Ok(SceneAssetPipelineStepReport {
        index,
        command: String::from_str(command),
        source: String::from_str(current_source),
        output_path: Some(out),
        report_path: Some(report),
        advanced_source: advanced,
        dry_run,
    })
}

/// The status an asset operation ends with: `validated` for a dry run,
/// otherwise `ok` when every expectation held and `expectation_failed` when
/// one did not.
pub fn operation_status(dry_run: bool, expectation_failures: &[String]) -> (s: String)
    ensures
        dry_run ==> s@ == "validated"@,
        !dry_run && expectation_failures@.len() == 0 ==> s@ == "ok"@,
        !dry_run && expectation_failures@.len() > 0 ==> s@ == "expectation_failed"@,
{
    if dry_run {
        String::from_str("validated")
    } else if expectation_failures.len() == 0 {
        String::from_str("ok")
    } else {
        String::from_str("expectation_failed")
    }
}

/// The output an asset operation's step writes: the review preview named
/// after the operation when previewing, its own output otherwise.
pub fn operation_step_output(preview: bool, id: &str, output: &str) -> (r: String)
    ensures
        preview ==> r@ == crate::asset_paths::review_output(id@, "preview"@),
        !preview ==> r@ == output@,
{
    if preview {
        crate::asset_paths::operation_preview_output(id)
    } else {
        String::from_str(output)
    }
}

/// Whether an operation compares its output with its source: only a real
/// run of a step that writes a new image does.
pub fn operation_compares_output(dry_run: bool, advanced_source: bool) -> (b: bool)
    ensures
        b == (!dry_run && advanced_source),
{
    !dry_run && advanced_source
}

/// Whether an operation checks its protected regions: a real run of a step
/// that writes a new image, with regions it must preserve.
pub fn operation_checks_protected_regions(dry_run: bool, advanced_source: bool, must_preserve_regions: &[String]) -> (b: bool)
    ensures
        b == (!dry_run && advanced_source && must_preserve_regions@.len() > 0),
{
    !dry_run && advanced_source && must_preserve_regions.len() > 0
}

// ------------------------------------------------ step argument validation

/// Why a step's arguments are refused: an invalid-operation message, a
/// colour that does not parse, a region the feature map lacks, or the error
/// a point, polygon, rectangle or path reader gave.
pub ghost enum StepArgFault {
    Invalid(Seq<char>),
    Color(Seq<char>),
    Unknown(Seq<char>),
    Given(SceneAssetEditError),
}

pub open spec fn fault_is(e: SceneAssetEditError, f: StepArgFault) -> bool {
    match f {
        StepArgFault::Invalid(m) => e matches SceneAssetEditError::InvalidOperation(x) && x@ == m,
        StepArgFault::Color(c) => e matches SceneAssetEditError::InvalidColor(x) && x@ == c,
        StepArgFault::Unknown(n) => e matches SceneAssetEditError::UnknownRegion(x) && x@ == n,
        StepArgFault::Given(g) => e == g,
    }
}

/// `r` is what a check whose first fault is `f` (none when `None`) returns.
pub open spec fn outcome_of(r: Result<(), SceneAssetEditError>, f: Option<StepArgFault>) -> bool {
    match f {
        None => r is Ok,
        Some(x) => r matches Err(e) && fault_is(e, x),
    }
}

/// The first fault of two checks made one after the other.
pub open spec fn first(a: Option<StepArgFault>, b: Option<StepArgFault>) -> Option<StepArgFault> {
    if a is Some {
        a
    } else {
        b
    }
}

pub open spec fn msg<T>(r: Result<T, Seq<char>>) -> Option<StepArgFault> {
    match r {
        Ok(_) => None,
        Err(m) => Some(StepArgFault::Invalid(m)),
    }
}

pub open spec fn list_fault(args: Seq<(String, SceneAssetArgValue)>, key: Seq<char>) -> Option<StepArgFault> {
    msg(string_list_arg(args, key))
}

pub open spec fn u8_fault(args: Seq<(String, SceneAssetArgValue)>, key: Seq<char>) -> Option<StepArgFault> {
    msg(bounded_arg(args, key, 0, u8::MAX as int, "u8"@))
}

pub open spec fn u32_fault(args: Seq<(String, SceneAssetArgValue)>, key: Seq<char>) -> Option<StepArgFault> {
    msg(bounded_arg(args, key, 0, u32::MAX as int, "u32"@))
}

pub open spec fn u32_required_fault(args: Seq<(String, SceneAssetArgValue)>, key: Seq<char>) -> Option<StepArgFault> {
    if arg_value(args, key) is None {
        Some(StepArgFault::Invalid(arg_error(key, "is required"@)))
    } else {
        u32_fault(args, key)
    }
}

pub open spec fn bool_fault(args: Seq<(String, SceneAssetArgValue)>, key: Seq<char>) -> Option<StepArgFault> {
    msg(bool_arg(args, key, false))
}

/// A number argument (read as a float): absent, or any JSON number.
pub open spec fn number_fault(args: Seq<(String, SceneAssetArgValue)>, key: Seq<char>) -> Option<StepArgFault> {
    match arg_value(args, key) {
        None => None,
        Some(SceneAssetArgValue::Number(_)) => None,
        Some(_) => Some(StepArgFault::Invalid(arg_error(key, "must be a number"@))),
    }
}

/// A colour argument; `required` when absence is refused.
pub open spec fn color_fault(args: Seq<(String, SceneAssetArgValue)>, key: Seq<char>, required: bool) -> Option<StepArgFault> {
    match string_arg(args, key) {
        Err(m) => Some(StepArgFault::Invalid(m)),
        Ok(None) => if required {
            Some(StepArgFault::Invalid(arg_error(key, "is required"@)))
        } else {
            None
        },
        Ok(Some(c)) => if rgba_of(c) is None {
            Some(StepArgFault::Color(c))
        } else {
            None
        },
    }
}

/// A required path argument.
pub open spec fn path_fault(args: Seq<(String, SceneAssetArgValue)>, key: Seq<char>) -> Option<StepArgFault> {
    match string_arg(args, key) {
        Err(m) => Some(StepArgFault::Invalid(m)),
        Ok(None) => Some(StepArgFault::Invalid(arg_error(key, "is required"@))),
        Ok(Some(_)) => None,
    }
}

/// A choice argument read with `default`, whose names `named` knows.
pub open spec fn choice_fault(
    args: Seq<(String, SceneAssetArgValue)>,
    key: Seq<char>,
    default: Seq<char>,
    known: bool,
    tail: Seq<char>,
) -> Option<StepArgFault> {
    match choice_text(args, key, default) {
        Err(m) => Some(StepArgFault::Invalid(m)),
        Ok(t) => if known {
            None
        } else {
            Some(StepArgFault::Invalid(bad_choice(key, t, tail)))
        },
    }
}

pub open spec fn chosen(args: Seq<(String, SceneAssetArgValue)>, key: Seq<char>, default: Seq<char>) -> Seq<char> {
    match choice_text(args, key, default) {
        Ok(t) => t,
        Err(_) => default,
    }
}

pub open spec fn mode_fault(args: Seq<(String, SceneAssetArgValue)>) -> Option<StepArgFault> {
    choice_fault(
        args,
        "selection_mode"@,
        "background"@,
        preview_mode_named(chosen(args, "selection_mode"@, "background"@)) is Some,
        ""@,
    )
}

pub open spec fn magic_add(args: Seq<(String, SceneAssetArgValue)>) -> bool {
    preview_mode_named(chosen(args, "selection_mode"@, "background"@)) == Some(SceneAssetMaskPreviewMode::MagicAdd)
}

pub open spec fn sample_fault(args: Seq<(String, SceneAssetArgValue)>) -> Option<StepArgFault> {
    msg(sample_choice(args, "sample"@))
}

pub open spec fn polish_fault(args: Seq<(String, SceneAssetArgValue)>) -> Option<StepArgFault> {
    match polish_args_error(args) {
        None => None,
        Some(m) => Some(StepArgFault::Invalid(m)),
    }
}

/// The named regions of list argument `key` against the feature map's
/// region names (`None` when there is no feature map).
pub open spec fn names_fault(
    map: Option<Seq<Seq<char>>>,
    args: Seq<(String, SceneAssetArgValue)>,
    key: Seq<char>,
) -> Option<StepArgFault> {
    regions_fault(map, string_list_arg(args, key)->Ok_0)
}

pub open spec fn regions_fault(map: Option<Seq<Seq<char>>>, rs: Seq<Seq<char>>) -> Option<StepArgFault> {
    if rs.len() == 0 {
        None
    } else {
        match map {
            None => Some(StepArgFault::Invalid("feature map is required when using named regions"@)),
            Some(names) => {
                let i = first_index(rs, unknown_in(names));
                if i < rs.len() {
                    Some(StepArgFault::Unknown(rs[i]))
                } else {
                    None
                }
            },
        }
    }
}

pub open spec fn map_names(map: Option<&[String]>) -> Option<Seq<Seq<char>>> {
    match map {
        None => None,
        Some(names) => Some(names@.map_values(|n: String| n@)),
    }
}

/// What the reader of a point, polygon, rectangle or path argument gave,
/// as listed by the argument's name: the number of points it read, or its
/// error; an argument not listed was read without error.
pub open spec fn reader_outcome(
    readers: Seq<(String, Result<usize, SceneAssetEditError>)>,
    key: Seq<char>,
) -> Result<usize, SceneAssetEditError> {
    let names = readers.map_values(|e: (String, Result<usize, SceneAssetEditError>)| e.0@);
    let i = first_index(names, text_is(key));
    if i < readers.len() {
        readers[i].1
    } else {
        Ok(0)
    }
}

pub open spec fn reader_fault(readers: Seq<(String, Result<usize, SceneAssetEditError>)>, key: Seq<char>) -> Option<
    StepArgFault,
> {
    match reader_outcome(readers, key) {
        Ok(_) => None,
        Err(e) => Some(StepArgFault::Given(e)),
    }
}

pub open spec fn no_seeds(readers: Seq<(String, Result<usize, SceneAssetEditError>)>) -> bool {
    reader_outcome(readers, "seeds"@) == Ok::<usize, SceneAssetEditError>(0)
}

/// Regions an edit is bounded by: the within list, the within polygons, the
/// protect list, then the names of both lists.
pub open spec fn bounds_fault(
    args: Seq<(String, SceneAssetArgValue)>,
    map: Option<Seq<Seq<char>>>,
    readers: Seq<(String, Result<usize, SceneAssetEditError>)>,
) -> Option<StepArgFault> {
    first(
        list_fault(args, "within_regions"@),
        first(
            reader_fault(readers, "within_polygons"@),
            first(
                list_fault(args, "protect_regions"@),
                first(names_fault(map, args, "within_regions"@), names_fault(map, args, "protect_regions"@)),
            ),
        ),
    )
}

/// Mask polish options, their polygons, then the names of their regions.
pub open spec fn polished_fault(
    args: Seq<(String, SceneAssetArgValue)>,
    map: Option<Seq<Seq<char>>>,
    readers: Seq<(String, Result<usize, SceneAssetEditError>)>,
) -> Option<StepArgFault> {
    first(
        polish_fault(args),
        first(
            reader_fault(readers, "within_polygons"@),
            first(names_fault(map, args, "within_regions"@), names_fault(map, args, "protect_regions"@)),
        ),
    )
}

pub open spec fn preview_fault(
    args: Seq<(String, SceneAssetArgValue)>,
    map: Option<Seq<Seq<char>>>,
    readers: Seq<(String, Result<usize, SceneAssetEditError>)>,
    no_seed_message: Seq<char>,
) -> Option<StepArgFault> {
    first(
        mode_fault(args),
        first(
            reader_fault(readers, "seeds"@),
            first(
                if magic_add(args) && no_seeds(readers) {
                    Some(StepArgFault::Invalid(no_seed_message))
                } else {
                    None
                },
                first(
                    u8_fault(args, "threshold"@),
                    first(u8_fault(args, "neutrality"@), polished_fault(args, map, readers)),
                ),
            ),
        ),
    )
}

/// The first fault of a pipeline step's arguments, checked in the order
/// the pipeline reads them for each command.
pub open spec fn step_args_fault(
    command: Seq<char>,
    args: Seq<(String, SceneAssetArgValue)>,
    map: Option<Seq<Seq<char>>>,
    readers: Seq<(String, Result<usize, SceneAssetEditError>)>,
) -> Option<StepArgFault> {
    if command == "sample"@ {
        first(
            list_fault(args, "within_regions"@),
            first(
                reader_fault(readers, "points"@),
                first(reader_fault(readers, "within_polygons"@), names_fault(map, args, "within_regions"@)),
            ),
        )
    } else if command == "mask-preview"@ {
        preview_fault(args, map, readers, "magic-add mask preview requires at least one seed"@)
    } else if command == "mask-export"@ {
        preview_fault(args, map, readers, "mask-export with magic-add requires at least one seed"@)
    } else if command == "mask-apply-alpha"@ {
        first(path_fault(args, "mask"@), u8_fault(args, "alpha"@))
    } else if command == "mask-composite"@ {
        first(path_fault(args, "mask"@), path_fault(args, "patch"@))
    } else if command == "remove-background"@ {
        first(u8_fault(args, "tolerance"@), first(u32_fault(args, "feather"@), sample_fault(args)))
    } else if command == "remove-background-polished"@ || command == "color-range-erase"@ {
        polished_fault(args, map, readers)
    } else if command == "magic-erase-add"@ {
        first(
            reader_fault(readers, "seeds"@),
            first(
                if no_seeds(readers) {
                    Some(StepArgFault::Invalid("magic-erase-add requires at least one seed"@))
                } else {
                    None
                },
                polished_fault(args, map, readers),
            ),
        )
    } else if command == "hair-cleanup"@ {
        first(
            u32_fault(args, "radius"@),
            first(
                number_fault(args, "strength"@),
                match string_arg(args, "hair_region"@) {
                    Err(m) => Some(StepArgFault::Invalid(m)),
                    Ok(None) => None,
                    Ok(Some(r)) => regions_fault(map, seq![r]),
                },
            ),
        )
    } else if command == "fill-region"@ {
        first(color_fault(args, "color"@, true), first(bool_fault(args, "whole_image"@), bounds_fault(args, map, readers)))
    } else if command == "sample-fill"@ {
        first(
            reader_fault(readers, "sample_point"@),
            first(u32_fault(args, "sample_radius"@), bounds_fault(args, map, readers)),
        )
    } else if command == "alpha-paint"@ {
        first(u8_fault(args, "alpha"@), first(bool_fault(args, "whole_image"@), bounds_fault(args, map, readers)))
    } else if command == "clone-stamp"@ {
        first(
            reader_fault(readers, "sample_origin"@),
            first(reader_fault(readers, "target_origin"@), bounds_fault(args, map, readers)),
        )
    } else if command == "draw-shape"@ {
        first(
            choice_fault(args, "shape"@, "line"@, shape_named(chosen(args, "shape"@, "line"@)) is Some, ""@),
            first(
                color_fault(args, "color"@, true),
                first(
                    u32_fault(args, "stroke_width"@),
                    first(
                        bool_fault(args, "fill"@),
                        first(
                            reader_fault(readers, "rect"@),
                            first(
                                reader_fault(readers, "points"@),
                                first(list_fault(args, "protect_regions"@), names_fault(map, args, "protect_regions"@)),
                            ),
                        ),
                    ),
                ),
            ),
        )
    } else if command == "stroke-path"@ {
        first(
            reader_fault(readers, "path"@),
            first(
                color_fault(args, "color"@, true),
                first(
                    u32_fault(args, "width"@),
                    first(
                        bool_fault(args, "closed"@),
                        first(list_fault(args, "protect_regions"@), names_fault(map, args, "protect_regions"@)),
                    ),
                ),
            ),
        )
    } else if command == "crop"@ {
        first(reader_fault(readers, "rect"@), bool_fault(args, "content_bounds"@))
    } else if command == "pad"@ {
        first(
            u32_required_fault(args, "width"@),
            first(
                u32_required_fault(args, "height"@),
                first(
                    choice_fault(args, "anchor"@, "center"@, pad_anchor_named(chosen(args, "anchor"@, "center"@)) is Some, ""@),
                    color_fault(args, "color"@, false),
                ),
            ),
        )
    } else if command == "transform"@ {
        first(
            msg(translate_arg(args)),
            first(
                number_fault(args, "scale"@),
                first(
                    bool_fault(args, "flip_x"@),
                    first(
                        bool_fault(args, "flip_y"@),
                        choice_fault(
                            args,
                            "resample"@,
                            "lanczos3"@,
                            resample_named(chosen(args, "resample"@, "lanczos3"@)) is Some,
                            ""@,
                        ),
                    ),
                ),
            ),
        )
    } else if command == "levels"@ {
        first(
            choice_fault(args, "channel"@, "rgb"@, channel_named(chosen(args, "channel"@, "rgb"@)) is Some, ""@),
            first(
                u8_fault(args, "black"@),
                first(u8_fault(args, "white"@), first(number_fault(args, "gamma"@), bounds_fault(args, map, readers))),
            ),
        )
    } else if command == "brightness-contrast"@ {
        first(
            number_fault(args, "brightness"@),
            first(number_fault(args, "contrast"@), bounds_fault(args, map, readers)),
        )
    } else if command == "hsl"@ {
        first(
            number_fault(args, "hue"@),
            first(
                number_fault(args, "saturation"@),
                first(number_fault(args, "lightness"@), bounds_fault(args, map, readers)),
            ),
        )
    } else if command == "blur"@ {
        first(number_fault(args, "radius"@), bounds_fault(args, map, readers))
    } else if command == "unsharp-mask"@ {
        first(
            number_fault(args, "radius"@),
            first(number_fault(args, "amount"@), first(u8_fault(args, "threshold"@), bounds_fault(args, map, readers))),
        )
    } else {
        Some(StepArgFault::Invalid("unsupported pipeline command `"@ + command + "`"@))
    }
}

// The checks, one argument at a time.

fn list_check(args: &[(String, SceneAssetArgValue)], key: &str) -> (r: Result<(), SceneAssetEditError>)
    ensures
        outcome_of(r, list_fault(args@, key@)),
{
    match pipeline_string_list_arg(args, key) {
        Ok(_) => Ok(()),
        Err(e) => Err(e),
    }
}

fn u8_check(args: &[(String, SceneAssetArgValue)], key: &str, default: u8) -> (r: Result<(), SceneAssetEditError>)
    ensures
        outcome_of(r, u8_fault(args@, key@)),
{
    match pipeline_u8_arg(args, key, default) {
        Ok(_) => Ok(()),
        Err(e) => Err(e),
    }
}

fn u32_check(args: &[(String, SceneAssetArgValue)], key: &str, default: u32) -> (r: Result<(), SceneAssetEditError>)
    ensures
        outcome_of(r, u32_fault(args@, key@)),
{
    match pipeline_u32_arg(args, key, default) {
        Ok(_) => Ok(()),
        Err(e) => Err(e),
    }
}

fn u32_required_check(args: &[(String, SceneAssetArgValue)], key: &str) -> (r: Result<(), SceneAssetEditError>)
    ensures
        outcome_of(r, u32_required_fault(args@, key@)),
{
    match pipeline_u32_required_arg(args, key) {
        Ok(_) => Ok(()),
        Err(e) => Err(e),
    }
}

fn bool_check(args: &[(String, SceneAssetArgValue)], key: &str, default: bool) -> (r: Result<(), SceneAssetEditError>)
    ensures
        outcome_of(r, bool_fault(args@, key@)),
{
    match pipeline_bool_arg(args, key, default) {
        Ok(_) => Ok(()),
        Err(e) => Err(e),
    }
}

/// Checks that the argument `key`, when present, is a number.
pub fn pipeline_number_arg_check(args: &[(String, SceneAssetArgValue)], key: &str) -> (r: Result<(), SceneAssetEditError>)
    ensures
        outcome_of(r, number_fault(args@, key@)),
{
    match pipeline_arg(args, key) {
        None => Ok(()),
        Some(SceneAssetArgValue::Number(_)) => Ok(()),
        Some(_) => Err(SceneAssetEditError::InvalidOperation(arg_error_text(key, "must be a number"))),
    }
}

fn color_check(args: &[(String, SceneAssetArgValue)], key: &str, required: bool) -> (r: Result<(), SceneAssetEditError>)
    ensures
        outcome_of(r, color_fault(args@, key@, required)),
{
    let c = if required {
        pipeline_color_arg(args, key)
    } else {
        pipeline_optional_color_arg(args, key, [0, 0, 0, 0])
    };
    match c {
        Ok(_) => Ok(()),
        Err(e) => Err(e),
    }
}

fn path_check(args: &[(String, SceneAssetArgValue)], key: &str) -> (r: Result<(), SceneAssetEditError>)
    ensures
        outcome_of(r, path_fault(args@, key@)),
{
    match pipeline_string_arg(args, key) {
        Ok(Some(_)) => Ok(()),
        Ok(None) => Err(SceneAssetEditError::InvalidOperation(arg_error_text(key, "is required"))),
        Err(e) => Err(e),
    }
}

fn names_check(map: Option<&[String]>, args: &[(String, SceneAssetArgValue)], key: &str) -> (r: Result<(), SceneAssetEditError>)
    requires
        string_list_arg(args@, key@) is Ok,
    ensures
        outcome_of(r, names_fault(map_names(map), args@, key@)),
{
    let regions = match pipeline_string_list_arg(args, key) {
        Ok(v) => v,
        Err(e) => return Err(e),
    };
    regions_check(map, regions.as_slice())
}

fn regions_check(map: Option<&[String]>, regions: &[String]) -> (r: Result<(), SceneAssetEditError>)
    ensures
        outcome_of(r, regions_fault(map_names(map), regions@.map_values(|n: String| n@))),
{
    let ghost rs = regions@.map_values(|n: String| n@);
    proof {
        if let Some(names) = map {
            lemma_first_index(rs, unknown_in(names@.map_values(|n: String| n@)));
        }
    }
    validate_pipeline_region_names(map, regions)
}

fn reader_check(readers: &[(String, Result<usize, SceneAssetEditError>)], key: &str) -> (r: Result<usize, SceneAssetEditError>)
    ensures
        r == reader_outcome(readers@, key@),
{
    let ghost names = readers@.map_values(|e: (String, Result<usize, SceneAssetEditError>)| e.0@);
    let mut i: usize = 0;
    while i < readers.len()
        invariant
            names == readers@.map_values(|e: (String, Result<usize, SceneAssetEditError>)| e.0@),
            i <= readers@.len(),
            forall|k: int| 0 <= k < i ==> !text_is(key@)(#[trigger] names[k]),
        decreases readers.len() - i,
    {
        if str_equal(readers[i].0.as_str(), key) {
            proof {
                assert(text_is(key@)(names[i as int]));
                lemma_first_from_is(names, text_is(key@), 0, i as int);
            }
            return match &readers[i].1 {
                Ok(n) => Ok(*n),
                Err(e) => Err(copy_error(e)),
            };
        }
        i = i + 1;
    }
    proof {
        lemma_first_from_none(names, text_is(key@), 0);
    }
    Ok(0)
}

fn reader_fault_check(readers: &[(String, Result<usize, SceneAssetEditError>)], key: &str) -> (r: Result<(), SceneAssetEditError>)
    ensures
        outcome_of(r, reader_fault(readers@, key@)),
{
    match reader_check(readers, key) {
        Ok(_) => Ok(()),
        Err(e) => Err(e),
    }
}

fn bounds_check(
    args: &[(String, SceneAssetArgValue)],
    map: Option<&[String]>,
    readers: &[(String, Result<usize, SceneAssetEditError>)],
) -> (r: Result<(), SceneAssetEditError>)
    ensures
        outcome_of(r, bounds_fault(args@, map_names(map), readers@)),
{
    list_check(args, "within_regions")?;
    reader_fault_check(readers, "within_polygons")?;
    list_check(args, "protect_regions")?;
    names_check(map, args, "within_regions")?;
    names_check(map, args, "protect_regions")
}

fn polished_check(
    args: &[(String, SceneAssetArgValue)],
    map: Option<&[String]>,
    readers: &[(String, Result<usize, SceneAssetEditError>)],
) -> (r: Result<(), SceneAssetEditError>)
    ensures
        outcome_of(r, polished_fault(args@, map_names(map), readers@)),
{
    match pipeline_mask_polish_options(args) {
        Ok(_) => {},
        Err(e) => return Err(e),
    }
    reader_fault_check(readers, "within_polygons")?;
    names_check(map, args, "within_regions")?;
    names_check(map, args, "protect_regions")
}

fn preview_check(
    args: &[(String, SceneAssetArgValue)],
    map: Option<&[String]>,
    readers: &[(String, Result<usize, SceneAssetEditError>)],
    no_seed_message: &str,
) -> (r: Result<(), SceneAssetEditError>)
    ensures
        outcome_of(r, preview_fault(args@, map_names(map), readers@, no_seed_message@)),
{
    let mode = match pipeline_mask_preview_mode_arg(args) {
        Ok(m) => m,
        Err(e) => return Err(e),
    };
    let seeds = reader_check(readers, "seeds")?;
    if mode == SceneAssetMaskPreviewMode::MagicAdd && seeds == 0 {
        return Err(SceneAssetEditError::InvalidOperation(String::from_str(no_seed_message)));
    }
    u8_check(args, "threshold", 238)?;
    u8_check(args, "neutrality", 28)?;
    polished_check(args, map, readers)
}

fn choice_check_result<T>(r: Result<T, SceneAssetEditError>) -> (o: Result<(), SceneAssetEditError>)
    ensures
        r is Ok ==> o is Ok,
        r matches Err(e) ==> o == Err::<(), SceneAssetEditError>(e),
{
    match r {
        Ok(_) => Ok(()),
        Err(e) => Err(e),
    }
}

/// Checks a pipeline step's arguments for its command, in the order the
/// pipeline reads them, and returns the first refusal. `map_regions` holds
/// the region names of the step's feature map (`None` without one). The
/// point, polygon, rectangle and path arguments hold decimal fractions,
/// which the caller reads: `readers` lists, by argument name, the number of
/// points each reader gave or its error (`points`, `seeds`,
/// `within_polygons`, `rect`, `path`, `sample_point`, `sample_origin`,
/// `target_origin`); an argument not listed was read without error and
/// gave no point.
pub fn validate_pipeline_step_args(
    command: &str,
    args: &[(String, SceneAssetArgValue)],
    map_regions: Option<&[String]>,
    readers: &[(String, Result<usize, SceneAssetEditError>)],
) -> (r: Result<(), SceneAssetEditError>)
    ensures
        outcome_of(r, step_args_fault(command@, args@, map_names(map_regions), readers@)),
{
    let map = map_regions;
    if str_equal(command, "sample") {
        list_check(args, "within_regions")?;
        reader_fault_check(readers, "points")?;
        reader_fault_check(readers, "within_polygons")?;
        names_check(map, args, "within_regions")
    } else if str_equal(command, "mask-preview") {
        preview_check(args, map, readers, "magic-add mask preview requires at least one seed")
    } else if str_equal(command, "mask-export") {
        preview_check(args, map, readers, "mask-export with magic-add requires at least one seed")
    } else if str_equal(command, "mask-apply-alpha") {
        path_check(args, "mask")?;
        u8_check(args, "alpha", 0)
    } else if str_equal(command, "mask-composite") {
        path_check(args, "mask")?;
        path_check(args, "patch")
    } else if str_equal(command, "remove-background") {
        u8_check(args, "tolerance", 24)?;
        u32_check(args, "feather", 0)?;
        choice_check_result(pipeline_background_sample_arg(args, "sample"))
    } else if str_equal(command, "remove-background-polished") || str_equal(command, "color-range-erase") {
        polished_check(args, map, readers)
    } else if str_equal(command, "magic-erase-add") {
        let seeds = reader_check(readers, "seeds")?;
        if seeds == 0 {
            return Err(SceneAssetEditError::InvalidOperation(String::from_str("magic-erase-add requires at least one seed")));
        }
        polished_check(args, map, readers)
    } else if str_equal(command, "hair-cleanup") {
        u32_check(args, "radius", 4)?;
        pipeline_number_arg_check(args, "strength")?;
        match pipeline_string_arg(args, "hair_region") {
            Err(e) => Err(e),
            Ok(None) => Ok(()),
            Ok(Some(region)) => {
                let regions = vec![region];
                proof {
                    assert(regions@.map_values(|n: String| n@) =~= seq![regions@[0]@]);
                }
                regions_check(map, regions.as_slice())
            },
        }
    } else if str_equal(command, "fill-region") {
        color_check(args, "color", true)?;
        bool_check(args, "whole_image", false)?;
        bounds_check(args, map, readers)
    } else if str_equal(command, "sample-fill") {
        reader_fault_check(readers, "sample_point")?;
        u32_check(args, "sample_radius", 1)?;
        bounds_check(args, map, readers)
    } else if str_equal(command, "alpha-paint") {
        u8_check(args, "alpha", 255)?;
        bool_check(args, "whole_image", false)?;
        bounds_check(args, map, readers)
    } else if str_equal(command, "clone-stamp") {
        reader_fault_check(readers, "sample_origin")?;
        reader_fault_check(readers, "target_origin")?;
        bounds_check(args, map, readers)
    } else if str_equal(command, "draw-shape") {
        choice_check_result(pipeline_draw_shape_arg(args))?;
        color_check(args, "color", true)?;
        u32_check(args, "stroke_width", 1)?;
        bool_check(args, "fill", false)?;
        reader_fault_check(readers, "rect")?;
        reader_fault_check(readers, "points")?;
        list_check(args, "protect_regions")?;
        names_check(map, args, "protect_regions")
    } else if str_equal(command, "stroke-path") {
        reader_fault_check(readers, "path")?;
        color_check(args, "color", true)?;
        u32_check(args, "width", 1)?;
        bool_check(args, "closed", false)?;
        list_check(args, "protect_regions")?;
        names_check(map, args, "protect_regions")
    } else if str_equal(command, "crop") {
        reader_fault_check(readers, "rect")?;
        bool_check(args, "content_bounds", false)
    } else if str_equal(command, "pad") {
        u32_required_check(args, "width")?;
        u32_required_check(args, "height")?;
        choice_check_result(pipeline_pad_anchor_arg(args))?;
        color_check(args, "color", false)
    } else if str_equal(command, "transform") {
        choice_check_result(pipeline_translate_arg(args))?;
        pipeline_number_arg_check(args, "scale")?;
        bool_check(args, "flip_x", false)?;
        bool_check(args, "flip_y", false)?;
        choice_check_result(pipeline_resample_arg(args))
    } else if str_equal(command, "levels") {
        choice_check_result(pipeline_channel_arg(args))?;
        u8_check(args, "black", 0)?;
        u8_check(args, "white", 255)?;
        pipeline_number_arg_check(args, "gamma")?;
        bounds_check(args, map, readers)
    } else if str_equal(command, "brightness-contrast") {
        pipeline_number_arg_check(args, "brightness")?;
        pipeline_number_arg_check(args, "contrast")?;
        bounds_check(args, map, readers)
    } else if str_equal(command, "hsl") {
        pipeline_number_arg_check(args, "hue")?;
        pipeline_number_arg_check(args, "saturation")?;
        pipeline_number_arg_check(args, "lightness")?;
        bounds_check(args, map, readers)
    } else if str_equal(command, "blur") {
        pipeline_number_arg_check(args, "radius")?;
        bounds_check(args, map, readers)
    } else if str_equal(command, "unsharp-mask") {
        pipeline_number_arg_check(args, "radius")?;
        pipeline_number_arg_check(args, "amount")?;
        u8_check(args, "threshold", 0)?;
        bounds_check(args, map, readers)
    } else {
        let mut m = String::from_str("unsupported pipeline command `");
        m.append(command);
        m.append("`");
        Err(SceneAssetEditError::InvalidOperation(m))
    }
}

} // verus!
