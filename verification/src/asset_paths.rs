//! Where the asset pipeline reads and writes: paths resolved against the
//! input, transformation and output roots, report paths beside outputs, and
//! the names of review files.

use vstd::prelude::*;
use crate::asset::{sanitize_operation_id, SceneAssetPipelineRoots};

verus! {

/// `Path::is_absolute` of the path.
pub uninterp spec fn absolute_path(p: Seq<char>) -> bool;

/// `Path::join`: `rest` appended to `base` (or `rest` itself when absolute).
pub uninterp spec fn joined_path(base: Seq<char>, rest: Seq<char>) -> Seq<char>;

/// `Path::strip_prefix`: what follows `prefix` when the path's leading
/// components are `prefix`'s.
pub uninterp spec fn stripped_path(p: Seq<char>, prefix: Seq<char>) -> Option<Seq<char>>;

/// `Path::parent`: the path without its final component, if it has one.
pub uninterp spec fn parent_path(p: Seq<char>) -> Option<Seq<char>>;

/// `Path::file_stem`: the final file name without its extension, if any.
pub uninterp spec fn path_stem(p: Seq<char>) -> Option<Seq<char>>;

/// `Path::with_file_name`: the path with its final file name replaced.
pub uninterp spec fn renamed_path(p: Seq<char>, name: Seq<char>) -> Seq<char>;

/// Whether `std::path::Path::is_absolute` holds of the path; claims it is
/// `absolute_path(p)`.
#[verifier::external_body]
pub(crate) fn path_is_absolute(p: &str) -> (b: bool)
    ensures
        b == absolute_path(p@),
{
    std::path::Path::new(p).is_absolute()
}

/// `std::path::Path::join`, written back as text; claims it is
/// `joined_path(base, rest)`.
#[verifier::external_body]
pub(crate) fn path_join(base: &str, rest: &str) -> (joined: String)
    ensures
        joined@ == joined_path(base@, rest@),
{
    std::path::Path::new(base).join(rest).display().to_string()
}

/// `std::path::Path::strip_prefix`, written back as text; claims it is
/// `stripped_path(p, prefix)`.
#[verifier::external_body]
fn path_strip_prefix(p: &str, prefix: &str) -> (rest: Option<String>)
    ensures
        rest is None <==> stripped_path(p@, prefix@) is None,
        rest is Some ==> stripped_path(p@, prefix@) == Some(rest.unwrap()@),
{
    std::path::Path::new(p).strip_prefix(prefix).ok().map(|rest| rest.display().to_string())
}

/// `std::path::Path::parent`, written back as text; claims it is
/// `parent_path(p)`.
#[verifier::external_body]
pub(crate) fn path_parent(p: &str) -> (parent: Option<String>)
    ensures
        parent is None <==> parent_path(p@) is None,
        parent is Some ==> parent_path(p@) == Some(parent.unwrap()@),
{
    std::path::Path::new(p).parent().map(|parent| parent.display().to_string())
}

/// `std::path::Path::file_stem` as text; claims it is `path_stem(p)`.
#[verifier::external_body]
pub(crate) fn path_file_stem(p: &str) -> (stem: Option<String>)
    ensures
        stem is None <==> path_stem(p@) is None,
        stem is Some ==> path_stem(p@) == Some(stem.unwrap()@),
{
    std::path::Path::new(p).file_stem().map(|stem| stem.to_string_lossy().to_string())
}

/// `std::path::Path::with_file_name`, written back as text; claims it is
/// `renamed_path(p, name)`.
#[verifier::external_body]
fn path_with_file_name(p: &str, name: &str) -> (renamed: String)
    ensures
        renamed@ == renamed_path(p@, name@),
{
    std::path::Path::new(p).with_file_name(name).display().to_string()
}

/// An input path: absolute paths stay, others are under the input root.
pub open spec fn pipeline_input_path(roots: SceneAssetPipelineRoots, path: Seq<char>) -> Seq<char> {
    if absolute_path(path) {
        path
    } else {
        joined_path(roots.input_root@, path)
    }
}

pub fn resolve_pipeline_input_path(roots: &SceneAssetPipelineRoots, path: &str) -> (r: String)
    ensures
        r@ == pipeline_input_path(*roots, path@),
{
    if path_is_absolute(path) {
        String::from_str(path)
    } else {
        path_join(roots.input_root.as_str(), path)
    }
}

/// An operation's source: absolute paths stay; `Transformation/...` and
/// `Output/...` are under those roots; others are under the input root.
pub open spec fn operation_source_path(roots: SceneAssetPipelineRoots, path: Seq<char>) -> Seq<char> {
    if absolute_path(path) {
        path
    } else if let Some(rest) = stripped_path(path, "Transformation"@) {
        joined_path(roots.transformation_root@, rest)
    } else if let Some(rest) = stripped_path(path, "Output"@) {
        joined_path(roots.output_root@, rest)
    } else {
        joined_path(roots.input_root@, path)
    }
}

pub fn resolve_asset_operation_source_path(roots: &SceneAssetPipelineRoots, path: &str) -> (r: String)
    ensures
        r@ == operation_source_path(*roots, path@),
{
    if path_is_absolute(path) {
        return String::from_str(path);
    }
    if let Some(rest) = path_strip_prefix(path, "Transformation") {
        return path_join(roots.transformation_root.as_str(), rest.as_str());
    }
    if let Some(rest) = path_strip_prefix(path, "Output") {
        return path_join(roots.output_root.as_str(), rest.as_str());
    }
    path_join(roots.input_root.as_str(), path)
}

/// A path that may start with a root's name: absolute paths stay;
/// `Input/...`, `Transformation/...` and `Output/...` are under those roots;
/// others are under `default_root`.
pub open spec fn prefixed_path(roots: SceneAssetPipelineRoots, path: Seq<char>, default_root: Seq<char>) -> Seq<char> {
    if absolute_path(path) {
        path
    } else if let Some(rest) = stripped_path(path, "Input"@) {
        joined_path(roots.input_root@, rest)
    } else if let Some(rest) = stripped_path(path, "Transformation"@) {
        joined_path(roots.transformation_root@, rest)
    } else if let Some(rest) = stripped_path(path, "Output"@) {
        joined_path(roots.output_root@, rest)
    } else {
        joined_path(default_root, path)
    }
}

pub fn resolve_asset_prefixed_path(roots: &SceneAssetPipelineRoots, path: &str, default_root: &str) -> (r: String)
    ensures
        r@ == prefixed_path(*roots, path@, default_root@),
{
    if path_is_absolute(path) {
        return String::from_str(path);
    }
    if let Some(rest) = path_strip_prefix(path, "Input") {
        return path_join(roots.input_root.as_str(), rest.as_str());
    }
    if let Some(rest) = path_strip_prefix(path, "Transformation") {
        return path_join(roots.transformation_root.as_str(), rest.as_str());
    }
    if let Some(rest) = path_strip_prefix(path, "Output") {
        return path_join(roots.output_root.as_str(), rest.as_str());
    }
    path_join(default_root, path)
}

/// An output to accept is read from under the transformation root by
/// default.
pub fn resolve_asset_accept_source_path(roots: &SceneAssetPipelineRoots, path: &str) -> (r: String)
    ensures
        r@ == prefixed_path(*roots, path@, roots.transformation_root@),
{
    resolve_asset_prefixed_path(roots, path, roots.transformation_root.as_str())
}

/// An accepted output is written under the output root.
pub open spec fn accept_output_path(roots: SceneAssetPipelineRoots, path: Seq<char>) -> Seq<char> {
    if absolute_path(path) {
        path
    } else if let Some(rest) = stripped_path(path, "Output"@) {
        joined_path(roots.output_root@, rest)
    } else {
        joined_path(roots.output_root@, path)
    }
}

pub fn resolve_asset_accept_output_path(roots: &SceneAssetPipelineRoots, path: &str) -> (r: String)
    ensures
        r@ == accept_output_path(*roots, path@),
{
    if path_is_absolute(path) {
        return String::from_str(path);
    }
    if let Some(rest) = path_strip_prefix(path, "Output") {
        return path_join(roots.output_root.as_str(), rest.as_str());
    }
    path_join(roots.output_root.as_str(), path)
}

/// A step's output: absolute paths stay, `Output/...` is under the output
/// root, others under the transformation root.
pub open spec fn pipeline_output_path(roots: SceneAssetPipelineRoots, path: Seq<char>) -> Seq<char> {
    if absolute_path(path) {
        path
    } else if let Some(rest) = stripped_path(path, "Output"@) {
        joined_path(roots.output_root@, rest)
    } else {
        joined_path(roots.transformation_root@, path)
    }
}

pub fn resolve_pipeline_output_path(roots: &SceneAssetPipelineRoots, path: &str) -> (r: String)
    ensures
        r@ == pipeline_output_path(*roots, path@),
{
    if path_is_absolute(path) {
        return String::from_str(path);
    }
    if let Some(rest) = path_strip_prefix(path, "Output") {
        return path_join(roots.output_root.as_str(), rest.as_str());
    }
    path_join(roots.transformation_root.as_str(), path)
}

/// The report beside an output: `<stem>.report.json` (`step` when the
/// output has no file name).
pub open spec fn report_path(output: Seq<char>) -> Seq<char> {
    let stem = match path_stem(output) {
        Some(s) => s,
        None => "step"@,
    };
    renamed_path(output, stem + ".report.json"@)
}

pub fn pipeline_report_path(output_path: &str) -> (r: String)
    ensures
        r@ == report_path(output_path@),
{
    let mut name = match path_file_stem(output_path) {
        Some(s) => s,
        None => String::from_str("step"),
    };
    name.append(".report.json");
    path_with_file_name(output_path, name.as_str())
}

/// A recipe's relative path is taken from its own directory when known.
pub open spec fn recipe_path(path: Seq<char>, base_dir: Option<Seq<char>>) -> Seq<char> {
    if absolute_path(path) {
        path
    } else {
        match base_dir {
            Some(d) => joined_path(d, path),
            None => path,
        }
    }
}

pub fn resolve_recipe_path(path: &str, base_dir: Option<&str>) -> (r: String)
    ensures
        r@ == recipe_path(path@, match base_dir {
            Some(d) => Some(d@),
            None => None,
        }),
{
    if path_is_absolute(path) {
        return String::from_str(path);
    }
    match base_dir {
        Some(d) => path_join(d, path),
        None => String::from_str(path),
    }
}

/// The file name of an operation's review file: the sanitized id, a dot,
/// the suffix and `.png`.
pub open spec fn review_output(id: Seq<char>, suffix: Seq<char>) -> Seq<char> {
    crate::asset::sanitized_id(id) + "."@ + suffix + ".png"@
}

pub fn operation_review_output(id: &str, suffix: &str) -> (r: String)
    ensures
        r@ == review_output(id@, suffix@),
{
    let mut s = sanitize_operation_id(id);
    s.append(".");
    s.append(suffix);
    s.append(".png");
    s
}

/// The preview output of an operation: `<id>.preview.png`.
pub fn operation_preview_output(id: &str) -> (r: String)
    ensures
        r@ == review_output(id@, "preview"@),
{
    operation_review_output(id, "preview")
}

/// The diff preview of an operation: `<id>.diff.png`.
pub fn operation_diff_preview_output(id: &str) -> (r: String)
    ensures
        r@ == review_output(id@, "diff"@),
{
    operation_review_output(id, "diff")
}

/// A relative path that starts with a root's name resolves under that root:
/// the rest of `Output/...` under the output root, of `Transformation/...`
/// under the transformation root and of `Input/...` under the input root,
/// wherever such a prefix is recognised; an absolute path stays as it is.
pub proof fn law_root_prefixes_resolve_under_their_roots(
    roots: SceneAssetPipelineRoots,
    path: Seq<char>,
    default_root: Seq<char>,
    rest: Seq<char>,
)
    ensures
        absolute_path(path) ==> {
            &&& prefixed_path(roots, path, default_root) == path
            &&& operation_source_path(roots, path) == path
            &&& accept_output_path(roots, path) == path
            &&& pipeline_output_path(roots, path) == path
        },
        !absolute_path(path) && stripped_path(path, "Output"@) == Some(rest) ==> {
            &&& accept_output_path(roots, path) == joined_path(roots.output_root@, rest)
            &&& pipeline_output_path(roots, path) == joined_path(roots.output_root@, rest)
            &&& (stripped_path(path, "Transformation"@) is None ==> operation_source_path(roots, path) == joined_path(
                roots.output_root@,
                rest,
            ))
            &&& (stripped_path(path, "Input"@) is None && stripped_path(path, "Transformation"@) is None
                ==> prefixed_path(roots, path, default_root) == joined_path(roots.output_root@, rest))
        },
        !absolute_path(path) && stripped_path(path, "Transformation"@) == Some(rest) ==> {
            &&& operation_source_path(roots, path) == joined_path(roots.transformation_root@, rest)
            &&& (stripped_path(path, "Input"@) is None ==> prefixed_path(roots, path, default_root) == joined_path(
                roots.transformation_root@,
                rest,
            ))
        },
        !absolute_path(path) && stripped_path(path, "Input"@) == Some(rest) ==> prefixed_path(roots, path, default_root)
            == joined_path(roots.input_root@, rest),
        !absolute_path(path) && stripped_path(path, "Input"@) is None && stripped_path(path, "Transformation"@) is None
            && stripped_path(path, "Output"@) is None ==> {
            &&& prefixed_path(roots, path, default_root) == joined_path(default_root, path)
            &&& operation_source_path(roots, path) == joined_path(roots.input_root@, path)
            &&& accept_output_path(roots, path) == joined_path(roots.output_root@, path)
            &&& pipeline_output_path(roots, path) == joined_path(roots.transformation_root@, path)
        },
{
}

} // verus!
