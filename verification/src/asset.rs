//! Asset-editing records: options, reports and errors of the image
//! pipeline, with the parts of it that are plain computation.

use vstd::prelude::*;

use crate::mask::SceneAssetPixelRect;
use crate::text::{blank, dec, is_blank, is_ws, str_equal, string_from_chars, trim_seq, u32_text, u64_text, usize_text};

verus! {

#[derive(Debug, Clone, PartialEq, Eq)]
pub struct SceneAssetPipelineRoots {
    pub input_root: String,
    pub transformation_root: String,
    pub output_root: String,
}

#[derive(Debug, Clone, Copy, PartialEq, Eq, Structural)]
pub struct SceneAssetPipelineRunOptions {
    pub force: bool,
    pub dry_run: bool,
    pub pretty: bool,
}

#[derive(Debug, Clone, Copy, PartialEq, Eq, Structural)]
pub struct SceneAssetOperationRunOptions {
    pub force: bool,
    pub dry_run: bool,
    pub preview: bool,
    pub pretty: bool,
}

#[derive(Debug, Clone, PartialEq, Eq)]
pub struct SceneAssetProtectedRegionChange {
    pub region: String,
    pub changed_pixels: usize,
}

#[derive(Debug, Clone, PartialEq, Eq)]
pub struct SceneAssetProtectedRegionReport {
    pub checked_regions: Vec<String>,
    pub changed_pixels: usize,
    pub changed_regions: Vec<SceneAssetProtectedRegionChange>,
}

#[derive(Debug, Clone, PartialEq, Eq)]
pub struct SceneAssetEditSession {
    pub asset_session_version: u64,
    pub name: String,
    pub current_source: Option<String>,
    pub accepted_outputs: Vec<String>,
    pub operations: Vec<String>,
}

#[derive(Debug, Clone, PartialEq, Eq)]
pub struct SceneAssetOperationValidationReport {
    pub operation: String,
    pub id: String,
    pub status: String,
    pub source_path: String,
    pub requested_output_path: String,
    pub command: String,
    pub warnings: Vec<String>,
}

#[derive(Debug, Clone, PartialEq, Eq)]
pub struct SceneAssetOperationErrorReport {
    pub operation: String,
    pub status: String,
    pub code: String,
    pub message: String,
    pub hint: Option<String>,
}

#[derive(Debug, Clone, PartialEq, Eq)]
pub struct SceneAssetAnimationRecipe {
    pub fps: u32,
    pub frames: Vec<SceneAssetAnimationFrame>,
}

#[derive(Debug, Clone, PartialEq, Eq)]
pub struct SceneAssetAnimationFrame {
    pub expression: String,
    pub output: Option<String>,
    pub duration_ms: Option<u64>,
}

#[derive(Debug, Clone, PartialEq, Eq)]
pub struct SceneAssetContinuityReport {
    pub frame_count: usize,
    pub dimensions: Option<SceneAssetDimensions>,
    pub content_bounds: Vec<Option<SceneAssetPixelRect>>,
    pub checks: Vec<SceneAssetContinuityCheck>,
    pub warnings: Vec<String>,
}

#[derive(Debug, Clone, Copy, PartialEq, Eq, Structural)]
pub struct SceneAssetDimensions {
    pub width: u32,
    pub height: u32,
}

#[derive(Debug, Clone, PartialEq, Eq)]
pub struct SceneAssetContinuityCheck {
    pub name: String,
    pub status: SceneAssetContinuityStatus,
    pub detail: String,
}

#[derive(Debug, Clone, Copy, PartialEq, Eq, Structural)]
pub enum SceneAssetContinuityStatus {
    Pass,
    Warning,
    Fail,
}

#[derive(Debug, Clone, Copy, PartialEq, Eq, Structural)]
pub enum SceneAssetBackgroundSample {
    Corners,
    Edges,
}

#[derive(Debug, Clone, Copy, PartialEq, Eq, Structural)]
pub enum SceneAssetDefringeMode {
    /// No defringing (written `none` in operation files).
    Off,
    White,
}

#[derive(Debug, Clone, Copy, PartialEq, Eq, Structural)]
pub enum SceneAssetHairCleanupMode {
    Decontaminate,
}

#[derive(Debug, Clone, Copy, PartialEq, Eq, Structural)]
pub enum SceneAssetRestoreFilter {
    All,
    NonBackground,
}

#[derive(Debug, Clone, Copy, PartialEq, Eq, Structural)]
pub enum SceneAssetMaskPreviewMode {
    Background,
    ColorRange,
    MagicAdd,
    ChannelMatte,
}

#[derive(Debug, Clone, PartialEq, Eq)]
pub struct SceneAssetExportReport {
    pub source: String,
    pub source_id: String,
    pub character: String,
    pub outputs: Vec<String>,
}

#[derive(Debug, Clone, Copy, PartialEq, Eq, Structural)]
pub struct SceneAssetCutoutQualityReport {
    pub protected_regions: usize,
    pub transparent_pixels: usize,
    pub partial_alpha_pixels: usize,
    pub light_edge_pixels: usize,
}

#[derive(Debug, Clone, Copy, PartialEq, Eq, Structural)]
pub enum SceneAssetReviewPreviewMode {
    RawDiff,
    OverlayDiff,
    AlphaDiff,
    Checkerboard,
    Dark,
    ContactSheet,
}

#[derive(Debug, Clone, PartialEq, Eq)]
pub struct SceneAssetReviewPreviewPaths {
    pub raw_diff: Option<String>,
    pub overlay_diff: Option<String>,
    pub alpha_diff: Option<String>,
    pub checkerboard: Option<String>,
    pub dark: Option<String>,
    pub contact_sheet: Option<String>,
}

#[derive(Debug, Clone, Copy, PartialEq, Eq, Structural)]
pub enum SceneAssetDrawShapeKind {
    Rect,
    Line,
    Polygon,
    Ellipse,
}

#[derive(Debug, Clone, Copy, PartialEq, Eq, Structural)]
pub enum SceneAssetPadAnchor {
    Center,
    BottomCenter,
    TopLeft,
}

#[derive(Debug, Clone, Copy, PartialEq, Eq, Structural)]
pub enum SceneAssetResampleFilter {
    Nearest,
    Lanczos3,
}

#[derive(Debug, Clone, Copy, PartialEq, Eq)]
pub struct SceneAssetPadOptions {
    pub width: u32,
    pub height: u32,
    pub anchor: SceneAssetPadAnchor,
    pub color: [u8; 4],
}

#[derive(Debug, Clone, Copy, PartialEq, Eq, Structural)]
pub enum SceneAssetColorChannel {
    Rgb,
    R,
    G,
    B,
    A,
}

#[derive(Debug, Clone, Copy, PartialEq, Eq, Structural)]
pub enum SceneAssetBlendMode {
    Normal,
    Add,
    Multiply,
    Screen,
}

/// A character's state manifest: named parts, each a set of states keyed by
/// name (kept sorted by name) with a default.
#[derive(Debug, Clone, PartialEq, Eq)]
pub struct SceneAssetStateManifest {
    pub asset_state_version: u64,
    pub character: String,
    pub base: String,
    pub parts: Vec<(String, SceneAssetStatePart)>,
}

#[derive(Debug, Clone, PartialEq, Eq)]
pub struct SceneAssetStatePart {
    pub default: String,
    pub states: Vec<(String, String)>,
}

#[derive(Debug, Clone, PartialEq, Eq)]
pub struct SceneAssetStateManifestOptions {
    pub character: String,
    pub parts: Vec<(String, Vec<String>)>,
}

#[derive(Debug, Clone, PartialEq, Eq)]
pub struct SceneAssetStateRenderOptions {
    pub states: Vec<(String, String)>,
}

#[derive(Debug, Clone, PartialEq, Eq)]
pub struct SceneAssetStateSheetFrame {
    pub label: Option<String>,
    pub states: Vec<(String, String)>,
}

#[derive(Debug, Clone, PartialEq, Eq)]
pub struct SceneAssetStateSheetIndex {
    pub frames: Vec<SceneAssetStateSheetIndexFrame>,
}

#[derive(Debug, Clone, PartialEq, Eq)]
pub struct SceneAssetStateSheetIndexFrame {
    pub index: usize,
    pub label: Option<String>,
    pub x: u32,
    pub y: u32,
    pub w: u32,
    pub h: u32,
    pub states: Vec<(String, String)>,
}

#[derive(Debug, Clone, PartialEq, Eq)]
pub enum SceneAssetEditError {
    ImageFile { path: String, message: String },
    JsonFile { path: String, message: String },
    JsonParse { path: String, message: String },
    UnknownRegion(String),
    InvalidFeatureMap(String),
    InvalidColor(String),
    UnknownExpression(String),
    UnknownAnimation(String),
    InvalidOperation(String),
    OutputExists(String),
}

/// The text an asset-editing error is shown as.
pub open spec fn edit_error_text(e: SceneAssetEditError) -> Seq<char> {
    match e {
        SceneAssetEditError::ImageFile { path, message } => "image file error for `"@ + path@ + "`: "@ + message@,
        SceneAssetEditError::JsonFile { path, message } => "json file error for `"@ + path@ + "`: "@ + message@,
        SceneAssetEditError::JsonParse { path, message } => "json parse error for `"@ + path@ + "`: "@ + message@,
        SceneAssetEditError::UnknownRegion(f0) => "unknown feature region `"@ + f0@ + "`"@,
        SceneAssetEditError::InvalidFeatureMap(f0) => "invalid feature map: "@ + f0@,
        SceneAssetEditError::InvalidColor(f0) => "invalid color `"@ + f0@ + "`; expected #rrggbb or #rrggbbaa"@,
        SceneAssetEditError::UnknownExpression(f0) => "unknown expression `"@ + f0@ + "`"@,
        SceneAssetEditError::UnknownAnimation(f0) => "unknown animation `"@ + f0@ + "`"@,
        SceneAssetEditError::InvalidOperation(f0) => "invalid edit operation: "@ + f0@,
        SceneAssetEditError::OutputExists(f0) => "refusing to overwrite existing file without --force: "@ + f0@,
    }
}

impl SceneAssetEditError {
    /// The error's message.
    pub fn message(&self) -> (s: String)
        ensures
            s@ == edit_error_text(*self),
    {
        match self {
            SceneAssetEditError::ImageFile { path, message } => {
                let mut s = String::from_str("image file error for `");
                s.append(path.as_str());
                s.append("`: ");
                s.append(message.as_str());
                s
            },
            SceneAssetEditError::JsonFile { path, message } => {
                let mut s = String::from_str("json file error for `");
                s.append(path.as_str());
                s.append("`: ");
                s.append(message.as_str());
                s
            },
            SceneAssetEditError::JsonParse { path, message } => {
                let mut s = String::from_str("json parse error for `");
                s.append(path.as_str());
                s.append("`: ");
                s.append(message.as_str());
                s
            },
            SceneAssetEditError::UnknownRegion(f0) => {
                let mut s = String::from_str("unknown feature region `");
                s.append(f0.as_str());
                s.append("`");
                s
            },
            SceneAssetEditError::InvalidFeatureMap(f0) => {
                let mut s = String::from_str("invalid feature map: ");
                s.append(f0.as_str());
                s
            },
            SceneAssetEditError::InvalidColor(f0) => {
                let mut s = String::from_str("invalid color `");
                s.append(f0.as_str());
                s.append("`; expected #rrggbb or #rrggbbaa");
                s
            },
            SceneAssetEditError::UnknownExpression(f0) => {
                let mut s = String::from_str("unknown expression `");
                s.append(f0.as_str());
                s.append("`");
                s
            },
            SceneAssetEditError::UnknownAnimation(f0) => {
                let mut s = String::from_str("unknown animation `");
                s.append(f0.as_str());
                s.append("`");
                s
            },
            SceneAssetEditError::InvalidOperation(f0) => {
                let mut s = String::from_str("invalid edit operation: ");
                s.append(f0.as_str());
                s
            },
            SceneAssetEditError::OutputExists(f0) => {
                let mut s = String::from_str("refusing to overwrite existing file without --force: ");
                s.append(f0.as_str());
                s
            },
        }
    }
}


// ---------------------------------------------------------------- defaults

pub fn default_stroke_width() -> (r: u32)
    ensures
        r == 1,
{
    1
}

pub fn default_magic_tolerance() -> (r: u8)
    ensures
        r == 24,
{
    24
}

pub fn default_background_sample() -> (r: SceneAssetBackgroundSample)
    ensures
        r == SceneAssetBackgroundSample::Corners,
{
    SceneAssetBackgroundSample::Corners
}

pub fn default_defringe_mode() -> (r: SceneAssetDefringeMode)
    ensures
        r == SceneAssetDefringeMode::Off,
{
    SceneAssetDefringeMode::Off
}

pub fn default_hair_cleanup_mode() -> (r: SceneAssetHairCleanupMode)
    ensures
        r == SceneAssetHairCleanupMode::Decontaminate,
{
    SceneAssetHairCleanupMode::Decontaminate
}

pub fn default_hair_cleanup_radius() -> (r: u32)
    ensures
        r == 4,
{
    4
}

pub fn default_restore_filter() -> (r: SceneAssetRestoreFilter)
    ensures
        r == SceneAssetRestoreFilter::All,
{
    SceneAssetRestoreFilter::All
}

pub fn default_channel_matte_threshold() -> (r: u8)
    ensures
        r == 238,
{
    238
}

pub fn default_channel_matte_neutrality() -> (r: u8)
    ensures
        r == 28,
{
    28
}

// ---------------------------------------------------------------- commands

/// The commands an operation or pipeline step may name.
pub open spec fn supported_command(c: Seq<char>) -> bool {
    ||| c == "sample"@
    ||| c == "mask-preview"@
    ||| c == "mask-export"@
    ||| c == "mask-apply-alpha"@
    ||| c == "mask-composite"@
    ||| c == "remove-background"@
    ||| c == "remove-background-polished"@
    ||| c == "color-range-erase"@
    ||| c == "magic-erase-add"@
    ||| c == "hair-cleanup"@
    ||| c == "fill-region"@
    ||| c == "sample-fill"@
    ||| c == "alpha-paint"@
    ||| c == "clone-stamp"@
    ||| c == "draw-shape"@
    ||| c == "stroke-path"@
    ||| c == "crop"@
    ||| c == "pad"@
    ||| c == "transform"@
    ||| c == "levels"@
    ||| c == "brightness-contrast"@
    ||| c == "hsl"@
    ||| c == "blur"@
    ||| c == "unsharp-mask"@
}

/// Every command but the read-only ones (`sample`, `mask-preview`,
/// `mask-export`) produces the source of the next pipeline step.
pub fn pipeline_command_advances_source(command: &str) -> (b: bool)
    ensures
        b == !(command@ == "sample"@ || command@ == "mask-preview"@ || command@ == "mask-export"@),
{
    !(str_equal(command, "sample") || str_equal(command, "mask-preview") || str_equal(
        command,
        "mask-export",
    ))
}

/// A supported command passes; any other is refused by name.
pub fn validate_pipeline_command_name(command: &str) -> (r: Result<(), SceneAssetEditError>)
    ensures
        supported_command(command@) ==> r is Ok,
        !supported_command(command@) ==> (r matches Err(SceneAssetEditError::InvalidOperation(m))
            && m@ == "unsupported pipeline command `"@ + command@ + "`"@),
{
    let names: [&str; 24] = [
        "sample",
        "mask-preview",
        "mask-export",
        "mask-apply-alpha",
        "mask-composite",
        "remove-background",
        "remove-background-polished",
        "color-range-erase",
        "magic-erase-add",
        "hair-cleanup",
        "fill-region",
        "sample-fill",
        "alpha-paint",
        "clone-stamp",
        "draw-shape",
        "stroke-path",
        "crop",
        "pad",
        "transform",
        "levels",
        "brightness-contrast",
        "hsl",
        "blur",
        "unsharp-mask",
    ];
    let mut i: usize = 0;
    while i < 24
        invariant
            i <= 24,
            names@ == seq![
                "sample", "mask-preview", "mask-export", "mask-apply-alpha", "mask-composite",
                "remove-background", "remove-background-polished", "color-range-erase",
                "magic-erase-add", "hair-cleanup", "fill-region", "sample-fill", "alpha-paint",
                "clone-stamp", "draw-shape", "stroke-path", "crop", "pad", "transform", "levels",
                "brightness-contrast", "hsl", "blur", "unsharp-mask",
            ],
            forall|k: int| 0 <= k < i ==> command@ != (#[trigger] names@[k])@,
        decreases 24 - i,
    {
        if str_equal(command, names[i]) {
            return Ok(());
        }
        i = i + 1;
    }
    proof {
        assert(!supported_command(command@)) by {
            assert(command@ != names@[0]@);
            assert(command@ != names@[1]@);
            assert(command@ != names@[2]@);
            assert(command@ != names@[3]@);
            assert(command@ != names@[4]@);
            assert(command@ != names@[5]@);
            assert(command@ != names@[6]@);
            assert(command@ != names@[7]@);
            assert(command@ != names@[8]@);
            assert(command@ != names@[9]@);
            assert(command@ != names@[10]@);
            assert(command@ != names@[11]@);
            assert(command@ != names@[12]@);
            assert(command@ != names@[13]@);
            assert(command@ != names@[14]@);
            assert(command@ != names@[15]@);
            assert(command@ != names@[16]@);
            assert(command@ != names@[17]@);
            assert(command@ != names@[18]@);
            assert(command@ != names@[19]@);
            assert(command@ != names@[20]@);
            assert(command@ != names@[21]@);
            assert(command@ != names@[22]@);
            assert(command@ != names@[23]@);
        }
    }
    let mut m = String::from_str("unsupported pipeline command `");
    m.append(command);
    m.append("`");
    Err(SceneAssetEditError::InvalidOperation(m))
}

/// The pixel channels a colour channel selector names.
pub open spec fn channels_of(c: SceneAssetColorChannel) -> Seq<usize> {
    match c {
        SceneAssetColorChannel::Rgb => seq![0usize, 1, 2],
        SceneAssetColorChannel::R => seq![0usize],
        SceneAssetColorChannel::G => seq![1usize],
        SceneAssetColorChannel::B => seq![2usize],
        SceneAssetColorChannel::A => seq![3usize],
    }
}

pub fn color_channels(channel: SceneAssetColorChannel) -> (r: Vec<usize>)
    ensures
        r@ == channels_of(channel),
{
    let mut v: Vec<usize> = Vec::new();
    match channel {
        SceneAssetColorChannel::Rgb => {
            v.push(0);
            v.push(1);
            v.push(2);
        },
        SceneAssetColorChannel::R => v.push(0),
        SceneAssetColorChannel::G => v.push(1),
        SceneAssetColorChannel::B => v.push(2),
        SceneAssetColorChannel::A => v.push(3),
    }
    proof {
        assert(v@ =~= channels_of(channel));
    }
    v
}

// ---------------------------------------------------------------- operation ids

pub open spec fn id_char(c: char) -> char {
    if ('a' <= c && c <= 'z') || ('A' <= c && c <= 'Z') || ('0' <= c && c <= '9') || c == '-' || c
        == '_' {
        c
    } else {
        '-'
    }
}

/// Index of the first character other than `-` at or after `i`.
pub open spec fn first_non_dash(s: Seq<char>, i: int) -> int
    decreases s.len() - i,
{
    if i < 0 || i >= s.len() {
        s.len() as int
    } else if s[i] != '-' {
        i
    } else {
        first_non_dash(s, i + 1)
    }
}

/// One past the last character other than `-` before `j`.
pub open spec fn last_non_dash(s: Seq<char>, j: int) -> int
    decreases j,
{
    if j <= 0 {
        0
    } else if s[j - 1] != '-' {
        j
    } else {
        last_non_dash(s, j - 1)
    }
}

/// An operation id made safe for file names: characters other than ASCII
/// letters, digits, `-` and `_` become `-`, leading and trailing `-` are
/// dropped, and an id left empty becomes `operation`.
pub open spec fn sanitized_id(id: Seq<char>) -> Seq<char> {
    let m = id.map_values(|c: char| id_char(c));
    let a = first_non_dash(m, 0);
    if a >= m.len() {
        "operation"@
    } else {
        m.subrange(a, last_non_dash(m, m.len() as int))
    }
}

proof fn lemma_dash_bounds(s: Seq<char>, i: int, j: int)
    requires
        0 <= i <= s.len(),
        0 <= j <= s.len(),
    ensures
        i <= first_non_dash(s, i) <= s.len(),
        0 <= last_non_dash(s, j) <= j,
        first_non_dash(s, i) < s.len() ==> s[first_non_dash(s, i)] != '-',
        last_non_dash(s, j) > 0 ==> s[last_non_dash(s, j) - 1] != '-',
        forall|k: int| i <= k < first_non_dash(s, i) ==> s[k] == '-',
        forall|k: int| last_non_dash(s, j) <= k < j ==> s[k] == '-',
    decreases s.len() - i + j,
{
    if i < s.len() && s[i] == '-' {
        lemma_dash_bounds(s, i + 1, j);
    }
    if j > 0 && s[j - 1] == '-' {
        lemma_dash_bounds(s, i, j - 1);
    }
}

pub fn sanitize_operation_id(id: &str) -> (r: String)
    ensures
        r@ == sanitized_id(id@),
{
    let cs = crate::text::chars_of(id);
    let ghost f = |c: char| id_char(c);
    let mut m: Vec<char> = Vec::new();
    let mut i: usize = 0;
    while i < cs.len()
        invariant
            cs@ == id@,
            i <= cs@.len(),
            f == (|c: char| id_char(c)),
            m@ == cs@.take(i as int).map_values(f),
        decreases cs.len() - i,
    {
        let c = cs[i];
        let d = if ('a' <= c && c <= 'z') || ('A' <= c && c <= 'Z') || ('0' <= c && c <= '9') || c
            == '-' || c == '_' {
            c
        } else {
            '-'
        };
        m.push(d);
        proof {
            assert(m@ =~= cs@.take(i + 1).map_values(f));
        }
        i = i + 1;
    }
    proof {
        assert(cs@.take(cs@.len() as int) =~= cs@);
    }
    let ghost ms = m@;
    let mut a: usize = 0;
    while a < m.len() && m[a] == '-'
        invariant
            ms == m@,
            a <= ms.len(),
            first_non_dash(ms, a as int) == first_non_dash(ms, 0),
        decreases m.len() - a,
    {
        a = a + 1;
    }
    if a >= m.len() {
        return String::from_str("operation");
    }
    let mut b: usize = m.len();
    while b > 0 && m[b - 1] == '-'
        invariant
            ms == m@,
            b <= ms.len(),
            last_non_dash(ms, b as int) == last_non_dash(ms, ms.len() as int),
        decreases b,
    {
        b = b - 1;
    }
    proof {
        lemma_dash_bounds(ms, a as int, ms.len() as int);
        assert(a < b);
    }
    let mut out: Vec<char> = Vec::new();
    let mut k: usize = a;
    while k < b
        invariant
            ms == m@,
            a <= k <= b <= ms.len(),
            out@ == ms.subrange(a as int, k as int),
        decreases b - k,
    {
        out.push(m[k]);
        proof {
            assert(out@ =~= ms.subrange(a as int, k + 1));
        }
        k = k + 1;
    }
    string_from_chars(out.as_slice())
}

// ---------------------------------------------------------------- error reports

/// `needle` occurs in `hay`.
pub open spec fn has_sub(hay: Seq<char>, needle: Seq<char>) -> bool {
    exists|i: int| 0 <= i && i + needle.len() <= hay.len() && #[trigger] hay.subrange(i, i + needle.len()) == needle
}

/// `hay.contains(needle)`.
pub fn contains_text(hay: &str, needle: &str) -> (b: bool)
    ensures
        b == has_sub(hay@, needle@),
{
    let h = crate::text::chars_of(hay);
    let n = crate::text::chars_of(needle);
    let hl = h.len();
    let nl = n.len();
    if nl > hl {
        return false;
    }
    let last = hl - nl;
    let mut i: usize = 0;
    while i <= last
        invariant
            h@ == hay@,
            n@ == needle@,
            hl == h@.len(),
            nl == n@.len(),
            last == hl - nl,
            i <= last,
            forall|k: int| 0 <= k < i ==> #[trigger] h@.subrange(k, k + n@.len()) != n@,
        decreases last - i,
    {
        let mut j: usize = 0;
        let mut same = true;
        proof {
            assert(h@.subrange(i as int, i as int) =~= n@.take(0));
        }
        while j < nl
            invariant
                h@ == hay@,
                n@ == needle@,
                hl == h@.len(),
                nl == n@.len(),
                i + nl <= hl,
                j <= nl,
                same == (h@.subrange(i as int, i + j) == n@.take(j as int)),
            decreases nl - j,
        {
            proof {
                assert(h@.subrange(i as int, i + j + 1) =~= h@.subrange(i as int, i + j).push(h@[i + j]));
                assert(n@.take(j + 1) =~= n@.take(j as int).push(n@[j as int]));
                if h@.subrange(i as int, i + j + 1) == n@.take(j + 1) {
                    assert(h@.subrange(i as int, i + j) =~= h@.subrange(i as int, i + j + 1).take(j as int));
                    assert(n@.take(j as int) =~= n@.take(j + 1).take(j as int));
                    assert(h@[i + j] == h@.subrange(i as int, i + j + 1)[j as int]);
                }
            }
            same = same && h[i + j] == n[j];
            j = j + 1;
        }
        proof {
            assert(n@.take(n@.len() as int) =~= n@);
        }
        if same {
            return true;
        }
        if i == last {
            return false;
        }
        i = i + 1;
    }
    false
}

pub open spec fn error_code_hint(e: SceneAssetEditError) -> (Seq<char>, Seq<char>) {
    match e {
        SceneAssetEditError::ImageFile { message, .. } => if has_sub(
            message@,
            "operation source does not exist"@,
        ) {
            ("missing_source"@, "Check the operation `source` path and input root."@)
        } else {
            (
                "image_file"@,
                "Check that the image path exists and is a readable PNG or supported image file."@,
            )
        },
        SceneAssetEditError::JsonFile { .. } => (
            "json_file"@,
            "Check that the JSON path exists and is readable."@,
        ),
        SceneAssetEditError::JsonParse { .. } => (
            "json_parse"@,
            "Validate the JSON syntax and schema version."@,
        ),
        SceneAssetEditError::UnknownRegion(_) => (
            "unknown_region"@,
            "Run map-template or choose a region that exists in the feature map."@,
        ),
        SceneAssetEditError::InvalidFeatureMap(_) => (
            "invalid_feature_map"@,
            "Run validate-map against the image and feature map."@,
        ),
        SceneAssetEditError::InvalidColor(_) => (
            "invalid_color"@,
            "Use #rrggbb or #rrggbbaa color syntax."@,
        ),
        SceneAssetEditError::UnknownExpression(_) => (
            "unknown_expression"@,
            "Choose an expression listed in the recipe book."@,
        ),
        SceneAssetEditError::UnknownAnimation(_) => (
            "unknown_animation"@,
            "Choose an animation listed in the recipe book."@,
        ),
        SceneAssetEditError::InvalidOperation(m) => if has_sub(
            m@,
            "unsupported pipeline command"@,
        ) {
            ("unknown_command"@, "Choose one of the supported scene_asset_edit operation commands."@)
        } else if has_sub(m@, "is required"@) || has_sub(m@, "requires"@) {
            ("missing_argument"@, "Add the required field or argument to the operation JSON."@)
        } else if has_sub(m@, "must be"@) {
            ("invalid_argument"@, "Adjust the argument type or value in the operation JSON."@)
        } else {
            (
                "invalid_operation"@,
                "Inspect the operation command and args, then run with --dry-run first."@,
            )
        },
        SceneAssetEditError::OutputExists(_) => (
            "output_exists"@,
            "Choose a new output path or pass --force when overwriting is intended."@,
        ),
    }
}

/// The machine-readable report of a failed operation: a stable code, the
/// error's message and a hint for fixing it.
pub fn scene_asset_operation_error_report(error: &SceneAssetEditError) -> (r: SceneAssetOperationErrorReport)
    ensures
        r.operation@ == "operation_error"@,
        r.status@ == "error"@,
        r.code@ == error_code_hint(*error).0,
        r.message@ == edit_error_text(*error),
        r.hint matches Some(h) && h@ == error_code_hint(*error).1,
{
    let (code, hint): (&str, &str) = match error {
        SceneAssetEditError::ImageFile { message, .. } => {
            if contains_text(message.as_str(), "operation source does not exist") {
                ("missing_source", "Check the operation `source` path and input root.")
            } else {
                (
                    "image_file",
                    "Check that the image path exists and is a readable PNG or supported image file.",
                )
            }
        },
        SceneAssetEditError::JsonFile { .. } => (
            "json_file",
            "Check that the JSON path exists and is readable.",
        ),
        SceneAssetEditError::JsonParse { .. } => (
            "json_parse",
            "Validate the JSON syntax and schema version.",
        ),
        SceneAssetEditError::UnknownRegion(_) => (
            "unknown_region",
            "Run map-template or choose a region that exists in the feature map.",
        ),
        SceneAssetEditError::InvalidFeatureMap(_) => (
            "invalid_feature_map",
            "Run validate-map against the image and feature map.",
        ),
        SceneAssetEditError::InvalidColor(_) => (
            "invalid_color",
            "Use #rrggbb or #rrggbbaa color syntax.",
        ),
        SceneAssetEditError::UnknownExpression(_) => (
            "unknown_expression",
            "Choose an expression listed in the recipe book.",
        ),
        SceneAssetEditError::UnknownAnimation(_) => (
            "unknown_animation",
            "Choose an animation listed in the recipe book.",
        ),
        SceneAssetEditError::InvalidOperation(m) => {
            if contains_text(m.as_str(), "unsupported pipeline command") {
                ("unknown_command", "Choose one of the supported scene_asset_edit operation commands.")
            } else if contains_text(m.as_str(), "is required") || contains_text(m.as_str(), "requires") {
                ("missing_argument", "Add the required field or argument to the operation JSON.")
            } else if contains_text(m.as_str(), "must be") {
                ("invalid_argument", "Adjust the argument type or value in the operation JSON.")
            } else {
                (
                    "invalid_operation",
                    "Inspect the operation command and args, then run with --dry-run first.",
                )
            }
        },
        SceneAssetEditError::OutputExists(_) => (
            "output_exists",
            "Choose a new output path or pass --force when overwriting is intended.",
        ),
    };
    SceneAssetOperationErrorReport {
        operation: String::from_str("operation_error"),
        status: String::from_str("error"),
        code: String::from_str(code),
        message: error.message(),
        hint: Some(String::from_str(hint)),
    }
}

// ---------------------------------------------------------------- continuity

pub open spec fn abs_diff(a: u32, b: u32) -> nat {
    if a >= b { (a - b) as nat } else { (b - a) as nat }
}

pub open spec fn max_nat(a: nat, b: nat) -> nat {
    if a >= b { a } else { b }
}

/// How far `r` lies from `first` on its worst edge.
pub open spec fn drift(first: SceneAssetPixelRect, r: SceneAssetPixelRect) -> nat {
    max_nat(
        max_nat(abs_diff(first.x, r.x), abs_diff(first.y, r.y)),
        max_nat(
            abs_diff(crate::mask::sat_add_u32(first.x, first.w), crate::mask::sat_add_u32(r.x, r.w)),
            abs_diff(crate::mask::sat_add_u32(first.y, first.h), crate::mask::sat_add_u32(r.y, r.h)),
        ),
    )
}

/// The largest drift from `first` among the frames with content.
pub open spec fn max_drift(rects: Seq<Option<SceneAssetPixelRect>>, first: SceneAssetPixelRect) -> nat
    decreases rects.len(),
{
    if rects.len() == 0 {
        0
    } else {
        let prev = max_drift(rects.drop_last(), first);
        match rects.last() {
            Some(r) => max_nat(prev, drift(first, r)),
            None => prev,
        }
    }
}

pub open spec fn is_some_rect() -> spec_fn(Option<SceneAssetPixelRect>) -> bool {
    |o: Option<SceneAssetPixelRect>| o is Some
}

proof fn lemma_max_drift_bound(rects: Seq<Option<SceneAssetPixelRect>>, first: SceneAssetPixelRect)
    ensures
        max_drift(rects, first) <= u32::MAX,
    decreases rects.len(),
{
    if rects.len() > 0 {
        lemma_max_drift_bound(rects.drop_last(), first);
    }
}

/// Whether the content of a frame sequence stays in place: the largest
/// drift of any frame's content bounds from the first frame's, against the
/// tolerance. No frame with content is a warning.
pub fn continuity_drift_status(rects: &[Option<SceneAssetPixelRect>], drift_tolerance_px: u32) -> (c: SceneAssetContinuityCheck)
    ensures
        c.name@ == "content_bounds"@,
        ({
            let i = crate::conditions::first_index(rects@, is_some_rect());
            if i >= rects@.len() {
                c.status == SceneAssetContinuityStatus::Warning && c.detail@
                    == "no visible content in any frame"@
            } else {
                let first = rects@[i]->Some_0;
                let d = max_drift(rects@, first);
                &&& c.status == (if d <= drift_tolerance_px {
                    SceneAssetContinuityStatus::Pass
                } else {
                    SceneAssetContinuityStatus::Warning
                })
                &&& c.detail@ == "max drift "@ + dec(d) + "px, tolerance "@ + dec(
                    drift_tolerance_px as nat,
                ) + "px"@
            }
        }),
{
    let ghost p = is_some_rect();
    let mut i: usize = 0;
    while i < rects.len() && rects[i].is_none()
        invariant
            i <= rects@.len(),
            p == is_some_rect(),
            crate::conditions::first_from(rects@, p, i as int) == crate::conditions::first_index(rects@, p),
        decreases rects.len() - i,
    {
        i = i + 1;
    }
    if i >= rects.len() {
        return SceneAssetContinuityCheck {
            name: String::from_str("content_bounds"),
            status: SceneAssetContinuityStatus::Warning,
            detail: String::from_str("no visible content in any frame"),
        };
    }
    let first = match rects[i] {
        Some(r) => r,
        None => SceneAssetPixelRect { x: 0, y: 0, w: 0, h: 0 },
    };
    let mut max: u32 = 0;
    let mut k: usize = 0;
    while k < rects.len()
        invariant
            k <= rects@.len(),
            max == max_drift(rects@.take(k as int), first),
        decreases rects.len() - k,
    {
        proof {
            assert(rects@.take(k + 1).drop_last() =~= rects@.take(k as int));
            lemma_max_drift_bound(rects@.take(k + 1), first);
        }
        match rects[k] {
            Some(r) => {
                let dx = if first.x >= r.x { first.x - r.x } else { r.x - first.x };
                let dy = if first.y >= r.y { first.y - r.y } else { r.y - first.y };
                let fr = first.right();
                let rr = r.right();
                let fb = first.bottom();
                let rb = r.bottom();
                let dr = if fr >= rr { fr - rr } else { rr - fr };
                let db = if fb >= rb { fb - rb } else { rb - fb };
                let a = if dx >= dy { dx } else { dy };
                let b = if dr >= db { dr } else { db };
                let d = if a >= b { a } else { b };
                if d > max {
                    max = d;
                }
            },
            None => {},
        }
        k = k + 1;
    }
    proof {
        assert(rects@.take(rects@.len() as int) =~= rects@);
    }
    let status = if max <= drift_tolerance_px {
        SceneAssetContinuityStatus::Pass
    } else {
        SceneAssetContinuityStatus::Warning
    };
    let mut detail = String::from_str("max drift ");
    let m = u32_text(max);
    detail.append(m.as_str());
    detail.append("px, tolerance ");
    let t = u32_text(drift_tolerance_px);
    detail.append(t.as_str());
    detail.append("px");
    SceneAssetContinuityCheck { name: String::from_str("content_bounds"), status, detail }
}

// ---------------------------------------------------------------- median

/// How many values are at most `v`.
pub open spec fn count_at_most(vals: Seq<u8>, v: int) -> nat
    decreases vals.len(),
{
    if vals.len() == 0 {
        0
    } else {
        count_at_most(vals.drop_last(), v) + if vals.last() <= v { 1nat } else { 0nat }
    }
}

proof fn lemma_count_all(vals: Seq<u8>)
    ensures
        count_at_most(vals, 255) == vals.len(),
    decreases vals.len(),
{
    if vals.len() > 0 {
        lemma_count_all(vals.drop_last());
    }
}

/// The values of one channel.
pub open spec fn channel_values(colors: Seq<[u8; 3]>, channel: int) -> Seq<u8> {
    colors.map_values(|c: [u8; 3]| c@[channel])
}

/// The median of one channel: the middle value (the upper one of an even
/// count) once the values are sorted.
pub fn median_channel(colors: &[[u8; 3]], channel: usize) -> (m: u8)
    requires
        colors@.len() > 0,
        channel < 3,
    ensures
        count_at_most(channel_values(colors@, channel as int), m as int) > colors@.len() / 2,
        m > 0 ==> count_at_most(channel_values(colors@, channel as int), m - 1) <= colors@.len() / 2,
{
    let ghost vals = channel_values(colors@, channel as int);
    let half = colors.len() / 2;
    let mut v: u32 = 0;
    while v < 256
        invariant
            v <= 256,
            vals == channel_values(colors@, channel as int),
            half == colors@.len() / 2,
            colors@.len() > 0,
            channel < 3,
            v > 0 ==> count_at_most(vals, v - 1) <= half,
        decreases 256 - v,
    {
        let mut c: usize = 0;
        let mut i: usize = 0;
        while i < colors.len()
            invariant
                i <= colors@.len(),
                c <= i,
                vals == channel_values(colors@, channel as int),
                channel < 3,
                c == count_at_most(vals.take(i as int), v as int),
            decreases colors.len() - i,
        {
            proof {
                assert(vals.take(i + 1).drop_last() =~= vals.take(i as int));
                assert(vals.take(i + 1).last() == colors@[i as int]@[channel as int]);
            }
            if (colors[i][channel] as u32) <= v {
                c = c + 1;
            }
            i = i + 1;
        }
        proof {
            assert(vals.take(colors@.len() as int) =~= vals);
        }
        if c > half {
            return v as u8;
        }
        v = v + 1;
    }
    proof {
        lemma_count_all(vals);
    }
    255
}


// ---------------------------------------------------------------- number parsing

/// Why integer text does not parse, as the standard parser reports it.
#[derive(Debug, Clone, Copy, PartialEq, Eq, Structural)]
pub enum IntTextError {
    Empty,
    InvalidDigit,
    PosOverflow,
    NegOverflow,
}

pub open spec fn int_error_text(e: IntTextError) -> Seq<char> {
    match e {
        IntTextError::Empty => "cannot parse integer from empty string"@,
        IntTextError::InvalidDigit => "invalid digit found in string"@,
        IntTextError::PosOverflow => "number too large to fit in target type"@,
        IntTextError::NegOverflow => "number too small to fit in target type"@,
    }
}

pub open spec fn digit_value(c: char, radix: int) -> Option<int> {
    if '0' <= c && c <= '9' && (c as int) - ('0' as int) < radix {
        Some((c as int) - ('0' as int))
    } else if radix == 16 && 'a' <= c && c <= 'f' {
        Some((c as int) - ('a' as int) + 10)
    } else if radix == 16 && 'A' <= c && c <= 'F' {
        Some((c as int) - ('A' as int) + 10)
    } else {
        None
    }
}

/// The value of the first `n` digits, read left to right; the first
/// invalid digit or overflow past `[lo, hi]` stops the reading.
pub open spec fn digits_value(ds: Seq<char>, n: int, radix: int, neg: bool, lo: int, hi: int) -> Result<
    int,
    IntTextError,
>
    decreases n,
{
    if n <= 0 {
        Ok(0)
    } else {
        match digits_value(ds, n - 1, radix, neg, lo, hi) {
            Err(e) => Err(e),
            Ok(acc) => match digit_value(ds[n - 1], radix) {
                None => Err(IntTextError::InvalidDigit),
                Some(d) => {
                    let v = if neg { acc * radix - d } else { acc * radix + d };
                    if v > hi {
                        Err(IntTextError::PosOverflow)
                    } else if v < lo {
                        Err(IntTextError::NegOverflow)
                    } else {
                        Ok(v)
                    }
                },
            },
        }
    }
}

/// Integer text in `radix` within `[lo, hi]`, with an optional sign (`-`
/// only when `signed`).
pub open spec fn int_text_value(s: Seq<char>, radix: int, signed: bool, lo: int, hi: int) -> Result<
    int,
    IntTextError,
> {
    if s.len() == 0 {
        Err(IntTextError::Empty)
    } else if (s[0] == '+' || s[0] == '-') && s.len() == 1 {
        Err(IntTextError::InvalidDigit)
    } else if s[0] == '+' {
        digits_value(s.skip(1), s.len() - 1, radix, false, lo, hi)
    } else if s[0] == '-' && signed {
        digits_value(s.skip(1), s.len() - 1, radix, true, lo, hi)
    } else {
        digits_value(s, s.len() as int, radix, false, lo, hi)
    }
}

fn parse_int_text(s: &str, radix: u32, signed: bool, lo: i64, hi: i64) -> (r: Result<i64, IntTextError>)
    requires
        radix == 10 || radix == 16,
        -0x8000_0000 <= lo <= 0 <= hi <= 0x7fff_ffff,
    ensures
        match int_text_value(s@, radix as int, signed, lo as int, hi as int) {
            Ok(v) => r == Ok::<i64, IntTextError>(v as i64),
            Err(e) => r == Err::<i64, IntTextError>(e),
        },
{
    let cs = crate::text::chars_of(s);
    if cs.len() == 0 {
        return Err(IntTextError::Empty);
    }
    if (cs[0] == '+' || cs[0] == '-') && cs.len() == 1 {
        return Err(IntTextError::InvalidDigit);
    }
    let (start, neg): (usize, bool) = if cs[0] == '+' {
        (1, false)
    } else if cs[0] == '-' && signed {
        (1, true)
    } else {
        (0, false)
    };
    let ghost ds = cs@.skip(start as int);
    proof {
        if start == 0 {
            assert(ds =~= s@);
        }
        assert(int_text_value(s@, radix as int, signed, lo as int, hi as int) == digits_value(
            ds,
            ds.len() as int,
            radix as int,
            neg,
            lo as int,
            hi as int,
        ));
    }
    let mut acc: i64 = 0;
    let mut k: usize = start;
    while k < cs.len()
        invariant
            cs@ == s@,
            start <= k <= cs@.len(),
            start <= 1,
            ds == cs@.skip(start as int),
            radix == 10 || radix == 16,
            -0x8000_0000 <= lo <= 0 <= hi <= 0x7fff_ffff,
            lo <= acc <= hi,
            ds.len() == cs@.len() - start,
            int_text_value(s@, radix as int, signed, lo as int, hi as int) == digits_value(
                ds,
                ds.len() as int,
                radix as int,
                neg,
                lo as int,
                hi as int,
            ),
            digits_value(ds, k - start, radix as int, neg, lo as int, hi as int) == Ok::<
                int,
                IntTextError,
            >(acc as int),
        decreases cs.len() - k,
    {
        let c = cs[k];
        proof {
            assert(ds[k - start] == c);
        }
        let d: i64 = if '0' <= c && c <= '9' && ((c as u32) - ('0' as u32)) < radix {
            ((c as u32) - ('0' as u32)) as i64
        } else if radix == 16 && 'a' <= c && c <= 'f' {
            ((c as u32) - ('a' as u32) + 10) as i64
        } else if radix == 16 && 'A' <= c && c <= 'F' {
            ((c as u32) - ('A' as u32) + 10) as i64
        } else {
            proof {
                crate::asset::lemma_digits_stop(ds, (k - start) as int, ds.len() as int, radix as int, neg, lo as int, hi as int);
            }
            return Err(IntTextError::InvalidDigit);
        };
        proof {
            assert(-0x8000_0000 * 16 <= acc * (radix as int) <= 0x7fff_ffff * 16) by (nonlinear_arith)
                requires
                    -0x8000_0000 <= acc <= 0x7fff_ffff,
                    1 <= radix <= 16,
            ;
            assert(0 <= d < 16);
        }
        let v: i64 = if neg {
            acc * (radix as i64) - d
        } else {
            acc * (radix as i64) + d
        };
        if v > hi {
            proof {
                crate::asset::lemma_digits_stop(ds, (k - start) as int, ds.len() as int, radix as int, neg, lo as int, hi as int);
            }
            return Err(IntTextError::PosOverflow);
        }
        if v < lo {
            proof {
                crate::asset::lemma_digits_stop(ds, (k - start) as int, ds.len() as int, radix as int, neg, lo as int, hi as int);
            }
            return Err(IntTextError::NegOverflow);
        }
        acc = v;
        k = k + 1;
    }
    proof {
        assert(cs@.len() - start == ds.len());
    }
    Ok(acc)
}

/// Once reading stops with an error at digit `i`, later digits do not
/// change the outcome.
pub proof fn lemma_digits_stop(ds: Seq<char>, i: int, n: int, radix: int, neg: bool, lo: int, hi: int)
    requires
        0 <= i < n <= ds.len(),
        digits_value(ds, i + 1, radix, neg, lo, hi) is Err,
    ensures
        digits_value(ds, n, radix, neg, lo, hi) == digits_value(ds, i + 1, radix, neg, lo, hi),
    decreases n - i,
{
    if n > i + 1 {
        lemma_digits_stop(ds, i, n - 1, radix, neg, lo, hi);
    }
}

/// One byte written in hexadecimal, as `u8::from_str_radix(text, 16)`
/// reads it; anything else is reported as an invalid colour.
pub fn parse_hex_byte(color: &str, text: &str) -> (r: Result<u8, SceneAssetEditError>)
    ensures
        match int_text_value(text@, 16, false, 0, 255) {
            Ok(v) => r == Ok::<u8, SceneAssetEditError>(v as u8),
            Err(_) => r matches Err(SceneAssetEditError::InvalidColor(c)) && c@ == color@,
        },
{
    match parse_int_text(text, 16, false, 0, 255) {
        Ok(v) => Ok(v as u8),
        Err(_) => Err(SceneAssetEditError::InvalidColor(String::from_str(color))),
    }
}

pub open spec fn comma_at(s: Seq<char>) -> int {
    crate::conditions::first_index(s, |c: char| c == ',')
}

pub open spec fn pair_error(key: Seq<char>, axis: Seq<char>, part: Seq<char>, e: IntTextError) -> Seq<char> {
    "pipeline `"@ + key + "` "@ + axis + " value `"@ + part + "` is invalid: "@ + int_error_text(e)
}

/// An `X,Y` pair of `i32` values (each side trimmed), or why it is not one.
pub open spec fn i32_pair(value: Seq<char>, key: Seq<char>) -> Result<(int, int), Seq<char>> {
    let c = comma_at(value);
    if c >= value.len() {
        Err("pipeline `"@ + key + "` value `"@ + value + "` is invalid; expected X,Y"@)
    } else {
        let x = value.take(c);
        let y = value.skip(c + 1);
        match int_text_value(trim_seq(x), 10, true, i32::MIN as int, i32::MAX as int) {
            Err(e) => Err(pair_error(key, "x"@, x, e)),
            Ok(xv) => match int_text_value(trim_seq(y), 10, true, i32::MIN as int, i32::MAX as int) {
                Err(e) => Err(pair_error(key, "y"@, y, e)),
                Ok(yv) => Ok((xv, yv)),
            },
        }
    }
}

fn int_error_message(e: IntTextError) -> (s: &'static str)
    ensures
        s@ == int_error_text(e),
{
    match e {
        IntTextError::Empty => "cannot parse integer from empty string",
        IntTextError::InvalidDigit => "invalid digit found in string",
        IntTextError::PosOverflow => "number too large to fit in target type",
        IntTextError::NegOverflow => "number too small to fit in target type",
    }
}

fn pair_error_message(key: &str, axis: &str, part: &str, e: IntTextError) -> (s: String)
    ensures
        s@ == pair_error(key@, axis@, part@, e),
{
    let mut s = String::from_str("pipeline `");
    s.append(key);
    s.append("` ");
    s.append(axis);
    s.append(" value `");
    s.append(part);
    s.append("` is invalid: ");
    s.append(int_error_message(e));
    s
}

/// Reads an `X,Y` pair for pipeline argument `key`.
pub fn parse_i32_pair_text(value: &str, key: &str) -> (r: Result<(i32, i32), SceneAssetEditError>)
    ensures
        match i32_pair(value@, key@) {
            Ok((x, y)) => r == Ok::<(i32, i32), SceneAssetEditError>((x as i32, y as i32)),
            Err(m) => r matches Err(SceneAssetEditError::InvalidOperation(t)) && t@ == m,
        },
{
    let cs = crate::text::chars_of(value);
    let ghost p = |c: char| c == ',';
    let mut c: usize = 0;
    while c < cs.len() && cs[c] != ','
        invariant
            cs@ == value@,
            c <= cs@.len(),
            p == (|c: char| c == ','),
            crate::conditions::first_from(value@, p, c as int) == comma_at(value@),
        decreases cs.len() - c,
    {
        c = c + 1;
    }
    if c >= cs.len() {
        let mut m = String::from_str("pipeline `");
        m.append(key);
        m.append("` value `");
        m.append(value);
        m.append("` is invalid; expected X,Y");
        return Err(SceneAssetEditError::InvalidOperation(m));
    }
    let mut xs: Vec<char> = Vec::new();
    let mut i: usize = 0;
    while i < c
        invariant
            cs@ == value@,
            c < cs@.len(),
            i <= c,
            xs@ == cs@.take(i as int),
        decreases c - i,
    {
        xs.push(cs[i]);
        i = i + 1;
    }
    let mut ys: Vec<char> = Vec::new();
    let mut j: usize = c + 1;
    while j < cs.len()
        invariant
            cs@ == value@,
            c < cs@.len(),
            c + 1 <= j <= cs@.len(),
            ys@ == cs@.subrange(c + 1, j as int),
        decreases cs.len() - j,
    {
        ys.push(cs[j]);
        j = j + 1;
    }
    proof {
        assert(ys@ =~= value@.skip(c + 1));
    }
    let x = string_from_chars(xs.as_slice());
    let y = string_from_chars(ys.as_slice());
    let xt = crate::text::trim(x.as_str());
    let xv = match parse_int_text(xt.as_str(), 10, true, -0x8000_0000, 0x7fff_ffff) {
        Ok(v) => v,
        Err(e) => {
            return Err(SceneAssetEditError::InvalidOperation(
                pair_error_message(key, "x", x.as_str(), e),
            ));
        },
    };
    let yt = crate::text::trim(y.as_str());
    let yv = match parse_int_text(yt.as_str(), 10, true, -0x8000_0000, 0x7fff_ffff) {
        Ok(v) => v,
        Err(e) => {
            return Err(SceneAssetEditError::InvalidOperation(
                pair_error_message(key, "y", y.as_str(), e),
            ));
        },
    };
    Ok((xv as i32, yv as i32))
}

/// The detail of a frame whose size differs from the first frame's.
pub open spec fn dimension_detail(path: Seq<char>, d: SceneAssetDimensions, expected: SceneAssetDimensions) -> Seq<char> {
    path + " is "@ + dec(d.width as nat) + "x"@ + dec(d.height as nat) + ", expected "@ + dec(expected.width as nat)
        + "x"@ + dec(expected.height as nat)
}

/// The details of the frames whose size differs from `expected`, in order.
pub open spec fn dimension_mismatches(frames: Seq<(String, SceneAssetDimensions)>, expected: SceneAssetDimensions) -> Seq<
    Seq<char>,
>
    decreases frames.len(),
{
    if frames.len() == 0 {
        seq![]
    } else {
        let rest = dimension_mismatches(frames.drop_last(), expected);
        if frames.last().1 != expected {
            rest.push(dimension_detail(frames.last().0@, frames.last().1, expected))
        } else {
            rest
        }
    }
}

/// Whether a frame sequence keeps one size: the first frame's size, and a
/// failed `dimensions` check for each frame of another size, in order, or a
/// single passed check when there is none.
pub fn continuity_dimension_checks(frames: &[(String, SceneAssetDimensions)]) -> (r: (
    Option<SceneAssetDimensions>,
    Vec<SceneAssetContinuityCheck>,
))
    ensures
        frames@.len() == 0 ==> r.0 is None,
        frames@.len() > 0 ==> r.0 == Some(frames@[0].1),
        ({
            let details = if frames@.len() == 0 {
                seq![]
            } else {
                dimension_mismatches(frames@, frames@[0].1)
            };
            &&& details.len() == 0 ==> r.1@.len() == 1 && r.1@[0].name@ == "dimensions"@ && r.1@[0].status
                == SceneAssetContinuityStatus::Pass && r.1@[0].detail@ == "all frames have matching dimensions"@
            &&& details.len() > 0 ==> r.1@.len() == details.len() && forall|i: int|
                0 <= i < details.len() ==> (#[trigger] r.1@[i]).name@ == "dimensions"@ && r.1@[i].status
                    == SceneAssetContinuityStatus::Fail && r.1@[i].detail@ == details[i]
        }),
{
    let mut checks: Vec<SceneAssetContinuityCheck> = Vec::new();
    if frames.len() == 0 {
        checks.push(
            SceneAssetContinuityCheck {
                name: String::from_str("dimensions"),
                status: SceneAssetContinuityStatus::Pass,
                detail: String::from_str("all frames have matching dimensions"),
            },
        );
        return (None, checks);
    }
    let expected = frames[0].1;
    let mut k: usize = 0;
    while k < frames.len()
        invariant
            k <= frames@.len(),
            expected == frames@[0].1,
            frames@.len() > 0,
            checks@.len() == dimension_mismatches(frames@.take(k as int), expected).len(),
            forall|i: int|
                0 <= i < checks@.len() ==> (#[trigger] checks@[i]).name@ == "dimensions"@ && checks@[i].status
                    == SceneAssetContinuityStatus::Fail && checks@[i].detail@ == dimension_mismatches(
                    frames@.take(k as int),
                    expected,
                )[i],
        decreases frames.len() - k,
    {
        proof {
            assert(frames@.take(k + 1).drop_last() =~= frames@.take(k as int));
            assert(frames@.take(k + 1).last() == frames@[k as int]);
        }
        let d = frames[k].1;
        if d.width != expected.width || d.height != expected.height {
            let mut m = frames[k].0.clone();
            m.append(" is ");
            m.append(&u32_text(d.width));
            m.append("x");
            m.append(&u32_text(d.height));
            m.append(", expected ");
            m.append(&u32_text(expected.width));
            m.append("x");
            m.append(&u32_text(expected.height));
            checks.push(
                SceneAssetContinuityCheck {
                    name: String::from_str("dimensions"),
                    status: SceneAssetContinuityStatus::Fail,
                    detail: m,
                },
            );
        }
        k = k + 1;
    }
    proof {
        assert(frames@.take(frames@.len() as int) =~= frames@);
    }
    if checks.len() == 0 {
        checks.push(
            SceneAssetContinuityCheck {
                name: String::from_str("dimensions"),
                status: SceneAssetContinuityStatus::Pass,
                detail: String::from_str("all frames have matching dimensions"),
            },
        );
    }
    (Some(expected), checks)
}

/// The message for a document version other than 1.
pub open spec fn version_message(kind: Seq<char>, version: u64) -> Seq<char> {
    "unsupported "@ + kind + "_version "@ + dec(version as nat) + "; expected 1"@
}

fn version_error(kind: &str, version: u64) -> (e: SceneAssetEditError)
    ensures
        e matches SceneAssetEditError::InvalidOperation(m) && m@ == version_message(kind@, version),
{
    let mut m = String::from_str("unsupported ");
    m.append(kind);
    m.append("_version ");
    m.append(&u64_text(version));
    m.append("; expected 1");
    SceneAssetEditError::InvalidOperation(m)
}

/// A pipeline document must be version 1.
pub fn validate_pipeline_version(version: u64) -> (r: Result<(), SceneAssetEditError>)
    ensures
        version == 1 ==> r is Ok,
        version != 1 ==> (r matches Err(SceneAssetEditError::InvalidOperation(m)) && m@ == version_message(
            "asset_pipeline"@,
            version,
        )),
{
    if version != 1 {
        return Err(version_error("asset_pipeline", version));
    }
    Ok(())
}

/// The header of an operation document: version 1, an id and an output
/// that are not blank, and a supported command, checked in that order.
pub fn validate_operation_header(version: u64, id: &str, output: &str, command: &str) -> (r: Result<
    (),
    SceneAssetEditError,
>)
    ensures
        version != 1 ==> (r matches Err(SceneAssetEditError::InvalidOperation(m)) && m@ == version_message(
            "asset_operation"@,
            version,
        )),
        version == 1 && blank(id@) ==> (r matches Err(SceneAssetEditError::InvalidOperation(m)) && m@
            == "asset operation id is required"@),
        version == 1 && !blank(id@) && blank(output@) ==> (r matches Err(SceneAssetEditError::InvalidOperation(m))
            && m@ == "asset operation output is required"@),
        version == 1 && !blank(id@) && !blank(output@) && supported_command(command@) ==> r is Ok,
        version == 1 && !blank(id@) && !blank(output@) && !supported_command(command@) ==> (r matches Err(
            SceneAssetEditError::InvalidOperation(m),
        ) && m@ == "unsupported pipeline command `"@ + command@ + "`"@),
{
    if version != 1 {
        return Err(version_error("asset_operation", version));
    }
    if is_blank(id) {
        return Err(SceneAssetEditError::InvalidOperation(String::from_str("asset operation id is required")));
    }
    if is_blank(output) {
        return Err(SceneAssetEditError::InvalidOperation(String::from_str("asset operation output is required")));
    }
    validate_pipeline_command_name(command)
}

/// The failure reported when protected regions changed more pixels than an
/// operation allows.
pub open spec fn protected_excess_message(changed: nat, allowed: nat) -> Seq<char> {
    "protected regions changed "@ + dec(changed) + " pixels, exceeding max_changed_pixels_in_protected_regions "@
        + dec(allowed)
}

/// The protected-region part of an operation's expectations: with no regions
/// to preserve it holds; without a comparison report it fails; otherwise it
/// fails when the report counts more changed pixels than allowed (no changed
/// pixel is allowed when no limit is given).
pub fn protected_region_expectation_failure(
    must_preserve_regions: &Vec<String>,
    max_changed_pixels: Option<usize>,
    report: Option<&SceneAssetProtectedRegionReport>,
) -> (r: Option<String>)
    ensures
        must_preserve_regions@.len() == 0 ==> r is None,
        must_preserve_regions@.len() > 0 && report is None ==> (r matches Some(m) && m@
            == "must_preserve_regions requires a feature map and comparable output"@),
        must_preserve_regions@.len() > 0 && report is Some ==> {
            let allowed: usize = match max_changed_pixels {
                Some(v) => v,
                None => 0,
            };
            let changed = report.unwrap().changed_pixels;
            &&& changed <= allowed ==> r is None
            &&& changed > allowed ==> (r matches Some(m) && m@ == protected_excess_message(
                changed as nat,
                allowed as nat,
            ))
        },
{
    if must_preserve_regions.len() == 0 {
        return None;
    }
    match report {
        None => Some(String::from_str("must_preserve_regions requires a feature map and comparable output")),
        Some(rep) => {
            let allowed: usize = match max_changed_pixels {
                Some(v) => v,
                None => 0,
            };
            if rep.changed_pixels > allowed {
                let mut m = String::from_str("protected regions changed ");
                m.append(&usize_text(rep.changed_pixels));
                m.append(" pixels, exceeding max_changed_pixels_in_protected_regions ");
                m.append(&usize_text(allowed));
                Some(m)
            } else {
                None
            }
        },
    }
}

} // verus!
