//! The Scene Mode data model: entities, stage, actions, state values, RPG
//! state, render snapshot records and the error vocabulary.

use vstd::prelude::*;

use crate::schema::{VisualLayerState, VisualModeDescriptor};
use crate::text::{bool_text, bool_text_seq, i64_text, int_dec};

verus! {

#[derive(Debug, Clone, Copy, PartialEq, Eq, Structural)]
pub struct VisualPosition {
    pub x: usize,
    pub y: usize,
}

#[derive(Debug, Clone, Copy, PartialEq, Eq, Structural)]
pub enum VisualEntityKind {
    Agent,
    Memory,
    Principle,
    Project,
    Task,
}

#[derive(Debug, Clone, PartialEq, Eq)]
pub struct VisualEntity {
    pub id: String,
    pub kind: VisualEntityKind,
    pub label: String,
    pub position: VisualPosition,
    pub sprite: String,
    pub visible: bool,
    pub state_flags: Vec<String>,
    pub metadata: Vec<(String, String)>,
}

#[derive(Debug, Clone, PartialEq, Eq)]
pub struct VisualStage {
    pub layers: Vec<VisualStageLayer>,
}

impl VisualStage {
    pub fn is_empty(&self) -> (b: bool)
        ensures
            b == (self.layers@.len() == 0),
    {
        self.layers.len() == 0
    }
}

/// The skip-serialization test for a scene's stage.
pub fn is_empty_stage(stage: &VisualStage) -> (b: bool)
    ensures
        b == (stage.layers@.len() == 0),
{
    stage.is_empty()
}

#[derive(Debug, Clone, PartialEq, Eq)]
pub struct VisualStageLayer {
    pub layer_id: String,
    pub zorder: i32,
    pub displayables: Vec<VisualStageDisplayable>,
}

#[derive(Debug, Clone, PartialEq, Eq)]
pub struct VisualStageDisplayable {
    pub tag: String,
    pub sprite: String,
    pub placement: VisualStagePlacement,
    pub zorder: i32,
    pub visible: bool,
}

#[derive(Debug, Clone, Copy, PartialEq, Eq, Structural)]
pub enum VisualStagePlacement {
    Fullscreen,
    Left,
    Center,
    Right,
}

#[derive(Debug, Clone, PartialEq, Eq)]
pub enum SceneActionKind {
    Inspect,
    OpenFile { path: String },
    RunCommand { argv: Vec<String>, cwd: Option<String>, target: RunCommandTarget },
    Navigate { target: String },
    ExportStoryState { path: String },
    ImportStoryState { path: String },
    AdvanceDialogue { target: usize },
    Resolve { operations: Vec<VisualStateOperation> },
}

#[derive(Debug, Clone, Copy, PartialEq, Eq, Structural)]
pub enum RunCommandTarget {
    Tab,
    SplitRight,
    SplitDown,
}

pub open spec fn run_target_text(t: RunCommandTarget) -> Seq<char> {
    match t {
        RunCommandTarget::Tab => "tab"@,
        RunCommandTarget::SplitRight => "split_right"@,
        RunCommandTarget::SplitDown => "split_down"@,
    }
}

impl RunCommandTarget {
    pub fn as_str(self) -> (s: &'static str)
        ensures
            s@ == run_target_text(self),
    {
        match self {
            RunCommandTarget::Tab => "tab",
            RunCommandTarget::SplitRight => "split_right",
            RunCommandTarget::SplitDown => "split_down",
        }
    }
}

#[derive(Debug, Clone, PartialEq, Eq)]
pub struct SceneAction {
    pub label: String,
    pub kind: SceneActionKind,
    pub policy: Option<SceneActionPolicy>,
    pub conditions: Vec<VisualCondition>,
}

#[derive(Debug, Clone, PartialEq, Eq)]
pub struct SceneActionPolicy {
    pub origin: String,
    pub risk: String,
    pub scope: String,
    pub requires_confirmation: bool,
    pub summary: Option<String>,
}

#[derive(Debug, Clone, PartialEq, Eq)]
pub struct VisualCommandFilter {
    pub query: Option<String>,
    pub action_kind: Option<String>,
    pub risk: Option<String>,
    pub scope: Option<String>,
    pub enabled_only: bool,
}

#[derive(Debug, Clone, PartialEq, Eq)]
pub struct VisualCommandOption {
    pub choice_index: usize,
    pub label: String,
    pub action_kind: String,
    pub origin: String,
    pub risk: String,
    pub scope: String,
    pub requires_confirmation: bool,
    pub summary: Option<String>,
    pub enabled: bool,
    pub guard_detail: Option<String>,
}

#[derive(Debug, Clone, PartialEq, Eq)]
pub enum VisualStateValue {
    Bool(bool),
    Number(i64),
    Text(String),
}

/// Two state values are the same value (text compared by its characters).
pub open spec fn same_value(a: VisualStateValue, b: VisualStateValue) -> bool {
    match (a, b) {
        (VisualStateValue::Bool(x), VisualStateValue::Bool(y)) => x == y,
        (VisualStateValue::Number(x), VisualStateValue::Number(y)) => x == y,
        (VisualStateValue::Text(x), VisualStateValue::Text(y)) => x@ == y@,
        _ => false,
    }
}

/// How a state value is shown in summaries: its `Display` form.
pub open spec fn value_text(v: VisualStateValue) -> Seq<char> {
    match v {
        VisualStateValue::Bool(b) => bool_text_seq(b),
        VisualStateValue::Number(n) => int_dec(n as int),
        VisualStateValue::Text(t) => t@,
    }
}

impl VisualStateValue {
    pub fn as_debug_string(&self) -> (s: String)
        ensures
            s@ == value_text(*self),
    {
        match self {
            VisualStateValue::Bool(value) => bool_text(*value),
            VisualStateValue::Number(value) => i64_text(*value),
            VisualStateValue::Text(value) => value.clone(),
        }
    }

    /// `==` between two state values.
    pub fn same_as(&self, other: &VisualStateValue) -> (b: bool)
        ensures
            b == same_value(*self, *other),
    {
        match (self, other) {
            (VisualStateValue::Bool(x), VisualStateValue::Bool(y)) => *x == *y,
            (VisualStateValue::Number(x), VisualStateValue::Number(y)) => *x == *y,
            (VisualStateValue::Text(x), VisualStateValue::Text(y)) => *x == *y,
            _ => false,
        }
    }

    /// A copy of the value.
    pub fn duplicate(&self) -> (v: VisualStateValue)
        ensures
            v == *self,
    {
        match self {
            VisualStateValue::Bool(b) => VisualStateValue::Bool(*b),
            VisualStateValue::Number(n) => VisualStateValue::Number(*n),
            VisualStateValue::Text(t) => VisualStateValue::Text(t.clone()),
        }
    }
}

#[derive(Debug, Clone, PartialEq, Eq)]
pub struct VisualStateEntry {
    pub key: String,
    pub value: VisualStateValue,
}

#[derive(Debug, Clone, PartialEq, Eq)]
pub struct VisualDialogueLine {
    pub speaker: String,
    pub text: String,
    pub portrait: Option<String>,
    pub metadata: Vec<(String, String)>,
}

#[derive(Debug, Clone, PartialEq, Eq)]
pub struct VisualCondition {
    pub source: Option<String>,
    pub variable: String,
    pub equals: VisualStateValue,
}

#[derive(Debug, Clone, PartialEq, Eq)]
pub enum VisualStateOperation {
    SetVariable { key: String, value: VisualStateValue },
    SetLayerState { layer_id: String, state: String },
    SelectEntity { entity_id: String },
    SetEntityFlags { entity_id: String, flags: Vec<String> },
    SetEntityMetadata { entity_id: String, metadata: Vec<(String, String)> },
    SetEntityVisibility { entity_id: String, visible: bool },
    AdvanceDialogueAndSetLayer { target: usize, layer_id: String, state: String },
    TriggerLayerTransition { layer_id: String, input: String },
    IncrementVariable { key: String, amount: i64 },
    ClearVariable { key: String },
    AddInventory { item: VisualInventoryItem },
    RemoveInventory { item_id: String, count: u32 },
    SetStat { owner_id: Option<String>, key: String, value: VisualStateValue },
    AdjustStat { owner_id: Option<String>, key: String, amount: i64 },
    AdvanceQuest { quest_id: String, stage: i64 },
    CompleteQuest { quest_id: String },
    AppendQuestJournal { quest_id: String, text: String },
    AdjustRelationship { source_id: String, target_id: String, kind: String, amount: i64 },
}

#[derive(Debug, Clone, PartialEq, Eq)]
pub struct VisualRpgState {
    pub inventory: Vec<VisualInventoryItem>,
    pub stats: Vec<VisualStat>,
    pub quests: Vec<VisualQuest>,
    pub relationships: Vec<VisualRelationship>,
}

impl VisualRpgState {
    pub fn is_empty(&self) -> (b: bool)
        ensures
            b == (self.inventory@.len() == 0 && self.stats@.len() == 0 && self.quests@.len() == 0
                && self.relationships@.len() == 0),
    {
        self.inventory.len() == 0 && self.stats.len() == 0 && self.quests.len() == 0
            && self.relationships.len() == 0
    }

    /// The state with no inventory, stats, quests or relationships.
    pub fn empty() -> (s: VisualRpgState)
        ensures
            s.inventory@.len() == 0,
            s.stats@.len() == 0,
            s.quests@.len() == 0,
            s.relationships@.len() == 0,
    {
        VisualRpgState {
            inventory: Vec::new(),
            stats: Vec::new(),
            quests: Vec::new(),
            relationships: Vec::new(),
        }
    }
}

/// The skip-serialization test for a scene's RPG state.
pub fn is_empty_rpg_state(state: &VisualRpgState) -> (b: bool)
    ensures
        b == (state.inventory@.len() == 0 && state.stats@.len() == 0 && state.quests@.len() == 0
            && state.relationships@.len() == 0),
{
    state.is_empty()
}

#[derive(Debug, Clone, PartialEq, Eq)]
pub struct VisualInventoryItem {
    pub item_id: String,
    pub label: String,
    pub count: u32,
    pub metadata: Vec<(String, String)>,
}

#[derive(Debug, Clone, PartialEq, Eq)]
pub struct VisualStat {
    pub owner_id: Option<String>,
    pub key: String,
    pub value: VisualStateValue,
}

#[derive(Debug, Clone, PartialEq, Eq)]
pub struct VisualQuest {
    pub quest_id: String,
    pub label: String,
    pub stage: i64,
    pub completed: bool,
    pub journal: String,
}

#[derive(Debug, Clone, PartialEq, Eq)]
pub struct VisualRelationship {
    pub source_id: String,
    pub target_id: String,
    pub kind: String,
    pub value: i64,
    pub metadata: Vec<(String, String)>,
}

#[derive(Debug, Clone, PartialEq, Eq)]
pub struct VisualScene {
    pub title: String,
    pub background: String,
    pub width: usize,
    pub height: usize,
    pub mode: VisualModeDescriptor,
    pub layers: Vec<VisualLayerState>,
    pub stage: VisualStage,
    pub variables: Vec<VisualStateEntry>,
    pub rpg: VisualRpgState,
    pub entities: Vec<VisualEntity>,
    pub dialogue_speaker: String,
    pub dialogue: String,
    pub dialogue_lines: Vec<VisualDialogueLine>,
    pub choices: Vec<SceneAction>,
}

#[derive(Debug, Clone, PartialEq, Eq)]
pub struct VisualSpriteDefinition {
    pub id: String,
    pub path: String,
}

#[derive(Debug, Clone, PartialEq, Eq)]
pub struct VisualSpriteManifest {
    pub sprites: Vec<VisualSpriteDefinition>,
}

#[derive(Debug, Clone, PartialEq, Eq)]
pub struct VisualResolvedSprite {
    pub id: String,
    pub path: String,
}

#[derive(Debug, Clone, PartialEq, Eq)]
pub struct VisualSpriteManifestStatus {
    pub manifest_path: Option<String>,
    pub sprites: Vec<VisualResolvedSprite>,
    pub warnings: Vec<String>,
}

impl VisualSpriteManifestStatus {
    /// The status of a manifest that was not found at `path` (the path as
    /// it is displayed).
    pub fn missing(path: &str) -> (s: Self)
        ensures
            s.manifest_path matches Some(p) && p@ == path@,
            s.sprites@.len() == 0,
            s.warnings@.len() == 1,
            s.warnings@[0]@ == "sprite manifest not found at "@ + path@,
    {
        let mut warning = String::from_str("sprite manifest not found at ");
        warning.append(path);
        let mut warnings = Vec::new();
        warnings.push(warning);
        VisualSpriteManifestStatus {
            manifest_path: Some(String::from_str(path)),
            sprites: Vec::new(),
            warnings,
        }
    }
}

#[derive(Debug, Clone, Copy, PartialEq, Eq, Structural)]
pub enum VisualRenderLayer {
    Background,
    Tile,
    Entity,
    Selection,
    Dialogue,
    Debug,
}

#[derive(Debug, Clone, PartialEq, Eq)]
pub struct VisualRenderTile {
    pub position: VisualPosition,
    pub sprite: String,
    pub layer: VisualRenderLayer,
}

#[derive(Debug, Clone, PartialEq, Eq)]
pub struct VisualRenderEntity {
    pub id: String,
    pub kind: VisualEntityKind,
    pub label: String,
    pub position: VisualPosition,
    pub sprite: String,
    pub layer: VisualRenderLayer,
    pub selected: bool,
    pub state_flags: Vec<String>,
}

#[derive(Debug, Clone, PartialEq, Eq)]
pub struct VisualRenderStageDisplayable {
    pub layer_id: String,
    pub tag: String,
    pub sprite: String,
    pub placement: VisualStagePlacement,
    pub layer_zorder: i32,
    pub zorder: i32,
}

#[derive(Debug, Clone, PartialEq, Eq)]
pub struct VisualRenderSnapshot {
    pub generation: u64,
    pub view: VisualView,
    pub scene_source: VisualSceneSource,
    pub active_mode: VisualModeDescriptor,
    pub active_layers: Vec<VisualLayerState>,
    pub selected_entity_mode: Option<String>,
    pub variables: Vec<VisualStateEntry>,
    pub rpg: VisualRpgState,
    pub title: String,
    pub background: String,
    pub width: usize,
    pub height: usize,
    pub selected_entity_id: Option<String>,
    pub selected_choice: usize,
    pub tiles: Vec<VisualRenderTile>,
    pub stage: Vec<VisualRenderStageDisplayable>,
    pub entities: Vec<VisualRenderEntity>,
    pub dialogue_speaker: String,
    pub dialogue: String,
    pub dialogue_index: Option<usize>,
    pub dialogue_history: Vec<VisualDialogueLine>,
    pub status: String,
    pub choices: Vec<String>,
    pub overlay_cols: Option<usize>,
    pub overlay_rows: Option<usize>,
    pub interactive_debug_menu: VisualInteractiveDebugMenu,
    pub vn_voice_hold_active: bool,
}

/// The debug menu a snapshot shows when none is recorded.
pub fn default_interactive_debug_menu() -> (m: VisualInteractiveDebugMenu)
    ensures
        m == VisualInteractiveDebugMenu::SceneLayout,
{
    VisualInteractiveDebugMenu::SceneLayout
}

impl VisualRenderSnapshot {
    pub fn overlay_layout_dims(&self) -> (d: Option<(usize, usize)>)
        ensures
            d == (match (self.overlay_cols, self.overlay_rows) {
                (Some(c), Some(r)) => Some((c, r)),
                _ => None,
            }),
    {
        match (self.overlay_cols, self.overlay_rows) {
            (Some(cols), Some(rows)) => Some((cols, rows)),
            _ => None,
        }
    }
}

#[derive(Debug, Clone, PartialEq, Eq)]
pub struct VisualProcessState {
    pub entity_id: Option<String>,
    pub phase: VisualProcessPhase,
    pub command: Option<String>,
    pub exit_code: Option<i32>,
    pub message: Option<String>,
}

#[derive(Debug, Clone, Copy, PartialEq, Eq, Structural)]
pub enum VisualProcessPhase {
    Queued,
    Running,
    Blocked,
    Succeeded,
    Failed,
}

pub open spec fn phase_text(p: VisualProcessPhase) -> Seq<char> {
    match p {
        VisualProcessPhase::Queued => "queued"@,
        VisualProcessPhase::Running => "running"@,
        VisualProcessPhase::Blocked => "blocked"@,
        VisualProcessPhase::Succeeded => "succeeded"@,
        VisualProcessPhase::Failed => "failed"@,
    }
}

impl VisualProcessPhase {
    pub fn as_str(self) -> (s: &'static str)
        ensures
            s@ == phase_text(self),
    {
        match self {
            VisualProcessPhase::Queued => "queued",
            VisualProcessPhase::Running => "running",
            VisualProcessPhase::Blocked => "blocked",
            VisualProcessPhase::Succeeded => "succeeded",
            VisualProcessPhase::Failed => "failed",
        }
    }
}

/// The default of a `visible` flag.
pub fn default_true() -> (b: bool)
    ensures
        b,
{
    true
}

/// The skip-serialization test for a flag that defaults to true.
pub fn is_true(value: &bool) -> (b: bool)
    ensures
        b == *value,
{
    *value
}

/// The skip-serialization test for a flag that defaults to false.
pub fn is_false(value: &bool) -> (b: bool)
    ensures
        b == !*value,
{
    !*value
}

#[derive(Debug, Clone, Copy, PartialEq, Eq, Structural)]
pub enum VisualSceneLoadStatus {
    Bundled,
    Loaded,
    ReloadFailed,
    Invalid,
}

pub open spec fn load_status_text(s: VisualSceneLoadStatus) -> Seq<char> {
    match s {
        VisualSceneLoadStatus::Bundled => "bundled"@,
        VisualSceneLoadStatus::Loaded => "loaded"@,
        VisualSceneLoadStatus::ReloadFailed => "reload_failed"@,
        VisualSceneLoadStatus::Invalid => "invalid"@,
    }
}

impl VisualSceneLoadStatus {
    pub fn as_str(self) -> (s: &'static str)
        ensures
            s@ == load_status_text(self),
    {
        match self {
            VisualSceneLoadStatus::Bundled => "bundled",
            VisualSceneLoadStatus::Loaded => "loaded",
            VisualSceneLoadStatus::ReloadFailed => "reload_failed",
            VisualSceneLoadStatus::Invalid => "invalid",
        }
    }
}

#[derive(Debug, Clone, PartialEq, Eq)]
pub struct VisualSceneSource {
    pub scene_path: String,
    pub load_status: VisualSceneLoadStatus,
    pub reload_count: u64,
    pub last_error: Option<String>,
}

impl VisualSceneSource {
    pub fn new(scene_path: String, load_status: VisualSceneLoadStatus, reload_count: u64) -> (s:
        Self)
        ensures
            s.scene_path == scene_path,
            s.load_status == load_status,
            s.reload_count == reload_count,
            s.last_error is None,
    {
        VisualSceneSource { scene_path, load_status, reload_count, last_error: None }
    }

    pub fn invalid(scene_path: String, reload_count: u64, error: String) -> (s: Self)
        ensures
            s.scene_path == scene_path,
            s.load_status == VisualSceneLoadStatus::Invalid,
            s.reload_count == reload_count,
            s.last_error == Some(error),
    {
        VisualSceneSource {
            scene_path,
            load_status: VisualSceneLoadStatus::Invalid,
            reload_count,
            last_error: Some(error),
        }
    }

    pub fn reload_failed(&self, reload_count: u64, error: String) -> (s: Self)
        ensures
            s.scene_path@ == self.scene_path@,
            s.load_status == VisualSceneLoadStatus::ReloadFailed,
            s.reload_count == reload_count,
            s.last_error == Some(error),
    {
        VisualSceneSource {
            scene_path: self.scene_path.clone(),
            load_status: VisualSceneLoadStatus::ReloadFailed,
            reload_count,
            last_error: Some(error),
        }
    }
}

#[derive(Debug, Clone, Copy, PartialEq, Eq, Structural)]
pub enum VisualInput {
    Close,
    Reload,
    ToggleDebug,
    Activate,
    Next,
    Previous,
    Left,
    Right,
    ScrollDialogueUp,
    ScrollDialogueDown,
    Char(char),
    Backspace,
    Other,
}

pub open spec fn binding_key_text(i: VisualInput) -> Seq<char> {
    match i {
        VisualInput::Close => "close"@,
        VisualInput::Reload => "reload"@,
        VisualInput::ToggleDebug => "toggle_debug"@,
        VisualInput::Activate => "activate"@,
        VisualInput::Next => "next"@,
        VisualInput::Previous => "previous"@,
        VisualInput::Left => "left"@,
        VisualInput::Right => "right"@,
        _ => "other"@,
    }
}

impl VisualInput {
    /// The input-map key this input is bound under.
    pub fn binding_key(self) -> (s: &'static str)
        ensures
            s@ == binding_key_text(self),
    {
        match self {
            VisualInput::Close => "close",
            VisualInput::Reload => "reload",
            VisualInput::ToggleDebug => "toggle_debug",
            VisualInput::Activate => "activate",
            VisualInput::Next => "next",
            VisualInput::Previous => "previous",
            VisualInput::Left => "left",
            VisualInput::Right => "right",
            VisualInput::ScrollDialogueUp | VisualInput::ScrollDialogueDown => "other",
            VisualInput::Char(_) | VisualInput::Backspace | VisualInput::Other => "other",
        }
    }
}

#[derive(Debug, Clone, Copy, PartialEq, Eq, Structural)]
pub enum VisualModeOutcome {
    Continue,
    Exit,
}

/// A request for the host to do outside work; paths are as written in the
/// scene, resolved against the action base directory.
#[derive(Debug, Clone, PartialEq, Eq)]
pub enum VisualActionRequest {
    OpenFile { path: String },
    RunCommand { argv: Vec<String>, cwd: Option<String>, target: RunCommandTarget },
    Navigate { target: String },
    ExportStoryState { path: String },
    ImportStoryState { path: String },
}

pub trait VisualMode {
    fn generation(&self) -> u64;

    fn render_snapshot(&self) -> VisualRenderSnapshot;

    fn render_text_frame(&self, cols: usize, rows: usize) -> String;

    fn handle_input(&mut self, input: VisualInput) -> VisualModeOutcome;
}

#[derive(Debug, Clone, Copy, PartialEq, Eq, Structural)]
pub enum VisualView {
    Scene,
    CommandSelection,
    TileDebugger,
    VnLayoutDebugger,
    Boot,
    MainMenu,
    CharacterSelect,
    StageSelect,
    SettingMode,
}

impl VisualView {
    /// True for the navigation-shell screens (boot, menu, and mode cycle).
    pub fn is_shell(self) -> (b: bool)
        ensures
            b == (self == VisualView::Boot || self == VisualView::MainMenu || self
                == VisualView::CharacterSelect || self == VisualView::StageSelect || self
                == VisualView::SettingMode),
    {
        match self {
            VisualView::Boot | VisualView::MainMenu | VisualView::CharacterSelect
            | VisualView::StageSelect | VisualView::SettingMode => true,
            _ => false,
        }
    }

    /// True for the Tab-cycle mode screens reached from within a scene.
    pub fn is_mode_cycle(self) -> (b: bool)
        ensures
            b == (self == VisualView::CharacterSelect || self == VisualView::StageSelect || self
                == VisualView::SettingMode),
    {
        match self {
            VisualView::CharacterSelect | VisualView::StageSelect | VisualView::SettingMode => true,
            _ => false,
        }
    }

    /// True for the screens eligible for the plain-backdrop preference: the
    /// navigation shell and the debug panes.
    pub fn uses_plain_backdrop(self) -> (b: bool)
        ensures
            b == (self != VisualView::Scene && self != VisualView::CommandSelection),
    {
        self.is_shell() || match self {
            VisualView::TileDebugger | VisualView::VnLayoutDebugger => true,
            _ => false,
        }
    }
}

#[derive(Debug, Clone, Copy, PartialEq, Eq, Structural)]
pub enum VisualInteractiveDebugMenu {
    TileDebugMenu,
    SceneLayout,
    Text,
    Voice,
    Compose,
    Runtime,
}

pub open spec fn debug_menu_label(m: VisualInteractiveDebugMenu) -> Seq<char> {
    match m {
        VisualInteractiveDebugMenu::TileDebugMenu => "Tile"@,
        VisualInteractiveDebugMenu::SceneLayout => "Scene Layout"@,
        VisualInteractiveDebugMenu::Text => "Text"@,
        VisualInteractiveDebugMenu::Voice => "Voice"@,
        VisualInteractiveDebugMenu::Compose => "Compose"@,
        VisualInteractiveDebugMenu::Runtime => "Runtime"@,
    }
}

/// Position in the scene-section cycle (SceneLayout, Text, Voice, Compose,
/// Runtime); the tile menu is not in the cycle and counts as its start.
pub open spec fn scene_section_index(m: VisualInteractiveDebugMenu) -> int {
    match m {
        VisualInteractiveDebugMenu::SceneLayout => 0,
        VisualInteractiveDebugMenu::Text => 1,
        VisualInteractiveDebugMenu::Voice => 2,
        VisualInteractiveDebugMenu::Compose => 3,
        VisualInteractiveDebugMenu::Runtime => 4,
        VisualInteractiveDebugMenu::TileDebugMenu => 0,
    }
}

pub open spec fn scene_section_at(i: int) -> VisualInteractiveDebugMenu {
    if i == 0 {
        VisualInteractiveDebugMenu::SceneLayout
    } else if i == 1 {
        VisualInteractiveDebugMenu::Text
    } else if i == 2 {
        VisualInteractiveDebugMenu::Voice
    } else if i == 3 {
        VisualInteractiveDebugMenu::Compose
    } else {
        VisualInteractiveDebugMenu::Runtime
    }
}

impl VisualInteractiveDebugMenu {
    pub fn label(self) -> (s: &'static str)
        ensures
            s@ == debug_menu_label(self),
    {
        match self {
            VisualInteractiveDebugMenu::TileDebugMenu => "Tile",
            VisualInteractiveDebugMenu::SceneLayout => "Scene Layout",
            VisualInteractiveDebugMenu::Text => "Text",
            VisualInteractiveDebugMenu::Voice => "Voice",
            VisualInteractiveDebugMenu::Compose => "Compose",
            VisualInteractiveDebugMenu::Runtime => "Runtime",
        }
    }

    /// The next scene section, wrapping from Runtime to SceneLayout.
    pub fn next_scene_section(self) -> (m: Self)
        ensures
            m == scene_section_at((scene_section_index(self) + 1) % 5),
    {
        match self {
            VisualInteractiveDebugMenu::SceneLayout => VisualInteractiveDebugMenu::Text,
            VisualInteractiveDebugMenu::Text => VisualInteractiveDebugMenu::Voice,
            VisualInteractiveDebugMenu::Voice => VisualInteractiveDebugMenu::Compose,
            VisualInteractiveDebugMenu::Compose => VisualInteractiveDebugMenu::Runtime,
            VisualInteractiveDebugMenu::Runtime => VisualInteractiveDebugMenu::SceneLayout,
            VisualInteractiveDebugMenu::TileDebugMenu => VisualInteractiveDebugMenu::Text,
        }
    }

    /// The previous scene section, wrapping from SceneLayout to Runtime.
    pub fn previous_scene_section(self) -> (m: Self)
        ensures
            m == scene_section_at((scene_section_index(self) + 4) % 5),
    {
        match self {
            VisualInteractiveDebugMenu::SceneLayout => VisualInteractiveDebugMenu::Runtime,
            VisualInteractiveDebugMenu::Text => VisualInteractiveDebugMenu::SceneLayout,
            VisualInteractiveDebugMenu::Voice => VisualInteractiveDebugMenu::Text,
            VisualInteractiveDebugMenu::Compose => VisualInteractiveDebugMenu::Voice,
            VisualInteractiveDebugMenu::Runtime => VisualInteractiveDebugMenu::Compose,
            VisualInteractiveDebugMenu::TileDebugMenu => VisualInteractiveDebugMenu::Runtime,
        }
    }
}

/// Moving to the next scene section and back returns to where one was, for
/// every section of the cycle.
pub proof fn law_scene_section_round_trip(m: VisualInteractiveDebugMenu)
    requires
        m != VisualInteractiveDebugMenu::TileDebugMenu,
    ensures
        scene_section_at((scene_section_index(scene_section_at((scene_section_index(m) + 1) % 5))
            + 4) % 5) == m,
{
}

} // verus!
