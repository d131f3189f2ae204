//! The built-in demo scene and sprite-path resolution.

use vstd::prelude::*;

use crate::scene_model::{
    RunCommandTarget, SceneAction, SceneActionKind, VisualEntity, VisualEntityKind,
    VisualInventoryItem, VisualPosition, VisualQuest, VisualRelationship, VisualResolvedSprite,
    VisualRpgState, VisualScene, VisualSpriteManifest, VisualSpriteManifestStatus, VisualStage,
    VisualStat, VisualStateEntry, VisualStateValue,
};
use crate::schema::{VisualModeDescriptor, VisualModeLifecycle};
use crate::scene_check::{choice_errors, entity_errors, mode_binding_errors, relationship_ref_errors, scene_error};
use crate::scene_errors::first_some;
use crate::scene_validate::{any_blank_condition, layer_errors, stage_layer_errors};
use crate::text::{blank, is_ws};
use crate::validation::{
    dialogue_errors, entry_errors, inventory_errors, quest_errors, relationship_errors, stat_errors,
};
use crate::asset_paths::{absolute_path, joined_path, parent_path, path_is_absolute, path_join, path_parent};

verus! {

impl VisualScene {
    /// The demo scene shown when no scene file is loaded: a small workspace
    /// of three entities (a project, a task and an agent) with three choices.
    pub fn demo() -> (s: Self)
        ensures
            s.title@ == "GameTerm Scene Mode"@,
            s.background@ == "workspace-map"@,
            s.width == 18,
            s.height == 9,
            s.mode.mode_id@ == "workspace"@,
            s.mode.allowed_actions@.len() == 6,
            s.layers@.len() == 0,
            s.stage.layers@.len() == 0,
            s.variables@.len() == 3,
            s.rpg.inventory@.len() == 1,
            s.rpg.stats@.len() == 1,
            s.rpg.quests@.len() == 1,
            s.rpg.relationships@.len() == 1,
            s.entities@.len() == 3,
            s.entities@[0].id@ == "project-gameterm"@,
            s.entities@[1].id@ == "task-render"@,
            s.entities@[2].id@ == "agent-audit"@,
            s.entities@[0].position == (VisualPosition { x: 3, y: 2 }),
            s.entities@[1].position == (VisualPosition { x: 9, y: 4 }),
            s.entities@[2].position == (VisualPosition { x: 14, y: 2 }),
            s.dialogue_lines@.len() == 0,
            s.choices@.len() == 3,
            s.choices@[0].kind == SceneActionKind::Inspect,
            s.mode.label@ == "Workspace"@,
            s.mode.description@ == "Project and process-oriented Scene Mode workspace"@,
            s.mode.scene_profile matches Some(p) && p@ == "scene"@,
            s.mode.allowed_actions@[0]@ == "Inspect"@,
            s.mode.allowed_actions@[1]@ == "OpenFile"@,
            s.mode.allowed_actions@[2]@ == "RunCommand"@,
            s.mode.allowed_actions@[3]@ == "Navigate"@,
            s.mode.allowed_actions@[4]@ == "ExportStoryState"@,
            s.mode.allowed_actions@[5]@ == "ImportStoryState"@,
            s.mode.default_transition is None,
            s.mode.lifecycle.enter_status is None,
            s.mode.lifecycle.update_status is None,
            s.mode.lifecycle.exit_status is None,
            s.mode.input_map@.len() == 0,
            s.variables@[0].key@ == "conversation_unlocked"@,
            s.variables@[0].value == VisualStateValue::Bool(true),
            s.variables@[1].key@ == "workspace_level"@,
            s.variables@[1].value == VisualStateValue::Number(1),
            s.variables@[2].key@ == "active_track"@,
            s.variables@[2].value matches VisualStateValue::Text(t) && t@ == "visual-state"@,
            s.rpg.inventory@[0].item_id@ == "scene-token"@,
            s.rpg.inventory@[0].label@ == "Scene Token"@,
            s.rpg.inventory@[0].count == 1,
            s.rpg.inventory@[0].metadata@.len() == 1,
            s.rpg.inventory@[0].metadata@[0].0@ == "source"@,
            s.rpg.inventory@[0].metadata@[0].1@ == "demo"@,
            s.rpg.stats@[0].owner_id matches Some(o) && o@ == "project-gameterm"@,
            s.rpg.stats@[0].key@ == "focus"@,
            s.rpg.stats@[0].value == VisualStateValue::Number(3),
            s.rpg.quests@[0].quest_id@ == "verify-scene-runtime"@,
            s.rpg.quests@[0].label@ == "Verify Scene Runtime"@,
            s.rpg.quests@[0].stage == 1,
            !s.rpg.quests@[0].completed,
            s.rpg.quests@[0].journal@ == "Keep Scene Mode state visible and testable."@,
            s.rpg.relationships@[0].source_id@ == "agent-audit"@,
            s.rpg.relationships@[0].target_id@ == "task-render"@,
            s.rpg.relationships@[0].kind@ == "monitors"@,
            s.rpg.relationships@[0].value == 2,
            s.rpg.relationships@[0].metadata@.len() == 0,
            s.entities@[0].kind == VisualEntityKind::Project,
            s.entities@[0].label@ == "GameTerm"@,
            s.entities@[0].sprite@ == "project_core"@,
            s.entities@[0].visible,
            s.entities@[0].state_flags@.len() == 1,
            s.entities@[0].state_flags@[0]@ == "active"@,
            s.entities@[0].metadata@.len() == 2,
            s.entities@[0].metadata@[0].0@ == "repo"@,
            s.entities@[0].metadata@[0].1@ == "JulianAbeleda/gameterm"@,
            s.entities@[0].metadata@[1].0@ == "mode"@,
            s.entities@[0].metadata@[1].1@ == "hard-fork"@,
            s.entities@[1].kind == VisualEntityKind::Task,
            s.entities@[1].label@ == "Render Scene"@,
            s.entities@[1].sprite@ == "task_tile"@,
            s.entities@[1].visible,
            s.entities@[1].state_flags@.len() == 1,
            s.entities@[1].state_flags@[0]@ == "running"@,
            s.entities@[1].metadata@.len() == 2,
            s.entities@[1].metadata@[0].0@ == "reference"@,
            s.entities@[1].metadata@[0].1@ == "visual novel scene flow"@,
            s.entities@[1].metadata@[1].0@ == "reference"@,
            s.entities@[1].metadata@[1].1@ == "mGBA PPU/debug split"@,
            s.entities@[2].kind == VisualEntityKind::Agent,
            s.entities@[2].label@ == "Audit Agent"@,
            s.entities@[2].sprite@ == "agent_idle"@,
            s.entities@[2].visible,
            s.entities@[2].state_flags@.len() == 1,
            s.entities@[2].state_flags@[0]@ == "watching"@,
            s.entities@[2].metadata@.len() == 1,
            s.entities@[2].metadata@[0].0@ == "role"@,
            s.entities@[2].metadata@[0].1@ == "review scene state"@,
            s.dialogue_speaker@ == "GameTerm"@,
            s.dialogue@ == "Scene Mode renders project state as symbolic entities while preserving terminal control."@,
            s.choices@[0].label@ == "Inspect selected entity"@,
            s.choices@[0].policy is None,
            s.choices@[0].conditions@.len() == 0,
            s.choices@[1].label@ == "Open MIGRATION.md"@,
            s.choices@[1].kind matches SceneActionKind::OpenFile { path } && path@ == "MIGRATION.md"@,
            s.choices@[1].policy is None,
            s.choices@[1].conditions@.len() == 0,
            s.choices@[2].label@ == "Run cargo check -p gameterm-visual"@,
            s.choices@[2].kind matches SceneActionKind::RunCommand { argv, cwd, target } && {
                &&& argv@.len() == 4
                &&& argv@[0]@ == "cargo"@
                &&& argv@[1]@ == "check"@
                &&& argv@[2]@ == "-p"@
                &&& argv@[3]@ == "gameterm-visual"@
                &&& cwd is None
                &&& target == RunCommandTarget::Tab
            },
            s.choices@[2].policy is None,
            s.choices@[2].conditions@.len() == 0,
            scene_error(s) is None,
    {
        let mut allowed_actions: Vec<String> = Vec::new();
        allowed_actions.push(String::from_str("Inspect"));
        allowed_actions.push(String::from_str("OpenFile"));
        allowed_actions.push(String::from_str("RunCommand"));
        allowed_actions.push(String::from_str("Navigate"));
        allowed_actions.push(String::from_str("ExportStoryState"));
        allowed_actions.push(String::from_str("ImportStoryState"));
        let mut variables: Vec<VisualStateEntry> = Vec::new();
        variables.push(VisualStateEntry { key: String::from_str("conversation_unlocked"), value: VisualStateValue::Bool(true) });
        variables.push(VisualStateEntry { key: String::from_str("workspace_level"), value: VisualStateValue::Number(1) });
        variables.push(VisualStateEntry { key: String::from_str("active_track"), value: VisualStateValue::Text(String::from_str("visual-state")) });
        let mut item_meta: Vec<(String, String)> = Vec::new();
        item_meta.push((String::from_str("source"), String::from_str("demo")));
        let mut inventory: Vec<VisualInventoryItem> = Vec::new();
        inventory.push(VisualInventoryItem { item_id: String::from_str("scene-token"), label: String::from_str("Scene Token"), count: 1, metadata: item_meta });
        let mut stats: Vec<VisualStat> = Vec::new();
        stats.push(VisualStat { owner_id: Some(String::from_str("project-gameterm")), key: String::from_str("focus"), value: VisualStateValue::Number(3) });
        let mut quests: Vec<VisualQuest> = Vec::new();
        quests.push(VisualQuest { quest_id: String::from_str("verify-scene-runtime"), label: String::from_str("Verify Scene Runtime"), stage: 1, completed: false, journal: String::from_str("Keep Scene Mode state visible and testable.") });
        let mut relationships: Vec<VisualRelationship> = Vec::new();
        relationships.push(VisualRelationship { source_id: String::from_str("agent-audit"), target_id: String::from_str("task-render"), kind: String::from_str("monitors"), value: 2, metadata: Vec::new() });
        let mut flags0: Vec<String> = Vec::new();
        flags0.push(String::from_str("active"));
        let mut meta0: Vec<(String, String)> = Vec::new();
        meta0.push((String::from_str("repo"), String::from_str("JulianAbeleda/gameterm")));
        meta0.push((String::from_str("mode"), String::from_str("hard-fork")));
        let mut flags1: Vec<String> = Vec::new();
        flags1.push(String::from_str("running"));
        let mut meta1: Vec<(String, String)> = Vec::new();
        meta1.push((String::from_str("reference"), String::from_str("visual novel scene flow")));
        meta1.push((String::from_str("reference"), String::from_str("mGBA PPU/debug split")));
        let mut flags2: Vec<String> = Vec::new();
        flags2.push(String::from_str("watching"));
        let mut meta2: Vec<(String, String)> = Vec::new();
        meta2.push((String::from_str("role"), String::from_str("review scene state")));
        let mut entities: Vec<VisualEntity> = Vec::new();
        entities.push(VisualEntity { id: String::from_str("project-gameterm"), kind: VisualEntityKind::Project, label: String::from_str("GameTerm"), position: VisualPosition { x: 3, y: 2 }, sprite: String::from_str("project_core"), visible: true, state_flags: flags0, metadata: meta0 });
        entities.push(VisualEntity { id: String::from_str("task-render"), kind: VisualEntityKind::Task, label: String::from_str("Render Scene"), position: VisualPosition { x: 9, y: 4 }, sprite: String::from_str("task_tile"), visible: true, state_flags: flags1, metadata: meta1 });
        entities.push(VisualEntity { id: String::from_str("agent-audit"), kind: VisualEntityKind::Agent, label: String::from_str("Audit Agent"), position: VisualPosition { x: 14, y: 2 }, sprite: String::from_str("agent_idle"), visible: true, state_flags: flags2, metadata: meta2 });
        let mut argv: Vec<String> = Vec::new();
        argv.push(String::from_str("cargo"));
        argv.push(String::from_str("check"));
        argv.push(String::from_str("-p"));
        argv.push(String::from_str("gameterm-visual"));
        let mut choices: Vec<SceneAction> = Vec::new();
        choices.push(SceneAction { label: String::from_str("Inspect selected entity"), kind: SceneActionKind::Inspect, policy: None, conditions: Vec::new() });
        choices.push(SceneAction { label: String::from_str("Open MIGRATION.md"), kind: SceneActionKind::OpenFile { path: String::from_str("MIGRATION.md") }, policy: None, conditions: Vec::new() });
        choices.push(SceneAction { label: String::from_str("Run cargo check -p gameterm-visual"), kind: SceneActionKind::RunCommand { argv, cwd: None, target: RunCommandTarget::Tab }, policy: None, conditions: Vec::new() });
        let s = VisualScene {
            title: String::from_str("GameTerm Scene Mode"),
            background: String::from_str("workspace-map"),
            width: 18,
            height: 9,
            mode: VisualModeDescriptor {
                mode_id: String::from_str("workspace"),
                label: String::from_str("Workspace"),
                description: String::from_str("Project and process-oriented Scene Mode workspace"),
                scene_profile: Some(String::from_str("scene")),
                allowed_actions,
                default_transition: None,
                lifecycle: VisualModeLifecycle::none(),
                input_map: Vec::new(),
            },
            layers: Vec::new(),
            stage: VisualStage { layers: Vec::new() },
            variables,
            rpg: VisualRpgState { inventory, stats, quests, relationships },
            entities,
            dialogue_speaker: String::from_str("GameTerm"),
            dialogue: String::from_str("Scene Mode renders project state as symbolic entities while preserving terminal control."),
            dialogue_lines: Vec::new(),
            choices,
        };
        proof {
            lemma_demo_scene_is_valid(s);
        }
        s
    }
}


proof fn lemma_no_errors<E>(f: spec_fn(int) -> Option<E>, n: int)
    requires
        forall|i: int| 0 <= i < n ==> (#[trigger] f(i)) is None,
    ensures
        first_some(f, n) is None,
    decreases n,
{
    if n > 0 {
        lemma_no_errors(f, n - 1);
    }
}

proof fn lemma_not_blank(s: Seq<char>)
    requires
        s.len() > 0,
        !is_ws(s[0]),
    ensures
        !blank(s),
{
}

/// The demo scene passes validation: every identifier it uses is filled
/// in and unique, every entity lies inside the scene, and its relationship
/// joins two of its entities.
proof fn lemma_demo_scene_is_valid(s: VisualScene)
    requires
        s.width == 18,
        s.height == 9,
        s.mode.mode_id@ == "workspace"@,
        s.mode.label@ == "Workspace"@,
        s.mode.allowed_actions@.len() == 6,
        s.mode.allowed_actions@[0]@ == "Inspect"@,
        s.mode.allowed_actions@[1]@ == "OpenFile"@,
        s.mode.allowed_actions@[2]@ == "RunCommand"@,
        s.mode.allowed_actions@[3]@ == "Navigate"@,
        s.mode.allowed_actions@[4]@ == "ExportStoryState"@,
        s.mode.allowed_actions@[5]@ == "ImportStoryState"@,
        s.mode.lifecycle.enter_status is None,
        s.mode.lifecycle.update_status is None,
        s.mode.lifecycle.exit_status is None,
        s.mode.input_map@.len() == 0,
        s.layers@.len() == 0,
        s.stage.layers@.len() == 0,
        s.variables@.len() == 3,
        s.variables@[0].key@ == "conversation_unlocked"@,
        s.variables@[1].key@ == "workspace_level"@,
        s.variables@[2].key@ == "active_track"@,
        s.rpg.inventory@.len() == 1,
        s.rpg.inventory@[0].item_id@ == "scene-token"@,
        s.rpg.inventory@[0].label@ == "Scene Token"@,
        s.rpg.stats@.len() == 1,
        s.rpg.stats@[0].owner_id matches Some(o) && o@ == "project-gameterm"@,
        s.rpg.stats@[0].key@ == "focus"@,
        s.rpg.quests@.len() == 1,
        s.rpg.quests@[0].quest_id@ == "verify-scene-runtime"@,
        s.rpg.quests@[0].label@ == "Verify Scene Runtime"@,
        s.rpg.relationships@.len() == 1,
        s.rpg.relationships@[0].source_id@ == "agent-audit"@,
        s.rpg.relationships@[0].target_id@ == "task-render"@,
        s.rpg.relationships@[0].kind@ == "monitors"@,
        s.entities@.len() == 3,
        s.entities@[0].id@ == "project-gameterm"@,
        s.entities@[1].id@ == "task-render"@,
        s.entities@[2].id@ == "agent-audit"@,
        s.entities@[0].position == (VisualPosition { x: 3, y: 2 }),
        s.entities@[1].position == (VisualPosition { x: 9, y: 4 }),
        s.entities@[2].position == (VisualPosition { x: 14, y: 2 }),
        s.dialogue_lines@.len() == 0,
        s.choices@.len() == 3,
        s.choices@[0].kind == SceneActionKind::Inspect,
        s.choices@[0].policy is None,
        s.choices@[0].conditions@.len() == 0,
        s.choices@[1].kind matches SceneActionKind::OpenFile { .. },
        s.choices@[1].policy is None,
        s.choices@[1].conditions@.len() == 0,
        s.choices@[2].kind matches SceneActionKind::RunCommand { argv, cwd, .. } && {
            &&& argv@.len() == 4
            &&& argv@[0]@ == "cargo"@
            &&& argv@[1]@ == "check"@
            &&& argv@[2]@ == "-p"@
            &&& argv@[3]@ == "gameterm-visual"@
            &&& cwd is None
        },
        s.choices@[2].policy is None,
        s.choices@[2].conditions@.len() == 0,
    ensures
        scene_error(s) is None,
{
    reveal_strlit("workspace");
    reveal_strlit("Workspace");
    reveal_strlit("Inspect");
    reveal_strlit("OpenFile");
    reveal_strlit("RunCommand");
    reveal_strlit("Navigate");
    reveal_strlit("ExportStoryState");
    reveal_strlit("ImportStoryState");
    reveal_strlit("conversation_unlocked");
    reveal_strlit("workspace_level");
    reveal_strlit("active_track");
    reveal_strlit("scene-token");
    reveal_strlit("Scene Token");
    reveal_strlit("project-gameterm");
    reveal_strlit("focus");
    reveal_strlit("verify-scene-runtime");
    reveal_strlit("Verify Scene Runtime");
    reveal_strlit("agent-audit");
    reveal_strlit("task-render");
    reveal_strlit("monitors");
    reveal_strlit("cargo");
    reveal_strlit("check");
    reveal_strlit("-p");
    reveal_strlit("gameterm-visual");
    // the mode
    lemma_not_blank(s.mode.mode_id@);
    lemma_not_blank(s.mode.label@);
    assert forall|j: int| 0 <= j < 6 implies !blank(#[trigger] s.mode.allowed_actions@[j]@) by {
        lemma_not_blank(s.mode.allowed_actions@[j]@);
    }
    lemma_no_errors(mode_binding_errors(s.mode.input_map@), 0);
    lemma_no_errors(layer_errors(s.layers@), 0);
    lemma_no_errors(stage_layer_errors(s.stage.layers@), 0);
    // the variables
    let vs = s.variables@;
    assert forall|i: int| 0 <= i < 3 implies (#[trigger] entry_errors(vs)(i)) is None by {
        lemma_not_blank(vs[i].key@);
        assert forall|j: int| 0 <= j < i implies #[trigger] vs[j].key@ != vs[i].key@ by {
            assert(vs[j].key@[0] != vs[i].key@[0] || vs[j].key@.len() != vs[i].key@.len());
        }
    }
    lemma_no_errors(entry_errors(vs), 3);
    // the role-playing state
    lemma_not_blank(s.rpg.inventory@[0].item_id@);
    lemma_not_blank(s.rpg.inventory@[0].label@);
    lemma_no_errors(inventory_errors(s.rpg.inventory@), 1);
    lemma_not_blank(s.rpg.stats@[0].key@);
    lemma_not_blank(s.rpg.stats@[0].owner_id.unwrap()@);
    lemma_no_errors(stat_errors(s.rpg.stats@), 1);
    lemma_not_blank(s.rpg.quests@[0].quest_id@);
    lemma_not_blank(s.rpg.quests@[0].label@);
    lemma_no_errors(quest_errors(s.rpg.quests@), 1);
    lemma_not_blank(s.rpg.relationships@[0].source_id@);
    lemma_not_blank(s.rpg.relationships@[0].target_id@);
    lemma_not_blank(s.rpg.relationships@[0].kind@);
    lemma_no_errors(relationship_errors(s.rpg.relationships@), 1);
    // the entities
    let es = s.entities@;
    assert forall|i: int| 0 <= i < 3 implies (#[trigger] entity_errors(s)(i)) is None by {
        assert forall|j: int| 0 <= j < i implies #[trigger] es[j].id@ != es[i].id@ by {
            assert(es[j].id@[0] != es[i].id@[0]);
        }
    }
    lemma_no_errors(entity_errors(s), 3);
    assert(es[2].id@ == s.rpg.relationships@[0].source_id@);
    assert(es[1].id@ == s.rpg.relationships@[0].target_id@);
    assert(relationship_ref_errors(s)(0) is None);
    lemma_no_errors(relationship_ref_errors(s), 1);
    lemma_no_errors(dialogue_errors(s.dialogue_lines@), 0);
    // the choices
    let argv = s.choices@[2].kind->RunCommand_argv;
    assert forall|j: int| 0 <= j < 4 implies !blank(#[trigger] argv@[j]@) by {
        lemma_not_blank(argv@[j]@);
    }
    assert forall|i: int| 0 <= i < 3 implies (#[trigger] choice_errors(s)(i)) is None by {
        assert(!any_blank_condition(s.choices@[i].conditions@));
    }
    lemma_no_errors(choice_errors(s), 3);
}

/// The directory a manifest's sprite paths are relative to: the manifest
/// path's parent, or the empty path when it has none.
pub open spec fn manifest_dir(manifest_path: Seq<char>) -> Seq<char> {
    match parent_path(manifest_path) {
        Some(d) => d,
        None => Seq::empty(),
    }
}

/// A sprite path resolved against the manifest's directory: absolute paths
/// stay, others are joined to the directory.
pub open spec fn resolved_sprite_path(dir: Seq<char>, path: Seq<char>) -> Seq<char> {
    if absolute_path(path) {
        path
    } else {
        joined_path(dir, path)
    }
}

impl VisualSpriteManifest {
    /// The manifest's sprites with their paths resolved against the
    /// directory of the manifest at `manifest_path`.
    pub fn resolve_against(&self, manifest_path: &str) -> (st: VisualSpriteManifestStatus)
        ensures
            st.manifest_path matches Some(p) && p@ == manifest_path@,
            st.warnings@.len() == 0,
            st.sprites@.len() == self.sprites@.len(),
            forall|i: int|
                0 <= i < self.sprites@.len() ==> (#[trigger] st.sprites@[i]).id == self.sprites@[i].id
                    && st.sprites@[i].path@ == resolved_sprite_path(manifest_dir(manifest_path@), self.sprites@[i].path@),
    {
        let dir = match path_parent(manifest_path) {
            Some(d) => d,
            None => String::new(),
        };
        let mut sprites: Vec<VisualResolvedSprite> = Vec::new();
        let mut i: usize = 0;
        while i < self.sprites.len()
            invariant
                i <= self.sprites@.len(),
                dir@ == manifest_dir(manifest_path@),
                sprites@.len() == i,
                forall|k: int|
                    0 <= k < i ==> (#[trigger] sprites@[k]).id == self.sprites@[k].id
                        && sprites@[k].path@ == resolved_sprite_path(dir@, self.sprites@[k].path@),
            decreases self.sprites.len() - i,
        {
            let sprite_path = self.sprites[i].path.as_str();
            let path = if path_is_absolute(sprite_path) {
                String::from_str(sprite_path)
            } else {
                path_join(dir.as_str(), sprite_path)
            };
            sprites.push(VisualResolvedSprite { id: self.sprites[i].id.clone(), path });
            i = i + 1;
        }
        VisualSpriteManifestStatus {
            manifest_path: Some(String::from_str(manifest_path)),
            sprites,
            warnings: Vec::new(),
        }
    }
}

} // verus!
