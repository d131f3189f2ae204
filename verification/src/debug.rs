//! The debug report: a flat snapshot of everything the runtime knows, for
//! inspection tools.

use vstd::prelude::*;

use crate::actions::{
    action_kind_detail, action_kind_name, action_request_detail, action_request_name,
    choice_allowed, condition_guard_detail, guard_text, kind_detail, kind_name, request_detail,
    request_name,
};
use crate::conditions::{conditions_match, first_index, meta_key_is};
use crate::model::{copy_list, copy_opt, copy_pairs, copy_strings, pm, vm, CopyView};
use crate::runtime::{selected_of, SceneRuntime};
use crate::scene_model::{
    load_status_text, VisualDialogueLine, VisualEntity, VisualEntityKind, VisualProcessState,
    VisualRpgState, VisualStateEntry,
};
use crate::schema::{
    VisualInputBinding, VisualLayerState, VisualLayerTransitionReport, VisualModeLifecycle,
    VisualRuntimeEvent,
};

verus! {

pub struct VisualSceneDebugReport {
    pub scene_path: String,
    pub load_status: String,
    pub reload_count: u64,
    pub last_error: Option<String>,
    pub action_base_dir: String,
    pub active_mode_id: String,
    pub active_mode_label: String,
    pub active_mode_description: String,
    pub active_mode_scene_profile: Option<String>,
    pub active_mode_allowed_actions: Vec<String>,
    pub active_mode_default_transition: Option<String>,
    pub active_mode_lifecycle: VisualModeLifecycle,
    pub active_mode_input_map: Vec<VisualInputBinding>,
    pub active_layers: Vec<VisualLayerState>,
    pub last_input_layer: Option<String>,
    pub last_layer_transition: Option<VisualLayerTransitionReport>,
    pub transition_history: Vec<VisualRuntimeEvent>,
    pub selected_entity_mode: Option<String>,
    pub variables: Vec<VisualStateEntry>,
    pub rpg: VisualRpgState,
    pub title: String,
    pub background: String,
    pub width: usize,
    pub height: usize,
    pub entity_count: usize,
    pub choice_count: usize,
    pub selected_entity_id: Option<String>,
    pub selected_entity_label: Option<String>,
    pub selected_entity_kind: Option<String>,
    pub selected_entity_sprite: Option<String>,
    pub selected_entity_flags: Vec<String>,
    pub selected_entity_metadata: Vec<(String, String)>,
    pub dialogue_index: Option<usize>,
    pub dialogue_line_count: usize,
    pub dialogue_history: Vec<VisualDialogueLine>,
    pub selected_choice: usize,
    pub selected_choice_label: Option<String>,
    pub selected_choice_kind: Option<String>,
    pub selected_choice_detail: Option<String>,
    pub selected_choice_enabled: bool,
    pub selected_choice_guard_detail: Option<String>,
    pub pending_action_kind: Option<String>,
    pub pending_action_detail: Option<String>,
    pub process_state: Option<VisualProcessState>,
    pub last_story_state_action: Option<String>,
    pub last_story_state_path: Option<String>,
    pub last_patch_transport: Option<String>,
    pub last_patch_source_pane_id: Option<usize>,
    pub status: String,
}

pub open spec fn kind_text(k: VisualEntityKind) -> Seq<char> {
    match k {
        VisualEntityKind::Agent => "Agent"@,
        VisualEntityKind::Memory => "Memory"@,
        VisualEntityKind::Principle => "Principle"@,
        VisualEntityKind::Project => "Project"@,
        VisualEntityKind::Task => "Task"@,
    }
}

/// The mode an entity declares in its `mode` metadata, if any.
pub open spec fn entity_mode_text(e: VisualEntity) -> Option<Seq<char>> {
    let m = pm(e.metadata@);
    let i = first_index(m, meta_key_is("mode"@));
    if i < m.len() { Some(m[i].1) } else { None }
}

pub open spec fn opt_text(o: Option<String>) -> Option<Seq<char>> {
    match o {
        Some(s) => Some(s@),
        None => None,
    }
}

pub open spec fn map_opt<A, B>(o: Option<A>, f: spec_fn(A) -> B) -> Option<B> {
    match o {
        Some(a) => Some(f(a)),
        None => None,
    }
}

/// Every field of the report taken from the runtime.
pub open spec fn report_of(r: SceneRuntime, d: VisualSceneDebugReport) -> bool {
    let sel = selected_of(r.scene, r.selected_entity);
    let choice = if r.selected_choice < r.scene.choices@.len() {
        Some(r.scene.choices@[r.selected_choice as int])
    } else {
        None
    };
    &&& d.scene_path == r.scene_source.scene_path
    &&& d.load_status@ == load_status_text(r.scene_source.load_status)
    &&& d.reload_count == r.scene_source.reload_count
    &&& d.last_error == r.scene_source.last_error
    &&& d.action_base_dir == r.action_base_dir
    &&& d.active_mode_id == r.scene.mode.mode_id
    &&& d.active_mode_label == r.scene.mode.label
    &&& d.active_mode_description == r.scene.mode.description
    &&& d.active_mode_scene_profile == r.scene.mode.scene_profile
    &&& d.active_mode_allowed_actions@ == r.scene.mode.allowed_actions@
    &&& d.active_mode_default_transition == r.scene.mode.default_transition
    &&& d.active_mode_lifecycle == r.scene.mode.lifecycle
    &&& vm(d.active_mode_input_map@) == vm(r.scene.mode.input_map@)
    &&& vm(d.active_layers@) == vm(r.scene.layers@)
    &&& d.last_input_layer == r.last_input_layer
    &&& d.last_layer_transition == r.last_layer_transition
    &&& d.transition_history@ == r.transition_history@
    &&& opt_text(d.selected_entity_mode) == (match sel {
        Some(e) => entity_mode_text(e),
        None => None,
    })
    &&& vm(d.variables@) == vm(r.scene.variables@)
    &&& d.rpg@ == r.scene.rpg@
    &&& d.title == r.scene.title
    &&& d.background == r.scene.background
    &&& d.width == r.scene.width
    &&& d.height == r.scene.height
    &&& d.entity_count == r.scene.entities@.len()
    &&& d.choice_count == r.scene.choices@.len()
    &&& d.selected_entity_id == map_opt(sel, |e: VisualEntity| e.id)
    &&& d.selected_entity_label == map_opt(sel, |e: VisualEntity| e.label)
    &&& opt_text(d.selected_entity_kind) == map_opt(sel, |e: VisualEntity| kind_text(e.kind))
    &&& d.selected_entity_sprite == map_opt(sel, |e: VisualEntity| e.sprite)
    &&& d.selected_entity_flags@ == (match sel {
        Some(e) => e.state_flags@,
        None => Seq::empty(),
    })
    &&& d.selected_entity_metadata@ == (match sel {
        Some(e) => e.metadata@,
        None => Seq::empty(),
    })
    &&& d.dialogue_index == (if r.dialogue_index < r.scene.dialogue_lines@.len() {
        Some(r.dialogue_index)
    } else {
        None
    })
    &&& d.dialogue_line_count == r.scene.dialogue_lines@.len()
    &&& vm(d.dialogue_history@) == vm(r.dialogue_history@)
    &&& d.selected_choice == r.selected_choice
    &&& d.selected_choice_label == map_opt(choice, |c: crate::scene_model::SceneAction| c.label)
    &&& opt_text(d.selected_choice_kind) == map_opt(
        choice,
        |c: crate::scene_model::SceneAction| kind_name(c.kind),
    )
    &&& opt_text(d.selected_choice_detail) == map_opt(
        choice,
        |c: crate::scene_model::SceneAction| kind_detail(c.kind),
    )
    &&& d.selected_choice_enabled == (match choice {
        Some(c) => choice_allowed(r, c),
        None => false,
    })
    &&& opt_text(d.selected_choice_guard_detail) == (match choice {
        Some(c) => guard_text(c.conditions@),
        None => None,
    })
    &&& opt_text(d.pending_action_kind) == map_opt(
        r.pending_action,
        |a: crate::scene_model::VisualActionRequest| request_name(a),
    )
    &&& opt_text(d.pending_action_detail) == map_opt(
        r.pending_action,
        |a: crate::scene_model::VisualActionRequest| request_detail(a),
    )
    &&& d.process_state == r.last_process_state
    &&& d.last_story_state_action == r.last_story_state_action
    &&& d.last_story_state_path == r.last_story_state_path
    &&& d.last_patch_transport == r.last_patch_transport
    &&& d.last_patch_source_pane_id == r.last_patch_source_pane_id
    &&& d.status == r.status
}

fn copy_lifecycle(l: &VisualModeLifecycle) -> (r: VisualModeLifecycle)
    ensures
        r == *l,
{
    VisualModeLifecycle {
        enter_status: copy_opt(&l.enter_status),
        update_status: copy_opt(&l.update_status),
        exit_status: copy_opt(&l.exit_status),
    }
}

fn copy_transition_report(t: &Option<VisualLayerTransitionReport>) -> (r: Option<
    VisualLayerTransitionReport,
>)
    ensures
        r == *t,
{
    match t {
        Some(x) => Some(
            VisualLayerTransitionReport {
                layer_id: x.layer_id.clone(),
                input: x.input.clone(),
                from_state: x.from_state.clone(),
                target_state: x.target_state.clone(),
            },
        ),
        None => None,
    }
}

fn copy_events(v: &Vec<VisualRuntimeEvent>) -> (r: Vec<VisualRuntimeEvent>)
    ensures
        r@ == v@,
{
    let mut r: Vec<VisualRuntimeEvent> = Vec::new();
    let mut i: usize = 0;
    while i < v.len()
        invariant
            i <= v@.len(),
            r@ == v@.take(i as int),
        decreases v.len() - i,
    {
        r.push(VisualRuntimeEvent { kind: v[i].kind.clone(), detail: v[i].detail.clone() });
        proof {
            assert(r@ =~= v@.take(i + 1));
        }
        i = i + 1;
    }
    proof {
        assert(v@.take(v@.len() as int) =~= v@);
    }
    r
}

fn copy_process(p: &Option<VisualProcessState>) -> (r: Option<VisualProcessState>)
    ensures
        r == *p,
{
    match p {
        Some(x) => Some(
            VisualProcessState {
                entity_id: copy_opt(&x.entity_id),
                phase: x.phase,
                command: copy_opt(&x.command),
                exit_code: x.exit_code,
                message: copy_opt(&x.message),
            },
        ),
        None => None,
    }
}

fn kind_debug(k: VisualEntityKind) -> (s: String)
    ensures
        s@ == kind_text(k),
{
    String::from_str(
        match k {
            VisualEntityKind::Agent => "Agent",
            VisualEntityKind::Memory => "Memory",
            VisualEntityKind::Principle => "Principle",
            VisualEntityKind::Project => "Project",
            VisualEntityKind::Task => "Task",
        },
    )
}

/// The mode an entity declares in its `mode` metadata.
pub fn entity_mode(e: &VisualEntity) -> (r: Option<String>)
    ensures
        opt_text(r) == entity_mode_text(*e),
{
    let ghost m = pm(e.metadata@);
    let ghost p = meta_key_is("mode"@);
    let mut i: usize = 0;
    while i < e.metadata.len()
        invariant
            i <= e.metadata@.len(),
            m == pm(e.metadata@),
            p == meta_key_is("mode"@),
            crate::conditions::first_from(m, p, i as int) == first_index(m, p),
        decreases e.metadata.len() - i,
    {
        if crate::text::str_equal(e.metadata[i].0.as_str(), "mode") {
            return Some(e.metadata[i].1.clone());
        }
        i = i + 1;
    }
    None
}

impl SceneRuntime {
    /// A snapshot of the runtime for inspection (see `report_of`).
    pub fn debug_report(&self) -> (d: VisualSceneDebugReport)
        ensures
            report_of(*self, d),
    {
        let sel = self.selected_entity();
        let has_choice = self.selected_choice < self.scene.choices.len();
        let selected_choice_enabled = if has_choice {
            conditions_match(
                self.scene.choices[self.selected_choice].conditions.as_slice(),
                self.scene.variables.as_slice(),
                &self.scene.rpg,
                self.selected_entity(),
                self.last_process_state.as_ref(),
            )
        } else {
            false
        };
        let (label, kind, detail, guard) = if has_choice {
            let c = &self.scene.choices[self.selected_choice];
            (
                Some(c.label.clone()),
                Some(action_kind_name(&c.kind)),
                Some(action_kind_detail(&c.kind)),
                condition_guard_detail(&c.conditions),
            )
        } else {
            (None, None, None, None)
        };
        let (pending_kind, pending_detail) = match &self.pending_action {
            Some(a) => (Some(action_request_name(a)), Some(action_request_detail(a))),
            None => (None, None),
        };
        let (sel_id, sel_label, sel_kind, sel_sprite, sel_flags, sel_meta, sel_mode) = match sel {
            Some(e) => (
                Some(e.id.clone()),
                Some(e.label.clone()),
                Some(kind_debug(e.kind)),
                Some(e.sprite.clone()),
                copy_strings(&e.state_flags),
                copy_pairs(&e.metadata),
                entity_mode(e),
            ),
            None => (None, None, None, None, Vec::new(), Vec::new(), None),
        };
        let d = VisualSceneDebugReport {
            scene_path: self.scene_source.scene_path.clone(),
            load_status: String::from_str(self.scene_source.load_status.as_str()),
            reload_count: self.scene_source.reload_count,
            last_error: copy_opt(&self.scene_source.last_error),
            action_base_dir: self.action_base_dir.clone(),
            active_mode_id: self.scene.mode.mode_id.clone(),
            active_mode_label: self.scene.mode.label.clone(),
            active_mode_description: self.scene.mode.description.clone(),
            active_mode_scene_profile: copy_opt(&self.scene.mode.scene_profile),
            active_mode_allowed_actions: copy_strings(&self.scene.mode.allowed_actions),
            active_mode_default_transition: copy_opt(&self.scene.mode.default_transition),
            active_mode_lifecycle: copy_lifecycle(&self.scene.mode.lifecycle),
            active_mode_input_map: copy_list(&self.scene.mode.input_map),
            active_layers: copy_list(&self.scene.layers),
            last_input_layer: copy_opt(&self.last_input_layer),
            last_layer_transition: copy_transition_report(&self.last_layer_transition),
            transition_history: copy_events(&self.transition_history),
            selected_entity_mode: sel_mode,
            variables: copy_list(&self.scene.variables),
            rpg: self.scene.rpg.copy(),
            title: self.scene.title.clone(),
            background: self.scene.background.clone(),
            width: self.scene.width,
            height: self.scene.height,
            entity_count: self.scene.entities.len(),
            choice_count: self.scene.choices.len(),
            selected_entity_id: sel_id,
            selected_entity_label: sel_label,
            selected_entity_kind: sel_kind,
            selected_entity_sprite: sel_sprite,
            selected_entity_flags: sel_flags,
            selected_entity_metadata: sel_meta,
            dialogue_index: if self.dialogue_index < self.scene.dialogue_lines.len() {
                Some(self.dialogue_index)
            } else {
                None
            },
            dialogue_line_count: self.scene.dialogue_lines.len(),
            dialogue_history: copy_list(&self.dialogue_history),
            selected_choice: self.selected_choice,
            selected_choice_label: label,
            selected_choice_kind: kind,
            selected_choice_detail: detail,
            selected_choice_enabled,
            selected_choice_guard_detail: guard,
            pending_action_kind: pending_kind,
            pending_action_detail: pending_detail,
            process_state: copy_process(&self.last_process_state),
            last_story_state_action: copy_opt(&self.last_story_state_action),
            last_story_state_path: copy_opt(&self.last_story_state_path),
            last_patch_transport: copy_opt(&self.last_patch_transport),
            last_patch_source_pane_id: self.last_patch_source_pane_id,
            status: self.status.clone(),
        };
        d
    }
}

} // verus!
