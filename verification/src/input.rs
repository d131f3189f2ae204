//! Input handling: the action an input triggers by default, what each mode
//! action does to the runtime, and how interactive layers intercept input
//! through their transitions and bindings.

use vstd::prelude::*;

use crate::actions::{
    activate_spec, choice_allowed, guard_text, process_model, selected_model,
    condition_guard_detail, story_state_export_outcome, story_state_import_outcome,
    SceneActionOutcome, applied, resolved_path,
};
use crate::conditions::{all_conditions_hold, conditions_match, first_from, first_index};
use crate::model::{vm, LayerModel, BindingModel, TransitionModel};
use crate::runtime::{
    after_next_choice, after_next_entity, after_prev_choice, after_prev_entity, next_generation,
    recorded, SceneRuntime,
};
use crate::scene_model::{binding_key_text, VisualInput, VisualModeOutcome, VisualView};
use crate::schema::{VisualInputBinding, VisualLayerTransition, VisualLayerTransitionReport};
use crate::text::{str_equal, trim, trim_seq};

verus! {

/// Where story state is written and read by default, relative to the
/// action base directory.
pub open spec fn default_story_state_file() -> Seq<char> {
    "story_state.json"@
}

pub open spec fn default_action_text(input: VisualInput) -> Seq<char> {
    match input {
        VisualInput::Close => "close"@,
        VisualInput::Reload => "reload"@,
        VisualInput::ToggleDebug => "toggle_debug"@,
        VisualInput::Activate => "activate_choice"@,
        VisualInput::Next => "select_next"@,
        VisualInput::Previous => "select_previous"@,
        VisualInput::Left => "select_previous"@,
        VisualInput::Right => "select_next"@,
        _ => "ignore"@,
    }
}

/// The mode action an input triggers when no layer binds it.
pub fn default_mode_input_action(input: VisualInput) -> (s: &'static str)
    ensures
        s@ == default_action_text(input),
{
    match input {
        VisualInput::Close => "close",
        VisualInput::Reload => "reload",
        VisualInput::ToggleDebug => "toggle_debug",
        VisualInput::Activate => "activate_choice",
        VisualInput::Next => "select_next",
        VisualInput::Previous => "select_previous",
        VisualInput::Left => "select_previous",
        VisualInput::Right => "select_next",
        _ => "ignore",
    }
}

pub open spec fn with_view(r: SceneRuntime, v: VisualView) -> SceneRuntime {
    SceneRuntime { view: v, generation: next_generation(r.generation), ..r }
}

/// The runtime after showing an optional lifecycle status.
pub open spec fn after_hook(r: SceneRuntime, status: Option<String>) -> SceneRuntime {
    match status {
        Some(s) => SceneRuntime { status: s, generation: next_generation(r.generation), ..r },
        None => r,
    }
}

/// A story-state request for the default file: the outcome shown and the
/// action and path remembered.
pub open spec fn story_request(old: SceneRuntime, new: SceneRuntime, export: bool) -> bool {
    let path = resolved_path(old.action_base_dir@, default_story_state_file());
    exists|o: SceneActionOutcome, mid: SceneRuntime|
        #![trigger applied(mid, o, new)]
        {
            &&& mid == SceneRuntime {
                last_story_state_action: mid.last_story_state_action,
                last_story_state_path: mid.last_story_state_path,
                ..old
            }
            &&& mid.last_story_state_action matches Some(a) && a@ == (if export {
                "export"@
            } else {
                "import"@
            })
            &&& mid.last_story_state_path matches Some(p) && p@ == path
            &&& o.status@ == (if export {
                "ExportStoryState ready: "@
            } else {
                "ImportStoryState ready: "@
            }) + path
            &&& o.events@.len() == 0
            &&& export ==> (o.pending_action matches Some(
                crate::scene_model::VisualActionRequest::ExportStoryState { path: p },
            ) && p@ == path)
            &&& !export ==> (o.pending_action matches Some(
                crate::scene_model::VisualActionRequest::ImportStoryState { path: p },
            ) && p@ == path)
            &&& applied(mid, o, new)
        }
}

/// What a mode action does. Unknown actions, `reload` and `ignore` do
/// nothing; `close` ends the mode.
pub open spec fn mode_action_spec(
    old: SceneRuntime,
    new: SceneRuntime,
    action: Seq<char>,
    r: VisualModeOutcome,
) -> bool {
    if action == "close"@ {
        r == VisualModeOutcome::Exit && new == old
    } else {
        &&& r == VisualModeOutcome::Continue
        &&& if action == "toggle_debug"@ {
            new == with_view(
                old,
                if old.view == VisualView::TileDebugger {
                    VisualView::Scene
                } else {
                    VisualView::TileDebugger
                },
            )
        } else if action == "show_command_selection"@ {
            new == with_view(old, VisualView::CommandSelection)
        } else if action == "hide_command_selection"@ {
            new == with_view(old, VisualView::Scene)
        } else if action == "toggle_command_selection"@ {
            new == with_view(
                old,
                if old.view == VisualView::CommandSelection {
                    VisualView::Scene
                } else {
                    VisualView::CommandSelection
                },
            )
        } else if action == "activate_choice"@ {
            activate_spec(old, new)
        } else if action == "select_next"@ {
            new == after_next_choice(
                if old.view != VisualView::CommandSelection {
                    after_next_entity(old)
                } else {
                    old
                },
            )
        } else if action == "select_previous"@ {
            new == after_prev_choice(
                if old.view != VisualView::CommandSelection {
                    after_prev_entity(old)
                } else {
                    old
                },
            )
        } else if action == "run_update_hooks"@ {
            new == after_hook(old, old.scene.mode.lifecycle.update_status)
        } else if action == "run_exit_hooks"@ {
            new == after_hook(old, old.scene.mode.lifecycle.exit_status)
        } else if action == "export_story_state"@ {
            story_request(old, new, true)
        } else if action == "import_story_state"@ {
            story_request(old, new, false)
        } else {
            new == old
        }
    }
}

impl SceneRuntime {
    fn set_view(&mut self, v: VisualView)
        ensures
            *final(self) == with_view(*old(self), v),
    {
        self.view = v;
        self.bump_generation();
    }

    fn run_hook(&mut self, update: bool)
        ensures
            *final(self) == after_hook(
                *old(self),
                if update {
                    old(self).scene.mode.lifecycle.update_status
                } else {
                    old(self).scene.mode.lifecycle.exit_status
                },
            ),
    {
        let status = if update {
            crate::model::copy_opt(&self.scene.mode.lifecycle.update_status)
        } else {
            crate::model::copy_opt(&self.scene.mode.lifecycle.exit_status)
        };
        match status {
            Some(s) => {
                self.status = s;
                self.bump_generation();
            },
            None => {},
        }
    }

    fn request_story_state(&mut self, export: bool)
        ensures
            story_request(*old(self), *final(self), export),
    {
        let path = self.resolve_action_path("story_state.json");
        self.last_story_state_action = Some(
            String::from_str(
                if export {
                    "export"
                } else {
                    "import"
                },
            ),
        );
        self.last_story_state_path = Some(path.clone());
        let ghost mid = *self;
        let o = if export {
            story_state_export_outcome(path)
        } else {
            story_state_import_outcome(path)
        };
        let ghost ov = o;
        self.apply_action_outcome(o);
        proof {
            assert(applied(mid, ov, *self));
        }
    }

    /// Carries out a mode action (see `mode_action_spec`).
    pub fn run_mode_input_action(&mut self, action: &str) -> (r: VisualModeOutcome)
        ensures
            mode_action_spec(*old(self), *final(self), action@, r),
    {
        if str_equal(action, "close") {
            return VisualModeOutcome::Exit;
        }
        if str_equal(action, "toggle_debug") {
            let v = if self.view == VisualView::TileDebugger {
                VisualView::Scene
            } else {
                VisualView::TileDebugger
            };
            self.set_view(v);
        } else if str_equal(action, "show_command_selection") {
            self.set_view(VisualView::CommandSelection);
        } else if str_equal(action, "hide_command_selection") {
            self.set_view(VisualView::Scene);
        } else if str_equal(action, "toggle_command_selection") {
            let v = if self.view == VisualView::CommandSelection {
                VisualView::Scene
            } else {
                VisualView::CommandSelection
            };
            self.set_view(v);
        } else if str_equal(action, "activate_choice") {
            self.activate_choice();
        } else if str_equal(action, "select_next") {
            if self.view != VisualView::CommandSelection {
                self.select_next_entity();
            }
            self.select_next_choice();
        } else if str_equal(action, "select_previous") {
            if self.view != VisualView::CommandSelection {
                self.select_prev_entity();
            }
            self.select_prev_choice();
        } else if str_equal(action, "run_update_hooks") {
            self.run_hook(true);
        } else if str_equal(action, "run_exit_hooks") {
            self.run_hook(false);
        } else if str_equal(action, "export_story_state") {
            self.request_story_state(true);
        } else if str_equal(action, "import_story_state") {
            self.request_story_state(false);
        }
        VisualModeOutcome::Continue
    }
}


// ---------------------------------------------------------------- layers

pub open spec fn transition_for(key: Seq<char>) -> spec_fn(TransitionModel) -> bool {
    |t: TransitionModel| trim_seq(t.input) == key
}

pub open spec fn binding_for(key: Seq<char>) -> spec_fn(BindingModel) -> bool {
    |b: BindingModel| trim_seq(b.input) == key
}

/// A layer has a transition or a binding for the input.
pub open spec fn layer_reacts(key: Seq<char>) -> spec_fn(LayerModel) -> bool {
    |l: LayerModel|
        first_index(l.transitions, transition_for(key)) < l.transitions.len() || first_index(
            l.input_map,
            binding_for(key),
        ) < l.input_map.len()
}

pub open spec fn guard_or_default(conds: Seq<crate::scene_model::VisualCondition>) -> Seq<char> {
    match guard_text(conds) {
        Some(t) => t,
        None => "guard condition not met"@,
    }
}

/// What a layer does with input `key`: the first layer with a transition or
/// binding for it reacts; a transition (preferred over a binding) moves the
/// layer to its trimmed target state when its guard holds, and reports the
/// attempt either way; a binding whose guard holds runs its trimmed action
/// as a mode action. No reacting layer: nothing happens and `None` is
/// returned.
pub open spec fn layer_input_spec(
    old: SceneRuntime,
    new: SceneRuntime,
    key: Seq<char>,
    r: Option<VisualModeOutcome>,
) -> bool {
    let ls = vm(old.scene.layers@);
    let k = first_index(ls, layer_reacts(key));
    if k >= ls.len() {
        r is None && new == old
    } else {
        let layer = old.scene.layers@[k];
        let id = layer.layer_id;
        let t = first_index(ls[k].transitions, transition_for(key));
        if t < ls[k].transitions.len() {
            let tr = layer.transitions@[t];
            let target = trim_seq(tr.target_state@);
            let allowed = all_conditions_hold(
                vm(tr.conditions@),
                vm(old.scene.variables@),
                old.scene.rpg@,
                selected_model(old),
                process_model(old),
            );
            &&& r == Some(VisualModeOutcome::Continue)
            &&& new == SceneRuntime {
                scene: crate::scene_model::VisualScene { layers: new.scene.layers, ..old.scene },
                last_input_layer: Some(id),
                last_layer_transition: new.last_layer_transition,
                status: new.status,
                transition_history: new.transition_history,
                generation: next_generation(old.generation),
                ..old
            }
            &&& new.last_layer_transition matches Some(rep) && rep.layer_id == id && rep.input@
                == key && rep.from_state == layer.state && rep.target_state@ == target
            &&& vm(new.scene.layers@) == (if allowed {
                ls.update(k, LayerModel { state: target, ..ls[k] })
            } else {
                ls
            })
            &&& new.status@ == (if allowed {
                "Layer "@ + id@ + " transitioned: "@ + layer.state@ + " -> "@ + target
            } else {
                "Layer transition unavailable: "@ + id@ + " "@ + guard_or_default(tr.conditions@)
            })
            &&& recorded(
                old.transition_history@,
                new.transition_history@,
                "transition"@,
                if allowed {
                    id@ + " "@ + layer.state@ + " -> "@ + target
                } else {
                    id@ + " "@ + layer.state@ + " -> "@ + target + " blocked"@
                },
            )
        } else {
            let b = first_index(ls[k].input_map, binding_for(key));
            let bd = layer.input_map@[b];
            let allowed = all_conditions_hold(
                vm(bd.conditions@),
                vm(old.scene.variables@),
                old.scene.rpg@,
                selected_model(old),
                process_model(old),
            );
            if !allowed {
                &&& r == Some(VisualModeOutcome::Continue)
                &&& new == SceneRuntime {
                    last_input_layer: Some(id),
                    status: new.status,
                    transition_history: new.transition_history,
                    generation: next_generation(old.generation),
                    ..old
                }
                &&& new.status@ == "Layer input unavailable: "@ + id@ + " "@ + guard_or_default(
                    bd.conditions@,
                )
                &&& recorded(
                    old.transition_history@,
                    new.transition_history@,
                    "input"@,
                    id@ + " "@ + key + " blocked"@,
                )
            } else {
                exists|mid: SceneRuntime|
                    #![trigger recorded(old.transition_history@, mid.transition_history@, "input"@, id@ + " "@ + key)]
                    {
                        &&& mid == SceneRuntime {
                            last_input_layer: Some(id),
                            transition_history: mid.transition_history,
                            ..old
                        }
                        &&& recorded(
                            old.transition_history@,
                            mid.transition_history@,
                            "input"@,
                            id@ + " "@ + key,
                        )
                        &&& r matches Some(o) && mode_action_spec(mid, new, trim_seq(bd.action@), o)
                    }
            }
        }
    }
}

fn find_transition_for(ts: &Vec<VisualLayerTransition>, key: &str) -> (r: Option<usize>)
    ensures
        r matches Some(i) ==> i == first_index(vm(ts@), transition_for(key@)) && i < ts@.len(),
        r is None ==> first_index(vm(ts@), transition_for(key@)) == ts@.len(),
{
    let ghost m = vm(ts@);
    let mut i: usize = 0;
    while i < ts.len()
        invariant
            i <= ts@.len(),
            m == vm(ts@),
            first_from(m, transition_for(key@), i as int) == first_index(m, transition_for(key@)),
        decreases ts.len() - i,
    {
        let t = trim(ts[i].input.as_str());
        if str_equal(t.as_str(), key) {
            return Some(i);
        }
        i = i + 1;
    }
    None
}

fn find_binding_for(bs: &Vec<VisualInputBinding>, key: &str) -> (r: Option<usize>)
    ensures
        r matches Some(i) ==> i == first_index(vm(bs@), binding_for(key@)) && i < bs@.len(),
        r is None ==> first_index(vm(bs@), binding_for(key@)) == bs@.len(),
{
    let ghost m = vm(bs@);
    let mut i: usize = 0;
    while i < bs.len()
        invariant
            i <= bs@.len(),
            m == vm(bs@),
            first_from(m, binding_for(key@), i as int) == first_index(m, binding_for(key@)),
        decreases bs.len() - i,
    {
        let t = trim(bs[i].input.as_str());
        if str_equal(t.as_str(), key) {
            return Some(i);
        }
        i = i + 1;
    }
    None
}

impl SceneRuntime {
    /// Lets the interactive layers handle an input (see `layer_input_spec`).
    pub fn handle_layer_input(&mut self, input: VisualInput) -> (r: Option<VisualModeOutcome>)
        ensures
            layer_input_spec(*old(self), *final(self), binding_key_text(input), r),
    {
        let key = input.binding_key();
        let ghost ls = vm(self.scene.layers@);
        let ghost p = layer_reacts(key@);
        let mut k: usize = 0;
        while k < self.scene.layers.len()
            invariant
                *self == *old(self),
                key@ == binding_key_text(input),
                ls == vm(self.scene.layers@),
                p == layer_reacts(key@),
                k <= ls.len(),
                first_from(ls, p, k as int) == first_index(ls, p),
            decreases self.scene.layers.len() - k,
        {
            proof {
                assert(ls[k as int] == self.scene.layers@[k as int]@);
            }
            let t = find_transition_for(&self.scene.layers[k].transitions, key);
            match t {
                Some(t) => {
                    let layer_id = self.scene.layers[k].layer_id.clone();
                    let from_state = self.scene.layers[k].state.clone();
                    let target = trim(self.scene.layers[k].transitions[t].target_state.as_str());
                    proof {
                        assert(vm(self.scene.layers@[k as int].transitions@)[t as int].conditions == vm(
                            self.scene.layers@[k as int].transitions@[t as int].conditions@,
                        ));
                    }
                    let allowed = conditions_match(
                        self.scene.layers[k].transitions[t].conditions.as_slice(),
                        self.scene.variables.as_slice(),
                        &self.scene.rpg,
                        self.selected_entity(),
                        self.last_process_state.as_ref(),
                    );
                    let guard = condition_guard_detail(&self.scene.layers[k].transitions[t].conditions);
                    self.last_input_layer = Some(layer_id.clone());
                    let mut detail = layer_id.clone();
                    detail.append(" ");
                    detail.append(from_state.as_str());
                    detail.append(" -> ");
                    detail.append(target.as_str());
                    if allowed {
                        let ghost before = vm(self.scene.layers@);
                        self.scene.layers[k].state = target.clone();
                        proof {
                            assert(vm(self.scene.layers@) =~= before.update(
                                k as int,
                                LayerModel { state: target@, ..before[k as int] },
                            ));
                        }
                        let mut s = String::from_str("Layer ");
                        s.append(layer_id.as_str());
                        s.append(" transitioned: ");
                        s.append(from_state.as_str());
                        s.append(" -> ");
                        s.append(target.as_str());
                        self.status = s;
                    } else {
                        let mut s = String::from_str("Layer transition unavailable: ");
                        s.append(layer_id.as_str());
                        s.append(" ");
                        match guard {
                            Some(g) => s.append(g.as_str()),
                            None => s.append("guard condition not met"),
                        }
                        self.status = s;
                        detail.append(" blocked");
                    }
                    self.record_runtime_event(String::from_str("transition"), detail);
                    self.last_layer_transition = Some(
                        VisualLayerTransitionReport {
                            layer_id,
                            input: String::from_str(key),
                            from_state,
                            target_state: target,
                        },
                    );
                    self.bump_generation();
                    return Some(VisualModeOutcome::Continue);
                },
                None => {},
            }
            let b = find_binding_for(&self.scene.layers[k].input_map, key);
            match b {
                Some(b) => {
                    let layer_id = self.scene.layers[k].layer_id.clone();
                    proof {
                        assert(vm(self.scene.layers@[k as int].input_map@)[b as int].conditions == vm(
                            self.scene.layers@[k as int].input_map@[b as int].conditions@,
                        ));
                    }
                    let allowed = conditions_match(
                        self.scene.layers[k].input_map[b].conditions.as_slice(),
                        self.scene.variables.as_slice(),
                        &self.scene.rpg,
                        self.selected_entity(),
                        self.last_process_state.as_ref(),
                    );
                    let guard = condition_guard_detail(&self.scene.layers[k].input_map[b].conditions);
                    let action = trim(self.scene.layers[k].input_map[b].action.as_str());
                    self.last_input_layer = Some(layer_id.clone());
                    let mut detail = layer_id.clone();
                    detail.append(" ");
                    detail.append(key);
                    if !allowed {
                        let mut s = String::from_str("Layer input unavailable: ");
                        s.append(layer_id.as_str());
                        s.append(" ");
                        match guard {
                            Some(g) => s.append(g.as_str()),
                            None => s.append("guard condition not met"),
                        }
                        self.status = s;
                        detail.append(" blocked");
                        self.record_runtime_event(String::from_str("input"), detail);
                        self.bump_generation();
                        return Some(VisualModeOutcome::Continue);
                    }
                    self.record_runtime_event(String::from_str("input"), detail);
                    let ghost mid = *self;
                    let r = self.run_mode_input_action(action.as_str());
                    proof {
                        assert(recorded(
                            old(self).transition_history@,
                            mid.transition_history@,
                            "input"@,
                            layer_id@ + " "@ + key@,
                        ));
                    }
                    return Some(r);
                },
                None => {},
            }
            k = k + 1;
        }
        None
    }
}

/// A layer input is unhandled exactly when no layer has a transition or a
/// binding for it, and an unhandled input changes nothing.
pub proof fn law_unhandled_layer_input_changes_nothing(
    old: SceneRuntime,
    new: SceneRuntime,
    key: Seq<char>,
    r: Option<VisualModeOutcome>,
)
    requires
        layer_input_spec(old, new, key, r),
    ensures
        r is None <==> forall|i: int|
            0 <= i < old.scene.layers@.len() ==> !layer_reacts(key)(#[trigger] vm(old.scene.layers@)[i]),
        r is None ==> new == old,
{
    let ls = vm(old.scene.layers@);
    crate::conditions::lemma_first_index(ls, layer_reacts(key));
    let k = first_index(ls, layer_reacts(key));
    if k < ls.len() {
        assert(layer_reacts(key)(ls[k]));
        assert(r is Some);
    }
}

} // verus!
