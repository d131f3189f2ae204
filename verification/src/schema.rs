//! Scene mode descriptor, interactive layers and their transitions, and the
//! runtime event records.

use vstd::prelude::*;

use crate::scene_model::VisualCondition;

verus! {

#[derive(Debug, Clone, PartialEq, Eq)]
pub struct VisualModeDescriptor {
    pub mode_id: String,
    pub label: String,
    pub description: String,
    pub scene_profile: Option<String>,
    pub allowed_actions: Vec<String>,
    pub default_transition: Option<String>,
    pub lifecycle: VisualModeLifecycle,
    pub input_map: Vec<VisualInputBinding>,
}

#[derive(Debug, Clone, PartialEq, Eq)]
pub struct VisualModeLifecycle {
    pub enter_status: Option<String>,
    pub update_status: Option<String>,
    pub exit_status: Option<String>,
}

impl VisualModeLifecycle {
    /// A lifecycle with no status messages.
    pub fn none() -> (l: VisualModeLifecycle)
        ensures
            l.enter_status is None,
            l.update_status is None,
            l.exit_status is None,
    {
        VisualModeLifecycle { enter_status: None, update_status: None, exit_status: None }
    }
}

#[derive(Debug, Clone, PartialEq, Eq)]
pub struct VisualInputBinding {
    pub input: String,
    pub action: String,
    pub conditions: Vec<VisualCondition>,
}

#[derive(Debug, Clone, PartialEq, Eq)]
pub struct VisualLayerState {
    pub layer_id: String,
    pub state: String,
    pub input_map: Vec<VisualInputBinding>,
    pub transitions: Vec<VisualLayerTransition>,
}

#[derive(Debug, Clone, PartialEq, Eq)]
pub struct VisualLayerTransition {
    pub input: String,
    pub target_state: String,
    pub conditions: Vec<VisualCondition>,
}

#[derive(Debug, Clone, PartialEq, Eq)]
pub struct VisualLayerTransitionReport {
    pub layer_id: String,
    pub input: String,
    pub from_state: String,
    pub target_state: String,
}

#[derive(Debug, Clone, PartialEq, Eq)]
pub struct VisualRuntimeEvent {
    pub kind: String,
    pub detail: String,
}

} // verus!
