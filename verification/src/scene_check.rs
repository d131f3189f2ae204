//! Whole-scene validation and the static checks of resolve operations.

use vstd::prelude::*;

use crate::scene_errors::{
    first_some, lemma_first_some_at, lemma_first_some_from, lemma_first_some_none, VisualDialogueLineError,
    VisualSceneError, VisualStateEntryError,
};
use crate::scene_model::{
    SceneAction, SceneActionKind, VisualDialogueLine, VisualEntity, VisualScene,
    VisualStateOperation,
};
use crate::scene_validate::{
    any_blank_condition, has_blank_condition, is_supported_mode_input,
    is_supported_mode_input_action, layers_error, stage_error, supported_mode_input,
    supported_mode_input_action, validate_layers, validate_stage,
};
use crate::schema::{VisualInputBinding, VisualLayerState, VisualModeDescriptor};
use crate::text::{blank, is_blank, trim, trim_seq};
use crate::validation::{
    dialogue_lines_error, duplicate_relationship_key, rpg_error, same_result, state_entries_error,
    validate_dialogue_lines, validate_rpg_state, validate_state_entries,
};

verus! {

// ---------------------------------------------------------------- operations

/// Some layer has the given id.
pub open spec fn has_layer(layers: Seq<VisualLayerState>, id: Seq<char>) -> bool {
    exists|j: int| 0 <= j < layers.len() && #[trigger] layers[j].layer_id@ == id
}

/// Some entity has the given id.
pub open spec fn has_entity(entities: Seq<VisualEntity>, id: Seq<char>) -> bool {
    exists|j: int| 0 <= j < entities.len() && #[trigger] entities[j].id@ == id
}

/// The identifier an operation is keyed by is blank.
pub open spec fn op_key_blank(op: VisualStateOperation) -> bool {
    match op {
        VisualStateOperation::SetVariable { key, .. } => blank(key@),
        VisualStateOperation::SetLayerState { layer_id, .. } => blank(layer_id@),
        VisualStateOperation::SelectEntity { entity_id } => blank(entity_id@),
        VisualStateOperation::SetEntityFlags { entity_id, .. } => blank(entity_id@),
        VisualStateOperation::SetEntityMetadata { entity_id, .. } => blank(entity_id@),
        VisualStateOperation::SetEntityVisibility { entity_id, .. } => blank(entity_id@),
        VisualStateOperation::AdvanceDialogueAndSetLayer { layer_id, .. } => blank(layer_id@),
        VisualStateOperation::TriggerLayerTransition { layer_id, input } => blank(layer_id@) || blank(
            input@,
        ),
        VisualStateOperation::IncrementVariable { key, .. } => blank(key@),
        VisualStateOperation::ClearVariable { key } => blank(key@),
        VisualStateOperation::AddInventory { item } => blank(item.item_id@),
        VisualStateOperation::RemoveInventory { item_id, .. } => blank(item_id@),
        VisualStateOperation::SetStat { key, .. } => blank(key@),
        VisualStateOperation::AdjustStat { key, .. } => blank(key@),
        VisualStateOperation::AdvanceQuest { quest_id, .. } => blank(quest_id@),
        VisualStateOperation::CompleteQuest { quest_id } => blank(quest_id@),
        VisualStateOperation::AppendQuestJournal { quest_id, .. } => blank(quest_id@),
        VisualStateOperation::AdjustRelationship { source_id, target_id, kind, .. } => blank(
            source_id@,
        ) || blank(target_id@) || blank(kind@),
    }
}

/// What a single operation is statically checked for: a non-blank key, a
/// dialogue target that exists, and layers and entities that exist.
pub open spec fn op_error_at(
    label: String,
    ops: Seq<VisualStateOperation>,
    entities: Seq<VisualEntity>,
    line_count: nat,
    layers: Seq<VisualLayerState>,
    i: int,
) -> Option<VisualSceneError> {
    let op = ops[i];
    if op_key_blank(op) {
        Some(VisualSceneError::EmptyResolveOperationKey { label })
    } else {
        match op {
            VisualStateOperation::AdvanceDialogueAndSetLayer { target, layer_id, .. } => {
                if target >= line_count {
                    Some(VisualSceneError::DialogueTargetOutOfBounds { label, target })
                } else if !has_layer(layers, layer_id@) {
                    Some(VisualSceneError::UnknownLayer { label, layer_id })
                } else {
                    None
                }
            },
            VisualStateOperation::SetLayerState { layer_id, .. } => {
                if !has_layer(layers, layer_id@) {
                    Some(VisualSceneError::UnknownLayer { label, layer_id })
                } else {
                    None
                }
            },
            VisualStateOperation::TriggerLayerTransition { layer_id, .. } => {
                if !has_layer(layers, layer_id@) {
                    Some(VisualSceneError::UnknownLayer { label, layer_id })
                } else {
                    None
                }
            },
            VisualStateOperation::SelectEntity { entity_id } => {
                if !has_entity(entities, entity_id@) {
                    Some(VisualSceneError::UnknownEntity { label, entity_id })
                } else {
                    None
                }
            },
            VisualStateOperation::SetEntityFlags { entity_id, .. } => {
                if !has_entity(entities, entity_id@) {
                    Some(VisualSceneError::UnknownEntity { label, entity_id })
                } else {
                    None
                }
            },
            VisualStateOperation::SetEntityMetadata { entity_id, .. } => {
                if !has_entity(entities, entity_id@) {
                    Some(VisualSceneError::UnknownEntity { label, entity_id })
                } else {
                    None
                }
            },
            VisualStateOperation::SetEntityVisibility { entity_id, .. } => {
                if !has_entity(entities, entity_id@) {
                    Some(VisualSceneError::UnknownEntity { label, entity_id })
                } else {
                    None
                }
            },
            _ => None,
        }
    }
}

pub open spec fn op_errors(
    label: String,
    ops: Seq<VisualStateOperation>,
    entities: Seq<VisualEntity>,
    line_count: nat,
    layers: Seq<VisualLayerState>,
) -> spec_fn(int) -> Option<VisualSceneError> {
    |i: int| op_error_at(label, ops, entities, line_count, layers, i)
}

pub open spec fn operations_error(
    label: String,
    ops: Seq<VisualStateOperation>,
    entities: Seq<VisualEntity>,
    line_count: nat,
    layers: Seq<VisualLayerState>,
) -> Option<VisualSceneError> {
    if ops.len() == 0 {
        Some(VisualSceneError::EmptyResolveOperations { label })
    } else {
        first_some(op_errors(label, ops, entities, line_count, layers), ops.len() as int)
    }
}

fn find_layer(layers: &Vec<VisualLayerState>, id: &String) -> (b: bool)
    ensures
        b == has_layer(layers@, id@),
{
    let mut j: usize = 0;
    while j < layers.len()
        invariant
            j <= layers@.len(),
            forall|k: int| 0 <= k < j ==> #[trigger] layers@[k].layer_id@ != id@,
        decreases layers.len() - j,
    {
        if layers[j].layer_id == *id {
            return true;
        }
        j = j + 1;
    }
    false
}

fn find_entity(entities: &Vec<VisualEntity>, id: &String) -> (b: bool)
    ensures
        b == has_entity(entities@, id@),
{
    let mut j: usize = 0;
    while j < entities.len()
        invariant
            j <= entities@.len(),
            forall|k: int| 0 <= k < j ==> #[trigger] entities@[k].id@ != id@,
        decreases entities.len() - j,
    {
        if entities[j].id == *id {
            return true;
        }
        j = j + 1;
    }
    false
}

fn op_key_is_blank(op: &VisualStateOperation) -> (b: bool)
    ensures
        b == op_key_blank(*op),
{
    match op {
        VisualStateOperation::SetVariable { key, .. } => is_blank(key.as_str()),
        VisualStateOperation::SetLayerState { layer_id, .. } => is_blank(layer_id.as_str()),
        VisualStateOperation::SelectEntity { entity_id } => is_blank(entity_id.as_str()),
        VisualStateOperation::SetEntityFlags { entity_id, .. } => is_blank(entity_id.as_str()),
        VisualStateOperation::SetEntityMetadata { entity_id, .. } => is_blank(entity_id.as_str()),
        VisualStateOperation::SetEntityVisibility { entity_id, .. } => is_blank(entity_id.as_str()),
        VisualStateOperation::AdvanceDialogueAndSetLayer { layer_id, .. } => is_blank(
            layer_id.as_str(),
        ),
        VisualStateOperation::TriggerLayerTransition { layer_id, input } => is_blank(
            layer_id.as_str(),
        ) || is_blank(input.as_str()),
        VisualStateOperation::IncrementVariable { key, .. } => is_blank(key.as_str()),
        VisualStateOperation::ClearVariable { key } => is_blank(key.as_str()),
        VisualStateOperation::AddInventory { item } => is_blank(item.item_id.as_str()),
        VisualStateOperation::RemoveInventory { item_id, .. } => is_blank(item_id.as_str()),
        VisualStateOperation::SetStat { key, .. } => is_blank(key.as_str()),
        VisualStateOperation::AdjustStat { key, .. } => is_blank(key.as_str()),
        VisualStateOperation::AdvanceQuest { quest_id, .. } => is_blank(quest_id.as_str()),
        VisualStateOperation::CompleteQuest { quest_id } => is_blank(quest_id.as_str()),
        VisualStateOperation::AppendQuestJournal { quest_id, .. } => is_blank(quest_id.as_str()),
        VisualStateOperation::AdjustRelationship { source_id, target_id, kind, .. } => is_blank(
            source_id.as_str(),
        ) || is_blank(target_id.as_str()) || is_blank(kind.as_str()),
    }
}

/// The static checks of a resolve action's operations: at least one
/// operation; then, in order, each operation's key is non-blank, its
/// dialogue target exists, and the layers and entities it names exist.
pub fn validate_state_operations(
    label: &String,
    operations: &Vec<VisualStateOperation>,
    entities: &Vec<VisualEntity>,
    dialogue_lines: &Vec<VisualDialogueLine>,
    layers: &Vec<VisualLayerState>,
) -> (r: Result<(), VisualSceneError>)
    ensures
        r == (match operations_error(
            *label,
            operations@,
            entities@,
            dialogue_lines@.len(),
            layers@,
        ) {
            Some(e) => Err(e),
            None => Ok(()),
        }),
{
    if operations.len() == 0 {
        return Err(VisualSceneError::EmptyResolveOperations { label: label.clone() });
    }
    let ghost f = op_errors(*label, operations@, entities@, dialogue_lines@.len(), layers@);
    let mut i: usize = 0;
    while i < operations.len()
        invariant
            i <= operations@.len(),
            operations@.len() > 0,
            f == op_errors(*label, operations@, entities@, dialogue_lines@.len(), layers@),
            first_some(f, i as int) is None,
        decreases operations.len() - i,
    {
        let op = &operations[i];
        let err = if op_key_is_blank(op) {
            Some(VisualSceneError::EmptyResolveOperationKey { label: label.clone() })
        } else {
            match op {
                VisualStateOperation::AdvanceDialogueAndSetLayer { target, layer_id, .. } => {
                    if *target >= dialogue_lines.len() {
                        Some(
                            VisualSceneError::DialogueTargetOutOfBounds {
                                label: label.clone(),
                                target: *target,
                            },
                        )
                    } else if !find_layer(layers, layer_id) {
                        Some(
                            VisualSceneError::UnknownLayer {
                                label: label.clone(),
                                layer_id: layer_id.clone(),
                            },
                        )
                    } else {
                        None
                    }
                },
                VisualStateOperation::SetLayerState { layer_id, .. } => {
                    if !find_layer(layers, layer_id) {
                        Some(
                            VisualSceneError::UnknownLayer {
                                label: label.clone(),
                                layer_id: layer_id.clone(),
                            },
                        )
                    } else {
                        None
                    }
                },
                VisualStateOperation::TriggerLayerTransition { layer_id, .. } => {
                    if !find_layer(layers, layer_id) {
                        Some(
                            VisualSceneError::UnknownLayer {
                                label: label.clone(),
                                layer_id: layer_id.clone(),
                            },
                        )
                    } else {
                        None
                    }
                },
                VisualStateOperation::SelectEntity { entity_id }
                | VisualStateOperation::SetEntityFlags { entity_id, .. }
                | VisualStateOperation::SetEntityMetadata { entity_id, .. }
                | VisualStateOperation::SetEntityVisibility { entity_id, .. } => {
                    if !find_entity(entities, entity_id) {
                        Some(
                            VisualSceneError::UnknownEntity {
                                label: label.clone(),
                                entity_id: entity_id.clone(),
                            },
                        )
                    } else {
                        None
                    }
                },
                _ => None,
            }
        };
        assert(err == f(i as int));
        match err {
            Some(e) => {
                proof {
                    lemma_first_some_at(f, i as int, operations@.len() as int);
                }
                return Err(e);
            },
            None => {},
        }
        i = i + 1;
    }
    Ok(())
}


// ---------------------------------------------------------------- scene

pub open spec fn opt_blank(o: Option<String>) -> bool {
    match o {
        Some(s) => blank(s@),
        None => false,
    }
}

pub open spec fn mode_binding_error_at(bs: Seq<VisualInputBinding>, i: int) -> Option<
    VisualSceneError,
> {
    if blank(bs[i].input@) {
        Some(VisualSceneError::EmptyModeInputBindingInput)
    } else if blank(bs[i].action@) {
        Some(VisualSceneError::EmptyModeInputBindingAction)
    } else if !supported_mode_input(trim_seq(bs[i].input@)) {
        Some(VisualSceneError::UnknownModeInputBindingInput(bs[i].input))
    } else if !supported_mode_input_action(trim_seq(bs[i].action@)) {
        Some(VisualSceneError::UnknownModeInputBindingAction(bs[i].action))
    } else if any_blank_condition(bs[i].conditions@) {
        Some(VisualSceneError::EmptyModeInputBindingConditionVariable)
    } else {
        None
    }
}

pub open spec fn mode_binding_errors(bs: Seq<VisualInputBinding>) -> spec_fn(int) -> Option<
    VisualSceneError,
> {
    |i: int| mode_binding_error_at(bs, i)
}

/// The first problem of a mode descriptor.
pub open spec fn mode_error(mode: VisualModeDescriptor) -> Option<VisualSceneError> {
    if blank(mode.mode_id@) {
        Some(VisualSceneError::EmptyModeId)
    } else if blank(mode.label@) {
        Some(VisualSceneError::EmptyModeLabel)
    } else if exists|j: int|
        0 <= j < mode.allowed_actions@.len() && blank(#[trigger] mode.allowed_actions@[j]@) {
        Some(VisualSceneError::EmptyModeAllowedAction)
    } else if opt_blank(mode.lifecycle.enter_status) || opt_blank(mode.lifecycle.update_status)
        || opt_blank(mode.lifecycle.exit_status) {
        Some(VisualSceneError::EmptyModeLifecycleStatus)
    } else {
        first_some(mode_binding_errors(mode.input_map@), mode.input_map@.len() as int)
    }
}

pub open spec fn entity_error_at(scene: VisualScene, i: int) -> Option<VisualSceneError> {
    let e = scene.entities@[i];
    if exists|j: int| 0 <= j < i && #[trigger] scene.entities@[j].id@ == e.id@ {
        Some(VisualSceneError::DuplicateEntityId(e.id))
    } else if e.position.x >= scene.width || e.position.y >= scene.height {
        Some(VisualSceneError::EntityOutOfBounds { id: e.id, x: e.position.x, y: e.position.y })
    } else {
        None
    }
}

pub open spec fn entity_errors(scene: VisualScene) -> spec_fn(int) -> Option<VisualSceneError> {
    |i: int| entity_error_at(scene, i)
}

pub open spec fn relationship_ref_error_at(scene: VisualScene, i: int) -> Option<VisualSceneError> {
    let r = scene.rpg.relationships@[i];
    if !has_entity(scene.entities@, r.source_id@) {
        Some(VisualSceneError::UnknownRelationshipSourceId(r.source_id))
    } else if !has_entity(scene.entities@, r.target_id@) {
        Some(VisualSceneError::UnknownRelationshipTargetId(r.target_id))
    } else {
        None
    }
}

pub open spec fn relationship_ref_errors(scene: VisualScene) -> spec_fn(int) -> Option<
    VisualSceneError,
> {
    |i: int| relationship_ref_error_at(scene, i)
}

pub open spec fn policy_error(c: SceneAction) -> Option<VisualSceneError> {
    match c.policy {
        Some(p) => {
            if blank(p.origin@) {
                Some(VisualSceneError::EmptyActionPolicyOrigin { label: c.label })
            } else if blank(p.risk@) {
                Some(VisualSceneError::EmptyActionPolicyRisk { label: c.label })
            } else if blank(p.scope@) {
                Some(VisualSceneError::EmptyActionPolicyScope { label: c.label })
            } else if opt_blank(p.summary) {
                Some(VisualSceneError::EmptyActionPolicySummary { label: c.label })
            } else {
                None
            }
        },
        None => None,
    }
}

pub open spec fn kind_error(scene: VisualScene, c: SceneAction) -> Option<VisualSceneError> {
    match c.kind {
        SceneActionKind::RunCommand { argv, cwd, .. } => {
            if argv@.len() == 0 || exists|j: int| 0 <= j < argv@.len() && blank(#[trigger] argv@[j]@) {
                Some(VisualSceneError::EmptyRunCommand { label: c.label })
            } else if opt_blank(cwd) {
                Some(VisualSceneError::EmptyRunCommandCwd { label: c.label })
            } else {
                None
            }
        },
        SceneActionKind::ExportStoryState { path } => {
            if blank(path@) {
                Some(VisualSceneError::EmptyStoryStatePath { label: c.label })
            } else {
                None
            }
        },
        SceneActionKind::ImportStoryState { path } => {
            if blank(path@) {
                Some(VisualSceneError::EmptyStoryStatePath { label: c.label })
            } else {
                None
            }
        },
        SceneActionKind::AdvanceDialogue { target } => {
            if target >= scene.dialogue_lines@.len() {
                Some(VisualSceneError::DialogueTargetOutOfBounds { label: c.label, target })
            } else {
                None
            }
        },
        SceneActionKind::Resolve { operations } => operations_error(
            c.label,
            operations@,
            scene.entities@,
            scene.dialogue_lines@.len(),
            scene.layers@,
        ),
        _ => None,
    }
}

pub open spec fn choice_error_at(scene: VisualScene, i: int) -> Option<VisualSceneError> {
    let c = scene.choices@[i];
    match policy_error(c) {
        Some(e) => Some(e),
        None => if any_blank_condition(c.conditions@) {
            Some(VisualSceneError::EmptyConditionVariable { label: c.label })
        } else {
            kind_error(scene, c)
        },
    }
}

pub open spec fn choice_errors(scene: VisualScene) -> spec_fn(int) -> Option<VisualSceneError> {
    |i: int| choice_error_at(scene, i)
}

pub open spec fn map_entry_error(e: VisualStateEntryError) -> VisualSceneError {
    match e {
        VisualStateEntryError::EmptyKey => VisualSceneError::EmptyVariableKey,
        VisualStateEntryError::DuplicateKey(k) => VisualSceneError::DuplicateVariableKey(k),
    }
}

pub open spec fn map_dialogue_error(e: VisualDialogueLineError) -> VisualSceneError {
    match e {
        VisualDialogueLineError::EmptySpeaker { index } => VisualSceneError::EmptyDialogueSpeaker {
            index,
        },
        VisualDialogueLineError::EmptyText { index } => VisualSceneError::EmptyDialogueText {
            index,
        },
    }
}

/// The first problem of a scene, in the order the checks run: size, mode,
/// layers, stage, variables, RPG state, entities, relationship endpoints,
/// dialogue lines, then choices.
pub open spec fn scene_error(scene: VisualScene) -> Option<VisualSceneError> {
    if scene.width == 0 || scene.height == 0 {
        Some(VisualSceneError::EmptyScene)
    } else if mode_error(scene.mode) is Some {
        mode_error(scene.mode)
    } else if layers_error(scene.layers@) is Some {
        layers_error(scene.layers@)
    } else if stage_error(scene.stage) is Some {
        stage_error(scene.stage)
    } else if state_entries_error(scene.variables@) is Some {
        Some(map_entry_error(state_entries_error(scene.variables@).unwrap()))
    } else if rpg_error(scene.rpg) is Some {
        rpg_error(scene.rpg)
    } else if first_some(entity_errors(scene), scene.entities@.len() as int) is Some {
        first_some(entity_errors(scene), scene.entities@.len() as int)
    } else if first_some(relationship_ref_errors(scene), scene.rpg.relationships@.len() as int) is Some {
        first_some(relationship_ref_errors(scene), scene.rpg.relationships@.len() as int)
    } else if dialogue_lines_error(scene.dialogue_lines@) is Some {
        Some(map_dialogue_error(dialogue_lines_error(scene.dialogue_lines@).unwrap()))
    } else {
        first_some(choice_errors(scene), scene.choices@.len() as int)
    }
}

fn opt_is_blank(o: &Option<String>) -> (b: bool)
    ensures
        b == opt_blank(*o),
{
    match o {
        Some(s) => is_blank(s.as_str()),
        None => false,
    }
}

#[verifier::loop_isolation(false)]
fn mode_check(mode: &VisualModeDescriptor) -> (r: Result<(), VisualSceneError>)
    ensures
        r == (match mode_error(*mode) {
            Some(e) => Err(e),
            None => Ok(()),
        }),
{
    if is_blank(mode.mode_id.as_str()) {
        return Err(VisualSceneError::EmptyModeId);
    }
    if is_blank(mode.label.as_str()) {
        return Err(VisualSceneError::EmptyModeLabel);
    }
    let mut j: usize = 0;
    while j < mode.allowed_actions.len()
        invariant
            j <= mode.allowed_actions@.len(),
            forall|k: int| 0 <= k < j ==> !blank(#[trigger] mode.allowed_actions@[k]@),
        decreases mode.allowed_actions.len() - j,
    {
        if is_blank(mode.allowed_actions[j].as_str()) {
            return Err(VisualSceneError::EmptyModeAllowedAction);
        }
        j = j + 1;
    }
    if opt_is_blank(&mode.lifecycle.enter_status) || opt_is_blank(&mode.lifecycle.update_status)
        || opt_is_blank(&mode.lifecycle.exit_status) {
        return Err(VisualSceneError::EmptyModeLifecycleStatus);
    }
    let bs = &mode.input_map;
    let mut i: usize = 0;
    while i < bs.len()
        invariant
            i <= bs@.len(),
            first_some(mode_binding_errors(bs@), i as int) is None,
        decreases bs.len() - i,
    {
        let b = &bs[i];
        let err = if is_blank(b.input.as_str()) {
            Some(VisualSceneError::EmptyModeInputBindingInput)
        } else if is_blank(b.action.as_str()) {
            Some(VisualSceneError::EmptyModeInputBindingAction)
        } else if !is_supported_mode_input(trim(b.input.as_str()).as_str()) {
            Some(VisualSceneError::UnknownModeInputBindingInput(b.input.clone()))
        } else if !is_supported_mode_input_action(trim(b.action.as_str()).as_str()) {
            Some(VisualSceneError::UnknownModeInputBindingAction(b.action.clone()))
        } else if has_blank_condition(&b.conditions) {
            Some(VisualSceneError::EmptyModeInputBindingConditionVariable)
        } else {
            None
        };
        match err {
            Some(e) => {
                proof {
                    lemma_first_some_at(mode_binding_errors(bs@), i as int, bs@.len() as int);
                }
                return Err(e);
            },
            None => {},
        }
        i = i + 1;
    }
    Ok(())
}

fn entities_check(scene: &VisualScene) -> (r: Result<(), VisualSceneError>)
    ensures
        r == (match first_some(entity_errors(*scene), scene.entities@.len() as int) {
            Some(e) => Err(e),
            None => Ok(()),
        }),
{
    let es = &scene.entities;
    let mut i: usize = 0;
    while i < es.len()
        invariant
            es == &scene.entities,
            i <= es@.len(),
            first_some(entity_errors(*scene), i as int) is None,
        decreases es.len() - i,
    {
        let mut j: usize = 0;
        #[verifier::loop_isolation(false)]
        while j < i
            invariant
                j <= i,
                forall|k: int| 0 <= k < j ==> #[trigger] es@[k].id@ != es@[i as int].id@,
            decreases i - j,
        {
            if es[j].id == es[i].id {
                proof {
                    lemma_first_some_at(entity_errors(*scene), i as int, es@.len() as int);
                }
                return Err(VisualSceneError::DuplicateEntityId(es[i].id.clone()));
            }
            j = j + 1;
        }
        if es[i].position.x >= scene.width || es[i].position.y >= scene.height {
            proof {
                lemma_first_some_at(entity_errors(*scene), i as int, es@.len() as int);
            }
            return Err(
                VisualSceneError::EntityOutOfBounds {
                    id: es[i].id.clone(),
                    x: es[i].position.x,
                    y: es[i].position.y,
                },
            );
        }
        i = i + 1;
    }
    Ok(())
}

fn relationship_refs_check(scene: &VisualScene) -> (r: Result<(), VisualSceneError>)
    ensures
        r == (match first_some(
            relationship_ref_errors(*scene),
            scene.rpg.relationships@.len() as int,
        ) {
            Some(e) => Err(e),
            None => Ok(()),
        }),
{
    let rs = &scene.rpg.relationships;
    let mut i: usize = 0;
    while i < rs.len()
        invariant
            rs == &scene.rpg.relationships,
            i <= rs@.len(),
            first_some(relationship_ref_errors(*scene), i as int) is None,
        decreases rs.len() - i,
    {
        if !find_entity(&scene.entities, &rs[i].source_id) {
            proof {
                lemma_first_some_at(relationship_ref_errors(*scene), i as int, rs@.len() as int);
            }
            return Err(VisualSceneError::UnknownRelationshipSourceId(rs[i].source_id.clone()));
        }
        if !find_entity(&scene.entities, &rs[i].target_id) {
            proof {
                lemma_first_some_at(relationship_ref_errors(*scene), i as int, rs@.len() as int);
            }
            return Err(VisualSceneError::UnknownRelationshipTargetId(rs[i].target_id.clone()));
        }
        i = i + 1;
    }
    Ok(())
}

fn choice_check(scene: &VisualScene, c: &SceneAction) -> (r: Option<VisualSceneError>)
    ensures
        r == (match policy_error(*c) {
            Some(e) => Some(e),
            None => if any_blank_condition(c.conditions@) {
                Some(VisualSceneError::EmptyConditionVariable { label: c.label })
            } else {
                kind_error(*scene, *c)
            },
        }),
{
    match &c.policy {
        Some(p) => {
            if is_blank(p.origin.as_str()) {
                return Some(VisualSceneError::EmptyActionPolicyOrigin { label: c.label.clone() });
            }
            if is_blank(p.risk.as_str()) {
                return Some(VisualSceneError::EmptyActionPolicyRisk { label: c.label.clone() });
            }
            if is_blank(p.scope.as_str()) {
                return Some(VisualSceneError::EmptyActionPolicyScope { label: c.label.clone() });
            }
            if opt_is_blank(&p.summary) {
                return Some(VisualSceneError::EmptyActionPolicySummary { label: c.label.clone() });
            }
        },
        None => {},
    }
    if has_blank_condition(&c.conditions) {
        return Some(VisualSceneError::EmptyConditionVariable { label: c.label.clone() });
    }
    match &c.kind {
        SceneActionKind::RunCommand { argv, cwd, .. } => {
            let mut any_blank = false;
            let mut j: usize = 0;
            while j < argv.len()
                invariant
                    j <= argv@.len(),
                    any_blank == exists|k: int| 0 <= k < j && blank(#[trigger] argv@[k]@),
                decreases argv.len() - j,
            {
                if is_blank(argv[j].as_str()) {
                    any_blank = true;
                }
                j = j + 1;
            }
            if argv.len() == 0 || any_blank {
                return Some(VisualSceneError::EmptyRunCommand { label: c.label.clone() });
            }
            if opt_is_blank(cwd) {
                return Some(VisualSceneError::EmptyRunCommandCwd { label: c.label.clone() });
            }
            None
        },
        SceneActionKind::ExportStoryState { path } | SceneActionKind::ImportStoryState { path } => {
            if is_blank(path.as_str()) {
                Some(VisualSceneError::EmptyStoryStatePath { label: c.label.clone() })
            } else {
                None
            }
        },
        SceneActionKind::AdvanceDialogue { target } => {
            if *target >= scene.dialogue_lines.len() {
                Some(
                    VisualSceneError::DialogueTargetOutOfBounds {
                        label: c.label.clone(),
                        target: *target,
                    },
                )
            } else {
                None
            }
        },
        SceneActionKind::Resolve { operations } => {
            match validate_state_operations(
                &c.label,
                operations,
                &scene.entities,
                &scene.dialogue_lines,
                &scene.layers,
            ) {
                Err(e) => Some(e),
                Ok(()) => None,
            }
        },
        _ => None,
    }
}

fn choices_check(scene: &VisualScene) -> (r: Result<(), VisualSceneError>)
    ensures
        r == (match first_some(choice_errors(*scene), scene.choices@.len() as int) {
            Some(e) => Err(e),
            None => Ok(()),
        }),
{
    let cs = &scene.choices;
    let mut i: usize = 0;
    while i < cs.len()
        invariant
            cs == &scene.choices,
            i <= cs@.len(),
            first_some(choice_errors(*scene), i as int) is None,
        decreases cs.len() - i,
    {
        match choice_check(scene, &cs[i]) {
            Some(e) => {
                proof {
                    lemma_first_some_at(choice_errors(*scene), i as int, cs@.len() as int);
                }
                return Err(e);
            },
            None => {},
        }
        i = i + 1;
    }
    Ok(())
}

proof fn lemma_not_duplicate_relationship(scene: VisualScene)
    ensures
        mode_error(scene.mode) is Some ==> !(mode_error(scene.mode) matches Some(
            VisualSceneError::DuplicateRelationship(_),
        )),
        layers_error(scene.layers@) is Some ==> !(layers_error(scene.layers@) matches Some(
            VisualSceneError::DuplicateRelationship(_),
        )),
        stage_error(scene.stage) is Some ==> !(stage_error(scene.stage) matches Some(
            VisualSceneError::DuplicateRelationship(_),
        )),
        first_some(entity_errors(scene), scene.entities@.len() as int) is Some ==> !(first_some(
            entity_errors(scene),
            scene.entities@.len() as int,
        ) matches Some(VisualSceneError::DuplicateRelationship(_))),
        first_some(relationship_ref_errors(scene), scene.rpg.relationships@.len() as int) is Some
            ==> !(first_some(
            relationship_ref_errors(scene),
            scene.rpg.relationships@.len() as int,
        ) matches Some(VisualSceneError::DuplicateRelationship(_))),
        first_some(choice_errors(scene), scene.choices@.len() as int) is Some ==> !(first_some(
            choice_errors(scene),
            scene.choices@.len() as int,
        ) matches Some(VisualSceneError::DuplicateRelationship(_))),
{
    lemma_first_some_from(mode_binding_errors(scene.mode.input_map@), scene.mode.input_map@.len() as int);
    lemma_first_some_from(crate::scene_validate::layer_errors(scene.layers@), scene.layers@.len() as int);
    if layers_error(scene.layers@) is Some {
        let i = choose|i: int| 0 <= i < scene.layers@.len() && layers_error(scene.layers@) == #[trigger] crate::scene_validate::layer_errors(scene.layers@)(i);
        let l = scene.layers@[i];
        lemma_first_some_from(crate::scene_validate::layer_binding_errors(l.layer_id, l.input_map@), l.input_map@.len() as int);
        lemma_first_some_from(crate::scene_validate::layer_transition_errors(l.layer_id, l.transitions@), l.transitions@.len() as int);
    }
    lemma_first_some_from(crate::scene_validate::stage_layer_errors(scene.stage.layers@), scene.stage.layers@.len() as int);
    if stage_error(scene.stage) is Some {
        let i = choose|i: int| 0 <= i < scene.stage.layers@.len() && stage_error(scene.stage) == #[trigger] crate::scene_validate::stage_layer_errors(scene.stage.layers@)(i);
        let l = scene.stage.layers@[i];
        lemma_first_some_from(crate::scene_validate::displayable_errors(l.layer_id, l.displayables@), l.displayables@.len() as int);
    }
    lemma_first_some_from(entity_errors(scene), scene.entities@.len() as int);
    lemma_first_some_from(relationship_ref_errors(scene), scene.rpg.relationships@.len() as int);
    lemma_first_some_from(choice_errors(scene), scene.choices@.len() as int);
    if first_some(choice_errors(scene), scene.choices@.len() as int) is Some {
        let i = choose|i: int| 0 <= i < scene.choices@.len() && first_some(choice_errors(scene), scene.choices@.len() as int) == #[trigger] choice_errors(scene)(i);
        let c = scene.choices@[i];
        match c.kind {
            SceneActionKind::Resolve { operations } => {
                lemma_first_some_from(
                    op_errors(c.label, operations@, scene.entities@, scene.dialogue_lines@.len(), scene.layers@),
                    operations@.len() as int,
                );
            },
            _ => {},
        }
    }
}

impl VisualScene {
    /// Checks the scene and reports its first problem, in the order of
    /// `scene_error`.
    pub fn validate(&self) -> (r: Result<(), VisualSceneError>)
        ensures
            same_result(r, scene_error(*self), duplicate_relationship_key(self.rpg.relationships@)),
    {
        proof {
            lemma_not_duplicate_relationship(*self);
        }
        if self.width == 0 || self.height == 0 {
            return Err(VisualSceneError::EmptyScene);
        }
        match mode_check(&self.mode) {
            Err(e) => return Err(e),
            Ok(()) => {},
        }
        match validate_layers(&self.layers) {
            Err(e) => return Err(e),
            Ok(()) => {},
        }
        match validate_stage(&self.stage) {
            Err(e) => return Err(e),
            Ok(()) => {},
        }
        match validate_state_entries(self.variables.as_slice()) {
            Err(VisualStateEntryError::EmptyKey) => return Err(VisualSceneError::EmptyVariableKey),
            Err(VisualStateEntryError::DuplicateKey(key)) => return Err(
                VisualSceneError::DuplicateVariableKey(key),
            ),
            Ok(()) => {},
        }
        match validate_rpg_state(&self.rpg) {
            Err(e) => return Err(e),
            Ok(()) => {},
        }
        match entities_check(self) {
            Err(e) => return Err(e),
            Ok(()) => {},
        }
        match relationship_refs_check(self) {
            Err(e) => return Err(e),
            Ok(()) => {},
        }
        match validate_dialogue_lines(self.dialogue_lines.as_slice()) {
            Err(VisualDialogueLineError::EmptySpeaker { index }) => return Err(
                VisualSceneError::EmptyDialogueSpeaker { index },
            ),
            Err(VisualDialogueLineError::EmptyText { index }) => return Err(
                VisualSceneError::EmptyDialogueText { index },
            ),
            Ok(()) => {},
        }
        choices_check(self)
    }
}

/// A scene that passes validation has a size, entities with distinct ids
/// inside it, relationships between its own entities, dialogue jumps to
/// lines it has, and commands to run that name every argument.
pub proof fn law_valid_scene_is_well_formed(scene: VisualScene, r: Result<(), VisualSceneError>)
    requires
        same_result(r, scene_error(scene), duplicate_relationship_key(scene.rpg.relationships@)),
        r is Ok,
    ensures
        scene.width > 0,
        scene.height > 0,
        forall|i: int, j: int|
            0 <= i < j < scene.entities@.len() ==> #[trigger] scene.entities@[i].id@ != #[trigger] scene.entities@[j].id@,
        forall|i: int|
            0 <= i < scene.entities@.len() ==> (#[trigger] scene.entities@[i]).position.x < scene.width
                && scene.entities@[i].position.y < scene.height,
        forall|i: int|
            0 <= i < scene.rpg.relationships@.len() ==> has_entity(
                scene.entities@,
                (#[trigger] scene.rpg.relationships@[i]).source_id@,
            ) && has_entity(scene.entities@, scene.rpg.relationships@[i].target_id@),
        forall|i: int|
            0 <= i < scene.choices@.len() ==> ((#[trigger] scene.choices@[i]).kind matches SceneActionKind::AdvanceDialogue {
                target,
            } ==> target < scene.dialogue_lines@.len()),
        forall|i: int|
            0 <= i < scene.choices@.len() ==> ((#[trigger] scene.choices@[i]).kind matches SceneActionKind::RunCommand {
                argv,
                ..
            } ==> argv@.len() > 0 && forall|j: int| 0 <= j < argv@.len() ==> !blank(#[trigger] argv@[j]@)),
{
    assert(scene_error(scene) is None);
    let n = scene.entities@.len() as int;
    lemma_first_some_none(entity_errors(scene), n);
    assert forall|i: int, j: int|
        0 <= i < j < n implies #[trigger] scene.entities@[i].id@ != #[trigger] scene.entities@[j].id@ by {
        assert(entity_errors(scene)(j) is None);
    }
    assert forall|i: int| 0 <= i < n implies (#[trigger] scene.entities@[i]).position.x < scene.width
        && scene.entities@[i].position.y < scene.height by {
        assert(entity_errors(scene)(i) is None);
    }
    lemma_first_some_none(relationship_ref_errors(scene), scene.rpg.relationships@.len() as int);
    assert forall|i: int| 0 <= i < scene.rpg.relationships@.len() implies has_entity(
        scene.entities@,
        (#[trigger] scene.rpg.relationships@[i]).source_id@,
    ) && has_entity(scene.entities@, scene.rpg.relationships@[i].target_id@) by {
        assert(relationship_ref_errors(scene)(i) is None);
    }
    lemma_first_some_none(choice_errors(scene), scene.choices@.len() as int);
    assert forall|i: int| 0 <= i < scene.choices@.len() implies ((#[trigger] scene.choices@[i]).kind matches SceneActionKind::AdvanceDialogue {
        target,
    } ==> target < scene.dialogue_lines@.len()) by {
        assert(choice_errors(scene)(i) is None);
    }
    assert forall|i: int| 0 <= i < scene.choices@.len() implies ((#[trigger] scene.choices@[i]).kind matches SceneActionKind::RunCommand {
        argv,
        ..
    } ==> argv@.len() > 0 && forall|j: int| 0 <= j < argv@.len() ==> !blank(#[trigger] argv@[j]@)) by {
        assert(choice_errors(scene)(i) is None);
    }
}

} // verus!
