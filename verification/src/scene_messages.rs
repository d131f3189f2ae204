//! The messages scene errors are reported with.

use vstd::prelude::*;

use crate::scene_errors::VisualSceneError;
use crate::text::{dec, usize_text};

verus! {

/// The text a scene error is shown as.
pub open spec fn scene_error_text(e: VisualSceneError) -> Seq<char> {
    match e {
        VisualSceneError::EmptyScene => "scene dimensions must be non-zero"@,
        VisualSceneError::DuplicateEntityId(f0) => "duplicate entity id `"@ + f0@ + "`"@,
        VisualSceneError::EntityOutOfBounds { id, x, y } => "entity `"@ + id@ + "` is outside scene bounds at "@ + dec(x as nat) + ","@ + dec(y as nat),
        VisualSceneError::EmptyRunCommand { label } => "RunCommand action `"@ + label@ + "` must provide a non-empty argv array"@,
        VisualSceneError::EmptyRunCommandCwd { label } => "RunCommand action `"@ + label@ + "` has an empty cwd"@,
        VisualSceneError::EmptyStoryStatePath { label } => "StoryState action `"@ + label@ + "` must provide a non-empty path"@,
        VisualSceneError::EmptyResolveOperations { label } => "Resolve action `"@ + label@ + "` must include at least one operation"@,
        VisualSceneError::EmptyResolveOperationKey { label } => "Resolve action `"@ + label@ + "` has an empty operation key"@,
        VisualSceneError::UnknownInventoryItem { label, item_id } => "Resolve action `"@ + label@ + "` references unknown inventory item `"@ + item_id@ + "`"@,
        VisualSceneError::UnknownStat { label, key } => "Resolve action `"@ + label@ + "` references unknown stat `"@ + key@ + "`"@,
        VisualSceneError::NonNumericStat { label, key } => "Resolve action `"@ + label@ + "` references non-numeric stat `"@ + key@ + "`"@,
        VisualSceneError::UnknownQuest { label, quest_id } => "Resolve action `"@ + label@ + "` references unknown quest `"@ + quest_id@ + "`"@,
        VisualSceneError::UnknownRelationship { label, relationship } => "Resolve action `"@ + label@ + "` references unknown relationship `"@ + relationship@ + "`"@,
        VisualSceneError::UnknownLayer { label, layer_id } => "Resolve action `"@ + label@ + "` references unknown layer `"@ + layer_id@ + "`"@,
        VisualSceneError::UnknownEntity { label, entity_id } => "Resolve action `"@ + label@ + "` references unknown entity `"@ + entity_id@ + "`"@,
        VisualSceneError::UnknownLayerTransition { label, layer_id, input } => "Resolve action `"@ + label@ + "` references unknown layer transition `"@ + layer_id@ + ":"@ + input@ + "`"@,
        VisualSceneError::LayerTransitionGuardFailed { label, layer_id, input } => "Resolve action `"@ + label@ + "` blocked by layer transition guard `"@ + layer_id@ + ":"@ + input@ + "`"@,
        VisualSceneError::EmptyModeId => "scene mode id must be non-empty"@,
        VisualSceneError::EmptyModeLabel => "scene mode label must be non-empty"@,
        VisualSceneError::EmptyModeAllowedAction => "scene mode allowed action must be non-empty"@,
        VisualSceneError::EmptyModeLifecycleStatus => "scene mode lifecycle status must be non-empty when provided"@,
        VisualSceneError::EmptyModeInputBindingInput => "scene mode input binding input must be non-empty"@,
        VisualSceneError::EmptyModeInputBindingAction => "scene mode input binding action must be non-empty"@,
        VisualSceneError::UnknownModeInputBindingInput(f0) => "unknown scene mode input binding input `"@ + f0@ + "`"@,
        VisualSceneError::UnknownModeInputBindingAction(f0) => "unknown scene mode input binding action `"@ + f0@ + "`"@,
        VisualSceneError::EmptyModeInputBindingConditionVariable => "scene mode input binding condition variable must be non-empty"@,
        VisualSceneError::EmptyLayerId => "scene layer id must be non-empty"@,
        VisualSceneError::DuplicateLayerId(f0) => "duplicate scene layer id `"@ + f0@ + "`"@,
        VisualSceneError::EmptyLayerState { layer_id } => "scene layer `"@ + layer_id@ + "` state must be non-empty"@,
        VisualSceneError::EmptyLayerInputBindingInput { layer_id } => "scene layer `"@ + layer_id@ + "` input binding input must be non-empty"@,
        VisualSceneError::EmptyLayerInputBindingAction { layer_id } => "scene layer `"@ + layer_id@ + "` input binding action must be non-empty"@,
        VisualSceneError::UnknownLayerInputBindingInput { layer_id, input } => "scene layer `"@ + layer_id@ + "` has unknown input binding input `"@ + input@ + "`"@,
        VisualSceneError::UnknownLayerInputBindingAction { layer_id, action } => "scene layer `"@ + layer_id@ + "` has unknown input binding action `"@ + action@ + "`"@,
        VisualSceneError::EmptyLayerInputBindingConditionVariable { layer_id } => "scene layer `"@ + layer_id@ + "` input binding condition variable must be non-empty"@,
        VisualSceneError::EmptyLayerTransitionInput { layer_id } => "scene layer `"@ + layer_id@ + "` transition input must be non-empty"@,
        VisualSceneError::EmptyLayerTransitionTarget { layer_id } => "scene layer `"@ + layer_id@ + "` transition target state must be non-empty"@,
        VisualSceneError::UnknownLayerTransitionInput { layer_id, input } => "scene layer `"@ + layer_id@ + "` has unknown transition input `"@ + input@ + "`"@,
        VisualSceneError::EmptyLayerTransitionConditionVariable { layer_id } => "scene layer `"@ + layer_id@ + "` transition condition variable must be non-empty"@,
        VisualSceneError::EmptyStageLayerId => "scene stage layer id must be non-empty"@,
        VisualSceneError::DuplicateStageLayerId(f0) => "duplicate scene stage layer id `"@ + f0@ + "`"@,
        VisualSceneError::EmptyStageDisplayableTag => "scene stage displayable tag must be non-empty"@,
        VisualSceneError::EmptyStageDisplayableSprite { tag } => "scene stage displayable `"@ + tag@ + "` sprite must be non-empty"@,
        VisualSceneError::DuplicateStageDisplayableTag { layer_id, tag } => "duplicate scene stage displayable tag `"@ + layer_id@ + ":"@ + tag@ + "`"@,
        VisualSceneError::EmptyVariableKey => "scene variable key must be non-empty"@,
        VisualSceneError::DuplicateVariableKey(f0) => "duplicate scene variable key `"@ + f0@ + "`"@,
        VisualSceneError::EmptyConditionVariable { label } => "choice action `"@ + label@ + "` has an empty condition variable"@,
        VisualSceneError::EmptyDialogueSpeaker { index } => "dialogue line "@ + dec(index as nat) + " must provide a non-empty speaker"@,
        VisualSceneError::EmptyDialogueText { index } => "dialogue line "@ + dec(index as nat) + " must provide non-empty text"@,
        VisualSceneError::DialogueTargetOutOfBounds { label, target } => "choice action `"@ + label@ + "` references missing dialogue line "@ + dec(target as nat),
        VisualSceneError::EmptyActionPolicyOrigin { label } => "choice action `"@ + label@ + "` policy origin must be non-empty"@,
        VisualSceneError::EmptyActionPolicyRisk { label } => "choice action `"@ + label@ + "` policy risk must be non-empty"@,
        VisualSceneError::EmptyActionPolicyScope { label } => "choice action `"@ + label@ + "` policy scope must be non-empty"@,
        VisualSceneError::UnknownActionPolicyOrigin { label, origin } => "choice action `"@ + label@ + "` has unknown policy origin `"@ + origin@ + "`"@,
        VisualSceneError::UnknownActionPolicyRisk { label, risk } => "choice action `"@ + label@ + "` has unknown policy risk `"@ + risk@ + "`"@,
        VisualSceneError::UnknownActionPolicyScope { label, scope } => "choice action `"@ + label@ + "` has unknown policy scope `"@ + scope@ + "`"@,
        VisualSceneError::EmptyActionPolicySummary { label } => "choice action `"@ + label@ + "` policy summary must be non-empty when provided"@,
        VisualSceneError::EmptyInventoryItemId => "inventory item id must be non-empty"@,
        VisualSceneError::EmptyInventoryLabel { item_id } => "inventory item `"@ + item_id@ + "` label must be non-empty"@,
        VisualSceneError::DuplicateInventoryItemId(f0) => "duplicate inventory item id `"@ + f0@ + "`"@,
        VisualSceneError::EmptyStatKey => "stat key must be non-empty"@,
        VisualSceneError::EmptyStatOwnerId => "stat owner id must be non-empty when provided"@,
        VisualSceneError::DuplicateStatKey(f0) => "duplicate stat `"@ + f0@ + "`"@,
        VisualSceneError::EmptyQuestId => "quest id must be non-empty"@,
        VisualSceneError::EmptyQuestLabel { quest_id } => "quest `"@ + quest_id@ + "` label must be non-empty"@,
        VisualSceneError::DuplicateQuestId(f0) => "duplicate quest id `"@ + f0@ + "`"@,
        VisualSceneError::EmptyRelationshipSourceId => "relationship source id must be non-empty"@,
        VisualSceneError::EmptyRelationshipTargetId => "relationship target id must be non-empty"@,
        VisualSceneError::EmptyRelationshipKind => "relationship kind must be non-empty"@,
        VisualSceneError::DuplicateRelationship(f0) => "duplicate relationship `"@ + f0@ + "`"@,
        VisualSceneError::UnknownRelationshipSourceId(f0) => "relationship source id `"@ + f0@ + "` does not reference a scene entity"@,
        VisualSceneError::UnknownRelationshipTargetId(f0) => "relationship target id `"@ + f0@ + "` does not reference a scene entity"@,
        VisualSceneError::Json(f0) => "scene json error: "@ + f0@,
        VisualSceneError::File { path, message } => "scene file error for `"@ + path@ + "`: "@ + message@,
    }
}

impl VisualSceneError {
    /// The error's message.
    pub fn message(&self) -> (s: String)
        ensures
            s@ == scene_error_text(*self),
    {
        match self {
            VisualSceneError::EmptyScene => {
                let mut s = String::from_str("scene dimensions must be non-zero");
                s
            },
            VisualSceneError::DuplicateEntityId(f0) => {
                let mut s = String::from_str("duplicate entity id `");
                s.append(f0.as_str());
                s.append("`");
                s
            },
            VisualSceneError::EntityOutOfBounds { id, x, y } => {
                let mut s = String::from_str("entity `");
                s.append(id.as_str());
                s.append("` is outside scene bounds at ");
                let t_x = usize_text(*x);
                s.append(t_x.as_str());
                s.append(",");
                let t_y = usize_text(*y);
                s.append(t_y.as_str());
                s
            },
            VisualSceneError::EmptyRunCommand { label } => {
                let mut s = String::from_str("RunCommand action `");
                s.append(label.as_str());
                s.append("` must provide a non-empty argv array");
                s
            },
            VisualSceneError::EmptyRunCommandCwd { label } => {
                let mut s = String::from_str("RunCommand action `");
                s.append(label.as_str());
                s.append("` has an empty cwd");
                s
            },
            VisualSceneError::EmptyStoryStatePath { label } => {
                let mut s = String::from_str("StoryState action `");
                s.append(label.as_str());
                s.append("` must provide a non-empty path");
                s
            },
            VisualSceneError::EmptyResolveOperations { label } => {
                let mut s = String::from_str("Resolve action `");
                s.append(label.as_str());
                s.append("` must include at least one operation");
                s
            },
            VisualSceneError::EmptyResolveOperationKey { label } => {
                let mut s = String::from_str("Resolve action `");
                s.append(label.as_str());
                s.append("` has an empty operation key");
                s
            },
            VisualSceneError::UnknownInventoryItem { label, item_id } => {
                let mut s = String::from_str("Resolve action `");
                s.append(label.as_str());
                s.append("` references unknown inventory item `");
                s.append(item_id.as_str());
                s.append("`");
                s
            },
            VisualSceneError::UnknownStat { label, key } => {
                let mut s = String::from_str("Resolve action `");
                s.append(label.as_str());
                s.append("` references unknown stat `");
                s.append(key.as_str());
                s.append("`");
                s
            },
            VisualSceneError::NonNumericStat { label, key } => {
                let mut s = String::from_str("Resolve action `");
                s.append(label.as_str());
                s.append("` references non-numeric stat `");
                s.append(key.as_str());
                s.append("`");
                s
            },
            VisualSceneError::UnknownQuest { label, quest_id } => {
                let mut s = String::from_str("Resolve action `");
                s.append(label.as_str());
                s.append("` references unknown quest `");
                s.append(quest_id.as_str());
                s.append("`");
                s
            },
            VisualSceneError::UnknownRelationship { label, relationship } => {
                let mut s = String::from_str("Resolve action `");
                s.append(label.as_str());
                s.append("` references unknown relationship `");
                s.append(relationship.as_str());
                s.append("`");
                s
            },
            VisualSceneError::UnknownLayer { label, layer_id } => {
                let mut s = String::from_str("Resolve action `");
                s.append(label.as_str());
                s.append("` references unknown layer `");
                s.append(layer_id.as_str());
                s.append("`");
                s
            },
            VisualSceneError::UnknownEntity { label, entity_id } => {
                let mut s = String::from_str("Resolve action `");
                s.append(label.as_str());
                s.append("` references unknown entity `");
                s.append(entity_id.as_str());
                s.append("`");
                s
            },
            VisualSceneError::UnknownLayerTransition { label, layer_id, input } => {
                let mut s = String::from_str("Resolve action `");
                s.append(label.as_str());
                s.append("` references unknown layer transition `");
                s.append(layer_id.as_str());
                s.append(":");
                s.append(input.as_str());
                s.append("`");
                s
            },
            VisualSceneError::LayerTransitionGuardFailed { label, layer_id, input } => {
                let mut s = String::from_str("Resolve action `");
                s.append(label.as_str());
                s.append("` blocked by layer transition guard `");
                s.append(layer_id.as_str());
                s.append(":");
                s.append(input.as_str());
                s.append("`");
                s
            },
            VisualSceneError::EmptyModeId => {
                let mut s = String::from_str("scene mode id must be non-empty");
                s
            },
            VisualSceneError::EmptyModeLabel => {
                let mut s = String::from_str("scene mode label must be non-empty");
                s
            },
            VisualSceneError::EmptyModeAllowedAction => {
                let mut s = String::from_str("scene mode allowed action must be non-empty");
                s
            },
            VisualSceneError::EmptyModeLifecycleStatus => {
                let mut s = String::from_str("scene mode lifecycle status must be non-empty when provided");
                s
            },
            VisualSceneError::EmptyModeInputBindingInput => {
                let mut s = String::from_str("scene mode input binding input must be non-empty");
                s
            },
            VisualSceneError::EmptyModeInputBindingAction => {
                let mut s = String::from_str("scene mode input binding action must be non-empty");
                s
            },
            VisualSceneError::UnknownModeInputBindingInput(f0) => {
                let mut s = String::from_str("unknown scene mode input binding input `");
                s.append(f0.as_str());
                s.append("`");
                s
            },
            VisualSceneError::UnknownModeInputBindingAction(f0) => {
                let mut s = String::from_str("unknown scene mode input binding action `");
                s.append(f0.as_str());
                s.append("`");
                s
            },
            VisualSceneError::EmptyModeInputBindingConditionVariable => {
                let mut s = String::from_str("scene mode input binding condition variable must be non-empty");
                s
            },
            VisualSceneError::EmptyLayerId => {
                let mut s = String::from_str("scene layer id must be non-empty");
                s
            },
            VisualSceneError::DuplicateLayerId(f0) => {
                let mut s = String::from_str("duplicate scene layer id `");
                s.append(f0.as_str());
                s.append("`");
                s
            },
            VisualSceneError::EmptyLayerState { layer_id } => {
                let mut s = String::from_str("scene layer `");
                s.append(layer_id.as_str());
                s.append("` state must be non-empty");
                s
            },
            VisualSceneError::EmptyLayerInputBindingInput { layer_id } => {
                let mut s = String::from_str("scene layer `");
                s.append(layer_id.as_str());
                s.append("` input binding input must be non-empty");
                s
            },
            VisualSceneError::EmptyLayerInputBindingAction { layer_id } => {
                let mut s = String::from_str("scene layer `");
                s.append(layer_id.as_str());
                s.append("` input binding action must be non-empty");
                s
            },
            VisualSceneError::UnknownLayerInputBindingInput { layer_id, input } => {
                let mut s = String::from_str("scene layer `");
                s.append(layer_id.as_str());
                s.append("` has unknown input binding input `");
                s.append(input.as_str());
                s.append("`");
                s
            },
            VisualSceneError::UnknownLayerInputBindingAction { layer_id, action } => {
                let mut s = String::from_str("scene layer `");
                s.append(layer_id.as_str());
                s.append("` has unknown input binding action `");
                s.append(action.as_str());
                s.append("`");
                s
            },
            VisualSceneError::EmptyLayerInputBindingConditionVariable { layer_id } => {
                let mut s = String::from_str("scene layer `");
                s.append(layer_id.as_str());
                s.append("` input binding condition variable must be non-empty");
                s
            },
            VisualSceneError::EmptyLayerTransitionInput { layer_id } => {
                let mut s = String::from_str("scene layer `");
                s.append(layer_id.as_str());
                s.append("` transition input must be non-empty");
                s
            },
            VisualSceneError::EmptyLayerTransitionTarget { layer_id } => {
                let mut s = String::from_str("scene layer `");
                s.append(layer_id.as_str());
                s.append("` transition target state must be non-empty");
                s
            },
            VisualSceneError::UnknownLayerTransitionInput { layer_id, input } => {
                let mut s = String::from_str("scene layer `");
                s.append(layer_id.as_str());
                s.append("` has unknown transition input `");
                s.append(input.as_str());
                s.append("`");
                s
            },
            VisualSceneError::EmptyLayerTransitionConditionVariable { layer_id } => {
                let mut s = String::from_str("scene layer `");
                s.append(layer_id.as_str());
                s.append("` transition condition variable must be non-empty");
                s
            },
            VisualSceneError::EmptyStageLayerId => {
                let mut s = String::from_str("scene stage layer id must be non-empty");
                s
            },
            VisualSceneError::DuplicateStageLayerId(f0) => {
                let mut s = String::from_str("duplicate scene stage layer id `");
                s.append(f0.as_str());
                s.append("`");
                s
            },
            VisualSceneError::EmptyStageDisplayableTag => {
                let mut s = String::from_str("scene stage displayable tag must be non-empty");
                s
            },
            VisualSceneError::EmptyStageDisplayableSprite { tag } => {
                let mut s = String::from_str("scene stage displayable `");
                s.append(tag.as_str());
                s.append("` sprite must be non-empty");
                s
            },
            VisualSceneError::DuplicateStageDisplayableTag { layer_id, tag } => {
                let mut s = String::from_str("duplicate scene stage displayable tag `");
                s.append(layer_id.as_str());
                s.append(":");
                s.append(tag.as_str());
                s.append("`");
                s
            },
            VisualSceneError::EmptyVariableKey => {
                let mut s = String::from_str("scene variable key must be non-empty");
                s
            },
            VisualSceneError::DuplicateVariableKey(f0) => {
                let mut s = String::from_str("duplicate scene variable key `");
                s.append(f0.as_str());
                s.append("`");
                s
            },
            VisualSceneError::EmptyConditionVariable { label } => {
                let mut s = String::from_str("choice action `");
                s.append(label.as_str());
                s.append("` has an empty condition variable");
                s
            },
            VisualSceneError::EmptyDialogueSpeaker { index } => {
                let mut s = String::from_str("dialogue line ");
                let t_index = usize_text(*index);
                s.append(t_index.as_str());
                s.append(" must provide a non-empty speaker");
                s
            },
            VisualSceneError::EmptyDialogueText { index } => {
                let mut s = String::from_str("dialogue line ");
                let t_index = usize_text(*index);
                s.append(t_index.as_str());
                s.append(" must provide non-empty text");
                s
            },
            VisualSceneError::DialogueTargetOutOfBounds { label, target } => {
                let mut s = String::from_str("choice action `");
                s.append(label.as_str());
                s.append("` references missing dialogue line ");
                let t_target = usize_text(*target);
                s.append(t_target.as_str());
                s
            },
            VisualSceneError::EmptyActionPolicyOrigin { label } => {
                let mut s = String::from_str("choice action `");
                s.append(label.as_str());
                s.append("` policy origin must be non-empty");
                s
            },
            VisualSceneError::EmptyActionPolicyRisk { label } => {
                let mut s = String::from_str("choice action `");
                s.append(label.as_str());
                s.append("` policy risk must be non-empty");
                s
            },
            VisualSceneError::EmptyActionPolicyScope { label } => {
                let mut s = String::from_str("choice action `");
                s.append(label.as_str());
                s.append("` policy scope must be non-empty");
                s
            },
            VisualSceneError::UnknownActionPolicyOrigin { label, origin } => {
                let mut s = String::from_str("choice action `");
                s.append(label.as_str());
                s.append("` has unknown policy origin `");
                s.append(origin.as_str());
                s.append("`");
                s
            },
            VisualSceneError::UnknownActionPolicyRisk { label, risk } => {
                let mut s = String::from_str("choice action `");
                s.append(label.as_str());
                s.append("` has unknown policy risk `");
                s.append(risk.as_str());
                s.append("`");
                s
            },
            VisualSceneError::UnknownActionPolicyScope { label, scope } => {
                let mut s = String::from_str("choice action `");
                s.append(label.as_str());
                s.append("` has unknown policy scope `");
                s.append(scope.as_str());
                s.append("`");
                s
            },
            VisualSceneError::EmptyActionPolicySummary { label } => {
                let mut s = String::from_str("choice action `");
                s.append(label.as_str());
                s.append("` policy summary must be non-empty when provided");
                s
            },
            VisualSceneError::EmptyInventoryItemId => {
                let mut s = String::from_str("inventory item id must be non-empty");
                s
            },
            VisualSceneError::EmptyInventoryLabel { item_id } => {
                let mut s = String::from_str("inventory item `");
                s.append(item_id.as_str());
                s.append("` label must be non-empty");
                s
            },
            VisualSceneError::DuplicateInventoryItemId(f0) => {
                let mut s = String::from_str("duplicate inventory item id `");
                s.append(f0.as_str());
                s.append("`");
                s
            },
            VisualSceneError::EmptyStatKey => {
                let mut s = String::from_str("stat key must be non-empty");
                s
            },
            VisualSceneError::EmptyStatOwnerId => {
                let mut s = String::from_str("stat owner id must be non-empty when provided");
                s
            },
            VisualSceneError::DuplicateStatKey(f0) => {
                let mut s = String::from_str("duplicate stat `");
                s.append(f0.as_str());
                s.append("`");
                s
            },
            VisualSceneError::EmptyQuestId => {
                let mut s = String::from_str("quest id must be non-empty");
                s
            },
            VisualSceneError::EmptyQuestLabel { quest_id } => {
                let mut s = String::from_str("quest `");
                s.append(quest_id.as_str());
                s.append("` label must be non-empty");
                s
            },
            VisualSceneError::DuplicateQuestId(f0) => {
                let mut s = String::from_str("duplicate quest id `");
                s.append(f0.as_str());
                s.append("`");
                s
            },
            VisualSceneError::EmptyRelationshipSourceId => {
                let mut s = String::from_str("relationship source id must be non-empty");
                s
            },
            VisualSceneError::EmptyRelationshipTargetId => {
                let mut s = String::from_str("relationship target id must be non-empty");
                s
            },
            VisualSceneError::EmptyRelationshipKind => {
                let mut s = String::from_str("relationship kind must be non-empty");
                s
            },
            VisualSceneError::DuplicateRelationship(f0) => {
                let mut s = String::from_str("duplicate relationship `");
                s.append(f0.as_str());
                s.append("`");
                s
            },
            VisualSceneError::UnknownRelationshipSourceId(f0) => {
                let mut s = String::from_str("relationship source id `");
                s.append(f0.as_str());
                s.append("` does not reference a scene entity");
                s
            },
            VisualSceneError::UnknownRelationshipTargetId(f0) => {
                let mut s = String::from_str("relationship target id `");
                s.append(f0.as_str());
                s.append("` does not reference a scene entity");
                s
            },
            VisualSceneError::Json(f0) => {
                let mut s = String::from_str("scene json error: ");
                s.append(f0.as_str());
                s
            },
            VisualSceneError::File { path, message } => {
                let mut s = String::from_str("scene file error for `");
                s.append(path.as_str());
                s.append("`: ");
                s.append(message.as_str());
                s
            },
        }
    }
}

} // verus!
