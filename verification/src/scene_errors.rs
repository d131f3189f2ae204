//! Errors of scene and sprite-manifest validation and of state resolution.

use vstd::prelude::*;

verus! {

#[derive(Debug, Clone, PartialEq, Eq)]
pub enum VisualSceneError {
    EmptyScene,
    DuplicateEntityId(String),
    EntityOutOfBounds { id: String, x: usize, y: usize },
    EmptyRunCommand { label: String },
    EmptyRunCommandCwd { label: String },
    EmptyStoryStatePath { label: String },
    EmptyResolveOperations { label: String },
    EmptyResolveOperationKey { label: String },
    UnknownInventoryItem { label: String, item_id: String },
    UnknownStat { label: String, key: String },
    NonNumericStat { label: String, key: String },
    UnknownQuest { label: String, quest_id: String },
    UnknownRelationship { label: String, relationship: String },
    UnknownLayer { label: String, layer_id: String },
    UnknownEntity { label: String, entity_id: String },
    UnknownLayerTransition { label: String, layer_id: String, input: String },
    LayerTransitionGuardFailed { label: String, layer_id: String, input: String },
    EmptyModeId,
    EmptyModeLabel,
    EmptyModeAllowedAction,
    EmptyModeLifecycleStatus,
    EmptyModeInputBindingInput,
    EmptyModeInputBindingAction,
    UnknownModeInputBindingInput(String),
    UnknownModeInputBindingAction(String),
    EmptyModeInputBindingConditionVariable,
    EmptyLayerId,
    DuplicateLayerId(String),
    EmptyLayerState { layer_id: String },
    EmptyLayerInputBindingInput { layer_id: String },
    EmptyLayerInputBindingAction { layer_id: String },
    UnknownLayerInputBindingInput { layer_id: String, input: String },
    UnknownLayerInputBindingAction { layer_id: String, action: String },
    EmptyLayerInputBindingConditionVariable { layer_id: String },
    EmptyLayerTransitionInput { layer_id: String },
    EmptyLayerTransitionTarget { layer_id: String },
    UnknownLayerTransitionInput { layer_id: String, input: String },
    EmptyLayerTransitionConditionVariable { layer_id: String },
    EmptyStageLayerId,
    DuplicateStageLayerId(String),
    EmptyStageDisplayableTag,
    EmptyStageDisplayableSprite { tag: String },
    DuplicateStageDisplayableTag { layer_id: String, tag: String },
    EmptyVariableKey,
    DuplicateVariableKey(String),
    EmptyConditionVariable { label: String },
    EmptyDialogueSpeaker { index: usize },
    EmptyDialogueText { index: usize },
    DialogueTargetOutOfBounds { label: String, target: usize },
    EmptyActionPolicyOrigin { label: String },
    EmptyActionPolicyRisk { label: String },
    EmptyActionPolicyScope { label: String },
    UnknownActionPolicyOrigin { label: String, origin: String },
    UnknownActionPolicyRisk { label: String, risk: String },
    UnknownActionPolicyScope { label: String, scope: String },
    EmptyActionPolicySummary { label: String },
    EmptyInventoryItemId,
    EmptyInventoryLabel { item_id: String },
    DuplicateInventoryItemId(String),
    EmptyStatKey,
    EmptyStatOwnerId,
    DuplicateStatKey(String),
    EmptyQuestId,
    EmptyQuestLabel { quest_id: String },
    DuplicateQuestId(String),
    EmptyRelationshipSourceId,
    EmptyRelationshipTargetId,
    EmptyRelationshipKind,
    DuplicateRelationship(String),
    UnknownRelationshipSourceId(String),
    UnknownRelationshipTargetId(String),
    Json(String),
    File { path: String, message: String },
}

#[derive(Debug, Clone, PartialEq, Eq)]
pub enum VisualSpriteManifestError {
    Json(String),
    File { path: String, message: String },
    EmptySpriteId,
    EmptySpritePath { id: String },
    DuplicateSpriteId(String),
}

#[derive(Debug, Clone, PartialEq, Eq)]
pub enum VisualStateEntryError {
    EmptyKey,
    DuplicateKey(String),
}

#[derive(Debug, Clone, PartialEq, Eq)]
pub enum VisualDialogueLineError {
    EmptySpeaker { index: usize },
    EmptyText { index: usize },
}

/// The first error among indices `0..n`, in index order.
pub open spec fn first_some<E>(f: spec_fn(int) -> Option<E>, n: int) -> Option<E>
    decreases n,
{
    if n <= 0 {
        None
    } else {
        match first_some(f, n - 1) {
            Some(e) => Some(e),
            None => f(n - 1),
        }
    }
}

/// When no error occurs among the first `n` indices, none occurs at any of them.
pub proof fn lemma_first_some_none<E>(f: spec_fn(int) -> Option<E>, n: int)
    requires
        first_some(f, n) is None,
    ensures
        forall|i: int| 0 <= i < n ==> (#[trigger] f(i)) is None,
    decreases n,
{
    if n > 0 {
        lemma_first_some_none(f, n - 1);
    }
}

/// The first error is the one at `i` when no earlier index has one.
pub proof fn lemma_first_some_at<E>(f: spec_fn(int) -> Option<E>, i: int, n: int)
    requires
        0 <= i < n,
        first_some(f, i) is None,
        f(i) is Some,
    ensures
        first_some(f, n) == f(i),
    decreases n,
{
    if n > i + 1 {
        lemma_first_some_at(f, i, n - 1);
    }
}

/// The first error is one of the per-index errors.
pub proof fn lemma_first_some_from<E>(f: spec_fn(int) -> Option<E>, n: int)
    ensures
        first_some(f, n) is Some ==> exists|i: int| 0 <= i < n && first_some(f, n) == #[trigger] f(i),
    decreases n,
{
    if n > 0 {
        lemma_first_some_from(f, n - 1);
    }
}

} // verus!
