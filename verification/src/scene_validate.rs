//! Validation of sprite manifests, the stage, scene layers and the mode
//! descriptor.

use vstd::prelude::*;

use crate::scene_errors::{
    first_some, lemma_first_some_at, lemma_first_some_from, VisualSceneError,
    VisualSpriteManifestError,
};
use crate::scene_model::{
    SceneAction, SceneActionKind, VisualCondition, VisualDialogueLine, VisualEntity, VisualRpgState,
    VisualScene, VisualSpriteDefinition, VisualSpriteManifest, VisualStage, VisualStageDisplayable,
    VisualStageLayer, VisualStateOperation,
};
use crate::scene_errors::{VisualDialogueLineError, VisualStateEntryError};
use crate::schema::VisualModeDescriptor;
use crate::validation::{
    dialogue_lines_error, duplicate_relationship_key, rpg_error, same_result, state_entries_error,
    validate_dialogue_lines, validate_rpg_state, validate_state_entries,
};
use crate::schema::{VisualInputBinding, VisualLayerState, VisualLayerTransition};
use crate::text::{blank, is_blank, str_equal, trim, trim_seq};

verus! {

// ---------------------------------------------------------------- sprites

pub open spec fn sprite_error_at(sprites: Seq<VisualSpriteDefinition>, i: int) -> Option<
    VisualSpriteManifestError,
> {
    if blank(sprites[i].id@) {
        Some(VisualSpriteManifestError::EmptySpriteId)
    } else if blank(sprites[i].path@) {
        Some(VisualSpriteManifestError::EmptySpritePath { id: sprites[i].id })
    } else if exists|j: int| 0 <= j < i && #[trigger] sprites[j].id@ == sprites[i].id@ {
        Some(VisualSpriteManifestError::DuplicateSpriteId(sprites[i].id))
    } else {
        None
    }
}

pub open spec fn sprite_errors(sprites: Seq<VisualSpriteDefinition>) -> spec_fn(int) -> Option<
    VisualSpriteManifestError,
> {
    |i: int| sprite_error_at(sprites, i)
}

pub open spec fn sprite_manifest_error(m: VisualSpriteManifest) -> Option<VisualSpriteManifestError> {
    first_some(sprite_errors(m.sprites@), m.sprites@.len() as int)
}

impl VisualSpriteManifest {
    /// Sprite ids and paths are non-blank and ids are distinct; the first
    /// offending sprite is reported.
    pub fn validate(&self) -> (r: Result<(), VisualSpriteManifestError>)
        ensures
            r == (match sprite_manifest_error(*self) {
                Some(e) => Err(e),
                None => Ok(()),
            }),
    {
        let sprites = &self.sprites;
        let mut i: usize = 0;
        while i < sprites.len()
            invariant
                sprites == &self.sprites,
                i <= sprites@.len(),
                first_some(sprite_errors(sprites@), i as int) is None,
            decreases sprites.len() - i,
        {
            if is_blank(sprites[i].id.as_str()) {
                proof {
                    lemma_first_some_at(sprite_errors(sprites@), i as int, sprites@.len() as int);
                }
                return Err(VisualSpriteManifestError::EmptySpriteId);
            }
            if is_blank(sprites[i].path.as_str()) {
                proof {
                    lemma_first_some_at(sprite_errors(sprites@), i as int, sprites@.len() as int);
                }
                return Err(VisualSpriteManifestError::EmptySpritePath { id: sprites[i].id.clone() });
            }
            let mut j: usize = 0;
            #[verifier::loop_isolation(false)]
            while j < i
                invariant
                    j <= i,
                    forall|k: int| 0 <= k < j ==> #[trigger] sprites@[k].id@ != sprites@[i as int].id@,
                decreases i - j,
            {
                if sprites[j].id == sprites[i].id {
                    proof {
                        lemma_first_some_at(sprite_errors(sprites@), i as int, sprites@.len() as int);
                    }
                    return Err(VisualSpriteManifestError::DuplicateSpriteId(sprites[i].id.clone()));
                }
                j = j + 1;
            }
            i = i + 1;
        }
        Ok(())
    }
}

// ---------------------------------------------------------------- stage

pub open spec fn displayable_error_at(
    layer_id: String,
    ds: Seq<VisualStageDisplayable>,
    i: int,
) -> Option<VisualSceneError> {
    if blank(ds[i].tag@) {
        Some(VisualSceneError::EmptyStageDisplayableTag)
    } else if blank(ds[i].sprite@) {
        Some(VisualSceneError::EmptyStageDisplayableSprite { tag: ds[i].tag })
    } else if exists|j: int| 0 <= j < i && #[trigger] ds[j].tag@ == ds[i].tag@ {
        Some(VisualSceneError::DuplicateStageDisplayableTag { layer_id, tag: ds[i].tag })
    } else {
        None
    }
}

pub open spec fn displayable_errors(layer_id: String, ds: Seq<VisualStageDisplayable>) -> spec_fn(
    int,
) -> Option<VisualSceneError> {
    |i: int| displayable_error_at(layer_id, ds, i)
}

pub open spec fn stage_layer_error_at(layers: Seq<VisualStageLayer>, i: int) -> Option<
    VisualSceneError,
> {
    if blank(layers[i].layer_id@) {
        Some(VisualSceneError::EmptyStageLayerId)
    } else if exists|j: int| 0 <= j < i && #[trigger] layers[j].layer_id@ == layers[i].layer_id@ {
        Some(VisualSceneError::DuplicateStageLayerId(layers[i].layer_id))
    } else {
        first_some(
            displayable_errors(layers[i].layer_id, layers[i].displayables@),
            layers[i].displayables@.len() as int,
        )
    }
}

pub open spec fn stage_layer_errors(layers: Seq<VisualStageLayer>) -> spec_fn(int) -> Option<
    VisualSceneError,
> {
    |i: int| stage_layer_error_at(layers, i)
}

pub open spec fn stage_error(stage: VisualStage) -> Option<VisualSceneError> {
    first_some(stage_layer_errors(stage.layers@), stage.layers@.len() as int)
}

fn displayables_check(layer_id: &String, ds: &Vec<VisualStageDisplayable>) -> (r: Result<
    (),
    VisualSceneError,
>)
    ensures
        r == (match first_some(displayable_errors(*layer_id, ds@), ds@.len() as int) {
            Some(e) => Err(e),
            None => Ok(()),
        }),
{
    let mut i: usize = 0;
    while i < ds.len()
        invariant
            i <= ds@.len(),
            first_some(displayable_errors(*layer_id, ds@), i as int) is None,
        decreases ds.len() - i,
    {
        if is_blank(ds[i].tag.as_str()) {
            proof {
                lemma_first_some_at(displayable_errors(*layer_id, ds@), i as int, ds@.len() as int);
            }
            return Err(VisualSceneError::EmptyStageDisplayableTag);
        }
        if is_blank(ds[i].sprite.as_str()) {
            proof {
                lemma_first_some_at(displayable_errors(*layer_id, ds@), i as int, ds@.len() as int);
            }
            return Err(VisualSceneError::EmptyStageDisplayableSprite { tag: ds[i].tag.clone() });
        }
        let mut j: usize = 0;
        #[verifier::loop_isolation(false)]
        while j < i
            invariant
                j <= i,
                forall|k: int| 0 <= k < j ==> #[trigger] ds@[k].tag@ != ds@[i as int].tag@,
            decreases i - j,
        {
            if ds[j].tag == ds[i].tag {
                proof {
                    lemma_first_some_at(
                        displayable_errors(*layer_id, ds@),
                        i as int,
                        ds@.len() as int,
                    );
                }
                return Err(
                    VisualSceneError::DuplicateStageDisplayableTag {
                        layer_id: layer_id.clone(),
                        tag: ds[i].tag.clone(),
                    },
                );
            }
            j = j + 1;
        }
        i = i + 1;
    }
    Ok(())
}

/// Stage layers have non-blank distinct ids; within a layer, displayables
/// have non-blank tags and sprites and distinct tags.
pub fn validate_stage(stage: &VisualStage) -> (r: Result<(), VisualSceneError>)
    ensures
        r == (match stage_error(*stage) {
            Some(e) => Err(e),
            None => Ok(()),
        }),
{
    let layers = &stage.layers;
    let mut i: usize = 0;
    while i < layers.len()
        invariant
            layers == &stage.layers,
            i <= layers@.len(),
            first_some(stage_layer_errors(layers@), i as int) is None,
        decreases layers.len() - i,
    {
        if is_blank(layers[i].layer_id.as_str()) {
            proof {
                lemma_first_some_at(stage_layer_errors(layers@), i as int, layers@.len() as int);
            }
            return Err(VisualSceneError::EmptyStageLayerId);
        }
        let mut j: usize = 0;
        #[verifier::loop_isolation(false)]
        while j < i
            invariant
                j <= i,
                forall|k: int| 0 <= k < j ==> #[trigger] layers@[k].layer_id@ != layers@[i as int].layer_id@,
            decreases i - j,
        {
            if layers[j].layer_id == layers[i].layer_id {
                proof {
                    lemma_first_some_at(stage_layer_errors(layers@), i as int, layers@.len() as int);
                }
                return Err(VisualSceneError::DuplicateStageLayerId(layers[i].layer_id.clone()));
            }
            j = j + 1;
        }
        match displayables_check(&layers[i].layer_id, &layers[i].displayables) {
            Err(e) => {
                proof {
                    lemma_first_some_at(stage_layer_errors(layers@), i as int, layers@.len() as int);
                }
                return Err(e);
            },
            Ok(()) => {},
        }
        i = i + 1;
    }
    Ok(())
}

// ---------------------------------------------------------------- inputs

/// The input names an input binding may use: the binding keys of
/// `VisualInput`.
pub open spec fn supported_mode_input(s: Seq<char>) -> bool {
    ||| s == "close"@
    ||| s == "reload"@
    ||| s == "toggle_debug"@
    ||| s == "activate"@
    ||| s == "next"@
    ||| s == "previous"@
    ||| s == "left"@
    ||| s == "right"@
    ||| s == "other"@
}

/// The actions an input binding may run.
pub open spec fn supported_mode_input_action(s: Seq<char>) -> bool {
    ||| s == "close"@
    ||| s == "reload"@
    ||| s == "ignore"@
    ||| s == "toggle_debug"@
    ||| s == "show_command_selection"@
    ||| s == "hide_command_selection"@
    ||| s == "toggle_command_selection"@
    ||| s == "activate_choice"@
    ||| s == "select_next"@
    ||| s == "select_previous"@
    ||| s == "run_update_hooks"@
    ||| s == "run_exit_hooks"@
    ||| s == "export_story_state"@
    ||| s == "import_story_state"@
}

pub fn is_supported_mode_input(s: &str) -> (b: bool)
    ensures
        b == supported_mode_input(s@),
{
    str_equal(s, "close") || str_equal(s, "reload") || str_equal(s, "toggle_debug") || str_equal(
        s,
        "activate",
    ) || str_equal(s, "next") || str_equal(s, "previous") || str_equal(s, "left") || str_equal(
        s,
        "right",
    ) || str_equal(s, "other")
}

pub fn is_supported_mode_input_action(s: &str) -> (b: bool)
    ensures
        b == supported_mode_input_action(s@),
{
    str_equal(s, "close") || str_equal(s, "reload") || str_equal(s, "ignore") || str_equal(
        s,
        "toggle_debug",
    ) || str_equal(s, "show_command_selection") || str_equal(s, "hide_command_selection")
        || str_equal(s, "toggle_command_selection") || str_equal(s, "activate_choice") || str_equal(
        s,
        "select_next",
    ) || str_equal(s, "select_previous") || str_equal(s, "run_update_hooks") || str_equal(
        s,
        "run_exit_hooks",
    ) || str_equal(s, "export_story_state") || str_equal(s, "import_story_state")
}

/// Some condition has a blank variable name.
pub open spec fn any_blank_condition(conds: Seq<VisualCondition>) -> bool {
    exists|j: int| 0 <= j < conds.len() && blank(#[trigger] conds[j].variable@)
}

pub fn has_blank_condition(conds: &Vec<VisualCondition>) -> (b: bool)
    ensures
        b == any_blank_condition(conds@),
{
    let mut j: usize = 0;
    while j < conds.len()
        invariant
            j <= conds@.len(),
            forall|k: int| 0 <= k < j ==> !blank(#[trigger] conds@[k].variable@),
        decreases conds.len() - j,
    {
        if is_blank(conds[j].variable.as_str()) {
            return true;
        }
        j = j + 1;
    }
    false
}

// ---------------------------------------------------------------- layers

pub open spec fn layer_binding_error_at(
    layer_id: String,
    bs: Seq<VisualInputBinding>,
    i: int,
) -> Option<VisualSceneError> {
    if blank(bs[i].input@) {
        Some(VisualSceneError::EmptyLayerInputBindingInput { layer_id })
    } else if blank(bs[i].action@) {
        Some(VisualSceneError::EmptyLayerInputBindingAction { layer_id })
    } else if !supported_mode_input(trim_seq(bs[i].input@)) {
        Some(VisualSceneError::UnknownLayerInputBindingInput { layer_id, input: bs[i].input })
    } else if !supported_mode_input_action(trim_seq(bs[i].action@)) {
        Some(VisualSceneError::UnknownLayerInputBindingAction { layer_id, action: bs[i].action })
    } else if any_blank_condition(bs[i].conditions@) {
        Some(VisualSceneError::EmptyLayerInputBindingConditionVariable { layer_id })
    } else {
        None
    }
}

pub open spec fn layer_binding_errors(layer_id: String, bs: Seq<VisualInputBinding>) -> spec_fn(
    int,
) -> Option<VisualSceneError> {
    |i: int| layer_binding_error_at(layer_id, bs, i)
}

pub open spec fn layer_transition_error_at(
    layer_id: String,
    ts: Seq<VisualLayerTransition>,
    i: int,
) -> Option<VisualSceneError> {
    if blank(ts[i].input@) {
        Some(VisualSceneError::EmptyLayerTransitionInput { layer_id })
    } else if blank(ts[i].target_state@) {
        Some(VisualSceneError::EmptyLayerTransitionTarget { layer_id })
    } else if !supported_mode_input(trim_seq(ts[i].input@)) {
        Some(VisualSceneError::UnknownLayerTransitionInput { layer_id, input: ts[i].input })
    } else if any_blank_condition(ts[i].conditions@) {
        Some(VisualSceneError::EmptyLayerTransitionConditionVariable { layer_id })
    } else {
        None
    }
}

pub open spec fn layer_transition_errors(layer_id: String, ts: Seq<VisualLayerTransition>) -> spec_fn(
    int,
) -> Option<VisualSceneError> {
    |i: int| layer_transition_error_at(layer_id, ts, i)
}

pub open spec fn layer_error_at(layers: Seq<VisualLayerState>, i: int) -> Option<VisualSceneError> {
    let l = layers[i];
    if blank(l.layer_id@) {
        Some(VisualSceneError::EmptyLayerId)
    } else if exists|j: int| 0 <= j < i && #[trigger] layers[j].layer_id@ == l.layer_id@ {
        Some(VisualSceneError::DuplicateLayerId(l.layer_id))
    } else if blank(l.state@) {
        Some(VisualSceneError::EmptyLayerState { layer_id: l.layer_id })
    } else {
        match first_some(layer_binding_errors(l.layer_id, l.input_map@), l.input_map@.len() as int) {
            Some(e) => Some(e),
            None => first_some(
                layer_transition_errors(l.layer_id, l.transitions@),
                l.transitions@.len() as int,
            ),
        }
    }
}

pub open spec fn layer_errors(layers: Seq<VisualLayerState>) -> spec_fn(int) -> Option<
    VisualSceneError,
> {
    |i: int| layer_error_at(layers, i)
}

pub open spec fn layers_error(layers: Seq<VisualLayerState>) -> Option<VisualSceneError> {
    first_some(layer_errors(layers), layers.len() as int)
}

fn layer_bindings_check(layer_id: &String, bs: &Vec<VisualInputBinding>) -> (r: Result<
    (),
    VisualSceneError,
>)
    ensures
        r == (match first_some(layer_binding_errors(*layer_id, bs@), bs@.len() as int) {
            Some(e) => Err(e),
            None => Ok(()),
        }),
{
    let mut i: usize = 0;
    while i < bs.len()
        invariant
            i <= bs@.len(),
            first_some(layer_binding_errors(*layer_id, bs@), i as int) is None,
        decreases bs.len() - i,
    {
        let b = &bs[i];
        let err = if is_blank(b.input.as_str()) {
            Some(VisualSceneError::EmptyLayerInputBindingInput { layer_id: layer_id.clone() })
        } else if is_blank(b.action.as_str()) {
            Some(VisualSceneError::EmptyLayerInputBindingAction { layer_id: layer_id.clone() })
        } else if !is_supported_mode_input(trim(b.input.as_str()).as_str()) {
            Some(
                VisualSceneError::UnknownLayerInputBindingInput {
                    layer_id: layer_id.clone(),
                    input: b.input.clone(),
                },
            )
        } else if !is_supported_mode_input_action(trim(b.action.as_str()).as_str()) {
            Some(
                VisualSceneError::UnknownLayerInputBindingAction {
                    layer_id: layer_id.clone(),
                    action: b.action.clone(),
                },
            )
        } else if has_blank_condition(&b.conditions) {
            Some(
                VisualSceneError::EmptyLayerInputBindingConditionVariable {
                    layer_id: layer_id.clone(),
                },
            )
        } else {
            None
        };
        match err {
            Some(e) => {
                proof {
                    lemma_first_some_at(
                        layer_binding_errors(*layer_id, bs@),
                        i as int,
                        bs@.len() as int,
                    );
                }
                return Err(e);
            },
            None => {},
        }
        i = i + 1;
    }
    Ok(())
}

fn layer_transitions_check(layer_id: &String, ts: &Vec<VisualLayerTransition>) -> (r: Result<
    (),
    VisualSceneError,
>)
    ensures
        r == (match first_some(layer_transition_errors(*layer_id, ts@), ts@.len() as int) {
            Some(e) => Err(e),
            None => Ok(()),
        }),
{
    let mut i: usize = 0;
    while i < ts.len()
        invariant
            i <= ts@.len(),
            first_some(layer_transition_errors(*layer_id, ts@), i as int) is None,
        decreases ts.len() - i,
    {
        let t = &ts[i];
        let err = if is_blank(t.input.as_str()) {
            Some(VisualSceneError::EmptyLayerTransitionInput { layer_id: layer_id.clone() })
        } else if is_blank(t.target_state.as_str()) {
            Some(VisualSceneError::EmptyLayerTransitionTarget { layer_id: layer_id.clone() })
        } else if !is_supported_mode_input(trim(t.input.as_str()).as_str()) {
            Some(
                VisualSceneError::UnknownLayerTransitionInput {
                    layer_id: layer_id.clone(),
                    input: t.input.clone(),
                },
            )
        } else if has_blank_condition(&t.conditions) {
            Some(
                VisualSceneError::EmptyLayerTransitionConditionVariable {
                    layer_id: layer_id.clone(),
                },
            )
        } else {
            None
        };
        match err {
            Some(e) => {
                proof {
                    lemma_first_some_at(
                        layer_transition_errors(*layer_id, ts@),
                        i as int,
                        ts@.len() as int,
                    );
                }
                return Err(e);
            },
            None => {},
        }
        i = i + 1;
    }
    Ok(())
}

/// Scene layers have non-blank distinct ids and non-blank states; their
/// input bindings and transitions name supported inputs and actions and
/// carry no blank condition variables.
pub fn validate_layers(layers: &Vec<VisualLayerState>) -> (r: Result<(), VisualSceneError>)
    ensures
        r == (match layers_error(layers@) {
            Some(e) => Err(e),
            None => Ok(()),
        }),
{
    let mut i: usize = 0;
    while i < layers.len()
        invariant
            i <= layers@.len(),
            first_some(layer_errors(layers@), i as int) is None,
        decreases layers.len() - i,
    {
        if is_blank(layers[i].layer_id.as_str()) {
            proof {
                lemma_first_some_at(layer_errors(layers@), i as int, layers@.len() as int);
            }
            return Err(VisualSceneError::EmptyLayerId);
        }
        let mut j: usize = 0;
        #[verifier::loop_isolation(false)]
        while j < i
            invariant
                j <= i,
                forall|k: int| 0 <= k < j ==> #[trigger] layers@[k].layer_id@ != layers@[i as int].layer_id@,
            decreases i - j,
        {
            if layers[j].layer_id == layers[i].layer_id {
                proof {
                    lemma_first_some_at(layer_errors(layers@), i as int, layers@.len() as int);
                }
                return Err(VisualSceneError::DuplicateLayerId(layers[i].layer_id.clone()));
            }
            j = j + 1;
        }
        if is_blank(layers[i].state.as_str()) {
            proof {
                lemma_first_some_at(layer_errors(layers@), i as int, layers@.len() as int);
            }
            return Err(VisualSceneError::EmptyLayerState { layer_id: layers[i].layer_id.clone() });
        }
        match layer_bindings_check(&layers[i].layer_id, &layers[i].input_map) {
            Err(e) => {
                proof {
                    lemma_first_some_at(layer_errors(layers@), i as int, layers@.len() as int);
                }
                return Err(e);
            },
            Ok(()) => {},
        }
        match layer_transitions_check(&layers[i].layer_id, &layers[i].transitions) {
            Err(e) => {
                proof {
                    lemma_first_some_at(layer_errors(layers@), i as int, layers@.len() as int);
                }
                return Err(e);
            },
            Ok(()) => {},
        }
        i = i + 1;
    }
    Ok(())
}


/// A sprite manifest passes validation exactly when every sprite has an id
/// and a path and no two sprites share an id.
pub proof fn law_sprite_manifest_valid_iff_named_and_distinct(m: VisualSpriteManifest)
    ensures
        sprite_manifest_error(m) is None <==> {
            &&& forall|i: int|
                0 <= i < m.sprites@.len() ==> !blank((#[trigger] m.sprites@[i]).id@) && !blank(m.sprites@[i].path@)
            &&& forall|i: int, j: int|
                0 <= i < j < m.sprites@.len() ==> #[trigger] m.sprites@[i].id@ != #[trigger] m.sprites@[j].id@
        },
{
    let f = sprite_errors(m.sprites@);
    let n = m.sprites@.len() as int;
    if sprite_manifest_error(m) is None {
        crate::scene_errors::lemma_first_some_none(f, n);
        assert forall|i: int, j: int|
            0 <= i < j < n implies #[trigger] m.sprites@[i].id@ != #[trigger] m.sprites@[j].id@ by {
            assert(f(j) is None);
        }
        assert forall|i: int| 0 <= i < n implies !blank((#[trigger] m.sprites@[i]).id@) && !blank(m.sprites@[i].path@) by {
            assert(f(i) is None);
        }
    } else {
        lemma_first_some_from(f, n);
        let i = choose|i: int| 0 <= i < n && first_some(f, n) == #[trigger] f(i);
        assert(f(i) is Some);
        if !blank(m.sprites@[i].id@) && !blank(m.sprites@[i].path@) {
            let j = choose|j: int| 0 <= j < i && #[trigger] m.sprites@[j].id@ == m.sprites@[i].id@;
            assert(m.sprites@[j].id@ == m.sprites@[i].id@);
        }
    }
}

} // verus!
