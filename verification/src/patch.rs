//! Scene patches: partial updates of a running scene sent by an outside
//! process, checked on their own, then against the scene, and applied only
//! when both checks pass.

use vstd::prelude::*;

use crate::conditions::{first_from, first_index, key_is, lemma_first_index};
use crate::model::ValueModel;
use crate::pipeline_args::{lemma_first_from_is, lemma_first_from_none};
use crate::model::{copy_pairs, copy_strings, pm, vm, CopyView, EntityModel, EntryModel};
use crate::resolve::{entity_is, find_entity, set_var, set_variable};
use crate::runtime::{next_generation, recorded, SceneRuntime};
use crate::scene_errors::{
    first_some, lemma_first_some_at, lemma_first_some_from, VisualStateEntryError,
};
use crate::scene_model::{
    VisualEntity, VisualPosition, VisualProcessState, VisualScene, VisualStateEntry,
};
use crate::text::{blank, dec, is_blank, usize_text};
use crate::validation::{state_entries_error, validate_state_entries};

verus! {

/// The only patch format version understood.
pub const SCENE_PATCH_VERSION: u32 = 1;

pub struct VisualScenePatch {
    pub scene_patch_version: u32,
    pub updates: Vec<VisualSceneEntityPatch>,
    pub variables: Vec<VisualStateEntry>,
    pub selected_entity_id: Option<String>,
    pub process_state: Option<VisualProcessState>,
    pub status: Option<String>,
}

pub struct VisualSceneEntityPatch {
    pub entity_id: String,
    pub label: Option<String>,
    pub position: Option<VisualPosition>,
    pub sprite: Option<String>,
    pub visible: Option<bool>,
    pub state_flags: Option<Vec<String>>,
    pub metadata: Option<Vec<(String, String)>>,
}

#[derive(Debug, Clone, PartialEq, Eq)]
pub enum VisualScenePatchError {
    Json(String),
    File { path: String, message: String },
    UnsupportedVersion(u32),
    EmptyPatch,
    EmptyEntityId,
    EmptySelectedEntityId,
    UnknownEntityId(String),
    EntityOutOfBounds { entity_id: String, x: usize, y: usize },
    EmptyLabel { entity_id: String },
    EmptySprite { entity_id: String },
    EmptyMetadataKey { entity_id: String },
    EmptyVariableKey,
    DuplicateVariableKey(String),
    EmptyProcessEntityId,
    EmptyProcessCommand,
    EmptyProcessMessage,
    UnknownProcessEntityId(String),
}

/// An optional text that is present but blank.
pub open spec fn blank_opt(o: Option<String>) -> bool {
    o matches Some(s) && blank(s@)
}

pub open spec fn any_blank_key(m: Seq<(String, String)>) -> bool {
    exists|j: int| 0 <= j < m.len() && blank((#[trigger] m[j]).0@)
}

/// What is wrong with one entity update on its own.
pub open spec fn update_error_at(us: Seq<VisualSceneEntityPatch>, i: int) -> Option<
    VisualScenePatchError,
> {
    let u = us[i];
    if blank(u.entity_id@) {
        Some(VisualScenePatchError::EmptyEntityId)
    } else if blank_opt(u.label) {
        Some(VisualScenePatchError::EmptyLabel { entity_id: u.entity_id })
    } else if blank_opt(u.sprite) {
        Some(VisualScenePatchError::EmptySprite { entity_id: u.entity_id })
    } else if u.metadata matches Some(m) && any_blank_key(m@) {
        Some(VisualScenePatchError::EmptyMetadataKey { entity_id: u.entity_id })
    } else {
        None
    }
}

pub open spec fn update_errors(us: Seq<VisualSceneEntityPatch>) -> spec_fn(int) -> Option<
    VisualScenePatchError,
> {
    |i: int| update_error_at(us, i)
}

pub open spec fn process_error(p: Option<VisualProcessState>) -> Option<VisualScenePatchError> {
    match p {
        Some(ps) => if blank_opt(ps.entity_id) {
            Some(VisualScenePatchError::EmptyProcessEntityId)
        } else if blank_opt(ps.command) {
            Some(VisualScenePatchError::EmptyProcessCommand)
        } else if blank_opt(ps.message) {
            Some(VisualScenePatchError::EmptyProcessMessage)
        } else {
            None
        },
        None => None,
    }
}

/// The first problem of a patch on its own, in the order checked: version,
/// emptiness, variables, entity updates, selection, process state.
pub open spec fn patch_error(p: VisualScenePatch) -> Option<VisualScenePatchError> {
    if p.scene_patch_version != SCENE_PATCH_VERSION {
        Some(VisualScenePatchError::UnsupportedVersion(p.scene_patch_version))
    } else if p.updates@.len() == 0 && p.variables@.len() == 0 && p.process_state is None
        && p.status is None {
        Some(VisualScenePatchError::EmptyPatch)
    } else {
        match state_entries_error(p.variables@) {
            Some(VisualStateEntryError::EmptyKey) => Some(VisualScenePatchError::EmptyVariableKey),
            Some(VisualStateEntryError::DuplicateKey(k)) => Some(
                VisualScenePatchError::DuplicateVariableKey(k),
            ),
            None => match first_some(update_errors(p.updates@), p.updates@.len() as int) {
                Some(e) => Some(e),
                None => if blank_opt(p.selected_entity_id) {
                    Some(VisualScenePatchError::EmptySelectedEntityId)
                } else {
                    process_error(p.process_state)
                },
            },
        }
    }
}

fn blank_option(o: &Option<String>) -> (b: bool)
    ensures
        b == blank_opt(*o),
{
    match o {
        Some(s) => is_blank(s.as_str()),
        None => false,
    }
}

fn has_blank_key(m: &Vec<(String, String)>) -> (b: bool)
    ensures
        b == any_blank_key(m@),
{
    let mut j: usize = 0;
    while j < m.len()
        invariant
            j <= m@.len(),
            forall|k: int| 0 <= k < j ==> !blank((#[trigger] m@[k]).0@),
        decreases m.len() - j,
    {
        if is_blank(m[j].0.as_str()) {
            return true;
        }
        j = j + 1;
    }
    false
}

fn update_check(u: &VisualSceneEntityPatch, us: Ghost<Seq<VisualSceneEntityPatch>>, i: Ghost<int>) -> (r: Option<VisualScenePatchError>)
    requires
        0 <= i@ < us@.len(),
        us@[i@] == *u,
    ensures
        r == update_error_at(us@, i@),
{
    if is_blank(u.entity_id.as_str()) {
        return Some(VisualScenePatchError::EmptyEntityId);
    }
    if blank_option(&u.label) {
        return Some(VisualScenePatchError::EmptyLabel { entity_id: u.entity_id.clone() });
    }
    if blank_option(&u.sprite) {
        return Some(VisualScenePatchError::EmptySprite { entity_id: u.entity_id.clone() });
    }
    match &u.metadata {
        Some(m) => {
            if has_blank_key(m) {
                return Some(VisualScenePatchError::EmptyMetadataKey { entity_id: u.entity_id.clone() });
            }
        },
        None => {},
    }
    None
}

impl VisualScenePatch {
    /// Checks a patch on its own (see `patch_error`).
    #[verifier::loop_isolation(false)]
    pub fn validate(&self) -> (r: Result<(), VisualScenePatchError>)
        ensures
            r == (match patch_error(*self) {
                Some(e) => Err(e),
                None => Ok(()),
            }),
    {
        if self.scene_patch_version != SCENE_PATCH_VERSION {
            return Err(VisualScenePatchError::UnsupportedVersion(self.scene_patch_version));
        }
        if self.updates.len() == 0 && self.variables.len() == 0 && self.process_state.is_none()
            && self.status.is_none() {
            return Err(VisualScenePatchError::EmptyPatch);
        }
        match validate_state_entries(self.variables.as_slice()) {
            Err(VisualStateEntryError::EmptyKey) => {
                return Err(VisualScenePatchError::EmptyVariableKey);
            },
            Err(VisualStateEntryError::DuplicateKey(k)) => {
                return Err(VisualScenePatchError::DuplicateVariableKey(k));
            },
            Ok(()) => {},
        }
        let ghost f = update_errors(self.updates@);
        let mut i: usize = 0;
        while i < self.updates.len()
            invariant
                i <= self.updates@.len(),
                f == update_errors(self.updates@),
                first_some(f, i as int) is None,
            decreases self.updates.len() - i,
        {
            match update_check(&self.updates[i], Ghost(self.updates@), Ghost(i as int)) {
                Some(e) => {
                    proof {
                        lemma_first_some_at(f, i as int, self.updates@.len() as int);
                    }
                    return Err(e);
                },
                None => {},
            }
            i = i + 1;
        }
        if blank_option(&self.selected_entity_id) {
            return Err(VisualScenePatchError::EmptySelectedEntityId);
        }
        match &self.process_state {
            Some(ps) => {
                if blank_option(&ps.entity_id) {
                    return Err(VisualScenePatchError::EmptyProcessEntityId);
                }
                if blank_option(&ps.command) {
                    return Err(VisualScenePatchError::EmptyProcessCommand);
                }
                if blank_option(&ps.message) {
                    return Err(VisualScenePatchError::EmptyProcessMessage);
                }
            },
            None => {},
        }
        Ok(())
    }
}

// ---------------------------------------------------------------- against the scene

pub open spec fn has_id(ents: Seq<EntityModel>, id: Seq<char>) -> bool {
    first_index(ents, entity_is(id)) < ents.len()
}

/// What is wrong with one entity update against the scene.
pub open spec fn reference_error_at(
    ents: Seq<EntityModel>,
    width: usize,
    height: usize,
    us: Seq<VisualSceneEntityPatch>,
    i: int,
) -> Option<VisualScenePatchError> {
    let u = us[i];
    if !has_id(ents, u.entity_id@) {
        Some(VisualScenePatchError::UnknownEntityId(u.entity_id))
    } else {
        match u.position {
            Some(p) => if p.x >= width || p.y >= height {
                Some(
                    VisualScenePatchError::EntityOutOfBounds { entity_id: u.entity_id, x: p.x, y: p.y },
                )
            } else {
                None
            },
            None => None,
        }
    }
}

pub open spec fn reference_errors(
    ents: Seq<EntityModel>,
    width: usize,
    height: usize,
    us: Seq<VisualSceneEntityPatch>,
) -> spec_fn(int) -> Option<VisualScenePatchError> {
    |i: int| reference_error_at(ents, width, height, us, i)
}

/// The first problem of a patch against the scene: an update naming an
/// unknown entity or moving it out of bounds, an unknown selected entity,
/// or a process state naming an unknown entity.
pub open spec fn scene_reference_error(scene: VisualScene, p: VisualScenePatch) -> Option<
    VisualScenePatchError,
> {
    let ents = vm(scene.entities@);
    match first_some(reference_errors(ents, scene.width, scene.height, p.updates@), p.updates@.len() as int) {
        Some(e) => Some(e),
        None => match p.selected_entity_id {
            Some(id) if !has_id(ents, id@) => Some(VisualScenePatchError::UnknownEntityId(id)),
            _ => match p.process_state {
                Some(ps) => match ps.entity_id {
                    Some(id) if !has_id(ents, id@) => Some(
                        VisualScenePatchError::UnknownProcessEntityId(id),
                    ),
                    _ => None,
                },
                None => None,
            },
        },
    }
}

/// An entity with an update's present fields applied.
pub open spec fn patched_entity(e: EntityModel, u: VisualSceneEntityPatch) -> EntityModel {
    EntityModel {
        label: match u.label {
            Some(l) => l@,
            None => e.label,
        },
        position: match u.position {
            Some(p) => p,
            None => e.position,
        },
        sprite: match u.sprite {
            Some(s) => s@,
            None => e.sprite,
        },
        visible: match u.visible {
            Some(v) => v,
            None => e.visible,
        },
        state_flags: match u.state_flags {
            Some(f) => vm(f@),
            None => e.state_flags,
        },
        metadata: match u.metadata {
            Some(m) => pm(m@),
            None => e.metadata,
        },
        ..e
    }
}

/// The entities after the updates, applied in order, each to the first
/// entity with its id.
pub open spec fn apply_updates(ents: Seq<EntityModel>, us: Seq<VisualSceneEntityPatch>) -> Seq<
    EntityModel,
>
    decreases us.len(),
{
    if us.len() == 0 {
        ents
    } else {
        let prev = apply_updates(ents, us.drop_last());
        let u = us.last();
        let i = first_index(prev, entity_is(u.entity_id@));
        if i < prev.len() {
            prev.update(i, patched_entity(prev[i], u))
        } else {
            prev
        }
    }
}

/// The variables after each patch variable is set in order.
pub open spec fn set_vars(vars: Seq<EntryModel>, updates: Seq<EntryModel>) -> Seq<EntryModel>
    decreases updates.len(),
{
    if updates.len() == 0 {
        vars
    } else {
        let prev = set_vars(vars, updates.drop_last());
        set_var(prev, updates.last().key, updates.last().value)
    }
}

pub open spec fn patch_counts(p: VisualScenePatch) -> Seq<char> {
    dec(p.updates@.len()) + " entity update(s), "@ + dec(p.variables@.len()) + " variable update(s)"@
}

/// What applying a patch that passed both checks does to the runtime.
pub open spec fn patch_applied(
    old: SceneRuntime,
    new: SceneRuntime,
    p: VisualScenePatch,
    transport: Option<String>,
    source_pane_id: Option<usize>,
) -> bool {
    &&& new == SceneRuntime {
        scene: VisualScene {
            entities: new.scene.entities,
            variables: new.scene.variables,
            ..old.scene
        },
        selected_entity: new.selected_entity,
        last_process_state: new.last_process_state,
        status: new.status,
        last_patch_transport: transport,
        last_patch_source_pane_id: source_pane_id,
        transition_history: new.transition_history,
        generation: next_generation(old.generation),
        ..old
    }
    &&& vm(new.scene.entities@) == apply_updates(vm(old.scene.entities@), p.updates@)
    &&& vm(new.scene.variables@) == set_vars(vm(old.scene.variables@), vm(p.variables@))
    &&& new.selected_entity == match p.selected_entity_id {
        Some(id) => first_index(vm(old.scene.entities@), entity_is(id@)) as usize,
        None => old.selected_entity,
    }
    &&& new.last_process_state == match p.process_state {
        Some(ps) => Some(ps),
        None => old.last_process_state,
    }
    &&& new.status@ == match p.status {
        Some(s) => s@,
        None => "Applied scene patch: "@ + patch_counts(p),
    }
    &&& recorded(old.transition_history@, new.transition_history@, "patch"@, patch_counts(p))
}

/// What `apply_scene_patch_with_source` does: a patch that fails either check
/// is refused with that error and leaves the runtime unchanged.
pub open spec fn patch_contract(
    old: SceneRuntime,
    new: SceneRuntime,
    p: VisualScenePatch,
    transport: Option<String>,
    source_pane_id: Option<usize>,
    r: Result<(), VisualScenePatchError>,
) -> bool {
    match patch_error(p) {
        Some(e) => r == Err::<(), VisualScenePatchError>(e) && new == old,
        None => match scene_reference_error(old.scene, p) {
            Some(e) => r == Err::<(), VisualScenePatchError>(e) && new == old,
            None => r is Ok && patch_applied(old, new, p, transport, source_pane_id),
        },
    }
}

fn patch_entity(e: &mut VisualEntity, u: &VisualSceneEntityPatch)
    ensures
        final(e)@ == patched_entity(old(e)@, *u),
{
    match &u.label {
        Some(l) => e.label = l.clone(),
        None => {},
    }
    match u.position {
        Some(p) => e.position = p,
        None => {},
    }
    match &u.sprite {
        Some(s) => e.sprite = s.clone(),
        None => {},
    }
    match u.visible {
        Some(v) => e.visible = v,
        None => {},
    }
    match &u.state_flags {
        Some(f) => e.state_flags = copy_strings(f),
        None => {},
    }
    match &u.metadata {
        Some(m) => e.metadata = copy_pairs(m),
        None => {},
    }
}

impl SceneRuntime {
    /// Applies a patch with no transport recorded.
    pub fn apply_scene_patch(&mut self, patch: VisualScenePatch) -> (r: Result<(), VisualScenePatchError>)
        ensures
            patch_contract(*old(self), *final(self), patch, None, None, r),
    {
        self.apply_scene_patch_with_source(patch, None, None)
    }

    /// Applies a patch that arrived over `transport` from pane
    /// `source_pane_id` (see `patch_contract`).
    #[verifier::loop_isolation(false)]
    pub fn apply_scene_patch_with_source(
        &mut self,
        patch: VisualScenePatch,
        transport: Option<String>,
        source_pane_id: Option<usize>,
    ) -> (r: Result<(), VisualScenePatchError>)
        ensures
            patch_contract(*old(self), *final(self), patch, transport, source_pane_id, r),
    {
        match patch.validate() {
            Err(e) => {
                return Err(e);
            },
            Ok(()) => {},
        }
        let ghost ents = vm(self.scene.entities@);
        let ghost f = reference_errors(ents, self.scene.width, self.scene.height, patch.updates@);
        let mut i: usize = 0;
        while i < patch.updates.len()
            invariant
                *self == *old(self),
                ents == vm(self.scene.entities@),
                f == reference_errors(ents, self.scene.width, self.scene.height, patch.updates@),
                i <= patch.updates@.len(),
                first_some(f, i as int) is None,
            decreases patch.updates.len() - i,
        {
            let u = &patch.updates[i];
            let err = match find_entity(&self.scene.entities, u.entity_id.as_str()) {
                None => Some(VisualScenePatchError::UnknownEntityId(u.entity_id.clone())),
                Some(_) => match u.position {
                    Some(p) => if p.x >= self.scene.width || p.y >= self.scene.height {
                        Some(
                            VisualScenePatchError::EntityOutOfBounds {
                                entity_id: u.entity_id.clone(),
                                x: p.x,
                                y: p.y,
                            },
                        )
                    } else {
                        None
                    },
                    None => None,
                },
            };
            match err {
                Some(e) => {
                    proof {
                        lemma_first_some_at(f, i as int, patch.updates@.len() as int);
                    }
                    return Err(e);
                },
                None => {},
            }
            i = i + 1;
        }
        let selected: Option<usize> = match &patch.selected_entity_id {
            Some(id) => match find_entity(&self.scene.entities, id.as_str()) {
                Some(k) => Some(k),
                None => {
                    return Err(VisualScenePatchError::UnknownEntityId(id.clone()));
                },
            },
            None => None,
        };
        match &patch.process_state {
            Some(ps) => match &ps.entity_id {
                Some(id) => {
                    if find_entity(&self.scene.entities, id.as_str()).is_none() {
                        return Err(VisualScenePatchError::UnknownProcessEntityId(id.clone()));
                    }
                },
                None => {},
            },
            None => {},
        }
        let update_count = patch.updates.len();
        let variable_count = patch.variables.len();
        let ghost old_vars = vm(self.scene.variables@);
        let mut k: usize = 0;
        while k < patch.updates.len()
            invariant
                k <= patch.updates@.len(),
                vm(self.scene.entities@) == apply_updates(ents, patch.updates@.take(k as int)),
                *self == (SceneRuntime {
                    scene: VisualScene { entities: self.scene.entities, ..old(self).scene },
                    ..*old(self)
                }),
            decreases patch.updates.len() - k,
        {
            proof {
                assert(patch.updates@.take(k + 1).drop_last() =~= patch.updates@.take(k as int));
                assert(patch.updates@.take(k + 1).last() == patch.updates@[k as int]);
            }
            let u = &patch.updates[k];
            match find_entity(&self.scene.entities, u.entity_id.as_str()) {
                Some(j) => {
                    let ghost before = vm(self.scene.entities@);
                    let mut e = self.scene.entities[j].copy();
                    patch_entity(&mut e, u);
                    let ghost ev = e@;
                    self.scene.entities.set(j, e);
                    proof {
                        assert(vm(self.scene.entities@) =~= before.update(j as int, ev));
                    }
                },
                None => {},
            }
            k = k + 1;
        }
        proof {
            assert(patch.updates@.take(patch.updates@.len() as int) =~= patch.updates@);
        }
        let ghost pv = vm(patch.variables@);
        let mut m: usize = 0;
        while m < patch.variables.len()
            invariant
                m <= patch.variables@.len(),
                pv == vm(patch.variables@),
                vm(self.scene.variables@) == set_vars(old_vars, pv.take(m as int)),
                vm(self.scene.entities@) == apply_updates(ents, patch.updates@),
                *self == (SceneRuntime {
                    scene: VisualScene {
                        entities: self.scene.entities,
                        variables: self.scene.variables,
                        ..old(self).scene
                    },
                    ..*old(self)
                }),
            decreases patch.variables.len() - m,
        {
            proof {
                assert(pv.take(m + 1).drop_last() =~= pv.take(m as int));
                assert(pv.take(m + 1).last() == patch.variables@[m as int]@);
            }
            let v = &patch.variables[m];
            set_variable(&mut self.scene.variables, v.key.as_str(), v.value.duplicate());
            m = m + 1;
        }
        proof {
            assert(pv.take(pv.len() as int) =~= pv);
        }
        match selected {
            Some(k) => self.selected_entity = k,
            None => {},
        }
        let VisualScenePatch { status, process_state, .. } = patch;
        match process_state {
            Some(ps) => self.last_process_state = Some(ps),
            None => {},
        }
        let u = usize_text(update_count);
        let v = usize_text(variable_count);
        let mut counts = String::new();
        counts.append(u.as_str());
        counts.append(" entity update(s), ");
        counts.append(v.as_str());
        counts.append(" variable update(s)");
        self.status = match status {
            Some(s) => s,
            None => {
                let mut s = String::from_str("Applied scene patch: ");
                s.append(counts.as_str());
                s
            },
        };
        self.last_patch_transport = transport;
        self.last_patch_source_pane_id = source_pane_id;
        self.record_runtime_event(String::from_str("patch"), counts);
        self.bump_generation();
        Ok(())
    }

    /// A patch from `transport` (and pane `source_pane_id`, if known) could not
    /// be read or applied: the status and an event say so.
    pub fn mark_scene_patch_failed(&mut self, transport: String, source_pane_id: Option<usize>, error: &str)
        ensures
            *final(self) == (SceneRuntime {
                last_patch_transport: Some(transport),
                last_patch_source_pane_id: source_pane_id,
                status: final(self).status,
                transition_history: final(self).transition_history,
                generation: next_generation(old(self).generation),
                ..*old(self)
            }),
            final(self).status@ == match source_pane_id {
                Some(p) => "Scene patch failed from "@ + transport@ + " pane "@ + dec(p as nat) + ": "@
                    + error@,
                None => "Scene patch failed from "@ + transport@ + ": "@ + error@,
            },
            recorded(
                old(self).transition_history@,
                final(self).transition_history@,
                "patch"@,
                transport@ + " failed: "@ + error@,
            ),
    {
        self.last_patch_transport = Some(transport.clone());
        self.last_patch_source_pane_id = source_pane_id;
        let mut s = String::from_str("Scene patch failed from ");
        s.append(transport.as_str());
        match source_pane_id {
            Some(p) => {
                s.append(" pane ");
                let t = usize_text(p);
                s.append(t.as_str());
            },
            None => {},
        }
        s.append(": ");
        s.append(error);
        self.status = s;
        let mut d = transport.clone();
        d.append(" failed: ");
        d.append(error);
        self.record_runtime_event(String::from_str("patch"), d);
        self.bump_generation();
    }
}

/// A patch that fails either check changes nothing.
pub proof fn law_refused_patch_changes_nothing(
    old: SceneRuntime,
    new: SceneRuntime,
    p: VisualScenePatch,
    transport: Option<String>,
    source_pane_id: Option<usize>,
    r: Result<(), VisualScenePatchError>,
)
    requires
        patch_contract(old, new, p, transport, source_pane_id, r),
        r is Err,
    ensures
        new == old,
{
}

/// A patch is refused exactly when it fails a check.
pub proof fn law_patch_accepted_iff_valid(
    old: SceneRuntime,
    new: SceneRuntime,
    p: VisualScenePatch,
    transport: Option<String>,
    source_pane_id: Option<usize>,
    r: Result<(), VisualScenePatchError>,
)
    requires
        patch_contract(old, new, p, transport, source_pane_id, r),
    ensures
        r is Ok <==> (patch_error(p) is None && scene_reference_error(old.scene, p) is None),
{
}

/// The value of variable `key`: the first entry with that key.
pub open spec fn var_lookup(vars: Seq<EntryModel>, key: Seq<char>) -> Option<ValueModel> {
    let i = first_index(vars, key_is(key));
    if i < vars.len() {
        Some(vars[i].value)
    } else {
        None
    }
}

/// The value the last of `updates` with key `key` gives, if any does.
pub open spec fn last_update(updates: Seq<EntryModel>, key: Seq<char>) -> Option<ValueModel>
    decreases updates.len(),
{
    if updates.len() == 0 {
        None
    } else if updates.last().key == key {
        Some(updates.last().value)
    } else {
        last_update(updates.drop_last(), key)
    }
}

proof fn lemma_first_from_same<T>(a: Seq<T>, b: Seq<T>, p: spec_fn(T) -> bool, j: int)
    requires
        a.len() == b.len(),
        0 <= j <= a.len(),
        forall|k: int| 0 <= k < a.len() ==> p(#[trigger] a[k]) == p(b[k]),
    ensures
        first_from(a, p, j) == first_from(b, p, j),
    decreases a.len() - j,
{
    if j < a.len() {
        lemma_first_from_same(a, b, p, j + 1);
    }
}

pub proof fn lemma_set_var_lookup(vars: Seq<EntryModel>, key: Seq<char>, value: ValueModel, other: Seq<char>)
    ensures
        var_lookup(set_var(vars, key, value), other) == if other == key {
            Some(value)
        } else {
            var_lookup(vars, other)
        },
{
    let i = first_index(vars, key_is(key));
    lemma_first_index(vars, key_is(key));
    let nv = set_var(vars, key, value);
    lemma_first_index(vars, key_is(other));
    lemma_first_index(nv, key_is(other));
    if i < vars.len() {
        assert forall|k: int| 0 <= k < vars.len() implies key_is(other)(#[trigger] vars[k]) == key_is(other)(nv[k]) by {}
        lemma_first_from_same(vars, nv, key_is(other), 0);
        if other == key {
            lemma_first_from_is(nv, key_is(other), 0, i);
        }
    } else {
        let n = vars.len() as int;
        if other == key {
            assert forall|k: int| 0 <= k < n implies !key_is(other)(#[trigger] nv[k]) by {
                assert(nv[k] == vars[k]);
            }
            lemma_first_from_is(nv, key_is(other), 0, n);
        } else {
            let j = first_index(vars, key_is(other));
            if j < n {
                assert forall|k: int| 0 <= k < j implies !key_is(other)(#[trigger] nv[k]) by {
                    assert(nv[k] == vars[k]);
                }
                lemma_first_from_is(nv, key_is(other), 0, j);
            } else {
                assert forall|k: int| 0 <= k < nv.len() implies !key_is(other)(#[trigger] nv[k]) by {
                    if k < n {
                        assert(nv[k] == vars[k]);
                    }
                }
                lemma_first_from_none(nv, key_is(other), 0);
            }
        }
    }
}

proof fn lemma_set_vars_lookup(vars: Seq<EntryModel>, updates: Seq<EntryModel>, key: Seq<char>)
    ensures
        var_lookup(set_vars(vars, updates), key) == match last_update(updates, key) {
            Some(v) => Some(v),
            None => var_lookup(vars, key),
        },
    decreases updates.len(),
{
    if updates.len() > 0 {
        lemma_set_vars_lookup(vars, updates.drop_last(), key);
        lemma_set_var_lookup(set_vars(vars, updates.drop_last()), updates.last().key, updates.last().value, key);
    }
}

/// An applied patch sets every variable it names to the value its last
/// entry for that name gives, leaves every other variable as it was,
/// records where the patch came from, and shows its status (or a count of
/// its updates).
pub proof fn law_applied_patch_sets_its_variables(
    old: SceneRuntime,
    new: SceneRuntime,
    p: VisualScenePatch,
    transport: Option<String>,
    source_pane_id: Option<usize>,
    r: Result<(), VisualScenePatchError>,
    key: Seq<char>,
)
    requires
        patch_contract(old, new, p, transport, source_pane_id, r),
        r is Ok,
    ensures
        var_lookup(vm(new.scene.variables@), key) == match last_update(vm(p.variables@), key) {
            Some(v) => Some(v),
            None => var_lookup(vm(old.scene.variables@), key),
        },
        new.last_patch_transport == transport,
        new.last_patch_source_pane_id == source_pane_id,
        new.generation == next_generation(old.generation),
        new.status@ == match p.status {
            Some(s) => s@,
            None => "Applied scene patch: "@ + patch_counts(p),
        },
{
    lemma_set_vars_lookup(vm(old.scene.variables@), vm(p.variables@), key);
}

/// Applying a patch without a source is applying it from no transport and
/// no pane: two equal runtimes given the same patch, one each way, end
/// equal with the same outcome, and an applied patch records no source.
pub proof fn law_patch_without_source_is_patch_from_nowhere(
    start: SceneRuntime,
    a: SceneRuntime,
    b: SceneRuntime,
    p: VisualScenePatch,
    ra: Result<(), VisualScenePatchError>,
    rb: Result<(), VisualScenePatchError>,
)
    requires
        patch_contract(start, a, p, None, None, ra),
        patch_contract(start, b, p, None, None, rb),
    ensures
        ra == rb,
        ra is Ok ==> a.last_patch_transport is None && b.last_patch_source_pane_id is None,
        vm(a.scene.variables@) == vm(b.scene.variables@),
        vm(a.scene.entities@) == vm(b.scene.entities@),
        a.selected_entity == b.selected_entity,
        a.status@ == b.status@,
        a.generation == b.generation,
        a.last_patch_transport == b.last_patch_transport,
        a.last_patch_source_pane_id == b.last_patch_source_pane_id,
{
    if ra is Ok && rb is Ok {
        let (x, y) = (ra->Ok_0, rb->Ok_0);
        assert(x == y);
    }
}

/// A patch that fails its own checks is refused with that check's error,
/// and a patch that updates an entity the scene lacks is refused; either
/// way the runtime is left as it was.
pub proof fn law_patch_refusals(
    old: SceneRuntime,
    new: SceneRuntime,
    p: VisualScenePatch,
    transport: Option<String>,
    source_pane_id: Option<usize>,
    r: Result<(), VisualScenePatchError>,
    k: int,
)
    requires
        patch_contract(old, new, p, transport, source_pane_id, r),
    ensures
        patch_error(p) matches Some(e) ==> r == Err::<(), VisualScenePatchError>(e) && new == old,
        0 <= k < p.updates@.len() && !has_id(vm(old.scene.entities@), p.updates@[k].entity_id@) ==> r is Err
            && new == old,
{
    if 0 <= k < p.updates@.len() && !has_id(vm(old.scene.entities@), p.updates@[k].entity_id@) && patch_error(p) is None {
        let f = reference_errors(vm(old.scene.entities@), old.scene.width, old.scene.height, p.updates@);
        let n = p.updates@.len() as int;
        assert(f(k) is Some);
        if first_some(f, k) is None {
            lemma_first_some_at(f, k, n);
        } else {
            lemma_first_some_prefix(f, k, n);
        }
    }
}

proof fn lemma_first_some_prefix<E>(f: spec_fn(int) -> Option<E>, k: int, n: int)
    requires
        0 <= k <= n,
        first_some(f, k) is Some,
    ensures
        first_some(f, n) is Some,
    decreases n - k,
{
    if n > k {
        lemma_first_some_prefix(f, k, n - 1);
    }
}

/// A patch that passes its own checks has the supported version, changes
/// something, names each variable once and with a key, names every updated
/// entity, and fills in every label, sprite, metadata key, selected entity
/// and process field it gives.
pub proof fn law_valid_patch_is_well_formed(p: VisualScenePatch)
    requires
        patch_error(p) is None,
    ensures
        p.scene_patch_version == SCENE_PATCH_VERSION,
        !(p.updates@.len() == 0 && p.variables@.len() == 0 && p.process_state is None && p.status is None),
        forall|i: int| 0 <= i < p.variables@.len() ==> !blank((#[trigger] p.variables@[i]).key@),
        forall|i: int, j: int|
            0 <= i < j < p.variables@.len() ==> #[trigger] p.variables@[i].key@ != #[trigger] p.variables@[j].key@,
        forall|i: int|
            0 <= i < p.updates@.len() ==> {
                let u = #[trigger] p.updates@[i];
                &&& !blank(u.entity_id@)
                &&& !blank_opt(u.label)
                &&& !blank_opt(u.sprite)
                &&& !(u.metadata matches Some(m) && any_blank_key(m@))
            },
        !blank_opt(p.selected_entity_id),
        p.process_state matches Some(ps) ==> !blank_opt(ps.entity_id) && !blank_opt(ps.command) && !blank_opt(
            ps.message,
        ),
{
    let f = crate::validation::entry_errors(p.variables@);
    crate::scene_errors::lemma_first_some_none(f, p.variables@.len() as int);
    assert forall|i: int| 0 <= i < p.variables@.len() implies !blank((#[trigger] p.variables@[i]).key@) by {
        assert(f(i) is None);
    }
    assert forall|i: int, j: int|
        0 <= i < j < p.variables@.len() implies #[trigger] p.variables@[i].key@ != #[trigger] p.variables@[j].key@ by {
        assert(f(j) is None);
    }
    crate::scene_errors::lemma_first_some_none(update_errors(p.updates@), p.updates@.len() as int);
    assert forall|i: int| 0 <= i < p.updates@.len() implies {
        let u = #[trigger] p.updates@[i];
        &&& !blank(u.entity_id@)
        &&& !blank_opt(u.label)
        &&& !blank_opt(u.sprite)
        &&& !(u.metadata matches Some(m) && any_blank_key(m@))
    } by {
        assert(update_errors(p.updates@)(i) is None);
    }
}

/// What the last of `updates` for entity `id` that sets a field gives for
/// it (`field` reads the field an update sets), if any sets it.
pub open spec fn last_set<T>(
    updates: Seq<VisualSceneEntityPatch>,
    id: Seq<char>,
    field: spec_fn(VisualSceneEntityPatch) -> Option<T>,
) -> Option<T>
    decreases updates.len(),
{
    if updates.len() == 0 {
        None
    } else if updates.last().entity_id@ == id && field(updates.last()) is Some {
        field(updates.last())
    } else {
        last_set(updates.drop_last(), id, field)
    }
}

pub open spec fn set_visible() -> spec_fn(VisualSceneEntityPatch) -> Option<bool> {
    |u: VisualSceneEntityPatch| u.visible
}

pub open spec fn set_position() -> spec_fn(VisualSceneEntityPatch) -> Option<VisualPosition> {
    |u: VisualSceneEntityPatch| u.position
}

pub open spec fn set_label() -> spec_fn(VisualSceneEntityPatch) -> Option<Seq<char>> {
    |u: VisualSceneEntityPatch| match u.label {
        Some(l) => Some(l@),
        None => None,
    }
}

pub open spec fn set_sprite() -> spec_fn(VisualSceneEntityPatch) -> Option<Seq<char>> {
    |u: VisualSceneEntityPatch| match u.sprite {
        Some(l) => Some(l@),
        None => None,
    }
}

pub open spec fn or_else<T>(o: Option<T>, d: T) -> T {
    match o {
        Some(v) => v,
        None => d,
    }
}

proof fn lemma_apply_updates_fields(ents: Seq<EntityModel>, us: Seq<VisualSceneEntityPatch>, id: Seq<char>)
    ensures
        apply_updates(ents, us).len() == ents.len(),
        forall|k: int| 0 <= k < ents.len() ==> (#[trigger] apply_updates(ents, us)[k]).id == ents[k].id,
        ({
            let j = first_index(ents, entity_is(id));
            let after = apply_updates(ents, us);
            0 <= j < ents.len() ==> {
                &&& after[j].visible == or_else(last_set(us, id, set_visible()), ents[j].visible)
                &&& after[j].position == or_else(last_set(us, id, set_position()), ents[j].position)
                &&& after[j].label == or_else(last_set(us, id, set_label()), ents[j].label)
                &&& after[j].sprite == or_else(last_set(us, id, set_sprite()), ents[j].sprite)
            }
        }),
    decreases us.len(),
{
    if us.len() > 0 {
        let prev = apply_updates(ents, us.drop_last());
        lemma_apply_updates_fields(ents, us.drop_last(), id);
        let u = us.last();
        lemma_first_index(prev, entity_is(u.entity_id@));
        let i = first_index(prev, entity_is(u.entity_id@));
        let j = first_index(ents, entity_is(id));
        lemma_first_index(ents, entity_is(id));
        assert forall|k: int| 0 <= k < ents.len() implies entity_is(id)(#[trigger] ents[k]) == entity_is(id)(prev[k]) by {}
        lemma_first_from_same(ents, prev, entity_is(id), 0);
        assert(first_index(prev, entity_is(id)) == j);
        if i < prev.len() && 0 <= j < ents.len() && i != j {
            if u.entity_id@ == id {
                assert(prev[i].id == id);
                assert(false);
            }
        }
    }
}

/// An accepted patch gives each entity it updates the visibility, position,
/// label and sprite of the last update for that entity that sets them, and
/// leaves those it does not set as they were.
pub proof fn law_accepted_patch_sets_entity_fields(
    old: SceneRuntime,
    new: SceneRuntime,
    p: VisualScenePatch,
    transport: Option<String>,
    source_pane_id: Option<usize>,
    r: Result<(), VisualScenePatchError>,
    id: Seq<char>,
)
    requires
        patch_contract(old, new, p, transport, source_pane_id, r),
        r is Ok,
    ensures
        ({
            let before = vm(old.scene.entities@);
            let after = vm(new.scene.entities@);
            let j = first_index(before, entity_is(id));
            0 <= j < before.len() ==> {
                &&& after.len() == before.len()
                &&& after[j].id == id
                &&& after[j].visible == or_else(last_set(p.updates@, id, set_visible()), before[j].visible)
                &&& after[j].position == or_else(last_set(p.updates@, id, set_position()), before[j].position)
                &&& after[j].label == or_else(last_set(p.updates@, id, set_label()), before[j].label)
                &&& after[j].sprite == or_else(last_set(p.updates@, id, set_sprite()), before[j].sprite)
            }
        }),
{
    let before = vm(old.scene.entities@);
    lemma_apply_updates_fields(before, p.updates@, id);
    lemma_first_index(before, entity_is(id));
}

} // verus!
