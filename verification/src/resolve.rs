//! Resolving a choice's state operations: each operation in order against a
//! working copy of the scene state, which replaces the scene's only when
//! every operation succeeds and the result is still well formed.

use vstd::prelude::*;

use crate::conditions::{
    all_conditions_hold, conditions_match, find_item, find_quest, find_stat, find_variable,
    first_from, first_index, item_is, key_is, quest_is, stat_is,
};
use crate::model::{
    copy_list, copy_pairs, copy_strings, pm, vm, CopyView, EntityModel, EntryModel, ItemModel,
    LayerModel, LineModel, QuestModel, RelationshipModel, RpgModel, StatModel, TransitionModel,
    ValueModel,
};
use crate::scene_errors::VisualSceneError;
use crate::scene_model::{
    VisualDialogueLine, VisualEntity, VisualInventoryItem, VisualRelationship, VisualRpgState,
    VisualStat, VisualStateEntry, VisualStateOperation, VisualStateValue,
};
use crate::schema::{VisualLayerState, VisualLayerTransition};
use crate::text::{str_equal, trim, trim_seq};
use crate::validation::{
    duplicate_relationship_key, relationship_key_seq, rpg_error, same_scene_error,
    state_entries_error, validate_rpg_state, validate_state_entries,
};
use crate::scene_check::{map_entry_error, operations_error, validate_state_operations};
use crate::scene_validate::{layers_error, validate_layers};
use crate::scene_errors::VisualStateEntryError;
use crate::scene_model::VisualScene;
use crate::runtime::SceneRuntime;

verus! {

/// The parts of the scene state that operations change.
pub struct SceneStateWork {
    pub variables: Vec<VisualStateEntry>,
    pub layers: Vec<VisualLayerState>,
    pub rpg: VisualRpgState,
    pub entities: Vec<VisualEntity>,
    pub selected_entity: usize,
    pub dialogue_index: usize,
    pub dialogue_history: Vec<VisualDialogueLine>,
}

pub ghost struct WorkModel {
    pub vars: Seq<EntryModel>,
    pub layers: Seq<LayerModel>,
    pub rpg: RpgModel,
    pub entities: Seq<EntityModel>,
    pub selected: usize,
    pub dialogue_index: usize,
    pub history: Seq<LineModel>,
}

impl View for SceneStateWork {
    type V = WorkModel;

    open spec fn view(&self) -> WorkModel {
        WorkModel {
            vars: vm(self.variables@),
            layers: vm(self.layers@),
            rpg: self.rpg@,
            entities: vm(self.entities@),
            selected: self.selected_entity,
            dialogue_index: self.dialogue_index,
            history: vm(self.dialogue_history@),
        }
    }
}

/// Why an operation could not be applied, with what it named.
pub ghost enum StepFailure {
    Entity(Seq<char>),
    Layer(Seq<char>),
    Transition(Seq<char>, Seq<char>),
    Guard(Seq<char>, Seq<char>),
    Item(Seq<char>),
    Stat(Seq<char>),
    NonNumeric(Seq<char>),
    Quest(Seq<char>),
    Relationship(Seq<char>),
}

/// The error reported for a failure of the action labelled `label`.
pub open spec fn failure_matches(e: VisualSceneError, label: Seq<char>, f: StepFailure) -> bool {
    match f {
        StepFailure::Entity(id) => e matches VisualSceneError::UnknownEntity { label: l, entity_id }
            && l@ == label && entity_id@ == id,
        StepFailure::Layer(id) => e matches VisualSceneError::UnknownLayer { label: l, layer_id }
            && l@ == label && layer_id@ == id,
        StepFailure::Transition(id, input) => e matches VisualSceneError::UnknownLayerTransition {
            label: l,
            layer_id,
            input: i,
        } && l@ == label && layer_id@ == id && i@ == input,
        StepFailure::Guard(id, input) => e matches VisualSceneError::LayerTransitionGuardFailed {
            label: l,
            layer_id,
            input: i,
        } && l@ == label && layer_id@ == id && i@ == input,
        StepFailure::Item(id) => e matches VisualSceneError::UnknownInventoryItem {
            label: l,
            item_id,
        } && l@ == label && item_id@ == id,
        StepFailure::Stat(key) => e matches VisualSceneError::UnknownStat { label: l, key: k }
            && l@ == label && k@ == key,
        StepFailure::NonNumeric(key) => e matches VisualSceneError::NonNumericStat {
            label: l,
            key: k,
        } && l@ == label && k@ == key,
        StepFailure::Quest(id) => e matches VisualSceneError::UnknownQuest { label: l, quest_id }
            && l@ == label && quest_id@ == id,
        StepFailure::Relationship(key) => e matches VisualSceneError::UnknownRelationship {
            label: l,
            relationship,
        } && l@ == label && relationship@ == key,
    }
}

pub open spec fn layer_is(id: Seq<char>) -> spec_fn(LayerModel) -> bool {
    |l: LayerModel| l.layer_id == id
}

pub open spec fn entity_is(id: Seq<char>) -> spec_fn(EntityModel) -> bool {
    |e: EntityModel| e.id == id
}

pub open spec fn transition_is(input: Seq<char>) -> spec_fn(TransitionModel) -> bool {
    |t: TransitionModel| t.input == input
}

pub open spec fn relationship_is(s: Seq<char>, t: Seq<char>, k: Seq<char>) -> spec_fn(
    RelationshipModel,
) -> bool {
    |r: RelationshipModel| r.source_id == s && r.target_id == t && r.kind == k
}

pub open spec fn key_is_not(key: Seq<char>) -> spec_fn(EntryModel) -> bool {
    |e: EntryModel| e.key != key
}

pub open spec fn in_stock() -> spec_fn(ItemModel) -> bool {
    |i: ItemModel| i.count > 0
}

/// The variable `key` set to `value`: in place when present, else appended.
pub open spec fn set_var(vars: Seq<EntryModel>, key: Seq<char>, value: ValueModel) -> Seq<
    EntryModel,
> {
    let i = first_index(vars, key_is(key));
    if i < vars.len() {
        vars.update(i, EntryModel { value, ..vars[i] })
    } else {
        vars.push(EntryModel { key, value })
    }
}

/// The variable `key` increased by `amount` (wrapping); a variable that is
/// missing or not a number becomes `amount`.
pub open spec fn increment_var(vars: Seq<EntryModel>, key: Seq<char>, amount: i64) -> Seq<
    EntryModel,
> {
    let i = first_index(vars, key_is(key));
    if i < vars.len() {
        let v = match vars[i].value {
            ValueModel::Number(n) => ValueModel::Number(n.wrapping_add(amount)),
            _ => ValueModel::Number(amount),
        };
        vars.update(i, EntryModel { value: v, ..vars[i] })
    } else {
        vars.push(EntryModel { key, value: ValueModel::Number(amount) })
    }
}

/// The layer `id` put in state `state` (trimmed); nothing when it is missing.
pub open spec fn set_layer_state(layers: Seq<LayerModel>, id: Seq<char>, state: Seq<char>) -> Seq<
    LayerModel,
> {
    let i = first_index(layers, layer_is(id));
    if i < layers.len() {
        layers.update(i, LayerModel { state: trim_seq(state), ..layers[i] })
    } else {
        layers
    }
}

pub open spec fn with_rpg(w: WorkModel, rpg: RpgModel) -> WorkModel {
    WorkModel { rpg, ..w }
}

/// What one operation does to the working state.
pub open spec fn op_step(lines: Seq<LineModel>, w: WorkModel, op: VisualStateOperation) -> Result<
    WorkModel,
    StepFailure,
> {
    match op {
        VisualStateOperation::SetVariable { key, value } => Ok(
            WorkModel { vars: set_var(w.vars, key@, value@), ..w },
        ),
        VisualStateOperation::SetLayerState { layer_id, state } => Ok(
            WorkModel { layers: set_layer_state(w.layers, layer_id@, state@), ..w },
        ),
        VisualStateOperation::SelectEntity { entity_id } => {
            let i = first_index(w.entities, entity_is(entity_id@));
            if i < w.entities.len() {
                Ok(WorkModel { selected: i as usize, ..w })
            } else {
                Err(StepFailure::Entity(entity_id@))
            }
        },
        VisualStateOperation::SetEntityFlags { entity_id, flags } => {
            let i = first_index(w.entities, entity_is(entity_id@));
            if i < w.entities.len() {
                Ok(
                    WorkModel {
                        entities: w.entities.update(
                            i,
                            EntityModel { state_flags: vm(flags@), ..w.entities[i] },
                        ),
                        ..w
                    },
                )
            } else {
                Err(StepFailure::Entity(entity_id@))
            }
        },
        VisualStateOperation::SetEntityMetadata { entity_id, metadata } => {
            let i = first_index(w.entities, entity_is(entity_id@));
            if i < w.entities.len() {
                Ok(
                    WorkModel {
                        entities: w.entities.update(
                            i,
                            EntityModel { metadata: pm(metadata@), ..w.entities[i] },
                        ),
                        ..w
                    },
                )
            } else {
                Err(StepFailure::Entity(entity_id@))
            }
        },
        VisualStateOperation::SetEntityVisibility { entity_id, visible } => {
            let i = first_index(w.entities, entity_is(entity_id@));
            if i < w.entities.len() {
                Ok(
                    WorkModel {
                        entities: w.entities.update(i, EntityModel { visible, ..w.entities[i] }),
                        ..w
                    },
                )
            } else {
                Err(StepFailure::Entity(entity_id@))
            }
        },
        VisualStateOperation::AdvanceDialogueAndSetLayer { target, layer_id, state } => Ok(
            WorkModel {
                dialogue_index: target,
                history: if target < lines.len() {
                    w.history.push(lines[target as int])
                } else {
                    w.history
                },
                layers: set_layer_state(w.layers, layer_id@, state@),
                ..w
            },
        ),
        VisualStateOperation::TriggerLayerTransition { layer_id, input } => {
            let i = first_index(w.layers, layer_is(layer_id@));
            if i >= w.layers.len() {
                Err(StepFailure::Layer(layer_id@))
            } else {
                let ts = w.layers[i].transitions;
                let j = first_index(ts, transition_is(input@));
                if j >= ts.len() {
                    Err(StepFailure::Transition(layer_id@, input@))
                } else if !all_conditions_hold(ts[j].conditions, w.vars, w.rpg, None, None) {
                    Err(StepFailure::Guard(layer_id@, input@))
                } else {
                    Ok(
                        WorkModel {
                            layers: w.layers.update(
                                i,
                                LayerModel { state: trim_seq(ts[j].target_state), ..w.layers[i] },
                            ),
                            ..w
                        },
                    )
                }
            }
        },
        VisualStateOperation::IncrementVariable { key, amount } => Ok(
            WorkModel { vars: increment_var(w.vars, key@, amount), ..w },
        ),
        VisualStateOperation::ClearVariable { key } => Ok(
            WorkModel { vars: w.vars.filter(key_is_not(key@)), ..w },
        ),
        VisualStateOperation::AddInventory { item } => {
            let inv = w.rpg.inventory;
            let i = first_index(inv, item_is(item.item_id@));
            let inv2 = if i < inv.len() {
                inv.update(
                    i,
                    ItemModel { count: inv[i].count.saturating_add(item.count), ..inv[i] },
                )
            } else {
                inv.push(item@)
            };
            Ok(with_rpg(w, RpgModel { inventory: inv2, ..w.rpg }))
        },
        VisualStateOperation::RemoveInventory { item_id, count } => {
            let inv = w.rpg.inventory;
            let i = first_index(inv, item_is(item_id@));
            if i >= inv.len() {
                Err(StepFailure::Item(item_id@))
            } else {
                let inv2 = inv.update(
                    i,
                    ItemModel { count: inv[i].count.saturating_sub(count), ..inv[i] },
                );
                Ok(with_rpg(w, RpgModel { inventory: inv2.filter(in_stock()), ..w.rpg }))
            }
        },
        VisualStateOperation::SetStat { owner_id, key, value } => {
            let st = w.rpg.stats;
            let owner = match owner_id {
                Some(o) => Some(o@),
                None => None,
            };
            let i = first_index(st, stat_is(owner, key@));
            let st2 = if i < st.len() {
                st.update(i, StatModel { value: value@, ..st[i] })
            } else {
                st.push(StatModel { owner_id: owner, key: key@, value: value@ })
            };
            Ok(with_rpg(w, RpgModel { stats: st2, ..w.rpg }))
        },
        VisualStateOperation::AdjustStat { owner_id, key, amount } => {
            let st = w.rpg.stats;
            let owner = match owner_id {
                Some(o) => Some(o@),
                None => None,
            };
            let i = first_index(st, stat_is(owner, key@));
            if i >= st.len() {
                Err(StepFailure::Stat(key@))
            } else {
                match st[i].value {
                    ValueModel::Number(n) => Ok(
                        with_rpg(
                            w,
                            RpgModel {
                                stats: st.update(
                                    i,
                                    StatModel {
                                        value: ValueModel::Number(n.wrapping_add(amount)),
                                        ..st[i]
                                    },
                                ),
                                ..w.rpg
                            },
                        ),
                    ),
                    _ => Err(StepFailure::NonNumeric(key@)),
                }
            }
        },
        VisualStateOperation::AdvanceQuest { quest_id, stage } => {
            let qs = w.rpg.quests;
            let i = first_index(qs, quest_is(quest_id@));
            if i >= qs.len() {
                Err(StepFailure::Quest(quest_id@))
            } else {
                Ok(
                    with_rpg(
                        w,
                        RpgModel { quests: qs.update(i, QuestModel { stage, ..qs[i] }), ..w.rpg },
                    ),
                )
            }
        },
        VisualStateOperation::CompleteQuest { quest_id } => {
            let qs = w.rpg.quests;
            let i = first_index(qs, quest_is(quest_id@));
            if i >= qs.len() {
                Err(StepFailure::Quest(quest_id@))
            } else {
                Ok(
                    with_rpg(
                        w,
                        RpgModel {
                            quests: qs.update(i, QuestModel { completed: true, ..qs[i] }),
                            ..w.rpg
                        },
                    ),
                )
            }
        },
        VisualStateOperation::AppendQuestJournal { quest_id, text } => {
            let qs = w.rpg.quests;
            let i = first_index(qs, quest_is(quest_id@));
            if i >= qs.len() {
                Err(StepFailure::Quest(quest_id@))
            } else {
                let j = qs[i].journal;
                let j2 = if j.len() > 0 { j.push('\n') + text@ } else { j + text@ };
                Ok(
                    with_rpg(
                        w,
                        RpgModel { quests: qs.update(i, QuestModel { journal: j2, ..qs[i] }), ..w.rpg },
                    ),
                )
            }
        },
        VisualStateOperation::AdjustRelationship { source_id, target_id, kind, amount } => {
            let rs = w.rpg.relationships;
            let i = first_index(rs, relationship_is(source_id@, target_id@, kind@));
            if i >= rs.len() {
                Err(StepFailure::Relationship(relationship_key_seq(source_id@, target_id@, kind@)))
            } else {
                Ok(
                    with_rpg(
                        w,
                        RpgModel {
                            relationships: rs.update(
                                i,
                                RelationshipModel { value: rs[i].value.wrapping_add(amount), ..rs[i] },
                            ),
                            ..w.rpg
                        },
                    ),
                )
            }
        },
    }
}

/// The operations applied in order; the first failure stops the run.
pub open spec fn run_ops(lines: Seq<LineModel>, w: WorkModel, ops: Seq<VisualStateOperation>) -> Result<
    WorkModel,
    StepFailure,
>
    decreases ops.len(),
{
    if ops.len() == 0 {
        Ok(w)
    } else {
        match run_ops(lines, w, ops.drop_last()) {
            Ok(w1) => op_step(lines, w1, ops.last()),
            Err(f) => Err(f),
        }
    }
}

/// A failure stays the outcome however many operations follow.
pub proof fn lemma_run_failure_sticks(
    lines: Seq<LineModel>,
    w: WorkModel,
    ops: Seq<VisualStateOperation>,
    i: int,
)
    requires
        0 <= i <= ops.len(),
        run_ops(lines, w, ops.take(i)) is Err,
    ensures
        run_ops(lines, w, ops) == run_ops(lines, w, ops.take(i)),
    decreases ops.len() - i,
{
    if i < ops.len() {
        assert(ops.take(i + 1).drop_last() =~= ops.take(i));
        lemma_run_failure_sticks(lines, w, ops, i + 1);
    } else {
        assert(ops.take(i) =~= ops);
    }
}

// ---------------------------------------------------------------- searches

pub fn find_layer(layers: &Vec<VisualLayerState>, id: &str) -> (r: Option<usize>)
    ensures
        r matches Some(i) ==> i == first_index(vm(layers@), layer_is(id@)) && i < layers@.len(),
        r is None ==> first_index(vm(layers@), layer_is(id@)) == layers@.len(),
{
    let ghost m = vm(layers@);
    let mut i: usize = 0;
    while i < layers.len()
        invariant
            i <= layers@.len(),
            m == vm(layers@),
            first_from(m, layer_is(id@), i as int) == first_index(m, layer_is(id@)),
        decreases layers.len() - i,
    {
        if str_equal(layers[i].layer_id.as_str(), id) {
            return Some(i);
        }
        i = i + 1;
    }
    None
}

pub fn find_entity(entities: &Vec<VisualEntity>, id: &str) -> (r: Option<usize>)
    ensures
        r matches Some(i) ==> i == first_index(vm(entities@), entity_is(id@)) && i
            < entities@.len(),
        r is None ==> first_index(vm(entities@), entity_is(id@)) == entities@.len(),
{
    let ghost m = vm(entities@);
    let mut i: usize = 0;
    while i < entities.len()
        invariant
            i <= entities@.len(),
            m == vm(entities@),
            first_from(m, entity_is(id@), i as int) == first_index(m, entity_is(id@)),
        decreases entities.len() - i,
    {
        if str_equal(entities[i].id.as_str(), id) {
            return Some(i);
        }
        i = i + 1;
    }
    None
}

fn find_transition(ts: &Vec<VisualLayerTransition>, input: &str) -> (r: Option<usize>)
    ensures
        r matches Some(i) ==> i == first_index(vm(ts@), transition_is(input@)) && i < ts@.len(),
        r is None ==> first_index(vm(ts@), transition_is(input@)) == ts@.len(),
{
    let ghost m = vm(ts@);
    let mut i: usize = 0;
    while i < ts.len()
        invariant
            i <= ts@.len(),
            m == vm(ts@),
            first_from(m, transition_is(input@), i as int) == first_index(m, transition_is(input@)),
        decreases ts.len() - i,
    {
        if str_equal(ts[i].input.as_str(), input) {
            return Some(i);
        }
        i = i + 1;
    }
    None
}

fn find_relationship(rels: &Vec<VisualRelationship>, s: &str, t: &str, k: &str) -> (r: Option<
    usize,
>)
    ensures
        r matches Some(i) ==> i == first_index(vm(rels@), relationship_is(s@, t@, k@)) && i
            < rels@.len(),
        r is None ==> first_index(vm(rels@), relationship_is(s@, t@, k@)) == rels@.len(),
{
    let ghost m = vm(rels@);
    let ghost p = relationship_is(s@, t@, k@);
    let mut i: usize = 0;
    while i < rels.len()
        invariant
            i <= rels@.len(),
            m == vm(rels@),
            p == relationship_is(s@, t@, k@),
            first_from(m, p, i as int) == first_index(m, p),
        decreases rels.len() - i,
    {
        if str_equal(rels[i].source_id.as_str(), s) && str_equal(rels[i].target_id.as_str(), t)
            && str_equal(rels[i].kind.as_str(), k) {
            return Some(i);
        }
        i = i + 1;
    }
    None
}

// ---------------------------------------------------------------- variables

/// Sets variable `key` to `value`, in place when present, else appended.
pub fn set_variable(variables: &mut Vec<VisualStateEntry>, key: &str, value: VisualStateValue)
    ensures
        vm(final(variables)@) == set_var(vm(old(variables)@), key@, value@),
{
    match find_variable(variables.as_slice(), key) {
        Some(i) => {
            let ghost before = vm(variables@);
            variables[i].value = value;
            proof {
                assert(vm(variables@) =~= before.update(
                    i as int,
                    EntryModel { value: value@, ..before[i as int] },
                ));
            }
        },
        None => {
            let ghost before = vm(variables@);
            variables.push(VisualStateEntry { key: String::from_str(key), value });
            proof {
                assert(vm(variables@) =~= before.push(EntryModel { key: key@, value: value@ }));
            }
        },
    }
}

/// Adds `amount` to variable `key` (wrapping); a missing or non-numeric
/// variable becomes `amount`.
pub fn increment_variable(variables: &mut Vec<VisualStateEntry>, key: &str, amount: i64)
    ensures
        vm(final(variables)@) == increment_var(vm(old(variables)@), key@, amount),
{
    match find_variable(variables.as_slice(), key) {
        Some(i) => {
            let ghost before = vm(variables@);
            let v = match variables[i].value {
                VisualStateValue::Number(n) => VisualStateValue::Number(n.wrapping_add(amount)),
                _ => VisualStateValue::Number(amount),
            };
            variables[i].value = v;
            proof {
                assert(vm(variables@) =~= before.update(
                    i as int,
                    EntryModel { value: v@, ..before[i as int] },
                ));
            }
        },
        None => {
            let ghost before = vm(variables@);
            variables.push(
                VisualStateEntry { key: String::from_str(key), value: VisualStateValue::Number(amount) },
            );
            proof {
                assert(vm(variables@) =~= before.push(
                    EntryModel { key: key@, value: ValueModel::Number(amount) },
                ));
            }
        },
    }
}

/// Drops every variable named `key`.
fn clear_variable(variables: &Vec<VisualStateEntry>, key: &str) -> (r: Vec<VisualStateEntry>)
    ensures
        vm(r@) == vm(variables@).filter(key_is_not(key@)),
{
    let ghost m = vm(variables@);
    let ghost p = key_is_not(key@);
    let mut out: Vec<VisualStateEntry> = Vec::new();
    let mut i: usize = 0;
    while i < variables.len()
        invariant
            i <= variables@.len(),
            m == vm(variables@),
            p == key_is_not(key@),
            vm(out@) == m.take(i as int).filter(p),
        decreases variables.len() - i,
    {
        proof {
            reveal(Seq::filter);
            assert(m.take(i + 1).drop_last() =~= m.take(i as int));
            assert(m.take(i + 1).last() == variables@[i as int]@);
        }
        if !str_equal(variables[i].key.as_str(), key) {
            let ghost before = vm(out@);
            out.push(variables[i].copy());
            proof {
                assert(vm(out@) =~= before.push(variables@[i as int]@));
            }
        }
        i = i + 1;
    }
    proof {
        assert(m.take(m.len() as int) =~= m);
    }
    out
}

/// Keeps the inventory items still in stock.
fn items_in_stock(items: &Vec<VisualInventoryItem>) -> (r: Vec<VisualInventoryItem>)
    ensures
        vm(r@) == vm(items@).filter(in_stock()),
{
    let ghost m = vm(items@);
    let ghost p = in_stock();
    let mut out: Vec<VisualInventoryItem> = Vec::new();
    let mut i: usize = 0;
    while i < items.len()
        invariant
            i <= items@.len(),
            m == vm(items@),
            p == in_stock(),
            vm(out@) == m.take(i as int).filter(p),
        decreases items.len() - i,
    {
        proof {
            reveal(Seq::filter);
            assert(m.take(i + 1).drop_last() =~= m.take(i as int));
            assert(m.take(i + 1).last() == items@[i as int]@);
        }
        if items[i].count > 0 {
            let ghost before = vm(out@);
            out.push(items[i].copy());
            proof {
                assert(vm(out@) =~= before.push(items@[i as int]@));
            }
        }
        i = i + 1;
    }
    proof {
        assert(m.take(m.len() as int) =~= m);
    }
    out
}


// ---------------------------------------------------------------- one operation

/// Applies one operation to the working state, or reports why it cannot be
/// applied (the working state is then of no further use).
pub fn apply_state_operation(
    work: &mut SceneStateWork,
    label: &String,
    lines: &Vec<VisualDialogueLine>,
    op: &VisualStateOperation,
) -> (r: Result<(), VisualSceneError>)
    ensures
        match op_step(vm(lines@), old(work)@, *op) {
            Ok(w) => r is Ok && final(work)@ == w,
            Err(f) => r is Err && failure_matches(r->Err_0, label@, f),
        },
{
    let ghost w0 = work@;
    match op {
        VisualStateOperation::SetVariable { key, value } => {
            set_variable(&mut work.variables, key.as_str(), value.duplicate());
            Ok(())
        },
        VisualStateOperation::SetLayerState { layer_id, state } => {
            set_layer(&mut work.layers, layer_id.as_str(), state.as_str());
            Ok(())
        },
        VisualStateOperation::SelectEntity { entity_id } => {
            match find_entity(&work.entities, entity_id.as_str()) {
                Some(i) => {
                    work.selected_entity = i;
                    Ok(())
                },
                None => Err(
                    VisualSceneError::UnknownEntity {
                        label: label.clone(),
                        entity_id: entity_id.clone(),
                    },
                ),
            }
        },
        VisualStateOperation::SetEntityFlags { entity_id, flags } => {
            match find_entity(&work.entities, entity_id.as_str()) {
                Some(i) => {
                    let ghost before = vm(work.entities@);
                    work.entities[i].state_flags = copy_strings(flags);
                    proof {
                        assert(vm(work.entities@) =~= before.update(
                            i as int,
                            EntityModel { state_flags: vm(flags@), ..before[i as int] },
                        ));
                    }
                    Ok(())
                },
                None => Err(
                    VisualSceneError::UnknownEntity {
                        label: label.clone(),
                        entity_id: entity_id.clone(),
                    },
                ),
            }
        },
        VisualStateOperation::SetEntityMetadata { entity_id, metadata } => {
            match find_entity(&work.entities, entity_id.as_str()) {
                Some(i) => {
                    let ghost before = vm(work.entities@);
                    work.entities[i].metadata = copy_pairs(metadata);
                    proof {
                        assert(vm(work.entities@) =~= before.update(
                            i as int,
                            EntityModel { metadata: pm(metadata@), ..before[i as int] },
                        ));
                    }
                    Ok(())
                },
                None => Err(
                    VisualSceneError::UnknownEntity {
                        label: label.clone(),
                        entity_id: entity_id.clone(),
                    },
                ),
            }
        },
        VisualStateOperation::SetEntityVisibility { entity_id, visible } => {
            match find_entity(&work.entities, entity_id.as_str()) {
                Some(i) => {
                    let ghost before = vm(work.entities@);
                    work.entities[i].visible = *visible;
                    proof {
                        assert(vm(work.entities@) =~= before.update(
                            i as int,
                            EntityModel { visible: *visible, ..before[i as int] },
                        ));
                    }
                    Ok(())
                },
                None => Err(
                    VisualSceneError::UnknownEntity {
                        label: label.clone(),
                        entity_id: entity_id.clone(),
                    },
                ),
            }
        },
        VisualStateOperation::AdvanceDialogueAndSetLayer { target, layer_id, state } => {
            work.dialogue_index = *target;
            if *target < lines.len() {
                let ghost before = vm(work.dialogue_history@);
                work.dialogue_history.push(lines[*target].copy());
                proof {
                    assert(vm(work.dialogue_history@) =~= before.push(vm(lines@)[*target as int]));
                }
            }
            set_layer(&mut work.layers, layer_id.as_str(), state.as_str());
            Ok(())
        },
        VisualStateOperation::TriggerLayerTransition { layer_id, input } => {
            let i = match find_layer(&work.layers, layer_id.as_str()) {
                Some(i) => i,
                None => {
                    return Err(
                        VisualSceneError::UnknownLayer {
                            label: label.clone(),
                            layer_id: layer_id.clone(),
                        },
                    );
                },
            };
            let j = match find_transition(&work.layers[i].transitions, input.as_str()) {
                Some(j) => j,
                None => {
                    return Err(
                        VisualSceneError::UnknownLayerTransition {
                            label: label.clone(),
                            layer_id: layer_id.clone(),
                            input: input.clone(),
                        },
                    );
                },
            };
            proof {
                assert(vm(work.layers@)[i as int].transitions == vm(work.layers@[i as int].transitions@));
                assert(vm(work.layers@[i as int].transitions@)[j as int].conditions == vm(
                    work.layers@[i as int].transitions@[j as int].conditions@,
                ));
            }
            let ok = conditions_match(
                work.layers[i].transitions[j].conditions.as_slice(),
                work.variables.as_slice(),
                &work.rpg,
                None,
                None,
            );
            if !ok {
                return Err(
                    VisualSceneError::LayerTransitionGuardFailed {
                        label: label.clone(),
                        layer_id: layer_id.clone(),
                        input: input.clone(),
                    },
                );
            }
            let target = trim(work.layers[i].transitions[j].target_state.as_str());
            let ghost before = vm(work.layers@);
            work.layers[i].state = target;
            proof {
                assert(vm(work.layers@) =~= before.update(
                    i as int,
                    LayerModel { state: target@, ..before[i as int] },
                ));
            }
            Ok(())
        },
        VisualStateOperation::IncrementVariable { key, amount } => {
            increment_variable(&mut work.variables, key.as_str(), *amount);
            Ok(())
        },
        VisualStateOperation::ClearVariable { key } => {
            work.variables = clear_variable(&work.variables, key.as_str());
            Ok(())
        },
        VisualStateOperation::AddInventory { item } => {
            let ghost before = vm(work.rpg.inventory@);
            match find_item(&work.rpg.inventory, item.item_id.as_str()) {
                Some(i) => {
                    let c = work.rpg.inventory[i].count.saturating_add(item.count);
                    work.rpg.inventory[i].count = c;
                    proof {
                        assert(vm(work.rpg.inventory@) =~= before.update(
                            i as int,
                            ItemModel { count: c, ..before[i as int] },
                        ));
                    }
                },
                None => {
                    work.rpg.inventory.push(item.copy());
                    proof {
                        assert(vm(work.rpg.inventory@) =~= before.push(item@));
                    }
                },
            }
            Ok(())
        },
        VisualStateOperation::RemoveInventory { item_id, count } => {
            let ghost before = vm(work.rpg.inventory@);
            match find_item(&work.rpg.inventory, item_id.as_str()) {
                Some(i) => {
                    let c = work.rpg.inventory[i].count.saturating_sub(*count);
                    work.rpg.inventory[i].count = c;
                    proof {
                        assert(vm(work.rpg.inventory@) =~= before.update(
                            i as int,
                            ItemModel { count: c, ..before[i as int] },
                        ));
                    }
                    work.rpg.inventory = items_in_stock(&work.rpg.inventory);
                    Ok(())
                },
                None => Err(
                    VisualSceneError::UnknownInventoryItem {
                        label: label.clone(),
                        item_id: item_id.clone(),
                    },
                ),
            }
        },
        VisualStateOperation::SetStat { owner_id, key, value } => {
            let ghost before = vm(work.rpg.stats@);
            match find_stat(&work.rpg.stats, owner_id, key.as_str()) {
                Some(i) => {
                    work.rpg.stats[i].value = value.duplicate();
                    proof {
                        assert(vm(work.rpg.stats@) =~= before.update(
                            i as int,
                            StatModel { value: value@, ..before[i as int] },
                        ));
                    }
                },
                None => {
                    work.rpg.stats.push(
                        VisualStat {
                            owner_id: crate::model::copy_opt(owner_id),
                            key: key.clone(),
                            value: value.duplicate(),
                        },
                    );
                    proof {
                        assert(vm(work.rpg.stats@) =~= before.push(
                            StatModel {
                                owner_id: crate::model::om(*owner_id),
                                key: key@,
                                value: value@,
                            },
                        ));
                    }
                },
            }
            Ok(())
        },
        VisualStateOperation::AdjustStat { owner_id, key, amount } => {
            let ghost before = vm(work.rpg.stats@);
            match find_stat(&work.rpg.stats, owner_id, key.as_str()) {
                Some(i) => {
                    match work.rpg.stats[i].value {
                        VisualStateValue::Number(n) => {
                            let v = VisualStateValue::Number(n.wrapping_add(*amount));
                            work.rpg.stats[i].value = v;
                            proof {
                                assert(vm(work.rpg.stats@) =~= before.update(
                                    i as int,
                                    StatModel { value: v@, ..before[i as int] },
                                ));
                            }
                            Ok(())
                        },
                        _ => Err(
                            VisualSceneError::NonNumericStat { label: label.clone(), key: key.clone() },
                        ),
                    }
                },
                None => Err(VisualSceneError::UnknownStat { label: label.clone(), key: key.clone() }),
            }
        },
        VisualStateOperation::AdvanceQuest { quest_id, stage } => {
            let ghost before = vm(work.rpg.quests@);
            match find_quest(&work.rpg.quests, quest_id.as_str()) {
                Some(i) => {
                    work.rpg.quests[i].stage = *stage;
                    proof {
                        assert(vm(work.rpg.quests@) =~= before.update(
                            i as int,
                            QuestModel { stage: *stage, ..before[i as int] },
                        ));
                    }
                    Ok(())
                },
                None => Err(
                    VisualSceneError::UnknownQuest { label: label.clone(), quest_id: quest_id.clone() },
                ),
            }
        },
        VisualStateOperation::CompleteQuest { quest_id } => {
            let ghost before = vm(work.rpg.quests@);
            match find_quest(&work.rpg.quests, quest_id.as_str()) {
                Some(i) => {
                    work.rpg.quests[i].completed = true;
                    proof {
                        assert(vm(work.rpg.quests@) =~= before.update(
                            i as int,
                            QuestModel { completed: true, ..before[i as int] },
                        ));
                    }
                    Ok(())
                },
                None => Err(
                    VisualSceneError::UnknownQuest { label: label.clone(), quest_id: quest_id.clone() },
                ),
            }
        },
        VisualStateOperation::AppendQuestJournal { quest_id, text } => {
            let ghost before = vm(work.rpg.quests@);
            match find_quest(&work.rpg.quests, quest_id.as_str()) {
                Some(i) => {
                    let mut j = work.rpg.quests[i].journal.clone();
                    if !j.as_str().is_empty() {
                        crate::text::push_char(&mut j, '\n');
                    }
                    j.append(text.as_str());
                    let ghost jv = j@;
                    work.rpg.quests[i].journal = j;
                    proof {
                        assert(vm(work.rpg.quests@) =~= before.update(
                            i as int,
                            QuestModel { journal: jv, ..before[i as int] },
                        ));
                    }
                    Ok(())
                },
                None => Err(
                    VisualSceneError::UnknownQuest { label: label.clone(), quest_id: quest_id.clone() },
                ),
            }
        },
        VisualStateOperation::AdjustRelationship { source_id, target_id, kind, amount } => {
            let ghost before = vm(work.rpg.relationships@);
            match find_relationship(
                &work.rpg.relationships,
                source_id.as_str(),
                target_id.as_str(),
                kind.as_str(),
            ) {
                Some(i) => {
                    let v = work.rpg.relationships[i].value.wrapping_add(*amount);
                    work.rpg.relationships[i].value = v;
                    proof {
                        assert(vm(work.rpg.relationships@) =~= before.update(
                            i as int,
                            RelationshipModel { value: v, ..before[i as int] },
                        ));
                    }
                    Ok(())
                },
                None => Err(
                    VisualSceneError::UnknownRelationship {
                        label: label.clone(),
                        relationship: crate::validation::relationship_key(
                            source_id.as_str(),
                            target_id.as_str(),
                            kind.as_str(),
                        ),
                    },
                ),
            }
        },
    }
}

/// Puts layer `id` in state `state` (trimmed); a missing layer is left alone.
fn set_layer(layers: &mut Vec<VisualLayerState>, id: &str, state: &str)
    ensures
        vm(final(layers)@) == set_layer_state(vm(old(layers)@), id@, state@),
{
    match find_layer(layers, id) {
        Some(i) => {
            let ghost before = vm(layers@);
            let t = trim(state);
            let ghost tv = t@;
            layers[i].state = t;
            proof {
                assert(vm(layers@) =~= before.update(i as int, LayerModel { state: tv, ..before[i as int] }));
            }
        },
        None => {},
    }
}


// ---------------------------------------------------------------- the whole action

/// The state operations start from.
pub open spec fn start_model(r: SceneRuntime) -> WorkModel {
    WorkModel {
        vars: vm(r.scene.variables@),
        layers: vm(r.scene.layers@),
        rpg: r.scene.rpg@,
        entities: vm(r.scene.entities@),
        selected: r.selected_entity,
        dialogue_index: r.dialogue_index,
        history: vm(r.dialogue_history@),
    }
}

/// The first problem of a resolved state: its variables, then its layers,
/// then its RPG state.
pub open spec fn post_error(
    vars: Seq<VisualStateEntry>,
    layers: Seq<VisualLayerState>,
    rpg: VisualRpgState,
) -> Option<VisualSceneError> {
    match state_entries_error(vars) {
        Some(e) => Some(map_entry_error(e)),
        None => match layers_error(layers) {
            Some(e) => Some(e),
            None => rpg_error(rpg),
        },
    }
}

/// `e` is the error the checks of a resolved state report.
pub open spec fn post_error_is(
    e: VisualSceneError,
    vars: Seq<VisualStateEntry>,
    layers: Seq<VisualLayerState>,
    rpg: VisualRpgState,
) -> bool {
    match state_entries_error(vars) {
        Some(x) => e == map_entry_error(x),
        None => match layers_error(layers) {
            Some(x) => e == x,
            None => match rpg_error(rpg) {
                Some(x) => same_scene_error(e, x, duplicate_relationship_key(rpg.relationships@)),
                None => false,
            },
        },
    }
}

/// A resolved state with model `w` fails its checks with error `e`.
pub open spec fn rejected_as(e: VisualSceneError, w: WorkModel) -> bool {
    exists|vars: Seq<VisualStateEntry>, layers: Seq<VisualLayerState>, rpg: VisualRpgState|
        #![trigger post_error(vars, layers, rpg)]
        {
            &&& vm(vars) == w.vars
            &&& vm(layers) == w.layers
            &&& rpg@ == w.rpg
            &&& post_error_is(e, vars, layers, rpg)
        }
}

/// `after` is `before` with the changed parts of the scene state replaced.
pub open spec fn committed(before: SceneRuntime, after: SceneRuntime) -> bool {
    after == SceneRuntime {
        scene: VisualScene {
            variables: after.scene.variables,
            layers: after.scene.layers,
            rpg: after.scene.rpg,
            entities: after.scene.entities,
            ..before.scene
        },
        selected_entity: after.selected_entity,
        dialogue_index: after.dialogue_index,
        dialogue_history: after.dialogue_history,
        ..before
    }
}

/// What resolving `ops` under `label` does: the static checks first; then
/// the operations in order on a working copy; then the copy is checked and,
/// only if it is well formed, replaces the scene state. On any error the
/// runtime is left as it was.
pub open spec fn resolve_contract(
    old: SceneRuntime,
    new: SceneRuntime,
    label: String,
    ops: Seq<VisualStateOperation>,
    r: Result<usize, VisualSceneError>,
) -> bool {
    match operations_error(label, ops, old.scene.entities@, old.scene.dialogue_lines@.len(), old.scene.layers@) {
        Some(e) => r == Err::<usize, VisualSceneError>(e) && new == old,
        None => match run_ops(vm(old.scene.dialogue_lines@), start_model(old), ops) {
            Err(f) => r is Err && failure_matches(r->Err_0, label@, f) && new == old,
            Ok(w) => match r {
                Ok(n) => {
                    &&& n == ops.len()
                    &&& committed(old, new)
                    &&& start_model(new) == w
                    &&& post_error(new.scene.variables@, new.scene.layers@, new.scene.rpg) is None
                },
                Err(e) => {
                    &&& new == old
                    &&& rejected_as(e, w)
                },
            },
        },
    }
}

impl SceneRuntime {
    /// Resolves a choice's state operations (see `resolve_contract`) and
    /// returns how many were applied.
    pub fn apply_state_operations(
        &mut self,
        label: &String,
        operations: &Vec<VisualStateOperation>,
    ) -> (r: Result<usize, VisualSceneError>)
        ensures
            resolve_contract(*old(self), *final(self), *label, operations@, r),
    {
        match validate_state_operations(
            label,
            operations,
            &self.scene.entities,
            &self.scene.dialogue_lines,
            &self.scene.layers,
        ) {
            Err(e) => {
                return Err(e);
            },
            Ok(()) => {},
        }
        let mut work = SceneStateWork {
            variables: copy_list(&self.scene.variables),
            layers: copy_list(&self.scene.layers),
            rpg: self.scene.rpg.copy(),
            entities: copy_list(&self.scene.entities),
            selected_entity: self.selected_entity,
            dialogue_index: self.dialogue_index,
            dialogue_history: copy_list(&self.dialogue_history),
        };
        let ghost lines = vm(self.scene.dialogue_lines@);
        let ghost start = start_model(*self);
        proof {
            assert(work@ == start);
            assert(operations@.take(0) =~= Seq::<VisualStateOperation>::empty());
        }
        let mut i: usize = 0;
        while i < operations.len()
            invariant
                *self == *old(self),
                operations_error(
                    *label,
                    operations@,
                    self.scene.entities@,
                    self.scene.dialogue_lines@.len(),
                    self.scene.layers@,
                ) is None,
                lines == vm(self.scene.dialogue_lines@),
                start == start_model(*old(self)),
                i <= operations@.len(),
                run_ops(lines, start, operations@.take(i as int)) == Ok::<WorkModel, StepFailure>(
                    work@,
                ),
            decreases operations.len() - i,
        {
            proof {
                assert(operations@.take(i + 1).drop_last() =~= operations@.take(i as int));
                assert(operations@.take(i + 1).last() == operations@[i as int]);
            }
            let ghost wb = work@;
            match apply_state_operation(&mut work, label, &self.scene.dialogue_lines, &operations[i]) {
                Err(e) => {
                    proof {
                        assert(run_ops(lines, start, operations@.take(i + 1)) == op_step(
                            lines,
                            wb,
                            operations@[i as int],
                        ));
                        lemma_run_failure_sticks(lines, start, operations@, i + 1);
                    }
                    return Err(e);
                },
                Ok(()) => {},
            }
            i = i + 1;
        }
        proof {
            assert(operations@.take(operations@.len() as int) =~= operations@);
        }
        let ghost vars = work.variables@;
        let ghost layers = work.layers@;
        let ghost rpg = work.rpg;
        match validate_state_entries(work.variables.as_slice()) {
            Err(VisualStateEntryError::EmptyKey) => {
                return Err(VisualSceneError::EmptyVariableKey);
            },
            Err(VisualStateEntryError::DuplicateKey(k)) => {
                return Err(VisualSceneError::DuplicateVariableKey(k));
            },
            Ok(()) => {},
        }
        match validate_layers(&work.layers) {
            Err(e) => {
                proof {
                    assert(post_error(vars, layers, rpg) is Some);
                }
                return Err(e);
            },
            Ok(()) => {},
        }
        match validate_rpg_state(&work.rpg) {
            Err(e) => {
                proof {
                    assert(post_error(vars, layers, rpg) is Some);
                }
                return Err(e);
            },
            Ok(()) => {},
        }
        self.scene.variables = work.variables;
        self.scene.layers = work.layers;
        self.scene.rpg = work.rpg;
        self.scene.entities = work.entities;
        self.selected_entity = work.selected_entity;
        self.dialogue_index = work.dialogue_index;
        self.dialogue_history = work.dialogue_history;
        Ok(operations.len())
    }
}

/// A resolve that fails, for whatever reason, leaves the runtime exactly as
/// it was: resolution is all or nothing.
pub proof fn law_failed_resolve_changes_nothing(
    old: SceneRuntime,
    new: SceneRuntime,
    label: String,
    ops: Seq<VisualStateOperation>,
    r: Result<usize, VisualSceneError>,
)
    requires
        resolve_contract(old, new, label, ops, r),
        r is Err,
    ensures
        new == old,
{
}

/// A resolve that succeeds applied every operation and left a well-formed
/// state: its variables, layers and RPG state pass validation.
pub proof fn law_successful_resolve_is_valid(
    old: SceneRuntime,
    new: SceneRuntime,
    label: String,
    ops: Seq<VisualStateOperation>,
    r: Result<usize, VisualSceneError>,
)
    requires
        resolve_contract(old, new, label, ops, r),
        r is Ok,
    ensures
        r == Ok::<usize, VisualSceneError>(ops.len() as usize),
        run_ops(vm(old.scene.dialogue_lines@), start_model(old), ops) == Ok::<WorkModel, StepFailure>(
            start_model(new),
        ),
        post_error(new.scene.variables@, new.scene.layers@, new.scene.rpg) is None,
        new.scene.choices == old.scene.choices,
        new.scene.dialogue_lines == old.scene.dialogue_lines,
        new.status == old.status,
{
}

/// Removing inventory that exists lowers that item's count (never below
/// zero), drops every item left with no count, and keeps the order of the
/// items that remain; nothing else in the inventory changes.
pub proof fn law_remove_inventory_keeps_order_and_drops_empty(
    old: SceneRuntime,
    new: SceneRuntime,
    label: String,
    item_id: String,
    count: u32,
    r: Result<usize, VisualSceneError>,
)
    requires
        resolve_contract(old, new, label, seq![VisualStateOperation::RemoveInventory { item_id, count }], r),
        r is Ok,
    ensures
        ({
            let inv = old.scene.rpg@.inventory;
            let i = first_index(inv, item_is(item_id@));
            &&& i < inv.len()
            &&& new.scene.rpg@.inventory == inv.update(
                i,
                ItemModel { count: inv[i].count.saturating_sub(count), ..inv[i] },
            ).filter(in_stock())
        }),
{
    let ops = seq![VisualStateOperation::RemoveInventory { item_id, count }];
    assert(ops.drop_last() =~= Seq::<VisualStateOperation>::empty());
    assert(ops.last() == VisualStateOperation::RemoveInventory { item_id, count });
    let lines = vm(old.scene.dialogue_lines@);
    let w0 = start_model(old);
    assert(run_ops(lines, w0, ops.drop_last()) == Ok::<WorkModel, StepFailure>(w0));
    assert(run_ops(lines, w0, ops) == op_step(lines, w0, ops.last()));
    let inv = old.scene.rpg@.inventory;
    assert(w0.rpg.inventory == inv);
    let i = first_index(inv, item_is(item_id@));
    if i >= inv.len() {
        assert(run_ops(lines, w0, ops) is Err);
    } else {
        let w = run_ops(lines, w0, ops)->Ok_0;
        assert(start_model(new) == w);
        assert(new.scene.rpg@ == w.rpg);
    }
}

/// Adding inventory raises the count of an item already held by the added
/// count, stopping at `u32::MAX`, and changes no other item; an item not
/// held is appended as given.
pub proof fn law_add_inventory_adds_to_held_count(
    old: SceneRuntime,
    new: SceneRuntime,
    label: String,
    item: VisualInventoryItem,
    r: Result<usize, VisualSceneError>,
)
    requires
        resolve_contract(old, new, label, seq![VisualStateOperation::AddInventory { item }], r),
        r is Ok,
    ensures
        ({
            let inv = old.scene.rpg@.inventory;
            let after = new.scene.rpg@.inventory;
            let i = first_index(inv, item_is(item.item_id@));
            &&& i < inv.len() ==> {
                &&& after.len() == inv.len()
                &&& after[i].count == (if inv[i].count + item.count <= u32::MAX {
                    inv[i].count + item.count
                } else {
                    u32::MAX as int
                })
                &&& after[i].item_id == inv[i].item_id
                &&& after[i].label == inv[i].label
                &&& forall|j: int| 0 <= j < inv.len() && j != i ==> #[trigger] after[j] == inv[j]
            }
            &&& i >= inv.len() ==> after == inv.push(item@)
        }),
{
    let ops = seq![VisualStateOperation::AddInventory { item }];
    assert(ops.drop_last() =~= Seq::<VisualStateOperation>::empty());
    let lines = vm(old.scene.dialogue_lines@);
    let w0 = start_model(old);
    assert(run_ops(lines, w0, ops.drop_last()) == Ok::<WorkModel, StepFailure>(w0));
    assert(run_ops(lines, w0, ops) == op_step(lines, w0, ops.last()));
    let inv = old.scene.rpg@.inventory;
    assert(w0.rpg.inventory == inv);
    assert(operations_error(label, ops, old.scene.entities@, old.scene.dialogue_lines@.len(), old.scene.layers@) is None);
    assert(run_ops(lines, w0, ops) is Ok);
    let w = run_ops(lines, w0, ops)->Ok_0;
    assert(start_model(new) == w);
    assert(new.scene.rpg@ == w.rpg);
    let i = first_index(inv, item_is(item.item_id@));
    crate::conditions::lemma_first_index(inv, item_is(item.item_id@));
    if i < inv.len() {
        assert(w.rpg.inventory == inv.update(i, ItemModel { count: inv[i].count.saturating_add(item.count), ..inv[i] }));
        let after = new.scene.rpg@.inventory;
        assert(after.len() == inv.len());
        assert(after[i].count == inv[i].count.saturating_add(item.count));
        assert(after[i].count == (if inv[i].count + item.count <= u32::MAX {
                    inv[i].count + item.count
                } else {
                    u32::MAX as int
                }));
    }
}

/// A single applied operation is one step from the runtime's state.
proof fn lemma_one_op_applied(
    old: SceneRuntime,
    new: SceneRuntime,
    label: String,
    op: VisualStateOperation,
    r: Result<usize, VisualSceneError>,
)
    requires
        resolve_contract(old, new, label, seq![op], r),
        r is Ok,
    ensures
        op_step(vm(old.scene.dialogue_lines@), start_model(old), op) == Ok::<WorkModel, StepFailure>(
            start_model(new),
        ),
{
    let ops = seq![op];
    assert(ops.drop_last() =~= Seq::<VisualStateOperation>::empty());
    let lines = vm(old.scene.dialogue_lines@);
    let w0 = start_model(old);
    assert(run_ops(lines, w0, ops.drop_last()) == Ok::<WorkModel, StepFailure>(w0));
    assert(run_ops(lines, w0, ops) == op_step(lines, w0, ops.last()));
}

/// Quest operations change the named quest: advancing sets its stage,
/// completing marks it completed, and a journal entry is appended after a
/// line break (or becomes the journal when it was empty); its other fields
/// and every other quest stay as they were.
pub proof fn law_quest_operations_change_the_named_quest(
    old: SceneRuntime,
    new: SceneRuntime,
    label: String,
    op: VisualStateOperation,
    r: Result<usize, VisualSceneError>,
)
    requires
        resolve_contract(old, new, label, seq![op], r),
        r is Ok,
    ensures
        ({
            let qs = old.scene.rpg@.quests;
            let after = new.scene.rpg@.quests;
            &&& op matches VisualStateOperation::CompleteQuest { quest_id } ==> {
                let i = first_index(qs, quest_is(quest_id@));
                &&& 0 <= i < qs.len()
                &&& after == qs.update(i, QuestModel { completed: true, ..qs[i] })
            }
            &&& op matches VisualStateOperation::AdvanceQuest { quest_id, stage } ==> {
                let i = first_index(qs, quest_is(quest_id@));
                &&& 0 <= i < qs.len()
                &&& after == qs.update(i, QuestModel { stage, ..qs[i] })
            }
            &&& op matches VisualStateOperation::AppendQuestJournal { quest_id, text } ==> {
                let i = first_index(qs, quest_is(quest_id@));
                &&& 0 <= i < qs.len()
                &&& after.len() == qs.len()
                &&& after[i].journal == (if qs[i].journal.len() > 0 {
                    qs[i].journal + seq!['\n'] + text@
                } else {
                    text@
                })
            }
        }),
{
    lemma_one_op_applied(old, new, label, op, r);
    let qs = old.scene.rpg@.quests;
    match op {
        VisualStateOperation::CompleteQuest { quest_id } => {
            crate::conditions::lemma_first_index(qs, quest_is(quest_id@));
        },
        VisualStateOperation::AdvanceQuest { quest_id, stage } => {
            crate::conditions::lemma_first_index(qs, quest_is(quest_id@));
        },
        VisualStateOperation::AppendQuestJournal { quest_id, text } => {
            crate::conditions::lemma_first_index(qs, quest_is(quest_id@));
            let i = first_index(qs, quest_is(quest_id@));
            assert(qs[i].journal.push('\n') =~= qs[i].journal + seq!['\n']);
            assert(Seq::<char>::empty() + text@ =~= text@);
        },
        _ => {},
    }
}

/// Entity operations act on the first entity with the named id: selecting
/// selects it, and setting visibility, flags or metadata sets that field of
/// it and of no other entity.
pub proof fn law_entity_operations_change_the_named_entity(
    old: SceneRuntime,
    new: SceneRuntime,
    label: String,
    op: VisualStateOperation,
    r: Result<usize, VisualSceneError>,
)
    requires
        resolve_contract(old, new, label, seq![op], r),
        r is Ok,
    ensures
        ({
            let es = vm(old.scene.entities@);
            let after = vm(new.scene.entities@);
            &&& op matches VisualStateOperation::SelectEntity { entity_id } ==> {
                let i = first_index(es, entity_is(entity_id@));
                &&& 0 <= i < es.len()
                &&& new.selected_entity == i
                &&& after == es
            }
            &&& op matches VisualStateOperation::SetEntityVisibility { entity_id, visible } ==> {
                let i = first_index(es, entity_is(entity_id@));
                &&& 0 <= i < es.len()
                &&& after == es.update(i, EntityModel { visible, ..es[i] })
            }
            &&& op matches VisualStateOperation::SetEntityFlags { entity_id, flags } ==> {
                let i = first_index(es, entity_is(entity_id@));
                &&& 0 <= i < es.len()
                &&& after == es.update(i, EntityModel { state_flags: vm(flags@), ..es[i] })
            }
        }),
{
    lemma_one_op_applied(old, new, label, op, r);
    let es = vm(old.scene.entities@);
    match op {
        VisualStateOperation::SelectEntity { entity_id } => {
            crate::conditions::lemma_first_index(es, entity_is(entity_id@));
            vstd::std_specs::vec::axiom_spec_len(&old.scene.entities);
            assert(old.scene.entities.len() == es.len());
        },
        VisualStateOperation::SetEntityVisibility { entity_id, visible } => {
            crate::conditions::lemma_first_index(es, entity_is(entity_id@));
        },
        VisualStateOperation::SetEntityFlags { entity_id, flags } => {
            crate::conditions::lemma_first_index(es, entity_is(entity_id@));
        },
        _ => {},
    }
}

/// Variable operations: after setting a variable it reads the value set;
/// after incrementing a number it reads that number plus the amount (when
/// the sum fits), and a missing variable reads the amount; after clearing
/// no variable has that key; other variables read as before.
pub proof fn law_variable_operations(
    old: SceneRuntime,
    new: SceneRuntime,
    label: String,
    op: VisualStateOperation,
    r: Result<usize, VisualSceneError>,
    other: Seq<char>,
)
    requires
        resolve_contract(old, new, label, seq![op], r),
        r is Ok,
    ensures
        ({
            let vs = vm(old.scene.variables@);
            let after = vm(new.scene.variables@);
            &&& op matches VisualStateOperation::SetVariable { key, value } ==> {
                &&& crate::patch::var_lookup(after, key@) == Some(value@)
                &&& other != key@ ==> crate::patch::var_lookup(after, other) == crate::patch::var_lookup(vs, other)
            }
            &&& op matches VisualStateOperation::IncrementVariable { key, amount } ==> {
                &&& (crate::patch::var_lookup(vs, key@) matches Some(ValueModel::Number(n)) ==> (i64::MIN <= n + amount
                    <= i64::MAX ==> crate::patch::var_lookup(after, key@) == Some(
                    ValueModel::Number((n + amount) as i64),
                )))
                &&& (crate::patch::var_lookup(vs, key@) is None ==> crate::patch::var_lookup(after, key@) == Some(
                    ValueModel::Number(amount),
                ))
            }
            &&& op matches VisualStateOperation::ClearVariable { key } ==> forall|j: int|
                0 <= j < after.len() ==> (#[trigger] after[j]).key != key@
        }),
{
    lemma_one_op_applied(old, new, label, op, r);
    let vs = vm(old.scene.variables@);
    match op {
        VisualStateOperation::SetVariable { key, value } => {
            crate::patch::lemma_set_var_lookup(vs, key@, value@, key@);
            crate::patch::lemma_set_var_lookup(vs, key@, value@, other);
        },
        VisualStateOperation::IncrementVariable { key, amount } => {
            crate::conditions::lemma_first_index(vs, key_is(key@));
            let i = first_index(vs, key_is(key@));
            let after = vm(new.scene.variables@);
            if i < vs.len() {
                let v = match vs[i].value {
                    ValueModel::Number(n) => ValueModel::Number(n.wrapping_add(amount)),
                    _ => ValueModel::Number(amount),
                };
                assert(after == vs.update(i, EntryModel { value: v, ..vs[i] }));
                assert forall|k: int| 0 <= k < vs.len() implies key_is(key@)(#[trigger] vs[k]) == key_is(key@)(after[k]) by {}
                crate::pipeline_args::lemma_first_from_is(after, key_is(key@), 0, i);
            } else {
                assert(after == vs.push(EntryModel { key: key@, value: ValueModel::Number(amount) }));
                assert forall|k: int| 0 <= k < vs.len() implies !key_is(key@)(#[trigger] after[k]) by {
                    assert(after[k] == vs[k]);
                }
                crate::pipeline_args::lemma_first_from_is(after, key_is(key@), 0, vs.len() as int);
            }
        },
        VisualStateOperation::ClearVariable { key } => {
            let after = vm(new.scene.variables@);
            assert forall|j: int| 0 <= j < after.len() implies (#[trigger] after[j]).key != key@ by {
                vs.lemma_filter_pred(key_is_not(key@), j);
            }
        },
        _ => {},
    }
}

/// Stat, relationship and layer operations: adjusting a numeric stat or a
/// relationship adds the amount (when the sum fits) to the named entry;
/// setting a stat gives the named stat that value (appending it when
/// missing); setting a layer's state gives the named layer that state,
/// trimmed; and a layer transition moves the layer to the transition's
/// target state, trimmed. Other entries stay as they were.
pub proof fn law_stat_relationship_and_layer_operations(
    old: SceneRuntime,
    new: SceneRuntime,
    label: String,
    op: VisualStateOperation,
    r: Result<usize, VisualSceneError>,
)
    requires
        resolve_contract(old, new, label, seq![op], r),
        r is Ok,
    ensures
        ({
            let st = old.scene.rpg@.stats;
            let rs = old.scene.rpg@.relationships;
            let ls = vm(old.scene.layers@);
            &&& op matches VisualStateOperation::AdjustStat { owner_id, key, amount } ==> {
                let i = first_index(st, stat_is(crate::validation::opt_str(owner_id), key@));
                &&& 0 <= i < st.len()
                &&& st[i].value is Number
                &&& (i64::MIN <= st[i].value->Number_0 + amount <= i64::MAX ==> new.scene.rpg@.stats == st.update(
                    i,
                    StatModel { value: ValueModel::Number((st[i].value->Number_0 + amount) as i64), ..st[i] },
                ))
            }
            &&& op matches VisualStateOperation::SetStat { owner_id, key, value } ==> {
                let i = first_index(st, stat_is(crate::validation::opt_str(owner_id), key@));
                &&& 0 <= i < st.len() ==> new.scene.rpg@.stats == st.update(i, StatModel { value: value@, ..st[i] })
                &&& i >= st.len() ==> new.scene.rpg@.stats == st.push(
                    StatModel { owner_id: crate::validation::opt_str(owner_id), key: key@, value: value@ },
                )
            }
            &&& op matches VisualStateOperation::AdjustRelationship { source_id, target_id, kind, amount } ==> {
                let i = first_index(rs, relationship_is(source_id@, target_id@, kind@));
                &&& 0 <= i < rs.len()
                &&& (i64::MIN <= rs[i].value + amount <= i64::MAX ==> new.scene.rpg@.relationships == rs.update(
                    i,
                    RelationshipModel { value: (rs[i].value + amount) as i64, ..rs[i] },
                ))
            }
            &&& op matches VisualStateOperation::SetLayerState { layer_id, state } ==> {
                let i = first_index(ls, layer_is(layer_id@));
                &&& 0 <= i < ls.len() ==> vm(new.scene.layers@) == ls.update(
                    i,
                    LayerModel { state: trim_seq(state@), ..ls[i] },
                )
                &&& i >= ls.len() ==> vm(new.scene.layers@) == ls
            }
            &&& op matches VisualStateOperation::TriggerLayerTransition { layer_id, input } ==> {
                let i = first_index(ls, layer_is(layer_id@));
                &&& 0 <= i < ls.len()
                &&& ({
                    let j = first_index(ls[i].transitions, transition_is(input@));
                    &&& 0 <= j < ls[i].transitions.len()
                    &&& vm(new.scene.layers@) == ls.update(
                        i,
                        LayerModel { state: trim_seq(ls[i].transitions[j].target_state), ..ls[i] },
                    )
                })
            }
        }),
{
    lemma_one_op_applied(old, new, label, op, r);
    let st = old.scene.rpg@.stats;
    let rs = old.scene.rpg@.relationships;
    let ls = vm(old.scene.layers@);
    match op {
        VisualStateOperation::AdjustStat { owner_id, key, amount } => {
            assert(crate::validation::opt_str(owner_id) == (match owner_id {
                Some(o) => Some(o@),
                None => None,
            }));
            crate::conditions::lemma_first_index(st, stat_is(crate::validation::opt_str(owner_id), key@));
        },
        VisualStateOperation::SetStat { owner_id, key, value } => {
            assert(crate::validation::opt_str(owner_id) == (match owner_id {
                Some(o) => Some(o@),
                None => None,
            }));
            crate::conditions::lemma_first_index(st, stat_is(crate::validation::opt_str(owner_id), key@));
        },
        VisualStateOperation::AdjustRelationship { source_id, target_id, kind, amount } => {
            crate::conditions::lemma_first_index(rs, relationship_is(source_id@, target_id@, kind@));
        },
        VisualStateOperation::SetLayerState { layer_id, state } => {
            crate::conditions::lemma_first_index(ls, layer_is(layer_id@));
        },
        VisualStateOperation::TriggerLayerTransition { layer_id, input } => {
            crate::conditions::lemma_first_index(ls, layer_is(layer_id@));
            let i = first_index(ls, layer_is(layer_id@));
            if 0 <= i < ls.len() {
                crate::conditions::lemma_first_index(ls[i].transitions, transition_is(input@));
            }
        },
        _ => {},
    }
}

} // verus!
