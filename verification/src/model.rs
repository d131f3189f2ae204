//! What the scene records mean, independent of how their text is stored:
//! each record's view replaces strings by their characters and vectors by
//! the sequence of their elements' views.

use vstd::prelude::*;

use crate::scene_model::{
    VisualCondition, VisualDialogueLine, VisualEntity, VisualEntityKind, VisualInventoryItem,
    VisualPosition, VisualProcessPhase, VisualProcessState, VisualQuest, VisualRelationship,
    VisualRpgState, VisualStat, VisualStateEntry, VisualStateValue,
};
use crate::schema::{VisualInputBinding, VisualLayerState, VisualLayerTransition};

verus! {

/// The views of a sequence's elements.
pub open spec fn vm<T: View>(s: Seq<T>) -> Seq<T::V> {
    s.map_values(|x: T| x@)
}

/// An optional string by its characters.
pub open spec fn om(o: Option<String>) -> Option<Seq<char>> {
    match o {
        Some(s) => Some(s@),
        None => None,
    }
}

/// A list of key/value text pairs by their characters.
pub open spec fn pm(s: Seq<(String, String)>) -> Seq<(Seq<char>, Seq<char>)> {
    s.map_values(|p: (String, String)| (p.0@, p.1@))
}

/// A state value by its meaning: text by its characters.
pub ghost enum ValueModel {
    Bool(bool),
    Number(i64),
    Text(Seq<char>),
}

impl View for VisualStateValue {
    type V = ValueModel;

    open spec fn view(&self) -> ValueModel {
        match *self {
            VisualStateValue::Bool(b) => ValueModel::Bool(b),
            VisualStateValue::Number(n) => ValueModel::Number(n),
            VisualStateValue::Text(t) => ValueModel::Text(t@),
        }
    }
}

pub ghost struct EntryModel {
    pub key: Seq<char>,
    pub value: ValueModel,
}

impl View for VisualStateEntry {
    type V = EntryModel;

    open spec fn view(&self) -> EntryModel {
        EntryModel { key: self.key@, value: self.value@ }
    }
}

pub ghost struct ConditionModel {
    pub source: Option<Seq<char>>,
    pub variable: Seq<char>,
    pub equals: ValueModel,
}

impl View for VisualCondition {
    type V = ConditionModel;

    open spec fn view(&self) -> ConditionModel {
        ConditionModel { source: om(self.source), variable: self.variable@, equals: self.equals@ }
    }
}

pub ghost struct BindingModel {
    pub input: Seq<char>,
    pub action: Seq<char>,
    pub conditions: Seq<ConditionModel>,
}

impl View for VisualInputBinding {
    type V = BindingModel;

    open spec fn view(&self) -> BindingModel {
        BindingModel {
            input: self.input@,
            action: self.action@,
            conditions: vm(self.conditions@),
        }
    }
}

pub ghost struct TransitionModel {
    pub input: Seq<char>,
    pub target_state: Seq<char>,
    pub conditions: Seq<ConditionModel>,
}

impl View for VisualLayerTransition {
    type V = TransitionModel;

    open spec fn view(&self) -> TransitionModel {
        TransitionModel {
            input: self.input@,
            target_state: self.target_state@,
            conditions: vm(self.conditions@),
        }
    }
}

pub ghost struct LayerModel {
    pub layer_id: Seq<char>,
    pub state: Seq<char>,
    pub input_map: Seq<BindingModel>,
    pub transitions: Seq<TransitionModel>,
}

impl View for VisualLayerState {
    type V = LayerModel;

    open spec fn view(&self) -> LayerModel {
        LayerModel {
            layer_id: self.layer_id@,
            state: self.state@,
            input_map: vm(self.input_map@),
            transitions: vm(self.transitions@),
        }
    }
}

pub ghost struct EntityModel {
    pub id: Seq<char>,
    pub kind: VisualEntityKind,
    pub label: Seq<char>,
    pub position: VisualPosition,
    pub sprite: Seq<char>,
    pub visible: bool,
    pub state_flags: Seq<Seq<char>>,
    pub metadata: Seq<(Seq<char>, Seq<char>)>,
}

impl View for VisualEntity {
    type V = EntityModel;

    open spec fn view(&self) -> EntityModel {
        EntityModel {
            id: self.id@,
            kind: self.kind,
            label: self.label@,
            position: self.position,
            sprite: self.sprite@,
            visible: self.visible,
            state_flags: vm(self.state_flags@),
            metadata: pm(self.metadata@),
        }
    }
}

pub ghost struct ItemModel {
    pub item_id: Seq<char>,
    pub label: Seq<char>,
    pub count: u32,
    pub metadata: Seq<(Seq<char>, Seq<char>)>,
}

impl View for VisualInventoryItem {
    type V = ItemModel;

    open spec fn view(&self) -> ItemModel {
        ItemModel {
            item_id: self.item_id@,
            label: self.label@,
            count: self.count,
            metadata: pm(self.metadata@),
        }
    }
}

pub ghost struct StatModel {
    pub owner_id: Option<Seq<char>>,
    pub key: Seq<char>,
    pub value: ValueModel,
}

impl View for VisualStat {
    type V = StatModel;

    open spec fn view(&self) -> StatModel {
        StatModel { owner_id: om(self.owner_id), key: self.key@, value: self.value@ }
    }
}

pub ghost struct QuestModel {
    pub quest_id: Seq<char>,
    pub label: Seq<char>,
    pub stage: i64,
    pub completed: bool,
    pub journal: Seq<char>,
}

impl View for VisualQuest {
    type V = QuestModel;

    open spec fn view(&self) -> QuestModel {
        QuestModel {
            quest_id: self.quest_id@,
            label: self.label@,
            stage: self.stage,
            completed: self.completed,
            journal: self.journal@,
        }
    }
}

pub ghost struct RelationshipModel {
    pub source_id: Seq<char>,
    pub target_id: Seq<char>,
    pub kind: Seq<char>,
    pub value: i64,
    pub metadata: Seq<(Seq<char>, Seq<char>)>,
}

impl View for VisualRelationship {
    type V = RelationshipModel;

    open spec fn view(&self) -> RelationshipModel {
        RelationshipModel {
            source_id: self.source_id@,
            target_id: self.target_id@,
            kind: self.kind@,
            value: self.value,
            metadata: pm(self.metadata@),
        }
    }
}

pub ghost struct RpgModel {
    pub inventory: Seq<ItemModel>,
    pub stats: Seq<StatModel>,
    pub quests: Seq<QuestModel>,
    pub relationships: Seq<RelationshipModel>,
}

impl View for VisualRpgState {
    type V = RpgModel;

    open spec fn view(&self) -> RpgModel {
        RpgModel {
            inventory: vm(self.inventory@),
            stats: vm(self.stats@),
            quests: vm(self.quests@),
            relationships: vm(self.relationships@),
        }
    }
}

pub ghost struct LineModel {
    pub speaker: Seq<char>,
    pub text: Seq<char>,
    pub portrait: Option<Seq<char>>,
    pub metadata: Seq<(Seq<char>, Seq<char>)>,
}

impl View for VisualDialogueLine {
    type V = LineModel;

    open spec fn view(&self) -> LineModel {
        LineModel {
            speaker: self.speaker@,
            text: self.text@,
            portrait: om(self.portrait),
            metadata: pm(self.metadata@),
        }
    }
}

pub ghost struct ProcessModel {
    pub entity_id: Option<Seq<char>>,
    pub phase: VisualProcessPhase,
    pub command: Option<Seq<char>>,
    pub exit_code: Option<i32>,
    pub message: Option<Seq<char>>,
}

impl View for VisualProcessState {
    type V = ProcessModel;

    open spec fn view(&self) -> ProcessModel {
        ProcessModel {
            entity_id: om(self.entity_id),
            phase: self.phase,
            command: om(self.command),
            exit_code: self.exit_code,
            message: om(self.message),
        }
    }
}

// ---------------------------------------------------------------- copies

/// Records that can be copied with the same view.
pub trait CopyView: View + Sized {
    fn copy(&self) -> (r: Self)
        ensures
            r@ == self@,
    ;
}

/// A copy of a list, element by element.
pub fn copy_list<T: CopyView>(v: &Vec<T>) -> (r: Vec<T>)
    ensures
        vm(r@) == vm(v@),
{
    let mut r: Vec<T> = Vec::new();
    let mut i: usize = 0;
    while i < v.len()
        invariant
            i <= v@.len(),
            has_views(r@, vm(v@.take(i as int))),
        decreases v.len() - i,
    {
        r.push(v[i].copy());
        i = i + 1;
    }
    proof {
        assert(v@.take(v@.len() as int) =~= v@);
        lemma_has_views(r@, vm(v@));
    }
    r
}

/// A copy of an optional string.
pub fn copy_opt(o: &Option<String>) -> (r: Option<String>)
    ensures
        r == *o,
{
    match o {
        Some(s) => Some(s.clone()),
        None => None,
    }
}

/// A copy of a list of strings.
pub fn copy_strings(v: &Vec<String>) -> (r: Vec<String>)
    ensures
        r@ == v@,
{
    let mut r: Vec<String> = Vec::new();
    let mut i: usize = 0;
    while i < v.len()
        invariant
            i <= v@.len(),
            r@ == v@.take(i as int),
        decreases v.len() - i,
    {
        r.push(v[i].clone());
        i = i + 1;
    }
    proof {
        assert(v@.take(v@.len() as int) =~= v@);
    }
    r
}

/// A copy of a list of key/value pairs.
pub fn copy_pairs(v: &Vec<(String, String)>) -> (r: Vec<(String, String)>)
    ensures
        r@ == v@,
{
    let mut r: Vec<(String, String)> = Vec::new();
    let mut i: usize = 0;
    while i < v.len()
        invariant
            i <= v@.len(),
            r@ == v@.take(i as int),
        decreases v.len() - i,
    {
        r.push((v[i].0.clone(), v[i].1.clone()));
        i = i + 1;
    }
    proof {
        assert(v@.take(v@.len() as int) =~= v@);
    }
    r
}

/// A list whose elements have the views `m`.
pub open spec fn has_views<T: View>(v: Seq<T>, m: Seq<T::V>) -> bool {
    v.len() == m.len() && forall|i: int| 0 <= i < v.len() ==> (#[trigger] v[i])@ == m[i]
}

pub proof fn lemma_has_views<T: View>(v: Seq<T>, m: Seq<T::V>)
    ensures
        has_views(v, m) <==> vm(v) == m,
{
    if has_views(v, m) {
        assert(vm(v) =~= m);
    }
}

impl CopyView for VisualCondition {
    fn copy(&self) -> (r: Self) {
        VisualCondition {
            source: copy_opt(&self.source),
            variable: self.variable.clone(),
            equals: self.equals.duplicate(),
        }
    }
}

impl CopyView for VisualEntity {
    fn copy(&self) -> (r: Self) {
        VisualEntity {
            id: self.id.clone(),
            kind: self.kind,
            label: self.label.clone(),
            position: self.position,
            sprite: self.sprite.clone(),
            visible: self.visible,
            state_flags: copy_strings(&self.state_flags),
            metadata: copy_pairs(&self.metadata),
        }
    }
}

impl CopyView for VisualInventoryItem {
    fn copy(&self) -> (r: Self) {
        VisualInventoryItem {
            item_id: self.item_id.clone(),
            label: self.label.clone(),
            count: self.count,
            metadata: copy_pairs(&self.metadata),
        }
    }
}

impl CopyView for VisualStat {
    fn copy(&self) -> (r: Self) {
        VisualStat {
            owner_id: copy_opt(&self.owner_id),
            key: self.key.clone(),
            value: self.value.duplicate(),
        }
    }
}

impl CopyView for VisualQuest {
    fn copy(&self) -> (r: Self) {
        VisualQuest {
            quest_id: self.quest_id.clone(),
            label: self.label.clone(),
            stage: self.stage,
            completed: self.completed,
            journal: self.journal.clone(),
        }
    }
}

impl CopyView for VisualRelationship {
    fn copy(&self) -> (r: Self) {
        VisualRelationship {
            source_id: self.source_id.clone(),
            target_id: self.target_id.clone(),
            kind: self.kind.clone(),
            value: self.value,
            metadata: copy_pairs(&self.metadata),
        }
    }
}

impl CopyView for VisualDialogueLine {
    fn copy(&self) -> (r: Self) {
        VisualDialogueLine {
            speaker: self.speaker.clone(),
            text: self.text.clone(),
            portrait: copy_opt(&self.portrait),
            metadata: copy_pairs(&self.metadata),
        }
    }
}

impl CopyView for VisualStateEntry {
    fn copy(&self) -> (r: Self) {
        VisualStateEntry { key: self.key.clone(), value: self.value.duplicate() }
    }
}

impl CopyView for VisualProcessState {
    fn copy(&self) -> (r: Self) {
        VisualProcessState {
            entity_id: copy_opt(&self.entity_id),
            phase: self.phase,
            command: copy_opt(&self.command),
            exit_code: self.exit_code,
            message: copy_opt(&self.message),
        }
    }
}

impl CopyView for VisualInputBinding {
    fn copy(&self) -> (r: Self) {
        VisualInputBinding {
            input: self.input.clone(),
            action: self.action.clone(),
            conditions: copy_list(&self.conditions),
        }
    }
}

impl CopyView for VisualLayerTransition {
    fn copy(&self) -> (r: Self) {
        VisualLayerTransition {
            input: self.input.clone(),
            target_state: self.target_state.clone(),
            conditions: copy_list(&self.conditions),
        }
    }
}

impl CopyView for VisualLayerState {
    fn copy(&self) -> (r: Self) {
        VisualLayerState {
            layer_id: self.layer_id.clone(),
            state: self.state.clone(),
            input_map: copy_list(&self.input_map),
            transitions: copy_list(&self.transitions),
        }
    }
}

impl CopyView for VisualRpgState {
    fn copy(&self) -> (r: Self) {
        VisualRpgState {
            inventory: copy_list(&self.inventory),
            stats: copy_list(&self.stats),
            quests: copy_list(&self.quests),
            relationships: copy_list(&self.relationships),
        }
    }
}

} // verus!
