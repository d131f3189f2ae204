//! Scene actions: how choices and requests are named and described, what
//! activating a choice does to the runtime, and the outcome it reports.

use vstd::prelude::*;

use crate::conditions::{all_conditions_hold, conditions_match, opt_entity, opt_process};
use crate::model::{copy_list, copy_opt, copy_strings, vm, CopyView};
use crate::resolve::{committed, resolve_contract, run_ops, start_model};
use crate::scene_check::operations_error;
use crate::runtime::{next_generation, selected_of, SceneRuntime};
use crate::scene_errors::VisualSceneError;
use crate::scene_messages::scene_error_text;
use crate::scene_model::{
    run_target_text, value_text, SceneAction, VisualScene, SceneActionKind, VisualActionRequest,
    VisualCondition, VisualStateOperation,
};
use crate::schema::VisualRuntimeEvent;
use crate::text::{bool_text, dec, i64_text, int_dec, join, join_seq, u32_text, usize_text, views};

verus! {

// ---------------------------------------------------------------- names

pub open spec fn kind_name(k: SceneActionKind) -> Seq<char> {
    match k {
        SceneActionKind::Inspect => "Inspect"@,
        SceneActionKind::OpenFile { .. } => "OpenFile"@,
        SceneActionKind::RunCommand { .. } => "RunCommand"@,
        SceneActionKind::Navigate { .. } => "Navigate"@,
        SceneActionKind::ExportStoryState { .. } => "ExportStoryState"@,
        SceneActionKind::ImportStoryState { .. } => "ImportStoryState"@,
        SceneActionKind::AdvanceDialogue { .. } => "AdvanceDialogue"@,
        SceneActionKind::Resolve { .. } => "Resolve"@,
    }
}

/// `argv=a b c`, then ` cwd=...` when there is one, then ` target=...`.
pub open spec fn command_detail(argv: Seq<String>, cwd: Option<String>, target: crate::scene_model::RunCommandTarget) -> Seq<char> {
    match cwd {
        Some(c) => "argv="@ + join_seq(views(argv), " "@) + " cwd="@ + c@ + " target="@
            + run_target_text(target),
        None => "argv="@ + join_seq(views(argv), " "@) + " target="@ + run_target_text(target),
    }
}

pub open spec fn kind_detail(k: SceneActionKind) -> Seq<char> {
    match k {
        SceneActionKind::Inspect => "selected entity"@,
        SceneActionKind::OpenFile { path } => "path="@ + path@,
        SceneActionKind::RunCommand { argv, cwd, target } => command_detail(argv@, cwd, target),
        SceneActionKind::Navigate { target } => "target="@ + target@,
        SceneActionKind::ExportStoryState { path } => "path="@ + path@,
        SceneActionKind::ImportStoryState { path } => "path="@ + path@,
        SceneActionKind::AdvanceDialogue { target } => "target="@ + dec(target as nat),
        SceneActionKind::Resolve { operations } => "operations="@ + dec(operations@.len()),
    }
}

pub open spec fn request_name(a: VisualActionRequest) -> Seq<char> {
    match a {
        VisualActionRequest::OpenFile { .. } => "OpenFile"@,
        VisualActionRequest::RunCommand { .. } => "RunCommand"@,
        VisualActionRequest::Navigate { .. } => "Navigate"@,
        VisualActionRequest::ExportStoryState { .. } => "ExportStoryState"@,
        VisualActionRequest::ImportStoryState { .. } => "ImportStoryState"@,
    }
}

pub open spec fn request_detail(a: VisualActionRequest) -> Seq<char> {
    match a {
        VisualActionRequest::OpenFile { path } => "path="@ + path@,
        VisualActionRequest::RunCommand { argv, cwd, target } => command_detail(argv@, cwd, target),
        VisualActionRequest::Navigate { target } => "target="@ + target@,
        VisualActionRequest::ExportStoryState { path } => "path="@ + path@,
        VisualActionRequest::ImportStoryState { path } => "path="@ + path@,
    }
}

pub fn action_kind_name(kind: &SceneActionKind) -> (s: String)
    ensures
        s@ == kind_name(*kind),
{
    String::from_str(
        match kind {
            SceneActionKind::Inspect => "Inspect",
            SceneActionKind::OpenFile { .. } => "OpenFile",
            SceneActionKind::RunCommand { .. } => "RunCommand",
            SceneActionKind::Navigate { .. } => "Navigate",
            SceneActionKind::ExportStoryState { .. } => "ExportStoryState",
            SceneActionKind::ImportStoryState { .. } => "ImportStoryState",
            SceneActionKind::AdvanceDialogue { .. } => "AdvanceDialogue",
            SceneActionKind::Resolve { .. } => "Resolve",
        },
    )
}

fn command_text(argv: &Vec<String>, cwd: &Option<String>, target: crate::scene_model::RunCommandTarget) -> (s: String)
    ensures
        s@ == command_detail(argv@, *cwd, target),
{
    let mut s = String::from_str("argv=");
    let a = join(argv.as_slice(), " ");
    s.append(a.as_str());
    match cwd {
        Some(c) => {
            s.append(" cwd=");
            s.append(c.as_str());
        },
        None => {},
    }
    s.append(" target=");
    s.append(target.as_str());
    s
}

fn prefixed(prefix: &str, rest: &str) -> (s: String)
    ensures
        s@ == prefix@ + rest@,
{
    let mut s = String::from_str(prefix);
    s.append(rest);
    s
}

pub fn action_kind_detail(kind: &SceneActionKind) -> (s: String)
    ensures
        s@ == kind_detail(*kind),
{
    match kind {
        SceneActionKind::Inspect => String::from_str("selected entity"),
        SceneActionKind::OpenFile { path } => prefixed("path=", path.as_str()),
        SceneActionKind::RunCommand { argv, cwd, target } => command_text(argv, cwd, *target),
        SceneActionKind::Navigate { target } => prefixed("target=", target.as_str()),
        SceneActionKind::ExportStoryState { path } => prefixed("path=", path.as_str()),
        SceneActionKind::ImportStoryState { path } => prefixed("path=", path.as_str()),
        SceneActionKind::AdvanceDialogue { target } => {
            let t = usize_text(*target);
            prefixed("target=", t.as_str())
        },
        SceneActionKind::Resolve { operations } => {
            let n = usize_text(operations.len());
            prefixed("operations=", n.as_str())
        },
    }
}

pub fn action_request_name(action: &VisualActionRequest) -> (s: String)
    ensures
        s@ == request_name(*action),
{
    String::from_str(
        match action {
            VisualActionRequest::OpenFile { .. } => "OpenFile",
            VisualActionRequest::RunCommand { .. } => "RunCommand",
            VisualActionRequest::Navigate { .. } => "Navigate",
            VisualActionRequest::ExportStoryState { .. } => "ExportStoryState",
            VisualActionRequest::ImportStoryState { .. } => "ImportStoryState",
        },
    )
}

pub fn action_request_detail(action: &VisualActionRequest) -> (s: String)
    ensures
        s@ == request_detail(*action),
{
    match action {
        VisualActionRequest::OpenFile { path } => prefixed("path=", path.as_str()),
        VisualActionRequest::RunCommand { argv, cwd, target } => command_text(argv, cwd, *target),
        VisualActionRequest::Navigate { target } => prefixed("target=", target.as_str()),
        VisualActionRequest::ExportStoryState { path } => prefixed("path=", path.as_str()),
        VisualActionRequest::ImportStoryState { path } => prefixed("path=", path.as_str()),
    }
}

// ---------------------------------------------------------------- operation summaries

/// `owner:` when the stat has an owner.
pub open spec fn owner_prefix(owner: Option<String>) -> Seq<char> {
    match owner {
        Some(o) => o@ + ":"@,
        None => Seq::empty(),
    }
}

pub open spec fn operation_summary(op: VisualStateOperation) -> Seq<char> {
    match op {
        VisualStateOperation::SetVariable { key, value } => "set "@ + key@ + "="@ + value_text(value),
        VisualStateOperation::SetLayerState { layer_id, state } => "layer "@ + layer_id@ + "->"@ + state@,
        VisualStateOperation::SelectEntity { entity_id } => "select "@ + entity_id@,
        VisualStateOperation::SetEntityFlags { entity_id, flags } => "flags "@ + entity_id@ + "=["@
            + join_seq(views(flags@), ","@) + "]"@,
        VisualStateOperation::SetEntityMetadata { entity_id, metadata } => "metadata "@ + entity_id@
            + "="@ + dec(metadata@.len()) + " pair(s)"@,
        VisualStateOperation::SetEntityVisibility { entity_id, visible } => "visible "@ + entity_id@
            + "="@ + crate::text::bool_text_seq(visible),
        VisualStateOperation::AdvanceDialogueAndSetLayer { target, layer_id, state } => "dialogue "@
            + dec(target as nat) + " + layer "@ + layer_id@ + "->"@ + state@,
        VisualStateOperation::TriggerLayerTransition { layer_id, input } => "transition "@ + layer_id@
            + ":"@ + input@,
        VisualStateOperation::IncrementVariable { key, amount } => "increment "@ + key@ + " by "@
            + int_dec(amount as int),
        VisualStateOperation::ClearVariable { key } => "clear "@ + key@,
        VisualStateOperation::AddInventory { item } => "add inventory "@ + item.item_id@ + " x"@ + dec(
            item.count as nat,
        ),
        VisualStateOperation::RemoveInventory { item_id, count } => "remove inventory "@ + item_id@
            + " x"@ + dec(count as nat),
        VisualStateOperation::SetStat { owner_id, key, value } => "set stat "@ + owner_prefix(owner_id)
            + key@ + "="@ + value_text(value),
        VisualStateOperation::AdjustStat { owner_id, key, amount } => "adjust stat "@ + owner_prefix(
            owner_id,
        ) + key@ + " by "@ + int_dec(amount as int),
        VisualStateOperation::AdvanceQuest { quest_id, stage } => "quest "@ + quest_id@ + " stage "@
            + int_dec(stage as int),
        VisualStateOperation::CompleteQuest { quest_id } => "quest "@ + quest_id@ + " complete"@,
        VisualStateOperation::AppendQuestJournal { quest_id, .. } => "quest "@ + quest_id@ + " journal"@,
        VisualStateOperation::AdjustRelationship { source_id, target_id, kind, amount } => "relationship "@
            + source_id@ + ":"@ + target_id@ + ":"@ + kind@ + " by "@ + int_dec(amount as int),
    }
}

fn append_owner(s: &mut String, owner: &Option<String>)
    ensures
        final(s)@ == old(s)@ + owner_prefix(*owner),
{
    match owner {
        Some(o) => {
            s.append(o.as_str());
            s.append(":");
        },
        None => {
            proof {
                assert(old(s)@ + Seq::<char>::empty() =~= old(s)@);
            }
        },
    }
}

/// A one-line description of a state operation.
pub fn visual_state_operation_summary(operation: &VisualStateOperation) -> (s: String)
    ensures
        s@ == operation_summary(*operation),
{
    match operation {
        VisualStateOperation::SetVariable { key, value } => {
            let mut s = String::from_str("set ");
            s.append(key.as_str());
            s.append("=");
            let v = value.as_debug_string();
            s.append(v.as_str());
            s
        },
        VisualStateOperation::SetLayerState { layer_id, state } => {
            let mut s = String::from_str("layer ");
            s.append(layer_id.as_str());
            s.append("->");
            s.append(state.as_str());
            s
        },
        VisualStateOperation::SelectEntity { entity_id } => prefixed("select ", entity_id.as_str()),
        VisualStateOperation::SetEntityFlags { entity_id, flags } => {
            let mut s = String::from_str("flags ");
            s.append(entity_id.as_str());
            s.append("=[");
            let f = join(flags.as_slice(), ",");
            s.append(f.as_str());
            s.append("]");
            s
        },
        VisualStateOperation::SetEntityMetadata { entity_id, metadata } => {
            let mut s = String::from_str("metadata ");
            s.append(entity_id.as_str());
            s.append("=");
            let n = usize_text(metadata.len());
            s.append(n.as_str());
            s.append(" pair(s)");
            s
        },
        VisualStateOperation::SetEntityVisibility { entity_id, visible } => {
            let mut s = String::from_str("visible ");
            s.append(entity_id.as_str());
            s.append("=");
            let b = bool_text(*visible);
            s.append(b.as_str());
            s
        },
        VisualStateOperation::AdvanceDialogueAndSetLayer { target, layer_id, state } => {
            let mut s = String::from_str("dialogue ");
            let t = usize_text(*target);
            s.append(t.as_str());
            s.append(" + layer ");
            s.append(layer_id.as_str());
            s.append("->");
            s.append(state.as_str());
            s
        },
        VisualStateOperation::TriggerLayerTransition { layer_id, input } => {
            let mut s = String::from_str("transition ");
            s.append(layer_id.as_str());
            s.append(":");
            s.append(input.as_str());
            s
        },
        VisualStateOperation::IncrementVariable { key, amount } => {
            let mut s = String::from_str("increment ");
            s.append(key.as_str());
            s.append(" by ");
            let a = i64_text(*amount);
            s.append(a.as_str());
            s
        },
        VisualStateOperation::ClearVariable { key } => prefixed("clear ", key.as_str()),
        VisualStateOperation::AddInventory { item } => {
            let mut s = String::from_str("add inventory ");
            s.append(item.item_id.as_str());
            s.append(" x");
            let c = u32_text(item.count);
            s.append(c.as_str());
            s
        },
        VisualStateOperation::RemoveInventory { item_id, count } => {
            let mut s = String::from_str("remove inventory ");
            s.append(item_id.as_str());
            s.append(" x");
            let c = u32_text(*count);
            s.append(c.as_str());
            s
        },
        VisualStateOperation::SetStat { owner_id, key, value } => {
            let mut s = String::from_str("set stat ");
            append_owner(&mut s, owner_id);
            s.append(key.as_str());
            s.append("=");
            let v = value.as_debug_string();
            s.append(v.as_str());
            s
        },
        VisualStateOperation::AdjustStat { owner_id, key, amount } => {
            let mut s = String::from_str("adjust stat ");
            append_owner(&mut s, owner_id);
            s.append(key.as_str());
            s.append(" by ");
            let a = i64_text(*amount);
            s.append(a.as_str());
            s
        },
        VisualStateOperation::AdvanceQuest { quest_id, stage } => {
            let mut s = String::from_str("quest ");
            s.append(quest_id.as_str());
            s.append(" stage ");
            let a = i64_text(*stage);
            s.append(a.as_str());
            s
        },
        VisualStateOperation::CompleteQuest { quest_id } => {
            let mut s = String::from_str("quest ");
            s.append(quest_id.as_str());
            s.append(" complete");
            s
        },
        VisualStateOperation::AppendQuestJournal { quest_id, .. } => {
            let mut s = String::from_str("quest ");
            s.append(quest_id.as_str());
            s.append(" journal");
            s
        },
        VisualStateOperation::AdjustRelationship { source_id, target_id, kind, amount } => {
            let mut s = String::from_str("relationship ");
            s.append(source_id.as_str());
            s.append(":");
            s.append(target_id.as_str());
            s.append(":");
            s.append(kind.as_str());
            s.append(" by ");
            let a = i64_text(*amount);
            s.append(a.as_str());
            s
        },
    }
}

/// The summaries of a list of operations, comma separated.
pub open spec fn operations_summary(ops: Seq<VisualStateOperation>) -> Seq<char> {
    join_seq(ops.map_values(|op: VisualStateOperation| operation_summary(op)), ", "@)
}

fn summarize_operations(ops: &Vec<VisualStateOperation>) -> (s: String)
    ensures
        s@ == operations_summary(ops@),
{
    let mut parts: Vec<String> = Vec::new();
    let mut i: usize = 0;
    while i < ops.len()
        invariant
            i <= ops@.len(),
            views(parts@) == ops@.take(i as int).map_values(
                |op: VisualStateOperation| operation_summary(op),
            ),
        decreases ops.len() - i,
    {
        let t = visual_state_operation_summary(&ops[i]);
        let ghost before = parts@;
        let ghost tv = t@;
        parts.push(t);
        proof {
            let f = |op: VisualStateOperation| operation_summary(op);
            assert(views(parts@) =~= views(before).push(tv));
            assert(ops@.take(i + 1).map_values(f) =~= ops@.take(i as int).map_values(f).push(
                operation_summary(ops@[i as int]),
            ));
        }
        i = i + 1;
    }
    proof {
        assert(ops@.take(ops@.len() as int) =~= ops@);
    }
    join(parts.as_slice(), ", ")
}

// ---------------------------------------------------------------- guards

/// `source:variable=value` for one condition (no prefix without a source).
pub open spec fn guard_item(c: VisualCondition) -> Seq<char> {
    match c.source {
        Some(s) => s@ + ":"@ + c.variable@ + "="@ + value_text(c.equals),
        None => c.variable@ + "="@ + value_text(c.equals),
    }
}

/// What a guarded choice requires, or nothing for an unguarded one.
pub open spec fn guard_text(conds: Seq<VisualCondition>) -> Option<Seq<char>> {
    if conds.len() == 0 {
        None
    } else {
        Some("requires "@ + join_seq(conds.map_values(|c: VisualCondition| guard_item(c)), ", "@))
    }
}

pub fn condition_guard_detail(conditions: &Vec<VisualCondition>) -> (r: Option<String>)
    ensures
        match r {
            Some(s) => guard_text(conditions@) == Some(s@),
            None => guard_text(conditions@) is None,
        },
{
    if conditions.len() == 0 {
        return None;
    }
    let mut parts: Vec<String> = Vec::new();
    let mut i: usize = 0;
    while i < conditions.len()
        invariant
            i <= conditions@.len(),
            views(parts@) == conditions@.take(i as int).map_values(
                |c: VisualCondition| guard_item(c),
            ),
        decreases conditions.len() - i,
    {
        let c = &conditions[i];
        let mut t = match &c.source {
            Some(s) => {
                let mut t = String::from_str(s.as_str());
                t.append(":");
                t.append(c.variable.as_str());
                t
            },
            None => String::from_str(c.variable.as_str()),
        };
        t.append("=");
        let v = c.equals.as_debug_string();
        t.append(v.as_str());
        let ghost before = parts@;
        let ghost tv = t@;
        parts.push(t);
        proof {
            let f = |c: VisualCondition| guard_item(c);
            assert(views(parts@) =~= views(before).push(tv));
            assert(conditions@.take(i + 1).map_values(f) =~= conditions@.take(i as int).map_values(
                f,
            ).push(guard_item(conditions@[i as int])));
        }
        i = i + 1;
    }
    proof {
        assert(conditions@.take(conditions@.len() as int) =~= conditions@);
    }
    let j = join(parts.as_slice(), ", ");
    Some(prefixed("requires ", j.as_str()))
}


// ---------------------------------------------------------------- outcomes

/// What activating a choice reports: a status line, possibly a request for
/// the host to carry out, and events for the history.
pub struct SceneActionOutcome {
    pub status: String,
    pub pending_action: Option<VisualActionRequest>,
    pub events: Vec<VisualRuntimeEvent>,
}

impl SceneActionOutcome {
    pub fn status(status: String) -> (o: Self)
        ensures
            o.status == status,
            o.pending_action is None,
            o.events@.len() == 0,
    {
        SceneActionOutcome { status, pending_action: None, events: Vec::new() }
    }

    pub fn pending(status: String, pending_action: VisualActionRequest) -> (o: Self)
        ensures
            o.status == status,
            o.pending_action == Some(pending_action),
            o.events@.len() == 0,
    {
        SceneActionOutcome { status, pending_action: Some(pending_action), events: Vec::new() }
    }

    pub fn with_event(self, kind: String, detail: String) -> (o: Self)
        ensures
            o.status == self.status,
            o.pending_action == self.pending_action,
            o.events@ == self.events@.push(VisualRuntimeEvent { kind, detail }),
    {
        let mut o = self;
        o.events.push(VisualRuntimeEvent { kind, detail });
        o
    }
}

/// The outcome of asking for story state to be written to `path`.
pub fn story_state_export_outcome(path: String) -> (o: SceneActionOutcome)
    ensures
        o.status@ == "ExportStoryState ready: "@ + path@,
        o.pending_action == Some(VisualActionRequest::ExportStoryState { path }),
        o.events@.len() == 0,
{
    let s = prefixed("ExportStoryState ready: ", path.as_str());
    SceneActionOutcome::pending(s, VisualActionRequest::ExportStoryState { path })
}

/// The outcome of asking for story state to be read from `path`.
pub fn story_state_import_outcome(path: String) -> (o: SceneActionOutcome)
    ensures
        o.status@ == "ImportStoryState ready: "@ + path@,
        o.pending_action == Some(VisualActionRequest::ImportStoryState { path }),
        o.events@.len() == 0,
{
    let s = prefixed("ImportStoryState ready: ", path.as_str());
    SceneActionOutcome::pending(s, VisualActionRequest::ImportStoryState { path })
}

pub open spec fn no_events(o: SceneActionOutcome) -> bool {
    o.events@.len() == 0
}

pub open spec fn one_event(o: SceneActionOutcome, kind: Seq<char>, detail: Seq<char>) -> bool {
    &&& o.events@.len() == 1
    &&& o.events@[0].kind@ == kind
    &&& o.events@[0].detail@ == detail
}

/// A story-state or file path as the host should open it: absolute paths
/// and paths with no base directory stay as they are, others are taken
/// relative to the base directory.
pub open spec fn resolved_path(base: Seq<char>, path: Seq<char>) -> Seq<char> {
    if (path.len() > 0 && path[0] == '/') || base.len() == 0 {
        path
    } else if base.last() == '/' {
        base + path
    } else {
        base + "/"@ + path
    }
}

pub open spec fn inspect_status(old: SceneRuntime) -> Seq<char> {
    match selected_of(old.scene, old.selected_entity) {
        Some(e) => "Inspecting "@ + e.label@ + " ("@ + e.id@ + ")"@,
        None => "No entity selected"@,
    }
}

/// What `scene_action_outcome` does for `choice`: the runtime before and
/// after, and the outcome reported.
pub open spec fn outcome_spec(
    old: SceneRuntime,
    new: SceneRuntime,
    choice: SceneAction,
    o: SceneActionOutcome,
) -> bool {
    match choice.kind {
        SceneActionKind::Inspect => {
            &&& new == old
            &&& o.pending_action is None
            &&& no_events(o)
            &&& o.status@ == inspect_status(old)
        },
        SceneActionKind::OpenFile { path } => {
            &&& new == old
            &&& no_events(o)
            &&& o.status@ == "OpenFile ready: "@ + resolved_path(old.action_base_dir@, path@)
            &&& o.pending_action matches Some(VisualActionRequest::OpenFile { path: p })
            &&& p@ == resolved_path(old.action_base_dir@, path@)
        },
        SceneActionKind::RunCommand { argv, cwd, target } => {
            &&& new == old
            &&& no_events(o)
            &&& o.status@ == "RunCommand ready ("@ + run_target_text(target) + "): "@ + join_seq(
                views(argv@),
                " "@,
            )
            &&& o.pending_action matches Some(
                VisualActionRequest::RunCommand { argv: a, cwd: c, target: t },
            )
            &&& a@ == argv@
            &&& c == cwd
            &&& t == target
        },
        SceneActionKind::Navigate { target } => {
            &&& new == old
            &&& no_events(o)
            &&& o.status@ == "Navigate ready: "@ + target@
            &&& o.pending_action matches Some(VisualActionRequest::Navigate { target: t })
            &&& t@ == target@
        },
        SceneActionKind::ExportStoryState { path } => {
            &&& new == old
            &&& no_events(o)
            &&& o.status@ == "ExportStoryState ready: "@ + resolved_path(old.action_base_dir@, path@)
            &&& o.pending_action matches Some(VisualActionRequest::ExportStoryState { path: p })
            &&& p@ == resolved_path(old.action_base_dir@, path@)
        },
        SceneActionKind::ImportStoryState { path } => {
            &&& new == old
            &&& no_events(o)
            &&& o.status@ == "ImportStoryState ready: "@ + resolved_path(old.action_base_dir@, path@)
            &&& o.pending_action matches Some(VisualActionRequest::ImportStoryState { path: p })
            &&& p@ == resolved_path(old.action_base_dir@, path@)
        },
        SceneActionKind::AdvanceDialogue { target } => {
            &&& o.pending_action is None
            &&& new == SceneRuntime {
                dialogue_index: target,
                dialogue_history: new.dialogue_history,
                ..old
            }
            &&& if target < old.scene.dialogue_lines@.len() {
                &&& vm(new.dialogue_history@) == vm(old.dialogue_history@).push(
                    old.scene.dialogue_lines@[target as int]@,
                )
                &&& o.status@ == "Dialogue advanced: "@ + old.scene.dialogue_lines@[target as int].speaker@
                &&& one_event(o, "dialogue"@, "advanced to line "@ + dec(target as nat))
            } else {
                &&& new.dialogue_history == old.dialogue_history
                &&& o.status@ == "Dialogue target missing: "@ + dec(target as nat)
                &&& no_events(o)
            }
        },
        SceneActionKind::Resolve { operations } => {
            &&& o.pending_action is None
            &&& exists|r: Result<usize, VisualSceneError>|
                #![trigger resolve_contract(old, new, choice.label, operations@, r)]
                {
                    &&& resolve_contract(old, new, choice.label, operations@, r)
                    &&& match r {
                        Ok(n) => {
                            &&& o.status@ == "Resolved "@ + dec(n as nat) + " operation(s): "@
                                + choice.label@
                            &&& one_event(
                                o,
                                "state"@,
                                choice.label@ + " resolved "@ + dec(n as nat) + " operation(s): "@
                                    + operations_summary(operations@),
                            )
                        },
                        Err(e) => {
                            &&& o.status@ == "Resolve failed: "@ + scene_error_text(e)
                            &&& one_event(
                                o,
                                "state"@,
                                choice.label@ + " failed: "@ + scene_error_text(e),
                            )
                        },
                    }
                }
        },
    }
}

impl SceneRuntime {
    /// A path named by an action, resolved against the action base directory.
    pub fn resolve_action_path(&self, path: &str) -> (r: String)
        ensures
            r@ == resolved_path(self.action_base_dir@, path@),
    {
        let pc = crate::text::chars_of(path);
        let bc = crate::text::chars_of(self.action_base_dir.as_str());
        if (pc.len() > 0 && pc[0] == '/') || bc.len() == 0 {
            return String::from_str(path);
        }
        let mut s = self.action_base_dir.clone();
        if bc[bc.len() - 1] != '/' {
            s.append("/");
        }
        s.append(path);
        s
    }
}

/// The outcome of activating `choice` (whose guard has passed), with what it
/// does to the runtime: dialogue moves, and resolve actions change the scene
/// state as `apply_state_operations` says.
pub fn scene_action_outcome(runtime: &mut SceneRuntime, choice: &SceneAction) -> (o: SceneActionOutcome)
    ensures
        outcome_spec(*old(runtime), *final(runtime), *choice, o),
{
    match &choice.kind {
        SceneActionKind::Inspect => {
            match runtime.selected_entity() {
                Some(e) => {
                    let mut s = String::from_str("Inspecting ");
                    s.append(e.label.as_str());
                    s.append(" (");
                    s.append(e.id.as_str());
                    s.append(")");
                    SceneActionOutcome::status(s)
                },
                None => SceneActionOutcome::status(String::from_str("No entity selected")),
            }
        },
        SceneActionKind::OpenFile { path } => {
            let p = runtime.resolve_action_path(path.as_str());
            let s = prefixed("OpenFile ready: ", p.as_str());
            SceneActionOutcome::pending(s, VisualActionRequest::OpenFile { path: p })
        },
        SceneActionKind::RunCommand { argv, cwd, target } => {
            let mut s = String::from_str("RunCommand ready (");
            s.append(target.as_str());
            s.append("): ");
            let a = join(argv.as_slice(), " ");
            s.append(a.as_str());
            SceneActionOutcome::pending(
                s,
                VisualActionRequest::RunCommand {
                    argv: copy_strings(argv),
                    cwd: copy_opt(cwd),
                    target: *target,
                },
            )
        },
        SceneActionKind::Navigate { target } => {
            let s = prefixed("Navigate ready: ", target.as_str());
            SceneActionOutcome::pending(s, VisualActionRequest::Navigate { target: target.clone() })
        },
        SceneActionKind::ExportStoryState { path } => {
            let p = runtime.resolve_action_path(path.as_str());
            story_state_export_outcome(p)
        },
        SceneActionKind::ImportStoryState { path } => {
            let p = runtime.resolve_action_path(path.as_str());
            story_state_import_outcome(p)
        },
        SceneActionKind::AdvanceDialogue { target } => {
            runtime.dialogue_index = *target;
            if *target < runtime.scene.dialogue_lines.len() {
                let line = runtime.scene.dialogue_lines[*target].copy();
                let s = prefixed("Dialogue advanced: ", line.speaker.as_str());
                let ghost before = vm(runtime.dialogue_history@);
                let ghost lv = line@;
                runtime.dialogue_history.push(line);
                proof {
                    assert(vm(runtime.dialogue_history@) =~= before.push(lv));
                }
                let t = usize_text(*target);
                let d = prefixed("advanced to line ", t.as_str());
                SceneActionOutcome::status(s).with_event(String::from_str("dialogue"), d)
            } else {
                let t = usize_text(*target);
                SceneActionOutcome::status(prefixed("Dialogue target missing: ", t.as_str()))
            }
        },
        SceneActionKind::Resolve { operations } => {
            let r = runtime.apply_state_operations(&choice.label, operations);
            match r {
                Ok(count) => {
                    let n = usize_text(count);
                    let mut s = String::from_str("Resolved ");
                    s.append(n.as_str());
                    s.append(" operation(s): ");
                    s.append(choice.label.as_str());
                    let summary = summarize_operations(operations);
                    let mut d = choice.label.clone();
                    d.append(" resolved ");
                    d.append(n.as_str());
                    d.append(" operation(s): ");
                    d.append(summary.as_str());
                    let o = SceneActionOutcome::status(s).with_event(String::from_str("state"), d);
                    proof {
                        assert(resolve_contract(*old(runtime), *runtime, choice.label, operations@, r));
                    }
                    o
                },
                Err(e) => {
                    let m = e.message();
                    let s = prefixed("Resolve failed: ", m.as_str());
                    let mut d = choice.label.clone();
                    d.append(" failed: ");
                    d.append(m.as_str());
                    let o = SceneActionOutcome::status(s).with_event(String::from_str("state"), d);
                    proof {
                        assert(resolve_contract(*old(runtime), *runtime, choice.label, operations@, r));
                    }
                    o
                },
            }
        },
    }
}


// ---------------------------------------------------------------- activation

/// `after` shows the outcome: its status and request, its events appended to
/// the history, and one more generation.
pub open spec fn applied(before: SceneRuntime, o: SceneActionOutcome, after: SceneRuntime) -> bool {
    &&& after == SceneRuntime {
        status: o.status,
        pending_action: o.pending_action,
        transition_history: after.transition_history,
        generation: next_generation(before.generation),
        ..before
    }
    &&& after.transition_history@ == before.transition_history@ + o.events@
}

pub open spec fn selected_model(r: SceneRuntime) -> Option<crate::model::EntityModel> {
    match selected_of(r.scene, r.selected_entity) {
        Some(e) => Some(e@),
        None => None,
    }
}

pub open spec fn process_model(r: SceneRuntime) -> Option<crate::model::ProcessModel> {
    match r.last_process_state {
        Some(p) => Some(p@),
        None => None,
    }
}

/// The choice's guard holds in the runtime's current state.
pub open spec fn choice_allowed(r: SceneRuntime, c: SceneAction) -> bool {
    all_conditions_hold(
        vm(c.conditions@),
        vm(r.scene.variables@),
        r.scene.rpg@,
        selected_model(r),
        process_model(r),
    )
}

pub open spec fn unavailable_status(c: SceneAction) -> Seq<char> {
    "Choice unavailable: "@ + match guard_text(c.conditions@) {
        Some(t) => t,
        None => "guard condition not met"@,
    }
}

/// What activating the selected choice does: any pending request is
/// dropped; a choice whose guard fails only reports why; otherwise its
/// outcome is shown.
pub open spec fn activate_spec(old: SceneRuntime, new: SceneRuntime) -> bool {
    let cleared = SceneRuntime { pending_action: None, ..old };
    if old.selected_choice >= old.scene.choices@.len() {
        new == cleared
    } else {
        let c = old.scene.choices@[old.selected_choice as int];
        if !choice_allowed(old, c) {
            &&& new == SceneRuntime {
                status: new.status,
                pending_action: None,
                generation: next_generation(old.generation),
                ..old
            }
            &&& new.status@ == unavailable_status(c)
        } else {
            exists|mid: SceneRuntime, o: SceneActionOutcome|
                #![trigger outcome_spec(cleared, mid, c, o)]
                outcome_spec(cleared, mid, c, o) && applied(mid, o, new)
        }
    }
}

pub open spec fn with_choices(r: SceneRuntime, choices: Vec<SceneAction>) -> SceneRuntime {
    SceneRuntime { scene: VisualScene { choices, ..r.scene }, ..r }
}

/// The outcome of a choice does not depend on the list of choices.
pub proof fn lemma_outcome_ignores_choices(
    a: SceneRuntime,
    b: SceneRuntime,
    c: SceneAction,
    o: SceneActionOutcome,
    choices: Vec<SceneAction>,
)
    requires
        outcome_spec(a, b, c, o),
    ensures
        outcome_spec(with_choices(a, choices), with_choices(b, choices), c, o),
{
    let a2 = with_choices(a, choices);
    let b2 = with_choices(b, choices);
    assert(start_model(a2) == start_model(a));
    assert(start_model(b2) == start_model(b));
    match c.kind {
        SceneActionKind::Resolve { operations } => {
            let r = choose|r: Result<usize, VisualSceneError>|
                #![trigger resolve_contract(a, b, c.label, operations@, r)]
                {
                    &&& resolve_contract(a, b, c.label, operations@, r)
                    &&& match r {
                        Ok(n) => {
                            &&& o.status@ == "Resolved "@ + dec(n as nat) + " operation(s): "@
                                + c.label@
                            &&& one_event(
                                o,
                                "state"@,
                                c.label@ + " resolved "@ + dec(n as nat) + " operation(s): "@
                                    + operations_summary(operations@),
                            )
                        },
                        Err(e) => {
                            &&& o.status@ == "Resolve failed: "@ + scene_error_text(e)
                            &&& one_event(o, "state"@, c.label@ + " failed: "@ + scene_error_text(e))
                        },
                    }
                };
            let ops = operations@;
            let lines = vm(a.scene.dialogue_lines@);
            assert(operations_error(c.label, ops, a2.scene.entities@, a2.scene.dialogue_lines@.len(), a2.scene.layers@)
                == operations_error(c.label, ops, a.scene.entities@, a.scene.dialogue_lines@.len(), a.scene.layers@));
            match operations_error(c.label, ops, a.scene.entities@, a.scene.dialogue_lines@.len(), a.scene.layers@) {
                Some(e) => {
                    assert(b == a);
                    assert(resolve_contract(a2, b2, c.label, operations@, r));
                },
                None => {
                    match run_ops(lines, start_model(a), ops) {
                        Err(f) => {
                            assert(b == a);
                            assert(resolve_contract(a2, b2, c.label, operations@, r));
                        },
                        Ok(w) => {
                            match r {
                                Ok(n) => {
                                    assert(committed(a, b));
                                    assert(committed(a2, b2));
                                    assert(resolve_contract(a2, b2, c.label, operations@, r));
                                },
                                Err(e) => {
                                    assert(b == a);
                                    assert(b2 == a2);
                                    assert(run_ops(vm(a2.scene.dialogue_lines@), start_model(a2), ops) == Ok::<crate::resolve::WorkModel, crate::resolve::StepFailure>(w));
                                    assert(resolve_contract(a2, b2, c.label, operations@, r));
                                },
                            }
                        },
                    }
                },
            }
            assert(resolve_contract(a2, b2, c.label, operations@, r));
        },
        _ => {},
    }
}

impl SceneRuntime {
    /// Shows an outcome: its status and request, its events recorded.
    pub fn apply_action_outcome(&mut self, outcome: SceneActionOutcome)
        ensures
            applied(*old(self), outcome, *final(self)),
    {
        let SceneActionOutcome { status, pending_action, events } = outcome;
        self.status = status;
        self.pending_action = pending_action;
        let ghost mid = *self;
        let mut i: usize = 0;
        while i < events.len()
            invariant
                i <= events@.len(),
                *self == (SceneRuntime { transition_history: self.transition_history, ..mid }),
                self.transition_history@ == mid.transition_history@ + events@.take(i as int),
            decreases events.len() - i,
        {
            let e = VisualRuntimeEvent {
                kind: events[i].kind.clone(),
                detail: events[i].detail.clone(),
            };
            self.record_runtime_event(events[i].kind.clone(), events[i].detail.clone());
            proof {
                assert(events@.take(i + 1) =~= events@.take(i as int).push(events@[i as int]));
                assert(self.transition_history@ =~= mid.transition_history@ + events@.take(i + 1));
            }
            i = i + 1;
        }
        proof {
            assert(events@.take(events@.len() as int) =~= events@);
        }
        self.bump_generation();
    }

    /// Activates the selected choice (see `activate_spec`).
    pub fn activate_choice(&mut self)
        ensures
            activate_spec(*old(self), *final(self)),
    {
        self.pending_action = None;
        if self.selected_choice >= self.scene.choices.len() {
            return;
        }
        let sc = self.selected_choice;
        let allowed = conditions_match(
            self.scene.choices[sc].conditions.as_slice(),
            self.scene.variables.as_slice(),
            &self.scene.rpg,
            self.selected_entity(),
            self.last_process_state.as_ref(),
        );
        if !allowed {
            let detail = condition_guard_detail(&self.scene.choices[sc].conditions);
            let mut s = String::from_str("Choice unavailable: ");
            match detail {
                Some(d) => s.append(d.as_str()),
                None => s.append("guard condition not met"),
            }
            self.status = s;
            self.bump_generation();
            return;
        }
        let ghost cleared = *self;
        let ghost chosen = self.scene.choices@[sc as int];
        let mut choices: Vec<SceneAction> = Vec::new();
        std::mem::swap(&mut choices, &mut self.scene.choices);
        let ghost a = *self;
        let outcome = scene_action_outcome(self, &choices[sc]);
        let ghost b = *self;
        std::mem::swap(&mut choices, &mut self.scene.choices);
        proof {
            lemma_outcome_ignores_choices(a, b, chosen, outcome, cleared.scene.choices);
            assert(with_choices(a, cleared.scene.choices) == cleared);
            assert(*self == with_choices(b, cleared.scene.choices));
        }
        self.apply_action_outcome(outcome);
    }
}

} // verus!
