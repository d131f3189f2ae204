//! Guard conditions on choices, input bindings and layer transitions.

use vstd::prelude::*;

use crate::model::{
    om, pm, vm, ConditionModel, EntityModel, EntryModel, ItemModel, ProcessModel, QuestModel,
    RpgModel, StatModel, ValueModel,
};
use crate::scene_model::{
    phase_text, same_value, VisualCondition, VisualEntity, VisualInventoryItem,
    VisualProcessState, VisualQuest, VisualRpgState, VisualStat, VisualStateEntry,
    VisualStateValue,
};
use crate::validation::opt_string_eq;
use crate::text::{
    chars_of, dec, int_dec, join, join_seq, str_equal, string_from_chars, views,
};

verus! {

pub open spec fn opt_model(v: Option<VisualStateValue>) -> Option<ValueModel> {
    match v {
        Some(x) => Some(x@),
        None => None,
    }
}

pub open spec fn opt_entity(e: Option<&VisualEntity>) -> Option<EntityModel> {
    match e {
        Some(x) => Some(x@),
        None => None,
    }
}

pub open spec fn opt_process(p: Option<&VisualProcessState>) -> Option<ProcessModel> {
    match p {
        Some(x) => Some(x@),
        None => None,
    }
}

/// Index of the first element satisfying `p` at or after `i`, or `s.len()`.
pub open spec fn first_from<T>(s: Seq<T>, p: spec_fn(T) -> bool, i: int) -> int
    decreases s.len() - i,
{
    if i < 0 || i >= s.len() {
        s.len() as int
    } else if p(s[i]) {
        i
    } else {
        first_from(s, p, i + 1)
    }
}

/// Index of the first element satisfying `p`, or `s.len()` when none does.
pub open spec fn first_index<T>(s: Seq<T>, p: spec_fn(T) -> bool) -> int {
    first_from(s, p, 0)
}

pub proof fn lemma_first_from<T>(s: Seq<T>, p: spec_fn(T) -> bool, i: int)
    requires
        0 <= i <= s.len(),
    ensures
        i <= first_from(s, p, i) <= s.len(),
        forall|k: int| i <= k < first_from(s, p, i) ==> !p(#[trigger] s[k]),
        first_from(s, p, i) < s.len() ==> p(s[first_from(s, p, i)]),
    decreases s.len() - i,
{
    if i < s.len() && !p(s[i]) {
        lemma_first_from(s, p, i + 1);
    }
}

pub proof fn lemma_first_index<T>(s: Seq<T>, p: spec_fn(T) -> bool)
    ensures
        0 <= first_index(s, p) <= s.len(),
        forall|k: int| 0 <= k < first_index(s, p) ==> !p(#[trigger] s[k]),
        first_index(s, p) < s.len() ==> p(s[first_index(s, p)]),
{
    lemma_first_from(s, p, 0);
}

pub open spec fn key_is(key: Seq<char>) -> spec_fn(EntryModel) -> bool {
    |e: EntryModel| e.key == key
}

pub open spec fn item_is(id: Seq<char>) -> spec_fn(ItemModel) -> bool {
    |e: ItemModel| e.item_id == id
}

pub open spec fn quest_is(id: Seq<char>) -> spec_fn(QuestModel) -> bool {
    |e: QuestModel| e.quest_id == id
}

/// The value of the first variable with this key.
pub open spec fn variable_value(vars: Seq<EntryModel>, key: Seq<char>) -> Option<ValueModel> {
    let i = first_index(vars, key_is(key));
    if i < vars.len() {
        Some(vars[i].value)
    } else {
        None
    }
}

pub open spec fn is_colon(c: char) -> bool {
    c == ':'
}

/// `variable.split_once(':')`, as (owner, key).
pub open spec fn stat_ref(v: Seq<char>) -> (Option<Seq<char>>, Seq<char>) {
    let k = first_index(v, |c: char| is_colon(c));
    if k < v.len() {
        (Some(v.subrange(0, k)), v.subrange(k + 1, v.len() as int))
    } else {
        (None, v)
    }
}

pub open spec fn stat_is(owner: Option<Seq<char>>, key: Seq<char>) -> spec_fn(StatModel) -> bool {
    |s: StatModel| s.owner_id == owner && s.key == key
}

pub open spec fn flag_is(f: Seq<char>) -> spec_fn(Seq<char>) -> bool {
    |s: Seq<char>| s == f
}

pub open spec fn meta_key_is(k: Seq<char>) -> spec_fn((Seq<char>, Seq<char>)) -> bool {
    |m: (Seq<char>, Seq<char>)| m.0 == k
}

pub open spec fn source_of(c: ConditionModel) -> Seq<char> {
    match c.source {
        Some(s) => s,
        None => "variable"@,
    }
}

/// What a condition reads, by its source; `None` when there is nothing to
/// read (an unknown source, a missing entry, no selected entity).
pub open spec fn condition_value_spec(
    c: ConditionModel,
    vars: Seq<EntryModel>,
    rpg: RpgModel,
    selected: Option<EntityModel>,
    process: Option<ProcessModel>,
) -> Option<ValueModel> {
    let src = source_of(c);
    let v = c.variable;
    if src == "variable"@ {
        variable_value(vars, v)
    } else if src == "inventory_count"@ {
        let i = first_index(rpg.inventory, item_is(v));
        if i < rpg.inventory.len() {
            Some(ValueModel::Number(rpg.inventory[i].count as i64))
        } else {
            None
        }
    } else if src == "inventory_has"@ {
        let i = first_index(rpg.inventory, item_is(v));
        if i < rpg.inventory.len() {
            Some(ValueModel::Bool(rpg.inventory[i].count > 0))
        } else {
            Some(ValueModel::Bool(false))
        }
    } else if src == "quest_stage"@ {
        let i = first_index(rpg.quests, quest_is(v));
        if i < rpg.quests.len() {
            Some(ValueModel::Number(rpg.quests[i].stage))
        } else {
            None
        }
    } else if src == "quest_completed"@ {
        let i = first_index(rpg.quests, quest_is(v));
        if i < rpg.quests.len() {
            Some(ValueModel::Bool(rpg.quests[i].completed))
        } else {
            None
        }
    } else if src == "stat"@ {
        let (owner, key) = stat_ref(v);
        let i = first_index(rpg.stats, stat_is(owner, key));
        if i < rpg.stats.len() {
            Some(rpg.stats[i].value)
        } else {
            None
        }
    } else if src == "agent_phase"@ {
        variable_value(vars, "agent_phase"@)
    } else if src == "process_phase"@ {
        match process {
            Some(p) => Some(ValueModel::Text(phase_text(p.phase))),
            None => variable_value(vars, "agent_process_phase"@),
        }
    } else if src == "selected_entity_flag"@ {
        match selected {
            Some(e) => Some(
                ValueModel::Bool(first_index(e.state_flags, flag_is(v)) < e.state_flags.len()),
            ),
            None => None,
        }
    } else if src == "selected_entity_metadata"@ {
        match selected {
            Some(e) => {
                let i = first_index(e.metadata, meta_key_is(v));
                if i < e.metadata.len() {
                    Some(ValueModel::Text(e.metadata[i].1))
                } else {
                    None
                }
            },
            None => None,
        }
    } else {
        None
    }
}

/// One condition holds: what it reads is present and equal to what it
/// expects.
pub open spec fn condition_holds(
    c: ConditionModel,
    vars: Seq<EntryModel>,
    rpg: RpgModel,
    selected: Option<EntityModel>,
    process: Option<ProcessModel>,
) -> bool {
    condition_value_spec(c, vars, rpg, selected, process) == Some(c.equals)
}

/// Every condition holds.
pub open spec fn all_conditions_hold(
    conds: Seq<ConditionModel>,
    vars: Seq<EntryModel>,
    rpg: RpgModel,
    selected: Option<EntityModel>,
    process: Option<ProcessModel>,
) -> bool {
    forall|i: int|
        0 <= i < conds.len() ==> condition_holds(#[trigger] conds[i], vars, rpg, selected, process)
}

pub fn find_variable(vars: &[VisualStateEntry], key: &str) -> (r: Option<usize>)
    ensures
        r matches Some(i) ==> i == first_index(vm(vars@), key_is(key@)) && i < vars@.len(),
        r is None ==> first_index(vm(vars@), key_is(key@)) == vars@.len(),
{
    let ghost m = vm(vars@);
    let mut i: usize = 0;
    while i < vars.len()
        invariant
            i <= vars@.len(),
            m == vm(vars@),
            first_from(m, key_is(key@), i as int) == first_index(m, key_is(key@)),
        decreases vars.len() - i,
    {
        if str_equal(vars[i].key.as_str(), key) {
            return Some(i);
        }
        i = i + 1;
    }
    None
}

pub fn find_item(items: &Vec<VisualInventoryItem>, id: &str) -> (r: Option<usize>)
    ensures
        r matches Some(i) ==> i == first_index(vm(items@), item_is(id@)) && i < items@.len(),
        r is None ==> first_index(vm(items@), item_is(id@)) == items@.len(),
{
    let ghost m = vm(items@);
    let mut i: usize = 0;
    while i < items.len()
        invariant
            i <= items@.len(),
            m == vm(items@),
            first_from(m, item_is(id@), i as int) == first_index(m, item_is(id@)),
        decreases items.len() - i,
    {
        if str_equal(items[i].item_id.as_str(), id) {
            return Some(i);
        }
        i = i + 1;
    }
    None
}

pub fn find_quest(quests: &Vec<VisualQuest>, id: &str) -> (r: Option<usize>)
    ensures
        r matches Some(i) ==> i == first_index(vm(quests@), quest_is(id@)) && i < quests@.len(),
        r is None ==> first_index(vm(quests@), quest_is(id@)) == quests@.len(),
{
    let ghost m = vm(quests@);
    let mut i: usize = 0;
    while i < quests.len()
        invariant
            i <= quests@.len(),
            m == vm(quests@),
            first_from(m, quest_is(id@), i as int) == first_index(m, quest_is(id@)),
        decreases quests.len() - i,
    {
        if str_equal(quests[i].quest_id.as_str(), id) {
            return Some(i);
        }
        i = i + 1;
    }
    None
}

/// `variable.split_once(':')`.
fn split_stat_ref(v: &str) -> (r: (Option<String>, String))
    ensures
        om(r.0) == stat_ref(v@).0,
        r.1@ == stat_ref(v@).1,
{
    let cs = chars_of(v);
    let ghost p = |c: char| is_colon(c);
    let mut i: usize = 0;
    while i < cs.len()
        invariant
            cs@ == v@,
            i <= cs@.len(),
            first_from(v@, p, i as int) == first_index(v@, p),
            p == (|c: char| is_colon(c)),
        decreases cs.len() - i,
    {
        if cs[i] == ':' {
            let mut before: Vec<char> = Vec::new();
            let mut j: usize = 0;
            while j < i
                invariant
                    cs@ == v@,
                    j <= i < cs@.len(),
                    before@ == cs@.subrange(0, j as int),
                decreases i - j,
            {
                before.push(cs[j]);
                j = j + 1;
            }
            let mut after: Vec<char> = Vec::new();
            let mut k: usize = i + 1;
            while k < cs.len()
                invariant
                    cs@ == v@,
                    i < k <= cs@.len(),
                    after@ == cs@.subrange(i + 1, k as int),
                decreases cs.len() - k,
            {
                after.push(cs[k]);
                k = k + 1;
            }
            return (Some(string_from_chars(before.as_slice())), string_from_chars(after.as_slice()));
        }
        i = i + 1;
    }
    (None, string_from_chars(cs.as_slice()))
}

pub fn find_stat(stats: &Vec<VisualStat>, owner: &Option<String>, key: &str) -> (r: Option<usize>)
    ensures
        r matches Some(i) ==> i == first_index(vm(stats@), stat_is(om(*owner), key@)) && i
            < stats@.len(),
        r is None ==> first_index(vm(stats@), stat_is(om(*owner), key@)) == stats@.len(),
{
    let ghost m = vm(stats@);
    let ghost p = stat_is(om(*owner), key@);
    let mut i: usize = 0;
    while i < stats.len()
        invariant
            i <= stats@.len(),
            m == vm(stats@),
            p == stat_is(om(*owner), key@),
            first_from(m, p, i as int) == first_index(m, p),
        decreases stats.len() - i,
    {
        if opt_string_eq(&stats[i].owner_id, owner) && str_equal(stats[i].key.as_str(), key) {
            return Some(i);
        }
        i = i + 1;
    }
    None
}

/// What a condition reads from the scene state, by its source.
#[verifier::loop_isolation(false)]
pub fn condition_value(
    c: &VisualCondition,
    vars: &[VisualStateEntry],
    rpg: &VisualRpgState,
    selected: Option<&VisualEntity>,
    process: Option<&VisualProcessState>,
) -> (r: Option<VisualStateValue>)
    ensures
        opt_model(r) == condition_value_spec(
            c@,
            vm(vars@),
            rpg@,
            opt_entity(selected),
            opt_process(process),
        ),
{
    let src: &str = match &c.source {
        Some(s) => s.as_str(),
        None => "variable",
    };
    let v = c.variable.as_str();
    if str_equal(src, "variable") {
        match find_variable(vars, v) {
            Some(i) => Some(vars[i].value.duplicate()),
            None => None,
        }
    } else if str_equal(src, "inventory_count") {
        match find_item(&rpg.inventory, v) {
            Some(i) => Some(VisualStateValue::Number(rpg.inventory[i].count as i64)),
            None => None,
        }
    } else if str_equal(src, "inventory_has") {
        match find_item(&rpg.inventory, v) {
            Some(i) => Some(VisualStateValue::Bool(rpg.inventory[i].count > 0)),
            None => Some(VisualStateValue::Bool(false)),
        }
    } else if str_equal(src, "quest_stage") {
        match find_quest(&rpg.quests, v) {
            Some(i) => Some(VisualStateValue::Number(rpg.quests[i].stage)),
            None => None,
        }
    } else if str_equal(src, "quest_completed") {
        match find_quest(&rpg.quests, v) {
            Some(i) => Some(VisualStateValue::Bool(rpg.quests[i].completed)),
            None => None,
        }
    } else if str_equal(src, "stat") {
        let (owner, key) = split_stat_ref(v);
        match find_stat(&rpg.stats, &owner, key.as_str()) {
            Some(i) => Some(rpg.stats[i].value.duplicate()),
            None => None,
        }
    } else if str_equal(src, "agent_phase") {
        match find_variable(vars, "agent_phase") {
            Some(i) => Some(vars[i].value.duplicate()),
            None => None,
        }
    } else if str_equal(src, "process_phase") {
        match process {
            Some(p) => Some(VisualStateValue::Text(String::from_str(p.phase.as_str()))),
            None => match find_variable(vars, "agent_process_phase") {
                Some(i) => Some(vars[i].value.duplicate()),
                None => None,
            },
        }
    } else if str_equal(src, "selected_entity_flag") {
        match selected {
            Some(e) => {
                let ghost m = vm(e.state_flags@);
                let ghost p = flag_is(v@);
                let mut i: usize = 0;
                while i < e.state_flags.len()
                    invariant
                        i <= e.state_flags@.len(),
                        m == vm(e.state_flags@),
                        p == flag_is(v@),
                        first_from(m, p, i as int) == first_index(m, p),
                    decreases e.state_flags.len() - i,
                {
                    if str_equal(e.state_flags[i].as_str(), v) {
                        return Some(VisualStateValue::Bool(true));
                    }
                    i = i + 1;
                }
                Some(VisualStateValue::Bool(false))
            },
            None => None,
        }
    } else if str_equal(src, "selected_entity_metadata") {
        match selected {
            Some(e) => {
                let ghost m = pm(e.metadata@);
                let ghost p = meta_key_is(v@);
                let mut i: usize = 0;
                while i < e.metadata.len()
                    invariant
                        i <= e.metadata@.len(),
                        m == pm(e.metadata@),
                        p == meta_key_is(v@),
                        first_from(m, p, i as int) == first_index(m, p),
                    decreases e.metadata.len() - i,
                {
                    if str_equal(e.metadata[i].0.as_str(), v) {
                        return Some(VisualStateValue::Text(e.metadata[i].1.clone()));
                    }
                    i = i + 1;
                }
                None
            },
            None => None,
        }
    } else {
        None
    }
}

/// All conditions hold against the scene state.
pub fn conditions_match(
    conditions: &[VisualCondition],
    vars: &[VisualStateEntry],
    rpg: &VisualRpgState,
    selected: Option<&VisualEntity>,
    process: Option<&VisualProcessState>,
) -> (b: bool)
    ensures
        b == all_conditions_hold(
            vm(conditions@),
            vm(vars@),
            rpg@,
            opt_entity(selected),
            opt_process(process),
        ),
{
    let ghost cm = vm(conditions@);
    let mut i: usize = 0;
    while i < conditions.len()
        invariant
            i <= conditions@.len(),
            cm == vm(conditions@),
            forall|k: int|
                0 <= k < i ==> condition_holds(
                    #[trigger] cm[k],
                    vm(vars@),
                    rpg@,
                    opt_entity(selected),
                    opt_process(process),
                ),
        decreases conditions.len() - i,
    {
        let holds = match condition_value(&conditions[i], vars, rpg, selected, process) {
            Some(value) => value.same_as(&conditions[i].equals),
            None => false,
        };
        proof {
            assert(cm[i as int] == conditions@[i as int]@);
            assert forall|a: VisualStateValue, b: VisualStateValue|
                same_value(a, b) == (a@ == b@) by {
                lemma_same_value_model(a, b);
            }
        }
        if !holds {
            return false;
        }
        i = i + 1;
    }
    true
}

pub proof fn lemma_same_value_model(a: VisualStateValue, b: VisualStateValue)
    ensures
        same_value(a, b) == (a@ == b@),
{
}

/// The sources a condition can read.
pub open spec fn known_source(src: Seq<char>) -> bool {
    src == "variable"@ || src == "inventory_count"@ || src == "inventory_has"@ || src == "quest_stage"@
        || src == "quest_completed"@ || src == "stat"@ || src == "agent_phase"@ || src == "process_phase"@
        || src == "selected_entity_flag"@ || src == "selected_entity_metadata"@
}

/// No conditions always hold; a condition with a source it cannot read
/// never holds; and an item the inventory lacks counts as not held, so
/// `inventory_has` of it holds exactly when the condition expects `false`.
pub proof fn law_condition_sources(
    conds: Seq<ConditionModel>,
    c: ConditionModel,
    vars: Seq<EntryModel>,
    rpg: RpgModel,
    selected: Option<EntityModel>,
    process: Option<ProcessModel>,
)
    ensures
        conds.len() == 0 ==> all_conditions_hold(conds, vars, rpg, selected, process),
        !known_source(source_of(c)) ==> !condition_holds(c, vars, rpg, selected, process),
        source_of(c) == "inventory_has"@ && first_index(rpg.inventory, item_is(c.variable)) >= rpg.inventory.len()
            ==> (condition_holds(c, vars, rpg, selected, process) <==> c.equals == ValueModel::Bool(false)),
{
    reveal_strlit("inventory_has");
    reveal_strlit("variable");
    reveal_strlit("inventory_count");
    assert("inventory_has"@ != "variable"@ && "inventory_has"@ != "inventory_count"@) by {
        assert("inventory_has"@[0] != "variable"@[0]);
        assert("inventory_has"@.len() != "inventory_count"@.len());
    }
}

/// Conditions on the role-playing state read the entry they name: an
/// item's count, whether it is held (a positive count), a quest's stage, or
/// whether a quest is completed; so a completed quest satisfies a condition
/// expecting `true` and an unfinished one a condition expecting `false`.
pub proof fn law_conditions_read_the_named_entry(
    c: ConditionModel,
    vars: Seq<EntryModel>,
    rpg: RpgModel,
    selected: Option<EntityModel>,
    process: Option<ProcessModel>,
)
    ensures
        ({
            let i = first_index(rpg.inventory, item_is(c.variable));
            let q = first_index(rpg.quests, quest_is(c.variable));
            let v = condition_value_spec(c, vars, rpg, selected, process);
            &&& source_of(c) == "inventory_count"@ && 0 <= i < rpg.inventory.len() ==> v == Some(
                ValueModel::Number(rpg.inventory[i].count as i64),
            )
            &&& source_of(c) == "inventory_has"@ && 0 <= i < rpg.inventory.len() ==> v == Some(
                ValueModel::Bool(rpg.inventory[i].count > 0),
            )
            &&& source_of(c) == "quest_stage"@ && 0 <= q < rpg.quests.len() ==> v == Some(
                ValueModel::Number(rpg.quests[q].stage),
            )
            &&& source_of(c) == "quest_completed"@ && 0 <= q < rpg.quests.len() ==> {
                &&& v == Some(ValueModel::Bool(rpg.quests[q].completed))
                &&& (condition_holds(c, vars, rpg, selected, process) <==> c.equals == ValueModel::Bool(
                    rpg.quests[q].completed,
                ))
            }
        }),
{
    reveal_strlit("variable");
    reveal_strlit("inventory_count");
    reveal_strlit("inventory_has");
    reveal_strlit("quest_stage");
    reveal_strlit("quest_completed");
    assert("inventory_count"@ != "variable"@) by {
        assert("inventory_count"@[0] != "variable"@[0]);
    }
    assert("inventory_has"@ != "variable"@ && "inventory_has"@ != "inventory_count"@) by {
        assert("inventory_has"@[0] != "variable"@[0]);
        assert("inventory_has"@.len() != "inventory_count"@.len());
    }
    assert("quest_stage"@ != "variable"@ && "quest_stage"@ != "inventory_count"@ && "quest_stage"@ != "inventory_has"@)
        by {
        assert("quest_stage"@[0] != "variable"@[0]);
        assert("quest_stage"@[0] != "inventory_count"@[0]);
        assert("quest_stage"@[0] != "inventory_has"@[0]);
    }
    assert("quest_completed"@ != "variable"@ && "quest_completed"@ != "inventory_count"@ && "quest_completed"@
        != "inventory_has"@ && "quest_completed"@ != "quest_stage"@) by {
        assert("quest_completed"@[0] != "variable"@[0]);
        assert("quest_completed"@[0] != "inventory_count"@[0]);
        assert("quest_completed"@[0] != "inventory_has"@[0]);
        assert("quest_completed"@.len() != "quest_stage"@.len());
    }
}

} // verus!
