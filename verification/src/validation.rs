//! Validation of state entries, dialogue lines, RPG state, layers and
//! resolve operations. Each validator reports the first problem in list
//! order, as a `first_some` over per-index checks.

use vstd::prelude::*;

use crate::scene_errors::{
    first_some, VisualDialogueLineError, VisualSceneError, VisualStateEntryError,
};
use crate::scene_model::{
    VisualDialogueLine, VisualEntity, VisualInventoryItem, VisualQuest, VisualRelationship,
    VisualRpgState, VisualStat, VisualStateEntry, VisualStateOperation,
};
use crate::schema::{VisualInputBinding, VisualLayerState, VisualLayerTransition};
use crate::scene_model::VisualCondition;
use crate::text::{blank, is_blank, str_equal, trim, trim_seq};

verus! {

/// An optional string by its characters.
pub open spec fn opt_str(o: Option<String>) -> Option<Seq<char>> {
    match o {
        Some(s) => Some(s@),
        None => None,
    }
}

/// `==` on two optional strings.
pub fn opt_string_eq(a: &Option<String>, b: &Option<String>) -> (r: bool)
    ensures
        r == (opt_str(*a) == opt_str(*b)),
{
    match (a, b) {
        (Some(x), Some(y)) => *x == *y,
        (None, None) => true,
        _ => false,
    }
}

// ---------------------------------------------------------------- entries

pub open spec fn entry_error_at(entries: Seq<VisualStateEntry>, i: int) -> Option<
    VisualStateEntryError,
> {
    if blank(entries[i].key@) {
        Some(VisualStateEntryError::EmptyKey)
    } else if exists|j: int| 0 <= j < i && #[trigger] entries[j].key@ == entries[i].key@ {
        Some(VisualStateEntryError::DuplicateKey(entries[i].key))
    } else {
        None
    }
}

pub open spec fn entry_errors(entries: Seq<VisualStateEntry>) -> spec_fn(int) -> Option<
    VisualStateEntryError,
> {
    |i: int| entry_error_at(entries, i)
}

pub open spec fn state_entries_error(entries: Seq<VisualStateEntry>) -> Option<
    VisualStateEntryError,
> {
    first_some(entry_errors(entries), entries.len() as int)
}

/// Index of an earlier entry with the same key, if any.
fn earlier_key(entries: &[VisualStateEntry], i: usize) -> (r: bool)
    requires
        i < entries@.len(),
    ensures
        r == exists|j: int| 0 <= j < i && #[trigger] entries@[j].key@ == entries@[i as int].key@,
{
    let mut j: usize = 0;
    while j < i
        invariant
            i < entries@.len(),
            j <= i,
            forall|k: int| 0 <= k < j ==> #[trigger] entries@[k].key@ != entries@[i as int].key@,
        decreases i - j,
    {
        if entries[j].key == entries[i].key {
            return true;
        }
        j = j + 1;
    }
    false
}

/// State variables have non-blank, distinct keys.
pub fn validate_state_entries(entries: &[VisualStateEntry]) -> (r: Result<(), VisualStateEntryError>)
    ensures
        r == (match state_entries_error(entries@) {
            Some(e) => Err(e),
            None => Ok(()),
        }),
{
    let mut i: usize = 0;
    while i < entries.len()
        invariant
            i <= entries@.len(),
            first_some(entry_errors(entries@), i as int) is None,
        decreases entries.len() - i,
    {
        if is_blank(entries[i].key.as_str()) {
            proof { crate::scene_errors::lemma_first_some_at(entry_errors(entries@), i as int, entries@.len() as int); }
            return Err(VisualStateEntryError::EmptyKey);
        }
        if earlier_key(entries, i) {
            proof { crate::scene_errors::lemma_first_some_at(entry_errors(entries@), i as int, entries@.len() as int); }
            return Err(VisualStateEntryError::DuplicateKey(entries[i].key.clone()));
        }
        i = i + 1;
    }
    Ok(())
}

// ---------------------------------------------------------------- dialogue

pub open spec fn dialogue_error_at(lines: Seq<VisualDialogueLine>, i: int) -> Option<
    VisualDialogueLineError,
> {
    if blank(lines[i].speaker@) {
        Some(VisualDialogueLineError::EmptySpeaker { index: i as usize })
    } else if blank(lines[i].text@) {
        Some(VisualDialogueLineError::EmptyText { index: i as usize })
    } else {
        None
    }
}

pub open spec fn dialogue_errors(lines: Seq<VisualDialogueLine>) -> spec_fn(int) -> Option<
    VisualDialogueLineError,
> {
    |i: int| dialogue_error_at(lines, i)
}

pub open spec fn dialogue_lines_error(lines: Seq<VisualDialogueLine>) -> Option<
    VisualDialogueLineError,
> {
    first_some(dialogue_errors(lines), lines.len() as int)
}

/// Every dialogue line has a non-blank speaker and text.
pub fn validate_dialogue_lines(lines: &[VisualDialogueLine]) -> (r: Result<(), VisualDialogueLineError>)
    ensures
        r == (match dialogue_lines_error(lines@) {
            Some(e) => Err(e),
            None => Ok(()),
        }),
{
    let mut i: usize = 0;
    while i < lines.len()
        invariant
            i <= lines@.len(),
            first_some(dialogue_errors(lines@), i as int) is None,
        decreases lines.len() - i,
    {
        if is_blank(lines[i].speaker.as_str()) {
            proof { crate::scene_errors::lemma_first_some_at(dialogue_errors(lines@), i as int, lines@.len() as int); }
            return Err(VisualDialogueLineError::EmptySpeaker { index: i });
        }
        if is_blank(lines[i].text.as_str()) {
            proof { crate::scene_errors::lemma_first_some_at(dialogue_errors(lines@), i as int, lines@.len() as int); }
            return Err(VisualDialogueLineError::EmptyText { index: i });
        }
        i = i + 1;
    }
    Ok(())
}

// ---------------------------------------------------------------- rpg

/// The identity of a relationship: `source:target:kind`.
pub open spec fn relationship_key_seq(source: Seq<char>, target: Seq<char>, kind: Seq<char>) -> Seq<
    char,
> {
    source + ":"@ + target + ":"@ + kind
}

pub fn relationship_key(source: &str, target: &str, kind: &str) -> (r: String)
    ensures
        r@ == relationship_key_seq(source@, target@, kind@),
{
    let mut s = String::from_str(source);
    s.append(":");
    s.append(target);
    s.append(":");
    s.append(kind);
    s
}

pub open spec fn inventory_error_at(items: Seq<VisualInventoryItem>, i: int) -> Option<
    VisualSceneError,
> {
    if blank(items[i].item_id@) {
        Some(VisualSceneError::EmptyInventoryItemId)
    } else if blank(items[i].label@) {
        Some(VisualSceneError::EmptyInventoryLabel { item_id: items[i].item_id })
    } else if exists|j: int| 0 <= j < i && #[trigger] items[j].item_id@ == items[i].item_id@ {
        Some(VisualSceneError::DuplicateInventoryItemId(items[i].item_id))
    } else {
        None
    }
}

pub open spec fn inventory_errors(items: Seq<VisualInventoryItem>) -> spec_fn(int) -> Option<
    VisualSceneError,
> {
    |i: int| inventory_error_at(items, i)
}

pub open spec fn stat_error_at(stats: Seq<VisualStat>, i: int) -> Option<VisualSceneError> {
    if blank(stats[i].key@) {
        Some(VisualSceneError::EmptyStatKey)
    } else if (match stats[i].owner_id {
        Some(o) => blank(o@),
        None => false,
    }) {
        Some(VisualSceneError::EmptyStatOwnerId)
    } else if exists|j: int|
        0 <= j < i && #[trigger] stats[j].key@ == stats[i].key@ && opt_str(stats[j].owner_id)
            == opt_str(stats[i].owner_id) {
        Some(VisualSceneError::DuplicateStatKey(stats[i].key))
    } else {
        None
    }
}

pub open spec fn stat_errors(stats: Seq<VisualStat>) -> spec_fn(int) -> Option<VisualSceneError> {
    |i: int| stat_error_at(stats, i)
}

pub open spec fn quest_error_at(quests: Seq<VisualQuest>, i: int) -> Option<VisualSceneError> {
    if blank(quests[i].quest_id@) {
        Some(VisualSceneError::EmptyQuestId)
    } else if blank(quests[i].label@) {
        Some(VisualSceneError::EmptyQuestLabel { quest_id: quests[i].quest_id })
    } else if exists|j: int| 0 <= j < i && #[trigger] quests[j].quest_id@ == quests[i].quest_id@ {
        Some(VisualSceneError::DuplicateQuestId(quests[i].quest_id))
    } else {
        None
    }
}

pub open spec fn quest_errors(quests: Seq<VisualQuest>) -> spec_fn(int) -> Option<VisualSceneError> {
    |i: int| quest_error_at(quests, i)
}

pub open spec fn same_relationship(a: VisualRelationship, b: VisualRelationship) -> bool {
    a.source_id@ == b.source_id@ && a.target_id@ == b.target_id@ && a.kind@ == b.kind@
}

pub open spec fn relationship_error_at(rels: Seq<VisualRelationship>, i: int) -> Option<
    VisualSceneError,
> {
    if blank(rels[i].source_id@) {
        Some(VisualSceneError::EmptyRelationshipSourceId)
    } else if blank(rels[i].target_id@) {
        Some(VisualSceneError::EmptyRelationshipTargetId)
    } else if blank(rels[i].kind@) {
        Some(VisualSceneError::EmptyRelationshipKind)
    } else if exists|j: int| 0 <= j < i && same_relationship(#[trigger] rels[j], rels[i]) {
        Some(VisualSceneError::DuplicateRelationship(rels[i].kind))
    } else {
        None
    }
}

pub open spec fn relationship_errors(rels: Seq<VisualRelationship>) -> spec_fn(int) -> Option<
    VisualSceneError,
> {
    |i: int| relationship_error_at(rels, i)
}

/// The first RPG-state problem: inventory, then stats, then quests, then
/// relationships.
pub open spec fn rpg_error(rpg: VisualRpgState) -> Option<VisualSceneError> {
    match first_some(inventory_errors(rpg.inventory@), rpg.inventory@.len() as int) {
        Some(e) => Some(e),
        None => match first_some(stat_errors(rpg.stats@), rpg.stats@.len() as int) {
            Some(e) => Some(e),
            None => match first_some(quest_errors(rpg.quests@), rpg.quests@.len() as int) {
                Some(e) => Some(e),
                None => first_some(
                    relationship_errors(rpg.relationships@),
                    rpg.relationships@.len() as int,
                ),
            },
        },
    }
}

/// The key a duplicate-relationship report names: that of the first
/// relationship that repeats an earlier one.
pub open spec fn duplicate_relationship_key(rels: Seq<VisualRelationship>) -> Seq<char> {
    let i = choose|i: int|
        0 <= i < rels.len() && first_some(relationship_errors(rels), i) is None
            && relationship_error_at(rels, i) is Some;
    relationship_key_seq(rels[i].source_id@, rels[i].target_id@, rels[i].kind@)
}

proof fn lemma_first_error_index_unique(rels: Seq<VisualRelationship>, i: int)
    requires
        0 <= i < rels.len(),
        first_some(relationship_errors(rels), i) is None,
        relationship_error_at(rels, i) is Some,
    ensures
        duplicate_relationship_key(rels) == relationship_key_seq(
            rels[i].source_id@,
            rels[i].target_id@,
            rels[i].kind@,
        ),
{
    let f = relationship_errors(rels);
    assert(f(i) is Some);
    let k = choose|k: int|
        0 <= k < rels.len() && first_some(relationship_errors(rels), k) is None
            && relationship_error_at(rels, k) is Some;
    if k < i {
        crate::scene_errors::lemma_first_some_none(f, i);
        assert(f(k) is None);
    } else if k > i {
        crate::scene_errors::lemma_first_some_none(f, k);
        assert(f(i) is None);
    }
}

/// An error as reported against the expected one: the same value, except
/// that a duplicate-relationship report carries the relationship's key.
pub open spec fn same_scene_error(a: VisualSceneError, b: VisualSceneError, key: Seq<char>) -> bool {
    match (a, b) {
        (
            VisualSceneError::DuplicateRelationship(x),
            VisualSceneError::DuplicateRelationship(_),
        ) => x@ == key,
        _ => a == b,
    }
}

pub open spec fn same_result(
    r: Result<(), VisualSceneError>,
    e: Option<VisualSceneError>,
    key: Seq<char>,
) -> bool {
    match (r, e) {
        (Ok(()), None) => true,
        (Err(x), Some(y)) => same_scene_error(x, y, key),
        _ => false,
    }
}

fn inventory_check(items: &[VisualInventoryItem]) -> (r: Result<(), VisualSceneError>)
    ensures
        r == (match first_some(inventory_errors(items@), items@.len() as int) {
            Some(e) => Err(e),
            None => Ok(()),
        }),
{
    let mut i: usize = 0;
    while i < items.len()
        invariant
            i <= items@.len(),
            first_some(inventory_errors(items@), i as int) is None,
        decreases items.len() - i,
    {
        if is_blank(items[i].item_id.as_str()) {
            proof { crate::scene_errors::lemma_first_some_at(inventory_errors(items@), i as int, items@.len() as int); }
            return Err(VisualSceneError::EmptyInventoryItemId);
        }
        if is_blank(items[i].label.as_str()) {
            proof { crate::scene_errors::lemma_first_some_at(inventory_errors(items@), i as int, items@.len() as int); }
            return Err(VisualSceneError::EmptyInventoryLabel { item_id: items[i].item_id.clone() });
        }
        let mut j: usize = 0;
        #[verifier::loop_isolation(false)]
        while j < i
            invariant
                first_some(inventory_errors(items@), i as int) is None,
                i < items@.len(),
                j <= i,
                forall|k: int| 0 <= k < j ==> #[trigger] items@[k].item_id@ != items@[i as int].item_id@,
            decreases i - j,
        {
            if items[j].item_id == items[i].item_id {
                proof { crate::scene_errors::lemma_first_some_at(inventory_errors(items@), i as int, items@.len() as int); }
                return Err(VisualSceneError::DuplicateInventoryItemId(items[i].item_id.clone()));
            }
            j = j + 1;
        }
        i = i + 1;
    }
    Ok(())
}

fn stat_check(stats: &[VisualStat]) -> (r: Result<(), VisualSceneError>)
    ensures
        r == (match first_some(stat_errors(stats@), stats@.len() as int) {
            Some(e) => Err(e),
            None => Ok(()),
        }),
{
    let mut i: usize = 0;
    while i < stats.len()
        invariant
            i <= stats@.len(),
            first_some(stat_errors(stats@), i as int) is None,
        decreases stats.len() - i,
    {
        if is_blank(stats[i].key.as_str()) {
            proof { crate::scene_errors::lemma_first_some_at(stat_errors(stats@), i as int, stats@.len() as int); }
            return Err(VisualSceneError::EmptyStatKey);
        }
        match &stats[i].owner_id {
            Some(o) => {
                if is_blank(o.as_str()) {
                    proof { crate::scene_errors::lemma_first_some_at(stat_errors(stats@), i as int, stats@.len() as int); }
                    return Err(VisualSceneError::EmptyStatOwnerId);
                }
            },
            None => {},
        }
        let mut j: usize = 0;
        #[verifier::loop_isolation(false)]
        while j < i
            invariant
                first_some(stat_errors(stats@), i as int) is None,
                i < stats@.len(),
                j <= i,
                forall|k: int|
                    0 <= k < j ==> !(#[trigger] stats@[k].key@ == stats@[i as int].key@ && opt_str(
                        stats@[k].owner_id,
                    ) == opt_str(stats@[i as int].owner_id)),
            decreases i - j,
        {
            if stats[j].key == stats[i].key && opt_string_eq(&stats[j].owner_id, &stats[i].owner_id) {
                proof { crate::scene_errors::lemma_first_some_at(stat_errors(stats@), i as int, stats@.len() as int); }
                return Err(VisualSceneError::DuplicateStatKey(stats[i].key.clone()));
            }
            j = j + 1;
        }
        i = i + 1;
    }
    Ok(())
}

fn quest_check(quests: &[VisualQuest]) -> (r: Result<(), VisualSceneError>)
    ensures
        r == (match first_some(quest_errors(quests@), quests@.len() as int) {
            Some(e) => Err(e),
            None => Ok(()),
        }),
{
    let mut i: usize = 0;
    while i < quests.len()
        invariant
            i <= quests@.len(),
            first_some(quest_errors(quests@), i as int) is None,
        decreases quests.len() - i,
    {
        if is_blank(quests[i].quest_id.as_str()) {
            proof { crate::scene_errors::lemma_first_some_at(quest_errors(quests@), i as int, quests@.len() as int); }
            return Err(VisualSceneError::EmptyQuestId);
        }
        if is_blank(quests[i].label.as_str()) {
            proof { crate::scene_errors::lemma_first_some_at(quest_errors(quests@), i as int, quests@.len() as int); }
            return Err(VisualSceneError::EmptyQuestLabel { quest_id: quests[i].quest_id.clone() });
        }
        let mut j: usize = 0;
        #[verifier::loop_isolation(false)]
        while j < i
            invariant
                first_some(quest_errors(quests@), i as int) is None,
                i < quests@.len(),
                j <= i,
                forall|k: int| 0 <= k < j ==> #[trigger] quests@[k].quest_id@ != quests@[i as int].quest_id@,
            decreases i - j,
        {
            if quests[j].quest_id == quests[i].quest_id {
                proof { crate::scene_errors::lemma_first_some_at(quest_errors(quests@), i as int, quests@.len() as int); }
                return Err(VisualSceneError::DuplicateQuestId(quests[i].quest_id.clone()));
            }
            j = j + 1;
        }
        i = i + 1;
    }
    Ok(())
}

fn relationship_check(rels: &[VisualRelationship]) -> (r: Result<(), VisualSceneError>)
    ensures
        same_result(
            r,
            first_some(relationship_errors(rels@), rels@.len() as int),
            duplicate_relationship_key(rels@),
        ),
{
    let mut i: usize = 0;
    while i < rels.len()
        invariant
            i <= rels@.len(),
            first_some(relationship_errors(rels@), i as int) is None,
        decreases rels.len() - i,
    {
        if is_blank(rels[i].source_id.as_str()) {
            proof { crate::scene_errors::lemma_first_some_at(relationship_errors(rels@), i as int, rels@.len() as int); }
            return Err(VisualSceneError::EmptyRelationshipSourceId);
        }
        if is_blank(rels[i].target_id.as_str()) {
            proof { crate::scene_errors::lemma_first_some_at(relationship_errors(rels@), i as int, rels@.len() as int); }
            return Err(VisualSceneError::EmptyRelationshipTargetId);
        }
        if is_blank(rels[i].kind.as_str()) {
            proof { crate::scene_errors::lemma_first_some_at(relationship_errors(rels@), i as int, rels@.len() as int); }
            return Err(VisualSceneError::EmptyRelationshipKind);
        }
        let mut j: usize = 0;
        #[verifier::loop_isolation(false)]
        while j < i
            invariant
                first_some(relationship_errors(rels@), i as int) is None,
                i < rels@.len(),
                j <= i,
                forall|k: int| 0 <= k < j ==> !same_relationship(#[trigger] rels@[k], rels@[i as int]),
            decreases i - j,
        {
            if rels[j].source_id == rels[i].source_id && rels[j].target_id == rels[i].target_id
                && rels[j].kind == rels[i].kind {
                let key = relationship_key(
                    rels[i].source_id.as_str(),
                    rels[i].target_id.as_str(),
                    rels[i].kind.as_str(),
                );
                proof {
                    lemma_first_error_index_unique(rels@, i as int);
                }
                proof { crate::scene_errors::lemma_first_some_at(relationship_errors(rels@), i as int, rels@.len() as int); }
                return Err(VisualSceneError::DuplicateRelationship(key));
            }
            j = j + 1;
        }
        i = i + 1;
    }
    Ok(())
}

/// RPG state is well formed: ids, labels and keys non-blank and distinct.
pub fn validate_rpg_state(rpg: &VisualRpgState) -> (r: Result<(), VisualSceneError>)
    ensures
        same_result(r, rpg_error(*rpg), duplicate_relationship_key(rpg.relationships@)),
{
    proof {
        crate::scene_errors::lemma_first_some_from(
            inventory_errors(rpg.inventory@),
            rpg.inventory@.len() as int,
        );
        crate::scene_errors::lemma_first_some_from(stat_errors(rpg.stats@), rpg.stats@.len() as int);
        crate::scene_errors::lemma_first_some_from(
            quest_errors(rpg.quests@),
            rpg.quests@.len() as int,
        );
    }
    match inventory_check(rpg.inventory.as_slice()) {
        Err(e) => return Err(e),
        Ok(()) => {},
    }
    match stat_check(rpg.stats.as_slice()) {
        Err(e) => return Err(e),
        Ok(()) => {},
    }
    match quest_check(rpg.quests.as_slice()) {
        Err(e) => return Err(e),
        Ok(()) => {},
    }
    relationship_check(rpg.relationships.as_slice())
}

} // verus!
