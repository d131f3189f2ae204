//! Character state manifests: each part's states keyed by name in sorted
//! order with the first as default, and the layers that render a choice of
//! states over the base image.

use vstd::prelude::*;
use crate::asset::{SceneAssetEditError, SceneAssetStateManifest, SceneAssetStatePart};
use crate::asset_paths::{path_stem, path_file_stem};
use crate::regions::is_invalid;
use crate::text::{chars_of, str_equal};

verus! {

/// `a` sorts before `b`: the order of `String`, character by character.
pub open spec fn text_less(a: Seq<char>, b: Seq<char>) -> bool
    decreases a.len(),
{
    if a.len() == 0 {
        b.len() > 0
    } else if b.len() == 0 {
        false
    } else if a[0] != b[0] {
        (a[0] as int) < (b[0] as int)
    } else {
        text_less(a.drop_first(), b.drop_first())
    }
}

pub proof fn lemma_text_less_irreflexive(a: Seq<char>)
    ensures
        !text_less(a, a),
    decreases a.len(),
{
    if a.len() > 0 {
        lemma_text_less_irreflexive(a.drop_first());
    }
}

pub proof fn lemma_text_less_total(a: Seq<char>, b: Seq<char>)
    ensures
        a != b ==> text_less(a, b) || text_less(b, a),
        !(text_less(a, b) && text_less(b, a)),
    decreases a.len(),
{
    if a.len() > 0 && b.len() > 0 && a[0] == b[0] {
        lemma_text_less_total(a.drop_first(), b.drop_first());
        if a != b {
            assert(a.drop_first() != b.drop_first()) by {
                if a.drop_first() == b.drop_first() {
                    assert(a =~= seq![a[0]] + a.drop_first());
                    assert(b =~= seq![b[0]] + b.drop_first());
                }
            }
        }
    } else if a.len() > 0 && b.len() > 0 {
        assert((a[0] as int) != (b[0] as int));
    } else if a.len() == 0 && b.len() == 0 {
        assert(a =~= b);
    }
}

pub proof fn lemma_text_less_transitive(a: Seq<char>, b: Seq<char>, c: Seq<char>)
    requires
        text_less(a, b),
        text_less(b, c),
    ensures
        text_less(a, c),
    decreases a.len(),
{
    if a.len() > 0 && b.len() > 0 && c.len() > 0 && a[0] == b[0] && b[0] == c[0] {
        lemma_text_less_transitive(a.drop_first(), b.drop_first(), c.drop_first());
    }
}

/// Whether `a` sorts before `b`.
pub fn text_less_than(a: &str, b: &str) -> (r: bool)
    ensures
        r == text_less(a@, b@),
{
    let x = chars_of(a);
    let y = chars_of(b);
    let mut i: usize = 0;
    proof {
        assert(a@.skip(0) =~= a@);
        assert(b@.skip(0) =~= b@);
    }
    while i < x.len() && i < y.len()
        invariant
            x@ == a@,
            y@ == b@,
            i <= x@.len(),
            i <= y@.len(),
            text_less(a@, b@) == text_less(a@.skip(i as int), b@.skip(i as int)),
        decreases x.len() - i,
    {
        proof {
            assert(a@.skip(i as int).drop_first() =~= a@.skip(i + 1));
            assert(b@.skip(i as int).drop_first() =~= b@.skip(i + 1));
            assert(a@.skip(i as int)[0] == x@[i as int]);
            assert(b@.skip(i as int)[0] == y@[i as int]);
        }
        if x[i] != y[i] {
            return x[i] < y[i];
        }
        i = i + 1;
    }
    proof {
        assert(a@.skip(i as int).len() == a@.len() - i);
        assert(b@.skip(i as int).len() == b@.len() - i);
    }
    x.len() < y.len()
}

/// The value of the first entry whose key is `key`.
pub open spec fn entry_value(entries: Seq<(String, String)>, key: Seq<char>) -> Option<Seq<char>>
    decreases entries.len(),
{
    if entries.len() == 0 {
        None
    } else if entries[0].0@ == key {
        Some(entries[0].1@)
    } else {
        entry_value(entries.drop_first(), key)
    }
}

/// The value of the first entry whose key is `key`.
pub fn entry_lookup(entries: &[(String, String)], key: &str) -> (r: Option<String>)
    ensures
        r is None <==> entry_value(entries@, key@) is None,
        r is Some ==> r.unwrap()@ == entry_value(entries@, key@).unwrap(),
{
    let mut k: usize = 0;
    proof {
        assert(entries@.skip(0) =~= entries@);
    }
    while k < entries.len()
        invariant
            k <= entries@.len(),
            entry_value(entries@, key@) == entry_value(entries@.skip(k as int), key@),
        decreases entries.len() - k,
    {
        proof {
            assert(entries@.skip(k as int).drop_first() =~= entries@.skip(k + 1));
            assert(entries@.skip(k as int)[0] == entries@[k as int]);
        }
        if str_equal(entries[k].0.as_str(), key) {
            return Some(entries[k].1.clone());
        }
        k = k + 1;
    }
    proof {
        assert(entries@.skip(k as int).len() == 0);
    }
    None
}

/// The state a part shows: the one selected for it, else its default.
pub open spec fn chosen_state(part_name: Seq<char>, part: SceneAssetStatePart, selected: Seq<(String, String)>) -> Seq<char> {
    match entry_value(selected, part_name) {
        Some(s) => s,
        None => part.default@,
    }
}

/// The first part that lacks the state chosen for it: the state and the
/// part's name.
pub open spec fn unknown_state(parts: Seq<(String, SceneAssetStatePart)>, selected: Seq<(String, String)>) -> Option<
    (Seq<char>, Seq<char>),
>
    decreases parts.len(),
{
    if parts.len() == 0 {
        None
    } else {
        let s = chosen_state(parts[0].0@, parts[0].1, selected);
        if entry_value(parts[0].1.states@, s) is None {
            Some((s, parts[0].0@))
        } else {
            unknown_state(parts.drop_first(), selected)
        }
    }
}

pub open spec fn unknown_state_message(state: Seq<char>, part: Seq<char>) -> Seq<char> {
    "unknown state `"@ + state + "` for part `"@ + part + "`"@
}

/// The layers that render a choice of states, as their file paths: the
/// base image, then each part's chosen state in the manifest's order. Each
/// layer is drawn at the origin, fully opaque, in normal blending. A part
/// that lacks its chosen state is an error.
pub fn state_composite_options(manifest: &SceneAssetStateManifest, selected_states: &[(String, String)]) -> (r: Result<
    Vec<String>,
    SceneAssetEditError,
>)
    ensures
        unknown_state(manifest.parts@, selected_states@) matches Some(f) ==> (r matches Err(e) && is_invalid(
            e,
            unknown_state_message(f.0, f.1),
        )),
        unknown_state(manifest.parts@, selected_states@) is None ==> (r matches Ok(paths) && {
            &&& paths@.len() == manifest.parts@.len() + 1
            &&& paths@[0]@ == manifest.base@
            &&& forall|k: int|
                0 <= k < manifest.parts@.len() ==> (#[trigger] paths@[k + 1])@ == entry_value(
                    manifest.parts@[k].1.states@,
                    chosen_state(manifest.parts@[k].0@, manifest.parts@[k].1, selected_states@),
                ).unwrap()
        }),
{
    let parts = &manifest.parts;
    let mut paths: Vec<String> = Vec::new();
    paths.push(manifest.base.clone());
    let mut k: usize = 0;
    proof {
        assert(parts@.skip(0) =~= parts@);
    }
    while k < parts.len()
        invariant
            parts@ == manifest.parts@,
            k <= parts@.len(),
            unknown_state(parts@, selected_states@) == unknown_state(parts@.skip(k as int), selected_states@),
            paths@.len() == k + 1,
            paths@[0]@ == manifest.base@,
            forall|j: int|
                0 <= j < k ==> (#[trigger] paths@[j + 1])@ == entry_value(
                    parts@[j].1.states@,
                    chosen_state(parts@[j].0@, parts@[j].1, selected_states@),
                ).unwrap(),
        decreases parts.len() - k,
    {
        proof {
            assert(parts@.skip(k as int).drop_first() =~= parts@.skip(k + 1));
            assert(parts@.skip(k as int)[0] == parts@[k as int]);
        }
        let name = &parts[k].0;
        let part = &parts[k].1;
        let state = match entry_lookup(selected_states, name.as_str()) {
            Some(s) => s,
            None => part.default.clone(),
        };
        match entry_lookup(part.states.as_slice(), state.as_str()) {
            Some(path) => {
                paths.push(path);
            },
            None => {
                let mut m = String::from_str("unknown state `");
                m.append(state.as_str());
                m.append("` for part `");
                m.append(name.as_str());
                m.append("`");
                return Err(SceneAssetEditError::InvalidOperation(m));
            },
        }
        k = k + 1;
    }
    proof {
        assert(parts@.skip(k as int).len() == 0);
    }
    Ok(paths)
}

/// The name a state file gives its state: its stem, or the whole text
/// when it has none.
pub open spec fn state_key(file: Seq<char>) -> Seq<char> {
    match path_stem(file) {
        Some(s) => s,
        None => file,
    }
}

/// The last of the files whose state is named `key`.
pub open spec fn last_file_for(files: Seq<String>, key: Seq<char>) -> Option<Seq<char>>
    decreases files.len(),
{
    if files.len() == 0 {
        None
    } else if state_key(files.last()@) == key {
        Some(files.last()@)
    } else {
        last_file_for(files.drop_last(), key)
    }
}

/// `states` holds, sorted by name, one entry for each state the files name,
/// with the last file that names it.
pub open spec fn states_of(files: Seq<String>, states: Seq<(String, String)>) -> bool {
    &&& forall|i: int, j: int| 0 <= i < j < states.len() ==> text_less(#[trigger] states[i].0@, #[trigger] states[j].0@)
    &&& forall|j: int| 0 <= j < states.len() ==> last_file_for(files, (#[trigger] states[j]).0@) == Some(states[j].1@)
    &&& forall|f: int|
        0 <= f < files.len() ==> exists|j: int| 0 <= j < states.len() && (#[trigger] states[j]).0@ == state_key(
            (#[trigger] files[f])@,
        )
}

proof fn lemma_states_step(
    files: Seq<String>,
    i: int,
    old_states: Seq<(String, String)>,
    new_states: Seq<(String, String)>,
    p: int,
    replaced: bool,
)
    requires
        0 <= i < files.len(),
        states_of(files.take(i), old_states),
        0 <= p <= old_states.len(),
        forall|q: int| 0 <= q < p ==> text_less(old_states[q].0@, state_key(files[i]@)),
        replaced ==> p < old_states.len() && old_states[p].0@ == state_key(files[i]@) && new_states == old_states.update(
            p,
            (old_states[p].0, files[i]),
        ),
        !replaced ==> (p == old_states.len() || !text_less(old_states[p].0@, state_key(files[i]@)))
            && (p < old_states.len() ==> old_states[p].0@ != state_key(files[i]@)) && exists|k: String|
            k@ == state_key(files[i]@) && new_states == old_states.insert(p, (k, files[i])),
    ensures
        states_of(files.take(i + 1), new_states),
{
    let key = state_key(files[i]@);
    let a = files.take(i + 1);
    let b = files.take(i);
    assert(a.drop_last() =~= b);
    assert(a.last() == files[i]);
    assert forall|q: int| 0 <= q < old_states.len() && q != p implies #[trigger] old_states[q].0@ != key by {
        if q < p {
            lemma_text_less_irreflexive(key);
        } else {
            lemma_text_less_irreflexive(old_states[p].0@);
            if !replaced {
                lemma_text_less_total(old_states[p].0@, key);
                lemma_text_less_transitive(key, old_states[p].0@, old_states[q].0@);
                lemma_text_less_irreflexive(key);
            } else {
                lemma_text_less_irreflexive(key);
            }
        }
    }
    if replaced {
        assert forall|x: int, y: int| 0 <= x < y < new_states.len() implies text_less(
            #[trigger] new_states[x].0@,
            #[trigger] new_states[y].0@,
        ) by {
            assert(new_states[x].0@ == old_states[x].0@);
            assert(new_states[y].0@ == old_states[y].0@);
        }
        assert forall|j: int| 0 <= j < new_states.len() implies last_file_for(a, (#[trigger] new_states[j]).0@) == Some(
            new_states[j].1@,
        ) by {
            if j != p {
                assert(new_states[j] == old_states[j]);
            }
        }
        assert forall|f: int| 0 <= f < a.len() implies exists|j: int|
            0 <= j < new_states.len() && (#[trigger] new_states[j]).0@ == state_key((#[trigger] a[f])@) by {
            if f < i {
                assert(a[f] == b[f]);
                let j = choose|j: int| 0 <= j < old_states.len() && (#[trigger] old_states[j]).0@ == state_key(b[f]@);
                assert(new_states[j].0@ == old_states[j].0@);
            } else {
                assert(new_states[p].0@ == key);
            }
        }
    } else {
        let k = choose|k: String| k@ == key && new_states == old_states.insert(p, (k, files[i]));
        assert forall|x: int, y: int| 0 <= x < y < new_states.len() implies text_less(
            #[trigger] new_states[x].0@,
            #[trigger] new_states[y].0@,
        ) by {
            if y < p {
                assert(new_states[x] == old_states[x] && new_states[y] == old_states[y]);
            } else if y == p {
                assert(new_states[x] == old_states[x]);
            } else if x < p {
                assert(new_states[x] == old_states[x] && new_states[y] == old_states[y - 1]);
                assert(text_less(old_states[x].0@, old_states[p].0@));
                lemma_text_less_total(old_states[p].0@, key);
                if y - 1 == p {
                    lemma_text_less_transitive(old_states[x].0@, key, old_states[p].0@);
                } else {
                    assert(text_less(old_states[x].0@, old_states[y - 1].0@));
                }
            } else if x == p {
                assert(new_states[y] == old_states[y - 1]);
                lemma_text_less_total(old_states[p].0@, key);
                if y - 1 > p {
                    lemma_text_less_transitive(key, old_states[p].0@, old_states[y - 1].0@);
                }
            } else {
                assert(new_states[x] == old_states[x - 1] && new_states[y] == old_states[y - 1]);
            }
        }
        assert forall|j: int| 0 <= j < new_states.len() implies last_file_for(a, (#[trigger] new_states[j]).0@) == Some(
            new_states[j].1@,
        ) by {
            if j < p {
                assert(new_states[j] == old_states[j]);
            } else if j > p {
                assert(new_states[j] == old_states[j - 1]);
            }
        }
        assert forall|f: int| 0 <= f < a.len() implies exists|j: int|
            0 <= j < new_states.len() && (#[trigger] new_states[j]).0@ == state_key((#[trigger] a[f])@) by {
            if f < i {
                assert(a[f] == b[f]);
                let j = choose|j: int| 0 <= j < old_states.len() && (#[trigger] old_states[j]).0@ == state_key(b[f]@);
                if j < p {
                    assert(new_states[j] == old_states[j]);
                } else {
                    assert(new_states[j + 1] == old_states[j]);
                }
            } else {
                assert(new_states[p].0@ == key);
            }
        }
    }
}

/// The states the files name, sorted by name, each with the last file that
/// names it.
pub fn collect_states(files: &[String]) -> (states: Vec<(String, String)>)
    ensures
        states_of(files@, states@),
{
    let mut states: Vec<(String, String)> = Vec::new();
    let mut i: usize = 0;
    while i < files.len()
        invariant
            i <= files@.len(),
            states_of(files@.take(i as int), states@),
        decreases files.len() - i,
    {
        let file = &files[i];
        let key = match path_file_stem(file.as_str()) {
            Some(s) => s,
            None => file.clone(),
        };
        assert(key@ == state_key(files@[i as int]@));
        let mut p: usize = 0;
        while p < states.len() && text_less_than(states[p].0.as_str(), key.as_str())
            invariant
                p <= states@.len(),
                forall|q: int| 0 <= q < p ==> text_less(states@[q].0@, key@),
            decreases states.len() - p,
        {
            p = p + 1;
        }
        let ghost old_states = states@;
        if p < states.len() && str_equal(states[p].0.as_str(), key.as_str()) {
            let entry = (states[p].0.clone(), file.clone());
            states.set(p, entry);
            proof {
                lemma_states_step(files@, i as int, old_states, states@, p as int, true);
            }
        } else {
            states.insert(p, (key, file.clone()));
            proof {
                lemma_states_step(files@, i as int, old_states, states@, p as int, false);
            }
        }
        i = i + 1;
    }
    proof {
        assert(files@.take(files@.len() as int) =~= files@);
    }
    states
}

/// A part as a manifest holds it: states collected from the files, the
/// first (smallest) name as default.
pub open spec fn part_from_files(files: Seq<String>, part: SceneAssetStatePart) -> bool {
    &&& states_of(files, part.states@)
    &&& part.states@.len() > 0
    &&& part.default@ == part.states@[0].0@
}

/// The first part with no state files.
pub open spec fn first_empty_part(parts: Seq<(String, Vec<String>)>) -> Option<Seq<char>>
    decreases parts.len(),
{
    if parts.len() == 0 {
        None
    } else if parts[0].1@.len() == 0 {
        Some(parts[0].0@)
    } else {
        first_empty_part(parts.drop_first())
    }
}

pub open spec fn empty_part_message(part: Seq<char>) -> Seq<char> {
    "state part `"@ + part + "` requires at least one state file"@
}

/// The parts of a state manifest, in the given order: each part's states
/// named by the stems of its files, sorted by name, the first the default.
/// A part with no files is an error.
pub fn state_manifest_parts(parts: &[(String, Vec<String>)]) -> (r: Result<
    Vec<(String, SceneAssetStatePart)>,
    SceneAssetEditError,
>)
    ensures
        first_empty_part(parts@) matches Some(name) ==> (r matches Err(e) && is_invalid(e, empty_part_message(name))),
        first_empty_part(parts@) is None ==> (r matches Ok(out) && {
            &&& out@.len() == parts@.len()
            &&& forall|k: int|
                0 <= k < parts@.len() ==> (#[trigger] out@[k]).0@ == parts@[k].0@ && part_from_files(
                    parts@[k].1@,
                    out@[k].1,
                )
        }),
{
    let mut out: Vec<(String, SceneAssetStatePart)> = Vec::new();
    let mut k: usize = 0;
    proof {
        assert(parts@.skip(0) =~= parts@);
    }
    while k < parts.len()
        invariant
            k <= parts@.len(),
            first_empty_part(parts@) == first_empty_part(parts@.skip(k as int)),
            out@.len() == k,
            forall|j: int|
                0 <= j < k ==> (#[trigger] out@[j]).0@ == parts@[j].0@ && part_from_files(parts@[j].1@, out@[j].1),
        decreases parts.len() - k,
    {
        proof {
            assert(parts@.skip(k as int).drop_first() =~= parts@.skip(k + 1));
            assert(parts@.skip(k as int)[0] == parts@[k as int]);
        }
        let name = &parts[k].0;
        let files = &parts[k].1;
        if files.len() == 0 {
            let mut m = String::from_str("state part `");
            m.append(name.as_str());
            m.append("` requires at least one state file");
            return Err(SceneAssetEditError::InvalidOperation(m));
        }
        let fs = files.as_slice();
        let states = collect_states(fs);
        proof {
            assert(fs@ == files@);
            assert(files@.len() > 0);
            assert(0 <= 0 < fs@.len());
            let f0 = fs@[0];
            assert(exists|j: int| 0 <= j < states@.len() && (#[trigger] states@[j]).0@ == state_key((#[trigger] files@[0])@));
        }
        let default = states[0].0.clone();
        let part = SceneAssetStatePart { default, states };
        out.push((name.clone(), part));
        proof {
            assert forall|j: int| 0 <= j < k + 1 implies (#[trigger] out@[j]).0@ == parts@[j].0@ && part_from_files(
                parts@[j].1@,
                out@[j].1,
            ) by {}
        }
        k = k + 1;
    }
    proof {
        assert(parts@.skip(k as int).len() == 0);
    }
    Ok(out)
}

/// A manifest whose parts were all built from state files renders its
/// default states: no part lacks the state chosen when nothing is
/// selected.
pub proof fn law_default_states_render(files: Seq<Vec<String>>, parts: Seq<(String, SceneAssetStatePart)>)
    requires
        files.len() == parts.len(),
        forall|k: int| 0 <= k < parts.len() ==> part_from_files(files[k]@, #[trigger] parts[k].1),
    ensures
        unknown_state(parts, seq![]) is None,
    decreases parts.len(),
{
    if parts.len() > 0 {
        let part = parts[0].1;
        assert(part_from_files(files[0]@, part));
        assert(chosen_state(parts[0].0@, part, seq![]) == part.default@);
        lemma_entry_value_first(part.states@);
        assert forall|k: int| 0 <= k < parts.drop_first().len() implies part_from_files(
            files.drop_first()[k]@,
            #[trigger] parts.drop_first()[k].1,
        ) by {
            assert(parts.drop_first()[k] == parts[k + 1]);
            assert(files.drop_first()[k] == files[k + 1]);
        }
        law_default_states_render(files.drop_first(), parts.drop_first());
    }
}

proof fn lemma_entry_value_first(entries: Seq<(String, String)>)
    requires
        entries.len() > 0,
    ensures
        entry_value(entries, entries[0].0@) is Some,
{
}

} // verus!
