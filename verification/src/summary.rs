//! Short one-line summaries of scene state for status panels, and the text
//! clipping and word wrapping they use.

use vstd::prelude::*;

use crate::conditions::{first_from, first_index};
use crate::model::vm;
use crate::resolve::entity_is;
use crate::scene_model::{
    phase_text, value_text, VisualProcessState, VisualRelationship, VisualScene, VisualStateEntry,
};
use crate::schema::VisualLayerState;
use crate::text::{
    char_is_whitespace, chars_of, dec, i32_text, int_dec, is_ws, join, join_seq, push_char,
    string_from_chars, take_chars, take_text, usize_text, views,
};

verus! {

/// At most `max` characters, with `...` appended when something was cut.
pub open spec fn clipped(s: Seq<char>, max: nat) -> Seq<char> {
    if s.len() > max { s.take(max as int) + "..."@ } else { s }
}

pub fn clip_summary_value(value: &str, max_chars: usize) -> (r: String)
    ensures
        r@ == clipped(value@, max_chars as nat),
{
    let n = chars_of(value).len();
    let mut r = take_text(value, max_chars);
    if n > max_chars {
        r.append("...");
    }
    r
}

/// The first `max_chars` characters.
pub fn clip_text(text: &str, max_chars: usize) -> (r: String)
    ensures
        r@ == take_chars(text@, max_chars as nat),
{
    take_text(text, max_chars)
}

/// `+N more` when `total` exceeds what was shown.
pub open spec fn more_part(total: nat, shown: nat) -> Seq<Seq<char>> {
    if total > shown { seq!["+"@ + dec((total - shown) as nat) + " more"@] } else { seq![] }
}

pub open spec fn entry_part(e: VisualStateEntry) -> Seq<char> {
    e.key@ + "="@ + clipped(value_text(e.value), 32)
}

/// The first `max` variables as `key=value` (values clipped), then how many
/// more there are.
pub open spec fn state_summary(entries: Seq<VisualStateEntry>, max: nat) -> Seq<char> {
    let shown = if entries.len() > max { max } else { entries.len() };
    join_seq(
        entries.take(shown as int).map_values(|e: VisualStateEntry| entry_part(e)) + more_part(
            entries.len(),
            max,
        ),
        ", "@,
    )
}

fn push_more(parts: &mut Vec<String>, total: usize, shown: usize)
    ensures
        views(final(parts)@) == views(old(parts)@) + more_part(total as nat, shown as nat),
{
    if total > shown {
        let n = usize_text(total - shown);
        let mut s = String::from_str("+");
        s.append(n.as_str());
        s.append(" more");
        let ghost before = views(parts@);
        let ghost sv = s@;
        parts.push(s);
        proof {
            assert(views(parts@) =~= before + seq![sv]);
        }
    } else {
        proof {
            assert(views(parts@) =~= views(parts@) + Seq::<Seq<char>>::empty());
        }
    }
}

pub fn format_state_summary(entries: &[VisualStateEntry], max_entries: usize) -> (r: String)
    ensures
        r@ == state_summary(entries@, max_entries as nat),
{
    let shown = if entries.len() > max_entries {
        max_entries
    } else {
        entries.len()
    };
    let ghost f = |e: VisualStateEntry| entry_part(e);
    let mut parts: Vec<String> = Vec::new();
    let mut i: usize = 0;
    while i < shown
        invariant
            shown <= entries@.len(),
            i <= shown,
            f == (|e: VisualStateEntry| entry_part(e)),
            views(parts@) == entries@.take(i as int).map_values(f),
        decreases shown - i,
    {
        let mut s = String::from_str(entries[i].key.as_str());
        s.append("=");
        let v = entries[i].value.as_debug_string();
        let c = clip_summary_value(v.as_str(), 32);
        s.append(c.as_str());
        let ghost before = views(parts@);
        let ghost sv = s@;
        parts.push(s);
        proof {
            assert(views(parts@) =~= before.push(sv));
            assert(entries@.take(i + 1).map_values(f) =~= entries@.take(i as int).map_values(f).push(
                entry_part(entries@[i as int]),
            ));
        }
        i = i + 1;
    }
    push_more(&mut parts, entries.len(), max_entries);
    join(parts.as_slice(), ", ")
}

pub open spec fn meta_part(m: (String, String)) -> Seq<char> {
    m.0@ + "="@ + clipped(m.1@, 36)
}

/// The first `max` metadata pairs as `key=value` (values clipped), then how
/// many more there are.
pub open spec fn metadata_summary(metadata: Seq<(String, String)>, max: nat) -> Seq<char> {
    let shown = if metadata.len() > max { max } else { metadata.len() };
    join_seq(
        metadata.take(shown as int).map_values(|m: (String, String)| meta_part(m)) + more_part(
            metadata.len(),
            max,
        ),
        ", "@,
    )
}

pub fn format_metadata_summary(metadata: &[(String, String)], max_entries: usize) -> (r: String)
    ensures
        r@ == metadata_summary(metadata@, max_entries as nat),
{
    let shown = if metadata.len() > max_entries {
        max_entries
    } else {
        metadata.len()
    };
    let ghost f = |m: (String, String)| meta_part(m);
    let mut parts: Vec<String> = Vec::new();
    let mut i: usize = 0;
    while i < shown
        invariant
            shown <= metadata@.len(),
            i <= shown,
            f == (|m: (String, String)| meta_part(m)),
            views(parts@) == metadata@.take(i as int).map_values(f),
        decreases shown - i,
    {
        let mut s = String::from_str(metadata[i].0.as_str());
        s.append("=");
        let c = clip_summary_value(metadata[i].1.as_str(), 36);
        s.append(c.as_str());
        let ghost before = views(parts@);
        let ghost sv = s@;
        parts.push(s);
        proof {
            assert(views(parts@) =~= before.push(sv));
            assert(metadata@.take(i + 1).map_values(f) =~= metadata@.take(i as int).map_values(f).push(
                meta_part(metadata@[i as int]),
            ));
        }
        i = i + 1;
    }
    push_more(&mut parts, metadata.len(), max_entries);
    join(parts.as_slice(), ", ")
}

/// Metadata shown after a relationship: the first two pairs in brackets,
/// or nothing.
pub open spec fn relationship_metadata(metadata: Seq<(String, String)>) -> Seq<char> {
    let m = metadata_summary(metadata, 2);
    if m.len() == 0 { Seq::empty() } else { " ["@ + m + "]"@ }
}

pub fn format_relationship_metadata(metadata: &[(String, String)]) -> (r: String)
    ensures
        r@ == relationship_metadata(metadata@),
{
    let m = format_metadata_summary(metadata, 2);
    if m.as_str().is_empty() {
        return String::new();
    }
    let mut s = String::from_str(" [");
    s.append(m.as_str());
    s.append("]");
    s
}

/// An entity named in a relationship: `label (id)` when the scene has it,
/// else the bare id.
pub open spec fn entity_label(scene: VisualScene, id: Seq<char>) -> Seq<char> {
    let ents = vm(scene.entities@);
    let i = first_index(ents, entity_is(id));
    if i < ents.len() { ents[i].label + " ("@ + ents[i].id + ")"@ } else { id }
}

pub fn relationship_entity_label(scene: &VisualScene, entity_id: &str) -> (r: String)
    ensures
        r@ == entity_label(*scene, entity_id@),
{
    match crate::resolve::find_entity(&scene.entities, entity_id) {
        Some(i) => {
            let e = &scene.entities[i];
            let mut s = e.label.clone();
            s.append(" (");
            s.append(e.id.as_str());
            s.append(")");
            proof {
                assert(vm(scene.entities@)[i as int] == scene.entities@[i as int]@);
            }
            s
        },
        None => String::from_str(entity_id),
    }
}

pub open spec fn from_entity(id: Seq<char>) -> spec_fn(VisualRelationship) -> bool {
    |r: VisualRelationship| r.source_id@ == id
}

pub open spec fn to_entity(id: Seq<char>) -> spec_fn(VisualRelationship) -> bool {
    |r: VisualRelationship| r.target_id@ == id
}

pub open spec fn outgoing_line(scene: VisualScene) -> spec_fn(VisualRelationship) -> Seq<char> {
    |r: VisualRelationship| "-> "@ + entity_label(scene, r.target_id@) + " "@ + r.kind@
}

pub open spec fn incoming_line(scene: VisualScene) -> spec_fn(VisualRelationship) -> Seq<char> {
    |r: VisualRelationship| "<- "@ + entity_label(scene, r.source_id@) + " "@ + r.kind@
}

pub open spec fn min_nat(a: nat, b: nat) -> nat {
    if a <= b { a } else { b }
}

/// The relationships of entity `id`: counts of outgoing and incoming ones,
/// then up to `max` of them (outgoing first) naming the other end and the
/// kind, then how many more there are; nothing when it has none.
pub open spec fn relationship_summary(scene: VisualScene, id: Seq<char>, max: nat) -> Option<
    Seq<char>,
> {
    let rels = scene.rpg.relationships@;
    let outs = rels.filter(from_entity(id)).map_values(outgoing_line(scene));
    let ins = rels.filter(to_entity(id)).map_values(incoming_line(scene));
    if outs.len() == 0 && ins.len() == 0 {
        None
    } else {
        let n_out = min_nat(outs.len(), max);
        let n_in = min_nat(ins.len(), (max - n_out) as nat);
        let parts = seq!["out="@ + dec(outs.len()) + " in="@ + dec(ins.len())] + outs.take(
            n_out as int,
        ) + ins.take(n_in as int) + more_part(outs.len() + ins.len(), n_out + n_in);
        Some(join_seq(parts, ", "@))
    }
}

fn relationship_lines(scene: &VisualScene, entity_id: &str, outgoing: bool) -> (r: Vec<String>)
    ensures
        outgoing ==> views(r@) == scene.rpg.relationships@.filter(from_entity(entity_id@)).map_values(
            outgoing_line(*scene),
        ),
        !outgoing ==> views(r@) == scene.rpg.relationships@.filter(to_entity(entity_id@)).map_values(
            incoming_line(*scene),
        ),
        r@.len() <= scene.rpg.relationships@.len(),
{
    let rels = &scene.rpg.relationships;
    let ghost p = if outgoing { from_entity(entity_id@) } else { to_entity(entity_id@) };
    let ghost f = if outgoing { outgoing_line(*scene) } else { incoming_line(*scene) };
    let mut out: Vec<String> = Vec::new();
    let mut i: usize = 0;
    while i < rels.len()
        invariant
            i <= rels@.len(),
            rels@ == scene.rpg.relationships@,
            p == (if outgoing { from_entity(entity_id@) } else { to_entity(entity_id@) }),
            f == (if outgoing { outgoing_line(*scene) } else { incoming_line(*scene) }),
            views(out@) == rels@.take(i as int).filter(p).map_values(f),
            out@.len() <= i,
        decreases rels.len() - i,
    {
        proof {
            reveal(Seq::filter);
            assert(rels@.take(i + 1).drop_last() =~= rels@.take(i as int));
        }
        let r = &rels[i];
        let (end, other) = if outgoing {
            (r.source_id.as_str(), r.target_id.as_str())
        } else {
            (r.target_id.as_str(), r.source_id.as_str())
        };
        if crate::text::str_equal(end, entity_id) {
            let mut s = String::from_str(if outgoing {
                "-> "
            } else {
                "<- "
            });
            let l = relationship_entity_label(scene, other);
            s.append(l.as_str());
            s.append(" ");
            s.append(r.kind.as_str());
            let ghost before = views(out@);
            let ghost sv = s@;
            out.push(s);
            proof {
                assert(rels@.take(i + 1).filter(p) =~= rels@.take(i as int).filter(p).push(rels@[i as int]));
                assert(views(out@) =~= before.push(sv));
                assert(views(out@) =~= rels@.take(i + 1).filter(p).map_values(f));
            }
        } else {
            proof {
                assert(rels@.take(i + 1).filter(p) =~= rels@.take(i as int).filter(p));
            }
        }
        i = i + 1;
    }
    proof {
        assert(rels@.take(rels@.len() as int) =~= rels@);
    }
    out
}

pub fn format_relationship_summary(scene: &VisualScene, entity_id: &str, max_entries: usize) -> (r: Option<String>)
    requires
        2 * scene.rpg.relationships@.len() <= usize::MAX,
    ensures
        match r {
            Some(s) => relationship_summary(*scene, entity_id@, max_entries as nat) == Some(s@),
            None => relationship_summary(*scene, entity_id@, max_entries as nat) is None,
        },
{
    let outs = relationship_lines(scene, entity_id, true);
    let ins = relationship_lines(scene, entity_id, false);
    if outs.len() == 0 && ins.len() == 0 {
        return None;
    }
    let n_out = if outs.len() <= max_entries {
        outs.len()
    } else {
        max_entries
    };
    let rest = max_entries - n_out;
    let n_in = if ins.len() <= rest {
        ins.len()
    } else {
        rest
    };
    let mut parts: Vec<String> = Vec::new();
    let mut head = String::from_str("out=");
    let a = usize_text(outs.len());
    head.append(a.as_str());
    head.append(" in=");
    let b = usize_text(ins.len());
    head.append(b.as_str());
    let ghost hv = head@;
    parts.push(head);
    let ghost p0 = views(parts@);
    let mut i: usize = 0;
    while i < n_out
        invariant
            n_out <= outs@.len(),
            i <= n_out,
            views(parts@) == p0 + views(outs@).take(i as int),
        decreases n_out - i,
    {
        let ghost before = views(parts@);
        parts.push(outs[i].clone());
        proof {
            assert(views(parts@) =~= before.push(outs@[i as int]@));
            assert(views(outs@).take(i + 1) =~= views(outs@).take(i as int).push(outs@[i as int]@));
            assert(views(parts@) =~= p0 + views(outs@).take(i + 1));
        }
        i = i + 1;
    }
    let ghost p1 = views(parts@);
    let mut j: usize = 0;
    while j < n_in
        invariant
            n_in <= ins@.len(),
            j <= n_in,
            views(parts@) == p1 + views(ins@).take(j as int),
        decreases n_in - j,
    {
        let ghost before = views(parts@);
        parts.push(ins[j].clone());
        proof {
            assert(views(parts@) =~= before.push(ins@[j as int]@));
            assert(views(ins@).take(j + 1) =~= views(ins@).take(j as int).push(ins@[j as int]@));
            assert(views(parts@) =~= p1 + views(ins@).take(j + 1));
        }
        j = j + 1;
    }
    let ghost p2 = views(parts@);
    push_more(&mut parts, outs.len() + ins.len(), n_out + n_in);
    proof {
        let outs_s = scene.rpg.relationships@.filter(from_entity(entity_id@)).map_values(
            outgoing_line(*scene),
        );
        let ins_s = scene.rpg.relationships@.filter(to_entity(entity_id@)).map_values(
            incoming_line(*scene),
        );
        assert(p0 =~= seq![hv]);
        assert(views(outs@) == outs_s);
        assert(views(ins@) == ins_s);
        assert(views(parts@) =~= seq!["out="@ + dec(outs_s.len()) + " in="@ + dec(ins_s.len())]
            + outs_s.take(n_out as int) + ins_s.take(n_in as int) + more_part(
            outs_s.len() + ins_s.len(),
            (n_out + n_in) as nat,
        ));
    }
    Some(join(parts.as_slice(), ", "))
}

pub open spec fn layer_part(l: VisualLayerState) -> Seq<char> {
    l.layer_id@ + "="@ + l.state@
}

/// The first four layers as `id=state`, then how many more there are.
pub open spec fn layer_summary(layers: Seq<VisualLayerState>) -> Seq<char> {
    let shown = if layers.len() > 4 { 4 } else { layers.len() };
    join_seq(
        layers.take(shown as int).map_values(|l: VisualLayerState| layer_part(l)) + more_part(
            layers.len(),
            4,
        ),
        ", "@,
    )
}

pub fn format_layer_summary(layers: &[VisualLayerState]) -> (r: String)
    ensures
        r@ == layer_summary(layers@),
{
    let shown: usize = if layers.len() > 4 {
        4
    } else {
        layers.len()
    };
    let ghost f = |l: VisualLayerState| layer_part(l);
    let mut parts: Vec<String> = Vec::new();
    let mut i: usize = 0;
    while i < shown
        invariant
            shown <= layers@.len(),
            i <= shown,
            f == (|l: VisualLayerState| layer_part(l)),
            views(parts@) == layers@.take(i as int).map_values(f),
        decreases shown - i,
    {
        let mut s = layers[i].layer_id.clone();
        s.append("=");
        s.append(layers[i].state.as_str());
        let ghost before = views(parts@);
        let ghost sv = s@;
        parts.push(s);
        proof {
            assert(views(parts@) =~= before.push(sv));
            assert(layers@.take(i + 1).map_values(f) =~= layers@.take(i as int).map_values(f).push(
                layer_part(layers@[i as int]),
            ));
        }
        i = i + 1;
    }
    push_more(&mut parts, layers.len(), 4);
    join(parts.as_slice(), ", ")
}

/// The phase, then `entity=`, `cmd=`, `exit=` and the message when present.
pub open spec fn process_parts(p: VisualProcessState) -> Seq<Seq<char>> {
    seq![phase_text(p.phase)] + (match p.entity_id {
        Some(e) => seq!["entity="@ + e@],
        None => seq![],
    }) + (match p.command {
        Some(c) => seq!["cmd="@ + clipped(c@, 36)],
        None => seq![],
    }) + (match p.exit_code {
        Some(x) => seq!["exit="@ + int_dec(x as int)],
        None => seq![],
    }) + (match p.message {
        Some(m) => seq![clipped(m@, 48)],
        None => seq![],
    })
}

pub fn format_process_summary(process_state: &VisualProcessState) -> (r: String)
    ensures
        r@ == join_seq(process_parts(*process_state), ", "@),
{
    let mut parts: Vec<String> = Vec::new();
    parts.push(String::from_str(process_state.phase.as_str()));
    let ghost p0 = views(parts@);
    match &process_state.entity_id {
        Some(e) => {
            let mut s = String::from_str("entity=");
            s.append(e.as_str());
            parts.push(s);
        },
        None => {},
    }
    let ghost p1 = views(parts@);
    match &process_state.command {
        Some(c) => {
            let mut s = String::from_str("cmd=");
            let t = clip_summary_value(c.as_str(), 36);
            s.append(t.as_str());
            parts.push(s);
        },
        None => {},
    }
    let ghost p2 = views(parts@);
    match process_state.exit_code {
        Some(x) => {
            let mut s = String::from_str("exit=");
            let t = i32_text(x);
            s.append(t.as_str());
            parts.push(s);
        },
        None => {},
    }
    let ghost p3 = views(parts@);
    match &process_state.message {
        Some(m) => {
            parts.push(clip_summary_value(m.as_str(), 48));
        },
        None => {},
    }
    proof {
        assert(views(parts@) =~= process_parts(*process_state));
    }
    join(parts.as_slice(), ", ")
}

// ---------------------------------------------------------------- wrapping

/// One step of splitting text into words: the words so far, and whether the
/// last character continued a word.
pub open spec fn split_step(acc: (Seq<Seq<char>>, bool), c: char) -> (Seq<Seq<char>>, bool) {
    if is_ws(c) {
        (acc.0, false)
    } else if acc.1 {
        (acc.0.update(acc.0.len() - 1, acc.0.last().push(c)), true)
    } else {
        (acc.0.push(seq![c]), true)
    }
}

/// The whitespace-separated words of `s`, as `split_whitespace` gives them.
pub open spec fn words_of(s: Seq<char>) -> Seq<Seq<char>> {
    s.fold_left(
        (Seq::<Seq<char>>::empty(), false),
        |acc: (Seq<Seq<char>>, bool), c: char| split_step(acc, c),
    ).0
}

/// One step of greedy wrapping: finished lines and the line being filled.
pub open spec fn wrap_step(acc: (Seq<Seq<char>>, Seq<char>), word: Seq<char>, max: nat) -> (
    Seq<Seq<char>>,
    Seq<char>,
) {
    if acc.1.len() == 0 {
        (acc.0, word)
    } else if acc.1.len() + 1 + word.len() <= max {
        (acc.0, acc.1 + seq![' '] + word)
    } else {
        (acc.0.push(acc.1), word)
    }
}

/// The words of `text` filled greedily into lines of at most `max_chars`
/// characters (a longer word gets a line of its own); at least one line.
pub open spec fn wrapped(text: Seq<char>, max_chars: nat) -> Seq<Seq<char>> {
    let m: nat = if max_chars < 1 { 1 } else { max_chars };
    let acc = words_of(text).fold_left(
        (Seq::<Seq<char>>::empty(), Seq::<char>::empty()),
        |acc: (Seq<Seq<char>>, Seq<char>), w: Seq<char>| wrap_step(acc, w, m),
    );
    let lines = if acc.1.len() > 0 { acc.0.push(acc.1) } else { acc.0 };
    if lines.len() == 0 { seq![Seq::empty()] } else { lines }
}

fn split_words(text: &str) -> (r: Vec<Vec<char>>)
    ensures
        r@.map_values(|w: Vec<char>| w@) == words_of(text@),
{
    let cs = chars_of(text);
    let ghost f = |acc: (Seq<Seq<char>>, bool), c: char| split_step(acc, c);
    let mut words: Vec<Vec<char>> = Vec::new();
    let mut in_word = false;
    let mut i: usize = 0;
    while i < cs.len()
        invariant
            cs@ == text@,
            i <= cs@.len(),
            f == (|acc: (Seq<Seq<char>>, bool), c: char| split_step(acc, c)),
            (words@.map_values(|w: Vec<char>| w@), in_word) == cs@.take(i as int).fold_left(
                (Seq::<Seq<char>>::empty(), false),
                f,
            ),
            in_word ==> words@.len() > 0,
        decreases cs.len() - i,
    {
        proof {
            assert(cs@.take(i + 1).drop_last() =~= cs@.take(i as int));
        }
        let c = cs[i];
        let ghost before = words@.map_values(|w: Vec<char>| w@);
        if char_is_whitespace(c) {
            in_word = false;
        } else if in_word {
            let last = words.len() - 1;
            let mut w = words.remove(last);
            w.push(c);
            words.push(w);
            proof {
                assert(words@.map_values(|w: Vec<char>| w@) =~= before.update(
                    before.len() - 1,
                    before.last().push(c),
                ));
            }
        } else {
            let mut w: Vec<char> = Vec::new();
            w.push(c);
            words.push(w);
            proof {
                assert(words@.map_values(|w: Vec<char>| w@) =~= before.push(seq![c]));
            }
            in_word = true;
        }
        i = i + 1;
    }
    proof {
        assert(cs@.take(cs@.len() as int) =~= cs@);
    }
    words
}

/// Wraps the words of `text` into lines of at most `max_chars` characters.
pub fn wrap_text(text: &str, max_chars: usize) -> (lines: Vec<String>)
    ensures
        views(lines@) == wrapped(text@, max_chars as nat),
{
    let m: usize = if max_chars < 1 {
        1
    } else {
        max_chars
    };
    let words = split_words(text);
    let ghost ws = words@.map_values(|w: Vec<char>| w@);
    let ghost g = |acc: (Seq<Seq<char>>, Seq<char>), w: Seq<char>| wrap_step(acc, w, m as nat);
    let mut lines: Vec<String> = Vec::new();
    let mut current: Vec<char> = Vec::new();
    let mut i: usize = 0;
    while i < words.len()
        invariant
            ws == words@.map_values(|w: Vec<char>| w@),
            ws == words_of(text@),
            i <= words@.len(),
            m >= 1,
            m as nat == (if max_chars < 1 { 1nat } else { max_chars as nat }),
            g == (|acc: (Seq<Seq<char>>, Seq<char>), w: Seq<char>| wrap_step(acc, w, m as nat)),
            (views(lines@), current@) == ws.take(i as int).fold_left(
                (Seq::<Seq<char>>::empty(), Seq::<char>::empty()),
                g,
            ),
        decreases words.len() - i,
    {
        proof {
            assert(ws.take(i + 1).drop_last() =~= ws.take(i as int));
            assert(ws.take(i + 1).last() == words@[i as int]@);
        }
        let word = &words[i];
        if current.len() == 0 {
            current = word.clone();
        } else if current.len() < usize::MAX - word.len() && current.len() + 1 + word.len() <= m {
            current.push(' ');
            let mut k: usize = 0;
            let ghost base = current@;
            while k < word.len()
                invariant
                    k <= word@.len(),
                    current@ == base + word@.take(k as int),
                decreases word.len() - k,
            {
                current.push(word[k]);
                proof {
                    assert(current@ =~= base + word@.take(k + 1));
                }
                k = k + 1;
            }
            proof {
                assert(word@.take(word@.len() as int) =~= word@);
            }
        } else {
            let ghost before = views(lines@);
            let line = string_from_chars(current.as_slice());
            lines.push(line);
            proof {
                assert(views(lines@) =~= before.push(current@));
            }
            current = word.clone();
        }
        i = i + 1;
    }
    proof {
        assert(ws.take(ws.len() as int) =~= ws);
    }
    if current.len() > 0 {
        let ghost before = views(lines@);
        let line = string_from_chars(current.as_slice());
        lines.push(line);
        proof {
            assert(views(lines@) =~= before.push(current@));
        }
    }
    if lines.len() == 0 {
        lines.push(String::new());
        proof {
            assert(views(lines@) =~= seq![Seq::<char>::empty()]);
        }
    }
    lines
}

} // verus!
