//! The Scene Mode compose transcript: turns of user prompts and assistant
//! replies, a bounded history, and the gradual reveal of queued replies.

use vstd::prelude::*;

use crate::conditions::{first_from, first_index};
use crate::text::{
    join, views, blank, char_is_whitespace, chars_of, is_blank, is_ws, join_seq, push_char, string_from_chars,
    take_chars, take_text, trim, trim_seq,
};

verus! {

/// The most messages the transcript keeps; older ones are dropped first.
pub const MAX_COMPOSE_HISTORY: usize = 20;

/// How many recent turns the backend prompt carries as context.
pub const RECENT_CONTEXT_TURNS: usize = 6;

/// How many characters of one message the backend context keeps.
pub const CONTEXT_MESSAGE_MAX_CHARS: usize = 500;

/// The chunk a speaking block reveals per step.
pub const SPEAKING_CHUNK_CHARS: usize = 24;

#[derive(Debug, Clone, Copy, PartialEq, Eq, Structural)]
pub enum VisualComposePhase {
    Idle,
    Running,
    Succeeded,
    Failed,
}

#[derive(Debug, Clone, Copy, PartialEq, Eq, Structural)]
pub enum VisualComposeRole {
    User,
    Assistant,
    System,
    Error,
}

#[derive(Debug, Clone, Copy, PartialEq, Eq, Structural)]
pub enum VisualComposeVisibility {
    Queued,
    Speaking,
    Done,
}

#[derive(Debug, Clone)]
pub struct VisualComposeMessage {
    pub turn_id: u64,
    pub block_index: usize,
    pub role: VisualComposeRole,
    pub text: String,
    pub speaker: Option<String>,
    pub visibility: VisualComposeVisibility,
    /// How many characters are shown; `None` shows the whole text.
    pub revealed_chars: Option<usize>,
}

impl VisualComposeVisibility {
    /// Every block stays visible whatever its speech state: speech is an
    /// enhancement, never the source of truth for the transcript.
    pub fn is_visible(self) -> (b: bool)
        ensures
            b,
    {
        match self {
            VisualComposeVisibility::Queued => true,
            VisualComposeVisibility::Speaking => true,
            VisualComposeVisibility::Done => true,
        }
    }
}

/// A message by its meaning: text by its characters.
pub ghost struct MessageModel {
    pub turn_id: u64,
    pub block_index: usize,
    pub role: VisualComposeRole,
    pub text: Seq<char>,
    pub speaker: Option<Seq<char>>,
    pub visibility: VisualComposeVisibility,
    pub revealed_chars: Option<usize>,
}

impl View for VisualComposeMessage {
    type V = MessageModel;

    open spec fn view(&self) -> MessageModel {
        MessageModel {
            turn_id: self.turn_id,
            block_index: self.block_index,
            role: self.role,
            text: self.text@,
            speaker: match self.speaker {
                Some(s) => Some(s@),
                None => None,
            },
            visibility: self.visibility,
            revealed_chars: self.revealed_chars,
        }
    }
}

/// What a message shows: its first `revealed_chars` characters, or all.
pub open spec fn rendered(m: MessageModel) -> Seq<char> {
    match m.revealed_chars {
        Some(limit) => take_chars(m.text, limit as nat),
        None => m.text,
    }
}

/// An assistant or scene block that is still queued or being spoken.
pub open spec fn revealable(m: MessageModel) -> bool {
    (m.role == VisualComposeRole::Assistant || m.role == VisualComposeRole::System) && (
    m.visibility == VisualComposeVisibility::Queued || m.visibility
        == VisualComposeVisibility::Speaking)
}

/// Showing the whole message, and whether anything was still hidden.
pub open spec fn reveal_all_spec(m: MessageModel) -> (MessageModel, bool) {
    (MessageModel { revealed_chars: None, ..m }, m.revealed_chars is Some)
}

/// One reveal step of a message, and whether more characters show now.
pub open spec fn reveal_chunk_spec(m: MessageModel, chunk: usize) -> (MessageModel, bool) {
    match m.revealed_chars {
        None => (m, false),
        Some(current) => {
            let total = m.text.len();
            if current >= total {
                (MessageModel { revealed_chars: None, ..m }, false)
            } else {
                let next = next_reveal(m.text, current as int, chunk as int);
                (
                    MessageModel {
                        revealed_chars: if next >= total {
                            None
                        } else {
                            Some(next as usize)
                        },
                        ..m
                    },
                    next > current,
                )
            }
        },
    }
}

pub open spec fn is_sentence_mark(c: char) -> bool {
    c == '.' || c == '!' || c == '?' || c == ':'
}

pub open spec fn min_int(a: int, b: int) -> int {
    if a <= b { a } else { b }
}

/// The scan behind a reveal step, from `index` with `width` characters
/// already taken: a paragraph break ends the chunk after the break; once
/// `target` characters are taken the chunk ends at the last sentence mark,
/// else at the last whitespace, else where it is (marks and whitespace only
/// count once `min_b` characters are taken).
pub open spec fn reveal_scan(
    chars: Seq<char>,
    target: int,
    min_b: int,
    index: int,
    width: int,
    sentence: Option<int>,
    word: Option<int>,
) -> int
    decreases chars.len() - index,
{
    if index < 0 || index >= chars.len() {
        chars.len() as int
    } else {
        let w = width + 1;
        let next = index + 1;
        if chars[index] == '\n' && index + 1 < chars.len() && chars[index + 1] == '\n' {
            min_int(next + 1, chars.len() as int)
        } else {
            let s2 = if w >= min_b && is_sentence_mark(chars[index]) {
                Some(next)
            } else {
                sentence
            };
            let w2 = if w >= min_b && is_ws(chars[index]) {
                Some(next)
            } else {
                word
            };
            if w >= target {
                let cut = match s2 {
                    Some(s) => s,
                    None => match w2 {
                        Some(x) => x,
                        None => next,
                    },
                };
                min_int(cut, chars.len() as int)
            } else {
                reveal_scan(chars, target, min_b, index + 1, w, s2, w2)
            }
        }
    }
}

/// How many characters the next reveal step shows, starting from `current`
/// and aiming at `target` more.
pub open spec fn next_reveal(text: Seq<char>, current: int, target: int) -> int {
    if current >= text.len() {
        text.len() as int
    } else {
        let t = if target < 1 { 1 } else { target };
        let mb = if t / 3 < 6 { 6 } else { t / 3 };
        reveal_scan(text, t, mb, current, 0, None, None)
    }
}

proof fn lemma_reveal_scan_bounds(
    chars: Seq<char>,
    target: int,
    min_b: int,
    index: int,
    width: int,
    sentence: Option<int>,
    word: Option<int>,
    lo: int,
)
    requires
        0 <= lo <= index,
        index < chars.len(),
        sentence matches Some(s) ==> lo < s,
        word matches Some(x) ==> lo < x,
    ensures
        lo < reveal_scan(chars, target, min_b, index, width, sentence, word) <= chars.len(),
    decreases chars.len() - index,
{
    let w = width + 1;
    let next = index + 1;
    if chars[index] == '\n' && index + 1 < chars.len() && chars[index + 1] == '\n' {
    } else {
        let s2 = if w >= min_b && is_sentence_mark(chars[index]) {
            Some(next)
        } else {
            sentence
        };
        let w2 = if w >= min_b && is_ws(chars[index]) {
            Some(next)
        } else {
            word
        };
        if w >= target {
        } else if index + 1 < chars.len() {
            lemma_reveal_scan_bounds(chars, target, min_b, index + 1, w, s2, w2, lo);
        } else {
            assert(reveal_scan(chars, target, min_b, index + 1, w, s2, w2) == chars.len());
        }
    }
}

/// A reveal step from inside the text moves strictly forward and never
/// past the end.
pub proof fn law_reveal_advances(text: Seq<char>, current: int, target: int)
    requires
        0 <= current < text.len(),
    ensures
        current < next_reveal(text, current, target) <= text.len(),
{
    let t = if target < 1 { 1 } else { target };
    let mb = if t / 3 < 6 { 6 } else { t / 3 };
    lemma_reveal_scan_bounds(text, t, mb, current, 0, None, None, current);
}

/// How many characters the next fake-stream step reveals, starting from
/// `current_chars` and aiming at `target_chars` more: it prefers to stop at
/// a paragraph break, a sentence end or a word break.
pub fn next_fake_stream_reveal_len(text: &str, current_chars: usize, target_chars: usize) -> (r:
    usize)
    ensures
        r == next_reveal(text@, current_chars as int, target_chars as int),
{
    let chars = chars_of(text);
    let total = chars.len();
    if current_chars >= total {
        return total;
    }
    let target: usize = if target_chars < 1 {
        1
    } else {
        target_chars
    };
    let min_boundary_width: usize = if target / 3 < 6 {
        6
    } else {
        target / 3
    };
    let mut sentence_boundary: Option<usize> = None;
    let mut word_boundary: Option<usize> = None;
    let mut width: usize = 0;
    let mut index: usize = current_chars;
    while index < total
        invariant
            chars@ == text@,
            total == chars@.len(),
            current_chars <= index <= total,
            width == index - current_chars,
            reveal_scan(
                text@,
                target as int,
                min_boundary_width as int,
                index as int,
                width as int,
                match sentence_boundary {
                    Some(s) => Some(s as int),
                    None => None,
                },
                match word_boundary {
                    Some(s) => Some(s as int),
                    None => None,
                },
            ) == next_reveal(text@, current_chars as int, target_chars as int),
        decreases total - index,
    {
        width = width + 1;
        let next = index + 1;
        if chars[index] == '\n' && index + 1 < total && chars[index + 1] == '\n' {
            return if next + 1 <= total {
                next + 1
            } else {
                total
            };
        }
        let c = chars[index];
        if width >= min_boundary_width && (c == '.' || c == '!' || c == '?' || c == ':') {
            sentence_boundary = Some(next);
        }
        if width >= min_boundary_width && char_is_whitespace(c) {
            word_boundary = Some(next);
        }
        if width >= target {
            let cut = match sentence_boundary {
                Some(s) => s,
                None => match word_boundary {
                    Some(x) => x,
                    None => next,
                },
            };
            return if cut <= total {
                cut
            } else {
                total
            };
        }
        index = index + 1;
    }
    total
}

impl VisualComposeMessage {
    /// The text as currently revealed.
    pub fn rendered_text(&self) -> (s: String)
        ensures
            s@ == rendered(self@),
    {
        match self.revealed_chars {
            Some(limit) => take_text(self.text.as_str(), limit),
            None => self.text.clone(),
        }
    }

    pub fn is_revealable(&self) -> (b: bool)
        ensures
            b == revealable(self@),
    {
        (self.role == VisualComposeRole::Assistant || self.role == VisualComposeRole::System) && (
        self.visibility == VisualComposeVisibility::Queued || self.visibility
            == VisualComposeVisibility::Speaking)
    }

    /// The number of characters in the text.
    pub fn reveal_len(&self) -> (n: usize)
        ensures
            n == self@.text.len(),
    {
        chars_of(self.text.as_str()).len()
    }

    /// Shows the whole text; tells whether anything was still hidden.
    pub fn reveal_all(&mut self) -> (changed: bool)
        ensures
            (final(self)@, changed) == reveal_all_spec(old(self)@),
    {
        if self.revealed_chars.is_none() {
            return false;
        }
        self.revealed_chars = None;
        true
    }

    /// Reveals the next chunk; tells whether more characters show now.
    pub fn reveal_next_chunk(&mut self, chunk_chars: usize) -> (changed: bool)
        ensures
            (final(self)@, changed) == reveal_chunk_spec(old(self)@, chunk_chars),
    {
        let current = match self.revealed_chars {
            Some(c) => c,
            None => {
                return false;
            },
        };
        let total = self.reveal_len();
        if current >= total {
            self.revealed_chars = None;
            return false;
        }
        let next = next_fake_stream_reveal_len(self.text.as_str(), current, chunk_chars);
        if next >= total {
            self.revealed_chars = None;
        } else {
            self.revealed_chars = Some(next);
        }
        next > current
    }
}

/// One step of collapsing whitespace: the text so far and whether a word
/// break is pending.
pub open spec fn collapse_step(acc: (Seq<char>, bool), c: char) -> (Seq<char>, bool) {
    if is_ws(c) {
        (acc.0, acc.0.len() > 0)
    } else {
        ((if acc.1 { acc.0.push(' ') } else { acc.0 }).push(c), false)
    }
}

/// The words of `s` joined by single spaces, as
/// `s.split_whitespace().collect::<Vec<_>>().join(" ")`.
pub open spec fn collapse_ws(s: Seq<char>) -> Seq<char> {
    s.fold_left((Seq::<char>::empty(), false), |acc: (Seq<char>, bool), c: char| collapse_step(acc, c)).0
}

/// Context text for the backend: whitespace collapsed, then cut to
/// `max_chars` characters with `...` appended when it was longer.
pub open spec fn capped_context(text: Seq<char>, max_chars: nat) -> Seq<char> {
    let n = collapse_ws(text);
    if n.len() <= max_chars {
        n
    } else {
        n.take(max_chars as int) + seq!['.', '.', '.']
    }
}

pub fn cap_compose_context_text(text: &str, max_chars: usize) -> (r: String)
    ensures
        r@ == capped_context(text@, max_chars as nat),
{
    let cs = chars_of(text);
    let ghost f = |acc: (Seq<char>, bool), c: char| collapse_step(acc, c);
    let mut out: Vec<char> = Vec::new();
    let mut pending = false;
    let mut i: usize = 0;
    while i < cs.len()
        invariant
            cs@ == text@,
            i <= cs@.len(),
            f == (|acc: (Seq<char>, bool), c: char| collapse_step(acc, c)),
            (out@, pending) == cs@.take(i as int).fold_left((Seq::<char>::empty(), false), f),
        decreases cs.len() - i,
    {
        proof {
            assert(cs@.take(i + 1).drop_last() =~= cs@.take(i as int));
        }
        let c = cs[i];
        if char_is_whitespace(c) {
            pending = out.len() > 0;
        } else {
            if pending {
                out.push(' ');
            }
            out.push(c);
            pending = false;
        }
        i = i + 1;
    }
    proof {
        assert(cs@.take(cs@.len() as int) =~= cs@);
    }
    if out.len() <= max_chars {
        return string_from_chars(out.as_slice());
    }
    let mut capped: Vec<char> = Vec::new();
    let mut j: usize = 0;
    while j < max_chars
        invariant
            j <= max_chars < out@.len(),
            capped@ == out@.take(j as int),
        decreases max_chars - j,
    {
        capped.push(out[j]);
        j = j + 1;
    }
    capped.push('.');
    capped.push('.');
    capped.push('.');
    proof {
        assert(capped@ =~= out@.take(max_chars as int) + seq!['.', '.', '.']);
    }
    string_from_chars(capped.as_slice())
}


// ---------------------------------------------------------------- transcript

pub struct VisualComposeRuntimeState {
    pub phase: VisualComposePhase,
    pub history: Vec<VisualComposeMessage>,
    pub last_prompt: Option<String>,
    pub last_reply: Option<String>,
    pub next_turn_id: u64,
    pub active_turn_id: Option<u64>,
    pub active_block_index: usize,
}

/// The transcript by its meaning.
pub ghost struct ComposeModel {
    pub phase: VisualComposePhase,
    pub history: Seq<MessageModel>,
    pub last_prompt: Option<Seq<char>>,
    pub last_reply: Option<Seq<char>>,
    pub next_turn_id: u64,
    pub active_turn_id: Option<u64>,
    pub active_block_index: usize,
}

pub open spec fn opt_view(o: Option<String>) -> Option<Seq<char>> {
    match o {
        Some(s) => Some(s@),
        None => None,
    }
}

pub open spec fn msg_views(h: Seq<VisualComposeMessage>) -> Seq<MessageModel> {
    h.map_values(|m: VisualComposeMessage| m@)
}

impl View for VisualComposeRuntimeState {
    type V = ComposeModel;

    open spec fn view(&self) -> ComposeModel {
        ComposeModel {
            phase: self.phase,
            history: msg_views(self.history@),
            last_prompt: opt_view(self.last_prompt),
            last_reply: opt_view(self.last_reply),
            next_turn_id: self.next_turn_id,
            active_turn_id: self.active_turn_id,
            active_block_index: self.active_block_index,
        }
    }
}

pub open spec fn sat_inc_u64(x: u64) -> u64 {
    if x < u64::MAX { (x + 1) as u64 } else { x }
}

pub open spec fn sat_inc_usize(x: usize) -> usize {
    if x < usize::MAX { (x + 1) as usize } else { x }
}

/// The empty transcript: no turns yet, the first turn id is 1.
pub open spec fn fresh_compose() -> ComposeModel {
    ComposeModel {
        phase: VisualComposePhase::Idle,
        history: Seq::empty(),
        last_prompt: None,
        last_reply: None,
        next_turn_id: 1,
        active_turn_id: None,
        active_block_index: 0,
    }
}

/// Takes the next turn id.
pub open spec fn allocate_spec(m: ComposeModel) -> (ComposeModel, u64) {
    (ComposeModel { next_turn_id: sat_inc_u64(m.next_turn_id), ..m }, m.next_turn_id)
}

/// The active turn, or a newly allocated one that becomes active.
pub open spec fn active_or_new_spec(m: ComposeModel) -> (ComposeModel, u64) {
    match m.active_turn_id {
        Some(t) => (m, t),
        None => {
            let (m1, t) = allocate_spec(m);
            (ComposeModel { active_turn_id: Some(t), active_block_index: 0, ..m1 }, t)
        },
    }
}

/// The next block index of turn `t`: blocks of one turn count up from 0.
pub open spec fn block_index_spec(m: ComposeModel, t: u64) -> (ComposeModel, usize) {
    let b = if m.active_turn_id == Some(t) { m.active_block_index } else { 0 };
    (ComposeModel { active_turn_id: Some(t), active_block_index: sat_inc_usize(b), ..m }, b)
}

/// The history after appending `msg`, keeping the most recent messages.
pub open spec fn capped_push(h: Seq<MessageModel>, msg: MessageModel) -> Seq<MessageModel> {
    let p = h.push(msg);
    if p.len() > MAX_COMPOSE_HISTORY {
        p.skip(p.len() - MAX_COMPOSE_HISTORY)
    } else {
        p
    }
}

/// Appending a block to turn `t`: blank text is not recorded.
pub open spec fn push_spec(
    m: ComposeModel,
    role: VisualComposeRole,
    text: Seq<char>,
    speaker: Option<Seq<char>>,
    t: u64,
    visibility: VisualComposeVisibility,
    revealed: Option<usize>,
) -> (ComposeModel, Option<(u64, usize)>) {
    if blank(text) {
        (m, None)
    } else {
        let (m1, b) = block_index_spec(m, t);
        let msg = MessageModel {
            turn_id: t,
            block_index: b,
            role,
            text,
            speaker,
            visibility,
            revealed_chars: revealed,
        };
        (ComposeModel { history: capped_push(m1.history, msg), ..m1 }, Some((t, b)))
    }
}

/// Every message fully shown, and whether any was still partly hidden.
pub open spec fn reveal_everything(h: Seq<MessageModel>) -> Seq<MessageModel> {
    h.map_values(|m: MessageModel| MessageModel { revealed_chars: None, ..m })
}

pub open spec fn any_hidden(h: Seq<MessageModel>) -> bool {
    exists|i: int| 0 <= i < h.len() && (#[trigger] h[i]).revealed_chars is Some
}

/// The speaker a reply is shown under: the trimmed name, or `Codex`.
pub open spec fn reply_speaker(speaker: Seq<char>) -> Seq<char> {
    if blank(speaker) { "Codex"@ } else { trim_seq(speaker) }
}

/// A prompt submitted: pending reveals finish, a new turn opens with the
/// user's prompt as its first block.
pub open spec fn running_spec(m: ComposeModel, prompt: Seq<char>) -> ComposeModel {
    let m1 = ComposeModel {
        phase: VisualComposePhase::Running,
        history: reveal_everything(m.history),
        last_prompt: Some(prompt),
        last_reply: None,
        ..m
    };
    let (m2, t) = allocate_spec(m1);
    let m3 = ComposeModel { active_turn_id: Some(t), active_block_index: 0, ..m2 };
    push_spec(m3, VisualComposeRole::User, prompt, None, t, VisualComposeVisibility::Done, None).0
}

/// A reply received: it joins the active turn under its speaker.
pub open spec fn succeeded_spec(m: ComposeModel, speaker: Seq<char>, reply: Seq<char>) -> ComposeModel {
    let m1 = ComposeModel { phase: VisualComposePhase::Succeeded, last_reply: Some(reply), ..m };
    let (m2, t) = active_or_new_spec(m1);
    push_spec(
        m2,
        VisualComposeRole::Assistant,
        reply,
        Some(reply_speaker(speaker)),
        t,
        VisualComposeVisibility::Done,
        None,
    ).0
}

/// A failure: its reason joins the active turn as an error block.
pub open spec fn failed_spec(m: ComposeModel, reason: Seq<char>) -> ComposeModel {
    let m1 = ComposeModel { phase: VisualComposePhase::Failed, last_reply: Some(reason), ..m };
    let (m2, t) = active_or_new_spec(m1);
    push_spec(m2, VisualComposeRole::Error, reason, None, t, VisualComposeVisibility::Done, None).0
}

/// The transcript emptied; turn ids keep counting.
pub open spec fn cleared_spec(m: ComposeModel) -> ComposeModel {
    ComposeModel {
        phase: VisualComposePhase::Idle,
        history: Seq::empty(),
        last_prompt: None,
        last_reply: None,
        active_turn_id: None,
        active_block_index: 0,
        ..m
    }
}

/// Appending reply blocks one by one to turn `t`, collecting the ids of
/// those recorded.
pub open spec fn push_blocks_spec(
    m: ComposeModel,
    blocks: Seq<Seq<char>>,
    speaker: Seq<char>,
    t: u64,
    reveal_all: bool,
) -> (ComposeModel, Seq<(u64, usize)>)
    decreases blocks.len(),
{
    if blocks.len() == 0 {
        (m, Seq::empty())
    } else {
        let (m1, ids) = push_blocks_spec(m, blocks.drop_last(), speaker, t, reveal_all);
        let (m2, id) = push_spec(
            m1,
            VisualComposeRole::Assistant,
            blocks.last(),
            Some(speaker),
            t,
            if reveal_all {
                VisualComposeVisibility::Done
            } else {
                VisualComposeVisibility::Queued
            },
            if reveal_all {
                None
            } else {
                Some(0usize)
            },
        );
        (
            m2,
            match id {
                Some(x) => ids.push(x),
                None => ids,
            },
        )
    }
}

/// A reply in blocks: each non-blank block joins the active turn; unless
/// `reveal_all`, blocks start queued and hidden.
pub open spec fn succeeded_blocks_spec(
    m: ComposeModel,
    speaker: Seq<char>,
    blocks: Seq<Seq<char>>,
    reveal_all: bool,
) -> (ComposeModel, Seq<(u64, usize)>) {
    let m1 = ComposeModel {
        phase: VisualComposePhase::Succeeded,
        last_reply: Some(join_seq(blocks, "\n\n"@)),
        ..m
    };
    let (m2, t) = active_or_new_spec(m1);
    push_blocks_spec(m2, blocks, reply_speaker(speaker), t, reveal_all)
}

pub open spec fn block_is(t: u64, b: usize) -> spec_fn(MessageModel) -> bool {
    |m: MessageModel| m.turn_id == t && m.block_index == b
}

/// Index of the first message of block `(t, b)`, or the history length.
pub open spec fn block_position(h: Seq<MessageModel>, t: u64, b: usize) -> int {
    first_index(h, block_is(t, b))
}

/// Setting a block's visibility; user prompts keep theirs.
pub open spec fn set_visibility_spec(
    m: ComposeModel,
    t: u64,
    b: usize,
    v: VisualComposeVisibility,
) -> (ComposeModel, bool) {
    let k = block_position(m.history, t, b);
    if k >= m.history.len() || m.history[k].role == VisualComposeRole::User {
        (m, false)
    } else {
        (
            ComposeModel {
                history: m.history.update(k, MessageModel { visibility: v, ..m.history[k] }),
                ..m
            },
            true,
        )
    }
}

/// One reveal step of block `(t, b)`.
pub open spec fn block_chunk_spec(m: ComposeModel, t: u64, b: usize, chunk: usize) -> (
    ComposeModel,
    bool,
) {
    let k = block_position(m.history, t, b);
    if k >= m.history.len() {
        (m, false)
    } else {
        let (msg, changed) = reveal_chunk_spec(m.history[k], if chunk < 1 { 1 } else { chunk });
        (ComposeModel { history: m.history.update(k, msg), ..m }, changed)
    }
}

/// Block `(t, b)` fully shown.
pub open spec fn block_all_spec(m: ComposeModel, t: u64, b: usize) -> (ComposeModel, bool) {
    let k = block_position(m.history, t, b);
    if k >= m.history.len() {
        (m, false)
    } else {
        let (msg, changed) = reveal_all_spec(m.history[k]);
        (ComposeModel { history: m.history.update(k, msg), ..m }, changed)
    }
}

pub open spec fn pending_reveal(m: MessageModel) -> bool {
    revealable(m) && m.revealed_chars is Some
}

pub open spec fn pending_p() -> spec_fn(MessageModel) -> bool {
    |x: MessageModel| pending_reveal(x)
}

/// One reveal step of the earliest block still being revealed.
pub open spec fn advance_spec(m: ComposeModel, chunk: usize) -> (ComposeModel, bool) {
    let k = first_index(m.history, pending_p());
    if k >= m.history.len() {
        (m, false)
    } else {
        let (msg, changed) = reveal_chunk_spec(m.history[k], if chunk < 1 { 1 } else { chunk });
        (ComposeModel { history: m.history.update(k, msg), ..m }, changed)
    }
}

pub open spec fn speaks(m: MessageModel) -> bool {
    (m.role == VisualComposeRole::Assistant || m.role == VisualComposeRole::System)
        && m.speaker is Some
}

/// Index of the last message satisfying `p` before `j`, or -1.
pub open spec fn last_before<T>(s: Seq<T>, p: spec_fn(T) -> bool, j: int) -> int
    decreases j,
{
    if j <= 0 {
        -1
    } else if p(s[j - 1]) {
        j - 1
    } else {
        last_before(s, p, j - 1)
    }
}

/// The speaker of the latest assistant or scene block that names one.
pub open spec fn latest_speaker(h: Seq<MessageModel>) -> Option<Seq<char>> {
    let k = last_before(h, |x: MessageModel| speaks(x), h.len() as int);
    if 0 <= k { h[k].speaker } else { None }
}

/// The turn ids of the history with consecutive repeats collapsed.
pub open spec fn dedup_turns(h: Seq<MessageModel>) -> Seq<u64>
    decreases h.len(),
{
    if h.len() == 0 {
        Seq::empty()
    } else {
        let d = dedup_turns(h.drop_last());
        if d.len() > 0 && d.last() == h.last().turn_id {
            d
        } else {
            d.push(h.last().turn_id)
        }
    }
}

/// The last `n` elements (all of them when there are fewer).
pub open spec fn last_n<T>(s: Seq<T>, n: nat) -> Seq<T> {
    if s.len() > n { s.skip(s.len() - n) } else { s }
}

/// The name a message is quoted under in the backend context.
pub open spec fn context_label(m: MessageModel) -> Seq<char> {
    match m.role {
        VisualComposeRole::User => "User"@,
        VisualComposeRole::Assistant => match m.speaker {
            Some(sp) => if blank(sp) { "Assistant"@ } else { sp },
            None => "Assistant"@,
        },
        VisualComposeRole::System => "Scene"@,
        VisualComposeRole::Error => "Error"@,
    }
}

/// The quoted lines of turn `t`: `label: text`, text capped, empty ones
/// left out.
pub open spec fn turn_lines(h: Seq<MessageModel>, t: u64, max_chars: nat) -> Seq<Seq<char>>
    decreases h.len(),
{
    if h.len() == 0 {
        Seq::empty()
    } else {
        let prev = turn_lines(h.drop_last(), t, max_chars);
        let m = h.last();
        let text = capped_context(m.text, max_chars);
        if m.turn_id == t && text.len() > 0 {
            prev.push(context_label(m) + ": "@ + text)
        } else {
            prev
        }
    }
}

/// One paragraph per turn that has quoted lines.
pub open spec fn turn_paragraphs(h: Seq<MessageModel>, ts: Seq<u64>, max_chars: nat) -> Seq<
    Seq<char>,
>
    decreases ts.len(),
{
    if ts.len() == 0 {
        Seq::empty()
    } else {
        let prev = turn_paragraphs(h, ts.drop_last(), max_chars);
        let ls = turn_lines(h, ts.last(), max_chars);
        if ls.len() == 0 {
            prev
        } else {
            prev.push(join_seq(ls, "\n"@))
        }
    }
}

/// The recent turns quoted for the backend: the last `max_turns` turns,
/// each as its lines, separated by blank lines.
pub open spec fn turn_summary(h: Seq<MessageModel>, max_turns: nat, max_chars: nat) -> Seq<char> {
    join_seq(turn_paragraphs(h, last_n(dedup_turns(h), max_turns), max_chars), "\n\n"@)
}

pub open spec fn context_intro() -> Seq<char> {
    "GameTerm Scene Mode conversation context follows. Use it for continuity across Scene Mode turns. If the latest user prompt is a fragment, answer it as a continuation of the recent turns. Do not say you lack prior context when the recent turns provide it.\n\nLatest user prompt:\n"@
}

pub open spec fn context_middle() -> Seq<char> {
    "\n\nRecent turns:\n"@
}

pub open spec fn context_rules() -> Seq<char> {
    "\n\nResponse rules:\n- Answer the latest user prompt.\n- Use recent turns as background, not as a topic switch.\n- Keep useful technical details visible when they matter.\n- Return only the assistant reply text unless a structured Scene Mode JSON patch is specifically needed."@
}

/// The prompt sent to the backend: the trimmed prompt alone when there is
/// no usable context, else wrapped with the recent turns.
pub open spec fn backend_prompt(m: ComposeModel, prompt: Seq<char>) -> Seq<char> {
    let p = trim_seq(prompt);
    if m.history.len() == 0 {
        p
    } else {
        let recent = turn_summary(m.history, RECENT_CONTEXT_TURNS as nat, CONTEXT_MESSAGE_MAX_CHARS as nat);
        if blank(recent) {
            p
        } else {
            context_intro() + p + context_middle() + recent + context_rules()
        }
    }
}

impl VisualComposeRuntimeState {
    pub fn new() -> (s: Self)
        ensures
            s@ == fresh_compose(),
    {
        let s = VisualComposeRuntimeState {
            phase: VisualComposePhase::Idle,
            history: Vec::new(),
            last_prompt: None,
            last_reply: None,
            next_turn_id: 1,
            active_turn_id: None,
            active_block_index: 0,
        };
        proof {
            assert(s@.history =~= Seq::<MessageModel>::empty());
        }
        s
    }

    pub fn allocate_turn_id(&mut self) -> (t: u64)
        ensures
            (final(self)@, t) == allocate_spec(old(self)@),
    {
        let t = self.next_turn_id;
        self.next_turn_id = self.next_turn_id.saturating_add(1);
        t
    }

    pub fn active_or_new_turn_id(&mut self) -> (t: u64)
        ensures
            (final(self)@, t) == active_or_new_spec(old(self)@),
    {
        match self.active_turn_id {
            Some(t) => t,
            None => {
                let t = self.allocate_turn_id();
                self.active_turn_id = Some(t);
                self.active_block_index = 0;
                t
            },
        }
    }

    pub fn next_block_index_for_turn(&mut self, turn_id: u64) -> (b: usize)
        ensures
            (final(self)@, b) == block_index_spec(old(self)@, turn_id),
    {
        if self.active_turn_id != Some(turn_id) {
            self.active_turn_id = Some(turn_id);
            self.active_block_index = 0;
        }
        let b = self.active_block_index;
        self.active_block_index = self.active_block_index.saturating_add(1);
        b
    }

    /// Records a block of turn `turn_id`; blank text is ignored. The
    /// history keeps at most `MAX_COMPOSE_HISTORY` messages.
    pub fn push_message_with_speaker(
        &mut self,
        role: VisualComposeRole,
        text: String,
        speaker: Option<String>,
        turn_id: u64,
        visibility: VisualComposeVisibility,
        revealed_chars: Option<usize>,
    ) -> (r: Option<(u64, usize)>)
        ensures
            (final(self)@, r) == push_spec(
                old(self)@,
                role,
                text@,
                opt_view(speaker),
                turn_id,
                visibility,
                revealed_chars,
            ),
    {
        if is_blank(text.as_str()) {
            return None;
        }
        let block_index = self.next_block_index_for_turn(turn_id);
        let msg = VisualComposeMessage {
            turn_id,
            block_index,
            role,
            text,
            speaker,
            visibility,
            revealed_chars,
        };
        let ghost before = msg_views(self.history@);
        let ghost mv = msg@;
        let ghost m1 = self@;
        self.history.push(msg);
        proof {
            assert(msg_views(self.history@) =~= before.push(mv));
        }
        let ghost full = before.push(mv);
        let total = self.history.len();
        let mut removed: usize = 0;
        while self.history.len() > MAX_COMPOSE_HISTORY
            invariant
                full.len() == before.len() + 1,
                full.len() == total,
                removed <= full.len(),
                msg_views(self.history@) == full.skip(removed as int),
                self.history@.len() == full.len() - removed,
                full.len() > MAX_COMPOSE_HISTORY ==> removed <= full.len() - MAX_COMPOSE_HISTORY,
                full.len() <= MAX_COMPOSE_HISTORY ==> removed == 0,
                self.phase == m1.phase,
                opt_view(self.last_prompt) == m1.last_prompt,
                opt_view(self.last_reply) == m1.last_reply,
                self.next_turn_id == m1.next_turn_id,
                self.active_turn_id == m1.active_turn_id,
                self.active_block_index == m1.active_block_index,
            decreases self.history.len(),
        {
            let ghost pre = self.history@;
            assert(removed + 1 <= full.len() - MAX_COMPOSE_HISTORY);
            self.history.remove(0);
            proof {
                assert(self.history@ =~= pre.skip(1));
                assert forall|k: int| 0 <= k < self.history@.len() implies #[trigger] msg_views(
                    self.history@,
                )[k] == full.skip(removed + 1)[k] by {
                    assert(self.history@[k] == pre[k + 1]);
                    assert(msg_views(pre)[k + 1] == full.skip(removed as int)[k + 1]);
                }
                assert(msg_views(self.history@) =~= full.skip(removed + 1));
            }
            removed = removed + 1;
        }
        proof {
            if full.len() <= MAX_COMPOSE_HISTORY {
                assert(full.skip(0) =~= full);
            }
        }
        Some((turn_id, block_index))
    }

    pub fn push_message(&mut self, role: VisualComposeRole, text: String)
        ensures
            final(self)@ == ({
                let (m1, t) = active_or_new_spec(old(self)@);
                push_spec(m1, role, text@, None, t, VisualComposeVisibility::Done, None).0
            }),
    {
        let turn_id = self.active_or_new_turn_id();
        let _ = self.push_message_with_speaker(
            role,
            text,
            None,
            turn_id,
            VisualComposeVisibility::Done,
            None,
        );
    }

    pub fn clear(&mut self)
        ensures
            final(self)@ == cleared_spec(old(self)@),
    {
        self.phase = VisualComposePhase::Idle;
        self.history.clear();
        self.last_prompt = None;
        self.last_reply = None;
        self.active_turn_id = None;
        self.active_block_index = 0;
        proof {
            assert(msg_views(self.history@) =~= Seq::<MessageModel>::empty());
        }
    }

    pub fn set_phase_and_history(&mut self, phase: VisualComposePhase)
        ensures
            final(self)@ == (ComposeModel { phase, ..old(self)@ }),
    {
        self.phase = phase;
    }

    /// Shows every message in full; tells whether any was partly hidden.
    pub fn reveal_all_pending(&mut self) -> (changed: bool)
        ensures
            final(self)@ == (ComposeModel {
                history: reveal_everything(old(self)@.history),
                ..old(self)@
            }),
            changed == any_hidden(old(self)@.history),
    {
        let ghost h0 = old(self)@.history;
        let mut changed = false;
        let mut i: usize = 0;
        while i < self.history.len()
            invariant
                h0 == old(self)@.history,
                self.history@.len() == h0.len(),
                i <= h0.len(),
                self.phase == old(self).phase,
                self.last_prompt == old(self).last_prompt,
                self.last_reply == old(self).last_reply,
                self.next_turn_id == old(self).next_turn_id,
                self.active_turn_id == old(self).active_turn_id,
                self.active_block_index == old(self).active_block_index,
                forall|k: int|
                    0 <= k < h0.len() ==> (#[trigger] msg_views(self.history@)[k]) == (if k < i {
                        MessageModel { revealed_chars: None, ..h0[k] }
                    } else {
                        h0[k]
                    }),
                changed == exists|k: int| 0 <= k < i && (#[trigger] h0[k]).revealed_chars is Some,
            decreases self.history.len() - i,
        {
            let ghost pre = self.history@;
            proof {
                assert(msg_views(pre)[i as int] == pre[i as int]@);
            }
            let c = self.history[i].reveal_all();
            proof {
                assert(self.history@ =~= pre.update(i as int, self.history@[i as int]));
                assert forall|k: int| 0 <= k < h0.len() implies (#[trigger] msg_views(
                    self.history@,
                )[k]) == (if k < i + 1 {
                    MessageModel { revealed_chars: None, ..h0[k] }
                } else {
                    h0[k]
                }) by {
                    if k != i {
                        assert(msg_views(pre)[k] == pre[k]@);
                    }
                }
                assert(c == h0[i as int].revealed_chars is Some);
                if c {
                    assert(h0[i as int].revealed_chars is Some);
                }
            }
            changed = changed || c;
            i = i + 1;
        }
        proof {
            assert(msg_views(self.history@) =~= reveal_everything(h0));
        }
        changed
    }

    /// Index of block `(turn_id, block_index)` in the history.
    fn find_block(&self, turn_id: u64, block_index: usize) -> (r: Option<usize>)
        ensures
            r matches Some(k) ==> k == block_position(self@.history, turn_id, block_index) && k
                < self.history@.len(),
            r is None ==> block_position(self@.history, turn_id, block_index)
                == self.history@.len(),
    {
        let ghost h = self@.history;
        let ghost p = block_is(turn_id, block_index);
        let mut i: usize = 0;
        while i < self.history.len()
            invariant
                h == self@.history,
                p == block_is(turn_id, block_index),
                i <= h.len(),
                first_from(h, p, i as int) == first_index(h, p),
            decreases self.history.len() - i,
        {
            if self.history[i].turn_id == turn_id && self.history[i].block_index == block_index {
                return Some(i);
            }
            i = i + 1;
        }
        None
    }

    pub fn set_block_visibility(
        &mut self,
        turn_id: u64,
        block_index: usize,
        visibility: VisualComposeVisibility,
    ) -> (changed: bool)
        ensures
            (final(self)@, changed) == set_visibility_spec(
                old(self)@,
                turn_id,
                block_index,
                visibility,
            ),
    {
        let k = match self.find_block(turn_id, block_index) {
            Some(k) => k,
            None => {
                return false;
            },
        };
        if self.history[k].role == VisualComposeRole::User {
            return false;
        }
        let ghost h0 = self@.history;
        self.history[k].visibility = visibility;
        proof {
            assert(msg_views(self.history@) =~= h0.update(
                k as int,
                MessageModel { visibility: visibility, ..h0[k as int] },
            ));
        }
        true
    }

    pub fn reveal_block_next_chunk(&mut self, turn_id: u64, block_index: usize, chunk_chars: usize) -> (changed: bool)
        ensures
            (final(self)@, changed) == block_chunk_spec(old(self)@, turn_id, block_index, chunk_chars),
    {
        let k = match self.find_block(turn_id, block_index) {
            Some(k) => k,
            None => {
                return false;
            },
        };
        let ghost h0 = self@.history;
        let chunk = if chunk_chars < 1 {
            1
        } else {
            chunk_chars
        };
        let changed = self.history[k].reveal_next_chunk(chunk);
        proof {
            assert(msg_views(self.history@) =~= h0.update(
                k as int,
                reveal_chunk_spec(h0[k as int], chunk).0,
            ));
        }
        changed
    }

    pub fn reveal_block_all(&mut self, turn_id: u64, block_index: usize) -> (changed: bool)
        ensures
            (final(self)@, changed) == block_all_spec(old(self)@, turn_id, block_index),
    {
        let k = match self.find_block(turn_id, block_index) {
            Some(k) => k,
            None => {
                return false;
            },
        };
        let ghost h0 = self@.history;
        let changed = self.history[k].reveal_all();
        proof {
            assert(msg_views(self.history@) =~= h0.update(k as int, reveal_all_spec(h0[k as int]).0));
        }
        changed
    }

    /// Block `(turn_id, block_index)` starts speaking: it becomes visible as
    /// speaking and reveals one more chunk.
    pub fn mark_block_speaking(&mut self, turn_id: u64, block_index: usize) -> (changed: bool)
        ensures
            ({
                let (m1, v) = set_visibility_spec(
                    old(self)@,
                    turn_id,
                    block_index,
                    VisualComposeVisibility::Speaking,
                );
                let (m2, c) = block_chunk_spec(m1, turn_id, block_index, SPEAKING_CHUNK_CHARS);
                final(self)@ == m2 && changed == (v || c)
            }),
    {
        let visibility_changed = self.set_block_visibility(
            turn_id,
            block_index,
            VisualComposeVisibility::Speaking,
        );
        let reveal_changed = self.reveal_block_next_chunk(turn_id, block_index, SPEAKING_CHUNK_CHARS);
        visibility_changed || reveal_changed
    }

    /// Block `(turn_id, block_index)` is done speaking: it shows in full.
    pub fn mark_block_done(&mut self, turn_id: u64, block_index: usize) -> (changed: bool)
        ensures
            ({
                let (m1, v) = set_visibility_spec(
                    old(self)@,
                    turn_id,
                    block_index,
                    VisualComposeVisibility::Done,
                );
                let (m2, c) = block_all_spec(m1, turn_id, block_index);
                final(self)@ == m2 && changed == (v || c)
            }),
    {
        let visibility_changed = self.set_block_visibility(
            turn_id,
            block_index,
            VisualComposeVisibility::Done,
        );
        let reveal_changed = self.reveal_block_all(turn_id, block_index);
        visibility_changed || reveal_changed
    }

    /// Reveals the next chunk of the earliest block still being revealed.
    pub fn advance_reveal(&mut self, chunk_chars: usize) -> (changed: bool)
        ensures
            (final(self)@, changed) == advance_spec(old(self)@, chunk_chars),
    {
        let ghost h = self@.history;
        let ghost p = pending_p();
        let mut i: usize = 0;
        while i < self.history.len()
            invariant
                h == self@.history,
                self@ == old(self)@,
                p == pending_p(),
                i <= h.len(),
                first_from(h, p, i as int) == first_index(h, p),
            decreases self.history.len() - i,
        {
            proof {
                assert(h[i as int] == self.history@[i as int]@);
            }
            if self.history[i].is_revealable() && self.history[i].revealed_chars.is_some() {
                let chunk = if chunk_chars < 1 {
                    1
                } else {
                    chunk_chars
                };
                let changed = self.history[i].reveal_next_chunk(chunk);
                proof {
                    assert(msg_views(self.history@) =~= h.update(
                        i as int,
                        reveal_chunk_spec(h[i as int], chunk).0,
                    ));
                }
                return changed;
            }
            i = i + 1;
        }
        false
    }

    /// A prompt was submitted: finishes pending reveals and opens a new turn
    /// whose first block is the prompt.
    pub fn mark_running(&mut self, prompt: &str)
        ensures
            final(self)@ == running_spec(old(self)@, prompt@),
    {
        self.reveal_all_pending();
        self.set_phase_and_history(VisualComposePhase::Running);
        self.last_prompt = Some(String::from_str(prompt));
        self.last_reply = None;
        let turn_id = self.allocate_turn_id();
        self.active_turn_id = Some(turn_id);
        self.active_block_index = 0;
        let _ = self.push_message_with_speaker(
            VisualComposeRole::User,
            String::from_str(prompt),
            None,
            turn_id,
            VisualComposeVisibility::Done,
            None,
        );
    }

    /// A reply arrived: it joins the active turn under its speaker.
    pub fn mark_succeeded(&mut self, speaker: &str, reply: &str)
        ensures
            final(self)@ == succeeded_spec(old(self)@, speaker@, reply@),
    {
        self.set_phase_and_history(VisualComposePhase::Succeeded);
        self.last_reply = Some(String::from_str(reply));
        let name = if is_blank(speaker) {
            String::from_str("Codex")
        } else {
            trim(speaker)
        };
        proof {
            reveal_strlit("Codex");
        }
        let turn_id = self.active_or_new_turn_id();
        let _ = self.push_message_with_speaker(
            VisualComposeRole::Assistant,
            String::from_str(reply),
            Some(name),
            turn_id,
            VisualComposeVisibility::Done,
            None,
        );
    }

    /// A reply in blocks arrived: each non-blank block joins the active
    /// turn, queued and hidden unless `reveal_all`; returns the ids of the
    /// recorded blocks.
    pub fn mark_succeeded_blocks(&mut self, speaker: &str, blocks: &[String], reveal_all: bool) -> (ids: Vec<(u64, usize)>)
        ensures
            (final(self)@, ids@) == succeeded_blocks_spec(old(self)@, speaker@, views(blocks@), reveal_all),
    {
        self.set_phase_and_history(VisualComposePhase::Succeeded);
        self.last_reply = Some(join(blocks, "\n\n"));
        let name = if is_blank(speaker) {
            String::from_str("Codex")
        } else {
            trim(speaker)
        };
        let turn_id = self.active_or_new_turn_id();
        let ghost m2 = self@;
        let visibility = if reveal_all {
            VisualComposeVisibility::Done
        } else {
            VisualComposeVisibility::Queued
        };
        let revealed: Option<usize> = if reveal_all {
            None
        } else {
            Some(0)
        };
        let mut ids: Vec<(u64, usize)> = Vec::new();
        let mut i: usize = 0;
        while i < blocks.len()
            invariant
                i <= blocks@.len(),
                name@ == reply_speaker(speaker@),
                visibility == (if reveal_all {
                    VisualComposeVisibility::Done
                } else {
                    VisualComposeVisibility::Queued
                }),
                revealed == (if reveal_all {
                    None
                } else {
                    Some(0usize)
                }),
                (self@, ids@) == push_blocks_spec(
                    m2,
                    views(blocks@.take(i as int)),
                    name@,
                    turn_id,
                    reveal_all,
                ),
            decreases blocks.len() - i,
        {
            proof {
                assert(views(blocks@.take(i + 1)).drop_last() =~= views(blocks@.take(i as int)));
                assert(views(blocks@.take(i + 1)).last() == blocks@[i as int]@);
            }
            let id = self.push_message_with_speaker(
                VisualComposeRole::Assistant,
                blocks[i].clone(),
                Some(name.clone()),
                turn_id,
                visibility,
                revealed,
            );
            match id {
                Some(x) => ids.push(x),
                None => {},
            }
            i = i + 1;
        }
        proof {
            assert(blocks@.take(blocks@.len() as int) =~= blocks@);
        }
        ids
    }

    /// The request failed: the reason joins the active turn as an error.
    pub fn mark_failed(&mut self, reason: &str)
        ensures
            final(self)@ == failed_spec(old(self)@, reason@),
    {
        self.set_phase_and_history(VisualComposePhase::Failed);
        self.last_reply = Some(String::from_str(reason));
        self.push_message(VisualComposeRole::Error, String::from_str(reason));
    }

    /// The lines of turn `turn_id`, as quoted for the backend.
    fn turn_context_lines(&self, turn_id: u64, max_message_chars: usize) -> (r: Vec<String>)
        ensures
            views(r@) == turn_lines(self@.history, turn_id, max_message_chars as nat),
    {
        let ghost h = self@.history;
        let mut lines: Vec<String> = Vec::new();
        let mut i: usize = 0;
        while i < self.history.len()
            invariant
                h == self@.history,
                i <= h.len(),
                views(lines@) == turn_lines(h.take(i as int), turn_id, max_message_chars as nat),
            decreases self.history.len() - i,
        {
            proof {
                assert(h.take(i + 1).drop_last() =~= h.take(i as int));
                assert(h.take(i + 1).last() == self.history@[i as int]@);
            }
            let m = &self.history[i];
            let text = cap_compose_context_text(m.text.as_str(), max_message_chars);
            if m.turn_id == turn_id && !text.as_str().is_empty() {
                let mut line = match m.role {
                    VisualComposeRole::User => String::from_str("User"),
                    VisualComposeRole::Assistant => match &m.speaker {
                        Some(sp) => if is_blank(sp.as_str()) {
                            String::from_str("Assistant")
                        } else {
                            sp.clone()
                        },
                        None => String::from_str("Assistant"),
                    },
                    VisualComposeRole::System => String::from_str("Scene"),
                    VisualComposeRole::Error => String::from_str("Error"),
                };
                line.append(": ");
                line.append(text.as_str());
                let ghost before = lines@;
                lines.push(line);
                proof {
                    assert(views(lines@) =~= views(before).push(line@));
                }
            }
            i = i + 1;
        }
        proof {
            assert(h.take(h.len() as int) =~= h);
        }
        lines
    }

    /// The last `max_turns` turns quoted for the backend, each message
    /// capped at `max_message_chars` characters.
    pub fn recent_turn_context_summary(&self, max_turns: usize, max_message_chars: usize) -> (r: String)
        ensures
            r@ == turn_summary(self@.history, max_turns as nat, max_message_chars as nat),
    {
        let ghost h = self@.history;
        let mut turn_ids: Vec<u64> = Vec::new();
        let mut i: usize = 0;
        while i < self.history.len()
            invariant
                h == self@.history,
                i <= h.len(),
                turn_ids@ == dedup_turns(h.take(i as int)),
            decreases self.history.len() - i,
        {
            proof {
                assert(h.take(i + 1).drop_last() =~= h.take(i as int));
                assert(h.take(i + 1).last() == self.history@[i as int]@);
            }
            let t = self.history[i].turn_id;
            let n = turn_ids.len();
            if !(n > 0 && turn_ids[n - 1] == t) {
                turn_ids.push(t);
            }
            i = i + 1;
        }
        proof {
            assert(h.take(h.len() as int) =~= h);
        }
        let ghost all = turn_ids@;
        let mut recent: Vec<u64> = Vec::new();
        let start: usize = if turn_ids.len() > max_turns {
            turn_ids.len() - max_turns
        } else {
            0
        };
        let mut k: usize = start;
        while k < turn_ids.len()
            invariant
                turn_ids@ == all,
                start <= k <= all.len(),
                recent@ == all.subrange(start as int, k as int),
            decreases turn_ids.len() - k,
        {
            recent.push(turn_ids[k]);
            k = k + 1;
        }
        proof {
            assert(recent@ =~= last_n(all, max_turns as nat));
        }
        let ghost ts = recent@;
        let mut paragraphs: Vec<String> = Vec::new();
        let mut j: usize = 0;
        while j < recent.len()
            invariant
                h == self@.history,
                recent@ == ts,
                j <= ts.len(),
                views(paragraphs@) == turn_paragraphs(h, ts.take(j as int), max_message_chars as nat),
            decreases recent.len() - j,
        {
            proof {
                assert(ts.take(j + 1).drop_last() =~= ts.take(j as int));
            }
            let lines = self.turn_context_lines(recent[j], max_message_chars);
            if lines.len() > 0 {
                let para = join(lines.as_slice(), "\n");
                let ghost before = paragraphs@;
                paragraphs.push(para);
                proof {
                    assert(views(paragraphs@) =~= views(before).push(para@));
                }
            }
            j = j + 1;
        }
        proof {
            assert(ts.take(ts.len() as int) =~= ts);
        }
        join(paragraphs.as_slice(), "\n\n")
    }

    /// The prompt sent to the backend, carrying the recent turns as context
    /// when there are any.
    pub fn backend_prompt_with_context(&self, prompt: &str) -> (r: String)
        ensures
            r@ == backend_prompt(self@, prompt@),
    {
        let p = trim(prompt);
        if self.history.len() == 0 {
            return p;
        }
        let recent = self.recent_turn_context_summary(RECENT_CONTEXT_TURNS, CONTEXT_MESSAGE_MAX_CHARS);
        if is_blank(recent.as_str()) {
            return p;
        }
        let mut out = String::from_str("GameTerm Scene Mode conversation context follows. Use it for continuity across Scene Mode turns. If the latest user prompt is a fragment, answer it as a continuation of the recent turns. Do not say you lack prior context when the recent turns provide it.\n\nLatest user prompt:\n");
        out.append(p.as_str());
        out.append("\n\nRecent turns:\n");
        out.append(recent.as_str());
        out.append("\n\nResponse rules:\n- Answer the latest user prompt.\n- Use recent turns as background, not as a topic switch.\n- Keep useful technical details visible when they matter.\n- Return only the assistant reply text unless a structured Scene Mode JSON patch is specifically needed.");
        out
    }

    /// The speaker of the latest assistant or scene block that names one.
    pub fn latest_assistant_speaker(&self) -> (r: Option<&str>)
        ensures
            match r {
                Some(s) => latest_speaker(self@.history) == Some(s@),
                None => latest_speaker(self@.history) is None,
            },
    {
        let ghost h = self@.history;
        let ghost p = |x: MessageModel| speaks(x);
        let mut j: usize = self.history.len();
        while j > 0
            invariant
                h == self@.history,
                p == (|x: MessageModel| speaks(x)),
                j <= h.len(),
                last_before(h, p, j as int) == last_before(h, p, h.len() as int),
            decreases j,
        {
            let m = &self.history[j - 1];
            if m.role == VisualComposeRole::Assistant || m.role == VisualComposeRole::System {
                match &m.speaker {
                    Some(s) => {
                        return Some(s.as_str());
                    },
                    None => {},
                }
            }
            j = j - 1;
        }
        None
    }
}

/// The transcript never holds more than `MAX_COMPOSE_HISTORY` messages
/// after a block is recorded.
pub proof fn law_history_bounded(
    m: ComposeModel,
    role: VisualComposeRole,
    text: Seq<char>,
    speaker: Option<Seq<char>>,
    t: u64,
    visibility: VisualComposeVisibility,
    revealed: Option<usize>,
)
    requires
        m.history.len() <= MAX_COMPOSE_HISTORY,
    ensures
        push_spec(m, role, text, speaker, t, visibility, revealed).0.history.len()
            <= MAX_COMPOSE_HISTORY,
{
}

/// Turn ids are handed out in increasing order: the next one is larger
/// than the one just taken, until the counter saturates.
pub proof fn law_turn_ids_increase(m: ComposeModel)
    requires
        m.next_turn_id < u64::MAX,
    ensures
        allocate_spec(m).1 < allocate_spec(m).0.next_turn_id,
        allocate_spec(allocate_spec(m).0).1 > allocate_spec(m).1,
{
}

/// A recorded block is the newest message of the transcript.
pub proof fn law_recorded_block_is_last(
    m: ComposeModel,
    role: VisualComposeRole,
    text: Seq<char>,
    speaker: Option<Seq<char>>,
    t: u64,
    visibility: VisualComposeVisibility,
    revealed: Option<usize>,
)
    requires
        !blank(text),
    ensures
        ({
            let (m2, id) = push_spec(m, role, text, speaker, t, visibility, revealed);
            &&& id matches Some(x) && x.0 == t
            &&& m2.history.len() > 0
            &&& m2.history.last().text == text
            &&& m2.history.last().turn_id == t
            &&& m2.history.last().role == role
        }),
{
}

/// Clearing keeps the turn counter, so ids are never reused.
pub proof fn law_clear_keeps_turn_counter(m: ComposeModel)
    ensures
        cleared_spec(m).next_turn_id == m.next_turn_id,
        cleared_spec(m).history.len() == 0,
{
}

/// How many of the blocks hold more than whitespace.
pub open spec fn nonblank_count(blocks: Seq<Seq<char>>) -> nat
    decreases blocks.len(),
{
    if blocks.len() == 0 {
        0
    } else {
        nonblank_count(blocks.drop_last()) + if blank(blocks.last()) { 0nat } else { 1nat }
    }
}

/// Ids numbered one after another within turn `t`, from `start`.
pub open spec fn consecutive_ids(ids: Seq<(u64, usize)>, t: u64, start: usize) -> bool {
    &&& forall|k: int| 0 <= k < ids.len() ==> (#[trigger] ids[k]).0 == t
    &&& ids.len() > 0 ==> ids[0].1 == start
    &&& forall|k: int| 0 <= k < ids.len() - 1 ==> #[trigger] ids[k + 1].1 == sat_inc_usize(ids[k].1)
}

proof fn lemma_push_blocks_numbering(
    m: ComposeModel,
    blocks: Seq<Seq<char>>,
    speaker: Seq<char>,
    t: u64,
    reveal_all: bool,
)
    requires
        m.active_turn_id == Some(t),
    ensures
        ({
            let (m2, ids) = push_blocks_spec(m, blocks, speaker, t, reveal_all);
            &&& m2.active_turn_id == Some(t)
            &&& m2.phase == m.phase
            &&& (m.history.len() <= MAX_COMPOSE_HISTORY ==> m2.history.len() <= MAX_COMPOSE_HISTORY)
            &&& ids.len() == nonblank_count(blocks)
            &&& consecutive_ids(ids, t, m.active_block_index)
            &&& m2.active_block_index == if ids.len() > 0 {
                sat_inc_usize(ids.last().1)
            } else {
                m.active_block_index
            }
        }),
    decreases blocks.len(),
{
    if blocks.len() > 0 {
        lemma_push_blocks_numbering(m, blocks.drop_last(), speaker, t, reveal_all);
        let (m1, ids) = push_blocks_spec(m, blocks.drop_last(), speaker, t, reveal_all);
        let (m2, all) = push_blocks_spec(m, blocks, speaker, t, reveal_all);
        if !blank(blocks.last()) {
            assert(all == ids.push((t, m1.active_block_index)));
            assert forall|k: int| 0 <= k < all.len() - 1 implies #[trigger] all[k + 1].1 == sat_inc_usize(all[k].1) by {
                if k < ids.len() - 1 {
                    assert(all[k] == ids[k] && all[k + 1] == ids[k + 1]);
                } else {
                    assert(all[k] == ids.last());
                }
            }
        } else {
            assert(all == ids);
        }
    }
}

/// Marking a reply's blocks as succeeded numbers the recorded blocks one
/// after another within one turn: one id per block that holds more than
/// whitespace, all of the same turn, each block index one more than the one
/// before; the phase is `Succeeded`, and a transcript within its bound
/// stays within it.
pub proof fn law_succeeded_blocks_are_numbered_consecutively(
    m: ComposeModel,
    speaker: Seq<char>,
    blocks: Seq<Seq<char>>,
    reveal_all: bool,
)
    ensures
        ({
            let (m2, ids) = succeeded_blocks_spec(m, speaker, blocks, reveal_all);
            &&& ids.len() == nonblank_count(blocks)
            &&& forall|k: int| 0 <= k < ids.len() ==> (#[trigger] ids[k]).0 == ids[0].0
            &&& forall|k: int| 0 <= k < ids.len() - 1 ==> #[trigger] ids[k + 1].1 == sat_inc_usize(ids[k].1)
            &&& m2.phase == VisualComposePhase::Succeeded
            &&& (m.history.len() <= MAX_COMPOSE_HISTORY ==> m2.history.len() <= MAX_COMPOSE_HISTORY)
        }),
{
    let m1 = ComposeModel { phase: VisualComposePhase::Succeeded, last_reply: Some(join_seq(blocks, "\n\n"@)), ..m };
    let (m2, t) = active_or_new_spec(m1);
    lemma_push_blocks_numbering(m2, blocks, reply_speaker(speaker), t, reveal_all);
}

} // verus!
