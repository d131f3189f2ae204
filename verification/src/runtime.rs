//! The Scene Mode runtime: the loaded scene with the player's selection,
//! dialogue progress, status line, compose transcript and event history,
//! and the operations that move it along.

use vstd::prelude::*;

use crate::compose::{
    failed_spec, running_spec, succeeded_blocks_spec, succeeded_spec, VisualComposeRuntimeState,
};
use crate::scene_model::{
    run_target_text, RunCommandTarget, VisualActionRequest, VisualDialogueLine, VisualEntity,
    VisualProcessState, VisualScene, VisualSceneSource, VisualView,
};
use crate::schema::{VisualLayerTransitionReport, VisualRuntimeEvent};
use crate::text::{blank, dec, is_blank, join, join_seq, trim, trim_seq, u64_text, usize_text, views};

verus! {

pub struct SceneRuntime {
    pub scene: VisualScene,
    pub scene_source: VisualSceneSource,
    /// The directory relative story-state paths are resolved against.
    pub action_base_dir: String,
    pub view: VisualView,
    pub selected_entity: usize,
    pub selected_choice: usize,
    pub dialogue_index: usize,
    pub dialogue_history: Vec<VisualDialogueLine>,
    pub status: String,
    /// Counts every visible change, so renderers know when to redraw.
    pub generation: u64,
    pub pending_action: Option<VisualActionRequest>,
    pub last_process_state: Option<VisualProcessState>,
    pub compose_state: VisualComposeRuntimeState,
    pub transition_history: Vec<VisualRuntimeEvent>,
    pub last_input_layer: Option<String>,
    pub last_layer_transition: Option<VisualLayerTransitionReport>,
    pub last_story_state_action: Option<String>,
    pub last_story_state_path: Option<String>,
    pub last_patch_transport: Option<String>,
    pub last_patch_source_pane_id: Option<usize>,
}

/// The generation after one more change (it wraps at the top).
pub open spec fn next_generation(g: u64) -> u64 {
    if g < u64::MAX { (g + 1) as u64 } else { 0 }
}

/// `new` is `old` with one more event of this kind and detail.
pub open spec fn recorded(
    old: Seq<VisualRuntimeEvent>,
    new: Seq<VisualRuntimeEvent>,
    kind: Seq<char>,
    detail: Seq<char>,
) -> bool {
    &&& new.len() == old.len() + 1
    &&& new.drop_last() == old
    &&& new.last().kind@ == kind
    &&& new.last().detail@ == detail
}

/// The index after `i` in a cycle of `n` (n > 1).
pub open spec fn cycle_next(i: usize, n: usize) -> usize {
    ((i + 1) % (n as int)) as usize
}

/// The index before `i` in a cycle of `n`, wrapping from 0 to the end.
pub open spec fn cycle_prev(i: usize, n: usize) -> usize {
    if i == 0 { (n - 1) as usize } else { (i - 1) as usize }
}

/// The runtime after the entity selection steps forward.
pub open spec fn after_next_entity(r: SceneRuntime) -> SceneRuntime {
    if r.scene.entities@.len() > 1 {
        SceneRuntime {
            selected_entity: cycle_next(r.selected_entity, r.scene.entities@.len() as usize),
            generation: next_generation(r.generation),
            ..r
        }
    } else {
        r
    }
}

/// The runtime after the entity selection steps back.
pub open spec fn after_prev_entity(r: SceneRuntime) -> SceneRuntime {
    if r.scene.entities@.len() > 1 {
        SceneRuntime {
            selected_entity: cycle_prev(r.selected_entity, r.scene.entities@.len() as usize),
            generation: next_generation(r.generation),
            ..r
        }
    } else {
        r
    }
}

/// The runtime after the choice selection steps forward.
pub open spec fn after_next_choice(r: SceneRuntime) -> SceneRuntime {
    if r.scene.choices@.len() > 1 {
        SceneRuntime {
            selected_choice: cycle_next(r.selected_choice, r.scene.choices@.len() as usize),
            generation: next_generation(r.generation),
            ..r
        }
    } else {
        r
    }
}

/// The runtime after the choice selection steps back.
pub open spec fn after_prev_choice(r: SceneRuntime) -> SceneRuntime {
    if r.scene.choices@.len() > 1 {
        SceneRuntime {
            selected_choice: cycle_prev(r.selected_choice, r.scene.choices@.len() as usize),
            generation: next_generation(r.generation),
            ..r
        }
    } else {
        r
    }
}

/// The selected entity, when the selection points at one.
pub open spec fn selected_of(scene: VisualScene, i: usize) -> Option<VisualEntity> {
    if i < scene.entities@.len() { Some(scene.entities@[i as int]) } else { None }
}

/// The role a reply is recorded under, by its speaker's name.
pub open spec fn reply_role_text(speaker: Seq<char>) -> Seq<char> {
    if blank(speaker) {
        "Assistant"@
    } else if ascii_lower(speaker) == "scene"@ {
        "System"@
    } else if ascii_lower(speaker) == "error"@ {
        "Error"@
    } else {
        "Assistant"@
    }
}

pub open spec fn lower_char(c: char) -> char {
    if 'A' <= c && c <= 'Z' { ((c as u32) + 32) as char } else { c }
}

/// ASCII letters lowered, as `eq_ignore_ascii_case` compares.
pub open spec fn ascii_lower(s: Seq<char>) -> Seq<char> {
    s.map_values(|c: char| lower_char(c))
}

/// `a.eq_ignore_ascii_case(b)` for a lowercase `b`.
fn eq_ignore_ascii_case(a: &str, b: &str) -> (r: bool)
    requires
        ascii_lower(b@) == b@,
    ensures
        r == (ascii_lower(a@) == b@),
{
    let x = crate::text::chars_of(a);
    let y = crate::text::chars_of(b);
    if x.len() != y.len() {
        proof {
            assert(ascii_lower(a@).len() == a@.len());
        }
        return false;
    }
    let mut i: usize = 0;
    while i < x.len()
        invariant
            x@ == a@,
            y@ == b@,
            x@.len() == y@.len(),
            ascii_lower(b@) == b@,
            i <= x@.len(),
            forall|k: int| 0 <= k < i ==> lower_char(#[trigger] x@[k]) == y@[k],
        decreases x.len() - i,
    {
        let c = x[i];
        let lc = if 'A' <= c && c <= 'Z' {
            ((c as u32) + 32) as u8 as char
        } else {
            c
        };
        proof {
            if 'A' <= c && c <= 'Z' {
                assert(((c as u32) + 32) as u8 as char == lower_char(c));
            }
        }
        if lc != y[i] {
            proof {
                assert(ascii_lower(a@)[i as int] != b@[i as int]);
            }
            return false;
        }
        i = i + 1;
    }
    proof {
        assert(ascii_lower(a@) =~= b@);
    }
    true
}

/// The role of a reply, by its speaker's name, as its debug text.
fn reply_role(speaker: &str) -> (r: &'static str)
    ensures
        r@ == reply_role_text(speaker@),
{
    proof {
        reveal_strlit("scene");
        reveal_strlit("error");
        assert(ascii_lower("scene"@) =~= "scene"@);
        assert(ascii_lower("error"@) =~= "error"@);
    }
    if is_blank(speaker) {
        "Assistant"
    } else if eq_ignore_ascii_case(speaker, "scene") {
        "System"
    } else if eq_ignore_ascii_case(speaker, "error") {
        "Error"
    } else {
        "Assistant"
    }
}

impl SceneRuntime {
    /// A runtime freshly showing `scene`: nothing selected beyond the first
    /// entity and choice, no dialogue progress, an empty transcript.
    pub fn new(scene: VisualScene, scene_source: VisualSceneSource, action_base_dir: String) -> (r:
        SceneRuntime)
        ensures
            r.scene == scene,
            r.scene_source == scene_source,
            r.action_base_dir == action_base_dir,
            r.view == VisualView::Scene,
            r.selected_entity == 0,
            r.selected_choice == 0,
            r.dialogue_index == 0,
            r.dialogue_history@.len() == 0,
            r.status@.len() == 0,
            r.generation == 0,
            r.pending_action is None,
            r.last_process_state is None,
            r.compose_state@ == crate::compose::fresh_compose(),
            r.transition_history@.len() == 0,
            r.last_input_layer is None,
            r.last_layer_transition is None,
            r.last_story_state_action is None,
            r.last_story_state_path is None,
            r.last_patch_transport is None,
            r.last_patch_source_pane_id is None,
    {
        SceneRuntime {
            scene,
            scene_source,
            action_base_dir,
            view: VisualView::Scene,
            selected_entity: 0,
            selected_choice: 0,
            dialogue_index: 0,
            dialogue_history: Vec::new(),
            status: String::new(),
            generation: 0,
            pending_action: None,
            last_process_state: None,
            compose_state: VisualComposeRuntimeState::new(),
            transition_history: Vec::new(),
            last_input_layer: None,
            last_layer_transition: None,
            last_story_state_action: None,
            last_story_state_path: None,
            last_patch_transport: None,
            last_patch_source_pane_id: None,
        }
    }

    /// The entity the selection points at, if any.
    pub fn selected_entity(&self) -> (r: Option<&VisualEntity>)
        ensures
            match r {
                Some(e) => selected_of(self.scene, self.selected_entity) == Some(*e),
                None => selected_of(self.scene, self.selected_entity) is None,
            },
    {
        if self.selected_entity < self.scene.entities.len() {
            Some(&self.scene.entities[self.selected_entity])
        } else {
            None
        }
    }

    /// Counts one more visible change.
    pub fn bump_generation(&mut self)
        ensures
            *final(self) == (SceneRuntime {
                generation: next_generation(old(self).generation),
                ..*old(self)
            }),
    {
        self.generation = if self.generation < u64::MAX {
            self.generation + 1
        } else {
            0
        };
    }

    /// Appends an event to the transition history.
    pub fn record_runtime_event(&mut self, kind: String, detail: String)
        ensures
            *final(self) == (SceneRuntime {
                transition_history: final(self).transition_history,
                ..*old(self)
            }),
            final(self).transition_history@ == old(self).transition_history@.push(
                VisualRuntimeEvent { kind, detail },
            ),
            recorded(old(self).transition_history@, final(self).transition_history@, kind@, detail@),
    {
        self.transition_history.push(VisualRuntimeEvent { kind, detail });
        proof {
            assert(self.transition_history@.drop_last() =~= old(self).transition_history@);
        }
    }

    /// Moves the entity selection forward, wrapping at the end; a scene with
    /// one entity or none keeps its selection.
    pub fn select_next_entity(&mut self)
        ensures
            *final(self) == after_next_entity(*old(self)),
    {
        if self.scene.entities.len() > 1 {
            self.selected_entity = if self.selected_entity < usize::MAX {
                (self.selected_entity + 1) % self.scene.entities.len()
            } else {
                ((self.selected_entity % self.scene.entities.len()) + 1) % self.scene.entities.len()
            };
            proof {
                let i = old(self).selected_entity as int;
                let n = old(self).scene.entities@.len() as int;
                if i == usize::MAX {
                    assert(((i % n) + 1) % n == (i + 1) % n) by (nonlinear_arith)
                        requires n > 1, i >= 0;
                }
            }
            self.bump_generation();
        }
    }

    /// Moves the entity selection back, wrapping from the first to the last.
    pub fn select_prev_entity(&mut self)
        ensures
            *final(self) == after_prev_entity(*old(self)),
    {
        if self.scene.entities.len() > 1 {
            self.selected_entity = if self.selected_entity == 0 {
                self.scene.entities.len() - 1
            } else {
                self.selected_entity - 1
            };
            self.bump_generation();
        }
    }

    /// Moves the choice selection forward, wrapping at the end.
    pub fn select_next_choice(&mut self)
        ensures
            *final(self) == after_next_choice(*old(self)),
    {
        if self.scene.choices.len() > 1 {
            self.selected_choice = if self.selected_choice < usize::MAX {
                (self.selected_choice + 1) % self.scene.choices.len()
            } else {
                ((self.selected_choice % self.scene.choices.len()) + 1) % self.scene.choices.len()
            };
            proof {
                let i = old(self).selected_choice as int;
                let n = old(self).scene.choices@.len() as int;
                if i == usize::MAX {
                    assert(((i % n) + 1) % n == (i + 1) % n) by (nonlinear_arith)
                        requires n > 1, i >= 0;
                }
            }
            self.bump_generation();
        }
    }

    /// Moves the choice selection back, wrapping from the first to the last.
    pub fn select_prev_choice(&mut self)
        ensures
            *final(self) == after_prev_choice(*old(self)),
    {
        if self.scene.choices.len() > 1 {
            self.selected_choice = if self.selected_choice == 0 {
                self.scene.choices.len() - 1
            } else {
                self.selected_choice - 1
            };
            self.bump_generation();
        }
    }

    /// Shows a status line.
    pub fn mark_action_status(&mut self, status: String)
        ensures
            *final(self) == (SceneRuntime {
                status,
                generation: next_generation(old(self).generation),
                ..*old(self)
            }),
    {
        self.status = status;
        self.bump_generation();
    }

    /// A compose prompt was submitted: the transcript opens a turn with the
    /// trimmed prompt, the status shows `status`, and a `compose` event
    /// records the submission.
    pub fn mark_compose_running(&mut self, status: String, prompt: &str)
        ensures
            *final(self) == (SceneRuntime {
                compose_state: final(self).compose_state,
                transition_history: final(self).transition_history,
                status,
                generation: next_generation(old(self).generation),
                ..*old(self)
            }),
            final(self).compose_state@ == running_spec(old(self).compose_state@, trim_seq(prompt@)),
            recorded(
                old(self).transition_history@,
                final(self).transition_history@,
                "compose"@,
                "submit: "@ + trim_seq(prompt@),
            ),
    {
        let p = trim(prompt);
        self.compose_state.mark_running(p.as_str());
        self.status = status;
        let mut detail = String::from_str("submit: ");
        detail.append(p.as_str());
        self.record_runtime_event(String::from_str("compose"), detail);
        self.bump_generation();
    }

    /// A compose reply arrived: the transcript records the trimmed reply and
    /// a `compose` event names its role and speaker.
    pub fn mark_compose_succeeded(&mut self, speaker: &str, reply: &str)
        ensures
            *final(self) == (SceneRuntime {
                compose_state: final(self).compose_state,
                transition_history: final(self).transition_history,
                generation: next_generation(old(self).generation),
                ..*old(self)
            }),
            final(self).compose_state@ == succeeded_spec(
                old(self).compose_state@,
                speaker@,
                trim_seq(reply@),
            ),
            recorded(
                old(self).transition_history@,
                final(self).transition_history@,
                "compose"@,
                reply_role_text(speaker@) + ": "@ + speaker@ + ": "@ + (if trim_seq(reply@).len()
                    == 0 {
                    "<empty>"@
                } else {
                    trim_seq(reply@)
                }),
            ),
    {
        let trimmed = trim(reply);
        let mut detail = String::from_str(reply_role(speaker));
        detail.append(": ");
        detail.append(speaker);
        detail.append(": ");
        if trimmed.as_str().is_empty() {
            detail.append("<empty>");
        } else {
            detail.append(trimmed.as_str());
        }
        self.compose_state.mark_succeeded(speaker, trimmed.as_str());
        self.record_runtime_event(String::from_str("compose"), detail);
        self.bump_generation();
    }

    /// A compose reply arrived in blocks: the transcript records them (see
    /// `mark_succeeded_blocks`), a `compose` event counts them, and the ids of
    /// the recorded blocks are returned.
    pub fn mark_compose_succeeded_blocks(
        &mut self,
        speaker: &str,
        blocks: &[String],
        reveal_all: bool,
    ) -> (ids: Vec<(u64, usize)>)
        ensures
            *final(self) == (SceneRuntime {
                compose_state: final(self).compose_state,
                transition_history: final(self).transition_history,
                generation: next_generation(old(self).generation),
                ..*old(self)
            }),
            (final(self).compose_state@, ids@) == succeeded_blocks_spec(
                old(self).compose_state@,
                speaker@,
                views(blocks@),
                reveal_all,
            ),
            recorded(
                old(self).transition_history@,
                final(self).transition_history@,
                "compose"@,
                reply_role_text(speaker@) + ": "@ + speaker@ + ": "@ + (if blocks@.len() == 0 {
                    "<empty>"@
                } else {
                    dec(blocks@.len()) + " block(s)"@
                }),
            ),
    {
        let mut detail = String::from_str(reply_role(speaker));
        detail.append(": ");
        detail.append(speaker);
        detail.append(": ");
        if blocks.len() == 0 {
            detail.append("<empty>");
        } else {
            let n = usize_text(blocks.len());
            let ghost before = detail@;
            detail.append(n.as_str());
            detail.append(" block(s)");
            proof {
                assert(detail@ =~= before + (dec(blocks@.len()) + " block(s)"@));
            }
        }
        let ids = self.compose_state.mark_succeeded_blocks(speaker, blocks, reveal_all);
        self.record_runtime_event(String::from_str("compose"), detail);
        self.bump_generation();
        ids
    }

    /// A block started speaking; when that changed anything, a `compose`
    /// event records it.
    pub fn mark_compose_block_speaking(&mut self, turn_id: u64, block_index: usize)
        ensures
            ({
                let (m1, v) = crate::compose::set_visibility_spec(
                    old(self).compose_state@,
                    turn_id,
                    block_index,
                    crate::compose::VisualComposeVisibility::Speaking,
                );
                let (m2, c) = crate::compose::block_chunk_spec(
                    m1,
                    turn_id,
                    block_index,
                    crate::compose::SPEAKING_CHUNK_CHARS,
                );
                &&& final(self).compose_state@ == m2
                &&& (v || c) ==> *final(self) == (SceneRuntime {
                    compose_state: final(self).compose_state,
                    transition_history: final(self).transition_history,
                    generation: next_generation(old(self).generation),
                    ..*old(self)
                }) && recorded(
                    old(self).transition_history@,
                    final(self).transition_history@,
                    "compose"@,
                    "speaking block: turn="@ + dec(turn_id as nat) + " block="@ + dec(
                        block_index as nat,
                    ),
                )
                &&& !(v || c) ==> *final(self) == (SceneRuntime {
                    compose_state: final(self).compose_state,
                    ..*old(self)
                })
            }),
    {
        if self.compose_state.mark_block_speaking(turn_id, block_index) {
            let mut detail = String::from_str("speaking block: turn=");
            let t = u64_text(turn_id);
            detail.append(t.as_str());
            detail.append(" block=");
            let b = usize_text(block_index);
            detail.append(b.as_str());
            self.record_runtime_event(String::from_str("compose"), detail);
            self.bump_generation();
        }
    }

    /// A block finished speaking; when that changed anything, a `compose`
    /// event records it.
    pub fn mark_compose_block_done(&mut self, turn_id: u64, block_index: usize)
        ensures
            ({
                let (m1, v) = crate::compose::set_visibility_spec(
                    old(self).compose_state@,
                    turn_id,
                    block_index,
                    crate::compose::VisualComposeVisibility::Done,
                );
                let (m2, c) = crate::compose::block_all_spec(m1, turn_id, block_index);
                &&& final(self).compose_state@ == m2
                &&& (v || c) ==> *final(self) == (SceneRuntime {
                    compose_state: final(self).compose_state,
                    transition_history: final(self).transition_history,
                    generation: next_generation(old(self).generation),
                    ..*old(self)
                }) && recorded(
                    old(self).transition_history@,
                    final(self).transition_history@,
                    "compose"@,
                    "done block: turn="@ + dec(turn_id as nat) + " block="@ + dec(
                        block_index as nat,
                    ),
                )
                &&& !(v || c) ==> *final(self) == (SceneRuntime {
                    compose_state: final(self).compose_state,
                    ..*old(self)
                })
            }),
    {
        if self.compose_state.mark_block_done(turn_id, block_index) {
            let mut detail = String::from_str("done block: turn=");
            let t = u64_text(turn_id);
            detail.append(t.as_str());
            detail.append(" block=");
            let b = usize_text(block_index);
            detail.append(b.as_str());
            self.record_runtime_event(String::from_str("compose"), detail);
            self.bump_generation();
        }
    }

    /// Empties the compose transcript and records it.
    pub fn clear_compose_history(&mut self)
        ensures
            *final(self) == (SceneRuntime {
                compose_state: final(self).compose_state,
                transition_history: final(self).transition_history,
                generation: next_generation(old(self).generation),
                ..*old(self)
            }),
            final(self).compose_state@ == crate::compose::cleared_spec(old(self).compose_state@),
            recorded(
                old(self).transition_history@,
                final(self).transition_history@,
                "compose"@,
                "cleared transcript"@,
            ),
    {
        self.compose_state.clear();
        self.record_runtime_event(String::from_str("compose"), String::from_str("cleared transcript"));
        self.bump_generation();
    }

    /// The compose request failed: the transcript records the trimmed reason
    /// as an error block and a `compose` event records the failure.
    pub fn mark_compose_failed(&mut self, error: &str)
        ensures
            *final(self) == (SceneRuntime {
                compose_state: final(self).compose_state,
                transition_history: final(self).transition_history,
                generation: next_generation(old(self).generation),
                ..*old(self)
            }),
            final(self).compose_state@ == failed_spec(old(self).compose_state@, trim_seq(error@)),
            recorded(
                old(self).transition_history@,
                final(self).transition_history@,
                "compose"@,
                if trim_seq(error@).len() == 0 {
                    "failed"@
                } else {
                    "failed: "@ + trim_seq(error@)
                },
            ),
    {
        let trimmed = trim(error);
        let detail = if trimmed.as_str().is_empty() {
            String::from_str("failed")
        } else {
            let mut d = String::from_str("failed: ");
            d.append(trimmed.as_str());
            d
        };
        self.compose_state.mark_failed(trimmed.as_str());
        self.record_runtime_event(String::from_str("compose"), detail);
        self.bump_generation();
    }

    /// The file of an OpenFile action is being opened.
    pub fn mark_open_file_dispatched(&mut self, path: &str)
        ensures
            *final(self) == (SceneRuntime {
                status: final(self).status,
                generation: next_generation(old(self).generation),
                ..*old(self)
            }),
            final(self).status@ == "OpenFile opening: "@ + path@,
    {
        let mut s = String::from_str("OpenFile opening: ");
        s.append(path);
        self.status = s;
        self.bump_generation();
    }

    /// A RunCommand action is being opened in `target`.
    pub fn mark_run_command_spawning(&mut self, argv: &[String], target: RunCommandTarget)
        ensures
            *final(self) == (SceneRuntime {
                status: final(self).status,
                generation: next_generation(old(self).generation),
                ..*old(self)
            }),
            final(self).status@ == "RunCommand opening "@ + run_target_text(target) + ": "@
                + join_seq(views(argv@), " "@),
    {
        let mut s = String::from_str("RunCommand opening ");
        s.append(target.as_str());
        s.append(": ");
        let a = join(argv, " ");
        s.append(a.as_str());
        self.status = s;
        self.bump_generation();
    }

    /// A RunCommand action opened in pane `pane_id`.
    pub fn mark_run_command_spawned(
        &mut self,
        argv: &[String],
        target: RunCommandTarget,
        pane_id: usize,
    )
        ensures
            *final(self) == (SceneRuntime {
                status: final(self).status,
                generation: next_generation(old(self).generation),
                ..*old(self)
            }),
            final(self).status@ == "RunCommand opened "@ + run_target_text(target) + " pane "@
                + dec(pane_id as nat) + ": "@ + join_seq(views(argv@), " "@),
    {
        let mut s = String::from_str("RunCommand opened ");
        s.append(target.as_str());
        s.append(" pane ");
        let p = usize_text(pane_id);
        s.append(p.as_str());
        s.append(": ");
        let a = join(argv, " ");
        s.append(a.as_str());
        self.status = s;
        self.bump_generation();
    }

    /// A RunCommand action failed to open.
    pub fn mark_run_command_failed(&mut self, argv: &[String], target: RunCommandTarget, error: &str)
        ensures
            *final(self) == (SceneRuntime {
                status: final(self).status,
                generation: next_generation(old(self).generation),
                ..*old(self)
            }),
            final(self).status@ == "RunCommand failed ("@ + run_target_text(target) + "): "@
                + join_seq(views(argv@), " "@) + ": "@ + error@,
    {
        let mut s = String::from_str("RunCommand failed (");
        s.append(target.as_str());
        s.append("): ");
        let a = join(argv, " ");
        s.append(a.as_str());
        s.append(": ");
        s.append(error);
        self.status = s;
        self.bump_generation();
    }
}

/// Stepping the selection forward then back returns to where it was.
pub proof fn law_select_next_then_prev(i: usize, n: usize)
    requires
        n > 1,
        i < n,
    ensures
        cycle_prev(cycle_next(i, n), n) == i,
        cycle_next(cycle_prev(i, n), n) == i,
{
    if i + 1 < n {
        assert((i + 1) % (n as int) == i + 1) by (nonlinear_arith)
            requires 0 <= i + 1 < n;
    } else {
        assert((i + 1) % (n as int) == 0) by (nonlinear_arith)
            requires i + 1 == n, n > 0;
    }
    if i == 0 {
        assert(((n - 1) + 1) % (n as int) == 0) by (nonlinear_arith)
            requires n > 0;
    } else {
        assert(((i - 1) + 1) % (n as int) == i) by (nonlinear_arith)
            requires 0 < i < n;
    }
}

/// A selection that points into the list keeps pointing into it.
pub proof fn law_selection_stays_in_range(i: usize, n: usize)
    requires
        n > 1,
    ensures
        cycle_next(i, n) < n,
        i < n ==> cycle_prev(i, n) < n,
{
    assert((i + 1) % (n as int) < n) by (nonlinear_arith)
        requires n > 0;
}

/// The runtime after `k` steps of the choice selection forward.
pub open spec fn next_choice_steps(r: SceneRuntime, k: nat) -> SceneRuntime
    decreases k,
{
    if k == 0 {
        r
    } else {
        after_next_choice(next_choice_steps(r, (k - 1) as nat))
    }
}

proof fn lemma_next_choice_steps(r: SceneRuntime, k: nat)
    requires
        r.selected_choice < r.scene.choices@.len(),
        k <= r.scene.choices@.len(),
    ensures
        next_choice_steps(r, k).scene == r.scene,
        r.scene.choices@.len() > 1 ==> next_choice_steps(r, k).selected_choice == if r.selected_choice + k
            < r.scene.choices@.len() {
            r.selected_choice + k
        } else {
            r.selected_choice + k - r.scene.choices@.len()
        },
        r.scene.choices@.len() <= 1 ==> next_choice_steps(r, k).selected_choice == r.selected_choice,
    decreases k,
{
    if k > 0 {
        lemma_next_choice_steps(r, (k - 1) as nat);
        let n = r.scene.choices@.len() as int;
        let s = r.selected_choice as int;
        let j = (k - 1) as int;
        let prev = next_choice_steps(r, (k - 1) as nat);
        assert(r.scene.choices.len() == n) by {
            vstd::std_specs::vec::axiom_spec_len(&r.scene.choices);
        }
        assert(next_choice_steps(r, k) == after_next_choice(prev));
        assert(prev.scene.choices@.len() == n);
        if n > 1 {
            assert(next_choice_steps(r, k).selected_choice == cycle_next(prev.selected_choice, n as usize));
            assert(cycle_next(prev.selected_choice, n as usize) == ((prev.selected_choice + 1) % n) as usize);
            if s + j + 1 < n {
                assert((s + j + 1) % n == s + j + 1) by (nonlinear_arith)
                    requires 0 <= s + j + 1 < n;
            } else if s + j + 1 == n {
                assert((s + j + 1) % n == 0) by (nonlinear_arith)
                    requires s + j + 1 == n, n > 0;
            } else {
                assert((s + j - n + 1) % n == s + j + 1 - n) by (nonlinear_arith)
                    requires 0 <= s + j - n + 1 < n;
            }
        }
    }
}

/// Stepping the choice selection forward once per choice comes back to the
/// choice it started from, with the scene unchanged.
pub proof fn law_choice_selection_cycles(r: SceneRuntime)
    requires
        r.scene.choices@.len() >= 1,
        r.selected_choice < r.scene.choices@.len(),
    ensures
        next_choice_steps(r, r.scene.choices@.len()).selected_choice == r.selected_choice,
        next_choice_steps(r, r.scene.choices@.len()).scene == r.scene,
{
    lemma_next_choice_steps(r, r.scene.choices@.len());
}

} // verus!
