//! The debouncing state machine: consecutive per-frame symbols near note
//! transitions are noisy, so a symbol is emitted only once it has been seen
//! for `min_count` consecutive frames. Emitted symbols are counted and every
//! twentieth is followed by a line break. An alternative full mode bypasses
//! the debounce and emits every frame's symbol on a line of its own.

use vstd::prelude::*;

use crate::text::str_eq;

verus! {

/// The mathematical model of the per-session debounce state: the previously
/// seen symbol, how many consecutive frames it has been seen for, and how
/// many symbols were emitted since the last line break.
pub ghost struct DebounceModel {
    pub previous_note: Seq<char>,
    pub count: int,
    pub notes_printed: int,
}

impl DebounceModel {
    /// The state a session starts in.
    pub open spec fn initial() -> DebounceModel {
        DebounceModel { previous_note: Seq::empty(), count: 0, notes_printed: 0 }
    }

    pub open spec fn wf(self) -> bool {
        &&& 0 <= self.count <= 256
        &&& 0 <= self.notes_printed < 20
    }

    /// The repeat count after one more frame carrying `note`. The count is
    /// capped at 256 so that it stays bounded; since a `min_count` is at most
    /// 255, the cap never changes which frames are emitted.
    pub open spec fn next_count(self, note: Seq<char>) -> int {
        if note == self.previous_note {
            if self.count < 256 {
                self.count + 1
            } else {
                self.count
            }
        } else {
            1
        }
    }

    /// Whether a frame carrying `note` is emitted: the symbol is non-empty
    /// and has now been seen for exactly `min_count` consecutive frames.
    pub open spec fn emits(self, note: Seq<char>, min_count: int) -> bool {
        self.next_count(note) == min_count && note.len() > 0
    }

    /// Whether a frame carrying `note` is followed by a line break: it is
    /// emitted as the twentieth symbol since the last break.
    pub open spec fn breaks_line(self, note: Seq<char>, min_count: int) -> bool {
        self.emits(note, min_count) && self.notes_printed + 1 == 20
    }

    /// The state after one frame carrying `note`.
    pub open spec fn step(self, note: Seq<char>, min_count: int) -> DebounceModel {
        DebounceModel {
            previous_note: note,
            count: self.next_count(note),
            notes_printed: if self.emits(note, min_count) {
                if self.notes_printed + 1 == 20 {
                    0
                } else {
                    self.notes_printed + 1
                }
            } else {
                self.notes_printed
            },
        }
    }
}

/// The debounce state after feeding `note` for `k` consecutive frames.
pub open spec fn spec_run_same(
    s0: DebounceModel,
    note: Seq<char>,
    min_count: int,
    k: int,
) -> DebounceModel
    decreases k,
{
    if k <= 0 {
        s0
    } else {
        spec_run_same(s0, note, min_count, k - 1).step(note, min_count)
    }
}

/// How many of the first `k` frames of such a run are emitted.
pub open spec fn spec_emissions_in_run(
    s0: DebounceModel,
    note: Seq<char>,
    min_count: int,
    k: int,
) -> int
    decreases k,
{
    if k <= 0 {
        0
    } else {
        spec_emissions_in_run(s0, note, min_count, k - 1) + (if spec_run_same(
            s0,
            note,
            min_count,
            k - 1,
        ).emits(note, min_count) {
            1int
        } else {
            0int
        })
    }
}

proof fn lemma_run_same_props(s0: DebounceModel, note: Seq<char>, min_count: int, k: int)
    requires
        s0.wf(),
        note.len() > 0,
        1 <= min_count <= 255,
        s0.previous_note != note,
        0 <= k <= min_count,
    ensures
        k >= 1 ==> spec_run_same(s0, note, min_count, k).previous_note == note,
        k >= 1 ==> spec_run_same(s0, note, min_count, k).count == k,
        spec_emissions_in_run(s0, note, min_count, k) == (if k == min_count {
            1int
        } else {
            0int
        }),
    decreases k,
{
    if k >= 1 {
        lemma_run_same_props(s0, note, min_count, k - 1);
        let prev = spec_run_same(s0, note, min_count, k - 1);
        assert(spec_run_same(s0, note, min_count, k) == prev.step(note, min_count));
        if k == 1 {
            assert(prev == s0);
            assert(prev.next_count(note) == 1);
        } else {
            assert(prev.previous_note == note);
            assert(prev.next_count(note) == k);
        }
    }
}

/// Debounce idempotence: starting from a state whose previous symbol differs
/// from a non-empty symbol, feeding that symbol for exactly `min_count`
/// consecutive frames yields exactly one emission, and it occurs on the
/// `min_count`-th frame, never earlier.
pub proof fn lemma_debounce_single_emission(s0: DebounceModel, note: Seq<char>, min_count: int)
    requires
        s0.wf(),
        note.len() > 0,
        1 <= min_count <= 255,
        s0.previous_note != note,
    ensures
        spec_emissions_in_run(s0, note, min_count, min_count) == 1,
        spec_run_same(s0, note, min_count, min_count - 1).emits(note, min_count),
        forall|k: int|
            0 <= k < min_count ==> spec_emissions_in_run(s0, note, min_count, k) == 0,
{
    lemma_run_same_props(s0, note, min_count, min_count);
    lemma_run_same_props(s0, note, min_count, min_count - 1);
    assert forall|k: int| 0 <= k < min_count implies spec_emissions_in_run(
        s0,
        note,
        min_count,
        k,
    ) == 0 by {
        lemma_run_same_props(s0, note, min_count, k);
    }
}

/// Line wrap: an emitted symbol is followed by a line break exactly when it
/// is the twentieth since the last break, in which case the counter resets
/// to zero; any earlier emission only advances the counter.
pub proof fn lemma_line_wrap(s: DebounceModel, note: Seq<char>, min_count: int)
    requires
        s.wf(),
        s.emits(note, min_count),
    ensures
        s.breaks_line(note, min_count) == (s.notes_printed == 19),
        s.notes_printed == 19 ==> s.step(note, min_count).notes_printed == 0,
        s.notes_printed < 19 ==> s.step(note, min_count).notes_printed == s.notes_printed + 1,
{
}

/// The per-session mutable state of the debouncer.
pub struct DebounceState {
    previous_note: &'static str,
    count: u32,
    notes_printed: u32,
}

impl View for DebounceState {
    type V = DebounceModel;

    closed spec fn view(&self) -> DebounceModel {
        DebounceModel {
            previous_note: self.previous_note@,
            count: self.count as int,
            notes_printed: self.notes_printed as int,
        }
    }
}

/// What one frame's symbol turns into at the output: at most one emitted
/// symbol (to be followed by a separator) and possibly a line break.
pub struct StepOutput {
    pub note: Option<&'static str>,
    pub line_break: bool,
}

impl DebounceState {
    /// A fresh session state: no previous symbol, nothing emitted yet.
    pub fn new() -> (r: DebounceState)
        ensures
            r@ == DebounceModel::initial(),
            r@.wf(),
    {
        let r = DebounceState { previous_note: "", count: 0, notes_printed: 0 };
        proof {
            reveal_strlit("");
            assert(r@.previous_note =~= Seq::<char>::empty());
            assert(r@ =~= DebounceModel::initial());
        }
        r
    }
}

/// Feed one frame's symbol into the debounce state machine; returns what, if
/// anything, is emitted for this frame.
pub fn handle_note(note: &'static str, state: &mut DebounceState, min_count: u8) -> (out:
    StepOutput)
    requires
        old(state)@.wf(),
    ensures
        final(state)@ == old(state)@.step(note@, min_count as int),
        final(state)@.wf(),
        (if old(state)@.emits(note@, min_count as int) {
            out.note matches Some(n) && n@ == note@
        } else {
            out.note is None
        }),
        out.line_break == old(state)@.breaks_line(note@, min_count as int),
{
    if str_eq(note, state.previous_note) {
        if state.count < 256 {
            state.count = state.count + 1;
        }
    } else {
        state.count = 1;
    }
    let mut out = StepOutput { note: None, line_break: false };
    if state.count == min_count as u32 && !note.is_empty() {
        out.note = Some(note);
        state.notes_printed = state.notes_printed + 1;
        if state.notes_printed == 20 {
            state.notes_printed = 0;
            out.line_break = true;
        }
    }
    state.previous_note = note;
    out
}

/// The unified per-session emitter: in debounce mode it runs the state
/// machine above; in full mode it emits every frame's symbol, one per line,
/// with no debounce.
pub struct NoteDebouncer {
    full: bool,
    min_count: u8,
    state: DebounceState,
}

impl NoteDebouncer {
    pub closed spec fn spec_full(self) -> bool {
        self.full
    }

    pub closed spec fn spec_min_count(self) -> int {
        self.min_count as int
    }

    pub closed spec fn spec_state(self) -> DebounceModel {
        self.state@
    }

    pub fn new(min_count: u8, full: bool) -> (r: NoteDebouncer)
        ensures
            r.spec_full() == full,
            r.spec_min_count() == min_count as int,
            r.spec_state() == DebounceModel::initial(),
            r.spec_state().wf(),
    {
        NoteDebouncer { full, min_count, state: DebounceState::new() }
    }

    /// Feed one frame's symbol. In full mode every frame, including a silent
    /// one, yields exactly one emitted symbol followed by a line break; in
    /// debounce mode the output is that of the debounce state machine.
    pub fn step(&mut self, note: &'static str) -> (out: StepOutput)
        requires
            old(self).spec_state().wf(),
        ensures
            final(self).spec_full() == old(self).spec_full(),
            final(self).spec_min_count() == old(self).spec_min_count(),
            final(self).spec_state().wf(),
            (if old(self).spec_full() {
                &&& final(self).spec_state() == old(self).spec_state()
                &&& out.note matches Some(n) && n@ == note@
                &&& out.line_break
            } else {
                &&& final(self).spec_state() == old(self).spec_state().step(
                    note@,
                    old(self).spec_min_count(),
                )
                &&& (if old(self).spec_state().emits(note@, old(self).spec_min_count()) {
                    out.note matches Some(n) && n@ == note@
                } else {
                    out.note is None
                })
                &&& out.line_break == old(self).spec_state().breaks_line(
                    note@,
                    old(self).spec_min_count(),
                )
            }),
    {
        if self.full {
            StepOutput { note: Some(note), line_break: true }
        } else {
            handle_note(note, &mut self.state, self.min_count)
        }
    }
}

} // verus!
