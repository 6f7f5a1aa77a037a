//! Polyphony: the bookkeeping of the eight voices of the engine.
//!
//! Each voice carries the MIDI note it was started for (or none, for the single free-running
//! note of the command line) and the stages of its two envelopes. The audio of a voice is
//! computed elsewhere; here stands which voice a key takes, which voices a key release or a
//! panic reaches, and when the engine is still sounding.
use vstd::prelude::*;

use crate::env::Stage;

verus! {

/// The number of voices that can sound at once.
pub const MAX_VOICES: usize = 8;

/// The bookkeeping state of one voice.
#[derive(Clone, Copy, Debug, PartialEq, Eq, Structural)]
pub struct VoiceSlot {
    /// The MIDI note the voice was started for, if any.
    pub note: Option<u8>,
    /// The stage of the envelope of oscillator A.
    pub env_a: Stage,
    /// The stage of the envelope of oscillator B.
    pub env_b: Stage,
}

impl VoiceSlot {
    /// A voice is live while envelope A sounds, or, with separate envelopes, envelope B.
    pub open spec fn live(self, separate: bool) -> bool {
        self.env_a.active() || (separate && self.env_b.active())
    }

    /// Whether the voice is live.
    pub fn is_live(&self, separate: bool) -> (r: bool)
        ensures
            r == self.live(separate),
    {
        self.env_a.is_active() || (separate && self.env_b.is_active())
    }
}

/// A silent voice with no note.
pub open spec fn idle_slot() -> VoiceSlot {
    VoiceSlot { note: None, env_a: Stage::Idle, env_b: Stage::Idle }
}

/// No two voices carry the same MIDI note.
pub open spec fn notes_distinct(s: Seq<VoiceSlot>) -> bool {
    forall|i: int, j: int|
        0 <= i < s.len() && 0 <= j < s.len() && i != j && (#[trigger] s[i]).note is Some ==> s[i].note
            != (#[trigger] s[j]).note
}

/// Some voice is live.
pub open spec fn any_live(s: Seq<VoiceSlot>, separate: bool) -> bool {
    exists|i: int| 0 <= i < s.len() && (#[trigger] s[i]).live(separate)
}

/// The index of the first voice that satisfies `p`, or the number of voices when none does.
pub open spec fn first_index(s: Seq<VoiceSlot>, p: spec_fn(VoiceSlot) -> bool) -> int
    decreases s.len(),
{
    if s.len() == 0 {
        0
    } else if p(s[0]) {
        0
    } else {
        1 + first_index(s.drop_first(), p)
    }
}

/// The voice carries the note `n`.
pub open spec fn holds(n: u8) -> spec_fn(VoiceSlot) -> bool {
    |v: VoiceSlot| v.note == Some(n)
}

/// The voice is not live.
pub open spec fn quiet(separate: bool) -> spec_fn(VoiceSlot) -> bool {
    |v: VoiceSlot| !v.live(separate)
}

/// The voice that a key takes: the voice that already carries the same MIDI note; else the
/// first voice that is not live; else (all eight sound) voice 0 is stolen.
pub open spec fn allocation(s: Seq<VoiceSlot>, note: Option<u8>, separate: bool) -> int {
    let h = match note {
        Some(n) => first_index(s, holds(n)),
        None => s.len() as int,
    };
    if h < s.len() {
        h
    } else {
        let q = first_index(s, quiet(separate));
        if q < s.len() {
            q
        } else {
            0
        }
    }
}

/// Voice `i` started for `note`: both envelopes in attack.
pub open spec fn started(s: Seq<VoiceSlot>, i: int, note: Option<u8>) -> Seq<VoiceSlot> {
    s.update(i, VoiceSlot { note, env_a: Stage::Attack, env_b: Stage::Attack })
}

/// A voice whose two envelopes received a key release.
pub open spec fn released(v: VoiceSlot) -> VoiceSlot {
    VoiceSlot { note: v.note, env_a: v.env_a.released(), env_b: v.env_b.released() }
}

/// The key release of the free-running note: every live voice without a MIDI note is released.
pub open spec fn untagged_released(s: Seq<VoiceSlot>, separate: bool) -> Seq<VoiceSlot> {
    Seq::new(
        s.len(),
        |i: int|
            if s[i].note is None && s[i].live(separate) {
                released(s[i])
            } else {
                s[i]
            },
    )
}

/// The key release of MIDI note `m`: every voice that carries `m` is released.
pub open spec fn note_released(s: Seq<VoiceSlot>, m: u8) -> Seq<VoiceSlot> {
    Seq::new(
        s.len(),
        |i: int|
            if s[i].note == Some(m) {
                released(s[i])
            } else {
                s[i]
            },
    )
}

/// Every voice silenced at once and freed of its note.
pub open spec fn silenced(s: Seq<VoiceSlot>) -> Seq<VoiceSlot> {
    Seq::new(s.len(), |i: int| idle_slot())
}

/// Voices that are no longer live give up their notes.
pub open spec fn retired(s: Seq<VoiceSlot>, separate: bool) -> Seq<VoiceSlot> {
    Seq::new(
        s.len(),
        |i: int|
            if s[i].live(separate) {
                s[i]
            } else {
                VoiceSlot { note: None, env_a: s[i].env_a, env_b: s[i].env_b }
            },
    )
}

/// Voice `i` after one sample, given whether each envelope reached the target of its stage.
pub open spec fn ticked(s: Seq<VoiceSlot>, i: int, reached_a: bool, reached_b: bool) -> Seq<VoiceSlot> {
    s.update(
        i,
        VoiceSlot {
            note: s[i].note,
            env_a: s[i].env_a.stage_after(reached_a),
            env_b: s[i].env_b.stage_after(reached_b),
        },
    )
}

/// `first_index` is the first index that satisfies `p`, or the length when none does.
pub proof fn lemma_first_index(s: Seq<VoiceSlot>, p: spec_fn(VoiceSlot) -> bool)
    ensures
        0 <= first_index(s, p) <= s.len(),
        first_index(s, p) < s.len() ==> p(s[first_index(s, p)]),
        forall|j: int| 0 <= j < first_index(s, p) ==> !p(#[trigger] s[j]),
    decreases s.len(),
{
    if s.len() > 0 && !p(s[0]) {
        lemma_first_index(s.drop_first(), p);
        assert forall|j: int| 0 <= j < first_index(s, p) implies !p(#[trigger] s[j]) by {
            if j > 0 {
                assert(s[j] == s.drop_first()[j - 1]);
            }
        }
    }
}

/// An index `k` that satisfies `p`, with no earlier index doing so, is `first_index`.
pub proof fn lemma_first_index_is(s: Seq<VoiceSlot>, p: spec_fn(VoiceSlot) -> bool, k: int)
    requires
        0 <= k <= s.len(),
        forall|j: int| 0 <= j < k ==> !p(#[trigger] s[j]),
        k == s.len() || p(s[k]),
    ensures
        first_index(s, p) == k,
    decreases s.len(),
{
    if s.len() > 0 && k > 0 {
        assert(!p(s[0]));
        let t = s.drop_first();
        assert forall|j: int| 0 <= j < k - 1 implies !p(#[trigger] t[j]) by {
            assert(t[j] == s[j + 1]);
        }
        if k < s.len() {
            assert(t[k - 1] == s[k]);
        }
        lemma_first_index_is(t, p, k - 1);
    }
}

/// The allocated voice is a valid index, and it is chosen as `allocation` says.
pub proof fn lemma_allocation(s: Seq<VoiceSlot>, note: Option<u8>, separate: bool)
    requires
        s.len() > 0,
    ensures
        0 <= allocation(s, note, separate) < s.len(),
        (note matches Some(n) && exists|i: int| 0 <= i < s.len() && (#[trigger] s[i]).note == Some(n))
            ==> s[allocation(s, note, separate)].note == note,
{
    lemma_first_index(s, quiet(separate));
    if let Some(n) = note {
        lemma_first_index(s, holds(n));
        if exists|i: int| 0 <= i < s.len() && (#[trigger] s[i]).note == Some(n) {
            let i = choose|i: int| 0 <= i < s.len() && (#[trigger] s[i]).note == Some(n);
            assert(holds(n)(s[i]));
        }
    }
}

/// The eight voices of the engine.
#[derive(Debug)]
pub struct VoiceBank {
    slots: Vec<VoiceSlot>,
}

impl View for VoiceBank {
    type V = Seq<VoiceSlot>;

    closed spec fn view(&self) -> Seq<VoiceSlot> {
        self.slots@
    }
}

impl VoiceBank {
    #[verifier::type_invariant]
    spec fn well_formed(self) -> bool {
        self.slots@.len() == MAX_VOICES && notes_distinct(self.slots@)
    }

    /// Eight silent voices without notes.
    pub fn new() -> (r: VoiceBank)
        ensures
            r@ == Seq::new(MAX_VOICES as nat, |i: int| idle_slot()),
    {
        let mut slots: Vec<VoiceSlot> = Vec::new();
        let mut k: usize = 0;
        while k < MAX_VOICES
            invariant
                k <= MAX_VOICES,
                slots@ == Seq::new(k as nat, |i: int| idle_slot()),
            decreases MAX_VOICES - k,
        {
            slots.push(VoiceSlot { note: None, env_a: Stage::Idle, env_b: Stage::Idle });
            k = k + 1;
            assert(slots@ =~= Seq::new(k as nat, |i: int| idle_slot()));
        }
        VoiceBank { slots }
    }

    /// The number of voices, always eight; no two of them carry the same MIDI note.
    pub fn voice_count(&self) -> (r: usize)
        ensures
            r == self@.len(),
            r == MAX_VOICES,
            notes_distinct(self@),
    {
        proof {
            use_type_invariant(self);
        }
        self.slots.len()
    }

    /// The state of voice `i`.
    pub fn voice(&self, i: usize) -> (r: VoiceSlot)
        requires
            i < self@.len(),
        ensures
            r == self@[i as int],
    {
        self.slots[i]
    }

    /// The voice that a key for `note` takes; see `allocation`.
    pub fn allocate(&self, note: Option<u8>, separate: bool) -> (r: usize)
        ensures
            r == allocation(self@, note, separate),
            r < self@.len(),
    {
        proof {
            use_type_invariant(self);
            lemma_allocation(self@, note, separate);
        }
        let n = self.slots.len();
        if let Some(m) = note {
            let mut k: usize = 0;
            while k < n
                invariant
                    n == self@.len(),
                    note == Some(m),
                    k <= n,
                    forall|j: int| 0 <= j < k ==> !holds(m)(#[trigger] self@[j]),
                decreases n - k,
            {
                if self.slots[k].note == Some(m) {
                    proof {
                        assert(holds(m)(self@[k as int]));
                        lemma_first_index_is(self@, holds(m), k as int);
                    }
                    return k;
                }
                k = k + 1;
            }
            proof {
                lemma_first_index_is(self@, holds(m), n as int);
            }
        }
        let mut k: usize = 0;
        while k < n
            invariant
                n == self@.len(),
                k <= n,
                n > 0,
                note matches Some(mm) ==> first_index(self@, holds(mm)) == n,
                forall|j: int| 0 <= j < k ==> !quiet(separate)(#[trigger] self@[j]),
            decreases n - k,
        {
            if !self.slots[k].is_live(separate) {
                proof {
                    assert(quiet(separate)(self@[k as int]));
                    lemma_first_index_is(self@, quiet(separate), k as int);
                }
                return k;
            }
            k = k + 1;
        }
        proof {
            lemma_first_index_is(self@, quiet(separate), n as int);
        }
        0
    }

    /// Starts a voice for `note` (a MIDI note, or none for the free-running note) and returns
    /// its index: the voice is taken as `allocation` says and both its envelopes attack.
    pub fn start(&mut self, note: Option<u8>, separate: bool) -> (r: usize)
        ensures
            r == allocation(old(self)@, note, separate),
            r < old(self)@.len(),
            final(self)@ == started(old(self)@, r as int, note),
            final(self)@.len() == MAX_VOICES,
            notes_distinct(final(self)@),
    {
        proof {
            use_type_invariant(&*self);
        }
        let r = self.allocate(note, separate);
        proof {
            start_keeps_notes_distinct(self@, note, separate);
        }
        let mut slots = self.slots.clone();
        slots.set(r, VoiceSlot { note, env_a: Stage::Attack, env_b: Stage::Attack });
        assert(slots@ =~= started(self@, r as int, note));
        self.slots = slots;
        r
    }

    /// Releases every live voice that has no MIDI note (the free-running note's key release).
    pub fn release_untagged(&mut self, separate: bool)
        ensures
            final(self)@ == untagged_released(old(self)@, separate),
            final(self)@.len() == MAX_VOICES,
            notes_distinct(final(self)@),
    {
        proof {
            use_type_invariant(&*self);
        }
        let n = self.slots.len();
        let mut slots: Vec<VoiceSlot> = Vec::new();
        let mut k: usize = 0;
        while k < n
            invariant
                n == self@.len(),
                k <= n,
                slots@ == untagged_released(self@, separate).take(k as int),
            decreases n - k,
        {
            let v = self.slots[k];
            if v.note.is_none() && v.is_live(separate) {
                slots.push(VoiceSlot { note: v.note, env_a: v.env_a.note_off(), env_b: v.env_b.note_off() });
            } else {
                slots.push(v);
            }
            k = k + 1;
            assert(slots@ =~= untagged_released(self@, separate).take(k as int));
        }
        assert(slots@ =~= untagged_released(self@, separate));
        assert(notes_distinct(slots@)) by {
            assert forall|i: int| 0 <= i < slots@.len() implies (#[trigger] slots@[i]).note == self@[i].note by {}
        }
        self.slots = slots;
    }

    /// Releases every voice that carries MIDI note `m`.
    pub fn release_note(&mut self, m: u8)
        ensures
            final(self)@ == note_released(old(self)@, m),
            final(self)@.len() == MAX_VOICES,
            notes_distinct(final(self)@),
    {
        proof {
            use_type_invariant(&*self);
        }
        let n = self.slots.len();
        let mut slots: Vec<VoiceSlot> = Vec::new();
        let mut k: usize = 0;
        while k < n
            invariant
                n == self@.len(),
                k <= n,
                slots@ == note_released(self@, m).take(k as int),
            decreases n - k,
        {
            let v = self.slots[k];
            if v.note == Some(m) {
                slots.push(VoiceSlot { note: v.note, env_a: v.env_a.note_off(), env_b: v.env_b.note_off() });
            } else {
                slots.push(v);
            }
            k = k + 1;
            assert(slots@ =~= note_released(self@, m).take(k as int));
        }
        assert(slots@ =~= note_released(self@, m));
        assert(notes_distinct(slots@)) by {
            assert forall|i: int| 0 <= i < slots@.len() implies (#[trigger] slots@[i]).note == self@[i].note by {}
        }
        self.slots = slots;
    }

    /// Silences every voice at once and frees it of its note (the panic key).
    pub fn silence(&mut self)
        ensures
            final(self)@ == silenced(old(self)@),
            final(self)@.len() == MAX_VOICES,
            notes_distinct(final(self)@),
    {
        proof {
            use_type_invariant(&*self);
        }
        let fresh = VoiceBank::new();
        assert(fresh@ =~= silenced(self@));
        *self = fresh;
    }

    /// Frees the notes of the voices that are no longer live.
    pub fn retire_silent(&mut self, separate: bool)
        ensures
            final(self)@ == retired(old(self)@, separate),
            final(self)@.len() == MAX_VOICES,
            notes_distinct(final(self)@),
    {
        proof {
            use_type_invariant(&*self);
        }
        let n = self.slots.len();
        let mut slots: Vec<VoiceSlot> = Vec::new();
        let mut k: usize = 0;
        while k < n
            invariant
                n == self@.len(),
                k <= n,
                slots@ == retired(self@, separate).take(k as int),
            decreases n - k,
        {
            let v = self.slots[k];
            if v.is_live(separate) {
                slots.push(v);
            } else {
                slots.push(VoiceSlot { note: None, env_a: v.env_a, env_b: v.env_b });
            }
            k = k + 1;
            assert(slots@ =~= retired(self@, separate).take(k as int));
        }
        assert(slots@ =~= retired(self@, separate));
        self.slots = slots;
    }

    /// Moves the envelopes of voice `i` on by one sample, given whether each reached the
    /// target of its stage.
    pub fn tick(&mut self, i: usize, reached_a: bool, reached_b: bool)
        requires
            i < old(self)@.len(),
        ensures
            final(self)@ == ticked(old(self)@, i as int, reached_a, reached_b),
            final(self)@.len() == MAX_VOICES,
            notes_distinct(final(self)@),
    {
        proof {
            use_type_invariant(&*self);
        }
        let v = self.slots[i];
        let mut slots = self.slots.clone();
        slots.set(
            i,
            VoiceSlot { note: v.note, env_a: v.env_a.after_tick(reached_a), env_b: v.env_b.after_tick(reached_b) },
        );
        assert(slots@ =~= ticked(self@, i as int, reached_a, reached_b));
        assert(notes_distinct(slots@)) by {
            assert forall|j: int| 0 <= j < slots@.len() implies (#[trigger] slots@[j]).note == self@[j].note by {}
        }
        self.slots = slots;
    }

    /// Whether any voice is still live.
    pub fn is_active(&self, separate: bool) -> (r: bool)
        ensures
            r == any_live(self@, separate),
    {
        let n = self.slots.len();
        let mut k: usize = 0;
        while k < n
            invariant
                n == self@.len(),
                k <= n,
                forall|j: int| 0 <= j < k ==> !(#[trigger] self@[j]).live(separate),
            decreases n - k,
        {
            if self.slots[k].is_live(separate) {
                return true;
            }
            k = k + 1;
        }
        false
    }
}

/// Starting a voice never gives two voices the same MIDI note: a key whose note already
/// sounds takes that same voice again.
pub proof fn start_keeps_notes_distinct(s: Seq<VoiceSlot>, note: Option<u8>, separate: bool)
    requires
        s.len() > 0,
        notes_distinct(s),
    ensures
        notes_distinct(started(s, allocation(s, note, separate), note)),
{
    lemma_allocation(s, note, separate);
    let r = allocation(s, note, separate);
    let t = started(s, r, note);
    if let Some(n) = note {
        lemma_first_index(s, holds(n));
        assert forall|i: int, j: int|
            0 <= i < t.len() && 0 <= j < t.len() && i != j && (#[trigger] t[i]).note is Some implies t[i].note
                != (#[trigger] t[j]).note by {
            if i == r {
                if t[j].note == Some(n) {
                    assert(s[j].note == Some(n));
                }
            } else if j == r {
                if t[i].note == Some(n) {
                    assert(s[i].note == Some(n));
                }
            } else {
                assert(t[i] == s[i] && t[j] == s[j]);
            }
        }
    } else {
        assert forall|i: int, j: int|
            0 <= i < t.len() && 0 <= j < t.len() && i != j && (#[trigger] t[i]).note is Some implies t[i].note
                != (#[trigger] t[j]).note by {
            if i != r && j != r {
                assert(t[i] == s[i] && t[j] == s[j]);
            }
        }
    }
}

/// The panic key silences the whole engine: afterwards no voice is live and no voice keeps a
/// note, whichever envelope mode is set.
pub proof fn panic_silences_everything(s: Seq<VoiceSlot>, separate: bool)
    ensures
        !any_live(silenced(s), separate),
        forall|i: int| 0 <= i < s.len() ==> (#[trigger] silenced(s)[i]).note is None,
        silenced(s).len() == s.len(),
{
}

/// A started voice sounds, whichever envelope mode is set.
pub proof fn started_voice_is_live(s: Seq<VoiceSlot>, note: Option<u8>, separate: bool)
    requires
        s.len() > 0,
    ensures
        started(s, allocation(s, note, separate), note)[allocation(s, note, separate)].live(separate),
        any_live(started(s, allocation(s, note, separate), note), separate),
{
    lemma_allocation(s, note, separate);
    let r = allocation(s, note, separate);
    assert(started(s, r, note)[r].live(separate));
}

/// Pressing a key whose MIDI note already has a voice takes that same voice again.
pub proof fn restart_reuses_voice(s: Seq<VoiceSlot>, m: u8, separate: bool, separate_later: bool)
    requires
        s.len() > 0,
    ensures
        allocation(started(s, allocation(s, Some(m), separate), Some(m)), Some(m), separate_later)
            == allocation(s, Some(m), separate),
{
    lemma_allocation(s, Some(m), separate);
    lemma_first_index(s, holds(m));
    let r = allocation(s, Some(m), separate);
    let t = started(s, r, Some(m));
    assert forall|j: int| 0 <= j < r implies !holds(m)(#[trigger] t[j]) by {
        assert(t[j] == s[j]);
        if first_index(s, holds(m)) >= s.len() {
            lemma_first_index(s, holds(m));
        }
    }
    assert(holds(m)(t[r]));
    lemma_first_index_is(t, holds(m), r);
}

/// Releasing a MIDI note reaches the voice that was started for it: both its envelopes go
/// into release.
pub proof fn release_reaches_started_voice(s: Seq<VoiceSlot>, m: u8, separate: bool)
    requires
        s.len() > 0,
    ensures
        note_released(started(s, allocation(s, Some(m), separate), Some(m)), m)[allocation(
            s,
            Some(m),
            separate,
        )].env_a == Stage::Release,
        note_released(started(s, allocation(s, Some(m), separate), Some(m)), m)[allocation(
            s,
            Some(m),
            separate,
        )].env_b == Stage::Release,
{
    lemma_allocation(s, Some(m), separate);
}

/// Releasing the free-running note reaches the voice that was started for it.
pub proof fn release_reaches_free_voice(s: Seq<VoiceSlot>, separate: bool)
    requires
        s.len() > 0,
    ensures
        untagged_released(started(s, allocation(s, None, separate), None), separate)[allocation(
            s,
            None,
            separate,
        )].env_a == Stage::Release,
{
    lemma_allocation(s, None, separate);
}

/// A key does not steal a sounding voice while a quiet one is free: when its note has no
/// voice yet and some voice is not live, the voice it takes is one that was not live, and
/// every voice before it is live.
pub proof fn start_prefers_quiet_voice(s: Seq<VoiceSlot>, note: Option<u8>, separate: bool)
    requires
        s.len() > 0,
        note matches Some(n) ==> forall|i: int| 0 <= i < s.len() ==> (#[trigger] s[i]).note != Some(n),
        exists|i: int| 0 <= i < s.len() && !(#[trigger] s[i]).live(separate),
    ensures
        !s[allocation(s, note, separate)].live(separate),
        forall|j: int| 0 <= j < allocation(s, note, separate) ==> (#[trigger] s[j]).live(separate),
{
    lemma_first_index(s, quiet(separate));
    if let Some(n) = note {
        lemma_first_index(s, holds(n));
        if first_index(s, holds(n)) < s.len() {
            assert(holds(n)(s[first_index(s, holds(n))]));
        }
    }
    let i = choose|i: int| 0 <= i < s.len() && !(#[trigger] s[i]).live(separate);
    assert(quiet(separate)(s[i]));
    assert forall|j: int| 0 <= j < allocation(s, note, separate) implies (#[trigger] s[j]).live(
        separate,
    ) by {
        assert(!quiet(separate)(s[j]));
    }
}

/// A voice sounds exactly while envelope A is not idle, or, with separate envelopes, while
/// envelope B is not idle: an envelope in its release tail still sounds.
pub proof fn voice_sounds_until_idle(v: VoiceSlot, separate: bool)
    ensures
        v.live(separate) == (v.env_a != Stage::Idle || (separate && v.env_b != Stage::Idle)),
{
}

/// A note whose key was released keeps sounding in its release tail: after a key starts a
/// voice and the same key is released, that voice is still live and the bank is active.
pub proof fn released_note_still_sounds(s: Seq<VoiceSlot>, m: u8, separate: bool)
    requires
        s.len() > 0,
    ensures
        note_released(started(s, allocation(s, Some(m), separate), Some(m)), m)[allocation(
            s,
            Some(m),
            separate,
        )].live(separate),
        any_live(note_released(started(s, allocation(s, Some(m), separate), Some(m)), m), separate),
{
    lemma_allocation(s, Some(m), separate);
    let r = allocation(s, Some(m), separate);
    let t = note_released(started(s, r, Some(m)), m);
    assert(t[r].env_a == Stage::Release);
    assert(t[r].live(separate));
}

/// The rule by which a key takes a voice: the first voice that already carries its MIDI note;
/// when there is none, the first voice that is not live; and when every voice is live, the
/// voice at index 0 is stolen.
pub proof fn allocation_rule(s: Seq<VoiceSlot>, note: Option<u8>, separate: bool)
    requires
        s.len() > 0,
    ensures
        0 <= allocation(s, note, separate) < s.len(),
        (note matches Some(n) && exists|i: int| 0 <= i < s.len() && (#[trigger] s[i]).note == Some(n)) ==> {
            &&& s[allocation(s, note, separate)].note == note
            &&& forall|j: int| 0 <= j < allocation(s, note, separate) ==> (#[trigger] s[j]).note != note
        },
        (note is None || forall|i: int| 0 <= i < s.len() ==> (#[trigger] s[i]).note != note) ==> {
            &&& (exists|i: int| 0 <= i < s.len() && !(#[trigger] s[i]).live(separate)) ==> {
                &&& !s[allocation(s, note, separate)].live(separate)
                &&& forall|j: int| 0 <= j < allocation(s, note, separate) ==> (#[trigger] s[j]).live(separate)
            }
            &&& (forall|i: int| 0 <= i < s.len() ==> (#[trigger] s[i]).live(separate)) ==> allocation(
                s,
                note,
                separate,
            ) == 0
        },
{
    lemma_allocation(s, note, separate);
    lemma_first_index(s, quiet(separate));
    let r = allocation(s, note, separate);
    if let Some(n) = note {
        lemma_first_index(s, holds(n));
        let h = first_index(s, holds(n));
        if h < s.len() {
            assert(holds(n)(s[h]));
            assert forall|j: int| 0 <= j < r implies (#[trigger] s[j]).note != note by {
                assert(!holds(n)(s[j]));
            }
        } else {
            assert forall|i: int| 0 <= i < s.len() implies (#[trigger] s[i]).note != note by {
                assert(!holds(n)(s[i]));
            }
        }
        if forall|i: int| 0 <= i < s.len() ==> (#[trigger] s[i]).note != note {
            if h < s.len() {
                assert(holds(n)(s[h]));
                assert(s[h].note != note);
            }
        }
    }
    let q = first_index(s, quiet(separate));
    if q < s.len() {
        assert(quiet(separate)(s[q]));
    }
    if exists|i: int| 0 <= i < s.len() && !(#[trigger] s[i]).live(separate) {
        let i = choose|i: int| 0 <= i < s.len() && !(#[trigger] s[i]).live(separate);
        assert(quiet(separate)(s[i]));
    }
    assert forall|j: int| 0 <= j < q implies (#[trigger] s[j]).live(separate) by {
        assert(!quiet(separate)(s[j]));
    }
    if forall|i: int| 0 <= i < s.len() ==> (#[trigger] s[i]).live(separate) {
        if q < s.len() {
            assert(s[q].live(separate));
        }
    }
}

} // verus!
