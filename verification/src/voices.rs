//! Voice-pool bookkeeping shared by the polyphonic synths: which slot a new
//! note takes, which slots a note-off or a choke reaches, and the integer
//! life cycle of a slot (key, note id, age, choke fade, parked note).
//!
//! The envelope itself is floating point and stays with the caller; the
//! planner only reads, per slot, whether the envelope is idle or releasing
//! and an integer `level_key` ordered like the envelope level.

use vstd::prelude::*;

verus! {

/// The key of a slot that holds no note.
pub const NOTE_FREE: u8 = 0xff;

/// `level_key` of an envelope level of +infinity; only levels whose key is
/// below it can be picked as the quietest releasing voice.
pub const LEVEL_KEY_INFINITY: u32 = 0xff80_0000;

/// `level_key` of an envelope level of -infinity. Keys below it belong to
/// negative NaNs (and keys above `LEVEL_KEY_INFINITY` to positive ones), so
/// keys from it up to below `LEVEL_KEY_INFINITY` are exactly the levels below
/// +infinity that a float comparison can rank.
pub const LEVEL_KEY_NEG_INFINITY: u32 = 0x007f_ffff;

/// A note-event target: every note, or one specific key or id.
#[derive(Clone, Copy, Debug, PartialEq, Eq, Structural)]
pub enum NoteMatch<T> {
    All,
    Specific(T),
}

/// Integer order key of an IEEE-754 single given by its bit pattern: for
/// any two non-NaN values the keys compare as the values do (-0 and +0, which
/// compare equal, share a key).
pub open spec fn order_key(bits: u32) -> u32 {
    if bits == 0x8000_0000u32 {
        0x8000_0000u32
    } else if bits & 0x8000_0000u32 != 0 {
        !bits
    } else {
        bits | 0x8000_0000u32
    }
}

pub fn level_key_from_bits(bits: u32) -> (k: u32)
    ensures
        k == order_key(bits),
{
    if bits == 0x8000_0000 {
        0x8000_0000
    } else if bits & 0x8000_0000 != 0 {
        !bits
    } else {
        bits | 0x8000_0000
    }
}

/// A key target matches slot key `key` when it is `All` or its low byte is
/// `key`.
pub open spec fn key_matches(target: NoteMatch<u16>, key: u8) -> bool {
    match target {
        NoteMatch::All => true,
        NoteMatch::Specific(k) => k % 256 == key,
    }
}

/// An id target matches `note_id` when it is `All` or its 32 bits are those
/// of `note_id`.
pub open spec fn note_id_matches(target: NoteMatch<u32>, note_id: i32) -> bool {
    match target {
        NoteMatch::All => true,
        NoteMatch::Specific(id) => id == if note_id >= 0 {
            note_id as int
        } else {
            note_id + 0x1_0000_0000
        },
    }
}

pub fn matches_key(target: NoteMatch<u16>, key: u8) -> (b: bool)
    ensures
        b == key_matches(target, key),
{
    match target {
        NoteMatch::All => true,
        NoteMatch::Specific(k) => {
            let low = k as u8;
            assert(low == k % 256) by (bit_vector)
                requires
                    low == k as u8,
            ;
            low == key
        },
    }
}

pub fn matches_note_id(target: NoteMatch<u32>, note_id: i32) -> (b: bool)
    ensures
        b == note_id_matches(target, note_id),
{
    match target {
        NoteMatch::All => true,
        NoteMatch::Specific(id) => {
            let as_signed = id as i32;
            assert(as_signed == note_id <==> id == if note_id >= 0 {
                note_id as int
            } else {
                note_id + 0x1_0000_0000
            }) by (bit_vector)
                requires
                    as_signed == id as i32,
            ;
            as_signed == note_id
        },
    }
}

/// What the planner needs to know of one slot.
#[derive(Clone, Copy, Debug, PartialEq, Eq, Structural)]
pub struct VoiceView {
    pub key: u8,
    pub note_id: i32,
    pub age_stamp: u64,
    pub choke_remaining: u32,
    /// The envelope has finished (or never started).
    pub idle: bool,
    /// The envelope is in its release stage.
    pub releasing: bool,
    /// `order_key` of the envelope level's bits.
    pub level_key: u32,
}

/// Where a new note goes.
#[derive(Clone, Copy, Debug, PartialEq, Eq, Structural)]
pub enum VoicePlan {
    /// The same key and id already hold this slot: re-attack it.
    Retrigger(usize),
    /// A free slot starts the note.
    Start(usize),
    /// Take this busy slot over.
    Steal(usize),
}

pub open spec fn same_note(v: VoiceView, key: u8, note_id: i32) -> bool {
    v.key == key && v.note_id == note_id
}

pub open spec fn startable(v: VoiceView) -> bool {
    v.idle && v.choke_remaining == 0
}

/// A releasing slot that can be stolen: its level is a number below
/// +infinity (`unfaded`: only slots not already fading out).
pub open spec fn release_candidate(v: VoiceView, unfaded: bool) -> bool {
    (!unfaded || v.choke_remaining == 0) && v.releasing && LEVEL_KEY_NEG_INFINITY <= v.level_key
        && v.level_key < LEVEL_KEY_INFINITY
}

pub open spec fn age_candidate(v: VoiceView, unfaded: bool) -> bool {
    (!unfaded || v.choke_remaining == 0) && v.age_stamp < 0xffff_ffff_ffff_ffffu64
}

/// `i` is the first slot satisfying `p`.
pub open spec fn is_first(s: Seq<VoiceView>, p: spec_fn(VoiceView) -> bool, i: int) -> bool {
    &&& 0 <= i < s.len()
    &&& p(s[i])
    &&& forall|j: int| 0 <= j < i ==> !p(#[trigger] s[j])
}

pub open spec fn none_of(s: Seq<VoiceView>, p: spec_fn(VoiceView) -> bool) -> bool {
    forall|j: int| 0 <= j < s.len() ==> !p(#[trigger] s[j])
}

/// `i` is the first slot with the smallest `score` among those satisfying
/// `p`.
pub open spec fn is_first_min(
    s: Seq<VoiceView>,
    p: spec_fn(VoiceView) -> bool,
    score: spec_fn(VoiceView) -> int,
    i: int,
) -> bool {
    &&& 0 <= i < s.len()
    &&& p(s[i])
    &&& forall|j: int| 0 <= j < s.len() && p(#[trigger] s[j]) ==> score(s[i]) <= score(s[j])
    &&& forall|j: int| 0 <= j < i && p(#[trigger] s[j]) ==> score(s[i]) < score(s[j])
}

pub open spec fn level_of(v: VoiceView) -> int {
    v.level_key as int
}

pub open spec fn age_of(v: VoiceView) -> int {
    v.age_stamp as int
}

/// Number of slots holding a note.
pub open spec fn held_count(s: Seq<VoiceView>) -> nat
    decreases s.len(),
{
    if s.len() == 0 {
        0
    } else {
        held_count(s.drop_last()) + if s.last().key != NOTE_FREE {
            1nat
        } else {
            0nat
        }
    }
}

/// The quietest-releasing-then-oldest victim choice; `unfaded` excludes
/// slots already fading out, with a last fall back to the oldest slot of
/// all when every slot is fading (pad), and to slot 0 when nothing at all
/// qualifies.
pub open spec fn is_victim(s: Seq<VoiceView>, unfaded: bool, i: int) -> bool {
    let rel = |v: VoiceView| release_candidate(v, unfaded);
    let aged = |v: VoiceView| age_candidate(v, unfaded);
    let any_aged = |v: VoiceView| age_candidate(v, false);
    ||| is_first_min(s, rel, |v: VoiceView| level_of(v), i)
    ||| none_of(s, rel) && is_first_min(s, aged, |v: VoiceView| age_of(v), i)
    ||| none_of(s, rel) && none_of(s, aged) && unfaded && is_first_min(s, any_aged, |v: VoiceView| age_of(v), i)
    ||| none_of(s, rel) && none_of(s, aged) && (!unfaded || none_of(s, any_aged)) && i == 0
}

/// The pad's choice: re-attack the same note, else start in the first free
/// slot while under the polyphony cap, else steal (the steal is deferred by
/// a fade, so slots already fading are skipped).
pub open spec fn pad_plan_ok(s: Seq<VoiceView>, key: u8, note_id: i32, polyphony: usize, p: VoicePlan) -> bool {
    let same = |v: VoiceView| same_note(v, key, note_id);
    match p {
        VoicePlan::Retrigger(i) => is_first(s, same, i as int),
        VoicePlan::Start(i) => none_of(s, same) && held_count(s) < polyphony && is_first(s, |v: VoiceView| startable(v), i as int),
        VoicePlan::Steal(i) => none_of(s, same) && (held_count(s) >= polyphony || none_of(s, |v: VoiceView| startable(v)))
            && is_victim(s, true, i as int),
    }
}

/// The jaw-harp's choice: same note, else first free slot, else the
/// quietest releasing slot, else the oldest.
pub open spec fn kubyz_plan_ok(s: Seq<VoiceView>, key: u8, note_id: i32, p: VoicePlan) -> bool {
    let same = |v: VoiceView| same_note(v, key, note_id);
    match p {
        VoicePlan::Retrigger(i) => is_first(s, same, i as int),
        VoicePlan::Start(i) => none_of(s, same) && is_first(s, |v: VoiceView| startable(v), i as int),
        VoicePlan::Steal(i) => none_of(s, same) && none_of(s, |v: VoiceView| startable(v)) && is_victim(s, false, i as int),
    }
}

fn find_same_note(s: &[VoiceView], key: u8, note_id: i32) -> (r: Option<usize>)
    ensures
        match r {
            Some(i) => is_first(s@, |v: VoiceView| same_note(v, key, note_id), i as int),
            None => none_of(s@, |v: VoiceView| same_note(v, key, note_id)),
        },
{
    let mut i: usize = 0;
    while i < s.len()
        invariant
            i <= s.len(),
            forall|j: int| 0 <= j < i ==> !same_note(#[trigger] s@[j], key, note_id),
        decreases s.len() - i,
    {
        if s[i].key == key && s[i].note_id == note_id {
            return Some(i);
        }
        i += 1;
    }
    None
}

fn find_startable(s: &[VoiceView]) -> (r: Option<usize>)
    ensures
        match r {
            Some(i) => is_first(s@, |v: VoiceView| startable(v), i as int),
            None => none_of(s@, |v: VoiceView| startable(v)),
        },
{
    let mut i: usize = 0;
    while i < s.len()
        invariant
            i <= s.len(),
            forall|j: int| 0 <= j < i ==> !startable(#[trigger] s@[j]),
        decreases s.len() - i,
    {
        if s[i].idle && s[i].choke_remaining == 0 {
            return Some(i);
        }
        i += 1;
    }
    None
}

fn count_held(s: &[VoiceView]) -> (n: usize)
    ensures
        n == held_count(s@),
{
    let mut n: usize = 0;
    let mut i: usize = 0;
    while i < s.len()
        invariant
            i <= s.len(),
            n == held_count(s@.take(i as int)),
            n <= i,
        decreases s.len() - i,
    {
        assert(s@.take(i + 1).drop_last() =~= s@.take(i as int));
        if s[i].key != NOTE_FREE {
            n += 1;
        }
        i += 1;
    }
    assert(s@.take(s.len() as int) =~= s@);
    n
}

/// First slot of least level among releasing slots (only unfaded ones when
/// `unfaded`).
fn find_quietest_releasing(s: &[VoiceView], unfaded: bool) -> (r: Option<usize>)
    ensures
        match r {
            Some(i) => is_first_min(s@, |v: VoiceView| release_candidate(v, unfaded), |v: VoiceView| level_of(v), i as int),
            None => none_of(s@, |v: VoiceView| release_candidate(v, unfaded)),
        },
{
    let ghost p = |v: VoiceView| release_candidate(v, unfaded);
    let mut best: usize = 0;
    let mut best_key: u32 = LEVEL_KEY_INFINITY;
    let mut found = false;
    let mut i: usize = 0;
    while i < s.len()
        invariant
            i <= s.len(),
            p == (|v: VoiceView| release_candidate(v, unfaded)),
            !found ==> best_key == LEVEL_KEY_INFINITY && forall|j: int| 0 <= j < i ==> !p(#[trigger] s@[j]),
            found ==> best < i && p(s@[best as int]) && best_key == s@[best as int].level_key,
            found ==> forall|j: int| 0 <= j < i && p(#[trigger] s@[j]) ==> best_key <= s@[j].level_key,
            found ==> forall|j: int| 0 <= j < best && p(#[trigger] s@[j]) ==> best_key < s@[j].level_key,
        decreases s.len() - i,
    {
        let v = s[i];
        if (!unfaded || v.choke_remaining == 0) && v.releasing && v.level_key >= LEVEL_KEY_NEG_INFINITY {
            if v.level_key < best_key {
                best_key = v.level_key;
                best = i;
                found = true;
            }
        }
        i += 1;
    }
    if found {
        Some(best)
    } else {
        None
    }
}

/// First slot of least age stamp (only unfaded ones when `unfaded`).
fn find_oldest(s: &[VoiceView], unfaded: bool) -> (r: Option<usize>)
    ensures
        match r {
            Some(i) => is_first_min(s@, |v: VoiceView| age_candidate(v, unfaded), |v: VoiceView| age_of(v), i as int),
            None => none_of(s@, |v: VoiceView| age_candidate(v, unfaded)),
        },
{
    let ghost p = |v: VoiceView| age_candidate(v, unfaded);
    let mut best: usize = 0;
    let mut oldest: u64 = 0xffff_ffff_ffff_ffff;
    let mut found = false;
    let mut i: usize = 0;
    while i < s.len()
        invariant
            i <= s.len(),
            p == (|v: VoiceView| age_candidate(v, unfaded)),
            !found ==> oldest == 0xffff_ffff_ffff_ffffu64 && forall|j: int| 0 <= j < i ==> !p(#[trigger] s@[j]),
            found ==> best < i && p(s@[best as int]) && oldest == s@[best as int].age_stamp,
            found ==> forall|j: int| 0 <= j < i && p(#[trigger] s@[j]) ==> oldest <= s@[j].age_stamp,
            found ==> forall|j: int| 0 <= j < best && p(#[trigger] s@[j]) ==> oldest < s@[j].age_stamp,
        decreases s.len() - i,
    {
        let v = s[i];
        if !unfaded || v.choke_remaining == 0 {
            if v.age_stamp < oldest {
                oldest = v.age_stamp;
                best = i;
                found = true;
            }
        }
        i += 1;
    }
    if found {
        Some(best)
    } else {
        None
    }
}

fn choose_victim(s: &[VoiceView], unfaded: bool) -> (i: usize)
    requires
        s.len() > 0,
    ensures
        is_victim(s@, unfaded, i as int),
{
    if let Some(i) = find_quietest_releasing(s, unfaded) {
        return i;
    }
    if let Some(i) = find_oldest(s, unfaded) {
        return i;
    }
    if unfaded {
        if let Some(i) = find_oldest(s, false) {
            return i;
        }
    }
    0
}

/// Where the pad puts a new note: the same key and id re-attack their
/// slot; otherwise, below the polyphony cap, the first idle slot that is
/// not fading; otherwise a stolen slot.
pub fn plan_pad_voice(s: &[VoiceView], key: u8, note_id: i32, polyphony: usize) -> (p: VoicePlan)
    requires
        s.len() > 0,
    ensures
        pad_plan_ok(s@, key, note_id, polyphony, p),
{
    if let Some(i) = find_same_note(s, key, note_id) {
        return VoicePlan::Retrigger(i);
    }
    let active = count_held(s);
    if active < polyphony {
        if let Some(i) = find_startable(s) {
            return VoicePlan::Start(i);
        }
    }
    VoicePlan::Steal(choose_victim(s, true))
}

/// Where the jaw-harp puts a new note: same note, first free slot, or a
/// stolen one.
pub fn plan_kubyz_voice(s: &[VoiceView], key: u8, note_id: i32) -> (p: VoicePlan)
    requires
        s.len() > 0,
    ensures
        kubyz_plan_ok(s@, key, note_id, p),
{
    if let Some(i) = find_same_note(s, key, note_id) {
        return VoicePlan::Retrigger(i);
    }
    if let Some(i) = find_startable(s) {
        return VoicePlan::Start(i);
    }
    VoicePlan::Steal(choose_victim(s, false))
}

/// What a choke-fade tick did.
#[derive(Clone, Copy, Debug, PartialEq, Eq, Structural)]
pub enum ChokeStep {
    /// The slot was not fading.
    NotFading,
    /// Still fading.
    Fading,
    /// The fade ended and the parked note now owns the slot.
    StartParked,
    /// The fade ended and the slot is free.
    Freed,
}

/// The integer state of one voice slot.
#[derive(Clone, Copy, Debug, PartialEq, Eq, Structural)]
pub struct VoiceTag {
    /// MIDI key 0..127, or `NOTE_FREE` when the slot is unallocated.
    pub key: u8,
    /// CLAP note id (-1 = no specific id).
    pub note_id: i32,
    /// Monotonic stamp; the smallest is the oldest note.
    pub age_stamp: u64,
    /// Samples left in a choke fade (0 = not fading).
    pub choke_remaining: u32,
    pub choke_total: u32,
    /// A note parked until the fade ends (`NOTE_FREE` = none).
    pub pending_key: u8,
    pub pending_note_id: i32,
}

impl VoiceTag {
    /// The slot one sample further into its choke fade.
    pub open spec fn ticked(self) -> VoiceTag {
        if self.choke_remaining == 0 {
            self
        } else if self.choke_remaining > 1 {
            VoiceTag { choke_remaining: (self.choke_remaining - 1) as u32, ..self }
        } else if self.pending_key != NOTE_FREE {
            VoiceTag {
                choke_remaining: 0,
                key: self.pending_key,
                note_id: self.pending_note_id,
                pending_key: NOTE_FREE,
                ..self
            }
        } else {
            VoiceTag { choke_remaining: 0, key: NOTE_FREE, ..self }
        }
    }

    pub fn free_slot() -> (t: VoiceTag)
        ensures
            t == (VoiceTag {
                key: NOTE_FREE,
                note_id: -1i32,
                age_stamp: 0,
                choke_remaining: 0,
                choke_total: 0,
                pending_key: NOTE_FREE,
                pending_note_id: -1i32,
            }),
    {
        VoiceTag {
            key: NOTE_FREE,
            note_id: -1,
            age_stamp: 0,
            choke_remaining: 0,
            choke_total: 0,
            pending_key: NOTE_FREE,
            pending_note_id: -1,
        }
    }

    /// Re-attack the note this slot already holds.
    pub fn retrigger(&mut self, stamp: u64)
        ensures
            *final(self) == (VoiceTag { age_stamp: stamp, choke_remaining: 0, ..*old(self) }),
    {
        self.age_stamp = stamp;
        self.choke_remaining = 0;
    }

    /// Start a note in this slot.
    pub fn start(&mut self, key: u8, note_id: i32, stamp: u64)
        ensures
            *final(self) == (VoiceTag { key, note_id, age_stamp: stamp, choke_remaining: 0, ..*old(self) }),
    {
        self.key = key;
        self.note_id = note_id;
        self.age_stamp = stamp;
        self.choke_remaining = 0;
    }

    /// Steal this slot without a click: fade the old note out over `fade`
    /// samples (at least one) and park the new note until the fade ends.
    pub fn park(&mut self, key: u8, note_id: i32, stamp: u64, fade: u32)
        ensures
            *final(self) == (VoiceTag {
                choke_total: if fade > 1 { fade } else { 1 },
                choke_remaining: if fade > 1 { fade } else { 1 },
                pending_key: key,
                pending_note_id: note_id,
                age_stamp: stamp,
                ..*old(self)
            }),
    {
        let f = if fade > 1 { fade } else { 1 };
        self.choke_total = f;
        self.choke_remaining = f;
        self.pending_key = key;
        self.pending_note_id = note_id;
        self.age_stamp = stamp;
    }

    /// Start a choke fade of `fade` samples (at least one).
    pub fn begin_choke(&mut self, fade: u32)
        ensures
            *final(self) == (VoiceTag {
                choke_total: if fade > 1 { fade } else { 1 },
                choke_remaining: if fade > 1 { fade } else { 1 },
                ..*old(self)
            }),
    {
        let f = if fade > 1 { fade } else { 1 };
        self.choke_total = f;
        self.choke_remaining = f;
    }

    /// Advance a choke fade by one sample; when it ends the parked note
    /// takes the slot, or the slot is freed.
    pub fn tick_choke(&mut self) -> (step: ChokeStep)
        ensures
            *final(self) == old(self).ticked(),
            old(self).choke_remaining == 0 ==> step == ChokeStep::NotFading && *final(self) == *old(self),
            old(self).choke_remaining > 1 ==> step == ChokeStep::Fading && *final(self) == (VoiceTag {
                choke_remaining: (old(self).choke_remaining - 1) as u32,
                ..*old(self)
            }),
            old(self).choke_remaining == 1 && old(self).pending_key != NOTE_FREE ==> step == ChokeStep::StartParked
                && *final(self) == (VoiceTag {
                choke_remaining: 0,
                key: old(self).pending_key,
                note_id: old(self).pending_note_id,
                pending_key: NOTE_FREE,
                ..*old(self)
            }),
            old(self).choke_remaining == 1 && old(self).pending_key == NOTE_FREE ==> step == ChokeStep::Freed
                && *final(self) == (VoiceTag { choke_remaining: 0, key: NOTE_FREE, ..*old(self) }),
    {
        if self.choke_remaining == 0 {
            return ChokeStep::NotFading;
        }
        self.choke_remaining -= 1;
        if self.choke_remaining > 0 {
            return ChokeStep::Fading;
        }
        if self.pending_key != NOTE_FREE {
            self.key = self.pending_key;
            self.note_id = self.pending_note_id;
            self.pending_key = NOTE_FREE;
            ChokeStep::StartParked
        } else {
            self.key = NOTE_FREE;
            ChokeStep::Freed
        }
    }

    /// The envelope went silent after its release: give the slot back.
    pub fn release_slot(&mut self)
        ensures
            *final(self) == (VoiceTag { key: NOTE_FREE, ..*old(self) }),
    {
        self.key = NOTE_FREE;
    }

    /// A note-off for `(key_match, id_match)` reaches this slot.
    pub fn releases_on(&self, key_match: NoteMatch<u16>, id_match: NoteMatch<u32>) -> (b: bool)
        ensures
            b == (self.key != NOTE_FREE && key_matches(key_match, self.key) && note_id_matches(id_match, self.note_id)),
    {
        self.key != NOTE_FREE && matches_key(key_match, self.key) && matches_note_id(id_match, self.note_id)
    }

    /// A choke for `(key_match, id_match)` reaches this slot: any slot that
    /// holds a note or is still fading.
    pub fn chokes_on(&self, key_match: NoteMatch<u16>, id_match: NoteMatch<u32>) -> (b: bool)
        ensures
            b == (!(self.key == NOTE_FREE && self.choke_remaining == 0) && key_matches(key_match, self.key)
                && note_id_matches(id_match, self.note_id)),
    {
        if self.key == NOTE_FREE && self.choke_remaining == 0 {
            return false;
        }
        matches_key(key_match, self.key) && matches_note_id(id_match, self.note_id)
    }

    /// A per-note tuning expression for `target_note_id` (-1 = any) and
    /// `target_key` (`None` = any) reaches this slot.
    pub fn tuning_applies(&self, target_note_id: i32, target_key: Option<u8>) -> (b: bool)
        ensures
            b == (self.key != NOTE_FREE && (target_note_id == -1 || self.note_id == target_note_id) && match target_key {
                Some(k) => self.key == k,
                None => true,
            }),
    {
        if self.key == NOTE_FREE {
            return false;
        }
        let id_ok = target_note_id == -1 || self.note_id == target_note_id;
        let key_ok = match target_key {
            Some(k) => self.key == k,
            None => true,
        };
        id_ok && key_ok
    }

    /// The slot is still producing sound (for the active-voice meter).
    pub fn is_sounding(&self, idle: bool) -> (b: bool)
        ensures
            b == (!idle || self.key != NOTE_FREE || self.choke_remaining > 0),
    {
        !idle || self.key != NOTE_FREE || self.choke_remaining > 0
    }
}

/// The slot a plan names.
pub open spec fn plan_slot(p: VoicePlan) -> usize {
    match p {
        VoicePlan::Retrigger(i) => i,
        VoicePlan::Start(i) => i,
        VoicePlan::Steal(i) => i,
    }
}

/// The age counter after one more note: one up, wrapping to 0.
pub open spec fn next_stamp(age: u64) -> u64 {
    if age == 0xffff_ffff_ffff_ffffu64 {
        0
    } else {
        (age + 1) as u64
    }
}

/// A pad slot after the plan for note `(key, note_id)` with age `stamp`:
/// re-attacked, started, or (a steal) fading out over `fade` samples with
/// the new note parked.
pub open spec fn pad_applied(t: VoiceTag, p: VoicePlan, key: u8, note_id: i32, stamp: u64, fade: u32) -> VoiceTag {
    match p {
        VoicePlan::Retrigger(_) => VoiceTag { age_stamp: stamp, choke_remaining: 0, ..t },
        VoicePlan::Start(_) => VoiceTag { key, note_id, age_stamp: stamp, choke_remaining: 0, ..t },
        VoicePlan::Steal(_) => VoiceTag {
            choke_total: if fade > 1 { fade } else { 1 },
            choke_remaining: if fade > 1 { fade } else { 1 },
            pending_key: key,
            pending_note_id: note_id,
            age_stamp: stamp,
            ..t
        },
    }
}

/// A jaw-harp slot after the plan: re-attacked, or (start or steal) given
/// the new note at once.
pub open spec fn kubyz_applied(t: VoiceTag, p: VoicePlan, key: u8, note_id: i32, stamp: u64) -> VoiceTag {
    match p {
        VoicePlan::Retrigger(_) => VoiceTag { age_stamp: stamp, choke_remaining: 0, ..t },
        _ => VoiceTag { key, note_id, age_stamp: stamp, choke_remaining: 0, ..t },
    }
}

fn advance_age(next_age: &mut u64) -> (stamp: u64)
    ensures
        stamp == next_stamp(*old(next_age)),
        *final(next_age) == stamp,
{
    let stamp = if *next_age == 0xffff_ffff_ffff_ffff {
        0
    } else {
        *next_age + 1
    };
    *next_age = stamp;
    stamp
}

/// Carry out the pad's plan for a new note: the age counter moves on one
/// and only the planned slot changes. Returns the note's age stamp.
pub fn apply_pad_plan(tags: &mut Vec<VoiceTag>, next_age: &mut u64, p: VoicePlan, key: u8, note_id: i32, fade: u32) -> (stamp: u64)
    requires
        plan_slot(p) < old(tags).len(),
    ensures
        stamp == next_stamp(*old(next_age)),
        *final(next_age) == stamp,
        final(tags)@ == old(tags)@.update(
            plan_slot(p) as int,
            pad_applied(old(tags)@[plan_slot(p) as int], p, key, note_id, stamp, fade),
        ),
{
    let stamp = advance_age(next_age);
    let (i, mut t) = match p {
        VoicePlan::Retrigger(i) => (i, tags[i]),
        VoicePlan::Start(i) => (i, tags[i]),
        VoicePlan::Steal(i) => (i, tags[i]),
    };
    match p {
        VoicePlan::Retrigger(_) => t.retrigger(stamp),
        VoicePlan::Start(_) => t.start(key, note_id, stamp),
        VoicePlan::Steal(_) => t.park(key, note_id, stamp, fade),
    }
    tags.set(i, t);
    stamp
}

/// Carry out the jaw-harp's plan for a new note: the age counter moves on
/// one and only the planned slot changes. Returns the note's age stamp.
pub fn apply_kubyz_plan(tags: &mut Vec<VoiceTag>, next_age: &mut u64, p: VoicePlan, key: u8, note_id: i32) -> (stamp: u64)
    requires
        plan_slot(p) < old(tags).len(),
    ensures
        stamp == next_stamp(*old(next_age)),
        *final(next_age) == stamp,
        final(tags)@ == old(tags)@.update(
            plan_slot(p) as int,
            kubyz_applied(old(tags)@[plan_slot(p) as int], p, key, note_id, stamp),
        ),
{
    let stamp = advance_age(next_age);
    let (i, mut t) = match p {
        VoicePlan::Retrigger(i) => (i, tags[i]),
        VoicePlan::Start(i) => (i, tags[i]),
        VoicePlan::Steal(i) => (i, tags[i]),
    };
    match p {
        VoicePlan::Retrigger(_) => t.retrigger(stamp),
        _ => t.start(key, note_id, stamp),
    }
    tags.set(i, t);
    stamp
}

/// `t` after a choke fade of `fade` samples (at least one) has begun.
pub open spec fn choked(t: VoiceTag, fade: u32) -> VoiceTag {
    VoiceTag {
        choke_total: if fade > 1 { fade } else { 1 },
        choke_remaining: if fade > 1 { fade } else { 1 },
        ..t
    }
}

/// A choke for `(key_match, id_match)` reaches `t`.
pub open spec fn choke_reaches(t: VoiceTag, key_match: NoteMatch<u16>, id_match: NoteMatch<u32>) -> bool {
    !(t.key == NOTE_FREE && t.choke_remaining == 0) && key_matches(key_match, t.key) && note_id_matches(
        id_match,
        t.note_id,
    )
}

/// A note-off for `(key_match, id_match)` reaches `t`.
pub open spec fn release_reaches(t: VoiceTag, key_match: NoteMatch<u16>, id_match: NoteMatch<u32>) -> bool {
    t.key != NOTE_FREE && key_matches(key_match, t.key) && note_id_matches(id_match, t.note_id)
}

/// Choke every slot the choke reaches ("die now", with a short fade). The
/// result marks the slots that were hit, whose fade starts from their
/// current level.
pub fn choke_voices(tags: &mut Vec<VoiceTag>, key_match: NoteMatch<u16>, id_match: NoteMatch<u32>, fade: u32) -> (hit:
    Vec<bool>)
    ensures
        final(tags).len() == old(tags).len(),
        hit.len() == old(tags).len(),
        forall|i: int|
            0 <= i < old(tags).len() ==> #[trigger] hit@[i] == choke_reaches(old(tags)@[i], key_match, id_match),
        forall|i: int|
            0 <= i < old(tags).len() ==> #[trigger] final(tags)@[i] == if choke_reaches(
                old(tags)@[i],
                key_match,
                id_match,
            ) {
                choked(old(tags)@[i], fade)
            } else {
                old(tags)@[i]
            },
{
    let mut hit: Vec<bool> = Vec::new();
    let mut i: usize = 0;
    while i < tags.len()
        invariant
            i <= tags.len(),
            tags.len() == old(tags).len(),
            hit.len() == i,
            forall|j: int| 0 <= j < i ==> #[trigger] hit@[j] == choke_reaches(old(tags)@[j], key_match, id_match),
            forall|j: int|
                0 <= j < i ==> #[trigger] tags@[j] == if choke_reaches(old(tags)@[j], key_match, id_match) {
                    choked(old(tags)@[j], fade)
                } else {
                    old(tags)@[j]
                },
            forall|j: int| i <= j < tags.len() ==> #[trigger] tags@[j] == old(tags)@[j],
        decreases tags.len() - i,
    {
        let mut t = tags[i];
        let reach = t.chokes_on(key_match, id_match);
        if reach {
            t.begin_choke(fade);
            tags.set(i, t);
        }
        hit.push(reach);
        i += 1;
    }
    hit
}

/// Which slots a note-off for `(key_match, id_match)` reaches; the caller
/// moves their envelopes into release.
pub fn release_targets(tags: &[VoiceTag], key_match: NoteMatch<u16>, id_match: NoteMatch<u32>) -> (hit: Vec<bool>)
    ensures
        hit.len() == tags.len(),
        forall|i: int| 0 <= i < tags.len() ==> #[trigger] hit@[i] == release_reaches(tags@[i], key_match, id_match),
{
    let mut hit: Vec<bool> = Vec::new();
    let mut i: usize = 0;
    while i < tags.len()
        invariant
            i <= tags.len(),
            hit.len() == i,
            forall|j: int| 0 <= j < i ==> #[trigger] hit@[j] == release_reaches(tags@[j], key_match, id_match),
        decreases tags.len() - i,
    {
        hit.push(tags[i].releases_on(key_match, id_match));
        i += 1;
    }
    hit
}

/// A slot still sounds: its envelope runs, it holds a note, or it is fading.
pub open spec fn sounding(t: VoiceTag, idle: bool) -> bool {
    !idle || t.key != NOTE_FREE || t.choke_remaining > 0
}

/// The number of sounding slots among the first `n`.
pub open spec fn sounding_count(tags: Seq<VoiceTag>, idle: Seq<bool>, n: int) -> nat
    decreases n,
{
    if n <= 0 {
        0
    } else {
        sounding_count(tags, idle, n - 1) + if sounding(tags[n - 1], idle[n - 1]) {
            1nat
        } else {
            0nat
        }
    }
}

/// The active-voice meter: how many slots still sound, `idle[i]` telling
/// whether slot `i`'s envelope has finished.
pub fn count_sounding(tags: &[VoiceTag], idle: &[bool]) -> (n: u32)
    requires
        tags.len() == idle.len(),
        tags.len() <= u32::MAX,
    ensures
        n == sounding_count(tags@, idle@, tags.len() as int),
{
    let mut n: u32 = 0;
    let mut i: usize = 0;
    while i < tags.len()
        invariant
            i <= tags.len(),
            tags.len() == idle.len(),
            tags.len() <= u32::MAX,
            n == sounding_count(tags@, idle@, i as int),
            n <= i,
        decreases tags.len() - i,
    {
        if tags[i].is_sounding(idle[i]) {
            n += 1;
        }
        i += 1;
    }
    n
}

/// A planned slot is always in range, a re-attack only hits the same note,
/// a fresh start only an idle slot that is not fading, and the pad starts
/// fresh notes only below its polyphony cap.
pub proof fn lemma_pad_plan_is_sound(s: Seq<VoiceView>, key: u8, note_id: i32, polyphony: usize, p: VoicePlan)
    requires
        s.len() > 0,
        pad_plan_ok(s, key, note_id, polyphony, p),
    ensures
        match p {
            VoicePlan::Retrigger(i) => i < s.len() && same_note(s[i as int], key, note_id),
            VoicePlan::Start(i) => i < s.len() && startable(s[i as int]) && held_count(s) < polyphony,
            VoicePlan::Steal(i) => i < s.len() && forall|j: int| 0 <= j < s.len() ==> !same_note(#[trigger] s[j], key, note_id),
        },
{
    match p {
        VoicePlan::Steal(i) => {
            let rel = |v: VoiceView| release_candidate(v, true);
            let aged = |v: VoiceView| age_candidate(v, true);
            let any_aged = |v: VoiceView| age_candidate(v, false);
            assert(is_victim(s, true, i as int));
            assert(i < s.len());
            assert forall|j: int| 0 <= j < s.len() implies !same_note(#[trigger] s[j], key, note_id) by {
                assert(!(|v: VoiceView| same_note(v, key, note_id))(s[j]));
            }
        },
        VoicePlan::Retrigger(i) => {
            assert((|v: VoiceView| same_note(v, key, note_id))(s[i as int]));
        },
        VoicePlan::Start(i) => {
            assert((|v: VoiceView| startable(v))(s[i as int]));
        },
    }
}

/// The slot holds a note (releasing or not).
pub open spec fn holds_key(v: VoiceView) -> bool {
    v.key != NOTE_FREE
}

proof fn lemma_held_count_is_filter(s: Seq<VoiceView>)
    ensures
        held_count(s) == s.filter(|v: VoiceView| holds_key(v)).len(),
    decreases s.len(),
{
    reveal_with_fuel(Seq::<_>::filter, 1);
    if s.len() > 0 {
        lemma_held_count_is_filter(s.drop_last());
    }
}

/// The pad's polyphony cap counts every slot that holds a key, releasing or
/// not: a fresh start happens only while fewer than `polyphony` slots hold
/// one, and once that many do, a new note re-attacks its own slot or steals.
pub proof fn lemma_polyphony_counts_every_held_slot(
    s: Seq<VoiceView>,
    key: u8,
    note_id: i32,
    polyphony: usize,
    p: VoicePlan,
)
    requires
        pad_plan_ok(s, key, note_id, polyphony, p),
    ensures
        held_count(s) == s.filter(|v: VoiceView| holds_key(v)).len(),
        p is Start ==> s.filter(|v: VoiceView| holds_key(v)).len() < polyphony,
        s.filter(|v: VoiceView| holds_key(v)).len() >= polyphony ==> !(p is Start),
{
    lemma_held_count_is_filter(s);
}

/// What carrying out a plan does to the planned slot. The age stamp is the
/// new note's and one above the old counter (wrapping). A re-attack keeps
/// the slot's note and stops any fade. A pad start, and every jaw-harp start
/// or steal, gives the slot the new key and id with no fade. A pad steal
/// keeps the old note fading out for at least one sample, with the new key
/// and id parked behind it.
pub proof fn lemma_applied_plan_holds_the_note(
    t: VoiceTag,
    p: VoicePlan,
    key: u8,
    note_id: i32,
    age: u64,
    fade: u32,
)
    ensures
        next_stamp(age) as int == (age as int + 1) % 0x1_0000_0000_0000_0000,
        ({
            let stamp = next_stamp(age);
            let a = pad_applied(t, p, key, note_id, stamp, fade);
            let b = kubyz_applied(t, p, key, note_id, stamp);
            &&& a.age_stamp == stamp && b.age_stamp == stamp
            &&& p is Retrigger ==> a.key == t.key && a.note_id == t.note_id && a.choke_remaining == 0
                && a.pending_key == t.pending_key
            &&& p is Retrigger ==> b.key == t.key && b.note_id == t.note_id && b.choke_remaining == 0
            &&& p is Start ==> a.key == key && a.note_id == note_id && a.choke_remaining == 0
                && a.pending_key == t.pending_key
            &&& p is Steal ==> a.key == t.key && a.note_id == t.note_id && a.pending_key == key
                && a.pending_note_id == note_id && a.choke_remaining >= 1 && a.choke_remaining == a.choke_total
                && (fade >= 1 ==> a.choke_remaining == fade)
            &&& !(p is Retrigger) ==> b.key == key && b.note_id == note_id && b.choke_remaining == 0
        }),
{
}

/// The sign bit of a single's bit pattern.
pub open spec fn sign_set(b: u32) -> bool {
    b & 0x8000_0000u32 != 0
}

/// The bit pattern without its sign (exponent and fraction).
pub open spec fn magnitude(b: u32) -> u32 {
    b & 0x7fff_ffffu32
}

/// IEEE-754 `<` on two singles that are not NaN, given by their bits: the
/// two zeros are equal, every negative value lies below every positive one,
/// and within a sign a larger magnitude is further from zero.
pub open spec fn bits_less(a: u32, b: u32) -> bool {
    if magnitude(a) == 0 && magnitude(b) == 0 {
        false
    } else if sign_set(a) != sign_set(b) {
        sign_set(a)
    } else if sign_set(a) {
        magnitude(a) > magnitude(b)
    } else {
        magnitude(a) < magnitude(b)
    }
}

/// Level keys compare as the levels do: for two envelope levels that are not
/// NaN, one key is below another exactly when its level is below the other
/// level, and keys are equal exactly for equal levels (the two zeros being
/// equal). NaN levels get keys outside the comparable range.
pub proof fn lemma_level_keys_order_like_levels(a: u32, b: u32)
    ensures
        magnitude(a) <= 0x7f80_0000 && magnitude(b) <= 0x7f80_0000 ==> (order_key(a) < order_key(b) <==> bits_less(
            a,
            b,
        )),
        magnitude(a) <= 0x7f80_0000 && magnitude(b) <= 0x7f80_0000 ==> (order_key(a) == order_key(b) <==> (a == b || (
        magnitude(a) == 0 && magnitude(b) == 0))),
        magnitude(a) <= 0x7f80_0000 ==> LEVEL_KEY_NEG_INFINITY <= order_key(a) <= LEVEL_KEY_INFINITY,
        magnitude(a) > 0x7f80_0000 ==> order_key(a) < LEVEL_KEY_NEG_INFINITY || order_key(a) > LEVEL_KEY_INFINITY,
{
    assert(magnitude(a) <= 0x7f80_0000 && magnitude(b) <= 0x7f80_0000 ==> (order_key(a) < order_key(b) <==> bits_less(
        a,
        b,
    ))) by (bit_vector);
    assert(magnitude(a) <= 0x7f80_0000 && magnitude(b) <= 0x7f80_0000 ==> (order_key(a) == order_key(b) <==> (a == b
        || (magnitude(a) == 0 && magnitude(b) == 0)))) by (bit_vector);
    assert(magnitude(a) <= 0x7f80_0000 ==> 0x007f_ffffu32 <= order_key(a) <= 0xff80_0000u32) by (bit_vector);
    assert(magnitude(a) > 0x7f80_0000 ==> order_key(a) < 0x007f_ffffu32 || order_key(a) > 0xff80_0000u32)
        by (bit_vector);
}

/// A releasing pad voice that can be stolen: not fading out, with a level
/// below +infinity that compares.
pub open spec fn quiet_unfaded(v: VoiceView) -> bool {
    v.releasing && v.choke_remaining == 0 && LEVEL_KEY_NEG_INFINITY <= v.level_key && v.level_key < LEVEL_KEY_INFINITY
}

/// The pad steals the quietest releasing voice that is not already fading
/// out (the first of equally quiet ones); with none, the oldest voice that is
/// not fading out.
pub proof fn lemma_pad_steals_quietest_then_oldest(s: Seq<VoiceView>, key: u8, note_id: i32, polyphony: usize, i: usize)
    requires
        s.len() > 0,
        pad_plan_ok(s, key, note_id, polyphony, VoicePlan::Steal(i)),
    ensures
        i < s.len(),
        (exists|j: int| 0 <= j < s.len() && quiet_unfaded(#[trigger] s[j])) ==> {
            &&& quiet_unfaded(s[i as int])
            &&& forall|j: int| 0 <= j < s.len() && quiet_unfaded(#[trigger] s[j]) ==> s[i as int].level_key <= s[j].level_key
            &&& forall|j: int| 0 <= j < i && quiet_unfaded(#[trigger] s[j]) ==> s[i as int].level_key < s[j].level_key
        },
        (forall|j: int| 0 <= j < s.len() ==> !quiet_unfaded(#[trigger] s[j])) && (exists|j: int|
            0 <= j < s.len() && (#[trigger] s[j]).choke_remaining == 0 && s[j].age_stamp < 0xffff_ffff_ffff_ffffu64) ==> {
            &&& s[i as int].choke_remaining == 0
            &&& forall|j: int| 0 <= j < s.len() && (#[trigger] s[j]).choke_remaining == 0 ==> s[i as int].age_stamp
                <= s[j].age_stamp
        },
{
    let rel = |v: VoiceView| release_candidate(v, true);
    let aged = |v: VoiceView| age_candidate(v, true);
    assert(is_victim(s, true, i as int));
    if exists|j: int| 0 <= j < s.len() && quiet_unfaded(#[trigger] s[j]) {
        let j = choose|j: int| 0 <= j < s.len() && quiet_unfaded(#[trigger] s[j]);
        assert(rel(s[j]));
        assert(!none_of(s, rel));
        assert forall|k: int| 0 <= k < s.len() && quiet_unfaded(#[trigger] s[k]) implies s[i as int].level_key
            <= s[k].level_key by {
            assert(rel(s[k]));
        }
        assert forall|k: int| 0 <= k < i && quiet_unfaded(#[trigger] s[k]) implies s[i as int].level_key
            < s[k].level_key by {
            assert(rel(s[k]));
        }
    }
    if (forall|j: int| 0 <= j < s.len() ==> !quiet_unfaded(#[trigger] s[j])) && (exists|j: int|
        0 <= j < s.len() && (#[trigger] s[j]).choke_remaining == 0 && s[j].age_stamp < 0xffff_ffff_ffff_ffffu64) {
        let j = choose|j: int|
            0 <= j < s.len() && (#[trigger] s[j]).choke_remaining == 0 && s[j].age_stamp < 0xffff_ffff_ffff_ffffu64;
        assert(aged(s[j]));
        assert(!none_of(s, aged));
        assert forall|k: int| 0 <= k < s.len() implies !rel(#[trigger] s[k]) by {
            assert(!quiet_unfaded(s[k]));
        }
        assert(none_of(s, rel));
        assert forall|k: int| 0 <= k < s.len() && (#[trigger] s[k]).choke_remaining == 0 implies s[i as int].age_stamp
            <= s[k].age_stamp by {
            if s[k].age_stamp < 0xffff_ffff_ffff_ffffu64 {
                assert(aged(s[k]));
            }
        }
    }
}

/// The jaw-harp's plan: the same note re-attacks its own slot, a new note
/// starts only in an idle slot that is not fading and only when no slot
/// holds the same note, and a steal happens only when no slot is free.
pub proof fn lemma_kubyz_plan_is_sound(s: Seq<VoiceView>, key: u8, note_id: i32, p: VoicePlan)
    requires
        kubyz_plan_ok(s, key, note_id, p),
    ensures
        match p {
            VoicePlan::Retrigger(i) => i < s.len() && s[i as int].key == key && s[i as int].note_id == note_id,
            VoicePlan::Start(i) => i < s.len() && s[i as int].idle && s[i as int].choke_remaining == 0 && forall|j: int|
                0 <= j < s.len() ==> !((#[trigger] s[j]).key == key && s[j].note_id == note_id),
            VoicePlan::Steal(i) => forall|j: int|
                0 <= j < s.len() ==> !((#[trigger] s[j]).idle && s[j].choke_remaining == 0) && !(s[j].key == key
                    && s[j].note_id == note_id),
        },
{
    match p {
        VoicePlan::Retrigger(i) => {
            assert((|v: VoiceView| same_note(v, key, note_id))(s[i as int]));
        },
        VoicePlan::Start(i) => {
            assert((|v: VoiceView| startable(v))(s[i as int]));
            assert forall|j: int| 0 <= j < s.len() implies !((#[trigger] s[j]).key == key && s[j].note_id == note_id) by {
                assert(!(|v: VoiceView| same_note(v, key, note_id))(s[j]));
            }
        },
        VoicePlan::Steal(i) => {
            assert forall|j: int|
                0 <= j < s.len() implies !((#[trigger] s[j]).idle && s[j].choke_remaining == 0) && !(s[j].key == key
                && s[j].note_id == note_id) by {
                assert(!(|v: VoiceView| same_note(v, key, note_id))(s[j]));
                assert(!(|v: VoiceView| startable(v))(s[j]));
            }
        },
    }
}

/// Who a note-off and a choke reach: a note-off only slots that hold a
/// note, a choke also slots still fading; a choke reaches every slot the
/// same note-off reaches; "all notes" reaches every holding slot, and a
/// specific key only slots holding that key. Every slot a choke reaches
/// counts on the active-voice meter.
pub proof fn lemma_release_and_choke_reach(t: VoiceTag, k: u16, km: NoteMatch<u16>, im: NoteMatch<u32>, idle: bool)
    ensures
        release_reaches(t, km, im) ==> t.key != NOTE_FREE,
        release_reaches(t, km, im) ==> choke_reaches(t, km, im),
        choke_reaches(t, km, im) ==> t.key != NOTE_FREE || t.choke_remaining > 0,
        release_reaches(t, NoteMatch::All, NoteMatch::All) <==> t.key != NOTE_FREE,
        choke_reaches(t, NoteMatch::All, NoteMatch::All) <==> (t.key != NOTE_FREE || t.choke_remaining > 0),
        release_reaches(t, NoteMatch::Specific(k), im) ==> t.key == k % 256,
        choke_reaches(t, km, im) ==> sounding(t, idle),
        sounding(t, false),
{
}

/// A released note is never retriggered by a different note: two distinct
/// (key, id) pairs cannot both re-attack the same slot.
pub proof fn lemma_retrigger_is_note_specific(s: Seq<VoiceView>, k1: u8, n1: i32, k2: u8, n2: i32, i: int)
    requires
        is_first(s, |v: VoiceView| same_note(v, k1, n1), i),
        is_first(s, |v: VoiceView| same_note(v, k2, n2), i),
    ensures
        k1 == k2 && n1 == n2,
{
    assert((|v: VoiceView| same_note(v, k1, n1))(s[i]));
    assert((|v: VoiceView| same_note(v, k2, n2))(s[i]));
}

/// The slot after `n` samples of its choke fade.
pub open spec fn ticks(t: VoiceTag, n: nat) -> VoiceTag
    decreases n,
{
    if n == 0 {
        t
    } else {
        ticks(t, (n - 1) as nat).ticked()
    }
}

/// A stolen slot keeps its old note through the fade and hands over to the
/// parked note exactly when the fade ends: after `park` with a fade of `f`
/// samples, the first `f - 1` ticks keep the old key and the `f`-th starts
/// the parked note, with nothing left parked.
pub proof fn lemma_steal_fade_hands_over(t: VoiceTag, key: u8, note_id: i32, stamp: u64, fade: u32, n: nat)
    requires
        key != NOTE_FREE,
    ensures
        ({
            let f: u32 = if fade > 1 { fade } else { 1 };
            let parked = VoiceTag {
                choke_total: f,
                choke_remaining: f,
                pending_key: key,
                pending_note_id: note_id,
                age_stamp: stamp,
                ..t
            };
            &&& (n < f ==> ticks(parked, n).key == t.key && ticks(parked, n).note_id == t.note_id
                && ticks(parked, n).choke_remaining == f - n && ticks(parked, n).pending_key == key
                && ticks(parked, n).pending_note_id == note_id)
            &&& (n == f ==> ticks(parked, n).key == key && ticks(parked, n).note_id == note_id
                && ticks(parked, n).choke_remaining == 0 && ticks(parked, n).pending_key == NOTE_FREE)
        }),
    decreases n,
{
    let f: u32 = if fade > 1 { fade } else { 1 };
    let parked = VoiceTag {
        choke_total: f,
        choke_remaining: f,
        pending_key: key,
        pending_note_id: note_id,
        age_stamp: stamp,
        ..t
    };
    if n > 0 {
        lemma_steal_fade_hands_over(t, key, note_id, stamp, fade, (n - 1) as nat);
        let prev = ticks(parked, (n - 1) as nat);
        assert(ticks(parked, n) == prev.ticked());
        if n <= f {
            assert(prev.choke_remaining == f - (n - 1));
            assert(prev.pending_key == key && prev.pending_note_id == note_id);
        }
    }
}

/// A choke with nothing parked frees the slot exactly when its fade ends.
pub proof fn lemma_choke_frees_slot(t: VoiceTag, fade: u32, n: nat)
    requires
        t.pending_key == NOTE_FREE,
    ensures
        ({
            let f: u32 = if fade > 1 { fade } else { 1 };
            let choking = VoiceTag { choke_total: f, choke_remaining: f, ..t };
            &&& (n < f ==> ticks(choking, n).key == t.key && ticks(choking, n).choke_remaining == f - n
                && ticks(choking, n).pending_key == NOTE_FREE)
            &&& (n == f ==> ticks(choking, n).key == NOTE_FREE && ticks(choking, n).choke_remaining == 0)
        }),
    decreases n,
{
    let f: u32 = if fade > 1 { fade } else { 1 };
    let choking = VoiceTag { choke_total: f, choke_remaining: f, ..t };
    if n > 0 {
        lemma_choke_frees_slot(t, fade, (n - 1) as nat);
        let prev = ticks(choking, (n - 1) as nat);
        assert(ticks(choking, n) == prev.ticked());
        if n <= f {
            assert(prev.choke_remaining == f - (n - 1));
            assert(prev.pending_key == NOTE_FREE);
        }
    }
}

} // verus!
