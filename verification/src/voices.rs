//! Voice allocation of a polyphonic sample player: which voice a new note
//! takes, and how notes, releases and chokes move voices between idle,
//! playing and releasing. The audio each voice renders is computed
//! elsewhere; this is the bookkeeping that decides which voice does what.
use vstd::prelude::*;

verus! {

/// Playback behaviour at the end of the sample and on note-off.
#[derive(Debug, Clone, Copy, PartialEq, Eq, Structural, Default)]
pub enum LoopMode {
    /// Play once; note-off enters the release phase.
    #[default]
    NoLoop,
    /// Loop between loop points (or the whole sample) forever while held.
    LoopContinuous,
    /// Loop while held; on release play through to the end.
    LoopSustain,
    /// Ignore note-off; play to the end (drum pads).
    OneShot,
}

#[derive(Debug, Clone, Copy, PartialEq, Eq, Structural)]
pub enum VoiceState {
    Idle,
    Playing,
    Release,
}

/// What the allocator knows of one voice.
#[derive(Debug, Clone, Copy, PartialEq, Eq, Structural)]
pub struct VoiceSlot {
    pub state: VoiceState,
    pub note: u8,
    /// Trigger stamp; a smaller stamp is an older trigger.
    pub age: u64,
    /// Caller-supplied tag (a pad index for mute groups); 0 when untagged.
    pub tag: u32,
    pub loop_mode: LoopMode,
}

pub open spec fn is_active(s: VoiceSlot) -> bool {
    s.state != VoiceState::Idle
}

pub open spec fn is_releasing(s: VoiceSlot) -> bool {
    s.state == VoiceState::Release
}

pub open spec fn plays_note(s: VoiceSlot, note: u8) -> bool {
    s.state == VoiceState::Playing && s.note == note
}

/// `i` is the first slot with `p`.
pub open spec fn first_with(slots: Seq<VoiceSlot>, i: int, p: spec_fn(VoiceSlot) -> bool) -> bool {
    0 <= i < slots.len() && p(slots[i]) && forall|j: int| 0 <= j < i ==> !p(#[trigger] slots[j])
}

/// `i` is the oldest slot with `p`, the first one among equally old ones.
pub open spec fn oldest_with(slots: Seq<VoiceSlot>, i: int, p: spec_fn(VoiceSlot) -> bool) -> bool {
    &&& 0 <= i < slots.len()
    &&& p(slots[i])
    &&& forall|j: int| 0 <= j < slots.len() && p(#[trigger] slots[j]) ==> slots[i].age <= slots[j].age
    &&& forall|j: int| 0 <= j < i && p(#[trigger] slots[j]) ==> slots[i].age < slots[j].age
}

pub open spec fn any_with(slots: Seq<VoiceSlot>, p: spec_fn(VoiceSlot) -> bool) -> bool {
    exists|j: int| 0 <= j < slots.len() && p(#[trigger] slots[j])
}

pub open spec fn playing(note: u8) -> spec_fn(VoiceSlot) -> bool {
    |s: VoiceSlot| plays_note(s, note)
}

pub open spec fn idle() -> spec_fn(VoiceSlot) -> bool {
    |s: VoiceSlot| !is_active(s)
}

pub open spec fn releasing() -> spec_fn(VoiceSlot) -> bool {
    |s: VoiceSlot| is_releasing(s)
}

pub open spec fn active() -> spec_fn(VoiceSlot) -> bool {
    |s: VoiceSlot| is_active(s)
}

/// The voice a new note takes: the voice already playing that note, else
/// the first idle voice, else the oldest releasing voice, else the oldest
/// voice; 0 when there are no voices.
pub open spec fn chosen_voice(slots: Seq<VoiceSlot>, note: u8, i: int) -> bool {
    if any_with(slots, playing(note)) {
        first_with(slots, i, playing(note))
    } else if any_with(slots, idle()) {
        first_with(slots, i, idle())
    } else if any_with(slots, releasing()) {
        oldest_with(slots, i, releasing())
    } else if slots.len() > 0 {
        oldest_with(slots, i, active())
    } else {
        i == 0
    }
}

fn first_playing(slots: &Vec<VoiceSlot>, note: u8) -> (r: Option<usize>)
    ensures
        r matches Some(i) ==> first_with(slots@, i as int, playing(note)),
        r is None ==> !any_with(slots@, playing(note)),
{
    let mut i: usize = 0;
    while i < slots.len()
        invariant
            i <= slots@.len(),
            forall|j: int| 0 <= j < i ==> !playing(note)(#[trigger] slots@[j]),
        decreases slots@.len() - i,
    {
        if slots[i].state == VoiceState::Playing && slots[i].note == note {
            return Some(i);
        }
        i += 1;
    }
    None
}

fn first_idle(slots: &Vec<VoiceSlot>) -> (r: Option<usize>)
    ensures
        r matches Some(i) ==> first_with(slots@, i as int, idle()),
        r is None ==> !any_with(slots@, idle()),
{
    let mut i: usize = 0;
    while i < slots.len()
        invariant
            i <= slots@.len(),
            forall|j: int| 0 <= j < i ==> !idle()(#[trigger] slots@[j]),
        decreases slots@.len() - i,
    {
        if slots[i].state == VoiceState::Idle {
            return Some(i);
        }
        i += 1;
    }
    None
}

/// The oldest voice that is releasing (`only_releasing`) or active.
fn oldest(slots: &Vec<VoiceSlot>, only_releasing: bool) -> (r: Option<usize>)
    ensures
        only_releasing ==> (r matches Some(i) ==> oldest_with(slots@, i as int, releasing())),
        only_releasing ==> (r is None ==> !any_with(slots@, releasing())),
        !only_releasing ==> (r matches Some(i) ==> oldest_with(slots@, i as int, active())),
        !only_releasing ==> (r is None ==> !any_with(slots@, active())),
{
    let ghost p = if only_releasing { releasing() } else { active() };
    let mut best: Option<usize> = None;
    let mut i: usize = 0;
    while i < slots.len()
        invariant
            i <= slots@.len(),
            p == (if only_releasing { releasing() } else { active() }),
            best matches Some(b) ==> b < i && oldest_with(slots@.take(i as int), b as int, p),
            best is None ==> forall|j: int| 0 <= j < i ==> !p(#[trigger] slots@[j]),
        decreases slots@.len() - i,
    {
        let s = slots[i];
        let hit = if only_releasing {
            s.state == VoiceState::Release
        } else {
            s.state != VoiceState::Idle
        };
        assert(hit == p(slots@[i as int]));
        let ghost before = slots@.take(i as int);
        assert(slots@.take(i + 1) =~= before.push(s));
        if hit {
            match best {
                None => {
                    best = Some(i);
                },
                Some(b) => {
                    if s.age < slots[b].age {
                        best = Some(i);
                    }
                },
            }
        }
        i += 1;
    }
    assert(slots@.take(i as int) =~= slots@);
    best
}

/// The voice a new note takes; see `chosen_voice`.
pub fn find_voice(slots: &Vec<VoiceSlot>, note: u8) -> (r: usize)
    ensures
        chosen_voice(slots@, note, r as int),
{
    if let Some(i) = first_playing(slots, note) {
        return i;
    }
    if let Some(i) = first_idle(slots) {
        return i;
    }
    if let Some(i) = oldest(slots, true) {
        return i;
    }
    match oldest(slots, false) {
        Some(i) => i,
        None => {
            proof {
                if slots@.len() > 0 {
                    assert(active()(slots@[0]) || idle()(slots@[0]));
                }
            }
            0
        },
    }
}


// ---------------------------------------------------------------------------
// The pool
// ---------------------------------------------------------------------------

/// The allocation state of a pool of voices.
pub struct VoiceAlloc {
    pub slots: Vec<VoiceSlot>,
    /// The stamp the next trigger gets.
    pub next_age: u64,
}

pub open spec fn idle_slot() -> VoiceSlot {
    VoiceSlot { state: VoiceState::Idle, note: 0, age: 0, tag: 0, loop_mode: LoopMode::NoLoop }
}

/// A voice after note-off for `note`: a voice playing that note moves to
/// its release, unless it is a one-shot.
pub open spec fn after_note_off(s: VoiceSlot, note: u8) -> VoiceSlot {
    if plays_note(s, note) && s.loop_mode != LoopMode::OneShot {
        VoiceSlot { state: VoiceState::Release, ..s }
    } else {
        s
    }
}

/// A voice after a choke: an active voice moves to a short release.
pub open spec fn choked(s: VoiceSlot) -> VoiceSlot {
    if is_active(s) {
        VoiceSlot { state: VoiceState::Release, ..s }
    } else {
        s
    }
}

pub open spec fn killed(s: VoiceSlot) -> VoiceSlot {
    VoiceSlot { state: VoiceState::Idle, ..s }
}

/// How many voices are active.
pub open spec fn count_active(s: Seq<VoiceSlot>) -> nat
    decreases s.len(),
{
    if s.len() == 0 {
        0
    } else {
        count_active(s.drop_last()) + if is_active(s.last()) { 1nat } else { 0nat }
    }
}

impl VoiceAlloc {
    /// Every voice was triggered before the next stamp, and there is at
    /// least one voice.
    pub open spec fn wf(&self) -> bool {
        &&& self.slots@.len() >= 1
        &&& forall|i: int| 0 <= i < self.slots@.len() ==> #[trigger] self.slots@[i].age < self.next_age
    }

    /// A pool of `max_voices` idle voices (at least one).
    pub fn new(max_voices: usize) -> (r: VoiceAlloc)
        ensures
            r.wf(),
            r.slots@.len() == (if max_voices < 1 { 1 } else { max_voices }),
            forall|i: int| 0 <= i < r.slots@.len() ==> #[trigger] r.slots@[i] == idle_slot(),
            r.next_age == 1,
    {
        let n = if max_voices < 1 { 1 } else { max_voices };
        let mut slots: Vec<VoiceSlot> = Vec::new();
        while slots.len() < n
            invariant
                slots@.len() <= n,
                forall|i: int| 0 <= i < slots@.len() ==> #[trigger] slots@[i] == idle_slot(),
            decreases n - slots@.len(),
        {
            slots.push(VoiceSlot { state: VoiceState::Idle, note: 0, age: 0, tag: 0, loop_mode: LoopMode::NoLoop });
        }
        VoiceAlloc { slots, next_age: 1 }
    }

    /// Triggers `note` on the voice `find_voice` picks; returns its index.
    pub fn note_on(&mut self, note: u8, tag: u32, loop_mode: LoopMode) -> (r: usize)
        requires
            old(self).wf(),
            old(self).next_age < u64::MAX,
        ensures
            final(self).wf(),
            chosen_voice(old(self).slots@, note, r as int),
            r < old(self).slots@.len(),
            final(self).slots@ == old(self).slots@.update(r as int, VoiceSlot {
                state: VoiceState::Playing,
                note,
                age: old(self).next_age,
                tag,
                loop_mode,
            }),
            final(self).next_age == old(self).next_age + 1,
    {
        let idx = find_voice(&self.slots, note);
        proof {
            let sl = self.slots@;
            if any_with(sl, playing(note)) {
            } else if any_with(sl, idle()) {
            } else if any_with(sl, releasing()) {
            } else {
                assert(sl.len() > 0);
            }
        }
        let age = self.next_age;
        self.next_age = self.next_age + 1;
        self.slots.set(idx, VoiceSlot { state: VoiceState::Playing, note, age, tag, loop_mode });
        idx
    }

    /// Note-off: every voice playing `note` enters its release, except
    /// one-shots.
    pub fn note_off(&mut self, note: u8)
        requires
            old(self).wf(),
        ensures
            final(self).wf(),
            final(self).next_age == old(self).next_age,
            final(self).slots@ == old(self).slots@.map_values(|s: VoiceSlot| after_note_off(s, note)),
    {
        let mut i: usize = 0;
        while i < self.slots.len()
            invariant
                i <= self.slots@.len(),
                self.slots@.len() == old(self).slots@.len(),
                self.next_age == old(self).next_age,
                forall|j: int| 0 <= j < i ==> #[trigger] self.slots@[j] == after_note_off(old(self).slots@[j], note),
                forall|j: int| i <= j < self.slots@.len() ==> #[trigger] self.slots@[j] == old(self).slots@[j],
            decreases self.slots@.len() - i,
        {
            let s = self.slots[i];
            if s.state == VoiceState::Playing && s.note == note && s.loop_mode != LoopMode::OneShot {
                self.slots.set(i, VoiceSlot { state: VoiceState::Release, ..s });
            }
            i += 1;
        }
        assert(self.slots@ =~= old(self).slots@.map_values(|s: VoiceSlot| after_note_off(s, note)));
    }

    /// Chokes every active voice whose index is in `which`.
    fn choke_where(&mut self, which: Ghost<spec_fn(int) -> bool>, tag: Option<u32>, except: usize, note: Option<u8>)
        requires
            old(self).wf(),
            forall|j: int| #[trigger] which@(j) == (j != except as int
                && (tag matches Some(t) ==> old(self).slots@[j].tag == t)
                && (note matches Some(n) ==> old(self).slots@[j].note == n)),
        ensures
            final(self).wf(),
            final(self).next_age == old(self).next_age,
            final(self).slots@.len() == old(self).slots@.len(),
            forall|j: int| 0 <= j < old(self).slots@.len() ==> #[trigger] final(self).slots@[j] == if which@(j) {
                choked(old(self).slots@[j])
            } else {
                old(self).slots@[j]
            },
    {
        let mut i: usize = 0;
        while i < self.slots.len()
            invariant
                i <= self.slots@.len(),
                self.slots@.len() == old(self).slots@.len(),
                self.next_age == old(self).next_age,
                forall|j: int| #[trigger] which@(j) == (j != except as int
                    && (tag matches Some(t) ==> old(self).slots@[j].tag == t)
                    && (note matches Some(n) ==> old(self).slots@[j].note == n)),
                forall|j: int| 0 <= j < i ==> #[trigger] self.slots@[j] == if which@(j) {
                    choked(old(self).slots@[j])
                } else {
                    old(self).slots@[j]
                },
                forall|j: int| i <= j < self.slots@.len() ==> #[trigger] self.slots@[j] == old(self).slots@[j],
            decreases self.slots@.len() - i,
        {
            let s = self.slots[i];
            let tag_ok = match tag {
                Some(t) => s.tag == t,
                None => true,
            };
            let note_ok = match note {
                Some(n) => s.note == n,
                None => true,
            };
            assert(which@(i as int) == (i != except && tag_ok && note_ok));
            if i != except && tag_ok && note_ok && s.state != VoiceState::Idle {
                self.slots.set(i, VoiceSlot { state: VoiceState::Release, ..s });
            }
            i += 1;
        }
    }

    /// Chokes every active voice carrying `tag` (mute groups), except the
    /// voice at `except_idx`.
    pub fn choke_tag(&mut self, tag: u32, except_idx: usize)
        requires
            old(self).wf(),
        ensures
            final(self).wf(),
            final(self).next_age == old(self).next_age,
            final(self).slots@.len() == old(self).slots@.len(),
            forall|j: int| 0 <= j < old(self).slots@.len() ==> #[trigger] final(self).slots@[j] == if j != except_idx
                && old(self).slots@[j].tag == tag {
                choked(old(self).slots@[j])
            } else {
                old(self).slots@[j]
            },
    {
        let ghost which = |j: int| j != except_idx as int && old(self).slots@[j].tag == tag;
        self.choke_where(Ghost(which), Some(tag), except_idx, None);
    }

    /// Chokes every active voice sounding `note`.
    pub fn choke_note(&mut self, note: u8)
        requires
            old(self).wf(),
        ensures
            final(self).wf(),
            final(self).next_age == old(self).next_age,
            final(self).slots@.len() == old(self).slots@.len(),
            forall|j: int| 0 <= j < old(self).slots@.len() ==> #[trigger] final(self).slots@[j] == if old(self).slots@[j].note == note {
                choked(old(self).slots@[j])
            } else {
                old(self).slots@[j]
            },
    {
        let n = self.slots.len();
        let ghost which = |j: int| j != n as int && old(self).slots@[j].note == note;
        self.choke_where(Ghost(which), None, n, Some(note));
    }

    /// Chokes every active voice (the click-free all-notes-off).
    pub fn choke_all(&mut self)
        requires
            old(self).wf(),
        ensures
            final(self).wf(),
            final(self).next_age == old(self).next_age,
            final(self).slots@ == old(self).slots@.map_values(|s: VoiceSlot| choked(s)),
    {
        let n = self.slots.len();
        let ghost which = |j: int| j != n as int;
        self.choke_where(Ghost(which), None, n, None);
        assert(self.slots@ =~= old(self).slots@.map_values(|s: VoiceSlot| choked(s)));
    }

    /// Stops every voice at once.
    pub fn all_notes_off(&mut self)
        requires
            old(self).wf(),
        ensures
            final(self).wf(),
            final(self).next_age == old(self).next_age,
            final(self).slots@ == old(self).slots@.map_values(|s: VoiceSlot| killed(s)),
    {
        let mut i: usize = 0;
        while i < self.slots.len()
            invariant
                i <= self.slots@.len(),
                self.slots@.len() == old(self).slots@.len(),
                self.next_age == old(self).next_age,
                forall|j: int| 0 <= j < i ==> #[trigger] self.slots@[j] == killed(old(self).slots@[j]),
                forall|j: int| i <= j < self.slots@.len() ==> #[trigger] self.slots@[j] == old(self).slots@[j],
            decreases self.slots@.len() - i,
        {
            let s = self.slots[i];
            self.slots.set(i, VoiceSlot { state: VoiceState::Idle, ..s });
            i += 1;
        }
        assert(self.slots@ =~= old(self).slots@.map_values(|s: VoiceSlot| killed(s)));
    }

    /// The voice at `idx` finished playing (its sample or its release ran
    /// out) and is idle again.
    pub fn finished(&mut self, idx: usize)
        requires
            old(self).wf(),
            idx < old(self).slots@.len(),
        ensures
            final(self).wf(),
            final(self).next_age == old(self).next_age,
            final(self).slots@ == old(self).slots@.update(idx as int, killed(old(self).slots@[idx as int])),
    {
        let s = self.slots[idx];
        self.slots.set(idx, VoiceSlot { state: VoiceState::Idle, ..s });
    }

    /// How many voices are active.
    pub fn active_count(&self) -> (r: usize)
        ensures
            r == count_active(self.slots@),
    {
        let mut n: usize = 0;
        let mut i: usize = 0;
        while i < self.slots.len()
            invariant
                i <= self.slots@.len(),
                n == count_active(self.slots@.take(i as int)),
                n <= i,
            decreases self.slots@.len() - i,
        {
            assert(self.slots@.take(i + 1).drop_last() =~= self.slots@.take(i as int));
            if self.slots[i].state != VoiceState::Idle {
                n += 1;
            }
            i += 1;
        }
        assert(self.slots@.take(i as int) =~= self.slots@);
        n
    }
}

/// A triggered voice sounds the note and is the newest voice in the pool:
/// its stamp is above every other voice's.
pub proof fn law_note_on_is_newest(old_pool: Seq<VoiceSlot>, next_age: u64, idx: int, note: u8, tag: u32, mode: LoopMode)
    requires
        0 <= idx < old_pool.len(),
        forall|i: int| 0 <= i < old_pool.len() ==> #[trigger] old_pool[i].age < next_age,
    ensures
        ({
            let new_pool = old_pool.update(idx, VoiceSlot { state: VoiceState::Playing, note, age: next_age, tag, loop_mode: mode });
            &&& plays_note(new_pool[idx], note)
            &&& forall|i: int| 0 <= i < new_pool.len() && i != idx ==> #[trigger] new_pool[i].age < new_pool[idx].age
        }),
{
}

/// After note-off for a note, no voice plays it any more, except one-shots.
pub proof fn law_note_off_releases(slots: Seq<VoiceSlot>, note: u8)
    ensures
        forall|i: int| 0 <= i < slots.len() ==>
            #[trigger] plays_note(after_note_off(slots[i], note), note) ==> slots[i].loop_mode == LoopMode::OneShot,
{
}

/// The voice a new note takes (`find_voice`), by the voices' states:
/// a voice already playing that note, the first such; otherwise the first
/// idle voice, so a releasing voice keeps its tail while any voice is idle;
/// otherwise the releasing voice with the smallest stamp; otherwise the
/// playing voice with the smallest stamp.
pub proof fn law_find_voice_order(slots: Seq<VoiceSlot>, note: u8, i: int)
    requires
        chosen_voice(slots, note, i),
    ensures
        slots.len() > 0 ==> 0 <= i < slots.len(),
        (exists|j: int| 0 <= j < slots.len() && slots[j].state == VoiceState::Playing && slots[j].note == note)
            ==> slots[i].state == VoiceState::Playing && slots[i].note == note
                && forall|j: int| 0 <= j < i ==> !(slots[j].state == VoiceState::Playing && slots[j].note == note),
        !(exists|j: int| 0 <= j < slots.len() && slots[j].state == VoiceState::Playing && slots[j].note == note)
            && (exists|j: int| 0 <= j < slots.len() && slots[j].state == VoiceState::Idle)
            ==> slots[i].state == VoiceState::Idle
                && forall|j: int| 0 <= j < i ==> slots[j].state != VoiceState::Idle,
        !(exists|j: int| 0 <= j < slots.len() && slots[j].state == VoiceState::Playing && slots[j].note == note)
            && (forall|j: int| 0 <= j < slots.len() ==> slots[j].state != VoiceState::Idle)
            && (exists|j: int| 0 <= j < slots.len() && slots[j].state == VoiceState::Release)
            ==> slots[i].state == VoiceState::Release
                && forall|j: int| 0 <= j < slots.len() && slots[j].state == VoiceState::Release ==> slots[i].age <= slots[j].age,
        (forall|j: int| 0 <= j < slots.len() ==> slots[j].state == VoiceState::Playing && slots[j].note != note)
            && slots.len() > 0
            ==> forall|j: int| 0 <= j < slots.len() ==> slots[i].age <= slots[j].age,
{
    if slots.len() > 0 {
        assert(active()(slots[0]) || idle()(slots[0]));
    }
    if exists|j: int| 0 <= j < slots.len() && slots[j].state == VoiceState::Playing && slots[j].note == note {
        let j = choose|j: int| 0 <= j < slots.len() && slots[j].state == VoiceState::Playing && slots[j].note == note;
        assert(playing(note)(slots[j]));
        assert forall|k: int| 0 <= k < i implies !(slots[k].state == VoiceState::Playing && slots[k].note == note) by {
            assert(!playing(note)(slots[k]));
        }
    } else {
        assert(!any_with(slots, playing(note))) by {
            if any_with(slots, playing(note)) {
                let j = choose|j: int| 0 <= j < slots.len() && playing(note)(#[trigger] slots[j]);
                assert(slots[j].state == VoiceState::Playing && slots[j].note == note);
            }
        }
        if exists|j: int| 0 <= j < slots.len() && slots[j].state == VoiceState::Idle {
            let j = choose|j: int| 0 <= j < slots.len() && slots[j].state == VoiceState::Idle;
            assert(idle()(slots[j]));
            assert forall|k: int| 0 <= k < i implies slots[k].state != VoiceState::Idle by {
                assert(!idle()(slots[k]));
            }
        } else {
            assert(!any_with(slots, idle())) by {
                if any_with(slots, idle()) {
                    let j = choose|j: int| 0 <= j < slots.len() && idle()(#[trigger] slots[j]);
                    assert(slots[j].state == VoiceState::Idle);
                }
            }
            if exists|j: int| 0 <= j < slots.len() && slots[j].state == VoiceState::Release {
                let j = choose|j: int| 0 <= j < slots.len() && slots[j].state == VoiceState::Release;
                assert(releasing()(slots[j]));
                assert forall|k: int| 0 <= k < slots.len() && slots[k].state == VoiceState::Release implies slots[i].age <= slots[k].age by {
                    assert(releasing()(slots[k]));
                }
            } else {
                assert(!any_with(slots, releasing())) by {
                    if any_with(slots, releasing()) {
                        let j = choose|j: int| 0 <= j < slots.len() && releasing()(#[trigger] slots[j]);
                        assert(slots[j].state == VoiceState::Release);
                    }
                }
                assert forall|k: int| 0 <= k < slots.len() implies slots[i].age <= slots[k].age by {
                    if slots.len() > 0 && slots[k].state == VoiceState::Playing {
                        assert(active()(slots[k]));
                    }
                }
            }
        }
    }
}

} // verus!
