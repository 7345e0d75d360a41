//! The sound model: the points the pattern editors hold (note blocks, custom
//! blocks and the top-level sound blocks), the three sound flavours with
//! their parameters, and the playback schedules each flavour computes.
//!
//! The audio backend is an outside collaborator: playing a sound here means
//! computing, as plain data, the gain automation and source start/stop times
//! that the host then feeds into its audio graph.

use vstd::prelude::*;

verus! {

use crate::ctx::{AppEvent, ContextMut, ParamAction, SoundType};
use crate::editor::{GraphEditor, GraphPoint};
use crate::fixed::{Beats, FromBeats, R64, Secs};
use crate::input::{bps_wf, AudioInput, MAX_BEAT_UNITS, MIN_BPS_UNITS};
use crate::note::{Note, MAX_NOTE};
use crate::utils::{lemma_pair_key_le, Keyed};
use crate::UNIT;

/// Highest wall-clock time the scheduling arithmetic accepts, in units.
pub const MAX_TIME_UNITS: i64 = 1_000_000_000_000_000;
/// Highest repetition count of a pattern.
pub const MAX_REP: u32 = 1000;
/// Lowest playback speed of a custom sound, in units.
pub const MIN_SPEED_UNITS: i64 = 100_000;
/// Highest playback speed of a custom sound, in units.
pub const MAX_SPEED_UNITS: i64 = 1_000_000_000_000;
/// Highest sound id a block can carry.
pub const MAX_SOUND_ID: usize = 1_000_000_000;

/// Clamps a value into `[lo, hi]`, in the spec world.
pub open spec fn clamp_spec(v: int, lo: int, hi: int) -> int {
    if v < lo {
        lo
    } else if v > hi {
        hi
    } else {
        v
    }
}

/// Clamps a value into `[lo, hi]`.
pub fn clamp_units(v: R64, lo: i64, hi: i64) -> (r: R64)
    requires
        lo <= hi,
    ensures
        r@ == clamp_spec(v@, lo as int, hi as int),
{
    if v.units() < lo {
        R64::from_units(lo)
    } else if v.units() > hi {
        R64::from_units(hi)
    } else {
        v
    }
}

/// A pitched block in a note sound's pattern: where it starts, what note it
/// plays, and for how long. Ordered by its offset.
#[derive(Clone, Copy, Debug, PartialEq, Eq, Structural)]
pub struct NoteBlock {
    pub offset: Beats,
    pub value: Note,
    pub len: Beats,
}

impl Keyed for NoteBlock {
    open spec fn key(self) -> int {
        self.offset@
    }

    fn le_key(&self, other: &Self) -> (r: bool) {
        self.offset.units() <= other.offset.units()
    }
}

impl GraphPoint for NoteBlock {
    open spec fn wf_point(self) -> bool {
        &&& 0 <= self.offset@ <= MAX_BEAT_UNITS as int
        &&& 0 <= self.len@ <= MAX_BEAT_UNITS as int
        &&& self.value.wf()
    }

    open spec fn moved_spec(self, dx: int, dy_steps: int, meta: bool) -> Self {
        NoteBlock {
            offset: if meta {
                self.offset
            } else {
                R64 { units: clamp_spec(self.offset@ + dx, 0, MAX_BEAT_UNITS as int) as i64 }
            },
            len: if meta {
                R64 { units: clamp_spec(self.len@ + dx, 0, MAX_BEAT_UNITS as int) as i64 }
            } else {
                self.len
            },
            value: Note(clamp_spec(self.value.0 - dy_steps, 0, MAX_NOTE as int) as u8),
        }
    }

    open spec fn create_spec(x: int, y_steps: int) -> Self {
        NoteBlock {
            offset: R64 { units: clamp_spec(x, 0, MAX_BEAT_UNITS as int) as i64 },
            value: Note((MAX_NOTE - clamp_spec(y_steps, 0, MAX_NOTE as int)) as u8),
            len: R64 { units: UNIT as i64 },
        }
    }

    open spec fn hit_spec(self, x0: int, y0: int, x1: int, y1: int) -> bool {
        let row = MAX_NOTE - self.value.0;
        &&& row * UNIT as int <= y1
        &&& y0 < (row + 1) * UNIT as int
        &&& self.offset@ <= x1
        &&& x0 <= self.offset@ + self.len@
    }

    fn move_by(&mut self, dx: R64, dy_steps: i64, meta: bool) {
        if meta {
            self.len = clamp_units(self.len.sat_add(dx), 0, MAX_BEAT_UNITS);
        } else {
            self.offset = clamp_units(self.offset.sat_add(dx), 0, MAX_BEAT_UNITS);
        }
        let v = self.value.index() as i64;
        let moved = if dy_steps >= -(MAX_NOTE as i64) && dy_steps <= MAX_NOTE as i64 {
            v - dy_steps
        } else if dy_steps < 0 {
            MAX_NOTE as i64
        } else {
            0
        };
        let clamped = if moved < 0 {
            0
        } else if moved > MAX_NOTE as i64 {
            MAX_NOTE as i64
        } else {
            moved
        };
        self.value = Note(clamped as u8);
    }

    fn create(x: R64, y_steps: i64) -> (r: Self) {
        let cx = clamp_units(x, 0, MAX_BEAT_UNITS);
        let cy = if y_steps < 0 {
            0
        } else if y_steps > MAX_NOTE as i64 {
            MAX_NOTE as i64
        } else {
            y_steps
        };
        NoteBlock {
            offset: cx,
            value: Note(MAX_NOTE - cy as u8),
            len: R64::from_units(UNIT),
        }
    }

    fn in_hitbox(&self, x0: R64, y0: R64, x1: R64, y1: R64) -> (r: bool) {
        let row = (MAX_NOTE - self.value.0) as i64;
        row * UNIT <= y1.units() && y0.units() < (row + 1) * UNIT && self.offset.units()
            <= x1.units() && x0.units() <= self.offset.units() + self.len.units()
    }

    fn duplicate(&self) -> (r: Self) {
        *self
    }
}

/// A pitched block in a custom sound's pattern: where it starts and at what
/// pitch the sample plays. Ordered by its offset. Its hitbox is one beat
/// wide; the block's audible length depends on the input and is a drawing
/// concern of the host.
#[derive(Clone, Copy, Debug, PartialEq, Eq, Structural)]
pub struct CustomBlock {
    pub offset: Beats,
    pub pitch: Note,
}

impl Keyed for CustomBlock {
    open spec fn key(self) -> int {
        self.offset@
    }

    fn le_key(&self, other: &Self) -> (r: bool) {
        self.offset.units() <= other.offset.units()
    }
}

impl GraphPoint for CustomBlock {
    open spec fn wf_point(self) -> bool {
        &&& 0 <= self.offset@ <= MAX_BEAT_UNITS as int
        &&& self.pitch.wf()
    }

    open spec fn moved_spec(self, dx: int, dy_steps: int, meta: bool) -> Self {
        CustomBlock {
            offset: R64 { units: clamp_spec(self.offset@ + dx, 0, MAX_BEAT_UNITS as int) as i64 },
            pitch: Note(clamp_spec(self.pitch.0 - dy_steps, 0, MAX_NOTE as int) as u8),
        }
    }

    open spec fn create_spec(x: int, y_steps: int) -> Self {
        CustomBlock {
            offset: R64 { units: clamp_spec(x, 0, MAX_BEAT_UNITS as int) as i64 },
            pitch: Note((MAX_NOTE - clamp_spec(y_steps, 0, MAX_NOTE as int)) as u8),
        }
    }

    open spec fn hit_spec(self, x0: int, y0: int, x1: int, y1: int) -> bool {
        let row = MAX_NOTE - self.pitch.0;
        &&& row * UNIT as int <= y1
        &&& y0 < (row + 1) * UNIT as int
        &&& self.offset@ <= x1
        &&& x0 <= self.offset@ + UNIT as int
    }

    fn move_by(&mut self, dx: R64, dy_steps: i64, meta: bool) {
        self.offset = clamp_units(self.offset.sat_add(dx), 0, MAX_BEAT_UNITS);
        let v = self.pitch.index() as i64;
        let moved = if dy_steps >= -(MAX_NOTE as i64) && dy_steps <= MAX_NOTE as i64 {
            v - dy_steps
        } else if dy_steps < 0 {
            MAX_NOTE as i64
        } else {
            0
        };
        let clamped = if moved < 0 {
            0
        } else if moved > MAX_NOTE as i64 {
            MAX_NOTE as i64
        } else {
            moved
        };
        self.pitch = Note(clamped as u8);
    }

    fn create(x: R64, y_steps: i64) -> (r: Self) {
        let cx = clamp_units(x, 0, MAX_BEAT_UNITS);
        let cy = if y_steps < 0 {
            0
        } else if y_steps > MAX_NOTE as i64 {
            MAX_NOTE as i64
        } else {
            y_steps
        };
        CustomBlock { offset: cx, pitch: Note(MAX_NOTE - cy as u8) }
    }

    fn in_hitbox(&self, x0: R64, y0: R64, x1: R64, y1: R64) -> (r: bool) {
        let row = (MAX_NOTE - self.pitch.0) as i64;
        row * UNIT <= y1.units() && y0.units() < (row + 1) * UNIT && self.offset.units()
            <= x1.units() && x0.units() <= self.offset.units() + UNIT
    }

    fn duplicate(&self) -> (r: Self) {
        *self
    }
}

/// A high-level edit of a note pattern, as the hit-testing layer produces
/// them: add a block at a location, remove the blocks at the given strictly
/// ascending indices, or just ask for a redraw.
pub enum NoteBlockEvent {
    Add(Beats, Note),
    Remove(Vec<usize>),
    Redraw,
}

impl NoteBlockEvent {
    /// Applies the edit to a note pattern and reports the editor-plane
    /// redraw the host owes; `Err` exactly when a removal index is out of
    /// bounds, and then the pattern is unchanged.
    pub fn apply(self, pattern: &mut GraphEditor<NoteBlock>) -> (r: Result<
        AppEvent,
        crate::utils::RemoveError,
    >)
        requires
            old(pattern).wf(),
            self is Remove ==> forall|i: int, j: int|
                0 <= i < j < (self->Remove_0)@.len() ==> #[trigger] (self->Remove_0)@[i]
                    < #[trigger] (self->Remove_0)@[j],
        ensures
            final(pattern).wf(),
            r is Ok ==> r->Ok_0 is RedrawEditorPlane,
            self is Add && old(pattern).data@.len() + 1 < usize::MAX ==> r is Ok && ({
                let b = NoteBlock {
                    offset: R64 {
                        units: clamp_spec(self->Add_0@, 0, MAX_BEAT_UNITS as int) as i64,
                    },
                    value: Note(
                        if self->Add_1.0 <= MAX_NOTE {
                            self->Add_1.0
                        } else {
                            MAX_NOTE
                        },
                    ),
                    len: R64 { units: UNIT as i64 },
                };
                final(pattern).data@ == old(pattern).data@.insert(
                    crate::utils::insert_pos(old(pattern).data@, b.key()),
                    b,
                )
            }),
            self is Remove ==> {
                &&& (r is Ok <==> crate::editor::ids_valid(
                    (self->Remove_0)@,
                    old(pattern).data@.len() as int,
                ))
                &&& (r is Ok ==> final(pattern).data@ == crate::editor::remove_ids(
                    old(pattern).data@,
                    (self->Remove_0)@,
                ) && final(pattern).selection@ == crate::editor::remap_sel(
                    old(pattern).selection@,
                    (self->Remove_0)@,
                ))
                &&& (r is Err ==> *final(pattern) == *old(pattern))
            },
            self is Redraw ==> r is Ok && *final(pattern) == *old(pattern),
    {
        match self {
            NoteBlockEvent::Add(offset, value) => {
                if pattern.data.len() < usize::MAX - 1 {
                    let block = NoteBlock {
                        offset: clamp_units(offset, 0, MAX_BEAT_UNITS),
                        value: Note::saturated(value.0),
                        len: R64::from_units(UNIT),
                    };
                    let ghost b = block;
                    let ghost pdata = pattern.data@;
                    let _ = pattern.add_point(block);
                    proof {
                        crate::utils::lemma_insert_pos_bounds(pdata, b.key());
                    }
                }
                Ok(AppEvent::RedrawEditorPlane)
            },
            NoteBlockEvent::Remove(ids) => {
                match pattern.remove_points(&ids) {
                    Ok(_) => Ok(AppEvent::RedrawEditorPlane),
                    Err(e) => Err(e),
                }
            },
            NoteBlockEvent::Redraw => Ok(AppEvent::RedrawEditorPlane),
        }
    }
}

/// The scale that folds (offset, layer) into one ordering key.
pub open spec fn layer_scale() -> int {
    0x1_0000_0000_0000_0000
}

/// The shift that maps a signed layer into the non-negative minor component.
pub open spec fn layer_shift() -> int {
    0x8000_0000_0000_0000
}

/// A placed sound on the top-level timeline: which sound it plays (a stable
/// id into the sequencer's sound pool), on what layer, and at what offset.
/// Ordered primarily by offset, ties broken by layer. Its hitbox is one beat
/// wide and one layer tall.
#[derive(Clone, Copy, Debug, PartialEq, Eq, Structural)]
pub struct SoundBlock {
    pub sound: usize,
    pub layer: i64,
    pub offset: Beats,
}

impl Keyed for SoundBlock {
    open spec fn key(self) -> int {
        self.offset@ * layer_scale() + (self.layer + layer_shift())
    }

    fn le_key(&self, other: &Self) -> (r: bool) {
        proof {
            lemma_pair_key_le(
                self.offset@,
                self.layer + layer_shift(),
                other.offset@,
                other.layer + layer_shift(),
                layer_scale(),
            );
        }
        if self.offset.units() != other.offset.units() {
            self.offset.units() < other.offset.units()
        } else {
            self.layer <= other.layer
        }
    }
}

impl GraphPoint for SoundBlock {
    open spec fn wf_point(self) -> bool {
        &&& 0 <= self.offset@ <= MAX_BEAT_UNITS as int
        &&& -1_000_000_000 <= self.layer <= 1_000_000_000
        &&& self.sound <= MAX_SOUND_ID
    }

    open spec fn moved_spec(self, dx: int, dy_steps: int, meta: bool) -> Self {
        SoundBlock {
            sound: self.sound,
            offset: R64 { units: clamp_spec(self.offset@ + dx, 0, MAX_BEAT_UNITS as int) as i64 },
            layer: clamp_spec(self.layer + dy_steps, -1_000_000_000, 1_000_000_000) as i64,
        }
    }

    open spec fn create_spec(x: int, y_steps: int) -> Self {
        SoundBlock {
            sound: 0,
            offset: R64 { units: clamp_spec(x, 0, MAX_BEAT_UNITS as int) as i64 },
            layer: clamp_spec(y_steps, -1_000_000_000, 1_000_000_000) as i64,
        }
    }

    open spec fn hit_spec(self, x0: int, y0: int, x1: int, y1: int) -> bool {
        &&& self.layer * UNIT as int <= y1
        &&& y0 < (self.layer + 1) * UNIT as int
        &&& self.offset@ <= x1
        &&& x0 <= self.offset@ + UNIT as int
    }

    fn move_by(&mut self, dx: R64, dy_steps: i64, meta: bool) {
        self.offset = clamp_units(self.offset.sat_add(dx), 0, MAX_BEAT_UNITS);
        let moved = if dy_steps >= -2_000_000_000 && dy_steps <= 2_000_000_000 {
            self.layer + dy_steps
        } else if dy_steps < 0 {
            -1_000_000_000
        } else {
            1_000_000_000
        };
        self.layer = if moved < -1_000_000_000 {
            -1_000_000_000
        } else if moved > 1_000_000_000 {
            1_000_000_000
        } else {
            moved
        };
    }

    fn create(x: R64, y_steps: i64) -> (r: Self) {
        let cx = clamp_units(x, 0, MAX_BEAT_UNITS);
        let layer = if y_steps < -1_000_000_000 {
            -1_000_000_000
        } else if y_steps > 1_000_000_000 {
            1_000_000_000
        } else {
            y_steps
        };
        SoundBlock { sound: 0, offset: cx, layer }
    }

    fn in_hitbox(&self, x0: R64, y0: R64, x1: R64, y1: R64) -> (r: bool) {
        self.layer * UNIT <= y1.units() && y0.units() < (self.layer + 1) * UNIT
            && self.offset.units() <= x1.units() && x0.units() <= self.offset.units() + UNIT
    }

    fn duplicate(&self) -> (r: Self) {
        *self
    }
}

/// Highest scheduling time the envelope arithmetic accepts, in units.
pub const MAX_SCHED_UNITS: i64 = 1_000_000_000_000_000_000;

/// Beats to seconds as plain integers: `beats / bps`, truncated to units.
pub open spec fn to_secs_int(beats: int, bps: int) -> int {
    beats * UNIT as int / bps
}

/// The gain automation for one scheduled block: set to zero at `start`, ramp
/// to `volume` by `peak_at`, ramp to the sustain level by `sustain_at`, hold
/// it until `hold_at`, ramp to zero by `end`.
#[derive(Clone, Copy, Debug, PartialEq, Eq, Structural)]
pub struct EnvelopeSchedule {
    /// Which master plug generation the block's gain node hangs off.
    pub epoch: u64,
    pub start: Secs,
    pub peak_at: Secs,
    pub sustain_at: Secs,
    pub hold_at: Secs,
    pub end: Secs,
    pub volume: R64,
    pub sustain_level: R64,
}

/// Envelope parameters the arithmetic accepts: levels within one, segment
/// lengths within the beat bound.
pub open spec fn env_params_wf(
    volume: R64,
    sustain: R64,
    attack: Beats,
    decay: Beats,
    release: Beats,
) -> bool {
    &&& 0 <= volume@ <= UNIT as int
    &&& 0 <= sustain@ <= UNIT as int
    &&& 0 <= attack@ <= MAX_BEAT_UNITS as int
    &&& 0 <= decay@ <= MAX_BEAT_UNITS as int
    &&& 0 <= release@ <= MAX_BEAT_UNITS as int
}

/// What [`envelope`] returns, field by field.
pub open spec fn envelope_spec(
    volume: R64,
    sustain: R64,
    attack: Beats,
    decay: Beats,
    release: Beats,
    bps: Beats,
    start: int,
    len_secs: int,
    epoch: u64,
) -> EnvelopeSchedule {
    let peak = start + to_secs_int(attack@, bps@);
    let sus_at = peak + to_secs_int(decay@, bps@);
    let sus_level = sustain@ * volume@ / UNIT as int;
    let end = start + len_secs;
    let hold = end - to_secs_int(release@, bps@);
    EnvelopeSchedule {
        epoch,
        start: R64 { units: start as i64 },
        peak_at: R64 { units: peak as i64 },
        sustain_at: R64 { units: sus_at as i64 },
        hold_at: R64 { units: hold as i64 },
        end: R64 { units: end as i64 },
        volume,
        sustain_level: R64 { units: sus_level as i64 },
    }
}

/// Computes one block's gain automation: zero at the start, a linear attack
/// to the volume, a linear decay to `sustain * volume`, a hold until
/// `release` beats before the end, and a linear release to zero at the end.
pub fn envelope(
    volume: R64,
    sustain: R64,
    attack: Beats,
    decay: Beats,
    release: Beats,
    bps: Beats,
    start: Secs,
    len_secs: Secs,
    epoch: u64,
) -> (r: EnvelopeSchedule)
    requires
        env_params_wf(volume, sustain, attack, decay, release),
        bps_wf(bps),
        0 <= start@ <= MAX_SCHED_UNITS as int,
        0 <= len_secs@ <= MAX_SCHED_UNITS as int,
    ensures
        r == envelope_spec(volume, sustain, attack, decay, release, bps, start@, len_secs@, epoch),
{
    proof {
        lemma_secs_bound(attack@, bps@);
        lemma_secs_bound(decay@, bps@);
        lemma_secs_bound(release@, bps@);
        vstd::arithmetic::mul::lemma_mul_nonnegative(sustain@, volume@);
        vstd::arithmetic::div_mod::lemma_div_pos_is_pos(sustain@ * volume@, UNIT as int);
        vstd::arithmetic::mul::lemma_mul_inequality(sustain@, UNIT as int, volume@);
        vstd::arithmetic::mul::lemma_mul_upper_bound(
            sustain@,
            UNIT as int,
            volume@,
            UNIT as int,
        );
    }
    let peak = start.add(attack.to_secs(bps));
    let sus_at = peak.add(decay.to_secs(bps));
    let sus_level = sustain.mul(volume);
    let end = start.add(len_secs);
    let hold = end.sub(release.to_secs(bps));
    EnvelopeSchedule {
        epoch,
        start,
        peak_at: peak,
        sustain_at: sus_at,
        hold_at: hold,
        end,
        volume,
        sustain_level: sus_level,
    }
}

/// Converting a bounded beat count at an accepted tempo stays within bounds.
proof fn lemma_secs_bound_to(beats: int, bps: int, bound: int)
    requires
        0 <= beats <= bound,
        MIN_BPS_UNITS as int <= bps,
    ensures
        0 <= to_secs_int(beats, bps) <= bound * UNIT as int / MIN_BPS_UNITS as int,
{
    vstd::arithmetic::mul::lemma_mul_nonnegative(beats, UNIT as int);
    vstd::arithmetic::div_mod::lemma_div_pos_is_pos(beats * UNIT as int, bps);
    vstd::arithmetic::mul::lemma_mul_inequality(beats, bound, UNIT as int);
    vstd::arithmetic::div_mod::lemma_div_is_ordered(beats * UNIT as int, bound * UNIT as int, bps);
    vstd::arithmetic::div_mod::lemma_div_is_ordered_by_denominator(
        bound * UNIT as int,
        MIN_BPS_UNITS as int,
        bps,
    );
}

/// Converting a beat count within the beat bound stays within bounds.
proof fn lemma_secs_bound(beats: int, bps: int)
    requires
        0 <= beats <= MAX_BEAT_UNITS as int,
        MIN_BPS_UNITS as int <= bps,
    ensures
        0 <= to_secs_int(beats, bps) <= MAX_BEAT_UNITS as int * UNIT as int / MIN_BPS_UNITS as int,
{
    lemma_secs_bound_to(beats, bps, MAX_BEAT_UNITS as int);
}

/// The schedule of one note block: its gain envelope, and an oscillator at
/// the block's note frequency running from the block's start to its end.
#[derive(Clone, Copy, Debug, PartialEq, Eq, Structural)]
pub struct NoteBlockSchedule {
    pub env: EnvelopeSchedule,
    /// Oscillator frequency in hertz.
    pub freq: R64,
    pub osc_start: Secs,
    pub osc_stop: Secs,
}

/// A sound that plays a pattern of oscillator notes through per-block gain
/// envelopes.
pub struct NoteSound {
    pub pattern: GraphEditor<NoteBlock>,
    pub volume: R64,
    pub attack: Beats,
    pub decay: Beats,
    pub sustain: R64,
    pub release: Beats,
    pub rep_count: u32,
}

/// What one scheduled note block looks like: the pattern repeats every
/// `last.offset + last.len` beats; within repetition `ri`, block `j` starts
/// at the pattern base plus its own offset and runs for its own length.
pub open spec fn note_sched_spec(
    s: NoteSound,
    bps: Beats,
    base: int,
    ri: int,
    j: int,
    epoch: u64,
) -> NoteBlockSchedule {
    let pat = s.pattern.data@;
    let pat_len_secs = to_secs_int(pat.last().offset@ + pat.last().len@, bps@);
    let start = base + pat_len_secs * ri + to_secs_int(pat[j].offset@, bps@);
    let len_secs = to_secs_int(pat[j].len@, bps@);
    NoteBlockSchedule {
        env: envelope_spec(
            s.volume,
            s.sustain,
            s.attack,
            s.decay,
            s.release,
            bps,
            start,
            len_secs,
            epoch,
        ),
        freq: R64 { units: crate::note::freq_units(pat[j].value.0 as int) as i64 },
        osc_start: R64 { units: start as i64 },
        osc_stop: R64 { units: (start + len_secs) as i64 },
    }
}

/// Play times the scheduling arithmetic accepts.
pub open spec fn play_time_wf(now: Secs, self_offset: Secs) -> bool {
    &&& 0 <= now@ <= MAX_TIME_UNITS as int
    &&& 0 <= self_offset@ <= MAX_TIME_UNITS as int
}

impl NoteSound {
    /// Parameters in range, repetition count positive, pattern editor sound.
    pub open spec fn wf(self) -> bool {
        &&& self.pattern.wf()
        &&& env_params_wf(self.volume, self.sustain, self.attack, self.decay, self.release)
        &&& 1 <= self.rep_count <= MAX_REP
    }

    /// An empty pattern with unit volume and sustain, instant envelope, one
    /// repetition.
    pub fn defaults() -> (r: NoteSound)
        ensures
            r.wf(),
            r.pattern.data@.len() == 0,
            r.volume@ == UNIT as int,
            r.attack@ == 0,
            r.decay@ == 0,
            r.sustain@ == UNIT as int,
            r.release@ == 0,
            r.rep_count == 1,
    {
        NoteSound {
            pattern: GraphEditor::new(
                R64::from_units(20 * UNIT),
                R64::from_units(40 * UNIT),
                R64::zero(),
                R64::from_units(-2 * UNIT),
                R64::from_units(-2 * UNIT),
                R64::from_units(UNIT),
            ),
            volume: R64::from_units(UNIT),
            attack: R64::zero(),
            decay: R64::zero(),
            sustain: R64::from_units(UNIT),
            release: R64::zero(),
            rep_count: 1,
        }
    }

    /// The pattern's length in beats: where its last block ends, zero when it
    /// is empty.
    pub fn len(&self) -> (r: Beats)
        requires
            self.wf(),
        ensures
            r@ == if self.pattern.data@.len() == 0 {
                0int
            } else {
                self.pattern.data@.last().offset@ + self.pattern.data@.last().len@
            },
            0 <= r@ <= 2 * MAX_BEAT_UNITS as int,
    {
        let n = self.pattern.data.len();
        if n == 0 {
            R64::zero()
        } else {
            proof {
                assert(self.pattern.data@[n - 1].wf_point());
                assert(self.pattern.data@.last() == self.pattern.data@[n - 1]);
            }
            let last = &self.pattern.data[n - 1];
            last.offset.add(last.len)
        }
    }

    /// How many times the pattern replays.
    pub fn rep_count(&self) -> (r: u32)
        ensures
            r == self.rep_count,
    {
        self.rep_count
    }

    /// Computes the whole playback schedule: for every repetition, one entry
    /// per pattern block, each with its envelope and oscillator times. The
    /// result is empty exactly when the pattern is.
    pub fn play(&self, now: Secs, self_offset: Secs, bps: Beats, epoch: u64) -> (r: Vec<
        Vec<NoteBlockSchedule>,
    >)
        requires
            self.wf(),
            play_time_wf(now, self_offset),
            bps_wf(bps),
        ensures
            self.pattern.data@.len() == 0 ==> r@.len() == 0,
            self.pattern.data@.len() > 0 ==> {
                &&& r@.len() == self.rep_count as int
                &&& forall|ri: int|
                    0 <= ri < r@.len() ==> (#[trigger] r@[ri])@.len()
                        == self.pattern.data@.len()
                &&& forall|ri: int, j: int|
                    0 <= ri < r@.len() && 0 <= j < self.pattern.data@.len()
                        ==> (#[trigger] r@[ri]@[j]) == note_sched_spec(
                        *self,
                        bps,
                        now@ + self_offset@,
                        ri,
                        j,
                        epoch,
                    )
            },
    {
        let mut r: Vec<Vec<NoteBlockSchedule>> = Vec::new();
        let n = self.pattern.data.len();
        if n == 0 {
            return r;
        }
        let ghost base = now@ + self_offset@;
        proof {
            assert(self.pattern.data@[n - 1].wf_point());
            assert(self.pattern.data@.last() == self.pattern.data@[n - 1]);
        }
        let last = &self.pattern.data[n - 1];
        proof {
            lemma_secs_bound_to(last.offset@ + last.len@, bps@, 2 * MAX_BEAT_UNITS as int);
        }
        let pat_len_secs = last.offset.add(last.len).to_secs(bps);
        let base_secs = now.add(self_offset);
        let reps = self.rep_count;
        let mut ri: u32 = 0;
        while ri < reps
            invariant
                0 <= ri <= reps,
                self.wf(),
                bps_wf(bps),
                play_time_wf(now, self_offset),
                n == self.pattern.data@.len(),
                n > 0,
                base == now@ + self_offset@,
                base_secs@ == base,
                pat_len_secs@ == to_secs_int(
                    self.pattern.data@.last().offset@ + self.pattern.data@.last().len@,
                    bps@,
                ),
                0 <= pat_len_secs@ <= 2 * MAX_BEAT_UNITS as int * UNIT as int
                    / MIN_BPS_UNITS as int,
                reps == self.rep_count,
                r@.len() == ri as int,
                forall|a: int|
                    0 <= a < ri as int ==> (#[trigger] r@[a])@.len()
                        == self.pattern.data@.len(),
                forall|a: int, j: int|
                    0 <= a < ri as int && 0 <= j < self.pattern.data@.len()
                        ==> (#[trigger] r@[a]@[j]) == note_sched_spec(*self, bps, base, a, j, epoch),
            decreases reps - ri,
        {
            proof {
                vstd::arithmetic::mul::lemma_mul_nonnegative(pat_len_secs@, ri as int);
                vstd::arithmetic::mul::lemma_mul_upper_bound(
                    pat_len_secs@,
                    2 * MAX_BEAT_UNITS as int * UNIT as int / MIN_BPS_UNITS as int,
                    ri as int,
                    MAX_REP as int,
                );
            }
            let rep_base = base_secs.add(pat_len_secs.mul_int(ri as i64));
            let mut row: Vec<NoteBlockSchedule> = Vec::new();
            let mut j: usize = 0;
            while j < n
                invariant
                    0 <= j <= n,
                    self.wf(),
                    bps_wf(bps),
                    n == self.pattern.data@.len(),
                    n > 0,
                    rep_base@ == base + pat_len_secs@ * ri as int,
                    pat_len_secs@ == to_secs_int(
                        self.pattern.data@.last().offset@ + self.pattern.data@.last().len@,
                        bps@,
                    ),
                    0 <= rep_base@ <= 2 * MAX_TIME_UNITS as int + 2 * MAX_BEAT_UNITS as int
                        * UNIT as int / MIN_BPS_UNITS as int * MAX_REP as int,
                    base == now@ + self_offset@,
                    row@.len() == j as int,
                    forall|b: int|
                        0 <= b < j as int ==> #[trigger] row@[b] == note_sched_spec(
                            *self,
                            bps,
                            base,
                            ri as int,
                            b,
                            epoch,
                        ),
                decreases n - j,
            {
                proof {
                    assert(self.pattern.data@[j as int].wf_point());
                }
                let block = &self.pattern.data[j];
                proof {
                    lemma_secs_bound(block.offset@, bps@);
                    lemma_secs_bound(block.len@, bps@);
                }
                let start = rep_base.add(block.offset.to_secs(bps));
                let len_secs = block.len.to_secs(bps);
                let env = envelope(
                    self.volume,
                    self.sustain,
                    self.attack,
                    self.decay,
                    self.release,
                    bps,
                    start,
                    len_secs,
                    epoch,
                );
                let sched = NoteBlockSchedule {
                    env,
                    freq: block.value.freq(),
                    osc_start: start,
                    osc_stop: start.add(len_secs),
                };
                row.push(sched);
                j += 1;
            }
            r.push(row);
            ri += 1;
        }
        r
    }
}

/// A level value clamped into `[0, 1]`.
pub open spec fn clamp_level(v: R64) -> R64 {
    R64 { units: clamp_spec(v@, 0, UNIT as int) as i64 }
}

/// A beat count clamped into the accepted range.
pub open spec fn clamp_beats(v: R64) -> R64 {
    R64 { units: clamp_spec(v@, 0, MAX_BEAT_UNITS as int) as i64 }
}

/// A repetition count clamped into `[1, MAX_REP]`.
pub open spec fn clamp_rep(v: u32) -> u32 {
    clamp_spec(v as int, 1, MAX_REP as int) as u32
}

/// A playback speed clamped into the accepted range.
pub open spec fn clamp_speed(v: R64) -> R64 {
    R64 { units: clamp_spec(v@, MIN_SPEED_UNITS as int, MAX_SPEED_UNITS as int) as i64 }
}

/// Clamps a level value into `[0, 1]`.
pub fn clamp_level_exec(v: R64) -> (r: R64)
    ensures
        r == clamp_level(v),
{
    clamp_units(v, 0, UNIT)
}

/// Clamps a beat count into the accepted range.
pub fn clamp_beats_exec(v: R64) -> (r: R64)
    ensures
        r == clamp_beats(v),
{
    clamp_units(v, 0, MAX_BEAT_UNITS)
}

/// Clamps a repetition count into `[1, MAX_REP]`.
pub fn clamp_rep_exec(v: u32) -> (r: u32)
    ensures
        r == clamp_rep(v),
{
    if v < 1 {
        1
    } else if v > MAX_REP {
        MAX_REP
    } else {
        v
    }
}

/// Clamps a playback speed into the accepted range.
pub fn clamp_speed_exec(v: R64) -> (r: R64)
    ensures
        r == clamp_speed(v),
{
    clamp_units(v, MIN_SPEED_UNITS, MAX_SPEED_UNITS)
}

impl NoteSound {
    /// The sound after one parameter action fires on it (clamped into the
    /// accepted ranges); actions that do not concern it leave it alone.
    pub open spec fn value_update(self, a: ParamAction) -> NoteSound {
        match a {
            ParamAction::SetVolume { to, .. } => NoteSound { volume: clamp_level(to), ..self },
            ParamAction::SetAttack { to, .. } => NoteSound { attack: clamp_beats(to), ..self },
            ParamAction::SetDecay { to, .. } => NoteSound { decay: clamp_beats(to), ..self },
            ParamAction::SetSustain { to, .. } => NoteSound { sustain: clamp_level(to), ..self },
            ParamAction::SetRelease { to, .. } => NoteSound { release: clamp_beats(to), ..self },
            ParamAction::SetRepCount { to, .. } => NoteSound { rep_count: clamp_rep(to), ..self },
            _ => self,
        }
    }

    /// The sound after one parameter action is reversed on it.
    pub open spec fn value_restore(self, a: ParamAction) -> NoteSound {
        match a {
            ParamAction::SetVolume { from, .. } => NoteSound { volume: clamp_level(from), ..self },
            ParamAction::SetAttack { from, .. } => NoteSound { attack: clamp_beats(from), ..self },
            ParamAction::SetDecay { from, .. } => NoteSound { decay: clamp_beats(from), ..self },
            ParamAction::SetSustain { from, .. } => NoteSound {
                sustain: clamp_level(from),
                ..self
            },
            ParamAction::SetRelease { from, .. } => NoteSound {
                release: clamp_beats(from),
                ..self
            },
            ParamAction::SetRepCount { from, .. } => NoteSound {
                rep_count: clamp_rep(from),
                ..self
            },
            _ => self,
        }
    }

    /// The sound after a whole undo batch, and whether the batch asks the
    /// owning block to reset to an undefined sound (a block-type change being
    /// undone stops the batch).
    pub open spec fn undo_batch(self, actions: Seq<ParamAction>) -> (NoteSound, bool)
        decreases actions.len(),
    {
        if actions.len() == 0 {
            (self, false)
        } else if actions[0] is SetBlockType {
            (self, true)
        } else {
            self.value_restore(actions[0]).undo_batch(actions.drop_first())
        }
    }

    /// The sound after a whole redo batch.
    pub open spec fn redo_batch(self, actions: Seq<ParamAction>) -> NoteSound
        decreases actions.len(),
    {
        if actions.len() == 0 {
            self
        } else {
            self.value_update(actions[0]).redo_batch(actions.drop_first())
        }
    }

    /// Reversing a parameter action right after it fired restores the sound,
    /// provided the recorded old value was itself in range (every value this
    /// sound ever holds is).
    pub proof fn lemma_param_round_trip(self, a: ParamAction)
        requires
            self.wf(),
            a is SetVolume ==> a->SetVolume_from == self.volume,
            a is SetAttack ==> a->SetAttack_from == self.attack,
            a is SetDecay ==> a->SetDecay_from == self.decay,
            a is SetSustain ==> a->SetSustain_from == self.sustain,
            a is SetRelease ==> a->SetRelease_from == self.release,
            a is SetRepCount ==> a->SetRepCount_from == self.rep_count,
        ensures
            self.value_update(a).value_restore(a) == self,
    {
    }

    /// Applies one broadcast event: a value event updates the matching
    /// parameter and records the action; an undo or redo batch folds over its
    /// actions. Returns whether an undone block-type change asks the owning
    /// block to reset. The pattern itself only changes through its own editor.
    pub fn handle_event(&mut self, event: &AppEvent, ctx: &mut ContextMut) -> (reset: bool)
        requires
            old(self).wf(),
        ensures
            final(self).wf(),
            final(self).pattern == old(self).pattern,
            match *event {
                AppEvent::Volume { value } => !reset && *final(self) == old(self).value_update(
                    ParamAction::SetVolume { from: old(self).volume, to: value },
                ) && final(ctx).actions_done@ == old(ctx).actions_done@.push(
                    ParamAction::SetVolume { from: old(self).volume, to: clamp_level(value) },
                ),
                AppEvent::Attack { value } => !reset && *final(self) == old(self).value_update(
                    ParamAction::SetAttack { from: old(self).attack, to: value },
                ) && final(ctx).actions_done@ == old(ctx).actions_done@.push(
                    ParamAction::SetAttack { from: old(self).attack, to: clamp_beats(value) },
                ),
                AppEvent::Decay { value } => !reset && *final(self) == old(self).value_update(
                    ParamAction::SetDecay { from: old(self).decay, to: value },
                ) && final(ctx).actions_done@ == old(ctx).actions_done@.push(
                    ParamAction::SetDecay { from: old(self).decay, to: clamp_beats(value) },
                ),
                AppEvent::Sustain { value } => !reset && *final(self) == old(self).value_update(
                    ParamAction::SetSustain { from: old(self).sustain, to: value },
                ) && final(ctx).actions_done@ == old(ctx).actions_done@.push(
                    ParamAction::SetSustain { from: old(self).sustain, to: clamp_level(value) },
                ),
                AppEvent::Release { value } => !reset && *final(self) == old(self).value_update(
                    ParamAction::SetRelease { from: old(self).release, to: value },
                ) && final(ctx).actions_done@ == old(ctx).actions_done@.push(
                    ParamAction::SetRelease { from: old(self).release, to: clamp_beats(value) },
                ),
                AppEvent::RepCount { value } => !reset && *final(self) == old(self).value_update(
                    ParamAction::SetRepCount { from: old(self).rep_count, to: value },
                ) && final(ctx).actions_done@ == old(ctx).actions_done@.push(
                    ParamAction::SetRepCount { from: old(self).rep_count, to: clamp_rep(value) },
                ),
                AppEvent::Undo { ref actions } => (*final(self), reset) == old(self).undo_batch(
                    actions@,
                ),
                AppEvent::Redo { ref actions } => !reset && *final(self) == old(self).redo_batch(
                    actions@,
                ),
                _ => !reset && *final(self) == *old(self),
            },
    {
        match event {
            AppEvent::Volume { value } => {
                let from = self.volume;
                self.volume = clamp_level_exec(*value);
                ctx.register_action(ParamAction::SetVolume { from, to: self.volume });
                false
            },
            AppEvent::Attack { value } => {
                let from = self.attack;
                self.attack = clamp_beats_exec(*value);
                ctx.register_action(ParamAction::SetAttack { from, to: self.attack });
                false
            },
            AppEvent::Decay { value } => {
                let from = self.decay;
                self.decay = clamp_beats_exec(*value);
                ctx.register_action(ParamAction::SetDecay { from, to: self.decay });
                false
            },
            AppEvent::Sustain { value } => {
                let from = self.sustain;
                self.sustain = clamp_level_exec(*value);
                ctx.register_action(ParamAction::SetSustain { from, to: self.sustain });
                false
            },
            AppEvent::Release { value } => {
                let from = self.release;
                self.release = clamp_beats_exec(*value);
                ctx.register_action(ParamAction::SetRelease { from, to: self.release });
                false
            },
            AppEvent::RepCount { value } => {
                let from = self.rep_count;
                self.rep_count = clamp_rep_exec(*value);
                ctx.register_action(ParamAction::SetRepCount { from, to: self.rep_count });
                ctx.emit_event(AppEvent::RedrawEditorPlane);
                false
            },
            AppEvent::Undo { actions } => {
                let ghost target = old(self).undo_batch(actions@);
                proof {
                    assert(actions@.skip(0) =~= actions@);
                }
                let n = actions.len();
                let mut i: usize = 0;
                let mut reset = false;
                while i < n
                    invariant
                        0 <= i <= n,
                        n == actions@.len(),
                        self.wf(),
                        self.pattern == old(self).pattern,
                        if reset {
                            target == ((*self, true))
                        } else {
                            self.undo_batch(actions@.skip(i as int)) == target
                        },
                    decreases n - i,
                {
                    proof {
                        let sk = actions@.skip(i as int);
                        assert(sk[0] == actions@[i as int]);
                        assert(sk.drop_first() =~= actions@.skip(i as int + 1));
                    }
                    if !reset {
                        match actions[i] {
                            ParamAction::SetBlockType { .. } => {
                                reset = true;
                            },
                            ParamAction::SetVolume { from, .. } => {
                                self.volume = clamp_level_exec(from);
                            },
                            ParamAction::SetAttack { from, .. } => {
                                self.attack = clamp_beats_exec(from);
                            },
                            ParamAction::SetDecay { from, .. } => {
                                self.decay = clamp_beats_exec(from);
                            },
                            ParamAction::SetSustain { from, .. } => {
                                self.sustain = clamp_level_exec(from);
                            },
                            ParamAction::SetRelease { from, .. } => {
                                self.release = clamp_beats_exec(from);
                            },
                            ParamAction::SetRepCount { from, .. } => {
                                self.rep_count = clamp_rep_exec(from);
                            },
                            _ => {},
                        }
                    }
                    i += 1;
                }
                proof {
                    assert(actions@.skip(n as int).len() == 0);
                }
                reset
            },
            AppEvent::Redo { actions } => {
                let ghost target = old(self).redo_batch(actions@);
                proof {
                    assert(actions@.skip(0) =~= actions@);
                }
                let n = actions.len();
                let mut i: usize = 0;
                while i < n
                    invariant
                        0 <= i <= n,
                        n == actions@.len(),
                        self.wf(),
                        self.pattern == old(self).pattern,
                        self.redo_batch(actions@.skip(i as int)) == target,
                    decreases n - i,
                {
                    proof {
                        let sk = actions@.skip(i as int);
                        assert(sk[0] == actions@[i as int]);
                        assert(sk.drop_first() =~= actions@.skip(i as int + 1));
                    }
                    match actions[i] {
                        ParamAction::SetVolume { to, .. } => {
                            self.volume = clamp_level_exec(to);
                        },
                        ParamAction::SetAttack { to, .. } => {
                            self.attack = clamp_beats_exec(to);
                        },
                        ParamAction::SetDecay { to, .. } => {
                            self.decay = clamp_beats_exec(to);
                        },
                        ParamAction::SetSustain { to, .. } => {
                            self.sustain = clamp_level_exec(to);
                        },
                        ParamAction::SetRelease { to, .. } => {
                            self.release = clamp_beats_exec(to);
                        },
                        ParamAction::SetRepCount { to, .. } => {
                            self.rep_count = clamp_rep_exec(to);
                        },
                        _ => {},
                    }
                    i += 1;
                }
                proof {
                    assert(actions@.skip(n as int).len() == 0);
                }
                false
            },
            _ => false,
        }
    }
}

/// A sound that plays looping white noise through a persistent gain node.
pub struct NoiseSound {
    /// How long the noise plays, in beats.
    pub len: Beats,
    pub volume: R64,
    pub rep_count: u32,
}

/// The schedule of a noise sound: connect its gain at `start`, disconnect at
/// `stop`; the noise buffer itself loops in the host's audio graph.
#[derive(Clone, Copy, Debug, PartialEq, Eq, Structural)]
pub struct NoiseSchedule {
    pub epoch: u64,
    pub volume: R64,
    pub start: Secs,
    pub stop: Secs,
}

impl NoiseSound {
    pub open spec fn wf(self) -> bool {
        &&& 0 <= self.len@ <= MAX_BEAT_UNITS as int
        &&& 0 <= self.volume@ <= UNIT as int
        &&& 1 <= self.rep_count <= MAX_REP
    }

    /// One beat of noise at a moderate volume, played once.
    pub fn defaults() -> (r: NoiseSound)
        ensures
            r.wf(),
            r.len@ == UNIT as int,
            r.volume@ == UNIT as int / 5,
            r.rep_count == 1,
    {
        NoiseSound {
            len: R64::from_units(UNIT),
            volume: R64::from_units(UNIT / 5),
            rep_count: 1,
        }
    }

    /// The total length in beats: one repetition's length times the count.
    pub fn total_len(&self) -> (r: Beats)
        requires
            self.wf(),
        ensures
            r@ == self.len@ * self.rep_count as int,
    {
        proof {
            vstd::arithmetic::mul::lemma_mul_nonnegative(self.len@, self.rep_count as int);
            vstd::arithmetic::mul::lemma_mul_upper_bound(
                self.len@,
                MAX_BEAT_UNITS as int,
                self.rep_count as int,
                MAX_REP as int,
            );
        }
        self.len.mul_int(self.rep_count as i64)
    }

    /// Sets the play length, clamped into the accepted range.
    pub fn set_len(&mut self, len: Beats)
        requires
            old(self).wf(),
        ensures
            final(self).wf(),
            final(self).len == clamp_beats(len),
            final(self).volume == old(self).volume,
            final(self).rep_count == old(self).rep_count,
    {
        self.len = clamp_beats_exec(len);
    }

    /// Sets the volume, clamped into `[0, 1]`.
    pub fn set_volume(&mut self, volume: R64)
        requires
            old(self).wf(),
        ensures
            final(self).wf(),
            final(self).volume == clamp_level(volume),
            final(self).len == old(self).len,
            final(self).rep_count == old(self).rep_count,
    {
        self.volume = clamp_level_exec(volume);
    }

    /// Computes the playback schedule: the gain connects at the sound's
    /// start and disconnects after the total length.
    pub fn play(&self, now: Secs, self_offset: Secs, bps: Beats, epoch: u64) -> (r: NoiseSchedule)
        requires
            self.wf(),
            play_time_wf(now, self_offset),
            bps_wf(bps),
        ensures
            r.epoch == epoch,
            r.volume == self.volume,
            r.start@ == now@ + self_offset@,
            r.stop@ == now@ + self_offset@ + to_secs_int(self.len@ * self.rep_count as int, bps@),
    {
        let start = now.add(self_offset);
        let total = self.total_len();
        proof {
            vstd::arithmetic::mul::lemma_mul_nonnegative(self.len@, self.rep_count as int);
            vstd::arithmetic::mul::lemma_mul_upper_bound(
                self.len@,
                MAX_BEAT_UNITS as int,
                self.rep_count as int,
                MAX_REP as int,
            );
            lemma_secs_bound_to(total@, bps@, MAX_BEAT_UNITS as int * MAX_REP as int);
        }
        let stop = start.add(total.to_secs(bps));
        NoiseSchedule { epoch, volume: self.volume, start, stop }
    }
}

/// The schedule of one custom block: its gain envelope, and a buffer source
/// started at the block's start with the given playback rate.
#[derive(Clone, Copy, Debug, PartialEq, Eq, Structural)]
pub struct CustomBlockSchedule {
    pub env: EnvelopeSchedule,
    /// Playback rate of the buffer source: speed times pitch coefficient.
    pub rate: R64,
    pub src_start: Secs,
}

/// A sound that plays a sampled audio input through a pattern of pitched
/// blocks. It references an input in the project pool by id; the pool lives
/// with the host, which hands the input in wherever one is needed.
pub struct CustomSound {
    pub pattern: GraphEditor<CustomBlock>,
    /// Which pool input the sound plays, if one is selected.
    pub src: Option<usize>,
    pub volume: R64,
    pub attack: Beats,
    pub decay: Beats,
    pub sustain: R64,
    pub release: Beats,
    pub rep_count: u32,
    /// Playback speed; the sample's duration divides by it.
    pub speed: R64,
}

/// The audible length of one custom block in fixed-point seconds: the baked
/// duration divided by the speed, divided by the block's pitch coefficient.
pub open spec fn custom_block_len_secs(duration: int, speed: int, coef: int) -> int {
    duration * UNIT as int / speed * UNIT as int / coef
}

/// What one scheduled custom block looks like: the pattern repeats every
/// `last.offset_secs + last_block_len` seconds; within repetition `ri`,
/// block `j` starts at the pattern base plus its own offset, runs for the
/// sample's effective length at its pitch, and plays at `speed * coef`.
pub open spec fn custom_sched_spec(
    s: CustomSound,
    bps: Beats,
    duration: int,
    base: int,
    ri: int,
    j: int,
    epoch: u64,
) -> CustomBlockSchedule {
    let pat = s.pattern.data@;
    let last_len = custom_block_len_secs(
        duration,
        s.speed@,
        crate::note::pitch_coef_units(pat.last().pitch.0 as int),
    );
    let pat_len_secs = to_secs_int(pat.last().offset@, bps@) + last_len;
    let coef = crate::note::pitch_coef_units(pat[j].pitch.0 as int);
    let start = base + pat_len_secs * ri + to_secs_int(pat[j].offset@, bps@);
    let len_secs = custom_block_len_secs(duration, s.speed@, coef);
    CustomBlockSchedule {
        env: envelope_spec(
            s.volume,
            s.sustain,
            s.attack,
            s.decay,
            s.release,
            bps,
            start,
            len_secs,
            epoch,
        ),
        rate: R64 { units: (s.speed@ * coef / UNIT as int) as i64 },
        src_start: R64 { units: start as i64 },
    }
}

impl CustomSound {
    pub open spec fn wf(self) -> bool {
        &&& self.pattern.wf()
        &&& env_params_wf(self.volume, self.sustain, self.attack, self.decay, self.release)
        &&& 1 <= self.rep_count <= MAX_REP
        &&& MIN_SPEED_UNITS as int <= self.speed@ <= MAX_SPEED_UNITS as int
    }

    /// A pattern holding one block at the middle pitch, unit volume and
    /// sustain, instant envelope, one repetition, unit speed, no input.
    pub fn defaults() -> (r: CustomSound)
        ensures
            r.wf(),
            r.pattern.data@ == seq![CustomBlock { offset: R64 { units: 0 }, pitch: Note(18) }],
            r.src is None,
            r.volume@ == UNIT as int,
            r.attack@ == 0,
            r.decay@ == 0,
            r.sustain@ == UNIT as int,
            r.release@ == 0,
            r.speed@ == UNIT as int,
            r.rep_count == 1,
    {
        let mut pattern = GraphEditor::new(
            R64::from_units(20 * UNIT),
            R64::from_units(40 * UNIT),
            R64::zero(),
            R64::from_units(-2 * UNIT),
            R64::from_units(-2 * UNIT),
            R64::from_units(UNIT),
        );
        let _ = pattern.add_point(CustomBlock { offset: R64::zero(), pitch: Note::mid() });
        proof {
            assert(pattern.data@ =~= seq![
                CustomBlock { offset: R64 { units: 0 }, pitch: Note(18) },
            ]);
        }
        CustomSound {
            pattern,
            src: None,
            volume: R64::from_units(UNIT),
            attack: R64::zero(),
            decay: R64::zero(),
            sustain: R64::from_units(UNIT),
            release: R64::zero(),
            rep_count: 1,
            speed: R64::from_units(UNIT),
        }
    }

    /// How many times the pattern replays.
    pub fn rep_count(&self) -> (r: u32)
        ensures
            r == self.rep_count,
    {
        self.rep_count
    }

    /// Bakes the input the host hands in for this sound; the host resolves
    /// the sound's input id against its pool. A no-op when nothing is
    /// pending; otherwise the cuts come off the raw length, and `Err` exactly
    /// when they exceed it, the input then staying unbaked.
    pub fn prepare(&self, input: &mut AudioInput, bps: Beats) -> (r: Result<(), ()>)
        requires
            self.wf(),
            bps_wf(bps),
            old(input).wf(),
            old(input).pending_changes.wf(),
        ensures
            final(input).wf(),
            final(input).name == old(input).name,
            final(input).raw_len == old(input).raw_len,
            final(input).raw_duration == old(input).raw_duration,
            final(input).pending_changes == old(input).pending_changes,
            r is Ok ==> final(input).pending_changes == final(input).baked_changes,
            old(input).pending_changes == old(input).baked_changes ==> r is Ok && *final(input)
                == *old(input),
            old(input).pending_changes != old(input).baked_changes ==> {
                let cuts = crate::input::cut_samples(old(input).pending_changes.cut_start, bps)
                    + crate::input::cut_samples(old(input).pending_changes.cut_end, bps);
                if cuts <= old(input).raw_len {
                    &&& r is Ok
                    &&& final(input).baked_changes == old(input).pending_changes
                    &&& final(input).baked_len == old(input).raw_len - cuts
                } else {
                    &&& r is Err
                    &&& final(input).baked_changes == old(input).baked_changes
                    &&& final(input).baked_len == old(input).baked_len
                }
            },
    {
        input.bake(bps)
    }

    /// The pattern's display length in beats: the sample's effective length
    /// at the last block's pitch, converted to beats, plus the last block's
    /// offset; zero without blocks or without an input duration.
    pub fn len(&self, bps: Beats, duration: Option<Secs>) -> (r: Beats)
        requires
            self.wf(),
            bps_wf(bps),
            match duration {
                Some(d) => 0 <= d@ <= 1_000_000_000_000,
                None => true,
            },
        ensures
            match duration {
                Some(d) => {
                    if self.pattern.data@.len() > 0 && self.src is Some {
                        let last = self.pattern.data@.last();
                        let dur_beats = d@ * bps@ / UNIT as int;
                        r@ == dur_beats * UNIT as int / self.speed@ * UNIT as int
                            / crate::note::pitch_coef_units(last.pitch.0 as int) + last.offset@
                    } else {
                        r@ == 0
                    }
                },
                None => r@ == 0,
            },
    {
        let n = self.pattern.data.len();
        if n == 0 || self.src.is_none() {
            return R64::zero();
        }
        match duration {
            None => R64::zero(),
            Some(d) => {
                proof {
                    assert(self.pattern.data@[n - 1].wf_point());
                    assert(self.pattern.data@.last() == self.pattern.data@[n - 1]);
                    vstd::arithmetic::mul::lemma_mul_nonnegative(d@, bps@);
                    vstd::arithmetic::div_mod::lemma_div_pos_is_pos(d@ * bps@, UNIT as int);
                    vstd::arithmetic::mul::lemma_mul_upper_bound(
                        d@,
                        1_000_000_000_000,
                        bps@,
                        crate::input::MAX_BPS_UNITS as int,
                    );
                    vstd::arithmetic::div_mod::lemma_div_is_ordered(
                        d@ * bps@,
                        1_000_000_000_000 * crate::input::MAX_BPS_UNITS as int,
                        UNIT as int,
                    );
                }
                let last = &self.pattern.data[n - 1];
                let dur_beats = d.secs_to_beats(bps);
                let coef = last.pitch.pitch_coef();
                proof {
                    lemma_div_chain_bound(dur_beats@, self.speed@, coef@);
                }
                let scaled = dur_beats.div(self.speed).div(coef);
                scaled.add(last.offset)
            },
        }
    }

    /// Computes the whole playback schedule: for every repetition, one entry
    /// per pattern block, each with its envelope, buffer-source start and
    /// playback rate. Nothing plays without blocks or without a baked input
    /// duration, and the result is then empty.
    pub fn play(
        &self,
        now: Secs,
        self_offset: Secs,
        bps: Beats,
        duration: Option<Secs>,
        epoch: u64,
    ) -> (r: Vec<Vec<CustomBlockSchedule>>)
        requires
            self.wf(),
            play_time_wf(now, self_offset),
            bps_wf(bps),
            match duration {
                Some(d) => 0 <= d@ <= 1_000_000_000_000,
                None => true,
            },
        ensures
            self.pattern.data@.len() == 0 || self.src is None || duration is None ==> r@.len()
                == 0,
            self.pattern.data@.len() > 0 && self.src is Some && duration is Some ==> {
                &&& r@.len() == self.rep_count as int
                &&& forall|ri: int|
                    0 <= ri < r@.len() ==> (#[trigger] r@[ri])@.len()
                        == self.pattern.data@.len()
                &&& forall|ri: int, j: int|
                    0 <= ri < r@.len() && 0 <= j < self.pattern.data@.len()
                        ==> (#[trigger] r@[ri]@[j]) == custom_sched_spec(
                        *self,
                        bps,
                        duration->0@,
                        now@ + self_offset@,
                        ri,
                        j,
                        epoch,
                    )
            },
    {
        let mut r: Vec<Vec<CustomBlockSchedule>> = Vec::new();
        let n = self.pattern.data.len();
        if n == 0 || self.src.is_none() {
            return r;
        }
        let d = match duration {
            None => {
                return r;
            },
            Some(d) => d,
        };
        let ghost base = now@ + self_offset@;
        proof {
            assert(self.pattern.data@[n - 1].wf_point());
            assert(self.pattern.data@.last() == self.pattern.data@[n - 1]);
        }
        let last = &self.pattern.data[n - 1];
        let last_coef = last.pitch.pitch_coef();
        proof {
            lemma_secs_bound(last.offset@, bps@);
            lemma_block_len_bound(d@, self.speed@, last_coef@);
        }
        let last_len = d.div(self.speed).div(last_coef);
        let pat_len_secs = last.offset.to_secs(bps).add(last_len);
        let base_secs = now.add(self_offset);
        let reps = self.rep_count;
        let mut ri: u32 = 0;
        while ri < reps
            invariant
                0 <= ri <= reps,
                self.wf(),
                bps_wf(bps),
                play_time_wf(now, self_offset),
                0 <= d@ <= 1_000_000_000_000,
                n == self.pattern.data@.len(),
                n > 0,
                self.src is Some,
                base == now@ + self_offset@,
                base_secs@ == base,
                pat_len_secs@ == to_secs_int(self.pattern.data@.last().offset@, bps@)
                    + custom_block_len_secs(
                    d@,
                    self.speed@,
                    crate::note::pitch_coef_units(self.pattern.data@.last().pitch.0 as int),
                ),
                0 <= pat_len_secs@ <= 102_000_000_000_000,
                reps == self.rep_count,
                r@.len() == ri as int,
                forall|a: int|
                    0 <= a < ri as int ==> (#[trigger] r@[a])@.len()
                        == self.pattern.data@.len(),
                forall|a: int, j: int|
                    0 <= a < ri as int && 0 <= j < self.pattern.data@.len()
                        ==> (#[trigger] r@[a]@[j]) == custom_sched_spec(
                        *self,
                        bps,
                        d@,
                        base,
                        a,
                        j,
                        epoch,
                    ),
            decreases reps - ri,
        {
            proof {
                vstd::arithmetic::mul::lemma_mul_nonnegative(pat_len_secs@, ri as int);
                vstd::arithmetic::mul::lemma_mul_upper_bound(
                    pat_len_secs@,
                    102_000_000_000_000,
                    ri as int,
                    MAX_REP as int,
                );
            }
            let rep_base = base_secs.add(pat_len_secs.mul_int(ri as i64));
            let mut row: Vec<CustomBlockSchedule> = Vec::new();
            let mut j: usize = 0;
            while j < n
                invariant
                    0 <= j <= n,
                    self.wf(),
                    bps_wf(bps),
                    0 <= d@ <= 1_000_000_000_000,
                    n == self.pattern.data@.len(),
                    n > 0,
                    rep_base@ == base + pat_len_secs@ * ri as int,
                    pat_len_secs@ == to_secs_int(self.pattern.data@.last().offset@, bps@)
                        + custom_block_len_secs(
                        d@,
                        self.speed@,
                        crate::note::pitch_coef_units(self.pattern.data@.last().pitch.0 as int),
                    ),
                    0 <= rep_base@ <= 2 * MAX_TIME_UNITS as int + 102_000_000_000_000
                        * MAX_REP as int,
                    base == now@ + self_offset@,
                    row@.len() == j as int,
                    forall|b: int|
                        0 <= b < j as int ==> #[trigger] row@[b] == custom_sched_spec(
                            *self,
                            bps,
                            d@,
                            base,
                            ri as int,
                            b,
                            epoch,
                        ),
                decreases n - j,
            {
                proof {
                    assert(self.pattern.data@[j as int].wf_point());
                }
                let block = &self.pattern.data[j];
                let coef = block.pitch.pitch_coef();
                proof {
                    lemma_secs_bound(block.offset@, bps@);
                    lemma_block_len_bound(d@, self.speed@, coef@);
                    lemma_rate_bound(self.speed@, coef@);
                }
                let start = rep_base.add(block.offset.to_secs(bps));
                let len_secs = d.div(self.speed).div(coef);
                let env = envelope(
                    self.volume,
                    self.sustain,
                    self.attack,
                    self.decay,
                    self.release,
                    bps,
                    start,
                    len_secs,
                    epoch,
                );
                let sched = CustomBlockSchedule {
                    env,
                    rate: self.speed.mul(coef),
                    src_start: start,
                };
                row.push(sched);
                j += 1;
            }
            r.push(row);
            ri += 1;
        }
        r
    }
}

impl CustomSound {
    /// The sound after one parameter action fires on it; actions that do not
    /// concern it leave it alone.
    pub open spec fn value_update(self, a: ParamAction) -> CustomSound {
        match a {
            ParamAction::SetVolume { to, .. } => CustomSound { volume: clamp_level(to), ..self },
            ParamAction::SetAttack { to, .. } => CustomSound { attack: clamp_beats(to), ..self },
            ParamAction::SetDecay { to, .. } => CustomSound { decay: clamp_beats(to), ..self },
            ParamAction::SetSustain { to, .. } => CustomSound { sustain: clamp_level(to), ..self },
            ParamAction::SetRelease { to, .. } => CustomSound { release: clamp_beats(to), ..self },
            ParamAction::SetRepCount { to, .. } => CustomSound { rep_count: clamp_rep(to), ..self },
            ParamAction::SetSpeed { to, .. } => CustomSound { speed: clamp_speed(to), ..self },
            ParamAction::SelectInput { to, .. } => CustomSound { src: to, ..self },
            _ => self,
        }
    }

    /// The sound after one parameter action is reversed on it.
    pub open spec fn value_restore(self, a: ParamAction) -> CustomSound {
        match a {
            ParamAction::SetVolume { from, .. } => CustomSound {
                volume: clamp_level(from),
                ..self
            },
            ParamAction::SetAttack { from, .. } => CustomSound {
                attack: clamp_beats(from),
                ..self
            },
            ParamAction::SetDecay { from, .. } => CustomSound { decay: clamp_beats(from), ..self },
            ParamAction::SetSustain { from, .. } => CustomSound {
                sustain: clamp_level(from),
                ..self
            },
            ParamAction::SetRelease { from, .. } => CustomSound {
                release: clamp_beats(from),
                ..self
            },
            ParamAction::SetRepCount { from, .. } => CustomSound {
                rep_count: clamp_rep(from),
                ..self
            },
            ParamAction::SetSpeed { from, .. } => CustomSound { speed: clamp_speed(from), ..self },
            ParamAction::SelectInput { from, .. } => CustomSound { src: from, ..self },
            _ => self,
        }
    }

    /// The sound after a whole undo batch, and whether the batch asks the
    /// owning block to reset to an undefined sound.
    pub open spec fn undo_batch(self, actions: Seq<ParamAction>) -> (CustomSound, bool)
        decreases actions.len(),
    {
        if actions.len() == 0 {
            (self, false)
        } else if actions[0] is SetBlockType {
            (self, true)
        } else {
            self.value_restore(actions[0]).undo_batch(actions.drop_first())
        }
    }

    /// The sound after a whole redo batch.
    pub open spec fn redo_batch(self, actions: Seq<ParamAction>) -> CustomSound
        decreases actions.len(),
    {
        if actions.len() == 0 {
            self
        } else {
            self.value_update(actions[0]).redo_batch(actions.drop_first())
        }
    }

    /// Reversing a parameter action right after it fired restores the sound,
    /// provided the recorded old value was itself in range.
    pub proof fn lemma_param_round_trip(self, a: ParamAction)
        requires
            self.wf(),
            a is SetVolume ==> a->SetVolume_from == self.volume,
            a is SetAttack ==> a->SetAttack_from == self.attack,
            a is SetDecay ==> a->SetDecay_from == self.decay,
            a is SetSustain ==> a->SetSustain_from == self.sustain,
            a is SetRelease ==> a->SetRelease_from == self.release,
            a is SetRepCount ==> a->SetRepCount_from == self.rep_count,
            a is SetSpeed ==> a->SetSpeed_from == self.speed,
            a is SelectInput ==> a->SelectInput_from == self.src,
        ensures
            self.value_update(a).value_restore(a) == self,
    {
    }

    /// Applies one broadcast event, like the note sound, with the custom
    /// sound's extra parameters: playback speed and input selection.
    pub fn handle_event(&mut self, event: &AppEvent, ctx: &mut ContextMut) -> (reset: bool)
        requires
            old(self).wf(),
        ensures
            final(self).wf(),
            final(self).pattern == old(self).pattern,
            match *event {
                AppEvent::Volume { value } => !reset && *final(self) == old(self).value_update(
                    ParamAction::SetVolume { from: old(self).volume, to: value },
                ),
                AppEvent::Attack { value } => !reset && *final(self) == old(self).value_update(
                    ParamAction::SetAttack { from: old(self).attack, to: value },
                ),
                AppEvent::Decay { value } => !reset && *final(self) == old(self).value_update(
                    ParamAction::SetDecay { from: old(self).decay, to: value },
                ),
                AppEvent::Sustain { value } => !reset && *final(self) == old(self).value_update(
                    ParamAction::SetSustain { from: old(self).sustain, to: value },
                ),
                AppEvent::Release { value } => !reset && *final(self) == old(self).value_update(
                    ParamAction::SetRelease { from: old(self).release, to: value },
                ),
                AppEvent::RepCount { value } => !reset && *final(self) == old(self).value_update(
                    ParamAction::SetRepCount { from: old(self).rep_count, to: value },
                ),
                AppEvent::Speed { value } => !reset && *final(self) == old(self).value_update(
                    ParamAction::SetSpeed { from: old(self).speed, to: value },
                ),
                AppEvent::AddInput { input } => !reset && *final(self) == old(self).value_update(
                    ParamAction::SelectInput { from: old(self).src, to: Some(input) },
                ),
                AppEvent::SelectInput { input } => !reset && *final(self) == old(
                    self,
                ).value_update(
                    ParamAction::SelectInput { from: old(self).src, to: Some(input) },
                ),
                AppEvent::Undo { ref actions } => (*final(self), reset) == old(self).undo_batch(
                    actions@,
                ),
                AppEvent::Redo { ref actions } => !reset && *final(self) == old(self).redo_batch(
                    actions@,
                ),
                _ => !reset && *final(self) == *old(self),
            },
    {
        match event {
            AppEvent::Volume { value } => {
                let from = self.volume;
                self.volume = clamp_level_exec(*value);
                ctx.register_action(ParamAction::SetVolume { from, to: self.volume });
                false
            },
            AppEvent::Attack { value } => {
                let from = self.attack;
                self.attack = clamp_beats_exec(*value);
                ctx.register_action(ParamAction::SetAttack { from, to: self.attack });
                false
            },
            AppEvent::Decay { value } => {
                let from = self.decay;
                self.decay = clamp_beats_exec(*value);
                ctx.register_action(ParamAction::SetDecay { from, to: self.decay });
                false
            },
            AppEvent::Sustain { value } => {
                let from = self.sustain;
                self.sustain = clamp_level_exec(*value);
                ctx.register_action(ParamAction::SetSustain { from, to: self.sustain });
                false
            },
            AppEvent::Release { value } => {
                let from = self.release;
                self.release = clamp_beats_exec(*value);
                ctx.register_action(ParamAction::SetRelease { from, to: self.release });
                false
            },
            AppEvent::RepCount { value } => {
                let from = self.rep_count;
                self.rep_count = clamp_rep_exec(*value);
                ctx.register_action(ParamAction::SetRepCount { from, to: self.rep_count });
                ctx.emit_event(AppEvent::RedrawEditorPlane);
                false
            },
            AppEvent::Speed { value } => {
                let from = self.speed;
                self.speed = clamp_speed_exec(*value);
                ctx.register_action(ParamAction::SetSpeed { from, to: self.speed });
                ctx.emit_event(AppEvent::RedrawEditorPlane);
                false
            },
            AppEvent::AddInput { input } => {
                let from = self.src;
                self.src = Some(*input);
                ctx.register_action(ParamAction::SelectInput { from, to: self.src });
                ctx.emit_event(AppEvent::RedrawEditorPlane);
                false
            },
            AppEvent::SelectInput { input } => {
                let from = self.src;
                self.src = Some(*input);
                ctx.register_action(ParamAction::SelectInput { from, to: self.src });
                ctx.emit_event(AppEvent::RedrawEditorPlane);
                false
            },
            AppEvent::Undo { actions } => {
                let ghost target = old(self).undo_batch(actions@);
                proof {
                    assert(actions@.skip(0) =~= actions@);
                }
                let n = actions.len();
                let mut i: usize = 0;
                let mut reset = false;
                while i < n
                    invariant
                        0 <= i <= n,
                        n == actions@.len(),
                        self.wf(),
                        self.pattern == old(self).pattern,
                        if reset {
                            target == ((*self, true))
                        } else {
                            self.undo_batch(actions@.skip(i as int)) == target
                        },
                    decreases n - i,
                {
                    proof {
                        let sk = actions@.skip(i as int);
                        assert(sk[0] == actions@[i as int]);
                        assert(sk.drop_first() =~= actions@.skip(i as int + 1));
                    }
                    if !reset {
                        match actions[i] {
                            ParamAction::SetBlockType { .. } => {
                                reset = true;
                            },
                            ParamAction::SetVolume { from, .. } => {
                                self.volume = clamp_level_exec(from);
                            },
                            ParamAction::SetAttack { from, .. } => {
                                self.attack = clamp_beats_exec(from);
                            },
                            ParamAction::SetDecay { from, .. } => {
                                self.decay = clamp_beats_exec(from);
                            },
                            ParamAction::SetSustain { from, .. } => {
                                self.sustain = clamp_level_exec(from);
                            },
                            ParamAction::SetRelease { from, .. } => {
                                self.release = clamp_beats_exec(from);
                            },
                            ParamAction::SetRepCount { from, .. } => {
                                self.rep_count = clamp_rep_exec(from);
                            },
                            ParamAction::SetSpeed { from, .. } => {
                                self.speed = clamp_speed_exec(from);
                            },
                            ParamAction::SelectInput { from, .. } => {
                                self.src = from;
                            },
                            _ => {},
                        }
                    }
                    i += 1;
                }
                proof {
                    assert(actions@.skip(n as int).len() == 0);
                }
                reset
            },
            AppEvent::Redo { actions } => {
                let ghost target = old(self).redo_batch(actions@);
                proof {
                    assert(actions@.skip(0) =~= actions@);
                }
                let n = actions.len();
                let mut i: usize = 0;
                while i < n
                    invariant
                        0 <= i <= n,
                        n == actions@.len(),
                        self.wf(),
                        self.pattern == old(self).pattern,
                        self.redo_batch(actions@.skip(i as int)) == target,
                    decreases n - i,
                {
                    proof {
                        let sk = actions@.skip(i as int);
                        assert(sk[0] == actions@[i as int]);
                        assert(sk.drop_first() =~= actions@.skip(i as int + 1));
                    }
                    match actions[i] {
                        ParamAction::SetVolume { to, .. } => {
                            self.volume = clamp_level_exec(to);
                        },
                        ParamAction::SetAttack { to, .. } => {
                            self.attack = clamp_beats_exec(to);
                        },
                        ParamAction::SetDecay { to, .. } => {
                            self.decay = clamp_beats_exec(to);
                        },
                        ParamAction::SetSustain { to, .. } => {
                            self.sustain = clamp_level_exec(to);
                        },
                        ParamAction::SetRelease { to, .. } => {
                            self.release = clamp_beats_exec(to);
                        },
                        ParamAction::SetRepCount { to, .. } => {
                            self.rep_count = clamp_rep_exec(to);
                        },
                        ParamAction::SetSpeed { to, .. } => {
                            self.speed = clamp_speed_exec(to);
                        },
                        ParamAction::SelectInput { to, .. } => {
                            self.src = to;
                        },
                        _ => {},
                    }
                    i += 1;
                }
                proof {
                    assert(actions@.skip(n as int).len() == 0);
                }
                false
            },
            _ => false,
        }
    }
}

/// A sound block's sound: undefined until the user picks a flavour, then one
/// of the three flavours with its own parameters.
pub enum Sound {
    /// No flavour chosen yet; occupies one beat on the timeline as a visual
    /// placeholder.
    Undefined,
    Note(NoteSound),
    Noise(NoiseSound),
    Custom(CustomSound),
}

/// The sound type the last block-type action in a redo batch sets, if any.
pub open spec fn last_block_type(actions: Seq<ParamAction>) -> Option<SoundType>
    decreases actions.len(),
{
    if actions.len() == 0 {
        Option::<SoundType>::None
    } else {
        match actions.last() {
            ParamAction::SetBlockType { to } => Some(to),
            _ => last_block_type(actions.drop_last()),
        }
    }
}

impl Sound {
    pub open spec fn wf(self) -> bool {
        match self {
            Sound::Undefined => true,
            Sound::Note(s) => s.wf(),
            Sound::Noise(s) => s.wf(),
            Sound::Custom(s) => s.wf(),
        }
    }

    /// A fresh sound of the chosen flavour, with that flavour's defaults.
    pub fn new(ty: SoundType) -> (r: Sound)
        ensures
            r.wf(),
            ty is Note ==> r is Note && ({
                let ns = r->Note_0;
                &&& ns.pattern.data@.len() == 0
                &&& ns.volume@ == UNIT as int
                &&& ns.attack@ == 0
                &&& ns.decay@ == 0
                &&& ns.sustain@ == UNIT as int
                &&& ns.release@ == 0
                &&& ns.rep_count == 1
            }),
            ty is Noise ==> r is Noise && ({
                let ns = r->Noise_0;
                &&& ns.len@ == UNIT as int
                &&& ns.volume@ == UNIT as int / 5
                &&& ns.rep_count == 1
            }),
            ty is Custom ==> r is Custom && ({
                let cs = r->Custom_0;
                &&& cs.pattern.data@ == seq![
                    CustomBlock { offset: R64 { units: 0 }, pitch: Note(18) },
                ]
                &&& cs.src is None
                &&& cs.volume@ == UNIT as int
                &&& cs.attack@ == 0
                &&& cs.decay@ == 0
                &&& cs.sustain@ == UNIT as int
                &&& cs.release@ == 0
                &&& cs.rep_count == 1
                &&& cs.speed@ == UNIT as int
            }),
    {
        match ty {
            SoundType::Note => Sound::Note(NoteSound::defaults()),
            SoundType::Noise => Sound::Noise(NoiseSound::defaults()),
            SoundType::Custom => Sound::Custom(CustomSound::defaults()),
        }
    }

    /// The flavour's display name; an undefined sound reads "Undefined".
    pub fn name(&self) -> (r: &'static str)
        ensures
            r@ == match *self {
                Sound::Undefined => "Undefined"@,
                Sound::Note(_) => "Simple Wave"@,
                Sound::Noise(_) => "White Noise"@,
                Sound::Custom(_) => "Custom Audio"@,
            },
    {
        match self {
            Sound::Undefined => "Undefined",
            Sound::Note(_) => "Simple Wave",
            Sound::Noise(_) => "White Noise",
            Sound::Custom(_) => "Custom Audio",
        }
    }

    /// The sound's length in beats on the timeline; an undefined sound shows
    /// as one beat.
    pub fn len(&self, bps: Beats, duration: Option<Secs>) -> (r: Beats)
        requires
            self.wf(),
            bps_wf(bps),
            match duration {
                Some(d) => 0 <= d@ <= 1_000_000_000_000,
                None => true,
            },
        ensures
            *self is Undefined ==> r@ == UNIT as int,
            *self is Note ==> r@ == if (self->Note_0).pattern.data@.len() == 0 {
                0int
            } else {
                (self->Note_0).pattern.data@.last().offset@
                    + (self->Note_0).pattern.data@.last().len@
            },
            *self is Noise ==> r@ == (self->Noise_0).len@ * (self->Noise_0).rep_count as int,
            *self is Custom ==> (match duration {
                Some(d) => {
                    let inner = self->Custom_0;
                    if inner.pattern.data@.len() > 0 && inner.src is Some {
                        let last = inner.pattern.data@.last();
                        let dur_beats = d@ * bps@ / UNIT as int;
                        r@ == dur_beats * UNIT as int / inner.speed@ * UNIT as int
                            / crate::note::pitch_coef_units(last.pitch.0 as int) + last.offset@
                    } else {
                        r@ == 0
                    }
                },
                None => r@ == 0,
            }),
    {
        match self {
            Sound::Undefined => R64::from_units(UNIT),
            Sound::Note(s) => s.len(),
            Sound::Noise(s) => s.total_len(),
            Sound::Custom(s) => s.len(bps, duration),
        }
    }

    /// How many times the sound's pattern replays; an undefined sound counts
    /// as one.
    pub fn rep_count(&self) -> (r: u32)
        ensures
            r == match *self {
                Sound::Undefined => 1u32,
                Sound::Note(s) => s.rep_count,
                Sound::Noise(s) => s.rep_count,
                Sound::Custom(s) => s.rep_count,
            },
    {
        match self {
            Sound::Undefined => 1,
            Sound::Note(s) => s.rep_count,
            Sound::Noise(s) => s.rep_count,
            Sound::Custom(s) => s.rep_count,
        }
    }

    /// Applies one broadcast event: an undefined sound becomes the chosen
    /// flavour on a block-type event (recording the action); a defined sound
    /// delegates to its flavour, and resets to undefined when an undone
    /// block-type change asks it to.
    pub fn handle_event(&mut self, event: &AppEvent, ctx: &mut ContextMut)
        requires
            old(self).wf(),
        ensures
            final(self).wf(),
            *old(self) is Undefined && *event is SetBlockType ==> {
                &&& (event->SetBlockType_ty is Note ==> *final(self) is Note)
                &&& (event->SetBlockType_ty is Noise ==> *final(self) is Noise)
                &&& (event->SetBlockType_ty is Custom ==> *final(self) is Custom)
            },
            *old(self) is Note && *event is Undo ==> {
                let (inner, reset) = (old(self)->Note_0).undo_batch(event->Undo_actions@);
                if reset {
                    *final(self) is Undefined
                } else {
                    *final(self) == Sound::Note(inner)
                }
            },
            *old(self) is Custom && *event is Undo ==> {
                let (inner, reset) = (old(self)->Custom_0).undo_batch(event->Undo_actions@);
                if reset {
                    *final(self) is Undefined
                } else {
                    *final(self) == Sound::Custom(inner)
                }
            },
            *old(self) is Note && *event is Volume ==> *final(self) == Sound::Note(
                (old(self)->Note_0).value_update(
                    ParamAction::SetVolume {
                        from: (old(self)->Note_0).volume,
                        to: event->Volume_value,
                    },
                ),
            ),
            *old(self) is Noise && !(*event is Undo) ==> *final(self) is Noise,
    {
        match self {
            Sound::Undefined => {
                match event {
                    AppEvent::SetBlockType { ty } => {
                        *self = Sound::new(*ty);
                        ctx.register_action(ParamAction::SetBlockType { to: *ty });
                        ctx.emit_event(AppEvent::RedrawEditorPlane);
                    },
                    AppEvent::Redo { actions } => {
                        match last_block_type_exec(actions) {
                            Some(ty) => {
                                *self = Sound::new(ty);
                                ctx.emit_event(AppEvent::RedrawEditorPlane);
                            },
                            None => {},
                        }
                    },
                    _ => {},
                }
            },
            Sound::Note(inner) => {
                let reset = inner.handle_event(event, ctx);
                if reset {
                    *self = Sound::Undefined;
                }
            },
            Sound::Noise(inner) => {
                match event {
                    AppEvent::Volume { value } => {
                        let from = inner.volume;
                        inner.set_volume(*value);
                        ctx.register_action(
                            ParamAction::SetVolume { from, to: inner.volume },
                        );
                    },
                    AppEvent::Undo { actions } => {
                        let mut i: usize = 0;
                        let n = actions.len();
                        let mut reset = false;
                        while i < n
                            invariant
                                0 <= i <= n,
                                n == actions@.len(),
                                inner.wf(),
                            decreases n - i,
                        {
                            if !reset {
                                match actions[i] {
                                    ParamAction::SetBlockType { .. } => {
                                        reset = true;
                                    },
                                    ParamAction::SetVolume { from, .. } => {
                                        inner.set_volume(from);
                                    },
                                    _ => {},
                                }
                            }
                            i += 1;
                        }
                        if reset {
                            *self = Sound::Undefined;
                        }
                    },
                    AppEvent::Redo { actions } => {
                        let mut i: usize = 0;
                        let n = actions.len();
                        while i < n
                            invariant
                                0 <= i <= n,
                                n == actions@.len(),
                                inner.wf(),
                            decreases n - i,
                        {
                            match actions[i] {
                                ParamAction::SetVolume { to, .. } => {
                                    inner.set_volume(to);
                                },
                                _ => {},
                            }
                            i += 1;
                        }
                    },
                    _ => {},
                }
            },
            Sound::Custom(inner) => {
                let reset = inner.handle_event(event, ctx);
                if reset {
                    *self = Sound::Undefined;
                }
            },
        }
    }
}

/// The sound type the last block-type action in the batch sets, if any.
fn last_block_type_exec(actions: &Vec<ParamAction>) -> (r: Option<SoundType>)
    ensures
        r == last_block_type(actions@),
{
    let ghost target = last_block_type(actions@);
    let mut r: Option<SoundType> = None;
    let mut i: usize = 0;
    while i < actions.len()
        invariant
            0 <= i <= actions@.len(),
            r == last_block_type(actions@.take(i as int)),
        decreases actions@.len() - i,
    {
        proof {
            assert(actions@.take(i as int + 1).drop_last() =~= actions@.take(i as int));
            assert(actions@.take(i as int + 1).last() == actions@[i as int]);
        }
        match actions[i] {
            ParamAction::SetBlockType { to } => {
                r = Some(to);
            },
            _ => {},
        }
        i += 1;
    }
    proof {
        assert(actions@.take(actions@.len() as int) =~= actions@);
    }
    r
}

/// The effective block length stays within the scheduling bounds: a bounded
/// duration divided by an accepted speed and a pitch coefficient.
pub proof fn lemma_block_len_bound(duration: int, speed: int, coef: int)
    requires
        0 <= duration <= 1_000_000_000_000,
        MIN_SPEED_UNITS as int <= speed,
        353_553 <= coef,
    ensures
        0 <= duration * UNIT as int / speed <= 10_000_000_000_000,
        0 <= custom_block_len_secs(duration, speed, coef) <= 100_000_000_000_000,
{
    vstd::arithmetic::mul::lemma_mul_nonnegative(duration, UNIT as int);
    vstd::arithmetic::div_mod::lemma_div_pos_is_pos(duration * UNIT as int, speed);
    vstd::arithmetic::mul::lemma_mul_inequality(duration, 1_000_000_000_000, UNIT as int);
    vstd::arithmetic::div_mod::lemma_div_is_ordered(
        duration * UNIT as int,
        1_000_000_000_000 * UNIT as int,
        speed,
    );
    vstd::arithmetic::div_mod::lemma_div_is_ordered_by_denominator(
        1_000_000_000_000 * UNIT as int,
        MIN_SPEED_UNITS as int,
        speed,
    );
    let inner = duration * UNIT as int / speed;
    vstd::arithmetic::mul::lemma_mul_nonnegative(inner, UNIT as int);
    vstd::arithmetic::div_mod::lemma_div_pos_is_pos(inner * UNIT as int, coef);
    vstd::arithmetic::mul::lemma_mul_inequality(inner, 10_000_000_000_000, UNIT as int);
    vstd::arithmetic::div_mod::lemma_div_is_ordered(
        inner * UNIT as int,
        10_000_000_000_000 * UNIT as int,
        coef,
    );
    vstd::arithmetic::div_mod::lemma_div_is_ordered_by_denominator(
        10_000_000_000_000 * UNIT as int,
        100_000,
        coef,
    );
}

/// The playback rate stays within the machine range: an accepted speed times
/// a pitch coefficient.
pub proof fn lemma_rate_bound(speed: int, coef: int)
    requires
        0 <= speed <= MAX_SPEED_UNITS as int,
        0 <= coef <= 2_669_680,
    ensures
        0 <= speed * coef / UNIT as int <= i64::MAX as int,
{
    vstd::arithmetic::mul::lemma_mul_nonnegative(speed, coef);
    vstd::arithmetic::div_mod::lemma_div_pos_is_pos(speed * coef, UNIT as int);
    vstd::arithmetic::mul::lemma_mul_upper_bound(
        speed,
        MAX_SPEED_UNITS as int,
        coef,
        2_669_680,
    );
    vstd::arithmetic::div_mod::lemma_div_is_ordered(
        speed * coef,
        MAX_SPEED_UNITS as int * 2_669_680,
        UNIT as int,
    );
}

/// The dividend chain in the pattern-length formula stays in range.
proof fn lemma_div_chain_bound(dur_beats: int, speed: int, coef: int)
    requires
        0 <= dur_beats <= 1_000_000_000_000_000,
        MIN_SPEED_UNITS as int <= speed,
        353_553 <= coef,
    ensures
        0 <= dur_beats * UNIT as int / speed <= 10_000_000_000_000_000,
        0 <= dur_beats * UNIT as int / speed * UNIT as int / coef <= 100_000_000_000_000_000,
{
    vstd::arithmetic::mul::lemma_mul_nonnegative(dur_beats, UNIT as int);
    vstd::arithmetic::div_mod::lemma_div_pos_is_pos(dur_beats * UNIT as int, speed);
    vstd::arithmetic::mul::lemma_mul_inequality(dur_beats, 1_000_000_000_000_000, UNIT as int);
    vstd::arithmetic::div_mod::lemma_div_is_ordered(
        dur_beats * UNIT as int,
        1_000_000_000_000_000 * UNIT as int,
        speed,
    );
    vstd::arithmetic::div_mod::lemma_div_is_ordered_by_denominator(
        1_000_000_000_000_000 * UNIT as int,
        MIN_SPEED_UNITS as int,
        speed,
    );
    let first = dur_beats * UNIT as int / speed;
    vstd::arithmetic::mul::lemma_mul_nonnegative(first, UNIT as int);
    vstd::arithmetic::div_mod::lemma_div_pos_is_pos(first * UNIT as int, coef);
    vstd::arithmetic::mul::lemma_mul_inequality(first, 10_000_000_000_000_000, UNIT as int);
    vstd::arithmetic::div_mod::lemma_div_is_ordered(
        first * UNIT as int,
        10_000_000_000_000_000 * UNIT as int,
        coef,
    );
    vstd::arithmetic::div_mod::lemma_div_is_ordered_by_denominator(
        10_000_000_000_000_000 * UNIT as int,
        353_553,
        coef,
    );
}

} // verus!
