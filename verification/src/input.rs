//! Audio inputs: an immutable raw sample buffer plus pending and baked
//! transformations. The samples themselves live with the host's audio
//! backend; the model holds what the scheduling logic reads — lengths,
//! durations and the two change sets.

use vstd::prelude::*;

verus! {

use crate::fixed::{Beats, FromBeats, R64, Secs};
use crate::UNIT;

/// Samples per second of every buffer in the workstation.
pub const SAMPLE_RATE: u32 = 44100;
/// Channels of every buffer in the workstation.
pub const CHANNEL_COUNT: u32 = 2;
/// Highest beat count the timing arithmetic accepts, in fixed-point units.
pub const MAX_BEAT_UNITS: i64 = 1_000_000_000;
/// Lowest accepted tempo, in fixed-point units of beats per second.
pub const MIN_BPS_UNITS: i64 = 1_000;
/// Highest accepted tempo, in fixed-point units of beats per second.
pub const MAX_BPS_UNITS: i64 = 1_000_000_000;

/// A usable tempo: within the machine bounds of the timing arithmetic.
pub open spec fn bps_wf(bps: Beats) -> bool {
    MIN_BPS_UNITS as int <= bps@ <= MAX_BPS_UNITS as int
}

/// The transformations requested on an input.
#[derive(Clone, Copy, Debug, PartialEq, Eq, Structural)]
pub struct AudioInputChanges {
    /// Play the input backwards.
    pub reversed: bool,
    /// Cut this many beats from the start.
    pub cut_start: Beats,
    /// Cut this many beats from the end.
    pub cut_end: Beats,
}

impl AudioInputChanges {
    /// No changes at all.
    pub fn none() -> (r: AudioInputChanges)
        ensures
            r == (AudioInputChanges {
                reversed: false,
                cut_start: R64 { units: 0 },
                cut_end: R64 { units: 0 },
            }),
    {
        AudioInputChanges { reversed: false, cut_start: R64::zero(), cut_end: R64::zero() }
    }

    /// The cuts are non-negative and within the machine bounds.
    pub open spec fn wf(self) -> bool {
        &&& 0 <= self.cut_start@ <= MAX_BEAT_UNITS as int
        &&& 0 <= self.cut_end@ <= MAX_BEAT_UNITS as int
    }
}

/// The length cut off by a beat count at a tempo, in samples: the beats
/// converted to seconds, scaled by the sample rate, truncated.
pub open spec fn cut_samples(cut: Beats, bps: Beats) -> int {
    cut@ * UNIT as int / bps@ * SAMPLE_RATE as int / UNIT as int
}

/// An audio input: a raw buffer of known length, the changes requested on it,
/// and the changes last baked into its playable buffer. The playable buffer
/// is valid exactly while the two change sets agree.
pub struct AudioInput {
    /// Display name, for the user's convenience only.
    pub name: String,
    /// Sample count of the raw buffer, fixed at creation.
    pub raw_len: u32,
    /// Duration of the raw buffer.
    pub raw_duration: Secs,
    /// Changes not yet baked.
    pub pending_changes: AudioInputChanges,
    /// Changes reflected in the playable buffer.
    pub baked_changes: AudioInputChanges,
    /// Sample count of the playable buffer.
    pub baked_len: u32,
    /// Duration of the playable buffer.
    pub duration: Secs,
}

/// The duration of a buffer of `len` samples, in fixed-point seconds.
pub open spec fn duration_of(len: int) -> int {
    len * UNIT as int / SAMPLE_RATE as int
}

impl AudioInput {
    /// The durations match the buffer lengths they describe.
    pub open spec fn wf(self) -> bool {
        &&& self.raw_duration@ == duration_of(self.raw_len as int)
        &&& self.duration@ == duration_of(self.baked_len as int)
        &&& self.baked_len <= self.raw_len
    }

    /// A fresh input over a raw buffer of `raw_len` samples: no changes
    /// pending, the playable buffer equal to the raw one.
    pub fn new(name: String, raw_len: u32) -> (r: AudioInput)
        ensures
            r.wf(),
            r.name == name,
            r.raw_len == raw_len,
            r.baked_len == raw_len,
            r.pending_changes == r.baked_changes,
            r.pending_changes == AudioInputChanges::none_spec(),
    {
        proof {
            vstd::arithmetic::mul::lemma_mul_nonnegative(raw_len as int, UNIT as int);
            vstd::arithmetic::div_mod::lemma_div_pos_is_pos(
                raw_len as int * UNIT as int,
                SAMPLE_RATE as int,
            );
        }
        let wide: i128 = raw_len as i128 * UNIT as i128;
        let duration = R64::from_units((wide / SAMPLE_RATE as i128) as i64);
        AudioInput {
            name,
            raw_len,
            raw_duration: duration,
            pending_changes: AudioInputChanges::none(),
            baked_changes: AudioInputChanges::none(),
            baked_len: raw_len,
            duration,
        }
    }

    /// Duration of the raw buffer, unchanged since the input was created.
    pub fn raw_duration(&self) -> (r: Secs)
        ensures
            r == self.raw_duration,
    {
        self.raw_duration
    }

    /// Duration of the playable buffer with all baked changes applied.
    pub fn baked_duration(&self) -> (r: Secs)
        ensures
            r == self.duration,
    {
        self.duration
    }

    /// The changes yet to be baked.
    pub fn changes(&self) -> (r: AudioInputChanges)
        ensures
            r == self.pending_changes,
    {
        self.pending_changes
    }

    /// Mutable access to the changes yet to be baked; everything else stays.
    pub fn changes_mut(&mut self) -> (r: &mut AudioInputChanges)
        ensures
            *r == old(self).pending_changes,
            final(self).pending_changes == *final(r),
            final(self).name == old(self).name,
            final(self).raw_len == old(self).raw_len,
            final(self).raw_duration == old(self).raw_duration,
            final(self).baked_changes == old(self).baked_changes,
            final(self).baked_len == old(self).baked_len,
            final(self).duration == old(self).duration,
    {
        &mut self.pending_changes
    }

    /// Replaces the input's name, returning the old one.
    pub fn set_name(&mut self, name: String) -> (r: String)
        ensures
            r == old(self).name,
            final(self).name == name,
            final(self).raw_len == old(self).raw_len,
            final(self).raw_duration == old(self).raw_duration,
            final(self).pending_changes == old(self).pending_changes,
            final(self).baked_changes == old(self).baked_changes,
            final(self).baked_len == old(self).baked_len,
            final(self).duration == old(self).duration,
    {
        let mut name = name;
        core::mem::swap(&mut self.name, &mut name);
        name
    }

    /// Bakes the pending changes into the playable buffer: a no-op when
    /// nothing is pending; otherwise the cuts are taken off the raw length
    /// and the duration updated. `Err` exactly when the cuts exceed the raw
    /// buffer, and then the input stays unbaked (the change sets disagree).
    pub fn bake(&mut self, bps: Beats) -> (r: Result<(), ()>)
        requires
            old(self).wf(),
            old(self).pending_changes.wf(),
            bps_wf(bps),
        ensures
            final(self).wf(),
            final(self).name == old(self).name,
            final(self).raw_len == old(self).raw_len,
            final(self).raw_duration == old(self).raw_duration,
            final(self).pending_changes == old(self).pending_changes,
            old(self).pending_changes == old(self).baked_changes ==> r is Ok && *final(self)
                == *old(self),
            old(self).pending_changes != old(self).baked_changes ==> {
                let cuts = cut_samples(old(self).pending_changes.cut_start, bps) + cut_samples(
                    old(self).pending_changes.cut_end,
                    bps,
                );
                if cuts <= old(self).raw_len {
                    &&& r is Ok
                    &&& final(self).baked_changes == old(self).pending_changes
                    &&& final(self).baked_len == old(self).raw_len - cuts
                } else {
                    &&& r is Err
                    &&& final(self).baked_changes == old(self).baked_changes
                    &&& final(self).baked_len == old(self).baked_len
                }
            },
    {
        if self.pending_changes.reversed == self.baked_changes.reversed
            && self.pending_changes.cut_start.units() == self.baked_changes.cut_start.units()
            && self.pending_changes.cut_end.units() == self.baked_changes.cut_end.units() {
            return Ok(());
        }
        let start_cut = Self::cut_to_samples(self.pending_changes.cut_start, bps);
        let end_cut = Self::cut_to_samples(self.pending_changes.cut_end, bps);
        if start_cut + end_cut > self.raw_len as i64 {
            return Err(());
        }
        let new_len = self.raw_len - ((start_cut + end_cut) as u32);
        proof {
            vstd::arithmetic::mul::lemma_mul_nonnegative(new_len as int, UNIT as int);
            vstd::arithmetic::div_mod::lemma_div_pos_is_pos(
                new_len as int * UNIT as int,
                SAMPLE_RATE as int,
            );
        }
        let wide: i128 = new_len as i128 * UNIT as i128;
        self.duration = R64::from_units((wide / SAMPLE_RATE as i128) as i64);
        self.baked_len = new_len;
        self.baked_changes = self.pending_changes;
        Ok(())
    }

    /// The cut length in samples at the given tempo.
    fn cut_to_samples(cut: Beats, bps: Beats) -> (r: i64)
        requires
            0 <= cut@ <= MAX_BEAT_UNITS as int,
            bps_wf(bps),
        ensures
            r as int == cut_samples(cut, bps),
            0 <= r,
    {
        proof {
            vstd::arithmetic::mul::lemma_mul_nonnegative(cut@, UNIT as int);
            vstd::arithmetic::div_mod::lemma_div_pos_is_pos(cut@ * UNIT as int, bps@);
            vstd::arithmetic::div_mod::lemma_div_is_ordered(
                cut@ * UNIT as int,
                MAX_BEAT_UNITS as int * UNIT as int,
                bps@,
            );
            vstd::arithmetic::mul::lemma_mul_inequality(cut@, MAX_BEAT_UNITS as int, UNIT as int);
            vstd::arithmetic::div_mod::lemma_div_is_ordered_by_denominator(
                MAX_BEAT_UNITS as int * UNIT as int,
                MIN_BPS_UNITS as int,
                bps@,
            );
        }
        let secs = cut.to_secs(bps);
        proof {
            vstd::arithmetic::mul::lemma_mul_nonnegative(secs@, SAMPLE_RATE as int);
            vstd::arithmetic::div_mod::lemma_div_pos_is_pos(
                secs@ * SAMPLE_RATE as int,
                UNIT as int,
            );
        }
        let wide: i128 = secs.units() as i128 * SAMPLE_RATE as i128;
        (wide / UNIT as i128) as i64
    }

    /// The playable buffer's duration, exactly while no changes are pending.
    pub fn baked(&self) -> (r: Option<Secs>)
        ensures
            r is Some <==> self.pending_changes == self.baked_changes,
            r is Some ==> r->0 == self.duration,
    {
        if self.pending_changes.reversed == self.baked_changes.reversed
            && self.pending_changes.cut_start.units() == self.baked_changes.cut_start.units()
            && self.pending_changes.cut_end.units() == self.baked_changes.cut_end.units() {
            Some(self.duration)
        } else {
            None
        }
    }
}

impl AudioInputChanges {
    /// What [`AudioInputChanges::none`] returns.
    pub open spec fn none_spec() -> AudioInputChanges {
        AudioInputChanges { reversed: false, cut_start: R64 { units: 0 }, cut_end: R64 { units: 0 } }
    }
}

} // verus!
