//! Pitch and timing behaviour: the note range and arithmetic, the frequency
//! and pitch-coefficient tables, and the beat/second conversions.

use wavexp::fixed::{FromBeats, R64};
use wavexp::note::Note;

#[test]
fn note_range() {
    assert!(Note::new(0).is_some());
    let n = Note::new(35).unwrap();
    assert_eq!(n.index(), 35);
    assert!(Note::new(36).is_none());
    assert_eq!(Note::saturated(99).index(), 35);
    assert_eq!(Note::from_index(4).index(), 4);
    assert_eq!(Note::from_index(77).index(), 35);
}

#[test]
fn note_arithmetic() {
    let n = Note::new(30).unwrap();
    assert!(n.checked_add(10).is_none());
    assert_eq!(n.checked_add(5).unwrap().index(), 35);
    let low = Note::new(5).unwrap();
    assert!(low.checked_add(-6).is_none());
    assert_eq!(low.checked_add(-5).unwrap().index(), 0);
    assert_eq!(low.checked_sub(2).unwrap().index(), 3);
    assert!(low.checked_sub(6).is_none());
    assert_eq!(n.diff(low), Some(25));
    assert_eq!(low.diff(n), None);
}

#[test]
fn note_recip_involution() {
    for i in 0..36u8 {
        let n = Note::new(i).unwrap();
        assert_eq!(n.recip().recip(), n);
        assert_eq!(n.recip().index(), 35 - i as usize);
    }
}

#[test]
fn pitch_coef_octaves() {
    // one octave above the middle doubles the rate, one below halves it
    assert_eq!(Note::mid().pitch_coef().units(), 1_000_000);
    assert_eq!(Note::new(30).unwrap().pitch_coef().units(), 2_000_000);
    assert_eq!(Note::new(6).unwrap().pitch_coef().units(), 500_000);
}

#[test]
fn freq_table() {
    assert_eq!(Note::mid().freq().units(), 185_000_000);
    assert_eq!(Note::new(24).unwrap().freq().units(), 261_630_000);
    assert_eq!(Note::new(33).unwrap().freq().units(), 440_000_000);
    assert_eq!(Note::mid().name(), "F#3");
}

#[test]
fn beats_secs_round_trip() {
    // three beats at two beats per second is a second and a half, and back
    let beats = R64::from_units(3_000_000);
    let bps = R64::from_units(2_000_000);
    let secs = beats.to_secs(bps);
    assert_eq!(secs.units(), 1_500_000);
    assert_eq!(secs.secs_to_beats(bps).units(), 3_000_000);
    // an inexact division truncates and stays truncated
    let tiny = R64::from_units(1);
    let three = R64::from_units(3_000_000);
    let secs = tiny.to_secs(three);
    assert_eq!(secs.units(), 0);
    assert_eq!(secs.secs_to_beats(three).units(), 0);
}

#[test]
fn beats_to_msecs() {
    let beats = R64::from_units(3_000_000);
    let bps = R64::from_units(2_000_000);
    assert_eq!(beats.to_msecs(bps).units(), 1_500_000_000);
}

#[test]
fn fixed_point_ops() {
    let a = R64::from_units(2_500_000);
    let b = R64::from_units(2_000_000);
    assert_eq!(a.mul(b).units(), 5_000_000);
    assert_eq!(a.div(b).units(), 1_250_000);
    assert_eq!(a.sat_sub(b).units(), 500_000);
    assert!(a.checked_add(b).is_some());
    assert!(R64::from_units(i64::MAX).checked_add(R64::from_units(1)).is_none());
    assert_eq!(R64::from_units(i64::MAX).sat_add(R64::from_units(1)).units(), i64::MAX);
    assert_eq!(R64::from_units(1_700_000).snap_to_step(R64::from_units(500_000)).units(), 1_500_000);
    assert_eq!(
        R64::from_units(-1_700_000).snap_to_step(R64::from_units(500_000)).units(),
        -1_500_000
    );
    assert_eq!(R64::from_units(2_700_000).trunc_units(), 2);
    assert_eq!(R64::from_units(-2_700_000).trunc_units(), -2);
}
