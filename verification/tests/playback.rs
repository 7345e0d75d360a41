//! Playback behaviour: the schedules the sound flavours compute, the
//! sequencer's event pump, the drain of due events, stopping playback, and
//! the audio-input baking.

use wavexp::ctx::{AppEvent, ContextMut, ParamAction, SoundType};
use wavexp::fixed::R64;
use wavexp::input::AudioInput;
use wavexp::note::Note;
use wavexp::sequencer::{drain_due, AudioCmd, Sequencer, SoundEvent};
use wavexp::sound::{CustomBlock, CustomSound, NoiseSound, NoteBlock, NoteSound, Sound};

fn r(units: i64) -> R64 {
    R64::from_units(units)
}

fn note_block(offset_units: i64, value: u8, len_units: i64) -> NoteBlock {
    NoteBlock {
        offset: r(offset_units),
        value: Note::new(value).unwrap(),
        len: r(len_units),
    }
}

/// One note block of one beat at the middle note, at two beats per second:
/// played at ten seconds, the gain sets to zero at 10, peaks at once (no
/// attack or decay), holds through 10.5 and ends at 10.5; the oscillator
/// runs 10 to 10.5 at the middle note's frequency.
#[test]
fn note_play_schedule() {
    let mut s = NoteSound::defaults();
    s.pattern.add_point(note_block(0, 18, 1_000_000));
    let scheds = s.play(r(10_000_000), r(0), r(2_000_000), 7);
    assert_eq!(scheds.len(), 1);
    assert_eq!(scheds[0].len(), 1);
    let sched = &scheds[0][0];
    assert_eq!(sched.env.epoch, 7);
    assert_eq!(sched.env.start.units(), 10_000_000);
    assert_eq!(sched.env.peak_at.units(), 10_000_000);
    assert_eq!(sched.env.sustain_at.units(), 10_000_000);
    assert_eq!(sched.env.hold_at.units(), 10_500_000);
    assert_eq!(sched.env.end.units(), 10_500_000);
    assert_eq!(sched.env.volume.units(), 1_000_000);
    assert_eq!(sched.env.sustain_level.units(), 1_000_000);
    assert_eq!(sched.freq.units(), 185_000_000);
    assert_eq!(sched.osc_start.units(), 10_000_000);
    assert_eq!(sched.osc_stop.units(), 10_500_000);
}

fn two_block_sound() -> NoteSound {
    let mut s = NoteSound::defaults();
    s.pattern.add_point(note_block(0, 18, 1_000_000));
    s.pattern.add_point(note_block(1_000_000, 20, 1_000_000));
    s.rep_count = 3;
    s
}

/// Two one-beat blocks repeated three times span six beats, and the second
/// repetition starts one pattern length after the first.
#[test]
fn note_pattern_length_and_reps() {
    let s = two_block_sound();
    assert_eq!(s.len().units(), 2_000_000);
    assert_eq!(s.rep_count(), 3);
    let scheds = s.play(r(0), r(0), r(2_000_000), 0);
    assert_eq!(scheds.len(), 3);
    assert_eq!(scheds[0].len(), 2);
    // pattern length is one second at two beats per second
    assert_eq!(scheds[0][0].env.start.units(), 0);
    assert_eq!(scheds[1][0].env.start.units(), 1_000_000);
    assert_eq!(scheds[2][0].env.start.units(), 2_000_000);
    assert_eq!(scheds[0][1].env.start.units(), 500_000);
}

fn count_envelopes(cmds: &[AudioCmd]) -> usize {
    cmds.iter().filter(|c| matches!(c, AudioCmd::Envelope { .. })).count()
}

fn count_drops(cmds: &[AudioCmd]) -> usize {
    cmds.iter().filter(|c| matches!(c, AudioCmd::DropGain { .. })).count()
}

/// Over a whole play of the two-block pattern repeated three times, the pump
/// fires six block starts, each paired with one block end.
#[test]
fn pump_six_starts_six_ends() {
    let mut seq = Sequencer::new();
    assert_eq!(seq.add_block(0, r(0)), Some(0));
    seq.sounds[0] = Sound::Note(two_block_sound());
    seq.start_play();
    assert!(seq.playing);
    assert_eq!(seq.pending.len(), 1);
    let inputs: Vec<AudioInput> = Vec::new();
    let bps = r(2_000_000);
    // the first frame pins the clock: its beat position is exactly zero
    let (cmds1, settled1) = seq.frame(r(5_000_000), bps, &inputs);
    assert!(settled1);
    // much later, everything else is due
    let (cmds2, settled2) = seq.frame(r(105_000_000), bps, &inputs);
    assert!(settled2);
    let total_env = count_envelopes(&cmds1) + count_envelopes(&cmds2);
    let total_drop = count_drops(&cmds1) + count_drops(&cmds2);
    assert_eq!(total_env, 6);
    assert_eq!(total_drop, 6);
    assert!(seq.pending.is_empty());
}

/// A hand-queued block-start whose target already has one queued is dropped.
#[test]
fn enqueue_keeps_one_start_per_target() {
    let mut seq = Sequencer::new();
    seq.enqueue_event(SoundEvent::BlockStart { id: 3, when: r(1_000_000), state: 0 });
    seq.enqueue_event(SoundEvent::BlockStart { id: 3, when: r(2_000_000), state: 1 });
    seq.enqueue_event(SoundEvent::BlockEnd { id: 3, when: r(2_000_000), epoch: 0 });
    assert_eq!(seq.pending.len(), 2);
    assert!(matches!(seq.pending[0], SoundEvent::BlockStart { state: 0, .. }));
    assert!(matches!(seq.pending[1], SoundEvent::BlockEnd { .. }));
}

/// Preparing a sound with nothing pending on its input is a no-op; baked
/// cuts land exactly as `bake` states.
#[test]
fn prepare_propagates_bake() {
    let s = CustomSound::defaults();
    let mut input = AudioInput::new("clap".to_string(), 176_400);
    assert!(s.prepare(&mut input, r(2_000_000)).is_ok());
    assert_eq!(input.baked().unwrap().units(), 4_000_000);
    input.changes_mut().cut_end = r(500_000);
    assert!(s.prepare(&mut input, r(2_000_000)).is_ok());
    assert_eq!(input.baked().unwrap().units(), 3_750_000);
}

/// A fresh sound carries its flavour's defaults.
#[test]
fn sound_new_defaults() {
    match Sound::new(SoundType::Note) {
        Sound::Note(ns) => {
            assert_eq!(ns.volume.units(), 1_000_000);
            assert_eq!(ns.rep_count, 1);
            assert_eq!(ns.pattern.data.len(), 0);
        }
        _ => panic!("expected a note sound"),
    }
    match Sound::new(SoundType::Custom) {
        Sound::Custom(cs) => {
            assert_eq!(cs.pattern.data.len(), 1);
            assert_eq!(cs.speed.units(), 1_000_000);
            assert!(cs.src.is_none());
        }
        _ => panic!("expected a custom sound"),
    }
    assert_eq!(Sound::new(SoundType::Noise).name(), "White Noise");
    assert_eq!(Sound::Undefined.name(), "Undefined");
}

/// The drain takes exactly the events due by the given beat position.
#[test]
fn drain_takes_exactly_due() {
    let mut pending = vec![
        SoundEvent::BlockStart { id: 0, when: r(1_000_000), state: 0 },
        SoundEvent::Start { id: 1, when: r(2_000_000) },
        SoundEvent::Stop { id: 1, when: r(3_000_000) },
    ];
    let drained = drain_due(&mut pending, r(2_000_000));
    assert_eq!(drained.len(), 2);
    assert_eq!(drained[0].when().units(), 1_000_000);
    assert_eq!(drained[1].when().units(), 2_000_000);
    assert_eq!(pending.len(), 1);
    assert_eq!(pending[0].when().units(), 3_000_000);
}

/// Stopping playback replaces the master plug: a block end enqueued against
/// the old plug afterwards still tears its gain down, but against the old
/// generation, which the new plug no longer plays.
#[test]
fn stop_play_silences_old_plug() {
    let mut seq = Sequencer::new();
    assert_eq!(seq.add_block(0, r(0)), Some(0));
    seq.sounds[0] = Sound::Note(two_block_sound());
    seq.start_play();
    let old_epoch = seq.plug_epoch;
    seq.stop_play();
    assert!(seq.pending.is_empty());
    assert!(!seq.playing);
    assert_ne!(seq.plug_epoch, old_epoch);
    // one more block end against the old plug
    let inputs: Vec<AudioInput> = Vec::new();
    let mut cmds: Vec<AudioCmd> = Vec::new();
    seq.poll_event(
        SoundEvent::BlockEnd { id: 0, when: r(0), epoch: old_epoch },
        r(2_000_000),
        &inputs,
        &mut cmds,
    );
    assert_eq!(cmds.len(), 1);
    match cmds[0] {
        AudioCmd::DropGain { epoch } => assert_ne!(epoch, seq.plug_epoch),
        _ => panic!("expected a gain tear-down"),
    }
}

/// A baked four-second sample at double speed, pitched one octave up, plays
/// for one second at four times the source rate.
#[test]
fn custom_effective_length_and_rate() {
    let mut s = CustomSound::defaults();
    s.pattern.remove_points(&vec![0]).unwrap();
    s.pattern.add_point(CustomBlock { offset: r(0), pitch: Note::new(30).unwrap() });
    s.src = Some(0);
    s.speed = r(2_000_000);
    let scheds = s.play(r(0), r(0), r(2_000_000), Some(r(4_000_000)), 0);
    assert_eq!(scheds.len(), 1);
    let sched = &scheds[0][0];
    assert_eq!(sched.env.start.units(), 0);
    assert_eq!(sched.env.end.units(), 1_000_000);
    assert_eq!(sched.rate.units(), 4_000_000);
    // the display length in beats: one second at two beats per second, from
    // offset zero
    assert_eq!(s.len(r(2_000_000), Some(r(4_000_000))).units(), 2_000_000);
}

#[test]
fn noise_schedule_spans_reps() {
    let mut s = NoiseSound::defaults();
    s.set_len(r(2_000_000));
    s.rep_count = 2;
    let sched = s.play(r(1_000_000), r(0), r(2_000_000), 3);
    assert_eq!(sched.epoch, 3);
    assert_eq!(sched.start.units(), 1_000_000);
    // four beats at two beats per second last two seconds
    assert_eq!(sched.stop.units(), 3_000_000);
    assert_eq!(sched.volume.units(), 200_000);
}

/// Cutting half a beat off the start of a four-second sample at two beats
/// per second removes a quarter second of samples.
#[test]
fn audio_input_bake() {
    let mut input = AudioInput::new("clap".to_string(), 176_400);
    assert_eq!(input.raw_duration().units(), 4_000_000);
    assert_eq!(input.baked().unwrap().units(), 4_000_000);
    input.changes_mut().cut_start = r(500_000);
    assert!(input.baked().is_none());
    assert!(input.bake(r(2_000_000)).is_ok());
    assert_eq!(input.baked().unwrap().units(), 3_750_000);
    // cuts past the raw buffer fail and leave the input unbaked
    input.changes_mut().cut_start = r(1_000_000_000);
    assert!(input.bake(r(2_000_000)).is_err());
    assert!(input.baked().is_none());
}

/// Choosing a flavour for an undefined sound records the choice; undoing a
/// volume change restores the old level.
#[test]
fn sound_events_and_undo() {
    let mut ctx = ContextMut::new(r(0), r(2_000_000));
    let mut sound = Sound::Undefined;
    sound.handle_event(&AppEvent::SetBlockType { ty: SoundType::Note }, &mut ctx);
    assert!(matches!(sound, Sound::Note(_)));
    assert_eq!(ctx.actions_done.len(), 1);
    sound.handle_event(&AppEvent::Volume { value: r(300_000) }, &mut ctx);
    match &sound {
        Sound::Note(s) => assert_eq!(s.volume.units(), 300_000),
        _ => panic!("expected a note sound"),
    }
    let action = ctx.pop_for_undo().unwrap();
    assert_eq!(
        action,
        ParamAction::SetVolume { from: r(1_000_000), to: r(300_000) }
    );
    sound.handle_event(&AppEvent::Undo { actions: vec![action] }, &mut ctx);
    match &sound {
        Sound::Note(s) => assert_eq!(s.volume.units(), 1_000_000),
        _ => panic!("expected a note sound"),
    }
    // undoing the block-type choice resets the sound
    let action = ctx.pop_for_undo().unwrap();
    sound.handle_event(&AppEvent::Undo { actions: vec![action] }, &mut ctx);
    assert!(matches!(sound, Sound::Undefined));
}

#[test]
fn context_history() {
    let mut ctx = ContextMut::new(r(0), r(2_000_000));
    assert!(ctx.pop_for_undo().is_none());
    ctx.register_action(ParamAction::OpenPopup { popup: 4 });
    let a = ctx.pop_for_undo().unwrap();
    assert_eq!(a, ParamAction::OpenPopup { popup: 4 });
    assert_eq!(ctx.pop_for_redo().unwrap(), a);
    assert!(ctx.pop_for_redo().is_none());
    ctx.emit_event(AppEvent::RedrawEditorPlane);
    assert_eq!(ctx.emitted.len(), 1);
}

/// The master-gain and play events work through the sequencer's handler.
#[test]
fn sequencer_handles_events() {
    let mut seq = Sequencer::new();
    let ctx = ContextMut::new(r(0), r(2_000_000));
    let inputs: Vec<AudioInput> = Vec::new();
    seq.handle_event(&AppEvent::Add { layer: 0, offset: r(0) }, &ctx, &inputs);
    assert_eq!(seq.pattern.data.len(), 1);
    seq.handle_event(&AppEvent::MasterGain { value: r(700_000) }, &ctx, &inputs);
    assert_eq!(seq.gain.units(), 700_000);
    seq.handle_event(&AppEvent::StartPlay, &ctx, &inputs);
    assert!(seq.playing);
    seq.handle_event(&AppEvent::StopPlay, &ctx, &inputs);
    assert!(!seq.playing);
}
