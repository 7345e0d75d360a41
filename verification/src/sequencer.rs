//! The sequencer: the top-level editor of sound blocks, the pool of their
//! sounds, and the priority-ordered event pump that, during playback, drains
//! due events each frame and turns them into audio-graph commands.
//!
//! The master plug chain is the host's; here it appears as a generation
//! counter. Stopping playback replaces the plug, so every command carries the
//! generation it was scheduled against, and a command against a stale
//! generation is inaudible.

use vstd::prelude::*;

verus! {

use crate::ctx::{AppEvent, ContextMut};
use crate::editor::{GraphEditor, GraphPoint};
use crate::fixed::{Beats, FromBeats, R64, Secs};
use crate::input::{bps_wf, AudioInput, MAX_BEAT_UNITS, MIN_BPS_UNITS};
use crate::sound::{
    clamp_level_exec, envelope, EnvelopeSchedule, Sound, SoundBlock, MAX_SOUND_ID, MAX_TIME_UNITS,
};
use crate::utils::{
    insert_pos, lemma_insert_pos_bounds, lemma_pair_key_le, push_sorted, sorted_by_key, Keyed,
};
use crate::UNIT;

/// The scale that folds (when, target id) into one ordering key.
pub open spec fn id_scale() -> int {
    0x1_0000_0000_0000_0000
}

/// One scheduled playback event; every variant carries its target sound's id
/// and the absolute beat time it is due at. The queue orders events by their
/// time, ties broken by target id.
#[derive(Clone, Copy, Debug, PartialEq, Eq, Structural)]
pub enum SoundEvent {
    /// Begin the `state`-th pattern block of the sound.
    BlockStart { id: usize, when: Beats, state: u64 },
    /// Tear down the gain node of a finished block; the gain hangs off the
    /// plug generation it was created under.
    BlockEnd { id: usize, when: Beats, epoch: u64 },
    /// Connect a continuous source.
    Start { id: usize, when: Beats },
    /// Disconnect a continuous source.
    Stop { id: usize, when: Beats },
}

impl SoundEvent {
    /// Which sound the event is for.
    pub fn target(&self) -> (r: usize)
        ensures
            r == self.target_spec(),
    {
        match self {
            SoundEvent::BlockStart { id, .. } => *id,
            SoundEvent::BlockEnd { id, .. } => *id,
            SoundEvent::Start { id, .. } => *id,
            SoundEvent::Stop { id, .. } => *id,
        }
    }

    /// Which sound the event is for.
    pub open spec fn target_spec(self) -> usize {
        match self {
            SoundEvent::BlockStart { id, .. } => id,
            SoundEvent::BlockEnd { id, .. } => id,
            SoundEvent::Start { id, .. } => id,
            SoundEvent::Stop { id, .. } => id,
        }
    }

    /// When the event is due, as an offset in beats from the start of play.
    pub fn when(&self) -> (r: Beats)
        ensures
            r == self.when_spec(),
    {
        match self {
            SoundEvent::BlockStart { when, .. } => *when,
            SoundEvent::BlockEnd { when, .. } => *when,
            SoundEvent::Start { when, .. } => *when,
            SoundEvent::Stop { when, .. } => *when,
        }
    }

    /// When the event is due.
    pub open spec fn when_spec(self) -> Beats {
        match self {
            SoundEvent::BlockStart { when, .. } => when,
            SoundEvent::BlockEnd { when, .. } => when,
            SoundEvent::Start { when, .. } => when,
            SoundEvent::Stop { when, .. } => when,
        }
    }
}

impl Keyed for SoundEvent {
    open spec fn key(self) -> int {
        self.when_spec()@ * id_scale() + self.target_spec()
    }

    fn le_key(&self, other: &Self) -> (r: bool) {
        proof {
            lemma_pair_key_le(
                self.when_spec()@,
                self.target_spec() as int,
                other.when_spec()@,
                other.target_spec() as int,
                id_scale(),
            );
        }
        let w1 = self.when().units();
        let w2 = other.when().units();
        if w1 != w2 {
            w1 < w2
        } else {
            self.target() <= other.target()
        }
    }
}

/// At most one block-start is pending per target sound: together with the
/// pump's discipline — a drained block-start schedules its block's end before
/// it enqueues the next block-start — this is the at-most-one-live guarantee.
pub open spec fn one_start_per_target(p: Seq<SoundEvent>) -> bool {
    forall|i: int, j: int|
        0 <= i < j < p.len() && (#[trigger] p[i]) is BlockStart && (#[trigger] p[j]) is BlockStart
            ==> p[i].target_spec() != p[j].target_spec()
}

/// One command for the host's audio graph, each carrying the plug generation
/// it belongs to.
#[derive(Clone, Copy, Debug, PartialEq, Eq, Structural)]
pub enum AudioCmd {
    /// Create a gain node with this automation and connect it to the plug.
    Envelope { env: EnvelopeSchedule },
    /// Create an oscillator into the newest gain node.
    OscStart { epoch: u64, freq: R64, at: Secs, stop_at: Secs },
    /// Create a buffer source for the given input into the newest gain node.
    BufStart { epoch: u64, input: usize, rate: R64, at: Secs },
    /// Disconnect a finished block's gain node.
    DropGain { epoch: u64 },
    /// Connect a looping noise source at the given volume.
    ConnectNoise { epoch: u64, volume: R64 },
    /// Disconnect the looping noise source.
    DisconnectNoise { epoch: u64 },
}

impl AudioCmd {
    /// The plug generation the command belongs to.
    pub open spec fn epoch_spec(self) -> u64 {
        match self {
            AudioCmd::Envelope { env } => env.epoch,
            AudioCmd::OscStart { epoch, .. } => epoch,
            AudioCmd::BufStart { epoch, .. } => epoch,
            AudioCmd::DropGain { epoch } => epoch,
            AudioCmd::ConnectNoise { epoch, .. } => epoch,
            AudioCmd::DisconnectNoise { epoch } => epoch,
        }
    }
}

/// Whether a command reaches the ear: only commands against the live plug
/// generation do; the generation changes when playback stops, so commands
/// scheduled against the old plug are silent.
pub open spec fn audible(cmd: AudioCmd, plug_epoch: u64) -> bool {
    cmd.epoch_spec() == plug_epoch
}

/// What [`enqueue`] leaves in the queue: the event at its ordered place,
/// unless it is a block-start whose target already has one queued, which is
/// dropped.
pub open spec fn enqueue_spec(p: Seq<SoundEvent>, ev: SoundEvent) -> Seq<SoundEvent> {
    if ev is BlockStart && (exists|i: int|
        0 <= i < p.len() && (#[trigger] p[i]) is BlockStart && p[i].target_spec()
            == ev.target_spec()) {
        p
    } else {
        p.insert(insert_pos(p, ev.key()), ev)
    }
}

/// How many leading events of the queue are due by `nb`.
pub open spec fn due_count(p: Seq<SoundEvent>, nb: int) -> int
    decreases p.len(),
{
    if p.len() == 0 {
        0
    } else if p[0].when_spec()@ <= nb {
        1 + due_count(p.drop_first(), nb)
    } else {
        0
    }
}

/// `due_count` marks the boundary of the due prefix, and any index with the
/// boundary's two properties is it.
pub proof fn lemma_due_count_unique(p: Seq<SoundEvent>, nb: int, c: int)
    requires
        0 <= c <= p.len(),
        forall|i: int| 0 <= i < c ==> (#[trigger] p[i]).when_spec()@ <= nb,
        c < p.len() ==> p[c].when_spec()@ > nb,
    ensures
        c == due_count(p, nb),
    decreases p.len(),
{
    if p.len() > 0 {
        let rest = p.drop_first();
        assert(forall|k: int| 0 <= k < rest.len() ==> #[trigger] rest[k] == p[k + 1]);
        if c == 0 {
            if due_count(p, nb) != 0 {
                assert(p[0].when_spec()@ <= nb);
            }
        } else {
            assert(p[0].when_spec()@ <= nb);
            lemma_due_count_unique(rest, nb, c - 1);
        }
    }
}

/// Splits off every event due by `now`: exactly the due prefix, in order; the
/// rest stay queued, in order.
pub fn drain_due(pending: &mut Vec<SoundEvent>, now: Beats) -> (r: Vec<SoundEvent>)
    requires
        sorted_by_key(old(pending)@),
    ensures
        r@ == old(pending)@.take(due_count(old(pending)@, now@)),
        final(pending)@ == old(pending)@.skip(due_count(old(pending)@, now@)),
        r@ + final(pending)@ == old(pending)@,
        sorted_by_key(final(pending)@),
        one_start_per_target(old(pending)@) ==> one_start_per_target(final(pending)@),
        forall|i: int| 0 <= i < r@.len() ==> (#[trigger] r@[i]).when_spec()@ <= now@,
        forall|i: int|
            0 <= i < final(pending)@.len() ==> (#[trigger] final(pending)@[i]).when_spec()@
                > now@,
{
    let n = pending.len();
    let cut = find_cut(pending, now);
    proof {
        lemma_due_count_unique(pending@, now@, cut as int);
    }
    proof {
        assert forall|i: int| cut <= i < n implies (#[trigger] pending@[i]).when_spec()@
            > now@ by {
            if i > cut {
                assert(pending@[cut as int].key() <= pending@[i].key());
                lemma_pair_key_le(
                    pending@[cut as int].when_spec()@,
                    pending@[cut as int].target_spec() as int,
                    pending@[i].when_spec()@,
                    pending@[i].target_spec() as int,
                    id_scale(),
                );
            }
        }
    }
    let mut drained: Vec<SoundEvent> = Vec::new();
    let mut i: usize = 0;
    while i < cut
        invariant
            0 <= i <= cut <= n,
            n == pending@.len(),
            pending@ == old(pending)@,
            drained@ == pending@.take(i as int),
        decreases cut - i,
    {
        drained.push(pending[i]);
        proof {
            assert(drained@ =~= pending@.take(i as int + 1));
        }
        i += 1;
    }
    let mut rest: Vec<SoundEvent> = Vec::new();
    let mut i: usize = cut;
    while i < n
        invariant
            cut <= i <= n,
            n == pending@.len(),
            pending@ == old(pending)@,
            rest@ == pending@.subrange(cut as int, i as int),
        decreases n - i,
    {
        rest.push(pending[i]);
        proof {
            assert(rest@ =~= pending@.subrange(cut as int, i as int + 1));
        }
        i += 1;
    }
    *pending = rest;
    proof {
        assert(drained@ =~= old(pending)@.take(cut as int));
        assert(pending@ =~= old(pending)@.skip(cut as int));
        assert(drained@ + pending@ =~= old(pending)@);
        let p = pending@;
        assert forall|a: int, b: int| 0 <= a < b < p.len() implies #[trigger] p[a].key()
            <= #[trigger] p[b].key() by {
            assert(p[a] == old(pending)@[cut + a] && p[b] == old(pending)@[cut + b]);
        }
        if one_start_per_target(old(pending)@) {
            assert forall|a: int, b: int|
                0 <= a < b < p.len() && (#[trigger] p[a]) is BlockStart && (
                #[trigger] p[b]) is BlockStart implies p[a].target_spec()
                != p[b].target_spec() by {
                assert(p[a] == old(pending)@[cut + a] && p[b] == old(pending)@[cut + b]);
            }
        }
    }
    drained
}

/// The number of leading events due by `now` in a sorted queue.
fn find_cut(pending: &Vec<SoundEvent>, now: Beats) -> (cut: usize)
    ensures
        cut <= pending@.len(),
        forall|i: int| 0 <= i < cut ==> (#[trigger] pending@[i]).when_spec()@ <= now@,
        cut < pending@.len() ==> pending@[cut as int].when_spec()@ > now@,
{
    let mut cut: usize = 0;
    while cut < pending.len()
        invariant
            0 <= cut <= pending@.len(),
            forall|i: int| 0 <= i < cut ==> (#[trigger] pending@[i]).when_spec()@ <= now@,
        decreases pending@.len() - cut,
    {
        if pending[cut].when().units() > now.units() {
            return cut;
        }
        cut += 1;
    }
    cut
}

/// Whether a block-start for the target is already queued.
fn has_start(pending: &Vec<SoundEvent>, id: usize) -> (r: bool)
    ensures
        r == exists|i: int|
            0 <= i < pending@.len() && (#[trigger] pending@[i]) is BlockStart
                && pending@[i].target_spec() == id,
{
    let mut i: usize = 0;
    while i < pending.len()
        invariant
            0 <= i <= pending@.len(),
            forall|j: int|
                0 <= j < i ==> !((#[trigger] pending@[j]) is BlockStart
                    && pending@[j].target_spec() == id),
        decreases pending@.len() - i,
    {
        match pending[i] {
            SoundEvent::BlockStart { id: t, .. } => {
                if t == id {
                    return true;
                }
            },
            _ => {},
        }
        i += 1;
    }
    false
}

/// Inserting an event keeps the one-start discipline, provided a block-start
/// only goes in when none is queued for its target.
proof fn lemma_one_start_insert(p: Seq<SoundEvent>, pos: int, ev: SoundEvent)
    requires
        0 <= pos <= p.len(),
        one_start_per_target(p),
        ev is BlockStart ==> !(exists|i: int|
            0 <= i < p.len() && (#[trigger] p[i]) is BlockStart && p[i].target_spec()
                == ev.target_spec()),
    ensures
        one_start_per_target(p.insert(pos, ev)),
{
    let t = p.insert(pos, ev);
    assert forall|i: int, j: int|
        0 <= i < j < t.len() && (#[trigger] t[i]) is BlockStart && (
        #[trigger] t[j]) is BlockStart implies t[i].target_spec() != t[j].target_spec() by {
        let si = if i < pos {
            i
        } else {
            i - 1
        };
        let sj = if j < pos {
            j
        } else {
            j - 1
        };
        if i != pos && j != pos {
            assert(t[i] == p[si] && t[j] == p[sj]);
        } else if i == pos {
            assert(t[j] == p[sj]);
        } else {
            assert(t[i] == p[si]);
        }
    }
}

/// Queues an event at its ordered place; a block-start whose target already
/// has one queued is dropped, keeping the one-start discipline.
fn enqueue(pending: &mut Vec<SoundEvent>, ev: SoundEvent)
    requires
        sorted_by_key(old(pending)@),
        one_start_per_target(old(pending)@),
    ensures
        final(pending)@ == enqueue_spec(old(pending)@, ev),
        sorted_by_key(final(pending)@),
        one_start_per_target(final(pending)@),
        final(pending)@.len() <= old(pending)@.len() + 1,
{
    let is_start = match ev {
        SoundEvent::BlockStart { .. } => true,
        _ => false,
    };
    if is_start {
        if has_start(pending, ev.target()) {
            return ;
        }
    }
    let ghost p0 = pending@;
    let pos = push_sorted(pending, ev);
    proof {
        lemma_insert_pos_bounds(p0, ev.key());
        lemma_one_start_insert(p0, pos as int, ev);
    }
}


/// The commands one drained event emits: a block end tears down its gain
/// against the generation it was created under; a block start on a note or
/// custom sound emits that sound's envelope and source commands against the
/// live plug; a source start or stop connects or disconnects a noise sound's
/// gain. Events whose target is out of range, of the wrong flavour, or out of
/// the scheduling window emit nothing.
pub open spec fn poll_cmds_spec(
    sounds: Seq<Sound>,
    play_since: Secs,
    epoch: u64,
    ev: SoundEvent,
    bps: Beats,
    inputs: Seq<AudioInput>,
) -> Seq<AudioCmd> {
    match ev {
        SoundEvent::BlockEnd { epoch: gain_epoch, .. } => seq![
            AudioCmd::DropGain { epoch: gain_epoch },
        ],
        SoundEvent::BlockStart { id, when, state } => if (id as int) < sounds.len() {
            match sounds[id as int] {
                Sound::Note(ns) => note_poll_cmds(ns, when, state, bps, play_since, epoch),
                Sound::Custom(cs) => custom_poll_cmds(cs, when, state, bps, play_since, epoch, inputs),
                _ => Seq::empty(),
            }
        } else {
            Seq::empty()
        },
        SoundEvent::Start { id, when } => if (id as int) < sounds.len() && sounds[id as int]
            is Noise && noise_start_fires(when) {
            seq![
                AudioCmd::ConnectNoise { epoch, volume: sounds[id as int]->Noise_0.volume },
            ]
        } else {
            Seq::empty()
        },
        SoundEvent::Stop { id, .. } => if (id as int) < sounds.len() && sounds[id as int]
            is Noise {
            seq![AudioCmd::DisconnectNoise { epoch }]
        } else {
            Seq::empty()
        },
    }
}

/// The queue one drained event leaves: a block start on a note or custom
/// sound schedules that block's end and, while repetitions remain, the next
/// block start; a noise source start schedules its stop; everything else
/// leaves the queue alone.
pub open spec fn poll_pending_spec(
    sounds: Seq<Sound>,
    epoch: u64,
    pending: Seq<SoundEvent>,
    ev: SoundEvent,
    bps: Beats,
    inputs: Seq<AudioInput>,
) -> Seq<SoundEvent> {
    match ev {
        SoundEvent::BlockEnd { .. } => pending,
        SoundEvent::BlockStart { id, when, state } => if (id as int) < sounds.len() {
            match sounds[id as int] {
                Sound::Note(ns) => note_poll_pending(pending, ns, id, when, state, epoch),
                Sound::Custom(cs) => custom_poll_pending(
                    pending,
                    cs,
                    id,
                    when,
                    state,
                    bps,
                    inputs,
                    epoch,
                ),
                _ => pending,
            }
        } else {
            pending
        },
        SoundEvent::Start { id, when } => if (id as int) < sounds.len() && sounds[id as int]
            is Noise && noise_start_fires(when) {
            noise_poll_pending(pending, sounds[id as int]->Noise_0, id, when)
        } else {
            pending
        },
        SoundEvent::Stop { .. } => pending,
    }
}

/// Folds a run of drained events through the poll handlers, left to right:
/// the queue and command list each event leaves feed the next.
pub open spec fn poll_fold(
    sounds: Seq<Sound>,
    play_since: Secs,
    epoch: u64,
    drained: Seq<SoundEvent>,
    pending: Seq<SoundEvent>,
    cmds: Seq<AudioCmd>,
    bps: Beats,
    inputs: Seq<AudioInput>,
) -> (Seq<SoundEvent>, Seq<AudioCmd>)
    decreases drained.len(),
{
    if drained.len() == 0 {
        (pending, cmds)
    } else {
        poll_fold(
            sounds,
            play_since,
            epoch,
            drained.drop_first(),
            poll_pending_spec(sounds, epoch, pending, drained[0], bps, inputs),
            cmds + poll_cmds_spec(sounds, play_since, epoch, drained[0], bps, inputs),
            bps,
            inputs,
        )
    }
}

/// One frame of the pump: each pass splits off the due prefix of the queue
/// and folds it through the poll handlers; handlers may schedule events that
/// are themselves already due, which further passes process, up to the pass
/// bound. The flag reports whether the queue settled — no event was left due.
pub open spec fn pump_spec(
    sounds: Seq<Sound>,
    play_since: Secs,
    epoch: u64,
    pending: Seq<SoundEvent>,
    cmds: Seq<AudioCmd>,
    nb: int,
    bps: Beats,
    inputs: Seq<AudioInput>,
    fuel: int,
) -> (Seq<SoundEvent>, Seq<AudioCmd>, bool)
    decreases fuel,
{
    if fuel <= 0 {
        (pending, cmds, false)
    } else {
        let dc = due_count(pending, nb);
        if dc == 0 {
            (pending, cmds, true)
        } else {
            let folded = poll_fold(
                sounds,
                play_since,
                epoch,
                pending.take(dc),
                pending.skip(dc),
                cmds,
                bps,
                inputs,
            );
            pump_spec(sounds, play_since, epoch, folded.0, folded.1, nb, bps, inputs, fuel - 1)
        }
    }
}

/// The frame's beat position: zero on the first frame after playback starts
/// (which pins the clock), afterwards the elapsed time since then, clamped
/// into the accepted range and converted at the tempo.
pub open spec fn frame_beats_spec(s: Sequencer, now: Secs, bps: Beats) -> int {
    if !s.used_to_play {
        0
    } else {
        let el0 = now@ - s.play_since@;
        let el1 = if el0 > 0 {
            el0
        } else {
            0
        };
        let el = if el1 < MAX_TIME_UNITS as int {
            el1
        } else {
            MAX_TIME_UNITS as int
        };
        el * bps@ / UNIT as int
    }
}

/// `due_count` never passes the queue's length.
pub proof fn lemma_due_count_bounds(p: Seq<SoundEvent>, nb: int)
    ensures
        0 <= due_count(p, nb) <= p.len(),
    decreases p.len(),
{
    if p.len() > 0 {
        lemma_due_count_bounds(p.drop_first(), nb);
    }
}

/// The opening event a placed block contributes when playback starts: the
/// first pattern block's start for a note or custom sound with a non-empty
/// pattern, the source start for a noise sound, nothing for an undefined
/// sound or a dangling sound id.
pub open spec fn opening_event(block: SoundBlock, sounds: Seq<Sound>) -> Option<SoundEvent> {
    if block.sound >= sounds.len() {
        Option::<SoundEvent>::None
    } else {
        match sounds[block.sound as int] {
            Sound::Undefined => Option::<SoundEvent>::None,
            Sound::Note(ns) => if ns.pattern.data@.len() > 0 {
                Some(
                    SoundEvent::BlockStart {
                        id: block.sound,
                        when: R64 {
                            units: (block.offset@ + ns.pattern.data@[0].offset@) as i64,
                        },
                        state: 0,
                    },
                )
            } else {
                Option::<SoundEvent>::None
            },
            Sound::Noise(_) => Some(SoundEvent::Start { id: block.sound, when: block.offset }),
            Sound::Custom(cs) => if cs.pattern.data@.len() > 0 {
                Some(
                    SoundEvent::BlockStart {
                        id: block.sound,
                        when: R64 {
                            units: (block.offset@ + cs.pattern.data@[0].offset@) as i64,
                        },
                        state: 0,
                    },
                )
            } else {
                Option::<SoundEvent>::None
            },
        }
    }
}

/// The queue playback starts with: the opening events of the first `k`
/// placed blocks, each queued in order through [`enqueue_spec`].
pub open spec fn opening_queue(blocks: Seq<SoundBlock>, sounds: Seq<Sound>, k: int) -> Seq<
    SoundEvent,
>
    decreases k,
{
    if k <= 0 {
        Seq::empty()
    } else {
        let prev = opening_queue(blocks, sounds, k - 1);
        match opening_event(blocks[k - 1], sounds) {
            Some(ev) => enqueue_spec(prev, ev),
            None => prev,
        }
    }
}

/// Everything a frame's pump run leaves untouched.
pub open spec fn pump_frame(pre: Sequencer, post: Sequencer) -> bool {
    &&& post.pattern == pre.pattern
    &&& post.sounds == pre.sounds
    &&& post.playing == pre.playing
    &&& post.used_to_play == pre.used_to_play
    &&& post.play_since == pre.play_since
    &&& post.plug_epoch == pre.plug_epoch
    &&& post.gain == pre.gain
}

/// The top-level sequencer: the timeline editor of sound blocks, the pool of
/// sounds the blocks refer to, the pending event queue, and the playback
/// flags.
pub struct Sequencer {
    /// The timeline of placed sound blocks.
    pub pattern: GraphEditor<SoundBlock>,
    /// The sounds, addressed by the stable ids the blocks carry.
    pub sounds: Vec<Sound>,
    /// Scheduled events, ordered by time then target.
    pub pending: Vec<SoundEvent>,
    /// Whether playback is on.
    pub playing: bool,
    /// Whether a frame has run since playback started.
    pub used_to_play: bool,
    /// The clock time playback started at.
    pub play_since: Secs,
    /// The live generation of the master plug chain.
    pub plug_epoch: u64,
    /// The master gain level.
    pub gain: R64,
}

impl Sequencer {
    /// The sequencer's invariant: the editor sound, the queue ordered with at
    /// most one block-start per target, every pooled sound well-formed.
    pub open spec fn wf(self) -> bool {
        &&& self.pattern.wf()
        &&& sorted_by_key(self.pending@)
        &&& one_start_per_target(self.pending@)
        &&& forall|i: int| 0 <= i < self.sounds@.len() ==> (#[trigger] self.sounds@[i]).wf()
        &&& 0 <= self.gain@ <= UNIT as int
        &&& 0 <= self.play_since@ <= MAX_TIME_UNITS as int
    }

    /// A fresh, silent sequencer with an empty timeline.
    pub fn new() -> (r: Sequencer)
        ensures
            r.wf(),
            r.pattern.data@.len() == 0,
            r.sounds@.len() == 0,
            r.pending@.len() == 0,
            !r.playing,
            !r.used_to_play,
            r.play_since@ == 0,
            r.plug_epoch == 0,
            r.gain@ == UNIT as int / 5,
    {
        Sequencer {
            pattern: GraphEditor::new(
                R64::from_units(20 * UNIT),
                R64::from_units(10 * UNIT),
                R64::from_units(-UNIT),
                R64::from_units(-UNIT),
                R64::from_units(MAX_BEAT_UNITS),
                R64::from_units(UNIT),
            ),
            sounds: Vec::new(),
            pending: Vec::new(),
            playing: false,
            used_to_play: false,
            play_since: R64::zero(),
            plug_epoch: 0,
            gain: R64::from_units(UNIT / 5),
        }
    }

    /// Places a fresh, undefined sound block at the given layer and offset —
    /// both clamped into their ranges, the block's sound id the pool slot
    /// just grown — at its ordered position on the timeline; `None` exactly
    /// when the sound pool is full.
    pub fn add_block(&mut self, layer: i64, offset: Beats) -> (r: Option<usize>)
        requires
            old(self).wf(),
            old(self).pattern.data@.len() + 1 < usize::MAX,
        ensures
            final(self).wf(),
            r is Some <==> old(self).sounds@.len() <= MAX_SOUND_ID,
            r is Some ==> {
                let b = SoundBlock {
                    sound: old(self).sounds@.len() as usize,
                    layer: crate::sound::clamp_spec(layer as int, -1_000_000_000, 1_000_000_000) as i64,
                    offset: R64 {
                        units: crate::sound::clamp_spec(offset@, 0, MAX_BEAT_UNITS as int) as i64,
                    },
                };
                &&& final(self).sounds@ == old(self).sounds@.push(Sound::Undefined)
                &&& r->0 == insert_pos(old(self).pattern.data@, b.key())
                &&& final(self).pattern.data@ == old(self).pattern.data@.insert(r->0 as int, b)
                &&& final(self).pattern.data@.len() == old(self).pattern.data@.len() + 1
            },
            r is None ==> *final(self) == *old(self),
            final(self).pending == old(self).pending,
            final(self).playing == old(self).playing,
            final(self).plug_epoch == old(self).plug_epoch,
    {
        if self.sounds.len() > MAX_SOUND_ID {
            return None;
        }
        let id = self.sounds.len();
        self.sounds.push(Sound::Undefined);
        let clamped_layer = if layer < -1_000_000_000 {
            -1_000_000_000
        } else if layer > 1_000_000_000 {
            1_000_000_000
        } else {
            layer
        };
        let block = SoundBlock {
            sound: id,
            layer: clamped_layer,
            offset: crate::sound::clamp_units(offset, 0, MAX_BEAT_UNITS),
        };
        let ghost b = block;
        let ghost pdata = self.pattern.data@;
        let pos = self.pattern.add_point(block);
        proof {
            lemma_insert_pos_bounds(pdata, b.key());
        }
        Some(pos)
    }

    /// Starts playback: clears the queue, then asks every placed sound, in
    /// timeline order, for its opening event — a block-start of its first
    /// pattern block for note and custom sounds, a source start for noise —
    /// so the queue holds exactly the placed sounds' opening events.
    pub fn start_play(&mut self)
        requires
            old(self).wf(),
        ensures
            final(self).wf(),
            final(self).playing,
            !final(self).used_to_play,
            final(self).pending@ == opening_queue(
                old(self).pattern.data@,
                old(self).sounds@,
                old(self).pattern.data@.len() as int,
            ),
            final(self).pending@.len() <= old(self).pattern.data@.len(),
            final(self).pattern == old(self).pattern,
            final(self).sounds == old(self).sounds,
            final(self).plug_epoch == old(self).plug_epoch,
            final(self).play_since == old(self).play_since,
            final(self).gain == old(self).gain,
    {
        self.pending = Vec::new();
        let n = self.pattern.data.len();
        let mut i: usize = 0;
        while i < n
            invariant
                0 <= i <= n,
                self.wf(),
                self.pending@.len() <= i,
                self.pending@ == opening_queue(
                    old(self).pattern.data@,
                    old(self).sounds@,
                    i as int,
                ),
                n == self.pattern.data@.len(),
                self.pattern == old(self).pattern,
                self.sounds == old(self).sounds,
                self.playing == old(self).playing,
                self.used_to_play == old(self).used_to_play,
                self.play_since == old(self).play_since,
                self.plug_epoch == old(self).plug_epoch,
                self.gain == old(self).gain,
            decreases n - i,
        {
            proof {
                assert(self.pattern.data@[i as int].wf_point());
            }
            let block = self.pattern.data[i];
            let id = block.sound;
            if id < self.sounds.len() {
                proof {
                    assert(self.sounds@[id as int].wf());
                }
                match &self.sounds[id] {
                    Sound::Undefined => {},
                    Sound::Note(s) => {
                        if s.pattern.data.len() > 0 {
                            proof {
                                assert(s.pattern.data@[0].wf_point());
                            }
                            let first = &s.pattern.data[0];
                            let when = block.offset.add(first.offset);
                            enqueue(
                                &mut self.pending,
                                SoundEvent::BlockStart { id, when, state: 0 },
                            );
                        }
                    },
                    Sound::Noise(_) => {
                        enqueue(
                            &mut self.pending,
                            SoundEvent::Start { id, when: block.offset },
                        );
                    },
                    Sound::Custom(s) => {
                        if s.pattern.data.len() > 0 {
                            proof {
                                assert(s.pattern.data@[0].wf_point());
                            }
                            let first = &s.pattern.data[0];
                            let when = block.offset.add(first.offset);
                            enqueue(
                                &mut self.pending,
                                SoundEvent::BlockStart { id, when, state: 0 },
                            );
                        }
                    },
                }
            }
            i += 1;
        }
        self.playing = true;
        self.used_to_play = false;
    }

    /// Stops playback at once and completely: the queue is cleared and the
    /// master plug generation advances, so nothing scheduled against the old
    /// plug — not even an event enqueued afterwards — can reach the output.
    pub fn stop_play(&mut self)
        requires
            old(self).wf(),
        ensures
            final(self).wf(),
            final(self).pending@.len() == 0,
            !final(self).playing,
            !final(self).used_to_play,
            final(self).plug_epoch == if old(self).plug_epoch == u64::MAX {
                0u64
            } else {
                (old(self).plug_epoch + 1) as u64
            },
            final(self).plug_epoch != old(self).plug_epoch,
            final(self).pattern == old(self).pattern,
            final(self).sounds == old(self).sounds,
            final(self).gain == old(self).gain,
    {
        self.pending = Vec::new();
        self.playing = false;
        self.used_to_play = false;
        self.plug_epoch = if self.plug_epoch == u64::MAX {
            0
        } else {
            self.plug_epoch + 1
        };
    }

    /// Queues one event by hand: at its ordered place, unless it is a
    /// block-start whose target already has one queued, which is dropped;
    /// scheduling otherwise flows through the pump itself.
    pub fn enqueue_event(&mut self, ev: SoundEvent)
        requires
            old(self).wf(),
        ensures
            final(self).wf(),
            final(self).pending@ == enqueue_spec(old(self).pending@, ev),
            pump_frame(*old(self), *final(self)),
    {
        enqueue(&mut self.pending, ev);
    }

    /// Handles one drained event: looks up the target sound, emits its
    /// audio-graph commands, and queues its follow-up events — a drained
    /// block-start schedules its block's end before the next block-start.
    /// A finished block's tear-down keeps the generation its gain was made
    /// under, so one scheduled against a replaced plug stays silent. Events
    /// whose target or arithmetic is out of range are dropped; the queue's
    /// order and one-start discipline always hold afterwards.
    pub fn poll_event(
        &mut self,
        ev: SoundEvent,
        bps: Beats,
        inputs: &Vec<AudioInput>,
        cmds: &mut Vec<AudioCmd>,
    )
        requires
            old(self).wf(),
            bps_wf(bps),
        ensures
            final(self).wf(),
            pump_frame(*old(self), *final(self)),
            final(self).pending@ == poll_pending_spec(
                old(self).sounds@,
                old(self).plug_epoch,
                old(self).pending@,
                ev,
                bps,
                inputs@,
            ),
            final(cmds)@ == old(cmds)@ + poll_cmds_spec(
                old(self).sounds@,
                old(self).play_since,
                old(self).plug_epoch,
                ev,
                bps,
                inputs@,
            ),
            old(cmds)@.is_prefix_of(final(cmds)@),
            ev is BlockEnd ==> final(cmds)@ == old(cmds)@.push(
                AudioCmd::DropGain { epoch: ev->BlockEnd_epoch },
            ) && final(self).pending == old(self).pending,
            forall|k: int|
                old(cmds)@.len() <= k < final(cmds)@.len() && !(ev is BlockEnd)
                    ==> (#[trigger] final(cmds)@[k]).epoch_spec() == old(self).plug_epoch,
    {
        let ghost target_cmds = old(cmds)@ + poll_cmds_spec(
            old(self).sounds@,
            old(self).play_since,
            old(self).plug_epoch,
            ev,
            bps,
            inputs@,
        );
        match ev {
            SoundEvent::BlockEnd { epoch, .. } => {
                cmds.push(AudioCmd::DropGain { epoch });
                proof {
                    assert(cmds@ =~= target_cmds);
                }
            },
            SoundEvent::Start { id, when } => {
                if id < self.sounds.len() && when.units() >= 0 && when.units()
                    <= MAX_WHEN_UNITS {
                    proof {
                        assert(self.sounds@[id as int].wf());
                    }
                    match &self.sounds[id] {
                        Sound::Noise(s) => {
                            cmds.push(
                                AudioCmd::ConnectNoise {
                                    epoch: self.plug_epoch,
                                    volume: s.volume,
                                },
                            );
                            let total = s.total_len();
                            proof {
                                vstd::arithmetic::mul::lemma_mul_nonnegative(
                                    s.len@,
                                    s.rep_count as int,
                                );
                                vstd::arithmetic::mul::lemma_mul_upper_bound(
                                    s.len@,
                                    MAX_BEAT_UNITS as int,
                                    s.rep_count as int,
                                    crate::sound::MAX_REP as int,
                                );
                            }
                            let stop_at = when.add(total);
                            enqueue(&mut self.pending, SoundEvent::Stop { id, when: stop_at });
                        },
                        _ => {},
                    }
                }
                proof {
                    assert(cmds@ =~= target_cmds);
                }
            },
            SoundEvent::Stop { id, .. } => {
                if id < self.sounds.len() {
                    match &self.sounds[id] {
                        Sound::Noise(_) => {
                            cmds.push(AudioCmd::DisconnectNoise { epoch: self.plug_epoch });
                        },
                        _ => {},
                    }
                }
                proof {
                    assert(cmds@ =~= target_cmds);
                }
            },
            SoundEvent::BlockStart { id, when, state } => {
                if id < self.sounds.len() {
                    proof {
                        assert(self.sounds@[id as int].wf());
                    }
                    match &self.sounds[id] {
                        Sound::Note(s) => {
                            poll_note(
                                s,
                                id,
                                when,
                                state,
                                bps,
                                self.play_since,
                                self.plug_epoch,
                                &mut self.pending,
                                cmds,
                            );
                        },
                        Sound::Custom(s) => {
                            poll_custom(
                                s,
                                id,
                                when,
                                state,
                                bps,
                                self.play_since,
                                self.plug_epoch,
                                inputs,
                                &mut self.pending,
                                cmds,
                            );
                        },
                        _ => {},
                    }
                }
                proof {
                    assert(cmds@ =~= target_cmds);
                }
            },
        }
    }
}

impl Sequencer {
    /// Runs one animation frame of the pump. The first frame after playback
    /// starts pins the clock, so its beat position is exactly zero. Each pass
    /// drains exactly the due events — those with `when` at most the elapsed
    /// beats — and feeds them to [`Sequencer::poll_event`]; events the
    /// handlers scheduled that are already due are processed in further
    /// passes before returning, up to a generous pass bound.
    /// Runs one animation frame of the pump. The first frame after playback
    /// starts pins the clock, so its beat position is exactly zero; later
    /// frames run at the elapsed beats. Each pass drains exactly the due
    /// prefix of the queue and folds it through [`Sequencer::poll_event`];
    /// events the handlers scheduled that are already due are processed in
    /// further passes before returning, up to a generous pass bound. Returns
    /// the emitted commands and whether the queue settled — when it did,
    /// every event still queued is due strictly after this frame.
    pub fn frame(&mut self, now: Secs, bps: Beats, inputs: &Vec<AudioInput>) -> (r: (
        Vec<AudioCmd>,
        bool,
    ))
        requires
            old(self).wf(),
            bps_wf(bps),
            0 <= now@ <= MAX_TIME_UNITS as int,
        ensures
            final(self).wf(),
            final(self).pattern == old(self).pattern,
            final(self).sounds == old(self).sounds,
            final(self).plug_epoch == old(self).plug_epoch,
            final(self).gain == old(self).gain,
            final(self).playing == old(self).playing,
            !old(self).playing ==> *final(self) == *old(self) && r.0@.len() == 0 && r.1,
            old(self).playing && !old(self).used_to_play ==> final(self).play_since == now
                && final(self).used_to_play,
            old(self).playing && old(self).used_to_play ==> final(self).play_since == old(
                self,
            ).play_since && final(self).used_to_play,
            old(self).playing ==> (final(self).pending@, r.0@, r.1) == pump_spec(
                old(self).sounds@,
                final(self).play_since,
                old(self).plug_epoch,
                old(self).pending@,
                Seq::<AudioCmd>::empty(),
                frame_beats_spec(*old(self), now, bps),
                bps,
                inputs@,
                10_000,
            ),
            old(self).playing && r.1 ==> forall|i: int|
                0 <= i < final(self).pending@.len()
                    ==> (#[trigger] final(self).pending@[i]).when_spec()@ > frame_beats_spec(
                    *old(self),
                    now,
                    bps,
                ),
    {
        let mut cmds: Vec<AudioCmd> = Vec::new();
        if !self.playing {
            return (cmds, true);
        }
        let now_beats: Beats;
        if !self.used_to_play {
            self.used_to_play = true;
            self.play_since = now;
            now_beats = R64::zero();
        } else {
            let el = now.sat_sub(self.play_since).max(R64::zero()).min(
                R64::from_units(MAX_TIME_UNITS),
            );
            proof {
                vstd::arithmetic::mul::lemma_mul_nonnegative(el@, bps@);
                vstd::arithmetic::mul::lemma_mul_upper_bound(
                    el@,
                    MAX_TIME_UNITS as int,
                    bps@,
                    1_000_000_000,
                );
                vstd::arithmetic::div_mod::lemma_div_pos_is_pos(el@ * bps@, UNIT as int);
                vstd::arithmetic::div_mod::lemma_div_is_ordered(
                    el@ * bps@,
                    MAX_TIME_UNITS as int * 1_000_000_000,
                    UNIT as int,
                );
            }
            now_beats = el.secs_to_beats(bps);
        }
        proof {
            assert(now_beats@ == frame_beats_spec(*old(self), now, bps));
        }
        let ghost since0 = self.play_since;
        let ghost used0 = self.used_to_play;
        let ghost sounds0 = self.sounds@;
        let ghost epoch0 = self.plug_epoch;
        let ghost nb = now_beats@ as int;
        let ghost target = pump_spec(
            sounds0,
            since0,
            epoch0,
            self.pending@,
            Seq::<AudioCmd>::empty(),
            nb,
            bps,
            inputs@,
            10_000,
        );
        let mut fuel: u32 = 10_000;
        let mut done = false;
        while fuel > 0 && !done
            invariant
                self.wf(),
                bps_wf(bps),
                self.pattern == old(self).pattern,
                self.sounds == old(self).sounds,
                self.sounds@ == sounds0,
                self.playing == old(self).playing,
                self.plug_epoch == epoch0,
                self.gain == old(self).gain,
                self.play_since == since0,
                self.used_to_play == used0,
                now_beats@ == nb,
                fuel <= 10_000,
                if done {
                    target == ((self.pending@, cmds@, true))
                } else {
                    pump_spec(
                        sounds0,
                        since0,
                        epoch0,
                        self.pending@,
                        cmds@,
                        nb,
                        bps,
                        inputs@,
                        fuel as int,
                    ) == target
                },
                done ==> forall|i: int|
                    0 <= i < self.pending@.len() ==> (#[trigger] self.pending@[i]).when_spec()@
                        > nb,
            decreases fuel,
        {
            let ghost pend0 = self.pending@;
            let ghost cmds0 = cmds@;
            proof {
                lemma_due_count_bounds(pend0, nb);
            }
            let drained = drain_due(&mut self.pending, now_beats);
            if drained.len() == 0 {
                proof {
                    assert(due_count(pend0, nb) == 0) by {
                        if due_count(pend0, nb) != 0 {
                            assert(drained@.len() == pend0.take(due_count(pend0, nb)).len());
                        }
                    }
                    assert(self.pending@ =~= pend0);
                    assert(pump_spec(
                        sounds0,
                        since0,
                        epoch0,
                        pend0,
                        cmds0,
                        nb,
                        bps,
                        inputs@,
                        fuel as int,
                    ) == ((pend0, cmds0, true)));
                }
                done = true;
            } else {
                let ghost rest0 = self.pending@;
                let ghost pass_target = poll_fold(
                    sounds0,
                    since0,
                    epoch0,
                    drained@,
                    rest0,
                    cmds0,
                    bps,
                    inputs@,
                );
                proof {
                    assert(drained@.skip(0) =~= drained@);
                }
                let mut k: usize = 0;
                while k < drained.len()
                    invariant
                        0 <= k <= drained@.len(),
                        self.wf(),
                        bps_wf(bps),
                        self.pattern == old(self).pattern,
                        self.sounds == old(self).sounds,
                        self.sounds@ == sounds0,
                        self.playing == old(self).playing,
                        self.plug_epoch == epoch0,
                        self.gain == old(self).gain,
                        self.play_since == since0,
                        self.used_to_play == used0,
                        poll_fold(
                            sounds0,
                            since0,
                            epoch0,
                            drained@.skip(k as int),
                            self.pending@,
                            cmds@,
                            bps,
                            inputs@,
                        ) == pass_target,
                    decreases drained@.len() - k,
                {
                    proof {
                        let sk = drained@.skip(k as int);
                        assert(sk[0] == drained@[k as int]);
                        assert(sk.drop_first() =~= drained@.skip(k as int + 1));
                    }
                    self.poll_event(drained[k], bps, inputs, &mut cmds);
                    k += 1;
                }
                proof {
                    assert(drained@.skip(drained@.len() as int).len() == 0);
                    assert((self.pending@, cmds@) == pass_target);
                    assert(drained@ =~= pend0.take(due_count(pend0, nb)));
                    assert(due_count(pend0, nb) != 0) by {
                        if due_count(pend0, nb) == 0 {
                            assert(drained@.len() == 0);
                        }
                    }
                    assert(pump_spec(
                        sounds0,
                        since0,
                        epoch0,
                        pend0,
                        cmds0,
                        nb,
                        bps,
                        inputs@,
                        fuel as int,
                    ) == pump_spec(
                        sounds0,
                        since0,
                        epoch0,
                        pass_target.0,
                        pass_target.1,
                        nb,
                        bps,
                        inputs@,
                        fuel as int - 1,
                    ));
                }
            }
            fuel -= 1;
        }
        proof {
            if !done {
                assert(fuel == 0);
                assert(pump_spec(
                    sounds0,
                    since0,
                    epoch0,
                    self.pending@,
                    cmds@,
                    nb,
                    bps,
                    inputs@,
                    0,
                ) == ((self.pending@, cmds@, false)));
            }
        }
        (cmds, done)
    }

    /// Handles one broadcast event: placing a block, starting and stopping
    /// playback, a frame tick, the master gain, and redraw requests; every
    /// other event is someone else's.
    pub fn handle_event(
        &mut self,
        event: &AppEvent,
        ctx: &ContextMut,
        inputs: &Vec<AudioInput>,
    ) -> (cmds: Vec<AudioCmd>)
        requires
            old(self).wf(),
            bps_wf(ctx.bps),
        ensures
            final(self).wf(),
            *event is StartPlay ==> final(self).playing && !final(self).used_to_play
                && final(self).pending@ == opening_queue(
                old(self).pattern.data@,
                old(self).sounds@,
                old(self).pattern.data@.len() as int,
            ),
            *event is StopPlay ==> !final(self).playing && !final(self).used_to_play
                && final(self).pending@.len() == 0
                && final(self).plug_epoch != old(self).plug_epoch,
            *event is MasterGain ==> final(self).gain@ == crate::sound::clamp_spec(
                event->MasterGain_value@,
                0,
                UNIT as int,
            ),
            *event is Frame && old(self).playing && !old(self).used_to_play
                ==> final(self).used_to_play
                && final(self).play_since@ == crate::sound::clamp_spec(
                event->Frame_now@,
                0,
                MAX_TIME_UNITS as int,
            ),
            *event is Frame && old(self).playing && old(self).used_to_play
                ==> final(self).play_since == old(self).play_since,
    {
        match event {
            AppEvent::Add { layer, offset } => {
                if self.pattern.data.len() < usize::MAX - 1 {
                    let _ = self.add_block(*layer, *offset);
                }
                Vec::new()
            },
            AppEvent::StartPlay => {
                self.start_play();
                Vec::new()
            },
            AppEvent::StopPlay => {
                self.stop_play();
                Vec::new()
            },
            AppEvent::Frame { now } => {
                let n = crate::sound::clamp_units(*now, 0, MAX_TIME_UNITS);
                let frame_result = self.frame(n, ctx.bps, inputs);
                frame_result.0
            },
            AppEvent::MasterGain { value } => {
                self.gain = clamp_level_exec(*value);
                Vec::new()
            },
            AppEvent::RedrawEditorPlane => {
                self.pattern.force_redraw();
                Vec::new()
            },
            _ => Vec::new(),
        }
    }
}

/// For a playing sequencer at a frame's beat position, the events a drain
/// pass hands to the handlers are exactly the queued events that are due:
/// every drained event's time is at most the position, every remaining
/// event's time exceeds it, and together they are the original queue.
pub proof fn lemma_drained_exactly_due(
    before: Seq<SoundEvent>,
    drained: Seq<SoundEvent>,
    after: Seq<SoundEvent>,
    now_beats: Beats,
)
    requires
        drained + after == before,
        forall|i: int| 0 <= i < drained.len() ==> (#[trigger] drained[i]).when_spec()@
            <= now_beats@,
        forall|i: int| 0 <= i < after.len() ==> (#[trigger] after[i]).when_spec()@ > now_beats@,
    ensures
        forall|i: int|
            0 <= i < before.len() && (#[trigger] before[i]).when_spec()@ <= now_beats@
                ==> i < drained.len() && drained[i] == before[i],
        forall|i: int|
            0 <= i < before.len() && (#[trigger] before[i]).when_spec()@ > now_beats@
                ==> i >= drained.len(),
{
    assert forall|i: int|
        0 <= i < before.len() && (#[trigger] before[i]).when_spec()@ <= now_beats@ implies i
        < drained.len() && drained[i] == before[i] by {
        if i >= drained.len() {
            assert(before[i] == after[i - drained.len()]);
        } else {
            assert(before[i] == drained[i]);
        }
    }
    assert forall|i: int|
        0 <= i < before.len() && (#[trigger] before[i]).when_spec()@ > now_beats@ implies i
        >= drained.len() by {
        if i < drained.len() {
            assert(before[i] == drained[i]);
        }
    }
}

/// A well-formed sequencer always queues at most one block-start per target
/// sound: with the pump scheduling each block's end before the next start,
/// at most one started block per (sound, pattern state) is ever live.
pub proof fn lemma_one_start_invariant(s: Sequencer)
    requires
        s.wf(),
    ensures
        one_start_per_target(s.pending@),
{
}

/// Time window within which a queued event can still be scheduled.
pub const MAX_WHEN_UNITS: i64 = 10_000_000_000_000;

/// Whether a block-start fires on a note sound: the pattern is non-empty and
/// addressable, the state has repetitions left, and the event time is within
/// the scheduling window.
pub open spec fn note_poll_fires(s: crate::sound::NoteSound, when: Beats, state: u64) -> bool {
    &&& 0 < s.pattern.data@.len() <= 1_000_000_000
    &&& (state as int) < s.pattern.data@.len() * (s.rep_count as int)
    &&& 0 <= when@ <= MAX_WHEN_UNITS as int
}

/// The commands a fired note block-start emits: the `state`-th block's gain
/// envelope, and its oscillator from the block's start to its end.
pub open spec fn note_poll_cmds(
    s: crate::sound::NoteSound,
    when: Beats,
    state: u64,
    bps: Beats,
    play_since: Secs,
    epoch: u64,
) -> Seq<AudioCmd> {
    if !note_poll_fires(s, when, state) {
        Seq::empty()
    } else {
        let n = s.pattern.data@.len() as int;
        let block = s.pattern.data@[(state as int) % n];
        let start = play_since@ + crate::sound::to_secs_int(when@, bps@);
        let len_secs = crate::sound::to_secs_int(block.len@, bps@);
        seq![
            AudioCmd::Envelope {
                env: crate::sound::envelope_spec(
                    s.volume,
                    s.sustain,
                    s.attack,
                    s.decay,
                    s.release,
                    bps,
                    start,
                    len_secs,
                    epoch,
                ),
            },
            AudioCmd::OscStart {
                epoch,
                freq: R64 { units: crate::note::freq_units(block.value.0 as int) as i64 },
                at: R64 { units: start as i64 },
                stop_at: R64 { units: (start + len_secs) as i64 },
            },
        ]
    }
}

/// When the next note block-start is due: the current time plus the offset
/// gap to the next block, or — wrapping into the next repetition — past the
/// pattern's end back to the first block's offset.
pub open spec fn note_next_start_when(s: crate::sound::NoteSound, when: Beats, state: u64) -> int {
    let pat = s.pattern.data@;
    let n = pat.len() as int;
    let block = pat[(state as int) % n];
    let next_idx = (state as int + 1) % n;
    let delta = if next_idx == 0 {
        let head = pat.last().offset@ + pat.last().len@ - block.offset@;
        (if head > 0 {
            head
        } else {
            0
        }) + pat[0].offset@
    } else {
        let d = pat[next_idx].offset@ - block.offset@;
        if d > 0 {
            d
        } else {
            0
        }
    };
    when@ + delta
}

/// The queue a fired note block-start leaves: the block's end is scheduled
/// first, then — while repetitions remain — the next block-start.
pub open spec fn note_poll_pending(
    p: Seq<SoundEvent>,
    s: crate::sound::NoteSound,
    id: usize,
    when: Beats,
    state: u64,
    epoch: u64,
) -> Seq<SoundEvent> {
    if !note_poll_fires(s, when, state) {
        p
    } else {
        let n = s.pattern.data@.len() as int;
        let block = s.pattern.data@[(state as int) % n];
        let p1 = enqueue_spec(
            p,
            SoundEvent::BlockEnd {
                id,
                when: R64 { units: (when@ + block.len@ + s.release@) as i64 },
                epoch,
            },
        );
        if (state as int) + 1 < n * (s.rep_count as int) {
            enqueue_spec(
                p1,
                SoundEvent::BlockStart {
                    id,
                    when: R64 { units: note_next_start_when(s, when, state) as i64 },
                    state: (state + 1) as u64,
                },
            )
        } else {
            p1
        }
    }
}

/// Whether a block-start fires on a custom sound: as for a note sound, plus a
/// selected input that the host handed in with its changes baked and its
/// duration within the accepted range.
pub open spec fn custom_poll_fires(
    s: crate::sound::CustomSound,
    when: Beats,
    state: u64,
    inputs: Seq<AudioInput>,
) -> bool {
    &&& 0 < s.pattern.data@.len() <= 1_000_000_000
    &&& (state as int) < s.pattern.data@.len() * (s.rep_count as int)
    &&& s.src is Some
    &&& (s.src->0 as int) < inputs.len()
    &&& inputs[s.src->0 as int].pending_changes == inputs[s.src->0 as int].baked_changes
    &&& 0 <= inputs[s.src->0 as int].duration@ <= 1_000_000_000_000
    &&& 0 <= when@ <= MAX_WHEN_UNITS as int
}

/// The audible length of the custom sound's `state`-th block, in fixed-point
/// seconds: the baked duration over the speed and the block's pitch
/// coefficient.
pub open spec fn custom_poll_len_secs(
    s: crate::sound::CustomSound,
    state: u64,
    inputs: Seq<AudioInput>,
) -> int {
    let n = s.pattern.data@.len() as int;
    let block = s.pattern.data@[(state as int) % n];
    crate::sound::custom_block_len_secs(
        inputs[s.src->0 as int].duration@,
        s.speed@,
        crate::note::pitch_coef_units(block.pitch.0 as int),
    )
}

/// The commands a fired custom block-start emits: the block's gain envelope,
/// and its buffer source at `speed * pitch coefficient`.
pub open spec fn custom_poll_cmds(
    s: crate::sound::CustomSound,
    when: Beats,
    state: u64,
    bps: Beats,
    play_since: Secs,
    epoch: u64,
    inputs: Seq<AudioInput>,
) -> Seq<AudioCmd> {
    if !custom_poll_fires(s, when, state, inputs) {
        Seq::empty()
    } else {
        let n = s.pattern.data@.len() as int;
        let block = s.pattern.data@[(state as int) % n];
        let start = play_since@ + crate::sound::to_secs_int(when@, bps@);
        let len_secs = custom_poll_len_secs(s, state, inputs);
        let coef = crate::note::pitch_coef_units(block.pitch.0 as int);
        seq![
            AudioCmd::Envelope {
                env: crate::sound::envelope_spec(
                    s.volume,
                    s.sustain,
                    s.attack,
                    s.decay,
                    s.release,
                    bps,
                    start,
                    len_secs,
                    epoch,
                ),
            },
            AudioCmd::BufStart {
                epoch,
                input: s.src->0,
                rate: R64 { units: (s.speed@ * coef / UNIT as int) as i64 },
                at: R64 { units: start as i64 },
            },
        ]
    }
}

/// The audible tail of a custom block in beats: its length in seconds
/// converted back at the tempo.
pub open spec fn custom_poll_tail_beats(
    s: crate::sound::CustomSound,
    state: u64,
    bps: Beats,
    inputs: Seq<AudioInput>,
) -> int {
    custom_poll_len_secs(s, state, inputs) * bps@ / UNIT as int
}

/// When the next custom block-start is due.
pub open spec fn custom_next_start_when(
    s: crate::sound::CustomSound,
    when: Beats,
    state: u64,
    bps: Beats,
    inputs: Seq<AudioInput>,
) -> int {
    let pat = s.pattern.data@;
    let n = pat.len() as int;
    let block = pat[(state as int) % n];
    let next_idx = (state as int + 1) % n;
    let delta = if next_idx == 0 {
        let head = pat.last().offset@ - block.offset@;
        (if head > 0 {
            head
        } else {
            0
        }) + custom_poll_tail_beats(s, state, bps, inputs) + pat[0].offset@
    } else {
        let d = pat[next_idx].offset@ - block.offset@;
        if d > 0 {
            d
        } else {
            0
        }
    };
    when@ + delta
}

/// The queue a fired custom block-start leaves: the block's end first, then —
/// while repetitions remain — the next block-start.
pub open spec fn custom_poll_pending(
    p: Seq<SoundEvent>,
    s: crate::sound::CustomSound,
    id: usize,
    when: Beats,
    state: u64,
    bps: Beats,
    inputs: Seq<AudioInput>,
    epoch: u64,
) -> Seq<SoundEvent> {
    if !custom_poll_fires(s, when, state, inputs) {
        p
    } else {
        let n = s.pattern.data@.len() as int;
        let tail = custom_poll_tail_beats(s, state, bps, inputs);
        let p1 = enqueue_spec(
            p,
            SoundEvent::BlockEnd {
                id,
                when: R64 { units: (when@ + tail + s.release@) as i64 },
                epoch,
            },
        );
        if (state as int) + 1 < n * (s.rep_count as int) {
            enqueue_spec(
                p1,
                SoundEvent::BlockStart {
                    id,
                    when: R64 { units: custom_next_start_when(s, when, state, bps, inputs) as i64 },
                    state: (state + 1) as u64,
                },
            )
        } else {
            p1
        }
    }
}

/// Whether a source-start fires on a noise sound: the event time is within
/// the scheduling window.
pub open spec fn noise_start_fires(when: Beats) -> bool {
    0 <= when@ <= MAX_WHEN_UNITS as int
}

/// The queue a fired noise source-start leaves: the source's stop after the
/// sound's total length.
pub open spec fn noise_poll_pending(
    p: Seq<SoundEvent>,
    s: crate::sound::NoiseSound,
    id: usize,
    when: Beats,
) -> Seq<SoundEvent> {
    if !noise_start_fires(when) {
        p
    } else {
        enqueue_spec(
            p,
            SoundEvent::Stop {
                id,
                when: R64 { units: (when@ + s.len@ * s.rep_count as int) as i64 },
            },
        )
    }
}

/// Handles a drained block-start of a note sound: emits the block's envelope
/// and oscillator against the live plug, schedules the block's end, then the
/// next block-start while repetitions remain.
fn poll_note(
    s: &crate::sound::NoteSound,
    id: usize,
    when: Beats,
    state: u64,
    bps: Beats,
    play_since: Secs,
    epoch: u64,
    pending: &mut Vec<SoundEvent>,
    cmds: &mut Vec<AudioCmd>,
)
    requires
        s.wf(),
        bps_wf(bps),
        0 <= play_since@ <= MAX_TIME_UNITS as int,
        sorted_by_key(old(pending)@),
        one_start_per_target(old(pending)@),
    ensures
        final(pending)@ == note_poll_pending(old(pending)@, *s, id, when, state, epoch),
        final(cmds)@ == old(cmds)@ + note_poll_cmds(*s, when, state, bps, play_since, epoch),
        sorted_by_key(final(pending)@),
        one_start_per_target(final(pending)@),
        old(cmds)@.is_prefix_of(final(cmds)@),
        forall|k: int|
            old(cmds)@.len() <= k < final(cmds)@.len()
                ==> (#[trigger] final(cmds)@[k]).epoch_spec() == epoch,
{
    let n = s.pattern.data.len();
    if n == 0 || n > 1_000_000_000 {
        proof {
            assert(old(cmds)@ + note_poll_cmds(*s, when, state, bps, play_since, epoch)
                =~= cmds@);
        }
        return ;
    }
    proof {
        vstd::arithmetic::mul::lemma_mul_upper_bound(
            n as int,
            1_000_000_000,
            s.rep_count as int,
            1000,
        );
        vstd::arithmetic::mul::lemma_mul_nonnegative(n as int, s.rep_count as int);
    }
    let total: u64 = (n as u64) * (s.rep_count as u64);
    if state >= total {
        proof {
            assert(old(cmds)@ + note_poll_cmds(*s, when, state, bps, play_since, epoch)
                =~= cmds@);
        }
        return ;
    }
    if when.units() < 0 || when.units() > MAX_WHEN_UNITS {
        proof {
            assert(old(cmds)@ + note_poll_cmds(*s, when, state, bps, play_since, epoch)
                =~= cmds@);
        }
        return ;
    }
    let idx = (state % (n as u64)) as usize;
    proof {
        assert(state % (n as u64) < n as u64) by {
            vstd::arithmetic::div_mod::lemma_mod_bound(state as int, n as int);
        }
        assert(s.pattern.data@[idx as int].wf_point());
        lemma_when_secs_bound(when@, bps@);
    }
    let block = s.pattern.data[idx];
    let start = play_since.add(when.to_secs(bps));
    proof {
        lemma_when_secs_bound(block.len@, bps@);
    }
    let len_secs = block.len.to_secs(bps);
    let env = envelope(s.volume, s.sustain, s.attack, s.decay, s.release, bps, start, len_secs, epoch);
    cmds.push(AudioCmd::Envelope { env });
    cmds.push(
        AudioCmd::OscStart {
            epoch,
            freq: block.value.freq(),
            at: start,
            stop_at: start.add(len_secs),
        },
    );
    proof {
        assert(cmds@ =~= old(cmds)@ + note_poll_cmds(*s, when, state, bps, play_since, epoch));
    }
    // the block's end, then — while repetitions remain — the next start
    let end = when.add(block.len).add(s.release);
    enqueue(pending, SoundEvent::BlockEnd { id, when: end, epoch });
    if state + 1 < total {
        let next_idx = ((state + 1) % (n as u64)) as usize;
        proof {
            assert((state as int + 1) % (n as int) < n as int) by {
                vstd::arithmetic::div_mod::lemma_mod_bound(state as int + 1, n as int);
            }
            assert(s.pattern.data@[next_idx as int].wf_point());
            assert(s.pattern.data@[n - 1].wf_point());
            assert(s.pattern.data@[0].wf_point());
            assert(s.pattern.data@.last() == s.pattern.data@[n - 1]);
        }
        let delta = if next_idx == 0 {
            let last = s.pattern.data[n - 1];
            let head = last.offset.add(last.len).sub(block.offset);
            head.max(R64::zero()).add(s.pattern.data[0].offset)
        } else {
            let next = s.pattern.data[next_idx];
            next.offset.sub(block.offset).max(R64::zero())
        };
        let when_next = when.add(delta);
        proof {
            assert(when_next@ == note_next_start_when(*s, when, state));
        }
        enqueue(pending, SoundEvent::BlockStart { id, when: when_next, state: state + 1 });
    }
}

/// Handles a drained block-start of a custom sound: needs the referenced
/// input baked; emits the block's envelope and buffer source, schedules the
/// block's end and the next block-start while repetitions remain.
fn poll_custom(
    s: &crate::sound::CustomSound,
    id: usize,
    when: Beats,
    state: u64,
    bps: Beats,
    play_since: Secs,
    epoch: u64,
    inputs: &Vec<AudioInput>,
    pending: &mut Vec<SoundEvent>,
    cmds: &mut Vec<AudioCmd>,
)
    requires
        s.wf(),
        bps_wf(bps),
        0 <= play_since@ <= MAX_TIME_UNITS as int,
        sorted_by_key(old(pending)@),
        one_start_per_target(old(pending)@),
    ensures
        final(pending)@ == custom_poll_pending(
            old(pending)@,
            *s,
            id,
            when,
            state,
            bps,
            inputs@,
            epoch,
        ),
        final(cmds)@ == old(cmds)@ + custom_poll_cmds(
            *s,
            when,
            state,
            bps,
            play_since,
            epoch,
            inputs@,
        ),
        sorted_by_key(final(pending)@),
        one_start_per_target(final(pending)@),
        old(cmds)@.is_prefix_of(final(cmds)@),
        forall|k: int|
            old(cmds)@.len() <= k < final(cmds)@.len()
                ==> (#[trigger] final(cmds)@[k]).epoch_spec() == epoch,
{
    let ghost no_cmds = custom_poll_cmds(*s, when, state, bps, play_since, epoch, inputs@);
    let n = s.pattern.data.len();
    if n == 0 || n > 1_000_000_000 {
        proof {
            assert(old(cmds)@ + no_cmds =~= cmds@);
        }
        return ;
    }
    proof {
        vstd::arithmetic::mul::lemma_mul_upper_bound(
            n as int,
            1_000_000_000,
            s.rep_count as int,
            1000,
        );
        vstd::arithmetic::mul::lemma_mul_nonnegative(n as int, s.rep_count as int);
    }
    let total: u64 = (n as u64) * (s.rep_count as u64);
    if state >= total {
        proof {
            assert(old(cmds)@ + no_cmds =~= cmds@);
        }
        return ;
    }
    let src_id = match s.src {
        Some(src_id) => src_id,
        None => {
            proof {
                assert(old(cmds)@ + no_cmds =~= cmds@);
            }
            return ;
        },
    };
    if src_id >= inputs.len() {
        proof {
            assert(old(cmds)@ + no_cmds =~= cmds@);
        }
        return ;
    }
    let d = match inputs[src_id].baked() {
        Some(d) => d,
        None => {
            proof {
                assert(old(cmds)@ + no_cmds =~= cmds@);
            }
            return ;
        },
    };
    if d.units() < 0 || d.units() > 1_000_000_000_000 {
        proof {
            assert(old(cmds)@ + no_cmds =~= cmds@);
        }
        return ;
    }
    if when.units() < 0 || when.units() > MAX_WHEN_UNITS {
        proof {
            assert(old(cmds)@ + no_cmds =~= cmds@);
        }
        return ;
    }
    let idx = (state % (n as u64)) as usize;
    proof {
        assert(state % (n as u64) < n as u64) by {
            vstd::arithmetic::div_mod::lemma_mod_bound(state as int, n as int);
        }
        assert(s.pattern.data@[idx as int].wf_point());
        lemma_when_secs_bound(when@, bps@);
    }
    let block = s.pattern.data[idx];
    let start = play_since.add(when.to_secs(bps));
    let coef = block.pitch.pitch_coef();
    proof {
        crate::sound::lemma_block_len_bound(d@, s.speed@, coef@);
        crate::sound::lemma_rate_bound(s.speed@, coef@);
    }
    let len_secs = d.div(s.speed).div(coef);
    let env = envelope(s.volume, s.sustain, s.attack, s.decay, s.release, bps, start, len_secs, epoch);
    cmds.push(AudioCmd::Envelope { env });
    cmds.push(
        AudioCmd::BufStart { epoch, input: src_id, rate: s.speed.mul(coef), at: start },
    );
    proof {
        assert(cmds@ =~= old(cmds)@ + no_cmds);
        lemma_tail_bound(len_secs@, bps@);
    }
    let tail = len_secs.secs_to_beats(bps);
    let end = when.add(tail).add(s.release);
    enqueue(pending, SoundEvent::BlockEnd { id, when: end, epoch });
    if state + 1 < total {
        let next_idx = ((state + 1) % (n as u64)) as usize;
        proof {
            assert((state as int + 1) % (n as int) < n as int) by {
                vstd::arithmetic::div_mod::lemma_mod_bound(state as int + 1, n as int);
            }
            assert(s.pattern.data@[next_idx as int].wf_point());
            assert(s.pattern.data@[n - 1].wf_point());
            assert(s.pattern.data@[0].wf_point());
            assert(s.pattern.data@.last() == s.pattern.data@[n - 1]);
        }
        let delta = if next_idx == 0 {
            // wrap to the next repetition: past the last block and the
            // sample's audible tail, back to the first block's offset
            let last_off = s.pattern.data[n - 1].offset;
            last_off.sub(block.offset).max(R64::zero()).add(tail).add(s.pattern.data[0].offset)
        } else {
            let next = s.pattern.data[next_idx];
            next.offset.sub(block.offset).max(R64::zero())
        };
        let when_next = when.add(delta);
        proof {
            assert(when_next@ == custom_next_start_when(*s, when, state, bps, inputs@));
        }
        enqueue(pending, SoundEvent::BlockStart { id, when: when_next, state: state + 1 });
    }
}

/// A bounded block length converts to a bounded beat tail at an accepted
/// tempo.
proof fn lemma_tail_bound(len_secs: int, bps: int)
    requires
        0 <= len_secs <= 100_000_000_000_000,
        MIN_BPS_UNITS as int <= bps <= 1_000_000_000,
    ensures
        0 <= len_secs * bps / UNIT as int <= 100_000_000_000_000_000,
{
    vstd::arithmetic::mul::lemma_mul_nonnegative(len_secs, bps);
    vstd::arithmetic::div_mod::lemma_div_pos_is_pos(len_secs * bps, UNIT as int);
    vstd::arithmetic::mul::lemma_mul_upper_bound(
        len_secs,
        100_000_000_000_000,
        bps,
        1_000_000_000,
    );
    vstd::arithmetic::div_mod::lemma_div_is_ordered(
        len_secs * bps,
        100_000_000_000_000int * 1_000_000_000,
        UNIT as int,
    );
}

/// A bounded event time converts to bounded seconds.
proof fn lemma_when_secs_bound(when: int, bps: int)
    requires
        0 <= when <= MAX_WHEN_UNITS as int,
        MIN_BPS_UNITS as int <= bps,
    ensures
        0 <= when * UNIT as int / bps <= MAX_WHEN_UNITS as int * UNIT as int
            / MIN_BPS_UNITS as int,
{
    vstd::arithmetic::mul::lemma_mul_nonnegative(when, UNIT as int);
    vstd::arithmetic::div_mod::lemma_div_pos_is_pos(when * UNIT as int, bps);
    vstd::arithmetic::mul::lemma_mul_inequality(when, MAX_WHEN_UNITS as int, UNIT as int);
    vstd::arithmetic::div_mod::lemma_div_is_ordered(
        when * UNIT as int,
        MAX_WHEN_UNITS as int * UNIT as int,
        bps,
    );
    vstd::arithmetic::div_mod::lemma_div_is_ordered_by_denominator(
        MAX_WHEN_UNITS as int * UNIT as int,
        MIN_BPS_UNITS as int,
        bps,
    );
}

} // verus!
