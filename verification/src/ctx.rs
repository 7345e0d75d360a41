//! The app-wide event bus and per-event context: the typed events broadcast
//! to every component each tick, the reversible parameter actions, and the
//! context handed to event receivers, which collects emitted events, redraw
//! requests and registered actions.

use vstd::prelude::*;

verus! {

use crate::fixed::{Beats, R64, Secs};

/// The sound flavours a block can be set to.
#[derive(Clone, Copy, Debug, PartialEq, Eq, Structural)]
pub enum SoundType {
    Note,
    Noise,
    Custom,
}

impl SoundType {
    /// The flavour's display name.
    pub fn name(&self) -> (r: &'static str)
        ensures
            r@ == match *self {
                SoundType::Note => "Simple Wave"@,
                SoundType::Noise => "White Noise"@,
                SoundType::Custom => "Custom Audio"@,
            },
    {
        match self {
            SoundType::Note => "Simple Wave",
            SoundType::Noise => "White Noise",
            SoundType::Custom => "Custom Audio",
        }
    }
}

/// One reversible parameter change. Every variant stores what it replaced, so
/// it reverses without re-reading live state.
#[derive(Clone, Copy, Debug, PartialEq, Eq, Structural)]
pub enum ParamAction {
    SetVolume { from: R64, to: R64 },
    SetAttack { from: Beats, to: Beats },
    SetDecay { from: Beats, to: Beats },
    SetSustain { from: R64, to: R64 },
    SetRelease { from: Beats, to: Beats },
    SetRepCount { from: u32, to: u32 },
    SetSpeed { from: R64, to: R64 },
    SetBlockType { to: SoundType },
    SelectInput { from: Option<usize>, to: Option<usize> },
    OpenPopup { popup: u32 },
    ClosePopup { popup: u32 },
}

/// The typed events broadcast to every component each tick. Each component
/// consumes the subset relevant to it and ignores the rest.
#[derive(Debug)]
pub enum AppEvent {
    /// An animation frame at the given clock time.
    Frame { now: Secs },
    /// Playback was requested.
    StartPlay,
    /// Playback was stopped.
    StopPlay,
    /// The selected block's sound flavour was chosen.
    SetBlockType { ty: SoundType },
    /// A block was added at the given layer and offset.
    Add { layer: i64, offset: Beats },
    Volume { value: R64 },
    Attack { value: Beats },
    Decay { value: Beats },
    Sustain { value: R64 },
    Release { value: Beats },
    RepCount { value: u32 },
    Speed { value: R64 },
    MasterGain { value: R64 },
    /// An audio input entered the pool and is selected.
    AddInput { input: usize },
    /// An existing audio input was selected.
    SelectInput { input: usize },
    /// A batch of actions is being undone.
    Undo { actions: Vec<ParamAction> },
    /// A batch of actions is being redone.
    Redo { actions: Vec<ParamAction> },
    /// A popup was opened.
    OpenPopup { popup: u32 },
    /// The top popup was closed.
    ClosePopup,
    /// The editor plane must be redrawn.
    RedrawEditorPlane,
}

/// The context handed to every event receiver: the frame clock, the tempo,
/// the selected parameter tab, and the channels back to the host — emitted
/// events, a re-render request, and the parameter-action history.
pub struct ContextMut {
    /// The current frame's clock time.
    pub frame: Secs,
    /// The tempo, in beats per second.
    pub bps: Beats,
    /// Which parameter tab is selected in the UI.
    pub selected_tab: usize,
    /// Events emitted during this tick, in order.
    pub emitted: Vec<AppEvent>,
    /// Whether the host must re-render after this tick.
    pub rerender_needed: bool,
    /// Parameter actions that can be undone, oldest first.
    pub actions_done: Vec<ParamAction>,
    /// Parameter actions that can be redone, oldest first.
    pub actions_undone: Vec<ParamAction>,
}

impl ContextMut {
    /// A fresh context at the given clock time and tempo.
    pub fn new(frame: Secs, bps: Beats) -> (r: ContextMut)
        ensures
            r.frame == frame,
            r.bps == bps,
            r.selected_tab == 0,
            r.emitted@.len() == 0,
            !r.rerender_needed,
            r.actions_done@.len() == 0,
            r.actions_undone@.len() == 0,
    {
        ContextMut {
            frame,
            bps,
            selected_tab: 0,
            emitted: Vec::new(),
            rerender_needed: false,
            actions_done: Vec::new(),
            actions_undone: Vec::new(),
        }
    }

    /// The current frame's clock time.
    pub fn frame(&self) -> (r: Secs)
        ensures
            r == self.frame,
    {
        self.frame
    }

    /// Queues an event for broadcast after this tick.
    pub fn emit_event(&mut self, event: AppEvent)
        ensures
            final(self).emitted@ == old(self).emitted@.push(event),
            final(self).frame == old(self).frame,
            final(self).bps == old(self).bps,
            final(self).selected_tab == old(self).selected_tab,
            final(self).rerender_needed == old(self).rerender_needed,
            final(self).actions_done == old(self).actions_done,
            final(self).actions_undone == old(self).actions_undone,
    {
        self.emitted.push(event);
    }

    /// Asks the host to re-render after this tick.
    pub fn force_rerender(&mut self)
        ensures
            final(self).rerender_needed,
            final(self).frame == old(self).frame,
            final(self).bps == old(self).bps,
            final(self).selected_tab == old(self).selected_tab,
            final(self).emitted == old(self).emitted,
            final(self).actions_done == old(self).actions_done,
            final(self).actions_undone == old(self).actions_undone,
    {
        self.rerender_needed = true;
    }

    /// Records a completed parameter change; the redo stack is invalidated.
    pub fn register_action(&mut self, action: ParamAction)
        ensures
            final(self).actions_done@ == old(self).actions_done@.push(action),
            final(self).actions_undone@.len() == 0,
            final(self).frame == old(self).frame,
            final(self).bps == old(self).bps,
            final(self).selected_tab == old(self).selected_tab,
            final(self).emitted == old(self).emitted,
            final(self).rerender_needed == old(self).rerender_needed,
    {
        self.actions_done.push(action);
        self.actions_undone = Vec::new();
    }

    /// Pops the most recent action for undoing and moves it to the redo
    /// stack; the caller broadcasts it in an [`AppEvent::Undo`] batch.
    pub fn pop_for_undo(&mut self) -> (r: Option<ParamAction>)
        ensures
            r is Some <==> old(self).actions_done@.len() > 0,
            r is None ==> *final(self) == *old(self),
            r is Some ==> {
                &&& r->0 == old(self).actions_done@.last()
                &&& final(self).actions_done@ == old(self).actions_done@.drop_last()
                &&& final(self).actions_undone@ == old(self).actions_undone@.push(r->0)
            },
    {
        if self.actions_done.len() == 0 {
            return None;
        }
        let a = self.actions_done.pop().unwrap();
        self.actions_undone.push(a);
        Some(a)
    }

    /// Pops the most recently undone action for redoing and moves it back;
    /// the caller broadcasts it in an [`AppEvent::Redo`] batch.
    pub fn pop_for_redo(&mut self) -> (r: Option<ParamAction>)
        ensures
            r is Some <==> old(self).actions_undone@.len() > 0,
            r is None ==> *final(self) == *old(self),
            r is Some ==> {
                &&& r->0 == old(self).actions_undone@.last()
                &&& final(self).actions_undone@ == old(self).actions_undone@.drop_last()
                &&& final(self).actions_done@ == old(self).actions_done@.push(r->0)
            },
    {
        if self.actions_undone.len() == 0 {
            return None;
        }
        let a = self.actions_undone.pop().unwrap();
        self.actions_done.push(a);
        Some(a)
    }
}

} // verus!
