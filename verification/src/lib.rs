//! Core of an in-browser music workstation: pitch and timing primitives,
//! a generic two-axis graph editor with undo history, the sound model,
//! and the sequencer's event pump.
//!
//! Everything time-valued is held in a fixed-point real type ([`fixed::R64`]);
//! the audio backend and the DOM are outside collaborators, so playback is
//! computed here as plain schedule data that a host hands to its audio graph.
//!
//! Reversible actions live in two histories: each graph editor records its
//! own structural actions (insertions, removals, moves, selections), while
//! the event context records parameter actions (volumes, envelopes, block
//! types, popups). A host that wants one global undo order interleaves the
//! two stacks itself, undoing from whichever holds the later action.

pub mod ctx;
pub mod editor;
pub mod fixed;
pub mod geom;
pub mod input;
pub mod note;
pub mod sequencer;
pub mod sound;
pub mod utils;

use vstd::prelude::*;

verus! {

/// Number of fixed-point units that stand for the value one.
pub const UNIT: i64 = 1_000_000;

} // verus!
