//! Graph-editor behaviour: ordering and selection invariants, undo and redo
//! round trips, the pointer focus machine, and selection remapping across a
//! re-sorting drag.

use wavexp::editor::{Focus, GraphEditor, PointerEvent, PointerEventKind};
use wavexp::fixed::R64;
use wavexp::note::Note;
use wavexp::sound::{NoteBlock, NoteBlockEvent, NoteSound};

fn beats(units: i64) -> R64 {
    R64::from_units(units)
}

fn block(offset_units: i64, value: u8, len_units: i64) -> NoteBlock {
    NoteBlock {
        offset: beats(offset_units),
        value: Note::new(value).unwrap(),
        len: beats(len_units),
    }
}

fn pattern_editor() -> GraphEditor<NoteBlock> {
    NoteSound::defaults().pattern
}

fn offsets(ed: &GraphEditor<NoteBlock>) -> Vec<i64> {
    ed.data.iter().map(|b| b.offset.units()).collect()
}

#[test]
fn add_point_keeps_order() {
    let mut ed = pattern_editor();
    ed.add_point(block(3_000_000, 18, 1_000_000));
    ed.add_point(block(1_000_000, 20, 1_000_000));
    let pos = ed.add_point(block(2_000_000, 22, 1_000_000));
    assert_eq!(pos, 1);
    assert_eq!(offsets(&ed), [1_000_000, 2_000_000, 3_000_000]);
}

#[test]
fn add_undo_redo_round_trip() {
    // an empty editor, one added point, an undo and a redo
    let mut ed = pattern_editor();
    let pos = ed.add_point(block(2_000_000, 18, 1_000_000));
    assert_eq!(pos, 0);
    assert_eq!(ed.len(), 1);
    assert!(ed.undo());
    assert_eq!(ed.len(), 0);
    assert!(ed.selection().is_empty());
    assert!(ed.redo());
    assert_eq!(ed.len(), 1);
    assert_eq!(ed.data[0].offset.units(), 2_000_000);
    assert_eq!(ed.data[0].value, Note::new(18).unwrap());
    // nothing left to redo
    assert!(!ed.redo());
}

#[test]
fn edits_then_equal_undos_restore_initial() {
    let mut ed = pattern_editor();
    ed.add_point(block(1_000_000, 18, 1_000_000));
    let initial = offsets(&ed);
    // four edits...
    ed.add_point(block(3_000_000, 20, 1_000_000));
    ed.add_point(block(2_000_000, 21, 1_000_000));
    ed.set_selection(vec![0, 2]);
    ed.nudge_point(0, beats(5_000_000), 0, false);
    assert_ne!(offsets(&ed), initial);
    // ...and four undos
    assert!(ed.undo());
    assert!(ed.undo());
    assert!(ed.undo());
    assert!(ed.undo());
    assert_eq!(offsets(&ed), initial);
    assert!(ed.selection().is_empty());
    // one more undo reverses the opening insertion, and then nothing is left
    assert!(ed.undo());
    assert_eq!(ed.len(), 0);
    assert!(!ed.undo());
}

#[test]
fn drag_resort_remaps_selection() {
    // dragging the last point to an earlier offset re-sorts the data and the
    // selection keeps pointing at the same logical point
    let mut ed = pattern_editor();
    ed.add_point(block(0, 18, 1_000_000));
    ed.add_point(block(1_000_000, 19, 1_000_000));
    ed.add_point(block(2_000_000, 20, 1_000_000));
    ed.set_selection(vec![2]);
    let m = ed.nudge_point(2, beats(-1_500_000), 0, false);
    assert_eq!(m.from, 2);
    assert_eq!(m.to, 1);
    assert_eq!(offsets(&ed), [0, 500_000, 1_000_000]);
    assert_eq!(ed.selection().as_slice(), [1]);
    assert_eq!(ed.data[1].value, Note::new(20).unwrap());
}

#[test]
fn remove_points_remaps_selection() {
    let mut ed = pattern_editor();
    ed.add_point(block(0, 18, 1_000_000));
    ed.add_point(block(1_000_000, 19, 1_000_000));
    ed.add_point(block(2_000_000, 20, 1_000_000));
    ed.set_selection(vec![0, 1, 2]);
    assert!(ed.remove_points(&vec![1]).is_ok());
    assert_eq!(offsets(&ed), [0, 2_000_000]);
    assert_eq!(ed.selection().as_slice(), [0, 1]);
    // an out-of-bounds removal changes nothing
    let before = offsets(&ed);
    assert!(ed.remove_points(&vec![7]).is_err());
    assert_eq!(offsets(&ed), before);
}

fn ev(kind: PointerEventKind, x_units: i64, y_units: i64, meta: bool, shift: bool) -> PointerEvent {
    PointerEvent { kind, x: R64::from_units(x_units), y: R64::from_units(y_units), meta, shift }
}

#[test]
fn focus_machine_pan_and_leave() {
    let mut ed = pattern_editor();
    assert!(matches!(ed.focus, Focus::Idle));
    ed.handle_pointer(&ev(PointerEventKind::Enter, 0, 0, false, false));
    assert!(matches!(ed.focus, Focus::HoverPlane));
    ed.handle_pointer(&ev(PointerEventKind::Down, 0, 0, false, false));
    assert!(matches!(ed.focus, Focus::PanPlane { .. }));
    assert!(ed.captured);
    // while captured, leaving does not lose the focus owner
    ed.handle_pointer(&ev(PointerEventKind::Leave, 0, 0, false, false));
    assert!(ed.captured);
    assert!(matches!(ed.focus, Focus::PanPlane { .. }));
    ed.handle_pointer(&ev(PointerEventKind::Up, 0, 0, false, false));
    assert!(!ed.captured);
    assert!(matches!(ed.focus, Focus::HoverPlane));
    ed.handle_pointer(&ev(PointerEventKind::Leave, 0, 0, false, false));
    assert!(matches!(ed.focus, Focus::Idle));
}

#[test]
fn focus_machine_add_drag_snaps() {
    let mut ed = pattern_editor();
    ed.handle_pointer(&ev(PointerEventKind::Enter, 0, 0, false, false));
    ed.handle_pointer(&ev(PointerEventKind::Down, 0, 0, true, false));
    assert!(matches!(ed.focus, Focus::AddDrag { .. }));
    ed.handle_pointer(&ev(PointerEventKind::Moved, 2_500_000, 0, true, false));
    ed.handle_pointer(&ev(PointerEventKind::Up, 2_500_000, 0, true, false));
    assert!(!ed.captured);
    assert_eq!(ed.len(), 1);
    // the location snapped down to the one-beat grid; the top row is the
    // highest note
    assert_eq!(ed.data[0].offset.units(), 2_000_000);
    assert_eq!(ed.data[0].value, Note::new(35).unwrap());
}

#[test]
fn focus_machine_marquee_selects() {
    let mut ed = pattern_editor();
    ed.add_point(block(0, 35, 1_000_000));
    ed.add_point(block(1_000_000, 35, 1_000_000));
    ed.add_point(block(2_000_000, 35, 1_000_000));
    ed.handle_pointer(&ev(PointerEventKind::Enter, 0, 0, false, false));
    ed.handle_pointer(&ev(PointerEventKind::Down, -500_000, -500_000, false, true));
    assert!(matches!(ed.focus, Focus::SelectArea { .. }));
    ed.handle_pointer(&ev(PointerEventKind::Moved, 1_500_000, 500_000, false, true));
    ed.handle_pointer(&ev(PointerEventKind::Up, 1_500_000, 500_000, false, true));
    assert_eq!(ed.selection().as_slice(), [0, 1]);
}

#[test]
fn escape_cancels_drag() {
    let mut ed = pattern_editor();
    ed.add_point(block(0, 18, 1_000_000));
    ed.handle_pointer(&ev(PointerEventKind::Enter, 0, 0, false, false));
    ed.handle_pointer(&ev(PointerEventKind::Moved, 500_000, 17_500_000, false, false));
    assert!(matches!(ed.focus, Focus::HoverPoint { id: 0 }));
    ed.handle_pointer(&ev(PointerEventKind::Down, 500_000, 17_500_000, false, false));
    assert!(matches!(ed.focus, Focus::MovePoint { .. }));
    assert!(ed.captured);
    ed.handle_escape();
    assert!(!ed.captured);
    assert!(matches!(ed.focus, Focus::Idle));
    // the drag never committed, so the point is where it was
    assert_eq!(ed.data[0].offset.units(), 0);
}

#[test]
fn click_replaces_or_toggles_selection() {
    let mut ed = pattern_editor();
    ed.add_point(block(0, 18, 1_000_000));
    ed.add_point(block(1_000_000, 19, 1_000_000));
    ed.set_selection(vec![0, 1]);
    // a plain zero-delta drag on point 1 is a click: the selection becomes
    // just that point
    ed.handle_pointer(&ev(PointerEventKind::Enter, 0, 0, false, false));
    ed.handle_pointer(&ev(PointerEventKind::Moved, 1_500_000, 16_500_000, false, false));
    assert!(matches!(ed.focus, Focus::HoverPoint { id: 1 }));
    ed.handle_pointer(&ev(PointerEventKind::Down, 1_500_000, 16_500_000, false, false));
    ed.handle_pointer(&ev(PointerEventKind::Up, 1_500_000, 16_500_000, false, false));
    assert_eq!(ed.selection().as_slice(), [1]);
    // a shift-click on it again toggles it out...
    ed.handle_pointer(&ev(PointerEventKind::Moved, 1_500_000, 16_500_000, false, true));
    ed.handle_pointer(&ev(PointerEventKind::Down, 1_500_000, 16_500_000, false, true));
    ed.handle_pointer(&ev(PointerEventKind::Up, 1_500_000, 16_500_000, false, true));
    assert!(ed.selection().is_empty());
    // ...and a third shift-click toggles it back in
    ed.handle_pointer(&ev(PointerEventKind::Moved, 1_500_000, 16_500_000, false, true));
    ed.handle_pointer(&ev(PointerEventKind::Down, 1_500_000, 16_500_000, false, true));
    ed.handle_pointer(&ev(PointerEventKind::Up, 1_500_000, 16_500_000, false, true));
    assert_eq!(ed.selection().as_slice(), [1]);
}

#[test]
fn drag_moves_whole_selection() {
    let mut ed = pattern_editor();
    ed.add_point(block(0, 18, 1_000_000));
    ed.add_point(block(1_000_000, 19, 1_000_000));
    ed.add_point(block(5_000_000, 20, 1_000_000));
    ed.set_selection(vec![0, 1]);
    // drag point 0 (selected) one beat right: both selected points move
    ed.handle_pointer(&ev(PointerEventKind::Enter, 0, 0, false, false));
    ed.handle_pointer(&ev(PointerEventKind::Moved, 500_000, 17_500_000, false, false));
    assert!(matches!(ed.focus, Focus::HoverPoint { id: 0 }));
    ed.handle_pointer(&ev(PointerEventKind::Down, 500_000, 17_500_000, false, false));
    ed.handle_pointer(&ev(PointerEventKind::Moved, 1_500_000, 17_500_000, false, false));
    ed.handle_pointer(&ev(PointerEventKind::Up, 1_500_000, 17_500_000, false, false));
    assert_eq!(offsets(&ed), [1_000_000, 2_000_000, 5_000_000]);
    assert_eq!(ed.selection().as_slice(), [0, 1]);
}

#[test]
fn note_block_event_add_content() {
    let mut ed = pattern_editor();
    // the added block lands clamped, saturated and one beat long
    let r = NoteBlockEvent::Add(beats(-3_000_000), Note::new(12).unwrap()).apply(&mut ed);
    assert!(r.is_ok());
    assert_eq!(ed.data[0].offset.units(), 0);
    assert_eq!(ed.data[0].value, Note::new(12).unwrap());
    assert_eq!(ed.data[0].len.units(), 1_000_000);
}

#[test]
fn snap_switch_positions() {
    let mut ed = pattern_editor();
    assert_eq!(ed.snap_step.units(), 1_000_000);
    ed.set_snap(4);
    assert_eq!(ed.snap_step.units(), 125_000);
    ed.set_snap(0);
    assert_eq!(ed.snap_step.units(), 0);
    ed.set_snap(2);
    assert_eq!(ed.snap_step.units(), 500_000);
}

#[test]
fn note_block_events_apply() {
    let mut ed = pattern_editor();
    let redraw = NoteBlockEvent::Add(beats(1_000_000), Note::new(12).unwrap()).apply(&mut ed);
    assert!(redraw.is_ok());
    assert_eq!(ed.len(), 1);
    let redraw = NoteBlockEvent::Remove(vec![0]).apply(&mut ed);
    assert!(redraw.is_ok());
    assert_eq!(ed.len(), 0);
    assert!(NoteBlockEvent::Remove(vec![3]).apply(&mut ed).is_err());
    assert!(NoteBlockEvent::Redraw.apply(&mut ed).is_ok());
}
